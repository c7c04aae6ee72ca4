use crate::ast::{
    AssignmentExpression, BinaryExpression, BooleanLiteral, CallExpression, Codespan,
    CompoundStatement, Declaration, Expression, ExpressionStatement, Factor, FunctionDeclaration,
    Identifier, IterationStatement, NumberLiteral, Operation, Parameter, Params, Program,
    ReturnStatement, SelectionStatement, Statement, TypeSpecifier, TypeSpecifierKind, Var,
    VarDeclaration,
};
use crate::lexer::token::{KeywordType, Token, TokenType};
use crate::lexer::util;
use vstd::prelude::*;

verus! {

/// Where parsing stopped: the token kind that was wanted (if one kind was),
/// the kind found (none at the end of input), and the offending offsets.
#[derive(Debug, Clone, Copy, PartialEq, Eq, Structural)]
pub struct ParseError {
    pub expected: Option<TokenType>,
    pub found: Option<TokenType>,
    pub start: usize,
    pub end: usize,
}

pub open spec fn not_comment(t: Token) -> bool {
    t.token_type != TokenType::Comment
}

/// The comparison operator that a token stands for.
pub open spec fn rel_op_of(t: Token) -> Option<Operation> {
    let (s, e) = (t.start_index, t.end_index);
    match t.token_type {
        TokenType::Le => Some(Operation::LE(s, e)),
        TokenType::Ge => Some(Operation::GE(s, e)),
        TokenType::Gt => Some(Operation::GT(s, e)),
        TokenType::Lt => Some(Operation::LT(s, e)),
        TokenType::Eq => Some(Operation::EQ(s, e)),
        TokenType::Ne => Some(Operation::NE(s, e)),
        _ => None,
    }
}

/// The additive operator that a token stands for.
pub open spec fn add_op_of(t: Token) -> Option<Operation> {
    match t.token_type {
        TokenType::Plus => Some(Operation::PLUS(t.start_index, t.end_index)),
        TokenType::Minus => Some(Operation::MINUS(t.start_index, t.end_index)),
        _ => None,
    }
}

/// The multiplicative operator that a token stands for.
pub open spec fn mul_op_of(t: Token) -> Option<Operation> {
    match t.token_type {
        TokenType::Multiply => Some(Operation::MULTIPLY(t.start_index, t.end_index)),
        TokenType::Times => Some(Operation::DIVIDE(t.start_index, t.end_index)),
        _ => None,
    }
}

/// The type that a keyword token names.
pub open spec fn type_kind_of(t: TokenType) -> Option<TypeSpecifierKind> {
    match t {
        TokenType::Keyword(KeywordType::INT) => Some(TypeSpecifierKind::Int),
        TokenType::Keyword(KeywordType::VOID) => Some(TypeSpecifierKind::Void),
        TokenType::Keyword(KeywordType::BOOL) => Some(TypeSpecifierKind::Boolean),
        _ => None,
    }
}

/// A recursive-descent parser over a token list.
pub struct Parser {
    token_list: Vec<Token>,
    cursor: usize,
    source_len: usize,
}

impl Parser {
    /// The tokens being parsed.
    pub closed spec fn tokens(&self) -> Seq<Token> {
        self.token_list@
    }

    /// The index of the next token.
    pub closed spec fn pos(&self) -> int {
        self.cursor as int
    }

    pub closed spec fn wf(&self) -> bool {
        self.cursor <= self.token_list@.len()
    }

    /// A parser at the first of `token_list`'s tokens that are not comments.
    pub fn new(token_list: Vec<Token>, source_file: &str) -> (r: Self)
        ensures
            r.wf(),
            r.pos() == 0,
            r.tokens() == token_list@.filter(|t: Token| not_comment(t)),
    {
        let ghost all = token_list@;
        let ghost pred = |t: Token| not_comment(t);
        let mut rest = token_list;
        let mut kept: Vec<Token> = Vec::new();
        let ghost k: int = 0;
        assert(all.subrange(0, 0) =~= Seq::<Token>::empty());
        proof {
            reveal(Seq::filter);
        }
        while rest.len() > 0
            invariant
                0 <= k <= all.len(),
                pred == (|t: Token| not_comment(t)),
                rest@ == all.subrange(k, all.len() as int),
                kept@ == all.subrange(0, k).filter(pred),
            decreases rest@.len(),
        {
            let t = rest.remove(0);
            let ghost tg = t;
            let keep = t.token_type != TokenType::Comment;
            if keep {
                kept.push(t);
            }
            proof {
                reveal(Seq::filter);
                let s1 = all.subrange(0, k + 1);
                assert(s1.drop_last() =~= all.subrange(0, k));
                assert(s1.last() == tg);
                assert(pred(tg) == keep);
                k = k + 1;
                assert(rest@ =~= all.subrange(k, all.len() as int));
            }
        }
        assert(all.subrange(0, all.len() as int) =~= all);
        let source_len = util::chars_of(source_file).len();
        Parser { token_list: kept, cursor: 0, source_len }
    }

    fn next_type(&self) -> (r: Option<TokenType>)
        requires
            self.wf(),
        ensures
            r == (if self.cursor < self.token_list@.len() {
                Some(self.token_list@[self.cursor as int].token_type)
            } else {
                None::<TokenType>
            }),
    {
        if self.cursor < self.token_list.len() {
            Some(self.token_list[self.cursor].token_type)
        } else {
            None
        }
    }

    fn match_token(&self, token_type: TokenType) -> (r: bool)
        requires
            self.wf(),
        ensures
            r == (self.cursor < self.token_list@.len() && self.token_list@[self.cursor as int].token_type
                == token_type),
    {
        match self.next_type() {
            Some(t) => t == token_type,
            None => false,
        }
    }

    fn match_type_specifier(&self) -> (r: bool)
        requires
            self.wf(),
        ensures
            r == (self.cursor < self.token_list@.len() && type_kind_of(
                self.token_list@[self.cursor as int].token_type,
            ) is Some),
    {
        self.match_token(TokenType::Keyword(KeywordType::VOID)) || self.match_token(
            TokenType::Keyword(KeywordType::INT),
        ) || self.match_token(TokenType::Keyword(KeywordType::BOOL))
    }

    fn match_rel_op(&self) -> (r: Option<Operation>)
        requires
            self.wf(),
        ensures
            r is Some ==> self.cursor < self.token_list@.len(),
            self.cursor < self.token_list@.len() ==> r == rel_op_of(self.token_list@[self.cursor as int]),
    {
        if self.cursor >= self.token_list.len() {
            return None;
        }
        let token = &self.token_list[self.cursor];
        let (start, end) = (token.start_index, token.end_index);
        match token.token_type {
            TokenType::Le => Some(Operation::LE(start, end)),
            TokenType::Ge => Some(Operation::GE(start, end)),
            TokenType::Gt => Some(Operation::GT(start, end)),
            TokenType::Lt => Some(Operation::LT(start, end)),
            TokenType::Eq => Some(Operation::EQ(start, end)),
            TokenType::Ne => Some(Operation::NE(start, end)),
            _ => None,
        }
    }

    fn match_add_op(&self) -> (r: Option<Operation>)
        requires
            self.wf(),
        ensures
            r is Some ==> self.cursor < self.token_list@.len(),
            self.cursor < self.token_list@.len() ==> r == add_op_of(self.token_list@[self.cursor as int]),
    {
        if self.cursor >= self.token_list.len() {
            return None;
        }
        let token = &self.token_list[self.cursor];
        let (start, end) = (token.start_index, token.end_index);
        match token.token_type {
            TokenType::Plus => Some(Operation::PLUS(start, end)),
            TokenType::Minus => Some(Operation::MINUS(start, end)),
            _ => None,
        }
    }

    fn match_mul_op(&self) -> (r: Option<Operation>)
        requires
            self.wf(),
        ensures
            r is Some ==> self.cursor < self.token_list@.len(),
            self.cursor < self.token_list@.len() ==> r == mul_op_of(self.token_list@[self.cursor as int]),
    {
        if self.cursor >= self.token_list.len() {
            return None;
        }
        let token = &self.token_list[self.cursor];
        let (start, end) = (token.start_index, token.end_index);
        match token.token_type {
            TokenType::Multiply => Some(Operation::MULTIPLY(start, end)),
            TokenType::Times => Some(Operation::DIVIDE(start, end)),
            _ => None,
        }
    }

    fn consume(&mut self)
        requires
            old(self).cursor < old(self).token_list@.len(),
        ensures
            final(self).cursor == old(self).cursor + 1,
            final(self).token_list == old(self).token_list,
    {
        let n = self.token_list.len();
        assert(self.cursor < n);
        self.cursor += 1;
    }

    /// An error at the next token, or at the end of the source when none is left.
    fn error_here(&self, expected: Option<TokenType>) -> (r: ParseError)
        requires
            self.wf(),
        ensures
            r.expected == expected,
    {
        if self.cursor < self.token_list.len() {
            let token = &self.token_list[self.cursor];
            ParseError {
                expected,
                found: Some(token.token_type),
                start: token.start_index,
                end: token.end_index,
            }
        } else {
            let start = if self.source_len > 0 {
                self.source_len - 1
            } else {
                0
            };
            ParseError { expected, found: None, start, end: self.source_len }
        }
    }

    /// Consumes the next token if it has the given kind; returns its offsets.
    fn match_and_consume(&mut self, token_type: TokenType) -> (r: Result<(usize, usize), ParseError>)
        requires
            old(self).wf(),
        ensures
            final(self).wf(),
            final(self).token_list == old(self).token_list,
            match r {
                Ok((s, e)) => {
                    &&& old(self).cursor < old(self).token_list@.len()
                    &&& old(self).token_list@[old(self).cursor as int].token_type == token_type
                    &&& s == old(self).token_list@[old(self).cursor as int].start_index
                    &&& e == old(self).token_list@[old(self).cursor as int].end_index
                    &&& final(self).cursor == old(self).cursor + 1
                },
                Err(_) => final(self).cursor == old(self).cursor,
            },
    {
        if self.match_token(token_type) {
            let token = &self.token_list[self.cursor];
            let span = (token.start_index, token.end_index);
            self.consume();
            Ok(span)
        } else {
            Err(self.error_here(Some(token_type)))
        }
    }

    /// Consumes an identifier.
    fn parse_identifier(&mut self) -> (r: Result<Identifier, ParseError>)
        requires
            old(self).wf(),
        ensures
            final(self).wf(),
            final(self).token_list == old(self).token_list,
            match r {
                Ok(id) => {
                    &&& old(self).cursor < old(self).token_list@.len()
                    &&& old(self).token_list@[old(self).cursor as int].token_type == TokenType::Id
                    &&& id.value@ == old(self).token_list@[old(self).cursor as int].content@
                    &&& final(self).cursor == old(self).cursor + 1
                },
                Err(_) => final(self).cursor == old(self).cursor,
            },
    {
        if self.match_token(TokenType::Id) {
            let token = &self.token_list[self.cursor];
            let id = Identifier {
                value: token.content.clone(),
                start: token.start_index,
                end: token.end_index,
            };
            self.consume();
            Ok(id)
        } else {
            Err(self.error_here(Some(TokenType::Id)))
        }
    }

    fn parse_type_specifier(&mut self) -> (r: Result<TypeSpecifier, ParseError>)
        requires
            old(self).wf(),
        ensures
            final(self).wf(),
            final(self).token_list == old(self).token_list,
            match r {
                Ok(t) => {
                    &&& final(self).cursor == old(self).cursor + 1
                    &&& type_kind_of(old(self).token_list@[old(self).cursor as int].token_type) == Some(t.kind)
                    &&& t.start == old(self).token_list@[old(self).cursor as int].start_index
                    &&& t.end == old(self).token_list@[old(self).cursor as int].end_index
                },
                Err(_) => {
                    &&& final(self).cursor == old(self).cursor
                    &&& (old(self).cursor < old(self).token_list@.len() ==> type_kind_of(
                        old(self).token_list@[old(self).cursor as int].token_type,
                    ) is None)
                },
            },
    {
        if self.cursor >= self.token_list.len() {
            return Err(self.error_here(None));
        }
        let token = &self.token_list[self.cursor];
        let (start, end) = (token.start_index, token.end_index);
        let kind = match token.token_type {
            TokenType::Keyword(KeywordType::INT) => TypeSpecifierKind::Int,
            TokenType::Keyword(KeywordType::VOID) => TypeSpecifierKind::Void,
            TokenType::Keyword(KeywordType::BOOL) => TypeSpecifierKind::Boolean,
            _ => {
                return Err(self.error_here(None));
            },
        };
        self.consume();
        Ok(TypeSpecifier { kind, start, end })
    }
    fn parse_expression(&mut self) -> (r: Result<Expression, ParseError>)
        requires
            old(self).wf(),
        ensures
            final(self).wf(),
            final(self).token_list == old(self).token_list,
            old(self).cursor <= final(self).cursor,
            r is Ok ==> old(self).cursor < final(self).cursor,
        decreases self.token_list@.len() - self.cursor, 5nat,
    {
        let cursor = self.cursor;
        match self.parse_assignment_expression() {
            Ok(expr) => {
                return Ok(expr);
            },
            Err(_) => {},
        }
        self.cursor = cursor;
        match self.parse_simple_expression() {
            Ok(expr) => Ok(expr),
            Err(_) => Err(self.error_here(None)),
        }
    }

    /// `var = expression`
    fn parse_assignment_expression(&mut self) -> (r: Result<Expression, ParseError>)
        requires
            old(self).wf(),
        ensures
            final(self).wf(),
            final(self).token_list == old(self).token_list,
            old(self).cursor <= final(self).cursor,
            r is Ok ==> old(self).cursor < final(self).cursor,
        decreases self.token_list@.len() - self.cursor, 4nat,
    {
        let var = match self.parse_var() {
            Ok(v) => v,
            Err(e) => {
                return Err(e);
            },
        };
        match self.match_and_consume(TokenType::Assign) {
            Ok(_) => {},
            Err(e) => {
                return Err(e);
            },
        }
        let expression = match self.parse_expression() {
            Ok(x) => x,
            Err(e) => {
                return Err(e);
            },
        };
        let start = var.start;
        let end = expression.end();
        Ok(Expression::Assignment(AssignmentExpression { lhs: var, rhs: Box::new(expression), start, end }))
    }

    /// `id` or `id [ expression ]`
    fn parse_var(&mut self) -> (r: Result<Var, ParseError>)
        requires
            old(self).wf(),
        ensures
            final(self).wf(),
            final(self).token_list == old(self).token_list,
            old(self).cursor <= final(self).cursor,
            r is Ok ==> old(self).cursor < final(self).cursor,
        decreases self.token_list@.len() - self.cursor, 3nat,
    {
        let id = match self.parse_identifier() {
            Ok(id) => id,
            Err(e) => {
                return Err(e);
            },
        };
        let mut expression = None;
        let end = if self.match_token(TokenType::Lbrack) {
            self.consume();
            match self.parse_expression() {
                Ok(x) => {
                    expression = Some(Box::new(x));
                },
                Err(e) => {
                    return Err(e);
                },
            }
            match self.match_and_consume(TokenType::Rbrack) {
                Ok((_, e)) => e,
                Err(e) => {
                    return Err(e);
                },
            }
        } else {
            id.end
        };
        let start = id.start;
        Ok(Var { id, expression, start, end })
    }

    /// An additive expression, optionally compared with a second one.
    fn parse_simple_expression(&mut self) -> (r: Result<Expression, ParseError>)
        requires
            old(self).wf(),
        ensures
            final(self).wf(),
            final(self).token_list == old(self).token_list,
            old(self).cursor <= final(self).cursor,
            r is Ok ==> old(self).cursor < final(self).cursor,
        decreases self.token_list@.len() - self.cursor, 3nat,
    {
        let left = match self.parse_additive_expression() {
            Ok(x) => x,
            Err(e) => {
                return Err(e);
            },
        };
        match self.match_rel_op() {
            Some(operation) => {
                self.consume();
                let right = match self.parse_additive_expression() {
                    Ok(x) => x,
                    Err(e) => {
                        return Err(e);
                    },
                };
                let start = left.start();
                let end = right.end();
                Ok(Expression::BinaryExpression(BinaryExpression {
                    left: Box::new(left),
                    right: Box::new(right),
                    operation,
                    start,
                    end,
                }))
            },
            None => Ok(left),
        }
    }

    /// Terms joined by `+` and `-`, grouped from the left.
    fn parse_additive_expression(&mut self) -> (r: Result<Expression, ParseError>)
        requires
            old(self).wf(),
        ensures
            final(self).wf(),
            final(self).token_list == old(self).token_list,
            old(self).cursor <= final(self).cursor,
            r is Ok ==> old(self).cursor < final(self).cursor,
        decreases self.token_list@.len() - self.cursor, 2nat,
    {
        let ghost entry = self.cursor;
        let mut left = match self.parse_term() {
            Ok(x) => x,
            Err(e) => {
                return Err(e);
            },
        };
        loop
            invariant
                self.wf(),
                self.token_list == old(self).token_list,
                entry == old(self).cursor,
                entry < self.cursor,
            decreases self.token_list@.len() - self.cursor,
        {
            let operation = match self.match_add_op() {
                Some(op) => op,
                None => {
                    break;
                },
            };
            self.consume();
            let right = match self.parse_term() {
                Ok(x) => x,
                Err(e) => {
                    return Err(e);
                },
            };
            let start = left.start();
            let end = right.end();
            left = Expression::BinaryExpression(BinaryExpression {
                left: Box::new(left),
                right: Box::new(right),
                operation,
                start,
                end,
            });
        }
        Ok(left)
    }

    /// Factors joined by `*` and `/`, grouped from the left.
    fn parse_term(&mut self) -> (r: Result<Expression, ParseError>)
        requires
            old(self).wf(),
        ensures
            final(self).wf(),
            final(self).token_list == old(self).token_list,
            old(self).cursor <= final(self).cursor,
            r is Ok ==> old(self).cursor < final(self).cursor,
        decreases self.token_list@.len() - self.cursor, 1nat,
    {
        let ghost entry = self.cursor;
        let mut left = match self.parse_factor() {
            Ok(x) => x,
            Err(e) => {
                return Err(e);
            },
        };
        loop
            invariant
                self.wf(),
                self.token_list == old(self).token_list,
                entry == old(self).cursor,
                entry < self.cursor,
            decreases self.token_list@.len() - self.cursor,
        {
            let operation = match self.match_mul_op() {
                Some(op) => op,
                None => {
                    break;
                },
            };
            self.consume();
            let right = match self.parse_factor() {
                Ok(x) => x,
                Err(e) => {
                    return Err(e);
                },
            };
            let start = left.start();
            let end = right.end();
            left = Expression::BinaryExpression(BinaryExpression {
                left: Box::new(left),
                right: Box::new(right),
                operation,
                start,
                end,
            });
        }
        Ok(left)
    }

    /// A literal, a parenthesised expression, a variable, an array element or a call.
    fn parse_factor(&mut self) -> (r: Result<Expression, ParseError>)
        requires
            old(self).wf(),
        ensures
            final(self).wf(),
            final(self).token_list == old(self).token_list,
            old(self).cursor <= final(self).cursor,
            r is Ok ==> old(self).cursor < final(self).cursor,
        decreases self.token_list@.len() - self.cursor, 0nat,
    {
        if self.cursor >= self.token_list.len() {
            return Err(self.error_here(None));
        }
        let token = &self.token_list[self.cursor];
        let start = token.start_index;
        let end = token.end_index;
        match token.token_type {
            TokenType::NumberLiteral => {
                let digits = util::chars_of(token.content.as_str());
                match util::decimal_value(&digits) {
                    Some(value) => {
                        self.consume();
                        Ok(Expression::Factor(Factor::NumberLiteral(NumberLiteral { value, start, end })))
                    },
                    None => Err(self.error_here(None)),
                }
            },
            TokenType::BooleanLiteral => {
                let value = util::same_text(&token.content, "true");
                self.consume();
                Ok(Expression::Factor(Factor::BooleanLiteral(BooleanLiteral { value, start, end })))
            },
            TokenType::Lparen => {
                self.consume();
                let expression = match self.parse_expression() {
                    Ok(x) => x,
                    Err(e) => {
                        return Err(e);
                    },
                };
                match self.match_and_consume(TokenType::Rparen) {
                    Ok(_) => {},
                    Err(e) => {
                        return Err(e);
                    },
                }
                Ok(Expression::Factor(Factor::Expression(Box::new(expression))))
            },
            TokenType::Id => {
                let value = token.content.clone();
                self.consume();
                if self.match_token(TokenType::Lparen) {
                    self.consume();
                    let arguments = match self.parse_args() {
                        Ok(a) => a,
                        Err(e) => {
                            return Err(e);
                        },
                    };
                    let end = match self.match_and_consume(TokenType::Rparen) {
                        Ok((_, e)) => e,
                        Err(e) => {
                            return Err(e);
                        },
                    };
                    Ok(Expression::Factor(Factor::CallExpression(CallExpression {
                        id: Identifier { value, start, end },
                        arguments,
                        start,
                        end,
                    })))
                } else if self.match_token(TokenType::Lbrack) {
                    self.consume();
                    let index = match self.parse_expression() {
                        Ok(x) => x,
                        Err(e) => {
                            return Err(e);
                        },
                    };
                    let end = match self.match_and_consume(TokenType::Rbrack) {
                        Ok((_, e)) => e,
                        Err(e) => {
                            return Err(e);
                        },
                    };
                    Ok(Expression::Factor(Factor::Var(Var {
                        id: Identifier { value, start, end },
                        expression: Some(Box::new(index)),
                        start,
                        end,
                    })))
                } else {
                    Ok(Expression::Factor(Factor::Var(Var {
                        id: Identifier { value, start, end },
                        expression: None,
                        start,
                        end,
                    })))
                }
            },
            _ => Err(self.error_here(None)),
        }
    }

    /// Call arguments, up to the closing parenthesis.
    fn parse_args(&mut self) -> (r: Result<Vec<Expression>, ParseError>)
        requires
            old(self).wf(),
        ensures
            final(self).wf(),
            final(self).token_list == old(self).token_list,
            old(self).cursor <= final(self).cursor,
        decreases self.token_list@.len() - self.cursor, 6nat,
    {
        let mut args: Vec<Expression> = Vec::new();
        if self.match_token(TokenType::Rparen) {
            return Ok(args);
        }
        match self.parse_expression() {
            Ok(x) => {
                args.push(x);
            },
            Err(e) => {
                return Err(e);
            },
        }
        while !self.match_token(TokenType::Rparen)
            invariant
                self.wf(),
                self.token_list == old(self).token_list,
                old(self).cursor <= self.cursor,
            decreases self.token_list@.len() - self.cursor,
        {
            match self.match_and_consume(TokenType::Comma) {
                Ok(_) => {},
                Err(e) => {
                    return Err(e);
                },
            }
            match self.parse_expression() {
                Ok(x) => {
                    args.push(x);
                },
                Err(e) => {
                    return Err(e);
                },
            }
        }
        Ok(args)
    }

    /// Parses the whole token list into a program: declarations up to the end.
    pub fn parse_program(&mut self) -> (r: Result<Program, ParseError>)
        requires
            old(self).wf(),
        ensures
            final(self).wf(),
            final(self).tokens() == old(self).tokens(),
            r is Ok ==> final(self).pos() == final(self).tokens().len(),
            old(self).pos() == old(self).tokens().len() ==> r is Ok && r->Ok_0.declarations@.len() == 0,
    {
        let mut declarations: Vec<Declaration> = Vec::new();
        let mut end: usize = 0;
        while self.cursor < self.token_list.len()
            invariant
                self.wf(),
                self.token_list == old(self).token_list,
                old(self).cursor <= self.cursor,
                declarations@.len() > 0 ==> old(self).cursor < old(self).token_list@.len(),
            decreases self.token_list@.len() - self.cursor,
        {
            let declaration = match self.parse_declaration() {
                Ok(d) => d,
                Err(e) => {
                    return Err(e);
                },
            };
            end = declaration.end();
            declarations.push(declaration);
        }
        Ok(Program { declarations, start: 0, end })
    }

    /// A function declaration when the type and name are followed by `(`,
    /// otherwise a variable declaration.
    fn parse_declaration(&mut self) -> (r: Result<Declaration, ParseError>)
        requires
            old(self).wf(),
        ensures
            final(self).wf(),
            final(self).token_list == old(self).token_list,
            old(self).cursor <= final(self).cursor,
            r is Ok ==> old(self).cursor < final(self).cursor,
        decreases self.token_list@.len() - self.cursor, 20nat,
    {
        if !self.match_type_specifier() {
            return Err(self.error_here(None));
        }
        let n = self.token_list.len();
        if self.cursor + 1 >= n || self.token_list[self.cursor + 1].token_type != TokenType::Id {
            let entry = self.cursor;
            self.consume();
            let e = self.error_here(Some(TokenType::Id));
            self.cursor = entry;
            return Err(e);
        }
        if self.cursor + 2 < n && self.token_list[self.cursor + 2].token_type == TokenType::Lparen {
            match self.parse_function_declaration() {
                Ok(f) => Ok(Declaration::FunctionDeclaration(f)),
                Err(e) => {
                return Err(e);
            },
            }
        } else {
            match self.parse_variable_declaration() {
                Ok(v) => Ok(Declaration::VarDeclaration(v)),
                Err(e) => {
                return Err(e);
            },
            }
        }
    }

    /// `type id ;`, `type id = expression ;`, `type id [ num ] ;` or
    /// `type id [ num ] = { expression, ... } ;`
    fn parse_variable_declaration(&mut self) -> (r: Result<VarDeclaration, ParseError>)
        requires
            old(self).wf(),
        ensures
            final(self).wf(),
            final(self).token_list == old(self).token_list,
            old(self).cursor <= final(self).cursor,
            r is Ok ==> old(self).cursor < final(self).cursor,
        decreases self.token_list@.len() - self.cursor, 8nat,
    {
        let type_specifier = match self.parse_type_specifier() {
            Ok(t) => t,
            Err(e) => {
                return Err(e);
            },
        };
        let id = match self.parse_identifier() {
            Ok(id) => id,
            Err(e) => {
                return Err(e);
            },
        };
        let mut num = None;
        let mut array_initializer = None;
        if self.match_token(TokenType::Lbrack) {
            self.consume();
            if !self.match_token(TokenType::NumberLiteral) {
                return Err(self.error_here(Some(TokenType::NumberLiteral)));
            }
            let token = &self.token_list[self.cursor];
            let (start, end) = (token.start_index, token.end_index);
            let digits = util::chars_of(token.content.as_str());
            let value = match util::decimal_value(&digits) {
                Some(v) => v,
                None => {
                    return Err(self.error_here(None));
                },
            };
            self.consume();
            num = Some(NumberLiteral { value, start, end });
            match self.match_and_consume(TokenType::Rbrack) {
                Ok(_) => {},
                Err(e) => {
                return Err(e);
            },
            }
        }
        let mut initializer = None;
        if self.match_token(TokenType::Assign) {
            self.consume();
            if num.is_some() {
                match self.parse_array_initialization() {
                    Ok(a) => {
                        array_initializer = Some(a);
                    },
                    Err(e) => {
                return Err(e);
            },
                }
            } else {
                match self.parse_expression() {
                    Ok(x) => {
                        initializer = Some(x);
                    },
                    Err(e) => {
                return Err(e);
            },
                }
            }
        }
        let end = match self.match_and_consume(TokenType::Semi) {
            Ok((_, e)) => e,
            Err(e) => {
                return Err(e);
            },
        };
        let start = type_specifier.start;
        Ok(VarDeclaration { type_specifier, id, num, initializer, array_initializer, start, end })
    }

    /// `{ expression, ... }`
    fn parse_array_initialization(&mut self) -> (r: Result<Vec<Expression>, ParseError>)
        requires
            old(self).wf(),
        ensures
            final(self).wf(),
            final(self).token_list == old(self).token_list,
            old(self).cursor <= final(self).cursor,
            r is Ok ==> old(self).cursor < final(self).cursor,
        decreases self.token_list@.len() - self.cursor, 7nat,
    {
        let mut expressions: Vec<Expression> = Vec::new();
        match self.match_and_consume(TokenType::Lbrace) {
            Ok(_) => {},
            Err(e) => {
                return Err(e);
            },
        }
        match self.parse_expression() {
            Ok(x) => {
                expressions.push(x);
            },
            Err(e) => {
                return Err(e);
            },
        }
        while self.match_token(TokenType::Comma)
            invariant
                self.wf(),
                self.token_list == old(self).token_list,
                old(self).cursor < self.cursor,
            decreases self.token_list@.len() - self.cursor,
        {
            self.consume();
            match self.parse_expression() {
                Ok(x) => {
                    expressions.push(x);
                },
                Err(e) => {
                return Err(e);
            },
            }
        }
        match self.match_and_consume(TokenType::Rbrace) {
            Ok(_) => {},
            Err(e) => {
                return Err(e);
            },
        }
        Ok(expressions)
    }

    /// `type id ( params ) compound-statement`
    fn parse_function_declaration(&mut self) -> (r: Result<FunctionDeclaration, ParseError>)
        requires
            old(self).wf(),
        ensures
            final(self).wf(),
            final(self).token_list == old(self).token_list,
            old(self).cursor <= final(self).cursor,
            r is Ok ==> old(self).cursor < final(self).cursor,
        decreases self.token_list@.len() - self.cursor, 19nat,
    {
        let type_specifier = match self.parse_type_specifier() {
            Ok(t) => t,
            Err(e) => {
                return Err(e);
            },
        };
        let id = match self.parse_identifier() {
            Ok(id) => id,
            Err(e) => {
                return Err(e);
            },
        };
        match self.match_and_consume(TokenType::Lparen) {
            Ok(_) => {},
            Err(e) => {
                return Err(e);
            },
        }
        let params = if self.match_token(TokenType::Keyword(KeywordType::VOID)) {
            self.consume();
            Params::Void
        } else {
            let mut params: Vec<Parameter> = Vec::new();
            if self.cursor < self.token_list.len() && !self.match_token(TokenType::Rparen) {
                match self.parse_param() {
                    Ok(p) => {
                        params.push(p);
                    },
                    Err(e) => {
                return Err(e);
            },
                }
            }
            while self.cursor < self.token_list.len() && !self.match_token(TokenType::Rparen)
                invariant
                    self.wf(),
                    self.token_list == old(self).token_list,
                    old(self).cursor < self.cursor,
                decreases self.token_list@.len() - self.cursor,
            {
                match self.match_and_consume(TokenType::Comma) {
                    Ok(_) => {},
                    Err(e) => {
                return Err(e);
            },
                }
                match self.parse_param() {
                    Ok(p) => {
                        params.push(p);
                    },
                    Err(e) => {
                return Err(e);
            },
                }
            }
            Params::ParamsList { params }
        };
        match self.match_and_consume(TokenType::Rparen) {
            Ok(_) => {},
            Err(e) => {
                return Err(e);
            },
        }
        let body = match self.parse_compound_statement() {
            Ok(b) => b,
            Err(e) => {
                return Err(e);
            },
        };
        let start = type_specifier.start;
        let end = body.end;
        Ok(FunctionDeclaration { type_specifier, id, params, body, start, end })
    }

    /// `type id` or `type id [ ]`
    fn parse_param(&mut self) -> (r: Result<Parameter, ParseError>)
        requires
            old(self).wf(),
        ensures
            final(self).wf(),
            final(self).token_list == old(self).token_list,
            old(self).cursor <= final(self).cursor,
            r is Ok ==> old(self).cursor < final(self).cursor,
        decreases self.token_list@.len() - self.cursor, 3nat,
    {
        let type_specifier = match self.parse_type_specifier() {
            Ok(t) => t,
            Err(e) => {
                return Err(e);
            },
        };
        let id = match self.parse_identifier() {
            Ok(id) => id,
            Err(e) => {
                return Err(e);
            },
        };
        let mut is_array = false;
        let end = if self.match_token(TokenType::Lbrack) {
            self.consume();
            is_array = true;
            match self.match_and_consume(TokenType::Rbrack) {
                Ok((_, e)) => e,
                Err(e) => {
                return Err(e);
            },
            }
        } else {
            type_specifier.end
        };
        let start = type_specifier.start;
        Ok(Parameter { type_specifier, id, is_array, start, end })
    }

    /// `{ declarations... statements... }`
    fn parse_compound_statement(&mut self) -> (r: Result<CompoundStatement, ParseError>)
        requires
            old(self).wf(),
        ensures
            final(self).wf(),
            final(self).token_list == old(self).token_list,
            old(self).cursor <= final(self).cursor,
            r is Ok ==> old(self).cursor < final(self).cursor,
        decreases self.token_list@.len() - self.cursor, 12nat,
    {
        let start = match self.match_and_consume(TokenType::Lbrace) {
            Ok((s, _)) => s,
            Err(e) => {
                return Err(e);
            },
        };
        let mut local_declaration: Vec<VarDeclaration> = Vec::new();
        let mut statement_list: Vec<Statement> = Vec::new();
        while self.match_type_specifier()
            invariant
                self.wf(),
                self.token_list == old(self).token_list,
                old(self).cursor < self.cursor,
            decreases self.token_list@.len() - self.cursor,
        {
            match self.parse_variable_declaration() {
                Ok(d) => {
                    local_declaration.push(d);
                },
                Err(e) => {
                return Err(e);
            },
            }
        }
        while !self.match_token(TokenType::Rbrace)
            invariant
                self.wf(),
                self.token_list == old(self).token_list,
                old(self).cursor < self.cursor,
            decreases self.token_list@.len() - self.cursor,
        {
            match self.parse_statement() {
                Ok(st) => {
                    statement_list.push(st);
                },
                Err(e) => {
                return Err(e);
            },
            }
        }
        let end = match self.match_and_consume(TokenType::Rbrace) {
            Ok((_, e)) => e,
            Err(e) => {
                return Err(e);
            },
        };
        Ok(CompoundStatement { local_declaration, statement_list, start, end })
    }

    fn parse_statement(&mut self) -> (r: Result<Statement, ParseError>)
        requires
            old(self).wf(),
        ensures
            final(self).wf(),
            final(self).token_list == old(self).token_list,
            old(self).cursor <= final(self).cursor,
            r is Ok ==> old(self).cursor < final(self).cursor,
        decreases self.token_list@.len() - self.cursor, 13nat,
    {
        match self.next_type() {
            Some(TokenType::Lbrace) => match self.parse_compound_statement() {
                Ok(c) => Ok(Statement::CompoundStatement(c)),
                Err(e) => {
                return Err(e);
            },
            },
            Some(TokenType::Keyword(KeywordType::IF)) => match self.parse_selection_statement() {
                Ok(c) => Ok(Statement::SelectionStatement(c)),
                Err(e) => {
                return Err(e);
            },
            },
            Some(TokenType::Keyword(KeywordType::WHILE)) => match self.parse_iteration_statement() {
                Ok(c) => Ok(Statement::IterationStatement(c)),
                Err(e) => {
                return Err(e);
            },
            },
            Some(TokenType::Keyword(KeywordType::RETURN)) => match self.parse_return_statement() {
                Ok(c) => Ok(Statement::ReturnStatement(c)),
                Err(e) => {
                return Err(e);
            },
            },
            Some(_) => self.parse_expression_statement(),
            None => Err(self.error_here(None)),
        }
    }

    /// `while expression statement`
    fn parse_iteration_statement(&mut self) -> (r: Result<IterationStatement, ParseError>)
        requires
            old(self).wf(),
        ensures
            final(self).wf(),
            final(self).token_list == old(self).token_list,
            old(self).cursor <= final(self).cursor,
            r is Ok ==> old(self).cursor < final(self).cursor,
        decreases self.token_list@.len() - self.cursor, 12nat,
    {
        let start = match self.match_and_consume(TokenType::Keyword(KeywordType::WHILE)) {
            Ok((s, _)) => s,
            Err(e) => {
                return Err(e);
            },
        };
        let test = match self.parse_expression() {
            Ok(x) => x,
            Err(e) => {
                return Err(e);
            },
        };
        let body = match self.parse_statement() {
            Ok(b) => b,
            Err(e) => {
                return Err(e);
            },
        };
        let end = body.end();
        Ok(IterationStatement { test, body: Box::new(body), start, end })
    }

    /// `if ( expression ) statement` with an optional `else statement`
    fn parse_selection_statement(&mut self) -> (r: Result<SelectionStatement, ParseError>)
        requires
            old(self).wf(),
        ensures
            final(self).wf(),
            final(self).token_list == old(self).token_list,
            old(self).cursor <= final(self).cursor,
            r is Ok ==> old(self).cursor < final(self).cursor,
        decreases self.token_list@.len() - self.cursor, 12nat,
    {
        let start = match self.match_and_consume(TokenType::Keyword(KeywordType::IF)) {
            Ok((s, _)) => s,
            Err(e) => {
                return Err(e);
            },
        };
        match self.match_and_consume(TokenType::Lparen) {
            Ok(_) => {},
            Err(e) => {
                return Err(e);
            },
        }
        let test = match self.parse_expression() {
            Ok(x) => x,
            Err(e) => {
                return Err(e);
            },
        };
        match self.match_and_consume(TokenType::Rparen) {
            Ok(_) => {},
            Err(e) => {
                return Err(e);
            },
        }
        let consequent = match self.parse_statement() {
            Ok(c) => c,
            Err(e) => {
                return Err(e);
            },
        };
        let mut end = consequent.end();
        let alternative = if self.match_token(TokenType::Keyword(KeywordType::ELSE)) {
            self.consume();
            let statement = match self.parse_statement() {
                Ok(a) => a,
                Err(e) => {
                return Err(e);
            },
            };
            end = statement.end();
            Some(Box::new(statement))
        } else {
            None
        };
        Ok(SelectionStatement { test, consequent: Box::new(consequent), alternative, start, end })
    }

    /// `return ;` or `return expression ;`
    fn parse_return_statement(&mut self) -> (r: Result<ReturnStatement, ParseError>)
        requires
            old(self).wf(),
        ensures
            final(self).wf(),
            final(self).token_list == old(self).token_list,
            old(self).cursor <= final(self).cursor,
            r is Ok ==> old(self).cursor < final(self).cursor,
        decreases self.token_list@.len() - self.cursor, 12nat,
    {
        let start = match self.match_and_consume(TokenType::Keyword(KeywordType::RETURN)) {
            Ok((s, _)) => s,
            Err(e) => {
                return Err(e);
            },
        };
        let mut expression = None;
        if !self.match_token(TokenType::Semi) {
            match self.parse_expression() {
                Ok(x) => {
                    expression = Some(x);
                },
                Err(e) => {
                return Err(e);
            },
            }
        }
        let end = match self.match_and_consume(TokenType::Semi) {
            Ok((_, e)) => e,
            Err(e) => {
                return Err(e);
            },
        };
        Ok(ReturnStatement { expression, start, end })
    }

    /// `;` or `expression ;`
    fn parse_expression_statement(&mut self) -> (r: Result<Statement, ParseError>)
        requires
            old(self).wf(),
        ensures
            final(self).wf(),
            final(self).token_list == old(self).token_list,
            old(self).cursor <= final(self).cursor,
            r is Ok ==> old(self).cursor < final(self).cursor,
        decreases self.token_list@.len() - self.cursor, 12nat,
    {
        let mut expression = None;
        let mut start: usize = 0;
        let mut end: usize = 0;
        if !self.match_token(TokenType::Semi) {
            match self.parse_expression() {
                Ok(x) => {
                    start = x.start();
                    end = x.end();
                    expression = Some(x);
                },
                Err(e) => {
                return Err(e);
            },
            }
        }
        let (semi_start, semi_end) = match self.match_and_consume(TokenType::Semi) {
            Ok(span) => span,
            Err(e) => {
                return Err(e);
            },
        };
        if expression.is_none() {
            start = semi_start;
            end = semi_end;
        }
        Ok(Statement::ExpressionStatement(ExpressionStatement { expression, start, end }))
    }
}

} // verus!
