use vstd::prelude::*;

verus! {

/// A node's extent in the source text, as offsets `start..end`.
pub trait Codespan {
    fn start(&self) -> usize;

    fn end(&self) -> usize;
}

pub struct Program {
    pub declarations: Vec<Declaration>,
    pub start: usize,
    pub end: usize,
}

pub struct FunctionDeclaration {
    pub type_specifier: TypeSpecifier,
    pub id: Identifier,
    pub params: Params,
    pub body: CompoundStatement,
    pub start: usize,
    pub end: usize,
}

/// `type id;`, `type id = expr;`, or the array forms `type id[num]` with an
/// optional `{ ... }` initializer.
pub struct VarDeclaration {
    pub type_specifier: TypeSpecifier,
    pub id: Identifier,
    pub num: Option<NumberLiteral>,
    pub initializer: Option<Expression>,
    pub array_initializer: Option<Vec<Expression>>,
    pub start: usize,
    pub end: usize,
}

pub enum Declaration {
    FunctionDeclaration(FunctionDeclaration),
    VarDeclaration(VarDeclaration),
}

pub struct Identifier {
    pub value: String,
    pub start: usize,
    pub end: usize,
}

#[derive(Clone, Copy, Debug, PartialEq, Eq)]
pub struct NumberLiteral {
    pub value: i32,
    pub start: usize,
    pub end: usize,
}

#[derive(Clone, Copy, Debug, PartialEq, Eq)]
pub struct BooleanLiteral {
    pub value: bool,
    pub start: usize,
    pub end: usize,
}

#[derive(Clone, Copy, Debug, PartialEq, Eq)]
pub enum TypeSpecifierKind {
    Int,
    Void,
    Boolean,
}

#[derive(Clone, Copy, Debug, PartialEq, Eq)]
pub struct TypeSpecifier {
    pub kind: TypeSpecifierKind,
    pub start: usize,
    pub end: usize,
}

pub enum Params {
    Void,
    ParamsList { params: Vec<Parameter> },
}

pub struct Parameter {
    pub type_specifier: TypeSpecifier,
    pub id: Identifier,
    pub is_array: bool,
    pub start: usize,
    pub end: usize,
}

/// `{ declarations... statements... }`
pub struct CompoundStatement {
    pub local_declaration: Vec<VarDeclaration>,
    pub statement_list: Vec<Statement>,
    pub start: usize,
    pub end: usize,
}

pub enum Statement {
    CompoundStatement(CompoundStatement),
    ExpressionStatement(ExpressionStatement),
    SelectionStatement(SelectionStatement),
    IterationStatement(IterationStatement),
    ReturnStatement(ReturnStatement),
}

/// `if (test) consequent else alternative`
pub struct SelectionStatement {
    pub test: Expression,
    pub consequent: Box<Statement>,
    pub alternative: Option<Box<Statement>>,
    pub start: usize,
    pub end: usize,
}

/// `while test body`
pub struct IterationStatement {
    pub test: Expression,
    pub body: Box<Statement>,
    pub start: usize,
    pub end: usize,
}

pub struct ReturnStatement {
    pub expression: Option<Expression>,
    pub start: usize,
    pub end: usize,
}

pub struct ExpressionStatement {
    pub expression: Option<Expression>,
    pub start: usize,
    pub end: usize,
}

pub enum Expression {
    Assignment(AssignmentExpression),
    BinaryExpression(BinaryExpression),
    LogicExpression(LogicExpression),
    UnaryExpression(UnaryExpression),
    Factor(Factor),
}

pub struct AssignmentExpression {
    pub lhs: Var,
    pub rhs: Box<Expression>,
    pub start: usize,
    pub end: usize,
}

/// A variable reference, with an index expression for an array element.
pub struct Var {
    pub id: Identifier,
    pub expression: Option<Box<Expression>>,
    pub start: usize,
    pub end: usize,
}

pub struct LogicExpression {
    pub left: Box<Expression>,
    pub right: Box<Expression>,
    pub operation: Operation,
    pub start: usize,
    pub end: usize,
}

pub struct UnaryExpression {
    pub expression: Box<Expression>,
    pub operation: Operation,
    pub start: usize,
    pub end: usize,
}

pub struct BinaryExpression {
    pub left: Box<Expression>,
    pub right: Box<Expression>,
    pub operation: Operation,
    pub start: usize,
    pub end: usize,
}

/// An operator with the span of its token.
#[derive(Clone, Copy, Debug, PartialEq, Eq)]
pub enum Operation {
    GT(usize, usize),
    LT(usize, usize),
    GE(usize, usize),
    LE(usize, usize),
    EQ(usize, usize),
    NE(usize, usize),
    PLUS(usize, usize),
    MINUS(usize, usize),
    MULTIPLY(usize, usize),
    DIVIDE(usize, usize),
    AND(usize, usize),
    OR(usize, usize),
    NEG(usize, usize),
    POS(usize, usize),
}

pub enum Factor {
    Expression(Box<Expression>),
    Var(Var),
    CallExpression(CallExpression),
    NumberLiteral(NumberLiteral),
    BooleanLiteral(BooleanLiteral),
}

pub struct CallExpression {
    pub id: Identifier,
    pub arguments: Vec<Expression>,
    pub start: usize,
    pub end: usize,
}

impl Codespan for Operation {
    fn start(&self) -> usize {
        match *self {
            Operation::GT(s, _) | Operation::LT(s, _) | Operation::GE(s, _) | Operation::LE(s, _)
            | Operation::EQ(s, _) | Operation::NE(s, _) | Operation::PLUS(s, _)
            | Operation::MINUS(s, _) | Operation::MULTIPLY(s, _) | Operation::DIVIDE(s, _)
            | Operation::AND(s, _) | Operation::OR(s, _) | Operation::NEG(s, _)
            | Operation::POS(s, _) => s,
        }
    }

    fn end(&self) -> usize {
        match *self {
            Operation::GT(_, e) | Operation::LT(_, e) | Operation::GE(_, e) | Operation::LE(_, e)
            | Operation::EQ(_, e) | Operation::NE(_, e) | Operation::PLUS(_, e)
            | Operation::MINUS(_, e) | Operation::MULTIPLY(_, e) | Operation::DIVIDE(_, e)
            | Operation::AND(_, e) | Operation::OR(_, e) | Operation::NEG(_, e)
            | Operation::POS(_, e) => e,
        }
    }
}

/// The start and end offsets of an expression.
fn expression_span(e: &Expression) -> (usize, usize)
    decreases e,
{
    match e {
        Expression::Assignment(x) => (x.start, x.end),
        Expression::BinaryExpression(x) => (x.start, x.end),
        Expression::LogicExpression(x) => (x.start, x.end),
        Expression::UnaryExpression(x) => (x.start, x.end),
        Expression::Factor(f) => match f {
            Factor::Expression(inner) => expression_span(inner),
            Factor::Var(v) => (v.start, v.end),
            Factor::CallExpression(c) => (c.start, c.end),
            Factor::NumberLiteral(n) => (n.start, n.end),
            Factor::BooleanLiteral(b) => (b.start, b.end),
        },
    }
}

impl Codespan for Expression {
    fn start(&self) -> usize {
        expression_span(self).0
    }

    fn end(&self) -> usize {
        expression_span(self).1
    }
}

impl Codespan for Statement {
    fn start(&self) -> usize {
        match self {
            Statement::CompoundStatement(s) => s.start,
            Statement::ExpressionStatement(s) => s.start,
            Statement::SelectionStatement(s) => s.start,
            Statement::IterationStatement(s) => s.start,
            Statement::ReturnStatement(s) => s.start,
        }
    }

    fn end(&self) -> usize {
        match self {
            Statement::CompoundStatement(s) => s.end,
            Statement::ExpressionStatement(s) => s.end,
            Statement::SelectionStatement(s) => s.end,
            Statement::IterationStatement(s) => s.end,
            Statement::ReturnStatement(s) => s.end,
        }
    }
}

impl Codespan for Declaration {
    fn start(&self) -> usize {
        match self {
            Declaration::FunctionDeclaration(d) => d.start,
            Declaration::VarDeclaration(d) => d.start,
        }
    }

    fn end(&self) -> usize {
        match self {
            Declaration::FunctionDeclaration(d) => d.end,
            Declaration::VarDeclaration(d) => d.end,
        }
    }
}

} // verus!
