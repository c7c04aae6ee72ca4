use vstd::prelude::*;

verus! {

#[derive(Clone, Copy, Debug, PartialEq, Eq, Structural)]
pub enum KeywordType {
    IF,
    ELSE,
    INT,
    RETURN,
    VOID,
    WHILE,
    BOOL,
}

#[derive(Clone, Copy, Debug, PartialEq, Eq, Structural)]
pub enum TokenType {
    Error,
    Id,
    NumberLiteral,
    BooleanLiteral,
    Keyword(KeywordType),
    Plus,
    Minus,
    Multiply,
    Times,
    Lt,
    Le,
    Gt,
    Ge,
    Eq,
    Ne,
    Semi,
    Comma,
    Lparen,
    Rparen,
    Lbrack,
    Rbrack,
    Lbrace,
    Rbrace,
    Comment,
    Assign,
}

/// A zero-based line and column.
#[derive(Clone, Copy, Debug, PartialEq, Eq, Structural)]
pub struct Position {
    pub line: usize,
    pub column: usize,
}

impl Position {
    pub fn new(line: usize, column: usize) -> (r: Self)
        ensures
            r.line == line,
            r.column == column,
    {
        Self { line, column }
    }
}

/// A token: its kind, its text, and where it stands in the source, both as
/// line and column and as character offsets `start_index..end_index`.
#[derive(Debug, PartialEq, Eq)]
pub struct Token {
    pub token_type: TokenType,
    pub content: String,
    pub start_position: Position,
    pub end_position: Position,
    pub start_index: usize,
    pub end_index: usize,
}

impl Token {
    pub fn new(
        token_type: TokenType,
        content: String,
        start_position: Position,
        end_position: Position,
        start_index: usize,
        end_index: usize,
    ) -> (r: Self)
        ensures
            r.token_type == token_type,
            r.content == content,
            r.start_position == start_position,
            r.end_position == end_position,
            r.start_index == start_index,
            r.end_index == end_index,
    {
        Self { token_type, content, start_position, end_position, start_index, end_index }
    }

    /// The token's offsets in the source.
    pub fn range(&self) -> (r: std::ops::Range<usize>)
        ensures
            r.start == self.start_index,
            r.end == self.end_index,
    {
        std::ops::Range { start: self.start_index, end: self.end_index }
    }
}

} // verus!
