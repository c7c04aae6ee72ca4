use tinylang::lexer::lex::Lexer;
use tinylang::lexer::token::{KeywordType, Position, Token, TokenType};
use tinylang::lexer::util::{decimal_value, is_digit, is_letter, keyword_or_id};

fn kinds(src: &str) -> Vec<TokenType> {
    Lexer::new(src).lex().iter().map(|t| t.token_type).collect()
}

#[test]
fn words_are_keywords_literals_or_ids() {
    assert_eq!(keyword_or_id("while"), TokenType::Keyword(KeywordType::WHILE));
    assert_eq!(keyword_or_id("int"), TokenType::Keyword(KeywordType::INT));
    assert_eq!(keyword_or_id("false"), TokenType::BooleanLiteral);
    assert_eq!(keyword_or_id("whilex"), TokenType::Id);
    assert_eq!(keyword_or_id(""), TokenType::Id);
}

#[test]
fn character_classes() {
    assert!(is_digit('0') && is_digit('9') && !is_digit('a'));
    assert!(is_letter('a') && is_letter('Z') && !is_letter('1') && !is_letter('_'));
}

#[test]
fn decimal_values() {
    assert_eq!(decimal_value(&vec!['4', '2']), Some(42));
    assert_eq!(decimal_value(&vec!['2', '1', '4', '7', '4', '8', '3', '6', '4', '7']), Some(i32::MAX));
    assert_eq!(decimal_value(&vec!['2', '1', '4', '7', '4', '8', '3', '6', '4', '8']), None);
    assert_eq!(decimal_value(&vec![]), None);
    assert_eq!(decimal_value(&vec!['1', 'x']), None);
}

#[test]
fn operators_and_punctuation() {
    assert_eq!(
        kinds("< <= > >= == != = + - * / ; , ( ) [ ] { } !"),
        vec![
            TokenType::Lt,
            TokenType::Le,
            TokenType::Gt,
            TokenType::Ge,
            TokenType::Eq,
            TokenType::Ne,
            TokenType::Assign,
            TokenType::Plus,
            TokenType::Minus,
            TokenType::Multiply,
            TokenType::Times,
            TokenType::Semi,
            TokenType::Comma,
            TokenType::Lparen,
            TokenType::Rparen,
            TokenType::Lbrack,
            TokenType::Rbrack,
            TokenType::Lbrace,
            TokenType::Rbrace,
            TokenType::Error
        ]
    );
}

#[test]
fn token_text_and_positions() {
    let src = "int ab = 12;\n  if x";
    let tokens = Lexer::new(src).lex();
    assert_eq!(tokens.len(), 7);
    assert_eq!(
        tokens[1],
        Token::new(TokenType::Id, "ab".to_string(), Position::new(0, 4), Position::new(0, 6), 4, 6)
    );
    assert_eq!(tokens[3].token_type, TokenType::NumberLiteral);
    assert_eq!(tokens[3].content, "12");
    assert_eq!(tokens[5].token_type, TokenType::Keyword(KeywordType::IF));
    assert_eq!(tokens[5].start_position, Position::new(1, 2));
    assert_eq!(tokens[5].range(), 15..17);
    assert_eq!(tokens[6].content, "x");
}

#[test]
fn other_whitespace_separates_tokens() {
    let tokens = Lexer::new("a\tb\u{a0}c").lex();
    let words: Vec<String> = tokens.iter().map(|t| t.content.clone()).collect();
    assert_eq!(words, vec!["a".to_string(), "b".to_string(), "c".to_string()]);
}

#[test]
fn comments_are_tokens() {
    let tokens = Lexer::new("a /* x\n y */ b").lex();
    assert_eq!(tokens.len(), 3);
    assert_eq!(tokens[1].token_type, TokenType::Comment);
    assert_eq!(tokens[1].content, "/* x\n y */");
    assert_eq!(tokens[2].start_position, Position::new(1, 6));
}

#[test]
fn empty_and_blank_sources_have_no_tokens() {
    assert!(Lexer::new("").lex().is_empty());
    assert!(Lexer::new("  \n\t ").lex().is_empty());
}

#[test]
fn comment_ends_at_first_close() {
    let tokens = Lexer::new("/* a */ b */").lex();
    let contents: Vec<String> = tokens.iter().map(|t| t.content.clone()).collect();
    assert_eq!(contents, vec!["/* a */", "b", "*", "/"]);
    assert_eq!(tokens[0].token_type, TokenType::Comment);
}

#[test]
fn lone_slash_leaves_next_character() {
    let tokens = Lexer::new("/x").lex();
    assert_eq!(tokens.len(), 2);
    assert_eq!(tokens[0].token_type, TokenType::Times);
    assert_eq!(tokens[0].end_index, 1);
    assert_eq!(tokens[1].content, "x");
}

#[test]
fn numbers_and_words_are_maximal() {
    let tokens = Lexer::new("123abc<=!x").lex();
    let contents: Vec<String> = tokens.iter().map(|t| t.content.clone()).collect();
    assert_eq!(contents, vec!["123", "abc", "<=", "!", "x"]);
    assert_eq!(tokens[3].token_type, TokenType::Error);
}

#[test]
fn unclosed_comment_at_the_end() {
    let tokens = Lexer::new("a /* x **").lex();
    assert_eq!(tokens.len(), 1);
    let tokens = Lexer::new("a /* x").lex();
    assert_eq!(tokens.len(), 2);
    assert_eq!(tokens[1].token_type, TokenType::Error);
}
