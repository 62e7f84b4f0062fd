use compiler_front::definitions::{Token, TokenType};
use compiler_front::lexer::{token_of_match, Lexer, WordKind};

fn lex(text: &str) -> Result<Vec<Token>, usize> {
    let mut source = text.to_string();
    source.push('\0');
    let mut lexer = Lexer::new(source).unwrap();
    lexer.lex()
}

fn kinds(text: &str) -> Vec<TokenType> {
    lex(text).unwrap().into_iter().map(|t| t.ttype).collect()
}

fn key(s: &str) -> TokenType {
    TokenType::Key(s.to_string())
}

fn op(s: &str) -> TokenType {
    TokenType::Op(s.to_string())
}

fn cond(s: &str) -> TokenType {
    TokenType::Cond(s.to_string())
}

fn id(s: &str) -> TokenType {
    TokenType::Id(s.to_string())
}

fn lit(s: &str) -> TokenType {
    TokenType::Lit(s.to_string())
}

#[test]
fn lexer_rejects_text_that_is_not_ascii() {
    assert!(Lexer::new("let \u{e9} = 1;".to_string()).is_err());
    assert!(Lexer::new("let e = 1;".to_string()).is_ok());
}

#[test]
fn lexes_a_variable_declaration() {
    let tokens = lex("let x: u8 = 5;").unwrap();
    let kinds: Vec<TokenType> = tokens.iter().map(|t| t.ttype.clone()).collect();
    assert!(
        kinds
            == vec![
                key("let"),
                id("x"),
                TokenType::Col,
                id("u8"),
                op("="),
                lit("5"),
                TokenType::SemiCol,
                TokenType::EOF,
            ]
    );
    let offsets: Vec<usize> = tokens.iter().map(|t| t.pos).collect();
    assert_eq!(offsets, vec![0, 4, 5, 7, 10, 12, 13, 14]);
}

#[test]
fn lexes_operators_and_relations() {
    assert!(
        kinds("a == b << c >= d")
            == vec![id("a"), cond("=="), id("b"), op("<<"), id("c"), cond(">="), id("d"), TokenType::EOF]
    );
    assert!(kinds("-x") == vec![op("-"), id("x"), TokenType::EOF]);
    assert!(kinds("x as u8") == vec![id("x"), op("as"), id("u8"), TokenType::EOF]);
}

#[test]
fn lexes_an_arrow_and_punctuation() {
    assert!(
        kinds("fn f() -> u8 { }")
            == vec![
                key("fn"),
                id("f"),
                TokenType::ParenOpen,
                TokenType::ParenClose,
                TokenType::Arrow,
                id("u8"),
                TokenType::CurlyOpen,
                TokenType::CurlyClose,
                TokenType::EOF,
            ]
    );
    assert!(
        kinds("a.b[1],c")
            == vec![
                id("a"),
                TokenType::Period,
                id("b"),
                TokenType::SquareOpen,
                lit("1"),
                TokenType::SquareClose,
                TokenType::Comma,
                id("c"),
                TokenType::EOF,
            ]
    );
}

#[test]
fn a_keyword_is_split_off_the_front_of_a_word() {
    assert!(kinds("letter") == vec![key("let"), id("ter"), TokenType::EOF]);
}

#[test]
fn an_identifier_may_hold_the_pointer_sign() {
    assert!(kinds("ptr@u8") == vec![id("ptr@u8"), TokenType::EOF]);
}

#[test]
fn a_minus_sign_is_an_operator_before_a_number() {
    assert!(
        kinds("x = -12;")
            == vec![id("x"), op("="), op("-"), lit("12"), TokenType::SemiCol, TokenType::EOF]
    );
}

#[test]
fn lexing_fails_at_a_character_that_starts_no_token() {
    assert_eq!(lex("let x = $;").err(), Some(8));
    assert_eq!(lex("12ab").err(), Some(1));
}

#[test]
fn blanks_before_the_end_start_no_token() {
    assert_eq!(lex("x ").err(), Some(2));
}

#[test]
fn an_empty_text_is_an_end_of_input_token() {
    let tokens = lex("").unwrap();
    assert_eq!(tokens.len(), 1);
    assert!(tokens[0].ttype == TokenType::EOF);
    assert_eq!(tokens[0].pos, 0);
}

#[test]
fn lexing_stops_at_the_first_nul() {
    let mut lexer = Lexer::new("a\0b".to_string()).unwrap();
    let tokens = lexer.lex().unwrap();
    assert_eq!(tokens.len(), 2);
    assert!(tokens[0].ttype == id("a"));
    assert!(tokens[1].ttype == TokenType::EOF);
    assert_eq!(tokens[1].pos, 1);
    assert_eq!(lexer.ptr, 1);
}

#[test]
fn a_text_without_nul_ends_at_its_end() {
    let mut lexer = Lexer::new("a".to_string()).unwrap();
    let tokens = lexer.lex().unwrap();
    assert_eq!(tokens.len(), 2);
    assert_eq!(tokens[1].pos, 1);
}

#[test]
fn a_match_becomes_a_token_of_its_kind() {
    let (token, len) = token_of_match(WordKind::Id, "abc def", 10, Ok(Some((0, 3)))).unwrap().unwrap();
    assert!(token.ttype == id("abc"));
    assert_eq!(token.pos, 10);
    assert_eq!(len, 3);
    let (token, len) = token_of_match(WordKind::Lit, "x12y", 0, Ok(Some((1, 3)))).unwrap().unwrap();
    assert!(token.ttype == lit("12"));
    assert_eq!(len, 2);
    assert!(token_of_match(WordKind::Key, "let", 0, Ok(Some((0, 3)))).unwrap().unwrap().0.ttype == key("let"));
    assert!(token_of_match(WordKind::Op, "+", 0, Ok(Some((0, 1)))).unwrap().unwrap().0.ttype == op("+"));
    assert!(token_of_match(WordKind::Cond, "<=", 0, Ok(Some((0, 2)))).unwrap().unwrap().0.ttype == cond("<="));
}

#[test]
fn a_match_that_is_empty_or_outside_the_text_is_no_token() {
    assert!(token_of_match(WordKind::Id, "abc", 0, Ok(None)).unwrap().is_none());
    assert!(token_of_match(WordKind::Id, "abc", 0, Ok(Some((1, 1)))).unwrap().is_none());
    assert!(token_of_match(WordKind::Id, "abc", 0, Ok(Some((2, 1)))).unwrap().is_none());
    assert!(token_of_match(WordKind::Id, "abc", 0, Ok(Some((0, 4)))).unwrap().is_none());
    assert!(token_of_match(WordKind::Id, "", 0, Ok(Some((0, 0)))).unwrap().is_none());
    assert!(token_of_match(WordKind::Id, "abc", 0, Err(())).is_err());
}
