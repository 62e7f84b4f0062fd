use compiler_front::definitions::{DeclrType, Token, TokenType};
use compiler_front::expression::{new_expr, Expr};
use compiler_front::lexer::Lexer;
use compiler_front::parser::Parser;
use compiler_front::position::{find_relative_pos, locate};
use compiler_front::statement::{new_statement, Statement};

fn tokens(text: &str) -> Vec<Token> {
    let mut source = text.to_string();
    source.push('\0');
    let mut lexer = Lexer::new(source).unwrap();
    let mut tokens = lexer.lex().unwrap();
    for t in tokens.iter_mut() {
        if t.ttype == TokenType::Id("ptr".to_string()) {
            t.ttype = TokenType::Key("@".to_string());
        }
    }
    tokens
}

fn expr(text: &str) -> Expr {
    let mut p = Parser::new(tokens(text));
    new_expr("Base").parse(&mut p).unwrap()
}

fn statement(text: &str) -> Statement {
    let mut p = Parser::new(tokens(text));
    new_statement("Base").parse(&mut p).unwrap()
}

#[test]
fn tokens_as_text() {
    assert_eq!(TokenType::Key("let".to_string()).to_string(), "let");
    assert_eq!(TokenType::Lit("12".to_string()).to_string(), "12");
    assert_eq!(TokenType::ParenOpen.to_string(), "(");
    assert_eq!(TokenType::ParenClose.to_string(), ")");
    assert_eq!(TokenType::SquareOpen.to_string(), "[");
    assert_eq!(TokenType::SquareClose.to_string(), "]");
    assert_eq!(TokenType::CurlyOpen.to_string(), "{");
    assert_eq!(TokenType::CurlyClose.to_string(), "}");
    assert_eq!(TokenType::SemiCol.to_string(), ";");
    assert_eq!(TokenType::Col.to_string(), ":");
    assert_eq!(TokenType::Comma.to_string(), ",");
    assert_eq!(TokenType::Period.to_string(), ".");
    assert_eq!(TokenType::Arrow.to_string(), "->");
    assert_eq!(TokenType::EOF.to_string(), "EOF");
}

#[test]
fn written_types_as_text() {
    let mut p = Parser::new(tokens("[ptr u8; 3]"));
    let t: DeclrType = compiler_front::definitions::parse_type(&mut p).unwrap();
    assert_eq!(t.to_string(), "Array of type: Pointer at u8 Size: 3");
}

#[test]
fn expressions_as_text() {
    assert_eq!(expr("1 + 2 == 3").to_string(), "((1 + 2) == 3)");
    assert_eq!(expr("a = b = 1").to_string(), "(a = (b = 1))");
    assert_eq!(expr("x << 1").to_string(), "(x << 1)");
    assert_eq!(expr("-x").to_string(), "(- x)");
    assert_eq!(expr("(x)").to_string(), "(x)");
    assert_eq!(expr("x as u8").to_string(), "(x cast to u8)");
    assert_eq!(expr("&x").to_string(), "& reference Op on x");
    assert_eq!(expr("f()").to_string(), "function call of f  params:");
    assert_eq!(
        expr("f(1, a < b)").to_string(),
        "function call of f  params:\narg: 1\narg: (a < b)"
    );
    assert_eq!(expr("E::V").to_string(), "varint V of enum E");
    assert_eq!(expr("s.f").to_string(), "field f of struct s");
    assert_eq!(expr("a[i]").to_string(), "Access of Array a at index i");
    assert_eq!(new_expr("Base").to_string(), "");
}

#[test]
fn statements_as_text() {
    assert_eq!(statement("x;").to_string(), "Expression Stmt: x;");
    assert_eq!(statement("let x: u8 = 1;").to_string(), "declare x type: u8 value: 1");
    assert_eq!(statement("let x: u8;").to_string(), "declare x type: u8 value: ");
    assert_eq!(statement("{ }").to_string(), "Block:");
    assert_eq!(
        statement("{ x; y; }").to_string(),
        "Block:\nExpression Stmt: x;\nExpression Stmt: y;"
    );
    assert_eq!(statement("loop { break; }").to_string(), "Loop Block:\nBreak");
    assert_eq!(
        statement("if a { } else { x; }").to_string(),
        "If a then Block:\nelse Block:\nExpression Stmt: x;"
    );
    assert_eq!(statement("if a { }").to_string(), "If a then Block:\nelse ");
    assert_eq!(statement("while a { }").to_string(), "While a do Block:");
    assert_eq!(
        statement("fn f(a: u8, b: u16) -> u8 { return a; }").to_string(),
        "define function: f   params: \nparam name: a   param type: u8\nparam name: b   param type: u16  \nret type: u8   body: Block:\nreturn a"
    );
    assert_eq!(
        statement("struct S { x: u8 }").to_string(),
        "Declare Struct S Params: \nparam name: x   param type: u8"
    );
    assert_eq!(
        statement("enum E { A, B }").to_string(),
        "Declare Enum E variants: \nvariant: A\nvariant: B"
    );
    assert_eq!(new_statement("Base").to_string(), "");
}

#[test]
fn positions_in_one_line() {
    assert_eq!(locate(0, "abc"), Some((1, 2)));
    assert_eq!(locate(2, "abc"), Some((1, 4)));
    // The slot behind the last line.
    assert_eq!(locate(3, "abc"), Some((1, 5)));
    assert_eq!(locate(4, "abc"), None);
    assert_eq!(locate(0, ""), None);
}

#[test]
fn positions_in_several_lines() {
    let text = "ab\ncd\n\nef";
    assert_eq!(locate(0, text), Some((1, 2)));
    assert_eq!(locate(2, text), Some((1, 4)));
    assert_eq!(locate(3, text), Some((2, 2)));
    assert_eq!(locate(5, text), Some((2, 4)));
    assert_eq!(locate(6, text), Some((3, 2)));
    assert_eq!(locate(7, text), Some((4, 2)));
    assert_eq!(locate(9, text), Some((4, 4)));
    assert_eq!(locate(10, text), None);
    assert_eq!(find_relative_pos(7, text.to_string()), (4, 2));
}

#[test]
fn a_text_that_ends_with_a_line_end_has_no_line_behind_it() {
    assert_eq!(locate(2, "ab\n"), Some((1, 4)));
    assert_eq!(locate(3, "ab\n"), None);
    assert_eq!(locate(0, "\n"), Some((1, 2)));
    assert_eq!(locate(1, "\n"), None);
}

#[test]
fn a_carriage_return_before_a_line_feed_is_not_counted() {
    let text = "ab\r\ncd";
    assert_eq!(locate(2, text), Some((1, 4)));
    assert_eq!(locate(3, text), Some((2, 2)));
    assert_eq!(locate(5, text), Some((2, 4)));
    assert_eq!(locate(6, text), None);
    // A carriage return alone is a byte of its line.
    assert_eq!(locate(2, "ab\rcd"), Some((1, 4)));
    assert_eq!(locate(5, "ab\rcd"), Some((1, 7)));
    assert_eq!(locate(2, "ab\r"), Some((1, 4)));
    assert_eq!(locate(3, "ab\r"), Some((1, 5)));
}

#[test]
fn positions_agree_with_the_lines_of_the_text() {
    // Each line contributes its bytes and one closing slot.
    for text in ["a\nbc\r\n\r\nd", "x", "\n\n", "\r\n", "a\r", "ab\n\rc\n"] {
        let mut expected: Vec<(usize, usize)> = vec![];
        for (n, line) in text.lines().enumerate() {
            for k in 0..=line.len() {
                expected.push((n + 1, k + 2));
            }
        }
        for (target, want) in expected.iter().enumerate() {
            assert_eq!(locate(target, text), Some(*want), "{:?} at {}", text, target);
        }
        assert_eq!(locate(expected.len(), text), None, "{:?}", text);
    }
}
