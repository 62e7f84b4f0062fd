use compiler_front::definitions::{parse_type, DeclrType, Token, TokenType};
use compiler_front::expression::{new_expr, Expr, ExprLevel, PrimaryExpr};
use compiler_front::lexer::Lexer;
use compiler_front::parser::Parser;
use compiler_front::statement::{new_statement, Statement, StmtLevel};

/// The tokens of a source text. The word `ptr` stands for the pointer
/// keyword `@`, which the lexer does not produce.
fn tokens(text: &str) -> Vec<Token> {
    let mut source = text.to_string();
    source.push('\0');
    let mut lexer = Lexer::new(source).unwrap();
    let mut tokens = lexer.lex().unwrap();
    for t in tokens.iter_mut() {
        if t.ttype == TokenType::Id("ptr".to_string()) {
            t.ttype = TokenType::Key("@".to_string());
        }
    }
    tokens
}

fn parser(text: &str) -> Parser {
    Parser::new(tokens(text))
}

fn expr(text: &str) -> Expr {
    let mut p = parser(text);
    let e = new_expr("Base").parse(&mut p).unwrap();
    assert!(p.tokens[p.ptr].ttype == TokenType::EOF);
    e
}

fn expr_error(text: &str) -> (&'static str, usize) {
    let mut p = parser(text);
    let m = new_expr("Base").parse(&mut p).err().unwrap();
    (m, p.ptr)
}

fn program(text: &str) -> Vec<Statement> {
    parser(text).parse().unwrap()
}

fn program_error(text: &str) -> (&'static str, usize) {
    let mut p = parser(text);
    let m = p.parse().err().unwrap();
    (m, p.ptr)
}

fn primary(e: &Expr) -> &PrimaryExpr {
    match e {
        Expr::Primary(p) => p,
        _ => panic!("not a primary expression: {:?}", e),
    }
}

fn literal_text(e: &Expr) -> String {
    match primary(e) {
        PrimaryExpr::Literal(t) => t.data(),
        _ => panic!("not a literal: {:?}", e),
    }
}

fn id_text(e: &Expr) -> String {
    match primary(e) {
        PrimaryExpr::Id(t) => t.data(),
        _ => panic!("not an identifier: {:?}", e),
    }
}

#[test]
fn precedence_of_term_over_equality() {
    let e = expr("1 + 2 == 3");
    match e {
        Expr::Equality(b) => {
            assert_eq!(b.operator.data(), "==");
            assert_eq!(b.operator.pos, 6);
            assert_eq!(literal_text(&b.right), "3");
            match b.left {
                Expr::Term(t) => {
                    assert_eq!(t.operator.data(), "+");
                    assert_eq!(literal_text(&t.left), "1");
                    assert_eq!(literal_text(&t.right), "2");
                }
                _ => panic!("left operand is not a term"),
            }
        }
        _ => panic!("not an equality"),
    }
}

#[test]
fn comparison_binds_tighter_than_equality() {
    match expr("a < b == c") {
        Expr::Equality(b) => {
            assert!(matches!(b.left, Expr::Comparison(_)));
            assert_eq!(id_text(&b.right), "c");
        }
        e => panic!("not an equality: {:?}", e),
    }
}

#[test]
fn binary_levels_group_to_the_left() {
    match expr("1 - 2 + 3") {
        Expr::Term(outer) => {
            assert_eq!(outer.operator.data(), "+");
            assert_eq!(literal_text(&outer.right), "3");
            match outer.left {
                Expr::Term(inner) => {
                    assert_eq!(inner.operator.data(), "-");
                    assert_eq!(literal_text(&inner.left), "1");
                    assert_eq!(literal_text(&inner.right), "2");
                }
                e => panic!("left operand is not a term: {:?}", e),
            }
        }
        e => panic!("not a term: {:?}", e),
    }
}

#[test]
fn assignment_groups_to_the_right() {
    match expr("a = b = 1") {
        Expr::Assign(outer) => {
            assert_eq!(id_text(&outer.left), "a");
            assert_eq!(outer.operator.data(), "=");
            assert_eq!(outer.operator.pos, 2);
            match outer.right {
                Expr::Assign(inner) => {
                    assert_eq!(id_text(&inner.left), "b");
                    assert_eq!(inner.operator.pos, 6);
                    assert_eq!(literal_text(&inner.right), "1");
                }
                e => panic!("right operand is not an assignment: {:?}", e),
            }
        }
        e => panic!("not an assignment: {:?}", e),
    }
}

#[test]
fn shift_is_a_shift_expression() {
    match expr("x << 1 >> 2") {
        Expr::Shift(outer) => {
            assert_eq!(outer.operator.data(), ">>");
            assert_eq!(literal_text(&outer.right), "2");
            match outer.left {
                Expr::Shift(inner) => {
                    assert_eq!(inner.operator.data(), "<<");
                    assert_eq!(id_text(&inner.left), "x");
                }
                e => panic!("left operand is not a shift: {:?}", e),
            }
        }
        e => panic!("not a shift: {:?}", e),
    }
}

#[test]
fn right_operand_of_shift_is_read_at_the_primary_level() {
    assert_eq!(expr_error("x << -1"), ("Expected Expression", 2));
    // A call on the right is not read as a call: `f` alone is the operand.
    let mut p = parser("x << f(1)");
    let e = new_expr("Base").parse(&mut p).unwrap();
    assert_eq!(p.ptr, 3);
    match e {
        Expr::Shift(b) => assert_eq!(id_text(&b.right), "f"),
        e => panic!("not a shift: {:?}", e),
    }
}

#[test]
fn unary_operand_is_read_at_the_call_level() {
    match expr("-f(1)") {
        Expr::Unary(u) => {
            assert_eq!(u.operator.data(), "-");
            assert!(matches!(u.right, Expr::FnCall(_)));
        }
        e => panic!("not a unary expression: {:?}", e),
    }
    match expr("!x") {
        Expr::Unary(u) => {
            assert_eq!(u.operator.data(), "!");
            assert_eq!(id_text(&u.right), "x");
        }
        e => panic!("not a unary expression: {:?}", e),
    }
}

#[test]
fn call_with_arguments() {
    match expr("f(1, a + 2, g())") {
        Expr::FnCall(c) => {
            assert_eq!(c.name.data(), "f");
            assert_eq!(c.args.len(), 3);
            assert_eq!(literal_text(&c.args[0]), "1");
            assert!(matches!(c.args[1], Expr::Term(_)));
            match &c.args[2] {
                Expr::FnCall(inner) => {
                    assert_eq!(inner.name.data(), "g");
                    assert!(inner.args.is_empty());
                }
                e => panic!("not a call: {:?}", e),
            }
        }
        e => panic!("not a call: {:?}", e),
    }
}

#[test]
fn call_arguments_need_commas() {
    assert_eq!(
        expr_error("f(1 2)"),
        ("Expected Function Arguments to be Seperated by Commas", 3)
    );
}

#[test]
fn cast_names_its_type() {
    match expr("x as [u8; 4]") {
        Expr::Cast(c) => {
            assert_eq!(id_text(&c.value), "x");
            match c.to_type {
                DeclrType::Array(inner, size) => {
                    assert!(matches!(*inner, DeclrType::BasicType(_)));
                    assert_eq!(size.data(), "4");
                }
                t => panic!("not an array type: {:?}", t),
            }
        }
        e => panic!("not a cast: {:?}", e),
    }
}

#[test]
fn reference_takes_a_single_identifier() {
    match expr("&x") {
        Expr::Ref(r) => {
            assert_eq!(r.operator.data(), "&");
            assert_eq!(r.right.data(), "x");
        }
        e => panic!("not a reference: {:?}", e),
    }
    match expr("*p") {
        Expr::Ref(r) => {
            assert_eq!(r.operator.data(), "*");
            assert_eq!(r.right.data(), "p");
        }
        e => panic!("not a reference: {:?}", e),
    }
    assert_eq!(expr_error("&(x)"), ("Expected Identifier to Reference", 1));
    // Only the identifier belongs to the reference.
    let mut p = parser("&s.field");
    let e = new_expr("Base").parse(&mut p).unwrap();
    assert!(matches!(e, Expr::Ref(_)));
    assert_eq!(p.ptr, 2);
}

#[test]
fn primary_forms_are_told_apart_by_lookahead() {
    match primary(&expr("(1 + 2)")) {
        PrimaryExpr::Grouping(inner) => assert!(matches!(inner, Expr::Term(_))),
        e => panic!("not a grouping: {:?}", e),
    }
    match primary(&expr("Color::Red")) {
        PrimaryExpr::EnumVariant(owner, variant) => {
            assert_eq!(owner.data(), "Color");
            assert_eq!(variant.data(), "Red");
        }
        e => panic!("not an enum variant: {:?}", e),
    }
    match primary(&expr("s.f")) {
        PrimaryExpr::StructField(owner, field) => {
            assert_eq!(owner.data(), "s");
            assert_eq!(field.data(), "f");
        }
        e => panic!("not a struct field: {:?}", e),
    }
    match primary(&expr("a[i + 1]")) {
        PrimaryExpr::ArrayAccess(array, index) => {
            assert_eq!(array.data(), "a");
            assert!(matches!(index, Expr::Term(_)));
        }
        e => panic!("not an array access: {:?}", e),
    }
    assert_eq!(literal_text(&expr("42")), "42");
    assert_eq!(id_text(&expr("x")), "x");
}

#[test]
fn lookahead_stops_at_the_end_of_the_stream() {
    // `x :` at the end is an identifier followed by a colon, not a variant.
    let mut p = parser("x :");
    let e = new_expr("Base").parse(&mut p).unwrap();
    assert_eq!(id_text(&e), "x");
    assert_eq!(p.ptr, 1);
}

#[test]
fn expression_errors_name_the_unexpected_token() {
    assert_eq!(expr_error(""), ("Expected Expression", 0));
    assert_eq!(expr_error("1 +"), ("Expected Expression", 2));
    assert_eq!(expr_error("(1"), ("Expected Closing Parentheses", 2));
    assert_eq!(
        expr_error("a[1"),
        ("Expected Closing Square Bracket after Array Access", 3)
    );
    assert_eq!(expr_error("x as 1"), ("Cannot Parse Type", 2));
}

#[test]
fn an_expression_is_read_at_the_level_of_the_placeholder() {
    let mut p = parser("1 + 2");
    let mut level = new_expr("Primary");
    let e = level.parse(&mut p).unwrap();
    assert_eq!(literal_text(&e), "1");
    assert_eq!(literal_text(&level), "1");
    assert_eq!(p.ptr, 1);

    let mut p = parser("1 + 2 == 3");
    let e = new_expr("Term").parse(&mut p).unwrap();
    assert!(matches!(e, Expr::Term(_)));
    assert_eq!(p.ptr, 3);

    let mut p = parser("+");
    let mut level = new_expr("Unary");
    assert_eq!(level.parse(&mut p).err(), Some("Expected Expression"));
    assert!(matches!(level, Expr::Unary(_)));
}

#[test]
fn placeholders_name_their_level() {
    assert_eq!(new_expr("Base").level(), ExprLevel::Assign);
    assert_eq!(new_expr("Assign").level(), ExprLevel::Assign);
    assert_eq!(new_expr("Equality").level(), ExprLevel::Equality);
    assert_eq!(new_expr("Comp").level(), ExprLevel::Comparison);
    assert_eq!(new_expr("Term").level(), ExprLevel::Term);
    assert_eq!(new_expr("Shift").level(), ExprLevel::Shift);
    assert_eq!(new_expr("Unary").level(), ExprLevel::Unary);
    assert_eq!(new_expr("FnCall").level(), ExprLevel::Call);
    assert_eq!(new_expr("Cast").level(), ExprLevel::Cast);
    assert_eq!(new_expr("Ref").level(), ExprLevel::Ref);
    assert_eq!(new_expr("Primary").level(), ExprLevel::Primary);
    match new_expr("Assign") {
        Expr::Assign(b) => {
            assert_eq!(b.operator.data(), "=");
            assert_eq!(b.operator.pos, 0);
            assert!(matches!(b.left, Expr::Equality(_)));
        }
        e => panic!("not an assignment: {:?}", e),
    }
    match new_expr("Primary") {
        Expr::Primary(p) => match *p {
            PrimaryExpr::Literal(t) => {
                assert!(t.ttype == TokenType::Arrow);
                assert_eq!(t.pos, 0);
            }
            e => panic!("not a literal: {:?}", e),
        },
        e => panic!("not primary: {:?}", e),
    }
    assert_eq!(new_statement("Base").level(), Some(StmtLevel::Declaration));
    assert_eq!(new_statement("Declr").level(), Some(StmtLevel::Declaration));
    assert_eq!(new_statement("Stmt").level(), Some(StmtLevel::Statement));
    assert_eq!(new_statement("FnDeclr").level(), Some(StmtLevel::FnDeclr));
    assert_eq!(new_statement("StructDeclr").level(), Some(StmtLevel::StructDeclr));
    assert_eq!(new_statement("EnumDeclr").level(), Some(StmtLevel::EnumDeclr));
    assert_eq!(new_statement("Params").level(), Some(StmtLevel::Parameters));
    assert_eq!(new_statement("Variant").level(), Some(StmtLevel::Variant));
    assert_eq!(new_statement("VarDeclr").level(), Some(StmtLevel::VarDeclr));
    assert_eq!(new_statement("Block").level(), Some(StmtLevel::Block));
    assert_eq!(new_statement("LoopStmt").level(), Some(StmtLevel::Loop));
    assert_eq!(new_statement("IfStmt").level(), Some(StmtLevel::If));
    assert_eq!(new_statement("WhileStmt").level(), Some(StmtLevel::While));
    assert_eq!(new_statement("ReturnStmt").level(), Some(StmtLevel::Return));
    assert_eq!(new_statement("BreakStmt").level(), None);
    assert_eq!(new_statement("ExprStmt").level(), None);
}

#[test]
fn type_grammar() {
    let mut p = parser("u8");
    assert!(matches!(parse_type(&mut p), Ok(DeclrType::BasicType(_))));
    assert_eq!(p.ptr, 1);

    let mut p = parser("ptr ptr u8");
    match parse_type(&mut p).unwrap() {
        DeclrType::Pointer(outer) => match *outer {
            DeclrType::Pointer(inner) => match *inner {
                DeclrType::BasicType(t) => assert_eq!(t.data(), "u8"),
                t => panic!("not a basic type: {:?}", t),
            },
            t => panic!("not a pointer: {:?}", t),
        },
        t => panic!("not a pointer: {:?}", t),
    }
    assert_eq!(p.ptr, 3);

    let mut p = parser("[[u8; 2]; 3]");
    let t = parse_type(&mut p).unwrap();
    assert_eq!(t.get_token().data(), "u8");
    match t {
        DeclrType::Array(inner, size) => {
            assert_eq!(size.data(), "3");
            assert!(matches!(*inner, DeclrType::Array(_, _)));
        }
        t => panic!("not an array: {:?}", t),
    }
    assert_eq!(p.ptr, 9);
}

#[test]
fn type_grammar_errors() {
    let mut p = parser("[u8 3]");
    assert_eq!(parse_type(&mut p).err(), Some("Expected Semicolon after Array Type"));
    assert_eq!(p.ptr, 2);
    let mut p = parser("[u8; x]");
    assert_eq!(parse_type(&mut p).err(), Some("Expected Literal for Array Size"));
    assert_eq!(p.ptr, 3);
    let mut p = parser("[u8; 3");
    assert_eq!(
        parse_type(&mut p).err(),
        Some("Expected Closing Square Bracket after Array Size")
    );
    assert_eq!(p.ptr, 4);
    let mut p = parser("ptr 1");
    assert_eq!(parse_type(&mut p).err(), Some("Cannot Parse Type"));
    assert_eq!(p.ptr, 1);
}

#[test]
fn variable_declarations() {
    let ast = program("let x: u8 = 5; let y: [u8; 2];");
    assert_eq!(ast.len(), 2);
    match &ast[0] {
        Statement::VarDeclr(d) => {
            assert_eq!(d.name.data(), "x");
            assert_eq!(d.var_type.get_token().data(), "u8");
            assert_eq!(literal_text(d.value.as_ref().unwrap()), "5");
        }
        s => panic!("not a variable declaration: {:?}", s),
    }
    match &ast[1] {
        Statement::VarDeclr(d) => {
            assert_eq!(d.name.data(), "y");
            assert!(matches!(d.var_type, DeclrType::Array(_, _)));
            assert!(d.value.is_none());
        }
        s => panic!("not a variable declaration: {:?}", s),
    }
    assert_eq!(program_error("let 1"), ("Expected Identifier for Variable Name", 1));
    assert_eq!(program_error("let x u8"), ("Expected Colon After Variable Name", 2));
    assert_eq!(program_error("let x: u8 = 1"), ("Expected Semicolon after Declaration", 6));
    assert_eq!(program_error("let x: u8 5;"), ("Expected Semicolon after Declaration", 4));
}

#[test]
fn function_declaration() {
    let ast = program("fn add(a: u8, b: ptr u8) -> u8 { return a; }");
    assert_eq!(ast.len(), 1);
    match &ast[0] {
        Statement::FnDeclr(d) => {
            assert_eq!(d.name.data(), "add");
            let params = d.params.get_param_vec();
            assert_eq!(params.len(), 2);
            assert_eq!(params[0].0.data(), "a");
            assert!(matches!(params[0].1, DeclrType::BasicType(_)));
            assert_eq!(params[1].0.data(), "b");
            assert!(matches!(params[1].1, DeclrType::Pointer(_)));
            assert_eq!(d.ret_type.get_token().data(), "u8");
            match &d.body {
                Statement::Block(items) => {
                    assert_eq!(items.len(), 1);
                    match &items[0] {
                        Statement::ReturnStmt(t, value) => {
                            assert_eq!(t.data(), "return");
                            assert_eq!(id_text(value), "a");
                        }
                        s => panic!("not a return: {:?}", s),
                    }
                }
                s => panic!("not a block: {:?}", s),
            }
        }
        s => panic!("not a function declaration: {:?}", s),
    }
    match &program("fn f() -> void { }")[0] {
        Statement::FnDeclr(d) => assert!(d.params.get_param_vec().is_empty()),
        s => panic!("not a function declaration: {:?}", s),
    }
}

#[test]
fn function_declaration_errors() {
    assert_eq!(program_error("fn 1"), ("Expected Identifier for Function Name", 1));
    assert_eq!(
        program_error("fn f {"),
        ("Expected Opening Parentheses after Function Name", 2)
    );
    assert_eq!(program_error("fn f(1)"), ("Expected Identifier for Parameter Name", 3));
    assert_eq!(program_error("fn f(a u8)"), ("Expected Colon after Parameter Name", 4));
    assert_eq!(program_error("fn f(a: u8, )"), ("Expected Identifier for Parameter Name", 7));
    assert_eq!(
        program_error("fn f(a: u8 b)"),
        ("Expected Closing Parentheses after Function Declaration", 6)
    );
    assert_eq!(program_error("fn f() u8"), ("Expected Arrow to Denote Function Type", 4));
    assert_eq!(program_error("fn f() -> {"), ("Cannot Parse Type", 5));
    assert_eq!(
        program_error("fn f() -> u8 ;"),
        ("Expected Opening Curly Brace for Function Body", 6)
    );
    assert_eq!(program_error("fn f() -> u8 {"), ("Expected Closing Curly Bracket", 7));
}

#[test]
fn struct_and_enum_declarations() {
    let ast = program("struct P { x: u8, y: u16 } enum C { Red, Green } struct E { } enum N { }");
    assert_eq!(ast.len(), 4);
    match &ast[0] {
        Statement::StructDeclr(d) => {
            assert_eq!(d.name.data(), "P");
            let fields = d.params.get_param_vec();
            assert_eq!(fields.len(), 2);
            assert_eq!(fields[1].0.data(), "y");
            assert_eq!(fields[1].1.get_token().data(), "u16");
        }
        s => panic!("not a struct declaration: {:?}", s),
    }
    match &ast[1] {
        Statement::EnumDeclr(d) => {
            assert_eq!(d.name.data(), "C");
            match &d.variants {
                Statement::Variant(v) => {
                    assert_eq!(v.len(), 2);
                    assert_eq!(v[0].data(), "Red");
                    assert_eq!(v[1].data(), "Green");
                }
                s => panic!("not a list of variants: {:?}", s),
            }
        }
        s => panic!("not an enum declaration: {:?}", s),
    }
    match &ast[2] {
        Statement::StructDeclr(d) => assert!(d.params.get_param_vec().is_empty()),
        s => panic!("not a struct declaration: {:?}", s),
    }
    match &ast[3] {
        Statement::EnumDeclr(d) => match &d.variants {
            Statement::Variant(v) => assert!(v.is_empty()),
            s => panic!("not a list of variants: {:?}", s),
        },
        s => panic!("not an enum declaration: {:?}", s),
    }
}

#[test]
fn struct_and_enum_declaration_errors() {
    assert_eq!(program_error("struct {"), ("Expected Identifier for Struct Name", 1));
    assert_eq!(program_error("struct S x"), ("Expected Curly Bracket after Struct Name", 2));
    assert_eq!(
        program_error("struct S { x: u8 ;"),
        ("Expected Closing Curly Bracket after Struct Declaration", 6)
    );
    assert_eq!(program_error("enum {"), ("Expected Identifier for Enum Name", 1));
    assert_eq!(program_error("enum E x"), ("Expected Curly Bracket after Enum Name", 2));
    assert_eq!(program_error("enum E { 1 }"), ("Expected Identifier for Variant Name", 3));
    assert_eq!(program_error("enum E { A, }"), ("Expected Identifier for Variant Name", 5));
    assert_eq!(
        program_error("enum E { A B }"),
        ("Expected Closing Curly Bracket after Enum Declaration", 4)
    );
}

#[test]
fn control_flow_statements() {
    let ast = program("if a { x; } else { y; } while b { break; } loop { } if c { }");
    assert_eq!(ast.len(), 4);
    match &ast[0] {
        Statement::IfStmt(c) => {
            assert_eq!(id_text(&c.cond), "a");
            assert!(matches!(c.true_branch, Statement::Block(_)));
            assert!(matches!(c.false_branch, Some(Statement::Block(_))));
        }
        s => panic!("not a conditional: {:?}", s),
    }
    match &ast[1] {
        Statement::WhileStmt(c) => {
            assert_eq!(id_text(&c.cond), "b");
            assert!(c.false_branch.is_none());
            match &c.true_branch {
                Statement::Block(items) => match &items[0] {
                    Statement::BreakStmt(t) => {
                        assert_eq!(t.data(), "break");
                        assert_eq!(t.pos, 34);
                    }
                    s => panic!("not a break: {:?}", s),
                },
                s => panic!("not a block: {:?}", s),
            }
        }
        s => panic!("not a while loop: {:?}", s),
    }
    match &ast[2] {
        Statement::LoopStmt(body) => assert!(matches!(**body, Statement::Block(_))),
        s => panic!("not a loop: {:?}", s),
    }
    match &ast[3] {
        Statement::IfStmt(c) => assert!(c.false_branch.is_none()),
        s => panic!("not a conditional: {:?}", s),
    }
}

#[test]
fn control_flow_errors() {
    assert_eq!(program_error("if a x"), ("Expected Block after If Statement", 2));
    assert_eq!(
        program_error("if a { } else x"),
        ("Expected Block After Else Statement", 5)
    );
    assert_eq!(program_error("while a x"), ("Expected Curly Brace after While Statement", 2));
    assert_eq!(program_error("loop x"), ("Expected Block after Loop Statement", 1));
    assert_eq!(program_error("{ break }"), ("Expected Semicolon after Break", 2));
    assert_eq!(program_error("break"), ("Expected Semicolon after Break", 1));
    assert_eq!(program_error("{ x;"), ("Expected Closing Curly Bracket", 3));
    assert_eq!(program_error("x"), ("Expected Semicolon after Expression Statement", 1));
}

#[test]
fn return_takes_an_expression_and_a_semicolon() {
    match &program("{ return 1 + 2; }")[0] {
        Statement::Block(items) => match &items[0] {
            Statement::ReturnStmt(t, value) => {
                assert_eq!(t.pos, 2);
                assert!(matches!(value, Expr::Term(_)));
            }
            s => panic!("not a return: {:?}", s),
        },
        s => panic!("not a block: {:?}", s),
    }
    assert_eq!(
        program_error("{ return 1 }"),
        ("Expected Semicolon after Return Statement", 3)
    );
    assert_eq!(program_error("{ return ; }"), ("Expected Expression", 2));
}

#[test]
fn nested_blocks() {
    match &program("{ { x; } y; }")[0] {
        Statement::Block(outer) => {
            assert_eq!(outer.len(), 2);
            match &outer[0] {
                Statement::Block(inner) => assert_eq!(inner.len(), 1),
                s => panic!("not a block: {:?}", s),
            }
            assert!(matches!(outer[1], Statement::ExprStmt(_)));
        }
        s => panic!("not a block: {:?}", s),
    }
}

#[test]
fn a_statement_is_read_at_the_level_of_the_placeholder() {
    let mut p = parser("x: u8 = 1;");
    let mut level = new_statement("VarDeclr");
    let s = level.parse(&mut p).unwrap();
    assert!(matches!(s, Statement::VarDeclr(_)));
    assert!(matches!(level, Statement::VarDeclr(_)));
    assert_eq!(p.ptr, 6);

    let mut p = parser("a: u8, b: u16");
    match new_statement("Params").parse(&mut p).unwrap() {
        Statement::Parameters(v) => assert_eq!(v.len(), 2),
        s => panic!("not a parameter list: {:?}", s),
    }

    let mut p = parser("x; }");
    let mut block = new_statement("Block");
    block.parse(&mut p).unwrap();
    match &block {
        Statement::Block(items) => assert_eq!(items.len(), 1),
        s => panic!("not a block: {:?}", s),
    }
    // A block keeps what it holds and gets what is read behind it.
    let mut p = parser("y; z; }");
    match block.parse(&mut p).unwrap() {
        Statement::Block(items) => assert_eq!(items.len(), 3),
        s => panic!("not a block: {:?}", s),
    }
    // A failure leaves the block as it was.
    let mut p = parser("w;");
    assert_eq!(block.parse(&mut p).err(), Some("Expected Closing Curly Bracket"));
    match &block {
        Statement::Block(items) => assert_eq!(items.len(), 3),
        s => panic!("not a block: {:?}", s),
    }

    let mut p = parser("return x;");
    p.advance();
    match new_statement("ReturnStmt").parse(&mut p).unwrap() {
        Statement::ReturnStmt(t, _) => assert_eq!(t.data(), "return"),
        s => panic!("not a return: {:?}", s),
    }
}

#[test]
fn parsing_stops_at_the_first_error() {
    let mut p = parser("let x: u8 = 1; let = 2; let z: u8 = 3;");
    assert_eq!(p.parse().err(), Some("Expected Identifier for Variable Name"));
    assert_eq!(p.ptr, 8);
    assert!(p.tokens[p.ptr].ttype == TokenType::Op("=".to_string()));
}

#[test]
fn an_empty_program_has_no_statements() {
    assert!(program("").is_empty());
}

#[test]
fn the_cursor_peeks_in_both_directions() {
    let mut p = parser("a b c");
    p.advance();
    assert_eq!(p.ptr, 1);
    assert_eq!(p.peek(0).data(), "b");
    assert_eq!(p.peek(-1).data(), "a");
    assert_eq!(p.peek(1).data(), "c");
    assert!(p.peek(2).ttype == TokenType::EOF);
    assert_eq!(p.peek_forward(-1).unwrap().data(), "a");
    assert!(p.peek_forward(3).is_none());
    assert!(p.peek_forward(-2).is_none());
    assert!(p.peek_forward(i64::MAX).is_none());
    assert!(p.peek_forward(i64::MIN).is_none());
    assert!(p.at(&TokenType::Id("b".to_string())));
    assert!(p.at_id());
    assert!(!p.at_lit());
}

#[test]
fn parsing_twice_gives_the_same_result() {
    let text = "struct S { a: u8 } fn f(s: S) -> u8 { if s.a == 1 { return 2; } return 1 + 2 << 3; }";
    let first = format!("{:?}", parser(text).parse());
    let second = format!("{:?}", parser(text).parse());
    assert_eq!(first, second);
    let bad = "fn f( { }";
    let first = format!("{:?}", parser(bad).parse());
    let second = format!("{:?}", parser(bad).parse());
    assert_eq!(first, second);
}

#[test]
fn a_break_takes_its_semicolon() {
    let mut p = parser("while x { break; }");
    let s = new_statement("Base").parse(&mut p).unwrap();
    assert_eq!(p.ptr, 6);
    assert!(p.tokens[p.ptr].ttype == TokenType::EOF);
    match s {
        Statement::WhileStmt(c) => {
            assert_eq!(id_text(&c.cond), "x");
            assert!(c.false_branch.is_none());
            match &c.true_branch {
                Statement::Block(items) => {
                    assert_eq!(items.len(), 1);
                    match &items[0] {
                        Statement::BreakStmt(t) => assert_eq!(t.pos, 10),
                        s => panic!("not a break: {:?}", s),
                    }
                }
                s => panic!("not a block: {:?}", s),
            }
        }
        s => panic!("not a while loop: {:?}", s),
    }
}

#[test]
fn a_return_takes_its_semicolon() {
    let mut p = parser("fn f(a: u8) -> u8 { return a; }");
    let s = new_statement("Base").parse(&mut p).unwrap();
    assert!(p.tokens[p.ptr].ttype == TokenType::EOF);
    match s {
        Statement::FnDeclr(d) => {
            assert_eq!(d.name.data(), "f");
            let params = d.params.get_param_vec();
            assert_eq!(params.len(), 1);
            assert_eq!(params[0].0.data(), "a");
            assert_eq!(params[0].1.get_token().data(), "u8");
            assert_eq!(d.ret_type.get_token().data(), "u8");
            match &d.body {
                Statement::Block(items) => {
                    assert_eq!(items.len(), 1);
                    match &items[0] {
                        Statement::ReturnStmt(t, value) => {
                            assert_eq!(t.data(), "return");
                            assert_eq!(id_text(value), "a");
                        }
                        s => panic!("not a return: {:?}", s),
                    }
                }
                s => panic!("not a block: {:?}", s),
            }
        }
        s => panic!("not a function declaration: {:?}", s),
    }
}
