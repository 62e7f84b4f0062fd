use compiler_front::definitions::{DeclrType, Token, TokenType};
use compiler_front::expression::{new_expr, Expr};
use compiler_front::lexer::Lexer;
use compiler_front::parser::Parser;
use compiler_front::statement::Statement;
use compiler_front::syntax::scope::ScopeStack;
use compiler_front::syntax::types::{FieldType, UserStructDef, VarType};
use compiler_front::syntax::{
    check_ast_syntax, define_types_in_scope, literal_var_type, program_is_checkable,
    reserved_name, SyntaxErr,
};

/// The tokens of a source text. The word `ptr` stands for the pointer
/// keyword `@`, which the lexer does not produce.
fn tokens(text: &str) -> Vec<Token> {
    let mut source = text.to_string();
    source.push('\0');
    let mut lexer = Lexer::new(source).unwrap();
    let mut tokens = lexer.lex().unwrap();
    for t in tokens.iter_mut() {
        if t.ttype == TokenType::Id("ptr".to_string()) {
            t.ttype = TokenType::Key("@".to_string());
        }
    }
    tokens
}

fn program(text: &str) -> Vec<Statement> {
    Parser::new(tokens(text)).parse().unwrap()
}

fn expr(text: &str) -> Expr {
    let mut p = Parser::new(tokens(text));
    new_expr("Base").parse(&mut p).unwrap()
}

fn check(text: &str) -> Result<(), SyntaxErr> {
    let ast = program(text);
    assert!(program_is_checkable(&ast));
    check_ast_syntax(ast)
}

/// The scope after the statements of a program are checked.
fn scope_after(text: &str) -> ScopeStack {
    let ast = program(text);
    let mut ss = ScopeStack::new();
    define_types_in_scope(&ast, &mut ss).unwrap();
    for s in &ast {
        s.check_syntax(&mut ss).unwrap();
    }
    ss
}

fn literal(text: &str) -> Option<VarType> {
    literal_var_type(&text.to_string())
}

#[test]
fn forward_reference_to_a_struct_declared_later() {
    assert!(check("struct A { b: B } struct B { x: u8 }").is_ok());
    let ss = scope_after("struct A { b: B } struct B { x: u8 } let a: A;");
    match ss.get_var_t("a".to_string()).unwrap() {
        VarType::UserStruct(def) => {
            assert_eq!(def.name, "A");
            match def.get_field_type("b".to_string()).unwrap().unwrap() {
                VarType::UserStruct(b) => assert_eq!(b.name, "B"),
                t => panic!("field is not a struct: {:?}", t),
            }
        }
        t => panic!("not a struct: {:?}", t),
    }
}

#[test]
fn forward_reference_does_not_reach_an_inner_level() {
    match check("struct A { b: B } { struct B { x: u8 } }") {
        Err(SyntaxErr::UnknownType(t, m)) => {
            assert_eq!(t.data(), "B");
            assert_eq!(m, "Undefined Type");
        }
        r => panic!("unexpected result: {:?}", r),
    }
}

#[test]
fn a_struct_that_holds_itself_is_rejected() {
    match check("struct A { next: A }") {
        Err(SyntaxErr::RecursiveStruct(t)) => {
            assert_eq!(t.data(), "next");
            assert_eq!(t.pos, 11);
        }
        r => panic!("unexpected result: {:?}", r),
    }
    match check("struct A { x: u8, items: [A; 2] }") {
        Err(SyntaxErr::RecursiveStruct(t)) => assert_eq!(t.data(), "items"),
        r => panic!("unexpected result: {:?}", r),
    }
}

#[test]
fn a_struct_may_point_to_itself() {
    assert!(check("struct A { next: ptr A }").is_ok());
    let ss = scope_after("struct A { next: ptr A } let a: A;");
    match ss.get_var_t("a".to_string()).unwrap() {
        VarType::UserStruct(def) => match def.get_field_type("next".to_string()).unwrap().unwrap() {
            VarType::Pointer(inner) => match *inner {
                VarType::UserStruct(a) => assert_eq!(a.name, "A"),
                t => panic!("does not point to a struct: {:?}", t),
            },
            t => panic!("field is not a pointer: {:?}", t),
        },
        t => panic!("not a struct: {:?}", t),
    }
}

#[test]
fn a_literal_takes_the_narrowest_width() {
    assert!(check("let x: u8 = 5;").is_ok());
    match check("let x: u8 = 300;") {
        Err(SyntaxErr::WrongType(expected, found)) => {
            assert_eq!(expected, VarType::U8);
            assert_eq!(found, VarType::U16);
        }
        r => panic!("unexpected result: {:?}", r),
    }
    assert!(check("let x: u16 = 300;").is_ok());
}

#[test]
fn unsigned_literal_ladder() {
    assert_eq!(literal("0"), Some(VarType::U8));
    assert_eq!(literal("255"), Some(VarType::U8));
    assert_eq!(literal("256"), Some(VarType::U16));
    assert_eq!(literal("65535"), Some(VarType::U16));
    assert_eq!(literal("65536"), Some(VarType::U32));
    assert_eq!(literal("4294967295"), Some(VarType::U32));
    assert_eq!(literal("4294967296"), Some(VarType::U64));
    assert_eq!(literal("18446744073709551615"), Some(VarType::U64));
    assert_eq!(literal("18446744073709551616"), None);
    assert_eq!(literal("000000000000000000000000255"), Some(VarType::U8));
    assert_eq!(literal("+7"), Some(VarType::U8));
}

#[test]
fn signed_literal_ladder() {
    assert_eq!(literal("-0"), Some(VarType::I8));
    assert_eq!(literal("-128"), Some(VarType::I8));
    assert_eq!(literal("-129"), Some(VarType::I16));
    assert_eq!(literal("-32768"), Some(VarType::I16));
    assert_eq!(literal("-32769"), Some(VarType::I32));
    assert_eq!(literal("-2147483648"), Some(VarType::I32));
    assert_eq!(literal("-2147483649"), Some(VarType::I64));
    assert_eq!(literal("-9223372036854775808"), Some(VarType::I64));
    assert_eq!(literal("-9223372036854775809"), None);
}

#[test]
fn a_text_that_is_no_number_has_no_type() {
    assert_eq!(literal(""), None);
    assert_eq!(literal("-"), None);
    assert_eq!(literal("+"), None);
    assert_eq!(literal("12a"), None);
    assert_eq!(literal("--1"), None);
    assert_eq!(literal("+-1"), None);
    assert_eq!(literal("1 "), None);
}

#[test]
fn a_literal_out_of_range_is_an_error() {
    match check("let x: u64 = 99999999999999999999;") {
        Err(SyntaxErr::LiteralErr(t)) => assert_eq!(t.data(), "99999999999999999999"),
        r => panic!("unexpected result: {:?}", r),
    }
}

#[test]
fn a_call_with_too_many_arguments() {
    match check("fn f(a: u8) -> u8 { return a; } f(1, 2);") {
        Err(SyntaxErr::WrongArgN(t)) => {
            assert_eq!(t.data(), "f");
            assert_eq!(t.pos, 32);
        }
        r => panic!("unexpected result: {:?}", r),
    }
    assert!(matches!(
        check("fn f(a: u8) -> u8 { return a; } f();"),
        Err(SyntaxErr::WrongArgN(_))
    ));
    assert!(check("fn f(a: u8) -> u8 { return a; } f(1);").is_ok());
}

#[test]
fn a_call_checks_each_argument_against_its_parameter() {
    match check("fn f(a: u8, b: u16) -> u8 { return a; } f(1, 2);") {
        Err(SyntaxErr::WrongType(expected, found)) => {
            assert_eq!(expected, VarType::U16);
            assert_eq!(found, VarType::U8);
        }
        r => panic!("unexpected result: {:?}", r),
    }
    assert!(check("fn f(a: u8, b: u16) -> u8 { return a; } f(1, 300);").is_ok());
    assert!(check("struct S { x: u8 } fn f(s: S) -> u8 { return s.x; } let v: S; f(v);").is_ok());
}

#[test]
fn a_call_is_of_the_declared_return_type() {
    assert!(check("fn f() -> u16 { return 300; } let x: u16 = f();").is_ok());
    assert!(matches!(
        check("fn f() -> u16 { return 300; } let x: u8 = f();"),
        Err(SyntaxErr::WrongType(_, _))
    ));
}

#[test]
fn a_function_may_call_itself() {
    assert!(check("fn f(a: u8) -> u8 { return f(a); }").is_ok());
}

#[test]
fn a_call_of_an_unknown_function() {
    match check("g(1);") {
        Err(SyntaxErr::Undeclared(t)) => assert_eq!(t.data(), "g"),
        r => panic!("unexpected result: {:?}", r),
    }
}

#[test]
fn break_needs_a_loop() {
    let stray = Statement::new_break(Token { ttype: TokenType::Key("break".to_string()), pos: 7 });
    match check_ast_syntax(vec![stray]) {
        Err(SyntaxErr::BreakOutsideLoop(t)) => assert_eq!(t.pos, 7),
        r => panic!("unexpected result: {:?}", r),
    }
    match check("{ break; }") {
        Err(SyntaxErr::BreakOutsideLoop(t)) => assert_eq!(t.data(), "break"),
        r => panic!("unexpected result: {:?}", r),
    }
    assert!(check("let c: u8 = 1; while c { break; }").is_ok());
    assert!(check("loop { break; }").is_ok());
    assert!(check("let c: u8 = 1; loop { if c { break; } }").is_ok());
}

#[test]
fn a_break_behind_a_loop_is_outside_it() {
    assert!(matches!(
        check("{ loop { } break; }"),
        Err(SyntaxErr::BreakOutsideLoop(_))
    ));
    assert!(matches!(
        check("let c: u8 = 1; while c { break; } break;"),
        Err(SyntaxErr::BreakOutsideLoop(_))
    ));
    assert!(matches!(
        check("{ loop { } } { break; }"),
        Err(SyntaxErr::BreakOutsideLoop(_))
    ));
    // Inside an outer loop a break behind an inner loop still passes.
    assert!(check("loop { loop { break; } break; }").is_ok());
    // A finished loop followed by a break, as statements built by hand.
    let one = Expr::new_literal(Token { ttype: TokenType::Lit("1".to_string()), pos: 6 });
    let finished = Statement::new_while(one, Statement::new_block(vec![]));
    let stray = Statement::new_break(Token { ttype: TokenType::Key("break".to_string()), pos: 12 });
    match check_ast_syntax(vec![finished, stray]) {
        Err(SyntaxErr::BreakOutsideLoop(t)) => assert_eq!(t.pos, 12),
        r => panic!("unexpected result: {:?}", r),
    }
    let finished = Statement::new_loop(Statement::new_block(vec![]));
    let stray = Statement::new_break(Token { ttype: TokenType::Key("break".to_string()), pos: 9 });
    assert!(matches!(
        check_ast_syntax(vec![finished, stray]),
        Err(SyntaxErr::BreakOutsideLoop(_))
    ));
}

#[test]
fn a_loop_leaves_the_scope_as_it_was() {
    let mut ss = scope_after("let a: u8 = 1;");
    let before = format!("{:?}", ss);
    for text in ["loop { let b: u8 = a; break; }", "while a { let b: u8 = a; loop { } }"] {
        let ast = program(text);
        ast[0].check_syntax(&mut ss).unwrap();
        assert_eq!(format!("{:?}", ss), before);
    }
}

#[test]
fn a_refused_statement_leaves_the_scope_as_it_was() {
    let mut ss = ScopeStack::new();
    let token = Token { ttype: TokenType::Key("return".to_string()), pos: 0 };
    let one = Expr::new_literal(Token { ttype: TokenType::Lit("1".to_string()), pos: 7 });
    match Statement::new_return(token, one).check_syntax(&mut ss) {
        Err(SyntaxErr::ReturnOutsideFunc(t)) => assert_eq!(t.pos, 0),
        r => panic!("unexpected result: {:?}", r),
    }
    assert!(ss.stack.is_empty());
    assert!(ss.defined_types.is_empty());
    assert!(ss.used_ids.is_empty());

    let mut ss = scope_after("let a: u8 = 1; struct S { }");
    let before = format!("{:?}", ss);
    for text in ["let a: u8 = 2;", "let b: u8 = 300;", "let c: T;", "b;", "fn a() -> u8 { }"] {
        let ast = program(text);
        assert!(ast[0].check_syntax(&mut ss).is_err());
        assert_eq!(format!("{:?}", ss), before, "{}", text);
    }
    let stray = Statement::new_break(Token { ttype: TokenType::Key("break".to_string()), pos: 0 });
    assert!(stray.check_syntax(&mut ss).is_err());
    assert_eq!(format!("{:?}", ss), before);
}

#[test]
fn a_failure_leaves_the_scope_where_it_was_met() {
    // The second statement of the block is refused inside the level of the
    // block, behind the binding of the first.
    let mut ss = ScopeStack::new();
    let ast = program("{ let a: u8 = 1; let a: u8 = 2; }");
    assert!(ast[0].check_syntax(&mut ss).is_err());
    assert_eq!(ss.stack.len(), 2);
    assert_eq!(ss.used_ids, vec!["a"]);
    assert_eq!(ss.get_var_t("a".to_string()), Some(VarType::U8));
}

#[test]
fn a_struct_that_holds_itself_is_rejected_under_an_outer_struct_of_its_name() {
    match check("struct A { x: u8 } { struct A { next: A } }") {
        Err(SyntaxErr::RecursiveStruct(t)) => assert_eq!(t.data(), "next"),
        r => panic!("unexpected result: {:?}", r),
    }
    assert!(check("struct A { x: u8 } { struct A { next: ptr A } }").is_ok());
    assert!(check("struct A { x: u8 } { struct B { a: A } }").is_ok());
}

#[test]
fn pointer_round_trip() {
    let ss = scope_after("let x: u8 = 1; let p: ptr u8 = &x;");
    assert_eq!(
        ss.get_var_t("p".to_string()),
        Some(VarType::Pointer(Box::new(VarType::U8)))
    );
    assert_eq!(expr("*p").check_syntax(&ss).unwrap(), VarType::U8);
    assert_eq!(
        expr("&p").check_syntax(&ss).unwrap(),
        VarType::Pointer(Box::new(VarType::Pointer(Box::new(VarType::U8))))
    );
}

#[test]
fn only_a_pointer_is_dereferenced() {
    match check("let x: u8 = 1; *x;") {
        Err(SyntaxErr::NotDerefAble(t)) => assert_eq!(t.data(), "x"),
        r => panic!("unexpected result: {:?}", r),
    }
    match check("*y;") {
        Err(SyntaxErr::Undeclared(t)) => assert_eq!(t.data(), "y"),
        r => panic!("unexpected result: {:?}", r),
    }
    match check("&y;") {
        Err(SyntaxErr::Undeclared(t)) => assert_eq!(t.data(), "y"),
        r => panic!("unexpected result: {:?}", r),
    }
}

#[test]
fn a_name_is_declared_once_at_a_level() {
    match check("{ let x: u8 = 0; let x: u8 = 0; }") {
        Err(SyntaxErr::AlreadyDefined(t)) => {
            assert_eq!(t.data(), "x");
            assert_eq!(t.pos, 21);
        }
        r => panic!("unexpected result: {:?}", r),
    }
    assert!(matches!(
        check("let x: u8 = 0; let x: u8 = 0;"),
        Err(SyntaxErr::AlreadyDefined(_))
    ));
    assert!(matches!(
        check("fn f() -> void { } let f: u8 = 0;"),
        Err(SyntaxErr::AlreadyDefined(_))
    ));
    assert!(matches!(
        check("let f: u8 = 0; fn f() -> void { }"),
        Err(SyntaxErr::AlreadyDefined(_))
    ));
    assert!(matches!(
        check("struct S { } enum S { }"),
        Err(SyntaxErr::AlreadyDefined(_))
    ));
    assert!(matches!(
        check("struct S { a: T } struct S { b: T } struct T { }"),
        Err(SyntaxErr::AlreadyDefined(_))
    ));
    assert!(matches!(
        check("enum E { } let E: u8 = 0;"),
        Err(SyntaxErr::AlreadyDefined(_))
    ));
}

#[test]
fn an_inner_level_may_reuse_a_name() {
    assert!(check("let x: u8 = 0; { let x: u16 = 300; let y: u16 = x; } let z: u8 = x;").is_ok());
    assert!(check("{ let x: u8 = 0; } { let x: u8 = 0; }").is_ok());
    assert!(check("struct S { a: u8 } { struct S { b: u16 } let s: S; let v: u16 = s.b; }").is_ok());
}

#[test]
fn a_name_leaves_with_its_level() {
    match check("{ let x: u8 = 0; } x;") {
        Err(SyntaxErr::Undeclared(t)) => assert_eq!(t.data(), "x"),
        r => panic!("unexpected result: {:?}", r),
    }
    match check("{ struct S { } } let s: S;") {
        Err(SyntaxErr::UnknownType(t, m)) => {
            assert_eq!(t.data(), "S");
            assert_eq!(m, "Undefined Type");
        }
        r => panic!("unexpected result: {:?}", r),
    }
}

#[test]
fn reserved_names_are_not_declared() {
    match check("let void: u8 = 0;") {
        Err(SyntaxErr::ReservedID(t)) => assert_eq!(t.data(), "void"),
        r => panic!("unexpected result: {:?}", r),
    }
    assert!(matches!(check("fn void() -> u8 { }"), Err(SyntaxErr::ReservedID(_))));
    assert!(reserved_name(&"void".to_string()));
    assert!(reserved_name(&"@".to_string()));
    assert!(reserved_name(&"@p".to_string()));
    assert!(!reserved_name(&"p@".to_string()));
    assert!(!reserved_name(&"Void".to_string()));
    assert!(!reserved_name(&"".to_string()));
    let name = Token { ttype: TokenType::Id("@x".to_string()), pos: 4 };
    let bad = Statement::new_var_declr(
        name,
        DeclrType::BasicType(Token {
            ttype: TokenType::Id("u8".to_string()),
            pos: 8,
        }),
        None,
    );
    match check_ast_syntax(vec![bad]) {
        Err(SyntaxErr::ReservedID(t)) => assert_eq!(t.pos, 4),
        r => panic!("unexpected result: {:?}", r),
    }
}

#[test]
fn the_identifier_void_is_of_type_void() {
    assert!(check("fn f() -> void { return void; }").is_ok());
}

#[test]
fn unknown_types() {
    match check("let x: T;") {
        Err(SyntaxErr::UnknownType(t, m)) => {
            assert_eq!(t.data(), "T");
            assert_eq!(m, "Undefined Type");
        }
        r => panic!("unexpected result: {:?}", r),
    }
    match check("let x: [u8; 70000];") {
        Err(SyntaxErr::UnknownType(t, m)) => {
            assert_eq!(t.data(), "u8");
            assert_eq!(m, "Cannot Parse Array Size");
        }
        r => panic!("unexpected result: {:?}", r),
    }
    match check("fn f(a: T) -> u8 { }") {
        Err(SyntaxErr::UnknownType(t, _)) => assert_eq!(t.data(), "T"),
        r => panic!("unexpected result: {:?}", r),
    }
    match check("let x: u8 = 1; x as T;") {
        Err(SyntaxErr::UnknownType(t, _)) => assert_eq!(t.data(), "T"),
        r => panic!("unexpected result: {:?}", r),
    }
    match check("struct A { b: B }") {
        Err(SyntaxErr::UnknownType(t, _)) => assert_eq!(t.data(), "B"),
        r => panic!("unexpected result: {:?}", r),
    }
    match check("fn f() -> T { return 1; }") {
        Err(SyntaxErr::UnknownType(t, _)) => assert_eq!(t.data(), "T"),
        r => panic!("unexpected result: {:?}", r),
    }
}

#[test]
fn a_cast_is_of_the_type_it_names() {
    assert!(check("let x: u8 = 1; let y: u32 = x as u32;").is_ok());
    assert!(check("struct S { } let x: u8 = 1; let y: S = x as S;").is_ok());
    // The operand of a cast is not looked at.
    assert!(check("let y: u16 = nothing as u16;").is_ok());
}

#[test]
fn duplicate_parameter_names() {
    match check("fn f(a: u8, b: u8, a: u16, b: u8) -> u8 { }") {
        Err(SyntaxErr::DupParamNames(t)) => {
            assert_eq!(t.data(), "a");
            assert_eq!(t.pos, 5);
        }
        r => panic!("unexpected result: {:?}", r),
    }
}

#[test]
fn return_needs_a_function_and_its_type() {
    match check("{ return 1; }") {
        Err(SyntaxErr::ReturnOutsideFunc(t)) => assert_eq!(t.data(), "return"),
        r => panic!("unexpected result: {:?}", r),
    }
    match check("fn f() -> u8 { return 300; }") {
        Err(SyntaxErr::WrongType(expected, found)) => {
            assert_eq!(expected, VarType::U8);
            assert_eq!(found, VarType::U16);
        }
        r => panic!("unexpected result: {:?}", r),
    }
    assert!(check("fn f() -> u8 { if 1 { return 2; } return 3; }").is_ok());
}

#[test]
fn a_return_behind_a_function_is_outside_it() {
    assert!(matches!(
        check("{ fn f() -> u8 { return 1; } return 1; }"),
        Err(SyntaxErr::ReturnOutsideFunc(_))
    ));
}

#[test]
fn enum_variants() {
    assert!(check("enum C { Red, Green } let c: C = C::Green;").is_ok());
    match check("enum C { Red, Green } C::Blue;") {
        Err(SyntaxErr::UnknownVariant(t)) => assert_eq!(t.data(), "Blue"),
        r => panic!("unexpected result: {:?}", r),
    }
    match check("D::Red;") {
        Err(SyntaxErr::UnknownType(t, m)) => {
            assert_eq!(t.data(), "D");
            assert_eq!(m, "Undefined Enum");
        }
        r => panic!("unexpected result: {:?}", r),
    }
    match check("struct S { } S::Red;") {
        Err(SyntaxErr::UnknownType(t, m)) => {
            assert_eq!(t.data(), "S");
            assert_eq!(m, "Undefined Enum");
        }
        r => panic!("unexpected result: {:?}", r),
    }
}

#[test]
fn struct_fields() {
    assert!(check("struct P { x: u8, y: u16 } let p: P; let a: u16 = p.y;").is_ok());
    match check("struct P { x: u8 } let p: P; p.z;") {
        Err(SyntaxErr::UnknownField(t)) => assert_eq!(t.data(), "z"),
        r => panic!("unexpected result: {:?}", r),
    }
    match check("let p: u8 = 1; p.x;") {
        Err(SyntaxErr::NotAStruct(t)) => assert_eq!(t.data(), "p"),
        r => panic!("unexpected result: {:?}", r),
    }
    match check("q.x;") {
        Err(SyntaxErr::Undeclared(t)) => assert_eq!(t.data(), "q"),
        r => panic!("unexpected result: {:?}", r),
    }
}

#[test]
fn operands_must_be_of_one_type() {
    match check("let a: u8 = 1; let b: u16 = 300; a + b;") {
        Err(SyntaxErr::WrongType(right, left)) => {
            assert_eq!(right, VarType::U16);
            assert_eq!(left, VarType::U8);
        }
        r => panic!("unexpected result: {:?}", r),
    }
    assert!(matches!(
        check("let a: u8 = 1; a = 300;"),
        Err(SyntaxErr::WrongType(_, _))
    ));
    assert!(check("let a: u8 = 1; let b: u8 = 2; a = (a + b) << 1 == -a;").is_ok());
    assert!(check("let a: u8 = 1; let b: u8 = a < 2;").is_ok());
}

#[test]
fn user_types_are_equal_by_name() {
    assert!(check("struct S { a: u8 } let x: S; { struct S { b: u16 } let y: S = x; }").is_ok());
    assert!(matches!(
        check("struct S { } struct T { } let x: S; let y: T = x;"),
        Err(SyntaxErr::WrongType(_, _))
    ));
    assert!(matches!(
        check("struct S { } enum E { } let x: S; let y: E = x;"),
        Err(SyntaxErr::WrongType(_, _))
    ));
}

#[test]
fn the_first_error_in_order_is_reported() {
    match check("let a: u8 = b; let c: u8 = 300;") {
        Err(SyntaxErr::Undeclared(t)) => assert_eq!(t.data(), "b"),
        r => panic!("unexpected result: {:?}", r),
    }
    match check("x + (1 == 300);") {
        Err(SyntaxErr::Undeclared(t)) => assert_eq!(t.data(), "x"),
        r => panic!("unexpected result: {:?}", r),
    }
    // The types of a level are declared before its statements are checked.
    assert!(matches!(
        check("let a: u8 = b; struct S { s: S }"),
        Err(SyntaxErr::RecursiveStruct(_))
    ));
}

#[test]
fn parameters_stay_used_behind_their_function() {
    assert!(matches!(
        check("fn f(a: u8) -> u8 { } let a: u8 = 1;"),
        Err(SyntaxErr::AlreadyDefined(_))
    ));
    match check("fn f(a: u8) -> u8 { } a;") {
        Err(SyntaxErr::Undeclared(t)) => assert_eq!(t.data(), "a"),
        r => panic!("unexpected result: {:?}", r),
    }
}

#[test]
fn array_access_is_not_covered() {
    let ast = program("let a: [u8; 2]; a[0];");
    assert!(!program_is_checkable(&ast));
    assert!(!expr("a[0] + 1").is_checkable());
    assert!(!expr("f(1, a[0])").is_checkable());
    assert!(expr("f(1, (2))").is_checkable());
    assert!(!new_expr("Base").is_checkable());
    assert!(!program_is_checkable(&vec![Statement::Base]));
    assert!(!program_is_checkable(&vec![Statement::new_parameters(vec![])]));
}

#[test]
fn checking_twice_gives_the_same_result() {
    for text in [
        "struct A { b: B } struct B { x: u8 } let a: A; let v: u8 = a.b;",
        "fn f(a: u8) -> u8 { return a; } f(1, 2);",
        "let x: u8 = 300;",
    ] {
        let first = format!("{:?}", check(text));
        let second = format!("{:?}", check(text));
        assert_eq!(first, second);
    }
}

#[test]
fn a_field_that_is_not_resolved_has_no_type() {
    let written = DeclrType::BasicType(Token { ttype: TokenType::Id("T".to_string()), pos: 0 });
    let def = UserStructDef {
        name: "S".to_string(),
        fields: vec![
            ("a".to_string(), FieldType::Defined(VarType::U8)),
            ("b".to_string(), FieldType::Undefined(written)),
        ],
    };
    let mut ss = ScopeStack::new();
    ss.var_declr("s".to_string(), VarType::UserStruct(def));
    assert_eq!(expr("s.a").check_syntax(&ss).unwrap(), VarType::U8);
    match expr("s.b").check_syntax(&ss) {
        Err(SyntaxErr::UnknownType(t, m)) => {
            assert_eq!(t.data(), "b");
            assert_eq!(m, "Undefined Type");
        }
        r => panic!("unexpected result: {:?}", r),
    }
}

#[test]
fn a_block_leaves_the_scope_as_it_was() {
    let ast = program("let a: u8 = 1; fn f(p: u8) -> u8 { return p; } struct S { x: u8 }");
    let mut ss = ScopeStack::new();
    define_types_in_scope(&ast, &mut ss).unwrap();
    for s in &ast {
        s.check_syntax(&mut ss).unwrap();
    }
    let before = format!("{:?}", ss);
    let block = program("{ let b: u8 = a; struct T { s: S } enum E { X } loop { let c: T; } fn g() -> u8 { return b; } }");
    block[0].check_syntax(&mut ss).unwrap();
    assert_eq!(format!("{:?}", ss), before);
}
