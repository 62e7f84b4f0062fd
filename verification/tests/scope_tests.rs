use compiler_front::definitions::{DeclrType, Token, TokenType};
use compiler_front::statement::{FnDeclr, Statement};
use compiler_front::syntax::scope::{ScopeStack, ScopeStackOp};
use compiler_front::syntax::types::{UserEnumDef, UserStructDef, UserType, VarType};

fn id(text: &str) -> Token {
    Token { ttype: TokenType::Id(text.to_string()), pos: 0 }
}

fn function(name: &str, ret: &str) -> FnDeclr {
    FnDeclr {
        name: id(name),
        params: Statement::Parameters(vec![]),
        ret_type: DeclrType::BasicType(id(ret)),
        body: Statement::Block(vec![]),
    }
}

fn an_enum(name: &str, variant: &str) -> UserType {
    UserType::UserEnum(UserEnumDef { name: name.to_string(), variants: vec![variant.to_string()] })
}

fn a_struct(name: &str) -> UserType {
    UserType::UserStruct(UserStructDef { name: name.to_string(), fields: vec![] })
}

#[test]
fn a_new_stack_is_empty() {
    let mut ss = ScopeStack::new();
    assert!(ss.stack.is_empty());
    assert!(ss.defined_types.is_empty());
    assert!(ss.used_ids.is_empty());
    assert!(ss.get_var_t("x".to_string()).is_none());
    assert!(ss.get_fn("f".to_string()).is_none());
    assert!(ss.get_user_enum("E".to_string()).is_none());
    assert!(ss.get_nearest_function().is_none());
    assert!(!ss.inside_breakable());
}

#[test]
fn the_nearest_binding_wins() {
    let mut ss = ScopeStack::new();
    ss.var_declr("x".to_string(), VarType::U8);
    ss.enter_scope();
    assert_eq!(ss.get_var_t("x".to_string()), Some(VarType::U8));
    ss.var_declr("x".to_string(), VarType::U16);
    ss.var_declr("y".to_string(), VarType::I8);
    assert_eq!(ss.get_var_t("x".to_string()), Some(VarType::U16));
    ss.leave_scope();
    assert_eq!(ss.get_var_t("x".to_string()), Some(VarType::U8));
    assert!(ss.get_var_t("y".to_string()).is_none());
    assert_eq!(ss.stack.len(), 1);
}

#[test]
fn names_are_used_per_level() {
    let mut ss = ScopeStack::new();
    ss.var_declr("x".to_string(), VarType::U8);
    ss.fn_declr(function("f", "u8"));
    ss.user_type_declr(a_struct("S"));
    assert_eq!(ss.used_ids, vec!["x", "f", "S"]);
    assert!(ss.uses(&"f".to_string()));
    ss.enter_scope();
    assert!(ss.used_ids.is_empty());
    assert!(!ss.uses(&"x".to_string()));
    ss.var_declr("z".to_string(), VarType::U8);
    assert!(ss.uses(&"z".to_string()));
    ss.leave_scope();
    assert_eq!(ss.used_ids, vec!["x", "f", "S"]);
}

#[test]
fn leaving_a_level_takes_its_types_along() {
    let mut ss = ScopeStack::new();
    ss.user_type_declr(an_enum("E", "Outer"));
    ss.enter_scope();
    ss.user_type_declr(an_enum("E", "Inner"));
    ss.user_type_declr(a_struct("S"));
    ss.var_declr("v".to_string(), VarType::U8);
    assert_eq!(ss.defined_types.len(), 3);
    assert_eq!(ss.get_user_enum("E".to_string()).unwrap().variants, vec!["Inner"]);
    // A struct is no enum.
    assert!(ss.get_user_enum("S".to_string()).is_none());
    ss.leave_scope();
    assert_eq!(ss.defined_types.len(), 1);
    assert_eq!(ss.get_user_enum("E".to_string()).unwrap().variants, vec!["Outer"]);
    assert_eq!(ss.stack.len(), 1);
    assert!(matches!(ss.stack[0], ScopeStackOp::UserType(_)));
}

#[test]
fn leaving_ends_the_innermost_level_only() {
    let mut ss = ScopeStack::new();
    ss.enter_scope();
    ss.var_declr("a".to_string(), VarType::U8);
    ss.enter_scope();
    ss.var_declr("b".to_string(), VarType::U8);
    ss.leave_scope();
    assert_eq!(ss.stack.len(), 2);
    assert_eq!(ss.used_ids, vec!["a"]);
    ss.leave_scope();
    assert!(ss.stack.is_empty());
    assert!(ss.used_ids.is_empty());
}

#[test]
fn leaving_without_a_level_empties_the_stack() {
    let mut ss = ScopeStack::new();
    ss.var_declr("a".to_string(), VarType::U8);
    ss.user_type_declr(a_struct("S"));
    ss.leave_scope();
    assert!(ss.stack.is_empty());
    assert!(ss.defined_types.is_empty());
    assert_eq!(ss.used_ids, vec!["a", "S"]);
    ss.var_declr("b".to_string(), VarType::U8);
    ss.leave_func_def();
    assert!(ss.stack.is_empty());
}

#[test]
fn loops_are_seen_through_levels() {
    let mut ss = ScopeStack::new();
    assert!(!ss.inside_breakable());
    ss.enter_scope();
    ss.enter_breakable();
    ss.enter_scope();
    ss.var_declr("a".to_string(), VarType::U8);
    assert!(ss.inside_breakable());
    ss.leave_scope();
    assert!(ss.inside_breakable());
    ss.leave_scope();
    assert!(!ss.inside_breakable());
}

#[test]
fn functions_are_found_by_name() {
    let mut ss = ScopeStack::new();
    ss.fn_declr(function("f", "u8"));
    ss.fn_declr(function("g", "u16"));
    ss.fn_declr(function("f", "u32"));
    assert_eq!(ss.get_fn("f".to_string()).unwrap().ret_type.get_token().data(), "u32");
    assert_eq!(ss.get_fn("g".to_string()).unwrap().ret_type.get_token().data(), "u16");
    assert!(ss.get_fn("h".to_string()).is_none());
    // A variable is no function.
    ss.var_declr("h".to_string(), VarType::U8);
    assert!(ss.get_fn("h".to_string()).is_none());
    assert!(ss.get_var_t("f".to_string()).is_none());
}

#[test]
fn the_nearest_function_is_the_one_whose_body_is_open() {
    let mut ss = ScopeStack::new();
    ss.fn_declr(function("outer", "u8"));
    assert!(ss.get_nearest_function().is_none());
    ss.enter_func_def();
    ss.var_declr("a".to_string(), VarType::U8);
    assert_eq!(ss.get_nearest_function().unwrap().name.data(), "outer");
    ss.fn_declr(function("inner", "u16"));
    assert_eq!(ss.get_nearest_function().unwrap().name.data(), "outer");
    ss.enter_func_def();
    assert_eq!(ss.get_nearest_function().unwrap().name.data(), "inner");
    ss.leave_func_def();
    assert_eq!(ss.get_nearest_function().unwrap().name.data(), "outer");
    ss.leave_func_def();
    assert!(ss.get_nearest_function().is_none());
    assert_eq!(ss.stack.len(), 1);
    assert!(matches!(ss.stack[0], ScopeStackOp::Func(_)));
}

#[test]
fn a_marker_without_a_function_below_names_none() {
    let mut ss = ScopeStack::new();
    ss.enter_func_def();
    assert!(ss.get_nearest_function().is_none());
    ss.var_declr("a".to_string(), VarType::U8);
    ss.enter_func_def();
    assert!(ss.get_nearest_function().is_none());
}
