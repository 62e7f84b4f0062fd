use compiler_front::definitions::{DeclrType, Token, TokenType};
use compiler_front::syntax::types::{
    FieldType, UserEnumDef, UserStructDef, UserType, VarType,
};
use compiler_front::text::{decimal_string, parse_number, parse_unsigned};

fn id(text: &str) -> Token {
    Token { ttype: TokenType::Id(text.to_string()), pos: 0 }
}

fn lit(text: &str) -> Token {
    Token { ttype: TokenType::Lit(text.to_string()), pos: 0 }
}

fn basic(name: &str) -> DeclrType {
    DeclrType::BasicType(id(name))
}

fn array(element: DeclrType, size: &str) -> DeclrType {
    DeclrType::Array(Box::new(element), lit(size))
}

fn pointer(inner: DeclrType) -> DeclrType {
    DeclrType::Pointer(Box::new(inner))
}

fn point() -> UserStructDef {
    UserStructDef {
        name: "Point".to_string(),
        fields: vec![
            ("x".to_string(), FieldType::Defined(VarType::U16)),
            ("y".to_string(), FieldType::Defined(VarType::U16)),
            ("tag".to_string(), FieldType::Defined(VarType::U8)),
        ],
    }
}

fn color() -> UserEnumDef {
    UserEnumDef {
        name: "Color".to_string(),
        variants: vec!["Red".to_string(), "Green".to_string()],
    }
}

fn known() -> Vec<UserType> {
    vec![UserType::UserStruct(point()), UserType::UserEnum(color())]
}

#[test]
fn integer_types_resolve_in_any_case() {
    let none: Vec<UserType> = vec![];
    assert_eq!(VarType::from(basic("u8"), &none), Ok(VarType::U8));
    assert_eq!(VarType::from(basic("i8"), &none), Ok(VarType::I8));
    assert_eq!(VarType::from(basic("U16"), &none), Ok(VarType::U16));
    assert_eq!(VarType::from(basic("I16"), &none), Ok(VarType::I16));
    assert_eq!(VarType::from(basic("u32"), &none), Ok(VarType::U32));
    assert_eq!(VarType::from(basic("i32"), &none), Ok(VarType::I32));
    assert_eq!(VarType::from(basic("U64"), &none), Ok(VarType::U64));
    assert_eq!(VarType::from(basic("i64"), &none), Ok(VarType::I64));
    assert_eq!(VarType::from(basic("u128"), &none), Err("Undefined Type"));
    assert_eq!(VarType::from(basic("u"), &none), Err("Undefined Type"));
    assert_eq!(VarType::from(basic(""), &none), Err("Undefined Type"));
}

#[test]
fn void_resolves_in_lower_case_only() {
    let none: Vec<UserType> = vec![];
    assert_eq!(VarType::from(basic("void"), &none), Ok(VarType::Void));
    assert_eq!(VarType::from(basic("Void"), &none), Err("Undefined Type"));
}

#[test]
fn user_types_resolve_by_name() {
    match VarType::from(basic("Point"), &known()).unwrap() {
        VarType::UserStruct(def) => assert_eq!(def.fields.len(), 3),
        t => panic!("not a struct: {:?}", t),
    }
    match VarType::from(basic("Color"), &known()).unwrap() {
        VarType::UserEnum(def) => assert_eq!(def.variants.len(), 2),
        t => panic!("not an enum: {:?}", t),
    }
    assert_eq!(VarType::from(basic("point"), &known()), Err("Undefined Type"));
}

#[test]
fn the_type_declared_last_wins() {
    let mut types = known();
    types.push(UserType::UserEnum(UserEnumDef { name: "Point".to_string(), variants: vec![] }));
    assert!(matches!(
        VarType::from(basic("Point"), &types),
        Ok(VarType::UserEnum(_))
    ));
    // An integer name is never a user type.
    types.push(UserType::UserEnum(UserEnumDef { name: "u8".to_string(), variants: vec![] }));
    assert_eq!(VarType::from(basic("u8"), &types), Ok(VarType::U8));
}

#[test]
fn arrays_and_pointers_resolve_their_inner_type() {
    let none: Vec<UserType> = vec![];
    assert_eq!(
        VarType::from(array(basic("u8"), "3"), &none),
        Ok(VarType::Array(Box::new(VarType::U8), 3))
    );
    assert_eq!(
        VarType::from(pointer(pointer(basic("i32"))), &none),
        Ok(VarType::Pointer(Box::new(VarType::Pointer(Box::new(VarType::I32)))))
    );
    assert_eq!(
        VarType::from(array(basic("u8"), "65535"), &none),
        Ok(VarType::Array(Box::new(VarType::U8), 65535))
    );
    assert_eq!(VarType::from(array(basic("u8"), "65536"), &none), Err("Cannot Parse Array Size"));
    assert_eq!(VarType::from(array(basic("u8"), "-1"), &none), Err("Cannot Parse Array Size"));
    assert_eq!(VarType::from(array(basic("u8"), "x"), &none), Err("Cannot Parse Array Size"));
    // The element is resolved before the size is read.
    assert_eq!(VarType::from(array(basic("T"), "x"), &none), Err("Undefined Type"));
    assert_eq!(VarType::from(pointer(basic("T")), &none), Err("Undefined Type"));
}

#[test]
fn sizes() {
    assert_eq!(VarType::U8.size(), 1);
    assert_eq!(VarType::I8.size(), 1);
    assert_eq!(VarType::U16.size(), 2);
    assert_eq!(VarType::I16.size(), 2);
    assert_eq!(VarType::U32.size(), 4);
    assert_eq!(VarType::I32.size(), 4);
    assert_eq!(VarType::U64.size(), 8);
    assert_eq!(VarType::I64.size(), 8);
    assert_eq!(VarType::Void.size(), 0);
    assert_eq!(VarType::Pointer(Box::new(VarType::U64)).size(), 2);
    assert_eq!(VarType::UserEnum(color()).size(), 1);
    assert_eq!(VarType::UserStruct(point()).size(), 5);
    assert_eq!(VarType::Array(Box::new(VarType::U32), 10).size(), 40);
    assert_eq!(VarType::Array(Box::new(VarType::UserStruct(point())), 3).size(), 15);
    assert_eq!(VarType::Array(Box::new(VarType::U8), 0).size(), 0);
    assert_eq!(
        VarType::UserStruct(UserStructDef { name: "E".to_string(), fields: vec![] }).size(),
        0
    );
}

#[test]
fn shown_names() {
    assert_eq!(VarType::U8.to_string(), "u8");
    assert_eq!(VarType::I64.to_string(), "i64");
    assert_eq!(VarType::Void.to_string(), "void");
    assert_eq!(VarType::UserStruct(point()).to_string(), "Point");
    assert_eq!(VarType::UserEnum(color()).to_string(), "Color");
    assert_eq!(VarType::Pointer(Box::new(VarType::U16)).to_string(), "u16");
    assert_eq!(VarType::Array(Box::new(VarType::U8), 3).to_string(), "[u8;3]");
    assert_eq!(
        VarType::Array(Box::new(VarType::Array(Box::new(VarType::I32), 65535)), 0).to_string(),
        "[[i32;65535];0]"
    );
    assert_eq!(FieldType::Defined(VarType::U32).name_to_string(), "u32");
    assert_eq!(FieldType::Undefined(basic("T")).name_to_string(), "T");
    assert_eq!(FieldType::Undefined(pointer(basic("T"))).name_to_string(), "");
}

#[test]
fn decimal_strings() {
    assert_eq!(decimal_string(0), "0");
    assert_eq!(decimal_string(7), "7");
    assert_eq!(decimal_string(10), "10");
    assert_eq!(decimal_string(909), "909");
    assert_eq!(decimal_string(65535), "65535");
}

#[test]
fn numbers_are_read_up_to_a_limit() {
    let chars = |s: &str| -> Vec<char> { s.chars().collect() };
    assert_eq!(parse_number(&chars("123"), 0, 1000), Some(123));
    assert_eq!(parse_number(&chars("123"), 1, 1000), Some(23));
    assert_eq!(parse_number(&chars("123"), 3, 1000), None);
    assert_eq!(parse_number(&chars("1000"), 0, 1000), Some(1000));
    assert_eq!(parse_number(&chars("1001"), 0, 1000), None);
    assert_eq!(parse_number(&chars("12x"), 0, 1000), None);
    assert_eq!(parse_number(&chars("99999999999999999999999x"), 0, 1000), None);
    assert_eq!(parse_unsigned(&chars("+12"), 1000), Some(12));
    assert_eq!(parse_unsigned(&chars("++12"), 1000), None);
    assert_eq!(parse_unsigned(&chars("18446744073709551615"), u64::MAX), Some(u64::MAX));
    assert_eq!(parse_unsigned(&chars("18446744073709551616"), u64::MAX), None);
}

#[test]
fn equality_of_types() {
    assert_eq!(VarType::U8, VarType::U8);
    assert_ne!(VarType::U8, VarType::I8);
    assert_ne!(VarType::U8, VarType::U16);
    assert_eq!(
        VarType::Pointer(Box::new(VarType::U8)),
        VarType::Pointer(Box::new(VarType::U8))
    );
    assert_ne!(
        VarType::Pointer(Box::new(VarType::U8)),
        VarType::Pointer(Box::new(VarType::U16))
    );
    assert_ne!(VarType::Pointer(Box::new(VarType::U8)), VarType::U8);
    assert_eq!(
        VarType::Array(Box::new(VarType::U8), 2),
        VarType::Array(Box::new(VarType::U8), 2)
    );
    assert_ne!(
        VarType::Array(Box::new(VarType::U8), 2),
        VarType::Array(Box::new(VarType::U8), 3)
    );
    // User types are equal where their names are.
    let other_point = UserStructDef { name: "Point".to_string(), fields: vec![] };
    assert_eq!(VarType::UserStruct(point()), VarType::UserStruct(other_point));
    assert_ne!(
        VarType::UserStruct(point()),
        VarType::UserEnum(UserEnumDef { name: "Point".to_string(), variants: vec![] })
    );
    assert_ne!(VarType::Void, VarType::U8);
}

#[test]
fn fields_and_variants_are_found_by_name() {
    let p = UserStructDef {
        name: "P".to_string(),
        fields: vec![
            ("a".to_string(), FieldType::Defined(VarType::U8)),
            ("b".to_string(), FieldType::Undefined(basic("T"))),
            ("a".to_string(), FieldType::Defined(VarType::U16)),
        ],
    };
    // The first field of the name is the one that is found.
    assert!(matches!(
        p.get_field_type("a".to_string()),
        Some(FieldType::Defined(VarType::U8))
    ));
    assert!(matches!(p.get_field_type("b".to_string()), Some(FieldType::Undefined(_))));
    assert!(p.get_field_type("c".to_string()).is_none());
    assert_eq!(FieldType::Defined(VarType::U8).unwrap(), VarType::U8);
    assert!(color().check_variant("Red".to_string()));
    assert!(color().check_variant("Green".to_string()));
    assert!(!color().check_variant("red".to_string()));
    assert_eq!(UserType::UserStruct(point()).name(), "Point");
    assert_eq!(UserType::UserEnum(color()).name(), "Color");
}

#[test]
fn token_text() {
    assert_eq!(id("x").data(), "x");
    assert_eq!(TokenType::Key("let".to_string()).data(), "let");
    assert_eq!(TokenType::Op("+".to_string()).data(), "+");
    assert_eq!(TokenType::Cond("==".to_string()).data(), "==");
    assert_eq!(TokenType::Lit("1".to_string()).data(), "1");
    assert_eq!(TokenType::Arrow.data(), "");
    assert!(TokenType::Key("x".to_string()) != TokenType::Id("x".to_string()));
    assert!(TokenType::Id("x".to_string()) == TokenType::Id("x".to_string()));
    assert!(TokenType::Id("x".to_string()) != TokenType::Id("y".to_string()));
    assert!(TokenType::Comma == TokenType::Comma);
    assert!(TokenType::Comma != TokenType::Period);
    assert!(TokenType::Key("let".to_string()).is_key("let"));
    assert!(!TokenType::Id("let".to_string()).is_key("let"));
    assert!(TokenType::Op("+".to_string()).is_op("+"));
    assert!(TokenType::Cond("<".to_string()).is_cond("<"));
    assert_eq!(array(pointer(basic("u8")), "2").get_token().data(), "u8");
}
