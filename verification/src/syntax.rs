pub mod nesting;
pub mod scope;
pub mod types;

use vstd::prelude::*;
use vstd::string::*;
use crate::definitions::{DeclrType, DeclrTypeModel, Token, TokenModel};
use crate::expression::{
    expr_models, lemma_expr_models, BinaryExpr, Expr, ExprModel, PrimaryExpr,
};
use crate::statement::{
    lemma_param_models, lemma_statement_models, param_models, statement_models, CondStmt,
    FnDeclr, Statement, StatementModel, VarDeclr,
};
use crate::syntax::scope::{
    last_enum, last_function, last_variable, nearest_function, ScopeModel, ScopeOpModel,
    ScopeStack,
};
use crate::syntax::types::{
    field_models, first_field_named, lemma_field_models, lemma_field_models_push, resolve,
    resolve_type, string_models,
    same_type, types_match, user_type_models, EnumDefModel, FieldType, FieldTypeModel,
    StructDefModel, UserEnumDef, UserStructDef, UserType, UserTypeModel, VarType, VarTypeModel,
};
use crate::text::{chars_of, number_value, parse_number, parse_unsigned, string_is, unsigned_value};

verus! {

/// The mathematical value of a semantic error.
pub enum SyntaxErrModel {
    Undeclared(TokenModel),
    WrongType(VarTypeModel, VarTypeModel),
    UnknownType(TokenModel, Seq<char>),
    LiteralErr(TokenModel),
    NotDerefAble(TokenModel),
    WrongArgN(TokenModel),
    DupParamNames(TokenModel),
    ReturnOutsideFunc(TokenModel),
    BreakOutsideLoop(TokenModel),
    ReservedID(TokenModel),
    AlreadyDefined(TokenModel),
    UnknownVariant(TokenModel),
    UnknownField(TokenModel),
    NotAStruct(TokenModel),
    RecursiveStruct(TokenModel),
}

/// A semantic error: its kind, and the token or the types that it is about.
/// `WrongType` holds the type that was expected and the type that was found.
#[derive(Debug)]
pub enum SyntaxErr {
    Undeclared(Token),
    WrongType(VarType, VarType),
    UnknownType(Token, &'static str),
    LiteralErr(Token),
    NotDerefAble(Token),
    WrongArgN(Token),
    DupParamNames(Token),
    ReturnOutsideFunc(Token),
    BreakOutsideLoop(Token),
    ReservedID(Token),
    AlreadyDefined(Token),
    UnknownVariant(Token),
    UnknownField(Token),
    NotAStruct(Token),
    RecursiveStruct(Token),
}

impl View for SyntaxErr {
    type V = SyntaxErrModel;

    open spec fn view(&self) -> SyntaxErrModel {
        match self {
            SyntaxErr::Undeclared(t) => SyntaxErrModel::Undeclared(t@),
            SyntaxErr::WrongType(a, b) => SyntaxErrModel::WrongType(a@, b@),
            SyntaxErr::UnknownType(t, m) => SyntaxErrModel::UnknownType(t@, m@),
            SyntaxErr::LiteralErr(t) => SyntaxErrModel::LiteralErr(t@),
            SyntaxErr::NotDerefAble(t) => SyntaxErrModel::NotDerefAble(t@),
            SyntaxErr::WrongArgN(t) => SyntaxErrModel::WrongArgN(t@),
            SyntaxErr::DupParamNames(t) => SyntaxErrModel::DupParamNames(t@),
            SyntaxErr::ReturnOutsideFunc(t) => SyntaxErrModel::ReturnOutsideFunc(t@),
            SyntaxErr::BreakOutsideLoop(t) => SyntaxErrModel::BreakOutsideLoop(t@),
            SyntaxErr::ReservedID(t) => SyntaxErrModel::ReservedID(t@),
            SyntaxErr::AlreadyDefined(t) => SyntaxErrModel::AlreadyDefined(t@),
            SyntaxErr::UnknownVariant(t) => SyntaxErrModel::UnknownVariant(t@),
            SyntaxErr::UnknownField(t) => SyntaxErrModel::UnknownField(t@),
            SyntaxErr::NotAStruct(t) => SyntaxErrModel::NotAStruct(t@),
            SyntaxErr::RecursiveStruct(t) => SyntaxErrModel::RecursiveStruct(t@),
        }
    }
}

/// The names that no declaration may take: `void`, and every name that
/// starts with the pointer prefix `@`.
pub open spec fn is_reserved(name: Seq<char>) -> bool {
    name == "void"@ || (name.len() > 0 && name[0] == '@')
}

/// The type of a literal: the narrowest integer type that holds its value.
/// A text that starts with `-` is read as a signed number and takes the
/// narrowest of the signed types; any other is read as an unsigned number
/// and takes the narrowest of the unsigned types. A text that is no number,
/// or whose value no 64-bit type of its kind holds, has no type.
pub open spec fn literal_type(text: Seq<char>) -> Option<VarTypeModel> {
    if text.len() > 0 && text[0] == '-' {
        match number_value(text.skip(1)) {
            Some(m) => {
                let v = -(m as int);
                if v >= i8::MIN {
                    Some(VarTypeModel::I8)
                } else if v >= i16::MIN {
                    Some(VarTypeModel::I16)
                } else if v >= i32::MIN {
                    Some(VarTypeModel::I32)
                } else if v >= i64::MIN {
                    Some(VarTypeModel::I64)
                } else {
                    None
                }
            },
            None => None,
        }
    } else {
        match unsigned_value(text) {
            Some(v) => if v <= u8::MAX {
                Some(VarTypeModel::U8)
            } else if v <= u16::MAX {
                Some(VarTypeModel::U16)
            } else if v <= u32::MAX {
                Some(VarTypeModel::U32)
            } else if v <= u64::MAX {
                Some(VarTypeModel::U64)
            } else {
                None
            },
            None => None,
        }
    }
}

/// The parameters that a parameter list holds; of any other statement,
/// none.
pub open spec fn params_of(s: StatementModel) -> Seq<(TokenModel, DeclrTypeModel)> {
    match s {
        StatementModel::Parameters(v) => v,
        _ => Seq::empty(),
    }
}

/// The names that a list of variants holds; of any other statement, none.
pub open spec fn variant_names(s: StatementModel) -> Seq<Seq<char>> {
    match s {
        StatementModel::Variant(v) => Seq::new(v.len(), |i: int| v[i].kind.data()),
        _ => Seq::empty(),
    }
}

/// A written type resolved among the known types; where it does not
/// resolve, the error names the token of the written type.
pub open spec fn resolve_or_unknown(t: DeclrTypeModel, known: Seq<UserTypeModel>) -> Result<
    VarTypeModel,
    SyntaxErrModel,
> {
    match resolve(t, known) {
        Ok(v) => Ok(v),
        Err(m) => Err(SyntaxErrModel::UnknownType(t.token(), m)),
    }
}

/// The type of a binary expression from what its operands gave: the first
/// error, else a mismatch that names the right type and then the left, else
/// the type of one operand.
pub open spec fn binary_type(
    left: Result<VarTypeModel, SyntaxErrModel>,
    right: Result<VarTypeModel, SyntaxErrModel>,
    keep_right: bool,
) -> Result<VarTypeModel, SyntaxErrModel> {
    match left {
        Err(e) => Err(e),
        Ok(l) => match right {
            Err(e) => Err(e),
            Ok(r) => if !same_type(l, r) {
                Err(SyntaxErrModel::WrongType(r, l))
            } else if keep_right {
                Ok(r)
            } else {
                Ok(l)
            },
        },
    }
}

/// The type of `*x` and of `&x` from the type of `x`.
pub open spec fn ref_type(operator: TokenModel, right: TokenModel, ss: ScopeModel) -> Result<
    VarTypeModel,
    SyntaxErrModel,
> {
    match last_variable(ss.stack, right.kind.data()) {
        None => Err(SyntaxErrModel::Undeclared(right)),
        Some(t) => if operator.kind.data() == "*"@ {
            match t {
                VarTypeModel::Pointer(inner) => Ok(*inner),
                _ => Err(SyntaxErrModel::NotDerefAble(right)),
            }
        } else {
            Ok(VarTypeModel::Pointer(Box::new(t)))
        },
    }
}

/// The type of the field `field` of the variable `owner`.
pub open spec fn field_access_type(owner: TokenModel, field: TokenModel, ss: ScopeModel) -> Result<
    VarTypeModel,
    SyntaxErrModel,
> {
    match last_variable(ss.stack, owner.kind.data()) {
        None => Err(SyntaxErrModel::Undeclared(owner)),
        Some(VarTypeModel::UserStruct(def)) => match first_field_named(
            def.fields,
            field.kind.data(),
        ) {
            None => Err(SyntaxErrModel::UnknownField(field)),
            Some(FieldTypeModel::Defined(t)) => Ok(t),
            Some(FieldTypeModel::Undefined(_)) => Err(
                SyntaxErrModel::UnknownType(field, "Undefined Type"@),
            ),
        },
        Some(_) => Err(SyntaxErrModel::NotAStruct(owner)),
    }
}

/// The type of the variant `variant` of the enum `owner`.
pub open spec fn variant_type(owner: TokenModel, variant: TokenModel, ss: ScopeModel) -> Result<
    VarTypeModel,
    SyntaxErrModel,
> {
    match last_enum(ss.defined_types, owner.kind.data()) {
        None => Err(SyntaxErrModel::UnknownType(owner, "Undefined Enum"@)),
        Some(def) => if def.variants.contains(variant.kind.data()) {
            Ok(VarTypeModel::UserEnum(def))
        } else {
            Err(SyntaxErrModel::UnknownVariant(variant))
        },
    }
}

/// The type of an identifier: `void` is of type void, any other name is of
/// the type of the variable bound last under it.
pub open spec fn id_type(id: TokenModel, ss: ScopeModel) -> Result<VarTypeModel, SyntaxErrModel> {
    if id.kind.data() == "void"@ {
        Ok(VarTypeModel::Void)
    } else {
        match last_variable(ss.stack, id.kind.data()) {
            Some(t) => Ok(t),
            None => Err(SyntaxErrModel::Undeclared(id)),
        }
    }
}

/// The expressions that the rules below give a type: every expression that
/// the grammar gives but an array access, with `*` or `&` as the operator of
/// a reference. The operand of a cast is not looked at.
pub open spec fn expr_checkable(e: ExprModel) -> bool
    decreases e,
{
    match e {
        ExprModel::Base => false,
        ExprModel::Assign(l, _, r) => expr_checkable(*l) && expr_checkable(*r),
        ExprModel::Equality(l, _, r) => expr_checkable(*l) && expr_checkable(*r),
        ExprModel::Comparison(l, _, r) => expr_checkable(*l) && expr_checkable(*r),
        ExprModel::Term(l, _, r) => expr_checkable(*l) && expr_checkable(*r),
        ExprModel::Shift(l, _, r) => expr_checkable(*l) && expr_checkable(*r),
        ExprModel::Unary(_, r) => expr_checkable(*r),
        ExprModel::FnCall(_, args) => forall|i: int|
            0 <= i < args.len() ==> expr_checkable(#[trigger] args[i]),
        ExprModel::Cast(_, _) => true,
        ExprModel::Ref(op, _) => op.kind.data() == "*"@ || op.kind.data() == "&"@,
        ExprModel::Grouping(inner) => expr_checkable(*inner),
        ExprModel::Literal(_) => true,
        ExprModel::Id(_) => true,
        ExprModel::StructField(_, _) => true,
        ExprModel::EnumVariant(_, _) => true,
        ExprModel::ArrayAccess(_, _) => false,
    }
}

/// The type of an expression in a scope, or the first error met when its
/// parts are taken from left to right.
///
/// Both operands of a binary expression must be of the same type, which is
/// the type of the expression. A unary expression and a grouping are of the
/// type of their operand. A cast is of the type it names. A call is of the
/// declared return type of the function bound last under its name, which
/// must take as many arguments as are given, each of the type of its
/// parameter.
pub open spec fn expr_type(e: ExprModel, ss: ScopeModel) -> Result<VarTypeModel, SyntaxErrModel>
    decreases e, 0nat,
{
    match e {
        ExprModel::Assign(l, _, r) => binary_type(expr_type(*l, ss), expr_type(*r, ss), true),
        ExprModel::Equality(l, _, r) => binary_type(expr_type(*l, ss), expr_type(*r, ss), false),
        ExprModel::Comparison(l, _, r) => binary_type(expr_type(*l, ss), expr_type(*r, ss), false),
        ExprModel::Term(l, _, r) => binary_type(expr_type(*l, ss), expr_type(*r, ss), false),
        ExprModel::Shift(l, _, r) => binary_type(expr_type(*l, ss), expr_type(*r, ss), false),
        ExprModel::Unary(_, r) => expr_type(*r, ss),
        ExprModel::Cast(_, to_type) => resolve_or_unknown(to_type, ss.defined_types),
        ExprModel::FnCall(name, args) => match last_function(ss.stack, name.kind.data()) {
            None => Err(SyntaxErrModel::Undeclared(name)),
            Some(f) => if args.len() != params_of(f.params).len() {
                Err(SyntaxErrModel::WrongArgN(name))
            } else {
                match args_error(args, params_of(f.params), ss, 0) {
                    Some(err) => Err(err),
                    None => resolve_or_unknown(f.ret_type, ss.defined_types),
                }
            },
        },
        ExprModel::Ref(operator, right) => ref_type(operator, right, ss),
        ExprModel::Grouping(inner) => expr_type(*inner, ss),
        ExprModel::Literal(l) => match literal_type(l.kind.data()) {
            Some(t) => Ok(t),
            None => Err(SyntaxErrModel::LiteralErr(l)),
        },
        ExprModel::Id(id) => id_type(id, ss),
        ExprModel::StructField(owner, field) => field_access_type(owner, field, ss),
        ExprModel::EnumVariant(owner, variant) => variant_type(owner, variant, ss),
        // No rule gives these a type; `expr_checkable` leaves them out.
        ExprModel::Base => Ok(VarTypeModel::Void),
        ExprModel::ArrayAccess(_, _) => Ok(VarTypeModel::Void),
    }
}

/// The first error among the arguments from `i` on, each taken with its
/// parameter: the argument's own error, else that the parameter's type does
/// not resolve, else a mismatch that names the parameter's type and then the
/// argument's.
pub open spec fn args_error(
    args: Seq<ExprModel>,
    params: Seq<(TokenModel, DeclrTypeModel)>,
    ss: ScopeModel,
    i: int,
) -> Option<SyntaxErrModel>
    decreases args, args.len() - i,
{
    if 0 <= i < args.len() && i < params.len() {
        match expr_type(args[i], ss) {
            Err(e) => Some(e),
            Ok(given) => match resolve_or_unknown(params[i].1, ss.defined_types) {
                Err(e) => Some(e),
                Ok(wanted) => if !same_type(given, wanted) {
                    Some(SyntaxErrModel::WrongType(wanted, given))
                } else {
                    args_error(args, params, ss, i + 1)
                },
            },
        }
    } else {
        None
    }
}

/// An executable result says what the typing rules say.
pub open spec fn typed_as(r: Result<VarType, SyntaxErr>, expected: Result<
    VarTypeModel,
    SyntaxErrModel,
>) -> bool {
    match r {
        Ok(t) => expected == Ok::<VarTypeModel, SyntaxErrModel>(t@),
        Err(e) => expected == Err::<VarTypeModel, SyntaxErrModel>(e@),
    }
}

/// Whether no declaration may take the name.
pub fn reserved_name(name: &String) -> (r: bool)
    ensures
        r == is_reserved(name@),
{
    if string_is(name, "void") {
        return true;
    }
    let chars = chars_of(name.as_str());
    chars.len() > 0 && chars[0] == '@'
}

/// The type of a literal, if it has one.
pub fn literal_var_type(text: &String) -> (r: Option<VarType>)
    ensures
        match r {
            Some(t) => literal_type(text@) == Some(t@),
            None => literal_type(text@) is None,
        },
{
    let chars = chars_of(text.as_str());
    if chars.len() > 0 && chars[0] == '-' {
        match parse_number(&chars, 1, 9223372036854775808) {
            Some(m) => if m <= 128 {
                Some(VarType::I8)
            } else if m <= 32768 {
                Some(VarType::I16)
            } else if m <= 2147483648 {
                Some(VarType::I32)
            } else {
                Some(VarType::I64)
            },
            None => None,
        }
    } else {
        match parse_unsigned(&chars, 18446744073709551615) {
            Some(v) => if v <= 255 {
                Some(VarType::U8)
            } else if v <= 65535 {
                Some(VarType::U16)
            } else if v <= 4294967295 {
                Some(VarType::U32)
            } else {
                Some(VarType::U64)
            },
            None => None,
        }
    }
}

/// A written type resolved among the types in scope.
pub fn resolve_in_scope(t: &DeclrType, ss: &ScopeStack) -> (r: Result<VarType, SyntaxErr>)
    ensures
        typed_as(r, resolve_or_unknown(t@, ss@.defined_types)),
{
    match resolve_type(t, &ss.defined_types) {
        Ok(v) => Ok(v),
        Err(m) => Err(SyntaxErr::UnknownType(t.get_token(), m)),
    }
}

/// The type of a binary expression from the types of its operands.
fn check_binary(left: VarType, right: VarType, keep_right: bool) -> (r: Result<VarType, SyntaxErr>)
    ensures
        typed_as(
            r,
            binary_type(
                Ok::<VarTypeModel, SyntaxErrModel>(left@),
                Ok::<VarTypeModel, SyntaxErrModel>(right@),
                keep_right,
            ),
        ),
{
    if !types_match(&left, &right) {
        return Err(SyntaxErr::WrongType(right, left));
    }
    if keep_right {
        Ok(right)
    } else {
        Ok(left)
    }
}

/// The type of `*x` and of `&x`.
fn check_ref(operator: &Token, right: &Token, ss: &ScopeStack) -> (r: Result<VarType, SyntaxErr>)
    ensures
        typed_as(r, ref_type(operator@, right@, ss@)),
{
    let t = match ss.get_var_t(right.data()) {
        Some(t) => t,
        None => {
            return Err(SyntaxErr::Undeclared(right.clone()));
        },
    };
    let op = operator.data();
    if string_is(&op, "*") {
        match t {
            VarType::Pointer(inner) => Ok(*inner),
            _ => Err(SyntaxErr::NotDerefAble(right.clone())),
        }
    } else {
        Ok(VarType::new_pointer(t))
    }
}

/// The type of a struct field.
fn check_field(owner: &Token, field: &Token, ss: &ScopeStack) -> (r: Result<VarType, SyntaxErr>)
    ensures
        typed_as(r, field_access_type(owner@, field@, ss@)),
{
    let t = match ss.get_var_t(owner.data()) {
        Some(t) => t,
        None => {
            return Err(SyntaxErr::Undeclared(owner.clone()));
        },
    };
    match t {
        VarType::UserStruct(def) => match def.get_field_type(field.data()) {
            None => Err(SyntaxErr::UnknownField(field.clone())),
            Some(FieldType::Defined(t)) => Ok(t),
            Some(FieldType::Undefined(_)) => Err(
                SyntaxErr::UnknownType(field.clone(), "Undefined Type"),
            ),
        },
        _ => Err(SyntaxErr::NotAStruct(owner.clone())),
    }
}

/// The type of an enum variant.
fn check_variant(owner: &Token, variant: &Token, ss: &ScopeStack) -> (r: Result<VarType, SyntaxErr>)
    ensures
        typed_as(r, variant_type(owner@, variant@, ss@)),
{
    let def = match ss.get_user_enum(owner.data()) {
        Some(d) => d,
        None => {
            return Err(SyntaxErr::UnknownType(owner.clone(), "Undefined Enum"));
        },
    };
    if !def.check_variant(variant.data()) {
        return Err(SyntaxErr::UnknownVariant(variant.clone()));
    }
    Ok(VarType::new_enum(def))
}

/// The type of an identifier.
fn check_id(id: &Token, ss: &ScopeStack) -> (r: Result<VarType, SyntaxErr>)
    ensures
        typed_as(r, id_type(id@, ss@)),
{
    let name = id.data();
    if string_is(&name, "void") {
        return Ok(VarType::Void);
    }
    match ss.get_var_t(name) {
        Some(t) => Ok(t),
        None => Err(SyntaxErr::Undeclared(id.clone())),
    }
}

/// A copy of the parameters that a parameter list holds; of any other
/// statement, an empty list.
pub fn params_vec(s: &Statement) -> (r: Vec<(Token, DeclrType)>)
    ensures
        param_models(r@) == params_of(s@),
{
    match s {
        Statement::Parameters(_) => s.get_param_vec(),
        _ => Vec::new(),
    }
}

/// The first error among the arguments of a call, each taken with its
/// parameter.
fn check_args(args: &Vec<Expr>, params: &Vec<(Token, DeclrType)>, ss: &ScopeStack) -> (r: Option<
    SyntaxErr,
>)
    requires
        args.len() == params.len(),
        forall|i: int| 0 <= i < args.len() ==> expr_checkable(#[trigger] args@[i]@),
    ensures
        match r {
            Some(e) => args_error(expr_models(args@), param_models(params@), ss@, 0) == Some(e@),
            None => args_error(expr_models(args@), param_models(params@), ss@, 0) is None,
        },
    decreases args, 0nat,
{
    let ghost am = expr_models(args@);
    let ghost pm = param_models(params@);
    proof {
        lemma_expr_models(args@);
        lemma_param_models(params@);
    }
    let mut n: usize = 0;
    while n < args.len()
        invariant
            0 <= n <= args.len(),
            args.len() == params.len(),
            am == expr_models(args@),
            pm == param_models(params@),
            am.len() == args.len(),
            pm.len() == params.len(),
            forall|i: int| 0 <= i < args.len() ==> expr_checkable(#[trigger] args@[i]@),
            forall|i: int| 0 <= i < args.len() ==> (#[trigger] am[i]) == args@[i]@,
            forall|i: int|
                0 <= i < params.len() ==> (#[trigger] pm[i]) == (params@[i].0@, params@[i].1@),
            args_error(am, pm, ss@, 0) == args_error(am, pm, ss@, n as int),
        decreases args.len() - n,
    {
        assert(am[n as int] == args@[n as int]@);
        assert(pm[n as int] == (params@[n as int].0@, params@[n as int].1@));
        let given = match args[n].check_syntax(ss) {
            Ok(t) => t,
            Err(e) => {
                return Some(e);
            },
        };
        let wanted = match resolve_in_scope(&params[n].1, ss) {
            Ok(t) => t,
            Err(e) => {
                return Some(e);
            },
        };
        if !types_match(&given, &wanted) {
            return Some(SyntaxErr::WrongType(wanted, given));
        }
        n += 1;
    }
    None
}

/// The type of a call.
fn check_call(name: &Token, args: &Vec<Expr>, ss: &ScopeStack) -> (r: Result<VarType, SyntaxErr>)
    requires
        forall|i: int| 0 <= i < args.len() ==> expr_checkable(#[trigger] args@[i]@),
    ensures
        typed_as(r, expr_type(ExprModel::FnCall(name@, expr_models(args@)), ss@)),
    decreases args, 1nat,
{
    let template = match ss.get_fn(name.data()) {
        Some(t) => t,
        None => {
            return Err(SyntaxErr::Undeclared(name.clone()));
        },
    };
    let params = params_vec(&template.params);
    proof {
        lemma_expr_models(args@);
        lemma_param_models(params@);
    }
    if args.len() != params.len() {
        return Err(SyntaxErr::WrongArgN(name.clone()));
    }
    match check_args(args, &params, ss) {
        Some(e) => Err(e),
        None => resolve_in_scope(&template.ret_type, ss),
    }
}

/// The type of a binary expression.
fn check_operands(b: &BinaryExpr, keep_right: bool, ss: &ScopeStack) -> (r: Result<
    VarType,
    SyntaxErr,
>)
    requires
        expr_checkable(b.left@),
        expr_checkable(b.right@),
    ensures
        typed_as(r, binary_type(expr_type(b.left@, ss@), expr_type(b.right@, ss@), keep_right)),
    decreases b, 0nat,
{
    let l = match b.left.check_syntax(ss) {
        Ok(t) => t,
        Err(e) => {
            return Err(e);
        },
    };
    let r = match b.right.check_syntax(ss) {
        Ok(t) => t,
        Err(e) => {
            return Err(e);
        },
    };
    check_binary(l, r, keep_right)
}

impl Expr {
    /// The type of the expression in a scope, or the first error met.
    pub fn check_syntax(&self, ss: &ScopeStack) -> (r: Result<VarType, SyntaxErr>)
        requires
            expr_checkable(self@),
        ensures
            typed_as(r, expr_type(self@, ss@)),
        decreases self, 2nat,
    {
        match self {
            Expr::Assign(e) => check_operands(e, true, ss),
            Expr::Equality(e) => check_operands(e, false, ss),
            Expr::Comparison(e) => check_operands(e, false, ss),
            Expr::Term(e) => check_operands(e, false, ss),
            Expr::Shift(e) => check_operands(e, false, ss),
            Expr::Unary(e) => e.right.check_syntax(ss),
            Expr::Cast(cast) => resolve_in_scope(&cast.to_type, ss),
            Expr::FnCall(call) => {
                proof {
                    lemma_expr_models(call.args@);
                    assert forall|i: int| 0 <= i < call.args.len() implies expr_checkable(
                        #[trigger] call.args@[i]@,
                    ) by {
                        assert(expr_models(call.args@)[i] == call.args@[i]@);
                    }
                }
                check_call(&call.name, &call.args, ss)
            },
            Expr::Ref(r) => check_ref(&r.operator, &r.right, ss),
            Expr::Primary(e) => match &**e {
                PrimaryExpr::Grouping(g) => g.check_syntax(ss),
                PrimaryExpr::Literal(l) => match literal_var_type(&l.data()) {
                    Some(t) => Ok(t),
                    None => Err(SyntaxErr::LiteralErr(l.clone())),
                },
                PrimaryExpr::Id(id) => check_id(id, ss),
                PrimaryExpr::StructField(owner, field) => check_field(owner, field, ss),
                PrimaryExpr::EnumVariant(owner, variant) => check_variant(owner, variant, ss),
                PrimaryExpr::ArrayAccess(_, _) => unreached(),
            },
            Expr::Base => unreached(),
        }
    }
}

/// Whether a written type names `name` without a pointer around the name:
/// as a basic type, or as what an array of any depth holds.
pub open spec fn names_unwrapped(t: DeclrTypeModel, name: Seq<char>) -> bool
    decreases t,
{
    match t {
        DeclrTypeModel::BasicType(token) => token.kind.data() == name,
        DeclrTypeModel::Array(element, _) => names_unwrapped(*element, name),
        DeclrTypeModel::Pointer(_) => false,
    }
}

/// What the first pass over a scope's type declarations has gathered: the
/// scope with the types declared so far, every type met so far in the order
/// of declaration, and the structs that wait for a type declared later.
pub struct Collected {
    pub ss: ScopeModel,
    pub known: Seq<UserTypeModel>,
    pub pending: Seq<StructDefModel>,
}

/// Whether a struct of the given name waits.
pub open spec fn pending_named(pending: Seq<StructDefModel>, name: Seq<char>) -> bool {
    exists|i: int| 0 <= i < pending.len() && (#[trigger] pending[i]).name == name
}

/// Whether the type of some field is not resolved.
pub open spec fn has_undefined(fields: Seq<(Seq<char>, FieldTypeModel)>) -> bool {
    exists|i: int| 0 <= i < fields.len() && (#[trigger] fields[i]).1 is Undefined
}

/// A field in the first pass: an error if its type names its own struct
/// without a pointer around the name; else resolved where its type resolves
/// among the types declared so far; else kept as written.
pub open spec fn first_pass_field(
    param: (TokenModel, DeclrTypeModel),
    owner: Seq<char>,
    known: Seq<UserTypeModel>,
) -> Result<FieldTypeModel, SyntaxErrModel> {
    if names_unwrapped(param.1, owner) {
        Err(SyntaxErrModel::RecursiveStruct(param.0))
    } else {
        match resolve(param.1, known) {
            Ok(t) => Ok(FieldTypeModel::Defined(t)),
            Err(_) => Ok(FieldTypeModel::Undefined(param.1)),
        }
    }
}

/// The fields from `i` on in the first pass, behind those done so far; the
/// first error ends it.
pub open spec fn first_pass_fields(
    params: Seq<(TokenModel, DeclrTypeModel)>,
    owner: Seq<char>,
    known: Seq<UserTypeModel>,
    i: int,
    done: Seq<(Seq<char>, FieldTypeModel)>,
) -> Result<Seq<(Seq<char>, FieldTypeModel)>, SyntaxErrModel>
    decreases params.len() - i,
{
    if 0 <= i < params.len() {
        match first_pass_field(params[i], owner, known) {
            Err(e) => Err(e),
            Ok(f) => first_pass_fields(
                params,
                owner,
                known,
                i + 1,
                done.push((params[i].0.kind.data(), f)),
            ),
        }
    } else {
        Ok(done)
    }
}

/// The fields from `i` on in the second pass, behind those done so far:
/// each field kept as written is resolved among all types of the scope, and
/// the first that does not resolve ends it.
pub open spec fn second_pass_fields(
    fields: Seq<(Seq<char>, FieldTypeModel)>,
    known: Seq<UserTypeModel>,
    i: int,
    done: Seq<(Seq<char>, FieldTypeModel)>,
) -> Result<Seq<(Seq<char>, FieldTypeModel)>, SyntaxErrModel>
    decreases fields.len() - i,
{
    if 0 <= i < fields.len() {
        match fields[i].1 {
            FieldTypeModel::Defined(_) => second_pass_fields(
                fields,
                known,
                i + 1,
                done.push(fields[i]),
            ),
            FieldTypeModel::Undefined(written) => match resolve_or_unknown(written, known) {
                Err(e) => Err(e),
                Ok(t) => second_pass_fields(
                    fields,
                    known,
                    i + 1,
                    done.push((fields[i].0, FieldTypeModel::Defined(t))),
                ),
            },
        }
    } else {
        Ok(done)
    }
}

/// Whether a type of the name is declared at this level already, or waits.
pub open spec fn type_name_taken(c: Collected, name: Seq<char>) -> bool {
    c.ss.uses(name) || pending_named(c.pending, name)
}

/// One statement in the first pass. A struct whose fields all resolve and
/// an enum are declared at once; a struct with a field kept as written
/// waits. Other statements are passed over.
pub open spec fn collect_step(item: StatementModel, c: Collected) -> Result<
    Collected,
    SyntaxErrModel,
> {
    match item {
        StatementModel::StructDeclr(name, params) => if type_name_taken(c, name.kind.data()) {
            Err(SyntaxErrModel::AlreadyDefined(name))
        } else {
            match first_pass_fields(
                params_of(*params),
                name.kind.data(),
                c.ss.defined_types,
                0,
                Seq::empty(),
            ) {
                Err(e) => Err(e),
                Ok(fields) => {
                    let def = StructDefModel { name: name.kind.data(), fields };
                    if has_undefined(fields) {
                        Ok(
                            Collected {
                                ss: c.ss,
                                known: c.known.push(UserTypeModel::UserStruct(def)),
                                pending: c.pending.push(def),
                            },
                        )
                    } else {
                        Ok(
                            Collected {
                                ss: c.ss.declare_type(UserTypeModel::UserStruct(def)),
                                known: c.known.push(UserTypeModel::UserStruct(def)),
                                pending: c.pending,
                            },
                        )
                    }
                },
            }
        },
        StatementModel::EnumDeclr(name, variants) => if type_name_taken(c, name.kind.data()) {
            Err(SyntaxErrModel::AlreadyDefined(name))
        } else {
            let def = EnumDefModel { name: name.kind.data(), variants: variant_names(*variants) };
            Ok(
                Collected {
                    ss: c.ss.declare_type(UserTypeModel::UserEnum(def)),
                    known: c.known.push(UserTypeModel::UserEnum(def)),
                    pending: c.pending,
                },
            )
        },
        _ => Ok(c),
    }
}

/// What checking gives: the scope as checking left it, and the first error
/// met, if any. Where there is an error, the scope is what it was when the
/// error was met.
pub struct Checked {
    pub scope: ScopeModel,
    pub error: Option<SyntaxErrModel>,
}

impl Checked {
    /// Checking passed and left `scope`.
    pub open spec fn passed(scope: ScopeModel) -> Checked {
        Checked { scope, error: None }
    }

    /// Checking met `error` in `scope`.
    pub open spec fn failed(scope: ScopeModel, error: SyntaxErrModel) -> Checked {
        Checked { scope, error: Some(error) }
    }

    /// Whether checking passed.
    pub open spec fn is_ok(self) -> bool {
        self.error is None
    }
}

/// The first pass over the statements from `i` on: what it has gathered
/// when it ends, and the error that ended it, if any.
pub open spec fn collect_from(items: Seq<StatementModel>, i: int, c: Collected) -> (
    Collected,
    Option<SyntaxErrModel>,
)
    decreases items.len() - i,
{
    if 0 <= i < items.len() {
        match collect_step(items[i], c) {
            Err(e) => (c, Some(e)),
            Ok(next) => collect_from(items, i + 1, next),
        }
    } else {
        (c, None)
    }
}

/// The second pass over the waiting structs from `j` on: each has its
/// fields resolved among all types of the scope and is declared.
pub open spec fn resolve_pending(
    pending: Seq<StructDefModel>,
    known: Seq<UserTypeModel>,
    ss: ScopeModel,
    j: int,
) -> Checked
    decreases pending.len() - j,
{
    if 0 <= j < pending.len() {
        match second_pass_fields(pending[j].fields, known, 0, Seq::empty()) {
            Err(e) => Checked::failed(ss, e),
            Ok(fields) => resolve_pending(
                pending,
                known,
                ss.declare_type(
                    UserTypeModel::UserStruct(StructDefModel { name: pending[j].name, fields }),
                ),
                j + 1,
            ),
        }
    } else {
        Checked::passed(ss)
    }
}

/// The types that the statements of one lexical level declare, added to
/// the scope: the first pass over all statements, then the second pass over
/// the structs that waited. A struct may so name a type declared behind it
/// at the same level.
pub open spec fn define_types(items: Seq<StatementModel>, ss: ScopeModel) -> Checked {
    let first = collect_from(
        items,
        0,
        Collected { ss, known: ss.defined_types, pending: Seq::empty() },
    );
    match first.1 {
        Some(e) => Checked::failed(first.0.ss, e),
        None => resolve_pending(first.0.pending, first.0.known, first.0.ss, 0),
    }
}

/// The parameters from `i` on bound as variables: each has its type
/// resolved among the types in scope; the first that does not resolve ends
/// it.
pub open spec fn bind_params(params: Seq<(TokenModel, DeclrTypeModel)>, ss: ScopeModel, i: int) -> Checked
    decreases params.len() - i,
{
    if 0 <= i < params.len() {
        match resolve_or_unknown(params[i].1, ss.defined_types) {
            Err(e) => Checked::failed(ss, e),
            Ok(t) => bind_params(params, ss.declare_var(params[i].0.kind.data(), t), i + 1),
        }
    } else {
        Checked::passed(ss)
    }
}

/// Whether another parameter has the name of the parameter at `i`.
pub open spec fn has_twin(params: Seq<(TokenModel, DeclrTypeModel)>, i: int) -> bool {
    exists|j: int|
        0 <= j < params.len() && j != i && (#[trigger] params[j]).0.kind.data()
            == params[i].0.kind.data()
}

/// The name token of the first parameter from `i` on whose name another
/// parameter has too.
pub open spec fn first_duplicate(params: Seq<(TokenModel, DeclrTypeModel)>, i: int) -> Option<
    TokenModel,
>
    decreases params.len() - i,
{
    if 0 <= i < params.len() {
        if has_twin(params, i) {
            Some(params[i].0)
        } else {
            first_duplicate(params, i + 1)
        }
    } else {
        None
    }
}

/// The check before a name is declared: it is not reserved and not used at
/// this lexical level.
pub open spec fn name_error(name: TokenModel, ss: ScopeModel) -> Option<SyntaxErrModel> {
    if is_reserved(name.kind.data()) {
        Some(SyntaxErrModel::ReservedID(name))
    } else if ss.uses(name.kind.data()) {
        Some(SyntaxErrModel::AlreadyDefined(name))
    } else {
        None
    }
}

/// A `return` of a value of type `actual`: it must stand in a function, and
/// `actual` must be the function's declared return type.
pub open spec fn return_error(token: TokenModel, actual: VarTypeModel, ss: ScopeModel) -> Option<
    SyntaxErrModel,
> {
    match nearest_function(ss.stack) {
        None => Some(SyntaxErrModel::ReturnOutsideFunc(token)),
        Some(f) => match resolve_or_unknown(f.ret_type, ss.defined_types) {
            Err(e) => Some(e),
            Ok(declared) => if same_type(declared, actual) {
                None
            } else {
                Some(SyntaxErrModel::WrongType(declared, actual))
            },
        },
    }
}

/// The statements that the rules below check: those that the grammar gives
/// in the place of a statement, with expressions that the typing rules
/// cover.
pub open spec fn stmt_checkable(s: StatementModel) -> bool
    decreases s,
{
    match s {
        StatementModel::Base => false,
        StatementModel::Declr => false,
        StatementModel::Stmt => false,
        StatementModel::Parameters(_) => false,
        StatementModel::Variant(_) => false,
        StatementModel::FnDeclr(d) => stmt_checkable(d.body),
        StatementModel::StructDeclr(_, _) => true,
        StatementModel::EnumDeclr(_, _) => true,
        StatementModel::VarDeclr(_, _, value) => match value {
            Some(e) => expr_checkable(e),
            None => true,
        },
        StatementModel::LoopStmt(body) => stmt_checkable(*body),
        StatementModel::IfStmt(cond, yes, no) => expr_checkable(cond) && stmt_checkable(*yes)
            && match no {
            Some(b) => stmt_checkable(*b),
            None => true,
        },
        StatementModel::WhileStmt(cond, body, _) => expr_checkable(cond) && stmt_checkable(*body),
        StatementModel::BreakStmt(_) => true,
        StatementModel::ReturnStmt(_, e) => expr_checkable(e),
        StatementModel::ExprStmt(e) => expr_checkable(e),
        StatementModel::Block(items) => forall|i: int|
            0 <= i < items.len() ==> stmt_checkable(#[trigger] items[i]),
    }
}

/// The check of the value of a variable declaration against its declared
/// type.
pub open spec fn value_error(
    value: Option<ExprModel>,
    declared: VarTypeModel,
    ss: ScopeModel,
) -> Option<SyntaxErrModel> {
    match value {
        None => None,
        Some(v) => match expr_type(v, ss) {
            Err(e) => Some(e),
            Ok(given) => if same_type(given, declared) {
                None
            } else {
                Some(SyntaxErrModel::WrongType(declared, given))
            },
        },
    }
}

/// The check of an expression whose type is not asked for.
pub open spec fn expr_error(e: ExprModel, ss: ScopeModel) -> Option<SyntaxErrModel> {
    match expr_type(e, ss) {
        Err(e) => Some(e),
        Ok(_) => None,
    }
}

/// The scope after a statement is checked, and the first error met, if
/// any; the scope is then what it was when the error was met.
///
/// A block opens a lexical level, declares the types of the level, checks
/// its statements in order and closes the level. A function declaration
/// binds the function, opens its body, binds the parameters, checks the
/// body and closes it. A variable declaration checks the value against the
/// declared type and binds the name. A loop opens its body, checks it and
/// closes it, so that a `break` passes inside the body only. Struct and enum
/// declarations were dealt with when the types of the level were declared.
pub open spec fn check_stmt(s: StatementModel, ss: ScopeModel) -> Checked
    decreases s, 0nat,
{
    match s {
        StatementModel::Block(items) => {
            let declared = define_types(items, ss.enter_scope());
            if declared.error is Some {
                declared
            } else {
                let after = check_all(items, declared.scope, 0);
                if after.error is Some {
                    after
                } else {
                    Checked::passed(after.scope.leave_scope())
                }
            }
        },
        StatementModel::FnDeclr(d) => match name_error(d.name, ss) {
            Some(e) => Checked::failed(ss, e),
            None => {
                let bound = bind_params(
                    params_of(d.params),
                    ss.declare_fn(*d).mark(ScopeOpModel::EnterFuncDef),
                    0,
                );
                if bound.error is Some {
                    bound
                } else {
                    match first_duplicate(params_of(d.params), 0) {
                        Some(t) => Checked::failed(bound.scope, SyntaxErrModel::DupParamNames(t)),
                        None => {
                            let after = check_stmt(d.body, bound.scope);
                            if after.error is Some {
                                after
                            } else {
                                Checked::passed(after.scope.leave_func_def())
                            }
                        },
                    }
                }
            },
        },
        StatementModel::VarDeclr(name, var_type, value) => match name_error(name, ss) {
            Some(e) => Checked::failed(ss, e),
            None => match resolve_or_unknown(var_type, ss.defined_types) {
                Err(e) => Checked::failed(ss, e),
                Ok(declared) => match value_error(value, declared, ss) {
                    Some(e) => Checked::failed(ss, e),
                    None => Checked::passed(ss.declare_var(name.kind.data(), declared)),
                },
            },
        },
        StatementModel::LoopStmt(body) => {
            let after = check_stmt(*body, ss.mark(ScopeOpModel::EnterBreakable));
            if after.error is Some {
                after
            } else {
                Checked::passed(after.scope.leave_breakable())
            }
        },
        StatementModel::IfStmt(cond, yes, no) => match expr_error(cond, ss) {
            Some(e) => Checked::failed(ss, e),
            None => {
                let after = check_stmt(*yes, ss);
                if after.error is Some {
                    after
                } else {
                    match no {
                        Some(b) => check_stmt(*b, after.scope),
                        None => after,
                    }
                }
            },
        },
        StatementModel::WhileStmt(cond, body, _) => match expr_error(cond, ss) {
            Some(e) => Checked::failed(ss, e),
            None => {
                let after = check_stmt(*body, ss.mark(ScopeOpModel::EnterBreakable));
                if after.error is Some {
                    after
                } else {
                    Checked::passed(after.scope.leave_breakable())
                }
            },
        },
        StatementModel::BreakStmt(t) => if ss.inside_breakable() {
            Checked::passed(ss)
        } else {
            Checked::failed(ss, SyntaxErrModel::BreakOutsideLoop(t))
        },
        StatementModel::ReturnStmt(t, value) => match expr_type(value, ss) {
            Err(e) => Checked::failed(ss, e),
            Ok(actual) => match return_error(t, actual, ss) {
                Some(e) => Checked::failed(ss, e),
                None => Checked::passed(ss),
            },
        },
        StatementModel::ExprStmt(e) => match expr_error(e, ss) {
            Some(e) => Checked::failed(ss, e),
            None => Checked::passed(ss),
        },
        _ => Checked::passed(ss),
    }
}

/// The scope after the statements from `i` on are checked in order, and the
/// first error met, if any.
pub open spec fn check_all(items: Seq<StatementModel>, ss: ScopeModel, i: int) -> Checked
    decreases items, items.len() - i,
{
    if 0 <= i < items.len() {
        let first = check_stmt(items[i], ss);
        if first.error is Some {
            first
        } else {
            check_all(items, first.scope, i + 1)
        }
    } else {
        Checked::passed(ss)
    }
}

/// A whole program checked from an empty scope: the types of the top level
/// are declared, then its statements are checked in order.
pub open spec fn check_program(items: Seq<StatementModel>) -> Checked {
    let declared = define_types(items, ScopeModel::empty());
    if declared.error is Some {
        declared
    } else {
        check_all(items, declared.scope, 0)
    }
}

/// An executable result and the scope it left say what the rules say: the
/// scope is the one they give, on success and on failure, and the error is
/// theirs.
pub open spec fn checked_as(r: Result<(), SyntaxErr>, after: ScopeModel, expected: Checked) -> bool {
    &&& after == expected.scope
    &&& match r {
        Ok(_) => expected.error is None,
        Err(e) => expected.error == Some(e@),
    }
}

/// The values of a sequence of struct definitions.
pub open spec fn struct_models(ds: Seq<UserStructDef>) -> Seq<StructDefModel> {
    Seq::new(ds.len(), |i: int| ds[i]@)
}

/// Whether a written type names `name` without a pointer around the name.
fn names_own(t: &DeclrType, name: &String) -> (r: bool)
    ensures
        r == names_unwrapped(t@, name@),
    decreases t,
{
    match t {
        DeclrType::BasicType(token) => token.data() == *name,
        DeclrType::Array(element, _) => names_own(element, name),
        DeclrType::Pointer(_) => false,
    }
}

/// The fields of a struct in the first pass, and whether one of them is
/// kept as written.
fn first_pass(params: &Vec<(Token, DeclrType)>, owner: &String, known: &Vec<UserType>) -> (r:
    Result<(Vec<(String, FieldType)>, bool), SyntaxErr>)
    ensures
        match r {
            Ok(v) => first_pass_fields(
                param_models(params@),
                owner@,
                user_type_models(known@),
                0,
                Seq::empty(),
            ) == Ok::<Seq<(Seq<char>, FieldTypeModel)>, SyntaxErrModel>(field_models(v.0@)) && v.1
                == has_undefined(field_models(v.0@)),
            Err(e) => first_pass_fields(
                param_models(params@),
                owner@,
                user_type_models(known@),
                0,
                Seq::empty(),
            ) == Err::<Seq<(Seq<char>, FieldTypeModel)>, SyntaxErrModel>(e@),
        },
{
    let ghost pm = param_models(params@);
    let ghost km = user_type_models(known@);
    proof {
        lemma_param_models(params@);
    }
    let mut fields: Vec<(String, FieldType)> = Vec::new();
    let mut deferred = false;
    let mut i: usize = 0;
    while i < params.len()
        invariant
            0 <= i <= params.len(),
            pm == param_models(params@),
            km == user_type_models(known@),
            pm.len() == params.len(),
            forall|k: int|
                0 <= k < params.len() ==> (#[trigger] pm[k]) == (params@[k].0@, params@[k].1@),
            first_pass_fields(pm, owner@, km, 0, Seq::empty()) == first_pass_fields(
                pm,
                owner@,
                km,
                i as int,
                field_models(fields@),
            ),
            deferred == has_undefined(field_models(fields@)),
        decreases params.len() - i,
    {
        assert(pm[i as int] == (params@[i as int].0@, params@[i as int].1@));
        if names_own(&params[i].1, owner) {
            return Err(SyntaxErr::RecursiveStruct(params[i].0.clone()));
        }
        let field = match resolve_type(&params[i].1, known) {
            Ok(t) => FieldType::Defined(t),
            Err(_) => FieldType::Undefined(params[i].1.clone()),
        };
        let entry = (params[i].0.data(), field);
        proof {
            lemma_field_models_push(fields@, entry);
            lemma_field_models(fields@);
            lemma_field_models(fields@.push(entry));
            let before = field_models(fields@);
            let after = field_models(fields@.push(entry));
            if has_undefined(before) {
                let k = choose|k: int| 0 <= k < before.len() && (#[trigger] before[k]).1 is Undefined;
                assert(after[k] == before[k]);
            }
            if entry.1@ is Undefined {
                assert(after[before.len() as int].1 is Undefined);
            }
            if has_undefined(after) {
                let k = choose|k: int| 0 <= k < after.len() && (#[trigger] after[k]).1 is Undefined;
                if k < before.len() {
                    assert(after[k] == before[k]);
                }
            }
        }
        if matches!(entry.1, FieldType::Undefined(_)) {
            deferred = true;
        }
        fields.push(entry);
        i += 1;
    }
    Ok((fields, deferred))
}

/// The fields of a waiting struct in the second pass.
fn second_pass(fields: &Vec<(String, FieldType)>, known: &Vec<UserType>) -> (r: Result<
    Vec<(String, FieldType)>,
    SyntaxErr,
>)
    ensures
        match r {
            Ok(v) => second_pass_fields(
                field_models(fields@),
                user_type_models(known@),
                0,
                Seq::empty(),
            ) == Ok::<Seq<(Seq<char>, FieldTypeModel)>, SyntaxErrModel>(field_models(v@)),
            Err(e) => second_pass_fields(
                field_models(fields@),
                user_type_models(known@),
                0,
                Seq::empty(),
            ) == Err::<Seq<(Seq<char>, FieldTypeModel)>, SyntaxErrModel>(e@),
        },
{
    let ghost fm = field_models(fields@);
    let ghost km = user_type_models(known@);
    proof {
        lemma_field_models(fields@);
    }
    let mut done: Vec<(String, FieldType)> = Vec::new();
    let mut i: usize = 0;
    while i < fields.len()
        invariant
            0 <= i <= fields.len(),
            fm == field_models(fields@),
            km == user_type_models(known@),
            fm.len() == fields.len(),
            forall|k: int|
                0 <= k < fields.len() ==> (#[trigger] fm[k]) == (fields@[k].0@, fields@[k].1@),
            second_pass_fields(fm, km, 0, Seq::empty()) == second_pass_fields(
                fm,
                km,
                i as int,
                field_models(done@),
            ),
        decreases fields.len() - i,
    {
        assert(fm[i as int] == (fields@[i as int].0@, fields@[i as int].1@));
        let field = match &fields[i].1 {
            FieldType::Defined(t) => FieldType::Defined(t.clone()),
            FieldType::Undefined(written) => match resolve_type(written, known) {
                Ok(t) => FieldType::Defined(t),
                Err(m) => {
                    return Err(SyntaxErr::UnknownType(written.get_token(), m));
                },
            },
        };
        let entry = (fields[i].0.clone(), field);
        proof {
            lemma_field_models_push(done@, entry);
        }
        done.push(entry);
        i += 1;
    }
    Ok(done)
}

/// Whether a struct of the given name waits.
fn is_pending(pending: &Vec<UserStructDef>, name: &String) -> (r: bool)
    ensures
        r == pending_named(struct_models(pending@), name@),
{
    let mut i: usize = 0;
    while i < pending.len()
        invariant
            0 <= i <= pending.len(),
            forall|j: int| 0 <= j < i ==> pending@[j].name@ != name@,
        decreases pending.len() - i,
    {
        if pending[i].name == *name {
            assert(struct_models(pending@)[i as int].name == name@);
            return true;
        }
        i += 1;
    }
    assert forall|j: int| 0 <= j < struct_models(pending@).len() implies (
    #[trigger] struct_models(pending@)[j]).name != name@ by {
        assert(struct_models(pending@)[j] == pending@[j]@);
    }
    false
}

/// The names that a list of variants holds; of any other statement, none.
fn variant_name_vec(s: &Statement) -> (r: Vec<String>)
    ensures
        string_models(r@) == variant_names(s@),
{
    let mut names: Vec<String> = Vec::new();
    match s {
        Statement::Variant(v) => {
            let mut i: usize = 0;
            while i < v.len()
                invariant
                    0 <= i <= v.len(),
                    names.len() == i,
                    forall|j: int| 0 <= j < i ==> (#[trigger] names@[j])@ == v@[j]@.kind.data(),
                decreases v.len() - i,
            {
                names.push(v[i].data());
                i += 1;
            }
            assert(string_models(names@) =~= variant_names(s@));
        },
        _ => {
            assert(string_models(names@) =~= variant_names(s@));
        },
    }
    names
}

/// The state of the first pass as its mathematical value.
pub open spec fn collected(ss: ScopeStack, known: Vec<UserType>, pending: Vec<UserStructDef>) -> Collected {
    Collected {
        ss: ss@,
        known: user_type_models(known@),
        pending: struct_models(pending@),
    }
}

/// One struct declaration in the first pass.
fn collect_struct(
    name: &Token,
    params: &Statement,
    ss: &mut ScopeStack,
    known: &mut Vec<UserType>,
    pending: &mut Vec<UserStructDef>,
) -> (r: Result<(), SyntaxErr>)
    ensures
        match r {
            Ok(_) => collect_step(
                StatementModel::StructDeclr(name@, Box::new(params@)),
                collected(*old(ss), *old(known), *old(pending)),
            ) == Ok::<Collected, SyntaxErrModel>(collected(*final(ss), *final(known), *final(pending))),
            Err(e) => collect_step(
                StatementModel::StructDeclr(name@, Box::new(params@)),
                collected(*old(ss), *old(known), *old(pending)),
            ) == Err::<Collected, SyntaxErrModel>(e@) && final(ss)@ == old(ss)@,
        },
{
    let struct_name = name.data();
    if ss.uses(&struct_name) || is_pending(pending, &struct_name) {
        return Err(SyntaxErr::AlreadyDefined(name.clone()));
    }
    let list = params_vec(params);
    let (fields, deferred) = match first_pass(&list, &struct_name, &ss.defined_types) {
        Ok(v) => v,
        Err(e) => {
            return Err(e);
        },
    };
    let def = UserStructDef { name: struct_name, fields };
    let ghost d = def@;
    let for_known = def.clone();
    if deferred {
        let waiting = def.clone();
        pending.push(waiting);
        assert(struct_models(pending@) =~= struct_models(old(pending)@).push(d));
    } else {
        ss.user_type_declr(UserType::UserStruct(def));
    }
    known.push(UserType::UserStruct(for_known));
    assert(user_type_models(known@) =~= user_type_models(old(known)@).push(
        UserTypeModel::UserStruct(d),
    ));
    Ok(())
}

/// One enum declaration in the first pass.
fn collect_enum(
    name: &Token,
    variants: &Statement,
    ss: &mut ScopeStack,
    known: &mut Vec<UserType>,
    pending: &Vec<UserStructDef>,
) -> (r: Result<(), SyntaxErr>)
    ensures
        match r {
            Ok(_) => collect_step(
                StatementModel::EnumDeclr(name@, Box::new(variants@)),
                collected(*old(ss), *old(known), *pending),
            ) == Ok::<Collected, SyntaxErrModel>(collected(*final(ss), *final(known), *pending)),
            Err(e) => collect_step(
                StatementModel::EnumDeclr(name@, Box::new(variants@)),
                collected(*old(ss), *old(known), *pending),
            ) == Err::<Collected, SyntaxErrModel>(e@) && final(ss)@ == old(ss)@,
        },
{
    let enum_name = name.data();
    if ss.uses(&enum_name) || is_pending(pending, &enum_name) {
        return Err(SyntaxErr::AlreadyDefined(name.clone()));
    }
    let def = UserEnumDef { name: enum_name, variants: variant_name_vec(variants) };
    let ghost d = def@;
    let for_known = def.clone();
    ss.user_type_declr(UserType::UserEnum(def));
    known.push(UserType::UserEnum(for_known));
    assert(user_type_models(known@) =~= user_type_models(old(known)@).push(
        UserTypeModel::UserEnum(d),
    ));
    Ok(())
}

/// A copy of a list of user types.
fn clone_user_types(ts: &Vec<UserType>) -> (r: Vec<UserType>)
    ensures
        user_type_models(r@) == user_type_models(ts@),
{
    let mut v: Vec<UserType> = Vec::new();
    let mut i: usize = 0;
    while i < ts.len()
        invariant
            0 <= i <= ts.len(),
            v.len() == i,
            forall|j: int| 0 <= j < i ==> (#[trigger] v@[j])@ == ts@[j]@,
        decreases ts.len() - i,
    {
        let c = ts[i].clone();
        v.push(c);
        i += 1;
    }
    assert(user_type_models(v@) =~= user_type_models(ts@));
    v
}

/// Declares the types that the statements of one lexical level declare, or
/// returns the first error met; the types declared before the error stay
/// declared.
pub fn define_types_in_scope(ast: &Vec<Statement>, ss: &mut ScopeStack) -> (r: Result<
    (),
    SyntaxErr,
>)
    ensures
        checked_as(r, final(ss)@, define_types(statement_models(ast@), old(ss)@)),
{
    let ghost items = statement_models(ast@);
    proof {
        lemma_statement_models(ast@);
    }
    let mut pending: Vec<UserStructDef> = Vec::new();
    let mut known: Vec<UserType> = clone_user_types(&ss.defined_types);
    assert(struct_models(pending@) =~= Seq::empty());
    let mut i: usize = 0;
    while i < ast.len()
        invariant
            0 <= i <= ast.len(),
            items == statement_models(ast@),
            items.len() == ast.len(),
            forall|k: int| 0 <= k < ast.len() ==> (#[trigger] items[k]) == ast@[k]@,
            collect_from(
                items,
                0,
                Collected { ss: old(ss)@, known: old(ss)@.defined_types, pending: Seq::empty() },
            ) == collect_from(items, i as int, collected(*ss, known, pending)),
        decreases ast.len() - i,
    {
        assert(items[i as int] == ast@[i as int]@);
        match &ast[i] {
            Statement::StructDeclr(d) => {
                match collect_struct(&d.name, &d.params, ss, &mut known, &mut pending) {
                    Ok(_) => {},
                    Err(e) => {
                        return Err(e);
                    },
                }
            },
            Statement::EnumDeclr(d) => {
                match collect_enum(&d.name, &d.variants, ss, &mut known, &pending) {
                    Ok(_) => {},
                    Err(e) => {
                        return Err(e);
                    },
                }
            },
            _ => {},
        }
        i += 1;
    }
    let ghost pm = struct_models(pending@);
    let ghost km = user_type_models(known@);
    let ghost mid = ss@;
    assert(collect_from(items, ast.len() as int, collected(*ss, known, pending)) == (
        collected(*ss, known, pending),
        None::<SyntaxErrModel>,
    ));
    assert(define_types(items, old(ss)@) == resolve_pending(pm, km, mid, 0));
    let mut j: usize = 0;
    while j < pending.len()
        invariant
            0 <= j <= pending.len(),
            items == statement_models(ast@),
            define_types(items, old(ss)@) == resolve_pending(pm, km, mid, 0),
            pm == struct_models(pending@),
            km == user_type_models(known@),
            resolve_pending(pm, km, mid, 0) == resolve_pending(pm, km, ss@, j as int),
        decreases pending.len() - j,
    {
        assert(pm[j as int] == pending@[j as int]@);
        let fields = match second_pass(&pending[j].fields, &known) {
            Ok(f) => f,
            Err(e) => {
                return Err(e);
            },
        };
        let def = UserStructDef { name: pending[j].name.clone(), fields };
        ss.user_type_declr(UserType::UserStruct(def));
        j += 1;
    }
    Ok(())
}

/// The check before a name is declared.
fn check_name(name: &Token, ss: &ScopeStack) -> (r: Option<SyntaxErr>)
    ensures
        match r {
            Some(e) => name_error(name@, ss@) == Some(e@),
            None => name_error(name@, ss@) is None,
        },
{
    let text = name.data();
    if reserved_name(&text) {
        return Some(SyntaxErr::ReservedID(name.clone()));
    }
    if ss.uses(&text) {
        return Some(SyntaxErr::AlreadyDefined(name.clone()));
    }
    None
}

/// Binds the parameters of a function as variables.
fn bind(params: &Vec<(Token, DeclrType)>, ss: &mut ScopeStack) -> (r: Result<(), SyntaxErr>)
    ensures
        checked_as(r, final(ss)@, bind_params(param_models(params@), old(ss)@, 0)),
{
    let ghost pm = param_models(params@);
    proof {
        lemma_param_models(params@);
    }
    let mut i: usize = 0;
    while i < params.len()
        invariant
            0 <= i <= params.len(),
            pm == param_models(params@),
            pm.len() == params.len(),
            forall|k: int|
                0 <= k < params.len() ==> (#[trigger] pm[k]) == (params@[k].0@, params@[k].1@),
            bind_params(pm, old(ss)@, 0) == bind_params(pm, ss@, i as int),
        decreases params.len() - i,
    {
        assert(pm[i as int] == (params@[i as int].0@, params@[i as int].1@));
        let t = match resolve_in_scope(&params[i].1, ss) {
            Ok(t) => t,
            Err(e) => {
                return Err(e);
            },
        };
        ss.var_declr(params[i].0.data(), t);
        i += 1;
    }
    Ok(())
}

/// Whether another parameter has the name of the parameter at `i`.
fn twin_of(params: &Vec<(Token, DeclrType)>, i: usize) -> (r: bool)
    requires
        i < params.len(),
    ensures
        r == has_twin(param_models(params@), i as int),
{
    let ghost pm = param_models(params@);
    proof {
        lemma_param_models(params@);
    }
    let name = params[i].0.data();
    let mut j: usize = 0;
    while j < params.len()
        invariant
            0 <= j <= params.len(),
            i < params.len(),
            pm == param_models(params@),
            pm.len() == params.len(),
            forall|k: int|
                0 <= k < params.len() ==> (#[trigger] pm[k]) == (params@[k].0@, params@[k].1@),
            name@ == pm[i as int].0.kind.data(),
            forall|k: int|
                0 <= k < j && k != i ==> (#[trigger] pm[k]).0.kind.data() != name@,
        decreases params.len() - j,
    {
        assert(pm[j as int] == (params@[j as int].0@, params@[j as int].1@));
        if j != i && params[j].0.data() == name {
            return true;
        }
        j += 1;
    }
    false
}

/// The name token of the first parameter whose name another parameter has
/// too.
fn find_duplicate(params: &Vec<(Token, DeclrType)>) -> (r: Option<Token>)
    ensures
        match r {
            Some(t) => first_duplicate(param_models(params@), 0) == Some(t@),
            None => first_duplicate(param_models(params@), 0) is None,
        },
{
    let ghost pm = param_models(params@);
    proof {
        lemma_param_models(params@);
    }
    let mut i: usize = 0;
    while i < params.len()
        invariant
            0 <= i <= params.len(),
            pm == param_models(params@),
            pm.len() == params.len(),
            forall|k: int|
                0 <= k < params.len() ==> (#[trigger] pm[k]) == (params@[k].0@, params@[k].1@),
            first_duplicate(pm, 0) == first_duplicate(pm, i as int),
        decreases params.len() - i,
    {
        assert(pm[i as int] == (params@[i as int].0@, params@[i as int].1@));
        if twin_of(params, i) {
            return Some(params[i].0.clone());
        }
        i += 1;
    }
    None
}

/// The check of a `return` of a value of the given type.
fn check_return(token: &Token, actual: VarType, ss: &ScopeStack) -> (r: Option<SyntaxErr>)
    ensures
        match r {
            Some(e) => return_error(token@, actual@, ss@) == Some(e@),
            None => return_error(token@, actual@, ss@) is None,
        },
{
    let f = match ss.get_nearest_function() {
        Some(f) => f,
        None => {
            return Some(SyntaxErr::ReturnOutsideFunc(token.clone()));
        },
    };
    let declared = match resolve_in_scope(&f.ret_type, ss) {
        Ok(t) => t,
        Err(e) => {
            return Some(e);
        },
    };
    if types_match(&declared, &actual) {
        None
    } else {
        Some(SyntaxErr::WrongType(declared, actual))
    }
}

/// Checks a variable declaration.
fn check_var(d: &VarDeclr, ss: &mut ScopeStack) -> (r: Result<(), SyntaxErr>)
    requires
        d.value is Some ==> expr_checkable(d.value->Some_0@),
    ensures
        checked_as(
            r,
            final(ss)@,
            check_stmt(
                StatementModel::VarDeclr(
                    d.name@,
                    d.var_type@,
                    match d.value {
                        Some(e) => Some(e@),
                        None => None,
                    },
                ),
                old(ss)@,
            ),
        ),
{
    match check_name(&d.name, ss) {
        Some(e) => {
            return Err(e);
        },
        None => {},
    }
    let declared = match resolve_in_scope(&d.var_type, ss) {
        Ok(t) => t,
        Err(e) => {
            return Err(e);
        },
    };
    match &d.value {
        Some(value) => {
            let given = match value.check_syntax(ss) {
                Ok(t) => t,
                Err(e) => {
                    return Err(e);
                },
            };
            if !types_match(&given, &declared) {
                return Err(SyntaxErr::WrongType(declared, given));
            }
        },
        None => {},
    }
    ss.var_declr(d.name.data(), declared);
    Ok(())
}

/// Checks a `return` statement.
fn check_return_stmt(token: &Token, value: &Expr, ss: &mut ScopeStack) -> (r: Result<
    (),
    SyntaxErr,
>)
    requires
        expr_checkable(value@),
    ensures
        checked_as(r, final(ss)@, check_stmt(StatementModel::ReturnStmt(token@, value@), old(ss)@)),
{
    let actual = match value.check_syntax(ss) {
        Ok(t) => t,
        Err(e) => {
            return Err(e);
        },
    };
    match check_return(token, actual, ss) {
        Some(e) => Err(e),
        None => Ok(()),
    }
}

/// Checks the statements of a list in order.
fn check_items(items: &Vec<Statement>, ss: &mut ScopeStack) -> (r: Result<(), SyntaxErr>)
    requires
        forall|i: int| 0 <= i < items.len() ==> stmt_checkable(#[trigger] items@[i]@),
    ensures
        checked_as(r, final(ss)@, check_all(statement_models(items@), old(ss)@, 0)),
    decreases items, 0nat,
{
    let ghost ms = statement_models(items@);
    proof {
        lemma_statement_models(items@);
    }
    let mut i: usize = 0;
    while i < items.len()
        invariant
            0 <= i <= items.len(),
            ms == statement_models(items@),
            ms.len() == items.len(),
            forall|k: int| 0 <= k < items.len() ==> (#[trigger] ms[k]) == items@[k]@,
            forall|k: int| 0 <= k < items.len() ==> stmt_checkable(#[trigger] items@[k]@),
            check_all(ms, old(ss)@, 0) == check_all(ms, ss@, i as int),
        decreases items.len() - i,
    {
        assert(ms[i as int] == items@[i as int]@);
        match items[i].check_syntax(ss) {
            Ok(_) => {},
            Err(e) => {
                return Err(e);
            },
        }
        i += 1;
    }
    Ok(())
}

/// Checks a block.
fn check_block(body: &Vec<Statement>, ss: &mut ScopeStack) -> (r: Result<(), SyntaxErr>)
    requires
        forall|i: int| 0 <= i < body.len() ==> stmt_checkable(#[trigger] body@[i]@),
    ensures
        checked_as(
            r,
            final(ss)@,
            check_stmt(StatementModel::Block(statement_models(body@)), old(ss)@),
        ),
    decreases body, 1nat,
{
    ss.enter_scope();
    match define_types_in_scope(body, ss) {
        Ok(_) => {},
        Err(e) => {
            return Err(e);
        },
    }
    match check_items(body, ss) {
        Ok(_) => {},
        Err(e) => {
            return Err(e);
        },
    }
    ss.leave_scope();
    Ok(())
}

/// Checks a function declaration.
fn check_fn(d: &FnDeclr, ss: &mut ScopeStack) -> (r: Result<(), SyntaxErr>)
    requires
        stmt_checkable(d.body@),
    ensures
        checked_as(r, final(ss)@, check_stmt(StatementModel::FnDeclr(Box::new(d@)), old(ss)@)),
    decreases d, 0nat,
{
    match check_name(&d.name, ss) {
        Some(e) => {
            return Err(e);
        },
        None => {},
    }
    ss.fn_declr(d.clone());
    ss.enter_func_def();
    let params = params_vec(&d.params);
    match bind(&params, ss) {
        Ok(_) => {},
        Err(e) => {
            return Err(e);
        },
    }
    match find_duplicate(&params) {
        Some(t) => {
            return Err(SyntaxErr::DupParamNames(t));
        },
        None => {},
    }
    match d.body.check_syntax(ss) {
        Ok(_) => {},
        Err(e) => {
            return Err(e);
        },
    }
    ss.leave_func_def();
    Ok(())
}

/// Checks a conditional.
fn check_if(c: &CondStmt, ss: &mut ScopeStack) -> (r: Result<(), SyntaxErr>)
    requires
        expr_checkable(c.cond@),
        stmt_checkable(c.true_branch@),
        c.false_branch is Some ==> stmt_checkable(c.false_branch->Some_0@),
    ensures
        checked_as(
            r,
            final(ss)@,
            check_stmt(
                StatementModel::IfStmt(
                    c.cond@,
                    Box::new(c.true_branch@),
                    match c.false_branch {
                        Some(f) => Some(Box::new(f@)),
                        None => None,
                    },
                ),
                old(ss)@,
            ),
        ),
    decreases c, 0nat,
{
    match c.cond.check_syntax(ss) {
        Ok(_) => {},
        Err(e) => {
            return Err(e);
        },
    }
    match c.true_branch.check_syntax(ss) {
        Ok(_) => {},
        Err(e) => {
            return Err(e);
        },
    }
    match &c.false_branch {
        Some(f) => f.check_syntax(ss),
        None => Ok(()),
    }
}

/// Checks a `while` loop.
fn check_while(c: &CondStmt, ss: &mut ScopeStack) -> (r: Result<(), SyntaxErr>)
    requires
        expr_checkable(c.cond@),
        stmt_checkable(c.true_branch@),
    ensures
        checked_as(
            r,
            final(ss)@,
            check_stmt(
                StatementModel::WhileStmt(
                    c.cond@,
                    Box::new(c.true_branch@),
                    match c.false_branch {
                        Some(f) => Some(Box::new(f@)),
                        None => None,
                    },
                ),
                old(ss)@,
            ),
        ),
    decreases c, 0nat,
{
    match c.cond.check_syntax(ss) {
        Ok(_) => {},
        Err(e) => {
            return Err(e);
        },
    }
    ss.enter_breakable();
    match c.true_branch.check_syntax(ss) {
        Ok(_) => {},
        Err(e) => {
            return Err(e);
        },
    }
    ss.leave_breakable();
    Ok(())
}

impl Statement {
    /// Checks the statement in a scope and leaves the scope as the
    /// statement makes it, or returns the first error met and leaves the
    /// scope as it was when the error was met. A statement that is refused
    /// before it has bound anything so leaves the scope as it found it.
    pub fn check_syntax(&self, ss: &mut ScopeStack) -> (r: Result<(), SyntaxErr>)
        requires
            stmt_checkable(self@),
        ensures
            checked_as(r, final(ss)@, check_stmt(self@, old(ss)@)),
        decreases self, 2nat,
    {
        match self {
            Statement::Block(body) => {
                proof {
                    lemma_statement_models(body@);
                    assert forall|i: int| 0 <= i < body.len() implies stmt_checkable(
                        #[trigger] body@[i]@,
                    ) by {
                        assert(statement_models(body@)[i] == body@[i]@);
                    }
                }
                check_block(body, ss)
            },
            Statement::FnDeclr(d) => check_fn(d, ss),
            Statement::VarDeclr(d) => check_var(d, ss),
            Statement::StructDeclr(_) => Ok(()),
            Statement::EnumDeclr(_) => Ok(()),
            Statement::LoopStmt(body) => {
                ss.enter_breakable();
                match body.check_syntax(ss) {
                    Ok(_) => {},
                    Err(e) => {
                        return Err(e);
                    },
                }
                ss.leave_breakable();
                Ok(())
            },
            Statement::IfStmt(c) => check_if(c, ss),
            Statement::WhileStmt(c) => check_while(c, ss),
            Statement::BreakStmt(t) => {
                if ss.inside_breakable() {
                    Ok(())
                } else {
                    Err(SyntaxErr::BreakOutsideLoop(t.clone()))
                }
            },
            Statement::ReturnStmt(t, value) => check_return_stmt(t, value, ss),
            Statement::ExprStmt(e) => match e.check_syntax(ss) {
                Ok(_) => Ok(()),
                Err(e) => Err(e),
            },
            _ => Ok(()),
        }
    }
}

/// The programs that the rules check: every statement of them is one.
pub open spec fn program_checkable(items: Seq<StatementModel>) -> bool {
    forall|i: int| 0 <= i < items.len() ==> stmt_checkable(#[trigger] items[i])
}

/// An executable result says what the rules say of a program: success
/// where they give no error, else their error.
pub open spec fn program_checked_as(r: Result<(), SyntaxErr>, expected: Checked) -> bool {
    match r {
        Ok(_) => expected.error is None,
        Err(e) => expected.error == Some(e@),
    }
}

/// Checks a whole program from an empty scope: names are declared before
/// they are used and the types agree, or the first error met comes back.
pub fn check_ast_syntax(ast: Vec<Statement>) -> (r: Result<(), SyntaxErr>)
    requires
        program_checkable(statement_models(ast@)),
    ensures
        program_checked_as(r, check_program(statement_models(ast@))),
{
    let mut ss = ScopeStack::new();
    proof {
        lemma_statement_models(ast@);
        assert forall|i: int| 0 <= i < ast.len() implies stmt_checkable(#[trigger] ast@[i]@) by {
            assert(statement_models(ast@)[i] == ast@[i]@);
        }
    }
    match define_types_in_scope(&ast, &mut ss) {
        Ok(_) => {},
        Err(e) => {
            return Err(e);
        },
    }
    check_items(&ast, &mut ss)
}

/// Checking is a function of the program: two checks of programs with the
/// same value both succeed, or both fail with the same error.
pub proof fn lemma_check_is_deterministic(
    first: Seq<StatementModel>,
    second: Seq<StatementModel>,
    r1: Result<(), SyntaxErr>,
    r2: Result<(), SyntaxErr>,
)
    requires
        first == second,
        program_checked_as(r1, check_program(first)),
        program_checked_as(r2, check_program(second)),
    ensures
        r1 is Ok <==> r2 is Ok,
        r1 is Err ==> r1->Err_0@ == r2->Err_0@,
{
}

/// Whether the typing rules cover every expression of a list.
fn all_checkable(es: &Vec<Expr>) -> (r: bool)
    ensures
        r == (forall|i: int| 0 <= i < es.len() ==> expr_checkable(#[trigger] expr_models(es@)[i])),
    decreases es, 0nat,
{
    proof {
        lemma_expr_models(es@);
    }
    let mut i: usize = 0;
    while i < es.len()
        invariant
            0 <= i <= es.len(),
            expr_models(es@).len() == es.len(),
            forall|k: int| 0 <= k < es.len() ==> (#[trigger] expr_models(es@)[k]) == es@[k]@,
            forall|k: int| 0 <= k < i ==> expr_checkable(#[trigger] expr_models(es@)[k]),
        decreases es.len() - i,
    {
        if !es[i].is_checkable() {
            assert(!expr_checkable(expr_models(es@)[i as int]));
            return false;
        }
        i += 1;
    }
    true
}

impl Expr {
    /// Whether the typing rules cover the expression.
    pub fn is_checkable(&self) -> (r: bool)
        ensures
            r == expr_checkable(self@),
        decreases self, 1nat,
    {
        match self {
            Expr::Base => false,
            Expr::Assign(b) => b.left.is_checkable() && b.right.is_checkable(),
            Expr::Equality(b) => b.left.is_checkable() && b.right.is_checkable(),
            Expr::Comparison(b) => b.left.is_checkable() && b.right.is_checkable(),
            Expr::Term(b) => b.left.is_checkable() && b.right.is_checkable(),
            Expr::Shift(b) => b.left.is_checkable() && b.right.is_checkable(),
            Expr::Unary(u) => u.right.is_checkable(),
            Expr::FnCall(c) => {
                proof {
                    lemma_expr_models(c.args@);
                    assert(self@->FnCall_1 == expr_models(c.args@));
                }
                all_checkable(&c.args)
            },
            Expr::Cast(_) => true,
            Expr::Ref(r) => {
                let op = r.operator.data();
                string_is(&op, "*") || string_is(&op, "&")
            },
            Expr::Primary(p) => match &**p {
                PrimaryExpr::Grouping(g) => g.is_checkable(),
                PrimaryExpr::ArrayAccess(_, _) => false,
                _ => true,
            },
        }
    }
}

/// Whether the rules check every statement of a list.
pub fn program_is_checkable(items: &Vec<Statement>) -> (r: bool)
    ensures
        r == program_checkable(statement_models(items@)),
    decreases items, 0nat,
{
    proof {
        lemma_statement_models(items@);
    }
    let mut i: usize = 0;
    while i < items.len()
        invariant
            0 <= i <= items.len(),
            statement_models(items@).len() == items.len(),
            forall|k: int|
                0 <= k < items.len() ==> (#[trigger] statement_models(items@)[k]) == items@[k]@,
            forall|k: int| 0 <= k < i ==> stmt_checkable(#[trigger] statement_models(items@)[k]),
        decreases items.len() - i,
    {
        if !items[i].is_checkable() {
            assert(!stmt_checkable(statement_models(items@)[i as int]));
            return false;
        }
        i += 1;
    }
    true
}

impl Statement {
    /// Whether the rules check the statement.
    pub fn is_checkable(&self) -> (r: bool)
        ensures
            r == stmt_checkable(self@),
        decreases self, 1nat,
    {
        match self {
            Statement::Base => false,
            Statement::Declr => false,
            Statement::Stmt => false,
            Statement::Parameters(_) => false,
            Statement::Variant(_) => false,
            Statement::FnDeclr(d) => d.body.is_checkable(),
            Statement::StructDeclr(_) => true,
            Statement::EnumDeclr(_) => true,
            Statement::VarDeclr(d) => match &d.value {
                Some(e) => e.is_checkable(),
                None => true,
            },
            Statement::LoopStmt(body) => body.is_checkable(),
            Statement::IfStmt(c) => c.cond.is_checkable() && c.true_branch.is_checkable()
                && match &c.false_branch {
                Some(b) => b.is_checkable(),
                None => true,
            },
            Statement::WhileStmt(c) => c.cond.is_checkable() && c.true_branch.is_checkable(),
            Statement::BreakStmt(_) => true,
            Statement::ReturnStmt(_, e) => e.is_checkable(),
            Statement::ExprStmt(e) => e.is_checkable(),
            Statement::Block(items) => {
                proof {
                    lemma_statement_models(items@);
                    assert(self@->Block_0 == statement_models(items@));
                }
                program_is_checkable(items)
            },
        }
    }
}

/// A reference and a dereference undo each other: where `x` is a variable
/// of type `t`, `&x` is of the type of a pointer to `t`; and where `p` is a
/// variable of that type, `*p` is of type `t`.
pub proof fn lemma_pointer_round_trip(
    amp: TokenModel,
    star: TokenModel,
    x: TokenModel,
    p: TokenModel,
    t: VarTypeModel,
    ss: ScopeModel,
)
    requires
        amp.kind.data() == "&"@,
        star.kind.data() == "*"@,
        last_variable(ss.stack, x.kind.data()) == Some(t),
        last_variable(ss.stack, p.kind.data()) == expr_type(ExprModel::Ref(amp, x), ss).ok(),
    ensures
        expr_type(ExprModel::Ref(amp, x), ss) == Ok::<VarTypeModel, SyntaxErrModel>(
            VarTypeModel::Pointer(Box::new(t)),
        ),
        expr_type(ExprModel::Ref(star, p), ss) == Ok::<VarTypeModel, SyntaxErrModel>(t),
{
    reveal_strlit("&");
    reveal_strlit("*");
    assert("&"@[0] != "*"@[0]);
}

/// A name is declared once at a lexical level: behind a variable
/// declaration that passed, a second declaration of the name in the same
/// scope fails, the error names the second name token, and the scope stays
/// as the first declaration left it.
pub proof fn lemma_second_declaration_fails(
    first: StatementModel,
    second: StatementModel,
    ss: ScopeModel,
)
    requires
        first is VarDeclr,
        second is VarDeclr,
        first->VarDeclr_0.kind.data() == second->VarDeclr_0.kind.data(),
        check_stmt(first, ss).is_ok(),
    ensures
        check_stmt(second, check_stmt(first, ss).scope) == Checked::failed(
            check_stmt(first, ss).scope,
            SyntaxErrModel::AlreadyDefined(second->VarDeclr_0),
        ),
{
    let name = first->VarDeclr_0.kind.data();
    let after = check_stmt(first, ss).scope;
    assert(name_error(first->VarDeclr_0, ss) is None);
    assert(!is_reserved(name));
    let declared = resolve_or_unknown(first->VarDeclr_1, ss.defined_types)->Ok_0;
    assert(after == ss.declare_var(name, declared));
    assert(after.used_ids.last() == name);
    assert(after.uses(name));
}

/// A `break` passes in a scope exactly where a loop body is open, and the
/// body of a loop is such a scope from its start on. Refused or not, it
/// leaves the scope as it was.
pub proof fn lemma_break_needs_a_loop(token: TokenModel, ss: ScopeModel)
    ensures
        check_stmt(StatementModel::BreakStmt(token), ss).is_ok() <==> ss.inside_breakable(),
        !ss.inside_breakable() ==> check_stmt(StatementModel::BreakStmt(token), ss)
            == Checked::failed(ss, SyntaxErrModel::BreakOutsideLoop(token)),
        check_stmt(StatementModel::BreakStmt(token), ss).scope == ss,
        ss.mark(ScopeOpModel::EnterBreakable).inside_breakable(),
        ss.mark(ScopeOpModel::EnterBreakable).enter_scope().inside_breakable(),
{
    let marked = ss.mark(ScopeOpModel::EnterBreakable);
    assert(marked.stack[ss.stack.len() as int] is EnterBreakable);
    assert(marked.enter_scope().stack[ss.stack.len() as int] is EnterBreakable);
}

/// A statement that binds nothing leaves the scope as it was where it is
/// refused: a `return`, a `break`, an expression statement, and a variable
/// declaration, which binds its name only where it passes.
pub proof fn lemma_refused_statement_keeps_scope(s: StatementModel, ss: ScopeModel)
    requires
        s is ReturnStmt || s is BreakStmt || s is ExprStmt || s is VarDeclr,
        !check_stmt(s, ss).is_ok(),
    ensures
        check_stmt(s, ss).scope == ss,
{
}

/// A call must give as many arguments as the function bound last under its
/// name takes.
pub proof fn lemma_arity_is_checked(name: TokenModel, args: Seq<ExprModel>, ss: ScopeModel)
    requires
        last_function(ss.stack, name.kind.data()) is Some,
        args.len() != params_of(last_function(ss.stack, name.kind.data())->Some_0.params).len(),
    ensures
        expr_type(ExprModel::FnCall(name, args), ss) == Err::<VarTypeModel, SyntaxErrModel>(
            SyntaxErrModel::WrongArgN(name),
        ),
{
}

} // verus!
