use vstd::prelude::*;
use vstd::string::*;
use crate::definitions::{
    blank_token, blank_token_model, parse_type, type_at, DeclrType, DeclrTypeModel, Token,
    TokenKind, TokenModel, TokenType,
};
use crate::parser::{agrees, forward, kind_at, remaining, Parsed, Parser};
use crate::text::str_eq;

verus! {

/// The mathematical value of an expression. The binary levels hold the left
/// operand, the operator token and the right operand.
pub enum ExprModel {
    Base,
    Assign(Box<ExprModel>, TokenModel, Box<ExprModel>),
    Equality(Box<ExprModel>, TokenModel, Box<ExprModel>),
    Comparison(Box<ExprModel>, TokenModel, Box<ExprModel>),
    Term(Box<ExprModel>, TokenModel, Box<ExprModel>),
    Shift(Box<ExprModel>, TokenModel, Box<ExprModel>),
    Unary(TokenModel, Box<ExprModel>),
    FnCall(TokenModel, Seq<ExprModel>),
    Cast(Box<ExprModel>, DeclrTypeModel),
    Ref(TokenModel, TokenModel),
    Grouping(Box<ExprModel>),
    Literal(TokenModel),
    Id(TokenModel),
    StructField(TokenModel, TokenModel),
    EnumVariant(TokenModel, TokenModel),
    ArrayAccess(TokenModel, Box<ExprModel>),
}

/// An expression, with one variant for each level of the grammar. `Base`
/// is the placeholder for the loosest level and stands in no parsed
/// expression.
#[derive(Debug)]
pub enum Expr {
    Base,
    Assign(Box<BinaryExpr>),
    Equality(Box<BinaryExpr>),
    Comparison(Box<BinaryExpr>),
    Term(Box<BinaryExpr>),
    Shift(Box<BinaryExpr>),
    Unary(Box<UnaryExpr>),
    FnCall(FnCall),
    Cast(Box<Cast>),
    Ref(Ref),
    Primary(Box<PrimaryExpr>),
}

/// An expression of the tightest level.
#[derive(Debug)]
pub enum PrimaryExpr {
    Grouping(Expr),
    Literal(Token),
    Id(Token),
    StructField(Token, Token),
    EnumVariant(Token, Token),
    ArrayAccess(Token, Expr),
}

/// Two operands and the operator between them.
#[derive(Debug)]
pub struct BinaryExpr {
    pub left: Expr,
    pub operator: Token,
    pub right: Expr,
}

/// A prefix operator and its operand.
#[derive(Debug)]
pub struct UnaryExpr {
    pub operator: Token,
    pub right: Expr,
}

/// A value and the type it is cast to.
#[derive(Debug)]
pub struct Cast {
    pub value: Expr,
    pub to_type: DeclrType,
}

/// The operator `&` or `*` and the identifier it is applied to.
#[derive(Debug)]
pub struct Ref {
    pub operator: Token,
    pub right: Token,
}

/// The name of a function and the arguments it is called with.
#[derive(Debug)]
pub struct FnCall {
    pub name: Token,
    pub args: Vec<Expr>,
}

/// The value of an expression.
pub open spec fn expr_model(e: Expr) -> ExprModel
    decreases e,
{
    match e {
        Expr::Base => ExprModel::Base,
        Expr::Assign(b) => ExprModel::Assign(
            Box::new(expr_model(b.left)),
            b.operator@,
            Box::new(expr_model(b.right)),
        ),
        Expr::Equality(b) => ExprModel::Equality(
            Box::new(expr_model(b.left)),
            b.operator@,
            Box::new(expr_model(b.right)),
        ),
        Expr::Comparison(b) => ExprModel::Comparison(
            Box::new(expr_model(b.left)),
            b.operator@,
            Box::new(expr_model(b.right)),
        ),
        Expr::Term(b) => ExprModel::Term(
            Box::new(expr_model(b.left)),
            b.operator@,
            Box::new(expr_model(b.right)),
        ),
        Expr::Shift(b) => ExprModel::Shift(
            Box::new(expr_model(b.left)),
            b.operator@,
            Box::new(expr_model(b.right)),
        ),
        Expr::Unary(u) => ExprModel::Unary(u.operator@, Box::new(expr_model(u.right))),
        Expr::FnCall(c) => ExprModel::FnCall(c.name@, expr_models(c.args@)),
        Expr::Cast(c) => ExprModel::Cast(Box::new(expr_model(c.value)), c.to_type@),
        Expr::Ref(r) => ExprModel::Ref(r.operator@, r.right@),
        Expr::Primary(p) => match *p {
            PrimaryExpr::Grouping(e) => ExprModel::Grouping(Box::new(expr_model(e))),
            PrimaryExpr::Literal(t) => ExprModel::Literal(t@),
            PrimaryExpr::Id(t) => ExprModel::Id(t@),
            PrimaryExpr::StructField(s, f) => ExprModel::StructField(s@, f@),
            PrimaryExpr::EnumVariant(e, v) => ExprModel::EnumVariant(e@, v@),
            PrimaryExpr::ArrayAccess(a, i) => ExprModel::ArrayAccess(a@, Box::new(expr_model(i))),
        },
    }
}

/// The value of a primary expression.
pub open spec fn primary_model(p: PrimaryExpr) -> ExprModel {
    match p {
        PrimaryExpr::Grouping(e) => ExprModel::Grouping(Box::new(expr_model(e))),
        PrimaryExpr::Literal(t) => ExprModel::Literal(t@),
        PrimaryExpr::Id(t) => ExprModel::Id(t@),
        PrimaryExpr::StructField(s, f) => ExprModel::StructField(s@, f@),
        PrimaryExpr::EnumVariant(e, v) => ExprModel::EnumVariant(e@, v@),
        PrimaryExpr::ArrayAccess(a, i) => ExprModel::ArrayAccess(a@, Box::new(expr_model(i))),
    }
}

impl View for Expr {
    type V = ExprModel;

    open spec fn view(&self) -> ExprModel {
        expr_model(*self)
    }
}

impl View for PrimaryExpr {
    type V = ExprModel;

    open spec fn view(&self) -> ExprModel {
        primary_model(*self)
    }
}

/// The values of a sequence of expressions, in order.
pub open spec fn expr_models(es: Seq<Expr>) -> Seq<ExprModel>
    decreases es,
{
    if es.len() == 0 {
        Seq::empty()
    } else {
        expr_models(es.drop_last()).push(expr_model(es.last()))
    }
}

/// `expr_models` takes the value of each expression in its place.
pub proof fn lemma_expr_models(es: Seq<Expr>)
    ensures
        expr_models(es).len() == es.len(),
        forall|i: int| 0 <= i < es.len() ==> (#[trigger] expr_models(es)[i]) == es[i]@,
    decreases es.len(),
{
    if es.len() > 0 {
        lemma_expr_models(es.drop_last());
    }
}

/// The values of a sequence with one more expression at its end.
pub proof fn lemma_expr_models_push(es: Seq<Expr>, e: Expr)
    ensures
        expr_models(es.push(e)) == expr_models(es).push(e@),
{
    assert(es.push(e).drop_last() =~= es);
}

/// A copy of a list of expressions.
pub fn clone_exprs(es: &Vec<Expr>) -> (r: Vec<Expr>)
    ensures
        expr_models(r@) == expr_models(es@),
    decreases es, 0nat,
{
    let mut v: Vec<Expr> = Vec::new();
    let mut i: usize = 0;
    while i < es.len()
        invariant
            0 <= i <= es.len(),
            v.len() == i,
            expr_models(v@) == expr_models(es@.take(i as int)),
        decreases es.len() - i,
    {
        let c = es[i].clone();
        proof {
            lemma_expr_models_push(v@, c);
            lemma_expr_models_push(es@.take(i as int), es@[i as int]);
            assert(es@.take(i as int).push(es@[i as int]) =~= es@.take(i + 1));
        }
        v.push(c);
        i += 1;
    }
    assert(es@.take(es.len() as int) =~= es@);
    v
}

fn clone_binary(b: &BinaryExpr) -> (r: BinaryExpr)
    ensures
        r.left@ == b.left@,
        r.operator@ == b.operator@,
        r.right@ == b.right@,
    decreases b, 0nat,
{
    BinaryExpr { left: b.left.clone(), operator: b.operator.clone(), right: b.right.clone() }
}

fn clone_primary(p: &PrimaryExpr) -> (r: PrimaryExpr)
    ensures
        r@ == p@,
    decreases p, 0nat,
{
    match p {
        PrimaryExpr::Grouping(e) => PrimaryExpr::Grouping(e.clone()),
        PrimaryExpr::Literal(t) => PrimaryExpr::Literal(t.clone()),
        PrimaryExpr::Id(t) => PrimaryExpr::Id(t.clone()),
        PrimaryExpr::StructField(s, f) => PrimaryExpr::StructField(s.clone(), f.clone()),
        PrimaryExpr::EnumVariant(e, v) => PrimaryExpr::EnumVariant(e.clone(), v.clone()),
        PrimaryExpr::ArrayAccess(a, i) => PrimaryExpr::ArrayAccess(a.clone(), i.clone()),
    }
}

impl Clone for PrimaryExpr {
    fn clone(&self) -> (r: Self)
        ensures
            r@ == self@,
    {
        clone_primary(self)
    }
}

impl Clone for Expr {
    fn clone(&self) -> (r: Self)
        ensures
            r@ == self@,
        decreases self, 1nat,
    {
        match self {
            Expr::Base => Expr::Base,
            Expr::Assign(b) => Expr::Assign(Box::new(clone_binary(b))),
            Expr::Equality(b) => Expr::Equality(Box::new(clone_binary(b))),
            Expr::Comparison(b) => Expr::Comparison(Box::new(clone_binary(b))),
            Expr::Term(b) => Expr::Term(Box::new(clone_binary(b))),
            Expr::Shift(b) => Expr::Shift(Box::new(clone_binary(b))),
            Expr::Unary(u) => Expr::Unary(
                Box::new(UnaryExpr { operator: u.operator.clone(), right: u.right.clone() }),
            ),
            Expr::FnCall(c) => {
                let args = clone_exprs(&c.args);
                Expr::FnCall(FnCall { name: c.name.clone(), args })
            },
            Expr::Cast(c) => Expr::Cast(
                Box::new(Cast { value: c.value.clone(), to_type: c.to_type.clone() }),
            ),
            Expr::Ref(r) => Expr::Ref(Ref { operator: r.operator.clone(), right: r.right.clone() }),
            Expr::Primary(p) => Expr::Primary(Box::new(clone_primary(p))),
        }
    }
}



impl Expr {
    /// The assign-level expression of two operands and their operator.
    pub fn new_assign(left: Expr, operator: Token, right: Expr) -> (r: Expr)
        ensures
            r@ == ExprModel::Assign(Box::new(left@), operator@, Box::new(right@)),
    {
        Expr::Assign(Box::new(BinaryExpr { left, operator, right }))
    }

    /// The equality-level expression of two operands and their operator.
    pub fn new_equality(left: Expr, operator: Token, right: Expr) -> (r: Expr)
        ensures
            r@ == ExprModel::Equality(Box::new(left@), operator@, Box::new(right@)),
    {
        Expr::Equality(Box::new(BinaryExpr { left, operator, right }))
    }

    /// The comparison-level expression of two operands and their operator.
    pub fn new_comparison(left: Expr, operator: Token, right: Expr) -> (r: Expr)
        ensures
            r@ == ExprModel::Comparison(Box::new(left@), operator@, Box::new(right@)),
    {
        Expr::Comparison(Box::new(BinaryExpr { left, operator, right }))
    }

    /// The term-level expression of two operands and their operator.
    pub fn new_term(left: Expr, operator: Token, right: Expr) -> (r: Expr)
        ensures
            r@ == ExprModel::Term(Box::new(left@), operator@, Box::new(right@)),
    {
        Expr::Term(Box::new(BinaryExpr { left, operator, right }))
    }

    /// The shift-level expression of two operands and their operator.
    pub fn new_shift(left: Expr, operator: Token, right: Expr) -> (r: Expr)
        ensures
            r@ == ExprModel::Shift(Box::new(left@), operator@, Box::new(right@)),
    {
        Expr::Shift(Box::new(BinaryExpr { left, operator, right }))
    }

    /// The prefix operator applied to an operand.
    pub fn new_unary(operator: Token, right: Expr) -> (r: Expr)
        ensures
            r@ == ExprModel::Unary(operator@, Box::new(right@)),
    {
        Expr::Unary(Box::new(UnaryExpr { operator, right }))
    }

    /// The call of a function by name with its arguments.
    pub fn new_call(name: Token, args: Vec<Expr>) -> (r: Expr)
        ensures
            r@ == ExprModel::FnCall(name@, expr_models(args@)),
    {
        Expr::FnCall(FnCall { name, args })
    }

    /// The cast of a value to a type.
    pub fn new_cast(value: Expr, to_type: DeclrType) -> (r: Expr)
        ensures
            r@ == ExprModel::Cast(Box::new(value@), to_type@),
    {
        Expr::Cast(Box::new(Cast { value, to_type }))
    }

    /// The reference or dereference of an identifier.
    pub fn new_ref(operator: Token, right: Token) -> (r: Expr)
        ensures
            r@ == ExprModel::Ref(operator@, right@),
    {
        Expr::Ref(Ref { operator, right })
    }

    /// An expression in parentheses.
    pub fn new_grouping(inner: Expr) -> (r: Expr)
        ensures
            r@ == ExprModel::Grouping(Box::new(inner@)),
    {
        Expr::Primary(Box::new(PrimaryExpr::Grouping(inner)))
    }

    /// A literal.
    pub fn new_literal(token: Token) -> (r: Expr)
        ensures
            r@ == ExprModel::Literal(token@),
    {
        Expr::Primary(Box::new(PrimaryExpr::Literal(token)))
    }

    /// An identifier.
    pub fn new_id(token: Token) -> (r: Expr)
        ensures
            r@ == ExprModel::Id(token@),
    {
        Expr::Primary(Box::new(PrimaryExpr::Id(token)))
    }

    /// The field of a struct held by an identifier.
    pub fn new_struct_field(owner: Token, field: Token) -> (r: Expr)
        ensures
            r@ == ExprModel::StructField(owner@, field@),
    {
        Expr::Primary(Box::new(PrimaryExpr::StructField(owner, field)))
    }

    /// The variant of an enum.
    pub fn new_enum_variant(owner: Token, variant: Token) -> (r: Expr)
        ensures
            r@ == ExprModel::EnumVariant(owner@, variant@),
    {
        Expr::Primary(Box::new(PrimaryExpr::EnumVariant(owner, variant)))
    }

    /// The element of an array held by an identifier.
    pub fn new_array_access(array: Token, index: Expr) -> (r: Expr)
        ensures
            r@ == ExprModel::ArrayAccess(array@, Box::new(index@)),
    {
        Expr::Primary(Box::new(PrimaryExpr::ArrayAccess(array, index)))
    }
}

/// The operators of the equality level.
pub open spec fn is_equality_op(k: TokenKind) -> bool {
    k == TokenKind::Cond("=="@) || k == TokenKind::Cond("!="@)
}

/// The operators of the comparison level.
pub open spec fn is_comparison_op(k: TokenKind) -> bool {
    k == TokenKind::Cond("<"@) || k == TokenKind::Cond(">"@) || k == TokenKind::Cond("<="@) || k
        == TokenKind::Cond(">="@)
}

/// The operators of the term level.
pub open spec fn is_term_op(k: TokenKind) -> bool {
    k == TokenKind::Op("-"@) || k == TokenKind::Op("+"@)
}

/// The operators of the shift level.
pub open spec fn is_shift_op(k: TokenKind) -> bool {
    k == TokenKind::Op("<<"@) || k == TokenKind::Op(">>"@)
}

/// The prefix operators of the unary level.
pub open spec fn is_unary_op(k: TokenKind) -> bool {
    k == TokenKind::Op("-"@) || k == TokenKind::Op("!"@)
}

/// The prefix operators that take or follow a reference.
pub open spec fn is_ref_op(k: TokenKind) -> bool {
    k == TokenKind::Op("*"@) || k == TokenKind::Op("&"@)
}

/// The loosest level: an equality chain, and behind an `=` a whole
/// assignment again, so that `=` groups to the right.
pub open spec fn assign_at(toks: Seq<TokenModel>, pos: int) -> Parsed<ExprModel>
    decreases remaining(toks, pos), 20nat,
{
    match forward(toks, pos, equality_at(toks, pos)) {
        Parsed::Failed { msg, at } => Parsed::Failed { msg, at },
        Parsed::Done { value, next } => if kind_at(toks, next) == TokenKind::Op("="@) {
            match assign_at(toks, next + 1) {
                Parsed::Failed { msg, at } => Parsed::Failed { msg, at },
                Parsed::Done { value: right, next: end } => Parsed::Done {
                    value: ExprModel::Assign(Box::new(value), toks[next], Box::new(right)),
                    next: end,
                },
            }
        } else {
            Parsed::Done { value, next }
        },
    }
}

/// A chain of comparisons joined by `==` or `!=`, grouped to the left.
pub open spec fn equality_at(toks: Seq<TokenModel>, pos: int) -> Parsed<ExprModel>
    decreases remaining(toks, pos), 18nat,
{
    match forward(toks, pos, comparison_at(toks, pos)) {
        Parsed::Failed { msg, at } => Parsed::Failed { msg, at },
        Parsed::Done { value, next } => equality_tail(toks, value, next),
    }
}

/// The rest of a chain at this level, with `left` read so far: while an
/// operator of the level stands at `pos`, the operand behind it joins `left`
/// on the left.
pub open spec fn equality_tail(toks: Seq<TokenModel>, left: ExprModel, pos: int) -> Parsed<ExprModel>
    decreases remaining(toks, pos), 17nat,
{
    if is_equality_op(kind_at(toks, pos)) {
        match forward(toks, pos + 1, comparison_at(toks, pos + 1)) {
            Parsed::Failed { msg, at } => Parsed::Failed { msg, at },
            Parsed::Done { value, next } => equality_tail(
                toks,
                ExprModel::Equality(Box::new(left), toks[pos], Box::new(value)),
                next,
            ),
        }
    } else {
        Parsed::Done { value: left, next: pos }
    }
}

/// A chain of terms joined by `<`, `>`, `<=` or `>=`, grouped to the left.
pub open spec fn comparison_at(toks: Seq<TokenModel>, pos: int) -> Parsed<ExprModel>
    decreases remaining(toks, pos), 16nat,
{
    match forward(toks, pos, term_at(toks, pos)) {
        Parsed::Failed { msg, at } => Parsed::Failed { msg, at },
        Parsed::Done { value, next } => comparison_tail(toks, value, next),
    }
}

/// The rest of a chain at this level, with `left` read so far: while an
/// operator of the level stands at `pos`, the operand behind it joins `left`
/// on the left.
pub open spec fn comparison_tail(toks: Seq<TokenModel>, left: ExprModel, pos: int) -> Parsed<ExprModel>
    decreases remaining(toks, pos), 15nat,
{
    if is_comparison_op(kind_at(toks, pos)) {
        match forward(toks, pos + 1, term_at(toks, pos + 1)) {
            Parsed::Failed { msg, at } => Parsed::Failed { msg, at },
            Parsed::Done { value, next } => comparison_tail(
                toks,
                ExprModel::Comparison(Box::new(left), toks[pos], Box::new(value)),
                next,
            ),
        }
    } else {
        Parsed::Done { value: left, next: pos }
    }
}

/// A chain of shifts joined by `+` or `-`, grouped to the left.
pub open spec fn term_at(toks: Seq<TokenModel>, pos: int) -> Parsed<ExprModel>
    decreases remaining(toks, pos), 14nat,
{
    match forward(toks, pos, shift_at(toks, pos)) {
        Parsed::Failed { msg, at } => Parsed::Failed { msg, at },
        Parsed::Done { value, next } => term_tail(toks, value, next),
    }
}

/// The rest of a chain at this level, with `left` read so far: while an
/// operator of the level stands at `pos`, the operand behind it joins `left`
/// on the left.
pub open spec fn term_tail(toks: Seq<TokenModel>, left: ExprModel, pos: int) -> Parsed<ExprModel>
    decreases remaining(toks, pos), 13nat,
{
    if is_term_op(kind_at(toks, pos)) {
        match forward(toks, pos + 1, shift_at(toks, pos + 1)) {
            Parsed::Failed { msg, at } => Parsed::Failed { msg, at },
            Parsed::Done { value, next } => term_tail(
                toks,
                ExprModel::Term(Box::new(left), toks[pos], Box::new(value)),
                next,
            ),
        }
    } else {
        Parsed::Done { value: left, next: pos }
    }
}

/// A unary expression, and behind each `<<` or `>>` a primary expression:
/// the right operand of a shift is read at the tightest level.
pub open spec fn shift_at(toks: Seq<TokenModel>, pos: int) -> Parsed<ExprModel>
    decreases remaining(toks, pos), 12nat,
{
    match forward(toks, pos, unary_at(toks, pos)) {
        Parsed::Failed { msg, at } => Parsed::Failed { msg, at },
        Parsed::Done { value, next } => shift_tail(toks, value, next),
    }
}

/// The rest of a shift chain, with `left` read so far.
pub open spec fn shift_tail(toks: Seq<TokenModel>, left: ExprModel, pos: int) -> Parsed<ExprModel>
    decreases remaining(toks, pos), 11nat,
{
    if is_shift_op(kind_at(toks, pos)) {
        match forward(toks, pos + 1, primary_at(toks, pos + 1)) {
            Parsed::Failed { msg, at } => Parsed::Failed { msg, at },
            Parsed::Done { value, next } => shift_tail(
                toks,
                ExprModel::Shift(Box::new(left), toks[pos], Box::new(value)),
                next,
            ),
        }
    } else {
        Parsed::Done { value: left, next: pos }
    }
}

/// A `-` or `!` before a call-level expression, or that expression alone.
pub open spec fn unary_at(toks: Seq<TokenModel>, pos: int) -> Parsed<ExprModel>
    decreases remaining(toks, pos), 10nat,
{
    if is_unary_op(kind_at(toks, pos)) {
        match call_at(toks, pos + 1) {
            Parsed::Failed { msg, at } => Parsed::Failed { msg, at },
            Parsed::Done { value, next } => Parsed::Done {
                value: ExprModel::Unary(toks[pos], Box::new(value)),
                next,
            },
        }
    } else {
        call_at(toks, pos)
    }
}

/// An identifier directly before `(` starts a call, whose arguments are
/// assignment-level expressions between commas; anything else is read at
/// the cast level.
pub open spec fn call_at(toks: Seq<TokenModel>, pos: int) -> Parsed<ExprModel>
    decreases remaining(toks, pos), 9nat,
{
    if kind_at(toks, pos) is Id && kind_at(toks, pos + 1) == TokenKind::ParenOpen {
        if kind_at(toks, pos + 2) == TokenKind::ParenClose {
            Parsed::Done { value: ExprModel::FnCall(toks[pos], Seq::empty()), next: pos + 3 }
        } else {
            match call_args(toks, Seq::empty(), pos + 2) {
                Parsed::Failed { msg, at } => Parsed::Failed { msg, at },
                Parsed::Done { value, next } => Parsed::Done {
                    value: ExprModel::FnCall(toks[pos], value),
                    next,
                },
            }
        }
    } else {
        cast_at(toks, pos)
    }
}

/// The arguments from `pos` up to and with the closing parenthesis, behind
/// those read so far.
pub open spec fn call_args(toks: Seq<TokenModel>, args: Seq<ExprModel>, pos: int) -> Parsed<
    Seq<ExprModel>,
>
    decreases remaining(toks, pos), 21nat,
{
    match forward(toks, pos, assign_at(toks, pos)) {
        Parsed::Failed { msg, at } => Parsed::Failed { msg, at },
        Parsed::Done { value, next } => if kind_at(toks, next) == TokenKind::ParenClose {
            Parsed::Done { value: args.push(value), next: next + 1 }
        } else if kind_at(toks, next) != TokenKind::Comma {
            Parsed::Failed {
                msg: "Expected Function Arguments to be Seperated by Commas"@,
                at: next,
            }
        } else {
            call_args(toks, args.push(value), next + 1)
        },
    }
}

/// A reference-level expression, and behind `as` the type it is cast to.
pub open spec fn cast_at(toks: Seq<TokenModel>, pos: int) -> Parsed<ExprModel>
    decreases remaining(toks, pos), 8nat,
{
    match ref_at(toks, pos) {
        Parsed::Failed { msg, at } => Parsed::Failed { msg, at },
        Parsed::Done { value, next } => if kind_at(toks, next) == TokenKind::Op("as"@) {
            match type_at(toks, next + 1) {
                Parsed::Failed { msg, at } => Parsed::Failed { msg, at },
                Parsed::Done { value: to_type, next: end } => Parsed::Done {
                    value: ExprModel::Cast(Box::new(value), to_type),
                    next: end,
                },
            }
        } else {
            Parsed::Done { value, next }
        },
    }
}

/// A `*` or `&` before a single identifier, or a primary expression.
pub open spec fn ref_at(toks: Seq<TokenModel>, pos: int) -> Parsed<ExprModel>
    decreases remaining(toks, pos), 7nat,
{
    if is_ref_op(kind_at(toks, pos)) {
        if kind_at(toks, pos + 1) is Id {
            Parsed::Done { value: ExprModel::Ref(toks[pos], toks[pos + 1]), next: pos + 2 }
        } else {
            Parsed::Failed { msg: "Expected Identifier to Reference"@, at: pos + 1 }
        }
    } else {
        primary_at(toks, pos)
    }
}

/// The tightest level. A parenthesis opens a grouping. An identifier is the
/// start of an enum variant before `: : Id`, else of a struct field before
/// `. Id`, else of an array access before `[`, else it stands alone. A
/// literal stands alone.
pub open spec fn primary_at(toks: Seq<TokenModel>, pos: int) -> Parsed<ExprModel>
    decreases remaining(toks, pos), 6nat,
{
    let k = kind_at(toks, pos);
    if k == TokenKind::ParenOpen {
        match assign_at(toks, pos + 1) {
            Parsed::Failed { msg, at } => Parsed::Failed { msg, at },
            Parsed::Done { value, next } => if kind_at(toks, next) == TokenKind::ParenClose {
                Parsed::Done { value: ExprModel::Grouping(Box::new(value)), next: next + 1 }
            } else {
                Parsed::Failed { msg: "Expected Closing Parentheses"@, at: next }
            },
        }
    } else if k is Id && kind_at(toks, pos + 1) == TokenKind::Col && kind_at(toks, pos + 2)
        == TokenKind::Col && kind_at(toks, pos + 3) is Id {
        Parsed::Done { value: ExprModel::EnumVariant(toks[pos], toks[pos + 3]), next: pos + 4 }
    } else if k is Id && kind_at(toks, pos + 1) == TokenKind::Period && kind_at(toks, pos + 2) is Id {
        Parsed::Done { value: ExprModel::StructField(toks[pos], toks[pos + 2]), next: pos + 3 }
    } else if k is Id && kind_at(toks, pos + 1) == TokenKind::SquareOpen {
        match assign_at(toks, pos + 2) {
            Parsed::Failed { msg, at } => Parsed::Failed { msg, at },
            Parsed::Done { value, next } => if kind_at(toks, next) == TokenKind::SquareClose {
                Parsed::Done {
                    value: ExprModel::ArrayAccess(toks[pos], Box::new(value)),
                    next: next + 1,
                }
            } else {
                Parsed::Failed {
                    msg: "Expected Closing Square Bracket after Array Access"@,
                    at: next,
                }
            },
        }
    } else if k is Lit {
        Parsed::Done { value: ExprModel::Literal(toks[pos]), next: pos + 1 }
    } else if k is Id {
        Parsed::Done { value: ExprModel::Id(toks[pos]), next: pos + 1 }
    } else {
        Parsed::Failed { msg: "Expected Expression"@, at: pos }
    }
}


/// Reads an assignment-level expression at the cursor.
pub(crate) fn parse_assign(p: &mut Parser) -> (r: Result<Expr, &'static str>)
    requires
        old(p).wf(),
    ensures
        final(p).stepped(*old(p), r is Ok),
        agrees(r, final(p).ptr, assign_at(old(p).toks(), old(p).ptr as int)),
    decreases old(p).tokens.len() - old(p).ptr, 20nat,
{
    let left = match parse_equality(p) {
        Ok(e) => e,
        Err(m) => {
            return Err(m);
        },
    };
    if p.at_op("=") {
        let operator = p.peek(0);
        p.advance();
        let right = match parse_assign(p) {
            Ok(e) => e,
            Err(m) => {
                return Err(m);
            },
        };
        Ok(Expr::new_assign(left, operator, right))
    } else {
        Ok(left)
    }
}

/// Reads an equality-level expression at the cursor.
pub(crate) fn parse_equality(p: &mut Parser) -> (r: Result<Expr, &'static str>)
    requires
        old(p).wf(),
    ensures
        final(p).stepped(*old(p), r is Ok),
        agrees(r, final(p).ptr, equality_at(old(p).toks(), old(p).ptr as int)),
    decreases old(p).tokens.len() - old(p).ptr, 18nat,
{
    let ghost toks = p.toks();
    let ghost start = p.ptr as int;
    let mut e = match parse_comparison(p) {
        Ok(e) => e,
        Err(m) => {
            return Err(m);
        },
    };
    loop
        invariant
            p.stepped(*old(p), true),
            toks == old(p).toks(),
            start == old(p).ptr,
            equality_at(toks, start) == equality_tail(toks, e@, p.ptr as int),
        decreases p.tokens.len() - p.ptr,
    {
        if !(p.at_cond("==") || p.at_cond("!=")) {
            return Ok(e);
        }
        let operator = p.peek(0);
        p.advance();
        let right = match parse_comparison(p) {
            Ok(e) => e,
            Err(m) => {
                return Err(m);
            },
        };
        e = Expr::new_equality(e, operator, right);
    }
}

/// Reads a comparison-level expression at the cursor.
pub(crate) fn parse_comparison(p: &mut Parser) -> (r: Result<Expr, &'static str>)
    requires
        old(p).wf(),
    ensures
        final(p).stepped(*old(p), r is Ok),
        agrees(r, final(p).ptr, comparison_at(old(p).toks(), old(p).ptr as int)),
    decreases old(p).tokens.len() - old(p).ptr, 16nat,
{
    let ghost toks = p.toks();
    let ghost start = p.ptr as int;
    let mut e = match parse_term(p) {
        Ok(e) => e,
        Err(m) => {
            return Err(m);
        },
    };
    loop
        invariant
            p.stepped(*old(p), true),
            toks == old(p).toks(),
            start == old(p).ptr,
            comparison_at(toks, start) == comparison_tail(toks, e@, p.ptr as int),
        decreases p.tokens.len() - p.ptr,
    {
        if !(p.at_cond("<") || p.at_cond(">") || p.at_cond("<=") || p.at_cond(">=")) {
            return Ok(e);
        }
        let operator = p.peek(0);
        p.advance();
        let right = match parse_term(p) {
            Ok(e) => e,
            Err(m) => {
                return Err(m);
            },
        };
        e = Expr::new_comparison(e, operator, right);
    }
}

/// Reads a term-level expression at the cursor.
pub(crate) fn parse_term(p: &mut Parser) -> (r: Result<Expr, &'static str>)
    requires
        old(p).wf(),
    ensures
        final(p).stepped(*old(p), r is Ok),
        agrees(r, final(p).ptr, term_at(old(p).toks(), old(p).ptr as int)),
    decreases old(p).tokens.len() - old(p).ptr, 14nat,
{
    let ghost toks = p.toks();
    let ghost start = p.ptr as int;
    let mut e = match parse_shift(p) {
        Ok(e) => e,
        Err(m) => {
            return Err(m);
        },
    };
    loop
        invariant
            p.stepped(*old(p), true),
            toks == old(p).toks(),
            start == old(p).ptr,
            term_at(toks, start) == term_tail(toks, e@, p.ptr as int),
        decreases p.tokens.len() - p.ptr,
    {
        if !(p.at_op("-") || p.at_op("+")) {
            return Ok(e);
        }
        let operator = p.peek(0);
        p.advance();
        let right = match parse_shift(p) {
            Ok(e) => e,
            Err(m) => {
                return Err(m);
            },
        };
        e = Expr::new_term(e, operator, right);
    }
}

/// Reads a shift-level expression at the cursor.
pub(crate) fn parse_shift(p: &mut Parser) -> (r: Result<Expr, &'static str>)
    requires
        old(p).wf(),
    ensures
        final(p).stepped(*old(p), r is Ok),
        agrees(r, final(p).ptr, shift_at(old(p).toks(), old(p).ptr as int)),
    decreases old(p).tokens.len() - old(p).ptr, 12nat,
{
    let ghost toks = p.toks();
    let ghost start = p.ptr as int;
    let mut e = match parse_unary(p) {
        Ok(e) => e,
        Err(m) => {
            return Err(m);
        },
    };
    loop
        invariant
            p.stepped(*old(p), true),
            toks == old(p).toks(),
            start == old(p).ptr,
            shift_at(toks, start) == shift_tail(toks, e@, p.ptr as int),
        decreases p.tokens.len() - p.ptr,
    {
        if !(p.at_op("<<") || p.at_op(">>")) {
            return Ok(e);
        }
        let operator = p.peek(0);
        p.advance();
        let right = match parse_primary(p) {
            Ok(e) => e,
            Err(m) => {
                return Err(m);
            },
        };
        e = Expr::new_shift(e, operator, right);
    }
}

/// Reads a unary-level expression at the cursor.
pub(crate) fn parse_unary(p: &mut Parser) -> (r: Result<Expr, &'static str>)
    requires
        old(p).wf(),
    ensures
        final(p).stepped(*old(p), r is Ok),
        agrees(r, final(p).ptr, unary_at(old(p).toks(), old(p).ptr as int)),
    decreases old(p).tokens.len() - old(p).ptr, 10nat,
{
    if p.at_op("-") || p.at_op("!") {
        let operator = p.peek(0);
        p.advance();
        let right = match parse_call(p) {
            Ok(e) => e,
            Err(m) => {
                return Err(m);
            },
        };
        Ok(Expr::new_unary(operator, right))
    } else {
        parse_call(p)
    }
}

/// Reads a call or a cast-level expression at the cursor.
pub(crate) fn parse_call(p: &mut Parser) -> (r: Result<Expr, &'static str>)
    requires
        old(p).wf(),
    ensures
        final(p).stepped(*old(p), r is Ok),
        agrees(r, final(p).ptr, call_at(old(p).toks(), old(p).ptr as int)),
    decreases old(p).tokens.len() - old(p).ptr, 9nat,
{
    if !(p.at_id() && ahead_is(p, 1, &TokenType::ParenOpen)) {
        return parse_cast(p);
    }
    let name = p.peek(0);
    p.advance();
    p.advance();
    if p.at(&TokenType::ParenClose) {
        p.advance();
        let args: Vec<Expr> = Vec::new();
        return Ok(Expr::new_call(name, args));
    }
    match parse_args(p) {
        Ok(args) => Ok(Expr::new_call(name, args)),
        Err(m) => Err(m),
    }
}

/// Reads the arguments of a call, from the first one up to and with the
/// closing parenthesis.
pub(crate) fn parse_args(p: &mut Parser) -> (r: Result<Vec<Expr>, &'static str>)
    requires
        old(p).wf(),
    ensures
        final(p).stepped(*old(p), r is Ok),
        match r {
            Ok(v) => call_args(old(p).toks(), Seq::empty(), old(p).ptr as int) == (Parsed::Done {
                value: expr_models(v@),
                next: final(p).ptr as int,
            }),
            Err(m) => call_args(old(p).toks(), Seq::empty(), old(p).ptr as int) == (Parsed::<
                Seq<ExprModel>,
            >::Failed { msg: m@, at: final(p).ptr as int }),
        },
    decreases old(p).tokens.len() - old(p).ptr, 21nat,
{
    let ghost toks = p.toks();
    let ghost start = p.ptr as int;
    let mut args: Vec<Expr> = Vec::new();
    loop
        invariant
            p.stepped(*old(p), false),
            toks == old(p).toks(),
            start == old(p).ptr,
            call_args(toks, Seq::empty(), start) == call_args(
                toks,
                expr_models(args@),
                p.ptr as int,
            ),
        decreases p.tokens.len() - p.ptr,
    {
        let arg = match parse_assign(p) {
            Ok(e) => e,
            Err(m) => {
                return Err(m);
            },
        };
        proof {
            lemma_expr_models_push(args@, arg);
        }
        args.push(arg);
        if p.at(&TokenType::ParenClose) {
            p.advance();
            return Ok(args);
        }
        if !p.at(&TokenType::Comma) {
            return Err("Expected Function Arguments to be Seperated by Commas");
        }
        p.advance();
    }
}

/// Reads a cast-level expression at the cursor.
pub(crate) fn parse_cast(p: &mut Parser) -> (r: Result<Expr, &'static str>)
    requires
        old(p).wf(),
    ensures
        final(p).stepped(*old(p), r is Ok),
        agrees(r, final(p).ptr, cast_at(old(p).toks(), old(p).ptr as int)),
    decreases old(p).tokens.len() - old(p).ptr, 8nat,
{
    let value = match parse_ref(p) {
        Ok(e) => e,
        Err(m) => {
            return Err(m);
        },
    };
    if p.at_op("as") {
        p.advance();
        let to_type = match parse_type(p) {
            Ok(t) => t,
            Err(m) => {
                return Err(m);
            },
        };
        Ok(Expr::new_cast(value, to_type))
    } else {
        Ok(value)
    }
}

/// Reads a reference-level expression at the cursor.
pub(crate) fn parse_ref(p: &mut Parser) -> (r: Result<Expr, &'static str>)
    requires
        old(p).wf(),
    ensures
        final(p).stepped(*old(p), r is Ok),
        agrees(r, final(p).ptr, ref_at(old(p).toks(), old(p).ptr as int)),
    decreases old(p).tokens.len() - old(p).ptr, 7nat,
{
    if p.at_op("*") || p.at_op("&") {
        let operator = p.peek(0);
        p.advance();
        if p.at_id() {
            let right = p.peek(0);
            p.advance();
            Ok(Expr::new_ref(operator, right))
        } else {
            Err("Expected Identifier to Reference")
        }
    } else {
        parse_primary(p)
    }
}

/// Whether the token `n` places behind the cursor is of the given kind.
fn ahead_is(p: &Parser, n: i64, kind: &TokenType) -> (r: bool)
    requires
        p.wf(),
        0 <= n,
        !(kind@ is EOF),
    ensures
        r == (kind_at(p.toks(), p.ptr + n) == kind@),
        r ==> p.ptr + n + 1 < p.tokens.len(),
{
    match p.peek_forward(n) {
        Some(t) => t.ttype == *kind,
        None => false,
    }
}

/// Whether the token `n` places behind the cursor is an identifier.
fn ahead_is_id(p: &Parser, n: i64) -> (r: bool)
    requires
        p.wf(),
        0 <= n,
    ensures
        r == (kind_at(p.toks(), p.ptr + n) is Id),
        r ==> p.ptr + n + 1 < p.tokens.len(),
{
    match p.peek_forward(n) {
        Some(t) => matches!(t.ttype, TokenType::Id(_)),
        None => false,
    }
}

/// Reads a primary expression at the cursor.
pub(crate) fn parse_primary(p: &mut Parser) -> (r: Result<Expr, &'static str>)
    requires
        old(p).wf(),
    ensures
        final(p).stepped(*old(p), r is Ok),
        agrees(r, final(p).ptr, primary_at(old(p).toks(), old(p).ptr as int)),
    decreases old(p).tokens.len() - old(p).ptr, 6nat,
{
    if p.at(&TokenType::ParenOpen) {
        p.advance();
        let inner = match parse_assign(p) {
            Ok(e) => e,
            Err(m) => {
                return Err(m);
            },
        };
        if !p.at(&TokenType::ParenClose) {
            return Err("Expected Closing Parentheses");
        }
        p.advance();
        return Ok(Expr::new_grouping(inner));
    }
    if p.at_id() {
        if ahead_is(p, 1, &TokenType::Col) && ahead_is(p, 2, &TokenType::Col) && ahead_is_id(p, 3) {
            let owner = p.peek(0);
            let variant = p.peek(3);
            p.advance();
            p.advance();
            p.advance();
            p.advance();
            return Ok(Expr::new_enum_variant(owner, variant));
        }
        if ahead_is(p, 1, &TokenType::Period) && ahead_is_id(p, 2) {
            let owner = p.peek(0);
            let field = p.peek(2);
            p.advance();
            p.advance();
            p.advance();
            return Ok(Expr::new_struct_field(owner, field));
        }
        if ahead_is(p, 1, &TokenType::SquareOpen) {
            let array = p.peek(0);
            p.advance();
            p.advance();
            let index = match parse_assign(p) {
                Ok(e) => e,
                Err(m) => {
                    return Err(m);
                },
            };
            if !p.at(&TokenType::SquareClose) {
                return Err("Expected Closing Square Bracket after Array Access");
            }
            p.advance();
            return Ok(Expr::new_array_access(array, index));
        }
        let id = p.peek(0);
        p.advance();
        return Ok(Expr::new_id(id));
    }
    if p.at_lit() {
        let lit = p.peek(0);
        p.advance();
        return Ok(Expr::new_literal(lit));
    }
    Err("Expected Expression")
}

/// The placeholder of the primary level: a literal that is the blank token.
pub open spec fn blank_primary_model() -> ExprModel {
    ExprModel::Literal(blank_token_model())
}

/// The placeholder of the unary level.
pub open spec fn blank_unary_model() -> ExprModel {
    ExprModel::Unary(blank_token_model(), Box::new(blank_primary_model()))
}

/// The placeholder of the shift level.
pub open spec fn blank_shift_model() -> ExprModel {
    ExprModel::Shift(
        Box::new(blank_unary_model()),
        blank_token_model(),
        Box::new(blank_primary_model()),
    )
}

/// The placeholder of the term level.
pub open spec fn blank_term_model() -> ExprModel {
    ExprModel::Term(
        Box::new(blank_shift_model()),
        blank_token_model(),
        Box::new(blank_shift_model()),
    )
}

/// The placeholder of the comparison level.
pub open spec fn blank_comparison_model() -> ExprModel {
    ExprModel::Comparison(
        Box::new(blank_term_model()),
        blank_token_model(),
        Box::new(blank_term_model()),
    )
}

/// The placeholder of the equality level.
pub open spec fn blank_equality_model() -> ExprModel {
    ExprModel::Equality(
        Box::new(blank_comparison_model()),
        blank_token_model(),
        Box::new(blank_comparison_model()),
    )
}

/// The placeholder of the assignment level; its operator is `=` at offset
/// zero.
pub open spec fn blank_assign_model() -> ExprModel {
    ExprModel::Assign(
        Box::new(blank_equality_model()),
        TokenModel { kind: TokenKind::Op("="@), pos: 0 },
        Box::new(blank_equality_model()),
    )
}

/// The tags that name a grammar level of expressions.
pub open spec fn is_expr_tag(tag: Seq<char>) -> bool {
    tag == "Base"@ || tag == "Assign"@ || tag == "Equality"@ || tag == "Comp"@ || tag == "Term"@
        || tag == "Shift"@ || tag == "Unary"@ || tag == "FnCall"@ || tag == "Cast"@ || tag
        == "Ref"@ || tag == "Primary"@
}

/// The placeholder expression that stands for the grammar level named by
/// `tag`: an expression of the level's variant whose operands are the
/// placeholders of the levels below and whose tokens are blank.
pub open spec fn expr_placeholder(tag: Seq<char>) -> ExprModel {
    if tag == "Base"@ {
        ExprModel::Base
    } else if tag == "Assign"@ {
        blank_assign_model()
    } else if tag == "Equality"@ {
        blank_equality_model()
    } else if tag == "Comp"@ {
        blank_comparison_model()
    } else if tag == "Term"@ {
        blank_term_model()
    } else if tag == "Shift"@ {
        blank_shift_model()
    } else if tag == "Unary"@ {
        blank_unary_model()
    } else if tag == "FnCall"@ {
        ExprModel::FnCall(blank_token_model(), Seq::empty())
    } else if tag == "Cast"@ {
        ExprModel::Cast(
            Box::new(ExprModel::Base),
            DeclrTypeModel::BasicType(blank_token_model()),
        )
    } else if tag == "Ref"@ {
        ExprModel::Ref(blank_token_model(), blank_token_model())
    } else {
        blank_primary_model()
    }
}

fn blank_primary() -> (r: Expr)
    ensures
        r@ == blank_primary_model(),
{
    Expr::new_literal(blank_token())
}

fn blank_unary() -> (r: Expr)
    ensures
        r@ == blank_unary_model(),
{
    Expr::new_unary(blank_token(), blank_primary())
}

fn blank_shift() -> (r: Expr)
    ensures
        r@ == blank_shift_model(),
{
    Expr::new_shift(blank_unary(), blank_token(), blank_primary())
}

fn blank_term() -> (r: Expr)
    ensures
        r@ == blank_term_model(),
{
    Expr::new_term(blank_shift(), blank_token(), blank_shift())
}

fn blank_comparison() -> (r: Expr)
    ensures
        r@ == blank_comparison_model(),
{
    Expr::new_comparison(blank_term(), blank_token(), blank_term())
}

fn blank_equality() -> (r: Expr)
    ensures
        r@ == blank_equality_model(),
{
    Expr::new_equality(blank_comparison(), blank_token(), blank_comparison())
}

fn blank_assign() -> (r: Expr)
    ensures
        r@ == blank_assign_model(),
{
    let operator = Token { ttype: TokenType::Op(String::from_str("=")), pos: 0 };
    Expr::new_assign(blank_equality(), operator, blank_equality())
}

/// The placeholder expression for the grammar level that `t` names.
pub fn new_expr(t: &'static str) -> (r: Expr)
    requires
        is_expr_tag(t@),
    ensures
        r@ == expr_placeholder(t@),
{
    if str_eq(t, "Base") {
        Expr::Base
    } else if str_eq(t, "Assign") {
        blank_assign()
    } else if str_eq(t, "Equality") {
        blank_equality()
    } else if str_eq(t, "Comp") {
        blank_comparison()
    } else if str_eq(t, "Term") {
        blank_term()
    } else if str_eq(t, "Shift") {
        blank_shift()
    } else if str_eq(t, "Unary") {
        blank_unary()
    } else if str_eq(t, "FnCall") {
        let args: Vec<Expr> = Vec::new();
        Expr::new_call(blank_token(), args)
    } else if str_eq(t, "Cast") {
        Expr::new_cast(Expr::Base, DeclrType::BasicType(blank_token()))
    } else if str_eq(t, "Ref") {
        Expr::new_ref(blank_token(), blank_token())
    } else {
        blank_primary()
    }
}

/// The levels of the expression grammar, loosest first.
#[derive(Debug, Clone, Copy, PartialEq, Eq)]
pub enum ExprLevel {
    Assign,
    Equality,
    Comparison,
    Term,
    Shift,
    Unary,
    Call,
    Cast,
    Ref,
    Primary,
}

/// The grammar level that the variant of an expression names. The
/// placeholder for the base level names the loosest level; every primary
/// variant names the primary level.
pub open spec fn level_of_model(e: ExprModel) -> ExprLevel {
    match e {
        ExprModel::Base => ExprLevel::Assign,
        ExprModel::Assign(..) => ExprLevel::Assign,
        ExprModel::Equality(..) => ExprLevel::Equality,
        ExprModel::Comparison(..) => ExprLevel::Comparison,
        ExprModel::Term(..) => ExprLevel::Term,
        ExprModel::Shift(..) => ExprLevel::Shift,
        ExprModel::Unary(..) => ExprLevel::Unary,
        ExprModel::FnCall(..) => ExprLevel::Call,
        ExprModel::Cast(..) => ExprLevel::Cast,
        ExprModel::Ref(..) => ExprLevel::Ref,
        _ => ExprLevel::Primary,
    }
}

/// What the grammar makes of the tokens from `pos` on at a level.
pub open spec fn level_at(level: ExprLevel, toks: Seq<TokenModel>, pos: int) -> Parsed<ExprModel> {
    match level {
        ExprLevel::Assign => assign_at(toks, pos),
        ExprLevel::Equality => equality_at(toks, pos),
        ExprLevel::Comparison => comparison_at(toks, pos),
        ExprLevel::Term => term_at(toks, pos),
        ExprLevel::Shift => shift_at(toks, pos),
        ExprLevel::Unary => unary_at(toks, pos),
        ExprLevel::Call => call_at(toks, pos),
        ExprLevel::Cast => cast_at(toks, pos),
        ExprLevel::Ref => ref_at(toks, pos),
        ExprLevel::Primary => primary_at(toks, pos),
    }
}

/// What the grammar makes of the tokens from `pos` on at the level that the
/// variant of `level` names.
pub open spec fn expr_at(level: ExprModel, toks: Seq<TokenModel>, pos: int) -> Parsed<ExprModel> {
    level_at(level_of_model(level), toks, pos)
}

/// Reads an expression at the cursor at the given level.
fn parse_at_level(level: ExprLevel, p: &mut Parser) -> (r: Result<Expr, &'static str>)
    requires
        old(p).wf(),
    ensures
        final(p).stepped(*old(p), r is Ok),
        agrees(r, final(p).ptr, level_at(level, old(p).toks(), old(p).ptr as int)),
{
    match level {
        ExprLevel::Assign => parse_assign(p),
        ExprLevel::Equality => parse_equality(p),
        ExprLevel::Comparison => parse_comparison(p),
        ExprLevel::Term => parse_term(p),
        ExprLevel::Shift => parse_shift(p),
        ExprLevel::Unary => parse_unary(p),
        ExprLevel::Call => parse_call(p),
        ExprLevel::Cast => parse_cast(p),
        ExprLevel::Ref => parse_ref(p),
        ExprLevel::Primary => parse_primary(p),
    }
}

impl Expr {
    /// The grammar level that the variant of the expression names.
    pub fn level(&self) -> (r: ExprLevel)
        ensures
            r == level_of_model(self@),
    {
        match self {
            Expr::Base => ExprLevel::Assign,
            Expr::Assign(_) => ExprLevel::Assign,
            Expr::Equality(_) => ExprLevel::Equality,
            Expr::Comparison(_) => ExprLevel::Comparison,
            Expr::Term(_) => ExprLevel::Term,
            Expr::Shift(_) => ExprLevel::Shift,
            Expr::Unary(_) => ExprLevel::Unary,
            Expr::FnCall(_) => ExprLevel::Call,
            Expr::Cast(_) => ExprLevel::Cast,
            Expr::Ref(_) => ExprLevel::Ref,
            Expr::Primary(_) => ExprLevel::Primary,
        }
    }

    /// Reads an expression at the cursor, at the grammar level that the
    /// variant of `self` names. On success `self` becomes the expression
    /// read, which is also returned, and the cursor stands behind it. On
    /// failure `self` is unchanged and the cursor stands on the token that
    /// was not expected.
    pub fn parse(&mut self, p: &mut Parser) -> (r: Result<Expr, &'static str>)
        requires
            old(p).wf(),
        ensures
            final(p).stepped(*old(p), r is Ok),
            agrees(r, final(p).ptr, expr_at(old(self)@, old(p).toks(), old(p).ptr as int)),
            r is Ok ==> final(self)@ == r->Ok_0@,
            r is Err ==> final(self)@ == old(self)@,
    {
        let level = self.level();
        let res = parse_at_level(level, p);
        match res {
            Ok(e) => {
                *self = e.clone();
                Ok(e)
            },
            Err(m) => Err(m),
        }
    }
}

} // verus!
