use vstd::prelude::*;
use crate::definitions::{type_at, TokenKind, TokenModel};
use crate::expression::{
    assign_at, call_args, call_at, cast_at, comparison_at, comparison_tail, equality_at,
    equality_tail, is_comparison_op, is_equality_op, is_ref_op, is_shift_op, is_term_op,
    is_unary_op, primary_at, ref_at, shift_at, shift_tail, term_at, term_tail, unary_at,
    ExprModel,
};
use crate::parser::{forward, kind_at, remaining, Parsed};
use crate::statement::{
    block_at, block_items, fn_declr_at, fn_head_at, if_at, loop_at, program_at, program_items,
    statement_at, stmt_at, var_declr_at, while_at, StatementModel,
};
use crate::syntax::{expr_checkable, program_checkable, stmt_checkable};

verus! {

/// Whether an array access stands in an expression where the typing rules
/// look.
pub open spec fn expr_has_array(e: ExprModel) -> bool
    decreases e,
{
    match e {
        ExprModel::Assign(l, _, r) => expr_has_array(*l) || expr_has_array(*r),
        ExprModel::Equality(l, _, r) => expr_has_array(*l) || expr_has_array(*r),
        ExprModel::Comparison(l, _, r) => expr_has_array(*l) || expr_has_array(*r),
        ExprModel::Term(l, _, r) => expr_has_array(*l) || expr_has_array(*r),
        ExprModel::Shift(l, _, r) => expr_has_array(*l) || expr_has_array(*r),
        ExprModel::Unary(_, r) => expr_has_array(*r),
        ExprModel::FnCall(_, args) => exists|i: int|
            0 <= i < args.len() && expr_has_array(#[trigger] args[i]),
        ExprModel::Grouping(inner) => expr_has_array(*inner),
        ExprModel::ArrayAccess(_, _) => true,
        _ => false,
    }
}

/// What the grammar gives for an expression: one that the typing rules
/// cover, or one with an array access.
pub open spec fn expr_covered(e: ExprModel) -> bool {
    expr_checkable(e) || expr_has_array(e)
}

/// Whether every expression of a list is covered.
pub open spec fn all_covered(es: Seq<ExprModel>) -> bool {
    forall|i: int| 0 <= i < es.len() ==> expr_covered(#[trigger] es[i])
}

/// What holds of the result of a rule for expressions.
pub open spec fn gives_covered(r: Parsed<ExprModel>) -> bool {
    r matches Parsed::Done { value, .. } ==> expr_covered(value)
}

/// A call whose arguments are covered is covered.
pub proof fn lemma_call_covered(name: TokenModel, args: Seq<ExprModel>)
    requires
        all_covered(args),
    ensures
        expr_covered(ExprModel::FnCall(name, args)),
{
    let e = ExprModel::FnCall(name, args);
    assert(e->FnCall_1 == args);
    if exists|i: int| 0 <= i < args.len() && expr_has_array(#[trigger] args[i]) {
        assert(expr_has_array(e));
    } else {
        assert forall|i: int| 0 <= i < args.len() implies expr_checkable(#[trigger] args[i]) by {
            assert(expr_covered(args[i]));
        }
        assert(expr_checkable(e));
    }
}

/// One more covered expression behind covered expressions.
pub proof fn lemma_all_covered_push(es: Seq<ExprModel>, e: ExprModel)
    requires
        all_covered(es),
        expr_covered(e),
    ensures
        all_covered(es.push(e)),
{
    assert forall|i: int| 0 <= i < es.push(e).len() implies expr_covered(
        #[trigger] es.push(e)[i],
    ) by {
        if i < es.len() {
            assert(es.push(e)[i] == es[i]);
        }
    }
}

/// An assignment that parses is covered.
pub proof fn lemma_assign_covered(toks: Seq<TokenModel>, pos: int)
    ensures
        gives_covered(assign_at(toks, pos)),
    decreases remaining(toks, pos), 20nat,
{
    lemma_equality_covered(toks, pos);
    match forward(toks, pos, equality_at(toks, pos)) {
        Parsed::Done { value, next } => {
            if kind_at(toks, next) == TokenKind::Op("="@) {
                lemma_assign_covered(toks, next + 1);
            }
        },
        _ => {},
    }
}

/// An equality that parses is covered.
pub proof fn lemma_equality_covered(toks: Seq<TokenModel>, pos: int)
    ensures
        gives_covered(equality_at(toks, pos)),
    decreases remaining(toks, pos), 18nat,
{
    lemma_comparison_covered(toks, pos);
    match forward(toks, pos, comparison_at(toks, pos)) {
        Parsed::Done { value, next } => {
            lemma_equality_tail_covered(toks, value, next);
        },
        _ => {},
    }
}

/// The rest of an equality chain that parses is covered.
pub proof fn lemma_equality_tail_covered(toks: Seq<TokenModel>, left: ExprModel, pos: int)
    requires
        expr_covered(left),
    ensures
        gives_covered(equality_tail(toks, left, pos)),
    decreases remaining(toks, pos), 17nat,
{
    if is_equality_op(kind_at(toks, pos)) {
        lemma_comparison_covered(toks, pos + 1);
        match forward(toks, pos + 1, comparison_at(toks, pos + 1)) {
            Parsed::Done { value, next } => {
                lemma_equality_tail_covered(
                    toks,
                    ExprModel::Equality(Box::new(left), toks[pos], Box::new(value)),
                    next,
                );
            },
            _ => {},
        }
    }
}

/// A comparison that parses is covered.
pub proof fn lemma_comparison_covered(toks: Seq<TokenModel>, pos: int)
    ensures
        gives_covered(comparison_at(toks, pos)),
    decreases remaining(toks, pos), 16nat,
{
    lemma_term_covered(toks, pos);
    match forward(toks, pos, term_at(toks, pos)) {
        Parsed::Done { value, next } => {
            lemma_comparison_tail_covered(toks, value, next);
        },
        _ => {},
    }
}

/// The rest of a comparison chain that parses is covered.
pub proof fn lemma_comparison_tail_covered(toks: Seq<TokenModel>, left: ExprModel, pos: int)
    requires
        expr_covered(left),
    ensures
        gives_covered(comparison_tail(toks, left, pos)),
    decreases remaining(toks, pos), 15nat,
{
    if is_comparison_op(kind_at(toks, pos)) {
        lemma_term_covered(toks, pos + 1);
        match forward(toks, pos + 1, term_at(toks, pos + 1)) {
            Parsed::Done { value, next } => {
                lemma_comparison_tail_covered(
                    toks,
                    ExprModel::Comparison(Box::new(left), toks[pos], Box::new(value)),
                    next,
                );
            },
            _ => {},
        }
    }
}

/// A term that parses is covered.
pub proof fn lemma_term_covered(toks: Seq<TokenModel>, pos: int)
    ensures
        gives_covered(term_at(toks, pos)),
    decreases remaining(toks, pos), 14nat,
{
    lemma_shift_covered(toks, pos);
    match forward(toks, pos, shift_at(toks, pos)) {
        Parsed::Done { value, next } => {
            lemma_term_tail_covered(toks, value, next);
        },
        _ => {},
    }
}

/// The rest of a term chain that parses is covered.
pub proof fn lemma_term_tail_covered(toks: Seq<TokenModel>, left: ExprModel, pos: int)
    requires
        expr_covered(left),
    ensures
        gives_covered(term_tail(toks, left, pos)),
    decreases remaining(toks, pos), 13nat,
{
    if is_term_op(kind_at(toks, pos)) {
        lemma_shift_covered(toks, pos + 1);
        match forward(toks, pos + 1, shift_at(toks, pos + 1)) {
            Parsed::Done { value, next } => {
                lemma_term_tail_covered(
                    toks,
                    ExprModel::Term(Box::new(left), toks[pos], Box::new(value)),
                    next,
                );
            },
            _ => {},
        }
    }
}

/// A shift that parses is covered.
pub proof fn lemma_shift_covered(toks: Seq<TokenModel>, pos: int)
    ensures
        gives_covered(shift_at(toks, pos)),
    decreases remaining(toks, pos), 12nat,
{
    lemma_unary_covered(toks, pos);
    match forward(toks, pos, unary_at(toks, pos)) {
        Parsed::Done { value, next } => {
            lemma_shift_tail_covered(toks, value, next);
        },
        _ => {},
    }
}

/// The rest of a shift chain that parses is covered.
pub proof fn lemma_shift_tail_covered(toks: Seq<TokenModel>, left: ExprModel, pos: int)
    requires
        expr_covered(left),
    ensures
        gives_covered(shift_tail(toks, left, pos)),
    decreases remaining(toks, pos), 11nat,
{
    if is_shift_op(kind_at(toks, pos)) {
        lemma_primary_covered(toks, pos + 1);
        match forward(toks, pos + 1, primary_at(toks, pos + 1)) {
            Parsed::Done { value, next } => {
                lemma_shift_tail_covered(
                    toks,
                    ExprModel::Shift(Box::new(left), toks[pos], Box::new(value)),
                    next,
                );
            },
            _ => {},
        }
    }
}

/// A unary expression that parses is covered.
pub proof fn lemma_unary_covered(toks: Seq<TokenModel>, pos: int)
    ensures
        gives_covered(unary_at(toks, pos)),
    decreases remaining(toks, pos), 10nat,
{
    if is_unary_op(kind_at(toks, pos)) {
        lemma_call_at_covered(toks, pos + 1);
    } else {
        lemma_call_at_covered(toks, pos);
    }
}

/// A call-level expression that parses is covered.
pub proof fn lemma_call_at_covered(toks: Seq<TokenModel>, pos: int)
    ensures
        gives_covered(call_at(toks, pos)),
    decreases remaining(toks, pos), 9nat,
{
    if kind_at(toks, pos) is Id && kind_at(toks, pos + 1) == TokenKind::ParenOpen {
        if kind_at(toks, pos + 2) == TokenKind::ParenClose {
            lemma_call_covered(toks[pos], Seq::empty());
        } else {
            lemma_call_args_covered(toks, Seq::empty(), pos + 2);
            match call_args(toks, Seq::empty(), pos + 2) {
                Parsed::Done { value, next } => {
                    lemma_call_covered(toks[pos], value);
                },
                _ => {},
            }
        }
    } else {
        lemma_cast_covered(toks, pos);
    }
}

/// The arguments of a call that parse are covered.
pub proof fn lemma_call_args_covered(toks: Seq<TokenModel>, args: Seq<ExprModel>, pos: int)
    requires
        all_covered(args),
    ensures
        call_args(toks, args, pos) matches Parsed::Done { value, .. } ==> all_covered(value),
    decreases remaining(toks, pos), 21nat,
{
    lemma_assign_covered(toks, pos);
    match forward(toks, pos, assign_at(toks, pos)) {
        Parsed::Done { value, next } => {
            lemma_all_covered_push(args, value);
            if kind_at(toks, next) != TokenKind::ParenClose && kind_at(toks, next)
                == TokenKind::Comma {
                lemma_call_args_covered(toks, args.push(value), next + 1);
            }
        },
        _ => {},
    }
}

/// A cast-level expression that parses is covered.
pub proof fn lemma_cast_covered(toks: Seq<TokenModel>, pos: int)
    ensures
        gives_covered(cast_at(toks, pos)),
    decreases remaining(toks, pos), 8nat,
{
    lemma_ref_covered(toks, pos);
}

/// A reference-level expression that parses is covered.
pub proof fn lemma_ref_covered(toks: Seq<TokenModel>, pos: int)
    ensures
        gives_covered(ref_at(toks, pos)),
    decreases remaining(toks, pos), 7nat,
{
    if !is_ref_op(kind_at(toks, pos)) {
        lemma_primary_covered(toks, pos);
    }
}

/// A primary expression that parses is covered.
pub proof fn lemma_primary_covered(toks: Seq<TokenModel>, pos: int)
    ensures
        gives_covered(primary_at(toks, pos)),
    decreases remaining(toks, pos), 6nat,
{
    if kind_at(toks, pos) == TokenKind::ParenOpen {
        lemma_assign_covered(toks, pos + 1);
    }
}

/// Whether an array access stands in a statement where the rules look.
pub open spec fn stmt_has_array(s: StatementModel) -> bool
    decreases s,
{
    match s {
        StatementModel::FnDeclr(d) => stmt_has_array(d.body),
        StatementModel::VarDeclr(_, _, value) => match value {
            Some(e) => expr_has_array(e),
            None => false,
        },
        StatementModel::LoopStmt(body) => stmt_has_array(*body),
        StatementModel::IfStmt(cond, yes, no) => expr_has_array(cond) || stmt_has_array(*yes)
            || match no {
            Some(b) => stmt_has_array(*b),
            None => false,
        },
        StatementModel::WhileStmt(cond, body, _) => expr_has_array(cond) || stmt_has_array(*body),
        StatementModel::ReturnStmt(_, e) => expr_has_array(e),
        StatementModel::ExprStmt(e) => expr_has_array(e),
        StatementModel::Block(items) => exists|i: int|
            0 <= i < items.len() && stmt_has_array(#[trigger] items[i]),
        _ => false,
    }
}

/// What the grammar gives for a statement: one that the rules check, or one
/// with an array access.
pub open spec fn stmt_covered(s: StatementModel) -> bool {
    stmt_checkable(s) || stmt_has_array(s)
}

/// Whether every statement of a list is covered.
pub open spec fn items_covered(items: Seq<StatementModel>) -> bool {
    forall|i: int| 0 <= i < items.len() ==> stmt_covered(#[trigger] items[i])
}

/// What holds of the result of a rule for statements.
pub open spec fn gives_covered_stmt(r: Parsed<StatementModel>) -> bool {
    r matches Parsed::Done { value, .. } ==> stmt_covered(value)
}

/// A block whose statements are covered is covered.
pub proof fn lemma_block_covered(items: Seq<StatementModel>)
    requires
        items_covered(items),
    ensures
        stmt_covered(StatementModel::Block(items)),
{
    let s = StatementModel::Block(items);
    assert(s->Block_0 == items);
    if exists|i: int| 0 <= i < items.len() && stmt_has_array(#[trigger] items[i]) {
        assert(stmt_has_array(s));
    } else {
        assert forall|i: int| 0 <= i < items.len() implies stmt_checkable(#[trigger] items[i]) by {
            assert(stmt_covered(items[i]));
        }
        assert(stmt_checkable(s));
    }
}

/// One more covered statement behind covered statements.
pub proof fn lemma_items_covered_push(items: Seq<StatementModel>, s: StatementModel)
    requires
        items_covered(items),
        stmt_covered(s),
    ensures
        items_covered(items.push(s)),
{
    assert forall|i: int| 0 <= i < items.push(s).len() implies stmt_covered(
        #[trigger] items.push(s)[i],
    ) by {
        if i < items.len() {
            assert(items.push(s)[i] == items[i]);
        }
    }
}

/// A declaration or statement that parses is covered.
pub proof fn lemma_statement_covered(toks: Seq<TokenModel>, pos: int)
    ensures
        gives_covered_stmt(statement_at(toks, pos)),
    decreases remaining(toks, pos), 2nat,
{
    let k = kind_at(toks, pos);
    if k == TokenKind::Key("let"@) {
        lemma_var_declr_covered(toks, pos + 1);
    } else if k == TokenKind::Key("fn"@) {
        lemma_fn_declr_covered(toks, pos + 1);
    } else if k == TokenKind::Key("struct"@) {
    } else if k == TokenKind::Key("enum"@) {
    } else {
        lemma_stmt_covered(toks, pos);
    }
}

/// A variable declaration that parses is covered.
pub proof fn lemma_var_declr_covered(toks: Seq<TokenModel>, pos: int)
    ensures
        gives_covered_stmt(var_declr_at(toks, pos)),
{
    match type_at(toks, pos + 2) {
        Parsed::Done { value, next } => {
            lemma_assign_covered(toks, next + 1);
        },
        _ => {},
    }
}

/// A statement that parses is covered.
pub proof fn lemma_stmt_covered(toks: Seq<TokenModel>, pos: int)
    ensures
        gives_covered_stmt(stmt_at(toks, pos)),
    decreases remaining(toks, pos), 1nat,
{
    let k = kind_at(toks, pos);
    if k == TokenKind::CurlyOpen {
        lemma_block_at_covered(toks, pos + 1);
    } else if k == TokenKind::Key("loop"@) {
        lemma_loop_covered(toks, pos + 1);
    } else if k == TokenKind::Key("if"@) {
        lemma_if_covered(toks, pos + 1);
    } else if k == TokenKind::Key("while"@) {
        lemma_while_covered(toks, pos + 1);
    } else if k == TokenKind::Key("break"@) {
    } else if k == TokenKind::Key("return"@) {
        lemma_assign_covered(toks, pos + 1);
    } else {
        lemma_assign_covered(toks, pos);
    }
}

/// The statements of a block that parse are covered.
pub proof fn lemma_block_items_covered(
    toks: Seq<TokenModel>,
    items: Seq<StatementModel>,
    pos: int,
)
    requires
        items_covered(items),
    ensures
        block_items(toks, items, pos) matches Parsed::Done { value, .. } ==> items_covered(value),
    decreases remaining(toks, pos), 3nat,
{
    let k = kind_at(toks, pos);
    if k != TokenKind::CurlyClose && k != TokenKind::EOF {
        lemma_statement_covered(toks, pos);
        match forward(toks, pos, statement_at(toks, pos)) {
            Parsed::Done { value, next } => {
                lemma_items_covered_push(items, value);
                lemma_block_items_covered(toks, items.push(value), next);
            },
            _ => {},
        }
    }
}

/// A block that parses is covered.
pub proof fn lemma_block_at_covered(toks: Seq<TokenModel>, pos: int)
    ensures
        gives_covered_stmt(block_at(toks, pos)),
    decreases remaining(toks, pos), 4nat,
{
    lemma_block_items_covered(toks, Seq::empty(), pos);
    match block_items(toks, Seq::empty(), pos) {
        Parsed::Done { value, next } => {
            lemma_block_covered(value);
        },
        _ => {},
    }
}

/// A loop that parses is covered.
pub proof fn lemma_loop_covered(toks: Seq<TokenModel>, pos: int)
    ensures
        gives_covered_stmt(loop_at(toks, pos)),
    decreases remaining(toks, pos), 5nat,
{
    if kind_at(toks, pos) == TokenKind::CurlyOpen {
        lemma_block_at_covered(toks, pos + 1);
    }
}

/// A conditional that parses is covered.
pub proof fn lemma_if_covered(toks: Seq<TokenModel>, pos: int)
    ensures
        gives_covered_stmt(if_at(toks, pos)),
    decreases remaining(toks, pos), 5nat,
{
    lemma_assign_covered(toks, pos);
    match forward(toks, pos, assign_at(toks, pos)) {
        Parsed::Done { value, next } => {
            if kind_at(toks, next) == TokenKind::CurlyOpen {
                lemma_block_at_covered(toks, next + 1);
                match forward(toks, next + 1, block_at(toks, next + 1)) {
                    Parsed::Done { value: yes, next: mid } => {
                        if kind_at(toks, mid) == TokenKind::Key("else"@) && kind_at(toks, mid + 1)
                            == TokenKind::CurlyOpen {
                            lemma_block_at_covered(toks, mid + 2);
                        }
                    },
                    _ => {},
                }
            }
        },
        _ => {},
    }
}

/// A `while` loop that parses is covered.
pub proof fn lemma_while_covered(toks: Seq<TokenModel>, pos: int)
    ensures
        gives_covered_stmt(while_at(toks, pos)),
    decreases remaining(toks, pos), 5nat,
{
    lemma_assign_covered(toks, pos);
    match forward(toks, pos, assign_at(toks, pos)) {
        Parsed::Done { value, next } => {
            if kind_at(toks, next) == TokenKind::CurlyOpen {
                lemma_block_at_covered(toks, next + 1);
            }
        },
        _ => {},
    }
}

/// A function declaration that parses is covered.
pub proof fn lemma_fn_declr_covered(toks: Seq<TokenModel>, pos: int)
    ensures
        gives_covered_stmt(fn_declr_at(toks, pos)),
    decreases remaining(toks, pos), 5nat,
{
    match forward(toks, pos, fn_head_at(toks, pos)) {
        Parsed::Done { value, next } => {
            lemma_block_at_covered(toks, next);
        },
        _ => {},
    }
}

/// The statements of a program that parse are covered.
pub proof fn lemma_program_items_covered(
    toks: Seq<TokenModel>,
    items: Seq<StatementModel>,
    pos: int,
)
    requires
        items_covered(items),
    ensures
        program_items(toks, items, pos) matches Parsed::Done { value, .. } ==> items_covered(
            value,
        ),
    decreases remaining(toks, pos),
{
    if kind_at(toks, pos) != TokenKind::EOF {
        lemma_statement_covered(toks, pos);
        match forward(toks, pos, statement_at(toks, pos)) {
            Parsed::Done { value, next } => {
                lemma_items_covered_push(items, value);
                lemma_program_items_covered(toks, items.push(value), next);
            },
            _ => {},
        }
    }
}

/// What the parser gives, the analyzer can take: a program that parses is
/// one that the rules check, unless an array access stands in it where the
/// rules look.
pub proof fn lemma_parsed_program_is_checkable(toks: Seq<TokenModel>, pos: int)
    ensures
        program_at(toks, pos) matches Parsed::Done { value, .. } ==> program_checkable(value) || (
        exists|i: int| 0 <= i < value.len() && stmt_has_array(#[trigger] value[i])),
{
    lemma_program_items_covered(toks, Seq::empty(), pos);
    match program_at(toks, pos) {
        Parsed::Done { value, next } => {
            if !(exists|i: int| 0 <= i < value.len() && stmt_has_array(#[trigger] value[i])) {
                assert forall|i: int| 0 <= i < value.len() implies stmt_checkable(
                    #[trigger] value[i],
                ) by {
                    assert(stmt_covered(value[i]));
                }
            }
        },
        _ => {},
    }
}

} // verus!
