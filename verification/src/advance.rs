use vstd::prelude::*;
use crate::definitions::{type_at, DeclrTypeModel, TokenKind, TokenModel};
use crate::expression::{
    assign_at, call_args, call_at, cast_at, comparison_at, comparison_tail, equality_at,
    equality_tail, is_comparison_op, is_equality_op, is_ref_op, is_shift_op, is_term_op,
    is_unary_op, primary_at, ref_at, shift_at, shift_tail, term_at, term_tail, unary_at,
    ExprModel,
};
use crate::parser::{forward, kind_at, remaining, Parsed};
use crate::statement::{
    block_at, block_items, enum_declr_at, fn_declr_at, fn_head_at, if_at, loop_at, param_at,
    params_at, params_tail, program_items, return_at, statement_at, stmt_at,
    struct_declr_at, var_declr_at, variants_at, variants_tail, while_at, StatementModel,
};

verus! {

/// A result that ends behind `pos` and inside the stream: what every rule
/// gives where it succeeds.
pub open spec fn advances<T>(toks: Seq<TokenModel>, pos: int, r: Parsed<T>) -> bool {
    r matches Parsed::Done { next, .. } ==> 0 <= pos < next <= toks.len()
}

/// A result that ends at or behind `pos` and inside the stream: what the
/// rest of a chain or of a list gives where it succeeds.
pub open spec fn stays<T>(toks: Seq<TokenModel>, pos: int, r: Parsed<T>) -> bool {
    r matches Parsed::Done { next, .. } ==> pos <= next <= toks.len()
}

/// A result that advances counts as it is.
pub proof fn lemma_forward_keeps<T>(toks: Seq<TokenModel>, pos: int, r: Parsed<T>)
    requires
        advances(toks, pos, r),
    ensures
        forward(toks, pos, r) == r,
{
}

/// A type consumes at least one token.
pub proof fn lemma_type_advances(toks: Seq<TokenModel>, pos: int)
    ensures
        advances(toks, pos, type_at(toks, pos)),
    decreases remaining(toks, pos),
{
    let k = kind_at(toks, pos);
    if k is Id {
    } else if k == TokenKind::SquareOpen {
        lemma_type_advances(toks, pos + 1);
    } else if k == TokenKind::Key("@"@) {
        lemma_type_advances(toks, pos + 1);
    }
}

/// An assignment-level expression consumes at least one token.
pub proof fn lemma_assign_advances(toks: Seq<TokenModel>, pos: int)
    ensures
        advances(toks, pos, assign_at(toks, pos)),
    decreases remaining(toks, pos), 20nat,
{
    match forward(toks, pos, equality_at(toks, pos)) {
        Parsed::Done { value, next } => {
            if kind_at(toks, next) == TokenKind::Op("="@) {
                lemma_assign_advances(toks, next + 1);
            }
        },
        _ => {},
    }
}

/// An equality-level expression consumes at least one token.
pub proof fn lemma_equality_advances(toks: Seq<TokenModel>, pos: int)
    ensures
        advances(toks, pos, equality_at(toks, pos)),
    decreases remaining(toks, pos), 18nat,
{
    match forward(toks, pos, comparison_at(toks, pos)) {
        Parsed::Done { value, next } => {
            lemma_equality_tail_stays(toks, value, next);
        },
        _ => {},
    }
}

/// The rest of an equality chain ends inside the stream.
pub proof fn lemma_equality_tail_stays(toks: Seq<TokenModel>, left: ExprModel, pos: int)
    requires
        0 <= pos <= toks.len(),
    ensures
        stays(toks, pos, equality_tail(toks, left, pos)),
    decreases remaining(toks, pos), 17nat,
{
    match forward(toks, pos + 1, comparison_at(toks, pos + 1)) {
        Parsed::Done { value, next } => {
            if is_equality_op(kind_at(toks, pos)) {
                lemma_equality_tail_stays(
                    toks,
                    ExprModel::Equality(Box::new(left), toks[pos], Box::new(value)),
                    next,
                );
            }
        },
        _ => {},
    }
}

/// A comparison-level expression consumes at least one token.
pub proof fn lemma_comparison_advances(toks: Seq<TokenModel>, pos: int)
    ensures
        advances(toks, pos, comparison_at(toks, pos)),
    decreases remaining(toks, pos), 16nat,
{
    match forward(toks, pos, term_at(toks, pos)) {
        Parsed::Done { value, next } => {
            lemma_comparison_tail_stays(toks, value, next);
        },
        _ => {},
    }
}

/// The rest of a comparison chain ends inside the stream.
pub proof fn lemma_comparison_tail_stays(toks: Seq<TokenModel>, left: ExprModel, pos: int)
    requires
        0 <= pos <= toks.len(),
    ensures
        stays(toks, pos, comparison_tail(toks, left, pos)),
    decreases remaining(toks, pos), 15nat,
{
    match forward(toks, pos + 1, term_at(toks, pos + 1)) {
        Parsed::Done { value, next } => {
            if is_comparison_op(kind_at(toks, pos)) {
                lemma_comparison_tail_stays(
                    toks,
                    ExprModel::Comparison(Box::new(left), toks[pos], Box::new(value)),
                    next,
                );
            }
        },
        _ => {},
    }
}

/// A term-level expression consumes at least one token.
pub proof fn lemma_term_advances(toks: Seq<TokenModel>, pos: int)
    ensures
        advances(toks, pos, term_at(toks, pos)),
    decreases remaining(toks, pos), 14nat,
{
    match forward(toks, pos, shift_at(toks, pos)) {
        Parsed::Done { value, next } => {
            lemma_term_tail_stays(toks, value, next);
        },
        _ => {},
    }
}

/// The rest of a term chain ends inside the stream.
pub proof fn lemma_term_tail_stays(toks: Seq<TokenModel>, left: ExprModel, pos: int)
    requires
        0 <= pos <= toks.len(),
    ensures
        stays(toks, pos, term_tail(toks, left, pos)),
    decreases remaining(toks, pos), 13nat,
{
    match forward(toks, pos + 1, shift_at(toks, pos + 1)) {
        Parsed::Done { value, next } => {
            if is_term_op(kind_at(toks, pos)) {
                lemma_term_tail_stays(
                    toks,
                    ExprModel::Term(Box::new(left), toks[pos], Box::new(value)),
                    next,
                );
            }
        },
        _ => {},
    }
}

/// A shift-level expression consumes at least one token.
pub proof fn lemma_shift_advances(toks: Seq<TokenModel>, pos: int)
    ensures
        advances(toks, pos, shift_at(toks, pos)),
    decreases remaining(toks, pos), 12nat,
{
    match forward(toks, pos, unary_at(toks, pos)) {
        Parsed::Done { value, next } => {
            lemma_shift_tail_stays(toks, value, next);
        },
        _ => {},
    }
}

/// The rest of a shift chain ends inside the stream.
pub proof fn lemma_shift_tail_stays(toks: Seq<TokenModel>, left: ExprModel, pos: int)
    requires
        0 <= pos <= toks.len(),
    ensures
        stays(toks, pos, shift_tail(toks, left, pos)),
    decreases remaining(toks, pos), 11nat,
{
    match forward(toks, pos + 1, primary_at(toks, pos + 1)) {
        Parsed::Done { value, next } => {
            if is_shift_op(kind_at(toks, pos)) {
                lemma_shift_tail_stays(
                    toks,
                    ExprModel::Shift(Box::new(left), toks[pos], Box::new(value)),
                    next,
                );
            }
        },
        _ => {},
    }
}

/// A unary-level expression consumes at least one token.
pub proof fn lemma_unary_advances(toks: Seq<TokenModel>, pos: int)
    ensures
        advances(toks, pos, unary_at(toks, pos)),
    decreases remaining(toks, pos), 10nat,
{
    if is_unary_op(kind_at(toks, pos)) {
        lemma_call_advances(toks, pos + 1);
    } else {
        lemma_call_advances(toks, pos);
    }
}

/// A call-level expression consumes at least one token.
pub proof fn lemma_call_advances(toks: Seq<TokenModel>, pos: int)
    ensures
        advances(toks, pos, call_at(toks, pos)),
    decreases remaining(toks, pos), 9nat,
{
    if kind_at(toks, pos) is Id && kind_at(toks, pos + 1) == TokenKind::ParenOpen {
        if kind_at(toks, pos + 2) != TokenKind::ParenClose {
            lemma_call_args_advance(toks, Seq::empty(), pos + 2);
        }
    } else {
        lemma_cast_advances(toks, pos);
    }
}

/// The arguments of a call consume at least one token.
pub proof fn lemma_call_args_advance(toks: Seq<TokenModel>, args: Seq<ExprModel>, pos: int)
    ensures
        advances(toks, pos, call_args(toks, args, pos)),
    decreases remaining(toks, pos), 21nat,
{
    match forward(toks, pos, assign_at(toks, pos)) {
        Parsed::Done { value, next } => {
            if kind_at(toks, next) != TokenKind::ParenClose && kind_at(toks, next)
                == TokenKind::Comma {
                lemma_call_args_advance(toks, args.push(value), next + 1);
            }
        },
        _ => {},
    }
}

/// A cast-level expression consumes at least one token.
pub proof fn lemma_cast_advances(toks: Seq<TokenModel>, pos: int)
    ensures
        advances(toks, pos, cast_at(toks, pos)),
    decreases remaining(toks, pos), 8nat,
{
    lemma_ref_advances(toks, pos);
    match ref_at(toks, pos) {
        Parsed::Done { value, next } => {
            lemma_type_advances(toks, next + 1);
        },
        _ => {},
    }
}

/// A reference-level expression consumes at least one token.
pub proof fn lemma_ref_advances(toks: Seq<TokenModel>, pos: int)
    ensures
        advances(toks, pos, ref_at(toks, pos)),
    decreases remaining(toks, pos), 7nat,
{
    if !is_ref_op(kind_at(toks, pos)) {
        lemma_primary_advances(toks, pos);
    }
}

/// A primary expression consumes at least one token.
pub proof fn lemma_primary_advances(toks: Seq<TokenModel>, pos: int)
    ensures
        advances(toks, pos, primary_at(toks, pos)),
    decreases remaining(toks, pos), 6nat,
{
    let k = kind_at(toks, pos);
    if k == TokenKind::ParenOpen {
        lemma_assign_advances(toks, pos + 1);
    } else if k is Id && kind_at(toks, pos + 1) == TokenKind::Col && kind_at(toks, pos + 2)
        == TokenKind::Col && kind_at(toks, pos + 3) is Id {
    } else if k is Id && kind_at(toks, pos + 1) == TokenKind::Period && kind_at(toks, pos + 2) is Id {
    } else if k is Id && kind_at(toks, pos + 1) == TokenKind::SquareOpen {
        lemma_assign_advances(toks, pos + 2);
    }
}

/// A parameter consumes at least one token.
pub proof fn lemma_param_advances(toks: Seq<TokenModel>, pos: int)
    ensures
        advances(toks, pos, param_at(toks, pos)),
{
    lemma_type_advances(toks, pos + 2);
}

/// The rest of a parameter list ends inside the stream.
pub proof fn lemma_params_tail_stays(
    toks: Seq<TokenModel>,
    params: Seq<(TokenModel, DeclrTypeModel)>,
    pos: int,
)
    requires
        0 <= pos <= toks.len(),
    ensures
        stays(toks, pos, params_tail(toks, params, pos)),
    decreases remaining(toks, pos),
{
    if kind_at(toks, pos) == TokenKind::Comma {
        match forward(toks, pos + 1, param_at(toks, pos + 1)) {
            Parsed::Done { value, next } => {
                lemma_params_tail_stays(toks, params.push(value), next);
            },
            _ => {},
        }
    }
}

/// A parameter list consumes at least one token.
pub proof fn lemma_params_advance(toks: Seq<TokenModel>, pos: int)
    ensures
        advances(toks, pos, params_at(toks, pos)),
{
    lemma_param_advances(toks, pos);
    match param_at(toks, pos) {
        Parsed::Done { value, next } => {
            lemma_params_tail_stays(toks, seq![value], next);
        },
        _ => {},
    }
}

/// The rest of a list of variants ends inside the stream.
pub proof fn lemma_variants_tail_stays(toks: Seq<TokenModel>, variants: Seq<TokenModel>, pos: int)
    requires
        0 <= pos <= toks.len(),
    ensures
        stays(toks, pos, variants_tail(toks, variants, pos)),
    decreases remaining(toks, pos),
{
    if kind_at(toks, pos) == TokenKind::Comma && kind_at(toks, pos + 1) is Id {
        lemma_variants_tail_stays(toks, variants.push(toks[pos + 1]), pos + 2);
    }
}

/// A list of variants consumes at least one token.
pub proof fn lemma_variants_advance(toks: Seq<TokenModel>, pos: int)
    ensures
        advances(toks, pos, variants_at(toks, pos)),
{
    if kind_at(toks, pos) is Id {
        lemma_variants_tail_stays(toks, seq![toks[pos]], pos + 1);
    }
}

/// A variable declaration consumes at least one token.
pub proof fn lemma_var_declr_advances(toks: Seq<TokenModel>, pos: int)
    ensures
        advances(toks, pos, var_declr_at(toks, pos)),
{
    lemma_type_advances(toks, pos + 2);
    match type_at(toks, pos + 2) {
        Parsed::Done { value, next } => {
            lemma_assign_advances(toks, next + 1);
        },
        _ => {},
    }
}

/// A struct declaration consumes at least one token.
pub proof fn lemma_struct_declr_advances(toks: Seq<TokenModel>, pos: int)
    ensures
        advances(toks, pos, struct_declr_at(toks, pos)),
{
    lemma_params_advance(toks, pos + 2);
}

/// An enum declaration consumes at least one token.
pub proof fn lemma_enum_declr_advances(toks: Seq<TokenModel>, pos: int)
    ensures
        advances(toks, pos, enum_declr_at(toks, pos)),
{
    lemma_variants_advance(toks, pos + 2);
}

/// The head of a function declaration consumes at least one token.
pub proof fn lemma_fn_head_advances(toks: Seq<TokenModel>, pos: int)
    ensures
        advances(toks, pos, fn_head_at(toks, pos)),
{
    lemma_params_advance(toks, pos + 2);
    let params = if kind_at(toks, pos + 2) != TokenKind::ParenClose {
        params_at(toks, pos + 2)
    } else {
        Parsed::Done { value: StatementModel::Parameters(Seq::empty()), next: pos + 2 }
    };
    match params {
        Parsed::Done { value, next } => {
            lemma_type_advances(toks, next + 2);
        },
        _ => {},
    }
}

/// What stands behind `return` consumes at least one token.
pub proof fn lemma_return_advances(toks: Seq<TokenModel>, pos: int)
    ensures
        advances(toks, pos, return_at(toks, pos)),
{
    lemma_assign_advances(toks, pos);
}

/// A declaration or statement consumes at least one token.
pub proof fn lemma_statement_advances(toks: Seq<TokenModel>, pos: int)
    ensures
        advances(toks, pos, statement_at(toks, pos)),
    decreases remaining(toks, pos), 2nat,
{
    let k = kind_at(toks, pos);
    if k == TokenKind::Key("let"@) {
        lemma_var_declr_advances(toks, pos + 1);
    } else if k == TokenKind::Key("fn"@) {
        lemma_fn_declr_advances(toks, pos + 1);
    } else if k == TokenKind::Key("struct"@) {
        lemma_struct_declr_advances(toks, pos + 1);
    } else if k == TokenKind::Key("enum"@) {
        lemma_enum_declr_advances(toks, pos + 1);
    } else {
        lemma_stmt_advances(toks, pos);
    }
}

/// A statement consumes at least one token.
pub proof fn lemma_stmt_advances(toks: Seq<TokenModel>, pos: int)
    ensures
        advances(toks, pos, stmt_at(toks, pos)),
    decreases remaining(toks, pos), 1nat,
{
    let k = kind_at(toks, pos);
    if k == TokenKind::CurlyOpen {
        lemma_block_advances(toks, pos + 1);
    } else if k == TokenKind::Key("loop"@) {
        lemma_loop_advances(toks, pos + 1);
    } else if k == TokenKind::Key("if"@) {
        lemma_if_advances(toks, pos + 1);
    } else if k == TokenKind::Key("while"@) {
        lemma_while_advances(toks, pos + 1);
    } else if k == TokenKind::Key("break"@) {
    } else if k == TokenKind::Key("return"@) {
        lemma_return_advances(toks, pos + 1);
    } else {
        lemma_assign_advances(toks, pos);
    }
}

/// The statements of a block and its closing brace consume at least one
/// token.
pub proof fn lemma_block_items_advance(
    toks: Seq<TokenModel>,
    items: Seq<StatementModel>,
    pos: int,
)
    ensures
        advances(toks, pos, block_items(toks, items, pos)),
    decreases remaining(toks, pos), 3nat,
{
    let k = kind_at(toks, pos);
    if k != TokenKind::CurlyClose && k != TokenKind::EOF {
        match forward(toks, pos, statement_at(toks, pos)) {
            Parsed::Done { value, next } => {
                lemma_block_items_advance(toks, items.push(value), next);
            },
            _ => {},
        }
    }
}

/// A block consumes at least one token.
pub proof fn lemma_block_advances(toks: Seq<TokenModel>, pos: int)
    ensures
        advances(toks, pos, block_at(toks, pos)),
    decreases remaining(toks, pos), 4nat,
{
    lemma_block_items_advance(toks, Seq::empty(), pos);
}

/// What stands behind `loop` consumes at least one token.
pub proof fn lemma_loop_advances(toks: Seq<TokenModel>, pos: int)
    ensures
        advances(toks, pos, loop_at(toks, pos)),
    decreases remaining(toks, pos), 5nat,
{
    if kind_at(toks, pos) == TokenKind::CurlyOpen {
        lemma_block_advances(toks, pos + 1);
    }
}

/// What stands behind `if` consumes at least one token.
pub proof fn lemma_if_advances(toks: Seq<TokenModel>, pos: int)
    ensures
        advances(toks, pos, if_at(toks, pos)),
    decreases remaining(toks, pos), 5nat,
{
    match forward(toks, pos, assign_at(toks, pos)) {
        Parsed::Done { value, next } => {
            if kind_at(toks, next) == TokenKind::CurlyOpen {
                match forward(toks, next + 1, block_at(toks, next + 1)) {
                    Parsed::Done { value: yes, next: mid } => {
                        if kind_at(toks, mid) == TokenKind::Key("else"@) && kind_at(toks, mid + 1)
                            == TokenKind::CurlyOpen {
                            lemma_block_advances(toks, mid + 2);
                        }
                    },
                    _ => {},
                }
            }
        },
        _ => {},
    }
}

/// What stands behind `while` consumes at least one token.
pub proof fn lemma_while_advances(toks: Seq<TokenModel>, pos: int)
    ensures
        advances(toks, pos, while_at(toks, pos)),
    decreases remaining(toks, pos), 5nat,
{
    match forward(toks, pos, assign_at(toks, pos)) {
        Parsed::Done { value, next } => {
            if kind_at(toks, next) == TokenKind::CurlyOpen {
                lemma_block_advances(toks, next + 1);
            }
        },
        _ => {},
    }
}

/// A function declaration consumes at least one token.
pub proof fn lemma_fn_declr_advances(toks: Seq<TokenModel>, pos: int)
    ensures
        advances(toks, pos, fn_declr_at(toks, pos)),
    decreases remaining(toks, pos), 5nat,
{
    match forward(toks, pos, fn_head_at(toks, pos)) {
        Parsed::Done { value, next } => {
            lemma_block_advances(toks, next);
        },
        _ => {},
    }
}

/// The statements of a program end inside the stream.
pub proof fn lemma_program_items_stay(
    toks: Seq<TokenModel>,
    items: Seq<StatementModel>,
    pos: int,
)
    requires
        0 <= pos <= toks.len(),
    ensures
        stays(toks, pos, program_items(toks, items, pos)),
    decreases remaining(toks, pos),
{
    if kind_at(toks, pos) != TokenKind::EOF {
        match forward(toks, pos, statement_at(toks, pos)) {
            Parsed::Done { value, next } => {
                lemma_program_items_stay(toks, items.push(value), next);
            },
            _ => {},
        }
    }
}

} // verus!
