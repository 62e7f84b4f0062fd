use vstd::prelude::*;
use crate::definitions::{type_at, DeclrTypeModel, TokenKind, TokenModel};
use crate::expression::{
    assign_at, call_args, call_at, cast_at, comparison_at, comparison_tail, equality_at,
    equality_tail, is_comparison_op, is_equality_op, is_ref_op, is_shift_op, is_term_op,
    is_unary_op, primary_at, ref_at, shift_at, shift_tail, term_at, term_tail, unary_at,
    ExprModel,
};
use crate::parser::{forward, kind_at, remaining, Parsed};

verus! {

/// The kinds of the tokens of a stream.
pub open spec fn kinds(toks: Seq<TokenModel>) -> Seq<TokenKind> {
    Seq::new(toks.len(), |i: int| toks[i].kind)
}

/// A type written out as the kinds of its tokens.
pub open spec fn type_written(t: DeclrTypeModel) -> Seq<TokenKind>
    decreases t,
{
    match t {
        DeclrTypeModel::BasicType(token) => seq![token.kind],
        DeclrTypeModel::Array(element, size) => seq![TokenKind::SquareOpen] + type_written(
            *element,
        ) + seq![TokenKind::SemiCol, size.kind, TokenKind::SquareClose],
        DeclrTypeModel::Pointer(inner) => seq![TokenKind::Key("@"@)] + type_written(*inner),
    }
}

/// An expression written out as the kinds of its tokens: its operands in
/// order with the operator between them, a grouping in parentheses, the
/// arguments of a call in parentheses with commas between them.
pub open spec fn expr_written(e: ExprModel) -> Seq<TokenKind>
    decreases e,
{
    match e {
        ExprModel::Base => Seq::empty(),
        ExprModel::Assign(l, op, r) => expr_written(*l) + seq![op.kind] + expr_written(*r),
        ExprModel::Equality(l, op, r) => expr_written(*l) + seq![op.kind] + expr_written(*r),
        ExprModel::Comparison(l, op, r) => expr_written(*l) + seq![op.kind] + expr_written(*r),
        ExprModel::Term(l, op, r) => expr_written(*l) + seq![op.kind] + expr_written(*r),
        ExprModel::Shift(l, op, r) => expr_written(*l) + seq![op.kind] + expr_written(*r),
        ExprModel::Unary(op, r) => seq![op.kind] + expr_written(*r),
        ExprModel::FnCall(name, args) => seq![name.kind, TokenKind::ParenOpen] + args_written(
            args,
        ) + seq![TokenKind::ParenClose],
        ExprModel::Cast(value, to_type) => expr_written(*value) + seq![TokenKind::Op("as"@)]
            + type_written(to_type),
        ExprModel::Ref(op, right) => seq![op.kind, right.kind],
        ExprModel::Grouping(inner) => seq![TokenKind::ParenOpen] + expr_written(*inner)
            + seq![TokenKind::ParenClose],
        ExprModel::Literal(t) => seq![t.kind],
        ExprModel::Id(t) => seq![t.kind],
        ExprModel::StructField(owner, field) => seq![owner.kind, TokenKind::Period, field.kind],
        ExprModel::EnumVariant(owner, variant) => seq![
            owner.kind,
            TokenKind::Col,
            TokenKind::Col,
            variant.kind,
        ],
        ExprModel::ArrayAccess(array, index) => seq![array.kind, TokenKind::SquareOpen]
            + expr_written(*index) + seq![TokenKind::SquareClose],
    }
}

/// Arguments written out with a comma between each two.
pub open spec fn args_written(args: Seq<ExprModel>) -> Seq<TokenKind>
    decreases args,
{
    if args.len() == 0 {
        Seq::empty()
    } else if args.len() == 1 {
        expr_written(args.last())
    } else {
        args_written(args.drop_last()) + seq![TokenKind::Comma] + expr_written(args.last())
    }
}

/// Arguments written out with a comma behind each.
pub open spec fn args_with_commas(args: Seq<ExprModel>) -> Seq<TokenKind>
    decreases args,
{
    if args.len() == 0 {
        Seq::empty()
    } else {
        args_with_commas(args.drop_last()) + expr_written(args.last()) + seq![TokenKind::Comma]
    }
}

/// One more argument behind arguments that each have a comma behind them.
pub proof fn lemma_args_written_push(args: Seq<ExprModel>, last: ExprModel)
    ensures
        args_written(args.push(last)) == args_with_commas(args) + expr_written(last),
    decreases args.len(),
{
    let all = args.push(last);
    assert(all.drop_last() =~= args);
    if args.len() == 0 {
        assert(args_with_commas(args) + expr_written(last) =~= expr_written(last));
    } else {
        lemma_args_written_push(args.drop_last(), args.last());
        assert(args.drop_last().push(args.last()) =~= args);
        assert(args_written(args) + seq![TokenKind::Comma] + expr_written(last)
            =~= args_with_commas(args.drop_last()) + expr_written(args.last()) + seq![
            TokenKind::Comma,
        ] + expr_written(last));
    }
}

/// A stretch of a stream is its first part and its second part.
pub proof fn lemma_split(k: Seq<TokenKind>, a: int, b: int, c: int)
    requires
        0 <= a <= b <= c <= k.len(),
    ensures
        k.subrange(a, c) == k.subrange(a, b) + k.subrange(b, c),
{
    assert(k.subrange(a, c) =~= k.subrange(a, b) + k.subrange(b, c));
}

/// A stretch of one token is the kind of that token.
pub proof fn lemma_one(toks: Seq<TokenModel>, a: int)
    requires
        0 <= a < toks.len(),
    ensures
        kinds(toks).subrange(a, a + 1) == seq![kind_at(toks, a)],
{
    assert(kinds(toks).subrange(a, a + 1) =~= seq![kind_at(toks, a)]);
}

/// What a rule read, written out, is the stretch of the stream from `pos`
/// to where the rule ended.
pub open spec fn reads(toks: Seq<TokenModel>, pos: int, next: int, written: Seq<TokenKind>) -> bool {
    0 <= pos <= next <= toks.len() && written == kinds(toks).subrange(pos, next)
}

/// What was read in two stretches, one behind the other, was read in one.
pub proof fn lemma_reads_both(
    toks: Seq<TokenModel>,
    a: int,
    b: int,
    c: int,
    left: Seq<TokenKind>,
    right: Seq<TokenKind>,
)
    requires
        reads(toks, a, b, left),
        reads(toks, b, c, right),
    ensures
        reads(toks, a, c, left + right),
{
    assert(kinds(toks).subrange(a, c) =~= left + right);
}

/// One token was read as its kind.
pub proof fn lemma_reads_one(toks: Seq<TokenModel>, a: int)
    requires
        0 <= a < toks.len(),
    ensures
        reads(toks, a, a + 1, seq![kind_at(toks, a)]),
{
    assert(kinds(toks).subrange(a, a + 1) =~= seq![kind_at(toks, a)]);
}

/// Nothing was read as nothing.
pub proof fn lemma_reads_none(toks: Seq<TokenModel>, a: int)
    requires
        0 <= a <= toks.len(),
    ensures
        reads(toks, a, a, Seq::empty()),
{
    assert(kinds(toks).subrange(a, a) =~= Seq::<TokenKind>::empty());
}

/// A type, written out, is what was read.
pub proof fn lemma_type_written(toks: Seq<TokenModel>, pos: int)
    ensures
        type_at(toks, pos) matches Parsed::Done { value, next } ==> reads(
            toks,
            pos,
            next,
            type_written(value),
        ),
    decreases remaining(toks, pos),
{
    let k = kind_at(toks, pos);
    let ks = kinds(toks);
    if k is Id {
        lemma_one(toks, pos);
    } else if k == TokenKind::SquareOpen {
        lemma_type_written(toks, pos + 1);
        match type_at(toks, pos + 1) {
            Parsed::Done { value, next } => {
                if kind_at(toks, next) == TokenKind::SemiCol && kind_at(toks, next + 1) is Lit
                    && kind_at(toks, next + 2) == TokenKind::SquareClose {
                    lemma_one(toks, pos);
                    lemma_split(ks, pos, pos + 1, next + 3);
                    lemma_split(ks, pos + 1, next, next + 3);
                    assert(ks.subrange(next, next + 3) =~= seq![
                        TokenKind::SemiCol,
                        toks[next + 1].kind,
                        TokenKind::SquareClose,
                    ]);
                    assert(ks.subrange(pos, next + 3) =~= ks.subrange(pos, pos + 1) + ks.subrange(
                        pos + 1,
                        next,
                    ) + ks.subrange(next, next + 3));
                }
            },
            _ => {},
        }
    } else if k == TokenKind::Key("@"@) {
        lemma_type_written(toks, pos + 1);
        match type_at(toks, pos + 1) {
            Parsed::Done { value, next } => {
                lemma_one(toks, pos);
                lemma_split(ks, pos, pos + 1, next);
            },
            _ => {},
        }
    }
}

/// An assignment: what was read, written out.
pub proof fn lemma_assign_written(toks: Seq<TokenModel>, pos: int)
    ensures
        assign_at(toks, pos) matches Parsed::Done { value, next } ==> reads(
            toks,
            pos,
            next,
            expr_written(value),
        ),
    decreases remaining(toks, pos), 20nat,
{
    lemma_equality_written(toks, pos);
    match forward(toks, pos, equality_at(toks, pos)) {
        Parsed::Done { value, next } => {
            if kind_at(toks, next) == TokenKind::Op("="@) {
                lemma_assign_written(toks, next + 1);
                match assign_at(toks, next + 1) {
                    Parsed::Done { value: right, next: end } => {
                        lemma_joined(
                            toks,
                            pos,
                            next,
                            end,
                            expr_written(value),
                            expr_written(right),
                        );
                    },
                    _ => {},
                }
            }
        },
        _ => {},
    }
}

/// Equality: what was read, written out.
pub proof fn lemma_equality_written(toks: Seq<TokenModel>, pos: int)
    ensures
        equality_at(toks, pos) matches Parsed::Done { value, next } ==> reads(
            toks,
            pos,
            next,
            expr_written(value),
        ),
    decreases remaining(toks, pos), 18nat,
{
    lemma_comparison_written(toks, pos);
    match forward(toks, pos, comparison_at(toks, pos)) {
        Parsed::Done { value, next } => {
            lemma_equality_tail_written(toks, value, pos, next);
        },
        _ => {},
    }
}

/// The rest of a chain: what was read from `start` on, written out.
pub proof fn lemma_equality_tail_written(toks: Seq<TokenModel>, left: ExprModel, start: int, pos: int)
    requires
        reads(toks, start, pos, expr_written(left)),
    ensures
        equality_tail(toks, left, pos) matches Parsed::Done { value, next } ==> reads(
            toks,
            start,
            next,
            expr_written(value),
        ),
    decreases remaining(toks, pos), 17nat,
{
    if is_equality_op(kind_at(toks, pos)) {
        lemma_comparison_written(toks, pos + 1);
        match forward(toks, pos + 1, comparison_at(toks, pos + 1)) {
            Parsed::Done { value, next } => {
                let joined = ExprModel::Equality(Box::new(left), toks[pos], Box::new(value));
                lemma_joined(toks, start, pos, next, expr_written(left), expr_written(value));
                lemma_equality_tail_written(toks, joined, start, next);
            },
            _ => {},
        }
    }
}

/// Comparison: what was read, written out.
pub proof fn lemma_comparison_written(toks: Seq<TokenModel>, pos: int)
    ensures
        comparison_at(toks, pos) matches Parsed::Done { value, next } ==> reads(
            toks,
            pos,
            next,
            expr_written(value),
        ),
    decreases remaining(toks, pos), 16nat,
{
    lemma_term_written(toks, pos);
    match forward(toks, pos, term_at(toks, pos)) {
        Parsed::Done { value, next } => {
            lemma_comparison_tail_written(toks, value, pos, next);
        },
        _ => {},
    }
}

/// The rest of a chain: what was read from `start` on, written out.
pub proof fn lemma_comparison_tail_written(toks: Seq<TokenModel>, left: ExprModel, start: int, pos: int)
    requires
        reads(toks, start, pos, expr_written(left)),
    ensures
        comparison_tail(toks, left, pos) matches Parsed::Done { value, next } ==> reads(
            toks,
            start,
            next,
            expr_written(value),
        ),
    decreases remaining(toks, pos), 15nat,
{
    if is_comparison_op(kind_at(toks, pos)) {
        lemma_term_written(toks, pos + 1);
        match forward(toks, pos + 1, term_at(toks, pos + 1)) {
            Parsed::Done { value, next } => {
                let joined = ExprModel::Comparison(Box::new(left), toks[pos], Box::new(value));
                lemma_joined(toks, start, pos, next, expr_written(left), expr_written(value));
                lemma_comparison_tail_written(toks, joined, start, next);
            },
            _ => {},
        }
    }
}

/// Term: what was read, written out.
pub proof fn lemma_term_written(toks: Seq<TokenModel>, pos: int)
    ensures
        term_at(toks, pos) matches Parsed::Done { value, next } ==> reads(
            toks,
            pos,
            next,
            expr_written(value),
        ),
    decreases remaining(toks, pos), 14nat,
{
    lemma_shift_written(toks, pos);
    match forward(toks, pos, shift_at(toks, pos)) {
        Parsed::Done { value, next } => {
            lemma_term_tail_written(toks, value, pos, next);
        },
        _ => {},
    }
}

/// The rest of a chain: what was read from `start` on, written out.
pub proof fn lemma_term_tail_written(toks: Seq<TokenModel>, left: ExprModel, start: int, pos: int)
    requires
        reads(toks, start, pos, expr_written(left)),
    ensures
        term_tail(toks, left, pos) matches Parsed::Done { value, next } ==> reads(
            toks,
            start,
            next,
            expr_written(value),
        ),
    decreases remaining(toks, pos), 13nat,
{
    if is_term_op(kind_at(toks, pos)) {
        lemma_shift_written(toks, pos + 1);
        match forward(toks, pos + 1, shift_at(toks, pos + 1)) {
            Parsed::Done { value, next } => {
                let joined = ExprModel::Term(Box::new(left), toks[pos], Box::new(value));
                lemma_joined(toks, start, pos, next, expr_written(left), expr_written(value));
                lemma_term_tail_written(toks, joined, start, next);
            },
            _ => {},
        }
    }
}

/// A shift: what was read, written out.
pub proof fn lemma_shift_written(toks: Seq<TokenModel>, pos: int)
    ensures
        shift_at(toks, pos) matches Parsed::Done { value, next } ==> reads(
            toks,
            pos,
            next,
            expr_written(value),
        ),
    decreases remaining(toks, pos), 12nat,
{
    lemma_unary_written(toks, pos);
    match forward(toks, pos, unary_at(toks, pos)) {
        Parsed::Done { value, next } => {
            lemma_shift_tail_written(toks, value, pos, next);
        },
        _ => {},
    }
}

/// The rest of a shift chain: what was read from `start` on, written out.
pub proof fn lemma_shift_tail_written(toks: Seq<TokenModel>, left: ExprModel, start: int, pos: int)
    requires
        reads(toks, start, pos, expr_written(left)),
    ensures
        shift_tail(toks, left, pos) matches Parsed::Done { value, next } ==> reads(
            toks,
            start,
            next,
            expr_written(value),
        ),
    decreases remaining(toks, pos), 11nat,
{
    if is_shift_op(kind_at(toks, pos)) {
        lemma_primary_written(toks, pos + 1);
        match forward(toks, pos + 1, primary_at(toks, pos + 1)) {
            Parsed::Done { value, next } => {
                let joined = ExprModel::Shift(Box::new(left), toks[pos], Box::new(value));
                lemma_joined(toks, start, pos, next, expr_written(left), expr_written(value));
                lemma_shift_tail_written(toks, joined, start, next);
            },
            _ => {},
        }
    }
}

/// A unary expression: what was read, written out.
pub proof fn lemma_unary_written(toks: Seq<TokenModel>, pos: int)
    ensures
        unary_at(toks, pos) matches Parsed::Done { value, next } ==> reads(
            toks,
            pos,
            next,
            expr_written(value),
        ),
    decreases remaining(toks, pos), 10nat,
{
    if is_unary_op(kind_at(toks, pos)) {
        lemma_call_written(toks, pos + 1);
        match call_at(toks, pos + 1) {
            Parsed::Done { value, next } => {
                lemma_reads_one(toks, pos);
                lemma_reads_both(toks, pos, pos + 1, next, seq![toks[pos].kind], expr_written(value));
            },
            _ => {},
        }
    } else {
        lemma_call_written(toks, pos);
    }
}

/// A call: what was read, written out.
pub proof fn lemma_call_written(toks: Seq<TokenModel>, pos: int)
    ensures
        call_at(toks, pos) matches Parsed::Done { value, next } ==> reads(
            toks,
            pos,
            next,
            expr_written(value),
        ),
    decreases remaining(toks, pos), 9nat,
{
    let ks = kinds(toks);
    if kind_at(toks, pos) is Id && kind_at(toks, pos + 1) == TokenKind::ParenOpen {
        assert(ks.subrange(pos, pos + 2) =~= seq![toks[pos].kind, TokenKind::ParenOpen]);
        if kind_at(toks, pos + 2) == TokenKind::ParenClose {
            assert(ks.subrange(pos, pos + 3) =~= seq![toks[pos].kind, TokenKind::ParenOpen]
                + args_written(Seq::empty()) + seq![TokenKind::ParenClose]);
        } else {
            assert(ks.subrange(pos + 2, pos + 2) =~= args_with_commas(Seq::empty()));
            lemma_call_args_written(toks, Seq::empty(), pos + 2, pos + 2);
            match call_args(toks, Seq::empty(), pos + 2) {
                Parsed::Done { value, next } => {
                    lemma_split(ks, pos, pos + 2, next);
                    assert(expr_written(ExprModel::FnCall(toks[pos], value)) =~= ks.subrange(
                        pos,
                        next,
                    ));
                },
                _ => {},
            }
        }
    } else {
        lemma_cast_written(toks, pos);
    }
}

/// The arguments of a call: what was read from `start` on, written out,
/// with the closing parenthesis.
pub proof fn lemma_call_args_written(
    toks: Seq<TokenModel>,
    args: Seq<ExprModel>,
    start: int,
    pos: int,
)
    requires
        reads(toks, start, pos, args_with_commas(args)),
    ensures
        call_args(toks, args, pos) matches Parsed::Done { value, next } ==> reads(
            toks,
            start,
            next,
            args_written(value) + seq![TokenKind::ParenClose],
        ),
    decreases remaining(toks, pos), 21nat,
{
    lemma_assign_written(toks, pos);
    match forward(toks, pos, assign_at(toks, pos)) {
        Parsed::Done { value, next } => {
            let ks = kinds(toks);
            let more = args.push(value);
            lemma_args_written_push(args, value);
            assert(more.drop_last() =~= args);
            if kind_at(toks, next) == TokenKind::ParenClose {
                lemma_one(toks, next);
                lemma_split(ks, start, pos, next + 1);
                lemma_split(ks, pos, next, next + 1);
                assert(args_written(more) + seq![TokenKind::ParenClose] =~= ks.subrange(
                    start,
                    next + 1,
                ));
            } else if kind_at(toks, next) == TokenKind::Comma {
                lemma_one(toks, next);
                lemma_split(ks, start, pos, next + 1);
                lemma_split(ks, pos, next, next + 1);
                assert(args_with_commas(more) =~= ks.subrange(start, next + 1));
                lemma_call_args_written(toks, more, start, next + 1);
            }
        },
        _ => {},
    }
}

/// A stretch of two tokens is the kinds of the two.
pub proof fn lemma_two(toks: Seq<TokenModel>, a: int)
    requires
        0 <= a,
        a + 2 <= toks.len(),
    ensures
        kinds(toks).subrange(a, a + 2) == seq![toks[a].kind, toks[a + 1].kind],
{
    assert(kinds(toks).subrange(a, a + 2) =~= seq![toks[a].kind, toks[a + 1].kind]);
}

/// A stretch of three tokens is the kinds of the three.
pub proof fn lemma_three(toks: Seq<TokenModel>, a: int)
    requires
        0 <= a,
        a + 3 <= toks.len(),
    ensures
        kinds(toks).subrange(a, a + 3) == seq![toks[a].kind, toks[a + 1].kind, toks[a + 2].kind],
{
    assert(kinds(toks).subrange(a, a + 3) =~= seq![
        toks[a].kind,
        toks[a + 1].kind,
        toks[a + 2].kind,
    ]);
}

/// A stretch of four tokens is the kinds of the four.
pub proof fn lemma_four(toks: Seq<TokenModel>, a: int)
    requires
        0 <= a,
        a + 4 <= toks.len(),
    ensures
        kinds(toks).subrange(a, a + 4) == seq![
            toks[a].kind,
            toks[a + 1].kind,
            toks[a + 2].kind,
            toks[a + 3].kind,
        ],
{
    assert(kinds(toks).subrange(a, a + 4) =~= seq![
        toks[a].kind,
        toks[a + 1].kind,
        toks[a + 2].kind,
        toks[a + 3].kind,
    ]);
}

/// A stretch between two single tokens.
pub proof fn lemma_wrapped(toks: Seq<TokenModel>, a: int, b: int, inner: Seq<TokenKind>)
    requires
        0 <= a < b < toks.len(),
        inner == kinds(toks).subrange(a + 1, b),
    ensures
        kinds(toks).subrange(a, b + 1) == seq![toks[a].kind] + inner + seq![toks[b].kind],
{
    assert(kinds(toks).subrange(a, b + 1) =~= seq![toks[a].kind] + inner + seq![toks[b].kind]);
}

/// Two stretches with a single token between them.
pub proof fn lemma_joined(
    toks: Seq<TokenModel>,
    a: int,
    b: int,
    c: int,
    left: Seq<TokenKind>,
    right: Seq<TokenKind>,
)
    requires
        0 <= a <= b < c <= toks.len(),
        left == kinds(toks).subrange(a, b),
        right == kinds(toks).subrange(b + 1, c),
    ensures
        kinds(toks).subrange(a, c) == left + seq![toks[b].kind] + right,
{
    assert(kinds(toks).subrange(a, c) =~= left + seq![toks[b].kind] + right);
}

/// A value and the type it is cast to, with `as` between them.
pub proof fn lemma_cast_joined(
    toks: Seq<TokenModel>,
    pos: int,
    next: int,
    end: int,
    value: ExprModel,
    to_type: DeclrTypeModel,
)
    requires
        reads(toks, pos, next, expr_written(value)),
        kind_at(toks, next) == TokenKind::Op("as"@),
        reads(toks, next + 1, end, type_written(to_type)),
    ensures
        reads(toks, pos, end, expr_written(ExprModel::Cast(Box::new(value), to_type))),
{
    lemma_joined(toks, pos, next, end, expr_written(value), type_written(to_type));
}

/// A cast: what was read, written out.
pub proof fn lemma_cast_written(toks: Seq<TokenModel>, pos: int)
    ensures
        cast_at(toks, pos) matches Parsed::Done { value, next } ==> reads(
            toks,
            pos,
            next,
            expr_written(value),
        ),
    decreases remaining(toks, pos), 8nat,
{
    lemma_ref_written(toks, pos);
    let first = ref_at(toks, pos);
    if first is Done {
        let value = first->Done_value;
        let next = first->Done_next;
        if kind_at(toks, next) == TokenKind::Op("as"@) {
            lemma_type_written(toks, next + 1);
            let second = type_at(toks, next + 1);
            if second is Done {
                lemma_cast_joined(toks, pos, next, second->Done_next, value, second->Done_value);
            }
        }
    }
}

/// A reference: what was read, written out.
pub proof fn lemma_ref_written(toks: Seq<TokenModel>, pos: int)
    ensures
        ref_at(toks, pos) matches Parsed::Done { value, next } ==> reads(
            toks,
            pos,
            next,
            expr_written(value),
        ),
    decreases remaining(toks, pos), 7nat,
{
    if is_ref_op(kind_at(toks, pos)) {
        if kind_at(toks, pos + 1) is Id {
            lemma_two(toks, pos);
        }
    } else {
        lemma_primary_written(toks, pos);
    }
}

/// A primary expression: what was read, written out.
pub proof fn lemma_primary_written(toks: Seq<TokenModel>, pos: int)
    ensures
        primary_at(toks, pos) matches Parsed::Done { value, next } ==> reads(
            toks,
            pos,
            next,
            expr_written(value),
        ),
    decreases remaining(toks, pos), 6nat,
{
    let k = kind_at(toks, pos);
    if k == TokenKind::ParenOpen {
        lemma_assign_written(toks, pos + 1);
        match assign_at(toks, pos + 1) {
            Parsed::Done { value, next } => {
                if kind_at(toks, next) == TokenKind::ParenClose {
                    lemma_wrapped(toks, pos, next, expr_written(value));
                }
            },
            _ => {},
        }
    } else if k is Id && kind_at(toks, pos + 1) == TokenKind::Col && kind_at(toks, pos + 2)
        == TokenKind::Col && kind_at(toks, pos + 3) is Id {
        lemma_four(toks, pos);
    } else if k is Id && kind_at(toks, pos + 1) == TokenKind::Period && kind_at(toks, pos + 2) is Id {
        lemma_three(toks, pos);
    } else if k is Id && kind_at(toks, pos + 1) == TokenKind::SquareOpen {
        lemma_assign_written(toks, pos + 2);
        match assign_at(toks, pos + 2) {
            Parsed::Done { value, next } => {
                if kind_at(toks, next) == TokenKind::SquareClose {
                    lemma_two(toks, pos);
                    lemma_wrapped(toks, pos + 1, next, expr_written(value));
                    lemma_split(kinds(toks), pos, pos + 1, next + 1);
                    lemma_one(toks, pos);
                    assert(seq![toks[pos].kind, TokenKind::SquareOpen] =~= seq![toks[pos].kind]
                        + seq![TokenKind::SquareOpen]);
                    assert(expr_written(ExprModel::ArrayAccess(toks[pos], Box::new(value)))
                        =~= seq![toks[pos].kind] + (seq![TokenKind::SquareOpen] + expr_written(
                        value,
                    ) + seq![TokenKind::SquareClose]));
                }
            },
            _ => {},
        }
    } else if k is Lit {
        lemma_one(toks, pos);
    } else if k is Id {
        lemma_one(toks, pos);
    }
}

} // verus!
