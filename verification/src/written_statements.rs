use vstd::prelude::*;
use crate::definitions::{type_at, DeclrTypeModel, TokenKind, TokenModel};
use crate::expression::assign_at;
use crate::parser::{forward, kind_at, remaining, Parsed};
use crate::statement::{
    block_at, block_items, enum_declr_at, fn_declr_at, fn_head_at, if_at, loop_at, param_at,
    params_at, params_tail, program_at, program_items, return_at, statement_at, stmt_at,
    struct_declr_at, var_declr_at, variants_at, variants_tail, while_at, StatementModel,
};
use crate::written::{
    expr_written, kinds, lemma_assign_written, lemma_reads_both, lemma_reads_none,
    lemma_reads_one, lemma_three, lemma_two, lemma_type_written, reads, type_written,
};

verus! {

/// A parameter written out: its name, a colon and its type.
pub open spec fn param_written(p: (TokenModel, DeclrTypeModel)) -> Seq<TokenKind> {
    seq![p.0.kind, TokenKind::Col] + type_written(p.1)
}

/// Parameters written out with a comma between each two.
pub open spec fn params_written(params: Seq<(TokenModel, DeclrTypeModel)>) -> Seq<TokenKind>
    decreases params.len(),
{
    if params.len() == 0 {
        Seq::empty()
    } else if params.len() == 1 {
        param_written(params.last())
    } else {
        params_written(params.drop_last()) + seq![TokenKind::Comma] + param_written(params.last())
    }
}

/// Variants written out with a comma between each two.
pub open spec fn variants_written(variants: Seq<TokenModel>) -> Seq<TokenKind>
    decreases variants.len(),
{
    if variants.len() == 0 {
        Seq::empty()
    } else if variants.len() == 1 {
        seq![variants.last().kind]
    } else {
        variants_written(variants.drop_last()) + seq![TokenKind::Comma, variants.last().kind]
    }
}

/// The head of a function declaration written out, from its name up to its
/// return type.
pub open spec fn head_written(name: TokenModel, params: StatementModel, ret: DeclrTypeModel) -> Seq<
    TokenKind,
> {
    seq![name.kind, TokenKind::ParenOpen] + stmt_written(params) + seq![
        TokenKind::ParenClose,
        TokenKind::Arrow,
    ] + type_written(ret)
}

/// A statement written out as the kinds of its tokens: its keyword, its
/// parts in order, and the punctuation that the grammar asks for.
pub open spec fn stmt_written(s: StatementModel) -> Seq<TokenKind>
    decreases s,
{
    match s {
        StatementModel::Base => Seq::empty(),
        StatementModel::Declr => Seq::empty(),
        StatementModel::Stmt => Seq::empty(),
        StatementModel::Parameters(params) => params_written(params),
        StatementModel::Variant(variants) => variants_written(variants),
        StatementModel::VarDeclr(name, var_type, value) => seq![
            TokenKind::Key("let"@),
            name.kind,
            TokenKind::Col,
        ] + type_written(var_type) + match value {
            Some(v) => seq![TokenKind::Op("="@)] + expr_written(v),
            None => Seq::empty(),
        } + seq![TokenKind::SemiCol],
        StatementModel::FnDeclr(d) => seq![TokenKind::Key("fn"@)] + (seq![
            d.name.kind,
            TokenKind::ParenOpen,
        ] + stmt_written(d.params) + seq![TokenKind::ParenClose, TokenKind::Arrow] + type_written(
            d.ret_type,
        )) + stmt_written(d.body),
        StatementModel::StructDeclr(name, params) => seq![
            TokenKind::Key("struct"@),
            name.kind,
            TokenKind::CurlyOpen,
        ] + stmt_written(*params) + seq![TokenKind::CurlyClose],
        StatementModel::EnumDeclr(name, variants) => seq![
            TokenKind::Key("enum"@),
            name.kind,
            TokenKind::CurlyOpen,
        ] + stmt_written(*variants) + seq![TokenKind::CurlyClose],
        StatementModel::LoopStmt(body) => seq![TokenKind::Key("loop"@)] + stmt_written(*body),
        StatementModel::IfStmt(cond, yes, no) => seq![TokenKind::Key("if"@)] + expr_written(cond)
            + stmt_written(*yes) + match no {
            Some(b) => seq![TokenKind::Key("else"@)] + stmt_written(*b),
            None => Seq::empty(),
        },
        StatementModel::WhileStmt(cond, body, _) => seq![TokenKind::Key("while"@)] + expr_written(
            cond,
        ) + stmt_written(*body),
        StatementModel::BreakStmt(t) => seq![t.kind, TokenKind::SemiCol],
        StatementModel::ReturnStmt(t, value) => seq![t.kind] + expr_written(value) + seq![
            TokenKind::SemiCol,
        ],
        StatementModel::ExprStmt(e) => expr_written(e) + seq![TokenKind::SemiCol],
        StatementModel::Block(items) => seq![TokenKind::CurlyOpen] + items_written(items) + seq![
            TokenKind::CurlyClose,
        ],
    }
}

/// Statements written out one behind the other.
pub open spec fn items_written(items: Seq<StatementModel>) -> Seq<TokenKind>
    decreases items,
{
    if items.len() == 0 {
        Seq::empty()
    } else {
        items_written(items.drop_last()) + stmt_written(items.last())
    }
}

/// One more statement behind statements written out.
pub proof fn lemma_items_written_push(items: Seq<StatementModel>, last: StatementModel)
    ensures
        items_written(items.push(last)) == items_written(items) + stmt_written(last),
{
    assert(items.push(last).drop_last() =~= items);
}

/// A parameter: what was read, written out.
pub proof fn lemma_param_written(toks: Seq<TokenModel>, pos: int)
    ensures
        param_at(toks, pos) matches Parsed::Done { value, next } ==> reads(
            toks,
            pos,
            next,
            param_written(value),
        ),
{
    if kind_at(toks, pos) is Id && kind_at(toks, pos + 1) == TokenKind::Col {
        lemma_type_written(toks, pos + 2);
        match type_at(toks, pos + 2) {
            Parsed::Done { value, next } => {
                lemma_two(toks, pos);
                lemma_reads_both(
                    toks,
                    pos,
                    pos + 2,
                    next,
                    seq![toks[pos].kind, TokenKind::Col],
                    type_written(value),
                );
            },
            _ => {},
        }
    }
}

/// The rest of a parameter list: what was read from `start` on, written
/// out.
pub proof fn lemma_params_tail_written(
    toks: Seq<TokenModel>,
    params: Seq<(TokenModel, DeclrTypeModel)>,
    start: int,
    pos: int,
)
    requires
        params.len() > 0,
        reads(toks, start, pos, params_written(params)),
    ensures
        params_tail(toks, params, pos) matches Parsed::Done { value, next } ==> reads(
            toks,
            start,
            next,
            params_written(value),
        ),
    decreases remaining(toks, pos),
{
    if kind_at(toks, pos) == TokenKind::Comma {
        lemma_param_written(toks, pos + 1);
        match forward(toks, pos + 1, param_at(toks, pos + 1)) {
            Parsed::Done { value, next } => {
                let more = params.push(value);
                assert(more.drop_last() =~= params);
                lemma_reads_one(toks, pos);
                lemma_reads_both(
                    toks,
                    start,
                    pos,
                    pos + 1,
                    params_written(params),
                    seq![TokenKind::Comma],
                );
                lemma_reads_both(
                    toks,
                    start,
                    pos + 1,
                    next,
                    params_written(params) + seq![TokenKind::Comma],
                    param_written(value),
                );
                lemma_params_tail_written(toks, more, start, next);
            },
            _ => {},
        }
    }
}

/// A parameter list: what was read, written out.
pub proof fn lemma_params_written(toks: Seq<TokenModel>, pos: int)
    ensures
        params_at(toks, pos) matches Parsed::Done { value, next } ==> reads(
            toks,
            pos,
            next,
            stmt_written(value),
        ),
{
    lemma_param_written(toks, pos);
    match param_at(toks, pos) {
        Parsed::Done { value, next } => {
            let first = seq![value];
            assert(first.last() == value);
            lemma_params_tail_written(toks, first, pos, next);
        },
        _ => {},
    }
}

/// The rest of a list of variants: what was read from `start` on, written
/// out.
pub proof fn lemma_variants_tail_written(
    toks: Seq<TokenModel>,
    variants: Seq<TokenModel>,
    start: int,
    pos: int,
)
    requires
        variants.len() > 0,
        reads(toks, start, pos, variants_written(variants)),
    ensures
        variants_tail(toks, variants, pos) matches Parsed::Done { value, next } ==> reads(
            toks,
            start,
            next,
            variants_written(value),
        ),
    decreases remaining(toks, pos),
{
    if kind_at(toks, pos) == TokenKind::Comma && kind_at(toks, pos + 1) is Id {
        let more = variants.push(toks[pos + 1]);
        assert(more.drop_last() =~= variants);
        lemma_two(toks, pos);
        lemma_reads_both(
            toks,
            start,
            pos,
            pos + 2,
            variants_written(variants),
            seq![TokenKind::Comma, toks[pos + 1].kind],
        );
        lemma_variants_tail_written(toks, more, start, pos + 2);
    }
}

/// A list of variants: what was read, written out.
pub proof fn lemma_variants_written(toks: Seq<TokenModel>, pos: int)
    ensures
        variants_at(toks, pos) matches Parsed::Done { value, next } ==> reads(
            toks,
            pos,
            next,
            stmt_written(value),
        ),
{
    if kind_at(toks, pos) is Id {
        let first = seq![toks[pos]];
        assert(first.last() == toks[pos]);
        lemma_reads_one(toks, pos);
        lemma_variants_tail_written(toks, first, pos, pos + 1);
    }
}

/// A variable declaration: what was read from `let` on, written out.
pub proof fn lemma_var_declr_written(toks: Seq<TokenModel>, pos: int)
    requires
        kind_at(toks, pos - 1) == TokenKind::Key("let"@),
    ensures
        var_declr_at(toks, pos) matches Parsed::Done { value, next } ==> reads(
            toks,
            pos - 1,
            next,
            stmt_written(value),
        ),
{
    if kind_at(toks, pos) is Id && kind_at(toks, pos + 1) == TokenKind::Col {
        lemma_type_written(toks, pos + 2);
        match type_at(toks, pos + 2) {
            Parsed::Done { value: var_type, next } => {
                lemma_three(toks, pos - 1);
                let head = seq![TokenKind::Key("let"@), toks[pos].kind, TokenKind::Col];
                lemma_reads_both(toks, pos - 1, pos + 2, next, head, type_written(var_type));
                let typed = head + type_written(var_type);
                if kind_at(toks, next) == TokenKind::Op("="@) {
                    lemma_assign_written(toks, next + 1);
                    match assign_at(toks, next + 1) {
                        Parsed::Done { value, next: end } => {
                            if kind_at(toks, end) == TokenKind::SemiCol {
                                lemma_reads_one(toks, next);
                                lemma_reads_both(
                                    toks,
                                    next,
                                    next + 1,
                                    end,
                                    seq![TokenKind::Op("="@)],
                                    expr_written(value),
                                );
                                let given = seq![TokenKind::Op("="@)] + expr_written(value);
                                lemma_reads_both(toks, pos - 1, next, end, typed, given);
                                lemma_reads_one(toks, end);
                                lemma_reads_both(
                                    toks,
                                    pos - 1,
                                    end,
                                    end + 1,
                                    typed + given,
                                    seq![TokenKind::SemiCol],
                                );
                            }
                        },
                        _ => {},
                    }
                } else if kind_at(toks, next) == TokenKind::SemiCol {
                    assert(typed + Seq::<TokenKind>::empty() =~= typed);
                    lemma_reads_one(toks, next);
                    lemma_reads_both(
                        toks,
                        pos - 1,
                        next,
                        next + 1,
                        typed,
                        seq![TokenKind::SemiCol],
                    );
                }
            },
            _ => {},
        }
    }
}

/// A struct declaration: what was read from `struct` on, written out.
pub proof fn lemma_struct_declr_written(toks: Seq<TokenModel>, pos: int)
    requires
        kind_at(toks, pos - 1) == TokenKind::Key("struct"@),
    ensures
        struct_declr_at(toks, pos) matches Parsed::Done { value, next } ==> reads(
            toks,
            pos - 1,
            next,
            stmt_written(value),
        ),
{
    if kind_at(toks, pos) is Id && kind_at(toks, pos + 1) == TokenKind::CurlyOpen {
        lemma_three(toks, pos - 1);
        let head = seq![TokenKind::Key("struct"@), toks[pos].kind, TokenKind::CurlyOpen];
        lemma_params_written(toks, pos + 2);
        lemma_reads_none(toks, pos + 2);
        let fields = if kind_at(toks, pos + 2) != TokenKind::CurlyClose {
            params_at(toks, pos + 2)
        } else {
            Parsed::Done { value: StatementModel::Parameters(Seq::empty()), next: pos + 2 }
        };
        match fields {
            Parsed::Done { value, next } => {
                if kind_at(toks, next) == TokenKind::CurlyClose {
                    lemma_reads_both(toks, pos - 1, pos + 2, next, head, stmt_written(value));
                    lemma_reads_one(toks, next);
                    lemma_reads_both(
                        toks,
                        pos - 1,
                        next,
                        next + 1,
                        head + stmt_written(value),
                        seq![TokenKind::CurlyClose],
                    );
                }
            },
            _ => {},
        }
    }
}

/// An enum declaration: what was read from `enum` on, written out.
pub proof fn lemma_enum_declr_written(toks: Seq<TokenModel>, pos: int)
    requires
        kind_at(toks, pos - 1) == TokenKind::Key("enum"@),
    ensures
        enum_declr_at(toks, pos) matches Parsed::Done { value, next } ==> reads(
            toks,
            pos - 1,
            next,
            stmt_written(value),
        ),
{
    if kind_at(toks, pos) is Id && kind_at(toks, pos + 1) == TokenKind::CurlyOpen {
        lemma_three(toks, pos - 1);
        let head = seq![TokenKind::Key("enum"@), toks[pos].kind, TokenKind::CurlyOpen];
        lemma_variants_written(toks, pos + 2);
        lemma_reads_none(toks, pos + 2);
        let variants = if kind_at(toks, pos + 2) != TokenKind::CurlyClose {
            variants_at(toks, pos + 2)
        } else {
            Parsed::Done { value: StatementModel::Variant(Seq::empty()), next: pos + 2 }
        };
        match variants {
            Parsed::Done { value, next } => {
                if kind_at(toks, next) == TokenKind::CurlyClose {
                    lemma_reads_both(toks, pos - 1, pos + 2, next, head, stmt_written(value));
                    lemma_reads_one(toks, next);
                    lemma_reads_both(
                        toks,
                        pos - 1,
                        next,
                        next + 1,
                        head + stmt_written(value),
                        seq![TokenKind::CurlyClose],
                    );
                }
            },
            _ => {},
        }
    }
}

/// The head of a function declaration: what was read up to the brace that
/// opens the body, written out; the brace is the last token read.
pub proof fn lemma_fn_head_written(toks: Seq<TokenModel>, pos: int)
    ensures
        fn_head_at(toks, pos) matches Parsed::Done { value, next } ==> reads(
            toks,
            pos,
            next - 1,
            head_written(value.0, value.1, value.2),
        ) && kind_at(toks, next - 1) == TokenKind::CurlyOpen,
{
    if kind_at(toks, pos) is Id && kind_at(toks, pos + 1) == TokenKind::ParenOpen {
        lemma_two(toks, pos);
        let head = seq![toks[pos].kind, TokenKind::ParenOpen];
        lemma_params_written(toks, pos + 2);
        lemma_reads_none(toks, pos + 2);
        let params = if kind_at(toks, pos + 2) != TokenKind::ParenClose {
            params_at(toks, pos + 2)
        } else {
            Parsed::Done { value: StatementModel::Parameters(Seq::empty()), next: pos + 2 }
        };
        match params {
            Parsed::Done { value, next } => {
                if kind_at(toks, next) == TokenKind::ParenClose && kind_at(toks, next + 1)
                    == TokenKind::Arrow {
                    lemma_reads_both(toks, pos, pos + 2, next, head, stmt_written(value));
                    lemma_two(toks, next);
                    lemma_reads_both(
                        toks,
                        pos,
                        next,
                        next + 2,
                        head + stmt_written(value),
                        seq![TokenKind::ParenClose, TokenKind::Arrow],
                    );
                    lemma_type_written(toks, next + 2);
                    match type_at(toks, next + 2) {
                        Parsed::Done { value: ret, next: end } => {
                            lemma_reads_both(
                                toks,
                                pos,
                                next + 2,
                                end,
                                head + stmt_written(value) + seq![
                                    TokenKind::ParenClose,
                                    TokenKind::Arrow,
                                ],
                                type_written(ret),
                            );
                        },
                        _ => {},
                    }
                }
            },
            _ => {},
        }
    }
}

/// What stands behind `return`: what was read from the token before it on,
/// written out.
pub proof fn lemma_return_written(toks: Seq<TokenModel>, pos: int)
    requires
        1 <= pos,
    ensures
        return_at(toks, pos) matches Parsed::Done { value, next } ==> reads(
            toks,
            pos - 1,
            next,
            stmt_written(value),
        ),
{
    lemma_assign_written(toks, pos);
    match assign_at(toks, pos) {
        Parsed::Done { value, next } => {
            if kind_at(toks, next) == TokenKind::SemiCol {
                lemma_reads_one(toks, pos - 1);
                lemma_reads_both(
                    toks,
                    pos - 1,
                    pos,
                    next,
                    seq![toks[pos - 1].kind],
                    expr_written(value),
                );
                lemma_reads_one(toks, next);
                lemma_reads_both(
                    toks,
                    pos - 1,
                    next,
                    next + 1,
                    seq![toks[pos - 1].kind] + expr_written(value),
                    seq![TokenKind::SemiCol],
                );
            }
        },
        _ => {},
    }
}

/// A declaration or statement: what was read, written out.
pub proof fn lemma_statement_written(toks: Seq<TokenModel>, pos: int)
    ensures
        statement_at(toks, pos) matches Parsed::Done { value, next } ==> reads(
            toks,
            pos,
            next,
            stmt_written(value),
        ),
    decreases remaining(toks, pos), 2nat,
{
    let k = kind_at(toks, pos);
    if k == TokenKind::Key("let"@) {
        lemma_var_declr_written(toks, pos + 1);
    } else if k == TokenKind::Key("fn"@) {
        lemma_fn_declr_written(toks, pos + 1);
    } else if k == TokenKind::Key("struct"@) {
        lemma_struct_declr_written(toks, pos + 1);
    } else if k == TokenKind::Key("enum"@) {
        lemma_enum_declr_written(toks, pos + 1);
    } else {
        lemma_stmt_written(toks, pos);
    }
}

/// A statement: what was read, written out.
pub proof fn lemma_stmt_written(toks: Seq<TokenModel>, pos: int)
    ensures
        stmt_at(toks, pos) matches Parsed::Done { value, next } ==> reads(
            toks,
            pos,
            next,
            stmt_written(value),
        ),
    decreases remaining(toks, pos), 1nat,
{
    let k = kind_at(toks, pos);
    if k == TokenKind::CurlyOpen {
        lemma_block_written(toks, pos + 1);
    } else if k == TokenKind::Key("loop"@) {
        lemma_loop_written(toks, pos + 1);
    } else if k == TokenKind::Key("if"@) {
        lemma_if_written(toks, pos + 1);
    } else if k == TokenKind::Key("while"@) {
        lemma_while_written(toks, pos + 1);
    } else if k == TokenKind::Key("break"@) {
        if kind_at(toks, pos + 1) == TokenKind::SemiCol {
            lemma_two(toks, pos);
        }
    } else if k == TokenKind::Key("return"@) {
        lemma_return_written(toks, pos + 1);
    } else {
        lemma_assign_written(toks, pos);
        match assign_at(toks, pos) {
            Parsed::Done { value, next } => {
                if kind_at(toks, next) == TokenKind::SemiCol {
                    lemma_reads_one(toks, next);
                    lemma_reads_both(
                        toks,
                        pos,
                        next,
                        next + 1,
                        expr_written(value),
                        seq![TokenKind::SemiCol],
                    );
                }
            },
            _ => {},
        }
    }
}

/// The statements of a block: what was read from `start` on, written out,
/// with the closing brace.
pub proof fn lemma_block_items_written(
    toks: Seq<TokenModel>,
    items: Seq<StatementModel>,
    start: int,
    pos: int,
)
    requires
        reads(toks, start, pos, items_written(items)),
    ensures
        block_items(toks, items, pos) matches Parsed::Done { value, next } ==> reads(
            toks,
            start,
            next,
            items_written(value) + seq![TokenKind::CurlyClose],
        ),
    decreases remaining(toks, pos), 3nat,
{
    let k = kind_at(toks, pos);
    if k == TokenKind::CurlyClose {
        lemma_reads_one(toks, pos);
        lemma_reads_both(
            toks,
            start,
            pos,
            pos + 1,
            items_written(items),
            seq![TokenKind::CurlyClose],
        );
    } else if k != TokenKind::EOF {
        lemma_statement_written(toks, pos);
        match forward(toks, pos, statement_at(toks, pos)) {
            Parsed::Done { value, next } => {
                lemma_items_written_push(items, value);
                lemma_reads_both(toks, start, pos, next, items_written(items), stmt_written(value));
                lemma_block_items_written(toks, items.push(value), start, next);
            },
            _ => {},
        }
    }
}

/// A block: what was read from its opening brace on, written out.
pub proof fn lemma_block_written(toks: Seq<TokenModel>, pos: int)
    requires
        kind_at(toks, pos - 1) == TokenKind::CurlyOpen,
    ensures
        block_at(toks, pos) matches Parsed::Done { value, next } ==> reads(
            toks,
            pos - 1,
            next,
            stmt_written(value),
        ),
    decreases remaining(toks, pos), 4nat,
{
    lemma_reads_none(toks, pos);
    lemma_block_items_written(toks, Seq::empty(), pos, pos);
    match block_items(toks, Seq::empty(), pos) {
        Parsed::Done { value, next } => {
            lemma_reads_one(toks, pos - 1);
            lemma_reads_both(
                toks,
                pos - 1,
                pos,
                next,
                seq![TokenKind::CurlyOpen],
                items_written(value) + seq![TokenKind::CurlyClose],
            );
            assert(seq![TokenKind::CurlyOpen] + (items_written(value) + seq![
                TokenKind::CurlyClose,
            ]) =~= seq![TokenKind::CurlyOpen] + items_written(value) + seq![
                TokenKind::CurlyClose,
            ]);
        },
        _ => {},
    }
}

/// What stands behind `loop`: what was read from `loop` on, written out.
pub proof fn lemma_loop_written(toks: Seq<TokenModel>, pos: int)
    requires
        kind_at(toks, pos - 1) == TokenKind::Key("loop"@),
    ensures
        loop_at(toks, pos) matches Parsed::Done { value, next } ==> reads(
            toks,
            pos - 1,
            next,
            stmt_written(value),
        ),
    decreases remaining(toks, pos), 5nat,
{
    if kind_at(toks, pos) == TokenKind::CurlyOpen {
        lemma_block_written(toks, pos + 1);
        match block_at(toks, pos + 1) {
            Parsed::Done { value, next } => {
                lemma_reads_one(toks, pos - 1);
                lemma_reads_both(
                    toks,
                    pos - 1,
                    pos,
                    next,
                    seq![TokenKind::Key("loop"@)],
                    stmt_written(value),
                );
            },
            _ => {},
        }
    }
}

/// What stands behind `if`: what was read from `if` on, written out.
pub proof fn lemma_if_written(toks: Seq<TokenModel>, pos: int)
    requires
        kind_at(toks, pos - 1) == TokenKind::Key("if"@),
    ensures
        if_at(toks, pos) matches Parsed::Done { value, next } ==> reads(
            toks,
            pos - 1,
            next,
            stmt_written(value),
        ),
    decreases remaining(toks, pos), 5nat,
{
    lemma_assign_written(toks, pos);
    match forward(toks, pos, assign_at(toks, pos)) {
        Parsed::Done { value: cond, next } => {
            if kind_at(toks, next) == TokenKind::CurlyOpen {
                lemma_block_written(toks, next + 1);
                match forward(toks, next + 1, block_at(toks, next + 1)) {
                    Parsed::Done { value: yes, next: mid } => {
                        lemma_reads_one(toks, pos - 1);
                        lemma_reads_both(
                            toks,
                            pos - 1,
                            pos,
                            next,
                            seq![TokenKind::Key("if"@)],
                            expr_written(cond),
                        );
                        let head = seq![TokenKind::Key("if"@)] + expr_written(cond);
                        lemma_reads_both(toks, pos - 1, next, mid, head, stmt_written(yes));
                        let first = head + stmt_written(yes);
                        if kind_at(toks, mid) == TokenKind::Key("else"@) {
                            if kind_at(toks, mid + 1) == TokenKind::CurlyOpen {
                                lemma_block_written(toks, mid + 2);
                                match block_at(toks, mid + 2) {
                                    Parsed::Done { value: no, next: end } => {
                                        lemma_reads_one(toks, mid);
                                        lemma_reads_both(
                                            toks,
                                            mid,
                                            mid + 1,
                                            end,
                                            seq![TokenKind::Key("else"@)],
                                            stmt_written(no),
                                        );
                                        lemma_reads_both(
                                            toks,
                                            pos - 1,
                                            mid,
                                            end,
                                            first,
                                            seq![TokenKind::Key("else"@)] + stmt_written(no),
                                        );
                                    },
                                    _ => {},
                                }
                            }
                        } else {
                            assert(first + Seq::<TokenKind>::empty() =~= first);
                        }
                    },
                    _ => {},
                }
            }
        },
        _ => {},
    }
}

/// What stands behind `while`: what was read from `while` on, written out.
pub proof fn lemma_while_written(toks: Seq<TokenModel>, pos: int)
    requires
        kind_at(toks, pos - 1) == TokenKind::Key("while"@),
    ensures
        while_at(toks, pos) matches Parsed::Done { value, next } ==> reads(
            toks,
            pos - 1,
            next,
            stmt_written(value),
        ),
    decreases remaining(toks, pos), 5nat,
{
    lemma_assign_written(toks, pos);
    match forward(toks, pos, assign_at(toks, pos)) {
        Parsed::Done { value: cond, next } => {
            if kind_at(toks, next) == TokenKind::CurlyOpen {
                lemma_block_written(toks, next + 1);
                match block_at(toks, next + 1) {
                    Parsed::Done { value: body, next: end } => {
                        lemma_reads_one(toks, pos - 1);
                        lemma_reads_both(
                            toks,
                            pos - 1,
                            pos,
                            next,
                            seq![TokenKind::Key("while"@)],
                            expr_written(cond),
                        );
                        lemma_reads_both(
                            toks,
                            pos - 1,
                            next,
                            end,
                            seq![TokenKind::Key("while"@)] + expr_written(cond),
                            stmt_written(body),
                        );
                    },
                    _ => {},
                }
            }
        },
        _ => {},
    }
}

/// A function declaration: what was read from `fn` on, written out.
pub proof fn lemma_fn_declr_written(toks: Seq<TokenModel>, pos: int)
    requires
        kind_at(toks, pos - 1) == TokenKind::Key("fn"@),
    ensures
        fn_declr_at(toks, pos) matches Parsed::Done { value, next } ==> reads(
            toks,
            pos - 1,
            next,
            stmt_written(value),
        ),
    decreases remaining(toks, pos), 5nat,
{
    lemma_fn_head_written(toks, pos);
    match forward(toks, pos, fn_head_at(toks, pos)) {
        Parsed::Done { value: head, next } => {
            lemma_block_written(toks, next);
            match block_at(toks, next) {
                Parsed::Done { value: body, next: end } => {
                    lemma_reads_one(toks, pos - 1);
                    let written = head_written(head.0, head.1, head.2);
                    lemma_reads_both(
                        toks,
                        pos - 1,
                        pos,
                        next - 1,
                        seq![TokenKind::Key("fn"@)],
                        written,
                    );
                    lemma_reads_both(
                        toks,
                        pos - 1,
                        next - 1,
                        end,
                        seq![TokenKind::Key("fn"@)] + written,
                        stmt_written(body),
                    );
                },
                _ => {},
            }
        },
        _ => {},
    }
}

/// The statements of a program: what was read from `start` on, written
/// out.
pub proof fn lemma_program_items_written(
    toks: Seq<TokenModel>,
    items: Seq<StatementModel>,
    start: int,
    pos: int,
)
    requires
        reads(toks, start, pos, items_written(items)),
    ensures
        program_items(toks, items, pos) matches Parsed::Done { value, next } ==> reads(
            toks,
            start,
            next,
            items_written(value),
        ) && kind_at(toks, next) == TokenKind::EOF,
    decreases remaining(toks, pos),
{
    if kind_at(toks, pos) != TokenKind::EOF {
        lemma_statement_written(toks, pos);
        match forward(toks, pos, statement_at(toks, pos)) {
            Parsed::Done { value, next } => {
                lemma_items_written_push(items, value);
                lemma_reads_both(toks, start, pos, next, items_written(items), stmt_written(value));
                lemma_program_items_written(toks, items.push(value), start, next);
            },
            _ => {},
        }
    }
}

/// A program that parses is its tokens: the statements read, written out
/// one behind the other, are the kinds of the tokens from where parsing
/// began to the end-of-input token at which it ended.
pub proof fn lemma_program_written(toks: Seq<TokenModel>, pos: int)
    requires
        0 <= pos <= toks.len(),
    ensures
        program_at(toks, pos) matches Parsed::Done { value, next } ==> reads(
            toks,
            pos,
            next,
            items_written(value),
        ) && kind_at(toks, next) == TokenKind::EOF,
{
    lemma_reads_none(toks, pos);
    lemma_program_items_written(toks, Seq::empty(), pos, pos);
}

} // verus!
