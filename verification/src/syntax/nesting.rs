use vstd::prelude::*;
use crate::definitions::{DeclrTypeModel, TokenModel};
use crate::statement::StatementModel;
use crate::syntax::scope::{ScopeModel, ScopeOpModel};
use crate::syntax::types::{StructDefModel, UserTypeModel};
use crate::syntax::{
    bind_params, check_all, check_stmt, collect_from, collect_step, define_types, params_of,
    resolve_or_unknown, resolve_pending, second_pass_fields, Collected, SyntaxErrModel,
};

verus! {

/// The entries that a checked statement leaves on the stack: bindings of
/// variables and functions.
pub open spec fn is_binding(op: ScopeOpModel) -> bool {
    op is Variable || op is Func
}

/// `after` is `before` with bindings put on its stack and the same types in
/// scope.
pub open spec fn extends(before: ScopeModel, after: ScopeModel) -> bool {
    &&& before.stack.len() <= after.stack.len()
    &&& after.stack.take(before.stack.len() as int) == before.stack
    &&& forall|i: int|
        before.stack.len() <= i < after.stack.len() ==> is_binding(#[trigger] after.stack[i])
    &&& after.defined_types == before.defined_types
}

/// How many user types stand on the stack above the entry at `n`.
pub open spec fn types_above(stack: Seq<ScopeOpModel>, n: int) -> nat
    decreases stack.len(),
{
    if stack.len() <= n + 1 || stack.len() == 0 {
        0
    } else if stack.last() is UserType {
        1 + types_above(stack.drop_last(), n)
    } else {
        types_above(stack.drop_last(), n)
    }
}

/// `cur` is inside the lexical level that was entered from `base`: the
/// stack of `base`, the marker of the level, and above it no other level
/// marker; the types in scope are those of `base` and one for each user type
/// above the marker.
pub open spec fn inside_level(base: ScopeModel, cur: ScopeModel) -> bool {
    let n = base.stack.len() as int;
    &&& cur.stack.len() > n
    &&& cur.stack.take(n) == base.stack
    &&& cur.stack[n] == ScopeOpModel::EnterScope(base.used_ids)
    &&& forall|i: int| n < i < cur.stack.len() ==> !(#[trigger] cur.stack[i] is EnterScope)
    &&& cur.defined_types.len() == base.defined_types.len() + types_above(cur.stack, n)
    &&& cur.defined_types.take(base.defined_types.len() as int) == base.defined_types
}

/// Extending is transitive.
pub proof fn lemma_extends_transitive(a: ScopeModel, b: ScopeModel, c: ScopeModel)
    requires
        extends(a, b),
        extends(b, c),
    ensures
        extends(a, c),
{
    assert(c.stack.take(a.stack.len() as int) =~= c.stack.take(b.stack.len() as int).take(
        a.stack.len() as int,
    ));
    assert forall|i: int| a.stack.len() <= i < c.stack.len() implies is_binding(
        #[trigger] c.stack[i],
    ) by {
        if i < b.stack.len() {
            assert(c.stack.take(b.stack.len() as int)[i] == b.stack[i]);
        }
    }
}

/// One more entry on the stack extends the scope if it is a binding.
pub proof fn lemma_push_extends(ss: ScopeModel, after: ScopeModel, op: ScopeOpModel)
    requires
        is_binding(op),
        after.stack == ss.stack.push(op),
        after.defined_types == ss.defined_types,
    ensures
        extends(ss, after),
{
    assert(after.stack.take(ss.stack.len() as int) =~= ss.stack);
}

/// Entering a level leads inside it.
pub proof fn lemma_enter_is_inside(base: ScopeModel)
    ensures
        inside_level(base, base.enter_scope()),
{
    let cur = base.enter_scope();
    let n = base.stack.len() as int;
    assert(cur.stack.take(n) =~= base.stack);
    assert(cur.defined_types.take(base.defined_types.len() as int) =~= base.defined_types);
    assert(types_above(cur.stack, n) == 0);
}

/// Declaring a type inside a level stays inside it.
pub proof fn lemma_declare_type_stays_inside(base: ScopeModel, cur: ScopeModel, t: UserTypeModel)
    requires
        inside_level(base, cur),
    ensures
        inside_level(base, cur.declare_type(t)),
{
    let next = cur.declare_type(t);
    let n = base.stack.len() as int;
    assert(next.stack.take(n) =~= cur.stack.take(n));
    assert(next.stack.drop_last() =~= cur.stack);
    assert(next.defined_types.take(base.defined_types.len() as int) =~= cur.defined_types.take(
        base.defined_types.len() as int,
    ));
    assert forall|i: int| n < i < next.stack.len() implies !(#[trigger] next.stack[i]
        is EnterScope) by {
        if i < cur.stack.len() {
            assert(next.stack[i] == cur.stack[i]);
        }
    }
}

/// Bindings put on a stack add no user type above an entry.
pub proof fn lemma_bindings_add_no_types(shorter: Seq<ScopeOpModel>, longer: Seq<ScopeOpModel>, n: int)
    requires
        0 <= n < shorter.len() <= longer.len(),
        longer.take(shorter.len() as int) == shorter,
        forall|i: int| shorter.len() <= i < longer.len() ==> is_binding(#[trigger] longer[i]),
    ensures
        types_above(longer, n) == types_above(shorter, n),
    decreases longer.len(),
{
    if longer.len() == shorter.len() {
        assert(longer.take(shorter.len() as int) =~= longer);
    } else {
        let rest = longer.drop_last();
        assert(is_binding(longer[longer.len() - 1]));
        assert(rest.take(shorter.len() as int) =~= longer.take(shorter.len() as int));
        assert forall|i: int| shorter.len() <= i < rest.len() implies is_binding(
            #[trigger] rest[i],
        ) by {
            assert(rest[i] == longer[i]);
        }
        lemma_bindings_add_no_types(shorter, rest, n);
    }
}

/// Extending a scope inside a level stays inside it.
pub proof fn lemma_extends_stays_inside(base: ScopeModel, cur: ScopeModel, next: ScopeModel)
    requires
        inside_level(base, cur),
        extends(cur, next),
    ensures
        inside_level(base, next),
{
    let n = base.stack.len() as int;
    assert(next.stack.take(n) =~= next.stack.take(cur.stack.len() as int).take(n));
    assert(next.stack.take(cur.stack.len() as int)[n] == next.stack[n]);
    assert forall|i: int| n < i < next.stack.len() implies !(#[trigger] next.stack[i]
        is EnterScope) by {
        if i < cur.stack.len() {
            assert(next.stack.take(cur.stack.len() as int)[i] == cur.stack[i]);
        } else {
            assert(is_binding(next.stack[i]));
        }
    }
    lemma_bindings_add_no_types(cur.stack, next.stack, n);
}

/// Leaving a level from inside it leads back to where it was entered.
pub proof fn lemma_leave_restores(base: ScopeModel, cur: ScopeModel)
    requires
        inside_level(base, cur),
    ensures
        cur.leave_scope() == base,
    decreases cur.stack.len(),
{
    let n = base.stack.len() as int;
    if cur.stack.len() == n + 1 {
        assert(cur.stack.last() == cur.stack[n]);
        assert(cur.stack.drop_last() =~= cur.stack.take(n));
        assert(types_above(cur.stack, n) == 0);
        assert(cur.defined_types.take(base.defined_types.len() as int) =~= cur.defined_types);
    } else {
        let top = cur.stack.last();
        assert(top == cur.stack[cur.stack.len() - 1]);
        assert(!(top is EnterScope));
        let rest = ScopeModel {
            stack: cur.stack.drop_last(),
            defined_types: if top is UserType && cur.defined_types.len() > 0 {
                cur.defined_types.drop_last()
            } else {
                cur.defined_types
            },
            used_ids: cur.used_ids,
        };
        assert(rest.stack.take(n) =~= cur.stack.take(n));
        assert(rest.stack[n] == cur.stack[n]);
        assert forall|i: int| n < i < rest.stack.len() implies !(#[trigger] rest.stack[i]
            is EnterScope) by {
            assert(rest.stack[i] == cur.stack[i]);
        }
        assert(rest.defined_types.take(base.defined_types.len() as int) =~= cur.defined_types.take(
            base.defined_types.len() as int,
        ));
        lemma_leave_restores(base, rest);
    }
}

/// Every scope extends itself.
pub proof fn lemma_extends_reflexive(ss: ScopeModel)
    ensures
        extends(ss, ss),
{
    assert(ss.stack.take(ss.stack.len() as int) =~= ss.stack);
}

/// The first pass over type declarations stays inside a level.
pub proof fn lemma_collect_stays_inside(
    base: ScopeModel,
    items: Seq<StatementModel>,
    i: int,
    c: Collected,
)
    requires
        inside_level(base, c.ss),
    ensures
        inside_level(base, collect_from(items, i, c).0.ss),
    decreases items.len() - i,
{
    if 0 <= i < items.len() && collect_step(items[i], c) is Ok {
        let next = collect_step(items[i], c)->Ok_0;
        match items[i] {
            StatementModel::StructDeclr(name, params) => {
                if next.ss != c.ss {
                    let t = choose|t: UserTypeModel| next.ss == c.ss.declare_type(t);
                    lemma_declare_type_stays_inside(base, c.ss, t);
                }
            },
            StatementModel::EnumDeclr(name, variants) => {
                let t = choose|t: UserTypeModel| next.ss == c.ss.declare_type(t);
                lemma_declare_type_stays_inside(base, c.ss, t);
            },
            _ => {},
        }
        lemma_collect_stays_inside(base, items, i + 1, next);
    }
}

/// The second pass over type declarations stays inside a level.
pub proof fn lemma_pending_stays_inside(
    base: ScopeModel,
    pending: Seq<StructDefModel>,
    known: Seq<UserTypeModel>,
    ss: ScopeModel,
    j: int,
)
    requires
        inside_level(base, ss),
    ensures
        inside_level(base, resolve_pending(pending, known, ss, j).scope),
    decreases pending.len() - j,
{
    if 0 <= j < pending.len() {
        let second = second_pass_fields(pending[j].fields, known, 0, Seq::empty());
        if second is Ok {
            let t = UserTypeModel::UserStruct(
                StructDefModel { name: pending[j].name, fields: second->Ok_0 },
            );
            lemma_declare_type_stays_inside(base, ss, t);
            lemma_pending_stays_inside(base, pending, known, ss.declare_type(t), j + 1);
        }
    }
}

/// Declaring the types of a level stays inside it, whether it passes or
/// not.
pub proof fn lemma_define_types_stays_inside(
    base: ScopeModel,
    items: Seq<StatementModel>,
    ss: ScopeModel,
)
    requires
        inside_level(base, ss),
    ensures
        inside_level(base, define_types(items, ss).scope),
{
    let start = Collected { ss, known: ss.defined_types, pending: Seq::empty() };
    lemma_collect_stays_inside(base, items, 0, start);
    let first = collect_from(items, 0, start);
    lemma_pending_stays_inside(base, first.0.pending, first.0.known, first.0.ss, 0);
}

/// Binding parameters extends the scope, whether it passes or not.
pub proof fn lemma_bind_params_extends(
    params: Seq<(TokenModel, DeclrTypeModel)>,
    ss: ScopeModel,
    i: int,
)
    ensures
        extends(ss, bind_params(params, ss, i).scope),
    decreases params.len() - i,
{
    if 0 <= i < params.len() && resolve_or_unknown(params[i].1, ss.defined_types) is Ok {
        let t = resolve_or_unknown(params[i].1, ss.defined_types)->Ok_0;
        let next = ss.declare_var(params[i].0.kind.data(), t);
        lemma_push_extends(ss, next, ScopeOpModel::Variable(params[i].0.kind.data(), t));
        lemma_bind_params_extends(params, next, i + 1);
        lemma_extends_transitive(ss, next, bind_params(params, ss, i).scope);
    } else {
        lemma_extends_reflexive(ss);
    }
}

/// Leaving a function body whose marker stood on top of `marked` takes the
/// marker and what was bound above it off the stack.
pub proof fn lemma_leave_func_def(marked: ScopeModel, after: ScopeModel)
    requires
        marked.stack.len() > 0,
        marked.stack.last() is EnterFuncDef,
        extends(marked, after),
    ensures
        after.leave_func_def() == (ScopeModel {
            stack: marked.stack.drop_last(),
            defined_types: after.defined_types,
            used_ids: after.used_ids,
        }),
    decreases after.stack.len(),
{
    let n = marked.stack.len() as int;
    if after.stack.len() == n {
        assert(after.stack.take(n) =~= after.stack);
    } else {
        assert(is_binding(after.stack[after.stack.len() - 1]));
        let rest = ScopeModel {
            stack: after.stack.drop_last(),
            defined_types: after.defined_types,
            used_ids: after.used_ids,
        };
        assert(rest.stack.take(n) =~= after.stack.take(n));
        assert forall|i: int| n <= i < rest.stack.len() implies is_binding(
            #[trigger] rest.stack[i],
        ) by {
            assert(rest.stack[i] == after.stack[i]);
        }
        lemma_leave_func_def(marked, rest);
    }
}

/// Leaving a loop body whose marker stood on top of `marked` takes the
/// marker and what was bound above it off the stack.
pub proof fn lemma_leave_breakable(marked: ScopeModel, after: ScopeModel)
    requires
        marked.stack.len() > 0,
        marked.stack.last() is EnterBreakable,
        extends(marked, after),
    ensures
        after.leave_breakable() == (ScopeModel {
            stack: marked.stack.drop_last(),
            defined_types: after.defined_types,
            used_ids: after.used_ids,
        }),
    decreases after.stack.len(),
{
    let n = marked.stack.len() as int;
    if after.stack.len() == n {
        assert(after.stack.take(n) =~= after.stack);
    } else {
        assert(is_binding(after.stack[after.stack.len() - 1]));
        let rest = ScopeModel {
            stack: after.stack.drop_last(),
            defined_types: after.defined_types,
            used_ids: after.used_ids,
        };
        assert(rest.stack.take(n) =~= after.stack.take(n));
        assert forall|i: int| n <= i < rest.stack.len() implies is_binding(
            #[trigger] rest.stack[i],
        ) by {
            assert(rest.stack[i] == after.stack[i]);
        }
        lemma_leave_breakable(marked, rest);
    }
}

/// The scope after a loop body that passed, with its marker taken off.
pub proof fn lemma_loop_closed(ss: ScopeModel, after: ScopeModel)
    requires
        extends(ss.mark(ScopeOpModel::EnterBreakable), after),
    ensures
        after.leave_breakable().stack == ss.stack,
        after.leave_breakable().defined_types == ss.defined_types,
        after.leave_breakable().used_ids == after.used_ids,
        extends(ss, after.leave_breakable()),
{
    let marked = ss.mark(ScopeOpModel::EnterBreakable);
    lemma_leave_breakable(marked, after);
    assert(marked.stack.drop_last() =~= ss.stack);
    lemma_extends_reflexive(ss);
}

/// A statement that passes leaves the scope it was checked in extended by
/// bindings of variables and functions, with the same types in scope.
///
/// Every marker has its matching end. A block leaves the scope as it was:
/// every entry put on the stack inside a lexical level leaves with the
/// level, the types declared in it leave the types in scope, and the names
/// used are those used before. A loop leaves the stack as it was: its
/// marker and what was bound in its body leave when the body has been
/// checked, so that a `break` behind the loop is outside it.
pub proof fn lemma_statement_extends(s: StatementModel, ss: ScopeModel)
    requires
        check_stmt(s, ss).is_ok(),
    ensures
        extends(ss, check_stmt(s, ss).scope),
        s is Block ==> check_stmt(s, ss).scope == ss,
        s is LoopStmt || s is WhileStmt ==> check_stmt(s, ss).scope.stack == ss.stack,
    decreases s, 0nat,
{
    let result = check_stmt(s, ss).scope;
    match s {
        StatementModel::Block(items) => {
            let entered = ss.enter_scope();
            lemma_enter_is_inside(ss);
            lemma_define_types_stays_inside(ss, items, entered);
            let declared = define_types(items, entered).scope;
            lemma_all_extend(items, declared, 0);
            let after = check_all(items, declared, 0).scope;
            lemma_extends_stays_inside(ss, declared, after);
            lemma_leave_restores(ss, after);
            lemma_extends_reflexive(ss);
        },
        StatementModel::FnDeclr(d) => {
            let bound_fn = ss.declare_fn(*d);
            let marked = bound_fn.mark(ScopeOpModel::EnterFuncDef);
            lemma_bind_params_extends(params_of(d.params), marked, 0);
            let bound = bind_params(params_of(d.params), marked, 0).scope;
            lemma_statement_extends(d.body, bound);
            let after = check_stmt(d.body, bound).scope;
            lemma_extends_transitive(marked, bound, after);
            lemma_leave_func_def(marked, after);
            assert(marked.stack.drop_last() =~= bound_fn.stack);
            lemma_push_extends(ss, result, ScopeOpModel::Func(*d));
        },
        StatementModel::VarDeclr(name, var_type, value) => {
            let t = resolve_or_unknown(var_type, ss.defined_types)->Ok_0;
            lemma_push_extends(ss, result, ScopeOpModel::Variable(name.kind.data(), t));
        },
        StatementModel::LoopStmt(body) => {
            let marked = ss.mark(ScopeOpModel::EnterBreakable);
            lemma_statement_extends(*body, marked);
            lemma_loop_closed(ss, check_stmt(*body, marked).scope);
        },
        StatementModel::IfStmt(cond, yes, no) => {
            lemma_statement_extends(*yes, ss);
            let after = check_stmt(*yes, ss).scope;
            match no {
                Some(b) => {
                    lemma_statement_extends(*b, after);
                    lemma_extends_transitive(ss, after, result);
                },
                None => {},
            }
        },
        StatementModel::WhileStmt(cond, body, _) => {
            let marked = ss.mark(ScopeOpModel::EnterBreakable);
            lemma_statement_extends(*body, marked);
            lemma_loop_closed(ss, check_stmt(*body, marked).scope);
        },
        _ => {
            lemma_extends_reflexive(ss);
        },
    }
}

/// Statements that pass in order leave the scope extended by bindings.
pub proof fn lemma_all_extend(items: Seq<StatementModel>, ss: ScopeModel, i: int)
    requires
        check_all(items, ss, i).is_ok(),
    ensures
        extends(ss, check_all(items, ss, i).scope),
    decreases items, items.len() - i,
{
    if 0 <= i < items.len() {
        lemma_statement_extends(items[i], ss);
        let after = check_stmt(items[i], ss).scope;
        lemma_all_extend(items, after, i + 1);
        lemma_extends_transitive(ss, after, check_all(items, ss, i).scope);
    } else {
        lemma_extends_reflexive(ss);
    }
}

/// A loop whose body is a block leaves the scope as it was.
pub proof fn lemma_loop_restores(s: StatementModel, ss: ScopeModel)
    requires
        s is LoopStmt || s is WhileStmt,
        s is LoopStmt ==> *s->LoopStmt_0 is Block,
        s is WhileStmt ==> *s->WhileStmt_1 is Block,
        check_stmt(s, ss).is_ok(),
    ensures
        check_stmt(s, ss).scope == ss,
{
    let marked = ss.mark(ScopeOpModel::EnterBreakable);
    let body = if s is LoopStmt {
        *s->LoopStmt_0
    } else {
        *s->WhileStmt_1
    };
    lemma_statement_extends(body, marked);
    lemma_extends_reflexive(marked);
    lemma_leave_breakable(marked, marked);
    assert(marked.stack.drop_last() =~= ss.stack);
}

/// A `break` behind a loop is outside the loop: where no loop body is open
/// before a loop, none is open behind it, and a `break` there is refused.
pub proof fn lemma_break_behind_a_loop_fails(
    s: StatementModel,
    token: TokenModel,
    ss: ScopeModel,
)
    requires
        s is LoopStmt || s is WhileStmt,
        check_stmt(s, ss).is_ok(),
        !ss.inside_breakable(),
    ensures
        check_stmt(StatementModel::BreakStmt(token), check_stmt(s, ss).scope).error == Some(
            SyntaxErrModel::BreakOutsideLoop(token),
        ),
{
    lemma_statement_extends(s, ss);
    let after = check_stmt(s, ss).scope;
    assert(after.stack == ss.stack);
}

} // verus!
