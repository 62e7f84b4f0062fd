use vstd::prelude::*;
use crate::statement::{FnDeclr, FnDeclrModel};
use crate::syntax::types::{
    clone_strings, string_models, user_type_models, EnumDefModel, UserEnumDef, UserType,
    UserTypeModel, VarData, VarType, VarTypeModel,
};

verus! {

/// The mathematical value of an entry of the scope stack.
pub enum ScopeOpModel {
    /// The start of a lexical level, with the names used at the level
    /// around it.
    EnterScope(Seq<Seq<char>>),
    /// The start of the body of the function bound directly below.
    EnterFuncDef,
    /// The start of a loop body.
    EnterBreakable,
    UserType(UserTypeModel),
    Variable(Seq<char>, VarTypeModel),
    Func(FnDeclrModel),
}

/// The mathematical value of the scope stack: its entries from the
/// outermost to the innermost, the user types in scope in the order of
/// their declaration, and the names used at the current lexical level.
pub struct ScopeModel {
    pub stack: Seq<ScopeOpModel>,
    pub defined_types: Seq<UserTypeModel>,
    pub used_ids: Seq<Seq<char>>,
}

/// The type of the variable of the given name that was bound last.
pub open spec fn last_variable(stack: Seq<ScopeOpModel>, name: Seq<char>) -> Option<VarTypeModel>
    decreases stack.len(),
{
    if stack.len() == 0 {
        None
    } else {
        match stack.last() {
            ScopeOpModel::Variable(n, t) => if n == name {
                Some(t)
            } else {
                last_variable(stack.drop_last(), name)
            },
            _ => last_variable(stack.drop_last(), name),
        }
    }
}

/// The function of the given name that was bound last.
pub open spec fn last_function(stack: Seq<ScopeOpModel>, name: Seq<char>) -> Option<FnDeclrModel>
    decreases stack.len(),
{
    if stack.len() == 0 {
        None
    } else {
        match stack.last() {
            ScopeOpModel::Func(f) => if f.name.kind.data() == name {
                Some(f)
            } else {
                last_function(stack.drop_last(), name)
            },
            _ => last_function(stack.drop_last(), name),
        }
    }
}

/// The enum of the given name that was declared last.
pub open spec fn last_enum(types: Seq<UserTypeModel>, name: Seq<char>) -> Option<EnumDefModel>
    decreases types.len(),
{
    if types.len() == 0 {
        None
    } else {
        match types.last() {
            UserTypeModel::UserEnum(e) => if e.name == name {
                Some(e)
            } else {
                last_enum(types.drop_last(), name)
            },
            _ => last_enum(types.drop_last(), name),
        }
    }
}

/// The function whose body the innermost function marker starts: the
/// function bound directly below that marker.
pub open spec fn nearest_function(stack: Seq<ScopeOpModel>) -> Option<FnDeclrModel>
    decreases stack.len(),
{
    if stack.len() == 0 {
        None
    } else if stack.last() is EnterFuncDef {
        if stack.len() >= 2 && stack[stack.len() - 2] is Func {
            Some(stack[stack.len() - 2]->Func_0)
        } else {
            None
        }
    } else {
        nearest_function(stack.drop_last())
    }
}

impl ScopeModel {
    /// An empty stack.
    pub open spec fn empty() -> ScopeModel {
        ScopeModel { stack: Seq::empty(), defined_types: Seq::empty(), used_ids: Seq::empty() }
    }

    /// A new lexical level starts: the names used so far are kept in the
    /// marker, and none is used at the new level.
    pub open spec fn enter_scope(self) -> ScopeModel {
        ScopeModel {
            stack: self.stack.push(ScopeOpModel::EnterScope(self.used_ids)),
            defined_types: self.defined_types,
            used_ids: Seq::empty(),
        }
    }

    /// A user type is declared at the current level.
    pub open spec fn declare_type(self, t: UserTypeModel) -> ScopeModel {
        ScopeModel {
            stack: self.stack.push(ScopeOpModel::UserType(t)),
            defined_types: self.defined_types.push(t),
            used_ids: self.used_ids.push(t.name()),
        }
    }

    /// A variable is bound at the current level.
    pub open spec fn declare_var(self, name: Seq<char>, t: VarTypeModel) -> ScopeModel {
        ScopeModel {
            stack: self.stack.push(ScopeOpModel::Variable(name, t)),
            defined_types: self.defined_types,
            used_ids: self.used_ids.push(name),
        }
    }

    /// A function is bound at the current level.
    pub open spec fn declare_fn(self, f: FnDeclrModel) -> ScopeModel {
        ScopeModel {
            stack: self.stack.push(ScopeOpModel::Func(f)),
            defined_types: self.defined_types,
            used_ids: self.used_ids.push(f.name.kind.data()),
        }
    }

    /// A marker is put on the stack.
    pub open spec fn mark(self, marker: ScopeOpModel) -> ScopeModel {
        ScopeModel {
            stack: self.stack.push(marker),
            defined_types: self.defined_types,
            used_ids: self.used_ids,
        }
    }

    /// Whether a loop body is open.
    pub open spec fn inside_breakable(self) -> bool {
        exists|i: int| 0 <= i < self.stack.len() && self.stack[i] is EnterBreakable
    }

    /// The innermost lexical level ends: the entries down to and with its
    /// marker leave the stack, each user type among them leaves the types in
    /// scope, and the names used are again those kept in the marker.
    pub open spec fn leave_scope(self) -> ScopeModel
        decreases self.stack.len(),
    {
        if self.stack.len() == 0 {
            self
        } else {
            match self.stack.last() {
                ScopeOpModel::EnterScope(used) => ScopeModel {
                    stack: self.stack.drop_last(),
                    defined_types: self.defined_types,
                    used_ids: used,
                },
                ScopeOpModel::UserType(_) => (ScopeModel {
                    stack: self.stack.drop_last(),
                    defined_types: if self.defined_types.len() > 0 {
                        self.defined_types.drop_last()
                    } else {
                        self.defined_types
                    },
                    used_ids: self.used_ids,
                }).leave_scope(),
                _ => (ScopeModel {
                    stack: self.stack.drop_last(),
                    defined_types: self.defined_types,
                    used_ids: self.used_ids,
                }).leave_scope(),
            }
        }
    }

    /// The innermost function body ends: the entries down to and with its
    /// marker leave the stack.
    pub open spec fn leave_func_def(self) -> ScopeModel
        decreases self.stack.len(),
    {
        if self.stack.len() == 0 {
            self
        } else {
            let rest = ScopeModel {
                stack: self.stack.drop_last(),
                defined_types: self.defined_types,
                used_ids: self.used_ids,
            };
            if self.stack.last() is EnterFuncDef {
                rest
            } else {
                rest.leave_func_def()
            }
        }
    }

    /// The innermost loop body ends: the entries down to and with its marker
    /// leave the stack.
    pub open spec fn leave_breakable(self) -> ScopeModel
        decreases self.stack.len(),
    {
        if self.stack.len() == 0 {
            self
        } else {
            let rest = ScopeModel {
                stack: self.stack.drop_last(),
                defined_types: self.defined_types,
                used_ids: self.used_ids,
            };
            if self.stack.last() is EnterBreakable {
                rest
            } else {
                rest.leave_breakable()
            }
        }
    }

    /// Whether a name is used at the current lexical level.
    pub open spec fn uses(self, name: Seq<char>) -> bool {
        self.used_ids.contains(name)
    }
}

/// An entry of the scope stack: a marker or a binding.
/// The nearest binding wins: a variable that was just bound is the one its
/// name finds, whatever was bound under the name before, and every other
/// name finds what it found before.
pub proof fn lemma_nearest_binding_wins(
    ss: ScopeModel,
    name: Seq<char>,
    t: VarTypeModel,
    other: Seq<char>,
)
    ensures
        last_variable(ss.declare_var(name, t).stack, name) == Some(t),
        other != name ==> last_variable(ss.declare_var(name, t).stack, other) == last_variable(
            ss.stack,
            other,
        ),
        last_function(ss.declare_var(name, t).stack, other) == last_function(ss.stack, other),
{
    let after = ss.declare_var(name, t).stack;
    assert(after.last() == ScopeOpModel::Variable(name, t));
    assert(after.drop_last() =~= ss.stack);
}

/// Markers bind nothing: behind a marker every name finds what it found
/// before.
pub proof fn lemma_markers_bind_nothing(ss: ScopeModel, marker: ScopeOpModel, name: Seq<char>)
    requires
        marker is EnterScope || marker is EnterFuncDef || marker is EnterBreakable,
    ensures
        last_variable(ss.mark(marker).stack, name) == last_variable(ss.stack, name),
        last_function(ss.mark(marker).stack, name) == last_function(ss.stack, name),
        last_variable(ss.enter_scope().stack, name) == last_variable(ss.stack, name),
        last_function(ss.enter_scope().stack, name) == last_function(ss.stack, name),
{
    assert(ss.mark(marker).stack.drop_last() =~= ss.stack);
    assert(ss.enter_scope().stack.drop_last() =~= ss.stack);
}

#[derive(Debug)]
pub enum ScopeStackOp {
    EnterScope(Vec<String>),
    EnterFuncDef,
    EnterBreakable,
    UserType(UserType),
    Variable(VarData),
    Func(FnDeclr),
}

impl View for ScopeStackOp {
    type V = ScopeOpModel;

    open spec fn view(&self) -> ScopeOpModel {
        match self {
            ScopeStackOp::EnterScope(used) => ScopeOpModel::EnterScope(string_models(used@)),
            ScopeStackOp::EnterFuncDef => ScopeOpModel::EnterFuncDef,
            ScopeStackOp::EnterBreakable => ScopeOpModel::EnterBreakable,
            ScopeStackOp::UserType(t) => ScopeOpModel::UserType(t@),
            ScopeStackOp::Variable(v) => ScopeOpModel::Variable(v.name@, v.var_type@),
            ScopeStackOp::Func(f) => ScopeOpModel::Func(f@),
        }
    }
}

/// The values of a sequence of entries.
pub open spec fn op_models(ops: Seq<ScopeStackOp>) -> Seq<ScopeOpModel> {
    Seq::new(ops.len(), |i: int| ops[i]@)
}

/// The symbol table of the analyzer: one stack of markers and bindings
/// from the outermost to the innermost, the user types in scope, and the
/// names used at the current lexical level.
#[derive(Debug)]
pub struct ScopeStack {
    pub stack: Vec<ScopeStackOp>,
    pub defined_types: Vec<UserType>,
    pub used_ids: Vec<String>,
}

impl View for ScopeStack {
    type V = ScopeModel;

    open spec fn view(&self) -> ScopeModel {
        ScopeModel {
            stack: op_models(self.stack@),
            defined_types: user_type_models(self.defined_types@),
            used_ids: string_models(self.used_ids@),
        }
    }
}

impl ScopeStack {
    /// An empty stack.
    pub fn new() -> (r: Self)
        ensures
            r@ == ScopeModel::empty(),
    {
        let r = ScopeStack { stack: Vec::new(), defined_types: Vec::new(), used_ids: Vec::new() };
        assert(r@.stack =~= Seq::empty());
        assert(r@.defined_types =~= Seq::empty());
        assert(r@.used_ids =~= Seq::empty());
        r
    }

    fn push_op(&mut self, op: ScopeStackOp)
        ensures
            final(self)@ == old(self)@.mark(op@),
    {
        self.stack.push(op);
        assert(op_models(self.stack@) =~= op_models(old(self).stack@).push(op@));
    }

    fn push_used(&mut self, name: String)
        ensures
            final(self)@ == (ScopeModel {
                stack: old(self)@.stack,
                defined_types: old(self)@.defined_types,
                used_ids: old(self)@.used_ids.push(name@),
            }),
    {
        self.used_ids.push(name);
        assert(string_models(self.used_ids@) =~= string_models(old(self).used_ids@).push(name@));
    }

    /// Whether a name is used at the current lexical level.
    pub fn uses(&self, name: &String) -> (r: bool)
        ensures
            r == self@.uses(name@),
    {
        let mut i: usize = 0;
        while i < self.used_ids.len()
            invariant
                0 <= i <= self.used_ids.len(),
                forall|j: int| 0 <= j < i ==> self.used_ids@[j]@ != name@,
            decreases self.used_ids.len() - i,
        {
            if self.used_ids[i] == *name {
                assert(self@.used_ids[i as int] == name@);
                return true;
            }
            i += 1;
        }
        assert forall|j: int| 0 <= j < self@.used_ids.len() implies self@.used_ids[j]
            != name@ by {
            assert(self@.used_ids[j] == self.used_ids@[j]@);
        }
        false
    }

    /// Starts a lexical level.
    pub fn enter_scope(&mut self)
        ensures
            final(self)@ == old(self)@.enter_scope(),
    {
        let used = clone_strings(&self.used_ids);
        self.push_op(ScopeStackOp::EnterScope(used));
        self.used_ids.clear();
        assert(string_models(self.used_ids@) =~= Seq::empty());
    }

    /// Declares a user type at the current level.
    pub fn user_type_declr(&mut self, declr: UserType)
        ensures
            final(self)@ == old(self)@.declare_type(declr@),
    {
        let name = declr.name();
        let copy = declr.clone();
        self.push_op(ScopeStackOp::UserType(copy));
        self.push_used(name);
        self.defined_types.push(declr);
        assert(user_type_models(self.defined_types@) =~= user_type_models(
            old(self).defined_types@,
        ).push(declr@));
    }

    /// Ends the innermost lexical level. Where none is open, the stack is
    /// left empty.
    pub fn leave_scope(&mut self)
        ensures
            final(self)@ == old(self)@.leave_scope(),
    {
        loop
            invariant
                self@.leave_scope() == old(self)@.leave_scope(),
            decreases self.stack.len(),
        {
            let ghost before = self@;
            let top = self.stack.pop();
            assert(op_models(self.stack@) =~= if before.stack.len() > 0 {
                before.stack.drop_last()
            } else {
                before.stack
            });
            match top {
                None => {
                    return ;
                },
                Some(ScopeStackOp::EnterScope(used)) => {
                    self.used_ids = used;
                    return ;
                },
                Some(ScopeStackOp::UserType(_)) => {
                    let gone = self.defined_types.pop();
                    assert(user_type_models(self.defined_types@) =~= if before.defined_types.len()
                        > 0 {
                        before.defined_types.drop_last()
                    } else {
                        before.defined_types
                    });
                },
                _ => {},
            }
        }
    }

    /// Binds a variable at the current level.
    pub fn var_declr(&mut self, name: String, t: VarType)
        ensures
            final(self)@ == old(self)@.declare_var(name@, t@),
    {
        let copy = name.clone();
        self.push_op(ScopeStackOp::Variable(VarData { name: copy, var_type: t }));
        self.push_used(name);
    }

    /// The enum of the given name that was declared last.
    pub fn get_user_enum(&self, name: String) -> (r: Option<UserEnumDef>)
        ensures
            match r {
                Some(e) => last_enum(self@.defined_types, name@) == Some(e@),
                None => last_enum(self@.defined_types, name@) is None,
            },
    {
        let ghost all = self@.defined_types;
        let mut i: usize = self.defined_types.len();
        assert(all.take(i as int) =~= all);
        while i > 0
            invariant
                0 <= i <= self.defined_types.len(),
                all == self@.defined_types,
                last_enum(all, name@) == last_enum(all.take(i as int), name@),
            decreases i,
        {
            i -= 1;
            proof {
                assert(all.take(i + 1).last() == self.defined_types@[i as int]@);
                assert(all.take(i + 1).drop_last() =~= all.take(i as int));
            }
            match &self.defined_types[i] {
                UserType::UserEnum(e) => {
                    if e.name == name {
                        return Some(e.clone());
                    }
                },
                _ => {},
            }
        }
        None
    }

    /// Starts a loop body.
    pub fn enter_breakable(&mut self)
        ensures
            final(self)@ == old(self)@.mark(ScopeOpModel::EnterBreakable),
    {
        self.push_op(ScopeStackOp::EnterBreakable);
    }

    /// Ends the innermost loop body. Where none is open, the stack is left
    /// empty.
    pub fn leave_breakable(&mut self)
        ensures
            final(self)@ == old(self)@.leave_breakable(),
    {
        loop
            invariant
                self@.leave_breakable() == old(self)@.leave_breakable(),
            decreases self.stack.len(),
        {
            let ghost before = self@;
            let top = self.stack.pop();
            assert(op_models(self.stack@) =~= if before.stack.len() > 0 {
                before.stack.drop_last()
            } else {
                before.stack
            });
            match top {
                None => {
                    return ;
                },
                Some(ScopeStackOp::EnterBreakable) => {
                    return ;
                },
                _ => {},
            }
        }
    }

    /// Whether a loop body is open.
    pub fn inside_breakable(&mut self) -> (r: bool)
        ensures
            r == old(self)@.inside_breakable(),
            final(self)@ == old(self)@,
    {
        let mut i: usize = 0;
        while i < self.stack.len()
            invariant
                0 <= i <= self.stack.len(),
                *self == *old(self),
                forall|j: int| 0 <= j < i ==> !(self@.stack[j] is EnterBreakable),
            decreases self.stack.len() - i,
        {
            if matches!(self.stack[i], ScopeStackOp::EnterBreakable) {
                assert(self@.stack[i as int] is EnterBreakable);
                return true;
            }
            assert(!(self@.stack[i as int] is EnterBreakable));
            i += 1;
        }
        false
    }

    /// Binds a function at the current level.
    pub fn fn_declr(&mut self, f: FnDeclr)
        ensures
            final(self)@ == old(self)@.declare_fn(f@),
    {
        let name = f.name.data();
        self.push_op(ScopeStackOp::Func(f));
        self.push_used(name);
    }

    /// Starts the body of the function that was bound last.
    pub fn enter_func_def(&mut self)
        ensures
            final(self)@ == old(self)@.mark(ScopeOpModel::EnterFuncDef),
    {
        self.push_op(ScopeStackOp::EnterFuncDef);
    }

    /// Ends the innermost function body. Where none is open, the stack is
    /// left empty.
    pub fn leave_func_def(&mut self)
        ensures
            final(self)@ == old(self)@.leave_func_def(),
    {
        loop
            invariant
                self@.leave_func_def() == old(self)@.leave_func_def(),
            decreases self.stack.len(),
        {
            let ghost before = self@;
            let top = self.stack.pop();
            assert(op_models(self.stack@) =~= if before.stack.len() > 0 {
                before.stack.drop_last()
            } else {
                before.stack
            });
            match top {
                None => {
                    return ;
                },
                Some(ScopeStackOp::EnterFuncDef) => {
                    return ;
                },
                _ => {},
            }
        }
    }

    /// The type of the variable of the given name that was bound last.
    pub fn get_var_t(&self, target_name: String) -> (r: Option<VarType>)
        ensures
            match r {
                Some(t) => last_variable(self@.stack, target_name@) == Some(t@),
                None => last_variable(self@.stack, target_name@) is None,
            },
    {
        let ghost all = self@.stack;
        let mut i: usize = self.stack.len();
        assert(all.take(i as int) =~= all);
        while i > 0
            invariant
                0 <= i <= self.stack.len(),
                all == self@.stack,
                last_variable(all, target_name@) == last_variable(all.take(i as int), target_name@),
            decreases i,
        {
            i -= 1;
            proof {
                assert(all.take(i + 1).last() == self.stack@[i as int]@);
                assert(all.take(i + 1).drop_last() =~= all.take(i as int));
            }
            match &self.stack[i] {
                ScopeStackOp::Variable(var) => {
                    if var.name == target_name {
                        return Some(var.var_type.clone());
                    }
                },
                _ => {},
            }
        }
        None
    }

    /// The function of the given name that was bound last.
    pub fn get_fn(&self, target_name: String) -> (r: Option<FnDeclr>)
        ensures
            match r {
                Some(f) => last_function(self@.stack, target_name@) == Some(f@),
                None => last_function(self@.stack, target_name@) is None,
            },
    {
        let ghost all = self@.stack;
        let mut i: usize = self.stack.len();
        assert(all.take(i as int) =~= all);
        while i > 0
            invariant
                0 <= i <= self.stack.len(),
                all == self@.stack,
                last_function(all, target_name@) == last_function(all.take(i as int), target_name@),
            decreases i,
        {
            i -= 1;
            proof {
                assert(all.take(i + 1).last() == self.stack@[i as int]@);
                assert(all.take(i + 1).drop_last() =~= all.take(i as int));
            }
            match &self.stack[i] {
                ScopeStackOp::Func(func) => {
                    if func.name.data() == target_name {
                        return Some(func.clone());
                    }
                },
                _ => {},
            }
        }
        None
    }

    /// The function whose body is open: the one bound directly below the
    /// innermost function marker.
    pub fn get_nearest_function(&self) -> (r: Option<FnDeclr>)
        ensures
            match r {
                Some(f) => nearest_function(self@.stack) == Some(f@),
                None => nearest_function(self@.stack) is None,
            },
    {
        let ghost all = self@.stack;
        let mut i: usize = self.stack.len();
        assert(all.take(i as int) =~= all);
        while i > 0
            invariant
                0 <= i <= self.stack.len(),
                all == self@.stack,
                nearest_function(all) == nearest_function(all.take(i as int)),
            decreases i,
        {
            i -= 1;
            proof {
                assert(all.take(i + 1).last() == self.stack@[i as int]@);
                assert(all.take(i + 1).drop_last() =~= all.take(i as int));
            }
            if matches!(self.stack[i], ScopeStackOp::EnterFuncDef) {
                if i == 0 {
                    return None;
                }
                proof {
                    assert(all.take(i + 1)[i - 1] == self.stack@[i - 1]@);
                }
                return match &self.stack[i - 1] {
                    ScopeStackOp::Func(f) => Some(f.clone()),
                    _ => None,
                };
            }
        }
        None
    }
}

} // verus!
