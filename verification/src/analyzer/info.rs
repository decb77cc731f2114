//! What the analysis knows about one function, and the elementary updates
//! from which the whole analysis is built.

use crate::analyzer::flags::GlobalUse;
use crate::analyzer::sampling::{SamplingKey, SamplingSet};
use crate::analyzer::uniformity::Uniformity;
use crate::arena::Handle;
use crate::ir::{Expression, GlobalVariable};
use std::ops::Index;
use vstd::prelude::*;

verus! {

/// What is known about one expression of a function.
#[derive(Clone, Copy, Debug, PartialEq, Eq)]
pub struct ExpressionInfo {
    /// Uniformity characteristics of the value.
    pub uniformity: Uniformity,
    /// How many times the expression is consumed, by other expressions and
    /// by statements.
    pub ref_count: usize,
    /// The global variable that is reached through the chain of accesses
    /// that this expression ends, or `None` when the expression is a value.
    pub assignable_global: Option<Handle<GlobalVariable>>,
}

impl ExpressionInfo {
    /// The information about an expression of which nothing is known yet.
    pub open spec fn blank() -> Self {
        ExpressionInfo { uniformity: Uniformity::none(), ref_count: 0, assignable_global: None }
    }
}

impl Default for ExpressionInfo {
    fn default() -> (info: Self)
        ensures
            info == ExpressionInfo::blank(),
    {
        ExpressionInfo {
            uniformity: Uniformity { non_uniform_result: None, require_uniform: None },
            ref_count: 0,
            assignable_global: None,
        }
    }
}

/// The mathematical content of a [`FunctionInfo`].
#[verifier::ext_equal]
pub struct FunctionInfoView {
    /// Uniformity characteristics of the function as a whole.
    pub uniformity: Uniformity,
    /// Whether the function may kill the invocation.
    pub may_kill: bool,
    /// The image/sampler pairs used with sampling.
    pub sampling_set: Set<SamplingKey>,
    /// How each global variable of the module is used.
    pub global_uses: Seq<GlobalUse>,
    /// What is known about each expression of the function.
    pub expressions: Seq<ExpressionInfo>,
}

impl FunctionInfoView {
    /// The state from which the analysis of a function starts: nothing is
    /// used, nothing is referenced.
    pub open spec fn blank(global_count: nat, expression_count: nat) -> Self {
        FunctionInfoView {
            uniformity: Uniformity::none(),
            may_kill: false,
            sampling_set: Set::empty(),
            global_uses: Seq::new(global_count, |i: int| GlobalUse::empty()),
            expressions: Seq::new(expression_count, |i: int| ExpressionInfo::blank()),
        }
    }

    /// Every global variable that an expression is recorded to reach has a
    /// place in the use masks.
    pub open spec fn wf(self) -> bool {
        forall|i: int|
            0 <= i < self.expressions.len() ==> match (
            #[trigger] self.expressions[i]).assignable_global {
                Some(global) => global.index < self.global_uses.len(),
                None => true,
            }
    }

    /// Whether `handle` names an expression that the state has a place for.
    pub open spec fn has(self, handle: Handle<Expression>) -> bool {
        handle.index < self.expressions.len()
    }

    /// The uniformity recorded for the expression `handle`.
    pub open spec fn uniformity_of(self, handle: Handle<Expression>) -> Uniformity {
        self.expressions[handle.index as int].uniformity
    }

    /// Every expression can be referenced `count` more times without its
    /// reference count leaving the range of `usize`.
    pub open spec fn has_room(self, count: nat) -> bool {
        forall|i: int|
            0 <= i < self.expressions.len() ==> (#[trigger] self.expressions[i]).ref_count + count
                <= usize::MAX
    }

    /// The state with one more reference to the expression `handle`.
    pub open spec fn bump(self, handle: Handle<Expression>) -> Self {
        let info = self.expressions[handle.index as int];
        FunctionInfoView {
            expressions: self.expressions.update(
                handle.index as int,
                ExpressionInfo { ref_count: (info.ref_count + 1) as usize, ..info },
            ),
            ..self
        }
    }

    /// The state with `global_use` added to the uses of `global`.
    pub open spec fn mark(self, global: Handle<GlobalVariable>, global_use: GlobalUse) -> Self {
        FunctionInfoView {
            global_uses: self.global_uses.update(
                global.index as int,
                self.global_uses[global.index as int].union(global_use),
            ),
            ..self
        }
    }

    /// The state after a value-type reference to the expression `handle`
    /// was added: its reference count is one higher, and where the
    /// expression reaches a global variable, `global_use` is added to the
    /// uses of that variable.
    pub open spec fn add_ref_impl(self, handle: Handle<Expression>, global_use: GlobalUse) -> Self {
        match self.expressions[handle.index as int].assignable_global {
            Some(global) => self.bump(handle).mark(global, global_use),
            None => self.bump(handle),
        }
    }

    /// The state after what a called function does was taken over: its
    /// image/sampler pairs are added, and its uses of each global variable
    /// are added to the uses of the same variable.
    pub open spec fn process_call(self, callee: FunctionInfoView) -> Self {
        FunctionInfoView {
            sampling_set: self.sampling_set.union(callee.sampling_set),
            global_uses: Seq::new(
                self.global_uses.len(),
                |i: int|
                    if i < callee.global_uses.len() {
                        self.global_uses[i].union(callee.global_uses[i])
                    } else {
                        self.global_uses[i]
                    },
            ),
            ..self
        }
    }

    /// Whether the use masks of `self` are, variable by variable, supersets
    /// of those of `other`, as far as both have a mask.
    pub open spec fn dominates_global_use(self, other: FunctionInfoView) -> bool {
        forall|i: int|
            0 <= i < self.global_uses.len() && i < other.global_uses.len()
                ==> #[trigger] self.global_uses[i].includes(other.global_uses[i])
    }
}

/// The mathematical contents of a list of records.
pub open spec fn views(functions: Seq<FunctionInfo>) -> Seq<FunctionInfoView> {
    Seq::new(functions.len(), |i: int| functions[i]@)
}

/// The result of analysing one function.
#[derive(Debug)]
pub struct FunctionInfo {
    /// Uniformity characteristics.
    pub uniformity: Uniformity,
    /// Function may kill the invocation.
    pub may_kill: bool,
    /// Set of image-sampler pairs used with sampling.
    pub sampling_set: SamplingSet,
    /// Vector of global variable usages.
    ///
    /// Each item corresponds to a global variable in the module.
    pub global_uses: Vec<GlobalUse>,
    /// Vector of expression infos.
    ///
    /// Each item corresponds to an expression in the function.
    pub expressions: Vec<ExpressionInfo>,
}

impl View for FunctionInfo {
    type V = FunctionInfoView;

    open spec fn view(&self) -> FunctionInfoView {
        FunctionInfoView {
            uniformity: self.uniformity,
            may_kill: self.may_kill,
            sampling_set: self.sampling_set@,
            global_uses: self.global_uses@,
            expressions: self.expressions@,
        }
    }
}

impl FunctionInfo {
    /// The record is well formed: the set of pairs is, and every global
    /// variable that an expression is recorded to reach has a place in the
    /// use masks.
    pub open spec fn wf(&self) -> bool {
        &&& self.sampling_set.wf()
        &&& self@.wf()
    }

    /// Creates the record from which the analysis of a function starts,
    /// for a module with `global_count` global variables and a function
    /// with `expression_count` expressions.
    pub fn new(global_count: usize, expression_count: usize) -> (info: Self)
        ensures
            info.wf(),
            info@ == FunctionInfoView::blank(global_count as nat, expression_count as nat),
    {
        let mut global_uses: Vec<GlobalUse> = Vec::new();
        let mut i: usize = 0;
        while i < global_count
            invariant
                i <= global_count,
                global_uses@.len() == i,
                forall|j: int| 0 <= j < i ==> global_uses@[j] == GlobalUse::empty(),
            decreases global_count - i,
        {
            global_uses.push(GlobalUse::empty());
            i = i + 1;
        }
        let mut expressions: Vec<ExpressionInfo> = Vec::new();
        let mut k: usize = 0;
        while k < expression_count
            invariant
                k <= expression_count,
                expressions@.len() == k,
                forall|j: int| 0 <= j < k ==> expressions@[j] == ExpressionInfo::blank(),
            decreases expression_count - k,
        {
            expressions.push(ExpressionInfo::default());
            k = k + 1;
        }
        FunctionInfo {
            uniformity: Uniformity::default(),
            may_kill: false,
            sampling_set: SamplingSet::new(),
            global_uses,
            expressions,
        }
    }

    /// Returns the number of global variables that the record has a use
    /// mask for.
    pub fn global_variable_count(&self) -> (count: usize)
        ensures
            count == self@.global_uses.len(),
    {
        self.global_uses.len()
    }

    /// Returns the number of expressions that the record knows about.
    pub fn expression_count(&self) -> (count: usize)
        ensures
            count == self@.expressions.len(),
    {
        self.expressions.len()
    }

    /// Returns `true` if, for each global variable, every use by `other`
    /// is also a use by `self`.
    pub fn dominates_global_use(&self, other: &Self) -> (dominates: bool)
        ensures
            dominates == self@.dominates_global_use(other@),
    {
        let mut i: usize = 0;
        while i < self.global_uses.len() && i < other.global_uses.len()
            invariant
                forall|j: int|
                    0 <= j < i ==> #[trigger] self.global_uses@[j].includes(other.global_uses@[j]),
            decreases self.global_uses@.len() - i,
        {
            if !self.global_uses[i].contains(other.global_uses[i]) {
                assert(!self@.global_uses[i as int].includes(other@.global_uses[i as int]));
                return false;
            }
            i = i + 1;
        }
        true
    }

    /// Adds a value-type reference to an expression, using the global
    /// variable that it reaches, if any, in the way `global_use` says.
    /// Returns the uniformity of the expression.
    #[must_use]
    pub fn add_ref_impl(&mut self, handle: Handle<Expression>, global_use: GlobalUse) -> (uniformity:
        Uniformity)
        requires
            old(self).wf(),
            old(self)@.has(handle),
            old(self)@.expressions[handle.index as int].ref_count < usize::MAX,
        ensures
            final(self).wf(),
            final(self)@ == old(self)@.add_ref_impl(handle, global_use),
            uniformity == old(self)@.uniformity_of(handle),
    {
        let mut info = self.expressions[handle.index()];
        info.ref_count = info.ref_count + 1;
        self.expressions[handle.index()] = info;
        // mark the used global
        if let Some(global) = info.assignable_global {
            self.global_uses[global.index()] = self.global_uses[global.index()] | global_use;
        }
        info.uniformity
    }

    /// Adds a value-type reference to an expression, reading the global
    /// variable that it reaches, if any. Returns the uniformity of the
    /// expression.
    #[must_use]
    pub fn add_ref(&mut self, handle: Handle<Expression>) -> (uniformity: Uniformity)
        requires
            old(self).wf(),
            old(self)@.has(handle),
            old(self)@.expressions[handle.index as int].ref_count < usize::MAX,
        ensures
            final(self).wf(),
            final(self)@ == old(self)@.add_ref_impl(handle, GlobalUse::read()),
            uniformity == old(self)@.uniformity_of(handle),
    {
        self.add_ref_impl(handle, GlobalUse::read())
    }

    /// Adds a potentially assignable reference to an expression.
    /// These are destinations for store statements, which can transit
    /// through accesses.
    ///
    /// The global variable that the expression reaches is not marked as
    /// used; it is handed up the chain through `assignable_global`, till it
    /// either hits a value-type expression, or the assignment statement.
    #[must_use]
    pub fn add_assignable_ref(
        &mut self,
        handle: Handle<Expression>,
        assignable_global: &mut Option<Handle<GlobalVariable>>,
    ) -> (uniformity: Uniformity)
        requires
            old(self)@.has(handle),
            old(self)@.expressions[handle.index as int].ref_count < usize::MAX,
            *old(assignable_global) is None || old(self)@.expressions[handle.index as int].assignable_global is None,
        ensures
            final(self)@ == old(self)@.bump(handle),
            uniformity == old(self)@.uniformity_of(handle),
            *final(assignable_global) == match old(self)@.expressions[handle.index as int].assignable_global {
                Some(global) => Some(global),
                None => *old(assignable_global),
            },
            old(self).wf() ==> final(self).wf(),
    {
        let mut info = self.expressions[handle.index()];
        info.ref_count = info.ref_count + 1;
        self.expressions[handle.index()] = info;
        if let Some(global) = info.assignable_global {
            *assignable_global = Some(global);
        }
        info.uniformity
    }

    /// Inherits information from a called function, and returns the
    /// uniformity of that function.
    pub fn process_call(&mut self, info: &Self) -> (uniformity: Uniformity)
        requires
            old(self).wf(),
        ensures
            final(self).wf(),
            final(self)@ == old(self)@.process_call(info@),
            uniformity == info@.uniformity,
    {
        self.sampling_set.extend(&info.sampling_set);
        let mut i: usize = 0;
        while i < self.global_uses.len() && i < info.global_uses.len()
            invariant
                i <= self.global_uses@.len(),
                i <= info.global_uses@.len(),
                self.global_uses@.len() == old(self).global_uses@.len(),
                self.expressions == old(self).expressions,
                self.uniformity == old(self).uniformity,
                self.may_kill == old(self).may_kill,
                self.sampling_set.wf(),
                self.sampling_set@ == old(self).sampling_set@.union(info.sampling_set@),
                forall|j: int|
                    0 <= j < self.global_uses@.len() ==> #[trigger] self.global_uses@[j] == if j < i {
                        old(self).global_uses@[j].union(info.global_uses@[j])
                    } else {
                        old(self).global_uses@[j]
                    },
            decreases self.global_uses@.len() - i,
        {
            self.global_uses[i] = self.global_uses[i] | info.global_uses[i];
            i = i + 1;
        }
        assert(self@.global_uses =~= old(self)@.process_call(info@).global_uses);
        info.uniformity
    }
}

impl Index<Handle<GlobalVariable>> for FunctionInfo {
    type Output = GlobalUse;

    fn index(&self, handle: Handle<GlobalVariable>) -> (global_use: &GlobalUse)
        ensures
            *global_use == self@.global_uses[handle.index as int],
    {
        &self.global_uses[handle.index()]
    }
}

impl vstd::std_specs::core::IndexSpecImpl<Handle<GlobalVariable>> for FunctionInfo {
    open spec fn index_req(&self, handle: &Handle<GlobalVariable>) -> bool {
        handle.index < self@.global_uses.len()
    }
}

impl Index<Handle<Expression>> for FunctionInfo {
    type Output = ExpressionInfo;

    fn index(&self, handle: Handle<Expression>) -> (info: &ExpressionInfo)
        ensures
            *info == self@.expressions[handle.index as int],
    {
        &self.expressions[handle.index()]
    }
}

impl vstd::std_specs::core::IndexSpecImpl<Handle<Expression>> for FunctionInfo {
    open spec fn index_req(&self, handle: &Handle<Expression>) -> bool {
        handle.index < self@.expressions.len()
    }
}

} // verus!
