//! Applying the terms of an expression or a statement to a record, one
//! after the other.
//!
//! Each function here performs the next term of a list: given that the
//! record is what the terms done so far made of the record at the start,
//! it is afterwards what the terms done so far and the next one make of
//! it.

use crate::analyzer::flags::GlobalUse;
use crate::analyzer::info::{FunctionInfo, FunctionInfoView};
use crate::analyzer::terms::{
    lemma_admits_concat, lemma_admits_push, lemma_apply_terms_push, lemma_apply_terms_shape,
    operand_terms, with_optional, Applied, Term,
};
use crate::analyzer::uniformity::Uniformity;
use crate::arena::Handle;
use crate::ir::{Expression, Function, GlobalVariable};
use vstd::prelude::*;

verus! {

/// The terms done so far on the way from one record to another.
pub struct Trace {
    /// The record at the start.
    pub start: FunctionInfoView,
    /// The terms that were applied since.
    pub done: Seq<Term>,
    /// What is known of the functions that can be called.
    pub functions: Seq<FunctionInfoView>,
}

impl Trace {
    /// The trace at the start, with no term done.
    pub open spec fn begin(start: FunctionInfoView, functions: Seq<FunctionInfoView>) -> Trace {
        Trace { start, done: Seq::empty(), functions }
    }

    /// The trace after one more term.
    pub open spec fn plus(self, term: Term) -> Trace {
        Trace { done: self.done.push(term), ..self }
    }

    /// The trace after a read of `operand`, where there is one.
    pub open spec fn plus_optional(self, operand: Option<Handle<Expression>>) -> Trace {
        Trace { done: with_optional(self.done, operand), ..self }
    }

    /// The trace after a read of each of `operands`.
    pub open spec fn plus_operands(self, operands: Seq<Handle<Expression>>) -> Trace {
        Trace { done: self.done + operand_terms(operands), ..self }
    }

    /// The record at the start has a place for everything that the terms
    /// done so far name.
    pub open spec fn admitted(self) -> bool {
        self.start.admits(self.done, self.functions)
    }

    /// What the terms done so far make of the record at the start.
    pub open spec fn applied(self) -> Applied {
        self.start.apply_terms(self.done, self.functions)
    }

    /// Whether `state` and `uniformity` are what the terms done so far
    /// make of the record at the start.
    pub open spec fn reaches(self, state: FunctionInfoView, uniformity: Uniformity) -> bool {
        self.applied() == (Applied { state, uniformity })
    }
}

impl FunctionInfo {
    /// Performs a value-type reference as the next term.
    pub(crate) fn ref_term(
        &mut self,
        so_far: Uniformity,
        handle: Handle<Expression>,
        global_use: GlobalUse,
        Ghost(trace): Ghost<Trace>,
    ) -> (joined: Uniformity)
        requires
            old(self).sampling_set.wf(),
            trace.plus(Term::Ref { handle, global_use }).admitted(),
            trace.reaches(old(self)@, so_far),
        ensures
            final(self).wf(),
            trace.plus(Term::Ref { handle, global_use }).reaches(final(self)@, joined),
    {
        proof {
            let term = Term::Ref { handle, global_use };
            lemma_admits_push(trace.start, trace.done, term, trace.functions);
            lemma_apply_terms_push(trace.start, trace.done, term, trace.functions);
        }
        let last = self.add_ref_impl(handle, global_use);
        so_far | last
    }

    /// Performs a read of an operand as the next term.
    pub(crate) fn read_term(
        &mut self,
        so_far: Uniformity,
        handle: Handle<Expression>,
        Ghost(trace): Ghost<Trace>,
    ) -> (joined: Uniformity)
        requires
            old(self).sampling_set.wf(),
            trace.plus(Term::read(handle)).admitted(),
            trace.reaches(old(self)@, so_far),
        ensures
            final(self).wf(),
            trace.plus(Term::read(handle)).reaches(final(self)@, joined),
    {
        proof {
            lemma_admits_push(trace.start, trace.done, Term::read(handle), trace.functions);
            lemma_apply_terms_push(trace.start, trace.done, Term::read(handle), trace.functions);
        }
        let last = self.add_ref(handle);
        so_far | last
    }

    /// Performs a read of an operand that may be absent as the next term.
    pub(crate) fn optional_term(
        &mut self,
        so_far: Uniformity,
        operand: Option<Handle<Expression>>,
        Ghost(trace): Ghost<Trace>,
    ) -> (joined: Uniformity)
        requires
            old(self).wf(),
            trace.plus_optional(operand).admitted(),
            trace.reaches(old(self)@, so_far),
        ensures
            final(self).wf(),
            trace.plus_optional(operand).reaches(final(self)@, joined),
    {
        match operand {
            Some(handle) => self.read_term(so_far, handle, Ghost(trace)),
            None => so_far,
        }
    }

    /// Performs a reference to the base of an access as the next term, and
    /// hands up the global variable that the base reaches.
    pub(crate) fn base_term(
        &mut self,
        so_far: Uniformity,
        handle: Handle<Expression>,
        assignable_global: &mut Option<Handle<GlobalVariable>>,
        Ghost(trace): Ghost<Trace>,
    ) -> (joined: Uniformity)
        requires
            old(self).sampling_set.wf(),
            trace.plus(Term::Base(handle)).admitted(),
            trace.reaches(old(self)@, so_far),
            *old(assignable_global) is None,
        ensures
            final(self).wf(),
            trace.plus(Term::Base(handle)).reaches(final(self)@, joined),
            *final(assignable_global) == old(self)@.expressions[handle.index as int].assignable_global,
    {
        proof {
            let term = Term::Base(handle);
            lemma_admits_push(trace.start, trace.done, term, trace.functions);
            lemma_apply_terms_push(trace.start, trace.done, term, trace.functions);
        }
        let last = self.add_assignable_ref(handle, assignable_global);
        so_far | last
    }

    /// Inherits from the called function `function`, which `info` is what
    /// is known of, as the next term.
    pub(crate) fn call_term(
        &mut self,
        so_far: Uniformity,
        info: &FunctionInfo,
        Ghost(function): Ghost<Handle<Function>>,
        Ghost(trace): Ghost<Trace>,
    ) -> (joined: Uniformity)
        requires
            old(self).sampling_set.wf(),
            trace.plus(Term::Call(function)).admitted(),
            trace.reaches(old(self)@, so_far),
            info@ == trace.functions[function.index as int],
        ensures
            final(self).wf(),
            trace.plus(Term::Call(function)).reaches(final(self)@, joined),
    {
        proof {
            let term = Term::Call(function);
            lemma_admits_push(trace.start, trace.done, term, trace.functions);
            lemma_apply_terms_push(trace.start, trace.done, term, trace.functions);
        }
        let last = self.process_call(info);
        so_far | last
    }

    /// Performs a read of each of `operands` in turn as the next terms.
    pub(crate) fn operand_terms(
        &mut self,
        so_far: Uniformity,
        operands: &Vec<Handle<Expression>>,
        Ghost(trace): Ghost<Trace>,
    ) -> (joined: Uniformity)
        requires
            old(self).sampling_set.wf(),
            trace.plus_operands(operands@).admitted(),
            trace.reaches(old(self)@, so_far),
        ensures
            final(self).wf(),
            trace.plus_operands(operands@).reaches(final(self)@, joined),
    {
        let mut accum = so_far;
        let mut i: usize = 0;
        proof {
            assert(trace.done + operand_terms(operands@.take(0)) =~= trace.done);
            lemma_admits_concat(
                trace.start,
                trace.done,
                operand_terms(operands@),
                trace.functions,
            );
            lemma_apply_terms_shape(trace.start, trace.done, trace.functions);
        }
        while i < operands.len()
            invariant
                i <= operands@.len(),
                self.wf(),
                trace.plus_operands(operands@).admitted(),
                trace.plus_operands(operands@.take(i as int)).reaches(self@, accum),
            decreases operands@.len() - i,
        {
            let ghost here = trace.plus_operands(operands@.take(i as int));
            proof {
                let rest = operand_terms(operands@.skip(i as int));
                assert(here.done + rest =~= trace.plus_operands(operands@).done);
                assert(rest =~= seq![Term::read(operands@[i as int])] + operand_terms(
                    operands@.skip(i + 1),
                ));
                assert(here.done + seq![Term::read(operands@[i as int])] =~= here.done.push(
                    Term::read(operands@[i as int]),
                ));
                assert(here.done.push(Term::read(operands@[i as int])) + operand_terms(
                    operands@.skip(i + 1),
                ) =~= trace.plus_operands(operands@).done);
                lemma_admits_concat(
                    trace.start,
                    here.done.push(Term::read(operands@[i as int])),
                    operand_terms(operands@.skip(i + 1)),
                    trace.functions,
                );
                assert(trace.plus_operands(operands@.take(i + 1)).done =~= here.done.push(
                    Term::read(operands@[i as int]),
                ));
            }
            accum = self.read_term(accum, operands[i], Ghost(here));
            i = i + 1;
        }
        assert(operands@.take(i as int) =~= operands@);
        accum
    }
}

} // verus!
