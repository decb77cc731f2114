//! The contributions from which the analysis of every expression and of
//! every statement is made.
//!
//! What an expression or a statement does to the record of its function
//! is a list of terms, applied from left to right. The uniformity that
//! it yields is the join of the uniformities of its terms, in the same
//! order.

use crate::analyzer::flags::GlobalUse;
use crate::analyzer::info::{ExpressionInfo, FunctionInfoView};
use crate::analyzer::uniformity::Uniformity;
use crate::arena::Handle;
use crate::ir::{Expression, Function};
use vstd::prelude::*;

verus! {

/// One contribution to the analysis of an expression or a statement.
pub enum Term {
    /// A uniformity that does not depend on the record.
    Fixed(Uniformity),
    /// A value-type reference to an operand, which uses the global
    /// variable that the operand reaches as `global_use` says.
    Ref { handle: Handle<Expression>, global_use: GlobalUse },
    /// A reference to the base of an access, which uses no global
    /// variable.
    Base(Handle<Expression>),
    /// What a called function hands on to its caller.
    Call(Handle<Function>),
}

/// A record together with the uniformity that the terms applied to it have
/// yielded.
#[verifier::ext_equal]
pub struct Applied {
    pub state: FunctionInfoView,
    pub uniformity: Uniformity,
}

impl Term {
    /// A value-type reference that reads the operand.
    pub open spec fn read(handle: Handle<Expression>) -> Term {
        Term::Ref { handle, global_use: GlobalUse::read() }
    }

    /// Whether the term increases a reference count.
    pub open spec fn is_reference(self) -> bool {
        self is Ref || self is Base
    }

    /// Whether the term is a reference to the expression at `index`.
    pub open spec fn names(self, index: int) -> bool {
        match self {
            Term::Ref { handle, .. } => handle.index == index,
            Term::Base(handle) => handle.index == index,
            _ => false,
        }
    }

    /// Whether the term names an expression among `expression_count`
    /// expressions, or a function among `function_count` functions.
    pub open spec fn in_range(self, expression_count: nat, function_count: nat) -> bool {
        match self {
            Term::Fixed(_) => true,
            Term::Ref { handle, .. } => handle.index < expression_count,
            Term::Base(handle) => handle.index < expression_count,
            Term::Call(function) => function.index < function_count,
        }
    }
}

/// The terms `terms`, followed by a read of `operand` where there is one.
pub open spec fn with_optional(terms: Seq<Term>, operand: Option<Handle<Expression>>) -> Seq<
    Term,
> {
    match operand {
        Some(handle) => terms.push(Term::read(handle)),
        None => terms,
    }
}

/// A read of each of `operands` in turn.
pub open spec fn operand_terms(operands: Seq<Handle<Expression>>) -> Seq<Term> {
    Seq::new(operands.len(), |i: int| Term::read(operands[i]))
}

/// Whether every term names an expression among `expression_count`
/// expressions, or a function among `function_count` functions.
pub open spec fn terms_in_range(terms: Seq<Term>, expression_count: nat, function_count: nat)
    -> bool {
    forall|i: int|
        0 <= i < terms.len() ==> (#[trigger] terms[i]).in_range(expression_count, function_count)
}

/// Terms that name only what exists among fewer expressions and fewer
/// functions do so among more.
pub proof fn lemma_terms_in_range_widen(
    terms: Seq<Term>,
    expression_count: nat,
    function_count: nat,
    more_expressions: nat,
    more_functions: nat,
)
    requires
        terms_in_range(terms, expression_count, function_count),
        expression_count <= more_expressions,
        function_count <= more_functions,
    ensures
        terms_in_range(terms, more_expressions, more_functions),
{
    assert forall|i: int| 0 <= i < terms.len() implies (#[trigger] terms[i]).in_range(
        more_expressions,
        more_functions,
    ) by {
        assert(terms[i].in_range(expression_count, function_count));
    }
}

/// A list that ends in `term` names only what exists where the list
/// before it does and `term` does.
pub broadcast proof fn lemma_terms_in_range_push(
    terms: Seq<Term>,
    term: Term,
    expression_count: nat,
    function_count: nat,
)
    ensures
        #[trigger] terms_in_range(terms.push(term), expression_count, function_count) == (
        terms_in_range(terms, expression_count, function_count) && term.in_range(
            expression_count,
            function_count,
        )),
{
    let whole = terms.push(term);
    if terms_in_range(whole, expression_count, function_count) {
        assert(whole[terms.len() as int].in_range(expression_count, function_count));
        assert forall|i: int| 0 <= i < terms.len() implies (#[trigger] terms[i]).in_range(
            expression_count,
            function_count,
        ) by {
            assert(whole[i].in_range(expression_count, function_count));
        }
    }
}

/// The number of terms that increase a reference count.
pub open spec fn reference_count(terms: Seq<Term>) -> nat
    decreases terms.len(),
{
    if terms.len() == 0 {
        0
    } else {
        reference_count(terms.drop_last()) + if terms.last().is_reference() {
            1nat
        } else {
            0nat
        }
    }
}

impl FunctionInfoView {
    /// The record after one term, and the uniformity of that term.
    pub open spec fn apply_term(self, term: Term, functions: Seq<FunctionInfoView>) -> Applied {
        match term {
            Term::Fixed(uniformity) => Applied { state: self, uniformity },
            Term::Ref { handle, global_use } => Applied {
                state: self.add_ref_impl(handle, global_use),
                uniformity: self.uniformity_of(handle),
            },
            Term::Base(handle) => Applied {
                state: self.bump(handle),
                uniformity: self.uniformity_of(handle),
            },
            Term::Call(function) => Applied {
                state: self.process_call(functions[function.index as int]),
                uniformity: functions[function.index as int].uniformity,
            },
        }
    }

    /// The record after the terms were applied from left to right, and the
    /// join of their uniformities in that order.
    #[verifier::opaque]
    pub open spec fn apply_terms(self, terms: Seq<Term>, functions: Seq<FunctionInfoView>)
        -> Applied
        decreases terms.len(),
    {
        if terms.len() == 0 {
            Applied { state: self, uniformity: Uniformity::none() }
        } else {
            let before = self.apply_terms(terms.drop_last(), functions);
            let last = before.state.apply_term(terms.last(), functions);
            Applied { state: last.state, uniformity: before.uniformity.join(last.uniformity) }
        }
    }

    /// The record has a place for everything that the terms name, and no
    /// reference count would leave the range of `usize`.
    #[verifier::opaque]
    pub open spec fn admits(self, terms: Seq<Term>, functions: Seq<FunctionInfoView>) -> bool {
        &&& self.wf()
        &&& terms_in_range(terms, self.expressions.len(), functions.len())
        &&& self.has_room(reference_count(terms))
    }
}

/// Applying no term leaves the record as it is.
pub broadcast proof fn lemma_apply_terms_empty(
    state: FunctionInfoView,
    functions: Seq<FunctionInfoView>,
)
    ensures
        #[trigger] state.apply_terms(Seq::<Term>::empty(), functions) == (Applied {
            state,
            uniformity: Uniformity::none(),
        }),
{
    reveal_with_fuel(FunctionInfoView::apply_terms, 1);
}

/// Applying a list that ends in `term` is applying the list before it, and
/// then `term`.
pub broadcast proof fn lemma_apply_terms_push(
    state: FunctionInfoView,
    terms: Seq<Term>,
    term: Term,
    functions: Seq<FunctionInfoView>,
)
    ensures
        #[trigger] state.apply_terms(terms.push(term), functions) == ({
            let before = state.apply_terms(terms, functions);
            let last = before.state.apply_term(term, functions);
            Applied { state: last.state, uniformity: before.uniformity.join(last.uniformity) }
        }),
{
    reveal_with_fuel(FunctionInfoView::apply_terms, 1);
    assert(terms.push(term).drop_last() =~= terms);
}

/// The references of a list that ends in `term` are those of the list
/// before it, and `term` if it is one.
pub broadcast proof fn lemma_reference_count_push(terms: Seq<Term>, term: Term)
    ensures
        #[trigger] reference_count(terms.push(term)) == reference_count(terms) + if term.is_reference() {
            1nat
        } else {
            0nat
        },
{
    assert(terms.push(term).drop_last() =~= terms);
}

/// Applying two lists one after the other is applying their concatenation.
pub proof fn lemma_apply_terms_concat(
    state: FunctionInfoView,
    first: Seq<Term>,
    second: Seq<Term>,
    functions: Seq<FunctionInfoView>,
)
    ensures
        state.apply_terms(first + second, functions) == ({
            let a = state.apply_terms(first, functions);
            let b = a.state.apply_terms(second, functions);
            Applied { state: b.state, uniformity: a.uniformity.join(b.uniformity) }
        }),
    decreases second.len(),
{
    reveal_with_fuel(FunctionInfoView::apply_terms, 1);
    if second.len() == 0 {
        assert(first + second =~= first);
    } else {
        lemma_apply_terms_concat(state, first, second.drop_last(), functions);
        assert((first + second).drop_last() =~= first + second.drop_last());
    }
}

/// The references of a concatenation are those of its two parts.
pub proof fn lemma_reference_count_concat(first: Seq<Term>, second: Seq<Term>)
    ensures
        reference_count(first + second) == reference_count(first) + reference_count(second),
    decreases second.len(),
{
    if second.len() == 0 {
        assert(first + second =~= first);
    } else {
        lemma_reference_count_concat(first, second.drop_last());
        assert((first + second).drop_last() =~= first + second.drop_last());
    }
}

/// One term, applied to a record that admits it, changes neither how many
/// expressions and global variables the record has a place for nor the
/// uniformity and the reached global variable of any expression; each
/// reference count grows by at most one.
pub proof fn lemma_apply_term_shape(
    state: FunctionInfoView,
    term: Term,
    functions: Seq<FunctionInfoView>,
)
    requires
        state.wf(),
        term.in_range(state.expressions.len(), functions.len()),
        state.has_room(if term.is_reference() { 1nat } else { 0nat }),
    ensures
        ({
            let after = state.apply_term(term, functions).state;
            &&& after.wf()
            &&& after.expressions.len() == state.expressions.len()
            &&& after.global_uses.len() == state.global_uses.len()
            &&& after.uniformity == state.uniformity
            &&& after.may_kill == state.may_kill
            &&& forall|i: int|
                0 <= i < state.expressions.len() ==> {
                    &&& (#[trigger] after.expressions[i]).uniformity == state.expressions[i].uniformity
                    &&& after.expressions[i].assignable_global
                        == state.expressions[i].assignable_global
                    &&& state.expressions[i].ref_count <= after.expressions[i].ref_count
                        <= state.expressions[i].ref_count + if term.is_reference() {
                        1nat
                    } else {
                        0nat
                    }
                }
        }),
{
    let after = state.apply_term(term, functions).state;
    match term {
        Term::Fixed(_) => {},
        Term::Ref { handle, global_use } => {
            assert(state.expressions[handle.index as int].ref_count + 1 <= usize::MAX);
        },
        Term::Base(handle) => {
            assert(state.expressions[handle.index as int].ref_count + 1 <= usize::MAX);
        },
        Term::Call(function) => {},
    }
    assert forall|i: int| 0 <= i < after.expressions.len() implies match (
    #[trigger] after.expressions[i]).assignable_global {
        Some(global) => global.index < after.global_uses.len(),
        None => true,
    } by {
        assert(after.expressions[i].assignable_global == state.expressions[i].assignable_global);
    }
}

/// Terms, applied to a record that admits them, change neither how many
/// expressions and global variables the record has a place for nor the
/// uniformity and the reached global variable of any expression; each
/// reference count grows by at most the number of references among the
/// terms.
pub proof fn lemma_apply_terms_shape(
    state: FunctionInfoView,
    terms: Seq<Term>,
    functions: Seq<FunctionInfoView>,
)
    requires
        state.admits(terms, functions),
    ensures
        ({
            let after = state.apply_terms(terms, functions).state;
            &&& after.wf()
            &&& after.expressions.len() == state.expressions.len()
            &&& after.global_uses.len() == state.global_uses.len()
            &&& after.uniformity == state.uniformity
            &&& after.may_kill == state.may_kill
            &&& forall|i: int|
                0 <= i < state.expressions.len() ==> {
                    &&& (#[trigger] after.expressions[i]).uniformity == state.expressions[i].uniformity
                    &&& after.expressions[i].assignable_global
                        == state.expressions[i].assignable_global
                    &&& state.expressions[i].ref_count <= after.expressions[i].ref_count
                        <= state.expressions[i].ref_count + reference_count(terms)
                }
        }),
    decreases terms.len(),
{
    reveal(FunctionInfoView::admits);
    reveal_with_fuel(FunctionInfoView::apply_terms, 1);
    if terms.len() > 0 {
        let front = terms.drop_last();
        assert(terms_in_range(front, state.expressions.len(), functions.len())) by {
            assert forall|i: int| 0 <= i < front.len() implies (#[trigger] front[i]).in_range(
                state.expressions.len(),
                functions.len(),
            ) by {
                assert(front[i] == terms[i]);
            }
        }
        lemma_apply_terms_shape(state, front, functions);
        let before = state.apply_terms(front, functions).state;
        assert(before.has_room(if terms.last().is_reference() { 1nat } else { 0nat })) by {
            assert forall|i: int| 0 <= i < before.expressions.len() implies (
            #[trigger] before.expressions[i]).ref_count + (if terms.last().is_reference() {
                1nat
            } else {
                0nat
            }) <= usize::MAX by {
                assert(state.expressions[i].ref_count + reference_count(terms) <= usize::MAX);
            }
        }
        lemma_apply_term_shape(before, terms.last(), functions);
    }
}

/// A record that admits some terms is well formed, and the terms name
/// only what the record has a place for.
pub proof fn lemma_admits_wf(
    state: FunctionInfoView,
    terms: Seq<Term>,
    functions: Seq<FunctionInfoView>,
)
    requires
        state.admits(terms, functions),
    ensures
        state.wf(),
        terms_in_range(terms, state.expressions.len(), functions.len()),
        state.has_room(reference_count(terms)),
{
    reveal(FunctionInfoView::admits);
}

/// A record that admits a list ending in `term` admits the list before
/// it, and after that list it is ready for `term`.
pub broadcast proof fn lemma_admits_push(
    state: FunctionInfoView,
    terms: Seq<Term>,
    term: Term,
    functions: Seq<FunctionInfoView>,
)
    requires
        #[trigger] state.admits(terms.push(term), functions),
    ensures
        state.admits(terms, functions),
        term.in_range(state.expressions.len(), functions.len()),
        ({
            let before = state.apply_terms(terms, functions).state;
            &&& before.wf()
            &&& before.expressions.len() == state.expressions.len()
            &&& before.global_uses.len() == state.global_uses.len()
            &&& term.is_reference() ==> before.has_room(1)
        }),
{
    assert(terms.push(term) =~= terms + seq![term]);
    lemma_admits_concat(state, terms, seq![term], functions);
    lemma_apply_terms_shape(state, terms, functions);
    reveal(FunctionInfoView::admits);
    assert(seq![term][0] == term);
    lemma_reference_count_push(Seq::<Term>::empty(), term);
    assert(Seq::<Term>::empty().push(term) =~= seq![term]);
}

/// A record that admits a concatenation admits its first part, and after
/// the first part it admits the second.
pub proof fn lemma_admits_concat(
    state: FunctionInfoView,
    first: Seq<Term>,
    second: Seq<Term>,
    functions: Seq<FunctionInfoView>,
)
    requires
        state.admits(first + second, functions),
    ensures
        state.admits(first, functions),
        state.apply_terms(first, functions).state.admits(second, functions),
{
    reveal(FunctionInfoView::admits);
    let whole = first + second;
    lemma_reference_count_concat(first, second);
    assert forall|i: int| 0 <= i < first.len() implies (#[trigger] first[i]).in_range(
        state.expressions.len(),
        functions.len(),
    ) by {
        assert(first[i] == whole[i]);
    }
    assert forall|i: int| 0 <= i < second.len() implies (#[trigger] second[i]).in_range(
        state.expressions.len(),
        functions.len(),
    ) by {
        assert(second[i] == whole[first.len() + i]);
    }
    assert(state.has_room(reference_count(first))) by {
        assert forall|i: int| 0 <= i < state.expressions.len() implies (
        #[trigger] state.expressions[i]).ref_count + reference_count(first) <= usize::MAX by {
            assert(state.expressions[i].ref_count + reference_count(whole) <= usize::MAX);
        }
    }
    lemma_apply_terms_shape(state, first, functions);
    let after = state.apply_terms(first, functions).state;
    assert(after.has_room(reference_count(second))) by {
        assert forall|i: int| 0 <= i < after.expressions.len() implies (
        #[trigger] after.expressions[i]).ref_count + reference_count(second) <= usize::MAX by {
            assert(state.expressions[i].ref_count + reference_count(whole) <= usize::MAX);
        }
    }
}

/// A record that admits a concatenation admits its first part; after the
/// first part it admits the second; and applying the second part then
/// leaves the record that applying the whole leaves.
pub proof fn lemma_parts(
    state: FunctionInfoView,
    first: Seq<Term>,
    second: Seq<Term>,
    functions: Seq<FunctionInfoView>,
)
    requires
        state.admits(first + second, functions),
    ensures
        state.admits(first, functions),
        state.apply_terms(first, functions).state.admits(second, functions),
        state.apply_terms(first + second, functions).state == state.apply_terms(
            first,
            functions,
        ).state.apply_terms(second, functions).state,
        state.apply_terms(first + second, functions).uniformity == state.apply_terms(
            first,
            functions,
        ).uniformity.join(
            state.apply_terms(first, functions).state.apply_terms(second, functions).uniformity,
        ),
{
    lemma_admits_concat(state, first, second, functions);
    lemma_apply_terms_concat(state, first, second, functions);
}

impl FunctionInfoView {
    /// Whether the record uses every global variable at least as `before`
    /// does, and samples with every pair that `before` samples with.
    pub open spec fn extends(self, before: FunctionInfoView) -> bool {
        &&& before.sampling_set.subset_of(self.sampling_set)
        &&& self.global_uses.len() == before.global_uses.len()
        &&& forall|i: int|
            0 <= i < self.global_uses.len() ==> (#[trigger] self.global_uses[i]).includes(
                before.global_uses[i],
            )
    }

    /// Whether the record has taken over what a called function does: it
    /// uses every global variable at least as `callee` does, and samples
    /// with every pair that `callee` samples with.
    pub open spec fn inherits(self, callee: FunctionInfoView) -> bool {
        &&& callee.sampling_set.subset_of(self.sampling_set)
        &&& self.dominates_global_use(callee)
    }
}

/// Whether one of the terms is a call of `function`.
pub open spec fn calls(terms: Seq<Term>, function: Handle<Function>) -> bool {
    exists|i: int| 0 <= i < terms.len() && #[trigger] terms[i] == Term::Call(function)
}

/// What a record has taken over from a called function, it keeps when it
/// is extended.
pub proof fn lemma_inherits_extended(
    after: FunctionInfoView,
    before: FunctionInfoView,
    callee: FunctionInfoView,
)
    requires
        after.extends(before),
        before.inherits(callee),
    ensures
        after.inherits(callee),
{
    assert forall|i: int|
        0 <= i < after.global_uses.len() && i < callee.global_uses.len() implies (
    #[trigger] after.global_uses[i]).includes(callee.global_uses[i]) by {
        assert(before.global_uses[i].includes(callee.global_uses[i]));
    }
}

/// Extending is transitive.
pub proof fn lemma_extends_transitive(
    last: FunctionInfoView,
    middle: FunctionInfoView,
    first: FunctionInfoView,
)
    requires
        last.extends(middle),
        middle.extends(first),
    ensures
        last.extends(first),
{
    assert forall|i: int| 0 <= i < last.global_uses.len() implies (
    #[trigger] last.global_uses[i]).includes(first.global_uses[i]) by {
        assert(middle.global_uses[i].includes(first.global_uses[i]));
    }
}

/// One term only adds to the uses of global variables and to the
/// image/sampler pairs, and a call takes over those of the called
/// function.
pub proof fn lemma_apply_term_extends(
    state: FunctionInfoView,
    term: Term,
    functions: Seq<FunctionInfoView>,
)
    requires
        state.wf(),
        term.in_range(state.expressions.len(), functions.len()),
    ensures
        state.apply_term(term, functions).state.extends(state),
        match term {
            Term::Call(function) => state.apply_term(term, functions).state.inherits(
                functions[function.index as int],
            ),
            _ => true,
        },
{
    let after = state.apply_term(term, functions).state;
    match term {
        Term::Ref { handle, global_use } => {
            assert(state.expressions[handle.index as int].assignable_global is Some ==> state.wf());
        },
        _ => {},
    }
}

/// Terms only add to the uses of global variables and to the
/// image/sampler pairs, and after them the record has taken over what
/// each called function does.
pub proof fn lemma_apply_terms_extends(
    state: FunctionInfoView,
    terms: Seq<Term>,
    functions: Seq<FunctionInfoView>,
)
    requires
        state.admits(terms, functions),
    ensures
        state.apply_terms(terms, functions).state.extends(state),
        forall|function: Handle<Function>|
            calls(terms, function) ==> state.apply_terms(terms, functions).state.inherits(
                #[trigger] functions[function.index as int],
            ),
    decreases terms.len(),
{
    reveal_with_fuel(FunctionInfoView::apply_terms, 1);
    let after = state.apply_terms(terms, functions).state;
    if terms.len() > 0 {
        let front = terms.drop_last();
        assert(terms =~= front.push(terms.last()));
        lemma_admits_push(state, front, terms.last(), functions);
        lemma_apply_terms_extends(state, front, functions);
        let before = state.apply_terms(front, functions).state;
        lemma_apply_term_extends(before, terms.last(), functions);
        lemma_extends_transitive(after, before, state);
        assert forall|function: Handle<Function>| calls(terms, function) implies after.inherits(
            #[trigger] functions[function.index as int],
        ) by {
            let i = choose|i: int| 0 <= i < terms.len() && #[trigger] terms[i] == Term::Call(function);
            if i < front.len() {
                assert(front[i] == Term::Call(function));
                assert(calls(front, function));
                lemma_inherits_extended(after, before, functions[function.index as int]);
            }
        }
    }
}

/// The sum of the reference counts of some expressions.
pub open spec fn total_references(expressions: Seq<ExpressionInfo>) -> nat
    decreases expressions.len(),
{
    if expressions.len() == 0 {
        0
    } else {
        total_references(expressions.drop_last()) + expressions.last().ref_count as nat
    }
}

/// Replacing what is known of one expression changes the sum of the
/// reference counts by the difference of the two counts.
pub proof fn lemma_total_references_update(
    expressions: Seq<ExpressionInfo>,
    index: int,
    info: ExpressionInfo,
)
    requires
        0 <= index < expressions.len(),
    ensures
        total_references(expressions.update(index, info)) + expressions[index].ref_count
            == total_references(expressions) + info.ref_count,
    decreases expressions.len(),
{
    let updated = expressions.update(index, info);
    if index == expressions.len() - 1 {
        assert(updated.drop_last() =~= expressions.drop_last());
    } else {
        lemma_total_references_update(expressions.drop_last(), index, info);
        assert(updated.drop_last() =~= expressions.drop_last().update(index, info));
    }
}

/// Expressions that are all without a reference have a sum of zero.
pub proof fn lemma_total_references_zero(expressions: Seq<ExpressionInfo>)
    requires
        forall|i: int| 0 <= i < expressions.len() ==> (#[trigger] expressions[i]).ref_count == 0,
    ensures
        total_references(expressions) == 0,
    decreases expressions.len(),
{
    if expressions.len() > 0 {
        lemma_total_references_zero(expressions.drop_last());
    }
}

/// One term raises the sum of the reference counts by one if it is a
/// reference, and leaves it otherwise. It changes only what is known of
/// the expression that it names.
pub proof fn lemma_apply_term_total(
    state: FunctionInfoView,
    term: Term,
    functions: Seq<FunctionInfoView>,
)
    requires
        state.wf(),
        term.in_range(state.expressions.len(), functions.len()),
        state.has_room(if term.is_reference() { 1nat } else { 0nat }),
    ensures
        total_references(state.apply_term(term, functions).state.expressions) == total_references(
            state.expressions,
        ) + if term.is_reference() {
            1nat
        } else {
            0nat
        },
        forall|i: int|
            0 <= i < state.expressions.len() && !term.names(i) ==> #[trigger] state.apply_term(
                term,
                functions,
            ).state.expressions[i] == state.expressions[i],
{
    match term {
        Term::Ref { handle, global_use } => {
            let info = state.expressions[handle.index as int];
            assert(info.ref_count + 1 <= usize::MAX);
            lemma_total_references_update(
                state.expressions,
                handle.index as int,
                ExpressionInfo { ref_count: (info.ref_count + 1) as usize, ..info },
            );
        },
        Term::Base(handle) => {
            let info = state.expressions[handle.index as int];
            assert(info.ref_count + 1 <= usize::MAX);
            lemma_total_references_update(
                state.expressions,
                handle.index as int,
                ExpressionInfo { ref_count: (info.ref_count + 1) as usize, ..info },
            );
        },
        _ => {},
    }
}

/// Terms raise the sum of the reference counts by the number of
/// references among them. Where they name only expressions among the
/// first `bound`, they leave what is known of the other expressions as it
/// is.
pub proof fn lemma_apply_terms_total(
    state: FunctionInfoView,
    terms: Seq<Term>,
    functions: Seq<FunctionInfoView>,
    bound: nat,
)
    requires
        state.admits(terms, functions),
        terms_in_range(terms, bound, functions.len()),
    ensures
        total_references(state.apply_terms(terms, functions).state.expressions) == total_references(
            state.expressions,
        ) + reference_count(terms),
        forall|i: int|
            bound <= i < state.expressions.len() ==> #[trigger] state.apply_terms(
                terms,
                functions,
            ).state.expressions[i] == state.expressions[i],
    decreases terms.len(),
{
    reveal_with_fuel(FunctionInfoView::apply_terms, 1);
    if terms.len() > 0 {
        let front = terms.drop_last();
        assert(terms =~= front.push(terms.last()));
        lemma_admits_push(state, front, terms.last(), functions);
        assert(terms_in_range(front, bound, functions.len())) by {
            assert forall|i: int| 0 <= i < front.len() implies (#[trigger] front[i]).in_range(
                bound,
                functions.len(),
            ) by {
                assert(front[i] == terms[i]);
            }
        }
        lemma_apply_terms_total(state, front, functions, bound);
        let before = state.apply_terms(front, functions).state;
        lemma_apply_term_total(before, terms.last(), functions);
        assert(terms.last().in_range(bound, functions.len()));
        let after = state.apply_terms(terms, functions).state;
        assert forall|i: int| bound <= i < state.expressions.len() implies #[trigger] after.expressions[i]
            == state.expressions[i] by {
            assert(!terms.last().names(i));
            assert(before.expressions[i] == state.expressions[i]);
        }
    }
}

/// The number of terms that are a reference to the expression at `index`.
pub open spec fn named_count(terms: Seq<Term>, index: int) -> nat
    decreases terms.len(),
{
    if terms.len() == 0 {
        0
    } else {
        named_count(terms.drop_last(), index) + if terms.last().names(index) {
            1nat
        } else {
            0nat
        }
    }
}

/// Terms that name only expressions among the first `bound` hold no
/// reference to any other expression.
pub proof fn lemma_named_count_out_of_range(
    terms: Seq<Term>,
    bound: nat,
    function_count: nat,
    index: int,
)
    requires
        terms_in_range(terms, bound, function_count),
        bound <= index,
    ensures
        named_count(terms, index) == 0,
    decreases terms.len(),
{
    if terms.len() > 0 {
        let front = terms.drop_last();
        assert(terms =~= front.push(terms.last()));
        lemma_terms_in_range_push(front, terms.last(), bound, function_count);
        lemma_named_count_out_of_range(front, bound, function_count, index);
    }
}

/// Terms raise the reference count of each expression by the number of
/// references to it among them.
pub proof fn lemma_apply_terms_named(
    state: FunctionInfoView,
    terms: Seq<Term>,
    functions: Seq<FunctionInfoView>,
    index: int,
)
    requires
        state.admits(terms, functions),
        0 <= index < state.expressions.len(),
    ensures
        state.apply_terms(terms, functions).state.expressions[index].ref_count
            == state.expressions[index].ref_count + named_count(terms, index),
    decreases terms.len(),
{
    reveal_with_fuel(FunctionInfoView::apply_terms, 1);
    if terms.len() > 0 {
        let front = terms.drop_last();
        assert(terms =~= front.push(terms.last()));
        lemma_admits_push(state, front, terms.last(), functions);
        lemma_apply_terms_named(state, front, functions, index);
        let before = state.apply_terms(front, functions).state;
        lemma_apply_term_total(before, terms.last(), functions);
        if terms.last().names(index) {
            assert(before.expressions[index].ref_count + 1 <= usize::MAX);
        }
    }
}

impl FunctionInfoView {
    /// The uniformity of one term, as the record has it.
    pub open spec fn term_uniformity(self, term: Term, functions: Seq<FunctionInfoView>)
        -> Uniformity {
        match term {
            Term::Fixed(uniformity) => uniformity,
            Term::Ref { handle, .. } => self.uniformity_of(handle),
            Term::Base(handle) => self.uniformity_of(handle),
            Term::Call(function) => functions[function.index as int].uniformity,
        }
    }

    /// The join of the uniformities of the terms from left to right, as
    /// the record has them.
    pub open spec fn terms_uniformity(self, terms: Seq<Term>, functions: Seq<FunctionInfoView>)
        -> Uniformity
        decreases terms.len(),
    {
        if terms.len() == 0 {
            Uniformity::none()
        } else {
            self.terms_uniformity(terms.drop_last(), functions).join(
                self.term_uniformity(terms.last(), functions),
            )
        }
    }
}

/// The uniformity that terms yield when they are applied is the join of
/// their uniformities as the record has them before.
pub proof fn lemma_apply_terms_uniformity(
    state: FunctionInfoView,
    terms: Seq<Term>,
    functions: Seq<FunctionInfoView>,
)
    requires
        state.admits(terms, functions),
    ensures
        state.apply_terms(terms, functions).uniformity == state.terms_uniformity(terms, functions),
    decreases terms.len(),
{
    reveal_with_fuel(FunctionInfoView::apply_terms, 1);
    if terms.len() > 0 {
        let front = terms.drop_last();
        assert(terms =~= front.push(terms.last()));
        lemma_admits_push(state, front, terms.last(), functions);
        lemma_apply_terms_uniformity(state, front, functions);
        lemma_apply_terms_shape(state, front, functions);
        lemma_admits_wf(state, terms, functions);
        assert(terms[terms.len() - 1].in_range(state.expressions.len(), functions.len()));
    }
}

/// Two records that agree on the uniformity of the first `bound`
/// expressions agree on the uniformity of terms that name only those.
pub proof fn lemma_terms_uniformity_agrees(
    first: FunctionInfoView,
    second: FunctionInfoView,
    terms: Seq<Term>,
    functions: Seq<FunctionInfoView>,
    bound: nat,
)
    requires
        terms_in_range(terms, bound, functions.len()),
        bound <= first.expressions.len(),
        bound <= second.expressions.len(),
        forall|i: int|
            0 <= i < bound ==> (#[trigger] first.expressions[i]).uniformity
                == second.expressions[i].uniformity,
    ensures
        first.terms_uniformity(terms, functions) == second.terms_uniformity(terms, functions),
    decreases terms.len(),
{
    if terms.len() > 0 {
        let front = terms.drop_last();
        assert(terms =~= front.push(terms.last()));
        lemma_terms_in_range_push(front, terms.last(), bound, functions.len());
        lemma_terms_uniformity_agrees(first, second, front, functions, bound);
        match terms.last() {
            Term::Ref { handle, .. } => {
                assert(first.expressions[handle.index as int].uniformity
                    == second.expressions[handle.index as int].uniformity);
            },
            Term::Base(handle) => {
                assert(first.expressions[handle.index as int].uniformity
                    == second.expressions[handle.index as int].uniformity);
            },
            _ => {},
        }
    }
}

} // verus!
