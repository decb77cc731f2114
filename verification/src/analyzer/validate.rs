//! Checking that a module can be analysed.

use crate::analyzer::block::{block_terms, cases_terms, statement_terms};
use crate::analyzer::expression::{expression_terms, with_level};
use crate::analyzer::flags::GlobalUse;
use crate::analyzer::module::{
    expression_references, expression_valid, function_valid, module_valid,
};
use crate::analyzer::terms::{
    lemma_reference_count_push, lemma_terms_in_range_push, operand_terms, reference_count,
    terms_in_range, with_optional, Term,
};
use crate::analyzer::uniformity::Uniformity;
use crate::arena::{Arena, Handle};
use crate::ir::{
    Expression, Function, GlobalVariable, ImageQuery, Module, SampleLevel, Statement,
    SwitchCase,
};
use vstd::prelude::*;

verus! {

/// What a pass over some terms has found: whether all of them name
/// something that exists, and how many of them are references, as far as
/// that number is in the range of `usize`.
struct Tally {
    in_range: bool,
    count: Option<usize>,
}

/// The number `count` as a `usize`, if it is in the range of `usize`.
spec fn fitting(count: nat) -> Option<usize> {
    if count <= usize::MAX {
        Some(count as usize)
    } else {
        None
    }
}

/// Returns the sum of two counts, if both are there and the sum is in the
/// range of `usize`.
fn add_counts(a: Option<usize>, b: Option<usize>, Ghost(x): Ghost<nat>, Ghost(y): Ghost<nat>) -> (sum:
    Option<usize>)
    requires
        a == fitting(x),
        b == fitting(y),
    ensures
        sum == fitting(x + y),
{
    match (a, b) {
        (Some(a), Some(b)) => a.checked_add(b),
        _ => None,
    }
}

impl Tally {
    /// Whether the tally is what a pass over `terms` finds, among
    /// `expression_count` expressions and `function_count` functions.
    spec fn counts(self, terms: Seq<Term>, expression_count: nat, function_count: nat)
        -> bool {
        &&& self.in_range == terms_in_range(terms, expression_count, function_count)
        &&& self.count == fitting(reference_count(terms))
    }

    /// The tally of no term.
    fn new(Ghost(expression_count): Ghost<nat>, Ghost(function_count): Ghost<nat>) -> (tally: Self)
        ensures
            tally.counts(Seq::empty(), expression_count, function_count),
    {
        Tally { in_range: true, count: Some(0) }
    }

    /// Adds a reference to the expression `handle`.
    fn reference(
        &mut self,
        handle: Handle<Expression>,
        expression_count: usize,
        Ghost(term): Ghost<Term>,
        Ghost(done): Ghost<Seq<Term>>,
        Ghost(function_count): Ghost<nat>,
    )
        requires
            old(self).counts(done, expression_count as nat, function_count),
            term.names(handle.index as int),
        ensures
            final(self).counts(done.push(term), expression_count as nat, function_count),
    {
        proof {
            lemma_terms_in_range_push(done, term, expression_count as nat, function_count);
            lemma_reference_count_push(done, term);
        }
        if handle.index() >= expression_count {
            self.in_range = false;
        }
        self.count = add_counts(
            self.count,
            Some(1),
            Ghost(reference_count(done)),
            Ghost(1nat),
        );
    }

    /// Adds a read of an operand that may be absent.
    fn optional(
        &mut self,
        operand: Option<Handle<Expression>>,
        expression_count: usize,
        Ghost(done): Ghost<Seq<Term>>,
        Ghost(function_count): Ghost<nat>,
    )
        requires
            old(self).counts(done, expression_count as nat, function_count),
        ensures
            final(self).counts(
                with_optional(done, operand),
                expression_count as nat,
                function_count,
            ),
    {
        if let Some(handle) = operand {
            self.reference(
                handle,
                expression_count,
                Ghost(Term::read(handle)),
                Ghost(done),
                Ghost(function_count),
            );
        }
    }

    /// Adds a read of each of `operands`.
    fn operands(
        &mut self,
        operands: &Vec<Handle<Expression>>,
        expression_count: usize,
        Ghost(done): Ghost<Seq<Term>>,
        Ghost(function_count): Ghost<nat>,
    )
        requires
            old(self).counts(done, expression_count as nat, function_count),
        ensures
            final(self).counts(
                done + operand_terms(operands@),
                expression_count as nat,
                function_count,
            ),
    {
        let mut i: usize = 0;
        assert(done + operand_terms(operands@.take(0)) =~= done);
        while i < operands.len()
            invariant
                i <= operands@.len(),
                self.counts(
                    done + operand_terms(operands@.take(i as int)),
                    expression_count as nat,
                    function_count,
                ),
            decreases operands@.len() - i,
        {
            let ghost here = done + operand_terms(operands@.take(i as int));
            assert(done + operand_terms(operands@.take(i + 1)) =~= here.push(
                Term::read(operands@[i as int]),
            ));
            self.reference(
                operands[i],
                expression_count,
                Ghost(Term::read(operands@[i as int])),
                Ghost(here),
                Ghost(function_count),
            );
            i = i + 1;
        }
        assert(operands@.take(i as int) =~= operands@);
    }

    /// Adds a call of `function`.
    fn call(
        &mut self,
        function: Handle<Function>,
        function_count: usize,
        Ghost(done): Ghost<Seq<Term>>,
        Ghost(expression_count): Ghost<nat>,
    )
        requires
            old(self).counts(done, expression_count, function_count as nat),
        ensures
            final(self).counts(
                done.push(Term::Call(function)),
                expression_count,
                function_count as nat,
            ),
    {
        proof {
            lemma_terms_in_range_push(
                done,
                Term::Call(function),
                expression_count,
                function_count as nat,
            );
            lemma_reference_count_push(done, Term::Call(function));
        }
        if function.index() >= function_count {
            self.in_range = false;
        }
    }

    /// Adds what the level of detail of a sampling operation refers to.
    fn level(
        &mut self,
        handle: Ghost<Handle<Expression>>,
        level: SampleLevel,
        expression_count: usize,
        Ghost(done): Ghost<Seq<Term>>,
        Ghost(function_count): Ghost<nat>,
    )
        requires
            old(self).counts(done, expression_count as nat, function_count),
        ensures
            final(self).counts(
                with_level(done, handle@, level),
                expression_count as nat,
                function_count,
            ),
    {
        broadcast use lemma_terms_in_range_push, lemma_reference_count_push;

        match level {
            SampleLevel::Auto => {},
            SampleLevel::Zero => {},
            SampleLevel::Exact(operand) => {
                self.reference(
                    operand,
                    expression_count,
                    Ghost(Term::read(operand)),
                    Ghost(done),
                    Ghost(function_count),
                );
            },
            SampleLevel::Bias(operand) => {
                self.reference(
                    operand,
                    expression_count,
                    Ghost(Term::read(operand)),
                    Ghost(done),
                    Ghost(function_count),
                );
            },
            SampleLevel::Gradient { x, y } => {
                self.reference(
                    x,
                    expression_count,
                    Ghost(Term::read(x)),
                    Ghost(done),
                    Ghost(function_count),
                );
                self.reference(
                    y,
                    expression_count,
                    Ghost(Term::read(y)),
                    Ghost(done.push(Term::read(x))),
                    Ghost(function_count),
                );
            },
        }
    }
}

/// Passes over the terms of the expression `expr` that stands at
/// `handle`: whether its operands are among the first `expression_count`
/// expressions and the functions that it calls among the first
/// `function_count`, and how many references it makes.
fn tally_expression(
    Ghost(handle): Ghost<Handle<Expression>>,
    expr: &Expression,
    expression_count: usize,
    function_count: usize,
    Ghost(globals): Ghost<Seq<GlobalVariable>>,
) -> (tally: Tally)
    ensures
        tally.counts(
            expression_terms(handle, *expr, globals),
            expression_count as nat,
            function_count as nat,
        ),
{
    broadcast use lemma_terms_in_range_push, lemma_reference_count_push;

    let ghost none = Seq::<Term>::empty();
    let ghost functions = function_count as nat;
    let mut tally = Tally::new(Ghost(expression_count as nat), Ghost(functions));
    match expr {
        Expression::Access { base, index } => {
            tally.reference(
                *base,
                expression_count,
                Ghost(Term::Base(*base)),
                Ghost(none),
                Ghost(functions),
            );
            tally.reference(
                *index,
                expression_count,
                Ghost(Term::read(*index)),
                Ghost(none.push(Term::Base(*base))),
                Ghost(functions),
            );
        },
        Expression::AccessIndex { base, .. } => {
            tally.reference(
                *base,
                expression_count,
                Ghost(Term::Base(*base)),
                Ghost(none),
                Ghost(functions),
            );
        },
        Expression::Constant(_) => {},
        Expression::Compose { components, .. } => {
            assert(none + operand_terms(components@) =~= operand_terms(components@));
            tally.operands(components, expression_count, Ghost(none), Ghost(functions));
        },
        Expression::FunctionArgument(_) => {},
        Expression::GlobalVariable(_) => {},
        Expression::LocalVariable(_) => {},
        Expression::Load { pointer } => {
            tally.reference(
                *pointer,
                expression_count,
                Ghost(Term::read(*pointer)),
                Ghost(none),
                Ghost(functions),
            );
        },
        Expression::ImageSample {
            image,
            sampler,
            coordinate,
            array_index,
            offset: _,
            level,
            depth_ref,
        } => {
            let ghost after_image = none.push(Term::read(*image));
            let ghost after_sampler = after_image.push(Term::read(*sampler));
            let ghost after_coordinate = after_sampler.push(Term::read(*coordinate));
            let ghost after_array = with_optional(after_coordinate, *array_index);
            tally.reference(
                *image,
                expression_count,
                Ghost(Term::read(*image)),
                Ghost(none),
                Ghost(functions),
            );
            tally.reference(
                *sampler,
                expression_count,
                Ghost(Term::read(*sampler)),
                Ghost(after_image),
                Ghost(functions),
            );
            tally.reference(
                *coordinate,
                expression_count,
                Ghost(Term::read(*coordinate)),
                Ghost(after_sampler),
                Ghost(functions),
            );
            tally.optional(*array_index, expression_count, Ghost(after_coordinate), Ghost(functions));
            tally.optional(*depth_ref, expression_count, Ghost(after_array), Ghost(functions));
            tally.level(
                Ghost(handle),
                *level,
                expression_count,
                Ghost(with_optional(after_array, *depth_ref)),
                Ghost(functions),
            );
        },
        Expression::ImageLoad { image, coordinate, array_index, index } => {
            let ghost after_image = none.push(Term::read(*image));
            let ghost after_coordinate = after_image.push(Term::read(*coordinate));
            tally.reference(
                *image,
                expression_count,
                Ghost(Term::read(*image)),
                Ghost(none),
                Ghost(functions),
            );
            tally.reference(
                *coordinate,
                expression_count,
                Ghost(Term::read(*coordinate)),
                Ghost(after_image),
                Ghost(functions),
            );
            tally.optional(*array_index, expression_count, Ghost(after_coordinate), Ghost(functions));
            tally.optional(
                *index,
                expression_count,
                Ghost(with_optional(after_coordinate, *array_index)),
                Ghost(functions),
            );
        },
        Expression::ImageQuery { image, query } => {
            let ghost first = Term::Ref { handle: *image, global_use: GlobalUse::query() };
            tally.reference(*image, expression_count, Ghost(first), Ghost(none), Ghost(functions));
            let level = match query {
                ImageQuery::Size { level } => *level,
                _ => None,
            };
            tally.optional(level, expression_count, Ghost(none.push(first)), Ghost(functions));
        },
        Expression::Unary { expr, .. } => {
            tally.reference(
                *expr,
                expression_count,
                Ghost(Term::read(*expr)),
                Ghost(none),
                Ghost(functions),
            );
        },
        Expression::Binary { left, right, .. } => {
            tally.reference(
                *left,
                expression_count,
                Ghost(Term::read(*left)),
                Ghost(none),
                Ghost(functions),
            );
            tally.reference(
                *right,
                expression_count,
                Ghost(Term::read(*right)),
                Ghost(none.push(Term::read(*left))),
                Ghost(functions),
            );
        },
        Expression::Select { condition, accept, reject } => {
            let ghost after_condition = none.push(Term::read(*condition));
            tally.reference(
                *condition,
                expression_count,
                Ghost(Term::read(*condition)),
                Ghost(none),
                Ghost(functions),
            );
            tally.reference(
                *accept,
                expression_count,
                Ghost(Term::read(*accept)),
                Ghost(after_condition),
                Ghost(functions),
            );
            tally.reference(
                *reject,
                expression_count,
                Ghost(Term::read(*reject)),
                Ghost(after_condition.push(Term::read(*accept))),
                Ghost(functions),
            );
        },
        Expression::Derivative { expr, .. } => {
            tally.reference(
                *expr,
                expression_count,
                Ghost(Term::read(*expr)),
                Ghost(none.push(Term::Fixed(Uniformity::requiring(handle)))),
                Ghost(functions),
            );
        },
        Expression::Relational { argument, .. } => {
            tally.reference(
                *argument,
                expression_count,
                Ghost(Term::read(*argument)),
                Ghost(none),
                Ghost(functions),
            );
        },
        Expression::Math { arg, arg1, arg2, .. } => {
            let ghost after_arg = none.push(Term::read(*arg));
            tally.reference(
                *arg,
                expression_count,
                Ghost(Term::read(*arg)),
                Ghost(none),
                Ghost(functions),
            );
            tally.optional(*arg1, expression_count, Ghost(after_arg), Ghost(functions));
            tally.optional(
                *arg2,
                expression_count,
                Ghost(with_optional(after_arg, *arg1)),
                Ghost(functions),
            );
        },
        Expression::As { expr, .. } => {
            tally.reference(
                *expr,
                expression_count,
                Ghost(Term::read(*expr)),
                Ghost(none),
                Ghost(functions),
            );
        },
        Expression::Call(function) => {
            tally.call(*function, function_count, Ghost(none), Ghost(expression_count as nat));
        },
        Expression::ArrayLength(expr) => {
            tally.reference(
                *expr,
                expression_count,
                Ghost(Term::Ref { handle: *expr, global_use: GlobalUse::query() }),
                Ghost(none),
                Ghost(functions),
            );
        },
    }
    tally
}

/// Passes over all the terms of a block, after the terms `done`.
fn tally_block(
    tally: &mut Tally,
    statements: &[Statement],
    expression_count: usize,
    function_count: usize,
    Ghost(done): Ghost<Seq<Term>>,
)
    requires
        old(tally).counts(done, expression_count as nat, function_count as nat),
    ensures
        final(tally).counts(
            done + block_terms(statements@),
            expression_count as nat,
            function_count as nat,
        ),
    decreases statements@,
{
    let mut i: usize = 0;
    proof {
        assert(statements@.take(0) =~= Seq::<Statement>::empty());
        assert(done + block_terms(statements@.take(0)) =~= done);
    }
    while i < statements.len()
        invariant
            i <= statements@.len(),
            tally.counts(
                done + block_terms(statements@.take(i as int)),
                expression_count as nat,
                function_count as nat,
            ),
        decreases statements@.len() - i,
    {
        let ghost here = done + block_terms(statements@.take(i as int));
        proof {
            assert(statements@.take(i + 1).drop_last() =~= statements@.take(i as int));
            assert(done + block_terms(statements@.take(i + 1)) =~= here + statement_terms(
                statements@[i as int],
            ));
        }
        tally_statement(tally, &statements[i], expression_count, function_count, Ghost(here));
        i = i + 1;
    }
    proof {
        assert(statements@.take(i as int) =~= statements@);
    }
}

/// Passes over all the terms of the cases of a switch, after the terms
/// `done`.
fn tally_cases(
    tally: &mut Tally,
    cases: &[SwitchCase],
    expression_count: usize,
    function_count: usize,
    Ghost(done): Ghost<Seq<Term>>,
)
    requires
        old(tally).counts(done, expression_count as nat, function_count as nat),
    ensures
        final(tally).counts(
            done + cases_terms(cases@),
            expression_count as nat,
            function_count as nat,
        ),
    decreases cases@,
{
    let mut i: usize = 0;
    proof {
        assert(cases@.take(0) =~= Seq::<SwitchCase>::empty());
        assert(done + cases_terms(cases@.take(0)) =~= done);
    }
    while i < cases.len()
        invariant
            i <= cases@.len(),
            tally.counts(
                done + cases_terms(cases@.take(i as int)),
                expression_count as nat,
                function_count as nat,
            ),
        decreases cases@.len() - i,
    {
        let ghost here = done + cases_terms(cases@.take(i as int));
        proof {
            assert(cases@.take(i + 1).drop_last() =~= cases@.take(i as int));
            assert(done + cases_terms(cases@.take(i + 1)) =~= here + block_terms(
                cases@[i as int].body@,
            ));
        }
        tally_block(
            tally,
            cases[i].body.as_slice(),
            expression_count,
            function_count,
            Ghost(here),
        );
        i = i + 1;
    }
    proof {
        assert(cases@.take(i as int) =~= cases@);
    }
}

/// Passes over all the terms of a statement, after the terms `done`.
fn tally_statement(
    tally: &mut Tally,
    stmt: &Statement,
    expression_count: usize,
    function_count: usize,
    Ghost(done): Ghost<Seq<Term>>,
)
    requires
        old(tally).counts(done, expression_count as nat, function_count as nat),
    ensures
        final(tally).counts(
            done + statement_terms(*stmt),
            expression_count as nat,
            function_count as nat,
        ),
    decreases *stmt,
{
    let ghost functions = function_count as nat;
    match stmt {
        Statement::Emit(_) | Statement::Break | Statement::Continue | Statement::Kill => {
            assert(done + statement_terms(*stmt) =~= done);
        },
        Statement::Block(block) => {
            tally_block(tally, block.as_slice(), expression_count, function_count, Ghost(done));
        },
        Statement::If { condition, accept, reject } => {
            let ghost head = done.push(Term::read(*condition));
            let ghost accepted = head + block_terms(accept@);
            proof {
                assert(done + statement_terms(*stmt) =~= accepted + block_terms(reject@));
            }
            tally.reference(
                *condition,
                expression_count,
                Ghost(Term::read(*condition)),
                Ghost(done),
                Ghost(functions),
            );
            tally_block(tally, accept.as_slice(), expression_count, function_count, Ghost(head));
            tally_block(
                tally,
                reject.as_slice(),
                expression_count,
                function_count,
                Ghost(accepted),
            );
        },
        Statement::Switch { selector, cases, default } => {
            let ghost head = done.push(Term::read(*selector));
            let ghost tried = head + cases_terms(cases@);
            proof {
                assert(done + statement_terms(*stmt) =~= tried + block_terms(default@));
            }
            tally.reference(
                *selector,
                expression_count,
                Ghost(Term::read(*selector)),
                Ghost(done),
                Ghost(functions),
            );
            tally_cases(tally, cases.as_slice(), expression_count, function_count, Ghost(head));
            tally_block(tally, default.as_slice(), expression_count, function_count, Ghost(tried));
        },
        Statement::Loop { body, continuing } => {
            let ghost looped = done + block_terms(body@);
            proof {
                assert(done + statement_terms(*stmt) =~= looped + block_terms(continuing@));
            }
            tally_block(tally, body.as_slice(), expression_count, function_count, Ghost(done));
            tally_block(
                tally,
                continuing.as_slice(),
                expression_count,
                function_count,
                Ghost(looped),
            );
        },
        Statement::Return { value } => {
            proof {
                assert(done + statement_terms(*stmt) =~= with_optional(done, *value));
            }
            tally.optional(*value, expression_count, Ghost(done), Ghost(functions));
        },
        Statement::Store { pointer, value } => {
            let ghost first = Term::Ref { handle: *pointer, global_use: GlobalUse::write() };
            proof {
                assert(done + statement_terms(*stmt) =~= done.push(first).push(
                    Term::read(*value),
                ));
            }
            tally.reference(*pointer, expression_count, Ghost(first), Ghost(done), Ghost(functions));
            tally.reference(
                *value,
                expression_count,
                Ghost(Term::read(*value)),
                Ghost(done.push(first)),
                Ghost(functions),
            );
        },
        Statement::ImageStore { image, coordinate, array_index, value } => {
            let ghost first = Term::Ref { handle: *image, global_use: GlobalUse::write() };
            let ghost after_coordinate = done.push(first).push(Term::read(*coordinate));
            let ghost after_array = with_optional(after_coordinate, *array_index);
            proof {
                assert(done + statement_terms(*stmt) =~= after_array.push(Term::read(*value)));
            }
            tally.reference(*image, expression_count, Ghost(first), Ghost(done), Ghost(functions));
            tally.reference(
                *coordinate,
                expression_count,
                Ghost(Term::read(*coordinate)),
                Ghost(done.push(first)),
                Ghost(functions),
            );
            tally.optional(*array_index, expression_count, Ghost(after_coordinate), Ghost(functions));
            tally.reference(
                *value,
                expression_count,
                Ghost(Term::read(*value)),
                Ghost(after_array),
                Ghost(functions),
            );
        },
        Statement::Call { function, arguments, result } => {
            let ghost called = done.push(Term::Call(*function));
            let ghost passed = called + operand_terms(arguments@);
            proof {
                assert(done + statement_terms(*stmt) =~= with_optional(passed, *result));
            }
            tally.call(*function, function_count, Ghost(done), Ghost(expression_count as nat));
            tally.operands(arguments, expression_count, Ghost(called), Ghost(functions));
            tally.optional(*result, expression_count, Ghost(passed), Ghost(functions));
        },
    }
}

/// Returns whether the function `fun` can be analysed in a module with
/// the global variables of `global_var_arena`, when `function_count`
/// functions were analysed before it.
pub fn validate_function(
    fun: &Function,
    global_var_arena: &Arena<GlobalVariable>,
    function_count: usize,
) -> (valid: bool)
    ensures
        valid == function_valid(*fun, global_var_arena@, function_count as nat),
{
    let ghost arena = fun.expressions@;
    let ghost globals = global_var_arena@;
    let expression_count = fun.expressions.len();
    let mut total: Option<usize> = Some(0);
    let mut i: usize = 0;
    while i < expression_count
        invariant
            i <= expression_count,
            expression_count == arena.len(),
            arena == fun.expressions@,
            globals == global_var_arena@,
            forall|k: int|
                0 <= k < i ==> expression_valid(
                    k,
                    #[trigger] arena[k],
                    globals,
                    function_count as nat,
                ),
            total == fitting(expression_references(arena, globals, i as int)),
        decreases expression_count - i,
    {
        let handle = Handle::new(i);
        let expr = &fun.expressions[handle];
        let tally = tally_expression(
            Ghost(handle),
            expr,
            i,
            function_count,
            Ghost(globals),
        );
        let named = match expr {
            Expression::GlobalVariable(global) => global.index() < global_var_arena.len(),
            _ => true,
        };
        if !tally.in_range || !named {
            assert(!expression_valid(i as int, arena[i as int], globals, function_count as nat));
            return false;
        }
        total = add_counts(
            total,
            tally.count,
            Ghost(expression_references(arena, globals, i as int)),
            Ghost(reference_count(expression_terms(handle, arena[i as int], globals))),
        );
        i = i + 1;
    }
    let mut tally = Tally::new(Ghost(expression_count as nat), Ghost(function_count as nat));
    tally_block(
        &mut tally,
        fun.body.as_slice(),
        expression_count,
        function_count,
        Ghost(Seq::empty()),
    );
    proof {
        assert(Seq::<Term>::empty() + block_terms(fun.body@) =~= block_terms(fun.body@));
    }
    let total = add_counts(
        total,
        tally.count,
        Ghost(expression_references(arena, globals, expression_count as int)),
        Ghost(reference_count(block_terms(fun.body@))),
    );
    tally.in_range && total.is_some()
}

/// Returns whether the module can be analysed: whether every handle in it
/// names something that stands before its user, and the references in
/// each function can be counted.
pub fn validate_module(module: &Module) -> (valid: bool)
    ensures
        valid == module_valid(*module),
{
    let function_count = module.functions.len();
    let mut i: usize = 0;
    while i < function_count
        invariant
            i <= function_count,
            function_count == module.functions@.len(),
            forall|k: int|
                0 <= k < i ==> function_valid(
                    #[trigger] module.functions@[k],
                    module.global_variables@,
                    k as nat,
                ),
        decreases function_count - i,
    {
        let handle = Handle::new(i);
        if !validate_function(&module.functions[handle], &module.global_variables, i) {
            assert(!function_valid(
                module.functions@[i as int],
                module.global_variables@,
                i as nat,
            ));
            return false;
        }
        i = i + 1;
    }
    let mut k: usize = 0;
    while k < module.entry_points.len()
        invariant
            k <= module.entry_points@.len(),
            function_count == module.functions@.len(),
            forall|j: int|
                0 <= j < module.functions@.len() ==> function_valid(
                    #[trigger] module.functions@[j],
                    module.global_variables@,
                    j as nat,
                ),
            forall|j: int|
                0 <= j < k ==> function_valid(
                    (#[trigger] module.entry_points@[j]).function,
                    module.global_variables@,
                    module.functions@.len(),
                ),
        decreases module.entry_points@.len() - k,
    {
        if !validate_function(
            &module.entry_points[k].function,
            &module.global_variables,
            function_count,
        ) {
            assert(!function_valid(
                module.entry_points@[k as int].function,
                module.global_variables@,
                module.functions@.len(),
            ));
            return false;
        }
        k = k + 1;
    }
    true
}

} // verus!
