//! The analysis of one expression.

use crate::analyzer::error::AnalysisError;
use crate::analyzer::flags::GlobalUse;
use crate::analyzer::info::{views, ExpressionInfo, FunctionInfo, FunctionInfoView};
use crate::analyzer::sampling::SamplingKey;
use crate::analyzer::steps::Trace;
use crate::analyzer::terms::{
    lemma_admits_push, lemma_admits_wf, lemma_apply_terms_empty, lemma_apply_terms_push,
    lemma_apply_terms_shape, operand_terms, reference_count, terms_in_range, with_optional,
    Applied, Term,
};
use crate::analyzer::uniformity::Uniformity;
use crate::arena::{Arena, Handle};
use crate::ir::{
    Binding, BuiltIn, Expression, GlobalVariable, ImageQuery, Interpolation, SampleLevel,
    StorageClass,
};
use vstd::prelude::*;

verus! {

/// Whether the value of a global variable is the same across all the
/// invocations of a group.
///
/// Of the built-ins, only those that are per polygon or per work group
/// are. Of the other variables, flat inputs, uniform and push constant
/// data are, and handle and storage data that is never stored to.
pub open spec fn global_is_uniform(var: GlobalVariable) -> bool {
    match var.binding {
        Some(Binding::BuiltIn(built_in)) => built_in == BuiltIn::FrontFacing || built_in
            == BuiltIn::WorkGroupId || built_in == BuiltIn::WorkGroupSize,
        _ => match var.class {
            StorageClass::Input => var.interpolation == Some(Interpolation::Flat),
            StorageClass::Output
            | StorageClass::Function
            | StorageClass::Private
            | StorageClass::WorkGroup => false,
            StorageClass::Uniform | StorageClass::PushConstant => true,
            StorageClass::Handle | StorageClass::Storage => !var.storage_access.store,
        },
    }
}

/// The terms that the level of detail of a sampling operation adds to
/// `terms`: an automatic level needs uniform control flow, and an
/// explicit one reads its operands.
pub open spec fn with_level(terms: Seq<Term>, handle: Handle<Expression>, level: SampleLevel)
    -> Seq<Term> {
    match level {
        SampleLevel::Auto => terms.push(Term::Fixed(Uniformity::requiring(handle))),
        SampleLevel::Zero => terms,
        SampleLevel::Exact(operand) => terms.push(Term::read(operand)),
        SampleLevel::Bias(operand) => terms.push(Term::read(operand)),
        SampleLevel::Gradient { x, y } => terms.push(Term::read(x)).push(Term::read(y)),
    }
}

/// The terms of the expression `expr` that stands at `handle`, in the
/// order in which their uniformities are joined.
pub open spec fn expression_terms(
    handle: Handle<Expression>,
    expr: Expression,
    globals: Seq<GlobalVariable>,
) -> Seq<Term> {
    match expr {
        Expression::Access { base, index } => seq![Term::Base(base)].push(Term::read(index)),
        Expression::AccessIndex { base, .. } => seq![Term::Base(base)],
        Expression::Constant(_) => seq![],
        Expression::Compose { components, .. } => operand_terms(components@),
        Expression::FunctionArgument(_) => seq![Term::Fixed(Uniformity::non_uniform(handle))],
        Expression::GlobalVariable(global) => seq![
            Term::Fixed(
                if global_is_uniform(globals[global.index as int]) {
                    Uniformity::none()
                } else {
                    Uniformity::non_uniform(handle)
                },
            ),
        ],
        Expression::LocalVariable(_) => seq![Term::Fixed(Uniformity::non_uniform(handle))],
        Expression::Load { pointer } => seq![Term::read(pointer)],
        Expression::ImageSample { image, sampler, coordinate, array_index, level, depth_ref, .. } => {
            with_level(
                with_optional(
                    with_optional(
                        seq![Term::read(image)].push(Term::read(sampler)).push(Term::read(coordinate)),
                        array_index,
                    ),
                    depth_ref,
                ),
                handle,
                level,
            )
        },
        Expression::ImageLoad { image, coordinate, array_index, index } => with_optional(
            with_optional(seq![Term::read(image)].push(Term::read(coordinate)), array_index),
            index,
        ),
        Expression::ImageQuery { image, query } => with_optional(
            seq![Term::Ref { handle: image, global_use: GlobalUse::query() }],
            match query {
                ImageQuery::Size { level } => level,
                _ => None,
            },
        ),
        Expression::Unary { expr, .. } => seq![Term::read(expr)],
        Expression::Binary { left, right, .. } => seq![Term::read(left)].push(Term::read(right)),
        Expression::Select { condition, accept, reject } => seq![Term::read(condition)].push(Term::read(accept)).push(Term::read(reject)),
        Expression::Derivative { expr, .. } => seq![Term::Fixed(Uniformity::requiring(handle))].push(Term::read(expr)),
        Expression::Relational { argument, .. } => seq![Term::read(argument)],
        Expression::Math { arg, arg1, arg2, .. } => with_optional(
            with_optional(seq![Term::read(arg)], arg1),
            arg2,
        ),
        Expression::As { expr, .. } => seq![Term::read(expr)],
        Expression::Call(function) => seq![Term::Call(function)],
        Expression::ArrayLength(expr) => seq![
            Term::Ref { handle: expr, global_use: GlobalUse::query() },
        ],
    }
}

/// The global variable that is reached through the expression `expr`: the
/// variable itself, or what the base of an access reaches. Anything that
/// loads or computes reaches none.
pub open spec fn expression_assignable(state: FunctionInfoView, expr: Expression) -> Option<
    Handle<GlobalVariable>,
> {
    match expr {
        Expression::GlobalVariable(global) => Some(global),
        Expression::Access { base, .. } => state.expressions[base.index as int].assignable_global,
        Expression::AccessIndex { base, .. } => state.expressions[base.index
            as int].assignable_global,
        _ => None,
    }
}

/// The global variable that the expression at `operand` directly is, if
/// it is one.
pub open spec fn direct_global(arena: Seq<Expression>, operand: Handle<Expression>) -> Option<
    Handle<GlobalVariable>,
> {
    match arena[operand.index as int] {
        Expression::GlobalVariable(global) => Some(global),
        _ => None,
    }
}

/// The image/sampler pair that the expression `expr` samples with: `None`
/// when it is no sampling operation, and an error when its image or its
/// sampler, in this order, is not directly a global variable.
pub open spec fn expression_sampling(arena: Seq<Expression>, expr: Expression) -> Result<
    Option<SamplingKey>,
    AnalysisError,
> {
    match expr {
        Expression::ImageSample { image, sampler, .. } => match direct_global(arena, image) {
            None => Err(AnalysisError::ExpectedGlobalVariable(arena[image.index as int])),
            Some(image_global) => match direct_global(arena, sampler) {
                None => Err(AnalysisError::ExpectedGlobalVariable(arena[sampler.index as int])),
                Some(sampler_global) => Ok(
                    Some(SamplingKey { image: image_global, sampler: sampler_global }),
                ),
            },
        },
        _ => Ok(None),
    }
}

/// A record after the analysis of one expression, and whether the
/// analysis succeeded.
#[verifier::ext_equal]
pub struct ExpressionOutcome {
    pub state: FunctionInfoView,
    pub result: Result<(), AnalysisError>,
}

impl ExpressionOutcome {
    /// Whether `result` is what the outcome holds, errors being compared
    /// up to the identity of vectors.
    pub open spec fn yields(self, result: Result<(), AnalysisError>) -> bool {
        match (self.result, result) {
            (Ok(_), Ok(_)) => true,
            (Err(expected), Err(error)) => expected.same_as(error),
            _ => false,
        }
    }
}

impl FunctionInfoView {
    /// The record in which `info` is what is known of the expression
    /// `handle`.
    pub open spec fn set_expression(self, handle: Handle<Expression>, info: ExpressionInfo)
        -> Self {
        FunctionInfoView { expressions: self.expressions.update(handle.index as int, info), ..self }
    }

    /// The record in which the pair `key`, if there is one, is among the
    /// image/sampler pairs.
    pub open spec fn sample(self, key: Option<SamplingKey>) -> Self {
        match key {
            Some(key) => FunctionInfoView { sampling_set: self.sampling_set.insert(key), ..self },
            None => self,
        }
    }

    /// The analysis of the expression at `handle` in `arena`.
    ///
    /// Where a sampling operation does not name its image and its sampler
    /// directly, the analysis fails and the record stays as it is.
    /// Otherwise the pair that the expression samples with is recorded,
    /// its terms are applied, and what is known of the expression becomes:
    /// the join of the uniformities of its terms, no reference, and the
    /// global variable that it reaches.
    pub open spec fn process_expression(
        self,
        handle: Handle<Expression>,
        arena: Seq<Expression>,
        globals: Seq<GlobalVariable>,
        functions: Seq<FunctionInfoView>,
    ) -> ExpressionOutcome {
        let expr = arena[handle.index as int];
        match expression_sampling(arena, expr) {
            Err(error) => ExpressionOutcome { state: self, result: Err(error) },
            Ok(key) => {
                let applied = self.sample(key).apply_terms(
                    expression_terms(handle, expr, globals),
                    functions,
                );
                ExpressionOutcome {
                    state: applied.state.set_expression(
                        handle,
                        ExpressionInfo {
                            uniformity: applied.uniformity,
                            ref_count: 0,
                            assignable_global: expression_assignable(self, expr),
                        },
                    ),
                    result: Ok(()),
                }
            },
        }
    }
}

/// Returns whether the value of a global variable is the same across all
/// the invocations of a group.
pub fn is_uniform_global(var: &GlobalVariable) -> (uniform: bool)
    ensures
        uniform == global_is_uniform(*var),
{
    if let Some(Binding::BuiltIn(built_in)) = var.binding {
        match built_in {
            // per-polygon built-ins are uniform
            BuiltIn::FrontFacing
            // per-work-group built-ins are uniform
            | BuiltIn::WorkGroupId | BuiltIn::WorkGroupSize => true,
            _ => false,
        }
    } else {
        match var.class {
            // only flat inputs are uniform
            StorageClass::Input => match var.interpolation {
                Some(Interpolation::Flat) => true,
                _ => false,
            },
            StorageClass::Output
            | StorageClass::Function
            | StorageClass::Private
            | StorageClass::WorkGroup => false,
            // uniform data
            StorageClass::Uniform | StorageClass::PushConstant => true,
            // storage data is only uniform when read-only
            StorageClass::Handle | StorageClass::Storage => !var.storage_access.store,
        }
    }
}

impl FunctionInfoView {
    /// Whether the record is ready for the analysis of the expression at
    /// `handle`: it has a place for each expression of `arena` and each
    /// global variable of `globals`, the global variable that the
    /// expression names exists, and the record admits the terms of the
    /// expression.
    pub open spec fn accepts_expression(
        self,
        handle: Handle<Expression>,
        arena: Seq<Expression>,
        globals: Seq<GlobalVariable>,
        functions: Seq<FunctionInfoView>,
    ) -> bool {
        &&& handle.index < arena.len()
        &&& self.expressions.len() == arena.len()
        &&& self.global_uses.len() == globals.len()
        &&& match arena[handle.index as int] {
            Expression::GlobalVariable(global) => global.index < globals.len(),
            _ => true,
        }
        &&& self.admits(expression_terms(handle, arena[handle.index as int], globals), functions)
    }
}

/// Where the terms of a sampling operation name expressions that exist,
/// its image and its sampler do.
proof fn lemma_sampling_in_range(
    handle: Handle<Expression>,
    expr: Expression,
    globals: Seq<GlobalVariable>,
    expression_count: nat,
    function_count: nat,
)
    requires
        terms_in_range(expression_terms(handle, expr, globals), expression_count, function_count),
    ensures
        match expr {
            Expression::ImageSample { image, sampler, .. } => image.index < expression_count
                && sampler.index < expression_count,
            _ => true,
        },
{
    match expr {
        Expression::ImageSample { image, sampler, .. } => {
            let terms = expression_terms(handle, expr, globals);
            assert(terms[0] == Term::read(image));
            assert(terms[1] == Term::read(sampler));
        },
        _ => {},
    }
}

/// The global variable that an expression reaches has a place in the use
/// masks of a record that admits the terms of the expression.
proof fn lemma_assignable_in_range(
    state: FunctionInfoView,
    handle: Handle<Expression>,
    expr: Expression,
    globals: Seq<GlobalVariable>,
    functions: Seq<FunctionInfoView>,
)
    requires
        state.admits(expression_terms(handle, expr, globals), functions),
        state.global_uses.len() == globals.len(),
        match expr {
            Expression::GlobalVariable(global) => global.index < globals.len(),
            _ => true,
        },
    ensures
        match expression_assignable(state, expr) {
            Some(global) => global.index < state.global_uses.len(),
            None => true,
        },
{
    let terms = expression_terms(handle, expr, globals);
    lemma_admits_wf(state, terms, functions);
    match expr {
        Expression::Access { base, .. } => {
            assert(terms[0] == Term::Base(base));
            assert(state.expressions[base.index as int].assignable_global is Some ==> state.wf());
        },
        Expression::AccessIndex { base, .. } => {
            assert(terms[0] == Term::Base(base));
            assert(state.expressions[base.index as int].assignable_global is Some ==> state.wf());
        },
        _ => {},
    }
}

/// The analysis of an expression leaves a well-formed record of the same
/// shape, in which no reference count has grown by more than the number
/// of references among the terms of the expression.
pub proof fn lemma_process_expression_shape(
    state: FunctionInfoView,
    handle: Handle<Expression>,
    arena: Seq<Expression>,
    globals: Seq<GlobalVariable>,
    functions: Seq<FunctionInfoView>,
)
    requires
        state.accepts_expression(handle, arena, globals, functions),
    ensures
        ({
            let after = state.process_expression(handle, arena, globals, functions).state;
            &&& after.wf()
            &&& after.expressions.len() == state.expressions.len()
            &&& after.global_uses.len() == state.global_uses.len()
            &&& forall|i: int|
                0 <= i < state.expressions.len() ==> (#[trigger] after.expressions[i]).ref_count
                    <= state.expressions[i].ref_count + reference_count(
                    expression_terms(handle, arena[handle.index as int], globals),
                )
        }),
{
    let expr = arena[handle.index as int];
    let terms = expression_terms(handle, expr, globals);
    lemma_admits_wf(state, terms, functions);
    match expression_sampling(arena, expr) {
        Err(_) => {},
        Ok(key) => {
            let sampled = state.sample(key);
            assert(sampled.admits(terms, functions)) by {
                reveal(FunctionInfoView::admits);
            }
            lemma_apply_terms_shape(sampled, terms, functions);
            lemma_assignable_in_range(state, handle, expr, globals, functions);
        },
    }
}

/// Returns the image/sampler pair that the expression `expr` samples
/// with, if it is a sampling operation.
fn sampling_key(expression_arena: &Arena<Expression>, expr: &Expression) -> (key: Result<
    Option<SamplingKey>,
    AnalysisError,
>)
    requires
        match *expr {
            Expression::ImageSample { image, sampler, .. } => expression_arena.contains(image)
                && expression_arena.contains(sampler),
            _ => true,
        },
    ensures
        match (expression_sampling(expression_arena@, *expr), key) {
            (Ok(expected), Ok(key)) => expected == key,
            (Err(expected), Err(error)) => expected.same_as(error),
            _ => false,
        },
{
    match expr {
        Expression::ImageSample { image, sampler, .. } => {
            let image = *image;
            let sampler = *sampler;
            let image_global = match &expression_arena[image] {
                Expression::GlobalVariable(var) => *var,
                other => {
                    return Err(AnalysisError::ExpectedGlobalVariable(other.clone()));
                },
            };
            let sampler_global = match &expression_arena[sampler] {
                Expression::GlobalVariable(var) => *var,
                other => {
                    return Err(AnalysisError::ExpectedGlobalVariable(other.clone()));
                },
            };
            Ok(Some(SamplingKey { image: image_global, sampler: sampler_global }))
        },
        _ => Ok(None),
    }
}

impl FunctionInfo {
    /// Performs what the level of detail of the sampling operation at
    /// `handle` contributes as the next terms.
    fn level_term(
        &mut self,
        so_far: Uniformity,
        handle: Handle<Expression>,
        level: SampleLevel,
        Ghost(trace): Ghost<Trace>,
    ) -> (joined: Uniformity)
        requires
            old(self).wf(),
            trace.start.admits(with_level(trace.done, handle, level), trace.functions),
            trace.reaches(old(self)@, so_far),
        ensures
            final(self).wf(),
            trace.start.apply_terms(with_level(trace.done, handle, level), trace.functions) == (
            Applied { state: final(self)@, uniformity: joined }),
    {
        broadcast use lemma_apply_terms_push, lemma_admits_push;

        match level {
            // implicit derivatives for LOD require uniform
            SampleLevel::Auto => so_far | Uniformity::require_uniform(handle),
            SampleLevel::Zero => so_far,
            SampleLevel::Exact(operand) => self.read_term(so_far, operand, Ghost(trace)),
            SampleLevel::Bias(operand) => self.read_term(so_far, operand, Ghost(trace)),
            SampleLevel::Gradient { x, y } => {
                let flags = self.read_term(so_far, x, Ghost(trace));
                self.read_term(flags, y, Ghost(trace.plus(Term::read(x))))
            },
        }
    }

    /// Performs the terms of the expression `expr` that stands at
    /// `handle`, and returns the join of their uniformities. The global
    /// variable that the expression reaches is stored in
    /// `assignable_global`.
    fn apply_expression(
        &mut self,
        handle: Handle<Expression>,
        expr: &Expression,
        global_var_arena: &Arena<GlobalVariable>,
        other_functions: &[FunctionInfo],
        assignable_global: &mut Option<Handle<GlobalVariable>>,
    ) -> (uniformity: Uniformity)
        requires
            old(self).sampling_set.wf(),
            old(self)@.admits(
                expression_terms(handle, *expr, global_var_arena@),
                views(other_functions@),
            ),
            match *expr {
                Expression::GlobalVariable(global) => global_var_arena.contains(global),
                _ => true,
            },
            *old(assignable_global) is None,
        ensures
            final(self).wf(),
            (Applied { state: final(self)@, uniformity }) == old(self)@.apply_terms(
                expression_terms(handle, *expr, global_var_arena@),
                views(other_functions@),
            ),
            *final(assignable_global) == expression_assignable(old(self)@, *expr),
    {
        broadcast use lemma_apply_terms_empty, lemma_apply_terms_push, lemma_admits_push;

        let ghost trace = Trace::begin(self@, views(other_functions@));
        proof {
            lemma_admits_wf(
                self@,
                expression_terms(handle, *expr, global_var_arena@),
                views(other_functions@),
            );
        }
        let none = Uniformity::default();
        match expr {
            Expression::Access { base, index } => {
                let flags = self.base_term(none, *base, assignable_global, Ghost(trace));
                self.read_term(flags, *index, Ghost(trace.plus(Term::Base(*base))))
            },
            Expression::AccessIndex { base, .. } => self.base_term(
                none,
                *base,
                assignable_global,
                Ghost(trace),
            ),
            Expression::Constant(_) => none,
            Expression::Compose { components, .. } => {
                assert(trace.done + operand_terms(components@) =~= operand_terms(components@));
                self.operand_terms(none, components, Ghost(trace))
            },
            Expression::FunctionArgument(_) => Uniformity::non_uniform_result(handle),
            Expression::GlobalVariable(global) => {
                let global = *global;
                *assignable_global = Some(global);
                if is_uniform_global(&global_var_arena[global]) {
                    none
                } else {
                    Uniformity::non_uniform_result(handle)
                }
            },
            Expression::LocalVariable(_) => Uniformity::non_uniform_result(handle),
            Expression::Load { pointer } => self.read_term(none, *pointer, Ghost(trace)),
            Expression::ImageSample {
                image,
                sampler,
                coordinate,
                array_index,
                offset: _,
                level,
                depth_ref,
            } => {
                let ghost after_image = trace.plus(Term::read(*image));
                let ghost after_sampler = after_image.plus(Term::read(*sampler));
                let ghost after_coordinate = after_sampler.plus(Term::read(*coordinate));
                let ghost after_array = after_coordinate.plus_optional(*array_index);
                let flags = self.read_term(none, *image, Ghost(trace));
                let flags = self.read_term(flags, *sampler, Ghost(after_image));
                let flags = self.read_term(flags, *coordinate, Ghost(after_sampler));
                let flags = self.optional_term(flags, *array_index, Ghost(after_coordinate));
                let flags = self.optional_term(flags, *depth_ref, Ghost(after_array));
                self.level_term(
                    flags,
                    handle,
                    *level,
                    Ghost(after_array.plus_optional(*depth_ref)),
                )
            },
            Expression::ImageLoad { image, coordinate, array_index, index } => {
                let ghost after_image = trace.plus(Term::read(*image));
                let ghost after_coordinate = after_image.plus(Term::read(*coordinate));
                let flags = self.read_term(none, *image, Ghost(trace));
                let flags = self.read_term(flags, *coordinate, Ghost(after_image));
                let flags = self.optional_term(flags, *array_index, Ghost(after_coordinate));
                self.optional_term(
                    flags,
                    *index,
                    Ghost(after_coordinate.plus_optional(*array_index)),
                )
            },
            Expression::ImageQuery { image, query } => {
                let flags = self.ref_term(none, *image, GlobalUse::query(), Ghost(trace));
                let level = match query {
                    ImageQuery::Size { level } => *level,
                    _ => None,
                };
                self.optional_term(
                    flags,
                    level,
                    Ghost(trace.plus(Term::Ref { handle: *image, global_use: GlobalUse::query() })),
                )
            },
            Expression::Unary { expr, .. } => self.read_term(none, *expr, Ghost(trace)),
            Expression::Binary { left, right, .. } => {
                let flags = self.read_term(none, *left, Ghost(trace));
                self.read_term(flags, *right, Ghost(trace.plus(Term::read(*left))))
            },
            Expression::Select { condition, accept, reject } => {
                let ghost after_condition = trace.plus(Term::read(*condition));
                let flags = self.read_term(none, *condition, Ghost(trace));
                let flags = self.read_term(flags, *accept, Ghost(after_condition));
                self.read_term(flags, *reject, Ghost(after_condition.plus(Term::read(*accept))))
            },
            // explicit derivatives require uniform
            Expression::Derivative { expr, .. } => self.read_term(
                Uniformity::require_uniform(handle),
                *expr,
                Ghost(trace.plus(Term::Fixed(Uniformity::requiring(handle)))),
            ),
            Expression::Relational { argument, .. } => self.read_term(
                none,
                *argument,
                Ghost(trace),
            ),
            Expression::Math { arg, arg1, arg2, .. } => {
                let ghost after_arg = trace.plus(Term::read(*arg));
                let flags = self.read_term(none, *arg, Ghost(trace));
                let flags = self.optional_term(flags, *arg1, Ghost(after_arg));
                self.optional_term(flags, *arg2, Ghost(after_arg.plus_optional(*arg1)))
            },
            Expression::As { expr, .. } => self.read_term(none, *expr, Ghost(trace)),
            Expression::Call(function) => self.call_term(
                none,
                &other_functions[function.index()],
                Ghost(*function),
                Ghost(trace),
            ),
            Expression::ArrayLength(expr) => self.ref_term(
                none,
                *expr,
                GlobalUse::query(),
                Ghost(trace),
            ),
        }
    }

    /// Computes the control flags of a given expression, and stores them
    /// in the record. Also, bumps the reference counts on dependent
    /// expressions, marks the global variables that the expression uses,
    /// and records the image/sampler pair that it samples with.
    pub fn process_expression(
        &mut self,
        handle: Handle<Expression>,
        expression_arena: &Arena<Expression>,
        global_var_arena: &Arena<GlobalVariable>,
        other_functions: &[FunctionInfo],
    ) -> (result: Result<(), AnalysisError>)
        requires
            old(self).sampling_set.wf(),
            old(self)@.accepts_expression(
                handle,
                expression_arena@,
                global_var_arena@,
                views(other_functions@),
            ),
        ensures
            final(self).wf(),
            final(self)@ == old(self)@.process_expression(
                handle,
                expression_arena@,
                global_var_arena@,
                views(other_functions@),
            ).state,
            old(self)@.process_expression(
                handle,
                expression_arena@,
                global_var_arena@,
                views(other_functions@),
            ).yields(result),
    {
        let ghost functions = views(other_functions@);
        let expr = &expression_arena[handle];
        proof {
            lemma_admits_wf(
                self@,
                expression_terms(handle, *expr, global_var_arena@),
                functions,
            );
            lemma_sampling_in_range(
                handle,
                *expr,
                global_var_arena@,
                expression_arena@.len(),
                functions.len(),
            );
        }
        let key = match sampling_key(expression_arena, expr) {
            Ok(key) => key,
            Err(error) => {
                return Err(error);
            },
        };
        if let Some(key) = key {
            self.sampling_set.insert(key);
        }
        assert(self@ == old(self)@.sample(key));
        assert(self@.admits(expression_terms(handle, *expr, global_var_arena@), functions)) by {
            reveal(FunctionInfoView::admits);
        }
        let mut assignable_global: Option<Handle<GlobalVariable>> = None;
        let uniformity = self.apply_expression(
            handle,
            expr,
            global_var_arena,
            other_functions,
            &mut assignable_global,
        );
        proof {
            lemma_apply_terms_shape(
                old(self)@.sample(key),
                expression_terms(handle, *expr, global_var_arena@),
                functions,
            );
            lemma_assignable_in_range(old(self)@, handle, *expr, global_var_arena@, functions);
        }
        self.expressions[handle.index()] = ExpressionInfo {
            uniformity,
            ref_count: 0,
            assignable_global,
        };
        Ok(())
    }
}

} // verus!
