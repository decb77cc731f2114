//! The analysis of whole functions and of a whole module.

use crate::analyzer::block::block_terms;
use crate::analyzer::error::AnalysisError;
use crate::analyzer::expression::{
    expression_terms, lemma_process_expression_shape, ExpressionOutcome,
};
use crate::analyzer::flags::ExitFlags;
use crate::analyzer::info::{views, FunctionInfo, FunctionInfoView};
use crate::analyzer::laws::{analysis_fits, lemma_analysis_fits};
use crate::analyzer::terms::{lemma_terms_in_range_widen, reference_count, terms_in_range};
use crate::arena::{Arena, Handle};
use crate::ir::{EntryPoint, Expression, Function, GlobalVariable, Module};
use std::ops::Index;
use vstd::prelude::*;

verus! {

/// Whether the expression `expr` at position `index` of its arena refers
/// only to what exists: its operands stand before it in the arena (the
/// arena is in topological order), the functions that it calls are among
/// the first `function_count`, and the global variable that it names is
/// one of `globals`.
pub open spec fn expression_valid(
    index: int,
    expr: Expression,
    globals: Seq<GlobalVariable>,
    function_count: nat,
) -> bool {
    &&& terms_in_range(
        expression_terms(Handle::at(index), expr, globals),
        index as nat,
        function_count,
    )
    &&& match expr {
        Expression::GlobalVariable(global) => global.index < globals.len(),
        _ => true,
    }
}

/// The number of references that the first `count` expressions of `arena`
/// make to their operands.
pub open spec fn expression_references(
    arena: Seq<Expression>,
    globals: Seq<GlobalVariable>,
    count: int,
) -> nat
    decreases count,
{
    if count <= 0 {
        0
    } else {
        expression_references(arena, globals, count - 1) + reference_count(
            expression_terms(Handle::at(count - 1), arena[count - 1], globals),
        )
    }
}

/// The number of references that the expressions and the statements of a
/// function make to its expressions.
pub open spec fn function_references(fun: Function, globals: Seq<GlobalVariable>) -> nat {
    expression_references(fun.expressions@, globals, fun.expressions@.len() as int)
        + reference_count(block_terms(fun.body@))
}

/// Whether the function `fun` can be analysed in a module with the global
/// variables `globals`, when `function_count` functions were analysed
/// before it: every expression is valid, the statements refer only to
/// expressions of the function and to those functions, and the number of
/// references is in the range of `usize`.
pub open spec fn function_valid(fun: Function, globals: Seq<GlobalVariable>, function_count: nat)
    -> bool {
    &&& forall|i: int|
        0 <= i < fun.expressions@.len() ==> expression_valid(
            i,
            #[trigger] fun.expressions@[i],
            globals,
            function_count,
        )
    &&& terms_in_range(block_terms(fun.body@), fun.expressions@.len(), function_count)
    &&& function_references(fun, globals) <= usize::MAX
}

/// Whether the module can be analysed: each function is valid and calls
/// only functions that stand before it, and each entry point is valid.
pub open spec fn module_valid(module: Module) -> bool {
    &&& forall|i: int|
        0 <= i < module.functions@.len() ==> function_valid(
            #[trigger] module.functions@[i],
            module.global_variables@,
            i as nat,
        )
    &&& forall|i: int|
        0 <= i < module.entry_points@.len() ==> function_valid(
            (#[trigger] module.entry_points@[i]).function,
            module.global_variables@,
            module.functions@.len(),
        )
}

impl FunctionInfoView {
    /// The analysis of the first `count` expressions of `arena`, in the
    /// order of their handles. The first failure ends it.
    pub open spec fn process_expressions(
        self,
        arena: Seq<Expression>,
        globals: Seq<GlobalVariable>,
        functions: Seq<FunctionInfoView>,
        count: int,
    ) -> ExpressionOutcome
        decreases count,
    {
        if count <= 0 {
            ExpressionOutcome { state: self, result: Ok(()) }
        } else {
            let before = self.process_expressions(arena, globals, functions, count - 1);
            match before.result {
                Err(_) => before,
                Ok(_) => before.state.process_expression(
                    Handle::at(count - 1),
                    arena,
                    globals,
                    functions,
                ),
            }
        }
    }
}

/// The analysis of a function in a module with the global variables
/// `globals`, where `functions` is what is known of the functions that it
/// can call.
///
/// Starting from a blank record, the expressions are analysed in the
/// order of their handles, and then the body, which is entered in uniform
/// control flow. The function has the uniformity of its body, and may
/// kill if its body may.
pub open spec fn analyze_function(
    fun: Function,
    globals: Seq<GlobalVariable>,
    functions: Seq<FunctionInfoView>,
) -> Result<FunctionInfoView, AnalysisError> {
    let blank = FunctionInfoView::blank(globals.len(), fun.expressions@.len());
    let analysed = blank.process_expressions(
        fun.expressions@,
        globals,
        functions,
        fun.expressions@.len() as int,
    );
    match analysed.result {
        Err(error) => Err(error),
        Ok(_) => {
            let walk = analysed.state.process_block(fun.body@, functions, None);
            match walk.result {
                Err(error) => Err(error),
                Ok((uniformity, exit)) => Ok(
                    FunctionInfoView { uniformity, may_kill: exit.may_kill, ..walk.state },
                ),
            }
        },
    }
}

/// The analysis of the first `count` functions of a module, in the order
/// of their handles, each with what is known of those before it. The
/// first failure ends it.
pub open spec fn analyze_functions(
    functions: Seq<Function>,
    globals: Seq<GlobalVariable>,
    count: int,
) -> Result<Seq<FunctionInfoView>, AnalysisError>
    decreases count,
{
    if count <= 0 {
        Ok(Seq::empty())
    } else {
        match analyze_functions(functions, globals, count - 1) {
            Err(error) => Err(error),
            Ok(infos) => match analyze_function(functions[count - 1], globals, infos) {
                Err(error) => Err(error),
                Ok(info) => Ok(infos.push(info)),
            },
        }
    }
}

/// The analysis of the first `count` entry points of a module, in their
/// order, each with what is known of all the functions. The first failure
/// ends it.
pub open spec fn analyze_entry_points(
    entry_points: Seq<EntryPoint>,
    globals: Seq<GlobalVariable>,
    functions: Seq<FunctionInfoView>,
    count: int,
) -> Result<Seq<FunctionInfoView>, AnalysisError>
    decreases count,
{
    if count <= 0 {
        Ok(Seq::empty())
    } else {
        match analyze_entry_points(entry_points, globals, functions, count - 1) {
            Err(error) => Err(error),
            Ok(infos) => match analyze_function(entry_points[count - 1].function, globals, functions) {
                Err(error) => Err(error),
                Ok(info) => Ok(infos.push(info)),
            },
        }
    }
}

/// The mathematical content of an [`Analysis`].
#[verifier::ext_equal]
pub struct AnalysisView {
    /// What is known of each function, in the order of their handles.
    pub functions: Seq<FunctionInfoView>,
    /// What is known of each entry point, in their order.
    pub entry_points: Seq<FunctionInfoView>,
}

/// The analysis of a module: the functions first, then the entry points.
pub open spec fn analyze_module(module: Module) -> Result<AnalysisView, AnalysisError> {
    match analyze_functions(
        module.functions@,
        module.global_variables@,
        module.functions@.len() as int,
    ) {
        Err(error) => Err(error),
        Ok(functions) => match analyze_entry_points(
            module.entry_points@,
            module.global_variables@,
            functions,
            module.entry_points@.len() as int,
        ) {
            Err(error) => Err(error),
            Ok(entry_points) => Ok(AnalysisView { functions, entry_points }),
        },
    }
}

/// Whether `result` is the record that `expected` holds, or an error that
/// is the one that `expected` holds up to the identity of vectors.
pub open spec fn function_result_is(
    expected: Result<FunctionInfoView, AnalysisError>,
    result: Result<FunctionInfo, AnalysisError>,
) -> bool {
    match (expected, result) {
        (Ok(view), Ok(info)) => info.wf() && info@ == view,
        (Err(expected_error), Err(error)) => expected_error.same_as(error),
        _ => false,
    }
}

/// Whether `result` is the analysis that `expected` holds, or an error
/// that is the one that `expected` holds up to the identity of vectors.
pub open spec fn analysis_result_is(
    expected: Result<AnalysisView, AnalysisError>,
    result: Result<Analysis, AnalysisError>,
) -> bool {
    match (expected, result) {
        (Ok(view), Ok(analysis)) => analysis@ == view,
        (Err(expected_error), Err(error)) => expected_error.same_as(error),
        _ => false,
    }
}

/// The result of analysing a module: what is known of each of its
/// functions and of each of its entry points.
#[derive(Debug)]
pub struct Analysis {
    functions: Vec<FunctionInfo>,
    entry_points: Vec<FunctionInfo>,
}

impl View for Analysis {
    type V = AnalysisView;

    closed spec fn view(&self) -> AnalysisView {
        AnalysisView { functions: views(self.functions@), entry_points: views(self.entry_points@) }
    }
}

impl Default for Analysis {
    fn default() -> (analysis: Self)
        ensures
            analysis@ == (AnalysisView { functions: Seq::empty(), entry_points: Seq::empty() }),
    {
        Analysis { functions: Vec::new(), entry_points: Vec::new() }
    }
}

/// The references of the first expressions of an arena are among those
/// of more of its expressions.
pub proof fn lemma_expression_references_monotone(
    arena: Seq<Expression>,
    globals: Seq<GlobalVariable>,
    fewer: int,
    more: int,
)
    requires
        fewer <= more,
    ensures
        expression_references(arena, globals, fewer) <= expression_references(arena, globals, more),
    decreases more - fewer,
{
    if fewer < more {
        lemma_expression_references_monotone(arena, globals, fewer, more - 1);
    }
}

/// Once the analysis of the first expressions of an arena has failed, the
/// analysis of more of its expressions is that failure.
pub proof fn lemma_expressions_failure(
    state: FunctionInfoView,
    arena: Seq<Expression>,
    globals: Seq<GlobalVariable>,
    functions: Seq<FunctionInfoView>,
    fewer: int,
    more: int,
)
    requires
        fewer <= more,
        state.process_expressions(arena, globals, functions, fewer).result is Err,
    ensures
        state.process_expressions(arena, globals, functions, more) == state.process_expressions(
            arena,
            globals,
            functions,
            fewer,
        ),
    decreases more - fewer,
{
    if fewer < more {
        lemma_expressions_failure(state, arena, globals, functions, fewer, more - 1);
    }
}

/// Once the analysis of the first functions of a module has failed, the
/// analysis of more of its functions is that failure.
pub proof fn lemma_functions_failure(
    functions: Seq<Function>,
    globals: Seq<GlobalVariable>,
    fewer: int,
    more: int,
)
    requires
        fewer <= more,
        analyze_functions(functions, globals, fewer) is Err,
    ensures
        analyze_functions(functions, globals, more) == analyze_functions(functions, globals, fewer),
    decreases more - fewer,
{
    if fewer < more {
        lemma_functions_failure(functions, globals, fewer, more - 1);
    }
}

/// Once the analysis of the first entry points of a module has failed,
/// the analysis of more of its entry points is that failure.
pub proof fn lemma_entry_points_failure(
    entry_points: Seq<EntryPoint>,
    globals: Seq<GlobalVariable>,
    functions: Seq<FunctionInfoView>,
    fewer: int,
    more: int,
)
    requires
        fewer <= more,
        analyze_entry_points(entry_points, globals, functions, fewer) is Err,
    ensures
        analyze_entry_points(entry_points, globals, functions, more) == analyze_entry_points(
            entry_points,
            globals,
            functions,
            fewer,
        ),
    decreases more - fewer,
{
    if fewer < more {
        lemma_entry_points_failure(entry_points, globals, functions, fewer, more - 1);
    }
}

impl Analysis {
    /// Builds the `FunctionInfo` based on the function, and validates the
    /// uniform control flow if required by the expressions of this
    /// function. The functions that `fun` can call are those that this
    /// analysis already holds.
    pub fn process_function(&self, fun: &Function, global_var_arena: &Arena<GlobalVariable>) -> (result:
        Result<FunctionInfo, AnalysisError>)
        requires
            function_valid(*fun, global_var_arena@, self@.functions.len()),
        ensures
            function_result_is(
                analyze_function(*fun, global_var_arena@, self@.functions),
                result,
            ),
    {
        let ghost arena = fun.expressions@;
        let ghost globals = global_var_arena@;
        let ghost functions = views(self.functions@);
        let ghost blank = FunctionInfoView::blank(globals.len(), arena.len());
        let ghost total = function_references(*fun, globals);
        let mut info = FunctionInfo::new(global_var_arena.len(), fun.expressions.len());
        let mut i: usize = 0;
        while i < fun.expressions.len()
            invariant
                i <= arena.len(),
                arena == fun.expressions@,
                globals == global_var_arena@,
                functions == views(self.functions@),
                blank == FunctionInfoView::blank(globals.len(), arena.len()),
                total == function_references(*fun, globals),
                function_valid(*fun, globals, functions.len()),
                info.wf(),
                info@.expressions.len() == arena.len(),
                info@.global_uses.len() == globals.len(),
                info@.has_room((total - expression_references(arena, globals, i as int)) as nat),
                blank.process_expressions(arena, globals, functions, i as int) == (
                ExpressionOutcome { state: info@, result: Ok(()) }),
            decreases arena.len() - i,
        {
            let handle = Handle::new(i);
            let ghost terms = expression_terms(handle, arena[i as int], globals);
            proof {
                lemma_expression_references_monotone(arena, globals, i + 1, arena.len() as int);
                assert(expression_valid(i as int, arena[i as int], globals, functions.len()));
                lemma_terms_in_range_widen(
                    terms,
                    i as nat,
                    functions.len(),
                    arena.len(),
                    functions.len(),
                );
                assert(info@.admits(terms, functions)) by {
                    reveal(FunctionInfoView::admits);
                }
                lemma_process_expression_shape(info@, handle, arena, globals, functions);
            }
            match info.process_expression(
                handle,
                &fun.expressions,
                global_var_arena,
                self.functions.as_slice(),
            ) {
                Ok(_) => {},
                Err(error) => {
                    proof {
                        lemma_expressions_failure(
                            blank,
                            arena,
                            globals,
                            functions,
                            i + 1,
                            arena.len() as int,
                        );
                    }
                    return Err(error);
                },
            }
            i = i + 1;
        }
        proof {
            assert(info@.admits(block_terms(fun.body@), functions)) by {
                reveal(FunctionInfoView::admits);
            }
        }
        let (uniformity, exit) = match info.process_block(
            fun.body.as_slice(),
            self.functions.as_slice(),
            None,
        ) {
            Ok(flags) => flags,
            Err(error) => {
                return Err(error);
            },
        };
        info.uniformity = uniformity;
        info.may_kill = exit.contains(ExitFlags::may_kill());
        Ok(info)
    }

    /// Analyzes a module and returns the `Analysis`, if successful.
    ///
    /// The functions are processed before the entry points, each in the
    /// order of declaration, so that what is known of a called function is
    /// there when its caller is processed.
    pub fn new(module: &Module) -> (result: Result<Self, AnalysisError>)
        requires
            module_valid(*module),
        ensures
            analysis_result_is(analyze_module(*module), result),
            match result {
                Ok(analysis) => analysis_fits(analysis@, *module),
                Err(_) => true,
            },
    {
        let ghost globals = module.global_variables@;
        let mut this = Analysis { functions: Vec::new(), entry_points: Vec::new() };
        let mut i: usize = 0;
        assert(views(this.functions@) =~= Seq::<FunctionInfoView>::empty());
        while i < module.functions.len()
            invariant
                i <= module.functions@.len(),
                globals == module.global_variables@,
                module_valid(*module),
                this.entry_points@.len() == 0,
                this.functions@.len() == i,
                analyze_functions(module.functions@, globals, i as int) == Ok::<
                    Seq<FunctionInfoView>,
                    AnalysisError,
                >(views(this.functions@)),
            decreases module.functions@.len() - i,
        {
            let handle = Handle::new(i);
            let fun = &module.functions[handle];
            let info = match this.process_function(fun, &module.global_variables) {
                Ok(info) => info,
                Err(error) => {
                    proof {
                        lemma_functions_failure(
                            module.functions@,
                            globals,
                            i + 1,
                            module.functions@.len() as int,
                        );
                    }
                    return Err(error);
                },
            };
            proof {
                assert(views(this.functions@.push(info)) =~= views(this.functions@).push(info@));
            }
            this.functions.push(info);
            i = i + 1;
        }
        let ghost functions = views(this.functions@);
        let mut k: usize = 0;
        assert(views(this.entry_points@) =~= Seq::<FunctionInfoView>::empty());
        while k < module.entry_points.len()
            invariant
                k <= module.entry_points@.len(),
                globals == module.global_variables@,
                module_valid(*module),
                functions == views(this.functions@),
                this.functions@.len() == module.functions@.len(),
                analyze_functions(
                    module.functions@,
                    globals,
                    module.functions@.len() as int,
                ) == Ok::<Seq<FunctionInfoView>, AnalysisError>(functions),
                analyze_entry_points(module.entry_points@, globals, functions, k as int) == Ok::<
                    Seq<FunctionInfoView>,
                    AnalysisError,
                >(views(this.entry_points@)),
            decreases module.entry_points@.len() - k,
        {
            let ep = &module.entry_points[k];
            let info = match this.process_function(&ep.function, &module.global_variables) {
                Ok(info) => info,
                Err(error) => {
                    proof {
                        lemma_entry_points_failure(
                            module.entry_points@,
                            globals,
                            functions,
                            k + 1,
                            module.entry_points@.len() as int,
                        );
                    }
                    return Err(error);
                },
            };
            proof {
                assert(views(this.entry_points@.push(info)) =~= views(this.entry_points@).push(
                    info@,
                ));
            }
            this.entry_points.push(info);
            k = k + 1;
        }
        proof {
            lemma_analysis_fits(*module);
        }
        Ok(this)
    }

    /// Returns what is known of the entry point at position `index`.
    pub fn get_entry_point(&self, index: usize) -> (info: &FunctionInfo)
        requires
            index < self@.entry_points.len(),
        ensures
            info@ == self@.entry_points[index as int],
    {
        &self.entry_points[index]
    }
}

impl Index<Handle<Function>> for Analysis {
    type Output = FunctionInfo;

    fn index(&self, handle: Handle<Function>) -> (info: &FunctionInfo)
        ensures
            info@ == self@.functions[handle.index as int],
    {
        &self.functions[handle.index()]
    }
}

impl vstd::std_specs::core::IndexSpecImpl<Handle<Function>> for Analysis {
    open spec fn index_req(&self, handle: &Handle<Function>) -> bool {
        handle.index < self@.functions.len()
    }
}

} // verus!
