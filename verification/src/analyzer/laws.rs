//! What holds of every analysis.

use crate::analyzer::block::{block_exits, block_terms, lemma_block_exits, lemma_block_walk};
use crate::analyzer::error::AnalysisError;
use crate::analyzer::expression::{
    expression_assignable, expression_sampling, expression_terms,
    lemma_process_expression_shape,
};
use crate::analyzer::info::{ExpressionInfo, FunctionInfoView};
use crate::analyzer::module::{
    analysis_result_is, analyze_entry_points, analyze_function, analyze_functions,
    analyze_module, expression_references, expression_valid, function_references,
    function_valid, lemma_expression_references_monotone, module_valid, Analysis, AnalysisView,
};
use crate::analyzer::terms::{
    calls, lemma_admits_wf, lemma_apply_terms_extends, lemma_apply_terms_named,
    lemma_apply_terms_shape, lemma_apply_terms_total, lemma_apply_terms_uniformity,
    lemma_extends_transitive, lemma_inherits_extended, lemma_named_count_out_of_range,
    lemma_terms_in_range_widen, lemma_terms_uniformity_agrees, lemma_total_references_update,
    lemma_total_references_zero, named_count, reference_count, terms_in_range,
    total_references, Term,
};
use crate::arena::Handle;
use crate::ir::{EntryPoint, Expression, Function, GlobalVariable, Module};
use vstd::prelude::*;

verus! {

/// The record from which the analysis of `fun` starts.
pub open spec fn blank_for(fun: Function, globals: Seq<GlobalVariable>) -> FunctionInfoView {
    FunctionInfoView::blank(globals.len(), fun.expressions@.len())
}

/// While the expressions of a valid function are analysed, the record
/// stays well formed and keeps its shape, and as long as the analysis has
/// not failed, there is room for the references that are still to come.
pub proof fn lemma_expressions_shape(
    fun: Function,
    globals: Seq<GlobalVariable>,
    functions: Seq<FunctionInfoView>,
    count: int,
)
    requires
        function_valid(fun, globals, functions.len()),
        0 <= count <= fun.expressions@.len(),
    ensures
        ({
            let outcome = blank_for(fun, globals).process_expressions(
                fun.expressions@,
                globals,
                functions,
                count,
            );
            &&& outcome.state.wf()
            &&& outcome.state.expressions.len() == fun.expressions@.len()
            &&& outcome.state.global_uses.len() == globals.len()
            &&& outcome.result is Ok ==> outcome.state.has_room(
                (function_references(fun, globals) - expression_references(
                    fun.expressions@,
                    globals,
                    count,
                )) as nat,
            )
        }),
        expression_references(fun.expressions@, globals, count) <= function_references(
            fun,
            globals,
        ),
    decreases count,
{
    let arena = fun.expressions@;
    assert(arena.len() == fun.expressions.data.len());
    lemma_expression_references_monotone(arena, globals, count, arena.len() as int);
    if count > 0 {
        lemma_expressions_shape(fun, globals, functions, count - 1);
        let before = blank_for(fun, globals).process_expressions(
            arena,
            globals,
            functions,
            count - 1,
        );
        if before.result is Ok {
            lemma_expression_accepted(fun, globals, functions, count);
            lemma_process_expression_shape(
                before.state,
                Handle::at(count - 1),
                arena,
                globals,
                functions,
            );
            lemma_handle_at::<Expression>(count - 1, arena.len());
            let after = before.state.process_expression(
                Handle::at(count - 1),
                arena,
                globals,
                functions,
            ).state;
            let room = (function_references(fun, globals) - expression_references(
                arena,
                globals,
                count,
            )) as nat;
            assert forall|i: int| 0 <= i < after.expressions.len() implies (
            #[trigger] after.expressions[i]).ref_count + room <= usize::MAX by {
                assert(before.state.expressions[i].ref_count + (function_references(fun, globals)
                    - expression_references(arena, globals, count - 1)) <= usize::MAX);
            }
        }
    }
}

/// The handle of a position in a vector holds that position.
pub proof fn lemma_handle_at<T>(index: int, len: nat)
    requires
        0 <= index < len,
        len <= usize::MAX,
    ensures
        Handle::<T>::at(index).index == index,
{
}

/// As long as the analysis of the expressions of a valid function has not
/// failed, the record is ready for the next expression.
pub proof fn lemma_expression_accepted(
    fun: Function,
    globals: Seq<GlobalVariable>,
    functions: Seq<FunctionInfoView>,
    count: int,
)
    requires
        function_valid(fun, globals, functions.len()),
        0 < count <= fun.expressions@.len(),
        blank_for(fun, globals).process_expressions(
            fun.expressions@,
            globals,
            functions,
            count - 1,
        ).result is Ok,
    ensures
        blank_for(fun, globals).process_expressions(
            fun.expressions@,
            globals,
            functions,
            count - 1,
        ).state.accepts_expression(Handle::at(count - 1), fun.expressions@, globals, functions),
    decreases count, 0nat,
{
    let arena = fun.expressions@;
    assert(arena.len() == fun.expressions.data.len());
    lemma_handle_at::<Expression>(count - 1, arena.len());
    lemma_expressions_shape(fun, globals, functions, count - 1);
    lemma_expression_references_monotone(arena, globals, count, arena.len() as int);
    let before = blank_for(fun, globals).process_expressions(arena, globals, functions, count - 1);
    let terms = expression_terms(Handle::at(count - 1), arena[count - 1], globals);
    assert(expression_valid(count - 1, arena[count - 1], globals, functions.len()));
    lemma_terms_in_range_widen(
        terms,
        (count - 1) as nat,
        functions.len(),
        arena.len(),
        functions.len(),
    );
    assert(before.state.admits(terms, functions)) by {
        reveal(FunctionInfoView::admits);
    }
}

/// After the expressions of a valid function were analysed with success,
/// the record admits the terms of the body.
pub proof fn lemma_body_admitted(
    fun: Function,
    globals: Seq<GlobalVariable>,
    functions: Seq<FunctionInfoView>,
)
    requires
        function_valid(fun, globals, functions.len()),
        blank_for(fun, globals).process_expressions(
            fun.expressions@,
            globals,
            functions,
            fun.expressions@.len() as int,
        ).result is Ok,
    ensures
        blank_for(fun, globals).process_expressions(
            fun.expressions@,
            globals,
            functions,
            fun.expressions@.len() as int,
        ).state.admits(block_terms(fun.body@), functions),
{
    lemma_expressions_shape(fun, globals, functions, fun.expressions@.len() as int);
    reveal(FunctionInfoView::admits);
}

/// The record of a valid function that was analysed with success is well
/// formed, and has a place for each expression of the function and for
/// each global variable of the module.
pub proof fn lemma_function_shape(
    fun: Function,
    globals: Seq<GlobalVariable>,
    functions: Seq<FunctionInfoView>,
)
    requires
        function_valid(fun, globals, functions.len()),
        analyze_function(fun, globals, functions) is Ok,
    ensures
        ({
            let info = analyze_function(fun, globals, functions)->Ok_0;
            &&& info.wf()
            &&& info.expressions.len() == fun.expressions@.len()
            &&& info.global_uses.len() == globals.len()
        }),
{
    let analysed = blank_for(fun, globals).process_expressions(
        fun.expressions@,
        globals,
        functions,
        fun.expressions@.len() as int,
    );
    lemma_expressions_shape(fun, globals, functions, fun.expressions@.len() as int);
    lemma_body_admitted(fun, globals, functions);
    lemma_block_walk(analysed.state, fun.body@, functions, None);
}

/// In a successful analysis of the first `count` functions of a module,
/// there is a record for each of them, and the record of each is the
/// analysis of that function with the records of those before it.
pub proof fn lemma_functions_unfold(
    functions: Seq<Function>,
    globals: Seq<GlobalVariable>,
    count: int,
    position: int,
)
    requires
        analyze_functions(functions, globals, count) is Ok,
        0 <= position < count,
    ensures
        ({
            let infos = analyze_functions(functions, globals, count)->Ok_0;
            &&& infos.len() == count
            &&& analyze_function(functions[position], globals, infos.take(position)) == Ok::<
                FunctionInfoView,
                AnalysisError,
            >(infos[position])
        }),
    decreases count,
{
    let infos = analyze_functions(functions, globals, count)->Ok_0;
    let before = analyze_functions(functions, globals, count - 1)->Ok_0;
    lemma_functions_count(functions, globals, count - 1);
    if position == count - 1 {
        assert(infos.take(position) =~= before);
    } else {
        lemma_functions_unfold(functions, globals, count - 1, position);
        assert(infos.take(position) =~= before.take(position));
    }
}

/// A successful analysis of the first `count` functions of a module holds
/// `count` records.
pub proof fn lemma_functions_count(functions: Seq<Function>, globals: Seq<GlobalVariable>, count: int)
    requires
        analyze_functions(functions, globals, count) is Ok,
        0 <= count,
    ensures
        analyze_functions(functions, globals, count)->Ok_0.len() == count,
    decreases count,
{
    if count > 0 {
        lemma_functions_count(functions, globals, count - 1);
    }
}

/// In a successful analysis of the first `count` entry points of a
/// module, there is a record for each of them, and the record of each is
/// the analysis of its function with the records of all the functions.
pub proof fn lemma_entry_points_unfold(
    entry_points: Seq<EntryPoint>,
    globals: Seq<GlobalVariable>,
    functions: Seq<FunctionInfoView>,
    count: int,
    position: int,
)
    requires
        analyze_entry_points(entry_points, globals, functions, count) is Ok,
        0 <= position < count,
    ensures
        ({
            let infos = analyze_entry_points(entry_points, globals, functions, count)->Ok_0;
            &&& infos.len() == count
            &&& analyze_function(entry_points[position].function, globals, functions) == Ok::<
                FunctionInfoView,
                AnalysisError,
            >(infos[position])
        }),
    decreases count,
{
    lemma_entry_points_count(entry_points, globals, functions, count - 1);
    if position < count - 1 {
        lemma_entry_points_unfold(entry_points, globals, functions, count - 1, position);
    }
}

/// A successful analysis of the first `count` entry points of a module
/// holds `count` records.
pub proof fn lemma_entry_points_count(
    entry_points: Seq<EntryPoint>,
    globals: Seq<GlobalVariable>,
    functions: Seq<FunctionInfoView>,
    count: int,
)
    requires
        analyze_entry_points(entry_points, globals, functions, count) is Ok,
        0 <= count,
    ensures
        analyze_entry_points(entry_points, globals, functions, count)->Ok_0.len() == count,
    decreases count,
{
    if count > 0 {
        lemma_entry_points_count(entry_points, globals, functions, count - 1);
    }
}

/// Whether a record has a place for each expression of `fun` and for each
/// of the global variables `globals`, and is well formed.
pub open spec fn info_fits(info: FunctionInfoView, fun: Function, globals: Seq<GlobalVariable>)
    -> bool {
    &&& info.wf()
    &&& info.expressions.len() == fun.expressions@.len()
    &&& info.global_uses.len() == globals.len()
}

/// Whether an analysis holds one record for each function and each entry
/// point of `module`, each with a place for each expression of its
/// function and for each global variable of the module.
pub open spec fn analysis_fits(analysis: AnalysisView, module: Module) -> bool {
    &&& analysis.functions.len() == module.functions@.len()
    &&& analysis.entry_points.len() == module.entry_points@.len()
    &&& forall|i: int|
        0 <= i < analysis.functions.len() ==> info_fits(
            #[trigger] analysis.functions[i],
            module.functions@[i],
            module.global_variables@,
        )
    &&& forall|i: int|
        0 <= i < analysis.entry_points.len() ==> info_fits(
            #[trigger] analysis.entry_points[i],
            module.entry_points@[i].function,
            module.global_variables@,
        )
}

/// A successful analysis of a valid module holds one record for each
/// function and each entry point, and each record has as many expression
/// infos as its function has expressions, and as many use masks as the
/// module has global variables.
pub proof fn lemma_analysis_fits(module: Module)
    requires
        module_valid(module),
        analyze_module(module) is Ok,
    ensures
        analysis_fits(analyze_module(module)->Ok_0, module),
{
    let globals = module.global_variables@;
    let analysis = analyze_module(module)->Ok_0;
    let function_count = module.functions@.len() as int;
    let entry_point_count = module.entry_points@.len() as int;
    lemma_functions_count(module.functions@, globals, function_count);
    lemma_entry_points_count(module.entry_points@, globals, analysis.functions, entry_point_count);
    assert forall|i: int| 0 <= i < analysis.functions.len() implies info_fits(
        #[trigger] analysis.functions[i],
        module.functions@[i],
        globals,
    ) by {
        lemma_functions_unfold(module.functions@, globals, function_count, i);
        lemma_function_shape(module.functions@[i], globals, analysis.functions.take(i));
    }
    assert forall|i: int| 0 <= i < analysis.entry_points.len() implies info_fits(
        #[trigger] analysis.entry_points[i],
        module.entry_points@[i].function,
        globals,
    ) by {
        lemma_entry_points_unfold(
            module.entry_points@,
            globals,
            analysis.functions,
            entry_point_count,
            i,
        );
        lemma_function_shape(module.entry_points@[i].function, globals, analysis.functions);
    }
}

/// Two runs of the analysis on one module agree: both succeed with
/// analyses of the same content, or both fail with the same error (up to
/// the identity of the vector that holds the components of a composite
/// expression).
pub proof fn lemma_analysis_deterministic(
    module: Module,
    first: Result<Analysis, AnalysisError>,
    second: Result<Analysis, AnalysisError>,
)
    requires
        analysis_result_is(analyze_module(module), first),
        analysis_result_is(analyze_module(module), second),
    ensures
        match (first, second) {
            (Ok(a), Ok(b)) => a@ == b@,
            (Err(a), Err(b)) => a.same_as(b),
            _ => false,
        },
{
}

/// Whether an expression or a statement of `fun` calls `function`.
pub open spec fn function_calls(
    fun: Function,
    globals: Seq<GlobalVariable>,
    function: Handle<Function>,
) -> bool {
    ||| calls(block_terms(fun.body@), function)
    ||| exists|i: int|
        0 <= i < fun.expressions@.len() && calls(
            expression_terms(Handle::at(i), #[trigger] fun.expressions@[i], globals),
            function,
        )
}

/// The analysis of an expression only adds to the uses of global
/// variables and to the image/sampler pairs; where it succeeds, the
/// record has taken over what each function that the expression calls
/// does.
pub proof fn lemma_process_expression_extends(
    state: FunctionInfoView,
    handle: Handle<Expression>,
    arena: Seq<Expression>,
    globals: Seq<GlobalVariable>,
    functions: Seq<FunctionInfoView>,
)
    requires
        state.accepts_expression(handle, arena, globals, functions),
    ensures
        ({
            let outcome = state.process_expression(handle, arena, globals, functions);
            &&& outcome.state.extends(state)
            &&& outcome.result is Ok ==> forall|function: Handle<Function>|
                calls(expression_terms(handle, arena[handle.index as int], globals), function)
                    ==> outcome.state.inherits(#[trigger] functions[function.index as int])
        }),
{
    let expr = arena[handle.index as int];
    let terms = expression_terms(handle, expr, globals);
    lemma_admits_wf(state, terms, functions);
    match expression_sampling(arena, expr) {
        Err(_) => {},
        Ok(key) => {
            let sampled = state.sample(key);
            assert(sampled.admits(terms, functions)) by {
                reveal(FunctionInfoView::admits);
            }
            lemma_apply_terms_extends(sampled, terms, functions);
            let applied = sampled.apply_terms(terms, functions).state;
            let after = state.process_expression(handle, arena, globals, functions).state;
            assert(sampled.extends(state));
            lemma_extends_transitive(applied, sampled, state);
            assert(after.extends(applied));
            lemma_extends_transitive(after, applied, state);
            assert forall|function: Handle<Function>| calls(terms, function) implies after.inherits(
                #[trigger] functions[function.index as int],
            ) by {
                lemma_inherits_extended(after, applied, functions[function.index as int]);
            }
        },
    }
}

/// Where the analysis of the first `count` expressions of a valid
/// function succeeds, the record has taken over what each function that
/// one of those expressions calls does.
pub proof fn lemma_expressions_inherit(
    fun: Function,
    globals: Seq<GlobalVariable>,
    functions: Seq<FunctionInfoView>,
    count: int,
    position: int,
    function: Handle<Function>,
)
    requires
        function_valid(fun, globals, functions.len()),
        0 <= position < count <= fun.expressions@.len(),
        blank_for(fun, globals).process_expressions(
            fun.expressions@,
            globals,
            functions,
            count,
        ).result is Ok,
        calls(
            expression_terms(Handle::at(position), fun.expressions@[position], globals),
            function,
        ),
    ensures
        blank_for(fun, globals).process_expressions(
            fun.expressions@,
            globals,
            functions,
            count,
        ).state.inherits(functions[function.index as int]),
    decreases count,
{
    let arena = fun.expressions@;
    assert(arena.len() == fun.expressions.data.len());
    let before = blank_for(fun, globals).process_expressions(arena, globals, functions, count - 1);
    let after = blank_for(fun, globals).process_expressions(arena, globals, functions, count);
    lemma_expression_accepted(fun, globals, functions, count);
    lemma_process_expression_extends(
        before.state,
        Handle::at(count - 1),
        arena,
        globals,
        functions,
    );
    lemma_handle_at::<Expression>(count - 1, arena.len());
    if position < count - 1 {
        lemma_expressions_inherit(fun, globals, functions, count - 1, position, function);
        lemma_inherits_extended(after.state, before.state, functions[function.index as int]);
    }
}

/// The record of a valid function that was analysed with success has
/// taken over what each function that it calls does: it uses every global
/// variable at least as the called function does, and samples with every
/// image/sampler pair that the called function samples with.
pub proof fn lemma_callee_inherited(
    fun: Function,
    globals: Seq<GlobalVariable>,
    functions: Seq<FunctionInfoView>,
    function: Handle<Function>,
)
    requires
        function_valid(fun, globals, functions.len()),
        analyze_function(fun, globals, functions) is Ok,
        function_calls(fun, globals, function),
    ensures
        analyze_function(fun, globals, functions)->Ok_0.inherits(
            functions[function.index as int],
        ),
{
    let arena = fun.expressions@;
    let count = arena.len() as int;
    let analysed = blank_for(fun, globals).process_expressions(arena, globals, functions, count);
    let info = analyze_function(fun, globals, functions)->Ok_0;
    let callee = functions[function.index as int];
    lemma_body_admitted(fun, globals, functions);
    lemma_block_walk(analysed.state, fun.body@, functions, None);
    lemma_apply_terms_extends(analysed.state, block_terms(fun.body@), functions);
    let walked = analysed.state.process_block(fun.body@, functions, None).state;
    assert(info.extends(walked));
    if calls(block_terms(fun.body@), function) {
        lemma_inherits_extended(info, walked, callee);
    } else {
        let position = choose|i: int|
            0 <= i < arena.len() && calls(
                expression_terms(Handle::at(i), #[trigger] arena[i], globals),
                function,
            );
        lemma_expressions_inherit(fun, globals, functions, count, position, function);
        lemma_inherits_extended(walked, analysed.state, callee);
        lemma_inherits_extended(info, walked, callee);
    }
}

/// Terms that name only functions among the first `function_count` call
/// only those.
pub proof fn lemma_called_in_range(
    terms: Seq<Term>,
    expression_count: nat,
    function_count: nat,
    function: Handle<Function>,
)
    requires
        terms_in_range(terms, expression_count, function_count),
        calls(terms, function),
    ensures
        function.index < function_count,
{
    let i = choose|i: int| 0 <= i < terms.len() && #[trigger] terms[i] == Term::Call(function);
    assert(terms[i].in_range(expression_count, function_count));
}

/// A function of a valid function calls only functions among those that
/// were analysed before it.
pub proof fn lemma_callee_in_range(
    fun: Function,
    globals: Seq<GlobalVariable>,
    function_count: nat,
    function: Handle<Function>,
)
    requires
        function_valid(fun, globals, function_count),
        function_calls(fun, globals, function),
    ensures
        function.index < function_count,
{
    if calls(block_terms(fun.body@), function) {
        lemma_called_in_range(
            block_terms(fun.body@),
            fun.expressions@.len(),
            function_count,
            function,
        );
    } else {
        let position = choose|i: int|
            0 <= i < fun.expressions@.len() && calls(
                expression_terms(Handle::at(i), #[trigger] fun.expressions@[i], globals),
                function,
            );
        assert(expression_valid(position, fun.expressions@[position], globals, function_count));
        lemma_called_in_range(
            expression_terms(Handle::at(position), fun.expressions@[position], globals),
            position as nat,
            function_count,
            function,
        );
    }
}

/// In a successful analysis of a valid module, the record of each
/// function has taken over what each function that it calls does: for
/// every global variable, the uses by the caller include those by the
/// called function, and the image/sampler pairs of the caller include
/// those of the called function.
pub proof fn lemma_function_inherits_callee(module: Module, caller: int, callee: Handle<Function>)
    requires
        module_valid(module),
        analyze_module(module) is Ok,
        0 <= caller < module.functions@.len(),
        function_calls(module.functions@[caller], module.global_variables@, callee),
    ensures
        callee.index < caller,
        analyze_module(module)->Ok_0.functions[caller].inherits(
            analyze_module(module)->Ok_0.functions[callee.index as int],
        ),
{
    let globals = module.global_variables@;
    let analysis = analyze_module(module)->Ok_0;
    let fun = module.functions@[caller];
    lemma_functions_unfold(module.functions@, globals, module.functions@.len() as int, caller);
    lemma_callee_in_range(fun, globals, caller as nat, callee);
    lemma_callee_inherited(fun, globals, analysis.functions.take(caller), callee);
}

/// In a successful analysis of a valid module, the record of each entry
/// point has taken over what each function that it calls does.
pub proof fn lemma_entry_point_inherits_callee(
    module: Module,
    entry_point: int,
    callee: Handle<Function>,
)
    requires
        module_valid(module),
        analyze_module(module) is Ok,
        0 <= entry_point < module.entry_points@.len(),
        function_calls(module.entry_points@[entry_point].function, module.global_variables@, callee),
    ensures
        callee.index < module.functions@.len(),
        analyze_module(module)->Ok_0.entry_points[entry_point].inherits(
            analyze_module(module)->Ok_0.functions[callee.index as int],
        ),
{
    let globals = module.global_variables@;
    let analysis = analyze_module(module)->Ok_0;
    let fun = module.entry_points@[entry_point].function;
    lemma_functions_count(module.functions@, globals, module.functions@.len() as int);
    lemma_entry_points_unfold(
        module.entry_points@,
        globals,
        analysis.functions,
        module.entry_points@.len() as int,
        entry_point,
    );
    lemma_callee_in_range(fun, globals, module.functions@.len(), callee);
    lemma_callee_inherited(fun, globals, analysis.functions, callee);
}

/// The analysis of an expression whose operands stand before it leaves
/// what is known of the expressions after it as it is, and of those
/// before it, it changes the reference counts only. Where the expression
/// had no reference before, the sum of the reference counts grows by the
/// number of references among its terms.
pub proof fn lemma_process_expression_effect(
    state: FunctionInfoView,
    handle: Handle<Expression>,
    arena: Seq<Expression>,
    globals: Seq<GlobalVariable>,
    functions: Seq<FunctionInfoView>,
)
    requires
        state.accepts_expression(handle, arena, globals, functions),
        terms_in_range(
            expression_terms(handle, arena[handle.index as int], globals),
            handle.index as nat,
            functions.len(),
        ),
        state.process_expression(handle, arena, globals, functions).result is Ok,
    ensures
        ({
            let after = state.process_expression(handle, arena, globals, functions).state;
            &&& after.expressions.len() == state.expressions.len()
            &&& after.expressions[handle.index as int].assignable_global == expression_assignable(
                state,
                arena[handle.index as int],
            )
            &&& forall|i: int|
                0 <= i < state.expressions.len() && i != handle.index ==> {
                    &&& (#[trigger] after.expressions[i]).assignable_global
                        == state.expressions[i].assignable_global
                    &&& after.expressions[i].uniformity == state.expressions[i].uniformity
                }
            &&& forall|i: int|
                handle.index < i < state.expressions.len() ==> #[trigger] after.expressions[i]
                    == state.expressions[i]
            &&& state.expressions[handle.index as int].ref_count == 0 ==> total_references(
                after.expressions,
            ) == total_references(state.expressions) + reference_count(
                expression_terms(handle, arena[handle.index as int], globals),
            )
        }),
{
    let expr = arena[handle.index as int];
    let terms = expression_terms(handle, expr, globals);
    let key = expression_sampling(arena, expr)->Ok_0;
    let sampled = state.sample(key);
    lemma_admits_wf(state, terms, functions);
    assert(sampled.admits(terms, functions)) by {
        reveal(FunctionInfoView::admits);
    }
    lemma_apply_terms_shape(sampled, terms, functions);
    lemma_apply_terms_total(sampled, terms, functions, handle.index as nat);
    let applied = sampled.apply_terms(terms, functions);
    let info = ExpressionInfo {
        uniformity: applied.uniformity,
        ref_count: 0,
        assignable_global: expression_assignable(state, expr),
    };
    lemma_total_references_update(applied.state.expressions, handle.index as int, info);
    assert(applied.state.expressions[handle.index as int] == state.expressions[handle.index as int]);
}

/// Where the analysis of the first `count` expressions of a valid
/// function succeeds, the sum of the reference counts is the number of
/// references that those expressions make, and nothing is known yet of
/// the other expressions.
pub proof fn lemma_expressions_references(
    fun: Function,
    globals: Seq<GlobalVariable>,
    functions: Seq<FunctionInfoView>,
    count: int,
)
    requires
        function_valid(fun, globals, functions.len()),
        0 <= count <= fun.expressions@.len(),
        blank_for(fun, globals).process_expressions(
            fun.expressions@,
            globals,
            functions,
            count,
        ).result is Ok,
    ensures
        ({
            let state = blank_for(fun, globals).process_expressions(
                fun.expressions@,
                globals,
                functions,
                count,
            ).state;
            &&& state.expressions.len() == fun.expressions@.len()
            &&& total_references(state.expressions) == expression_references(
                fun.expressions@,
                globals,
                count,
            )
            &&& forall|i: int|
                count <= i < fun.expressions@.len() ==> #[trigger] state.expressions[i]
                    == ExpressionInfo::blank()
        }),
    decreases count,
{
    let arena = fun.expressions@;
    assert(arena.len() == fun.expressions.data.len());
    if count == 0 {
        lemma_total_references_zero(blank_for(fun, globals).expressions);
    } else {
        let before = blank_for(fun, globals).process_expressions(
            arena,
            globals,
            functions,
            count - 1,
        );
        lemma_expressions_references(fun, globals, functions, count - 1);
        lemma_expression_accepted(fun, globals, functions, count);
        lemma_handle_at::<Expression>(count - 1, arena.len());
        assert(expression_valid(count - 1, arena[count - 1], globals, functions.len()));
        lemma_process_expression_effect(
            before.state,
            Handle::at(count - 1),
            arena,
            globals,
            functions,
        );
    }
}

/// In the record of a valid function that was analysed with success, the
/// sum of the reference counts of the expressions is the number of
/// operand positions, in the expressions and in the statements of the
/// function, that refer to an expression.
pub proof fn lemma_reference_conservation(
    fun: Function,
    globals: Seq<GlobalVariable>,
    functions: Seq<FunctionInfoView>,
)
    requires
        function_valid(fun, globals, functions.len()),
        analyze_function(fun, globals, functions) is Ok,
    ensures
        total_references(analyze_function(fun, globals, functions)->Ok_0.expressions)
            == function_references(fun, globals),
{
    let arena = fun.expressions@;
    let count = arena.len() as int;
    let analysed = blank_for(fun, globals).process_expressions(arena, globals, functions, count);
    lemma_expressions_references(fun, globals, functions, count);
    lemma_body_admitted(fun, globals, functions);
    lemma_block_walk(analysed.state, fun.body@, functions, None);
    lemma_admits_wf(analysed.state, block_terms(fun.body@), functions);
    lemma_apply_terms_total(analysed.state, block_terms(fun.body@), functions, arena.len());
}

/// Where the analysis of the first `count` expressions of a valid
/// function succeeds, the global variable that is recorded for each of
/// them is the one that the expression reaches.
pub proof fn lemma_expressions_assignable(
    fun: Function,
    globals: Seq<GlobalVariable>,
    functions: Seq<FunctionInfoView>,
    count: int,
    position: int,
)
    requires
        function_valid(fun, globals, functions.len()),
        0 <= position < count <= fun.expressions@.len(),
        blank_for(fun, globals).process_expressions(
            fun.expressions@,
            globals,
            functions,
            count,
        ).result is Ok,
    ensures
        ({
            let state = blank_for(fun, globals).process_expressions(
                fun.expressions@,
                globals,
                functions,
                count,
            ).state;
            state.expressions[position].assignable_global == expression_assignable(
                state,
                fun.expressions@[position],
            )
        }),
    decreases count,
{
    let arena = fun.expressions@;
    assert(arena.len() == fun.expressions.data.len());
    let before = blank_for(fun, globals).process_expressions(arena, globals, functions, count - 1);
    lemma_expression_accepted(fun, globals, functions, count);
    lemma_handle_at::<Expression>(count - 1, arena.len());
    assert(expression_valid(count - 1, arena[count - 1], globals, functions.len()));
    lemma_process_expression_effect(before.state, Handle::at(count - 1), arena, globals, functions);
    if position < count - 1 {
        lemma_expressions_assignable(fun, globals, functions, count - 1, position);
    }
    lemma_base_precedes(position, arena[position], globals, functions.len());
}

/// The base of a valid access stands before the access.
pub proof fn lemma_base_precedes(
    index: int,
    expr: Expression,
    globals: Seq<GlobalVariable>,
    function_count: nat,
)
    requires
        0 <= index,
        expression_valid(index, expr, globals, function_count),
    ensures
        match expr {
            Expression::Access { base, .. } => base.index < index,
            Expression::AccessIndex { base, .. } => base.index < index,
            _ => true,
        },
{
    let terms = expression_terms(Handle::at(index), expr, globals);
    match expr {
        Expression::Access { base, .. } => {
            assert(terms[0] == Term::Base(base));
        },
        Expression::AccessIndex { base, .. } => {
            assert(terms[0] == Term::Base(base));
        },
        _ => {},
    }
}

/// In the record of a valid function that was analysed with success, the
/// global variable that is recorded for an expression is: the variable
/// itself, for an expression that names one; what is recorded for the
/// base, for an access; and none for every other expression.
pub proof fn lemma_assignable_global(
    fun: Function,
    globals: Seq<GlobalVariable>,
    functions: Seq<FunctionInfoView>,
    position: int,
)
    requires
        function_valid(fun, globals, functions.len()),
        analyze_function(fun, globals, functions) is Ok,
        0 <= position < fun.expressions@.len(),
    ensures
        ({
            let info = analyze_function(fun, globals, functions)->Ok_0;
            info.expressions[position].assignable_global == match fun.expressions@[position] {
                Expression::GlobalVariable(global) => Some(global),
                Expression::Access { base, .. } => info.expressions[base.index
                    as int].assignable_global,
                Expression::AccessIndex { base, .. } => info.expressions[base.index
                    as int].assignable_global,
                _ => None,
            }
        }),
{
    let arena = fun.expressions@;
    let count = arena.len() as int;
    let analysed = blank_for(fun, globals).process_expressions(arena, globals, functions, count);
    lemma_expressions_shape(fun, globals, functions, count);
    lemma_expressions_assignable(fun, globals, functions, count, position);
    lemma_body_admitted(fun, globals, functions);
    lemma_block_walk(analysed.state, fun.body@, functions, None);
    lemma_apply_terms_shape(analysed.state, block_terms(fun.body@), functions);
    lemma_base_precedes(position, arena[position], globals, functions.len());
}

/// The number of references that the first `count` expressions of `arena`
/// make to the expression at `index`.
pub open spec fn expression_named(
    arena: Seq<Expression>,
    globals: Seq<GlobalVariable>,
    count: int,
    index: int,
) -> nat
    decreases count,
{
    if count <= 0 {
        0
    } else {
        expression_named(arena, globals, count - 1, index) + named_count(
            expression_terms(Handle::at(count - 1), arena[count - 1], globals),
            index,
        )
    }
}

/// Where the analysis of an expression succeeds, the uniformity that is
/// recorded for it is the join of the uniformities of its terms, and the
/// reference count of every other expression has grown by the number of
/// references to it among those terms.
pub proof fn lemma_process_expression_counts(
    state: FunctionInfoView,
    handle: Handle<Expression>,
    arena: Seq<Expression>,
    globals: Seq<GlobalVariable>,
    functions: Seq<FunctionInfoView>,
    index: int,
)
    requires
        state.accepts_expression(handle, arena, globals, functions),
        state.process_expression(handle, arena, globals, functions).result is Ok,
        0 <= index < state.expressions.len(),
    ensures
        ({
            let after = state.process_expression(handle, arena, globals, functions).state;
            let terms = expression_terms(handle, arena[handle.index as int], globals);
            &&& after.expressions[handle.index as int].uniformity == state.terms_uniformity(
                terms,
                functions,
            )
            &&& after.expressions[handle.index as int].ref_count == 0
            &&& index != handle.index ==> after.expressions[index].ref_count
                == state.expressions[index].ref_count + named_count(terms, index)
        }),
{
    let expr = arena[handle.index as int];
    let terms = expression_terms(handle, expr, globals);
    let key = expression_sampling(arena, expr)->Ok_0;
    let sampled = state.sample(key);
    lemma_admits_wf(state, terms, functions);
    assert(sampled.admits(terms, functions)) by {
        reveal(FunctionInfoView::admits);
    }
    lemma_apply_terms_shape(sampled, terms, functions);
    lemma_apply_terms_named(sampled, terms, functions, index);
    lemma_apply_terms_uniformity(sampled, terms, functions);
    lemma_terms_uniformity_agrees(sampled, state, terms, functions, state.expressions.len());
}

/// Where the analysis of the first `count` expressions of a valid
/// function succeeds, the reference count of each expression is the
/// number of references that those expressions make to it, and the
/// uniformity of each of those expressions is the join of the
/// uniformities of its terms.
pub proof fn lemma_expressions_counts(
    fun: Function,
    globals: Seq<GlobalVariable>,
    functions: Seq<FunctionInfoView>,
    count: int,
    index: int,
)
    requires
        function_valid(fun, globals, functions.len()),
        0 <= count <= fun.expressions@.len(),
        0 <= index < fun.expressions@.len(),
        blank_for(fun, globals).process_expressions(
            fun.expressions@,
            globals,
            functions,
            count,
        ).result is Ok,
    ensures
        ({
            let state = blank_for(fun, globals).process_expressions(
                fun.expressions@,
                globals,
                functions,
                count,
            ).state;
            &&& state.expressions[index].ref_count == expression_named(
                fun.expressions@,
                globals,
                count,
                index,
            )
            &&& index < count ==> state.expressions[index].uniformity == state.terms_uniformity(
                expression_terms(Handle::at(index), fun.expressions@[index], globals),
                functions,
            )
        }),
    decreases count,
{
    let arena = fun.expressions@;
    assert(arena.len() == fun.expressions.data.len());
    if count > 0 {
        let handle = Handle::<Expression>::at(count - 1);
        let before = blank_for(fun, globals).process_expressions(
            arena,
            globals,
            functions,
            count - 1,
        );
        let after = before.state.process_expression(handle, arena, globals, functions).state;
        let terms = expression_terms(handle, arena[count - 1], globals);
        lemma_expressions_shape(fun, globals, functions, count - 1);
        lemma_expressions_counts(fun, globals, functions, count - 1, index);
        lemma_expression_accepted(fun, globals, functions, count);
        lemma_handle_at::<Expression>(count - 1, arena.len());
        assert(expression_valid(count - 1, arena[count - 1], globals, functions.len()));
        lemma_process_expression_counts(before.state, handle, arena, globals, functions, index);
        lemma_process_expression_effect(before.state, handle, arena, globals, functions);
        if index == count - 1 {
            lemma_expression_named_later(fun, globals, functions.len(), count, index);
            lemma_terms_uniformity_agrees(
                before.state,
                after,
                terms,
                functions,
                (count - 1) as nat,
            );
        } else if index < count - 1 {
            let own = expression_terms(Handle::at(index), arena[index], globals);
            assert(expression_valid(index, arena[index], globals, functions.len()));
            lemma_terms_uniformity_agrees(before.state, after, own, functions, index as nat);
        }
    }
}

/// The expressions of a valid function up to the one at `index`, that one
/// included, make no reference to it.
pub proof fn lemma_expression_named_later(
    fun: Function,
    globals: Seq<GlobalVariable>,
    function_count: nat,
    count: int,
    index: int,
)
    requires
        function_valid(fun, globals, function_count),
        0 <= count <= index + 1 <= fun.expressions@.len(),
    ensures
        expression_named(fun.expressions@, globals, count, index) == 0,
    decreases count,
{
    if count > 0 {
        lemma_expression_named_later(fun, globals, function_count, count - 1, index);
        assert(expression_valid(count - 1, fun.expressions@[count - 1], globals, function_count));
        lemma_named_count_out_of_range(
            expression_terms(Handle::at(count - 1), fun.expressions@[count - 1], globals),
            (count - 1) as nat,
            function_count,
            index,
        );
    }
}

/// In the record of a valid function that was analysed with success, the
/// reference count of each expression is the number of operand positions,
/// in the expressions and in the statements of the function, that name
/// it.
pub proof fn lemma_reference_count(
    fun: Function,
    globals: Seq<GlobalVariable>,
    functions: Seq<FunctionInfoView>,
    index: int,
)
    requires
        function_valid(fun, globals, functions.len()),
        analyze_function(fun, globals, functions) is Ok,
        0 <= index < fun.expressions@.len(),
    ensures
        analyze_function(fun, globals, functions)->Ok_0.expressions[index].ref_count
            == expression_named(fun.expressions@, globals, fun.expressions@.len() as int, index)
            + named_count(block_terms(fun.body@), index),
{
    let arena = fun.expressions@;
    let count = arena.len() as int;
    let analysed = blank_for(fun, globals).process_expressions(arena, globals, functions, count);
    lemma_expressions_shape(fun, globals, functions, count);
    lemma_expressions_counts(fun, globals, functions, count, index);
    lemma_body_admitted(fun, globals, functions);
    lemma_block_walk(analysed.state, fun.body@, functions, None);
    lemma_apply_terms_named(analysed.state, block_terms(fun.body@), functions, index);
}

/// In the record of a valid function that was analysed with success, the
/// uniformity of each expression is the join, from left to right, of the
/// uniformities of its terms: of what the expression itself contributes,
/// of its operands as they are recorded, and of the functions that it
/// calls.
pub proof fn lemma_expression_uniformity(
    fun: Function,
    globals: Seq<GlobalVariable>,
    functions: Seq<FunctionInfoView>,
    index: int,
)
    requires
        function_valid(fun, globals, functions.len()),
        analyze_function(fun, globals, functions) is Ok,
        0 <= index < fun.expressions@.len(),
    ensures
        ({
            let info = analyze_function(fun, globals, functions)->Ok_0;
            info.expressions[index].uniformity == info.terms_uniformity(
                expression_terms(Handle::at(index), fun.expressions@[index], globals),
                functions,
            )
        }),
{
    let arena = fun.expressions@;
    let count = arena.len() as int;
    let analysed = blank_for(fun, globals).process_expressions(arena, globals, functions, count);
    let info = analyze_function(fun, globals, functions)->Ok_0;
    let terms = expression_terms(Handle::at(index), arena[index], globals);
    lemma_expressions_shape(fun, globals, functions, count);
    lemma_expressions_counts(fun, globals, functions, count, index);
    lemma_body_admitted(fun, globals, functions);
    lemma_block_walk(analysed.state, fun.body@, functions, None);
    lemma_apply_terms_shape(analysed.state, block_terms(fun.body@), functions);
    assert(expression_valid(index, arena[index], globals, functions.len()));
    lemma_terms_uniformity_agrees(analysed.state, info, terms, functions, index as nat);
}

/// A function that was analysed with success may kill if and only if a
/// statement of its body, at any depth, is a kill or a call of a function
/// that may kill.
pub proof fn lemma_may_kill(
    fun: Function,
    globals: Seq<GlobalVariable>,
    functions: Seq<FunctionInfoView>,
)
    requires
        analyze_function(fun, globals, functions) is Ok,
    ensures
        analyze_function(fun, globals, functions)->Ok_0.may_kill == block_exits(
            fun.body@,
            functions,
        ).may_kill,
{
    let analysed = blank_for(fun, globals).process_expressions(
        fun.expressions@,
        globals,
        functions,
        fun.expressions@.len() as int,
    );
    lemma_block_exits(analysed.state, fun.body@, functions, None);
}

/// The functions of a valid module are valid for the records of the
/// functions before them, and its entry points for the records of all the
/// functions; where the analysis of the module succeeds, the record of
/// each is the analysis of its function.
pub proof fn lemma_analysis_unfold(module: Module)
    requires
        module_valid(module),
        analyze_module(module) is Ok,
    ensures
        ({
            let analysis = analyze_module(module)->Ok_0;
            let globals = module.global_variables@;
            &&& analysis.functions.len() == module.functions@.len()
            &&& analysis.entry_points.len() == module.entry_points@.len()
            &&& forall|i: int|
                0 <= i < module.functions@.len() ==> analyze_function(
                    #[trigger] module.functions@[i],
                    globals,
                    analysis.functions.take(i),
                ) == Ok::<FunctionInfoView, AnalysisError>(analysis.functions[i])
            &&& forall|i: int|
                0 <= i < module.entry_points@.len() ==> analyze_function(
                    (#[trigger] module.entry_points@[i]).function,
                    globals,
                    analysis.functions,
                ) == Ok::<FunctionInfoView, AnalysisError>(analysis.entry_points[i])
        }),
{
    let globals = module.global_variables@;
    let analysis = analyze_module(module)->Ok_0;
    let function_count = module.functions@.len() as int;
    let entry_point_count = module.entry_points@.len() as int;
    lemma_functions_count(module.functions@, globals, function_count);
    lemma_entry_points_count(module.entry_points@, globals, analysis.functions, entry_point_count);
    assert forall|i: int| 0 <= i < module.functions@.len() implies analyze_function(
        #[trigger] module.functions@[i],
        globals,
        analysis.functions.take(i),
    ) == Ok::<FunctionInfoView, AnalysisError>(analysis.functions[i]) by {
        lemma_functions_unfold(module.functions@, globals, function_count, i);
    }
    assert forall|i: int| 0 <= i < module.entry_points@.len() implies analyze_function(
        (#[trigger] module.entry_points@[i]).function,
        globals,
        analysis.functions,
    ) == Ok::<FunctionInfoView, AnalysisError>(analysis.entry_points[i]) by {
        lemma_entry_points_unfold(
            module.entry_points@,
            globals,
            analysis.functions,
            entry_point_count,
            i,
        );
    }
}

/// In a successful analysis of a valid module, the reference counts in
/// the record of each function and of each entry point add up to the
/// number of operand positions, in the expressions and in the statements
/// of that function, that refer to an expression.
pub proof fn lemma_analysis_conserves_references(module: Module)
    requires
        module_valid(module),
        analyze_module(module) is Ok,
    ensures
        ({
            let analysis = analyze_module(module)->Ok_0;
            let globals = module.global_variables@;
            &&& forall|i: int|
                0 <= i < module.functions@.len() ==> total_references(
                    analysis.functions[i].expressions,
                ) == function_references(#[trigger] module.functions@[i], globals)
            &&& forall|i: int|
                0 <= i < module.entry_points@.len() ==> total_references(
                    analysis.entry_points[i].expressions,
                ) == function_references((#[trigger] module.entry_points@[i]).function, globals)
        }),
{
    let globals = module.global_variables@;
    let analysis = analyze_module(module)->Ok_0;
    lemma_analysis_unfold(module);
    assert forall|i: int| 0 <= i < module.functions@.len() implies total_references(
        analysis.functions[i].expressions,
    ) == function_references(#[trigger] module.functions@[i], globals) by {
        lemma_reference_conservation(module.functions@[i], globals, analysis.functions.take(i));
    }
    assert forall|i: int| 0 <= i < module.entry_points@.len() implies total_references(
        analysis.entry_points[i].expressions,
    ) == function_references((#[trigger] module.entry_points@[i]).function, globals) by {
        lemma_reference_conservation(module.entry_points@[i].function, globals, analysis.functions);
    }
}

/// Whether the global variable that a record has for each expression of
/// `fun` is the one that the expression reaches: the variable itself for
/// an expression that names one, what the record has for the base for an
/// access, and none for every other expression.
pub open spec fn assignable_globals_follow(info: FunctionInfoView, fun: Function) -> bool {
    forall|i: int|
        0 <= i < fun.expressions@.len() ==> (#[trigger] info.expressions[i]).assignable_global
            == expression_assignable(info, fun.expressions@[i])
}

/// In a successful analysis of a valid module, the global variable that
/// is recorded for an expression is: the variable itself, for an
/// expression that names one; what is recorded for the base, for an
/// access; and none for every other expression.
pub proof fn lemma_analysis_assignable_globals(module: Module)
    requires
        module_valid(module),
        analyze_module(module) is Ok,
    ensures
        ({
            let analysis = analyze_module(module)->Ok_0;
            &&& forall|i: int|
                0 <= i < module.functions@.len() ==> assignable_globals_follow(
                    analysis.functions[i],
                    #[trigger] module.functions@[i],
                )
            &&& forall|i: int|
                0 <= i < module.entry_points@.len() ==> assignable_globals_follow(
                    analysis.entry_points[i],
                    (#[trigger] module.entry_points@[i]).function,
                )
        }),
{
    let globals = module.global_variables@;
    let analysis = analyze_module(module)->Ok_0;
    lemma_analysis_unfold(module);
    assert forall|i: int| 0 <= i < module.functions@.len() implies assignable_globals_follow(
        analysis.functions[i],
        #[trigger] module.functions@[i],
    ) by {
        let fun = module.functions@[i];
        assert forall|k: int| 0 <= k < fun.expressions@.len() implies (
        #[trigger] analysis.functions[i].expressions[k]).assignable_global
            == expression_assignable(analysis.functions[i], fun.expressions@[k]) by {
            lemma_assignable_global(fun, globals, analysis.functions.take(i), k);
        }
    }
    assert forall|i: int| 0 <= i < module.entry_points@.len() implies assignable_globals_follow(
        analysis.entry_points[i],
        (#[trigger] module.entry_points@[i]).function,
    ) by {
        let fun = module.entry_points@[i].function;
        assert forall|k: int| 0 <= k < fun.expressions@.len() implies (
        #[trigger] analysis.entry_points[i].expressions[k]).assignable_global
            == expression_assignable(analysis.entry_points[i], fun.expressions@[k]) by {
            lemma_assignable_global(fun, globals, analysis.functions, k);
        }
    }
}

} // verus!
