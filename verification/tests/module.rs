use shader_analysis::analyzer::{
    Analysis, AnalysisError, ExitFlags, FunctionInfo, GlobalUse, SamplingKey, Uniformity,
    UniformityDisruptor,
};
use shader_analysis::arena::{Arena, Handle, Range};
use shader_analysis::ir::{
    BinaryOperator, Binding, BuiltIn, Constant, ConstantInner, DerivativeAxis, EntryPoint,
    Expression, Function, GlobalVariable, ImageQuery, Interpolation, MathFunction, Module,
    SampleLevel, ScalarValue, ShaderStage, Statement, StorageAccess, StorageClass, SwitchCase,
    UnaryOperator,
};

fn global(
    class: StorageClass,
    binding: Option<Binding>,
    interpolation: Option<Interpolation>,
    storage_access: StorageAccess,
) -> GlobalVariable {
    GlobalVariable {
        name: None,
        class,
        binding,
        ty: Handle::new(0),
        init: None,
        interpolation,
        storage_access,
    }
}

fn function(expressions: Arena<Expression>, body: Vec<Statement>) -> Function {
    Function {
        name: None,
        arguments: Vec::new(),
        return_type: None,
        local_variables: Arena::new(),
        expressions,
        body,
    }
}

fn module(globals: Arena<GlobalVariable>, functions: Vec<Function>) -> Module {
    let mut arena = Arena::new();
    for fun in functions {
        arena.append(fun);
    }
    Module {
        types: Arena::new(),
        constants: Arena::new(),
        global_variables: globals,
        functions: arena,
        entry_points: Vec::new(),
    }
}

fn constant() -> Expression {
    Expression::Constant(Handle::new(0))
}

/// Analyses every expression of `expressions` in order, against no
/// other function.
fn analysed(globals: &Arena<GlobalVariable>, expressions: &Arena<Expression>) -> FunctionInfo {
    let mut info = FunctionInfo::new(globals.len(), expressions.len());
    for index in 0..expressions.len() {
        info.process_expression(Handle::new(index), expressions, globals, &[])
            .unwrap();
    }
    info
}

/// Globals: a flat input (uniform) and the vertex index (non-uniform).
/// Expressions: a constant, its derivative, and one expression per global.
struct Fixture {
    globals: Arena<GlobalVariable>,
    expressions: Arena<Expression>,
    constant: Handle<Expression>,
    derivative: Handle<Expression>,
    uniform: Handle<Expression>,
    non_uniform: Handle<Expression>,
}

fn fixture() -> Fixture {
    let mut globals = Arena::new();
    let flat = globals.append(global(
        StorageClass::Input,
        Some(Binding::Location(0)),
        Some(Interpolation::Flat),
        StorageAccess::empty(),
    ));
    let vertex_index = globals.append(global(
        StorageClass::Input,
        Some(Binding::BuiltIn(BuiltIn::VertexIndex)),
        None,
        StorageAccess::empty(),
    ));
    let mut expressions = Arena::new();
    let constant = expressions.append(constant());
    let derivative = expressions.append(Expression::Derivative {
        axis: DerivativeAxis::Y,
        expr: constant,
    });
    let uniform = expressions.append(Expression::GlobalVariable(flat));
    let non_uniform = expressions.append(Expression::GlobalVariable(vertex_index));
    Fixture {
        globals,
        expressions,
        constant,
        derivative,
        uniform,
        non_uniform,
    }
}

fn store_derivative(f: &Fixture) -> Statement {
    Statement::Store {
        pointer: f.constant,
        value: f.derivative,
    }
}

#[test]
fn storage_class_classification() {
    let cases = [
        (StorageClass::Storage, StorageAccess::load(), true),
        (StorageClass::Storage, StorageAccess::store(), false),
        (
            StorageClass::Storage,
            StorageAccess::load() | StorageAccess::store(),
            false,
        ),
        (StorageClass::Handle, StorageAccess::empty(), true),
        (StorageClass::Handle, StorageAccess::store(), false),
        (StorageClass::Uniform, StorageAccess::store(), true),
        (StorageClass::PushConstant, StorageAccess::empty(), true),
        (StorageClass::Output, StorageAccess::empty(), false),
        (StorageClass::Function, StorageAccess::empty(), false),
        (StorageClass::Private, StorageAccess::empty(), false),
        (StorageClass::WorkGroup, StorageAccess::empty(), false),
        (StorageClass::Input, StorageAccess::empty(), false),
    ];
    for (class, access, uniform) in cases {
        let mut globals = Arena::new();
        let var = globals.append(global(class, None, None, access));
        let mut expressions = Arena::new();
        let expr = expressions.append(Expression::GlobalVariable(var));
        let info = analysed(&globals, &expressions);
        let expected = if uniform {
            Uniformity::default()
        } else {
            Uniformity::non_uniform_result(expr)
        };
        assert_eq!(info[expr].uniformity, expected);
        assert_eq!(info[expr].ref_count, 0);
        assert_eq!(info[var], GlobalUse::empty());
    }
}

#[test]
fn input_interpolation_classification() {
    let cases = [
        (Some(Interpolation::Flat), true),
        (Some(Interpolation::Perspective), false),
        (Some(Interpolation::Linear), false),
        (Some(Interpolation::Centroid), false),
        (None, false),
    ];
    for (interpolation, uniform) in cases {
        let mut globals = Arena::new();
        let var = globals.append(global(
            StorageClass::Input,
            Some(Binding::Location(1)),
            interpolation,
            StorageAccess::empty(),
        ));
        let mut expressions = Arena::new();
        let expr = expressions.append(Expression::GlobalVariable(var));
        let info = analysed(&globals, &expressions);
        assert_eq!(info[expr].uniformity.non_uniform_result.is_none(), uniform);
    }
}

#[test]
fn built_in_classification() {
    let cases = [
        (BuiltIn::FrontFacing, true),
        (BuiltIn::WorkGroupId, true),
        (BuiltIn::WorkGroupSize, true),
        (BuiltIn::VertexIndex, false),
        (BuiltIn::FragCoord, false),
        (BuiltIn::LocalInvocationId, false),
        (BuiltIn::GlobalInvocationId, false),
        (BuiltIn::Position, false),
    ];
    for (built_in, uniform) in cases {
        let mut globals = Arena::new();
        // the class would make it uniform; the built-in decides
        let var = globals.append(global(
            StorageClass::Uniform,
            Some(Binding::BuiltIn(built_in)),
            Some(Interpolation::Flat),
            StorageAccess::empty(),
        ));
        let mut expressions = Arena::new();
        let expr = expressions.append(Expression::GlobalVariable(var));
        let info = analysed(&globals, &expressions);
        assert_eq!(info[expr].uniformity.non_uniform_result.is_none(), uniform);
    }
}

#[test]
fn leaf_expressions() {
    let globals = Arena::new();
    let mut expressions = Arena::new();
    let constant = expressions.append(constant());
    let argument = expressions.append(Expression::FunctionArgument(0));
    let local = expressions.append(Expression::LocalVariable(Handle::new(0)));
    let info = analysed(&globals, &expressions);
    assert_eq!(info[constant].uniformity, Uniformity::default());
    assert_eq!(
        info[argument].uniformity,
        Uniformity::non_uniform_result(argument)
    );
    assert_eq!(info[local].uniformity, Uniformity::non_uniform_result(local));
    assert_eq!(info.expression_count(), 3);
    assert_eq!(info.global_variable_count(), 0);
}

#[test]
fn operands_are_joined_left_to_right() {
    let globals = Arena::new();
    let mut expressions = Arena::new();
    let a = expressions.append(Expression::FunctionArgument(0));
    let b = expressions.append(Expression::FunctionArgument(1));
    let c = expressions.append(constant());
    let binary = expressions.append(Expression::Binary {
        op: BinaryOperator::Add,
        left: b,
        right: a,
    });
    let select = expressions.append(Expression::Select {
        condition: c,
        accept: a,
        reject: b,
    });
    let unary = expressions.append(Expression::Unary {
        op: UnaryOperator::Negate,
        expr: c,
    });
    let math = expressions.append(Expression::Math {
        fun: MathFunction::Clamp,
        arg: c,
        arg1: Some(b),
        arg2: Some(a),
    });
    let compose = expressions.append(Expression::Compose {
        ty: Handle::new(0),
        components: vec![c, a, b, a],
    });
    let info = analysed(&globals, &expressions);
    assert_eq!(info[binary].uniformity, Uniformity::non_uniform_result(b));
    assert_eq!(info[select].uniformity, Uniformity::non_uniform_result(a));
    assert_eq!(info[unary].uniformity, Uniformity::default());
    assert_eq!(info[math].uniformity, Uniformity::non_uniform_result(b));
    assert_eq!(info[compose].uniformity, Uniformity::non_uniform_result(a));
    // a: binary, select, math, compose twice; b: binary, select, math, compose
    assert_eq!(info[a].ref_count, 5);
    assert_eq!(info[b].ref_count, 4);
    assert_eq!(info[c].ref_count, 4);
}

#[test]
fn derivative_requires_uniform_flow() {
    let globals = Arena::new();
    let mut expressions = Arena::new();
    let argument = expressions.append(Expression::FunctionArgument(0));
    let derivative = expressions.append(Expression::Derivative {
        axis: DerivativeAxis::Width,
        expr: argument,
    });
    let outer = expressions.append(Expression::Derivative {
        axis: DerivativeAxis::X,
        expr: derivative,
    });
    let info = analysed(&globals, &expressions);
    assert_eq!(
        info[derivative].uniformity,
        Uniformity {
            non_uniform_result: Some(argument),
            require_uniform: Some(derivative),
        }
    );
    // the requirement of the outer derivative comes first
    assert_eq!(
        info[outer].uniformity,
        Uniformity {
            non_uniform_result: Some(argument),
            require_uniform: Some(outer),
        }
    );
}

#[test]
fn access_chain_carries_the_global() {
    let mut globals = Arena::new();
    let buffer = globals.append(global(
        StorageClass::Storage,
        None,
        None,
        StorageAccess::load() | StorageAccess::store(),
    ));
    let mut expressions = Arena::new();
    let base = expressions.append(Expression::GlobalVariable(buffer));
    let index = expressions.append(Expression::FunctionArgument(0));
    let field = expressions.append(Expression::AccessIndex { base, index: 2 });
    let element = expressions.append(Expression::Access { base: field, index });
    let load = expressions.append(Expression::Load { pointer: element });
    let through_value = expressions.append(Expression::AccessIndex {
        base: load,
        index: 0,
    });
    let info = analysed(&globals, &expressions);
    assert_eq!(info[base].assignable_global, Some(buffer));
    assert_eq!(info[field].assignable_global, Some(buffer));
    assert_eq!(info[element].assignable_global, Some(buffer));
    assert_eq!(info[load].assignable_global, None);
    assert_eq!(info[through_value].assignable_global, None);
    assert_eq!(info[index].assignable_global, None);
    // going through the chain does not use the global, loading does
    assert_eq!(info[buffer], GlobalUse::read());
    assert_eq!(info[base].ref_count, 1);
    assert_eq!(info[field].ref_count, 1);
    assert_eq!(info[element].ref_count, 1);
    assert_eq!(info[index].ref_count, 1);
    assert_eq!(info[element].uniformity, Uniformity::non_uniform_result(base));
}

#[test]
fn queries_mark_query() {
    let mut globals = Arena::new();
    let image = globals.append(global(
        StorageClass::Handle,
        None,
        None,
        StorageAccess::empty(),
    ));
    let array = globals.append(global(
        StorageClass::Storage,
        None,
        None,
        StorageAccess::load(),
    ));
    let mut expressions = Arena::new();
    let image_expr = expressions.append(Expression::GlobalVariable(image));
    let array_expr = expressions.append(Expression::GlobalVariable(array));
    let level = expressions.append(Expression::FunctionArgument(0));
    let size = expressions.append(Expression::ImageQuery {
        image: image_expr,
        query: ImageQuery::Size { level: Some(level) },
    });
    let levels = expressions.append(Expression::ImageQuery {
        image: image_expr,
        query: ImageQuery::NumLevels,
    });
    let length = expressions.append(Expression::ArrayLength(array_expr));
    let info = analysed(&globals, &expressions);
    assert_eq!(info[image], GlobalUse::query());
    assert_eq!(info[array], GlobalUse::query());
    assert_eq!(info[image_expr].ref_count, 2);
    assert_eq!(info[level].ref_count, 1);
    assert_eq!(info[size].uniformity, Uniformity::non_uniform_result(level));
    assert_eq!(info[levels].uniformity, Uniformity::default());
    assert_eq!(info[length].uniformity, Uniformity::default());
}

fn sampling_fixture() -> (
    Arena<GlobalVariable>,
    Arena<Expression>,
    Handle<GlobalVariable>,
    Handle<GlobalVariable>,
) {
    let mut globals = Arena::new();
    let image = globals.append(global(
        StorageClass::Handle,
        None,
        None,
        StorageAccess::empty(),
    ));
    let sampler = globals.append(global(
        StorageClass::Handle,
        None,
        None,
        StorageAccess::empty(),
    ));
    let mut expressions = Arena::new();
    expressions.append(Expression::GlobalVariable(image));
    expressions.append(Expression::GlobalVariable(sampler));
    expressions.append(constant());
    expressions.append(Expression::FunctionArgument(0));
    expressions.append(Expression::FunctionArgument(1));
    (globals, expressions, image, sampler)
}

fn sample(level: SampleLevel, depth_ref: Option<Handle<Expression>>) -> Expression {
    Expression::ImageSample {
        image: Handle::new(0),
        sampler: Handle::new(1),
        coordinate: Handle::new(2),
        array_index: None,
        offset: None,
        level,
        depth_ref,
    }
}

#[test]
fn image_sample_records_the_pair() {
    let (globals, mut expressions, image, sampler) = sampling_fixture();
    let sampled = expressions.append(sample(SampleLevel::Zero, None));
    let again = expressions.append(sample(SampleLevel::Zero, None));
    let info = analysed(&globals, &expressions);
    assert_eq!(
        info.sampling_set.to_vec(),
        vec![SamplingKey { image, sampler }]
    );
    assert_eq!(info[sampled].uniformity, Uniformity::default());
    assert_eq!(info[again].uniformity, Uniformity::default());
    assert_eq!(info[image], GlobalUse::read());
    assert_eq!(info[sampler], GlobalUse::read());
    assert_eq!(info[Handle::<Expression>::new(0)].ref_count, 2);
    assert_eq!(info[Handle::<Expression>::new(2)].ref_count, 2);
}

#[test]
fn image_sample_levels() {
    let argument: Handle<Expression> = Handle::new(3);
    let other: Handle<Expression> = Handle::new(4);
    let (globals, mut expressions, _, _) = sampling_fixture();
    let auto = expressions.append(sample(SampleLevel::Auto, None));
    let exact = expressions.append(sample(SampleLevel::Exact(argument), None));
    let bias = expressions.append(sample(SampleLevel::Bias(other), None));
    let gradient = expressions.append(sample(
        SampleLevel::Gradient {
            x: other,
            y: argument,
        },
        None,
    ));
    let info = analysed(&globals, &expressions);
    assert_eq!(info[auto].uniformity, Uniformity::require_uniform(auto));
    assert_eq!(
        info[exact].uniformity,
        Uniformity::non_uniform_result(argument)
    );
    assert_eq!(info[bias].uniformity, Uniformity::non_uniform_result(other));
    assert_eq!(
        info[gradient].uniformity,
        Uniformity::non_uniform_result(other)
    );
    assert_eq!(info[argument].ref_count, 2);
    assert_eq!(info[other].ref_count, 2);
}

#[test]
fn image_sample_joins_depth_reference_before_level() {
    let argument: Handle<Expression> = Handle::new(3);
    let other: Handle<Expression> = Handle::new(4);
    let (globals, mut expressions, _, _) = sampling_fixture();
    let sampled = expressions.append(sample(SampleLevel::Exact(argument), Some(other)));
    let info = analysed(&globals, &expressions);
    assert_eq!(
        info[sampled].uniformity,
        Uniformity::non_uniform_result(other)
    );
}

#[test]
fn image_sample_expects_global_image() {
    let (globals, mut expressions, _, _) = sampling_fixture();
    let sampled = expressions.append(Expression::ImageSample {
        image: Handle::new(2),
        sampler: Handle::new(1),
        coordinate: Handle::new(2),
        array_index: None,
        offset: None,
        level: SampleLevel::Zero,
        depth_ref: None,
    });
    let mut info = FunctionInfo::new(globals.len(), expressions.len());
    for index in 0..sampled.index() {
        info.process_expression(Handle::new(index), &expressions, &globals, &[])
            .unwrap();
    }
    assert_eq!(
        info.process_expression(sampled, &expressions, &globals, &[]),
        Err(AnalysisError::ExpectedGlobalVariable(constant()))
    );
    // nothing was recorded
    assert!(info.sampling_set.is_empty());
    assert_eq!(info[Handle::<Expression>::new(1)].ref_count, 0);
    assert_eq!(info[Handle::<Expression>::new(2)].ref_count, 0);
}

#[test]
fn image_sample_expects_global_sampler() {
    let (globals, mut expressions, _, _) = sampling_fixture();
    let composite = expressions.append(Expression::Compose {
        ty: Handle::new(0),
        components: vec![Handle::new(2), Handle::new(3)],
    });
    let sampled = expressions.append(Expression::ImageSample {
        image: Handle::new(0),
        sampler: composite,
        coordinate: Handle::new(2),
        array_index: None,
        offset: None,
        level: SampleLevel::Auto,
        depth_ref: None,
    });
    let mut info = FunctionInfo::new(globals.len(), expressions.len());
    for index in 0..sampled.index() {
        info.process_expression(Handle::new(index), &expressions, &globals, &[])
            .unwrap();
    }
    assert_eq!(
        info.process_expression(sampled, &expressions, &globals, &[]),
        Err(AnalysisError::ExpectedGlobalVariable(Expression::Compose {
            ty: Handle::new(0),
            components: vec![Handle::new(2), Handle::new(3)],
        }))
    );
}

#[test]
fn empty_block() {
    let f = fixture();
    let mut info = analysed(&f.globals, &f.expressions);
    assert_eq!(
        info.process_block(&[], &[], Some(UniformityDisruptor::Kill)),
        Ok((Uniformity::default(), ExitFlags::empty()))
    );
}

#[test]
fn statements_without_operands() {
    let f = fixture();
    let mut info = analysed(&f.globals, &f.expressions);
    let block = [
        Statement::Emit(Range::new(0, 2)),
        Statement::Break,
        Statement::Continue,
        Statement::Return { value: None },
    ];
    assert_eq!(
        info.process_block(&block, &[], None),
        Ok((Uniformity::default(), ExitFlags::may_return()))
    );
    assert_eq!(
        info.process_block(&[Statement::Kill], &[], None),
        Ok((Uniformity::default(), ExitFlags::may_kill()))
    );
    assert_eq!(info[f.constant].ref_count, 1);
}

#[test]
fn first_exit_disrupts_what_follows() {
    let f = fixture();
    let mut info = analysed(&f.globals, &f.expressions);
    let block = [
        Statement::Kill,
        Statement::Return { value: None },
        store_derivative(&f),
    ];
    assert_eq!(
        info.process_block(&block, &[], None),
        Err(AnalysisError::NonUniformControlFlow(
            f.derivative,
            UniformityDisruptor::Kill
        ))
    );
    let block = [
        Statement::Return { value: None },
        Statement::Kill,
        store_derivative(&f),
    ];
    assert_eq!(
        info.process_block(&block, &[], None),
        Err(AnalysisError::NonUniformControlFlow(
            f.derivative,
            UniformityDisruptor::Return
        ))
    );
    // the parent disruptor comes before both
    let block = [Statement::Kill, store_derivative(&f)];
    assert_eq!(
        info.process_block(
            &block,
            &[],
            Some(UniformityDisruptor::Expression(f.non_uniform))
        ),
        Err(AnalysisError::NonUniformControlFlow(
            f.derivative,
            UniformityDisruptor::Expression(f.non_uniform)
        ))
    );
}

#[test]
fn derivative_before_exit_is_accepted() {
    let f = fixture();
    let mut info = analysed(&f.globals, &f.expressions);
    let block = [
        store_derivative(&f),
        Statement::Kill,
        Statement::Return {
            value: Some(f.non_uniform),
        },
    ];
    assert_eq!(
        info.process_block(&block, &[], None),
        Ok((
            Uniformity {
                non_uniform_result: Some(f.non_uniform),
                require_uniform: Some(f.derivative),
            },
            ExitFlags::may_kill() | ExitFlags::may_return()
        ))
    );
}

#[test]
fn nested_block_passes_through() {
    let f = fixture();
    let mut info = analysed(&f.globals, &f.expressions);
    let block = [
        Statement::Block(vec![Statement::Block(vec![Statement::Kill])]),
        Statement::Block(vec![store_derivative(&f)]),
    ];
    assert_eq!(
        info.process_block(&block, &[], None),
        Err(AnalysisError::NonUniformControlFlow(
            f.derivative,
            UniformityDisruptor::Kill
        ))
    );
}

#[test]
fn condition_requiring_uniformity_fails_under_disruptor() {
    let f = fixture();
    let mut info = analysed(&f.globals, &f.expressions);
    let block = [Statement::If {
        condition: f.derivative,
        accept: Vec::new(),
        reject: Vec::new(),
    }];
    assert_eq!(
        info.process_block(&block, &[], Some(UniformityDisruptor::Return)),
        Err(AnalysisError::NonUniformControlFlow(
            f.derivative,
            UniformityDisruptor::Return
        ))
    );
    assert_eq!(
        info.process_block(&block, &[], None),
        Ok((
            Uniformity::require_uniform(f.derivative),
            ExitFlags::empty()
        ))
    );
    assert_eq!(info[f.derivative].ref_count, 2);
}

#[test]
fn branches_do_not_disrupt_each_other() {
    let f = fixture();
    let mut info = analysed(&f.globals, &f.expressions);
    let block = [Statement::If {
        condition: f.uniform,
        accept: vec![Statement::Kill],
        reject: vec![store_derivative(&f)],
    }];
    assert_eq!(
        info.process_block(&block, &[], None),
        Ok((
            Uniformity::require_uniform(f.derivative),
            ExitFlags::may_kill()
        ))
    );
    // what follows the branch is disrupted by its exits
    let block = [
        Statement::If {
            condition: f.uniform,
            accept: vec![Statement::Kill],
            reject: Vec::new(),
        },
        store_derivative(&f),
    ];
    assert_eq!(
        info.process_block(&block, &[], None),
        Err(AnalysisError::NonUniformControlFlow(
            f.derivative,
            UniformityDisruptor::Kill
        ))
    );
}

#[test]
fn loop_continuing_runs_under_body_exits() {
    let f = fixture();
    let mut info = analysed(&f.globals, &f.expressions);
    let block = [Statement::Loop {
        body: vec![Statement::Return { value: None }],
        continuing: vec![store_derivative(&f)],
    }];
    assert_eq!(
        info.process_block(&block, &[], None),
        Err(AnalysisError::NonUniformControlFlow(
            f.derivative,
            UniformityDisruptor::Return
        ))
    );
    let block = [Statement::Loop {
        body: vec![store_derivative(&f), Statement::Break],
        continuing: vec![Statement::Kill],
    }];
    assert_eq!(
        info.process_block(&block, &[], None),
        Ok((
            Uniformity::require_uniform(f.derivative),
            ExitFlags::may_kill()
        ))
    );
}

#[test]
fn switch_fall_through_inherits_exits() {
    let f = fixture();
    let mut info = analysed(&f.globals, &f.expressions);
    let falling = [Statement::Switch {
        selector: f.uniform,
        cases: vec![
            SwitchCase {
                value: 0,
                body: vec![Statement::Kill],
                fall_through: true,
            },
            SwitchCase {
                value: 1,
                body: vec![store_derivative(&f)],
                fall_through: false,
            },
        ],
        default: Vec::new(),
    }];
    assert_eq!(
        info.process_block(&falling, &[], None),
        Err(AnalysisError::NonUniformControlFlow(
            f.derivative,
            UniformityDisruptor::Kill
        ))
    );
    let separate = [Statement::Switch {
        selector: f.uniform,
        cases: vec![
            SwitchCase {
                value: 0,
                body: vec![Statement::Kill],
                fall_through: false,
            },
            SwitchCase {
                value: 1,
                body: vec![store_derivative(&f)],
                fall_through: false,
            },
        ],
        default: vec![Statement::Return { value: None }],
    }];
    assert_eq!(
        info.process_block(&separate, &[], None),
        Ok((
            Uniformity::require_uniform(f.derivative),
            ExitFlags::may_kill() | ExitFlags::may_return()
        ))
    );
}

#[test]
fn switch_on_non_uniform_selector() {
    let f = fixture();
    let mut info = analysed(&f.globals, &f.expressions);
    // the first case is entered under the disruptor of the switch itself
    let first_case = [Statement::Switch {
        selector: f.non_uniform,
        cases: vec![SwitchCase {
            value: 0,
            body: vec![store_derivative(&f)],
            fall_through: false,
        }],
        default: Vec::new(),
    }];
    assert_eq!(
        info.process_block(&first_case, &[], None),
        Ok((
            Uniformity {
                non_uniform_result: Some(f.non_uniform),
                require_uniform: Some(f.derivative),
            },
            ExitFlags::empty()
        ))
    );
    // the case after one that does not fall through depends on the selector
    let second_case = [Statement::Switch {
        selector: f.non_uniform,
        cases: vec![
            SwitchCase {
                value: 0,
                body: Vec::new(),
                fall_through: false,
            },
            SwitchCase {
                value: 1,
                body: vec![store_derivative(&f)],
                fall_through: false,
            },
        ],
        default: Vec::new(),
    }];
    assert_eq!(
        info.process_block(&second_case, &[], None),
        Err(AnalysisError::NonUniformControlFlow(
            f.derivative,
            UniformityDisruptor::Expression(f.non_uniform)
        ))
    );
    // and so does the default
    let default = [Statement::Switch {
        selector: f.non_uniform,
        cases: Vec::new(),
        default: vec![store_derivative(&f)],
    }];
    assert_eq!(
        info.process_block(&default, &[], None),
        Err(AnalysisError::NonUniformControlFlow(
            f.derivative,
            UniformityDisruptor::Expression(f.non_uniform)
        ))
    );
}

#[test]
fn image_store_marks_write() {
    let mut globals = Arena::new();
    let image = globals.append(global(
        StorageClass::Handle,
        None,
        None,
        StorageAccess::store(),
    ));
    let mut expressions = Arena::new();
    let image_expr = expressions.append(Expression::GlobalVariable(image));
    let coordinate = expressions.append(Expression::FunctionArgument(0));
    let layer = expressions.append(Expression::FunctionArgument(1));
    let value = expressions.append(constant());
    let mut info = analysed(&globals, &expressions);
    let block = [Statement::ImageStore {
        image: image_expr,
        coordinate,
        array_index: Some(layer),
        value,
    }];
    assert_eq!(
        info.process_block(&block, &[], None),
        Ok((
            Uniformity::non_uniform_result(image_expr),
            ExitFlags::empty()
        ))
    );
    assert_eq!(info[image], GlobalUse::write());
    assert_eq!(info[image_expr].ref_count, 1);
    assert_eq!(info[coordinate].ref_count, 1);
    assert_eq!(info[layer].ref_count, 1);
    assert_eq!(info[value].ref_count, 1);
}

#[test]
fn image_store_joins_coordinate_before_layer() {
    let mut globals = Arena::new();
    let image = globals.append(global(
        StorageClass::Handle,
        None,
        None,
        StorageAccess::empty(),
    ));
    let mut expressions = Arena::new();
    let image_expr = expressions.append(Expression::GlobalVariable(image));
    let coordinate = expressions.append(Expression::FunctionArgument(0));
    let layer = expressions.append(Expression::FunctionArgument(1));
    let value = expressions.append(constant());
    let mut info = analysed(&globals, &expressions);
    let block = [Statement::ImageStore {
        image: image_expr,
        coordinate,
        array_index: Some(layer),
        value,
    }];
    assert_eq!(
        info.process_block(&block, &[], None),
        Ok((
            Uniformity::non_uniform_result(coordinate),
            ExitFlags::empty()
        ))
    );
}

/// A module of two functions: the first one writes the first global,
/// samples and kills; the second one calls it.
fn calling_module() -> Module {
    let mut globals = Arena::new();
    let target = globals.append(global(
        StorageClass::Private,
        None,
        None,
        StorageAccess::empty(),
    ));
    let image = globals.append(global(
        StorageClass::Handle,
        None,
        None,
        StorageAccess::empty(),
    ));
    let sampler = globals.append(global(
        StorageClass::Handle,
        None,
        None,
        StorageAccess::empty(),
    ));

    let mut callee = Arena::new();
    let target_expr = callee.append(Expression::GlobalVariable(target));
    let image_expr = callee.append(Expression::GlobalVariable(image));
    let sampler_expr = callee.append(Expression::GlobalVariable(sampler));
    let coordinate = callee.append(constant());
    let sampled = callee.append(Expression::ImageSample {
        image: image_expr,
        sampler: sampler_expr,
        coordinate,
        array_index: None,
        offset: None,
        level: SampleLevel::Zero,
        depth_ref: None,
    });
    let callee_body = vec![
        Statement::Store {
            pointer: target_expr,
            value: sampled,
        },
        Statement::Kill,
    ];

    let mut caller = Arena::new();
    let argument = caller.append(Expression::FunctionArgument(0));
    let caller_body = vec![Statement::Call {
        function: Handle::new(0),
        arguments: vec![argument, argument],
        result: None,
    }];

    module(
        globals,
        vec![function(callee, callee_body), function(caller, caller_body)],
    )
}

#[test]
fn call_inheritance() {
    let module = calling_module();
    let analysis = Analysis::new(&module).unwrap();
    let target: Handle<GlobalVariable> = Handle::new(0);
    let callee = &analysis[Handle::<Function>::new(0)];
    let caller = &analysis[Handle::<Function>::new(1)];
    assert!(callee.may_kill);
    assert_eq!(callee[target], GlobalUse::write());
    assert!(caller.may_kill);
    assert!(caller[target].contains(GlobalUse::write()));
    assert!(caller.dominates_global_use(callee));
    assert!(callee.dominates_global_use(caller));
    for key in callee.sampling_set.to_vec() {
        assert!(caller.sampling_set.contains(&key));
    }
    assert_eq!(
        caller.sampling_set.to_vec(),
        vec![SamplingKey {
            image: Handle::new(1),
            sampler: Handle::new(2),
        }]
    );
    assert_eq!(
        caller.uniformity,
        Uniformity::non_uniform_result(Handle::new(0))
    );
    assert_eq!(caller[Handle::<Expression>::new(0)].ref_count, 2);
}

#[test]
fn call_expression_inherits() {
    let mut module = calling_module();
    let mut expressions = Arena::new();
    let call = expressions.append(Expression::Call(Handle::new(0)));
    module
        .functions
        .append(function(expressions, vec![Statement::Return {
            value: Some(call),
        }]));
    let analysis = Analysis::new(&module).unwrap();
    let callee = &analysis[Handle::<Function>::new(0)];
    let caller = &analysis[Handle::<Function>::new(2)];
    // the uniformity of the called function is that of the call
    assert_eq!(caller[call].uniformity, callee.uniformity);
    assert_eq!(caller[call].ref_count, 1);
    assert!(caller.dominates_global_use(callee));
    assert_eq!(caller.sampling_set.len(), 1);
    // a call expression does not hand on that the function may kill
    assert!(!caller.may_kill);
}

#[test]
fn dominance_is_elementwise() {
    let mut small = FunctionInfo::new(2, 0);
    let mut large = FunctionInfo::new(2, 0);
    small.global_uses[0] = GlobalUse::read();
    large.global_uses[0] = GlobalUse::read() | GlobalUse::write();
    large.global_uses[1] = GlobalUse::query();
    assert!(large.dominates_global_use(&small));
    assert!(!small.dominates_global_use(&large));
    assert!(small.dominates_global_use(&small));
    small.global_uses[1] = GlobalUse::write();
    assert!(!large.dominates_global_use(&small));
}

#[test]
fn analysis_matches_the_module() {
    let mut module = calling_module();
    let mut expressions = Arena::new();
    let argument = expressions.append(Expression::FunctionArgument(0));
    module.entry_points.push(EntryPoint {
        name: String::from("main"),
        stage: ShaderStage::Fragment,
        function: function(
            expressions,
            vec![Statement::Call {
                function: Handle::new(1),
                arguments: vec![argument],
                result: None,
            }],
        ),
    });
    let analysis = Analysis::new(&module).unwrap();
    for index in 0..module.functions.len() {
        let handle = Handle::new(index);
        assert_eq!(
            analysis[handle].expression_count(),
            module.functions[handle].expressions.len()
        );
        assert_eq!(
            analysis[handle].global_variable_count(),
            module.global_variables.len()
        );
    }
    let entry = analysis.get_entry_point(0);
    assert_eq!(entry.expression_count(), 1);
    assert_eq!(entry.global_variable_count(), 3);
    // the kill of the innermost function reaches the entry point
    assert!(entry.may_kill);
    assert!(entry.dominates_global_use(&analysis[Handle::<Function>::new(1)]));
    assert_eq!(entry.sampling_set.len(), 1);
}

#[test]
fn analysis_is_repeatable() {
    let module = calling_module();
    let first = Analysis::new(&module).unwrap();
    let second = Analysis::new(&module).unwrap();
    for index in 0..module.functions.len() {
        let handle = Handle::new(index);
        let (a, b) = (&first[handle], &second[handle]);
        assert_eq!(a.uniformity, b.uniformity);
        assert_eq!(a.may_kill, b.may_kill);
        assert_eq!(a.sampling_set.to_vec(), b.sampling_set.to_vec());
        assert_eq!(a.global_uses, b.global_uses);
        assert_eq!(a.expressions, b.expressions);
    }
}

#[test]
fn reference_counts_add_up() {
    let module = calling_module();
    let analysis = Analysis::new(&module).unwrap();
    // the called function: three operands of the sample, two of the store
    let callee = &analysis[Handle::<Function>::new(0)];
    let total: usize = callee.expressions.iter().map(|info| info.ref_count).sum();
    assert_eq!(total, 5);
    // the caller: the two arguments of the call
    let caller = &analysis[Handle::<Function>::new(1)];
    let total: usize = caller.expressions.iter().map(|info| info.ref_count).sum();
    assert_eq!(total, 2);
}

#[test]
fn analysis_fails_as_a_whole() {
    let f = fixture();
    let body = vec![
        Statement::Return {
            value: Some(f.uniform),
        },
        Statement::Store {
            pointer: f.constant,
            value: f.derivative,
        },
    ];
    let derivative = f.derivative;
    let module = module(f.globals, vec![function(f.expressions, body)]);
    assert_eq!(
        Analysis::new(&module).err(),
        Some(AnalysisError::NonUniformControlFlow(
            derivative,
            UniformityDisruptor::Return
        ))
    );
}

#[test]
fn analysis_of_an_empty_module() {
    let module = module(Arena::new(), Vec::new());
    assert!(Analysis::new(&module).is_ok());
}

#[test]
fn constants_carry_scalar_values() {
    let mut constants = Arena::new();
    let handle = constants.append(Constant {
        name: Some(String::from("one")),
        specialization: None,
        inner: ConstantInner::Scalar {
            width: 4,
            value: ScalarValue::Sint(1),
        },
    });
    assert_eq!(constants[handle].name.as_deref(), Some("one"));
}
