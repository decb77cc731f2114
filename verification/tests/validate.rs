use shader_analysis::analyzer::validate::{validate_function, validate_module};
use shader_analysis::analyzer::Analysis;
use shader_analysis::arena::{Arena, Handle};
use shader_analysis::ir::{
    BinaryOperator, EntryPoint, Expression, Function, GlobalVariable, Module, ShaderStage,
    Statement, StorageAccess, StorageClass, SwitchCase,
};

fn function(expressions: Vec<Expression>, body: Vec<Statement>) -> Function {
    let mut arena = Arena::new();
    for expr in expressions {
        arena.append(expr);
    }
    Function {
        name: None,
        arguments: Vec::new(),
        return_type: None,
        local_variables: Arena::new(),
        expressions: arena,
        body,
    }
}

fn globals(count: usize) -> Arena<GlobalVariable> {
    let mut arena = Arena::new();
    for _ in 0..count {
        arena.append(GlobalVariable {
            name: None,
            class: StorageClass::Private,
            binding: None,
            ty: Handle::new(0),
            init: None,
            interpolation: None,
            storage_access: StorageAccess::empty(),
        });
    }
    arena
}

fn module(global_count: usize, functions: Vec<Function>) -> Module {
    let mut arena = Arena::new();
    for fun in functions {
        arena.append(fun);
    }
    Module {
        types: Arena::new(),
        constants: Arena::new(),
        global_variables: globals(global_count),
        functions: arena,
        entry_points: Vec::new(),
    }
}

fn add(left: usize, right: usize) -> Expression {
    Expression::Binary {
        op: BinaryOperator::Add,
        left: Handle::new(left),
        right: Handle::new(right),
    }
}

#[test]
fn operands_must_stand_before_their_user() {
    let arguments = vec![Expression::FunctionArgument(0), Expression::FunctionArgument(1)];
    let mut valid = arguments.clone();
    valid.push(add(0, 1));
    assert!(validate_function(&function(valid, Vec::new()), &globals(0), 0));
    let mut itself = arguments.clone();
    itself.push(add(0, 2));
    assert!(!validate_function(&function(itself, Vec::new()), &globals(0), 0));
    let mut later = vec![add(1, 2)];
    later.extend(arguments.clone());
    assert!(!validate_function(&function(later, Vec::new()), &globals(0), 0));
    let mut missing = arguments;
    missing.push(add(0, 7));
    assert!(!validate_function(&function(missing, Vec::new()), &globals(0), 0));
}

#[test]
fn global_variables_must_exist() {
    let fun = function(vec![Expression::GlobalVariable(Handle::new(1))], Vec::new());
    assert!(validate_function(&fun, &globals(2), 0));
    assert!(!validate_function(&fun, &globals(1), 0));
}

#[test]
fn statements_must_name_expressions_of_the_function() {
    let body = |value: usize| {
        vec![Statement::Loop {
            body: vec![Statement::Switch {
                selector: Handle::new(0),
                cases: vec![SwitchCase {
                    value: 1,
                    body: vec![Statement::Block(vec![Statement::Return {
                        value: Some(Handle::new(value)),
                    }])],
                    fall_through: false,
                }],
                default: Vec::new(),
            }],
            continuing: Vec::new(),
        }]
    };
    let expressions = vec![Expression::FunctionArgument(0)];
    assert!(validate_function(
        &function(expressions.clone(), body(0)),
        &globals(0),
        0
    ));
    assert!(!validate_function(
        &function(expressions, body(1)),
        &globals(0),
        0
    ));
}

#[test]
fn called_functions_must_be_analysed_before() {
    let call = |callee: usize| {
        function(
            Vec::new(),
            vec![Statement::Call {
                function: Handle::new(callee),
                arguments: Vec::new(),
                result: None,
            }],
        )
    };
    assert!(validate_function(&call(0), &globals(0), 1));
    assert!(!validate_function(&call(1), &globals(0), 1));
    assert!(validate_module(&module(0, vec![call_free(), call(0)])));
    // a function cannot call itself, nor one that stands after it
    assert!(!validate_module(&module(0, vec![call_free(), call(1)])));
    assert!(!validate_module(&module(0, vec![call(1), call_free()])));
    let by_expression = function(vec![Expression::Call(Handle::new(0))], Vec::new());
    assert!(!validate_module(&module(0, vec![by_expression])));
}

fn call_free() -> Function {
    function(vec![Expression::FunctionArgument(0)], vec![Statement::Kill])
}

#[test]
fn entry_points_may_call_every_function() {
    let mut module = module(0, vec![call_free(), call_free()]);
    let entry = |callee: usize| EntryPoint {
        name: String::from("main"),
        stage: ShaderStage::Compute,
        function: function(
            Vec::new(),
            vec![Statement::Call {
                function: Handle::new(callee),
                arguments: Vec::new(),
                result: None,
            }],
        ),
    };
    module.entry_points.push(entry(1));
    assert!(validate_module(&module));
    assert!(Analysis::new(&module).unwrap().get_entry_point(0).may_kill);
    module.entry_points.push(entry(2));
    assert!(!validate_module(&module));
}

#[test]
fn empty_module_is_valid() {
    assert!(validate_module(&module(0, Vec::new())));
}
