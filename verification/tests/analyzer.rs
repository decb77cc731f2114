use shader_analysis::analyzer::{
    AnalysisError, ExitFlags, FunctionInfo, GlobalUse, Uniformity, UniformityDisruptor,
};
use shader_analysis::arena::{Arena, Handle};
use shader_analysis::ir::{
    Binding, BuiltIn, Constant, ConstantInner, DerivativeAxis, Expression, GlobalVariable,
    Interpolation, ScalarKind, ScalarValue, Statement, StorageAccess, StorageClass, Type,
    TypeInner,
};

#[test]
fn uniform_control_flow() {
    let mut constant_arena = Arena::new();
    let constant = constant_arena.append(Constant {
        name: None,
        specialization: None,
        inner: ConstantInner::Scalar {
            width: 4,
            value: ScalarValue::Uint(0),
        },
    });
    let mut type_arena = Arena::new();
    let ty = type_arena.append(Type {
        name: None,
        inner: TypeInner::Scalar {
            kind: ScalarKind::Float,
            width: 4,
        },
    });
    let mut global_var_arena = Arena::new();
    let non_uniform_global = global_var_arena.append(GlobalVariable {
        name: None,
        init: None,
        ty,
        binding: Some(Binding::BuiltIn(BuiltIn::VertexIndex)),
        class: StorageClass::Input,
        interpolation: None,
        storage_access: StorageAccess::empty(),
    });
    let uniform_global = global_var_arena.append(GlobalVariable {
        name: None,
        init: None,
        ty,
        binding: Some(Binding::Location(0)),
        class: StorageClass::Input,
        interpolation: Some(Interpolation::Flat),
        storage_access: StorageAccess::empty(),
    });

    let mut expressions = Arena::new();
    // checks the uniform control flow
    let constant_expr = expressions.append(Expression::Constant(constant));
    // checks the non-uniform control flow
    let derivative_expr = expressions.append(Expression::Derivative {
        axis: DerivativeAxis::X,
        expr: constant_expr,
    });
    let non_uniform_global_expr =
        expressions.append(Expression::GlobalVariable(non_uniform_global));
    let uniform_global_expr = expressions.append(Expression::GlobalVariable(uniform_global));
    // checks the QUERY flag
    let query_expr = expressions.append(Expression::ArrayLength(uniform_global_expr));
    // checks the transitive WRITE flag
    let access_expr = expressions.append(Expression::AccessIndex {
        base: non_uniform_global_expr,
        index: 1,
    });

    let mut info = FunctionInfo::new(global_var_arena.len(), expressions.len());
    for index in 0..expressions.len() {
        info.process_expression(Handle::new(index), &expressions, &global_var_arena, &[])
            .unwrap();
    }
    assert_eq!(info[non_uniform_global_expr].ref_count, 1);
    assert_eq!(info[uniform_global_expr].ref_count, 1);
    assert_eq!(info[query_expr].ref_count, 0);
    assert_eq!(info[access_expr].ref_count, 0);
    assert_eq!(info[non_uniform_global], GlobalUse::empty());
    assert_eq!(info[uniform_global], GlobalUse::query());

    let stmt_if_uniform = Statement::If {
        condition: uniform_global_expr,
        accept: Vec::new(),
        reject: vec![Statement::Store {
            pointer: constant_expr,
            value: derivative_expr,
        }],
    };
    assert_eq!(
        info.process_block(&[stmt_if_uniform], &[], None),
        Ok((
            Uniformity::require_uniform(derivative_expr),
            ExitFlags::empty()
        )),
    );
    assert_eq!(info[constant_expr].ref_count, 2);
    assert_eq!(info[uniform_global], GlobalUse::read() | GlobalUse::query());

    let stmt_if_non_uniform = Statement::If {
        condition: non_uniform_global_expr,
        accept: vec![Statement::Store {
            pointer: constant_expr,
            value: derivative_expr,
        }],
        reject: Vec::new(),
    };
    assert_eq!(
        info.process_block(&[stmt_if_non_uniform], &[], None),
        Err(AnalysisError::NonUniformControlFlow(
            derivative_expr,
            UniformityDisruptor::Expression(non_uniform_global_expr)
        )),
    );
    assert_eq!(info[derivative_expr].ref_count, 2);
    assert_eq!(info[non_uniform_global], GlobalUse::read());

    let stmt_return_non_uniform = Statement::Return {
        value: Some(non_uniform_global_expr),
    };
    assert_eq!(
        info.process_block(
            &[stmt_return_non_uniform],
            &[],
            Some(UniformityDisruptor::Return)
        ),
        Ok((
            Uniformity::non_uniform_result(non_uniform_global_expr),
            ExitFlags::may_return()
        )),
    );
    assert_eq!(info[non_uniform_global_expr].ref_count, 3);

    let stmt_assign = Statement::Store {
        pointer: access_expr,
        value: query_expr,
    };
    assert_eq!(
        info.process_block(&[stmt_assign], &[], Some(UniformityDisruptor::Kill)),
        Ok((
            Uniformity::non_uniform_result(non_uniform_global_expr),
            ExitFlags::empty()
        )),
    );
    assert_eq!(info[non_uniform_global], GlobalUse::read() | GlobalUse::write());
}
