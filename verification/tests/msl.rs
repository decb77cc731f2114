use shader_analysis::arena::Handle;
use shader_analysis::back::msl::{
    decimal, BindSource, BindTarget, BindingMap, Error, LocationMode, Options, ResolvedBinding,
};
use shader_analysis::ir::{
    Binding, BuiltIn, GlobalVariable, ShaderStage, StorageAccess, StorageClass,
};

fn variable(binding: Option<Binding>) -> GlobalVariable {
    GlobalVariable {
        name: None,
        class: StorageClass::Uniform,
        binding,
        ty: Handle::new(0),
        init: None,
        interpolation: None,
        storage_access: StorageAccess::empty(),
    }
}

#[test]
fn decimal_numerals() {
    assert_eq!(decimal(0), "0");
    assert_eq!(decimal(7), "7");
    assert_eq!(decimal(10), "10");
    assert_eq!(decimal(109), "109");
    assert_eq!(decimal(4294967295), "4294967295");
}

#[test]
fn options_default() {
    let options = Options::default();
    assert_eq!(options.lang_version, (1, 0));
    assert!(!options.spirv_cross_compatibility);
    let source = BindSource {
        stage: ShaderStage::Vertex,
        group: 0,
        binding: 0,
    };
    assert_eq!(options.binding_map.get(&source), None);
}

#[test]
fn bind_target_default_binds_nothing() {
    assert_eq!(
        BindTarget::default(),
        BindTarget {
            buffer: None,
            texture: None,
            sampler: None,
            mutable: false,
        }
    );
}

#[test]
fn binding_map_insert_and_get() {
    let mut map = BindingMap::new();
    let vertex = BindSource {
        stage: ShaderStage::Vertex,
        group: 1,
        binding: 2,
    };
    let fragment = BindSource {
        stage: ShaderStage::Fragment,
        group: 1,
        binding: 2,
    };
    let first = BindTarget {
        buffer: Some(3),
        texture: None,
        sampler: None,
        mutable: true,
    };
    let second = BindTarget {
        buffer: None,
        texture: Some(4),
        sampler: None,
        mutable: false,
    };
    assert_eq!(map.insert(vertex, first), None);
    assert_eq!(map.get(&vertex), Some(&first));
    assert_eq!(map.get(&fragment), None);
    assert_eq!(map.insert(fragment, second), None);
    assert_eq!(map.insert(vertex, second), Some(first));
    assert_eq!(map.get(&vertex), Some(&second));
    assert_eq!(map.get(&fragment), Some(&second));
    let copy = map.clone();
    assert_eq!(copy.get(&vertex), Some(&second));
}

#[test]
fn resolve_built_in() {
    let options = Options::default();
    let var = variable(Some(Binding::BuiltIn(BuiltIn::FragDepth)));
    let resolved = options
        .resolve_binding(ShaderStage::Fragment, &var, LocationMode::Uniform)
        .unwrap();
    assert_eq!(resolved, ResolvedBinding::BuiltIn(BuiltIn::FragDepth));
}

#[test]
fn resolve_location_by_mode() {
    let mut options = Options::default();
    let var = variable(Some(Binding::Location(5)));
    assert_eq!(
        options
            .resolve_binding(ShaderStage::Vertex, &var, LocationMode::VertexInput)
            .unwrap(),
        ResolvedBinding::Attribute(5)
    );
    assert_eq!(
        options
            .resolve_binding(ShaderStage::Fragment, &var, LocationMode::FragmentOutput)
            .unwrap(),
        ResolvedBinding::Color(5)
    );
    assert_eq!(
        options
            .resolve_binding(ShaderStage::Vertex, &var, LocationMode::Intermediate)
            .unwrap(),
        ResolvedBinding::User {
            prefix: "loc",
            index: 5
        }
    );
    options.spirv_cross_compatibility = true;
    assert_eq!(
        options
            .resolve_binding(ShaderStage::Vertex, &var, LocationMode::Intermediate)
            .unwrap(),
        ResolvedBinding::User {
            prefix: "locn",
            index: 5
        }
    );
}

#[test]
fn resolve_location_as_uniform_is_not_valid() {
    let options = Options::default();
    let var = variable(Some(Binding::Location(5)));
    let result = options.resolve_binding(ShaderStage::Vertex, &var, LocationMode::Uniform);
    assert!(matches!(result, Err(Error::Validation)));
}

#[test]
fn resolve_missing_binding_is_not_valid() {
    let options = Options::default();
    let var = variable(None);
    let result = options.resolve_binding(ShaderStage::Compute, &var, LocationMode::Uniform);
    assert!(matches!(result, Err(Error::Validation)));
}

#[test]
fn resolve_resource_through_the_map() {
    let mut options = Options::default();
    let target = BindTarget {
        buffer: Some(9),
        texture: None,
        sampler: None,
        mutable: false,
    };
    options.binding_map.insert(
        BindSource {
            stage: ShaderStage::Compute,
            group: 0,
            binding: 3,
        },
        target,
    );
    let var = variable(Some(Binding::Resource {
        group: 0,
        binding: 3,
    }));
    assert_eq!(
        options
            .resolve_binding(ShaderStage::Compute, &var, LocationMode::Uniform)
            .unwrap(),
        ResolvedBinding::Resource(target)
    );
    // another stage has no entry: the target that binds nothing
    assert_eq!(
        options
            .resolve_binding(ShaderStage::Vertex, &var, LocationMode::Uniform)
            .unwrap(),
        ResolvedBinding::Resource(BindTarget::default())
    );
}

#[test]
fn format_built_ins() {
    let names = [
        (BuiltIn::BaseInstance, "base_instance"),
        (BuiltIn::BaseVertex, "base_vertex"),
        (BuiltIn::ClipDistance, "clip_distance"),
        (BuiltIn::InstanceIndex, "instance_id"),
        (BuiltIn::PointSize, "point_size"),
        (BuiltIn::Position, "position"),
        (BuiltIn::VertexIndex, "vertex_id"),
        (BuiltIn::FragCoord, "position"),
        (BuiltIn::FragDepth, "depth(any)"),
        (BuiltIn::FrontFacing, "front_facing"),
        (BuiltIn::SampleIndex, "sample_id"),
        (BuiltIn::SampleMaskIn, "sample_mask"),
        (BuiltIn::SampleMaskOut, "sample_mask"),
        (BuiltIn::GlobalInvocationId, "thread_position_in_grid"),
        (BuiltIn::LocalInvocationId, "thread_position_in_threadgroup"),
        (BuiltIn::LocalInvocationIndex, "thread_index_in_threadgroup"),
        (BuiltIn::WorkGroupId, "threadgroup_position_in_grid"),
        (BuiltIn::WorkGroupSize, "dispatch_threads_per_threadgroup"),
    ];
    for (built_in, name) in names {
        assert_eq!(ResolvedBinding::BuiltIn(built_in).try_fmt(), name);
    }
}

#[test]
fn format_locations() {
    assert_eq!(ResolvedBinding::Attribute(3).try_fmt(), "attribute(3)");
    assert_eq!(ResolvedBinding::Color(0).try_fmt(), "color(0)");
    assert_eq!(
        ResolvedBinding::User {
            prefix: "loc",
            index: 5
        }
        .try_fmt(),
        "user(loc5)"
    );
    assert_eq!(
        ResolvedBinding::User {
            prefix: "locn",
            index: 12
        }
        .try_fmt(),
        "user(locn12)"
    );
}

#[test]
fn format_resources() {
    let mut target = BindTarget {
        buffer: Some(7),
        texture: Some(2),
        sampler: Some(255),
        mutable: false,
    };
    assert_eq!(ResolvedBinding::Resource(target).try_fmt(), "buffer(7)");
    target.buffer = None;
    assert_eq!(ResolvedBinding::Resource(target).try_fmt(), "texture(2)");
    target.texture = None;
    assert_eq!(ResolvedBinding::Resource(target).try_fmt(), "sampler(255)");
    target.sampler = None;
    assert_eq!(ResolvedBinding::Resource(target).try_fmt(), "unknown");
}

#[test]
fn format_decorated() {
    assert_eq!(
        ResolvedBinding::BuiltIn(BuiltIn::Position).try_fmt_decorated(";"),
        " [[position]];"
    );
    assert_eq!(
        ResolvedBinding::Attribute(10).try_fmt_decorated(""),
        " [[attribute(10)]]"
    );
    assert_eq!(
        ResolvedBinding::Resource(BindTarget::default()).try_fmt_decorated(",\n"),
        " [[unknown]],\n"
    );
}
