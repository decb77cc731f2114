//! Metal Shading Language (MSL) backend
//!
//! ## Binding model
//!
//! Metal's bindings are flat per resource. Since there isn't an obvious
//! mapping from descriptor sets, we require a separate mapping provided in
//! the options. This mapping may have one or more resource end points for
//! each descriptor set + index pair.
//!
//! ## Outputs
//!
//! In Metal, built-in shader outputs can not be nested into structures
//! within the output struct. If there is a structure in the outputs, and it
//! contains any built-ins, we move them up to the root output structure
//! that we define ourselves.

use crate::arena::Handle;
use crate::ir::{
    BinaryOperator, Binding, BuiltIn, GlobalVariable, SampleLevel, ShaderStage, StorageAccess,
    Type,
};
use std::io::Error as IoError;
use std::string::FromUtf8Error;
use vstd::prelude::*;
use vstd::std_specs::convert::FromSpecImpl;
use vstd::string::StringExecFns;

verus! {

/// The slots that a resource is bound to on the Metal side.
#[derive(Clone, Copy, Debug, PartialEq, Eq, Structural)]
pub struct BindTarget {
    pub buffer: Option<u8>,
    pub texture: Option<u8>,
    pub sampler: Option<u8>,
    pub mutable: bool,
}

impl BindTarget {
    /// The target that binds nothing.
    pub open spec fn none() -> Self {
        BindTarget { buffer: None, texture: None, sampler: None, mutable: false }
    }
}

impl Default for BindTarget {
    fn default() -> (target: Self)
        ensures
            target == BindTarget::none(),
    {
        BindTarget { buffer: None, texture: None, sampler: None, mutable: false }
    }
}

/// The place of a resource on the shader side.
#[derive(Clone, Copy, Debug, Hash, Eq, Ord, PartialEq, PartialOrd)]
pub struct BindSource {
    pub stage: ShaderStage,
    pub group: u32,
    pub binding: u32,
}

/// Returns whether two sources are the same place.
fn same_source(a: &BindSource, b: &BindSource) -> (same: bool)
    ensures
        same == (*a == *b),
{
    let same_stage = match (a.stage, b.stage) {
        (ShaderStage::Vertex, ShaderStage::Vertex) => true,
        (ShaderStage::Fragment, ShaderStage::Fragment) => true,
        (ShaderStage::Compute, ShaderStage::Compute) => true,
        _ => false,
    };
    same_stage && a.group == b.group && a.binding == b.binding
}

/// The target that the first entry for `source` among `entries` gives.
pub open spec fn lookup(entries: Seq<(BindSource, BindTarget)>, source: BindSource) -> Option<
    BindTarget,
>
    decreases entries.len(),
{
    if entries.len() == 0 {
        None
    } else if entries[0].0 == source {
        Some(entries[0].1)
    } else {
        lookup(entries.drop_first(), source)
    }
}

/// Binding model mapping to Metal: for each place on the shader side, the
/// slots on the Metal side.
#[derive(Debug)]
pub struct BindingMap {
    entries: Vec<(BindSource, BindTarget)>,
}

impl View for BindingMap {
    type V = Map<BindSource, BindTarget>;

    closed spec fn view(&self) -> Map<BindSource, BindTarget> {
        Map::new(
            |source: BindSource| lookup(self.entries@, source) is Some,
            |source: BindSource| lookup(self.entries@, source)->0,
        )
    }
}

/// Looking a source up among entries of which one was replaced or to
/// which one was added.
proof fn lemma_lookup_update(
    entries: Seq<(BindSource, BindTarget)>,
    position: int,
    source: BindSource,
    target: BindTarget,
    other: BindSource,
)
    requires
        0 <= position <= entries.len(),
        forall|i: int| 0 <= i < position ==> (#[trigger] entries[i]).0 != source,
        position < entries.len() ==> entries[position].0 == source,
    ensures
        lookup(
            if position < entries.len() {
                entries.update(position, (source, target))
            } else {
                entries.push((source, target))
            },
            other,
        ) == if other == source {
            Some(target)
        } else {
            lookup(entries, other)
        },
    decreases entries.len(),
{
    reveal_with_fuel(lookup, 2);
    let updated = if position < entries.len() {
        entries.update(position, (source, target))
    } else {
        entries.push((source, target))
    };
    if entries.len() == 0 {
        assert(updated.drop_first() =~= Seq::<(BindSource, BindTarget)>::empty());
    } else if position == 0 {
        assert(updated.drop_first() =~= entries.drop_first());
    } else {
        let rest = entries.drop_first();
        assert(entries[0].0 != source);
        assert forall|i: int| 0 <= i < position - 1 implies (#[trigger] rest[i]).0 != source by {
            assert(rest[i] == entries[i + 1]);
        }
        lemma_lookup_update(rest, position - 1, source, target, other);
        if position < entries.len() {
            assert(updated.drop_first() =~= rest.update(position - 1, (source, target)));
        } else {
            assert(updated.drop_first() =~= rest.push((source, target)));
        }
    }
}

/// Looking up a source that none of the entries is for finds nothing.
proof fn lemma_lookup_absent(entries: Seq<(BindSource, BindTarget)>, source: BindSource)
    requires
        forall|i: int| 0 <= i < entries.len() ==> (#[trigger] entries[i]).0 != source,
    ensures
        lookup(entries, source) is None,
    decreases entries.len(),
{
    if entries.len() > 0 {
        let rest = entries.drop_first();
        assert(entries[0].0 != source);
        assert forall|i: int| 0 <= i < rest.len() implies (#[trigger] rest[i]).0 != source by {
            assert(rest[i] == entries[i + 1]);
        }
        lemma_lookup_absent(rest, source);
    }
}

/// Looking up a source finds the first entry that is for it.
proof fn lemma_lookup_found(
    entries: Seq<(BindSource, BindTarget)>,
    position: int,
    source: BindSource,
)
    requires
        0 <= position < entries.len(),
        forall|i: int| 0 <= i < position ==> (#[trigger] entries[i]).0 != source,
        entries[position].0 == source,
    ensures
        lookup(entries, source) == Some(entries[position].1),
    decreases entries.len(),
{
    if position > 0 {
        let rest = entries.drop_first();
        assert(entries[0].0 != source);
        assert forall|i: int| 0 <= i < position - 1 implies (#[trigger] rest[i]).0 != source by {
            assert(rest[i] == entries[i + 1]);
        }
        lemma_lookup_found(rest, position - 1, source);
    }
}

impl BindingMap {
    /// Creates an empty map.
    pub fn new() -> (map: Self)
        ensures
            map@ == Map::<BindSource, BindTarget>::empty(),
    {
        let map = BindingMap { entries: Vec::new() };
        assert(map@ =~= Map::<BindSource, BindTarget>::empty());
        map
    }

    /// Returns the position of the first entry for `source`, or the number
    /// of entries if there is none.
    fn position(&self, source: &BindSource) -> (position: usize)
        ensures
            position <= self.entries@.len(),
            forall|i: int| 0 <= i < position ==> (#[trigger] self.entries@[i]).0 != *source,
            position < self.entries@.len() ==> self.entries@[position as int].0 == *source,
    {
        let mut i: usize = 0;
        while i < self.entries.len()
            invariant
                i <= self.entries@.len(),
                forall|j: int| 0 <= j < i ==> (#[trigger] self.entries@[j]).0 != *source,
            decreases self.entries@.len() - i,
        {
            if same_source(&self.entries[i].0, source) {
                return i;
            }
            i = i + 1;
        }
        i
    }

    /// Returns the target that `source` is mapped to, if any.
    pub fn get(&self, source: &BindSource) -> (target: Option<&BindTarget>)
        ensures
            match target {
                Some(target) => self@.contains_key(*source) && self@[*source] == *target,
                None => !self@.contains_key(*source),
            },
    {
        let position = self.position(source);
        if position < self.entries.len() {
            proof {
                lemma_lookup_found(self.entries@, position as int, *source);
            }
            Some(&self.entries[position].1)
        } else {
            proof {
                lemma_lookup_absent(self.entries@, *source);
            }
            None
        }
    }

    /// Maps `source` to `target`, and returns the target that it was
    /// mapped to before, if any.
    pub fn insert(&mut self, source: BindSource, target: BindTarget) -> (previous: Option<
        BindTarget,
    >)
        ensures
            final(self)@ == old(self)@.insert(source, target),
            previous == if old(self)@.contains_key(source) {
                Some(old(self)@[source])
            } else {
                None
            },
    {
        let position = self.position(&source);
        proof {
            assert forall|other: BindSource|
                lookup(
                    if position < self.entries@.len() {
                        self.entries@.update(position as int, (source, target))
                    } else {
                        self.entries@.push((source, target))
                    },
                    other,
                ) == if other == source {
                    Some(target)
                } else {
                    #[trigger] lookup(self.entries@, other)
                } by {
                lemma_lookup_update(self.entries@, position as int, source, target, other);
            }
        }
        if position < self.entries.len() {
            proof {
                lemma_lookup_found(self.entries@, position as int, source);
            }
            let previous = self.entries[position].1;
            self.entries[position] = (source, target);
            assert(self@ =~= old(self)@.insert(source, target));
            Some(previous)
        } else {
            proof {
                lemma_lookup_absent(self.entries@, source);
            }
            self.entries.push((source, target));
            assert(self@ =~= old(self)@.insert(source, target));
            None
        }
    }
}

impl Clone for BindingMap {
    fn clone(&self) -> (map: Self)
        ensures
            map@ == self@,
    {
        let mut entries: Vec<(BindSource, BindTarget)> = Vec::new();
        let mut i: usize = 0;
        while i < self.entries.len()
            invariant
                i <= self.entries@.len(),
                entries@ == self.entries@.take(i as int),
            decreases self.entries@.len() - i,
        {
            let entry = (self.entries[i].0, self.entries[i].1);
            entries.push(entry);
            assert(self.entries@.take(i + 1) =~= self.entries@.take(i as int).push(
                self.entries@[i as int],
            ));
            i = i + 1;
        }
        assert(self.entries@.take(i as int) =~= self.entries@);
        BindingMap { entries }
    }
}

impl Default for BindingMap {
    fn default() -> (map: Self)
        ensures
            map@ == Map::<BindSource, BindTarget>::empty(),
    {
        BindingMap::new()
    }
}

/// What a shader variable resolves to in Metal.
#[derive(Clone, Copy, Debug, PartialEq)]
pub enum ResolvedBinding {
    BuiltIn(BuiltIn),
    Attribute(u32),
    Color(u32),
    User { prefix: &'static str, index: u32 },
    Resource(BindTarget),
}

/// The error of an input or output operation, `std::io::Error`. Such a
/// value is only carried; nothing is assumed of what it holds.
#[verifier::external_type_specification]
#[verifier::external_body]
pub struct ExIoError(std::io::Error);

/// The error of turning bytes into a string,
/// `std::string::FromUtf8Error`. Such a value is only carried; nothing is
/// assumed of what it holds.
#[verifier::external_type_specification]
#[verifier::external_body]
pub struct ExFromUtf8Error(std::string::FromUtf8Error);

/// The reason for which a module could not be written.
// Note: some of these should be removed in favor of proper IR validation.
#[derive(Debug)]
pub enum Error {
    IO(IoError),
    Utf8(FromUtf8Error),
    MissingBindTarget(BindSource),
    InvalidImageAccess(StorageAccess),
    BadName(String),
    UnimplementedBindTarget(BindTarget),
    UnsupportedCompose(Handle<Type>),
    UnsupportedBinaryOp(BinaryOperator),
    UnexpectedSampleLevel(SampleLevel),
    UnsupportedCall(String),
    UnsupportedDynamicArrayLength,
    FeatureNotImplemented(String),
    /// The source IR is not valid.
    Validation,
}

impl From<IoError> for Error {
    fn from(e: IoError) -> (error: Self) {
        Error::IO(e)
    }
}

impl FromSpecImpl<IoError> for Error {
    open spec fn obeys_from_spec() -> bool {
        true
    }

    open spec fn from_spec(e: IoError) -> Self {
        Error::IO(e)
    }
}

impl From<FromUtf8Error> for Error {
    fn from(e: FromUtf8Error) -> (error: Self) {
        Error::Utf8(e)
    }
}

impl FromSpecImpl<FromUtf8Error> for Error {
    open spec fn obeys_from_spec() -> bool {
        true
    }

    open spec fn from_spec(e: FromUtf8Error) -> Self {
        Error::Utf8(e)
    }
}

/// The role in which a variable with a location is bound.
#[derive(Clone, Copy, Debug)]
pub enum LocationMode {
    VertexInput,
    FragmentOutput,
    Intermediate,
    Uniform,
}

/// How a module is to be written.
#[derive(Debug)]
pub struct Options {
    /// (Major, Minor) target version of the Metal Shading Language.
    pub lang_version: (u8, u8),
    /// Make it possible to link different stages via SPIRV-Cross.
    pub spirv_cross_compatibility: bool,
    /// Binding model mapping to Metal.
    pub binding_map: BindingMap,
}

impl Clone for Options {
    fn clone(&self) -> (options: Self)
        ensures
            options.lang_version == self.lang_version,
            options.spirv_cross_compatibility == self.spirv_cross_compatibility,
            options.binding_map@ == self.binding_map@,
    {
        Options {
            lang_version: self.lang_version,
            spirv_cross_compatibility: self.spirv_cross_compatibility,
            binding_map: self.binding_map.clone(),
        }
    }
}

impl Default for Options {
    fn default() -> (options: Self)
        ensures
            options.lang_version == (1u8, 0u8),
            !options.spirv_cross_compatibility,
            options.binding_map@ == Map::<BindSource, BindTarget>::empty(),
    {
        Options {
            lang_version: (1, 0),
            spirv_cross_compatibility: false,
            binding_map: BindingMap::default(),
        }
    }
}

impl Options {
    /// What the variable with the binding `binding` resolves to, in the
    /// stage `stage` and the role `mode`.
    ///
    /// A built-in resolves to itself. A location resolves to a vertex
    /// attribute, a color attachment or a user attribute, by the role; in
    /// the role of a uniform it is not valid. A resource resolves to the
    /// target that the binding map gives for its place, or to the target
    /// that binds nothing where the map gives none. A variable without a
    /// binding is not valid.
    pub open spec fn resolved(
        &self,
        stage: ShaderStage,
        binding: Option<Binding>,
        mode: LocationMode,
    ) -> Option<ResolvedBinding> {
        match binding {
            Some(Binding::BuiltIn(built_in)) => Some(ResolvedBinding::BuiltIn(built_in)),
            Some(Binding::Location(index)) => match mode {
                LocationMode::VertexInput => Some(ResolvedBinding::Attribute(index)),
                LocationMode::FragmentOutput => Some(ResolvedBinding::Color(index)),
                LocationMode::Intermediate => Some(
                    ResolvedBinding::User {
                        prefix: if self.spirv_cross_compatibility {
                            "locn"
                        } else {
                            "loc"
                        },
                        index,
                    },
                ),
                LocationMode::Uniform => None,
            },
            Some(Binding::Resource { group, binding }) => {
                let source = BindSource { stage, group, binding };
                Some(
                    ResolvedBinding::Resource(
                        if self.binding_map@.contains_key(source) {
                            self.binding_map@[source]
                        } else {
                            BindTarget::none()
                        },
                    ),
                )
            },
            None => None,
        }
    }

    /// Resolves the binding of a global variable for the stage `stage`
    /// and the role `mode`. Fails with [`Error::Validation`] where the
    /// variable has no binding, or has a location in the role of a
    /// uniform.
    pub fn resolve_binding(&self, stage: ShaderStage, var: &GlobalVariable, mode: LocationMode) -> (result:
        Result<ResolvedBinding, Error>)
        ensures
            match self.resolved(stage, var.binding, mode) {
                Some(resolved) => result == Ok::<ResolvedBinding, Error>(resolved),
                None => result == Err::<ResolvedBinding, Error>(Error::Validation),
            },
    {
        match var.binding {
            Some(Binding::BuiltIn(built_in)) => Ok(ResolvedBinding::BuiltIn(built_in)),
            Some(Binding::Location(index)) => match mode {
                LocationMode::VertexInput => Ok(ResolvedBinding::Attribute(index)),
                LocationMode::FragmentOutput => Ok(ResolvedBinding::Color(index)),
                LocationMode::Intermediate => Ok(
                    ResolvedBinding::User {
                        prefix: if self.spirv_cross_compatibility {
                            "locn"
                        } else {
                            "loc"
                        },
                        index,
                    },
                ),
                LocationMode::Uniform => Err(Error::Validation),
            },
            Some(Binding::Resource { group, binding }) => {
                let source = BindSource { stage, group, binding };
                let target = match self.binding_map.get(&source) {
                    Some(target) => *target,
                    None => BindTarget::default(),
                };
                Ok(ResolvedBinding::Resource(target))
            },
            None => Err(Error::Validation),
        }
    }
}

/// The character that stands for a digit.
pub open spec fn digit_char(digit: int) -> char {
    if digit == 0 {
        '0'
    } else if digit == 1 {
        '1'
    } else if digit == 2 {
        '2'
    } else if digit == 3 {
        '3'
    } else if digit == 4 {
        '4'
    } else if digit == 5 {
        '5'
    } else if digit == 6 {
        '6'
    } else if digit == 7 {
        '7'
    } else if digit == 8 {
        '8'
    } else {
        '9'
    }
}

/// The decimal numeral of a number, without leading zeros.
pub open spec fn decimal_text(number: nat) -> Seq<char>
    decreases number,
{
    if number < 10 {
        seq![digit_char(number as int)]
    } else {
        decimal_text(number / 10).push(digit_char((number % 10) as int))
    }
}

/// The Metal name of a built-in.
pub open spec fn built_in_name(built_in: BuiltIn) -> Seq<char> {
    match built_in {
        // vertex
        BuiltIn::BaseInstance => "base_instance"@,
        BuiltIn::BaseVertex => "base_vertex"@,
        BuiltIn::ClipDistance => "clip_distance"@,
        BuiltIn::InstanceIndex => "instance_id"@,
        BuiltIn::PointSize => "point_size"@,
        BuiltIn::Position => "position"@,
        BuiltIn::VertexIndex => "vertex_id"@,
        // fragment
        BuiltIn::FragCoord => "position"@,
        BuiltIn::FragDepth => "depth(any)"@,
        BuiltIn::FrontFacing => "front_facing"@,
        BuiltIn::SampleIndex => "sample_id"@,
        BuiltIn::SampleMaskIn => "sample_mask"@,
        BuiltIn::SampleMaskOut => "sample_mask"@,
        // compute
        BuiltIn::GlobalInvocationId => "thread_position_in_grid"@,
        BuiltIn::LocalInvocationId => "thread_position_in_threadgroup"@,
        BuiltIn::LocalInvocationIndex => "thread_index_in_threadgroup"@,
        BuiltIn::WorkGroupId => "threadgroup_position_in_grid"@,
        BuiltIn::WorkGroupSize => "dispatch_threads_per_threadgroup"@,
    }
}

/// A name followed by a number in round brackets.
pub open spec fn slot_text(name: Seq<char>, number: nat) -> Seq<char> {
    name + "("@ + decimal_text(number) + ")"@
}

impl ResolvedBinding {
    /// The attribute that stands for the binding in Metal source text.
    ///
    /// Of the slots of a resource the first one that is set, in the order
    /// buffer, texture, sampler, is named; a resource that binds nothing
    /// is `unknown`.
    pub open spec fn text(self) -> Seq<char> {
        match self {
            ResolvedBinding::BuiltIn(built_in) => built_in_name(built_in),
            ResolvedBinding::Attribute(index) => slot_text("attribute"@, index as nat),
            ResolvedBinding::Color(index) => slot_text("color"@, index as nat),
            ResolvedBinding::User { prefix, index } => "user("@ + prefix@ + decimal_text(
                index as nat,
            ) + ")"@,
            ResolvedBinding::Resource(target) => match target.buffer {
                Some(id) => slot_text("buffer"@, id as nat),
                None => match target.texture {
                    Some(id) => slot_text("texture"@, id as nat),
                    None => match target.sampler {
                        Some(id) => slot_text("sampler"@, id as nat),
                        None => "unknown"@,
                    },
                },
            },
        }
    }

    /// The attribute in double square brackets, after a space and before
    /// `terminator`.
    pub open spec fn decorated_text(self, terminator: Seq<char>) -> Seq<char> {
        " [["@ + self.text() + "]]"@ + terminator
    }

    /// Returns the attribute that stands for the binding in Metal source
    /// text.
    pub fn try_fmt(&self) -> (text: String)
        ensures
            text@ == self.text(),
    {
        match *self {
            ResolvedBinding::BuiltIn(built_in) => {
                let name = match built_in {
                    // vertex
                    BuiltIn::BaseInstance => "base_instance",
                    BuiltIn::BaseVertex => "base_vertex",
                    BuiltIn::ClipDistance => "clip_distance",
                    BuiltIn::InstanceIndex => "instance_id",
                    BuiltIn::PointSize => "point_size",
                    BuiltIn::Position => "position",
                    BuiltIn::VertexIndex => "vertex_id",
                    // fragment
                    BuiltIn::FragCoord => "position",
                    BuiltIn::FragDepth => "depth(any)",
                    BuiltIn::FrontFacing => "front_facing",
                    BuiltIn::SampleIndex => "sample_id",
                    BuiltIn::SampleMaskIn => "sample_mask",
                    BuiltIn::SampleMaskOut => "sample_mask",
                    // compute
                    BuiltIn::GlobalInvocationId => "thread_position_in_grid",
                    BuiltIn::LocalInvocationId => "thread_position_in_threadgroup",
                    BuiltIn::LocalInvocationIndex => "thread_index_in_threadgroup",
                    BuiltIn::WorkGroupId => "threadgroup_position_in_grid",
                    BuiltIn::WorkGroupSize => "dispatch_threads_per_threadgroup",
                };
                String::from_str(name)
            },
            ResolvedBinding::Attribute(index) => slot("attribute", index),
            ResolvedBinding::Color(index) => slot("color", index),
            ResolvedBinding::User { prefix, index } => {
                let mut text = String::from_str("user(");
                text.append(prefix);
                let number = decimal(index);
                text.append(number.as_str());
                text.append(")");
                text
            },
            ResolvedBinding::Resource(target) => {
                if let Some(id) = target.buffer {
                    slot("buffer", id as u32)
                } else if let Some(id) = target.texture {
                    slot("texture", id as u32)
                } else if let Some(id) = target.sampler {
                    slot("sampler", id as u32)
                } else {
                    String::from_str("unknown")
                }
            },
        }
    }

    /// Returns the attribute in double square brackets, after a space and
    /// before `terminator`.
    pub fn try_fmt_decorated(&self, terminator: &str) -> (text: String)
        ensures
            text@ == self.decorated_text(terminator@),
    {
        let mut text = String::from_str(" [[");
        let inner = self.try_fmt();
        text.append(inner.as_str());
        text.append("]]");
        text.append(terminator);
        text
    }
}

/// Returns the text of a digit.
fn digit_str(digit: u32) -> (text: &'static str)
    requires
        digit < 10,
    ensures
        text@ == seq![digit_char(digit as int)],
{
    proof {
        reveal_strlit("0");
        reveal_strlit("1");
        reveal_strlit("2");
        reveal_strlit("3");
        reveal_strlit("4");
        reveal_strlit("5");
        reveal_strlit("6");
        reveal_strlit("7");
        reveal_strlit("8");
        reveal_strlit("9");
    }
    let text = if digit == 0 {
        "0"
    } else if digit == 1 {
        "1"
    } else if digit == 2 {
        "2"
    } else if digit == 3 {
        "3"
    } else if digit == 4 {
        "4"
    } else if digit == 5 {
        "5"
    } else if digit == 6 {
        "6"
    } else if digit == 7 {
        "7"
    } else if digit == 8 {
        "8"
    } else {
        "9"
    };
    assert(text@ =~= seq![digit_char(digit as int)]);
    text
}

/// Returns the decimal numeral of a number, without leading zeros.
pub fn decimal(number: u32) -> (text: String)
    ensures
        text@ == decimal_text(number as nat),
    decreases number,
{
    if number < 10 {
        String::from_str(digit_str(number))
    } else {
        let mut text = decimal(number / 10);
        text.append(digit_str(number % 10));
        assert(text@ =~= decimal_text(number as nat));
        text
    }
}

/// Returns `name` followed by `number` in round brackets.
fn slot(name: &str, number: u32) -> (text: String)
    ensures
        text@ == slot_text(name@, number as nat),
{
    let mut text = String::from_str(name);
    text.append("(");
    let numeral = decimal(number);
    text.append(numeral.as_str());
    text.append(")");
    text
}

/// Information about a written module that is required
/// for the use of the result.
#[derive(Debug)]
pub struct TranslationInfo {
    /// Mapping of the entry point names. Each item in the array
    /// corresponds to an entry point of the module, in their order.
    pub entry_point_names: Vec<String>,
}

} // verus!
