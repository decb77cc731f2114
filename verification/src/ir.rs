//! The intermediate representation that the analysis consumes.
//!
//! A [`Module`] owns arenas of types, constants, global variables and
//! functions, plus a list of entry points. Everything refers to everything
//! else through [`Handle`]s.

use crate::arena::{Arena, Handle, Range};
use std::ops::BitOr;
use vstd::prelude::*;
use vstd::std_specs::ops::BitOrSpecImpl;

verus! {

/// Stage of the programmable pipeline.
#[derive(Clone, Copy, Debug, Hash, Eq, Ord, PartialEq, PartialOrd)]
pub enum ShaderStage {
    Vertex,
    Fragment,
    Compute,
}

/// Class of storage for variables.
#[derive(Clone, Copy, Debug, Hash, Eq, Ord, PartialEq, PartialOrd)]
pub enum StorageClass {
    /// Function locals.
    Function,
    /// Pipeline input, per invocation.
    Input,
    /// Pipeline output, per invocation, mutable.
    Output,
    /// Private data, per invocation, mutable.
    Private,
    /// Workgroup shared data, mutable.
    WorkGroup,
    /// Uniform buffer data.
    Uniform,
    /// Storage buffer data, potentially mutable.
    Storage,
    /// Opaque handles, such as samplers and images.
    Handle,
    /// Push constants.
    PushConstant,
}

/// Built-in inputs and outputs.
#[derive(Clone, Copy, Debug, Hash, Eq, Ord, PartialEq, PartialOrd)]
pub enum BuiltIn {
    // vertex
    BaseInstance,
    BaseVertex,
    ClipDistance,
    InstanceIndex,
    PointSize,
    Position,
    VertexIndex,
    // fragment
    FragCoord,
    FragDepth,
    FrontFacing,
    SampleIndex,
    SampleMaskIn,
    SampleMaskOut,
    // compute
    GlobalInvocationId,
    LocalInvocationId,
    LocalInvocationIndex,
    WorkGroupId,
    WorkGroupSize,
}

/// The interpolation qualifier of a binding or struct field.
#[derive(Clone, Copy, Debug, Hash, Eq, Ord, PartialEq, PartialOrd)]
pub enum Interpolation {
    /// The value will be interpolated in a perspective-correct fashion.
    Perspective,
    /// Indicates that linear, non-perspective, correct interpolation must be
    /// used.
    Linear,
    /// Indicates that no interpolation will be performed.
    Flat,
    /// Indicates a tessellation patch.
    Patch,
    /// Interpolated at the centroid of the covered samples.
    Centroid,
    /// Interpolated per sample.
    Sample,
}

/// Primitive type for a scalar.
#[derive(Clone, Copy, Debug, Hash, Eq, Ord, PartialEq, PartialOrd)]
pub enum ScalarKind {
    /// Signed integer type.
    Sint,
    /// Unsigned integer type.
    Uint,
    /// Floating point type.
    Float,
    /// Boolean type.
    Bool,
}

/// Number of components in a vector.
#[derive(Clone, Copy, Debug, Hash, Eq, Ord, PartialEq, PartialOrd)]
pub enum VectorSize {
    Bi,
    Tri,
    Quad,
}

/// Flags describing how a storage buffer or image may be accessed.
#[derive(Clone, Copy, Debug, Hash, Eq, PartialEq, Structural)]
pub struct StorageAccess {
    /// Storage can be used as a source for load ops.
    pub load: bool,
    /// Storage can be used as a target for store ops.
    pub store: bool,
}

impl StorageAccess {
    /// No access at all.
    pub fn empty() -> (access: Self)
        ensures
            access == (StorageAccess { load: false, store: false }),
    {
        StorageAccess { load: false, store: false }
    }

    /// Read access only.
    pub fn load() -> (access: Self)
        ensures
            access == (StorageAccess { load: true, store: false }),
    {
        StorageAccess { load: true, store: false }
    }

    /// Write access only.
    pub fn store() -> (access: Self)
        ensures
            access == (StorageAccess { load: false, store: true }),
    {
        StorageAccess { load: false, store: true }
    }

    /// The flags set in either operand.
    pub open spec fn union(self, other: Self) -> Self {
        StorageAccess { load: self.load || other.load, store: self.store || other.store }
    }

    /// Whether every flag of `other` is also set in `self`.
    pub open spec fn includes(self, other: Self) -> bool {
        (other.load ==> self.load) && (other.store ==> self.store)
    }

    /// Returns `true` if all the flags of `other` are set in `self`.
    pub fn contains(self, other: Self) -> (all: bool)
        ensures
            all == self.includes(other),
    {
        (!other.load || self.load) && (!other.store || self.store)
    }
}

impl BitOr for StorageAccess {
    type Output = StorageAccess;

    fn bitor(self, other: StorageAccess) -> (access: StorageAccess) {
        StorageAccess { load: self.load || other.load, store: self.store || other.store }
    }
}

impl BitOrSpecImpl for StorageAccess {
    open spec fn obeys_bitor_spec() -> bool {
        true
    }

    open spec fn bitor_req(self, other: StorageAccess) -> bool {
        true
    }

    open spec fn bitor_spec(self, other: StorageAccess) -> StorageAccess {
        self.union(other)
    }
}

/// Enum of possible types.
#[derive(Debug, PartialEq)]
#[allow(inconsistent_fields)]
pub enum TypeInner {
    /// Number of integral or floating-point kind.
    Scalar { kind: ScalarKind, width: u8 },
    /// Vector of numbers.
    Vector { size: VectorSize, kind: ScalarKind, width: u8 },
    /// Pointer to a value.
    Pointer { base: Handle<Type>, class: StorageClass },
    /// Homogeneous list of elements; `size` is `None` for a runtime-sized
    /// array.
    Array { base: Handle<Type>, size: Option<u32>, stride: Option<u32> },
    /// Possibly multidimensional array of texels.
    Image { arrayed: bool },
    /// Can be used to sample values from images.
    Sampler { comparison: bool },
}

/// A data type declared in the module.
#[derive(Debug, PartialEq)]
pub struct Type {
    /// The name of the type, if any.
    pub name: Option<String>,
    /// Inner structure that depends on the kind of the type.
    pub inner: TypeInner,
}

/// A literal scalar value, used in constants.
#[derive(Clone, Copy, Debug, PartialEq)]
pub enum ScalarValue {
    Sint(i64),
    Uint(u64),
    /// A floating-point value, held as its IEEE 754 bit pattern.
    Float(u64),
    Bool(bool),
}

/// Additional information, dependent on the kind of constant.
#[derive(Debug, PartialEq)]
pub enum ConstantInner {
    Scalar { width: u8, value: ScalarValue },
    Composite { ty: Handle<Type>, components: Vec<Handle<Constant>> },
}

/// Constant value.
#[derive(Debug, PartialEq)]
pub struct Constant {
    pub name: Option<String>,
    pub specialization: Option<u32>,
    pub inner: ConstantInner,
}

/// Describes how an input/output variable is to be bound.
#[derive(Clone, Copy, Debug, Hash, Eq, Ord, PartialEq, PartialOrd)]
pub enum Binding {
    /// Built-in shader variable.
    BuiltIn(BuiltIn),
    /// Indexed location.
    Location(u32),
    /// Binding within a resource group.
    Resource { group: u32, binding: u32 },
}

/// Variable defined at module level.
#[derive(Debug, PartialEq)]
pub struct GlobalVariable {
    /// Name of the variable, if any.
    pub name: Option<String>,
    /// How this variable is to be stored.
    pub class: StorageClass,
    /// How this variable is to be bound.
    pub binding: Option<Binding>,
    /// The type of this variable.
    pub ty: Handle<Type>,
    /// Initial value for this variable.
    pub init: Option<Handle<Constant>>,
    /// The interpolation qualifier, if any.
    pub interpolation: Option<Interpolation>,
    /// Access bit for storage types of images and buffers.
    pub storage_access: StorageAccess,
}

/// Variable defined at function level.
#[derive(Debug, PartialEq)]
pub struct LocalVariable {
    /// Name of the variable, if any.
    pub name: Option<String>,
    /// The type of this variable.
    pub ty: Handle<Type>,
    /// Initial value for this variable.
    pub init: Option<Handle<Constant>>,
}

/// Operation that can be applied on a single value.
#[derive(Clone, Copy, Debug, Hash, Eq, Ord, PartialEq, PartialOrd)]
pub enum UnaryOperator {
    Negate,
    Not,
}

/// Operation that can be applied on two values.
#[derive(Clone, Copy, Debug, Hash, Eq, Ord, PartialEq, PartialOrd)]
pub enum BinaryOperator {
    Add,
    Subtract,
    Multiply,
    Divide,
    Modulo,
    Equal,
    NotEqual,
    Less,
    LessEqual,
    Greater,
    GreaterEqual,
    And,
    ExclusiveOr,
    InclusiveOr,
    LogicalAnd,
    LogicalOr,
    ShiftLeft,
    ShiftRight,
}

/// Axis on which to compute the derivative.
#[derive(Clone, Copy, Debug, Hash, Eq, Ord, PartialEq, PartialOrd)]
pub enum DerivativeAxis {
    X,
    Y,
    Width,
}

/// Built-in shader function for testing relation between values.
#[derive(Clone, Copy, Debug, Hash, Eq, Ord, PartialEq, PartialOrd)]
pub enum RelationalFunction {
    All,
    Any,
    IsNan,
    IsInf,
    IsFinite,
    IsNormal,
}

/// Built-in shader function for math.
#[derive(Clone, Copy, Debug, Hash, Eq, Ord, PartialEq, PartialOrd)]
pub enum MathFunction {
    // comparison
    Abs,
    Min,
    Max,
    Clamp,
    // trigonometry
    Cos,
    Cosh,
    Sin,
    Sinh,
    Tan,
    Tanh,
    Acos,
    Asin,
    Atan,
    Atan2,
    // decomposition
    Ceil,
    Floor,
    Round,
    Fract,
    Trunc,
    // exponent
    Exp,
    Exp2,
    Log,
    Log2,
    Pow,
    // geometry
    Dot,
    Cross,
    Distance,
    Length,
    Normalize,
    // computational
    Sign,
    Fma,
    Mix,
    Step,
    SmoothStep,
    Sqrt,
    InverseSqrt,
}

/// Sampling modifier to control the level of detail.
#[derive(Clone, Copy, Debug, PartialEq)]
pub enum SampleLevel {
    Auto,
    Zero,
    Exact(Handle<Expression>),
    Bias(Handle<Expression>),
    Gradient { x: Handle<Expression>, y: Handle<Expression> },
}

/// Type of an image query.
#[derive(Clone, Copy, Debug, PartialEq)]
pub enum ImageQuery {
    /// Get the size at the specified level.
    Size {
        /// If `None`, the base level is considered.
        level: Option<Handle<Expression>>,
    },
    /// Get the number of mipmap levels.
    NumLevels,
    /// Get the number of array layers.
    NumLayers,
    /// Get the number of samples.
    NumSamples,
}

/// An expression that can be evaluated to obtain a value.
#[derive(Debug, PartialEq)]
#[allow(inconsistent_fields)]
pub enum Expression {
    /// Array access with a computed index.
    Access { base: Handle<Expression>, index: Handle<Expression> },
    /// Array access with a known index.
    AccessIndex { base: Handle<Expression>, index: u32 },
    /// Constant value.
    Constant(Handle<Constant>),
    /// Composite expression.
    Compose { ty: Handle<Type>, components: Vec<Handle<Expression>> },
    /// Reference a function parameter, by its index.
    FunctionArgument(u32),
    /// Reference a global variable.
    GlobalVariable(Handle<GlobalVariable>),
    /// Reference a local variable.
    LocalVariable(Handle<LocalVariable>),
    /// Load a value indirectly.
    Load { pointer: Handle<Expression> },
    /// Sample a point from a sampled or a depth image.
    ImageSample {
        image: Handle<Expression>,
        sampler: Handle<Expression>,
        coordinate: Handle<Expression>,
        array_index: Option<Handle<Expression>>,
        offset: Option<Handle<Constant>>,
        level: SampleLevel,
        depth_ref: Option<Handle<Expression>>,
    },
    /// Load a texel from an image.
    ImageLoad {
        image: Handle<Expression>,
        coordinate: Handle<Expression>,
        array_index: Option<Handle<Expression>>,
        /// For storage images, this is `None`; for sampled images, the
        /// level of detail; for multisampled images, the sample index.
        index: Option<Handle<Expression>>,
    },
    /// Query information from an image.
    ImageQuery { image: Handle<Expression>, query: ImageQuery },
    /// Apply an unary operator.
    Unary { op: UnaryOperator, expr: Handle<Expression> },
    /// Apply a binary operator.
    Binary { op: BinaryOperator, left: Handle<Expression>, right: Handle<Expression> },
    /// Select between two values based on a condition.
    Select {
        /// Boolean expression.
        condition: Handle<Expression>,
        accept: Handle<Expression>,
        reject: Handle<Expression>,
    },
    /// Compute the derivative on an axis.
    Derivative { axis: DerivativeAxis, expr: Handle<Expression> },
    /// Call a relational function.
    Relational { fun: RelationalFunction, argument: Handle<Expression> },
    /// Call a math function.
    Math {
        fun: MathFunction,
        arg: Handle<Expression>,
        arg1: Option<Handle<Expression>>,
        arg2: Option<Handle<Expression>>,
    },
    /// Cast a simple type to another kind.
    As {
        /// Source expression, which can only be a scalar or a vector.
        expr: Handle<Expression>,
        /// Target scalar kind.
        kind: ScalarKind,
        /// True = conversion needs to take place; false = bitcast.
        convert: bool,
    },
    /// Result of calling another function.
    Call(Handle<Function>),
    /// Get the length of an array.
    ArrayLength(Handle<Expression>),
}

impl Expression {
    /// Whether two expressions are the same up to the identity of the
    /// vector that holds the components of a composite.
    pub open spec fn same_as(self, other: Expression) -> bool {
        match (self, other) {
            (
                Expression::Compose { ty, components },
                Expression::Compose { ty: other_ty, components: other_components },
            ) => ty == other_ty && components@ == other_components@,
            _ => self == other,
        }
    }
}

impl Clone for Expression {
    fn clone(&self) -> (copy: Self)
        ensures
            self.same_as(copy),
    {
        match self {
            Expression::Access { base, index } => Expression::Access { base: *base, index: *index },
            Expression::AccessIndex { base, index } => Expression::AccessIndex {
                base: *base,
                index: *index,
            },
            Expression::Constant(constant) => Expression::Constant(*constant),
            Expression::Compose { ty, components } => {
                let mut copies: Vec<Handle<Expression>> = Vec::new();
                let mut i: usize = 0;
                while i < components.len()
                    invariant
                        i <= components@.len(),
                        copies@ == components@.take(i as int),
                    decreases components@.len() - i,
                {
                    copies.push(components[i]);
                    assert(components@.take(i + 1) =~= components@.take(i as int).push(
                        components@[i as int],
                    ));
                    i = i + 1;
                }
                assert(components@.take(i as int) =~= components@);
                Expression::Compose { ty: *ty, components: copies }
            },
            Expression::FunctionArgument(index) => Expression::FunctionArgument(*index),
            Expression::GlobalVariable(global) => Expression::GlobalVariable(*global),
            Expression::LocalVariable(local) => Expression::LocalVariable(*local),
            Expression::Load { pointer } => Expression::Load { pointer: *pointer },
            Expression::ImageSample {
                image,
                sampler,
                coordinate,
                array_index,
                offset,
                level,
                depth_ref,
            } => Expression::ImageSample {
                image: *image,
                sampler: *sampler,
                coordinate: *coordinate,
                array_index: *array_index,
                offset: *offset,
                level: *level,
                depth_ref: *depth_ref,
            },
            Expression::ImageLoad { image, coordinate, array_index, index } => Expression::ImageLoad {
                image: *image,
                coordinate: *coordinate,
                array_index: *array_index,
                index: *index,
            },
            Expression::ImageQuery { image, query } => Expression::ImageQuery {
                image: *image,
                query: *query,
            },
            Expression::Unary { op, expr } => Expression::Unary { op: *op, expr: *expr },
            Expression::Binary { op, left, right } => Expression::Binary {
                op: *op,
                left: *left,
                right: *right,
            },
            Expression::Select { condition, accept, reject } => Expression::Select {
                condition: *condition,
                accept: *accept,
                reject: *reject,
            },
            Expression::Derivative { axis, expr } => Expression::Derivative {
                axis: *axis,
                expr: *expr,
            },
            Expression::Relational { fun, argument } => Expression::Relational {
                fun: *fun,
                argument: *argument,
            },
            Expression::Math { fun, arg, arg1, arg2 } => Expression::Math {
                fun: *fun,
                arg: *arg,
                arg1: *arg1,
                arg2: *arg2,
            },
            Expression::As { expr, kind, convert } => Expression::As {
                expr: *expr,
                kind: *kind,
                convert: *convert,
            },
            Expression::Call(function) => Expression::Call(*function),
            Expression::ArrayLength(expr) => Expression::ArrayLength(*expr),
        }
    }
}

/// A case for a switch statement.
#[derive(Debug, PartialEq)]
pub struct SwitchCase {
    /// Value, upon which the case is considered true.
    pub value: i32,
    /// Body of the case.
    pub body: Vec<Statement>,
    /// If true, the control flow continues to the next case in the list,
    /// or default.
    pub fall_through: bool,
}

/// Instructions which make up an executable block.
#[derive(Debug, PartialEq)]
#[allow(inconsistent_fields)]
pub enum Statement {
    /// Emit a range of expressions, visible to all statements that follow
    /// in this block.
    Emit(Range<Expression>),
    /// A block containing more statements, to be executed sequentially.
    Block(Vec<Statement>),
    /// Conditionally executes one of two blocks, based on the value of the
    /// condition.
    If { condition: Handle<Expression>, accept: Vec<Statement>, reject: Vec<Statement> },
    /// Conditionally executes one of multiple blocks, based on the value of
    /// the selector.
    Switch { selector: Handle<Expression>, cases: Vec<SwitchCase>, default: Vec<Statement> },
    /// Executes a block repeatedly.
    Loop { body: Vec<Statement>, continuing: Vec<Statement> },
    /// Exits the loop.
    Break,
    /// Skips execution to the next iteration of the loop.
    Continue,
    /// Returns from the function (possibly with a value).
    Return { value: Option<Handle<Expression>> },
    /// Aborts the current shader execution.
    Kill,
    /// Stores a value at an address.
    Store { pointer: Handle<Expression>, value: Handle<Expression> },
    /// Stores a value to an image.
    ImageStore {
        image: Handle<Expression>,
        coordinate: Handle<Expression>,
        array_index: Option<Handle<Expression>>,
        value: Handle<Expression>,
    },
    /// Calls a function.
    Call {
        function: Handle<Function>,
        arguments: Vec<Handle<Expression>>,
        result: Option<Handle<Expression>>,
    },
}

/// A function argument.
#[derive(Debug, PartialEq)]
pub struct FunctionArgument {
    /// Name of the argument, if any.
    pub name: Option<String>,
    /// Type of the argument.
    pub ty: Handle<Type>,
}

/// A function defined in the module.
#[derive(Debug, PartialEq)]
pub struct Function {
    /// Name of the function, if any.
    pub name: Option<String>,
    /// Information about function arguments.
    pub arguments: Vec<FunctionArgument>,
    /// The return type of this function, if any.
    pub return_type: Option<Handle<Type>>,
    /// Local variables defined and used in the function.
    pub local_variables: Arena<LocalVariable>,
    /// Expressions used inside this function.
    pub expressions: Arena<Expression>,
    /// Block of instructions comprising the body of the function.
    pub body: Vec<Statement>,
}

/// Exported function, to be run at a certain stage in the pipeline.
#[derive(Debug, PartialEq)]
pub struct EntryPoint {
    /// Name of this entry point, visible externally.
    pub name: String,
    /// Shader stage.
    pub stage: ShaderStage,
    /// The entrance function.
    pub function: Function,
}

/// Shader module.
#[derive(Debug, PartialEq)]
pub struct Module {
    /// Storage for the types defined in this module.
    pub types: Arena<Type>,
    /// Storage for the constants defined in this module.
    pub constants: Arena<Constant>,
    /// Storage for the global variables defined in this module.
    pub global_variables: Arena<GlobalVariable>,
    /// Storage for the functions defined in this module.
    pub functions: Arena<Function>,
    /// Exported entry points.
    pub entry_points: Vec<EntryPoint>,
}

} // verus!
