//! The uniformity lattice and the causes that disrupt uniform control flow.

use crate::analyzer::flags::ExitFlags;
use crate::arena::Handle;
use crate::ir::Expression;
use std::ops::BitOr;
use vstd::prelude::*;
use vstd::std_specs::ops::BitOrSpecImpl;

verus! {

/// Uniform control flow characteristics.
///
/// Both fields are witnesses: each names the first expression that was
/// seen to introduce the property.
#[derive(Clone, Copy, Debug, PartialEq, Eq)]
pub struct Uniformity {
    /// A child expression with non-uniform result.
    ///
    /// This means, when the relevant invocations are scheduled on a compute
    /// unit, they have to use vector registers to store an individual value
    /// per invocation.
    ///
    /// Whenever the control flow is conditioned on such value,
    /// the hardware needs to keep track of the mask of invocations,
    /// and process all branches of the control flow.
    ///
    /// Any operations that depend on non-uniform results also produce
    /// non-uniform.
    pub non_uniform_result: Option<Handle<Expression>>,
    /// A child expression that requires uniform control flow.
    ///
    /// Some operations can only be done within uniform control flow:
    /// derivatives and auto-level image sampling in fragment shaders,
    /// and group barriers in compute shaders.
    pub require_uniform: Option<Handle<Expression>>,
}

/// The first of two optional values that is present.
pub open spec fn first_of<T>(a: Option<T>, b: Option<T>) -> Option<T> {
    if a is Some {
        a
    } else {
        b
    }
}

/// Returns the first of two optional values that is present.
pub fn first_present<T: Copy>(a: Option<T>, b: Option<T>) -> (first: Option<T>)
    ensures
        first == first_of(a, b),
{
    match a {
        Some(_) => a,
        None => b,
    }
}

impl Uniformity {
    /// The identity of the join: nothing non-uniform, nothing required.
    pub open spec fn none() -> Self {
        Uniformity { non_uniform_result: None, require_uniform: None }
    }

    /// The characteristics of a value that `expr` makes non-uniform.
    pub open spec fn non_uniform(expr: Handle<Expression>) -> Self {
        Uniformity { non_uniform_result: Some(expr), require_uniform: None }
    }

    /// The characteristics of an operation `expr` that needs uniform
    /// control flow.
    pub open spec fn requiring(expr: Handle<Expression>) -> Self {
        Uniformity { non_uniform_result: None, require_uniform: Some(expr) }
    }

    /// The join of two characteristics: in each field the witness of the
    /// left operand wins, and the right one is used only when the left has
    /// none.
    pub open spec fn join(self, other: Self) -> Self {
        Uniformity {
            non_uniform_result: first_of(self.non_uniform_result, other.non_uniform_result),
            require_uniform: first_of(self.require_uniform, other.require_uniform),
        }
    }

    /// The cause by which a value with these characteristics makes the
    /// control flow that depends on it non-uniform, if it does.
    pub open spec fn spec_disruptor(&self) -> Option<UniformityDisruptor> {
        match self.non_uniform_result {
            Some(expr) => Some(UniformityDisruptor::Expression(expr)),
            None => None,
        }
    }

    /// Characteristics of a value that `expr` makes non-uniform.
    pub fn non_uniform_result(expr: Handle<Expression>) -> (uniformity: Self)
        ensures
            uniformity == Self::non_uniform(expr),
    {
        Uniformity { non_uniform_result: Some(expr), require_uniform: None }
    }

    /// Characteristics of an operation `expr` that requires uniform control
    /// flow.
    pub fn require_uniform(expr: Handle<Expression>) -> (uniformity: Self)
        ensures
            uniformity == Self::requiring(expr),
    {
        Uniformity { non_uniform_result: None, require_uniform: Some(expr) }
    }

    /// Returns the disruptor that this value is for the control flow that
    /// is conditioned on it.
    #[verifier::when_used_as_spec(spec_disruptor)]
    pub fn disruptor(&self) -> (cause: Option<UniformityDisruptor>)
        ensures
            cause == self.spec_disruptor(),
    {
        match self.non_uniform_result {
            Some(expr) => Some(UniformityDisruptor::Expression(expr)),
            None => None,
        }
    }
}

impl Default for Uniformity {
    fn default() -> (uniformity: Self)
        ensures
            uniformity == Uniformity::none(),
    {
        Uniformity { non_uniform_result: None, require_uniform: None }
    }
}

impl BitOr for Uniformity {
    type Output = Uniformity;

    fn bitor(self, other: Uniformity) -> (joined: Uniformity) {
        Uniformity {
            non_uniform_result: match self.non_uniform_result {
                Some(expr) => Some(expr),
                None => other.non_uniform_result,
            },
            require_uniform: match self.require_uniform {
                Some(expr) => Some(expr),
                None => other.require_uniform,
            },
        }
    }
}

impl BitOrSpecImpl for Uniformity {
    open spec fn obeys_bitor_spec() -> bool {
        true
    }

    open spec fn bitor_req(self, other: Uniformity) -> bool {
        true
    }

    open spec fn bitor_spec(self, other: Uniformity) -> Uniformity {
        self.join(other)
    }
}

/// Disruptor of the uniform control flow.
#[derive(Clone, Copy, Debug, PartialEq, Eq)]
pub enum UniformityDisruptor {
    /// The expression produced a non-uniform result, and control flow
    /// depends on it.
    Expression(Handle<Expression>),
    /// There is a return earlier in the control flow of the function.
    Return,
    /// There is a kill earlier in the entry point across all called
    /// functions.
    Kill,
}

impl UniformityDisruptor {
    /// The disruptor that a set of possible exits stands for: a possible
    /// return takes precedence over a possible kill.
    pub open spec fn spec_from_exit(flags: ExitFlags) -> Option<Self> {
        if flags.may_return {
            Some(UniformityDisruptor::Return)
        } else if flags.may_kill {
            Some(UniformityDisruptor::Kill)
        } else {
            None
        }
    }

    /// Returns the disruptor that the possible exits of preceding
    /// statements are for what follows them.
    #[verifier::when_used_as_spec(spec_from_exit)]
    pub fn from_exit(flags: ExitFlags) -> (cause: Option<Self>)
        ensures
            cause == Self::spec_from_exit(flags),
    {
        if flags.contains(ExitFlags::may_return()) {
            Some(UniformityDisruptor::Return)
        } else if flags.contains(ExitFlags::may_kill()) {
            Some(UniformityDisruptor::Kill)
        } else {
            None
        }
    }
}

/// Joining is associative and idempotent, and the empty characteristics
/// are its identity on both sides.
pub proof fn lemma_join_laws(a: Uniformity, b: Uniformity, c: Uniformity)
    ensures
        a.join(b).join(c) == a.join(b.join(c)),
        a.join(a) == a,
        a.join(Uniformity::none()) == a,
        Uniformity::none().join(a) == a,
{
}

/// Joining never loses information: a property that either operand has,
/// the join has too, and the join has no property that neither operand has.
pub proof fn lemma_join_information(a: Uniformity, b: Uniformity)
    ensures
        a.join(b).non_uniform_result is Some <==> (a.non_uniform_result is Some
            || b.non_uniform_result is Some),
        a.join(b).require_uniform is Some <==> (a.require_uniform is Some
            || b.require_uniform is Some),
{
}

} // verus!
