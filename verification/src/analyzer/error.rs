//! The ways in which the analysis of a module fails.

use crate::analyzer::uniformity::UniformityDisruptor;
use crate::arena::Handle;
use crate::ir::Expression;
use vstd::prelude::*;

verus! {

/// The reason for which a module was rejected. There is no partial
/// success: the first failure ends the analysis of the whole module.
#[derive(Clone, Debug, PartialEq)]
pub enum AnalysisError {
    /// The image or the sampler of a sampling operation is not directly a
    /// global variable; the expression found in its place is given.
    ExpectedGlobalVariable(Expression),
    /// The expression requires uniform control flow, which the disruptor
    /// prevents.
    NonUniformControlFlow(Handle<Expression>, UniformityDisruptor),
}

impl AnalysisError {
    /// Whether two errors are the same up to the identity of the vector
    /// that holds the components of a composite expression.
    pub open spec fn same_as(self, other: AnalysisError) -> bool {
        match (self, other) {
            (
                AnalysisError::ExpectedGlobalVariable(found),
                AnalysisError::ExpectedGlobalVariable(other_found),
            ) => found.same_as(other_found),
            _ => self == other,
        }
    }
}

} // verus!
