//! Module analyzer.
//!
//! Figures out the following properties:
//!   - control flow uniformity
//!   - texture/sampler pairs
//!   - expression reference counts
//!   - how each function uses each global variable

pub mod block;
pub mod error;
pub mod expression;
pub mod flags;
pub mod info;
pub mod laws;
pub mod module;
pub mod sampling;
pub mod steps;
pub mod terms;
pub mod uniformity;
pub mod validate;

pub use error::AnalysisError;
pub use flags::{ExitFlags, GlobalUse};
pub use info::{ExpressionInfo, FunctionInfo, FunctionInfoView};
pub use module::{Analysis, AnalysisView};
pub use sampling::{SamplingKey, SamplingSet};
pub use uniformity::{Uniformity, UniformityDisruptor};
