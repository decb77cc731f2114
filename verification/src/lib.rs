//! Static analysis of shader modules: uniform control flow, global
//! variable usage, image/sampler pairing and expression reference counts.

pub mod analyzer;
pub mod arena;
pub mod back;
pub mod ir;
