//! Functions which export shader modules into binary and text formats.

pub mod msl;
