//! The data carried through the lifecycle: license records, the error
//! vocabulary, and the shapes exchanged with callers.

pub mod api_models;
pub mod errors;
pub mod license;
