//! Declarative manifests of session operations.
pub mod apply;
pub mod laws;
pub mod plan;
