//! Corpus-wide package statistics: the package with the most direct
//! dependencies, the dependency with the most distinct dependents, the package
//! with the most feature flags and the package name seen most often.
pub mod dependents;
pub mod engine;
pub mod laws;
pub mod leader;
pub mod record;
pub mod versions;
pub mod walk;
