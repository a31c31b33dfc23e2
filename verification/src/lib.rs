//! Extern-path resolution and package-spec construction for a multi-package
//! protobuf code-generation pipeline.
//!
//! A package build compiles its proto sources with an external compiler
//! frontend. Before that call, this library aggregates the extern-path
//! bindings of the package's already-built dependencies with the fixed
//! well-known-type table, so cross-package types are never regenerated.
//! After it, this library walks the returned descriptors of the package's
//! own files and emits one binding per declared message or enum, nested ones
//! included, then serializes the sorted result as the package's own spec for
//! future dependents. All filesystem work and the compiler invocation stay
//! with the caller.

pub mod aggregate;
pub mod build_config;
pub mod casing;
pub mod descriptor;
pub mod emit;
pub mod errors;
pub mod laws;
pub mod plan;
pub mod resolve;
pub mod spec_types;
pub mod text;
pub mod walker;
pub mod wkt;
