//! Verified core of the `Builder` derive: attribute interpretation, group
//! semantics, the search for valid group combinations, and the rendering of
//! the builder, data and target code as Rust source text.
//!
//! The derive input reaches the library as plain values (see `model`); the
//! result is Rust source text plus a list of diagnostics.

pub mod symbol;

pub mod model;
pub mod diagnostic;
pub mod info;
pub mod text;
pub mod parser;
pub mod generator;

use vstd::prelude::*;

verus! {

/// Implemented by the derive for a container: gives the container's builder,
/// with no field set.
pub trait Builder {
    type BuilderImpl;

    fn builder() -> Self::BuilderImpl;
}

} // verus!
