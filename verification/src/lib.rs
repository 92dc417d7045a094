//! Export resolution and conditional code generation for CSS-modules
//! stylesheets inside a bundler's per-module compilation pipeline.
//!
//! For each stylesheet module the crate builds a graph of exported names to
//! the generated identifiers they resolve to (including `composes` across
//! classes and modules), filters that graph against a whole-program usage
//! oracle, and emits rewritten CSS text and a JavaScript export table that
//! stay mutually consistent.

use vstd::prelude::*;

pub mod codegen;
pub mod context_dependency;
pub mod events;
pub mod export_graph;
pub mod fs_meta;
pub mod laws;
pub mod parser;
pub mod text;
pub mod usage;

verus! {

/// A reference to one dependency object recorded during a parse: its index
/// in the module's dependency list, assigned in discovery order.
#[derive(Clone, Copy, Debug, PartialEq, Eq, Structural, Hash)]
pub struct DependencyId(pub u64);

} // verus!
