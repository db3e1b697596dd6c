//! Module dependency graphs of a source tree.
//!
//! A source tree is a root directory with source files below it. Every file
//! belongs to the module named by the first path component below the root,
//! and every import declaration of the file makes that module depend on the
//! module named by the import's leading segment. The library reads the
//! imports of source texts ([`syntax`]), finds the module of a file and
//! tells internal from external names ([`identity`]), collects modules and
//! dependencies in a graph without duplicates ([`graph`], [`builder`]) and
//! writes the graph out ([`render`]). What holds of every graph it builds is
//! proved in [`laws`].
//!
//! The library does no input or output: its callers hand it paths as
//! sequences of components, the names of the entries of the root directory,
//! and source texts.

pub mod builder;
pub mod digraph;
pub mod distinct;
pub mod graph;
pub mod identity;
pub mod import;
pub mod laws;
pub mod order;
pub mod render;
pub mod syntax;
pub mod text;
