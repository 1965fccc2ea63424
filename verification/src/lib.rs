//! Ownership analysis for a single source file of an ownership-based
//! language: every value-holding identity (binding, reference, aggregate
//! field, callable) is modelled as a resource access point (RAP) with a
//! unique id, every syntactic occurrence of an identity is recorded in a
//! scope-indexed trace, and two emitters project the finished model as a
//! declaration summary and as markup-annotated source text.
//!
//! The syntax of the analyzed language is the closed model of `ast`; any
//! conformant parser for the subject grammar can fill it. `walker` drives
//! the pass over that model, delegating each binding and use to the
//! resolver functions of `state` and the classification rules of
//! `classify`; the argument streams of recognized diagnostic macros go
//! through the comma-aware splitter of `macroargs`. The finished state is
//! projected by `header` (the declaration summary) and `annotate` (the
//! tagged source overlay). Every function is specified against the spec
//! mirror of the pass, so the result of a run is pinned down completely.

pub mod annotate;
pub mod ast;
pub mod classify;
pub mod header;
pub mod macroargs;
pub mod model;
pub mod state;
pub mod strutil;
pub mod walker;

use vstd::prelude::*;

verus! {

} // verus!
