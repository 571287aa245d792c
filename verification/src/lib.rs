//! An in-memory, cross-referencing AST builder for interface-definition
//! documents.
//!
//! The crate has two halves:
//!
//! * [`allocation`] packs several differently-sized arrays into one
//!   contiguous byte block, computing a combined layout with correct
//!   padding, and hands out read/write views into that block.
//! * [`ast`] is a two-phase "hydration" engine: declarations of ten node
//!   kinds may arrive in any order and may reference one another by name;
//!   forward references are held as placeholders, duplicate and
//!   kind-conflicting declarations are rejected, and `finish` freezes the
//!   fully resolved graph.
//!
//! [`field`], [`node`] and [`package`] carry the descriptor-level data
//! model those nodes are built from.

pub mod allocation;
pub mod ast;
pub mod field;
pub mod node;
pub mod package;
