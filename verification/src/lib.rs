//! A small compiler framework: a traversal generator for AST modules, and a
//! demo compiler with passes over its syntax tree.
use vstd::prelude::*;

pub mod ast;
pub mod demo;
pub mod parser;
pub mod traversal;

verus! {

/// Wraps a field that the generated traversal does not descend into: its
/// type is neither a node type nor a container of one.
pub struct NoTrav<T>(pub T);

} // verus!
