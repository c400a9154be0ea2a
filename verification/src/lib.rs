//! Compile-time unrolling of counting loops over literal integer ranges.
//!
//! The crate works on its own tree model of a function body: a [`ast::Block`]
//! of statements, each statement an expression. [`unroll::transform`] walks
//! that tree and replaces every eligible `for` loop — a plain variable bound
//! over a literal integer range — by a flat sequence of copies of its body,
//! one per iteration, each copy prefixed by a constant binding of the loop
//! variable to that iteration's value.

pub mod ast;
pub mod laws;
pub mod unroll;
