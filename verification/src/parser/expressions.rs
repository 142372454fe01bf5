//! Expressions and what they are made of.
pub mod expressions;
pub mod operators;
pub mod primaries;
pub mod subroutine_calls;
