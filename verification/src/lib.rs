//! A recursive-descent parser for a slice of SystemVerilog that builds a fully
//! typed concrete syntax tree with exact source positions.
//!
//! # Rules
//!
//! Every rule of the grammar is a function from a parsing context and a byte
//! offset to either the offset after what it matched together with a typed
//! node, or a [`failure::Failure`]. The context is never advanced: a caller
//! that tries another alternative simply applies it at the offset it already
//! has.
//!
//! Every rule `r` has a specification `spec_r`, a function of the bytes of
//! the source that is written with the combinators of [`combinator`]: parts in
//! sequence, ordered choice, an optional part, a repetition. The executable
//! rule is proved to return exactly what `spec_r` says, node for node and
//! failure for failure.
//!
//! # Trees
//!
//! Every node has a `tree()`, its [`tree::Tree`]: leaves for the regions of
//! the source that it matched, and sequences, repeats, optional children and
//! variants above them. What holds of every node is stated of trees: the
//! leaves of a parsed tree lie one after the other without gap or overlap, the
//! span of a node is the union of the spans of its first and last child, and
//! the leaves put together give back the source.
//!
//! # Failures
//!
//! A failure says what was expected at which offset. Ordered choice reports
//! the failure that got furthest. A rule commits once the input has shown
//! which construct is meant; a committed failure is a syntax error of the
//! input and passes every choice, optional part and repetition above it.
//!
//! # Depth and memo
//!
//! Expressions, patterns and statements are the rules through which the
//! grammar nests. Each of them takes a depth and fails where none is left,
//! so the parser never descends deeper than the caller allows. The outcomes
//! of expressions and patterns are kept in memo tables by offset, because
//! their alternatives begin alike; the tables change how long a parse takes
//! and nothing else.
pub mod combinator;
pub mod context;
pub mod dialect;
pub mod failure;
pub mod node;
pub mod parser;
pub mod span;
pub mod text;
pub mod token;
pub mod tree;
pub mod unit;
