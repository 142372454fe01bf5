//! The rules through which the grammar nests.
//!
//! An expression can hold expressions, a pattern patterns and a statement
//! statements. Each of these three rules uses up one level of depth, and
//! fails where none is left: the depth bounds how deep the parser descends,
//! whatever the input. Every other rule takes the three as a [`Nesting`] and
//! does not care how deep it stands.
use vstd::prelude::*;
use crate::combinator::Parsed;
use crate::context::Input;
use crate::parser::behavioral_statements::patterns::spec_pattern;
use crate::parser::behavioral_statements::statements::spec_statement_or_null;
use crate::parser::expressions::expressions::spec_expression;

verus! {

/// What the nesting rules give at each position.
pub struct Nesting {
    pub expression: spec_fn(int) -> Parsed,
    pub pattern: spec_fn(int) -> Parsed,
    pub statement_or_null: spec_fn(int) -> Parsed,
}

/// The nesting rules with `depth` levels left.
pub open spec fn nesting(inp: Input, depth: nat) -> Nesting
    decreases depth, 1nat,
{
    Nesting {
        expression: |pos: int| spec_expression(inp, pos, depth),
        pattern: |pos: int| spec_pattern(inp, pos, depth),
        statement_or_null: |pos: int| spec_statement_or_null(inp, pos, depth),
    }
}

} // verus!
