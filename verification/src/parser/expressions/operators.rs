//! Unary and binary operators.
//!
//! Which texts are operators is part of the dialect: the rules try the texts
//! of a table in order and take the first that the source continues with, so
//! a table lists an operator before every shorter operator that it begins
//! with.
use vstd::prelude::*;
use vstd::string::StringSliceAdditionalSpecFns;
use crate::combinator::lift;
use crate::combinator::seq1;
use crate::combinator::well_spanned;
use crate::combinator::Parsed;
use crate::context::Input;
use crate::context::Parser;
use crate::failure::Failure;
use crate::failure::FailureKind;
use crate::text::has_prefix;
use crate::text::starts_with;
use crate::token::finish;
use crate::token::terminal;
use crate::token::Symbol;
use crate::span::Span;
use crate::tree::group_layout;
use crate::tree::group_leaves;
use crate::tree::leaves_after;
use crate::tree::Tree;

verus! {

broadcast use group_layout;

/// `unary_operator ::=` one of the unary operators of the dialect
#[derive(Clone, Copy, Debug, PartialEq, Eq)]
pub struct UnaryOperator {
    pub nodes: (Symbol,),
}

/// `binary_operator ::=` one of the binary operators of the dialect
#[derive(Clone, Copy, Debug, PartialEq, Eq)]
pub struct BinaryOperator {
    pub nodes: (Symbol,),
}

impl UnaryOperator {
    /// The tree of the node: the sequence of its one symbol.
    pub open spec fn tree(&self) -> Tree {
        Tree::Sequence(Seq::empty().push(self.nodes.0.tree()))
    }

    /// Appends the leaf spans of the node to `out`, in source order.
    pub fn leaf_spans(&self, out: &mut Vec<Span>)
        ensures
            final(out)@ == leaves_after(old(out)@, self.tree()),
    {
        broadcast use group_leaves;

        self.nodes.0.leaf_spans(out);
    }
}

impl BinaryOperator {
    /// The tree of the node: the sequence of its one symbol.
    pub open spec fn tree(&self) -> Tree {
        Tree::Sequence(Seq::empty().push(self.nodes.0.tree()))
    }

    /// Appends the leaf spans of the node to `out`, in source order.
    pub fn leaf_spans(&self, out: &mut Vec<Span>)
        ensures
            final(out)@ == leaves_after(old(out)@, self.tree()),
    {
        broadcast use group_leaves;

        self.nodes.0.leaf_spans(out);
    }
}

/// The length of the first text of `table`, from index `from` on, that the
/// source continues with at `pos`.
pub open spec fn first_match(src: Seq<u8>, pos: int, table: Seq<&'static str>, from: int) -> Option<
    int,
>
    decreases table.len() - from,
{
    if from < 0 || from >= table.len() {
        None
    } else if has_prefix(src, pos, table[from].spec_bytes()) {
        Some(table[from].spec_bytes().len() as int)
    } else {
        first_match(src, pos, table, from + 1)
    }
}

/// The first unary operator of the dialect that stands at `pos`.
#[verifier::opaque]
pub open spec fn spec_unary_operator(inp: Input, pos: int) -> Parsed {
    match first_match(inp.src, pos, inp.dialect.unary_operators@, 0) {
        Some(len) => seq1(terminal(inp.src, pos, len)),
        None => Err(Failure::mismatch(FailureKind::Operator, pos)),
    }
}

/// The first binary operator of the dialect that stands at `pos`, unless a
/// piece of punctuation stands there that only begins like an operator.
#[verifier::opaque]
pub open spec fn spec_binary_operator(inp: Input, pos: int) -> Parsed {
    if first_match(inp.src, pos, inp.dialect.punctuation@, 0) is Some {
        Err(Failure::mismatch(FailureKind::Operator, pos))
    } else {
        match first_match(inp.src, pos, inp.dialect.binary_operators@, 0) {
            Some(len) => seq1(terminal(inp.src, pos, len)),
            None => Err(Failure::mismatch(FailureKind::Operator, pos)),
        }
    }
}

/// The length of the first text of `table` that the source continues with at
/// `pos`.
fn match_first(src: &[u8], pos: usize, table: &Vec<&'static str>) -> (r: Option<usize>)
    requires
        pos <= src@.len(),
    ensures
        match r {
            Some(len) => first_match(src@, pos as int, table@, 0) == Some(len as int) && pos + len
                <= src@.len(),
            None => first_match(src@, pos as int, table@, 0) is None,
        },
{
    let _ = src.len();
    let mut i: usize = 0;
    while i < table.len()
        invariant
            i <= table@.len(),
            pos <= src@.len() <= usize::MAX,
            first_match(src@, pos as int, table@, 0) == first_match(
                src@,
                pos as int,
                table@,
                i as int,
            ),
        decreases table@.len() - i,
    {
        let text = table[i];
        if starts_with(src, pos, text) {
            return Some(text.len());
        }
        i = i + 1;
    }
    None
}

/// Parses a unary operator at `pos`.
pub fn unary_operator(ctx: &Parser, pos: usize) -> (r: Result<(usize, UnaryOperator), Failure>)
    requires
        pos <= ctx.input().src.len(),
    ensures
        lift(r, |n: UnaryOperator| n.tree()) == spec_unary_operator(ctx.input(), pos as int),
        well_spanned(
            spec_unary_operator(ctx.input(), pos as int),
            pos as int,
            ctx.input().src.len() as int,
        ),
{
    proof {
        reveal(spec_unary_operator);
    }
    let src = ctx.source();
    match match_first(src, pos, &ctx.dialect().unary_operators) {
        Some(len) => {
            let (end, nodes) = finish(src, pos, len);
            Ok((end, UnaryOperator { nodes: (Symbol { nodes },) }))
        },
        None => Err(Failure::new(FailureKind::Operator, pos)),
    }
}

/// Parses a binary operator at `pos`.
pub fn binary_operator(ctx: &Parser, pos: usize) -> (r: Result<(usize, BinaryOperator), Failure>)
    requires
        pos <= ctx.input().src.len(),
    ensures
        lift(r, |n: BinaryOperator| n.tree()) == spec_binary_operator(ctx.input(), pos as int),
        well_spanned(
            spec_binary_operator(ctx.input(), pos as int),
            pos as int,
            ctx.input().src.len() as int,
        ),
{
    proof {
        reveal(spec_binary_operator);
    }
    let src = ctx.source();
    if match_first(src, pos, &ctx.dialect().punctuation).is_some() {
        return Err(Failure::new(FailureKind::Operator, pos));
    }
    match match_first(src, pos, &ctx.dialect().binary_operators) {
        Some(len) => {
            let (end, nodes) = finish(src, pos, len);
            Ok((end, BinaryOperator { nodes: (Symbol { nodes },) }))
        },
        None => Err(Failure::new(FailureKind::Operator, pos)),
    }
}

} // verus!
