//! The events of system timing checks.
use vstd::prelude::*;
use crate::combinator::Parsed;
use crate::combinator::lift;
use crate::combinator::opt;
use crate::combinator::optional;
use crate::combinator::rest;
use crate::combinator::seq2;
use crate::combinator::seq3;
use crate::combinator::well_spanned;
use crate::context::Input;
use crate::context::Parser;
use crate::failure::Failure;
use crate::node::Bracket;
use crate::parser::behavioral_statements::timing_control_statements::EdgeIdentifier;
use crate::parser::behavioral_statements::timing_control_statements::edge_identifier;
use crate::parser::behavioral_statements::timing_control_statements::spec_edge_identifier;
use crate::parser::expressions::expressions::AssignedValue;
use crate::parser::expressions::expressions::Expression;
use crate::parser::expressions::expressions::assigned_value_tree;
use crate::parser::expressions::expressions::expression;
use crate::parser::expressions::primaries::bit_select;
use crate::parser::expressions::primaries::bit_select_tree;
use crate::parser::expressions::primaries::spec_bit_select;
use crate::parser::nesting::Nesting;
use crate::parser::nesting::nesting;
use crate::span::Span;
use crate::token::Identifier;
use crate::token::Symbol;
use crate::token::identifier;
use crate::token::spec_identifier;
use crate::token::spec_symbol;
use crate::token::symbol;
use crate::tree::Tree;
use crate::tree::group_layout;
use crate::tree::group_leaves;
use crate::tree::leaves_after;

verus! {

broadcast use {group_layout, group_leaves};

/// The edge on which a timing check event occurs.
pub type TimingCheckEventControl = EdgeIdentifier;

/// The condition under which a timing check event counts.
pub type TimingCheckCondition = Expression;

/// `specify_terminal_descriptor ::= identifier [ bit_select ]`
#[derive(Debug)]
pub struct SpecifyTerminalDescriptor {
    pub nodes: (Identifier, Option<Bracket<Expression>>),
}

/// `timing_check_event ::= [ timing_check_event_control ] specify_terminal_descriptor [
/// timing_check_guard ]`
#[derive(Debug)]
pub struct TimingCheckEvent {
    pub nodes: (
        Option<TimingCheckEventControl>,
        SpecifyTerminalDescriptor,
        Option<(Symbol, TimingCheckCondition)>,
    ),
}

/// `controlled_timing_check_event ::= timing_check_event_control
/// specify_terminal_descriptor [ timing_check_guard ]`
#[derive(Debug)]
pub struct ControlledTimingCheckEvent {
    pub nodes: (
        TimingCheckEventControl,
        SpecifyTerminalDescriptor,
        Option<(Symbol, TimingCheckCondition)>,
    ),
}

impl SpecifyTerminalDescriptor {
    /// The tree of the node: the sequence of the trees of its parts.
    #[verifier::opaque]
    pub open spec fn tree(&self) -> Tree {
        Tree::Sequence(
            Seq::empty()
                .push(self.nodes.0.tree())
                .push(
                    match self.nodes.1 {
                        Some(x) => Tree::Optional(Some(Box::new(bit_select_tree(x)))),
                        None => Tree::Optional(None),
                    },
                ),
        )
    }

    /// Appends the leaf spans of the node to `out`, in source order.
    pub fn leaf_spans(&self, out: &mut Vec<Span>)
        ensures
            final(out)@ == leaves_after(old(out)@, self.tree()),
    {
        proof {
            reveal(SpecifyTerminalDescriptor::tree);
        }
        self.nodes.0.leaf_spans(out);
        match &self.nodes.1 {
            Some(x) => {
                x.nodes.0.leaf_spans(out);
                x.nodes.1.leaf_spans(out);
                x.nodes.2.leaf_spans(out);
            },
            None => {},
        }
    }
}

impl TimingCheckEvent {
    /// The tree of the node: the sequence of the trees of its parts.
    #[verifier::opaque]
    pub open spec fn tree(&self) -> Tree {
        Tree::Sequence(
            Seq::empty()
                .push(
                    match self.nodes.0 {
                        Some(x) => Tree::Optional(Some(Box::new(x.tree()))),
                        None => Tree::Optional(None),
                    },
                )
                .push(self.nodes.1.tree())
                .push(
                    match self.nodes.2 {
                        Some(x) => Tree::Optional(Some(Box::new(assigned_value_tree(x)))),
                        None => Tree::Optional(None),
                    },
                ),
        )
    }

    /// Appends the leaf spans of the node to `out`, in source order.
    pub fn leaf_spans(&self, out: &mut Vec<Span>)
        ensures
            final(out)@ == leaves_after(old(out)@, self.tree()),
    {
        proof {
            reveal(TimingCheckEvent::tree);
        }
        match &self.nodes.0 {
            Some(x) => {
                x.leaf_spans(out);
            },
            None => {},
        }
        self.nodes.1.leaf_spans(out);
        match &self.nodes.2 {
            Some(x) => {
                x.0.leaf_spans(out);
                x.1.leaf_spans(out);
            },
            None => {},
        }
    }
}

impl ControlledTimingCheckEvent {
    /// The tree of the node: the sequence of the trees of its parts.
    #[verifier::opaque]
    pub open spec fn tree(&self) -> Tree {
        Tree::Sequence(
            Seq::empty()
                .push(self.nodes.0.tree())
                .push(self.nodes.1.tree())
                .push(
                    match self.nodes.2 {
                        Some(x) => Tree::Optional(Some(Box::new(assigned_value_tree(x)))),
                        None => Tree::Optional(None),
                    },
                ),
        )
    }

    /// Appends the leaf spans of the node to `out`, in source order.
    pub fn leaf_spans(&self, out: &mut Vec<Span>)
        ensures
            final(out)@ == leaves_after(old(out)@, self.tree()),
    {
        proof {
            reveal(ControlledTimingCheckEvent::tree);
        }
        self.nodes.0.leaf_spans(out);
        self.nodes.1.leaf_spans(out);
        match &self.nodes.2 {
            Some(x) => {
                x.0.leaf_spans(out);
                x.1.leaf_spans(out);
            },
            None => {},
        }
    }
}

/// `specify_terminal_descriptor ::= identifier [ bit_select ]`
#[verifier::opaque]
pub open spec fn spec_specify_terminal_descriptor(inp: Input, pos: int, nest: Nesting) -> Parsed {
    let a = spec_identifier(inp, pos);
    let b = optional(spec_bit_select(inp, rest(a), nest), rest(a));
    seq2(a, b)
}

/// Parses a `specify_terminal_descriptor` at `pos`.
pub fn specify_terminal_descriptor(ctx: &mut Parser, pos: usize, depth: usize) -> (r: Result<
    (usize, SpecifyTerminalDescriptor),
    Failure,
>)
    requires
        old(ctx).wf(),
        pos <= old(ctx).input().src.len(),
    ensures
        final(ctx).wf(),
        final(ctx).input() == old(ctx).input(),
        lift(r, |n: SpecifyTerminalDescriptor| n.tree()) == spec_specify_terminal_descriptor(
            old(ctx).input(),
            pos as int,
            nesting(old(ctx).input(), depth as nat),
        ),
        well_spanned(
            spec_specify_terminal_descriptor(
                old(ctx).input(),
                pos as int,
                nesting(old(ctx).input(), depth as nat),
            ),
            pos as int,
            old(ctx).input().src.len() as int,
        ),
{
    proof {
        reveal(spec_specify_terminal_descriptor);
        reveal(SpecifyTerminalDescriptor::tree);
    }
    let p = pos;
    let (p, a) = identifier(ctx, p)?;
    let (p, b) = opt(bit_select(ctx, p, depth), p)?;
    Ok((p, SpecifyTerminalDescriptor { nodes: (a, b) }))
}

/// `timing_check_guard ::= "&&&" timing_check_condition`
#[verifier::opaque]
pub open spec fn spec_timing_check_guard(inp: Input, pos: int, nest: Nesting) -> Parsed {
    let a = spec_symbol(inp, pos, "&&&");
    let b = (nest.expression)(rest(a));
    seq2(a, b)
}

/// Parses a `timing_check_guard` at `pos`.
pub fn timing_check_guard(ctx: &mut Parser, pos: usize, depth: usize) -> (r: Result<
    (usize, AssignedValue),
    Failure,
>)
    requires
        old(ctx).wf(),
        pos <= old(ctx).input().src.len(),
    ensures
        final(ctx).wf(),
        final(ctx).input() == old(ctx).input(),
        lift(r, |n: AssignedValue| assigned_value_tree(n)) == spec_timing_check_guard(
            old(ctx).input(),
            pos as int,
            nesting(old(ctx).input(), depth as nat),
        ),
        well_spanned(
            spec_timing_check_guard(
                old(ctx).input(),
                pos as int,
                nesting(old(ctx).input(), depth as nat),
            ),
            pos as int,
            old(ctx).input().src.len() as int,
        ),
{
    proof {
        reveal(spec_timing_check_guard);
    }
    let p = pos;
    let (p, a) = symbol(ctx, p, "&&&")?;
    let (p, b) = expression(ctx, p, depth)?;
    Ok((p, (a, b)))
}

/// `timing_check_event ::= [ timing_check_event_control ] specify_terminal_descriptor [
/// timing_check_guard ]`
#[verifier::opaque]
pub open spec fn spec_timing_check_event(inp: Input, pos: int, nest: Nesting) -> Parsed {
    let a = optional(spec_edge_identifier(inp, pos), pos);
    let b = spec_specify_terminal_descriptor(inp, rest(a), nest);
    let c = optional(spec_timing_check_guard(inp, rest(b), nest), rest(b));
    seq3(a, b, c)
}

/// Parses a `timing_check_event` at `pos`.
pub fn timing_check_event(ctx: &mut Parser, pos: usize, depth: usize) -> (r: Result<
    (usize, TimingCheckEvent),
    Failure,
>)
    requires
        old(ctx).wf(),
        pos <= old(ctx).input().src.len(),
    ensures
        final(ctx).wf(),
        final(ctx).input() == old(ctx).input(),
        lift(r, |n: TimingCheckEvent| n.tree()) == spec_timing_check_event(
            old(ctx).input(),
            pos as int,
            nesting(old(ctx).input(), depth as nat),
        ),
        well_spanned(
            spec_timing_check_event(
                old(ctx).input(),
                pos as int,
                nesting(old(ctx).input(), depth as nat),
            ),
            pos as int,
            old(ctx).input().src.len() as int,
        ),
{
    proof {
        reveal(spec_timing_check_event);
        reveal(TimingCheckEvent::tree);
    }
    let p = pos;
    let (p, a) = opt(edge_identifier(ctx, p), p)?;
    let (p, b) = specify_terminal_descriptor(ctx, p, depth)?;
    let (p, c) = opt(timing_check_guard(ctx, p, depth), p)?;
    Ok((p, TimingCheckEvent { nodes: (a, b, c) }))
}

/// `controlled_timing_check_event ::= timing_check_event_control
/// specify_terminal_descriptor [ timing_check_guard ]`
#[verifier::opaque]
pub open spec fn spec_controlled_timing_check_event(inp: Input, pos: int, nest: Nesting) -> Parsed {
    let a = spec_edge_identifier(inp, pos);
    let b = spec_specify_terminal_descriptor(inp, rest(a), nest);
    let c = optional(spec_timing_check_guard(inp, rest(b), nest), rest(b));
    seq3(a, b, c)
}

/// Parses a `controlled_timing_check_event` at `pos`.
pub fn controlled_timing_check_event(ctx: &mut Parser, pos: usize, depth: usize) -> (r: Result<
    (usize, ControlledTimingCheckEvent),
    Failure,
>)
    requires
        old(ctx).wf(),
        pos <= old(ctx).input().src.len(),
    ensures
        final(ctx).wf(),
        final(ctx).input() == old(ctx).input(),
        lift(r, |n: ControlledTimingCheckEvent| n.tree()) == spec_controlled_timing_check_event(
            old(ctx).input(),
            pos as int,
            nesting(old(ctx).input(), depth as nat),
        ),
        well_spanned(
            spec_controlled_timing_check_event(
                old(ctx).input(),
                pos as int,
                nesting(old(ctx).input(), depth as nat),
            ),
            pos as int,
            old(ctx).input().src.len() as int,
        ),
{
    proof {
        reveal(spec_controlled_timing_check_event);
        reveal(ControlledTimingCheckEvent::tree);
    }
    let p = pos;
    let (p, a) = edge_identifier(ctx, p)?;
    let (p, b) = specify_terminal_descriptor(ctx, p, depth)?;
    let (p, c) = opt(timing_check_guard(ctx, p, depth), p)?;
    Ok((p, ControlledTimingCheckEvent { nodes: (a, b, c) }))
}

} // verus!
