//! The arguments of system timing checks.
use vstd::prelude::*;
use crate::combinator::Parsed;
use crate::combinator::lift;
use crate::combinator::opt;
use crate::combinator::optional;
use crate::combinator::rest;
use crate::combinator::seq2;
use crate::combinator::seq3;
use crate::combinator::well_spanned;
use crate::context::Input;
use crate::context::Parser;
use crate::failure::Failure;
use crate::parser::expressions::expressions::Expression;
use crate::parser::expressions::expressions::expression;
use crate::parser::general::identifiers::VariableIdentifier;
use crate::parser::nesting::Nesting;
use crate::parser::nesting::nesting;
use crate::parser::specify_section::system_timing_check_event_definitions::ControlledTimingCheckEvent;
use crate::parser::specify_section::system_timing_check_event_definitions::SpecifyTerminalDescriptor;
use crate::parser::specify_section::system_timing_check_event_definitions::TimingCheckEvent;
use crate::parser::specify_section::system_timing_check_event_definitions::spec_specify_terminal_descriptor;
use crate::parser::specify_section::system_timing_check_event_definitions::specify_terminal_descriptor;
use crate::token::Symbol;
use crate::token::identifier;
use crate::token::spec_identifier;
use crate::token::spec_symbol;
use crate::token::symbol;
use crate::tree::Tree;
use crate::tree::group_layout;
use crate::tree::group_leaves;

verus! {

broadcast use {group_layout, group_leaves};

/// The limit of a timing check.
pub type TimingCheckLimit = Expression;

/// The condition of the time stamp event.
pub type TimestampCondition = Expression;

/// The condition of the time check event.
pub type TimecheckCondition = Expression;

/// Whether the check is based on events.
pub type EventBasedFlag = Expression;

/// Whether the check remains active.
pub type RemainActiveFlag = Expression;

/// The threshold of a width check.
pub type Threshold = Expression;

/// The offset of the start edge.
pub type StartEdgeOffset = Expression;

/// The offset of the end edge.
pub type EndEdgeOffset = Expression;

/// The variable that a violation toggles.
pub type Notifier = VariableIdentifier;

/// The delayed reference signal.
pub type DelayedReference = SpecifyTerminalDescriptor;

/// The delayed data signal.
pub type DelayedData = SpecifyTerminalDescriptor;

/// The data event of a timing check.
pub type DataEvent = TimingCheckEvent;

/// The reference event of a timing check.
pub type ReferenceEvent = TimingCheckEvent;

/// A reference event that names its edge.
pub type ControlledReferenceEvent = ControlledTimingCheckEvent;

/// What [`notifier_argument`] returns.
pub type NotifierArgument = (Symbol, Option<Notifier>);

/// What [`delayed_data_argument`] returns.
pub type DelayedDataArgument = (Symbol, Option<DelayedData>);

/// What [`delayed_reference_argument`] returns.
pub type DelayedReferenceArgument = (Symbol, Option<DelayedReference>, Option<DelayedDataArgument>);

/// What [`timecheck_condition_argument`] returns.
pub type TimecheckConditionArgument = (
    Symbol,
    Option<TimecheckCondition>,
    Option<DelayedReferenceArgument>,
);

/// What [`timestamp_condition_argument`] returns.
pub type TimestampConditionArgument = (
    Symbol,
    Option<TimestampCondition>,
    Option<TimecheckConditionArgument>,
);

/// What [`notifier_and_conditions_argument`] returns.
pub type NotifierAndConditionsArgument = (
    Symbol,
    Option<Notifier>,
    Option<TimestampConditionArgument>,
);

/// What [`remain_active_flag_argument`] returns.
pub type RemainActiveFlagArgument = (Symbol, Option<RemainActiveFlag>);

/// What [`event_based_flag_argument`] returns.
pub type EventBasedFlagArgument = (
    Symbol,
    Option<EventBasedFlag>,
    Option<RemainActiveFlagArgument>,
);

/// What [`notifier_and_flags_argument`] returns.
pub type NotifierAndFlagsArgument = (Symbol, Option<Notifier>, Option<EventBasedFlagArgument>);

/// The tree of what [`notifier_argument`] returns.
#[verifier::opaque]
pub open spec fn notifier_argument_tree(n: NotifierArgument) -> Tree {
    Tree::Sequence(
        Seq::empty()
            .push(n.0.tree())
            .push(
                match n.1 {
                    Some(x) => Tree::Optional(Some(Box::new(x.tree()))),
                    None => Tree::Optional(None),
                },
            ),
    )
}

/// The tree of what [`delayed_data_argument`] returns.
#[verifier::opaque]
pub open spec fn delayed_data_argument_tree(n: DelayedDataArgument) -> Tree {
    Tree::Sequence(
        Seq::empty()
            .push(n.0.tree())
            .push(
                match n.1 {
                    Some(x) => Tree::Optional(Some(Box::new(x.tree()))),
                    None => Tree::Optional(None),
                },
            ),
    )
}

/// The tree of what [`delayed_reference_argument`] returns.
#[verifier::opaque]
pub open spec fn delayed_reference_argument_tree(n: DelayedReferenceArgument) -> Tree {
    Tree::Sequence(
        Seq::empty()
            .push(n.0.tree())
            .push(
                match n.1 {
                    Some(x) => Tree::Optional(Some(Box::new(x.tree()))),
                    None => Tree::Optional(None),
                },
            )
            .push(
                match n.2 {
                    Some(x) => Tree::Optional(Some(Box::new(delayed_data_argument_tree(x)))),
                    None => Tree::Optional(None),
                },
            ),
    )
}

/// The tree of what [`timecheck_condition_argument`] returns.
#[verifier::opaque]
pub open spec fn timecheck_condition_argument_tree(n: TimecheckConditionArgument) -> Tree {
    Tree::Sequence(
        Seq::empty()
            .push(n.0.tree())
            .push(
                match n.1 {
                    Some(x) => Tree::Optional(Some(Box::new(x.tree()))),
                    None => Tree::Optional(None),
                },
            )
            .push(
                match n.2 {
                    Some(x) => Tree::Optional(Some(Box::new(delayed_reference_argument_tree(x)))),
                    None => Tree::Optional(None),
                },
            ),
    )
}

/// The tree of what [`timestamp_condition_argument`] returns.
#[verifier::opaque]
pub open spec fn timestamp_condition_argument_tree(n: TimestampConditionArgument) -> Tree {
    Tree::Sequence(
        Seq::empty()
            .push(n.0.tree())
            .push(
                match n.1 {
                    Some(x) => Tree::Optional(Some(Box::new(x.tree()))),
                    None => Tree::Optional(None),
                },
            )
            .push(
                match n.2 {
                    Some(x) => Tree::Optional(Some(Box::new(timecheck_condition_argument_tree(x)))),
                    None => Tree::Optional(None),
                },
            ),
    )
}

/// The tree of what [`notifier_and_conditions_argument`] returns.
#[verifier::opaque]
pub open spec fn notifier_and_conditions_argument_tree(n: NotifierAndConditionsArgument) -> Tree {
    Tree::Sequence(
        Seq::empty()
            .push(n.0.tree())
            .push(
                match n.1 {
                    Some(x) => Tree::Optional(Some(Box::new(x.tree()))),
                    None => Tree::Optional(None),
                },
            )
            .push(
                match n.2 {
                    Some(x) => Tree::Optional(Some(Box::new(timestamp_condition_argument_tree(x)))),
                    None => Tree::Optional(None),
                },
            ),
    )
}

/// The tree of what [`remain_active_flag_argument`] returns.
#[verifier::opaque]
pub open spec fn remain_active_flag_argument_tree(n: RemainActiveFlagArgument) -> Tree {
    Tree::Sequence(
        Seq::empty()
            .push(n.0.tree())
            .push(
                match n.1 {
                    Some(x) => Tree::Optional(Some(Box::new(x.tree()))),
                    None => Tree::Optional(None),
                },
            ),
    )
}

/// The tree of what [`event_based_flag_argument`] returns.
#[verifier::opaque]
pub open spec fn event_based_flag_argument_tree(n: EventBasedFlagArgument) -> Tree {
    Tree::Sequence(
        Seq::empty()
            .push(n.0.tree())
            .push(
                match n.1 {
                    Some(x) => Tree::Optional(Some(Box::new(x.tree()))),
                    None => Tree::Optional(None),
                },
            )
            .push(
                match n.2 {
                    Some(x) => Tree::Optional(Some(Box::new(remain_active_flag_argument_tree(x)))),
                    None => Tree::Optional(None),
                },
            ),
    )
}

/// The tree of what [`notifier_and_flags_argument`] returns.
#[verifier::opaque]
pub open spec fn notifier_and_flags_argument_tree(n: NotifierAndFlagsArgument) -> Tree {
    Tree::Sequence(
        Seq::empty()
            .push(n.0.tree())
            .push(
                match n.1 {
                    Some(x) => Tree::Optional(Some(Box::new(x.tree()))),
                    None => Tree::Optional(None),
                },
            )
            .push(
                match n.2 {
                    Some(x) => Tree::Optional(Some(Box::new(event_based_flag_argument_tree(x)))),
                    None => Tree::Optional(None),
                },
            ),
    )
}

/// `notifier_argument ::= "," [ notifier ]` The separating comma comes first: an
/// argument can only be given where every argument before it has its comma, though it
/// may be left empty.
#[verifier::opaque]
pub open spec fn spec_notifier_argument(inp: Input, pos: int) -> Parsed {
    let a = spec_symbol(inp, pos, ",");
    let b = optional(spec_identifier(inp, rest(a)), rest(a));
    seq2(a, b)
}

/// Parses a `notifier_argument` at `pos`.
pub fn notifier_argument(ctx: &Parser, pos: usize) -> (r: Result<
    (usize, NotifierArgument),
    Failure,
>)
    requires
        pos <= ctx.input().src.len(),
    ensures
        lift(r, |n: NotifierArgument| notifier_argument_tree(n)) == spec_notifier_argument(
            ctx.input(),
            pos as int,
        ),
        well_spanned(
            spec_notifier_argument(ctx.input(), pos as int),
            pos as int,
            ctx.input().src.len() as int,
        ),
{
    proof {
        reveal(spec_notifier_argument);
        reveal(notifier_argument_tree);
    }
    let p = pos;
    let (p, a) = symbol(ctx, p, ",")?;
    let (p, b) = opt(identifier(ctx, p), p)?;
    Ok((p, (a, b)))
}

/// `delayed_data_argument ::= "," [ delayed_data ]` The separating comma comes first:
/// an argument can only be given where every argument before it has its comma, though
/// it may be left empty.
#[verifier::opaque]
pub open spec fn spec_delayed_data_argument(inp: Input, pos: int, nest: Nesting) -> Parsed {
    let a = spec_symbol(inp, pos, ",");
    let b = optional(spec_specify_terminal_descriptor(inp, rest(a), nest), rest(a));
    seq2(a, b)
}

/// Parses a `delayed_data_argument` at `pos`.
pub fn delayed_data_argument(ctx: &mut Parser, pos: usize, depth: usize) -> (r: Result<
    (usize, DelayedDataArgument),
    Failure,
>)
    requires
        old(ctx).wf(),
        pos <= old(ctx).input().src.len(),
    ensures
        final(ctx).wf(),
        final(ctx).input() == old(ctx).input(),
        lift(r, |n: DelayedDataArgument| delayed_data_argument_tree(n))
            == spec_delayed_data_argument(
                old(ctx).input(),
                pos as int,
                nesting(old(ctx).input(), depth as nat),
            ),
        well_spanned(
            spec_delayed_data_argument(
                old(ctx).input(),
                pos as int,
                nesting(old(ctx).input(), depth as nat),
            ),
            pos as int,
            old(ctx).input().src.len() as int,
        ),
{
    proof {
        reveal(spec_delayed_data_argument);
        reveal(delayed_data_argument_tree);
    }
    let p = pos;
    let (p, a) = symbol(ctx, p, ",")?;
    let (p, b) = opt(specify_terminal_descriptor(ctx, p, depth), p)?;
    Ok((p, (a, b)))
}

/// `delayed_reference_argument ::= "," [ delayed_reference ] [ delayed_data_argument ]`
/// The separating comma comes first: an argument can only be given where every argument
/// before it has its comma, though it may be left empty.
#[verifier::opaque]
pub open spec fn spec_delayed_reference_argument(inp: Input, pos: int, nest: Nesting) -> Parsed {
    let a = spec_symbol(inp, pos, ",");
    let b = optional(spec_specify_terminal_descriptor(inp, rest(a), nest), rest(a));
    let c = optional(spec_delayed_data_argument(inp, rest(b), nest), rest(b));
    seq3(a, b, c)
}

/// Parses a `delayed_reference_argument` at `pos`.
pub fn delayed_reference_argument(ctx: &mut Parser, pos: usize, depth: usize) -> (r: Result<
    (usize, DelayedReferenceArgument),
    Failure,
>)
    requires
        old(ctx).wf(),
        pos <= old(ctx).input().src.len(),
    ensures
        final(ctx).wf(),
        final(ctx).input() == old(ctx).input(),
        lift(r, |n: DelayedReferenceArgument| delayed_reference_argument_tree(n))
            == spec_delayed_reference_argument(
                old(ctx).input(),
                pos as int,
                nesting(old(ctx).input(), depth as nat),
            ),
        well_spanned(
            spec_delayed_reference_argument(
                old(ctx).input(),
                pos as int,
                nesting(old(ctx).input(), depth as nat),
            ),
            pos as int,
            old(ctx).input().src.len() as int,
        ),
{
    proof {
        reveal(spec_delayed_reference_argument);
        reveal(delayed_reference_argument_tree);
    }
    let p = pos;
    let (p, a) = symbol(ctx, p, ",")?;
    let (p, b) = opt(specify_terminal_descriptor(ctx, p, depth), p)?;
    let (p, c) = opt(delayed_data_argument(ctx, p, depth), p)?;
    Ok((p, (a, b, c)))
}

/// `timecheck_condition_argument ::= "," [ timecheck_condition ] [
/// delayed_reference_argument ]` The separating comma comes first: an argument can only
/// be given where every argument before it has its comma, though it may be left empty.
#[verifier::opaque]
pub open spec fn spec_timecheck_condition_argument(inp: Input, pos: int, nest: Nesting) -> Parsed {
    let a = spec_symbol(inp, pos, ",");
    let b = optional((nest.expression)(rest(a)), rest(a));
    let c = optional(spec_delayed_reference_argument(inp, rest(b), nest), rest(b));
    seq3(a, b, c)
}

/// Parses a `timecheck_condition_argument` at `pos`.
pub fn timecheck_condition_argument(ctx: &mut Parser, pos: usize, depth: usize) -> (r: Result<
    (usize, TimecheckConditionArgument),
    Failure,
>)
    requires
        old(ctx).wf(),
        pos <= old(ctx).input().src.len(),
    ensures
        final(ctx).wf(),
        final(ctx).input() == old(ctx).input(),
        lift(r, |n: TimecheckConditionArgument| timecheck_condition_argument_tree(n))
            == spec_timecheck_condition_argument(
                old(ctx).input(),
                pos as int,
                nesting(old(ctx).input(), depth as nat),
            ),
        well_spanned(
            spec_timecheck_condition_argument(
                old(ctx).input(),
                pos as int,
                nesting(old(ctx).input(), depth as nat),
            ),
            pos as int,
            old(ctx).input().src.len() as int,
        ),
{
    proof {
        reveal(spec_timecheck_condition_argument);
        reveal(timecheck_condition_argument_tree);
    }
    let p = pos;
    let (p, a) = symbol(ctx, p, ",")?;
    let (p, b) = opt(expression(ctx, p, depth), p)?;
    let (p, c) = opt(delayed_reference_argument(ctx, p, depth), p)?;
    Ok((p, (a, b, c)))
}

/// `timestamp_condition_argument ::= "," [ timestamp_condition ] [
/// timecheck_condition_argument ]` The separating comma comes first: an argument can
/// only be given where every argument before it has its comma, though it may be left
/// empty.
#[verifier::opaque]
pub open spec fn spec_timestamp_condition_argument(inp: Input, pos: int, nest: Nesting) -> Parsed {
    let a = spec_symbol(inp, pos, ",");
    let b = optional((nest.expression)(rest(a)), rest(a));
    let c = optional(spec_timecheck_condition_argument(inp, rest(b), nest), rest(b));
    seq3(a, b, c)
}

/// Parses a `timestamp_condition_argument` at `pos`.
pub fn timestamp_condition_argument(ctx: &mut Parser, pos: usize, depth: usize) -> (r: Result<
    (usize, TimestampConditionArgument),
    Failure,
>)
    requires
        old(ctx).wf(),
        pos <= old(ctx).input().src.len(),
    ensures
        final(ctx).wf(),
        final(ctx).input() == old(ctx).input(),
        lift(r, |n: TimestampConditionArgument| timestamp_condition_argument_tree(n))
            == spec_timestamp_condition_argument(
                old(ctx).input(),
                pos as int,
                nesting(old(ctx).input(), depth as nat),
            ),
        well_spanned(
            spec_timestamp_condition_argument(
                old(ctx).input(),
                pos as int,
                nesting(old(ctx).input(), depth as nat),
            ),
            pos as int,
            old(ctx).input().src.len() as int,
        ),
{
    proof {
        reveal(spec_timestamp_condition_argument);
        reveal(timestamp_condition_argument_tree);
    }
    let p = pos;
    let (p, a) = symbol(ctx, p, ",")?;
    let (p, b) = opt(expression(ctx, p, depth), p)?;
    let (p, c) = opt(timecheck_condition_argument(ctx, p, depth), p)?;
    Ok((p, (a, b, c)))
}

/// `notifier_and_conditions_argument ::= "," [ notifier ] [
/// timestamp_condition_argument ]` The separating comma comes first: an argument can
/// only be given where every argument before it has its comma, though it may be left
/// empty.
#[verifier::opaque]
pub open spec fn spec_notifier_and_conditions_argument(
    inp: Input,
    pos: int,
    nest: Nesting,
) -> Parsed {
    let a = spec_symbol(inp, pos, ",");
    let b = optional(spec_identifier(inp, rest(a)), rest(a));
    let c = optional(spec_timestamp_condition_argument(inp, rest(b), nest), rest(b));
    seq3(a, b, c)
}

/// Parses a `notifier_and_conditions_argument` at `pos`.
pub fn notifier_and_conditions_argument(ctx: &mut Parser, pos: usize, depth: usize) -> (r: Result<
    (usize, NotifierAndConditionsArgument),
    Failure,
>)
    requires
        old(ctx).wf(),
        pos <= old(ctx).input().src.len(),
    ensures
        final(ctx).wf(),
        final(ctx).input() == old(ctx).input(),
        lift(r, |n: NotifierAndConditionsArgument| notifier_and_conditions_argument_tree(n))
            == spec_notifier_and_conditions_argument(
                old(ctx).input(),
                pos as int,
                nesting(old(ctx).input(), depth as nat),
            ),
        well_spanned(
            spec_notifier_and_conditions_argument(
                old(ctx).input(),
                pos as int,
                nesting(old(ctx).input(), depth as nat),
            ),
            pos as int,
            old(ctx).input().src.len() as int,
        ),
{
    proof {
        reveal(spec_notifier_and_conditions_argument);
        reveal(notifier_and_conditions_argument_tree);
    }
    let p = pos;
    let (p, a) = symbol(ctx, p, ",")?;
    let (p, b) = opt(identifier(ctx, p), p)?;
    let (p, c) = opt(timestamp_condition_argument(ctx, p, depth), p)?;
    Ok((p, (a, b, c)))
}

/// `remain_active_flag_argument ::= "," [ remain_active_flag ]` The separating comma
/// comes first: an argument can only be given where every argument before it has its
/// comma, though it may be left empty.
#[verifier::opaque]
pub open spec fn spec_remain_active_flag_argument(inp: Input, pos: int, nest: Nesting) -> Parsed {
    let a = spec_symbol(inp, pos, ",");
    let b = optional((nest.expression)(rest(a)), rest(a));
    seq2(a, b)
}

/// Parses a `remain_active_flag_argument` at `pos`.
pub fn remain_active_flag_argument(ctx: &mut Parser, pos: usize, depth: usize) -> (r: Result<
    (usize, RemainActiveFlagArgument),
    Failure,
>)
    requires
        old(ctx).wf(),
        pos <= old(ctx).input().src.len(),
    ensures
        final(ctx).wf(),
        final(ctx).input() == old(ctx).input(),
        lift(r, |n: RemainActiveFlagArgument| remain_active_flag_argument_tree(n))
            == spec_remain_active_flag_argument(
                old(ctx).input(),
                pos as int,
                nesting(old(ctx).input(), depth as nat),
            ),
        well_spanned(
            spec_remain_active_flag_argument(
                old(ctx).input(),
                pos as int,
                nesting(old(ctx).input(), depth as nat),
            ),
            pos as int,
            old(ctx).input().src.len() as int,
        ),
{
    proof {
        reveal(spec_remain_active_flag_argument);
        reveal(remain_active_flag_argument_tree);
    }
    let p = pos;
    let (p, a) = symbol(ctx, p, ",")?;
    let (p, b) = opt(expression(ctx, p, depth), p)?;
    Ok((p, (a, b)))
}

/// `event_based_flag_argument ::= "," [ event_based_flag ] [
/// remain_active_flag_argument ]` The separating comma comes first: an argument can
/// only be given where every argument before it has its comma, though it may be left
/// empty.
#[verifier::opaque]
pub open spec fn spec_event_based_flag_argument(inp: Input, pos: int, nest: Nesting) -> Parsed {
    let a = spec_symbol(inp, pos, ",");
    let b = optional((nest.expression)(rest(a)), rest(a));
    let c = optional(spec_remain_active_flag_argument(inp, rest(b), nest), rest(b));
    seq3(a, b, c)
}

/// Parses a `event_based_flag_argument` at `pos`.
pub fn event_based_flag_argument(ctx: &mut Parser, pos: usize, depth: usize) -> (r: Result<
    (usize, EventBasedFlagArgument),
    Failure,
>)
    requires
        old(ctx).wf(),
        pos <= old(ctx).input().src.len(),
    ensures
        final(ctx).wf(),
        final(ctx).input() == old(ctx).input(),
        lift(r, |n: EventBasedFlagArgument| event_based_flag_argument_tree(n))
            == spec_event_based_flag_argument(
                old(ctx).input(),
                pos as int,
                nesting(old(ctx).input(), depth as nat),
            ),
        well_spanned(
            spec_event_based_flag_argument(
                old(ctx).input(),
                pos as int,
                nesting(old(ctx).input(), depth as nat),
            ),
            pos as int,
            old(ctx).input().src.len() as int,
        ),
{
    proof {
        reveal(spec_event_based_flag_argument);
        reveal(event_based_flag_argument_tree);
    }
    let p = pos;
    let (p, a) = symbol(ctx, p, ",")?;
    let (p, b) = opt(expression(ctx, p, depth), p)?;
    let (p, c) = opt(remain_active_flag_argument(ctx, p, depth), p)?;
    Ok((p, (a, b, c)))
}

/// `notifier_and_flags_argument ::= "," [ notifier ] [ event_based_flag_argument ]` The
/// separating comma comes first: an argument can only be given where every argument
/// before it has its comma, though it may be left empty.
#[verifier::opaque]
pub open spec fn spec_notifier_and_flags_argument(inp: Input, pos: int, nest: Nesting) -> Parsed {
    let a = spec_symbol(inp, pos, ",");
    let b = optional(spec_identifier(inp, rest(a)), rest(a));
    let c = optional(spec_event_based_flag_argument(inp, rest(b), nest), rest(b));
    seq3(a, b, c)
}

/// Parses a `notifier_and_flags_argument` at `pos`.
pub fn notifier_and_flags_argument(ctx: &mut Parser, pos: usize, depth: usize) -> (r: Result<
    (usize, NotifierAndFlagsArgument),
    Failure,
>)
    requires
        old(ctx).wf(),
        pos <= old(ctx).input().src.len(),
    ensures
        final(ctx).wf(),
        final(ctx).input() == old(ctx).input(),
        lift(r, |n: NotifierAndFlagsArgument| notifier_and_flags_argument_tree(n))
            == spec_notifier_and_flags_argument(
                old(ctx).input(),
                pos as int,
                nesting(old(ctx).input(), depth as nat),
            ),
        well_spanned(
            spec_notifier_and_flags_argument(
                old(ctx).input(),
                pos as int,
                nesting(old(ctx).input(), depth as nat),
            ),
            pos as int,
            old(ctx).input().src.len() as int,
        ),
{
    proof {
        reveal(spec_notifier_and_flags_argument);
        reveal(notifier_and_flags_argument_tree);
    }
    let p = pos;
    let (p, a) = symbol(ctx, p, ",")?;
    let (p, b) = opt(identifier(ctx, p), p)?;
    let (p, c) = opt(event_based_flag_argument(ctx, p, depth), p)?;
    Ok((p, (a, b, c)))
}

} // verus!
