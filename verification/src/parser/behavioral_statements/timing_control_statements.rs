//! Delay and event controls.
use vstd::prelude::*;
use crate::combinator::Parsed;
use crate::combinator::append;
use crate::combinator::delimited;
use crate::combinator::lemma_append_empty;
use crate::combinator::lemma_append_no_more;
use crate::combinator::lemma_append_prepend;
use crate::combinator::lift;
use crate::combinator::list;
use crate::combinator::no_more;
use crate::combinator::opt;
use crate::combinator::optional;
use crate::combinator::or_else;
use crate::combinator::prepend;
use crate::combinator::rest;
use crate::combinator::seq1;
use crate::combinator::seq2;
use crate::combinator::seq3;
use crate::combinator::variant;
use crate::combinator::well_spanned;
use crate::context::Input;
use crate::context::Parser;
use crate::failure::Failure;
use crate::node::List;
use crate::node::Paren;
use crate::node::separated;
use crate::parser::expressions::expressions::Expression;
use crate::parser::expressions::expressions::expression;
use crate::parser::expressions::primaries::parenthesized_expression_tree;
use crate::parser::nesting::Nesting;
use crate::parser::nesting::nesting;
use crate::span::Span;
use crate::token::Identifier;
use crate::token::IntegralNumber;
use crate::token::Keyword;
use crate::token::Symbol;
use crate::token::identifier;
use crate::token::integral_number;
use crate::token::keyword;
use crate::token::spec_identifier;
use crate::token::spec_integral_number;
use crate::token::spec_keyword;
use crate::token::spec_symbol;
use crate::token::symbol;
use crate::tree::Tree;
use crate::tree::group_layout;
use crate::tree::group_leaves;
use crate::tree::leaves_after;
use crate::tree::tiled;
use crate::tree::width;

verus! {

broadcast use {group_layout, group_leaves};

/// The edge of a signal.
#[derive(Debug)]
pub enum EdgeIdentifier {
    Posedge(Box<Keyword>),
    Negedge(Box<Keyword>),
    Edge(Box<Keyword>),
}

/// The length of a delay: a number or a name.
#[derive(Debug)]
pub enum DelayValue {
    Number(Box<IntegralNumber>),
    Identifier(Box<Identifier>),
}

/// `delay_control_delay ::= "#" delay_value`
#[derive(Debug)]
pub struct DelayControlDelay {
    pub nodes: (Symbol, DelayValue),
}

/// `delay_control_mintypmax ::= "#" "(" expression ")"`
#[derive(Debug)]
pub struct DelayControlMintypmax {
    pub nodes: (Symbol, Paren<Expression>),
}

/// A delay control.
#[derive(Debug)]
pub enum DelayControl {
    Delay(Box<DelayControlDelay>),
    Mintypmax(Box<DelayControlMintypmax>),
}

/// `event_term ::= [ edge_identifier ] expression [ iff_condition ]`
#[derive(Debug)]
pub struct EventTerm {
    pub nodes: (Option<EdgeIdentifier>, Expression, Option<(Keyword, Expression)>),
}

/// `event_expression ::= event_term { "or" event_term }`
#[derive(Debug)]
pub struct EventExpression {
    pub nodes: (List<Keyword, EventTerm>,),
}

/// What [`iff_condition`] returns.
pub type IffCondition = (Keyword, Expression);

impl EdgeIdentifier {
    /// The tree of the node: the variant, by its index, and the tree of its payload.
    #[verifier::opaque]
    pub open spec fn tree(&self) -> Tree {
        match self {
            EdgeIdentifier::Posedge(x) => Tree::Variant(0, Box::new(x.tree())),
            EdgeIdentifier::Negedge(x) => Tree::Variant(1, Box::new(x.tree())),
            EdgeIdentifier::Edge(x) => Tree::Variant(2, Box::new(x.tree())),
        }
    }

    /// Appends the leaf spans of the node to `out`, in source order.
    pub fn leaf_spans(&self, out: &mut Vec<Span>)
        ensures
            final(out)@ == leaves_after(old(out)@, self.tree()),
    {
        proof {
            reveal(EdgeIdentifier::tree);
        }
        match self {
            EdgeIdentifier::Posedge(x) => {
                x.leaf_spans(out);
            },
            EdgeIdentifier::Negedge(x) => {
                x.leaf_spans(out);
            },
            EdgeIdentifier::Edge(x) => {
                x.leaf_spans(out);
            },
        }
    }
}

impl DelayValue {
    /// The tree of the node: the variant, by its index, and the tree of its payload.
    #[verifier::opaque]
    pub open spec fn tree(&self) -> Tree {
        match self {
            DelayValue::Number(x) => Tree::Variant(0, Box::new(x.tree())),
            DelayValue::Identifier(x) => Tree::Variant(1, Box::new(x.tree())),
        }
    }

    /// Appends the leaf spans of the node to `out`, in source order.
    pub fn leaf_spans(&self, out: &mut Vec<Span>)
        ensures
            final(out)@ == leaves_after(old(out)@, self.tree()),
    {
        proof {
            reveal(DelayValue::tree);
        }
        match self {
            DelayValue::Number(x) => {
                x.leaf_spans(out);
            },
            DelayValue::Identifier(x) => {
                x.leaf_spans(out);
            },
        }
    }
}

impl DelayControlDelay {
    /// The tree of the node: the sequence of the trees of its parts.
    #[verifier::opaque]
    pub open spec fn tree(&self) -> Tree {
        Tree::Sequence(
            Seq::empty()
                .push(self.nodes.0.tree())
                .push(self.nodes.1.tree()),
        )
    }

    /// Appends the leaf spans of the node to `out`, in source order.
    pub fn leaf_spans(&self, out: &mut Vec<Span>)
        ensures
            final(out)@ == leaves_after(old(out)@, self.tree()),
    {
        proof {
            reveal(DelayControlDelay::tree);
        }
        self.nodes.0.leaf_spans(out);
        self.nodes.1.leaf_spans(out);
    }
}

impl DelayControlMintypmax {
    /// The tree of the node: the sequence of the trees of its parts.
    #[verifier::opaque]
    pub open spec fn tree(&self) -> Tree {
        Tree::Sequence(
            Seq::empty()
                .push(self.nodes.0.tree())
                .push(parenthesized_expression_tree(self.nodes.1)),
        )
    }

    /// Appends the leaf spans of the node to `out`, in source order.
    pub fn leaf_spans(&self, out: &mut Vec<Span>)
        ensures
            final(out)@ == leaves_after(old(out)@, self.tree()),
    {
        proof {
            reveal(DelayControlMintypmax::tree);
        }
        self.nodes.0.leaf_spans(out);
        self.nodes.1.nodes.0.leaf_spans(out);
        self.nodes.1.nodes.1.leaf_spans(out);
        self.nodes.1.nodes.2.leaf_spans(out);
    }
}

impl DelayControl {
    /// The tree of the node: the variant, by its index, and the tree of its payload.
    #[verifier::opaque]
    pub open spec fn tree(&self) -> Tree {
        match self {
            DelayControl::Delay(x) => Tree::Variant(0, Box::new(x.tree())),
            DelayControl::Mintypmax(x) => Tree::Variant(1, Box::new(x.tree())),
        }
    }

    /// Appends the leaf spans of the node to `out`, in source order.
    pub fn leaf_spans(&self, out: &mut Vec<Span>)
        ensures
            final(out)@ == leaves_after(old(out)@, self.tree()),
    {
        proof {
            reveal(DelayControl::tree);
        }
        match self {
            DelayControl::Delay(x) => {
                x.leaf_spans(out);
            },
            DelayControl::Mintypmax(x) => {
                x.leaf_spans(out);
            },
        }
    }
}

impl EventTerm {
    /// The tree of the node: the sequence of the trees of its parts.
    #[verifier::opaque]
    pub open spec fn tree(&self) -> Tree {
        Tree::Sequence(
            Seq::empty()
                .push(
                    match self.nodes.0 {
                        Some(x) => Tree::Optional(Some(Box::new(x.tree()))),
                        None => Tree::Optional(None),
                    },
                )
                .push(self.nodes.1.tree())
                .push(
                    match self.nodes.2 {
                        Some(x) => Tree::Optional(Some(Box::new(iff_condition_tree(x)))),
                        None => Tree::Optional(None),
                    },
                ),
        )
    }

    /// Appends the leaf spans of the node to `out`, in source order.
    pub fn leaf_spans(&self, out: &mut Vec<Span>)
        ensures
            final(out)@ == leaves_after(old(out)@, self.tree()),
    {
        proof {
            reveal(EventTerm::tree);
            reveal(iff_condition_tree);
        }
        match &self.nodes.0 {
            Some(x) => {
                x.leaf_spans(out);
            },
            None => {},
        }
        self.nodes.1.leaf_spans(out);
        match &self.nodes.2 {
            Some(x) => {
                x.0.leaf_spans(out);
                x.1.leaf_spans(out);
            },
            None => {},
        }
    }
}

impl EventExpression {
    /// The tree of the node: the sequence of the trees of its parts.
    #[verifier::opaque]
    pub open spec fn tree(&self) -> Tree {
        Tree::Sequence(
            Seq::empty()
                .push(
                    self.nodes.0.tree(
                        self.nodes.0.nodes.0.tree(),
                        event_term_tail_trees(self.nodes.0.nodes.1@),
                    ),
                ),
        )
    }

    /// Appends the leaf spans of the node to `out`, in source order.
    pub fn leaf_spans(&self, out: &mut Vec<Span>)
        ensures
            final(out)@ == leaves_after(old(out)@, self.tree()),
    {
        proof {
            reveal(EventExpression::tree);
        }
        self.nodes.0.nodes.0.leaf_spans(out);
        event_term_tail_leaf_spans(&self.nodes.0.nodes.1, out);
    }
}

/// The tree of what [`iff_condition`] returns.
#[verifier::opaque]
pub open spec fn iff_condition_tree(n: IffCondition) -> Tree {
    Tree::Sequence(Seq::empty().push(n.0.tree()).push(n.1.tree()))
}

/// The trees of a list of such nodes, in order.
#[verifier::opaque]
pub open spec fn event_term_tail_trees(s: Seq<(Keyword, EventTerm)>) -> Seq<Tree> {
    Seq::new(
        s.len(),
        |i: int| if 0 <= i < s.len() {
            separated(s[i].0.tree(), s[i].1.tree())
        } else {
            arbitrary()
        },
    )
}

/// The trees of a list that has one more node at its end.
pub proof fn lemma_event_term_tail_trees_push(s: Seq<(Keyword, EventTerm)>, x: (Keyword, EventTerm))
    ensures
        event_term_tail_trees(s.push(x)) == event_term_tail_trees(s).push(
            separated(x.0.tree(), x.1.tree()),
        ),
{
    reveal(event_term_tail_trees);
    assert forall|i: int| 0 <= i < s.len() + 1 implies
        #[trigger] event_term_tail_trees(s.push(x))[i]
        == event_term_tail_trees(s).push(separated(x.0.tree(), x.1.tree()))[i] by {
        let y = s.push(x)[i];
        assert(separated(y.0.tree(), y.1.tree()) == if i < s.len() {
            separated(s[i].0.tree(), s[i].1.tree())
        } else {
            separated(x.0.tree(), x.1.tree())
        });
    }
    assert(
        event_term_tail_trees(s.push(x)) =~= event_term_tail_trees(s).push(
            separated(x.0.tree(), x.1.tree()),
        )
    );
}

/// The empty list has no trees.
pub proof fn lemma_event_term_tail_trees_empty()
    ensures
        event_term_tail_trees(Seq::empty()) == Seq::<Tree>::empty(),
{
    reveal(event_term_tail_trees);
    assert(event_term_tail_trees(Seq::empty()) =~= Seq::<Tree>::empty());
}

/// Appends the leaf spans of a list of nodes to `out`, in source order.
pub fn event_term_tail_leaf_spans(v: &Vec<(Keyword, EventTerm)>, out: &mut Vec<Span>)
    ensures
        final(out)@ == leaves_after(old(out)@, Tree::Repeat(event_term_tail_trees(v@))),
{
    let mut i: usize = 0;
    proof {
        lemma_event_term_tail_trees_empty();
        assert(v@.take(0) =~= Seq::empty());
    }
    while i < v.len()
        invariant
            i <= v@.len(),
            out@ == leaves_after(old(out)@, Tree::Repeat(event_term_tail_trees(v@.take(i as int)))),
        decreases v@.len() - i,
    {
        v[i].0.leaf_spans(out);
        v[i].1.leaf_spans(out);
        proof {
            lemma_event_term_tail_trees_push(v@.take(i as int), v@[i as int]);
            assert(v@.take(i as int).push(v@[i as int]) =~= v@.take(i + 1));
        }
        i = i + 1;
    }
    proof {
        assert(v@.take(v@.len() as int) =~= v@);
    }
}

/// `edge_identifier ::= "posedge" | "negedge" | "edge"`
#[verifier::opaque]
pub open spec fn spec_edge_identifier(inp: Input, pos: int) -> Parsed {
    let r = variant(0, spec_keyword(inp, pos, "posedge"));
    let r = or_else(r, variant(1, spec_keyword(inp, pos, "negedge")));
    let r = or_else(r, variant(2, spec_keyword(inp, pos, "edge")));
    r
}

/// Parses a `edge_identifier` at `pos`: the first alternative that matches.
pub fn edge_identifier(ctx: &Parser, pos: usize) -> (r: Result<(usize, EdgeIdentifier), Failure>)
    requires
        pos <= ctx.input().src.len(),
    ensures
        lift(r, |n: EdgeIdentifier| n.tree()) == spec_edge_identifier(ctx.input(), pos as int),
        well_spanned(
            spec_edge_identifier(ctx.input(), pos as int),
            pos as int,
            ctx.input().src.len() as int,
        ),
{
    proof {
        reveal(spec_edge_identifier);
        reveal(EdgeIdentifier::tree);
    }
    let e = match keyword(ctx, pos, "posedge") {
        Ok((p, x)) => return Ok((p, EdgeIdentifier::Posedge(Box::new(x)))),
        Err(e) => e,
    };
    if e.committed {
        return Err(e);
    }
    let e = match keyword(ctx, pos, "negedge") {
        Ok((p, x)) => return Ok((p, EdgeIdentifier::Negedge(Box::new(x)))),
        Err(f) => if f.committed {
            return Err(f);
        } else {
            e.or_deeper(f)
        },
    };
    let e = match keyword(ctx, pos, "edge") {
        Ok((p, x)) => return Ok((p, EdgeIdentifier::Edge(Box::new(x)))),
        Err(f) => if f.committed {
            return Err(f);
        } else {
            e.or_deeper(f)
        },
    };
    Err(e)
}

/// `delay_value ::= integral_number | identifier`
#[verifier::opaque]
pub open spec fn spec_delay_value(inp: Input, pos: int) -> Parsed {
    let r = variant(0, spec_integral_number(inp, pos));
    let r = or_else(r, variant(1, spec_identifier(inp, pos)));
    r
}

/// Parses a `delay_value` at `pos`: the first alternative that matches.
pub fn delay_value(ctx: &Parser, pos: usize) -> (r: Result<(usize, DelayValue), Failure>)
    requires
        pos <= ctx.input().src.len(),
    ensures
        lift(r, |n: DelayValue| n.tree()) == spec_delay_value(ctx.input(), pos as int),
        well_spanned(
            spec_delay_value(ctx.input(), pos as int),
            pos as int,
            ctx.input().src.len() as int,
        ),
{
    proof {
        reveal(spec_delay_value);
        reveal(DelayValue::tree);
    }
    let e = match integral_number(ctx, pos) {
        Ok((p, x)) => return Ok((p, DelayValue::Number(Box::new(x)))),
        Err(e) => e,
    };
    if e.committed {
        return Err(e);
    }
    let e = match identifier(ctx, pos) {
        Ok((p, x)) => return Ok((p, DelayValue::Identifier(Box::new(x)))),
        Err(f) => if f.committed {
            return Err(f);
        } else {
            e.or_deeper(f)
        },
    };
    Err(e)
}

/// `delay_control_delay ::= "#" delay_value`
#[verifier::opaque]
pub open spec fn spec_delay_control_delay(inp: Input, pos: int) -> Parsed {
    let a = spec_symbol(inp, pos, "#");
    let b = spec_delay_value(inp, rest(a));
    variant(0, seq2(a, b))
}

/// Parses a `delay_control_delay` at `pos`.
pub fn delay_control_delay(ctx: &Parser, pos: usize) -> (r: Result<(usize, DelayControl), Failure>)
    requires
        pos <= ctx.input().src.len(),
    ensures
        lift(r, |n: DelayControl| n.tree()) == spec_delay_control_delay(ctx.input(), pos as int),
        well_spanned(
            spec_delay_control_delay(ctx.input(), pos as int),
            pos as int,
            ctx.input().src.len() as int,
        ),
{
    proof {
        reveal(spec_delay_control_delay);
        reveal(DelayControlDelay::tree);
        reveal(DelayControl::tree);
    }
    let p = pos;
    let (p, a) = symbol(ctx, p, "#")?;
    let (p, b) = delay_value(ctx, p)?;
    Ok((p, DelayControl::Delay(Box::new(DelayControlDelay { nodes: (a, b) }))))
}

/// `delay_control_mintypmax ::= "#" "(" expression ")"`
#[verifier::opaque]
pub open spec fn spec_delay_control_mintypmax(inp: Input, pos: int, nest: Nesting) -> Parsed {
    let a = spec_symbol(inp, pos, "#");
    let b0 = spec_symbol(inp, rest(a), "(");
    let b1 = (nest.expression)(rest(b0));
    let b2 = spec_symbol(inp, rest(b1), ")");
    let b = delimited(b0, b1, b2);
    variant(1, seq2(a, b))
}

/// Parses a `delay_control_mintypmax` at `pos`.
pub fn delay_control_mintypmax(ctx: &mut Parser, pos: usize, depth: usize) -> (r: Result<
    (usize, DelayControl),
    Failure,
>)
    requires
        old(ctx).wf(),
        pos <= old(ctx).input().src.len(),
    ensures
        final(ctx).wf(),
        final(ctx).input() == old(ctx).input(),
        lift(r, |n: DelayControl| n.tree()) == spec_delay_control_mintypmax(
            old(ctx).input(),
            pos as int,
            nesting(old(ctx).input(), depth as nat),
        ),
        well_spanned(
            spec_delay_control_mintypmax(
                old(ctx).input(),
                pos as int,
                nesting(old(ctx).input(), depth as nat),
            ),
            pos as int,
            old(ctx).input().src.len() as int,
        ),
{
    proof {
        reveal(spec_delay_control_mintypmax);
        reveal(DelayControlMintypmax::tree);
        reveal(DelayControl::tree);
    }
    let p = pos;
    let (p, a) = symbol(ctx, p, "#")?;
    let (p, b0) = symbol(ctx, p, "(")?;
    let (p, b1) = expression(ctx, p, depth)?;
    let (p, b2) = symbol(ctx, p, ")")?;
    let b = Paren { nodes: (b0, b1, b2) };
    Ok((p, DelayControl::Mintypmax(Box::new(DelayControlMintypmax { nodes: (a, b) }))))
}

/// `delay_control ::= delay_control_delay | delay_control_mintypmax`
#[verifier::opaque]
pub open spec fn spec_delay_control(inp: Input, pos: int, nest: Nesting) -> Parsed {
    let r = spec_delay_control_delay(inp, pos);
    let r = or_else(r, spec_delay_control_mintypmax(inp, pos, nest));
    r
}

/// Parses a `delay_control` at `pos`: the first alternative that matches.
pub fn delay_control(ctx: &mut Parser, pos: usize, depth: usize) -> (r: Result<
    (usize, DelayControl),
    Failure,
>)
    requires
        old(ctx).wf(),
        pos <= old(ctx).input().src.len(),
    ensures
        final(ctx).wf(),
        final(ctx).input() == old(ctx).input(),
        lift(r, |n: DelayControl| n.tree()) == spec_delay_control(
            old(ctx).input(),
            pos as int,
            nesting(old(ctx).input(), depth as nat),
        ),
        well_spanned(
            spec_delay_control(
                old(ctx).input(),
                pos as int,
                nesting(old(ctx).input(), depth as nat),
            ),
            pos as int,
            old(ctx).input().src.len() as int,
        ),
{
    proof {
        reveal(spec_delay_control);
        reveal(DelayControl::tree);
    }
    let e = match delay_control_delay(ctx, pos) {
        Ok(x) => return Ok(x),
        Err(e) => e,
    };
    if e.committed {
        return Err(e);
    }
    let e = match delay_control_mintypmax(ctx, pos, depth) {
        Ok(x) => return Ok(x),
        Err(f) => if f.committed {
            return Err(f);
        } else {
            e.or_deeper(f)
        },
    };
    Err(e)
}

/// `iff_condition ::= "iff" expression`
#[verifier::opaque]
pub open spec fn spec_iff_condition(inp: Input, pos: int, nest: Nesting) -> Parsed {
    let a = spec_keyword(inp, pos, "iff");
    let b = (nest.expression)(rest(a));
    seq2(a, b)
}

/// Parses a `iff_condition` at `pos`.
pub fn iff_condition(ctx: &mut Parser, pos: usize, depth: usize) -> (r: Result<
    (usize, IffCondition),
    Failure,
>)
    requires
        old(ctx).wf(),
        pos <= old(ctx).input().src.len(),
    ensures
        final(ctx).wf(),
        final(ctx).input() == old(ctx).input(),
        lift(r, |n: IffCondition| iff_condition_tree(n)) == spec_iff_condition(
            old(ctx).input(),
            pos as int,
            nesting(old(ctx).input(), depth as nat),
        ),
        well_spanned(
            spec_iff_condition(
                old(ctx).input(),
                pos as int,
                nesting(old(ctx).input(), depth as nat),
            ),
            pos as int,
            old(ctx).input().src.len() as int,
        ),
{
    proof {
        reveal(spec_iff_condition);
        reveal(iff_condition_tree);
    }
    let p = pos;
    let (p, a) = keyword(ctx, p, "iff")?;
    let (p, b) = expression(ctx, p, depth)?;
    Ok((p, (a, b)))
}

/// `event_term ::= [ edge_identifier ] expression [ iff_condition ]`
#[verifier::opaque]
pub open spec fn spec_event_term(inp: Input, pos: int, nest: Nesting) -> Parsed {
    let a = optional(spec_edge_identifier(inp, pos), pos);
    let b = (nest.expression)(rest(a));
    let c = optional(spec_iff_condition(inp, rest(b), nest), rest(b));
    seq3(a, b, c)
}

/// Parses a `event_term` at `pos`.
pub fn event_term(ctx: &mut Parser, pos: usize, depth: usize) -> (r: Result<
    (usize, EventTerm),
    Failure,
>)
    requires
        old(ctx).wf(),
        pos <= old(ctx).input().src.len(),
    ensures
        final(ctx).wf(),
        final(ctx).input() == old(ctx).input(),
        lift(r, |n: EventTerm| n.tree()) == spec_event_term(
            old(ctx).input(),
            pos as int,
            nesting(old(ctx).input(), depth as nat),
        ),
        well_spanned(
            spec_event_term(old(ctx).input(), pos as int, nesting(old(ctx).input(), depth as nat)),
            pos as int,
            old(ctx).input().src.len() as int,
        ),
{
    proof {
        reveal(spec_event_term);
        reveal(EventTerm::tree);
    }
    let p = pos;
    let (p, a) = opt(edge_identifier(ctx, p), p)?;
    let (p, b) = expression(ctx, p, depth)?;
    let (p, c) = opt(iff_condition(ctx, p, depth), p)?;
    Ok((p, EventTerm { nodes: (a, b, c) }))
}

/// `event_expression ::= event_term { "or" event_term }`
#[verifier::opaque]
pub open spec fn spec_event_expression(inp: Input, pos: int, nest: Nesting) -> Parsed {
    let a0 = spec_event_term(inp, pos, nest);
    let a1 = spec_event_term_tail(inp, rest(a0), nest);
    let a = list(a0, a1);
    seq1(a)
}

/// Parses a `event_expression` at `pos`.
pub fn event_expression(ctx: &mut Parser, pos: usize, depth: usize) -> (r: Result<
    (usize, EventExpression),
    Failure,
>)
    requires
        old(ctx).wf(),
        pos <= old(ctx).input().src.len(),
    ensures
        final(ctx).wf(),
        final(ctx).input() == old(ctx).input(),
        lift(r, |n: EventExpression| n.tree()) == spec_event_expression(
            old(ctx).input(),
            pos as int,
            nesting(old(ctx).input(), depth as nat),
        ),
        well_spanned(
            spec_event_expression(
                old(ctx).input(),
                pos as int,
                nesting(old(ctx).input(), depth as nat),
            ),
            pos as int,
            old(ctx).input().src.len() as int,
        ),
{
    proof {
        reveal(spec_event_expression);
        reveal(EventExpression::tree);
    }
    let p = pos;
    let (p, a0) = event_term(ctx, p, depth)?;
    let (p, a1) = event_term_tail(ctx, p, depth)?;
    let a = List { nodes: (a0, a1) };
    Ok((p, EventExpression { nodes: (a,) }))
}

/// `event_term_tail ::= { "or" event_term }` Stops before the first item that does not
/// match, or that matches nothing.
#[verifier::opaque]
pub open spec fn spec_event_term_tail(inp: Input, pos: int, nest: Nesting) -> Parsed
    decreases inp.src.len() - pos,
{
    let a = spec_keyword(inp, pos, "or");
    let b = spec_event_term(inp, rest(a), nest);
    match seq2(a, b) {
        Ok((p, t)) => if pos < p <= inp.src.len() {
            prepend(t, spec_event_term_tail(inp, p, nest))
        } else {
            no_more(pos)
        },
        Err(e) => if e.committed {
            Err(e)
        } else {
            no_more(pos)
        },
    }
}

/// Parses as many items as match at `pos`, one after the other: `{ "or" event_term }`.
pub fn event_term_tail(ctx: &mut Parser, pos: usize, depth: usize) -> (r: Result<
    (usize, Vec<(Keyword, EventTerm)>),
    Failure,
>)
    requires
        old(ctx).wf(),
        pos <= old(ctx).input().src.len(),
    ensures
        final(ctx).wf(),
        final(ctx).input() == old(ctx).input(),
        lift(r, |n: Vec<(Keyword, EventTerm)>| Tree::Repeat(event_term_tail_trees(n@)))
            == spec_event_term_tail(
                old(ctx).input(),
                pos as int,
                nesting(old(ctx).input(), depth as nat),
            ),
        well_spanned(
            spec_event_term_tail(
                old(ctx).input(),
                pos as int,
                nesting(old(ctx).input(), depth as nat),
            ),
            pos as int,
            old(ctx).input().src.len() as int,
        ),
{
    proof {
        reveal(spec_event_term_tail);
    }
    let ghost inp = ctx.input();
    let mut items: Vec<(Keyword, EventTerm)> = Vec::new();
    let mut cur: usize = pos;
    proof {
        lemma_append_empty(spec_event_term_tail(inp, pos as int, nesting(inp, depth as nat)));
        lemma_event_term_tail_trees_empty();
    }
    loop
        invariant
            ctx.wf(),
            ctx.input() == inp,
            inp == old(ctx).input(),
            pos <= cur <= inp.src.len(),
            spec_event_term_tail(inp, pos as int, nesting(inp, depth as nat)) == append(
                event_term_tail_trees(items@),
                spec_event_term_tail(inp, cur as int, nesting(inp, depth as nat)),
            ),
            tiled(Tree::Repeat(event_term_tail_trees(items@)), pos as int),
            cur == pos + width(Tree::Repeat(event_term_tail_trees(items@))),
        decreases inp.src.len() - cur,
    {
        proof {
            reveal(spec_event_term_tail);
        }
        let (q, s) = match keyword(ctx, cur, "or") {
            Ok(found) => found,
            Err(e) => {
                if e.committed {
                    return Err(e);
                }
                proof {
                    lemma_append_no_more(event_term_tail_trees(items@), cur as int);
                }
                return Ok((cur, items));
            },
        };
        let (p, y) = match event_term(ctx, q, depth) {
            Ok(found) => found,
            Err(e) => {
                if e.committed {
                    return Err(e);
                }
                proof {
                    lemma_append_no_more(event_term_tail_trees(items@), cur as int);
                }
                return Ok((cur, items));
            },
        };
        let x = (s, y);
        if p <= cur {
            proof {
                lemma_append_no_more(event_term_tail_trees(items@), cur as int);
            }
            return Ok((cur, items));
        }
        proof {
            lemma_append_prepend(
                event_term_tail_trees(items@),
                separated(x.0.tree(), x.1.tree()),
                spec_event_term_tail(inp, p as int, nesting(inp, depth as nat)),
            );
            lemma_event_term_tail_trees_push(items@, x);
        }
        items.push(x);
        cur = p;
    }
}

} // verus!
