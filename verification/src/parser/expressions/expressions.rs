//! Expressions.
//!
//! An expression is the rule through which expressions nest, so each expression
//! uses up one level of depth, and its outcome at an offset is kept in the memo
//! table: the alternatives of an expression begin alike, and without the table
//! the part they share would be parsed again for each of them, on every level.
use vstd::prelude::*;
use crate::combinator::Parsed;
use crate::combinator::append;
use crate::combinator::commit;
use crate::combinator::cut;
use crate::combinator::delimited;
use crate::combinator::lemma_append_empty;
use crate::combinator::lemma_append_no_more;
use crate::combinator::lemma_append_prepend;
use crate::combinator::lift;
use crate::combinator::no_more;
use crate::combinator::opt;
use crate::combinator::optional;
use crate::combinator::or_else;
use crate::combinator::prepend;
use crate::combinator::rest;
use crate::combinator::seq1;
use crate::combinator::seq2;
use crate::combinator::seq3;
use crate::combinator::seq4;
use crate::combinator::seq5;
use crate::combinator::variant;
use crate::combinator::well_spanned;
use crate::context::Input;
use crate::context::MemoRule;
use crate::context::Parser;
use crate::failure::Failure;
use crate::node::Bracket;
use crate::node::Paren;
use crate::node::separated;
use crate::parser::behavioral_statements::conditional_statements::CondPredicate;
use crate::parser::behavioral_statements::conditional_statements::cond_predicate;
use crate::parser::behavioral_statements::conditional_statements::spec_cond_predicate;
use crate::parser::expressions::operators::BinaryOperator;
use crate::parser::expressions::operators::UnaryOperator;
use crate::parser::expressions::operators::binary_operator;
use crate::parser::expressions::operators::spec_binary_operator;
use crate::parser::expressions::operators::spec_unary_operator;
use crate::parser::expressions::operators::unary_operator;
use crate::parser::expressions::primaries::Primary;
use crate::parser::expressions::primaries::primary;
use crate::parser::expressions::primaries::spec_primary;
use crate::parser::nesting::Nesting;
use crate::parser::nesting::nesting;
use crate::span::Span;
use crate::token::Symbol;
use crate::token::spec_symbol;
use crate::token::symbol;
use crate::tree::Tree;
use crate::tree::group_layout;
use crate::tree::group_leaves;
use crate::tree::leaves_after;
use crate::tree::tiled;
use crate::tree::width;

verus! {

broadcast use {group_layout, group_leaves};

/// `expression_unary ::= unary_operator primary`
#[derive(Debug)]
pub struct ExpressionUnary {
    pub nodes: (UnaryOperator, Primary),
}

/// `expression_binary ::= [ unary_operator ] primary binary_operator expression`
#[derive(Debug)]
pub struct ExpressionBinary {
    pub nodes: (Option<UnaryOperator>, Primary, BinaryOperator, Expression),
}

/// `conditional_expression ::= "(" cond_predicate ")" "?" expression ":" expression`
#[derive(Debug)]
pub struct ConditionalExpression {
    pub nodes: (Paren<CondPredicate>, Symbol, Expression, Symbol, Expression),
}

/// An expression. The alternatives are tried from the longest form to the shortest.
#[derive(Debug)]
pub enum Expression {
    Conditional(Box<ConditionalExpression>),
    Binary(Box<ExpressionBinary>),
    Unary(Box<ExpressionUnary>),
    Primary(Box<Primary>),
}

/// The value of a parameter: an expression, or `$` for no bound.
#[derive(Debug)]
pub enum ParamExpression {
    Expression(Box<Expression>),
    Dollar(Box<Symbol>),
}

/// `value_range_binary ::= "[" range_bounds "]"`
#[derive(Debug)]
pub struct ValueRangeBinary {
    pub nodes: (Bracket<(Expression, Symbol, Expression)>,),
}

/// A range of values, or one value.
#[derive(Debug)]
pub enum ValueRange {
    Binary(Box<ValueRangeBinary>),
    Expression(Box<Expression>),
}

/// What [`assigned_value`] returns.
pub type AssignedValue = (Symbol, Expression);

/// What [`range_bounds`] returns.
pub type RangeBounds = (Expression, Symbol, Expression);

impl ExpressionUnary {
    /// The tree of the node: the sequence of the trees of its parts.
    pub open spec fn tree(&self) -> Tree
        decreases self,
    {
        Tree::Sequence(
            Seq::empty()
                .push(self.nodes.0.tree())
                .push(self.nodes.1.tree()),
        )
    }

    /// Appends the leaf spans of the node to `out`, in source order.
    pub fn leaf_spans(&self, out: &mut Vec<Span>)
        ensures
            final(out)@ == leaves_after(old(out)@, self.tree()),
        decreases self,
    {
        self.nodes.0.leaf_spans(out);
        self.nodes.1.leaf_spans(out);
    }
}

impl ExpressionBinary {
    /// The tree of the node: the sequence of the trees of its parts.
    pub open spec fn tree(&self) -> Tree
        decreases self,
    {
        Tree::Sequence(
            Seq::empty()
                .push(
                    match self.nodes.0 {
                        Some(x) => Tree::Optional(Some(Box::new(x.tree()))),
                        None => Tree::Optional(None),
                    },
                )
                .push(self.nodes.1.tree())
                .push(self.nodes.2.tree())
                .push(self.nodes.3.tree()),
        )
    }

    /// Appends the leaf spans of the node to `out`, in source order.
    pub fn leaf_spans(&self, out: &mut Vec<Span>)
        ensures
            final(out)@ == leaves_after(old(out)@, self.tree()),
        decreases self,
    {
        match &self.nodes.0 {
            Some(x) => {
                x.leaf_spans(out);
            },
            None => {},
        }
        self.nodes.1.leaf_spans(out);
        self.nodes.2.leaf_spans(out);
        self.nodes.3.leaf_spans(out);
    }
}

impl ConditionalExpression {
    /// The tree of the node: the sequence of the trees of its parts.
    pub open spec fn tree(&self) -> Tree
        decreases self,
    {
        Tree::Sequence(
            Seq::empty()
                .push(self.nodes.0.tree(self.nodes.0.nodes.1.tree()))
                .push(self.nodes.1.tree())
                .push(self.nodes.2.tree())
                .push(self.nodes.3.tree())
                .push(self.nodes.4.tree()),
        )
    }

    /// Appends the leaf spans of the node to `out`, in source order.
    pub fn leaf_spans(&self, out: &mut Vec<Span>)
        ensures
            final(out)@ == leaves_after(old(out)@, self.tree()),
        decreases self,
    {
        self.nodes.0.nodes.0.leaf_spans(out);
        self.nodes.0.nodes.1.leaf_spans(out);
        self.nodes.0.nodes.2.leaf_spans(out);
        self.nodes.1.leaf_spans(out);
        self.nodes.2.leaf_spans(out);
        self.nodes.3.leaf_spans(out);
        self.nodes.4.leaf_spans(out);
    }
}

impl Expression {
    /// The tree of the node: the variant, by its index, and the tree of its payload.
    pub open spec fn tree(&self) -> Tree
        decreases self,
    {
        match self {
            Expression::Conditional(x) => Tree::Variant(0, Box::new(x.tree())),
            Expression::Binary(x) => Tree::Variant(1, Box::new(x.tree())),
            Expression::Unary(x) => Tree::Variant(2, Box::new(x.tree())),
            Expression::Primary(x) => Tree::Variant(3, Box::new(x.tree())),
        }
    }

    /// Appends the leaf spans of the node to `out`, in source order.
    pub fn leaf_spans(&self, out: &mut Vec<Span>)
        ensures
            final(out)@ == leaves_after(old(out)@, self.tree()),
        decreases self,
    {
        match self {
            Expression::Conditional(x) => {
                x.leaf_spans(out);
            },
            Expression::Binary(x) => {
                x.leaf_spans(out);
            },
            Expression::Unary(x) => {
                x.leaf_spans(out);
            },
            Expression::Primary(x) => {
                x.leaf_spans(out);
            },
        }
    }
}

impl ParamExpression {
    /// The tree of the node: the variant, by its index, and the tree of its payload.
    #[verifier::opaque]
    pub open spec fn tree(&self) -> Tree {
        match self {
            ParamExpression::Expression(x) => Tree::Variant(0, Box::new(x.tree())),
            ParamExpression::Dollar(x) => Tree::Variant(1, Box::new(x.tree())),
        }
    }

    /// Appends the leaf spans of the node to `out`, in source order.
    pub fn leaf_spans(&self, out: &mut Vec<Span>)
        ensures
            final(out)@ == leaves_after(old(out)@, self.tree()),
    {
        proof {
            reveal(ParamExpression::tree);
        }
        match self {
            ParamExpression::Expression(x) => {
                x.leaf_spans(out);
            },
            ParamExpression::Dollar(x) => {
                x.leaf_spans(out);
            },
        }
    }
}

impl ValueRangeBinary {
    /// The tree of the node: the sequence of the trees of its parts.
    #[verifier::opaque]
    pub open spec fn tree(&self) -> Tree {
        Tree::Sequence(
            Seq::empty()
                .push(self.nodes.0.tree(range_bounds_tree(self.nodes.0.nodes.1))),
        )
    }

    /// Appends the leaf spans of the node to `out`, in source order.
    pub fn leaf_spans(&self, out: &mut Vec<Span>)
        ensures
            final(out)@ == leaves_after(old(out)@, self.tree()),
    {
        proof {
            reveal(ValueRangeBinary::tree);
            reveal(range_bounds_tree);
        }
        self.nodes.0.nodes.0.leaf_spans(out);
        self.nodes.0.nodes.1.0.leaf_spans(out);
        self.nodes.0.nodes.1.1.leaf_spans(out);
        self.nodes.0.nodes.1.2.leaf_spans(out);
        self.nodes.0.nodes.2.leaf_spans(out);
    }
}

impl ValueRange {
    /// The tree of the node: the variant, by its index, and the tree of its payload.
    #[verifier::opaque]
    pub open spec fn tree(&self) -> Tree {
        match self {
            ValueRange::Binary(x) => Tree::Variant(0, Box::new(x.tree())),
            ValueRange::Expression(x) => Tree::Variant(1, Box::new(x.tree())),
        }
    }

    /// Appends the leaf spans of the node to `out`, in source order.
    pub fn leaf_spans(&self, out: &mut Vec<Span>)
        ensures
            final(out)@ == leaves_after(old(out)@, self.tree()),
    {
        proof {
            reveal(ValueRange::tree);
        }
        match self {
            ValueRange::Binary(x) => {
                x.leaf_spans(out);
            },
            ValueRange::Expression(x) => {
                x.leaf_spans(out);
            },
        }
    }
}

/// The tree of what [`assigned_value`] returns.
pub open spec fn assigned_value_tree(n: AssignedValue) -> Tree
    decreases n,
{
    Tree::Sequence(Seq::empty().push(n.0.tree()).push(n.1.tree()))
}

/// The tree of what [`range_bounds`] returns.
#[verifier::opaque]
pub open spec fn range_bounds_tree(n: RangeBounds) -> Tree {
    Tree::Sequence(Seq::empty().push(n.0.tree()).push(n.1.tree()).push(n.2.tree()))
}

/// The trees of a list of such nodes, in order.
pub open spec fn expression_tail_trees(s: Seq<AssignedValue>) -> Seq<Tree>
    decreases s,
{
    Seq::new(
        s.len(),
        |i: int| if 0 <= i < s.len() {
            separated(s[i].0.tree(), s[i].1.tree())
        } else {
            arbitrary()
        },
    )
}

/// The trees of a list that has one more node at its end.
pub proof fn lemma_expression_tail_trees_push(s: Seq<AssignedValue>, x: AssignedValue)
    ensures
        expression_tail_trees(s.push(x)) == expression_tail_trees(s).push(
            separated(x.0.tree(), x.1.tree()),
        ),
{
    reveal(expression_tail_trees);
    assert forall|i: int| 0 <= i < s.len() + 1 implies
        #[trigger] expression_tail_trees(s.push(x))[i]
        == expression_tail_trees(s).push(separated(x.0.tree(), x.1.tree()))[i] by {
        let y = s.push(x)[i];
        assert(separated(y.0.tree(), y.1.tree()) == if i < s.len() {
            separated(s[i].0.tree(), s[i].1.tree())
        } else {
            separated(x.0.tree(), x.1.tree())
        });
    }
    assert(
        expression_tail_trees(s.push(x)) =~= expression_tail_trees(s).push(
            separated(x.0.tree(), x.1.tree()),
        )
    );
}

/// The empty list has no trees.
pub proof fn lemma_expression_tail_trees_empty()
    ensures
        expression_tail_trees(Seq::empty()) == Seq::<Tree>::empty(),
{
    reveal(expression_tail_trees);
    assert(expression_tail_trees(Seq::empty()) =~= Seq::<Tree>::empty());
}

/// Appends the leaf spans of a list of nodes to `out`, in source order.
pub fn expression_tail_leaf_spans(v: &Vec<AssignedValue>, out: &mut Vec<Span>)
    ensures
        final(out)@ == leaves_after(old(out)@, Tree::Repeat(expression_tail_trees(v@))),
    decreases v,
{
    let mut i: usize = 0;
    proof {
        lemma_expression_tail_trees_empty();
        assert(v@.take(0) =~= Seq::empty());
    }
    while i < v.len()
        invariant
            i <= v@.len(),
            out@ == leaves_after(old(out)@, Tree::Repeat(expression_tail_trees(v@.take(i as int)))),
        decreases v@.len() - i,
    {
        v[i].0.leaf_spans(out);
        v[i].1.leaf_spans(out);
        proof {
            lemma_expression_tail_trees_push(v@.take(i as int), v@[i as int]);
            assert(v@.take(i as int).push(v@[i as int]) =~= v@.take(i + 1));
        }
        i = i + 1;
    }
    proof {
        assert(v@.take(v@.len() as int) =~= v@);
    }
}

impl Clone for ExpressionUnary {
    /// A copy with the same tree.
    fn clone(&self) -> (r: Self)
        ensures
            r.tree() == self.tree(),
        decreases self,
    {
        ExpressionUnary {
            nodes: (
                self.nodes.0,
                self.nodes.1.clone(),
            ),
        }
    }
}

impl Clone for ExpressionBinary {
    /// A copy with the same tree.
    fn clone(&self) -> (r: Self)
        ensures
            r.tree() == self.tree(),
        decreases self,
    {
        ExpressionBinary {
            nodes: (
                match &self.nodes.0 { Some(x) => Some(*x), None => None },
                self.nodes.1.clone(),
                self.nodes.2,
                self.nodes.3.clone(),
            ),
        }
    }
}

impl Clone for ConditionalExpression {
    /// A copy with the same tree.
    fn clone(&self) -> (r: Self)
        ensures
            r.tree() == self.tree(),
        decreases self,
    {
        ConditionalExpression {
            nodes: (
                Paren {
                    nodes: (
                        self.nodes.0.nodes.0,
                        self.nodes.0.nodes.1.clone(),
                        self.nodes.0.nodes.2,
                    ),
                },
                self.nodes.1,
                self.nodes.2.clone(),
                self.nodes.3,
                self.nodes.4.clone(),
            ),
        }
    }
}

impl Clone for Expression {
    /// A copy with the same tree.
    fn clone(&self) -> (r: Self)
        ensures
            r.tree() == self.tree(),
        decreases self,
    {
        match self {
            Expression::Conditional(x) => Expression::Conditional(Box::new((**x).clone())),
            Expression::Binary(x) => Expression::Binary(Box::new((**x).clone())),
            Expression::Unary(x) => Expression::Unary(Box::new((**x).clone())),
            Expression::Primary(x) => Expression::Primary(Box::new((**x).clone())),
        }
    }
}

/// A copy of a list of nodes with the same trees.
pub fn clone_expression_tail_vec(v: &Vec<AssignedValue>) -> (r: Vec<AssignedValue>)
    ensures
        expression_tail_trees(r@) == expression_tail_trees(v@),
    decreases v,
{
    let mut out: Vec<AssignedValue> = Vec::new();
    let mut i: usize = 0;
    proof {
        assert(out@ =~= v@.take(0));
    }
    while i < v.len()
        invariant
            i <= v@.len(),
            expression_tail_trees(out@) == expression_tail_trees(v@.take(i as int)),
        decreases v@.len() - i,
    {
        let x = (v[i].0, v[i].1.clone());
        proof {
            lemma_expression_tail_trees_push(out@, x);
            lemma_expression_tail_trees_push(v@.take(i as int), v@[i as int]);
            assert(v@.take(i as int).push(v@[i as int]) =~= v@.take(i + 1));
        }
        out.push(x);
        i = i + 1;
    }
    proof {
        assert(v@.take(v@.len() as int) =~= v@);
    }
    out
}

/// `assigned_value ::= "=" expression`
#[verifier::opaque]
pub open spec fn spec_assigned_value(inp: Input, pos: int, nest: Nesting) -> Parsed {
    let a = spec_symbol(inp, pos, "=");
    let b = (nest.expression)(rest(a));
    seq2(a, b)
}

/// Parses a `assigned_value` at `pos`.
pub fn assigned_value(ctx: &mut Parser, pos: usize, depth: usize) -> (r: Result<
    (usize, AssignedValue),
    Failure,
>)
    requires
        old(ctx).wf(),
        pos <= old(ctx).input().src.len(),
    ensures
        final(ctx).wf(),
        final(ctx).input() == old(ctx).input(),
        lift(r, |n: AssignedValue| assigned_value_tree(n)) == spec_assigned_value(
            old(ctx).input(),
            pos as int,
            nesting(old(ctx).input(), depth as nat),
        ),
        well_spanned(
            spec_assigned_value(
                old(ctx).input(),
                pos as int,
                nesting(old(ctx).input(), depth as nat),
            ),
            pos as int,
            old(ctx).input().src.len() as int,
        ),
{
    proof {
        reveal(spec_assigned_value);
    }
    let p = pos;
    let (p, a) = symbol(ctx, p, "=")?;
    let (p, b) = expression(ctx, p, depth)?;
    Ok((p, (a, b)))
}

/// `expression_unary ::= unary_operator primary`
#[verifier::opaque]
pub open spec fn spec_expression_unary(inp: Input, pos: int, nest: Nesting) -> Parsed {
    let a = spec_unary_operator(inp, pos);
    let b = spec_primary(inp, rest(a), nest);
    variant(2, seq2(a, b))
}

/// Parses a `expression_unary` at `pos`.
pub fn expression_unary(ctx: &mut Parser, pos: usize, depth: usize) -> (r: Result<
    (usize, Expression),
    Failure,
>)
    requires
        old(ctx).wf(),
        pos <= old(ctx).input().src.len(),
    ensures
        final(ctx).wf(),
        final(ctx).input() == old(ctx).input(),
        lift(r, |n: Expression| n.tree()) == spec_expression_unary(
            old(ctx).input(),
            pos as int,
            nesting(old(ctx).input(), depth as nat),
        ),
        well_spanned(
            spec_expression_unary(
                old(ctx).input(),
                pos as int,
                nesting(old(ctx).input(), depth as nat),
            ),
            pos as int,
            old(ctx).input().src.len() as int,
        ),
    decreases depth, 6nat,
{
    proof {
        reveal(spec_expression_unary);
    }
    let p = pos;
    let (p, a) = unary_operator(ctx, p)?;
    let (p, b) = primary(ctx, p, depth)?;
    Ok((p, Expression::Unary(Box::new(ExpressionUnary { nodes: (a, b) }))))
}

/// `expression_binary ::= [ unary_operator ] primary binary_operator expression`
#[verifier::opaque]
pub open spec fn spec_expression_binary(inp: Input, pos: int, nest: Nesting) -> Parsed {
    let a = optional(spec_unary_operator(inp, pos), pos);
    let b = spec_primary(inp, rest(a), nest);
    let c = spec_binary_operator(inp, rest(b));
    let d = (nest.expression)(rest(c));
    variant(1, seq4(a, b, c, d))
}

/// Parses a `expression_binary` at `pos`.
pub fn expression_binary(ctx: &mut Parser, pos: usize, depth: usize) -> (r: Result<
    (usize, Expression),
    Failure,
>)
    requires
        old(ctx).wf(),
        pos <= old(ctx).input().src.len(),
    ensures
        final(ctx).wf(),
        final(ctx).input() == old(ctx).input(),
        lift(r, |n: Expression| n.tree()) == spec_expression_binary(
            old(ctx).input(),
            pos as int,
            nesting(old(ctx).input(), depth as nat),
        ),
        well_spanned(
            spec_expression_binary(
                old(ctx).input(),
                pos as int,
                nesting(old(ctx).input(), depth as nat),
            ),
            pos as int,
            old(ctx).input().src.len() as int,
        ),
    decreases depth, 6nat,
{
    proof {
        reveal(spec_expression_binary);
    }
    let p = pos;
    let (p, a) = opt(unary_operator(ctx, p), p)?;
    let (p, b) = primary(ctx, p, depth)?;
    let (p, c) = binary_operator(ctx, p)?;
    let (p, d) = expression(ctx, p, depth)?;
    Ok((p, Expression::Binary(Box::new(ExpressionBinary { nodes: (a, b, c, d) }))))
}

/// `conditional_expression ::= "(" cond_predicate ")" "?" expression ":" expression`
/// Once `?` has matched, a failure is committed.
#[verifier::opaque]
pub open spec fn spec_conditional_expression(inp: Input, pos: int, nest: Nesting) -> Parsed {
    let a0 = spec_symbol(inp, pos, "(");
    let a1 = spec_cond_predicate(inp, rest(a0), nest);
    let a2 = spec_symbol(inp, rest(a1), ")");
    let a = delimited(a0, a1, a2);
    let b = spec_symbol(inp, rest(a), "?");
    let c = cut((nest.expression)(rest(b)));
    let d = cut(spec_symbol(inp, rest(c), ":"));
    let e = cut((nest.expression)(rest(d)));
    variant(0, seq5(a, b, c, d, e))
}

/// Parses a `conditional_expression` at `pos`.
pub fn conditional_expression(ctx: &mut Parser, pos: usize, depth: usize) -> (r: Result<
    (usize, Expression),
    Failure,
>)
    requires
        old(ctx).wf(),
        pos <= old(ctx).input().src.len(),
    ensures
        final(ctx).wf(),
        final(ctx).input() == old(ctx).input(),
        lift(r, |n: Expression| n.tree()) == spec_conditional_expression(
            old(ctx).input(),
            pos as int,
            nesting(old(ctx).input(), depth as nat),
        ),
        well_spanned(
            spec_conditional_expression(
                old(ctx).input(),
                pos as int,
                nesting(old(ctx).input(), depth as nat),
            ),
            pos as int,
            old(ctx).input().src.len() as int,
        ),
    decreases depth, 5nat,
{
    proof {
        reveal(spec_conditional_expression);
    }
    let p = pos;
    let (p, a0) = symbol(ctx, p, "(")?;
    let (p, a1) = cond_predicate(ctx, p, depth)?;
    let (p, a2) = symbol(ctx, p, ")")?;
    let a = Paren { nodes: (a0, a1, a2) };
    let (p, b) = symbol(ctx, p, "?")?;
    let (p, c) = commit(expression(ctx, p, depth))?;
    let (p, d) = commit(symbol(ctx, p, ":"))?;
    let (p, e) = commit(expression(ctx, p, depth))?;
    Ok((p, Expression::Conditional(Box::new(ConditionalExpression { nodes: (a, b, c, d, e) }))))
}

/// `expression ::= conditional_expression | expression_binary | expression_unary |
/// primary`
#[verifier::opaque]
pub open spec fn spec_expression_choice(inp: Input, pos: int, nest: Nesting) -> Parsed {
    let r = spec_conditional_expression(inp, pos, nest);
    let r = or_else(r, spec_expression_binary(inp, pos, nest));
    let r = or_else(r, spec_expression_unary(inp, pos, nest));
    let r = or_else(r, variant(3, spec_primary(inp, pos, nest)));
    r
}

/// Parses a `expression` at `pos`: the first alternative that matches.
pub fn expression_choice(ctx: &mut Parser, pos: usize, depth: usize) -> (r: Result<
    (usize, Expression),
    Failure,
>)
    requires
        old(ctx).wf(),
        pos <= old(ctx).input().src.len(),
    ensures
        final(ctx).wf(),
        final(ctx).input() == old(ctx).input(),
        lift(r, |n: Expression| n.tree()) == spec_expression_choice(
            old(ctx).input(),
            pos as int,
            nesting(old(ctx).input(), depth as nat),
        ),
        well_spanned(
            spec_expression_choice(
                old(ctx).input(),
                pos as int,
                nesting(old(ctx).input(), depth as nat),
            ),
            pos as int,
            old(ctx).input().src.len() as int,
        ),
    decreases depth, 7nat,
{
    proof {
        reveal(spec_expression_choice);
    }
    let e = match conditional_expression(ctx, pos, depth) {
        Ok(x) => return Ok(x),
        Err(e) => e,
    };
    if e.committed {
        return Err(e);
    }
    let e = match expression_binary(ctx, pos, depth) {
        Ok(x) => return Ok(x),
        Err(f) => if f.committed {
            return Err(f);
        } else {
            e.or_deeper(f)
        },
    };
    let e = match expression_unary(ctx, pos, depth) {
        Ok(x) => return Ok(x),
        Err(f) => if f.committed {
            return Err(f);
        } else {
            e.or_deeper(f)
        },
    };
    let e = match primary(ctx, pos, depth) {
        Ok((p, x)) => return Ok((p, Expression::Primary(Box::new(x)))),
        Err(f) => if f.committed {
            return Err(f);
        } else {
            e.or_deeper(f)
        },
    };
    Err(e)
}

/// A expression, on a new level of nesting: fails with `TooDeep` when no depth is left,
/// and else is whichever alternative of the rule matches first, with one level less.
pub open spec fn spec_expression(inp: Input, pos: int, depth: nat) -> Parsed
    decreases depth, 0nat,
{
    if depth == 0 {
        Err(Failure::too_deep(pos))
    } else {
        spec_expression_choice(inp, pos, nesting(inp, (depth - 1) as nat))
    }
}

/// Parses a `expression` at `pos`, with `depth` levels of nesting left. The outcome is
/// kept in the memo table, and taken from it where the table already holds it.
pub fn expression(ctx: &mut Parser, pos: usize, depth: usize) -> (r: Result<
    (usize, Expression),
    Failure,
>)
    requires
        old(ctx).wf(),
        pos <= old(ctx).input().src.len(),
    ensures
        final(ctx).wf(),
        final(ctx).input() == old(ctx).input(),
        lift(r, |n: Expression| n.tree()) == spec_expression(
            old(ctx).input(),
            pos as int,
            depth as nat,
        ),
        well_spanned(
            spec_expression(old(ctx).input(), pos as int, depth as nat),
            pos as int,
            old(ctx).input().src.len() as int,
        ),
        depth > 0 ==> final(ctx).remembered(MemoRule::Expression).contains(pos),
    decreases depth, 0nat,
{
    if depth == 0 {
        return Err(Failure::nesting(pos));
    }
    match ctx.recall_expression(pos, depth) {
        Some(known) => {
            return known;
        },
        None => {},
    }
    let r = expression_choice(ctx, pos, depth - 1);
    ctx.record_expression(pos, depth, &r);
    r
}

/// `param_expression ::= expression | "$"`
#[verifier::opaque]
pub open spec fn spec_param_expression(inp: Input, pos: int, nest: Nesting) -> Parsed {
    let r = variant(0, (nest.expression)(pos));
    let r = or_else(r, variant(1, spec_symbol(inp, pos, "$")));
    r
}

/// Parses a `param_expression` at `pos`: the first alternative that matches.
pub fn param_expression(ctx: &mut Parser, pos: usize, depth: usize) -> (r: Result<
    (usize, ParamExpression),
    Failure,
>)
    requires
        old(ctx).wf(),
        pos <= old(ctx).input().src.len(),
    ensures
        final(ctx).wf(),
        final(ctx).input() == old(ctx).input(),
        lift(r, |n: ParamExpression| n.tree()) == spec_param_expression(
            old(ctx).input(),
            pos as int,
            nesting(old(ctx).input(), depth as nat),
        ),
        well_spanned(
            spec_param_expression(
                old(ctx).input(),
                pos as int,
                nesting(old(ctx).input(), depth as nat),
            ),
            pos as int,
            old(ctx).input().src.len() as int,
        ),
{
    proof {
        reveal(spec_param_expression);
        reveal(ParamExpression::tree);
    }
    let e = match expression(ctx, pos, depth) {
        Ok((p, x)) => return Ok((p, ParamExpression::Expression(Box::new(x)))),
        Err(e) => e,
    };
    if e.committed {
        return Err(e);
    }
    let e = match symbol(ctx, pos, "$") {
        Ok((p, x)) => return Ok((p, ParamExpression::Dollar(Box::new(x)))),
        Err(f) => if f.committed {
            return Err(f);
        } else {
            e.or_deeper(f)
        },
    };
    Err(e)
}

/// `range_bounds ::= expression ":" expression`
#[verifier::opaque]
pub open spec fn spec_range_bounds(inp: Input, pos: int, nest: Nesting) -> Parsed {
    let a = (nest.expression)(pos);
    let b = spec_symbol(inp, rest(a), ":");
    let c = (nest.expression)(rest(b));
    seq3(a, b, c)
}

/// Parses a `range_bounds` at `pos`.
pub fn range_bounds(ctx: &mut Parser, pos: usize, depth: usize) -> (r: Result<
    (usize, RangeBounds),
    Failure,
>)
    requires
        old(ctx).wf(),
        pos <= old(ctx).input().src.len(),
    ensures
        final(ctx).wf(),
        final(ctx).input() == old(ctx).input(),
        lift(r, |n: RangeBounds| range_bounds_tree(n)) == spec_range_bounds(
            old(ctx).input(),
            pos as int,
            nesting(old(ctx).input(), depth as nat),
        ),
        well_spanned(
            spec_range_bounds(
                old(ctx).input(),
                pos as int,
                nesting(old(ctx).input(), depth as nat),
            ),
            pos as int,
            old(ctx).input().src.len() as int,
        ),
{
    proof {
        reveal(spec_range_bounds);
        reveal(range_bounds_tree);
    }
    let p = pos;
    let (p, a) = expression(ctx, p, depth)?;
    let (p, b) = symbol(ctx, p, ":")?;
    let (p, c) = expression(ctx, p, depth)?;
    Ok((p, (a, b, c)))
}

/// `value_range_binary ::= "[" range_bounds "]"`
#[verifier::opaque]
pub open spec fn spec_value_range_binary(inp: Input, pos: int, nest: Nesting) -> Parsed {
    let a0 = spec_symbol(inp, pos, "[");
    let a1 = spec_range_bounds(inp, rest(a0), nest);
    let a2 = spec_symbol(inp, rest(a1), "]");
    let a = delimited(a0, a1, a2);
    variant(0, seq1(a))
}

/// Parses a `value_range_binary` at `pos`.
pub fn value_range_binary(ctx: &mut Parser, pos: usize, depth: usize) -> (r: Result<
    (usize, ValueRange),
    Failure,
>)
    requires
        old(ctx).wf(),
        pos <= old(ctx).input().src.len(),
    ensures
        final(ctx).wf(),
        final(ctx).input() == old(ctx).input(),
        lift(r, |n: ValueRange| n.tree()) == spec_value_range_binary(
            old(ctx).input(),
            pos as int,
            nesting(old(ctx).input(), depth as nat),
        ),
        well_spanned(
            spec_value_range_binary(
                old(ctx).input(),
                pos as int,
                nesting(old(ctx).input(), depth as nat),
            ),
            pos as int,
            old(ctx).input().src.len() as int,
        ),
{
    proof {
        reveal(spec_value_range_binary);
        reveal(ValueRangeBinary::tree);
        reveal(ValueRange::tree);
    }
    let p = pos;
    let (p, a0) = symbol(ctx, p, "[")?;
    let (p, a1) = range_bounds(ctx, p, depth)?;
    let (p, a2) = symbol(ctx, p, "]")?;
    let a = Bracket { nodes: (a0, a1, a2) };
    Ok((p, ValueRange::Binary(Box::new(ValueRangeBinary { nodes: (a,) }))))
}

/// `value_range ::= value_range_binary | expression`
#[verifier::opaque]
pub open spec fn spec_value_range(inp: Input, pos: int, nest: Nesting) -> Parsed {
    let r = spec_value_range_binary(inp, pos, nest);
    let r = or_else(r, variant(1, (nest.expression)(pos)));
    r
}

/// Parses a `value_range` at `pos`: the first alternative that matches.
pub fn value_range(ctx: &mut Parser, pos: usize, depth: usize) -> (r: Result<
    (usize, ValueRange),
    Failure,
>)
    requires
        old(ctx).wf(),
        pos <= old(ctx).input().src.len(),
    ensures
        final(ctx).wf(),
        final(ctx).input() == old(ctx).input(),
        lift(r, |n: ValueRange| n.tree()) == spec_value_range(
            old(ctx).input(),
            pos as int,
            nesting(old(ctx).input(), depth as nat),
        ),
        well_spanned(
            spec_value_range(old(ctx).input(), pos as int, nesting(old(ctx).input(), depth as nat)),
            pos as int,
            old(ctx).input().src.len() as int,
        ),
{
    proof {
        reveal(spec_value_range);
        reveal(ValueRange::tree);
    }
    let e = match value_range_binary(ctx, pos, depth) {
        Ok(x) => return Ok(x),
        Err(e) => e,
    };
    if e.committed {
        return Err(e);
    }
    let e = match expression(ctx, pos, depth) {
        Ok((p, x)) => return Ok((p, ValueRange::Expression(Box::new(x)))),
        Err(f) => if f.committed {
            return Err(f);
        } else {
            e.or_deeper(f)
        },
    };
    Err(e)
}

/// `expression_tail ::= { "," expression }` Stops before the first item that does not
/// match, or that matches nothing.
#[verifier::opaque]
pub open spec fn spec_expression_tail(inp: Input, pos: int, nest: Nesting) -> Parsed
    decreases inp.src.len() - pos,
{
    let a = spec_symbol(inp, pos, ",");
    let b = (nest.expression)(rest(a));
    match seq2(a, b) {
        Ok((p, t)) => if pos < p <= inp.src.len() {
            prepend(t, spec_expression_tail(inp, p, nest))
        } else {
            no_more(pos)
        },
        Err(e) => if e.committed {
            Err(e)
        } else {
            no_more(pos)
        },
    }
}

/// Parses as many items as match at `pos`, one after the other: `{ "," expression }`.
pub fn expression_tail(ctx: &mut Parser, pos: usize, depth: usize) -> (r: Result<
    (usize, Vec<AssignedValue>),
    Failure,
>)
    requires
        old(ctx).wf(),
        pos <= old(ctx).input().src.len(),
    ensures
        final(ctx).wf(),
        final(ctx).input() == old(ctx).input(),
        lift(r, |n: Vec<AssignedValue>| Tree::Repeat(expression_tail_trees(n@)))
            == spec_expression_tail(
                old(ctx).input(),
                pos as int,
                nesting(old(ctx).input(), depth as nat),
            ),
        well_spanned(
            spec_expression_tail(
                old(ctx).input(),
                pos as int,
                nesting(old(ctx).input(), depth as nat),
            ),
            pos as int,
            old(ctx).input().src.len() as int,
        ),
    decreases depth, 1nat,
{
    proof {
        reveal(spec_expression_tail);
    }
    let ghost inp = ctx.input();
    let mut items: Vec<AssignedValue> = Vec::new();
    let mut cur: usize = pos;
    proof {
        lemma_append_empty(spec_expression_tail(inp, pos as int, nesting(inp, depth as nat)));
        lemma_expression_tail_trees_empty();
    }
    loop
        invariant
            ctx.wf(),
            ctx.input() == inp,
            inp == old(ctx).input(),
            pos <= cur <= inp.src.len(),
            spec_expression_tail(inp, pos as int, nesting(inp, depth as nat)) == append(
                expression_tail_trees(items@),
                spec_expression_tail(inp, cur as int, nesting(inp, depth as nat)),
            ),
            tiled(Tree::Repeat(expression_tail_trees(items@)), pos as int),
            cur == pos + width(Tree::Repeat(expression_tail_trees(items@))),
        decreases inp.src.len() - cur,
    {
        proof {
            reveal(spec_expression_tail);
        }
        let (q, s) = match symbol(ctx, cur, ",") {
            Ok(found) => found,
            Err(e) => {
                if e.committed {
                    return Err(e);
                }
                proof {
                    lemma_append_no_more(expression_tail_trees(items@), cur as int);
                }
                return Ok((cur, items));
            },
        };
        let (p, y) = match expression(ctx, q, depth) {
            Ok(found) => found,
            Err(e) => {
                if e.committed {
                    return Err(e);
                }
                proof {
                    lemma_append_no_more(expression_tail_trees(items@), cur as int);
                }
                return Ok((cur, items));
            },
        };
        let x = (s, y);
        if p <= cur {
            proof {
                lemma_append_no_more(expression_tail_trees(items@), cur as int);
            }
            return Ok((cur, items));
        }
        proof {
            lemma_append_prepend(
                expression_tail_trees(items@),
                separated(x.0.tree(), x.1.tree()),
                spec_expression_tail(inp, p as int, nesting(inp, depth as nat)),
            );
            lemma_expression_tail_trees_push(items@, x);
        }
        items.push(x);
        cur = p;
    }
}

} // verus!
