//! Dimensions of declarations.
use vstd::prelude::*;
use crate::combinator::Parsed;
use crate::combinator::append;
use crate::combinator::delimited;
use crate::combinator::lemma_append_empty;
use crate::combinator::lemma_append_no_more;
use crate::combinator::lemma_append_prepend;
use crate::combinator::lift;
use crate::combinator::no_more;
use crate::combinator::or_else;
use crate::combinator::prepend;
use crate::combinator::rest;
use crate::combinator::seq1;
use crate::combinator::variant;
use crate::combinator::well_spanned;
use crate::context::Input;
use crate::context::Parser;
use crate::failure::Failure;
use crate::node::Bracket;
use crate::parser::expressions::expressions::Expression;
use crate::parser::expressions::expressions::expression;
use crate::parser::expressions::expressions::range_bounds;
use crate::parser::expressions::expressions::range_bounds_tree;
use crate::parser::expressions::expressions::spec_range_bounds;
use crate::parser::expressions::primaries::bit_select_tree;
use crate::parser::nesting::Nesting;
use crate::parser::nesting::nesting;
use crate::span::Span;
use crate::token::Symbol;
use crate::token::spec_symbol;
use crate::token::symbol;
use crate::tree::Tree;
use crate::tree::group_layout;
use crate::tree::group_leaves;
use crate::tree::leaves_after;
use crate::tree::tiled;
use crate::tree::width;

verus! {

broadcast use {group_layout, group_leaves};

/// `unpacked_dimension_range ::= "[" range_bounds "]"`
#[derive(Debug)]
pub struct UnpackedDimensionRange {
    pub nodes: (Bracket<(Expression, Symbol, Expression)>,),
}

/// `unpacked_dimension_expression ::= "[" expression "]"`
#[derive(Debug)]
pub struct UnpackedDimensionExpression {
    pub nodes: (Bracket<Expression>,),
}

/// A dimension of an unpacked array: a range or a size.
#[derive(Debug)]
pub enum UnpackedDimension {
    Range(Box<UnpackedDimensionRange>),
    Expression(Box<UnpackedDimensionExpression>),
}

impl UnpackedDimensionRange {
    /// The tree of the node: the sequence of the trees of its parts.
    #[verifier::opaque]
    pub open spec fn tree(&self) -> Tree {
        Tree::Sequence(
            Seq::empty()
                .push(self.nodes.0.tree(range_bounds_tree(self.nodes.0.nodes.1))),
        )
    }

    /// Appends the leaf spans of the node to `out`, in source order.
    pub fn leaf_spans(&self, out: &mut Vec<Span>)
        ensures
            final(out)@ == leaves_after(old(out)@, self.tree()),
    {
        proof {
            reveal(UnpackedDimensionRange::tree);
            reveal(range_bounds_tree);
        }
        self.nodes.0.nodes.0.leaf_spans(out);
        self.nodes.0.nodes.1.0.leaf_spans(out);
        self.nodes.0.nodes.1.1.leaf_spans(out);
        self.nodes.0.nodes.1.2.leaf_spans(out);
        self.nodes.0.nodes.2.leaf_spans(out);
    }
}

impl UnpackedDimensionExpression {
    /// The tree of the node: the sequence of the trees of its parts.
    #[verifier::opaque]
    pub open spec fn tree(&self) -> Tree {
        Tree::Sequence(
            Seq::empty()
                .push(bit_select_tree(self.nodes.0)),
        )
    }

    /// Appends the leaf spans of the node to `out`, in source order.
    pub fn leaf_spans(&self, out: &mut Vec<Span>)
        ensures
            final(out)@ == leaves_after(old(out)@, self.tree()),
    {
        proof {
            reveal(UnpackedDimensionExpression::tree);
        }
        self.nodes.0.nodes.0.leaf_spans(out);
        self.nodes.0.nodes.1.leaf_spans(out);
        self.nodes.0.nodes.2.leaf_spans(out);
    }
}

impl UnpackedDimension {
    /// The tree of the node: the variant, by its index, and the tree of its payload.
    #[verifier::opaque]
    pub open spec fn tree(&self) -> Tree {
        match self {
            UnpackedDimension::Range(x) => Tree::Variant(0, Box::new(x.tree())),
            UnpackedDimension::Expression(x) => Tree::Variant(1, Box::new(x.tree())),
        }
    }

    /// The trees of a list of nodes, in order.
    #[verifier::opaque]
    pub open spec fn trees(s: Seq<UnpackedDimension>) -> Seq<Tree> {
        Seq::new(s.len(), |i: int| if 0 <= i < s.len() { s[i].tree() } else { arbitrary() })
    }

    /// The trees of a list that has one more node at its end.
    pub proof fn lemma_trees_push(s: Seq<UnpackedDimension>, x: UnpackedDimension)
        ensures
            Self::trees(s.push(x)) == Self::trees(s).push(x.tree()),
    {
        reveal(UnpackedDimension::trees);
        assert forall|i: int| 0 <= i < s.len() + 1 implies #[trigger] Self::trees(s.push(x))[i]
            == Self::trees(s).push(x.tree())[i] by {
            assert(s.push(x)[i].tree() == if i < s.len() { s[i].tree() } else { x.tree() });
        }
        assert(Self::trees(s.push(x)) =~= Self::trees(s).push(x.tree()));
    }

    /// The empty list has no trees.
    pub proof fn lemma_trees_empty()
        ensures
            Self::trees(Seq::empty()) == Seq::<Tree>::empty(),
    {
        reveal(UnpackedDimension::trees);
        assert(Self::trees(Seq::empty()) =~= Seq::<Tree>::empty());
    }

    /// Appends the leaf spans of the node to `out`, in source order.
    pub fn leaf_spans(&self, out: &mut Vec<Span>)
        ensures
            final(out)@ == leaves_after(old(out)@, self.tree()),
    {
        proof {
            reveal(UnpackedDimension::tree);
        }
        match self {
            UnpackedDimension::Range(x) => {
                x.leaf_spans(out);
            },
            UnpackedDimension::Expression(x) => {
                x.leaf_spans(out);
            },
        }
    }

    /// Appends the leaf spans of a list of nodes to `out`, in source order.
    pub fn leaf_spans_of_all(v: &Vec<UnpackedDimension>, out: &mut Vec<Span>)
        ensures
            final(out)@ == leaves_after(old(out)@, Tree::Repeat(UnpackedDimension::trees(v@))),
    {
        let mut i: usize = 0;
        proof {
            UnpackedDimension::lemma_trees_empty();
            assert(v@.take(0) =~= Seq::empty());
        }
        while i < v.len()
            invariant
                i <= v@.len(),
                out@ == leaves_after(
                    old(out)@,
                    Tree::Repeat(UnpackedDimension::trees(v@.take(i as int))),
                ),
            decreases v@.len() - i,
        {
            v[i].leaf_spans(out);
            proof {
                UnpackedDimension::lemma_trees_push(v@.take(i as int), v@[i as int]);
                assert(v@.take(i as int).push(v@[i as int]) =~= v@.take(i + 1));
            }
            i = i + 1;
        }
        proof {
            assert(v@.take(v@.len() as int) =~= v@);
        }
    }
}

/// `unpacked_dimension_range ::= "[" range_bounds "]"`
#[verifier::opaque]
pub open spec fn spec_unpacked_dimension_range(inp: Input, pos: int, nest: Nesting) -> Parsed {
    let a0 = spec_symbol(inp, pos, "[");
    let a1 = spec_range_bounds(inp, rest(a0), nest);
    let a2 = spec_symbol(inp, rest(a1), "]");
    let a = delimited(a0, a1, a2);
    variant(0, seq1(a))
}

/// Parses a `unpacked_dimension_range` at `pos`.
pub fn unpacked_dimension_range(ctx: &mut Parser, pos: usize, depth: usize) -> (r: Result<
    (usize, UnpackedDimension),
    Failure,
>)
    requires
        old(ctx).wf(),
        pos <= old(ctx).input().src.len(),
    ensures
        final(ctx).wf(),
        final(ctx).input() == old(ctx).input(),
        lift(r, |n: UnpackedDimension| n.tree()) == spec_unpacked_dimension_range(
            old(ctx).input(),
            pos as int,
            nesting(old(ctx).input(), depth as nat),
        ),
        well_spanned(
            spec_unpacked_dimension_range(
                old(ctx).input(),
                pos as int,
                nesting(old(ctx).input(), depth as nat),
            ),
            pos as int,
            old(ctx).input().src.len() as int,
        ),
{
    proof {
        reveal(spec_unpacked_dimension_range);
        reveal(UnpackedDimensionRange::tree);
        reveal(UnpackedDimension::tree);
    }
    let p = pos;
    let (p, a0) = symbol(ctx, p, "[")?;
    let (p, a1) = range_bounds(ctx, p, depth)?;
    let (p, a2) = symbol(ctx, p, "]")?;
    let a = Bracket { nodes: (a0, a1, a2) };
    Ok((p, UnpackedDimension::Range(Box::new(UnpackedDimensionRange { nodes: (a,) }))))
}

/// `unpacked_dimension_expression ::= "[" expression "]"`
#[verifier::opaque]
pub open spec fn spec_unpacked_dimension_expression(inp: Input, pos: int, nest: Nesting) -> Parsed {
    let a0 = spec_symbol(inp, pos, "[");
    let a1 = (nest.expression)(rest(a0));
    let a2 = spec_symbol(inp, rest(a1), "]");
    let a = delimited(a0, a1, a2);
    variant(1, seq1(a))
}

/// Parses a `unpacked_dimension_expression` at `pos`.
pub fn unpacked_dimension_expression(ctx: &mut Parser, pos: usize, depth: usize) -> (r: Result<
    (usize, UnpackedDimension),
    Failure,
>)
    requires
        old(ctx).wf(),
        pos <= old(ctx).input().src.len(),
    ensures
        final(ctx).wf(),
        final(ctx).input() == old(ctx).input(),
        lift(r, |n: UnpackedDimension| n.tree()) == spec_unpacked_dimension_expression(
            old(ctx).input(),
            pos as int,
            nesting(old(ctx).input(), depth as nat),
        ),
        well_spanned(
            spec_unpacked_dimension_expression(
                old(ctx).input(),
                pos as int,
                nesting(old(ctx).input(), depth as nat),
            ),
            pos as int,
            old(ctx).input().src.len() as int,
        ),
{
    proof {
        reveal(spec_unpacked_dimension_expression);
        reveal(UnpackedDimensionExpression::tree);
        reveal(UnpackedDimension::tree);
    }
    let p = pos;
    let (p, a0) = symbol(ctx, p, "[")?;
    let (p, a1) = expression(ctx, p, depth)?;
    let (p, a2) = symbol(ctx, p, "]")?;
    let a = Bracket { nodes: (a0, a1, a2) };
    Ok((p, UnpackedDimension::Expression(Box::new(UnpackedDimensionExpression { nodes: (a,) }))))
}

/// `unpacked_dimension ::= unpacked_dimension_range | unpacked_dimension_expression`
#[verifier::opaque]
pub open spec fn spec_unpacked_dimension(inp: Input, pos: int, nest: Nesting) -> Parsed {
    let r = spec_unpacked_dimension_range(inp, pos, nest);
    let r = or_else(r, spec_unpacked_dimension_expression(inp, pos, nest));
    r
}

/// Parses a `unpacked_dimension` at `pos`: the first alternative that matches.
pub fn unpacked_dimension(ctx: &mut Parser, pos: usize, depth: usize) -> (r: Result<
    (usize, UnpackedDimension),
    Failure,
>)
    requires
        old(ctx).wf(),
        pos <= old(ctx).input().src.len(),
    ensures
        final(ctx).wf(),
        final(ctx).input() == old(ctx).input(),
        lift(r, |n: UnpackedDimension| n.tree()) == spec_unpacked_dimension(
            old(ctx).input(),
            pos as int,
            nesting(old(ctx).input(), depth as nat),
        ),
        well_spanned(
            spec_unpacked_dimension(
                old(ctx).input(),
                pos as int,
                nesting(old(ctx).input(), depth as nat),
            ),
            pos as int,
            old(ctx).input().src.len() as int,
        ),
{
    proof {
        reveal(spec_unpacked_dimension);
        reveal(UnpackedDimension::tree);
    }
    let e = match unpacked_dimension_range(ctx, pos, depth) {
        Ok(x) => return Ok(x),
        Err(e) => e,
    };
    if e.committed {
        return Err(e);
    }
    let e = match unpacked_dimension_expression(ctx, pos, depth) {
        Ok(x) => return Ok(x),
        Err(f) => if f.committed {
            return Err(f);
        } else {
            e.or_deeper(f)
        },
    };
    Err(e)
}

/// `many_unpacked_dimension ::= { unpacked_dimension }` Stops before the first item
/// that does not match, or that matches nothing.
#[verifier::opaque]
pub open spec fn spec_many_unpacked_dimension(inp: Input, pos: int, nest: Nesting) -> Parsed
    decreases inp.src.len() - pos,
{
    match spec_unpacked_dimension(inp, pos, nest) {
        Ok((p, t)) => if pos < p <= inp.src.len() {
            prepend(t, spec_many_unpacked_dimension(inp, p, nest))
        } else {
            no_more(pos)
        },
        Err(e) => if e.committed {
            Err(e)
        } else {
            no_more(pos)
        },
    }
}

/// Parses as many items as match at `pos`, one after the other: `{ unpacked_dimension
/// }`.
pub fn many_unpacked_dimension(ctx: &mut Parser, pos: usize, depth: usize) -> (r: Result<
    (usize, Vec<UnpackedDimension>),
    Failure,
>)
    requires
        old(ctx).wf(),
        pos <= old(ctx).input().src.len(),
    ensures
        final(ctx).wf(),
        final(ctx).input() == old(ctx).input(),
        lift(r, |n: Vec<UnpackedDimension>| Tree::Repeat(UnpackedDimension::trees(n@)))
            == spec_many_unpacked_dimension(
                old(ctx).input(),
                pos as int,
                nesting(old(ctx).input(), depth as nat),
            ),
        well_spanned(
            spec_many_unpacked_dimension(
                old(ctx).input(),
                pos as int,
                nesting(old(ctx).input(), depth as nat),
            ),
            pos as int,
            old(ctx).input().src.len() as int,
        ),
{
    proof {
        reveal(spec_many_unpacked_dimension);
    }
    let ghost inp = ctx.input();
    let mut items: Vec<UnpackedDimension> = Vec::new();
    let mut cur: usize = pos;
    proof {
        lemma_append_empty(
            spec_many_unpacked_dimension(inp, pos as int, nesting(inp, depth as nat)),
        );
        UnpackedDimension::lemma_trees_empty();
    }
    loop
        invariant
            ctx.wf(),
            ctx.input() == inp,
            inp == old(ctx).input(),
            pos <= cur <= inp.src.len(),
            spec_many_unpacked_dimension(inp, pos as int, nesting(inp, depth as nat)) == append(
                UnpackedDimension::trees(items@),
                spec_many_unpacked_dimension(inp, cur as int, nesting(inp, depth as nat)),
            ),
            tiled(Tree::Repeat(UnpackedDimension::trees(items@)), pos as int),
            cur == pos + width(Tree::Repeat(UnpackedDimension::trees(items@))),
        decreases inp.src.len() - cur,
    {
        proof {
            reveal(spec_many_unpacked_dimension);
        }
        let (p, x) = match unpacked_dimension(ctx, cur, depth) {
            Ok(found) => found,
            Err(e) => {
                if e.committed {
                    return Err(e);
                }
                proof {
                    lemma_append_no_more(UnpackedDimension::trees(items@), cur as int);
                }
                return Ok((cur, items));
            },
        };
        if p <= cur {
            proof {
                lemma_append_no_more(UnpackedDimension::trees(items@), cur as int);
            }
            return Ok((cur, items));
        }
        proof {
            lemma_append_prepend(
                UnpackedDimension::trees(items@),
                x.tree(),
                spec_many_unpacked_dimension(inp, p as int, nesting(inp, depth as nat)),
            );
            UnpackedDimension::lemma_trees_push(items@, x);
        }
        items.push(x);
        cur = p;
    }
}

} // verus!
