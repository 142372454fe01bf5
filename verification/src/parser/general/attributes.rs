//! Attribute instances.
use vstd::prelude::*;
use crate::combinator::Parsed;
use crate::combinator::append;
use crate::combinator::commit;
use crate::combinator::cut;
use crate::combinator::lemma_append_empty;
use crate::combinator::lemma_append_no_more;
use crate::combinator::lemma_append_prepend;
use crate::combinator::lift;
use crate::combinator::list;
use crate::combinator::no_more;
use crate::combinator::opt;
use crate::combinator::optional;
use crate::combinator::prepend;
use crate::combinator::rest;
use crate::combinator::seq2;
use crate::combinator::seq3;
use crate::combinator::well_spanned;
use crate::context::Input;
use crate::context::Parser;
use crate::failure::Failure;
use crate::node::List;
use crate::node::separated;
use crate::parser::expressions::expressions::Expression;
use crate::parser::expressions::expressions::assigned_value;
use crate::parser::expressions::expressions::assigned_value_tree;
use crate::parser::expressions::expressions::spec_assigned_value;
use crate::parser::nesting::Nesting;
use crate::parser::nesting::nesting;
use crate::span::Span;
use crate::token::Identifier;
use crate::token::Symbol;
use crate::token::identifier;
use crate::token::spec_identifier;
use crate::token::spec_symbol;
use crate::token::symbol;
use crate::tree::Tree;
use crate::tree::group_layout;
use crate::tree::group_leaves;
use crate::tree::leaves_after;
use crate::tree::tiled;
use crate::tree::width;

verus! {

broadcast use {group_layout, group_leaves};

/// `attr_spec ::= identifier [ assigned_value ]`
#[derive(Debug)]
pub struct AttrSpec {
    pub nodes: (Identifier, Option<(Symbol, Expression)>),
}

/// `attribute_instance ::= "(*" attr_spec { "," attr_spec } "*)"`
#[derive(Debug)]
pub struct AttributeInstance {
    pub nodes: (Symbol, List<Symbol, AttrSpec>, Symbol),
}

impl AttrSpec {
    /// The tree of the node: the sequence of the trees of its parts.
    #[verifier::opaque]
    pub open spec fn tree(&self) -> Tree {
        Tree::Sequence(
            Seq::empty()
                .push(self.nodes.0.tree())
                .push(
                    match self.nodes.1 {
                        Some(x) => Tree::Optional(Some(Box::new(assigned_value_tree(x)))),
                        None => Tree::Optional(None),
                    },
                ),
        )
    }

    /// Appends the leaf spans of the node to `out`, in source order.
    pub fn leaf_spans(&self, out: &mut Vec<Span>)
        ensures
            final(out)@ == leaves_after(old(out)@, self.tree()),
    {
        proof {
            reveal(AttrSpec::tree);
        }
        self.nodes.0.leaf_spans(out);
        match &self.nodes.1 {
            Some(x) => {
                x.0.leaf_spans(out);
                x.1.leaf_spans(out);
            },
            None => {},
        }
    }
}

impl AttributeInstance {
    /// The tree of the node: the sequence of the trees of its parts.
    #[verifier::opaque]
    pub open spec fn tree(&self) -> Tree {
        Tree::Sequence(
            Seq::empty()
                .push(self.nodes.0.tree())
                .push(
                    self.nodes.1.tree(
                        self.nodes.1.nodes.0.tree(),
                        attr_spec_tail_trees(self.nodes.1.nodes.1@),
                    ),
                )
                .push(self.nodes.2.tree()),
        )
    }

    /// The trees of a list of nodes, in order.
    #[verifier::opaque]
    pub open spec fn trees(s: Seq<AttributeInstance>) -> Seq<Tree> {
        Seq::new(s.len(), |i: int| if 0 <= i < s.len() { s[i].tree() } else { arbitrary() })
    }

    /// The trees of a list that has one more node at its end.
    pub proof fn lemma_trees_push(s: Seq<AttributeInstance>, x: AttributeInstance)
        ensures
            Self::trees(s.push(x)) == Self::trees(s).push(x.tree()),
    {
        reveal(AttributeInstance::trees);
        assert forall|i: int| 0 <= i < s.len() + 1 implies #[trigger] Self::trees(s.push(x))[i]
            == Self::trees(s).push(x.tree())[i] by {
            assert(s.push(x)[i].tree() == if i < s.len() { s[i].tree() } else { x.tree() });
        }
        assert(Self::trees(s.push(x)) =~= Self::trees(s).push(x.tree()));
    }

    /// The empty list has no trees.
    pub proof fn lemma_trees_empty()
        ensures
            Self::trees(Seq::empty()) == Seq::<Tree>::empty(),
    {
        reveal(AttributeInstance::trees);
        assert(Self::trees(Seq::empty()) =~= Seq::<Tree>::empty());
    }

    /// Appends the leaf spans of the node to `out`, in source order.
    pub fn leaf_spans(&self, out: &mut Vec<Span>)
        ensures
            final(out)@ == leaves_after(old(out)@, self.tree()),
    {
        proof {
            reveal(AttributeInstance::tree);
        }
        self.nodes.0.leaf_spans(out);
        self.nodes.1.nodes.0.leaf_spans(out);
        attr_spec_tail_leaf_spans(&self.nodes.1.nodes.1, out);
        self.nodes.2.leaf_spans(out);
    }

    /// Appends the leaf spans of a list of nodes to `out`, in source order.
    pub fn leaf_spans_of_all(v: &Vec<AttributeInstance>, out: &mut Vec<Span>)
        ensures
            final(out)@ == leaves_after(old(out)@, Tree::Repeat(AttributeInstance::trees(v@))),
    {
        let mut i: usize = 0;
        proof {
            AttributeInstance::lemma_trees_empty();
            assert(v@.take(0) =~= Seq::empty());
        }
        while i < v.len()
            invariant
                i <= v@.len(),
                out@ == leaves_after(
                    old(out)@,
                    Tree::Repeat(AttributeInstance::trees(v@.take(i as int))),
                ),
            decreases v@.len() - i,
        {
            v[i].leaf_spans(out);
            proof {
                AttributeInstance::lemma_trees_push(v@.take(i as int), v@[i as int]);
                assert(v@.take(i as int).push(v@[i as int]) =~= v@.take(i + 1));
            }
            i = i + 1;
        }
        proof {
            assert(v@.take(v@.len() as int) =~= v@);
        }
    }
}

/// The trees of a list of such nodes, in order.
#[verifier::opaque]
pub open spec fn attr_spec_tail_trees(s: Seq<(Symbol, AttrSpec)>) -> Seq<Tree> {
    Seq::new(
        s.len(),
        |i: int| if 0 <= i < s.len() {
            separated(s[i].0.tree(), s[i].1.tree())
        } else {
            arbitrary()
        },
    )
}

/// The trees of a list that has one more node at its end.
pub proof fn lemma_attr_spec_tail_trees_push(s: Seq<(Symbol, AttrSpec)>, x: (Symbol, AttrSpec))
    ensures
        attr_spec_tail_trees(s.push(x)) == attr_spec_tail_trees(s).push(
            separated(x.0.tree(), x.1.tree()),
        ),
{
    reveal(attr_spec_tail_trees);
    assert forall|i: int| 0 <= i < s.len() + 1 implies
        #[trigger] attr_spec_tail_trees(s.push(x))[i]
        == attr_spec_tail_trees(s).push(separated(x.0.tree(), x.1.tree()))[i] by {
        let y = s.push(x)[i];
        assert(separated(y.0.tree(), y.1.tree()) == if i < s.len() {
            separated(s[i].0.tree(), s[i].1.tree())
        } else {
            separated(x.0.tree(), x.1.tree())
        });
    }
    assert(
        attr_spec_tail_trees(s.push(x)) =~= attr_spec_tail_trees(s).push(
            separated(x.0.tree(), x.1.tree()),
        )
    );
}

/// The empty list has no trees.
pub proof fn lemma_attr_spec_tail_trees_empty()
    ensures
        attr_spec_tail_trees(Seq::empty()) == Seq::<Tree>::empty(),
{
    reveal(attr_spec_tail_trees);
    assert(attr_spec_tail_trees(Seq::empty()) =~= Seq::<Tree>::empty());
}

/// Appends the leaf spans of a list of nodes to `out`, in source order.
pub fn attr_spec_tail_leaf_spans(v: &Vec<(Symbol, AttrSpec)>, out: &mut Vec<Span>)
    ensures
        final(out)@ == leaves_after(old(out)@, Tree::Repeat(attr_spec_tail_trees(v@))),
{
    let mut i: usize = 0;
    proof {
        lemma_attr_spec_tail_trees_empty();
        assert(v@.take(0) =~= Seq::empty());
    }
    while i < v.len()
        invariant
            i <= v@.len(),
            out@ == leaves_after(old(out)@, Tree::Repeat(attr_spec_tail_trees(v@.take(i as int)))),
        decreases v@.len() - i,
    {
        v[i].0.leaf_spans(out);
        v[i].1.leaf_spans(out);
        proof {
            lemma_attr_spec_tail_trees_push(v@.take(i as int), v@[i as int]);
            assert(v@.take(i as int).push(v@[i as int]) =~= v@.take(i + 1));
        }
        i = i + 1;
    }
    proof {
        assert(v@.take(v@.len() as int) =~= v@);
    }
}

/// `attr_spec ::= identifier [ assigned_value ]`
#[verifier::opaque]
pub open spec fn spec_attr_spec(inp: Input, pos: int, nest: Nesting) -> Parsed {
    let a = spec_identifier(inp, pos);
    let b = optional(spec_assigned_value(inp, rest(a), nest), rest(a));
    seq2(a, b)
}

/// Parses a `attr_spec` at `pos`.
pub fn attr_spec(ctx: &mut Parser, pos: usize, depth: usize) -> (r: Result<
    (usize, AttrSpec),
    Failure,
>)
    requires
        old(ctx).wf(),
        pos <= old(ctx).input().src.len(),
    ensures
        final(ctx).wf(),
        final(ctx).input() == old(ctx).input(),
        lift(r, |n: AttrSpec| n.tree()) == spec_attr_spec(
            old(ctx).input(),
            pos as int,
            nesting(old(ctx).input(), depth as nat),
        ),
        well_spanned(
            spec_attr_spec(old(ctx).input(), pos as int, nesting(old(ctx).input(), depth as nat)),
            pos as int,
            old(ctx).input().src.len() as int,
        ),
{
    proof {
        reveal(spec_attr_spec);
        reveal(AttrSpec::tree);
    }
    let p = pos;
    let (p, a) = identifier(ctx, p)?;
    let (p, b) = opt(assigned_value(ctx, p, depth), p)?;
    Ok((p, AttrSpec { nodes: (a, b) }))
}

/// `attribute_instance ::= "(*" attr_spec { "," attr_spec } "*)"` Once `(*` has
/// matched, a failure is committed.
#[verifier::opaque]
pub open spec fn spec_attribute_instance(inp: Input, pos: int, nest: Nesting) -> Parsed {
    let a = spec_symbol(inp, pos, "(*");
    let b0 = cut(spec_attr_spec(inp, rest(a), nest));
    let b1 = spec_attr_spec_tail(inp, rest(b0), nest);
    let b = list(b0, b1);
    let c = cut(spec_symbol(inp, rest(b), "*)"));
    seq3(a, b, c)
}

/// Parses a `attribute_instance` at `pos`.
pub fn attribute_instance(ctx: &mut Parser, pos: usize, depth: usize) -> (r: Result<
    (usize, AttributeInstance),
    Failure,
>)
    requires
        old(ctx).wf(),
        pos <= old(ctx).input().src.len(),
    ensures
        final(ctx).wf(),
        final(ctx).input() == old(ctx).input(),
        lift(r, |n: AttributeInstance| n.tree()) == spec_attribute_instance(
            old(ctx).input(),
            pos as int,
            nesting(old(ctx).input(), depth as nat),
        ),
        well_spanned(
            spec_attribute_instance(
                old(ctx).input(),
                pos as int,
                nesting(old(ctx).input(), depth as nat),
            ),
            pos as int,
            old(ctx).input().src.len() as int,
        ),
{
    proof {
        reveal(spec_attribute_instance);
        reveal(AttributeInstance::tree);
    }
    let p = pos;
    let (p, a) = symbol(ctx, p, "(*")?;
    let (p, b0) = commit(attr_spec(ctx, p, depth))?;
    let (p, b1) = attr_spec_tail(ctx, p, depth)?;
    let b = List { nodes: (b0, b1) };
    let (p, c) = commit(symbol(ctx, p, "*)"))?;
    Ok((p, AttributeInstance { nodes: (a, b, c) }))
}

/// `attr_spec_tail ::= { "," attr_spec }` Stops before the first item that does not
/// match, or that matches nothing.
#[verifier::opaque]
pub open spec fn spec_attr_spec_tail(inp: Input, pos: int, nest: Nesting) -> Parsed
    decreases inp.src.len() - pos,
{
    let a = spec_symbol(inp, pos, ",");
    let b = spec_attr_spec(inp, rest(a), nest);
    match seq2(a, b) {
        Ok((p, t)) => if pos < p <= inp.src.len() {
            prepend(t, spec_attr_spec_tail(inp, p, nest))
        } else {
            no_more(pos)
        },
        Err(e) => if e.committed {
            Err(e)
        } else {
            no_more(pos)
        },
    }
}

/// Parses as many items as match at `pos`, one after the other: `{ "," attr_spec }`.
pub fn attr_spec_tail(ctx: &mut Parser, pos: usize, depth: usize) -> (r: Result<
    (usize, Vec<(Symbol, AttrSpec)>),
    Failure,
>)
    requires
        old(ctx).wf(),
        pos <= old(ctx).input().src.len(),
    ensures
        final(ctx).wf(),
        final(ctx).input() == old(ctx).input(),
        lift(r, |n: Vec<(Symbol, AttrSpec)>| Tree::Repeat(attr_spec_tail_trees(n@)))
            == spec_attr_spec_tail(
                old(ctx).input(),
                pos as int,
                nesting(old(ctx).input(), depth as nat),
            ),
        well_spanned(
            spec_attr_spec_tail(
                old(ctx).input(),
                pos as int,
                nesting(old(ctx).input(), depth as nat),
            ),
            pos as int,
            old(ctx).input().src.len() as int,
        ),
{
    proof {
        reveal(spec_attr_spec_tail);
    }
    let ghost inp = ctx.input();
    let mut items: Vec<(Symbol, AttrSpec)> = Vec::new();
    let mut cur: usize = pos;
    proof {
        lemma_append_empty(spec_attr_spec_tail(inp, pos as int, nesting(inp, depth as nat)));
        lemma_attr_spec_tail_trees_empty();
    }
    loop
        invariant
            ctx.wf(),
            ctx.input() == inp,
            inp == old(ctx).input(),
            pos <= cur <= inp.src.len(),
            spec_attr_spec_tail(inp, pos as int, nesting(inp, depth as nat)) == append(
                attr_spec_tail_trees(items@),
                spec_attr_spec_tail(inp, cur as int, nesting(inp, depth as nat)),
            ),
            tiled(Tree::Repeat(attr_spec_tail_trees(items@)), pos as int),
            cur == pos + width(Tree::Repeat(attr_spec_tail_trees(items@))),
        decreases inp.src.len() - cur,
    {
        proof {
            reveal(spec_attr_spec_tail);
        }
        let (q, s) = match symbol(ctx, cur, ",") {
            Ok(found) => found,
            Err(e) => {
                if e.committed {
                    return Err(e);
                }
                proof {
                    lemma_append_no_more(attr_spec_tail_trees(items@), cur as int);
                }
                return Ok((cur, items));
            },
        };
        let (p, y) = match attr_spec(ctx, q, depth) {
            Ok(found) => found,
            Err(e) => {
                if e.committed {
                    return Err(e);
                }
                proof {
                    lemma_append_no_more(attr_spec_tail_trees(items@), cur as int);
                }
                return Ok((cur, items));
            },
        };
        let x = (s, y);
        if p <= cur {
            proof {
                lemma_append_no_more(attr_spec_tail_trees(items@), cur as int);
            }
            return Ok((cur, items));
        }
        proof {
            lemma_append_prepend(
                attr_spec_tail_trees(items@),
                separated(x.0.tree(), x.1.tree()),
                spec_attr_spec_tail(inp, p as int, nesting(inp, depth as nat)),
            );
            lemma_attr_spec_tail_trees_push(items@, x);
        }
        items.push(x);
        cur = p;
    }
}

/// `many_attribute_instance ::= { attribute_instance }` Stops before the first item
/// that does not match, or that matches nothing.
#[verifier::opaque]
pub open spec fn spec_many_attribute_instance(inp: Input, pos: int, nest: Nesting) -> Parsed
    decreases inp.src.len() - pos,
{
    match spec_attribute_instance(inp, pos, nest) {
        Ok((p, t)) => if pos < p <= inp.src.len() {
            prepend(t, spec_many_attribute_instance(inp, p, nest))
        } else {
            no_more(pos)
        },
        Err(e) => if e.committed {
            Err(e)
        } else {
            no_more(pos)
        },
    }
}

/// Parses as many items as match at `pos`, one after the other: `{ attribute_instance
/// }`.
pub fn many_attribute_instance(ctx: &mut Parser, pos: usize, depth: usize) -> (r: Result<
    (usize, Vec<AttributeInstance>),
    Failure,
>)
    requires
        old(ctx).wf(),
        pos <= old(ctx).input().src.len(),
    ensures
        final(ctx).wf(),
        final(ctx).input() == old(ctx).input(),
        lift(r, |n: Vec<AttributeInstance>| Tree::Repeat(AttributeInstance::trees(n@)))
            == spec_many_attribute_instance(
                old(ctx).input(),
                pos as int,
                nesting(old(ctx).input(), depth as nat),
            ),
        well_spanned(
            spec_many_attribute_instance(
                old(ctx).input(),
                pos as int,
                nesting(old(ctx).input(), depth as nat),
            ),
            pos as int,
            old(ctx).input().src.len() as int,
        ),
{
    proof {
        reveal(spec_many_attribute_instance);
    }
    let ghost inp = ctx.input();
    let mut items: Vec<AttributeInstance> = Vec::new();
    let mut cur: usize = pos;
    proof {
        lemma_append_empty(
            spec_many_attribute_instance(inp, pos as int, nesting(inp, depth as nat)),
        );
        AttributeInstance::lemma_trees_empty();
    }
    loop
        invariant
            ctx.wf(),
            ctx.input() == inp,
            inp == old(ctx).input(),
            pos <= cur <= inp.src.len(),
            spec_many_attribute_instance(inp, pos as int, nesting(inp, depth as nat)) == append(
                AttributeInstance::trees(items@),
                spec_many_attribute_instance(inp, cur as int, nesting(inp, depth as nat)),
            ),
            tiled(Tree::Repeat(AttributeInstance::trees(items@)), pos as int),
            cur == pos + width(Tree::Repeat(AttributeInstance::trees(items@))),
        decreases inp.src.len() - cur,
    {
        proof {
            reveal(spec_many_attribute_instance);
        }
        let (p, x) = match attribute_instance(ctx, cur, depth) {
            Ok(found) => found,
            Err(e) => {
                if e.committed {
                    return Err(e);
                }
                proof {
                    lemma_append_no_more(AttributeInstance::trees(items@), cur as int);
                }
                return Ok((cur, items));
            },
        };
        if p <= cur {
            proof {
                lemma_append_no_more(AttributeInstance::trees(items@), cur as int);
            }
            return Ok((cur, items));
        }
        proof {
            lemma_append_prepend(
                AttributeInstance::trees(items@),
                x.tree(),
                spec_many_attribute_instance(inp, p as int, nesting(inp, depth as nat)),
            );
            AttributeInstance::lemma_trees_push(items@, x);
        }
        items.push(x);
        cur = p;
    }
}

} // verus!
