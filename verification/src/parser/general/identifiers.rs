//! Identifiers: the names that the grammar gives to an identifier by its role, and
//! hierarchical names.
use vstd::prelude::*;
use crate::combinator::Parsed;
use crate::combinator::append;
use crate::combinator::lemma_append_empty;
use crate::combinator::lemma_append_no_more;
use crate::combinator::lemma_append_prepend;
use crate::combinator::lift;
use crate::combinator::no_more;
use crate::combinator::prepend;
use crate::combinator::rest;
use crate::combinator::seq2;
use crate::combinator::well_spanned;
use crate::context::Input;
use crate::context::Parser;
use crate::failure::Failure;
use crate::span::Span;
use crate::token::Identifier;
use crate::token::Symbol;
use crate::token::identifier;
use crate::token::spec_identifier;
use crate::token::spec_symbol;
use crate::token::symbol;
use crate::tree::Tree;
use crate::tree::group_layout;
use crate::tree::group_leaves;
use crate::tree::leaves_after;
use crate::tree::tiled;
use crate::tree::width;

verus! {

broadcast use {group_layout, group_leaves};

/// The name of a block or a labelled statement.
pub type BlockIdentifier = Identifier;

/// The name of a clocking block.
pub type ClockingIdentifier = Identifier;

/// The name of an instance.
pub type InstanceIdentifier = Identifier;

/// The name of a module.
pub type ModuleIdentifier = Identifier;

/// The name of a parameter.
pub type ParameterIdentifier = Identifier;

/// The name of a port.
pub type PortIdentifier = Identifier;

/// The name of a signal.
pub type SignalIdentifier = Identifier;

/// The name of a variable.
pub type VariableIdentifier = Identifier;

/// `hierarchical_identifier ::= identifier { member_name }`
#[derive(Debug)]
pub struct HierarchicalIdentifier {
    pub nodes: (Identifier, Vec<(Symbol, Identifier)>),
}

/// What [`member_name`] returns.
pub type MemberName = (Symbol, Identifier);

impl HierarchicalIdentifier {
    /// The tree of the node: the sequence of the trees of its parts.
    #[verifier::opaque]
    pub open spec fn tree(&self) -> Tree {
        Tree::Sequence(
            Seq::empty()
                .push(self.nodes.0.tree())
                .push(Tree::Repeat(member_name_trees(self.nodes.1@))),
        )
    }

    /// Appends the leaf spans of the node to `out`, in source order.
    pub fn leaf_spans(&self, out: &mut Vec<Span>)
        ensures
            final(out)@ == leaves_after(old(out)@, self.tree()),
    {
        proof {
            reveal(HierarchicalIdentifier::tree);
        }
        self.nodes.0.leaf_spans(out);
        member_name_leaf_spans(&self.nodes.1, out);
    }
}

/// The tree of what [`member_name`] returns.
#[verifier::opaque]
pub open spec fn member_name_tree(n: MemberName) -> Tree {
    Tree::Sequence(Seq::empty().push(n.0.tree()).push(n.1.tree()))
}

/// The trees of a list of such nodes, in order.
#[verifier::opaque]
pub open spec fn member_name_trees(s: Seq<MemberName>) -> Seq<Tree> {
    Seq::new(
        s.len(),
        |i: int| if 0 <= i < s.len() {
            member_name_tree(s[i])
        } else {
            arbitrary()
        },
    )
}

/// The trees of a list that has one more node at its end.
pub proof fn lemma_member_name_trees_push(s: Seq<MemberName>, x: MemberName)
    ensures
        member_name_trees(s.push(x)) == member_name_trees(s).push(member_name_tree(x)),
{
    reveal(member_name_trees);
    assert forall|i: int| 0 <= i < s.len() + 1 implies
        #[trigger] member_name_trees(s.push(x))[i]
        == member_name_trees(s).push(member_name_tree(x))[i] by {
        let y = s.push(x)[i];
        assert(member_name_tree(y) == if i < s.len() {
            member_name_tree(s[i])
        } else {
            member_name_tree(x)
        });
    }
    assert(member_name_trees(s.push(x)) =~= member_name_trees(s).push(member_name_tree(x)));
}

/// The empty list has no trees.
pub proof fn lemma_member_name_trees_empty()
    ensures
        member_name_trees(Seq::empty()) == Seq::<Tree>::empty(),
{
    reveal(member_name_trees);
    assert(member_name_trees(Seq::empty()) =~= Seq::<Tree>::empty());
}

/// Appends the leaf spans of a list of nodes to `out`, in source order.
pub fn member_name_leaf_spans(v: &Vec<MemberName>, out: &mut Vec<Span>)
    ensures
        final(out)@ == leaves_after(old(out)@, Tree::Repeat(member_name_trees(v@))),
{
    let mut i: usize = 0;
    proof {
        reveal(member_name_tree);
        lemma_member_name_trees_empty();
        assert(v@.take(0) =~= Seq::empty());
    }
    while i < v.len()
        invariant
            i <= v@.len(),
            out@ == leaves_after(old(out)@, Tree::Repeat(member_name_trees(v@.take(i as int)))),
        decreases v@.len() - i,
    {
        proof {
            reveal(member_name_tree);
        }
        v[i].0.leaf_spans(out);
        v[i].1.leaf_spans(out);
        proof {
            lemma_member_name_trees_push(v@.take(i as int), v@[i as int]);
            assert(v@.take(i as int).push(v@[i as int]) =~= v@.take(i + 1));
        }
        i = i + 1;
    }
    proof {
        assert(v@.take(v@.len() as int) =~= v@);
    }
}

impl Clone for HierarchicalIdentifier {
    /// A copy with the same tree.
    fn clone(&self) -> (r: Self)
        ensures
            r.tree() == self.tree(),
    {
        proof {
            reveal(HierarchicalIdentifier::tree);
        }
        HierarchicalIdentifier {
            nodes: (
                self.nodes.0,
                clone_member_name_vec(&self.nodes.1),
            ),
        }
    }
}

/// A copy of a list of nodes with the same trees.
pub fn clone_member_name_vec(v: &Vec<MemberName>) -> (r: Vec<MemberName>)
    ensures
        member_name_trees(r@) == member_name_trees(v@),
{
    let mut out: Vec<MemberName> = Vec::new();
    let mut i: usize = 0;
    proof {
        assert(out@ =~= v@.take(0));
    }
    while i < v.len()
        invariant
            i <= v@.len(),
            member_name_trees(out@) == member_name_trees(v@.take(i as int)),
        decreases v@.len() - i,
    {
        let x = (v[i].0, v[i].1);
        proof {
            lemma_member_name_trees_push(out@, x);
            lemma_member_name_trees_push(v@.take(i as int), v@[i as int]);
            assert(v@.take(i as int).push(v@[i as int]) =~= v@.take(i + 1));
        }
        out.push(x);
        i = i + 1;
    }
    proof {
        assert(v@.take(v@.len() as int) =~= v@);
    }
    out
}

/// `member_name ::= "." identifier`
#[verifier::opaque]
pub open spec fn spec_member_name(inp: Input, pos: int) -> Parsed {
    let a = spec_symbol(inp, pos, ".");
    let b = spec_identifier(inp, rest(a));
    seq2(a, b)
}

/// Parses a `member_name` at `pos`.
pub fn member_name(ctx: &Parser, pos: usize) -> (r: Result<(usize, MemberName), Failure>)
    requires
        pos <= ctx.input().src.len(),
    ensures
        lift(r, |n: MemberName| member_name_tree(n)) == spec_member_name(ctx.input(), pos as int),
        well_spanned(
            spec_member_name(ctx.input(), pos as int),
            pos as int,
            ctx.input().src.len() as int,
        ),
{
    proof {
        reveal(spec_member_name);
        reveal(member_name_tree);
    }
    let p = pos;
    let (p, a) = symbol(ctx, p, ".")?;
    let (p, b) = identifier(ctx, p)?;
    Ok((p, (a, b)))
}

/// `hierarchical_identifier ::= identifier { member_name }`
#[verifier::opaque]
pub open spec fn spec_hierarchical_identifier(inp: Input, pos: int) -> Parsed {
    let a = spec_identifier(inp, pos);
    let b = spec_many_member_name(inp, rest(a));
    seq2(a, b)
}

/// Parses a `hierarchical_identifier` at `pos`.
pub fn hierarchical_identifier(ctx: &Parser, pos: usize) -> (r: Result<
    (usize, HierarchicalIdentifier),
    Failure,
>)
    requires
        pos <= ctx.input().src.len(),
    ensures
        lift(r, |n: HierarchicalIdentifier| n.tree()) == spec_hierarchical_identifier(
            ctx.input(),
            pos as int,
        ),
        well_spanned(
            spec_hierarchical_identifier(ctx.input(), pos as int),
            pos as int,
            ctx.input().src.len() as int,
        ),
{
    proof {
        reveal(spec_hierarchical_identifier);
        reveal(HierarchicalIdentifier::tree);
    }
    let p = pos;
    let (p, a) = identifier(ctx, p)?;
    let (p, b) = many_member_name(ctx, p)?;
    Ok((p, HierarchicalIdentifier { nodes: (a, b) }))
}

/// `many_member_name ::= { member_name }` Stops before the first item that does not
/// match, or that matches nothing.
#[verifier::opaque]
pub open spec fn spec_many_member_name(inp: Input, pos: int) -> Parsed
    decreases inp.src.len() - pos,
{
    match spec_member_name(inp, pos) {
        Ok((p, t)) => if pos < p <= inp.src.len() {
            prepend(t, spec_many_member_name(inp, p))
        } else {
            no_more(pos)
        },
        Err(e) => if e.committed {
            Err(e)
        } else {
            no_more(pos)
        },
    }
}

/// Parses as many items as match at `pos`, one after the other: `{ member_name }`.
pub fn many_member_name(ctx: &Parser, pos: usize) -> (r: Result<(usize, Vec<MemberName>), Failure>)
    requires
        pos <= ctx.input().src.len(),
    ensures
        lift(r, |n: Vec<MemberName>| Tree::Repeat(member_name_trees(n@))) == spec_many_member_name(
            ctx.input(),
            pos as int,
        ),
        well_spanned(
            spec_many_member_name(ctx.input(), pos as int),
            pos as int,
            ctx.input().src.len() as int,
        ),
{
    proof {
        reveal(spec_many_member_name);
        reveal(member_name_tree);
    }
    let ghost inp = ctx.input();
    let mut items: Vec<MemberName> = Vec::new();
    let mut cur: usize = pos;
    proof {
        lemma_append_empty(spec_many_member_name(inp, pos as int));
        lemma_member_name_trees_empty();
    }
    loop
        invariant
            ctx.input() == inp,
            pos <= cur <= inp.src.len(),
            spec_many_member_name(inp, pos as int) == append(
                member_name_trees(items@),
                spec_many_member_name(inp, cur as int),
            ),
            tiled(Tree::Repeat(member_name_trees(items@)), pos as int),
            cur == pos + width(Tree::Repeat(member_name_trees(items@))),
        decreases inp.src.len() - cur,
    {
        proof {
            reveal(spec_many_member_name);
            reveal(member_name_tree);
        }
        let (p, x) = match member_name(ctx, cur) {
            Ok(found) => found,
            Err(e) => {
                if e.committed {
                    return Err(e);
                }
                proof {
                    lemma_append_no_more(member_name_trees(items@), cur as int);
                }
                return Ok((cur, items));
            },
        };
        if p <= cur {
            proof {
                lemma_append_no_more(member_name_trees(items@), cur as int);
            }
            return Ok((cur, items));
        }
        proof {
            lemma_append_prepend(
                member_name_trees(items@),
                member_name_tree(x),
                spec_many_member_name(inp, p as int),
            );
            lemma_member_name_trees_push(items@, x);
        }
        items.push(x);
        cur = p;
    }
}

} // verus!
