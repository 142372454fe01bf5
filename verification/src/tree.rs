//! The mathematical model of a syntax tree.
//!
//! Every typed node of the concrete syntax tree has a `tree()` that maps it to
//! a [`Tree`]: a leaf for each matched region of the source, a sequence for a
//! node with a fixed list of children, a repeat for zero or more children, an
//! optional child and a variant for one of several alternative shapes. What
//! holds of every syntax tree, whatever its type, is stated and proved here.
use vstd::prelude::*;
use crate::span::Span;

verus! {

pub enum Tree {
    /// A terminal: one matched region of the source.
    Leaf(Span),
    /// A node with a fixed number of children, in source order.
    Sequence(Seq<Tree>),
    /// Zero or more children of one kind, in source order.
    Repeat(Seq<Tree>),
    /// A child that may be absent.
    Optional(Option<Box<Tree>>),
    /// The alternative with the given index, and its payload.
    Variant(nat, Box<Tree>),
}

/// The number of source bytes under a tree: the sum of the lengths of its
/// leaves.
pub open spec fn width(t: Tree) -> nat
    decreases t,
{
    match t {
        Tree::Leaf(span) => span.len as nat,
        Tree::Sequence(s) => width_all(s),
        Tree::Repeat(s) => width_all(s),
        Tree::Optional(None) => 0,
        Tree::Optional(Some(b)) => width(*b),
        Tree::Variant(_, b) => width(*b),
    }
}

/// The number of source bytes under a list of trees.
pub open spec fn width_all(s: Seq<Tree>) -> nat
    decreases s,
{
    if s.len() == 0 {
        0
    } else {
        width_all(s.drop_last()) + width(s.last())
    }
}

/// Whether the leaves of a tree lie one after the other from `start` on: the
/// first leaf begins at `start`, and each next leaf begins where the one
/// before it ended.
pub open spec fn tiled(t: Tree, start: int) -> bool
    decreases t,
{
    match t {
        Tree::Leaf(span) => span.offset == start,
        Tree::Sequence(s) => tiled_all(s, start),
        Tree::Repeat(s) => tiled_all(s, start),
        Tree::Optional(None) => true,
        Tree::Optional(Some(b)) => tiled(*b, start),
        Tree::Variant(_, b) => tiled(*b, start),
    }
}

/// Whether the trees of a list lie one after the other from `start` on.
pub open spec fn tiled_all(s: Seq<Tree>, start: int) -> bool
    decreases s,
{
    if s.len() == 0 {
        true
    } else {
        tiled_all(s.drop_last(), start) && tiled(s.last(), start + width_all(s.drop_last()))
    }
}

/// The leaves of a tree, in tree order.
pub open spec fn leaves(t: Tree) -> Seq<Span>
    decreases t,
{
    match t {
        Tree::Leaf(span) => seq![span],
        Tree::Sequence(s) => leaves_all(s),
        Tree::Repeat(s) => leaves_all(s),
        Tree::Optional(None) => Seq::empty(),
        Tree::Optional(Some(b)) => leaves(*b),
        Tree::Variant(_, b) => leaves(*b),
    }
}

/// The leaves of a list of trees, in order.
pub open spec fn leaves_all(s: Seq<Tree>) -> Seq<Span>
    decreases s,
{
    if s.len() == 0 {
        Seq::empty()
    } else {
        leaves_all(s.drop_last()) + leaves(s.last())
    }
}

/// The list `before`, and after it the leaves of a tree in tree order.
pub open spec fn leaves_after(before: Seq<Span>, t: Tree) -> Seq<Span>
    decreases t,
{
    match t {
        Tree::Leaf(span) => before.push(span),
        Tree::Sequence(s) => leaves_after_all(before, s),
        Tree::Repeat(s) => leaves_after_all(before, s),
        Tree::Optional(None) => before,
        Tree::Optional(Some(b)) => leaves_after(before, *b),
        Tree::Variant(_, b) => leaves_after(before, *b),
    }
}

/// The list `before`, and after it the leaves of a list of trees.
pub open spec fn leaves_after_all(before: Seq<Span>, s: Seq<Tree>) -> Seq<Span>
    decreases s,
{
    if s.len() == 0 {
        before
    } else {
        leaves_after(leaves_after_all(before, s.drop_last()), s.last())
    }
}

/// The span of a tree whose first leaf begins at `start`.
pub open spec fn extent(t: Tree, start: int) -> Span {
    Span { offset: start as usize, len: width(t) as usize }
}

/// The offset at which child `i` of a list that is laid out from `start`
/// begins.
pub open spec fn child_start(s: Seq<Tree>, i: int, start: int) -> int {
    start + width_all(s.take(i))
}

/// The children of a node, in order. A leaf has none.
pub open spec fn children(t: Tree) -> Seq<Tree> {
    match t {
        Tree::Leaf(_) => Seq::empty(),
        Tree::Sequence(s) => s,
        Tree::Repeat(s) => s,
        Tree::Optional(None) => Seq::empty(),
        Tree::Optional(Some(b)) => seq![*b],
        Tree::Variant(_, b) => seq![*b],
    }
}

/// The node that is reached from `root` by going to child `path[0]`, from
/// there to its child `path[1]` and so on, with the offset at which that node
/// begins when `root` begins at `start`. `None` where the path leaves the
/// tree.
pub open spec fn node_at(root: Tree, start: int, path: Seq<int>) -> Option<(Tree, int)>
    decreases path.len(),
{
    if path.len() == 0 {
        Some((root, start))
    } else {
        let i = path[0];
        let c = children(root);
        if 0 <= i < c.len() {
            node_at(c[i], child_start(c, i, start), path.drop_first())
        } else {
            None
        }
    }
}

/// The bytes of `src` under a list of spans, one after the other.
pub open spec fn text_of(spans: Seq<Span>, src: Seq<u8>) -> Seq<u8>
    decreases spans.len(),
{
    if spans.len() == 0 {
        Seq::empty()
    } else {
        text_of(spans.drop_last(), src) + spans.last().text(src)
    }
}

/// The tree of a token: the matched text, then the white space after it.
pub open spec fn token(start: int, len: int, space: int) -> Tree {
    Tree::Sequence(
        Seq::empty().push(Tree::Leaf(Span { offset: start as usize, len: len as usize })).push(
            Tree::Leaf(Span { offset: (start + len) as usize, len: space as usize }),
        ),
    )
}

/// The width of a list that has one more tree at its end.
pub proof fn lemma_width_all_push(s: Seq<Tree>, t: Tree)
    ensures
        width_all(s.push(t)) == width_all(s) + width(t),
{
    assert(s.push(t).drop_last() =~= s);
}

/// The layout of a list that has one more tree at its end.
pub proof fn lemma_tiled_all_push(s: Seq<Tree>, t: Tree, start: int)
    ensures
        tiled_all(s.push(t), start) == (tiled_all(s, start) && tiled(
            t,
            start + width_all(s),
        )),
{
    assert(s.push(t).drop_last() =~= s);
}

/// A sequence without children has no width.
pub broadcast proof fn lemma_sequence_empty_width()
    ensures
        #[trigger] width(Tree::Sequence(Seq::empty())) == 0,
{
    let s = Seq::<Tree>::empty();
    assert(width(Tree::Sequence(s)) == width_all(s));
}

/// A sequence without children is laid out from anywhere.
pub broadcast proof fn lemma_sequence_empty_tiled(start: int)
    ensures
        #[trigger] tiled(Tree::Sequence(Seq::empty()), start),
{
    let s = Seq::<Tree>::empty();
    assert(tiled(Tree::Sequence(s), start) == tiled_all(s, start));
}

/// The width of a sequence that has one more child at its end.
pub broadcast proof fn lemma_sequence_width(s: Seq<Tree>, t: Tree)
    ensures
        #[trigger] width(Tree::Sequence(s.push(t))) == width(Tree::Sequence(s)) + width(t),
{
    lemma_width_all_push(s, t);
}

/// The layout of a sequence that has one more child at its end.
pub broadcast proof fn lemma_sequence_tiled(s: Seq<Tree>, t: Tree, start: int)
    ensures
        #[trigger] tiled(Tree::Sequence(s.push(t)), start) == (tiled(Tree::Sequence(s), start)
            && tiled(t, start + width(Tree::Sequence(s)))),
{
    lemma_tiled_all_push(s, t, start);
}

/// A repeat without children has no width.
pub broadcast proof fn lemma_repeat_empty_width()
    ensures
        #[trigger] width(Tree::Repeat(Seq::empty())) == 0,
{
    let s = Seq::<Tree>::empty();
    assert(width(Tree::Repeat(s)) == width_all(s));
}

/// A repeat without children is laid out from anywhere.
pub broadcast proof fn lemma_repeat_empty_tiled(start: int)
    ensures
        #[trigger] tiled(Tree::Repeat(Seq::empty()), start),
{
    let s = Seq::<Tree>::empty();
    assert(tiled(Tree::Repeat(s), start) == tiled_all(s, start));
}

/// The width of a repeat that has one more child at its end.
pub broadcast proof fn lemma_repeat_width(s: Seq<Tree>, t: Tree)
    ensures
        #[trigger] width(Tree::Repeat(s.push(t))) == width(Tree::Repeat(s)) + width(t),
{
    lemma_width_all_push(s, t);
}

/// The layout of a repeat that has one more child at its end.
pub broadcast proof fn lemma_repeat_tiled(s: Seq<Tree>, t: Tree, start: int)
    ensures
        #[trigger] tiled(Tree::Repeat(s.push(t)), start) == (tiled(Tree::Repeat(s), start)
            && tiled(t, start + width(Tree::Repeat(s)))),
{
    lemma_tiled_all_push(s, t, start);
}

/// The width of a variant is that of its payload.
pub broadcast proof fn lemma_variant_width(index: nat, t: Tree)
    ensures
        #[trigger] width(Tree::Variant(index, Box::new(t))) == width(t),
{
}

/// A variant is laid out as its payload is.
pub broadcast proof fn lemma_variant_tiled(index: nat, t: Tree, start: int)
    ensures
        #[trigger] tiled(Tree::Variant(index, Box::new(t)), start) == tiled(t, start),
{
}

/// The width of a child that is present.
pub broadcast proof fn lemma_optional_width(t: Tree)
    ensures
        #[trigger] width(Tree::Optional(Some(Box::new(t)))) == width(t),
{
}

/// A child that is present is laid out as it is itself.
pub broadcast proof fn lemma_optional_tiled(t: Tree, start: int)
    ensures
        #[trigger] tiled(Tree::Optional(Some(Box::new(t))), start) == tiled(t, start),
{
}

/// The leaf of a tree that is a leaf.
pub broadcast proof fn lemma_leaf_after(before: Seq<Span>, span: Span)
    ensures
        #[trigger] leaves_after(before, Tree::Leaf(span)) == before.push(span),
{
}

/// A sequence without children has no leaves.
pub broadcast proof fn lemma_sequence_empty_after(before: Seq<Span>)
    ensures
        #[trigger] leaves_after(before, Tree::Sequence(Seq::empty())) == before,
{
    let s = Seq::<Tree>::empty();
    assert(leaves_after(before, Tree::Sequence(s)) == leaves_after_all(before, s));
}

/// The leaves of a sequence that has one more child at its end.
pub broadcast proof fn lemma_sequence_after(before: Seq<Span>, s: Seq<Tree>, t: Tree)
    ensures
        #[trigger] leaves_after(before, Tree::Sequence(s.push(t))) == leaves_after(
            leaves_after(before, Tree::Sequence(s)),
            t,
        ),
{
    assert(s.push(t).drop_last() =~= s);
    assert(leaves_after(before, Tree::Sequence(s.push(t))) == leaves_after_all(before, s.push(t)));
    assert(leaves_after(before, Tree::Sequence(s)) == leaves_after_all(before, s));
}

/// A repeat without children has no leaves.
pub broadcast proof fn lemma_repeat_empty_after(before: Seq<Span>)
    ensures
        #[trigger] leaves_after(before, Tree::Repeat(Seq::empty())) == before,
{
    let s = Seq::<Tree>::empty();
    assert(leaves_after(before, Tree::Repeat(s)) == leaves_after_all(before, s));
}

/// The leaves of a repeat that has one more child at its end.
pub broadcast proof fn lemma_repeat_after(before: Seq<Span>, s: Seq<Tree>, t: Tree)
    ensures
        #[trigger] leaves_after(before, Tree::Repeat(s.push(t))) == leaves_after(
            leaves_after(before, Tree::Repeat(s)),
            t,
        ),
{
    assert(s.push(t).drop_last() =~= s);
    assert(leaves_after(before, Tree::Repeat(s.push(t))) == leaves_after_all(before, s.push(t)));
    assert(leaves_after(before, Tree::Repeat(s)) == leaves_after_all(before, s));
}

/// The leaves of a variant are those of its payload.
pub broadcast proof fn lemma_variant_after(before: Seq<Span>, index: nat, t: Tree)
    ensures
        #[trigger] leaves_after(before, Tree::Variant(index, Box::new(t))) == leaves_after(
            before,
            t,
        ),
{
}

/// The leaves of a child that is present.
pub broadcast proof fn lemma_optional_after(before: Seq<Span>, t: Tree)
    ensures
        #[trigger] leaves_after(before, Tree::Optional(Some(Box::new(t)))) == leaves_after(
            before,
            t,
        ),
{
}

/// An absent child has no leaves.
pub broadcast proof fn lemma_absent_after(before: Seq<Span>)
    ensures
        #[trigger] leaves_after(before, Tree::Optional(None)) == before,
{
}

/// What a list of spans becomes when the leaves of a tree are put after it,
/// in terms of the children of the tree.
pub broadcast group group_leaves {
    lemma_leaf_after,
    lemma_sequence_empty_after,
    lemma_sequence_after,
    lemma_repeat_empty_after,
    lemma_repeat_after,
    lemma_variant_after,
    lemma_optional_after,
    lemma_absent_after,
}

/// Putting the leaves of a tree after a list of spans is concatenation.
pub proof fn lemma_leaves_after(before: Seq<Span>, t: Tree)
    ensures
        leaves_after(before, t) == before + leaves(t),
    decreases t,
{
    match t {
        Tree::Leaf(span) => {
            assert(before.push(span) =~= before + seq![span]);
        },
        Tree::Sequence(s) => {
            lemma_leaves_after_all(before, s);
        },
        Tree::Repeat(s) => {
            lemma_leaves_after_all(before, s);
        },
        Tree::Optional(None) => {
            assert(before =~= before + Seq::<Span>::empty());
        },
        Tree::Optional(Some(b)) => {
            lemma_leaves_after(before, *b);
        },
        Tree::Variant(_, b) => {
            lemma_leaves_after(before, *b);
        },
    }
}

/// The same for a list of trees.
pub proof fn lemma_leaves_after_all(before: Seq<Span>, s: Seq<Tree>)
    ensures
        leaves_after_all(before, s) == before + leaves_all(s),
    decreases s,
{
    if s.len() == 0 {
        assert(before =~= before + Seq::<Span>::empty());
    } else {
        lemma_leaves_after_all(before, s.drop_last());
        lemma_leaves_after(leaves_after_all(before, s.drop_last()), s.last());
        assert((before + leaves_all(s.drop_last())) + leaves(s.last()) =~= before + (leaves_all(
            s.drop_last(),
        ) + leaves(s.last())));
    }
}

/// How a tree is laid out in terms of its children: a sequence or a repeat
/// that grows by one child at its end, the payload of a variant, an optional
/// child that is present.
pub broadcast group group_layout {
    lemma_sequence_empty_width,
    lemma_sequence_empty_tiled,
    lemma_sequence_width,
    lemma_sequence_tiled,
    lemma_repeat_empty_width,
    lemma_repeat_empty_tiled,
    lemma_repeat_width,
    lemma_repeat_tiled,
    lemma_variant_width,
    lemma_variant_tiled,
    lemma_optional_width,
    lemma_optional_tiled,
}

/// The bytes under two lists of spans are those under the first followed by
/// those under the second.
pub proof fn lemma_text_of_concat(a: Seq<Span>, b: Seq<Span>, src: Seq<u8>)
    ensures
        text_of(a + b, src) == text_of(a, src) + text_of(b, src),
    decreases b.len(),
{
    if b.len() == 0 {
        assert(a + b =~= a);
        assert(text_of(a, src) + text_of(b, src) =~= text_of(a, src));
    } else {
        lemma_text_of_concat(a, b.drop_last(), src);
        assert((a + b).drop_last() =~= a + b.drop_last());
        assert((a + b).last() == b.last());
        assert(text_of(a, src) + (text_of(b.drop_last(), src) + b.last().text(src)) =~= (text_of(
            a,
            src,
        ) + text_of(b.drop_last(), src)) + b.last().text(src));
    }
}

/// Concatenating the leaf spans of a laid-out tree, in tree order, gives back
/// exactly the bytes of the source between the start of the tree and its end.
pub proof fn lemma_leaves_reproduce_source(t: Tree, start: int, src: Seq<u8>)
    requires
        tiled(t, start),
        0 <= start,
        start + width(t) <= src.len(),
        src.len() <= usize::MAX,
    ensures
        text_of(leaves(t), src) == src.subrange(start, start + width(t)),
    decreases t,
{
    match t {
        Tree::Leaf(span) => {
            assert(leaves(t).drop_last() =~= Seq::<Span>::empty());
            assert(text_of(Seq::<Span>::empty(), src) =~= Seq::<u8>::empty());
            assert(text_of(leaves(t), src) =~= span.text(src));
        },
        Tree::Sequence(s) => {
            lemma_all_leaves_reproduce_source(s, start, src);
        },
        Tree::Repeat(s) => {
            lemma_all_leaves_reproduce_source(s, start, src);
        },
        Tree::Optional(None) => {
            assert(src.subrange(start, start) =~= Seq::<u8>::empty());
        },
        Tree::Optional(Some(b)) => {
            lemma_leaves_reproduce_source(*b, start, src);
        },
        Tree::Variant(_, b) => {
            lemma_leaves_reproduce_source(*b, start, src);
        },
    }
}

/// The same for a list of trees laid out from `start`.
pub proof fn lemma_all_leaves_reproduce_source(s: Seq<Tree>, start: int, src: Seq<u8>)
    requires
        tiled_all(s, start),
        0 <= start,
        start + width_all(s) <= src.len(),
        src.len() <= usize::MAX,
    ensures
        text_of(leaves_all(s), src) == src.subrange(start, start + width_all(s)),
    decreases s,
{
    if s.len() == 0 {
        assert(src.subrange(start, start) =~= Seq::<u8>::empty());
    } else {
        let mid = start + width_all(s.drop_last());
        lemma_all_leaves_reproduce_source(s.drop_last(), start, src);
        lemma_leaves_reproduce_source(s.last(), mid, src);
        lemma_text_of_concat(leaves_all(s.drop_last()), leaves(s.last()), src);
        assert(src.subrange(start, mid) + src.subrange(mid, mid + width(s.last())) =~= src.subrange(
            start,
            start + width_all(s),
        ));
    }
}

/// In a laid-out list every child is itself laid out, from the offset at
/// which the children before it end.
pub proof fn lemma_child_tiled(s: Seq<Tree>, i: int, start: int)
    requires
        tiled_all(s, start),
        0 <= i < s.len(),
    ensures
        tiled(s[i], child_start(s, i, start)),
        child_start(s, i, start) + width(s[i]) <= start + width_all(s),
    decreases s.len(),
{
    if i == s.len() - 1 {
        assert(s.take(i) =~= s.drop_last());
    } else {
        lemma_child_tiled(s.drop_last(), i, start);
        assert(s.drop_last().take(i) =~= s.take(i));
    }
}

/// The span of a node with children is the union of the spans of its first
/// and its last child: it begins where the first begins and ends where the
/// last ends.
pub proof fn lemma_span_is_union_of_children(s: Seq<Tree>, start: int)
    requires
        s.len() > 0,
        0 <= start,
        start + width_all(s) <= usize::MAX,
    ensures
        extent(Tree::Sequence(s), start) == extent(s[0], child_start(s, 0, start)).spec_union(
            extent(s.last(), child_start(s, s.len() - 1, start)),
        ),
        extent(Tree::Repeat(s), start) == extent(Tree::Sequence(s), start),
{
    assert(s.take(0) =~= Seq::<Tree>::empty());
    assert(s.take(s.len() - 1) =~= s.drop_last());
}

/// Width and layout of a node in terms of its children.
pub proof fn lemma_children(t: Tree, start: int)
    ensures
        !(t is Leaf) ==> width(t) == width_all(children(t)),
        !(t is Leaf) ==> tiled(t, start) == tiled_all(children(t), start),
{
    match t {
        Tree::Optional(Some(b)) => {
            let s = Seq::<Tree>::empty().push(*b);
            assert(children(t) =~= s);
            lemma_width_all_push(Seq::empty(), *b);
            lemma_tiled_all_push(Seq::empty(), *b, start);
        },
        Tree::Variant(_, b) => {
            let s = Seq::<Tree>::empty().push(*b);
            assert(children(t) =~= s);
            lemma_width_all_push(Seq::empty(), *b);
            lemma_tiled_all_push(Seq::empty(), *b, start);
        },
        _ => {},
    }
}

/// Span coverage, for every node of a tree: in a tree that is laid out from
/// `start`, every node is itself laid out from the offset at which it
/// begins, lies inside its root, and has as its span the union of the spans
/// of its first and its last child.
pub proof fn lemma_every_node_is_spanned(root: Tree, start: int, path: Seq<int>)
    requires
        tiled(root, start),
        0 <= start,
        start + width(root) <= usize::MAX,
    ensures
        node_at(root, start, path) matches Some((node, at)) ==> {
            &&& tiled(node, at)
            &&& start <= at
            &&& at + width(node) <= start + width(root)
            &&& children(node).len() > 0 ==> extent(node, at) == extent(
                children(node)[0],
                child_start(children(node), 0, at),
            ).spec_union(
                extent(
                    children(node).last(),
                    child_start(children(node), children(node).len() - 1, at),
                ),
            )
        },
    decreases path.len(),
{
    if path.len() == 0 {
        let c = children(root);
        if c.len() > 0 {
            lemma_children(root, start);
            assert(c.take(0) =~= Seq::<Tree>::empty());
            assert(c.take(c.len() - 1) =~= c.drop_last());
        }
    } else {
        let i = path[0];
        let c = children(root);
        if 0 <= i < c.len() {
            lemma_children(root, start);
            lemma_child_tiled(c, i, start);
            lemma_every_node_is_spanned(c[i], child_start(c, i, start), path.drop_first());
        }
    }
}

} // verus!
