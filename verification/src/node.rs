//! The generic nodes: what stands between two delimiters, and a list with
//! separators.
use vstd::prelude::*;
use crate::token::Symbol;
use crate::tree::Tree;

verus! {

/// `"(" inner ")"`: the opening parenthesis, what stands between, the closing
/// parenthesis.
#[derive(Debug)]
pub struct Paren<T> {
    pub nodes: (Symbol, T, Symbol),
}

/// `"[" inner "]"`: the opening bracket, what stands between, the closing
/// bracket.
#[derive(Debug)]
pub struct Bracket<T> {
    pub nodes: (Symbol, T, Symbol),
}

/// `item { separator item }`: a first item, then the pairs of a separator and
/// a further item, in source order. The separators are kept, so that the
/// source can be put together again from the node.
#[derive(Debug)]
pub struct List<T, U> {
    pub nodes: (U, Vec<(T, U)>),
}

/// The tree of a separator and the item after it, as a list holds them.
pub open spec fn separated(separator: Tree, item: Tree) -> Tree {
    Tree::Sequence(Seq::empty().push(separator).push(item))
}

impl<T> Paren<T> {
    /// The tree of the node, given the tree of what stands between the
    /// parentheses.
    pub open spec fn tree(&self, inner: Tree) -> Tree {
        Tree::Sequence(Seq::empty().push(self.nodes.0.tree()).push(inner).push(self.nodes.2.tree()))
    }
}

impl<T> Bracket<T> {
    /// The tree of the node, given the tree of what stands between the
    /// brackets.
    pub open spec fn tree(&self, inner: Tree) -> Tree {
        Tree::Sequence(Seq::empty().push(self.nodes.0.tree()).push(inner).push(self.nodes.2.tree()))
    }
}

impl<T, U> List<T, U> {
    /// The tree of the node, given the tree of the first item and the trees
    /// of the pairs after it.
    pub open spec fn tree(&self, first: Tree, more: Seq<Tree>) -> Tree {
        Tree::Sequence(Seq::empty().push(first).push(Tree::Repeat(more)))
    }

    /// The number of items.
    pub fn len(&self) -> (n: usize)
        requires
            self.nodes.1@.len() < usize::MAX,
        ensures
            n == self.nodes.1@.len() + 1,
    {
        self.nodes.1.len() + 1
    }
}

} // verus!
