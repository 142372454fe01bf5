//! Case statements.
use vstd::prelude::*;
use crate::combinator::Parsed;
use crate::combinator::append;
use crate::combinator::at_least_one;
use crate::combinator::commit;
use crate::combinator::cut;
use crate::combinator::delimited;
use crate::combinator::lemma_append_empty;
use crate::combinator::lemma_append_no_more;
use crate::combinator::lemma_append_prepend;
use crate::combinator::lift;
use crate::combinator::list;
use crate::combinator::no_more;
use crate::combinator::opt;
use crate::combinator::optional;
use crate::combinator::or_else;
use crate::combinator::prepend;
use crate::combinator::rest;
use crate::combinator::seq1;
use crate::combinator::seq2;
use crate::combinator::seq3;
use crate::combinator::seq4;
use crate::combinator::seq6;
use crate::combinator::seq7;
use crate::combinator::variant;
use crate::combinator::well_spanned;
use crate::context::Input;
use crate::context::Parser;
use crate::failure::Failure;
use crate::node::List;
use crate::node::Paren;
use crate::node::separated;
use crate::parser::behavioral_statements::conditional_statements::UniquePriority;
use crate::parser::behavioral_statements::conditional_statements::spec_unique_priority;
use crate::parser::behavioral_statements::conditional_statements::unique_priority;
use crate::parser::behavioral_statements::patterns::Pattern;
use crate::parser::behavioral_statements::patterns::pattern;
use crate::parser::behavioral_statements::statements::StatementOrNull;
use crate::parser::behavioral_statements::statements::statement_or_null;
use crate::parser::expressions::expressions::AssignedValue;
use crate::parser::expressions::expressions::Expression;
use crate::parser::expressions::expressions::ValueRange;
use crate::parser::expressions::expressions::assigned_value_tree;
use crate::parser::expressions::expressions::expression;
use crate::parser::expressions::expressions::spec_value_range;
use crate::parser::expressions::expressions::value_range;
use crate::parser::nesting::Nesting;
use crate::parser::nesting::nesting;
use crate::span::Span;
use crate::token::Keyword;
use crate::token::Symbol;
use crate::token::keyword;
use crate::token::spec_keyword;
use crate::token::spec_symbol;
use crate::token::symbol;
use crate::tree::Tree;
use crate::tree::group_layout;
use crate::tree::group_leaves;
use crate::tree::leaves_after;
use crate::tree::tiled;
use crate::tree::width;

verus! {

broadcast use {group_layout, group_leaves};

/// `case_statement_normal ::= [ unique_priority ] case_keyword "(" case_expression ")"
/// case_item { case_item } "endcase"`
#[derive(Debug)]
pub struct CaseStatementNormal {
    pub nodes: (
        Option<UniquePriority>,
        CaseKeyword,
        Paren<CaseExpression>,
        CaseItem,
        Vec<CaseItem>,
        Keyword,
    ),
}

/// `case_statement_matches ::= [ unique_priority ] case_keyword "(" case_expression ")"
/// "matches" case_pattern_item { case_pattern_item } "endcase"`
#[derive(Debug)]
pub struct CaseStatementMatches {
    pub nodes: (
        Option<UniquePriority>,
        CaseKeyword,
        Paren<CaseExpression>,
        Keyword,
        CasePatternItem,
        Vec<CasePatternItem>,
        Keyword,
    ),
}

/// `case_statement_inside ::= [ unique_priority ] "case" "(" case_expression ")"
/// "inside" case_inside_item { case_inside_item } "endcase"`
#[derive(Debug)]
pub struct CaseStatementInside {
    pub nodes: (
        Option<UniquePriority>,
        Keyword,
        Paren<CaseExpression>,
        Keyword,
        CaseInsideItem,
        Vec<CaseInsideItem>,
        Keyword,
    ),
}

/// A case statement, in one of its three forms.
#[derive(Debug)]
pub enum CaseStatement {
    Normal(Box<CaseStatementNormal>),
    Matches(Box<CaseStatementMatches>),
    Inside(Box<CaseStatementInside>),
}

/// The word that begins a case statement.
#[derive(Debug)]
pub enum CaseKeyword {
    Case(Box<Keyword>),
    Casez(Box<Keyword>),
    Casex(Box<Keyword>),
}

/// `case_expression ::= expression`
#[derive(Debug)]
pub struct CaseExpression {
    pub nodes: (Expression,),
}

/// `case_item_nondefault ::= case_item_expression { "," case_item_expression } ":"
/// statement_or_null`
#[derive(Debug)]
pub struct CaseItemNondefault {
    pub nodes: (List<Symbol, CaseItemExpression>, Symbol, StatementOrNull),
}

/// `case_item_default ::= "default" [ ":" ] statement_or_null`
#[derive(Debug)]
pub struct CaseItemDefault {
    pub nodes: (Keyword, Option<Symbol>, StatementOrNull),
}

/// An item of a case statement.
#[derive(Debug)]
pub enum CaseItem {
    NonDefault(Box<CaseItemNondefault>),
    Default(Box<CaseItemDefault>),
}

/// `case_pattern_item_nondefault ::= pattern [ pattern_guard ] ":" statement_or_null`
#[derive(Debug)]
pub struct CasePatternItemNondefault {
    pub nodes: (Pattern, Option<(Symbol, Expression)>, Symbol, StatementOrNull),
}

/// An item of a case statement that matches patterns.
#[derive(Debug)]
pub enum CasePatternItem {
    NonDefault(Box<CasePatternItemNondefault>),
    Default(Box<CaseItemDefault>),
}

/// `case_inside_item_nondefault ::= open_range_list ":" statement_or_null`
#[derive(Debug)]
pub struct CaseInsideItemNondefault {
    pub nodes: (OpenRangeList, Symbol, StatementOrNull),
}

/// An item of a case statement that tests ranges.
#[derive(Debug)]
pub enum CaseInsideItem {
    NonDefault(Box<CaseInsideItemNondefault>),
    Default(Box<CaseItemDefault>),
}

/// `case_item_expression ::= expression`
#[derive(Debug)]
pub struct CaseItemExpression {
    pub nodes: (Expression,),
}

/// `randcase_statement ::= "randcase" randcase_item { randcase_item } "endcase"`
#[derive(Debug)]
pub struct RandcaseStatement {
    pub nodes: (Keyword, RandcaseItem, Vec<RandcaseItem>, Keyword),
}

/// `randcase_item ::= expression ":" statement_or_null`
#[derive(Debug)]
pub struct RandcaseItem {
    pub nodes: (Expression, Symbol, StatementOrNull),
}

/// `open_range_list ::= open_value_range { "," open_value_range }`
#[derive(Debug)]
pub struct OpenRangeList {
    pub nodes: (List<Symbol, OpenValueRange>,),
}

/// `open_value_range ::= value_range`
#[derive(Debug)]
pub struct OpenValueRange {
    pub nodes: (ValueRange,),
}

impl CaseStatementNormal {
    /// The tree of the node: the sequence of the trees of its parts.
    pub open spec fn tree(&self) -> Tree
        decreases self,
    {
        Tree::Sequence(
            Seq::empty()
                .push(
                    match self.nodes.0 {
                        Some(x) => Tree::Optional(Some(Box::new(x.tree()))),
                        None => Tree::Optional(None),
                    },
                )
                .push(self.nodes.1.tree())
                .push(self.nodes.2.tree(self.nodes.2.nodes.1.tree()))
                .push(self.nodes.3.tree())
                .push(Tree::Repeat(CaseItem::trees(self.nodes.4@)))
                .push(self.nodes.5.tree()),
        )
    }

    /// Appends the leaf spans of the node to `out`, in source order.
    pub fn leaf_spans(&self, out: &mut Vec<Span>)
        ensures
            final(out)@ == leaves_after(old(out)@, self.tree()),
        decreases self,
    {
        match &self.nodes.0 {
            Some(x) => {
                x.leaf_spans(out);
            },
            None => {},
        }
        self.nodes.1.leaf_spans(out);
        self.nodes.2.nodes.0.leaf_spans(out);
        self.nodes.2.nodes.1.leaf_spans(out);
        self.nodes.2.nodes.2.leaf_spans(out);
        self.nodes.3.leaf_spans(out);
        CaseItem::leaf_spans_of_all(&self.nodes.4, out);
        self.nodes.5.leaf_spans(out);
    }
}

impl CaseStatementMatches {
    /// The tree of the node: the sequence of the trees of its parts.
    pub open spec fn tree(&self) -> Tree
        decreases self,
    {
        Tree::Sequence(
            Seq::empty()
                .push(
                    match self.nodes.0 {
                        Some(x) => Tree::Optional(Some(Box::new(x.tree()))),
                        None => Tree::Optional(None),
                    },
                )
                .push(self.nodes.1.tree())
                .push(self.nodes.2.tree(self.nodes.2.nodes.1.tree()))
                .push(self.nodes.3.tree())
                .push(self.nodes.4.tree())
                .push(Tree::Repeat(CasePatternItem::trees(self.nodes.5@)))
                .push(self.nodes.6.tree()),
        )
    }

    /// Appends the leaf spans of the node to `out`, in source order.
    pub fn leaf_spans(&self, out: &mut Vec<Span>)
        ensures
            final(out)@ == leaves_after(old(out)@, self.tree()),
        decreases self,
    {
        match &self.nodes.0 {
            Some(x) => {
                x.leaf_spans(out);
            },
            None => {},
        }
        self.nodes.1.leaf_spans(out);
        self.nodes.2.nodes.0.leaf_spans(out);
        self.nodes.2.nodes.1.leaf_spans(out);
        self.nodes.2.nodes.2.leaf_spans(out);
        self.nodes.3.leaf_spans(out);
        self.nodes.4.leaf_spans(out);
        CasePatternItem::leaf_spans_of_all(&self.nodes.5, out);
        self.nodes.6.leaf_spans(out);
    }
}

impl CaseStatementInside {
    /// The tree of the node: the sequence of the trees of its parts.
    pub open spec fn tree(&self) -> Tree
        decreases self,
    {
        Tree::Sequence(
            Seq::empty()
                .push(
                    match self.nodes.0 {
                        Some(x) => Tree::Optional(Some(Box::new(x.tree()))),
                        None => Tree::Optional(None),
                    },
                )
                .push(self.nodes.1.tree())
                .push(self.nodes.2.tree(self.nodes.2.nodes.1.tree()))
                .push(self.nodes.3.tree())
                .push(self.nodes.4.tree())
                .push(Tree::Repeat(CaseInsideItem::trees(self.nodes.5@)))
                .push(self.nodes.6.tree()),
        )
    }

    /// Appends the leaf spans of the node to `out`, in source order.
    pub fn leaf_spans(&self, out: &mut Vec<Span>)
        ensures
            final(out)@ == leaves_after(old(out)@, self.tree()),
        decreases self,
    {
        match &self.nodes.0 {
            Some(x) => {
                x.leaf_spans(out);
            },
            None => {},
        }
        self.nodes.1.leaf_spans(out);
        self.nodes.2.nodes.0.leaf_spans(out);
        self.nodes.2.nodes.1.leaf_spans(out);
        self.nodes.2.nodes.2.leaf_spans(out);
        self.nodes.3.leaf_spans(out);
        self.nodes.4.leaf_spans(out);
        CaseInsideItem::leaf_spans_of_all(&self.nodes.5, out);
        self.nodes.6.leaf_spans(out);
    }
}

impl CaseStatement {
    /// The tree of the node: the variant, by its index, and the tree of its payload.
    pub open spec fn tree(&self) -> Tree
        decreases self,
    {
        match self {
            CaseStatement::Normal(x) => Tree::Variant(0, Box::new(x.tree())),
            CaseStatement::Matches(x) => Tree::Variant(1, Box::new(x.tree())),
            CaseStatement::Inside(x) => Tree::Variant(2, Box::new(x.tree())),
        }
    }

    /// Appends the leaf spans of the node to `out`, in source order.
    pub fn leaf_spans(&self, out: &mut Vec<Span>)
        ensures
            final(out)@ == leaves_after(old(out)@, self.tree()),
        decreases self,
    {
        match self {
            CaseStatement::Normal(x) => {
                x.leaf_spans(out);
            },
            CaseStatement::Matches(x) => {
                x.leaf_spans(out);
            },
            CaseStatement::Inside(x) => {
                x.leaf_spans(out);
            },
        }
    }
}

impl CaseKeyword {
    /// The tree of the node: the variant, by its index, and the tree of its payload.
    #[verifier::opaque]
    pub open spec fn tree(&self) -> Tree {
        match self {
            CaseKeyword::Case(x) => Tree::Variant(0, Box::new(x.tree())),
            CaseKeyword::Casez(x) => Tree::Variant(1, Box::new(x.tree())),
            CaseKeyword::Casex(x) => Tree::Variant(2, Box::new(x.tree())),
        }
    }

    /// Appends the leaf spans of the node to `out`, in source order.
    pub fn leaf_spans(&self, out: &mut Vec<Span>)
        ensures
            final(out)@ == leaves_after(old(out)@, self.tree()),
    {
        proof {
            reveal(CaseKeyword::tree);
        }
        match self {
            CaseKeyword::Case(x) => {
                x.leaf_spans(out);
            },
            CaseKeyword::Casez(x) => {
                x.leaf_spans(out);
            },
            CaseKeyword::Casex(x) => {
                x.leaf_spans(out);
            },
        }
    }
}

impl CaseExpression {
    /// The tree of the node: the sequence of the trees of its parts.
    #[verifier::opaque]
    pub open spec fn tree(&self) -> Tree {
        Tree::Sequence(
            Seq::empty()
                .push(self.nodes.0.tree()),
        )
    }

    /// Appends the leaf spans of the node to `out`, in source order.
    pub fn leaf_spans(&self, out: &mut Vec<Span>)
        ensures
            final(out)@ == leaves_after(old(out)@, self.tree()),
    {
        proof {
            reveal(CaseExpression::tree);
        }
        self.nodes.0.leaf_spans(out);
    }
}

impl CaseItemNondefault {
    /// The tree of the node: the sequence of the trees of its parts.
    pub open spec fn tree(&self) -> Tree
        decreases self,
    {
        Tree::Sequence(
            Seq::empty()
                .push(
                    self.nodes.0.tree(
                        self.nodes.0.nodes.0.tree(),
                        case_item_expression_tail_trees(self.nodes.0.nodes.1@),
                    ),
                )
                .push(self.nodes.1.tree())
                .push(self.nodes.2.tree()),
        )
    }

    /// Appends the leaf spans of the node to `out`, in source order.
    pub fn leaf_spans(&self, out: &mut Vec<Span>)
        ensures
            final(out)@ == leaves_after(old(out)@, self.tree()),
        decreases self,
    {
        self.nodes.0.nodes.0.leaf_spans(out);
        case_item_expression_tail_leaf_spans(&self.nodes.0.nodes.1, out);
        self.nodes.1.leaf_spans(out);
        self.nodes.2.leaf_spans(out);
    }
}

impl CaseItemDefault {
    /// The tree of the node: the sequence of the trees of its parts.
    pub open spec fn tree(&self) -> Tree
        decreases self,
    {
        Tree::Sequence(
            Seq::empty()
                .push(self.nodes.0.tree())
                .push(
                    match self.nodes.1 {
                        Some(x) => Tree::Optional(Some(Box::new(x.tree()))),
                        None => Tree::Optional(None),
                    },
                )
                .push(self.nodes.2.tree()),
        )
    }

    /// Appends the leaf spans of the node to `out`, in source order.
    pub fn leaf_spans(&self, out: &mut Vec<Span>)
        ensures
            final(out)@ == leaves_after(old(out)@, self.tree()),
        decreases self,
    {
        self.nodes.0.leaf_spans(out);
        match &self.nodes.1 {
            Some(x) => {
                x.leaf_spans(out);
            },
            None => {},
        }
        self.nodes.2.leaf_spans(out);
    }
}

impl CaseItem {
    /// The tree of the node: the variant, by its index, and the tree of its payload.
    pub open spec fn tree(&self) -> Tree
        decreases self,
    {
        match self {
            CaseItem::NonDefault(x) => Tree::Variant(0, Box::new(x.tree())),
            CaseItem::Default(x) => Tree::Variant(1, Box::new(x.tree())),
        }
    }

    /// The trees of a list of nodes, in order.
    pub open spec fn trees(s: Seq<CaseItem>) -> Seq<Tree>
        decreases s,
    {
        Seq::new(s.len(), |i: int| if 0 <= i < s.len() { s[i].tree() } else { arbitrary() })
    }

    /// The trees of a list that has one more node at its end.
    pub proof fn lemma_trees_push(s: Seq<CaseItem>, x: CaseItem)
        ensures
            Self::trees(s.push(x)) == Self::trees(s).push(x.tree()),
    {
        reveal(CaseItem::trees);
        assert forall|i: int| 0 <= i < s.len() + 1 implies #[trigger] Self::trees(s.push(x))[i]
            == Self::trees(s).push(x.tree())[i] by {
            assert(s.push(x)[i].tree() == if i < s.len() { s[i].tree() } else { x.tree() });
        }
        assert(Self::trees(s.push(x)) =~= Self::trees(s).push(x.tree()));
    }

    /// The empty list has no trees.
    pub proof fn lemma_trees_empty()
        ensures
            Self::trees(Seq::empty()) == Seq::<Tree>::empty(),
    {
        reveal(CaseItem::trees);
        assert(Self::trees(Seq::empty()) =~= Seq::<Tree>::empty());
    }

    /// Appends the leaf spans of the node to `out`, in source order.
    pub fn leaf_spans(&self, out: &mut Vec<Span>)
        ensures
            final(out)@ == leaves_after(old(out)@, self.tree()),
        decreases self,
    {
        match self {
            CaseItem::NonDefault(x) => {
                x.leaf_spans(out);
            },
            CaseItem::Default(x) => {
                x.leaf_spans(out);
            },
        }
    }

    /// Appends the leaf spans of a list of nodes to `out`, in source order.
    pub fn leaf_spans_of_all(v: &Vec<CaseItem>, out: &mut Vec<Span>)
        ensures
            final(out)@ == leaves_after(old(out)@, Tree::Repeat(CaseItem::trees(v@))),
        decreases v,
    {
        let mut i: usize = 0;
        proof {
            CaseItem::lemma_trees_empty();
            assert(v@.take(0) =~= Seq::empty());
        }
        while i < v.len()
            invariant
                i <= v@.len(),
                out@ == leaves_after(old(out)@, Tree::Repeat(CaseItem::trees(v@.take(i as int)))),
            decreases v@.len() - i,
        {
            v[i].leaf_spans(out);
            proof {
                CaseItem::lemma_trees_push(v@.take(i as int), v@[i as int]);
                assert(v@.take(i as int).push(v@[i as int]) =~= v@.take(i + 1));
            }
            i = i + 1;
        }
        proof {
            assert(v@.take(v@.len() as int) =~= v@);
        }
    }
}

impl CasePatternItemNondefault {
    /// The tree of the node: the sequence of the trees of its parts.
    pub open spec fn tree(&self) -> Tree
        decreases self,
    {
        Tree::Sequence(
            Seq::empty()
                .push(self.nodes.0.tree())
                .push(
                    match self.nodes.1 {
                        Some(x) => Tree::Optional(Some(Box::new(assigned_value_tree(x)))),
                        None => Tree::Optional(None),
                    },
                )
                .push(self.nodes.2.tree())
                .push(self.nodes.3.tree()),
        )
    }

    /// Appends the leaf spans of the node to `out`, in source order.
    pub fn leaf_spans(&self, out: &mut Vec<Span>)
        ensures
            final(out)@ == leaves_after(old(out)@, self.tree()),
        decreases self,
    {
        self.nodes.0.leaf_spans(out);
        match &self.nodes.1 {
            Some(x) => {
                x.0.leaf_spans(out);
                x.1.leaf_spans(out);
            },
            None => {},
        }
        self.nodes.2.leaf_spans(out);
        self.nodes.3.leaf_spans(out);
    }
}

impl CasePatternItem {
    /// The tree of the node: the variant, by its index, and the tree of its payload.
    pub open spec fn tree(&self) -> Tree
        decreases self,
    {
        match self {
            CasePatternItem::NonDefault(x) => Tree::Variant(0, Box::new(x.tree())),
            CasePatternItem::Default(x) => Tree::Variant(1, Box::new(x.tree())),
        }
    }

    /// The trees of a list of nodes, in order.
    pub open spec fn trees(s: Seq<CasePatternItem>) -> Seq<Tree>
        decreases s,
    {
        Seq::new(s.len(), |i: int| if 0 <= i < s.len() { s[i].tree() } else { arbitrary() })
    }

    /// The trees of a list that has one more node at its end.
    pub proof fn lemma_trees_push(s: Seq<CasePatternItem>, x: CasePatternItem)
        ensures
            Self::trees(s.push(x)) == Self::trees(s).push(x.tree()),
    {
        reveal(CasePatternItem::trees);
        assert forall|i: int| 0 <= i < s.len() + 1 implies #[trigger] Self::trees(s.push(x))[i]
            == Self::trees(s).push(x.tree())[i] by {
            assert(s.push(x)[i].tree() == if i < s.len() { s[i].tree() } else { x.tree() });
        }
        assert(Self::trees(s.push(x)) =~= Self::trees(s).push(x.tree()));
    }

    /// The empty list has no trees.
    pub proof fn lemma_trees_empty()
        ensures
            Self::trees(Seq::empty()) == Seq::<Tree>::empty(),
    {
        reveal(CasePatternItem::trees);
        assert(Self::trees(Seq::empty()) =~= Seq::<Tree>::empty());
    }

    /// Appends the leaf spans of the node to `out`, in source order.
    pub fn leaf_spans(&self, out: &mut Vec<Span>)
        ensures
            final(out)@ == leaves_after(old(out)@, self.tree()),
        decreases self,
    {
        match self {
            CasePatternItem::NonDefault(x) => {
                x.leaf_spans(out);
            },
            CasePatternItem::Default(x) => {
                x.leaf_spans(out);
            },
        }
    }

    /// Appends the leaf spans of a list of nodes to `out`, in source order.
    pub fn leaf_spans_of_all(v: &Vec<CasePatternItem>, out: &mut Vec<Span>)
        ensures
            final(out)@ == leaves_after(old(out)@, Tree::Repeat(CasePatternItem::trees(v@))),
        decreases v,
    {
        let mut i: usize = 0;
        proof {
            CasePatternItem::lemma_trees_empty();
            assert(v@.take(0) =~= Seq::empty());
        }
        while i < v.len()
            invariant
                i <= v@.len(),
                out@ == leaves_after(
                    old(out)@,
                    Tree::Repeat(CasePatternItem::trees(v@.take(i as int))),
                ),
            decreases v@.len() - i,
        {
            v[i].leaf_spans(out);
            proof {
                CasePatternItem::lemma_trees_push(v@.take(i as int), v@[i as int]);
                assert(v@.take(i as int).push(v@[i as int]) =~= v@.take(i + 1));
            }
            i = i + 1;
        }
        proof {
            assert(v@.take(v@.len() as int) =~= v@);
        }
    }
}

impl CaseInsideItemNondefault {
    /// The tree of the node: the sequence of the trees of its parts.
    pub open spec fn tree(&self) -> Tree
        decreases self,
    {
        Tree::Sequence(
            Seq::empty()
                .push(self.nodes.0.tree())
                .push(self.nodes.1.tree())
                .push(self.nodes.2.tree()),
        )
    }

    /// Appends the leaf spans of the node to `out`, in source order.
    pub fn leaf_spans(&self, out: &mut Vec<Span>)
        ensures
            final(out)@ == leaves_after(old(out)@, self.tree()),
        decreases self,
    {
        self.nodes.0.leaf_spans(out);
        self.nodes.1.leaf_spans(out);
        self.nodes.2.leaf_spans(out);
    }
}

impl CaseInsideItem {
    /// The tree of the node: the variant, by its index, and the tree of its payload.
    pub open spec fn tree(&self) -> Tree
        decreases self,
    {
        match self {
            CaseInsideItem::NonDefault(x) => Tree::Variant(0, Box::new(x.tree())),
            CaseInsideItem::Default(x) => Tree::Variant(1, Box::new(x.tree())),
        }
    }

    /// The trees of a list of nodes, in order.
    pub open spec fn trees(s: Seq<CaseInsideItem>) -> Seq<Tree>
        decreases s,
    {
        Seq::new(s.len(), |i: int| if 0 <= i < s.len() { s[i].tree() } else { arbitrary() })
    }

    /// The trees of a list that has one more node at its end.
    pub proof fn lemma_trees_push(s: Seq<CaseInsideItem>, x: CaseInsideItem)
        ensures
            Self::trees(s.push(x)) == Self::trees(s).push(x.tree()),
    {
        reveal(CaseInsideItem::trees);
        assert forall|i: int| 0 <= i < s.len() + 1 implies #[trigger] Self::trees(s.push(x))[i]
            == Self::trees(s).push(x.tree())[i] by {
            assert(s.push(x)[i].tree() == if i < s.len() { s[i].tree() } else { x.tree() });
        }
        assert(Self::trees(s.push(x)) =~= Self::trees(s).push(x.tree()));
    }

    /// The empty list has no trees.
    pub proof fn lemma_trees_empty()
        ensures
            Self::trees(Seq::empty()) == Seq::<Tree>::empty(),
    {
        reveal(CaseInsideItem::trees);
        assert(Self::trees(Seq::empty()) =~= Seq::<Tree>::empty());
    }

    /// Appends the leaf spans of the node to `out`, in source order.
    pub fn leaf_spans(&self, out: &mut Vec<Span>)
        ensures
            final(out)@ == leaves_after(old(out)@, self.tree()),
        decreases self,
    {
        match self {
            CaseInsideItem::NonDefault(x) => {
                x.leaf_spans(out);
            },
            CaseInsideItem::Default(x) => {
                x.leaf_spans(out);
            },
        }
    }

    /// Appends the leaf spans of a list of nodes to `out`, in source order.
    pub fn leaf_spans_of_all(v: &Vec<CaseInsideItem>, out: &mut Vec<Span>)
        ensures
            final(out)@ == leaves_after(old(out)@, Tree::Repeat(CaseInsideItem::trees(v@))),
        decreases v,
    {
        let mut i: usize = 0;
        proof {
            CaseInsideItem::lemma_trees_empty();
            assert(v@.take(0) =~= Seq::empty());
        }
        while i < v.len()
            invariant
                i <= v@.len(),
                out@ == leaves_after(
                    old(out)@,
                    Tree::Repeat(CaseInsideItem::trees(v@.take(i as int))),
                ),
            decreases v@.len() - i,
        {
            v[i].leaf_spans(out);
            proof {
                CaseInsideItem::lemma_trees_push(v@.take(i as int), v@[i as int]);
                assert(v@.take(i as int).push(v@[i as int]) =~= v@.take(i + 1));
            }
            i = i + 1;
        }
        proof {
            assert(v@.take(v@.len() as int) =~= v@);
        }
    }
}

impl CaseItemExpression {
    /// The tree of the node: the sequence of the trees of its parts.
    #[verifier::opaque]
    pub open spec fn tree(&self) -> Tree {
        Tree::Sequence(
            Seq::empty()
                .push(self.nodes.0.tree()),
        )
    }

    /// Appends the leaf spans of the node to `out`, in source order.
    pub fn leaf_spans(&self, out: &mut Vec<Span>)
        ensures
            final(out)@ == leaves_after(old(out)@, self.tree()),
    {
        proof {
            reveal(CaseItemExpression::tree);
        }
        self.nodes.0.leaf_spans(out);
    }
}

impl RandcaseStatement {
    /// The tree of the node: the sequence of the trees of its parts.
    pub open spec fn tree(&self) -> Tree
        decreases self,
    {
        Tree::Sequence(
            Seq::empty()
                .push(self.nodes.0.tree())
                .push(self.nodes.1.tree())
                .push(Tree::Repeat(RandcaseItem::trees(self.nodes.2@)))
                .push(self.nodes.3.tree()),
        )
    }

    /// Appends the leaf spans of the node to `out`, in source order.
    pub fn leaf_spans(&self, out: &mut Vec<Span>)
        ensures
            final(out)@ == leaves_after(old(out)@, self.tree()),
        decreases self,
    {
        self.nodes.0.leaf_spans(out);
        self.nodes.1.leaf_spans(out);
        RandcaseItem::leaf_spans_of_all(&self.nodes.2, out);
        self.nodes.3.leaf_spans(out);
    }
}

impl RandcaseItem {
    /// The tree of the node: the sequence of the trees of its parts.
    pub open spec fn tree(&self) -> Tree
        decreases self,
    {
        Tree::Sequence(
            Seq::empty()
                .push(self.nodes.0.tree())
                .push(self.nodes.1.tree())
                .push(self.nodes.2.tree()),
        )
    }

    /// The trees of a list of nodes, in order.
    pub open spec fn trees(s: Seq<RandcaseItem>) -> Seq<Tree>
        decreases s,
    {
        Seq::new(s.len(), |i: int| if 0 <= i < s.len() { s[i].tree() } else { arbitrary() })
    }

    /// The trees of a list that has one more node at its end.
    pub proof fn lemma_trees_push(s: Seq<RandcaseItem>, x: RandcaseItem)
        ensures
            Self::trees(s.push(x)) == Self::trees(s).push(x.tree()),
    {
        reveal(RandcaseItem::trees);
        assert forall|i: int| 0 <= i < s.len() + 1 implies #[trigger] Self::trees(s.push(x))[i]
            == Self::trees(s).push(x.tree())[i] by {
            assert(s.push(x)[i].tree() == if i < s.len() { s[i].tree() } else { x.tree() });
        }
        assert(Self::trees(s.push(x)) =~= Self::trees(s).push(x.tree()));
    }

    /// The empty list has no trees.
    pub proof fn lemma_trees_empty()
        ensures
            Self::trees(Seq::empty()) == Seq::<Tree>::empty(),
    {
        reveal(RandcaseItem::trees);
        assert(Self::trees(Seq::empty()) =~= Seq::<Tree>::empty());
    }

    /// Appends the leaf spans of the node to `out`, in source order.
    pub fn leaf_spans(&self, out: &mut Vec<Span>)
        ensures
            final(out)@ == leaves_after(old(out)@, self.tree()),
        decreases self,
    {
        self.nodes.0.leaf_spans(out);
        self.nodes.1.leaf_spans(out);
        self.nodes.2.leaf_spans(out);
    }

    /// Appends the leaf spans of a list of nodes to `out`, in source order.
    pub fn leaf_spans_of_all(v: &Vec<RandcaseItem>, out: &mut Vec<Span>)
        ensures
            final(out)@ == leaves_after(old(out)@, Tree::Repeat(RandcaseItem::trees(v@))),
        decreases v,
    {
        let mut i: usize = 0;
        proof {
            RandcaseItem::lemma_trees_empty();
            assert(v@.take(0) =~= Seq::empty());
        }
        while i < v.len()
            invariant
                i <= v@.len(),
                out@ == leaves_after(
                    old(out)@,
                    Tree::Repeat(RandcaseItem::trees(v@.take(i as int))),
                ),
            decreases v@.len() - i,
        {
            v[i].leaf_spans(out);
            proof {
                RandcaseItem::lemma_trees_push(v@.take(i as int), v@[i as int]);
                assert(v@.take(i as int).push(v@[i as int]) =~= v@.take(i + 1));
            }
            i = i + 1;
        }
        proof {
            assert(v@.take(v@.len() as int) =~= v@);
        }
    }
}

impl OpenRangeList {
    /// The tree of the node: the sequence of the trees of its parts.
    #[verifier::opaque]
    pub open spec fn tree(&self) -> Tree {
        Tree::Sequence(
            Seq::empty()
                .push(
                    self.nodes.0.tree(
                        self.nodes.0.nodes.0.tree(),
                        open_value_range_tail_trees(self.nodes.0.nodes.1@),
                    ),
                ),
        )
    }

    /// Appends the leaf spans of the node to `out`, in source order.
    pub fn leaf_spans(&self, out: &mut Vec<Span>)
        ensures
            final(out)@ == leaves_after(old(out)@, self.tree()),
    {
        proof {
            reveal(OpenRangeList::tree);
        }
        self.nodes.0.nodes.0.leaf_spans(out);
        open_value_range_tail_leaf_spans(&self.nodes.0.nodes.1, out);
    }
}

impl OpenValueRange {
    /// The tree of the node: the sequence of the trees of its parts.
    #[verifier::opaque]
    pub open spec fn tree(&self) -> Tree {
        Tree::Sequence(
            Seq::empty()
                .push(self.nodes.0.tree()),
        )
    }

    /// Appends the leaf spans of the node to `out`, in source order.
    pub fn leaf_spans(&self, out: &mut Vec<Span>)
        ensures
            final(out)@ == leaves_after(old(out)@, self.tree()),
    {
        proof {
            reveal(OpenValueRange::tree);
        }
        self.nodes.0.leaf_spans(out);
    }
}

/// The trees of a list of such nodes, in order.
#[verifier::opaque]
pub open spec fn case_item_expression_tail_trees(
    s: Seq<(Symbol, CaseItemExpression)>,
) -> Seq<Tree> {
    Seq::new(
        s.len(),
        |i: int| if 0 <= i < s.len() {
            separated(s[i].0.tree(), s[i].1.tree())
        } else {
            arbitrary()
        },
    )
}

/// The trees of a list that has one more node at its end.
pub proof fn lemma_case_item_expression_tail_trees_push(
    s: Seq<(Symbol, CaseItemExpression)>,
    x: (Symbol, CaseItemExpression),
)
    ensures
        case_item_expression_tail_trees(s.push(x)) == case_item_expression_tail_trees(s).push(
            separated(x.0.tree(), x.1.tree()),
        ),
{
    reveal(case_item_expression_tail_trees);
    assert forall|i: int| 0 <= i < s.len() + 1 implies
        #[trigger] case_item_expression_tail_trees(s.push(x))[i]
        == case_item_expression_tail_trees(s).push(separated(x.0.tree(), x.1.tree()))[i] by {
        let y = s.push(x)[i];
        assert(separated(y.0.tree(), y.1.tree()) == if i < s.len() {
            separated(s[i].0.tree(), s[i].1.tree())
        } else {
            separated(x.0.tree(), x.1.tree())
        });
    }
    assert(
        case_item_expression_tail_trees(s.push(x)) =~= case_item_expression_tail_trees(s).push(
            separated(x.0.tree(), x.1.tree()),
        )
    );
}

/// The empty list has no trees.
pub proof fn lemma_case_item_expression_tail_trees_empty()
    ensures
        case_item_expression_tail_trees(Seq::empty()) == Seq::<Tree>::empty(),
{
    reveal(case_item_expression_tail_trees);
    assert(case_item_expression_tail_trees(Seq::empty()) =~= Seq::<Tree>::empty());
}

/// Appends the leaf spans of a list of nodes to `out`, in source order.
pub fn case_item_expression_tail_leaf_spans(
    v: &Vec<(Symbol, CaseItemExpression)>,
    out: &mut Vec<Span>,
)
    ensures
        final(out)@ == leaves_after(old(out)@, Tree::Repeat(case_item_expression_tail_trees(v@))),
{
    let mut i: usize = 0;
    proof {
        lemma_case_item_expression_tail_trees_empty();
        assert(v@.take(0) =~= Seq::empty());
    }
    while i < v.len()
        invariant
            i <= v@.len(),
            out@ == leaves_after(
                old(out)@,
                Tree::Repeat(case_item_expression_tail_trees(v@.take(i as int))),
            ),
        decreases v@.len() - i,
    {
        v[i].0.leaf_spans(out);
        v[i].1.leaf_spans(out);
        proof {
            lemma_case_item_expression_tail_trees_push(v@.take(i as int), v@[i as int]);
            assert(v@.take(i as int).push(v@[i as int]) =~= v@.take(i + 1));
        }
        i = i + 1;
    }
    proof {
        assert(v@.take(v@.len() as int) =~= v@);
    }
}

/// The trees of a list of such nodes, in order.
#[verifier::opaque]
pub open spec fn open_value_range_tail_trees(s: Seq<(Symbol, OpenValueRange)>) -> Seq<Tree> {
    Seq::new(
        s.len(),
        |i: int| if 0 <= i < s.len() {
            separated(s[i].0.tree(), s[i].1.tree())
        } else {
            arbitrary()
        },
    )
}

/// The trees of a list that has one more node at its end.
pub proof fn lemma_open_value_range_tail_trees_push(
    s: Seq<(Symbol, OpenValueRange)>,
    x: (Symbol, OpenValueRange),
)
    ensures
        open_value_range_tail_trees(s.push(x)) == open_value_range_tail_trees(s).push(
            separated(x.0.tree(), x.1.tree()),
        ),
{
    reveal(open_value_range_tail_trees);
    assert forall|i: int| 0 <= i < s.len() + 1 implies
        #[trigger] open_value_range_tail_trees(s.push(x))[i]
        == open_value_range_tail_trees(s).push(separated(x.0.tree(), x.1.tree()))[i] by {
        let y = s.push(x)[i];
        assert(separated(y.0.tree(), y.1.tree()) == if i < s.len() {
            separated(s[i].0.tree(), s[i].1.tree())
        } else {
            separated(x.0.tree(), x.1.tree())
        });
    }
    assert(
        open_value_range_tail_trees(s.push(x)) =~= open_value_range_tail_trees(s).push(
            separated(x.0.tree(), x.1.tree()),
        )
    );
}

/// The empty list has no trees.
pub proof fn lemma_open_value_range_tail_trees_empty()
    ensures
        open_value_range_tail_trees(Seq::empty()) == Seq::<Tree>::empty(),
{
    reveal(open_value_range_tail_trees);
    assert(open_value_range_tail_trees(Seq::empty()) =~= Seq::<Tree>::empty());
}

/// Appends the leaf spans of a list of nodes to `out`, in source order.
pub fn open_value_range_tail_leaf_spans(v: &Vec<(Symbol, OpenValueRange)>, out: &mut Vec<Span>)
    ensures
        final(out)@ == leaves_after(old(out)@, Tree::Repeat(open_value_range_tail_trees(v@))),
{
    let mut i: usize = 0;
    proof {
        lemma_open_value_range_tail_trees_empty();
        assert(v@.take(0) =~= Seq::empty());
    }
    while i < v.len()
        invariant
            i <= v@.len(),
            out@ == leaves_after(
                old(out)@,
                Tree::Repeat(open_value_range_tail_trees(v@.take(i as int))),
            ),
        decreases v@.len() - i,
    {
        v[i].0.leaf_spans(out);
        v[i].1.leaf_spans(out);
        proof {
            lemma_open_value_range_tail_trees_push(v@.take(i as int), v@[i as int]);
            assert(v@.take(i as int).push(v@[i as int]) =~= v@.take(i + 1));
        }
        i = i + 1;
    }
    proof {
        assert(v@.take(v@.len() as int) =~= v@);
    }
}

/// `case_statement_normal ::= [ unique_priority ] case_keyword "(" case_expression ")"
/// case_item { case_item } "endcase"` A case statement needs at least one item: where
/// `endcase` stands in the place of the first item, the failure is `MissingItem`. Once
/// the first item has matched, a failure is committed.
#[verifier::opaque]
pub open spec fn spec_case_statement_normal(inp: Input, pos: int, nest: Nesting) -> Parsed {
    let a = optional(spec_unique_priority(inp, pos), pos);
    let b = spec_case_keyword(inp, rest(a));
    let c0 = spec_symbol(inp, rest(b), "(");
    let c1 = spec_case_expression(inp, rest(c0), nest);
    let c2 = spec_symbol(inp, rest(c1), ")");
    let c = delimited(c0, c1, c2);
    let d = at_least_one(
        spec_case_item(inp, rest(c), nest),
        spec_keyword(inp, rest(c), "endcase"),
        rest(c),
    );
    let e = spec_many_case_item(inp, rest(d), nest);
    let f = cut(spec_keyword(inp, rest(e), "endcase"));
    variant(0, seq6(a, b, c, d, e, f))
}

/// Parses a `case_statement_normal` at `pos`.
#[verifier::rlimit(60)]
pub fn case_statement_normal(ctx: &mut Parser, pos: usize, depth: usize) -> (r: Result<
    (usize, CaseStatement),
    Failure,
>)
    requires
        old(ctx).wf(),
        pos <= old(ctx).input().src.len(),
    ensures
        final(ctx).wf(),
        final(ctx).input() == old(ctx).input(),
        lift(r, |n: CaseStatement| n.tree()) == spec_case_statement_normal(
            old(ctx).input(),
            pos as int,
            nesting(old(ctx).input(), depth as nat),
        ),
        well_spanned(
            spec_case_statement_normal(
                old(ctx).input(),
                pos as int,
                nesting(old(ctx).input(), depth as nat),
            ),
            pos as int,
            old(ctx).input().src.len() as int,
        ),
    decreases depth, 6nat,
{
    proof {
        reveal(spec_case_statement_normal);
    }
    let p = pos;
    let (p, a) = opt(unique_priority(ctx, p), p)?;
    let (p, b) = case_keyword(ctx, p)?;
    let (p, c0) = symbol(ctx, p, "(")?;
    let (p, c1) = case_expression(ctx, p, depth)?;
    let (p, c2) = symbol(ctx, p, ")")?;
    let c = Paren { nodes: (c0, c1, c2) };
    let (p, d) = match case_item(ctx, p, depth) {
        Ok(x) => x,
        Err(e) => {
            if !e.committed && keyword(ctx, p, "endcase").is_ok() {
                return Err(Failure::no_item(p));
            }
            return Err(e);
        },
    };
    let (p, e) = many_case_item(ctx, p, depth)?;
    let (p, f) = commit(keyword(ctx, p, "endcase"))?;
    Ok((p, CaseStatement::Normal(Box::new(CaseStatementNormal { nodes: (a, b, c, d, e, f) }))))
}

/// `case_statement_matches ::= [ unique_priority ] case_keyword "(" case_expression ")"
/// "matches" case_pattern_item { case_pattern_item } "endcase"` A case statement needs
/// at least one item: where `endcase` stands in the place of the first item, the
/// failure is `MissingItem`. Once `matches` has matched, a failure is committed.
#[verifier::opaque]
pub open spec fn spec_case_statement_matches(inp: Input, pos: int, nest: Nesting) -> Parsed {
    let a = optional(spec_unique_priority(inp, pos), pos);
    let b = spec_case_keyword(inp, rest(a));
    let c0 = spec_symbol(inp, rest(b), "(");
    let c1 = spec_case_expression(inp, rest(c0), nest);
    let c2 = spec_symbol(inp, rest(c1), ")");
    let c = delimited(c0, c1, c2);
    let d = spec_keyword(inp, rest(c), "matches");
    let e = cut(
        at_least_one(
            spec_case_pattern_item(inp, rest(d), nest),
            spec_keyword(inp, rest(d), "endcase"),
            rest(d),
        ),
    );
    let f = spec_many_case_pattern_item(inp, rest(e), nest);
    let g = cut(spec_keyword(inp, rest(f), "endcase"));
    variant(1, seq7(a, b, c, d, e, f, g))
}

/// Parses a `case_statement_matches` at `pos`.
#[verifier::rlimit(60)]
pub fn case_statement_matches(ctx: &mut Parser, pos: usize, depth: usize) -> (r: Result<
    (usize, CaseStatement),
    Failure,
>)
    requires
        old(ctx).wf(),
        pos <= old(ctx).input().src.len(),
    ensures
        final(ctx).wf(),
        final(ctx).input() == old(ctx).input(),
        lift(r, |n: CaseStatement| n.tree()) == spec_case_statement_matches(
            old(ctx).input(),
            pos as int,
            nesting(old(ctx).input(), depth as nat),
        ),
        well_spanned(
            spec_case_statement_matches(
                old(ctx).input(),
                pos as int,
                nesting(old(ctx).input(), depth as nat),
            ),
            pos as int,
            old(ctx).input().src.len() as int,
        ),
    decreases depth, 5nat,
{
    proof {
        reveal(spec_case_statement_matches);
    }
    let p = pos;
    let (p, a) = opt(unique_priority(ctx, p), p)?;
    let (p, b) = case_keyword(ctx, p)?;
    let (p, c0) = symbol(ctx, p, "(")?;
    let (p, c1) = case_expression(ctx, p, depth)?;
    let (p, c2) = symbol(ctx, p, ")")?;
    let c = Paren { nodes: (c0, c1, c2) };
    let (p, d) = keyword(ctx, p, "matches")?;
    let (p, e) = match case_pattern_item(ctx, p, depth) {
        Ok(x) => x,
        Err(e) => {
            if !e.committed && keyword(ctx, p, "endcase").is_ok() {
                return Err(Failure::no_item(p));
            }
            return Err(e.commit());
        },
    };
    let (p, f) = many_case_pattern_item(ctx, p, depth)?;
    let (p, g) = commit(keyword(ctx, p, "endcase"))?;
    Ok((p, CaseStatement::Matches(Box::new(CaseStatementMatches { nodes: (a, b, c, d, e, f, g) }))))
}

/// `case_statement_inside ::= [ unique_priority ] "case" "(" case_expression ")"
/// "inside" case_inside_item { case_inside_item } "endcase"` A case statement needs at
/// least one item: where `endcase` stands in the place of the first item, the failure
/// is `MissingItem`. Once `inside` has matched, a failure is committed.
#[verifier::opaque]
pub open spec fn spec_case_statement_inside(inp: Input, pos: int, nest: Nesting) -> Parsed {
    let a = optional(spec_unique_priority(inp, pos), pos);
    let b = spec_keyword(inp, rest(a), "case");
    let c0 = spec_symbol(inp, rest(b), "(");
    let c1 = spec_case_expression(inp, rest(c0), nest);
    let c2 = spec_symbol(inp, rest(c1), ")");
    let c = delimited(c0, c1, c2);
    let d = spec_keyword(inp, rest(c), "inside");
    let e = cut(
        at_least_one(
            spec_case_inside_item(inp, rest(d), nest),
            spec_keyword(inp, rest(d), "endcase"),
            rest(d),
        ),
    );
    let f = spec_many_case_inside_item(inp, rest(e), nest);
    let g = cut(spec_keyword(inp, rest(f), "endcase"));
    variant(2, seq7(a, b, c, d, e, f, g))
}

/// Parses a `case_statement_inside` at `pos`.
#[verifier::rlimit(60)]
pub fn case_statement_inside(ctx: &mut Parser, pos: usize, depth: usize) -> (r: Result<
    (usize, CaseStatement),
    Failure,
>)
    requires
        old(ctx).wf(),
        pos <= old(ctx).input().src.len(),
    ensures
        final(ctx).wf(),
        final(ctx).input() == old(ctx).input(),
        lift(r, |n: CaseStatement| n.tree()) == spec_case_statement_inside(
            old(ctx).input(),
            pos as int,
            nesting(old(ctx).input(), depth as nat),
        ),
        well_spanned(
            spec_case_statement_inside(
                old(ctx).input(),
                pos as int,
                nesting(old(ctx).input(), depth as nat),
            ),
            pos as int,
            old(ctx).input().src.len() as int,
        ),
    decreases depth, 10nat,
{
    proof {
        reveal(spec_case_statement_inside);
    }
    let p = pos;
    let (p, a) = opt(unique_priority(ctx, p), p)?;
    let (p, b) = keyword(ctx, p, "case")?;
    let (p, c0) = symbol(ctx, p, "(")?;
    let (p, c1) = case_expression(ctx, p, depth)?;
    let (p, c2) = symbol(ctx, p, ")")?;
    let c = Paren { nodes: (c0, c1, c2) };
    let (p, d) = keyword(ctx, p, "inside")?;
    let (p, e) = match case_inside_item(ctx, p, depth) {
        Ok(x) => x,
        Err(e) => {
            if !e.committed && keyword(ctx, p, "endcase").is_ok() {
                return Err(Failure::no_item(p));
            }
            return Err(e.commit());
        },
    };
    let (p, f) = many_case_inside_item(ctx, p, depth)?;
    let (p, g) = commit(keyword(ctx, p, "endcase"))?;
    Ok((p, CaseStatement::Inside(Box::new(CaseStatementInside { nodes: (a, b, c, d, e, f, g) }))))
}

/// `case_statement ::= case_statement_normal | case_statement_matches |
/// case_statement_inside`
#[verifier::opaque]
pub open spec fn spec_case_statement(inp: Input, pos: int, nest: Nesting) -> Parsed {
    let r = spec_case_statement_normal(inp, pos, nest);
    let r = or_else(r, spec_case_statement_matches(inp, pos, nest));
    let r = or_else(r, spec_case_statement_inside(inp, pos, nest));
    r
}

/// Parses a `case_statement` at `pos`: the first alternative that matches.
pub fn case_statement(ctx: &mut Parser, pos: usize, depth: usize) -> (r: Result<
    (usize, CaseStatement),
    Failure,
>)
    requires
        old(ctx).wf(),
        pos <= old(ctx).input().src.len(),
    ensures
        final(ctx).wf(),
        final(ctx).input() == old(ctx).input(),
        lift(r, |n: CaseStatement| n.tree()) == spec_case_statement(
            old(ctx).input(),
            pos as int,
            nesting(old(ctx).input(), depth as nat),
        ),
        well_spanned(
            spec_case_statement(
                old(ctx).input(),
                pos as int,
                nesting(old(ctx).input(), depth as nat),
            ),
            pos as int,
            old(ctx).input().src.len() as int,
        ),
    decreases depth, 11nat,
{
    proof {
        reveal(spec_case_statement);
    }
    let e = match case_statement_normal(ctx, pos, depth) {
        Ok(x) => return Ok(x),
        Err(e) => e,
    };
    if e.committed {
        return Err(e);
    }
    let e = match case_statement_matches(ctx, pos, depth) {
        Ok(x) => return Ok(x),
        Err(f) => if f.committed {
            return Err(f);
        } else {
            e.or_deeper(f)
        },
    };
    let e = match case_statement_inside(ctx, pos, depth) {
        Ok(x) => return Ok(x),
        Err(f) => if f.committed {
            return Err(f);
        } else {
            e.or_deeper(f)
        },
    };
    Err(e)
}

/// `case_keyword ::= "casez" | "casex" | "case"`
#[verifier::opaque]
pub open spec fn spec_case_keyword(inp: Input, pos: int) -> Parsed {
    let r = variant(1, spec_keyword(inp, pos, "casez"));
    let r = or_else(r, variant(2, spec_keyword(inp, pos, "casex")));
    let r = or_else(r, variant(0, spec_keyword(inp, pos, "case")));
    r
}

/// Parses a `case_keyword` at `pos`: the first alternative that matches.
pub fn case_keyword(ctx: &Parser, pos: usize) -> (r: Result<(usize, CaseKeyword), Failure>)
    requires
        pos <= ctx.input().src.len(),
    ensures
        lift(r, |n: CaseKeyword| n.tree()) == spec_case_keyword(ctx.input(), pos as int),
        well_spanned(
            spec_case_keyword(ctx.input(), pos as int),
            pos as int,
            ctx.input().src.len() as int,
        ),
{
    proof {
        reveal(spec_case_keyword);
        reveal(CaseKeyword::tree);
    }
    let e = match keyword(ctx, pos, "casez") {
        Ok((p, x)) => return Ok((p, CaseKeyword::Casez(Box::new(x)))),
        Err(e) => e,
    };
    if e.committed {
        return Err(e);
    }
    let e = match keyword(ctx, pos, "casex") {
        Ok((p, x)) => return Ok((p, CaseKeyword::Casex(Box::new(x)))),
        Err(f) => if f.committed {
            return Err(f);
        } else {
            e.or_deeper(f)
        },
    };
    let e = match keyword(ctx, pos, "case") {
        Ok((p, x)) => return Ok((p, CaseKeyword::Case(Box::new(x)))),
        Err(f) => if f.committed {
            return Err(f);
        } else {
            e.or_deeper(f)
        },
    };
    Err(e)
}

/// `case_expression ::= expression`
#[verifier::opaque]
pub open spec fn spec_case_expression(inp: Input, pos: int, nest: Nesting) -> Parsed {
    let a = (nest.expression)(pos);
    seq1(a)
}

/// Parses a `case_expression` at `pos`.
pub fn case_expression(ctx: &mut Parser, pos: usize, depth: usize) -> (r: Result<
    (usize, CaseExpression),
    Failure,
>)
    requires
        old(ctx).wf(),
        pos <= old(ctx).input().src.len(),
    ensures
        final(ctx).wf(),
        final(ctx).input() == old(ctx).input(),
        lift(r, |n: CaseExpression| n.tree()) == spec_case_expression(
            old(ctx).input(),
            pos as int,
            nesting(old(ctx).input(), depth as nat),
        ),
        well_spanned(
            spec_case_expression(
                old(ctx).input(),
                pos as int,
                nesting(old(ctx).input(), depth as nat),
            ),
            pos as int,
            old(ctx).input().src.len() as int,
        ),
{
    proof {
        reveal(spec_case_expression);
        reveal(CaseExpression::tree);
    }
    let p = pos;
    let (p, a) = expression(ctx, p, depth)?;
    Ok((p, CaseExpression { nodes: (a,) }))
}

/// `case_item_nondefault ::= case_item_expression { "," case_item_expression } ":"
/// statement_or_null` Once `:` has matched, a failure is committed.
#[verifier::opaque]
pub open spec fn spec_case_item_nondefault(inp: Input, pos: int, nest: Nesting) -> Parsed {
    let a0 = spec_case_item_expression(inp, pos, nest);
    let a1 = spec_case_item_expression_tail(inp, rest(a0), nest);
    let a = list(a0, a1);
    let b = spec_symbol(inp, rest(a), ":");
    let c = cut((nest.statement_or_null)(rest(b)));
    variant(0, seq3(a, b, c))
}

/// Parses a `case_item_nondefault` at `pos`.
pub fn case_item_nondefault(ctx: &mut Parser, pos: usize, depth: usize) -> (r: Result<
    (usize, CaseItem),
    Failure,
>)
    requires
        old(ctx).wf(),
        pos <= old(ctx).input().src.len(),
    ensures
        final(ctx).wf(),
        final(ctx).input() == old(ctx).input(),
        lift(r, |n: CaseItem| n.tree()) == spec_case_item_nondefault(
            old(ctx).input(),
            pos as int,
            nesting(old(ctx).input(), depth as nat),
        ),
        well_spanned(
            spec_case_item_nondefault(
                old(ctx).input(),
                pos as int,
                nesting(old(ctx).input(), depth as nat),
            ),
            pos as int,
            old(ctx).input().src.len() as int,
        ),
    decreases depth, 3nat,
{
    proof {
        reveal(spec_case_item_nondefault);
    }
    let p = pos;
    let (p, a0) = case_item_expression(ctx, p, depth)?;
    let (p, a1) = case_item_expression_tail(ctx, p, depth)?;
    let a = List { nodes: (a0, a1) };
    let (p, b) = symbol(ctx, p, ":")?;
    let (p, c) = commit(statement_or_null(ctx, p, depth))?;
    Ok((p, CaseItem::NonDefault(Box::new(CaseItemNondefault { nodes: (a, b, c) }))))
}

/// `case_item_default ::= "default" [ ":" ] statement_or_null` Once `default` has
/// matched, a failure is committed.
#[verifier::opaque]
pub open spec fn spec_case_item_default(inp: Input, pos: int, nest: Nesting) -> Parsed {
    let a = spec_keyword(inp, pos, "default");
    let b = optional(spec_symbol(inp, rest(a), ":"), rest(a));
    let c = cut((nest.statement_or_null)(rest(b)));
    seq3(a, b, c)
}

/// Parses a `case_item_default` at `pos`.
pub fn case_item_default(ctx: &mut Parser, pos: usize, depth: usize) -> (r: Result<
    (usize, CaseItemDefault),
    Failure,
>)
    requires
        old(ctx).wf(),
        pos <= old(ctx).input().src.len(),
    ensures
        final(ctx).wf(),
        final(ctx).input() == old(ctx).input(),
        lift(r, |n: CaseItemDefault| n.tree()) == spec_case_item_default(
            old(ctx).input(),
            pos as int,
            nesting(old(ctx).input(), depth as nat),
        ),
        well_spanned(
            spec_case_item_default(
                old(ctx).input(),
                pos as int,
                nesting(old(ctx).input(), depth as nat),
            ),
            pos as int,
            old(ctx).input().src.len() as int,
        ),
    decreases depth, 1nat,
{
    proof {
        reveal(spec_case_item_default);
    }
    let p = pos;
    let (p, a) = keyword(ctx, p, "default")?;
    let (p, b) = opt(symbol(ctx, p, ":"), p)?;
    let (p, c) = commit(statement_or_null(ctx, p, depth))?;
    Ok((p, CaseItemDefault { nodes: (a, b, c) }))
}

/// `case_item ::= case_item_nondefault | case_item_default`
#[verifier::opaque]
pub open spec fn spec_case_item(inp: Input, pos: int, nest: Nesting) -> Parsed {
    let r = spec_case_item_nondefault(inp, pos, nest);
    let r = or_else(r, variant(1, spec_case_item_default(inp, pos, nest)));
    r
}

/// Parses a `case_item` at `pos`: the first alternative that matches.
pub fn case_item(ctx: &mut Parser, pos: usize, depth: usize) -> (r: Result<
    (usize, CaseItem),
    Failure,
>)
    requires
        old(ctx).wf(),
        pos <= old(ctx).input().src.len(),
    ensures
        final(ctx).wf(),
        final(ctx).input() == old(ctx).input(),
        lift(r, |n: CaseItem| n.tree()) == spec_case_item(
            old(ctx).input(),
            pos as int,
            nesting(old(ctx).input(), depth as nat),
        ),
        well_spanned(
            spec_case_item(old(ctx).input(), pos as int, nesting(old(ctx).input(), depth as nat)),
            pos as int,
            old(ctx).input().src.len() as int,
        ),
    decreases depth, 4nat,
{
    proof {
        reveal(spec_case_item);
    }
    let e = match case_item_nondefault(ctx, pos, depth) {
        Ok(x) => return Ok(x),
        Err(e) => e,
    };
    if e.committed {
        return Err(e);
    }
    let e = match case_item_default(ctx, pos, depth) {
        Ok((p, x)) => return Ok((p, CaseItem::Default(Box::new(x)))),
        Err(f) => if f.committed {
            return Err(f);
        } else {
            e.or_deeper(f)
        },
    };
    Err(e)
}

/// `pattern_guard ::= "&&&" expression`
#[verifier::opaque]
pub open spec fn spec_pattern_guard(inp: Input, pos: int, nest: Nesting) -> Parsed {
    let a = spec_symbol(inp, pos, "&&&");
    let b = (nest.expression)(rest(a));
    seq2(a, b)
}

/// Parses a `pattern_guard` at `pos`.
pub fn pattern_guard(ctx: &mut Parser, pos: usize, depth: usize) -> (r: Result<
    (usize, AssignedValue),
    Failure,
>)
    requires
        old(ctx).wf(),
        pos <= old(ctx).input().src.len(),
    ensures
        final(ctx).wf(),
        final(ctx).input() == old(ctx).input(),
        lift(r, |n: AssignedValue| assigned_value_tree(n)) == spec_pattern_guard(
            old(ctx).input(),
            pos as int,
            nesting(old(ctx).input(), depth as nat),
        ),
        well_spanned(
            spec_pattern_guard(
                old(ctx).input(),
                pos as int,
                nesting(old(ctx).input(), depth as nat),
            ),
            pos as int,
            old(ctx).input().src.len() as int,
        ),
{
    proof {
        reveal(spec_pattern_guard);
    }
    let p = pos;
    let (p, a) = symbol(ctx, p, "&&&")?;
    let (p, b) = expression(ctx, p, depth)?;
    Ok((p, (a, b)))
}

/// `case_pattern_item_nondefault ::= pattern [ pattern_guard ] ":" statement_or_null`
/// Once `:` has matched, a failure is committed.
#[verifier::opaque]
pub open spec fn spec_case_pattern_item_nondefault(inp: Input, pos: int, nest: Nesting) -> Parsed {
    let a = (nest.pattern)(pos);
    let b = optional(spec_pattern_guard(inp, rest(a), nest), rest(a));
    let c = spec_symbol(inp, rest(b), ":");
    let d = cut((nest.statement_or_null)(rest(c)));
    variant(0, seq4(a, b, c, d))
}

/// Parses a `case_pattern_item_nondefault` at `pos`.
pub fn case_pattern_item_nondefault(ctx: &mut Parser, pos: usize, depth: usize) -> (r: Result<
    (usize, CasePatternItem),
    Failure,
>)
    requires
        old(ctx).wf(),
        pos <= old(ctx).input().src.len(),
    ensures
        final(ctx).wf(),
        final(ctx).input() == old(ctx).input(),
        lift(r, |n: CasePatternItem| n.tree()) == spec_case_pattern_item_nondefault(
            old(ctx).input(),
            pos as int,
            nesting(old(ctx).input(), depth as nat),
        ),
        well_spanned(
            spec_case_pattern_item_nondefault(
                old(ctx).input(),
                pos as int,
                nesting(old(ctx).input(), depth as nat),
            ),
            pos as int,
            old(ctx).input().src.len() as int,
        ),
    decreases depth, 2nat,
{
    proof {
        reveal(spec_case_pattern_item_nondefault);
    }
    let p = pos;
    let (p, a) = pattern(ctx, p, depth)?;
    let (p, b) = opt(pattern_guard(ctx, p, depth), p)?;
    let (p, c) = symbol(ctx, p, ":")?;
    let (p, d) = commit(statement_or_null(ctx, p, depth))?;
    Ok(
        (
            p,
            CasePatternItem::NonDefault(
                Box::new(CasePatternItemNondefault { nodes: (a, b, c, d) }),
            ),
        ),
    )
}

/// `case_pattern_item ::= case_pattern_item_nondefault | case_item_default`
#[verifier::opaque]
pub open spec fn spec_case_pattern_item(inp: Input, pos: int, nest: Nesting) -> Parsed {
    let r = spec_case_pattern_item_nondefault(inp, pos, nest);
    let r = or_else(r, variant(1, spec_case_item_default(inp, pos, nest)));
    r
}

/// Parses a `case_pattern_item` at `pos`: the first alternative that matches.
pub fn case_pattern_item(ctx: &mut Parser, pos: usize, depth: usize) -> (r: Result<
    (usize, CasePatternItem),
    Failure,
>)
    requires
        old(ctx).wf(),
        pos <= old(ctx).input().src.len(),
    ensures
        final(ctx).wf(),
        final(ctx).input() == old(ctx).input(),
        lift(r, |n: CasePatternItem| n.tree()) == spec_case_pattern_item(
            old(ctx).input(),
            pos as int,
            nesting(old(ctx).input(), depth as nat),
        ),
        well_spanned(
            spec_case_pattern_item(
                old(ctx).input(),
                pos as int,
                nesting(old(ctx).input(), depth as nat),
            ),
            pos as int,
            old(ctx).input().src.len() as int,
        ),
    decreases depth, 3nat,
{
    proof {
        reveal(spec_case_pattern_item);
    }
    let e = match case_pattern_item_nondefault(ctx, pos, depth) {
        Ok(x) => return Ok(x),
        Err(e) => e,
    };
    if e.committed {
        return Err(e);
    }
    let e = match case_item_default(ctx, pos, depth) {
        Ok((p, x)) => return Ok((p, CasePatternItem::Default(Box::new(x)))),
        Err(f) => if f.committed {
            return Err(f);
        } else {
            e.or_deeper(f)
        },
    };
    Err(e)
}

/// `case_inside_item_nondefault ::= open_range_list ":" statement_or_null` Once `:` has
/// matched, a failure is committed.
#[verifier::opaque]
pub open spec fn spec_case_inside_item_nondefault(inp: Input, pos: int, nest: Nesting) -> Parsed {
    let a = spec_open_range_list(inp, pos, nest);
    let b = spec_symbol(inp, rest(a), ":");
    let c = cut((nest.statement_or_null)(rest(b)));
    variant(0, seq3(a, b, c))
}

/// Parses a `case_inside_item_nondefault` at `pos`.
pub fn case_inside_item_nondefault(ctx: &mut Parser, pos: usize, depth: usize) -> (r: Result<
    (usize, CaseInsideItem),
    Failure,
>)
    requires
        old(ctx).wf(),
        pos <= old(ctx).input().src.len(),
    ensures
        final(ctx).wf(),
        final(ctx).input() == old(ctx).input(),
        lift(r, |n: CaseInsideItem| n.tree()) == spec_case_inside_item_nondefault(
            old(ctx).input(),
            pos as int,
            nesting(old(ctx).input(), depth as nat),
        ),
        well_spanned(
            spec_case_inside_item_nondefault(
                old(ctx).input(),
                pos as int,
                nesting(old(ctx).input(), depth as nat),
            ),
            pos as int,
            old(ctx).input().src.len() as int,
        ),
    decreases depth, 7nat,
{
    proof {
        reveal(spec_case_inside_item_nondefault);
    }
    let p = pos;
    let (p, a) = open_range_list(ctx, p, depth)?;
    let (p, b) = symbol(ctx, p, ":")?;
    let (p, c) = commit(statement_or_null(ctx, p, depth))?;
    Ok((p, CaseInsideItem::NonDefault(Box::new(CaseInsideItemNondefault { nodes: (a, b, c) }))))
}

/// `case_inside_item ::= case_inside_item_nondefault | case_item_default`
#[verifier::opaque]
pub open spec fn spec_case_inside_item(inp: Input, pos: int, nest: Nesting) -> Parsed {
    let r = spec_case_inside_item_nondefault(inp, pos, nest);
    let r = or_else(r, variant(1, spec_case_item_default(inp, pos, nest)));
    r
}

/// Parses a `case_inside_item` at `pos`: the first alternative that matches.
pub fn case_inside_item(ctx: &mut Parser, pos: usize, depth: usize) -> (r: Result<
    (usize, CaseInsideItem),
    Failure,
>)
    requires
        old(ctx).wf(),
        pos <= old(ctx).input().src.len(),
    ensures
        final(ctx).wf(),
        final(ctx).input() == old(ctx).input(),
        lift(r, |n: CaseInsideItem| n.tree()) == spec_case_inside_item(
            old(ctx).input(),
            pos as int,
            nesting(old(ctx).input(), depth as nat),
        ),
        well_spanned(
            spec_case_inside_item(
                old(ctx).input(),
                pos as int,
                nesting(old(ctx).input(), depth as nat),
            ),
            pos as int,
            old(ctx).input().src.len() as int,
        ),
    decreases depth, 8nat,
{
    proof {
        reveal(spec_case_inside_item);
    }
    let e = match case_inside_item_nondefault(ctx, pos, depth) {
        Ok(x) => return Ok(x),
        Err(e) => e,
    };
    if e.committed {
        return Err(e);
    }
    let e = match case_item_default(ctx, pos, depth) {
        Ok((p, x)) => return Ok((p, CaseInsideItem::Default(Box::new(x)))),
        Err(f) => if f.committed {
            return Err(f);
        } else {
            e.or_deeper(f)
        },
    };
    Err(e)
}

/// `case_item_expression ::= expression`
#[verifier::opaque]
pub open spec fn spec_case_item_expression(inp: Input, pos: int, nest: Nesting) -> Parsed {
    let a = (nest.expression)(pos);
    seq1(a)
}

/// Parses a `case_item_expression` at `pos`.
pub fn case_item_expression(ctx: &mut Parser, pos: usize, depth: usize) -> (r: Result<
    (usize, CaseItemExpression),
    Failure,
>)
    requires
        old(ctx).wf(),
        pos <= old(ctx).input().src.len(),
    ensures
        final(ctx).wf(),
        final(ctx).input() == old(ctx).input(),
        lift(r, |n: CaseItemExpression| n.tree()) == spec_case_item_expression(
            old(ctx).input(),
            pos as int,
            nesting(old(ctx).input(), depth as nat),
        ),
        well_spanned(
            spec_case_item_expression(
                old(ctx).input(),
                pos as int,
                nesting(old(ctx).input(), depth as nat),
            ),
            pos as int,
            old(ctx).input().src.len() as int,
        ),
{
    proof {
        reveal(spec_case_item_expression);
        reveal(CaseItemExpression::tree);
    }
    let p = pos;
    let (p, a) = expression(ctx, p, depth)?;
    Ok((p, CaseItemExpression { nodes: (a,) }))
}

/// `randcase_statement ::= "randcase" randcase_item { randcase_item } "endcase"` A
/// randcase statement needs at least one item: where `endcase` stands in the place of
/// the first item, the failure is `MissingItem`. Once `randcase` has matched, a failure
/// is committed.
#[verifier::opaque]
pub open spec fn spec_randcase_statement(inp: Input, pos: int, nest: Nesting) -> Parsed {
    let a = spec_keyword(inp, pos, "randcase");
    let b = cut(
        at_least_one(
            spec_randcase_item(inp, rest(a), nest),
            spec_keyword(inp, rest(a), "endcase"),
            rest(a),
        ),
    );
    let c = spec_many_randcase_item(inp, rest(b), nest);
    let d = cut(spec_keyword(inp, rest(c), "endcase"));
    seq4(a, b, c, d)
}

/// Parses a `randcase_statement` at `pos`.
pub fn randcase_statement(ctx: &mut Parser, pos: usize, depth: usize) -> (r: Result<
    (usize, RandcaseStatement),
    Failure,
>)
    requires
        old(ctx).wf(),
        pos <= old(ctx).input().src.len(),
    ensures
        final(ctx).wf(),
        final(ctx).input() == old(ctx).input(),
        lift(r, |n: RandcaseStatement| n.tree()) == spec_randcase_statement(
            old(ctx).input(),
            pos as int,
            nesting(old(ctx).input(), depth as nat),
        ),
        well_spanned(
            spec_randcase_statement(
                old(ctx).input(),
                pos as int,
                nesting(old(ctx).input(), depth as nat),
            ),
            pos as int,
            old(ctx).input().src.len() as int,
        ),
    decreases depth, 3nat,
{
    proof {
        reveal(spec_randcase_statement);
    }
    let p = pos;
    let (p, a) = keyword(ctx, p, "randcase")?;
    let (p, b) = match randcase_item(ctx, p, depth) {
        Ok(x) => x,
        Err(e) => {
            if !e.committed && keyword(ctx, p, "endcase").is_ok() {
                return Err(Failure::no_item(p));
            }
            return Err(e.commit());
        },
    };
    let (p, c) = many_randcase_item(ctx, p, depth)?;
    let (p, d) = commit(keyword(ctx, p, "endcase"))?;
    Ok((p, RandcaseStatement { nodes: (a, b, c, d) }))
}

/// `randcase_item ::= expression ":" statement_or_null` Once `:` has matched, a failure
/// is committed.
#[verifier::opaque]
pub open spec fn spec_randcase_item(inp: Input, pos: int, nest: Nesting) -> Parsed {
    let a = (nest.expression)(pos);
    let b = spec_symbol(inp, rest(a), ":");
    let c = cut((nest.statement_or_null)(rest(b)));
    seq3(a, b, c)
}

/// Parses a `randcase_item` at `pos`.
pub fn randcase_item(ctx: &mut Parser, pos: usize, depth: usize) -> (r: Result<
    (usize, RandcaseItem),
    Failure,
>)
    requires
        old(ctx).wf(),
        pos <= old(ctx).input().src.len(),
    ensures
        final(ctx).wf(),
        final(ctx).input() == old(ctx).input(),
        lift(r, |n: RandcaseItem| n.tree()) == spec_randcase_item(
            old(ctx).input(),
            pos as int,
            nesting(old(ctx).input(), depth as nat),
        ),
        well_spanned(
            spec_randcase_item(
                old(ctx).input(),
                pos as int,
                nesting(old(ctx).input(), depth as nat),
            ),
            pos as int,
            old(ctx).input().src.len() as int,
        ),
    decreases depth, 1nat,
{
    proof {
        reveal(spec_randcase_item);
    }
    let p = pos;
    let (p, a) = expression(ctx, p, depth)?;
    let (p, b) = symbol(ctx, p, ":")?;
    let (p, c) = commit(statement_or_null(ctx, p, depth))?;
    Ok((p, RandcaseItem { nodes: (a, b, c) }))
}

/// `open_range_list ::= open_value_range { "," open_value_range }`
#[verifier::opaque]
pub open spec fn spec_open_range_list(inp: Input, pos: int, nest: Nesting) -> Parsed {
    let a0 = spec_open_value_range(inp, pos, nest);
    let a1 = spec_open_value_range_tail(inp, rest(a0), nest);
    let a = list(a0, a1);
    seq1(a)
}

/// Parses a `open_range_list` at `pos`.
pub fn open_range_list(ctx: &mut Parser, pos: usize, depth: usize) -> (r: Result<
    (usize, OpenRangeList),
    Failure,
>)
    requires
        old(ctx).wf(),
        pos <= old(ctx).input().src.len(),
    ensures
        final(ctx).wf(),
        final(ctx).input() == old(ctx).input(),
        lift(r, |n: OpenRangeList| n.tree()) == spec_open_range_list(
            old(ctx).input(),
            pos as int,
            nesting(old(ctx).input(), depth as nat),
        ),
        well_spanned(
            spec_open_range_list(
                old(ctx).input(),
                pos as int,
                nesting(old(ctx).input(), depth as nat),
            ),
            pos as int,
            old(ctx).input().src.len() as int,
        ),
{
    proof {
        reveal(spec_open_range_list);
        reveal(OpenRangeList::tree);
    }
    let p = pos;
    let (p, a0) = open_value_range(ctx, p, depth)?;
    let (p, a1) = open_value_range_tail(ctx, p, depth)?;
    let a = List { nodes: (a0, a1) };
    Ok((p, OpenRangeList { nodes: (a,) }))
}

/// `open_value_range ::= value_range`
#[verifier::opaque]
pub open spec fn spec_open_value_range(inp: Input, pos: int, nest: Nesting) -> Parsed {
    let a = spec_value_range(inp, pos, nest);
    seq1(a)
}

/// Parses a `open_value_range` at `pos`.
pub fn open_value_range(ctx: &mut Parser, pos: usize, depth: usize) -> (r: Result<
    (usize, OpenValueRange),
    Failure,
>)
    requires
        old(ctx).wf(),
        pos <= old(ctx).input().src.len(),
    ensures
        final(ctx).wf(),
        final(ctx).input() == old(ctx).input(),
        lift(r, |n: OpenValueRange| n.tree()) == spec_open_value_range(
            old(ctx).input(),
            pos as int,
            nesting(old(ctx).input(), depth as nat),
        ),
        well_spanned(
            spec_open_value_range(
                old(ctx).input(),
                pos as int,
                nesting(old(ctx).input(), depth as nat),
            ),
            pos as int,
            old(ctx).input().src.len() as int,
        ),
{
    proof {
        reveal(spec_open_value_range);
        reveal(OpenValueRange::tree);
    }
    let p = pos;
    let (p, a) = value_range(ctx, p, depth)?;
    Ok((p, OpenValueRange { nodes: (a,) }))
}

/// `many_case_item ::= { case_item }` Stops before the first item that does not match,
/// or that matches nothing.
#[verifier::opaque]
pub open spec fn spec_many_case_item(inp: Input, pos: int, nest: Nesting) -> Parsed
    decreases inp.src.len() - pos,
{
    match spec_case_item(inp, pos, nest) {
        Ok((p, t)) => if pos < p <= inp.src.len() {
            prepend(t, spec_many_case_item(inp, p, nest))
        } else {
            no_more(pos)
        },
        Err(e) => if e.committed {
            Err(e)
        } else {
            no_more(pos)
        },
    }
}

/// Parses as many items as match at `pos`, one after the other: `{ case_item }`.
pub fn many_case_item(ctx: &mut Parser, pos: usize, depth: usize) -> (r: Result<
    (usize, Vec<CaseItem>),
    Failure,
>)
    requires
        old(ctx).wf(),
        pos <= old(ctx).input().src.len(),
    ensures
        final(ctx).wf(),
        final(ctx).input() == old(ctx).input(),
        lift(r, |n: Vec<CaseItem>| Tree::Repeat(CaseItem::trees(n@))) == spec_many_case_item(
            old(ctx).input(),
            pos as int,
            nesting(old(ctx).input(), depth as nat),
        ),
        well_spanned(
            spec_many_case_item(
                old(ctx).input(),
                pos as int,
                nesting(old(ctx).input(), depth as nat),
            ),
            pos as int,
            old(ctx).input().src.len() as int,
        ),
    decreases depth, 5nat,
{
    proof {
        reveal(spec_many_case_item);
    }
    let ghost inp = ctx.input();
    let mut items: Vec<CaseItem> = Vec::new();
    let mut cur: usize = pos;
    proof {
        lemma_append_empty(spec_many_case_item(inp, pos as int, nesting(inp, depth as nat)));
        CaseItem::lemma_trees_empty();
    }
    loop
        invariant
            ctx.wf(),
            ctx.input() == inp,
            inp == old(ctx).input(),
            pos <= cur <= inp.src.len(),
            spec_many_case_item(inp, pos as int, nesting(inp, depth as nat)) == append(
                CaseItem::trees(items@),
                spec_many_case_item(inp, cur as int, nesting(inp, depth as nat)),
            ),
            tiled(Tree::Repeat(CaseItem::trees(items@)), pos as int),
            cur == pos + width(Tree::Repeat(CaseItem::trees(items@))),
        decreases inp.src.len() - cur,
    {
        proof {
            reveal(spec_many_case_item);
        }
        let (p, x) = match case_item(ctx, cur, depth) {
            Ok(found) => found,
            Err(e) => {
                if e.committed {
                    return Err(e);
                }
                proof {
                    lemma_append_no_more(CaseItem::trees(items@), cur as int);
                }
                return Ok((cur, items));
            },
        };
        if p <= cur {
            proof {
                lemma_append_no_more(CaseItem::trees(items@), cur as int);
            }
            return Ok((cur, items));
        }
        proof {
            lemma_append_prepend(
                CaseItem::trees(items@),
                x.tree(),
                spec_many_case_item(inp, p as int, nesting(inp, depth as nat)),
            );
            CaseItem::lemma_trees_push(items@, x);
        }
        items.push(x);
        cur = p;
    }
}

/// `many_case_pattern_item ::= { case_pattern_item }` Stops before the first item that
/// does not match, or that matches nothing.
#[verifier::opaque]
pub open spec fn spec_many_case_pattern_item(inp: Input, pos: int, nest: Nesting) -> Parsed
    decreases inp.src.len() - pos,
{
    match spec_case_pattern_item(inp, pos, nest) {
        Ok((p, t)) => if pos < p <= inp.src.len() {
            prepend(t, spec_many_case_pattern_item(inp, p, nest))
        } else {
            no_more(pos)
        },
        Err(e) => if e.committed {
            Err(e)
        } else {
            no_more(pos)
        },
    }
}

/// Parses as many items as match at `pos`, one after the other: `{ case_pattern_item
/// }`.
pub fn many_case_pattern_item(ctx: &mut Parser, pos: usize, depth: usize) -> (r: Result<
    (usize, Vec<CasePatternItem>),
    Failure,
>)
    requires
        old(ctx).wf(),
        pos <= old(ctx).input().src.len(),
    ensures
        final(ctx).wf(),
        final(ctx).input() == old(ctx).input(),
        lift(r, |n: Vec<CasePatternItem>| Tree::Repeat(CasePatternItem::trees(n@)))
            == spec_many_case_pattern_item(
                old(ctx).input(),
                pos as int,
                nesting(old(ctx).input(), depth as nat),
            ),
        well_spanned(
            spec_many_case_pattern_item(
                old(ctx).input(),
                pos as int,
                nesting(old(ctx).input(), depth as nat),
            ),
            pos as int,
            old(ctx).input().src.len() as int,
        ),
    decreases depth, 4nat,
{
    proof {
        reveal(spec_many_case_pattern_item);
    }
    let ghost inp = ctx.input();
    let mut items: Vec<CasePatternItem> = Vec::new();
    let mut cur: usize = pos;
    proof {
        lemma_append_empty(
            spec_many_case_pattern_item(inp, pos as int, nesting(inp, depth as nat)),
        );
        CasePatternItem::lemma_trees_empty();
    }
    loop
        invariant
            ctx.wf(),
            ctx.input() == inp,
            inp == old(ctx).input(),
            pos <= cur <= inp.src.len(),
            spec_many_case_pattern_item(inp, pos as int, nesting(inp, depth as nat)) == append(
                CasePatternItem::trees(items@),
                spec_many_case_pattern_item(inp, cur as int, nesting(inp, depth as nat)),
            ),
            tiled(Tree::Repeat(CasePatternItem::trees(items@)), pos as int),
            cur == pos + width(Tree::Repeat(CasePatternItem::trees(items@))),
        decreases inp.src.len() - cur,
    {
        proof {
            reveal(spec_many_case_pattern_item);
        }
        let (p, x) = match case_pattern_item(ctx, cur, depth) {
            Ok(found) => found,
            Err(e) => {
                if e.committed {
                    return Err(e);
                }
                proof {
                    lemma_append_no_more(CasePatternItem::trees(items@), cur as int);
                }
                return Ok((cur, items));
            },
        };
        if p <= cur {
            proof {
                lemma_append_no_more(CasePatternItem::trees(items@), cur as int);
            }
            return Ok((cur, items));
        }
        proof {
            lemma_append_prepend(
                CasePatternItem::trees(items@),
                x.tree(),
                spec_many_case_pattern_item(inp, p as int, nesting(inp, depth as nat)),
            );
            CasePatternItem::lemma_trees_push(items@, x);
        }
        items.push(x);
        cur = p;
    }
}

/// `many_case_inside_item ::= { case_inside_item }` Stops before the first item that
/// does not match, or that matches nothing.
#[verifier::opaque]
pub open spec fn spec_many_case_inside_item(inp: Input, pos: int, nest: Nesting) -> Parsed
    decreases inp.src.len() - pos,
{
    match spec_case_inside_item(inp, pos, nest) {
        Ok((p, t)) => if pos < p <= inp.src.len() {
            prepend(t, spec_many_case_inside_item(inp, p, nest))
        } else {
            no_more(pos)
        },
        Err(e) => if e.committed {
            Err(e)
        } else {
            no_more(pos)
        },
    }
}

/// Parses as many items as match at `pos`, one after the other: `{ case_inside_item }`.
pub fn many_case_inside_item(ctx: &mut Parser, pos: usize, depth: usize) -> (r: Result<
    (usize, Vec<CaseInsideItem>),
    Failure,
>)
    requires
        old(ctx).wf(),
        pos <= old(ctx).input().src.len(),
    ensures
        final(ctx).wf(),
        final(ctx).input() == old(ctx).input(),
        lift(r, |n: Vec<CaseInsideItem>| Tree::Repeat(CaseInsideItem::trees(n@)))
            == spec_many_case_inside_item(
                old(ctx).input(),
                pos as int,
                nesting(old(ctx).input(), depth as nat),
            ),
        well_spanned(
            spec_many_case_inside_item(
                old(ctx).input(),
                pos as int,
                nesting(old(ctx).input(), depth as nat),
            ),
            pos as int,
            old(ctx).input().src.len() as int,
        ),
    decreases depth, 9nat,
{
    proof {
        reveal(spec_many_case_inside_item);
    }
    let ghost inp = ctx.input();
    let mut items: Vec<CaseInsideItem> = Vec::new();
    let mut cur: usize = pos;
    proof {
        lemma_append_empty(spec_many_case_inside_item(inp, pos as int, nesting(inp, depth as nat)));
        CaseInsideItem::lemma_trees_empty();
    }
    loop
        invariant
            ctx.wf(),
            ctx.input() == inp,
            inp == old(ctx).input(),
            pos <= cur <= inp.src.len(),
            spec_many_case_inside_item(inp, pos as int, nesting(inp, depth as nat)) == append(
                CaseInsideItem::trees(items@),
                spec_many_case_inside_item(inp, cur as int, nesting(inp, depth as nat)),
            ),
            tiled(Tree::Repeat(CaseInsideItem::trees(items@)), pos as int),
            cur == pos + width(Tree::Repeat(CaseInsideItem::trees(items@))),
        decreases inp.src.len() - cur,
    {
        proof {
            reveal(spec_many_case_inside_item);
        }
        let (p, x) = match case_inside_item(ctx, cur, depth) {
            Ok(found) => found,
            Err(e) => {
                if e.committed {
                    return Err(e);
                }
                proof {
                    lemma_append_no_more(CaseInsideItem::trees(items@), cur as int);
                }
                return Ok((cur, items));
            },
        };
        if p <= cur {
            proof {
                lemma_append_no_more(CaseInsideItem::trees(items@), cur as int);
            }
            return Ok((cur, items));
        }
        proof {
            lemma_append_prepend(
                CaseInsideItem::trees(items@),
                x.tree(),
                spec_many_case_inside_item(inp, p as int, nesting(inp, depth as nat)),
            );
            CaseInsideItem::lemma_trees_push(items@, x);
        }
        items.push(x);
        cur = p;
    }
}

/// `case_item_expression_tail ::= { "," case_item_expression }` Stops before the first
/// item that does not match, or that matches nothing.
#[verifier::opaque]
pub open spec fn spec_case_item_expression_tail(inp: Input, pos: int, nest: Nesting) -> Parsed
    decreases inp.src.len() - pos,
{
    let a = spec_symbol(inp, pos, ",");
    let b = spec_case_item_expression(inp, rest(a), nest);
    match seq2(a, b) {
        Ok((p, t)) => if pos < p <= inp.src.len() {
            prepend(t, spec_case_item_expression_tail(inp, p, nest))
        } else {
            no_more(pos)
        },
        Err(e) => if e.committed {
            Err(e)
        } else {
            no_more(pos)
        },
    }
}

/// Parses as many items as match at `pos`, one after the other: `{ ","
/// case_item_expression }`.
pub fn case_item_expression_tail(ctx: &mut Parser, pos: usize, depth: usize) -> (r: Result<
    (usize, Vec<(Symbol, CaseItemExpression)>),
    Failure,
>)
    requires
        old(ctx).wf(),
        pos <= old(ctx).input().src.len(),
    ensures
        final(ctx).wf(),
        final(ctx).input() == old(ctx).input(),
        lift(
            r,
            |n: Vec<(Symbol, CaseItemExpression)>| Tree::Repeat(
                case_item_expression_tail_trees(n@),
            ),
        )
            == spec_case_item_expression_tail(
                old(ctx).input(),
                pos as int,
                nesting(old(ctx).input(), depth as nat),
            ),
        well_spanned(
            spec_case_item_expression_tail(
                old(ctx).input(),
                pos as int,
                nesting(old(ctx).input(), depth as nat),
            ),
            pos as int,
            old(ctx).input().src.len() as int,
        ),
{
    proof {
        reveal(spec_case_item_expression_tail);
    }
    let ghost inp = ctx.input();
    let mut items: Vec<(Symbol, CaseItemExpression)> = Vec::new();
    let mut cur: usize = pos;
    proof {
        lemma_append_empty(
            spec_case_item_expression_tail(inp, pos as int, nesting(inp, depth as nat)),
        );
        lemma_case_item_expression_tail_trees_empty();
    }
    loop
        invariant
            ctx.wf(),
            ctx.input() == inp,
            inp == old(ctx).input(),
            pos <= cur <= inp.src.len(),
            spec_case_item_expression_tail(inp, pos as int, nesting(inp, depth as nat)) == append(
                case_item_expression_tail_trees(items@),
                spec_case_item_expression_tail(inp, cur as int, nesting(inp, depth as nat)),
            ),
            tiled(Tree::Repeat(case_item_expression_tail_trees(items@)), pos as int),
            cur == pos + width(Tree::Repeat(case_item_expression_tail_trees(items@))),
        decreases inp.src.len() - cur,
    {
        proof {
            reveal(spec_case_item_expression_tail);
        }
        let (q, s) = match symbol(ctx, cur, ",") {
            Ok(found) => found,
            Err(e) => {
                if e.committed {
                    return Err(e);
                }
                proof {
                    lemma_append_no_more(case_item_expression_tail_trees(items@), cur as int);
                }
                return Ok((cur, items));
            },
        };
        let (p, y) = match case_item_expression(ctx, q, depth) {
            Ok(found) => found,
            Err(e) => {
                if e.committed {
                    return Err(e);
                }
                proof {
                    lemma_append_no_more(case_item_expression_tail_trees(items@), cur as int);
                }
                return Ok((cur, items));
            },
        };
        let x = (s, y);
        if p <= cur {
            proof {
                lemma_append_no_more(case_item_expression_tail_trees(items@), cur as int);
            }
            return Ok((cur, items));
        }
        proof {
            lemma_append_prepend(
                case_item_expression_tail_trees(items@),
                separated(x.0.tree(), x.1.tree()),
                spec_case_item_expression_tail(inp, p as int, nesting(inp, depth as nat)),
            );
            lemma_case_item_expression_tail_trees_push(items@, x);
        }
        items.push(x);
        cur = p;
    }
}

/// `many_randcase_item ::= { randcase_item }` Stops before the first item that does not
/// match, or that matches nothing.
#[verifier::opaque]
pub open spec fn spec_many_randcase_item(inp: Input, pos: int, nest: Nesting) -> Parsed
    decreases inp.src.len() - pos,
{
    match spec_randcase_item(inp, pos, nest) {
        Ok((p, t)) => if pos < p <= inp.src.len() {
            prepend(t, spec_many_randcase_item(inp, p, nest))
        } else {
            no_more(pos)
        },
        Err(e) => if e.committed {
            Err(e)
        } else {
            no_more(pos)
        },
    }
}

/// Parses as many items as match at `pos`, one after the other: `{ randcase_item }`.
pub fn many_randcase_item(ctx: &mut Parser, pos: usize, depth: usize) -> (r: Result<
    (usize, Vec<RandcaseItem>),
    Failure,
>)
    requires
        old(ctx).wf(),
        pos <= old(ctx).input().src.len(),
    ensures
        final(ctx).wf(),
        final(ctx).input() == old(ctx).input(),
        lift(r, |n: Vec<RandcaseItem>| Tree::Repeat(RandcaseItem::trees(n@)))
            == spec_many_randcase_item(
                old(ctx).input(),
                pos as int,
                nesting(old(ctx).input(), depth as nat),
            ),
        well_spanned(
            spec_many_randcase_item(
                old(ctx).input(),
                pos as int,
                nesting(old(ctx).input(), depth as nat),
            ),
            pos as int,
            old(ctx).input().src.len() as int,
        ),
    decreases depth, 2nat,
{
    proof {
        reveal(spec_many_randcase_item);
    }
    let ghost inp = ctx.input();
    let mut items: Vec<RandcaseItem> = Vec::new();
    let mut cur: usize = pos;
    proof {
        lemma_append_empty(spec_many_randcase_item(inp, pos as int, nesting(inp, depth as nat)));
        RandcaseItem::lemma_trees_empty();
    }
    loop
        invariant
            ctx.wf(),
            ctx.input() == inp,
            inp == old(ctx).input(),
            pos <= cur <= inp.src.len(),
            spec_many_randcase_item(inp, pos as int, nesting(inp, depth as nat)) == append(
                RandcaseItem::trees(items@),
                spec_many_randcase_item(inp, cur as int, nesting(inp, depth as nat)),
            ),
            tiled(Tree::Repeat(RandcaseItem::trees(items@)), pos as int),
            cur == pos + width(Tree::Repeat(RandcaseItem::trees(items@))),
        decreases inp.src.len() - cur,
    {
        proof {
            reveal(spec_many_randcase_item);
        }
        let (p, x) = match randcase_item(ctx, cur, depth) {
            Ok(found) => found,
            Err(e) => {
                if e.committed {
                    return Err(e);
                }
                proof {
                    lemma_append_no_more(RandcaseItem::trees(items@), cur as int);
                }
                return Ok((cur, items));
            },
        };
        if p <= cur {
            proof {
                lemma_append_no_more(RandcaseItem::trees(items@), cur as int);
            }
            return Ok((cur, items));
        }
        proof {
            lemma_append_prepend(
                RandcaseItem::trees(items@),
                x.tree(),
                spec_many_randcase_item(inp, p as int, nesting(inp, depth as nat)),
            );
            RandcaseItem::lemma_trees_push(items@, x);
        }
        items.push(x);
        cur = p;
    }
}

/// `open_value_range_tail ::= { "," open_value_range }` Stops before the first item
/// that does not match, or that matches nothing.
#[verifier::opaque]
pub open spec fn spec_open_value_range_tail(inp: Input, pos: int, nest: Nesting) -> Parsed
    decreases inp.src.len() - pos,
{
    let a = spec_symbol(inp, pos, ",");
    let b = spec_open_value_range(inp, rest(a), nest);
    match seq2(a, b) {
        Ok((p, t)) => if pos < p <= inp.src.len() {
            prepend(t, spec_open_value_range_tail(inp, p, nest))
        } else {
            no_more(pos)
        },
        Err(e) => if e.committed {
            Err(e)
        } else {
            no_more(pos)
        },
    }
}

/// Parses as many items as match at `pos`, one after the other: `{ "," open_value_range
/// }`.
pub fn open_value_range_tail(ctx: &mut Parser, pos: usize, depth: usize) -> (r: Result<
    (usize, Vec<(Symbol, OpenValueRange)>),
    Failure,
>)
    requires
        old(ctx).wf(),
        pos <= old(ctx).input().src.len(),
    ensures
        final(ctx).wf(),
        final(ctx).input() == old(ctx).input(),
        lift(r, |n: Vec<(Symbol, OpenValueRange)>| Tree::Repeat(open_value_range_tail_trees(n@)))
            == spec_open_value_range_tail(
                old(ctx).input(),
                pos as int,
                nesting(old(ctx).input(), depth as nat),
            ),
        well_spanned(
            spec_open_value_range_tail(
                old(ctx).input(),
                pos as int,
                nesting(old(ctx).input(), depth as nat),
            ),
            pos as int,
            old(ctx).input().src.len() as int,
        ),
{
    proof {
        reveal(spec_open_value_range_tail);
    }
    let ghost inp = ctx.input();
    let mut items: Vec<(Symbol, OpenValueRange)> = Vec::new();
    let mut cur: usize = pos;
    proof {
        lemma_append_empty(spec_open_value_range_tail(inp, pos as int, nesting(inp, depth as nat)));
        lemma_open_value_range_tail_trees_empty();
    }
    loop
        invariant
            ctx.wf(),
            ctx.input() == inp,
            inp == old(ctx).input(),
            pos <= cur <= inp.src.len(),
            spec_open_value_range_tail(inp, pos as int, nesting(inp, depth as nat)) == append(
                open_value_range_tail_trees(items@),
                spec_open_value_range_tail(inp, cur as int, nesting(inp, depth as nat)),
            ),
            tiled(Tree::Repeat(open_value_range_tail_trees(items@)), pos as int),
            cur == pos + width(Tree::Repeat(open_value_range_tail_trees(items@))),
        decreases inp.src.len() - cur,
    {
        proof {
            reveal(spec_open_value_range_tail);
        }
        let (q, s) = match symbol(ctx, cur, ",") {
            Ok(found) => found,
            Err(e) => {
                if e.committed {
                    return Err(e);
                }
                proof {
                    lemma_append_no_more(open_value_range_tail_trees(items@), cur as int);
                }
                return Ok((cur, items));
            },
        };
        let (p, y) = match open_value_range(ctx, q, depth) {
            Ok(found) => found,
            Err(e) => {
                if e.committed {
                    return Err(e);
                }
                proof {
                    lemma_append_no_more(open_value_range_tail_trees(items@), cur as int);
                }
                return Ok((cur, items));
            },
        };
        let x = (s, y);
        if p <= cur {
            proof {
                lemma_append_no_more(open_value_range_tail_trees(items@), cur as int);
            }
            return Ok((cur, items));
        }
        proof {
            lemma_append_prepend(
                open_value_range_tail_trees(items@),
                separated(x.0.tree(), x.1.tree()),
                spec_open_value_range_tail(inp, p as int, nesting(inp, depth as nat)),
            );
            lemma_open_value_range_tail_trees_push(items@, x);
        }
        items.push(x);
        cur = p;
    }
}

} // verus!
