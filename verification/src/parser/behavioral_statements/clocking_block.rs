//! Clocking blocks.
use vstd::prelude::*;
use crate::combinator::Parsed;
use crate::combinator::append;
use crate::combinator::commit;
use crate::combinator::cut;
use crate::combinator::delimited;
use crate::combinator::lemma_append_empty;
use crate::combinator::lemma_append_no_more;
use crate::combinator::lemma_append_prepend;
use crate::combinator::lift;
use crate::combinator::list;
use crate::combinator::no_more;
use crate::combinator::opt;
use crate::combinator::optional;
use crate::combinator::or_else;
use crate::combinator::prepend;
use crate::combinator::rest;
use crate::combinator::seq1;
use crate::combinator::seq2;
use crate::combinator::seq3;
use crate::combinator::seq4;
use crate::combinator::seq7;
use crate::combinator::seq8;
use crate::combinator::variant;
use crate::combinator::well_spanned;
use crate::context::Input;
use crate::context::Parser;
use crate::failure::Failure;
use crate::node::List;
use crate::node::Paren;
use crate::node::separated;
use crate::parser::behavioral_statements::timing_control_statements::DelayControl;
use crate::parser::behavioral_statements::timing_control_statements::EdgeIdentifier;
use crate::parser::behavioral_statements::timing_control_statements::EventExpression;
use crate::parser::behavioral_statements::timing_control_statements::delay_control;
use crate::parser::behavioral_statements::timing_control_statements::edge_identifier;
use crate::parser::behavioral_statements::timing_control_statements::event_expression;
use crate::parser::behavioral_statements::timing_control_statements::spec_delay_control;
use crate::parser::behavioral_statements::timing_control_statements::spec_edge_identifier;
use crate::parser::behavioral_statements::timing_control_statements::spec_event_expression;
use crate::parser::declarations::assertion_declarations::AssertionItemDeclaration;
use crate::parser::declarations::assertion_declarations::assertion_item_declaration;
use crate::parser::declarations::assertion_declarations::spec_assertion_item_declaration;
use crate::parser::expressions::expressions::Expression;
use crate::parser::expressions::expressions::assigned_value;
use crate::parser::expressions::expressions::assigned_value_tree;
use crate::parser::expressions::expressions::expression;
use crate::parser::expressions::expressions::spec_assigned_value;
use crate::parser::expressions::primaries::Select;
use crate::parser::expressions::primaries::parenthesized_expression_tree;
use crate::parser::expressions::primaries::select;
use crate::parser::expressions::primaries::spec_select;
use crate::parser::general::attributes::AttributeInstance;
use crate::parser::general::attributes::many_attribute_instance;
use crate::parser::general::attributes::spec_many_attribute_instance;
use crate::parser::general::identifiers::ClockingIdentifier;
use crate::parser::general::identifiers::HierarchicalIdentifier;
use crate::parser::general::identifiers::MemberName;
use crate::parser::general::identifiers::SignalIdentifier;
use crate::parser::general::identifiers::hierarchical_identifier;
use crate::parser::general::identifiers::member_name_tree;
use crate::parser::general::identifiers::spec_hierarchical_identifier;
use crate::parser::nesting::Nesting;
use crate::parser::nesting::nesting;
use crate::span::Span;
use crate::token::Identifier;
use crate::token::IntegralNumber;
use crate::token::Keyword;
use crate::token::Symbol;
use crate::token::identifier;
use crate::token::integral_number;
use crate::token::keyword;
use crate::token::spec_identifier;
use crate::token::spec_integral_number;
use crate::token::spec_keyword;
use crate::token::spec_symbol;
use crate::token::symbol;
use crate::tree::Tree;
use crate::tree::group_layout;
use crate::tree::group_leaves;
use crate::tree::leaves_after;
use crate::tree::tiled;
use crate::tree::width;

verus! {

broadcast use {group_layout, group_leaves};

/// `default ::= "default"`
#[derive(Debug)]
pub struct Default {
    pub nodes: (Keyword,),
}

/// `clocking_declaration_local ::= [ default ] "clocking" [ clocking_identifier ]
/// clocking_event ";" { clocking_item } "endclocking" [ clocking_end_label ]`
#[derive(Debug)]
pub struct ClockingDeclarationLocal {
    pub nodes: (
        Option<Default>,
        Keyword,
        Option<ClockingIdentifier>,
        ClockingEvent,
        Symbol,
        Vec<ClockingItem>,
        Keyword,
        Option<(Symbol, ClockingIdentifier)>,
    ),
}

/// `clocking_declaration_global ::= "global" "clocking" [ clocking_identifier ]
/// clocking_event ";" "endclocking" [ clocking_end_label ]`
#[derive(Debug)]
pub struct ClockingDeclarationGlobal {
    pub nodes: (
        Keyword,
        Keyword,
        Option<ClockingIdentifier>,
        ClockingEvent,
        Symbol,
        Keyword,
        Option<(Symbol, ClockingIdentifier)>,
    ),
}

/// A clocking block, or the global clocking.
#[derive(Debug)]
pub enum ClockingDeclaration {
    Local(ClockingDeclarationLocal),
    Global(ClockingDeclarationGlobal),
}

/// `clocking_event_identifier ::= "@" identifier`
#[derive(Debug)]
pub struct ClockingEventIdentifier {
    pub nodes: (Symbol, Identifier),
}

/// `clocking_event_expression ::= "@" "(" event_expression ")"`
#[derive(Debug)]
pub struct ClockingEventExpression {
    pub nodes: (Symbol, Paren<EventExpression>),
}

/// The event that clocks the block.
#[derive(Debug)]
pub enum ClockingEvent {
    Identifier(ClockingEventIdentifier),
    Expression(ClockingEventExpression),
}

/// `clocking_item_default ::= "default" default_skew ";"`
#[derive(Debug)]
pub struct ClockingItemDefault {
    pub nodes: (Keyword, DefaultSkew, Symbol),
}

/// `clocking_item_direction ::= clocking_direction list_of_clocking_decl_assign ";"`
#[derive(Debug)]
pub struct ClockingItemDirection {
    pub nodes: (ClockingDirection, ListOfClockingDeclAssign, Symbol),
}

/// `clocking_item_assertion ::= { attribute_instance } assertion_item_declaration`
#[derive(Debug)]
pub struct ClockingItemAssertion {
    pub nodes: (Vec<AttributeInstance>, AssertionItemDeclaration),
}

/// An item of a clocking block.
#[derive(Debug)]
pub enum ClockingItem {
    Default(ClockingItemDefault),
    Direction(ClockingItemDirection),
    Assertion(ClockingItemAssertion),
}

/// `default_skew_input ::= "input" clocking_skew`
#[derive(Debug)]
pub struct DefaultSkewInput {
    pub nodes: (Keyword, ClockingSkew),
}

/// `default_skew_output ::= "output" clocking_skew`
#[derive(Debug)]
pub struct DefaultSkewOutput {
    pub nodes: (Keyword, ClockingSkew),
}

/// `default_skew_input_output ::= "input" clocking_skew "output" clocking_skew`
#[derive(Debug)]
pub struct DefaultSkewInputOutput {
    pub nodes: (Keyword, ClockingSkew, Keyword, ClockingSkew),
}

/// The default skew of inputs, of outputs, or of both.
#[derive(Debug)]
pub enum DefaultSkew {
    Input(DefaultSkewInput),
    Output(DefaultSkewOutput),
    InputOutput(DefaultSkewInputOutput),
}

/// `clocking_direction_input ::= "input" [ clocking_skew ]`
#[derive(Debug)]
pub struct ClockingDirectionInput {
    pub nodes: (Keyword, Option<ClockingSkew>),
}

/// `clocking_direction_output ::= "output" [ clocking_skew ]`
#[derive(Debug)]
pub struct ClockingDirectionOutput {
    pub nodes: (Keyword, Option<ClockingSkew>),
}

/// `clocking_direction_input_output ::= "input" [ clocking_skew ] "output" [
/// clocking_skew ]`
#[derive(Debug)]
pub struct ClockingDirectionInputOutput {
    pub nodes: (Keyword, Option<ClockingSkew>, Keyword, Option<ClockingSkew>),
}

/// The direction of clocking signals, with their skews.
#[derive(Debug)]
pub enum ClockingDirection {
    Input(ClockingDirectionInput),
    Output(ClockingDirectionOutput),
    InputOutput(ClockingDirectionInputOutput),
    Inout(Keyword),
}

/// `list_of_clocking_decl_assign ::= clocking_decl_assign { "," clocking_decl_assign }`
#[derive(Debug)]
pub struct ListOfClockingDeclAssign {
    pub nodes: (List<Symbol, ClockingDeclAssign>,),
}

/// `clocking_decl_assign ::= signal_identifier [ assigned_value ]`
#[derive(Debug)]
pub struct ClockingDeclAssign {
    pub nodes: (SignalIdentifier, Option<(Symbol, Expression)>),
}

/// `clocking_skew_edge ::= edge_identifier [ delay_control ]`
#[derive(Debug)]
pub struct ClockingSkewEdge {
    pub nodes: (EdgeIdentifier, Option<DelayControl>),
}

/// A skew: an edge with an optional delay, or a delay.
#[derive(Debug)]
pub enum ClockingSkew {
    Edge(ClockingSkewEdge),
    DelayControl(DelayControl),
}

/// `clocking_drive ::= clockvar_expression "<=" [ cycle_delay ] expression`
#[derive(Debug)]
pub struct ClockingDrive {
    pub nodes: (ClockvarExpression, Symbol, Option<CycleDelay>, Expression),
}

/// `cycle_delay_integral ::= "##" integral_number`
#[derive(Debug)]
pub struct CycleDelayIntegral {
    pub nodes: (Symbol, IntegralNumber),
}

/// `cycle_delay_identifier ::= "##" identifier`
#[derive(Debug)]
pub struct CycleDelayIdentifier {
    pub nodes: (Symbol, Identifier),
}

/// `cycle_delay_expression ::= "##" "(" expression ")"`
#[derive(Debug)]
pub struct CycleDelayExpression {
    pub nodes: (Symbol, Paren<Expression>),
}

/// A delay counted in clock cycles.
#[derive(Debug)]
pub enum CycleDelay {
    Integral(CycleDelayIntegral),
    Identifier(CycleDelayIdentifier),
    Expression(CycleDelayExpression),
}

/// `clockvar ::= hierarchical_identifier`
#[derive(Debug)]
pub struct Clockvar {
    pub nodes: (HierarchicalIdentifier,),
}

/// `clockvar_expression ::= clockvar select`
#[derive(Debug)]
pub struct ClockvarExpression {
    pub nodes: (Clockvar, Select),
}

impl Default {
    /// The tree of the node: the sequence of the trees of its parts.
    #[verifier::opaque]
    pub open spec fn tree(&self) -> Tree {
        Tree::Sequence(
            Seq::empty()
                .push(self.nodes.0.tree()),
        )
    }

    /// Appends the leaf spans of the node to `out`, in source order.
    pub fn leaf_spans(&self, out: &mut Vec<Span>)
        ensures
            final(out)@ == leaves_after(old(out)@, self.tree()),
    {
        proof {
            reveal(Default::tree);
        }
        self.nodes.0.leaf_spans(out);
    }
}

impl ClockingDeclarationLocal {
    /// The tree of the node: the sequence of the trees of its parts.
    #[verifier::opaque]
    pub open spec fn tree(&self) -> Tree {
        Tree::Sequence(
            Seq::empty()
                .push(
                    match self.nodes.0 {
                        Some(x) => Tree::Optional(Some(Box::new(x.tree()))),
                        None => Tree::Optional(None),
                    },
                )
                .push(self.nodes.1.tree())
                .push(
                    match self.nodes.2 {
                        Some(x) => Tree::Optional(Some(Box::new(x.tree()))),
                        None => Tree::Optional(None),
                    },
                )
                .push(self.nodes.3.tree())
                .push(self.nodes.4.tree())
                .push(Tree::Repeat(ClockingItem::trees(self.nodes.5@)))
                .push(self.nodes.6.tree())
                .push(
                    match self.nodes.7 {
                        Some(x) => Tree::Optional(Some(Box::new(member_name_tree(x)))),
                        None => Tree::Optional(None),
                    },
                ),
        )
    }

    /// Appends the leaf spans of the node to `out`, in source order.
    pub fn leaf_spans(&self, out: &mut Vec<Span>)
        ensures
            final(out)@ == leaves_after(old(out)@, self.tree()),
    {
        proof {
            reveal(ClockingDeclarationLocal::tree);
            reveal(member_name_tree);
        }
        match &self.nodes.0 {
            Some(x) => {
                x.leaf_spans(out);
            },
            None => {},
        }
        self.nodes.1.leaf_spans(out);
        match &self.nodes.2 {
            Some(x) => {
                x.leaf_spans(out);
            },
            None => {},
        }
        self.nodes.3.leaf_spans(out);
        self.nodes.4.leaf_spans(out);
        ClockingItem::leaf_spans_of_all(&self.nodes.5, out);
        self.nodes.6.leaf_spans(out);
        match &self.nodes.7 {
            Some(x) => {
                x.0.leaf_spans(out);
                x.1.leaf_spans(out);
            },
            None => {},
        }
    }
}

impl ClockingDeclarationGlobal {
    /// The tree of the node: the sequence of the trees of its parts.
    #[verifier::opaque]
    pub open spec fn tree(&self) -> Tree {
        Tree::Sequence(
            Seq::empty()
                .push(self.nodes.0.tree())
                .push(self.nodes.1.tree())
                .push(
                    match self.nodes.2 {
                        Some(x) => Tree::Optional(Some(Box::new(x.tree()))),
                        None => Tree::Optional(None),
                    },
                )
                .push(self.nodes.3.tree())
                .push(self.nodes.4.tree())
                .push(self.nodes.5.tree())
                .push(
                    match self.nodes.6 {
                        Some(x) => Tree::Optional(Some(Box::new(member_name_tree(x)))),
                        None => Tree::Optional(None),
                    },
                ),
        )
    }

    /// Appends the leaf spans of the node to `out`, in source order.
    pub fn leaf_spans(&self, out: &mut Vec<Span>)
        ensures
            final(out)@ == leaves_after(old(out)@, self.tree()),
    {
        proof {
            reveal(ClockingDeclarationGlobal::tree);
            reveal(member_name_tree);
        }
        self.nodes.0.leaf_spans(out);
        self.nodes.1.leaf_spans(out);
        match &self.nodes.2 {
            Some(x) => {
                x.leaf_spans(out);
            },
            None => {},
        }
        self.nodes.3.leaf_spans(out);
        self.nodes.4.leaf_spans(out);
        self.nodes.5.leaf_spans(out);
        match &self.nodes.6 {
            Some(x) => {
                x.0.leaf_spans(out);
                x.1.leaf_spans(out);
            },
            None => {},
        }
    }
}

impl ClockingDeclaration {
    /// The tree of the node: the variant, by its index, and the tree of its payload.
    #[verifier::opaque]
    pub open spec fn tree(&self) -> Tree {
        match self {
            ClockingDeclaration::Local(x) => Tree::Variant(0, Box::new(x.tree())),
            ClockingDeclaration::Global(x) => Tree::Variant(1, Box::new(x.tree())),
        }
    }

    /// Appends the leaf spans of the node to `out`, in source order.
    pub fn leaf_spans(&self, out: &mut Vec<Span>)
        ensures
            final(out)@ == leaves_after(old(out)@, self.tree()),
    {
        proof {
            reveal(ClockingDeclaration::tree);
        }
        match self {
            ClockingDeclaration::Local(x) => {
                x.leaf_spans(out);
            },
            ClockingDeclaration::Global(x) => {
                x.leaf_spans(out);
            },
        }
    }
}

impl ClockingEventIdentifier {
    /// The tree of the node: the sequence of the trees of its parts.
    #[verifier::opaque]
    pub open spec fn tree(&self) -> Tree {
        Tree::Sequence(
            Seq::empty()
                .push(self.nodes.0.tree())
                .push(self.nodes.1.tree()),
        )
    }

    /// Appends the leaf spans of the node to `out`, in source order.
    pub fn leaf_spans(&self, out: &mut Vec<Span>)
        ensures
            final(out)@ == leaves_after(old(out)@, self.tree()),
    {
        proof {
            reveal(ClockingEventIdentifier::tree);
        }
        self.nodes.0.leaf_spans(out);
        self.nodes.1.leaf_spans(out);
    }
}

impl ClockingEventExpression {
    /// The tree of the node: the sequence of the trees of its parts.
    #[verifier::opaque]
    pub open spec fn tree(&self) -> Tree {
        Tree::Sequence(
            Seq::empty()
                .push(self.nodes.0.tree())
                .push(self.nodes.1.tree(self.nodes.1.nodes.1.tree())),
        )
    }

    /// Appends the leaf spans of the node to `out`, in source order.
    pub fn leaf_spans(&self, out: &mut Vec<Span>)
        ensures
            final(out)@ == leaves_after(old(out)@, self.tree()),
    {
        proof {
            reveal(ClockingEventExpression::tree);
        }
        self.nodes.0.leaf_spans(out);
        self.nodes.1.nodes.0.leaf_spans(out);
        self.nodes.1.nodes.1.leaf_spans(out);
        self.nodes.1.nodes.2.leaf_spans(out);
    }
}

impl ClockingEvent {
    /// The tree of the node: the variant, by its index, and the tree of its payload.
    #[verifier::opaque]
    pub open spec fn tree(&self) -> Tree {
        match self {
            ClockingEvent::Identifier(x) => Tree::Variant(0, Box::new(x.tree())),
            ClockingEvent::Expression(x) => Tree::Variant(1, Box::new(x.tree())),
        }
    }

    /// Appends the leaf spans of the node to `out`, in source order.
    pub fn leaf_spans(&self, out: &mut Vec<Span>)
        ensures
            final(out)@ == leaves_after(old(out)@, self.tree()),
    {
        proof {
            reveal(ClockingEvent::tree);
        }
        match self {
            ClockingEvent::Identifier(x) => {
                x.leaf_spans(out);
            },
            ClockingEvent::Expression(x) => {
                x.leaf_spans(out);
            },
        }
    }
}

impl ClockingItemDefault {
    /// The tree of the node: the sequence of the trees of its parts.
    #[verifier::opaque]
    pub open spec fn tree(&self) -> Tree {
        Tree::Sequence(
            Seq::empty()
                .push(self.nodes.0.tree())
                .push(self.nodes.1.tree())
                .push(self.nodes.2.tree()),
        )
    }

    /// Appends the leaf spans of the node to `out`, in source order.
    pub fn leaf_spans(&self, out: &mut Vec<Span>)
        ensures
            final(out)@ == leaves_after(old(out)@, self.tree()),
    {
        proof {
            reveal(ClockingItemDefault::tree);
        }
        self.nodes.0.leaf_spans(out);
        self.nodes.1.leaf_spans(out);
        self.nodes.2.leaf_spans(out);
    }
}

impl ClockingItemDirection {
    /// The tree of the node: the sequence of the trees of its parts.
    #[verifier::opaque]
    pub open spec fn tree(&self) -> Tree {
        Tree::Sequence(
            Seq::empty()
                .push(self.nodes.0.tree())
                .push(self.nodes.1.tree())
                .push(self.nodes.2.tree()),
        )
    }

    /// Appends the leaf spans of the node to `out`, in source order.
    pub fn leaf_spans(&self, out: &mut Vec<Span>)
        ensures
            final(out)@ == leaves_after(old(out)@, self.tree()),
    {
        proof {
            reveal(ClockingItemDirection::tree);
        }
        self.nodes.0.leaf_spans(out);
        self.nodes.1.leaf_spans(out);
        self.nodes.2.leaf_spans(out);
    }
}

impl ClockingItemAssertion {
    /// The tree of the node: the sequence of the trees of its parts.
    #[verifier::opaque]
    pub open spec fn tree(&self) -> Tree {
        Tree::Sequence(
            Seq::empty()
                .push(Tree::Repeat(AttributeInstance::trees(self.nodes.0@)))
                .push(self.nodes.1.tree()),
        )
    }

    /// Appends the leaf spans of the node to `out`, in source order.
    pub fn leaf_spans(&self, out: &mut Vec<Span>)
        ensures
            final(out)@ == leaves_after(old(out)@, self.tree()),
    {
        proof {
            reveal(ClockingItemAssertion::tree);
        }
        AttributeInstance::leaf_spans_of_all(&self.nodes.0, out);
        self.nodes.1.leaf_spans(out);
    }
}

impl ClockingItem {
    /// The tree of the node: the variant, by its index, and the tree of its payload.
    #[verifier::opaque]
    pub open spec fn tree(&self) -> Tree {
        match self {
            ClockingItem::Default(x) => Tree::Variant(0, Box::new(x.tree())),
            ClockingItem::Direction(x) => Tree::Variant(1, Box::new(x.tree())),
            ClockingItem::Assertion(x) => Tree::Variant(2, Box::new(x.tree())),
        }
    }

    /// The trees of a list of nodes, in order.
    #[verifier::opaque]
    pub open spec fn trees(s: Seq<ClockingItem>) -> Seq<Tree> {
        Seq::new(s.len(), |i: int| if 0 <= i < s.len() { s[i].tree() } else { arbitrary() })
    }

    /// The trees of a list that has one more node at its end.
    pub proof fn lemma_trees_push(s: Seq<ClockingItem>, x: ClockingItem)
        ensures
            Self::trees(s.push(x)) == Self::trees(s).push(x.tree()),
    {
        reveal(ClockingItem::trees);
        assert forall|i: int| 0 <= i < s.len() + 1 implies #[trigger] Self::trees(s.push(x))[i]
            == Self::trees(s).push(x.tree())[i] by {
            assert(s.push(x)[i].tree() == if i < s.len() { s[i].tree() } else { x.tree() });
        }
        assert(Self::trees(s.push(x)) =~= Self::trees(s).push(x.tree()));
    }

    /// The empty list has no trees.
    pub proof fn lemma_trees_empty()
        ensures
            Self::trees(Seq::empty()) == Seq::<Tree>::empty(),
    {
        reveal(ClockingItem::trees);
        assert(Self::trees(Seq::empty()) =~= Seq::<Tree>::empty());
    }

    /// Appends the leaf spans of the node to `out`, in source order.
    pub fn leaf_spans(&self, out: &mut Vec<Span>)
        ensures
            final(out)@ == leaves_after(old(out)@, self.tree()),
    {
        proof {
            reveal(ClockingItem::tree);
        }
        match self {
            ClockingItem::Default(x) => {
                x.leaf_spans(out);
            },
            ClockingItem::Direction(x) => {
                x.leaf_spans(out);
            },
            ClockingItem::Assertion(x) => {
                x.leaf_spans(out);
            },
        }
    }

    /// Appends the leaf spans of a list of nodes to `out`, in source order.
    pub fn leaf_spans_of_all(v: &Vec<ClockingItem>, out: &mut Vec<Span>)
        ensures
            final(out)@ == leaves_after(old(out)@, Tree::Repeat(ClockingItem::trees(v@))),
    {
        let mut i: usize = 0;
        proof {
            ClockingItem::lemma_trees_empty();
            assert(v@.take(0) =~= Seq::empty());
        }
        while i < v.len()
            invariant
                i <= v@.len(),
                out@ == leaves_after(
                    old(out)@,
                    Tree::Repeat(ClockingItem::trees(v@.take(i as int))),
                ),
            decreases v@.len() - i,
        {
            v[i].leaf_spans(out);
            proof {
                ClockingItem::lemma_trees_push(v@.take(i as int), v@[i as int]);
                assert(v@.take(i as int).push(v@[i as int]) =~= v@.take(i + 1));
            }
            i = i + 1;
        }
        proof {
            assert(v@.take(v@.len() as int) =~= v@);
        }
    }
}

impl DefaultSkewInput {
    /// The tree of the node: the sequence of the trees of its parts.
    #[verifier::opaque]
    pub open spec fn tree(&self) -> Tree {
        Tree::Sequence(
            Seq::empty()
                .push(self.nodes.0.tree())
                .push(self.nodes.1.tree()),
        )
    }

    /// Appends the leaf spans of the node to `out`, in source order.
    pub fn leaf_spans(&self, out: &mut Vec<Span>)
        ensures
            final(out)@ == leaves_after(old(out)@, self.tree()),
    {
        proof {
            reveal(DefaultSkewInput::tree);
        }
        self.nodes.0.leaf_spans(out);
        self.nodes.1.leaf_spans(out);
    }
}

impl DefaultSkewOutput {
    /// The tree of the node: the sequence of the trees of its parts.
    #[verifier::opaque]
    pub open spec fn tree(&self) -> Tree {
        Tree::Sequence(
            Seq::empty()
                .push(self.nodes.0.tree())
                .push(self.nodes.1.tree()),
        )
    }

    /// Appends the leaf spans of the node to `out`, in source order.
    pub fn leaf_spans(&self, out: &mut Vec<Span>)
        ensures
            final(out)@ == leaves_after(old(out)@, self.tree()),
    {
        proof {
            reveal(DefaultSkewOutput::tree);
        }
        self.nodes.0.leaf_spans(out);
        self.nodes.1.leaf_spans(out);
    }
}

impl DefaultSkewInputOutput {
    /// The tree of the node: the sequence of the trees of its parts.
    #[verifier::opaque]
    pub open spec fn tree(&self) -> Tree {
        Tree::Sequence(
            Seq::empty()
                .push(self.nodes.0.tree())
                .push(self.nodes.1.tree())
                .push(self.nodes.2.tree())
                .push(self.nodes.3.tree()),
        )
    }

    /// Appends the leaf spans of the node to `out`, in source order.
    pub fn leaf_spans(&self, out: &mut Vec<Span>)
        ensures
            final(out)@ == leaves_after(old(out)@, self.tree()),
    {
        proof {
            reveal(DefaultSkewInputOutput::tree);
        }
        self.nodes.0.leaf_spans(out);
        self.nodes.1.leaf_spans(out);
        self.nodes.2.leaf_spans(out);
        self.nodes.3.leaf_spans(out);
    }
}

impl DefaultSkew {
    /// The tree of the node: the variant, by its index, and the tree of its payload.
    #[verifier::opaque]
    pub open spec fn tree(&self) -> Tree {
        match self {
            DefaultSkew::Input(x) => Tree::Variant(0, Box::new(x.tree())),
            DefaultSkew::Output(x) => Tree::Variant(1, Box::new(x.tree())),
            DefaultSkew::InputOutput(x) => Tree::Variant(2, Box::new(x.tree())),
        }
    }

    /// Appends the leaf spans of the node to `out`, in source order.
    pub fn leaf_spans(&self, out: &mut Vec<Span>)
        ensures
            final(out)@ == leaves_after(old(out)@, self.tree()),
    {
        proof {
            reveal(DefaultSkew::tree);
        }
        match self {
            DefaultSkew::Input(x) => {
                x.leaf_spans(out);
            },
            DefaultSkew::Output(x) => {
                x.leaf_spans(out);
            },
            DefaultSkew::InputOutput(x) => {
                x.leaf_spans(out);
            },
        }
    }
}

impl ClockingDirectionInput {
    /// The tree of the node: the sequence of the trees of its parts.
    #[verifier::opaque]
    pub open spec fn tree(&self) -> Tree {
        Tree::Sequence(
            Seq::empty()
                .push(self.nodes.0.tree())
                .push(
                    match self.nodes.1 {
                        Some(x) => Tree::Optional(Some(Box::new(x.tree()))),
                        None => Tree::Optional(None),
                    },
                ),
        )
    }

    /// Appends the leaf spans of the node to `out`, in source order.
    pub fn leaf_spans(&self, out: &mut Vec<Span>)
        ensures
            final(out)@ == leaves_after(old(out)@, self.tree()),
    {
        proof {
            reveal(ClockingDirectionInput::tree);
        }
        self.nodes.0.leaf_spans(out);
        match &self.nodes.1 {
            Some(x) => {
                x.leaf_spans(out);
            },
            None => {},
        }
    }
}

impl ClockingDirectionOutput {
    /// The tree of the node: the sequence of the trees of its parts.
    #[verifier::opaque]
    pub open spec fn tree(&self) -> Tree {
        Tree::Sequence(
            Seq::empty()
                .push(self.nodes.0.tree())
                .push(
                    match self.nodes.1 {
                        Some(x) => Tree::Optional(Some(Box::new(x.tree()))),
                        None => Tree::Optional(None),
                    },
                ),
        )
    }

    /// Appends the leaf spans of the node to `out`, in source order.
    pub fn leaf_spans(&self, out: &mut Vec<Span>)
        ensures
            final(out)@ == leaves_after(old(out)@, self.tree()),
    {
        proof {
            reveal(ClockingDirectionOutput::tree);
        }
        self.nodes.0.leaf_spans(out);
        match &self.nodes.1 {
            Some(x) => {
                x.leaf_spans(out);
            },
            None => {},
        }
    }
}

impl ClockingDirectionInputOutput {
    /// The tree of the node: the sequence of the trees of its parts.
    #[verifier::opaque]
    pub open spec fn tree(&self) -> Tree {
        Tree::Sequence(
            Seq::empty()
                .push(self.nodes.0.tree())
                .push(
                    match self.nodes.1 {
                        Some(x) => Tree::Optional(Some(Box::new(x.tree()))),
                        None => Tree::Optional(None),
                    },
                )
                .push(self.nodes.2.tree())
                .push(
                    match self.nodes.3 {
                        Some(x) => Tree::Optional(Some(Box::new(x.tree()))),
                        None => Tree::Optional(None),
                    },
                ),
        )
    }

    /// Appends the leaf spans of the node to `out`, in source order.
    pub fn leaf_spans(&self, out: &mut Vec<Span>)
        ensures
            final(out)@ == leaves_after(old(out)@, self.tree()),
    {
        proof {
            reveal(ClockingDirectionInputOutput::tree);
        }
        self.nodes.0.leaf_spans(out);
        match &self.nodes.1 {
            Some(x) => {
                x.leaf_spans(out);
            },
            None => {},
        }
        self.nodes.2.leaf_spans(out);
        match &self.nodes.3 {
            Some(x) => {
                x.leaf_spans(out);
            },
            None => {},
        }
    }
}

impl ClockingDirection {
    /// The tree of the node: the variant, by its index, and the tree of its payload.
    #[verifier::opaque]
    pub open spec fn tree(&self) -> Tree {
        match self {
            ClockingDirection::Input(x) => Tree::Variant(0, Box::new(x.tree())),
            ClockingDirection::Output(x) => Tree::Variant(1, Box::new(x.tree())),
            ClockingDirection::InputOutput(x) => Tree::Variant(2, Box::new(x.tree())),
            ClockingDirection::Inout(x) => Tree::Variant(3, Box::new(x.tree())),
        }
    }

    /// Appends the leaf spans of the node to `out`, in source order.
    pub fn leaf_spans(&self, out: &mut Vec<Span>)
        ensures
            final(out)@ == leaves_after(old(out)@, self.tree()),
    {
        proof {
            reveal(ClockingDirection::tree);
        }
        match self {
            ClockingDirection::Input(x) => {
                x.leaf_spans(out);
            },
            ClockingDirection::Output(x) => {
                x.leaf_spans(out);
            },
            ClockingDirection::InputOutput(x) => {
                x.leaf_spans(out);
            },
            ClockingDirection::Inout(x) => {
                x.leaf_spans(out);
            },
        }
    }
}

impl ListOfClockingDeclAssign {
    /// The tree of the node: the sequence of the trees of its parts.
    #[verifier::opaque]
    pub open spec fn tree(&self) -> Tree {
        Tree::Sequence(
            Seq::empty()
                .push(
                    self.nodes.0.tree(
                        self.nodes.0.nodes.0.tree(),
                        clocking_decl_assign_tail_trees(self.nodes.0.nodes.1@),
                    ),
                ),
        )
    }

    /// Appends the leaf spans of the node to `out`, in source order.
    pub fn leaf_spans(&self, out: &mut Vec<Span>)
        ensures
            final(out)@ == leaves_after(old(out)@, self.tree()),
    {
        proof {
            reveal(ListOfClockingDeclAssign::tree);
        }
        self.nodes.0.nodes.0.leaf_spans(out);
        clocking_decl_assign_tail_leaf_spans(&self.nodes.0.nodes.1, out);
    }
}

impl ClockingDeclAssign {
    /// The tree of the node: the sequence of the trees of its parts.
    #[verifier::opaque]
    pub open spec fn tree(&self) -> Tree {
        Tree::Sequence(
            Seq::empty()
                .push(self.nodes.0.tree())
                .push(
                    match self.nodes.1 {
                        Some(x) => Tree::Optional(Some(Box::new(assigned_value_tree(x)))),
                        None => Tree::Optional(None),
                    },
                ),
        )
    }

    /// Appends the leaf spans of the node to `out`, in source order.
    pub fn leaf_spans(&self, out: &mut Vec<Span>)
        ensures
            final(out)@ == leaves_after(old(out)@, self.tree()),
    {
        proof {
            reveal(ClockingDeclAssign::tree);
        }
        self.nodes.0.leaf_spans(out);
        match &self.nodes.1 {
            Some(x) => {
                x.0.leaf_spans(out);
                x.1.leaf_spans(out);
            },
            None => {},
        }
    }
}

impl ClockingSkewEdge {
    /// The tree of the node: the sequence of the trees of its parts.
    #[verifier::opaque]
    pub open spec fn tree(&self) -> Tree {
        Tree::Sequence(
            Seq::empty()
                .push(self.nodes.0.tree())
                .push(
                    match self.nodes.1 {
                        Some(x) => Tree::Optional(Some(Box::new(x.tree()))),
                        None => Tree::Optional(None),
                    },
                ),
        )
    }

    /// Appends the leaf spans of the node to `out`, in source order.
    pub fn leaf_spans(&self, out: &mut Vec<Span>)
        ensures
            final(out)@ == leaves_after(old(out)@, self.tree()),
    {
        proof {
            reveal(ClockingSkewEdge::tree);
        }
        self.nodes.0.leaf_spans(out);
        match &self.nodes.1 {
            Some(x) => {
                x.leaf_spans(out);
            },
            None => {},
        }
    }
}

impl ClockingSkew {
    /// The tree of the node: the variant, by its index, and the tree of its payload.
    #[verifier::opaque]
    pub open spec fn tree(&self) -> Tree {
        match self {
            ClockingSkew::Edge(x) => Tree::Variant(0, Box::new(x.tree())),
            ClockingSkew::DelayControl(x) => Tree::Variant(1, Box::new(x.tree())),
        }
    }

    /// Appends the leaf spans of the node to `out`, in source order.
    pub fn leaf_spans(&self, out: &mut Vec<Span>)
        ensures
            final(out)@ == leaves_after(old(out)@, self.tree()),
    {
        proof {
            reveal(ClockingSkew::tree);
        }
        match self {
            ClockingSkew::Edge(x) => {
                x.leaf_spans(out);
            },
            ClockingSkew::DelayControl(x) => {
                x.leaf_spans(out);
            },
        }
    }
}

impl ClockingDrive {
    /// The tree of the node: the sequence of the trees of its parts.
    #[verifier::opaque]
    pub open spec fn tree(&self) -> Tree {
        Tree::Sequence(
            Seq::empty()
                .push(self.nodes.0.tree())
                .push(self.nodes.1.tree())
                .push(
                    match self.nodes.2 {
                        Some(x) => Tree::Optional(Some(Box::new(x.tree()))),
                        None => Tree::Optional(None),
                    },
                )
                .push(self.nodes.3.tree()),
        )
    }

    /// Appends the leaf spans of the node to `out`, in source order.
    pub fn leaf_spans(&self, out: &mut Vec<Span>)
        ensures
            final(out)@ == leaves_after(old(out)@, self.tree()),
    {
        proof {
            reveal(ClockingDrive::tree);
        }
        self.nodes.0.leaf_spans(out);
        self.nodes.1.leaf_spans(out);
        match &self.nodes.2 {
            Some(x) => {
                x.leaf_spans(out);
            },
            None => {},
        }
        self.nodes.3.leaf_spans(out);
    }
}

impl CycleDelayIntegral {
    /// The tree of the node: the sequence of the trees of its parts.
    #[verifier::opaque]
    pub open spec fn tree(&self) -> Tree {
        Tree::Sequence(
            Seq::empty()
                .push(self.nodes.0.tree())
                .push(self.nodes.1.tree()),
        )
    }

    /// Appends the leaf spans of the node to `out`, in source order.
    pub fn leaf_spans(&self, out: &mut Vec<Span>)
        ensures
            final(out)@ == leaves_after(old(out)@, self.tree()),
    {
        proof {
            reveal(CycleDelayIntegral::tree);
        }
        self.nodes.0.leaf_spans(out);
        self.nodes.1.leaf_spans(out);
    }
}

impl CycleDelayIdentifier {
    /// The tree of the node: the sequence of the trees of its parts.
    #[verifier::opaque]
    pub open spec fn tree(&self) -> Tree {
        Tree::Sequence(
            Seq::empty()
                .push(self.nodes.0.tree())
                .push(self.nodes.1.tree()),
        )
    }

    /// Appends the leaf spans of the node to `out`, in source order.
    pub fn leaf_spans(&self, out: &mut Vec<Span>)
        ensures
            final(out)@ == leaves_after(old(out)@, self.tree()),
    {
        proof {
            reveal(CycleDelayIdentifier::tree);
        }
        self.nodes.0.leaf_spans(out);
        self.nodes.1.leaf_spans(out);
    }
}

impl CycleDelayExpression {
    /// The tree of the node: the sequence of the trees of its parts.
    #[verifier::opaque]
    pub open spec fn tree(&self) -> Tree {
        Tree::Sequence(
            Seq::empty()
                .push(self.nodes.0.tree())
                .push(parenthesized_expression_tree(self.nodes.1)),
        )
    }

    /// Appends the leaf spans of the node to `out`, in source order.
    pub fn leaf_spans(&self, out: &mut Vec<Span>)
        ensures
            final(out)@ == leaves_after(old(out)@, self.tree()),
    {
        proof {
            reveal(CycleDelayExpression::tree);
        }
        self.nodes.0.leaf_spans(out);
        self.nodes.1.nodes.0.leaf_spans(out);
        self.nodes.1.nodes.1.leaf_spans(out);
        self.nodes.1.nodes.2.leaf_spans(out);
    }
}

impl CycleDelay {
    /// The tree of the node: the variant, by its index, and the tree of its payload.
    #[verifier::opaque]
    pub open spec fn tree(&self) -> Tree {
        match self {
            CycleDelay::Integral(x) => Tree::Variant(0, Box::new(x.tree())),
            CycleDelay::Identifier(x) => Tree::Variant(1, Box::new(x.tree())),
            CycleDelay::Expression(x) => Tree::Variant(2, Box::new(x.tree())),
        }
    }

    /// Appends the leaf spans of the node to `out`, in source order.
    pub fn leaf_spans(&self, out: &mut Vec<Span>)
        ensures
            final(out)@ == leaves_after(old(out)@, self.tree()),
    {
        proof {
            reveal(CycleDelay::tree);
        }
        match self {
            CycleDelay::Integral(x) => {
                x.leaf_spans(out);
            },
            CycleDelay::Identifier(x) => {
                x.leaf_spans(out);
            },
            CycleDelay::Expression(x) => {
                x.leaf_spans(out);
            },
        }
    }
}

impl Clockvar {
    /// The tree of the node: the sequence of the trees of its parts.
    #[verifier::opaque]
    pub open spec fn tree(&self) -> Tree {
        Tree::Sequence(
            Seq::empty()
                .push(self.nodes.0.tree()),
        )
    }

    /// Appends the leaf spans of the node to `out`, in source order.
    pub fn leaf_spans(&self, out: &mut Vec<Span>)
        ensures
            final(out)@ == leaves_after(old(out)@, self.tree()),
    {
        proof {
            reveal(Clockvar::tree);
        }
        self.nodes.0.leaf_spans(out);
    }
}

impl ClockvarExpression {
    /// The tree of the node: the sequence of the trees of its parts.
    #[verifier::opaque]
    pub open spec fn tree(&self) -> Tree {
        Tree::Sequence(
            Seq::empty()
                .push(self.nodes.0.tree())
                .push(self.nodes.1.tree()),
        )
    }

    /// Appends the leaf spans of the node to `out`, in source order.
    pub fn leaf_spans(&self, out: &mut Vec<Span>)
        ensures
            final(out)@ == leaves_after(old(out)@, self.tree()),
    {
        proof {
            reveal(ClockvarExpression::tree);
        }
        self.nodes.0.leaf_spans(out);
        self.nodes.1.leaf_spans(out);
    }
}

/// The trees of a list of such nodes, in order.
#[verifier::opaque]
pub open spec fn clocking_decl_assign_tail_trees(
    s: Seq<(Symbol, ClockingDeclAssign)>,
) -> Seq<Tree> {
    Seq::new(
        s.len(),
        |i: int| if 0 <= i < s.len() {
            separated(s[i].0.tree(), s[i].1.tree())
        } else {
            arbitrary()
        },
    )
}

/// The trees of a list that has one more node at its end.
pub proof fn lemma_clocking_decl_assign_tail_trees_push(
    s: Seq<(Symbol, ClockingDeclAssign)>,
    x: (Symbol, ClockingDeclAssign),
)
    ensures
        clocking_decl_assign_tail_trees(s.push(x)) == clocking_decl_assign_tail_trees(s).push(
            separated(x.0.tree(), x.1.tree()),
        ),
{
    reveal(clocking_decl_assign_tail_trees);
    assert forall|i: int| 0 <= i < s.len() + 1 implies
        #[trigger] clocking_decl_assign_tail_trees(s.push(x))[i]
        == clocking_decl_assign_tail_trees(s).push(separated(x.0.tree(), x.1.tree()))[i] by {
        let y = s.push(x)[i];
        assert(separated(y.0.tree(), y.1.tree()) == if i < s.len() {
            separated(s[i].0.tree(), s[i].1.tree())
        } else {
            separated(x.0.tree(), x.1.tree())
        });
    }
    assert(
        clocking_decl_assign_tail_trees(s.push(x)) =~= clocking_decl_assign_tail_trees(s).push(
            separated(x.0.tree(), x.1.tree()),
        )
    );
}

/// The empty list has no trees.
pub proof fn lemma_clocking_decl_assign_tail_trees_empty()
    ensures
        clocking_decl_assign_tail_trees(Seq::empty()) == Seq::<Tree>::empty(),
{
    reveal(clocking_decl_assign_tail_trees);
    assert(clocking_decl_assign_tail_trees(Seq::empty()) =~= Seq::<Tree>::empty());
}

/// Appends the leaf spans of a list of nodes to `out`, in source order.
pub fn clocking_decl_assign_tail_leaf_spans(
    v: &Vec<(Symbol, ClockingDeclAssign)>,
    out: &mut Vec<Span>,
)
    ensures
        final(out)@ == leaves_after(old(out)@, Tree::Repeat(clocking_decl_assign_tail_trees(v@))),
{
    let mut i: usize = 0;
    proof {
        lemma_clocking_decl_assign_tail_trees_empty();
        assert(v@.take(0) =~= Seq::empty());
    }
    while i < v.len()
        invariant
            i <= v@.len(),
            out@ == leaves_after(
                old(out)@,
                Tree::Repeat(clocking_decl_assign_tail_trees(v@.take(i as int))),
            ),
        decreases v@.len() - i,
    {
        v[i].0.leaf_spans(out);
        v[i].1.leaf_spans(out);
        proof {
            lemma_clocking_decl_assign_tail_trees_push(v@.take(i as int), v@[i as int]);
            assert(v@.take(i as int).push(v@[i as int]) =~= v@.take(i + 1));
        }
        i = i + 1;
    }
    proof {
        assert(v@.take(v@.len() as int) =~= v@);
    }
}

/// `default ::= "default"`
#[verifier::opaque]
pub open spec fn spec_default(inp: Input, pos: int) -> Parsed {
    let a = spec_keyword(inp, pos, "default");
    seq1(a)
}

/// Parses a `default` at `pos`.
pub fn default(ctx: &Parser, pos: usize) -> (r: Result<(usize, Default), Failure>)
    requires
        pos <= ctx.input().src.len(),
    ensures
        lift(r, |n: Default| n.tree()) == spec_default(ctx.input(), pos as int),
        well_spanned(
            spec_default(ctx.input(), pos as int),
            pos as int,
            ctx.input().src.len() as int,
        ),
{
    proof {
        reveal(spec_default);
        reveal(Default::tree);
    }
    let p = pos;
    let (p, a) = keyword(ctx, p, "default")?;
    Ok((p, Default { nodes: (a,) }))
}

/// `clocking_end_label ::= ":" clocking_identifier`
#[verifier::opaque]
pub open spec fn spec_clocking_end_label(inp: Input, pos: int) -> Parsed {
    let a = spec_symbol(inp, pos, ":");
    let b = spec_identifier(inp, rest(a));
    seq2(a, b)
}

/// Parses a `clocking_end_label` at `pos`.
pub fn clocking_end_label(ctx: &Parser, pos: usize) -> (r: Result<(usize, MemberName), Failure>)
    requires
        pos <= ctx.input().src.len(),
    ensures
        lift(r, |n: MemberName| member_name_tree(n)) == spec_clocking_end_label(
            ctx.input(),
            pos as int,
        ),
        well_spanned(
            spec_clocking_end_label(ctx.input(), pos as int),
            pos as int,
            ctx.input().src.len() as int,
        ),
{
    proof {
        reveal(spec_clocking_end_label);
        reveal(member_name_tree);
    }
    let p = pos;
    let (p, a) = symbol(ctx, p, ":")?;
    let (p, b) = identifier(ctx, p)?;
    Ok((p, (a, b)))
}

/// `clocking_declaration_local ::= [ default ] "clocking" [ clocking_identifier ]
/// clocking_event ";" { clocking_item } "endclocking" [ clocking_end_label ]` Once
/// `clocking` has matched, a failure is committed.
#[verifier::opaque]
pub open spec fn spec_clocking_declaration_local(inp: Input, pos: int, nest: Nesting) -> Parsed {
    let a = optional(spec_default(inp, pos), pos);
    let b = spec_keyword(inp, rest(a), "clocking");
    let c = optional(spec_identifier(inp, rest(b)), rest(b));
    let d = cut(spec_clocking_event(inp, rest(c), nest));
    let e = cut(spec_symbol(inp, rest(d), ";"));
    let f = spec_many_clocking_item(inp, rest(e), nest);
    let g = cut(spec_keyword(inp, rest(f), "endclocking"));
    let h = optional(spec_clocking_end_label(inp, rest(g)), rest(g));
    variant(0, seq8(a, b, c, d, e, f, g, h))
}

/// Parses a `clocking_declaration_local` at `pos`.
pub fn clocking_declaration_local(ctx: &mut Parser, pos: usize, depth: usize) -> (r: Result<
    (usize, ClockingDeclaration),
    Failure,
>)
    requires
        old(ctx).wf(),
        pos <= old(ctx).input().src.len(),
    ensures
        final(ctx).wf(),
        final(ctx).input() == old(ctx).input(),
        lift(r, |n: ClockingDeclaration| n.tree()) == spec_clocking_declaration_local(
            old(ctx).input(),
            pos as int,
            nesting(old(ctx).input(), depth as nat),
        ),
        well_spanned(
            spec_clocking_declaration_local(
                old(ctx).input(),
                pos as int,
                nesting(old(ctx).input(), depth as nat),
            ),
            pos as int,
            old(ctx).input().src.len() as int,
        ),
{
    proof {
        reveal(spec_clocking_declaration_local);
        reveal(ClockingDeclarationLocal::tree);
        reveal(ClockingDeclaration::tree);
    }
    let p = pos;
    let (p, a) = opt(default(ctx, p), p)?;
    let (p, b) = keyword(ctx, p, "clocking")?;
    let (p, c) = opt(identifier(ctx, p), p)?;
    let (p, d) = commit(clocking_event(ctx, p, depth))?;
    let (p, e) = commit(symbol(ctx, p, ";"))?;
    let (p, f) = many_clocking_item(ctx, p, depth)?;
    let (p, g) = commit(keyword(ctx, p, "endclocking"))?;
    let (p, h) = opt(clocking_end_label(ctx, p), p)?;
    Ok(
        (
            p,
            ClockingDeclaration::Local(
                ClockingDeclarationLocal { nodes: (a, b, c, d, e, f, g, h) },
            ),
        ),
    )
}

/// `clocking_declaration_global ::= "global" "clocking" [ clocking_identifier ]
/// clocking_event ";" "endclocking" [ clocking_end_label ]` Once `global clocking` has
/// matched, a failure is committed.
#[verifier::opaque]
pub open spec fn spec_clocking_declaration_global(inp: Input, pos: int, nest: Nesting) -> Parsed {
    let a = spec_keyword(inp, pos, "global");
    let b = spec_keyword(inp, rest(a), "clocking");
    let c = optional(spec_identifier(inp, rest(b)), rest(b));
    let d = cut(spec_clocking_event(inp, rest(c), nest));
    let e = cut(spec_symbol(inp, rest(d), ";"));
    let f = cut(spec_keyword(inp, rest(e), "endclocking"));
    let g = optional(spec_clocking_end_label(inp, rest(f)), rest(f));
    variant(1, seq7(a, b, c, d, e, f, g))
}

/// Parses a `clocking_declaration_global` at `pos`.
pub fn clocking_declaration_global(ctx: &mut Parser, pos: usize, depth: usize) -> (r: Result<
    (usize, ClockingDeclaration),
    Failure,
>)
    requires
        old(ctx).wf(),
        pos <= old(ctx).input().src.len(),
    ensures
        final(ctx).wf(),
        final(ctx).input() == old(ctx).input(),
        lift(r, |n: ClockingDeclaration| n.tree()) == spec_clocking_declaration_global(
            old(ctx).input(),
            pos as int,
            nesting(old(ctx).input(), depth as nat),
        ),
        well_spanned(
            spec_clocking_declaration_global(
                old(ctx).input(),
                pos as int,
                nesting(old(ctx).input(), depth as nat),
            ),
            pos as int,
            old(ctx).input().src.len() as int,
        ),
{
    proof {
        reveal(spec_clocking_declaration_global);
        reveal(ClockingDeclarationGlobal::tree);
        reveal(ClockingDeclaration::tree);
    }
    let p = pos;
    let (p, a) = keyword(ctx, p, "global")?;
    let (p, b) = keyword(ctx, p, "clocking")?;
    let (p, c) = opt(identifier(ctx, p), p)?;
    let (p, d) = commit(clocking_event(ctx, p, depth))?;
    let (p, e) = commit(symbol(ctx, p, ";"))?;
    let (p, f) = commit(keyword(ctx, p, "endclocking"))?;
    let (p, g) = opt(clocking_end_label(ctx, p), p)?;
    Ok((p, ClockingDeclaration::Global(ClockingDeclarationGlobal { nodes: (a, b, c, d, e, f, g) })))
}

/// `clocking_declaration ::= clocking_declaration_local | clocking_declaration_global`
#[verifier::opaque]
pub open spec fn spec_clocking_declaration(inp: Input, pos: int, nest: Nesting) -> Parsed {
    let r = spec_clocking_declaration_local(inp, pos, nest);
    let r = or_else(r, spec_clocking_declaration_global(inp, pos, nest));
    r
}

/// Parses a `clocking_declaration` at `pos`: the first alternative that matches.
pub fn clocking_declaration(ctx: &mut Parser, pos: usize, depth: usize) -> (r: Result<
    (usize, ClockingDeclaration),
    Failure,
>)
    requires
        old(ctx).wf(),
        pos <= old(ctx).input().src.len(),
    ensures
        final(ctx).wf(),
        final(ctx).input() == old(ctx).input(),
        lift(r, |n: ClockingDeclaration| n.tree()) == spec_clocking_declaration(
            old(ctx).input(),
            pos as int,
            nesting(old(ctx).input(), depth as nat),
        ),
        well_spanned(
            spec_clocking_declaration(
                old(ctx).input(),
                pos as int,
                nesting(old(ctx).input(), depth as nat),
            ),
            pos as int,
            old(ctx).input().src.len() as int,
        ),
{
    proof {
        reveal(spec_clocking_declaration);
        reveal(ClockingDeclaration::tree);
    }
    let e = match clocking_declaration_local(ctx, pos, depth) {
        Ok(x) => return Ok(x),
        Err(e) => e,
    };
    if e.committed {
        return Err(e);
    }
    let e = match clocking_declaration_global(ctx, pos, depth) {
        Ok(x) => return Ok(x),
        Err(f) => if f.committed {
            return Err(f);
        } else {
            e.or_deeper(f)
        },
    };
    Err(e)
}

/// `clocking_event_identifier ::= "@" identifier`
#[verifier::opaque]
pub open spec fn spec_clocking_event_identifier(inp: Input, pos: int) -> Parsed {
    let a = spec_symbol(inp, pos, "@");
    let b = spec_identifier(inp, rest(a));
    variant(0, seq2(a, b))
}

/// Parses a `clocking_event_identifier` at `pos`.
pub fn clocking_event_identifier(ctx: &Parser, pos: usize) -> (r: Result<
    (usize, ClockingEvent),
    Failure,
>)
    requires
        pos <= ctx.input().src.len(),
    ensures
        lift(r, |n: ClockingEvent| n.tree()) == spec_clocking_event_identifier(
            ctx.input(),
            pos as int,
        ),
        well_spanned(
            spec_clocking_event_identifier(ctx.input(), pos as int),
            pos as int,
            ctx.input().src.len() as int,
        ),
{
    proof {
        reveal(spec_clocking_event_identifier);
        reveal(ClockingEventIdentifier::tree);
        reveal(ClockingEvent::tree);
    }
    let p = pos;
    let (p, a) = symbol(ctx, p, "@")?;
    let (p, b) = identifier(ctx, p)?;
    Ok((p, ClockingEvent::Identifier(ClockingEventIdentifier { nodes: (a, b) })))
}

/// `clocking_event_expression ::= "@" "(" event_expression ")"`
#[verifier::opaque]
pub open spec fn spec_clocking_event_expression(inp: Input, pos: int, nest: Nesting) -> Parsed {
    let a = spec_symbol(inp, pos, "@");
    let b0 = spec_symbol(inp, rest(a), "(");
    let b1 = spec_event_expression(inp, rest(b0), nest);
    let b2 = spec_symbol(inp, rest(b1), ")");
    let b = delimited(b0, b1, b2);
    variant(1, seq2(a, b))
}

/// Parses a `clocking_event_expression` at `pos`.
pub fn clocking_event_expression(ctx: &mut Parser, pos: usize, depth: usize) -> (r: Result<
    (usize, ClockingEvent),
    Failure,
>)
    requires
        old(ctx).wf(),
        pos <= old(ctx).input().src.len(),
    ensures
        final(ctx).wf(),
        final(ctx).input() == old(ctx).input(),
        lift(r, |n: ClockingEvent| n.tree()) == spec_clocking_event_expression(
            old(ctx).input(),
            pos as int,
            nesting(old(ctx).input(), depth as nat),
        ),
        well_spanned(
            spec_clocking_event_expression(
                old(ctx).input(),
                pos as int,
                nesting(old(ctx).input(), depth as nat),
            ),
            pos as int,
            old(ctx).input().src.len() as int,
        ),
{
    proof {
        reveal(spec_clocking_event_expression);
        reveal(ClockingEventExpression::tree);
        reveal(ClockingEvent::tree);
    }
    let p = pos;
    let (p, a) = symbol(ctx, p, "@")?;
    let (p, b0) = symbol(ctx, p, "(")?;
    let (p, b1) = event_expression(ctx, p, depth)?;
    let (p, b2) = symbol(ctx, p, ")")?;
    let b = Paren { nodes: (b0, b1, b2) };
    Ok((p, ClockingEvent::Expression(ClockingEventExpression { nodes: (a, b) })))
}

/// `clocking_event ::= clocking_event_identifier | clocking_event_expression`
#[verifier::opaque]
pub open spec fn spec_clocking_event(inp: Input, pos: int, nest: Nesting) -> Parsed {
    let r = spec_clocking_event_identifier(inp, pos);
    let r = or_else(r, spec_clocking_event_expression(inp, pos, nest));
    r
}

/// Parses a `clocking_event` at `pos`: the first alternative that matches.
pub fn clocking_event(ctx: &mut Parser, pos: usize, depth: usize) -> (r: Result<
    (usize, ClockingEvent),
    Failure,
>)
    requires
        old(ctx).wf(),
        pos <= old(ctx).input().src.len(),
    ensures
        final(ctx).wf(),
        final(ctx).input() == old(ctx).input(),
        lift(r, |n: ClockingEvent| n.tree()) == spec_clocking_event(
            old(ctx).input(),
            pos as int,
            nesting(old(ctx).input(), depth as nat),
        ),
        well_spanned(
            spec_clocking_event(
                old(ctx).input(),
                pos as int,
                nesting(old(ctx).input(), depth as nat),
            ),
            pos as int,
            old(ctx).input().src.len() as int,
        ),
{
    proof {
        reveal(spec_clocking_event);
        reveal(ClockingEvent::tree);
    }
    let e = match clocking_event_identifier(ctx, pos) {
        Ok(x) => return Ok(x),
        Err(e) => e,
    };
    if e.committed {
        return Err(e);
    }
    let e = match clocking_event_expression(ctx, pos, depth) {
        Ok(x) => return Ok(x),
        Err(f) => if f.committed {
            return Err(f);
        } else {
            e.or_deeper(f)
        },
    };
    Err(e)
}

/// `clocking_item_default ::= "default" default_skew ";"` Once `default` has matched, a
/// failure is committed.
#[verifier::opaque]
pub open spec fn spec_clocking_item_default(inp: Input, pos: int, nest: Nesting) -> Parsed {
    let a = spec_keyword(inp, pos, "default");
    let b = cut(spec_default_skew(inp, rest(a), nest));
    let c = cut(spec_symbol(inp, rest(b), ";"));
    variant(0, seq3(a, b, c))
}

/// Parses a `clocking_item_default` at `pos`.
pub fn clocking_item_default(ctx: &mut Parser, pos: usize, depth: usize) -> (r: Result<
    (usize, ClockingItem),
    Failure,
>)
    requires
        old(ctx).wf(),
        pos <= old(ctx).input().src.len(),
    ensures
        final(ctx).wf(),
        final(ctx).input() == old(ctx).input(),
        lift(r, |n: ClockingItem| n.tree()) == spec_clocking_item_default(
            old(ctx).input(),
            pos as int,
            nesting(old(ctx).input(), depth as nat),
        ),
        well_spanned(
            spec_clocking_item_default(
                old(ctx).input(),
                pos as int,
                nesting(old(ctx).input(), depth as nat),
            ),
            pos as int,
            old(ctx).input().src.len() as int,
        ),
{
    proof {
        reveal(spec_clocking_item_default);
        reveal(ClockingItemDefault::tree);
        reveal(ClockingItem::tree);
    }
    let p = pos;
    let (p, a) = keyword(ctx, p, "default")?;
    let (p, b) = commit(default_skew(ctx, p, depth))?;
    let (p, c) = commit(symbol(ctx, p, ";"))?;
    Ok((p, ClockingItem::Default(ClockingItemDefault { nodes: (a, b, c) })))
}

/// `clocking_item_direction ::= clocking_direction list_of_clocking_decl_assign ";"`
/// Once the direction has matched, a failure is committed.
#[verifier::opaque]
pub open spec fn spec_clocking_item_direction(inp: Input, pos: int, nest: Nesting) -> Parsed {
    let a = spec_clocking_direction(inp, pos, nest);
    let b = cut(spec_list_of_clocking_decl_assign(inp, rest(a), nest));
    let c = cut(spec_symbol(inp, rest(b), ";"));
    variant(1, seq3(a, b, c))
}

/// Parses a `clocking_item_direction` at `pos`.
pub fn clocking_item_direction(ctx: &mut Parser, pos: usize, depth: usize) -> (r: Result<
    (usize, ClockingItem),
    Failure,
>)
    requires
        old(ctx).wf(),
        pos <= old(ctx).input().src.len(),
    ensures
        final(ctx).wf(),
        final(ctx).input() == old(ctx).input(),
        lift(r, |n: ClockingItem| n.tree()) == spec_clocking_item_direction(
            old(ctx).input(),
            pos as int,
            nesting(old(ctx).input(), depth as nat),
        ),
        well_spanned(
            spec_clocking_item_direction(
                old(ctx).input(),
                pos as int,
                nesting(old(ctx).input(), depth as nat),
            ),
            pos as int,
            old(ctx).input().src.len() as int,
        ),
{
    proof {
        reveal(spec_clocking_item_direction);
        reveal(ClockingItemDirection::tree);
        reveal(ClockingItem::tree);
    }
    let p = pos;
    let (p, a) = clocking_direction(ctx, p, depth)?;
    let (p, b) = commit(list_of_clocking_decl_assign(ctx, p, depth))?;
    let (p, c) = commit(symbol(ctx, p, ";"))?;
    Ok((p, ClockingItem::Direction(ClockingItemDirection { nodes: (a, b, c) })))
}

/// `clocking_item_assertion ::= { attribute_instance } assertion_item_declaration`
#[verifier::opaque]
pub open spec fn spec_clocking_item_assertion(inp: Input, pos: int, nest: Nesting) -> Parsed {
    let a = spec_many_attribute_instance(inp, pos, nest);
    let b = spec_assertion_item_declaration(inp, rest(a), nest);
    variant(2, seq2(a, b))
}

/// Parses a `clocking_item_assertion` at `pos`.
pub fn clocking_item_assertion(ctx: &mut Parser, pos: usize, depth: usize) -> (r: Result<
    (usize, ClockingItem),
    Failure,
>)
    requires
        old(ctx).wf(),
        pos <= old(ctx).input().src.len(),
    ensures
        final(ctx).wf(),
        final(ctx).input() == old(ctx).input(),
        lift(r, |n: ClockingItem| n.tree()) == spec_clocking_item_assertion(
            old(ctx).input(),
            pos as int,
            nesting(old(ctx).input(), depth as nat),
        ),
        well_spanned(
            spec_clocking_item_assertion(
                old(ctx).input(),
                pos as int,
                nesting(old(ctx).input(), depth as nat),
            ),
            pos as int,
            old(ctx).input().src.len() as int,
        ),
{
    proof {
        reveal(spec_clocking_item_assertion);
        reveal(ClockingItemAssertion::tree);
        reveal(ClockingItem::tree);
    }
    let p = pos;
    let (p, a) = many_attribute_instance(ctx, p, depth)?;
    let (p, b) = assertion_item_declaration(ctx, p, depth)?;
    Ok((p, ClockingItem::Assertion(ClockingItemAssertion { nodes: (a, b) })))
}

/// `clocking_item ::= clocking_item_default | clocking_item_direction |
/// clocking_item_assertion`
#[verifier::opaque]
pub open spec fn spec_clocking_item(inp: Input, pos: int, nest: Nesting) -> Parsed {
    let r = spec_clocking_item_default(inp, pos, nest);
    let r = or_else(r, spec_clocking_item_direction(inp, pos, nest));
    let r = or_else(r, spec_clocking_item_assertion(inp, pos, nest));
    r
}

/// Parses a `clocking_item` at `pos`: the first alternative that matches.
pub fn clocking_item(ctx: &mut Parser, pos: usize, depth: usize) -> (r: Result<
    (usize, ClockingItem),
    Failure,
>)
    requires
        old(ctx).wf(),
        pos <= old(ctx).input().src.len(),
    ensures
        final(ctx).wf(),
        final(ctx).input() == old(ctx).input(),
        lift(r, |n: ClockingItem| n.tree()) == spec_clocking_item(
            old(ctx).input(),
            pos as int,
            nesting(old(ctx).input(), depth as nat),
        ),
        well_spanned(
            spec_clocking_item(
                old(ctx).input(),
                pos as int,
                nesting(old(ctx).input(), depth as nat),
            ),
            pos as int,
            old(ctx).input().src.len() as int,
        ),
{
    proof {
        reveal(spec_clocking_item);
        reveal(ClockingItem::tree);
    }
    let e = match clocking_item_default(ctx, pos, depth) {
        Ok(x) => return Ok(x),
        Err(e) => e,
    };
    if e.committed {
        return Err(e);
    }
    let e = match clocking_item_direction(ctx, pos, depth) {
        Ok(x) => return Ok(x),
        Err(f) => if f.committed {
            return Err(f);
        } else {
            e.or_deeper(f)
        },
    };
    let e = match clocking_item_assertion(ctx, pos, depth) {
        Ok(x) => return Ok(x),
        Err(f) => if f.committed {
            return Err(f);
        } else {
            e.or_deeper(f)
        },
    };
    Err(e)
}

/// `default_skew_input ::= "input" clocking_skew`
#[verifier::opaque]
pub open spec fn spec_default_skew_input(inp: Input, pos: int, nest: Nesting) -> Parsed {
    let a = spec_keyword(inp, pos, "input");
    let b = spec_clocking_skew(inp, rest(a), nest);
    variant(0, seq2(a, b))
}

/// Parses a `default_skew_input` at `pos`.
pub fn default_skew_input(ctx: &mut Parser, pos: usize, depth: usize) -> (r: Result<
    (usize, DefaultSkew),
    Failure,
>)
    requires
        old(ctx).wf(),
        pos <= old(ctx).input().src.len(),
    ensures
        final(ctx).wf(),
        final(ctx).input() == old(ctx).input(),
        lift(r, |n: DefaultSkew| n.tree()) == spec_default_skew_input(
            old(ctx).input(),
            pos as int,
            nesting(old(ctx).input(), depth as nat),
        ),
        well_spanned(
            spec_default_skew_input(
                old(ctx).input(),
                pos as int,
                nesting(old(ctx).input(), depth as nat),
            ),
            pos as int,
            old(ctx).input().src.len() as int,
        ),
{
    proof {
        reveal(spec_default_skew_input);
        reveal(DefaultSkewInput::tree);
        reveal(DefaultSkew::tree);
    }
    let p = pos;
    let (p, a) = keyword(ctx, p, "input")?;
    let (p, b) = clocking_skew(ctx, p, depth)?;
    Ok((p, DefaultSkew::Input(DefaultSkewInput { nodes: (a, b) })))
}

/// `default_skew_output ::= "output" clocking_skew`
#[verifier::opaque]
pub open spec fn spec_default_skew_output(inp: Input, pos: int, nest: Nesting) -> Parsed {
    let a = spec_keyword(inp, pos, "output");
    let b = spec_clocking_skew(inp, rest(a), nest);
    variant(1, seq2(a, b))
}

/// Parses a `default_skew_output` at `pos`.
pub fn default_skew_output(ctx: &mut Parser, pos: usize, depth: usize) -> (r: Result<
    (usize, DefaultSkew),
    Failure,
>)
    requires
        old(ctx).wf(),
        pos <= old(ctx).input().src.len(),
    ensures
        final(ctx).wf(),
        final(ctx).input() == old(ctx).input(),
        lift(r, |n: DefaultSkew| n.tree()) == spec_default_skew_output(
            old(ctx).input(),
            pos as int,
            nesting(old(ctx).input(), depth as nat),
        ),
        well_spanned(
            spec_default_skew_output(
                old(ctx).input(),
                pos as int,
                nesting(old(ctx).input(), depth as nat),
            ),
            pos as int,
            old(ctx).input().src.len() as int,
        ),
{
    proof {
        reveal(spec_default_skew_output);
        reveal(DefaultSkewOutput::tree);
        reveal(DefaultSkew::tree);
    }
    let p = pos;
    let (p, a) = keyword(ctx, p, "output")?;
    let (p, b) = clocking_skew(ctx, p, depth)?;
    Ok((p, DefaultSkew::Output(DefaultSkewOutput { nodes: (a, b) })))
}

/// `default_skew_input_output ::= "input" clocking_skew "output" clocking_skew`
#[verifier::opaque]
pub open spec fn spec_default_skew_input_output(inp: Input, pos: int, nest: Nesting) -> Parsed {
    let a = spec_keyword(inp, pos, "input");
    let b = spec_clocking_skew(inp, rest(a), nest);
    let c = spec_keyword(inp, rest(b), "output");
    let d = spec_clocking_skew(inp, rest(c), nest);
    variant(2, seq4(a, b, c, d))
}

/// Parses a `default_skew_input_output` at `pos`.
pub fn default_skew_input_output(ctx: &mut Parser, pos: usize, depth: usize) -> (r: Result<
    (usize, DefaultSkew),
    Failure,
>)
    requires
        old(ctx).wf(),
        pos <= old(ctx).input().src.len(),
    ensures
        final(ctx).wf(),
        final(ctx).input() == old(ctx).input(),
        lift(r, |n: DefaultSkew| n.tree()) == spec_default_skew_input_output(
            old(ctx).input(),
            pos as int,
            nesting(old(ctx).input(), depth as nat),
        ),
        well_spanned(
            spec_default_skew_input_output(
                old(ctx).input(),
                pos as int,
                nesting(old(ctx).input(), depth as nat),
            ),
            pos as int,
            old(ctx).input().src.len() as int,
        ),
{
    proof {
        reveal(spec_default_skew_input_output);
        reveal(DefaultSkewInputOutput::tree);
        reveal(DefaultSkew::tree);
    }
    let p = pos;
    let (p, a) = keyword(ctx, p, "input")?;
    let (p, b) = clocking_skew(ctx, p, depth)?;
    let (p, c) = keyword(ctx, p, "output")?;
    let (p, d) = clocking_skew(ctx, p, depth)?;
    Ok((p, DefaultSkew::InputOutput(DefaultSkewInputOutput { nodes: (a, b, c, d) })))
}

/// `default_skew ::= default_skew_input_output | default_skew_input |
/// default_skew_output` The form with both skews begins like the form for inputs alone,
/// so it is tried first.
#[verifier::opaque]
pub open spec fn spec_default_skew(inp: Input, pos: int, nest: Nesting) -> Parsed {
    let r = spec_default_skew_input_output(inp, pos, nest);
    let r = or_else(r, spec_default_skew_input(inp, pos, nest));
    let r = or_else(r, spec_default_skew_output(inp, pos, nest));
    r
}

/// Parses a `default_skew` at `pos`: the first alternative that matches.
pub fn default_skew(ctx: &mut Parser, pos: usize, depth: usize) -> (r: Result<
    (usize, DefaultSkew),
    Failure,
>)
    requires
        old(ctx).wf(),
        pos <= old(ctx).input().src.len(),
    ensures
        final(ctx).wf(),
        final(ctx).input() == old(ctx).input(),
        lift(r, |n: DefaultSkew| n.tree()) == spec_default_skew(
            old(ctx).input(),
            pos as int,
            nesting(old(ctx).input(), depth as nat),
        ),
        well_spanned(
            spec_default_skew(
                old(ctx).input(),
                pos as int,
                nesting(old(ctx).input(), depth as nat),
            ),
            pos as int,
            old(ctx).input().src.len() as int,
        ),
{
    proof {
        reveal(spec_default_skew);
        reveal(DefaultSkew::tree);
    }
    let e = match default_skew_input_output(ctx, pos, depth) {
        Ok(x) => return Ok(x),
        Err(e) => e,
    };
    if e.committed {
        return Err(e);
    }
    let e = match default_skew_input(ctx, pos, depth) {
        Ok(x) => return Ok(x),
        Err(f) => if f.committed {
            return Err(f);
        } else {
            e.or_deeper(f)
        },
    };
    let e = match default_skew_output(ctx, pos, depth) {
        Ok(x) => return Ok(x),
        Err(f) => if f.committed {
            return Err(f);
        } else {
            e.or_deeper(f)
        },
    };
    Err(e)
}

/// `clocking_direction_input ::= "input" [ clocking_skew ]`
#[verifier::opaque]
pub open spec fn spec_clocking_direction_input(inp: Input, pos: int, nest: Nesting) -> Parsed {
    let a = spec_keyword(inp, pos, "input");
    let b = optional(spec_clocking_skew(inp, rest(a), nest), rest(a));
    variant(0, seq2(a, b))
}

/// Parses a `clocking_direction_input` at `pos`.
pub fn clocking_direction_input(ctx: &mut Parser, pos: usize, depth: usize) -> (r: Result<
    (usize, ClockingDirection),
    Failure,
>)
    requires
        old(ctx).wf(),
        pos <= old(ctx).input().src.len(),
    ensures
        final(ctx).wf(),
        final(ctx).input() == old(ctx).input(),
        lift(r, |n: ClockingDirection| n.tree()) == spec_clocking_direction_input(
            old(ctx).input(),
            pos as int,
            nesting(old(ctx).input(), depth as nat),
        ),
        well_spanned(
            spec_clocking_direction_input(
                old(ctx).input(),
                pos as int,
                nesting(old(ctx).input(), depth as nat),
            ),
            pos as int,
            old(ctx).input().src.len() as int,
        ),
{
    proof {
        reveal(spec_clocking_direction_input);
        reveal(ClockingDirectionInput::tree);
        reveal(ClockingDirection::tree);
    }
    let p = pos;
    let (p, a) = keyword(ctx, p, "input")?;
    let (p, b) = opt(clocking_skew(ctx, p, depth), p)?;
    Ok((p, ClockingDirection::Input(ClockingDirectionInput { nodes: (a, b) })))
}

/// `clocking_direction_output ::= "output" [ clocking_skew ]`
#[verifier::opaque]
pub open spec fn spec_clocking_direction_output(inp: Input, pos: int, nest: Nesting) -> Parsed {
    let a = spec_keyword(inp, pos, "output");
    let b = optional(spec_clocking_skew(inp, rest(a), nest), rest(a));
    variant(1, seq2(a, b))
}

/// Parses a `clocking_direction_output` at `pos`.
pub fn clocking_direction_output(ctx: &mut Parser, pos: usize, depth: usize) -> (r: Result<
    (usize, ClockingDirection),
    Failure,
>)
    requires
        old(ctx).wf(),
        pos <= old(ctx).input().src.len(),
    ensures
        final(ctx).wf(),
        final(ctx).input() == old(ctx).input(),
        lift(r, |n: ClockingDirection| n.tree()) == spec_clocking_direction_output(
            old(ctx).input(),
            pos as int,
            nesting(old(ctx).input(), depth as nat),
        ),
        well_spanned(
            spec_clocking_direction_output(
                old(ctx).input(),
                pos as int,
                nesting(old(ctx).input(), depth as nat),
            ),
            pos as int,
            old(ctx).input().src.len() as int,
        ),
{
    proof {
        reveal(spec_clocking_direction_output);
        reveal(ClockingDirectionOutput::tree);
        reveal(ClockingDirection::tree);
    }
    let p = pos;
    let (p, a) = keyword(ctx, p, "output")?;
    let (p, b) = opt(clocking_skew(ctx, p, depth), p)?;
    Ok((p, ClockingDirection::Output(ClockingDirectionOutput { nodes: (a, b) })))
}

/// `clocking_direction_input_output ::= "input" [ clocking_skew ] "output" [
/// clocking_skew ]`
#[verifier::opaque]
pub open spec fn spec_clocking_direction_input_output(
    inp: Input,
    pos: int,
    nest: Nesting,
) -> Parsed {
    let a = spec_keyword(inp, pos, "input");
    let b = optional(spec_clocking_skew(inp, rest(a), nest), rest(a));
    let c = spec_keyword(inp, rest(b), "output");
    let d = optional(spec_clocking_skew(inp, rest(c), nest), rest(c));
    variant(2, seq4(a, b, c, d))
}

/// Parses a `clocking_direction_input_output` at `pos`.
pub fn clocking_direction_input_output(ctx: &mut Parser, pos: usize, depth: usize) -> (r: Result<
    (usize, ClockingDirection),
    Failure,
>)
    requires
        old(ctx).wf(),
        pos <= old(ctx).input().src.len(),
    ensures
        final(ctx).wf(),
        final(ctx).input() == old(ctx).input(),
        lift(r, |n: ClockingDirection| n.tree()) == spec_clocking_direction_input_output(
            old(ctx).input(),
            pos as int,
            nesting(old(ctx).input(), depth as nat),
        ),
        well_spanned(
            spec_clocking_direction_input_output(
                old(ctx).input(),
                pos as int,
                nesting(old(ctx).input(), depth as nat),
            ),
            pos as int,
            old(ctx).input().src.len() as int,
        ),
{
    proof {
        reveal(spec_clocking_direction_input_output);
        reveal(ClockingDirectionInputOutput::tree);
        reveal(ClockingDirection::tree);
    }
    let p = pos;
    let (p, a) = keyword(ctx, p, "input")?;
    let (p, b) = opt(clocking_skew(ctx, p, depth), p)?;
    let (p, c) = keyword(ctx, p, "output")?;
    let (p, d) = opt(clocking_skew(ctx, p, depth), p)?;
    Ok((p, ClockingDirection::InputOutput(ClockingDirectionInputOutput { nodes: (a, b, c, d) })))
}

/// `clocking_direction_inout ::= "inout"`
#[verifier::opaque]
pub open spec fn spec_clocking_direction_inout(inp: Input, pos: int) -> Parsed {
    let r = variant(3, spec_keyword(inp, pos, "inout"));
    r
}

/// Parses a `clocking_direction_inout` at `pos`: the first alternative that matches.
pub fn clocking_direction_inout(ctx: &Parser, pos: usize) -> (r: Result<
    (usize, ClockingDirection),
    Failure,
>)
    requires
        pos <= ctx.input().src.len(),
    ensures
        lift(r, |n: ClockingDirection| n.tree()) == spec_clocking_direction_inout(
            ctx.input(),
            pos as int,
        ),
        well_spanned(
            spec_clocking_direction_inout(ctx.input(), pos as int),
            pos as int,
            ctx.input().src.len() as int,
        ),
{
    proof {
        reveal(spec_clocking_direction_inout);
        reveal(ClockingDirection::tree);
    }
    let e = match keyword(ctx, pos, "inout") {
        Ok((p, x)) => return Ok((p, ClockingDirection::Inout(x))),
        Err(e) => e,
    };
    if e.committed {
        return Err(e);
    }
    Err(e)
}

/// `clocking_direction ::= clocking_direction_input_output | clocking_direction_input |
/// clocking_direction_output | clocking_direction_inout` The form with both directions
/// begins like the form for inputs alone, so it is tried first.
#[verifier::opaque]
pub open spec fn spec_clocking_direction(inp: Input, pos: int, nest: Nesting) -> Parsed {
    let r = spec_clocking_direction_input_output(inp, pos, nest);
    let r = or_else(r, spec_clocking_direction_input(inp, pos, nest));
    let r = or_else(r, spec_clocking_direction_output(inp, pos, nest));
    let r = or_else(r, spec_clocking_direction_inout(inp, pos));
    r
}

/// Parses a `clocking_direction` at `pos`: the first alternative that matches.
pub fn clocking_direction(ctx: &mut Parser, pos: usize, depth: usize) -> (r: Result<
    (usize, ClockingDirection),
    Failure,
>)
    requires
        old(ctx).wf(),
        pos <= old(ctx).input().src.len(),
    ensures
        final(ctx).wf(),
        final(ctx).input() == old(ctx).input(),
        lift(r, |n: ClockingDirection| n.tree()) == spec_clocking_direction(
            old(ctx).input(),
            pos as int,
            nesting(old(ctx).input(), depth as nat),
        ),
        well_spanned(
            spec_clocking_direction(
                old(ctx).input(),
                pos as int,
                nesting(old(ctx).input(), depth as nat),
            ),
            pos as int,
            old(ctx).input().src.len() as int,
        ),
{
    proof {
        reveal(spec_clocking_direction);
        reveal(ClockingDirection::tree);
    }
    let e = match clocking_direction_input_output(ctx, pos, depth) {
        Ok(x) => return Ok(x),
        Err(e) => e,
    };
    if e.committed {
        return Err(e);
    }
    let e = match clocking_direction_input(ctx, pos, depth) {
        Ok(x) => return Ok(x),
        Err(f) => if f.committed {
            return Err(f);
        } else {
            e.or_deeper(f)
        },
    };
    let e = match clocking_direction_output(ctx, pos, depth) {
        Ok(x) => return Ok(x),
        Err(f) => if f.committed {
            return Err(f);
        } else {
            e.or_deeper(f)
        },
    };
    let e = match clocking_direction_inout(ctx, pos) {
        Ok(x) => return Ok(x),
        Err(f) => if f.committed {
            return Err(f);
        } else {
            e.or_deeper(f)
        },
    };
    Err(e)
}

/// `list_of_clocking_decl_assign ::= clocking_decl_assign { "," clocking_decl_assign }`
#[verifier::opaque]
pub open spec fn spec_list_of_clocking_decl_assign(inp: Input, pos: int, nest: Nesting) -> Parsed {
    let a0 = spec_clocking_decl_assign(inp, pos, nest);
    let a1 = spec_clocking_decl_assign_tail(inp, rest(a0), nest);
    let a = list(a0, a1);
    seq1(a)
}

/// Parses a `list_of_clocking_decl_assign` at `pos`.
pub fn list_of_clocking_decl_assign(ctx: &mut Parser, pos: usize, depth: usize) -> (r: Result<
    (usize, ListOfClockingDeclAssign),
    Failure,
>)
    requires
        old(ctx).wf(),
        pos <= old(ctx).input().src.len(),
    ensures
        final(ctx).wf(),
        final(ctx).input() == old(ctx).input(),
        lift(r, |n: ListOfClockingDeclAssign| n.tree()) == spec_list_of_clocking_decl_assign(
            old(ctx).input(),
            pos as int,
            nesting(old(ctx).input(), depth as nat),
        ),
        well_spanned(
            spec_list_of_clocking_decl_assign(
                old(ctx).input(),
                pos as int,
                nesting(old(ctx).input(), depth as nat),
            ),
            pos as int,
            old(ctx).input().src.len() as int,
        ),
{
    proof {
        reveal(spec_list_of_clocking_decl_assign);
        reveal(ListOfClockingDeclAssign::tree);
    }
    let p = pos;
    let (p, a0) = clocking_decl_assign(ctx, p, depth)?;
    let (p, a1) = clocking_decl_assign_tail(ctx, p, depth)?;
    let a = List { nodes: (a0, a1) };
    Ok((p, ListOfClockingDeclAssign { nodes: (a,) }))
}

/// `clocking_decl_assign ::= signal_identifier [ assigned_value ]`
#[verifier::opaque]
pub open spec fn spec_clocking_decl_assign(inp: Input, pos: int, nest: Nesting) -> Parsed {
    let a = spec_identifier(inp, pos);
    let b = optional(spec_assigned_value(inp, rest(a), nest), rest(a));
    seq2(a, b)
}

/// Parses a `clocking_decl_assign` at `pos`.
pub fn clocking_decl_assign(ctx: &mut Parser, pos: usize, depth: usize) -> (r: Result<
    (usize, ClockingDeclAssign),
    Failure,
>)
    requires
        old(ctx).wf(),
        pos <= old(ctx).input().src.len(),
    ensures
        final(ctx).wf(),
        final(ctx).input() == old(ctx).input(),
        lift(r, |n: ClockingDeclAssign| n.tree()) == spec_clocking_decl_assign(
            old(ctx).input(),
            pos as int,
            nesting(old(ctx).input(), depth as nat),
        ),
        well_spanned(
            spec_clocking_decl_assign(
                old(ctx).input(),
                pos as int,
                nesting(old(ctx).input(), depth as nat),
            ),
            pos as int,
            old(ctx).input().src.len() as int,
        ),
{
    proof {
        reveal(spec_clocking_decl_assign);
        reveal(ClockingDeclAssign::tree);
    }
    let p = pos;
    let (p, a) = identifier(ctx, p)?;
    let (p, b) = opt(assigned_value(ctx, p, depth), p)?;
    Ok((p, ClockingDeclAssign { nodes: (a, b) }))
}

/// `clocking_skew_edge ::= edge_identifier [ delay_control ]`
#[verifier::opaque]
pub open spec fn spec_clocking_skew_edge(inp: Input, pos: int, nest: Nesting) -> Parsed {
    let a = spec_edge_identifier(inp, pos);
    let b = optional(spec_delay_control(inp, rest(a), nest), rest(a));
    variant(0, seq2(a, b))
}

/// Parses a `clocking_skew_edge` at `pos`.
pub fn clocking_skew_edge(ctx: &mut Parser, pos: usize, depth: usize) -> (r: Result<
    (usize, ClockingSkew),
    Failure,
>)
    requires
        old(ctx).wf(),
        pos <= old(ctx).input().src.len(),
    ensures
        final(ctx).wf(),
        final(ctx).input() == old(ctx).input(),
        lift(r, |n: ClockingSkew| n.tree()) == spec_clocking_skew_edge(
            old(ctx).input(),
            pos as int,
            nesting(old(ctx).input(), depth as nat),
        ),
        well_spanned(
            spec_clocking_skew_edge(
                old(ctx).input(),
                pos as int,
                nesting(old(ctx).input(), depth as nat),
            ),
            pos as int,
            old(ctx).input().src.len() as int,
        ),
{
    proof {
        reveal(spec_clocking_skew_edge);
        reveal(ClockingSkewEdge::tree);
        reveal(ClockingSkew::tree);
    }
    let p = pos;
    let (p, a) = edge_identifier(ctx, p)?;
    let (p, b) = opt(delay_control(ctx, p, depth), p)?;
    Ok((p, ClockingSkew::Edge(ClockingSkewEdge { nodes: (a, b) })))
}

/// `clocking_skew ::= clocking_skew_edge | delay_control`
#[verifier::opaque]
pub open spec fn spec_clocking_skew(inp: Input, pos: int, nest: Nesting) -> Parsed {
    let r = spec_clocking_skew_edge(inp, pos, nest);
    let r = or_else(r, variant(1, spec_delay_control(inp, pos, nest)));
    r
}

/// Parses a `clocking_skew` at `pos`: the first alternative that matches.
pub fn clocking_skew(ctx: &mut Parser, pos: usize, depth: usize) -> (r: Result<
    (usize, ClockingSkew),
    Failure,
>)
    requires
        old(ctx).wf(),
        pos <= old(ctx).input().src.len(),
    ensures
        final(ctx).wf(),
        final(ctx).input() == old(ctx).input(),
        lift(r, |n: ClockingSkew| n.tree()) == spec_clocking_skew(
            old(ctx).input(),
            pos as int,
            nesting(old(ctx).input(), depth as nat),
        ),
        well_spanned(
            spec_clocking_skew(
                old(ctx).input(),
                pos as int,
                nesting(old(ctx).input(), depth as nat),
            ),
            pos as int,
            old(ctx).input().src.len() as int,
        ),
{
    proof {
        reveal(spec_clocking_skew);
        reveal(ClockingSkew::tree);
    }
    let e = match clocking_skew_edge(ctx, pos, depth) {
        Ok(x) => return Ok(x),
        Err(e) => e,
    };
    if e.committed {
        return Err(e);
    }
    let e = match delay_control(ctx, pos, depth) {
        Ok((p, x)) => return Ok((p, ClockingSkew::DelayControl(x))),
        Err(f) => if f.committed {
            return Err(f);
        } else {
            e.or_deeper(f)
        },
    };
    Err(e)
}

/// `clocking_drive ::= clockvar_expression "<=" [ cycle_delay ] expression`
#[verifier::opaque]
pub open spec fn spec_clocking_drive(inp: Input, pos: int, nest: Nesting) -> Parsed {
    let a = spec_clockvar_expression(inp, pos, nest);
    let b = spec_symbol(inp, rest(a), "<=");
    let c = optional(spec_cycle_delay(inp, rest(b), nest), rest(b));
    let d = (nest.expression)(rest(c));
    seq4(a, b, c, d)
}

/// Parses a `clocking_drive` at `pos`.
pub fn clocking_drive(ctx: &mut Parser, pos: usize, depth: usize) -> (r: Result<
    (usize, ClockingDrive),
    Failure,
>)
    requires
        old(ctx).wf(),
        pos <= old(ctx).input().src.len(),
    ensures
        final(ctx).wf(),
        final(ctx).input() == old(ctx).input(),
        lift(r, |n: ClockingDrive| n.tree()) == spec_clocking_drive(
            old(ctx).input(),
            pos as int,
            nesting(old(ctx).input(), depth as nat),
        ),
        well_spanned(
            spec_clocking_drive(
                old(ctx).input(),
                pos as int,
                nesting(old(ctx).input(), depth as nat),
            ),
            pos as int,
            old(ctx).input().src.len() as int,
        ),
{
    proof {
        reveal(spec_clocking_drive);
        reveal(ClockingDrive::tree);
    }
    let p = pos;
    let (p, a) = clockvar_expression(ctx, p, depth)?;
    let (p, b) = symbol(ctx, p, "<=")?;
    let (p, c) = opt(cycle_delay(ctx, p, depth), p)?;
    let (p, d) = expression(ctx, p, depth)?;
    Ok((p, ClockingDrive { nodes: (a, b, c, d) }))
}

/// `cycle_delay_integral ::= "##" integral_number`
#[verifier::opaque]
pub open spec fn spec_cycle_delay_integral(inp: Input, pos: int) -> Parsed {
    let a = spec_symbol(inp, pos, "##");
    let b = spec_integral_number(inp, rest(a));
    variant(0, seq2(a, b))
}

/// Parses a `cycle_delay_integral` at `pos`.
pub fn cycle_delay_integral(ctx: &Parser, pos: usize) -> (r: Result<(usize, CycleDelay), Failure>)
    requires
        pos <= ctx.input().src.len(),
    ensures
        lift(r, |n: CycleDelay| n.tree()) == spec_cycle_delay_integral(ctx.input(), pos as int),
        well_spanned(
            spec_cycle_delay_integral(ctx.input(), pos as int),
            pos as int,
            ctx.input().src.len() as int,
        ),
{
    proof {
        reveal(spec_cycle_delay_integral);
        reveal(CycleDelayIntegral::tree);
        reveal(CycleDelay::tree);
    }
    let p = pos;
    let (p, a) = symbol(ctx, p, "##")?;
    let (p, b) = integral_number(ctx, p)?;
    Ok((p, CycleDelay::Integral(CycleDelayIntegral { nodes: (a, b) })))
}

/// `cycle_delay_identifier ::= "##" identifier`
#[verifier::opaque]
pub open spec fn spec_cycle_delay_identifier(inp: Input, pos: int) -> Parsed {
    let a = spec_symbol(inp, pos, "##");
    let b = spec_identifier(inp, rest(a));
    variant(1, seq2(a, b))
}

/// Parses a `cycle_delay_identifier` at `pos`.
pub fn cycle_delay_identifier(ctx: &Parser, pos: usize) -> (r: Result<(usize, CycleDelay), Failure>)
    requires
        pos <= ctx.input().src.len(),
    ensures
        lift(r, |n: CycleDelay| n.tree()) == spec_cycle_delay_identifier(ctx.input(), pos as int),
        well_spanned(
            spec_cycle_delay_identifier(ctx.input(), pos as int),
            pos as int,
            ctx.input().src.len() as int,
        ),
{
    proof {
        reveal(spec_cycle_delay_identifier);
        reveal(CycleDelayIdentifier::tree);
        reveal(CycleDelay::tree);
    }
    let p = pos;
    let (p, a) = symbol(ctx, p, "##")?;
    let (p, b) = identifier(ctx, p)?;
    Ok((p, CycleDelay::Identifier(CycleDelayIdentifier { nodes: (a, b) })))
}

/// `cycle_delay_expression ::= "##" "(" expression ")"`
#[verifier::opaque]
pub open spec fn spec_cycle_delay_expression(inp: Input, pos: int, nest: Nesting) -> Parsed {
    let a = spec_symbol(inp, pos, "##");
    let b0 = spec_symbol(inp, rest(a), "(");
    let b1 = (nest.expression)(rest(b0));
    let b2 = spec_symbol(inp, rest(b1), ")");
    let b = delimited(b0, b1, b2);
    variant(2, seq2(a, b))
}

/// Parses a `cycle_delay_expression` at `pos`.
pub fn cycle_delay_expression(ctx: &mut Parser, pos: usize, depth: usize) -> (r: Result<
    (usize, CycleDelay),
    Failure,
>)
    requires
        old(ctx).wf(),
        pos <= old(ctx).input().src.len(),
    ensures
        final(ctx).wf(),
        final(ctx).input() == old(ctx).input(),
        lift(r, |n: CycleDelay| n.tree()) == spec_cycle_delay_expression(
            old(ctx).input(),
            pos as int,
            nesting(old(ctx).input(), depth as nat),
        ),
        well_spanned(
            spec_cycle_delay_expression(
                old(ctx).input(),
                pos as int,
                nesting(old(ctx).input(), depth as nat),
            ),
            pos as int,
            old(ctx).input().src.len() as int,
        ),
{
    proof {
        reveal(spec_cycle_delay_expression);
        reveal(CycleDelayExpression::tree);
        reveal(CycleDelay::tree);
    }
    let p = pos;
    let (p, a) = symbol(ctx, p, "##")?;
    let (p, b0) = symbol(ctx, p, "(")?;
    let (p, b1) = expression(ctx, p, depth)?;
    let (p, b2) = symbol(ctx, p, ")")?;
    let b = Paren { nodes: (b0, b1, b2) };
    Ok((p, CycleDelay::Expression(CycleDelayExpression { nodes: (a, b) })))
}

/// `cycle_delay ::= cycle_delay_integral | cycle_delay_identifier |
/// cycle_delay_expression`
#[verifier::opaque]
pub open spec fn spec_cycle_delay(inp: Input, pos: int, nest: Nesting) -> Parsed {
    let r = spec_cycle_delay_integral(inp, pos);
    let r = or_else(r, spec_cycle_delay_identifier(inp, pos));
    let r = or_else(r, spec_cycle_delay_expression(inp, pos, nest));
    r
}

/// Parses a `cycle_delay` at `pos`: the first alternative that matches.
pub fn cycle_delay(ctx: &mut Parser, pos: usize, depth: usize) -> (r: Result<
    (usize, CycleDelay),
    Failure,
>)
    requires
        old(ctx).wf(),
        pos <= old(ctx).input().src.len(),
    ensures
        final(ctx).wf(),
        final(ctx).input() == old(ctx).input(),
        lift(r, |n: CycleDelay| n.tree()) == spec_cycle_delay(
            old(ctx).input(),
            pos as int,
            nesting(old(ctx).input(), depth as nat),
        ),
        well_spanned(
            spec_cycle_delay(old(ctx).input(), pos as int, nesting(old(ctx).input(), depth as nat)),
            pos as int,
            old(ctx).input().src.len() as int,
        ),
{
    proof {
        reveal(spec_cycle_delay);
        reveal(CycleDelay::tree);
    }
    let e = match cycle_delay_integral(ctx, pos) {
        Ok(x) => return Ok(x),
        Err(e) => e,
    };
    if e.committed {
        return Err(e);
    }
    let e = match cycle_delay_identifier(ctx, pos) {
        Ok(x) => return Ok(x),
        Err(f) => if f.committed {
            return Err(f);
        } else {
            e.or_deeper(f)
        },
    };
    let e = match cycle_delay_expression(ctx, pos, depth) {
        Ok(x) => return Ok(x),
        Err(f) => if f.committed {
            return Err(f);
        } else {
            e.or_deeper(f)
        },
    };
    Err(e)
}

/// `clockvar ::= hierarchical_identifier`
#[verifier::opaque]
pub open spec fn spec_clockvar(inp: Input, pos: int) -> Parsed {
    let a = spec_hierarchical_identifier(inp, pos);
    seq1(a)
}

/// Parses a `clockvar` at `pos`.
pub fn clockvar(ctx: &Parser, pos: usize) -> (r: Result<(usize, Clockvar), Failure>)
    requires
        pos <= ctx.input().src.len(),
    ensures
        lift(r, |n: Clockvar| n.tree()) == spec_clockvar(ctx.input(), pos as int),
        well_spanned(
            spec_clockvar(ctx.input(), pos as int),
            pos as int,
            ctx.input().src.len() as int,
        ),
{
    proof {
        reveal(spec_clockvar);
        reveal(Clockvar::tree);
    }
    let p = pos;
    let (p, a) = hierarchical_identifier(ctx, p)?;
    Ok((p, Clockvar { nodes: (a,) }))
}

/// `clockvar_expression ::= clockvar select`
#[verifier::opaque]
pub open spec fn spec_clockvar_expression(inp: Input, pos: int, nest: Nesting) -> Parsed {
    let a = spec_clockvar(inp, pos);
    let b = spec_select(inp, rest(a), nest);
    seq2(a, b)
}

/// Parses a `clockvar_expression` at `pos`.
pub fn clockvar_expression(ctx: &mut Parser, pos: usize, depth: usize) -> (r: Result<
    (usize, ClockvarExpression),
    Failure,
>)
    requires
        old(ctx).wf(),
        pos <= old(ctx).input().src.len(),
    ensures
        final(ctx).wf(),
        final(ctx).input() == old(ctx).input(),
        lift(r, |n: ClockvarExpression| n.tree()) == spec_clockvar_expression(
            old(ctx).input(),
            pos as int,
            nesting(old(ctx).input(), depth as nat),
        ),
        well_spanned(
            spec_clockvar_expression(
                old(ctx).input(),
                pos as int,
                nesting(old(ctx).input(), depth as nat),
            ),
            pos as int,
            old(ctx).input().src.len() as int,
        ),
{
    proof {
        reveal(spec_clockvar_expression);
        reveal(ClockvarExpression::tree);
    }
    let p = pos;
    let (p, a) = clockvar(ctx, p)?;
    let (p, b) = select(ctx, p, depth)?;
    Ok((p, ClockvarExpression { nodes: (a, b) }))
}

/// `many_clocking_item ::= { clocking_item }` Stops before the first item that does not
/// match, or that matches nothing.
#[verifier::opaque]
pub open spec fn spec_many_clocking_item(inp: Input, pos: int, nest: Nesting) -> Parsed
    decreases inp.src.len() - pos,
{
    match spec_clocking_item(inp, pos, nest) {
        Ok((p, t)) => if pos < p <= inp.src.len() {
            prepend(t, spec_many_clocking_item(inp, p, nest))
        } else {
            no_more(pos)
        },
        Err(e) => if e.committed {
            Err(e)
        } else {
            no_more(pos)
        },
    }
}

/// Parses as many items as match at `pos`, one after the other: `{ clocking_item }`.
pub fn many_clocking_item(ctx: &mut Parser, pos: usize, depth: usize) -> (r: Result<
    (usize, Vec<ClockingItem>),
    Failure,
>)
    requires
        old(ctx).wf(),
        pos <= old(ctx).input().src.len(),
    ensures
        final(ctx).wf(),
        final(ctx).input() == old(ctx).input(),
        lift(r, |n: Vec<ClockingItem>| Tree::Repeat(ClockingItem::trees(n@)))
            == spec_many_clocking_item(
                old(ctx).input(),
                pos as int,
                nesting(old(ctx).input(), depth as nat),
            ),
        well_spanned(
            spec_many_clocking_item(
                old(ctx).input(),
                pos as int,
                nesting(old(ctx).input(), depth as nat),
            ),
            pos as int,
            old(ctx).input().src.len() as int,
        ),
{
    proof {
        reveal(spec_many_clocking_item);
    }
    let ghost inp = ctx.input();
    let mut items: Vec<ClockingItem> = Vec::new();
    let mut cur: usize = pos;
    proof {
        lemma_append_empty(spec_many_clocking_item(inp, pos as int, nesting(inp, depth as nat)));
        ClockingItem::lemma_trees_empty();
    }
    loop
        invariant
            ctx.wf(),
            ctx.input() == inp,
            inp == old(ctx).input(),
            pos <= cur <= inp.src.len(),
            spec_many_clocking_item(inp, pos as int, nesting(inp, depth as nat)) == append(
                ClockingItem::trees(items@),
                spec_many_clocking_item(inp, cur as int, nesting(inp, depth as nat)),
            ),
            tiled(Tree::Repeat(ClockingItem::trees(items@)), pos as int),
            cur == pos + width(Tree::Repeat(ClockingItem::trees(items@))),
        decreases inp.src.len() - cur,
    {
        proof {
            reveal(spec_many_clocking_item);
        }
        let (p, x) = match clocking_item(ctx, cur, depth) {
            Ok(found) => found,
            Err(e) => {
                if e.committed {
                    return Err(e);
                }
                proof {
                    lemma_append_no_more(ClockingItem::trees(items@), cur as int);
                }
                return Ok((cur, items));
            },
        };
        if p <= cur {
            proof {
                lemma_append_no_more(ClockingItem::trees(items@), cur as int);
            }
            return Ok((cur, items));
        }
        proof {
            lemma_append_prepend(
                ClockingItem::trees(items@),
                x.tree(),
                spec_many_clocking_item(inp, p as int, nesting(inp, depth as nat)),
            );
            ClockingItem::lemma_trees_push(items@, x);
        }
        items.push(x);
        cur = p;
    }
}

/// `clocking_decl_assign_tail ::= { "," clocking_decl_assign }` Stops before the first
/// item that does not match, or that matches nothing.
#[verifier::opaque]
pub open spec fn spec_clocking_decl_assign_tail(inp: Input, pos: int, nest: Nesting) -> Parsed
    decreases inp.src.len() - pos,
{
    let a = spec_symbol(inp, pos, ",");
    let b = spec_clocking_decl_assign(inp, rest(a), nest);
    match seq2(a, b) {
        Ok((p, t)) => if pos < p <= inp.src.len() {
            prepend(t, spec_clocking_decl_assign_tail(inp, p, nest))
        } else {
            no_more(pos)
        },
        Err(e) => if e.committed {
            Err(e)
        } else {
            no_more(pos)
        },
    }
}

/// Parses as many items as match at `pos`, one after the other: `{ ","
/// clocking_decl_assign }`.
pub fn clocking_decl_assign_tail(ctx: &mut Parser, pos: usize, depth: usize) -> (r: Result<
    (usize, Vec<(Symbol, ClockingDeclAssign)>),
    Failure,
>)
    requires
        old(ctx).wf(),
        pos <= old(ctx).input().src.len(),
    ensures
        final(ctx).wf(),
        final(ctx).input() == old(ctx).input(),
        lift(
            r,
            |n: Vec<(Symbol, ClockingDeclAssign)>| Tree::Repeat(
                clocking_decl_assign_tail_trees(n@),
            ),
        )
            == spec_clocking_decl_assign_tail(
                old(ctx).input(),
                pos as int,
                nesting(old(ctx).input(), depth as nat),
            ),
        well_spanned(
            spec_clocking_decl_assign_tail(
                old(ctx).input(),
                pos as int,
                nesting(old(ctx).input(), depth as nat),
            ),
            pos as int,
            old(ctx).input().src.len() as int,
        ),
{
    proof {
        reveal(spec_clocking_decl_assign_tail);
    }
    let ghost inp = ctx.input();
    let mut items: Vec<(Symbol, ClockingDeclAssign)> = Vec::new();
    let mut cur: usize = pos;
    proof {
        lemma_append_empty(
            spec_clocking_decl_assign_tail(inp, pos as int, nesting(inp, depth as nat)),
        );
        lemma_clocking_decl_assign_tail_trees_empty();
    }
    loop
        invariant
            ctx.wf(),
            ctx.input() == inp,
            inp == old(ctx).input(),
            pos <= cur <= inp.src.len(),
            spec_clocking_decl_assign_tail(inp, pos as int, nesting(inp, depth as nat)) == append(
                clocking_decl_assign_tail_trees(items@),
                spec_clocking_decl_assign_tail(inp, cur as int, nesting(inp, depth as nat)),
            ),
            tiled(Tree::Repeat(clocking_decl_assign_tail_trees(items@)), pos as int),
            cur == pos + width(Tree::Repeat(clocking_decl_assign_tail_trees(items@))),
        decreases inp.src.len() - cur,
    {
        proof {
            reveal(spec_clocking_decl_assign_tail);
        }
        let (q, s) = match symbol(ctx, cur, ",") {
            Ok(found) => found,
            Err(e) => {
                if e.committed {
                    return Err(e);
                }
                proof {
                    lemma_append_no_more(clocking_decl_assign_tail_trees(items@), cur as int);
                }
                return Ok((cur, items));
            },
        };
        let (p, y) = match clocking_decl_assign(ctx, q, depth) {
            Ok(found) => found,
            Err(e) => {
                if e.committed {
                    return Err(e);
                }
                proof {
                    lemma_append_no_more(clocking_decl_assign_tail_trees(items@), cur as int);
                }
                return Ok((cur, items));
            },
        };
        let x = (s, y);
        if p <= cur {
            proof {
                lemma_append_no_more(clocking_decl_assign_tail_trees(items@), cur as int);
            }
            return Ok((cur, items));
        }
        proof {
            lemma_append_prepend(
                clocking_decl_assign_tail_trees(items@),
                separated(x.0.tree(), x.1.tree()),
                spec_clocking_decl_assign_tail(inp, p as int, nesting(inp, depth as nat)),
            );
            lemma_clocking_decl_assign_tail_trees_push(items@, x);
        }
        items.push(x);
        cur = p;
    }
}

} // verus!
