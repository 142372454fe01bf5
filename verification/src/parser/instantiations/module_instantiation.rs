//! Module instantiation.
use vstd::prelude::*;
use crate::combinator::Parsed;
use crate::combinator::append;
use crate::combinator::delimited;
use crate::combinator::lemma_append_empty;
use crate::combinator::lemma_append_no_more;
use crate::combinator::lemma_append_prepend;
use crate::combinator::lift;
use crate::combinator::list;
use crate::combinator::no_more;
use crate::combinator::opt;
use crate::combinator::optional;
use crate::combinator::or_else;
use crate::combinator::prepend;
use crate::combinator::rest;
use crate::combinator::seq1;
use crate::combinator::seq2;
use crate::combinator::seq3;
use crate::combinator::seq4;
use crate::combinator::variant;
use crate::combinator::well_spanned;
use crate::context::Input;
use crate::context::Parser;
use crate::failure::Failure;
use crate::node::List;
use crate::node::Paren;
use crate::node::separated;
use crate::parser::declarations::declaration_ranges::UnpackedDimension;
use crate::parser::declarations::declaration_ranges::many_unpacked_dimension;
use crate::parser::declarations::declaration_ranges::spec_many_unpacked_dimension;
use crate::parser::expressions::expressions::Expression;
use crate::parser::expressions::expressions::ParamExpression;
use crate::parser::expressions::expressions::expression;
use crate::parser::expressions::expressions::param_expression;
use crate::parser::expressions::expressions::spec_param_expression;
use crate::parser::general::attributes::AttributeInstance;
use crate::parser::general::attributes::many_attribute_instance;
use crate::parser::general::attributes::spec_many_attribute_instance;
use crate::parser::general::identifiers::InstanceIdentifier;
use crate::parser::general::identifiers::ModuleIdentifier;
use crate::parser::general::identifiers::ParameterIdentifier;
use crate::parser::general::identifiers::PortIdentifier;
use crate::parser::nesting::Nesting;
use crate::parser::nesting::nesting;
use crate::span::Span;
use crate::token::Symbol;
use crate::token::identifier;
use crate::token::spec_identifier;
use crate::token::spec_symbol;
use crate::token::symbol;
use crate::tree::Tree;
use crate::tree::group_layout;
use crate::tree::group_leaves;
use crate::tree::leaves_after;
use crate::tree::tiled;
use crate::tree::width;

verus! {

broadcast use {group_layout, group_leaves};

/// `module_instantiation ::= module_identifier [ parameter_value_assignment ]
/// hierarchical_instance { "," hierarchical_instance } ";"`
#[derive(Debug)]
pub struct ModuleInstantiation {
    pub nodes: (
        ModuleIdentifier,
        Option<ParameterValueAssignment>,
        List<Symbol, HierarchicalInstance>,
        Symbol,
    ),
}

/// `parameter_value_assignment ::= "#" "(" [ list_of_parameter_assignments ] ")"`
#[derive(Debug)]
pub struct ParameterValueAssignment {
    pub nodes: (Symbol, Paren<Option<ListOfParameterAssignments>>),
}

/// The values of parameters, all by position or all by name.
#[derive(Debug)]
pub enum ListOfParameterAssignments {
    Ordered(Box<ListOfParameterAssignmentsOrdered>),
    Named(Box<ListOfParameterAssignmentsNamed>),
}

/// `list_of_parameter_assignments_ordered ::= ordered_parameter_assignment { ","
/// ordered_parameter_assignment }`
#[derive(Debug)]
pub struct ListOfParameterAssignmentsOrdered {
    pub nodes: (List<Symbol, OrderedParameterAssignment>,),
}

/// `list_of_parameter_assignments_named ::= named_parameter_assignment { ","
/// named_parameter_assignment }`
#[derive(Debug)]
pub struct ListOfParameterAssignmentsNamed {
    pub nodes: (List<Symbol, NamedParameterAssignment>,),
}

/// `ordered_parameter_assignment ::= param_expression`
#[derive(Debug)]
pub struct OrderedParameterAssignment {
    pub nodes: (ParamExpression,),
}

/// `named_parameter_assignment ::= "." parameter_identifier "(" [ param_expression ]
/// ")"`
#[derive(Debug)]
pub struct NamedParameterAssignment {
    pub nodes: (Symbol, ParameterIdentifier, Paren<Option<ParamExpression>>),
}

/// `hierarchical_instance ::= name_of_instance "(" [ list_of_port_connections ] ")"`
#[derive(Debug)]
pub struct HierarchicalInstance {
    pub nodes: (NameOfInstance, Paren<Option<ListOfPortConnections>>),
}

/// `name_of_instance ::= instance_identifier { unpacked_dimension }`
#[derive(Debug)]
pub struct NameOfInstance {
    pub nodes: (InstanceIdentifier, Vec<UnpackedDimension>),
}

/// The connections of ports, all by position or all by name.
#[derive(Debug)]
pub enum ListOfPortConnections {
    Ordered(Box<ListOfPortConnectionsOrdered>),
    Named(Box<ListOfPortConnectionsNamed>),
}

/// `list_of_port_connections_ordered ::= ordered_port_connection { ","
/// ordered_port_connection }`
#[derive(Debug)]
pub struct ListOfPortConnectionsOrdered {
    pub nodes: (List<Symbol, OrderedPortConnection>,),
}

/// `list_of_port_connections_named ::= named_port_connection { ","
/// named_port_connection }`
#[derive(Debug)]
pub struct ListOfPortConnectionsNamed {
    pub nodes: (List<Symbol, NamedPortConnection>,),
}

/// `ordered_port_connection ::= { attribute_instance } [ expression ]`
#[derive(Debug)]
pub struct OrderedPortConnection {
    pub nodes: (Vec<AttributeInstance>, Option<Expression>),
}

/// A connection by name: of one port, or `.*` for all that are left.
#[derive(Debug)]
pub enum NamedPortConnection {
    Identifier(Box<NamedPortConnectionIdentifier>),
    Asterisk(Box<NamedPortConnectionAsterisk>),
}

/// `named_port_connection_identifier ::= { attribute_instance } "." port_identifier [
/// port_expression ]`
#[derive(Debug)]
pub struct NamedPortConnectionIdentifier {
    pub nodes: (
        Vec<AttributeInstance>,
        Symbol,
        PortIdentifier,
        Option<Paren<Option<Expression>>>,
    ),
}

/// `named_port_connection_asterisk ::= { attribute_instance } ".*"`
#[derive(Debug)]
pub struct NamedPortConnectionAsterisk {
    pub nodes: (Vec<AttributeInstance>, Symbol),
}

/// What [`port_expression`] returns.
pub type PortExpression = Paren<Option<Expression>>;

impl ModuleInstantiation {
    /// The tree of the node: the sequence of the trees of its parts.
    #[verifier::opaque]
    pub open spec fn tree(&self) -> Tree {
        Tree::Sequence(
            Seq::empty()
                .push(self.nodes.0.tree())
                .push(
                    match self.nodes.1 {
                        Some(x) => Tree::Optional(Some(Box::new(x.tree()))),
                        None => Tree::Optional(None),
                    },
                )
                .push(
                    self.nodes.2.tree(
                        self.nodes.2.nodes.0.tree(),
                        hierarchical_instance_tail_trees(self.nodes.2.nodes.1@),
                    ),
                )
                .push(self.nodes.3.tree()),
        )
    }

    /// Appends the leaf spans of the node to `out`, in source order.
    pub fn leaf_spans(&self, out: &mut Vec<Span>)
        ensures
            final(out)@ == leaves_after(old(out)@, self.tree()),
    {
        proof {
            reveal(ModuleInstantiation::tree);
        }
        self.nodes.0.leaf_spans(out);
        match &self.nodes.1 {
            Some(x) => {
                x.leaf_spans(out);
            },
            None => {},
        }
        self.nodes.2.nodes.0.leaf_spans(out);
        hierarchical_instance_tail_leaf_spans(&self.nodes.2.nodes.1, out);
        self.nodes.3.leaf_spans(out);
    }
}

impl ParameterValueAssignment {
    /// The tree of the node: the sequence of the trees of its parts.
    #[verifier::opaque]
    pub open spec fn tree(&self) -> Tree {
        Tree::Sequence(
            Seq::empty()
                .push(self.nodes.0.tree())
                .push(
                    self.nodes.1.tree(
                        match self.nodes.1.nodes.1 {
                            Some(x) => Tree::Optional(Some(Box::new(x.tree()))),
                            None => Tree::Optional(None),
                        },
                    ),
                ),
        )
    }

    /// Appends the leaf spans of the node to `out`, in source order.
    pub fn leaf_spans(&self, out: &mut Vec<Span>)
        ensures
            final(out)@ == leaves_after(old(out)@, self.tree()),
    {
        proof {
            reveal(ParameterValueAssignment::tree);
        }
        self.nodes.0.leaf_spans(out);
        self.nodes.1.nodes.0.leaf_spans(out);
        match &self.nodes.1.nodes.1 {
            Some(x) => {
                x.leaf_spans(out);
            },
            None => {},
        }
        self.nodes.1.nodes.2.leaf_spans(out);
    }
}

impl ListOfParameterAssignments {
    /// The tree of the node: the variant, by its index, and the tree of its payload.
    #[verifier::opaque]
    pub open spec fn tree(&self) -> Tree {
        match self {
            ListOfParameterAssignments::Ordered(x) => Tree::Variant(0, Box::new(x.tree())),
            ListOfParameterAssignments::Named(x) => Tree::Variant(1, Box::new(x.tree())),
        }
    }

    /// Appends the leaf spans of the node to `out`, in source order.
    pub fn leaf_spans(&self, out: &mut Vec<Span>)
        ensures
            final(out)@ == leaves_after(old(out)@, self.tree()),
    {
        proof {
            reveal(ListOfParameterAssignments::tree);
        }
        match self {
            ListOfParameterAssignments::Ordered(x) => {
                x.leaf_spans(out);
            },
            ListOfParameterAssignments::Named(x) => {
                x.leaf_spans(out);
            },
        }
    }
}

impl ListOfParameterAssignmentsOrdered {
    /// The tree of the node: the sequence of the trees of its parts.
    #[verifier::opaque]
    pub open spec fn tree(&self) -> Tree {
        Tree::Sequence(
            Seq::empty()
                .push(
                    self.nodes.0.tree(
                        self.nodes.0.nodes.0.tree(),
                        ordered_parameter_assignment_tail_trees(self.nodes.0.nodes.1@),
                    ),
                ),
        )
    }

    /// Appends the leaf spans of the node to `out`, in source order.
    pub fn leaf_spans(&self, out: &mut Vec<Span>)
        ensures
            final(out)@ == leaves_after(old(out)@, self.tree()),
    {
        proof {
            reveal(ListOfParameterAssignmentsOrdered::tree);
        }
        self.nodes.0.nodes.0.leaf_spans(out);
        ordered_parameter_assignment_tail_leaf_spans(&self.nodes.0.nodes.1, out);
    }
}

impl ListOfParameterAssignmentsNamed {
    /// The tree of the node: the sequence of the trees of its parts.
    #[verifier::opaque]
    pub open spec fn tree(&self) -> Tree {
        Tree::Sequence(
            Seq::empty()
                .push(
                    self.nodes.0.tree(
                        self.nodes.0.nodes.0.tree(),
                        named_parameter_assignment_tail_trees(self.nodes.0.nodes.1@),
                    ),
                ),
        )
    }

    /// Appends the leaf spans of the node to `out`, in source order.
    pub fn leaf_spans(&self, out: &mut Vec<Span>)
        ensures
            final(out)@ == leaves_after(old(out)@, self.tree()),
    {
        proof {
            reveal(ListOfParameterAssignmentsNamed::tree);
        }
        self.nodes.0.nodes.0.leaf_spans(out);
        named_parameter_assignment_tail_leaf_spans(&self.nodes.0.nodes.1, out);
    }
}

impl OrderedParameterAssignment {
    /// The tree of the node: the sequence of the trees of its parts.
    #[verifier::opaque]
    pub open spec fn tree(&self) -> Tree {
        Tree::Sequence(
            Seq::empty()
                .push(self.nodes.0.tree()),
        )
    }

    /// Appends the leaf spans of the node to `out`, in source order.
    pub fn leaf_spans(&self, out: &mut Vec<Span>)
        ensures
            final(out)@ == leaves_after(old(out)@, self.tree()),
    {
        proof {
            reveal(OrderedParameterAssignment::tree);
        }
        self.nodes.0.leaf_spans(out);
    }
}

impl NamedParameterAssignment {
    /// The tree of the node: the sequence of the trees of its parts.
    #[verifier::opaque]
    pub open spec fn tree(&self) -> Tree {
        Tree::Sequence(
            Seq::empty()
                .push(self.nodes.0.tree())
                .push(self.nodes.1.tree())
                .push(
                    self.nodes.2.tree(
                        match self.nodes.2.nodes.1 {
                            Some(x) => Tree::Optional(Some(Box::new(x.tree()))),
                            None => Tree::Optional(None),
                        },
                    ),
                ),
        )
    }

    /// Appends the leaf spans of the node to `out`, in source order.
    pub fn leaf_spans(&self, out: &mut Vec<Span>)
        ensures
            final(out)@ == leaves_after(old(out)@, self.tree()),
    {
        proof {
            reveal(NamedParameterAssignment::tree);
        }
        self.nodes.0.leaf_spans(out);
        self.nodes.1.leaf_spans(out);
        self.nodes.2.nodes.0.leaf_spans(out);
        match &self.nodes.2.nodes.1 {
            Some(x) => {
                x.leaf_spans(out);
            },
            None => {},
        }
        self.nodes.2.nodes.2.leaf_spans(out);
    }
}

impl HierarchicalInstance {
    /// The tree of the node: the sequence of the trees of its parts.
    #[verifier::opaque]
    pub open spec fn tree(&self) -> Tree {
        Tree::Sequence(
            Seq::empty()
                .push(self.nodes.0.tree())
                .push(
                    self.nodes.1.tree(
                        match self.nodes.1.nodes.1 {
                            Some(x) => Tree::Optional(Some(Box::new(x.tree()))),
                            None => Tree::Optional(None),
                        },
                    ),
                ),
        )
    }

    /// Appends the leaf spans of the node to `out`, in source order.
    pub fn leaf_spans(&self, out: &mut Vec<Span>)
        ensures
            final(out)@ == leaves_after(old(out)@, self.tree()),
    {
        proof {
            reveal(HierarchicalInstance::tree);
        }
        self.nodes.0.leaf_spans(out);
        self.nodes.1.nodes.0.leaf_spans(out);
        match &self.nodes.1.nodes.1 {
            Some(x) => {
                x.leaf_spans(out);
            },
            None => {},
        }
        self.nodes.1.nodes.2.leaf_spans(out);
    }
}

impl NameOfInstance {
    /// The tree of the node: the sequence of the trees of its parts.
    #[verifier::opaque]
    pub open spec fn tree(&self) -> Tree {
        Tree::Sequence(
            Seq::empty()
                .push(self.nodes.0.tree())
                .push(Tree::Repeat(UnpackedDimension::trees(self.nodes.1@))),
        )
    }

    /// Appends the leaf spans of the node to `out`, in source order.
    pub fn leaf_spans(&self, out: &mut Vec<Span>)
        ensures
            final(out)@ == leaves_after(old(out)@, self.tree()),
    {
        proof {
            reveal(NameOfInstance::tree);
        }
        self.nodes.0.leaf_spans(out);
        UnpackedDimension::leaf_spans_of_all(&self.nodes.1, out);
    }
}

impl ListOfPortConnections {
    /// The tree of the node: the variant, by its index, and the tree of its payload.
    #[verifier::opaque]
    pub open spec fn tree(&self) -> Tree {
        match self {
            ListOfPortConnections::Ordered(x) => Tree::Variant(0, Box::new(x.tree())),
            ListOfPortConnections::Named(x) => Tree::Variant(1, Box::new(x.tree())),
        }
    }

    /// Appends the leaf spans of the node to `out`, in source order.
    pub fn leaf_spans(&self, out: &mut Vec<Span>)
        ensures
            final(out)@ == leaves_after(old(out)@, self.tree()),
    {
        proof {
            reveal(ListOfPortConnections::tree);
        }
        match self {
            ListOfPortConnections::Ordered(x) => {
                x.leaf_spans(out);
            },
            ListOfPortConnections::Named(x) => {
                x.leaf_spans(out);
            },
        }
    }
}

impl ListOfPortConnectionsOrdered {
    /// The tree of the node: the sequence of the trees of its parts.
    #[verifier::opaque]
    pub open spec fn tree(&self) -> Tree {
        Tree::Sequence(
            Seq::empty()
                .push(
                    self.nodes.0.tree(
                        self.nodes.0.nodes.0.tree(),
                        ordered_port_connection_tail_trees(self.nodes.0.nodes.1@),
                    ),
                ),
        )
    }

    /// Appends the leaf spans of the node to `out`, in source order.
    pub fn leaf_spans(&self, out: &mut Vec<Span>)
        ensures
            final(out)@ == leaves_after(old(out)@, self.tree()),
    {
        proof {
            reveal(ListOfPortConnectionsOrdered::tree);
        }
        self.nodes.0.nodes.0.leaf_spans(out);
        ordered_port_connection_tail_leaf_spans(&self.nodes.0.nodes.1, out);
    }
}

impl ListOfPortConnectionsNamed {
    /// The tree of the node: the sequence of the trees of its parts.
    #[verifier::opaque]
    pub open spec fn tree(&self) -> Tree {
        Tree::Sequence(
            Seq::empty()
                .push(
                    self.nodes.0.tree(
                        self.nodes.0.nodes.0.tree(),
                        named_port_connection_tail_trees(self.nodes.0.nodes.1@),
                    ),
                ),
        )
    }

    /// Appends the leaf spans of the node to `out`, in source order.
    pub fn leaf_spans(&self, out: &mut Vec<Span>)
        ensures
            final(out)@ == leaves_after(old(out)@, self.tree()),
    {
        proof {
            reveal(ListOfPortConnectionsNamed::tree);
        }
        self.nodes.0.nodes.0.leaf_spans(out);
        named_port_connection_tail_leaf_spans(&self.nodes.0.nodes.1, out);
    }
}

impl OrderedPortConnection {
    /// The tree of the node: the sequence of the trees of its parts.
    #[verifier::opaque]
    pub open spec fn tree(&self) -> Tree {
        Tree::Sequence(
            Seq::empty()
                .push(Tree::Repeat(AttributeInstance::trees(self.nodes.0@)))
                .push(
                    match self.nodes.1 {
                        Some(x) => Tree::Optional(Some(Box::new(x.tree()))),
                        None => Tree::Optional(None),
                    },
                ),
        )
    }

    /// Appends the leaf spans of the node to `out`, in source order.
    pub fn leaf_spans(&self, out: &mut Vec<Span>)
        ensures
            final(out)@ == leaves_after(old(out)@, self.tree()),
    {
        proof {
            reveal(OrderedPortConnection::tree);
        }
        AttributeInstance::leaf_spans_of_all(&self.nodes.0, out);
        match &self.nodes.1 {
            Some(x) => {
                x.leaf_spans(out);
            },
            None => {},
        }
    }
}

impl NamedPortConnection {
    /// The tree of the node: the variant, by its index, and the tree of its payload.
    #[verifier::opaque]
    pub open spec fn tree(&self) -> Tree {
        match self {
            NamedPortConnection::Identifier(x) => Tree::Variant(0, Box::new(x.tree())),
            NamedPortConnection::Asterisk(x) => Tree::Variant(1, Box::new(x.tree())),
        }
    }

    /// Appends the leaf spans of the node to `out`, in source order.
    pub fn leaf_spans(&self, out: &mut Vec<Span>)
        ensures
            final(out)@ == leaves_after(old(out)@, self.tree()),
    {
        proof {
            reveal(NamedPortConnection::tree);
        }
        match self {
            NamedPortConnection::Identifier(x) => {
                x.leaf_spans(out);
            },
            NamedPortConnection::Asterisk(x) => {
                x.leaf_spans(out);
            },
        }
    }
}

impl NamedPortConnectionIdentifier {
    /// The tree of the node: the sequence of the trees of its parts.
    #[verifier::opaque]
    pub open spec fn tree(&self) -> Tree {
        Tree::Sequence(
            Seq::empty()
                .push(Tree::Repeat(AttributeInstance::trees(self.nodes.0@)))
                .push(self.nodes.1.tree())
                .push(self.nodes.2.tree())
                .push(
                    match self.nodes.3 {
                        Some(x) => Tree::Optional(Some(Box::new(port_expression_tree(x)))),
                        None => Tree::Optional(None),
                    },
                ),
        )
    }

    /// Appends the leaf spans of the node to `out`, in source order.
    pub fn leaf_spans(&self, out: &mut Vec<Span>)
        ensures
            final(out)@ == leaves_after(old(out)@, self.tree()),
    {
        proof {
            reveal(NamedPortConnectionIdentifier::tree);
            reveal(port_expression_tree);
        }
        AttributeInstance::leaf_spans_of_all(&self.nodes.0, out);
        self.nodes.1.leaf_spans(out);
        self.nodes.2.leaf_spans(out);
        match &self.nodes.3 {
            Some(x) => {
                x.nodes.0.leaf_spans(out);
                match &x.nodes.1 {
                    Some(y) => {
                        y.leaf_spans(out);
                    },
                    None => {},
                }
                x.nodes.2.leaf_spans(out);
            },
            None => {},
        }
    }
}

impl NamedPortConnectionAsterisk {
    /// The tree of the node: the sequence of the trees of its parts.
    #[verifier::opaque]
    pub open spec fn tree(&self) -> Tree {
        Tree::Sequence(
            Seq::empty()
                .push(Tree::Repeat(AttributeInstance::trees(self.nodes.0@)))
                .push(self.nodes.1.tree()),
        )
    }

    /// Appends the leaf spans of the node to `out`, in source order.
    pub fn leaf_spans(&self, out: &mut Vec<Span>)
        ensures
            final(out)@ == leaves_after(old(out)@, self.tree()),
    {
        proof {
            reveal(NamedPortConnectionAsterisk::tree);
        }
        AttributeInstance::leaf_spans_of_all(&self.nodes.0, out);
        self.nodes.1.leaf_spans(out);
    }
}

/// The tree of what [`port_expression`] returns.
#[verifier::opaque]
pub open spec fn port_expression_tree(n: PortExpression) -> Tree {
    n.tree(
        match n.nodes.1 {
            Some(x) => Tree::Optional(Some(Box::new(x.tree()))),
            None => Tree::Optional(None),
        },
    )
}

/// The trees of a list of such nodes, in order.
#[verifier::opaque]
pub open spec fn hierarchical_instance_tail_trees(
    s: Seq<(Symbol, HierarchicalInstance)>,
) -> Seq<Tree> {
    Seq::new(
        s.len(),
        |i: int| if 0 <= i < s.len() {
            separated(s[i].0.tree(), s[i].1.tree())
        } else {
            arbitrary()
        },
    )
}

/// The trees of a list that has one more node at its end.
pub proof fn lemma_hierarchical_instance_tail_trees_push(
    s: Seq<(Symbol, HierarchicalInstance)>,
    x: (Symbol, HierarchicalInstance),
)
    ensures
        hierarchical_instance_tail_trees(s.push(x)) == hierarchical_instance_tail_trees(s).push(
            separated(x.0.tree(), x.1.tree()),
        ),
{
    reveal(hierarchical_instance_tail_trees);
    assert forall|i: int| 0 <= i < s.len() + 1 implies
        #[trigger] hierarchical_instance_tail_trees(s.push(x))[i]
        == hierarchical_instance_tail_trees(s).push(separated(x.0.tree(), x.1.tree()))[i] by {
        let y = s.push(x)[i];
        assert(separated(y.0.tree(), y.1.tree()) == if i < s.len() {
            separated(s[i].0.tree(), s[i].1.tree())
        } else {
            separated(x.0.tree(), x.1.tree())
        });
    }
    assert(
        hierarchical_instance_tail_trees(s.push(x)) =~= hierarchical_instance_tail_trees(s).push(
            separated(x.0.tree(), x.1.tree()),
        )
    );
}

/// The empty list has no trees.
pub proof fn lemma_hierarchical_instance_tail_trees_empty()
    ensures
        hierarchical_instance_tail_trees(Seq::empty()) == Seq::<Tree>::empty(),
{
    reveal(hierarchical_instance_tail_trees);
    assert(hierarchical_instance_tail_trees(Seq::empty()) =~= Seq::<Tree>::empty());
}

/// Appends the leaf spans of a list of nodes to `out`, in source order.
pub fn hierarchical_instance_tail_leaf_spans(
    v: &Vec<(Symbol, HierarchicalInstance)>,
    out: &mut Vec<Span>,
)
    ensures
        final(out)@ == leaves_after(old(out)@, Tree::Repeat(hierarchical_instance_tail_trees(v@))),
{
    let mut i: usize = 0;
    proof {
        lemma_hierarchical_instance_tail_trees_empty();
        assert(v@.take(0) =~= Seq::empty());
    }
    while i < v.len()
        invariant
            i <= v@.len(),
            out@ == leaves_after(
                old(out)@,
                Tree::Repeat(hierarchical_instance_tail_trees(v@.take(i as int))),
            ),
        decreases v@.len() - i,
    {
        v[i].0.leaf_spans(out);
        v[i].1.leaf_spans(out);
        proof {
            lemma_hierarchical_instance_tail_trees_push(v@.take(i as int), v@[i as int]);
            assert(v@.take(i as int).push(v@[i as int]) =~= v@.take(i + 1));
        }
        i = i + 1;
    }
    proof {
        assert(v@.take(v@.len() as int) =~= v@);
    }
}

/// The trees of a list of such nodes, in order.
#[verifier::opaque]
pub open spec fn ordered_parameter_assignment_tail_trees(
    s: Seq<(Symbol, OrderedParameterAssignment)>,
) -> Seq<Tree> {
    Seq::new(
        s.len(),
        |i: int| if 0 <= i < s.len() {
            separated(s[i].0.tree(), s[i].1.tree())
        } else {
            arbitrary()
        },
    )
}

/// The trees of a list that has one more node at its end.
pub proof fn lemma_ordered_parameter_assignment_tail_trees_push(
    s: Seq<(Symbol, OrderedParameterAssignment)>,
    x: (Symbol, OrderedParameterAssignment),
)
    ensures
        ordered_parameter_assignment_tail_trees(s.push(x))
            == ordered_parameter_assignment_tail_trees(s).push(separated(x.0.tree(), x.1.tree())),
{
    reveal(ordered_parameter_assignment_tail_trees);
    assert forall|i: int| 0 <= i < s.len() + 1 implies
        #[trigger] ordered_parameter_assignment_tail_trees(s.push(x))[i]
        == ordered_parameter_assignment_tail_trees(s).push(separated(x.0.tree(), x.1.tree()))[i] by {
        let y = s.push(x)[i];
        assert(separated(y.0.tree(), y.1.tree()) == if i < s.len() {
            separated(s[i].0.tree(), s[i].1.tree())
        } else {
            separated(x.0.tree(), x.1.tree())
        });
    }
    assert(
        ordered_parameter_assignment_tail_trees(s.push(x))
            =~= ordered_parameter_assignment_tail_trees(s).push(separated(x.0.tree(), x.1.tree()))
    );
}

/// The empty list has no trees.
pub proof fn lemma_ordered_parameter_assignment_tail_trees_empty()
    ensures
        ordered_parameter_assignment_tail_trees(Seq::empty()) == Seq::<Tree>::empty(),
{
    reveal(ordered_parameter_assignment_tail_trees);
    assert(ordered_parameter_assignment_tail_trees(Seq::empty()) =~= Seq::<Tree>::empty());
}

/// Appends the leaf spans of a list of nodes to `out`, in source order.
pub fn ordered_parameter_assignment_tail_leaf_spans(
    v: &Vec<(Symbol, OrderedParameterAssignment)>,
    out: &mut Vec<Span>,
)
    ensures
        final(out)@ == leaves_after(
            old(out)@,
            Tree::Repeat(ordered_parameter_assignment_tail_trees(v@)),
        ),
{
    let mut i: usize = 0;
    proof {
        lemma_ordered_parameter_assignment_tail_trees_empty();
        assert(v@.take(0) =~= Seq::empty());
    }
    while i < v.len()
        invariant
            i <= v@.len(),
            out@ == leaves_after(
                old(out)@,
                Tree::Repeat(ordered_parameter_assignment_tail_trees(v@.take(i as int))),
            ),
        decreases v@.len() - i,
    {
        v[i].0.leaf_spans(out);
        v[i].1.leaf_spans(out);
        proof {
            lemma_ordered_parameter_assignment_tail_trees_push(v@.take(i as int), v@[i as int]);
            assert(v@.take(i as int).push(v@[i as int]) =~= v@.take(i + 1));
        }
        i = i + 1;
    }
    proof {
        assert(v@.take(v@.len() as int) =~= v@);
    }
}

/// The trees of a list of such nodes, in order.
#[verifier::opaque]
pub open spec fn named_parameter_assignment_tail_trees(
    s: Seq<(Symbol, NamedParameterAssignment)>,
) -> Seq<Tree> {
    Seq::new(
        s.len(),
        |i: int| if 0 <= i < s.len() {
            separated(s[i].0.tree(), s[i].1.tree())
        } else {
            arbitrary()
        },
    )
}

/// The trees of a list that has one more node at its end.
pub proof fn lemma_named_parameter_assignment_tail_trees_push(
    s: Seq<(Symbol, NamedParameterAssignment)>,
    x: (Symbol, NamedParameterAssignment),
)
    ensures
        named_parameter_assignment_tail_trees(s.push(x))
            == named_parameter_assignment_tail_trees(s).push(separated(x.0.tree(), x.1.tree())),
{
    reveal(named_parameter_assignment_tail_trees);
    assert forall|i: int| 0 <= i < s.len() + 1 implies
        #[trigger] named_parameter_assignment_tail_trees(s.push(x))[i]
        == named_parameter_assignment_tail_trees(s).push(separated(x.0.tree(), x.1.tree()))[i] by {
        let y = s.push(x)[i];
        assert(separated(y.0.tree(), y.1.tree()) == if i < s.len() {
            separated(s[i].0.tree(), s[i].1.tree())
        } else {
            separated(x.0.tree(), x.1.tree())
        });
    }
    assert(
        named_parameter_assignment_tail_trees(s.push(x))
            =~= named_parameter_assignment_tail_trees(s).push(separated(x.0.tree(), x.1.tree()))
    );
}

/// The empty list has no trees.
pub proof fn lemma_named_parameter_assignment_tail_trees_empty()
    ensures
        named_parameter_assignment_tail_trees(Seq::empty()) == Seq::<Tree>::empty(),
{
    reveal(named_parameter_assignment_tail_trees);
    assert(named_parameter_assignment_tail_trees(Seq::empty()) =~= Seq::<Tree>::empty());
}

/// Appends the leaf spans of a list of nodes to `out`, in source order.
pub fn named_parameter_assignment_tail_leaf_spans(
    v: &Vec<(Symbol, NamedParameterAssignment)>,
    out: &mut Vec<Span>,
)
    ensures
        final(out)@ == leaves_after(
            old(out)@,
            Tree::Repeat(named_parameter_assignment_tail_trees(v@)),
        ),
{
    let mut i: usize = 0;
    proof {
        lemma_named_parameter_assignment_tail_trees_empty();
        assert(v@.take(0) =~= Seq::empty());
    }
    while i < v.len()
        invariant
            i <= v@.len(),
            out@ == leaves_after(
                old(out)@,
                Tree::Repeat(named_parameter_assignment_tail_trees(v@.take(i as int))),
            ),
        decreases v@.len() - i,
    {
        v[i].0.leaf_spans(out);
        v[i].1.leaf_spans(out);
        proof {
            lemma_named_parameter_assignment_tail_trees_push(v@.take(i as int), v@[i as int]);
            assert(v@.take(i as int).push(v@[i as int]) =~= v@.take(i + 1));
        }
        i = i + 1;
    }
    proof {
        assert(v@.take(v@.len() as int) =~= v@);
    }
}

/// The trees of a list of such nodes, in order.
#[verifier::opaque]
pub open spec fn ordered_port_connection_tail_trees(
    s: Seq<(Symbol, OrderedPortConnection)>,
) -> Seq<Tree> {
    Seq::new(
        s.len(),
        |i: int| if 0 <= i < s.len() {
            separated(s[i].0.tree(), s[i].1.tree())
        } else {
            arbitrary()
        },
    )
}

/// The trees of a list that has one more node at its end.
pub proof fn lemma_ordered_port_connection_tail_trees_push(
    s: Seq<(Symbol, OrderedPortConnection)>,
    x: (Symbol, OrderedPortConnection),
)
    ensures
        ordered_port_connection_tail_trees(s.push(x)) == ordered_port_connection_tail_trees(s).push(
            separated(x.0.tree(), x.1.tree()),
        ),
{
    reveal(ordered_port_connection_tail_trees);
    assert forall|i: int| 0 <= i < s.len() + 1 implies
        #[trigger] ordered_port_connection_tail_trees(s.push(x))[i]
        == ordered_port_connection_tail_trees(s).push(separated(x.0.tree(), x.1.tree()))[i] by {
        let y = s.push(x)[i];
        assert(separated(y.0.tree(), y.1.tree()) == if i < s.len() {
            separated(s[i].0.tree(), s[i].1.tree())
        } else {
            separated(x.0.tree(), x.1.tree())
        });
    }
    assert(
        ordered_port_connection_tail_trees(s.push(x))
            =~= ordered_port_connection_tail_trees(s).push(separated(x.0.tree(), x.1.tree()))
    );
}

/// The empty list has no trees.
pub proof fn lemma_ordered_port_connection_tail_trees_empty()
    ensures
        ordered_port_connection_tail_trees(Seq::empty()) == Seq::<Tree>::empty(),
{
    reveal(ordered_port_connection_tail_trees);
    assert(ordered_port_connection_tail_trees(Seq::empty()) =~= Seq::<Tree>::empty());
}

/// Appends the leaf spans of a list of nodes to `out`, in source order.
pub fn ordered_port_connection_tail_leaf_spans(
    v: &Vec<(Symbol, OrderedPortConnection)>,
    out: &mut Vec<Span>,
)
    ensures
        final(out)@ == leaves_after(
            old(out)@,
            Tree::Repeat(ordered_port_connection_tail_trees(v@)),
        ),
{
    let mut i: usize = 0;
    proof {
        lemma_ordered_port_connection_tail_trees_empty();
        assert(v@.take(0) =~= Seq::empty());
    }
    while i < v.len()
        invariant
            i <= v@.len(),
            out@ == leaves_after(
                old(out)@,
                Tree::Repeat(ordered_port_connection_tail_trees(v@.take(i as int))),
            ),
        decreases v@.len() - i,
    {
        v[i].0.leaf_spans(out);
        v[i].1.leaf_spans(out);
        proof {
            lemma_ordered_port_connection_tail_trees_push(v@.take(i as int), v@[i as int]);
            assert(v@.take(i as int).push(v@[i as int]) =~= v@.take(i + 1));
        }
        i = i + 1;
    }
    proof {
        assert(v@.take(v@.len() as int) =~= v@);
    }
}

/// The trees of a list of such nodes, in order.
#[verifier::opaque]
pub open spec fn named_port_connection_tail_trees(
    s: Seq<(Symbol, NamedPortConnection)>,
) -> Seq<Tree> {
    Seq::new(
        s.len(),
        |i: int| if 0 <= i < s.len() {
            separated(s[i].0.tree(), s[i].1.tree())
        } else {
            arbitrary()
        },
    )
}

/// The trees of a list that has one more node at its end.
pub proof fn lemma_named_port_connection_tail_trees_push(
    s: Seq<(Symbol, NamedPortConnection)>,
    x: (Symbol, NamedPortConnection),
)
    ensures
        named_port_connection_tail_trees(s.push(x)) == named_port_connection_tail_trees(s).push(
            separated(x.0.tree(), x.1.tree()),
        ),
{
    reveal(named_port_connection_tail_trees);
    assert forall|i: int| 0 <= i < s.len() + 1 implies
        #[trigger] named_port_connection_tail_trees(s.push(x))[i]
        == named_port_connection_tail_trees(s).push(separated(x.0.tree(), x.1.tree()))[i] by {
        let y = s.push(x)[i];
        assert(separated(y.0.tree(), y.1.tree()) == if i < s.len() {
            separated(s[i].0.tree(), s[i].1.tree())
        } else {
            separated(x.0.tree(), x.1.tree())
        });
    }
    assert(
        named_port_connection_tail_trees(s.push(x)) =~= named_port_connection_tail_trees(s).push(
            separated(x.0.tree(), x.1.tree()),
        )
    );
}

/// The empty list has no trees.
pub proof fn lemma_named_port_connection_tail_trees_empty()
    ensures
        named_port_connection_tail_trees(Seq::empty()) == Seq::<Tree>::empty(),
{
    reveal(named_port_connection_tail_trees);
    assert(named_port_connection_tail_trees(Seq::empty()) =~= Seq::<Tree>::empty());
}

/// Appends the leaf spans of a list of nodes to `out`, in source order.
pub fn named_port_connection_tail_leaf_spans(
    v: &Vec<(Symbol, NamedPortConnection)>,
    out: &mut Vec<Span>,
)
    ensures
        final(out)@ == leaves_after(old(out)@, Tree::Repeat(named_port_connection_tail_trees(v@))),
{
    let mut i: usize = 0;
    proof {
        lemma_named_port_connection_tail_trees_empty();
        assert(v@.take(0) =~= Seq::empty());
    }
    while i < v.len()
        invariant
            i <= v@.len(),
            out@ == leaves_after(
                old(out)@,
                Tree::Repeat(named_port_connection_tail_trees(v@.take(i as int))),
            ),
        decreases v@.len() - i,
    {
        v[i].0.leaf_spans(out);
        v[i].1.leaf_spans(out);
        proof {
            lemma_named_port_connection_tail_trees_push(v@.take(i as int), v@[i as int]);
            assert(v@.take(i as int).push(v@[i as int]) =~= v@.take(i + 1));
        }
        i = i + 1;
    }
    proof {
        assert(v@.take(v@.len() as int) =~= v@);
    }
}

/// `module_instantiation ::= module_identifier [ parameter_value_assignment ]
/// hierarchical_instance { "," hierarchical_instance } ";"`
#[verifier::opaque]
pub open spec fn spec_module_instantiation(inp: Input, pos: int, nest: Nesting) -> Parsed {
    let a = spec_identifier(inp, pos);
    let b = optional(spec_parameter_value_assignment(inp, rest(a), nest), rest(a));
    let c0 = spec_hierarchical_instance(inp, rest(b), nest);
    let c1 = spec_hierarchical_instance_tail(inp, rest(c0), nest);
    let c = list(c0, c1);
    let d = spec_symbol(inp, rest(c), ";");
    seq4(a, b, c, d)
}

/// Parses a `module_instantiation` at `pos`.
pub fn module_instantiation(ctx: &mut Parser, pos: usize, depth: usize) -> (r: Result<
    (usize, ModuleInstantiation),
    Failure,
>)
    requires
        old(ctx).wf(),
        pos <= old(ctx).input().src.len(),
    ensures
        final(ctx).wf(),
        final(ctx).input() == old(ctx).input(),
        lift(r, |n: ModuleInstantiation| n.tree()) == spec_module_instantiation(
            old(ctx).input(),
            pos as int,
            nesting(old(ctx).input(), depth as nat),
        ),
        well_spanned(
            spec_module_instantiation(
                old(ctx).input(),
                pos as int,
                nesting(old(ctx).input(), depth as nat),
            ),
            pos as int,
            old(ctx).input().src.len() as int,
        ),
{
    proof {
        reveal(spec_module_instantiation);
        reveal(ModuleInstantiation::tree);
    }
    let p = pos;
    let (p, a) = identifier(ctx, p)?;
    let (p, b) = opt(parameter_value_assignment(ctx, p, depth), p)?;
    let (p, c0) = hierarchical_instance(ctx, p, depth)?;
    let (p, c1) = hierarchical_instance_tail(ctx, p, depth)?;
    let c = List { nodes: (c0, c1) };
    let (p, d) = symbol(ctx, p, ";")?;
    Ok((p, ModuleInstantiation { nodes: (a, b, c, d) }))
}

/// `parameter_value_assignment ::= "#" "(" [ list_of_parameter_assignments ] ")"`
#[verifier::opaque]
pub open spec fn spec_parameter_value_assignment(inp: Input, pos: int, nest: Nesting) -> Parsed {
    let a = spec_symbol(inp, pos, "#");
    let b0 = spec_symbol(inp, rest(a), "(");
    let b1 = optional(spec_list_of_parameter_assignments(inp, rest(b0), nest), rest(b0));
    let b2 = spec_symbol(inp, rest(b1), ")");
    let b = delimited(b0, b1, b2);
    seq2(a, b)
}

/// Parses a `parameter_value_assignment` at `pos`.
pub fn parameter_value_assignment(ctx: &mut Parser, pos: usize, depth: usize) -> (r: Result<
    (usize, ParameterValueAssignment),
    Failure,
>)
    requires
        old(ctx).wf(),
        pos <= old(ctx).input().src.len(),
    ensures
        final(ctx).wf(),
        final(ctx).input() == old(ctx).input(),
        lift(r, |n: ParameterValueAssignment| n.tree()) == spec_parameter_value_assignment(
            old(ctx).input(),
            pos as int,
            nesting(old(ctx).input(), depth as nat),
        ),
        well_spanned(
            spec_parameter_value_assignment(
                old(ctx).input(),
                pos as int,
                nesting(old(ctx).input(), depth as nat),
            ),
            pos as int,
            old(ctx).input().src.len() as int,
        ),
{
    proof {
        reveal(spec_parameter_value_assignment);
        reveal(ParameterValueAssignment::tree);
    }
    let p = pos;
    let (p, a) = symbol(ctx, p, "#")?;
    let (p, b0) = symbol(ctx, p, "(")?;
    let (p, b1) = opt(list_of_parameter_assignments(ctx, p, depth), p)?;
    let (p, b2) = symbol(ctx, p, ")")?;
    let b = Paren { nodes: (b0, b1, b2) };
    Ok((p, ParameterValueAssignment { nodes: (a, b) }))
}

/// `list_of_parameter_assignments ::= list_of_parameter_assignments_ordered |
/// list_of_parameter_assignments_named`
#[verifier::opaque]
pub open spec fn spec_list_of_parameter_assignments(inp: Input, pos: int, nest: Nesting) -> Parsed {
    let r = spec_list_of_parameter_assignments_ordered(inp, pos, nest);
    let r = or_else(r, spec_list_of_parameter_assignments_named(inp, pos, nest));
    r
}

/// Parses a `list_of_parameter_assignments` at `pos`: the first alternative that
/// matches.
pub fn list_of_parameter_assignments(ctx: &mut Parser, pos: usize, depth: usize) -> (r: Result<
    (usize, ListOfParameterAssignments),
    Failure,
>)
    requires
        old(ctx).wf(),
        pos <= old(ctx).input().src.len(),
    ensures
        final(ctx).wf(),
        final(ctx).input() == old(ctx).input(),
        lift(r, |n: ListOfParameterAssignments| n.tree()) == spec_list_of_parameter_assignments(
            old(ctx).input(),
            pos as int,
            nesting(old(ctx).input(), depth as nat),
        ),
        well_spanned(
            spec_list_of_parameter_assignments(
                old(ctx).input(),
                pos as int,
                nesting(old(ctx).input(), depth as nat),
            ),
            pos as int,
            old(ctx).input().src.len() as int,
        ),
{
    proof {
        reveal(spec_list_of_parameter_assignments);
        reveal(ListOfParameterAssignments::tree);
    }
    let e = match list_of_parameter_assignments_ordered(ctx, pos, depth) {
        Ok(x) => return Ok(x),
        Err(e) => e,
    };
    if e.committed {
        return Err(e);
    }
    let e = match list_of_parameter_assignments_named(ctx, pos, depth) {
        Ok(x) => return Ok(x),
        Err(f) => if f.committed {
            return Err(f);
        } else {
            e.or_deeper(f)
        },
    };
    Err(e)
}

/// `list_of_parameter_assignments_ordered ::= ordered_parameter_assignment { ","
/// ordered_parameter_assignment }`
#[verifier::opaque]
pub open spec fn spec_list_of_parameter_assignments_ordered(
    inp: Input,
    pos: int,
    nest: Nesting,
) -> Parsed {
    let a0 = spec_ordered_parameter_assignment(inp, pos, nest);
    let a1 = spec_ordered_parameter_assignment_tail(inp, rest(a0), nest);
    let a = list(a0, a1);
    variant(0, seq1(a))
}

/// Parses a `list_of_parameter_assignments_ordered` at `pos`.
pub fn list_of_parameter_assignments_ordered(
    ctx: &mut Parser,
    pos: usize,
    depth: usize,
) -> (r: Result<
    (usize, ListOfParameterAssignments),
    Failure,
>)
    requires
        old(ctx).wf(),
        pos <= old(ctx).input().src.len(),
    ensures
        final(ctx).wf(),
        final(ctx).input() == old(ctx).input(),
        lift(r, |n: ListOfParameterAssignments| n.tree())
            == spec_list_of_parameter_assignments_ordered(
                old(ctx).input(),
                pos as int,
                nesting(old(ctx).input(), depth as nat),
            ),
        well_spanned(
            spec_list_of_parameter_assignments_ordered(
                old(ctx).input(),
                pos as int,
                nesting(old(ctx).input(), depth as nat),
            ),
            pos as int,
            old(ctx).input().src.len() as int,
        ),
{
    proof {
        reveal(spec_list_of_parameter_assignments_ordered);
        reveal(ListOfParameterAssignmentsOrdered::tree);
        reveal(ListOfParameterAssignments::tree);
    }
    let p = pos;
    let (p, a0) = ordered_parameter_assignment(ctx, p, depth)?;
    let (p, a1) = ordered_parameter_assignment_tail(ctx, p, depth)?;
    let a = List { nodes: (a0, a1) };
    Ok(
        (
            p,
            ListOfParameterAssignments::Ordered(
                Box::new(ListOfParameterAssignmentsOrdered { nodes: (a,) }),
            ),
        ),
    )
}

/// `list_of_parameter_assignments_named ::= named_parameter_assignment { ","
/// named_parameter_assignment }`
#[verifier::opaque]
pub open spec fn spec_list_of_parameter_assignments_named(
    inp: Input,
    pos: int,
    nest: Nesting,
) -> Parsed {
    let a0 = spec_named_parameter_assignment(inp, pos, nest);
    let a1 = spec_named_parameter_assignment_tail(inp, rest(a0), nest);
    let a = list(a0, a1);
    variant(1, seq1(a))
}

/// Parses a `list_of_parameter_assignments_named` at `pos`.
pub fn list_of_parameter_assignments_named(
    ctx: &mut Parser,
    pos: usize,
    depth: usize,
) -> (r: Result<
    (usize, ListOfParameterAssignments),
    Failure,
>)
    requires
        old(ctx).wf(),
        pos <= old(ctx).input().src.len(),
    ensures
        final(ctx).wf(),
        final(ctx).input() == old(ctx).input(),
        lift(r, |n: ListOfParameterAssignments| n.tree())
            == spec_list_of_parameter_assignments_named(
                old(ctx).input(),
                pos as int,
                nesting(old(ctx).input(), depth as nat),
            ),
        well_spanned(
            spec_list_of_parameter_assignments_named(
                old(ctx).input(),
                pos as int,
                nesting(old(ctx).input(), depth as nat),
            ),
            pos as int,
            old(ctx).input().src.len() as int,
        ),
{
    proof {
        reveal(spec_list_of_parameter_assignments_named);
        reveal(ListOfParameterAssignmentsNamed::tree);
        reveal(ListOfParameterAssignments::tree);
    }
    let p = pos;
    let (p, a0) = named_parameter_assignment(ctx, p, depth)?;
    let (p, a1) = named_parameter_assignment_tail(ctx, p, depth)?;
    let a = List { nodes: (a0, a1) };
    Ok(
        (
            p,
            ListOfParameterAssignments::Named(
                Box::new(ListOfParameterAssignmentsNamed { nodes: (a,) }),
            ),
        ),
    )
}

/// `ordered_parameter_assignment ::= param_expression`
#[verifier::opaque]
pub open spec fn spec_ordered_parameter_assignment(inp: Input, pos: int, nest: Nesting) -> Parsed {
    let a = spec_param_expression(inp, pos, nest);
    seq1(a)
}

/// Parses a `ordered_parameter_assignment` at `pos`.
pub fn ordered_parameter_assignment(ctx: &mut Parser, pos: usize, depth: usize) -> (r: Result<
    (usize, OrderedParameterAssignment),
    Failure,
>)
    requires
        old(ctx).wf(),
        pos <= old(ctx).input().src.len(),
    ensures
        final(ctx).wf(),
        final(ctx).input() == old(ctx).input(),
        lift(r, |n: OrderedParameterAssignment| n.tree()) == spec_ordered_parameter_assignment(
            old(ctx).input(),
            pos as int,
            nesting(old(ctx).input(), depth as nat),
        ),
        well_spanned(
            spec_ordered_parameter_assignment(
                old(ctx).input(),
                pos as int,
                nesting(old(ctx).input(), depth as nat),
            ),
            pos as int,
            old(ctx).input().src.len() as int,
        ),
{
    proof {
        reveal(spec_ordered_parameter_assignment);
        reveal(OrderedParameterAssignment::tree);
    }
    let p = pos;
    let (p, a) = param_expression(ctx, p, depth)?;
    Ok((p, OrderedParameterAssignment { nodes: (a,) }))
}

/// `named_parameter_assignment ::= "." parameter_identifier "(" [ param_expression ]
/// ")"`
#[verifier::opaque]
pub open spec fn spec_named_parameter_assignment(inp: Input, pos: int, nest: Nesting) -> Parsed {
    let a = spec_symbol(inp, pos, ".");
    let b = spec_identifier(inp, rest(a));
    let c0 = spec_symbol(inp, rest(b), "(");
    let c1 = optional(spec_param_expression(inp, rest(c0), nest), rest(c0));
    let c2 = spec_symbol(inp, rest(c1), ")");
    let c = delimited(c0, c1, c2);
    seq3(a, b, c)
}

/// Parses a `named_parameter_assignment` at `pos`.
pub fn named_parameter_assignment(ctx: &mut Parser, pos: usize, depth: usize) -> (r: Result<
    (usize, NamedParameterAssignment),
    Failure,
>)
    requires
        old(ctx).wf(),
        pos <= old(ctx).input().src.len(),
    ensures
        final(ctx).wf(),
        final(ctx).input() == old(ctx).input(),
        lift(r, |n: NamedParameterAssignment| n.tree()) == spec_named_parameter_assignment(
            old(ctx).input(),
            pos as int,
            nesting(old(ctx).input(), depth as nat),
        ),
        well_spanned(
            spec_named_parameter_assignment(
                old(ctx).input(),
                pos as int,
                nesting(old(ctx).input(), depth as nat),
            ),
            pos as int,
            old(ctx).input().src.len() as int,
        ),
{
    proof {
        reveal(spec_named_parameter_assignment);
        reveal(NamedParameterAssignment::tree);
    }
    let p = pos;
    let (p, a) = symbol(ctx, p, ".")?;
    let (p, b) = identifier(ctx, p)?;
    let (p, c0) = symbol(ctx, p, "(")?;
    let (p, c1) = opt(param_expression(ctx, p, depth), p)?;
    let (p, c2) = symbol(ctx, p, ")")?;
    let c = Paren { nodes: (c0, c1, c2) };
    Ok((p, NamedParameterAssignment { nodes: (a, b, c) }))
}

/// `hierarchical_instance ::= name_of_instance "(" [ list_of_port_connections ] ")"`
#[verifier::opaque]
pub open spec fn spec_hierarchical_instance(inp: Input, pos: int, nest: Nesting) -> Parsed {
    let a = spec_name_of_instance(inp, pos, nest);
    let b0 = spec_symbol(inp, rest(a), "(");
    let b1 = optional(spec_list_of_port_connections(inp, rest(b0), nest), rest(b0));
    let b2 = spec_symbol(inp, rest(b1), ")");
    let b = delimited(b0, b1, b2);
    seq2(a, b)
}

/// Parses a `hierarchical_instance` at `pos`.
pub fn hierarchical_instance(ctx: &mut Parser, pos: usize, depth: usize) -> (r: Result<
    (usize, HierarchicalInstance),
    Failure,
>)
    requires
        old(ctx).wf(),
        pos <= old(ctx).input().src.len(),
    ensures
        final(ctx).wf(),
        final(ctx).input() == old(ctx).input(),
        lift(r, |n: HierarchicalInstance| n.tree()) == spec_hierarchical_instance(
            old(ctx).input(),
            pos as int,
            nesting(old(ctx).input(), depth as nat),
        ),
        well_spanned(
            spec_hierarchical_instance(
                old(ctx).input(),
                pos as int,
                nesting(old(ctx).input(), depth as nat),
            ),
            pos as int,
            old(ctx).input().src.len() as int,
        ),
{
    proof {
        reveal(spec_hierarchical_instance);
        reveal(HierarchicalInstance::tree);
    }
    let p = pos;
    let (p, a) = name_of_instance(ctx, p, depth)?;
    let (p, b0) = symbol(ctx, p, "(")?;
    let (p, b1) = opt(list_of_port_connections(ctx, p, depth), p)?;
    let (p, b2) = symbol(ctx, p, ")")?;
    let b = Paren { nodes: (b0, b1, b2) };
    Ok((p, HierarchicalInstance { nodes: (a, b) }))
}

/// `name_of_instance ::= instance_identifier { unpacked_dimension }`
#[verifier::opaque]
pub open spec fn spec_name_of_instance(inp: Input, pos: int, nest: Nesting) -> Parsed {
    let a = spec_identifier(inp, pos);
    let b = spec_many_unpacked_dimension(inp, rest(a), nest);
    seq2(a, b)
}

/// Parses a `name_of_instance` at `pos`.
pub fn name_of_instance(ctx: &mut Parser, pos: usize, depth: usize) -> (r: Result<
    (usize, NameOfInstance),
    Failure,
>)
    requires
        old(ctx).wf(),
        pos <= old(ctx).input().src.len(),
    ensures
        final(ctx).wf(),
        final(ctx).input() == old(ctx).input(),
        lift(r, |n: NameOfInstance| n.tree()) == spec_name_of_instance(
            old(ctx).input(),
            pos as int,
            nesting(old(ctx).input(), depth as nat),
        ),
        well_spanned(
            spec_name_of_instance(
                old(ctx).input(),
                pos as int,
                nesting(old(ctx).input(), depth as nat),
            ),
            pos as int,
            old(ctx).input().src.len() as int,
        ),
{
    proof {
        reveal(spec_name_of_instance);
        reveal(NameOfInstance::tree);
    }
    let p = pos;
    let (p, a) = identifier(ctx, p)?;
    let (p, b) = many_unpacked_dimension(ctx, p, depth)?;
    Ok((p, NameOfInstance { nodes: (a, b) }))
}

/// `list_of_port_connections ::= list_of_port_connections_named |
/// list_of_port_connections_ordered` A connection by position may be empty and so
/// matches anywhere: the connections by name are tried first.
#[verifier::opaque]
pub open spec fn spec_list_of_port_connections(inp: Input, pos: int, nest: Nesting) -> Parsed {
    let r = spec_list_of_port_connections_named(inp, pos, nest);
    let r = or_else(r, spec_list_of_port_connections_ordered(inp, pos, nest));
    r
}

/// Parses a `list_of_port_connections` at `pos`: the first alternative that matches.
pub fn list_of_port_connections(ctx: &mut Parser, pos: usize, depth: usize) -> (r: Result<
    (usize, ListOfPortConnections),
    Failure,
>)
    requires
        old(ctx).wf(),
        pos <= old(ctx).input().src.len(),
    ensures
        final(ctx).wf(),
        final(ctx).input() == old(ctx).input(),
        lift(r, |n: ListOfPortConnections| n.tree()) == spec_list_of_port_connections(
            old(ctx).input(),
            pos as int,
            nesting(old(ctx).input(), depth as nat),
        ),
        well_spanned(
            spec_list_of_port_connections(
                old(ctx).input(),
                pos as int,
                nesting(old(ctx).input(), depth as nat),
            ),
            pos as int,
            old(ctx).input().src.len() as int,
        ),
{
    proof {
        reveal(spec_list_of_port_connections);
        reveal(ListOfPortConnections::tree);
    }
    let e = match list_of_port_connections_named(ctx, pos, depth) {
        Ok(x) => return Ok(x),
        Err(e) => e,
    };
    if e.committed {
        return Err(e);
    }
    let e = match list_of_port_connections_ordered(ctx, pos, depth) {
        Ok(x) => return Ok(x),
        Err(f) => if f.committed {
            return Err(f);
        } else {
            e.or_deeper(f)
        },
    };
    Err(e)
}

/// `list_of_port_connections_ordered ::= ordered_port_connection { ","
/// ordered_port_connection }`
#[verifier::opaque]
pub open spec fn spec_list_of_port_connections_ordered(
    inp: Input,
    pos: int,
    nest: Nesting,
) -> Parsed {
    let a0 = spec_ordered_port_connection(inp, pos, nest);
    let a1 = spec_ordered_port_connection_tail(inp, rest(a0), nest);
    let a = list(a0, a1);
    variant(0, seq1(a))
}

/// Parses a `list_of_port_connections_ordered` at `pos`.
pub fn list_of_port_connections_ordered(ctx: &mut Parser, pos: usize, depth: usize) -> (r: Result<
    (usize, ListOfPortConnections),
    Failure,
>)
    requires
        old(ctx).wf(),
        pos <= old(ctx).input().src.len(),
    ensures
        final(ctx).wf(),
        final(ctx).input() == old(ctx).input(),
        lift(r, |n: ListOfPortConnections| n.tree()) == spec_list_of_port_connections_ordered(
            old(ctx).input(),
            pos as int,
            nesting(old(ctx).input(), depth as nat),
        ),
        well_spanned(
            spec_list_of_port_connections_ordered(
                old(ctx).input(),
                pos as int,
                nesting(old(ctx).input(), depth as nat),
            ),
            pos as int,
            old(ctx).input().src.len() as int,
        ),
{
    proof {
        reveal(spec_list_of_port_connections_ordered);
        reveal(ListOfPortConnectionsOrdered::tree);
        reveal(ListOfPortConnections::tree);
    }
    let p = pos;
    let (p, a0) = ordered_port_connection(ctx, p, depth)?;
    let (p, a1) = ordered_port_connection_tail(ctx, p, depth)?;
    let a = List { nodes: (a0, a1) };
    Ok((p, ListOfPortConnections::Ordered(Box::new(ListOfPortConnectionsOrdered { nodes: (a,) }))))
}

/// `list_of_port_connections_named ::= named_port_connection { ","
/// named_port_connection }`
#[verifier::opaque]
pub open spec fn spec_list_of_port_connections_named(
    inp: Input,
    pos: int,
    nest: Nesting,
) -> Parsed {
    let a0 = spec_named_port_connection(inp, pos, nest);
    let a1 = spec_named_port_connection_tail(inp, rest(a0), nest);
    let a = list(a0, a1);
    variant(1, seq1(a))
}

/// Parses a `list_of_port_connections_named` at `pos`.
pub fn list_of_port_connections_named(ctx: &mut Parser, pos: usize, depth: usize) -> (r: Result<
    (usize, ListOfPortConnections),
    Failure,
>)
    requires
        old(ctx).wf(),
        pos <= old(ctx).input().src.len(),
    ensures
        final(ctx).wf(),
        final(ctx).input() == old(ctx).input(),
        lift(r, |n: ListOfPortConnections| n.tree()) == spec_list_of_port_connections_named(
            old(ctx).input(),
            pos as int,
            nesting(old(ctx).input(), depth as nat),
        ),
        well_spanned(
            spec_list_of_port_connections_named(
                old(ctx).input(),
                pos as int,
                nesting(old(ctx).input(), depth as nat),
            ),
            pos as int,
            old(ctx).input().src.len() as int,
        ),
{
    proof {
        reveal(spec_list_of_port_connections_named);
        reveal(ListOfPortConnectionsNamed::tree);
        reveal(ListOfPortConnections::tree);
    }
    let p = pos;
    let (p, a0) = named_port_connection(ctx, p, depth)?;
    let (p, a1) = named_port_connection_tail(ctx, p, depth)?;
    let a = List { nodes: (a0, a1) };
    Ok((p, ListOfPortConnections::Named(Box::new(ListOfPortConnectionsNamed { nodes: (a,) }))))
}

/// `ordered_port_connection ::= { attribute_instance } [ expression ]`
#[verifier::opaque]
pub open spec fn spec_ordered_port_connection(inp: Input, pos: int, nest: Nesting) -> Parsed {
    let a = spec_many_attribute_instance(inp, pos, nest);
    let b = optional((nest.expression)(rest(a)), rest(a));
    seq2(a, b)
}

/// Parses a `ordered_port_connection` at `pos`.
pub fn ordered_port_connection(ctx: &mut Parser, pos: usize, depth: usize) -> (r: Result<
    (usize, OrderedPortConnection),
    Failure,
>)
    requires
        old(ctx).wf(),
        pos <= old(ctx).input().src.len(),
    ensures
        final(ctx).wf(),
        final(ctx).input() == old(ctx).input(),
        lift(r, |n: OrderedPortConnection| n.tree()) == spec_ordered_port_connection(
            old(ctx).input(),
            pos as int,
            nesting(old(ctx).input(), depth as nat),
        ),
        well_spanned(
            spec_ordered_port_connection(
                old(ctx).input(),
                pos as int,
                nesting(old(ctx).input(), depth as nat),
            ),
            pos as int,
            old(ctx).input().src.len() as int,
        ),
{
    proof {
        reveal(spec_ordered_port_connection);
        reveal(OrderedPortConnection::tree);
    }
    let p = pos;
    let (p, a) = many_attribute_instance(ctx, p, depth)?;
    let (p, b) = opt(expression(ctx, p, depth), p)?;
    Ok((p, OrderedPortConnection { nodes: (a, b) }))
}

/// `named_port_connection ::= named_port_connection_identifier |
/// named_port_connection_asterisk`
#[verifier::opaque]
pub open spec fn spec_named_port_connection(inp: Input, pos: int, nest: Nesting) -> Parsed {
    let r = spec_named_port_connection_identifier(inp, pos, nest);
    let r = or_else(r, spec_named_port_connection_asterisk(inp, pos, nest));
    r
}

/// Parses a `named_port_connection` at `pos`: the first alternative that matches.
pub fn named_port_connection(ctx: &mut Parser, pos: usize, depth: usize) -> (r: Result<
    (usize, NamedPortConnection),
    Failure,
>)
    requires
        old(ctx).wf(),
        pos <= old(ctx).input().src.len(),
    ensures
        final(ctx).wf(),
        final(ctx).input() == old(ctx).input(),
        lift(r, |n: NamedPortConnection| n.tree()) == spec_named_port_connection(
            old(ctx).input(),
            pos as int,
            nesting(old(ctx).input(), depth as nat),
        ),
        well_spanned(
            spec_named_port_connection(
                old(ctx).input(),
                pos as int,
                nesting(old(ctx).input(), depth as nat),
            ),
            pos as int,
            old(ctx).input().src.len() as int,
        ),
{
    proof {
        reveal(spec_named_port_connection);
        reveal(NamedPortConnection::tree);
    }
    let e = match named_port_connection_identifier(ctx, pos, depth) {
        Ok(x) => return Ok(x),
        Err(e) => e,
    };
    if e.committed {
        return Err(e);
    }
    let e = match named_port_connection_asterisk(ctx, pos, depth) {
        Ok(x) => return Ok(x),
        Err(f) => if f.committed {
            return Err(f);
        } else {
            e.or_deeper(f)
        },
    };
    Err(e)
}

/// `port_expression ::= "(" [ expression ] ")"`
#[verifier::opaque]
pub open spec fn spec_port_expression(inp: Input, pos: int, nest: Nesting) -> Parsed {
    let a0 = spec_symbol(inp, pos, "(");
    let a1 = optional((nest.expression)(rest(a0)), rest(a0));
    let a2 = spec_symbol(inp, rest(a1), ")");
    delimited(a0, a1, a2)
}

/// Parses a `port_expression` at `pos`.
pub fn port_expression(ctx: &mut Parser, pos: usize, depth: usize) -> (r: Result<
    (usize, PortExpression),
    Failure,
>)
    requires
        old(ctx).wf(),
        pos <= old(ctx).input().src.len(),
    ensures
        final(ctx).wf(),
        final(ctx).input() == old(ctx).input(),
        lift(r, |n: PortExpression| port_expression_tree(n)) == spec_port_expression(
            old(ctx).input(),
            pos as int,
            nesting(old(ctx).input(), depth as nat),
        ),
        well_spanned(
            spec_port_expression(
                old(ctx).input(),
                pos as int,
                nesting(old(ctx).input(), depth as nat),
            ),
            pos as int,
            old(ctx).input().src.len() as int,
        ),
{
    proof {
        reveal(spec_port_expression);
        reveal(port_expression_tree);
    }
    let p = pos;
    let (p, a0) = symbol(ctx, p, "(")?;
    let (p, a1) = opt(expression(ctx, p, depth), p)?;
    let (p, a2) = symbol(ctx, p, ")")?;
    let a = Paren { nodes: (a0, a1, a2) };
    Ok((p, a))
}

/// `named_port_connection_identifier ::= { attribute_instance } "." port_identifier [
/// port_expression ]`
#[verifier::opaque]
pub open spec fn spec_named_port_connection_identifier(
    inp: Input,
    pos: int,
    nest: Nesting,
) -> Parsed {
    let a = spec_many_attribute_instance(inp, pos, nest);
    let b = spec_symbol(inp, rest(a), ".");
    let c = spec_identifier(inp, rest(b));
    let d = optional(spec_port_expression(inp, rest(c), nest), rest(c));
    variant(0, seq4(a, b, c, d))
}

/// Parses a `named_port_connection_identifier` at `pos`.
pub fn named_port_connection_identifier(ctx: &mut Parser, pos: usize, depth: usize) -> (r: Result<
    (usize, NamedPortConnection),
    Failure,
>)
    requires
        old(ctx).wf(),
        pos <= old(ctx).input().src.len(),
    ensures
        final(ctx).wf(),
        final(ctx).input() == old(ctx).input(),
        lift(r, |n: NamedPortConnection| n.tree()) == spec_named_port_connection_identifier(
            old(ctx).input(),
            pos as int,
            nesting(old(ctx).input(), depth as nat),
        ),
        well_spanned(
            spec_named_port_connection_identifier(
                old(ctx).input(),
                pos as int,
                nesting(old(ctx).input(), depth as nat),
            ),
            pos as int,
            old(ctx).input().src.len() as int,
        ),
{
    proof {
        reveal(spec_named_port_connection_identifier);
        reveal(NamedPortConnectionIdentifier::tree);
        reveal(NamedPortConnection::tree);
    }
    let p = pos;
    let (p, a) = many_attribute_instance(ctx, p, depth)?;
    let (p, b) = symbol(ctx, p, ".")?;
    let (p, c) = identifier(ctx, p)?;
    let (p, d) = opt(port_expression(ctx, p, depth), p)?;
    Ok(
        (
            p,
            NamedPortConnection::Identifier(
                Box::new(NamedPortConnectionIdentifier { nodes: (a, b, c, d) }),
            ),
        ),
    )
}

/// `named_port_connection_asterisk ::= { attribute_instance } ".*"`
#[verifier::opaque]
pub open spec fn spec_named_port_connection_asterisk(
    inp: Input,
    pos: int,
    nest: Nesting,
) -> Parsed {
    let a = spec_many_attribute_instance(inp, pos, nest);
    let b = spec_symbol(inp, rest(a), ".*");
    variant(1, seq2(a, b))
}

/// Parses a `named_port_connection_asterisk` at `pos`.
pub fn named_port_connection_asterisk(ctx: &mut Parser, pos: usize, depth: usize) -> (r: Result<
    (usize, NamedPortConnection),
    Failure,
>)
    requires
        old(ctx).wf(),
        pos <= old(ctx).input().src.len(),
    ensures
        final(ctx).wf(),
        final(ctx).input() == old(ctx).input(),
        lift(r, |n: NamedPortConnection| n.tree()) == spec_named_port_connection_asterisk(
            old(ctx).input(),
            pos as int,
            nesting(old(ctx).input(), depth as nat),
        ),
        well_spanned(
            spec_named_port_connection_asterisk(
                old(ctx).input(),
                pos as int,
                nesting(old(ctx).input(), depth as nat),
            ),
            pos as int,
            old(ctx).input().src.len() as int,
        ),
{
    proof {
        reveal(spec_named_port_connection_asterisk);
        reveal(NamedPortConnectionAsterisk::tree);
        reveal(NamedPortConnection::tree);
    }
    let p = pos;
    let (p, a) = many_attribute_instance(ctx, p, depth)?;
    let (p, b) = symbol(ctx, p, ".*")?;
    Ok((p, NamedPortConnection::Asterisk(Box::new(NamedPortConnectionAsterisk { nodes: (a, b) }))))
}

/// `hierarchical_instance_tail ::= { "," hierarchical_instance }` Stops before the
/// first item that does not match, or that matches nothing.
#[verifier::opaque]
pub open spec fn spec_hierarchical_instance_tail(inp: Input, pos: int, nest: Nesting) -> Parsed
    decreases inp.src.len() - pos,
{
    let a = spec_symbol(inp, pos, ",");
    let b = spec_hierarchical_instance(inp, rest(a), nest);
    match seq2(a, b) {
        Ok((p, t)) => if pos < p <= inp.src.len() {
            prepend(t, spec_hierarchical_instance_tail(inp, p, nest))
        } else {
            no_more(pos)
        },
        Err(e) => if e.committed {
            Err(e)
        } else {
            no_more(pos)
        },
    }
}

/// Parses as many items as match at `pos`, one after the other: `{ ","
/// hierarchical_instance }`.
pub fn hierarchical_instance_tail(ctx: &mut Parser, pos: usize, depth: usize) -> (r: Result<
    (usize, Vec<(Symbol, HierarchicalInstance)>),
    Failure,
>)
    requires
        old(ctx).wf(),
        pos <= old(ctx).input().src.len(),
    ensures
        final(ctx).wf(),
        final(ctx).input() == old(ctx).input(),
        lift(
            r,
            |n: Vec<(Symbol, HierarchicalInstance)>| Tree::Repeat(
                hierarchical_instance_tail_trees(n@),
            ),
        )
            == spec_hierarchical_instance_tail(
                old(ctx).input(),
                pos as int,
                nesting(old(ctx).input(), depth as nat),
            ),
        well_spanned(
            spec_hierarchical_instance_tail(
                old(ctx).input(),
                pos as int,
                nesting(old(ctx).input(), depth as nat),
            ),
            pos as int,
            old(ctx).input().src.len() as int,
        ),
{
    proof {
        reveal(spec_hierarchical_instance_tail);
    }
    let ghost inp = ctx.input();
    let mut items: Vec<(Symbol, HierarchicalInstance)> = Vec::new();
    let mut cur: usize = pos;
    proof {
        lemma_append_empty(
            spec_hierarchical_instance_tail(inp, pos as int, nesting(inp, depth as nat)),
        );
        lemma_hierarchical_instance_tail_trees_empty();
    }
    loop
        invariant
            ctx.wf(),
            ctx.input() == inp,
            inp == old(ctx).input(),
            pos <= cur <= inp.src.len(),
            spec_hierarchical_instance_tail(inp, pos as int, nesting(inp, depth as nat)) == append(
                hierarchical_instance_tail_trees(items@),
                spec_hierarchical_instance_tail(inp, cur as int, nesting(inp, depth as nat)),
            ),
            tiled(Tree::Repeat(hierarchical_instance_tail_trees(items@)), pos as int),
            cur == pos + width(Tree::Repeat(hierarchical_instance_tail_trees(items@))),
        decreases inp.src.len() - cur,
    {
        proof {
            reveal(spec_hierarchical_instance_tail);
        }
        let (q, s) = match symbol(ctx, cur, ",") {
            Ok(found) => found,
            Err(e) => {
                if e.committed {
                    return Err(e);
                }
                proof {
                    lemma_append_no_more(hierarchical_instance_tail_trees(items@), cur as int);
                }
                return Ok((cur, items));
            },
        };
        let (p, y) = match hierarchical_instance(ctx, q, depth) {
            Ok(found) => found,
            Err(e) => {
                if e.committed {
                    return Err(e);
                }
                proof {
                    lemma_append_no_more(hierarchical_instance_tail_trees(items@), cur as int);
                }
                return Ok((cur, items));
            },
        };
        let x = (s, y);
        if p <= cur {
            proof {
                lemma_append_no_more(hierarchical_instance_tail_trees(items@), cur as int);
            }
            return Ok((cur, items));
        }
        proof {
            lemma_append_prepend(
                hierarchical_instance_tail_trees(items@),
                separated(x.0.tree(), x.1.tree()),
                spec_hierarchical_instance_tail(inp, p as int, nesting(inp, depth as nat)),
            );
            lemma_hierarchical_instance_tail_trees_push(items@, x);
        }
        items.push(x);
        cur = p;
    }
}

/// `ordered_parameter_assignment_tail ::= { "," ordered_parameter_assignment }` Stops
/// before the first item that does not match, or that matches nothing.
#[verifier::opaque]
pub open spec fn spec_ordered_parameter_assignment_tail(
    inp: Input,
    pos: int,
    nest: Nesting,
) -> Parsed
    decreases inp.src.len() - pos,
{
    let a = spec_symbol(inp, pos, ",");
    let b = spec_ordered_parameter_assignment(inp, rest(a), nest);
    match seq2(a, b) {
        Ok((p, t)) => if pos < p <= inp.src.len() {
            prepend(t, spec_ordered_parameter_assignment_tail(inp, p, nest))
        } else {
            no_more(pos)
        },
        Err(e) => if e.committed {
            Err(e)
        } else {
            no_more(pos)
        },
    }
}

/// Parses as many items as match at `pos`, one after the other: `{ ","
/// ordered_parameter_assignment }`.
pub fn ordered_parameter_assignment_tail(ctx: &mut Parser, pos: usize, depth: usize) -> (r: Result<
    (usize, Vec<(Symbol, OrderedParameterAssignment)>),
    Failure,
>)
    requires
        old(ctx).wf(),
        pos <= old(ctx).input().src.len(),
    ensures
        final(ctx).wf(),
        final(ctx).input() == old(ctx).input(),
        lift(
            r,
            |n: Vec<(Symbol, OrderedParameterAssignment)>| Tree::Repeat(
                ordered_parameter_assignment_tail_trees(n@),
            ),
        )
            == spec_ordered_parameter_assignment_tail(
                old(ctx).input(),
                pos as int,
                nesting(old(ctx).input(), depth as nat),
            ),
        well_spanned(
            spec_ordered_parameter_assignment_tail(
                old(ctx).input(),
                pos as int,
                nesting(old(ctx).input(), depth as nat),
            ),
            pos as int,
            old(ctx).input().src.len() as int,
        ),
{
    proof {
        reveal(spec_ordered_parameter_assignment_tail);
    }
    let ghost inp = ctx.input();
    let mut items: Vec<(Symbol, OrderedParameterAssignment)> = Vec::new();
    let mut cur: usize = pos;
    proof {
        lemma_append_empty(
            spec_ordered_parameter_assignment_tail(inp, pos as int, nesting(inp, depth as nat)),
        );
        lemma_ordered_parameter_assignment_tail_trees_empty();
    }
    loop
        invariant
            ctx.wf(),
            ctx.input() == inp,
            inp == old(ctx).input(),
            pos <= cur <= inp.src.len(),
            spec_ordered_parameter_assignment_tail(inp, pos as int, nesting(inp, depth as nat))
                == append(
                    ordered_parameter_assignment_tail_trees(items@),
                    spec_ordered_parameter_assignment_tail(
                        inp,
                        cur as int,
                        nesting(inp, depth as nat),
                    ),
                ),
            tiled(Tree::Repeat(ordered_parameter_assignment_tail_trees(items@)), pos as int),
            cur == pos + width(Tree::Repeat(ordered_parameter_assignment_tail_trees(items@))),
        decreases inp.src.len() - cur,
    {
        proof {
            reveal(spec_ordered_parameter_assignment_tail);
        }
        let (q, s) = match symbol(ctx, cur, ",") {
            Ok(found) => found,
            Err(e) => {
                if e.committed {
                    return Err(e);
                }
                proof {
                    lemma_append_no_more(
                        ordered_parameter_assignment_tail_trees(items@),
                        cur as int,
                    );
                }
                return Ok((cur, items));
            },
        };
        let (p, y) = match ordered_parameter_assignment(ctx, q, depth) {
            Ok(found) => found,
            Err(e) => {
                if e.committed {
                    return Err(e);
                }
                proof {
                    lemma_append_no_more(
                        ordered_parameter_assignment_tail_trees(items@),
                        cur as int,
                    );
                }
                return Ok((cur, items));
            },
        };
        let x = (s, y);
        if p <= cur {
            proof {
                lemma_append_no_more(ordered_parameter_assignment_tail_trees(items@), cur as int);
            }
            return Ok((cur, items));
        }
        proof {
            lemma_append_prepend(
                ordered_parameter_assignment_tail_trees(items@),
                separated(x.0.tree(), x.1.tree()),
                spec_ordered_parameter_assignment_tail(inp, p as int, nesting(inp, depth as nat)),
            );
            lemma_ordered_parameter_assignment_tail_trees_push(items@, x);
        }
        items.push(x);
        cur = p;
    }
}

/// `named_parameter_assignment_tail ::= { "," named_parameter_assignment }` Stops
/// before the first item that does not match, or that matches nothing.
#[verifier::opaque]
pub open spec fn spec_named_parameter_assignment_tail(inp: Input, pos: int, nest: Nesting) -> Parsed
    decreases inp.src.len() - pos,
{
    let a = spec_symbol(inp, pos, ",");
    let b = spec_named_parameter_assignment(inp, rest(a), nest);
    match seq2(a, b) {
        Ok((p, t)) => if pos < p <= inp.src.len() {
            prepend(t, spec_named_parameter_assignment_tail(inp, p, nest))
        } else {
            no_more(pos)
        },
        Err(e) => if e.committed {
            Err(e)
        } else {
            no_more(pos)
        },
    }
}

/// Parses as many items as match at `pos`, one after the other: `{ ","
/// named_parameter_assignment }`.
pub fn named_parameter_assignment_tail(ctx: &mut Parser, pos: usize, depth: usize) -> (r: Result<
    (usize, Vec<(Symbol, NamedParameterAssignment)>),
    Failure,
>)
    requires
        old(ctx).wf(),
        pos <= old(ctx).input().src.len(),
    ensures
        final(ctx).wf(),
        final(ctx).input() == old(ctx).input(),
        lift(
            r,
            |n: Vec<(Symbol, NamedParameterAssignment)>| Tree::Repeat(
                named_parameter_assignment_tail_trees(n@),
            ),
        )
            == spec_named_parameter_assignment_tail(
                old(ctx).input(),
                pos as int,
                nesting(old(ctx).input(), depth as nat),
            ),
        well_spanned(
            spec_named_parameter_assignment_tail(
                old(ctx).input(),
                pos as int,
                nesting(old(ctx).input(), depth as nat),
            ),
            pos as int,
            old(ctx).input().src.len() as int,
        ),
{
    proof {
        reveal(spec_named_parameter_assignment_tail);
    }
    let ghost inp = ctx.input();
    let mut items: Vec<(Symbol, NamedParameterAssignment)> = Vec::new();
    let mut cur: usize = pos;
    proof {
        lemma_append_empty(
            spec_named_parameter_assignment_tail(inp, pos as int, nesting(inp, depth as nat)),
        );
        lemma_named_parameter_assignment_tail_trees_empty();
    }
    loop
        invariant
            ctx.wf(),
            ctx.input() == inp,
            inp == old(ctx).input(),
            pos <= cur <= inp.src.len(),
            spec_named_parameter_assignment_tail(inp, pos as int, nesting(inp, depth as nat))
                == append(
                    named_parameter_assignment_tail_trees(items@),
                    spec_named_parameter_assignment_tail(
                        inp,
                        cur as int,
                        nesting(inp, depth as nat),
                    ),
                ),
            tiled(Tree::Repeat(named_parameter_assignment_tail_trees(items@)), pos as int),
            cur == pos + width(Tree::Repeat(named_parameter_assignment_tail_trees(items@))),
        decreases inp.src.len() - cur,
    {
        proof {
            reveal(spec_named_parameter_assignment_tail);
        }
        let (q, s) = match symbol(ctx, cur, ",") {
            Ok(found) => found,
            Err(e) => {
                if e.committed {
                    return Err(e);
                }
                proof {
                    lemma_append_no_more(named_parameter_assignment_tail_trees(items@), cur as int);
                }
                return Ok((cur, items));
            },
        };
        let (p, y) = match named_parameter_assignment(ctx, q, depth) {
            Ok(found) => found,
            Err(e) => {
                if e.committed {
                    return Err(e);
                }
                proof {
                    lemma_append_no_more(named_parameter_assignment_tail_trees(items@), cur as int);
                }
                return Ok((cur, items));
            },
        };
        let x = (s, y);
        if p <= cur {
            proof {
                lemma_append_no_more(named_parameter_assignment_tail_trees(items@), cur as int);
            }
            return Ok((cur, items));
        }
        proof {
            lemma_append_prepend(
                named_parameter_assignment_tail_trees(items@),
                separated(x.0.tree(), x.1.tree()),
                spec_named_parameter_assignment_tail(inp, p as int, nesting(inp, depth as nat)),
            );
            lemma_named_parameter_assignment_tail_trees_push(items@, x);
        }
        items.push(x);
        cur = p;
    }
}

/// `ordered_port_connection_tail ::= { "," ordered_port_connection }` Stops before the
/// first item that does not match, or that matches nothing.
#[verifier::opaque]
pub open spec fn spec_ordered_port_connection_tail(inp: Input, pos: int, nest: Nesting) -> Parsed
    decreases inp.src.len() - pos,
{
    let a = spec_symbol(inp, pos, ",");
    let b = spec_ordered_port_connection(inp, rest(a), nest);
    match seq2(a, b) {
        Ok((p, t)) => if pos < p <= inp.src.len() {
            prepend(t, spec_ordered_port_connection_tail(inp, p, nest))
        } else {
            no_more(pos)
        },
        Err(e) => if e.committed {
            Err(e)
        } else {
            no_more(pos)
        },
    }
}

/// Parses as many items as match at `pos`, one after the other: `{ ","
/// ordered_port_connection }`.
pub fn ordered_port_connection_tail(ctx: &mut Parser, pos: usize, depth: usize) -> (r: Result<
    (usize, Vec<(Symbol, OrderedPortConnection)>),
    Failure,
>)
    requires
        old(ctx).wf(),
        pos <= old(ctx).input().src.len(),
    ensures
        final(ctx).wf(),
        final(ctx).input() == old(ctx).input(),
        lift(
            r,
            |n: Vec<(Symbol, OrderedPortConnection)>| Tree::Repeat(
                ordered_port_connection_tail_trees(n@),
            ),
        )
            == spec_ordered_port_connection_tail(
                old(ctx).input(),
                pos as int,
                nesting(old(ctx).input(), depth as nat),
            ),
        well_spanned(
            spec_ordered_port_connection_tail(
                old(ctx).input(),
                pos as int,
                nesting(old(ctx).input(), depth as nat),
            ),
            pos as int,
            old(ctx).input().src.len() as int,
        ),
{
    proof {
        reveal(spec_ordered_port_connection_tail);
    }
    let ghost inp = ctx.input();
    let mut items: Vec<(Symbol, OrderedPortConnection)> = Vec::new();
    let mut cur: usize = pos;
    proof {
        lemma_append_empty(
            spec_ordered_port_connection_tail(inp, pos as int, nesting(inp, depth as nat)),
        );
        lemma_ordered_port_connection_tail_trees_empty();
    }
    loop
        invariant
            ctx.wf(),
            ctx.input() == inp,
            inp == old(ctx).input(),
            pos <= cur <= inp.src.len(),
            spec_ordered_port_connection_tail(inp, pos as int, nesting(inp, depth as nat))
                == append(
                    ordered_port_connection_tail_trees(items@),
                    spec_ordered_port_connection_tail(inp, cur as int, nesting(inp, depth as nat)),
                ),
            tiled(Tree::Repeat(ordered_port_connection_tail_trees(items@)), pos as int),
            cur == pos + width(Tree::Repeat(ordered_port_connection_tail_trees(items@))),
        decreases inp.src.len() - cur,
    {
        proof {
            reveal(spec_ordered_port_connection_tail);
        }
        let (q, s) = match symbol(ctx, cur, ",") {
            Ok(found) => found,
            Err(e) => {
                if e.committed {
                    return Err(e);
                }
                proof {
                    lemma_append_no_more(ordered_port_connection_tail_trees(items@), cur as int);
                }
                return Ok((cur, items));
            },
        };
        let (p, y) = match ordered_port_connection(ctx, q, depth) {
            Ok(found) => found,
            Err(e) => {
                if e.committed {
                    return Err(e);
                }
                proof {
                    lemma_append_no_more(ordered_port_connection_tail_trees(items@), cur as int);
                }
                return Ok((cur, items));
            },
        };
        let x = (s, y);
        if p <= cur {
            proof {
                lemma_append_no_more(ordered_port_connection_tail_trees(items@), cur as int);
            }
            return Ok((cur, items));
        }
        proof {
            lemma_append_prepend(
                ordered_port_connection_tail_trees(items@),
                separated(x.0.tree(), x.1.tree()),
                spec_ordered_port_connection_tail(inp, p as int, nesting(inp, depth as nat)),
            );
            lemma_ordered_port_connection_tail_trees_push(items@, x);
        }
        items.push(x);
        cur = p;
    }
}

/// `named_port_connection_tail ::= { "," named_port_connection }` Stops before the
/// first item that does not match, or that matches nothing.
#[verifier::opaque]
pub open spec fn spec_named_port_connection_tail(inp: Input, pos: int, nest: Nesting) -> Parsed
    decreases inp.src.len() - pos,
{
    let a = spec_symbol(inp, pos, ",");
    let b = spec_named_port_connection(inp, rest(a), nest);
    match seq2(a, b) {
        Ok((p, t)) => if pos < p <= inp.src.len() {
            prepend(t, spec_named_port_connection_tail(inp, p, nest))
        } else {
            no_more(pos)
        },
        Err(e) => if e.committed {
            Err(e)
        } else {
            no_more(pos)
        },
    }
}

/// Parses as many items as match at `pos`, one after the other: `{ ","
/// named_port_connection }`.
pub fn named_port_connection_tail(ctx: &mut Parser, pos: usize, depth: usize) -> (r: Result<
    (usize, Vec<(Symbol, NamedPortConnection)>),
    Failure,
>)
    requires
        old(ctx).wf(),
        pos <= old(ctx).input().src.len(),
    ensures
        final(ctx).wf(),
        final(ctx).input() == old(ctx).input(),
        lift(
            r,
            |n: Vec<(Symbol, NamedPortConnection)>| Tree::Repeat(
                named_port_connection_tail_trees(n@),
            ),
        )
            == spec_named_port_connection_tail(
                old(ctx).input(),
                pos as int,
                nesting(old(ctx).input(), depth as nat),
            ),
        well_spanned(
            spec_named_port_connection_tail(
                old(ctx).input(),
                pos as int,
                nesting(old(ctx).input(), depth as nat),
            ),
            pos as int,
            old(ctx).input().src.len() as int,
        ),
{
    proof {
        reveal(spec_named_port_connection_tail);
    }
    let ghost inp = ctx.input();
    let mut items: Vec<(Symbol, NamedPortConnection)> = Vec::new();
    let mut cur: usize = pos;
    proof {
        lemma_append_empty(
            spec_named_port_connection_tail(inp, pos as int, nesting(inp, depth as nat)),
        );
        lemma_named_port_connection_tail_trees_empty();
    }
    loop
        invariant
            ctx.wf(),
            ctx.input() == inp,
            inp == old(ctx).input(),
            pos <= cur <= inp.src.len(),
            spec_named_port_connection_tail(inp, pos as int, nesting(inp, depth as nat)) == append(
                named_port_connection_tail_trees(items@),
                spec_named_port_connection_tail(inp, cur as int, nesting(inp, depth as nat)),
            ),
            tiled(Tree::Repeat(named_port_connection_tail_trees(items@)), pos as int),
            cur == pos + width(Tree::Repeat(named_port_connection_tail_trees(items@))),
        decreases inp.src.len() - cur,
    {
        proof {
            reveal(spec_named_port_connection_tail);
        }
        let (q, s) = match symbol(ctx, cur, ",") {
            Ok(found) => found,
            Err(e) => {
                if e.committed {
                    return Err(e);
                }
                proof {
                    lemma_append_no_more(named_port_connection_tail_trees(items@), cur as int);
                }
                return Ok((cur, items));
            },
        };
        let (p, y) = match named_port_connection(ctx, q, depth) {
            Ok(found) => found,
            Err(e) => {
                if e.committed {
                    return Err(e);
                }
                proof {
                    lemma_append_no_more(named_port_connection_tail_trees(items@), cur as int);
                }
                return Ok((cur, items));
            },
        };
        let x = (s, y);
        if p <= cur {
            proof {
                lemma_append_no_more(named_port_connection_tail_trees(items@), cur as int);
            }
            return Ok((cur, items));
        }
        proof {
            lemma_append_prepend(
                named_port_connection_tail_trees(items@),
                separated(x.0.tree(), x.1.tree()),
                spec_named_port_connection_tail(inp, p as int, nesting(inp, depth as nat)),
            );
            lemma_named_port_connection_tail_trees_push(items@, x);
        }
        items.push(x);
        cur = p;
    }
}

} // verus!
