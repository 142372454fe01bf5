//! Calls of tasks and functions.
use vstd::prelude::*;
use crate::combinator::Parsed;
use crate::combinator::delimited;
use crate::combinator::lift;
use crate::combinator::list;
use crate::combinator::opt;
use crate::combinator::optional;
use crate::combinator::or_else;
use crate::combinator::rest;
use crate::combinator::seq1;
use crate::combinator::seq2;
use crate::combinator::variant;
use crate::combinator::well_spanned;
use crate::context::Input;
use crate::context::Parser;
use crate::failure::Failure;
use crate::node::List;
use crate::node::Paren;
use crate::parser::expressions::expressions::Expression;
use crate::parser::expressions::expressions::clone_expression_tail_vec;
use crate::parser::expressions::expressions::expression;
use crate::parser::expressions::expressions::expression_tail;
use crate::parser::expressions::expressions::expression_tail_leaf_spans;
use crate::parser::expressions::expressions::expression_tail_trees;
use crate::parser::expressions::expressions::spec_expression_tail;
use crate::parser::general::identifiers::HierarchicalIdentifier;
use crate::parser::general::identifiers::hierarchical_identifier;
use crate::parser::general::identifiers::spec_hierarchical_identifier;
use crate::parser::nesting::Nesting;
use crate::parser::nesting::nesting;
use crate::span::Span;
use crate::token::Symbol;
use crate::token::SystemTfIdentifier;
use crate::token::spec_symbol;
use crate::token::spec_system_tf_identifier;
use crate::token::symbol;
use crate::token::system_tf_identifier;
use crate::tree::Tree;
use crate::tree::group_layout;
use crate::tree::group_leaves;
use crate::tree::leaves_after;

verus! {

broadcast use {group_layout, group_leaves};

/// `list_of_arguments ::= expression { "," expression }`
#[derive(Debug)]
pub struct ListOfArguments {
    pub nodes: (List<Symbol, Expression>,),
}

/// `tf_call ::= hierarchical_identifier [ argument_list ]`
#[derive(Debug)]
pub struct TfCall {
    pub nodes: (HierarchicalIdentifier, Option<Paren<Option<ListOfArguments>>>),
}

/// `system_tf_call ::= system_tf_identifier [ argument_list ]`
#[derive(Debug)]
pub struct SystemTfCall {
    pub nodes: (SystemTfIdentifier, Option<Paren<Option<ListOfArguments>>>),
}

/// A call of a task or function, or of a system task or function.
#[derive(Debug)]
pub enum SubroutineCall {
    TfCall(Box<TfCall>),
    SystemTfCall(Box<SystemTfCall>),
}

/// `function_subroutine_call ::= subroutine_call`
#[derive(Debug)]
pub struct FunctionSubroutineCall {
    pub nodes: (SubroutineCall,),
}

/// What [`argument_list`] returns.
pub type ArgumentList = Paren<Option<ListOfArguments>>;

impl ListOfArguments {
    /// The tree of the node: the sequence of the trees of its parts.
    pub open spec fn tree(&self) -> Tree
        decreases self,
    {
        Tree::Sequence(
            Seq::empty()
                .push(
                    self.nodes.0.tree(
                        self.nodes.0.nodes.0.tree(),
                        expression_tail_trees(self.nodes.0.nodes.1@),
                    ),
                ),
        )
    }

    /// Appends the leaf spans of the node to `out`, in source order.
    pub fn leaf_spans(&self, out: &mut Vec<Span>)
        ensures
            final(out)@ == leaves_after(old(out)@, self.tree()),
        decreases self,
    {
        self.nodes.0.nodes.0.leaf_spans(out);
        expression_tail_leaf_spans(&self.nodes.0.nodes.1, out);
    }
}

impl TfCall {
    /// The tree of the node: the sequence of the trees of its parts.
    #[verifier::opaque]
    pub open spec fn tree(&self) -> Tree {
        Tree::Sequence(
            Seq::empty()
                .push(self.nodes.0.tree())
                .push(
                    match self.nodes.1 {
                        Some(x) => Tree::Optional(Some(Box::new(argument_list_tree(x)))),
                        None => Tree::Optional(None),
                    },
                ),
        )
    }

    /// Appends the leaf spans of the node to `out`, in source order.
    pub fn leaf_spans(&self, out: &mut Vec<Span>)
        ensures
            final(out)@ == leaves_after(old(out)@, self.tree()),
    {
        proof {
            reveal(TfCall::tree);
        }
        self.nodes.0.leaf_spans(out);
        match &self.nodes.1 {
            Some(x) => {
                x.nodes.0.leaf_spans(out);
                match &x.nodes.1 {
                    Some(y) => {
                        y.leaf_spans(out);
                    },
                    None => {},
                }
                x.nodes.2.leaf_spans(out);
            },
            None => {},
        }
    }
}

impl SystemTfCall {
    /// The tree of the node: the sequence of the trees of its parts.
    pub open spec fn tree(&self) -> Tree
        decreases self,
    {
        Tree::Sequence(
            Seq::empty()
                .push(self.nodes.0.tree())
                .push(
                    match self.nodes.1 {
                        Some(x) => Tree::Optional(Some(Box::new(argument_list_tree(x)))),
                        None => Tree::Optional(None),
                    },
                ),
        )
    }

    /// Appends the leaf spans of the node to `out`, in source order.
    pub fn leaf_spans(&self, out: &mut Vec<Span>)
        ensures
            final(out)@ == leaves_after(old(out)@, self.tree()),
        decreases self,
    {
        self.nodes.0.leaf_spans(out);
        match &self.nodes.1 {
            Some(x) => {
                x.nodes.0.leaf_spans(out);
                match &x.nodes.1 {
                    Some(y) => {
                        y.leaf_spans(out);
                    },
                    None => {},
                }
                x.nodes.2.leaf_spans(out);
            },
            None => {},
        }
    }
}

impl SubroutineCall {
    /// The tree of the node: the variant, by its index, and the tree of its payload.
    #[verifier::opaque]
    pub open spec fn tree(&self) -> Tree {
        match self {
            SubroutineCall::TfCall(x) => Tree::Variant(0, Box::new(x.tree())),
            SubroutineCall::SystemTfCall(x) => Tree::Variant(1, Box::new(x.tree())),
        }
    }

    /// Appends the leaf spans of the node to `out`, in source order.
    pub fn leaf_spans(&self, out: &mut Vec<Span>)
        ensures
            final(out)@ == leaves_after(old(out)@, self.tree()),
    {
        proof {
            reveal(SubroutineCall::tree);
        }
        match self {
            SubroutineCall::TfCall(x) => {
                x.leaf_spans(out);
            },
            SubroutineCall::SystemTfCall(x) => {
                x.leaf_spans(out);
            },
        }
    }
}

impl FunctionSubroutineCall {
    /// The tree of the node: the sequence of the trees of its parts.
    #[verifier::opaque]
    pub open spec fn tree(&self) -> Tree {
        Tree::Sequence(
            Seq::empty()
                .push(self.nodes.0.tree()),
        )
    }

    /// Appends the leaf spans of the node to `out`, in source order.
    pub fn leaf_spans(&self, out: &mut Vec<Span>)
        ensures
            final(out)@ == leaves_after(old(out)@, self.tree()),
    {
        proof {
            reveal(FunctionSubroutineCall::tree);
        }
        self.nodes.0.leaf_spans(out);
    }
}

/// The tree of what [`argument_list`] returns.
pub open spec fn argument_list_tree(n: ArgumentList) -> Tree
    decreases n,
{
    n.tree(
        match n.nodes.1 {
            Some(x) => Tree::Optional(Some(Box::new(x.tree()))),
            None => Tree::Optional(None),
        },
    )
}

impl Clone for ListOfArguments {
    /// A copy with the same tree.
    fn clone(&self) -> (r: Self)
        ensures
            r.tree() == self.tree(),
        decreases self,
    {
        ListOfArguments {
            nodes: (
                List {
                    nodes: (
                        self.nodes.0.nodes.0.clone(),
                        clone_expression_tail_vec(&self.nodes.0.nodes.1),
                    ),
                },
            ),
        }
    }
}

impl Clone for SystemTfCall {
    /// A copy with the same tree.
    fn clone(&self) -> (r: Self)
        ensures
            r.tree() == self.tree(),
        decreases self,
    {
        SystemTfCall {
            nodes: (
                self.nodes.0,
                match &self.nodes.1 {
                    Some(x) => Some(
                        Paren {
                            nodes: (
                                x.nodes.0,
                                match &x.nodes.1 { Some(y) => Some(y.clone()), None => None },
                                x.nodes.2,
                            ),
                        },
                    ),
                    None => None,
                },
            ),
        }
    }
}

/// `list_of_arguments ::= expression { "," expression }`
#[verifier::opaque]
pub open spec fn spec_list_of_arguments(inp: Input, pos: int, nest: Nesting) -> Parsed {
    let a0 = (nest.expression)(pos);
    let a1 = spec_expression_tail(inp, rest(a0), nest);
    let a = list(a0, a1);
    seq1(a)
}

/// Parses a `list_of_arguments` at `pos`.
pub fn list_of_arguments(ctx: &mut Parser, pos: usize, depth: usize) -> (r: Result<
    (usize, ListOfArguments),
    Failure,
>)
    requires
        old(ctx).wf(),
        pos <= old(ctx).input().src.len(),
    ensures
        final(ctx).wf(),
        final(ctx).input() == old(ctx).input(),
        lift(r, |n: ListOfArguments| n.tree()) == spec_list_of_arguments(
            old(ctx).input(),
            pos as int,
            nesting(old(ctx).input(), depth as nat),
        ),
        well_spanned(
            spec_list_of_arguments(
                old(ctx).input(),
                pos as int,
                nesting(old(ctx).input(), depth as nat),
            ),
            pos as int,
            old(ctx).input().src.len() as int,
        ),
    decreases depth, 2nat,
{
    proof {
        reveal(spec_list_of_arguments);
    }
    let p = pos;
    let (p, a0) = expression(ctx, p, depth)?;
    let (p, a1) = expression_tail(ctx, p, depth)?;
    let a = List { nodes: (a0, a1) };
    Ok((p, ListOfArguments { nodes: (a,) }))
}

/// `argument_list ::= "(" [ list_of_arguments ] ")"`
#[verifier::opaque]
pub open spec fn spec_argument_list(inp: Input, pos: int, nest: Nesting) -> Parsed {
    let a0 = spec_symbol(inp, pos, "(");
    let a1 = optional(spec_list_of_arguments(inp, rest(a0), nest), rest(a0));
    let a2 = spec_symbol(inp, rest(a1), ")");
    delimited(a0, a1, a2)
}

/// Parses a `argument_list` at `pos`.
pub fn argument_list(ctx: &mut Parser, pos: usize, depth: usize) -> (r: Result<
    (usize, ArgumentList),
    Failure,
>)
    requires
        old(ctx).wf(),
        pos <= old(ctx).input().src.len(),
    ensures
        final(ctx).wf(),
        final(ctx).input() == old(ctx).input(),
        lift(r, |n: ArgumentList| argument_list_tree(n)) == spec_argument_list(
            old(ctx).input(),
            pos as int,
            nesting(old(ctx).input(), depth as nat),
        ),
        well_spanned(
            spec_argument_list(
                old(ctx).input(),
                pos as int,
                nesting(old(ctx).input(), depth as nat),
            ),
            pos as int,
            old(ctx).input().src.len() as int,
        ),
    decreases depth, 3nat,
{
    proof {
        reveal(spec_argument_list);
    }
    let p = pos;
    let (p, a0) = symbol(ctx, p, "(")?;
    let (p, a1) = opt(list_of_arguments(ctx, p, depth), p)?;
    let (p, a2) = symbol(ctx, p, ")")?;
    let a = Paren { nodes: (a0, a1, a2) };
    Ok((p, a))
}

/// `tf_call ::= hierarchical_identifier [ argument_list ]`
#[verifier::opaque]
pub open spec fn spec_tf_call(inp: Input, pos: int, nest: Nesting) -> Parsed {
    let a = spec_hierarchical_identifier(inp, pos);
    let b = optional(spec_argument_list(inp, rest(a), nest), rest(a));
    variant(0, seq2(a, b))
}

/// Parses a `tf_call` at `pos`.
pub fn tf_call(ctx: &mut Parser, pos: usize, depth: usize) -> (r: Result<
    (usize, SubroutineCall),
    Failure,
>)
    requires
        old(ctx).wf(),
        pos <= old(ctx).input().src.len(),
    ensures
        final(ctx).wf(),
        final(ctx).input() == old(ctx).input(),
        lift(r, |n: SubroutineCall| n.tree()) == spec_tf_call(
            old(ctx).input(),
            pos as int,
            nesting(old(ctx).input(), depth as nat),
        ),
        well_spanned(
            spec_tf_call(old(ctx).input(), pos as int, nesting(old(ctx).input(), depth as nat)),
            pos as int,
            old(ctx).input().src.len() as int,
        ),
{
    proof {
        reveal(spec_tf_call);
        reveal(TfCall::tree);
        reveal(SubroutineCall::tree);
    }
    let p = pos;
    let (p, a) = hierarchical_identifier(ctx, p)?;
    let (p, b) = opt(argument_list(ctx, p, depth), p)?;
    Ok((p, SubroutineCall::TfCall(Box::new(TfCall { nodes: (a, b) }))))
}

/// `system_tf_call ::= system_tf_identifier [ argument_list ]`
#[verifier::opaque]
pub open spec fn spec_system_tf_call(inp: Input, pos: int, nest: Nesting) -> Parsed {
    let a = spec_system_tf_identifier(inp, pos);
    let b = optional(spec_argument_list(inp, rest(a), nest), rest(a));
    seq2(a, b)
}

/// Parses a `system_tf_call` at `pos`.
pub fn system_tf_call(ctx: &mut Parser, pos: usize, depth: usize) -> (r: Result<
    (usize, SystemTfCall),
    Failure,
>)
    requires
        old(ctx).wf(),
        pos <= old(ctx).input().src.len(),
    ensures
        final(ctx).wf(),
        final(ctx).input() == old(ctx).input(),
        lift(r, |n: SystemTfCall| n.tree()) == spec_system_tf_call(
            old(ctx).input(),
            pos as int,
            nesting(old(ctx).input(), depth as nat),
        ),
        well_spanned(
            spec_system_tf_call(
                old(ctx).input(),
                pos as int,
                nesting(old(ctx).input(), depth as nat),
            ),
            pos as int,
            old(ctx).input().src.len() as int,
        ),
    decreases depth, 4nat,
{
    proof {
        reveal(spec_system_tf_call);
    }
    let p = pos;
    let (p, a) = system_tf_identifier(ctx, p)?;
    let (p, b) = opt(argument_list(ctx, p, depth), p)?;
    Ok((p, SystemTfCall { nodes: (a, b) }))
}

/// `subroutine_call ::= tf_call | system_tf_call`
#[verifier::opaque]
pub open spec fn spec_subroutine_call(inp: Input, pos: int, nest: Nesting) -> Parsed {
    let r = spec_tf_call(inp, pos, nest);
    let r = or_else(r, variant(1, spec_system_tf_call(inp, pos, nest)));
    r
}

/// Parses a `subroutine_call` at `pos`: the first alternative that matches.
pub fn subroutine_call(ctx: &mut Parser, pos: usize, depth: usize) -> (r: Result<
    (usize, SubroutineCall),
    Failure,
>)
    requires
        old(ctx).wf(),
        pos <= old(ctx).input().src.len(),
    ensures
        final(ctx).wf(),
        final(ctx).input() == old(ctx).input(),
        lift(r, |n: SubroutineCall| n.tree()) == spec_subroutine_call(
            old(ctx).input(),
            pos as int,
            nesting(old(ctx).input(), depth as nat),
        ),
        well_spanned(
            spec_subroutine_call(
                old(ctx).input(),
                pos as int,
                nesting(old(ctx).input(), depth as nat),
            ),
            pos as int,
            old(ctx).input().src.len() as int,
        ),
{
    proof {
        reveal(spec_subroutine_call);
        reveal(SubroutineCall::tree);
    }
    let e = match tf_call(ctx, pos, depth) {
        Ok(x) => return Ok(x),
        Err(e) => e,
    };
    if e.committed {
        return Err(e);
    }
    let e = match system_tf_call(ctx, pos, depth) {
        Ok((p, x)) => return Ok((p, SubroutineCall::SystemTfCall(Box::new(x)))),
        Err(f) => if f.committed {
            return Err(f);
        } else {
            e.or_deeper(f)
        },
    };
    Err(e)
}

/// `function_subroutine_call ::= subroutine_call`
#[verifier::opaque]
pub open spec fn spec_function_subroutine_call(inp: Input, pos: int, nest: Nesting) -> Parsed {
    let a = spec_subroutine_call(inp, pos, nest);
    seq1(a)
}

/// Parses a `function_subroutine_call` at `pos`.
pub fn function_subroutine_call(ctx: &mut Parser, pos: usize, depth: usize) -> (r: Result<
    (usize, FunctionSubroutineCall),
    Failure,
>)
    requires
        old(ctx).wf(),
        pos <= old(ctx).input().src.len(),
    ensures
        final(ctx).wf(),
        final(ctx).input() == old(ctx).input(),
        lift(r, |n: FunctionSubroutineCall| n.tree()) == spec_function_subroutine_call(
            old(ctx).input(),
            pos as int,
            nesting(old(ctx).input(), depth as nat),
        ),
        well_spanned(
            spec_function_subroutine_call(
                old(ctx).input(),
                pos as int,
                nesting(old(ctx).input(), depth as nat),
            ),
            pos as int,
            old(ctx).input().src.len() as int,
        ),
{
    proof {
        reveal(spec_function_subroutine_call);
        reveal(FunctionSubroutineCall::tree);
    }
    let p = pos;
    let (p, a) = subroutine_call(ctx, p, depth)?;
    Ok((p, FunctionSubroutineCall { nodes: (a,) }))
}

} // verus!
