//! Primaries: the operands of expressions.
use vstd::prelude::*;
use crate::combinator::Parsed;
use crate::combinator::append;
use crate::combinator::delimited;
use crate::combinator::lemma_append_empty;
use crate::combinator::lemma_append_no_more;
use crate::combinator::lemma_append_prepend;
use crate::combinator::lift;
use crate::combinator::no_more;
use crate::combinator::or_else;
use crate::combinator::prepend;
use crate::combinator::rest;
use crate::combinator::seq1;
use crate::combinator::seq2;
use crate::combinator::variant;
use crate::combinator::well_spanned;
use crate::context::Input;
use crate::context::Parser;
use crate::failure::Failure;
use crate::node::Bracket;
use crate::node::Paren;
use crate::parser::expressions::expressions::Expression;
use crate::parser::expressions::expressions::expression;
use crate::parser::expressions::subroutine_calls::ListOfArguments;
use crate::parser::expressions::subroutine_calls::SystemTfCall;
use crate::parser::expressions::subroutine_calls::argument_list;
use crate::parser::expressions::subroutine_calls::argument_list_tree;
use crate::parser::expressions::subroutine_calls::spec_argument_list;
use crate::parser::expressions::subroutine_calls::spec_system_tf_call;
use crate::parser::expressions::subroutine_calls::system_tf_call;
use crate::parser::general::identifiers::HierarchicalIdentifier;
use crate::parser::general::identifiers::hierarchical_identifier;
use crate::parser::general::identifiers::spec_hierarchical_identifier;
use crate::parser::nesting::Nesting;
use crate::parser::nesting::nesting;
use crate::span::Span;
use crate::token::IntegralNumber;
use crate::token::StringLiteral;
use crate::token::integral_number;
use crate::token::spec_integral_number;
use crate::token::spec_string_literal;
use crate::token::spec_symbol;
use crate::token::string_literal;
use crate::token::symbol;
use crate::tree::Tree;
use crate::tree::group_layout;
use crate::tree::group_leaves;
use crate::tree::leaves_after;
use crate::tree::tiled;
use crate::tree::width;

verus! {

broadcast use {group_layout, group_leaves};

/// `select ::= { bit_select }`
#[derive(Debug)]
pub struct Select {
    pub nodes: (Vec<Bracket<Expression>>,),
}

/// `primary_hierarchical ::= hierarchical_identifier select`
#[derive(Debug)]
pub struct PrimaryHierarchical {
    pub nodes: (HierarchicalIdentifier, Select),
}

/// `function_call ::= hierarchical_identifier argument_list`
#[derive(Debug)]
pub struct FunctionCall {
    pub nodes: (HierarchicalIdentifier, Paren<Option<ListOfArguments>>),
}

/// An operand: a number, a string, a call of a function or of a system function, a name
/// with its selects, or an expression in parentheses. A call begins like a name, so it
/// is tried first.
#[derive(Debug)]
pub enum Primary {
    Number(Box<IntegralNumber>),
    String(Box<StringLiteral>),
    SystemTfCall(Box<SystemTfCall>),
    FunctionCall(Box<FunctionCall>),
    Hierarchical(Box<PrimaryHierarchical>),
    Parenthesized(Box<Paren<Expression>>),
}

/// What [`bit_select`] returns.
pub type BitSelect = Bracket<Expression>;

/// What [`parenthesized_expression`] returns.
pub type ParenthesizedExpression = Paren<Expression>;

impl Select {
    /// The tree of the node: the sequence of the trees of its parts.
    pub open spec fn tree(&self) -> Tree
        decreases self,
    {
        Tree::Sequence(
            Seq::empty()
                .push(Tree::Repeat(bit_select_trees(self.nodes.0@))),
        )
    }

    /// Appends the leaf spans of the node to `out`, in source order.
    pub fn leaf_spans(&self, out: &mut Vec<Span>)
        ensures
            final(out)@ == leaves_after(old(out)@, self.tree()),
        decreases self,
    {
        bit_select_leaf_spans(&self.nodes.0, out);
    }
}

impl PrimaryHierarchical {
    /// The tree of the node: the sequence of the trees of its parts.
    pub open spec fn tree(&self) -> Tree
        decreases self,
    {
        Tree::Sequence(
            Seq::empty()
                .push(self.nodes.0.tree())
                .push(self.nodes.1.tree()),
        )
    }

    /// Appends the leaf spans of the node to `out`, in source order.
    pub fn leaf_spans(&self, out: &mut Vec<Span>)
        ensures
            final(out)@ == leaves_after(old(out)@, self.tree()),
        decreases self,
    {
        self.nodes.0.leaf_spans(out);
        self.nodes.1.leaf_spans(out);
    }
}

impl FunctionCall {
    /// The tree of the node: the sequence of the trees of its parts.
    pub open spec fn tree(&self) -> Tree
        decreases self,
    {
        Tree::Sequence(
            Seq::empty()
                .push(self.nodes.0.tree())
                .push(argument_list_tree(self.nodes.1)),
        )
    }

    /// Appends the leaf spans of the node to `out`, in source order.
    pub fn leaf_spans(&self, out: &mut Vec<Span>)
        ensures
            final(out)@ == leaves_after(old(out)@, self.tree()),
        decreases self,
    {
        self.nodes.0.leaf_spans(out);
        self.nodes.1.nodes.0.leaf_spans(out);
        match &self.nodes.1.nodes.1 {
            Some(x) => {
                x.leaf_spans(out);
            },
            None => {},
        }
        self.nodes.1.nodes.2.leaf_spans(out);
    }
}

impl Primary {
    /// The tree of the node: the variant, by its index, and the tree of its payload.
    pub open spec fn tree(&self) -> Tree
        decreases self,
    {
        match self {
            Primary::Number(x) => Tree::Variant(0, Box::new(x.tree())),
            Primary::String(x) => Tree::Variant(1, Box::new(x.tree())),
            Primary::SystemTfCall(x) => Tree::Variant(2, Box::new(x.tree())),
            Primary::FunctionCall(x) => Tree::Variant(3, Box::new(x.tree())),
            Primary::Hierarchical(x) => Tree::Variant(4, Box::new(x.tree())),
            Primary::Parenthesized(x) => Tree::Variant(
                5,
                Box::new(parenthesized_expression_tree((**x))),
            ),
        }
    }

    /// Appends the leaf spans of the node to `out`, in source order.
    pub fn leaf_spans(&self, out: &mut Vec<Span>)
        ensures
            final(out)@ == leaves_after(old(out)@, self.tree()),
        decreases self,
    {
        match self {
            Primary::Number(x) => {
                x.leaf_spans(out);
            },
            Primary::String(x) => {
                x.leaf_spans(out);
            },
            Primary::SystemTfCall(x) => {
                x.leaf_spans(out);
            },
            Primary::FunctionCall(x) => {
                x.leaf_spans(out);
            },
            Primary::Hierarchical(x) => {
                x.leaf_spans(out);
            },
            Primary::Parenthesized(x) => {
                x.nodes.0.leaf_spans(out);
                x.nodes.1.leaf_spans(out);
                x.nodes.2.leaf_spans(out);
            },
        }
    }
}

/// The tree of what [`bit_select`] returns.
pub open spec fn bit_select_tree(n: BitSelect) -> Tree
    decreases n,
{
    n.tree(n.nodes.1.tree())
}

/// The tree of what [`parenthesized_expression`] returns.
pub open spec fn parenthesized_expression_tree(n: ParenthesizedExpression) -> Tree
    decreases n,
{
    n.tree(n.nodes.1.tree())
}

/// The trees of a list of such nodes, in order.
pub open spec fn bit_select_trees(s: Seq<BitSelect>) -> Seq<Tree>
    decreases s,
{
    Seq::new(
        s.len(),
        |i: int| if 0 <= i < s.len() {
            bit_select_tree(s[i])
        } else {
            arbitrary()
        },
    )
}

/// The trees of a list that has one more node at its end.
pub proof fn lemma_bit_select_trees_push(s: Seq<BitSelect>, x: BitSelect)
    ensures
        bit_select_trees(s.push(x)) == bit_select_trees(s).push(bit_select_tree(x)),
{
    reveal(bit_select_trees);
    assert forall|i: int| 0 <= i < s.len() + 1 implies
        #[trigger] bit_select_trees(s.push(x))[i]
        == bit_select_trees(s).push(bit_select_tree(x))[i] by {
        let y = s.push(x)[i];
        assert(bit_select_tree(y) == if i < s.len() {
            bit_select_tree(s[i])
        } else {
            bit_select_tree(x)
        });
    }
    assert(bit_select_trees(s.push(x)) =~= bit_select_trees(s).push(bit_select_tree(x)));
}

/// The empty list has no trees.
pub proof fn lemma_bit_select_trees_empty()
    ensures
        bit_select_trees(Seq::empty()) == Seq::<Tree>::empty(),
{
    reveal(bit_select_trees);
    assert(bit_select_trees(Seq::empty()) =~= Seq::<Tree>::empty());
}

/// Appends the leaf spans of a list of nodes to `out`, in source order.
pub fn bit_select_leaf_spans(v: &Vec<BitSelect>, out: &mut Vec<Span>)
    ensures
        final(out)@ == leaves_after(old(out)@, Tree::Repeat(bit_select_trees(v@))),
    decreases v,
{
    let mut i: usize = 0;
    proof {
        lemma_bit_select_trees_empty();
        assert(v@.take(0) =~= Seq::empty());
    }
    while i < v.len()
        invariant
            i <= v@.len(),
            out@ == leaves_after(old(out)@, Tree::Repeat(bit_select_trees(v@.take(i as int)))),
        decreases v@.len() - i,
    {
        v[i].nodes.0.leaf_spans(out);
        v[i].nodes.1.leaf_spans(out);
        v[i].nodes.2.leaf_spans(out);
        proof {
            lemma_bit_select_trees_push(v@.take(i as int), v@[i as int]);
            assert(v@.take(i as int).push(v@[i as int]) =~= v@.take(i + 1));
        }
        i = i + 1;
    }
    proof {
        assert(v@.take(v@.len() as int) =~= v@);
    }
}

impl Clone for Select {
    /// A copy with the same tree.
    fn clone(&self) -> (r: Self)
        ensures
            r.tree() == self.tree(),
        decreases self,
    {
        Select {
            nodes: (
                clone_bit_select_vec(&self.nodes.0),
            ),
        }
    }
}

impl Clone for PrimaryHierarchical {
    /// A copy with the same tree.
    fn clone(&self) -> (r: Self)
        ensures
            r.tree() == self.tree(),
        decreases self,
    {
        PrimaryHierarchical {
            nodes: (
                self.nodes.0.clone(),
                self.nodes.1.clone(),
            ),
        }
    }
}

impl Clone for FunctionCall {
    /// A copy with the same tree.
    fn clone(&self) -> (r: Self)
        ensures
            r.tree() == self.tree(),
        decreases self,
    {
        FunctionCall {
            nodes: (
                self.nodes.0.clone(),
                Paren {
                    nodes: (
                        self.nodes.1.nodes.0,
                        match &self.nodes.1.nodes.1 { Some(x) => Some(x.clone()), None => None },
                        self.nodes.1.nodes.2,
                    ),
                },
            ),
        }
    }
}

impl Clone for Primary {
    /// A copy with the same tree.
    fn clone(&self) -> (r: Self)
        ensures
            r.tree() == self.tree(),
        decreases self,
    {
        match self {
            Primary::Number(x) => Primary::Number(Box::new(**x)),
            Primary::String(x) => Primary::String(Box::new(**x)),
            Primary::SystemTfCall(x) => Primary::SystemTfCall(Box::new((**x).clone())),
            Primary::FunctionCall(x) => Primary::FunctionCall(Box::new((**x).clone())),
            Primary::Hierarchical(x) => Primary::Hierarchical(Box::new((**x).clone())),
            Primary::Parenthesized(x) => Primary::Parenthesized(
                Box::new(Paren { nodes: ((**x).nodes.0, (**x).nodes.1.clone(), (**x).nodes.2) }),
            ),
        }
    }
}

/// A copy of a list of nodes with the same trees.
pub fn clone_bit_select_vec(v: &Vec<BitSelect>) -> (r: Vec<BitSelect>)
    ensures
        bit_select_trees(r@) == bit_select_trees(v@),
    decreases v,
{
    let mut out: Vec<BitSelect> = Vec::new();
    let mut i: usize = 0;
    proof {
        assert(out@ =~= v@.take(0));
    }
    while i < v.len()
        invariant
            i <= v@.len(),
            bit_select_trees(out@) == bit_select_trees(v@.take(i as int)),
        decreases v@.len() - i,
    {
        let x = Bracket { nodes: (v[i].nodes.0, v[i].nodes.1.clone(), v[i].nodes.2) };
        proof {
            lemma_bit_select_trees_push(out@, x);
            lemma_bit_select_trees_push(v@.take(i as int), v@[i as int]);
            assert(v@.take(i as int).push(v@[i as int]) =~= v@.take(i + 1));
        }
        out.push(x);
        i = i + 1;
    }
    proof {
        assert(v@.take(v@.len() as int) =~= v@);
    }
    out
}

/// `bit_select ::= "[" expression "]"`
#[verifier::opaque]
pub open spec fn spec_bit_select(inp: Input, pos: int, nest: Nesting) -> Parsed {
    let a0 = spec_symbol(inp, pos, "[");
    let a1 = (nest.expression)(rest(a0));
    let a2 = spec_symbol(inp, rest(a1), "]");
    delimited(a0, a1, a2)
}

/// Parses a `bit_select` at `pos`.
pub fn bit_select(ctx: &mut Parser, pos: usize, depth: usize) -> (r: Result<
    (usize, BitSelect),
    Failure,
>)
    requires
        old(ctx).wf(),
        pos <= old(ctx).input().src.len(),
    ensures
        final(ctx).wf(),
        final(ctx).input() == old(ctx).input(),
        lift(r, |n: BitSelect| bit_select_tree(n)) == spec_bit_select(
            old(ctx).input(),
            pos as int,
            nesting(old(ctx).input(), depth as nat),
        ),
        well_spanned(
            spec_bit_select(old(ctx).input(), pos as int, nesting(old(ctx).input(), depth as nat)),
            pos as int,
            old(ctx).input().src.len() as int,
        ),
    decreases depth, 1nat,
{
    proof {
        reveal(spec_bit_select);
    }
    let p = pos;
    let (p, a0) = symbol(ctx, p, "[")?;
    let (p, a1) = expression(ctx, p, depth)?;
    let (p, a2) = symbol(ctx, p, "]")?;
    let a = Bracket { nodes: (a0, a1, a2) };
    Ok((p, a))
}

/// `select ::= { bit_select }`
#[verifier::opaque]
pub open spec fn spec_select(inp: Input, pos: int, nest: Nesting) -> Parsed {
    let a = spec_many_bit_select(inp, pos, nest);
    seq1(a)
}

/// Parses a `select` at `pos`.
pub fn select(ctx: &mut Parser, pos: usize, depth: usize) -> (r: Result<(usize, Select), Failure>)
    requires
        old(ctx).wf(),
        pos <= old(ctx).input().src.len(),
    ensures
        final(ctx).wf(),
        final(ctx).input() == old(ctx).input(),
        lift(r, |n: Select| n.tree()) == spec_select(
            old(ctx).input(),
            pos as int,
            nesting(old(ctx).input(), depth as nat),
        ),
        well_spanned(
            spec_select(old(ctx).input(), pos as int, nesting(old(ctx).input(), depth as nat)),
            pos as int,
            old(ctx).input().src.len() as int,
        ),
    decreases depth, 3nat,
{
    proof {
        reveal(spec_select);
    }
    let p = pos;
    let (p, a) = many_bit_select(ctx, p, depth)?;
    Ok((p, Select { nodes: (a,) }))
}

/// `primary_hierarchical ::= hierarchical_identifier select`
#[verifier::opaque]
pub open spec fn spec_primary_hierarchical(inp: Input, pos: int, nest: Nesting) -> Parsed {
    let a = spec_hierarchical_identifier(inp, pos);
    let b = spec_select(inp, rest(a), nest);
    variant(4, seq2(a, b))
}

/// Parses a `primary_hierarchical` at `pos`.
pub fn primary_hierarchical(ctx: &mut Parser, pos: usize, depth: usize) -> (r: Result<
    (usize, Primary),
    Failure,
>)
    requires
        old(ctx).wf(),
        pos <= old(ctx).input().src.len(),
    ensures
        final(ctx).wf(),
        final(ctx).input() == old(ctx).input(),
        lift(r, |n: Primary| n.tree()) == spec_primary_hierarchical(
            old(ctx).input(),
            pos as int,
            nesting(old(ctx).input(), depth as nat),
        ),
        well_spanned(
            spec_primary_hierarchical(
                old(ctx).input(),
                pos as int,
                nesting(old(ctx).input(), depth as nat),
            ),
            pos as int,
            old(ctx).input().src.len() as int,
        ),
    decreases depth, 4nat,
{
    proof {
        reveal(spec_primary_hierarchical);
    }
    let p = pos;
    let (p, a) = hierarchical_identifier(ctx, p)?;
    let (p, b) = select(ctx, p, depth)?;
    Ok((p, Primary::Hierarchical(Box::new(PrimaryHierarchical { nodes: (a, b) }))))
}

/// `parenthesized_expression ::= "(" expression ")"`
#[verifier::opaque]
pub open spec fn spec_parenthesized_expression(inp: Input, pos: int, nest: Nesting) -> Parsed {
    let a0 = spec_symbol(inp, pos, "(");
    let a1 = (nest.expression)(rest(a0));
    let a2 = spec_symbol(inp, rest(a1), ")");
    delimited(a0, a1, a2)
}

/// Parses a `parenthesized_expression` at `pos`.
pub fn parenthesized_expression(ctx: &mut Parser, pos: usize, depth: usize) -> (r: Result<
    (usize, ParenthesizedExpression),
    Failure,
>)
    requires
        old(ctx).wf(),
        pos <= old(ctx).input().src.len(),
    ensures
        final(ctx).wf(),
        final(ctx).input() == old(ctx).input(),
        lift(r, |n: ParenthesizedExpression| parenthesized_expression_tree(n))
            == spec_parenthesized_expression(
                old(ctx).input(),
                pos as int,
                nesting(old(ctx).input(), depth as nat),
            ),
        well_spanned(
            spec_parenthesized_expression(
                old(ctx).input(),
                pos as int,
                nesting(old(ctx).input(), depth as nat),
            ),
            pos as int,
            old(ctx).input().src.len() as int,
        ),
    decreases depth, 1nat,
{
    proof {
        reveal(spec_parenthesized_expression);
    }
    let p = pos;
    let (p, a0) = symbol(ctx, p, "(")?;
    let (p, a1) = expression(ctx, p, depth)?;
    let (p, a2) = symbol(ctx, p, ")")?;
    let a = Paren { nodes: (a0, a1, a2) };
    Ok((p, a))
}

/// `function_call ::= hierarchical_identifier argument_list`
#[verifier::opaque]
pub open spec fn spec_function_call(inp: Input, pos: int, nest: Nesting) -> Parsed {
    let a = spec_hierarchical_identifier(inp, pos);
    let b = spec_argument_list(inp, rest(a), nest);
    variant(3, seq2(a, b))
}

/// Parses a `function_call` at `pos`.
pub fn function_call(ctx: &mut Parser, pos: usize, depth: usize) -> (r: Result<
    (usize, Primary),
    Failure,
>)
    requires
        old(ctx).wf(),
        pos <= old(ctx).input().src.len(),
    ensures
        final(ctx).wf(),
        final(ctx).input() == old(ctx).input(),
        lift(r, |n: Primary| n.tree()) == spec_function_call(
            old(ctx).input(),
            pos as int,
            nesting(old(ctx).input(), depth as nat),
        ),
        well_spanned(
            spec_function_call(
                old(ctx).input(),
                pos as int,
                nesting(old(ctx).input(), depth as nat),
            ),
            pos as int,
            old(ctx).input().src.len() as int,
        ),
    decreases depth, 4nat,
{
    proof {
        reveal(spec_function_call);
    }
    let p = pos;
    let (p, a) = hierarchical_identifier(ctx, p)?;
    let (p, b) = argument_list(ctx, p, depth)?;
    Ok((p, Primary::FunctionCall(Box::new(FunctionCall { nodes: (a, b) }))))
}

/// `primary ::= integral_number | string_literal | system_tf_call | function_call |
/// primary_hierarchical | parenthesized_expression`
#[verifier::opaque]
pub open spec fn spec_primary(inp: Input, pos: int, nest: Nesting) -> Parsed {
    let r = variant(0, spec_integral_number(inp, pos));
    let r = or_else(r, variant(1, spec_string_literal(inp, pos)));
    let r = or_else(r, variant(2, spec_system_tf_call(inp, pos, nest)));
    let r = or_else(r, spec_function_call(inp, pos, nest));
    let r = or_else(r, spec_primary_hierarchical(inp, pos, nest));
    let r = or_else(r, variant(5, spec_parenthesized_expression(inp, pos, nest)));
    r
}

/// Parses a `primary` at `pos`: the first alternative that matches.
pub fn primary(ctx: &mut Parser, pos: usize, depth: usize) -> (r: Result<(usize, Primary), Failure>)
    requires
        old(ctx).wf(),
        pos <= old(ctx).input().src.len(),
    ensures
        final(ctx).wf(),
        final(ctx).input() == old(ctx).input(),
        lift(r, |n: Primary| n.tree()) == spec_primary(
            old(ctx).input(),
            pos as int,
            nesting(old(ctx).input(), depth as nat),
        ),
        well_spanned(
            spec_primary(old(ctx).input(), pos as int, nesting(old(ctx).input(), depth as nat)),
            pos as int,
            old(ctx).input().src.len() as int,
        ),
    decreases depth, 5nat,
{
    proof {
        reveal(spec_primary);
    }
    let e = match integral_number(ctx, pos) {
        Ok((p, x)) => return Ok((p, Primary::Number(Box::new(x)))),
        Err(e) => e,
    };
    if e.committed {
        return Err(e);
    }
    let e = match string_literal(ctx, pos) {
        Ok((p, x)) => return Ok((p, Primary::String(Box::new(x)))),
        Err(f) => if f.committed {
            return Err(f);
        } else {
            e.or_deeper(f)
        },
    };
    let e = match system_tf_call(ctx, pos, depth) {
        Ok((p, x)) => return Ok((p, Primary::SystemTfCall(Box::new(x)))),
        Err(f) => if f.committed {
            return Err(f);
        } else {
            e.or_deeper(f)
        },
    };
    let e = match function_call(ctx, pos, depth) {
        Ok(x) => return Ok(x),
        Err(f) => if f.committed {
            return Err(f);
        } else {
            e.or_deeper(f)
        },
    };
    let e = match primary_hierarchical(ctx, pos, depth) {
        Ok(x) => return Ok(x),
        Err(f) => if f.committed {
            return Err(f);
        } else {
            e.or_deeper(f)
        },
    };
    let e = match parenthesized_expression(ctx, pos, depth) {
        Ok((p, x)) => return Ok((p, Primary::Parenthesized(Box::new(x)))),
        Err(f) => if f.committed {
            return Err(f);
        } else {
            e.or_deeper(f)
        },
    };
    Err(e)
}

/// `many_bit_select ::= { bit_select }` Stops before the first item that does not
/// match, or that matches nothing.
#[verifier::opaque]
pub open spec fn spec_many_bit_select(inp: Input, pos: int, nest: Nesting) -> Parsed
    decreases inp.src.len() - pos,
{
    match spec_bit_select(inp, pos, nest) {
        Ok((p, t)) => if pos < p <= inp.src.len() {
            prepend(t, spec_many_bit_select(inp, p, nest))
        } else {
            no_more(pos)
        },
        Err(e) => if e.committed {
            Err(e)
        } else {
            no_more(pos)
        },
    }
}

/// Parses as many items as match at `pos`, one after the other: `{ bit_select }`.
pub fn many_bit_select(ctx: &mut Parser, pos: usize, depth: usize) -> (r: Result<
    (usize, Vec<BitSelect>),
    Failure,
>)
    requires
        old(ctx).wf(),
        pos <= old(ctx).input().src.len(),
    ensures
        final(ctx).wf(),
        final(ctx).input() == old(ctx).input(),
        lift(r, |n: Vec<BitSelect>| Tree::Repeat(bit_select_trees(n@))) == spec_many_bit_select(
            old(ctx).input(),
            pos as int,
            nesting(old(ctx).input(), depth as nat),
        ),
        well_spanned(
            spec_many_bit_select(
                old(ctx).input(),
                pos as int,
                nesting(old(ctx).input(), depth as nat),
            ),
            pos as int,
            old(ctx).input().src.len() as int,
        ),
    decreases depth, 2nat,
{
    proof {
        reveal(spec_many_bit_select);
    }
    let ghost inp = ctx.input();
    let mut items: Vec<BitSelect> = Vec::new();
    let mut cur: usize = pos;
    proof {
        lemma_append_empty(spec_many_bit_select(inp, pos as int, nesting(inp, depth as nat)));
        lemma_bit_select_trees_empty();
    }
    loop
        invariant
            ctx.wf(),
            ctx.input() == inp,
            inp == old(ctx).input(),
            pos <= cur <= inp.src.len(),
            spec_many_bit_select(inp, pos as int, nesting(inp, depth as nat)) == append(
                bit_select_trees(items@),
                spec_many_bit_select(inp, cur as int, nesting(inp, depth as nat)),
            ),
            tiled(Tree::Repeat(bit_select_trees(items@)), pos as int),
            cur == pos + width(Tree::Repeat(bit_select_trees(items@))),
        decreases inp.src.len() - cur,
    {
        proof {
            reveal(spec_many_bit_select);
        }
        let (p, x) = match bit_select(ctx, cur, depth) {
            Ok(found) => found,
            Err(e) => {
                if e.committed {
                    return Err(e);
                }
                proof {
                    lemma_append_no_more(bit_select_trees(items@), cur as int);
                }
                return Ok((cur, items));
            },
        };
        if p <= cur {
            proof {
                lemma_append_no_more(bit_select_trees(items@), cur as int);
            }
            return Ok((cur, items));
        }
        proof {
            lemma_append_prepend(
                bit_select_trees(items@),
                bit_select_tree(x),
                spec_many_bit_select(inp, p as int, nesting(inp, depth as nat)),
            );
            lemma_bit_select_trees_push(items@, x);
        }
        items.push(x);
        cur = p;
    }
}

} // verus!
