//! Patterns.
use vstd::prelude::*;
use crate::combinator::Parsed;
use crate::combinator::append;
use crate::combinator::commit;
use crate::combinator::cut;
use crate::combinator::lemma_append_empty;
use crate::combinator::lemma_append_no_more;
use crate::combinator::lemma_append_prepend;
use crate::combinator::lift;
use crate::combinator::list;
use crate::combinator::no_more;
use crate::combinator::or_else;
use crate::combinator::prepend;
use crate::combinator::rest;
use crate::combinator::seq2;
use crate::combinator::seq3;
use crate::combinator::variant;
use crate::combinator::well_spanned;
use crate::context::Input;
use crate::context::MemoRule;
use crate::context::Parser;
use crate::failure::Failure;
use crate::node::List;
use crate::node::separated;
use crate::parser::expressions::expressions::Expression;
use crate::parser::expressions::expressions::expression;
use crate::parser::general::identifiers::VariableIdentifier;
use crate::parser::nesting::Nesting;
use crate::parser::nesting::nesting;
use crate::span::Span;
use crate::token::Symbol;
use crate::token::identifier;
use crate::token::spec_identifier;
use crate::token::spec_symbol;
use crate::token::symbol;
use crate::tree::Tree;
use crate::tree::group_layout;
use crate::tree::group_leaves;
use crate::tree::leaves_after;
use crate::tree::tiled;
use crate::tree::width;

verus! {

broadcast use {group_layout, group_leaves};

/// `pattern_variable ::= "." variable_identifier`
#[derive(Debug)]
pub struct PatternVariable {
    pub nodes: (Symbol, VariableIdentifier),
}

/// `pattern_list ::= "'{" pattern { "," pattern } "}"`
#[derive(Debug)]
pub struct PatternList {
    pub nodes: (Symbol, List<Symbol, Pattern>, Symbol),
}

/// A pattern: `.*`, a variable to bind, a list of patterns, or a constant expression.
#[derive(Debug)]
pub enum Pattern {
    Asterisk(Box<Symbol>),
    Variable(Box<PatternVariable>),
    List(Box<PatternList>),
    ConstantExpression(Box<Expression>),
}

impl PatternVariable {
    /// The tree of the node: the sequence of the trees of its parts.
    #[verifier::opaque]
    pub open spec fn tree(&self) -> Tree {
        Tree::Sequence(
            Seq::empty()
                .push(self.nodes.0.tree())
                .push(self.nodes.1.tree()),
        )
    }

    /// Appends the leaf spans of the node to `out`, in source order.
    pub fn leaf_spans(&self, out: &mut Vec<Span>)
        ensures
            final(out)@ == leaves_after(old(out)@, self.tree()),
    {
        proof {
            reveal(PatternVariable::tree);
        }
        self.nodes.0.leaf_spans(out);
        self.nodes.1.leaf_spans(out);
    }
}

impl PatternList {
    /// The tree of the node: the sequence of the trees of its parts.
    pub open spec fn tree(&self) -> Tree
        decreases self,
    {
        Tree::Sequence(
            Seq::empty()
                .push(self.nodes.0.tree())
                .push(
                    self.nodes.1.tree(
                        self.nodes.1.nodes.0.tree(),
                        pattern_tail_trees(self.nodes.1.nodes.1@),
                    ),
                )
                .push(self.nodes.2.tree()),
        )
    }

    /// Appends the leaf spans of the node to `out`, in source order.
    pub fn leaf_spans(&self, out: &mut Vec<Span>)
        ensures
            final(out)@ == leaves_after(old(out)@, self.tree()),
        decreases self,
    {
        self.nodes.0.leaf_spans(out);
        self.nodes.1.nodes.0.leaf_spans(out);
        pattern_tail_leaf_spans(&self.nodes.1.nodes.1, out);
        self.nodes.2.leaf_spans(out);
    }
}

impl Pattern {
    /// The tree of the node: the variant, by its index, and the tree of its payload.
    pub open spec fn tree(&self) -> Tree
        decreases self,
    {
        match self {
            Pattern::Asterisk(x) => Tree::Variant(0, Box::new(x.tree())),
            Pattern::Variable(x) => Tree::Variant(1, Box::new(x.tree())),
            Pattern::List(x) => Tree::Variant(2, Box::new(x.tree())),
            Pattern::ConstantExpression(x) => Tree::Variant(3, Box::new(x.tree())),
        }
    }

    /// Appends the leaf spans of the node to `out`, in source order.
    pub fn leaf_spans(&self, out: &mut Vec<Span>)
        ensures
            final(out)@ == leaves_after(old(out)@, self.tree()),
        decreases self,
    {
        match self {
            Pattern::Asterisk(x) => {
                x.leaf_spans(out);
            },
            Pattern::Variable(x) => {
                x.leaf_spans(out);
            },
            Pattern::List(x) => {
                x.leaf_spans(out);
            },
            Pattern::ConstantExpression(x) => {
                x.leaf_spans(out);
            },
        }
    }
}

/// The trees of a list of such nodes, in order.
pub open spec fn pattern_tail_trees(s: Seq<(Symbol, Pattern)>) -> Seq<Tree>
    decreases s,
{
    Seq::new(
        s.len(),
        |i: int| if 0 <= i < s.len() {
            separated(s[i].0.tree(), s[i].1.tree())
        } else {
            arbitrary()
        },
    )
}

/// The trees of a list that has one more node at its end.
pub proof fn lemma_pattern_tail_trees_push(s: Seq<(Symbol, Pattern)>, x: (Symbol, Pattern))
    ensures
        pattern_tail_trees(s.push(x)) == pattern_tail_trees(s).push(
            separated(x.0.tree(), x.1.tree()),
        ),
{
    reveal(pattern_tail_trees);
    assert forall|i: int| 0 <= i < s.len() + 1 implies
        #[trigger] pattern_tail_trees(s.push(x))[i]
        == pattern_tail_trees(s).push(separated(x.0.tree(), x.1.tree()))[i] by {
        let y = s.push(x)[i];
        assert(separated(y.0.tree(), y.1.tree()) == if i < s.len() {
            separated(s[i].0.tree(), s[i].1.tree())
        } else {
            separated(x.0.tree(), x.1.tree())
        });
    }
    assert(
        pattern_tail_trees(s.push(x)) =~= pattern_tail_trees(s).push(
            separated(x.0.tree(), x.1.tree()),
        )
    );
}

/// The empty list has no trees.
pub proof fn lemma_pattern_tail_trees_empty()
    ensures
        pattern_tail_trees(Seq::empty()) == Seq::<Tree>::empty(),
{
    reveal(pattern_tail_trees);
    assert(pattern_tail_trees(Seq::empty()) =~= Seq::<Tree>::empty());
}

/// Appends the leaf spans of a list of nodes to `out`, in source order.
pub fn pattern_tail_leaf_spans(v: &Vec<(Symbol, Pattern)>, out: &mut Vec<Span>)
    ensures
        final(out)@ == leaves_after(old(out)@, Tree::Repeat(pattern_tail_trees(v@))),
    decreases v,
{
    let mut i: usize = 0;
    proof {
        lemma_pattern_tail_trees_empty();
        assert(v@.take(0) =~= Seq::empty());
    }
    while i < v.len()
        invariant
            i <= v@.len(),
            out@ == leaves_after(old(out)@, Tree::Repeat(pattern_tail_trees(v@.take(i as int)))),
        decreases v@.len() - i,
    {
        v[i].0.leaf_spans(out);
        v[i].1.leaf_spans(out);
        proof {
            lemma_pattern_tail_trees_push(v@.take(i as int), v@[i as int]);
            assert(v@.take(i as int).push(v@[i as int]) =~= v@.take(i + 1));
        }
        i = i + 1;
    }
    proof {
        assert(v@.take(v@.len() as int) =~= v@);
    }
}

impl Clone for PatternVariable {
    /// A copy with the same tree.
    fn clone(&self) -> (r: Self)
        ensures
            r.tree() == self.tree(),
    {
        proof {
            reveal(PatternVariable::tree);
        }
        PatternVariable {
            nodes: (
                self.nodes.0,
                self.nodes.1,
            ),
        }
    }
}

impl Clone for PatternList {
    /// A copy with the same tree.
    fn clone(&self) -> (r: Self)
        ensures
            r.tree() == self.tree(),
        decreases self,
    {
        PatternList {
            nodes: (
                self.nodes.0,
                List {
                    nodes: (
                        self.nodes.1.nodes.0.clone(),
                        clone_pattern_tail_vec(&self.nodes.1.nodes.1),
                    ),
                },
                self.nodes.2,
            ),
        }
    }
}

impl Clone for Pattern {
    /// A copy with the same tree.
    fn clone(&self) -> (r: Self)
        ensures
            r.tree() == self.tree(),
        decreases self,
    {
        match self {
            Pattern::Asterisk(x) => Pattern::Asterisk(Box::new(**x)),
            Pattern::Variable(x) => Pattern::Variable(Box::new((**x).clone())),
            Pattern::List(x) => Pattern::List(Box::new((**x).clone())),
            Pattern::ConstantExpression(x) => Pattern::ConstantExpression(Box::new((**x).clone())),
        }
    }
}

/// A copy of a list of nodes with the same trees.
pub fn clone_pattern_tail_vec(v: &Vec<(Symbol, Pattern)>) -> (r: Vec<(Symbol, Pattern)>)
    ensures
        pattern_tail_trees(r@) == pattern_tail_trees(v@),
    decreases v,
{
    let mut out: Vec<(Symbol, Pattern)> = Vec::new();
    let mut i: usize = 0;
    proof {
        assert(out@ =~= v@.take(0));
    }
    while i < v.len()
        invariant
            i <= v@.len(),
            pattern_tail_trees(out@) == pattern_tail_trees(v@.take(i as int)),
        decreases v@.len() - i,
    {
        let x = (v[i].0, v[i].1.clone());
        proof {
            lemma_pattern_tail_trees_push(out@, x);
            lemma_pattern_tail_trees_push(v@.take(i as int), v@[i as int]);
            assert(v@.take(i as int).push(v@[i as int]) =~= v@.take(i + 1));
        }
        out.push(x);
        i = i + 1;
    }
    proof {
        assert(v@.take(v@.len() as int) =~= v@);
    }
    out
}

/// `pattern_variable ::= "." variable_identifier`
#[verifier::opaque]
pub open spec fn spec_pattern_variable(inp: Input, pos: int) -> Parsed {
    let a = spec_symbol(inp, pos, ".");
    let b = spec_identifier(inp, rest(a));
    variant(1, seq2(a, b))
}

/// Parses a `pattern_variable` at `pos`.
pub fn pattern_variable(ctx: &Parser, pos: usize) -> (r: Result<(usize, Pattern), Failure>)
    requires
        pos <= ctx.input().src.len(),
    ensures
        lift(r, |n: Pattern| n.tree()) == spec_pattern_variable(ctx.input(), pos as int),
        well_spanned(
            spec_pattern_variable(ctx.input(), pos as int),
            pos as int,
            ctx.input().src.len() as int,
        ),
{
    proof {
        reveal(spec_pattern_variable);
        reveal(PatternVariable::tree);
    }
    let p = pos;
    let (p, a) = symbol(ctx, p, ".")?;
    let (p, b) = identifier(ctx, p)?;
    Ok((p, Pattern::Variable(Box::new(PatternVariable { nodes: (a, b) }))))
}

/// `pattern_list ::= "'{" pattern { "," pattern } "}"` Once `'{` has matched, a failure
/// is committed.
#[verifier::opaque]
pub open spec fn spec_pattern_list(inp: Input, pos: int, nest: Nesting) -> Parsed {
    let a = spec_symbol(inp, pos, "'{");
    let b0 = cut((nest.pattern)(rest(a)));
    let b1 = spec_pattern_tail(inp, rest(b0), nest);
    let b = list(b0, b1);
    let c = cut(spec_symbol(inp, rest(b), "}"));
    variant(2, seq3(a, b, c))
}

/// Parses a `pattern_list` at `pos`.
pub fn pattern_list(ctx: &mut Parser, pos: usize, depth: usize) -> (r: Result<
    (usize, Pattern),
    Failure,
>)
    requires
        old(ctx).wf(),
        pos <= old(ctx).input().src.len(),
    ensures
        final(ctx).wf(),
        final(ctx).input() == old(ctx).input(),
        lift(r, |n: Pattern| n.tree()) == spec_pattern_list(
            old(ctx).input(),
            pos as int,
            nesting(old(ctx).input(), depth as nat),
        ),
        well_spanned(
            spec_pattern_list(
                old(ctx).input(),
                pos as int,
                nesting(old(ctx).input(), depth as nat),
            ),
            pos as int,
            old(ctx).input().src.len() as int,
        ),
    decreases depth, 2nat,
{
    proof {
        reveal(spec_pattern_list);
    }
    let p = pos;
    let (p, a) = symbol(ctx, p, "'{")?;
    let (p, b0) = commit(pattern(ctx, p, depth))?;
    let (p, b1) = pattern_tail(ctx, p, depth)?;
    let b = List { nodes: (b0, b1) };
    let (p, c) = commit(symbol(ctx, p, "}"))?;
    Ok((p, Pattern::List(Box::new(PatternList { nodes: (a, b, c) }))))
}

/// `pattern ::= ".*" | pattern_variable | pattern_list | expression`
#[verifier::opaque]
pub open spec fn spec_pattern_choice(inp: Input, pos: int, nest: Nesting) -> Parsed {
    let r = variant(0, spec_symbol(inp, pos, ".*"));
    let r = or_else(r, spec_pattern_variable(inp, pos));
    let r = or_else(r, spec_pattern_list(inp, pos, nest));
    let r = or_else(r, variant(3, (nest.expression)(pos)));
    r
}

/// Parses a `pattern` at `pos`: the first alternative that matches.
pub fn pattern_choice(ctx: &mut Parser, pos: usize, depth: usize) -> (r: Result<
    (usize, Pattern),
    Failure,
>)
    requires
        old(ctx).wf(),
        pos <= old(ctx).input().src.len(),
    ensures
        final(ctx).wf(),
        final(ctx).input() == old(ctx).input(),
        lift(r, |n: Pattern| n.tree()) == spec_pattern_choice(
            old(ctx).input(),
            pos as int,
            nesting(old(ctx).input(), depth as nat),
        ),
        well_spanned(
            spec_pattern_choice(
                old(ctx).input(),
                pos as int,
                nesting(old(ctx).input(), depth as nat),
            ),
            pos as int,
            old(ctx).input().src.len() as int,
        ),
    decreases depth, 3nat,
{
    proof {
        reveal(spec_pattern_choice);
    }
    let e = match symbol(ctx, pos, ".*") {
        Ok((p, x)) => return Ok((p, Pattern::Asterisk(Box::new(x)))),
        Err(e) => e,
    };
    if e.committed {
        return Err(e);
    }
    let e = match pattern_variable(ctx, pos) {
        Ok(x) => return Ok(x),
        Err(f) => if f.committed {
            return Err(f);
        } else {
            e.or_deeper(f)
        },
    };
    let e = match pattern_list(ctx, pos, depth) {
        Ok(x) => return Ok(x),
        Err(f) => if f.committed {
            return Err(f);
        } else {
            e.or_deeper(f)
        },
    };
    let e = match expression(ctx, pos, depth) {
        Ok((p, x)) => return Ok((p, Pattern::ConstantExpression(Box::new(x)))),
        Err(f) => if f.committed {
            return Err(f);
        } else {
            e.or_deeper(f)
        },
    };
    Err(e)
}

/// A pattern, on a new level of nesting: fails with `TooDeep` when no depth is left,
/// and else is whichever alternative of the rule matches first, with one level less.
pub open spec fn spec_pattern(inp: Input, pos: int, depth: nat) -> Parsed
    decreases depth, 0nat,
{
    if depth == 0 {
        Err(Failure::too_deep(pos))
    } else {
        spec_pattern_choice(inp, pos, nesting(inp, (depth - 1) as nat))
    }
}

/// Parses a `pattern` at `pos`, with `depth` levels of nesting left. The outcome is
/// kept in the memo table, and taken from it where the table already holds it.
pub fn pattern(ctx: &mut Parser, pos: usize, depth: usize) -> (r: Result<(usize, Pattern), Failure>)
    requires
        old(ctx).wf(),
        pos <= old(ctx).input().src.len(),
    ensures
        final(ctx).wf(),
        final(ctx).input() == old(ctx).input(),
        lift(r, |n: Pattern| n.tree()) == spec_pattern(old(ctx).input(), pos as int, depth as nat),
        well_spanned(
            spec_pattern(old(ctx).input(), pos as int, depth as nat),
            pos as int,
            old(ctx).input().src.len() as int,
        ),
        depth > 0 ==> final(ctx).remembered(MemoRule::Pattern).contains(pos),
    decreases depth, 0nat,
{
    if depth == 0 {
        return Err(Failure::nesting(pos));
    }
    match ctx.recall_pattern(pos, depth) {
        Some(known) => {
            return known;
        },
        None => {},
    }
    let r = pattern_choice(ctx, pos, depth - 1);
    ctx.record_pattern(pos, depth, &r);
    r
}

/// `pattern_tail ::= { "," pattern }` Stops before the first item that does not match,
/// or that matches nothing.
#[verifier::opaque]
pub open spec fn spec_pattern_tail(inp: Input, pos: int, nest: Nesting) -> Parsed
    decreases inp.src.len() - pos,
{
    let a = spec_symbol(inp, pos, ",");
    let b = (nest.pattern)(rest(a));
    match seq2(a, b) {
        Ok((p, t)) => if pos < p <= inp.src.len() {
            prepend(t, spec_pattern_tail(inp, p, nest))
        } else {
            no_more(pos)
        },
        Err(e) => if e.committed {
            Err(e)
        } else {
            no_more(pos)
        },
    }
}

/// Parses as many items as match at `pos`, one after the other: `{ "," pattern }`.
pub fn pattern_tail(ctx: &mut Parser, pos: usize, depth: usize) -> (r: Result<
    (usize, Vec<(Symbol, Pattern)>),
    Failure,
>)
    requires
        old(ctx).wf(),
        pos <= old(ctx).input().src.len(),
    ensures
        final(ctx).wf(),
        final(ctx).input() == old(ctx).input(),
        lift(r, |n: Vec<(Symbol, Pattern)>| Tree::Repeat(pattern_tail_trees(n@)))
            == spec_pattern_tail(
                old(ctx).input(),
                pos as int,
                nesting(old(ctx).input(), depth as nat),
            ),
        well_spanned(
            spec_pattern_tail(
                old(ctx).input(),
                pos as int,
                nesting(old(ctx).input(), depth as nat),
            ),
            pos as int,
            old(ctx).input().src.len() as int,
        ),
    decreases depth, 1nat,
{
    proof {
        reveal(spec_pattern_tail);
    }
    let ghost inp = ctx.input();
    let mut items: Vec<(Symbol, Pattern)> = Vec::new();
    let mut cur: usize = pos;
    proof {
        lemma_append_empty(spec_pattern_tail(inp, pos as int, nesting(inp, depth as nat)));
        lemma_pattern_tail_trees_empty();
    }
    loop
        invariant
            ctx.wf(),
            ctx.input() == inp,
            inp == old(ctx).input(),
            pos <= cur <= inp.src.len(),
            spec_pattern_tail(inp, pos as int, nesting(inp, depth as nat)) == append(
                pattern_tail_trees(items@),
                spec_pattern_tail(inp, cur as int, nesting(inp, depth as nat)),
            ),
            tiled(Tree::Repeat(pattern_tail_trees(items@)), pos as int),
            cur == pos + width(Tree::Repeat(pattern_tail_trees(items@))),
        decreases inp.src.len() - cur,
    {
        proof {
            reveal(spec_pattern_tail);
        }
        let (q, s) = match symbol(ctx, cur, ",") {
            Ok(found) => found,
            Err(e) => {
                if e.committed {
                    return Err(e);
                }
                proof {
                    lemma_append_no_more(pattern_tail_trees(items@), cur as int);
                }
                return Ok((cur, items));
            },
        };
        let (p, y) = match pattern(ctx, q, depth) {
            Ok(found) => found,
            Err(e) => {
                if e.committed {
                    return Err(e);
                }
                proof {
                    lemma_append_no_more(pattern_tail_trees(items@), cur as int);
                }
                return Ok((cur, items));
            },
        };
        let x = (s, y);
        if p <= cur {
            proof {
                lemma_append_no_more(pattern_tail_trees(items@), cur as int);
            }
            return Ok((cur, items));
        }
        proof {
            lemma_append_prepend(
                pattern_tail_trees(items@),
                separated(x.0.tree(), x.1.tree()),
                spec_pattern_tail(inp, p as int, nesting(inp, depth as nat)),
            );
            lemma_pattern_tail_trees_push(items@, x);
        }
        items.push(x);
        cur = p;
    }
}

} // verus!
