//! Conditional statements.
use vstd::prelude::*;
use crate::combinator::Parsed;
use crate::combinator::append;
use crate::combinator::commit;
use crate::combinator::cut;
use crate::combinator::delimited;
use crate::combinator::lemma_append_empty;
use crate::combinator::lemma_append_no_more;
use crate::combinator::lemma_append_prepend;
use crate::combinator::lift;
use crate::combinator::list;
use crate::combinator::no_more;
use crate::combinator::opt;
use crate::combinator::optional;
use crate::combinator::or_else;
use crate::combinator::prepend;
use crate::combinator::rest;
use crate::combinator::seq1;
use crate::combinator::seq2;
use crate::combinator::seq3;
use crate::combinator::seq4;
use crate::combinator::seq6;
use crate::combinator::variant;
use crate::combinator::well_spanned;
use crate::context::Input;
use crate::context::Parser;
use crate::failure::Failure;
use crate::node::List;
use crate::node::Paren;
use crate::node::separated;
use crate::parser::behavioral_statements::patterns::Pattern;
use crate::parser::behavioral_statements::patterns::pattern;
use crate::parser::behavioral_statements::statements::StatementOrNull;
use crate::parser::behavioral_statements::statements::statement_or_null;
use crate::parser::expressions::expressions::Expression;
use crate::parser::expressions::expressions::expression;
use crate::parser::nesting::Nesting;
use crate::parser::nesting::nesting;
use crate::span::Span;
use crate::token::Keyword;
use crate::token::Symbol;
use crate::token::keyword;
use crate::token::spec_keyword;
use crate::token::spec_symbol;
use crate::token::symbol;
use crate::tree::Tree;
use crate::tree::group_layout;
use crate::tree::group_leaves;
use crate::tree::leaves_after;
use crate::tree::tiled;
use crate::tree::width;

verus! {

broadcast use {group_layout, group_leaves};

/// `conditional_statement ::= [ unique_priority ] "if" "(" cond_predicate ")"
/// statement_or_null { else_if } [ else_branch ]`
#[derive(Debug)]
pub struct ConditionalStatement {
    pub nodes: (
        Option<UniquePriority>,
        Keyword,
        Paren<CondPredicate>,
        StatementOrNull,
        Vec<(Keyword, Keyword, Paren<CondPredicate>, StatementOrNull)>,
        Option<(Keyword, StatementOrNull)>,
    ),
}

/// How the branches of a statement are checked against each other.
#[derive(Debug)]
pub enum UniquePriority {
    Unique(Keyword),
    Unique0(Keyword),
    Priority(Keyword),
}

/// `cond_predicate ::= expression_or_cond_pattern { "," expression_or_cond_pattern }`
#[derive(Debug)]
pub struct CondPredicate {
    pub nodes: (List<Symbol, ExpressionOrCondPattern>,),
}

/// One clause of a predicate: an expression, or an expression matched against a
/// pattern.
#[derive(Debug)]
pub enum ExpressionOrCondPattern {
    Expression(Expression),
    CondPattern(CondPattern),
}

/// `cond_pattern ::= expression "matches" pattern`
#[derive(Debug)]
pub struct CondPattern {
    pub nodes: (Expression, Keyword, Pattern),
}

/// What [`else_if`] returns.
pub type ElseIf = (Keyword, Keyword, Paren<CondPredicate>, StatementOrNull);

/// What [`else_branch`] returns.
pub type ElseBranch = (Keyword, StatementOrNull);

impl ConditionalStatement {
    /// The tree of the node: the sequence of the trees of its parts.
    pub open spec fn tree(&self) -> Tree
        decreases self,
    {
        Tree::Sequence(
            Seq::empty()
                .push(
                    match self.nodes.0 {
                        Some(x) => Tree::Optional(Some(Box::new(x.tree()))),
                        None => Tree::Optional(None),
                    },
                )
                .push(self.nodes.1.tree())
                .push(self.nodes.2.tree(self.nodes.2.nodes.1.tree()))
                .push(self.nodes.3.tree())
                .push(Tree::Repeat(else_if_trees(self.nodes.4@)))
                .push(
                    match self.nodes.5 {
                        Some(x) => Tree::Optional(Some(Box::new(else_branch_tree(x)))),
                        None => Tree::Optional(None),
                    },
                ),
        )
    }

    /// Appends the leaf spans of the node to `out`, in source order.
    pub fn leaf_spans(&self, out: &mut Vec<Span>)
        ensures
            final(out)@ == leaves_after(old(out)@, self.tree()),
        decreases self,
    {
        match &self.nodes.0 {
            Some(x) => {
                x.leaf_spans(out);
            },
            None => {},
        }
        self.nodes.1.leaf_spans(out);
        self.nodes.2.nodes.0.leaf_spans(out);
        self.nodes.2.nodes.1.leaf_spans(out);
        self.nodes.2.nodes.2.leaf_spans(out);
        self.nodes.3.leaf_spans(out);
        else_if_leaf_spans(&self.nodes.4, out);
        match &self.nodes.5 {
            Some(x) => {
                x.0.leaf_spans(out);
                x.1.leaf_spans(out);
            },
            None => {},
        }
    }
}

impl UniquePriority {
    /// The tree of the node: the variant, by its index, and the tree of its payload.
    #[verifier::opaque]
    pub open spec fn tree(&self) -> Tree {
        match self {
            UniquePriority::Unique(x) => Tree::Variant(0, Box::new(x.tree())),
            UniquePriority::Unique0(x) => Tree::Variant(1, Box::new(x.tree())),
            UniquePriority::Priority(x) => Tree::Variant(2, Box::new(x.tree())),
        }
    }

    /// Appends the leaf spans of the node to `out`, in source order.
    pub fn leaf_spans(&self, out: &mut Vec<Span>)
        ensures
            final(out)@ == leaves_after(old(out)@, self.tree()),
    {
        proof {
            reveal(UniquePriority::tree);
        }
        match self {
            UniquePriority::Unique(x) => {
                x.leaf_spans(out);
            },
            UniquePriority::Unique0(x) => {
                x.leaf_spans(out);
            },
            UniquePriority::Priority(x) => {
                x.leaf_spans(out);
            },
        }
    }
}

impl CondPredicate {
    /// The tree of the node: the sequence of the trees of its parts.
    pub open spec fn tree(&self) -> Tree
        decreases self,
    {
        Tree::Sequence(
            Seq::empty()
                .push(
                    self.nodes.0.tree(
                        self.nodes.0.nodes.0.tree(),
                        expression_or_cond_pattern_tail_trees(self.nodes.0.nodes.1@),
                    ),
                ),
        )
    }

    /// Appends the leaf spans of the node to `out`, in source order.
    pub fn leaf_spans(&self, out: &mut Vec<Span>)
        ensures
            final(out)@ == leaves_after(old(out)@, self.tree()),
        decreases self,
    {
        self.nodes.0.nodes.0.leaf_spans(out);
        expression_or_cond_pattern_tail_leaf_spans(&self.nodes.0.nodes.1, out);
    }
}

impl ExpressionOrCondPattern {
    /// The tree of the node: the variant, by its index, and the tree of its payload.
    pub open spec fn tree(&self) -> Tree
        decreases self,
    {
        match self {
            ExpressionOrCondPattern::Expression(x) => Tree::Variant(0, Box::new(x.tree())),
            ExpressionOrCondPattern::CondPattern(x) => Tree::Variant(1, Box::new(x.tree())),
        }
    }

    /// Appends the leaf spans of the node to `out`, in source order.
    pub fn leaf_spans(&self, out: &mut Vec<Span>)
        ensures
            final(out)@ == leaves_after(old(out)@, self.tree()),
        decreases self,
    {
        match self {
            ExpressionOrCondPattern::Expression(x) => {
                x.leaf_spans(out);
            },
            ExpressionOrCondPattern::CondPattern(x) => {
                x.leaf_spans(out);
            },
        }
    }
}

impl CondPattern {
    /// The tree of the node: the sequence of the trees of its parts.
    pub open spec fn tree(&self) -> Tree
        decreases self,
    {
        Tree::Sequence(
            Seq::empty()
                .push(self.nodes.0.tree())
                .push(self.nodes.1.tree())
                .push(self.nodes.2.tree()),
        )
    }

    /// Appends the leaf spans of the node to `out`, in source order.
    pub fn leaf_spans(&self, out: &mut Vec<Span>)
        ensures
            final(out)@ == leaves_after(old(out)@, self.tree()),
        decreases self,
    {
        self.nodes.0.leaf_spans(out);
        self.nodes.1.leaf_spans(out);
        self.nodes.2.leaf_spans(out);
    }
}

/// The tree of what [`else_if`] returns.
pub open spec fn else_if_tree(n: ElseIf) -> Tree
    decreases n,
{
    Tree::Sequence(
        Seq::empty()
            .push(n.0.tree())
            .push(n.1.tree())
            .push(n.2.tree(n.2.nodes.1.tree()))
            .push(n.3.tree()),
    )
}

/// The tree of what [`else_branch`] returns.
pub open spec fn else_branch_tree(n: ElseBranch) -> Tree
    decreases n,
{
    Tree::Sequence(Seq::empty().push(n.0.tree()).push(n.1.tree()))
}

/// The trees of a list of such nodes, in order.
pub open spec fn else_if_trees(s: Seq<ElseIf>) -> Seq<Tree>
    decreases s,
{
    Seq::new(
        s.len(),
        |i: int| if 0 <= i < s.len() {
            else_if_tree(s[i])
        } else {
            arbitrary()
        },
    )
}

/// The trees of a list that has one more node at its end.
pub proof fn lemma_else_if_trees_push(s: Seq<ElseIf>, x: ElseIf)
    ensures
        else_if_trees(s.push(x)) == else_if_trees(s).push(else_if_tree(x)),
{
    reveal(else_if_trees);
    assert forall|i: int| 0 <= i < s.len() + 1 implies
        #[trigger] else_if_trees(s.push(x))[i]
        == else_if_trees(s).push(else_if_tree(x))[i] by {
        let y = s.push(x)[i];
        assert(else_if_tree(y) == if i < s.len() {
            else_if_tree(s[i])
        } else {
            else_if_tree(x)
        });
    }
    assert(else_if_trees(s.push(x)) =~= else_if_trees(s).push(else_if_tree(x)));
}

/// The empty list has no trees.
pub proof fn lemma_else_if_trees_empty()
    ensures
        else_if_trees(Seq::empty()) == Seq::<Tree>::empty(),
{
    reveal(else_if_trees);
    assert(else_if_trees(Seq::empty()) =~= Seq::<Tree>::empty());
}

/// Appends the leaf spans of a list of nodes to `out`, in source order.
pub fn else_if_leaf_spans(v: &Vec<ElseIf>, out: &mut Vec<Span>)
    ensures
        final(out)@ == leaves_after(old(out)@, Tree::Repeat(else_if_trees(v@))),
    decreases v,
{
    let mut i: usize = 0;
    proof {
        lemma_else_if_trees_empty();
        assert(v@.take(0) =~= Seq::empty());
    }
    while i < v.len()
        invariant
            i <= v@.len(),
            out@ == leaves_after(old(out)@, Tree::Repeat(else_if_trees(v@.take(i as int)))),
        decreases v@.len() - i,
    {
        v[i].0.leaf_spans(out);
        v[i].1.leaf_spans(out);
        v[i].2.nodes.0.leaf_spans(out);
        v[i].2.nodes.1.leaf_spans(out);
        v[i].2.nodes.2.leaf_spans(out);
        v[i].3.leaf_spans(out);
        proof {
            lemma_else_if_trees_push(v@.take(i as int), v@[i as int]);
            assert(v@.take(i as int).push(v@[i as int]) =~= v@.take(i + 1));
        }
        i = i + 1;
    }
    proof {
        assert(v@.take(v@.len() as int) =~= v@);
    }
}

/// The trees of a list of such nodes, in order.
pub open spec fn expression_or_cond_pattern_tail_trees(
    s: Seq<(Symbol, ExpressionOrCondPattern)>,
) -> Seq<Tree>
    decreases s,
{
    Seq::new(
        s.len(),
        |i: int| if 0 <= i < s.len() {
            separated(s[i].0.tree(), s[i].1.tree())
        } else {
            arbitrary()
        },
    )
}

/// The trees of a list that has one more node at its end.
pub proof fn lemma_expression_or_cond_pattern_tail_trees_push(
    s: Seq<(Symbol, ExpressionOrCondPattern)>,
    x: (Symbol, ExpressionOrCondPattern),
)
    ensures
        expression_or_cond_pattern_tail_trees(s.push(x))
            == expression_or_cond_pattern_tail_trees(s).push(separated(x.0.tree(), x.1.tree())),
{
    reveal(expression_or_cond_pattern_tail_trees);
    assert forall|i: int| 0 <= i < s.len() + 1 implies
        #[trigger] expression_or_cond_pattern_tail_trees(s.push(x))[i]
        == expression_or_cond_pattern_tail_trees(s).push(separated(x.0.tree(), x.1.tree()))[i] by {
        let y = s.push(x)[i];
        assert(separated(y.0.tree(), y.1.tree()) == if i < s.len() {
            separated(s[i].0.tree(), s[i].1.tree())
        } else {
            separated(x.0.tree(), x.1.tree())
        });
    }
    assert(
        expression_or_cond_pattern_tail_trees(s.push(x))
            =~= expression_or_cond_pattern_tail_trees(s).push(separated(x.0.tree(), x.1.tree()))
    );
}

/// The empty list has no trees.
pub proof fn lemma_expression_or_cond_pattern_tail_trees_empty()
    ensures
        expression_or_cond_pattern_tail_trees(Seq::empty()) == Seq::<Tree>::empty(),
{
    reveal(expression_or_cond_pattern_tail_trees);
    assert(expression_or_cond_pattern_tail_trees(Seq::empty()) =~= Seq::<Tree>::empty());
}

/// Appends the leaf spans of a list of nodes to `out`, in source order.
pub fn expression_or_cond_pattern_tail_leaf_spans(
    v: &Vec<(Symbol, ExpressionOrCondPattern)>,
    out: &mut Vec<Span>,
)
    ensures
        final(out)@ == leaves_after(
            old(out)@,
            Tree::Repeat(expression_or_cond_pattern_tail_trees(v@)),
        ),
    decreases v,
{
    let mut i: usize = 0;
    proof {
        lemma_expression_or_cond_pattern_tail_trees_empty();
        assert(v@.take(0) =~= Seq::empty());
    }
    while i < v.len()
        invariant
            i <= v@.len(),
            out@ == leaves_after(
                old(out)@,
                Tree::Repeat(expression_or_cond_pattern_tail_trees(v@.take(i as int))),
            ),
        decreases v@.len() - i,
    {
        v[i].0.leaf_spans(out);
        v[i].1.leaf_spans(out);
        proof {
            lemma_expression_or_cond_pattern_tail_trees_push(v@.take(i as int), v@[i as int]);
            assert(v@.take(i as int).push(v@[i as int]) =~= v@.take(i + 1));
        }
        i = i + 1;
    }
    proof {
        assert(v@.take(v@.len() as int) =~= v@);
    }
}

impl Clone for CondPredicate {
    /// A copy with the same tree.
    fn clone(&self) -> (r: Self)
        ensures
            r.tree() == self.tree(),
        decreases self,
    {
        CondPredicate {
            nodes: (
                List {
                    nodes: (
                        self.nodes.0.nodes.0.clone(),
                        clone_expression_or_cond_pattern_tail_vec(&self.nodes.0.nodes.1),
                    ),
                },
            ),
        }
    }
}

impl Clone for ExpressionOrCondPattern {
    /// A copy with the same tree.
    fn clone(&self) -> (r: Self)
        ensures
            r.tree() == self.tree(),
        decreases self,
    {
        match self {
            ExpressionOrCondPattern::Expression(x) => ExpressionOrCondPattern::Expression(
                x.clone(),
            ),
            ExpressionOrCondPattern::CondPattern(x) => ExpressionOrCondPattern::CondPattern(
                x.clone(),
            ),
        }
    }
}

impl Clone for CondPattern {
    /// A copy with the same tree.
    fn clone(&self) -> (r: Self)
        ensures
            r.tree() == self.tree(),
        decreases self,
    {
        CondPattern {
            nodes: (
                self.nodes.0.clone(),
                self.nodes.1,
                self.nodes.2.clone(),
            ),
        }
    }
}

/// A copy of a list of nodes with the same trees.
pub fn clone_expression_or_cond_pattern_tail_vec(
    v: &Vec<(Symbol, ExpressionOrCondPattern)>,
) -> (r: Vec<(Symbol, ExpressionOrCondPattern)>)
    ensures
        expression_or_cond_pattern_tail_trees(r@) == expression_or_cond_pattern_tail_trees(v@),
    decreases v,
{
    let mut out: Vec<(Symbol, ExpressionOrCondPattern)> = Vec::new();
    let mut i: usize = 0;
    proof {
        assert(out@ =~= v@.take(0));
    }
    while i < v.len()
        invariant
            i <= v@.len(),
            expression_or_cond_pattern_tail_trees(out@) == expression_or_cond_pattern_tail_trees(
                v@.take(i as int),
            ),
        decreases v@.len() - i,
    {
        let x = (v[i].0, v[i].1.clone());
        proof {
            lemma_expression_or_cond_pattern_tail_trees_push(out@, x);
            lemma_expression_or_cond_pattern_tail_trees_push(v@.take(i as int), v@[i as int]);
            assert(v@.take(i as int).push(v@[i as int]) =~= v@.take(i + 1));
        }
        out.push(x);
        i = i + 1;
    }
    proof {
        assert(v@.take(v@.len() as int) =~= v@);
    }
    out
}

/// `else_if ::= "else" "if" "(" cond_predicate ")" statement_or_null` Once `else if`
/// has matched, a failure is committed.
#[verifier::opaque]
pub open spec fn spec_else_if(inp: Input, pos: int, nest: Nesting) -> Parsed {
    let a = spec_keyword(inp, pos, "else");
    let b = spec_keyword(inp, rest(a), "if");
    let c0 = cut(spec_symbol(inp, rest(b), "("));
    let c1 = cut(spec_cond_predicate(inp, rest(c0), nest));
    let c2 = cut(spec_symbol(inp, rest(c1), ")"));
    let c = delimited(c0, c1, c2);
    let d = cut((nest.statement_or_null)(rest(c)));
    seq4(a, b, c, d)
}

/// Parses a `else_if` at `pos`.
pub fn else_if(ctx: &mut Parser, pos: usize, depth: usize) -> (r: Result<(usize, ElseIf), Failure>)
    requires
        old(ctx).wf(),
        pos <= old(ctx).input().src.len(),
    ensures
        final(ctx).wf(),
        final(ctx).input() == old(ctx).input(),
        lift(r, |n: ElseIf| else_if_tree(n)) == spec_else_if(
            old(ctx).input(),
            pos as int,
            nesting(old(ctx).input(), depth as nat),
        ),
        well_spanned(
            spec_else_if(old(ctx).input(), pos as int, nesting(old(ctx).input(), depth as nat)),
            pos as int,
            old(ctx).input().src.len() as int,
        ),
    decreases depth, 5nat,
{
    proof {
        reveal(spec_else_if);
    }
    let p = pos;
    let (p, a) = keyword(ctx, p, "else")?;
    let (p, b) = keyword(ctx, p, "if")?;
    let (p, c0) = commit(symbol(ctx, p, "("))?;
    let (p, c1) = commit(cond_predicate(ctx, p, depth))?;
    let (p, c2) = commit(symbol(ctx, p, ")"))?;
    let c = Paren { nodes: (c0, c1, c2) };
    let (p, d) = commit(statement_or_null(ctx, p, depth))?;
    Ok((p, (a, b, c, d)))
}

/// `else_branch ::= "else" statement_or_null` Once `else` has matched, a failure is
/// committed.
#[verifier::opaque]
pub open spec fn spec_else_branch(inp: Input, pos: int, nest: Nesting) -> Parsed {
    let a = spec_keyword(inp, pos, "else");
    let b = cut((nest.statement_or_null)(rest(a)));
    seq2(a, b)
}

/// Parses a `else_branch` at `pos`.
pub fn else_branch(ctx: &mut Parser, pos: usize, depth: usize) -> (r: Result<
    (usize, ElseBranch),
    Failure,
>)
    requires
        old(ctx).wf(),
        pos <= old(ctx).input().src.len(),
    ensures
        final(ctx).wf(),
        final(ctx).input() == old(ctx).input(),
        lift(r, |n: ElseBranch| else_branch_tree(n)) == spec_else_branch(
            old(ctx).input(),
            pos as int,
            nesting(old(ctx).input(), depth as nat),
        ),
        well_spanned(
            spec_else_branch(old(ctx).input(), pos as int, nesting(old(ctx).input(), depth as nat)),
            pos as int,
            old(ctx).input().src.len() as int,
        ),
    decreases depth, 1nat,
{
    proof {
        reveal(spec_else_branch);
    }
    let p = pos;
    let (p, a) = keyword(ctx, p, "else")?;
    let (p, b) = commit(statement_or_null(ctx, p, depth))?;
    Ok((p, (a, b)))
}

/// `conditional_statement ::= [ unique_priority ] "if" "(" cond_predicate ")"
/// statement_or_null { else_if } [ else_branch ]` Once `if` has matched, a failure is
/// committed.
#[verifier::opaque]
pub open spec fn spec_conditional_statement(inp: Input, pos: int, nest: Nesting) -> Parsed {
    let a = optional(spec_unique_priority(inp, pos), pos);
    let b = spec_keyword(inp, rest(a), "if");
    let c0 = cut(spec_symbol(inp, rest(b), "("));
    let c1 = cut(spec_cond_predicate(inp, rest(c0), nest));
    let c2 = cut(spec_symbol(inp, rest(c1), ")"));
    let c = delimited(c0, c1, c2);
    let d = cut((nest.statement_or_null)(rest(c)));
    let e = spec_many_else_if(inp, rest(d), nest);
    let f = optional(spec_else_branch(inp, rest(e), nest), rest(e));
    seq6(a, b, c, d, e, f)
}

/// Parses a `conditional_statement` at `pos`.
pub fn conditional_statement(ctx: &mut Parser, pos: usize, depth: usize) -> (r: Result<
    (usize, ConditionalStatement),
    Failure,
>)
    requires
        old(ctx).wf(),
        pos <= old(ctx).input().src.len(),
    ensures
        final(ctx).wf(),
        final(ctx).input() == old(ctx).input(),
        lift(r, |n: ConditionalStatement| n.tree()) == spec_conditional_statement(
            old(ctx).input(),
            pos as int,
            nesting(old(ctx).input(), depth as nat),
        ),
        well_spanned(
            spec_conditional_statement(
                old(ctx).input(),
                pos as int,
                nesting(old(ctx).input(), depth as nat),
            ),
            pos as int,
            old(ctx).input().src.len() as int,
        ),
    decreases depth, 7nat,
{
    proof {
        reveal(spec_conditional_statement);
    }
    let p = pos;
    let (p, a) = opt(unique_priority(ctx, p), p)?;
    let (p, b) = keyword(ctx, p, "if")?;
    let (p, c0) = commit(symbol(ctx, p, "("))?;
    let (p, c1) = commit(cond_predicate(ctx, p, depth))?;
    let (p, c2) = commit(symbol(ctx, p, ")"))?;
    let c = Paren { nodes: (c0, c1, c2) };
    let (p, d) = commit(statement_or_null(ctx, p, depth))?;
    let (p, e) = many_else_if(ctx, p, depth)?;
    let (p, f) = opt(else_branch(ctx, p, depth), p)?;
    Ok((p, ConditionalStatement { nodes: (a, b, c, d, e, f) }))
}

/// `unique_priority ::= "unique0" | "unique" | "priority"`
#[verifier::opaque]
pub open spec fn spec_unique_priority(inp: Input, pos: int) -> Parsed {
    let r = variant(1, spec_keyword(inp, pos, "unique0"));
    let r = or_else(r, variant(0, spec_keyword(inp, pos, "unique")));
    let r = or_else(r, variant(2, spec_keyword(inp, pos, "priority")));
    r
}

/// Parses a `unique_priority` at `pos`: the first alternative that matches.
pub fn unique_priority(ctx: &Parser, pos: usize) -> (r: Result<(usize, UniquePriority), Failure>)
    requires
        pos <= ctx.input().src.len(),
    ensures
        lift(r, |n: UniquePriority| n.tree()) == spec_unique_priority(ctx.input(), pos as int),
        well_spanned(
            spec_unique_priority(ctx.input(), pos as int),
            pos as int,
            ctx.input().src.len() as int,
        ),
{
    proof {
        reveal(spec_unique_priority);
        reveal(UniquePriority::tree);
    }
    let e = match keyword(ctx, pos, "unique0") {
        Ok((p, x)) => return Ok((p, UniquePriority::Unique0(x))),
        Err(e) => e,
    };
    if e.committed {
        return Err(e);
    }
    let e = match keyword(ctx, pos, "unique") {
        Ok((p, x)) => return Ok((p, UniquePriority::Unique(x))),
        Err(f) => if f.committed {
            return Err(f);
        } else {
            e.or_deeper(f)
        },
    };
    let e = match keyword(ctx, pos, "priority") {
        Ok((p, x)) => return Ok((p, UniquePriority::Priority(x))),
        Err(f) => if f.committed {
            return Err(f);
        } else {
            e.or_deeper(f)
        },
    };
    Err(e)
}

/// `cond_predicate ::= expression_or_cond_pattern { "," expression_or_cond_pattern }`
#[verifier::opaque]
pub open spec fn spec_cond_predicate(inp: Input, pos: int, nest: Nesting) -> Parsed {
    let a0 = spec_expression_or_cond_pattern(inp, pos, nest);
    let a1 = spec_expression_or_cond_pattern_tail(inp, rest(a0), nest);
    let a = list(a0, a1);
    seq1(a)
}

/// Parses a `cond_predicate` at `pos`.
pub fn cond_predicate(ctx: &mut Parser, pos: usize, depth: usize) -> (r: Result<
    (usize, CondPredicate),
    Failure,
>)
    requires
        old(ctx).wf(),
        pos <= old(ctx).input().src.len(),
    ensures
        final(ctx).wf(),
        final(ctx).input() == old(ctx).input(),
        lift(r, |n: CondPredicate| n.tree()) == spec_cond_predicate(
            old(ctx).input(),
            pos as int,
            nesting(old(ctx).input(), depth as nat),
        ),
        well_spanned(
            spec_cond_predicate(
                old(ctx).input(),
                pos as int,
                nesting(old(ctx).input(), depth as nat),
            ),
            pos as int,
            old(ctx).input().src.len() as int,
        ),
    decreases depth, 4nat,
{
    proof {
        reveal(spec_cond_predicate);
    }
    let p = pos;
    let (p, a0) = expression_or_cond_pattern(ctx, p, depth)?;
    let (p, a1) = expression_or_cond_pattern_tail(ctx, p, depth)?;
    let a = List { nodes: (a0, a1) };
    Ok((p, CondPredicate { nodes: (a,) }))
}

/// `expression_or_cond_pattern ::= cond_pattern | expression` The clause with a pattern
/// begins with an expression, so it is tried first.
#[verifier::opaque]
pub open spec fn spec_expression_or_cond_pattern(inp: Input, pos: int, nest: Nesting) -> Parsed {
    let r = variant(1, spec_cond_pattern(inp, pos, nest));
    let r = or_else(r, variant(0, (nest.expression)(pos)));
    r
}

/// Parses a `expression_or_cond_pattern` at `pos`: the first alternative that matches.
pub fn expression_or_cond_pattern(ctx: &mut Parser, pos: usize, depth: usize) -> (r: Result<
    (usize, ExpressionOrCondPattern),
    Failure,
>)
    requires
        old(ctx).wf(),
        pos <= old(ctx).input().src.len(),
    ensures
        final(ctx).wf(),
        final(ctx).input() == old(ctx).input(),
        lift(r, |n: ExpressionOrCondPattern| n.tree()) == spec_expression_or_cond_pattern(
            old(ctx).input(),
            pos as int,
            nesting(old(ctx).input(), depth as nat),
        ),
        well_spanned(
            spec_expression_or_cond_pattern(
                old(ctx).input(),
                pos as int,
                nesting(old(ctx).input(), depth as nat),
            ),
            pos as int,
            old(ctx).input().src.len() as int,
        ),
    decreases depth, 2nat,
{
    proof {
        reveal(spec_expression_or_cond_pattern);
    }
    let e = match cond_pattern(ctx, pos, depth) {
        Ok((p, x)) => return Ok((p, ExpressionOrCondPattern::CondPattern(x))),
        Err(e) => e,
    };
    if e.committed {
        return Err(e);
    }
    let e = match expression(ctx, pos, depth) {
        Ok((p, x)) => return Ok((p, ExpressionOrCondPattern::Expression(x))),
        Err(f) => if f.committed {
            return Err(f);
        } else {
            e.or_deeper(f)
        },
    };
    Err(e)
}

/// `cond_pattern ::= expression "matches" pattern` Once `matches` has matched, a
/// failure is committed.
#[verifier::opaque]
pub open spec fn spec_cond_pattern(inp: Input, pos: int, nest: Nesting) -> Parsed {
    let a = (nest.expression)(pos);
    let b = spec_keyword(inp, rest(a), "matches");
    let c = cut((nest.pattern)(rest(b)));
    seq3(a, b, c)
}

/// Parses a `cond_pattern` at `pos`.
pub fn cond_pattern(ctx: &mut Parser, pos: usize, depth: usize) -> (r: Result<
    (usize, CondPattern),
    Failure,
>)
    requires
        old(ctx).wf(),
        pos <= old(ctx).input().src.len(),
    ensures
        final(ctx).wf(),
        final(ctx).input() == old(ctx).input(),
        lift(r, |n: CondPattern| n.tree()) == spec_cond_pattern(
            old(ctx).input(),
            pos as int,
            nesting(old(ctx).input(), depth as nat),
        ),
        well_spanned(
            spec_cond_pattern(
                old(ctx).input(),
                pos as int,
                nesting(old(ctx).input(), depth as nat),
            ),
            pos as int,
            old(ctx).input().src.len() as int,
        ),
    decreases depth, 1nat,
{
    proof {
        reveal(spec_cond_pattern);
    }
    let p = pos;
    let (p, a) = expression(ctx, p, depth)?;
    let (p, b) = keyword(ctx, p, "matches")?;
    let (p, c) = commit(pattern(ctx, p, depth))?;
    Ok((p, CondPattern { nodes: (a, b, c) }))
}

/// `many_else_if ::= { else_if }` Stops before the first item that does not match, or
/// that matches nothing.
#[verifier::opaque]
pub open spec fn spec_many_else_if(inp: Input, pos: int, nest: Nesting) -> Parsed
    decreases inp.src.len() - pos,
{
    match spec_else_if(inp, pos, nest) {
        Ok((p, t)) => if pos < p <= inp.src.len() {
            prepend(t, spec_many_else_if(inp, p, nest))
        } else {
            no_more(pos)
        },
        Err(e) => if e.committed {
            Err(e)
        } else {
            no_more(pos)
        },
    }
}

/// Parses as many items as match at `pos`, one after the other: `{ else_if }`.
pub fn many_else_if(ctx: &mut Parser, pos: usize, depth: usize) -> (r: Result<
    (usize, Vec<ElseIf>),
    Failure,
>)
    requires
        old(ctx).wf(),
        pos <= old(ctx).input().src.len(),
    ensures
        final(ctx).wf(),
        final(ctx).input() == old(ctx).input(),
        lift(r, |n: Vec<ElseIf>| Tree::Repeat(else_if_trees(n@))) == spec_many_else_if(
            old(ctx).input(),
            pos as int,
            nesting(old(ctx).input(), depth as nat),
        ),
        well_spanned(
            spec_many_else_if(
                old(ctx).input(),
                pos as int,
                nesting(old(ctx).input(), depth as nat),
            ),
            pos as int,
            old(ctx).input().src.len() as int,
        ),
    decreases depth, 6nat,
{
    proof {
        reveal(spec_many_else_if);
    }
    let ghost inp = ctx.input();
    let mut items: Vec<ElseIf> = Vec::new();
    let mut cur: usize = pos;
    proof {
        lemma_append_empty(spec_many_else_if(inp, pos as int, nesting(inp, depth as nat)));
        lemma_else_if_trees_empty();
    }
    loop
        invariant
            ctx.wf(),
            ctx.input() == inp,
            inp == old(ctx).input(),
            pos <= cur <= inp.src.len(),
            spec_many_else_if(inp, pos as int, nesting(inp, depth as nat)) == append(
                else_if_trees(items@),
                spec_many_else_if(inp, cur as int, nesting(inp, depth as nat)),
            ),
            tiled(Tree::Repeat(else_if_trees(items@)), pos as int),
            cur == pos + width(Tree::Repeat(else_if_trees(items@))),
        decreases inp.src.len() - cur,
    {
        proof {
            reveal(spec_many_else_if);
        }
        let (p, x) = match else_if(ctx, cur, depth) {
            Ok(found) => found,
            Err(e) => {
                if e.committed {
                    return Err(e);
                }
                proof {
                    lemma_append_no_more(else_if_trees(items@), cur as int);
                }
                return Ok((cur, items));
            },
        };
        if p <= cur {
            proof {
                lemma_append_no_more(else_if_trees(items@), cur as int);
            }
            return Ok((cur, items));
        }
        proof {
            lemma_append_prepend(
                else_if_trees(items@),
                else_if_tree(x),
                spec_many_else_if(inp, p as int, nesting(inp, depth as nat)),
            );
            lemma_else_if_trees_push(items@, x);
        }
        items.push(x);
        cur = p;
    }
}

/// `expression_or_cond_pattern_tail ::= { "," expression_or_cond_pattern }` Stops
/// before the first item that does not match, or that matches nothing.
#[verifier::opaque]
pub open spec fn spec_expression_or_cond_pattern_tail(inp: Input, pos: int, nest: Nesting) -> Parsed
    decreases inp.src.len() - pos,
{
    let a = spec_symbol(inp, pos, ",");
    let b = spec_expression_or_cond_pattern(inp, rest(a), nest);
    match seq2(a, b) {
        Ok((p, t)) => if pos < p <= inp.src.len() {
            prepend(t, spec_expression_or_cond_pattern_tail(inp, p, nest))
        } else {
            no_more(pos)
        },
        Err(e) => if e.committed {
            Err(e)
        } else {
            no_more(pos)
        },
    }
}

/// Parses as many items as match at `pos`, one after the other: `{ ","
/// expression_or_cond_pattern }`.
pub fn expression_or_cond_pattern_tail(ctx: &mut Parser, pos: usize, depth: usize) -> (r: Result<
    (usize, Vec<(Symbol, ExpressionOrCondPattern)>),
    Failure,
>)
    requires
        old(ctx).wf(),
        pos <= old(ctx).input().src.len(),
    ensures
        final(ctx).wf(),
        final(ctx).input() == old(ctx).input(),
        lift(
            r,
            |n: Vec<(Symbol, ExpressionOrCondPattern)>| Tree::Repeat(
                expression_or_cond_pattern_tail_trees(n@),
            ),
        )
            == spec_expression_or_cond_pattern_tail(
                old(ctx).input(),
                pos as int,
                nesting(old(ctx).input(), depth as nat),
            ),
        well_spanned(
            spec_expression_or_cond_pattern_tail(
                old(ctx).input(),
                pos as int,
                nesting(old(ctx).input(), depth as nat),
            ),
            pos as int,
            old(ctx).input().src.len() as int,
        ),
    decreases depth, 3nat,
{
    proof {
        reveal(spec_expression_or_cond_pattern_tail);
    }
    let ghost inp = ctx.input();
    let mut items: Vec<(Symbol, ExpressionOrCondPattern)> = Vec::new();
    let mut cur: usize = pos;
    proof {
        lemma_append_empty(
            spec_expression_or_cond_pattern_tail(inp, pos as int, nesting(inp, depth as nat)),
        );
        lemma_expression_or_cond_pattern_tail_trees_empty();
    }
    loop
        invariant
            ctx.wf(),
            ctx.input() == inp,
            inp == old(ctx).input(),
            pos <= cur <= inp.src.len(),
            spec_expression_or_cond_pattern_tail(inp, pos as int, nesting(inp, depth as nat))
                == append(
                    expression_or_cond_pattern_tail_trees(items@),
                    spec_expression_or_cond_pattern_tail(
                        inp,
                        cur as int,
                        nesting(inp, depth as nat),
                    ),
                ),
            tiled(Tree::Repeat(expression_or_cond_pattern_tail_trees(items@)), pos as int),
            cur == pos + width(Tree::Repeat(expression_or_cond_pattern_tail_trees(items@))),
        decreases inp.src.len() - cur,
    {
        proof {
            reveal(spec_expression_or_cond_pattern_tail);
        }
        let (q, s) = match symbol(ctx, cur, ",") {
            Ok(found) => found,
            Err(e) => {
                if e.committed {
                    return Err(e);
                }
                proof {
                    lemma_append_no_more(expression_or_cond_pattern_tail_trees(items@), cur as int);
                }
                return Ok((cur, items));
            },
        };
        let (p, y) = match expression_or_cond_pattern(ctx, q, depth) {
            Ok(found) => found,
            Err(e) => {
                if e.committed {
                    return Err(e);
                }
                proof {
                    lemma_append_no_more(expression_or_cond_pattern_tail_trees(items@), cur as int);
                }
                return Ok((cur, items));
            },
        };
        let x = (s, y);
        if p <= cur {
            proof {
                lemma_append_no_more(expression_or_cond_pattern_tail_trees(items@), cur as int);
            }
            return Ok((cur, items));
        }
        proof {
            lemma_append_prepend(
                expression_or_cond_pattern_tail_trees(items@),
                separated(x.0.tree(), x.1.tree()),
                spec_expression_or_cond_pattern_tail(inp, p as int, nesting(inp, depth as nat)),
            );
            lemma_expression_or_cond_pattern_tail_trees_push(items@, x);
        }
        items.push(x);
        cur = p;
    }
}

} // verus!
