//! Declarations that an assertion item can hold.
use vstd::prelude::*;
use crate::combinator::Parsed;
use crate::combinator::commit;
use crate::combinator::cut;
use crate::combinator::lift;
use crate::combinator::rest;
use crate::combinator::seq5;
use crate::combinator::variant;
use crate::combinator::well_spanned;
use crate::context::Input;
use crate::context::Parser;
use crate::failure::Failure;
use crate::parser::expressions::expressions::Expression;
use crate::parser::expressions::expressions::expression;
use crate::parser::nesting::Nesting;
use crate::parser::nesting::nesting;
use crate::span::Span;
use crate::token::Identifier;
use crate::token::Keyword;
use crate::token::Symbol;
use crate::token::identifier;
use crate::token::keyword;
use crate::token::spec_identifier;
use crate::token::spec_keyword;
use crate::token::spec_symbol;
use crate::token::symbol;
use crate::tree::Tree;
use crate::tree::group_layout;
use crate::tree::group_leaves;
use crate::tree::leaves_after;

verus! {

broadcast use {group_layout, group_leaves};

/// `let_declaration ::= "let" identifier "=" expression ";"`
#[derive(Debug)]
pub struct LetDeclaration {
    pub nodes: (Keyword, Identifier, Symbol, Expression, Symbol),
}

/// A declaration among assertion items.
#[derive(Debug)]
pub enum AssertionItemDeclaration {
    LetDeclaration(Box<LetDeclaration>),
}

impl LetDeclaration {
    /// The tree of the node: the sequence of the trees of its parts.
    #[verifier::opaque]
    pub open spec fn tree(&self) -> Tree {
        Tree::Sequence(
            Seq::empty()
                .push(self.nodes.0.tree())
                .push(self.nodes.1.tree())
                .push(self.nodes.2.tree())
                .push(self.nodes.3.tree())
                .push(self.nodes.4.tree()),
        )
    }

    /// Appends the leaf spans of the node to `out`, in source order.
    pub fn leaf_spans(&self, out: &mut Vec<Span>)
        ensures
            final(out)@ == leaves_after(old(out)@, self.tree()),
    {
        proof {
            reveal(LetDeclaration::tree);
        }
        self.nodes.0.leaf_spans(out);
        self.nodes.1.leaf_spans(out);
        self.nodes.2.leaf_spans(out);
        self.nodes.3.leaf_spans(out);
        self.nodes.4.leaf_spans(out);
    }
}

impl AssertionItemDeclaration {
    /// The tree of the node: the variant, by its index, and the tree of its payload.
    #[verifier::opaque]
    pub open spec fn tree(&self) -> Tree {
        match self {
            AssertionItemDeclaration::LetDeclaration(x) => Tree::Variant(0, Box::new(x.tree())),
        }
    }

    /// Appends the leaf spans of the node to `out`, in source order.
    pub fn leaf_spans(&self, out: &mut Vec<Span>)
        ensures
            final(out)@ == leaves_after(old(out)@, self.tree()),
    {
        proof {
            reveal(AssertionItemDeclaration::tree);
        }
        match self {
            AssertionItemDeclaration::LetDeclaration(x) => {
                x.leaf_spans(out);
            },
        }
    }
}

/// `let_declaration ::= "let" identifier "=" expression ";"` Once `let` has matched, a
/// failure is committed.
#[verifier::opaque]
pub open spec fn spec_let_declaration(inp: Input, pos: int, nest: Nesting) -> Parsed {
    let a = spec_keyword(inp, pos, "let");
    let b = cut(spec_identifier(inp, rest(a)));
    let c = cut(spec_symbol(inp, rest(b), "="));
    let d = cut((nest.expression)(rest(c)));
    let e = cut(spec_symbol(inp, rest(d), ";"));
    seq5(a, b, c, d, e)
}

/// Parses a `let_declaration` at `pos`.
pub fn let_declaration(ctx: &mut Parser, pos: usize, depth: usize) -> (r: Result<
    (usize, LetDeclaration),
    Failure,
>)
    requires
        old(ctx).wf(),
        pos <= old(ctx).input().src.len(),
    ensures
        final(ctx).wf(),
        final(ctx).input() == old(ctx).input(),
        lift(r, |n: LetDeclaration| n.tree()) == spec_let_declaration(
            old(ctx).input(),
            pos as int,
            nesting(old(ctx).input(), depth as nat),
        ),
        well_spanned(
            spec_let_declaration(
                old(ctx).input(),
                pos as int,
                nesting(old(ctx).input(), depth as nat),
            ),
            pos as int,
            old(ctx).input().src.len() as int,
        ),
{
    proof {
        reveal(spec_let_declaration);
        reveal(LetDeclaration::tree);
    }
    let p = pos;
    let (p, a) = keyword(ctx, p, "let")?;
    let (p, b) = commit(identifier(ctx, p))?;
    let (p, c) = commit(symbol(ctx, p, "="))?;
    let (p, d) = commit(expression(ctx, p, depth))?;
    let (p, e) = commit(symbol(ctx, p, ";"))?;
    Ok((p, LetDeclaration { nodes: (a, b, c, d, e) }))
}

/// `assertion_item_declaration ::= let_declaration`
#[verifier::opaque]
pub open spec fn spec_assertion_item_declaration(inp: Input, pos: int, nest: Nesting) -> Parsed {
    let r = variant(0, spec_let_declaration(inp, pos, nest));
    r
}

/// Parses a `assertion_item_declaration` at `pos`: the first alternative that matches.
pub fn assertion_item_declaration(ctx: &mut Parser, pos: usize, depth: usize) -> (r: Result<
    (usize, AssertionItemDeclaration),
    Failure,
>)
    requires
        old(ctx).wf(),
        pos <= old(ctx).input().src.len(),
    ensures
        final(ctx).wf(),
        final(ctx).input() == old(ctx).input(),
        lift(r, |n: AssertionItemDeclaration| n.tree()) == spec_assertion_item_declaration(
            old(ctx).input(),
            pos as int,
            nesting(old(ctx).input(), depth as nat),
        ),
        well_spanned(
            spec_assertion_item_declaration(
                old(ctx).input(),
                pos as int,
                nesting(old(ctx).input(), depth as nat),
            ),
            pos as int,
            old(ctx).input().src.len() as int,
        ),
{
    proof {
        reveal(spec_assertion_item_declaration);
        reveal(AssertionItemDeclaration::tree);
    }
    let e = match let_declaration(ctx, pos, depth) {
        Ok((p, x)) => return Ok((p, AssertionItemDeclaration::LetDeclaration(Box::new(x)))),
        Err(e) => e,
    };
    if e.committed {
        return Err(e);
    }
    Err(e)
}

} // verus!
