//! Statements that call a task or a function.
use vstd::prelude::*;
use crate::combinator::Parsed;
use crate::combinator::commit;
use crate::combinator::cut;
use crate::combinator::delimited;
use crate::combinator::lift;
use crate::combinator::or_else;
use crate::combinator::rest;
use crate::combinator::seq2;
use crate::combinator::seq4;
use crate::combinator::variant;
use crate::combinator::well_spanned;
use crate::context::Input;
use crate::context::Parser;
use crate::failure::Failure;
use crate::node::Paren;
use crate::parser::expressions::subroutine_calls::FunctionSubroutineCall;
use crate::parser::expressions::subroutine_calls::SubroutineCall;
use crate::parser::expressions::subroutine_calls::function_subroutine_call;
use crate::parser::expressions::subroutine_calls::spec_function_subroutine_call;
use crate::parser::expressions::subroutine_calls::spec_subroutine_call;
use crate::parser::expressions::subroutine_calls::subroutine_call;
use crate::parser::nesting::Nesting;
use crate::parser::nesting::nesting;
use crate::span::Span;
use crate::token::Keyword;
use crate::token::Symbol;
use crate::token::keyword;
use crate::token::spec_keyword;
use crate::token::spec_symbol;
use crate::token::symbol;
use crate::tree::Tree;
use crate::tree::group_layout;
use crate::tree::group_leaves;
use crate::tree::leaves_after;

verus! {

broadcast use {group_layout, group_leaves};

/// `subroutine_call_statement_function ::= "void" "'" "(" function_subroutine_call ")"
/// ";"`
#[derive(Debug)]
pub struct SubroutineCallStatementFunction {
    pub nodes: (Keyword, Symbol, Paren<FunctionSubroutineCall>, Symbol),
}

/// A call as a statement, with or without a cast to void.
#[derive(Debug)]
pub enum SubroutineCallStatement {
    SubroutineCall(Box<(SubroutineCall, Symbol)>),
    Function(Box<SubroutineCallStatementFunction>),
}

/// What [`subroutine_call_with_semicolon`] returns.
pub type SubroutineCallWithSemicolon = (SubroutineCall, Symbol);

impl SubroutineCallStatementFunction {
    /// The tree of the node: the sequence of the trees of its parts.
    #[verifier::opaque]
    pub open spec fn tree(&self) -> Tree {
        Tree::Sequence(
            Seq::empty()
                .push(self.nodes.0.tree())
                .push(self.nodes.1.tree())
                .push(self.nodes.2.tree(self.nodes.2.nodes.1.tree()))
                .push(self.nodes.3.tree()),
        )
    }

    /// Appends the leaf spans of the node to `out`, in source order.
    pub fn leaf_spans(&self, out: &mut Vec<Span>)
        ensures
            final(out)@ == leaves_after(old(out)@, self.tree()),
    {
        proof {
            reveal(SubroutineCallStatementFunction::tree);
        }
        self.nodes.0.leaf_spans(out);
        self.nodes.1.leaf_spans(out);
        self.nodes.2.nodes.0.leaf_spans(out);
        self.nodes.2.nodes.1.leaf_spans(out);
        self.nodes.2.nodes.2.leaf_spans(out);
        self.nodes.3.leaf_spans(out);
    }
}

impl SubroutineCallStatement {
    /// The tree of the node: the variant, by its index, and the tree of its payload.
    #[verifier::opaque]
    pub open spec fn tree(&self) -> Tree {
        match self {
            SubroutineCallStatement::SubroutineCall(x) => Tree::Variant(
                0,
                Box::new(subroutine_call_with_semicolon_tree((**x))),
            ),
            SubroutineCallStatement::Function(x) => Tree::Variant(1, Box::new(x.tree())),
        }
    }

    /// Appends the leaf spans of the node to `out`, in source order.
    pub fn leaf_spans(&self, out: &mut Vec<Span>)
        ensures
            final(out)@ == leaves_after(old(out)@, self.tree()),
    {
        proof {
            reveal(SubroutineCallStatement::tree);
            reveal(subroutine_call_with_semicolon_tree);
        }
        match self {
            SubroutineCallStatement::SubroutineCall(x) => {
                x.0.leaf_spans(out);
                x.1.leaf_spans(out);
            },
            SubroutineCallStatement::Function(x) => {
                x.leaf_spans(out);
            },
        }
    }
}

/// The tree of what [`subroutine_call_with_semicolon`] returns.
#[verifier::opaque]
pub open spec fn subroutine_call_with_semicolon_tree(n: SubroutineCallWithSemicolon) -> Tree {
    Tree::Sequence(Seq::empty().push(n.0.tree()).push(n.1.tree()))
}

/// `subroutine_call_with_semicolon ::= subroutine_call ";"`
#[verifier::opaque]
pub open spec fn spec_subroutine_call_with_semicolon(
    inp: Input,
    pos: int,
    nest: Nesting,
) -> Parsed {
    let a = spec_subroutine_call(inp, pos, nest);
    let b = spec_symbol(inp, rest(a), ";");
    seq2(a, b)
}

/// Parses a `subroutine_call_with_semicolon` at `pos`.
pub fn subroutine_call_with_semicolon(ctx: &mut Parser, pos: usize, depth: usize) -> (r: Result<
    (usize, SubroutineCallWithSemicolon),
    Failure,
>)
    requires
        old(ctx).wf(),
        pos <= old(ctx).input().src.len(),
    ensures
        final(ctx).wf(),
        final(ctx).input() == old(ctx).input(),
        lift(r, |n: SubroutineCallWithSemicolon| subroutine_call_with_semicolon_tree(n))
            == spec_subroutine_call_with_semicolon(
                old(ctx).input(),
                pos as int,
                nesting(old(ctx).input(), depth as nat),
            ),
        well_spanned(
            spec_subroutine_call_with_semicolon(
                old(ctx).input(),
                pos as int,
                nesting(old(ctx).input(), depth as nat),
            ),
            pos as int,
            old(ctx).input().src.len() as int,
        ),
{
    proof {
        reveal(spec_subroutine_call_with_semicolon);
        reveal(subroutine_call_with_semicolon_tree);
    }
    let p = pos;
    let (p, a) = subroutine_call(ctx, p, depth)?;
    let (p, b) = symbol(ctx, p, ";")?;
    Ok((p, (a, b)))
}

/// `subroutine_call_statement_function ::= "void" "'" "(" function_subroutine_call ")"
/// ";"` Once `void` has matched, a failure is committed.
#[verifier::opaque]
pub open spec fn spec_subroutine_call_statement_function(
    inp: Input,
    pos: int,
    nest: Nesting,
) -> Parsed {
    let a = spec_keyword(inp, pos, "void");
    let b = cut(spec_symbol(inp, rest(a), "'"));
    let c0 = cut(spec_symbol(inp, rest(b), "("));
    let c1 = cut(spec_function_subroutine_call(inp, rest(c0), nest));
    let c2 = cut(spec_symbol(inp, rest(c1), ")"));
    let c = delimited(c0, c1, c2);
    let d = cut(spec_symbol(inp, rest(c), ";"));
    variant(1, seq4(a, b, c, d))
}

/// Parses a `subroutine_call_statement_function` at `pos`.
pub fn subroutine_call_statement_function(ctx: &mut Parser, pos: usize, depth: usize) -> (r: Result<
    (usize, SubroutineCallStatement),
    Failure,
>)
    requires
        old(ctx).wf(),
        pos <= old(ctx).input().src.len(),
    ensures
        final(ctx).wf(),
        final(ctx).input() == old(ctx).input(),
        lift(r, |n: SubroutineCallStatement| n.tree()) == spec_subroutine_call_statement_function(
            old(ctx).input(),
            pos as int,
            nesting(old(ctx).input(), depth as nat),
        ),
        well_spanned(
            spec_subroutine_call_statement_function(
                old(ctx).input(),
                pos as int,
                nesting(old(ctx).input(), depth as nat),
            ),
            pos as int,
            old(ctx).input().src.len() as int,
        ),
{
    proof {
        reveal(spec_subroutine_call_statement_function);
        reveal(SubroutineCallStatementFunction::tree);
        reveal(SubroutineCallStatement::tree);
    }
    let p = pos;
    let (p, a) = keyword(ctx, p, "void")?;
    let (p, b) = commit(symbol(ctx, p, "'"))?;
    let (p, c0) = commit(symbol(ctx, p, "("))?;
    let (p, c1) = commit(function_subroutine_call(ctx, p, depth))?;
    let (p, c2) = commit(symbol(ctx, p, ")"))?;
    let c = Paren { nodes: (c0, c1, c2) };
    let (p, d) = commit(symbol(ctx, p, ";"))?;
    Ok(
        (
            p,
            SubroutineCallStatement::Function(
                Box::new(SubroutineCallStatementFunction { nodes: (a, b, c, d) }),
            ),
        ),
    )
}

/// `subroutine_call_statement ::= subroutine_call_with_semicolon |
/// subroutine_call_statement_function`
#[verifier::opaque]
pub open spec fn spec_subroutine_call_statement(inp: Input, pos: int, nest: Nesting) -> Parsed {
    let r = variant(0, spec_subroutine_call_with_semicolon(inp, pos, nest));
    let r = or_else(r, spec_subroutine_call_statement_function(inp, pos, nest));
    r
}

/// Parses a `subroutine_call_statement` at `pos`: the first alternative that matches.
pub fn subroutine_call_statement(ctx: &mut Parser, pos: usize, depth: usize) -> (r: Result<
    (usize, SubroutineCallStatement),
    Failure,
>)
    requires
        old(ctx).wf(),
        pos <= old(ctx).input().src.len(),
    ensures
        final(ctx).wf(),
        final(ctx).input() == old(ctx).input(),
        lift(r, |n: SubroutineCallStatement| n.tree()) == spec_subroutine_call_statement(
            old(ctx).input(),
            pos as int,
            nesting(old(ctx).input(), depth as nat),
        ),
        well_spanned(
            spec_subroutine_call_statement(
                old(ctx).input(),
                pos as int,
                nesting(old(ctx).input(), depth as nat),
            ),
            pos as int,
            old(ctx).input().src.len() as int,
        ),
{
    proof {
        reveal(spec_subroutine_call_statement);
        reveal(SubroutineCallStatement::tree);
    }
    let e = match subroutine_call_with_semicolon(ctx, pos, depth) {
        Ok((p, x)) => return Ok((p, SubroutineCallStatement::SubroutineCall(Box::new(x)))),
        Err(e) => e,
    };
    if e.committed {
        return Err(e);
    }
    let e = match subroutine_call_statement_function(ctx, pos, depth) {
        Ok(x) => return Ok(x),
        Err(f) => if f.committed {
            return Err(f);
        } else {
            e.or_deeper(f)
        },
    };
    Err(e)
}

} // verus!
