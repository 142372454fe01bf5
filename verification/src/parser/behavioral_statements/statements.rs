//! Statements.
use vstd::prelude::*;
use crate::combinator::Parsed;
use crate::combinator::append;
use crate::combinator::commit;
use crate::combinator::cut;
use crate::combinator::lemma_append_empty;
use crate::combinator::lemma_append_no_more;
use crate::combinator::lemma_append_prepend;
use crate::combinator::lift;
use crate::combinator::no_more;
use crate::combinator::opt;
use crate::combinator::optional;
use crate::combinator::or_else;
use crate::combinator::prepend;
use crate::combinator::rest;
use crate::combinator::seq2;
use crate::combinator::seq3;
use crate::combinator::variant;
use crate::combinator::well_spanned;
use crate::context::Input;
use crate::context::Parser;
use crate::failure::Failure;
use crate::parser::behavioral_statements::case_statements::CaseStatement;
use crate::parser::behavioral_statements::case_statements::RandcaseStatement;
use crate::parser::behavioral_statements::case_statements::case_statement;
use crate::parser::behavioral_statements::case_statements::randcase_statement;
use crate::parser::behavioral_statements::case_statements::spec_case_statement;
use crate::parser::behavioral_statements::case_statements::spec_randcase_statement;
use crate::parser::behavioral_statements::clocking_block::ClockingDrive;
use crate::parser::behavioral_statements::clocking_block::clocking_drive;
use crate::parser::behavioral_statements::clocking_block::spec_clocking_drive;
use crate::parser::behavioral_statements::conditional_statements::ConditionalStatement;
use crate::parser::behavioral_statements::conditional_statements::conditional_statement;
use crate::parser::behavioral_statements::conditional_statements::spec_conditional_statement;
use crate::parser::behavioral_statements::subroutine_call_statements::SubroutineCallStatement;
use crate::parser::behavioral_statements::subroutine_call_statements::spec_subroutine_call_statement;
use crate::parser::behavioral_statements::subroutine_call_statements::subroutine_call_statement;
use crate::parser::expressions::expressions::Expression;
use crate::parser::expressions::expressions::expression;
use crate::parser::expressions::primaries::Select;
use crate::parser::expressions::primaries::select;
use crate::parser::expressions::primaries::spec_select;
use crate::parser::general::attributes::AttributeInstance;
use crate::parser::general::attributes::many_attribute_instance;
use crate::parser::general::attributes::spec_many_attribute_instance;
use crate::parser::general::identifiers::BlockIdentifier;
use crate::parser::general::identifiers::HierarchicalIdentifier;
use crate::parser::general::identifiers::hierarchical_identifier;
use crate::parser::general::identifiers::spec_hierarchical_identifier;
use crate::parser::nesting::Nesting;
use crate::parser::nesting::nesting;
use crate::span::Span;
use crate::token::Keyword;
use crate::token::Symbol;
use crate::token::identifier;
use crate::token::keyword;
use crate::token::spec_identifier;
use crate::token::spec_keyword;
use crate::token::spec_symbol;
use crate::token::symbol;
use crate::tree::Tree;
use crate::tree::group_layout;
use crate::tree::group_leaves;
use crate::tree::leaves_after;
use crate::tree::tiled;
use crate::tree::width;

verus! {

broadcast use {group_layout, group_leaves};

/// `variable_lvalue ::= hierarchical_identifier select`
#[derive(Debug)]
pub struct VariableLvalue {
    pub nodes: (HierarchicalIdentifier, Select),
}

/// `blocking_assignment ::= variable_lvalue "=" expression`
#[derive(Debug)]
pub struct BlockingAssignment {
    pub nodes: (VariableLvalue, Symbol, Expression),
}

/// `seq_block ::= "begin" { statement_or_null } "end"`
#[derive(Debug)]
pub struct SeqBlock {
    pub nodes: (Keyword, Vec<StatementOrNull>, Keyword),
}

/// What a statement does.
#[derive(Debug)]
pub enum StatementItem {
    BlockingAssignment(Box<(BlockingAssignment, Symbol)>),
    CaseStatement(Box<CaseStatement>),
    ConditionalStatement(Box<ConditionalStatement>),
    RandcaseStatement(Box<RandcaseStatement>),
    SeqBlock(Box<SeqBlock>),
    ClockingDrive(Box<(ClockingDrive, Symbol)>),
    SubroutineCallStatement(Box<SubroutineCallStatement>),
}

/// `statement ::= [ block_label ] { attribute_instance } statement_item`
#[derive(Debug)]
pub struct Statement {
    pub nodes: (Option<(BlockIdentifier, Symbol)>, Vec<AttributeInstance>, StatementItem),
}

/// `statement_or_null_attribute ::= { attribute_instance } ";"`
#[derive(Debug)]
pub struct StatementOrNullAttribute {
    pub nodes: (Vec<AttributeInstance>, Symbol),
}

/// A statement, or the null statement `;`.
#[derive(Debug)]
pub enum StatementOrNull {
    Statement(Box<Statement>),
    Attribute(Box<StatementOrNullAttribute>),
}

/// What [`blocking_assignment_statement`] returns.
pub type BlockingAssignmentStatement = (BlockingAssignment, Symbol);

/// What [`clocking_drive_statement`] returns.
pub type ClockingDriveStatement = (ClockingDrive, Symbol);

/// What [`block_label`] returns.
pub type BlockLabel = (BlockIdentifier, Symbol);

impl VariableLvalue {
    /// The tree of the node: the sequence of the trees of its parts.
    #[verifier::opaque]
    pub open spec fn tree(&self) -> Tree {
        Tree::Sequence(
            Seq::empty()
                .push(self.nodes.0.tree())
                .push(self.nodes.1.tree()),
        )
    }

    /// Appends the leaf spans of the node to `out`, in source order.
    pub fn leaf_spans(&self, out: &mut Vec<Span>)
        ensures
            final(out)@ == leaves_after(old(out)@, self.tree()),
    {
        proof {
            reveal(VariableLvalue::tree);
        }
        self.nodes.0.leaf_spans(out);
        self.nodes.1.leaf_spans(out);
    }
}

impl BlockingAssignment {
    /// The tree of the node: the sequence of the trees of its parts.
    #[verifier::opaque]
    pub open spec fn tree(&self) -> Tree {
        Tree::Sequence(
            Seq::empty()
                .push(self.nodes.0.tree())
                .push(self.nodes.1.tree())
                .push(self.nodes.2.tree()),
        )
    }

    /// Appends the leaf spans of the node to `out`, in source order.
    pub fn leaf_spans(&self, out: &mut Vec<Span>)
        ensures
            final(out)@ == leaves_after(old(out)@, self.tree()),
    {
        proof {
            reveal(BlockingAssignment::tree);
        }
        self.nodes.0.leaf_spans(out);
        self.nodes.1.leaf_spans(out);
        self.nodes.2.leaf_spans(out);
    }
}

impl SeqBlock {
    /// The tree of the node: the sequence of the trees of its parts.
    pub open spec fn tree(&self) -> Tree
        decreases self,
    {
        Tree::Sequence(
            Seq::empty()
                .push(self.nodes.0.tree())
                .push(Tree::Repeat(StatementOrNull::trees(self.nodes.1@)))
                .push(self.nodes.2.tree()),
        )
    }

    /// Appends the leaf spans of the node to `out`, in source order.
    pub fn leaf_spans(&self, out: &mut Vec<Span>)
        ensures
            final(out)@ == leaves_after(old(out)@, self.tree()),
        decreases self,
    {
        self.nodes.0.leaf_spans(out);
        StatementOrNull::leaf_spans_of_all(&self.nodes.1, out);
        self.nodes.2.leaf_spans(out);
    }
}

impl StatementItem {
    /// The tree of the node: the variant, by its index, and the tree of its payload.
    pub open spec fn tree(&self) -> Tree
        decreases self,
    {
        match self {
            StatementItem::BlockingAssignment(x) => Tree::Variant(
                0,
                Box::new(blocking_assignment_statement_tree((**x))),
            ),
            StatementItem::CaseStatement(x) => Tree::Variant(1, Box::new(x.tree())),
            StatementItem::ConditionalStatement(x) => Tree::Variant(2, Box::new(x.tree())),
            StatementItem::RandcaseStatement(x) => Tree::Variant(3, Box::new(x.tree())),
            StatementItem::SeqBlock(x) => Tree::Variant(4, Box::new(x.tree())),
            StatementItem::ClockingDrive(x) => Tree::Variant(
                5,
                Box::new(clocking_drive_statement_tree((**x))),
            ),
            StatementItem::SubroutineCallStatement(x) => Tree::Variant(6, Box::new(x.tree())),
        }
    }

    /// Appends the leaf spans of the node to `out`, in source order.
    pub fn leaf_spans(&self, out: &mut Vec<Span>)
        ensures
            final(out)@ == leaves_after(old(out)@, self.tree()),
        decreases self,
    {
        proof {
            reveal(blocking_assignment_statement_tree);
            reveal(clocking_drive_statement_tree);
        }
        match self {
            StatementItem::BlockingAssignment(x) => {
                x.0.leaf_spans(out);
                x.1.leaf_spans(out);
            },
            StatementItem::CaseStatement(x) => {
                x.leaf_spans(out);
            },
            StatementItem::ConditionalStatement(x) => {
                x.leaf_spans(out);
            },
            StatementItem::RandcaseStatement(x) => {
                x.leaf_spans(out);
            },
            StatementItem::SeqBlock(x) => {
                x.leaf_spans(out);
            },
            StatementItem::ClockingDrive(x) => {
                x.0.leaf_spans(out);
                x.1.leaf_spans(out);
            },
            StatementItem::SubroutineCallStatement(x) => {
                x.leaf_spans(out);
            },
        }
    }
}

impl Statement {
    /// The tree of the node: the sequence of the trees of its parts.
    pub open spec fn tree(&self) -> Tree
        decreases self,
    {
        Tree::Sequence(
            Seq::empty()
                .push(
                    match self.nodes.0 {
                        Some(x) => Tree::Optional(Some(Box::new(block_label_tree(x)))),
                        None => Tree::Optional(None),
                    },
                )
                .push(Tree::Repeat(AttributeInstance::trees(self.nodes.1@)))
                .push(self.nodes.2.tree()),
        )
    }

    /// Appends the leaf spans of the node to `out`, in source order.
    pub fn leaf_spans(&self, out: &mut Vec<Span>)
        ensures
            final(out)@ == leaves_after(old(out)@, self.tree()),
        decreases self,
    {
        proof {
            reveal(block_label_tree);
        }
        match &self.nodes.0 {
            Some(x) => {
                x.0.leaf_spans(out);
                x.1.leaf_spans(out);
            },
            None => {},
        }
        AttributeInstance::leaf_spans_of_all(&self.nodes.1, out);
        self.nodes.2.leaf_spans(out);
    }
}

impl StatementOrNullAttribute {
    /// The tree of the node: the sequence of the trees of its parts.
    #[verifier::opaque]
    pub open spec fn tree(&self) -> Tree {
        Tree::Sequence(
            Seq::empty()
                .push(Tree::Repeat(AttributeInstance::trees(self.nodes.0@)))
                .push(self.nodes.1.tree()),
        )
    }

    /// Appends the leaf spans of the node to `out`, in source order.
    pub fn leaf_spans(&self, out: &mut Vec<Span>)
        ensures
            final(out)@ == leaves_after(old(out)@, self.tree()),
    {
        proof {
            reveal(StatementOrNullAttribute::tree);
        }
        AttributeInstance::leaf_spans_of_all(&self.nodes.0, out);
        self.nodes.1.leaf_spans(out);
    }
}

impl StatementOrNull {
    /// The tree of the node: the variant, by its index, and the tree of its payload.
    pub open spec fn tree(&self) -> Tree
        decreases self,
    {
        match self {
            StatementOrNull::Statement(x) => Tree::Variant(0, Box::new(x.tree())),
            StatementOrNull::Attribute(x) => Tree::Variant(1, Box::new(x.tree())),
        }
    }

    /// The trees of a list of nodes, in order.
    pub open spec fn trees(s: Seq<StatementOrNull>) -> Seq<Tree>
        decreases s,
    {
        Seq::new(s.len(), |i: int| if 0 <= i < s.len() { s[i].tree() } else { arbitrary() })
    }

    /// The trees of a list that has one more node at its end.
    pub proof fn lemma_trees_push(s: Seq<StatementOrNull>, x: StatementOrNull)
        ensures
            Self::trees(s.push(x)) == Self::trees(s).push(x.tree()),
    {
        reveal(StatementOrNull::trees);
        assert forall|i: int| 0 <= i < s.len() + 1 implies #[trigger] Self::trees(s.push(x))[i]
            == Self::trees(s).push(x.tree())[i] by {
            assert(s.push(x)[i].tree() == if i < s.len() { s[i].tree() } else { x.tree() });
        }
        assert(Self::trees(s.push(x)) =~= Self::trees(s).push(x.tree()));
    }

    /// The empty list has no trees.
    pub proof fn lemma_trees_empty()
        ensures
            Self::trees(Seq::empty()) == Seq::<Tree>::empty(),
    {
        reveal(StatementOrNull::trees);
        assert(Self::trees(Seq::empty()) =~= Seq::<Tree>::empty());
    }

    /// Appends the leaf spans of the node to `out`, in source order.
    pub fn leaf_spans(&self, out: &mut Vec<Span>)
        ensures
            final(out)@ == leaves_after(old(out)@, self.tree()),
        decreases self,
    {
        match self {
            StatementOrNull::Statement(x) => {
                x.leaf_spans(out);
            },
            StatementOrNull::Attribute(x) => {
                x.leaf_spans(out);
            },
        }
    }

    /// Appends the leaf spans of a list of nodes to `out`, in source order.
    pub fn leaf_spans_of_all(v: &Vec<StatementOrNull>, out: &mut Vec<Span>)
        ensures
            final(out)@ == leaves_after(old(out)@, Tree::Repeat(StatementOrNull::trees(v@))),
        decreases v,
    {
        let mut i: usize = 0;
        proof {
            StatementOrNull::lemma_trees_empty();
            assert(v@.take(0) =~= Seq::empty());
        }
        while i < v.len()
            invariant
                i <= v@.len(),
                out@ == leaves_after(
                    old(out)@,
                    Tree::Repeat(StatementOrNull::trees(v@.take(i as int))),
                ),
            decreases v@.len() - i,
        {
            v[i].leaf_spans(out);
            proof {
                StatementOrNull::lemma_trees_push(v@.take(i as int), v@[i as int]);
                assert(v@.take(i as int).push(v@[i as int]) =~= v@.take(i + 1));
            }
            i = i + 1;
        }
        proof {
            assert(v@.take(v@.len() as int) =~= v@);
        }
    }
}

/// The tree of what [`blocking_assignment_statement`] returns.
#[verifier::opaque]
pub open spec fn blocking_assignment_statement_tree(n: BlockingAssignmentStatement) -> Tree {
    Tree::Sequence(Seq::empty().push(n.0.tree()).push(n.1.tree()))
}

/// The tree of what [`clocking_drive_statement`] returns.
#[verifier::opaque]
pub open spec fn clocking_drive_statement_tree(n: ClockingDriveStatement) -> Tree {
    Tree::Sequence(Seq::empty().push(n.0.tree()).push(n.1.tree()))
}

/// The tree of what [`block_label`] returns.
#[verifier::opaque]
pub open spec fn block_label_tree(n: BlockLabel) -> Tree {
    Tree::Sequence(Seq::empty().push(n.0.tree()).push(n.1.tree()))
}

/// `variable_lvalue ::= hierarchical_identifier select`
#[verifier::opaque]
pub open spec fn spec_variable_lvalue(inp: Input, pos: int, nest: Nesting) -> Parsed {
    let a = spec_hierarchical_identifier(inp, pos);
    let b = spec_select(inp, rest(a), nest);
    seq2(a, b)
}

/// Parses a `variable_lvalue` at `pos`.
pub fn variable_lvalue(ctx: &mut Parser, pos: usize, depth: usize) -> (r: Result<
    (usize, VariableLvalue),
    Failure,
>)
    requires
        old(ctx).wf(),
        pos <= old(ctx).input().src.len(),
    ensures
        final(ctx).wf(),
        final(ctx).input() == old(ctx).input(),
        lift(r, |n: VariableLvalue| n.tree()) == spec_variable_lvalue(
            old(ctx).input(),
            pos as int,
            nesting(old(ctx).input(), depth as nat),
        ),
        well_spanned(
            spec_variable_lvalue(
                old(ctx).input(),
                pos as int,
                nesting(old(ctx).input(), depth as nat),
            ),
            pos as int,
            old(ctx).input().src.len() as int,
        ),
{
    proof {
        reveal(spec_variable_lvalue);
        reveal(VariableLvalue::tree);
    }
    let p = pos;
    let (p, a) = hierarchical_identifier(ctx, p)?;
    let (p, b) = select(ctx, p, depth)?;
    Ok((p, VariableLvalue { nodes: (a, b) }))
}

/// `blocking_assignment ::= variable_lvalue "=" expression`
#[verifier::opaque]
pub open spec fn spec_blocking_assignment(inp: Input, pos: int, nest: Nesting) -> Parsed {
    let a = spec_variable_lvalue(inp, pos, nest);
    let b = spec_symbol(inp, rest(a), "=");
    let c = (nest.expression)(rest(b));
    seq3(a, b, c)
}

/// Parses a `blocking_assignment` at `pos`.
pub fn blocking_assignment(ctx: &mut Parser, pos: usize, depth: usize) -> (r: Result<
    (usize, BlockingAssignment),
    Failure,
>)
    requires
        old(ctx).wf(),
        pos <= old(ctx).input().src.len(),
    ensures
        final(ctx).wf(),
        final(ctx).input() == old(ctx).input(),
        lift(r, |n: BlockingAssignment| n.tree()) == spec_blocking_assignment(
            old(ctx).input(),
            pos as int,
            nesting(old(ctx).input(), depth as nat),
        ),
        well_spanned(
            spec_blocking_assignment(
                old(ctx).input(),
                pos as int,
                nesting(old(ctx).input(), depth as nat),
            ),
            pos as int,
            old(ctx).input().src.len() as int,
        ),
{
    proof {
        reveal(spec_blocking_assignment);
        reveal(BlockingAssignment::tree);
    }
    let p = pos;
    let (p, a) = variable_lvalue(ctx, p, depth)?;
    let (p, b) = symbol(ctx, p, "=")?;
    let (p, c) = expression(ctx, p, depth)?;
    Ok((p, BlockingAssignment { nodes: (a, b, c) }))
}

/// `seq_block ::= "begin" { statement_or_null } "end"` Once `begin` has matched, a
/// failure is committed.
#[verifier::opaque]
pub open spec fn spec_seq_block(inp: Input, pos: int, nest: Nesting) -> Parsed {
    let a = spec_keyword(inp, pos, "begin");
    let b = spec_many_statement_or_null(inp, rest(a), nest);
    let c = cut(spec_keyword(inp, rest(b), "end"));
    seq3(a, b, c)
}

/// Parses a `seq_block` at `pos`.
pub fn seq_block(ctx: &mut Parser, pos: usize, depth: usize) -> (r: Result<
    (usize, SeqBlock),
    Failure,
>)
    requires
        old(ctx).wf(),
        pos <= old(ctx).input().src.len(),
    ensures
        final(ctx).wf(),
        final(ctx).input() == old(ctx).input(),
        lift(r, |n: SeqBlock| n.tree()) == spec_seq_block(
            old(ctx).input(),
            pos as int,
            nesting(old(ctx).input(), depth as nat),
        ),
        well_spanned(
            spec_seq_block(old(ctx).input(), pos as int, nesting(old(ctx).input(), depth as nat)),
            pos as int,
            old(ctx).input().src.len() as int,
        ),
    decreases depth, 2nat,
{
    proof {
        reveal(spec_seq_block);
    }
    let p = pos;
    let (p, a) = keyword(ctx, p, "begin")?;
    let (p, b) = many_statement_or_null(ctx, p, depth)?;
    let (p, c) = commit(keyword(ctx, p, "end"))?;
    Ok((p, SeqBlock { nodes: (a, b, c) }))
}

/// `blocking_assignment_statement ::= blocking_assignment ";"`
#[verifier::opaque]
pub open spec fn spec_blocking_assignment_statement(inp: Input, pos: int, nest: Nesting) -> Parsed {
    let a = spec_blocking_assignment(inp, pos, nest);
    let b = spec_symbol(inp, rest(a), ";");
    seq2(a, b)
}

/// Parses a `blocking_assignment_statement` at `pos`.
pub fn blocking_assignment_statement(ctx: &mut Parser, pos: usize, depth: usize) -> (r: Result<
    (usize, BlockingAssignmentStatement),
    Failure,
>)
    requires
        old(ctx).wf(),
        pos <= old(ctx).input().src.len(),
    ensures
        final(ctx).wf(),
        final(ctx).input() == old(ctx).input(),
        lift(r, |n: BlockingAssignmentStatement| blocking_assignment_statement_tree(n))
            == spec_blocking_assignment_statement(
                old(ctx).input(),
                pos as int,
                nesting(old(ctx).input(), depth as nat),
            ),
        well_spanned(
            spec_blocking_assignment_statement(
                old(ctx).input(),
                pos as int,
                nesting(old(ctx).input(), depth as nat),
            ),
            pos as int,
            old(ctx).input().src.len() as int,
        ),
{
    proof {
        reveal(spec_blocking_assignment_statement);
        reveal(blocking_assignment_statement_tree);
    }
    let p = pos;
    let (p, a) = blocking_assignment(ctx, p, depth)?;
    let (p, b) = symbol(ctx, p, ";")?;
    Ok((p, (a, b)))
}

/// `clocking_drive_statement ::= clocking_drive ";"`
#[verifier::opaque]
pub open spec fn spec_clocking_drive_statement(inp: Input, pos: int, nest: Nesting) -> Parsed {
    let a = spec_clocking_drive(inp, pos, nest);
    let b = spec_symbol(inp, rest(a), ";");
    seq2(a, b)
}

/// Parses a `clocking_drive_statement` at `pos`.
pub fn clocking_drive_statement(ctx: &mut Parser, pos: usize, depth: usize) -> (r: Result<
    (usize, ClockingDriveStatement),
    Failure,
>)
    requires
        old(ctx).wf(),
        pos <= old(ctx).input().src.len(),
    ensures
        final(ctx).wf(),
        final(ctx).input() == old(ctx).input(),
        lift(r, |n: ClockingDriveStatement| clocking_drive_statement_tree(n))
            == spec_clocking_drive_statement(
                old(ctx).input(),
                pos as int,
                nesting(old(ctx).input(), depth as nat),
            ),
        well_spanned(
            spec_clocking_drive_statement(
                old(ctx).input(),
                pos as int,
                nesting(old(ctx).input(), depth as nat),
            ),
            pos as int,
            old(ctx).input().src.len() as int,
        ),
{
    proof {
        reveal(spec_clocking_drive_statement);
        reveal(clocking_drive_statement_tree);
    }
    let p = pos;
    let (p, a) = clocking_drive(ctx, p, depth)?;
    let (p, b) = symbol(ctx, p, ";")?;
    Ok((p, (a, b)))
}

/// `statement_item ::= blocking_assignment_statement | case_statement |
/// conditional_statement | randcase_statement | seq_block | clocking_drive_statement |
/// subroutine_call_statement`
#[verifier::opaque]
pub open spec fn spec_statement_item(inp: Input, pos: int, nest: Nesting) -> Parsed {
    let r = variant(0, spec_blocking_assignment_statement(inp, pos, nest));
    let r = or_else(r, variant(1, spec_case_statement(inp, pos, nest)));
    let r = or_else(r, variant(2, spec_conditional_statement(inp, pos, nest)));
    let r = or_else(r, variant(3, spec_randcase_statement(inp, pos, nest)));
    let r = or_else(r, variant(4, spec_seq_block(inp, pos, nest)));
    let r = or_else(r, variant(5, spec_clocking_drive_statement(inp, pos, nest)));
    let r = or_else(r, variant(6, spec_subroutine_call_statement(inp, pos, nest)));
    r
}

/// Parses a `statement_item` at `pos`: the first alternative that matches.
#[verifier::rlimit(60)]
pub fn statement_item(ctx: &mut Parser, pos: usize, depth: usize) -> (r: Result<
    (usize, StatementItem),
    Failure,
>)
    requires
        old(ctx).wf(),
        pos <= old(ctx).input().src.len(),
    ensures
        final(ctx).wf(),
        final(ctx).input() == old(ctx).input(),
        lift(r, |n: StatementItem| n.tree()) == spec_statement_item(
            old(ctx).input(),
            pos as int,
            nesting(old(ctx).input(), depth as nat),
        ),
        well_spanned(
            spec_statement_item(
                old(ctx).input(),
                pos as int,
                nesting(old(ctx).input(), depth as nat),
            ),
            pos as int,
            old(ctx).input().src.len() as int,
        ),
    decreases depth, 12nat,
{
    proof {
        reveal(spec_statement_item);
    }
    let e = match blocking_assignment_statement(ctx, pos, depth) {
        Ok((p, x)) => return Ok((p, StatementItem::BlockingAssignment(Box::new(x)))),
        Err(e) => e,
    };
    if e.committed {
        return Err(e);
    }
    let e = match case_statement(ctx, pos, depth) {
        Ok((p, x)) => return Ok((p, StatementItem::CaseStatement(Box::new(x)))),
        Err(f) => if f.committed {
            return Err(f);
        } else {
            e.or_deeper(f)
        },
    };
    let e = match conditional_statement(ctx, pos, depth) {
        Ok((p, x)) => return Ok((p, StatementItem::ConditionalStatement(Box::new(x)))),
        Err(f) => if f.committed {
            return Err(f);
        } else {
            e.or_deeper(f)
        },
    };
    let e = match randcase_statement(ctx, pos, depth) {
        Ok((p, x)) => return Ok((p, StatementItem::RandcaseStatement(Box::new(x)))),
        Err(f) => if f.committed {
            return Err(f);
        } else {
            e.or_deeper(f)
        },
    };
    let e = match seq_block(ctx, pos, depth) {
        Ok((p, x)) => return Ok((p, StatementItem::SeqBlock(Box::new(x)))),
        Err(f) => if f.committed {
            return Err(f);
        } else {
            e.or_deeper(f)
        },
    };
    let e = match clocking_drive_statement(ctx, pos, depth) {
        Ok((p, x)) => return Ok((p, StatementItem::ClockingDrive(Box::new(x)))),
        Err(f) => if f.committed {
            return Err(f);
        } else {
            e.or_deeper(f)
        },
    };
    let e = match subroutine_call_statement(ctx, pos, depth) {
        Ok((p, x)) => return Ok((p, StatementItem::SubroutineCallStatement(Box::new(x)))),
        Err(f) => if f.committed {
            return Err(f);
        } else {
            e.or_deeper(f)
        },
    };
    Err(e)
}

/// `block_label ::= block_identifier ":"`
#[verifier::opaque]
pub open spec fn spec_block_label(inp: Input, pos: int) -> Parsed {
    let a = spec_identifier(inp, pos);
    let b = spec_symbol(inp, rest(a), ":");
    seq2(a, b)
}

/// Parses a `block_label` at `pos`.
pub fn block_label(ctx: &Parser, pos: usize) -> (r: Result<(usize, BlockLabel), Failure>)
    requires
        pos <= ctx.input().src.len(),
    ensures
        lift(r, |n: BlockLabel| block_label_tree(n)) == spec_block_label(ctx.input(), pos as int),
        well_spanned(
            spec_block_label(ctx.input(), pos as int),
            pos as int,
            ctx.input().src.len() as int,
        ),
{
    proof {
        reveal(spec_block_label);
        reveal(block_label_tree);
    }
    let p = pos;
    let (p, a) = identifier(ctx, p)?;
    let (p, b) = symbol(ctx, p, ":")?;
    Ok((p, (a, b)))
}

/// `statement ::= [ block_label ] { attribute_instance } statement_item`
#[verifier::opaque]
pub open spec fn spec_statement(inp: Input, pos: int, nest: Nesting) -> Parsed {
    let a = optional(spec_block_label(inp, pos), pos);
    let b = spec_many_attribute_instance(inp, rest(a), nest);
    let c = spec_statement_item(inp, rest(b), nest);
    seq3(a, b, c)
}

/// Parses a `statement` at `pos`.
pub fn statement(ctx: &mut Parser, pos: usize, depth: usize) -> (r: Result<
    (usize, Statement),
    Failure,
>)
    requires
        old(ctx).wf(),
        pos <= old(ctx).input().src.len(),
    ensures
        final(ctx).wf(),
        final(ctx).input() == old(ctx).input(),
        lift(r, |n: Statement| n.tree()) == spec_statement(
            old(ctx).input(),
            pos as int,
            nesting(old(ctx).input(), depth as nat),
        ),
        well_spanned(
            spec_statement(old(ctx).input(), pos as int, nesting(old(ctx).input(), depth as nat)),
            pos as int,
            old(ctx).input().src.len() as int,
        ),
    decreases depth, 13nat,
{
    proof {
        reveal(spec_statement);
    }
    let p = pos;
    let (p, a) = opt(block_label(ctx, p), p)?;
    let (p, b) = many_attribute_instance(ctx, p, depth)?;
    let (p, c) = statement_item(ctx, p, depth)?;
    Ok((p, Statement { nodes: (a, b, c) }))
}

/// `statement_or_null_attribute ::= { attribute_instance } ";"`
#[verifier::opaque]
pub open spec fn spec_statement_or_null_attribute(inp: Input, pos: int, nest: Nesting) -> Parsed {
    let a = spec_many_attribute_instance(inp, pos, nest);
    let b = spec_symbol(inp, rest(a), ";");
    variant(1, seq2(a, b))
}

/// Parses a `statement_or_null_attribute` at `pos`.
pub fn statement_or_null_attribute(ctx: &mut Parser, pos: usize, depth: usize) -> (r: Result<
    (usize, StatementOrNull),
    Failure,
>)
    requires
        old(ctx).wf(),
        pos <= old(ctx).input().src.len(),
    ensures
        final(ctx).wf(),
        final(ctx).input() == old(ctx).input(),
        lift(r, |n: StatementOrNull| n.tree()) == spec_statement_or_null_attribute(
            old(ctx).input(),
            pos as int,
            nesting(old(ctx).input(), depth as nat),
        ),
        well_spanned(
            spec_statement_or_null_attribute(
                old(ctx).input(),
                pos as int,
                nesting(old(ctx).input(), depth as nat),
            ),
            pos as int,
            old(ctx).input().src.len() as int,
        ),
{
    proof {
        reveal(spec_statement_or_null_attribute);
        reveal(StatementOrNullAttribute::tree);
    }
    let p = pos;
    let (p, a) = many_attribute_instance(ctx, p, depth)?;
    let (p, b) = symbol(ctx, p, ";")?;
    Ok((p, StatementOrNull::Attribute(Box::new(StatementOrNullAttribute { nodes: (a, b) }))))
}

/// `statement_or_null ::= statement | statement_or_null_attribute`
#[verifier::opaque]
pub open spec fn spec_statement_or_null_choice(inp: Input, pos: int, nest: Nesting) -> Parsed {
    let r = variant(0, spec_statement(inp, pos, nest));
    let r = or_else(r, spec_statement_or_null_attribute(inp, pos, nest));
    r
}

/// Parses a `statement_or_null` at `pos`: the first alternative that matches.
pub fn statement_or_null_choice(ctx: &mut Parser, pos: usize, depth: usize) -> (r: Result<
    (usize, StatementOrNull),
    Failure,
>)
    requires
        old(ctx).wf(),
        pos <= old(ctx).input().src.len(),
    ensures
        final(ctx).wf(),
        final(ctx).input() == old(ctx).input(),
        lift(r, |n: StatementOrNull| n.tree()) == spec_statement_or_null_choice(
            old(ctx).input(),
            pos as int,
            nesting(old(ctx).input(), depth as nat),
        ),
        well_spanned(
            spec_statement_or_null_choice(
                old(ctx).input(),
                pos as int,
                nesting(old(ctx).input(), depth as nat),
            ),
            pos as int,
            old(ctx).input().src.len() as int,
        ),
    decreases depth, 14nat,
{
    proof {
        reveal(spec_statement_or_null_choice);
    }
    let e = match statement(ctx, pos, depth) {
        Ok((p, x)) => return Ok((p, StatementOrNull::Statement(Box::new(x)))),
        Err(e) => e,
    };
    if e.committed {
        return Err(e);
    }
    let e = match statement_or_null_attribute(ctx, pos, depth) {
        Ok(x) => return Ok(x),
        Err(f) => if f.committed {
            return Err(f);
        } else {
            e.or_deeper(f)
        },
    };
    Err(e)
}

/// A statement_or_null, on a new level of nesting: fails with `TooDeep` when no depth
/// is left, and else is whichever alternative of the rule matches first, with one level
/// less.
pub open spec fn spec_statement_or_null(inp: Input, pos: int, depth: nat) -> Parsed
    decreases depth, 0nat,
{
    if depth == 0 {
        Err(Failure::too_deep(pos))
    } else {
        spec_statement_or_null_choice(inp, pos, nesting(inp, (depth - 1) as nat))
    }
}

/// Parses a `statement_or_null` at `pos`, with `depth` levels of nesting left.
pub fn statement_or_null(ctx: &mut Parser, pos: usize, depth: usize) -> (r: Result<
    (usize, StatementOrNull),
    Failure,
>)
    requires
        old(ctx).wf(),
        pos <= old(ctx).input().src.len(),
    ensures
        final(ctx).wf(),
        final(ctx).input() == old(ctx).input(),
        lift(r, |n: StatementOrNull| n.tree()) == spec_statement_or_null(
            old(ctx).input(),
            pos as int,
            depth as nat,
        ),
        well_spanned(
            spec_statement_or_null(old(ctx).input(), pos as int, depth as nat),
            pos as int,
            old(ctx).input().src.len() as int,
        ),
    decreases depth, 0nat,
{
    if depth == 0 {
        return Err(Failure::nesting(pos));
    }
    statement_or_null_choice(ctx, pos, depth - 1)
}

/// `many_statement_or_null ::= { statement_or_null }` Stops before the first item that
/// does not match, or that matches nothing.
#[verifier::opaque]
pub open spec fn spec_many_statement_or_null(inp: Input, pos: int, nest: Nesting) -> Parsed
    decreases inp.src.len() - pos,
{
    match (nest.statement_or_null)(pos) {
        Ok((p, t)) => if pos < p <= inp.src.len() {
            prepend(t, spec_many_statement_or_null(inp, p, nest))
        } else {
            no_more(pos)
        },
        Err(e) => if e.committed {
            Err(e)
        } else {
            no_more(pos)
        },
    }
}

/// Parses as many items as match at `pos`, one after the other: `{ statement_or_null
/// }`.
pub fn many_statement_or_null(ctx: &mut Parser, pos: usize, depth: usize) -> (r: Result<
    (usize, Vec<StatementOrNull>),
    Failure,
>)
    requires
        old(ctx).wf(),
        pos <= old(ctx).input().src.len(),
    ensures
        final(ctx).wf(),
        final(ctx).input() == old(ctx).input(),
        lift(r, |n: Vec<StatementOrNull>| Tree::Repeat(StatementOrNull::trees(n@)))
            == spec_many_statement_or_null(
                old(ctx).input(),
                pos as int,
                nesting(old(ctx).input(), depth as nat),
            ),
        well_spanned(
            spec_many_statement_or_null(
                old(ctx).input(),
                pos as int,
                nesting(old(ctx).input(), depth as nat),
            ),
            pos as int,
            old(ctx).input().src.len() as int,
        ),
    decreases depth, 1nat,
{
    proof {
        reveal(spec_many_statement_or_null);
    }
    let ghost inp = ctx.input();
    let mut items: Vec<StatementOrNull> = Vec::new();
    let mut cur: usize = pos;
    proof {
        lemma_append_empty(
            spec_many_statement_or_null(inp, pos as int, nesting(inp, depth as nat)),
        );
        StatementOrNull::lemma_trees_empty();
    }
    loop
        invariant
            ctx.wf(),
            ctx.input() == inp,
            inp == old(ctx).input(),
            pos <= cur <= inp.src.len(),
            spec_many_statement_or_null(inp, pos as int, nesting(inp, depth as nat)) == append(
                StatementOrNull::trees(items@),
                spec_many_statement_or_null(inp, cur as int, nesting(inp, depth as nat)),
            ),
            tiled(Tree::Repeat(StatementOrNull::trees(items@)), pos as int),
            cur == pos + width(Tree::Repeat(StatementOrNull::trees(items@))),
        decreases inp.src.len() - cur,
    {
        proof {
            reveal(spec_many_statement_or_null);
        }
        let (p, x) = match statement_or_null(ctx, cur, depth) {
            Ok(found) => found,
            Err(e) => {
                if e.committed {
                    return Err(e);
                }
                proof {
                    lemma_append_no_more(StatementOrNull::trees(items@), cur as int);
                }
                return Ok((cur, items));
            },
        };
        if p <= cur {
            proof {
                lemma_append_no_more(StatementOrNull::trees(items@), cur as int);
            }
            return Ok((cur, items));
        }
        proof {
            lemma_append_prepend(
                StatementOrNull::trees(items@),
                x.tree(),
                spec_many_statement_or_null(inp, p as int, nesting(inp, depth as nat)),
            );
            StatementOrNull::lemma_trees_push(items@, x);
        }
        items.push(x);
        cur = p;
    }
}

} // verus!
