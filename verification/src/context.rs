//! The parsing context: the source, the tables of the dialect and the memo
//! tables of one parse.
use vstd::prelude::*;
use std::collections::HashMap;
use crate::combinator::lift;
use crate::combinator::well_spanned;
use crate::failure::Failure;
use crate::parser::behavioral_statements::patterns::spec_pattern;
use crate::parser::behavioral_statements::patterns::Pattern;
use crate::parser::expressions::expressions::spec_expression;
use crate::parser::expressions::expressions::Expression;

verus! {

broadcast use vstd::std_specs::hash::group_hash_axioms;

/// The tables of a dialect of the language. They are handed to the parser as
/// a value, so that another dialect is another value.
#[derive(Clone, Debug)]
pub struct Dialect {
    /// The reserved words: no identifier is spelled like one of them.
    pub reserved: Vec<&'static str>,
    /// The unary operators. An operator stands before every shorter operator
    /// that it begins with.
    pub unary_operators: Vec<&'static str>,
    /// The binary operators, ordered in the same way.
    pub binary_operators: Vec<&'static str>,
    /// Punctuation that begins like a binary operator and is none.
    pub punctuation: Vec<&'static str>,
}

/// What the outcome of a rule depends on, besides the position and the depth
/// left: the bytes of the source and the tables of the dialect.
pub struct Input {
    pub src: Seq<u8>,
    pub dialect: Dialect,
}

/// The rules whose outcomes are kept in a memo table. They lie on the cycles
/// of the grammar: an expression holds expressions, a pattern holds patterns.
#[derive(Clone, Copy, Debug, PartialEq, Eq, Structural)]
pub enum MemoRule {
    Expression,
    Pattern,
}

/// An outcome in a memo table, with the depth that was left when the rule was
/// applied.
pub struct Cached<T> {
    pub depth: usize,
    pub outcome: Result<(usize, T), Failure>,
}

/// The context of one parse. It borrows the source and the dialect and
/// changes neither. The memo tables map the offset at which a rule was applied
/// to its outcome there; they belong to this parse alone.
pub struct Parser<'a> {
    src: &'a [u8],
    dialect: &'a Dialect,
    expressions: HashMap<usize, Cached<Expression>>,
    patterns: HashMap<usize, Cached<Pattern>>,
}

impl<'a> Parser<'a> {
    /// The source and the dialect.
    pub closed spec fn input(&self) -> Input {
        Input { src: self.src@, dialect: *self.dialect }
    }

    /// The offsets at which the table of `rule` holds an outcome.
    pub closed spec fn remembered(&self, rule: MemoRule) -> Set<usize> {
        match rule {
            MemoRule::Expression => self.expressions@.dom(),
            MemoRule::Pattern => self.patterns@.dom(),
        }
    }

    /// The depth that is stored beside the outcome that the table of `rule`
    /// holds for `pos`. It says nothing of an offset that the table does not
    /// hold.
    pub closed spec fn remembered_depth(&self, rule: MemoRule, pos: usize) -> usize {
        match rule {
            MemoRule::Expression => self.expressions@[pos].depth,
            MemoRule::Pattern => self.patterns@[pos].depth,
        }
    }

    /// Every outcome in a memo table is the outcome that the rule has at that
    /// offset of this source, with the depth that is stored beside it.
    pub closed spec fn wf(&self) -> bool {
        &&& forall|k: usize| #[trigger]
            self.expressions@.contains_key(k) ==> {
                let c = self.expressions@[k];
                &&& k <= self.src@.len()
                &&& lift(c.outcome, |n: Expression| n.tree()) == spec_expression(
                    self.input(),
                    k as int,
                    c.depth as nat,
                )
                &&& well_spanned(
                    spec_expression(self.input(), k as int, c.depth as nat),
                    k as int,
                    self.src@.len() as int,
                )
            }
        &&& forall|k: usize| #[trigger]
            self.patterns@.contains_key(k) ==> {
                let c = self.patterns@[k];
                &&& k <= self.src@.len()
                &&& lift(c.outcome, |n: Pattern| n.tree()) == spec_pattern(
                    self.input(),
                    k as int,
                    c.depth as nat,
                )
                &&& well_spanned(
                    spec_pattern(self.input(), k as int, c.depth as nat),
                    k as int,
                    self.src@.len() as int,
                )
            }
    }

    /// A context for parsing `src` in `dialect`, with empty memo tables.
    pub fn new(src: &'a [u8], dialect: &'a Dialect) -> (ctx: Self)
        ensures
            ctx.wf(),
            ctx.input() == (Input { src: src@, dialect: *dialect }),
            ctx.remembered(MemoRule::Expression) == Set::<usize>::empty(),
            ctx.remembered(MemoRule::Pattern) == Set::<usize>::empty(),
    {
        Parser { src, dialect, expressions: HashMap::new(), patterns: HashMap::new() }
    }

    /// The source.
    pub fn source(&self) -> (src: &'a [u8])
        ensures
            src@ == self.input().src,
            src@.len() <= usize::MAX,
    {
        let _ = self.src.len();
        self.src
    }

    /// The dialect.
    pub fn dialect(&self) -> (dialect: &'a Dialect)
        ensures
            *dialect == self.input().dialect,
    {
        self.dialect
    }

    /// Empties the memo tables. The outcomes of the rules stay what they
    /// are: the tables only save work.
    pub fn forget(&mut self)
        requires
            old(self).wf(),
        ensures
            final(self).wf(),
            final(self).input() == old(self).input(),
            final(self).remembered(MemoRule::Expression) == Set::<usize>::empty(),
            final(self).remembered(MemoRule::Pattern) == Set::<usize>::empty(),
    {
        self.expressions = HashMap::new();
        self.patterns = HashMap::new();
    }

    /// The number of outcomes in the table of `rule`.
    pub fn remembered_count(&self, rule: MemoRule) -> (n: usize)
        ensures
            n == self.remembered(rule).len(),
    {
        match rule {
            MemoRule::Expression => self.expressions.len(),
            MemoRule::Pattern => self.patterns.len(),
        }
    }

    /// The outcome of an expression at `pos` with `depth` levels left, if the
    /// table holds it: the table is asked for `pos`, and what it holds counts
    /// if it was stored with this depth.
    pub(crate) fn recall_expression(&self, pos: usize, depth: usize) -> (found: Option<
        Result<(usize, Expression), Failure>,
    >)
        requires
            self.wf(),
        ensures
            found matches Some(r) ==> lift(r, |n: Expression| n.tree()) == spec_expression(
                self.input(),
                pos as int,
                depth as nat,
            ),
            found is Some ==> well_spanned(
                spec_expression(self.input(), pos as int, depth as nat),
                pos as int,
                self.input().src.len() as int,
            ),
            found is Some <==> self.remembered(MemoRule::Expression).contains(pos)
                && self.remembered_depth(MemoRule::Expression, pos) == depth,
    {
        match self.expressions.get(&pos) {
            Some(c) => {
                if c.depth == depth {
                    assert(self.expressions@.contains_key(pos));
                    match &c.outcome {
                        Ok((end, node)) => Some(Ok((*end, node.clone()))),
                        Err(e) => Some(Err(*e)),
                    }
                } else {
                    None
                }
            },
            None => None,
        }
    }

    /// Puts the outcome of an expression at `pos` with `depth` levels left
    /// into the table, in place of what the table held for `pos`.
    pub(crate) fn record_expression(
        &mut self,
        pos: usize,
        depth: usize,
        outcome: &Result<(usize, Expression), Failure>,
    )
        requires
            old(self).wf(),
            pos <= old(self).input().src.len(),
            lift(*outcome, |n: Expression| n.tree()) == spec_expression(
                old(self).input(),
                pos as int,
                depth as nat,
            ),
            well_spanned(
                spec_expression(old(self).input(), pos as int, depth as nat),
                pos as int,
                old(self).input().src.len() as int,
            ),
        ensures
            final(self).wf(),
            final(self).input() == old(self).input(),
            final(self).remembered(MemoRule::Expression) == old(self).remembered(
                MemoRule::Expression,
            ).insert(pos),
            final(self).remembered_depth(MemoRule::Expression, pos) == depth,
    {
        let copy = match outcome {
            Ok((end, node)) => Ok((*end, node.clone())),
            Err(e) => Err(*e),
        };
        self.expressions.insert(pos, Cached { depth, outcome: copy });
    }

    /// The outcome of a pattern at `pos` with `depth` levels left, if the
    /// table holds it: the table is asked for `pos`, and what it holds counts
    /// if it was stored with this depth.
    pub(crate) fn recall_pattern(&self, pos: usize, depth: usize) -> (found: Option<
        Result<(usize, Pattern), Failure>,
    >)
        requires
            self.wf(),
        ensures
            found matches Some(r) ==> lift(r, |n: Pattern| n.tree()) == spec_pattern(
                self.input(),
                pos as int,
                depth as nat,
            ),
            found is Some ==> well_spanned(
                spec_pattern(self.input(), pos as int, depth as nat),
                pos as int,
                self.input().src.len() as int,
            ),
            found is Some <==> self.remembered(MemoRule::Pattern).contains(pos)
                && self.remembered_depth(MemoRule::Pattern, pos) == depth,
    {
        match self.patterns.get(&pos) {
            Some(c) => {
                if c.depth == depth {
                    assert(self.patterns@.contains_key(pos));
                    match &c.outcome {
                        Ok((end, node)) => Some(Ok((*end, node.clone()))),
                        Err(e) => Some(Err(*e)),
                    }
                } else {
                    None
                }
            },
            None => None,
        }
    }

    /// Puts the outcome of a pattern at `pos` with `depth` levels left into
    /// the table, in place of what the table held for `pos`.
    pub(crate) fn record_pattern(
        &mut self,
        pos: usize,
        depth: usize,
        outcome: &Result<(usize, Pattern), Failure>,
    )
        requires
            old(self).wf(),
            pos <= old(self).input().src.len(),
            lift(*outcome, |n: Pattern| n.tree()) == spec_pattern(
                old(self).input(),
                pos as int,
                depth as nat,
            ),
            well_spanned(
                spec_pattern(old(self).input(), pos as int, depth as nat),
                pos as int,
                old(self).input().src.len() as int,
            ),
        ensures
            final(self).wf(),
            final(self).input() == old(self).input(),
            final(self).remembered(MemoRule::Pattern) == old(self).remembered(
                MemoRule::Pattern,
            ).insert(pos),
            final(self).remembered_depth(MemoRule::Pattern, pos) == depth,
    {
        let copy = match outcome {
            Ok((end, node)) => Ok((*end, node.clone())),
            Err(e) => Err(*e),
        };
        self.patterns.insert(pos, Cached { depth, outcome: copy });
    }
}

} // verus!
