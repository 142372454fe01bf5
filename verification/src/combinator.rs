//! How the results of rules combine: in sequence, as alternatives, as an
//! optional part and as a repetition.
//!
//! The specification of a grammar rule is written with the functions of this
//! file over the specifications of the rules it is made of.
use vstd::prelude::*;
use crate::failure::Failure;
use crate::tree::child_start;
use crate::tree::children;
use crate::tree::extent;
use crate::tree::leaves;
use crate::tree::lemma_every_node_is_spanned;
use crate::tree::lemma_leaves_reproduce_source;
use crate::tree::node_at;
use crate::tree::text_of;
use crate::tree::tiled;
use crate::tree::width;
use crate::tree::Tree;

verus! {

/// What a rule gives at a position: the offset after what it matched and the
/// tree of what it matched, or a failure.
pub type Parsed = Result<(int, Tree), Failure>;

/// The offset after what was matched.
pub open spec fn rest(r: Parsed) -> int {
    match r {
        Ok((p, _)) => p,
        Err(_) => 0,
    }
}

/// The outcome of an executable rule as the specification sees it: the node
/// is replaced by its tree.
pub open spec fn lift<T>(r: Result<(usize, T), Failure>, tree: spec_fn(T) -> Tree) -> Parsed {
    match r {
        Ok((p, node)) => Ok((p as int, tree(node))),
        Err(e) => Err(e),
    }
}

/// Whether an outcome at `pos` respects the source of `limit` bytes: a tree is
/// laid out from `pos` to the returned offset without gap or overlap and ends
/// inside the source; a failure lies between `pos` and the end of the source.
pub open spec fn well_spanned(r: Parsed, pos: int, limit: int) -> bool {
    match r {
        Ok((end, t)) => tiled(t, pos) && end == pos + width(t) && end <= limit,
        Err(e) => pos <= e.offset <= limit,
    }
}

/// The first failure of the parts, or a sequence node of their trees that
/// ends where the last part ends.
pub open spec fn seq1(a: Parsed) -> Parsed {
    match a {
        Err(e) => Err(e),
        Ok((p, x0)) => Ok((p, Tree::Sequence(Seq::empty().push(x0)))),
    }
}

pub open spec fn seq2(a: Parsed, b: Parsed) -> Parsed {
    match (a, b) {
        (Err(e), _) => Err(e),
        (_, Err(e)) => Err(e),
        (Ok((_, x0)), Ok((p, x1))) => Ok((p, Tree::Sequence(Seq::empty().push(x0).push(x1)))),
    }
}

pub open spec fn seq3(a: Parsed, b: Parsed, c: Parsed) -> Parsed {
    match (a, b, c) {
        (Err(e), _, _) => Err(e),
        (_, Err(e), _) => Err(e),
        (_, _, Err(e)) => Err(e),
        (Ok((_, x0)), Ok((_, x1)), Ok((p, x2))) => Ok(
            (p, Tree::Sequence(Seq::empty().push(x0).push(x1).push(x2))),
        ),
    }
}

pub open spec fn seq4(a: Parsed, b: Parsed, c: Parsed, d: Parsed) -> Parsed {
    match (a, b, c, d) {
        (Err(e), _, _, _) => Err(e),
        (_, Err(e), _, _) => Err(e),
        (_, _, Err(e), _) => Err(e),
        (_, _, _, Err(e)) => Err(e),
        (Ok((_, x0)), Ok((_, x1)), Ok((_, x2)), Ok((p, x3))) => Ok(
            (p, Tree::Sequence(Seq::empty().push(x0).push(x1).push(x2).push(x3))),
        ),
    }
}

pub open spec fn seq5(a: Parsed, b: Parsed, c: Parsed, d: Parsed, e: Parsed) -> Parsed {
    match seq4(a, b, c, d) {
        Err(f) => Err(f),
        Ok((_, Tree::Sequence(s))) => match e {
            Err(f) => Err(f),
            Ok((p, x)) => Ok((p, Tree::Sequence(s.push(x)))),
        },
        Ok(other) => Ok(other),
    }
}

pub open spec fn seq6(a: Parsed, b: Parsed, c: Parsed, d: Parsed, e: Parsed, f: Parsed) -> Parsed {
    match seq5(a, b, c, d, e) {
        Err(g) => Err(g),
        Ok((_, Tree::Sequence(s))) => match f {
            Err(g) => Err(g),
            Ok((p, x)) => Ok((p, Tree::Sequence(s.push(x)))),
        },
        Ok(other) => Ok(other),
    }
}

pub open spec fn seq7(
    a: Parsed,
    b: Parsed,
    c: Parsed,
    d: Parsed,
    e: Parsed,
    f: Parsed,
    g: Parsed,
) -> Parsed {
    match seq6(a, b, c, d, e, f) {
        Err(h) => Err(h),
        Ok((_, Tree::Sequence(s))) => match g {
            Err(h) => Err(h),
            Ok((p, x)) => Ok((p, Tree::Sequence(s.push(x)))),
        },
        Ok(other) => Ok(other),
    }
}

pub open spec fn seq8(
    a: Parsed,
    b: Parsed,
    c: Parsed,
    d: Parsed,
    e: Parsed,
    f: Parsed,
    g: Parsed,
    h: Parsed,
) -> Parsed {
    match seq7(a, b, c, d, e, f, g) {
        Err(i) => Err(i),
        Ok((_, Tree::Sequence(s))) => match h {
            Err(i) => Err(i),
            Ok((p, x)) => Ok((p, Tree::Sequence(s.push(x)))),
        },
        Ok(other) => Ok(other),
    }
}

/// What stands between two delimiters: the opening delimiter, the inner
/// part, the closing delimiter. It fails as a whole where one of the three
/// fails.
pub open spec fn delimited(open: Parsed, inner: Parsed, close: Parsed) -> Parsed {
    seq3(open, inner, close)
}

/// One or more items with separators: the first item, then the repetition
/// of a separator and a further item.
pub open spec fn list(first: Parsed, more: Parsed) -> Parsed {
    seq2(first, more)
}

/// The outcome with its tree as the payload of alternative `index`.
pub open spec fn variant(index: nat, r: Parsed) -> Parsed {
    match r {
        Ok((p, t)) => Ok((p, Tree::Variant(index, Box::new(t)))),
        Err(e) => Err(e),
    }
}

/// Ordered choice between two outcomes at one position. The first wins if it
/// matched. A committed failure of the first ends the choice. Otherwise the
/// second decides; where both fail, the deeper failure is reported.
pub open spec fn or_else(first: Parsed, second: Parsed) -> Parsed {
    match first {
        Ok(x) => Ok(x),
        Err(e) => if e.committed {
            Err(e)
        } else {
            match second {
                Ok(x) => Ok(x),
                Err(f) => if f.committed {
                    Err(f)
                } else {
                    Err(e.deeper(f))
                },
            }
        },
    }
}

/// Zero or one: a failure that is not committed becomes an absent child at
/// `pos`, where the attempt began.
pub open spec fn optional(r: Parsed, pos: int) -> Parsed {
    match r {
        Ok((p, t)) => Ok((p, Tree::Optional(Some(Box::new(t))))),
        Err(e) => if e.committed {
            Err(e)
        } else {
            Ok((pos, Tree::Optional(None)))
        },
    }
}

/// The outcome with its failure, if any, committed.
pub open spec fn cut<T>(r: Result<T, Failure>) -> Result<T, Failure> {
    match r {
        Ok(x) => Ok(x),
        Err(e) => Err(e.committed()),
    }
}

/// The first item of a construct that must have one. Where no item matches
/// at `pos` and the word that closes the construct stands there instead, the
/// failure is that of a construct without items.
pub open spec fn at_least_one(item: Parsed, closing: Parsed, pos: int) -> Parsed {
    match item {
        Ok(x) => Ok(x),
        Err(e) => if !e.committed && closing is Ok {
            Err(Failure::missing_item(pos))
        } else {
            Err(e)
        },
    }
}

/// A repetition that ends at `pos` without a further item.
pub open spec fn no_more(pos: int) -> Parsed {
    Ok((pos, Tree::Repeat(Seq::empty())))
}

/// The repetition `more` with `t` in front.
pub open spec fn prepend(t: Tree, more: Parsed) -> Parsed {
    match more {
        Ok((end, Tree::Repeat(s))) => Ok((end, Tree::Repeat(seq![t] + s))),
        Ok(other) => Ok(other),
        Err(e) => Err(e),
    }
}

/// The repetition `more` with the trees of `before` in front.
pub open spec fn append(before: Seq<Tree>, more: Parsed) -> Parsed {
    match more {
        Ok((end, Tree::Repeat(s))) => Ok((end, Tree::Repeat(before + s))),
        Ok(other) => Ok(other),
        Err(e) => Err(e),
    }
}

/// Putting a tree in front of a repetition and then a list in front of that is putting
/// the list with the tree at its end in front.
pub proof fn lemma_append_prepend(before: Seq<Tree>, t: Tree, more: Parsed)
    ensures
        append(before, prepend(t, more)) == append(before.push(t), more),
{
    match more {
        Ok((end, Tree::Repeat(s))) => {
            assert(before + (seq![t] + s) =~= before.push(t) + s);
        },
        _ => {},
    }
}

/// Putting nothing in front of a repetition leaves it as it is.
pub proof fn lemma_append_empty(more: Parsed)
    ensures
        append(Seq::empty(), more) == more,
{
    match more {
        Ok((end, Tree::Repeat(s))) => {
            assert(Seq::<Tree>::empty() + s =~= s);
        },
        _ => {},
    }
}

/// A list in front of the repetition that ends here is the repetition of the list.
pub proof fn lemma_append_no_more(before: Seq<Tree>, pos: int)
    ensures
        append(before, no_more(pos)) == Ok::<(int, Tree), Failure>((pos, Tree::Repeat(before))),
{
    assert(before + Seq::<Tree>::empty() =~= before);
}

/// Span coverage of a parse: the leaves of the tree of a rule that matched
/// at `pos`, one after the other, are exactly the bytes of the source from
/// `pos` to the offset that the rule returned.
pub proof fn lemma_parse_reproduces_source(r: Parsed, pos: int, src: Seq<u8>)
    requires
        0 <= pos,
        src.len() <= usize::MAX,
        well_spanned(r, pos, src.len() as int),
    ensures
        r matches Ok((end, t)) ==> pos <= end <= src.len() && text_of(leaves(t), src)
            == src.subrange(pos, end),
{
    match r {
        Ok((end, t)) => {
            lemma_leaves_reproduce_source(t, pos, src);
        },
        Err(_) => {},
    }
}

/// Span coverage of every node of a parse: each node of the tree of a rule
/// that matched at `pos` lies inside what the rule matched, has as its span
/// the union of the spans of its first and its last child, and its leaves,
/// one after the other, are exactly the bytes of the source under it.
pub proof fn lemma_every_parsed_node_is_spanned(r: Parsed, pos: int, src: Seq<u8>, path: Seq<int>)
    requires
        0 <= pos,
        src.len() <= usize::MAX,
        well_spanned(r, pos, src.len() as int),
    ensures
        r matches Ok((end, t)) ==> (node_at(t, pos, path) matches Some((node, at)) ==> {
            &&& pos <= at
            &&& at + width(node) <= end
            &&& text_of(leaves(node), src) == src.subrange(at, at + width(node))
            &&& children(node).len() > 0 ==> extent(node, at) == extent(
                children(node)[0],
                child_start(children(node), 0, at),
            ).spec_union(
                extent(
                    children(node).last(),
                    child_start(children(node), children(node).len() - 1, at),
                ),
            )
        }),
{
    match r {
        Ok((end, t)) => {
            lemma_every_node_is_spanned(t, pos, path);
            match node_at(t, pos, path) {
                Some((node, at)) => {
                    lemma_leaves_reproduce_source(node, at, src);
                },
                None => {},
            }
        },
        Err(_) => {},
    }
}

/// Error locality: where the first part of a sequence matches and the
/// second fails, the sequence fails with the failure of the second part, and
/// that failure lies at or after the end of what the first part matched, not
/// at the start of the sequence.
pub proof fn lemma_failure_lies_after_matched_part(a: Parsed, b: Parsed, pos: int, limit: int)
    requires
        well_spanned(a, pos, limit),
        well_spanned(b, rest(a), limit),
        a is Ok,
        b is Err,
    ensures
        seq2(a, b) == Err::<(int, Tree), Failure>(b->Err_0),
        pos <= rest(a) <= b->Err_0.offset <= limit,
{
}

/// Ordered choice: the first alternative that matches wins, whatever the
/// second would give.
pub proof fn lemma_first_match_wins(first: Parsed, second: Parsed)
    requires
        first is Ok,
    ensures
        or_else(first, second) == first,
{
}

/// A committed failure ends the choice: the second alternative is not
/// consulted.
pub proof fn lemma_committed_failure_ends_choice(first: Parsed, second: Parsed)
    requires
        first matches Err(e) && e.committed,
    ensures
        or_else(first, second) == first,
{
}

/// Where every alternative fails without being committed, the choice reports
/// the failure that got furthest into the input, and of two that got equally
/// far the earlier one.
pub proof fn lemma_choice_reports_deepest(first: Parsed, second: Parsed)
    requires
        first matches Err(e) && !e.committed,
        second matches Err(f) && !f.committed,
    ensures
        or_else(first, second) matches Err(g) && {
            &&& g.offset >= first->Err_0.offset
            &&& g.offset >= second->Err_0.offset
            &&& g == first->Err_0 || g == second->Err_0
            &&& second->Err_0.offset <= first->Err_0.offset ==> g == first->Err_0
            &&& !g.committed
        },
{
}

/// An optional part and a repetition never fail of themselves: they pass on
/// committed failures only.
pub proof fn lemma_optional_absorbs(r: Parsed, pos: int)
    ensures
        optional(r, pos) matches Err(e) ==> e.committed && r == Err::<(int, Tree), Failure>(e),
        r is Ok ==> optional(r, pos) is Ok && rest(optional(r, pos)) == rest(r),
        (r matches Err(e) && !e.committed) ==> optional(r, pos) == Ok::<(int, Tree), Failure>(
            (pos, Tree::Optional(None)),
        ),
{
}

/// A failure that has passed a cut stays committed.
pub proof fn lemma_cut_commits(r: Parsed)
    ensures
        cut(r) matches Err(e) ==> e.committed,
        r is Ok ==> cut(r) == r,
{
}

/// A construct that needs an item and finds its closing word instead fails
/// with `MissingItem`, and that failure is committed.
pub proof fn lemma_missing_item(item: Parsed, closing: Parsed, pos: int)
    requires
        item matches Err(e) && !e.committed,
        closing is Ok,
    ensures
        at_least_one(item, closing, pos) == Err::<(int, Tree), Failure>(Failure::missing_item(pos)),
{
}

/// Zero or one, on the outcome of an executable rule.
pub open spec fn spec_opt<T>(r: Result<(usize, T), Failure>, pos: usize) -> Result<
    (usize, Option<T>),
    Failure,
> {
    match r {
        Ok((p, x)) => Ok((p, Some(x))),
        Err(e) => if e.committed {
            Err(e)
        } else {
            Ok((pos, None))
        },
    }
}

/// Zero or one: absorbs a failure that is not committed.
pub fn opt<T>(r: Result<(usize, T), Failure>, pos: usize) -> (out: Result<
    (usize, Option<T>),
    Failure,
>)
    ensures
        out == spec_opt(r, pos),
{
    match r {
        Ok((p, x)) => Ok((p, Some(x))),
        Err(e) => if e.committed {
            Err(e)
        } else {
            Ok((pos, None))
        },
    }
}

/// Commits the failure of an outcome.
pub fn commit<T>(r: Result<T, Failure>) -> (out: Result<T, Failure>)
    ensures
        out == cut(r),
{
    match r {
        Ok(x) => Ok(x),
        Err(e) => Err(e.commit()),
    }
}

} // verus!
