//! The terminals of the grammar: reserved words, punctuation, identifiers and
//! numbers, each with the white space that follows it.
use vstd::prelude::*;
use vstd::string::StringSliceAdditionalSpecFns;
use crate::combinator::lift;
use crate::combinator::well_spanned;
use crate::combinator::Parsed;
use crate::context::Input;
use crate::context::Parser;
use crate::failure::Failure;
use crate::failure::FailureKind;
use crate::span::Span;
use crate::text::class_at;
use crate::text::has_prefix;
use crate::text::is_digit;
use crate::text::is_letter;
use crate::text::lemma_run_bound;
use crate::text::run;
use crate::text::run_len;
use crate::text::space_len;
use crate::text::starts_with;
use crate::text::ByteClass;
use crate::tree::group_layout;
use crate::tree::group_leaves;
use crate::tree::leaves_after;
use crate::tree::token;
use crate::tree::Tree;

verus! {

broadcast use group_layout;

/// A reserved word: the span of the word and the span of the white space
/// after it.
#[derive(Clone, Copy, Debug, PartialEq, Eq)]
pub struct Keyword {
    pub nodes: (Span, Span),
}

/// A piece of punctuation or an operator, and the white space after it.
#[derive(Clone, Copy, Debug, PartialEq, Eq)]
pub struct Symbol {
    pub nodes: (Span, Span),
}

/// An identifier, and the white space after it.
#[derive(Clone, Copy, Debug, PartialEq, Eq)]
pub struct Identifier {
    pub nodes: (Span, Span),
}

/// An unsigned decimal number, and the white space after it.
#[derive(Clone, Copy, Debug, PartialEq, Eq)]
pub struct IntegralNumber {
    pub nodes: (Span, Span),
}

/// The name of a system task or function, and the white space after it.
#[derive(Clone, Copy, Debug, PartialEq, Eq)]
pub struct SystemTfIdentifier {
    pub nodes: (Span, Span),
}

/// A string literal with its quotes, and the white space after it.
#[derive(Clone, Copy, Debug, PartialEq, Eq)]
pub struct StringLiteral {
    pub nodes: (Span, Span),
}

/// The tree of a terminal: the leaf of its text, then the leaf of its white
/// space.
pub open spec fn token_tree(nodes: (Span, Span)) -> Tree {
    Tree::Sequence(Seq::empty().push(Tree::Leaf(nodes.0)).push(Tree::Leaf(nodes.1)))
}

impl Keyword {
    /// The tree of the node: its two leaves.
    pub open spec fn tree(&self) -> Tree {
        token_tree(self.nodes)
    }

    /// The span of the text, without the white space after it.
    pub fn span(&self) -> (s: Span)
        ensures
            s == self.nodes.0,
    {
        self.nodes.0
    }

    /// Appends the leaf spans of the node to `out`, in source order.
    pub fn leaf_spans(&self, out: &mut Vec<Span>)
        ensures
            final(out)@ == leaves_after(old(out)@, self.tree()),
    {
        broadcast use group_leaves;

        out.push(self.nodes.0);
        out.push(self.nodes.1);
    }
}

impl Symbol {
    /// The tree of the node: its two leaves.
    pub open spec fn tree(&self) -> Tree {
        token_tree(self.nodes)
    }

    /// The span of the text, without the white space after it.
    pub fn span(&self) -> (s: Span)
        ensures
            s == self.nodes.0,
    {
        self.nodes.0
    }

    /// Appends the leaf spans of the node to `out`, in source order.
    pub fn leaf_spans(&self, out: &mut Vec<Span>)
        ensures
            final(out)@ == leaves_after(old(out)@, self.tree()),
    {
        broadcast use group_leaves;

        out.push(self.nodes.0);
        out.push(self.nodes.1);
    }
}

impl Identifier {
    /// The tree of the node: its two leaves.
    pub open spec fn tree(&self) -> Tree {
        token_tree(self.nodes)
    }

    /// The span of the text, without the white space after it.
    pub fn span(&self) -> (s: Span)
        ensures
            s == self.nodes.0,
    {
        self.nodes.0
    }

    /// Appends the leaf spans of the node to `out`, in source order.
    pub fn leaf_spans(&self, out: &mut Vec<Span>)
        ensures
            final(out)@ == leaves_after(old(out)@, self.tree()),
    {
        broadcast use group_leaves;

        out.push(self.nodes.0);
        out.push(self.nodes.1);
    }
}

impl IntegralNumber {
    /// The tree of the node: its two leaves.
    pub open spec fn tree(&self) -> Tree {
        token_tree(self.nodes)
    }

    /// The span of the text, without the white space after it.
    pub fn span(&self) -> (s: Span)
        ensures
            s == self.nodes.0,
    {
        self.nodes.0
    }

    /// Appends the leaf spans of the node to `out`, in source order.
    pub fn leaf_spans(&self, out: &mut Vec<Span>)
        ensures
            final(out)@ == leaves_after(old(out)@, self.tree()),
    {
        broadcast use group_leaves;

        out.push(self.nodes.0);
        out.push(self.nodes.1);
    }
}

impl StringLiteral {
    /// The tree of the node: its two leaves.
    pub open spec fn tree(&self) -> Tree {
        token_tree(self.nodes)
    }

    /// The span of the text, without the white space after it.
    pub fn span(&self) -> (s: Span)
        ensures
            s == self.nodes.0,
    {
        self.nodes.0
    }

    /// Appends the leaf spans of the node to `out`, in source order.
    pub fn leaf_spans(&self, out: &mut Vec<Span>)
        ensures
            final(out)@ == leaves_after(old(out)@, self.tree()),
    {
        broadcast use group_leaves;

        out.push(self.nodes.0);
        out.push(self.nodes.1);
    }
}

impl SystemTfIdentifier {
    /// The tree of the node: its two leaves.
    pub open spec fn tree(&self) -> Tree {
        token_tree(self.nodes)
    }

    /// The span of the text, without the white space after it.
    pub fn span(&self) -> (s: Span)
        ensures
            s == self.nodes.0,
    {
        self.nodes.0
    }

    /// Appends the leaf spans of the node to `out`, in source order.
    pub fn leaf_spans(&self, out: &mut Vec<Span>)
        ensures
            final(out)@ == leaves_after(old(out)@, self.tree()),
    {
        broadcast use group_leaves;

        out.push(self.nodes.0);
        out.push(self.nodes.1);
    }
}

/// A terminal of `len` bytes at `pos`, with the white space after it.
pub open spec fn terminal(src: Seq<u8>, pos: int, len: int) -> Parsed {
    let space = run(src, pos + len, ByteClass::Space);
    Ok((pos + len + space, token(pos, len, space as int)))
}

/// Whether `text` is one of the reserved words.
pub open spec fn is_reserved(words: Seq<&'static str>, text: Seq<u8>) -> bool {
    exists|i: int| 0 <= i < words.len() && (#[trigger] words[i]).spec_bytes() == text
}

/// The reserved word `text`: its bytes, not followed by a byte that could
/// continue a word, so that `case` does not match the beginning of `casex`.
#[verifier::opaque]
pub open spec fn spec_keyword(inp: Input, pos: int, text: &'static str) -> Parsed {
    let len = text.spec_bytes().len() as int;
    if has_prefix(inp.src, pos, text.spec_bytes()) && !class_at(
        inp.src,
        pos + len,
        ByteClass::Word,
    ) {
        terminal(inp.src, pos, len)
    } else {
        Err(Failure::mismatch(FailureKind::Keyword(text), pos))
    }
}

/// The punctuation `text`: its bytes, whatever follows. Where one symbol is the
/// beginning of another, the caller tries the longer one first.
#[verifier::opaque]
pub open spec fn spec_symbol(inp: Input, pos: int, text: &'static str) -> Parsed {
    let len = text.spec_bytes().len() as int;
    if has_prefix(inp.src, pos, text.spec_bytes()) {
        terminal(inp.src, pos, len)
    } else {
        Err(Failure::mismatch(FailureKind::Symbol(text), pos))
    }
}

/// An identifier: the longest run of word bytes at `pos`, if it begins with a
/// letter or `_` and is not a reserved word.
#[verifier::opaque]
pub open spec fn spec_identifier(inp: Input, pos: int) -> Parsed {
    let len = run(inp.src, pos, ByteClass::Word) as int;
    if len > 0 && (is_letter(inp.src[pos]) || inp.src[pos] == 0x5f) && !is_reserved(
        inp.dialect.reserved@,
        inp.src.subrange(pos, pos + len),
    ) {
        terminal(inp.src, pos, len)
    } else {
        Err(Failure::mismatch(FailureKind::Identifier, pos))
    }
}

/// An unsigned number: the longest run of word bytes at `pos`, if it begins
/// with a digit and holds nothing but digits and `_`.
#[verifier::opaque]
pub open spec fn spec_integral_number(inp: Input, pos: int) -> Parsed {
    let len = run(inp.src, pos, ByteClass::Word) as int;
    if len > 0 && is_digit(inp.src[pos]) && run(inp.src, pos, ByteClass::Digit) == len {
        terminal(inp.src, pos, len)
    } else {
        Err(Failure::mismatch(FailureKind::Number, pos))
    }
}

/// The name of a system task or function: `$` and at least one more word
/// byte.
#[verifier::opaque]
pub open spec fn spec_system_tf_identifier(inp: Input, pos: int) -> Parsed {
    let len = run(inp.src, pos, ByteClass::Word) as int;
    if len >= 2 && inp.src[pos] == 0x24 {
        terminal(inp.src, pos, len)
    } else {
        Err(Failure::mismatch(FailureKind::SystemIdentifier, pos))
    }
}

/// The offset after the quote that closes a string whose inside begins at
/// `pos`. A backslash takes the byte after it with it, whatever that is. A
/// string does not go on over the end of a line or of the source.
pub open spec fn string_end(src: Seq<u8>, pos: int) -> Option<int>
    decreases src.len() - pos,
{
    if pos < 0 || pos >= src.len() {
        None
    } else if src[pos] == 0x22 {
        Some(pos + 1)
    } else if src[pos] == 0x0a {
        None
    } else if src[pos] == 0x5c {
        if pos + 1 < src.len() {
            string_end(src, pos + 2)
        } else {
            None
        }
    } else {
        string_end(src, pos + 1)
    }
}

/// A string literal: a quote, and the bytes up to the quote that closes it.
#[verifier::opaque]
pub open spec fn spec_string_literal(inp: Input, pos: int) -> Parsed {
    if 0 <= pos < inp.src.len() && inp.src[pos] == 0x22 {
        match string_end(inp.src, pos + 1) {
            Some(end) => terminal(inp.src, pos, end - pos),
            None => Err(Failure::mismatch(FailureKind::StringLiteral, pos)),
        }
    } else {
        Err(Failure::mismatch(FailureKind::StringLiteral, pos))
    }
}

/// Keyword-prefix disambiguation: a reserved word matches only where no word
/// byte follows it.
pub proof fn lemma_keyword_needs_boundary(inp: Input, pos: int, text: &'static str)
    ensures
        spec_keyword(inp, pos, text) is Ok <==> has_prefix(inp.src, pos, text.spec_bytes())
            && !class_at(inp.src, pos + text.spec_bytes().len(), ByteClass::Word),
        spec_keyword(inp, pos, text) matches Err(e) ==> e == Failure::mismatch(
            FailureKind::Keyword(text),
            pos,
        ),
{
    reveal(spec_keyword);
}

/// Keyword-prefix disambiguation, for two words: where the source holds a
/// word that begins with a shorter reserved word and goes on with a word
/// byte, the shorter word does not match. So `case` does not match at `casex`.
pub proof fn lemma_keyword_rejects_longer_word(
    inp: Input,
    pos: int,
    short: &'static str,
    long: &'static str,
)
    requires
        has_prefix(inp.src, pos, long.spec_bytes()),
        short.spec_bytes().len() < long.spec_bytes().len(),
        ByteClass::Word.holds(long.spec_bytes()[short.spec_bytes().len() as int]),
    ensures
        spec_keyword(inp, pos, short) is Err,
{
    reveal(spec_keyword);
    let k = short.spec_bytes().len() as int;
    assert(inp.src.subrange(pos, pos + long.spec_bytes().len())[k] == inp.src[pos + k]);
}

/// An identifier is never spelled like a reserved word.
pub proof fn lemma_identifier_is_not_reserved(inp: Input, pos: int)
    ensures
        spec_identifier(inp, pos) is Ok ==> !is_reserved(
            inp.dialect.reserved@,
            inp.src.subrange(pos, pos + run(inp.src, pos, ByteClass::Word)),
        ),
{
    reveal(spec_identifier);
}

/// The two spans of a terminal of `len` bytes at `pos`, and the offset after
/// its white space.
pub(crate) fn finish(src: &[u8], pos: usize, len: usize) -> (r: (usize, (Span, Span)))
    requires
        pos + len <= src@.len(),
    ensures
        Ok::<(int, Tree), Failure>((r.0 as int, token_tree(r.1))) == terminal(
            src@,
            pos as int,
            len as int,
        ),
        well_spanned(terminal(src@, pos as int, len as int), pos as int, src@.len() as int),
{
    let _ = src.len();
    let after = pos + len;
    let space = space_len(src, after);
    proof {
        lemma_run_bound(src@, after as int, ByteClass::Space);
    }
    (after + space, (Span { offset: pos, len }, Span { offset: after, len: space }))
}

/// Parses the reserved word `text` at `pos`.
pub fn keyword(ctx: &Parser, pos: usize, text: &'static str) -> (r: Result<
    (usize, Keyword),
    Failure,
>)
    requires
        pos <= ctx.input().src.len(),
    ensures
        lift(r, |n: Keyword| n.tree()) == spec_keyword(ctx.input(), pos as int, text),
        well_spanned(
            spec_keyword(ctx.input(), pos as int, text),
            pos as int,
            ctx.input().src.len() as int,
        ),
{
    proof {
        reveal(spec_keyword);
    }
    let src = ctx.source();
    if starts_with(src, pos, text) {
        let after = pos + text.len();
        if after < src.len() && ByteClass::Word.contains(src[after]) {
            Err(Failure::new(FailureKind::Keyword(text), pos))
        } else {
            let (end, nodes) = finish(src, pos, text.len());
            Ok((end, Keyword { nodes }))
        }
    } else {
        Err(Failure::new(FailureKind::Keyword(text), pos))
    }
}

/// Parses the punctuation `text` at `pos`.
pub fn symbol(ctx: &Parser, pos: usize, text: &'static str) -> (r: Result<
    (usize, Symbol),
    Failure,
>)
    requires
        pos <= ctx.input().src.len(),
    ensures
        lift(r, |n: Symbol| n.tree()) == spec_symbol(ctx.input(), pos as int, text),
        well_spanned(
            spec_symbol(ctx.input(), pos as int, text),
            pos as int,
            ctx.input().src.len() as int,
        ),
{
    proof {
        reveal(spec_symbol);
    }
    let src = ctx.source();
    if starts_with(src, pos, text) {
        let (end, nodes) = finish(src, pos, text.len());
        Ok((end, Symbol { nodes }))
    } else {
        Err(Failure::new(FailureKind::Symbol(text), pos))
    }
}

/// Whether the `len` bytes at `pos` spell a reserved word.
fn reserved_at(ctx: &Parser, pos: usize, len: usize) -> (r: bool)
    requires
        pos + len <= ctx.input().src.len(),
    ensures
        r == is_reserved(
            ctx.input().dialect.reserved@,
            ctx.input().src.subrange(pos as int, pos + len),
        ),
{
    let src = ctx.source();
    let words = &ctx.dialect().reserved;
    let ghost text = src@.subrange(pos as int, pos + len);
    let mut i: usize = 0;
    while i < words.len()
        invariant
            i <= words@.len(),
            pos + len <= src@.len() <= usize::MAX,
            words@ == ctx.input().dialect.reserved@,
            src@ == ctx.input().src,
            text == src@.subrange(pos as int, pos + len),
            forall|j: int| 0 <= j < i ==> (#[trigger] words@[j]).spec_bytes() != text,
        decreases words@.len() - i,
    {
        let word = words[i];
        if word.len() == len && starts_with(src, pos, word) {
            assert(words@[i as int].spec_bytes() == text);
            return true;
        }
        i = i + 1;
    }
    false
}

/// Parses an identifier at `pos`.
pub fn identifier(ctx: &Parser, pos: usize) -> (r: Result<(usize, Identifier), Failure>)
    requires
        pos <= ctx.input().src.len(),
    ensures
        lift(r, |n: Identifier| n.tree()) == spec_identifier(ctx.input(), pos as int),
        well_spanned(
            spec_identifier(ctx.input(), pos as int),
            pos as int,
            ctx.input().src.len() as int,
        ),
{
    proof {
        reveal(spec_identifier);
    }
    let src = ctx.source();
    let len = run_len(src, pos, ByteClass::Word);
    proof {
        lemma_run_bound(src@, pos as int, ByteClass::Word);
    }
    if len > 0 {
        let first = src[pos];
        let starts = (0x41 <= first && first <= 0x5a) || (0x61 <= first && first <= 0x7a) || first
            == 0x5f;
        if starts && !reserved_at(ctx, pos, len) {
            let (end, nodes) = finish(src, pos, len);
            return Ok((end, Identifier { nodes }));
        }
    }
    Err(Failure::new(FailureKind::Identifier, pos))
}

/// Parses an unsigned number at `pos`.
pub fn integral_number(ctx: &Parser, pos: usize) -> (r: Result<(usize, IntegralNumber), Failure>)
    requires
        pos <= ctx.input().src.len(),
    ensures
        lift(r, |n: IntegralNumber| n.tree()) == spec_integral_number(ctx.input(), pos as int),
        well_spanned(
            spec_integral_number(ctx.input(), pos as int),
            pos as int,
            ctx.input().src.len() as int,
        ),
{
    proof {
        reveal(spec_integral_number);
    }
    let src = ctx.source();
    let len = run_len(src, pos, ByteClass::Word);
    proof {
        lemma_run_bound(src@, pos as int, ByteClass::Word);
    }
    if len > 0 {
        let first = src[pos];
        if 0x30 <= first && first <= 0x39 && run_len(src, pos, ByteClass::Digit) == len {
            let (end, nodes) = finish(src, pos, len);
            return Ok((end, IntegralNumber { nodes }));
        }
    }
    Err(Failure::new(FailureKind::Number, pos))
}

/// The offset after the quote that closes a string whose inside begins at
/// `pos`.
fn scan_string(src: &[u8], pos: usize) -> (r: Option<usize>)
    requires
        pos <= src@.len(),
    ensures
        r matches Some(end) ==> string_end(src@, pos as int) == Some(end as int) && pos < end
            <= src@.len(),
        r is None ==> string_end(src@, pos as int) is None,
{
    let total = src.len();
    let mut i: usize = pos;
    while i < total
        invariant
            pos <= i <= total,
            total == src@.len(),
            string_end(src@, pos as int) == string_end(src@, i as int),
        decreases total - i,
    {
        let b = src[i];
        if b == 0x22 {
            return Some(i + 1);
        } else if b == 0x0a {
            return None;
        } else if b == 0x5c {
            if total - i < 2 {
                return None;
            }
            i = i + 2;
        } else {
            i = i + 1;
        }
    }
    None
}

/// Parses a string literal at `pos`.
pub fn string_literal(ctx: &Parser, pos: usize) -> (r: Result<(usize, StringLiteral), Failure>)
    requires
        pos <= ctx.input().src.len(),
    ensures
        lift(r, |n: StringLiteral| n.tree()) == spec_string_literal(ctx.input(), pos as int),
        well_spanned(
            spec_string_literal(ctx.input(), pos as int),
            pos as int,
            ctx.input().src.len() as int,
        ),
{
    proof {
        reveal(spec_string_literal);
    }
    let src = ctx.source();
    if pos < src.len() && src[pos] == 0x22 {
        match scan_string(src, pos + 1) {
            Some(end) => {
                let (after, nodes) = finish(src, pos, end - pos);
                return Ok((after, StringLiteral { nodes }));
            },
            None => {},
        }
    }
    Err(Failure::new(FailureKind::StringLiteral, pos))
}

/// Parses the name of a system task or function at `pos`.
pub fn system_tf_identifier(ctx: &Parser, pos: usize) -> (r: Result<
    (usize, SystemTfIdentifier),
    Failure,
>)
    requires
        pos <= ctx.input().src.len(),
    ensures
        lift(r, |n: SystemTfIdentifier| n.tree()) == spec_system_tf_identifier(
            ctx.input(),
            pos as int,
        ),
        well_spanned(
            spec_system_tf_identifier(ctx.input(), pos as int),
            pos as int,
            ctx.input().src.len() as int,
        ),
{
    proof {
        reveal(spec_system_tf_identifier);
    }
    let src = ctx.source();
    let len = run_len(src, pos, ByteClass::Word);
    proof {
        lemma_run_bound(src@, pos as int, ByteClass::Word);
    }
    if len >= 2 && src[pos] == 0x24 {
        let (end, nodes) = finish(src, pos, len);
        return Ok((end, SystemTfIdentifier { nodes }));
    }
    Err(Failure::new(FailureKind::SystemIdentifier, pos))
}

} // verus!
