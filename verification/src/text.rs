//! Matching at the level of bytes: fixed texts and runs of one class of bytes.
//!
//! The three matchers are nom's; what is claimed of each is stated in its
//! contract over the bytes of the source.
use vstd::prelude::*;
use vstd::string::StringSliceAdditionalSpecFns;
use nom::bytes::complete::tag;
use nom::bytes::complete::take_while;
use nom::character::complete::multispace0;
use nom::IResult;

verus! {

/// A class of bytes.
#[derive(Clone, Copy, Debug, PartialEq, Eq, Structural)]
pub enum ByteClass {
    /// Space, tab, carriage return and line feed.
    Space,
    /// What an identifier or a reserved word is made of: letters, digits,
    /// `_` and `$`.
    Word,
    /// What an unsigned number is made of: digits and `_`.
    Digit,
}

/// Whether `b` is an ASCII letter.
pub open spec fn is_letter(b: u8) -> bool {
    (0x41 <= b <= 0x5a) || (0x61 <= b <= 0x7a)
}

/// Whether `b` is an ASCII digit.
pub open spec fn is_digit(b: u8) -> bool {
    0x30 <= b <= 0x39
}

impl ByteClass {
    /// Whether `b` belongs to the class.
    pub open spec fn holds(self, b: u8) -> bool {
        match self {
            ByteClass::Space => b == 0x20 || b == 0x09 || b == 0x0d || b == 0x0a,
            ByteClass::Word => is_letter(b) || is_digit(b) || b == 0x5f || b == 0x24,
            ByteClass::Digit => is_digit(b) || b == 0x5f,
        }
    }

    /// Whether `b` belongs to the class.
    pub fn contains(self, b: u8) -> (r: bool)
        ensures
            r == self.holds(b),
    {
        match self {
            ByteClass::Space => b == 0x20 || b == 0x09 || b == 0x0d || b == 0x0a,
            ByteClass::Word => (0x41 <= b && b <= 0x5a) || (0x61 <= b && b <= 0x7a) || (0x30 <= b
                && b <= 0x39) || b == 0x5f || b == 0x24,
            ByteClass::Digit => (0x30 <= b && b <= 0x39) || b == 0x5f,
        }
    }
}

/// Whether the bytes of `src` from `pos` on begin with `text`.
pub open spec fn has_prefix(src: Seq<u8>, pos: int, text: Seq<u8>) -> bool {
    &&& 0 <= pos
    &&& pos + text.len() <= src.len()
    &&& src.subrange(pos, pos + text.len()) == text
}

/// Whether the byte at `pos` exists and belongs to `class`.
pub open spec fn class_at(src: Seq<u8>, pos: int, class: ByteClass) -> bool {
    0 <= pos < src.len() && class.holds(src[pos])
}

/// The length of the longest run of bytes of `class` that begins at `pos`.
pub open spec fn run(src: Seq<u8>, pos: int, class: ByteClass) -> nat
    decreases src.len() - pos,
{
    if class_at(src, pos, class) {
        1 + run(src, pos + 1, class)
    } else {
        0
    }
}

/// A run ends inside the source.
pub proof fn lemma_run_bound(src: Seq<u8>, pos: int, class: ByteClass)
    requires
        0 <= pos <= src.len(),
    ensures
        pos + run(src, pos, class) <= src.len(),
    decreases src.len() - pos,
{
    if class_at(src, pos, class) {
        lemma_run_bound(src, pos + 1, class);
    }
}

/// A run is as long as it can be: the byte after it is not of the class.
pub proof fn lemma_run_maximal(src: Seq<u8>, pos: int, class: ByteClass)
    requires
        0 <= pos <= src.len(),
    ensures
        !class_at(src, pos + run(src, pos, class), class),
        forall|i: int| pos <= i < pos + run(src, pos, class) ==> class.holds(#[trigger] src[i]),
    decreases src.len() - pos,
{
    if class_at(src, pos, class) {
        lemma_run_maximal(src, pos + 1, class);
    }
}

/// Whether `src` continues with `text` at `pos`.
///
/// Calls `nom::bytes::complete::tag` on the rest of the source. The claim:
/// it accepts exactly when the rest is at least as long as `text` and begins
/// with its bytes.
#[verifier::external_body]
pub(crate) fn starts_with(src: &[u8], pos: usize, text: &str) -> (r: bool)
    requires
        pos <= src@.len(),
    ensures
        r == has_prefix(src@, pos as int, text.spec_bytes()),
{
    let r: IResult<&[u8], &[u8]> = tag(text.as_bytes())(&src[pos..]);
    r.is_ok()
}

/// The number of white-space bytes at `pos`.
///
/// Calls `nom::character::complete::multispace0` on the rest of the source.
/// The claim: it takes the longest run of spaces, tabs, carriage returns and
/// line feeds, which may be empty.
#[verifier::external_body]
pub(crate) fn space_len(src: &[u8], pos: usize) -> (n: usize)
    requires
        pos <= src@.len(),
    ensures
        n == run(src@, pos as int, ByteClass::Space),
{
    let r: IResult<&[u8], &[u8]> = multispace0(&src[pos..]);
    match r {
        Ok((_, taken)) => taken.len(),
        Err(_) => 0,
    }
}

/// The number of bytes of `class` at `pos`.
///
/// Calls `nom::bytes::complete::take_while` on the rest of the source, with
/// membership in `class` as the condition. The claim: it takes the longest
/// run of bytes that meet the condition, which may be empty.
#[verifier::external_body]
pub(crate) fn run_len(src: &[u8], pos: usize, class: ByteClass) -> (n: usize)
    requires
        pos <= src@.len(),
    ensures
        n == run(src@, pos as int, class),
{
    let r: IResult<&[u8], &[u8]> = take_while(|b: u8| class.contains(b))(&src[pos..]);
    match r {
        Ok((_, taken)) => taken.len(),
        Err(_) => 0,
    }
}

} // verus!
