use vstd::prelude::*;

verus! {

/// A contiguous region of the source buffer: `len` bytes starting at byte
/// `offset`.
#[derive(Clone, Copy, Debug, PartialEq, Eq, Structural)]
pub struct Span {
    pub offset: usize,
    pub len: usize,
}

impl Span {
    /// The offset of the first byte after the region.
    pub open spec fn end(self) -> int {
        self.offset + self.len
    }

    /// The bytes of `src` that the region covers.
    pub open spec fn text(self, src: Seq<u8>) -> Seq<u8> {
        src.subrange(self.offset as int, self.end())
    }

    /// The region from the start of `self` to the end of `last`.
    pub open spec fn spec_union(self, last: Span) -> Span {
        Span { offset: self.offset, len: (last.end() - self.offset) as usize }
    }

    /// The region of `len` bytes at `offset`.
    pub fn new(offset: usize, len: usize) -> (s: Span)
        ensures
            s == (Span { offset, len }),
    {
        Span { offset, len }
    }

    /// The span of a composite node from the spans of its first and last
    /// child.
    pub fn union(self, last: Span) -> (s: Span)
        requires
            self.offset <= last.end() <= usize::MAX,
        ensures
            s == self.spec_union(last),
            s.offset == self.offset,
            s.end() == last.end(),
    {
        Span { offset: self.offset, len: last.offset + last.len - self.offset }
    }
}

/// The span that covers an ordered list of child spans: from the start of
/// the first to the end of the last. `None` for a node without children.
pub fn span_of_children(children: &Vec<Span>) -> (s: Option<Span>)
    requires
        children@.len() > 0 ==> children@[0].offset <= children@.last().end() <= usize::MAX,
    ensures
        children@.len() == 0 ==> s is None,
        children@.len() > 0 ==> s == Some(children@[0].spec_union(children@.last())),
{
    if children.len() == 0 {
        None
    } else {
        Some(children[0].union(children[children.len() - 1]))
    }
}

/// The bytes of `src` that `span` covers.
pub fn text_of_span<'a>(src: &'a [u8], span: Span) -> (text: &'a [u8])
    requires
        span.end() <= src@.len(),
    ensures
        text@ == span.text(src@),
{
    let _ = src.len();
    vstd::slice::slice_subrange(src, span.offset, span.offset + span.len)
}

/// A place in the source, for a reader: both numbers count from zero.
#[derive(Clone, Copy, Debug, PartialEq, Eq, Structural)]
pub struct Position {
    pub line: usize,
    pub column: usize,
}

/// The number of line feeds among the first `offset` bytes of `src`.
pub open spec fn line_feeds(src: Seq<u8>, offset: int) -> nat
    decreases offset,
{
    if offset <= 0 {
        0
    } else if src[offset - 1] == 10u8 {
        line_feeds(src, offset - 1) + 1
    } else {
        line_feeds(src, offset - 1)
    }
}

/// The offset at which the line that holds `offset` begins: just after the
/// last line feed before `offset`, or 0.
pub open spec fn line_start(src: Seq<u8>, offset: int) -> int
    decreases offset,
{
    if offset <= 0 {
        0
    } else if src[offset - 1] == 10u8 {
        offset
    } else {
        line_start(src, offset - 1)
    }
}

/// Line and column of a byte offset.
pub open spec fn spec_position_of(src: Seq<u8>, offset: int) -> Position {
    Position {
        line: line_feeds(src, offset) as usize,
        column: (offset - line_start(src, offset)) as usize,
    }
}

/// Line and column of `offset` in `src`, by one pass over the bytes before
/// it.
pub fn position_of(src: &[u8], offset: usize) -> (p: Position)
    requires
        offset <= src@.len(),
    ensures
        p == spec_position_of(src@, offset as int),
        p.line == line_feeds(src@, offset as int),
        p.column == offset - line_start(src@, offset as int),
        p.line <= offset,
        p.column <= offset,
{
    let mut line: usize = 0;
    let mut start: usize = 0;
    let mut i: usize = 0;
    while i < offset
        invariant
            i <= offset <= src@.len(),
            line == line_feeds(src@, i as int),
            start == line_start(src@, i as int),
            line <= i,
            start <= i,
        decreases offset - i,
    {
        if src[i] == 10u8 {
            line = line + 1;
            start = i + 1;
        }
        i = i + 1;
    }
    Position { line, column: offset - start }
}

} // verus!
