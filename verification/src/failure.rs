//! What a rule reports when it does not match.
use vstd::prelude::*;

verus! {

/// What was looked for at the point of failure.
#[derive(Clone, Copy, Debug, PartialEq, Eq)]
pub enum FailureKind {
    /// A reserved word was expected.
    Keyword(&'static str),
    /// A piece of punctuation or an operator was expected.
    Symbol(&'static str),
    /// An identifier was expected.
    Identifier,
    /// An unsigned number was expected.
    Number,
    /// A string literal was expected.
    StringLiteral,
    /// The name of a system task or function was expected.
    SystemIdentifier,
    /// An operator was expected.
    Operator,
    /// The end of the input was expected: the unit goes on after what the
    /// rule matched.
    EndOfInput,
    /// A construct that needs at least one item has none.
    MissingItem,
    /// The input nests deeper than the depth that the caller allowed.
    TooDeep,
}

/// A failed attempt to apply a rule.
///
/// A failure that is not committed says that the rule does not apply at this
/// point, and lets the caller try another alternative. A committed failure
/// arose after the input had already shown which construct is meant: it is a
/// syntax error of the input, and no alternative is tried after it.
#[derive(Clone, Copy, Debug, PartialEq, Eq)]
pub struct Failure {
    pub kind: FailureKind,
    /// The byte offset at which the expected thing was missing.
    pub offset: usize,
    pub committed: bool,
}

impl Failure {
    /// The same failure, committed.
    pub open spec fn committed(self) -> Failure {
        Failure { kind: self.kind, offset: self.offset, committed: true }
    }

    /// Of two failed alternatives, the one that got further into the input; the
    /// earlier alternative where both stopped at the same offset.
    pub open spec fn deeper(self, other: Failure) -> Failure {
        if other.offset > self.offset {
            other
        } else {
            self
        }
    }

    /// A failure of the given kind at `offset` that leaves alternatives open.
    pub open spec fn mismatch(kind: FailureKind, offset: int) -> Failure {
        Failure { kind, offset: offset as usize, committed: false }
    }

    /// The committed failure of a construct that has no item at `offset`.
    pub open spec fn missing_item(offset: int) -> Failure {
        Failure { kind: FailureKind::MissingItem, offset: offset as usize, committed: true }
    }

    /// The committed failure of input that nests too deep at `offset`.
    pub open spec fn too_deep(offset: int) -> Failure {
        Failure { kind: FailureKind::TooDeep, offset: offset as usize, committed: true }
    }

    /// A failure of the given kind at `offset` that leaves alternatives open.
    pub fn new(kind: FailureKind, offset: usize) -> (f: Failure)
        ensures
            f == Failure::mismatch(kind, offset as int),
    {
        Failure { kind, offset, committed: false }
    }

    /// The same failure, committed.
    pub fn commit(self) -> (f: Failure)
        ensures
            f == self.committed(),
    {
        Failure { kind: self.kind, offset: self.offset, committed: true }
    }

    /// Of two failed alternatives, the one that got further; the earlier one where both
    /// got equally far.
    pub fn or_deeper(self, other: Failure) -> (f: Failure)
        ensures
            f == self.deeper(other),
    {
        if other.offset > self.offset {
            other
        } else {
            self
        }
    }

    /// The committed failure of a construct that has no item at `offset`.
    pub fn no_item(offset: usize) -> (f: Failure)
        ensures
            f == Failure::missing_item(offset as int),
    {
        Failure { kind: FailureKind::MissingItem, offset, committed: true }
    }

    /// The committed failure of input that nests too deep at `offset`.
    pub fn nesting(offset: usize) -> (f: Failure)
        ensures
            f == Failure::too_deep(offset as int),
    {
        Failure { kind: FailureKind::TooDeep, offset, committed: true }
    }
}

} // verus!
