use vstd::prelude::*;

verus! {

/// A document's ordinal position inside one segment, assigned in increasing
/// order. Not unique across segments.
pub type DocId = u32;

/// A relevance value in fixed-point form: a `Score` of `s` stands for the real
/// number `s / SCORE_SCALE`. No ordering invariant is imposed beyond "larger is
/// more relevant"; zero is legal where a scoring function defines it.
pub type Score = u64;

/// The fixed-point scale of `Score` values and of the tunable scoring
/// constants: one unit is `1 / 1024`.
pub const SCORE_SCALE: u64 = 1024;

/// Outcome of an attempted advance-to-or-past a target document. Exactly three
/// outcomes; no partial or error state.
#[derive(Clone, Copy, Debug, PartialEq, Eq, Structural)]
pub enum SkipResult {
    /// The cursor now stands exactly on the target.
    Reached,
    /// The cursor landed strictly past the target: the target itself is absent
    /// but a later match exists.
    OverStep,
    /// No document at or past the target exists; the cursor is exhausted.
    End,
}

/// Postings detail levels, ordered: each level carries all the information of
/// the levels before it.
#[derive(Clone, Copy, Debug, PartialEq, Eq, PartialOrd, Ord, Structural)]
pub enum IndexRecordOption {
    /// Document existence only.
    Basic,
    /// Documents and term frequencies.
    WithFreqs,
    /// Documents, term frequencies and positions.
    WithFreqsAndPositions,
}

impl IndexRecordOption {
    /// Whether this level materializes term frequencies.
    pub open spec fn spec_has_freq(self) -> bool {
        match self {
            IndexRecordOption::Basic => false,
            IndexRecordOption::WithFreqs => true,
            IndexRecordOption::WithFreqsAndPositions => true,
        }
    }

    /// Whether this level materializes term frequencies.
    pub fn has_freq(self) -> (r: bool)
        ensures
            r == self.spec_has_freq(),
    {
        match self {
            IndexRecordOption::Basic => false,
            IndexRecordOption::WithFreqs => true,
            IndexRecordOption::WithFreqsAndPositions => true,
        }
    }
}

/// The recoverable error conditions of the query pipeline. Steady-state
/// iteration never fails: a scorer, once constructed, is infallible.
#[derive(Clone, Copy, Debug, PartialEq, Eq, Structural)]
pub enum QueryError {
    /// The query names a field the searcher's schema does not have.
    FieldDoesNotExist { field: u32 },
    /// An explanation was requested for a document the query does not match.
    DoesNotMatch { doc: DocId },
}

} // verus!
