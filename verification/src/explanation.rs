use vstd::prelude::*;
use crate::types::Score;

verus! {

/// What the value of one node of an [`Explanation`] stands for.
#[derive(Clone, Copy, Debug, PartialEq, Eq, Structural)]
pub enum ExplanationLabel {
    /// A document's relevance score for one term: the product, over the
    /// fixed-point scale, of the inverse-document-frequency factor and the
    /// term-frequency normalization factor.
    TermScore,
    /// The inverse-document-frequency factor, in fixed point.
    Idf,
    /// The term-frequency and field-length normalization factor, in fixed
    /// point.
    TfNorm,
}

/// A tree-shaped, inspectable breakdown of how a score was derived: a labeled
/// value with zero or more labeled sub-explanations combining to the parent
/// value. Constructed fresh per call; never cached.
#[derive(Debug)]
pub struct Explanation {
    /// The value this node explains.
    pub value: Score,
    /// What the value stands for.
    pub label: ExplanationLabel,
    /// Labeled constituents of `value`.
    pub details: Vec<Explanation>,
}

impl Explanation {
    /// A leaf explanation.
    pub fn new(label: ExplanationLabel, value: Score) -> (r: Explanation)
        ensures
            r.value == value,
            r.label == label,
            r.details@.len() == 0,
    {
        Explanation { value, label, details: Vec::new() }
    }

    /// Appends one labeled constituent.
    pub fn add_detail(&mut self, detail: Explanation)
        ensures
            final(self).value == old(self).value,
            final(self).label == old(self).label,
            final(self).details@ == old(self).details@.push(detail),
    {
        self.details.push(detail);
    }

    /// The value this node explains.
    pub fn value(&self) -> (r: Score)
        ensures
            r == self.value,
    {
        self.value
    }
}

} // verus!
