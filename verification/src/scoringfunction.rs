use vstd::prelude::*;
use crate::bm25::{spec_avg_len_fp, spec_idf_total, BM25Params, BM25Weight};
use crate::searcher::Searcher;
use crate::segment::SegmentReader;
use crate::explanation::Explanation;
use crate::term::Term;
use crate::types::Score;

verus! {

/// Polymorphic scoring capability: a pure, deterministic computation of a
/// relevance score, and of its labeled breakdown, from the two per-posting
/// statistics and the instance's closed-over collection statistics.
///
/// Score and explanation are bound to one specification function, so no
/// implementation can let the two diverge: for every implementation and every
/// input pair, the explained value equals the score.
pub trait ScoringFunction: Sized {
    /// The instance's statistics are in the ranges scoring is proved for.
    spec fn wf(&self) -> bool;

    /// What `score` returns: a function of the two inputs and the instance
    /// alone.
    spec fn spec_score(&self, fieldnorm_id: u8, term_freq: u32) -> int;

    /// Scores a document from its field-length code and its term frequency.
    fn score(&self, fieldnorm_id: u8, term_freq: u32) -> (s: Score)
        requires
            self.wf(),
        ensures
            s as int == self.spec_score(fieldnorm_id, term_freq),
    ;

    /// Returns the labeled breakdown of the same computation; its value never
    /// diverges from `score`.
    fn explain(&self, fieldnorm_id: u8, term_freq: u32) -> (e: Explanation)
        requires
            self.wf(),
        ensures
            e.value as int == self.spec_score(fieldnorm_id, term_freq),
    ;
}

/// Duplication of a scoring instance without recomputation: one
/// statistics-derived instance is handed to many per-segment scorers.
pub trait ScoringFunctionClone: Sized {
    /// Duplicates the instance; the copy is indistinguishable from the
    /// original.
    fn clone_box(&self) -> (r: Self)
        ensures
            r == *self,
    ;
}

impl<T: ScoringFunction + Copy> ScoringFunctionClone for T {
    /// Any cheaply copyable scoring function duplicates by a plain copy.
    fn clone_box(&self) -> (r: T) {
        *self
    }
}

/// Marker for the parameter bundle of a scoring algorithm.
pub trait ScoringParams {

}

impl ScoringParams for BM25Params {

}

/// The closed set of scoring algorithms a query can select, each carrying its
/// parameters.
#[derive(Clone, Copy, Debug)]
pub enum ScoringFunctionKind {
    /// BM25 with its tunable constants.
    Bm25(BM25Params),
}

impl ScoringFunctionKind {
    /// The held parameters are in range.
    pub open spec fn wf(self) -> bool {
        match self {
            ScoringFunctionKind::Bm25(p) => p.wf(),
        }
    }
}

/// A scoring instance constructed for one query execution, tagged by the
/// algorithm that produced it.
#[derive(Clone, Copy, Debug)]
pub enum AnyScoringFunction {
    /// A BM25 instance.
    Bm25(BM25Weight),
}

impl ScoringFunction for AnyScoringFunction {
    open spec fn wf(&self) -> bool {
        match *self {
            AnyScoringFunction::Bm25(w) => w.wf(),
        }
    }

    open spec fn spec_score(&self, fieldnorm_id: u8, term_freq: u32) -> int {
        match *self {
            AnyScoringFunction::Bm25(w) => w.spec_score(fieldnorm_id, term_freq),
        }
    }

    fn score(&self, fieldnorm_id: u8, term_freq: u32) -> (s: Score) {
        match self {
            AnyScoringFunction::Bm25(w) => w.score(fieldnorm_id, term_freq),
        }
    }

    fn explain(&self, fieldnorm_id: u8, term_freq: u32) -> (e: Explanation) {
        match self {
            AnyScoringFunction::Bm25(w) => w.explain(fieldnorm_id, term_freq),
        }
    }
}

/// Configuration bundle for one search: which scoring algorithm to construct,
/// with which parameters, and whether scoring is enabled at all. With scoring
/// disabled the pipeline still matches and counts documents, but reads no
/// frequency data.
#[derive(Clone, Copy, Debug)]
pub struct ScoringSettings {
    /// Whether frequency-derived ranking is computed.
    pub enabled: bool,
    /// The selected algorithm and its parameters.
    pub function: ScoringFunctionKind,
}

impl ScoringSettings {
    /// The selected parameters are in range.
    pub open spec fn wf(self) -> bool {
        self.function.wf()
    }

    /// BM25 scoring with default parameters, enabled.
    pub fn bm25() -> (r: ScoringSettings)
        ensures
            r == (ScoringSettings {
                enabled: true,
                function: ScoringFunctionKind::Bm25(BM25Params::spec_default()),
            }),
            r.wf(),
    {
        ScoringSettings { enabled: true, function: ScoringFunctionKind::Bm25(BM25Params::default()) }
    }
}

/// What the selected constructor builds for `terms` over a collection: with
/// BM25, the instance holding the terms' summed inverse document frequency,
/// their field's average length, and the selected parameters.
pub open spec fn spec_function_for_terms(
    kind: ScoringFunctionKind,
    segs: Seq<SegmentReader>,
    terms: Seq<Term>,
) -> AnyScoringFunction {
    match kind {
        ScoringFunctionKind::Bm25(p) => AnyScoringFunction::Bm25(
            BM25Weight {
                idf_fp: spec_idf_total(segs, terms) as u64,
                avg_len_fp: spec_avg_len_fp(segs, terms[0].field) as u64,
                params: p,
            },
        ),
    }
}

impl ScoringSettings {
    /// Constructs the selected scoring function for `terms` from the
    /// collection-wide statistics; one instance backs all segments of one
    /// search. All terms must name one field.
    pub fn scoring_function_for_terms(&self, searcher: &Searcher, terms: &Vec<Term>) -> (r:
        AnyScoringFunction)
        requires
            self.wf(),
            searcher.wf(),
            1 <= terms@.len() <= 0x1_0000_0000,
            forall|i: int| 0 <= i < terms@.len() ==> (#[trigger] terms@[i]).field == terms@[0].field,
            terms@[0].field < searcher.spec_num_fields(),
        ensures
            r.wf(),
            r == spec_function_for_terms(self.function, searcher.spec_segments(), terms@),
    {
        match self.function {
            ScoringFunctionKind::Bm25(params) => AnyScoringFunction::Bm25(
                BM25Weight::for_terms(searcher, terms, params),
            ),
        }
    }
}

impl Default for ScoringSettings {
    /// Defaults to BM25 with default parameters and scoring enabled.
    fn default() -> (r: Self)
        ensures
            r == (ScoringSettings {
                enabled: true,
                function: ScoringFunctionKind::Bm25(BM25Params::spec_default()),
            }),
            r.wf(),
    {
        ScoringSettings::bm25()
    }
}

} // verus!
