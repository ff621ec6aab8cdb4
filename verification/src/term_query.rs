use vstd::prelude::*;
use crate::bm25::BM25Params;
use crate::scoringfunction::{spec_function_for_terms, ScoringFunctionKind, ScoringSettings};
use crate::searcher::Searcher;
use crate::segment::SegmentReader;
use crate::term::{Term, TermSet};
use crate::term_weight::{spec_matched_docs, TermWeight};
use crate::types::{IndexRecordOption, QueryError};

verus! {

/// The scoring settings a query falls back to when the caller supplies none:
/// BM25 with default parameters, enabled.
pub open spec fn spec_default_settings() -> ScoringSettings {
    ScoringSettings {
        enabled: true,
        function: ScoringFunctionKind::Bm25(BM25Params::spec_default()),
    }
}

/// A query matching every document that contains one specific term: a plain,
/// immutable, cloneable value of the term and the postings detail level to
/// ask the index for.
#[derive(Clone, Copy, Debug, PartialEq, Eq, Structural)]
pub struct TermQuery {
    /// The term to match.
    pub term: Term,
    /// The postings detail level to request; downgraded to the minimal level
    /// when scoring is disabled, since no frequency is then read.
    pub index_record_option: IndexRecordOption,
}

impl TermQuery {
    /// Creates a new term query.
    pub fn new(term: Term, segment_postings_options: IndexRecordOption) -> (r: TermQuery)
        ensures
            r == (TermQuery { term, index_record_option: segment_postings_options }),
    {
        TermQuery { term, index_record_option: segment_postings_options }
    }

    /// The `Term` this query is built out of.
    pub fn term(&self) -> (r: &Term)
        ensures
            *r == self.term,
    {
        &self.term
    }

    /// Builds the concrete weight directly, skipping the abstract entry
    /// point's indirection. Missing settings default to BM25, enabled; with
    /// scoring disabled the requested detail level is downgraded to the
    /// minimal one, whatever the caller asked for, and which documents match
    /// is unchanged.
    pub fn specialized_weight(&self, searcher: &Searcher, scoring: Option<ScoringSettings>) -> (r:
        TermWeight)
        requires
            searcher.wf(),
            self.term.field < searcher.spec_num_fields(),
            match scoring {
                Some(s) => s.wf(),
                None => true,
            },
        ensures
            r.wf(),
            r.term == self.term,
            ({
                let st = match scoring {
                    Some(s) => s,
                    None => spec_default_settings(),
                };
                &&& r.index_record_option == (if st.enabled {
                    self.index_record_option
                } else {
                    IndexRecordOption::Basic
                })
                &&& r.similarity_weight == spec_function_for_terms(
                    st.function,
                    searcher.spec_segments(),
                    seq![self.term],
                )
            }),
    {
        let term = self.term.clone();
        let scoring = match scoring {
            Some(s) => s,
            None => ScoringSettings::bm25(),
        };
        let terms = vec![term];
        proof {
            assert(terms@ =~= seq![self.term]);
        }
        let similarity_weight = scoring.scoring_function_for_terms(searcher, &terms);
        let index_record_option = if scoring.enabled {
            self.index_record_option
        } else {
            IndexRecordOption::Basic
        };
        TermWeight::new(self.term.clone(), index_record_option, similarity_weight)
    }

    /// The abstract entry point: returns a weight, or a descriptive error
    /// when the query's field does not exist in the searcher's schema —
    /// exactly then, and it never panics. On success the weight is the one
    /// `specialized_weight` builds.
    pub fn weight(&self, searcher: &Searcher, scoring: Option<ScoringSettings>) -> (r: Result<
        TermWeight,
        QueryError,
    >)
        requires
            searcher.wf(),
            match scoring {
                Some(s) => s.wf(),
                None => true,
            },
        ensures
            r is Ok <==> self.term.field < searcher.spec_num_fields(),
            r is Ok ==> {
                let w = r.unwrap();
                let st = match scoring {
                    Some(s) => s,
                    None => spec_default_settings(),
                };
                &&& w.wf()
                &&& w.term == self.term
                &&& w.index_record_option == (if st.enabled {
                    self.index_record_option
                } else {
                    IndexRecordOption::Basic
                })
                &&& w.similarity_weight == spec_function_for_terms(
                    st.function,
                    searcher.spec_segments(),
                    seq![self.term],
                )
            },
            r is Err ==> r == Err::<TermWeight, QueryError>(
                QueryError::FieldDoesNotExist { field: self.term.field },
            ),
    {
        if self.term.field < searcher.num_fields() {
            Ok(self.specialized_weight(searcher, scoring))
        } else {
            Err(QueryError::FieldDoesNotExist { field: self.term.field })
        }
    }

    /// Contributes every term this query directly matches into the caller's
    /// set: exactly its one term.
    pub fn query_terms(&self, term_set: &mut TermSet)
        requires
            old(term_set).wf(),
        ensures
            final(term_set).wf(),
            forall|x: Term|
                final(term_set).spec_contains(x) <==> old(term_set).spec_contains(x) || x
                    == self.term,
    {
        term_set.insert(self.term);
    }
}

/// Disabling scoring never changes which documents match: the matched
/// documents of a weight depend on its term alone, never on its detail level
/// or on the settings that built its scoring instance, which only govern the
/// frequencies read and the scores computed.
pub proof fn lemma_matching_independent_of_scoring(
    w1: TermWeight,
    w2: TermWeight,
    reader: SegmentReader,
)
    requires
        w1.term == w2.term,
    ensures
        spec_matched_docs(reader, w1.term) == spec_matched_docs(reader, w2.term),
{
}

} // verus!
