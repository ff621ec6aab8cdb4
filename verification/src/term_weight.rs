use vstd::prelude::*;
use crate::explanation::Explanation;
use crate::postings::{
    docs_for, find_entry, freqs_for, lemma_seek_finds_contained, seek_from, SegmentPostings,
    TermPostings,
};
use crate::scoringfunction::{AnyScoringFunction, ScoringFunction, ScoringFunctionClone};
use crate::searcher::lemma_find_entry_is_entry;
use crate::segment::{live_count, SegmentReader};
use crate::term::Term;
use crate::term_scorer::TermScorer;
use crate::types::{DocId, IndexRecordOption, QueryError, SkipResult};

verus! {

/// The postings entries of `term`'s field in one segment.
pub open spec fn spec_entries(reader: SegmentReader, term: Term) -> Seq<TermPostings> {
    reader.spec_fields()[term.field as int].inverted_index.entries@
}

/// The documents `term` matches in one segment. Which documents match
/// depends on the term alone: neither the postings detail level nor the
/// enabled flag of the scoring settings enters.
pub open spec fn spec_matched_docs(reader: SegmentReader, term: Term) -> Seq<DocId> {
    docs_for(spec_entries(reader, term), term)
}

/// The term frequencies a scorer of `term` reads in one segment under detail
/// level `option`.
pub open spec fn spec_matched_freqs(
    reader: SegmentReader,
    term: Term,
    option: IndexRecordOption,
) -> Seq<u32> {
    freqs_for(spec_entries(reader, term), term, option)
}

/// Binds one term to one scoring instance for the span of one query
/// execution. Logically immutable: each of its operations opens fresh
/// postings and a fresh scorer, so concurrent callers share no iteration
/// state.
#[derive(Clone, Copy, Debug)]
pub struct TermWeight {
    /// The term the bound query matches.
    pub term: Term,
    /// The postings detail level its scorers open.
    pub index_record_option: IndexRecordOption,
    /// The scoring instance, cheaply copied into every scorer.
    pub similarity_weight: AnyScoringFunction,
}

impl TermWeight {
    /// The bound scoring instance is in range.
    pub open spec fn wf(self) -> bool {
        self.similarity_weight.wf()
    }

    /// What a scorer of this weight over `reader` is: a fresh, unstarted,
    /// well-formed cursor over exactly the matched documents, their
    /// frequencies at this weight's detail level, the field's length codes,
    /// and this weight's scoring instance. This pins the scorer fully, so
    /// deriving it twice, or from a clone of the weight, yields
    /// interchangeable scorers.
    pub open spec fn spec_is_scorer_of(self, reader: SegmentReader, s: TermScorer) -> bool {
        &&& s.wf()
        &&& !s.spec_started()
        &&& s.spec_docs() == spec_matched_docs(reader, self.term)
        &&& s.spec_freqs() == spec_matched_freqs(reader, self.term, self.index_record_option)
        &&& s.spec_norms() == reader.spec_fields()[self.term.field as int].fieldnorms.spec_norms()
        &&& s.spec_similarity() == self.similarity_weight
    }

    /// The score this weight gives the matched document `doc` in `reader`'s
    /// segment: the scoring instance applied to `doc`'s field-length code and
    /// its term frequency.
    pub open spec fn spec_score_of(self, reader: SegmentReader, doc: DocId) -> int {
        let docs = spec_matched_docs(reader, self.term);
        let freqs = spec_matched_freqs(reader, self.term, self.index_record_option);
        let i = seek_from(docs, 0, doc);
        self.similarity_weight.spec_score(
            reader.spec_fields()[self.term.field as int].fieldnorms.spec_norms()[doc as int],
            freqs[i],
        )
    }

    /// Binds `term` to a scoring instance at the given detail level.
    pub fn new(
        term: Term,
        index_record_option: IndexRecordOption,
        similarity_weight: AnyScoringFunction,
    ) -> (r: TermWeight)
        ensures
            r == (TermWeight { term, index_record_option, similarity_weight }),
    {
        TermWeight { term, index_record_option, similarity_weight }
    }

    /// Opens the term's postings in `reader`'s segment and wraps them in a
    /// fresh concrete scorer. A term absent from the segment is a normal
    /// outcome: it yields an immediately exhausted scorer, never an error.
    pub fn scorer_specialized(&self, reader: &SegmentReader) -> (r: Result<TermScorer, QueryError>)
        requires
            self.wf(),
            reader.wf(),
            self.term.field < reader.spec_fields().len(),
        ensures
            r is Ok,
            self.spec_is_scorer_of(*reader, r.unwrap()),
    {
        let field = self.term.field;
        let inverted_index = reader.inverted_index(field);
        let fieldnorm_reader = reader.get_fieldnorms_reader(field);
        let similarity_weight = self.similarity_weight.clone_box();
        proof {
            assert(reader.spec_fields()[field as int].wf(reader.spec_max_doc()));
        }
        let postings_opt: Option<SegmentPostings> = inverted_index.read_postings(
            &self.term,
            self.index_record_option,
        );
        match postings_opt {
            Some(segment_postings) => {
                proof {
                    let entries = spec_entries(*reader, self.term);
                    lemma_find_entry_is_entry(entries, self.term);
                    let tp = find_entry(entries, self.term).unwrap();
                    let k = choose|k: int| 0 <= k < entries.len() && entries[k] == tp;
                    assert forall|i: int|
                        0 <= i < segment_postings.spec_docs().len() implies (
                    #[trigger] segment_postings.spec_docs()[i])
                        < fieldnorm_reader.spec_norms().len() by {
                        assert(entries[k].docs@[i] < reader.spec_max_doc());
                    }
                }
                Ok(
                    TermScorer::new(
                        segment_postings,
                        fieldnorm_reader.duplicate(),
                        similarity_weight,
                    ),
                )
            },
            None => {
                let sp = SegmentPostings::empty();
                proof {
                    assert(sp.spec_docs() =~= spec_matched_docs(*reader, self.term));
                    assert(sp.spec_freqs() =~= spec_matched_freqs(
                        *reader,
                        self.term,
                        self.index_record_option,
                    ));
                }
                Ok(TermScorer::new(sp, fieldnorm_reader.duplicate(), similarity_weight))
            },
        }
    }

    /// Opens a fresh scorer for `reader`'s segment, as the abstract entry
    /// point of the iteration contract.
    pub fn scorer(&self, reader: &SegmentReader) -> (r: Result<TermScorer, QueryError>)
        requires
            self.wf(),
            reader.wf(),
            self.term.field < reader.spec_fields().len(),
        ensures
            r is Ok,
            self.spec_is_scorer_of(*reader, r.unwrap()),
    {
        self.scorer_specialized(reader)
    }

    /// Explains the score of `doc`: opens a fresh scorer and skips to exactly
    /// `doc`. Succeeds if and only if the query matches `doc` in this
    /// segment; any other document yields the distinct does-not-match error.
    /// The explained value equals the score the scorer gives `doc`.
    pub fn explain(&self, reader: &SegmentReader, doc: DocId) -> (r: Result<Explanation, QueryError>)
        requires
            self.wf(),
            reader.wf(),
            self.term.field < reader.spec_fields().len(),
        ensures
            r is Ok <==> spec_matched_docs(*reader, self.term).contains(doc),
            r is Ok ==> r.unwrap().value as int == self.spec_score_of(*reader, doc),
            r is Err ==> r == Err::<Explanation, QueryError>(QueryError::DoesNotMatch { doc }),
    {
        let mut scorer = match self.scorer_specialized(reader) {
            Ok(s) => s,
            Err(e) => {
                return Err(e);
            },
        };
        let skip = scorer.skip_next(doc);
        proof {
            scorer.lemma_wf_facts();
            let docs = spec_matched_docs(*reader, self.term);
            lemma_seek_finds_contained(docs, 0, doc);
            if scorer.spec_positioned() && docs[scorer.spec_cursor()] == doc {
                assert(docs.contains(doc));
            }
        }
        if skip != SkipResult::Reached {
            return Err(QueryError::DoesNotMatch { doc });
        }
        Ok(scorer.explain())
    }

    /// Counts the documents the query matches in `reader`'s segment. With a
    /// deletion record it iterates a fresh scorer and counts only live
    /// documents; without one it reads the stored document frequency, zero
    /// for an absent term. It never fails, and the two paths agree whenever
    /// the record marks nothing deleted.
    pub fn count(&self, reader: &SegmentReader) -> (r: Result<u32, QueryError>)
        requires
            self.wf(),
            reader.wf(),
            self.term.field < reader.spec_fields().len(),
        ensures
            r is Ok,
            r.unwrap() as int == match reader.spec_deletes() {
                Some(d) => live_count(spec_matched_docs(*reader, self.term), d),
                None => spec_matched_docs(*reader, self.term).len() as int,
            },
    {
        match reader.delete_bitset() {
            Some(delete_bitset) => {
                let mut scorer = match self.scorer(reader) {
                    Ok(s) => s,
                    Err(e) => {
                        return Err(e);
                    },
                };
                proof {
                    scorer.lemma_wf_facts();
                    assert(scorer.spec_remaining() =~= spec_matched_docs(*reader, self.term));
                }
                Ok(scorer.count(delete_bitset))
            },
            None => {
                let field = self.term.field;
                proof {
                    assert(reader.spec_fields()[field as int].wf(reader.spec_max_doc()));
                    let entries = spec_entries(*reader, self.term);
                    if find_entry(entries, self.term) is Some {
                        lemma_find_entry_is_entry(entries, self.term);
                        let tp = find_entry(entries, self.term).unwrap();
                        let k = choose|k: int| 0 <= k < entries.len() && entries[k] == tp;
                        assert(entries[k].wf());
                    }
                }
                match reader.inverted_index(field).get_term_info(&self.term) {
                    Some(term_info) => Ok(term_info.doc_freq),
                    None => Ok(0),
                }
            },
        }
    }
}

} // verus!
