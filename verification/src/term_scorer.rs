use vstd::prelude::*;
use crate::explanation::Explanation;
use crate::postings::{seek_from, SegmentPostings};
use crate::scoringfunction::{AnyScoringFunction, ScoringFunction};
use crate::segment::{lemma_live_count_bounds, live_count, DeleteBitset, FieldNormReader};
use crate::types::{DocId, Score, SkipResult};

verus! {

/// A stateful, single-pass, forward-only iterator over the documents matching
/// one term in one segment, in strictly increasing order. At any position it
/// yields the document, its score and its explanation, and it can count the
/// live remainder under a deletion record. It owns its postings cursor, a
/// reader of its field's length codes, and a copy of the scoring instance.
#[derive(Debug)]
pub struct TermScorer {
    postings: SegmentPostings,
    fieldnorm_reader: FieldNormReader,
    similarity_weight: AnyScoringFunction,
}

impl TermScorer {
    /// The documents this scorer walks.
    pub closed spec fn spec_docs(self) -> Seq<DocId> {
        self.postings.spec_docs()
    }

    /// The term frequency paired with each document.
    pub closed spec fn spec_freqs(self) -> Seq<u32> {
        self.postings.spec_freqs()
    }

    /// The field-length codes of the scorer's segment, by document.
    pub closed spec fn spec_norms(self) -> Seq<u8> {
        self.fieldnorm_reader.spec_norms()
    }

    /// The scoring instance the scorer holds.
    pub closed spec fn spec_similarity(self) -> AnyScoringFunction {
        self.similarity_weight
    }

    /// The current index into the documents; meaningful once started.
    pub closed spec fn spec_cursor(self) -> int {
        self.postings.spec_cursor()
    }

    /// Whether the scorer has moved onto its first document yet.
    pub closed spec fn spec_started(self) -> bool {
        self.postings.spec_started()
    }

    /// The scorer stands on a document.
    pub open spec fn spec_positioned(self) -> bool {
        self.spec_started() && self.spec_cursor() < self.spec_docs().len()
    }

    /// The scorer has moved past its last document; this state is terminal.
    pub open spec fn spec_exhausted(self) -> bool {
        self.spec_started() && self.spec_cursor() >= self.spec_docs().len()
    }

    /// The cursor is well-formed, the scoring instance is in range, and every
    /// matched document has a field-length code.
    pub closed spec fn wf(self) -> bool {
        &&& self.postings.wf()
        &&& self.similarity_weight.wf()
        &&& forall|i: int|
            0 <= i < self.spec_docs().len() ==> (#[trigger] self.spec_docs()[i])
                < self.spec_norms().len()
    }

    /// The score of the document at position `i`: the scoring instance
    /// applied to that document's field-length code and term frequency.
    pub open spec fn spec_score_at(self, i: int) -> int {
        self.spec_similarity().spec_score(
            self.spec_norms()[self.spec_docs()[i] as int],
            self.spec_freqs()[i],
        )
    }

    /// The whole (document, score) sequence a scorer yields when driven from
    /// the start to exhaustion.
    pub open spec fn spec_trace(self) -> Seq<(DocId, int)> {
        Seq::new(self.spec_docs().len(), |i: int| (self.spec_docs()[i], self.spec_score_at(i)))
    }

    /// The documents a run of advances still visits: all of them before the
    /// first advance, those strictly after the cursor once started.
    pub open spec fn spec_remaining(self) -> Seq<DocId> {
        let len = self.spec_docs().len() as int;
        let start = if !self.spec_started() {
            0int
        } else if self.spec_cursor() + 1 <= len {
            self.spec_cursor() + 1
        } else {
            len
        };
        self.spec_docs().subrange(start, len)
    }

    /// The bounds well-formedness puts on the cursor and the lists, for
    /// callers outside this module.
    pub proof fn lemma_wf_facts(self)
        requires
            self.wf(),
        ensures
            0 <= self.spec_cursor() <= self.spec_docs().len(),
            self.spec_docs().len() == self.spec_freqs().len(),
            self.spec_docs().len() <= 0xFFFF_FFFF,
            !self.spec_started() ==> self.spec_cursor() == 0,
            self.spec_similarity().wf(),
            forall|i: int, j: int|
                0 <= i < j < self.spec_docs().len() ==> self.spec_docs()[i] < self.spec_docs()[j],
            forall|i: int|
                0 <= i < self.spec_docs().len() ==> (#[trigger] self.spec_docs()[i])
                    < self.spec_norms().len(),
            forall|i: int|
                0 <= i < self.spec_freqs().len() ==> (#[trigger] self.spec_freqs()[i]) >= 1,
    {
        self.postings.lemma_wf_facts();
    }

    /// Wraps an opened postings cursor with its segment's field-length reader
    /// and a copy of the search's scoring instance.
    pub fn new(
        postings: SegmentPostings,
        fieldnorm_reader: FieldNormReader,
        similarity_weight: AnyScoringFunction,
    ) -> (r: TermScorer)
        requires
            postings.wf(),
            similarity_weight.wf(),
            forall|i: int|
                0 <= i < postings.spec_docs().len() ==> (#[trigger] postings.spec_docs()[i])
                    < fieldnorm_reader.spec_norms().len(),
        ensures
            r.wf(),
            r.spec_docs() == postings.spec_docs(),
            r.spec_freqs() == postings.spec_freqs(),
            r.spec_norms() == fieldnorm_reader.spec_norms(),
            r.spec_similarity() == similarity_weight,
            r.spec_started() == postings.spec_started(),
            r.spec_cursor() == postings.spec_cursor(),
    {
        TermScorer { postings, fieldnorm_reader, similarity_weight }
    }

    /// Moves onto the next matching document; reports whether one exists.
    /// Once exhausted, further advances change nothing and report `false`.
    pub fn advance(&mut self) -> (has: bool)
        requires
            old(self).wf(),
        ensures
            final(self).wf(),
            final(self).spec_docs() == old(self).spec_docs(),
            final(self).spec_freqs() == old(self).spec_freqs(),
            final(self).spec_norms() == old(self).spec_norms(),
            final(self).spec_similarity() == old(self).spec_similarity(),
            final(self).spec_started(),
            final(self).spec_cursor() == if !old(self).spec_started() {
                0int
            } else if old(self).spec_cursor() < old(self).spec_docs().len() {
                old(self).spec_cursor() + 1
            } else {
                old(self).spec_cursor()
            },
            has == final(self).spec_positioned(),
    {
        self.postings.advance()
    }

    /// The document the scorer stands on.
    pub fn doc(&self) -> (d: DocId)
        requires
            self.wf(),
            self.spec_positioned(),
        ensures
            d == self.spec_docs()[self.spec_cursor()],
    {
        self.postings.doc()
    }

    /// The term's frequency in the document the scorer stands on.
    pub fn term_freq(&self) -> (f: u32)
        requires
            self.wf(),
            self.spec_positioned(),
        ensures
            f == self.spec_freqs()[self.spec_cursor()],
    {
        self.postings.term_freq()
    }

    /// Whether the scorer has moved past its last matching document.
    pub fn is_exhausted(&self) -> (r: bool)
        ensures
            r == self.spec_exhausted(),
    {
        self.postings.is_exhausted()
    }

    /// Advances to the first matching document at or past `target`, never
    /// moving backward, and reports whether it landed exactly on `target`,
    /// strictly past it, or ran out of documents. With non-decreasing
    /// targets the reported documents are non-decreasing, and once
    /// exhaustion is reported every further call reports it again and
    /// changes nothing.
    pub fn skip_next(&mut self, target: DocId) -> (r: SkipResult)
        requires
            old(self).wf(),
        ensures
            final(self).wf(),
            final(self).spec_docs() == old(self).spec_docs(),
            final(self).spec_freqs() == old(self).spec_freqs(),
            final(self).spec_norms() == old(self).spec_norms(),
            final(self).spec_similarity() == old(self).spec_similarity(),
            final(self).spec_started(),
            final(self).spec_cursor() == seek_from(
                old(self).spec_docs(),
                if old(self).spec_started() {
                    old(self).spec_cursor()
                } else {
                    0int
                },
                target,
            ),
            final(self).spec_cursor() >= old(self).spec_cursor(),
            r == (if final(self).spec_exhausted() {
                SkipResult::End
            } else if final(self).spec_docs()[final(self).spec_cursor()] == target {
                SkipResult::Reached
            } else {
                SkipResult::OverStep
            }),
            r == SkipResult::End <==> final(self).spec_exhausted(),
            old(self).spec_exhausted() ==> r == SkipResult::End && final(self).spec_cursor() == old(
                self,
            ).spec_cursor(),
    {
        let r = self.postings.skip_next(target);
        proof {
            assert forall|i: int|
                0 <= i < self.spec_docs().len() implies (#[trigger] self.spec_docs()[i])
                < self.spec_norms().len() by {
                assert(old(self).spec_docs()[i] < old(self).spec_norms().len());
            }
        }
        r
    }

    /// The current document's score: its field-length code and term
    /// frequency, handed to the scoring instance.
    pub fn score(&self) -> (s: Score)
        requires
            self.wf(),
            self.spec_positioned(),
        ensures
            s as int == self.spec_score_at(self.spec_cursor()),
    {
        let doc = self.postings.doc();
        proof {
            self.postings.lemma_wf_facts();
            assert(self.spec_docs()[self.spec_cursor()] < self.spec_norms().len());
        }
        let fieldnorm_id = self.fieldnorm_reader.fieldnorm_id(doc);
        let term_freq = self.postings.term_freq();
        self.similarity_weight.score(fieldnorm_id, term_freq)
    }

    /// The current document's explanation: the same inputs handed to the
    /// scoring instance, whose explained value equals the score.
    pub fn explain(&self) -> (e: Explanation)
        requires
            self.wf(),
            self.spec_positioned(),
        ensures
            e.value as int == self.spec_score_at(self.spec_cursor()),
    {
        let doc = self.postings.doc();
        proof {
            self.postings.lemma_wf_facts();
            assert(self.spec_docs()[self.spec_cursor()] < self.spec_norms().len());
        }
        let fieldnorm_id = self.fieldnorm_reader.fieldnorm_id(doc);
        let term_freq = self.postings.term_freq();
        self.similarity_weight.explain(fieldnorm_id, term_freq)
    }

    /// Drives the scorer to exhaustion, counting the remaining documents that
    /// `delete_bitset` does not mark deleted.
    pub fn count(&mut self, delete_bitset: &DeleteBitset) -> (c: u32)
        requires
            old(self).wf(),
        ensures
            final(self).wf(),
            final(self).spec_docs() == old(self).spec_docs(),
            final(self).spec_exhausted(),
            c as int == live_count(old(self).spec_remaining(), *delete_bitset),
            c <= old(self).spec_remaining().len(),
    {
        let ghost all = self.spec_docs();
        let ghost dels = *delete_bitset;
        let ghost start0 = old(self).spec_remaining();
        proof {
            self.postings.lemma_wf_facts();
            lemma_live_count_bounds(start0, dels);
        }
        let mut c: u32 = 0;
        let mut has = self.advance();
        proof {
            if has {
                assert(all.subrange(self.spec_cursor(), all.len() as int) =~= start0);
            } else {
                assert(start0 =~= Seq::<DocId>::empty());
            }
        }
        while has
            invariant
                self.wf(),
                self.spec_docs() == all,
                self.spec_started(),
                has == self.spec_positioned(),
                dels == *delete_bitset,
                c as int + live_count(
                    all.subrange(
                        if has {
                            self.spec_cursor()
                        } else {
                            all.len() as int
                        },
                        all.len() as int,
                    ),
                    dels,
                ) == live_count(start0, dels),
                c <= start0.len(),
                start0.len() <= 0xFFFF_FFFF,
                live_count(start0, dels) <= start0.len(),
                0 <= live_count(start0, dels),
            decreases all.len() - self.spec_cursor() + (if has {
                1int
            } else {
                0int
            }),
        {
            let ghost cur = self.spec_cursor();
            let ghost rest = all.subrange(cur, all.len() as int);
            let d = self.doc();
            proof {
                self.postings.lemma_wf_facts();
                assert(rest[0] == all[cur]);
                assert(rest.subrange(1, rest.len() as int) =~= all.subrange(
                    cur + 1,
                    all.len() as int,
                ));
                lemma_live_count_bounds(rest.subrange(1, rest.len() as int), dels);
                lemma_live_count_bounds(rest, dels);
            }
            if !delete_bitset.contains(d) {
                c = c + 1;
            }
            has = self.advance();
        }
        proof {
            assert(all.subrange(all.len() as int, all.len() as int) =~= Seq::<DocId>::empty());
        }
        c
    }
}

/// Deriving a scorer twice from one weight, or from a weight and its clone,
/// yields interchangeable scorers: with the same matched documents, term
/// frequencies, field-length codes and scoring instance, the whole
/// (document, score) sequences the two yield are identical.
pub proof fn lemma_equal_scorers_equal_traces(s1: TermScorer, s2: TermScorer)
    requires
        s1.spec_docs() == s2.spec_docs(),
        s1.spec_freqs() == s2.spec_freqs(),
        s1.spec_norms() == s2.spec_norms(),
        s1.spec_similarity() == s2.spec_similarity(),
    ensures
        s1.spec_trace() == s2.spec_trace(),
{
    assert(s1.spec_trace() =~= s2.spec_trace());
}

} // verus!
