use vstd::prelude::*;
use crate::postings::{docs_for, find_entry, TermPostings};
use crate::segment::{norms_total, lemma_norms_total_bounds, SegmentReader};
use crate::term::Term;

verus! {

/// The total document count of a collection of segments, deleted documents
/// included.
pub open spec fn total_docs(segs: Seq<SegmentReader>) -> int
    decreases segs.len(),
{
    if segs.len() == 0 {
        0
    } else {
        segs[0].spec_max_doc() + total_docs(segs.subrange(1, segs.len() as int))
    }
}

/// The total is nonnegative.
pub proof fn lemma_total_docs_nonneg(segs: Seq<SegmentReader>)
    ensures
        0 <= total_docs(segs),
    decreases segs.len(),
{
    if segs.len() > 0 {
        lemma_total_docs_nonneg(segs.subrange(1, segs.len() as int));
    }
}

/// How many documents of one segment contain `term`.
pub open spec fn seg_doc_freq(seg: SegmentReader, term: Term) -> int {
    if term.field < seg.spec_fields().len() {
        docs_for(seg.spec_fields()[term.field as int].inverted_index.entries@, term).len() as int
    } else {
        0
    }
}

/// How many documents of the whole collection contain `term`.
pub open spec fn total_doc_freq(segs: Seq<SegmentReader>, term: Term) -> int
    decreases segs.len(),
{
    if segs.len() == 0 {
        0
    } else {
        seg_doc_freq(segs[0], term) + total_doc_freq(segs.subrange(1, segs.len() as int), term)
    }
}

/// A found entry is one of the stored entries.
pub proof fn lemma_find_entry_is_entry(entries: Seq<TermPostings>, term: Term)
    requires
        find_entry(entries, term) is Some,
    ensures
        exists|i: int|
            0 <= i < entries.len() && entries[i] == find_entry(entries, term).unwrap(),
    decreases entries.len(),
{
    if entries.len() > 0 {
        if entries[0].term == term {
            assert(entries[0] == find_entry(entries, term).unwrap());
        } else {
            let tail = entries.subrange(1, entries.len() as int);
            lemma_find_entry_is_entry(tail, term);
            let i = choose|i: int| 0 <= i < tail.len() && tail[i] == find_entry(tail, term).unwrap();
            assert(entries[i + 1] == find_entry(entries, term).unwrap());
        }
    }
}

/// No term matches more documents than a well-formed segment holds.
pub proof fn lemma_seg_doc_freq_le_max_doc(seg: SegmentReader, term: Term)
    requires
        seg.wf(),
    ensures
        0 <= seg_doc_freq(seg, term) <= seg.spec_max_doc(),
{
    if term.field < seg.spec_fields().len() {
        let entries = seg.spec_fields()[term.field as int].inverted_index.entries@;
        if find_entry(entries, term) is Some {
            lemma_find_entry_is_entry(entries, term);
        }
    }
}

/// A term's collection-wide document frequency never exceeds the collection's
/// document count.
pub proof fn lemma_total_doc_freq_le_total_docs(segs: Seq<SegmentReader>, term: Term)
    requires
        forall|s: int| 0 <= s < segs.len() ==> (#[trigger] segs[s]).wf(),
    ensures
        0 <= total_doc_freq(segs, term) <= total_docs(segs),
    decreases segs.len(),
{
    if segs.len() > 0 {
        lemma_seg_doc_freq_le_max_doc(segs[0], term);
        let tail = segs.subrange(1, segs.len() as int);
        assert(forall|s: int| 0 <= s < tail.len() ==> (#[trigger] tail[s]).wf()) by {
            assert(forall|s: int| 0 <= s < tail.len() ==> tail[s] == segs[s + 1]);
        }
        lemma_total_doc_freq_le_total_docs(tail, term);
    }
}

/// The summed field-length codes of `field` over one segment.
pub open spec fn seg_tokens(seg: SegmentReader, field: u32) -> int {
    if field < seg.spec_fields().len() {
        norms_total(seg.spec_fields()[field as int].fieldnorms.spec_norms())
    } else {
        0
    }
}

/// The summed field-length codes of `field` over the whole collection.
pub open spec fn total_tokens(segs: Seq<SegmentReader>, field: u32) -> int
    decreases segs.len(),
{
    if segs.len() == 0 {
        0
    } else {
        seg_tokens(segs[0], field) + total_tokens(segs.subrange(1, segs.len() as int), field)
    }
}

/// The collection's token total lies between zero and the largest code times
/// its document count.
pub proof fn lemma_total_tokens_bounds(segs: Seq<SegmentReader>, field: u32)
    requires
        forall|s: int| 0 <= s < segs.len() ==> (#[trigger] segs[s]).wf(),
    ensures
        0 <= total_tokens(segs, field) <= 255 * total_docs(segs),
    decreases segs.len(),
{
    if segs.len() > 0 {
        if field < segs[0].spec_fields().len() {
            lemma_norms_total_bounds(segs[0].spec_fields()[field as int].fieldnorms.spec_norms());
        }
        let tail = segs.subrange(1, segs.len() as int);
        assert(forall|s: int| 0 <= s < tail.len() ==> (#[trigger] tail[s]).wf()) by {
            assert(forall|s: int| 0 <= s < tail.len() ==> tail[s] == segs[s + 1]);
        }
        lemma_total_tokens_bounds(tail, field);
        lemma_total_docs_nonneg(tail);
    }
}

/// Every segment of a suffix of a collection of well-formed segments is
/// well-formed.
pub proof fn lemma_suffix_wf(segs: Seq<SegmentReader>, i: int)
    requires
        0 <= i <= segs.len(),
        forall|s: int| 0 <= s < segs.len() ==> (#[trigger] segs[s]).wf(),
    ensures
        forall|s: int|
            0 <= s < segs.len() - i ==> (#[trigger] segs.subrange(i, segs.len() as int)[s]).wf(),
{
    assert forall|s: int|
        0 <= s < segs.len() - i implies (#[trigger] segs.subrange(i, segs.len() as int)[s]).wf() by {
        assert(segs.subrange(i, segs.len() as int)[s] == segs[i + s]);
    }
}

/// The entry point of a search: the collection's segments and its schema's
/// field count, exposing the collection-wide statistics a scoring function is
/// derived from.
#[derive(Debug)]
pub struct Searcher {
    num_fields: u32,
    segments: Vec<SegmentReader>,
}

impl Searcher {
    /// How many fields the schema defines.
    pub closed spec fn spec_num_fields(self) -> u32 {
        self.num_fields
    }

    /// The collection's segments.
    pub closed spec fn spec_segments(self) -> Seq<SegmentReader> {
        self.segments@
    }

    /// Every segment is well-formed with exactly the schema's fields, and the
    /// collection stays within the 32-bit document-identifier space.
    pub open spec fn wf(self) -> bool {
        &&& forall|s: int|
            0 <= s < self.spec_segments().len() ==> (#[trigger] self.spec_segments()[s]).wf()
        &&& forall|s: int|
            0 <= s < self.spec_segments().len() ==> (#[trigger] self.spec_segments()[s]).spec_fields().len()
                == self.spec_num_fields()
        &&& total_docs(self.spec_segments()) <= 0xFFFF_FFFF
    }

    /// Assembles a searcher over the given segments.
    pub fn new(num_fields: u32, segments: Vec<SegmentReader>) -> (r: Searcher)
        requires
            forall|s: int| 0 <= s < segments@.len() ==> (#[trigger] segments@[s]).wf(),
            forall|s: int|
                0 <= s < segments@.len() ==> (#[trigger] segments@[s]).spec_fields().len()
                    == num_fields,
            total_docs(segments@) <= 0xFFFF_FFFF,
        ensures
            r.wf(),
            r.spec_num_fields() == num_fields,
            r.spec_segments() == segments@,
    {
        Searcher { num_fields, segments }
    }

    /// How many fields the schema defines.
    pub fn num_fields(&self) -> (r: u32)
        ensures
            r == self.spec_num_fields(),
    {
        self.num_fields
    }

    /// The collection's segments.
    pub fn segments(&self) -> (r: &Vec<SegmentReader>)
        ensures
            r@ == self.spec_segments(),
    {
        &self.segments
    }

    /// The collection's document count, deleted documents included.
    pub fn num_docs(&self) -> (r: u64)
        requires
            self.wf(),
        ensures
            r as int == total_docs(self.spec_segments()),
            r <= 0xFFFF_FFFF,
    {
        let segs = &self.segments;
        let n = segs.len();
        proof {
            assert(segs@.subrange(0, n as int) =~= segs@);
            lemma_total_docs_nonneg(segs@);
        }
        let mut acc: u64 = 0;
        let mut i: usize = 0;
        while i < n
            invariant
                i <= n,
                n == segs@.len(),
                segs@ == self.spec_segments(),
                self.wf(),
                acc as int + total_docs(segs@.subrange(i as int, n as int)) == total_docs(segs@),
                0 <= acc as int <= total_docs(segs@),
            decreases n - i,
        {
            let ghost pre = segs@.subrange(i as int, n as int);
            proof {
                assert(pre[0] == segs@[i as int]);
                assert(pre.subrange(1, pre.len() as int) =~= segs@.subrange(i as int + 1, n as int));
                lemma_total_docs_nonneg(pre.subrange(1, pre.len() as int));
            }
            acc = acc + (segs[i].max_doc() as u64);
            i = i + 1;
        }
        proof {
            assert(segs@.subrange(n as int, n as int) =~= Seq::<SegmentReader>::empty());
        }
        acc
    }

    /// How many documents of the collection contain `term`.
    pub fn doc_freq(&self, term: &Term) -> (r: u64)
        requires
            self.wf(),
            term.field < self.spec_num_fields(),
        ensures
            r as int == total_doc_freq(self.spec_segments(), *term),
            r as int <= total_docs(self.spec_segments()),
            r <= 0xFFFF_FFFF,
    {
        let segs = &self.segments;
        let n = segs.len();
        proof {
            assert(segs@.subrange(0, n as int) =~= segs@);
            lemma_total_doc_freq_le_total_docs(segs@, *term);
        }
        let mut acc: u64 = 0;
        let mut i: usize = 0;
        while i < n
            invariant
                i <= n,
                n == segs@.len(),
                segs@ == self.spec_segments(),
                self.wf(),
                term.field < self.spec_num_fields(),
                acc as int + total_doc_freq(segs@.subrange(i as int, n as int), *term)
                    == total_doc_freq(segs@, *term),
                0 <= acc as int <= total_docs(segs@),
            decreases n - i,
        {
            let ghost pre = segs@.subrange(i as int, n as int);
            proof {
                assert(self.spec_segments()[i as int].wf());
                assert(pre[0] == segs@[i as int]);
                assert(pre.subrange(1, pre.len() as int) =~= segs@.subrange(i as int + 1, n as int));
                assert(forall|s: int|
                    0 <= s < segs@.len() ==> (#[trigger] segs@[s]).wf()) by {
                    assert(forall|s: int|
                        0 <= s < segs@.len() ==> segs@[s] == self.spec_segments()[s]);
                }
                lemma_suffix_wf(segs@, i as int + 1);
                lemma_total_doc_freq_le_total_docs(segs@.subrange(i as int + 1, n as int), *term);
                lemma_total_doc_freq_le_total_docs(segs@, *term);
                lemma_seg_doc_freq_le_max_doc(segs@[i as int], *term);
            }
            let seg = &segs[i];
            let df: u32 = match seg.inverted_index(term.field).get_term_info(term) {
                Some(info) => info.doc_freq,
                None => 0,
            };
            proof {
                let entries = segs@[i as int].spec_fields()[term.field as int].inverted_index.entries@;
                if find_entry(entries, *term) is Some {
                    lemma_find_entry_is_entry(entries, *term);
                }
                assert(df as int == seg_doc_freq(segs@[i as int], *term));
            }
            acc = acc + (df as u64);
            i = i + 1;
        }
        proof {
            assert(segs@.subrange(n as int, n as int) =~= Seq::<SegmentReader>::empty());
        }
        acc
    }

    /// The summed field-length codes of `field` over the whole collection.
    pub fn total_tokens(&self, field: u32) -> (r: u64)
        requires
            self.wf(),
            field < self.spec_num_fields(),
        ensures
            r as int == total_tokens(self.spec_segments(), field),
            r as int <= 255 * total_docs(self.spec_segments()),
    {
        let segs = &self.segments;
        let n = segs.len();
        proof {
            assert(segs@.subrange(0, n as int) =~= segs@);
            lemma_total_tokens_bounds(segs@, field);
        }
        let mut acc: u64 = 0;
        let mut i: usize = 0;
        while i < n
            invariant
                i <= n,
                n == segs@.len(),
                segs@ == self.spec_segments(),
                self.wf(),
                field < self.spec_num_fields(),
                acc as int + total_tokens(segs@.subrange(i as int, n as int), field)
                    == total_tokens(segs@, field),
                0 <= acc as int <= 255 * total_docs(segs@),
            decreases n - i,
        {
            let ghost pre = segs@.subrange(i as int, n as int);
            proof {
                assert(self.spec_segments()[i as int].wf());
                assert(pre[0] == segs@[i as int]);
                assert(pre.subrange(1, pre.len() as int) =~= segs@.subrange(i as int + 1, n as int));
                assert(forall|s: int|
                    0 <= s < segs@.len() ==> (#[trigger] segs@[s]).wf()) by {
                    assert(forall|s: int|
                        0 <= s < segs@.len() ==> segs@[s] == self.spec_segments()[s]);
                }
                lemma_suffix_wf(segs@, i as int + 1);
                lemma_total_tokens_bounds(segs@.subrange(i as int + 1, n as int), field);
                lemma_total_tokens_bounds(segs@, field);
                lemma_norms_total_bounds(
                    segs@[i as int].spec_fields()[field as int].fieldnorms.spec_norms(),
                );
            }
            let seg = &segs[i];
            let reader = seg.get_fieldnorms_reader(field);
            proof {
                assert(reader.spec_norms().len() == segs@[i as int].spec_max_doc());
            }
            let t = reader.total_tokens();
            proof {
                assert(t as int == seg_tokens(segs@[i as int], field));
            }
            acc = acc + t;
            i = i + 1;
        }
        proof {
            assert(segs@.subrange(n as int, n as int) =~= Seq::<SegmentReader>::empty());
        }
        acc
    }
}

} // verus!
