use vstd::prelude::*;
use crate::term::Term;
use crate::types::{DocId, IndexRecordOption, SkipResult};

verus! {

/// Summary statistics the inverted index stores for one term in one segment.
#[derive(Clone, Copy, Debug, PartialEq, Eq, Structural)]
pub struct TermInfo {
    /// How many documents of the segment contain the term.
    pub doc_freq: u32,
}

/// The stored postings of one term in one segment: the matching documents in
/// strictly increasing order, each with the term's frequency in it.
#[derive(Debug)]
pub struct TermPostings {
    /// The term.
    pub term: Term,
    /// The matching documents, strictly increasing.
    pub docs: Vec<DocId>,
    /// The term's frequency in the matching document at the same index;
    /// always at least one.
    pub freqs: Vec<u32>,
}

impl TermPostings {
    /// Documents and frequencies pair up, documents are strictly increasing
    /// (so fewer than `2^32` of them), and every stored frequency is positive.
    pub open spec fn wf(self) -> bool {
        &&& self.docs@.len() == self.freqs@.len()
        &&& self.docs@.len() <= 0xFFFF_FFFF
        &&& forall|i: int, j: int| 0 <= i < j < self.docs@.len() ==> self.docs@[i] < self.docs@[j]
        &&& forall|i: int| 0 <= i < self.freqs@.len() ==> (#[trigger] self.freqs@[i]) >= 1
    }
}

/// The first stored entry for `term`, if any; with distinct terms, the entry
/// for `term`.
pub open spec fn find_entry(entries: Seq<TermPostings>, term: Term) -> Option<TermPostings>
    decreases entries.len(),
{
    if entries.len() == 0 {
        None
    } else if entries[0].term == term {
        Some(entries[0])
    } else {
        find_entry(entries.subrange(1, entries.len() as int), term)
    }
}

/// The documents `term` matches in a segment with postings `entries`: the
/// stored list, or empty when the term is absent.
pub open spec fn docs_for(entries: Seq<TermPostings>, term: Term) -> Seq<DocId> {
    match find_entry(entries, term) {
        Some(tp) => tp.docs@,
        None => Seq::empty(),
    }
}

/// The term frequencies a scorer reads for `term` under detail level
/// `option`: the stored frequencies when the level carries them, else one per
/// matching document, and empty when the term is absent.
pub open spec fn freqs_for(entries: Seq<TermPostings>, term: Term, option: IndexRecordOption) -> Seq<
    u32,
> {
    match find_entry(entries, term) {
        Some(tp) => if option.spec_has_freq() {
            tp.freqs@
        } else {
            Seq::new(tp.freqs@.len(), |i: int| 1u32)
        },
        None => Seq::empty(),
    }
}

/// The per-field term dictionary and postings of one segment.
#[derive(Debug)]
pub struct InvertedIndex {
    /// One entry per distinct term.
    pub entries: Vec<TermPostings>,
}

impl InvertedIndex {
    /// Every entry is well-formed and no term occurs twice.
    pub open spec fn basic_wf(self) -> bool {
        &&& forall|i: int|
            0 <= i < self.entries@.len() ==> (#[trigger] self.entries@[i]).wf()
        &&& forall|i: int, j: int|
            0 <= i < j < self.entries@.len() ==> self.entries@[i].term != self.entries@[j].term
    }

    /// Well-formed for a segment of `max_doc` documents: additionally, every
    /// posted document is below `max_doc`, so no term matches more than
    /// `max_doc` documents.
    pub open spec fn wf(self, max_doc: u32) -> bool {
        &&& self.basic_wf()
        &&& forall|i: int|
            0 <= i < self.entries@.len() ==> (#[trigger] self.entries@[i]).docs@.len() <= max_doc
        &&& forall|i: int, k: int|
            0 <= i < self.entries@.len() && 0 <= k < self.entries@[i].docs@.len()
                ==> self.entries@[i].docs@[k] < max_doc
    }

    /// Looks the term up in the dictionary; `None` exactly when the segment
    /// does not contain it, else its document frequency.
    pub fn get_term_info(&self, term: &Term) -> (r: Option<TermInfo>)
        requires
            self.basic_wf(),
        ensures
            r == match find_entry(self.entries@, *term) {
                Some(tp) => Some(TermInfo { doc_freq: tp.docs@.len() as u32 }),
                None => None::<TermInfo>,
            },
    {
        let n = self.entries.len();
        proof {
            assert(self.entries@.subrange(0, n as int) =~= self.entries@);
        }
        let mut i: usize = 0;
        while i < n
            invariant
                i <= n,
                n == self.entries@.len(),
                self.basic_wf(),
                find_entry(self.entries@, *term) == find_entry(
                    self.entries@.subrange(i as int, n as int),
                    *term,
                ),
            decreases n - i,
        {
            let ghost pre = self.entries@.subrange(i as int, n as int);
            if self.entries[i].term == *term {
                proof {
                    assert(pre[0] == self.entries@[i as int]);
                }
                return Some(TermInfo { doc_freq: self.entries[i].docs.len() as u32 });
            }
            i = i + 1;
            proof {
                assert(pre[0] == self.entries@[i - 1]);
                assert(pre.subrange(1, pre.len() as int) =~= self.entries@.subrange(
                    i as int,
                    n as int,
                ));
            }
        }
        proof {
            assert(self.entries@.subrange(n as int, n as int) =~= Seq::<TermPostings>::empty());
        }
        None
    }

    /// Opens the term's postings at detail level `option`: `None` exactly
    /// when the segment does not contain the term, else an unstarted cursor
    /// over the stored documents, with the stored frequencies when `option`
    /// carries them and a frequency of one per document otherwise.
    pub fn read_postings(&self, term: &Term, option: IndexRecordOption) -> (r: Option<
        SegmentPostings,
    >)
        requires
            self.basic_wf(),
        ensures
            r is Some <==> find_entry(self.entries@, *term) is Some,
            r is Some ==> {
                let sp = r.unwrap();
                &&& sp.wf()
                &&& !sp.spec_started()
                &&& sp.spec_docs() == docs_for(self.entries@, *term)
                &&& sp.spec_freqs() == freqs_for(self.entries@, *term, option)
            },
    {
        let n = self.entries.len();
        proof {
            assert(self.entries@.subrange(0, n as int) =~= self.entries@);
        }
        let mut i: usize = 0;
        while i < n
            invariant
                i <= n,
                n == self.entries@.len(),
                self.basic_wf(),
                find_entry(self.entries@, *term) == find_entry(
                    self.entries@.subrange(i as int, n as int),
                    *term,
                ),
            decreases n - i,
        {
            let ghost pre = self.entries@.subrange(i as int, n as int);
            if self.entries[i].term == *term {
                proof {
                    assert(pre[0] == self.entries@[i as int]);
                }
                let entry = &self.entries[i];
                let docs = copy_doc_list(&entry.docs);
                let freqs = if option.has_freq() {
                    copy_doc_list(&entry.freqs)
                } else {
                    ones(entry.freqs.len())
                };
                return Some(SegmentPostings::new(docs, freqs));
            }
            i = i + 1;
            proof {
                assert(pre[0] == self.entries@[i - 1]);
                assert(pre.subrange(1, pre.len() as int) =~= self.entries@.subrange(
                    i as int,
                    n as int,
                ));
            }
        }
        proof {
            assert(self.entries@.subrange(n as int, n as int) =~= Seq::<TermPostings>::empty());
        }
        None
    }
}

/// Copies a list of 32-bit values.
fn copy_doc_list(v: &Vec<u32>) -> (r: Vec<u32>)
    ensures
        r@ == v@,
{
    let mut r: Vec<u32> = Vec::new();
    let mut i: usize = 0;
    while i < v.len()
        invariant
            i <= v@.len(),
            r@ == v@.subrange(0, i as int),
        decreases v@.len() - i,
    {
        r.push(v[i]);
        i = i + 1;
        proof {
            assert(r@ =~= v@.subrange(0, i as int));
        }
    }
    proof {
        assert(r@ =~= v@);
    }
    r
}

/// A list of `n` ones, the frequency reported for every document when the
/// detail level carries none.
fn ones(n: usize) -> (r: Vec<u32>)
    ensures
        r@ == Seq::new(n as nat, |i: int| 1u32),
{
    let mut r: Vec<u32> = Vec::new();
    let mut i: usize = 0;
    while i < n
        invariant
            i <= n,
            r@ == Seq::new(i as nat, |k: int| 1u32),
        decreases n - i,
    {
        r.push(1);
        i = i + 1;
        proof {
            assert(r@ =~= Seq::new(i as nat, |k: int| 1u32));
        }
    }
    r
}

/// The least index at or after `from` whose document is at least `target`,
/// or the length when none is.
pub open spec fn seek_from(docs: Seq<DocId>, from: int, target: DocId) -> int
    decreases docs.len() - from,
    when 0 <= from <= docs.len()
{
    if from >= docs.len() {
        docs.len() as int
    } else if docs[from] >= target {
        from
    } else {
        seek_from(docs, from + 1, target)
    }
}

/// Seeking never moves backward and stays within the list.
pub proof fn lemma_seek_from_bounds(docs: Seq<DocId>, from: int, target: DocId)
    requires
        0 <= from <= docs.len(),
    ensures
        from <= seek_from(docs, from, target) <= docs.len(),
    decreases docs.len() - from,
{
    if from < docs.len() && docs[from] < target {
        lemma_seek_from_bounds(docs, from + 1, target);
    }
}

/// On a strictly increasing list, seeking from the start lands exactly on
/// `target` if and only if the list contains it.
pub proof fn lemma_seek_finds_contained(docs: Seq<DocId>, from: int, target: DocId)
    requires
        0 <= from <= docs.len(),
        forall|i: int, j: int| 0 <= i < j < docs.len() ==> docs[i] < docs[j],
    ensures
        ({
            let k = seek_from(docs, from, target);
            (k < docs.len() && docs[k] == target) <==> exists|i: int|
                from <= i < docs.len() && docs[i] == target
        }),
    decreases docs.len() - from,
{
    let k = seek_from(docs, from, target);
    if from >= docs.len() {
    } else if docs[from] >= target {
        if docs[from] == target {
        } else {
            // every later document is larger still, so target is absent
            assert forall|i: int| from <= i < docs.len() implies docs[i] != target by {
                if i > from {
                    assert(docs[from] < docs[i]);
                }
            }
        }
    } else {
        lemma_seek_finds_contained(docs, from + 1, target);
    }
}

/// A single-pass, forward-only cursor over one term's postings in one
/// segment: documents in strictly increasing order, each with its term
/// frequency. The cursor starts before the first document, is positioned
/// after a successful advance, and is exhausted once it has moved past the
/// last document; exhaustion is terminal.
#[derive(Debug)]
pub struct SegmentPostings {
    docs: Vec<DocId>,
    freqs: Vec<u32>,
    cursor: usize,
    started: bool,
}

impl SegmentPostings {
    /// The documents this cursor walks.
    pub closed spec fn spec_docs(self) -> Seq<DocId> {
        self.docs@
    }

    /// The frequency paired with each document.
    pub closed spec fn spec_freqs(self) -> Seq<u32> {
        self.freqs@
    }

    /// The current index into the documents; meaningful once started.
    pub closed spec fn spec_cursor(self) -> int {
        self.cursor as int
    }

    /// Whether the cursor has moved onto its first document yet.
    pub closed spec fn spec_started(self) -> bool {
        self.started
    }

    /// The cursor stands on a document.
    pub open spec fn spec_positioned(self) -> bool {
        self.spec_started() && self.spec_cursor() < self.spec_docs().len()
    }

    /// The cursor has moved past the last document.
    pub open spec fn spec_exhausted(self) -> bool {
        self.spec_started() && self.spec_cursor() >= self.spec_docs().len()
    }

    /// Documents and frequencies pair up and are strictly increasing and
    /// positive, as stored; the cursor stays within bounds and at the start
    /// before the first advance.
    pub closed spec fn wf(self) -> bool {
        &&& self.docs@.len() == self.freqs@.len()
        &&& self.docs@.len() <= 0xFFFF_FFFF
        &&& forall|i: int, j: int| 0 <= i < j < self.docs@.len() ==> self.docs@[i] < self.docs@[j]
        &&& forall|i: int| 0 <= i < self.freqs@.len() ==> (#[trigger] self.freqs@[i]) >= 1
        &&& self.cursor <= self.docs@.len()
        &&& (!self.started ==> self.cursor == 0)
    }

    /// The bounds well-formedness puts on the cursor and the lists, for
    /// callers outside this module.
    pub proof fn lemma_wf_facts(self)
        requires
            self.wf(),
        ensures
            0 <= self.spec_cursor() <= self.spec_docs().len(),
            self.spec_docs().len() == self.spec_freqs().len(),
            self.spec_docs().len() <= 0xFFFF_FFFF,
            !self.spec_started() ==> self.spec_cursor() == 0,
            forall|i: int, j: int|
                0 <= i < j < self.spec_docs().len() ==> self.spec_docs()[i] < self.spec_docs()[j],
            forall|i: int|
                0 <= i < self.spec_freqs().len() ==> (#[trigger] self.spec_freqs()[i]) >= 1,
    {
    }

    /// An unstarted cursor over the given lists.
    pub fn new(docs: Vec<DocId>, freqs: Vec<u32>) -> (r: SegmentPostings)
        requires
            docs@.len() == freqs@.len(),
            docs@.len() <= 0xFFFF_FFFF,
            forall|i: int, j: int| 0 <= i < j < docs@.len() ==> docs@[i] < docs@[j],
            forall|i: int| 0 <= i < freqs@.len() ==> (#[trigger] freqs@[i]) >= 1,
        ensures
            r.wf(),
            !r.spec_started(),
            r.spec_cursor() == 0,
            r.spec_docs() == docs@,
            r.spec_freqs() == freqs@,
    {
        SegmentPostings { docs, freqs, cursor: 0, started: false }
    }

    /// A cursor over no documents: exhausted on the first advance.
    pub fn empty() -> (r: SegmentPostings)
        ensures
            r.wf(),
            !r.spec_started(),
            r.spec_cursor() == 0,
            r.spec_docs().len() == 0,
            r.spec_freqs().len() == 0,
    {
        SegmentPostings { docs: Vec::new(), freqs: Vec::new(), cursor: 0, started: false }
    }

    /// Moves onto the next document; reports whether one exists. Once
    /// exhausted, further advances change nothing and report `false`.
    pub fn advance(&mut self) -> (has: bool)
        requires
            old(self).wf(),
        ensures
            final(self).wf(),
            final(self).spec_docs() == old(self).spec_docs(),
            final(self).spec_freqs() == old(self).spec_freqs(),
            final(self).spec_started(),
            final(self).spec_cursor() == if !old(self).spec_started() {
                0int
            } else if old(self).spec_cursor() < old(self).spec_docs().len() {
                old(self).spec_cursor() + 1
            } else {
                old(self).spec_cursor()
            },
            has == final(self).spec_positioned(),
    {
        if !self.started {
            self.started = true;
        } else if self.cursor < self.docs.len() {
            self.cursor = self.cursor + 1;
        }
        self.cursor < self.docs.len()
    }

    /// The document the cursor stands on.
    pub fn doc(&self) -> (d: DocId)
        requires
            self.wf(),
            self.spec_positioned(),
        ensures
            d == self.spec_docs()[self.spec_cursor()],
    {
        self.docs[self.cursor]
    }

    /// The term's frequency in the document the cursor stands on.
    pub fn term_freq(&self) -> (f: u32)
        requires
            self.wf(),
            self.spec_positioned(),
        ensures
            f == self.spec_freqs()[self.spec_cursor()],
            f >= 1,
    {
        self.freqs[self.cursor]
    }

    /// How many documents the cursor walks in all.
    pub fn len(&self) -> (n: usize)
        ensures
            n == self.spec_docs().len(),
    {
        self.docs.len()
    }

    /// Whether the cursor has moved past its last document.
    pub fn is_exhausted(&self) -> (r: bool)
        ensures
            r == self.spec_exhausted(),
    {
        self.started && self.cursor >= self.docs.len()
    }

    /// Advances to the first document at or past `target`, never moving
    /// backward: from the current position when started, else from the first
    /// document. Reports whether the cursor landed exactly on `target`,
    /// strictly past it, or ran out of documents; once exhausted, every
    /// further call reports exhaustion and changes nothing.
    pub fn skip_next(&mut self, target: DocId) -> (r: SkipResult)
        requires
            old(self).wf(),
        ensures
            final(self).wf(),
            final(self).spec_docs() == old(self).spec_docs(),
            final(self).spec_freqs() == old(self).spec_freqs(),
            final(self).spec_started(),
            final(self).spec_cursor() == seek_from(
                old(self).spec_docs(),
                if old(self).spec_started() {
                    old(self).spec_cursor()
                } else {
                    0int
                },
                target,
            ),
            final(self).spec_cursor() >= old(self).spec_cursor(),
            r == (if final(self).spec_exhausted() {
                SkipResult::End
            } else if final(self).spec_docs()[final(self).spec_cursor()] == target {
                SkipResult::Reached
            } else {
                SkipResult::OverStep
            }),
            r == SkipResult::End <==> final(self).spec_exhausted(),
            old(self).spec_exhausted() ==> r == SkipResult::End && final(self).spec_cursor() == old(
                self,
            ).spec_cursor(),
    {
        let ghost from: int = if self.started {
            self.cursor as int
        } else {
            0int
        };
        self.started = true;
        while self.cursor < self.docs.len() && self.docs[self.cursor] < target
            invariant
                self.wf(),
                self.started,
                from <= self.cursor as int,
                self.docs@ == old(self).spec_docs(),
                self.freqs@ == old(self).spec_freqs(),
                seek_from(self.docs@, from, target) == seek_from(
                    self.docs@,
                    self.cursor as int,
                    target,
                ),
            decreases self.docs@.len() - self.cursor,
        {
            self.cursor = self.cursor + 1;
        }
        proof {
            lemma_seek_from_bounds(self.docs@, from, target);
        }
        if self.cursor < self.docs.len() {
            if self.docs[self.cursor] == target {
                SkipResult::Reached
            } else {
                SkipResult::OverStep
            }
        } else {
            SkipResult::End
        }
    }
}

} // verus!
