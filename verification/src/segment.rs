use vstd::prelude::*;
use crate::postings::InvertedIndex;
use crate::types::DocId;

verus! {

/// The decoded field length for a field-length code. The code is a lossy,
/// saturating encoding of the field's token count: codes are the capped count
/// itself, so decoding is the identity.
pub open spec fn spec_fieldnorm_to_len(id: u8) -> u32 {
    id as u32
}

/// The decoded field length for a field-length code.
pub fn fieldnorm_to_len(id: u8) -> (r: u32)
    ensures
        r == spec_fieldnorm_to_len(id),
{
    id as u32
}

/// The field-length code for a token count: the count itself, saturating at
/// the largest code.
pub fn fieldnorm_id_of_len(len: u32) -> (r: u8)
    ensures
        r as u32 == if len <= 255 {
            len
        } else {
            255u32
        },
{
    if len > 255 {
        255
    } else {
        len as u8
    }
}

/// The summed field-length codes of a field over a list of documents.
pub open spec fn norms_total(norms: Seq<u8>) -> int
    decreases norms.len(),
{
    if norms.len() == 0 {
        0
    } else {
        norms[0] + norms_total(norms.subrange(1, norms.len() as int))
    }
}

/// The summed codes lie between zero and the largest code times the count.
pub proof fn lemma_norms_total_bounds(norms: Seq<u8>)
    ensures
        0 <= norms_total(norms) <= 255 * norms.len(),
    decreases norms.len(),
{
    if norms.len() > 0 {
        lemma_norms_total_bounds(norms.subrange(1, norms.len() as int));
    }
}

/// Reads the quantized field-length code of a field for each document of one
/// segment, code `norms[doc]` for document `doc`.
#[derive(Debug)]
pub struct FieldNormReader {
    norms: Vec<u8>,
}

impl FieldNormReader {
    /// The stored codes, one per document of the segment.
    pub closed spec fn spec_norms(self) -> Seq<u8> {
        self.norms@
    }

    /// A reader over the given codes.
    pub fn new(norms: Vec<u8>) -> (r: FieldNormReader)
        ensures
            r.spec_norms() == norms@,
    {
        FieldNormReader { norms }
    }

    /// The field-length code of `doc`.
    pub fn fieldnorm_id(&self, doc: DocId) -> (r: u8)
        requires
            doc < self.spec_norms().len(),
        ensures
            r == self.spec_norms()[doc as int],
    {
        self.norms[doc as usize]
    }

    /// How many documents the reader covers.
    pub fn num_docs(&self) -> (r: usize)
        ensures
            r == self.spec_norms().len(),
    {
        self.norms.len()
    }

    /// A reader of its own over the same codes, for a scorer to hold.
    pub fn duplicate(&self) -> (r: FieldNormReader)
        ensures
            r.spec_norms() == self.spec_norms(),
    {
        let mut norms: Vec<u8> = Vec::new();
        let mut i: usize = 0;
        while i < self.norms.len()
            invariant
                i <= self.norms@.len(),
                norms@ == self.norms@.subrange(0, i as int),
            decreases self.norms@.len() - i,
        {
            norms.push(self.norms[i]);
            i = i + 1;
            proof {
                assert(norms@ =~= self.norms@.subrange(0, i as int));
            }
        }
        proof {
            assert(norms@ =~= self.norms@);
        }
        FieldNormReader { norms }
    }

    /// The summed field-length codes over all documents.
    pub fn total_tokens(&self) -> (r: u64)
        requires
            self.spec_norms().len() <= 0xFFFF_FFFF,
        ensures
            r as int == norms_total(self.spec_norms()),
    {
        let n = self.norms.len();
        proof {
            assert(self.norms@.subrange(0, n as int) =~= self.norms@);
            lemma_norms_total_bounds(self.norms@);
        }
        let mut acc: u64 = 0;
        let mut i: usize = 0;
        while i < n
            invariant
                i <= n,
                n == self.norms@.len(),
                n <= 0xFFFF_FFFF,
                acc as int + norms_total(self.norms@.subrange(i as int, n as int)) == norms_total(
                    self.norms@,
                ),
                acc <= 255 * (i as u64),
            decreases n - i,
        {
            let ghost pre = self.norms@.subrange(i as int, n as int);
            proof {
                assert(pre[0] == self.norms@[i as int]);
                assert(pre.subrange(1, pre.len() as int) =~= self.norms@.subrange(
                    i as int + 1,
                    n as int,
                ));
                lemma_norms_total_bounds(pre.subrange(1, pre.len() as int));
            }
            acc = acc + (self.norms[i] as u64);
            i = i + 1;
        }
        proof {
            assert(self.norms@.subrange(n as int, n as int) =~= Seq::<u8>::empty());
        }
        acc
    }
}

/// The per-segment record of documents logically removed but not yet purged.
#[derive(Debug)]
pub struct DeleteBitset {
    deleted: Vec<bool>,
}

impl DeleteBitset {
    /// Whether `doc` is deleted; documents beyond the record are live.
    pub closed spec fn spec_is_deleted(self, doc: DocId) -> bool {
        doc < self.deleted@.len() && self.deleted@[doc as int]
    }

    /// How many documents the record covers.
    pub closed spec fn spec_len(self) -> nat {
        self.deleted@.len()
    }

    /// No document is deleted.
    pub open spec fn spec_no_deletions(self) -> bool {
        forall|d: DocId| !(#[trigger] self.spec_is_deleted(d))
    }

    /// A record with `deleted[doc]` marking document `doc` deleted.
    pub fn new(deleted: Vec<bool>) -> (r: DeleteBitset)
        ensures
            r.spec_len() == deleted@.len(),
            forall|d: DocId|
                #[trigger] r.spec_is_deleted(d) <==> d < deleted@.len() && deleted@[d as int],
    {
        DeleteBitset { deleted }
    }

    /// Membership test: whether `doc` is deleted.
    pub fn contains(&self, doc: DocId) -> (r: bool)
        ensures
            r == self.spec_is_deleted(doc),
    {
        (doc as usize) < self.deleted.len() && self.deleted[doc as usize]
    }
}

/// How many of the listed documents are live under `dels`.
pub open spec fn live_count(docs: Seq<DocId>, dels: DeleteBitset) -> int
    decreases docs.len(),
{
    if docs.len() == 0 {
        0
    } else {
        (if dels.spec_is_deleted(docs[0]) {
            0int
        } else {
            1int
        }) + live_count(docs.subrange(1, docs.len() as int), dels)
    }
}

/// The live count lies between zero and the number of documents.
pub proof fn lemma_live_count_bounds(docs: Seq<DocId>, dels: DeleteBitset)
    ensures
        0 <= live_count(docs, dels) <= docs.len(),
    decreases docs.len(),
{
    if docs.len() > 0 {
        lemma_live_count_bounds(docs.subrange(1, docs.len() as int), dels);
    }
}

/// With nothing deleted, counting the live documents is counting all of them:
/// the iterating counting path and the stored document frequency agree
/// whenever the deletion record is empty.
pub proof fn lemma_count_paths_agree(docs: Seq<DocId>, dels: DeleteBitset)
    requires
        dels.spec_no_deletions(),
    ensures
        live_count(docs, dels) == docs.len(),
    decreases docs.len(),
{
    if docs.len() > 0 {
        lemma_count_paths_agree(docs.subrange(1, docs.len() as int), dels);
    }
}

/// The per-field structures of one segment.
#[derive(Debug)]
pub struct SegmentField {
    /// The field's term dictionary and postings.
    pub inverted_index: InvertedIndex,
    /// The field's field-length codes, one per document.
    pub fieldnorms: FieldNormReader,
}

impl SegmentField {
    /// The postings fit a segment of `max_doc` documents and every document
    /// has a field-length code.
    pub open spec fn wf(self, max_doc: u32) -> bool {
        &&& self.inverted_index.wf(max_doc)
        &&& self.fieldnorms.spec_norms().len() == max_doc
    }
}

/// One independently searchable partition of the index: per-field postings
/// and field-length codes for `max_doc` documents, and the segment's deletion
/// record, if it has one.
#[derive(Debug)]
pub struct SegmentReader {
    max_doc: u32,
    fields: Vec<SegmentField>,
    deletes: Option<DeleteBitset>,
}

impl SegmentReader {
    /// How many documents the segment holds, deleted ones included.
    pub closed spec fn spec_max_doc(self) -> u32 {
        self.max_doc
    }

    /// The per-field structures, by field ordinal.
    pub closed spec fn spec_fields(self) -> Seq<SegmentField> {
        self.fields@
    }

    /// The deletion record, if the segment has one.
    pub closed spec fn spec_deletes(self) -> Option<DeleteBitset> {
        self.deletes
    }

    /// Every field is well-formed for this segment's size, and the deletion
    /// record, where present, covers exactly its documents.
    pub open spec fn wf(self) -> bool {
        &&& forall|f: int|
            0 <= f < self.spec_fields().len() ==> (#[trigger] self.spec_fields()[f]).wf(
                self.spec_max_doc(),
            )
        &&& match self.spec_deletes() {
            Some(d) => d.spec_len() == self.spec_max_doc(),
            None => true,
        }
    }

    /// Assembles a segment from its parts.
    pub fn new(max_doc: u32, fields: Vec<SegmentField>, deletes: Option<DeleteBitset>) -> (r:
        SegmentReader)
        requires
            forall|f: int| 0 <= f < fields@.len() ==> (#[trigger] fields@[f]).wf(max_doc),
            match deletes {
                Some(d) => d.spec_len() == max_doc,
                None => true,
            },
        ensures
            r.wf(),
            r.spec_max_doc() == max_doc,
            r.spec_fields() == fields@,
            r.spec_deletes() == deletes,
    {
        SegmentReader { max_doc, fields, deletes }
    }

    /// How many documents the segment holds.
    pub fn max_doc(&self) -> (r: u32)
        ensures
            r == self.spec_max_doc(),
    {
        self.max_doc
    }

    /// How many fields the segment has.
    pub fn num_fields(&self) -> (r: usize)
        ensures
            r == self.spec_fields().len(),
    {
        self.fields.len()
    }

    /// The field's term dictionary and postings.
    pub fn inverted_index(&self, field: u32) -> (r: &InvertedIndex)
        requires
            field < self.spec_fields().len(),
        ensures
            *r == self.spec_fields()[field as int].inverted_index,
    {
        &self.fields[field as usize].inverted_index
    }

    /// The field's field-length reader.
    pub fn get_fieldnorms_reader(&self, field: u32) -> (r: &FieldNormReader)
        requires
            field < self.spec_fields().len(),
        ensures
            *r == self.spec_fields()[field as int].fieldnorms,
    {
        &self.fields[field as usize].fieldnorms
    }

    /// The segment's deletion record, if it has one.
    pub fn delete_bitset(&self) -> (r: Option<&DeleteBitset>)
        ensures
            match self.spec_deletes() {
                Some(d) => r is Some && *r.unwrap() == d,
                None => r is None,
            },
    {
        match &self.deletes {
            Some(d) => Some(d),
            None => None,
        }
    }
}

} // verus!
