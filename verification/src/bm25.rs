use vstd::prelude::*;
use vstd::arithmetic::div_mod::{
    lemma_div_is_ordered_by_denominator, lemma_div_multiples_vanish, lemma_div_pos_is_pos,
};
use vstd::arithmetic::power2::{
    lemma2_to64, lemma2_to64_rest, lemma_pow2_pos, lemma_pow2_strictly_increases, pow2,
};
use crate::explanation::{Explanation, ExplanationLabel};
use crate::log2::{
    lemma_frac_bits_bounds, lemma_log2_int_bounds, log2_fixed, log2_fixed_spec, log2_int, mantissa,
};
use crate::scoringfunction::ScoringFunction;
use crate::searcher::{total_docs, total_doc_freq, total_tokens, Searcher};
use crate::segment::SegmentReader;
use crate::term::Term;
use crate::types::Score;

verus! {

/// Tunable constants of the BM25 formula, in fixed point at the score scale:
/// the defaults stand for `k1 = 1.25` (`1280 / 1024`) and `b = 0.75`
/// (`768 / 1024`).
#[derive(Clone, Copy, Debug, PartialEq, Eq, Structural)]
pub struct BM25Params {
    /// Term-frequency saturation constant `k1`, scaled by 1024. At most 16384
    /// (`k1 <= 16`) so that scores stay within machine range.
    pub k1_fp: u64,
    /// Field-length normalization strength `b`, scaled by 1024. At most 1024
    /// (`b <= 1`), as larger values have no meaning in the formula.
    pub b_fp: u64,
}

impl BM25Params {
    /// The constants stay in the ranges the formula is defined for.
    pub open spec fn wf(self) -> bool {
        &&& 1 <= self.k1_fp <= 16384
        &&& self.b_fp <= 1024
    }

    /// The default constants: `k1 = 1.25`, `b = 0.75`.
    pub open spec fn spec_default() -> BM25Params {
        BM25Params { k1_fp: 1280, b_fp: 768 }
    }

    /// Builds a parameter bundle; the bounds keep every score computation
    /// within machine range.
    pub fn new(k1_fp: u64, b_fp: u64) -> (r: BM25Params)
        requires
            1 <= k1_fp <= 16384,
            b_fp <= 1024,
        ensures
            r == (BM25Params { k1_fp, b_fp }),
            r.wf(),
    {
        BM25Params { k1_fp, b_fp }
    }
}

impl Default for BM25Params {
    fn default() -> (r: Self)
        ensures
            r == BM25Params::spec_default(),
            r.wf(),
    {
        BM25Params { k1_fp: 1280, b_fp: 768 }
    }
}

/// One statistics-derived BM25 scoring instance: the summed inverse document
/// frequency of the query's terms and the average field length of their field,
/// both derived once per query execution from collection-wide statistics, then
/// cheaply copied into every per-segment scorer.
#[derive(Clone, Copy, Debug)]
pub struct BM25Weight {
    /// Summed inverse document frequency of the query's terms, fixed point.
    pub idf_fp: u64,
    /// Average field length of the queried field, fixed point, at least one.
    pub avg_len_fp: u64,
    /// The tunable constants.
    pub params: BM25Params,
}

impl BM25Weight {
    /// The field-length normalization factor `(1 - b) + b * len / avg_len`,
    /// fixed point, where `len` is the decoded field length.
    pub open spec fn spec_len_norm(self, fieldnorm_id: u8) -> int {
        (1024 - self.params.b_fp) + (self.params.b_fp * fieldnorm_id * 1024) / (
        self.avg_len_fp as int)
    }

    /// The term-frequency normalization factor
    /// `tf * (1 + k1) / (tf + k1 * len_norm)`, fixed point.
    pub open spec fn spec_tf_norm(self, fieldnorm_id: u8, term_freq: u32) -> int {
        let denom = term_freq * 1024 + (self.params.k1_fp * self.spec_len_norm(fieldnorm_id))
            / 1024;
        if denom == 0 {
            0
        } else {
            (term_freq * (1024 + self.params.k1_fp) * 1024) / denom
        }
    }

    /// The BM25 score: the product of the inverse-document-frequency factor
    /// and the term-frequency normalization factor, over the fixed-point
    /// scale. Zero term frequency scores zero.
    pub open spec fn spec_bm25(self, fieldnorm_id: u8, term_freq: u32) -> int {
        (self.idf_fp * self.spec_tf_norm(fieldnorm_id, term_freq)) / 1024
    }

    /// The field-length normalization factor, executable.
    fn len_norm_fp(&self, fieldnorm_id: u8) -> (r: u64)
        requires
            self.wf(),
        ensures
            r as int == self.spec_len_norm(fieldnorm_id),
            r < 0x2000_0000,
    {
        let b = self.params.b_fp;
        proof {
            assert(b * (fieldnorm_id as u64) <= 1024 * 255) by (nonlinear_arith)
                requires
                    b <= 1024,
                    fieldnorm_id as u64 <= 255,
            ;
            lemma_div_is_ordered_by_denominator(
                (b * (fieldnorm_id as u64) * 1024) as int,
                1,
                self.avg_len_fp as int,
            );
        }
        (1024 - b) + (b * (fieldnorm_id as u64) * 1024) / self.avg_len_fp
    }

    /// The term-frequency normalization factor, executable.
    fn tf_norm_fp(&self, fieldnorm_id: u8, term_freq: u32) -> (r: u64)
        requires
            self.wf(),
        ensures
            r as int == self.spec_tf_norm(fieldnorm_id, term_freq),
            r <= 1024 + self.params.k1_fp,
    {
        let ln = self.len_norm_fp(fieldnorm_id);
        proof {
            assert(self.params.k1_fp * ln < 16384 * 0x2000_0000) by (nonlinear_arith)
                requires
                    self.params.k1_fp <= 16384,
                    ln < 0x2000_0000,
            ;
            assert((term_freq as u64) * 1024 <= 0xFFFF_FFFFu64 * 1024) by (nonlinear_arith)
                requires
                    term_freq as u64 <= 0xFFFF_FFFFu64,
            ;
        }
        let denom = (term_freq as u64) * 1024 + (self.params.k1_fp * ln) / 1024;
        if denom == 0 {
            0
        } else {
            proof {
                assert((term_freq as u64) * (1024 + self.params.k1_fp) <= 0xFFFF_FFFFu64 * 17408)
                    by (nonlinear_arith)
                    requires
                        term_freq as u64 <= 0xFFFF_FFFFu64,
                        self.params.k1_fp <= 16384,
                ;
            }
            let num = (term_freq as u64) * (1024 + self.params.k1_fp) * 1024;
            proof {
                let tf = term_freq as int;
                let k1 = self.params.k1_fp as int;
                assert(num as int == (tf * 1024) * (1024 + k1)) by (nonlinear_arith)
                    requires
                        num as int == tf * (1024 + k1) * 1024,
                ;
                if tf == 0 {
                    assert(num as int == 0) by (nonlinear_arith)
                        requires
                            num as int == tf * (1024 + k1) * 1024,
                            tf == 0,
                    ;
                    lemma_div_pos_is_pos(0, denom as int);
                    assert(0int / (denom as int) == 0) by {
                        lemma_div_multiples_vanish(0, denom as int);
                    }
                } else {
                    // denom >= tf * 1024, so num / denom <= (1024 + k1)
                    assert(tf * 1024 >= 1024) by (nonlinear_arith)
                        requires
                            tf >= 1,
                    ;
                    lemma_div_is_ordered_by_denominator(num as int, tf * 1024, denom as int);
                    assert(((tf * 1024) * (1024 + k1)) / (tf * 1024) == 1024 + k1) by {
                        lemma_div_multiples_vanish(1024 + k1, tf * 1024);
                    }
                }
            }
            num / denom
        }
    }

    /// The score, as [`ScoringFunction::score`] delivers it; the factor
    /// helpers keep the whole computation within `u64` range.
    fn bm25_score(&self, fieldnorm_id: u8, term_freq: u32) -> (s: Score)
        requires
            self.wf(),
        ensures
            s as int == self.spec_bm25(fieldnorm_id, term_freq),
    {
        let tfn = self.tf_norm_fp(fieldnorm_id, term_freq);
        proof {
            assert(self.idf_fp * tfn < 0x1_0000_0000_0000 * 0x8000) by (nonlinear_arith)
                requires
                    self.idf_fp < 0x1_0000_0000_0000,
                    tfn <= 1024 + self.params.k1_fp,
                    self.params.k1_fp <= 16384,
            ;
        }
        (self.idf_fp * tfn) / 1024
    }
}

/// The fixed-point inverse document frequency for a term: the binary
/// logarithm of `(n + 1) / (df + 1/2)`, written over integers as
/// `(2n + 2) / (2 df + 1)`. Base two in place of the customary natural
/// logarithm scales every score by the same constant and keeps the ordering.
pub open spec fn spec_idf(n: int, df: int) -> int {
    log2_fixed_spec(2 * n + 2, 2 * df + 1)
}

/// One term's inverse document frequency against the whole collection.
pub open spec fn spec_term_idf(segs: Seq<SegmentReader>, term: Term) -> int {
    spec_idf(total_docs(segs), total_doc_freq(segs, term))
}

/// The summed inverse document frequency of a query's terms.
pub open spec fn spec_idf_total(segs: Seq<SegmentReader>, terms: Seq<Term>) -> int
    decreases terms.len(),
{
    if terms.len() == 0 {
        0
    } else {
        spec_term_idf(segs, terms[0]) + spec_idf_total(
            segs,
            terms.subrange(1, terms.len() as int),
        )
    }
}

/// The collection's average length of `field`, fixed point, floored to one so
/// that it can divide; one scale unit for an empty collection.
pub open spec fn spec_avg_len_fp(segs: Seq<SegmentReader>, field: u32) -> int {
    let n = total_docs(segs);
    if n == 0 {
        1024
    } else {
        let a = (total_tokens(segs, field) * 1024) / n;
        if a == 0 {
            1
        } else {
            a
        }
    }
}

/// The inverse document frequency in fixed point; a document frequency never
/// exceeds the document count, which keeps the ratio at least one.
pub fn idf_fixed(n: u64, df: u64) -> (r: u64)
    requires
        df <= n,
        n <= 0xFFFF_FFFF,
    ensures
        r as int == spec_idf(n as int, df as int),
        r < 35840,
{
    let p = 2 * n + 2;
    let q = 2 * df + 1;
    let r = log2_fixed(p, q);
    proof {
        lemma_log2_int_bounds(p as int, q as int);
        lemma_frac_bits_bounds(mantissa(p as int, q as int), 10);
        let e = log2_int(p as int, q as int);
        lemma_pow2_pos(e as nat);
        assert(pow2(e as nat) <= (q as int) * pow2(e as nat)) by (nonlinear_arith)
            requires
                q as int >= 1,
                pow2(e as nat) > 0,
        ;
        assert(pow2(34) == 0x4_0000_0000) by {
            lemma2_to64();
            lemma2_to64_rest();
        }
        if e > 33 {
            if e > 34 {
                lemma_pow2_strictly_increases(34, e as nat);
            }
            assert(false);
        }
        assert(pow2(10) == 1024) by {
            lemma2_to64();
        }
    }
    r
}

impl BM25Weight {
    /// Derives the BM25 instance for `terms` from the collection-wide
    /// statistics: the terms' summed inverse document frequency and their
    /// field's average length, each computed once per query execution. All
    /// terms must name one field, the field whose lengths normalize the
    /// scores.
    pub fn for_terms(searcher: &Searcher, terms: &Vec<Term>, params: BM25Params) -> (r: BM25Weight)
        requires
            searcher.wf(),
            params.wf(),
            1 <= terms@.len() <= 0x1_0000_0000,
            forall|i: int| 0 <= i < terms@.len() ==> (#[trigger] terms@[i]).field == terms@[0].field,
            terms@[0].field < searcher.spec_num_fields(),
        ensures
            r.wf(),
            r.params == params,
            r.idf_fp as int == spec_idf_total(searcher.spec_segments(), terms@),
            r.avg_len_fp as int == spec_avg_len_fp(searcher.spec_segments(), terms@[0].field),
    {
        let ghost segs = searcher.spec_segments();
        let n = searcher.num_docs();
        let nt = terms.len();
        proof {
            assert(terms@.subrange(0, nt as int) =~= terms@);
        }
        let mut idf: u64 = 0;
        let mut i: usize = 0;
        while i < nt
            invariant
                i <= nt,
                nt == terms@.len(),
                nt <= 0x1_0000_0000,
                searcher.wf(),
                segs == searcher.spec_segments(),
                forall|k: int| 0 <= k < terms@.len() ==> (#[trigger] terms@[k]).field == terms@[0].field,
                terms@[0].field < searcher.spec_num_fields(),
                n as int == total_docs(segs),
                n <= 0xFFFF_FFFF,
                idf as int + spec_idf_total(segs, terms@.subrange(i as int, nt as int))
                    == spec_idf_total(segs, terms@),
                idf <= 35840 * (i as u64),
            decreases nt - i,
        {
            let ghost pre = terms@.subrange(i as int, nt as int);
            proof {
                assert(pre[0] == terms@[i as int]);
                assert(pre.subrange(1, pre.len() as int) =~= terms@.subrange(
                    i as int + 1,
                    nt as int,
                ));
            }
            let df = searcher.doc_freq(&terms[i]);
            let ti = idf_fixed(n, df);
            proof {
                assert(ti as int == spec_term_idf(segs, terms@[i as int]));
            }
            idf = idf + ti;
            i = i + 1;
        }
        let field = terms[0].field;
        let tokens = searcher.total_tokens(field);
        let avg: u64 = if n == 0 {
            1024
        } else {
            let a = (tokens * 1024) / n;
            if a == 0 {
                1
            } else {
                a
            }
        };
        proof {
            assert(terms@.subrange(nt as int, nt as int) =~= Seq::<Term>::empty());
            assert(avg as int == spec_avg_len_fp(segs, field));
        }
        BM25Weight { idf_fp: idf, avg_len_fp: avg, params }
    }
}

impl ScoringFunction for BM25Weight {
    /// The statistics stay in the ranges the score computation is proved for.
    open spec fn wf(&self) -> bool {
        &&& self.params.wf()
        &&& 1 <= self.avg_len_fp
        &&& self.idf_fp < 0x1_0000_0000_0000
    }

    open spec fn spec_score(&self, fieldnorm_id: u8, term_freq: u32) -> int {
        self.spec_bm25(fieldnorm_id, term_freq)
    }

    fn score(&self, fieldnorm_id: u8, term_freq: u32) -> (s: Score) {
        self.bm25_score(fieldnorm_id, term_freq)
    }

    fn explain(&self, fieldnorm_id: u8, term_freq: u32) -> (e: Explanation) {
        let value = self.bm25_score(fieldnorm_id, term_freq);
        let mut e = Explanation::new(ExplanationLabel::TermScore, value);
        e.add_detail(Explanation::new(ExplanationLabel::Idf, self.idf_fp));
        e.add_detail(Explanation::new(ExplanationLabel::TfNorm, self.tf_norm_fp(fieldnorm_id, term_freq)));
        e
    }
}

} // verus!
