use termscore::bm25::{idf_fixed, BM25Params, BM25Weight};
use termscore::explanation::ExplanationLabel;
use termscore::log2::log2_fixed;
use termscore::scoringfunction::{AnyScoringFunction, ScoringFunction, ScoringFunctionClone};
use termscore::segment::fieldnorm_id_of_len;
use termscore::types::SCORE_SCALE;

fn default_weight(idf_fp: u64, avg_len_fp: u64) -> BM25Weight {
    BM25Weight { idf_fp, avg_len_fp, params: BM25Params::default() }
}

#[test]
fn log2_exact_powers() {
    assert_eq!(log2_fixed(1, 1), 0);
    assert_eq!(log2_fixed(2, 1), 1024);
    assert_eq!(log2_fixed(4, 1), 2048);
    assert_eq!(log2_fixed(8, 1), 3072);
    assert_eq!(log2_fixed(6, 3), 1024);
}

#[test]
fn log2_fractional_values_bracket_the_ratio() {
    // log2(6/5) ~ 0.263: between a quarter and a third
    let r = log2_fixed(6, 5);
    assert!(r > 0 && r < 1024, "{r}");
    assert!(r > 200 && r < 300, "{r}");
    // log2(3/2) ~ 0.585
    let r = log2_fixed(3, 2);
    assert!(r > 580 && r < 620, "{r}");
    // monotone in the ratio
    assert!(log2_fixed(6, 5) < log2_fixed(7, 5));
    assert!(log2_fixed(7, 5) < log2_fixed(8, 5));
}

#[test]
fn idf_exact_value_for_singleton_collection() {
    // one document, term absent: log2((2*1 + 2) / (2*0 + 1)) = log2(4) = 2.0
    assert_eq!(idf_fixed(1, 0), 2048);
    // rarer terms get larger idf
    assert!(idf_fixed(100, 1) > idf_fixed(100, 50));
    assert!(idf_fixed(100, 50) > idf_fixed(100, 100));
}

#[test]
fn bm25_exact_score_at_average_length() {
    // idf = 1.0, avg = 1.0, len = 1, tf = 1:
    // len_norm = (1 - b) + b = 1.0; tf_norm = (1 + k1) / (1 + k1) = 1.0;
    // score = idf * tf_norm = 1.0
    let w = default_weight(SCORE_SCALE, SCORE_SCALE);
    assert_eq!(w.score(1, 1), SCORE_SCALE);
}

#[test]
fn bm25_zero_term_frequency_scores_zero() {
    let w = default_weight(2048, 7680);
    assert_eq!(w.score(5, 0), 0);
}

#[test]
fn score_and_explain_agree_for_all_sampled_inputs() {
    let weights = [
        default_weight(1024, 1024),
        default_weight(269, 7680),
        default_weight(35000, 255 * 1024),
        BM25Weight { idf_fp: 2048, avg_len_fp: 512, params: BM25Params::new(16384, 0) },
        BM25Weight { idf_fp: 1, avg_len_fp: 1, params: BM25Params::new(1, 1024) },
    ];
    for w in weights {
        for fieldnorm_id in [0u8, 1, 2, 5, 10, 127, 255] {
            for term_freq in [0u32, 1, 2, 3, 100, 1_000_000, u32::MAX] {
                let s = w.score(fieldnorm_id, term_freq);
                let e = w.explain(fieldnorm_id, term_freq);
                assert_eq!(e.value, s, "diverged at ({fieldnorm_id}, {term_freq})");
                assert_eq!(e.value(), s);
            }
        }
    }
}

#[test]
fn explain_breaks_the_score_into_labeled_factors() {
    let w = default_weight(1024, 1024);
    let e = w.explain(1, 1);
    assert_eq!(e.label, ExplanationLabel::TermScore);
    assert_eq!(e.value, 1024);
    assert_eq!(e.details.len(), 2);
    assert_eq!(e.details[0].label, ExplanationLabel::Idf);
    assert_eq!(e.details[0].value, 1024);
    assert_eq!(e.details[1].label, ExplanationLabel::TfNorm);
    assert_eq!(e.details[1].value, 1024);
}

#[test]
fn score_and_explain_agree_through_the_tagged_instance() {
    let any = AnyScoringFunction::Bm25(default_weight(269, 7680));
    for fieldnorm_id in [0u8, 5, 10, 255] {
        for term_freq in [1u32, 2, 9] {
            assert_eq!(any.explain(fieldnorm_id, term_freq).value, any.score(fieldnorm_id, term_freq));
        }
    }
}

#[test]
fn clone_box_duplicates_without_recomputation() {
    let w = default_weight(269, 7680);
    let c = w.clone_box();
    assert_eq!(c.idf_fp, w.idf_fp);
    assert_eq!(c.avg_len_fp, w.avg_len_fp);
    assert_eq!(c.score(5, 2), w.score(5, 2));
    let any = AnyScoringFunction::Bm25(w);
    let any2 = any.clone_box();
    assert_eq!(any2.score(5, 2), any.score(5, 2));
}

#[test]
fn fieldnorm_code_saturates() {
    assert_eq!(fieldnorm_id_of_len(0), 0);
    assert_eq!(fieldnorm_id_of_len(7), 7);
    assert_eq!(fieldnorm_id_of_len(255), 255);
    assert_eq!(fieldnorm_id_of_len(300), 255);
    assert_eq!(fieldnorm_id_of_len(u32::MAX), 255);
}
