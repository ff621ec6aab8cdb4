use termscore::postings::{InvertedIndex, SegmentPostings, TermPostings};
use termscore::scoringfunction::{ScoringFunctionKind, ScoringSettings};
use termscore::searcher::Searcher;
use termscore::segment::{DeleteBitset, FieldNormReader, SegmentField, SegmentReader};
use termscore::term::{Term, TermSet};
use termscore::term_query::TermQuery;
use termscore::types::{IndexRecordOption, QueryError, SkipResult};
use termscore::bm25::BM25Params;

const DIARY: u64 = 1;

/// One segment with one text field: `docs[i]` holds (term value, frequency)
/// pairs of document `i`, `lens[i]` its token count.
fn segment(postings: Vec<(u64, Vec<(u32, u32)>)>, lens: Vec<u32>, deleted: Option<Vec<bool>>) -> SegmentReader {
    let max_doc = lens.len() as u32;
    let entries = postings
        .into_iter()
        .map(|(value, docs_freqs)| TermPostings {
            term: Term::new(0, value),
            docs: docs_freqs.iter().map(|df| df.0).collect(),
            freqs: docs_freqs.iter().map(|df| df.1).collect(),
        })
        .collect();
    let norms = lens
        .iter()
        .map(|len| if *len > 255 { 255u8 } else { *len as u8 })
        .collect();
    let field = SegmentField {
        inverted_index: InvertedIndex { entries },
        fieldnorms: FieldNormReader::new(norms),
    };
    SegmentReader::new(max_doc, vec![field], deleted.map(DeleteBitset::new))
}

/// Doc A (id 0): "diary" twice in a 5-token field; doc B (id 1): "diary"
/// once in a 10-token field.
fn two_doc_searcher() -> Searcher {
    let seg = segment(vec![(DIARY, vec![(0, 2), (1, 1)])], vec![5, 10], None);
    Searcher::new(1, vec![seg])
}

fn diary_query() -> TermQuery {
    TermQuery::new(Term::new(0, DIARY), IndexRecordOption::WithFreqs)
}

#[test]
fn end_to_end_two_documents() {
    let searcher = two_doc_searcher();
    let weight = diary_query().specialized_weight(&searcher, None);
    let reader = &searcher.segments()[0];

    let mut scorer = weight.scorer_specialized(reader).unwrap();
    assert!(scorer.advance());
    assert_eq!(scorer.doc(), 0);
    let score_a = scorer.score();
    assert_eq!(scorer.explain().value, score_a);
    assert!(scorer.advance());
    assert_eq!(scorer.doc(), 1);
    let score_b = scorer.score();
    assert_eq!(scorer.explain().value, score_b);
    assert!(!scorer.advance());

    // both strictly positive; the shorter field with the higher frequency wins
    assert!(score_b > 0);
    assert!(score_a > score_b, "{score_a} <= {score_b}");

    // a term present in neither document: exhausted on the first advance, count 0
    let other = TermQuery::new(Term::new(0, 999), IndexRecordOption::WithFreqs);
    let w2 = other.specialized_weight(&searcher, None);
    let mut s2 = w2.scorer_specialized(reader).unwrap();
    assert!(!s2.advance());
    assert_eq!(w2.count(reader).unwrap(), 0);
}

#[test]
fn skip_next_walks_forward_and_sticks_at_the_end() {
    let mut sp = SegmentPostings::new(vec![2, 5, 9], vec![1, 1, 1]);
    assert_eq!(sp.skip_next(1), SkipResult::OverStep);
    assert_eq!(sp.doc(), 2);
    assert_eq!(sp.skip_next(5), SkipResult::Reached);
    assert_eq!(sp.doc(), 5);
    assert_eq!(sp.skip_next(6), SkipResult::OverStep);
    assert_eq!(sp.doc(), 9);
    assert_eq!(sp.skip_next(9), SkipResult::Reached);
    assert_eq!(sp.doc(), 9);
    assert_eq!(sp.skip_next(10), SkipResult::End);
    assert_eq!(sp.skip_next(3), SkipResult::End);
    assert_eq!(sp.skip_next(u32::MAX), SkipResult::End);
}

#[test]
fn skip_next_reaches_the_first_document() {
    let mut sp = SegmentPostings::new(vec![4, 7], vec![1, 1]);
    assert_eq!(sp.skip_next(4), SkipResult::Reached);
    assert_eq!(sp.doc(), 4);
}

#[test]
fn empty_postings_end_immediately() {
    let mut sp = SegmentPostings::empty();
    assert!(!sp.advance());
    let mut sp = SegmentPostings::empty();
    assert_eq!(sp.skip_next(0), SkipResult::End);
}

#[test]
fn count_respects_deletions() {
    // three matching documents, the middle one deleted
    let seg = segment(
        vec![(DIARY, vec![(0, 1), (1, 2), (2, 1)])],
        vec![3, 3, 3],
        Some(vec![false, true, false]),
    );
    let searcher = Searcher::new(1, vec![seg]);
    let weight = diary_query().specialized_weight(&searcher, None);
    assert_eq!(weight.count(&searcher.segments()[0]).unwrap(), 2);
}

#[test]
fn count_paths_agree_without_deletions() {
    let data = vec![(DIARY, vec![(0u32, 1u32), (2, 2), (4, 1)])];
    let lens = vec![3, 3, 3, 3, 3];
    // no deletion record: the stored document frequency is read directly
    let seg_plain = segment(data.clone(), lens.clone(), None);
    // an empty deletion record: the scorer is iterated and live documents counted
    let seg_empty_dels = segment(data, lens, Some(vec![false; 5]));
    let searcher = Searcher::new(1, vec![seg_plain]);
    let searcher2 = Searcher::new(1, vec![seg_empty_dels]);
    let w1 = diary_query().specialized_weight(&searcher, None);
    let w2 = diary_query().specialized_weight(&searcher2, None);
    let c1 = w1.count(&searcher.segments()[0]).unwrap();
    let c2 = w2.count(&searcher2.segments()[0]).unwrap();
    assert_eq!(c1, 3);
    assert_eq!(c2, 3);
}

#[test]
fn disabled_scoring_keeps_the_matches_and_downgrades_the_option() {
    let searcher = two_doc_searcher();
    let reader = &searcher.segments()[0];
    let enabled = diary_query().specialized_weight(&searcher, None);
    let disabled_settings = ScoringSettings {
        enabled: false,
        function: ScoringFunctionKind::Bm25(BM25Params::default()),
    };
    let disabled = diary_query().specialized_weight(&searcher, Some(disabled_settings));

    assert_eq!(enabled.index_record_option, IndexRecordOption::WithFreqs);
    assert_eq!(disabled.index_record_option, IndexRecordOption::Basic);

    let collect = |w: &termscore::term_weight::TermWeight| {
        let mut docs = Vec::new();
        let mut s = w.scorer_specialized(reader).unwrap();
        while s.advance() {
            docs.push(s.doc());
        }
        docs
    };
    assert_eq!(collect(&enabled), collect(&disabled));
    assert_eq!(enabled.count(reader).unwrap(), disabled.count(reader).unwrap());
}

#[test]
fn rederived_scorers_yield_identical_scored_sequences() {
    let searcher = two_doc_searcher();
    let reader = &searcher.segments()[0];
    let weight = diary_query().specialized_weight(&searcher, None);
    // a weight is a plain value: copying it re-derives nothing
    let clone = weight.clone();

    let drive = |w: &termscore::term_weight::TermWeight| {
        let mut pairs = Vec::new();
        let mut s = w.scorer_specialized(reader).unwrap();
        while s.advance() {
            pairs.push((s.doc(), s.score()));
        }
        pairs
    };
    let a = drive(&weight);
    let b = drive(&weight);
    let c = drive(&clone);
    assert_eq!(a, b);
    assert_eq!(a, c);
    assert_eq!(a.len(), 2);
}

#[test]
fn explain_matches_only_matched_documents() {
    let searcher = two_doc_searcher();
    let reader = &searcher.segments()[0];
    let weight = diary_query().specialized_weight(&searcher, None);

    let e = weight.explain(reader, 0).unwrap();
    let mut s = weight.scorer_specialized(reader).unwrap();
    assert!(s.advance());
    assert_eq!(e.value, s.score());

    // present in the segment but not this document's id
    let miss = weight.explain(reader, 7);
    assert_eq!(miss.unwrap_err(), QueryError::DoesNotMatch { doc: 7 });
}

#[test]
fn weight_reports_a_missing_field() {
    let searcher = two_doc_searcher();
    let bad = TermQuery::new(Term::new(5, DIARY), IndexRecordOption::Basic);
    let err = bad.weight(&searcher, None).unwrap_err();
    assert_eq!(err, QueryError::FieldDoesNotExist { field: 5 });

    let good = diary_query();
    assert!(good.weight(&searcher, None).is_ok());
}

#[test]
fn query_accessors_and_equality() {
    let q = diary_query();
    assert_eq!(*q.term(), Term::new(0, DIARY));
    assert_eq!(q, TermQuery::new(Term::new(0, DIARY), IndexRecordOption::WithFreqs));
    let copy = q.clone();
    assert_eq!(copy, q);
}

#[test]
fn query_terms_reports_the_single_term_once() {
    let q = diary_query();
    let mut set = TermSet::new();
    q.query_terms(&mut set);
    q.query_terms(&mut set);
    assert_eq!(set.len(), 1);
    assert!(set.contains(&Term::new(0, DIARY)));
    assert!(!set.contains(&Term::new(0, 2)));

    let other = TermQuery::new(Term::new(0, 2), IndexRecordOption::Basic);
    other.query_terms(&mut set);
    assert_eq!(set.len(), 2);
}

#[test]
fn a_term_in_one_of_two_segments() {
    // the term lives only in the second segment; the first yields an empty
    // scorer and a zero count, with no error
    let seg_without = segment(vec![], vec![4, 4], None);
    let seg_with = segment(vec![(DIARY, vec![(0, 1)])], vec![4], None);
    let searcher = Searcher::new(1, vec![seg_without, seg_with]);
    let weight = diary_query().specialized_weight(&searcher, None);

    let mut s0 = weight.scorer_specialized(&searcher.segments()[0]).unwrap();
    assert!(!s0.advance());
    assert_eq!(weight.count(&searcher.segments()[0]).unwrap(), 0);

    let mut s1 = weight.scorer_specialized(&searcher.segments()[1]).unwrap();
    assert!(s1.advance());
    assert_eq!(s1.doc(), 0);
    assert!(s1.score() > 0);
    assert_eq!(weight.count(&searcher.segments()[1]).unwrap(), 1);
}

#[test]
fn basic_detail_level_reads_a_frequency_of_one() {
    let seg = segment(vec![(DIARY, vec![(0, 6)])], vec![6], None);
    let searcher = Searcher::new(1, vec![seg]);
    let basic = TermQuery::new(Term::new(0, DIARY), IndexRecordOption::Basic);
    let weight = basic.specialized_weight(&searcher, None);
    let mut s = weight.scorer_specialized(&searcher.segments()[0]).unwrap();
    assert!(s.advance());
    assert_eq!(s.term_freq(), 1);
}

#[test]
fn scorer_count_counts_the_remainder() {
    let seg = segment(vec![(DIARY, vec![(0, 1), (1, 1), (2, 1)])], vec![2, 2, 2], None);
    let searcher = Searcher::new(1, vec![seg]);
    let weight = diary_query().specialized_weight(&searcher, None);
    let mut s = weight.scorer_specialized(&searcher.segments()[0]).unwrap();
    assert!(s.advance());
    // the current position is consumed; counting tallies what advancing still visits
    let none_deleted = DeleteBitset::new(vec![false, false, false]);
    assert_eq!(s.count(&none_deleted), 2);
}
