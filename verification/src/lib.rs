//! Query evaluation for single-term full-text search queries.
//!
//! This crate implements the `Query -> Weight -> Scorer` evaluation chain of a
//! search engine core: a [`term_query::TermQuery`] is bound to collection-wide
//! statistics from a [`searcher::Searcher`], yielding a
//! [`term_weight::TermWeight`]; the weight opens per-segment postings and wraps
//! them in a [`term_scorer::TermScorer`], a forward-only cursor that yields a
//! relevance score and a labeled explanation at each matching document, and can
//! count matches while respecting deleted documents.
//!
//! Scores are fixed-point integers (see [`types::Score`]), so the whole scoring
//! path, including a BM25 implementation with an integer binary logarithm, is
//! verified: score and explanation are proved to agree, iteration is proved
//! monotonic, and both counting paths are proved consistent.

pub mod bm25;
pub mod explanation;
pub mod log2;
pub mod postings;
pub mod scoringfunction;
pub mod searcher;
pub mod segment;
pub mod term;
pub mod term_query;
pub mod term_scorer;
pub mod term_weight;
pub mod types;
