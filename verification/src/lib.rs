//! Query-execution core of a search engine: point-range queries compiled
//! through a Query -> Weight -> Scorer pipeline, compact document-id sets,
//! fixed bit sets, and reference-counted sharing of searcher snapshots.

pub mod errors;
pub mod bytes_cmp;
pub mod doc_id_set;
pub mod points;
pub mod point_range;
pub mod reference_manager;
pub mod bits;
pub mod doc_values;
pub mod postings;
pub mod tokenizer;
pub mod numeric;
