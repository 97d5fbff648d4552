//! The point-range query pipeline end to end: construction, schema
//! validation, the all-docs short circuit, and matching semantics checked
//! against brute force.

use searchcore::point_range::{PointRangeQuery, PointRangeScorer, PointValueType, Relation};
use searchcore::point_range::PointRangeIntersectVisitor;
use searchcore::points::{FieldInfo, LeafReader, PointEntry, PointValues};
use searchcore::doc_id_set::{DocIdSetBuilder, NO_MORE_DOCS};

fn encode_int(v: i32) -> Vec<u8> {
    ((v as u32) ^ 0x8000_0000).to_be_bytes().to_vec()
}

fn drain(scorer: &mut PointRangeScorer) -> Vec<i32> {
    let mut out = Vec::new();
    loop {
        let d = scorer.next();
        if d == NO_MORE_DOCS {
            break;
        }
        out.push(d);
    }
    out
}

fn price_leaf() -> LeafReader {
    // 10 documents with ascending prices from 50 to 550; exactly the 8
    // between 100 and 500 inclusive fall inside the scenario's range
    let mut points = Vec::new();
    for doc in 0..10 {
        let price = if doc == 9 { 550 } else { 50 * (doc + 1) };
        points.push(PointEntry { doc, packed: encode_int(price) });
    }
    let values = PointValues::new(points, 1, 4).unwrap();
    LeafReader::new(10, String::from("price"), Some(FieldInfo {
        point_dimension_count: 1,
        point_num_bytes: 4,
    }), Some(values))
        .unwrap()
}

fn price_query(lower: i32, upper: i32) -> PointRangeQuery {
    PointRangeQuery::new(
        String::from("price"),
        encode_int(lower),
        encode_int(upper),
        1,
        PointValueType::Integer,
    )
        .unwrap()
}

#[test]
fn construction_succeeds_on_valid_bounds() {
    let q = PointRangeQuery::new(
        String::from("f"),
        vec![0, 1, 2, 3],
        vec![4, 5, 6, 7],
        2,
        PointValueType::Integer,
    );
    let q = q.unwrap();
    assert_eq!(q.num_dims, 2);
    assert_eq!(q.bytes_per_dim, 2);
}

#[test]
fn construction_rejects_unequal_lengths() {
    let r = PointRangeQuery::new(
        String::from("f"),
        vec![0, 1, 2, 3],
        vec![4, 5],
        1,
        PointValueType::Integer,
    );
    assert!(r.err().unwrap().is_illegal_argument());
}

#[test]
fn construction_rejects_non_multiple_of_dims() {
    let r = PointRangeQuery::new(
        String::from("f"),
        vec![0, 1, 2],
        vec![4, 5, 6],
        2,
        PointValueType::Integer,
    );
    assert!(r.err().unwrap().is_illegal_argument());
}

#[test]
fn construction_rejects_empty_bounds() {
    let r = PointRangeQuery::new(String::from("f"), vec![], vec![], 1, PointValueType::Integer);
    assert!(r.err().unwrap().is_illegal_argument());
    let r = PointRangeQuery::new(
        String::from("f"),
        vec![1],
        vec![],
        1,
        PointValueType::Integer,
    );
    assert!(r.err().unwrap().is_illegal_argument());
}

#[test]
fn construction_rejects_empty_field() {
    let r = PointRangeQuery::new(
        String::new(),
        vec![1],
        vec![2],
        1,
        PointValueType::Integer,
    );
    assert!(r.err().unwrap().is_illegal_argument());
}

#[test]
fn construction_keeps_the_value_type() {
    let q = PointRangeQuery::new(
        String::from("f"),
        vec![0; 8],
        vec![1; 8],
        1,
        PointValueType::Long,
    )
        .unwrap();
    assert!(matches!(q.value_type, PointValueType::Long));
    let w = q.create_weight(false);
    assert!(matches!(w.value_type, PointValueType::Long));
}

#[test]
fn construction_rejects_zero_dims() {
    let r = PointRangeQuery::new(
        String::from("f"),
        vec![1],
        vec![2],
        0,
        PointValueType::Integer,
    );
    assert!(r.err().unwrap().is_illegal_argument());
}

#[test]
fn price_range_scenario() {
    // query [100, 500] over prices 50..=550 matches exactly the 8 documents
    // with prices 100..=500, in ascending document-id order
    let leaf = price_leaf();
    let weight = price_query(100, 500).create_weight(false);
    let mut scorer = weight.create_scorer(&leaf).unwrap().unwrap();
    assert_eq!(drain(&mut scorer), vec![1, 2, 3, 4, 5, 6, 7, 8]);
}

#[test]
fn all_docs_short_circuit_has_exact_cost_and_enumeration() {
    // bounds covering the leaf's whole range short-circuit to an all-docs
    // cursor whose cost is max_doc and which enumerates 0..max_doc
    let leaf = price_leaf();
    let weight = price_query(0, 1000).create_weight(false);
    let mut scorer = weight.create_scorer(&leaf).unwrap().unwrap();
    assert_eq!(scorer.cost(), 10);
    assert_eq!(drain(&mut scorer), (0..10).collect::<Vec<i32>>());
}

#[test]
fn no_match_range_yields_empty_cursor() {
    let leaf = price_leaf();
    let weight = price_query(551, 600).create_weight(false);
    let mut scorer = weight.create_scorer(&leaf).unwrap().unwrap();
    assert_eq!(scorer.cost(), 0);
    assert_eq!(drain(&mut scorer), Vec::<i32>::new());
}

#[test]
fn schema_mismatch_fails_at_scorer_creation() {
    let leaf = price_leaf();
    let q = PointRangeQuery::new(
        String::from("price"),
        vec![0; 8],
        vec![0xff; 8],
        2,
        PointValueType::Integer,
    )
        .unwrap();
    let r = q.create_weight(false).create_scorer(&leaf);
    let e = r.err().unwrap();
    assert!(e.is_illegal_argument());
    // the error names the field and both dimensionalities
    assert_eq!(
        e.message(),
        "field \"price\" was indexed with numDims=1 but this query has numDims=2"
    );
}

#[test]
fn schema_mismatch_names_the_byte_widths() {
    let leaf = price_leaf();
    let q = PointRangeQuery::new(
        String::from("price"),
        vec![0; 8],
        vec![0xff; 8],
        1,
        PointValueType::Long,
    )
        .unwrap();
    let e = q.create_weight(false).create_scorer(&leaf).err().unwrap();
    assert_eq!(
        e.message(),
        "field \"price\" was indexed with bytesPerDim=4 but this query has bytesPerDim=8"
    );
}

#[test]
fn unknown_field_yields_no_scorer() {
    let leaf = price_leaf();
    let weight = PointRangeQuery::new(
        String::from("weight"),
        encode_int(0),
        encode_int(10),
        1,
        PointValueType::Integer,
    )
        .unwrap()
        .create_weight(false);
    assert!(weight.create_scorer(&leaf).unwrap().is_none());
}

#[test]
fn scorer_advance_skips_to_target() {
    let leaf = price_leaf();
    let weight = price_query(100, 500).create_weight(false);
    let mut scorer = weight.create_scorer(&leaf).unwrap().unwrap();
    assert_eq!(scorer.next(), 1);
    assert_eq!(scorer.advance(5), 5);
    assert_eq!(scorer.next(), 6);
    assert_eq!(scorer.advance(100), NO_MORE_DOCS);
}

#[test]
fn matches_against_brute_force_on_random_points() {
    // deterministic pseudo-random 2-dimensional points, 2 bytes per
    // dimension; the produced cursor must agree with a per-document scan
    let mut seed: u64 = 0x2545_f491_4f6c_dd1d;
    let mut next_byte = move || {
        seed = seed.wrapping_mul(6364136223846793005).wrapping_add(1442695040888963407);
        (seed >> 33) as u8
    };
    let max_doc = 64;
    let mut packed_per_doc: Vec<Vec<u8>> = Vec::new();
    let mut points = Vec::new();
    for doc in 0..max_doc {
        let packed: Vec<u8> = (0..4).map(|_| next_byte()).collect();
        packed_per_doc.push(packed.clone());
        points.push(PointEntry { doc, packed });
    }
    let values = PointValues::new(points, 2, 2).unwrap();
    let leaf = LeafReader::new(max_doc, String::from("pt"), Some(FieldInfo {
        point_dimension_count: 2,
        point_num_bytes: 2,
    }), Some(values))
        .unwrap();
    let lower = vec![0x20, 0x00, 0x10, 0x00];
    let upper = vec![0xd0, 0xff, 0xe0, 0xff];
    let q = PointRangeQuery::new(
        String::from("pt"),
        lower.clone(),
        upper.clone(),
        2,
        PointValueType::Integer,
    )
        .unwrap();
    let mut scorer = q.create_weight(false).create_scorer(&leaf).unwrap().unwrap();
    let got = drain(&mut scorer);
    let mut expected = Vec::new();
    for doc in 0..max_doc {
        let p = &packed_per_doc[doc as usize];
        let in_range = (0..2).all(|d| {
            let w = &p[2 * d..2 * d + 2];
            let lo = &lower[2 * d..2 * d + 2];
            let up = &upper[2 * d..2 * d + 2];
            lo <= w && w <= up
        });
        if in_range {
            expected.push(doc);
        }
    }
    assert_eq!(got, expected);
}

#[test]
fn compare_classifies_node_ranges() {
    // a visitor for bounds [0x40, 0x80] in one 1-byte dimension
    let builder = DocIdSetBuilder::new(4);
    let weight = PointRangeQuery::new(
        String::from("f"),
        vec![0x40],
        vec![0x80],
        1,
        PointValueType::Integer,
    );
    // 1-byte dims cannot come from the integer encoding helpers; build the
    // weight directly from raw bounds
    let weight = weight.unwrap().create_weight(false);
    let visitor = PointRangeIntersectVisitor::new(builder, &weight);
    // node entirely below the lower bound: outside
    assert!(visitor.compare(&vec![0x00], &vec![0x3f]) == Relation::CellOutsideQuery);
    // node entirely above the upper bound: outside
    assert!(visitor.compare(&vec![0x81], &vec![0xff]) == Relation::CellOutsideQuery);
    // node entirely within the bounds: inside
    assert!(visitor.compare(&vec![0x40], &vec![0x80]) == Relation::CellInsideQuery);
    assert!(visitor.compare(&vec![0x50], &vec![0x60]) == Relation::CellInsideQuery);
    // node overlapping the boundary: crosses
    assert!(visitor.compare(&vec![0x00], &vec![0x50]) == Relation::CellCrossesQuery);
    assert!(visitor.compare(&vec![0x50], &vec![0xff]) == Relation::CellCrossesQuery);
}

#[test]
fn outside_node_contributes_no_documents() {
    // every price lies above the query range: zero documents
    let leaf = price_leaf();
    let weight = price_query(0, 49).create_weight(false);
    let mut scorer = weight.create_scorer(&leaf).unwrap().unwrap();
    assert_eq!(drain(&mut scorer), Vec::<i32>::new());
}

#[test]
fn inside_node_accepts_every_document() {
    // the query covers all prices but doc_count stays max_doc, so either
    // path must accept every document
    let leaf = price_leaf();
    let weight = price_query(50, 550).create_weight(false);
    let mut scorer = weight.create_scorer(&leaf).unwrap().unwrap();
    assert_eq!(drain(&mut scorer), (0..10).collect::<Vec<i32>>());
}

#[test]
fn visit_by_packed_value_rejects_on_first_violating_dimension() {
    let builder = DocIdSetBuilder::new(8);
    let weight = PointRangeQuery::new(
        String::from("f"),
        vec![0x10, 0x20],
        vec![0x30, 0x40],
        2,
        PointValueType::Integer,
    )
        .unwrap()
        .create_weight(false);
    let mut visitor = PointRangeIntersectVisitor::new(builder, &weight);
    visitor.visit_by_packed_value(0, &vec![0x00, 0x30]); // dim 0 below: rejected
    visitor.visit_by_packed_value(1, &vec![0x20, 0x50]); // dim 1 above: rejected
    visitor.visit_by_packed_value(2, &vec![0x20, 0x30]); // inside: accepted
    visitor.visit(3);
    let set = visitor.into_builder().build();
    let mut it = set.iterator().unwrap();
    assert_eq!(it.next(), 2);
    assert_eq!(it.next(), 3);
    assert_eq!(it.next(), NO_MORE_DOCS);
}

#[test]
fn weight_reports_query_kind_and_scoring() {
    let w = price_query(1, 2).create_weight(false);
    assert_eq!(w.query_type(), "point_range");
    assert!(!w.needs_scores());
    assert!(matches!(
        w.explain(0).err().unwrap(),
        searchcore::errors::Error::UnsupportedOperation(_)
    ));
}
