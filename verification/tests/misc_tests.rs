//! Value-holder fields, postings arrays, reader slices, numeric decoding
//! and formatting, and the error taxonomy.

use searchcore::doc_values::{SortedNumericDocValuesField, SortedSetDocValuesField};
use searchcore::postings::{over_size, ParallelPostingsArray, ReaderSlice, BYTES_PER_POSTING};
use searchcore::point_range::PointValueType;
use searchcore::numeric::{decode_int_at, decode_long_at, i64_to_dec_string};
use searchcore::errors::Error;
use searchcore::point_range::{PointRangeQuery, POINT_RANGE};

fn encode_int(v: i32) -> Vec<u8> {
    ((v as u32) ^ 0x8000_0000).to_be_bytes().to_vec()
}

fn encode_long(v: i64) -> Vec<u8> {
    ((v as u64) ^ 0x8000_0000_0000_0000).to_be_bytes().to_vec()
}

#[test]
fn numeric_field_round_trips_its_value() {
    let f = SortedNumericDocValuesField::new(&String::from("count"), -42);
    assert_eq!(f.numeric_value(), -42);
    assert_eq!(f.name().as_str(), "count");
}

#[test]
fn set_field_round_trips_its_bytes() {
    let f = SortedSetDocValuesField::new(&String::from("tag"), &vec![1, 2, 3]);
    assert_eq!(f.binary_value(), &vec![1, 2, 3]);
    assert_eq!(f.name().as_str(), "tag");
}

#[test]
fn postings_array_starts_zeroed_and_grows() {
    let mut p = ParallelPostingsArray::new(4);
    assert_eq!(p.size, 4);
    assert_eq!(p.text_starts.len(), 4);
    assert_eq!(p.bytes_per_posting(), BYTES_PER_POSTING);
    p.text_starts[3] = 99;
    p.grow();
    assert!(p.size > 4);
    assert_eq!(p.size, 8); // over_size(5)
    assert_eq!(p.text_starts.len(), p.size);
    assert_eq!(p.text_starts[3], 99);
    assert_eq!(p.int_starts[3], 0);
    // every new slot is zero
    for i in 4..p.size {
        assert_eq!(p.text_starts[i], 0);
        assert_eq!(p.int_starts[i], 0);
        assert_eq!(p.byte_starts[i], 0);
    }
    p.clear();
    assert_eq!(p.size, 0);
}

#[test]
fn postings_array_default_has_two_slots() {
    let p = ParallelPostingsArray::default();
    assert_eq!(p.size, 2);
}

#[test]
fn over_size_gives_headroom() {
    assert_eq!(over_size(0), 8);
    assert_eq!(over_size(7), 8);
    assert!(over_size(8) > 8);
    assert!(over_size(1000) >= 1000 + 125);
}

#[test]
fn reader_slice_holds_its_coordinates() {
    let s = ReaderSlice::new(100, 50, 3);
    assert_eq!(s.start, 100);
    assert_eq!(s.length, 50);
    assert_eq!(s.reader_index, 3);
}

#[test]
fn sortable_int_encoding_round_trips() {
    for v in [i32::MIN, -100, -1, 0, 1, 100, i32::MAX] {
        assert_eq!(decode_int_at(&encode_int(v), 0), v);
    }
}

#[test]
fn sortable_long_encoding_round_trips() {
    for v in [i64::MIN, -100, -1, 0, 1, 100, i64::MAX] {
        assert_eq!(decode_long_at(&encode_long(v), 0), v);
    }
}

#[test]
fn sortable_encoding_orders_as_bytes() {
    // byte-wise order of encodings is numeric order: the contract the
    // per-dimension comparisons rely on
    let values = [i32::MIN, -7, 0, 3, 500, i32::MAX];
    for w in values.windows(2) {
        assert!(encode_int(w[0]) < encode_int(w[1]));
    }
}

#[test]
fn decimal_rendering_is_exact() {
    assert_eq!(i64_to_dec_string(0), "0");
    assert_eq!(i64_to_dec_string(7), "7");
    assert_eq!(i64_to_dec_string(100), "100");
    assert_eq!(i64_to_dec_string(-1), "-1");
    assert_eq!(i64_to_dec_string(-2048), "-2048");
    assert_eq!(i64_to_dec_string(i64::MAX), "9223372036854775807");
    assert_eq!(i64_to_dec_string(i64::MIN), "-9223372036854775808");
}

#[test]
fn format_single_value_renders_integers() {
    let s = PointValueType::Integer.format_single_value(&encode_int(100)).unwrap();
    assert_eq!(s, "100");
    let s = PointValueType::Long.format_single_value(&encode_long(-99)).unwrap();
    assert_eq!(s, "-99");
}

#[test]
fn format_single_value_declines_floating_point() {
    assert!(PointValueType::Float.format_single_value(&vec![0; 4]).is_none());
    assert!(PointValueType::Double.format_single_value(&vec![0; 8]).is_none());
}

#[test]
fn format_bytes_joins_dimensions() {
    let mut packed = encode_int(100);
    packed.extend_from_slice(&encode_int(500));
    let s = PointValueType::Integer.format_bytes(&packed, 4).unwrap();
    assert_eq!(s, "[100, 500]");
    let s = PointValueType::Long.format_bytes(&encode_long(7), 8).unwrap();
    assert_eq!(s, "[7]");
}

#[test]
fn error_variants_carry_their_kind() {
    let e = Error::IllegalArgument(String::from("bad"));
    assert!(e.is_illegal_argument());
    assert!(!e.is_already_closed());
    assert_eq!(e.message(), "bad");
    let e = Error::AlreadyClosed(String::from("done"));
    assert!(e.is_already_closed());
    let e = Error::UnsupportedOperation(String::from("nope"));
    assert_eq!(e.message(), "nope");
}

#[test]
fn query_kind_names_the_kind() {
    let q = PointRangeQuery::new(
        String::from("f"),
        vec![1],
        vec![2],
        1,
        PointValueType::Integer,
    )
        .unwrap();
    assert_eq!(q.query_type(), POINT_RANGE);
    assert_eq!(q.query_type(), "point_range");
}

#[test]
fn description_renders_the_whole_query() {
    let q = PointRangeQuery::new(
        String::from("price"),
        encode_int(100),
        encode_int(500),
        1,
        PointValueType::Integer,
    )
        .unwrap();
    assert_eq!(
        q.description().unwrap(),
        "PointRangeQuery(field: price, type:int, num_dims: 1, bytes_per_dim: 4, lower: [100], upper: [500])"
    );
    let w = q.create_weight(false);
    assert_eq!(
        w.description().unwrap(),
        "PointRangeWeight(field: price, type:int, num_dims: 1, bytes_per_dim: 4, lower: [100], upper: [500])"
    );
}

#[test]
fn kind_names_match_their_kinds() {
    assert_eq!(PointValueType::Integer.kind_name(), "int");
    assert_eq!(PointValueType::Float.kind_name(), "float");
    assert_eq!(PointValueType::Double.kind_name(), "double");
    assert_eq!(PointValueType::Long.kind_name(), "long");
}
