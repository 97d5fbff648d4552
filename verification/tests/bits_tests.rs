//! The bit-set family: cardinality against pointwise bits, the words
//! sizing formula, and the inherited meaning of "empty".

use searchcore::bits::{FixedBits, LiveBits, MatchAllBits, MatchNoBits};
use std::sync::Arc;

fn random_bitmap(num_bits: usize, seed: u64) -> (Vec<u64>, Vec<bool>) {
    let words = FixedBits::bits_2_words(num_bits);
    let mut state = seed;
    let mut out = vec![0u64; words];
    let mut reference = vec![false; num_bits];
    for i in 0..num_bits {
        state = state.wrapping_mul(6364136223846793005).wrapping_add(1442695040888963407);
        if (state >> 40) & 1 == 1 {
            out[i / 64] |= 1u64 << (i % 64);
            reference[i] = true;
        }
    }
    (out, reference)
}

#[test]
fn cardinality_equals_pointwise_count() {
    // bitmaps of the boundary lengths, pseudo-random contents
    for (k, num_bits) in [0usize, 1, 63, 64, 65, 4096].iter().enumerate() {
        let (words, reference) = random_bitmap(*num_bits, 0x9e37_79b9 + k as u64);
        let bits = FixedBits::new(Arc::new(words), *num_bits);
        let expected = (0..*num_bits).filter(|i| bits.get(*i)).count();
        assert_eq!(bits.cardinality(), expected);
        assert_eq!(expected, reference.iter().filter(|b| **b).count());
    }
}

#[test]
fn get_reads_the_marked_bits() {
    let (words, reference) = random_bitmap(200, 42);
    let bits = FixedBits::new(Arc::new(words), 200);
    for i in 0..200 {
        assert_eq!(bits.get(i), reference[i]);
    }
}

#[test]
fn words_sizing_formula() {
    assert_eq!(FixedBits::bits_2_words(0), 0);
    assert_eq!(FixedBits::bits_2_words(1), 1);
    assert_eq!(FixedBits::bits_2_words(63), 1);
    assert_eq!(FixedBits::bits_2_words(64), 1);
    assert_eq!(FixedBits::bits_2_words(65), 2);
    assert_eq!(FixedBits::bits_2_words(4096), 64);
}

#[test]
fn fixed_bits_length_and_emptiness() {
    let bits = FixedBits::new(Arc::new(vec![0u64]), 10);
    assert_eq!(bits.length(), 10);
    assert_eq!(bits.len(), 10);
    assert!(!bits.is_empty());
    let none = FixedBits::new(Arc::new(Vec::new()), 0);
    assert!(none.is_empty());
}

#[test]
fn shared_backing_is_observed_by_all_readers() {
    let backing = Arc::new(vec![0b1011u64]);
    let a = FixedBits::new(backing.clone(), 4);
    let b = FixedBits::new(backing, 4);
    for i in 0..4 {
        assert_eq!(a.get(i), b.get(i));
    }
    assert_eq!(a.cardinality(), 3);
}

#[test]
fn match_all_is_empty_by_convention() {
    // the inherited quirk: "empty" means "no set bits guaranteed", and the
    // match-all variant reports true just as the match-none variant does
    let all = MatchAllBits::new(5);
    assert_eq!(all.len(), 5);
    assert!(all.get(3));
    assert!(all.is_empty());
    assert_eq!(all.id(), 1);
    let none = MatchNoBits::new(5);
    assert_eq!(none.len(), 5);
    assert!(!none.get(3));
    assert!(none.is_empty());
}

#[test]
fn live_bits_reads_single_bytes() {
    // bits 0, 3 and 9 set: bytes 0b0000_1001, 0b0000_0010
    let live = LiveBits::new(vec![0b0000_1001, 0b0000_0010], 10).unwrap();
    assert_eq!(live.len(), 10);
    let expected = [true, false, false, true, false, false, false, false, false, true];
    for i in 0..10 {
        assert_eq!(live.get(i), expected[i]);
    }
}

#[test]
fn live_bits_rejects_short_backing() {
    assert!(LiveBits::new(vec![0u8], 10).is_err());
    assert!(LiveBits::new(vec![], 0).is_ok());
}
