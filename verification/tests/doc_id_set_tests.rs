//! Document-id set accumulation and the cursor protocol.

use searchcore::doc_id_set::{
    AllDocsIterator, DocIdSetBuilder, EmptyDocIterator, NO_MORE_DOCS,
};

#[test]
fn builder_collapses_duplicates_and_sorts() {
    // ids added as [5, 3, 5, 1] enumerate as [1, 3, 5]
    let mut b = DocIdSetBuilder::new(10);
    b.add_doc(5);
    b.add_doc(3);
    b.add_doc(5);
    b.add_doc(1);
    let set = b.build();
    let mut it = set.iterator().unwrap();
    assert_eq!(it.doc_id(), -1);
    assert_eq!(it.next(), 1);
    assert_eq!(it.next(), 3);
    assert_eq!(it.next(), 5);
    assert_eq!(it.next(), NO_MORE_DOCS);
    assert_eq!(it.doc_id(), NO_MORE_DOCS);
}

#[test]
fn empty_builder_builds_empty_set() {
    let b = DocIdSetBuilder::new(16);
    let set = b.build();
    assert_eq!(set.len(), 0);
    assert!(set.iterator().is_none());
}

#[test]
fn grow_hint_changes_nothing() {
    let mut b = DocIdSetBuilder::new(4);
    b.add_doc(2);
    b.grow(100);
    let set = b.build();
    assert_eq!(set.len(), 1);
}

#[test]
fn iterator_advance_is_monotonic() {
    let mut b = DocIdSetBuilder::new(100);
    for d in [2, 20, 40, 60, 80] {
        b.add_doc(d);
    }
    let set = b.build();
    let mut it = set.iterator().unwrap();
    assert_eq!(it.advance(0), 2);
    assert_eq!(it.advance(20), 20);
    assert_eq!(it.advance(21), 40);
    assert_eq!(it.slow_advance(79), 80);
    assert_eq!(it.advance(81), NO_MORE_DOCS);
}

#[test]
fn iterator_cost_is_exact() {
    let mut b = DocIdSetBuilder::new(100);
    for d in [1, 2, 3] {
        b.add_doc(d);
    }
    let set = b.build();
    let it = set.iterator().unwrap();
    assert_eq!(it.cost(), 3);
}

#[test]
fn two_phase_confirmation_always_succeeds() {
    let mut b = DocIdSetBuilder::new(10);
    b.add_doc(7);
    let set = b.build();
    let mut it = set.iterator().unwrap();
    assert_eq!(it.approximate_next(), 7);
    assert!(it.matches());
    assert_eq!(it.approximate_advance(8), NO_MORE_DOCS);
}

#[test]
fn all_docs_iterator_enumerates_every_id() {
    let mut it = AllDocsIterator::new(3);
    assert_eq!(it.doc_id(), -1);
    assert_eq!(it.next(), 0);
    assert_eq!(it.next(), 1);
    assert_eq!(it.next(), 2);
    assert_eq!(it.next(), NO_MORE_DOCS);
    assert_eq!(it.cost(), 3);
}

#[test]
fn all_docs_iterator_advance() {
    let mut it = AllDocsIterator::new(10);
    assert_eq!(it.advance(4), 4);
    assert_eq!(it.advance(10), NO_MORE_DOCS);
}

#[test]
fn empty_iterator_has_no_matches() {
    let mut it = EmptyDocIterator::new();
    assert_eq!(it.doc_id(), -1);
    assert_eq!(it.cost(), 0);
    assert_eq!(it.next(), NO_MORE_DOCS);
    let mut it2 = EmptyDocIterator::default();
    assert_eq!(it2.advance(5), NO_MORE_DOCS);
}

#[test]
fn builder_handles_boundary_ids() {
    let mut b = DocIdSetBuilder::new(3);
    b.add_doc(0);
    b.add_doc(2);
    let set = b.build();
    let mut it = set.iterator().unwrap();
    assert_eq!(it.next(), 0);
    assert_eq!(it.next(), 2);
    assert_eq!(it.next(), NO_MORE_DOCS);
}
