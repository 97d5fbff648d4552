//! Accumulation of matched document ids into a compact set, and the cursor
//! family that enumerates such sets in ascending order.
//!
//! A `DocIdSetBuilder` takes document ids in any order, collapsing
//! duplicates; `build` finalizes it into a `DocIdSet` that enumerates in
//! strictly ascending order. The iterators share one protocol: `doc_id` is
//! the current position (`-1` before the first advance, `NO_MORE_DOCS` when
//! exhausted), `next` advances by exactly one match, `advance` moves to the
//! first match at or beyond a target, and `cost` estimates the number of
//! matches. The two-phase operations `approximate_next`,
//! `approximate_advance` and `matches` are trivial here: these iterators
//! enumerate exact matches, so confirmation always succeeds.

use vstd::prelude::*;
use vstd::pervasive::VecAdditionalExecFns;

verus! {

/// Sentinel document id meaning the cursor is exhausted.
pub const NO_MORE_DOCS: i32 = 0x7fff_ffff;

/// A strictly ascending sequence of document ids.
pub open spec fn strictly_sorted(s: Seq<i32>) -> bool {
    forall|i: int, j: int| 0 <= i < j < s.len() ==> s[i] < s[j]
}

/// The ids set to true among the first `n` slots of `bits`, written as the
/// list that enumerates them in ascending order.
pub open spec fn marked_docs(bits: Seq<bool>, n: int) -> Seq<i32>
    decreases n,
{
    if n <= 0 {
        Seq::empty()
    } else if bits[n - 1] {
        marked_docs(bits, n - 1).push((n - 1) as i32)
    } else {
        marked_docs(bits, n - 1)
    }
}

/// `marked_docs` enumerates exactly the marked slots, in strictly ascending
/// order.
pub proof fn lemma_marked_docs(bits: Seq<bool>, n: int)
    requires
        0 <= n <= bits.len(),
        n <= 0x7fff_ffff,
    ensures
        strictly_sorted(marked_docs(bits, n)),
        marked_docs(bits, n).len() <= n,
        forall|k: int|
            0 <= k < marked_docs(bits, n).len() ==> 0 <= #[trigger] marked_docs(bits, n)[k] < n
                && bits[marked_docs(bits, n)[k] as int],
        forall|d: i32| 0 <= d < n && bits[d as int] ==> #[trigger] marked_docs(bits, n).contains(d),
    decreases n,
{
    if n > 0 {
        lemma_marked_docs(bits, n - 1);
        let prev = marked_docs(bits, n - 1);
        let cur = marked_docs(bits, n);
        if bits[n - 1] {
            assert(cur == prev.push((n - 1) as i32));
            assert forall|k: int|
                0 <= k < cur.len() implies 0 <= #[trigger] cur[k] < n && bits[cur[k] as int] by {
                if k < prev.len() {
                    assert(cur[k] == prev[k]);
                } else {
                    assert(cur[k] == (n - 1) as i32);
                }
            }
            assert forall|i: int, j: int| 0 <= i < j < cur.len() implies cur[i] < cur[j] by {
                if j < prev.len() {
                    assert(cur[i] == prev[i] && cur[j] == prev[j]);
                } else {
                    assert(cur[i] == prev[i] && cur[j] == (n - 1) as i32);
                }
            }
        }
        assert forall|d: i32| 0 <= d < n && bits[d as int] implies #[trigger] cur.contains(d) by {
            if d < n - 1 {
                assert(prev.contains(d));
                let k = choose|k: int| 0 <= k < prev.len() && prev[k] == d;
                assert(cur[k] == d);
            } else {
                assert(bits[n - 1]);
                assert(cur[cur.len() - 1] == d);
            }
        }
    }
}

/// Mutable accumulator of matched document ids. Ids may arrive in any order
/// and duplicates collapse; `build` finalizes into a `DocIdSet`. Storage is
/// dense, sized once against the segment's total document count.
pub struct DocIdSetBuilder {
    /// One slot per document id; a true slot marks an added id.
    pub bits: Vec<bool>,
}

impl DocIdSetBuilder {
    /// Number of document ids this builder can accept: ids `0..max_doc`.
    pub open spec fn spec_max_doc(&self) -> int {
        self.bits@.len() as int
    }

    /// Well-formed: sized by a document count that fits a document id.
    pub open spec fn wf(&self) -> bool {
        self.bits@.len() <= 0x7fff_ffff
    }

    /// The set of document ids added so far.
    pub open spec fn docs(&self) -> Set<int> {
        Set::new(|d: int| 0 <= d < self.bits@.len() && self.bits@[d])
    }

    /// A fresh builder for a segment of `max_doc` documents.
    pub fn new(max_doc: i32) -> (r: DocIdSetBuilder)
        requires
            max_doc >= 0,
        ensures
            r.wf(),
            r.spec_max_doc() == max_doc,
            r.docs() =~= Set::empty(),
    {
        DocIdSetBuilder { bits: vec![false; max_doc as usize] }
    }

    /// Add one matched document. Any order is fine; adding the same id twice
    /// leaves the set unchanged.
    pub fn add_doc(&mut self, doc: i32)
        requires
            0 <= doc < old(self).spec_max_doc(),
        ensures
            final(self).wf() == old(self).wf(),
            final(self).spec_max_doc() == old(self).spec_max_doc(),
            final(self).docs() =~= old(self).docs().insert(doc as int),
    {
        self.bits.set(doc as usize, true);
    }

    /// Advisory sizing hint sent by the traversal protocol before a bulk
    /// accept. Dense storage is sized up front, so the hint changes nothing.
    pub fn grow(&mut self, _count: usize)
        ensures
            *final(self) == *old(self),
    {
    }

    /// Finalize into a set that enumerates the added ids in strictly
    /// ascending order with no duplicates. Consumes the builder: after
    /// finalization no further documents may be added.
    pub fn build(self) -> (r: DocIdSet)
        requires
            self.wf(),
        ensures
            r.wf(),
            strictly_sorted(r.docs@),
            forall|k: int| 0 <= k < r.docs@.len() ==> 0 <= #[trigger] r.docs@[k] < self.spec_max_doc(),
            forall|d: i32| #[trigger] r.docs@.contains(d) <==> self.docs().contains(d as int),
    {
        let mut out: Vec<i32> = Vec::new();
        let mut i: usize = 0;
        while i < self.bits.len()
            invariant
                i <= self.bits@.len() <= 0x7fff_ffff,
                out@ == marked_docs(self.bits@, i as int),
            decreases self.bits@.len() - i,
        {
            if self.bits[i] {
                out.push(i as i32);
            }
            i = i + 1;
        }
        proof {
            lemma_marked_docs(self.bits@, self.bits@.len() as int);
            assert forall|d: i32| #[trigger] out@.contains(d) implies self.docs().contains(d as int) by {
                let k = choose|k: int| 0 <= k < out@.len() && out@[k] == d;
            }
        }
        DocIdSet { docs: out }
    }
}

/// A finalized, compact set of document ids, enumerable in strictly
/// ascending order.
pub struct DocIdSet {
    /// The member ids, strictly ascending.
    pub docs: Vec<i32>,
}

impl DocIdSet {
    /// Well-formed: strictly ascending ids, each a valid document id.
    pub open spec fn wf(&self) -> bool {
        &&& strictly_sorted(self.docs@)
        &&& forall|k: int| 0 <= k < self.docs@.len() ==> 0 <= #[trigger] self.docs@[k] < NO_MORE_DOCS
        &&& self.docs@.len() <= 0x7fff_ffff
    }

    /// Number of member ids.
    pub fn len(&self) -> (r: usize)
        ensures
            r == self.docs@.len(),
    {
        self.docs.len()
    }

    /// A cursor over the member ids, or `None` when the set is empty.
    pub fn iterator(&self) -> (r: Option<DocIdSetIterator>)
        requires
            self.wf(),
        ensures
            match r {
                Some(it) => it.wf() && it.docs@ == self.docs@ && it.spec_pos() == 0
                    && self.docs@.len() > 0,
                None => self.docs@.len() == 0,
            },
    {
        if self.docs.len() == 0 {
            return None;
        }
        let mut copy: Vec<i32> = Vec::new();
        let mut i: usize = 0;
        while i < self.docs.len()
            invariant
                i <= self.docs@.len(),
                copy@ == self.docs@.subrange(0, i as int),
            decreases self.docs@.len() - i,
        {
            copy.push(self.docs[i]);
            assert(copy@ =~= self.docs@.subrange(0, i + 1));
            i = i + 1;
        }
        assert(copy@ =~= self.docs@);
        Some(DocIdSetIterator { docs: copy, pos: 0 })
    }
}

/// Cursor over a finalized `DocIdSet`. Position `pos` counts completed
/// advances: `0` is before the first id, `len + 1` is exhausted.
pub struct DocIdSetIterator {
    /// The ids to enumerate, strictly ascending.
    pub docs: Vec<i32>,
    /// Number of advances made so far, at most `docs.len() + 1`.
    pub pos: usize,
}

impl DocIdSetIterator {
    /// Well-formed cursor state.
    pub open spec fn wf(&self) -> bool {
        &&& strictly_sorted(self.docs@)
        &&& forall|k: int| 0 <= k < self.docs@.len() ==> 0 <= #[trigger] self.docs@[k] < NO_MORE_DOCS
        &&& self.docs@.len() <= 0x7fff_ffff
        &&& self.pos <= self.docs@.len() + 1
    }

    /// Position as a mathematical value.
    pub open spec fn spec_pos(&self) -> int {
        self.pos as int
    }

    /// The current document id: `-1` before the first advance, the id at the
    /// cursor while enumerating, `NO_MORE_DOCS` after the end.
    pub open spec fn spec_doc(&self) -> int {
        if self.pos == 0 {
            -1
        } else if self.pos <= self.docs@.len() {
            self.docs@[self.pos - 1] as int
        } else {
            NO_MORE_DOCS as int
        }
    }

    /// Current position of the cursor.
    pub fn doc_id(&self) -> (r: i32)
        requires
            self.wf(),
        ensures
            r == self.spec_doc(),
    {
        if self.pos == 0 {
            -1
        } else if self.pos <= self.docs.len() {
            self.docs[self.pos - 1]
        } else {
            NO_MORE_DOCS
        }
    }

    /// Advance exactly one match; returns the new current id.
    pub fn next(&mut self) -> (r: i32)
        requires
            old(self).wf(),
            old(self).spec_doc() != NO_MORE_DOCS,
        ensures
            final(self).wf(),
            final(self).docs@ == old(self).docs@,
            final(self).spec_pos() == old(self).spec_pos() + 1,
            r == final(self).spec_doc(),
    {
        self.pos = self.pos + 1;
        self.doc_id()
    }

    /// Advance to the first match at or beyond `target`; returns the new
    /// current id. Monotonic: `target` must be at or beyond the current
    /// position.
    pub fn advance(&mut self, target: i32) -> (r: i32)
        requires
            old(self).wf(),
            old(self).spec_doc() != NO_MORE_DOCS,
            target >= old(self).spec_doc(),
        ensures
            final(self).wf(),
            final(self).docs@ == old(self).docs@,
            final(self).spec_pos() >= old(self).spec_pos(),
            final(self).spec_doc() >= target,
            final(self).spec_pos() >= 1,
            // every id passed over is below the target
            forall|k: int|
                0 <= k < final(self).spec_pos() - 1 ==> #[trigger] final(self).docs@[k] < target,
            r == final(self).spec_doc(),
    {
        if self.pos == 0 {
            self.pos = 1;
        }
        proof {
            assert(forall|k: int|
                0 <= k < self.pos - 1 ==> #[trigger] self.docs@[k] < self.docs@[self.spec_pos()
                    - 1]);
        }
        while self.pos <= self.docs.len() && self.docs[self.pos - 1] < target
            invariant
                self.wf(),
                self.docs@ == old(self).docs@,
                1 <= self.pos,
                self.pos >= old(self).pos,
                forall|k: int| 0 <= k < self.spec_pos() - 1 ==> #[trigger] self.docs@[k] < target,
            decreases self.docs@.len() + 1 - self.pos,
        {
            self.pos = self.pos + 1;
        }
        self.doc_id()
    }

    /// Advance to the first match at or beyond `target` by stepping one
    /// match at a time. Same contract as `advance`.
    pub fn slow_advance(&mut self, target: i32) -> (r: i32)
        requires
            old(self).wf(),
            old(self).spec_doc() != NO_MORE_DOCS,
            target >= old(self).spec_doc(),
        ensures
            final(self).wf(),
            final(self).docs@ == old(self).docs@,
            final(self).spec_pos() >= old(self).spec_pos(),
            final(self).spec_doc() >= target,
            final(self).spec_pos() >= 1,
            forall|k: int|
                0 <= k < final(self).spec_pos() - 1 ==> #[trigger] final(self).docs@[k] < target,
            r == final(self).spec_doc(),
    {
        self.advance(target)
    }

    /// Cheap upper bound on the number of matches this cursor enumerates.
    /// Exact for this cursor kind.
    pub fn cost(&self) -> (r: usize)
        ensures
            r == self.docs@.len(),
    {
        self.docs.len()
    }

    /// Confirm the current approximate position. These cursors enumerate
    /// exact matches, so confirmation always succeeds.
    pub fn matches(&mut self) -> (r: bool)
        ensures
            *final(self) == *old(self),
            r == true,
    {
        true
    }

    /// Move the cheap over-approximation one match forward. Identical to
    /// `next` for an exact cursor.
    pub fn approximate_next(&mut self) -> (r: i32)
        requires
            old(self).wf(),
            old(self).spec_doc() != NO_MORE_DOCS,
        ensures
            final(self).wf(),
            final(self).docs@ == old(self).docs@,
            final(self).spec_pos() == old(self).spec_pos() + 1,
            r == final(self).spec_doc(),
    {
        self.next()
    }

    /// Move the cheap over-approximation to the first position at or beyond
    /// `target`. Identical to `advance` for an exact cursor.
    pub fn approximate_advance(&mut self, target: i32) -> (r: i32)
        requires
            old(self).wf(),
            old(self).spec_doc() != NO_MORE_DOCS,
            target >= old(self).spec_doc(),
        ensures
            final(self).wf(),
            final(self).docs@ == old(self).docs@,
            final(self).spec_doc() >= target,
            r == final(self).spec_doc(),
    {
        self.advance(target)
    }
}

/// Cursor that enumerates every document id `0..max_doc`, used when a whole
/// segment is known to match.
pub struct AllDocsIterator {
    /// Current document id: `-1`, a valid id, or `NO_MORE_DOCS`.
    pub doc: i32,
    /// Number of documents in the segment.
    pub max_doc: i32,
}

impl AllDocsIterator {
    /// Well-formed cursor state.
    pub open spec fn wf(&self) -> bool {
        &&& 0 <= self.max_doc < NO_MORE_DOCS
        &&& (-1 <= self.doc < self.max_doc || self.doc == NO_MORE_DOCS)
    }

    /// The current document id.
    pub open spec fn spec_doc(&self) -> int {
        self.doc as int
    }

    /// A cursor over all of `0..max_doc`, positioned before the first id.
    pub fn new(max_doc: i32) -> (r: AllDocsIterator)
        requires
            0 <= max_doc < NO_MORE_DOCS,
        ensures
            r.wf(),
            r.max_doc == max_doc,
            r.spec_doc() == -1,
    {
        AllDocsIterator { doc: -1, max_doc }
    }

    /// Current position of the cursor.
    pub fn doc_id(&self) -> (r: i32)
        ensures
            r == self.spec_doc(),
    {
        self.doc
    }

    /// Advance exactly one match; returns the new current id.
    pub fn next(&mut self) -> (r: i32)
        requires
            old(self).wf(),
            old(self).spec_doc() != NO_MORE_DOCS,
        ensures
            final(self).wf(),
            final(self).max_doc == old(self).max_doc,
            final(self).spec_doc() == if old(self).spec_doc() + 1 < old(self).max_doc {
                old(self).spec_doc() + 1
            } else {
                NO_MORE_DOCS as int
            },
            r == final(self).spec_doc(),
    {
        let d = self.doc + 1;
        if d < self.max_doc {
            self.doc = d;
        } else {
            self.doc = NO_MORE_DOCS;
        }
        self.doc
    }

    /// Advance to the first match at or beyond `target`: every id matches,
    /// so this is `target` itself, or exhaustion past the end.
    pub fn advance(&mut self, target: i32) -> (r: i32)
        requires
            old(self).wf(),
            old(self).spec_doc() != NO_MORE_DOCS,
            target >= old(self).spec_doc(),
            target >= 0,
        ensures
            final(self).wf(),
            final(self).max_doc == old(self).max_doc,
            final(self).spec_doc() == if target < old(self).max_doc {
                target as int
            } else {
                NO_MORE_DOCS as int
            },
            r == final(self).spec_doc(),
    {
        if target < self.max_doc {
            self.doc = target;
        } else {
            self.doc = NO_MORE_DOCS;
        }
        self.doc
    }

    /// Exact count of the ids this cursor enumerates.
    pub fn cost(&self) -> (r: usize)
        requires
            self.wf(),
        ensures
            r == self.max_doc,
    {
        self.max_doc as usize
    }
}

/// Cursor over the empty set of document ids.
pub struct EmptyDocIterator {
    /// `-1` before first use, `NO_MORE_DOCS` after.
    pub doc: i32,
}

impl EmptyDocIterator {
    /// Well-formed cursor state.
    pub open spec fn wf(&self) -> bool {
        self.doc == -1 || self.doc == NO_MORE_DOCS
    }

    /// A cursor over no ids at all.
    pub fn new() -> (r: EmptyDocIterator)
        ensures
            r.wf(),
            r.doc == -1,
    {
        EmptyDocIterator { doc: -1 }
    }

    /// Current position of the cursor.
    pub fn doc_id(&self) -> (r: i32)
        ensures
            r == self.doc,
    {
        self.doc
    }

    /// Advance: there is never a next match.
    pub fn next(&mut self) -> (r: i32)
        ensures
            final(self).doc == NO_MORE_DOCS,
            r == NO_MORE_DOCS,
    {
        self.doc = NO_MORE_DOCS;
        self.doc
    }

    /// There are no matches at or beyond any target.
    pub fn advance(&mut self, _target: i32) -> (r: i32)
        ensures
            final(self).doc == NO_MORE_DOCS,
            r == NO_MORE_DOCS,
    {
        self.doc = NO_MORE_DOCS;
        self.doc
    }

    /// Exact count of the ids this cursor enumerates: none.
    pub fn cost(&self) -> (r: usize)
        ensures
            r == 0,
    {
        0
    }
}

impl Default for EmptyDocIterator {
    /// Same as `new`: a cursor over no ids.
    fn default() -> (r: Self)
        ensures
            r.wf(),
            r.doc == -1,
    {
        EmptyDocIterator { doc: -1 }
    }
}

} // verus!
