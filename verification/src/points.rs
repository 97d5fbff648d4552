//! In-memory packed point index for one field of one leaf segment, and the
//! leaf reader that hands it out.
//!
//! Each point is a document id with a packed value: fixed-width big-endian
//! byte tuples, one per dimension, concatenated. The index exposes the
//! global minimum and maximum packed bound per dimension, the number of
//! documents with a point, and a traversal entry (`intersect`, defined with
//! the range query) driven by a visitor.

use vstd::prelude::*;
use vstd::pervasive::VecAdditionalExecFns;
use vstd::string::StringExecFns;
use crate::bytes_cmp::{
    lex_le, dim_window, window_lt, copy_bytes, lemma_window_bounds, lemma_lex_le_reflexive,
    lemma_lex_le_total, lemma_lex_le_transitive,
};
use crate::doc_id_set::DocIdSetBuilder;
use crate::errors::Error;

verus! {

/// One indexed point: a document id and its packed value.
pub struct PointEntry {
    /// The document carrying this point.
    pub doc: i32,
    /// Packed value: `num_dims` windows of `bytes_per_dim` big-endian bytes.
    pub packed: Vec<u8>,
}

/// Document ids of `points` are sorted non-decreasingly (a document with
/// several values stores them adjacently).
pub open spec fn docs_non_decreasing(points: Seq<PointEntry>) -> bool {
    forall|i: int, j: int| 0 <= i < j < points.len() ==> points[i].doc <= points[j].doc
}

/// Number of distinct document ids in a non-decreasingly sorted point list.
pub open spec fn distinct_sorted_count(points: Seq<PointEntry>) -> int
    decreases points.len(),
{
    if points.len() == 0 {
        0
    } else if points.len() == 1 {
        1
    } else if points[points.len() - 1].doc == points[points.len() - 2].doc {
        distinct_sorted_count(points.drop_last())
    } else {
        distinct_sorted_count(points.drop_last()) + 1
    }
}

/// The distinct count never exceeds the number of points and is positive on
/// a non-empty list.
pub proof fn lemma_distinct_sorted_count_bounds(points: Seq<PointEntry>)
    ensures
        distinct_sorted_count(points) <= points.len(),
        points.len() > 0 ==> distinct_sorted_count(points) >= 1,
    decreases points.len(),
{
    if points.len() > 1 {
        lemma_distinct_sorted_count_bounds(points.drop_last());
    }
}

/// A chain of adjacent orderings yields the full non-decreasing order.
proof fn lemma_doc_chain(points: Seq<PointEntry>, i: int, j: int)
    requires
        forall|k: int| 1 <= k < points.len() ==> points[k - 1].doc <= #[trigger] points[k].doc,
        0 <= i < j < points.len(),
    ensures
        points[i].doc <= points[j].doc,
    decreases j - i,
{
    if i + 1 < j {
        lemma_doc_chain(points, i, j - 1);
    }
}

/// Adjacent non-decreasing document ids give `docs_non_decreasing`.
proof fn lemma_adjacent_non_decreasing(points: Seq<PointEntry>)
    requires
        forall|k: int| 1 <= k < points.len() ==> points[k - 1].doc <= #[trigger] points[k].doc,
    ensures
        docs_non_decreasing(points),
{
    assert forall|i: int, j: int| 0 <= i < j < points.len() implies points[i].doc
        <= points[j].doc by {
        lemma_doc_chain(points, i, j);
    }
}

/// Declared per-field point schema, against which a query's assumed layout
/// is validated at scorer-creation time.
pub struct FieldInfo {
    /// Number of dimensions the field was indexed with.
    pub point_dimension_count: u32,
    /// Bytes per dimension the field was indexed with.
    pub point_num_bytes: u32,
}

/// Per-field, per-leaf packed point index: the points, their global per-
/// dimension bounds, and the count of documents holding at least one point.
pub struct PointValues {
    /// Number of dimensions per packed value.
    pub num_dims: usize,
    /// Bytes per dimension.
    pub bytes_per_dim: usize,
    /// The indexed points, document ids non-decreasing.
    pub points: Vec<PointEntry>,
    /// Global per-dimension minimum packed bound.
    pub min_packed: Vec<u8>,
    /// Global per-dimension maximum packed bound.
    pub max_packed: Vec<u8>,
    /// Number of distinct documents with at least one point.
    pub doc_count: i32,
}

impl PointValues {
    /// Width in bytes of one packed value.
    pub open spec fn packed_len(&self) -> int {
        self.num_dims * self.bytes_per_dim
    }

    /// Well-formed index: consistent widths, sorted non-empty points, exact
    /// bounds and exact document count.
    pub open spec fn wf(&self) -> bool {
        &&& self.num_dims >= 1
        &&& self.bytes_per_dim >= 1
        &&& self.packed_len() <= usize::MAX
        &&& 1 <= self.points@.len() <= 0x7fff_ffff
        &&& forall|i: int|
            0 <= i < self.points@.len() ==> (#[trigger] self.points@[i].packed@.len())
                == self.packed_len() && self.points@[i].doc >= 0
        &&& docs_non_decreasing(self.points@)
        &&& self.min_packed@.len() == self.packed_len()
        &&& self.max_packed@.len() == self.packed_len()
        &&& forall|i: int, d: int|
            0 <= i < self.points@.len() && 0 <= d < self.num_dims ==> lex_le(
                dim_window(self.min_packed@, d, self.bytes_per_dim as int),
                #[trigger] dim_window(self.points@[i].packed@, d, self.bytes_per_dim as int),
            ) && lex_le(
                dim_window(self.points@[i].packed@, d, self.bytes_per_dim as int),
                dim_window(self.max_packed@, d, self.bytes_per_dim as int),
            )
        &&& self.doc_count == distinct_sorted_count(self.points@)
    }

    /// Build the index for one field: validates the layout, then computes
    /// the per-dimension bounds and the distinct document count.
    ///
    /// Fails with an illegal-argument error exactly when the layout is
    /// malformed: no dimensions, no width, no points, too many points, a
    /// packed value of the wrong length, a negative document id, or ids out
    /// of order.
    #[verifier::rlimit(100)]
    #[verifier::spinoff_prover]
    pub fn new(points: Vec<PointEntry>, num_dims: usize, bytes_per_dim: usize) -> (r: Result<
        PointValues,
        Error,
    >)
        ensures
            r is Ok <==> {
                &&& num_dims >= 1
                &&& bytes_per_dim >= 1
                &&& num_dims * bytes_per_dim <= usize::MAX
                &&& 1 <= points@.len() <= 0x7fff_ffff
                &&& forall|i: int|
                    0 <= i < points@.len() ==> (#[trigger] points@[i].packed@.len()) == num_dims
                        * bytes_per_dim && points@[i].doc >= 0
                &&& docs_non_decreasing(points@)
            },
            r matches Ok(v) ==> v.wf() && v.points@ == points@ && v.num_dims == num_dims
                && v.bytes_per_dim == bytes_per_dim,
    {
        if num_dims < 1 || bytes_per_dim < 1 {
            return Err(Error::IllegalArgument(String::from_str("point layout must have at least one dimension of at least one byte")));
        }
        let quot = usize::MAX / bytes_per_dim;
        proof {
            vstd::arithmetic::div_mod::lemma_fundamental_div_mod(
                usize::MAX as int,
                bytes_per_dim as int,
            );
            assert((num_dims > quot ==> num_dims * bytes_per_dim > usize::MAX) && (num_dims <= quot
                ==> num_dims * bytes_per_dim <= usize::MAX)) by (nonlinear_arith)
                requires
                    bytes_per_dim >= 1,
                    usize::MAX as int == bytes_per_dim * quot + (usize::MAX as int) % (
                    bytes_per_dim as int),
                    0 <= (usize::MAX as int) % (bytes_per_dim as int) < bytes_per_dim,
            ;
        }
        if num_dims > quot {
            return Err(Error::IllegalArgument(String::from_str("packed width overflows")));
        }
        let packed_len = num_dims * bytes_per_dim;
        if points.len() < 1 {
            return Err(Error::IllegalArgument(String::from_str("a point index needs at least one point")));
        }
        if points.len() > 0x7fff_ffff {
            return Err(Error::IllegalArgument(String::from_str("too many points for one leaf")));
        }
        // Validate each point and the document order.
        let mut i: usize = 0;
        while i < points.len()
            invariant
                i <= points@.len(),
                packed_len == num_dims * bytes_per_dim,
                forall|k: int|
                    0 <= k < i ==> (#[trigger] points@[k].packed@.len()) == packed_len
                        && points@[k].doc >= 0,
                forall|k: int| 1 <= k < i ==> points@[k - 1].doc <= #[trigger] points@[k].doc,
            decreases points@.len() - i,
        {
            if points[i].packed.len() != packed_len {
                return Err(Error::IllegalArgument(String::from_str("packed value has the wrong length")));
            }
            if points[i].doc < 0 {
                return Err(Error::IllegalArgument(String::from_str("negative document id")));
            }
            if i > 0 && points[i].doc < points[i - 1].doc {
                return Err(Error::IllegalArgument(String::from_str("document ids out of order")));
            }
            proof {
                assert forall|k: int|
                    0 <= k < i + 1 implies (#[trigger] points@[k].packed@.len()) == packed_len
                    && points@[k].doc >= 0 by {
                    if k < i {
                        assert(points@[k].packed@.len() == packed_len);
                    }
                }
            }
            i = i + 1;
        }
        proof {
            lemma_adjacent_non_decreasing(points@);
        }
        // Fold the per-dimension minimum and maximum over all points.
        let mut min_packed = copy_bytes(&points[0].packed);
        let mut max_packed = copy_bytes(&points[0].packed);
        proof {
            assert forall|d: int| 0 <= d < num_dims implies lex_le(
                #[trigger] dim_window(min_packed@, d, bytes_per_dim as int),
                dim_window(points@[0].packed@, d, bytes_per_dim as int),
            ) && lex_le(
                dim_window(points@[0].packed@, d, bytes_per_dim as int),
                dim_window(max_packed@, d, bytes_per_dim as int),
            ) by {
                lemma_lex_le_reflexive(dim_window(points@[0].packed@, d, bytes_per_dim as int));
            }
        }
        let mut i: usize = 1;
        while i < points.len()
            invariant
                1 <= i <= points@.len(),
                packed_len == num_dims * bytes_per_dim,
                num_dims >= 1,
                bytes_per_dim >= 1,
                min_packed@.len() == packed_len,
                max_packed@.len() == packed_len,
                forall|k: int|
                    0 <= k < points@.len() ==> (#[trigger] points@[k].packed@.len()) == packed_len,
                forall|k: int, d: int|
                    0 <= k < i && 0 <= d < num_dims ==> lex_le(
                        dim_window(min_packed@, d, bytes_per_dim as int),
                        #[trigger] dim_window(points@[k].packed@, d, bytes_per_dim as int),
                    ) && lex_le(
                        dim_window(points@[k].packed@, d, bytes_per_dim as int),
                        dim_window(max_packed@, d, bytes_per_dim as int),
                    ),
            decreases points@.len() - i,
        {
            let ghost prev_min = min_packed@;
            let ghost prev_max = max_packed@;
            update_extremes(&mut min_packed, &mut max_packed, &points[i].packed, num_dims, bytes_per_dim);
            proof {
                let w = bytes_per_dim as int;
                assert forall|k: int, d: int| 0 <= k < i + 1 && 0 <= d < num_dims implies lex_le(
                    dim_window(min_packed@, d, w),
                    #[trigger] dim_window(points@[k].packed@, d, w),
                ) && lex_le(
                    dim_window(points@[k].packed@, d, w),
                    dim_window(max_packed@, d, w),
                ) by {
                    lemma_window_bounds(d, num_dims as int, w);
                    if k < i {
                        lemma_lex_le_transitive(
                            dim_window(min_packed@, d, w),
                            dim_window(prev_min, d, w),
                            dim_window(points@[k].packed@, d, w),
                        );
                        lemma_lex_le_transitive(
                            dim_window(points@[k].packed@, d, w),
                            dim_window(prev_max, d, w),
                            dim_window(max_packed@, d, w),
                        );
                    }
                }
            }
            i = i + 1;
        }
        // Count distinct documents.
        let mut doc_count: i32 = 1;
        let mut i: usize = 1;
        while i < points.len()
            invariant
                1 <= i <= points@.len(),
                points@.len() <= 0x7fff_ffff,
                doc_count == distinct_sorted_count(points@.subrange(0, i as int)),
                1 <= doc_count <= i,
            decreases points@.len() - i,
        {
            proof {
                lemma_distinct_sorted_count_bounds(points@.subrange(0, i as int));
                assert(points@.subrange(0, i + 1).drop_last() =~= points@.subrange(0, i as int));
            }
            if points[i].doc != points[i - 1].doc {
                doc_count = doc_count + 1;
            }
            i = i + 1;
        }
        proof {
            assert(points@.subrange(0, points@.len() as int) =~= points@);
        }
        let result = PointValues { num_dims, bytes_per_dim, points, min_packed, max_packed, doc_count };
        proof {
            lemma_wf_assembly(
                &result,
                points@,
                min_packed@,
                max_packed@,
                num_dims as int,
                bytes_per_dim as int,
            );
        }
        Ok(result)
    }

    /// Global minimum packed bound, one window per dimension.
    pub fn min_packed_value(&self) -> (r: &Vec<u8>)
        ensures
            r@ == self.min_packed@,
    {
        &self.min_packed
    }

    /// Global maximum packed bound, one window per dimension.
    pub fn max_packed_value(&self) -> (r: &Vec<u8>)
        ensures
            r@ == self.max_packed@,
    {
        &self.max_packed
    }

    /// Number of distinct documents with at least one point for this field.
    pub fn doc_count(&self) -> (r: i32)
        ensures
            r == self.doc_count,
    {
        self.doc_count
    }
}

/// The well-formedness conjunction, assembled from facts about the parts
/// an index is built from.
proof fn lemma_wf_assembly(
    v: &PointValues,
    pts: Seq<PointEntry>,
    minp: Seq<u8>,
    maxp: Seq<u8>,
    nd: int,
    w: int,
)
    requires
        v.points@ == pts,
        v.min_packed@ == minp,
        v.max_packed@ == maxp,
        v.num_dims == nd,
        v.bytes_per_dim == w,
        nd >= 1,
        w >= 1,
        nd * w <= usize::MAX,
        1 <= pts.len() <= 0x7fff_ffff,
        forall|i: int|
            0 <= i < pts.len() ==> (#[trigger] pts[i].packed@.len()) == nd * w && pts[i].doc >= 0,
        docs_non_decreasing(pts),
        minp.len() == nd * w,
        maxp.len() == nd * w,
        forall|i: int, d: int|
            0 <= i < pts.len() && 0 <= d < nd ==> lex_le(
                dim_window(minp, d, w),
                #[trigger] dim_window(pts[i].packed@, d, w),
            ) && lex_le(dim_window(pts[i].packed@, d, w), dim_window(maxp, d, w)),
        v.doc_count == distinct_sorted_count(pts),
    ensures
        v.wf(),
{
    assert(v.packed_len() == nd * w);
    assert forall|i: int|
        0 <= i < v.points@.len() implies (#[trigger] v.points@[i].packed@.len())
        == v.packed_len() && v.points@[i].doc >= 0 by {
        assert(pts[i].packed@.len() == nd * w);
    }
    assert forall|i: int, d: int|
        0 <= i < v.points@.len() && 0 <= d < v.num_dims implies lex_le(
        dim_window(v.min_packed@, d, v.bytes_per_dim as int),
        #[trigger] dim_window(v.points@[i].packed@, d, v.bytes_per_dim as int),
    ) && lex_le(
        dim_window(v.points@[i].packed@, d, v.bytes_per_dim as int),
        dim_window(v.max_packed@, d, v.bytes_per_dim as int),
    ) by {
        assert(lex_le(dim_window(minp, d, w), dim_window(pts[i].packed@, d, w)));
        assert(lex_le(dim_window(pts[i].packed@, d, w), dim_window(maxp, d, w)));
    }
}

/// Fold one packed value into the running per-dimension extremes: each
/// window of `minp` becomes the smaller of itself and the point's window,
/// each window of `maxp` the larger.
fn update_extremes(
    minp: &mut Vec<u8>,
    maxp: &mut Vec<u8>,
    p: &Vec<u8>,
    num_dims: usize,
    w: usize,
)
    requires
        num_dims >= 1,
        w >= 1,
        num_dims * w <= usize::MAX,
        old(minp)@.len() == num_dims * w,
        old(maxp)@.len() == num_dims * w,
        p@.len() == num_dims * w,
    ensures
        final(minp)@.len() == num_dims * w,
        final(maxp)@.len() == num_dims * w,
        forall|d: int|
            0 <= d < num_dims ==> lex_le(
                #[trigger] dim_window(final(minp)@, d, w as int),
                dim_window(old(minp)@, d, w as int),
            ) && lex_le(dim_window(final(minp)@, d, w as int), dim_window(p@, d, w as int)),
        forall|d: int|
            0 <= d < num_dims ==> lex_le(
                dim_window(old(maxp)@, d, w as int),
                #[trigger] dim_window(final(maxp)@, d, w as int),
            ) && lex_le(dim_window(p@, d, w as int), dim_window(final(maxp)@, d, w as int)),
{
    let mut d: usize = 0;
    while d < num_dims
        invariant
            d <= num_dims,
            w >= 1,
            num_dims * w <= usize::MAX,
            minp@.len() == num_dims * w,
            maxp@.len() == num_dims * w,
            p@.len() == num_dims * w,
            forall|d2: int|
                0 <= d2 < d ==> lex_le(
                    #[trigger] dim_window(minp@, d2, w as int),
                    dim_window(old(minp)@, d2, w as int),
                ) && lex_le(dim_window(minp@, d2, w as int), dim_window(p@, d2, w as int)),
            forall|d2: int|
                0 <= d2 < d ==> lex_le(
                    dim_window(old(maxp)@, d2, w as int),
                    #[trigger] dim_window(maxp@, d2, w as int),
                ) && lex_le(dim_window(p@, d2, w as int), dim_window(maxp@, d2, w as int)),
            forall|d2: int|
                d <= d2 < num_dims ==> dim_window(minp@, d2, w as int) == dim_window(
                    old(minp)@,
                    d2,
                    w as int,
                ) && dim_window(maxp@, d2, w as int) == dim_window(old(maxp)@, d2, w as int),
        decreases num_dims - d,
    {
        proof {
            lemma_window_bounds(d as int, num_dims as int, w as int);
        }
        let off = d * w;
        let end = off + w;
        let ghost before_min = minp@;
        let ghost before_max = maxp@;
        fold_window_min(minp, p, off, end);
        fold_window_max(maxp, p, off, end);
        proof {
            let wd = w as int;
            assert forall|d2: int|
                d + 1 <= d2 < num_dims implies dim_window(minp@, d2, wd) == dim_window(
                old(minp)@,
                d2,
                wd,
            ) && dim_window(maxp@, d2, wd) == dim_window(old(maxp)@, d2, wd) by {
                lemma_window_bounds(d2, num_dims as int, wd);
                window_disjoint(d2, d as int, wd);
                assert forall|t: int|
                    0 <= t < wd implies dim_window(minp@, d2, wd)[t] == dim_window(
                    before_min,
                    d2,
                    wd,
                )[t] && dim_window(maxp@, d2, wd)[t] == dim_window(before_max, d2, wd)[t] by {
                    assert(minp@[d2 * wd + t] == before_min[d2 * wd + t]);
                    assert(maxp@[d2 * wd + t] == before_max[d2 * wd + t]);
                }
                assert(dim_window(minp@, d2, wd) =~= dim_window(before_min, d2, wd));
                assert(dim_window(maxp@, d2, wd) =~= dim_window(before_max, d2, wd));
            }
            assert forall|d2: int|
                0 <= d2 < d + 1 implies lex_le(
                #[trigger] dim_window(minp@, d2, wd),
                dim_window(old(minp)@, d2, wd),
            ) && lex_le(dim_window(minp@, d2, wd), dim_window(p@, d2, wd)) by {
                if d2 < d {
                    lemma_window_bounds(d2, num_dims as int, wd);
                    window_disjoint(d2, d as int, wd);
                    assert forall|t: int|
                        0 <= t < wd implies dim_window(minp@, d2, wd)[t] == dim_window(
                        before_min,
                        d2,
                        wd,
                    )[t] by {
                        assert(minp@[d2 * wd + t] == before_min[d2 * wd + t]);
                    }
                    assert(dim_window(minp@, d2, wd) =~= dim_window(before_min, d2, wd));
                } else {
                    assert(dim_window(minp@, d2, wd) == minp@.subrange(off as int, end as int));
                    assert(dim_window(old(minp)@, d2, wd) == before_min.subrange(
                        off as int,
                        end as int,
                    ));
                }
            }
            assert forall|d2: int|
                0 <= d2 < d + 1 implies lex_le(
                dim_window(old(maxp)@, d2, wd),
                #[trigger] dim_window(maxp@, d2, wd),
            ) && lex_le(dim_window(p@, d2, wd), dim_window(maxp@, d2, wd)) by {
                if d2 < d {
                    lemma_window_bounds(d2, num_dims as int, wd);
                    window_disjoint(d2, d as int, wd);
                    assert forall|t: int|
                        0 <= t < wd implies dim_window(maxp@, d2, wd)[t] == dim_window(
                        before_max,
                        d2,
                        wd,
                    )[t] by {
                        assert(maxp@[d2 * wd + t] == before_max[d2 * wd + t]);
                    }
                    assert(dim_window(maxp@, d2, wd) =~= dim_window(before_max, d2, wd));
                } else {
                    assert(dim_window(maxp@, d2, wd) == maxp@.subrange(off as int, end as int));
                    assert(dim_window(old(maxp)@, d2, wd) == before_max.subrange(
                        off as int,
                        end as int,
                    ));
                }
            }
        }
        d = d + 1;
    }
}

/// Make the window `[off, end)` of `minp` the smaller of itself and the same
/// window of `p`; bytes outside the window keep their values.
fn fold_window_min(minp: &mut Vec<u8>, p: &Vec<u8>, off: usize, end: usize)
    requires
        off <= end,
        end <= old(minp)@.len(),
        end <= p@.len(),
    ensures
        final(minp)@.len() == old(minp)@.len(),
        forall|j: int|
            0 <= j < old(minp)@.len() && !(off <= j < end) ==> final(minp)@[j] == old(minp)@[j],
        lex_le(
            final(minp)@.subrange(off as int, end as int),
            old(minp)@.subrange(off as int, end as int),
        ),
        lex_le(final(minp)@.subrange(off as int, end as int), p@.subrange(off as int, end as int)),
{
    let ghost wp = p@.subrange(off as int, end as int);
    let ghost wm = old(minp)@.subrange(off as int, end as int);
    if window_lt(p, minp, off, end) {
        copy_window(minp, p, off, end);
        proof {
            assert(minp@.subrange(off as int, end as int) =~= wp);
            lemma_lex_le_reflexive(wp);
        }
    } else {
        proof {
            assert(minp@.subrange(off as int, end as int) =~= wm);
            lemma_lex_le_total(wm, wp);
            lemma_lex_le_reflexive(wm);
        }
    }
}

/// Make the window `[off, end)` of `maxp` the larger of itself and the same
/// window of `p`; bytes outside the window keep their values.
fn fold_window_max(maxp: &mut Vec<u8>, p: &Vec<u8>, off: usize, end: usize)
    requires
        off <= end,
        end <= old(maxp)@.len(),
        end <= p@.len(),
    ensures
        final(maxp)@.len() == old(maxp)@.len(),
        forall|j: int|
            0 <= j < old(maxp)@.len() && !(off <= j < end) ==> final(maxp)@[j] == old(maxp)@[j],
        lex_le(
            old(maxp)@.subrange(off as int, end as int),
            final(maxp)@.subrange(off as int, end as int),
        ),
        lex_le(p@.subrange(off as int, end as int), final(maxp)@.subrange(off as int, end as int)),
{
    let ghost wp = p@.subrange(off as int, end as int);
    let ghost wm = old(maxp)@.subrange(off as int, end as int);
    if window_lt(maxp, p, off, end) {
        copy_window(maxp, p, off, end);
        proof {
            assert(maxp@.subrange(off as int, end as int) =~= wp);
            lemma_lex_le_reflexive(wp);
        }
    } else {
        proof {
            assert(maxp@.subrange(off as int, end as int) =~= wm);
            lemma_lex_le_total(wp, wm);
            lemma_lex_le_reflexive(wm);
        }
    }
}

/// Distinct dimensions occupy disjoint index ranges.
proof fn window_disjoint(d1: int, d2: int, w: int)
    requires
        0 <= d1,
        0 <= d2,
        d1 != d2,
        0 < w,
    ensures
        d1 < d2 ==> d1 * w + w <= d2 * w,
        d2 < d1 ==> d2 * w + w <= d1 * w,
{
    assert((d1 < d2 ==> d1 * w + w <= d2 * w) && (d2 < d1 ==> d2 * w + w <= d1 * w))
        by (nonlinear_arith)
        requires
            0 <= d1,
            0 <= d2,
            d1 != d2,
            0 < w,
    ;
}

/// Overwrite the window `[off, end)` of `dst` with the same window of `src`;
/// bytes outside the window keep their values.
fn copy_window(dst: &mut Vec<u8>, src: &Vec<u8>, off: usize, end: usize)
    requires
        off <= end,
        end <= old(dst)@.len(),
        end <= src@.len(),
    ensures
        final(dst)@.len() == old(dst)@.len(),
        forall|j: int| off <= j < end ==> final(dst)@[j] == src@[j],
        forall|j: int|
            0 <= j < old(dst)@.len() && !(off <= j < end) ==> final(dst)@[j] == old(dst)@[j],
{
    let mut i: usize = off;
    while i < end
        invariant
            off <= i <= end,
            end <= dst@.len(),
            end <= src@.len(),
            dst@.len() == old(dst)@.len(),
            forall|j: int| off <= j < i ==> dst@[j] == src@[j],
            forall|j: int| 0 <= j < dst@.len() && !(off <= j < i) ==> dst@[j] == old(dst)@[j],
        decreases end - i,
    {
        dst.set(i, src[i]);
        i = i + 1;
    }
}

/// An immutable leaf segment as queries see it: its document count, one
/// point-indexed field with its declared schema, and that field's point
/// index.
pub struct LeafReader {
    /// Number of documents in this segment; ids are `0..max_doc`.
    pub max_doc: i32,
    /// Name of the point-indexed field.
    pub field_name: String,
    /// Declared point schema of the field, if the field declares points.
    pub field_info: Option<FieldInfo>,
    /// The field's point index, if any points were written.
    pub point_values: Option<PointValues>,
}

impl LeafReader {
    /// Well-formed leaf: a valid document count, points only for known
    /// documents, and a point index that agrees with the declared schema.
    pub open spec fn wf(&self) -> bool {
        &&& 0 <= self.max_doc < 0x7fff_ffff
        &&& self.point_values matches Some(pv) ==> pv.wf() && forall|i: int|
            0 <= i < pv.points@.len() ==> (#[trigger] pv.points@[i]).doc < self.max_doc
        &&& self.point_values matches Some(pv) ==> self.field_info matches Some(fi) ==> (
        fi.point_dimension_count == pv.num_dims && fi.point_num_bytes == pv.bytes_per_dim)
    }

    /// Assemble a leaf, validating that the document count is in range,
    /// every point belongs to a known document, and the declared schema
    /// agrees with the point index; fails with an illegal-argument error
    /// otherwise.
    pub fn new(
        max_doc: i32,
        field_name: String,
        field_info: Option<FieldInfo>,
        point_values: Option<PointValues>,
    ) -> (r: Result<LeafReader, Error>)
        requires
            point_values matches Some(pv) ==> pv.wf(),
        ensures
            r matches Ok(l) ==> l.wf() && l.max_doc == max_doc && l.field_name@ == field_name@
                && l.field_info == field_info && l.point_values == point_values,
            r is Err ==> !{
                &&& 0 <= max_doc < 0x7fff_ffff
                &&& point_values matches Some(pv) ==> forall|i: int|
                    0 <= i < pv.points@.len() ==> (#[trigger] pv.points@[i]).doc < max_doc
                &&& point_values matches Some(pv) ==> field_info matches Some(fi) ==> (
                fi.point_dimension_count == pv.num_dims && fi.point_num_bytes == pv.bytes_per_dim)
            },
    {
        if max_doc < 0 || max_doc >= 0x7fff_ffff {
            return Err(Error::IllegalArgument(String::from_str("maxDoc out of range")));
        }
        if point_values.is_some() {
            let pv = point_values.as_ref().unwrap();
            let mut i: usize = 0;
            while i < pv.points.len()
                invariant
                    point_values matches Some(v) && v == *pv,
                    i <= pv.points@.len(),
                    forall|k: int| 0 <= k < i ==> (#[trigger] pv.points@[k]).doc < max_doc,
                decreases pv.points@.len() - i,
            {
                if pv.points[i].doc >= max_doc {
                    proof {
                        assert(point_values is Some);
                        assert(point_values->0 == *pv);
                        assert(point_values->0.points@[i as int].doc >= max_doc);
                    }
                    return Err(Error::IllegalArgument(String::from_str("point document id beyond maxDoc")));
                }
                i = i + 1;
            }
            if field_info.is_some() {
                let fi = field_info.as_ref().unwrap();
                if fi.point_dimension_count as u64 != pv.num_dims as u64 {
                    proof {
                        assert(point_values is Some && field_info is Some);
                        assert(field_info->0.point_dimension_count != point_values->0.num_dims);
                    }
                    return Err(Error::IllegalArgument(String::from_str("declared dimension count disagrees with the point index")));
                }
                if fi.point_num_bytes as u64 != pv.bytes_per_dim as u64 {
                    proof {
                        assert(point_values is Some && field_info is Some);
                        assert(field_info->0.point_num_bytes != point_values->0.bytes_per_dim);
                    }
                    return Err(Error::IllegalArgument(String::from_str("declared bytes per dimension disagree with the point index")));
                }
            }
        }
        Ok(LeafReader { max_doc, field_name, field_info, point_values })
    }

    /// Number of documents in this segment.
    pub fn max_doc(&self) -> (r: i32)
        ensures
            r == self.max_doc,
    {
        self.max_doc
    }

    /// Declared point schema of `field`, or `None` when the leaf knows no
    /// such field.
    pub fn field_info(&self, field: &String) -> (r: Option<&FieldInfo>)
        ensures
            match r {
                Some(fi) => self.field_name@ == field@ && self.field_info == Some(*fi),
                None => self.field_name@ != field@ || self.field_info is None,
            },
    {
        if self.field_name == *field {
            match &self.field_info {
                Some(fi) => Some(fi),
                None => None,
            }
        } else {
            None
        }
    }

    /// The point index of this leaf, if any points were written.
    pub fn point_values(&self) -> (r: Option<&PointValues>)
        ensures
            match r {
                Some(pv) => self.point_values == Some(*pv),
                None => self.point_values is None,
            },
    {
        match &self.point_values {
            Some(pv) => Some(pv),
            None => None,
        }
    }
}

impl DocIdSetBuilder {
    /// A builder sized against a segment's total document count; the point
    /// index's per-field document count serves as a sizing hint.
    pub fn from_values(max_doc: i32, values: &PointValues) -> (r: DocIdSetBuilder)
        requires
            max_doc >= 0,
        ensures
            r.wf(),
            r.spec_max_doc() == max_doc,
            r.docs() =~= Set::<int>::empty(),
    {
        let _hint = values.doc_count();
        DocIdSetBuilder::new(max_doc)
    }
}

/// Document id `d` carries at least one point.
pub open spec fn doc_present(points: Seq<PointEntry>, d: int) -> bool {
    exists|i: int| 0 <= i < points.len() && (#[trigger] points[i]).doc == d
}

/// For a sorted list of non-negative document ids, the distinct count is
/// at most one past the last id; and when it reaches that bound, every id
/// up to the last one carries a point.
proof fn lemma_distinct_bound_and_cover(points: Seq<PointEntry>)
    requires
        points.len() >= 1,
        docs_non_decreasing(points),
        forall|i: int| 0 <= i < points.len() ==> (#[trigger] points[i]).doc >= 0,
    ensures
        distinct_sorted_count(points) <= points[points.len() - 1].doc + 1,
        distinct_sorted_count(points) == points[points.len() - 1].doc + 1 ==> forall|d: int|
            0 <= d <= points[points.len() - 1].doc ==> #[trigger] doc_present(points, d),
    decreases points.len(),
{
    if points.len() == 1 {
        if distinct_sorted_count(points) == points[0].doc + 1 {
            assert forall|d: int| 0 <= d <= points[0].doc implies #[trigger] doc_present(
                points,
                d,
            ) by {
                assert(points[0].doc == d);
            }
        }
    } else {
        let s1 = points.drop_last();
        assert forall|i: int| 0 <= i < s1.len() implies (#[trigger] s1[i]).doc >= 0 by {
            assert(points[i].doc >= 0);
        }
        assert(docs_non_decreasing(s1)) by {
            assert forall|i: int, j: int| 0 <= i < j < s1.len() implies s1[i].doc <= s1[j].doc by {
                assert(points[i].doc <= points[j].doc);
            }
        }
        lemma_distinct_bound_and_cover(s1);
        let y = s1[s1.len() - 1].doc;
        let x = points[points.len() - 1].doc;
        assert(y <= x);
        if x == y {
            assert(distinct_sorted_count(points) == distinct_sorted_count(s1));
            if distinct_sorted_count(points) == x + 1 {
                assert forall|d: int| 0 <= d <= x implies #[trigger] doc_present(points, d) by {
                    assert(doc_present(s1, d));
                    let i = choose|i: int| 0 <= i < s1.len() && (#[trigger] s1[i]).doc == d;
                    assert(points[i].doc == d);
                }
            }
        } else {
            assert(distinct_sorted_count(points) == distinct_sorted_count(s1) + 1);
            if distinct_sorted_count(points) == x + 1 {
                assert(distinct_sorted_count(s1) == x);
                assert(distinct_sorted_count(s1) <= y + 1);
                assert(x == y + 1);
                assert(distinct_sorted_count(s1) == y + 1);
                assert forall|d: int| 0 <= d <= x implies #[trigger] doc_present(points, d) by {
                    if d <= y {
                        assert(doc_present(s1, d));
                        let i = choose|i: int| 0 <= i < s1.len() && (#[trigger] s1[i]).doc == d;
                        assert(points[i].doc == d);
                    } else {
                        assert(points[points.len() - 1].doc == d);
                    }
                }
            }
        }
    }
}

/// Pigeonhole for dense document ids: when every point's id lies below
/// `max_doc` and the distinct count equals `max_doc`, every id below
/// `max_doc` carries a point.
pub proof fn lemma_full_doc_count_covers(points: Seq<PointEntry>, max_doc: int)
    requires
        points.len() >= 1,
        docs_non_decreasing(points),
        forall|i: int| 0 <= i < points.len() ==> 0 <= (#[trigger] points[i]).doc < max_doc,
        distinct_sorted_count(points) == max_doc,
    ensures
        forall|d: int| 0 <= d < max_doc ==> #[trigger] doc_present(points, d),
{
    lemma_distinct_bound_and_cover(points);
    let last = points[points.len() - 1].doc;
    assert(last <= max_doc - 1);
    assert(distinct_sorted_count(points) <= last + 1);
    assert(last == max_doc - 1);
}

} // verus!
