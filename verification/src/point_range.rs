//! Multi-dimensional numeric range queries over a packed point index, and
//! their compilation into weights and scorers.
//!
//! A range query is parameterized by a field, a dimensionality, and packed
//! lower and upper bounds compared lexicographically per dimension as
//! unsigned big-endian magnitudes. Compilation follows the pipeline: the
//! immutable query compiles into a weight, and the weight compiles per leaf
//! segment into an optional scorer whose cursor enumerates the matching
//! document ids in ascending order.

use vstd::prelude::*;
use vstd::string::StringExecFns;
use crate::bytes_cmp::{
    lex_le, lex_lt, dim_window, window_lt, copy_bytes, lemma_window_bounds,
    lemma_lex_le_transitive, lemma_lex_lt_le_transitive, lemma_lex_le_lt_transitive,
    lemma_lt_iff_not_le,
};
use crate::doc_id_set::{AllDocsIterator, DocIdSet, DocIdSetBuilder, DocIdSetIterator, EmptyDocIterator, NO_MORE_DOCS};
use crate::errors::Error;
use crate::numeric::{dec_digits, usize_to_dec_string};
use crate::points::{doc_present, lemma_full_doc_count_covers, LeafReader, PointEntry, PointValues};

verus! {

/// Name of this query kind, reported by queries and weights.
pub const POINT_RANGE: &'static str = "point_range";

/// Value types a point range query can be declared over.
#[derive(Copy, Clone)]
pub enum PointValueType {
    /// 32-bit integer, 4 bytes per dimension.
    Integer,
    /// 32-bit floating point, 4 bytes per dimension.
    Float,
    /// 64-bit floating point, 8 bytes per dimension.
    Double,
    /// 64-bit integer, 8 bytes per dimension.
    Long,
}

/// Spatial relation of an index node's bounding range to the query range.
#[derive(Copy, Clone, PartialEq, Eq, Structural)]
pub enum Relation {
    /// The node's range lies entirely inside the query range: every
    /// document below it matches without per-document checks.
    CellInsideQuery,
    /// The node's range overlaps the query range boundary: descend and
    /// check per document.
    CellCrossesQuery,
    /// The node's range lies entirely outside the query range: prune.
    CellOutsideQuery,
}

/// Dimension `d` of `value` lies inside the query range `[lower, upper]`.
pub open spec fn dim_in_range(value: Seq<u8>, lower: Seq<u8>, upper: Seq<u8>, d: int, w: int) -> bool {
    lex_le(dim_window(lower, d, w), dim_window(value, d, w)) && lex_le(
        dim_window(value, d, w),
        dim_window(upper, d, w),
    )
}

/// A packed value lies inside `[lower, upper]` when every dimension's
/// window does, under big-endian unsigned byte comparison.
pub open spec fn point_in_range(
    value: Seq<u8>,
    lower: Seq<u8>,
    upper: Seq<u8>,
    num_dims: int,
    w: int,
) -> bool {
    forall|d: int| 0 <= d < num_dims ==> #[trigger] dim_in_range(value, lower, upper, d, w)
}

/// Dimension `d` of a node range `[min_packed, max_packed]` is disjoint
/// from the query range: entirely above the upper or below the lower bound.
pub open spec fn dim_outside(
    lower: Seq<u8>,
    upper: Seq<u8>,
    min_packed: Seq<u8>,
    max_packed: Seq<u8>,
    d: int,
    w: int,
) -> bool {
    lex_lt(dim_window(upper, d, w), dim_window(min_packed, d, w)) || lex_lt(
        dim_window(max_packed, d, w),
        dim_window(lower, d, w),
    )
}

/// Dimension `d` of a node range lies entirely within the query range.
pub open spec fn dim_contained(
    lower: Seq<u8>,
    upper: Seq<u8>,
    min_packed: Seq<u8>,
    max_packed: Seq<u8>,
    d: int,
    w: int,
) -> bool {
    lex_le(dim_window(lower, d, w), dim_window(min_packed, d, w)) && lex_le(
        dim_window(max_packed, d, w),
        dim_window(upper, d, w),
    )
}

/// Some dimension of the node range is disjoint from the query range.
pub open spec fn cell_outside(
    lower: Seq<u8>,
    upper: Seq<u8>,
    min_packed: Seq<u8>,
    max_packed: Seq<u8>,
    num_dims: int,
    w: int,
) -> bool {
    exists|d: int|
        0 <= d < num_dims && #[trigger] dim_outside(lower, upper, min_packed, max_packed, d, w)
}

/// Every dimension of the node range lies within the query range.
pub open spec fn cell_contained(
    lower: Seq<u8>,
    upper: Seq<u8>,
    min_packed: Seq<u8>,
    max_packed: Seq<u8>,
    num_dims: int,
    w: int,
) -> bool {
    forall|d: int|
        0 <= d < num_dims ==> #[trigger] dim_contained(lower, upper, min_packed, max_packed, d, w)
}

/// Document ids having at least one point inside `[lower, upper]`.
pub open spec fn matching_docs(
    points: Seq<PointEntry>,
    lower: Seq<u8>,
    upper: Seq<u8>,
    num_dims: int,
    w: int,
) -> Set<int> {
    Set::new(
        |doc: int|
            exists|i: int|
                0 <= i < points.len() && (#[trigger] points[i]).doc == doc && point_in_range(
                    points[i].packed@,
                    lower,
                    upper,
                    num_dims,
                    w,
                ),
    )
}

/// A node range entirely outside the query range in some dimension holds no
/// matching value: any value within the node's per-dimension bounds is
/// outside `[lower, upper]`.
pub proof fn lemma_cell_outside_excludes(
    lower: Seq<u8>,
    upper: Seq<u8>,
    min_packed: Seq<u8>,
    max_packed: Seq<u8>,
    value: Seq<u8>,
    num_dims: int,
    w: int,
)
    requires
        num_dims >= 1,
        w >= 1,
        lower.len() == num_dims * w,
        upper.len() == num_dims * w,
        min_packed.len() == num_dims * w,
        max_packed.len() == num_dims * w,
        value.len() == num_dims * w,
        cell_outside(lower, upper, min_packed, max_packed, num_dims, w),
        forall|d: int|
            0 <= d < num_dims ==> #[trigger] dim_in_range(value, min_packed, max_packed, d, w),
    ensures
        !point_in_range(value, lower, upper, num_dims, w),
{
    let d = choose|d: int|
        0 <= d < num_dims && #[trigger] dim_outside(lower, upper, min_packed, max_packed, d, w);
    lemma_window_bounds(d, num_dims, w);
    assert(dim_in_range(value, min_packed, max_packed, d, w));
    if lex_lt(dim_window(upper, d, w), dim_window(min_packed, d, w)) {
        lemma_lex_lt_le_transitive(
            dim_window(upper, d, w),
            dim_window(min_packed, d, w),
            dim_window(value, d, w),
        );
        lemma_lt_iff_not_le(dim_window(upper, d, w), dim_window(value, d, w));
    } else {
        lemma_lex_le_lt_transitive(
            dim_window(value, d, w),
            dim_window(max_packed, d, w),
            dim_window(lower, d, w),
        );
        lemma_lt_iff_not_le(dim_window(value, d, w), dim_window(lower, d, w));
    }
    assert(!dim_in_range(value, lower, upper, d, w));
}

/// A node range entirely inside the query range in every dimension only
/// holds matching values: any value within the node's per-dimension bounds
/// is inside `[lower, upper]`.
pub proof fn lemma_cell_inside_accepts(
    lower: Seq<u8>,
    upper: Seq<u8>,
    min_packed: Seq<u8>,
    max_packed: Seq<u8>,
    value: Seq<u8>,
    num_dims: int,
    w: int,
)
    requires
        num_dims >= 1,
        w >= 1,
        lower.len() == num_dims * w,
        upper.len() == num_dims * w,
        min_packed.len() == num_dims * w,
        max_packed.len() == num_dims * w,
        value.len() == num_dims * w,
        cell_contained(lower, upper, min_packed, max_packed, num_dims, w),
        forall|d: int|
            0 <= d < num_dims ==> #[trigger] dim_in_range(value, min_packed, max_packed, d, w),
    ensures
        point_in_range(value, lower, upper, num_dims, w),
{
    assert forall|d: int| 0 <= d < num_dims implies #[trigger] dim_in_range(
        value,
        lower,
        upper,
        d,
        w,
    ) by {
        lemma_window_bounds(d, num_dims, w);
        assert(dim_contained(lower, upper, min_packed, max_packed, d, w));
        assert(dim_in_range(value, min_packed, max_packed, d, w));
        lemma_lex_le_transitive(
            dim_window(lower, d, w),
            dim_window(min_packed, d, w),
            dim_window(value, d, w),
        );
        lemma_lex_le_transitive(
            dim_window(value, d, w),
            dim_window(max_packed, d, w),
            dim_window(upper, d, w),
        );
    }
}

/// Immutable description of a range predicate over one point field.
pub struct PointRangeQuery {
    /// The queried field.
    pub field: String,
    /// Number of dimensions of the query region.
    pub num_dims: usize,
    /// Bytes per dimension, derived as `lower_point.len() / num_dims`.
    pub bytes_per_dim: usize,
    /// Packed lower bound, inclusive.
    pub lower_point: Vec<u8>,
    /// Packed upper bound, inclusive.
    pub upper_point: Vec<u8>,
    /// Declared value type of the field.
    pub value_type: PointValueType,
}

impl PointRangeQuery {
    /// Well-formed query: positive dimensionality and width, bounds of
    /// equal, consistent length.
    pub open spec fn wf(&self) -> bool {
        &&& self.num_dims >= 1
        &&& self.bytes_per_dim >= 1
        &&& self.num_dims * self.bytes_per_dim <= usize::MAX
        &&& self.lower_point@.len() == self.num_dims * self.bytes_per_dim
        &&& self.upper_point@.len() == self.num_dims * self.bytes_per_dim
    }

    /// Build a range query. Construction succeeds exactly when the bounds
    /// are non-empty, of equal length, and an exact multiple of a positive
    /// dimensionality; otherwise it fails with an illegal-argument error,
    /// never deferring the problem to execution.
    pub fn new(
        field: String,
        lower_point: Vec<u8>,
        upper_point: Vec<u8>,
        num_dims: usize,
        value_type: PointValueType,
    ) -> (r: Result<PointRangeQuery, Error>)
        ensures
            r is Ok <==> {
                &&& field@.len() > 0
                &&& num_dims >= 1
                &&& lower_point@.len() > 0
                &&& upper_point@.len() > 0
                &&& lower_point@.len() % (num_dims as nat) == 0
                &&& lower_point@.len() == upper_point@.len()
            },
            r matches Ok(q) ==> q.wf() && q.field@ == field@ && q.num_dims == num_dims
                && q.bytes_per_dim == lower_point@.len() / (num_dims as nat) && q.lower_point@
                == lower_point@ && q.upper_point@ == upper_point@ && q.value_type == value_type,
            r matches Err(e) ==> e is IllegalArgument,
    {
        if field.as_str().is_empty() {
            return Err(Error::IllegalArgument(String::from_str("field must not be empty")));
        }
        if num_dims < 1 {
            return Err(Error::IllegalArgument(String::from_str("numDims must be positive")));
        }
        if lower_point.len() == 0 {
            return Err(Error::IllegalArgument(String::from_str("lowerPoint must not be empty")));
        }
        if upper_point.len() == 0 {
            return Err(Error::IllegalArgument(String::from_str("upperPoint must not be empty")));
        }
        if lower_point.len() % num_dims != 0 {
            return Err(Error::IllegalArgument(String::from_str("lowerPoint is not a fixed multiple of numDims")));
        }
        if lower_point.len() != upper_point.len() {
            return Err(Error::IllegalArgument(String::from_str("lowerPoint and upperPoint have different lengths")));
        }
        let bytes_per_dim = lower_point.len() / num_dims;
        proof {
            vstd::arithmetic::div_mod::lemma_fundamental_div_mod(
                lower_point@.len() as int,
                num_dims as int,
            );
        }
        Ok(
            PointRangeQuery {
                field,
                num_dims,
                bytes_per_dim,
                lower_point,
                upper_point,
                value_type,
            },
        )
    }

    /// Compile this query into a weight for one search. The query is
    /// scoring-agnostic, so the weight only carries the query description.
    pub fn create_weight(&self, _needs_scores: bool) -> (w: PointRangeWeight)
        requires
            self.wf(),
        ensures
            w.wf(),
            w.field@ == self.field@,
            w.num_dims == self.num_dims,
            w.bytes_per_dim == self.bytes_per_dim,
            w.lower_point@ == self.lower_point@,
            w.upper_point@ == self.upper_point@,
            w.value_type == self.value_type,
    {
        PointRangeWeight::new(
            self.field.clone(),
            self.num_dims,
            self.bytes_per_dim,
            copy_bytes(&self.lower_point),
            copy_bytes(&self.upper_point),
            self.value_type,
        )
    }

    /// Name of this query kind.
    pub fn query_type(&self) -> (r: &'static str)
        ensures
            r@ == POINT_RANGE@,
    {
        POINT_RANGE
    }
}

/// One-per-search compilation of a `PointRangeQuery`, able to produce a
/// scorer per leaf segment or declare that a leaf cannot match.
pub struct PointRangeWeight {
    /// The queried field.
    pub field: String,
    /// Number of dimensions of the query region.
    pub num_dims: usize,
    /// Bytes per dimension.
    pub bytes_per_dim: usize,
    /// Packed lower bound, inclusive.
    pub lower_point: Vec<u8>,
    /// Packed upper bound, inclusive.
    pub upper_point: Vec<u8>,
    /// Declared value type of the field.
    pub value_type: PointValueType,
}

impl PointRangeWeight {
    /// Well-formed weight: positive dimensionality and width, bounds of
    /// equal, consistent length.
    pub open spec fn wf(&self) -> bool {
        &&& self.num_dims >= 1
        &&& self.bytes_per_dim >= 1
        &&& self.num_dims * self.bytes_per_dim <= usize::MAX
        &&& self.lower_point@.len() == self.num_dims * self.bytes_per_dim
        &&& self.upper_point@.len() == self.num_dims * self.bytes_per_dim
    }

    /// A weight carrying the query description it was compiled from.
    pub fn new(
        field: String,
        num_dims: usize,
        bytes_per_dim: usize,
        lower_point: Vec<u8>,
        upper_point: Vec<u8>,
        value_type: PointValueType,
    ) -> (w: PointRangeWeight)
        requires
            num_dims >= 1,
            bytes_per_dim >= 1,
            num_dims * bytes_per_dim <= usize::MAX,
            lower_point@.len() == num_dims * bytes_per_dim,
            upper_point@.len() == num_dims * bytes_per_dim,
        ensures
            w.wf(),
            w.field@ == field@,
            w.num_dims == num_dims,
            w.bytes_per_dim == bytes_per_dim,
            w.lower_point@ == lower_point@,
            w.upper_point@ == upper_point@,
            w.value_type == value_type,
    {
        PointRangeWeight { field, num_dims, bytes_per_dim, lower_point, upper_point, value_type }
    }

    /// Name of this query kind.
    pub fn query_type(&self) -> (r: &'static str)
        ensures
            r@ == POINT_RANGE@,
    {
        POINT_RANGE
    }

    /// Matches contribute a fixed weight, not a relevance score.
    pub fn needs_scores(&self) -> (r: bool)
        ensures
            r == false,
    {
        false
    }

    /// Explanation generation is not required for this query kind; it fails
    /// as an explicit unsupported operation, never as a silent fallback.
    pub fn explain(&self, _doc: i32) -> (r: Result<(), Error>)
        ensures
            r matches Err(e) && e is UnsupportedOperation,
    {
        Err(Error::UnsupportedOperation(String::from_str("explain is not supported for point range queries")))
    }
}

/// Visitor a range query hands to the point index traversal: it prunes,
/// descends, or accepts nodes, and accumulates accepted documents.
pub struct PointRangeIntersectVisitor {
    /// Accumulator for accepted document ids.
    pub builder: DocIdSetBuilder,
    /// Packed lower bound, inclusive.
    pub lower_point: Vec<u8>,
    /// Packed upper bound, inclusive.
    pub upper_point: Vec<u8>,
    /// Number of dimensions of the query region.
    pub num_dims: usize,
    /// Bytes per dimension.
    pub bytes_per_dim: usize,
}

impl PointRangeIntersectVisitor {
    /// Well-formed visitor: the bounds share the weight's layout.
    pub open spec fn wf(&self) -> bool {
        &&& self.builder.wf()
        &&& self.num_dims >= 1
        &&& self.bytes_per_dim >= 1
        &&& self.num_dims * self.bytes_per_dim <= usize::MAX
        &&& self.lower_point@.len() == self.num_dims * self.bytes_per_dim
        &&& self.upper_point@.len() == self.num_dims * self.bytes_per_dim
    }

    /// A visitor for one traversal, taking ownership of the builder and
    /// copying the weight's bounds.
    pub fn new(builder: DocIdSetBuilder, weight: &PointRangeWeight) -> (r:
        PointRangeIntersectVisitor)
        requires
            builder.wf(),
            weight.wf(),
        ensures
            r.wf(),
            r.builder == builder,
            r.lower_point@ == weight.lower_point@,
            r.upper_point@ == weight.upper_point@,
            r.num_dims == weight.num_dims,
            r.bytes_per_dim == weight.bytes_per_dim,
    {
        PointRangeIntersectVisitor {
            builder,
            lower_point: copy_bytes(&weight.lower_point),
            upper_point: copy_bytes(&weight.upper_point),
            num_dims: weight.num_dims,
            bytes_per_dim: weight.bytes_per_dim,
        }
    }

    /// Hand the accumulated documents back once the traversal is done.
    pub fn into_builder(self) -> (r: DocIdSetBuilder)
        ensures
            r == self.builder,
    {
        self.builder
    }

    /// Accept one document unconditionally. Called only below a node that
    /// compares entirely inside the query range.
    pub fn visit(&mut self, doc_id: i32)
        requires
            old(self).wf(),
            0 <= doc_id < old(self).builder.spec_max_doc(),
        ensures
            final(self).wf(),
            final(self).builder.spec_max_doc() == old(self).builder.spec_max_doc(),
            final(self).builder.docs() =~= old(self).builder.docs().insert(doc_id as int),
            final(self).lower_point@ == old(self).lower_point@,
            final(self).upper_point@ == old(self).upper_point@,
            final(self).num_dims == old(self).num_dims,
            final(self).bytes_per_dim == old(self).bytes_per_dim,
    {
        self.builder.add_doc(doc_id);
    }

    /// Check one document's own packed value against the query range,
    /// rejecting on the first violating dimension; accept it otherwise.
    /// Called only below a node that compares as crossing the query range.
    pub fn visit_by_packed_value(&mut self, doc_id: i32, packed_value: &Vec<u8>)
        requires
            old(self).wf(),
            0 <= doc_id < old(self).builder.spec_max_doc(),
            packed_value@.len() == old(self).num_dims * old(self).bytes_per_dim,
        ensures
            final(self).wf(),
            final(self).builder.spec_max_doc() == old(self).builder.spec_max_doc(),
            final(self).builder.docs() =~= if point_in_range(
                packed_value@,
                old(self).lower_point@,
                old(self).upper_point@,
                old(self).num_dims as int,
                old(self).bytes_per_dim as int,
            ) {
                old(self).builder.docs().insert(doc_id as int)
            } else {
                old(self).builder.docs()
            },
            final(self).lower_point@ == old(self).lower_point@,
            final(self).upper_point@ == old(self).upper_point@,
            final(self).num_dims == old(self).num_dims,
            final(self).bytes_per_dim == old(self).bytes_per_dim,
    {
        let w = self.bytes_per_dim;
        let ghost wd = w as int;
        let mut dim: usize = 0;
        while dim < self.num_dims
            invariant
                dim <= self.num_dims,
                *self == *old(self),
                self.wf(),
                packed_value@.len() == self.num_dims * self.bytes_per_dim,
                w == self.bytes_per_dim,
                wd == w as int,
                forall|d: int|
                    0 <= d < dim ==> #[trigger] dim_in_range(
                        packed_value@,
                        self.lower_point@,
                        self.upper_point@,
                        d,
                        wd,
                    ),
            decreases self.num_dims - dim,
        {
            proof {
                lemma_window_bounds(dim as int, self.num_dims as int, wd);
            }
            let offset = dim * w;
            let end = offset + w;
            if window_lt(packed_value, &self.lower_point, offset, end) {
                proof {
                    lemma_lt_iff_not_le(
                        dim_window(packed_value@, dim as int, wd),
                        dim_window(self.lower_point@, dim as int, wd),
                    );
                    assert(!dim_in_range(
                        packed_value@,
                        self.lower_point@,
                        self.upper_point@,
                        dim as int,
                        wd,
                    ));
                }
                return ;
            }
            if window_lt(&self.upper_point, packed_value, offset, end) {
                proof {
                    lemma_lt_iff_not_le(
                        dim_window(self.upper_point@, dim as int, wd),
                        dim_window(packed_value@, dim as int, wd),
                    );
                    assert(!dim_in_range(
                        packed_value@,
                        self.lower_point@,
                        self.upper_point@,
                        dim as int,
                        wd,
                    ));
                }
                return ;
            }
            proof {
                lemma_lt_iff_not_le(
                    dim_window(packed_value@, dim as int, wd),
                    dim_window(self.lower_point@, dim as int, wd),
                );
                lemma_lt_iff_not_le(
                    dim_window(self.upper_point@, dim as int, wd),
                    dim_window(packed_value@, dim as int, wd),
                );
                assert(dim_in_range(
                    packed_value@,
                    self.lower_point@,
                    self.upper_point@,
                    dim as int,
                    wd,
                ));
            }
            dim = dim + 1;
        }
        self.builder.add_doc(doc_id);
    }

    /// Classify a node's bounding range against the query range: outside
    /// when some dimension is disjoint from the query range, inside when
    /// every dimension's bound lies within it, crossing otherwise.
    pub fn compare(&self, min_packed_value: &Vec<u8>, max_packed_value: &Vec<u8>) -> (r: Relation)
        requires
            self.wf(),
            min_packed_value@.len() == self.num_dims * self.bytes_per_dim,
            max_packed_value@.len() == self.num_dims * self.bytes_per_dim,
        ensures
            (r == Relation::CellOutsideQuery) <==> cell_outside(
                self.lower_point@,
                self.upper_point@,
                min_packed_value@,
                max_packed_value@,
                self.num_dims as int,
                self.bytes_per_dim as int,
            ),
            (r == Relation::CellInsideQuery) <==> (!(r == Relation::CellOutsideQuery)
                && cell_contained(
                self.lower_point@,
                self.upper_point@,
                min_packed_value@,
                max_packed_value@,
                self.num_dims as int,
                self.bytes_per_dim as int,
            )),
    {
        let w = self.bytes_per_dim;
        let ghost wd = w as int;
        let ghost lo = self.lower_point@;
        let ghost up = self.upper_point@;
        let mut crosses = false;
        let mut dim: usize = 0;
        while dim < self.num_dims
            invariant
                dim <= self.num_dims,
                self.wf(),
                min_packed_value@.len() == self.num_dims * self.bytes_per_dim,
                max_packed_value@.len() == self.num_dims * self.bytes_per_dim,
                w == self.bytes_per_dim,
                wd == w as int,
                lo == self.lower_point@,
                up == self.upper_point@,
                forall|d: int|
                    0 <= d < dim ==> !(#[trigger] dim_outside(
                        lo,
                        up,
                        min_packed_value@,
                        max_packed_value@,
                        d,
                        wd,
                    )),
                crosses <==> exists|d: int|
                    0 <= d < dim && !(#[trigger] dim_contained(
                        lo,
                        up,
                        min_packed_value@,
                        max_packed_value@,
                        d,
                        wd,
                    )),
            decreases self.num_dims - dim,
        {
            proof {
                lemma_window_bounds(dim as int, self.num_dims as int, wd);
            }
            let offset = dim * w;
            let end = offset + w;
            if window_lt(&self.upper_point, min_packed_value, offset, end) || window_lt(
                max_packed_value,
                &self.lower_point,
                offset,
                end,
            ) {
                proof {
                    assert(dim_outside(lo, up, min_packed_value@, max_packed_value@, dim as int, wd));
                }
                return Relation::CellOutsideQuery;
            }
            if window_lt(min_packed_value, &self.lower_point, offset, end) || window_lt(
                &self.upper_point,
                max_packed_value,
                offset,
                end,
            ) {
                proof {
                    lemma_lt_iff_not_le(
                        dim_window(min_packed_value@, dim as int, wd),
                        dim_window(lo, dim as int, wd),
                    );
                    lemma_lt_iff_not_le(
                        dim_window(up, dim as int, wd),
                        dim_window(max_packed_value@, dim as int, wd),
                    );
                    assert(!dim_contained(
                        lo,
                        up,
                        min_packed_value@,
                        max_packed_value@,
                        dim as int,
                        wd,
                    ));
                }
                crosses = true;
            } else {
                proof {
                    lemma_lt_iff_not_le(
                        dim_window(min_packed_value@, dim as int, wd),
                        dim_window(lo, dim as int, wd),
                    );
                    lemma_lt_iff_not_le(
                        dim_window(up, dim as int, wd),
                        dim_window(max_packed_value@, dim as int, wd),
                    );
                    assert(dim_contained(
                        lo,
                        up,
                        min_packed_value@,
                        max_packed_value@,
                        dim as int,
                        wd,
                    ));
                }
            }
            dim = dim + 1;
        }
        if crosses {
            proof {
                let dd = choose|d: int|
                    0 <= d < dim && !(#[trigger] dim_contained(
                        lo,
                        up,
                        min_packed_value@,
                        max_packed_value@,
                        d,
                        wd,
                    ));
                assert(!cell_contained(
                    lo,
                    up,
                    min_packed_value@,
                    max_packed_value@,
                    self.num_dims as int,
                    wd,
                ));
            }
            Relation::CellCrossesQuery
        } else {
            Relation::CellInsideQuery
        }
    }

    /// Forward the traversal's sizing hint to the builder before a bulk
    /// accept.
    pub fn grow(&mut self, count: usize)
        ensures
            *final(self) == *old(self),
    {
        self.builder.grow(count);
    }
}

/// Document ids appearing among the first `n` points.
pub open spec fn docs_of_prefix(points: Seq<PointEntry>, n: int) -> Set<int> {
    Set::new(|doc: int| exists|k: int| 0 <= k < n && (#[trigger] points[k]).doc == doc)
}

/// Document ids with an in-range point among the first `n` points.
pub open spec fn matching_prefix(
    points: Seq<PointEntry>,
    lower: Seq<u8>,
    upper: Seq<u8>,
    num_dims: int,
    w: int,
    n: int,
) -> Set<int> {
    Set::new(
        |doc: int|
            exists|k: int|
                0 <= k < n && (#[trigger] points[k]).doc == doc && point_in_range(
                    points[k].packed@,
                    lower,
                    upper,
                    num_dims,
                    w,
                ),
    )
}

impl PointValues {
    /// Drive one traversal of this index with the given visitor. The index
    /// is flat: its single node is classified once against the query range,
    /// then pruned, bulk-accepted, or checked per document. Afterwards the
    /// visitor's accumulator holds exactly the previously added ids plus
    /// the ids of documents with an in-range point.
    pub fn intersect(&self, visitor: &mut PointRangeIntersectVisitor)
        requires
            self.wf(),
            old(visitor).wf(),
            old(visitor).num_dims == self.num_dims,
            old(visitor).bytes_per_dim == self.bytes_per_dim,
            forall|i: int|
                0 <= i < self.points@.len() ==> (#[trigger] self.points@[i]).doc < old(
                    visitor,
                ).builder.spec_max_doc(),
        ensures
            final(visitor).wf(),
            final(visitor).builder.spec_max_doc() == old(visitor).builder.spec_max_doc(),
            final(visitor).lower_point@ == old(visitor).lower_point@,
            final(visitor).upper_point@ == old(visitor).upper_point@,
            final(visitor).num_dims == old(visitor).num_dims,
            final(visitor).bytes_per_dim == old(visitor).bytes_per_dim,
            final(visitor).builder.docs() =~= old(visitor).builder.docs().union(
                matching_docs(
                    self.points@,
                    old(visitor).lower_point@,
                    old(visitor).upper_point@,
                    self.num_dims as int,
                    self.bytes_per_dim as int,
                ),
            ),
    {
        let ghost nd = self.num_dims as int;
        let ghost wd = self.bytes_per_dim as int;
        let ghost lo = visitor.lower_point@;
        let ghost up = visitor.upper_point@;
        let ghost base = visitor.builder.docs();
        proof {
            assert forall|i: int, d: int|
                0 <= i < self.points@.len() && 0 <= d < nd implies #[trigger] dim_in_range(
                self.points@[i].packed@,
                self.min_packed@,
                self.max_packed@,
                d,
                wd,
            ) by {
                assert(lex_le(
                    dim_window(self.min_packed@, d, wd),
                    dim_window(self.points@[i].packed@, d, wd),
                ));
            }
        }
        let relation = visitor.compare(&self.min_packed, &self.max_packed);
        match relation {
            Relation::CellOutsideQuery => {
                proof {
                    assert forall|i: int| 0 <= i < self.points@.len() implies !point_in_range(
                        (#[trigger] self.points@[i]).packed@,
                        lo,
                        up,
                        nd,
                        wd,
                    ) by {
                        lemma_cell_outside_excludes(
                            lo,
                            up,
                            self.min_packed@,
                            self.max_packed@,
                            self.points@[i].packed@,
                            nd,
                            wd,
                        );
                    }
                    assert(base.union(matching_docs(self.points@, lo, up, nd, wd)) =~= base);
                }
            },
            Relation::CellInsideQuery => {
                proof {
                    assert forall|i: int| 0 <= i < self.points@.len() implies point_in_range(
                        (#[trigger] self.points@[i]).packed@,
                        lo,
                        up,
                        nd,
                        wd,
                    ) by {
                        lemma_cell_inside_accepts(
                            lo,
                            up,
                            self.min_packed@,
                            self.max_packed@,
                            self.points@[i].packed@,
                            nd,
                            wd,
                        );
                    }
                }
                visitor.grow(self.points.len());
                let mut i: usize = 0;
                while i < self.points.len()
                    invariant
                        i <= self.points@.len(),
                        self.wf(),
                        visitor.wf(),
                        visitor.num_dims == self.num_dims,
                        visitor.bytes_per_dim == self.bytes_per_dim,
                        visitor.lower_point@ == lo,
                        visitor.upper_point@ == up,
                        nd == self.num_dims as int,
                        wd == self.bytes_per_dim as int,
                        visitor.builder.spec_max_doc() == old(visitor).builder.spec_max_doc(),
                        forall|k: int|
                            0 <= k < self.points@.len() ==> (#[trigger] self.points@[k]).doc < visitor.builder.spec_max_doc(),
                        forall|k: int|
                            0 <= k < self.points@.len() ==> point_in_range(
                                (#[trigger] self.points@[k]).packed@,
                                lo,
                                up,
                                nd,
                                wd,
                            ),
                        visitor.builder.docs() =~= base.union(
                            docs_of_prefix(self.points@, i as int),
                        ),
                    decreases self.points@.len() - i,
                {
                    let doc = self.points[i].doc;
                    proof {
                        assert(self.points@[i as int].packed@.len() == self.packed_len());
                    }
                    visitor.visit(doc);
                    proof {
                        assert(docs_of_prefix(self.points@, i + 1) =~= docs_of_prefix(
                            self.points@,
                            i as int,
                        ).insert(self.points@[i as int].doc as int));
                        assert(visitor.builder.docs() =~= base.union(
                            docs_of_prefix(self.points@, i + 1),
                        ));
                    }
                    i = i + 1;
                }
                proof {
                    assert(matching_docs(self.points@, lo, up, nd, wd) =~= docs_of_prefix(
                        self.points@,
                        self.points@.len() as int,
                    ));
                }
            },
            Relation::CellCrossesQuery => {
                let mut i: usize = 0;
                while i < self.points.len()
                    invariant
                        i <= self.points@.len(),
                        self.wf(),
                        visitor.wf(),
                        visitor.num_dims == self.num_dims,
                        visitor.bytes_per_dim == self.bytes_per_dim,
                        visitor.lower_point@ == lo,
                        visitor.upper_point@ == up,
                        nd == self.num_dims as int,
                        wd == self.bytes_per_dim as int,
                        visitor.builder.spec_max_doc() == old(visitor).builder.spec_max_doc(),
                        forall|k: int|
                            0 <= k < self.points@.len() ==> (#[trigger] self.points@[k]).doc < visitor.builder.spec_max_doc(),
                        visitor.builder.docs() =~= base.union(
                            matching_prefix(self.points@, lo, up, nd, wd, i as int),
                        ),
                    decreases self.points@.len() - i,
                {
                    let doc = self.points[i].doc;
                    proof {
                        assert(self.points@[i as int].packed@.len() == self.packed_len());
                    }
                    visitor.visit_by_packed_value(doc, &self.points[i].packed);
                    proof {
                        if point_in_range(self.points@[i as int].packed@, lo, up, nd, wd) {
                            assert(matching_prefix(self.points@, lo, up, nd, wd, i + 1)
                                =~= matching_prefix(self.points@, lo, up, nd, wd, i as int).insert(
                                self.points@[i as int].doc as int,
                            ));
                        } else {
                            assert(matching_prefix(self.points@, lo, up, nd, wd, i + 1)
                                =~= matching_prefix(self.points@, lo, up, nd, wd, i as int));
                        }
                        assert(visitor.builder.docs() =~= base.union(
                            matching_prefix(self.points@, lo, up, nd, wd, i + 1),
                        ));
                    }
                    i = i + 1;
                }
                proof {
                    assert(matching_docs(self.points@, lo, up, nd, wd) =~= matching_prefix(
                        self.points@,
                        lo,
                        up,
                        nd,
                        wd,
                        self.points@.len() as int,
                    ));
                }
            },
        }
    }
}

impl PointRangeWeight {
    /// Collect the documents of one leaf that match this weight's range,
    /// by driving the point index traversal with an intersect visitor and
    /// finalizing its accumulator.
    pub fn build_matching_doc_set(&self, max_doc: i32, values: &PointValues) -> (r: DocIdSet)
        requires
            self.wf(),
            values.wf(),
            values.num_dims == self.num_dims,
            values.bytes_per_dim == self.bytes_per_dim,
            max_doc >= 0,
            forall|i: int|
                0 <= i < values.points@.len() ==> (#[trigger] values.points@[i]).doc < max_doc,
        ensures
            r.wf(),
            forall|k: int| 0 <= k < r.docs@.len() ==> 0 <= #[trigger] r.docs@[k] < max_doc,
            forall|d: i32| #[trigger]
                r.docs@.contains(d) <==> matching_docs(
                    values.points@,
                    self.lower_point@,
                    self.upper_point@,
                    self.num_dims as int,
                    self.bytes_per_dim as int,
                ).contains(d as int),
    {
        let builder = DocIdSetBuilder::from_values(max_doc, values);
        let mut visitor = PointRangeIntersectVisitor::new(builder, self);
        values.intersect(&mut visitor);
        let result = visitor.into_builder().build();
        proof {
            assert forall|d: i32| #[trigger]
                result.docs@.contains(d) <==> matching_docs(
                    values.points@,
                    self.lower_point@,
                    self.upper_point@,
                    self.num_dims as int,
                    self.bytes_per_dim as int,
                ).contains(d as int) by {}
        }
        result
    }
}

/// A strictly ascending sequence of mathematical document ids.
pub open spec fn ascending(s: Seq<int>) -> bool {
    forall|i: int, j: int| 0 <= i < j < s.len() ==> s[i] < s[j]
}

/// Closed dispatch over the cursor kinds a point range scorer can produce:
/// a finalized document set, every document of the leaf, or no documents.
pub enum PointDocIterEnum {
    /// Cursor over a finalized matching-document set.
    DocSet(DocIdSetIterator),
    /// Cursor over every document of the leaf.
    All(AllDocsIterator),
    /// Cursor over no documents.
    Empty(EmptyDocIterator),
}

impl PointDocIterEnum {
    /// Well-formed cursor state.
    pub open spec fn wf(&self) -> bool {
        match self {
            PointDocIterEnum::DocSet(it) => it.wf(),
            PointDocIterEnum::All(it) => it.wf(),
            PointDocIterEnum::Empty(it) => it.wf(),
        }
    }

    /// The full enumeration this cursor walks, as mathematical ids.
    pub open spec fn spec_docs(&self) -> Seq<int> {
        match self {
            PointDocIterEnum::DocSet(it) => it.docs@.map_values(|v: i32| v as int),
            PointDocIterEnum::All(it) => Seq::new(it.max_doc as nat, |k: int| k),
            PointDocIterEnum::Empty(_) => Seq::empty(),
        }
    }

    /// Number of completed advances: `0` before the first id, one past the
    /// enumeration length when exhausted.
    pub open spec fn spec_pos(&self) -> int {
        match self {
            PointDocIterEnum::DocSet(it) => it.pos as int,
            PointDocIterEnum::All(it) => if it.doc == -1 {
                0
            } else if it.doc == NO_MORE_DOCS {
                it.max_doc + 1
            } else {
                it.doc + 1
            },
            PointDocIterEnum::Empty(it) => if it.doc == -1 {
                0
            } else {
                1
            },
        }
    }

    /// The current document id under the iteration protocol.
    pub open spec fn spec_doc(&self) -> int {
        if self.spec_pos() == 0 {
            -1
        } else if self.spec_pos() <= self.spec_docs().len() {
            self.spec_docs()[self.spec_pos() - 1]
        } else {
            NO_MORE_DOCS as int
        }
    }

    /// Current position of the cursor.
    pub fn doc_id(&self) -> (r: i32)
        requires
            self.wf(),
        ensures
            r == self.spec_doc(),
    {
        match self {
            PointDocIterEnum::DocSet(it) => it.doc_id(),
            PointDocIterEnum::All(it) => it.doc_id(),
            PointDocIterEnum::Empty(it) => it.doc_id(),
        }
    }

    /// Advance exactly one match; returns the new current id.
    pub fn next(&mut self) -> (r: i32)
        requires
            old(self).wf(),
            old(self).spec_doc() != NO_MORE_DOCS,
        ensures
            final(self).wf(),
            final(self).spec_docs() == old(self).spec_docs(),
            final(self).spec_pos() == old(self).spec_pos() + 1,
            r == final(self).spec_doc(),
    {
        match self {
            PointDocIterEnum::DocSet(it) => it.next(),
            PointDocIterEnum::All(it) => it.next(),
            PointDocIterEnum::Empty(it) => it.next(),
        }
    }

    /// Advance to the first match at or beyond `target`; returns the new
    /// current id. Monotonic: `target` must be at or beyond the current
    /// position.
    pub fn advance(&mut self, target: i32) -> (r: i32)
        requires
            old(self).wf(),
            old(self).spec_doc() != NO_MORE_DOCS,
            target >= old(self).spec_doc(),
            target >= 0,
        ensures
            final(self).wf(),
            final(self).spec_docs() == old(self).spec_docs(),
            final(self).spec_pos() >= old(self).spec_pos(),
            final(self).spec_doc() >= target,
            forall|k: int|
                0 <= k < final(self).spec_pos() - 1 ==> #[trigger] final(self).spec_docs()[k]
                    < target,
            r == final(self).spec_doc(),
    {
        match self {
            PointDocIterEnum::DocSet(it) => it.advance(target),
            PointDocIterEnum::All(it) => it.advance(target),
            PointDocIterEnum::Empty(it) => it.advance(target),
        }
    }

    /// Advance to the first match at or beyond `target` by stepping one
    /// match at a time. Same contract as `advance`.
    pub fn slow_advance(&mut self, target: i32) -> (r: i32)
        requires
            old(self).wf(),
            old(self).spec_doc() != NO_MORE_DOCS,
            target >= old(self).spec_doc(),
            target >= 0,
        ensures
            final(self).wf(),
            final(self).spec_docs() == old(self).spec_docs(),
            final(self).spec_doc() >= target,
            r == final(self).spec_doc(),
    {
        match self {
            PointDocIterEnum::DocSet(it) => it.slow_advance(target),
            PointDocIterEnum::All(it) => it.advance(target),
            PointDocIterEnum::Empty(it) => it.advance(target),
        }
    }

    /// Cheap upper bound on the number of matches; exact for these cursor
    /// kinds.
    pub fn cost(&self) -> (r: usize)
        requires
            self.wf(),
        ensures
            r == self.spec_docs().len(),
    {
        match self {
            PointDocIterEnum::DocSet(it) => it.cost(),
            PointDocIterEnum::All(it) => it.cost(),
            PointDocIterEnum::Empty(it) => it.cost(),
        }
    }

    /// Confirm the current approximate position. These cursors enumerate
    /// exact matches, so confirmation always succeeds.
    pub fn matches(&mut self) -> (r: bool)
        ensures
            *final(self) == *old(self),
            r == true,
    {
        match self {
            PointDocIterEnum::DocSet(it) => it.matches(),
            PointDocIterEnum::All(_) => true,
            PointDocIterEnum::Empty(_) => true,
        }
    }

    /// Move the cheap over-approximation one match forward. Identical to
    /// `next` for these exact cursors.
    pub fn approximate_next(&mut self) -> (r: i32)
        requires
            old(self).wf(),
            old(self).spec_doc() != NO_MORE_DOCS,
        ensures
            final(self).wf(),
            final(self).spec_docs() == old(self).spec_docs(),
            final(self).spec_pos() == old(self).spec_pos() + 1,
            r == final(self).spec_doc(),
    {
        self.next()
    }

    /// Move the cheap over-approximation to the first position at or
    /// beyond `target`. Identical to `advance` for these exact cursors.
    pub fn approximate_advance(&mut self, target: i32) -> (r: i32)
        requires
            old(self).wf(),
            old(self).spec_doc() != NO_MORE_DOCS,
            target >= old(self).spec_doc(),
            target >= 0,
        ensures
            final(self).wf(),
            final(self).spec_docs() == old(self).spec_docs(),
            final(self).spec_doc() >= target,
            r == final(self).spec_doc(),
    {
        self.advance(target)
    }
}

/// Scorer of a point range query for one leaf: a constant-scoring cursor
/// over the matching documents with an enumeration cost estimate.
pub struct PointRangeScorer {
    /// Cursor over the matching document ids.
    pub iterator: PointDocIterEnum,
    /// Estimated number of matches, used for query planning.
    pub cost_estimate: usize,
}

impl PointRangeScorer {
    /// Well-formed scorer: a sound cursor with an exact cost.
    pub open spec fn wf(&self) -> bool {
        &&& self.iterator.wf()
        &&& self.cost_estimate == self.iterator.spec_docs().len()
    }

    /// Current position of the cursor.
    pub fn doc_id(&self) -> (r: i32)
        requires
            self.wf(),
        ensures
            r == self.iterator.spec_doc(),
    {
        self.iterator.doc_id()
    }

    /// Advance exactly one match; returns the new current id.
    pub fn next(&mut self) -> (r: i32)
        requires
            old(self).wf(),
            old(self).iterator.spec_doc() != NO_MORE_DOCS,
        ensures
            final(self).wf(),
            final(self).iterator.spec_docs() == old(self).iterator.spec_docs(),
            final(self).iterator.spec_pos() == old(self).iterator.spec_pos() + 1,
            r == final(self).iterator.spec_doc(),
    {
        self.iterator.next()
    }

    /// Advance to the first match at or beyond `target`.
    pub fn advance(&mut self, target: i32) -> (r: i32)
        requires
            old(self).wf(),
            old(self).iterator.spec_doc() != NO_MORE_DOCS,
            target >= old(self).iterator.spec_doc(),
            target >= 0,
        ensures
            final(self).wf(),
            final(self).iterator.spec_docs() == old(self).iterator.spec_docs(),
            final(self).iterator.spec_doc() >= target,
            r == final(self).iterator.spec_doc(),
    {
        self.iterator.advance(target)
    }

    /// Estimated number of matches this scorer enumerates; exact here.
    pub fn cost(&self) -> (r: usize)
        ensures
            r == self.cost_estimate,
    {
        self.cost_estimate
    }
}

/// The schema error named when a field's indexed dimensionality disagrees
/// with a query's.
pub open spec fn dims_mismatch_message(field: Seq<char>, indexed: int, queried: int) -> Seq<char> {
    "field \""@ + field + "\" was indexed with numDims="@ + dec_digits(indexed)
        + " but this query has numDims="@ + dec_digits(queried)
}

/// The schema error named when a field's indexed byte width disagrees with
/// a query's.
pub open spec fn bytes_mismatch_message(field: Seq<char>, indexed: int, queried: int) -> Seq<
    char,
> {
    "field \""@ + field + "\" was indexed with bytesPerDim="@ + dec_digits(indexed)
        + " but this query has bytesPerDim="@ + dec_digits(queried)
}

impl PointRangeWeight {
    /// The leaf has point values and knows this weight's field: a scorer
    /// can be attempted for it.
    pub open spec fn leaf_applicable(&self, leaf: &LeafReader) -> bool {
        &&& leaf.point_values is Some
        &&& leaf.field_name@ == self.field@
        &&& leaf.field_info is Some
    }

    /// The field's declared layout agrees with this query's assumed layout.
    pub open spec fn schema_matches(&self, leaf: &LeafReader) -> bool {
        leaf.field_info matches Some(fi) ==> (fi.point_dimension_count == self.num_dims
            && fi.point_num_bytes == self.bytes_per_dim)
    }

    /// The query bounds cover the leaf's global per-dimension range and
    /// every document has a point: every live document matches.
    pub open spec fn all_docs_match_spec(&self, leaf: &LeafReader) -> bool {
        leaf.point_values matches Some(pv) ==> (pv.doc_count == leaf.max_doc && cell_contained(
            self.lower_point@,
            self.upper_point@,
            pv.min_packed@,
            pv.max_packed@,
            self.num_dims as int,
            self.bytes_per_dim as int,
        ))
    }

    /// The matching documents of the leaf's point index.
    pub open spec fn spec_matching_docs(&self, leaf: &LeafReader) -> Set<int> {
        matching_docs(
            leaf.point_values->0.points@,
            self.lower_point@,
            self.upper_point@,
            self.num_dims as int,
            self.bytes_per_dim as int,
        )
    }

    /// Compile this weight into a scorer for one leaf segment.
    ///
    /// `Ok(None)` means the leaf provably holds no match for this weight's
    /// field: a valid terminal, not an error. A schema mismatch between the
    /// query's assumed layout and the field's declared layout fails with an
    /// illegal-argument error rather than producing silently wrong results.
    /// A produced scorer enumerates, in strictly ascending order: every
    /// document of the leaf when the query bounds cover the leaf's global
    /// range and every document has a point; exactly the documents with an
    /// in-range point otherwise.
    pub fn create_scorer(&self, leaf: &LeafReader) -> (r: Result<Option<PointRangeScorer>, Error>)
        requires
            self.wf(),
            leaf.wf(),
        ensures
            r is Err <==> self.leaf_applicable(leaf) && !self.schema_matches(leaf),
            r matches Err(e) ==> (e matches Error::IllegalArgument(m) && m@ == (
            if leaf.field_info->0.point_dimension_count != self.num_dims {
                dims_mismatch_message(
                    self.field@,
                    leaf.field_info->0.point_dimension_count as int,
                    self.num_dims as int,
                )
            } else {
                bytes_mismatch_message(
                    self.field@,
                    leaf.field_info->0.point_num_bytes as int,
                    self.bytes_per_dim as int,
                )
            })),
            r matches Ok(o) ==> (o is None <==> !self.leaf_applicable(leaf)),
            r matches Ok(o) ==> o matches Some(s) ==> {
                &&& s.wf()
                &&& ascending(s.iterator.spec_docs())
                &&& s.iterator.spec_pos() == 0
                &&& self.all_docs_match_spec(leaf) ==> s.iterator.spec_docs() =~= Seq::new(
                    leaf.max_doc as nat,
                    |k: int| k,
                )
                &&& forall|dd: i32|
                    #[trigger] s.iterator.spec_docs().contains(dd as int)
                        <==> self.spec_matching_docs(leaf).contains(dd as int)
            },
    {
        let max_doc = leaf.max_doc();
        let values_opt = leaf.point_values();
        if values_opt.is_none() {
            return Ok(None);
        }
        let values = values_opt.unwrap();
        let info_opt = leaf.field_info(&self.field);
        if info_opt.is_none() {
            return Ok(None);
        }
        let info = info_opt.unwrap();
        if info.point_dimension_count as u64 != self.num_dims as u64 {
            let mut msg = String::from_str("field \"");
            msg.append(self.field.as_str());
            msg.append("\" was indexed with numDims=");
            let indexed = usize_to_dec_string(info.point_dimension_count as usize);
            msg.append(indexed.as_str());
            msg.append(" but this query has numDims=");
            let queried = usize_to_dec_string(self.num_dims);
            msg.append(queried.as_str());
            proof {
                assert(msg@ =~= dims_mismatch_message(
                    self.field@,
                    info.point_dimension_count as int,
                    self.num_dims as int,
                ));
            }
            return Err(Error::IllegalArgument(msg));
        }
        if info.point_num_bytes as u64 != self.bytes_per_dim as u64 {
            let mut msg = String::from_str("field \"");
            msg.append(self.field.as_str());
            msg.append("\" was indexed with bytesPerDim=");
            let indexed = usize_to_dec_string(info.point_num_bytes as usize);
            msg.append(indexed.as_str());
            msg.append(" but this query has bytesPerDim=");
            let queried = usize_to_dec_string(self.bytes_per_dim);
            msg.append(queried.as_str());
            proof {
                assert(msg@ =~= bytes_mismatch_message(
                    self.field@,
                    info.point_num_bytes as int,
                    self.bytes_per_dim as int,
                ));
            }
            return Err(Error::IllegalArgument(msg));
        }
        let ghost nd = self.num_dims as int;
        let ghost wd = self.bytes_per_dim as int;
        let w = self.bytes_per_dim;
        let mut all_docs_match = false;
        if values.doc_count() == max_doc {
            let field_packed_lower = values.min_packed_value();
            let field_packed_upper = values.max_packed_value();
            all_docs_match = true;
            let mut dim: usize = 0;
            while dim < self.num_dims
                invariant
                    dim <= self.num_dims,
                    self.wf(),
                    w == self.bytes_per_dim,
                    nd == self.num_dims as int,
                    wd == self.bytes_per_dim as int,
                    field_packed_lower@.len() == self.num_dims * self.bytes_per_dim,
                    field_packed_upper@.len() == self.num_dims * self.bytes_per_dim,
                    all_docs_match <==> forall|d: int|
                        0 <= d < dim ==> #[trigger] dim_contained(
                            self.lower_point@,
                            self.upper_point@,
                            field_packed_lower@,
                            field_packed_upper@,
                            d,
                            wd,
                        ),
                decreases self.num_dims - dim,
            {
                proof {
                    lemma_window_bounds(dim as int, nd, wd);
                }
                let offset = dim * w;
                let end = offset + w;
                let lower_above = window_lt(field_packed_lower, &self.lower_point, offset, end);
                let upper_below = window_lt(&self.upper_point, field_packed_upper, offset, end);
                proof {
                    lemma_lt_iff_not_le(
                        dim_window(field_packed_lower@, dim as int, wd),
                        dim_window(self.lower_point@, dim as int, wd),
                    );
                    lemma_lt_iff_not_le(
                        dim_window(self.upper_point@, dim as int, wd),
                        dim_window(field_packed_upper@, dim as int, wd),
                    );
                }
                if lower_above || upper_below {
                    proof {
                        assert(!dim_contained(
                            self.lower_point@,
                            self.upper_point@,
                            field_packed_lower@,
                            field_packed_upper@,
                            dim as int,
                            wd,
                        ));
                    }
                    all_docs_match = false;
                } else {
                    proof {
                        assert(dim_contained(
                            self.lower_point@,
                            self.upper_point@,
                            field_packed_lower@,
                            field_packed_upper@,
                            dim as int,
                            wd,
                        ));
                    }
                }
                dim = dim + 1;
            }
        }
        let iterator = if all_docs_match {
            proof {
                let pv = leaf.point_values->0;
                let full = Seq::new(leaf.max_doc as nat, |k: int| k);
                let matching = self.spec_matching_docs(leaf);
                assert forall|i: int| 0 <= i < pv.points@.len() implies point_in_range(
                    (#[trigger] pv.points@[i]).packed@,
                    self.lower_point@,
                    self.upper_point@,
                    nd,
                    wd,
                ) by {
                    assert(pv.points@[i].packed@.len() == pv.packed_len());
                    assert forall|d: int| 0 <= d < nd implies #[trigger] dim_in_range(
                        pv.points@[i].packed@,
                        pv.min_packed@,
                        pv.max_packed@,
                        d,
                        wd,
                    ) by {
                        assert(lex_le(
                            dim_window(pv.min_packed@, d, wd),
                            dim_window(pv.points@[i].packed@, d, wd),
                        ));
                    }
                    lemma_cell_inside_accepts(
                        self.lower_point@,
                        self.upper_point@,
                        pv.min_packed@,
                        pv.max_packed@,
                        pv.points@[i].packed@,
                        nd,
                        wd,
                    );
                }
                assert(pv == *values);
                assert forall|i: int|
                    0 <= i < pv.points@.len() implies 0 <= (#[trigger] pv.points@[i]).doc
                    < leaf.max_doc by {
                    assert(pv.points@[i].packed@.len() == pv.packed_len());
                }
                assert(pv.doc_count == leaf.max_doc);
                lemma_full_doc_count_covers(pv.points@, leaf.max_doc as int);
                assert forall|dd: i32| #[trigger] full.contains(dd as int) == matching.contains(
                    dd as int,
                ) by {
                    if 0 <= dd < leaf.max_doc {
                        assert(full[dd as int] == dd as int);
                        assert(full.contains(dd as int));
                        assert(doc_present(pv.points@, dd as int));
                        let i = choose|i: int|
                            0 <= i < pv.points@.len() && (#[trigger] pv.points@[i]).doc
                                == dd as int;
                        assert(matching.contains(dd as int));
                    } else {
                        if full.contains(dd as int) {
                            let k = choose|k: int| 0 <= k < full.len() && full[k] == dd as int;
                        }
                        if matching.contains(dd as int) {
                            let i = choose|i: int|
                                0 <= i < pv.points@.len() && (#[trigger] pv.points@[i]).doc
                                    == dd as int && point_in_range(
                                    pv.points@[i].packed@,
                                    self.lower_point@,
                                    self.upper_point@,
                                    nd,
                                    wd,
                                );
                        }
                    }
                }
            }
            PointDocIterEnum::All(AllDocsIterator::new(max_doc))
        } else {
            let matching = self.build_matching_doc_set(max_doc, values);
            let iter_opt = matching.iterator();
            if iter_opt.is_some() {
                let it = iter_opt.unwrap();
                proof {
                    let mapped = it.docs@.map_values(|v: i32| v as int);
                    assert forall|dd: i32| #[trigger]
                        mapped.contains(dd as int) == matching.docs@.contains(dd) by {
                        if mapped.contains(dd as int) {
                            let k = choose|k: int| 0 <= k < mapped.len() && mapped[k] == dd as int;
                            assert(matching.docs@[k] == dd);
                        }
                        if matching.docs@.contains(dd) {
                            let k = choose|k: int|
                                0 <= k < matching.docs@.len() && matching.docs@[k] == dd;
                            assert(mapped[k] == dd as int);
                        }
                    }
                    assert forall|i: int, j: int| 0 <= i < j < mapped.len() implies mapped[i]
                        < mapped[j] by {
                        assert(it.docs@[i] < it.docs@[j]);
                    }
                }
                PointDocIterEnum::DocSet(it)
            } else {
                proof {
                    assert forall|dd: i32| !(#[trigger] self.spec_matching_docs(leaf).contains(
                        dd as int,
                    )) by {
                        assert(!matching.docs@.contains(dd));
                    }
                }
                PointDocIterEnum::Empty(EmptyDocIterator::new())
            }
        };
        let cost = iterator.cost();
        Ok(Some(PointRangeScorer { iterator, cost_estimate: cost }))
    }
}

} // verus!
