//! Lexicographic comparison of equal-length byte windows, used to compare
//! packed point values per dimension as unsigned big-endian magnitudes.

use vstd::prelude::*;

verus! {

/// `a` is lexicographically less than or equal to `b`, for sequences of the
/// same length. Big-endian unsigned magnitude order on packed values.
pub open spec fn lex_le(a: Seq<u8>, b: Seq<u8>) -> bool
    decreases a.len(),
{
    if a.len() == 0 {
        true
    } else if a[0] < b[0] {
        true
    } else if a[0] > b[0] {
        false
    } else {
        lex_le(a.drop_first(), b.drop_first())
    }
}

/// Strict lexicographic order on equal-length sequences.
pub open spec fn lex_lt(a: Seq<u8>, b: Seq<u8>) -> bool {
    lex_le(a, b) && a != b
}

/// Every sequence compares less-than-or-equal to itself.
pub proof fn lemma_lex_le_reflexive(a: Seq<u8>)
    ensures
        lex_le(a, a),
    decreases a.len(),
{
    if a.len() > 0 {
        lemma_lex_le_reflexive(a.drop_first());
    }
}

/// On equal-length sequences, `lex_le` is total.
pub proof fn lemma_lex_le_total(a: Seq<u8>, b: Seq<u8>)
    requires
        a.len() == b.len(),
    ensures
        lex_le(a, b) || lex_le(b, a),
    decreases a.len(),
{
    if a.len() > 0 && a[0] == b[0] {
        lemma_lex_le_total(a.drop_first(), b.drop_first());
    }
}

/// On equal-length sequences, mutual `lex_le` forces equality.
pub proof fn lemma_lex_le_antisymmetric(a: Seq<u8>, b: Seq<u8>)
    requires
        a.len() == b.len(),
        lex_le(a, b),
        lex_le(b, a),
    ensures
        a =~= b,
    decreases a.len(),
{
    if a.len() > 0 {
        lemma_lex_le_antisymmetric(a.drop_first(), b.drop_first());
        assert(a =~= seq![a[0]] + a.drop_first());
        assert(b =~= seq![b[0]] + b.drop_first());
    }
}

/// `lex_le` is transitive on equal-length sequences.
pub proof fn lemma_lex_le_transitive(a: Seq<u8>, b: Seq<u8>, c: Seq<u8>)
    requires
        a.len() == b.len(),
        b.len() == c.len(),
        lex_le(a, b),
        lex_le(b, c),
    ensures
        lex_le(a, c),
    decreases a.len(),
{
    if a.len() > 0 {
        if a[0] == b[0] && b[0] == c[0] {
            lemma_lex_le_transitive(a.drop_first(), b.drop_first(), c.drop_first());
        }
    }
}

/// From strict order below a value that is itself bounded above, conclude the
/// strict order across: if `a < b` and `b <= c` then `a < c`.
pub proof fn lemma_lex_lt_le_transitive(a: Seq<u8>, b: Seq<u8>, c: Seq<u8>)
    requires
        a.len() == b.len(),
        b.len() == c.len(),
        lex_lt(a, b),
        lex_le(b, c),
    ensures
        lex_lt(a, c),
{
    lemma_lex_le_transitive(a, b, c);
    if a =~= c {
        lemma_lex_le_antisymmetric(b, c);
    }
}

/// If `a <= b` and `b < c` then `a < c`.
pub proof fn lemma_lex_le_lt_transitive(a: Seq<u8>, b: Seq<u8>, c: Seq<u8>)
    requires
        a.len() == b.len(),
        b.len() == c.len(),
        lex_le(a, b),
        lex_lt(b, c),
    ensures
        lex_lt(a, c),
{
    lemma_lex_le_transitive(a, b, c);
    if a =~= c {
        lemma_lex_le_antisymmetric(a, b);
    }
}

/// On equal-length sequences, strict order is the negation of the reverse
/// non-strict order.
pub proof fn lemma_lt_iff_not_le(a: Seq<u8>, b: Seq<u8>)
    requires
        a.len() == b.len(),
    ensures
        lex_lt(a, b) <==> !lex_le(b, a),
{
    lemma_lex_le_total(a, b);
    lemma_lex_le_reflexive(a);
    if lex_le(a, b) && lex_le(b, a) {
        lemma_lex_le_antisymmetric(a, b);
    }
}

/// Sequences that agree on a prefix and then strictly differ are strictly
/// ordered by that first difference; sequences that agree everywhere are
/// equal. This ties the scanning comparison below to `lex_le`.
proof fn lemma_lex_le_from_first_difference(a: Seq<u8>, b: Seq<u8>, k: int)
    requires
        a.len() == b.len(),
        0 <= k <= a.len(),
        forall|j: int| 0 <= j < k ==> a[j] == b[j],
        k < a.len() ==> a[k] != b[k],
    ensures
        k == a.len() ==> a =~= b,
        k < a.len() && a[k] < b[k] ==> lex_le(a, b) && !lex_le(b, a),
        k < a.len() && a[k] > b[k] ==> lex_le(b, a) && !lex_le(a, b),
    decreases k,
{
    if a.len() > 0 && k > 0 {
        lemma_lex_le_from_first_difference(a.drop_first(), b.drop_first(), k - 1);
        if k == a.len() {
            assert(a =~= seq![a[0]] + a.drop_first());
            assert(b =~= seq![b[0]] + b.drop_first());
        }
    }
}

/// The byte window of dimension `d` inside a packed value whose dimensions
/// are `w` bytes wide each.
pub open spec fn dim_window(v: Seq<u8>, d: int, w: int) -> Seq<u8> {
    v.subrange(d * w, d * w + w)
}

/// Window arithmetic: dimension `d` of `nd` occupies `[d*w, d*w + w)`, which
/// lies inside the packed width `nd * w`.
pub proof fn lemma_window_bounds(d: int, nd: int, w: int)
    requires
        0 <= d < nd,
        0 < w,
    ensures
        0 <= d * w,
        d * w + w <= nd * w,
{
    assert(0 <= d * w && d * w + w <= nd * w) by (nonlinear_arith)
        requires
            0 <= d < nd,
            0 < w,
    ;
}

/// Copy of a byte vector, element for element.
pub fn copy_bytes(v: &Vec<u8>) -> (r: Vec<u8>)
    ensures
        r@ == v@,
{
    let mut out: Vec<u8> = Vec::new();
    let mut i: usize = 0;
    while i < v.len()
        invariant
            i <= v@.len(),
            out@ == v@.subrange(0, i as int),
        decreases v@.len() - i,
    {
        out.push(v[i]);
        assert(out@ =~= v@.subrange(0, i + 1));
        i = i + 1;
    }
    assert(out@ =~= v@);
    out
}

/// Compare the windows `[offset, end)` of two byte vectors: is `a`'s window
/// lexicographically less than or equal to `b`'s?
pub fn window_le(a: &Vec<u8>, b: &Vec<u8>, offset: usize, end: usize) -> (r: bool)
    requires
        offset <= end,
        end <= a@.len(),
        end <= b@.len(),
    ensures
        r == lex_le(a@.subrange(offset as int, end as int), b@.subrange(offset as int, end as int)),
{
    let ghost wa = a@.subrange(offset as int, end as int);
    let ghost wb = b@.subrange(offset as int, end as int);
    let mut i: usize = offset;
    while i < end
        invariant
            offset <= i <= end,
            end <= a@.len(),
            end <= b@.len(),
            wa == a@.subrange(offset as int, end as int),
            wb == b@.subrange(offset as int, end as int),
            forall|j: int| offset <= j < i ==> a@[j] == b@[j],
        decreases end - i,
    {
        if a[i] < b[i] {
            proof {
                lemma_lex_le_from_first_difference(wa, wb, i - offset);
            }
            return true;
        }
        if a[i] > b[i] {
            proof {
                lemma_lex_le_from_first_difference(wa, wb, i - offset);
            }
            return false;
        }
        i = i + 1;
    }
    proof {
        lemma_lex_le_from_first_difference(wa, wb, (end - offset) as int);
        lemma_lex_le_reflexive(wa);
    }
    true
}

/// Compare the windows `[offset, end)` of two byte vectors: is `a`'s window
/// strictly lexicographically less than `b`'s?
pub fn window_lt(a: &Vec<u8>, b: &Vec<u8>, offset: usize, end: usize) -> (r: bool)
    requires
        offset <= end,
        end <= a@.len(),
        end <= b@.len(),
    ensures
        r == lex_lt(a@.subrange(offset as int, end as int), b@.subrange(offset as int, end as int)),
{
    let ghost wa = a@.subrange(offset as int, end as int);
    let ghost wb = b@.subrange(offset as int, end as int);
    let le_ba = window_le(b, a, offset, end);
    proof {
        lemma_lex_le_total(wa, wb);
        if !le_ba && wa =~= wb {
            assert(lex_le(wb, wa));
        }
        if le_ba && lex_lt(wa, wb) {
            lemma_lex_le_antisymmetric(wa, wb);
        }
    }
    !le_ba
}

} // verus!
