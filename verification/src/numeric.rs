//! Decoding of sortable big-endian point encodings back into integers,
//! and exact decimal rendering of the decoded values.
//!
//! Numeric point values are stored as fixed-width big-endian bytes with
//! the sign bit flipped, so that unsigned lexicographic byte comparison
//! orders them numerically.

use vstd::prelude::*;
use vstd::string::StringExecFns;
use crate::point_range::PointValueType;

verus! {

/// The unsigned value of four big-endian bytes.
pub open spec fn spec_be_u32(bytes: Seq<u8>) -> int {
    bytes[0] * 0x1000000 + bytes[1] * 0x10000 + bytes[2] * 0x100 + bytes[3]
}

/// The signed 32-bit value a sortable 4-byte encoding stands for: the
/// big-endian magnitude with the sign bit flipped back.
pub open spec fn spec_decode_int(bytes: Seq<u8>) -> int {
    spec_be_u32(bytes) - 0x80000000
}

/// The unsigned value of eight big-endian bytes.
pub open spec fn spec_be_u64(bytes: Seq<u8>) -> int {
    bytes[0] * 0x100000000000000 + bytes[1] * 0x1000000000000 + bytes[2] * 0x10000000000
        + bytes[3] * 0x100000000 + bytes[4] * 0x1000000 + bytes[5] * 0x10000 + bytes[6] * 0x100
        + bytes[7]
}

/// The signed 64-bit value a sortable 8-byte encoding stands for.
pub open spec fn spec_decode_long(bytes: Seq<u8>) -> int {
    spec_be_u64(bytes) - 0x8000000000000000
}

/// Decode the sortable 4-byte window at `offset` into its signed value.
pub fn decode_int_at(bytes: &Vec<u8>, offset: usize) -> (r: i32)
    requires
        offset + 4 <= bytes@.len(),
    ensures
        r == spec_decode_int(bytes@.subrange(offset as int, offset + 4)),
{
    let n = bytes.len();
    let b0 = bytes[offset] as i64;
    let b1 = bytes[offset + 1] as i64;
    let b2 = bytes[offset + 2] as i64;
    let b3 = bytes[offset + 3] as i64;
    let v: i64 = b0 * 0x1000000 + b1 * 0x10000 + b2 * 0x100 + b3 - 0x80000000;
    proof {
        let w = bytes@.subrange(offset as int, offset + 4);
        assert(w[0] == bytes@[offset as int] && w[1] == bytes@[offset + 1] && w[2] == bytes@[offset
            + 2] && w[3] == bytes@[offset + 3]);
    }
    v as i32
}

/// Decode the sortable 8-byte window at `offset` into its signed value.
pub fn decode_long_at(bytes: &Vec<u8>, offset: usize) -> (r: i64)
    requires
        offset + 8 <= bytes@.len(),
    ensures
        r == spec_decode_long(bytes@.subrange(offset as int, offset + 8)),
{
    let n = bytes.len();
    let b0 = bytes[offset] as u64;
    let b1 = bytes[offset + 1] as u64;
    let b2 = bytes[offset + 2] as u64;
    let b3 = bytes[offset + 3] as u64;
    let b4 = bytes[offset + 4] as u64;
    let b5 = bytes[offset + 5] as u64;
    let b6 = bytes[offset + 6] as u64;
    let b7 = bytes[offset + 7] as u64;
    let v: u64 = b0 * 0x100000000000000 + b1 * 0x1000000000000 + b2 * 0x10000000000 + b3
        * 0x100000000 + b4 * 0x1000000 + b5 * 0x10000 + b6 * 0x100 + b7;
    proof {
        let w = bytes@.subrange(offset as int, offset + 8);
        assert(w[0] == bytes@[offset as int] && w[1] == bytes@[offset + 1] && w[2] == bytes@[offset
            + 2] && w[3] == bytes@[offset + 3] && w[4] == bytes@[offset + 4] && w[5] == bytes@[
            offset + 5] && w[6] == bytes@[offset + 6] && w[7] == bytes@[offset + 7]);
    }
    if v >= 0x8000000000000000 {
        (v - 0x8000000000000000) as i64
    } else {
        -((0x7fffffffffffffff - v) as i64) - 1
    }
}

/// The decimal digit character of `d`.
pub open spec fn digit_char(d: int) -> char {
    if d == 0 {
        '0'
    } else if d == 1 {
        '1'
    } else if d == 2 {
        '2'
    } else if d == 3 {
        '3'
    } else if d == 4 {
        '4'
    } else if d == 5 {
        '5'
    } else if d == 6 {
        '6'
    } else if d == 7 {
        '7'
    } else if d == 8 {
        '8'
    } else {
        '9'
    }
}

/// Decimal digits of a non-negative value, most significant first.
pub open spec fn dec_digits(n: int) -> Seq<char>
    decreases n,
{
    if n < 10 {
        seq![digit_char(n)]
    } else {
        dec_digits(n / 10).push(digit_char(n % 10))
    }
}

/// Decimal rendering of a signed value: a minus sign followed by the
/// digits of its magnitude, or the digits alone.
pub open spec fn dec_str(v: int) -> Seq<char> {
    if v < 0 {
        seq!['-'] + dec_digits(-v)
    } else {
        dec_digits(v)
    }
}

/// Append the decimal digit character of `d`.
fn append_digit(out: &mut String, d: u64)
    requires
        d < 10,
    ensures
        final(out)@ == old(out)@ + seq![digit_char(d as int)],
{
    if d == 0 {
        out.append("0");
        proof {
            reveal_strlit("0");
            assert(old(out)@ + "0"@ =~= old(out)@ + seq![digit_char(0)]);
        }
    } else if d == 1 {
        out.append("1");
        proof {
            reveal_strlit("1");
            assert(old(out)@ + "1"@ =~= old(out)@ + seq![digit_char(1)]);
        }
    } else if d == 2 {
        out.append("2");
        proof {
            reveal_strlit("2");
            assert(old(out)@ + "2"@ =~= old(out)@ + seq![digit_char(2)]);
        }
    } else if d == 3 {
        out.append("3");
        proof {
            reveal_strlit("3");
            assert(old(out)@ + "3"@ =~= old(out)@ + seq![digit_char(3)]);
        }
    } else if d == 4 {
        out.append("4");
        proof {
            reveal_strlit("4");
            assert(old(out)@ + "4"@ =~= old(out)@ + seq![digit_char(4)]);
        }
    } else if d == 5 {
        out.append("5");
        proof {
            reveal_strlit("5");
            assert(old(out)@ + "5"@ =~= old(out)@ + seq![digit_char(5)]);
        }
    } else if d == 6 {
        out.append("6");
        proof {
            reveal_strlit("6");
            assert(old(out)@ + "6"@ =~= old(out)@ + seq![digit_char(6)]);
        }
    } else if d == 7 {
        out.append("7");
        proof {
            reveal_strlit("7");
            assert(old(out)@ + "7"@ =~= old(out)@ + seq![digit_char(7)]);
        }
    } else if d == 8 {
        out.append("8");
        proof {
            reveal_strlit("8");
            assert(old(out)@ + "8"@ =~= old(out)@ + seq![digit_char(8)]);
        }
    } else {
        out.append("9");
        proof {
            reveal_strlit("9");
            assert(old(out)@ + "9"@ =~= old(out)@ + seq![digit_char(9)]);
        }
    }
}

/// Append the decimal digits of `n`, most significant first.
fn push_digits(n: u64, out: &mut String)
    ensures
        final(out)@ == old(out)@ + dec_digits(n as int),
    decreases n,
{
    if n >= 10 {
        proof {
            assert(n / 10 < n) by (nonlinear_arith)
                requires
                    n >= 10,
            ;
        }
        push_digits(n / 10, out);
        append_digit(out, n % 10);
        proof {
            assert(out@ =~= old(out)@ + dec_digits(n as int));
        }
    } else {
        append_digit(out, n);
    }
}

/// The exact decimal rendering of a signed 64-bit value.
pub fn i64_to_dec_string(v: i64) -> (r: String)
    ensures
        r@ == dec_str(v as int),
{
    let mut out = String::new();
    if v < 0 {
        out.append("-");
        let mag: u64 = ((-(v + 1)) as u64) + 1;
        push_digits(mag, &mut out);
        proof {
            reveal_strlit("-");
            assert(mag == -(v as int));
            assert(out@ =~= dec_str(v as int));
        }
    } else {
        push_digits(v as u64, &mut out);
    }
    out
}

/// The exact decimal rendering of an unsigned size.
pub fn usize_to_dec_string(v: usize) -> (r: String)
    ensures
        r@ == dec_digits(v as int),
{
    let mut out = String::new();
    push_digits(v as u64, &mut out);
    out
}

/// Decimal strings of the first `n` dimensions of a packed value, joined
/// with a comma and a space.
pub open spec fn dims_strs(t: PointValueType, bytes: Seq<u8>, w: int, n: int) -> Seq<char>
    decreases n,
{
    if n <= 0 {
        Seq::empty()
    } else if n == 1 {
        dim_value_str(t, bytes, w, 0)
    } else {
        dims_strs(t, bytes, w, n - 1) + seq![',', ' '] + dim_value_str(t, bytes, w, n - 1)
    }
}

/// Decimal string of dimension `d` of a packed value.
pub open spec fn dim_value_str(t: PointValueType, bytes: Seq<u8>, w: int, d: int) -> Seq<char> {
    if t is Integer {
        dec_str(spec_decode_int(bytes.subrange(d * w, d * w + w)))
    } else {
        dec_str(spec_decode_long(bytes.subrange(d * w, d * w + w)))
    }
}

impl PointValueType {
    /// Render one dimension's bytes as the decimal value they encode.
    /// The floating-point variants fall outside this core's numeric model
    /// and yield `None`; integer variants yield the exact decimal string.
    pub fn format_single_value(self, bytes: &Vec<u8>) -> (r: Option<String>)
        requires
            self is Integer ==> bytes@.len() == 4,
            self is Long ==> bytes@.len() == 8,
        ensures
            self is Integer ==> (r matches Some(s) && s@ == dec_str(spec_decode_int(bytes@))),
            self is Long ==> (r matches Some(s) && s@ == dec_str(spec_decode_long(bytes@))),
            r is None <==> (self is Float || self is Double),
    {
        match self {
            PointValueType::Integer => {
                let v = decode_int_at(bytes, 0);
                proof {
                    assert(bytes@.subrange(0, 4) =~= bytes@);
                }
                Some(i64_to_dec_string(v as i64))
            },
            PointValueType::Long => {
                let v = decode_long_at(bytes, 0);
                proof {
                    assert(bytes@.subrange(0, 8) =~= bytes@);
                }
                Some(i64_to_dec_string(v))
            },
            PointValueType::Float => None,
            PointValueType::Double => None,
        }
    }

    /// Render a whole packed value, one decimal value per dimension,
    /// bracketed and comma-separated. The floating-point variants yield
    /// `None` as in `format_single_value`.
    pub fn format_bytes(self, bytes: &Vec<u8>, bytes_per_dim: usize) -> (r: Option<String>)
        requires
            bytes_per_dim >= 1,
            bytes@.len() % (bytes_per_dim as nat) == 0,
            self is Integer ==> bytes_per_dim == 4,
            self is Long ==> bytes_per_dim == 8,
        ensures
            !(self is Float || self is Double) ==> (r matches Some(s) && s@ == seq!['[']
                + dims_strs(
                self,
                bytes@,
                bytes_per_dim as int,
                bytes@.len() as int / bytes_per_dim as int,
            ) + seq![']']),
            r is None <==> (self is Float || self is Double),
    {
        match self {
            PointValueType::Float => {
                return None;
            },
            PointValueType::Double => {
                return None;
            },
            _ => {},
        }
        let num = bytes.len() / bytes_per_dim;
        let ghost w = bytes_per_dim as int;
        proof {
            vstd::arithmetic::div_mod::lemma_fundamental_div_mod(
                bytes@.len() as int,
                bytes_per_dim as int,
            );
        }
        let mut out = String::from_str("[");
        proof {
            reveal_strlit("[");
            assert(out@ =~= seq!['['] + dims_strs(self, bytes@, w, 0));
        }
        let mut i: usize = 0;
        while i < num
            invariant
                i <= num,
                self is Integer || self is Long,
                self is Integer ==> bytes_per_dim == 4,
                self is Long ==> bytes_per_dim == 8,
                w == bytes_per_dim as int,
                num * bytes_per_dim == bytes@.len(),
                bytes@.len() <= usize::MAX,
                out@ == seq!['['] + dims_strs(self, bytes@, w, i as int),
            decreases num - i,
        {
            proof {
                crate::bytes_cmp::lemma_window_bounds(i as int, num as int, w);
            }
            let offset = i * bytes_per_dim;
            if i > 0 {
                out.append(", ");
                proof {
                    reveal_strlit(", ");
                    assert(out@ =~= seq!['['] + dims_strs(self, bytes@, w, i as int) + seq![
                        ',',
                        ' ',
                    ]);
                }
            }
            let piece = match self {
                PointValueType::Integer => {
                    let v = decode_int_at(bytes, offset);
                    i64_to_dec_string(v as i64)
                },
                _ => {
                    let v = decode_long_at(bytes, offset);
                    i64_to_dec_string(v)
                },
            };
            out.append(piece.as_str());
            proof {
                assert(piece@ == dim_value_str(self, bytes@, w, i as int));
                if i == 0 {
                    assert(out@ =~= seq!['['] + dims_strs(self, bytes@, w, 1));
                } else {
                    assert(out@ =~= seq!['['] + dims_strs(self, bytes@, w, i + 1));
                }
            }
            i = i + 1;
        }
        out.append("]");
        proof {
            reveal_strlit("]");
            assert(out@ =~= seq!['['] + dims_strs(self, bytes@, w, num as int) + seq![']']);
            assert(num as int == bytes@.len() as int / bytes_per_dim as int);
        }
        Some(out)
    }
}

impl PointValueType {
    /// Short name of the value type, as queries print it.
    pub fn kind_name(self) -> (r: &'static str)
        ensures
            self is Integer ==> r@ == "int"@,
            self is Float ==> r@ == "float"@,
            self is Double ==> r@ == "double"@,
            self is Long ==> r@ == "long"@,
    {
        match self {
            PointValueType::Integer => "int",
            PointValueType::Float => "float",
            PointValueType::Double => "double",
            PointValueType::Long => "long",
        }
    }
}

/// The one-line rendering of a range predicate: its field, value type,
/// layout and decoded bounds.
pub open spec fn range_description(
    label: Seq<char>,
    field: Seq<char>,
    t: PointValueType,
    num_dims: int,
    bytes_per_dim: int,
    lower: Seq<u8>,
    upper: Seq<u8>,
) -> Seq<char> {
    label + "(field: "@ + field + ", type:"@ + kind_name_seq(t) + ", num_dims: "@ + dec_str(
        num_dims,
    ) + ", bytes_per_dim: "@ + dec_str(bytes_per_dim) + ", lower: "@ + (seq!['['] + dims_strs(
        t,
        lower,
        bytes_per_dim,
        lower.len() as int / bytes_per_dim,
    ) + seq![']']) + ", upper: "@ + (seq!['['] + dims_strs(
        t,
        upper,
        bytes_per_dim,
        upper.len() as int / bytes_per_dim,
    ) + seq![']']) + ")"@
}

/// The view of `kind_name`.
pub open spec fn kind_name_seq(t: PointValueType) -> Seq<char> {
    if t is Integer {
        "int"@
    } else if t is Float {
        "float"@
    } else if t is Double {
        "double"@
    } else {
        "long"@
    }
}

/// Assemble the one-line rendering from its pieces; `None` for the
/// floating-point kinds, whose bounds this core does not decode.
pub fn describe_range(
    label: &'static str,
    field: &String,
    t: PointValueType,
    num_dims: usize,
    bytes_per_dim: usize,
    lower: &Vec<u8>,
    upper: &Vec<u8>,
) -> (r: Option<String>)
    requires
        bytes_per_dim >= 1,
        lower@.len() % (bytes_per_dim as nat) == 0,
        upper@.len() % (bytes_per_dim as nat) == 0,
        t is Integer ==> bytes_per_dim == 4,
        t is Long ==> bytes_per_dim == 8,
        !(t is Float || t is Double) ==> num_dims <= 0x7fff_ffff_ffff_ffff,
    ensures
        !(t is Float || t is Double) ==> (r matches Some(s) && s@ == range_description(
            label@,
            field@,
            t,
            num_dims as int,
            bytes_per_dim as int,
            lower@,
            upper@,
        )),
        r is None <==> (t is Float || t is Double),
{
    let lower_str = match t.format_bytes(lower, bytes_per_dim) {
        Some(s) => s,
        None => {
            return None;
        },
    };
    let upper_str = match t.format_bytes(upper, bytes_per_dim) {
        Some(s) => s,
        None => {
            return None;
        },
    };
    let mut out = String::from_str(label);
    out.append("(field: ");
    out.append(field.as_str());
    out.append(", type:");
    out.append(t.kind_name());
    out.append(", num_dims: ");
    let dims_dec = i64_to_dec_string(num_dims as i64);
    out.append(dims_dec.as_str());
    out.append(", bytes_per_dim: ");
    let width_dec = i64_to_dec_string(bytes_per_dim as i64);
    out.append(width_dec.as_str());
    out.append(", lower: ");
    out.append(lower_str.as_str());
    out.append(", upper: ");
    out.append(upper_str.as_str());
    out.append(")");
    proof {
        assert(out@ =~= range_description(
            label@,
            field@,
            t,
            num_dims as int,
            bytes_per_dim as int,
            lower@,
            upper@,
        ));
    }
    Some(out)
}

impl crate::point_range::PointRangeQuery {
    /// One-line rendering of this query: field, value type, layout and
    /// decoded bounds. `None` for the floating-point kinds, which the
    /// shell around the library renders.
    pub fn description(&self) -> (r: Option<String>)
        requires
            self.wf(),
            self.value_type is Integer ==> self.bytes_per_dim == 4,
            self.value_type is Long ==> self.bytes_per_dim == 8,
        ensures
            !(self.value_type is Float || self.value_type is Double) ==> (r matches Some(s)
                && s@ == range_description(
                "PointRangeQuery"@,
                self.field@,
                self.value_type,
                self.num_dims as int,
                self.bytes_per_dim as int,
                self.lower_point@,
                self.upper_point@,
            )),
            r is None <==> (self.value_type is Float || self.value_type is Double),
    {
        proof {
            lemma_exact_multiple(self.num_dims as int, self.bytes_per_dim as int);
            if !(self.value_type is Float || self.value_type is Double) {
                assert(self.num_dims <= 0x7fff_ffff_ffff_ffff) by (nonlinear_arith)
                    requires
                        self.num_dims * self.bytes_per_dim <= usize::MAX,
                        self.bytes_per_dim >= 4,
                        usize::MAX <= 0xffff_ffff_ffff_ffff,
                ;
            }
        }
        describe_range(
            "PointRangeQuery",
            &self.field,
            self.value_type,
            self.num_dims,
            self.bytes_per_dim,
            &self.lower_point,
            &self.upper_point,
        )
    }
}

impl crate::point_range::PointRangeWeight {
    /// One-line rendering of this weight, mirroring its query's form.
    pub fn description(&self) -> (r: Option<String>)
        requires
            self.wf(),
            self.value_type is Integer ==> self.bytes_per_dim == 4,
            self.value_type is Long ==> self.bytes_per_dim == 8,
        ensures
            !(self.value_type is Float || self.value_type is Double) ==> (r matches Some(s)
                && s@ == range_description(
                "PointRangeWeight"@,
                self.field@,
                self.value_type,
                self.num_dims as int,
                self.bytes_per_dim as int,
                self.lower_point@,
                self.upper_point@,
            )),
            r is None <==> (self.value_type is Float || self.value_type is Double),
    {
        proof {
            lemma_exact_multiple(self.num_dims as int, self.bytes_per_dim as int);
            if !(self.value_type is Float || self.value_type is Double) {
                assert(self.num_dims <= 0x7fff_ffff_ffff_ffff) by (nonlinear_arith)
                    requires
                        self.num_dims * self.bytes_per_dim <= usize::MAX,
                        self.bytes_per_dim >= 4,
                        usize::MAX <= 0xffff_ffff_ffff_ffff,
                ;
            }
        }
        describe_range(
            "PointRangeWeight",
            &self.field,
            self.value_type,
            self.num_dims,
            self.bytes_per_dim,
            &self.lower_point,
            &self.upper_point,
        )
    }
}

/// A packed length of whole dimensions is an exact multiple of the width.
proof fn lemma_exact_multiple(nd: int, w: int)
    requires
        nd >= 0,
        w >= 1,
    ensures
        (nd * w) % w == 0,
{
    vstd::arithmetic::div_mod::lemma_mod_multiples_basic(nd, w);
}

} // verus!
