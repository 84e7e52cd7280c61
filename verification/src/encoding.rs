//! The order of names is the order of the bytes of their UTF-8 encodings,
//! which is what comparing two strings byte by byte decides.

use crate::ordering::precedes;
use vstd::prelude::*;
use vstd::utf8::*;

verus! {

/// `a` comes strictly before `b` in the lexicographic order on bytes.
pub open spec fn bytes_precede(a: Seq<u8>, b: Seq<u8>) -> bool
    decreases a.len(),
{
    if b.len() == 0 {
        false
    } else if a.len() == 0 {
        true
    } else if a[0] != b[0] {
        a[0] < b[0]
    } else {
        bytes_precede(a.drop_first(), b.drop_first())
    }
}

/// The first byte of the encoding of `scalar`.
spec fn leading_byte(scalar: u32) -> u8 {
    if has_width_1_encoding(scalar) {
        leading_byte_width_1(scalar)
    } else if has_width_2_encoding(scalar) {
        leading_byte_width_2(scalar)
    } else if has_width_3_encoding(scalar) {
        leading_byte_width_3(scalar)
    } else {
        leading_byte_width_4(scalar)
    }
}

/// `c` and `d` have encodings of the same length.
spec fn same_width(c: u32, d: u32) -> bool {
    has_width_1_encoding(c) == has_width_1_encoding(d) && has_width_2_encoding(c)
        == has_width_2_encoding(d) && has_width_3_encoding(c) == has_width_3_encoding(d)
}

/// No byte string comes before itself.
pub proof fn lemma_bytes_irreflexive(a: Seq<u8>)
    ensures
        !bytes_precede(a, a),
    decreases a.len(),
{
    if a.len() > 0 {
        lemma_bytes_irreflexive(a.drop_first());
    }
}

/// The order on bytes is transitive.
pub proof fn lemma_bytes_transitive(a: Seq<u8>, b: Seq<u8>, c: Seq<u8>)
    requires
        bytes_precede(a, b),
        bytes_precede(b, c),
    ensures
        bytes_precede(a, c),
    decreases a.len(),
{
    if a.len() > 0 && a[0] == b[0] && b[0] == c[0] {
        lemma_bytes_transitive(a.drop_first(), b.drop_first(), c.drop_first());
    }
}

/// Two byte strings that agree on their first `k` bytes are ordered as their
/// remainders are.
pub proof fn lemma_bytes_common_prefix(a: Seq<u8>, b: Seq<u8>, k: int)
    requires
        0 <= k <= a.len(),
        k <= b.len(),
        forall|i: int| 0 <= i < k ==> a[i] == b[i],
    ensures
        bytes_precede(a, b) == bytes_precede(a.skip(k), b.skip(k)),
    decreases k,
{
    if k == 0 {
        assert(a.skip(0) =~= a);
        assert(b.skip(0) =~= b);
    } else {
        let a1 = a.drop_first();
        let b1 = b.drop_first();
        assert forall|i: int| 0 <= i < k - 1 implies a1[i] == b1[i] by {
            assert(a[i + 1] == b[i + 1]);
        }
        lemma_bytes_common_prefix(a1, b1, k - 1);
        assert(a1.skip(k - 1) =~= a.skip(k));
        assert(b1.skip(k - 1) =~= b.skip(k));
        assert(a[0] == b[0]);
    }
}

/// Two byte strings that agree before place `k` and differ there are
/// ordered as their bytes at `k` are.
proof fn lemma_bytes_decided_at(a: Seq<u8>, b: Seq<u8>, k: int)
    requires
        0 <= k < a.len(),
        k < b.len(),
        forall|i: int| 0 <= i < k ==> a[i] == b[i],
        a[k] < b[k],
    ensures
        bytes_precede(a, b),
{
    lemma_bytes_common_prefix(a, b, k);
    assert(a.skip(k)[0] == a[k]);
    assert(b.skip(k)[0] == b[k]);
}

/// A scalar with the longer encoding has the higher leading byte.
proof fn lemma_leading_byte_grows_with_width(c: u32, d: u32)
    by (bit_vector)
    requires
        is_scalar(c),
        is_scalar(d),
        c < d,
        !same_width(c, d),
    ensures
        leading_byte(c) < leading_byte(d),
{
}

/// Of two scalars of one byte the lower has the lower byte.
proof fn lemma_order_width_1(c: u32, d: u32)
    by (bit_vector)
    requires
        has_width_1_encoding(c),
        has_width_1_encoding(d),
        c < d,
    ensures
        leading_byte_width_1(c) < leading_byte_width_1(d),
{
}

/// Of two scalars of two bytes the lower has the lower bytes.
proof fn lemma_order_width_2(c: u32, d: u32)
    by (bit_vector)
    requires
        has_width_2_encoding(c),
        has_width_2_encoding(d),
        c < d,
    ensures
        ({
            let c1 = leading_byte_width_2(c);
            let c2 = last_continuation_byte(c);
            let d1 = leading_byte_width_2(d);
            let d2 = last_continuation_byte(d);
            c1 < d1 || (c1 == d1 && c2 < d2)
        }),
{
}

/// Of two scalars of three bytes the lower has the lower bytes.
proof fn lemma_order_width_3(c: u32, d: u32)
    by (bit_vector)
    requires
        has_width_3_encoding(c),
        has_width_3_encoding(d),
        c < d,
    ensures
        ({
            let c1 = leading_byte_width_3(c);
            let c2 = second_last_continuation_byte(c);
            let c3 = last_continuation_byte(c);
            let d1 = leading_byte_width_3(d);
            let d2 = second_last_continuation_byte(d);
            let d3 = last_continuation_byte(d);
            c1 < d1 || (c1 == d1 && (c2 < d2 || (c2 == d2 && c3 < d3)))
        }),
{
}

/// Of two scalars of four bytes the lower has the lower bytes.
proof fn lemma_order_width_4(c: u32, d: u32)
    by (bit_vector)
    requires
        has_width_4_encoding(c),
        has_width_4_encoding(d),
        c < d,
    ensures
        ({
            let c1 = leading_byte_width_4(c);
            let c2 = third_last_continuation_byte(c);
            let c3 = second_last_continuation_byte(c);
            let c4 = last_continuation_byte(c);
            let d1 = leading_byte_width_4(d);
            let d2 = third_last_continuation_byte(d);
            let d3 = second_last_continuation_byte(d);
            let d4 = last_continuation_byte(d);
            c1 < d1 || (c1 == d1 && (c2 < d2 || (c2 == d2 && (c3 < d3 || (c3 == d3 && c4 < d4)))))
        }),
{
}

/// The encoding of the lower of two scalars comes before that of the
/// higher, whatever bytes follow them.
proof fn lemma_lower_scalar_first(c: u32, d: u32, after_c: Seq<u8>, after_d: Seq<u8>)
    requires
        is_scalar(c),
        is_scalar(d),
        c < d,
    ensures
        bytes_precede(encode_scalar(c) + after_c, encode_scalar(d) + after_d),
{
    let p = encode_scalar(c) + after_c;
    let q = encode_scalar(d) + after_d;
    if !same_width(c, d) {
        lemma_leading_byte_grows_with_width(c, d);
        lemma_bytes_decided_at(p, q, 0);
    } else if has_width_1_encoding(c) {
        lemma_order_width_1(c, d);
        lemma_bytes_decided_at(p, q, 0);
    } else if has_width_2_encoding(c) {
        lemma_order_width_2(c, d);
        if p[0] != q[0] {
            lemma_bytes_decided_at(p, q, 0);
        } else {
            lemma_bytes_decided_at(p, q, 1);
        }
    } else if has_width_3_encoding(c) {
        lemma_order_width_3(c, d);
        if p[0] != q[0] {
            lemma_bytes_decided_at(p, q, 0);
        } else if p[1] != q[1] {
            lemma_bytes_decided_at(p, q, 1);
        } else {
            lemma_bytes_decided_at(p, q, 2);
        }
    } else {
        lemma_order_width_4(c, d);
        if p[0] != q[0] {
            lemma_bytes_decided_at(p, q, 0);
        } else if p[1] != q[1] {
            lemma_bytes_decided_at(p, q, 1);
        } else if p[2] != q[2] {
            lemma_bytes_decided_at(p, q, 2);
        } else {
            lemma_bytes_decided_at(p, q, 3);
        }
    }
}

/// The order on names is the order on the bytes of their encodings.
pub proof fn lemma_precedes_is_byte_order(a: Seq<char>, b: Seq<char>)
    ensures
        precedes(a, b) == bytes_precede(encode_utf8(a), encode_utf8(b)),
    decreases a.len(),
{
    if a.len() > 0 && b.len() > 0 {
        let c = a[0] as u32;
        let d = b[0] as u32;
        let rest_a = encode_utf8(a.drop_first());
        let rest_b = encode_utf8(b.drop_first());
        char_is_scalar(a[0]);
        char_is_scalar(b[0]);
        char_u32_cast(a[0], c);
        char_u32_cast(b[0], d);
        assert(encode_utf8(a) == encode_scalar(c) + rest_a);
        assert(encode_utf8(b) == encode_scalar(d) + rest_b);
        if c < d {
            lemma_lower_scalar_first(c, d, rest_a, rest_b);
        } else if d < c {
            lemma_lower_scalar_first(d, c, rest_b, rest_a);
            if bytes_precede(encode_utf8(a), encode_utf8(b)) {
                lemma_bytes_transitive(encode_utf8(a), encode_utf8(b), encode_utf8(a));
                lemma_bytes_irreflexive(encode_utf8(a));
            }
        } else {
            let width = encode_scalar(c).len() as int;
            lemma_bytes_common_prefix(encode_utf8(a), encode_utf8(b), width);
            assert(encode_utf8(a).skip(width) =~= rest_a);
            assert(encode_utf8(b).skip(width) =~= rest_b);
            lemma_precedes_is_byte_order(a.drop_first(), b.drop_first());
        }
    } else if b.len() > 0 {
        char_is_scalar(b[0]);
        assert(encode_utf8(b).len() > 0);
    }
}

} // verus!
