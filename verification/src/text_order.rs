//! The order of texts is that of the bytes that encode them.
use vstd::prelude::*;
use vstd::utf8::{char_is_scalar, encode_scalar, encode_utf8, has_width_1_encoding, has_width_2_encoding, has_width_3_encoding, has_width_4_encoding, last_continuation_byte, leading_byte_width_1, leading_byte_width_2, leading_byte_width_3, leading_byte_width_4, second_last_continuation_byte, third_last_continuation_byte};

use crate::text::precedes;

verus! {

/// Whether `a` comes before `b`: at the first place where they differ `a` has
/// the smaller byte, or ends.
pub open spec fn bytes_precede(a: Seq<u8>, b: Seq<u8>) -> bool
    decreases a.len(),
{
    if b.len() == 0 {
        false
    } else if a.len() == 0 {
        true
    } else if a[0] != b[0] {
        a[0] < b[0]
    } else {
        bytes_precede(a.drop_first(), b.drop_first())
    }
}

/// What two lists of bytes begin with alike does not matter.
proof fn common_start(start: Seq<u8>, a: Seq<u8>, b: Seq<u8>)
    ensures
        bytes_precede(start + a, start + b) == bytes_precede(a, b),
    decreases start.len(),
{
    if start.len() == 0 {
        assert(start + a =~= a);
        assert(start + b =~= b);
    } else {
        common_start(start.drop_first(), a, b);
        assert((start + a).drop_first() =~= start.drop_first() + a);
        assert((start + b).drop_first() =~= start.drop_first() + b);
    }
}

/// The first difference decides.
proof fn first_difference(a: Seq<u8>, b: Seq<u8>, k: int)
    requires
        0 <= k < a.len(),
        k < b.len(),
        forall|i: int| 0 <= i < k ==> #[trigger] a[i] == b[i],
        a[k] < b[k],
    ensures
        bytes_precede(a, b),
        !bytes_precede(b, a),
    decreases k,
{
    if k > 0 {
        assert(a[0] == b[0]);
        let c = a.drop_first();
        let d = b.drop_first();
        assert forall|i: int| 0 <= i < k - 1 implies #[trigger] c[i] == d[i] by {
            assert(a[i + 1] == b[i + 1]);
        }
        first_difference(c, d, k - 1);
    }
}

proof fn one_byte_order(c: u32, d: u32)
    by (bit_vector)
    requires
        c < d,
        has_width_1_encoding(c),
        has_width_1_encoding(d),
    ensures
        leading_byte_width_1(c) < leading_byte_width_1(d),
{
}

proof fn two_byte_order(c: u32, d: u32)
    by (bit_vector)
    requires
        c < d,
        has_width_2_encoding(c),
        has_width_2_encoding(d),
    ensures
        leading_byte_width_2(c) < leading_byte_width_2(d) || (leading_byte_width_2(c)
            == leading_byte_width_2(d) && last_continuation_byte(c) < last_continuation_byte(d)),
{
}

proof fn three_byte_order(c: u32, d: u32)
    by (bit_vector)
    requires
        c < d,
        has_width_3_encoding(c),
        has_width_3_encoding(d),
    ensures
        leading_byte_width_3(c) < leading_byte_width_3(d) || (leading_byte_width_3(c)
            == leading_byte_width_3(d) && (second_last_continuation_byte(c)
            < second_last_continuation_byte(d) || (second_last_continuation_byte(c)
            == second_last_continuation_byte(d) && last_continuation_byte(c)
            < last_continuation_byte(d)))),
{
}

proof fn four_byte_order(c: u32, d: u32)
    by (bit_vector)
    requires
        c < d,
        has_width_4_encoding(c),
        has_width_4_encoding(d),
    ensures
        leading_byte_width_4(c) < leading_byte_width_4(d) || (leading_byte_width_4(c)
            == leading_byte_width_4(d) && (third_last_continuation_byte(c)
            < third_last_continuation_byte(d) || (third_last_continuation_byte(c)
            == third_last_continuation_byte(d) && (second_last_continuation_byte(c)
            < second_last_continuation_byte(d) || (second_last_continuation_byte(c)
            == second_last_continuation_byte(d) && last_continuation_byte(c)
            < last_continuation_byte(d)))))),
{
}

proof fn leading_byte_ranges(c: u32)
    by (bit_vector)
    ensures
        leading_byte_width_1(c) < 0x80u8,
        0xc0u8 <= leading_byte_width_2(c),
        leading_byte_width_2(c) < 0xe0u8,
        0xe0u8 <= leading_byte_width_3(c),
        leading_byte_width_3(c) < 0xf0u8,
        0xf0u8 <= leading_byte_width_4(c),
{
}

/// The bytes of two characters have the order of the characters, whatever
/// follows them.
proof fn characters_order(c: char, d: char, a: Seq<u8>, b: Seq<u8>)
    requires
        c < d,
    ensures
        bytes_precede(encode_scalar(c as u32) + a, encode_scalar(d as u32) + b),
        !bytes_precede(encode_scalar(d as u32) + b, encode_scalar(c as u32) + a),
{
    let u = c as u32;
    let v = d as u32;
    char_is_scalar(c);
    char_is_scalar(d);
    leading_byte_ranges(u);
    leading_byte_ranges(v);
    let x = encode_scalar(u) + a;
    let y = encode_scalar(v) + b;
    if x[0] != y[0] {
        if has_width_1_encoding(u) && has_width_1_encoding(v) {
            one_byte_order(u, v);
        } else if has_width_2_encoding(u) && has_width_2_encoding(v) {
            two_byte_order(u, v);
        } else if has_width_3_encoding(u) && has_width_3_encoding(v) {
            three_byte_order(u, v);
        } else if has_width_4_encoding(u) && has_width_4_encoding(v) {
            four_byte_order(u, v);
        }
        first_difference(x, y, 0);
    } else if has_width_1_encoding(u) {
        one_byte_order(u, v);
    } else if has_width_2_encoding(u) {
        two_byte_order(u, v);
        first_difference(x, y, 1);
    } else if has_width_3_encoding(u) {
        three_byte_order(u, v);
        if x[1] != y[1] {
            first_difference(x, y, 1);
        } else {
            first_difference(x, y, 2);
        }
    } else {
        four_byte_order(u, v);
        if x[1] != y[1] {
            first_difference(x, y, 1);
        } else if x[2] != y[2] {
            first_difference(x, y, 2);
        } else {
            first_difference(x, y, 3);
        }
    }
}

/// Texts have the order of the bytes that encode them.
pub proof fn order_is_that_of_the_bytes(a: Seq<char>, b: Seq<char>)
    ensures
        precedes(a, b) == bytes_precede(encode_utf8(a), encode_utf8(b)),
    decreases a.len(),
{
    if a.len() > 0 && b.len() > 0 {
        let x = encode_utf8(a.drop_first());
        let y = encode_utf8(b.drop_first());
        if a[0] == b[0] {
            common_start(encode_scalar(a[0] as u32), x, y);
            order_is_that_of_the_bytes(a.drop_first(), b.drop_first());
        } else if a[0] < b[0] {
            characters_order(a[0], b[0], x, y);
        } else {
            characters_order(b[0], a[0], y, x);
        }
    }
}

} // verus!
