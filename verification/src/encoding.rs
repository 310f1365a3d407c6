//! What the bytes hold that encode a text.
use vstd::prelude::*;
use vstd::utf8::{char_is_scalar, decode_utf8, decode_utf8_encode_utf8, encode_scalar, encode_utf8, encode_utf8_decode_utf8, has_width_1_encoding, last_continuation_byte, leading_byte_width_1, leading_byte_width_2, leading_byte_width_3, leading_byte_width_4, second_last_continuation_byte, third_last_continuation_byte, valid_utf8};

verus! {

proof fn only_short_encodings_are_ascii(c: u32)
    by (bit_vector)
    ensures
        0x80u8 <= leading_byte_width_2(c),
        0x80u8 <= leading_byte_width_3(c),
        0x80u8 <= leading_byte_width_4(c),
        0x80u8 <= last_continuation_byte(c),
        0x80u8 <= second_last_continuation_byte(c),
        0x80u8 <= third_last_continuation_byte(c),
        c <= 0x7fu32 ==> leading_byte_width_1(c) == c,
{
}

/// The bytes of a character hold no ASCII byte but that of the character itself.
proof fn character_is_without(c: char, byte: u8)
    requires
        byte < 0x80,
        c as u32 != byte as u32,
    ensures
        forall|i: int|
            0 <= i < encode_scalar(c as u32).len() ==> #[trigger] encode_scalar(c as u32)[i] != byte,
{
    let u = c as u32;
    char_is_scalar(c);
    only_short_encodings_are_ascii(u);
    if has_width_1_encoding(u) {
        assert(encode_scalar(u)[0] == leading_byte_width_1(u));
    }
}

/// The bytes of a text without an ASCII character do not hold its byte.
pub proof fn bytes_are_without(text: Seq<char>, mark: char)
    requires
        mark <= '\u{7f}',
        forall|i: int| 0 <= i < text.len() ==> #[trigger] text[i] != mark,
    ensures
        forall|i: int|
            0 <= i < encode_utf8(text).len() ==> #[trigger] encode_utf8(text)[i] != mark as u8,
    decreases text.len(),
{
    if text.len() > 0 {
        let rest = text.drop_first();
        assert forall|i: int| 0 <= i < rest.len() implies #[trigger] rest[i] != mark by {
            assert(rest[i] == text[i + 1]);
        }
        bytes_are_without(rest, mark);
        let first = encode_scalar(text[0] as u32);
        assert(text[0] != mark);
        different_characters_differ(text[0], mark);
        character_is_without(text[0], mark as u8);
        assert forall|i: int| 0 <= i < encode_utf8(text).len() implies #[trigger] encode_utf8(
            text,
        )[i] != mark as u8 by {
            if i >= first.len() {
                assert(encode_utf8(text)[i] == encode_utf8(rest)[i - first.len()]);
            } else {
                assert(encode_utf8(text)[i] == first[i]);
            }
        }
    }
}

proof fn different_characters_differ(c: char, mark: char)
    requires
        mark <= '\u{7f}',
        c != mark,
    ensures
        (mark as u8) < 0x80,
        c as u32 != (mark as u8) as u32,
{
}

/// Two texts are encoded one after the other.
pub proof fn encoding_of_both(first: Seq<char>, second: Seq<char>)
    ensures
        encode_utf8(first + second) == encode_utf8(first) + encode_utf8(second),
    decreases first.len(),
{
    if first.len() == 0 {
        assert(first + second =~= second);
    } else {
        assert((first + second).drop_first() =~= first.drop_first() + second);
        encoding_of_both(first.drop_first(), second);
    }
    assert(encode_utf8(first + second) =~= encode_utf8(first) + encode_utf8(second));
}

/// The bytes of two texts are decoded one after the other.
pub proof fn decoding_of_both(first: Seq<u8>, second: Seq<u8>)
    requires
        valid_utf8(first),
        valid_utf8(second),
    ensures
        decode_utf8(first + second) == decode_utf8(first) + decode_utf8(second),
{
    decode_utf8_encode_utf8(first);
    decode_utf8_encode_utf8(second);
    encoding_of_both(decode_utf8(first), decode_utf8(second));
    encode_utf8_decode_utf8(decode_utf8(first) + decode_utf8(second));
}

} // verus!
