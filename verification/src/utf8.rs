//! Facts about UTF-8 that the engine leans on when it moves between bytes and
//! characters.

use vstd::prelude::*;
use vstd::utf8::{
    decode_utf8,
    encode_scalar,
    encode_utf8,
    has_width_1_encoding,
    has_width_2_encoding,
    has_width_3_encoding,
    pop_first_scalar,
    valid_utf8,
};
use crate::crlf::{
    lemma_without_cr_concat,
    lemma_without_cr_unchanged,
    not_cr_char,
    without_cr,
    without_cr_chars,
    CR,
};

verus! {

/// Decoding yields at most one character per byte.
pub proof fn lemma_decode_len(bytes: Seq<u8>)
    requires
        valid_utf8(bytes),
    ensures
        decode_utf8(bytes).len() <= bytes.len(),
    decreases bytes.len(),
{
    if bytes.len() != 0 {
        lemma_decode_len(pop_first_scalar(bytes));
    }
}

/// A scalar that fits seven bits is encoded as the byte of that value.
proof fn lemma_width_1_byte(v: u32)
    by (bit_vector)
    requires
        v <= 0x7F,
    ensures
        (v & 0x7F) as u8 == v,
{
}

/// The leading byte of a two-byte encoding has its top bit set.
proof fn lemma_leading_2_high(v: u32)
    by (bit_vector)
    ensures
        0xC0u8 | ((v >> 6) & 0x1F) as u8 >= 0x80u8,
{
}

/// The leading byte of a three-byte encoding has its top bit set.
proof fn lemma_leading_3_high(v: u32)
    by (bit_vector)
    ensures
        0xE0u8 | ((v >> 12) & 0x0F) as u8 >= 0x80u8,
{
}

/// The leading byte of a four-byte encoding has its top bit set.
proof fn lemma_leading_4_high(v: u32)
    by (bit_vector)
    ensures
        0xF0u8 | ((v >> 18) & 0x7) as u8 >= 0x80u8,
{
}

/// Every continuation byte has its top bit set.
proof fn lemma_continuation_high(v: u32)
    by (bit_vector)
    ensures
        0x80u8 | (v & 0x3F) as u8 >= 0x80u8,
        0x80u8 | ((v >> 6) & 0x3F) as u8 >= 0x80u8,
        0x80u8 | ((v >> 12) & 0x3F) as u8 >= 0x80u8,
{
}

/// The encoding of a carriage return is the one byte that normalisation
/// drops; the encoding of any other character holds no such byte.
pub proof fn lemma_without_cr_scalar(c: char)
    ensures
        c == '\r' ==> without_cr(encode_scalar(c as u32)) == Seq::<u8>::empty(),
        c != '\r' ==> without_cr(encode_scalar(c as u32)) == encode_scalar(c as u32),
{
    let v = c as u32;
    let bytes = encode_scalar(v);
    lemma_width_1_byte(if v <= 0x7F {
        v
    } else {
        0
    });
    lemma_leading_2_high(v);
    lemma_leading_3_high(v);
    lemma_leading_4_high(v);
    lemma_continuation_high(v);
    if c == '\r' {
        assert(bytes =~= seq![CR]);
        assert(without_cr(seq![CR]) =~= Seq::<u8>::empty()) by {
            reveal_with_fuel(Seq::filter, 2);
        }
    } else {
        assert forall|i: int| 0 <= i < bytes.len() implies bytes[i] != CR by {
            if has_width_1_encoding(v) {
            } else if has_width_2_encoding(v) {
            } else if has_width_3_encoding(v) {
            } else {
            }
        }
        lemma_without_cr_unchanged(bytes);
    }
}

/// Taking the carriage return bytes out of encoded text is encoding the text
/// without its carriage return characters.
pub proof fn lemma_without_cr_encode(chars: Seq<char>)
    ensures
        without_cr(encode_utf8(chars)) == encode_utf8(without_cr_chars(chars)),
    decreases chars.len(),
{
    if chars.len() == 0 {
        assert(without_cr_chars(chars) =~= Seq::<char>::empty()) by {
            reveal_with_fuel(Seq::filter, 1);
        }
        assert(without_cr(encode_utf8(chars)) =~= Seq::<u8>::empty()) by {
            reveal_with_fuel(Seq::filter, 1);
        }
    } else {
        let c = chars[0];
        let rest = chars.drop_first();
        lemma_without_cr_encode(rest);
        lemma_without_cr_scalar(c);
        lemma_without_cr_concat(encode_scalar(c as u32), encode_utf8(rest));
        assert(chars =~= seq![c] + rest);
        rest.lemma_filter_prepend(c, not_cr_char());
        if c == '\r' {
            assert(Seq::<char>::empty() + without_cr_chars(rest) =~= without_cr_chars(rest));
            assert(Seq::<u8>::empty() + encode_utf8(without_cr_chars(rest)) =~= encode_utf8(
                without_cr_chars(rest),
            ));
        } else {
            let kept = seq![c] + without_cr_chars(rest);
            assert(kept.drop_first() =~= without_cr_chars(rest));
            assert(kept[0] == c);
        }
    }
}

} // verus!
