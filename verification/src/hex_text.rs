//! Bytes written as lowercase hexadecimal text, as the `hex` crate writes them.
use vstd::prelude::*;

verus! {

/// The lowercase hex digit for a value below 16.
pub open spec fn hex_digit(d: u8) -> char {
    if d < 10 {
        (d + 48) as char
    } else {
        (d + 87) as char
    }
}

/// Each byte as two lowercase hex digits, the high half first.
pub open spec fn hex_lower(bytes: Seq<u8>) -> Seq<char>
    decreases bytes.len(),
{
    if bytes.len() == 0 {
        Seq::empty()
    } else {
        hex_lower(bytes.drop_last()) + seq![
            hex_digit(bytes.last() >> 4u8),
            hex_digit(bytes.last() & 0x0fu8),
        ]
    }
}

/// `c` is one of the lowercase hex digits `0`-`9`, `a`-`f`.
pub open spec fn is_lower_hex_digit(c: char) -> bool {
    (48 <= c as int <= 57) || (97 <= c as int <= 102)
}

/// The value of a lowercase hex digit.
pub open spec fn hex_digit_value(c: char) -> int {
    if c as int <= 57 {
        c as int - 48
    } else {
        c as int - 87
    }
}

/// The hex text of `bytes` has two lowercase digits per byte, and each pair
/// of digits reads back as its byte, the first digit worth sixteen times the
/// second.
pub proof fn lemma_hex_lower_decodes(bytes: Seq<u8>)
    ensures
        hex_lower(bytes).len() == 2 * bytes.len(),
        forall|i: int|
            0 <= i < hex_lower(bytes).len() ==> is_lower_hex_digit(#[trigger] hex_lower(bytes)[i]),
        forall|i: int|
            0 <= i < bytes.len() ==> 16 * hex_digit_value(hex_lower(bytes)[2 * i])
                + hex_digit_value(hex_lower(bytes)[2 * i + 1]) == #[trigger] bytes[i],
    decreases bytes.len(),
{
    if bytes.len() > 0 {
        let init = bytes.drop_last();
        let b = bytes.last();
        lemma_hex_lower_decodes(init);
        let text = hex_lower(bytes);
        let head = hex_lower(init);
        let hi = b >> 4u8;
        let lo = b & 0x0fu8;
        assert((b >> 4u8) < 16 && (b & 0x0fu8) < 16 && 16 * (b >> 4u8) + (b & 0x0fu8) == b) by (bit_vector);
        assert(text == head + seq![hex_digit(hi), hex_digit(lo)]);
        assert(text[2 * init.len() as int] == hex_digit(hi));
        assert(text[2 * init.len() as int + 1] == hex_digit(lo));
        assert forall|i: int| 0 <= i < text.len() implies is_lower_hex_digit(#[trigger] text[i]) by {
            if i < head.len() {
                assert(text[i] == head[i]);
            }
        }
        assert forall|i: int| 0 <= i < bytes.len() implies 16 * hex_digit_value(text[2 * i])
            + hex_digit_value(text[2 * i + 1]) == #[trigger] bytes[i] by {
            if i < init.len() {
                assert(text[2 * i] == head[2 * i]);
                assert(text[2 * i + 1] == head[2 * i + 1]);
                assert(bytes[i] == init[i]);
            }
        }
    }
}

/// Writes `bytes` as lowercase hex text.
///
/// Calls `hex::encode`, which maps each byte to the digit of its high four
/// bits, then the digit of its low four bits, from the table
/// `0123456789abcdef`; this contract claims exactly that.
#[verifier::external_body]
pub(crate) fn hex_encode(bytes: &[u8]) -> (text: String)
    ensures
        text@ == hex_lower(bytes@),
{
    hex::encode(bytes)
}

} // verus!
