//! Text from bytes and from UTF-16 units.

use vstd::prelude::*;
use vstd::utf8::{
    decode_utf8, encode_utf8, encode_utf8_decode_utf8, encode_utf8_valid_utf8, valid_utf8,
};

verus! {

/// What `String::from_utf8_lossy` makes of the given bytes.
pub uninterp spec fn utf8_lossy(bytes: Seq<u8>) -> Seq<char>;

/// `String::from_utf8_lossy`: the text is a function of the bytes alone, and for bytes that are
/// valid UTF-8 it is the text that they encode. How much of an invalid run one replacement
/// character stands for is left unsaid.
#[verifier::external_body]
pub(crate) fn text_from_utf8(bytes: &[u8]) -> (r: String)
    ensures
        r@ == utf8_lossy(bytes@),
        valid_utf8(bytes@) ==> r@ == decode_utf8(bytes@),
{
    String::from_utf8_lossy(bytes).into_owned()
}

/// The text of bytes: what they encode where they are valid UTF-8, and else what
/// `String::from_utf8_lossy` makes of them.
pub open spec fn utf8_text(bytes: Seq<u8>) -> Seq<char> {
    if valid_utf8(bytes) {
        decode_utf8(bytes)
    } else {
        utf8_lossy(bytes)
    }
}

/// A text comes out of the bytes that encode it as itself.
pub proof fn encoded_text_is_read_back(text: Seq<char>)
    ensures
        utf8_text(encode_utf8(text)) == text,
{
    encode_utf8_valid_utf8(text);
    encode_utf8_decode_utf8(text);
}

/// The text that UTF-16 units encode, U+FFFD standing for each surrogate without its partner.
pub open spec fn utf16_lossy(units: Seq<u16>) -> Seq<char>
    decreases units.len(),
{
    if units.len() == 0 {
        seq![]
    } else if units[0] < 0xD800 || units[0] > 0xDFFF {
        seq![units[0] as char] + utf16_lossy(units.skip(1))
    } else if units[0] <= 0xDBFF && units.len() >= 2 && 0xDC00 <= units[1] <= 0xDFFF {
        seq![(0x10000 + (units[0] - 0xD800) * 0x400 + (units[1] - 0xDC00)) as char] + utf16_lossy(
            units.skip(2),
        )
    } else {
        seq!['\u{FFFD}'] + utf16_lossy(units.skip(1))
    }
}

/// `String::from_utf16_lossy`: decodes UTF-16 and puts U+FFFD in the place of each surrogate that
/// has no partner.
#[verifier::external_body]
pub(crate) fn text_from_utf16(units: &[u16]) -> (r: String)
    ensures
        r@ == utf16_lossy(units@),
{
    String::from_utf16_lossy(units)
}

}
