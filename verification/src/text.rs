//! Character-level text primitives that the cartridge title is built from.
//!
//! UTF-8 decoding with replacement is std's: the function here hands the call
//! on and names its result. The whitespace and control character classes are
//! short fixed lists of code points, stated and checked here.
use vstd::prelude::*;
use vstd::utf8::{decode_utf8, valid_utf8};

verus! {

/// The characters of `bytes` decoded as UTF-8, with every invalid sequence
/// replaced by U+FFFD, as `String::from_utf8_lossy` decodes them.
pub uninterp spec fn utf8_lossy(bytes: Seq<u8>) -> Seq<char>;

/// Whether `c` has the Unicode White_Space property (what `char::is_whitespace`
/// answers): U+0009..U+000D, U+0020, U+0085, U+00A0, U+1680, U+2000..U+200A,
/// U+2028, U+2029, U+202F, U+205F and U+3000.
pub open spec fn char_is_whitespace(c: char) -> bool {
    let v = c as u32;
    ||| 0x09 <= v <= 0x0D
    ||| v == 0x20
    ||| v == 0x85
    ||| v == 0xA0
    ||| v == 0x1680
    ||| 0x2000 <= v <= 0x200A
    ||| v == 0x2028
    ||| v == 0x2029
    ||| v == 0x202F
    ||| v == 0x205F
    ||| v == 0x3000
}

/// Whether `c` is in the Unicode general category Cc (what `char::is_control`
/// answers): U+0000..U+001F and U+007F..U+009F.
pub open spec fn char_is_control(c: char) -> bool {
    let v = c as u32;
    v <= 0x1F || 0x7F <= v <= 0x9F
}

/// Calls `String::from_utf8_lossy` and hands back the decoded characters.
/// Claimed: the result is `utf8_lossy` of the bytes; valid UTF-8 is decoded
/// unchanged (std documents that only invalid sequences are replaced); and
/// there are no more characters than bytes, since every character, decoded
/// or a U+FFFD standing for an invalid sequence, consumes at least one byte.
#[verifier::external_body]
pub(crate) fn decode_utf8_lossy(bytes: &[u8]) -> (chars: Vec<char>)
    ensures
        chars@ == utf8_lossy(bytes@),
        valid_utf8(bytes@) ==> chars@ == decode_utf8(bytes@),
        chars@.len() <= bytes@.len(),
{
    String::from_utf8_lossy(bytes).chars().collect()
}

/// Whether `c` is Unicode whitespace.
pub fn is_whitespace(c: char) -> (r: bool)
    ensures
        r == char_is_whitespace(c),
{
    let v = c as u32;
    (0x09 <= v && v <= 0x0D) || v == 0x20 || v == 0x85 || v == 0xA0 || v == 0x1680 || (0x2000 <= v
        && v <= 0x200A) || v == 0x2028 || v == 0x2029 || v == 0x202F || v == 0x205F || v == 0x3000
}

/// Whether `c` is a control character.
pub fn is_control(c: char) -> (r: bool)
    ensures
        r == char_is_control(c),
{
    let v = c as u32;
    v <= 0x1F || (0x7F <= v && v <= 0x9F)
}

/// Calls `String::push`. Claimed: the character is appended at the end.
#[verifier::external_body]
pub(crate) fn push_char(s: &mut String, c: char)
    ensures
        final(s)@ == old(s)@.push(c),
{
    s.push(c);
}

} // verus!
