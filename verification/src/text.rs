//! Searching and converting byte strings.

use vstd::prelude::*;
use vstd::utf8::*;

verus! {

/// True when `index` is the position of the last `needle` in `haystack`.
pub open spec fn is_last_occurrence(needle: u8, haystack: Seq<u8>, index: int) -> bool {
    &&& 0 <= index < haystack.len()
    &&& haystack[index] == needle
    &&& forall|j: int| index < j < haystack.len() ==> haystack[j] != needle
}

/// True when `needle` is one of the bytes of `haystack`.
pub open spec fn occurs(needle: u8, haystack: Seq<u8>) -> bool {
    exists|j: int| 0 <= j < haystack.len() && haystack[j] == needle
}

/// True when `bytes` is a non-empty run of ASCII decimal digits.
pub open spec fn is_decimal(bytes: Seq<u8>) -> bool {
    &&& bytes.len() > 0
    &&& forall|i: int| 0 <= i < bytes.len() ==> 0x30 <= #[trigger] bytes[i] <= 0x39
}

/// The number that the decimal digits in `bytes` write, most significant
/// digit first.
pub open spec fn decimal_value(bytes: Seq<u8>) -> nat
    decreases bytes.len(),
{
    if bytes.len() == 0 {
        0
    } else {
        decimal_value(bytes.drop_last()) * 10 + (bytes.last() - 0x30) as nat
    }
}

/// What reading `bytes` as an unsigned decimal number gives: the number when
/// `bytes` is a non-empty run of digits whose value fits in 32 bits.
pub open spec fn unsigned_decimal(bytes: Seq<u8>) -> Option<u32> {
    if is_decimal(bytes) && decimal_value(bytes) <= u32::MAX {
        Some(decimal_value(bytes) as u32)
    } else {
        None
    }
}

/// Position of the last `needle` in `haystack`.
///
/// Calls `memchr::memrchr`. Trusted: the result is `None` exactly when the
/// byte does not occur, and otherwise the greatest index that holds it.
#[verifier::external_body]
pub(crate) fn find_last(needle: u8, haystack: &[u8]) -> (found: Option<usize>)
    ensures
        match found {
            Some(index) => is_last_occurrence(needle, haystack@, index as int),
            None => !occurs(needle, haystack@),
        },
{
    memchr::memrchr(needle, haystack)
}

/// Reads `bytes` as an unsigned decimal number.
///
/// Calls `btoi::btou` at type `u32`. Trusted: the call succeeds exactly on a
/// non-empty run of the digits `0` to `9` whose value fits in 32 bits, and
/// then returns that value; signs, spaces and an empty input are refused.
#[verifier::external_body]
pub(crate) fn parse_unsigned(bytes: &[u8]) -> (number: Option<u32>)
    ensures
        number == unsigned_decimal(bytes@),
{
    match btoi::btou::<u32>(bytes) {
        Ok(value) => Some(value),
        Err(_) => None,
    }
}

/// Reads `bytes` as UTF-8 text.
///
/// Calls `core::str::from_utf8`. Trusted: the call succeeds exactly when the
/// bytes are well-formed UTF-8, and the text it returns is their decoding.
#[verifier::external_body]
pub(crate) fn utf8_text<'a>(bytes: &'a [u8]) -> (text: Option<&'a str>)
    ensures
        text.is_some() == valid_utf8(bytes@),
        text matches Some(s) ==> s@ == decode_utf8(bytes@),
{
    match core::str::from_utf8(bytes) {
        Ok(s) => Some(s),
        Err(_) => None,
    }
}

} // verus!
