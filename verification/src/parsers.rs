//! The primitive decoders: single bytes, integers stored in both byte
//! orders, zero-terminated fixed fields and range-checked bytes.
//!
//! Each decoder takes the input that is left and returns what is left after
//! it together with the decoded value, or the failure.

use vstd::prelude::*;
use vstd::slice::slice_subrange;
use crate::error::{Error, ParseErrorKind, incomplete, invalid};

verus! {

/// The input that is left after the first `count` bytes.
pub open spec fn rest(input: Seq<u8>, count: int) -> Seq<u8> {
    input.subrange(count, input.len() as int)
}

/// The little-endian number in the two bytes at `at`.
pub open spec fn le_u16_at(bytes: Seq<u8>, at: int) -> int {
    bytes[at] + 0x100 * bytes[at + 1]
}

/// The little-endian number in the four bytes at `at`.
pub open spec fn le_u32_at(bytes: Seq<u8>, at: int) -> int {
    bytes[at] + 0x100 * bytes[at + 1] + 0x1_0000 * bytes[at + 2] + 0x100_0000 * bytes[at + 3]
}

/// The little-endian number in the eight bytes at `at`.
pub open spec fn le_u64_at(bytes: Seq<u8>, at: int) -> int {
    le_u32_at(bytes, at) + 0x1_0000_0000 * le_u32_at(bytes, at + 4)
}

/// True when a decoder's result `got` is the result `want` of its
/// description: the same failure, or the same value and remaining input.
pub open spec fn decoded<T>(got: Result<(&[u8], T), Error>, want: Result<(Seq<u8>, T), Error>) -> bool {
    match (got, want) {
        (Ok((left, value)), Ok((want_left, want_value))) => left@ == want_left && value == want_value,
        (Err(e), Err(want_e)) => e == want_e,
        _ => false,
    }
}

/// As `decoded`, for a decoder whose value is itself a run of bytes.
pub open spec fn decoded_bytes(got: Result<(&[u8], &[u8]), Error>, want: Result<(Seq<u8>, Seq<u8>), Error>) -> bool {
    match (got, want) {
        (Ok((left, value)), Ok((want_left, want_value))) => left@ == want_left && value@ == want_value,
        (Err(e), Err(want_e)) => e == want_e,
        _ => false,
    }
}

/// One byte.
pub open spec fn spec_be_u8(input: Seq<u8>) -> Result<(Seq<u8>, u8), Error> {
    if input.len() < 1 {
        Err(incomplete(1))
    } else {
        Ok((rest(input, 1), input[0]))
    }
}

/// A 16-bit number stored twice, little-endian then big-endian: the first
/// copy is the value, the second is passed over.
pub open spec fn spec_both_u16(input: Seq<u8>) -> Result<(Seq<u8>, u16), Error> {
    if input.len() < 4 {
        Err(incomplete(2))
    } else {
        Ok((rest(input, 4), le_u16_at(input, 0) as u16))
    }
}

/// A 32-bit number stored twice, little-endian then big-endian.
pub open spec fn spec_both_u32(input: Seq<u8>) -> Result<(Seq<u8>, u32), Error> {
    if input.len() < 8 {
        Err(incomplete(4))
    } else {
        Ok((rest(input, 8), le_u32_at(input, 0) as u32))
    }
}

/// A 64-bit number stored twice, little-endian then big-endian.
pub open spec fn spec_both_u64(input: Seq<u8>) -> Result<(Seq<u8>, u64), Error> {
    if input.len() < 16 {
        Err(incomplete(8))
    } else {
        Ok((rest(input, 16), le_u64_at(input, 0) as u64))
    }
}

/// The number of bytes of `field` before its first zero byte; the length of
/// `field` when it holds none.
pub open spec fn first_nul(field: Seq<u8>) -> int
    decreases field.len(),
{
    if field.len() == 0 || field[0] == 0 {
        0
    } else {
        1 + first_nul(field.drop_first())
    }
}

/// The text of a zero-terminated field: its bytes before the first zero.
pub open spec fn until_nul(field: Seq<u8>) -> Seq<u8> {
    field.subrange(0, first_nul(field))
}

/// A field of `size` bytes holding a zero-terminated text: all `size` bytes
/// are consumed, and the value is the part before the first zero.
pub open spec fn spec_null_terminated(input: Seq<u8>, size: int) -> Result<(Seq<u8>, Seq<u8>), Error> {
    if input.len() < size {
        Err(incomplete(size))
    } else {
        Ok((rest(input, size), until_nul(input.subrange(0, size))))
    }
}

/// One byte that must lie between `low` and `high`, both included.
pub open spec fn spec_matching(input: Seq<u8>, low: u8, high: u8) -> Result<(Seq<u8>, u8), Error> {
    if input.len() < 1 {
        Err(incomplete(1))
    } else if low <= input[0] <= high {
        Ok((rest(input, 1), input[0]))
    } else {
        Err(invalid(ParseErrorKind::Custom(0)))
    }
}

/// True when `input` and `tag` hold different bytes at a place that both
/// have.
pub open spec fn differs(input: Seq<u8>, tag: Seq<u8>) -> bool {
    exists|i: int| 0 <= i < input.len() && i < tag.len() && input[i] != tag[i]
}

/// The fixed bytes `tag`: they must stand at the start of the input. Input
/// that ends inside the tag is short when it agrees as far as it goes.
pub open spec fn spec_tag(input: Seq<u8>, tag: Seq<u8>) -> Result<(Seq<u8>, Seq<u8>), Error> {
    if differs(input, tag) {
        Err(invalid(ParseErrorKind::Tag))
    } else if input.len() < tag.len() {
        Err(incomplete(tag.len() as int))
    } else {
        Ok((rest(input, tag.len() as int), tag))
    }
}

/// The next `count` bytes, whatever they hold.
pub open spec fn spec_take(input: Seq<u8>, count: int) -> Result<(Seq<u8>, Seq<u8>), Error> {
    if input.len() < count {
        Err(incomplete(count))
    } else {
        Ok((rest(input, count), input.subrange(0, count)))
    }
}

/// `first_nul` is the one position that has no zero before it and either a
/// zero at it or the end of the field.
pub proof fn lemma_first_nul(field: Seq<u8>, k: int)
    requires
        0 <= k <= field.len(),
        forall|j: int| 0 <= j < k ==> field[j] != 0,
        k == field.len() || field[k] == 0,
    ensures
        first_nul(field) == k,
    decreases field.len(),
{
    if field.len() == 0 || field[0] == 0 {
    } else {
        let tail = field.drop_first();
        assert forall|j: int| 0 <= j < k - 1 implies tail[j] != 0 by {
            assert(tail[j] == field[j + 1]);
        }
        lemma_first_nul(tail, k - 1);
    }
}

/// Reads the 16-bit little-endian number at `at`.
pub fn read_le_u16(bytes: &[u8], at: usize) -> (value: u16)
    requires
        at + 2 <= bytes.len(),
    ensures
        value == le_u16_at(bytes@, at as int),
{
    let b0: u16 = bytes[at] as u16;
    let b1: u16 = bytes[at + 1] as u16;
    b0 + 0x100 * b1
}

/// Reads the 32-bit little-endian number at `at`.
pub fn read_le_u32(bytes: &[u8], at: usize) -> (value: u32)
    requires
        at + 4 <= bytes.len(),
    ensures
        value == le_u32_at(bytes@, at as int),
{
    let b0: u32 = bytes[at] as u32;
    let b1: u32 = bytes[at + 1] as u32;
    let b2: u32 = bytes[at + 2] as u32;
    let b3: u32 = bytes[at + 3] as u32;
    b0 + 0x100 * b1 + 0x1_0000 * b2 + 0x100_0000 * b3
}

/// Reads the 64-bit little-endian number at `at`.
pub fn read_le_u64(bytes: &[u8], at: usize) -> (value: u64)
    requires
        at + 8 <= bytes.len(),
    ensures
        value == le_u64_at(bytes@, at as int),
{
    let low: u64 = read_le_u32(bytes, at) as u64;
    let high: u64 = read_le_u32(bytes, at + 4) as u64;
    low + 0x1_0000_0000 * high
}

/// Decodes one byte.
pub fn be_u8(input: &[u8]) -> (r: Result<(&[u8], u8), Error>)
    ensures
        decoded(r, spec_be_u8(input@)),
{
    if input.len() < 1 {
        Err(Error::ParseIncomplete(Some(1)))
    } else {
        Ok((slice_subrange(input, 1, input.len()), input[0]))
    }
}

/// Decodes a 16-bit number stored in both byte orders.
pub fn both_u16(input: &[u8]) -> (r: Result<(&[u8], u16), Error>)
    ensures
        decoded(r, spec_both_u16(input@)),
{
    if input.len() < 4 {
        Err(Error::ParseIncomplete(Some(2)))
    } else {
        Ok((slice_subrange(input, 4, input.len()), read_le_u16(input, 0)))
    }
}

/// Decodes a 32-bit number stored in both byte orders.
pub fn both_u32(input: &[u8]) -> (r: Result<(&[u8], u32), Error>)
    ensures
        decoded(r, spec_both_u32(input@)),
{
    if input.len() < 8 {
        Err(Error::ParseIncomplete(Some(4)))
    } else {
        Ok((slice_subrange(input, 8, input.len()), read_le_u32(input, 0)))
    }
}

/// Decodes a 64-bit number stored in both byte orders.
pub fn both_u64(input: &[u8]) -> (r: Result<(&[u8], u64), Error>)
    ensures
        decoded(r, spec_both_u64(input@)),
{
    if input.len() < 16 {
        Err(Error::ParseIncomplete(Some(8)))
    } else {
        Ok((slice_subrange(input, 16, input.len()), read_le_u64(input, 0)))
    }
}

/// Finds the first zero byte of `field`.
pub fn find_nul(field: &[u8]) -> (k: usize)
    ensures
        k == first_nul(field@),
        k <= field@.len(),
{
    let mut k: usize = 0;
    while k < field.len() && field[k] != 0
        invariant
            k <= field@.len(),
            forall|j: int| 0 <= j < k ==> field@[j] != 0,
        decreases field@.len() - k,
    {
        k = k + 1;
    }
    proof {
        lemma_first_nul(field@, k as int);
    }
    k
}

/// Decodes a zero-terminated text from a field of `size` bytes.
pub fn null_terminated(input: &[u8], size: usize) -> (r: Result<(&[u8], &[u8]), Error>)
    ensures
        decoded_bytes(r, spec_null_terminated(input@, size as int)),
{
    if input.len() < size {
        Err(Error::ParseIncomplete(Some(size)))
    } else {
        let field = slice_subrange(input, 0, size);
        let k = find_nul(field);
        Ok((slice_subrange(input, size, input.len()), slice_subrange(field, 0, k)))
    }
}

/// Decodes the fixed bytes `tag`.
pub fn tag<'a>(input: &'a [u8], expected: &[u8]) -> (r: Result<(&'a [u8], &'a [u8]), Error>)
    ensures
        decoded_bytes(r, spec_tag(input@, expected@)),
{
    let mut i: usize = 0;
    while i < expected.len() && i < input.len()
        invariant
            i <= expected@.len(),
            i <= input@.len(),
            forall|j: int| 0 <= j < i ==> input@[j] == expected@[j],
        decreases expected@.len() - i,
    {
        if input[i] != expected[i] {
            return Err(Error::ParseError(ParseErrorKind::Tag));
        }
        i = i + 1;
    }
    if input.len() < expected.len() {
        Err(Error::ParseIncomplete(Some(expected.len())))
    } else {
        let value = slice_subrange(input, 0, expected.len());
        assert(value@ =~= expected@);
        Ok((slice_subrange(input, expected.len(), input.len()), value))
    }
}

/// Decodes `count` bytes, whatever they hold.
pub fn take(input: &[u8], count: usize) -> (r: Result<(&[u8], &[u8]), Error>)
    ensures
        decoded_bytes(r, spec_take(input@, count as int)),
{
    if input.len() < count {
        Err(Error::ParseIncomplete(Some(count)))
    } else {
        Ok((slice_subrange(input, count, input.len()), slice_subrange(input, 0, count)))
    }
}

/// Decodes one byte and accepts it when it lies in `low..=high`.
pub fn matching(input: &[u8], low: u8, high: u8) -> (r: Result<(&[u8], u8), Error>)
    ensures
        decoded(r, spec_matching(input@, low, high)),
{
    if input.len() < 1 {
        Err(Error::ParseIncomplete(Some(1)))
    } else if low <= input[0] && input[0] <= high {
        Ok((slice_subrange(input, 1, input.len()), input[0]))
    } else {
        Err(Error::ParseError(ParseErrorKind::Custom(0)))
    }
}

} // verus!
