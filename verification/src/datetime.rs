//! Calendar date and time as ISO-9660 stores it.

use vstd::prelude::*;
use vstd::slice::slice_subrange;
use crate::error::{Error, ParseErrorKind, incomplete, invalid};
use crate::parsers::rest;
use crate::text::{decimal_value, is_decimal, parse_unsigned, unsigned_decimal};

verus! {

/// A date and time of day with the offset of its time zone.
///
/// The fields hold what the image holds; `tz` is the offset from Greenwich
/// in quarters of an hour, stored with 48 added (so 48 is Greenwich itself).
#[derive(Clone, Copy, Debug, PartialEq, Eq, Structural)]
pub struct Datetime {
    pub year: u16,
    pub month: u8,
    pub day: u8,
    pub hour: u8,
    pub minute: u8,
    pub second: u8,
    pub hundredth: u8,
    pub tz: u8,
}

/// Ten to the power `n`.
pub open spec fn pow10(n: nat) -> nat
    decreases n,
{
    if n == 0 {
        1
    } else {
        10 * pow10((n - 1) as nat)
    }
}

/// The number written by the `count` decimal digits at `at`, when they are
/// digits.
pub open spec fn digits_at(input: Seq<u8>, at: int, count: int) -> Option<u32> {
    unsigned_decimal(input.subrange(at, at + count))
}

/// True when the seventeen bytes at the start of `input` are sixteen ASCII
/// zeros and a zero offset: the way an absent date is written.
pub open spec fn is_unset(input: Seq<u8>) -> bool {
    &&& input.len() >= 17
    &&& forall|i: int| 0 <= i < 16 ==> input[i] == 0x30
    &&& input[16] == 0
}

/// The long form of a date: sixteen decimal digits `YYYYMMDDhhmmsscc` and
/// the time zone byte. Each group is read in turn and must be digits.
pub open spec fn spec_long_datetime(input: Seq<u8>) -> Result<(Seq<u8>, Datetime), Error> {
    if input.len() < 4 {
        Err(incomplete(4))
    } else if digits_at(input, 0, 4) is None {
        Err(invalid(ParseErrorKind::MapRes))
    } else if input.len() < 6 {
        Err(incomplete(2))
    } else if digits_at(input, 4, 2) is None {
        Err(invalid(ParseErrorKind::MapRes))
    } else if input.len() < 8 {
        Err(incomplete(2))
    } else if digits_at(input, 6, 2) is None {
        Err(invalid(ParseErrorKind::MapRes))
    } else if input.len() < 10 {
        Err(incomplete(2))
    } else if digits_at(input, 8, 2) is None {
        Err(invalid(ParseErrorKind::MapRes))
    } else if input.len() < 12 {
        Err(incomplete(2))
    } else if digits_at(input, 10, 2) is None {
        Err(invalid(ParseErrorKind::MapRes))
    } else if input.len() < 14 {
        Err(incomplete(2))
    } else if digits_at(input, 12, 2) is None {
        Err(invalid(ParseErrorKind::MapRes))
    } else if input.len() < 16 {
        Err(incomplete(2))
    } else if digits_at(input, 14, 2) is None {
        Err(invalid(ParseErrorKind::MapRes))
    } else if input.len() < 17 {
        Err(incomplete(1))
    } else {
        Ok(
            (
                rest(input, 17),
                Datetime {
                    year: digits_at(input, 0, 4).unwrap() as u16,
                    month: digits_at(input, 4, 2).unwrap() as u8,
                    day: digits_at(input, 6, 2).unwrap() as u8,
                    hour: digits_at(input, 8, 2).unwrap() as u8,
                    minute: digits_at(input, 10, 2).unwrap() as u8,
                    second: digits_at(input, 12, 2).unwrap() as u8,
                    hundredth: digits_at(input, 14, 2).unwrap() as u8,
                    tz: input[16],
                },
            ),
        )
    }
}

/// A date in the long form that may be absent.
pub open spec fn spec_optional_datetime(input: Seq<u8>) -> Result<(Seq<u8>, Option<Datetime>), Error> {
    match spec_long_datetime(input) {
        Err(e) => Err(e),
        Ok((left, date)) => Ok(
            (
                left,
                if is_unset(input) {
                    None
                } else {
                    Some(date)
                },
            ),
        ),
    }
}

/// A run of decimal digits writes a number below ten to the power of its
/// length.
pub proof fn lemma_decimal_bound(bytes: Seq<u8>)
    requires
        forall|i: int| 0 <= i < bytes.len() ==> 0x30 <= #[trigger] bytes[i] <= 0x39,
    ensures
        decimal_value(bytes) < pow10(bytes.len()),
    decreases bytes.len(),
{
    if bytes.len() > 0 {
        let front = bytes.drop_last();
        assert forall|i: int| 0 <= i < front.len() implies 0x30 <= #[trigger] front[i] <= 0x39 by {
            assert(front[i] == bytes[i]);
        }
        lemma_decimal_bound(front);
    }
}

impl Datetime {
    /// The offset of the time zone from Greenwich, in seconds.
    pub open spec fn spec_offset_seconds(&self) -> int {
        (self.tz - 48) * 900
    }

    /// The fraction of the second, in nanoseconds.
    pub open spec fn spec_nanosecond(&self) -> int {
        self.hundredth * 10_000_000
    }

    /// The offset of the time zone from Greenwich, in seconds.
    pub fn offset_seconds(&self) -> (seconds: i32)
        ensures
            seconds == self.spec_offset_seconds(),
    {
        (self.tz as i32 - 48) * 900
    }

    /// The calendar year.
    pub fn year(&self) -> (y: i32)
        ensures
            y == self.year,
    {
        self.year as i32
    }

    /// The month, counted from 1.
    pub fn month(&self) -> (m: u32)
        ensures
            m == self.month,
    {
        self.month as u32
    }

    /// The day of the month, counted from 1.
    pub fn day(&self) -> (d: u32)
        ensures
            d == self.day,
    {
        self.day as u32
    }

    /// The hour of the day.
    pub fn hour(&self) -> (h: u32)
        ensures
            h == self.hour,
    {
        self.hour as u32
    }

    /// The minute of the hour.
    pub fn minute(&self) -> (m: u32)
        ensures
            m == self.minute,
    {
        self.minute as u32
    }

    /// The second of the minute.
    pub fn second(&self) -> (s: u32)
        ensures
            s == self.second,
    {
        self.second as u32
    }

    /// The fraction of the second, in nanoseconds.
    pub fn nanosecond(&self) -> (n: u32)
        ensures
            n == self.spec_nanosecond(),
    {
        self.hundredth as u32 * 10_000_000
    }
}

/// Reads `count` decimal digits at `at`, where `count` is 2 or 4.
fn read_digits(input: &[u8], at: usize, count: usize) -> (r: Option<u32>)
    requires
        count == 2 || count == 4,
        at + count <= input.len(),
    ensures
        r == digits_at(input@, at as int, count as int),
        r matches Some(v) ==> v < pow10(count as nat),
{
    let field = slice_subrange(input, at, at + count);
    let r = parse_unsigned(field);
    proof {
        if r is Some {
            lemma_decimal_bound(field@);
        }
    }
    r
}

/// Decodes a date in the long form of seventeen bytes.
pub fn long_datetime(input: &[u8]) -> (r: Result<(&[u8], Datetime), Error>)
    ensures
        crate::parsers::decoded(r, spec_long_datetime(input@)),
{
    proof {
        reveal_with_fuel(pow10, 5);
    }
    if input.len() < 4 {
        return Err(Error::ParseIncomplete(Some(4)));
    }
    let year = match read_digits(input, 0, 4) {
        Some(v) => v as u16,
        None => return Err(Error::ParseError(ParseErrorKind::MapRes)),
    };
    if input.len() < 6 {
        return Err(Error::ParseIncomplete(Some(2)));
    }
    let month = match read_digits(input, 4, 2) {
        Some(v) => v as u8,
        None => return Err(Error::ParseError(ParseErrorKind::MapRes)),
    };
    if input.len() < 8 {
        return Err(Error::ParseIncomplete(Some(2)));
    }
    let day = match read_digits(input, 6, 2) {
        Some(v) => v as u8,
        None => return Err(Error::ParseError(ParseErrorKind::MapRes)),
    };
    if input.len() < 10 {
        return Err(Error::ParseIncomplete(Some(2)));
    }
    let hour = match read_digits(input, 8, 2) {
        Some(v) => v as u8,
        None => return Err(Error::ParseError(ParseErrorKind::MapRes)),
    };
    if input.len() < 12 {
        return Err(Error::ParseIncomplete(Some(2)));
    }
    let minute = match read_digits(input, 10, 2) {
        Some(v) => v as u8,
        None => return Err(Error::ParseError(ParseErrorKind::MapRes)),
    };
    if input.len() < 14 {
        return Err(Error::ParseIncomplete(Some(2)));
    }
    let second = match read_digits(input, 12, 2) {
        Some(v) => v as u8,
        None => return Err(Error::ParseError(ParseErrorKind::MapRes)),
    };
    if input.len() < 16 {
        return Err(Error::ParseIncomplete(Some(2)));
    }
    let hundredth = match read_digits(input, 14, 2) {
        Some(v) => v as u8,
        None => return Err(Error::ParseError(ParseErrorKind::MapRes)),
    };
    if input.len() < 17 {
        return Err(Error::ParseIncomplete(Some(1)));
    }
    let tz = input[16];
    Ok(
        (
            slice_subrange(input, 17, input.len()),
            Datetime { year, month, day, hour, minute, second, hundredth, tz },
        ),
    )
}

/// Decodes a date in the long form that may be absent.
pub fn optional_datetime(input: &[u8]) -> (r: Result<(&[u8], Option<Datetime>), Error>)
    ensures
        crate::parsers::decoded(r, spec_optional_datetime(input@)),
{
    let (left, date) = long_datetime(input)?;
    let mut zeros = input[16] == 0;
    let mut i: usize = 0;
    while i < 16
        invariant
            i <= 16,
            input@.len() >= 17,
            zeros == (input@[16] == 0 && forall|j: int| 0 <= j < i ==> input@[j] == 0x30),
        decreases 16 - i,
    {
        if input[i] != 0x30 {
            zeros = false;
        }
        i = i + 1;
    }
    if zeros {
        Ok((left, None))
    } else {
        Ok((left, Some(date)))
    }
}

} // verus!
