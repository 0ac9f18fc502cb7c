//! Directory records: one entry of a directory, be it a file or a
//! subdirectory.

use vstd::prelude::*;
use vstd::slice::slice_subrange;
use vstd::utf8::*;
use crate::datetime::Datetime;
use crate::error::{Error, ParseErrorKind, incomplete, invalid};
use crate::parsers::{le_u16_at, le_u32_at, read_le_u16, read_le_u32, rest};
use crate::text::{find_last, is_last_occurrence, occurs, parse_unsigned, unsigned_decimal, utf8_text};

verus! {

/// The byte `;`, which separates a file's name from its version.
pub const SEPARATOR: u8 = 0x3B;

/// The byte `.`, which separates a file's name from its extension.
pub const DOT: u8 = 0x2E;

/// One entry of a directory.
#[derive(Clone, Debug, PartialEq)]
pub struct Record {
    /// When the entry was recorded.
    pub date: Datetime,
    /// The name, without the version; `"\0"` for a directory's entry for
    /// itself and `"\x01"` for its entry for its parent.
    pub name: String,
    /// The logical block at which the entry's data starts.
    pub extent: u32,
    /// The length in bytes of the extended attribute record.
    pub ear_length: u8,
    /// The length in bytes of the entry's data.
    pub data_length: u32,
    /// The volume of the set on which the data lies.
    pub seq_number: u16,
    /// The version of a file, where its identifier ends in `;` and a number.
    pub version: Option<u8>,
    /// Whether the entry is a directory.
    pub is_dir: bool,
    /// Whether the entry is hidden from listings.
    pub is_hidden: bool,
}

/// A directory record as a mathematical value.
pub struct RecordView {
    pub date: Datetime,
    pub name: Seq<char>,
    pub extent: u32,
    pub ear_length: u8,
    pub data_length: u32,
    pub seq_number: u16,
    pub version: Option<u8>,
    pub is_dir: bool,
    pub is_hidden: bool,
}

impl View for Record {
    type V = RecordView;

    open spec fn view(&self) -> RecordView {
        RecordView {
            date: self.date,
            name: self.name@,
            extent: self.extent,
            ear_length: self.ear_length,
            data_length: self.data_length,
            seq_number: self.seq_number,
            version: self.version,
            is_dir: self.is_dir,
            is_hidden: self.is_hidden,
        }
    }
}

/// The name of a directory's entry for itself.
pub open spec fn self_name() -> Seq<char> {
    seq!['\0']
}

/// The name of a directory's entry for its parent.
pub open spec fn parent_name() -> Seq<char> {
    seq!['\x01']
}

/// The six flags of a record in the order hidden, directory, associated,
/// record format, protection, not final extent.
pub open spec fn flags_of(byte: u8) -> (bool, bool, bool, bool, bool, bool) {
    (
        byte % 2 == 1,
        (byte / 2) % 2 == 1,
        (byte / 4) % 2 == 1,
        (byte / 8) % 2 == 1,
        (byte / 16) % 2 == 1,
        (byte / 128) % 2 == 1,
    )
}

/// The flags byte of a record.
pub open spec fn spec_record_flags(input: Seq<u8>) -> Result<(Seq<u8>, (bool, bool, bool, bool, bool, bool)), Error> {
    if input.len() < 1 {
        Err(incomplete(1))
    } else {
        Ok((rest(input, 1), flags_of(input[0])))
    }
}

/// The short form of a date, as records hold it: seven bytes for the years
/// since 1900, month, day, hour, minute, second and time zone. Month, day,
/// hour, minute and second are checked against their ranges in turn; the
/// byte of the time zone is kept as it is.
pub open spec fn spec_datetime(input: Seq<u8>) -> Result<(Seq<u8>, Datetime), Error> {
    if input.len() < 2 {
        Err(incomplete(1))
    } else if !(1 <= input[1] <= 12) {
        Err(invalid(ParseErrorKind::Custom(0)))
    } else if input.len() < 3 {
        Err(incomplete(1))
    } else if !(1 <= input[2] <= 31) {
        Err(invalid(ParseErrorKind::Custom(0)))
    } else if input.len() < 4 {
        Err(incomplete(1))
    } else if !(input[3] <= 23) {
        Err(invalid(ParseErrorKind::Custom(0)))
    } else if input.len() < 5 {
        Err(incomplete(1))
    } else if !(input[4] <= 59) {
        Err(invalid(ParseErrorKind::Custom(0)))
    } else if input.len() < 6 {
        Err(incomplete(1))
    } else if !(input[5] <= 59) {
        Err(invalid(ParseErrorKind::Custom(0)))
    } else if input.len() < 7 {
        Err(incomplete(1))
    } else {
        Ok(
            (
                rest(input, 7),
                Datetime {
                    year: (1900 + input[0]) as u16,
                    month: input[1],
                    day: input[2],
                    hour: input[3],
                    minute: input[4],
                    second: input[5],
                    hundredth: 0,
                    tz: input[6],
                },
            ),
        )
    }
}

/// The position of the last `needle` in `haystack`, where there is one.
pub open spec fn last_index_of(needle: u8, haystack: Seq<u8>) -> int {
    choose|i: int| is_last_occurrence(needle, haystack, i)
}

/// Where the name ends in the identifier of a file whose last `;` is at
/// `sep`: before the `;`, and before a `.` that stands directly in front of
/// it.
pub open spec fn name_end(id: Seq<u8>, sep: int) -> int {
    if sep > 0 && id[sep - 1] == DOT {
        sep - 1
    } else {
        sep
    }
}

/// The bytes of the name and the version that an identifier holds.
///
/// A directory's identifier is its name. A file's identifier is split at its
/// last `;`: what follows must be a decimal number that fits in a byte, the
/// version; what precedes, less a trailing `.`, is the name. A file's
/// identifier without `;` is its name.
pub open spec fn spec_split_identifier(id: Seq<u8>, is_dir: bool) -> Result<(Seq<u8>, Option<u8>), Error> {
    if is_dir || !occurs(SEPARATOR, id) {
        Ok((id, None))
    } else {
        let sep = last_index_of(SEPARATOR, id);
        match unsigned_decimal(id.subrange(sep + 1, id.len() as int)) {
            Some(number) if number <= 255 => Ok((id.subrange(0, name_end(id, sep)), Some(number as u8))),
            _ => Err(invalid(ParseErrorKind::MapRes)),
        }
    }
}

/// An identifier preceded by its length: the name as text and the version.
pub open spec fn spec_versioned_name(input: Seq<u8>, is_dir: bool) -> Result<(Seq<u8>, (Seq<char>, Option<u8>)), Error> {
    if input.len() < 1 {
        Err(incomplete(1))
    } else if input.len() < 1 + input[0] {
        Err(incomplete(input[0] as int))
    } else {
        match spec_split_identifier(input.subrange(1, 1 + input[0]), is_dir) {
            Err(e) => Err(e),
            Ok((name, version)) => if valid_utf8(name) {
                Ok((rest(input, 1 + input[0]), (decode_utf8(name), version)))
            } else {
                Err(invalid(ParseErrorKind::MapRes))
            },
        }
    }
}

/// The fields of a record, read from the `window` of bytes that the record's
/// length byte claims. The length byte is `window[0]`; the fields follow at
/// fixed places up to the identifier, and what follows the identifier
/// (padding and system use) is passed over.
pub open spec fn spec_record_fields(window: Seq<u8>) -> Result<RecordView, Error> {
    if window.len() < 2 {
        Err(incomplete(1))
    } else if window.len() < 10 {
        Err(incomplete(4))
    } else if window.len() < 18 {
        Err(incomplete(4))
    } else {
        match spec_datetime(rest(window, 18)) {
            Err(e) => Err(e),
            Ok((_, date)) => if window.len() < 28 {
                Err(incomplete(1))
            } else if window.len() < 32 {
                Err(incomplete(2))
            } else {
                let flags = flags_of(window[25]);
                match spec_versioned_name(rest(window, 32), flags.1) {
                    Err(e) => Err(e),
                    Ok((_, (name, version))) => Ok(
                        RecordView {
                            date,
                            name,
                            extent: le_u32_at(window, 2) as u32,
                            ear_length: window[1],
                            data_length: le_u32_at(window, 10) as u32,
                            seq_number: le_u16_at(window, 28) as u16,
                            version,
                            is_dir: flags.1,
                            is_hidden: flags.0,
                        },
                    ),
                }
            },
        }
    }
}

/// One directory record at the start of `input`.
///
/// The first byte is the record's length. A zero there is no record but the
/// sign that no further record starts in this sector, reported as
/// `ParseErrorKind::Not`. Otherwise that many bytes are the record, its
/// fields are read from them alone, and the input that is left starts
/// after them.
pub open spec fn spec_record(input: Seq<u8>) -> Result<(Seq<u8>, RecordView), Error> {
    if input.len() < 1 {
        Err(incomplete(1))
    } else if input[0] == 0 {
        Err(invalid(ParseErrorKind::Not))
    } else if input.len() < input[0] {
        Err(incomplete(input[0] as int))
    } else {
        match spec_record_fields(input.subrange(0, input[0] as int)) {
            Err(e) => Err(e),
            Ok(record) => Ok((rest(input, input[0] as int), record)),
        }
    }
}

/// At most one position is the last occurrence of a byte.
pub proof fn lemma_last_index_of(needle: u8, haystack: Seq<u8>, index: int)
    requires
        is_last_occurrence(needle, haystack, index),
    ensures
        last_index_of(needle, haystack) == index,
        occurs(needle, haystack),
{
    let chosen = last_index_of(needle, haystack);
    assert(is_last_occurrence(needle, haystack, chosen));
    if chosen < index {
        assert(haystack[index] != needle);
    } else if index < chosen {
        assert(haystack[chosen] != needle);
    }
}

/// Decodes the short form of a date.
pub fn datetime(input: &[u8]) -> (r: Result<(&[u8], Datetime), Error>)
    ensures
        crate::parsers::decoded(r, spec_datetime(input@)),
{
    if input.len() < 2 {
        return Err(Error::ParseIncomplete(Some(1)));
    }
    let month = input[1];
    if !(1 <= month && month <= 12) {
        return Err(Error::ParseError(ParseErrorKind::Custom(0)));
    }
    if input.len() < 3 {
        return Err(Error::ParseIncomplete(Some(1)));
    }
    let day = input[2];
    if !(1 <= day && day <= 31) {
        return Err(Error::ParseError(ParseErrorKind::Custom(0)));
    }
    if input.len() < 4 {
        return Err(Error::ParseIncomplete(Some(1)));
    }
    let hour = input[3];
    if hour > 23 {
        return Err(Error::ParseError(ParseErrorKind::Custom(0)));
    }
    if input.len() < 5 {
        return Err(Error::ParseIncomplete(Some(1)));
    }
    let minute = input[4];
    if minute > 59 {
        return Err(Error::ParseError(ParseErrorKind::Custom(0)));
    }
    if input.len() < 6 {
        return Err(Error::ParseIncomplete(Some(1)));
    }
    let second = input[5];
    if second > 59 {
        return Err(Error::ParseError(ParseErrorKind::Custom(0)));
    }
    if input.len() < 7 {
        return Err(Error::ParseIncomplete(Some(1)));
    }
    let tz = input[6];
    let year: u16 = 1900 + input[0] as u16;
    Ok(
        (
            slice_subrange(input, 7, input.len()),
            Datetime { year, month, day, hour, minute, second, hundredth: 0, tz },
        ),
    )
}

/// Decodes the flags byte of a record.
pub fn record_flags(input: &[u8]) -> (r: Result<(&[u8], (bool, bool, bool, bool, bool, bool)), Error>)
    ensures
        crate::parsers::decoded(r, spec_record_flags(input@)),
{
    if input.len() < 1 {
        return Err(Error::ParseIncomplete(Some(1)));
    }
    let byte = input[0];
    Ok(
        (
            slice_subrange(input, 1, input.len()),
            (
                byte % 2 == 1,
                (byte / 2) % 2 == 1,
                (byte / 4) % 2 == 1,
                (byte / 8) % 2 == 1,
                (byte / 16) % 2 == 1,
                (byte / 128) % 2 == 1,
            ),
        ),
    )
}

/// Splits an identifier into the bytes of the name and the version.
pub fn split_identifier(id: &[u8], is_dir: bool) -> (r: Result<(&[u8], Option<u8>), Error>)
    ensures
        match (r, spec_split_identifier(id@, is_dir)) {
            (Ok((name, version)), Ok((want_name, want_version))) => name@ == want_name && version == want_version,
            (Err(e), Err(want_e)) => e == want_e,
            _ => false,
        },
{
    if is_dir {
        return Ok((id, None));
    }
    match find_last(SEPARATOR, id) {
        None => Ok((id, None)),
        Some(sep) => {
            proof {
                lemma_last_index_of(SEPARATOR, id@, sep as int);
            }
            let end = if sep > 0 && id[sep - 1] == DOT {
                sep - 1
            } else {
                sep
            };
            match parse_unsigned(slice_subrange(id, sep + 1, id.len())) {
                Some(number) => {
                    if number <= 255 {
                        Ok((slice_subrange(id, 0, end), Some(number as u8)))
                    } else {
                        Err(Error::ParseError(ParseErrorKind::MapRes))
                    }
                },
                None => Err(Error::ParseError(ParseErrorKind::MapRes)),
            }
        },
    }
}

/// Decodes an identifier preceded by its length into a name and a version.
pub fn versioned_name(input: &[u8], is_dir: bool) -> (r: Result<(&[u8], (&str, Option<u8>)), Error>)
    ensures
        match (r, spec_versioned_name(input@, is_dir)) {
            (Ok((left, (name, version))), Ok((want_left, (want_name, want_version)))) => {
                &&& left@ == want_left
                &&& name@ == want_name
                &&& version == want_version
            },
            (Err(e), Err(want_e)) => e == want_e,
            _ => false,
        },
{
    if input.len() < 1 {
        return Err(Error::ParseIncomplete(Some(1)));
    }
    let size = input[0] as usize;
    if input.len() - 1 < size {
        return Err(Error::ParseIncomplete(Some(size)));
    }
    let id = slice_subrange(input, 1, 1 + size);
    let left = slice_subrange(input, 1 + size, input.len());
    let (name, version) = split_identifier(id, is_dir)?;
    match utf8_text(name) {
        Some(text) => Ok((left, (text, version))),
        None => Err(Error::ParseError(ParseErrorKind::MapRes)),
    }
}

/// Decodes the fields of a record from the bytes that its length claims.
fn record_fields(window: &[u8]) -> (r: Result<Record, Error>)
    ensures
        match (r, spec_record_fields(window@)) {
            (Ok(record), Ok(want)) => record@ == want,
            (Err(e), Err(want_e)) => e == want_e,
            _ => false,
        },
{
    let len = window.len();
    if len < 2 {
        return Err(Error::ParseIncomplete(Some(1)));
    }
    if len < 18 {
        return Err(Error::ParseIncomplete(Some(4)));
    }
    let ear_length = window[1];
    let extent = read_le_u32(window, 2);
    let data_length = read_le_u32(window, 10);
    let (_, date) = datetime(slice_subrange(window, 18, len))?;
    if len < 28 {
        return Err(Error::ParseIncomplete(Some(1)));
    }
    if len < 32 {
        return Err(Error::ParseIncomplete(Some(2)));
    }
    let (_, flags) = record_flags(slice_subrange(window, 25, len))?;
    let seq_number = read_le_u16(window, 28);
    let (_, (name, version)) = versioned_name(slice_subrange(window, 32, len), flags.1)?;
    Ok(
        Record {
            date,
            name: name.to_owned(),
            extent,
            ear_length,
            data_length,
            seq_number,
            version,
            is_dir: flags.1,
            is_hidden: flags.0,
        },
    )
}

/// Decodes one directory record at the start of `input`.
pub fn record(input: &[u8]) -> (r: Result<(&[u8], Record), Error>)
    ensures
        match (r, spec_record(input@)) {
            (Ok((left, record)), Ok((want_left, want))) => left@ == want_left && record@ == want,
            (Err(e), Err(want_e)) => e == want_e,
            _ => false,
        },
{
    if input.len() < 1 {
        return Err(Error::ParseIncomplete(Some(1)));
    }
    let length = input[0] as usize;
    if length == 0 {
        return Err(Error::ParseError(ParseErrorKind::Not));
    }
    if input.len() < length {
        return Err(Error::ParseIncomplete(Some(length)));
    }
    let record = record_fields(slice_subrange(input, 0, length))?;
    Ok((slice_subrange(input, length, input.len()), record))
}

impl Record {
    /// Decodes the directory record at the start of `input`.
    pub fn parse(input: &[u8]) -> (r: Result<Record, Error>)
        ensures
            match (r, spec_record(input@)) {
                (Ok(record), Ok((_, want))) => record@ == want,
                (Err(e), Err(want_e)) => e == want_e,
                _ => false,
            },
    {
        let (_, record) = record(input)?;
        Ok(record)
    }

    /// A copy of the record.
    pub fn duplicate(&self) -> (copy: Record)
        ensures
            copy@ == self@,
    {
        Record {
            date: self.date,
            name: self.name.clone(),
            extent: self.extent,
            ear_length: self.ear_length,
            data_length: self.data_length,
            seq_number: self.seq_number,
            version: self.version,
            is_dir: self.is_dir,
            is_hidden: self.is_hidden,
        }
    }
}

} // verus!
