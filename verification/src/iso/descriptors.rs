//! Volume descriptors: the 2048-byte structures, from sector 16 on, that
//! describe a volume.

use vstd::prelude::*;
use vstd::slice::{slice_subrange, slice_to_vec};
use vstd::utf8::*;
use crate::datetime::{Datetime, long_datetime, optional_datetime, spec_long_datetime, spec_optional_datetime};
use crate::error::{Error, ParseErrorKind, incomplete, invalid};
use crate::iso::record::{Record, RecordView, spec_record};
use crate::parsers::{le_u16_at, le_u32_at, read_le_u16, read_le_u32, rest, spec_tag, tag, until_nul, find_nul};
use crate::text::utf8_text;

verus! {

/// The size in bytes of a sector, and of every volume descriptor.
pub const SECTOR_SIZE: usize = 2048;

/// The type byte of a boot record.
pub const TYPE_BOOT: u8 = 0x00;

/// The type byte of a primary volume descriptor.
pub const TYPE_PRIMARY: u8 = 0x01;

/// The type byte of a set terminator.
pub const TYPE_TERMINATOR: u8 = 0xFF;

/// The standard identifier `CD001` that follows the type byte.
pub open spec fn standard_identifier() -> Seq<u8> {
    seq![0x43u8, 0x44u8, 0x30u8, 0x30u8, 0x31u8]
}

/// The failure, if any, of finding the fixed bytes `expected` at `at`.
pub open spec fn tag_error(input: Seq<u8>, at: int, expected: Seq<u8>) -> Option<Error> {
    match spec_tag(rest(input, at), expected) {
        Err(e) => Some(e),
        Ok(_) => None,
    }
}

/// The failure, if any, of finding the start that all descriptors share:
/// the type byte `kind`, the standard identifier and the version byte 1.
pub open spec fn header_error(input: Seq<u8>, kind: u8) -> Option<Error> {
    if tag_error(input, 0, seq![kind]) is Some {
        tag_error(input, 0, seq![kind])
    } else if tag_error(input, 1, standard_identifier()) is Some {
        tag_error(input, 1, standard_identifier())
    } else {
        tag_error(input, 6, seq![1u8])
    }
}

/// A boot record: it names the system that can boot from the volume.
#[derive(Clone, Debug, PartialEq)]
pub struct BootRecord {
    /// The version of the descriptor.
    pub version: u8,
    /// The system that can act on the boot record.
    pub system_identifier: String,
    /// The boot system that the record describes.
    pub boot_identifier: String,
    /// What the boot system stores, uninterpreted.
    pub system_use: Vec<u8>,
}

/// A boot record as a mathematical value.
pub struct BootRecordView {
    pub version: u8,
    pub system_identifier: Seq<char>,
    pub boot_identifier: Seq<char>,
    pub system_use: Seq<u8>,
}

impl View for BootRecord {
    type V = BootRecordView;

    open spec fn view(&self) -> BootRecordView {
        BootRecordView {
            version: self.version,
            system_identifier: self.system_identifier@,
            boot_identifier: self.boot_identifier@,
            system_use: self.system_use@,
        }
    }
}

/// The end of the set of volume descriptors.
#[derive(Clone, Copy, Debug, PartialEq, Eq, Structural)]
pub struct SetTerminator {
    /// The version of the descriptor.
    pub version: u8,
}

/// The primary volume descriptor: the geometry of the volume, its root
/// directory and what identifies it.
#[derive(Clone, Debug, PartialEq)]
pub struct PrimaryVolumeDescriptor {
    /// The version of the descriptor.
    pub version: u8,
    /// The system that can act on the first sectors of the volume.
    pub system_id: Vec<u8>,
    /// The name of the volume.
    pub volume_id: Vec<u8>,
    /// The number of logical blocks of the volume.
    pub space_size: u32,
    /// The number of volumes in the set.
    pub set_size: u16,
    /// The place of this volume in the set.
    pub seq_number: u16,
    /// The size in bytes of a logical block.
    pub block_size: u16,
    /// The size in bytes of the path table.
    pub path_table_size: u32,
    /// The record of the root directory.
    pub root: Record,
    /// The name of the set of volumes.
    pub set_id: Vec<u8>,
    /// Who published the volume.
    pub publisher_id: Vec<u8>,
    /// Who prepared the data.
    pub preparer_id: Vec<u8>,
    /// How the data is recorded.
    pub application_id: Vec<u8>,
    /// The file in the root directory that holds the copyright notice.
    pub copyright_file: Vec<u8>,
    /// The file in the root directory that holds the abstract.
    pub abstract_file: Vec<u8>,
    /// The file in the root directory that holds the bibliography.
    pub bibliographic_file: Vec<u8>,
    /// When the volume was created.
    pub creation: Datetime,
    /// When the volume was last changed.
    pub modification: Datetime,
    /// After when the volume is obsolete, if ever.
    pub expiration: Option<Datetime>,
    /// From when the volume may be used, if not at once.
    pub effective: Option<Datetime>,
    /// The version of the directory records and path tables.
    pub fs_version: u8,
    /// What the application stores, uninterpreted.
    pub application_use: Vec<u8>,
    /// The bytes that the standard reserves.
    pub reserved: Vec<u8>,
}

/// A primary volume descriptor as a mathematical value.
pub struct PrimaryVolumeDescriptorView {
    pub version: u8,
    pub system_id: Seq<u8>,
    pub volume_id: Seq<u8>,
    pub space_size: u32,
    pub set_size: u16,
    pub seq_number: u16,
    pub block_size: u16,
    pub path_table_size: u32,
    pub root: RecordView,
    pub set_id: Seq<u8>,
    pub publisher_id: Seq<u8>,
    pub preparer_id: Seq<u8>,
    pub application_id: Seq<u8>,
    pub copyright_file: Seq<u8>,
    pub abstract_file: Seq<u8>,
    pub bibliographic_file: Seq<u8>,
    pub creation: Datetime,
    pub modification: Datetime,
    pub expiration: Option<Datetime>,
    pub effective: Option<Datetime>,
    pub fs_version: u8,
    pub application_use: Seq<u8>,
    pub reserved: Seq<u8>,
}

impl View for PrimaryVolumeDescriptor {
    type V = PrimaryVolumeDescriptorView;

    open spec fn view(&self) -> PrimaryVolumeDescriptorView {
        PrimaryVolumeDescriptorView {
            version: self.version,
            system_id: self.system_id@,
            volume_id: self.volume_id@,
            space_size: self.space_size,
            set_size: self.set_size,
            seq_number: self.seq_number,
            block_size: self.block_size,
            path_table_size: self.path_table_size,
            root: self.root@,
            set_id: self.set_id@,
            publisher_id: self.publisher_id@,
            preparer_id: self.preparer_id@,
            application_id: self.application_id@,
            copyright_file: self.copyright_file@,
            abstract_file: self.abstract_file@,
            bibliographic_file: self.bibliographic_file@,
            creation: self.creation,
            modification: self.modification,
            expiration: self.expiration,
            effective: self.effective,
            fs_version: self.fs_version,
            application_use: self.application_use@,
            reserved: self.reserved@,
        }
    }
}

/// Any of the volume descriptors that the library knows.
#[derive(Clone, Debug, PartialEq)]
pub enum VolumeDescriptor {
    Boot(BootRecord),
    Terminator(SetTerminator),
    Primary(PrimaryVolumeDescriptor),
}

/// A volume descriptor as a mathematical value.
pub enum VolumeDescriptorView {
    Boot(BootRecordView),
    Terminator(SetTerminator),
    Primary(PrimaryVolumeDescriptorView),
}

impl View for VolumeDescriptor {
    type V = VolumeDescriptorView;

    open spec fn view(&self) -> VolumeDescriptorView {
        match self {
            VolumeDescriptor::Boot(boot) => VolumeDescriptorView::Boot(boot@),
            VolumeDescriptor::Terminator(terminator) => VolumeDescriptorView::Terminator(*terminator),
            VolumeDescriptor::Primary(primary) => VolumeDescriptorView::Primary(primary@),
        }
    }
}

/// The failure, if any, of reading a boot record: the first check, in the
/// order of the bytes, that the input does not pass.
pub open spec fn boot_record_error(input: Seq<u8>) -> Option<Error> {
    if header_error(input, TYPE_BOOT) is Some {
        header_error(input, TYPE_BOOT)
    } else if input.len() < 39 {
        Some(incomplete(32))
    } else if !valid_utf8(until_nul(input.subrange(7, 39))) {
        Some(invalid(ParseErrorKind::MapRes))
    } else if input.len() < 71 {
        Some(incomplete(32))
    } else if !valid_utf8(until_nul(input.subrange(39, 71))) {
        Some(invalid(ParseErrorKind::MapRes))
    } else if input.len() < 2048 {
        Some(incomplete(1977))
    } else {
        None
    }
}

/// A boot record at the start of `input`: the shared start, two
/// zero-terminated texts of 32 bytes, and 1977 bytes for the boot system.
pub open spec fn spec_boot_record(input: Seq<u8>) -> Result<(Seq<u8>, BootRecordView), Error> {
    match boot_record_error(input) {
        Some(e) => Err(e),
        None => Ok(
            (
                rest(input, 2048),
                BootRecordView {
                    version: input[6],
                    system_identifier: decode_utf8(until_nul(input.subrange(7, 39))),
                    boot_identifier: decode_utf8(until_nul(input.subrange(39, 71))),
                    system_use: input.subrange(71, 2048),
                },
            ),
        ),
    }
}

/// The failure, if any, of reading a set terminator.
pub open spec fn terminator_error(input: Seq<u8>) -> Option<Error> {
    if header_error(input, TYPE_TERMINATOR) is Some {
        header_error(input, TYPE_TERMINATOR)
    } else if input.len() < 2048 {
        Some(incomplete(2041))
    } else {
        None
    }
}

/// A set terminator at the start of `input`: the shared start and 2041
/// bytes that are passed over.
pub open spec fn spec_terminator(input: Seq<u8>) -> Result<(Seq<u8>, SetTerminator), Error> {
    match terminator_error(input) {
        Some(e) => Err(e),
        None => Ok((rest(input, 2048), SetTerminator { version: input[6] })),
    }
}

/// The failure, if any, of reading the geometry of a primary volume
/// descriptor: everything before the record of the root directory.
pub open spec fn primary_geometry_error(input: Seq<u8>) -> Option<Error> {
    if header_error(input, TYPE_PRIMARY) is Some {
        header_error(input, TYPE_PRIMARY)
    } else if tag_error(input, 7, seq![0u8]) is Some {
        tag_error(input, 7, seq![0u8])
    } else if input.len() < 40 {
        Some(incomplete(32))
    } else if input.len() < 72 {
        Some(incomplete(32))
    } else if input.len() < 80 {
        Some(incomplete(8))
    } else if input.len() < 88 {
        Some(incomplete(4))
    } else if input.len() < 120 {
        Some(incomplete(32))
    } else if input.len() < 132 {
        Some(incomplete(2))
    } else if input.len() < 140 {
        Some(incomplete(4))
    } else if input.len() < 156 {
        Some(incomplete(16))
    } else {
        None
    }
}

/// The failure, if any, of reading what follows the geometry: the record of
/// the root directory and the identifiers.
pub open spec fn primary_identity_error(input: Seq<u8>) -> Option<Error> {
    if input.len() < 190 {
        Some(incomplete(34))
    } else if spec_record(input.subrange(156, 190)) is Err {
        Some(invalid(ParseErrorKind::MapRes))
    } else if input.len() < 702 {
        Some(incomplete(128))
    } else if input.len() < 740 {
        Some(incomplete(38))
    } else if input.len() < 776 {
        Some(incomplete(36))
    } else if input.len() < 813 {
        Some(incomplete(37))
    } else {
        None
    }
}

/// The failure, if any, of reading what follows the identifiers: the four
/// dates, the version of the structures and the two closing areas.
pub open spec fn primary_dates_error(input: Seq<u8>) -> Option<Error> {
    if spec_long_datetime(rest(input, 813)) is Err {
        Some(spec_long_datetime(rest(input, 813))->Err_0)
    } else if spec_long_datetime(rest(input, 830)) is Err {
        Some(spec_long_datetime(rest(input, 830))->Err_0)
    } else if spec_optional_datetime(rest(input, 847)) is Err {
        Some(spec_optional_datetime(rest(input, 847))->Err_0)
    } else if spec_optional_datetime(rest(input, 864)) is Err {
        Some(spec_optional_datetime(rest(input, 864))->Err_0)
    } else if tag_error(input, 881, seq![1u8]) is Some {
        tag_error(input, 881, seq![1u8])
    } else if tag_error(input, 882, seq![0u8]) is Some {
        tag_error(input, 882, seq![0u8])
    } else if input.len() < 1395 {
        Some(incomplete(512))
    } else if input.len() < 2048 {
        Some(incomplete(653))
    } else {
        None
    }
}

/// The failure, if any, of reading a primary volume descriptor: the first
/// check, in the order of the bytes, that the input does not pass.
pub open spec fn primary_error(input: Seq<u8>) -> Option<Error> {
    if primary_geometry_error(input) is Some {
        primary_geometry_error(input)
    } else if primary_identity_error(input) is Some {
        primary_identity_error(input)
    } else {
        primary_dates_error(input)
    }
}

/// The fields of the primary volume descriptor in the 2048 bytes at the
/// start of `input`, each at its fixed place.
pub open spec fn primary_fields(input: Seq<u8>) -> PrimaryVolumeDescriptorView {
    PrimaryVolumeDescriptorView {
        version: input[6],
        system_id: input.subrange(8, 40),
        volume_id: input.subrange(40, 72),
        space_size: le_u32_at(input, 80) as u32,
        set_size: le_u16_at(input, 120) as u16,
        seq_number: le_u16_at(input, 124) as u16,
        block_size: le_u16_at(input, 128) as u16,
        path_table_size: le_u32_at(input, 132) as u32,
        root: spec_record(input.subrange(156, 190))->Ok_0.1,
        set_id: input.subrange(190, 318),
        publisher_id: input.subrange(318, 446),
        preparer_id: input.subrange(446, 574),
        application_id: input.subrange(574, 702),
        copyright_file: input.subrange(702, 740),
        abstract_file: input.subrange(740, 776),
        bibliographic_file: input.subrange(776, 813),
        creation: spec_long_datetime(rest(input, 813))->Ok_0.1,
        modification: spec_long_datetime(rest(input, 830))->Ok_0.1,
        expiration: spec_optional_datetime(rest(input, 847))->Ok_0.1,
        effective: spec_optional_datetime(rest(input, 864))->Ok_0.1,
        fs_version: input[881],
        application_use: input.subrange(883, 1395),
        reserved: input.subrange(1395, 2048),
    }
}

/// A primary volume descriptor at the start of `input`.
pub open spec fn spec_primary(input: Seq<u8>) -> Result<(Seq<u8>, PrimaryVolumeDescriptorView), Error> {
    match primary_error(input) {
        Some(e) => Err(e),
        None => Ok((rest(input, 2048), primary_fields(input))),
    }
}

/// The volume descriptor at the start of `bytes`, told by its first byte.
pub open spec fn spec_volume_descriptor(bytes: Seq<u8>) -> Result<VolumeDescriptorView, Error> {
    if bytes.len() == 0 {
        Err(incomplete(2048))
    } else if bytes[0] == TYPE_BOOT {
        match spec_boot_record(bytes) {
            Err(e) => Err(e),
            Ok((_, boot)) => Ok(VolumeDescriptorView::Boot(boot)),
        }
    } else if bytes[0] == TYPE_PRIMARY {
        match spec_primary(bytes) {
            Err(e) => Err(e),
            Ok((_, primary)) => Ok(VolumeDescriptorView::Primary(primary)),
        }
    } else if bytes[0] == TYPE_TERMINATOR {
        match spec_terminator(bytes) {
            Err(e) => Err(e),
            Ok((_, terminator)) => Ok(VolumeDescriptorView::Terminator(terminator)),
        }
    } else {
        Err(Error::UnknownDescriptorType(bytes[0]))
    }
}

/// Checks that the byte at `at` is `value`.
fn expect_byte(input: &[u8], at: usize, value: u8) -> (r: Result<(), Error>)
    requires
        at <= input.len(),
    ensures
        match tag_error(input@, at as int, seq![value]) {
            Some(e) => r == Err::<(), Error>(e),
            None => r is Ok && at < input@.len() && input@[at as int] == value,
        },
{
    let ghost left = rest(input@, at as int);
    if input.len() == at {
        Err(Error::ParseIncomplete(Some(1)))
    } else if input[at] != value {
        assert(left[0] != seq![value][0]);
        Err(Error::ParseError(ParseErrorKind::Tag))
    } else {
        assert(left[0] == seq![value][0]);
        Ok(())
    }
}

/// Checks the start that all descriptors share.
fn header(input: &[u8], kind: u8) -> (r: Result<(), Error>)
    ensures
        match header_error(input@, kind) {
            Some(e) => r == Err::<(), Error>(e),
            None => r is Ok && input@.len() >= 7 && input@[0] == kind && input@[6] == 1,
        },
{
    expect_byte(input, 0, kind)?;
    let identifier: [u8; 5] = [0x43, 0x44, 0x30, 0x30, 0x31];
    assert(identifier@ =~= standard_identifier());
    tag(slice_subrange(input, 1, input.len()), identifier.as_slice())?;
    expect_byte(input, 6, 1)
}

/// Checks that `input` holds `upto` bytes, the last `size` of them being the
/// field that is read.
fn need(input: &[u8], upto: usize, size: usize) -> (r: Result<(), Error>)
    ensures
        input@.len() < upto ==> r == Err::<(), Error>(incomplete(size as int)),
        input@.len() >= upto ==> r is Ok,
{
    if input.len() < upto {
        Err(Error::ParseIncomplete(Some(size)))
    } else {
        Ok(())
    }
}

/// Decodes the zero-terminated text in the `size` bytes at `at`.
fn text_field(input: &[u8], at: usize, size: usize) -> (r: Result<String, Error>)
    requires
        at + size <= input.len(),
    ensures
        match r {
            Ok(text) => {
                &&& valid_utf8(until_nul(input@.subrange(at as int, at + size)))
                &&& text@ == decode_utf8(until_nul(input@.subrange(at as int, at + size)))
            },
            Err(e) => {
                &&& !valid_utf8(until_nul(input@.subrange(at as int, at + size)))
                &&& e == invalid(ParseErrorKind::MapRes)
            },
        },
{
    let field = slice_subrange(input, at, at + size);
    let k = find_nul(field);
    match utf8_text(slice_subrange(field, 0, k)) {
        Some(text) => Ok(text.to_owned()),
        None => Err(Error::ParseError(ParseErrorKind::MapRes)),
    }
}

/// Copies the bytes from `from` up to `to`.
fn bytes_field(input: &[u8], from: usize, to: usize) -> (field: Vec<u8>)
    requires
        from <= to <= input.len(),
    ensures
        field@ == input@.subrange(from as int, to as int),
{
    slice_to_vec(slice_subrange(input, from, to))
}

/// Decodes a boot record.
pub fn boot_record(input: &[u8]) -> (r: Result<(&[u8], BootRecord), Error>)
    ensures
        match (r, spec_boot_record(input@)) {
            (Ok((left, boot)), Ok((want_left, want))) => left@ == want_left && boot@ == want,
            (Err(e), Err(want_e)) => e == want_e,
            _ => false,
        },
{
    header(input, TYPE_BOOT)?;
    need(input, 39, 32)?;
    let system_identifier = text_field(input, 7, 32)?;
    need(input, 71, 32)?;
    let boot_identifier = text_field(input, 39, 32)?;
    need(input, 2048, 1977)?;
    Ok(
        (
            slice_subrange(input, 2048, input.len()),
            BootRecord {
                version: input[6],
                system_identifier,
                boot_identifier,
                system_use: bytes_field(input, 71, 2048),
            },
        ),
    )
}

/// Decodes a set terminator.
pub fn terminator(input: &[u8]) -> (r: Result<(&[u8], SetTerminator), Error>)
    ensures
        crate::parsers::decoded(r, spec_terminator(input@)),
{
    header(input, TYPE_TERMINATOR)?;
    need(input, 2048, 2041)?;
    Ok((slice_subrange(input, 2048, input.len()), SetTerminator { version: input[6] }))
}

/// Checks everything before the record of the root directory.
fn primary_geometry(input: &[u8]) -> (r: Result<(), Error>)
    ensures
        match primary_geometry_error(input@) {
            Some(e) => r == Err::<(), Error>(e),
            None => r is Ok && input@.len() >= 156,
        },
{
    header(input, TYPE_PRIMARY)?;
    expect_byte(input, 7, 0)?;
    need(input, 40, 32)?;
    need(input, 72, 32)?;
    need(input, 80, 8)?;
    need(input, 88, 4)?;
    need(input, 120, 32)?;
    need(input, 132, 2)?;
    need(input, 140, 4)?;
    need(input, 156, 16)
}

/// Decodes the record of the root directory and checks the identifiers.
fn primary_identity(input: &[u8]) -> (r: Result<Record, Error>)
    requires
        input@.len() >= 156,
    ensures
        match primary_identity_error(input@) {
            Some(e) => r == Err::<Record, Error>(e),
            None => {
                &&& r matches Ok(root)
                &&& root@ == spec_record(input@.subrange(156, 190))->Ok_0.1
                &&& input@.len() >= 813
            },
        },
{
    need(input, 190, 34)?;
    let root = match Record::parse(slice_subrange(input, 156, 190)) {
        Ok(root) => root,
        Err(_) => return Err(Error::ParseError(ParseErrorKind::MapRes)),
    };
    need(input, 702, 128)?;
    need(input, 740, 38)?;
    need(input, 776, 36)?;
    need(input, 813, 37)?;
    Ok(root)
}

/// The four dates of a primary volume descriptor.
struct VolumeDates {
    creation: Datetime,
    modification: Datetime,
    expiration: Option<Datetime>,
    effective: Option<Datetime>,
}

/// Decodes the four dates and checks what follows them.
fn primary_dates(input: &[u8]) -> (r: Result<VolumeDates, Error>)
    requires
        input@.len() >= 813,
    ensures
        match primary_dates_error(input@) {
            Some(e) => r == Err::<VolumeDates, Error>(e),
            None => {
                &&& r matches Ok(dates)
                &&& dates.creation == spec_long_datetime(rest(input@, 813))->Ok_0.1
                &&& dates.modification == spec_long_datetime(rest(input@, 830))->Ok_0.1
                &&& dates.expiration == spec_optional_datetime(rest(input@, 847))->Ok_0.1
                &&& dates.effective == spec_optional_datetime(rest(input@, 864))->Ok_0.1
                &&& input@.len() >= 2048
                &&& input@[881] == 1
            },
        },
{
    let len = input.len();
    let (_, creation) = long_datetime(slice_subrange(input, 813, len))?;
    let (_, modification) = long_datetime(slice_subrange(input, 830, len))?;
    let (_, expiration) = optional_datetime(slice_subrange(input, 847, len))?;
    let (_, effective) = optional_datetime(slice_subrange(input, 864, len))?;
    expect_byte(input, 881, 1)?;
    expect_byte(input, 882, 0)?;
    need(input, 1395, 512)?;
    need(input, 2048, 653)?;
    Ok(VolumeDates { creation, modification, expiration, effective })
}

/// Decodes a primary volume descriptor.
pub fn pvd(input: &[u8]) -> (r: Result<(&[u8], PrimaryVolumeDescriptor), Error>)
    ensures
        match (r, spec_primary(input@)) {
            (Ok((left, primary)), Ok((want_left, want))) => left@ == want_left && primary@ == want,
            (Err(e), Err(want_e)) => e == want_e,
            _ => false,
        },
{
    primary_geometry(input)?;
    let root = primary_identity(input)?;
    let dates = primary_dates(input)?;
    Ok(
        (
            slice_subrange(input, 2048, input.len()),
            PrimaryVolumeDescriptor {
                version: input[6],
                system_id: bytes_field(input, 8, 40),
                volume_id: bytes_field(input, 40, 72),
                space_size: read_le_u32(input, 80),
                set_size: read_le_u16(input, 120),
                seq_number: read_le_u16(input, 124),
                block_size: read_le_u16(input, 128),
                path_table_size: read_le_u32(input, 132),
                root,
                set_id: bytes_field(input, 190, 318),
                publisher_id: bytes_field(input, 318, 446),
                preparer_id: bytes_field(input, 446, 574),
                application_id: bytes_field(input, 574, 702),
                copyright_file: bytes_field(input, 702, 740),
                abstract_file: bytes_field(input, 740, 776),
                bibliographic_file: bytes_field(input, 776, 813),
                creation: dates.creation,
                modification: dates.modification,
                expiration: dates.expiration,
                effective: dates.effective,
                fs_version: input[881],
                application_use: bytes_field(input, 883, 1395),
                reserved: bytes_field(input, 1395, 2048),
            },
        ),
    )
}

impl BootRecord {
    /// Decodes the boot record at the start of `bytes`.
    pub fn parse(bytes: &[u8]) -> (r: Result<BootRecord, Error>)
        ensures
            match (r, spec_boot_record(bytes@)) {
                (Ok(boot), Ok((_, want))) => boot@ == want,
                (Err(e), Err(want_e)) => e == want_e,
                _ => false,
            },
    {
        let (_, boot) = boot_record(bytes)?;
        Ok(boot)
    }
}

impl SetTerminator {
    /// Decodes the set terminator at the start of `bytes`.
    pub fn parse(bytes: &[u8]) -> (r: Result<SetTerminator, Error>)
        ensures
            match (r, spec_terminator(bytes@)) {
                (Ok(terminator), Ok((_, want))) => terminator == want,
                (Err(e), Err(want_e)) => e == want_e,
                _ => false,
            },
    {
        let (_, terminator) = terminator(bytes)?;
        Ok(terminator)
    }
}

impl PrimaryVolumeDescriptor {
    /// Decodes the primary volume descriptor at the start of `bytes`.
    pub fn parse(bytes: &[u8]) -> (r: Result<PrimaryVolumeDescriptor, Error>)
        ensures
            match (r, spec_primary(bytes@)) {
                (Ok(primary), Ok((_, want))) => primary@ == want,
                (Err(e), Err(want_e)) => e == want_e,
                _ => false,
            },
    {
        let (_, primary) = pvd(bytes)?;
        Ok(primary)
    }
}

impl VolumeDescriptor {
    /// Decodes the volume descriptor at the start of `bytes`.
    pub fn parse(bytes: &[u8]) -> (r: Result<VolumeDescriptor, Error>)
        ensures
            match (r, spec_volume_descriptor(bytes@)) {
                (Ok(descriptor), Ok(want)) => descriptor@ == want,
                (Err(e), Err(want_e)) => e == want_e,
                _ => false,
            },
    {
        if bytes.len() == 0 {
            return Err(Error::ParseIncomplete(Some(SECTOR_SIZE)));
        }
        let kind = bytes[0];
        if kind == TYPE_BOOT {
            Ok(VolumeDescriptor::Boot(BootRecord::parse(bytes)?))
        } else if kind == TYPE_PRIMARY {
            Ok(VolumeDescriptor::Primary(PrimaryVolumeDescriptor::parse(bytes)?))
        } else if kind == TYPE_TERMINATOR {
            Ok(VolumeDescriptor::Terminator(SetTerminator::parse(bytes)?))
        } else {
            Err(Error::UnknownDescriptorType(kind))
        }
    }
}

} // verus!
