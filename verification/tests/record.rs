use opticaldisc::error::{Error, ParseErrorKind};
use opticaldisc::iso::record::{datetime, record, record_flags, split_identifier, versioned_name, Record};

#[test]
fn test_filename() {
    let buf = b"\x06APK.;1";
    let (_, (name, v)) = versioned_name(buf, false).unwrap();
    assert_eq!(v, Some(1));
    assert_eq!(name, "APK");
}

#[test]
fn test_record() {
    let buf = b"\"\0\x13\0\0\0\0\0\0\x13\0\x08\0\0\0\0\x08\0v\x04\x01\x05\x05\x17\0\x02\0\0\x01\0\0\x01\x01\0";
    let (_, dr) = record(buf).unwrap();

    let buf2 = b"`\x00\x13\x00\x00\x00\x00\x00\x00\x13\x00\x08\x00\x00\x00\x00\x08\x00v\x04\x01\x05\x05\x17\x00\x02\x00\x00\x01\x00\x00\x01\x01\x01PX$\x01\xedA\x00\x00\x00\x00A\xed\x01\x00\x00\x00\x00\x00\x00\x01\x00\x00\x00\x00\x00\x00\x00\x00\x00\x00\x00\x00\x00\x00\x00\x00TF\x1a\x01\x0ev\x04\x01\x05\x05\x17\x00v\x04\x01\x05\x05\x18\x00v\x04\x01\x05\x05\x17\x00";
    let (_, dr) = record(&buf2[..]).unwrap();

    let buf3 = b"\x28\x00\xf6\x00\x00\x00\x00\x00\x00\xf6\x88\x16\x03\x00\x00\x03\x16\x88v\x05\x01\x0f3\x1e\x08\x00\x00\x00\x01\x00\x00\x01\x06APK.;1\x00";
    let (_, dr) = record(&buf3[..]).unwrap();
    assert_eq!(dr.name, "APK");

    let buf4 = b"\0\0\0\0\0";
    assert!(record(&buf4[..]).is_err());
}

#[test]
fn parser_test_datetime() {
    let buf = b"\x76\x0B\x0D\x09\x23\x2D\x01";
    let (_, dt) = datetime(buf).unwrap();
    assert_eq!(dt.year(), 2018);
    assert_eq!(dt.month(), 11);
    assert_eq!(dt.day(), 13);
    assert_eq!(dt.hour(), 9);
    assert_eq!(dt.minute(), 35);
    assert_eq!(dt.second(), 45);
}

#[test]
fn datetime_keeps_the_zone_byte() {
    let buf = b"\x76\x0B\x0D\x09\x23\x2D\x01";
    let (left, dt) = datetime(buf).unwrap();
    assert!(left.is_empty());
    assert_eq!(dt.tz, 1);
    assert_eq!(dt.offset_seconds(), (1 - 48) * 900);
    assert_eq!(dt.hundredth, 0);
    assert_eq!(dt.nanosecond(), 0);
}

#[test]
fn datetime_zone_offsets() {
    let (_, utc) = datetime(b"\x76\x01\x01\x00\x00\x00\x30").unwrap();
    assert_eq!(utc.offset_seconds(), 0);
    let (_, east) = datetime(b"\x76\x01\x01\x00\x00\x00\x34").unwrap();
    assert_eq!(east.offset_seconds(), 3600);
    let (_, west) = datetime(b"\x76\x01\x01\x00\x00\x00\x2C").unwrap();
    assert_eq!(west.offset_seconds(), -3600);
}

#[test]
fn datetime_checks_each_range() {
    let custom = Err(Error::ParseError(ParseErrorKind::Custom(0)));
    assert_eq!(datetime(b"\x76\x00\x0D\x09\x23\x2D\x01"), custom);
    assert_eq!(datetime(b"\x76\x0D\x0D\x09\x23\x2D\x01"), custom);
    assert_eq!(datetime(b"\x76\x0B\x00\x09\x23\x2D\x01"), custom);
    assert_eq!(datetime(b"\x76\x0B\x20\x09\x23\x2D\x01"), custom);
    assert_eq!(datetime(b"\x76\x0B\x0D\x18\x23\x2D\x01"), custom);
    assert_eq!(datetime(b"\x76\x0B\x0D\x09\x3C\x2D\x01"), custom);
    assert_eq!(datetime(b"\x76\x0B\x0D\x09\x23\x3C\x01"), custom);
    assert_eq!(datetime(b"\x76\x0B\x0D\x09\x23\x2D\x65").unwrap().1.tz, 0x65);
    assert_eq!(datetime(b"\x76\x0B\x0D\x09\x23\x2D\xFF").unwrap().1.offset_seconds(), (255 - 48) * 900);
    assert!(datetime(b"\xFF\x0C\x1F\x17\x3B\x3B\x64").is_ok());
    assert_eq!(datetime(b"\xFF\x0C\x1F\x17\x3B\x3B\x64").unwrap().1.year, 2155);
}

#[test]
fn datetime_runs_short() {
    assert_eq!(datetime(b""), Err(Error::ParseIncomplete(Some(1))));
    assert_eq!(datetime(b"\x76\x0B\x0D"), Err(Error::ParseIncomplete(Some(1))));
    assert_eq!(datetime(b"\x76\x0B\x0D\x09\x23\x2D"), Err(Error::ParseIncomplete(Some(1))));
}

#[test]
fn filename_with_empty_extension() {
    let buf = b"\x06FOO.;1";
    let (left, (name, v)) = versioned_name(buf, false).unwrap();
    assert!(left.is_empty());
    assert_eq!(name, "FOO");
    assert_eq!(v, Some(1));
}

#[test]
fn filename_with_extension_keeps_the_dot() {
    let buf = b"\x0AREADME.TXT;12tail";
    let buf = &buf[..];
    let input = [&[13u8][..], &buf[1..]].concat();
    let (left, (name, v)) = versioned_name(&input, false).unwrap();
    assert_eq!(left, b"tail");
    assert_eq!(name, "README.TXT");
    assert_eq!(v, Some(12));
}

#[test]
fn filename_without_version() {
    let (_, (name, v)) = versioned_name(b"\x04BOOT", false).unwrap();
    assert_eq!(name, "BOOT");
    assert_eq!(v, None);
}

#[test]
fn directory_identifier_is_verbatim() {
    let (_, (name, v)) = versioned_name(b"\x05ETC;1", true).unwrap();
    assert_eq!(name, "ETC;1");
    assert_eq!(v, None);
    let (_, (name, v)) = versioned_name(b"\x01\x00", true).unwrap();
    assert_eq!(name, "\0");
    assert_eq!(v, None);
    let (_, (name, _)) = versioned_name(b"\x01\x01", true).unwrap();
    assert_eq!(name, "\x01");
}

#[test]
fn filename_splits_at_the_last_separator() {
    let (_, (name, v)) = versioned_name(b"\x07A;2.;30", false).unwrap();
    assert_eq!(name, "A;2");
    assert_eq!(v, Some(30));
}

#[test]
fn filename_that_starts_with_the_separator() {
    let (_, (name, v)) = versioned_name(b"\x02;7", false).unwrap();
    assert_eq!(name, "");
    assert_eq!(v, Some(7));
}

#[test]
fn filename_version_must_be_a_byte_sized_number() {
    let map_res = Err(Error::ParseError(ParseErrorKind::MapRes));
    assert_eq!(versioned_name(b"\x05APK;x", false), map_res);
    assert_eq!(versioned_name(b"\x04APK;", false), map_res);
    assert_eq!(versioned_name(b"\x07APK;256", false), map_res);
    assert_eq!(versioned_name(b"\x06APK;+1", false), map_res);
    assert_eq!(versioned_name(b"\x0FAPK;99999999999", false), map_res);
    assert_eq!(versioned_name(b"\x07APK;255", false).unwrap().1 .1, Some(255));
    assert_eq!(versioned_name(b"\x07APK;007", false).unwrap().1 .1, Some(7));
}

#[test]
fn filename_must_be_utf8() {
    assert_eq!(versioned_name(b"\x02\xFF\xFE", true), Err(Error::ParseError(ParseErrorKind::MapRes)));
    assert_eq!(versioned_name(b"\x04\xC3\x28;1", false), Err(Error::ParseError(ParseErrorKind::MapRes)));
    let (_, (name, _)) = versioned_name(b"\x02\xC3\xA9", true).unwrap();
    assert_eq!(name, "\u{e9}");
}

#[test]
fn filename_runs_short() {
    assert_eq!(versioned_name(b"", false), Err(Error::ParseIncomplete(Some(1))));
    assert_eq!(versioned_name(b"\x06APK", false), Err(Error::ParseIncomplete(Some(6))));
}

#[test]
fn split_identifier_gives_name_and_version() {
    assert_eq!(split_identifier(b"APK.;1", false), Ok((&b"APK"[..], Some(1))));
    assert_eq!(split_identifier(b"APK.;1", true), Ok((&b"APK.;1"[..], None)));
    assert_eq!(split_identifier(b"A.B;3", false), Ok((&b"A.B"[..], Some(3))));
}

#[test]
fn flags_are_read_from_their_bits() {
    let (left, flags) = record_flags(b"\x02x").unwrap();
    assert_eq!(left, b"x");
    assert_eq!(flags, (false, true, false, false, false, false));
    assert_eq!(record_flags(b"\x01").unwrap().1, (true, false, false, false, false, false));
    assert_eq!(record_flags(b"\x04").unwrap().1, (false, false, true, false, false, false));
    assert_eq!(record_flags(b"\x08").unwrap().1, (false, false, false, true, false, false));
    assert_eq!(record_flags(b"\x10").unwrap().1, (false, false, false, false, true, false));
    assert_eq!(record_flags(b"\x80").unwrap().1, (false, false, false, false, false, true));
    assert_eq!(record_flags(b"\x60").unwrap().1, (false, false, false, false, false, false));
    assert_eq!(record_flags(b"\xFF").unwrap().1, (true, true, true, true, true, true));
    assert_eq!(record_flags(b""), Err(Error::ParseIncomplete(Some(1))));
}

#[test]
fn record_fields_equal_the_bytes() {
    let buf3 = b"\x28\x00\xf6\x00\x00\x00\x00\x00\x00\xf6\x88\x16\x03\x00\x00\x03\x16\x88v\x05\x01\x0f3\x1e\x08\x00\x00\x00\x01\x00\x00\x01\x06APK.;1\x00more";
    let (left, dr) = record(&buf3[..]).unwrap();
    assert_eq!(left, b"more");
    assert_eq!(dr.name, "APK");
    assert_eq!(dr.version, Some(1));
    assert_eq!(dr.ear_length, 0);
    assert_eq!(dr.extent, 0xf6);
    assert_eq!(dr.data_length, 0x00031688);
    assert_eq!(dr.seq_number, 1);
    assert!(!dr.is_dir);
    assert!(!dr.is_hidden);
    assert_eq!(dr.date.year, 2018);
    assert_eq!(dr.date.month, 5);
    assert_eq!(dr.date.day, 1);
    assert_eq!(dr.date.hour, 15);
    assert_eq!(dr.date.minute, 51);
    assert_eq!(dr.date.second, 30);
    assert_eq!(dr.date.tz, 8);
}

#[test]
fn record_of_a_directory_for_itself() {
    let buf = b"\"\0\x13\0\0\0\0\0\0\x13\0\x08\0\0\0\0\x08\0v\x04\x01\x05\x05\x17\0\x02\0\0\x01\0\0\x01\x01\0";
    let dr = Record::parse(buf).unwrap();
    assert_eq!(dr.name, "\0");
    assert_eq!(dr.version, None);
    assert!(dr.is_dir);
    assert_eq!(dr.extent, 0x13);
    assert_eq!(dr.data_length, 0x800);
    assert_eq!(dr.duplicate(), dr);
}

#[test]
fn record_skips_the_system_use_area() {
    let buf2 = b"`\x00\x13\x00\x00\x00\x00\x00\x00\x13\x00\x08\x00\x00\x00\x00\x08\x00v\x04\x01\x05\x05\x17\x00\x02\x00\x00\x01\x00\x00\x01\x01\x01PX$\x01\xedA\x00\x00\x00\x00A\xed\x01\x00\x00\x00\x00\x00\x00\x01\x00\x00\x00\x00\x00\x00\x00\x00\x00\x00\x00\x00\x00\x00\x00\x00TF\x1a\x01\x0ev\x04\x01\x05\x05\x17\x00v\x04\x01\x05\x05\x18\x00v\x04\x01\x05\x05\x17\x00";
    assert_eq!(buf2.len(), 96);
    let (left, dr) = record(&buf2[..]).unwrap();
    assert!(left.is_empty());
    assert_eq!(dr.name, "\x01");
    assert!(dr.is_dir);
}

#[test]
fn record_with_zero_length_is_the_end_of_the_sector() {
    assert_eq!(record(b"\0\0\0\0\0"), Err(Error::ParseError(ParseErrorKind::Not)));
    assert_eq!(Record::parse(b"\0"), Err(Error::ParseError(ParseErrorKind::Not)));
}

#[test]
fn record_runs_short() {
    assert_eq!(record(b""), Err(Error::ParseIncomplete(Some(1))));
    let buf3 = b"\x28\x00\xf6\x00\x00\x00\x00\x00\x00\xf6\x88\x16\x03\x00\x00\x03\x16\x88v\x05\x01\x0f3\x1e\x08\x00\x00\x00\x01\x00\x00\x01\x06APK.;1\x00";
    assert_eq!(record(&buf3[..39]), Err(Error::ParseIncomplete(Some(40))));
}

#[test]
fn record_is_read_from_its_own_bytes_only() {
    // The length byte claims 35 bytes, the identifier 6: it ends outside.
    let mut buf = b"\x28\x00\xf6\x00\x00\x00\x00\x00\x00\xf6\x88\x16\x03\x00\x00\x03\x16\x88v\x05\x01\x0f3\x1e\x08\x00\x00\x00\x01\x00\x00\x01\x06APK.;1\x00".to_vec();
    buf[0] = 35;
    assert_eq!(record(&buf), Err(Error::ParseIncomplete(Some(6))));
    buf[0] = 20;
    assert_eq!(record(&buf), Err(Error::ParseIncomplete(Some(1))));
    buf[0] = 9;
    assert_eq!(record(&buf), Err(Error::ParseIncomplete(Some(4))));
    buf[0] = 1;
    assert_eq!(record(&buf), Err(Error::ParseIncomplete(Some(1))));
    buf[0] = 30;
    assert_eq!(record(&buf), Err(Error::ParseIncomplete(Some(2))));
}

#[test]
fn record_with_a_bad_date_is_refused() {
    let mut buf = b"\x28\x00\xf6\x00\x00\x00\x00\x00\x00\xf6\x88\x16\x03\x00\x00\x03\x16\x88v\x05\x01\x0f3\x1e\x08\x00\x00\x00\x01\x00\x00\x01\x06APK.;1\x00".to_vec();
    buf[19] = 13;
    assert_eq!(record(&buf), Err(Error::ParseError(ParseErrorKind::Custom(0))));
}
