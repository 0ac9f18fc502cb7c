use opticaldisc::error::{Error, IoErrorKind, ParseErrorKind};
use opticaldisc::iso::directory::DirectoryScan;
use opticaldisc::iso::file::{FilePosition, SeekFrom};
use opticaldisc::iso::IsoFile;
use opticaldisc::iso::IsoFs;
use opticaldisc::iso::Metadata;
use opticaldisc::iso::node::{join, Node, Tree};
use opticaldisc::iso::path::{components, Component};
use opticaldisc::iso::record::Record;
use opticaldisc::iso::volume::VolumeScan;

const SECTOR: usize = 2048;

fn both16(value: u16) -> Vec<u8> {
    let mut out = value.to_le_bytes().to_vec();
    out.extend(value.to_be_bytes());
    out
}

fn both32(value: u32) -> Vec<u8> {
    let mut out = value.to_le_bytes().to_vec();
    out.extend(value.to_be_bytes());
    out
}

fn entry(identifier: &[u8], extent: u32, length: u32, is_dir: bool) -> Vec<u8> {
    let pad = if identifier.len() % 2 == 0 { 1 } else { 0 };
    let mut out = vec![(33 + identifier.len() + pad) as u8, 0];
    out.extend(both32(extent));
    out.extend(both32(length));
    out.extend([118, 11, 13, 9, 35, 45, 48]);
    out.extend([if is_dir { 2 } else { 0 }, 0, 0]);
    out.extend(both16(1));
    out.push(identifier.len() as u8);
    out.extend(identifier);
    if pad == 1 {
        out.push(0);
    }
    out
}

fn dir(identifier: &[u8], extent: u32, sectors: u32) -> Vec<u8> {
    entry(identifier, extent, sectors * SECTOR as u32, true)
}

fn file(identifier: &[u8], extent: u32, length: u32) -> Vec<u8> {
    entry(identifier, extent, length, false)
}

/// Lays records out in sectors: a record never crosses into the next one.
fn lay_out(records: &[Vec<u8>], sectors: usize) -> Vec<u8> {
    let mut out: Vec<u8> = Vec::new();
    for record in records {
        let used = out.len() % SECTOR;
        if used + record.len() > SECTOR {
            out.resize(out.len() + SECTOR - used, 0);
        }
        out.extend(record);
    }
    assert!(out.len() <= sectors * SECTOR);
    out.resize(sectors * SECTOR, 0);
    out
}

fn directory(own: u32, parent: u32, sectors: usize, entries: &[Vec<u8>]) -> Vec<u8> {
    let mut records = vec![dir(b"\0", own, sectors as u32), dir(b"\x01", parent, 1)];
    records.extend(entries.iter().cloned());
    lay_out(&records, sectors)
}

fn padded(text: &[u8], size: usize) -> Vec<u8> {
    let mut out = text.to_vec();
    out.resize(size, b' ');
    out
}

fn primary(root_extent: u32, block_size: u16) -> Vec<u8> {
    let mut out = b"\x01CD001\x01\x00".to_vec();
    out.extend(padded(b"LINUX", 32));
    out.extend(padded(b"ALPINE", 32));
    out.extend([0u8; 8]);
    out.extend(both32(64));
    out.extend([0u8; 32]);
    out.extend(both16(1));
    out.extend(both16(1));
    out.extend(both16(block_size));
    out.extend(both32(10));
    out.extend([0u8; 16]);
    out.extend(dir(b"\0", root_extent, 1));
    out.extend(padded(b"", 128 * 4 + 38 + 36 + 37));
    out.extend(b"2018111309354500\x30");
    out.extend(b"2018111309354500\x30");
    out.extend(b"0000000000000000\x00");
    out.extend(b"0000000000000000\x00");
    out.extend([1u8, 0]);
    out.extend([0u8; 512 + 653]);
    assert_eq!(out.len(), SECTOR);
    out
}

fn boot() -> Vec<u8> {
    let mut out = b"\x00CD001\x01EL TORITO SPECIFICATION".to_vec();
    out.resize(SECTOR, 0);
    out
}

fn terminator() -> Vec<u8> {
    let mut out = b"\xFFCD001\x01".to_vec();
    out.resize(SECTOR, 0);
    out
}

fn put(image: &mut Vec<u8>, sector: usize, bytes: &[u8]) {
    let start = sector * SECTOR;
    if image.len() < start + bytes.len() {
        image.resize(start + bytes.len(), 0);
    }
    image[start..start + bytes.len()].copy_from_slice(bytes);
}

fn sbin_names() -> Vec<String> {
    let mut names = vec![String::from("APK")];
    for i in 0..70 {
        names.push(format!("FILL{:03}", i));
    }
    names.push(String::from("LDCONFIG"));
    names.push(String::from("MKMNTDIR"));
    names
}

/// An image with these directories and files:
///
/// ```text
/// /ETC/APK/ARCH      "x86_64\n"
/// /ETC/APK/WORLD     13 bytes
/// /ETC/HOSTNAME      empty
/// /SBIN/...          73 files in two sectors
/// /OVER/A            its directory claims a sector more than it has
/// /NEXT/INNER        the directory in the sector after /OVER
/// /README.TXT        12 bytes
/// ```
fn image() -> Vec<u8> {
    let mut image = vec![0u8; 40 * SECTOR];
    put(&mut image, 16, &primary(20, 2048));
    put(&mut image, 17, &boot());
    put(&mut image, 18, &terminator());
    put(
        &mut image,
        20,
        &directory(
            20,
            20,
            1,
            &[
                dir(b"ETC", 21, 1),
                dir(b"NEXT", 26, 1),
                dir(b"OVER", 25, 2),
                file(b"README.TXT;1", 30, 12),
                dir(b"SBIN", 23, 2),
            ],
        ),
    );
    put(&mut image, 21, &directory(21, 20, 1, &[dir(b"APK", 22, 1), file(b"HOSTNAME.;1", 31, 0)]));
    put(&mut image, 22, &directory(22, 21, 1, &[file(b"ARCH.;1", 32, 7), file(b"WORLD.;1", 33, 13)]));
    let sbin: Vec<Vec<u8>> =
        sbin_names().iter().map(|name| file(format!("{}.;1", name).as_bytes(), 34, 5)).collect();
    let sbin = directory(23, 20, 2, &sbin);
    assert!(sbin[SECTOR] != 0);
    put(&mut image, 23, &sbin);
    put(&mut image, 25, &directory(25, 20, 1, &[file(b"A.;1", 34, 5)]));
    put(&mut image, 26, &directory(26, 20, 1, &[file(b"INNER.;1", 34, 5)]));
    put(&mut image, 30, b"hello world\n");
    put(&mut image, 32, b"x86_64\n");
    put(&mut image, 33, b"alpine-base\n\n");
    put(&mut image, 34, b"12345");
    image
}

fn open() -> IsoFs {
    IsoFs::from_buffer(image()).unwrap()
}

fn names(iso: &mut IsoFs, path: &str) -> Vec<String> {
    iso.read_dir(path).unwrap().into_vec().iter().map(|entry| entry.name().to_string()).collect()
}

fn count(iso: &mut IsoFs, meta: &Metadata) -> usize {
    match meta.read_dir(iso) {
        Ok(entries) => entries.iter().fold(1, |acc, child| acc + count(iso, child)),
        Err(_) => 1,
    }
}

#[test]
fn test_is_dir() {
    let mut iso = open();
    assert!(iso.is_dir("ETC"));
    assert!(iso.is_dir("/ETC"));
    assert!(iso.is_dir("ETC/APK"));
    assert!(iso.is_dir("/ETC/APK"));
    assert!(!iso.is_dir("ETC/NODIR"));
    assert!(!iso.is_dir("/ETC/NODIR"));
    assert!(!iso.is_dir("ETC/APK/ARCHI"));
}

#[test]
fn test_last_record() {
    let mut iso = open();
    assert!(iso.is_file("SBIN/APK"));
    assert!(iso.is_file("SBIN/LDCONFIG"));
    assert!(iso.is_file("SBIN/MKMNTDIR"));
    assert!(!iso.is_file("/"));
    assert!(!iso.is_file("/NOFILE"));
}

#[test]
fn test_metadata() {
    let mut iso = open();
    let arch = iso.metadata("/ETC/APK/ARCH").unwrap();
    assert!(arch.is_file());
    assert!(!arch.is_dir());
}

#[test]
fn metadata_of_the_root() {
    let mut iso = open();
    let root = iso.metadata("/").unwrap();
    assert!(root.is_dir());
    assert_eq!(root.path(), "/");
    assert_eq!(root.name(), "\0");
    let same = iso.metadata("").unwrap();
    assert_eq!(same.path(), "/");
}

#[test]
fn metadata_gives_name_path_and_record() {
    let mut iso = open();
    let arch = iso.metadata("ETC/APK/ARCH").unwrap();
    assert_eq!(arch.name(), "ARCH");
    assert_eq!(arch.path(), "/ETC/APK/ARCH");
    assert_eq!(arch.record.version, Some(1));
    assert_eq!(arch.record.extent, 32);
    assert_eq!(arch.record.data_length, 7);
    let apk = iso.metadata("/ETC/APK").unwrap();
    assert_eq!(apk.path(), "/ETC/APK");
    assert!(apk.is_dir());
    let etc = iso.metadata("ETC").unwrap();
    assert_eq!(etc.path(), "/ETC");
}

#[test]
fn files_are_read_whole() {
    let mut iso = open();
    assert!(iso.is_file("ETC/APK/ARCH"));
    let mut content = Vec::new();
    let mut file = iso.open_file("ETC/APK/ARCH").unwrap();
    assert_eq!(file.read_to_end(&mut content), 7);
    assert_eq!(content, b"x86_64\n");
    assert_eq!(file.read_to_end(&mut content), 0);
    assert_eq!(content, b"x86_64\n");
    let mut content = b"# ".to_vec();
    let mut file = iso.open_file("/README.TXT").unwrap();
    assert_eq!(file.read_to_end(&mut content), 12);
    assert_eq!(content, b"# hello world\n");
}

#[test]
fn every_file_reads_as_long_as_its_record_says() {
    let mut iso = open();
    for path in ["ETC/APK/ARCH", "ETC/APK/WORLD", "ETC/HOSTNAME", "README.TXT", "SBIN/FILL042"] {
        let length = iso.metadata(path).unwrap().record.data_length as usize;
        let mut content = Vec::new();
        assert_eq!(iso.open_file(path).unwrap().read_to_end(&mut content), length);
        assert_eq!(content.len(), length);
    }
}

#[test]
fn files_are_read_in_pieces() {
    let mut iso = open();
    let mut file = iso.open_file("ETC/APK/WORLD").unwrap();
    let mut buffer = [b'.'; 5];
    assert_eq!(file.read(&mut buffer), 5);
    assert_eq!(&buffer, b"alpin");
    assert_eq!(file.read(&mut buffer), 5);
    assert_eq!(&buffer, b"e-bas");
    assert_eq!(file.read(&mut buffer), 3);
    assert_eq!(&buffer, b"e\n\nas");
    assert_eq!(file.read(&mut buffer), 0);
    assert_eq!(&buffer, b"e\n\nas");
    let mut nothing = [0u8; 0];
    assert_eq!(file.seek(SeekFrom::Start(0)), Ok(0));
    assert_eq!(file.read(&mut nothing), 0);
    assert_eq!(file.position.pos, 0);
}

#[test]
fn empty_file_reads_nothing() {
    let mut iso = open();
    let mut file = iso.open_file("ETC/HOSTNAME").unwrap();
    let mut buffer = [b'.'; 4];
    assert_eq!(file.read(&mut buffer), 0);
    assert_eq!(&buffer, b"....");
    let mut content = Vec::new();
    assert_eq!(file.read_to_end(&mut content), 0);
    assert!(content.is_empty());
    assert_eq!(file.seek(SeekFrom::End(10)), Ok(0));
}

#[test]
fn open_file_wants_a_file() {
    let mut iso = open();
    assert_eq!(iso.open_file("ETC").err(), Some(Error::FileExpected));
    assert_eq!(iso.open_file("/").err(), Some(Error::FileExpected));
    assert_eq!(iso.open_file("ETC/NOFILE").err(), Some(Error::NotFound(String::from("/ETC/NOFILE"))));
    assert_eq!(iso.locate_file("ETC/APK/ARCH"), Ok((32 * 2048, 7)));
    let arch = iso.metadata("ETC/APK/ARCH").unwrap();
    let mut content = Vec::new();
    arch.open_file(&mut iso).unwrap().read_to_end(&mut content);
    assert_eq!(content, b"x86_64\n");
    let etc = iso.metadata("ETC").unwrap();
    assert_eq!(etc.open_file(&mut iso).err(), Some(Error::FileExpected));
}

#[test]
fn file_start_counts_logical_blocks() {
    let mut image = image();
    put(&mut image, 16, &primary(20, 512));
    put(&mut image, 8, b"x86_64\n");
    let mut iso = IsoFs::from_buffer(image).unwrap();
    assert_eq!(iso.block_size, 512);
    assert_eq!(iso.locate_file("ETC/APK/ARCH"), Ok((32 * 512, 7)));
    let mut content = Vec::new();
    iso.open_file("ETC/APK/ARCH").unwrap().read_to_end(&mut content);
    assert_eq!(content, b"x86_64\n");
}

#[test]
fn file_cut_off_by_the_end_of_the_image() {
    let mut image = image();
    image.truncate(32 * SECTOR + 3);
    let mut iso = IsoFs::from_buffer(image).unwrap();
    let mut content = Vec::new();
    assert_eq!(iso.open_file("ETC/APK/ARCH").unwrap().read_to_end(&mut content), 3);
    assert_eq!(content, b"x86");
    let mut content = Vec::new();
    assert_eq!(iso.open_file("ETC/APK/WORLD").unwrap().read_to_end(&mut content), 0);
}

#[test]
fn seek_is_held_to_the_file() {
    let image = image();
    let mut file = IsoFile::new(&image, 33 * 2048, 13);
    assert_eq!(file.seek(SeekFrom::Start(4)), Ok(4));
    assert_eq!(file.seek(SeekFrom::Start(13)), Ok(13));
    assert_eq!(file.seek(SeekFrom::Start(14)), Ok(13));
    assert_eq!(file.seek(SeekFrom::Start(u64::MAX)), Ok(13));
    assert_eq!(file.seek(SeekFrom::End(0)), Ok(13));
    assert_eq!(file.seek(SeekFrom::End(5)), Ok(13));
    assert_eq!(file.seek(SeekFrom::End(i64::MAX)), Ok(13));
    assert_eq!(file.seek(SeekFrom::End(-3)), Ok(10));
    assert_eq!(file.seek(SeekFrom::End(-13)), Ok(0));
    assert_eq!(file.seek(SeekFrom::Current(6)), Ok(6));
    assert_eq!(file.seek(SeekFrom::Current(-2)), Ok(4));
    assert_eq!(file.seek(SeekFrom::Current(0)), Ok(4));
    assert_eq!(file.seek(SeekFrom::Current(100)), Ok(13));
    assert_eq!(file.seek(SeekFrom::Current(i64::MAX)), Ok(13));
    assert_eq!(file.seek(SeekFrom::Current(-13)), Ok(0));
}

#[test]
fn seek_before_the_start_is_refused() {
    let image = image();
    let mut file = IsoFile::new(&image, 33 * 2048, 13);
    let refused = Err(Error::Io(IoErrorKind::InvalidInput));
    assert_eq!(file.seek(SeekFrom::Start(5)), Ok(5));
    assert_eq!(file.seek(SeekFrom::Current(-6)), refused);
    assert_eq!(file.position.pos, 5);
    assert_eq!(file.seek(SeekFrom::End(-14)), refused);
    assert_eq!(file.position.pos, 5);
    assert_eq!(file.seek(SeekFrom::Current(i64::MIN)), refused);
    assert_eq!(file.seek(SeekFrom::End(i64::MIN)), refused);
    assert_eq!(file.position.pos, 5);
}

#[test]
fn seek_then_read() {
    let image = image();
    let mut file = IsoFile::new(&image, 33 * 2048, 13);
    assert_eq!(file.seek(SeekFrom::End(-6)), Ok(7));
    let mut content = Vec::new();
    assert_eq!(file.read_to_end(&mut content), 6);
    assert_eq!(content, b"base\n\n");
    assert_eq!(file.seek(SeekFrom::Start(0)), Ok(0));
    let mut buffer = [0u8; 6];
    assert_eq!(file.read(&mut buffer), 6);
    assert_eq!(&buffer, b"alpine");
}

#[test]
fn file_position_counts() {
    let mut position = FilePosition::new(4096, 10);
    assert_eq!(position.remaining(), 10);
    assert_eq!(position.offset(), 4096);
    assert_eq!(position.read_size(4), 4);
    assert_eq!(position.read_size(40), 10);
    position.advance(4);
    assert_eq!(position.pos, 4);
    assert_eq!(position.remaining(), 6);
    assert_eq!(position.offset(), 4100);
    assert_eq!(position.read_size(40), 6);
    assert_eq!(position.seek(SeekFrom::Current(-5)), Err(Error::Io(IoErrorKind::InvalidInput)));
    assert_eq!(position.seek(SeekFrom::Current(-4)), Ok(0));
    assert_eq!(position.seek(SeekFrom::End(1)), Ok(10));
    assert_eq!(position.read_size(40), 0);
}

#[test]
fn directories_are_listed() {
    let mut iso = open();
    assert_eq!(names(&mut iso, "/"), ["ETC", "NEXT", "OVER", "README.TXT", "SBIN"]);
    assert_eq!(names(&mut iso, "ETC"), ["APK", "HOSTNAME"]);
    assert_eq!(names(&mut iso, "/ETC/APK"), ["ARCH", "WORLD"]);
    let entries = iso.read_dir("ETC/APK").unwrap();
    assert_eq!(entries.len(), 2);
    assert_eq!(entries.get(0).path(), "/ETC/APK/ARCH");
    assert!(entries.get(0).is_file());
    assert_eq!(entries.get(1).path(), "/ETC/APK/WORLD");
}

#[test]
fn listing_has_no_entry_for_the_directory_or_its_parent() {
    let mut iso = open();
    for path in ["/", "ETC", "ETC/APK", "SBIN", "OVER", "NEXT"] {
        let listed = names(&mut iso, path);
        assert!(!listed.iter().any(|name| name == "\0" || name == "\x01"));
        let mut sorted = listed.clone();
        sorted.sort();
        sorted.dedup();
        assert_eq!(sorted.len(), listed.len());
    }
}

#[test]
fn directory_of_one_sector_ends_at_the_zero_byte() {
    let mut iso = open();
    // The sector after the root directory holds the directory /ETC.
    assert_eq!(names(&mut iso, "/").len(), 5);
    assert!(!iso.path_exists("/APK"));
    assert!(!iso.path_exists("/HOSTNAME"));
}

#[test]
fn directory_of_two_sectors_is_read_across_them() {
    let mut iso = open();
    assert_eq!(names(&mut iso, "SBIN"), sbin_names());
    assert_eq!(iso.metadata("SBIN/MKMNTDIR").unwrap().path(), "/SBIN/MKMNTDIR");
}

#[test]
fn directory_scan_stops_at_the_next_directory() {
    let mut iso = open();
    assert_eq!(names(&mut iso, "OVER"), ["A"]);
    assert!(!iso.path_exists("OVER/INNER"));
    assert!(iso.is_file("NEXT/INNER"));
}

#[test]
fn later_entry_of_the_same_name_replaces_the_earlier() {
    let mut image = image();
    put(
        &mut image,
        22,
        &directory(22, 21, 1, &[file(b"ARCH.;1", 32, 7), file(b"WORLD.;1", 33, 13), file(b"ARCH.;2", 30, 12)]),
    );
    let mut iso = IsoFs::from_buffer(image).unwrap();
    assert_eq!(names(&mut iso, "ETC/APK"), ["ARCH", "WORLD"]);
    let arch = iso.metadata("ETC/APK/ARCH").unwrap();
    assert_eq!(arch.record.version, Some(2));
    assert_eq!(arch.record.data_length, 12);
}

#[test]
fn read_dir_wants_a_directory() {
    let mut iso = open();
    assert_eq!(iso.read_dir("README.TXT").err(), Some(Error::DirectoryExpected));
    assert_eq!(iso.read_dir("NODIR").err(), Some(Error::NotFound(String::from("/NODIR"))));
    assert_eq!(iso.read_dir("ETC/APK/ARCH/X").err(), Some(Error::DirectoryExpected));
    let readme = iso.metadata("README.TXT").unwrap();
    assert_eq!(readme.read_dir(&mut iso).err(), Some(Error::DirectoryExpected));
}

#[test]
fn read_dir_twice_gives_the_same() {
    let mut iso = open();
    let first = names(&mut iso, "SBIN");
    let nodes = iso.tree.nodes.len();
    let second = names(&mut iso, "SBIN");
    assert_eq!(first, second);
    assert_eq!(first.len(), 73);
    assert_eq!(iso.tree.nodes.len(), nodes);
    let etc = iso.metadata("ETC").unwrap();
    let a: Vec<String> = etc.read_dir(&mut iso).unwrap().iter().map(|m| m.path().to_string()).collect();
    let b: Vec<String> = etc.read_dir(&mut iso).unwrap().iter().map(|m| m.path().to_string()).collect();
    assert_eq!(a, b);
    assert_eq!(a, ["/ETC/APK", "/ETC/HOSTNAME"]);
}

#[test]
fn every_node_is_counted_once() {
    let mut iso = open();
    let root = iso.metadata("/").unwrap();
    // root, 4 directories under it and README.TXT, APK and HOSTNAME, ARCH
    // and WORLD, 73 files in SBIN, A and INNER.
    assert_eq!(count(&mut iso, &root), 1 + 5 + 2 + 2 + 73 + 1 + 1);
    assert_eq!(count(&mut iso, &root), 85);
    assert_eq!(iso.tree.nodes.len(), 85);
}

#[test]
fn paths_are_the_names_from_the_root_down() {
    let mut iso = open();
    let root = iso.metadata("/").unwrap();
    let mut pending = vec![root];
    let mut seen = 0;
    while let Some(meta) = pending.pop() {
        seen += 1;
        assert!(meta.path().starts_with('/'));
        if let Ok(entries) = meta.read_dir(&mut iso) {
            for child in entries {
                assert_eq!(child.path(), join(&meta.path().to_string(), child.name()));
                let joined = format!("{}/{}", meta.path().trim_end_matches('/'), child.name());
                assert_eq!(child.path(), joined);
                pending.push(child);
            }
        }
    }
    assert_eq!(seen, 85);
}

#[test]
fn paths_are_followed_step_by_step() {
    let mut iso = open();
    assert!(iso.is_dir("."));
    assert!(iso.is_dir("./ETC"));
    assert!(iso.is_dir("ETC/"));
    assert!(iso.is_dir("//ETC//APK//"));
    assert!(iso.is_file("ETC/./APK/./ARCH"));
    assert!(iso.is_file("ETC/../ETC/APK/../APK/ARCH"));
    assert!(iso.is_dir("ETC/APK/.."));
    assert_eq!(iso.metadata("ETC/APK/..").unwrap().path(), "/ETC");
    assert_eq!(iso.metadata("ETC/..").unwrap().path(), "/");
    assert!(iso.path_exists("SBIN/../ETC/APK/WORLD"));
    assert!(!iso.path_exists("etc"));
    assert!(!iso.path_exists("ETC/APK/ARCH;1"));
    assert!(iso.is_file("ETC/APK/ARCH/"));
    assert!(iso.path_exists("ETC/APK/ARCH/.."));
}

#[test]
fn parent_of_the_root_is_refused() {
    let mut iso = open();
    assert_eq!(iso.metadata("..").err(), Some(Error::InvalidPathComponent));
    assert_eq!(iso.metadata("/..").err(), Some(Error::InvalidPathComponent));
    assert_eq!(iso.metadata("ETC/../..").err(), Some(Error::InvalidPathComponent));
    assert!(!iso.is_dir(".."));
    assert!(!iso.path_exists("/../ETC"));
    let steps = vec![Component::Prefix, Component::Normal(String::from("ETC"))];
    assert_eq!(iso.walk(&steps), Err(Error::InvalidPathComponent));
}

#[test]
fn missing_entries_are_named_by_their_path() {
    let mut iso = open();
    assert_eq!(iso.metadata("ETC/NODIR/X").err(), Some(Error::NotFound(String::from("/ETC/NODIR"))));
    assert_eq!(iso.metadata("NOFILE").err(), Some(Error::NotFound(String::from("/NOFILE"))));
    assert_eq!(iso.metadata("ETC/APK/ARCH/X").err(), Some(Error::DirectoryExpected));
    assert_eq!(iso.node("README.TXT/.").ok(), iso.node("README.TXT").ok());
}

#[test]
fn walk_takes_components() {
    let mut iso = open();
    let steps = vec![
        Component::RootDir,
        Component::Normal(String::from("SBIN")),
        Component::RootDir,
        Component::CurDir,
        Component::Normal(String::from("ETC")),
        Component::Normal(String::from("APK")),
        Component::ParentDir,
        Component::Normal(String::from("HOSTNAME")),
    ];
    let place = iso.walk(&steps).unwrap();
    assert_eq!(iso.tree.nodes[place].path, "/ETC/HOSTNAME");
    assert_eq!(iso.walk(&Vec::new()), Ok(0));
}

#[test]
fn components_of_paths() {
    let normal = |name: &str| Component::Normal(String::from(name));
    assert_eq!(components(""), []);
    assert_eq!(components("/"), [Component::RootDir]);
    assert_eq!(components("ETC"), [normal("ETC")]);
    assert_eq!(components("/ETC/APK"), [Component::RootDir, normal("ETC"), normal("APK")]);
    assert_eq!(components("ETC//APK/"), [normal("ETC"), normal("APK")]);
    assert_eq!(
        components("./A/../..B/.../."),
        [Component::CurDir, normal("A"), Component::ParentDir, normal("..B"), normal("..."), Component::CurDir]
    );
    assert_eq!(components("///"), [Component::RootDir]);
    assert_eq!(components("/\u{e9}t\u{e9}/x"), [Component::RootDir, normal("\u{e9}t\u{e9}"), normal("x")]);
}

#[test]
fn join_adds_one_separator() {
    assert_eq!(join(&String::from("/"), "ETC"), "/ETC");
    assert_eq!(join(&String::from("/ETC"), "APK"), "/ETC/APK");
    assert_eq!(join(&String::from("/ETC/"), "APK"), "/ETC/APK");
    assert_eq!(join(&String::from(""), "APK"), "/APK");
    assert_eq!(join(&String::from("/ETC"), ""), "/ETC/");
}

#[test]
fn directories_are_read_once() {
    let mut iso = open();
    assert_eq!(iso.tree.nodes.len(), 1);
    assert!(iso.tree.nodes[0].contents.is_none());
    assert!(iso.is_dir("ETC"));
    assert_eq!(iso.tree.nodes.len(), 6);
    assert!(iso.tree.nodes[0].contents.is_some());
    let etc = iso.node("ETC").unwrap();
    assert!(iso.tree.nodes[etc].contents.is_none());
    assert_eq!(iso.load_children(etc), Ok(()));
    assert_eq!(iso.tree.nodes.len(), 8);
    assert_eq!(iso.load_children(etc), Ok(()));
    assert_eq!(iso.tree.nodes.len(), 8);
    assert_eq!(iso.child(etc, &String::from("APK")).map(|at| iso.tree.nodes[at].path.clone()), Ok(String::from("/ETC/APK")));
    assert_eq!(iso.child(etc, &String::from("NONE")), Err(Error::NotFound(String::from("/ETC/NONE"))));
    let readme = iso.node("README.TXT").unwrap();
    assert_eq!(iso.load_children(readme), Err(Error::DirectoryExpected));
    assert_eq!(iso.child(readme, &String::from("X")), Err(Error::DirectoryExpected));
    assert!(iso.tree.nodes[readme].contents.is_none());
}

#[test]
fn failed_read_of_a_directory_can_be_tried_again() {
    let mut image = image();
    put(&mut image, 20, &directory(20, 20, 1, &[dir(b"FAR", 1000, 1), dir(b"BAD", 27, 1), dir(b"ETC", 21, 1)]));
    let mut bad = directory(27, 20, 1, &[file(b"OK.;1", 34, 5)]);
    bad[34 + 34 + 19] = 13;
    put(&mut image, 27, &bad);
    let mut iso = IsoFs::from_buffer(image).unwrap();
    assert!(iso.is_dir("FAR"));
    let nodes = iso.tree.nodes.len();
    assert_eq!(iso.read_dir("FAR").err(), Some(Error::Io(IoErrorKind::UnexpectedEof)));
    assert_eq!(iso.metadata("FAR/X").err(), Some(Error::Io(IoErrorKind::UnexpectedEof)));
    assert_eq!(iso.read_dir("BAD").err(), Some(Error::ParseError(ParseErrorKind::Custom(0))));
    assert_eq!(iso.read_dir("BAD").err(), Some(Error::ParseError(ParseErrorKind::Custom(0))));
    assert!(!iso.path_exists("BAD/OK"));
    assert_eq!(iso.tree.nodes.len(), nodes);
    let far = iso.node("FAR").unwrap();
    assert!(iso.tree.nodes[far].contents.is_none());
    assert!(iso.is_file("ETC/APK/ARCH"));
}

#[test]
fn record_that_crosses_the_sector_end_fails_the_scan() {
    let mut image = image();
    let mut entries: Vec<Vec<u8>> = (0..40).map(|i| file(format!("F{:07}.TXT;1", i).as_bytes(), 34, 5)).collect();
    entries.push(file(b"SEVENTEEN.BYTES;1", 34, 5));
    let mut sector = directory(27, 20, 1, &entries);
    let cut = file(b"LONGNAME.TXT;1", 34, 5);
    let at = SECTOR - 10;
    assert_eq!(68 + 40 * 48 + 50, at);
    sector[at..].copy_from_slice(&cut[..10]);
    put(&mut image, 27, &sector);
    put(&mut image, 20, &directory(20, 20, 1, &[dir(b"CUT", 27, 1)]));
    let mut iso = IsoFs::from_buffer(image).unwrap();
    assert_eq!(iso.read_dir("CUT").err(), Some(Error::ParseIncomplete(Some(cut.len()))));
}

#[test]
fn directory_filled_to_the_last_byte_of_its_sector() {
    let mut image = image();
    let mut records = vec![dir(b"\0", 27, 1), dir(b"\x01", 20, 1)];
    let mut used = 68;
    let mut i = 0;
    while SECTOR - used >= 2 * 48 {
        records.push(file(format!("F{:07}.TXT;1", i).as_bytes(), 34, 5));
        used += 48;
        i += 1;
    }
    let left = SECTOR - used;
    let id_len = left - 33 - if (left - 33) % 2 == 0 { 1 } else { 0 };
    records.push(file(&vec![b'Z'; id_len], 34, 5));
    let sector = lay_out(&records, 1);
    assert!(sector[SECTOR - 1] != 0 || id_len % 2 == 0);
    assert_eq!(records.iter().map(|r| r.len()).sum::<usize>(), SECTOR);
    put(&mut image, 27, &sector);
    put(&mut image, 28, &directory(28, 20, 1, &[file(b"OTHER.;1", 34, 5)]));
    put(&mut image, 20, &directory(20, 20, 1, &[dir(b"FULL", 27, 1)]));
    let mut iso = IsoFs::from_buffer(image).unwrap();
    assert_eq!(names(&mut iso, "FULL").len(), i + 1);
    assert!(!iso.path_exists("FULL/OTHER"));
}

#[test]
fn open_wants_primary_and_terminator() {
    assert!(IsoFs::from_buffer(image()).is_ok());
    let mut no_terminator = image();
    put(&mut no_terminator, 18, &boot());
    // The scan goes on into sector 19, which holds no descriptor.
    assert_eq!(IsoFs::from_buffer(no_terminator).err(), Some(Error::ParseError(ParseErrorKind::Tag)));
    let mut no_primary = image();
    put(&mut no_primary, 16, &boot());
    assert_eq!(IsoFs::from_buffer(no_primary).err(), Some(Error::NoPrimaryVolumeDescriptor));
    let mut primary_after = image();
    put(&mut primary_after, 16, &boot());
    put(&mut primary_after, 17, &terminator());
    put(&mut primary_after, 18, &primary(20, 2048));
    assert_eq!(IsoFs::from_buffer(primary_after).err(), Some(Error::NoPrimaryVolumeDescriptor));
    let mut unknown = image();
    unknown[17 * SECTOR] = 2;
    assert_eq!(IsoFs::from_buffer(unknown).err(), Some(Error::UnknownDescriptorType(2)));
    let mut damaged = image();
    damaged[16 * SECTOR + 3] = b'X';
    assert_eq!(IsoFs::from_buffer(damaged).err(), Some(Error::ParseError(ParseErrorKind::Tag)));
}

#[test]
fn open_fails_when_the_descriptors_run_out() {
    let mut image = image();
    image.truncate(18 * SECTOR);
    assert_eq!(IsoFs::from_buffer(image).err(), Some(Error::NoSetTerminator));
    let mut image = self::image();
    image.truncate(19 * SECTOR - 1);
    assert_eq!(IsoFs::from_buffer(image).err(), Some(Error::NoSetTerminator));
    assert_eq!(IsoFs::from_buffer(Vec::new()).err(), Some(Error::NoSetTerminator));
    assert_eq!(IsoFs::from_buffer(vec![0u8; 16 * SECTOR]).err(), Some(Error::NoSetTerminator));
    let mut smallest = vec![0u8; 18 * SECTOR];
    put(&mut smallest, 16, &primary(20, 2048));
    put(&mut smallest, 17, &terminator());
    let mut iso = IsoFs::from_buffer(smallest).unwrap();
    assert!(iso.is_dir("/"));
    assert_eq!(iso.read_dir("/").err(), Some(Error::Io(IoErrorKind::UnexpectedEof)));
}

#[test]
fn last_primary_before_the_terminator_counts() {
    let mut image = image();
    put(&mut image, 17, &primary(21, 1024));
    let mut iso = IsoFs::from_buffer(image).unwrap();
    assert_eq!(iso.block_size, 1024);
    assert_eq!(names(&mut iso, "/"), ["APK", "HOSTNAME"]);
}

#[test]
fn volume_scan_is_fed_sector_by_sector() {
    let mut scan = VolumeScan::new();
    assert_eq!(scan.feed(&boot()), Ok(false));
    assert_eq!(scan.feed(&primary(20, 2048)), Ok(false));
    assert_eq!(scan.feed(b"\x07CD001\x01"), Err(Error::UnknownDescriptorType(7)));
    assert_eq!(scan.feed(&terminator()), Ok(true));
    let (root, block_size) = scan.finish().unwrap();
    assert_eq!(root.extent, 20);
    assert_eq!(block_size, 2048);
    let mut scan = VolumeScan::new();
    assert_eq!(scan.feed(&primary(20, 2048)), Ok(false));
    assert_eq!(scan.finish().err(), Some(Error::NoSetTerminator));
    let mut scan = VolumeScan::new();
    assert_eq!(scan.feed(&terminator()), Ok(true));
    assert_eq!(scan.finish().err(), Some(Error::NoPrimaryVolumeDescriptor));
}

#[test]
fn directory_scan_is_fed_sector_by_sector() {
    let image = image();
    let sbin = Record::parse(&dir(b"SBIN", 23, 2)).unwrap();
    let mut scan = DirectoryScan::new(&sbin);
    assert!(!scan.is_done());
    assert_eq!(scan.position(), 23 * 2048);
    assert_eq!(scan.feed(&image[23 * SECTOR..24 * SECTOR]), Ok(()));
    assert!(!scan.is_done());
    assert_eq!(scan.position(), 24 * 2048);
    assert_eq!(scan.feed(&image[24 * SECTOR..25 * SECTOR]), Ok(()));
    assert!(scan.is_done());
    assert!(!scan.finished);
    let listing = scan.into_listing();
    assert_eq!(listing.len(), 73);
    assert_eq!(listing[72].name, "MKMNTDIR");

    let over = Record::parse(&dir(b"OVER", 25, 2)).unwrap();
    let mut scan = DirectoryScan::new(&over);
    assert_eq!(scan.feed(&image[25 * SECTOR..26 * SECTOR]), Ok(()));
    assert!(!scan.is_done());
    assert_eq!(scan.feed(&image[26 * SECTOR..27 * SECTOR]), Ok(()));
    assert!(scan.is_done());
    assert!(scan.finished);
    assert_eq!(scan.into_listing().len(), 1);

    let empty = Record::parse(&dir(b"NONE", 25, 0)).unwrap();
    assert!(DirectoryScan::new(&empty).is_done());
}

#[test]
fn tree_holds_what_is_attached() {
    let root = Record::parse(&dir(b"\0", 20, 1)).unwrap();
    let node = Node::create_root(root.duplicate());
    assert_eq!(node.path, "/");
    assert!(node.contents.is_none());
    let etc = Record::parse(&dir(b"ETC", 21, 1)).unwrap();
    let child = node.create_child(etc.duplicate());
    assert_eq!(child.path, "/ETC");
    assert_eq!(child.record, etc);
    let apk = child.create_child(Record::parse(&dir(b"APK", 22, 1)).unwrap());
    assert_eq!(apk.path, "/ETC/APK");

    let mut tree = Tree::new(root);
    assert_eq!(tree.child(0, &String::from("ETC")), Ok(None));
    let readme = Record::parse(&file(b"README.TXT;1", 30, 12)).unwrap();
    tree.attach(0, vec![etc, readme]);
    assert_eq!(tree.nodes.len(), 3);
    assert_eq!(tree.child(0, &String::from("ETC")), Ok(Some(1)));
    assert_eq!(tree.child(0, &String::from("README.TXT")), Ok(Some(2)));
    assert_eq!(tree.child(0, &String::from("NONE")), Err(Error::NotFound(String::from("/NONE"))));
    assert_eq!(tree.child(1, &String::from("APK")), Ok(None));
    assert_eq!(tree.child(2, &String::from("APK")), Err(Error::DirectoryExpected));
    assert_eq!(tree.nodes[2].path, "/README.TXT");
}

#[test]
fn tree_steps_without_reading() {
    let root = Record::parse(&dir(b"\0", 20, 1)).unwrap();
    let etc = Record::parse(&dir(b"ETC", 21, 1)).unwrap();
    let readme = Record::parse(&file(b"README.TXT;1", 30, 12)).unwrap();
    let mut tree = Tree::new(root);
    let mut stack = vec![0usize];
    let to_etc = Component::Normal(String::from("ETC"));
    assert_eq!(tree.step(&mut stack, &to_etc), Ok(false));
    assert_eq!(stack, [0]);
    assert!(tree.begin(0).unwrap().is_some());
    tree.attach(0, vec![etc, readme]);
    assert!(tree.begin(0).unwrap().is_none());
    assert_eq!(tree.begin(2).err(), Some(Error::DirectoryExpected));
    let scan = tree.begin(1).unwrap().unwrap();
    assert_eq!(scan.position(), 21 * 2048);
    assert_eq!(tree.step(&mut stack, &to_etc), Ok(true));
    assert_eq!(stack, [0, 1]);
    assert_eq!(tree.step(&mut stack, &Component::CurDir), Ok(true));
    assert_eq!(stack, [0, 1]);
    assert_eq!(tree.step(&mut stack, &Component::Normal(String::from("APK"))), Ok(false));
    assert_eq!(stack, [0, 1]);
    assert_eq!(tree.step(&mut stack, &Component::ParentDir), Ok(true));
    assert_eq!(stack, [0]);
    assert_eq!(tree.step(&mut stack, &Component::ParentDir), Err(Error::InvalidPathComponent));
    assert_eq!(tree.step(&mut stack, &Component::Prefix), Err(Error::InvalidPathComponent));
    assert_eq!(tree.step(&mut stack, &Component::Normal(String::from("README.TXT"))), Ok(true));
    assert_eq!(stack, [0, 2]);
    assert_eq!(tree.step(&mut stack, &to_etc), Err(Error::DirectoryExpected));
    assert_eq!(tree.step(&mut stack, &Component::RootDir), Ok(true));
    assert_eq!(stack, [0]);
    assert_eq!(
        tree.step(&mut stack, &Component::Normal(String::from("NONE"))),
        Err(Error::NotFound(String::from("/NONE")))
    );
}
