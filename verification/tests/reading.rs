use waypaper_engine::file_reading_utils::{
    read_color, read_f32, read_i32, read_null_terminated_bytes, read_null_terminated_str,
    read_sized_str, read_str, read_u32, text_of, Cursor, ReadError,
};
use waypaper_engine::scene_package::{
    read_entry, read_file, read_files, read_header, FileContent, FileEntry, PackageError,
    ScenePackage,
};

fn sized(text: &[u8]) -> Vec<u8> {
    let mut out = (text.len() as u32).to_le_bytes().to_vec();
    out.extend_from_slice(text);
    out
}

fn package(version: &[u8], files: &[(&str, u32, u32)], data: &[u8]) -> Vec<u8> {
    let mut out = sized(version);
    out.extend_from_slice(&(files.len() as u32).to_le_bytes());
    for (name, offset, size) in files {
        out.extend_from_slice(&sized(name.as_bytes()));
        out.extend_from_slice(&offset.to_le_bytes());
        out.extend_from_slice(&size.to_le_bytes());
    }
    out.extend_from_slice(data);
    out
}

#[test]
fn read_u32_is_little_endian() {
    let mut c = Cursor::new(vec![0x78, 0x56, 0x34, 0x12, 0xff, 0xff, 0xff, 0xff, 1]);
    assert_eq!(read_u32(&mut c), Ok(0x1234_5678));
    assert_eq!(c.position(), 4);
    assert_eq!(read_u32(&mut c), Ok(u32::MAX));
    assert_eq!(c.remaining(), 1);
    assert_eq!(read_u32(&mut c), Err(ReadError::UnexpectedEof));
    assert_eq!(c.position(), 8);
}

#[test]
fn read_i32_is_twos_complement() {
    let mut c = Cursor::new(vec![0xff, 0xff, 0xff, 0xff, 0, 0, 0, 0x80, 0xff, 0xff, 0xff, 0x7f, 2]);
    assert_eq!(read_i32(&mut c), Ok(-1));
    assert_eq!(read_i32(&mut c), Ok(i32::MIN));
    assert_eq!(read_i32(&mut c), Ok(i32::MAX));
    assert_eq!(read_i32(&mut c), Err(ReadError::UnexpectedEof));
}

#[test]
fn read_f32_hands_on_the_bit_pattern() {
    let mut c = Cursor::new(1.5f32.to_le_bytes().to_vec());
    let bits = read_f32(&mut c).unwrap();
    assert_eq!(f32::from_bits(bits), 1.5);
    assert_eq!(read_f32(&mut c), Err(ReadError::UnexpectedEof));
}

#[test]
fn read_color_takes_four_bytes() {
    let mut c = Cursor::new(vec![1, 2, 3, 4, 5, 6, 7]);
    assert_eq!(read_color(&mut c), Ok((1, 2, 3, 4)));
    assert_eq!(read_color(&mut c), Err(ReadError::UnexpectedEof));
    assert_eq!(c.position(), 4);
}

#[test]
fn cursor_behind_the_end_reads_nothing() {
    let mut c = Cursor::new(vec![1, 2, 3, 4]);
    c.set_position(100);
    assert_eq!(c.remaining(), 0);
    assert_eq!(c.take(3), Vec::<u8>::new());
    assert_eq!(c.position(), 100);
    assert_eq!(read_u32(&mut c), Err(ReadError::UnexpectedEof));
    assert_eq!(read_null_terminated_bytes(&mut c), Vec::<u8>::new());
    assert_eq!(c.position(), 100);
    assert_eq!(c.get_ref(), &vec![1u8, 2, 3, 4]);
}

#[test]
fn take_gives_what_is_left() {
    let mut c = Cursor::new(vec![1, 2, 3, 4, 5]);
    assert_eq!(c.take(2), vec![1, 2]);
    assert_eq!(c.take(0), Vec::<u8>::new());
    assert_eq!(c.take(10), vec![3, 4, 5]);
    assert_eq!(c.position(), 5);
}

#[test]
fn null_terminated_string_stops_at_the_zero_byte() {
    let mut c = Cursor::new(b"TEXV0005\0TEXI0001\0rest".to_vec());
    assert_eq!(read_null_terminated_str(&mut c).unwrap(), "TEXV0005");
    assert_eq!(c.position(), 9);
    assert_eq!(read_null_terminated_str(&mut c).unwrap(), "TEXI0001");
    assert_eq!(c.position(), 18);
}

#[test]
fn null_terminated_string_without_terminator_loses_its_last_byte() {
    let mut c = Cursor::new(b"rest".to_vec());
    assert_eq!(read_null_terminated_str(&mut c).unwrap(), "res");
    assert_eq!(c.position(), 4);
    assert_eq!(read_null_terminated_str(&mut c).unwrap(), "");
    assert_eq!(c.position(), 4);
}

#[test]
fn empty_null_terminated_string() {
    let mut c = Cursor::new(vec![0, b'a', 0]);
    assert_eq!(read_null_terminated_bytes(&mut c), Vec::<u8>::new());
    assert_eq!(c.position(), 1);
    assert_eq!(read_null_terminated_bytes(&mut c), vec![b'a']);
    assert_eq!(c.position(), 3);
}

#[test]
fn invalid_utf8_is_an_error() {
    let mut c = Cursor::new(vec![0xff, 0xfe, 0, 1]);
    assert_eq!(read_null_terminated_str(&mut c), Err(ReadError::InvalidUtf8));
    assert_eq!(c.position(), 3);
    assert_eq!(text_of(vec![0xc3]), Err(ReadError::InvalidUtf8));
    assert_eq!(text_of(vec![0xc3, 0xa9]).unwrap(), "é");
    assert_eq!(text_of(Vec::new()).unwrap(), "");
}

#[test]
fn sized_string_takes_its_length_or_what_is_left() {
    let mut c = Cursor::new(b"scene.json".to_vec());
    assert_eq!(read_sized_str(&mut c, 5).unwrap(), "scene");
    assert_eq!(read_sized_str(&mut c, 99).unwrap(), ".json");
    assert_eq!(read_sized_str(&mut c, 1).unwrap(), "");
}

#[test]
fn read_str_reads_length_then_text() {
    let mut data = sized(b"PKGV0001");
    data.extend_from_slice(&sized("héllo".as_bytes()));
    data.extend_from_slice(&[9, 0, 0, 0, b'x']);
    data.extend_from_slice(&[1, 0]);
    let mut c = Cursor::new(data);
    assert_eq!(read_str(&mut c).unwrap(), "PKGV0001");
    assert_eq!(c.position(), 12);
    assert_eq!(read_str(&mut c).unwrap(), "héllo");
    assert_eq!(read_str(&mut c).unwrap(), "x\u{1}\u{0}");
    assert_eq!(read_str(&mut c), Err(ReadError::UnexpectedEof));
    let mut bad = Cursor::new(vec![1, 0, 0, 0, 0xff]);
    assert_eq!(read_str(&mut bad), Err(ReadError::InvalidUtf8));
    assert_eq!(bad.position(), 5);
}

#[test]
fn package_header_gives_the_file_count() {
    let mut c = Cursor::new(package(b"PKGV0001", &[], &[7, 0, 0, 0]));
    assert_eq!(read_header(&mut c), Ok(0));
    assert_eq!(c.position(), 16);
    let mut data = sized(b"PKGV0019");
    data.extend_from_slice(&[3, 1, 0, 0]);
    assert_eq!(read_header(&mut Cursor::new(data)), Ok(259));
}

#[test]
fn package_header_errors() {
    assert_eq!(
        read_header(&mut Cursor::new(vec![1, 0])),
        Err(PackageError::Read(ReadError::UnexpectedEof))
    );
    let mut data = sized(b"PKGX0001");
    data.extend_from_slice(&[0, 0, 0, 0]);
    assert_eq!(read_header(&mut Cursor::new(data)), Err(PackageError::BadMagic));
    assert_eq!(read_header(&mut Cursor::new(sized(b"PKG"))), Err(PackageError::BadMagic));
    assert_eq!(
        read_header(&mut Cursor::new(sized(&[b'P', b'K', b'G', b'V', 0xff]))),
        Err(PackageError::Read(ReadError::InvalidUtf8))
    );
    let mut short = sized(b"PKGV0001");
    short.extend_from_slice(&[0, 0, 0]);
    assert_eq!(
        read_header(&mut Cursor::new(short)),
        Err(PackageError::Read(ReadError::UnexpectedEof))
    );
}

#[test]
fn table_of_contents_is_read_in_order() {
    let mut data = Vec::new();
    for (name, offset, size) in [("a.txt", 0u32, 3u32), ("dir/b.bin", 3, 70000)] {
        data.extend_from_slice(&sized(name.as_bytes()));
        data.extend_from_slice(&offset.to_le_bytes());
        data.extend_from_slice(&size.to_le_bytes());
    }
    let mut c = Cursor::new(data.clone());
    let files = read_files(&mut c, 2).unwrap();
    assert_eq!(files.len(), 2);
    assert_eq!((files[0].name.as_str(), files[0].offset, files[0].size), ("a.txt", 0, 3));
    assert_eq!((files[1].name.as_str(), files[1].offset, files[1].size), ("dir/b.bin", 3, 70000));
    assert_eq!(c.remaining(), 0);
    let mut c = Cursor::new(data.clone());
    assert_eq!(read_files(&mut c, 3).err(), Some(PackageError::Read(ReadError::UnexpectedEof)));
    let mut c = Cursor::new(data);
    assert_eq!(read_files(&mut c, 0).unwrap().len(), 0);
    assert_eq!(c.position(), 0);
    let e = read_entry(&mut c).unwrap();
    assert_eq!(e.name, "a.txt");
    assert_eq!(c.position(), 17);
}

#[test]
fn entry_errors() {
    let mut data = sized(b"name");
    data.extend_from_slice(&[0; 7]);
    assert_eq!(
        read_entry(&mut Cursor::new(data)).err(),
        Some(PackageError::Read(ReadError::UnexpectedEof))
    );
    let mut data = sized(&[0x80]);
    data.extend_from_slice(&[0; 8]);
    assert_eq!(
        read_entry(&mut Cursor::new(data)).err(),
        Some(PackageError::Read(ReadError::InvalidUtf8))
    );
}

#[test]
fn read_file_takes_the_bytes_behind_the_table() {
    let mut c = Cursor::new(vec![0, 1, 2, 3, 4, 5, 6, 7, 8, 9]);
    let entry = FileEntry { name: "f".to_string(), offset: 2, size: 3 };
    let content = read_file(&mut c, 4, &entry);
    assert_eq!(content.bytes(), &[6, 7, 8]);
    assert_eq!(content.name(), "f");
    assert_eq!(c.position(), 9);
    let entry = FileEntry { name: "g".to_string(), offset: 4, size: 30 };
    assert_eq!(read_file(&mut c, 4, &entry).bytes(), &[8, 9]);
    let entry = FileEntry { name: "h".to_string(), offset: 40, size: 3 };
    assert!(read_file(&mut c, 4, &entry).bytes().is_empty());
    assert_eq!(c.position(), 44);
    let entry = FileEntry { name: "i".to_string(), offset: u32::MAX, size: 3 };
    assert!(read_file(&mut c, u64::MAX, &entry).bytes().is_empty());
    assert_eq!(c.position(), u64::MAX);
}

#[test]
fn scene_package_is_unpacked_by_name() {
    let data = package(
        b"PKGV0001",
        &[("scene.json", 0, 2), ("materials/a.tex", 2, 4), ("empty", 6, 0)],
        b"{}TEXVtail",
    );
    let p = ScenePackage::new(data).ok().unwrap();
    assert_eq!(p.get_file("scene.json").unwrap().bytes(), b"{}");
    assert_eq!(p.get_file("scene.json").unwrap().as_str(), "{}");
    assert_eq!(p.get_file("materials/a.tex").unwrap().bytes(), b"TEXV");
    assert_eq!(p.get_file("materials/a.tex").unwrap().name(), "materials/a.tex");
    assert!(p.get_file("empty").unwrap().bytes().is_empty());
    assert!(p.get_file("missing").is_none());
    assert_eq!(p.contents.len(), 3);
    let names: Vec<&str> = p.entries.iter().map(|e| e.name.as_str()).collect();
    assert_eq!(names, vec!["scene.json", "materials/a.tex", "empty"]);
}

#[test]
fn later_entry_with_the_same_name_counts() {
    let data = package(b"PKGV0001", &[("a", 0, 1), ("a", 1, 2)], b"xyz");
    let p = ScenePackage::new(data).ok().unwrap();
    assert_eq!(p.get_file("a").unwrap().bytes(), b"yz");
    assert_eq!(p.contents.len(), 1);
    assert_eq!(p.entries.len(), 2);
}

#[test]
fn scene_package_errors() {
    assert!(matches!(ScenePackage::new(Vec::new()), Err(PackageError::Read(ReadError::UnexpectedEof))));
    assert!(matches!(
        ScenePackage::new(package(b"ZIPV0001", &[], b"")),
        Err(PackageError::BadMagic)
    ));
    let mut truncated = package(b"PKGV0001", &[("a", 0, 1)], b"");
    truncated.truncate(truncated.len() - 1);
    assert!(matches!(
        ScenePackage::new(truncated),
        Err(PackageError::Read(ReadError::UnexpectedEof))
    ));
    let mut counted = sized(b"PKGV0001");
    counted.extend_from_slice(&[2, 0, 0, 0]);
    assert!(matches!(
        ScenePackage::new(counted),
        Err(PackageError::Read(ReadError::UnexpectedEof))
    ));
}

#[test]
fn file_content_as_text_is_lenient() {
    let c = FileContent::new("n".to_string(), vec![b'a', 0xff, b'b']);
    assert_eq!(c.as_str(), "a\u{fffd}b");
    assert_eq!(c.bytes(), &[b'a', 0xff, b'b']);
    let c = FileContent::new("n".to_string(), "grüß".as_bytes().to_vec());
    assert_eq!(c.as_str(), "grüß");
}
