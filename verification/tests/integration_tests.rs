use gbfs_rs::{GBFSError, GBFSFilesystem};

/// The fixed 16-byte magic that opens every GBFS archive.
const MAGIC: [u8; 16] = [
    0x50, 0x69, 0x6e, 0x45, 0x69, 0x67, 0x68, 0x74, 0x47, 0x42, 0x46, 0x53, 0x0d, 0x0a, 0x1a,
    0x0a,
];

/// Builds a well-formed archive holding the given files, with the
/// directory right after the header and payloads packed after the
/// directory.
fn build_archive(files: &[(&[u8], &[u8])]) -> Vec<u8> {
    let n = files.len();
    let dir_off: usize = 32;
    let mut data_off = dir_off + 32 * n;
    let total_len: usize = data_off + files.iter().map(|(_, d)| d.len()).sum::<usize>();

    let mut out = Vec::new();
    out.extend_from_slice(&MAGIC);
    out.extend_from_slice(&(total_len as u32).to_le_bytes());
    out.extend_from_slice(&(dir_off as u16).to_le_bytes());
    out.extend_from_slice(&(n as u16).to_le_bytes());
    out.extend_from_slice(&[0u8; 8]);
    assert_eq!(out.len(), 32);

    for (name, payload) in files {
        let mut field = [0u8; 24];
        field[..name.len()].copy_from_slice(name);
        out.extend_from_slice(&field);
        out.extend_from_slice(&(payload.len() as u32).to_le_bytes());
        out.extend_from_slice(&(data_off as u32).to_le_bytes());
        data_off += payload.len();
    }
    for (_, payload) in files {
        out.extend_from_slice(payload);
    }
    out
}

/// An archive with one 256-byte file named "copper1Tiles", as the
/// historical test assets had.
fn tiles_archive() -> Vec<u8> {
    let payload: Vec<u8> = (0..256).map(|i| i as u8).collect();
    build_archive(&[(b"copper1Tiles", &payload)])
}

#[test]
fn open_gbfs() {
    let test_data = tiles_archive();
    let _gbfs = GBFSFilesystem::from_slice(test_data.as_ref());
}

#[test]
fn read_file_data_by_name() {
    let test_data = tiles_archive();
    let gbfs = GBFSFilesystem::from_slice(test_data.as_ref()).unwrap();
    let file_data = gbfs.get_file_data_by_name("copper1Tiles").unwrap();
    assert_eq!(file_data.len(), 256);
}

#[test]
fn read_file_data_by_name_const_fs() {
    let test_data: &'static [u8] = Box::leak(tiles_archive().into_boxed_slice());
    let fs = gbfs_rs::const_fs(test_data);
    let data: &'static [u8] = fs.get_file_data_by_name("copper1Tiles").unwrap();
    assert_eq!(data.len(), 256);
}

#[test]
fn iterate_const_fs() {
    let test_data: &'static [u8] =
        Box::leak(build_archive(&[(b"a", b"xx"), (b"b", b"yy"), (b"c", b"zz")]).into_boxed_slice());
    let fs = gbfs_rs::const_fs(test_data);
    let mut iter = fs.into_iter();
    let mut files: Vec<&[u8]> = Vec::new();
    while let Some(item) = iter.next() {
        files.push(item.unwrap());
    }
    assert_eq!(files.len(), 3);
}

#[test]
fn file_iterator() {
    let test_data = tiles_archive();
    let gbfs = GBFSFilesystem::from_slice(test_data.as_ref()).unwrap();
    let mut iter = gbfs.into_iter();
    let _first = iter.next().unwrap();
}

#[test]
fn read_file_as_u16() {
    let test_data = tiles_archive();
    let gbfs = GBFSFilesystem::from_slice(test_data.as_ref()).unwrap();
    let gbfs_file = gbfs
        .get_file_data_by_name_as_u16_slice("copper1Tiles")
        .unwrap();
    assert_eq!(gbfs_file.len(), 128);
}

#[test]
fn read_file_as_u32() {
    let test_data = tiles_archive();
    let gbfs = GBFSFilesystem::from_slice(test_data.as_ref()).unwrap();
    let gbfs_file = gbfs
        .get_file_data_by_name_as_u32_slice("copper1Tiles")
        .unwrap();
    assert_eq!(gbfs_file.len(), 64);
}

#[test]
fn lookup_by_index() {
    let test_data = build_archive(&[(b"first", b"one"), (b"second", b"two!")]);
    let gbfs = GBFSFilesystem::from_slice(test_data.as_ref()).unwrap();
    assert_eq!(gbfs.get_file_data_by_index(0).unwrap(), b"one");
    assert_eq!(gbfs.get_file_data_by_index(1).unwrap(), b"two!");
}

#[test]
fn missing_file_reports_queried_name() {
    let test_data = build_archive(&[(b"present", b"data")]);
    let gbfs = GBFSFilesystem::from_slice(test_data.as_ref()).unwrap();
    match gbfs.get_file_data_by_name("absent") {
        Err(GBFSError::NoSuchFile(name)) => {
            assert_eq!(name.len(), 6);
            assert_eq!(name.as_string(), "absent");
        }
        other => panic!("expected NoSuchFile, got {:?}", other),
    }
}

#[test]
fn u16_values_are_big_endian() {
    let test_data = build_archive(&[(b"pix", &[0x12, 0x34, 0xab, 0xcd])]);
    let gbfs = GBFSFilesystem::from_slice(test_data.as_ref()).unwrap();
    let values = gbfs.get_file_data_by_name_as_u16_slice("pix").unwrap();
    assert_eq!(values, vec![0x1234, 0xabcd]);
}

#[test]
fn u32_values_are_big_endian() {
    let test_data = build_archive(&[(b"pix32", &[0x01, 0x02, 0x03, 0x04, 0xff, 0x00, 0xaa, 0x55])]);
    let gbfs = GBFSFilesystem::from_slice(test_data.as_ref()).unwrap();
    let values = gbfs.get_file_data_by_name_as_u32_slice("pix32").unwrap();
    assert_eq!(values, vec![0x01020304, 0xff00aa55]);
}

#[test]
fn odd_length_payload_fails_u16_cast() {
    let test_data = build_archive(&[(b"odd", b"abc")]);
    let gbfs = GBFSFilesystem::from_slice(test_data.as_ref()).unwrap();
    assert_eq!(
        gbfs.get_file_data_by_name_as_u16_slice("odd"),
        Err(GBFSError::Cast(2, 3))
    );
    assert_eq!(
        gbfs.get_file_data_by_name_as_u32_slice("odd"),
        Err(GBFSError::Cast(4, 3))
    );
}

#[test]
fn file_view_conversions() {
    let file = gbfs_rs::File {
        filename: gbfs_rs::Filename::from_bytes(b"v"),
        data: &[0x00, 0x10, 0x20, 0x30],
    };
    assert_eq!(file.to_u16_vec().unwrap(), vec![0x0010, 0x2030]);
    assert_eq!(file.to_u32_vec().unwrap(), vec![0x00102030]);
    let short = gbfs_rs::File {
        filename: file.filename,
        data: &[0x00, 0x10],
    };
    assert_eq!(short.to_u32_vec(), Err(GBFSError::Cast(4, 2)));
}
