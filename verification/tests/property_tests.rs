use gbfs_rs::{GBFSError, GBFSFilesystem};

const MAGIC: [u8; 16] = [
    0x50, 0x69, 0x6e, 0x45, 0x69, 0x67, 0x68, 0x74, 0x47, 0x42, 0x46, 0x53, 0x0d, 0x0a, 0x1a,
    0x0a,
];

fn build_archive(files: &[(&[u8], &[u8])]) -> Vec<u8> {
    let n = files.len();
    let dir_off: usize = 32;
    let mut data_off = dir_off + 32 * n;
    let total_len: usize = data_off + files.iter().map(|(_, d)| d.len()).sum::<usize>();

    let mut out = Vec::new();
    out.extend_from_slice(&MAGIC);
    out.extend_from_slice(&(total_len as u32).to_le_bytes());
    out.extend_from_slice(&(dir_off as u16).to_le_bytes());
    out.extend_from_slice(&(n as u16).to_le_bytes());
    out.extend_from_slice(&[0u8; 8]);

    for (name, payload) in files {
        let mut field = [0u8; 24];
        field[..name.len()].copy_from_slice(name);
        out.extend_from_slice(&field);
        out.extend_from_slice(&(payload.len() as u32).to_le_bytes());
        out.extend_from_slice(&(data_off as u32).to_le_bytes());
        data_off += payload.len();
    }
    for (_, payload) in files {
        out.extend_from_slice(payload);
    }
    out
}

#[test]
fn lookup_round_trip() {
    let files: [(&[u8], &[u8]); 3] = [
        (b"alpha", b"first payload"),
        (b"beta", b""),
        (b"gamma", b"third"),
    ];
    let data = build_archive(&files);
    let gbfs = GBFSFilesystem::from_slice(data.as_ref()).unwrap();
    for (name, payload) in files {
        let found = gbfs
            .get_file_data_by_name(std::str::from_utf8(name).unwrap())
            .unwrap();
        assert_eq!(found, payload);
    }
}

#[test]
fn open_idempotent() {
    let data = build_archive(&[(b"one", b"1"), (b"two", b"22")]);
    let fs1 = GBFSFilesystem::from_slice(data.as_ref()).unwrap();
    let fs2 = GBFSFilesystem::from_slice(data.as_ref()).unwrap();
    let mut it1 = fs1.into_iter();
    let mut it2 = fs2.into_iter();
    loop {
        match (it1.next(), it2.next()) {
            (None, None) => break,
            (a, b) => assert_eq!(a.map(Result::unwrap), b.map(Result::unwrap)),
        }
    }
}

#[test]
fn truncated_buffer_rejected() {
    let data = vec![0u8; 10];
    assert_eq!(
        GBFSFilesystem::from_slice(data.as_ref()).unwrap_err(),
        GBFSError::HeaderInvalid
    );
}

#[test]
fn truncated_directory_rejected() {
    // The header declares two entries but the buffer ends inside the
    // second record.
    let mut data = build_archive(&[(b"only", b"payload")]);
    data[22] = 2;
    data[23] = 0;
    assert_eq!(
        GBFSFilesystem::from_slice(data.as_ref()).unwrap_err(),
        GBFSError::Truncated
    );
}

#[test]
fn too_many_entries_rejected() {
    let mut data = build_archive(&[]);
    // Declare 2049 entries: one more than the supported capacity.
    data[22] = 0x01;
    data[23] = 0x08;
    assert_eq!(
        GBFSFilesystem::from_slice(data.as_ref()).unwrap_err(),
        GBFSError::TooManyEntries(2048, 2049)
    );
}

#[test]
fn magic_and_reserved_enforced() {
    let good = build_archive(&[(b"f", b"data")]);
    assert!(GBFSFilesystem::from_slice(good.as_ref()).is_ok());
    for j in 0..16 {
        let mut bad = good.clone();
        bad[j] ^= 0x01;
        assert_eq!(
            GBFSFilesystem::from_slice(bad.as_ref()).unwrap_err(),
            GBFSError::HeaderInvalid,
            "flipped magic byte {} must be rejected",
            j
        );
    }
    for j in 24..32 {
        let mut bad = good.clone();
        bad[j] = 0x7f;
        assert_eq!(
            GBFSFilesystem::from_slice(bad.as_ref()).unwrap_err(),
            GBFSError::HeaderInvalid,
            "nonzero reserved byte {} must be rejected",
            j
        );
    }
}

#[test]
fn out_of_bounds_payload_fails_lookup() {
    // One entry whose declared payload reaches past the buffer end.
    let mut data = build_archive(&[(b"huge", b"x")]);
    let len_field = 32 + 24;
    data[len_field..len_field + 4].copy_from_slice(&0x1000u32.to_le_bytes());
    let gbfs = GBFSFilesystem::from_slice(data.as_ref()).unwrap();
    assert_eq!(
        gbfs.get_file_data_by_name("huge"),
        Err(GBFSError::Truncated)
    );
    assert_eq!(gbfs.get_file_data_by_index(0), Err(GBFSError::Truncated));
    let mut iter = gbfs.into_iter();
    assert_eq!(iter.next(), Some(Err(GBFSError::Truncated)));
    assert_eq!(iter.next(), None);
}

#[test]
fn long_query_name_rejected() {
    let data = build_archive(&[(b"short", b"x")]);
    let gbfs = GBFSFilesystem::from_slice(data.as_ref()).unwrap();
    let query = "abcdefghijklmnopqrstuvwxyz1234";
    assert_eq!(query.len(), 30);
    assert_eq!(
        gbfs.get_file_data_by_name(query),
        Err(GBFSError::FilenameTooLong(24, 30))
    );
}

#[test]
fn iteration_yields_all_in_order() {
    let files: [(&[u8], &[u8]); 4] = [
        (b"d", b"4444"),
        (b"a", b"1"),
        (b"c", b"333"),
        (b"b", b"22"),
    ];
    let data = build_archive(&files);
    let gbfs = GBFSFilesystem::from_slice(data.as_ref()).unwrap();
    let mut iter = gbfs.into_iter();
    let mut seen: Vec<Vec<u8>> = Vec::new();
    while let Some(item) = iter.next() {
        seen.push(item.unwrap().to_vec());
    }
    let expected: Vec<Vec<u8>> = files.iter().map(|(_, d)| d.to_vec()).collect();
    assert_eq!(seen, expected);
}

#[test]
fn duplicate_names_first_wins() {
    let data = build_archive(&[(b"dup", b"first"), (b"dup", b"second")]);
    let gbfs = GBFSFilesystem::from_slice(data.as_ref()).unwrap();
    assert_eq!(gbfs.get_file_data_by_name("dup").unwrap(), b"first");
}

#[test]
fn name_padding_ignored() {
    // Bytes after the first NUL of the name field are not part of the
    // name, whatever they hold.
    let mut data = build_archive(&[(b"abc", b"payload")]);
    for j in 0..4 {
        data[32 + 4 + j] = 0xff - j as u8;
    }
    let gbfs = GBFSFilesystem::from_slice(data.as_ref()).unwrap();
    assert_eq!(gbfs.get_file_data_by_name("abc").unwrap(), b"payload");
}

#[test]
fn unicode_name_lookup() {
    let name = "gr\u{fc}\u{df}e";
    let data = build_archive(&[(name.as_bytes(), b"servus")]);
    let gbfs = GBFSFilesystem::from_slice(data.as_ref()).unwrap();
    assert_eq!(gbfs.get_file_data_by_name(name).unwrap(), b"servus");
    match gbfs.get_file_data_by_name("nah") {
        Err(GBFSError::NoSuchFile(missing)) => assert_eq!(missing.as_string(), "nah"),
        other => panic!("expected NoSuchFile, got {:?}", other),
    }
}

#[test]
fn invalid_utf8_name_rejected() {
    let mut data = build_archive(&[(b"ok", b"payload")]);
    // Overwrite the name field with "ab" followed by a lone
    // continuation byte: invalid at offset 2.
    data[32] = b'a';
    data[33] = b'b';
    data[34] = 0x80;
    assert_eq!(
        GBFSFilesystem::from_slice(data.as_ref()).unwrap_err(),
        GBFSError::Utf8Error(2)
    );
}

#[test]
fn empty_archive() {
    let data = build_archive(&[]);
    let gbfs = GBFSFilesystem::from_slice(data.as_ref()).unwrap();
    match gbfs.get_file_data_by_name("anything") {
        Err(GBFSError::NoSuchFile(_)) => {}
        other => panic!("expected NoSuchFile, got {:?}", other),
    }
    let mut iter = gbfs.into_iter();
    assert_eq!(iter.next(), None);
}

#[test]
fn error_messages() {
    assert_eq!(
        GBFSError::HeaderInvalid.message(),
        "Encountered invalid header"
    );
    assert_eq!(
        GBFSError::FilenameTooLong(24, 30).message(),
        "Encountered filename of invalid length: at most 24 bytes are supported, but got 30"
    );
    assert_eq!(
        GBFSError::Utf8Error(2).message(),
        "Encountered filename that's not valid UTF-8 starting at position 2 in filename"
    );
    assert_eq!(
        GBFSError::Cast(2, 1025).message(),
        "Failed to cast from u8 slice: payload length 1025 is not a multiple of 2"
    );
    assert_eq!(
        GBFSError::Truncated.message(),
        "Encountered truncated file entry"
    );
    assert_eq!(
        GBFSError::TooManyEntries(2048, 2049).message(),
        "Encountered archive with too many entries: at most 2048 entries are supported, but got 2049"
    );
    assert_eq!(
        GBFSError::NoSuchFile(gbfs_rs::Filename::from_bytes(b"missing")).message(),
        "File \"missing\" does not exist in filesystem"
    );
}

#[test]
fn open_handles_corrupt_buffers() {
    // A deterministic pseudo-random walk over mutations of a valid
    // archive, plus raw noise buffers: opening must always return,
    // never panic, whatever the bytes hold.
    let base = build_archive(&[(b"alpha", b"0123456789"), (b"beta", b"abcdef")]);
    let mut state: u64 = 0x1234_5678_9abc_def0;
    let mut rng = move || {
        state ^= state << 13;
        state ^= state >> 7;
        state ^= state << 17;
        state
    };
    for _ in 0..2000 {
        let mut fuzzed = base.clone();
        let flips = (rng() % 8) + 1;
        for _ in 0..flips {
            let pos = (rng() as usize) % fuzzed.len();
            fuzzed[pos] = rng() as u8;
        }
        let truncate_to = (rng() as usize) % (fuzzed.len() + 1);
        fuzzed.truncate(truncate_to);
        let _ = GBFSFilesystem::from_slice(fuzzed.as_ref());
    }
    for size in 0..64 {
        let noise: Vec<u8> = (0..size).map(|_| rng() as u8).collect();
        let _ = GBFSFilesystem::from_slice(noise.as_ref());
    }
}
