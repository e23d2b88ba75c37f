//! Reading of Gameboy Filesystem (GBFS) formatted archives.
//!
//! A GBFS archive is a single contiguous byte buffer holding a fixed
//! 32-byte header, a directory of fixed-size entries, and the payload
//! bytes of every file. This crate validates such a buffer once, up
//! front, and then serves zero-copy lookups by name or index as well
//! as in-order iteration, without ever reading outside the buffer.

use vstd::prelude::*;

mod bytes;
mod constfs;
mod error;
mod file;
mod header;
mod names;

pub use constfs::const_fs;
pub use error::GBFSError;
pub use file::{lemma_filename_eq, spec_u16s_be, spec_u32s_be, File, Filename};
pub use header::{
    spec_dir_off, spec_entry_count, spec_header_ok, spec_magic, spec_magic_ok, spec_reserved_ok,
    spec_total_len, GBFS_HEADER_LENGTH,
};
pub use names::{spec_first_nul, spec_name_of, spec_utf8_scan, validate_utf8};

use crate::bytes::{le32, spec_le32};
use crate::header::GBFSHeader;
use vstd::utf8::{encode_utf8, valid_utf8};

verus! {

/// Maximum length of a filename in bytes.
pub const FILENAME_LEN: usize = 24;

/// Length of a single file's entry in the directory that precedes the data.
pub const DIR_ENTRY_LEN: usize = 32;

/// Maximum number of directory entries a filesystem may hold.
pub const NUM_FS_ENTRIES: usize = 2048;

/// One decoded directory entry: a file's name, its payload length, and
/// the offset of its payload from the start of the archive.
#[derive(Debug, Copy, Clone)]
pub struct GBFSFileEntry {
    /// Name of the file; at most [`FILENAME_LEN`] bytes.
    pub name: Filename,
    /// Length of the file in bytes.
    pub len: u32,
    /// Offset of the first file byte from the start of the filesystem.
    pub data_offset: u32,
}

/// Byte offset of directory record `i` within the archive.
pub open spec fn spec_entry_start(dir_off: int, i: int) -> int {
    dir_off + DIR_ENTRY_LEN * i
}

/// Record `i` lies entirely within the buffer.
pub open spec fn spec_record_in_bounds(data: Seq<u8>, dir_off: int, i: int) -> bool {
    spec_entry_start(dir_off, i) + DIR_ENTRY_LEN <= data.len()
}

/// The raw 24-byte name field of record `i`.
pub open spec fn spec_raw_name(data: Seq<u8>, dir_off: int, i: int) -> Seq<u8>
    recommends
        spec_record_in_bounds(data, dir_off, i),
        dir_off >= 0,
        i >= 0,
{
    data.subrange(spec_entry_start(dir_off, i), spec_entry_start(dir_off, i) + FILENAME_LEN)
}

/// The name of record `i`: the prefix of its name field up to the
/// first NUL byte.
pub open spec fn spec_entry_name(data: Seq<u8>, dir_off: int, i: int) -> Seq<u8>
    recommends
        spec_record_in_bounds(data, dir_off, i),
        dir_off >= 0,
        i >= 0,
{
    spec_name_of(spec_raw_name(data, dir_off, i))
}

/// The declared payload length of record `i`: four little-endian bytes
/// after the name field.
pub open spec fn spec_entry_len(data: Seq<u8>, dir_off: int, i: int) -> int
    recommends
        spec_record_in_bounds(data, dir_off, i),
        dir_off >= 0,
        i >= 0,
{
    let start = spec_entry_start(dir_off, i);
    spec_le32(data[start + 24], data[start + 25], data[start + 26], data[start + 27])
}

/// The declared payload offset of record `i`: the last four
/// little-endian bytes of the record.
pub open spec fn spec_entry_data_offset(data: Seq<u8>, dir_off: int, i: int) -> int
    recommends
        spec_record_in_bounds(data, dir_off, i),
        dir_off >= 0,
        i >= 0,
{
    let start = spec_entry_start(dir_off, i);
    spec_le32(data[start + 28], data[start + 29], data[start + 30], data[start + 31])
}

/// Record `i` decodes cleanly: it fits in the buffer and its name is
/// valid UTF-8.
pub open spec fn spec_record_ok(data: Seq<u8>, dir_off: int, i: int) -> bool {
    &&& spec_record_in_bounds(data, dir_off, i)
    &&& valid_utf8(spec_entry_name(data, dir_off, i))
}

/// All `n` directory records decode cleanly.
pub open spec fn spec_dir_ok(data: Seq<u8>, dir_off: int, n: int) -> bool {
    forall|i: int| 0 <= i < n ==> #[trigger] spec_record_ok(data, dir_off, i)
}

/// True when opening the buffer succeeds: the header is valid, the
/// declared entry count is within capacity, and the whole directory
/// decodes cleanly.
pub open spec fn spec_open_ok(data: Seq<u8>) -> bool {
    &&& spec_header_ok(data)
    &&& spec_entry_count(data) <= NUM_FS_ENTRIES
    &&& spec_dir_ok(data, spec_dir_off(data), spec_entry_count(data))
}

/// The error reported for the first directory record at or after `i`
/// that fails to decode: `Truncated` when the record does not fit the
/// buffer, otherwise the position of its first invalid UTF-8 sequence.
pub open spec fn spec_dir_err(data: Seq<u8>, dir_off: int, i: int, n: int) -> GBFSError
    recommends
        exists|j: int| i <= j < n && !spec_record_ok(data, dir_off, j),
    decreases n - i,
    when i <= n
{
    if i >= n {
        arbitrary()
    } else if !spec_record_in_bounds(data, dir_off, i) {
        GBFSError::Truncated
    } else if !valid_utf8(spec_entry_name(data, dir_off, i)) {
        GBFSError::Utf8Error(spec_utf8_scan(spec_entry_name(data, dir_off, i), 0) as usize)
    } else {
        spec_dir_err(data, dir_off, i + 1, n)
    }
}

/// The error reported when opening the buffer fails: header problems
/// first, then the capacity check, then the first failing directory
/// record.
pub open spec fn spec_open_err(data: Seq<u8>) -> GBFSError
    recommends
        !spec_open_ok(data),
{
    if !spec_header_ok(data) {
        GBFSError::HeaderInvalid
    } else if spec_entry_count(data) > NUM_FS_ENTRIES {
        GBFSError::TooManyEntries(NUM_FS_ENTRIES, spec_entry_count(data) as usize)
    } else {
        spec_dir_err(data, spec_dir_off(data), 0, spec_entry_count(data))
    }
}

/// Entry `e` is exactly what record `i` of the buffer decodes to.
pub open spec fn spec_entry_matches(data: Seq<u8>, i: int, e: GBFSFileEntry) -> bool {
    let dir_off = spec_dir_off(data);
    &&& e.name.wf()
    &&& e.name@ == spec_entry_name(data, dir_off, i)
    &&& e.len == spec_entry_len(data, dir_off, i)
    &&& e.data_offset == spec_entry_data_offset(data, dir_off, i)
}

/// Skipping over cleanly decoding records does not change which error
/// the directory reports.
proof fn lemma_dir_err_skip(data: Seq<u8>, dir_off: int, i: int, n: int)
    requires
        0 <= i <= n,
        forall|j: int| 0 <= j < i ==> #[trigger] spec_record_ok(data, dir_off, j),
    ensures
        spec_dir_err(data, dir_off, 0, n) == spec_dir_err(data, dir_off, i, n),
    decreases i,
{
    if i > 0 {
        lemma_dir_err_skip(data, dir_off, i - 1, n);
        assert(spec_record_ok(data, dir_off, i - 1));
    }
}

/// Index of the first directory entry whose name equals `q`, if any.
pub open spec fn spec_find(entries: Seq<GBFSFileEntry>, q: Seq<u8>) -> Option<int>
    decreases entries.len(),
{
    if entries.len() == 0 {
        None
    } else if entries[0].name@ == q {
        Some(0)
    } else {
        match spec_find(entries.drop_first(), q) {
            Some(j) => Some(j + 1),
            None => None,
        }
    }
}

/// `spec_find` returns the index of the first entry named `q`, and
/// `None` exactly when no entry is named `q`.
pub proof fn lemma_find_spec(entries: Seq<GBFSFileEntry>, q: Seq<u8>)
    ensures
        match spec_find(entries, q) {
            Some(i) => 0 <= i < entries.len() && entries[i].name@ == q && forall|j: int|
                0 <= j < i ==> entries[j].name@ != q,
            None => forall|j: int| 0 <= j < entries.len() ==> entries[j].name@ != q,
        },
    decreases entries.len(),
{
    if entries.len() > 0 && entries[0].name@ != q {
        lemma_find_spec(entries.drop_first(), q);
        assert(forall|j: int|
            1 <= j < entries.len() ==> entries[j] == entries.drop_first()[j - 1]);
    }
}

/// The first match at `i` pins down `spec_find`.
proof fn lemma_find_is(entries: Seq<GBFSFileEntry>, q: Seq<u8>, i: int)
    requires
        0 <= i < entries.len(),
        entries[i].name@ == q,
        forall|j: int| 0 <= j < i ==> entries[j].name@ != q,
    ensures
        spec_find(entries, q) == Some(i),
{
    lemma_find_spec(entries, q);
    match spec_find(entries, q) {
        Some(k) => {
            if k < i {
                assert(entries[k].name@ != q);
            }
            if k > i {
                assert(entries[i].name@ != q);
            }
        },
        None => {
            assert(entries[i].name@ != q);
        },
    }
}

/// No match anywhere pins `spec_find` to `None`.
proof fn lemma_find_none(entries: Seq<GBFSFileEntry>, q: Seq<u8>)
    requires
        forall|j: int| 0 <= j < entries.len() ==> entries[j].name@ != q,
    ensures
        spec_find(entries, q) is None,
{
    lemma_find_spec(entries, q);
    if let Some(k) = spec_find(entries, q) {
        assert(entries[k].name@ != q);
    }
}

/// A filesystem that files can be read from.
#[derive(Debug, Clone)]
pub struct GBFSFilesystem<'a> {
    /// Backing data slice.
    data: &'a [u8],
    /// Filesystem header.
    hdr: GBFSHeader,
    /// Decoded directory.
    dir: Vec<GBFSFileEntry>,
}

impl<'a> GBFSFilesystem<'a> {
    /// The backing buffer.
    pub closed spec fn spec_data(&self) -> Seq<u8> {
        self.data@
    }

    /// The decoded directory entries, in directory order.
    pub closed spec fn entries(&self) -> Seq<GBFSFileEntry> {
        self.dir@
    }

    /// The filesystem is exactly the result of a successful parse of
    /// its backing buffer.
    pub closed spec fn wf(&self) -> bool {
        &&& spec_open_ok(self.data@)
        &&& self.hdr.total_len == spec_total_len(self.data@)
        &&& self.hdr.dir_off == spec_dir_off(self.data@)
        &&& self.hdr.dir_num_members == spec_entry_count(self.data@)
        &&& self.dir@.len() == spec_entry_count(self.data@)
        &&& forall|i: int|
            0 <= i < self.dir@.len() ==> spec_entry_matches(self.data@, i, #[trigger] self.dir@[i])
    }

    /// A well-formed filesystem holds one decoded entry per declared
    /// directory record, each matching the record's bytes.
    pub proof fn lemma_wf_entries(&self)
        requires
            self.wf(),
        ensures
            spec_open_ok(self.spec_data()),
            self.entries().len() == spec_entry_count(self.spec_data()),
            forall|i: int|
                0 <= i < self.entries().len() ==> spec_entry_matches(
                    self.spec_data(),
                    i,
                    #[trigger] self.entries()[i],
                ),
    {
    }

    /// Constructs a new filesystem from a GBFS-formatted byte slice.
    ///
    /// The single validating entry point: it checks the header, the
    /// declared entry count and every directory record, and never
    /// returns a partially constructed filesystem. The buffer is
    /// borrowed, never copied.
    pub fn from_slice(data: &'a [u8]) -> (r: Result<GBFSFilesystem<'a>, GBFSError>)
        ensures
            r is Ok <==> spec_open_ok(data@),
            r matches Ok(fs) ==> fs.wf() && fs.spec_data() == data@,
            r matches Err(e) ==> e == spec_open_err(data@),
    {
        if data.len() < GBFS_HEADER_LENGTH {
            return Err(GBFSError::HeaderInvalid);
        }
        let hdr = match GBFSHeader::from_slice(data) {
            Ok(h) => h,
            Err(e) => {
                return Err(e);
            },
        };

        let num = hdr.dir_num_members as usize;
        if num > NUM_FS_ENTRIES {
            return Err(GBFSError::TooManyEntries(NUM_FS_ENTRIES, num));
        }
        let dir_off = hdr.dir_off as usize;

        let mut dir: Vec<GBFSFileEntry> = Vec::new();
        let data_len = data.len();
        let mut i: usize = 0;
        while i < num
            invariant
                data_len == data@.len(),
                data@.len() >= GBFS_HEADER_LENGTH,
                spec_header_ok(data@),
                dir_off == spec_dir_off(data@),
                dir_off <= 0xffff,
                num == spec_entry_count(data@),
                num <= NUM_FS_ENTRIES,
                i <= num,
                dir@.len() == i,
                forall|j: int| 0 <= j < i ==> #[trigger] spec_record_ok(data@, dir_off as int, j),
                forall|j: int|
                    0 <= j < i ==> spec_entry_matches(data@, j, #[trigger] dir@[j]),
            decreases num - i,
        {
            let entry_start = dir_off + i * DIR_ENTRY_LEN;
            if data_len < DIR_ENTRY_LEN || entry_start > data_len - DIR_ENTRY_LEN {
                proof {
                    assert(!spec_record_in_bounds(data@, dir_off as int, i as int));
                    assert(!spec_record_ok(data@, spec_dir_off(data@), i as int));
                    assert(!spec_open_ok(data@));
                    lemma_dir_err_skip(data@, dir_off as int, i as int, num as int);
                    assert(spec_dir_err(data@, spec_dir_off(data@), i as int, num as int)
                        == GBFSError::Truncated);
                }
                return Err(GBFSError::Truncated);
            }

            // Extract the filename: the prefix of the 24-byte name field
            // up to the first NUL byte, which must be valid UTF-8.
            let mut name_len: usize = 0;
            while name_len < FILENAME_LEN && data[entry_start + name_len] != 0
                invariant
                    data_len == data@.len(),
                    entry_start + DIR_ENTRY_LEN <= data_len,
                    name_len <= FILENAME_LEN,
                    forall|k: int| 0 <= k < name_len ==> #[trigger] data@[entry_start + k] != 0,
                decreases FILENAME_LEN - name_len,
            {
                name_len += 1;
            }
            let ghost raw = spec_raw_name(data@, dir_off as int, i as int);
            proof {
                assert(forall|k: int| 0 <= k < FILENAME_LEN ==> raw[k] == data@[entry_start + k]);
                names::lemma_first_nul_is(raw, name_len as int);
            }
            let name_slice = &data[entry_start..entry_start + name_len];
            proof {
                assert(name_slice@ =~= spec_entry_name(data@, dir_off as int, i as int));
            }
            match validate_utf8(name_slice) {
                Ok(_) => {},
                Err(p) => {
                    proof {
                        assert(!valid_utf8(spec_entry_name(data@, spec_dir_off(data@), i as int)));
                        assert(!spec_record_ok(data@, spec_dir_off(data@), i as int));
                        assert(!spec_open_ok(data@));
                        lemma_dir_err_skip(data@, dir_off as int, i as int, num as int);
                        assert(spec_dir_err(data@, spec_dir_off(data@), i as int, num as int)
                            == GBFSError::Utf8Error(p));
                    }
                    return Err(GBFSError::Utf8Error(p));
                },
            }
            let name = Filename::from_bytes(name_slice);

            // Extract the length of the file in bytes.
            let len = le32(
                data[entry_start + 24],
                data[entry_start + 25],
                data[entry_start + 26],
                data[entry_start + 27],
            );

            // Extract the offset of the file data from the filesystem start.
            let data_offset = le32(
                data[entry_start + 28],
                data[entry_start + 29],
                data[entry_start + 30],
                data[entry_start + 31],
            );

            let entry = GBFSFileEntry { name, len, data_offset };
            proof {
                assert(spec_record_ok(data@, dir_off as int, i as int));
                assert(spec_entry_matches(data@, i as int, entry));
            }
            dir.push(entry);
            i += 1;
        }

        Ok(GBFSFilesystem { data, hdr, dir })
    }

    /// Gets file data by index in the directory table.
    ///
    /// Valid only for indices below the entry count. The payload slice
    /// is bounds-checked against the buffer even though the directory
    /// was validated at construction time, so an entry whose declared
    /// payload reaches past the end of the buffer yields `Truncated`
    /// rather than an out-of-bounds read.
    pub fn get_file_data_by_index(&self, index: usize) -> (r: Result<&'a [u8], GBFSError>)
        requires
            index < self.entries().len(),
        ensures
            ({
                let e = self.entries()[index as int];
                if e.data_offset + e.len <= self.spec_data().len() {
                    r matches Ok(d) && d@ == self.spec_data().subrange(
                        e.data_offset as int,
                        e.data_offset + e.len,
                    )
                } else {
                    r == Err::<&'a [u8], GBFSError>(GBFSError::Truncated)
                }
            }),
    {
        let e = self.dir[index];
        let data = self.data;
        let off = e.data_offset as usize;
        let len = e.len as usize;
        if off > data.len() || len > data.len() - off {
            return Err(GBFSError::Truncated);
        }
        Ok(&data[off..off + len])
    }

    /// Returns a reference to the file data as a slice of bytes.
    ///
    /// The directory is scanned in order and the first entry whose
    /// name equals the query is returned. Names longer than
    /// [`FILENAME_LEN`] bytes are rejected before the scan; a missing
    /// name is reported as `NoSuchFile` carrying the queried name.
    pub fn get_file_data_by_name(&self, str_name: &str) -> (r: Result<&'a [u8], GBFSError>)
        requires
            self.wf(),
        ensures
            encode_utf8(str_name@).len() > FILENAME_LEN ==> r == Err::<&'a [u8], GBFSError>(
                GBFSError::FilenameTooLong(FILENAME_LEN, encode_utf8(str_name@).len() as usize),
            ),
            encode_utf8(str_name@).len() <= FILENAME_LEN ==> match spec_find(
                self.entries(),
                encode_utf8(str_name@),
            ) {
                Some(i) => ({
                    let e = self.entries()[i];
                    if e.data_offset + e.len <= self.spec_data().len() {
                        r matches Ok(d) && d@ == self.spec_data().subrange(
                            e.data_offset as int,
                            e.data_offset + e.len,
                        )
                    } else {
                        r == Err::<&'a [u8], GBFSError>(GBFSError::Truncated)
                    }
                }),
                None => (r matches Err(err) && err matches GBFSError::NoSuchFile(f) && f@
                    == encode_utf8(str_name@) && f.wf()),
            },
    {
        let name_bytes: &[u8] = str_name.as_bytes();
        if name_bytes.len() > FILENAME_LEN {
            return Err(GBFSError::FilenameTooLong(FILENAME_LEN, name_bytes.len()));
        }

        let n = self.dir.len();
        let mut i: usize = 0;
        while i < n
            invariant
                self.wf(),
                n == self.entries().len(),
                i <= n,
                name_bytes@ == encode_utf8(str_name@),
                name_bytes@.len() <= FILENAME_LEN,
                forall|j: int| 0 <= j < i ==> self.entries()[j].name@ != name_bytes@,
            decreases n - i,
        {
            proof {
                assert(spec_entry_matches(self.data@, i as int, self.dir@[i as int]));
            }
            if self.dir[i].name.eq_bytes(name_bytes) {
                proof {
                    lemma_find_is(self.entries(), name_bytes@, i as int);
                }
                return self.get_file_data_by_index(i);
            }
            i += 1;
        }
        proof {
            lemma_find_none(self.entries(), name_bytes@);
        }
        Err(GBFSError::NoSuchFile(Filename::from_bytes(name_bytes)))
    }

    /// Returns the file data reinterpreted as big-endian `u16` values.
    ///
    /// An error is returned if the file does not exist, its length is
    /// not a multiple of 2, or the filename is longer than
    /// [`FILENAME_LEN`] bytes.
    pub fn get_file_data_by_name_as_u16_slice(&self, name: &str) -> (r: Result<
        Vec<u16>,
        GBFSError,
    >)
        requires
            self.wf(),
        ensures
            encode_utf8(name@).len() > FILENAME_LEN ==> r == Err::<Vec<u16>, GBFSError>(
                GBFSError::FilenameTooLong(FILENAME_LEN, encode_utf8(name@).len() as usize),
            ),
            encode_utf8(name@).len() <= FILENAME_LEN ==> match spec_find(
                self.entries(),
                encode_utf8(name@),
            ) {
                Some(i) => ({
                    let e = self.entries()[i];
                    if e.data_offset + e.len <= self.spec_data().len() {
                        if e.len % 2 == 0 {
                            r matches Ok(v) && v@ == file::spec_u16s_be(
                                self.spec_data().subrange(
                                    e.data_offset as int,
                                    e.data_offset + e.len,
                                ),
                            )
                        } else {
                            r == Err::<Vec<u16>, GBFSError>(GBFSError::Cast(2, e.len as usize))
                        }
                    } else {
                        r == Err::<Vec<u16>, GBFSError>(GBFSError::Truncated)
                    }
                }),
                None => (r matches Err(err) && err matches GBFSError::NoSuchFile(f) && f@
                    == encode_utf8(name@) && f.wf()),
            },
    {
        match self.get_file_data_by_name(name) {
            Ok(d) => file::bytes_to_u16_vec(d),
            Err(e) => Err(e),
        }
    }

    /// Returns the file data reinterpreted as big-endian `u32` values.
    ///
    /// An error is returned if the file does not exist, its length is
    /// not a multiple of 4, or the filename is longer than
    /// [`FILENAME_LEN`] bytes.
    pub fn get_file_data_by_name_as_u32_slice(&self, name: &str) -> (r: Result<
        Vec<u32>,
        GBFSError,
    >)
        requires
            self.wf(),
        ensures
            encode_utf8(name@).len() > FILENAME_LEN ==> r == Err::<Vec<u32>, GBFSError>(
                GBFSError::FilenameTooLong(FILENAME_LEN, encode_utf8(name@).len() as usize),
            ),
            encode_utf8(name@).len() <= FILENAME_LEN ==> match spec_find(
                self.entries(),
                encode_utf8(name@),
            ) {
                Some(i) => ({
                    let e = self.entries()[i];
                    if e.data_offset + e.len <= self.spec_data().len() {
                        if e.len % 4 == 0 {
                            r matches Ok(v) && v@ == file::spec_u32s_be(
                                self.spec_data().subrange(
                                    e.data_offset as int,
                                    e.data_offset + e.len,
                                ),
                            )
                        } else {
                            r == Err::<Vec<u32>, GBFSError>(GBFSError::Cast(4, e.len as usize))
                        }
                    } else {
                        r == Err::<Vec<u32>, GBFSError>(GBFSError::Truncated)
                    }
                }),
                None => (r matches Err(err) && err matches GBFSError::NoSuchFile(f) && f@
                    == encode_utf8(name@) && f.wf()),
            },
    {
        match self.get_file_data_by_name(name) {
            Ok(d) => file::bytes_to_u32_vec(d),
            Err(e) => Err(e),
        }
    }

    /// Begins an in-order traversal of the files of the filesystem.
    ///
    /// Every call yields a fresh iterator starting from the first entry.
    pub fn into_iter(self) -> (r: GBFSFilesystemIterator<'a>)
        ensures
            r.spec_fs() == self,
            r.spec_index() == 0,
    {
        GBFSFilesystemIterator { fs: self, next_file_index: 0 }
    }
}

/// Round trip: in a well-formed filesystem, an entry that is the first
/// of its name is the one a lookup of that name resolves to. Together
/// with the contract of [`GBFSFilesystem::get_file_data_by_name`],
/// looking up the entry's name returns exactly the buffer bytes from
/// `data_offset` to `data_offset + len` whenever they lie within the
/// buffer.
pub proof fn lemma_lookup_round_trip(fs: GBFSFilesystem, i: int)
    requires
        fs.wf(),
        0 <= i < fs.entries().len(),
        forall|j: int| 0 <= j < i ==> fs.entries()[j].name@ != fs.entries()[i].name@,
    ensures
        spec_find(fs.entries(), fs.entries()[i].name@) == Some(i),
        fs.entries()[i].name@ == spec_entry_name(
            fs.spec_data(),
            spec_dir_off(fs.spec_data()),
            i,
        ),
{
    lemma_find_is(fs.entries(), fs.entries()[i].name@, i);
    fs.lemma_wf_entries();
    assert(spec_entry_matches(fs.spec_data(), i, fs.entries()[i]));
}

/// Idempotence: two successful opens of the same buffer yield
/// directories with identical content and order.
pub proof fn lemma_open_idempotent(fs1: GBFSFilesystem, fs2: GBFSFilesystem)
    requires
        fs1.wf(),
        fs2.wf(),
        fs1.spec_data() == fs2.spec_data(),
    ensures
        fs1.entries() == fs2.entries(),
{
    let data = fs1.spec_data();
    assert forall|i: int| 0 <= i < fs1.entries().len() implies fs1.entries()[i]
        == fs2.entries()[i] by {
        let e1 = fs1.entries()[i];
        let e2 = fs2.entries()[i];
        assert(spec_entry_matches(data, i, e1));
        assert(spec_entry_matches(data, i, e2));
        lemma_filename_eq(e1.name, e2.name);
    }
    assert(fs1.entries() =~= fs2.entries());
}

/// Entry-count bound: an archive declaring more entries than the
/// supported capacity is rejected with `TooManyEntries`, never
/// silently truncated.
pub proof fn lemma_entry_count_bound(data: Seq<u8>)
    requires
        spec_header_ok(data),
        spec_entry_count(data) > NUM_FS_ENTRIES,
    ensures
        !spec_open_ok(data),
        spec_open_err(data) == GBFSError::TooManyEntries(
            NUM_FS_ENTRIES,
            spec_entry_count(data) as usize,
        ),
{
}

/// Magic and reserved enforcement: a buffer whose first 16 bytes
/// differ anywhere from the magic, or holding a nonzero reserved byte,
/// fails to open, with `HeaderInvalid`.
pub proof fn lemma_header_enforced(data: Seq<u8>, j: int)
    requires
        (0 <= j < 16 && j < data.len() && data[j] != spec_magic()[j]) || (24 <= j < 32 && j
            < data.len() && data[j] != 0),
    ensures
        !spec_open_ok(data),
        spec_open_err(data) == GBFSError::HeaderInvalid,
{
    assert(!spec_header_ok(data));
}

/// Returns the data of each file in the filesystem, in directory order.
pub struct GBFSFilesystemIterator<'a> {
    /// The filesystem being traversed.
    fs: GBFSFilesystem<'a>,
    /// Index of the next file to yield.
    next_file_index: usize,
}

impl<'a> GBFSFilesystemIterator<'a> {
    /// The filesystem being traversed.
    pub closed spec fn spec_fs(&self) -> GBFSFilesystem<'a> {
        self.fs
    }

    /// Index of the next file to yield.
    pub closed spec fn spec_index(&self) -> int {
        self.next_file_index as int
    }

    /// Yields the payload of the next file: `Some` exactly for the
    /// first `entry_count` calls, in directory order, then `None`. An
    /// entry whose payload reaches past the end of the buffer yields
    /// an error instead of being read out of bounds.
    pub fn next(&mut self) -> (r: Option<Result<&'a [u8], GBFSError>>)
        ensures
            final(self).spec_fs() == old(self).spec_fs(),
            ({
                let fs = old(self).spec_fs();
                let i = old(self).spec_index();
                if 0 <= i < fs.entries().len() {
                    ({
                        let e = fs.entries()[i];
                        &&& final(self).spec_index() == i + 1
                        &&& if e.data_offset + e.len <= fs.spec_data().len() {
                            r matches Some(d) && d matches Ok(b) && b@ == fs.spec_data().subrange(
                                e.data_offset as int,
                                e.data_offset + e.len,
                            )
                        } else {
                            r == Some(Err::<&'a [u8], GBFSError>(GBFSError::Truncated))
                        }
                    })
                } else {
                    r is None && final(self).spec_index() == i
                }
            }),
    {
        if self.next_file_index < self.fs.dir.len() {
            let item = self.fs.get_file_data_by_index(self.next_file_index);
            self.next_file_index += 1;
            Some(item)
        } else {
            None
        }
    }
}

} // verus!

