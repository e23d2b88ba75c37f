//! Validation and decoding of the fixed 32-byte archive header.

use vstd::prelude::*;

use crate::bytes::{le16, le32, spec_le16, spec_le32};
use crate::error::GBFSError;

verus! {

/// Length in bytes of the fixed archive header.
pub const GBFS_HEADER_LENGTH: usize = 32;

/// The fixed magic bytes identifying a GBFS archive: the ASCII text
/// `PinEightGBFS` followed by `\r`, `\n`, `0x1a`, `\n`.
pub open spec fn spec_magic() -> Seq<u8> {
    seq![
        0x50u8,
        0x69u8,
        0x6eu8,
        0x45u8,
        0x69u8,
        0x67u8,
        0x68u8,
        0x74u8,
        0x47u8,
        0x42u8,
        0x46u8,
        0x53u8,
        0x0du8,
        0x0au8,
        0x1au8,
        0x0au8,
    ]
}

/// True when the first 16 bytes of the buffer are the magic.
pub open spec fn spec_magic_ok(data: Seq<u8>) -> bool
    recommends
        data.len() >= GBFS_HEADER_LENGTH,
{
    forall|i: int| 0 <= i < 16 ==> data[i] == spec_magic()[i]
}

/// True when the reserved bytes 24 to 31 of the buffer are all zero.
pub open spec fn spec_reserved_ok(data: Seq<u8>) -> bool
    recommends
        data.len() >= GBFS_HEADER_LENGTH,
{
    forall|i: int| 24 <= i < 32 ==> data[i] == 0
}

/// True when the buffer is long enough to hold a header whose magic and
/// reserved bytes are valid.
pub open spec fn spec_header_ok(data: Seq<u8>) -> bool {
    &&& data.len() >= GBFS_HEADER_LENGTH
    &&& spec_magic_ok(data)
    &&& spec_reserved_ok(data)
}

/// The declared total length of the archive: bytes 16 to 19, little-endian.
pub open spec fn spec_total_len(data: Seq<u8>) -> int
    recommends
        data.len() >= GBFS_HEADER_LENGTH,
{
    spec_le32(data[16], data[17], data[18], data[19])
}

/// The declared directory offset: bytes 20 and 21, little-endian.
pub open spec fn spec_dir_off(data: Seq<u8>) -> int
    recommends
        data.len() >= GBFS_HEADER_LENGTH,
{
    spec_le16(data[20], data[21])
}

/// The declared number of directory entries: bytes 22 and 23, little-endian.
pub open spec fn spec_entry_count(data: Seq<u8>) -> int
    recommends
        data.len() >= GBFS_HEADER_LENGTH,
{
    spec_le16(data[22], data[23])
}

/// The decoded archive header.
#[derive(Debug, Clone)]
pub(crate) struct GBFSHeader {
    /// Total length of the archive as declared by the header.
    pub(crate) total_len: u32,
    /// Offset in bytes to the directory.
    pub(crate) dir_off: u16,
    /// Number of files.
    pub(crate) dir_num_members: u16,
}

/// The byte of the magic at the given position.
fn magic_byte(i: usize) -> (r: u8)
    requires
        i < 16,
    ensures
        r == spec_magic()[i as int],
{
    let magic: [u8; 16] = [
        0x50, 0x69, 0x6e, 0x45, 0x69, 0x67, 0x68, 0x74, 0x47, 0x42, 0x46, 0x53, 0x0d, 0x0a, 0x1a,
        0x0a,
    ];
    magic[i]
}

impl GBFSHeader {
    /// Validates the magic and reserved bytes at the start of the buffer
    /// and decodes the header fields. A pure function of the first 32
    /// bytes of the buffer.
    pub(crate) fn from_slice(data: &[u8]) -> (r: Result<GBFSHeader, GBFSError>)
        requires
            data@.len() >= GBFS_HEADER_LENGTH,
        ensures
            spec_header_ok(data@) ==> (r matches Ok(h) && h.total_len == spec_total_len(data@)
                && h.dir_off == spec_dir_off(data@) && h.dir_num_members == spec_entry_count(
                data@,
            )),
            !spec_header_ok(data@) ==> r == Err::<GBFSHeader, GBFSError>(GBFSError::HeaderInvalid),
    {
        // Ensure the magic is correct by checking byte for byte.
        let mut i: usize = 0;
        while i < 16
            invariant
                i <= 16,
                data@.len() >= GBFS_HEADER_LENGTH,
                forall|j: int| 0 <= j < i ==> data@[j] == spec_magic()[j],
            decreases 16 - i,
        {
            if data[i] != magic_byte(i) {
                return Err(GBFSError::HeaderInvalid);
            }
            i += 1;
        }

        // Read total length of archive.
        let total_len = le32(data[16], data[17], data[18], data[19]);
        // Read offset in bytes to directory.
        let dir_off = le16(data[20], data[21]);
        // Read number of files in directory.
        let dir_num_members = le16(data[22], data[23]);

        // Ensure the reserved bytes are unused; otherwise, we may be
        // looking at a newer, unknown version of the format.
        let mut i: usize = 24;
        while i < 32
            invariant
                24 <= i <= 32,
                data@.len() >= GBFS_HEADER_LENGTH,
                forall|j: int| 24 <= j < i ==> data@[j] == 0,
            decreases 32 - i,
        {
            if data[i] != 0 {
                return Err(GBFSError::HeaderInvalid);
            }
            i += 1;
        }

        Ok(GBFSHeader { total_len, dir_off, dir_num_members })
    }
}

} // verus!
