//! Filenames and file views handed out by the filesystem.

use vstd::prelude::*;

use crate::bytes::{be16, be32, spec_be16, spec_be32};
use crate::error::GBFSError;
use crate::FILENAME_LEN;
use vstd::utf8::{decode_utf8, encode_utf8, encode_utf8_decode_utf8, valid_utf8};

verus! {

broadcast use vstd::array::group_array_axioms;

/// Name of a GBFS file: a fixed-capacity byte buffer with explicit
/// length tracking. At most [`FILENAME_LEN`] bytes long.
#[derive(Debug, Copy, Clone, PartialEq)]
pub struct Filename {
    pub(crate) backing: [u8; FILENAME_LEN],
    pub(crate) len: usize,
}

impl View for Filename {
    type V = Seq<u8>;

    /// A filename is modelled as the sequence of its name bytes.
    closed spec fn view(&self) -> Seq<u8> {
        self.backing@.subrange(0, self.len as int)
    }
}

impl Filename {
    /// A filename is well formed when its length fits the backing buffer
    /// and every byte past the name is zero.
    pub closed spec fn wf(&self) -> bool {
        &&& self.len <= FILENAME_LEN
        &&& forall|i: int| self.len <= i < FILENAME_LEN ==> self.backing@[i] == 0
    }

    /// Builds a filename holding exactly the given bytes.
    pub fn from_bytes(bytes: &[u8]) -> (r: Filename)
        requires
            bytes@.len() <= FILENAME_LEN,
        ensures
            r.wf(),
            r@ == bytes@,
    {
        let mut backing: [u8; FILENAME_LEN] = [0; FILENAME_LEN];
        let n = bytes.len();
        let mut i: usize = 0;
        while i < n
            invariant
                n == bytes@.len() <= FILENAME_LEN,
                i <= n,
                backing@.len() == FILENAME_LEN,
                forall|j: int| 0 <= j < i ==> backing@[j] == bytes@[j],
                forall|j: int| i <= j < FILENAME_LEN ==> backing@[j] == 0,
            decreases n - i,
        {
            backing[i] = bytes[i];
            i += 1;
        }
        let r = Filename { backing, len: n };
        proof {
            assert(r@ =~= bytes@);
        }
        r
    }

    /// True when this filename's bytes equal the given byte string.
    pub fn eq_bytes(&self, other: &[u8]) -> (r: bool)
        requires
            self.wf(),
        ensures
            r == (self@ == other@),
    {
        if self.len != other.len() {
            return false;
        }
        let mut k: usize = 0;
        while k < self.len
            invariant
                self.wf(),
                self.len == other@.len(),
                k <= self.len,
                forall|j: int| 0 <= j < k ==> self@[j] == other@[j],
            decreases self.len - k,
        {
            if self.backing[k] != other[k] {
                return false;
            }
            k += 1;
        }
        proof {
            assert(self@ =~= other@);
        }
        true
    }

    /// Number of bytes in the name.
    pub fn len(&self) -> (r: usize)
        requires
            self.wf(),
        ensures
            r == self@.len(),
    {
        self.len
    }

    /// The name as a string.
    ///
    /// Names decoded from an archive are always valid UTF-8, as are
    /// names built from a string query.
    pub fn as_string(&self) -> (r: String)
        requires
            self.wf(),
            valid_utf8(self@),
        ensures
            r@ == decode_utf8(self@),
            encode_utf8(r@) == self@,
    {
        let mut name_bytes: Vec<u8> = Vec::new();
        let mut k: usize = 0;
        while k < self.len
            invariant
                self.wf(),
                k <= self.len,
                name_bytes@.len() == k,
                forall|j: int| 0 <= j < k ==> name_bytes@[j] == self@[j],
            decreases self.len - k,
        {
            name_bytes.push(self.backing[k]);
            k += 1;
        }
        proof {
            assert(name_bytes@ =~= self@);
        }
        let r = string_from_utf8(name_bytes);
        proof {
            encode_utf8_decode_utf8(r@);
        }
        r
    }
}

/// Relies on `alloc::string::String::from_utf8`: on bytes that are
/// valid UTF-8 it returns the string whose UTF-8 encoding is exactly
/// those bytes.
#[verifier::external_body]
fn string_from_utf8(utf8: Vec<u8>) -> (r: String)
    requires
        valid_utf8(utf8@),
    ensures
        encode_utf8(r@) == utf8@,
{
    match String::from_utf8(utf8) {
        Ok(s) => s,
        // Unreachable: the precondition admits only valid UTF-8.
        Err(_) => String::new(),
    }
}

/// Two well-formed filenames holding the same name bytes are equal.
pub proof fn lemma_filename_eq(a: Filename, b: Filename)
    requires
        a.wf(),
        b.wf(),
        a@ == b@,
    ensures
        a == b,
{
    assert(a@.len() == a.len && b@.len() == b.len);
    assert forall|k: int| 0 <= k < FILENAME_LEN implies a.backing@[k] == b.backing@[k] by {
        if k < a.len {
            assert(a.backing@[k] == a@[k]);
            assert(b.backing@[k] == b@[k]);
        }
    }
    assert(a.backing@ =~= b.backing@);
    assert(a.backing =~= b.backing);
}

/// Represents a file extracted from GBFS.
#[derive(Debug, Clone)]
pub struct File<'a> {
    /// Name of the file. At most [`FILENAME_LEN`] bytes in size.
    pub filename: Filename,
    /// Data contained in the file.
    pub data: &'a [u8],
}

/// The sequence of big-endian 16-bit values stored in the given bytes.
pub open spec fn spec_u16s_be(data: Seq<u8>) -> Seq<u16> {
    Seq::new((data.len() / 2) as nat, |i: int| spec_be16(data[2 * i], data[2 * i + 1]) as u16)
}

/// The sequence of big-endian 32-bit values stored in the given bytes.
pub open spec fn spec_u32s_be(data: Seq<u8>) -> Seq<u32> {
    Seq::new(
        (data.len() / 4) as nat,
        |i: int|
            spec_be32(data[4 * i], data[4 * i + 1], data[4 * i + 2], data[4 * i + 3]) as u32,
    )
}

/// Reinterprets a payload as big-endian `u16` values.
///
/// An error is returned if the length of the data is not a multiple
/// of 2.
pub(crate) fn bytes_to_u16_vec(data: &[u8]) -> (r: Result<Vec<u16>, GBFSError>)
    ensures
        data@.len() % 2 == 0 ==> (r matches Ok(v) && v@ == spec_u16s_be(data@)),
        data@.len() % 2 != 0 ==> r == Err::<Vec<u16>, GBFSError>(
            GBFSError::Cast(2, data@.len() as usize),
        ),
{
    let data_len = data.len();
    if data_len % 2 != 0 {
        return Err(GBFSError::Cast(2, data_len));
    }
    let n = data_len / 2;
    let mut out: Vec<u16> = Vec::new();
    let mut i: usize = 0;
    while i < n
        invariant
            data_len == data@.len(),
            data_len == 2 * n,
            i <= n,
            out@.len() == i,
            forall|j: int|
                0 <= j < i ==> out@[j] == spec_be16(data@[2 * j], data@[2 * j + 1]) as u16,
        decreases n - i,
    {
        out.push(be16(data[2 * i], data[2 * i + 1]));
        i += 1;
    }
    proof {
        assert(out@ =~= spec_u16s_be(data@));
    }
    Ok(out)
}

/// Reinterprets a payload as big-endian `u32` values.
///
/// An error is returned if the length of the data is not a multiple
/// of 4.
pub(crate) fn bytes_to_u32_vec(data: &[u8]) -> (r: Result<Vec<u32>, GBFSError>)
    ensures
        data@.len() % 4 == 0 ==> (r matches Ok(v) && v@ == spec_u32s_be(data@)),
        data@.len() % 4 != 0 ==> r == Err::<Vec<u32>, GBFSError>(
            GBFSError::Cast(4, data@.len() as usize),
        ),
{
    let data_len = data.len();
    if data_len % 4 != 0 {
        return Err(GBFSError::Cast(4, data_len));
    }
    let n = data_len / 4;
    let mut out: Vec<u32> = Vec::new();
    let mut i: usize = 0;
    while i < n
        invariant
            data_len == data@.len(),
            data_len == 4 * n,
            i <= n,
            out@.len() == i,
            forall|j: int|
                0 <= j < i ==> out@[j] == spec_be32(
                    data@[4 * j],
                    data@[4 * j + 1],
                    data@[4 * j + 2],
                    data@[4 * j + 3],
                ) as u32,
        decreases n - i,
    {
        out.push(be32(data[4 * i], data[4 * i + 1], data[4 * i + 2], data[4 * i + 3]));
        i += 1;
    }
    proof {
        assert(out@ =~= spec_u32s_be(data@));
    }
    Ok(out)
}

impl<'a> File<'a> {
    /// Converts the file data to a vector of `u16`s, read big-endian.
    ///
    /// An error is returned if the length of the data is not a multiple
    /// of 2.
    pub fn to_u16_vec(&self) -> (r: Result<Vec<u16>, GBFSError>)
        ensures
            self.data@.len() % 2 == 0 ==> (r matches Ok(v) && v@ == spec_u16s_be(self.data@)),
            self.data@.len() % 2 != 0 ==> r == Err::<Vec<u16>, GBFSError>(
                GBFSError::Cast(2, self.data@.len() as usize),
            ),
    {
        bytes_to_u16_vec(self.data)
    }

    /// Converts the file data to a vector of `u32`s, read big-endian.
    ///
    /// An error is returned if the length of the data is not a multiple
    /// of 4.
    pub fn to_u32_vec(&self) -> (r: Result<Vec<u32>, GBFSError>)
        ensures
            self.data@.len() % 4 == 0 ==> (r matches Ok(v) && v@ == spec_u32s_be(self.data@)),
            self.data@.len() % 4 != 0 ==> r == Err::<Vec<u32>, GBFSError>(
                GBFSError::Cast(4, self.data@.len() as usize),
            ),
    {
        bytes_to_u32_vec(self.data)
    }
}

} // verus!
