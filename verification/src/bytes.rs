//! Little-endian and big-endian integer decoding from raw bytes.
//!
//! The archive header and directory store their integer fields
//! little-endian; payload reinterpretation as wider integers is
//! big-endian. Both directions are specified here as plain arithmetic
//! over the individual bytes.

use vstd::prelude::*;

verus! {

/// Value of two bytes read as a little-endian integer.
pub open spec fn spec_le16(b0: u8, b1: u8) -> int {
    b0 + 0x100 * b1
}

/// Value of four bytes read as a little-endian integer.
pub open spec fn spec_le32(b0: u8, b1: u8, b2: u8, b3: u8) -> int {
    b0 + 0x100 * b1 + 0x1_0000 * b2 + 0x100_0000 * b3
}

/// Value of two bytes read as a big-endian integer.
pub open spec fn spec_be16(b0: u8, b1: u8) -> int {
    0x100 * b0 + b1
}

/// Value of four bytes read as a big-endian integer.
pub open spec fn spec_be32(b0: u8, b1: u8, b2: u8, b3: u8) -> int {
    0x100_0000 * b0 + 0x1_0000 * b1 + 0x100 * b2 + b3
}

/// Decodes a little-endian `u16` from two bytes.
pub fn le16(b0: u8, b1: u8) -> (r: u16)
    ensures
        r == spec_le16(b0, b1),
{
    b0 as u16 + 0x100 * (b1 as u16)
}

/// Decodes a little-endian `u32` from four bytes.
pub fn le32(b0: u8, b1: u8, b2: u8, b3: u8) -> (r: u32)
    ensures
        r == spec_le32(b0, b1, b2, b3),
{
    b0 as u32 + 0x100 * (b1 as u32) + 0x1_0000 * (b2 as u32) + 0x100_0000 * (b3 as u32)
}

/// Decodes a big-endian `u16` from two bytes.
pub fn be16(b0: u8, b1: u8) -> (r: u16)
    ensures
        r == spec_be16(b0, b1),
{
    0x100 * (b0 as u16) + b1 as u16
}

/// Decodes a big-endian `u32` from four bytes.
pub fn be32(b0: u8, b1: u8, b2: u8, b3: u8) -> (r: u32)
    ensures
        r == spec_be32(b0, b1, b2, b3),
{
    0x100_0000 * (b0 as u32) + 0x1_0000 * (b1 as u32) + 0x100 * (b2 as u32) + b3 as u32
}

} // verus!
