//! A filesystem over a buffer that lives for the whole program.
//!
//! Useful for assets embedded in the binary: the files handed out all
//! have the `'static` lifetime, so no lifetime management is needed at
//! the call sites.

use vstd::prelude::*;

use crate::{spec_open_ok, GBFSFilesystem};

verus! {

/// Creates a filesystem from a `'static` GBFS-formatted byte slice.
///
/// The caller must supply an archive that parses cleanly: on a buffer
/// where [`GBFSFilesystem::from_slice`] would report an error this
/// constructor may not be called.
pub fn const_fs(data: &'static [u8]) -> (fs: GBFSFilesystem<'static>)
    requires
        spec_open_ok(data@),
    ensures
        fs.wf(),
        fs.spec_data() == data@,
{
    match GBFSFilesystem::from_slice(data) {
        Ok(fs) => fs,
        Err(_) => vstd::pervasive::unreached(),
    }
}

} // verus!
