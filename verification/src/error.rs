//! Error conditions reported when working with GBFS archives.

use vstd::prelude::*;

use crate::file::Filename;
use vstd::string::StringExecFns;
use vstd::utf8::{decode_utf8, valid_utf8};

verus! {

/// The character for a single decimal digit.
pub open spec fn spec_digit(d: int) -> char
    recommends
        0 <= d <= 9,
{
    if d == 0 {
        '0'
    } else if d == 1 {
        '1'
    } else if d == 2 {
        '2'
    } else if d == 3 {
        '3'
    } else if d == 4 {
        '4'
    } else if d == 5 {
        '5'
    } else if d == 6 {
        '6'
    } else if d == 7 {
        '7'
    } else if d == 8 {
        '8'
    } else {
        '9'
    }
}

/// The decimal digits of `n`, most significant first.
pub open spec fn spec_decimal(n: int) -> Seq<char>
    recommends
        n >= 0,
    decreases n,
    when n >= 0
{
    if n <= 9 {
        seq![spec_digit(n)]
    } else {
        spec_decimal(n / 10) + seq![spec_digit(n % 10)]
    }
}

/// The one-character string for a single decimal digit.
fn digit_str(d: u8) -> (r: &'static str)
    requires
        d <= 9,
    ensures
        r@ == seq![spec_digit(d as int)],
{
    proof {
        reveal_strlit("0");
        reveal_strlit("1");
        reveal_strlit("2");
        reveal_strlit("3");
        reveal_strlit("4");
        reveal_strlit("5");
        reveal_strlit("6");
        reveal_strlit("7");
        reveal_strlit("8");
        reveal_strlit("9");
    }
    let r = match d {
        0 => "0",
        1 => "1",
        2 => "2",
        3 => "3",
        4 => "4",
        5 => "5",
        6 => "6",
        7 => "7",
        8 => "8",
        _ => "9",
    };
    proof {
        assert(r@ =~= seq![spec_digit(d as int)]);
    }
    r
}

/// Writes `n` in decimal.
fn decimal_string(n: usize) -> (r: String)
    ensures
        r@ == spec_decimal(n as int),
    decreases n,
{
    if n <= 9 {
        String::from_str(digit_str(n as u8))
    } else {
        let mut r = decimal_string(n / 10);
        r.append(digit_str((n % 10) as u8));
        proof {
            assert(r@ =~= spec_decimal(n as int));
        }
        r
    }
}

/// Various error conditions that can occur when working with GBFS archives.
///
/// Parsing and lookup fail closed: every malformed input is reported
/// through one of these variants, and no operation ever panics or
/// reads outside the archive buffer.
#[derive(Debug, Clone, PartialEq)]
pub enum GBFSError {
    /// The archive's header is not valid: the buffer is shorter than a
    /// header, the magic bytes are wrong, or a reserved byte is not zero.
    HeaderInvalid,
    /// A name longer than the supported maximum was supplied by the
    /// caller. Carries the maximum supported length and the actual length.
    FilenameTooLong(usize, usize),
    /// A filename embedded in the archive is not valid UTF-8. Carries the
    /// byte offset, within the name field, of the first invalid sequence.
    Utf8Error(usize),
    /// A file's payload cannot be reinterpreted as a sequence of wider
    /// integers because its length is not a multiple of the element size.
    /// Carries the element size in bytes and the payload length.
    Cast(usize, usize),
    /// No file with the given name exists. Carries the queried name.
    NoSuchFile(Filename),
    /// The buffer is shorter than the directory claims, or a file's
    /// payload would extend past the end of the buffer.
    Truncated,
    /// The archive declares more directory entries than the supported
    /// capacity. Carries the capacity and the declared entry count.
    TooManyEntries(usize, usize),
}

/// The descriptive message reported for each error.
pub open spec fn spec_message(e: GBFSError) -> Seq<char> {
    match e {
        GBFSError::HeaderInvalid => "Encountered invalid header"@,
        GBFSError::FilenameTooLong(expected, actual) => "Encountered filename of invalid length: at most "@
            + spec_decimal(expected as int) + " bytes are supported, but got "@ + spec_decimal(
            actual as int,
        ),
        GBFSError::Utf8Error(pos) => "Encountered filename that's not valid UTF-8 starting at position "@
            + spec_decimal(pos as int) + " in filename"@,
        GBFSError::Cast(size, len) => "Failed to cast from u8 slice: payload length "@
            + spec_decimal(len as int) + " is not a multiple of "@ + spec_decimal(size as int),
        GBFSError::NoSuchFile(name) => "File \""@ + decode_utf8(name@)
            + "\" does not exist in filesystem"@,
        GBFSError::Truncated => "Encountered truncated file entry"@,
        GBFSError::TooManyEntries(expected, actual) => "Encountered archive with too many entries: at most "@
            + spec_decimal(expected as int) + " entries are supported, but got "@ + spec_decimal(
            actual as int,
        ),
    }
}

impl GBFSError {
    /// A human-readable description of the error.
    ///
    /// The name carried by `NoSuchFile` is one the library handed out,
    /// so it is well formed and valid UTF-8.
    pub fn message(&self) -> (r: String)
        requires
            self matches GBFSError::NoSuchFile(f) ==> f.wf() && valid_utf8(f@),
        ensures
            r@ == spec_message(*self),
    {
        match self {
            GBFSError::HeaderInvalid => String::from_str("Encountered invalid header"),
            GBFSError::FilenameTooLong(expected, actual) => {
                let mut r = String::from_str("Encountered filename of invalid length: at most ");
                let d0 = decimal_string(*expected);
                r.append(d0.as_str());
                r.append(" bytes are supported, but got ");
                let d1 = decimal_string(*actual);
                r.append(d1.as_str());
                proof {
                    assert(r@ =~= spec_message(*self));
                }
                r
            },
            GBFSError::Utf8Error(pos) => {
                let mut r = String::from_str(
                    "Encountered filename that's not valid UTF-8 starting at position ",
                );
                let d0 = decimal_string(*pos);
                r.append(d0.as_str());
                r.append(" in filename");
                proof {
                    assert(r@ =~= spec_message(*self));
                }
                r
            },
            GBFSError::Cast(size, len) => {
                let mut r = String::from_str("Failed to cast from u8 slice: payload length ");
                let d0 = decimal_string(*len);
                r.append(d0.as_str());
                r.append(" is not a multiple of ");
                let d1 = decimal_string(*size);
                r.append(d1.as_str());
                proof {
                    assert(r@ =~= spec_message(*self));
                }
                r
            },
            GBFSError::NoSuchFile(name) => {
                let mut r = String::from_str("File \"");
                let s = name.as_string();
                r.append(s.as_str());
                r.append("\" does not exist in filesystem");
                proof {
                    assert(r@ =~= spec_message(*self));
                }
                r
            },
            GBFSError::Truncated => String::from_str("Encountered truncated file entry"),
            GBFSError::TooManyEntries(expected, actual) => {
                let mut r = String::from_str(
                    "Encountered archive with too many entries: at most ",
                );
                let d0 = decimal_string(*expected);
                r.append(d0.as_str());
                r.append(" entries are supported, but got ");
                let d1 = decimal_string(*actual);
                r.append(d1.as_str());
                proof {
                    assert(r@ =~= spec_message(*self));
                }
                r
            },
        }
    }
}

} // verus!
