//! Error codes, their messages, and the error object.

use crate::consts::{
    ZIP_ET_LIBZIP, ZIP_ET_NONE, ZIP_ET_SYS, ZIP_ET_ZLIB,
};
use crate::text::{append_signed, decimal, signed_decimal};
use vstd::prelude::*;
use vstd::string::*;
use vstd::utf8::*;

verus! {

/// The message of an error code.
pub open spec fn err_msg(code: i32) -> Seq<char> {
    match code {
        0 => "No error"@,
        1 => "Multi-disk zip archives not supported"@,
        2 => "Renaming temporary file failed"@,
        3 => "Closing zip archive failed"@,
        4 => "Seek error"@,
        5 => "Read error"@,
        6 => "Write error"@,
        7 => "CRC error"@,
        8 => "Containing zip archive was closed"@,
        9 => "No such file"@,
        10 => "File already exists"@,
        11 => "Can't open file"@,
        12 => "Failure to create temporary file"@,
        13 => "Zlib error"@,
        14 => "Malloc failure"@,
        15 => "Entry has been changed"@,
        16 => "Compression method not supported"@,
        17 => "Premature end of file"@,
        18 => "Invalid argument"@,
        19 => "Not a zip archive"@,
        20 => "Internal error"@,
        21 => "Zip archive inconsistent"@,
        22 => "Can't remove file"@,
        23 => "Entry has been deleted"@,
        24 => "Encryption method not supported"@,
        25 => "Read-only archive"@,
        26 => "No password provided"@,
        27 => "Wrong password provided"@,
        28 => "Operation not supported"@,
        29 => "Resource still in use"@,
        30 => "Tell error"@,
        31 => "Compressed data invalid"@,
        32 => "Operation cancelled"@,
        33 => "Unexpected length of data"@,
        34 => "Not allowed in torrentzip"@,
        35 => "Possibly truncated or corrupted zip archive"@,
        36 => "Extra fields too large"@,
        37 => "Decompressed data exceeds the size limit"@,
        38 => "Central directory too large"@,
        _ => "Internal error"@,
    }
}

/// The message of an error code. Codes without a message of their own are
/// internal errors.
pub fn err_str(code: i32) -> (r: &'static str)
    ensures
        r@ == err_msg(code),
{
    match code {
        0 => "No error",
        1 => "Multi-disk zip archives not supported",
        2 => "Renaming temporary file failed",
        3 => "Closing zip archive failed",
        4 => "Seek error",
        5 => "Read error",
        6 => "Write error",
        7 => "CRC error",
        8 => "Containing zip archive was closed",
        9 => "No such file",
        10 => "File already exists",
        11 => "Can't open file",
        12 => "Failure to create temporary file",
        13 => "Zlib error",
        14 => "Malloc failure",
        15 => "Entry has been changed",
        16 => "Compression method not supported",
        17 => "Premature end of file",
        18 => "Invalid argument",
        19 => "Not a zip archive",
        20 => "Internal error",
        21 => "Zip archive inconsistent",
        22 => "Can't remove file",
        23 => "Entry has been deleted",
        24 => "Encryption method not supported",
        25 => "Read-only archive",
        26 => "No password provided",
        27 => "Wrong password provided",
        28 => "Operation not supported",
        29 => "Resource still in use",
        30 => "Tell error",
        31 => "Compressed data invalid",
        32 => "Operation cancelled",
        33 => "Unexpected length of data",
        34 => "Not allowed in torrentzip",
        35 => "Possibly truncated or corrupted zip archive",
        36 => "Extra fields too large",
        37 => "Decompressed data exceeds the size limit",
        38 => "Central directory too large",
        _ => "Internal error",
    }
}

/// Every message is ASCII text of at most 43 characters.
pub proof fn lemma_err_msg_ascii(code: i32)
    ensures
        is_ascii_chars(err_msg(code)),
        0 < err_msg(code).len() <= 43,
{
    reveal_strlit("No error");
    reveal_strlit("Multi-disk zip archives not supported");
    reveal_strlit("Renaming temporary file failed");
    reveal_strlit("Closing zip archive failed");
    reveal_strlit("Seek error");
    reveal_strlit("Read error");
    reveal_strlit("Write error");
    reveal_strlit("CRC error");
    reveal_strlit("Containing zip archive was closed");
    reveal_strlit("No such file");
    reveal_strlit("File already exists");
    reveal_strlit("Can't open file");
    reveal_strlit("Failure to create temporary file");
    reveal_strlit("Zlib error");
    reveal_strlit("Malloc failure");
    reveal_strlit("Entry has been changed");
    reveal_strlit("Compression method not supported");
    reveal_strlit("Premature end of file");
    reveal_strlit("Invalid argument");
    reveal_strlit("Not a zip archive");
    reveal_strlit("Internal error");
    reveal_strlit("Zip archive inconsistent");
    reveal_strlit("Can't remove file");
    reveal_strlit("Entry has been deleted");
    reveal_strlit("Encryption method not supported");
    reveal_strlit("Read-only archive");
    reveal_strlit("No password provided");
    reveal_strlit("Wrong password provided");
    reveal_strlit("Operation not supported");
    reveal_strlit("Resource still in use");
    reveal_strlit("Tell error");
    reveal_strlit("Compressed data invalid");
    reveal_strlit("Operation cancelled");
    reveal_strlit("Unexpected length of data");
    reveal_strlit("Not allowed in torrentzip");
    reveal_strlit("Possibly truncated or corrupted zip archive");
    reveal_strlit("Extra fields too large");
    reveal_strlit("Decompressed data exceeds the size limit");
    reveal_strlit("Central directory too large");
}

/// The message of an error code as a NUL-terminated byte string.
pub fn err_cstr(code: i32) -> (r: Vec<u8>)
    ensures
        r@ == encode_utf8(err_msg(code)).push(0),
{
    let mut bytes = err_str(code).as_bytes_vec();
    bytes.push(0);
    bytes
}

/// An error object: a library error code, a system error code, and the message
/// once one has been attached.
#[derive(Clone, Copy, Debug)]
pub struct zip_error {
    pub zip_err: i32,
    pub sys_err: i32,
    pub str: Option<&'static str>,
}

/// What an error object says.
pub ghost struct ErrorView {
    pub zip_err: i32,
    pub sys_err: i32,
    pub str: Option<Seq<char>>,
}

impl View for zip_error {
    type V = ErrorView;

    open spec fn view(&self) -> ErrorView {
        ErrorView {
            zip_err: self.zip_err,
            sys_err: self.sys_err,
            str: match self.str {
                Some(s) => Some(s@),
                None => None,
            },
        }
    }
}

/// The error object without an error and without a message.
pub open spec fn no_error() -> ErrorView {
    ErrorView { zip_err: 0, sys_err: 0, str: None }
}

/// The error object that carries `code`, `sys` and the message of `code`.
pub open spec fn error_of(code: i32, sys: i32) -> ErrorView {
    ErrorView { zip_err: code, sys_err: sys, str: Some(err_msg(code)) }
}

/// A pair of error codes, as it is handed out by the ERROR command.
#[derive(Clone, Copy, Debug, PartialEq, Eq, Structural)]
pub struct ErrorPair {
    pub zip_err: i32,
    pub sys_err: i32,
}

impl zip_error {
    /// An error object without an error.
    pub fn new() -> (r: zip_error)
        ensures
            r@ == no_error(),
    {
        zip_error { zip_err: 0, sys_err: 0, str: None }
    }

    /// Records an error with its message.
    pub fn record(&mut self, code: i32, sys: i32)
        ensures
            final(self)@ == error_of(code, sys),
    {
        self.zip_err = code;
        self.sys_err = sys;
        self.str = Some(err_str(code));
    }
}

/// Writes an error with its message into the object, if there is one.
pub fn set_zip_error(err: Option<&mut zip_error>, code: i32, sys: i32)
    ensures
        err matches Some(e) ==> final(e)@ == error_of(code, sys),
{
    if let Some(e) = err {
        e.record(code, sys);
    }
}

/// Resets a caller's error object to "no error", without a message.
pub fn zip_error_init(ze: Option<&mut zip_error>)
    ensures
        ze matches Some(e) ==> final(e)@ == no_error(),
{
    if let Some(e) = ze {
        *e = zip_error::new();
    }
}

/// Sets a caller's error object to an error code, with its message and without
/// a system error.
pub fn zip_error_init_with_code(ze: Option<&mut zip_error>, code: i32)
    ensures
        ze matches Some(e) ==> final(e)@ == error_of(code, 0),
{
    set_zip_error(ze, code, 0);
}

/// Sets both codes of a caller's error object, with the message of the first.
pub fn zip_error_set(ze: Option<&mut zip_error>, zip_err: i32, sys_err: i32)
    ensures
        ze matches Some(e) ==> final(e)@ == error_of(zip_err, sys_err),
{
    set_zip_error(ze, zip_err, sys_err);
}

/// The message of an error object; attaches the message of its code first if
/// it has none. `None` without an object.
pub fn zip_error_strerror(ze: Option<&mut zip_error>) -> (r: Option<&'static str>)
    ensures
        ze is None ==> r is None,
        ze matches Some(e) ==> {
            &&& r is Some
            &&& final(e)@.str == Some(r->0@)
            &&& final(e)@.zip_err == e.zip_err
            &&& final(e)@.sys_err == e.sys_err
            &&& r->0@ == (match e@.str {
                Some(s) => s,
                None => err_msg(e.zip_err),
            })
        },
{
    match ze {
        None => None,
        Some(e) => {
            if e.str.is_none() {
                e.str = Some(err_str(e.zip_err));
            }
            e.str
        },
    }
}

/// The library error code, or -1 without an object.
pub fn zip_error_code_zip(ze: Option<&zip_error>) -> (r: i32)
    ensures
        r == (match ze {
            Some(e) => e.zip_err as int,
            None => -1,
        }),
{
    match ze {
        Some(e) => e.zip_err,
        None => -1,
    }
}

/// The system error code, or -1 without an object.
pub fn zip_error_code_system(ze: Option<&zip_error>) -> (r: i32)
    ensures
        r == (match ze {
            Some(e) => e.sys_err as int,
            None => -1,
        }),
{
    match ze {
        Some(e) => e.sys_err,
        None => -1,
    }
}

/// Releases the message of a caller's error object and resets its codes.
pub fn zip_error_fini(ze: Option<&mut zip_error>)
    ensures
        ze matches Some(e) ==> final(e)@ == no_error(),
{
    zip_error_init(ze);
}

/// The text of a pair of codes: the message, with the system error behind a
/// colon where there is one.
pub open spec fn error_text(ze: i32, se: i32) -> Seq<char> {
    if se != 0 {
        err_msg(ze) + ": "@ + signed_decimal(se as int)
    } else {
        err_msg(ze)
    }
}

/// The text of a pair of codes.
pub fn error_string(ze: i32, se: i32) -> (r: String)
    ensures
        r@ == error_text(ze, se),
{
    let mut s = String::from_str(err_str(ze));
    if se != 0 {
        s.append(": ");
        append_signed(&mut s, se as i64);
    }
    s
}

/// The number of bytes of `text` that fit into a buffer of `len` bytes before
/// the closing NUL.
pub open spec fn fitting(text: Seq<u8>, len: u64) -> int {
    let room = if len == 0 { 0int } else { len - 1 };
    if text.len() < room { text.len() as int } else { room }
}

proof fn lemma_decimal_ascii(n: nat, bound: nat, width: nat)
    requires
        n < bound,
        (bound == 10 && width == 1) || (bound == 100 && width == 2) || (bound == 1000 && width == 3)
            || (bound == 10000 && width == 4) || (bound == 100000 && width == 5) || (bound == 1000000
            && width == 6) || (bound == 10000000 && width == 7) || (bound == 100000000 && width == 8)
            || (bound == 1000000000 && width == 9) || (bound == 10000000000 && width == 10),
    ensures
        is_ascii_chars(decimal(n)),
        decimal(n).len() <= width,
    decreases width,
{
    if n >= 10 {
        lemma_decimal_ascii(n / 10, bound / 10, (width - 1) as nat);
    }
}

/// The text of a pair of codes is ASCII and has at most 56 characters.
pub proof fn lemma_error_text_ascii(ze: i32, se: i32)
    ensures
        is_ascii_chars(error_text(ze, se)),
        error_text(ze, se).len() <= 56,
        encode_utf8(error_text(ze, se)).len() == error_text(ze, se).len(),
{
    lemma_err_msg_ascii(ze);
    reveal_strlit(": ");
    let n: nat = if se < 0 { (-(se as int)) as nat } else { se as nat };
    lemma_decimal_ascii(n, 10000000000, 10);
    is_ascii_chars_encode_utf8(error_text(ze, se));
}

/// Formats a pair of codes into the first `len` bytes of `buf`, cut to what fits
/// and closed by a NUL; without room for the NUL nothing is written. Gives the
/// number of bytes before the NUL, or -1 without a buffer.
pub fn zip_error_to_str(buf: Option<&mut Vec<u8>>, len: u64, ze: i32, se: i32) -> (r: i32)
    requires
        buf matches Some(b) ==> b@.len() >= len,
    ensures
        buf is None ==> r == -1,
        buf matches Some(b) ==> {
            let text = encode_utf8(error_text(ze, se));
            let n = fitting(text, len);
            &&& r == n
            &&& final(b)@ == (if len == 0 {
                b@
            } else {
                text.take(n).push(0) + b@.skip(n + 1)
            })
        },
{
    match buf {
        None => -1,
        Some(b) => {
            if len == 0 {
                return 0;
            }
            let s = error_string(ze, se);
            let bytes = s.as_str().as_bytes_vec();
            proof {
                lemma_error_text_ascii(ze, se);
            }
            let room: u64 = len - 1;
            let n: usize = if (bytes.len() as u64) < room { bytes.len() } else { room as usize };
            let ghost before = b@;
            let mut i: usize = 0;
            while i < n
                invariant
                    i <= n,
                    n <= bytes@.len(),
                    n < b@.len(),
                    b@.len() == before.len(),
                    b@ == bytes@.take(i as int) + before.skip(i as int),
                decreases n - i,
            {
                b[i] = bytes[i];
                i += 1;
                assert(b@ =~= bytes@.take(i as int) + before.skip(i as int));
            }
            b[n] = 0;
            assert(b@ =~= bytes@.take(n as int).push(0) + before.skip(n + 1));
            n as i32
        },
    }
}

/// Stores the two codes of an error object. Gives the number of bytes stored,
/// or -1 if the object or the destination is missing or `length` is too short.
pub fn zip_error_to_data(ze: Option<&zip_error>, data: Option<&mut ErrorPair>, length: u64) -> (r:
    i64)
    ensures
        r == (if ze is None || data is None || length < 8 { -1int } else { 8 }),
        data matches Some(d) ==> *final(d) == (if ze is None || length < 8 {
            *d
        } else {
            ErrorPair { zip_err: ze->0.zip_err, sys_err: ze->0.sys_err }
        }),
{
    match (ze, data) {
        (Some(e), Some(d)) => {
            if length < 8 {
                return -1;
            }
            d.zip_err = e.zip_err;
            d.sys_err = e.sys_err;
            8
        },
        _ => -1,
    }
}

/// The kind of system error that an error object carries: `ZIP_ET_SYS` where
/// its system code is not zero, `ZIP_ET_NONE` where it is, -1 without an object.
pub fn zip_error_system_type(ze: Option<&zip_error>) -> (r: i32)
    ensures
        r == (match ze {
            Some(e) => if e.sys_err != 0 { ZIP_ET_SYS as int } else { ZIP_ET_NONE as int },
            None => -1,
        }),
{
    match ze {
        Some(e) => if e.sys_err != 0 { ZIP_ET_SYS } else { ZIP_ET_NONE },
        None => -1,
    }
}

/// Codes whose system error is an `errno` value: renaming, closing, seeking,
/// reading, writing, opening, creating, removing and telling.
pub open spec fn is_system_code(ze: i32) -> bool {
    2 <= ze <= 6 || ze == 11 || ze == 12 || ze == 22 || ze == 30
}

/// The kind of system error that belongs to a library error code.
pub fn zip_error_get_sys_type(ze: i32) -> (r: i32)
    ensures
        r == (if is_system_code(ze) {
            ZIP_ET_SYS
        } else if ze == 13 {
            ZIP_ET_ZLIB
        } else if ze == 21 {
            ZIP_ET_LIBZIP
        } else {
            ZIP_ET_NONE
        }),
{
    match ze {
        2 | 3 | 4 | 5 | 6 | 11 | 12 | 22 | 30 => ZIP_ET_SYS,
        13 => ZIP_ET_ZLIB,
        21 => ZIP_ET_LIBZIP,
        _ => ZIP_ET_NONE,
    }
}

} // verus!
