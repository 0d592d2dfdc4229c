//! Opening archives: from a path, from a source, and from a file descriptor.
//!
//! The file system and the archive engine are reached through functions that
//! the caller hands in.

use crate::archive::{make_zip, opened, Archive, Zip};
use crate::consts::{
    MAX_OPEN_FILE_SIZE, ZIP_CHECKCONS, ZIP_CREATE, ZIP_ER_INTERNAL, ZIP_ER_INVAL, ZIP_ER_MEMORY,
    ZIP_ER_OPEN, ZIP_ER_READ, ZIP_RDONLY, ZIP_TRUNCATE,
};
use crate::edit::{check_name, is_name, source_content, was_read};
use crate::errors::{error_of, no_error, set_zip_error, zip_error, zip_error_init};
use crate::source::{LayeredCallback, ReadFailure, SourceCallback, ZipSource};
use crate::stat::bytes_view;
use vstd::prelude::*;
use vstd::slice::slice_to_vec;

verus! {

/// What is to be opened.
#[derive(Clone, Copy, Debug, PartialEq, Eq, Structural)]
pub enum OpenRequest {
    /// What is at the path.
    Existing,
    /// An archive without entries.
    Fresh,
}

/// What is to be opened for a path that exists or not, or the error that
/// prevents it: a new archive has to be asked for.
pub open spec fn open_request(existed: bool, flags: i32) -> Result<OpenRequest, i32> {
    if !existed && flags & ZIP_CREATE == 0 {
        Err(ZIP_ER_OPEN)
    } else if existed && flags & ZIP_TRUNCATE == 0 {
        Ok(OpenRequest::Existing)
    } else {
        Ok(OpenRequest::Fresh)
    }
}

/// What is to be opened for a path that exists or not.
pub fn decide_open(existed: bool, flags: i32) -> (r: Result<OpenRequest, i32>)
    ensures
        r == open_request(existed, flags),
{
    if !existed && flags & ZIP_CREATE == 0 {
        return Err(ZIP_ER_OPEN);
    }
    if existed && flags & ZIP_TRUNCATE == 0 {
        Ok(OpenRequest::Existing)
    } else {
        Ok(OpenRequest::Fresh)
    }
}

/// Refuses a file that is larger than `MAX_OPEN_FILE_SIZE`.
pub fn check_size(loaded: Result<Vec<u8>, i32>) -> (r: Result<Vec<u8>, i32>)
    ensures
        match loaded {
            Ok(bytes) => if bytes@.len() > MAX_OPEN_FILE_SIZE {
                r == Err::<Vec<u8>, i32>(ZIP_ER_MEMORY)
            } else {
                r == loaded
            },
            Err(_) => r == loaded,
        },
{
    match loaded {
        Ok(bytes) => if bytes.len() as u64 > MAX_OPEN_FILE_SIZE {
            Err(ZIP_ER_MEMORY)
        } else {
            Ok(bytes)
        },
        Err(code) => Err(code),
    }
}

/// Whether an attempt to open has come to a result: an open archive over what
/// was found on disk, or the error in its place.
pub open spec fn opens(
    r: Option<Zip>,
    found: Result<Archive, i32>,
    flags: i32,
    existed: bool,
    path: Option<Seq<u8>>,
) -> bool {
    match found {
        Ok(a) => r is Some && r->0@ == opened(a@, flags, existed, path) && r->0@.wf(),
        Err(_) => r is None,
    }
}

/// The code that is stored for an attempt to open.
pub open spec fn open_code(found: Result<Archive, i32>) -> i32 {
    match found {
        Ok(_) => 0,
        Err(code) => code,
    }
}

/// Ends an attempt to open: makes the open archive, and stores the code.
pub fn finish_open(
    found: Result<Archive, i32>,
    flags: i32,
    existed: bool,
    path: Option<Vec<u8>>,
    errorp: Option<&mut i32>,
) -> (r: Option<Zip>)
    ensures
        opens(r, found, flags, existed, bytes_view(path)),
        errorp matches Some(e) ==> *final(e) == open_code(found),
{
    match found {
        Ok(a) => {
            if let Some(e) = errorp {
                *e = 0;
            }
            Some(make_zip(a, flags, existed, path))
        },
        Err(code) => {
            if let Some(e) = errorp {
                *e = code;
            }
            None
        },
    }
}

/// Opens the archive at a path, a C string in UTF-8 without its closing NUL.
/// `is_there` tells whether the path exists, `load` reads the file up to one byte
/// more than `MAX_OPEN_FILE_SIZE`, `parse` finds the archive in its bytes, and
/// `fresh` makes one without entries. Stores 0 or the code of the failure.
pub fn zip_open<
    E: Fn() -> bool,
    I: Fn() -> Result<Vec<u8>, i32>,
    P: Fn(Vec<u8>) -> Result<Archive, i32>,
    N: Fn() -> Result<Archive, i32>,
>(
    path: Option<&[u8]>,
    flags: i32,
    errorp: Option<&mut i32>,
    is_there: E,
    load: I,
    parse: P,
    fresh: N,
) -> (r: Option<Zip>)
    requires
        call_requires(is_there, ()),
        call_requires(load, ()),
        forall|b: Vec<u8>| call_requires(parse, (b,)),
        call_requires(fresh, ()),
    ensures
        !is_name(path) ==> r is None && (errorp matches Some(e) ==> *final(e) == ZIP_ER_INVAL),
        is_name(path) ==> exists|existed: bool, found: Result<Archive, i32>|
            {
                &&& #[trigger] call_ensures(is_there, (), existed)
                &&& #[trigger] opens(r, found, flags, existed, Some(path->0@))
                &&& errorp matches Some(e) ==> *final(e) == open_code(found)
                &&& match open_request(existed, flags) {
                    Err(code) => found == Err::<Archive, i32>(code),
                    Ok(OpenRequest::Fresh) => call_ensures(fresh, (), found),
                    Ok(OpenRequest::Existing) => exists|bytes: Result<Vec<u8>, i32>|
                        {
                            &&& #[trigger] call_ensures(load, (), bytes)
                            &&& match bytes {
                                Err(code) => found == Err::<Archive, i32>(code),
                                Ok(b) => if b@.len() > MAX_OPEN_FILE_SIZE {
                                    found == Err::<Archive, i32>(ZIP_ER_MEMORY)
                                } else {
                                    call_ensures(parse, (b,), found)
                                },
                            }
                        },
                }
            },
{
    if !check_name(path) {
        return finish_open(Err(ZIP_ER_INVAL), flags, false, None, errorp);
    }
    let existed = is_there();
    let found = match decide_open(existed, flags) {
        Err(code) => Err(code),
        Ok(OpenRequest::Fresh) => fresh(),
        Ok(OpenRequest::Existing) => {
            let loaded = load();
            match check_size(loaded) {
                Err(code) => Err(code),
                Ok(b) => parse(b),
            }
        },
    };
    let full = slice_to_vec(path.unwrap());
    finish_open(found, flags, existed, Some(full), errorp)
}

/// Opens the archive that a source holds. The source is read to its end and
/// stays with the caller; the archive has no path. `parse` finds the archive in
/// its bytes, and `fresh` makes one without entries. Stores no error, or that
/// of the failure.
pub fn zip_open_from_source<
    F: SourceCallback,
    L: LayeredCallback<F>,
    P: Fn(Vec<u8>) -> Result<Archive, i32>,
    N: Fn() -> Result<Archive, i32>,
>(
    src: Option<&mut ZipSource<F, L>>,
    flags: i32,
    error: Option<&mut zip_error>,
    parse: P,
    fresh: N,
) -> (r: Option<Zip>)
    requires
        forall|b: Vec<u8>| call_requires(parse, (b,)),
        call_requires(fresh, ()),
    ensures
        flags < 0 || src is None ==> {
            &&& r is None
            &&& error matches Some(e) ==> final(e)@ == error_of(ZIP_ER_INVAL, 0)
            &&& src matches Some(s) ==> *final(s) == *s
        },
        flags >= 0 && src is Some ==> exists|found: Result<Archive, i32>|
            {
                let s = src->0;
                &&& #[trigger] opens(r, found, flags, true, None)
                &&& error matches Some(e) ==> final(e)@ == (match found {
                    Ok(_) => no_error(),
                    Err(code) => error_of(code, 0),
                })
                &&& was_read(s@, final(s)@)
                &&& s@.closed() ==> match source_content(s@) {
                    None => found == Err::<Archive, i32>(ZIP_ER_INTERNAL),
                    Some(content) => if flags & ZIP_TRUNCATE != 0 {
                        call_ensures(fresh, (), found)
                    } else {
                        exists|b: Vec<u8>|
                            b@ == content && #[trigger] call_ensures(parse, (b,), found)
                    },
                }
                &&& exists|p: &mut ZipSource<F, L>, read: Result<Vec<u8>, ReadFailure>|
                    {
                        &&& #[trigger] call_ensures(ZipSource::<F, L>::read_all, (p,), read)
                        &&& *p == *s
                        &&& *final(p) == *final(s)
                        &&& match read {
                            Ok(b) => if flags & ZIP_TRUNCATE != 0 {
                                call_ensures(fresh, (), found)
                            } else {
                                call_ensures(parse, (b,), found)
                            },
                            Err(ReadFailure::Failed) => found == Err::<Archive, i32>(ZIP_ER_READ),
                            Err(ReadFailure::Overrun) => found == Err::<Archive, i32>(
                                ZIP_ER_INTERNAL,
                            ),
                        }
                    }
            },
{
    let s = match src {
        Some(s) if flags >= 0 => s,
        _ => {
            set_zip_error(error, ZIP_ER_INVAL, 0);
            return None;
        },
    };
    let found = match s.read_all() {
        Err(ReadFailure::Failed) => Err(ZIP_ER_READ),
        Err(ReadFailure::Overrun) => Err(ZIP_ER_INTERNAL),
        Ok(b) => {
            if flags & ZIP_TRUNCATE != 0 {
                fresh()
            } else {
                parse(b)
            }
        },
    };
    let ghost outcome = found;
    let r = match found {
        Ok(a) => {
            zip_error_init(error);
            Some(make_zip(a, flags, true, None))
        },
        Err(code) => {
            set_zip_error(error, code, 0);
            None
        },
    };
    assert(opens(r, outcome, flags, true, None));
    r
}

/// Why an archive cannot be opened from a file descriptor: only the consistency
/// check and read-only access can be asked for, and the descriptor must not be
/// negative.
pub open spec fn fdopen_refused(fd: i32, flags: i32) -> Option<i32> {
    if flags < 0 || flags & !(ZIP_CHECKCONS | ZIP_RDONLY) != 0 {
        Some(ZIP_ER_INVAL)
    } else if fd < 0 {
        Some(ZIP_ER_OPEN)
    } else {
        None
    }
}

/// Opens the archive behind a file descriptor; it has no path. `read` reads the
/// descriptor to its end, and `parse` finds the archive in the bytes. Stores 0
/// or the code of the failure.
pub fn zip_fdopen<I: Fn(i32) -> Result<Vec<u8>, i32>, P: Fn(Vec<u8>) -> Result<Archive, i32>>(
    fd: i32,
    flags: i32,
    errorp: Option<&mut i32>,
    read: I,
    parse: P,
) -> (r: Option<Zip>)
    requires
        forall|d: i32| call_requires(read, (d,)),
        forall|b: Vec<u8>| call_requires(parse, (b,)),
    ensures
        exists|found: Result<Archive, i32>|
            {
                &&& #[trigger] opens(r, found, flags, true, None)
                &&& errorp matches Some(e) ==> *final(e) == open_code(found)
                &&& match fdopen_refused(fd, flags) {
                    Some(code) => found == Err::<Archive, i32>(code),
                    None => exists|bytes: Result<Vec<u8>, i32>|
                        {
                            &&& #[trigger] call_ensures(read, (fd,), bytes)
                            &&& match bytes {
                                Err(code) => found == Err::<Archive, i32>(code),
                                Ok(b) => call_ensures(parse, (b,), found),
                            }
                        },
                }
            },
{
    let found = if flags < 0 || flags & !(ZIP_CHECKCONS | ZIP_RDONLY) != 0 {
        Err(ZIP_ER_INVAL)
    } else if fd < 0 {
        Err(ZIP_ER_OPEN)
    } else {
        match read(fd) {
            Err(code) => Err(code),
            Ok(b) => parse(b),
        }
    };
    finish_open(found, flags, true, None, errorp)
}

} // verus!
