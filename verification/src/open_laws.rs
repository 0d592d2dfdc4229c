//! What opening an archive comes to.
//!
//! A law here speaks of a call: of what was handed in, and of what came back.

use crate::archive::{make_zip, Archive, Zip};
use crate::change_laws::law_content_of_a_buffer;
use crate::errors::{zip_error, ErrorView};
use crate::open::{check_size, zip_fdopen, zip_open, zip_open_from_source};
use crate::save_laws::edits_wait;
use crate::source::{LayeredCallback, SourceCallback, ZipSource};
use vstd::prelude::*;
use vstd::utf8::valid_utf8;

verus! {

/// Whether an archive was opened over what was found on disk: it holds that, no edit
/// waits, no error and no password are known, it remembers how and from where it was
/// opened, and its flags say whether it is read only.
pub open spec fn opened_over(
    z: Zip,
    a: Archive,
    flags: i32,
    existed: bool,
    path: Option<Seq<u8>>,
) -> bool {
    &&& z@.archive == a@
    &&& !edits_wait(z@.pending)
    &&& z@.error.zip_err == 0
    &&& z@.error.sys_err == 0
    &&& z@.password is None
    &&& z.flags == flags
    &&& z.existed == existed
    &&& z@.path == path
    &&& z.afl == (if flags & 16 != 0 { 2int } else { 0 })
    &&& z.ch_afl == z.afl
    &&& z@.wf()
}

/// An archive that is made over what was found on disk shows just that.
pub proof fn law_archive_made(
    a: Archive,
    flags: i32,
    existed: bool,
    path: Option<Vec<u8>>,
    r: Zip,
)
    requires
        call_ensures(make_zip, (a, flags, existed, path), r),
    ensures
        opened_over(
            r,
            a,
            flags,
            existed,
            match path {
                Some(p) => Some(p@),
                None => None,
            },
        ),
{
}

/// Whether an attempt to open came to its end: an archive over what was found, or
/// none and the code of the failure.
pub open spec fn came_to(
    r: Option<Zip>,
    code: i32,
    found: Result<Archive, i32>,
    flags: i32,
    existed: bool,
    path: Option<Seq<u8>>,
) -> bool {
    match found {
        Ok(a) => r is Some && opened_over(r->0, a, flags, existed, path) && code == 0,
        Err(e) => r is None && code == e,
    }
}

/// A file of more than 2 GiB is refused, and any other taken as it is.
pub proof fn law_size_is_checked(loaded: Result<Vec<u8>, i32>, r: Result<Vec<u8>, i32>)
    requires
        call_ensures(check_size, (loaded,), r),
    ensures
        loaded is Err ==> r == loaded,
        loaded matches Ok(b) ==> if b@.len() > 0x8000_0000 {
            r == Err::<Vec<u8>, i32>(14)
        } else {
            r == loaded
        },
{
}

/// Opening a path: without one in UTF-8 it is refused. What is not there is made
/// only where that was asked for, and what is there is read, unless it is to be
/// emptied.
pub proof fn law_path_is_opened<
    E: Fn() -> bool,
    I: Fn() -> Result<Vec<u8>, i32>,
    P: Fn(Vec<u8>) -> Result<Archive, i32>,
    N: Fn() -> Result<Archive, i32>,
>(
    path: Option<&[u8]>,
    flags: i32,
    code: i32,
    is_there: E,
    load: I,
    parse: P,
    fresh: N,
    r: Option<Zip>,
)
    requires
        exists|e: &mut i32| #[trigger]
            call_ensures(
                zip_open::<E, I, P, N>,
                (path, flags, Some(e), is_there, load, parse, fresh),
                r,
            ) && *final(e) == code,
    ensures
        path is None || !valid_utf8(path->0@) ==> r is None && code == 18,
        path is Some && valid_utf8(path->0@) ==> exists|existed: bool| #[trigger]
            call_ensures(is_there, (), existed) && {
                &&& !existed && flags & 1 == 0 ==> r is None && code == 11
                &&& (!existed && flags & 1 != 0) || (existed && flags & 8 != 0) ==> exists|
                    found: Result<Archive, i32>,
                | #[trigger]
                    call_ensures(fresh, (), found) && came_to(
                        r,
                        code,
                        found,
                        flags,
                        existed,
                        Some(path->0@),
                    )
                &&& existed && flags & 8 == 0 ==> exists|bytes: Result<Vec<u8>, i32>| #[trigger]
                    call_ensures(load, (), bytes) && match bytes {
                        Err(e) => r is None && code == e,
                        Ok(b) => if b@.len() > 0x8000_0000 {
                            r is None && code == 14
                        } else {
                            exists|found: Result<Archive, i32>| #[trigger]
                                call_ensures(parse, (b,), found) && came_to(
                                    r,
                                    code,
                                    found,
                                    flags,
                                    existed,
                                    Some(path->0@),
                                )
                        },
                    }
            },
{
}

/// Opening a file descriptor: only the check and read-only access can be asked for,
/// and a negative descriptor is refused; then what it gives is read and opened.
pub proof fn law_descriptor_is_opened<
    I: Fn(i32) -> Result<Vec<u8>, i32>,
    P: Fn(Vec<u8>) -> Result<Archive, i32>,
>(fd: i32, flags: i32, code: i32, read: I, parse: P, r: Option<Zip>)
    requires
        exists|e: &mut i32| #[trigger]
            call_ensures(zip_fdopen::<I, P>, (fd, flags, Some(e), read, parse), r) && *final(e)
                == code,
    ensures
        flags < 0 || flags & !20 != 0 ==> r is None && code == 18,
        flags >= 0 && flags & !20 == 0 && fd < 0 ==> r is None && code == 11,
        flags >= 0 && flags & !20 == 0 && fd >= 0 ==> exists|bytes: Result<Vec<u8>, i32>|
            #[trigger]
            call_ensures(read, (fd,), bytes) && match bytes {
                Err(e) => r is None && code == e,
                Ok(b) => exists|found: Result<Archive, i32>| #[trigger]
                    call_ensures(parse, (b,), found) && came_to(
                        r,
                        code,
                        found,
                        flags,
                        true,
                        None,
                    ),
            },
{
    assert(4i32 | 16i32 == 20i32) by (bit_vector);
}

/// Opening what a source over a buffer holds: the archive in its bytes is opened, or
/// an empty one where it is to be emptied. Without a source, or with negative flags,
/// it is refused.
pub proof fn law_source_is_opened<
    F: SourceCallback,
    L: LayeredCallback<F>,
    P: Fn(Vec<u8>) -> Result<Archive, i32>,
    N: Fn() -> Result<Archive, i32>,
>(
    source: ZipSource<F, L>,
    flags: i32,
    error: ErrorView,
    parse: P,
    fresh: N,
    r: Option<Zip>,
)
    requires
        source.backend is Memory,
        source.backend->Memory_0.data@.len() <= isize::MAX,
        exists|s: &mut ZipSource<F, L>, e: &mut zip_error| #[trigger]
            call_ensures(
                zip_open_from_source::<F, L, P, N>,
                (Some(s), flags, Some(e), parse, fresh),
                r,
            ) && *s == source && final(e)@ == error,
    ensures
        flags < 0 ==> r is None && error.zip_err == 18,
        flags >= 0 && flags & 8 != 0 ==> exists|found: Result<Archive, i32>| #[trigger]
            call_ensures(fresh, (), found) && came_to(
                r,
                error.zip_err,
                found,
                flags,
                true,
                None,
            ),
        flags >= 0 && flags & 8 == 0 ==> exists|b: Vec<u8>, found: Result<Archive, i32>|
            {
                &&& b@ == source.backend->Memory_0.data@
                &&& #[trigger] call_ensures(parse, (b,), found)
                &&& came_to(r, error.zip_err, found, flags, true, None)
            },
{
    law_content_of_a_buffer(source);
}

} // verus!
