//! What holds of the makers of sources that record a failure, and of layers over a
//! source.
//!
//! A law here speaks of a call: of what was handed in, and of what came back.

use crate::archive::{Zip, ZipView};
use crate::change_laws::refused;
use crate::command::CommandData;

use crate::entry::{zip_file_error_clear, zip_file_error_get, zip_file_get_error, ZipFile};
use crate::errors::{err_msg, zip_error};
use crate::handle::{zip_error_clear, zip_error_get, zip_get_error};
use crate::source::{Layer, LayeredCallback, SourceBackend, SourceCallback, ZipSource};
use crate::source_api::zip_source_error;
use crate::source_laws::{lemma_made_over, made_over};
use crate::source_new::{
    file_stat, zip_source_file, zip_source_filep, zip_source_filep_create,
        zip_source_layered_create,
    zip_source_win32a, zip_source_win32handle, zip_source_win32handle_create, zip_source_win32w,
    zip_source_win32w_create, FileContent,
};
use vstd::prelude::*;

verus! {

/// Whether a failure to make a source is recorded in an archive, and nothing is
/// changed where it was made.
pub open spec fn notes(before: ZipView, after: ZipView, done: bool, code: i32) -> bool {
    &&& done ==> after == before
    &&& !done ==> refused(before, after, code)
}

/// A source over a part of a file that stands open holds that part; every failure is
/// stored as one to open it.
pub proof fn law_open_file_source_made<F: SourceCallback, L: LayeredCallback<F>>(
    read: Result<FileContent, i32>,
    start: u64,
    len: i64,
    e: (i32, i32),
    r: Option<ZipSource<F, L>>,
)
    requires
        exists|p: &mut i32| #[trigger]
            call_ensures(zip_source_filep_create::<F, L>, (read, start, len, Some(p)), r) && (
            *p,
            *final(p),
        ) == e,
    ensures
        read is Err ==> r is None,
        read matches Ok(c) ==> {
            &&& made_over(r, c.data@, start, len)
            &&& r matches Some(s) ==> s.backend->Memory_0.stat.mtime == c.mtime
        },
        e.1 == (if r is Some { e.0 } else { 11 }),
{
    if let Ok(c) = read {
        lemma_made_over(r, c.data@, start, len, file_stat(c));
    }
}

/// A source over a part of a file is made for an archive, which records every failure as
/// one to open it.
pub proof fn law_file_source_noted<F: SourceCallback, L: LayeredCallback<F>>(
    read: Result<FileContent, i32>,
    start: u64,
    len: i64,
    before: ZipView,
    after: ZipView,
    r: Option<ZipSource<F, L>>,
)
    requires
        exists|z: &mut Zip|
            {
                &&& #[trigger] call_ensures(zip_source_file::<F, L>, (Some(z), read, start, len), r)
                &&& z@ == before
                &&& final(z)@ == after
            },
    ensures
        read is Err ==> r is None,
        read matches Ok(c) ==> {
            &&& made_over(r, c.data@, start, len)
            &&& r matches Some(s) ==> s.backend->Memory_0.stat.mtime == c.mtime
        },
        notes(before, after, r is Some, 11),
{
    if let Ok(c) = read {
        lemma_made_over(r, c.data@, start, len, file_stat(c));
    }
}

/// So it is with a file that stands open.
pub proof fn law_open_file_source_noted<F: SourceCallback, L: LayeredCallback<F>>(
    read: Result<FileContent, i32>,
    start: u64,
    len: i64,
    before: ZipView,
    after: ZipView,
    r: Option<ZipSource<F, L>>,
)
    requires
        exists|z: &mut Zip|
            {
                &&& #[trigger] call_ensures(zip_source_filep::<F, L>, (Some(z), read, start, len),
                    r)
                &&& z@ == before
                &&& final(z)@ == after
            },
    ensures
        read is Err ==> r is None,
        read matches Ok(c) ==> {
            &&& made_over(r, c.data@, start, len)
            &&& r matches Some(s) ==> s.backend->Memory_0.stat.mtime == c.mtime
        },
        notes(before, after, r is Some, 11),
{
    if let Ok(c) = read {
        lemma_made_over(r, c.data@, start, len, file_stat(c));
    }
}

/// A source over a part of a file that is named in wide characters is made likewise, and
/// the code of a failure is stored; a length below the two that reach to the end is
/// refused.
pub proof fn law_wide_named_file_source_made<F: SourceCallback, L: LayeredCallback<F>>(
    read: Result<FileContent, i32>,
    start: u64,
    len: i64,
    e: (i32, i32),
    r: Option<ZipSource<F, L>>,
)
    requires
        exists|p: &mut i32| #[trigger]
            call_ensures(zip_source_win32w_create::<F, L>, (read, start, len, Some(p)), r) && (
            *p,
            *final(p),
        ) == e,
    ensures
        len < -2 ==> r is None && e.1 == 18,
        len >= -2 ==> match read {
            Err(code) => r is None && e.1 == code,
            Ok(c) => {
                &&& made_over(r, c.data@, start, len)
                &&& e.1 == (if r is Some { e.0 } else { 18 })
            },
        },
{
    if let Ok(c) = read {
        if len >= -2 {
            lemma_made_over(r, c.data@, start, len, file_stat(c));
        }
    }
}

/// So it is with a file by its handle.
pub proof fn law_handle_source_made<F: SourceCallback, L: LayeredCallback<F>>(
    read: Result<FileContent, i32>,
    start: u64,
    len: i64,
    e: (i32, i32),
    r: Option<ZipSource<F, L>>,
)
    requires
        exists|p: &mut i32| #[trigger]
            call_ensures(zip_source_win32handle_create::<F, L>, (read, start, len, Some(p)), r) && (
            *p,
            *final(p),
        ) == e,
    ensures
        len < -2 ==> r is None && e.1 == 18,
        len >= -2 ==> match read {
            Err(code) => r is None && e.1 == code,
            Ok(c) => {
                &&& made_over(r, c.data@, start, len)
                &&& e.1 == (if r is Some { e.0 } else { 18 })
            },
        },
{
    if let Ok(c) = read {
        if len >= -2 {
            lemma_made_over(r, c.data@, start, len, file_stat(c));
        }
    }
}

/// A source over a part of a file that is named in another encoding is made for an
/// archive, which records every failure as one to open it.
pub proof fn law_named_file_source_noted<F: SourceCallback, L: LayeredCallback<F>>(
    read: Result<FileContent, i32>,
    start: u64,
    len: i64,
    before: ZipView,
    after: ZipView,
    r: Option<ZipSource<F, L>>,
)
    requires
        exists|z: &mut Zip|
            {
                &&& #[trigger] call_ensures(zip_source_win32a::<F, L>, (Some(z), read, start, len),
                    r)
                &&& z@ == before
                &&& final(z)@ == after
            },
    ensures
        len < -2 || read is Err ==> r is None,
        len >= -2 ==> (read matches Ok(c) ==> made_over(r, c.data@, start, len)),
        notes(before, after, r is Some, 11),
{
    if let Ok(c) = read {
        if len >= -2 {
            lemma_made_over(r, c.data@, start, len, file_stat(c));
        }
    }
}

/// So it is with a file that is named in wide characters.
pub proof fn law_wide_named_file_source_noted<F: SourceCallback, L: LayeredCallback<F>>(
    read: Result<FileContent, i32>,
    start: u64,
    len: i64,
    before: ZipView,
    after: ZipView,
    r: Option<ZipSource<F, L>>,
)
    requires
        exists|z: &mut Zip|
            {
                &&& #[trigger] call_ensures(zip_source_win32w::<F, L>, (Some(z), read, start, len),
                    r)
                &&& z@ == before
                &&& final(z)@ == after
            },
    ensures
        len < -2 || read is Err ==> r is None,
        len >= -2 ==> (read matches Ok(c) ==> made_over(r, c.data@, start, len)),
        notes(before, after, r is Some, 11),
{
    if let Ok(c) = read {
        if len >= -2 {
            lemma_made_over(r, c.data@, start, len, file_stat(c));
        }
    }
}

/// A source over a part of a file is made by its handle for an archive, which records
/// every failure as a refused argument.
pub proof fn law_handle_source_noted<F: SourceCallback, L: LayeredCallback<F>>(
    read: Result<FileContent, i32>,
    start: u64,
    len: i64,
    before: ZipView,
    after: ZipView,
    r: Option<ZipSource<F, L>>,
)
    requires
        exists|z: &mut Zip|
            {
                &&& #[trigger] call_ensures(zip_source_win32handle::<F, L>, (Some(z), read, start,
                    len), r)
                &&& z@ == before
                &&& final(z)@ == after
            },
    ensures
        len < -2 || read is Err ==> r is None,
        len >= -2 ==> (read matches Ok(c) ==> made_over(r, c.data@, start, len)),
        notes(before, after, r is Some, 18),
{
    if let Ok(c) = read {
        if len >= -2 {
            lemma_made_over(r, c.data@, start, len, file_stat(c));
        }
    }
}

/// A layer of the user's over a source asks it what it supports, and supports what it
/// answers but for what writes; there is no layer where it answers with an error.
pub proof fn law_layer_made<F: SourceCallback, L: LayeredCallback<F>>(
    src: Box<ZipSource<F, L>>,
    cb: L,
    e: (i32, i32),
    r: (Option<ZipSource<F, L>>, Option<Box<ZipSource<F, L>>>),
)
    requires
        exists|p: &mut i32| #[trigger]
            call_ensures(zip_source_layered_create::<F, L>, (Some(src), Some(cb), Some(p)), r) && (
            *p,
            *final(p),
        ) == e,
    ensures
        r.0 is Some <==> r.1 is None,
        e.1 == (if r.0 is Some { e.0 } else { 18 }),
        exists|l: &mut L, s: &mut ZipSource<F, L>, d: &mut CommandData, a: i64|
            {
                &&& #[trigger] call_ensures(L::call_over, (l, s, d, 8, 14), a)
                &&& *l == cb
                &&& *d == CommandData::Supports(s.node.supports)
                &&& r.0 is Some <==> a >= 0
                &&& r.0 matches Some(w) ==> {
                    &&& w.backend == SourceBackend::Layered {
                        lower: Box::new(*final(s)),
                        layer: Layer::User(*final(l)),
                    }
                    &&& w.node.supports == a & !0x2_bf00i64
                    &&& w.node.error.zip_err == 0
                }
            },
{
}

/// The error of a source is handed out with its message, and the source keeps it.
pub proof fn law_source_error_is_told<F, L>(
    before: ZipSource<F, L>,
    after: ZipSource<F, L>,
    r: Option<zip_error>,
)
    requires
        exists|s: &mut ZipSource<F, L>| #[trigger]
            call_ensures(zip_source_error::<F, L>, (Some(s),), r) && *s == before && *final(s)
                == after,
    ensures
        r is Some,
        r->0.zip_err == before.node.error.zip_err,
        r->0.sys_err == before.node.error.sys_err,
        r->0@.str == Some(err_msg(before.node.error.zip_err)),
        after.backend == before.backend,
        after.node.error@ == r->0@,
        after.node.supports == before.node.supports,
{
}

/// The error of an archive is told as its codes and as a whole, and is then cleared.
pub proof fn law_archive_error_is_told(
    z: Zip,
    zep: (i32, i32),
    sep: (i32, i32),
    e: Option<zip_error>,
    after: ZipView,
)
    requires
        exists|p: &mut i32, q: &mut i32| #[trigger]
            call_ensures(zip_error_get, (Some(&z), Some(p), Some(q)), ()) && (*p, *final(p)) == zep
                && (*q, *final(q)) == sep,
        call_ensures(zip_get_error, (Some(&z),), e),
        exists|c: &mut Zip| #[trigger]
            call_ensures(zip_error_clear, (Some(c),), ()) && c@ == z@ && final(c)@ == after,
    ensures
        zep.1 == z@.error.zip_err,
        sep.1 == z@.error.sys_err,
        e is Some && e->0@ == z@.error,
        refused(z@, after, 0),
{
}

/// The error of an opened entry is told as its codes and as a whole, and is then
/// cleared.
pub proof fn law_entry_error_is_told(
    f: ZipFile,
    zep: (i32, i32),
    sep: (i32, i32),
    e: Option<zip_error>,
    after: ZipFile,
)
    requires
        exists|p: &mut i32, q: &mut i32| #[trigger]
            call_ensures(zip_file_error_get, (Some(&f), Some(p), Some(q)), ()) && (*p, *final(p))
                == zep && (*q, *final(q)) == sep,
        call_ensures(zip_file_get_error, (Some(&f),), e),
        exists|c: &mut ZipFile| #[trigger]
            call_ensures(zip_file_error_clear, (Some(c),), ()) && *c == f && *final(c) == after,
    ensures
        zep.1 == f@.error.zip_err,
        sep.1 == f@.error.sys_err,
        e is Some && e->0@ == f@.error,
        after@.last_error == 0,
        after@.error.zip_err == 0,
        after@.error.sys_err == 0,
        after@.err_msg == err_msg(0),
{
}

} // verus!
