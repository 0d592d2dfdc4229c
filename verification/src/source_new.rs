//! Making sources: over buffers, fragments of buffers, files, parts of other
//! sources, entries of archives, callbacks, and layers.
//!
//! A handle is an optional value; a missing one is the null handle.

use crate::archive::{Zip, ZipView};
use crate::clock::{read_from_clock, unix_now};
use crate::command::{CommandData, DataView};
use crate::consts::{
    SRC_AT_EOF, SRC_SEEKABLE, SRC_WRITABLE, SRC_WRITE_MODE, STAT_SIZE, ZIP_ER_INVAL, ZIP_ER_OPEN,
    ZIP_ER_READ, ZIP_FL_COMPRESSED, ZIP_LENGTH_UNCHECKED, ZIP_SOURCE_ERROR, ZIP_SOURCE_OPEN,
    ZIP_SOURCE_STAT, ZIP_SOURCE_SUPPORTS, ZIP_STAT_COMP_METHOD, ZIP_STAT_COMP_SIZE,
    ZIP_STAT_ENCRYPTION_METHOD, ZIP_STAT_MTIME, ZIP_STAT_SIZE,
};
use crate::edit::source_content;
use crate::errors::{error_of, zip_error, zip_error_set, ErrorPair};
use crate::memory::{new_node, MemView, MemorySource};
use crate::source::{
    crc_layered_cb, crc_mask, drained, in_sync, step, BackendView, CrcCtx, Layer, LayeredCallback,
    ReadFailure, SourceBackend, SourceCallback, SourceView, ZipSource,
};
use crate::source_api::{leaves, released, supports_step, zip_source_free};
use crate::stat::{empty_stat, unknown_stat, zip_stat, Stat};
use vstd::prelude::*;
use vstd::slice::{slice_subrange, slice_to_vec};

verus! {

/// A new memory source.
pub open spec fn memory_source<F, L>(data: Seq<u8>, stat: Stat, supports: i64) -> SourceView<F, L> {
    SourceView {
        backend: BackendView::Memory(MemView { data, pos: 0, stat, pending: None }),
        node: new_node(supports),
    }
}

/// The part of a byte string from `start` on, `len` bytes long at most; a
/// negative length reaches to the end. There is none if it starts behind the
/// end.
pub open spec fn window(data: Seq<u8>, start: u64, len: i64) -> Option<Seq<u8>> {
    let end = if len < 0 || start + len > data.len() { data.len() as int } else { start + len };
    if start <= end {
        Some(data.subrange(start as int, end))
    } else {
        None
    }
}

/// A new memory source over a part of a byte string.
pub open spec fn window_source<F, L>(data: Seq<u8>, start: u64, len: i64, stat: Stat) -> Option<
    SourceView<F, L>,
> {
    match window(data, start, len) {
        Some(part) => Some(
            memory_source(
                part,
                Stat {
                    size: Some(part.len() as u64),
                    valid: stat.valid | ZIP_STAT_SIZE,
                    ..stat
                },
                SRC_SEEKABLE | SRC_AT_EOF,
            ),
        ),
        None => None,
    }
}

/// Whether a constructor has made a certain source, or none.
pub open spec fn makes<F, L>(r: Option<ZipSource<F, L>>, s: Option<SourceView<F, L>>) -> bool {
    match s {
        Some(v) => r is Some && r->0@ == v,
        None => r is None,
    }
}

/// Makes a memory source over a part of a byte string.
pub fn make_memory_source<F: SourceCallback, L: LayeredCallback<F>>(
    data: Vec<u8>,
    start: u64,
    len: i64,
    stat: Stat,
) -> (r: Option<ZipSource<F, L>>)
    ensures
        makes(r, window_source(data@, start, len, stat)),
{
    let size: u64 = data.len() as u64;
    let end: u64 = if len < 0 {
        size
    } else {
        match start.checked_add(len as u64) {
            Some(e) => if e < size {
                e
            } else {
                size
            },
            None => size,
        }
    };
    if start > end {
        return None;
    }
    let part = slice_to_vec(slice_subrange(data.as_slice(), start as usize, end as usize));
    assert(window(data@, start, len) == Some(part@));
    let st = Stat {
        size: Some(part.len() as u64),
        valid: stat.valid | ZIP_STAT_SIZE,
        ..stat
    };
    Some(
        ZipSource::new(
            SourceBackend::Memory(MemorySource::new(part, st)),
            SRC_SEEKABLE | SRC_AT_EOF,
        ),
    )
}

/// The metadata of a source over a buffer of `len` bytes.
pub open spec fn buffer_stat(len: u64) -> Stat {
    Stat { size: Some(len), valid: ZIP_STAT_SIZE, ..unknown_stat() }
}

/// A new source over the first `len` bytes of a buffer.
pub open spec fn buffer_source<F, L>(data: Option<&[u8]>, len: u64) -> Option<SourceView<F, L>> {
    match data {
        Some(d) => Some(
            memory_source(
                d@.take(len as int),
                buffer_stat(len),
                SRC_SEEKABLE | SRC_WRITE_MODE | SRC_AT_EOF,
            ),
        ),
        None => if len > 0 {
            None
        } else {
            Some(
                memory_source(
                    Seq::empty(),
                    buffer_stat(0),
                    SRC_SEEKABLE | SRC_WRITE_MODE | SRC_AT_EOF,
                ),
            )
        },
    }
}

/// Makes a source over a copy of the first `len` bytes of `data`. The archive
/// and `freep` have no effect.
pub fn zip_source_buffer<F: SourceCallback, L: LayeredCallback<F>>(
    _zh: Option<&Zip>,
    data: Option<&[u8]>,
    len: u64,
    _freep: i32,
) -> (r: Option<ZipSource<F, L>>)
    requires
        data matches Some(d) ==> len <= d@.len(),
    ensures
        makes(r, buffer_source(data, len)),
{
    if data.is_none() && len > 0 {
        return None;
    }
    let bytes = match data {
        Some(d) => {
            assert(len <= d.len());
            let b = slice_to_vec(slice_subrange(d, 0, len as usize));
            assert(b@ =~= d@.take(len as int));
            b
        },
        None => Vec::new(),
    };
    let st = Stat { size: Some(len), valid: ZIP_STAT_SIZE, ..Stat::unknown() };
    Some(
        ZipSource::new(
            SourceBackend::Memory(MemorySource::new(bytes, st)),
            SRC_SEEKABLE | SRC_WRITE_MODE | SRC_AT_EOF,
        ),
    )
}

/// Makes a source over a copy of the first `len` bytes of `data`, and stores in
/// the error object whether that succeeded. `freep` has no effect.
pub fn zip_source_buffer_create<F: SourceCallback, L: LayeredCallback<F>>(
    data: Option<&[u8]>,
    len: u64,
    freep: i32,
    errorp: Option<&mut zip_error>,
) -> (r: Option<ZipSource<F, L>>)
    requires
        data matches Some(d) ==> len <= d@.len(),
    ensures
        makes(r, buffer_source(data, len)),
        errorp matches Some(e) ==> final(e)@ == error_of(if r is Some { 0 } else { ZIP_ER_INVAL }, 0),
{
    let r = zip_source_buffer(None, data, len, freep);
    if r.is_none() {
        zip_error_set(errorp, ZIP_ER_INVAL, 0);
    } else {
        zip_error_set(errorp, 0, 0);
    }
    r
}

/// A fragment of a buffer: the first `length` bytes of `data`.
#[derive(Debug)]
pub struct zip_buffer_fragment {
    pub data: Option<Vec<u8>>,
    pub length: u64,
}

impl zip_buffer_fragment {
    /// Whether the fragment has all its bytes.
    pub open spec fn wf(self) -> bool {
        self.data matches Some(d) ==> self.length <= d@.len()
    }

    /// The bytes of the fragment: none if they are missing.
    pub open spec fn bytes(self) -> Option<Seq<u8>> {
        if self.length == 0 {
            Some(Seq::empty())
        } else {
            match self.data {
                Some(d) => Some(d@.take(self.length as int)),
                None => None,
            }
        }
    }
}

/// The bytes of the first `n` fragments, one behind the other: none if any are
/// missing.
pub open spec fn joined(fragments: Seq<zip_buffer_fragment>, n: nat) -> Option<Seq<u8>>
    decreases n,
{
    if n == 0 {
        Some(Seq::empty())
    } else {
        match (joined(fragments, (n - 1) as nat), fragments[n - 1].bytes()) {
            (Some(a), Some(b)) => Some(a + b),
            _ => None,
        }
    }
}

/// The bytes of a list of fragments: none if the list or any bytes are missing,
/// or if they are too many for memory.
pub open spec fn fragment_bytes(fragments: Option<&Vec<zip_buffer_fragment>>, n: u64) -> Option<
    Seq<u8>,
> {
    match fragments {
        Some(f) => match joined(f@, n as nat) {
            Some(b) => if b.len() <= isize::MAX {
                Some(b)
            } else {
                None
            },
            None => None,
        },
        None => if n > 0 {
            None
        } else {
            Some(Seq::empty())
        },
    }
}

/// The metadata of a source over fragments: stored, not encrypted, and modified
/// when it was made.
pub open spec fn fragment_stat(len: u64, now: Option<u64>) -> Stat {
    Stat {
        size: Some(len),
        comp_size: Some(len),
        mtime: now,
        comp_method: Some(0),
        encryption_method: Some(0),
        valid: ZIP_STAT_MTIME | ZIP_STAT_SIZE | ZIP_STAT_COMP_SIZE | ZIP_STAT_COMP_METHOD
            | ZIP_STAT_ENCRYPTION_METHOD,
        ..unknown_stat()
    }
}

/// A new source over fragments, made at a time.
pub open spec fn fragment_source<F, L>(
    fragments: Option<&Vec<zip_buffer_fragment>>,
    n: u64,
    now: Option<u64>,
) -> Option<SourceView<F, L>> {
    match fragment_bytes(fragments, n) {
        Some(b) => window_source(b, 0, (-1) as i64, fragment_stat(b.len() as u64, now)),
        None => None,
    }
}

/// Whether a list has `n` fragments with all their bytes.
pub open spec fn fragments_given(fragments: Option<&Vec<zip_buffer_fragment>>, n: u64) -> bool {
    fragments matches Some(f) ==> {
        &&& n <= f@.len()
        &&& forall|i: int| 0 <= i < n ==> (#[trigger] f@[i]).wf()
    }
}

proof fn lemma_joined_grows(fragments: Seq<zip_buffer_fragment>, k: nat, n: nat)
    requires
        k <= n,
    ensures
        joined(fragments, k) is None ==> joined(fragments, n) is None,
        joined(fragments, n) matches Some(b) ==> joined(fragments, k) is Some && joined(
            fragments,
            k,
        )->0.len() <= b.len(),
    decreases n - k,
{
    if k < n {
        lemma_joined_grows(fragments, k, (n - 1) as nat);
    }
}

/// Makes a source over the bytes of `n` fragments, as of `now`.
pub fn join_fragments<F: SourceCallback, L: LayeredCallback<F>>(
    fragments: Option<&Vec<zip_buffer_fragment>>,
    n: u64,
    now: Option<u64>,
) -> (r: Option<ZipSource<F, L>>)
    requires
        fragments_given(fragments, n),
    ensures
        makes(r, fragment_source(fragments, n, now)),
{
    let mut data: Vec<u8> = Vec::new();
    match fragments {
        None => {
            if n > 0 {
                return None;
            }
        },
        Some(list) => {
            assert(n <= list.len());
            let mut i: usize = 0;
            while i < n as usize
                invariant
                    fragments == Some(list),
                    i <= n <= list@.len(),
                    n <= usize::MAX,
                    forall|i: int| 0 <= i < n ==> (#[trigger] list@[i]).wf(),
                    joined(list@, i as nat) == Some(data@),
                    data@.len() <= isize::MAX,
                decreases n - i,
            {
                let frag = &list[i];
                assert(list@[i as int].wf());
                proof {
                    lemma_joined_grows(list@, (i + 1) as nat, n as nat);
                }
                if frag.length != 0 {
                    match &frag.data {
                        None => {
                            assert(joined(list@, (i + 1) as nat) is None);
                            return None;
                        },
                        Some(d) => {
                            if frag.length > isize::MAX as u64 - data.len() as u64 {
                                assert(joined(list@, (i + 1) as nat) == Some(
                                    data@ + d@.take(frag.length as int),
                                ));
                                return None;
                            }
                            let part = slice_subrange(d.as_slice(), 0, frag.length as usize);
                            let ghost before = data@;
                            data.extend_from_slice(part);
                            assert(data@ =~= before + d@.take(frag.length as int));
                        },
                    }
                } else {
                    assert(data@ + Seq::<u8>::empty() =~= data@);
                }
                i += 1;
            }
        },
    }
    let size: u64 = data.len() as u64;
    let st = Stat {
        size: Some(size),
        comp_size: Some(size),
        mtime: now,
        comp_method: Some(0),
        encryption_method: Some(0),
        valid: ZIP_STAT_MTIME | ZIP_STAT_SIZE | ZIP_STAT_COMP_SIZE | ZIP_STAT_COMP_METHOD
            | ZIP_STAT_ENCRYPTION_METHOD,
        ..Stat::unknown()
    };
    make_memory_source(data, 0, -1, st)
}

/// Makes a source over the bytes of `nfragments` fragments, one behind the
/// other. Stores `ZIP_ER_INVAL` if bytes are missing or too many. `freep` has
/// no effect.
pub fn zip_source_buffer_fragment_create<F: SourceCallback, L: LayeredCallback<F>>(
    fragments: Option<&Vec<zip_buffer_fragment>>,
    nfragments: u64,
    _freep: i32,
    errorp: Option<&mut i32>,
) -> (r: Option<ZipSource<F, L>>)
    requires
        fragments_given(fragments, nfragments),
    ensures
        exists|now: Option<u64>|
            read_from_clock(now) && makes(
                r,
                #[trigger] fragment_source(fragments, nfragments, now),
            ),
        errorp matches Some(e) ==> *final(e) == (if r is Some { *e } else { ZIP_ER_INVAL }),
{
    let now = unix_now();
    let r = join_fragments(fragments, nfragments, now);
    if r.is_none() {
        if let Some(e) = errorp {
            *e = ZIP_ER_INVAL;
        }
    }
    r
}

/// Makes a source over fragments; another name for
/// `zip_source_buffer_fragment_create`.
pub fn zip_buffer_fragment<F: SourceCallback, L: LayeredCallback<F>>(
    fragments: Option<&Vec<zip_buffer_fragment>>,
    nfragments: u64,
    freep: i32,
    errorp: Option<&mut i32>,
) -> (r: Option<ZipSource<F, L>>)
    requires
        fragments_given(fragments, nfragments),
    ensures
        exists|now: Option<u64>|
            read_from_clock(now) && makes(
                r,
                #[trigger] fragment_source(fragments, nfragments, now),
            ),
        errorp matches Some(e) ==> *final(e) == (if r is Some { *e } else { ZIP_ER_INVAL }),
{
    zip_source_buffer_fragment_create(fragments, nfragments, freep, errorp)
}

/// How the failure of a constructor shows on an archive.
pub open spec fn noted_failure(z: ZipView, made: bool, code: i32) -> ZipView {
    if made {
        z
    } else {
        z.failed(code)
    }
}

/// Makes a source over fragments; a failure is recorded on the archive. There
/// is none without an archive.
pub fn zip_source_buffer_fragment<F: SourceCallback, L: LayeredCallback<F>>(
    zh: Option<&mut Zip>,
    fragments: Option<&Vec<zip_buffer_fragment>>,
    nfragments: u64,
    freep: i32,
) -> (r: Option<ZipSource<F, L>>)
    requires
        fragments_given(fragments, nfragments),
    ensures
        zh is None ==> r is None,
        zh matches Some(z) ==> {
            &&& z@.wf() ==> final(z)@.wf()
            &&& exists|now: Option<u64>|
                read_from_clock(now) && makes(
                    r,
                    #[trigger] fragment_source(fragments, nfragments, now),
                )
            &&& final(z)@ == noted_failure(z@, r is Some, ZIP_ER_INVAL)
        },
{
    match zh {
        None => None,
        Some(z) => {
            let r = zip_source_buffer_fragment_create(fragments, nfragments, freep, None);
            if r.is_none() {
                z.fail(ZIP_ER_INVAL);
            }
            r
        },
    }
}

/// Makes a source of the user's. Stores `ZIP_ER_INVAL` if there is none.
pub fn zip_source_function_create<F: SourceCallback, L: LayeredCallback<F>>(
    cb: Option<F>,
    errorp: Option<&mut i32>,
) -> (r: Option<ZipSource<F, L>>)
    ensures
        makes(
            r,
            match cb {
                Some(f) => Some(
                    SourceView {
                        backend: BackendView::Function(f),
                        node: new_node(SRC_SEEKABLE),
                    },
                ),
                None => None,
            },
        ),
        errorp matches Some(e) ==> *final(e) == (if r is Some { *e } else { ZIP_ER_INVAL }),
{
    match cb {
        Some(f) => Some(ZipSource::new(SourceBackend::Function(f), SRC_SEEKABLE)),
        None => {
            if let Some(e) = errorp {
                *e = ZIP_ER_INVAL;
            }
            None
        },
    }
}

/// Makes a source of the user's; a failure is recorded on the archive.
pub fn zip_source_function<F: SourceCallback, L: LayeredCallback<F>>(
    zh: Option<&mut Zip>,
    cb: Option<F>,
) -> (r: Option<ZipSource<F, L>>)
    ensures
        makes(
            r,
            match cb {
                Some(f) => Some(
                    SourceView {
                        backend: BackendView::Function(f),
                        node: new_node(SRC_SEEKABLE),
                    },
                ),
                None => None,
            },
        ),
        zh matches Some(z) ==> {
            &&& z@.wf() ==> final(z)@.wf()
            &&& final(z)@ == noted_failure(z@, r is Some, ZIP_ER_INVAL)
        },
{
    let r = zip_source_function_create(cb, None);
    if r.is_none() {
        if let Some(z) = zh {
            z.fail(ZIP_ER_INVAL);
        }
    }
    r
}

/// What was read of a file: its bytes, and its modification time where that is
/// known.
#[derive(Debug)]
pub struct FileContent {
    pub data: Vec<u8>,
    pub mtime: Option<u64>,
}

/// The metadata of a source over a file.
pub open spec fn file_stat(c: FileContent) -> Stat {
    Stat {
        size: Some(c.data@.len() as u64),
        mtime: c.mtime,
        valid: ZIP_STAT_SIZE | ZIP_STAT_MTIME,
        ..unknown_stat()
    }
}

/// A new source over a part of a file that was read, or the error in its place.
pub open spec fn file_source<F, L>(read: Result<FileContent, i32>, start: u64, len: i64) -> Result<
    SourceView<F, L>,
    i32,
> {
    match read {
        Ok(c) => match window_source(c.data@, start, len, file_stat(c)) {
            Some(s) => Ok(s),
            None => Err(ZIP_ER_INVAL),
        },
        Err(code) => Err(code),
    }
}

/// Makes a source over a part of a file that was read.
pub fn make_file_source<F: SourceCallback, L: LayeredCallback<F>>(
    read: Result<FileContent, i32>,
    start: u64,
    len: i64,
) -> (r: Result<ZipSource<F, L>, i32>)
    ensures
        match file_source::<F, L>(read, start, len) {
            Ok(s) => r is Ok && r->Ok_0@ == s,
            Err(code) => r is Err && r->Err_0 == code,
        },
{
    match read {
        Err(code) => Err(code),
        Ok(c) => {
            let st = Stat {
                size: Some(c.data.len() as u64),
                mtime: c.mtime,
                valid: ZIP_STAT_SIZE | ZIP_STAT_MTIME,
                ..Stat::unknown()
            };
            match make_memory_source(c.data, start, len, st) {
                Some(s) => Ok(s),
                None => Err(ZIP_ER_INVAL),
            }
        },
    }
}

/// The source in a result, if it is one.
pub open spec fn made<F, L>(s: Result<SourceView<F, L>, i32>) -> Option<SourceView<F, L>> {
    match s {
        Ok(v) => Some(v),
        Err(_) => None,
    }
}

/// Makes a source over a part of a file, which `read` holds. Stores
/// `ZIP_ER_OPEN` for every failure.
pub fn zip_source_file_create<F: SourceCallback, L: LayeredCallback<F>>(
    read: Result<FileContent, i32>,
    start: u64,
    len: i64,
    errorp: Option<&mut i32>,
) -> (r: Option<ZipSource<F, L>>)
    ensures
        makes(r, made(file_source(read, start, len))),
        errorp matches Some(e) ==> *final(e) == (if r is Some { *e } else { ZIP_ER_OPEN }),
{
    match make_file_source(read, start, len) {
        Ok(s) => Some(s),
        Err(_) => {
            if let Some(e) = errorp {
                *e = ZIP_ER_OPEN;
            }
            None
        },
    }
}

/// Makes a source over a part of a file, which `read` holds; `ZIP_ER_OPEN` is
/// recorded on the archive for every failure.
pub fn zip_source_file<F: SourceCallback, L: LayeredCallback<F>>(
    zh: Option<&mut Zip>,
    read: Result<FileContent, i32>,
    start: u64,
    len: i64,
) -> (r: Option<ZipSource<F, L>>)
    ensures
        makes(r, made(file_source(read, start, len))),
        zh matches Some(z) ==> {
            &&& z@.wf() ==> final(z)@.wf()
            &&& final(z)@ == noted_failure(z@, r is Some, ZIP_ER_OPEN)
        },
{
    let r = zip_source_file_create(read, start, len, None);
    if r.is_none() {
        if let Some(z) = zh {
            z.fail(ZIP_ER_OPEN);
        }
    }
    r
}

/// Makes a source over a part of an open file stream, which `read` holds.
/// Stores `ZIP_ER_OPEN` for every failure.
pub fn zip_source_filep_create<F: SourceCallback, L: LayeredCallback<F>>(
    read: Result<FileContent, i32>,
    start: u64,
    len: i64,
    errorp: Option<&mut i32>,
) -> (r: Option<ZipSource<F, L>>)
    ensures
        makes(r, made(file_source(read, start, len))),
        errorp matches Some(e) ==> *final(e) == (if r is Some { *e } else { ZIP_ER_OPEN }),
{
    zip_source_file_create(read, start, len, errorp)
}

/// Makes a source over a part of an open file stream, which `read` holds;
/// `ZIP_ER_OPEN` is recorded on the archive for every failure.
pub fn zip_source_filep<F: SourceCallback, L: LayeredCallback<F>>(
    zh: Option<&mut Zip>,
    read: Result<FileContent, i32>,
    start: u64,
    len: i64,
) -> (r: Option<ZipSource<F, L>>)
    ensures
        makes(r, made(file_source(read, start, len))),
        zh matches Some(z) ==> {
            &&& z@.wf() ==> final(z)@.wf()
            &&& final(z)@ == noted_failure(z@, r is Some, ZIP_ER_OPEN)
        },
{
    zip_source_file(zh, read, start, len)
}

/// What a constructor with a checked length makes of a file.
pub open spec fn checked_file_source<F, L>(
    read: Result<FileContent, i32>,
    start: u64,
    len: i64,
) -> Result<SourceView<F, L>, i32> {
    if len < ZIP_LENGTH_UNCHECKED {
        Err(ZIP_ER_INVAL)
    } else {
        file_source(read, start, len)
    }
}

/// Makes a source over a part of a file that is named in the system's narrow
/// encoding, which `read` holds. Stores the code of a failure.
pub fn zip_source_win32a_create<F: SourceCallback, L: LayeredCallback<F>>(
    read: Result<FileContent, i32>,
    start: u64,
    len: i64,
    errorp: Option<&mut i32>,
) -> (r: Option<ZipSource<F, L>>)
    ensures
        makes(r, made(checked_file_source(read, start, len))),
        errorp matches Some(e) ==> *final(e) == (match checked_file_source::<F, L>(
            read,
            start,
            len,
        ) {
            Ok(_) => *e,
            Err(code) => code,
        }),
{
    let made_source = if len < ZIP_LENGTH_UNCHECKED {
        Err(ZIP_ER_INVAL)
    } else {
        make_file_source(read, start, len)
    };
    match made_source {
        Ok(s) => Some(s),
        Err(code) => {
            if let Some(e) = errorp {
                *e = code;
            }
            None
        },
    }
}

/// Makes a source over a part of a file that is named in the system's narrow
/// encoding, which `read` holds; `ZIP_ER_OPEN` is recorded on the archive for
/// every failure. There is none without an archive.
pub fn zip_source_win32a<F: SourceCallback, L: LayeredCallback<F>>(
    zh: Option<&mut Zip>,
    read: Result<FileContent, i32>,
    start: u64,
    len: i64,
) -> (r: Option<ZipSource<F, L>>)
    ensures
        zh is None ==> r is None,
        zh matches Some(z) ==> {
            &&& z@.wf() ==> final(z)@.wf()
            &&& makes(r, made(checked_file_source(read, start, len)))
            &&& final(z)@ == noted_failure(z@, r is Some, ZIP_ER_OPEN)
        },
{
    match zh {
        None => None,
        Some(z) => {
            let r = zip_source_win32a_create(read, start, len, None);
            if r.is_none() {
                z.fail(ZIP_ER_OPEN);
            }
            r
        },
    }
}

/// Makes a source over a part of a file that is named in UTF-16, which `read`
/// holds. Stores the code of a failure.
pub fn zip_source_win32w_create<F: SourceCallback, L: LayeredCallback<F>>(
    read: Result<FileContent, i32>,
    start: u64,
    len: i64,
    errorp: Option<&mut i32>,
) -> (r: Option<ZipSource<F, L>>)
    ensures
        makes(r, made(checked_file_source(read, start, len))),
        errorp matches Some(e) ==> *final(e) == (match checked_file_source::<F, L>(
            read,
            start,
            len,
        ) {
            Ok(_) => *e,
            Err(code) => code,
        }),
{
    zip_source_win32a_create(read, start, len, errorp)
}

/// Whether a length can be asked for: any number of bytes, or one of the two
/// negative lengths that reach to the end.
pub fn checked_length(len: i64) -> (r: bool)
    ensures
        r == (len >= ZIP_LENGTH_UNCHECKED),
{
    len >= ZIP_LENGTH_UNCHECKED
}

/// Makes a source over a part of a file that is named in UTF-16, which `read`
/// holds; `ZIP_ER_OPEN` is recorded on the archive for every failure. There is
/// none without an archive.
pub fn zip_source_win32w<F: SourceCallback, L: LayeredCallback<F>>(
    zh: Option<&mut Zip>,
    read: Result<FileContent, i32>,
    start: u64,
    len: i64,
) -> (r: Option<ZipSource<F, L>>)
    ensures
        zh is None ==> r is None,
        zh matches Some(z) ==> {
            &&& z@.wf() ==> final(z)@.wf()
            &&& makes(r, made(checked_file_source(read, start, len)))
            &&& final(z)@ == noted_failure(z@, r is Some, ZIP_ER_OPEN)
        },
{
    zip_source_win32a(zh, read, start, len)
}

/// Makes a source over a part of a file behind a system handle, which `read`
/// holds. Stores the code of a failure.
pub fn zip_source_win32handle_create<F: SourceCallback, L: LayeredCallback<F>>(
    read: Result<FileContent, i32>,
    start: u64,
    len: i64,
    errorp: Option<&mut i32>,
) -> (r: Option<ZipSource<F, L>>)
    ensures
        makes(r, made(checked_file_source(read, start, len))),
        errorp matches Some(e) ==> *final(e) == (match checked_file_source::<F, L>(
            read,
            start,
            len,
        ) {
            Ok(_) => *e,
            Err(code) => code,
        }),
{
    zip_source_win32a_create(read, start, len, errorp)
}

/// Makes a source over a part of a file behind a system handle, which `read`
/// holds; `ZIP_ER_INVAL` is recorded on the archive for every failure. There is
/// none without an archive.
pub fn zip_source_win32handle<F: SourceCallback, L: LayeredCallback<F>>(
    zh: Option<&mut Zip>,
    read: Result<FileContent, i32>,
    start: u64,
    len: i64,
) -> (r: Option<ZipSource<F, L>>)
    ensures
        zh is None ==> r is None,
        zh matches Some(z) ==> {
            &&& z@.wf() ==> final(z)@.wf()
            &&& makes(r, made(checked_file_source(read, start, len)))
            &&& final(z)@ == noted_failure(z@, r is Some, ZIP_ER_INVAL)
        },
{
    match zh {
        None => None,
        Some(z) => {
            let r = zip_source_win32handle_create(read, start, len, None);
            if r.is_none() {
                z.fail(ZIP_ER_INVAL);
            }
            r
        },
    }
}

/// What a window keeps of the metadata of the source below: the modification
/// time, where that is known.
pub open spec fn window_stat(answer: i64, record: DataView) -> Stat {
    match record {
        DataView::Stat(st) if answer >= 0 && st.valid & ZIP_STAT_MTIME != 0 => Stat {
            mtime: Some(st.mtime as u64),
            ..unknown_stat()
        },
        _ => unknown_stat(),
    }
}

/// The source that a window reads to its end, when it begins to.
pub open spec fn window_read<F, L>(s: SourceView<F, L>) -> SourceView<F, L> {
    let asked = step(s, ZIP_SOURCE_STAT, DataView::Stat(empty_stat()), STAT_SIZE).source;
    step(asked, ZIP_SOURCE_OPEN, DataView::Null, 0).source
}

/// What a window reads of a source in which the user has no part.
pub open spec fn window_content<F, L>(s: SourceView<F, L>) -> Option<Seq<u8>> {
    source_content(step(s, ZIP_SOURCE_STAT, DataView::Stat(empty_stat()), STAT_SIZE).source)
}

/// A new source over a part of another source, in which the user has no part:
/// none if its content is too large for memory, or the part starts behind its
/// end.
pub open spec fn window_of<F, L>(s: SourceView<F, L>, offset: u64, len: i64) -> Option<
    SourceView<F, L>,
> {
    let o = step(s, ZIP_SOURCE_STAT, DataView::Stat(empty_stat()), STAT_SIZE);
    match source_content(o.source) {
        Some(data) => window_source(data, offset, len, window_stat(o.result, o.data)),
        None => None,
    }
}

/// Makes a source over a part of another source, which it reads and lets go
/// of. Gives it with what is left of the other one: a source that cannot be
/// read stays with the caller. Stores `ZIP_ER_INVAL` for every failure.
pub fn zip_source_window_create<F: SourceCallback, L: LayeredCallback<F>>(
    src: Option<Box<ZipSource<F, L>>>,
    offset: u64,
    len: i64,
    errorp: Option<&mut i32>,
) -> (r: (Option<ZipSource<F, L>>, Option<Box<ZipSource<F, L>>>))
    ensures
        src is None ==> r.0 is None && r.1 is None,
        src matches Some(s) ==> s@.closed() ==> makes(r.0, window_of(s@, offset, len)),
        src matches Some(s) ==> s@.closed() ==> match window_content(s@) {
            None => r.1 is Some,
            Some(_) => in_sync(window_read(s@)) ==> leaves(
                r.1,
                released(drained(window_read(s@))),
            ),
        },
        src matches Some(s) ==> exists|q: &mut ZipSource<F, L>, d: &mut CommandData, answer: i64|
            {
                &&& #[trigger] call_ensures(
                    ZipSource::<F, L>::dispatch,
                    (q, ZIP_SOURCE_STAT, d, STAT_SIZE),
                    answer,
                )
                &&& *q == *s
                &&& d@ == DataView::Stat(empty_stat())
                &&& exists|p: &mut ZipSource<F, L>, read: Result<Vec<u8>, ReadFailure>|
                    {
                        let st = window_stat(answer, final(d)@);
                        &&& #[trigger] call_ensures(ZipSource::<F, L>::read_all, (p,), read)
                        &&& *p == *final(q)
                        &&& match read {
                            Ok(b) => {
                                &&& makes(r.0, window_source::<F, L>(b@, offset, len, st))
                                &&& leaves(r.1, released(final(p)@))
                            },
                            Err(_) => r.0 is None && r.1 == Some(Box::new(*final(p))),
                        }
                    }
            },
        r.0 matches Some(w) ==> w.backend is Memory && w.node@ == new_node(
            SRC_SEEKABLE | SRC_AT_EOF,
        ),
        errorp matches Some(e) ==> *final(e) == (if r.0 is Some { *e } else { ZIP_ER_INVAL }),
{
    let mut made_source: Option<ZipSource<F, L>> = None;
    let mut left: Option<Box<ZipSource<F, L>>> = None;
    if let Some(mut s) = src {
        let ghost before = s@;
        let mut data = CommandData::Stat(zip_stat::empty());
        let below: &mut ZipSource<F, L> = &mut *s;
        let answer: i64 = below.dispatch(ZIP_SOURCE_STAT, &mut data, STAT_SIZE);
        let mut st = Stat::unknown();
        if let CommandData::Stat(record) = &data {
            if answer >= 0 && record.valid & ZIP_STAT_MTIME != 0 {
                st.mtime = Some(record.mtime as u64);
            }
        }
        assert(st == window_stat(answer, data@));
        proof {
            if before.closed() {
                crate::source::lemma_step_closed(
                    before,
                    ZIP_SOURCE_STAT,
                    DataView::Stat(empty_stat()),
                    STAT_SIZE,
                );
            }
        }
        let below: &mut ZipSource<F, L> = &mut *s;
        match below.read_all() {
            Ok(bytes) => {
                let ghost content = bytes@;
                left = zip_source_free(Some(s));
                made_source = make_memory_source(bytes, offset, len, st);
                assert(makes(made_source, window_source::<F, L>(content, offset, len, st)));
            },
            Err(_) => {
                left = Some(s);
            },
        }
    }
    if made_source.is_none() {
        if let Some(e) = errorp {
            *e = ZIP_ER_INVAL;
        }
    }
    (made_source, left)
}

/// Makes a source over a part of another source; a failure is recorded on the
/// archive.
pub fn zip_source_window<F: SourceCallback, L: LayeredCallback<F>>(
    zh: Option<&mut Zip>,
    src: Option<Box<ZipSource<F, L>>>,
    offset: u64,
    len: i64,
) -> (r: (Option<ZipSource<F, L>>, Option<Box<ZipSource<F, L>>>))
    ensures
        src is None ==> r.0 is None && r.1 is None,
        src matches Some(s) ==> s@.closed() ==> makes(r.0, window_of(s@, offset, len)),
        src matches Some(s) ==> s@.closed() ==> match window_content(s@) {
            None => r.1 is Some,
            Some(_) => in_sync(window_read(s@)) ==> leaves(
                r.1,
                released(drained(window_read(s@))),
            ),
        },
        src matches Some(s) ==> exists|q: &mut ZipSource<F, L>, d: &mut CommandData, answer: i64|
            {
                &&& #[trigger] call_ensures(
                    ZipSource::<F, L>::dispatch,
                    (q, ZIP_SOURCE_STAT, d, STAT_SIZE),
                    answer,
                )
                &&& *q == *s
                &&& d@ == DataView::Stat(empty_stat())
                &&& exists|p: &mut ZipSource<F, L>, read: Result<Vec<u8>, ReadFailure>|
                    {
                        let st = window_stat(answer, final(d)@);
                        &&& #[trigger] call_ensures(ZipSource::<F, L>::read_all, (p,), read)
                        &&& *p == *final(q)
                        &&& match read {
                            Ok(b) => {
                                &&& makes(r.0, window_source::<F, L>(b@, offset, len, st))
                                &&& leaves(r.1, released(final(p)@))
                            },
                            Err(_) => r.0 is None && r.1 == Some(Box::new(*final(p))),
                        }
                    }
            },
        r.0 matches Some(w) ==> w.backend is Memory && w.node@ == new_node(
            SRC_SEEKABLE | SRC_AT_EOF,
        ),
        zh matches Some(z) ==> {
            &&& z@.wf() ==> final(z)@.wf()
            &&& final(z)@ == noted_failure(z@, r.0 is Some, ZIP_ER_INVAL)
        },
{
    let r = zip_source_window_create(src, offset, len, None);
    if r.0.is_none() {
        if let Some(z) = zh {
            z.fail(ZIP_ER_INVAL);
        }
    }
    r
}

/// The size of an error object, as it is announced to a layer.
pub const ERROR_OBJECT_SIZE: u64 = 16;

/// Puts a layer of the user's over a source, which it owns from there on. The
/// layer is asked which commands it supports, given those of the source; write
/// mode is taken out of the answer. Where it answers with a negative number it
/// is asked for its error, `ZIP_ER_INVAL` is stored, and the source stays with
/// the caller, as it does if there is no layer.
pub fn zip_source_layered_create<F: SourceCallback, L: LayeredCallback<F>>(
    src: Option<Box<ZipSource<F, L>>>,
    cb: Option<L>,
    errorp: Option<&mut i32>,
) -> (r: (Option<ZipSource<F, L>>, Option<Box<ZipSource<F, L>>>))
    ensures
        src is None || cb is None ==> {
            &&& r.0 is None
            &&& r.1 == src
            &&& errorp matches Some(e) ==> *final(e) == *e
        },
        src is Some && cb is Some ==> {
            &&& errorp matches Some(e) ==> *final(e) == (if r.0 is Some { *e } else { ZIP_ER_INVAL
            })
            &&& r.0 is Some <==> r.1 is None
            &&& exists|l: &mut L, s: &mut ZipSource<F, L>, d: &mut CommandData, a: i64|
                {
                    &&& #[trigger] call_ensures(L::call_over, (l, s, d, 8, ZIP_SOURCE_SUPPORTS), a)
                    &&& *l == cb->0
                    &&& *d == CommandData::Supports(s.node.supports)
                    &&& exists|q: &mut ZipSource<F, L>, m: i64|
                        {
                            &&& #[trigger] call_ensures(
                                ZipSource::<F, L>::query_supports,
                                (q,),
                                m,
                            )
                            &&& *q == *src->0
                            &&& *final(q) == *s
                        }
                    &&& r.0 is Some <==> a >= 0
                    &&& a < 0 ==> exists|
                        k: &mut L,
                        t: &mut ZipSource<F, L>,
                        e: &mut CommandData,
                        b: i64,
                    |
                        {
                            &&& #[trigger] call_ensures(
                                L::call_over,
                                (k, t, e, ERROR_OBJECT_SIZE, ZIP_SOURCE_ERROR),
                                b,
                            )
                            &&& *k == *final(l)
                            &&& *t == *final(s)
                            &&& *e == CommandData::Error(ErrorPair { zip_err: 0, sys_err: 0 })
                            &&& r.1 == Some(Box::new(*final(t)))
                        }
                    &&& r.0 matches Some(w) ==> {
                        &&& w.backend == SourceBackend::Layered {
                            lower: Box::new(*final(s)),
                            layer: Layer::User(*final(l)),
                        }
                        &&& w.node@ == new_node(a & !SRC_WRITABLE)
                    }
                }
        },
{
    match (src, cb) {
        (Some(mut s), Some(mut l)) => {
            let asked: &mut ZipSource<F, L> = &mut *s;
            let mask: i64 = asked.query_supports();
            let mut data = CommandData::Supports(mask);
            let below: &mut ZipSource<F, L> = &mut *s;
            let supports: i64 = l.call_over(below, &mut data, 8, ZIP_SOURCE_SUPPORTS);
            if supports < 0 {
                if let Some(e) = errorp {
                    *e = ZIP_ER_INVAL;
                }
                let mut pair = CommandData::Error(ErrorPair { zip_err: 0, sys_err: 0 });
                let below: &mut ZipSource<F, L> = &mut *s;
                let _ = l.call_over(below, &mut pair, ERROR_OBJECT_SIZE, ZIP_SOURCE_ERROR);
                return (None, Some(s));
            }
            let layered = ZipSource::new(
                SourceBackend::Layered { lower: s, layer: Layer::User(l) },
                supports & !SRC_WRITABLE,
            );
            (Some(layered), None)
        },
        (s, _) => (None, s),
    }
}

/// Puts a layer of the user's over a source; a failure is recorded on the
/// archive.
pub fn zip_source_layered<F: SourceCallback, L: LayeredCallback<F>>(
    za: Option<&mut Zip>,
    src: Option<Box<ZipSource<F, L>>>,
    cb: Option<L>,
) -> (r: (Option<ZipSource<F, L>>, Option<Box<ZipSource<F, L>>>))
    ensures
        src is None || cb is None ==> r.0 is None && r.1 == src,
        src is Some && cb is Some ==> {
            &&& r.0 is Some <==> r.1 is None
            &&& exists|l: &mut L, s: &mut ZipSource<F, L>, d: &mut CommandData, a: i64|
                {
                    &&& #[trigger] call_ensures(L::call_over, (l, s, d, 8, ZIP_SOURCE_SUPPORTS), a)
                    &&& *l == cb->0
                    &&& *d == CommandData::Supports(s.node.supports)
                    &&& exists|q: &mut ZipSource<F, L>, m: i64|
                        {
                            &&& #[trigger] call_ensures(
                                ZipSource::<F, L>::query_supports,
                                (q,),
                                m,
                            )
                            &&& *q == *src->0
                            &&& *final(q) == *s
                        }
                    &&& r.0 is Some <==> a >= 0
                    &&& a < 0 ==> exists|
                        k: &mut L,
                        t: &mut ZipSource<F, L>,
                        e: &mut CommandData,
                        b: i64,
                    |
                        {
                            &&& #[trigger] call_ensures(
                                L::call_over,
                                (k, t, e, ERROR_OBJECT_SIZE, ZIP_SOURCE_ERROR),
                                b,
                            )
                            &&& *k == *final(l)
                            &&& *t == *final(s)
                            &&& *e == CommandData::Error(ErrorPair { zip_err: 0, sys_err: 0 })
                            &&& r.1 == Some(Box::new(*final(t)))
                        }
                    &&& r.0 matches Some(w) ==> {
                        &&& w.backend == SourceBackend::Layered {
                            lower: Box::new(*final(s)),
                            layer: Layer::User(*final(l)),
                        }
                        &&& w.node@ == new_node(a & !SRC_WRITABLE)
                    }
                }
        },
        za matches Some(z) ==> {
            &&& z@.wf() ==> final(z)@.wf()
            &&& final(z)@ == noted_failure(z@, r.0 is Some, ZIP_ER_INVAL)
        },
{
    let r = zip_source_layered_create(src, cb, None);
    if r.0.is_none() {
        if let Some(z) = za {
            z.fail(ZIP_ER_INVAL);
        }
    }
    r
}

/// The state of a new CRC layer.
pub open spec fn new_crc(validate: i32) -> CrcCtx {
    CrcCtx {
        validate,
        crc_complete: false,
        size: 0,
        position: 0,
        crc_position: 0,
        crc: 0,
        running: 0,
        err_zip: 0,
        err_sys: 0,
    }
}

/// Puts a layer that computes the CRC-32 over a source, which it owns from
/// there on. Where the mask of the source is out of order the source stays with
/// the caller.
pub fn zip_source_crc_create<F: SourceCallback, L: LayeredCallback<F>>(
    src: Option<Box<ZipSource<F, L>>>,
    validate: i32,
) -> (r: (Option<ZipSource<F, L>>, Option<Box<ZipSource<F, L>>>))
    ensures
        src is None ==> r.0 is None && r.1 is None,
        src is Some ==> (r.0 is Some <==> r.1 is None),
        r.0 matches Some(w) ==> {
            &&& w.backend is Layered
            &&& w.backend->layer == Layer::<L>::Crc(new_crc(validate))
        },
        src matches Some(s) ==> s@.closed() ==> {
            let o = supports_step(s@);
            let mask = crc_mask(DataView::Supports(o.result), 8);
            &&& r.0 is Some <==> mask >= 0
            &&& r.0 matches Some(w) ==> w@ == (SourceView {
                backend: BackendView::Layered {
                    lower: Box::new(o.source),
                    layer: Layer::Crc(new_crc(validate)),
                },
                node: new_node(mask & !SRC_WRITABLE),
            })
            &&& r.1 matches Some(l) ==> l@ == o.source
        },
        src matches Some(s) ==> exists|q: &mut ZipSource<F, L>, m: i64|
            {
                let mask = crc_mask(DataView::Supports(m), 8);
                &&& #[trigger] call_ensures(ZipSource::<F, L>::query_supports, (q,), m)
                &&& *q == *s
                &&& r.0 is Some <==> mask >= 0
                &&& r.0 matches Some(w) ==> {
                    &&& w.backend == SourceBackend::Layered {
                        lower: Box::new(*final(q)),
                        layer: Layer::<L>::Crc(new_crc(validate)),
                    }
                    &&& w.node@ == new_node(mask & !SRC_WRITABLE)
                }
                &&& r.1 matches Some(l) ==> *l == *final(q)
            },
{
    match src {
        None => (None, None),
        Some(mut s) => {
            let mut ctx = CrcCtx {
                validate,
                crc_complete: false,
                size: 0,
                position: 0,
                crc_position: 0,
                crc: 0,
                running: 0,
                err_zip: 0,
                err_sys: 0,
            };
            proof {
                if s@.closed() {
                    crate::source::lemma_step_closed(
                        s@,
                        ZIP_SOURCE_SUPPORTS,
                        DataView::Null,
                        0,
                    );
                    lemma_supports_closed(s@);
                }
            }
            let asked: &mut ZipSource<F, L> = &mut *s;
            let mask: i64 = asked.query_supports();
            let mut data = CommandData::Supports(mask);
            let below: &mut ZipSource<F, L> = &mut *s;
            let supports: i64 = crc_layered_cb(below, &mut ctx, &mut data, 8, ZIP_SOURCE_SUPPORTS);
            if supports < 0 {
                return (None, Some(s));
            }
            let layered = ZipSource::new(
                SourceBackend::Layered { lower: s, layer: Layer::Crc(ctx) },
                supports & !SRC_WRITABLE,
            );
            (Some(layered), None)
        },
    }
}

proof fn lemma_supports_closed<F, L>(s: SourceView<F, L>)
    requires
        s.closed(),
    ensures
        supports_step(s).source.closed(),
{
    crate::source::lemma_step_closed(s, ZIP_SOURCE_SUPPORTS, DataView::Null, 0);
}

/// A new source over a part of an entry, given its bytes and its metadata or
/// the errors in their place. Metadata that cannot be had is unknown.
pub open spec fn entry_source<F, L>(
    content: Result<Vec<u8>, i32>,
    stat: Result<Stat, i32>,
    start: u64,
    len: i64,
) -> Option<SourceView<F, L>> {
    match content {
        Ok(data) => window_source(
            data@,
            start,
            len,
            match stat {
                Ok(st) => st,
                Err(_) => unknown_stat(),
            },
        ),
        Err(_) => None,
    }
}

/// Makes a source over a part of an entry.
pub fn make_entry_source<F: SourceCallback, L: LayeredCallback<F>>(
    content: Result<Vec<u8>, i32>,
    stat: Result<Stat, i32>,
    start: u64,
    len: i64,
) -> (r: Option<ZipSource<F, L>>)
    ensures
        makes(r, entry_source(content, stat, start, len)),
{
    match content {
        Err(_) => None,
        Ok(data) => {
            let st = match stat {
                Ok(s) => s,
                Err(_) => Stat::unknown(),
            };
            make_memory_source(data, start, len, st)
        },
    }
}

/// Whether the flags ask for the stored bytes of an entry.
pub open spec fn wants_stored(flags: u32) -> bool {
    flags & ZIP_FL_COMPRESSED != 0
}

/// Makes a source over a part of the entry `index` of an archive: of its stored
/// bytes with `ZIP_FL_COMPRESSED`, of its contents without. `read` reads the
/// bytes, stored or not, and `stat` the metadata. For a failure the last error
/// of the archive is stored, `ZIP_ER_READ` without an archive.
pub fn zip_source_zip_create<
    F: SourceCallback,
    L: LayeredCallback<F>,
    R: Fn(u64, bool) -> Result<Vec<u8>, i32>,
    S: Fn(u64) -> Result<Stat, i32>,
>(
    za: Option<&Zip>,
    index: u64,
    flags: u32,
    start: u64,
    len: i64,
    errorp: Option<&mut i32>,
    read: R,
    stat: S,
) -> (r: Option<ZipSource<F, L>>)
    requires
        forall|i: u64, stored: bool| call_requires(read, (i, stored)),
        forall|i: u64| call_requires(stat, (i,)),
    ensures
        za is None ==> r is None,
        za is Some ==> exists|content: Result<Vec<u8>, i32>, st: Result<Stat, i32>|
            {
                &&& #[trigger] call_ensures(read, (index, wants_stored(flags)), content)
                &&& #[trigger] call_ensures(stat, (index,), st)
                &&& makes(r, entry_source(content, st, start, len))
            },
        errorp matches Some(e) ==> *final(e) == (if r is Some {
            *e
        } else {
            match za {
                Some(z) => z@.error.zip_err,
                None => ZIP_ER_READ,
            }
        }),
{
    let r = match za {
        None => None,
        Some(_) => {
            let content = read(index, flags & ZIP_FL_COMPRESSED != 0);
            let st = stat(index);
            make_entry_source(content, st, start, len)
        },
    };
    if r.is_none() {
        if let Some(e) = errorp {
            *e = match za {
                Some(z) => z.error.zip_err,
                None => ZIP_ER_READ,
            };
        }
    }
    r
}

/// Makes a source over a part of the entry `index` of the archive `srcza`;
/// `ZIP_ER_READ` is recorded on the archive `za` for every failure.
pub fn zip_source_zip<
    F: SourceCallback,
    L: LayeredCallback<F>,
    R: Fn(u64, bool) -> Result<Vec<u8>, i32>,
    S: Fn(u64) -> Result<Stat, i32>,
>(
    za: Option<&mut Zip>,
    srcza: Option<&Zip>,
    index: u64,
    flags: u32,
    start: u64,
    len: i64,
    read: R,
    stat: S,
) -> (r: Option<ZipSource<F, L>>)
    requires
        forall|i: u64, stored: bool| call_requires(read, (i, stored)),
        forall|i: u64| call_requires(stat, (i,)),
    ensures
        srcza is None ==> r is None,
        srcza is Some ==> exists|content: Result<Vec<u8>, i32>, st: Result<Stat, i32>|
            {
                &&& #[trigger] call_ensures(read, (index, wants_stored(flags)), content)
                &&& #[trigger] call_ensures(stat, (index,), st)
                &&& makes(r, entry_source(content, st, start, len))
            },
        za matches Some(z) ==> {
            &&& z@.wf() ==> final(z)@.wf()
            &&& final(z)@ == noted_failure(z@, r is Some, ZIP_ER_READ)
        },
{
    let r = zip_source_zip_create(srcza, index, flags, start, len, None, read, stat);
    if r.is_none() {
        if let Some(z) = za {
            z.fail(ZIP_ER_READ);
        }
    }
    r
}

/// Makes a source over a part of an entry, as `zip_source_zip_create` does. The
/// name has no effect.
pub fn zip_source_zip_file_create<
    F: SourceCallback,
    L: LayeredCallback<F>,
    R: Fn(u64, bool) -> Result<Vec<u8>, i32>,
    S: Fn(u64) -> Result<Stat, i32>,
>(
    za: Option<&Zip>,
    index: u64,
    flags: u32,
    start: u64,
    len: i64,
    _name: Option<&[u8]>,
    errorp: Option<&mut i32>,
    read: R,
    stat: S,
) -> (r: Option<ZipSource<F, L>>)
    requires
        forall|i: u64, stored: bool| call_requires(read, (i, stored)),
        forall|i: u64| call_requires(stat, (i,)),
    ensures
        za is None ==> r is None,
        za is Some ==> exists|content: Result<Vec<u8>, i32>, st: Result<Stat, i32>|
            {
                &&& #[trigger] call_ensures(read, (index, wants_stored(flags)), content)
                &&& #[trigger] call_ensures(stat, (index,), st)
                &&& makes(r, entry_source(content, st, start, len))
            },
        errorp matches Some(e) ==> *final(e) == (if r is Some {
            *e
        } else {
            match za {
                Some(z) => z@.error.zip_err,
                None => ZIP_ER_READ,
            }
        }),
{
    zip_source_zip_create(za, index, flags, start, len, errorp, read, stat)
}

/// Makes a source over a part of an entry, as `zip_source_zip` does. The name
/// has no effect.
pub fn zip_source_zip_file<
    F: SourceCallback,
    L: LayeredCallback<F>,
    R: Fn(u64, bool) -> Result<Vec<u8>, i32>,
    S: Fn(u64) -> Result<Stat, i32>,
>(
    za: Option<&mut Zip>,
    srcza: Option<&Zip>,
    index: u64,
    flags: u32,
    start: u64,
    len: i64,
    _name: Option<&[u8]>,
    read: R,
    stat: S,
) -> (r: Option<ZipSource<F, L>>)
    requires
        forall|i: u64, stored: bool| call_requires(read, (i, stored)),
        forall|i: u64| call_requires(stat, (i,)),
    ensures
        srcza is None ==> r is None,
        srcza is Some ==> exists|content: Result<Vec<u8>, i32>, st: Result<Stat, i32>|
            {
                &&& #[trigger] call_ensures(read, (index, wants_stored(flags)), content)
                &&& #[trigger] call_ensures(stat, (index,), st)
                &&& makes(r, entry_source(content, st, start, len))
            },
        za matches Some(z) ==> {
            &&& z@.wf() ==> final(z)@.wf()
            &&& final(z)@ == noted_failure(z@, r is Some, ZIP_ER_READ)
        },
{
    zip_source_zip(za, srcza, index, flags, start, len, read, stat)
}

} // verus!
