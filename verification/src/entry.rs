//! Open entries, and the metadata of entries.
//!
//! The archive engine reads and stats entries and positions its readers; what
//! is decided before and behind its work stands here.

use crate::archive::{EntryTime, Zip, ZipView};
use crate::command::{compute_target, seek_target, ZipSourceArgsSeek};
use crate::consts::{
    ZIP_EM_AES_128, ZIP_EM_AES_192, ZIP_EM_AES_256, ZIP_ER_INVAL, ZIP_ER_READ, ZIP_ER_SEEK,
};
use crate::edit::check_name;
use crate::errors::{err_msg, err_str, error_of, no_error, zip_error, ErrorView};
use crate::handle::{found, locate_outcome, shown_name};
use crate::stat::{copy_bytes, value_or, zip_stat, Stat, StatView};
use vstd::prelude::*;
use vstd::slice::slice_to_vec;

verus! {

/// The error state of an open entry.
#[derive(Debug)]
pub struct ZipFile {
    /// Code of the last error.
    pub last_error: i32,
    /// Its message.
    pub err_msg: &'static str,
    /// The error object.
    pub error: zip_error,
}

/// What the error state of an open entry says.
pub ghost struct FileErrorView {
    pub last_error: i32,
    pub err_msg: Seq<char>,
    pub error: ErrorView,
}

impl View for ZipFile {
    type V = FileErrorView;

    open spec fn view(&self) -> FileErrorView {
        FileErrorView {
            last_error: self.last_error,
            err_msg: self.err_msg@,
            error: self.error@,
        }
    }
}

/// The state of an entry that has just been opened.
pub open spec fn opened_file() -> FileErrorView {
    FileErrorView { last_error: 0, err_msg: err_msg(0), error: no_error() }
}

/// The state of an open entry behind an error.
pub open spec fn failed_file(code: i32) -> FileErrorView {
    FileErrorView { last_error: code, err_msg: err_msg(code), error: error_of(code, 0) }
}

impl ZipFile {
    /// The state of an entry that has just been opened.
    pub fn new() -> (r: ZipFile)
        ensures
            r@ == opened_file(),
    {
        ZipFile { last_error: 0, err_msg: err_str(0), error: zip_error::new() }
    }

    /// Records an error.
    pub fn set_err(&mut self, code: i32)
        ensures
            final(self)@ == failed_file(code),
    {
        self.last_error = code;
        self.err_msg = err_str(code);
        self.error.record(code, 0);
    }
}

/// What the reader of an open entry is made of.
#[derive(Debug)]
pub struct OpenedEntry {
    /// The error state.
    pub file: ZipFile,
    /// The contents.
    pub data: Vec<u8>,
    /// The size that the contents should have.
    pub size: u64,
    /// The CRC-32 that the contents should have; none if it is not checked.
    pub crc: Option<u32>,
}

/// Whether an entry on disk is encrypted by AES. Such entries carry no CRC.
pub open spec fn is_aes(z: ZipView, index: u64) -> bool {
    index < z.len() && {
        let m = z.archive.entries[index as int].encryption_method;
        m == ZIP_EM_AES_128 || m == ZIP_EM_AES_192 || m == ZIP_EM_AES_256
    }
}

/// Opening an entry, given its contents and its metadata or the errors in
/// their place: the archive behind it, and whether the entry is opened.
pub open spec fn open_outcome(
    z: ZipView,
    content: Result<Vec<u8>, i32>,
    stat: Result<Stat, i32>,
) -> (ZipView, bool) {
    match (content, stat) {
        (Err(code), _) => (z.failed(code), false),
        (_, Err(code)) => (z.failed(code), false),
        _ => (z, true),
    }
}

/// An opened entry: the contents that were read, the size that the metadata
/// says, and the CRC-32 where it is checked.
pub open spec fn is_opened(
    e: OpenedEntry,
    z: ZipView,
    index: u64,
    content: Vec<u8>,
    stat: Stat,
) -> bool {
    &&& e.file@ == opened_file()
    &&& e.data@ == content@
    &&& e.size == value_or(stat.size, 0)
    &&& e.crc == (if is_aes(z, index) {
        None
    } else {
        Some(value_or(stat.crc, 0))
    })
}

/// Opens an entry whose contents and metadata are at hand.
pub fn make_zipfile(
    z: &mut Zip,
    content: Result<Vec<u8>, i32>,
    index: u64,
    stat: Result<Stat, i32>,
) -> (r: Option<OpenedEntry>)
    ensures
        old(z)@.wf() ==> final(z)@.wf(),
        (final(z)@, r is Some) == open_outcome(old(z)@, content, stat),
        r matches Some(e) ==> is_opened(e, old(z)@, index, content->Ok_0, stat->Ok_0),
{
    match content {
        Err(code) => {
            z.fail(code);
            None
        },
        Ok(data) => match stat {
            Err(code) => {
                z.fail(code);
                None
            },
            Ok(st) => {
                let aes = if index < z.archive.entries.len() as u64 {
                    let m: u16 = z.archive.entries[index as usize].encryption_method;
                    m == ZIP_EM_AES_128 || m == ZIP_EM_AES_192 || m == ZIP_EM_AES_256
                } else {
                    false
                };
                let crc = if aes {
                    None
                } else {
                    Some(st.crc.unwrap_or(0))
                };
                Some(
                    OpenedEntry { file: ZipFile::new(), data, size: st.size.unwrap_or(0), crc },
                )
            },
        },
    }
}

/// Opens an entry by its index. `read` reads its contents and `stat` its
/// metadata. The flags have no effect.
pub fn zip_fopen_index<
    R: Fn(u64) -> Result<Vec<u8>, i32>,
    S: Fn(u64) -> Result<Stat, i32>,
>(zh: Option<&mut Zip>, index: u64, _flags: u32, read: R, stat: S) -> (r: Option<OpenedEntry>)
    requires
        forall|i: u64| call_requires(read, (i,)),
        forall|i: u64| call_requires(stat, (i,)),
    ensures
        zh is None ==> r is None,
        zh matches Some(z) ==> {
            &&& z@.wf() ==> final(z)@.wf()
            &&& exists|content: Result<Vec<u8>, i32>, st: Result<Stat, i32>|
                {
                    &&& #[trigger] call_ensures(read, (index,), content)
                    &&& #[trigger] call_ensures(stat, (index,), st)
                    &&& (final(z)@, r is Some) == open_outcome(z@, content, st)
                    &&& r matches Some(e) ==> is_opened(e, z@, index, content->Ok_0, st->Ok_0)
                }
        },
{
    match zh {
        None => None,
        Some(z) => {
            let content = read(index);
            let st = stat(index);
            make_zipfile(z, content, index, st)
        },
    }
}

/// Opens the first entry named `name`. `read` reads its contents and `stat` its
/// metadata. The flags have no effect.
pub fn zip_fopen<R: Fn(u64) -> Result<Vec<u8>, i32>, S: Fn(u64) -> Result<Stat, i32>>(
    zh: Option<&mut Zip>,
    name: Option<&[u8]>,
    flags: u32,
    read: R,
    stat: S,
) -> (r: Option<OpenedEntry>)
    requires
        forall|i: u64| call_requires(read, (i,)),
        forall|i: u64| call_requires(stat, (i,)),
    ensures
        zh is None ==> r is None,
        zh matches Some(z) ==> {
            &&& z@.wf() ==> final(z)@.wf()
            &&& match found(z@, name) {
                None => r is None && final(z)@ == locate_outcome(z@, name).0,
                Some(index) => exists|content: Result<Vec<u8>, i32>, st: Result<Stat, i32>|
                    {
                        &&& #[trigger] call_ensures(read, (index,), content)
                        &&& #[trigger] call_ensures(stat, (index,), st)
                        &&& (final(z)@, r is Some) == open_outcome(z@, content, st)
                        &&& r matches Some(e) ==> is_opened(
                            e,
                            z@,
                            index,
                            content->Ok_0,
                            st->Ok_0,
                        )
                    },
            }
        },
{
    match zh {
        None => None,
        Some(z) => match z.locate(name) {
            None => None,
            Some(k) => {
                let ghost index = found(z@, name)->0;
                assert(index == k);
                zip_fopen_index(Some(z), k as u64, flags, read, stat)
            },
        },
    }
}

/// Opens an encrypted entry by its index. `read` decrypts its contents by the
/// password, and `stat` reads its metadata. The flags have no effect.
pub fn zip_fopen_index_encrypted<
    R: Fn(u64, Vec<u8>) -> Result<Vec<u8>, i32>,
    S: Fn(u64) -> Result<Stat, i32>,
>(
    zh: Option<&mut Zip>,
    index: u64,
    _flags: u32,
    password: Option<&[u8]>,
    read: R,
    stat: S,
) -> (r: Option<OpenedEntry>)
    requires
        forall|i: u64, p: Vec<u8>| call_requires(read, (i, p)),
        forall|i: u64| call_requires(stat, (i,)),
    ensures
        zh is None ==> r is None,
        zh matches Some(z) ==> {
            &&& z@.wf() ==> final(z)@.wf()
            &&& match password {
                None => r is None && final(z)@ == z@.failed(ZIP_ER_INVAL),
                Some(pw) => exists|
                    p: Vec<u8>,
                    content: Result<Vec<u8>, i32>,
                    st: Result<Stat, i32>,
                |
                    {
                        &&& p@ == pw@
                        &&& #[trigger] call_ensures(read, (index, p), content)
                        &&& #[trigger] call_ensures(stat, (index,), st)
                        &&& (final(z)@, r is Some) == open_outcome(z@, content, st)
                        &&& r matches Some(e) ==> is_opened(
                            e,
                            z@,
                            index,
                            content->Ok_0,
                            st->Ok_0,
                        )
                    },
            }
        },
{
    match zh {
        None => None,
        Some(z) => match password {
            None => {
                z.fail(ZIP_ER_INVAL);
                None
            },
            Some(pw) => {
                let content = read(index, slice_to_vec(pw));
                let st = stat(index);
                make_zipfile(z, content, index, st)
            },
        },
    }
}

/// Opens the first entry named `name`, which is encrypted. `read` decrypts its
/// contents by the password, and `stat` reads its metadata. The flags have no
/// effect.
pub fn zip_fopen_encrypted<
    R: Fn(u64, Vec<u8>) -> Result<Vec<u8>, i32>,
    S: Fn(u64) -> Result<Stat, i32>,
>(
    zh: Option<&mut Zip>,
    name: Option<&[u8]>,
    flags: u32,
    password: Option<&[u8]>,
    read: R,
    stat: S,
) -> (r: Option<OpenedEntry>)
    requires
        forall|i: u64, p: Vec<u8>| call_requires(read, (i, p)),
        forall|i: u64| call_requires(stat, (i,)),
    ensures
        zh is None ==> r is None,
        zh matches Some(z) ==> {
            &&& z@.wf() ==> final(z)@.wf()
            &&& match password {
                None => r is None && final(z)@ == z@.failed(ZIP_ER_INVAL),
                Some(pw) => match found(z@, name) {
                    None => r is None && final(z)@ == locate_outcome(z@, name).0,
                    Some(index) => exists|
                        p: Vec<u8>,
                        content: Result<Vec<u8>, i32>,
                        st: Result<Stat, i32>,
                    |
                        {
                            &&& p@ == pw@
                            &&& #[trigger] call_ensures(read, (index, p), content)
                            &&& #[trigger] call_ensures(stat, (index,), st)
                            &&& (final(z)@, r is Some) == open_outcome(z@, content, st)
                            &&& r matches Some(e) ==> is_opened(
                                e,
                                z@,
                                index,
                                content->Ok_0,
                                st->Ok_0,
                            )
                        },
                },
            }
        },
{
    match zh {
        None => None,
        Some(z) => {
            if password.is_none() {
                z.fail(ZIP_ER_INVAL);
                return None;
            }
            match z.locate(name) {
                None => None,
                Some(k) => {
                    let ghost index = found(z@, name)->0;
                    assert(index == k);
                    zip_fopen_index_encrypted(Some(z), k as u64, flags, password, read, stat)
                },
            }
        },
    }
}

/// What is left to do for a read or a seek.
#[derive(Clone, Copy, Debug, PartialEq, Eq, Structural)]
pub enum ReaderStep {
    /// Nothing; the operation has failed.
    Failed,
    /// Move the reader: read from it, or set it to this position.
    Move(u64),
}

/// Reads up to `nbytes` bytes from an open entry, as far as that can be decided
/// before reading: without a buffer it fails. Otherwise the reader is asked
/// for that many bytes, and `read_done` gives the result.
pub fn zip_fread(fh: Option<&mut ZipFile>, has_buffer: bool, nbytes: u64) -> (r: ReaderStep)
    ensures
        r == (if fh is Some && has_buffer {
            ReaderStep::Move(nbytes)
        } else {
            ReaderStep::Failed
        }),
        fh matches Some(f) ==> final(f)@ == (if has_buffer {
            f@
        } else {
            failed_file(ZIP_ER_INVAL)
        }),
{
    match fh {
        None => ReaderStep::Failed,
        Some(f) => {
            if !has_buffer {
                f.set_err(ZIP_ER_INVAL);
                return ReaderStep::Failed;
            }
            ReaderStep::Move(nbytes)
        },
    }
}

/// Ends a read: gives the number of bytes, or -1 where the reader failed.
pub fn read_done(f: &mut ZipFile, count: Option<u64>) -> (r: i64)
    ensures
        r == (match count {
            Some(n) => n as i64,
            None => (-1) as i64,
        }),
        final(f)@ == (match count {
            Some(_) => old(f)@,
            None => failed_file(ZIP_ER_READ),
        }),
{
    match count {
        Some(n) => n as i64,
        None => {
            f.set_err(ZIP_ER_READ);
            -1
        },
    }
}

/// Seeks in an open entry, as far as that can be decided before moving the
/// reader, which stands at `position` of `size` bytes. `seek_done` gives the
/// result.
pub fn zip_fseek(
    fh: Option<&mut ZipFile>,
    offset: i64,
    whence: i32,
    position: u64,
    size: u64,
) -> (r: ReaderStep)
    ensures
        fh is None ==> r == ReaderStep::Failed,
        fh matches Some(f) ==> match seek_target(
            ZipSourceArgsSeek { offset, whence },
            position,
            size,
        ) {
            Some(target) => r == ReaderStep::Move(target) && final(f)@ == f@,
            None => r == ReaderStep::Failed && final(f)@ == failed_file(ZIP_ER_INVAL),
        },
{
    match fh {
        None => ReaderStep::Failed,
        Some(f) => match compute_target(ZipSourceArgsSeek { offset, whence }, position, size) {
            Some(target) => ReaderStep::Move(target),
            None => {
                f.set_err(ZIP_ER_INVAL);
                ReaderStep::Failed
            },
        },
    }
}

/// Ends a seek: gives 0, or -1 where the reader could not be moved.
pub fn seek_done(f: &mut ZipFile, moved: bool) -> (r: i8)
    ensures
        r == (if moved { 0int } else { -1 }),
        final(f)@ == (if moved { old(f)@ } else { failed_file(ZIP_ER_SEEK) }),
{
    if moved {
        0
    } else {
        f.set_err(ZIP_ER_SEEK);
        -1
    }
}

/// The position of the reader of an open entry, or -1 without an entry.
pub fn zip_ftell(fh: Option<&ZipFile>, position: u64) -> (r: i64)
    ensures
        r == (match fh {
            Some(_) => position as i64,
            None => (-1) as i64,
        }),
{
    match fh {
        Some(_) => position as i64,
        None => -1,
    }
}

/// 1 if the reader of an open entry can seek, 0 if not, -1 without an entry.
pub fn zip_file_is_seekable(fh: Option<&ZipFile>, seekable: bool) -> (r: i32)
    ensures
        r == (match fh {
            Some(_) => if seekable { 1int } else { 0 },
            None => -1,
        }),
{
    match fh {
        Some(_) => if seekable {
            1
        } else {
            0
        },
        None => -1,
    }
}

/// Lets go of an open entry. Gives 0, or -1 without an entry.
pub fn zip_fclose(fh: Option<ZipFile>) -> (r: i32)
    ensures
        r == (if fh is Some { 0int } else { -1 }),
{
    match fh {
        Some(_) => 0,
        None => -1,
    }
}

/// The message of the last error of an open entry.
pub fn zip_file_strerror(fh: Option<&ZipFile>) -> (r: Option<&'static str>)
    ensures
        match fh {
            Some(f) => r is Some && r->0@ == f@.err_msg,
            None => r is None,
        },
{
    match fh {
        Some(f) => Some(f.err_msg),
        None => None,
    }
}

/// Clears the last error of an open entry.
pub fn zip_file_error_clear(fh: Option<&mut ZipFile>)
    ensures
        fh matches Some(f) ==> final(f)@ == failed_file(0),
{
    if let Some(f) = fh {
        f.set_err(0);
    }
}

/// Stores the codes of the last error of an open entry.
pub fn zip_file_error_get(fh: Option<&ZipFile>, zep: Option<&mut i32>, sep: Option<&mut i32>)
    ensures
        zep matches Some(e) ==> *final(e) == (match fh {
            Some(f) => f@.error.zip_err,
            None => *e,
        }),
        sep matches Some(e) ==> *final(e) == (match fh {
            Some(f) => f@.error.sys_err,
            None => *e,
        }),
{
    if let Some(f) = fh {
        if let Some(e) = zep {
            *e = f.error.zip_err;
        }
        if let Some(e) = sep {
            *e = f.error.sys_err;
        }
    }
}

/// The error object of an open entry.
pub fn zip_file_get_error(fh: Option<&ZipFile>) -> (r: Option<zip_error>)
    ensures
        match fh {
            Some(f) => r is Some && r->0@ == f@.error,
            None => r is None,
        },
{
    match fh {
        Some(f) => Some(f.error),
        None => None,
    }
}

/// The stat record of an entry: what is known of it on disk, the name that the
/// getter shows, and its time with the edits.
pub open spec fn entry_stat(z: ZipView, st: Stat, mtime: i64) -> StatView {
    StatView {
        valid: st.valid,
        name: shown_name(z, value_or(st.index, 0)),
        index: value_or(st.index, 0),
        size: value_or(st.size, 0),
        comp_size: value_or(st.comp_size, 0),
        mtime,
        crc: value_or(st.crc, 0),
        comp_method: value_or(st.comp_method, 0),
        encryption_method: value_or(st.encryption_method, 0),
        flags: 0,
    }
}

/// Fills a stat record for an entry, where `mtime` is its time in Unix seconds.
/// Gives 0, or -1 without a record.
pub fn fill_stat(z: &Zip, stat: &Stat, mtime: i64, sb: Option<&mut zip_stat>) -> (r: i32)
    ensures
        sb is None ==> r == -1,
        sb matches Some(b) ==> r == 0 && final(b)@ == entry_stat(z@, *stat, mtime),
{
    match sb {
        None => -1,
        Some(b) => {
            let index: u64 = stat.index.unwrap_or(0);
            let name = if index < z.names.len() as u64 {
                match &z.names[index as usize] {
                    Some(n) => Some(copy_bytes(n)),
                    None => None,
                }
            } else {
                None
            };
            b.valid = stat.valid;
            b.name = name;
            b.index = index;
            b.size = stat.size.unwrap_or(0);
            b.comp_size = stat.comp_size.unwrap_or(0);
            b.mtime = mtime;
            b.crc = stat.crc.unwrap_or(0);
            b.comp_method = stat.comp_method.unwrap_or(0);
            b.encryption_method = stat.encryption_method.unwrap_or(0);
            b.flags = 0;
            0
        },
    }
}

/// Fills a stat record for the entry at `index`. `stat` reads its metadata and
/// `to_unix` converts its time to Unix seconds. Gives 0 or -1. The flags have
/// no effect.
pub fn zip_stat_index<S: Fn(u64) -> Result<Stat, i32>, T: Fn(EntryTime) -> i64>(
    zh: Option<&mut Zip>,
    index: u64,
    _flags: u32,
    sb: Option<&mut zip_stat>,
    stat: S,
    to_unix: T,
) -> (r: i32)
    requires
        forall|i: u64| call_requires(stat, (i,)),
        forall|t: EntryTime| call_requires(to_unix, (t,)),
    ensures
        zh is None ==> r == -1 && (sb matches Some(b) ==> *final(b) == *b),
        zh matches Some(z) ==> {
            &&& z@.wf() ==> final(z)@.wf()
            &&& exists|st: Result<Stat, i32>|
                {
                    &&& #[trigger] call_ensures(stat, (index,), st)
                    &&& match st {
                        Err(code) => {
                            &&& r == -1
                            &&& final(z)@ == z@.failed(code)
                            &&& sb matches Some(b) ==> *final(b) == *b
                        },
                        Ok(s) => {
                            &&& final(z)@ == z@
                            &&& sb is None ==> r == -1
                            &&& sb matches Some(b) ==> r == 0 && exists|t: i64|
                                call_ensures(
                                    to_unix,
                                    (z@.effective_time(value_or(s.index, 0)),),
                                    t,
                                ) && final(b)@ == #[trigger] entry_stat(z@, s, t)
                        },
                    }
                }
        },
{
    match zh {
        None => -1,
        Some(z) => match stat(index) {
            Err(code) => z.fail(code),
            Ok(s) => {
                let time = z.effective_dostime(s.index.unwrap_or(0));
                let t: i64 = to_unix(time);
                fill_stat(z, &s, t, sb)
            },
        },
    }
}

/// Fills a stat record for the first entry named `fname`. `stat` reads its
/// metadata and `to_unix` converts its time to Unix seconds. Gives 0 or -1; a
/// name that no entry has is not recorded as an error. The flags have no
/// effect.
pub fn zip_stat<S: Fn(u64) -> Result<Stat, i32>, T: Fn(EntryTime) -> i64>(
    zh: Option<&mut Zip>,
    fname: Option<&[u8]>,
    flags: u32,
    sb: Option<&mut zip_stat>,
    stat: S,
    to_unix: T,
) -> (r: i32)
    requires
        forall|i: u64| call_requires(stat, (i,)),
        forall|t: EntryTime| call_requires(to_unix, (t,)),
    ensures
        zh is None ==> r == -1 && (sb matches Some(b) ==> *final(b) == *b),
        zh matches Some(z) ==> {
            &&& z@.wf() ==> final(z)@.wf()
            &&& match found(z@, fname) {
                None => r == -1 && final(z)@ == z@ && (sb matches Some(b) ==> *final(b) == *b),
                Some(index) => exists|st: Result<Stat, i32>|
                    {
                        &&& #[trigger] call_ensures(stat, (index,), st)
                        &&& match st {
                            Err(code) => {
                                &&& r == -1
                                &&& final(z)@ == z@.failed(code)
                                &&& sb matches Some(b) ==> *final(b) == *b
                            },
                            Ok(s) => {
                                &&& final(z)@ == z@
                                &&& sb is None ==> r == -1
                                &&& sb matches Some(b) ==> r == 0 && exists|t: i64|
                                    call_ensures(
                                        to_unix,
                                        (z@.effective_time(value_or(s.index, 0)),),
                                        t,
                                    ) && final(b)@ == #[trigger] entry_stat(z@, s, t)
                            },
                        }
                    },
            }
        },
{
    match zh {
        None => -1,
        Some(z) => {
            if !check_name(fname) {
                return -1;
            }
            match z.archive.name_locate(fname.unwrap()) {
                None => -1,
                Some(k) => {
                    let ghost index = found(z@, fname)->0;
                    assert(index == k);
                    zip_stat_index(Some(z), k as u64, flags, sb, stat, to_unix)
                },
            }
        },
    }
}

} // verus!
