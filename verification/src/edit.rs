//! Edits of an open archive: entries, names and contents. Nothing is written
//! before the archive is closed.
//!
//! A handle is an optional reference; a missing one is the null handle. A name
//! is a C string without its closing NUL.

use crate::archive::{lemma_wf_same, name_place, Zip, ZipView};
use crate::command::DataView;
use crate::consts::{
    ZIP_EM_AES_128, ZIP_EM_AES_192, ZIP_EM_AES_256, ZIP_EM_NONE, ZIP_EM_TRAD_PKWARE,
    ZIP_ER_ENCRNOTSUPP, ZIP_ER_EXISTS, ZIP_ER_INVAL, ZIP_ER_RDONLY, ZIP_ER_READ, ZIP_FL_OVERWRITE,
    ZIP_SOURCE_OPEN,
};
use crate::keyed::{remove_all, replaced};
use crate::pending::{
    adds_view, bytes_list_view, contains_value, AddView, PendingAdd, PendingView,
};
use crate::source::{
    drained, in_sync, remaining, step, LayeredCallback, ReadFailure, SourceCallback, SourceView,
    ZipSource,
};
use vstd::prelude::*;
use vstd::slice::slice_to_vec;
use vstd::utf8::valid_utf8;

verus! {

/// Calls `core::str::from_utf8`. Claimed of it: it succeeds exactly on the byte
/// strings that are valid UTF-8.
#[verifier::external_body]
pub(crate) fn is_utf8(bytes: &[u8]) -> (r: bool)
    ensures
        r == valid_utf8(bytes@),
{
    core::str::from_utf8(bytes).is_ok()
}

/// Whether there is a name, in UTF-8.
pub open spec fn is_name(name: Option<&[u8]>) -> bool {
    name matches Some(n) && valid_utf8(n@)
}

/// Whether there is a name, in UTF-8.
pub(crate) fn check_name(name: Option<&[u8]>) -> (r: bool)
    ensures
        r == is_name(name),
{
    match name {
        Some(n) => is_utf8(n),
        None => false,
    }
}

impl ZipView {
    /// Whether the entries on disk and to be appended can be counted.
    pub open spec fn countable(self) -> bool {
        self.total() < isize::MAX
    }

    /// The archive with other edits.
    pub open spec fn with_pending(self, pending: PendingView) -> ZipView {
        ZipView { pending, ..self }
    }

    /// The archive with one more entry to be appended.
    pub open spec fn appended(self, name: Seq<u8>, data: Seq<u8>) -> ZipView {
        self.with_pending(
            PendingView {
                adds: self.pending.adds.push(AddView { name, data }),
                ..self.pending
            },
        )
    }

    /// The archive with new contents for an entry.
    pub open spec fn with_content(self, index: u64, data: Seq<u8>) -> ZipView {
        self.with_pending(
            PendingView {
                replaces: self.pending.replaces.push((index, data)),
                ..self.pending
            },
        )
    }
}

/// Adding an entry with its contents at hand: its index and the archive behind
/// it. An entry of the same name is replaced with `ZIP_FL_OVERWRITE` and
/// refused without.
pub open spec fn add_outcome(z: ZipView, name: Seq<u8>, data: Seq<u8>, flags: u32) -> (
    ZipView,
    int,
) {
    match name_place(z.archive, name) {
        Some(k) => if flags & ZIP_FL_OVERWRITE != 0 {
            (z.with_content(k as u64, data), k)
        } else {
            (z.failed(ZIP_ER_EXISTS), -1)
        },
        None => (z.appended(name, data), z.total() as int),
    }
}

impl Zip {
    /// Adds an entry to be appended. Gives its index.
    fn append(&mut self, name: Vec<u8>, data: Vec<u8>) -> (r: i64)
        requires
            old(self)@.countable(),
        ensures
            final(self)@ == old(self)@.appended(name@, data@),
            r == old(self)@.total(),
            old(self)@.wf() ==> final(self)@.wf(),
    {
        let ghost before = self@;
        let ghost adds = self.pending.adds@;
        let index: u64 = self.archive.entries.len() as u64 + self.pending.adds.len() as u64;
        self.pending.adds.push(PendingAdd { name, data });
        assert(adds_view(self.pending.adds@) =~= adds_view(adds).push(
            AddView { name: name@, data: data@ },
        ));
        proof {
            if before.wf() {
                lemma_wf_same(before, self@);
            }
        }
        index as i64
    }

    /// Records new contents for an entry.
    fn put_content(&mut self, index: u64, data: Vec<u8>)
        ensures
            final(self)@ == old(self)@.with_content(index, data@),
            old(self)@.wf() ==> final(self)@.wf(),
    {
        let ghost before = self@;
        let ghost list = self.pending.replaces@;
        self.pending.replaces.push((index, data));
        assert(bytes_list_view(self.pending.replaces@) =~= bytes_list_view(list).push(
            (index, data@),
        ));
        proof {
            if before.wf() {
                lemma_wf_same(before, self@);
            }
        }
    }

    /// Adds an entry whose contents are at hand. Gives its index or -1.
    pub fn add_content(&mut self, name: &[u8], data: Vec<u8>, flags: u32) -> (r: i64)
        requires
            old(self)@.countable(),
        ensures
            (final(self)@, r as int) == add_outcome(old(self)@, name@, data@, flags),
            old(self)@.wf() ==> final(self)@.wf(),
    {
        match self.archive.name_locate(name) {
            Some(k) => {
                if flags & ZIP_FL_OVERWRITE != 0 {
                    self.put_content(k as u64, data);
                    return k as i64;
                }
                self.set_err(ZIP_ER_EXISTS, 0);
                -1
            },
            None => self.append(slice_to_vec(name), data),
        }
    }

    /// Reports a failure: records `code` and gives -1.
    pub(crate) fn fail(&mut self, code: i32) -> (r: i32)
        ensures
            r == -1,
            final(self)@ == old(self)@.failed(code),
            old(self)@.wf() ==> final(self)@.wf(),
    {
        self.set_err(code, 0);
        -1
    }
}

/// The contents that a source gives when it is read: none if they are too
/// large for memory.
pub open spec fn source_content<F, L>(s: SourceView<F, L>) -> Option<Seq<u8>> {
    let bytes = remaining(step(s, ZIP_SOURCE_OPEN, DataView::Null, 0).source);
    if bytes.len() <= isize::MAX {
        Some(bytes)
    } else {
        None
    }
}

/// Whether a source has been read to its end.
pub open spec fn was_read<F, L>(before: SourceView<F, L>, after: SourceView<F, L>) -> bool {
    let s = step(before, ZIP_SOURCE_OPEN, DataView::Null, 0).source;
    before.closed() ==> {
        &&& after.closed()
        &&& in_sync(s) && source_content(before) is Some ==> after == drained(s)
    }
}

/// Adds an entry named `name` with the contents of `source`. Gives its index,
/// or -1.
///
/// Refused are, in this order: a read-only archive; a missing name or source
/// and a name that is not UTF-8; a source that cannot be read; and the name of
/// an entry on disk, which is replaced instead with `ZIP_FL_OVERWRITE`.
pub fn zip_file_add<F: SourceCallback, L: LayeredCallback<F>>(
    zh: Option<&mut Zip>,
    name: Option<&[u8]>,
    source: Option<&mut ZipSource<F, L>>,
    flags: u32,
) -> (r: i64)
    requires
        zh matches Some(z) ==> z@.countable(),
    ensures
        zh is None ==> r == -1,
        zh is None ==> (source matches Some(s) ==> *final(s) == *s),
        zh matches Some(z) ==> {
            &&& z@.wf() ==> final(z)@.wf()
            &&& if z@.read_only() {
                &&& r == -1
                &&& final(z)@ == z@.failed(ZIP_ER_RDONLY)
                &&& source matches Some(s) ==> *final(s) == *s
            } else if !is_name(name) || source is None {
                &&& r == -1
                &&& final(z)@ == z@.failed(ZIP_ER_INVAL)
                &&& source matches Some(s) ==> *final(s) == *s
            } else {
                let s = source->0;
                &&& was_read(s@, final(s)@)
                &&& s@.closed() ==> match source_content(s@) {
                    Some(data) => (final(z)@, r as int) == add_outcome(
                        z@,
                        name->0@,
                        data,
                        flags,
                    ),
                    None => r == -1 && final(z)@ == z@,
                }
                &&& exists|p: &mut ZipSource<F, L>, read: Result<Vec<u8>, ReadFailure>|
                    {
                        &&& #[trigger] call_ensures(ZipSource::<F, L>::read_all, (p,), read)
                        &&& *p == *s
                        &&& *final(p) == *final(s)
                        &&& match read {
                            Ok(data) => (final(z)@, r as int) == add_outcome(
                                z@,
                                name->0@,
                                data@,
                                flags,
                            ),
                            Err(ReadFailure::Failed) => {
                                r == -1 && final(z)@ == z@.failed(ZIP_ER_READ)
                            },
                            Err(ReadFailure::Overrun) => r == -1 && final(z)@ == z@,
                        }
                    }
            }
        },
{
    match zh {
        None => -1,
        Some(z) => {
            if !z.check_writable() {
                return -1;
            }
            if !check_name(name) {
                return z.fail(ZIP_ER_INVAL) as i64;
            }
            match source {
                None => z.fail(ZIP_ER_INVAL) as i64,
                Some(s) => match s.read_all() {
                    Ok(data) => {
                        z.add_content(name.unwrap(), data, flags)
                    },
                    Err(ReadFailure::Failed) => z.fail(ZIP_ER_READ) as i64,
                    Err(ReadFailure::Overrun) => -1,
                },
            }
        },
    }
}

/// Adds an entry without flags.
pub fn zip_add<F: SourceCallback, L: LayeredCallback<F>>(
    zh: Option<&mut Zip>,
    name: Option<&[u8]>,
    source: Option<&mut ZipSource<F, L>>,
) -> (r: i64)
    requires
        zh matches Some(z) ==> z@.countable(),
    ensures
        zh is None ==> r == -1,
        zh is None ==> (source matches Some(s) ==> *final(s) == *s),
        zh matches Some(z) ==> {
            &&& z@.wf() ==> final(z)@.wf()
            &&& if z@.read_only() {
                &&& r == -1
                &&& final(z)@ == z@.failed(ZIP_ER_RDONLY)
                &&& source matches Some(s) ==> *final(s) == *s
            } else if !is_name(name) || source is None {
                &&& r == -1
                &&& final(z)@ == z@.failed(ZIP_ER_INVAL)
                &&& source matches Some(s) ==> *final(s) == *s
            } else {
                let s = source->0;
                &&& was_read(s@, final(s)@)
                &&& s@.closed() ==> match source_content(s@) {
                    Some(data) => (final(z)@, r as int) == add_outcome(z@, name->0@, data, 0),
                    None => r == -1 && final(z)@ == z@,
                }
                &&& exists|p: &mut ZipSource<F, L>, read: Result<Vec<u8>, ReadFailure>|
                    {
                        &&& #[trigger] call_ensures(ZipSource::<F, L>::read_all, (p,), read)
                        &&& *p == *s
                        &&& *final(p) == *final(s)
                        &&& match read {
                            Ok(data) => (final(z)@, r as int) == add_outcome(
                                z@,
                                name->0@,
                                data@,
                                0,
                            ),
                            Err(ReadFailure::Failed) => {
                                r == -1 && final(z)@ == z@.failed(ZIP_ER_READ)
                            },
                            Err(ReadFailure::Overrun) => r == -1 && final(z)@ == z@,
                        }
                    }
            }
        },
{
    zip_file_add(zh, name, source, 0)
}

/// The name of a directory entry: a `/` closes it.
pub open spec fn dir_name(name: Seq<u8>) -> Seq<u8> {
    if name.len() > 0 && name.last() == 47 {
        name
    } else {
        name.push(47)
    }
}

/// Adding a directory entry: the archive behind it, and its index.
pub open spec fn dir_outcome(z: ZipView, name: Seq<u8>) -> (ZipView, int) {
    if name_place(z.archive, dir_name(name)) is Some {
        (z.failed(ZIP_ER_EXISTS), -1)
    } else {
        (z.appended(dir_name(name), Seq::empty()), z.total() as int)
    }
}

/// Adds a directory entry; a `/` is appended to the name if it does not end in
/// one. Gives its index, or -1. The flags have no effect.
pub fn zip_dir_add(zh: Option<&mut Zip>, name: Option<&[u8]>, _flags: u32) -> (r: i64)
    requires
        zh matches Some(z) ==> z@.countable(),
    ensures
        zh is None ==> r == -1,
        zh matches Some(z) ==> {
            &&& z@.wf() ==> final(z)@.wf()
            &&& (final(z)@, r as int) == (if z@.read_only() {
                (z@.failed(ZIP_ER_RDONLY), -1int)
            } else if !is_name(name) {
                (z@.failed(ZIP_ER_INVAL), -1int)
            } else {
                dir_outcome(z@, name->0@)
            })
        },
{
    match zh {
        None => -1,
        Some(z) => {
            if !z.check_writable() {
                return -1;
            }
            if !check_name(name) {
                return z.fail(ZIP_ER_INVAL) as i64;
            }
            let mut full = slice_to_vec(name.unwrap());
            if full.len() == 0 || full[full.len() - 1] != 47 {
                full.push(47);
            }
            assert(full@ == dir_name(name->0@));
            if z.archive.name_locate(full.as_slice()).is_some() {
                return z.fail(ZIP_ER_EXISTS) as i64;
            }
            let nothing: Vec<u8> = Vec::new();
            z.append(full, nothing)
        },
    }
}

/// Adds a directory entry without flags.
pub fn zip_add_dir(zh: Option<&mut Zip>, name: Option<&[u8]>) -> (r: i64)
    requires
        zh matches Some(z) ==> z@.countable(),
    ensures
        zh is None ==> r == -1,
        zh matches Some(z) ==> {
            &&& z@.wf() ==> final(z)@.wf()
            &&& (final(z)@, r as int) == (if z@.read_only() {
                (z@.failed(ZIP_ER_RDONLY), -1int)
            } else if !is_name(name) {
                (z@.failed(ZIP_ER_INVAL), -1int)
            } else {
                dir_outcome(z@, name->0@)
            })
        },
{
    zip_dir_add(zh, name, 0)
}

/// Deleting an entry on disk: the archive behind it, and the result. An entry
/// is marked once, however often it is deleted.
pub open spec fn delete_outcome(z: ZipView, index: u64) -> (ZipView, int) {
    if z.read_only() {
        (z.failed(ZIP_ER_RDONLY), -1)
    } else if index >= z.len() {
        (z.failed(ZIP_ER_INVAL), -1)
    } else if z.pending.deletes.contains(index) {
        (z, 0)
    } else {
        (
            z.with_pending(
                PendingView { deletes: z.pending.deletes.push(index), ..z.pending },
            ),
            0,
        )
    }
}

/// Marks an entry on disk for deletion. Gives 0 or -1.
pub fn zip_delete(zh: Option<&mut Zip>, index: u64) -> (r: i32)
    ensures
        zh is None ==> r == -1,
        zh matches Some(z) ==> {
            &&& z@.wf() ==> final(z)@.wf()
            &&& (final(z)@, r as int) == delete_outcome(z@, index)
        },
{
    match zh {
        None => -1,
        Some(z) => {
            if !z.check_writable() {
                return -1;
            }
            if index >= z.archive.entries.len() as u64 {
                return z.fail(ZIP_ER_INVAL);
            }
            let ghost before = z@;
            if !contains_value(&z.pending.deletes, index) {
                z.pending.deletes.push(index);
            }
            proof {
                if before.wf() {
                    lemma_wf_same(before, z@);
                }
            }
            0
        },
    }
}

/// Renaming an entry on disk: the archive behind it, and the result.
pub open spec fn rename_outcome(z: ZipView, index: u64, name: Option<&[u8]>) -> (ZipView, int) {
    if z.read_only() {
        (z.failed(ZIP_ER_RDONLY), -1)
    } else if index >= z.len() || !is_name(name) {
        (z.failed(ZIP_ER_INVAL), -1)
    } else {
        (
            z.with_pending(
                PendingView {
                    renames: z.pending.renames.push((index, name->0@)),
                    ..z.pending
                },
            ),
            0,
        )
    }
}

/// Renames an entry on disk. Gives 0 or -1.
pub fn zip_rename(zh: Option<&mut Zip>, index: u64, name: Option<&[u8]>) -> (r: i32)
    ensures
        zh is None ==> r == -1,
        zh matches Some(z) ==> {
            &&& z@.wf() ==> final(z)@.wf()
            &&& (final(z)@, r as int) == rename_outcome(z@, index, name)
        },
{
    match zh {
        None => -1,
        Some(z) => {
            if !z.check_writable() {
                return -1;
            }
            if index >= z.archive.entries.len() as u64 || !check_name(name) {
                return z.fail(ZIP_ER_INVAL);
            }
            let ghost before = z@;
            let ghost list = z.pending.renames@;
            let new_name = slice_to_vec(name.unwrap());
            z.pending.renames.push((index, new_name));
            assert(bytes_list_view(z.pending.renames@) =~= bytes_list_view(list).push(
                (index, new_name@),
            ));
            proof {
                if before.wf() {
                    lemma_wf_same(before, z@);
                }
            }
            0
        },
    }
}

/// Renames an entry on disk. The flags have no effect.
pub fn zip_file_rename(zh: Option<&mut Zip>, index: u64, name: Option<&[u8]>, _flags: u32) -> (r:
    i32)
    ensures
        zh is None ==> r == -1,
        zh matches Some(z) ==> {
            &&& z@.wf() ==> final(z)@.wf()
            &&& (final(z)@, r as int) == rename_outcome(z@, index, name)
        },
{
    zip_rename(zh, index, name)
}

/// Replaces the contents of an entry on disk by those of `source`. Gives 0 or
/// -1. The flags have no effect.
pub fn zip_file_replace<F: SourceCallback, L: LayeredCallback<F>>(
    zh: Option<&mut Zip>,
    index: u64,
    source: Option<&mut ZipSource<F, L>>,
    _flags: u32,
) -> (r: i32)
    ensures
        zh is None ==> r == -1,
        zh is None ==> (source matches Some(s) ==> *final(s) == *s),
        zh matches Some(z) ==> {
            &&& z@.wf() ==> final(z)@.wf()
            &&& if z@.read_only() {
                &&& r == -1
                &&& final(z)@ == z@.failed(ZIP_ER_RDONLY)
                &&& source matches Some(s) ==> *final(s) == *s
            } else if index >= z@.len() || source is None {
                &&& r == -1
                &&& final(z)@ == z@.failed(ZIP_ER_INVAL)
                &&& source matches Some(s) ==> *final(s) == *s
            } else {
                let s = source->0;
                &&& was_read(s@, final(s)@)
                &&& s@.closed() ==> match source_content(s@) {
                    Some(data) => r == 0 && final(z)@ == z@.with_content(index, data),
                    None => r == -1 && final(z)@ == z@,
                }
                &&& exists|p: &mut ZipSource<F, L>, read: Result<Vec<u8>, ReadFailure>|
                    {
                        &&& #[trigger] call_ensures(ZipSource::<F, L>::read_all, (p,), read)
                        &&& *p == *s
                        &&& *final(p) == *final(s)
                        &&& match read {
                            Ok(data) => {
                                r == 0 && final(z)@ == z@.with_content(index, data@)
                            },
                            Err(ReadFailure::Failed) => {
                                r == -1 && final(z)@ == z@.failed(ZIP_ER_READ)
                            },
                            Err(ReadFailure::Overrun) => r == -1 && final(z)@ == z@,
                        }
                    }
            }
        },
{
    match zh {
        None => -1,
        Some(z) => {
            if !z.check_writable() {
                return -1;
            }
            if index >= z.archive.entries.len() as u64 {
                return z.fail(ZIP_ER_INVAL);
            }
            match source {
                None => z.fail(ZIP_ER_INVAL),
                Some(s) => match s.read_all() {
                    Ok(data) => {
                        z.put_content(index, data);
                        0
                    },
                    Err(ReadFailure::Failed) => z.fail(ZIP_ER_READ),
                    Err(ReadFailure::Overrun) => -1,
                },
            }
        },
    }
}

/// Replaces the contents of an entry on disk by those of `source`, without
/// flags.
pub fn zip_replace<F: SourceCallback, L: LayeredCallback<F>>(
    zh: Option<&mut Zip>,
    index: u64,
    source: Option<&mut ZipSource<F, L>>,
) -> (r: i32)
    ensures
        zh is None ==> r == -1,
        zh is None ==> (source matches Some(s) ==> *final(s) == *s),
        zh matches Some(z) ==> {
            &&& z@.wf() ==> final(z)@.wf()
            &&& if z@.read_only() {
                &&& r == -1
                &&& final(z)@ == z@.failed(ZIP_ER_RDONLY)
                &&& source matches Some(s) ==> *final(s) == *s
            } else if index >= z@.len() || source is None {
                &&& r == -1
                &&& final(z)@ == z@.failed(ZIP_ER_INVAL)
                &&& source matches Some(s) ==> *final(s) == *s
            } else {
                let s = source->0;
                &&& was_read(s@, final(s)@)
                &&& s@.closed() ==> match source_content(s@) {
                    Some(data) => r == 0 && final(z)@ == z@.with_content(index, data),
                    None => r == -1 && final(z)@ == z@,
                }
                &&& exists|p: &mut ZipSource<F, L>, read: Result<Vec<u8>, ReadFailure>|
                    {
                        &&& #[trigger] call_ensures(ZipSource::<F, L>::read_all, (p,), read)
                        &&& *p == *s
                        &&& *final(p) == *final(s)
                        &&& match read {
                            Ok(data) => {
                                r == 0 && final(z)@ == z@.with_content(index, data@)
                            },
                            Err(ReadFailure::Failed) => {
                                r == -1 && final(z)@ == z@.failed(ZIP_ER_READ)
                            },
                            Err(ReadFailure::Overrun) => r == -1 && final(z)@ == z@,
                        }
                    }
            }
        },
{
    zip_file_replace(zh, index, source, 0)
}

/// Lets go of an archive and of the edits that wait.
pub fn zip_discard(zh: Option<Zip>) {
    let _ = zh;
}

/// Sets the password for encrypted entries. Gives 0, or -1 without a password.
pub fn zip_set_default_password(zh: Option<&mut Zip>, password: Option<&[u8]>) -> (r: i32)
    ensures
        zh is None ==> r == -1,
        zh matches Some(z) ==> {
            &&& z@.wf() ==> final(z)@.wf()
            &&& match password {
                None => r == -1 && final(z)@ == z@.failed(ZIP_ER_INVAL),
                Some(p) => r == 0 && final(z)@ == (ZipView { password: Some(p@), ..z@ }),
            }
        },
{
    match zh {
        None => -1,
        Some(z) => match password {
            None => z.fail(ZIP_ER_INVAL),
            Some(p) => {
                let ghost before = z@;
                z.password = Some(slice_to_vec(p));
                proof {
                    if before.wf() {
                        lemma_wf_same(before, z@);
                    }
                }
                0
            },
        },
    }
}

/// The encryption methods that are supported.
pub open spec fn encryption_supported(method: u16) -> bool {
    method == ZIP_EM_NONE || method == ZIP_EM_TRAD_PKWARE || method == ZIP_EM_AES_128 || method
        == ZIP_EM_AES_192 || method == ZIP_EM_AES_256
}

/// 1 if an encryption method is supported, else 0. Encoding and decoding are
/// supported alike.
pub fn zip_encryption_method_supported(method: u16, _encode: i32) -> (r: i32)
    ensures
        r == (if encryption_supported(method) { 1int } else { 0 }),
{
    if method == ZIP_EM_NONE || method == ZIP_EM_TRAD_PKWARE || method == ZIP_EM_AES_128
        || method == ZIP_EM_AES_192 || method == ZIP_EM_AES_256 {
        1
    } else {
        0
    }
}

/// Setting the encryption of an entry: the archive behind it, and the result.
pub open spec fn encryption_outcome(z: ZipView, index: u64, method: u16) -> (ZipView, int) {
    if z.read_only() {
        (z.failed(ZIP_ER_RDONLY), -1)
    } else if index >= z.total() {
        (z.failed(ZIP_ER_INVAL), -1)
    } else if !encryption_supported(method) {
        (z.failed(ZIP_ER_ENCRNOTSUPP), -1)
    } else {
        (
            z.with_pending(
                PendingView {
                    encryptions: replaced(z.pending.encryptions, index, method),
                    ..z.pending
                },
            ),
            0,
        )
    }
}

/// Sets the encryption method of an entry on disk or to be appended. Gives 0
/// or -1.
pub fn zip_file_set_encryption(zh: Option<&mut Zip>, index: u64, method: u16) -> (r: i32)
    ensures
        zh is None ==> r == -1,
        zh matches Some(z) ==> {
            &&& z@.wf() ==> final(z)@.wf()
            &&& (final(z)@, r as int) == encryption_outcome(z@, index, method)
        },
{
    match zh {
        None => -1,
        Some(z) => {
            if !z.check_writable() {
                return -1;
            }
            if !z.valid_index(index) {
                return z.fail(ZIP_ER_INVAL);
            }
            if zip_encryption_method_supported(method, 1) == 0 {
                return z.fail(ZIP_ER_ENCRNOTSUPP);
            }
            let ghost before = z@;
            remove_all(&mut z.pending.encryptions, index);
            z.pending.encryptions.push((index, method));
            proof {
                if before.wf() {
                    lemma_wf_same(before, z@);
                }
            }
            0
        },
    }
}

} // verus!
