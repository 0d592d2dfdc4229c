//! What is written when an archive is closed: the entries on disk without the
//! deleted ones, with the edits made, and the appended entries behind them.

use crate::archive::{EntryTime, Zip, ZipView};
use crate::consts::{
    ZIP_CM_DEFLATE, ZIP_CM_STORE, ZIP_CREATE, ZIP_ER_NOPASSWD, ZIP_ER_WRITE, ZIP_RDONLY,
    ZIP_TRUNCATE,
};
use crate::edit::is_utf8;
use crate::extra::{fields_view, ExtraField, FieldView};
use crate::keyed::{find_last, last_value, lemma_last};
use crate::pending::{bytes_list_view, contains_value, no_edits};
use crate::stat::{bytes_view, copy_bytes};
use vstd::prelude::*;
use vstd::utf8::valid_utf8;

verus! {

/// The compression methods that entries are written with.
#[derive(Clone, Copy, Debug, PartialEq, Eq, Structural)]
pub enum CompressionMethod {
    /// Stored as it is.
    Store,
    /// Deflate.
    Deflate,
}

/// The compression method that a number asks for; none if it leaves the choice
/// to the writer.
pub open spec fn requested_method(m: i32) -> Option<CompressionMethod> {
    if m == ZIP_CM_STORE {
        Some(CompressionMethod::Store)
    } else if m == ZIP_CM_DEFLATE {
        Some(CompressionMethod::Deflate)
    } else {
        None
    }
}

/// The compression method that a number asks for.
pub fn compression_from_i32(m: i32) -> (r: Option<CompressionMethod>)
    ensures
        r == requested_method(m),
{
    match m {
        ZIP_CM_STORE => Some(CompressionMethod::Store),
        ZIP_CM_DEFLATE => Some(CompressionMethod::Deflate),
        _ => None,
    }
}

/// An entry to be written.
#[derive(Debug)]
pub struct PlannedFile {
    pub name: Vec<u8>,
    pub data: Vec<u8>,
    pub comment: Option<Vec<u8>>,
    pub extra_fields: Vec<ExtraField>,
    pub time: EntryTime,
    /// Host system and external attributes; the writer's own if there are none.
    pub attributes: Option<(u8, u32)>,
    /// Compression method and level; the writer's own if there are none.
    pub method: Option<(CompressionMethod, u32)>,
    pub encryption: u16,
}

/// What an entry to be written holds.
pub ghost struct FileView {
    pub name: Seq<u8>,
    pub data: Seq<u8>,
    pub comment: Option<Seq<u8>>,
    pub extra_fields: Seq<FieldView>,
    pub time: EntryTime,
    pub attributes: Option<(u8, u32)>,
    pub method: Option<(CompressionMethod, u32)>,
    pub encryption: u16,
}

impl View for PlannedFile {
    type V = FileView;

    open spec fn view(&self) -> FileView {
        FileView {
            name: self.name@,
            data: self.data@,
            comment: bytes_view(self.comment),
            extra_fields: fields_view(self.extra_fields@),
            time: self.time,
            attributes: self.attributes,
            method: self.method,
            encryption: self.encryption,
        }
    }
}

/// What is to be written.
#[derive(Debug)]
pub struct WritePlan {
    pub files: Vec<PlannedFile>,
    /// Password for the encrypted entries; empty if there are none.
    pub password: Vec<u8>,
    pub archive_comment: Vec<u8>,
}

/// What is to be written, as it is seen in contracts.
pub ghost struct PlanView {
    pub files: Seq<FileView>,
    pub password: Seq<u8>,
    pub archive_comment: Seq<u8>,
}

/// What a list of entries to be written holds.
pub open spec fn files_view(s: Seq<PlannedFile>) -> Seq<FileView> {
    s.map_values(|f: PlannedFile| f@)
}

impl View for WritePlan {
    type V = PlanView;

    open spec fn view(&self) -> PlanView {
        PlanView {
            files: files_view(self.files@),
            password: self.password@,
            archive_comment: self.archive_comment@,
        }
    }
}

impl ZipView {
    /// The name of an entry on disk with the edits.
    pub open spec fn effective_name(self, index: u64) -> Seq<u8> {
        match last_value(self.pending.renames, index) {
            Some(n) => n,
            None => self.archive.entries[index as int].name,
        }
    }

    /// The encryption method of an entry with the edits.
    pub open spec fn effective_encryption(self, index: u64) -> u16 {
        match last_value(self.pending.encryptions, index) {
            Some(m) => m,
            None => 0,
        }
    }

    /// The compression of an entry with the edits.
    pub open spec fn effective_method(self, index: u64) -> Option<(CompressionMethod, u32)> {
        match last_value(self.pending.compressions, index) {
            Some(c) => match requested_method(c.0) {
                Some(m) => Some((m, c.1)),
                None => None,
            },
            None => None,
        }
    }

    /// An entry to be written under a name and with contents.
    pub open spec fn file(self, index: u64, name: Seq<u8>, data: Seq<u8>) -> FileView {
        FileView {
            name,
            data,
            comment: self.effective_comment(index),
            extra_fields: self.effective_fields(index),
            time: self.effective_time(index),
            attributes: self.effective_ext_attrs(index),
            method: self.effective_method(index),
            encryption: self.effective_encryption(index),
        }
    }

    /// Whether the contents of an entry have to be read from the archive.
    pub open spec fn must_read(self, index: u64) -> bool {
        !self.pending.deletes.contains(index) && last_value(self.pending.replaces, index) is None
    }

    /// Those of the first `k` entries on disk whose contents have to be read,
    /// in order.
    pub open spec fn to_read(self, k: nat) -> Seq<u64>
        decreases k,
    {
        if k == 0 {
            Seq::empty()
        } else {
            let before = self.to_read((k - 1) as nat);
            if self.must_read((k - 1) as u64) {
                before.push((k - 1) as u64)
            } else {
                before
            }
        }
    }

    /// The contents of an entry on disk with the edits, where `contents` is
    /// what was read from the archive.
    pub open spec fn content(self, contents: Seq<Seq<u8>>, index: u64) -> Seq<u8> {
        match last_value(self.pending.replaces, index) {
            Some(d) => d,
            None => contents[self.to_read(index as nat).len() as int],
        }
    }

    /// The entries to be written of the first `k` on disk.
    pub open spec fn kept(self, contents: Seq<Seq<u8>>, k: nat) -> Seq<FileView>
        decreases k,
    {
        if k == 0 {
            Seq::empty()
        } else {
            let i = (k - 1) as u64;
            let before = self.kept(contents, (k - 1) as nat);
            if self.pending.deletes.contains(i) {
                before
            } else {
                before.push(self.file(i, self.effective_name(i), self.content(contents, i)))
            }
        }
    }

    /// The entries to be written of the first `k` to be appended.
    pub open spec fn added(self, k: nat) -> Seq<FileView>
        decreases k,
    {
        if k == 0 {
            Seq::empty()
        } else {
            let a = self.pending.adds[k - 1];
            self.added((k - 1) as nat).push(
                self.file((self.len() + k - 1) as u64, a.name, a.data),
            )
        }
    }

    /// The entries to be written.
    pub open spec fn files(self, contents: Seq<Seq<u8>>) -> Seq<FileView> {
        self.kept(contents, self.len()) + self.added(self.pending.adds.len())
    }

    /// What is to be written, or the error that prevents it: encrypted entries
    /// need a password.
    pub open spec fn planned(self, contents: Seq<Seq<u8>>) -> Result<PlanView, i32> {
        let files = self.files(contents);
        let encrypted = exists|j: int| 0 <= j < files.len() && (#[trigger] files[j]).encryption != 0;
        if encrypted && self.password is None {
            Err(ZIP_ER_NOPASSWD)
        } else {
            Ok(
                PlanView {
                    files,
                    password: if encrypted { self.password->0 } else { Seq::empty() },
                    archive_comment: self.effective_archive_comment(),
                },
            )
        }
    }

    /// Whether closing the archive writes it: it was opened for writing, or
    /// edits wait.
    pub open spec fn writes_on_close(self) -> bool {
        ||| self.pending != no_edits()
        ||| !self.existed && self.flags & ZIP_CREATE != 0
        ||| self.path is Some && self.flags & ZIP_RDONLY == 0 && self.flags & (ZIP_CREATE
            | ZIP_TRUNCATE) != 0
    }
}

/// What a list of byte strings holds.
pub open spec fn contents_view(s: Seq<Vec<u8>>) -> Seq<Seq<u8>> {
    s.map_values(|v: Vec<u8>| v@)
}

impl Zip {
    /// An entry to be written under a name and with contents.
    fn plan_file(&self, index: u64, name: Vec<u8>, data: Vec<u8>) -> (r: PlannedFile)
        ensures
            r@ == self@.file(index, name@, data@),
    {
        let comp = find_last(&self.pending.compressions, index);
        let enc = find_last(&self.pending.encryptions, index);
        proof {
            lemma_last(self.pending.compressions@, index, comp);
            lemma_last(self.pending.encryptions@, index, enc);
        }
        let method = match comp {
            Some(k) => {
                let c = self.pending.compressions[k].1;
                match compression_from_i32(c.0) {
                    Some(m) => Some((m, c.1)),
                    None => None,
                }
            },
            None => None,
        };
        let encryption: u16 = match enc {
            Some(k) => self.pending.encryptions[k].1,
            None => 0,
        };
        PlannedFile {
            name,
            data,
            comment: self.effective_comment(index),
            extra_fields: self.effective_extra_fields(index),
            time: self.effective_dostime(index),
            attributes: self.effective_ext_attrs(index),
            method,
            encryption,
        }
    }

    /// The entries on disk whose contents have to be read from the archive.
    pub fn entries_to_read(&self) -> (r: Vec<u64>)
        ensures
            r@ == self@.to_read(self@.len()),
    {
        let mut out: Vec<u64> = Vec::new();
        let mut i: usize = 0;
        while i < self.archive.entries.len()
            invariant
                i <= self.archive.entries@.len(),
                out@ == self@.to_read(i as nat),
            decreases self.archive.entries.len() - i,
        {
            let at = find_last(&self.pending.replaces, i as u64);
            proof {
                lemma_last(bytes_list_view(self.pending.replaces@), i as u64, at);
            }
            if !contains_value(&self.pending.deletes, i as u64) && at.is_none() {
                out.push(i as u64);
            }
            i += 1;
        }
        out
    }

    /// What is to be written, where `contents` is what was read of the entries
    /// that `entries_to_read` gives.
    pub fn plan(&self, contents: &Vec<Vec<u8>>) -> (r: Result<WritePlan, i32>)
        requires
            self@.countable(),
            contents@.len() == self@.to_read(self@.len()).len(),
        ensures
            match self@.planned(contents_view(contents@)) {
                Ok(p) => r is Ok && r->Ok_0@ == p,
                Err(code) => r == Err::<WritePlan, i32>(code),
            },
    {
        let ghost view = self@;
        let ghost read = contents_view(contents@);
        let mut files: Vec<PlannedFile> = Vec::new();
        let mut encrypted = false;
        let mut next: usize = 0;
        let mut i: usize = 0;
        assert(files_view(files@) =~= Seq::empty());
        while i < self.archive.entries.len()
            invariant
                i <= self.archive.entries@.len(),
                view == self@,
                read == contents_view(contents@),
                contents@.len() == view.to_read(view.len()).len(),
                next == view.to_read(i as nat).len(),
                next <= i,
                files_view(files@) == view.kept(read, i as nat),
                encrypted == exists|j: int|
                    0 <= j < files@.len() && (#[trigger] files@[j]).encryption != 0,
            decreases self.archive.entries.len() - i,
        {
            let index: u64 = i as u64;
            let rep = find_last(&self.pending.replaces, index);
            let ren = find_last(&self.pending.renames, index);
            proof {
                lemma_last(bytes_list_view(self.pending.replaces@), index, rep);
                lemma_last(bytes_list_view(self.pending.renames@), index, ren);
                lemma_to_read_grows(view, (i + 1) as nat, view.len());
            }
            if !contains_value(&self.pending.deletes, index) {
                let name = match ren {
                    Some(k) => copy_bytes(&self.pending.renames[k].1),
                    None => copy_bytes(&self.archive.entries[i].name),
                };
                let data = match rep {
                    Some(k) => copy_bytes(&self.pending.replaces[k].1),
                    None => copy_bytes(&contents[next]),
                };
                if rep.is_none() {
                    next += 1;
                }
                let f = self.plan_file(index, name, data);
                let ghost held = files@;
                let ghost added = f;
                if f.encryption != 0 {
                    encrypted = true;
                }
                files.push(f);
                assert(files_view(files@) =~= files_view(held).push(added@));
                proof {
                    lemma_push_encrypted(held, added);
                }
            }
            i += 1;
        }
        let ghost kept = files_view(files@);
        let mut k: usize = 0;
        assert(kept + view.added(0) =~= kept);
        while k < self.pending.adds.len()
            invariant
                k <= self.pending.adds@.len(),
                view == self@,
                view.countable(),
                files_view(files@) == kept + view.added(k as nat),
                encrypted == exists|j: int|
                    0 <= j < files@.len() && (#[trigger] files@[j]).encryption != 0,
            decreases self.pending.adds.len() - k,
        {
            let index: u64 = self.archive.entries.len() as u64 + k as u64;
            let name = copy_bytes(&self.pending.adds[k].name);
            let data = copy_bytes(&self.pending.adds[k].data);
            let f = self.plan_file(index, name, data);
            let ghost held = files@;
            let ghost added = f;
            if f.encryption != 0 {
                encrypted = true;
            }
            files.push(f);
            assert(files_view(files@) =~= files_view(held).push(added@));
            assert(files_view(files@) =~= kept + view.added((k + 1) as nat));
            proof {
                lemma_push_encrypted(held, added);
            }
            k += 1;
        }
        proof {
            let all = view.files(read);
            assert(files_view(files@) == all);
            assert(encrypted == exists|j: int|
                0 <= j < all.len() && (#[trigger] all[j]).encryption != 0) by {
                if encrypted {
                    let j = choose|j: int|
                        0 <= j < files@.len() && (#[trigger] files@[j]).encryption != 0;
                    assert(all[j].encryption != 0);
                }
                if exists|j: int| 0 <= j < all.len() && (#[trigger] all[j]).encryption != 0 {
                    let j = choose|j: int|
                        0 <= j < all.len() && (#[trigger] all[j]).encryption != 0;
                    assert(files@[j].encryption != 0);
                }
            }
        }
        let password = if encrypted {
            match &self.password {
                Some(p) => copy_bytes(p),
                None => {
                    return Err(ZIP_ER_NOPASSWD);
                },
            }
        } else {
            Vec::new()
        };
        let archive_comment = match &self.pending.archive_comment {
            Some(c) => copy_bytes(c),
            None => copy_bytes(&self.archive.comment),
        };
        Ok(WritePlan { files, password, archive_comment })
    }
}

proof fn lemma_push_encrypted(files: Seq<PlannedFile>, f: PlannedFile)
    ensures
        (exists|j: int|
            0 <= j < files.push(f).len() && (#[trigger] files.push(f)[j]).encryption != 0) == (
        f.encryption != 0 || exists|j: int|
            0 <= j < files.len() && (#[trigger] files[j]).encryption != 0),
{
    let more = files.push(f);
    if f.encryption != 0 {
        assert(more[files.len() as int].encryption != 0);
    }
    if exists|j: int| 0 <= j < files.len() && (#[trigger] files[j]).encryption != 0 {
        let j = choose|j: int| 0 <= j < files.len() && (#[trigger] files[j]).encryption != 0;
        assert(more[j].encryption != 0);
    }
    if exists|j: int| 0 <= j < more.len() && (#[trigger] more[j]).encryption != 0 {
        let j = choose|j: int| 0 <= j < more.len() && (#[trigger] more[j]).encryption != 0;
        if j < files.len() {
            assert(files[j].encryption != 0);
        }
    }
}

proof fn lemma_to_read_grows(z: ZipView, k: nat, n: nat)
    requires
        k <= n,
    ensures
        z.to_read(k).len() <= z.to_read(n).len(),
        forall|j: int| 0 <= j < z.to_read(k).len() ==> z.to_read(n)[j] == z.to_read(k)[j],
    decreases n - k,
{
    if k < n {
        lemma_to_read_grows(z, k, (n - 1) as nat);
    }
}

/// Whether `read` has given these contents for the first entries of a list.
pub open spec fn contents_read<R: Fn(u64) -> Result<Vec<u8>, i32>>(
    read: R,
    wanted: Seq<u64>,
    contents: Seq<Vec<u8>>,
) -> bool {
    &&& contents.len() <= wanted.len()
    &&& forall|j: int|
        0 <= j < contents.len() ==> call_ensures(read, (wanted[j],), Ok(#[trigger] contents[j]))
}

/// What reading the entries that are needed, in order, and planning with their
/// contents comes to: the code of the first that cannot be read, behind which
/// none is, or else the plan or the code that planning gives.
pub open spec fn materialized<R: Fn(u64) -> Result<Vec<u8>, i32>>(
    z: ZipView,
    read: R,
    r: Result<PlanView, i32>,
) -> bool {
    let wanted = z.to_read(z.len());
    exists|contents: Seq<Vec<u8>>|
        {
            &&& #[trigger] contents_read(read, wanted, contents)
            &&& if contents.len() == wanted.len() {
                r == z.planned(contents_view(contents))
            } else {
                r is Err && call_ensures(
                    read,
                    (wanted[contents.len() as int],),
                    Err::<Vec<u8>, i32>(r->Err_0),
                )
            }
        }
}

/// What is to be written when the archive is closed. The contents of entries
/// are read by `read`, in order and only where they are needed.
pub fn materialize<R: Fn(u64) -> Result<Vec<u8>, i32>>(z: &Zip, read: R) -> (r: Result<
    WritePlan,
    i32,
>)
    requires
        z@.countable(),
        forall|i: u64| call_requires(read, (i,)),
    ensures
        match r {
            Ok(p) => materialized(z@, read, Ok(p@)),
            Err(code) => materialized(z@, read, Err(code)),
        },
{
    let wanted = z.entries_to_read();
    let mut contents: Vec<Vec<u8>> = Vec::new();
    let mut i: usize = 0;
    while i < wanted.len()
        invariant
            i <= wanted@.len(),
            contents@.len() == i,
            wanted@ == z@.to_read(z@.len()),
            forall|i: u64| call_requires(read, (i,)),
            contents_read(read, wanted@, contents@),
        decreases wanted.len() - i,
    {
        match read(wanted[i]) {
            Ok(data) => {
                contents.push(data);
            },
            Err(code) => {
                assert(materialized(z@, read, Err::<PlanView, i32>(code)));
                return Err(code);
            },
        }
        i += 1;
    }
    assert(contents_read(read, wanted@, contents@));
    z.plan(&contents)
}

/// What is left to do to close an archive.
#[derive(Debug)]
pub enum CloseStep {
    /// Nothing; this is the result.
    Done(i32),
    /// Encode this, and go on with `close_encoded`.
    Encode(WritePlan),
}

/// Closes an archive as far as that can be decided before encoding: an archive
/// without edits that was not opened for writing is done with.
pub fn zip_close<R: Fn(u64) -> Result<Vec<u8>, i32>>(zh: Option<&mut Zip>, read: R) -> (r:
    CloseStep)
    requires
        zh matches Some(z) ==> z@.countable(),
        forall|i: u64| call_requires(read, (i,)),
    ensures
        zh is None ==> r == CloseStep::Done((-1) as i32),
        zh matches Some(z) ==> {
            &&& z@.wf() ==> final(z)@.wf()
            &&& if !z@.writes_on_close() {
                r == CloseStep::Done(0) && final(z)@ == z@
            } else {
                exists|p: Result<PlanView, i32>|
                    {
                        &&& #[trigger] materialized(z@, read, p)
                        &&& match p {
                            Ok(p) => {
                                &&& r is Encode
                                &&& r->Encode_0@ == p
                                &&& final(z)@ == z@
                            },
                            Err(code) => {
                                &&& r == CloseStep::Done((-1) as i32)
                                &&& final(z)@ == z@.failed(code)
                            },
                        }
                    }
            }
        },
{
    match zh {
        None => CloseStep::Done(-1),
        Some(z) => {
            let writes = !z.pending.is_empty() || (!z.existed && z.flags & ZIP_CREATE != 0) || (
            z.path.is_some() && z.flags & ZIP_RDONLY == 0 && z.flags & (ZIP_CREATE
                | ZIP_TRUNCATE) != 0);
            if !writes {
                return CloseStep::Done(0);
            }
            match materialize(z, read) {
                Ok(plan) => CloseStep::Encode(plan),
                Err(code) => CloseStep::Done(z.fail(code)),
            }
        },
    }
}

/// What is left to do with an encoded archive.
#[derive(Debug)]
pub enum StoreStep {
    /// Nothing; this is the result.
    Done(i32),
    /// Write these bytes to this path, and go on with `close_stored`.
    Store(Vec<u8>, Vec<u8>),
}

/// Goes on with closing an archive that was encoded, or could not be. Without
/// a path there is nowhere to write it.
pub fn close_encoded(z: &mut Zip, encoded: Result<Vec<u8>, i32>) -> (r: StoreStep)
    ensures
        match encoded {
            Err(code) => r == StoreStep::Done((-1) as i32) && final(z)@ == old(z)@.failed(code),
            Ok(bytes) => {
                &&& final(z)@ == old(z)@
                &&& match old(z)@.path {
                    Some(p) if valid_utf8(p) => {
                        &&& r is Store
                        &&& r->Store_0@ == p
                        &&& r->Store_1@ == bytes@
                    },
                    _ => r == StoreStep::Done((-1) as i32),
                }
            },
        },
{
    match encoded {
        Err(code) => StoreStep::Done(z.fail(code)),
        Ok(bytes) => match &z.path {
            Some(p) => if is_utf8(p.as_slice()) {
                StoreStep::Store(copy_bytes(p), bytes)
            } else {
                StoreStep::Done(-1)
            },
            None => StoreStep::Done(-1),
        },
    }
}

/// Ends closing an archive that was written, or could not be. Gives the result.
pub fn close_stored(z: &mut Zip, stored: bool) -> (r: i32)
    ensures
        r == (if stored { 0int } else { -1 }),
        final(z)@ == (if stored { old(z)@ } else { old(z)@.failed(ZIP_ER_WRITE) }),
{
    if stored {
        0
    } else {
        z.fail(ZIP_ER_WRITE)
    }
}

} // verus!
