//! An open archive: what is on disk, the edits that wait, and what the getters
//! show of the two.

use crate::consts::{ZIP_AFL_RDONLY, ZIP_ER_RDONLY, ZIP_RDONLY};
use crate::errors::{error_of, no_error, zip_error, ErrorView};
use crate::extra::{
    apply_ops, change_fields_of, copy_user_fields, fields_view, user_fields, ExtraField, FieldView,
};
use crate::keyed::{find_last, last_value, lemma_last};
use crate::pending::{comments_view, no_edits, PendingOps, PendingView};
use crate::stat::{bytes_view, copy_bytes};
use vstd::prelude::*;

verus! {

/// An entry as it is on disk.
#[derive(Debug)]
pub struct Dirent {
    pub name: Vec<u8>,
    pub comment: Vec<u8>,
    pub extra_fields: Vec<ExtraField>,
    pub version_madeby: u16,
    pub ext_attrib: u32,
    pub last_mod_time: u16,
    pub last_mod_date: u16,
    pub encryption_method: u16,
}

/// What an entry on disk holds.
pub ghost struct DirentView {
    pub name: Seq<u8>,
    pub comment: Seq<u8>,
    pub extra_fields: Seq<FieldView>,
    pub version_madeby: u16,
    pub ext_attrib: u32,
    pub last_mod_time: u16,
    pub last_mod_date: u16,
    pub encryption_method: u16,
}

impl View for Dirent {
    type V = DirentView;

    open spec fn view(&self) -> DirentView {
        DirentView {
            name: self.name@,
            comment: self.comment@,
            extra_fields: fields_view(self.extra_fields@),
            version_madeby: self.version_madeby,
            ext_attrib: self.ext_attrib,
            last_mod_time: self.last_mod_time,
            last_mod_date: self.last_mod_date,
            encryption_method: self.encryption_method,
        }
    }
}

/// An archive as it is on disk.
#[derive(Debug)]
pub struct Archive {
    pub entries: Vec<Dirent>,
    pub comment: Vec<u8>,
}

/// What an archive on disk holds.
pub ghost struct ArchiveView {
    pub entries: Seq<DirentView>,
    pub comment: Seq<u8>,
}

/// What a list of entries holds.
pub open spec fn entries_view(s: Seq<Dirent>) -> Seq<DirentView> {
    s.map_values(|d: Dirent| d@)
}

impl View for Archive {
    type V = ArchiveView;

    open spec fn view(&self) -> ArchiveView {
        ArchiveView { entries: entries_view(self.entries@), comment: self.comment@ }
    }
}

/// The place of the first entry with a name among the first `len` entries.
pub open spec fn located(a: ArchiveView, name: Seq<u8>, len: nat) -> Option<int>
    decreases len,
{
    if len == 0 {
        None
    } else {
        match located(a, name, (len - 1) as nat) {
            Some(k) => Some(k),
            None => if a.entries[len - 1].name == name {
                Some(len - 1)
            } else {
                None
            },
        }
    }
}

/// The place of the first entry with a name.
pub open spec fn name_place(a: ArchiveView, name: Seq<u8>) -> Option<int> {
    located(a, name, a.entries.len())
}

/// Whether two byte strings are equal.
pub fn same_bytes(a: &[u8], b: &[u8]) -> (r: bool)
    ensures
        r == (a@ == b@),
{
    if a.len() != b.len() {
        return false;
    }
    let mut i: usize = 0;
    while i < a.len()
        invariant
            i <= a@.len(),
            a@.len() == b@.len(),
            forall|j: int| 0 <= j < i ==> a@[j] == b@[j],
        decreases a.len() - i,
    {
        if a[i] != b[i] {
            assert(a@[i as int] != b@[i as int]);
            return false;
        }
        i += 1;
    }
    assert(a@ =~= b@);
    true
}

/// The first entry with a name is one with that name, and none before it is.
pub proof fn law_first_of_a_name(a: ArchiveView, name: Seq<u8>, len: nat)
    requires
        len <= a.entries.len(),
    ensures
        match located(a, name, len) {
            Some(k) => {
                &&& 0 <= k < len
                &&& a.entries[k].name == name
                &&& forall|j: int| 0 <= j < k ==> (#[trigger] a.entries[j]).name != name
            },
            None => forall|j: int| 0 <= j < len ==> (#[trigger] a.entries[j]).name != name,
        },
    decreases len,
{
    if len > 0 {
        law_first_of_a_name(a, name, (len - 1) as nat);
    }
}

proof fn lemma_located_prefix(a: ArchiveView, name: Seq<u8>, short: nat, len: nat)
    requires
        short <= len,
        located(a, name, short) is Some,
    ensures
        located(a, name, len) == located(a, name, short),
    decreases len - short,
{
    if short < len {
        lemma_located_prefix(a, name, short, (len - 1) as nat);
    }
}

impl Archive {
    /// The place of the first entry named `name`.
    pub fn name_locate(&self, name: &[u8]) -> (r: Option<usize>)
        ensures
            match name_place(self@, name@) {
                Some(k) => r is Some && r->0 == k && 0 <= k < self@.entries.len(),
                None => r is None,
            },
    {
        let ghost view = self@;
        let mut i: usize = 0;
        while i < self.entries.len()
            invariant
                i <= self.entries@.len(),
                view == self@,
                located(view, name@, i as nat) is None,
            decreases self.entries.len() - i,
        {
            assert(view.entries[i as int] == self.entries@[i as int]@);
            if same_bytes(self.entries[i].name.as_slice(), name) {
                proof {
                    lemma_located_prefix(view, name@, (i + 1) as nat, view.entries.len());
                }
                return Some(i);
            }
            i += 1;
        }
        None
    }
}

/// An open archive.
#[derive(Debug)]
pub struct Zip {
    /// What is on disk.
    pub archive: Archive,
    /// Names that can be shown as C strings.
    pub names: Vec<Option<Vec<u8>>>,
    /// Comments of entries, as the getters show them.
    pub comments: Vec<Option<Vec<u8>>>,
    /// The archive comment with a closing NUL, as the getter shows it.
    pub archive_comment: Option<Vec<u8>>,
    /// Extra fields of entries, as the getters show them.
    pub extra_fields: Vec<Vec<ExtraField>>,
    /// The last error.
    pub error: zip_error,
    /// Where the archive is written on close.
    pub path: Option<Vec<u8>>,
    /// Flags given when the archive was opened.
    pub flags: i32,
    /// Archive flags as of opening.
    pub afl: i32,
    /// Archive flags with changes.
    pub ch_afl: i32,
    /// Whether the file existed when the archive was opened.
    pub existed: bool,
    /// Edits that wait.
    pub pending: PendingOps,
    /// Password for encrypted entries.
    pub password: Option<Vec<u8>>,
}

/// What an open archive holds.
pub ghost struct ZipView {
    pub archive: ArchiveView,
    pub names: Seq<Option<Seq<u8>>>,
    pub comments: Seq<Option<Seq<u8>>>,
    pub archive_comment: Option<Seq<u8>>,
    pub extra_fields: Seq<Seq<FieldView>>,
    pub error: ErrorView,
    pub path: Option<Seq<u8>>,
    pub flags: i32,
    pub afl: i32,
    pub ch_afl: i32,
    pub existed: bool,
    pub pending: PendingView,
    pub password: Option<Seq<u8>>,
}

/// What a list of optional byte strings holds.
pub open spec fn texts_view(s: Seq<Option<Vec<u8>>>) -> Seq<Option<Seq<u8>>> {
    s.map_values(|b: Option<Vec<u8>>| bytes_view(b))
}

/// What a list of lists of extra fields holds.
pub open spec fn field_lists_view(s: Seq<Vec<ExtraField>>) -> Seq<Seq<FieldView>> {
    s.map_values(|f: Vec<ExtraField>| fields_view(f@))
}

impl View for Zip {
    type V = ZipView;

    open spec fn view(&self) -> ZipView {
        ZipView {
            archive: self.archive@,
            names: texts_view(self.names@),
            comments: texts_view(self.comments@),
            archive_comment: bytes_view(self.archive_comment),
            extra_fields: field_lists_view(self.extra_fields@),
            error: self.error@,
            path: bytes_view(self.path),
            flags: self.flags,
            afl: self.afl,
            ch_afl: self.ch_afl,
            existed: self.existed,
            pending: self.pending@,
            password: bytes_view(self.password),
        }
    }
}

/// A byte string as a C string: there is none if it holds a NUL.
pub open spec fn c_string(b: Seq<u8>) -> Option<Seq<u8>> {
    if b.contains(0u8) {
        None
    } else {
        Some(b)
    }
}

/// A comment as the getter shows it: an empty one counts as none.
pub open spec fn shown_comment(c: Option<Seq<u8>>) -> Option<Seq<u8>> {
    match c {
        Some(b) => if b.len() == 0 {
            None
        } else {
            c_string(b)
        },
        None => None,
    }
}

/// An archive comment as it is kept for the getter: with a closing NUL.
pub open spec fn shown_archive_comment(b: Seq<u8>) -> Option<Seq<u8>> {
    if b.len() == 0 {
        None
    } else {
        Some(b.push(0))
    }
}

/// When an entry was last modified.
#[derive(Clone, Copy, Debug, PartialEq, Eq, Structural)]
pub enum EntryTime {
    /// Unix seconds, to be converted by the local time zone.
    Unix(u64),
    /// DOS time and date.
    Dos(u16, u16),
}

impl ZipView {
    /// Number of entries on disk.
    pub open spec fn len(self) -> nat {
        self.archive.entries.len()
    }

    /// Number of entries on disk and to be appended.
    pub open spec fn total(self) -> nat {
        self.len() + self.pending.adds.len()
    }

    /// The comment of an entry on disk.
    pub open spec fn disk_comment(self, index: u64) -> Option<Seq<u8>> {
        if index < self.len() && self.archive.entries[index as int].comment.len() > 0 {
            Some(self.archive.entries[index as int].comment)
        } else {
            None
        }
    }

    /// The comment of an entry with the edits.
    pub open spec fn effective_comment(self, index: u64) -> Option<Seq<u8>> {
        match last_value(self.pending.file_comments, index) {
            Some(c) => c,
            None => self.disk_comment(index),
        }
    }

    /// The extra fields of an entry on disk that are the user's.
    pub open spec fn disk_fields(self, index: u64) -> Seq<FieldView> {
        if index < self.len() {
            user_fields(self.archive.entries[index as int].extra_fields)
        } else {
            Seq::empty()
        }
    }

    /// The extra fields of an entry with the edits.
    pub open spec fn effective_fields(self, index: u64) -> Seq<FieldView> {
        apply_ops(self.disk_fields(index), self.pending.extra_field_ops, index)
    }

    /// The host system and the external attributes of an entry with the edits.
    pub open spec fn effective_ext_attrs(self, index: u64) -> Option<(u8, u32)> {
        match last_value(self.pending.ext_attrs, index) {
            Some(a) => Some(a),
            None => if index < self.len() {
                let d = self.archive.entries[index as int];
                Some(((d.version_madeby >> 8) as u8, d.ext_attrib))
            } else {
                None
            },
        }
    }

    /// The time of an entry with the edits: a Unix time goes before a DOS time.
    pub open spec fn effective_time(self, index: u64) -> EntryTime {
        match last_value(self.pending.mtimes, index) {
            Some(t) => EntryTime::Unix(if t < 0 { 0 } else { t as u64 }),
            None => match last_value(self.pending.dostimes, index) {
                Some(td) => EntryTime::Dos(td.0, td.1),
                None => if index < self.len() {
                    let d = self.archive.entries[index as int];
                    EntryTime::Dos(d.last_mod_time, d.last_mod_date)
                } else {
                    EntryTime::Dos(0, 0)
                },
            },
        }
    }

    /// The archive comment with the edits.
    pub open spec fn effective_archive_comment(self) -> Seq<u8> {
        match self.pending.archive_comment {
            Some(c) => c,
            None => self.archive.comment,
        }
    }

    /// The comment that the getter shows.
    pub open spec fn comment_at(self, index: u64) -> Option<Seq<u8>> {
        if index < self.comments.len() {
            self.comments[index as int]
        } else {
            None
        }
    }

    /// The extra fields that the getters show.
    pub open spec fn fields_at(self, index: u64) -> Seq<FieldView> {
        if index < self.extra_fields.len() {
            self.extra_fields[index as int]
        } else {
            Seq::empty()
        }
    }

    /// The getters show what is on disk with the edits.
    pub open spec fn wf(self) -> bool {
        &&& self.names.len() == self.len()
        &&& self.comments.len() >= self.len()
        &&& self.extra_fields.len() >= self.len()
        &&& self.afl == open_afl(self.flags)
        &&& forall|i: int|
            0 <= i < self.len() ==> #[trigger] self.names[i] == c_string(
                self.archive.entries[i].name,
            )
        &&& forall|i: u64| #[trigger]
            self.comment_at(i) == shown_comment(self.effective_comment(i))
        &&& forall|i: u64| #[trigger] self.fields_at(i) == self.effective_fields(i)
        &&& self.archive_comment == shown_archive_comment(self.effective_archive_comment())
    }

    /// The archive with an error recorded in it.
    pub open spec fn failed(self, code: i32) -> ZipView {
        ZipView { error: error_of(code, 0), ..self }
    }

    /// Whether edits are refused.
    pub open spec fn read_only(self) -> bool {
        self.flags & ZIP_RDONLY != 0
    }
}

/// Edits that do not concern what the getters show leave them in order.
pub proof fn lemma_wf_same(a: ZipView, b: ZipView)
    requires
        a.wf(),
        b.archive == a.archive,
        b.names == a.names,
        b.flags == a.flags,
        b.afl == a.afl,
        b.comments == a.comments,
        b.archive_comment == a.archive_comment,
        b.extra_fields == a.extra_fields,
        b.pending.file_comments == a.pending.file_comments,
        b.pending.extra_field_ops == a.pending.extra_field_ops,
        b.pending.archive_comment == a.pending.archive_comment,
    ensures
        b.wf(),
{
    assert forall|i: u64| #[trigger]
        b.comment_at(i) == shown_comment(b.effective_comment(i)) by {
        assert(a.comment_at(i) == shown_comment(a.effective_comment(i)));
    }
    assert forall|i: u64| #[trigger] b.fields_at(i) == b.effective_fields(i) by {
        assert(a.fields_at(i) == a.effective_fields(i));
    }
}

/// The archive flags of an archive opened with `flags`.
pub open spec fn open_afl(flags: i32) -> i32 {
    if flags & ZIP_RDONLY != 0 {
        ZIP_AFL_RDONLY
    } else {
        0
    }
}

/// Whether a byte string holds a NUL.
pub fn has_nul(b: &Vec<u8>) -> (r: bool)
    ensures
        r == b@.contains(0u8),
{
    let mut i: usize = 0;
    while i < b.len()
        invariant
            i <= b@.len(),
            forall|j: int| 0 <= j < i ==> b@[j] != 0,
        decreases b.len() - i,
    {
        if b[i] == 0 {
            assert(b@[i as int] == 0);
            return true;
        }
        i += 1;
    }
    false
}

/// A copy of a byte string as a C string.
pub fn to_c_string(b: &Vec<u8>) -> (r: Option<Vec<u8>>)
    ensures
        bytes_view(r) == c_string(b@),
{
    if has_nul(b) {
        None
    } else {
        Some(copy_bytes(b))
    }
}

/// A comment as the getter shows it.
pub fn to_shown_comment(b: &Vec<u8>) -> (r: Option<Vec<u8>>)
    ensures
        bytes_view(r) == shown_comment(Some(b@)),
{
    if b.is_empty() {
        None
    } else {
        to_c_string(b)
    }
}

/// An archive comment as it is kept for the getter.
pub fn to_shown_archive_comment(b: &Vec<u8>) -> (r: Option<Vec<u8>>)
    ensures
        bytes_view(r) == shown_archive_comment(b@),
{
    if b.is_empty() {
        None
    } else {
        let mut c = copy_bytes(b);
        c.push(0);
        Some(c)
    }
}

impl Archive {
    /// The names that can be shown as C strings.
    fn c_names(&self) -> (r: Vec<Option<Vec<u8>>>)
        ensures
            texts_view(r@) == Seq::new(
                self@.entries.len(),
                |i: int| c_string(self@.entries[i].name),
            ),
    {
        let mut out: Vec<Option<Vec<u8>>> = Vec::new();
        let mut i: usize = 0;
        while i < self.entries.len()
            invariant
                i <= self.entries@.len(),
                out@.len() == i,
                forall|j: int|
                    0 <= j < i ==> bytes_view(#[trigger] out@[j]) == c_string(
                        self.entries@[j].name@,
                    ),
            decreases self.entries.len() - i,
        {
            out.push(to_c_string(&self.entries[i].name));
            i += 1;
        }
        assert(texts_view(out@) =~= Seq::new(
            self@.entries.len(),
            |i: int| c_string(self@.entries[i].name),
        ));
        out
    }

    /// The comments of the entries, as the getters show them.
    pub fn shown_comments(&self) -> (r: Vec<Option<Vec<u8>>>)
        ensures
            texts_view(r@) == Seq::new(
                self@.entries.len(),
                |i: int| shown_comment(Some(self@.entries[i].comment)),
            ),
    {
        let mut out: Vec<Option<Vec<u8>>> = Vec::new();
        let mut i: usize = 0;
        while i < self.entries.len()
            invariant
                i <= self.entries@.len(),
                out@.len() == i,
                forall|j: int|
                    0 <= j < i ==> bytes_view(#[trigger] out@[j]) == shown_comment(
                        Some(self.entries@[j].comment@),
                    ),
            decreases self.entries.len() - i,
        {
            out.push(to_shown_comment(&self.entries[i].comment));
            i += 1;
        }
        assert(texts_view(out@) =~= Seq::new(
            self@.entries.len(),
            |i: int| shown_comment(Some(self@.entries[i].comment)),
        ));
        out
    }

    /// The extra fields of the entries that are the user's.
    pub fn shown_fields(&self) -> (r: Vec<Vec<ExtraField>>)
        ensures
            field_lists_view(r@) == Seq::new(
                self@.entries.len(),
                |i: int| user_fields(self@.entries[i].extra_fields),
            ),
    {
        let mut out: Vec<Vec<ExtraField>> = Vec::new();
        let mut i: usize = 0;
        while i < self.entries.len()
            invariant
                i <= self.entries@.len(),
                out@.len() == i,
                forall|j: int|
                    0 <= j < i ==> fields_view((#[trigger] out@[j])@) == user_fields(
                        self.entries@[j]@.extra_fields,
                    ),
            decreases self.entries.len() - i,
        {
            out.push(copy_user_fields(&self.entries[i].extra_fields));
            i += 1;
        }
        assert(field_lists_view(out@) =~= Seq::new(
            self@.entries.len(),
            |i: int| user_fields(self@.entries[i].extra_fields),
        ));
        out
    }
}

/// What an archive holds that has just been opened.
pub open spec fn opened(
    archive: ArchiveView,
    flags: i32,
    existed: bool,
    path: Option<Seq<u8>>,
) -> ZipView {
    ZipView {
        archive,
        names: Seq::new(archive.entries.len(), |i: int| c_string(archive.entries[i].name)),
        comments: Seq::new(
            archive.entries.len(),
            |i: int| shown_comment(Some(archive.entries[i].comment)),
        ),
        archive_comment: shown_archive_comment(archive.comment),
        extra_fields: Seq::new(
            archive.entries.len(),
            |i: int| user_fields(archive.entries[i].extra_fields),
        ),
        error: no_error(),
        path,
        flags,
        afl: open_afl(flags),
        ch_afl: open_afl(flags),
        existed,
        pending: no_edits(),
        password: None,
    }
}

/// In an archive that has just been opened the getters show what is on disk.
pub proof fn lemma_opened_wf(
    archive: ArchiveView,
    flags: i32,
    existed: bool,
    path: Option<Seq<u8>>,
)
    ensures
        opened(archive, flags, existed, path).wf(),
{
}

/// An open archive over what is on disk, without edits.
pub fn make_zip(archive: Archive, flags: i32, existed: bool, path: Option<Vec<u8>>) -> (r: Zip)
    ensures
        r@ == opened(archive@, flags, existed, bytes_view(path)),
        r@.wf(),
{
    proof {
        lemma_opened_wf(archive@, flags, existed, bytes_view(path));
    }
    let names = archive.c_names();
    let comments = archive.shown_comments();
    let archive_comment = to_shown_archive_comment(&archive.comment);
    let extra_fields = archive.shown_fields();
    let afl: i32 = if flags & ZIP_RDONLY != 0 { ZIP_AFL_RDONLY } else { 0 };
    Zip {
        archive,
        names,
        comments,
        archive_comment,
        extra_fields,
        error: zip_error::new(),
        path,
        flags,
        afl,
        ch_afl: afl,
        existed,
        pending: PendingOps::new(),
        password: None,
    }
}

impl Zip {
    /// Records an error.
    pub fn set_err(&mut self, code: i32, sys: i32)
        ensures
            final(self)@ == (ZipView { error: error_of(code, sys), ..old(self)@ }),
            old(self)@.wf() ==> final(self)@.wf(),
    {
        let ghost before = self@;
        self.error.record(code, sys);
        proof {
            if before.wf() {
                lemma_wf_same(before, self@);
            }
        }
    }

    /// Refuses an edit of a read-only archive.
    pub fn check_writable(&mut self) -> (r: bool)
        ensures
            r == !old(self)@.read_only(),
            final(self)@ == (if r {
                old(self)@
            } else {
                old(self)@.failed(ZIP_ER_RDONLY)
            }),
            old(self)@.wf() ==> final(self)@.wf(),
    {
        if self.flags & ZIP_RDONLY != 0 {
            self.set_err(ZIP_ER_RDONLY, 0);
            return false;
        }
        true
    }

    /// Whether there is an entry `index` on disk or to be appended.
    pub fn valid_index(&self, index: u64) -> (r: bool)
        ensures
            r == (index < self@.total()),
    {
        let n: u64 = self.archive.entries.len() as u64;
        index < n || index - n < self.pending.adds.len() as u64
    }

    /// The comment of an entry with the edits.
    pub fn effective_comment(&self, index: u64) -> (r: Option<Vec<u8>>)
        ensures
            bytes_view(r) == self@.effective_comment(index),
    {
        let at = find_last(&self.pending.file_comments, index);
        proof {
            let view = comments_view(self.pending.file_comments@);
            lemma_last(view, index, at);
        }
        match at {
            Some(k) => match &self.pending.file_comments[k].1 {
                Some(c) => Some(copy_bytes(c)),
                None => None,
            },
            None => {
                if index < self.archive.entries.len() as u64 {
                    let d = &self.archive.entries[index as usize];
                    if !d.comment.is_empty() {
                        return Some(copy_bytes(&d.comment));
                    }
                }
                None
            },
        }
    }

    /// The extra fields of an entry with the edits.
    pub fn effective_extra_fields(&self, index: u64) -> (r: Vec<ExtraField>)
        ensures
            fields_view(r@) == self@.effective_fields(index),
    {
        let mut base: Vec<ExtraField> = if index < self.archive.entries.len() as u64 {
            copy_user_fields(&self.archive.entries[index as usize].extra_fields)
        } else {
            Vec::new()
        };
        assert(fields_view(base@) =~= self@.disk_fields(index));
        change_fields_of(&mut base, &self.pending.extra_field_ops, index);
        base
    }

    /// The host system and the external attributes of an entry with the edits.
    pub fn effective_ext_attrs(&self, index: u64) -> (r: Option<(u8, u32)>)
        ensures
            r == self@.effective_ext_attrs(index),
    {
        let at = find_last(&self.pending.ext_attrs, index);
        proof {
            lemma_last(self.pending.ext_attrs@, index, at);
        }
        match at {
            Some(k) => Some(self.pending.ext_attrs[k].1),
            None => {
                if index < self.archive.entries.len() as u64 {
                    let d = &self.archive.entries[index as usize];
                    Some(((d.version_madeby >> 8) as u8, d.ext_attrib))
                } else {
                    None
                }
            },
        }
    }

    /// The time of an entry with the edits.
    pub fn effective_dostime(&self, index: u64) -> (r: EntryTime)
        ensures
            r == self@.effective_time(index),
    {
        let at = find_last(&self.pending.mtimes, index);
        proof {
            lemma_last(self.pending.mtimes@, index, at);
        }
        if let Some(k) = at {
            let t: i64 = self.pending.mtimes[k].1;
            return EntryTime::Unix(if t < 0 { 0 } else { t as u64 });
        }
        let dos = find_last(&self.pending.dostimes, index);
        proof {
            lemma_last(self.pending.dostimes@, index, dos);
        }
        if let Some(k) = dos {
            let td = self.pending.dostimes[k].1;
            return EntryTime::Dos(td.0, td.1);
        }
        if index < self.archive.entries.len() as u64 {
            let d = &self.archive.entries[index as usize];
            EntryTime::Dos(d.last_mod_time, d.last_mod_date)
        } else {
            EntryTime::Dos(0, 0)
        }
    }
}

} // verus!
