//! Taking edits back, and the flags of an archive.
//!
//! A handle is an optional reference; a missing one is the null handle.

use crate::archive::{
    field_lists_view, shown_archive_comment, shown_comment, texts_view,
    to_shown_archive_comment, to_shown_comment, opened, Zip, ZipView,
};
use crate::consts::{
    ZIP_AFL_IS_TORRENTZIP, ZIP_AFL_RDONLY, ZIP_ER_CHANGED, ZIP_ER_INVAL, ZIP_ER_RDONLY,
    ZIP_FL_UNCHANGED,
};
use crate::archive::lemma_wf_same;
use crate::extra::{copy_user_fields, fields_view, lemma_ops_without, user_fields};
use crate::keyed::lemma_without;
use crate::pending::{lemma_drop_value, no_edits, reverted, PendingOps, PendingView};
use crate::stat::bytes_view;
use vstd::prelude::*;

verus! {

/// A list with `value` at `index`, if it is that long.
pub open spec fn set_at<T>(s: Seq<T>, index: int, value: T) -> Seq<T> {
    if index < s.len() {
        s.update(index, value)
    } else {
        s
    }
}

impl ZipView {
    /// The archive without the edits of one entry, which the getters show as
    /// it is on disk.
    pub open spec fn unchanged_entry(self, index: u64) -> ZipView {
        ZipView {
            pending: reverted(self.pending, self.len(), index),
            comments: set_at(
                self.comments,
                index as int,
                shown_comment(self.disk_comment(index)),
            ),
            extra_fields: set_at(self.extra_fields, index as int, self.disk_fields(index)),
            ..self
        }
    }

    /// The archive without the edits of its comment and its flags.
    pub open spec fn unchanged_archive(self) -> ZipView {
        ZipView {
            pending: PendingView { archive_comment: None, ..self.pending },
            archive_comment: shown_archive_comment(self.archive.comment),
            ch_afl: self.afl,
            ..self
        }
    }

    /// The archive without edits.
    pub open spec fn unchanged_all(self) -> ZipView {
        ZipView {
            pending: no_edits(),
            comments: Seq::new(
                self.len(),
                |i: int| shown_comment(Some(self.archive.entries[i].comment)),
            ),
            extra_fields: Seq::new(
                self.len(),
                |i: int| user_fields(self.archive.entries[i].extra_fields),
            ),
            archive_comment: shown_archive_comment(self.archive.comment),
            ch_afl: self.afl,
            ..self
        }
    }
}

/// Behind the taking back of its edits an entry is as it is on disk, in what
/// the getters show and in what would be written; other entries are as before.
pub proof fn lemma_unchanged_entry(z: ZipView, index: u64)
    requires
        z.wf(),
    ensures
        ({
            let n = z.unchanged_entry(index);
            &&& n.wf()
            &&& n.effective_comment(index) == z.disk_comment(index)
            &&& n.effective_fields(index) == z.disk_fields(index)
            &&& n.comment_at(index) == shown_comment(z.disk_comment(index))
            &&& n.fields_at(index) == z.disk_fields(index)
            &&& !n.pending.deletes.contains(index)
            &&& crate::keyed::last_value(n.pending.renames, index) is None
            &&& crate::keyed::last_value(n.pending.replaces, index) is None
            &&& crate::keyed::last_value(n.pending.encryptions, index) is None
            &&& crate::keyed::last_value(n.pending.compressions, index) is None
            &&& crate::keyed::last_value(n.pending.mtimes, index) is None
            &&& crate::keyed::last_value(n.pending.dostimes, index) is None
            &&& crate::keyed::last_value(n.pending.ext_attrs, index) is None
            &&& forall|i: u64| i != index ==> #[trigger] n.comment_at(i) == z.comment_at(i)
            &&& forall|i: u64| i != index ==> #[trigger] n.fields_at(i) == z.fields_at(i)
            &&& forall|i: u64|
                i != index ==> (#[trigger] n.pending.deletes.contains(i)
                    <==> z.pending.deletes.contains(i))
        }),
{
    let n = z.unchanged_entry(index);
    lemma_drop_value(z.pending.deletes, index, index);
    lemma_without(z.pending.renames, index, index);
    lemma_without(z.pending.replaces, index, index);
    lemma_without(z.pending.encryptions, index, index);
    lemma_without(z.pending.compressions, index, index);
    lemma_without(z.pending.mtimes, index, index);
    lemma_without(z.pending.dostimes, index, index);
    lemma_without(z.pending.ext_attrs, index, index);
    assert forall|i: u64| i != index implies (#[trigger] n.pending.deletes.contains(i)
        <==> z.pending.deletes.contains(i)) by {
        lemma_drop_value(z.pending.deletes, index, i);
    }
    assert forall|i: u64| #[trigger]
        n.comment_at(i) == shown_comment(n.effective_comment(i)) by {
        lemma_without(z.pending.file_comments, index, i);
        lemma_without(z.pending.file_comments, index, index);
        assert(z.comment_at(i) == shown_comment(z.effective_comment(i)));
    }
    assert forall|i: u64| #[trigger] n.fields_at(i) == n.effective_fields(i) by {
        lemma_ops_without(z.disk_fields(i), z.pending.extra_field_ops, index, i);
        assert(z.fields_at(i) == z.effective_fields(i));
    }
    lemma_without(z.pending.file_comments, index, index);
    lemma_ops_without(z.disk_fields(index), z.pending.extra_field_ops, index, index);
    assert(n.comment_at(index) == shown_comment(n.effective_comment(index)));
    assert(n.fields_at(index) == n.effective_fields(index));
}

/// Behind the taking back of all edits an archive is as it was opened, but for
/// the last error and the password.
pub proof fn lemma_unchanged_all(z: ZipView)
    requires
        z.wf(),
    ensures
        z.unchanged_all() == (ZipView {
            error: z.error,
            password: z.password,
            ..opened(z.archive, z.flags, z.existed, z.path)
        }),
        z.unchanged_all().wf(),
{
    let n = z.unchanged_all();
    let o = opened(z.archive, z.flags, z.existed, z.path);
    assert(n.names =~= o.names);
    assert(n.comments =~= o.comments);
    assert(n.extra_fields =~= o.extra_fields);
    crate::archive::lemma_opened_wf(z.archive, z.flags, z.existed, z.path);
    lemma_wf_same(o, n);
}

/// Behind the taking back of its comment and flags an archive shows those on
/// disk, and its entries are as before.
pub proof fn lemma_unchanged_archive(z: ZipView)
    requires
        z.wf(),
    ensures
        z.unchanged_archive().wf(),
        z.unchanged_archive().effective_archive_comment() == z.archive.comment,
{
    let n = z.unchanged_archive();
    assert forall|i: u64| #[trigger]
        n.comment_at(i) == shown_comment(n.effective_comment(i)) by {
        assert(z.comment_at(i) == shown_comment(z.effective_comment(i)));
    }
    assert forall|i: u64| #[trigger] n.fields_at(i) == n.effective_fields(i) by {
        assert(z.fields_at(i) == z.effective_fields(i));
    }
}

/// Taking back the edits of an entry: the archive behind it, and the result.
pub open spec fn unchange_outcome(z: ZipView, index: u64) -> (ZipView, int) {
    if index >= z.total() {
        (z.failed(ZIP_ER_INVAL), -1)
    } else {
        (z.unchanged_entry(index), 0)
    }
}

/// Takes back every edit of an entry. One to be appended is not appended after
/// all. Gives 0, or -1 for an index that no entry has.
pub fn zip_unchange(zh: Option<&mut Zip>, index: u64) -> (r: i32)
    ensures
        zh is None ==> r == -1,
        zh matches Some(z) ==> {
            &&& z@.wf() ==> final(z)@.wf()
            &&& (final(z)@, r as int) == unchange_outcome(z@, index)
        },
{
    match zh {
        None => -1,
        Some(z) => {
            if !z.valid_index(index) {
                return z.fail(ZIP_ER_INVAL);
            }
            proof {
                if z@.wf() {
                    lemma_unchanged_entry(z@, index);
                }
            }
            let ghost before = z@;
            let ghost comments = z.comments@;
            let ghost fields = z.extra_fields@;
            let n: u64 = z.archive.entries.len() as u64;
            z.pending.unchange_entry(n, index);
            if index < z.comments.len() as u64 {
                let comment = if index < n {
                    to_shown_comment(&z.archive.entries[index as usize].comment)
                } else {
                    None
                };
                assert(bytes_view(comment) == shown_comment(before.disk_comment(index)));
                z.comments[index as usize] = comment;
                assert(texts_view(z.comments@) =~= texts_view(comments).update(
                    index as int,
                    bytes_view(comment),
                ));
            }
            if index < z.extra_fields.len() as u64 {
                let list = if index < n {
                    copy_user_fields(&z.archive.entries[index as usize].extra_fields)
                } else {
                    Vec::new()
                };
                assert(fields_view(list@) =~= before.disk_fields(index));
                z.extra_fields[index as usize] = list;
                assert(field_lists_view(z.extra_fields@) =~= field_lists_view(fields).update(
                    index as int,
                    fields_view(list@),
                ));
            }
            0
        },
    }
}

/// Takes back every edit. Gives 0.
pub fn zip_unchange_all(zh: Option<&mut Zip>) -> (r: i32)
    ensures
        zh is None ==> r == -1,
        zh matches Some(z) ==> {
            &&& z@.wf() ==> final(z)@.wf()
            &&& r == 0
            &&& final(z)@ == z@.unchanged_all()
        },
{
    match zh {
        None => -1,
        Some(z) => {
            proof {
                if z@.wf() {
                    lemma_unchanged_all(z@);
                }
            }
            z.pending = PendingOps::new();
            z.ch_afl = z.afl;
            z.comments = z.archive.shown_comments();
            z.extra_fields = z.archive.shown_fields();
            z.archive_comment = to_shown_archive_comment(&z.archive.comment);
            0
        },
    }
}

/// Takes back the edits of the archive comment and flags; those of entries
/// stay. Gives 0.
pub fn zip_unchange_archive(zh: Option<&mut Zip>) -> (r: i32)
    ensures
        zh is None ==> r == -1,
        zh matches Some(z) ==> {
            &&& z@.wf() ==> final(z)@.wf()
            &&& r == 0
            &&& final(z)@ == z@.unchanged_archive()
        },
{
    match zh {
        None => -1,
        Some(z) => {
            proof {
                if z@.wf() {
                    lemma_unchanged_archive(z@);
                }
            }
            z.pending.archive_comment = None;
            z.ch_afl = z.afl;
            z.archive_comment = to_shown_archive_comment(&z.archive.comment);
            0
        },
    }
}

/// 1 if an archive flag is set, else 0. With `ZIP_FL_UNCHANGED` the flags as of
/// opening count.
pub fn zip_get_archive_flag(zh: Option<&Zip>, flag: i32, flags: u32) -> (r: i32)
    ensures
        zh is None ==> r == -1,
        zh matches Some(z) ==> r == (if (if flags & ZIP_FL_UNCHANGED != 0 {
            z.afl
        } else {
            z.ch_afl
        }) & flag != 0 {
            1int
        } else {
            0
        }),
{
    match zh {
        None => -1,
        Some(z) => {
            let fl: i32 = if flags & ZIP_FL_UNCHANGED != 0 { z.afl } else { z.ch_afl };
            if fl & flag != 0 {
                1
            } else {
                0
            }
        },
    }
}

/// The archive flags with `flag` set or cleared.
pub open spec fn flags_with(cur: i32, flag: i32, value: i32) -> i32 {
    if value != 0 {
        cur | flag
    } else {
        cur & !flag
    }
}

/// Setting or clearing an archive flag: the archive behind it, and the result.
/// The torrentzip flag cannot be set; a change without effect always succeeds;
/// an archive opened read-only refuses every other change; and an archive with
/// edits cannot be made read-only.
pub open spec fn flag_outcome(z: ZipView, flag: i32, value: i32) -> (ZipView, int) {
    let changed = flags_with(z.ch_afl, flag, value);
    if flag == ZIP_AFL_IS_TORRENTZIP {
        (z.failed(ZIP_ER_INVAL), -1)
    } else if changed == z.ch_afl {
        (z, 0)
    } else if z.afl & ZIP_AFL_RDONLY != 0 {
        (z.failed(ZIP_ER_RDONLY), -1)
    } else if flag == ZIP_AFL_RDONLY && value != 0 && z.ch_afl & ZIP_AFL_RDONLY == 0 && z.pending
        != no_edits() {
        (z.failed(ZIP_ER_CHANGED), -1)
    } else {
        (ZipView { ch_afl: changed, ..z }, 0)
    }
}

/// Sets or clears an archive flag. Gives 0 or -1.
pub fn zip_set_archive_flag(zh: Option<&mut Zip>, flag: i32, value: i32) -> (r: i32)
    ensures
        zh is None ==> r == -1,
        zh matches Some(z) ==> {
            &&& z@.wf() ==> final(z)@.wf()
            &&& (final(z)@, r as int) == flag_outcome(z@, flag, value)
        },
{
    match zh {
        None => -1,
        Some(z) => {
            if flag == ZIP_AFL_IS_TORRENTZIP {
                return z.fail(ZIP_ER_INVAL);
            }
            let cur: i32 = z.ch_afl;
            let changed: i32 = if value != 0 { cur | flag } else { cur & !flag };
            if changed == cur {
                return 0;
            }
            if z.afl & ZIP_AFL_RDONLY != 0 {
                return z.fail(ZIP_ER_RDONLY);
            }
            if flag == ZIP_AFL_RDONLY && value != 0 && cur & ZIP_AFL_RDONLY == 0
                && !z.pending.is_empty() {
                return z.fail(ZIP_ER_CHANGED);
            }
            let ghost before = z@;
            z.ch_afl = changed;
            proof {
                if before.wf() {
                    lemma_wf_same(before, z@);
                }
            }
            0
        },
    }
}

} // verus!
