//! What holds of edits and of what closing an archive writes.

use crate::archive::{name_place, opened, EntryTime, ZipView};
use crate::consts::{ZIP_ER_NOPASSWD, ZIP_EXTRA_FIELD_NEW};
use crate::edit::{add_outcome, encryption_outcome, rename_outcome};
use crate::extra::{count_id, OpView};
use crate::keyed::{last_value, lemma_push, lemma_replaced, replaced};
use crate::laws::law_new_field_is_found;
use crate::metadata::{compression_outcome, field_data, lemma_fields_shown};
use crate::pending::{no_edits, AddView, PendingView};
use crate::plan::{requested_method, FileView, PlanView};
use crate::revert::lemma_unchanged_all;
use vstd::prelude::*;

verus! {

/// Those of the first `k` entries on disk that are written, in order.
pub open spec fn kept_indices(z: ZipView, k: nat) -> Seq<u64>
    decreases k,
{
    if k == 0 {
        Seq::empty()
    } else {
        let before = kept_indices(z, (k - 1) as nat);
        if z.pending.deletes.contains((k - 1) as u64) {
            before
        } else {
            before.push((k - 1) as u64)
        }
    }
}

/// Of the entries on disk those are written that are not deleted, in their
/// order, each under its name and with its contents as edited.
pub proof fn law_kept_entries(z: ZipView, contents: Seq<Seq<u8>>, k: nat)
    requires
        k <= z.len() <= u64::MAX,
    ensures
        z.kept(contents, k).len() == kept_indices(z, k).len(),
        forall|j: int|
            0 <= j < kept_indices(z, k).len() ==> {
                let i = #[trigger] kept_indices(z, k)[j];
                &&& i < k
                &&& !z.pending.deletes.contains(i)
                &&& z.kept(contents, k)[j] == z.file(
                    i,
                    z.effective_name(i),
                    z.content(contents, i),
                )
            },
        forall|j: int, l: int|
            0 <= j < l < kept_indices(z, k).len() ==> #[trigger] kept_indices(z, k)[j]
                < #[trigger] kept_indices(z, k)[l],
        forall|i: u64|
            i < k && !z.pending.deletes.contains(i) ==> #[trigger] kept_indices(z, k).contains(i),
    decreases k,
{
    if k > 0 {
        let before = kept_indices(z, (k - 1) as nat);
        law_kept_entries(z, contents, (k - 1) as nat);
        let last = (k - 1) as u64;
        assert forall|i: u64| i < k && !z.pending.deletes.contains(i) implies #[trigger]
            kept_indices(z, k).contains(i) by {
            if i < k - 1 {
                assert(before.contains(i));
                let j = choose|j: int| 0 <= j < before.len() && before[j] == i;
                assert(kept_indices(z, k)[j] == i);
            } else {
                assert(kept_indices(z, k)[before.len() as int] == i);
            }
        }
    }
}

/// An entry to be appended is written last, under its name and with its
/// contents; the entries before it are written as without it.
pub proof fn law_appended_is_written(
    z: ZipView,
    name: Seq<u8>,
    data: Seq<u8>,
    contents: Seq<Seq<u8>>,
)
    requires
        z.total() < u64::MAX,
    ensures
        z.appended(name, data).files(contents) == z.files(contents).push(
            z.file(z.total() as u64, name, data),
        ),
{
    let n = z.appended(name, data);
    lemma_same_kept(z, n, contents, z.len());
    lemma_same_added(z, n, z.pending.adds.len());
    let k = z.pending.adds.len();
    assert(n.pending.adds[k as int] == (AddView { name, data }));
    assert(n.added(k + 1) == n.added(k).push(n.file((n.len() + k) as u64, name, data)));
    assert(n.file(z.total() as u64, name, data) == z.file(z.total() as u64, name, data));
    assert(n.files(contents) =~= z.files(contents).push(
        z.file(z.total() as u64, name, data),
    ));
}

proof fn lemma_same_kept(z: ZipView, n: ZipView, contents: Seq<Seq<u8>>, k: nat)
    requires
        k <= z.len() <= u64::MAX,
        n.archive == z.archive,
        n.pending == (PendingView { adds: n.pending.adds, ..z.pending }),
    ensures
        n.kept(contents, k) == z.kept(contents, k),
        n.to_read(k) == z.to_read(k),
    decreases k,
{
    if k > 0 {
        lemma_same_kept(z, n, contents, (k - 1) as nat);
        let i = (k - 1) as u64;
        assert(n.file(i, z.effective_name(i), z.content(contents, i)) == z.file(
            i,
            z.effective_name(i),
            z.content(contents, i),
        ));
        assert(n.to_read(i as nat) == z.to_read(i as nat));
        assert(n.content(contents, i) == z.content(contents, i));
    }
}

proof fn lemma_same_added(z: ZipView, n: ZipView, k: nat)
    requires
        k <= z.pending.adds.len() <= n.pending.adds.len(),
        n.archive == z.archive,
        n.pending == (PendingView { adds: n.pending.adds, ..z.pending }),
        forall|j: int| 0 <= j < z.pending.adds.len() ==> n.pending.adds[j] == z.pending.adds[j],
    ensures
        n.added(k) == z.added(k),
    decreases k,
{
    if k > 0 {
        lemma_same_added(z, n, (k - 1) as nat);
        let a = z.pending.adds[k - 1];
        let i = (z.len() + k - 1) as u64;
        assert(n.file(i, a.name, a.data) == z.file(i, a.name, a.data));
    }
}

/// An entry under a name that is not taken is appended with its contents, and
/// its index is the number of entries before it.
pub proof fn law_added_is_written(
    z: ZipView,
    name: Seq<u8>,
    data: Seq<u8>,
    flags: u32,
    contents: Seq<Seq<u8>>,
)
    requires
        z.total() < u64::MAX,
        name_place(z.archive, name) is None,
    ensures
        ({
            let (n, index) = add_outcome(z, name, data, flags);
            let files = n.files(contents);
            &&& index == z.total()
            &&& files.len() == z.files(contents).len() + 1
            &&& files.last().name == name
            &&& files.last().data == data
        }),
{
    law_appended_is_written(z, name, data, contents);
}

/// New contents take the place of those on disk and of those that were given
/// before; whether another entry is read is as before.
pub proof fn law_replaced_content(
    z: ZipView,
    index: u64,
    data: Seq<u8>,
    contents: Seq<Seq<u8>>,
    other: u64,
)
    ensures
        z.with_content(index, data).content(contents, index) == data,
        !z.with_content(index, data).must_read(index),
        other != index ==> z.with_content(index, data).must_read(other) == z.must_read(other),
{
    lemma_push(z.pending.replaces, index, data, other);
}

/// A new name takes the place of the one on disk and of those that were given
/// before; the names of other entries are as before.
pub proof fn law_renamed(z: ZipView, index: u64, name: Option<&[u8]>, other: u64)
    requires
        rename_outcome(z, index, name).1 == 0,
    ensures
        rename_outcome(z, index, name).0.effective_name(index) == name->0@,
        other != index ==> rename_outcome(z, index, name).0.effective_name(other)
            == z.effective_name(other),
{
    lemma_push(z.pending.renames, index, name->0@, other);
}

/// The encryption that was set last is the one that an entry is written with;
/// that of other entries is as before.
pub proof fn law_encryption_set(z: ZipView, index: u64, method: u16, other: u64)
    requires
        encryption_outcome(z, index, method).1 == 0,
    ensures
        encryption_outcome(z, index, method).0.effective_encryption(index) == method,
        other != index ==> encryption_outcome(z, index, method).0.effective_encryption(other)
            == z.effective_encryption(other),
{
    lemma_replaced(z.pending.encryptions, index, method, other);
}

/// The compression that was set last is the one that an entry is written with;
/// that of other entries is as before.
pub proof fn law_compression_set(z: ZipView, index: u64, method: i32, level: u32, other: u64)
    requires
        compression_outcome(z, index, method, level).1 == 0,
    ensures
        compression_outcome(z, index, method, level).0.effective_method(index) == (
        match requested_method(method) {
            Some(m) => Some((m, level)),
            None => None,
        }),
        other != index ==> compression_outcome(z, index, method, level).0.effective_method(other)
            == z.effective_method(other),
{
    lemma_replaced(z.pending.compressions, index, (method, level), other);
}

/// The modification time that was set last is that of an entry, whatever DOS
/// time was set; a time before 1970 counts as its start.
pub proof fn law_mtime_set(z: ZipView, index: u64, mtime: i64, other: u64)
    ensures
        ({
            let n = z.with_pending(
                PendingView {
                    mtimes: replaced(z.pending.mtimes, index, mtime),
                    ..z.pending
                },
            );
            &&& n.effective_time(index) == EntryTime::Unix(if mtime < 0 {
                0
            } else {
                mtime as u64
            })
            &&& other != index ==> n.effective_time(other) == z.effective_time(other)
        }),
{
    lemma_replaced(z.pending.mtimes, index, mtime, other);
}

/// The DOS time that was set last is that of an entry without a modification
/// time of its own.
pub proof fn law_dostime_set(z: ZipView, index: u64, time: u16, date: u16, other: u64)
    ensures
        ({
            let n = z.with_pending(
                PendingView {
                    dostimes: replaced(z.pending.dostimes, index, (time, date)),
                    ..z.pending
                },
            );
            &&& last_value(z.pending.mtimes, index) is None ==> n.effective_time(index)
                == EntryTime::Dos(time, date)
            &&& last_value(z.pending.mtimes, index) is Some ==> n.effective_time(index)
                == z.effective_time(index)
            &&& other != index ==> n.effective_time(other) == z.effective_time(other)
        }),
{
    lemma_replaced(z.pending.dostimes, index, (time, date), other);
}

/// The attributes that were set last are those that the getter stores and that
/// an entry is written with.
pub proof fn law_attributes_set(z: ZipView, index: u64, opsys: u8, attributes: u32, other: u64)
    ensures
        ({
            let n = z.with_pending(
                PendingView {
                    ext_attrs: replaced(z.pending.ext_attrs, index, (opsys, attributes)),
                    ..z.pending
                },
            );
            &&& n.effective_ext_attrs(index) == Some((opsys, attributes))
            &&& other != index ==> n.effective_ext_attrs(other) == z.effective_ext_attrs(other)
        }),
{
    lemma_replaced(z.pending.ext_attrs, index, (opsys, attributes), other);
}

/// A new extra field is what the getter gives for the next number.
pub proof fn law_field_set_is_got(z: ZipView, index: u64, id: u16, data: Seq<u8>)
    requires
        z.wf(),
        count_id(z.fields_at(index), id) <= u16::MAX,
    ensures
        ({
            let n = z.with_field_op(
                index,
                OpView::Put { id, ef_idx: ZIP_EXTRA_FIELD_NEW, data },
            );
            let count = count_id(z.fields_at(index), id);
            &&& field_data(n, index, id, count as u16) == Some(data)
            &&& count_id(n.fields_at(index), id) == count + 1
        }),
{
    let op = OpView::Put { id, ef_idx: ZIP_EXTRA_FIELD_NEW, data };
    lemma_fields_shown(z, index, op);
    law_new_field_is_found(z.fields_at(index), id, data, 0);
}

proof fn lemma_all_read(z: ZipView, k: nat)
    requires
        z.pending == no_edits(),
        k <= z.len() <= u64::MAX,
    ensures
        z.to_read(k) == Seq::new(k, |i: int| i as u64),
        kept_indices(z, k) == Seq::new(k, |i: int| i as u64),
    decreases k,
{
    if k > 0 {
        lemma_all_read(z, (k - 1) as nat);
        assert(!z.pending.deletes.contains((k - 1) as u64));
        assert(z.must_read((k - 1) as u64));
        assert(z.to_read(k) =~= Seq::new(k, |i: int| i as u64));
        assert(kept_indices(z, k) =~= Seq::new(k, |i: int| i as u64));
    } else {
        assert(z.to_read(k) =~= Seq::new(k, |i: int| i as u64));
        assert(kept_indices(z, k) =~= Seq::new(k, |i: int| i as u64));
    }
}

/// Without edits every entry is written as it is on disk.
pub proof fn law_unedited_is_written_as_is(z: ZipView, contents: Seq<Seq<u8>>)
    requires
        z.pending == no_edits(),
        z.len() <= u64::MAX,
        contents.len() == z.len(),
    ensures
        z.to_read(z.len()) == Seq::new(z.len(), |i: int| i as u64),
        z.files(contents).len() == z.len(),
        forall|i: int|
            0 <= i < z.len() ==> {
                let d = z.archive.entries[i];
                #[trigger] z.files(contents)[i] == (FileView {
                    name: d.name,
                    data: contents[i],
                    comment: z.disk_comment(i as u64),
                    extra_fields: z.disk_fields(i as u64),
                    time: EntryTime::Dos(d.last_mod_time, d.last_mod_date),
                    attributes: Some(((d.version_madeby >> 8) as u8, d.ext_attrib)),
                    method: None,
                    encryption: 0,
                })
            },
        z.planned(contents) == Ok::<PlanView, i32>(
            PlanView {
                files: z.files(contents),
                password: Seq::empty(),
                archive_comment: z.archive.comment,
            },
        ),
{
    lemma_all_read(z, z.len());
    law_kept_entries(z, contents, z.len());
    assert(z.added(0) =~= Seq::empty());
    assert(z.files(contents) =~= z.kept(contents, z.len()));
    assert forall|i: int| 0 <= i < z.len() implies {
        let d = z.archive.entries[i];
        #[trigger] z.files(contents)[i] == (FileView {
            name: d.name,
            data: contents[i],
            comment: z.disk_comment(i as u64),
            extra_fields: z.disk_fields(i as u64),
            time: EntryTime::Dos(d.last_mod_time, d.last_mod_date),
            attributes: Some(((d.version_madeby >> 8) as u8, d.ext_attrib)),
            method: None,
            encryption: 0,
        })
    } by {
        lemma_all_read(z, i as nat);
        assert(kept_indices(z, z.len())[i] == i as u64);
    }
}

/// When all edits are taken back, what is written is what would have been
/// written right behind opening.
pub proof fn law_unchanged_is_written_as_opened(z: ZipView, contents: Seq<Seq<u8>>)
    requires
        z.wf(),
        z.len() <= u64::MAX,
        contents.len() == z.len(),
    ensures
        z.unchanged_all().files(contents) == opened(
            z.archive,
            z.flags,
            z.existed,
            z.path,
        ).files(contents),
{
    let n = z.unchanged_all();
    let o = opened(z.archive, z.flags, z.existed, z.path);
    lemma_unchanged_all(z);
    law_unedited_is_written_as_is(n, contents);
    law_unedited_is_written_as_is(o, contents);
    assert(n.files(contents) =~= o.files(contents)) by {
        assert forall|i: int| 0 <= i < n.len() implies n.files(contents)[i] == o.files(
            contents,
        )[i] by {
            assert(n.disk_comment(i as u64) == o.disk_comment(i as u64));
            assert(n.disk_fields(i as u64) == o.disk_fields(i as u64));
        }
    }
}

/// Without a password nothing is written exactly if an entry is encrypted.
pub proof fn law_password_needed(z: ZipView, contents: Seq<Seq<u8>>)
    requires
        z.password is None,
    ensures
        z.planned(contents) == Err::<PlanView, i32>(ZIP_ER_NOPASSWD) <==> exists|j: int|
            0 <= j < z.files(contents).len() && (#[trigger] z.files(contents)[j]).encryption != 0,
{
}

} // verus!
