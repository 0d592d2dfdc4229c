//! How an edit shows in what is written when the archive is closed: what would have
//! been written before it, and what is written behind it.
//!
//! A law here speaks of three calls: of the edit, and of planning before and behind it.

use crate::archive::{EntryTime, Zip, ZipView};
use crate::change_laws::{
    law_added_entry, law_attributes_recorded, law_comment_set, law_compression_recorded,
    law_deleted_is_marked, law_dostime_recorded, law_encryption_recorded, law_mtime_recorded,
    law_renamed_entry, law_replaced_entry, is_taken,
};
use crate::edit::{
    zip_delete, zip_file_add, zip_file_replace, zip_file_set_encryption, zip_rename,
};
use crate::edit_laws::{kept_indices, law_kept_entries};
use crate::keyed::last_value;
use crate::metadata::{
    zip_file_set_comment, zip_file_set_dostime, zip_file_set_external_attributes,
    zip_file_set_mtime, zip_set_file_compression,
};
use crate::plan::{contents_view, CompressionMethod, FileView, WritePlan};
use crate::save_laws::{
    latest, law_latest_counts, lemma_added, lemma_added_at, lemma_contents, lemma_kept, names_kept,
    names_unedited,
};
use crate::source::{LayeredCallback, SourceCallback, ZipSource};
use vstd::prelude::*;
use vstd::utf8::valid_utf8;

verus! {

/// Whether an archive was planned, where `disk` gives the contents of its entries: the
/// contents that were handed in are those of the entries that are neither deleted nor
/// replaced, in order.
pub open spec fn planned_with(
    z: Zip,
    contents: Vec<Vec<u8>>,
    plan: WritePlan,
    disk: spec_fn(u64) -> Seq<u8>,
    wanted: Seq<u64>,
) -> bool {
    &&& z@.countable()
    &&& call_ensures(Zip::plan, (&z, &contents), Ok::<WritePlan, i32>(plan))
    &&& names_unedited(wanted, z@)
    &&& contents@.len() == wanted.len()
    &&& forall|j: int| 0 <= j < wanted.len() ==> (#[trigger] contents@[j])@ == disk(wanted[j])
}

/// The place of an entry among those that are written, where `kept` names the ones on
/// disk that are.
pub open spec fn stands_at(z: ZipView, kept: Seq<u64>, index: u64, p: int) -> bool {
    if index < z.archive.entries.len() {
        0 <= p < kept.len() && kept[p] == index
    } else {
        p == kept.len() + index - z.archive.entries.len() && p < kept.len() + z.pending.adds.len()
    }
}

spec fn file_of(z: ZipView, disk: spec_fn(u64) -> Seq<u8>, i: u64) -> FileView {
    if i < z.len() {
        z.file(
            i,
            z.effective_name(i),
            match last_value(z.pending.replaces, i) {
                Some(d) => d,
                None => disk(i),
            },
        )
    } else {
        let a = z.pending.adds[i - z.len()];
        z.file(i, a.name, a.data)
    }
}

proof fn lemma_files(
    z: Zip,
    contents: Vec<Vec<u8>>,
    plan: WritePlan,
    disk: spec_fn(u64) -> Seq<u8>,
    wanted: Seq<u64>,
    kept: Seq<u64>,
)
    requires
        planned_with(z, contents, plan, disk, wanted),
        names_kept(kept, z@),
    ensures
        plan@.files.len() == kept.len() + z@.pending.adds.len(),
        plan.files@.len() == plan@.files.len(),
        forall|p: int|
            0 <= p < kept.len() ==> #[trigger] plan@.files[p] == file_of(z@, disk, kept[p]),
        forall|k: int|
            0 <= k < z@.pending.adds.len() ==> plan@.files[kept.len() + k] == file_of(
                z@,
                disk,
                (#[trigger] (z@.len() + k)) as u64,
            ),
        forall|p: int| 0 <= p < kept.len() ==> (#[trigger] kept[p]) < z@.len(),
{
    let v = z@;
    let c = contents_view(contents@);
    lemma_kept(v, kept);
    lemma_added(v, v.pending.adds.len());
    law_kept_entries(v, c, v.len());
    let files = v.files(c);
    assert(plan@.files == files);
    assert forall|p: int| 0 <= p < kept.len() implies #[trigger] files[p] == file_of(
        v,
        disk,
        kept[p],
    ) by {
        let i = kept[p];
        assert(kept_indices(v, v.len())[p] == i);
        assert(files[p] == v.kept(c, v.len())[p]);
        if last_value(v.pending.replaces, i) is None {
            let j = lemma_contents(v, wanted, c, i);
            assert(contents@[j]@ == disk(wanted[j]));
        }
    }
    assert forall|k: int| 0 <= k < v.pending.adds.len() implies files[kept.len() + k] == file_of(
        v,
        disk,
        (#[trigger] (v.len() + k)) as u64,
    ) by {
        lemma_added_at(v, k);
        assert(files[kept.len() + k] == v.added(v.pending.adds.len())[k]);
    }
}

/// An entry that was deleted is not written, and all others are written as they would
/// have been.
pub proof fn law_deleted_entry_is_left_out(
    before: Zip,
    after: Zip,
    index: u64,
    disk: spec_fn(u64) -> Seq<u8>,
    c: (Vec<Vec<u8>>, Vec<Vec<u8>>),
    w: (Seq<u64>, Seq<u64>),
    plan: (WritePlan, WritePlan),
    kept: Seq<u64>,
    p: int,
)
    requires
        exists|z: &mut Zip| #[trigger]
            call_ensures(zip_delete, (Some(z), index), 0) && *z == before && *final(z) == after,
        planned_with(before, c.0, plan.0, disk, w.0),
        planned_with(after, c.1, plan.1, disk, w.1),
        names_kept(kept, before@),
        0 <= p < kept.len(),
        kept[p] == index,
    ensures
        plan.1@.files == plan.0@.files.take(p) + plan.0@.files.skip(p + 1),
{
    law_deleted_is_marked(before@, after@, index, 0);
    let rest = kept.take(p) + kept.skip(p + 1);
    assert forall|i: u64| #[trigger]
        rest.contains(i) <==> i < after@.archive.entries.len()
            && !after@.pending.deletes.contains(i) by {
        assert(kept.contains(i) <==> i < before@.archive.entries.len()
            && !before@.pending.deletes.contains(i));
        if rest.contains(i) {
            let j = choose|j: int| 0 <= j < rest.len() && rest[j] == i;
            let l = if j < p { j } else { j + 1 };
            assert(kept[l] == i);
            assert(kept.contains(i));
            if l < p {
                assert(kept[l] < kept[p]);
            } else {
                assert(kept[p] < kept[l]);
            }
        }
        if kept.contains(i) && i != index {
            let l = choose|l: int| 0 <= l < kept.len() && kept[l] == i;
            let j = if l < p { l } else { l - 1 };
            assert(rest[j] == i);
        }
    }
    assert(names_kept(rest, after@));
    lemma_files(before, c.0, plan.0, disk, w.0, kept);
    lemma_files(after, c.1, plan.1, disk, w.1, rest);
    let x = plan.0@.files;
    let y = plan.1@.files;
    let cut = x.take(p) + x.skip(p + 1);
    assert forall|q: int| 0 <= q < cut.len() implies y[q] == cut[q] by {
        let l = if q < p { q } else { q + 1 };
        assert(cut[q] == x[l]);
        if q < rest.len() {
            assert(rest[q] == kept[l]);
            assert(kept[l] < before@.len());
            assert(file_of(after@, disk, rest[q]) == file_of(before@, disk, kept[l]));
        } else {
            let k = q - rest.len();
            let i = (before@.len() + k) as u64;
            assert(before@.len() + k == after@.len() + k);
            assert(file_of(after@, disk, i) == file_of(before@, disk, i));
        }
    }
    assert(y =~= cut);
}

proof fn lemma_others(
    before: Zip,
    after: Zip,
    index: u64,
    disk: spec_fn(u64) -> Seq<u8>,
    c: (Vec<Vec<u8>>, Vec<Vec<u8>>),
    w: (Seq<u64>, Seq<u64>),
    plan: (WritePlan, WritePlan),
    kept: Seq<u64>,
    p: int,
)
    requires
        planned_with(before, c.0, plan.0, disk, w.0),
        planned_with(after, c.1, plan.1, disk, w.1),
        names_kept(kept, before@),
        stands_at(before@, kept, index, p),
        after@.archive == before@.archive,
        after@.pending.deletes == before@.pending.deletes,
        after@.pending.adds == before@.pending.adds,
        forall|i: u64|
            i != index ==> #[trigger] file_of(after@, disk, i) == file_of(before@, disk, i),
    ensures
        0 <= p < plan.0@.files.len(),
        plan.0@.files[p] == file_of(before@, disk, index),
        plan.1@.files[p] == file_of(after@, disk, index),
        plan.1@.files == plan.0@.files.update(p, plan.1@.files[p]),
{
    assert(names_kept(kept, after@));
    lemma_files(before, c.0, plan.0, disk, w.0, kept);
    lemma_files(after, c.1, plan.1, disk, w.1, kept);
    let x = plan.0@.files;
    let y = plan.1@.files;
    let n = kept.len() as int;
    if index >= before@.len() {
        let k = index - before@.len();
        assert((before@.len() + k) as u64 == index);
        assert((after@.len() + k) as u64 == index);
    }
    assert forall|q: int| 0 <= q < x.len() && q != p implies y[q] == x[q] by {
        if q < n {
            let i = kept[q];
            assert(i < before@.len());
            if index < before@.len() {
                if q < p {
                    assert(kept[q] < kept[p]);
                } else {
                    assert(kept[p] < kept[q]);
                }
            }
            assert(file_of(after@, disk, i) == file_of(before@, disk, i));
        } else {
            let k = q - n;
            let i = (before@.len() + k) as u64;
            assert(before@.len() + k == after@.len() + k);
            assert(file_of(after@, disk, i) == file_of(before@, disk, i));
        }
    }
    assert(y =~= x.update(p, y[p]));
}

/// An entry that was renamed is written under its new name, and else as it would have
/// been, and so are all others.
pub proof fn law_renamed_entry_is_written(
    before: Zip,
    after: Zip,
    index: u64,
    name: &[u8],
    disk: spec_fn(u64) -> Seq<u8>,
    c: (Vec<Vec<u8>>, Vec<Vec<u8>>),
    w: (Seq<u64>, Seq<u64>),
    plan: (WritePlan, WritePlan),
    kept: Seq<u64>,
    p: int,
)
    requires
        exists|z: &mut Zip| #[trigger]
            call_ensures(zip_rename, (Some(z), index, Some(name)), 0) && *z == before
                && *final(z) == after,
        planned_with(before, c.0, plan.0, disk, w.0),
        planned_with(after, c.1, plan.1, disk, w.1),
        names_kept(kept, before@),
        0 <= p < kept.len(),
        kept[p] == index,
    ensures
        plan.1@.files == plan.0@.files.update(
            p,
            FileView { name: name@, ..plan.0@.files[p] },
        ),
{
    law_renamed_entry(before@, after@, index, Some(name), 0);
    assert forall|i: u64| i != index implies #[trigger] file_of(after@, disk, i) == file_of(
        before@,
        disk,
        i,
    ) by {
        law_latest_counts(before@.pending.renames, i);
        law_latest_counts(after@.pending.renames, i);
        assert(latest(before@.pending.renames, i, last_value(before@.pending.renames, i)));
        assert(latest(after@.pending.renames, i, last_value(before@.pending.renames, i)));
    }
    lemma_others(before, after, index, disk, c, w, plan, kept, p);
    law_latest_counts(before@.pending.renames, index);
    law_latest_counts(after@.pending.renames, index);
    assert(latest(after@.pending.renames, index, Some(name@)));
    assert(plan.1@.files[p] == (FileView { name: name@, ..plan.0@.files[p] }));
}

/// An entry that was replaced is written with its new contents, and else as it would
/// have been, and so are all others.
pub proof fn law_replaced_entry_is_written<F: SourceCallback, L: LayeredCallback<F>>(
    before: Zip,
    after: Zip,
    index: u64,
    source: ZipSource<F, L>,
    flags: u32,
    disk: spec_fn(u64) -> Seq<u8>,
    c: (Vec<Vec<u8>>, Vec<Vec<u8>>),
    w: (Seq<u64>, Seq<u64>),
    plan: (WritePlan, WritePlan),
    kept: Seq<u64>,
    p: int,
)
    requires
        source.backend is Memory,
        exists|z: &mut Zip, s: &mut ZipSource<F, L>| #[trigger]
            call_ensures(zip_file_replace::<F, L>, (Some(z), index, Some(s), flags), 0)
                && *z == before && *final(z) == after && *s == source,
        planned_with(before, c.0, plan.0, disk, w.0),
        planned_with(after, c.1, plan.1, disk, w.1),
        names_kept(kept, before@),
        0 <= p < kept.len(),
        kept[p] == index,
    ensures
        plan.1@.files == plan.0@.files.update(
            p,
            FileView { data: source.backend->Memory_0.data@, ..plan.0@.files[p] },
        ),
{
    law_replaced_entry(before@, after@, index, source, flags, 0);
    assert forall|i: u64| i != index implies #[trigger] file_of(after@, disk, i) == file_of(
        before@,
        disk,
        i,
    ) by {
        law_latest_counts(before@.pending.replaces, i);
        law_latest_counts(after@.pending.replaces, i);
        assert(latest(before@.pending.replaces, i, last_value(before@.pending.replaces, i)));
        assert(latest(after@.pending.replaces, i, last_value(before@.pending.replaces, i)));
    }
    lemma_others(before, after, index, disk, c, w, plan, kept, p);
    law_latest_counts(before@.pending.replaces, index);
    law_latest_counts(after@.pending.replaces, index);
    assert(latest(after@.pending.replaces, index, Some(source.backend->Memory_0.data@)));
    assert(plan.1@.files[p]
        == (FileView { data: source.backend->Memory_0.data@, ..plan.0@.files[p] }));
}

/// An entry is written with the encryption that was set last, and else as it would have
/// been, and so are all others.
pub proof fn law_encrypted_entry_is_written(
    before: Zip,
    after: Zip,
    index: u64,
    method: u16,
    disk: spec_fn(u64) -> Seq<u8>,
    c: (Vec<Vec<u8>>, Vec<Vec<u8>>),
    w: (Seq<u64>, Seq<u64>),
    plan: (WritePlan, WritePlan),
    kept: Seq<u64>,
    p: int,
)
    requires
        exists|z: &mut Zip| #[trigger]
            call_ensures(zip_file_set_encryption, (Some(z), index, method), 0) && *z == before
                && *final(z) == after,
        planned_with(before, c.0, plan.0, disk, w.0),
        planned_with(after, c.1, plan.1, disk, w.1),
        names_kept(kept, before@),
        stands_at(before@, kept, index, p),
    ensures
        plan.1@.files == plan.0@.files.update(
            p,
            FileView { encryption: method, ..plan.0@.files[p] },
        ),
{
    law_encryption_recorded(before@, after@, index, method, 0);
    assert forall|i: u64| i != index implies #[trigger] file_of(after@, disk, i) == file_of(
        before@,
        disk,
        i,
    ) by {
        law_latest_counts(before@.pending.encryptions, i);
        law_latest_counts(after@.pending.encryptions, i);
        assert(latest(before@.pending.encryptions, i, last_value(before@.pending.encryptions, i)));
        assert(latest(after@.pending.encryptions, i, last_value(before@.pending.encryptions, i)));
    }
    lemma_others(before, after, index, disk, c, w, plan, kept, p);
    law_latest_counts(before@.pending.encryptions, index);
    law_latest_counts(after@.pending.encryptions, index);
    assert(latest(after@.pending.encryptions, index, Some(method)));
    assert(plan.1@.files[p] == (FileView { encryption: method, ..plan.0@.files[p] }));
}

/// An entry is written with the compression that was set last, and else as it would have
/// been, and so are all others.
pub proof fn law_compressed_entry_is_written(
    before: Zip,
    after: Zip,
    index: u64,
    method: i32,
    level: u32,
    disk: spec_fn(u64) -> Seq<u8>,
    c: (Vec<Vec<u8>>, Vec<Vec<u8>>),
    w: (Seq<u64>, Seq<u64>),
    plan: (WritePlan, WritePlan),
    kept: Seq<u64>,
    p: int,
)
    requires
        exists|z: &mut Zip| #[trigger]
            call_ensures(zip_set_file_compression, (Some(z), index, method, level), 0)
                && *z == before && *final(z) == after,
        planned_with(before, c.0, plan.0, disk, w.0),
        planned_with(after, c.1, plan.1, disk, w.1),
        names_kept(kept, before@),
        stands_at(before@, kept, index, p),
    ensures
        plan.1@.files == plan.0@.files.update(
            p,
            FileView { method: if method == 0 {
                    Some((CompressionMethod::Store, level))
                } else if method == 8 {
                    Some((CompressionMethod::Deflate, level))
                } else {
                    None
                }, ..plan.0@.files[p] },
        ),
{
    law_compression_recorded(before@, after@, index, method, level, 0);
    assert forall|i: u64| i != index implies #[trigger] file_of(after@, disk, i) == file_of(
        before@,
        disk,
        i,
    ) by {
        law_latest_counts(before@.pending.compressions, i);
        law_latest_counts(after@.pending.compressions, i);
        assert(latest(before@.pending.compressions, i, last_value(before@.pending.compressions,
            i)));
        assert(latest(after@.pending.compressions, i, last_value(before@.pending.compressions, i)));
    }
    lemma_others(before, after, index, disk, c, w, plan, kept, p);
    law_latest_counts(before@.pending.compressions, index);
    law_latest_counts(after@.pending.compressions, index);
    assert(latest(after@.pending.compressions, index, Some((method, level))));
    assert(plan.1@.files[p] == (FileView { method: if method == 0 {
                    Some((CompressionMethod::Store, level))
                } else if method == 8 {
                    Some((CompressionMethod::Deflate, level))
                } else {
                    None
                }, ..plan.0@.files[p] }));
}

/// An entry is written with the modification time that was set last, 1970 at the
/// earliest, and else as it would have been, and so are all others.
pub proof fn law_timed_entry_is_written(
    before: Zip,
    after: Zip,
    index: u64,
    mtime: i64,
    flags: u32,
    disk: spec_fn(u64) -> Seq<u8>,
    c: (Vec<Vec<u8>>, Vec<Vec<u8>>),
    w: (Seq<u64>, Seq<u64>),
    plan: (WritePlan, WritePlan),
    kept: Seq<u64>,
    p: int,
)
    requires
        exists|z: &mut Zip| #[trigger]
            call_ensures(zip_file_set_mtime, (Some(z), index, mtime, flags), 0) && *z == before
                && *final(z) == after,
        planned_with(before, c.0, plan.0, disk, w.0),
        planned_with(after, c.1, plan.1, disk, w.1),
        names_kept(kept, before@),
        stands_at(before@, kept, index, p),
    ensures
        plan.1@.files == plan.0@.files.update(
            p,
            FileView { time: EntryTime::Unix(if mtime < 0 { 0 } else { mtime as u64 }),
                ..plan.0@.files[p] },
        ),
{
    law_mtime_recorded(before@, after@, index, mtime, flags, 0);
    assert forall|i: u64| i != index implies #[trigger] file_of(after@, disk, i) == file_of(
        before@,
        disk,
        i,
    ) by {
        law_latest_counts(before@.pending.mtimes, i);
        law_latest_counts(after@.pending.mtimes, i);
        assert(latest(before@.pending.mtimes, i, last_value(before@.pending.mtimes, i)));
        assert(latest(after@.pending.mtimes, i, last_value(before@.pending.mtimes, i)));
    }
    lemma_others(before, after, index, disk, c, w, plan, kept, p);
    law_latest_counts(before@.pending.mtimes, index);
    law_latest_counts(after@.pending.mtimes, index);
    assert(latest(after@.pending.mtimes, index, Some(mtime)));
    assert(plan.1@.files[p]
        == (FileView { time: EntryTime::Unix(if mtime < 0 { 0 } else { mtime as u64 }),
            ..plan.0@.files[p] }));
}

/// An entry without a modification time of its own is written with the DOS time that was
/// set last, and else as it would have been, and so are all others.
pub proof fn law_dos_timed_entry_is_written(
    before: Zip,
    after: Zip,
    index: u64,
    dtime: u16,
    ddate: u16,
    flags: u32,
    disk: spec_fn(u64) -> Seq<u8>,
    c: (Vec<Vec<u8>>, Vec<Vec<u8>>),
    w: (Seq<u64>, Seq<u64>),
    plan: (WritePlan, WritePlan),
    kept: Seq<u64>,
    p: int,
)
    requires
        latest(before@.pending.mtimes, index, None),
        exists|z: &mut Zip| #[trigger]
            call_ensures(zip_file_set_dostime, (Some(z), index, dtime, ddate, flags), 0)
                && *z == before && *final(z) == after,
        planned_with(before, c.0, plan.0, disk, w.0),
        planned_with(after, c.1, plan.1, disk, w.1),
        names_kept(kept, before@),
        stands_at(before@, kept, index, p),
    ensures
        plan.1@.files == plan.0@.files.update(
            p,
            FileView { time: EntryTime::Dos(dtime, ddate), ..plan.0@.files[p] },
        ),
{
    law_dostime_recorded(before@, after@, index, dtime, ddate, flags, 0);
    assert forall|i: u64| i != index implies #[trigger] file_of(after@, disk, i) == file_of(
        before@,
        disk,
        i,
    ) by {
        law_latest_counts(before@.pending.dostimes, i);
        law_latest_counts(after@.pending.dostimes, i);
        law_latest_counts(before@.pending.mtimes, i);
        law_latest_counts(after@.pending.mtimes, i);
        assert(latest(before@.pending.dostimes, i, last_value(before@.pending.dostimes, i)));
        assert(latest(after@.pending.dostimes, i, last_value(before@.pending.dostimes, i)));
    }
    lemma_others(before, after, index, disk, c, w, plan, kept, p);
    law_latest_counts(before@.pending.dostimes, index);
    law_latest_counts(after@.pending.dostimes, index);
    law_latest_counts(before@.pending.mtimes, index);
    law_latest_counts(after@.pending.mtimes, index);
    assert(latest(after@.pending.dostimes, index, Some((dtime, ddate))));
    assert(plan.1@.files[p]
        == (FileView { time: EntryTime::Dos(dtime, ddate), ..plan.0@.files[p] }));
}

/// An entry is written with the attributes that were set last, and else as it would have
/// been, and so are all others.
pub proof fn law_attributed_entry_is_written(
    before: Zip,
    after: Zip,
    index: u64,
    flags: u32,
    opsys: u8,
    attributes: u32,
    disk: spec_fn(u64) -> Seq<u8>,
    c: (Vec<Vec<u8>>, Vec<Vec<u8>>),
    w: (Seq<u64>, Seq<u64>),
    plan: (WritePlan, WritePlan),
    kept: Seq<u64>,
    p: int,
)
    requires
        exists|z: &mut Zip| #[trigger]
            call_ensures(
                zip_file_set_external_attributes,
                (Some(z), index, flags, opsys, attributes),
                0,
            ) && *z == before && *final(z) == after,
        planned_with(before, c.0, plan.0, disk, w.0),
        planned_with(after, c.1, plan.1, disk, w.1),
        names_kept(kept, before@),
        stands_at(before@, kept, index, p),
    ensures
        plan.1@.files == plan.0@.files.update(
            p,
            FileView { attributes: Some((opsys, attributes)), ..plan.0@.files[p] },
        ),
{
    law_attributes_recorded(before@, after@, index, flags, opsys, attributes, 0);
    assert forall|i: u64| i != index implies #[trigger] file_of(after@, disk, i) == file_of(
        before@,
        disk,
        i,
    ) by {
        law_latest_counts(before@.pending.ext_attrs, i);
        law_latest_counts(after@.pending.ext_attrs, i);
        assert(latest(before@.pending.ext_attrs, i, last_value(before@.pending.ext_attrs, i)));
        assert(latest(after@.pending.ext_attrs, i, last_value(before@.pending.ext_attrs, i)));
    }
    lemma_others(before, after, index, disk, c, w, plan, kept, p);
    law_latest_counts(before@.pending.ext_attrs, index);
    law_latest_counts(after@.pending.ext_attrs, index);
    assert(latest(after@.pending.ext_attrs, index, Some((opsys, attributes))));
    assert(plan.1@.files[p]
        == (FileView { attributes: Some((opsys, attributes)), ..plan.0@.files[p] }));
}

/// An entry is written with the comment that was set last, or without one, and else as it
/// would have been, and so are all others.
pub proof fn law_commented_entry_is_written(
    before: Zip,
    after: Zip,
    index: u64,
    comment: &[u8],
    len: u16,
    flags: u32,
    disk: spec_fn(u64) -> Seq<u8>,
    c: (Vec<Vec<u8>>, Vec<Vec<u8>>),
    w: (Seq<u64>, Seq<u64>),
    plan: (WritePlan, WritePlan),
    kept: Seq<u64>,
    p: int,
)
    requires
        before@.wf(),
        len <= comment@.len(),
        exists|z: &mut Zip| #[trigger]
            call_ensures(zip_file_set_comment, (Some(z), index, Some(comment), len, flags), 0)
                && *z == before && *final(z) == after,
        planned_with(before, c.0, plan.0, disk, w.0),
        planned_with(after, c.1, plan.1, disk, w.1),
        names_kept(kept, before@),
        stands_at(before@, kept, index, p),
    ensures
        plan.1@.files == plan.0@.files.update(
            p,
            FileView { comment: if len
                == 0 { None } else { Some(comment@.take(len as int)) }, ..plan.0@.files[p] },
        ),
{
    law_comment_set(before@, after@, index, Some(comment), len, flags, 0);
    assert forall|i: u64| i != index implies #[trigger] file_of(after@, disk, i) == file_of(
        before@,
        disk,
        i,
    ) by {
        law_latest_counts(before@.pending.file_comments, i);
        law_latest_counts(after@.pending.file_comments, i);
        assert(latest(before@.pending.file_comments, i, last_value(before@.pending.file_comments,
            i)));
        assert(latest(after@.pending.file_comments, i, last_value(before@.pending.file_comments,
            i)));
    }
    lemma_others(before, after, index, disk, c, w, plan, kept, p);
    law_latest_counts(before@.pending.file_comments, index);
    law_latest_counts(after@.pending.file_comments, index);
    assert(latest(after@.pending.file_comments, index, Some(if len
        == 0 { None } else { Some(comment@.take(len as int)) })));
    assert(plan.1@.files[p] == (FileView { comment: if len
        == 0 { None } else { Some(comment@.take(len as int)) }, ..plan.0@.files[p] }));
}

/// An entry that was added is written behind all others, under its name and with its
/// contents; the others are written as they would have been.
pub proof fn law_added_entry_is_written<F: SourceCallback, L: LayeredCallback<F>>(
    before: Zip,
    after: Zip,
    name: &[u8],
    source: ZipSource<F, L>,
    flags: u32,
    r: i64,
    disk: spec_fn(u64) -> Seq<u8>,
    c: (Vec<Vec<u8>>, Vec<Vec<u8>>),
    w: (Seq<u64>, Seq<u64>),
    plan: (WritePlan, WritePlan),
    kept: Seq<u64>,
)
    requires
        source.backend is Memory,
        source.backend->Memory_0.data@.len() <= isize::MAX,
        before@.flags & 16 == 0,
        valid_utf8(name@),
        !is_taken(before@, name@),
        exists|z: &mut Zip, s: &mut ZipSource<F, L>| #[trigger]
            call_ensures(zip_file_add::<F, L>, (Some(z), Some(name), Some(s), flags), r) && *z
                == before && *final(z) == after && *s == source,
        planned_with(before, c.0, plan.0, disk, w.0),
        planned_with(after, c.1, plan.1, disk, w.1),
        names_kept(kept, before@),
    ensures
        plan.1@.files.len() == plan.0@.files.len() + 1,
        plan.1@.files.drop_last() == plan.0@.files,
        plan.1@.files.last().name == name@,
        plan.1@.files.last().data == source.backend->Memory_0.data@,
{
    law_added_entry(before@, after@, Some(name), source, flags, r);
    assert(names_kept(kept, after@));
    lemma_files(before, c.0, plan.0, disk, w.0, kept);
    lemma_files(after, c.1, plan.1, disk, w.1, kept);
    let x = plan.0@.files;
    let y = plan.1@.files;
    let n = kept.len() as int;
    assert forall|q: int| 0 <= q < x.len() implies y[q] == x[q] by {
        if q < n {
            let i = kept[q];
            assert(i < before@.len());
            assert(file_of(after@, disk, i) == file_of(before@, disk, i));
        } else {
            let k = q - n;
            let i = (before@.len() + k) as u64;
            assert(before@.len() + k == after@.len() + k);
            assert(file_of(after@, disk, i) == file_of(before@, disk, i));
        }
    }
    assert(y.drop_last() =~= x);
    let k = before@.pending.adds.len() as int;
    assert((after@.len() + k) as u64 == after@.len() + k);
}

} // verus!
