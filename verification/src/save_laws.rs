//! What closing an archive writes, told from what was on disk and from the edits
//! that wait: which entries, in which order, and with what.
//!
//! A law here speaks of a call: of what was handed in, and of what came back.

use crate::archive::{EntryTime, Zip, ZipView};
use crate::edit_laws::{kept_indices, law_kept_entries};
use crate::extra::{apply_ops, FieldView, OpView};
use crate::field_laws::{law_field_change, law_user_fields, not_managed, op_applied};
use crate::keyed::last_value;
use crate::pending::{no_edits, PendingView};
use crate::plan::{
    close_encoded, close_stored, contents_read, contents_view, materialize, materialized,
    zip_close, CloseStep, CompressionMethod, FileView, PlanView, StoreStep, WritePlan,
};
use vstd::prelude::*;
use vstd::utf8::valid_utf8;

verus! {

/// Whether `value` was recorded for an index, and nothing was behind it; or
/// there is no value, and nothing was recorded.
pub open spec fn latest<T>(s: Seq<(u64, T)>, index: u64, value: Option<T>) -> bool {
    match value {
        Some(v) => exists|k: int|
            {
                &&& 0 <= k < s.len()
                &&& #[trigger] s[k] == (index, v)
                &&& forall|j: int| k < j < s.len() ==> (#[trigger] s[j]).0 != index
            },
        None => forall|k: int| 0 <= k < s.len() ==> (#[trigger] s[k]).0 != index,
    }
}

/// Of the values that were recorded for an index the latest counts.
pub proof fn law_latest_counts<T>(s: Seq<(u64, T)>, index: u64)
    ensures
        latest(s, index, last_value(s, index)),
        forall|v: Option<T>| #[trigger] latest(s, index, v) ==> v == last_value(s, index),
    decreases s.len(),
{
    if s.len() > 0 {
        let shorter = s.drop_last();
        law_latest_counts(shorter, index);
        if s.last().0 == index {
            assert(s[s.len() - 1] == (index, s.last().1));
        } else {
            let v = last_value(shorter, index);
            if let Some(x) = v {
                let k = choose|k: int|
                    {
                        &&& 0 <= k < shorter.len()
                        &&& #[trigger] shorter[k] == (index, x)
                        &&& forall|j: int|
                            k < j < shorter.len() ==> (#[trigger] shorter[j]).0 != index
                    };
                assert(s[k] == (index, x));
                assert forall|j: int| k < j < s.len() implies (#[trigger] s[j]).0 != index by {
                    if j < shorter.len() {
                        assert(shorter[j].0 != index);
                    }
                }
            } else {
                assert forall|k: int| 0 <= k < s.len() implies (#[trigger] s[k]).0 != index by {
                    if k < shorter.len() {
                        assert(shorter[k].0 != index);
                    }
                }
            }
        }
    }
    assert forall|v: Option<T>| #[trigger] latest(s, index, v) implies v == last_value(
        s,
        index,
    ) by {
        let l = last_value(s, index);
        match (v, l) {
            (Some(x), Some(y)) => {
                let a = choose|k: int|
                    {
                        &&& 0 <= k < s.len()
                        &&& #[trigger] s[k] == (index, x)
                        &&& forall|j: int| k < j < s.len() ==> (#[trigger] s[j]).0 != index
                    };
                let b = choose|k: int|
                    {
                        &&& 0 <= k < s.len()
                        &&& #[trigger] s[k] == (index, y)
                        &&& forall|j: int| k < j < s.len() ==> (#[trigger] s[j]).0 != index
                    };
                assert(s[a].0 == index && s[b].0 == index);
                assert(a == b);
            },
            _ => {},
        }
    }
}

/// Whether a list names the entries on disk that are not deleted, in order.
pub open spec fn names_kept(kept: Seq<u64>, z: ZipView) -> bool {
    &&& forall|j: int, l: int|
        0 <= j < l < kept.len() ==> #[trigger] kept[j] < #[trigger] kept[l]
    &&& forall|i: u64| #[trigger]
        kept.contains(i) <==> i < z.archive.entries.len() && !z.pending.deletes.contains(i)
}

/// Whether a list names the entries on disk that are neither deleted nor
/// replaced, in order.
pub open spec fn names_unedited(wanted: Seq<u64>, z: ZipView) -> bool {
    &&& forall|j: int, l: int|
        0 <= j < l < wanted.len() ==> #[trigger] wanted[j] < #[trigger] wanted[l]
    &&& forall|i: u64| #[trigger]
        wanted.contains(i) <==> i < z.archive.entries.len() && !z.pending.deletes.contains(i)
            && latest(z.pending.replaces, i, None)
}

proof fn lemma_increasing_equal(a: Seq<u64>, b: Seq<u64>)
    requires
        forall|j: int, l: int| 0 <= j < l < a.len() ==> #[trigger] a[j] < #[trigger] a[l],
        forall|j: int, l: int| 0 <= j < l < b.len() ==> #[trigger] b[j] < #[trigger] b[l],
        forall|i: u64| #[trigger] a.contains(i) <==> b.contains(i),
    ensures
        a == b,
    decreases a.len(),
{
    if a.len() == 0 {
        if b.len() > 0 {
            assert(b.contains(b[0]));
            assert(a.contains(b[0]));
        }
        assert(a =~= b);
    } else {
        assert(a.contains(a.last()));
        assert(b.contains(a.last()));
        assert(b.contains(b.last()));
        assert(a.contains(b.last()));
        let p = choose|p: int| 0 <= p < b.len() && b[p] == a.last();
        let q = choose|q: int| 0 <= q < a.len() && a[q] == b.last();
        assert(a.last() == b.last()) by {
            if p < b.len() - 1 {
                assert(b[p] < b[b.len() - 1]);
            }
            if q < a.len() - 1 {
                assert(a[q] < a[a.len() - 1]);
            }
        }
        let x = a.drop_last();
        let y = b.drop_last();
        assert forall|i: u64| #[trigger] x.contains(i) <==> y.contains(i) by {
            if x.contains(i) {
                let k = choose|k: int| 0 <= k < x.len() && x[k] == i;
                assert(a[k] == i && a[k] < a[a.len() - 1]);
                assert(a.contains(i));
                assert(b.contains(i));
                let l = choose|l: int| 0 <= l < b.len() && b[l] == i;
                assert(y[l] == i);
            }
            if y.contains(i) {
                let k = choose|k: int| 0 <= k < y.len() && y[k] == i;
                assert(b[k] == i && b[k] < b[b.len() - 1]);
                assert(b.contains(i));
                assert(a.contains(i));
                let l = choose|l: int| 0 <= l < a.len() && a[l] == i;
                assert(x[l] == i);
            }
        }
        lemma_increasing_equal(x, y);
        assert(a =~= x.push(a.last()));
        assert(b =~= y.push(b.last()));
    }
}

/// A list that names the entries that are kept is the one of their indices.
pub proof fn lemma_kept(z: ZipView, kept: Seq<u64>)
    requires
        z.len() <= u64::MAX,
        names_kept(kept, z),
    ensures
        kept == kept_indices(z, z.len()),
{
    let other = kept_indices(z, z.len());
    law_kept_entries(z, Seq::empty(), z.len());
    assert forall|i: u64| #[trigger] kept.contains(i) <==> other.contains(i) by {
        if other.contains(i) {
            let j = choose|j: int| 0 <= j < other.len() && other[j] == i;
            assert(other[j] < z.len());
        }
    }
    lemma_increasing_equal(kept, other);
}

proof fn lemma_to_read(z: ZipView, k: nat)
    requires
        k <= z.len() <= u64::MAX,
    ensures
        forall|j: int, l: int|
            0 <= j < l < z.to_read(k).len() ==> #[trigger] z.to_read(k)[j] < #[trigger] z.to_read(
                k,
            )[l],
        forall|i: u64| #[trigger]
            z.to_read(k).contains(i) <==> i < k && !z.pending.deletes.contains(i) && latest(
                z.pending.replaces,
                i,
                None,
            ),
        forall|i: u64|
            i < k && !z.pending.deletes.contains(i) && latest(z.pending.replaces, i, None)
                ==> z.to_read(k)[#[trigger] z.to_read(i as nat).len() as int] == i,
    decreases k,
{
    if k > 0 {
        let before = z.to_read((k - 1) as nat);
        let last = (k - 1) as u64;
        lemma_to_read(z, (k - 1) as nat);
        law_latest_counts(z.pending.replaces, last);
        assert(z.must_read(last) <==> !z.pending.deletes.contains(last) && latest(
            z.pending.replaces,
            last,
            None,
        ));
        let all = z.to_read(k);
        assert forall|j: int, l: int| 0 <= j < l < all.len() implies #[trigger] all[j]
            < #[trigger] all[l] by {
            assert(before.contains(before[j]));
            if l < before.len() {
                assert(before[j] < before[l]);
            }
        }
        assert forall|i: u64| #[trigger]
            all.contains(i) <==> i < k && !z.pending.deletes.contains(i) && latest(
                z.pending.replaces,
                i,
                None,
            ) by {
            if all.contains(i) {
                let j = choose|j: int| 0 <= j < all.len() && all[j] == i;
                if j < before.len() {
                    assert(before[j] == i);
                    assert(before.contains(i));
                }
            }
            if i < k && !z.pending.deletes.contains(i) && latest(z.pending.replaces, i, None) {
                if i < last {
                    assert(before.contains(i));
                    let j = choose|j: int| 0 <= j < before.len() && before[j] == i;
                    assert(all[j] == i);
                } else {
                    assert(all[before.len() as int] == i);
                }
            }
        }
        assert forall|i: u64|
            i < k && !z.pending.deletes.contains(i) && latest(
                z.pending.replaces,
                i,
                None,
            ) implies all[#[trigger] z.to_read(i as nat).len() as int] == i by {
            if i < last {
                law_latest_counts(z.pending.replaces, i);
                lemma_count_before(z, i, (k - 1) as nat);
                assert(before[z.to_read(i as nat).len() as int] == i);
            }
        }
    }
}

proof fn lemma_count_before(z: ZipView, i: u64, k: nat)
    requires
        i < k <= u64::MAX,
        z.must_read(i),
    ensures
        z.to_read(i as nat).len() < z.to_read(k).len(),
    decreases k - i,
{
    if k > i + 1 {
        lemma_count_before(z, i, (k - 1) as nat);
    }
}

proof fn lemma_wanted(z: ZipView, wanted: Seq<u64>)
    requires
        z.len() <= u64::MAX,
        names_unedited(wanted, z),
    ensures
        wanted == z.to_read(z.len()),
{
    lemma_to_read(z, z.len());
    lemma_increasing_equal(wanted, z.to_read(z.len()));
}

/// The entries that are read are those that are neither deleted nor replaced,
/// in order.
pub proof fn law_unedited_entries_are_read(z: Zip, r: Vec<u64>)
    requires
        z@.len() <= u64::MAX,
        call_ensures(Zip::entries_to_read, (&z,), r),
    ensures
        names_unedited(r@, z@),
{
    lemma_to_read(z@, z@.len());
}

/// Whether fields have come through these states: each change that was recorded
/// for the entry makes the next, and the others make none.
pub open spec fn changed_in_turn(
    states: Seq<Seq<FieldView>>,
    ops: Seq<(u64, OpView)>,
    i: u64,
) -> bool {
    &&& states.len() == ops.len() + 1
    &&& forall|j: int|
        0 <= j < ops.len() ==> if ops[j].0 == i {
            op_applied(#[trigger] states[j], ops[j].1, states[j + 1])
        } else {
            states[j + 1] == states[j]
        }
}

/// Whether extra fields are those on disk that are the user's, with the changes
/// that were recorded for the entry made one behind the other.
pub open spec fn fields_as_edited(written: Seq<FieldView>, z: ZipView, i: u64) -> bool {
    exists|states: Seq<Seq<FieldView>>|
        {
            &&& #[trigger] changed_in_turn(states, z.pending.extra_field_ops, i)
            &&& states[0] == (if i < z.archive.entries.len() {
                z.archive.entries[i as int].extra_fields.filter(not_managed())
            } else {
                Seq::empty()
            })
            &&& states.last() == written
        }
}

/// Whether an entry is written with the values that were recorded for it last,
/// and where there are none with those on disk.
pub open spec fn written_as_edited(f: FileView, z: ZipView, i: u64) -> bool {
    let p = z.pending;
    let on_disk = i < z.archive.entries.len();
    let d = z.archive.entries[i as int];
    &&& exists|c: Option<Option<Seq<u8>>>| #[trigger]
        latest(p.file_comments, i, c) && f.comment == (match c {
            Some(comment) => comment,
            None => if on_disk && d.comment.len() > 0 {
                Some(d.comment)
            } else {
                None
            },
        })
    &&& exists|t: Option<i64>, dos: Option<(u16, u16)>|
        {
            &&& #[trigger] latest(p.mtimes, i, t)
            &&& #[trigger] latest(p.dostimes, i, dos)
            &&& f.time == (match (t, dos) {
                (Some(s), _) => EntryTime::Unix(if s < 0 { 0 } else { s as u64 }),
                (None, Some(x)) => EntryTime::Dos(x.0, x.1),
                (None, None) => if on_disk {
                    EntryTime::Dos(d.last_mod_time, d.last_mod_date)
                } else {
                    EntryTime::Dos(0, 0)
                },
            })
        }
    &&& exists|a: Option<(u8, u32)>| #[trigger]
        latest(p.ext_attrs, i, a) && f.attributes == (match a {
            Some(x) => Some(x),
            None => if on_disk {
                Some(((d.version_madeby >> 8) as u8, d.ext_attrib))
            } else {
                None
            },
        })
    &&& exists|c: Option<(i32, u32)>| #[trigger]
        latest(p.compressions, i, c) && f.method == (match c {
            Some(x) => if x.0 == 0 {
                Some((CompressionMethod::Store, x.1))
            } else if x.0 == 8 {
                Some((CompressionMethod::Deflate, x.1))
            } else {
                None
            },
            None => None,
        })
    &&& exists|e: Option<u16>| #[trigger]
        latest(p.encryptions, i, e) && f.encryption == (match e {
            Some(m) => m,
            None => 0,
        })
    &&& fields_as_edited(f.extra_fields, z, i)
}

proof fn lemma_fields_as_edited(z: ZipView, i: u64)
    ensures
        fields_as_edited(z.effective_fields(i), z, i),
{
    let ops = z.pending.extra_field_ops;
    let base = z.disk_fields(i);
    let states = Seq::new(ops.len() + 1, |j: int| apply_ops(base, ops.take(j), i));
    assert(ops.take(0) =~= Seq::empty());
    assert(ops.take(ops.len() as int) =~= ops);
    if i < z.archive.entries.len() {
        law_user_fields(z.archive.entries[i as int].extra_fields);
    }
    assert forall|j: int| 0 <= j < ops.len() implies if ops[j].0 == i {
        op_applied(#[trigger] states[j], ops[j].1, states[j + 1])
    } else {
        states[j + 1] == states[j]
    } by {
        assert(ops.take(j + 1).drop_last() =~= ops.take(j));
        assert(ops.take(j + 1).last() == ops[j]);
        law_field_change(states[j], ops[j].1);
    }
    assert(changed_in_turn(states, ops, i));
}

proof fn lemma_written_as_edited(z: ZipView, i: u64, name: Seq<u8>, data: Seq<u8>)
    ensures
        written_as_edited(z.file(i, name, data), z, i),
{
    law_latest_counts(z.pending.file_comments, i);
    law_latest_counts(z.pending.mtimes, i);
    law_latest_counts(z.pending.dostimes, i);
    law_latest_counts(z.pending.ext_attrs, i);
    law_latest_counts(z.pending.compressions, i);
    law_latest_counts(z.pending.encryptions, i);
    lemma_fields_as_edited(z, i);
}

/// Whether the entries of a plan are those that are kept, in order, each under
/// the name that it was given last or has on disk, with the contents that it was
/// given last or that stand at its place among those that were read; and behind
/// them those that were added, in order, under their names and with their
/// contents.
pub open spec fn holds_all(
    files: Seq<FileView>,
    z: ZipView,
    kept: Seq<u64>,
    wanted: Seq<u64>,
    contents: Seq<Seq<u8>>,
) -> bool {
    &&& files.len() == kept.len() + z.pending.adds.len()
    &&& forall|p: int|
        0 <= p < kept.len() ==> {
            let i = kept[p];
            let f = #[trigger] files[p];
            &&& exists|n: Option<Seq<u8>>| #[trigger]
                latest(z.pending.renames, i, n) && f.name == (match n {
                    Some(name) => name,
                    None => z.archive.entries[i as int].name,
                })
            &&& exists|d: Option<Seq<u8>>| #[trigger]
                latest(z.pending.replaces, i, d) && match d {
                    Some(data) => f.data == data,
                    None => exists|j: int|
                        0 <= j < wanted.len() && #[trigger] wanted[j] == i && f.data
                            == contents[j],
                }
            &&& written_as_edited(f, z, i)
        }
    &&& forall|k: int|
        0 <= k < z.pending.adds.len() ==> {
            let f = files[kept.len() + k];
            &&& f.name == (#[trigger] z.pending.adds[k]).name
            &&& f.data == z.pending.adds[k].data
            &&& written_as_edited(f, z, (z.archive.entries.len() + k) as u64)
        }
}

/// What is written of the entries that were added.
pub proof fn lemma_added(z: ZipView, k: nat)
    requires
        k <= z.pending.adds.len(),
    ensures
        z.added(k).len() == k,
        forall|j: int|
            0 <= j < k ==> {
                let f = z.added(k)[j];
                &&& f.name == (#[trigger] z.pending.adds[j]).name
                &&& f.data == z.pending.adds[j].data
                &&& written_as_edited(f, z, (z.len() + j) as u64)
            },
    decreases k,
{
    if k > 0 {
        lemma_added(z, (k - 1) as nat);
        let a = z.pending.adds[k - 1];
        lemma_written_as_edited(z, (z.len() + k - 1) as u64, a.name, a.data);
    }
}

/// What is written of an entry that was added.
pub proof fn lemma_added_at(z: ZipView, j: int)
    requires
        0 <= j < z.pending.adds.len(),
    ensures
        z.added(z.pending.adds.len()).len() == z.pending.adds.len(),
        written_as_edited(z.added(z.pending.adds.len())[j], z, (z.len() + j) as u64),
        z.added(z.pending.adds.len())[j] == z.file(
            (z.len() + j) as u64,
            z.pending.adds[j].name,
            z.pending.adds[j].data,
        ),
{
    lemma_added(z, z.pending.adds.len());
    lemma_added_file(z, z.pending.adds.len(), j);
    assert(z.added(z.pending.adds.len())[j].name == z.pending.adds[j].name);
}

proof fn lemma_added_file(z: ZipView, k: nat, j: int)
    requires
        0 <= j < k <= z.pending.adds.len(),
    ensures
        z.added(k).len() == k,
        z.added(k)[j] == z.file(
            (z.len() + j) as u64,
            z.pending.adds[j].name,
            z.pending.adds[j].data,
        ),
    decreases k,
{
    lemma_added(z, (k - 1) as nat);
    if j < k - 1 {
        lemma_added_file(z, (k - 1) as nat, j);
    }
}

/// The place of an entry that is neither deleted nor replaced among those that are
/// read, and its contents there.
pub proof fn lemma_contents(z: ZipView, wanted: Seq<u64>, contents: Seq<Seq<u8>>, i: u64) -> (j:
    int)
    requires
        i < z.len() <= u64::MAX,
        names_unedited(wanted, z),
        contents.len() == wanted.len(),
        !z.pending.deletes.contains(i),
        last_value(z.pending.replaces, i) is None,
    ensures
        0 <= j < wanted.len(),
        wanted[j] == i,
        z.content(contents, i) == contents[j],
{
    lemma_wanted(z, wanted);
    lemma_to_read(z, z.len());
    law_latest_counts(z.pending.replaces, i);
    lemma_count_before(z, i, z.len());
    z.to_read(i as nat).len() as int
}

proof fn lemma_holds_all(z: ZipView, kept: Seq<u64>, wanted: Seq<u64>, contents: Seq<Seq<u8>>)
    requires
        z.len() <= u64::MAX,
        names_kept(kept, z),
        names_unedited(wanted, z),
        contents.len() == wanted.len(),
    ensures
        holds_all(z.files(contents), z, kept, wanted, contents),
{
    lemma_kept(z, kept);
    lemma_wanted(z, wanted);
    lemma_to_read(z, z.len());
    law_kept_entries(z, contents, z.len());
    lemma_added(z, z.pending.adds.len());
    let files = z.files(contents);
    assert forall|p: int| 0 <= p < kept.len() implies {
        let i = kept[p];
        let f = #[trigger] files[p];
        &&& exists|n: Option<Seq<u8>>| #[trigger]
            latest(z.pending.renames, i, n) && f.name == (match n {
                Some(name) => name,
                None => z.archive.entries[i as int].name,
            })
        &&& exists|d: Option<Seq<u8>>| #[trigger]
            latest(z.pending.replaces, i, d) && match d {
                Some(data) => f.data == data,
                None => exists|j: int|
                    0 <= j < wanted.len() && #[trigger] wanted[j] == i && f.data == contents[j],
            }
        &&& written_as_edited(f, z, i)
    } by {
        let i = kept[p];
        let f = files[p];
        assert(f == z.kept(contents, z.len())[p]);
        assert(f == z.file(i, z.effective_name(i), z.content(contents, i)));
        lemma_written_as_edited(z, i, z.effective_name(i), z.content(contents, i));
        law_latest_counts(z.pending.renames, i);
        law_latest_counts(z.pending.replaces, i);
        let d = last_value(z.pending.replaces, i);
        if d is None {
            let j = z.to_read(i as nat).len() as int;
            lemma_count_before(z, i, z.len());
            assert(wanted[j] == i);
            assert(f.data == contents[j]);
        }
        assert(latest(z.pending.replaces, i, d));
    }
    assert forall|k: int| 0 <= k < z.pending.adds.len() implies {
        let f = files[kept.len() + k];
        &&& f.name == (#[trigger] z.pending.adds[k]).name
        &&& f.data == z.pending.adds[k].data
        &&& written_as_edited(f, z, (z.archive.entries.len() + k) as u64)
    } by {
        assert(files[kept.len() + k] == z.added(z.pending.adds.len())[k]);
    }
}

/// Whether one of the entries to be written is to be encrypted.
pub open spec fn asks_encryption(z: ZipView, kept: Seq<u64>) -> bool {
    exists|i: u64, m: u16|
        {
            &&& #[trigger] latest(z.pending.encryptions, i, Some(m))
            &&& m != 0
            &&& kept.contains(i) || z.archive.entries.len() <= i < z.archive.entries.len()
                + z.pending.adds.len()
        }
}

proof fn lemma_asks(z: ZipView, kept: Seq<u64>, contents: Seq<Seq<u8>>)
    requires
        z.countable(),
        names_kept(kept, z),
    ensures
        asks_encryption(z, kept) <==> exists|j: int|
            0 <= j < z.files(contents).len() && (#[trigger] z.files(contents)[j]).encryption != 0,
{
    let files = z.files(contents);
    lemma_kept(z, kept);
    law_kept_entries(z, contents, z.len());
    lemma_added(z, z.pending.adds.len());
    let n = kept.len() as int;
    if asks_encryption(z, kept) {
        let (i, m) = choose|i: u64, m: u16|
            {
                &&& #[trigger] latest(z.pending.encryptions, i, Some(m))
                &&& m != 0
                &&& kept.contains(i) || z.len() <= i < z.len() + z.pending.adds.len()
            };
        law_latest_counts(z.pending.encryptions, i);
        if kept.contains(i) {
            let j = choose|j: int| 0 <= j < kept.len() && kept[j] == i;
            assert(files[j] == z.kept(contents, z.len())[j]);
            assert(files[j].encryption != 0);
        } else {
            let k = i - z.len();
            lemma_added_at(z, k);
            assert(files[n + k] == z.added(z.pending.adds.len())[k]);
            lemma_encryption_of(files[n + k], z, i, m);
            assert(files[n + k].encryption != 0);
        }
    }
    if exists|j: int| 0 <= j < files.len() && (#[trigger] files[j]).encryption != 0 {
        let j = choose|j: int| 0 <= j < files.len() && (#[trigger] files[j]).encryption != 0;
        let i = if j < n { kept[j] } else { (z.len() + j - n) as u64 };
        law_latest_counts(z.pending.encryptions, i);
        if j < n {
            assert(files[j] == z.kept(contents, z.len())[j]);
            assert(kept.contains(i));
        } else {
            lemma_added_at(z, j - n);
            assert(files[j] == z.added(z.pending.adds.len())[j - n]);
        }
        let m = files[j].encryption;
        assert(latest(z.pending.encryptions, i, Some(m)));
    }
}

proof fn lemma_encryption_of(f: FileView, z: ZipView, i: u64, m: u16)
    requires
        written_as_edited(f, z, i),
        latest(z.pending.encryptions, i, Some(m)),
    ensures
        f.encryption == m,
{
    law_latest_counts(z.pending.encryptions, i);
}

/// Whether a plan is what an archive is to be written as, where `contents` was
/// read of the entries in `wanted`: all its entries, its comment, and the
/// password where an entry is encrypted.
pub open spec fn plans(
    p: PlanView,
    z: ZipView,
    kept: Seq<u64>,
    wanted: Seq<u64>,
    contents: Seq<Seq<u8>>,
) -> bool {
    &&& holds_all(p.files, z, kept, wanted, contents)
    &&& p.archive_comment == (match z.pending.archive_comment {
        Some(c) => c,
        None => z.archive.comment,
    })
    &&& asks_encryption(z, kept) ==> z.password == Some(p.password)
    &&& !asks_encryption(z, kept) ==> p.password.len() == 0
}

/// Planning gives every kept entry the contents that were read of it, and no
/// other: where the contents that are handed in are those of the entries that
/// are neither deleted nor replaced, in order. It fails only for want of a
/// password.
pub proof fn law_contents_go_to_their_entries(
    z: Zip,
    contents: Vec<Vec<u8>>,
    r: Result<WritePlan, i32>,
    kept: Seq<u64>,
    wanted: Seq<u64>,
)
    requires
        call_ensures(Zip::plan, (&z, &contents), r),
        z@.countable(),
        names_kept(kept, z@),
        names_unedited(wanted, z@),
        contents@.len() == wanted.len(),
    ensures
        r matches Ok(p) ==> plans(p@, z@, kept, wanted, contents_view(contents@)),
        r matches Err(code) ==> code == 26,
        r is Err <==> asks_encryption(z@, kept) && z@.password is None,
{
    lemma_holds_all(z@, kept, wanted, contents_view(contents@));
    lemma_asks(z@, kept, contents_view(contents@));
}

/// Each entry that is neither deleted nor replaced is written with the contents
/// that were read under its own index, whatever becomes of the others.
pub proof fn law_own_contents_are_written(
    z: Zip,
    contents: Vec<Vec<u8>>,
    plan: WritePlan,
    kept: Seq<u64>,
    wanted: Seq<u64>,
    p: int,
    j: int,
)
    requires
        call_ensures(Zip::plan, (&z, &contents), Ok::<WritePlan, i32>(plan)),
        z@.countable(),
        names_kept(kept, z@),
        names_unedited(wanted, z@),
        contents@.len() == wanted.len(),
        0 <= p < kept.len(),
        0 <= j < wanted.len(),
        kept[p] == wanted[j],
    ensures
        plan.files@[p].data@ == contents@[j]@,
{
    let c = contents_view(contents@);
    law_contents_go_to_their_entries(z, contents, Ok(plan), kept, wanted);
    let f = plan@.files[p];
    let i = kept[p];
    assert(wanted.contains(wanted[j]));
    law_latest_counts(z@.pending.replaces, i);
    let d = choose|d: Option<Seq<u8>>| #[trigger]
        latest(z@.pending.replaces, i, d) && match d {
            Some(data) => f.data == data,
            None => exists|l: int|
                0 <= l < wanted.len() && #[trigger] wanted[l] == i && f.data == c[l],
        };
    assert(d is None);
    let l = choose|l: int| 0 <= l < wanted.len() && #[trigger] wanted[l] == i && f.data == c[l];
    assert(l == j) by {
        if l < j {
            assert(wanted[l] < wanted[j]);
        } else if j < l {
            assert(wanted[j] < wanted[l]);
        }
    }
    assert(f == plan.files@[p]@);
}

/// Whether `read` has given these contents, each for the entry at its place.
pub open spec fn read_each<R: Fn(u64) -> Result<Vec<u8>, i32>>(
    read: R,
    wanted: Seq<u64>,
    contents: Seq<Vec<u8>>,
) -> bool {
    &&& contents.len() <= wanted.len()
    &&& forall|j: int|
        0 <= j < contents.len() ==> call_ensures(
            read,
            (wanted[j],),
            Ok::<Vec<u8>, i32>(#[trigger] contents[j]),
        )
}

/// Whether an archive was planned from what `read` gave for the entries that are
/// neither deleted nor replaced; or what came in place of a plan: the code of
/// the first that could not be read, or that a password is missing.
pub open spec fn planned_from_disk<R: Fn(u64) -> Result<Vec<u8>, i32>>(
    r: Result<PlanView, i32>,
    z: ZipView,
    read: R,
    kept: Seq<u64>,
    wanted: Seq<u64>,
) -> bool {
    exists|contents: Seq<Vec<u8>>|
        {
            &&& #[trigger] read_each(read, wanted, contents)
            &&& match r {
                Ok(p) => contents.len() == wanted.len() && plans(
                    p,
                    z,
                    kept,
                    wanted,
                    contents_view(contents),
                ),
                Err(code) => {
                    ||| contents.len() == wanted.len() && code == 26 && z.password is None
                        && asks_encryption(z, kept)
                    ||| contents.len() < wanted.len() && call_ensures(
                        read,
                        (wanted[contents.len() as int],),
                        Err::<Vec<u8>, i32>(code),
                    )
                },
            }
        }
}

proof fn lemma_materialized<R: Fn(u64) -> Result<Vec<u8>, i32>>(
    z: ZipView,
    read: R,
    r: Result<PlanView, i32>,
    kept: Seq<u64>,
    wanted: Seq<u64>,
)
    requires
        materialized(z, read, r),
        z.countable(),
        names_kept(kept, z),
        names_unedited(wanted, z),
    ensures
        planned_from_disk(r, z, read, kept, wanted),
{
    lemma_wanted(z, wanted);
    let contents = choose|contents: Seq<Vec<u8>>|
        {
            &&& #[trigger] contents_read(read, wanted, contents)
            &&& if contents.len() == wanted.len() {
                r == z.planned(contents_view(contents))
            } else {
                r is Err && call_ensures(
                    read,
                    (wanted[contents.len() as int],),
                    Err::<Vec<u8>, i32>(r->Err_0),
                )
            }
        };
    assert(read_each(read, wanted, contents));
    if contents.len() == wanted.len() {
        lemma_holds_all(z, kept, wanted, contents_view(contents));
        lemma_asks(z, kept, contents_view(contents));
    }
}

/// What is to be written is planned from the entries on disk: those that are
/// neither deleted nor replaced are read, in order, and each is written with
/// what was read of it.
pub proof fn law_entries_are_read_and_written<R: Fn(u64) -> Result<Vec<u8>, i32>>(
    z: Zip,
    read: R,
    r: Result<WritePlan, i32>,
    kept: Seq<u64>,
    wanted: Seq<u64>,
)
    requires
        call_ensures(materialize::<R>, (&z, read), r),
        z@.countable(),
        names_kept(kept, z@),
        names_unedited(wanted, z@),
    ensures
        planned_from_disk(
            match r {
                Ok(p) => Ok::<PlanView, i32>(p@),
                Err(code) => Err::<PlanView, i32>(code),
            },
            z@,
            read,
            kept,
            wanted,
        ),
{
    lemma_materialized(
        z@,
        read,
        match r {
            Ok(p) => Ok::<PlanView, i32>(p@),
            Err(code) => Err::<PlanView, i32>(code),
        },
        kept,
        wanted,
    );
}

/// Whether any edit waits.
pub open spec fn edits_wait(p: PendingView) -> bool {
    ||| p.adds.len() > 0
    ||| p.deletes.len() > 0
    ||| p.renames.len() > 0
    ||| p.replaces.len() > 0
    ||| p.encryptions.len() > 0
    ||| p.extra_field_ops.len() > 0
    ||| p.file_comments.len() > 0
    ||| p.dostimes.len() > 0
    ||| p.mtimes.len() > 0
    ||| p.ext_attrs.len() > 0
    ||| p.compressions.len() > 0
    ||| p.archive_comment is Some
}

/// An edit waits exactly if not none do.
pub proof fn lemma_edits_wait(p: PendingView)
    ensures
        edits_wait(p) <==> p != no_edits(),
{
    if !edits_wait(p) {
        let n = no_edits();
        assert(p.adds =~= n.adds);
        assert(p.deletes =~= n.deletes);
        assert(p.renames =~= n.renames);
        assert(p.replaces =~= n.replaces);
        assert(p.encryptions =~= n.encryptions);
        assert(p.extra_field_ops =~= n.extra_field_ops);
        assert(p.file_comments =~= n.file_comments);
        assert(p.dostimes =~= n.dostimes);
        assert(p.mtimes =~= n.mtimes);
        assert(p.ext_attrs =~= n.ext_attrs);
        assert(p.compressions =~= n.compressions);
    }
}

/// Closing an archive in which an edit waits is never done without writing: it
/// goes on with a plan of all that is to be written, or fails with a code that
/// is recorded.
pub proof fn law_waiting_edits_are_written<R: Fn(u64) -> Result<Vec<u8>, i32>>(
    before: ZipView,
    after: ZipView,
    read: R,
    r: CloseStep,
    kept: Seq<u64>,
    wanted: Seq<u64>,
)
    requires
        exists|z: &mut Zip| #[trigger]
            call_ensures(zip_close::<R>, (Some(z), read), r) && z@ == before && final(z)@
                == after,
        before.countable(),
        edits_wait(before.pending),
        names_kept(kept, before),
        names_unedited(wanted, before),
    ensures
        match r {
            CloseStep::Encode(plan) => {
                &&& after == before
                &&& planned_from_disk(
                    Ok::<PlanView, i32>(plan@),
                    before,
                    read,
                    kept,
                    wanted,
                )
            },
            CloseStep::Done(code) => {
                &&& code == -1
                &&& after == (ZipView { error: after.error, ..before })
                &&& after.error.sys_err == 0
                &&& planned_from_disk(
                    Err::<PlanView, i32>(after.error.zip_err),
                    before,
                    read,
                    kept,
                    wanted,
                )
            },
        },
{
    lemma_edits_wait(before.pending);
    lemma_close(before, after, read, r, kept, wanted);
}

proof fn lemma_close<R: Fn(u64) -> Result<Vec<u8>, i32>>(
    before: ZipView,
    after: ZipView,
    read: R,
    r: CloseStep,
    kept: Seq<u64>,
    wanted: Seq<u64>,
)
    requires
        exists|z: &mut Zip| #[trigger]
            call_ensures(zip_close::<R>, (Some(z), read), r) && z@ == before && final(z)@
                == after,
        before.countable(),
        before.writes_on_close(),
        names_kept(kept, before),
        names_unedited(wanted, before),
    ensures
        match r {
            CloseStep::Encode(plan) => after == before && planned_from_disk(
                Ok::<PlanView, i32>(plan@),
                before,
                read,
                kept,
                wanted,
            ),
            CloseStep::Done(code) => {
                &&& code == -1
                &&& after == (ZipView { error: after.error, ..before })
                &&& after.error.sys_err == 0
                &&& planned_from_disk(
                    Err::<PlanView, i32>(after.error.zip_err),
                    before,
                    read,
                    kept,
                    wanted,
                )
            },
        },
{
    let p = choose|p: Result<PlanView, i32>|
        {
            &&& #[trigger] materialized(before, read, p)
            &&& match p {
                Ok(p) => {
                    &&& r is Encode
                    &&& r->Encode_0@ == p
                    &&& after == before
                },
                Err(code) => {
                    &&& r == CloseStep::Done((-1) as i32)
                    &&& after == before.failed(code)
                },
            }
        };
    lemma_materialized(before, read, p, kept, wanted);
}

/// Without edits an archive is written exactly if it is new and was asked for,
/// or has a path and was opened to be created or emptied, and not to be read
/// only; else closing it is done at once, and changes nothing.
pub proof fn law_unedited_archive_is_closed<R: Fn(u64) -> Result<Vec<u8>, i32>>(
    before: ZipView,
    after: ZipView,
    read: R,
    r: CloseStep,
)
    requires
        exists|z: &mut Zip| #[trigger]
            call_ensures(zip_close::<R>, (Some(z), read), r) && z@ == before && final(z)@
                == after,
        !edits_wait(before.pending),
    ensures
        ({
            let wanted = {
                ||| !before.existed && before.flags & 1 != 0
                ||| before.path is Some && before.flags & 16 == 0 && before.flags & 9 != 0
            };
            &&& !wanted ==> r == CloseStep::Done(0) && after == before
            &&& wanted ==> r != CloseStep::Done(0)
        }),
{
    lemma_edits_wait(before.pending);
    assert(1i32 | 8i32 == 9i32) by (bit_vector);
}

/// An archive that was encoded is stored at its path, if that is in UTF-8; without
/// one it fails. One that could not be encoded fails with the code of that.
pub proof fn law_encoded_archive_is_stored(
    before: ZipView,
    after: ZipView,
    encoded: Result<Vec<u8>, i32>,
    r: StoreStep,
)
    requires
        exists|z: &mut Zip| #[trigger]
            call_ensures(close_encoded, (z, encoded), r) && z@ == before && final(z)@ == after,
    ensures
        match (encoded, before.path) {
            (Err(code), _) => {
                &&& r == StoreStep::Done((-1) as i32)
                &&& after == (ZipView { error: after.error, ..before })
                &&& after.error.zip_err == code
            },
            (Ok(bytes), Some(path)) => {
                &&& after == before
                &&& valid_utf8(path) ==> r is Store && r->Store_0@ == path && r->Store_1@ == bytes@
                &&& !valid_utf8(path) ==> r == StoreStep::Done((-1) as i32)
            },
            (Ok(_), None) => r == StoreStep::Done((-1) as i32) && after == before,
        },
{
}

/// Closing succeeds exactly if the archive was stored; else a write error is recorded.
pub proof fn law_stored_archive_is_closed(
    before: ZipView,
    after: ZipView,
    stored: bool,
    r: i32,
)
    requires
        exists|z: &mut Zip| #[trigger]
            call_ensures(close_stored, (z, stored), r) && z@ == before && final(z)@ == after,
    ensures
        stored ==> r == 0 && after == before,
        !stored ==> r == -1 && after == (ZipView { error: after.error, ..before })
            && after.error.zip_err == 6,
{
}

} // verus!
