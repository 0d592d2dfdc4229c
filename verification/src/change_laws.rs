//! What an edit changes in an open archive, and what it leaves as it was.
//!
//! A law here speaks of a call: of what was handed in, and of what came back.

use crate::archive::{law_first_of_a_name, name_place, Zip, ZipView};
use crate::command::DataView;
use crate::consts::ZIP_SOURCE_OPEN;
use crate::edit::{
    source_content, zip_add, zip_add_dir, zip_delete, zip_dir_add, zip_file_add, zip_file_rename,
    zip_file_replace, zip_file_set_encryption, zip_rename, zip_replace, zip_set_default_password,
};
use crate::errors::err_msg;
use crate::extra::OpView;
use crate::keyed::{last_value, lemma_push, lemma_replaced, lemma_without, replaced, without};
use crate::metadata::{
    lemma_comment_shown, zip_file_get_external_attributes, zip_file_set_comment,
    zip_file_set_dostime, zip_file_set_external_attributes, zip_file_set_mtime,
    zip_set_archive_comment, zip_set_file_comment, zip_set_file_compression,
};
use crate::pending::{lemma_drop_value, AddView, PendingView};
use crate::revert::{
    lemma_unchanged_entry, zip_get_archive_flag, zip_set_archive_flag, zip_unchange,
    zip_unchange_all, zip_unchange_archive,
};
use crate::save_laws::{edits_wait, latest, law_latest_counts, lemma_edits_wait};
use crate::source::{remaining, step, LayeredCallback, SourceCallback, ZipSource};
use vstd::prelude::*;
use vstd::utf8::valid_utf8;

verus! {

/// Whether a call was refused with a code: the code is recorded with its message,
/// and nothing else is changed.
pub open spec fn refused(before: ZipView, after: ZipView, code: i32) -> bool {
    &&& after == (ZipView { error: after.error, ..before })
    &&& after.error.zip_err == code
    &&& after.error.sys_err == 0
    &&& after.error.str == Some(err_msg(code))
}

/// Whether only the edits that wait were changed.
pub open spec fn only_edits(before: ZipView, after: ZipView) -> bool {
    after == ZipView { pending: after.pending, ..before }
}

/// Whether a value was set for an index: it is the latest for it, and the latest
/// for every other index is as before.
pub open spec fn sets<T>(
    before: Seq<(u64, T)>,
    after: Seq<(u64, T)>,
    index: u64,
    value: T,
) -> bool {
    forall|i: u64, v: Option<T>| #[trigger]
        latest(after, i, v) <==> if i == index {
            v == Some(value)
        } else {
            latest(before, i, v)
        }
}

/// Whether all that was recorded for an index was taken away, and what was for
/// the others is as before.
pub open spec fn clears<T>(before: Seq<(u64, T)>, after: Seq<(u64, T)>, index: u64) -> bool {
    forall|i: u64, v: Option<T>| #[trigger]
        latest(after, i, v) <==> if i == index {
            v is None
        } else {
            latest(before, i, v)
        }
}

proof fn lemma_sets<T>(before: Seq<(u64, T)>, after: Seq<(u64, T)>, index: u64, value: T)
    requires
        after == before.push((index, value)) || after == replaced(before, index, value),
    ensures
        sets(before, after, index, value),
        after.len() > 0,
{
    assert forall|i: u64, v: Option<T>| #[trigger]
        latest(after, i, v) <==> if i == index {
            v == Some(value)
        } else {
            latest(before, i, v)
        } by {
        law_latest_counts(after, i);
        law_latest_counts(before, i);
        lemma_push(before, index, value, i);
        lemma_replaced(before, index, value, i);
    }
}

proof fn lemma_clears<T>(before: Seq<(u64, T)>, index: u64)
    ensures
        clears(before, without(before, index), index),
{
    let after = without(before, index);
    assert forall|i: u64, v: Option<T>| #[trigger]
        latest(after, i, v) <==> if i == index {
            v is None
        } else {
            latest(before, i, v)
        } by {
        law_latest_counts(after, i);
        law_latest_counts(before, i);
        lemma_without(before, index, i);
    }
}

/// Deleting marks an entry on disk, and no other mark comes or goes. It is
/// refused for a read-only archive and for an entry that is not on disk.
pub proof fn law_deleted_is_marked(before: ZipView, after: ZipView, index: u64, r: i32)
    requires
        exists|z: &mut Zip| #[trigger]
            call_ensures(zip_delete, (Some(z), index), r) && z@ == before && final(z)@ == after,
    ensures
        ({
            let fine = before.flags & 16 == 0 && index < before.archive.entries.len();
            &&& r == (if fine { 0int } else { -1 })
            &&& fine ==> {
                &&& only_edits(before, after)
                &&& after.pending == (PendingView {
                    deletes: after.pending.deletes,
                    ..before.pending
                })
                &&& forall|i: u64| #[trigger]
                    after.pending.deletes.contains(i) <==> i == index
                        || before.pending.deletes.contains(i)
                &&& edits_wait(after.pending)
            }
            &&& !fine ==> refused(before, after, if before.flags & 16 != 0 { 25 } else { 18 })
        }),
{
    if before.flags & 16 == 0 && index < before.archive.entries.len() {
        let d = before.pending.deletes;
        assert forall|i: u64| #[trigger]
            after.pending.deletes.contains(i) <==> i == index || d.contains(i) by {
            if !d.contains(index) {
                assert(after.pending.deletes == d.push(index));
                assert(d.push(index)[d.len() as int] == index);
                if d.contains(i) {
                    let k = choose|k: int| 0 <= k < d.len() && d[k] == i;
                    assert(d.push(index)[k] == i);
                }
            }
        }
        assert(after.pending.deletes.contains(index));
        assert(after.pending.deletes.len() > 0);
    }
}

/// Renaming gives an entry on disk a new name, and no other entry. It is refused
/// for a read-only archive, for an entry that is not on disk, and without a name
/// in UTF-8.
pub proof fn law_renamed_entry(
    before: ZipView,
    after: ZipView,
    index: u64,
    name: Option<&[u8]>,
    r: i32,
)
    requires
        exists|z: &mut Zip| #[trigger]
            call_ensures(zip_rename, (Some(z), index, name), r) && z@ == before
                && final(z)@ == after,
    ensures
        ({
            let fine = {
                &&& before.flags & 16 == 0
                &&& index < before.archive.entries.len()
                &&& name is Some
                &&& valid_utf8(name->0@)
            };
            &&& r == (if fine { 0int } else { -1 })
            &&& fine ==> {
                &&& only_edits(before, after)
                &&& after.pending == (PendingView {
                    renames: after.pending.renames,
                    ..before.pending
                })
                &&& sets(before.pending.renames, after.pending.renames, index, name->0@)
                &&& edits_wait(after.pending)
            }
            &&& !fine ==> refused(before, after, if before.flags & 16 != 0 { 25 } else { 18 })
        }),
{
    if r == 0 {
        lemma_sets(before.pending.renames, after.pending.renames, index, name->0@);
    }
}

/// Renaming with flags does what renaming without does.
pub proof fn law_renamed_file(
    before: ZipView,
    after: ZipView,
    index: u64,
    name: Option<&[u8]>,
    flags: u32,
    r: i32,
)
    requires
        exists|z: &mut Zip| #[trigger]
            call_ensures(zip_file_rename, (Some(z), index, name, flags), r) && z@ == before
                && final(z)@ == after,
    ensures
        ({
            let fine = {
                &&& before.flags & 16 == 0
                &&& index < before.archive.entries.len()
                &&& name is Some
                &&& valid_utf8(name->0@)
            };
            &&& r == (if fine { 0int } else { -1 })
            &&& fine ==> {
                &&& only_edits(before, after)
                &&& after.pending == (PendingView {
                    renames: after.pending.renames,
                    ..before.pending
                })
                &&& sets(before.pending.renames, after.pending.renames, index, name->0@)
                &&& edits_wait(after.pending)
            }
            &&& !fine ==> refused(before, after, if before.flags & 16 != 0 { 25 } else { 18 })
        }),
{
    if r == 0 {
        lemma_sets(before.pending.renames, after.pending.renames, index, name->0@);
    }
}

/// What a buffer holds is what is read of a source over it, if that fits into
/// memory.
pub proof fn law_content_of_a_buffer<F: SourceCallback, L: LayeredCallback<F>>(s: ZipSource<F, L>)
    requires
        s.backend is Memory,
    ensures
        s@.closed(),
        source_content(s@) == (if s.backend->Memory_0.data@.len() <= isize::MAX {
            Some(s.backend->Memory_0.data@)
        } else {
            None
        }),
{
    let o = step(s@, ZIP_SOURCE_OPEN, DataView::Null, 0);
    let data = s.backend->Memory_0.data@;
    assert(data.skip(0) =~= data);
    assert(remaining(o.source) =~= data);
}

/// Replacing gives an entry on disk the contents of a source, and no other entry.
/// It is refused for a read-only archive and for an entry that is not on disk.
pub proof fn law_replaced_entry<F: SourceCallback, L: LayeredCallback<F>>(
    before: ZipView,
    after: ZipView,
    index: u64,
    source: ZipSource<F, L>,
    flags: u32,
    r: i32,
)
    requires
        source.backend is Memory,
        exists|z: &mut Zip, s: &mut ZipSource<F, L>| #[trigger]
            call_ensures(zip_file_replace::<F, L>, (Some(z), index, Some(s), flags), r)
                && z@ == before && final(z)@ == after && *s
                == source,
    ensures
        ({
            let data = source.backend->Memory_0.data@;
            let there = before.flags & 16 == 0 && index < before.archive.entries.len();
            let fine = there && data.len() <= isize::MAX;
            &&& r == (if fine { 0int } else { -1 })
            &&& fine ==> {
                &&& only_edits(before, after)
                &&& after.pending == (PendingView {
                    replaces: after.pending.replaces,
                    ..before.pending
                })
                &&& sets(before.pending.replaces, after.pending.replaces, index, data)
                &&& edits_wait(after.pending)
            }
            &&& !there ==> refused(before, after, if before.flags & 16 != 0 { 25 } else { 18 })
            &&& there && !fine ==> after == before
        }),
{
    law_content_of_a_buffer(source);
    let data = source.backend->Memory_0.data@;
    if r == 0 {
        lemma_sets(before.pending.replaces, after.pending.replaces, index, data);
    }
}

/// Replacing without flags does what replacing with flags does.
pub proof fn law_replaced_file<F: SourceCallback, L: LayeredCallback<F>>(
    before: ZipView,
    after: ZipView,
    index: u64,
    source: ZipSource<F, L>,
    r: i32,
)
    requires
        source.backend is Memory,
        exists|z: &mut Zip, s: &mut ZipSource<F, L>| #[trigger]
            call_ensures(zip_replace::<F, L>, (Some(z), index, Some(s)), r) && z@ == before
                && final(z)@ == after && *s
                == source,
    ensures
        ({
            let data = source.backend->Memory_0.data@;
            let there = before.flags & 16 == 0 && index < before.archive.entries.len();
            let fine = there && data.len() <= isize::MAX;
            &&& r == (if fine { 0int } else { -1 })
            &&& fine ==> {
                &&& only_edits(before, after)
                &&& after.pending == (PendingView {
                    replaces: after.pending.replaces,
                    ..before.pending
                })
                &&& sets(before.pending.replaces, after.pending.replaces, index, data)
                &&& edits_wait(after.pending)
            }
            &&& !there ==> refused(before, after, if before.flags & 16 != 0 { 25 } else { 18 })
            &&& there && !fine ==> after == before
        }),
{
    law_content_of_a_buffer(source);
    let data = source.backend->Memory_0.data@;
    if r == 0 {
        lemma_sets(before.pending.replaces, after.pending.replaces, index, data);
    }
}

/// Whether an entry on disk has a name.
pub open spec fn is_taken(z: ZipView, name: Seq<u8>) -> bool {
    exists|k: int|
        0 <= k < z.archive.entries.len() && (#[trigger] z.archive.entries[k]).name == name
}

/// Whether an entry on disk is the first with a name.
pub open spec fn is_first_named(z: ZipView, name: Seq<u8>, k: int) -> bool {
    &&& 0 <= k < z.archive.entries.len()
    &&& z.archive.entries[k].name == name
    &&& forall|j: int| 0 <= j < k ==> (#[trigger] z.archive.entries[j]).name != name
}

/// Adding appends an entry behind all others, with the contents of a source, and
/// gives its index. Where an entry on disk has the name, the first one is given
/// the contents with the flag for that, and adding is refused without.
pub proof fn law_added_entry<F: SourceCallback, L: LayeredCallback<F>>(
    before: ZipView,
    after: ZipView,
    name: Option<&[u8]>,
    source: ZipSource<F, L>,
    flags: u32,
    r: i64,
)
    requires
        before.countable(),
        source.backend is Memory,
        source.backend->Memory_0.data@.len() <= isize::MAX,
        exists|z: &mut Zip, s: &mut ZipSource<F, L>| #[trigger]
            call_ensures(zip_file_add::<F, L>, (Some(z), name, Some(s), flags), r)
                && z@ == before && final(z)@ == after && *s
                == source,
    ensures
        ({
            let data = source.backend->Memory_0.data@;
            let named = name is Some && valid_utf8(name->0@);
            &&& before.flags & 16 != 0 ==> r == -1 && refused(before, after, 25)
            &&& before.flags & 16 == 0 && !named ==> r == -1 && refused(before, after, 18)
            &&& before.flags & 16 == 0 && named && !is_taken(before, name->0@) ==> {
                &&& r == before.archive.entries.len() + before.pending.adds.len()
                &&& only_edits(before, after)
                &&& after.pending == (PendingView {
                    adds: before.pending.adds.push(AddView { name: name->0@, data }),
                    ..before.pending
                })
                &&& edits_wait(after.pending)
            }
            &&& before.flags & 16 == 0 && named && is_taken(before, name->0@) ==> {
                &&& flags & 8192 != 0 ==> {
                    &&& is_first_named(before, name->0@, r as int)
                    &&& only_edits(before, after)
                    &&& after.pending == (PendingView {
                        replaces: after.pending.replaces,
                        ..before.pending
                    })
                    &&& sets(before.pending.replaces, after.pending.replaces, r as u64, data)
                    &&& edits_wait(after.pending)
                }
                &&& !(flags & 8192 != 0) ==> r == -1 && refused(before, after, 10)
            }
        }),
{
    law_content_of_a_buffer(source);
    assert(0u32 & 8192 == 0) by (bit_vector);
    let data = source.backend->Memory_0.data@;
    if name is Some {
        law_first_of_a_name(before.archive, name->0@, before.archive.entries.len());
        if let Some(k) = name_place(before.archive, name->0@) {
            assert(before.archive.entries[k].name == name->0@);
            assert(is_first_named(before, name->0@, k));
            if r >= 0 {
                lemma_sets(before.pending.replaces, after.pending.replaces, r as u64, data);
            }
        }
    }
}

/// Adding without flags appends an entry, and is refused where its name is taken.
pub proof fn law_added_file<F: SourceCallback, L: LayeredCallback<F>>(
    before: ZipView,
    after: ZipView,
    name: Option<&[u8]>,
    source: ZipSource<F, L>,
    r: i64,
)
    requires
        before.countable(),
        source.backend is Memory,
        source.backend->Memory_0.data@.len() <= isize::MAX,
        exists|z: &mut Zip, s: &mut ZipSource<F, L>| #[trigger]
            call_ensures(zip_add::<F, L>, (Some(z), name, Some(s)), r) && z@ == before
                && final(z)@ == after && *s
                == source,
    ensures
        ({
            let data = source.backend->Memory_0.data@;
            let named = name is Some && valid_utf8(name->0@);
            &&& before.flags & 16 != 0 ==> r == -1 && refused(before, after, 25)
            &&& before.flags & 16 == 0 && !named ==> r == -1 && refused(before, after, 18)
            &&& before.flags & 16 == 0 && named && !is_taken(before, name->0@) ==> {
                &&& r == before.archive.entries.len() + before.pending.adds.len()
                &&& only_edits(before, after)
                &&& after.pending == (PendingView {
                    adds: before.pending.adds.push(AddView { name: name->0@, data }),
                    ..before.pending
                })
                &&& edits_wait(after.pending)
            }
            &&& before.flags & 16 == 0 && named && is_taken(before, name->0@) ==> {
                &&& false ==> {
                    &&& is_first_named(before, name->0@, r as int)
                    &&& only_edits(before, after)
                    &&& after.pending == (PendingView {
                        replaces: after.pending.replaces,
                        ..before.pending
                    })
                    &&& sets(before.pending.replaces, after.pending.replaces, r as u64, data)
                    &&& edits_wait(after.pending)
                }
                &&& !(false) ==> r == -1 && refused(before, after, 10)
            }
        }),
{
    law_content_of_a_buffer(source);
    assert(0u32 & 8192 == 0) by (bit_vector);
    let data = source.backend->Memory_0.data@;
    if name is Some {
        law_first_of_a_name(before.archive, name->0@, before.archive.entries.len());
        if let Some(k) = name_place(before.archive, name->0@) {
            assert(before.archive.entries[k].name == name->0@);
            assert(is_first_named(before, name->0@, k));
            if r >= 0 {
                lemma_sets(before.pending.replaces, after.pending.replaces, r as u64, data);
            }
        }
    }
}

/// Adding a directory appends an empty entry whose name ends in one slash, and
/// gives its index. It is refused where that name is taken.
pub proof fn law_added_directory(
    before: ZipView,
    after: ZipView,
    name: Option<&[u8]>,
    flags: u32,
    r: i64,
)
    requires
        before.countable(),
        exists|z: &mut Zip| #[trigger]
            call_ensures(zip_dir_add, (Some(z), name, flags), r) && z@ == before
                && final(z)@ == after,
    ensures
        ({
            let named = name is Some && valid_utf8(name->0@);
            let n = name->0@;
            let full = if n.len() > 0 && n[n.len() - 1] == 0x2f { n } else { n.push(0x2f) };
            &&& before.flags & 16 != 0 ==> r == -1 && refused(before, after, 25)
            &&& before.flags & 16 == 0 && !named ==> r == -1 && refused(before, after, 18)
            &&& before.flags & 16 == 0 && named && is_taken(before, full) ==> r == -1 && refused(
                before,
                after,
                10,
            )
            &&& before.flags & 16 == 0 && named && !is_taken(before, full) ==> {
                &&& r == before.archive.entries.len() + before.pending.adds.len()
                &&& only_edits(before, after)
                &&& after.pending == (PendingView {
                    adds: before.pending.adds.push(AddView { name: full, data: Seq::empty() }),
                    ..before.pending
                })
                &&& edits_wait(after.pending)
            }
        }),
{
    if name is Some {
        let n = name->0@;
        let full = if n.len() > 0 && n[n.len() - 1] == 0x2f { n } else { n.push(0x2f) };
        law_first_of_a_name(before.archive, full, before.archive.entries.len());
        if let Some(k) = name_place(before.archive, full) {
            assert(before.archive.entries[k].name == full);
        }
    }
}

/// Adding a directory without flags does what adding one with flags does.
pub proof fn law_added_dir(
    before: ZipView,
    after: ZipView,
    name: Option<&[u8]>,
    r: i64,
)
    requires
        before.countable(),
        exists|z: &mut Zip| #[trigger]
            call_ensures(zip_add_dir, (Some(z), name), r) && z@ == before && final(z)@ == after,
    ensures
        ({
            let named = name is Some && valid_utf8(name->0@);
            let n = name->0@;
            let full = if n.len() > 0 && n[n.len() - 1] == 0x2f { n } else { n.push(0x2f) };
            &&& before.flags & 16 != 0 ==> r == -1 && refused(before, after, 25)
            &&& before.flags & 16 == 0 && !named ==> r == -1 && refused(before, after, 18)
            &&& before.flags & 16 == 0 && named && is_taken(before, full) ==> r == -1 && refused(
                before,
                after,
                10,
            )
            &&& before.flags & 16 == 0 && named && !is_taken(before, full) ==> {
                &&& r == before.archive.entries.len() + before.pending.adds.len()
                &&& only_edits(before, after)
                &&& after.pending == (PendingView {
                    adds: before.pending.adds.push(AddView { name: full, data: Seq::empty() }),
                    ..before.pending
                })
                &&& edits_wait(after.pending)
            }
        }),
{
    if name is Some {
        let n = name->0@;
        let full = if n.len() > 0 && n[n.len() - 1] == 0x2f { n } else { n.push(0x2f) };
        law_first_of_a_name(before.archive, full, before.archive.entries.len());
        if let Some(k) = name_place(before.archive, full) {
            assert(before.archive.entries[k].name == full);
        }
    }
}

/// Setting the password changes it, and nothing else.
pub proof fn law_password_set(
    before: ZipView,
    after: ZipView,
    password: Option<&[u8]>,
    r: i32,
)
    requires
        exists|z: &mut Zip| #[trigger]
            call_ensures(zip_set_default_password, (Some(z), password), r) && z@ == before
                && final(z)@ == after,
    ensures
        match password {
            Some(p) => r == 0 && after == (ZipView { password: Some(p@), ..before }),
            None => r == -1 && refused(before, after, 18),
        },
{
}

/// Setting the encryption of an entry records it for that entry. It is refused
/// for an entry that there is not, and for a method other than none, the
/// traditional one and AES with 128, 192 or 256 bits.
pub proof fn law_encryption_recorded(
    before: ZipView,
    after: ZipView,
    index: u64,
    method: u16,
    r: i32,
)
    requires
        exists|z: &mut Zip| #[trigger]
            call_ensures(zip_file_set_encryption, (Some(z), index, method), r) && z@ == before
                && final(z)@ == after,
    ensures
        ({
            let there = index < before.archive.entries.len() + before.pending.adds.len();
            let fine = before.flags & 16 == 0 && there
                && (method == 0 || method == 1 || method == 0x101
                || method == 0x102 || method == 0x103);
            &&& r == (if fine { 0int } else { -1 })
            &&& fine ==> {
                &&& only_edits(before, after)
                &&& after.pending == (PendingView {
                    encryptions: after.pending.encryptions,
                    ..before.pending
                })
                &&& sets(before.pending.encryptions, after.pending.encryptions, index, method)
                &&& edits_wait(after.pending)
            }
            &&& !fine ==> refused(
                before,
                after,
                if before.flags & 16 != 0 { 25 } else if !there { 18 } else { 24 },
            )
        }),
{
    if r == 0 {
        lemma_sets(before.pending.encryptions, after.pending.encryptions, index, method);
    }
}

/// Setting the compression of an entry records it for that entry, with its level.
/// It is refused for an entry that there is not, and for a method other than the
/// default, stored and deflate.
pub proof fn law_compression_recorded(
    before: ZipView,
    after: ZipView,
    index: u64,
    method: i32,
    level: u32,
    r: i32,
)
    requires
        exists|z: &mut Zip| #[trigger]
            call_ensures(zip_set_file_compression, (Some(z), index, method, level), r)
                && z@ == before && final(z)@ == after,
    ensures
        ({
            let there = index < before.archive.entries.len() + before.pending.adds.len();
            let fine = before.flags & 16 == 0 && there
                && (method == -1 || method == 0 || method == 8);
            &&& r == (if fine { 0int } else { -1 })
            &&& fine ==> {
                &&& only_edits(before, after)
                &&& after.pending == (PendingView {
                    compressions: after.pending.compressions,
                    ..before.pending
                })
                &&& sets(before.pending.compressions, after.pending.compressions, index, (method,
                    level))
                &&& edits_wait(after.pending)
            }
            &&& !fine ==> refused(
                before,
                after,
                if before.flags & 16 != 0 { 25 } else if !there { 18 } else { 16 },
            )
        }),
{
    if r == 0 {
        lemma_sets(before.pending.compressions, after.pending.compressions, index, (method, level));
    }
}

/// Setting the modification time of an entry records it for that entry.
pub proof fn law_mtime_recorded(
    before: ZipView,
    after: ZipView,
    index: u64,
    mtime: i64,
    flags: u32,
    r: i32,
)
    requires
        exists|z: &mut Zip| #[trigger]
            call_ensures(zip_file_set_mtime, (Some(z), index, mtime, flags), r) && z@ == before
                && final(z)@ == after,
    ensures
        ({
            let there = index < before.archive.entries.len() + before.pending.adds.len();
            let fine = before.flags & 16 == 0 && there;
            &&& r == (if fine { 0int } else { -1 })
            &&& fine ==> {
                &&& only_edits(before, after)
                &&& after.pending == (PendingView {
                    mtimes: after.pending.mtimes,
                    ..before.pending
                })
                &&& sets(before.pending.mtimes, after.pending.mtimes, index, mtime)
                &&& edits_wait(after.pending)
            }
            &&& !fine ==> refused(
                before,
                after,
                if before.flags & 16 != 0 { 25 } else { 18 },
            )
        }),
{
    if r == 0 {
        lemma_sets(before.pending.mtimes, after.pending.mtimes, index, mtime);
    }
}

/// Setting the DOS time and date of an entry records them for that entry.
pub proof fn law_dostime_recorded(
    before: ZipView,
    after: ZipView,
    index: u64,
    dtime: u16,
    ddate: u16,
    flags: u32,
    r: i32,
)
    requires
        exists|z: &mut Zip| #[trigger]
            call_ensures(zip_file_set_dostime, (Some(z), index, dtime, ddate, flags), r)
                && z@ == before && final(z)@ == after,
    ensures
        ({
            let there = index < before.archive.entries.len() + before.pending.adds.len();
            let fine = before.flags & 16 == 0 && there;
            &&& r == (if fine { 0int } else { -1 })
            &&& fine ==> {
                &&& only_edits(before, after)
                &&& after.pending == (PendingView {
                    dostimes: after.pending.dostimes,
                    ..before.pending
                })
                &&& sets(before.pending.dostimes, after.pending.dostimes, index, (dtime, ddate))
                &&& edits_wait(after.pending)
            }
            &&& !fine ==> refused(
                before,
                after,
                if before.flags & 16 != 0 { 25 } else { 18 },
            )
        }),
{
    if r == 0 {
        lemma_sets(before.pending.dostimes, after.pending.dostimes, index, (dtime, ddate));
    }
}

/// Setting the host system and the attributes of an entry records them for that
/// entry.
pub proof fn law_attributes_recorded(
    before: ZipView,
    after: ZipView,
    index: u64,
    flags: u32,
    opsys: u8,
    attributes: u32,
    r: i32,
)
    requires
        exists|z: &mut Zip| #[trigger]
            call_ensures(zip_file_set_external_attributes, (Some(z), index, flags, opsys,
                attributes), r) && z@ == before && final(z)@ == after,
    ensures
        ({
            let there = index < before.archive.entries.len() + before.pending.adds.len();
            let fine = before.flags & 16 == 0 && there;
            &&& r == (if fine { 0int } else { -1 })
            &&& fine ==> {
                &&& only_edits(before, after)
                &&& after.pending == (PendingView {
                    ext_attrs: after.pending.ext_attrs,
                    ..before.pending
                })
                &&& sets(before.pending.ext_attrs, after.pending.ext_attrs, index, (opsys,
                    attributes))
                &&& edits_wait(after.pending)
            }
            &&& !fine ==> refused(
                before,
                after,
                if before.flags & 16 != 0 { 25 } else { 18 },
            )
        }),
{
    if r == 0 {
        lemma_sets(before.pending.ext_attrs, after.pending.ext_attrs, index, (opsys, attributes));
    }
}

/// The attributes that are got of an entry are those that were set last, or else
/// those on disk: the upper byte of the version that made it, and its external
/// attributes.
pub proof fn law_attributes_got(
    before: ZipView,
    after: ZipView,
    index: u64,
    flags: u32,
    o: (u8, u8),
    a: (u32, u32),
    r: i32,
)
    requires
        exists|z: &mut Zip, opsys: &mut u8, attributes: &mut u32| #[trigger]
            call_ensures(
                zip_file_get_external_attributes,
                (Some(z), index, flags, Some(opsys), Some(attributes)),
                r,
            ) && z@ == before && final(z)@ == after && (*opsys, *final(opsys)) == o && (
            *attributes,
            *final(attributes),
        ) == a,
    ensures
        ({
            let n = before.archive.entries.len();
            let there = index < n + before.pending.adds.len();
            let d = before.archive.entries[index as int];
            &&& there ==> after == before && exists|set: Option<(u8, u32)>| #[trigger]
                latest(before.pending.ext_attrs, index, set) && match set {
                    Some(x) => r == 0 && o.1 == x.0 && a.1 == x.1,
                    None => if index < n {
                        r == 0 && o.1 == (d.version_madeby >> 8) as u8 && a.1 == d.ext_attrib
                    } else {
                        r == -1 && o.1 == o.0 && a.1 == a.0
                    },
                }
            &&& !there ==> r == -1 && o.1 == o.0 && a.1 == a.0 && refused(before, after, 18)
        }),
{
    law_latest_counts(before.pending.ext_attrs, index);
    assert(latest(
        before.pending.ext_attrs,
        index,
        last_value(before.pending.ext_attrs, index),
    ));
}

/// Whether a comment is what a getter shows for a text: the text, if it is there,
/// not empty and without a NUL.
pub open spec fn shows(shown: Option<Seq<u8>>, text: Option<Seq<u8>>) -> bool {
    match text {
        Some(t) => if t.len() == 0 || t.contains(0u8) {
            shown is None
        } else {
            shown == Some(t)
        },
        None => shown is None,
    }
}

/// Whether the comment of an entry was set: it is recorded for that entry and
/// shown at once, and those of others are recorded and shown as before.
pub open spec fn comment_set(
    before: ZipView,
    after: ZipView,
    index: u64,
    text: Option<Seq<u8>>,
) -> bool {
    &&& after == (ZipView { pending: after.pending, comments: after.comments, ..before })
    &&& after.pending == (PendingView {
        file_comments: after.pending.file_comments,
        ..before.pending
    })
    &&& sets(before.pending.file_comments, after.pending.file_comments, index, text)
    &&& shows(after.comment_at(index), text)
    &&& forall|i: u64| i != index ==> #[trigger] after.comment_at(i) == before.comment_at(i)
    &&& edits_wait(after.pending)
}

proof fn lemma_comment_set(before: ZipView, index: u64, text: Option<Seq<u8>>)
    requires
        before.wf(),
    ensures
        comment_set(before, before.with_comment(index, text), index, text),
{
    let after = before.with_comment(index, text);
    lemma_comment_shown(before, index, text);
    lemma_sets(before.pending.file_comments, after.pending.file_comments, index, text);
}

/// Setting the comment of an entry sets it to the first bytes that were given,
/// and removes it where there are none. It is refused for an entry that there is
/// not, and where bytes should be given and are not.
pub proof fn law_comment_set(
    before: ZipView,
    after: ZipView,
    index: u64,
    comment: Option<&[u8]>,
    len: u16,
    flags: u32,
    r: i32,
)
    requires
        before.wf(),
        before.countable(),
        comment matches Some(c) ==> len <= c@.len(),
        exists|z: &mut Zip| #[trigger]
            call_ensures(zip_file_set_comment, (Some(z), index, comment, len, flags), r) && z@
                == before && final(z)@ == after,
    ensures
        ({
            let there = index < before.archive.entries.len() + before.pending.adds.len();
            let fine = before.flags & 16 == 0 && there && (comment is Some || len == 0);
            &&& r == (if fine { 0int } else { -1 })
            &&& fine ==> comment_set(
                before,
                after,
                index,
                if len == 0 { None } else { Some(comment->0@.take(len as int)) },
            )
            &&& !fine ==> refused(before, after, if before.flags & 16 != 0 { 25 } else { 18 })
        }),
{
    lemma_comment_set(
        before,
        index,
        if len == 0 { None } else { Some(comment->0@.take(len as int)) },
    );
}

/// By the older rules a negative length stands for all that was given, and a
/// missing comment removes the one there is.
pub proof fn law_old_comment_set(
    before: ZipView,
    after: ZipView,
    index: u64,
    comment: Option<&[u8]>,
    len: i32,
    r: i32,
)
    requires
        before.wf(),
        before.countable(),
        comment matches Some(c) ==> len <= c@.len(),
        exists|z: &mut Zip| #[trigger]
            call_ensures(zip_set_file_comment, (Some(z), index, comment, len), r) && z@ == before
                && final(z)@ == after,
    ensures
        ({
            let there = index < before.archive.entries.len() + before.pending.adds.len();
            let fine = before.flags & 16 == 0 && there;
            &&& r == (if fine { 0int } else { -1 })
            &&& fine ==> comment_set(
                before,
                after,
                index,
                match comment {
                    Some(c) => Some(if len < 0 { c@ } else { c@.take(len as int) }),
                    None => None,
                },
            )
            &&& !fine ==> refused(before, after, if before.flags & 16 != 0 { 25 } else { 18 })
        }),
{
    lemma_comment_set(
        before,
        index,
        match comment {
            Some(c) => Some(if len < 0 { c@ } else { c@.take(len as int) }),
            None => None,
        },
    );
}

/// Setting the archive comment sets it to the first bytes that were given, which
/// the getter shows with a closing NUL. It is refused where bytes should be given
/// and are not.
pub proof fn law_archive_comment_set(
    before: ZipView,
    after: ZipView,
    comment: Option<&[u8]>,
    len: u16,
    r: i32,
)
    requires
        comment matches Some(c) ==> len <= c@.len(),
        exists|z: &mut Zip| #[trigger]
            call_ensures(zip_set_archive_comment, (Some(z), comment, len), r) && z@ == before
                && final(z)@ == after,
    ensures
        ({
            let fine = before.flags & 16 == 0 && (comment is Some || len == 0);
            let text = match comment {
                Some(c) => c@.take(len as int),
                None => Seq::empty(),
            };
            &&& r == (if fine { 0int } else { -1 })
            &&& fine ==> {
                &&& after == (ZipView {
                    pending: PendingView { archive_comment: Some(text), ..before.pending },
                    archive_comment: if len == 0 { None } else { Some(text.push(0)) },
                    ..before
                })
                &&& edits_wait(after.pending)
            }
            &&& !fine ==> refused(before, after, if before.flags & 16 != 0 { 25 } else { 18 })
        }),
{
}

/// Taking back the edits of an entry takes back all of them and no other, and the
/// getters show the entry as it is on disk. One that was added is not added after
/// all. It is refused for an entry that there is not.
pub proof fn law_edits_taken_back(before: ZipView, after: ZipView, index: u64, r: i32)
    requires
        before.wf(),
        exists|z: &mut Zip| #[trigger]
            call_ensures(zip_unchange, (Some(z), index), r) && z@ == before && final(z)@ == after,
    ensures
        ({
            let n = before.archive.entries.len();
            let there = index < n + before.pending.adds.len();
            let b = before.pending;
            let a = after.pending;
            &&& r == (if there { 0int } else { -1 })
            &&& !there ==> refused(before, after, 18)
            &&& there ==> {
                &&& after == (ZipView {
                    pending: a,
                    comments: after.comments,
                    extra_fields: after.extra_fields,
                    ..before
                })
                &&& a.adds == (if index < n {
                    b.adds
                } else {
                    b.adds.take(index - n) + b.adds.skip(index - n + 1)
                })
                &&& forall|i: u64| #[trigger]
                    a.deletes.contains(i) <==> i != index && b.deletes.contains(i)
                &&& clears(b.renames, a.renames, index)
                &&& clears(b.replaces, a.replaces, index)
                &&& clears(b.encryptions, a.encryptions, index)
                &&& clears(b.file_comments, a.file_comments, index)
                &&& clears(b.dostimes, a.dostimes, index)
                &&& clears(b.mtimes, a.mtimes, index)
                &&& clears(b.ext_attrs, a.ext_attrs, index)
                &&& clears(b.compressions, a.compressions, index)
                &&& a.extra_field_ops == b.extra_field_ops.filter(
                    |p: (u64, OpView)| p.0 != index,
                )
                &&& a.archive_comment == b.archive_comment
                &&& index < n ==> shows(
                    after.comment_at(index),
                    Some(before.archive.entries[index as int].comment),
                )
                &&& index >= n ==> after.comment_at(index) is None
                &&& after.fields_at(index) == before.disk_fields(index)
                &&& forall|i: u64|
                    i != index ==> #[trigger] after.comment_at(i) == before.comment_at(i)
                &&& forall|i: u64|
                    i != index ==> #[trigger] after.fields_at(i) == before.fields_at(i)
            }
        }),
{
    if r == 0 {
        let b = before.pending;
        let n = before.archive.entries.len();
        lemma_unchanged_entry(before, index);
        lemma_clears(b.renames, index);
        lemma_clears(b.replaces, index);
        lemma_clears(b.encryptions, index);
        lemma_clears(b.file_comments, index);
        lemma_clears(b.dostimes, index);
        lemma_clears(b.mtimes, index);
        lemma_clears(b.ext_attrs, index);
        lemma_clears(b.compressions, index);
        assert forall|i: u64| #[trigger]
            after.pending.deletes.contains(i) <==> i != index && b.deletes.contains(i) by {
            lemma_drop_value(b.deletes, index, i);
        }
        if index >= n {
            assert(b.adds.remove(index - n) =~= b.adds.take(index - n) + b.adds.skip(
                index - n + 1,
            ));
        }
        lemma_without_filter(b.extra_field_ops, index);
    }
}

proof fn lemma_without_filter(s: Seq<(u64, OpView)>, index: u64)
    ensures
        without(s, index) == s.filter(|p: (u64, OpView)| p.0 != index),
    decreases s.len(),
{
    reveal(Seq::filter);
    if s.len() > 0 {
        lemma_without_filter(s.drop_last(), index);
    } else {
        assert(s =~= Seq::empty());
    }
}

/// Taking back all edits leaves none, and the getters show what is on disk; the
/// flags are those of opening.
pub proof fn law_all_edits_taken_back(before: ZipView, after: ZipView, r: i32)
    requires
        before.wf(),
        exists|z: &mut Zip| #[trigger]
            call_ensures(zip_unchange_all, (Some(z),), r) && z@ == before && final(z)@ == after,
    ensures
        r == 0,
        after == (ZipView {
            pending: after.pending,
            comments: after.comments,
            extra_fields: after.extra_fields,
            archive_comment: after.archive_comment,
            ch_afl: before.afl,
            ..before
        }),
        !edits_wait(after.pending),
        after.archive_comment == (if before.archive.comment.len() == 0 {
            None
        } else {
            Some(before.archive.comment.push(0))
        }),
        forall|i: u64|
            i < before.archive.entries.len() ==> {
                &&& shows(
                    #[trigger] after.comment_at(i),
                    Some(before.archive.entries[i as int].comment),
                )
                &&& after.fields_at(i) == before.disk_fields(i)
            },
{
}

/// Taking back the edits of the archive itself leaves the comment on disk and the
/// flags of opening, and the edits of entries as they are.
pub proof fn law_archive_edits_taken_back(before: ZipView, after: ZipView, r: i32)
    requires
        exists|z: &mut Zip| #[trigger]
            call_ensures(zip_unchange_archive, (Some(z),), r) && z@ == before && final(z)@
                == after,
    ensures
        r == 0,
        after == (ZipView {
            pending: PendingView { archive_comment: None, ..before.pending },
            archive_comment: if before.archive.comment.len() == 0 {
                None
            } else {
                Some(before.archive.comment.push(0))
            },
            ch_afl: before.afl,
            ..before
        }),
{
}

/// Setting an archive flag sets its bits or clears them, and no other bit. It is
/// refused for the flag that says what an archive is, for an archive that was
/// opened to be read only, and where an archive with edits is to become so; but
/// what changes nothing succeeds.
pub proof fn law_flag_set(before: ZipView, after: ZipView, flag: i32, value: i32, r: i32)
    requires
        exists|z: &mut Zip| #[trigger]
            call_ensures(zip_set_archive_flag, (Some(z), flag, value), r) && z@ == before
                && final(z)@ == after,
    ensures
        ({
            let same = if value != 0 {
                before.ch_afl & flag == flag
            } else {
                before.ch_afl & flag == 0
            };
            let late = flag == 2 && value != 0 && before.ch_afl & 2 == 0 && edits_wait(
                before.pending,
            );
            &&& flag == 4 ==> r == -1 && refused(before, after, 18)
            &&& flag != 4 && same ==> r == 0 && after == before
            &&& flag != 4 && !same && before.afl & 2 != 0 ==> r == -1 && refused(
                before,
                after,
                25,
            )
            &&& flag != 4 && !same && before.afl & 2 == 0 && late ==> r == -1 && refused(
                before,
                after,
                15,
            )
            &&& flag != 4 && !same && before.afl & 2 == 0 && !late ==> {
                &&& r == 0
                &&& after == (ZipView { ch_afl: after.ch_afl, ..before })
                &&& after.ch_afl & flag == (if value != 0 { flag } else { 0 })
                &&& after.ch_afl & !flag == before.ch_afl & !flag
            }
        }),
{
    lemma_edits_wait(before.pending);
    let c = before.ch_afl;
    assert(c & flag == flag <==> c | flag == c) by (bit_vector);
    assert(c & flag == 0 <==> c & !flag == c) by (bit_vector);
    assert((c | flag) & flag == flag) by (bit_vector);
    assert((c & !flag) & flag == 0) by (bit_vector);
    assert((c | flag) & !flag == c & !flag) by (bit_vector);
    assert((c & !flag) & !flag == c & !flag) by (bit_vector);
}

/// A flag that is got is set exactly if one of its bits is; those of opening
/// count where they are asked for.
pub proof fn law_flag_got(z: Zip, flag: i32, flags: u32, r: i32)
    requires
        call_ensures(zip_get_archive_flag, (Some(&z), flag, flags), r),
    ensures
        flags & 8 == 0 ==> r == (if z.ch_afl & flag != 0 { 1int } else { 0 }),
        flags & 8 != 0 ==> r == (if z.afl & flag != 0 { 1int } else { 0 }),
{
}

} // verus!
