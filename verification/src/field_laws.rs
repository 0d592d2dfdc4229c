//! What holds of the extra fields of entries and of the changes made to them.

use crate::archive::{Zip, ZipView};
use crate::extra::{
    apply_op, apply_ops, count_id, drop_id, lemma_nth_place, nth_place, user_fields, FieldView,
    OpView,
};
use crate::metadata::{
    lemma_fields_shown, zip_file_extra_field_delete, zip_file_extra_field_delete_by_id,
    zip_file_extra_field_get, zip_file_extra_field_get_by_id, zip_file_extra_field_set,
    zip_file_extra_fields_count, zip_file_extra_fields_count_by_id,
};
use vstd::prelude::*;

verus! {

/// The fields with an identifier.
pub open spec fn with_id(id: u16) -> spec_fn(FieldView) -> bool {
    |f: FieldView| f.0 == id
}

/// The fields with another identifier.
pub open spec fn without_id(id: u16) -> spec_fn(FieldView) -> bool {
    |f: FieldView| f.0 != id
}

/// The fields that are the user's: all but those for large sizes and for AES
/// encryption.
pub open spec fn not_managed() -> spec_fn(FieldView) -> bool {
    |f: FieldView| f.0 != 0x0001 && f.0 != 0x9901
}

/// Whether a field is the `n`-th one with an identifier, counted from 0.
pub open spec fn is_nth(fields: Seq<FieldView>, id: u16, n: nat, k: int) -> bool {
    &&& 0 <= k < fields.len()
    &&& fields[k].0 == id
    &&& fields.take(k).filter(with_id(id)).len() == n
}

/// Whether a change of fields was made: what it names was removed, replaced or
/// added behind the others, and all else is as before and in the same order.
pub open spec fn op_applied(fields: Seq<FieldView>, op: OpView, after: Seq<FieldView>) -> bool {
    match op {
        OpView::Delete { ef_idx } => if ef_idx == 0xFFFF {
            after.len() == 0
        } else if ef_idx < fields.len() {
            after == fields.take(ef_idx as int) + fields.skip(ef_idx + 1)
        } else {
            after == fields
        },
        OpView::DeleteById { id, ef_idx } => if id == 0xFFFF {
            after.len() == 0
        } else if ef_idx == 0xFFFF {
            after == fields.filter(without_id(id))
        } else {
            &&& forall|k: int| #[trigger]
                is_nth(fields, id, ef_idx as nat, k) ==> after == fields.take(k) + fields.skip(
                    k + 1,
                )
            &&& (forall|k: int| !#[trigger] is_nth(fields, id, ef_idx as nat, k)) ==> after
                == fields
        },
        OpView::Put { id, ef_idx, data } => {
            &&& ef_idx != 0xFFFF ==> forall|k: int| #[trigger]
                is_nth(fields, id, ef_idx as nat, k) ==> after == fields.update(k, (id, data))
            &&& ef_idx == 0xFFFF || (forall|k: int| !#[trigger]
                is_nth(fields, id, ef_idx as nat, k)) ==> after == fields.push((id, data))
        },
    }
}

/// The number of fields with an identifier is that of those among them that
/// have it.
pub proof fn law_count_of_id(fields: Seq<FieldView>, id: u16)
    ensures
        count_id(fields, id) == fields.filter(with_id(id)).len(),
    decreases fields.len(),
{
    reveal(Seq::filter);
    if fields.len() > 0 {
        law_count_of_id(fields.drop_last(), id);
    }
}

proof fn lemma_drop_id(fields: Seq<FieldView>, id: u16)
    ensures
        drop_id(fields, id) == fields.filter(without_id(id)),
    decreases fields.len(),
{
    reveal(Seq::filter);
    if fields.len() > 0 {
        lemma_drop_id(fields.drop_last(), id);
    } else {
        assert(fields =~= Seq::empty());
    }
}

proof fn lemma_filter_twice(fields: Seq<FieldView>)
    ensures
        fields.filter(without_id(0x0001)).filter(without_id(0x9901)) == fields.filter(
            not_managed(),
        ),
    decreases fields.len(),
{
    reveal(Seq::filter);
    if fields.len() > 0 {
        let shorter = fields.drop_last();
        lemma_filter_twice(shorter);
        let rest = shorter.filter(without_id(0x0001));
        if fields.last().0 != 0x0001 {
            assert(rest.push(fields.last()).drop_last() =~= rest);
        }
    }
}

/// The user's fields are those with any identifier but the two that the writer
/// manages, in their order.
pub proof fn law_user_fields(fields: Seq<FieldView>)
    ensures
        user_fields(fields) == fields.filter(not_managed()),
{
    lemma_drop_id(fields, 0x0001);
    lemma_drop_id(drop_id(fields, 0x0001), 0x9901);
    lemma_filter_twice(fields);
}

/// There is at most one `n`-th field with an identifier, and one exactly if
/// there are more than `n` of them.
pub proof fn law_nth_field(fields: Seq<FieldView>, id: u16, n: nat)
    ensures
        match nth_place(fields, id, n) {
            Some(k) => is_nth(fields, id, n, k),
            None => forall|k: int| !#[trigger] is_nth(fields, id, n, k),
        },
        forall|k: int| #[trigger] is_nth(fields, id, n, k) ==> nth_place(fields, id, n) == Some(k),
        (exists|k: int| #[trigger] is_nth(fields, id, n, k)) <==> n < fields.filter(
            with_id(id),
        ).len(),
{
    lemma_nth_place(fields, id, n);
    law_count_of_id(fields, id);
    if let Some(k) = nth_place(fields, id, n) {
        law_count_of_id(fields.take(k), id);
        assert(is_nth(fields, id, n, k));
    }
    assert forall|k: int| #[trigger] is_nth(fields, id, n, k) implies nth_place(fields, id, n)
        == Some(k) by {
        law_count_of_id(fields.take(k), id);
        lemma_nth_is_found(fields, id, n, k);
    }
}

proof fn lemma_nth_is_found(fields: Seq<FieldView>, id: u16, n: nat, k: int)
    requires
        0 <= k < fields.len(),
        fields[k].0 == id,
        count_id(fields.take(k), id) == n,
    ensures
        nth_place(fields, id, n) == Some(k),
    decreases fields.len(),
{
    let before = fields.drop_last();
    if k < before.len() {
        assert(before.take(k) =~= fields.take(k));
        lemma_nth_is_found(before, id, n, k);
    } else {
        assert(fields.take(k) =~= before);
        lemma_nth_place(before, id, n);
    }
}

/// A change of fields removes, replaces or adds what it names, and touches
/// nothing else.
pub proof fn law_field_change(fields: Seq<FieldView>, op: OpView)
    ensures
        op_applied(fields, op, apply_op(fields, op)),
{
    match op {
        OpView::Delete { ef_idx } => {
            if ef_idx != 0xFFFF && ef_idx < fields.len() {
                assert(fields.remove(ef_idx as int) =~= fields.take(ef_idx as int) + fields.skip(
                    ef_idx + 1,
                ));
            }
        },
        OpView::DeleteById { id, ef_idx } => {
            lemma_drop_id(fields, id);
            law_nth_field(fields, id, ef_idx as nat);
            if let Some(k) = nth_place(fields, id, ef_idx as nat) {
                assert(fields.remove(k) =~= fields.take(k) + fields.skip(k + 1));
            }
        },
        OpView::Put { id, ef_idx, data } => {
            law_nth_field(fields, id, ef_idx as nat);
        },
    }
}

/// The fields that the getters show of an entry are those on disk that are the
/// user's, as long as no change was recorded.
pub proof fn law_disk_fields_are_shown(z: ZipView, i: u64)
    requires
        z.wf(),
        i < z.archive.entries.len(),
        forall|k: int|
            0 <= k < z.pending.extra_field_ops.len() ==> (#[trigger] z.pending.extra_field_ops[k]).0
                != i,
    ensures
        z.fields_at(i) == z.archive.entries[i as int].extra_fields.filter(not_managed()),
{
    law_user_fields(z.archive.entries[i as int].extra_fields);
    lemma_no_ops(z.disk_fields(i), z.pending.extra_field_ops, i);
    assert(z.fields_at(i) == z.effective_fields(i));
}

proof fn lemma_no_ops(fields: Seq<FieldView>, ops: Seq<(u64, OpView)>, i: u64)
    requires
        forall|k: int| 0 <= k < ops.len() ==> (#[trigger] ops[k]).0 != i,
    ensures
        apply_ops(fields, ops, i) == fields,
    decreases ops.len(),
{
    if ops.len() > 0 {
        assert(ops[ops.len() - 1].0 != i);
        assert forall|k: int| 0 <= k < ops.drop_last().len() implies (
        #[trigger] ops.drop_last()[k]).0 != i by {
            assert(ops[k].0 != i);
        }
        lemma_no_ops(fields, ops.drop_last(), i);
    }
}

/// What the getters count and give are the fields that are shown: their number,
/// the number of those with an identifier, and the data of the one that is
/// counted out, with its length.
pub proof fn law_fields_are_got(
    z: Zip,
    index: u64,
    id: u16,
    n: u16,
    flags: u32,
    all: i16,
    of_id: i16,
    got: Option<&Vec<u8>>,
    len_before: u16,
    len_after: u16,
)
    requires
        index < 0x0555_5555_5555_5555,
        call_ensures(zip_file_extra_fields_count, (Some(&z), index, flags), all),
        call_ensures(zip_file_extra_fields_count_by_id, (Some(&z), index, id, flags), of_id),
        exists|l: &mut u16| #[trigger]
            call_ensures(
                zip_file_extra_field_get_by_id,
                (Some(&z), index, id, n, Some(l), flags),
                got,
            ) && *l == len_before && *final(l) == len_after,
    ensures
        z@.fields_at(index).len() <= i16::MAX ==> all == z@.fields_at(index).len(),
        z@.fields_at(index).len() <= i16::MAX ==> of_id == z@.fields_at(index).filter(
            with_id(id),
        ).len(),
        got is Some <==> n < z@.fields_at(index).filter(with_id(id)).len(),
        got matches Some(data) ==> exists|k: int|
            {
                &&& #[trigger] is_nth(z@.fields_at(index), id, n as nat, k)
                &&& data@ == z@.fields_at(index)[k].1
                &&& data@.len() <= u16::MAX ==> len_after == data@.len()
            },
        got is None ==> len_after == len_before,
{
    let f = z@.fields_at(index);
    law_count_of_id(f, id);
    law_nth_field(f, id, n as nat);
    f.lemma_filter_len(with_id(id));
}

/// A field is also got by a number that is pointed to; without one it is the first.
pub proof fn law_field_is_got(
    z: Zip,
    index: u64,
    id: u16,
    n: (u16, u16),
    len: (u16, u16),
    flags: u32,
    got: Option<&Vec<u8>>,
    first: Option<&Vec<u8>>,
)
    requires
        exists|i: &mut u16, l: &mut u16|
            {
                &&& #[trigger] call_ensures(
                    zip_file_extra_field_get,
                    (Some(&z), index, id, Some(i), Some(l), flags),
                    got,
                )
                &&& (*i, *final(i)) == n
                &&& (*l, *final(l)) == len
            },
        call_ensures(
            zip_file_extra_field_get,
            (Some(&z), index, id, None::<&mut u16>, None::<&mut u16>, flags),
            first,
        ),
    ensures
        n.1 == n.0,
        got is Some <==> n.0 < z@.fields_at(index).filter(with_id(id)).len(),
        got matches Some(data) ==> exists|k: int|
            {
                &&& #[trigger] is_nth(z@.fields_at(index), id, n.0 as nat, k)
                &&& data@ == z@.fields_at(index)[k].1
                &&& data@.len() <= u16::MAX ==> len.1 == data@.len()
            },
        got is None ==> len.1 == len.0,
        first is Some <==> z@.fields_at(index).filter(with_id(id)).len() > 0,
        first matches Some(data) ==> exists|k: int| #[trigger]
            is_nth(z@.fields_at(index), id, 0, k) && data@ == z@.fields_at(index)[k].1,
{
    law_nth_field(z@.fields_at(index), id, n.0 as nat);
    law_nth_field(z@.fields_at(index), id, 0);
}

/// Setting a field records the change for the entry and shows it at once; the
/// fields of other entries stay. It is refused for an entry that there is not,
/// for the two managed identifiers, without bytes where there should be some,
/// and for a number beyond those there are.
pub proof fn law_field_set(
    before: ZipView,
    after: ZipView,
    index: u64,
    id: u16,
    ef_idx: u16,
    data: &[u8],
    len: u16,
    flags: u32,
    r: i32,
)
    requires
        before.wf(),
        before.countable(),
        len <= data@.len(),
        exists|z: &mut Zip| #[trigger]
            call_ensures(
                zip_file_extra_field_set,
                (Some(z), index, id, ef_idx, Some(data), len, flags),
                r,
            ) && z@ == before && final(z)@ == after,
    ensures
        ({
            let count = before.fields_at(index).filter(with_id(id)).len();
            let op = OpView::Put { id, ef_idx, data: data@.take(len as int) };
            let fine = {
                &&& before.flags & 16 == 0
                &&& index < before.archive.entries.len() + before.pending.adds.len()
                &&& id != 0x0001 && id != 0x9901
                &&& ef_idx == 0xFFFF || ef_idx <= count
            };
            &&& r == (if fine { 0int } else { -1 })
            &&& fine ==> {
                &&& op_applied(before.fields_at(index), op, after.fields_at(index))
                &&& forall|i: u64|
                    i != index ==> #[trigger] after.fields_at(i) == before.fields_at(i)
                &&& after.pending.extra_field_ops == before.pending.extra_field_ops.push(
                    (index, op),
                )
                &&& after.archive == before.archive
            }
            &&& !fine ==> {
                &&& after == (ZipView { error: after.error, ..before })
                &&& after.error.zip_err == (if before.flags & 16 != 0 { 25int } else { 18 })
            }
        }),
{
    let op = OpView::Put { id, ef_idx, data: data@.take(len as int) };
    law_count_of_id(before.fields_at(index), id);
    lemma_fields_shown(before, index, op);
    law_field_change(before.fields_at(index), op);
}

/// Deleting a field by its place, or all, records the change for the entry and
/// shows it at once; the fields of other entries stay. It is refused for an
/// entry or a place that there is not.
pub proof fn law_field_deleted(
    before: ZipView,
    after: ZipView,
    index: u64,
    ef_idx: u16,
    flags: u32,
    r: i32,
)
    requires
        before.wf(),
        before.countable(),
        exists|z: &mut Zip| #[trigger]
            call_ensures(zip_file_extra_field_delete, (Some(z), index, ef_idx, flags), r) && z@
                == before && final(z)@ == after,
    ensures
        ({
            let op = OpView::Delete { ef_idx };
            let there = index < before.archive.entries.len() + before.pending.adds.len();
            let fine = before.flags & 16 == 0 && there && (ef_idx == 0xFFFF || ef_idx
                < before.fields_at(index).len());
            &&& r == (if fine { 0int } else { -1 })
            &&& fine ==> {
                &&& op_applied(before.fields_at(index), op, after.fields_at(index))
                &&& forall|i: u64|
                    i != index ==> #[trigger] after.fields_at(i) == before.fields_at(i)
                &&& after.pending.extra_field_ops == before.pending.extra_field_ops.push(
                    (index, op),
                )
                &&& after.archive == before.archive
            }
            &&& !fine ==> {
                &&& after == (ZipView { error: after.error, ..before })
                &&& after.error.zip_err == (if before.flags & 16 != 0 {
                    25int
                } else if !there {
                    18
                } else {
                    9
                })
            }
        }),
{
    let op = OpView::Delete { ef_idx };
    lemma_fields_shown(before, index, op);
    law_field_change(before.fields_at(index), op);
}

/// Deleting the fields with an identifier, or one of them, records the change
/// for the entry and shows it at once; the fields of other entries stay. It is
/// refused for an entry or a number that there is not.
pub proof fn law_field_deleted_by_id(
    before: ZipView,
    after: ZipView,
    index: u64,
    id: u16,
    ef_idx: u16,
    flags: u32,
    r: i32,
)
    requires
        before.wf(),
        before.countable(),
        exists|z: &mut Zip| #[trigger]
            call_ensures(
                zip_file_extra_field_delete_by_id,
                (Some(z), index, id, ef_idx, flags),
                r,
            ) && z@ == before && final(z)@ == after,
    ensures
        ({
            let op = OpView::DeleteById { id, ef_idx };
            let there = index < before.archive.entries.len() + before.pending.adds.len();
            let fine = before.flags & 16 == 0 && there && (id == 0xFFFF || ef_idx == 0xFFFF
                || ef_idx < before.fields_at(index).filter(with_id(id)).len());
            &&& r == (if fine { 0int } else { -1 })
            &&& fine ==> {
                &&& op_applied(before.fields_at(index), op, after.fields_at(index))
                &&& forall|i: u64|
                    i != index ==> #[trigger] after.fields_at(i) == before.fields_at(i)
                &&& after.pending.extra_field_ops == before.pending.extra_field_ops.push(
                    (index, op),
                )
                &&& after.archive == before.archive
            }
            &&& !fine ==> {
                &&& after == (ZipView { error: after.error, ..before })
                &&& after.error.zip_err == (if before.flags & 16 != 0 {
                    25int
                } else if !there {
                    18
                } else {
                    9
                })
            }
        }),
{
    let op = OpView::DeleteById { id, ef_idx };
    law_count_of_id(before.fields_at(index), id);
    lemma_fields_shown(before, index, op);
    law_field_change(before.fields_at(index), op);
}

} // verus!
