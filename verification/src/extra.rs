//! Extra fields of entries and the operations on them.

use crate::consts::{
    ZIP_EF_WINZIP_AES, ZIP_EF_ZIP64, ZIP_EXTRA_FIELD_ALL, ZIP_EXTRA_FIELD_NEW,
};
use crate::stat::copy_bytes;
use vstd::prelude::*;

verus! {

/// An extra field.
#[derive(Debug)]
pub struct ExtraField {
    pub id: u16,
    pub data: Vec<u8>,
}

/// What an extra field holds: its identifier and its data.
pub type FieldView = (u16, Seq<u8>);

impl View for ExtraField {
    type V = FieldView;

    open spec fn view(&self) -> FieldView {
        (self.id, self.data@)
    }
}

/// What a list of extra fields holds.
pub open spec fn fields_view(fields: Seq<ExtraField>) -> Seq<FieldView> {
    fields.map_values(|f: ExtraField| f@)
}

/// A single change of the extra fields of an entry.
#[derive(Debug)]
pub enum ExtraFieldOp {
    /// Replaces the `ef_idx`-th field with `id`, or adds one if there is no such
    /// field or `ef_idx` is `ZIP_EXTRA_FIELD_NEW`.
    Put { id: u16, ef_idx: u16, data: Vec<u8> },
    /// Removes the `ef_idx`-th field, or all with `ZIP_EXTRA_FIELD_ALL`.
    Delete { ef_idx: u16 },
    /// Removes the `ef_idx`-th field with `id`, or all of these with
    /// `ZIP_EXTRA_FIELD_ALL`; with `ZIP_EXTRA_FIELD_ALL` as `id`, removes all
    /// fields.
    DeleteById { id: u16, ef_idx: u16 },
}

/// What a change of extra fields holds.
pub ghost enum OpView {
    Put { id: u16, ef_idx: u16, data: Seq<u8> },
    Delete { ef_idx: u16 },
    DeleteById { id: u16, ef_idx: u16 },
}

impl View for ExtraFieldOp {
    type V = OpView;

    open spec fn view(&self) -> OpView {
        match *self {
            ExtraFieldOp::Put { id, ef_idx, data } => OpView::Put { id, ef_idx, data: data@ },
            ExtraFieldOp::Delete { ef_idx } => OpView::Delete { ef_idx },
            ExtraFieldOp::DeleteById { id, ef_idx } => OpView::DeleteById { id, ef_idx },
        }
    }
}

/// The number of fields with `id`.
pub open spec fn count_id(fields: Seq<FieldView>, id: u16) -> nat
    decreases fields.len(),
{
    if fields.len() == 0 {
        0
    } else {
        count_id(fields.drop_last(), id) + (if fields.last().0 == id { 1nat } else { 0 })
    }
}

/// The place of the `n`-th field with `id`.
pub open spec fn nth_place(fields: Seq<FieldView>, id: u16, n: nat) -> Option<int>
    decreases fields.len(),
{
    if fields.len() == 0 {
        None
    } else {
        let before = fields.drop_last();
        match nth_place(before, id, n) {
            Some(k) => Some(k),
            None => if fields.last().0 == id && count_id(before, id) == n {
                Some(fields.len() - 1)
            } else {
                None
            },
        }
    }
}

/// The fields without those with `id`.
pub open spec fn drop_id(fields: Seq<FieldView>, id: u16) -> Seq<FieldView>
    decreases fields.len(),
{
    if fields.len() == 0 {
        Seq::empty()
    } else {
        let before = drop_id(fields.drop_last(), id);
        if fields.last().0 == id {
            before
        } else {
            before.push(fields.last())
        }
    }
}

/// The fields behind one change.
pub open spec fn apply_op(fields: Seq<FieldView>, op: OpView) -> Seq<FieldView> {
    match op {
        OpView::Delete { ef_idx } => if ef_idx == ZIP_EXTRA_FIELD_ALL {
            Seq::empty()
        } else if ef_idx < fields.len() {
            fields.remove(ef_idx as int)
        } else {
            fields
        },
        OpView::DeleteById { id, ef_idx } => if id == ZIP_EXTRA_FIELD_ALL {
            Seq::empty()
        } else if ef_idx == ZIP_EXTRA_FIELD_ALL {
            drop_id(fields, id)
        } else {
            match nth_place(fields, id, ef_idx as nat) {
                Some(k) => fields.remove(k),
                None => fields,
            }
        },
        OpView::Put { id, ef_idx, data } => match nth_place(fields, id, ef_idx as nat) {
            Some(k) if ef_idx != ZIP_EXTRA_FIELD_NEW => fields.update(k, (id, data)),
            _ => fields.push((id, data)),
        },
    }
}

/// The fields of entry `index` behind those of the recorded changes that are
/// for it.
pub open spec fn apply_ops(
    fields: Seq<FieldView>,
    ops: Seq<(u64, OpView)>,
    index: u64,
) -> Seq<FieldView>
    decreases ops.len(),
{
    if ops.len() == 0 {
        fields
    } else {
        let before = apply_ops(fields, ops.drop_last(), index);
        if ops.last().0 == index {
            apply_op(before, ops.last().1)
        } else {
            before
        }
    }
}

/// Whether a field is the user's, and not one that the writer manages.
pub open spec fn is_user_id(id: u16) -> bool {
    id != ZIP_EF_ZIP64 && id != ZIP_EF_WINZIP_AES
}

/// The fields that are the user's.
pub open spec fn user_fields(fields: Seq<FieldView>) -> Seq<FieldView> {
    drop_id(drop_id(fields, ZIP_EF_ZIP64), ZIP_EF_WINZIP_AES)
}

/// The places of fields with an identifier lie within the list, hold the
/// identifier, and exist exactly for the numbers below the count.
pub proof fn lemma_nth_place(fields: Seq<FieldView>, id: u16, n: nat)
    ensures
        nth_place(fields, id, n) is Some <==> n < count_id(fields, id),
        nth_place(fields, id, n) matches Some(k) ==> {
            &&& 0 <= k < fields.len()
            &&& fields[k].0 == id
            &&& count_id(fields.take(k), id) == n
        },
    decreases fields.len(),
{
    if fields.len() > 0 {
        let before = fields.drop_last();
        lemma_nth_place(before, id, n);
        if let Some(k) = nth_place(before, id, n) {
            assert(before.take(k) =~= fields.take(k));
        } else {
            assert(fields.take(fields.len() - 1) =~= before);
        }
    }
}

/// The number of fields with `id`.
pub fn count_fields(fields: &Vec<ExtraField>, id: u16) -> (r: usize)
    ensures
        r == count_id(fields_view(fields@), id),
{
    let ghost view = fields_view(fields@);
    let mut n: usize = 0;
    let mut i: usize = 0;
    assert(view.take(0) =~= Seq::empty());
    while i < fields.len()
        invariant
            i <= fields@.len(),
            n <= i,
            view == fields_view(fields@),
            n == count_id(view.take(i as int), id),
        decreases fields.len() - i,
    {
        assert(view.take(i + 1).drop_last() =~= view.take(i as int));
        if fields[i].id == id {
            n += 1;
        }
        i += 1;
    }
    assert(view.take(view.len() as int) =~= view);
    n
}

/// The place of the `n`-th field with `id`.
pub fn find_field(fields: &Vec<ExtraField>, id: u16, n: u16) -> (r: Option<usize>)
    ensures
        match nth_place(fields_view(fields@), id, n as nat) {
            Some(k) => r is Some && r->0 == k && k < fields@.len(),
            None => r is None,
        },
{
    let ghost view = fields_view(fields@);
    let mut seen: usize = 0;
    let mut i: usize = 0;
    assert(view.take(0) =~= Seq::empty());
    while i < fields.len()
        invariant
            i <= fields@.len(),
            seen <= i,
            seen <= n,
            view == fields_view(fields@),
            seen == count_id(view.take(i as int), id),
            nth_place(view.take(i as int), id, n as nat) is None,
        decreases fields.len() - i,
    {
        assert(view.take(i + 1).drop_last() =~= view.take(i as int));
        if fields[i].id == id {
            if seen == n as usize {
                proof {
                    lemma_nth_prefix(view, id, n as nat, i + 1);
                }
                return Some(i);
            }
            seen += 1;
        }
        i += 1;
    }
    assert(view.take(view.len() as int) =~= view);
    None
}

proof fn lemma_nth_prefix(fields: Seq<FieldView>, id: u16, n: nat, len: int)
    requires
        0 <= len <= fields.len(),
        nth_place(fields.take(len), id, n) is Some,
    ensures
        nth_place(fields, id, n) == nth_place(fields.take(len), id, n),
    decreases fields.len() - len,
{
    if len < fields.len() {
        assert(fields.take(len + 1).drop_last() =~= fields.take(len));
        lemma_nth_prefix(fields, id, n, len + 1);
    } else {
        assert(fields.take(len) =~= fields);
    }
}

/// A copy of a list of extra fields.
pub fn copy_fields(fields: &Vec<ExtraField>) -> (r: Vec<ExtraField>)
    ensures
        fields_view(r@) == fields_view(fields@),
{
    let mut out: Vec<ExtraField> = Vec::new();
    let mut i: usize = 0;
    while i < fields.len()
        invariant
            i <= fields@.len(),
            out@.len() == i,
            forall|j: int| 0 <= j < i ==> (#[trigger] out@[j])@ == fields@[j]@,
        decreases fields.len() - i,
    {
        out.push(ExtraField { id: fields[i].id, data: copy_bytes(&fields[i].data) });
        i += 1;
    }
    assert(fields_view(out@) =~= fields_view(fields@));
    out
}

/// Removes the fields with `id`.
pub fn remove_id(fields: &mut Vec<ExtraField>, id: u16)
    ensures
        fields_view(final(fields)@) == drop_id(fields_view(old(fields)@), id),
{
    let ghost before = fields_view(fields@);
    let ghost mut seen: int = 0;
    let mut i: usize = 0;
    assert(before.take(0) =~= Seq::empty());
    assert(fields_view(fields@) =~= drop_id(before.take(0), id) + before.skip(0));
    while i < fields.len()
        invariant
            0 <= seen <= before.len(),
            i <= fields@.len(),
            i == drop_id(before.take(seen), id).len(),
            fields_view(fields@) == drop_id(before.take(seen), id) + before.skip(seen),
        decreases before.len() - seen,
    {
        assert(fields_view(fields@).len() == fields@.len());
        assert(fields_view(fields@)[i as int] == before[seen]);
        assert(fields@[i as int]@ == before[seen]);
        assert(before.take(seen + 1).drop_last() =~= before.take(seen));
        if fields[i].id == id {
            let ghost held = fields@;
            fields.remove(i);
            assert(fields_view(fields@) =~= fields_view(held).remove(i as int));
            assert(fields_view(fields@) =~= drop_id(before.take(seen + 1), id) + before.skip(
                seen + 1,
            ));
        } else {
            i += 1;
            assert(fields_view(fields@) =~= drop_id(before.take(seen + 1), id) + before.skip(
                seen + 1,
            ));
        }
        proof {
            seen = seen + 1;
        }
    }
    assert(fields_view(fields@).len() == fields@.len());
    assert(before.take(seen) =~= before);
    assert(fields_view(fields@) =~= drop_id(before, id));
}

/// A copy of those fields that are the user's.
pub fn copy_user_fields(fields: &Vec<ExtraField>) -> (r: Vec<ExtraField>)
    ensures
        fields_view(r@) == user_fields(fields_view(fields@)),
{
    let mut out = copy_fields(fields);
    remove_id(&mut out, ZIP_EF_ZIP64);
    remove_id(&mut out, ZIP_EF_WINZIP_AES);
    out
}

/// Makes one change.
pub fn change_fields(fields: &mut Vec<ExtraField>, op: &ExtraFieldOp)
    ensures
        fields_view(final(fields)@) == apply_op(fields_view(old(fields)@), op@),
{
    let ghost held = fields@;
    match op {
        ExtraFieldOp::Delete { ef_idx } => {
            if *ef_idx == ZIP_EXTRA_FIELD_ALL {
                fields.clear();
                assert(fields_view(fields@) =~= Seq::empty());
            } else if (*ef_idx as usize) < fields.len() {
                fields.remove(*ef_idx as usize);
                assert(fields_view(fields@) =~= fields_view(held).remove(*ef_idx as int));
            }
        },
        ExtraFieldOp::DeleteById { id, ef_idx } => {
            if *id == ZIP_EXTRA_FIELD_ALL {
                fields.clear();
                assert(fields_view(fields@) =~= Seq::empty());
            } else if *ef_idx == ZIP_EXTRA_FIELD_ALL {
                remove_id(fields, *id);
            } else if let Some(k) = find_field(fields, *id, *ef_idx) {
                fields.remove(k);
                assert(fields_view(fields@) =~= fields_view(held).remove(k as int));
            }
        },
        ExtraFieldOp::Put { id, ef_idx, data } => {
            let field = ExtraField { id: *id, data: copy_bytes(data) };
            let ghost added = field@;
            if *ef_idx != ZIP_EXTRA_FIELD_NEW {
                if let Some(k) = find_field(fields, *id, *ef_idx) {
                    fields[k] = field;
                    assert(fields_view(fields@) =~= fields_view(held).update(k as int, added));
                    return ;
                }
            }
            fields.push(field);
            assert(fields_view(fields@) =~= fields_view(held).push(added));
        },
    }
}

/// What a list of recorded changes holds.
pub open spec fn ops_view(ops: Seq<(u64, ExtraFieldOp)>) -> Seq<(u64, OpView)> {
    ops.map_values(|p: (u64, ExtraFieldOp)| (p.0, p.1@))
}

/// Makes those of the recorded changes that are for entry `index`.
pub fn change_fields_of(
    fields: &mut Vec<ExtraField>,
    ops: &Vec<(u64, ExtraFieldOp)>,
    index: u64,
)
    ensures
        fields_view(final(fields)@) == apply_ops(
            fields_view(old(fields)@),
            ops_view(ops@),
            index,
        ),
{
    let ghost base = fields_view(fields@);
    let ghost view = ops_view(ops@);
    let mut i: usize = 0;
    assert(view.take(0) =~= Seq::empty());
    while i < ops.len()
        invariant
            i <= ops@.len(),
            view == ops_view(ops@),
            fields_view(fields@) == apply_ops(base, view.take(i as int), index),
        decreases ops.len() - i,
    {
        assert(view.take(i + 1).drop_last() =~= view.take(i as int));
        if ops[i].0 == index {
            change_fields(fields, &ops[i].1);
        }
        i += 1;
    }
    assert(view.take(view.len() as int) =~= view);
}

/// Changes that are not for an entry do not matter for it.
pub proof fn lemma_ops_without(
    fields: Seq<FieldView>,
    ops: Seq<(u64, OpView)>,
    dropped: u64,
    index: u64,
)
    ensures
        index != dropped ==> apply_ops(fields, crate::keyed::without(ops, dropped), index)
            == apply_ops(fields, ops, index),
        apply_ops(fields, crate::keyed::without(ops, dropped), dropped) == fields,
    decreases ops.len(),
{
    if ops.len() > 0 {
        lemma_ops_without(fields, ops.drop_last(), dropped, index);
        let rest = crate::keyed::without(ops.drop_last(), dropped);
        if ops.last().0 != dropped {
            assert(rest.push(ops.last()).drop_last() =~= rest);
        }
    }
}

} // verus!
