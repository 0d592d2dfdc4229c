//! Comments, extra fields, times, attributes and compression of entries, and
//! the archive comment: edits and getters. The getters show the edits at once.
//!
//! A handle is an optional reference; a missing one is the null handle.

use crate::archive::{
    field_lists_view, lemma_wf_same, shown_archive_comment, shown_comment, texts_view,
    to_shown_archive_comment, to_shown_comment, Zip, ZipView,
};
use crate::consts::{
    ZIP_CM_BZIP2, ZIP_CM_DEFAULT, ZIP_CM_DEFLATE, ZIP_CM_STORE, ZIP_EF_WINZIP_AES, ZIP_EF_ZIP64,
    ZIP_ER_COMPNOTSUPP, ZIP_ER_INVAL, ZIP_ER_NOENT, ZIP_ER_RDONLY, ZIP_EXTRA_FIELD_ALL,
    ZIP_EXTRA_FIELD_NEW,
};
use crate::extra::{
    apply_op, apply_ops, count_fields, count_id, fields_view, find_field, is_user_id,
    lemma_nth_place, nth_place, ops_view, ExtraField, ExtraFieldOp, FieldView, OpView,
};
use crate::keyed::{lemma_replaced, lemma_without_map, remove_all, replaced};
use crate::pending::{comments_view, PendingView};
use crate::stat::bytes_view;
use vstd::prelude::*;
use vstd::slice::{slice_subrange, slice_to_vec};

verus! {

/// A list with `value` at `index`; it is extended with `pad` where it is too
/// short.
pub open spec fn put_at<T>(s: Seq<T>, index: int, value: T, pad: T) -> Seq<T> {
    if index < s.len() {
        s.update(index, value)
    } else {
        (s + Seq::new((index - s.len()) as nat, |i: int| pad)).push(value)
    }
}

impl ZipView {
    /// The archive with a new comment for an entry, which the getter shows.
    pub open spec fn with_comment(self, index: u64, comment: Option<Seq<u8>>) -> ZipView {
        ZipView {
            comments: put_at(self.comments, index as int, shown_comment(comment), None),
            pending: PendingView {
                file_comments: replaced(self.pending.file_comments, index, comment),
                ..self.pending
            },
            ..self
        }
    }

    /// The archive with one more change of the extra fields of an entry, which
    /// the getters show.
    pub open spec fn with_field_op(self, index: u64, op: OpView) -> ZipView {
        let pending = PendingView {
            extra_field_ops: self.pending.extra_field_ops.push((index, op)),
            ..self.pending
        };
        ZipView {
            extra_fields: put_at(
                self.extra_fields,
                index as int,
                apply_op(self.effective_fields(index), op),
                Seq::empty(),
            ),
            pending,
            ..self
        }
    }

    /// The archive with a new archive comment, which the getter shows.
    pub open spec fn with_archive_comment(self, comment: Seq<u8>) -> ZipView {
        ZipView {
            archive_comment: shown_archive_comment(comment),
            pending: PendingView { archive_comment: Some(comment), ..self.pending },
            ..self
        }
    }
}

/// A new comment is what the getter shows; the others are shown as before.
pub proof fn lemma_comment_shown(z: ZipView, index: u64, comment: Option<Seq<u8>>)
    requires
        z.wf(),
    ensures
        z.with_comment(index, comment).wf(),
        z.with_comment(index, comment).comment_at(index) == shown_comment(comment),
        forall|i: u64| i != index ==> #[trigger] z.with_comment(index, comment).comment_at(i)
            == z.comment_at(i),
{
    let n = z.with_comment(index, comment);
    assert forall|i: u64| #[trigger]
        n.comment_at(i) == shown_comment(n.effective_comment(i)) by {
        lemma_replaced(z.pending.file_comments, index, comment, i);
        assert(z.comment_at(i) == shown_comment(z.effective_comment(i)));
    }
    assert forall|i: u64| #[trigger] n.fields_at(i) == n.effective_fields(i) by {
        assert(z.fields_at(i) == z.effective_fields(i));
    }
}

proof fn lemma_ops_push(
    fields: Seq<FieldView>,
    ops: Seq<(u64, OpView)>,
    index: u64,
    op: OpView,
    i: u64,
)
    ensures
        apply_ops(fields, ops.push((index, op)), i) == (if i == index {
            apply_op(apply_ops(fields, ops, i), op)
        } else {
            apply_ops(fields, ops, i)
        }),
{
    assert(ops.push((index, op)).drop_last() =~= ops);
}

/// A change of extra fields shows in the getters at once; the fields of other
/// entries are shown as before.
pub proof fn lemma_fields_shown(z: ZipView, index: u64, op: OpView)
    requires
        z.wf(),
    ensures
        z.with_field_op(index, op).wf(),
        z.with_field_op(index, op).fields_at(index) == apply_op(z.fields_at(index), op),
        forall|i: u64| i != index ==> #[trigger] z.with_field_op(index, op).fields_at(i)
            == z.fields_at(i),
{
    let n = z.with_field_op(index, op);
    assert(z.fields_at(index) == z.effective_fields(index));
    assert forall|i: u64| #[trigger] n.fields_at(i) == n.effective_fields(i) by {
        assert(z.fields_at(i) == z.effective_fields(i));
        lemma_ops_push(z.disk_fields(i), z.pending.extra_field_ops, index, op, i);
    }
    assert forall|i: u64| #[trigger]
        n.comment_at(i) == shown_comment(n.effective_comment(i)) by {
        assert(z.comment_at(i) == shown_comment(z.effective_comment(i)));
    }
}

/// A new archive comment is what the getter shows.
pub proof fn lemma_archive_comment_shown(z: ZipView, comment: Seq<u8>)
    requires
        z.wf(),
    ensures
        z.with_archive_comment(comment).wf(),
        z.with_archive_comment(comment).archive_comment == shown_archive_comment(comment),
{
    let n = z.with_archive_comment(comment);
    assert forall|i: u64| #[trigger]
        n.comment_at(i) == shown_comment(n.effective_comment(i)) by {
        assert(z.comment_at(i) == shown_comment(z.effective_comment(i)));
    }
    assert forall|i: u64| #[trigger] n.fields_at(i) == n.effective_fields(i) by {
        assert(z.fields_at(i) == z.effective_fields(i));
    }
}

impl Zip {
    /// Shows `value` as the comment of an entry.
    fn show_comment(&mut self, index: usize, value: Option<Vec<u8>>)
        ensures
            final(self)@ == (ZipView {
                comments: put_at(old(self)@.comments, index as int, bytes_view(value), None),
                ..old(self)@
            }),
    {
        let ghost before = texts_view(self.comments@);
        if index < self.comments.len() {
            self.comments[index] = value;
        } else {
            while self.comments.len() < index
                invariant
                    before.len() <= self.comments@.len() <= index,
                    texts_view(self.comments@) == before + Seq::new(
                        (self.comments@.len() - before.len()) as nat,
                        |i: int| None::<Seq<u8>>,
                    ),
                    (ZipView { comments: before, ..self@ }) == old(self)@,
                decreases index - self.comments.len(),
            {
                let ghost held = self.comments@;
                self.comments.push(None);
                assert(texts_view(self.comments@) =~= texts_view(held).push(None));
                assert(texts_view(self.comments@) =~= before + Seq::new(
                    (self.comments@.len() - before.len()) as nat,
                    |i: int| None::<Seq<u8>>,
                ));
            }
            self.comments.push(value);
        }
        assert(texts_view(self.comments@) =~= put_at(
            before,
            index as int,
            bytes_view(value),
            None,
        ));
    }

    /// Shows `value` as the extra fields of an entry.
    fn show_fields(&mut self, index: usize, value: Vec<ExtraField>)
        ensures
            final(self)@ == (ZipView {
                extra_fields: put_at(
                    old(self)@.extra_fields,
                    index as int,
                    fields_view(value@),
                    Seq::empty(),
                ),
                ..old(self)@
            }),
    {
        let ghost before = field_lists_view(self.extra_fields@);
        if index < self.extra_fields.len() {
            self.extra_fields[index] = value;
        } else {
            while self.extra_fields.len() < index
                invariant
                    before.len() <= self.extra_fields@.len() <= index,
                    field_lists_view(self.extra_fields@) == before + Seq::new(
                        (self.extra_fields@.len() - before.len()) as nat,
                        |i: int| Seq::<FieldView>::empty(),
                    ),
                    (ZipView { extra_fields: before, ..self@ }) == old(self)@,
                decreases index - self.extra_fields.len(),
            {
                let none: Vec<ExtraField> = Vec::new();
                assert(fields_view(none@) =~= Seq::empty());
                let ghost held = self.extra_fields@;
                self.extra_fields.push(none);
                assert(field_lists_view(self.extra_fields@) =~= field_lists_view(held).push(
                    Seq::empty(),
                ));
                assert(field_lists_view(self.extra_fields@) =~= before + Seq::new(
                    (self.extra_fields@.len() - before.len()) as nat,
                    |i: int| Seq::<FieldView>::empty(),
                ));
            }
            self.extra_fields.push(value);
        }
        assert(field_lists_view(self.extra_fields@) =~= put_at(
            before,
            index as int,
            fields_view(value@),
            Seq::empty(),
        ));
    }

    /// Shows the extra fields of an entry with the edits.
    pub fn refresh_extra_fields(&mut self, index: u64)
        requires
            index <= usize::MAX,
        ensures
            final(self)@ == (ZipView {
                extra_fields: put_at(
                    old(self)@.extra_fields,
                    index as int,
                    old(self)@.effective_fields(index),
                    Seq::empty(),
                ),
                ..old(self)@
            }),
    {
        let fields = self.effective_extra_fields(index);
        self.show_fields(index as usize, fields);
    }

    /// Records a change of extra fields and shows it.
    fn put_field_op(&mut self, index: u64, op: ExtraFieldOp)
        requires
            index <= usize::MAX,
        ensures
            final(self)@ == old(self)@.with_field_op(index, op@),
            old(self)@.wf() ==> final(self)@.wf(),
    {
        let ghost before = self@;
        let ghost ops = self.pending.extra_field_ops@;
        let ghost added = op@;
        self.pending.extra_field_ops.push((index, op));
        assert(ops_view(self.pending.extra_field_ops@) =~= ops_view(ops).push((index, added)));
        proof {
            lemma_ops_push(
                before.disk_fields(index),
                before.pending.extra_field_ops,
                index,
                added,
                index,
            );
            if before.wf() {
                lemma_fields_shown(before, index, added);
            }
        }
        self.refresh_extra_fields(index);
    }

    /// Records a new comment of an entry and shows it.
    fn set_file_comment_pending(&mut self, index: u64, bytes: Option<Vec<u8>>)
        requires
            index <= usize::MAX,
        ensures
            final(self)@ == old(self)@.with_comment(index, bytes_view(bytes)),
            old(self)@.wf() ==> final(self)@.wf(),
    {
        let ghost before = self@;
        let ghost list = self.pending.file_comments@;
        let ghost comment = bytes_view(bytes);
        proof {
            lemma_without_map(
                list,
                |p: (u64, Option<Vec<u8>>)| (p.0, bytes_view(p.1)),
                index,
            );
            if before.wf() {
                lemma_comment_shown(before, index, comment);
            }
        }
        let shown = match &bytes {
            None => None,
            Some(b) => to_shown_comment(b),
        };
        remove_all(&mut self.pending.file_comments, index);
        let ghost rest = self.pending.file_comments@;
        self.pending.file_comments.push((index, bytes));
        assert(comments_view(self.pending.file_comments@) =~= comments_view(rest).push(
            (index, comment),
        ));
        self.show_comment(index as usize, shown);
    }

    /// The extra fields that the getters show.
    fn shown_fields_at(&self, index: u64) -> (r: Option<&Vec<ExtraField>>)
        ensures
            self@.fields_at(index) == (match r {
                Some(f) => fields_view(f@),
                None => Seq::empty(),
            }),
    {
        if index < self.extra_fields.len() as u64 {
            Some(&self.extra_fields[index as usize])
        } else {
            None
        }
    }
}

/// The first `len` bytes that were given.
pub open spec fn given(bytes: Option<&[u8]>, len: int) -> Seq<u8> {
    match bytes {
        Some(b) => b@.take(len),
        None => Seq::empty(),
    }
}

/// A copy of the first `len` bytes that were given.
fn take_given(bytes: Option<&[u8]>, len: usize) -> (r: Vec<u8>)
    requires
        bytes matches Some(b) ==> len <= b@.len(),
    ensures
        r@ == given(bytes, len as int),
{
    match bytes {
        Some(b) => {
            let r = slice_to_vec(slice_subrange(b, 0, len));
            assert(r@ =~= b@.take(len as int));
            r
        },
        None => Vec::new(),
    }
}

/// Setting the archive comment: the archive behind it, and the result.
pub open spec fn archive_comment_outcome(z: ZipView, comment: Option<&[u8]>, len: u16) -> (
    ZipView,
    int,
) {
    if z.read_only() {
        (z.failed(ZIP_ER_RDONLY), -1)
    } else if comment is None && len > 0 {
        (z.failed(ZIP_ER_INVAL), -1)
    } else {
        (z.with_archive_comment(given(comment, len as int)), 0)
    }
}

/// Sets the archive comment to the first `len` bytes of `comment`; no bytes
/// remove it. Gives 0 or -1.
pub fn zip_set_archive_comment(zh: Option<&mut Zip>, comment: Option<&[u8]>, len: u16) -> (r: i32)
    requires
        comment matches Some(c) ==> len <= c@.len(),
    ensures
        zh is None ==> r == -1,
        zh matches Some(z) ==> {
            &&& z@.wf() ==> final(z)@.wf()
            &&& (final(z)@, r as int) == archive_comment_outcome(z@, comment, len)
        },
{
    match zh {
        None => -1,
        Some(z) => {
            if !z.check_writable() {
                return -1;
            }
            if comment.is_none() && len > 0 {
                return z.fail(ZIP_ER_INVAL);
            }
            let bytes = take_given(comment, len as usize);
            proof {
                if z@.wf() {
                    lemma_archive_comment_shown(z@, bytes@);
                }
            }
            z.archive_comment = to_shown_archive_comment(&bytes);
            z.pending.archive_comment = Some(bytes);
            0
        },
    }
}

/// Setting the comment of an entry: the archive behind it, and the result.
pub open spec fn comment_outcome(z: ZipView, index: u64, comment: Option<&[u8]>, len: u16) -> (
    ZipView,
    int,
) {
    if z.read_only() {
        (z.failed(ZIP_ER_RDONLY), -1)
    } else if index >= z.total() || (comment is None && len > 0) {
        (z.failed(ZIP_ER_INVAL), -1)
    } else if len == 0 {
        (z.with_comment(index, None), 0)
    } else {
        (z.with_comment(index, Some(given(comment, len as int))), 0)
    }
}

/// Sets the comment of an entry to the first `len` bytes of `comment`; no bytes
/// remove it. Gives 0 or -1. The flags have no effect.
pub fn zip_file_set_comment(
    zh: Option<&mut Zip>,
    index: u64,
    comment: Option<&[u8]>,
    len: u16,
    _flags: u32,
) -> (r: i32)
    requires
        comment matches Some(c) ==> len <= c@.len(),
        zh matches Some(z) ==> z@.countable(),
    ensures
        zh is None ==> r == -1,
        zh matches Some(z) ==> {
            &&& z@.wf() ==> final(z)@.wf()
            &&& (final(z)@, r as int) == comment_outcome(z@, index, comment, len)
        },
{
    match zh {
        None => -1,
        Some(z) => {
            if !z.check_writable() {
                return -1;
            }
            if !z.valid_index(index) {
                return z.fail(ZIP_ER_INVAL);
            }
            if comment.is_none() && len > 0 {
                return z.fail(ZIP_ER_INVAL);
            }
            let bytes = if len == 0 {
                None
            } else {
                Some(take_given(comment, len as usize))
            };
            z.set_file_comment_pending(index, bytes);
            0
        },
    }
}

/// Setting the comment of an entry by the older rules: the archive behind it,
/// and the result. A negative length stands for all that was given.
pub open spec fn old_comment_outcome(
    z: ZipView,
    index: u64,
    comment: Option<&[u8]>,
    len: i32,
) -> (ZipView, int) {
    if z.read_only() {
        (z.failed(ZIP_ER_RDONLY), -1)
    } else if index >= z.total() {
        (z.failed(ZIP_ER_INVAL), -1)
    } else {
        match comment {
            None => (z.with_comment(index, None), 0),
            Some(c) => (
                z.with_comment(index, Some(if len < 0 { c@ } else { c@.take(len as int) })),
                0,
            ),
        }
    }
}

/// Sets the comment of an entry to the first `len` bytes of `comment`, or to
/// all of them with a negative length; without a comment it is removed. Gives
/// 0 or -1.
pub fn zip_set_file_comment(zh: Option<&mut Zip>, index: u64, comment: Option<&[u8]>, len: i32) ->
    (r: i32)
    requires
        comment matches Some(c) ==> len <= c@.len(),
        zh matches Some(z) ==> z@.countable(),
    ensures
        zh is None ==> r == -1,
        zh matches Some(z) ==> {
            &&& z@.wf() ==> final(z)@.wf()
            &&& (final(z)@, r as int) == old_comment_outcome(z@, index, comment, len)
        },
{
    match zh {
        None => -1,
        Some(z) => {
            if !z.check_writable() {
                return -1;
            }
            if !z.valid_index(index) {
                return z.fail(ZIP_ER_INVAL);
            }
            let bytes = match comment {
                None => None,
                Some(c) => if len < 0 {
                    Some(slice_to_vec(c))
                } else {
                    Some(take_given(comment, len as usize))
                },
            };
            z.set_file_comment_pending(index, bytes);
            0
        },
    }
}

/// The archive comment with a closing NUL, where there is one. Its length
/// without the NUL is stored, 0 if there is none. The flags have no effect.
pub fn zip_get_archive_comment<'a>(zh: Option<&'a Zip>, lenp: Option<&mut i32>, _flags: u32) -> (r:
    Option<&'a Vec<u8>>)
    ensures
        zh is None ==> r is None && (lenp matches Some(l) ==> *final(l) == *l),
        zh matches Some(z) ==> {
            &&& match z@.archive_comment {
                Some(c) => r is Some && r->0@ == c,
                None => r is None,
            }
            &&& lenp matches Some(l) ==> *final(l) == (match z@.archive_comment {
                Some(c) => if c.len() == 0 { 0 } else { (c.len() - 1) as i32 },
                None => 0,
            })
        },
{
    match zh {
        None => None,
        Some(z) => {
            let (r, n): (Option<&'a Vec<u8>>, usize) = match &z.archive_comment {
                Some(c) => (Some(c), if c.len() == 0 { 0 } else { c.len() - 1 }),
                None => (None, 0),
            };
            if let Some(l) = lenp {
                *l = n as i32;
            }
            r
        },
    }
}

/// The comment of an entry as a C string, where there is one. Its length is
/// stored, 0 if there is none. The flags have no effect.
pub fn zip_file_get_comment<'a>(
    zh: Option<&'a Zip>,
    index: u64,
    lenp: Option<&mut i32>,
    _flags: u32,
) -> (r: Option<&'a Vec<u8>>)
    ensures
        zh is None ==> r is None && (lenp matches Some(l) ==> *final(l) == *l),
        zh matches Some(z) ==> {
            &&& match z@.comment_at(index) {
                Some(c) => r is Some && r->0@ == c,
                None => r is None,
            }
            &&& lenp matches Some(l) ==> *final(l) == (match z@.comment_at(index) {
                Some(c) => c.len() as i32,
                None => 0,
            })
        },
{
    match zh {
        None => None,
        Some(z) => {
            let mut r: Option<&'a Vec<u8>> = None;
            let mut n: usize = 0;
            if index < z.comments.len() as u64 {
                if let Some(c) = &z.comments[index as usize] {
                    r = Some(c);
                    n = c.len();
                }
            }
            if let Some(l) = lenp {
                *l = n as i32;
            }
            r
        },
    }
}

/// The comment of an entry, under its older name.
pub fn zip_get_file_comment<'a>(
    zh: Option<&'a Zip>,
    index: u64,
    lenp: Option<&mut i32>,
    flags: u32,
) -> (r: Option<&'a Vec<u8>>)
    ensures
        zh is None ==> r is None && (lenp matches Some(l) ==> *final(l) == *l),
        zh matches Some(z) ==> {
            &&& match z@.comment_at(index) {
                Some(c) => r is Some && r->0@ == c,
                None => r is None,
            }
            &&& lenp matches Some(l) ==> *final(l) == (match z@.comment_at(index) {
                Some(c) => c.len() as i32,
                None => 0,
            })
        },
{
    zip_file_get_comment(zh, index, lenp, flags)
}

/// The size of a list of extra fields, as it is held in memory by a machine with
/// 64-bit addresses: an address, a capacity and a length.
pub const FIELD_LIST_SIZE: u64 = 24;

/// From this index on no place for extra fields can be kept in memory: a list of
/// such lists cannot take more than `i64::MAX` bytes.
pub const FIELD_SLOTS: u64 = 0x7fff_ffff_ffff_ffff / FIELD_LIST_SIZE;

/// Number of extra fields of an entry, or -1. The flags have no effect.
pub fn zip_file_extra_fields_count(zh: Option<&Zip>, index: u64, _flags: u32) -> (r: i16)
    ensures
        zh is None ==> r == -1,
        zh matches Some(z) ==> r == (if index >= FIELD_SLOTS {
            (-1) as i16
        } else {
            z@.fields_at(index).len() as i16
        }),
{
    match zh {
        None => -1,
        Some(z) => {
            if index >= FIELD_SLOTS {
                return -1;
            }
            match z.shown_fields_at(index) {
                Some(f) => f.len() as i16,
                None => 0,
            }
        },
    }
}

/// Number of extra fields of an entry with `id`, or -1. The flags have no
/// effect.
pub fn zip_file_extra_fields_count_by_id(zh: Option<&Zip>, index: u64, id: u16, _flags: u32) -> (r:
    i16)
    ensures
        zh is None ==> r == -1,
        zh matches Some(z) ==> r == (if index >= FIELD_SLOTS {
            (-1) as i16
        } else {
            count_id(z@.fields_at(index), id) as i16
        }),
{
    match zh {
        None => -1,
        Some(z) => {
            if index >= FIELD_SLOTS {
                return -1;
            }
            match z.shown_fields_at(index) {
                Some(f) => count_fields(f, id) as i16,
                None => 0,
            }
        },
    }
}

/// The data of the `n`-th extra field of an entry with `id`.
pub open spec fn field_data(z: ZipView, index: u64, id: u16, n: u16) -> Option<Seq<u8>> {
    match nth_place(z.fields_at(index), id, n as nat) {
        Some(k) => Some(z.fields_at(index)[k].1),
        None => None,
    }
}

/// The data of the `idx`-th extra field of an entry with `id`, where there is
/// one; then its length is stored. The flags have no effect.
pub fn zip_file_extra_field_get_by_id<'a>(
    zh: Option<&'a Zip>,
    index: u64,
    id: u16,
    idx: u16,
    lenp: Option<&mut u16>,
    _flags: u32,
) -> (r: Option<&'a Vec<u8>>)
    ensures
        zh is None ==> r is None && (lenp matches Some(l) ==> *final(l) == *l),
        zh matches Some(z) ==> match field_data(z@, index, id, idx) {
            Some(data) => {
                &&& r is Some
                &&& r->0@ == data
                &&& lenp matches Some(l) ==> *final(l) == data.len() as u16
            },
            None => r is None && (lenp matches Some(l) ==> *final(l) == *l),
        },
{
    match zh {
        None => None,
        Some(z) => {
            proof {
                lemma_nth_place(z@.fields_at(index), id, idx as nat);
            }
            match z.shown_fields_at(index) {
                None => None,
                Some(f) => match find_field(f, id, idx) {
                    None => None,
                    Some(k) => {
                        let data = &f[k].data;
                        if let Some(l) = lenp {
                            *l = data.len() as u16;
                        }
                        Some(data)
                    },
                },
            }
        },
    }
}

/// The data of the extra field of an entry with `id` that `idxp` counts out,
/// the first without `idxp`, where there is one; then its length is stored.
/// The flags have no effect.
pub fn zip_file_extra_field_get<'a>(
    zh: Option<&'a Zip>,
    index: u64,
    id: u16,
    idxp: Option<&mut u16>,
    lenp: Option<&mut u16>,
    flags: u32,
) -> (r: Option<&'a Vec<u8>>)
    ensures
        idxp matches Some(i) ==> *final(i) == *i,
        zh is None ==> r is None && (lenp matches Some(l) ==> *final(l) == *l),
        zh matches Some(z) ==> match field_data(
            z@,
            index,
            id,
            match idxp {
                Some(i) => *i,
                None => 0,
            },
        ) {
            Some(data) => {
                &&& r is Some
                &&& r->0@ == data
                &&& lenp matches Some(l) ==> *final(l) == data.len() as u16
            },
            None => r is None && (lenp matches Some(l) ==> *final(l) == *l),
        },
{
    let want: u16 = match idxp {
        Some(i) => *i,
        None => 0,
    };
    zip_file_extra_field_get_by_id(zh, index, id, want, lenp, flags)
}

/// Setting an extra field: the archive behind it, and the result. The writer's
/// own fields are refused, and so is a number beyond the fields with `id`.
pub open spec fn field_set_outcome(
    z: ZipView,
    index: u64,
    id: u16,
    ef_idx: u16,
    data: Option<&[u8]>,
    len: u16,
) -> (ZipView, int) {
    if z.read_only() {
        (z.failed(ZIP_ER_RDONLY), -1)
    } else if index >= z.total() || !is_user_id(id) || (data is None && len > 0) || (ef_idx
        != ZIP_EXTRA_FIELD_NEW && ef_idx > count_id(z.fields_at(index), id)) {
        (z.failed(ZIP_ER_INVAL), -1)
    } else {
        (
            z.with_field_op(index, OpView::Put { id, ef_idx, data: given(data, len as int) }),
            0,
        )
    }
}

/// Replaces the `ef_idx`-th extra field of an entry with `id` by the first
/// `len` bytes of `data`, or adds one with `ZIP_EXTRA_FIELD_NEW` or the number
/// of these fields as `ef_idx`. Gives 0 or -1. The flags have no effect.
pub fn zip_file_extra_field_set(
    zh: Option<&mut Zip>,
    index: u64,
    id: u16,
    ef_idx: u16,
    data: Option<&[u8]>,
    len: u16,
    _flags: u32,
) -> (r: i32)
    requires
        data matches Some(d) ==> len <= d@.len(),
        zh matches Some(z) ==> z@.countable(),
    ensures
        zh is None ==> r == -1,
        zh matches Some(z) ==> {
            &&& z@.wf() ==> final(z)@.wf()
            &&& (final(z)@, r as int) == field_set_outcome(z@, index, id, ef_idx, data, len)
        },
{
    match zh {
        None => -1,
        Some(z) => {
            if !z.check_writable() {
                return -1;
            }
            if !z.valid_index(index) {
                return z.fail(ZIP_ER_INVAL);
            }
            if id == ZIP_EF_WINZIP_AES || id == ZIP_EF_ZIP64 {
                return z.fail(ZIP_ER_INVAL);
            }
            if data.is_none() && len > 0 {
                return z.fail(ZIP_ER_INVAL);
            }
            let bytes = take_given(data, len as usize);
            if ef_idx != ZIP_EXTRA_FIELD_NEW {
                let count: usize = match z.shown_fields_at(index) {
                    Some(f) => count_fields(f, id),
                    None => 0,
                };
                if ef_idx as usize > count {
                    return z.fail(ZIP_ER_INVAL);
                }
            }
            z.put_field_op(index, ExtraFieldOp::Put { id, ef_idx, data: bytes });
            0
        },
    }
}

/// Deleting an extra field: the archive behind it, and the result.
pub open spec fn field_delete_outcome(z: ZipView, index: u64, ef_idx: u16) -> (ZipView, int) {
    if z.read_only() {
        (z.failed(ZIP_ER_RDONLY), -1)
    } else if index >= z.total() {
        (z.failed(ZIP_ER_INVAL), -1)
    } else if ef_idx != ZIP_EXTRA_FIELD_ALL && ef_idx >= z.fields_at(index).len() {
        (z.failed(ZIP_ER_NOENT), -1)
    } else {
        (z.with_field_op(index, OpView::Delete { ef_idx }), 0)
    }
}

/// Deletes the `ef_idx`-th extra field of an entry, or all with
/// `ZIP_EXTRA_FIELD_ALL`. Gives 0 or -1. The flags have no effect.
pub fn zip_file_extra_field_delete(zh: Option<&mut Zip>, index: u64, ef_idx: u16, _flags: u32) ->
    (r: i32)
    requires
        zh matches Some(z) ==> z@.countable(),
    ensures
        zh is None ==> r == -1,
        zh matches Some(z) ==> {
            &&& z@.wf() ==> final(z)@.wf()
            &&& (final(z)@, r as int) == field_delete_outcome(z@, index, ef_idx)
        },
{
    match zh {
        None => -1,
        Some(z) => {
            if !z.check_writable() {
                return -1;
            }
            if !z.valid_index(index) {
                return z.fail(ZIP_ER_INVAL);
            }
            let count: usize = match z.shown_fields_at(index) {
                Some(f) => f.len(),
                None => 0,
            };
            if ef_idx != ZIP_EXTRA_FIELD_ALL && ef_idx as usize >= count {
                return z.fail(ZIP_ER_NOENT);
            }
            z.put_field_op(index, ExtraFieldOp::Delete { ef_idx });
            0
        },
    }
}

/// Deleting extra fields with an identifier: the archive behind it, and the
/// result.
pub open spec fn field_delete_id_outcome(z: ZipView, index: u64, id: u16, ef_idx: u16) -> (
    ZipView,
    int,
) {
    if z.read_only() {
        (z.failed(ZIP_ER_RDONLY), -1)
    } else if index >= z.total() {
        (z.failed(ZIP_ER_INVAL), -1)
    } else if id != ZIP_EXTRA_FIELD_ALL && ef_idx != ZIP_EXTRA_FIELD_ALL && ef_idx >= count_id(
        z.fields_at(index),
        id,
    ) {
        (z.failed(ZIP_ER_NOENT), -1)
    } else {
        (z.with_field_op(index, OpView::DeleteById { id, ef_idx }), 0)
    }
}

/// Deletes the `ef_idx`-th extra field of an entry with `id`, or all of these
/// with `ZIP_EXTRA_FIELD_ALL`; with `ZIP_EXTRA_FIELD_ALL` as `id`, deletes all
/// fields. Gives 0 or -1. The flags have no effect.
pub fn zip_file_extra_field_delete_by_id(
    zh: Option<&mut Zip>,
    index: u64,
    id: u16,
    ef_idx: u16,
    _flags: u32,
) -> (r: i32)
    requires
        zh matches Some(z) ==> z@.countable(),
    ensures
        zh is None ==> r == -1,
        zh matches Some(z) ==> {
            &&& z@.wf() ==> final(z)@.wf()
            &&& (final(z)@, r as int) == field_delete_id_outcome(z@, index, id, ef_idx)
        },
{
    match zh {
        None => -1,
        Some(z) => {
            if !z.check_writable() {
                return -1;
            }
            if !z.valid_index(index) {
                return z.fail(ZIP_ER_INVAL);
            }
            let count: usize = match z.shown_fields_at(index) {
                Some(f) => count_fields(f, id),
                None => 0,
            };
            if id != ZIP_EXTRA_FIELD_ALL && ef_idx != ZIP_EXTRA_FIELD_ALL && ef_idx as usize
                >= count {
                return z.fail(ZIP_ER_NOENT);
            }
            z.put_field_op(index, ExtraFieldOp::DeleteById { id, ef_idx });
            0
        },
    }
}

/// An edit of an entry that is only refused for a read-only archive and for an
/// index that no entry has: the archive behind it, and the result.
pub open spec fn entry_outcome(z: ZipView, index: u64, edited: PendingView) -> (ZipView, int) {
    if z.read_only() {
        (z.failed(ZIP_ER_RDONLY), -1)
    } else if index >= z.total() {
        (z.failed(ZIP_ER_INVAL), -1)
    } else {
        (z.with_pending(edited), 0)
    }
}

/// Sets the modification time of an entry in Unix seconds. Gives 0 or -1. The
/// flags have no effect.
pub fn zip_file_set_mtime(zh: Option<&mut Zip>, index: u64, mtime: i64, _flags: u32) -> (r: i32)
    ensures
        zh is None ==> r == -1,
        zh matches Some(z) ==> {
            &&& z@.wf() ==> final(z)@.wf()
            &&& (final(z)@, r as int) == entry_outcome(
                z@,
                index,
                PendingView {
                    mtimes: replaced(z@.pending.mtimes, index, mtime),
                    ..z@.pending
                },
            )
        },
{
    match zh {
        None => -1,
        Some(z) => {
            if !z.check_writable() {
                return -1;
            }
            if !z.valid_index(index) {
                return z.fail(ZIP_ER_INVAL);
            }
            let ghost before = z@;
            remove_all(&mut z.pending.mtimes, index);
            z.pending.mtimes.push((index, mtime));
            proof {
                if before.wf() {
                    lemma_wf_same(before, z@);
                }
            }
            0
        },
    }
}

/// Sets the DOS time and date of an entry. Gives 0 or -1. The flags have no
/// effect.
pub fn zip_file_set_dostime(
    zh: Option<&mut Zip>,
    index: u64,
    dtime: u16,
    ddate: u16,
    _flags: u32,
) -> (r: i32)
    ensures
        zh is None ==> r == -1,
        zh matches Some(z) ==> {
            &&& z@.wf() ==> final(z)@.wf()
            &&& (final(z)@, r as int) == entry_outcome(
                z@,
                index,
                PendingView {
                    dostimes: replaced(z@.pending.dostimes, index, (dtime, ddate)),
                    ..z@.pending
                },
            )
        },
{
    match zh {
        None => -1,
        Some(z) => {
            if !z.check_writable() {
                return -1;
            }
            if !z.valid_index(index) {
                return z.fail(ZIP_ER_INVAL);
            }
            let ghost before = z@;
            remove_all(&mut z.pending.dostimes, index);
            z.pending.dostimes.push((index, (dtime, ddate)));
            proof {
                if before.wf() {
                    lemma_wf_same(before, z@);
                }
            }
            0
        },
    }
}

/// Sets the host system and the external attributes of an entry. Gives 0 or
/// -1. The flags have no effect.
pub fn zip_file_set_external_attributes(
    zh: Option<&mut Zip>,
    index: u64,
    _flags: u32,
    opsys: u8,
    attributes: u32,
) -> (r: i32)
    ensures
        zh is None ==> r == -1,
        zh matches Some(z) ==> {
            &&& z@.wf() ==> final(z)@.wf()
            &&& (final(z)@, r as int) == entry_outcome(
                z@,
                index,
                PendingView {
                    ext_attrs: replaced(z@.pending.ext_attrs, index, (opsys, attributes)),
                    ..z@.pending
                },
            )
        },
{
    match zh {
        None => -1,
        Some(z) => {
            if !z.check_writable() {
                return -1;
            }
            if !z.valid_index(index) {
                return z.fail(ZIP_ER_INVAL);
            }
            let ghost before = z@;
            remove_all(&mut z.pending.ext_attrs, index);
            z.pending.ext_attrs.push((index, (opsys, attributes)));
            proof {
                if before.wf() {
                    lemma_wf_same(before, z@);
                }
            }
            0
        },
    }
}

/// Stores the host system and the external attributes of an entry. Gives 0,
/// or -1 if there is no such entry or it has none yet. The flags have no
/// effect.
pub fn zip_file_get_external_attributes(
    zh: Option<&mut Zip>,
    index: u64,
    _flags: u32,
    opsys: Option<&mut u8>,
    attributes: Option<&mut u32>,
) -> (r: i32)
    ensures
        zh is None ==> r == -1 && (opsys matches Some(o) ==> *final(o) == *o) && (
        attributes matches Some(a) ==> *final(a) == *a),
        zh matches Some(z) ==> {
            let known = if index < z@.total() { z@.effective_ext_attrs(index) } else { None };
            &&& z@.wf() ==> final(z)@.wf()
            &&& final(z)@ == (if index < z@.total() { z@ } else { z@.failed(ZIP_ER_INVAL) })
            &&& r == (if known is Some { 0int } else { -1 })
            &&& opsys matches Some(o) ==> *final(o) == (match known {
                Some(k) => k.0,
                None => *o,
            })
            &&& attributes matches Some(a) ==> *final(a) == (match known {
                Some(k) => k.1,
                None => *a,
            })
        },
{
    match zh {
        None => -1,
        Some(z) => {
            if !z.valid_index(index) {
                return z.fail(ZIP_ER_INVAL);
            }
            match z.effective_ext_attrs(index) {
                Some(known) => {
                    if let Some(o) = opsys {
                        *o = known.0;
                    }
                    if let Some(a) = attributes {
                        *a = known.1;
                    }
                    0
                },
                None => -1,
            }
        },
    }
}

/// The compression methods that entries can be written with.
pub open spec fn writable_method(method: i32) -> bool {
    method == ZIP_CM_DEFAULT || method == ZIP_CM_STORE || method == ZIP_CM_DEFLATE
}

/// Setting the compression of an entry: the archive behind it, and the result.
pub open spec fn compression_outcome(z: ZipView, index: u64, method: i32, level: u32) -> (
    ZipView,
    int,
) {
    if z.read_only() {
        (z.failed(ZIP_ER_RDONLY), -1)
    } else if index >= z.total() {
        (z.failed(ZIP_ER_INVAL), -1)
    } else if !writable_method(method) {
        (z.failed(ZIP_ER_COMPNOTSUPP), -1)
    } else {
        (
            z.with_pending(
                PendingView {
                    compressions: replaced(z.pending.compressions, index, (method, level)),
                    ..z.pending
                },
            ),
            0,
        )
    }
}

/// Sets the compression method of an entry, with the flags as the level. Gives
/// 0 or -1.
pub fn zip_set_file_compression(zh: Option<&mut Zip>, index: u64, method: i32, flags: u32) -> (r:
    i32)
    ensures
        zh is None ==> r == -1,
        zh matches Some(z) ==> {
            &&& z@.wf() ==> final(z)@.wf()
            &&& (final(z)@, r as int) == compression_outcome(z@, index, method, flags)
        },
{
    match zh {
        None => -1,
        Some(z) => {
            if !z.check_writable() {
                return -1;
            }
            if !z.valid_index(index) {
                return z.fail(ZIP_ER_INVAL);
            }
            if method != ZIP_CM_DEFAULT && method != ZIP_CM_STORE && method != ZIP_CM_DEFLATE {
                return z.fail(ZIP_ER_COMPNOTSUPP);
            }
            let ghost before = z@;
            remove_all(&mut z.pending.compressions, index);
            z.pending.compressions.push((index, (method, flags)));
            proof {
                if before.wf() {
                    lemma_wf_same(before, z@);
                }
            }
            0
        },
    }
}

/// 1 if a compression method is supported, else 0: stored, deflate and the
/// default in both directions, bzip2 for decompression alone.
pub fn zip_compression_method_supported(method: i32, compress: i32) -> (r: i32)
    ensures
        r == (if writable_method(method) || (method == ZIP_CM_BZIP2 && compress == 0) {
            1int
        } else {
            0
        }),
{
    match method {
        ZIP_CM_DEFAULT | ZIP_CM_STORE | ZIP_CM_DEFLATE => 1,
        ZIP_CM_BZIP2 => if compress != 0 {
            0
        } else {
            1
        },
        _ => 0,
    }
}

} // verus!
