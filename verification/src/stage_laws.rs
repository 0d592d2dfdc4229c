//! What holds of writing a corpus archive step by step.
//!
//! A law here speaks of a call: of what was handed in, and of what came back.

use crate::corpus::{
    archive_edits, archive_from, begin_corpus_archive, edits_of_archive, edits_of_entry,
        edits_view, entry_edits,
    next_corpus_action, ArchiveSpec, CorpusAction, CorpusEdit, CorpusEvent, CorpusStage, EntrySpec,
};
use vstd::prelude::*;

verus! {

/// How many edits an entry has: one of its method, and those of a time and a comment.
pub open spec fn count_of_edits(e: EntrySpec) -> int {
    1 + (if e.mtime is Some { 1int } else { 0 }) + (if e.comment is Some { 1int } else { 0 })
}

/// Whether this is the edit of an entry at a place.
pub open spec fn is_edit(edit: CorpusEdit, e: EntrySpec, index: u64, k: int) -> bool {
    if k == 0 {
        edit == CorpusEdit::Method(index, e.method, e.level)
    } else if k == 1 && e.mtime is Some {
        edit == CorpusEdit::Mtime(index, e.mtime->0)
    } else {
        &&& e.comment is Some
        &&& edit is Comment
        &&& edit->Comment_0 == index
        &&& edit->Comment_1@ == e.comment->0@
    }
}

/// How many edits the whole archive has.
pub open spec fn count_of_archive_edits(a: ArchiveSpec) -> int {
    (if a.comment is Some { 1int } else { 0 }) + (if a.keep_empty { 1int } else { 0 })
}

/// Whether this is the edit of the whole archive at a place.
pub open spec fn is_archive_edit(edit: CorpusEdit, a: ArchiveSpec, k: int) -> bool {
    if k == 0 && a.comment is Some {
        edit is ArchiveComment && edit->ArchiveComment_0@ == a.comment->0@
    } else {
        a.keep_empty && edit == CorpusEdit::KeepEmpty
    }
}

/// The edits of an entry are its method, and then its time and its comment where it
/// has them, all under the index that it was added under.
pub proof fn law_edits_of_an_entry(e: EntrySpec, index: u64, r: Vec<CorpusEdit>, k: int)
    requires
        call_ensures(edits_of_entry, (&e, index), r),
        0 <= k < count_of_edits(e),
    ensures
        r@.len() == count_of_edits(e),
        is_edit(r@[k], e, index, k),
{
    let v = edits_view(r@);
    assert(v.len() == r@.len());
    assert(v[k] == r@[k]@);
}

/// The edits of a whole archive are its comment where it has one, and then that its
/// file stays where that was asked for.
pub proof fn law_edits_of_an_archive(a: ArchiveSpec, r: Vec<CorpusEdit>, k: int)
    requires
        call_ensures(edits_of_archive, (&a,), r),
    ensures
        r@.len() == count_of_archive_edits(a),
        0 <= k < count_of_archive_edits(a) ==> is_archive_edit(r@[k], a, k),
{
    let v = edits_view(r@);
    assert(v.len() == r@.len());
    if 0 <= k < r@.len() {
        assert(v[k] == r@[k]@);
    }
}

/// Whether the writing goes on behind the entries before a place: with storing the
/// content of the one there, or else with the first edit of the whole archive, or
/// else with closing it.
pub open spec fn goes_on(a: ArchiveSpec, i: int, r: (CorpusStage, CorpusAction)) -> bool {
    if i < a.entries@.len() {
        r.0 == CorpusStage::Mirror(i as usize) && r.1 == CorpusAction::Mirror(i as usize)
    } else {
        goes_on_with_edits(a, 0, r)
    }
}

/// Whether the writing goes on with the edit of the whole archive at a place, or with
/// closing it where there is none.
pub open spec fn goes_on_with_edits(
    a: ArchiveSpec,
    k: int,
    r: (CorpusStage, CorpusAction),
) -> bool {
    if k < count_of_archive_edits(a) {
        &&& r.0 == CorpusStage::ArchiveEdit(k as usize)
        &&& r.1 is Edit
        &&& is_archive_edit(r.1->Edit_0, a, k)
    } else {
        r.0 == CorpusStage::Close && r.1 == CorpusAction::Close
    }
}

proof fn lemma_goes_on_with_edits(a: ArchiveSpec, k: int, r: (CorpusStage, CorpusAction))
    requires
        0 <= k,
        (r.0, r.1@) == archive_from(a, k),
    ensures
        goes_on_with_edits(a, k, r),
{
    assert(archive_edits(a).len() == count_of_archive_edits(a));
}

/// Writing starts with the first entry.
pub proof fn law_writing_begins(a: ArchiveSpec, r: (CorpusStage, CorpusAction))
    requires
        call_ensures(begin_corpus_archive, (&a,), r),
    ensures
        goes_on(a, 0, r),
{
    if a.entries@.len() == 0 {
        lemma_goes_on_with_edits(a, 0, r);
    }
}

/// An entry whose content was stored is added; else writing ends with that error.
pub proof fn law_stored_content_is_added(
    a: ArchiveSpec,
    i: usize,
    stored: Result<(), String>,
    r: (CorpusStage, CorpusAction),
)
    requires
        i < a.entries@.len(),
        call_ensures(
            next_corpus_action,
            (&a, CorpusStage::Mirror(i), CorpusEvent::Mirrored(stored)),
            r,
        ),
    ensures
        stored is Ok ==> r.0 == CorpusStage::Add(i) && r.1 == CorpusAction::Add(i),
        stored matches Err(text) ==> r.0 == CorpusStage::Over && ends_with(r.1, Some(text@)),
{
}

/// Whether an action ends the writing, with an error or without one.
pub open spec fn ends_with(action: CorpusAction, text: Option<Seq<char>>) -> bool {
    &&& action is Finish
    &&& text is None ==> action->Finish_0 is Ok
    &&& text matches Some(t) ==> action->Finish_0 is Err && action->Finish_0->Err_0@ == t
}

/// Behind an entry that was added its edits are made, first the one of its method. One
/// that cannot be added is the last, and the archive is closed; a name that cannot be
/// handed on ends the writing.
pub proof fn law_added_entry_is_edited(
    a: ArchiveSpec,
    i: usize,
    event: CorpusEvent,
    r: (CorpusStage, CorpusAction),
)
    requires
        i < a.entries@.len(),
        event is Added || event is BadName,
        call_ensures(next_corpus_action, (&a, CorpusStage::Add(i), event), r),
    ensures
        event matches CorpusEvent::Added(Some(index)) ==> {
            let e = a.entries@[i as int];
            &&& r.0 == CorpusStage::EntryEdit(i, index, 0)
            &&& r.1 == CorpusAction::Edit(CorpusEdit::Method(index, e.method, e.level))
        },
        event matches CorpusEvent::Added(None) ==> r.0 == CorpusStage::Close && r.1
            == CorpusAction::Close,
        event matches CorpusEvent::BadName(text) ==> r.0 == CorpusStage::Over && ends_with(
            r.1,
            Some(text@),
        ),
{
}

/// Behind an edit of an entry comes its next, and behind its last the next entry.
pub proof fn law_next_edit_of_an_entry(
    a: ArchiveSpec,
    i: usize,
    index: u64,
    k: usize,
    r: (CorpusStage, CorpusAction),
)
    requires
        i < a.entries@.len(),
        k < count_of_edits(a.entries@[i as int]),
        call_ensures(
            next_corpus_action,
            (&a, CorpusStage::EntryEdit(i, index, k), CorpusEvent::Edited),
            r,
        ),
    ensures
        ({
            let e = a.entries@[i as int];
            if k + 1 < count_of_edits(e) {
                &&& r.0 == CorpusStage::EntryEdit(i, index, (k + 1) as usize)
                &&& r.1 is Edit
                &&& is_edit(r.1->Edit_0, e, index, k + 1)
            } else {
                goes_on(a, i + 1, r)
            }
        }),
{
    let e = a.entries@[i as int];
    assert(entry_edits(e, index).len() == count_of_edits(e));
    if k + 1 >= count_of_edits(e) && i + 1 >= a.entries@.len() {
        lemma_goes_on_with_edits(a, 0, r);
    }
}

/// Behind an edit of the whole archive comes its next, and behind the last the archive
/// is closed.
pub proof fn law_next_edit_of_the_archive(
    a: ArchiveSpec,
    k: usize,
    r: (CorpusStage, CorpusAction),
)
    requires
        k < count_of_archive_edits(a),
        call_ensures(
            next_corpus_action,
            (&a, CorpusStage::ArchiveEdit(k), CorpusEvent::Edited),
            r,
        ),
    ensures
        goes_on_with_edits(a, k + 1, r),
{
    lemma_goes_on_with_edits(a, k + 1, r);
}

/// An archive that was closed ends the writing: with success where the result is 0.
pub proof fn law_closed_archive_is_over(a: ArchiveSpec, rc: i32, r: (CorpusStage, CorpusAction))
    requires
        call_ensures(next_corpus_action, (&a, CorpusStage::Close, CorpusEvent::Closed(rc)), r),
    ensures
        r.0 == CorpusStage::Over,
        r.1 is Finish,
        r.1->Finish_0 is Ok <==> rc == 0,
{
}

} // verus!
