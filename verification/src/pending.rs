//! Edits that wait for the archive to be closed.

use crate::extra::{ops_view, ExtraFieldOp, OpView};
use crate::keyed::{lemma_without_map, remove_all, without};
use crate::stat::bytes_view;
use vstd::prelude::*;

verus! {

/// An entry to be appended.
#[derive(Debug)]
pub struct PendingAdd {
    pub name: Vec<u8>,
    pub data: Vec<u8>,
}

/// What an entry to be appended holds.
pub ghost struct AddView {
    pub name: Seq<u8>,
    pub data: Seq<u8>,
}

impl View for PendingAdd {
    type V = AddView;

    open spec fn view(&self) -> AddView {
        AddView { name: self.name@, data: self.data@ }
    }
}

/// Edits that wait for the archive to be closed. Entries are named by their
/// logical index: those of the archive first, then those to be appended.
#[derive(Debug)]
pub struct PendingOps {
    /// Entries to be appended.
    pub adds: Vec<PendingAdd>,
    /// Entries to be deleted.
    pub deletes: Vec<u64>,
    /// New names.
    pub renames: Vec<(u64, Vec<u8>)>,
    /// New contents.
    pub replaces: Vec<(u64, Vec<u8>)>,
    /// Encryption methods.
    pub encryptions: Vec<(u64, u16)>,
    /// Changes of extra fields, in the order in which they are made.
    pub extra_field_ops: Vec<(u64, ExtraFieldOp)>,
    /// New comments; `None` removes the comment.
    pub file_comments: Vec<(u64, Option<Vec<u8>>)>,
    /// DOS times and dates.
    pub dostimes: Vec<(u64, (u16, u16))>,
    /// Modification times in Unix seconds.
    pub mtimes: Vec<(u64, i64)>,
    /// Host systems and external attributes.
    pub ext_attrs: Vec<(u64, (u8, u32))>,
    /// Compression methods and levels.
    pub compressions: Vec<(u64, (i32, u32))>,
    /// The new archive comment, where it is to be changed.
    pub archive_comment: Option<Vec<u8>>,
}

/// What the waiting edits are.
pub ghost struct PendingView {
    pub adds: Seq<AddView>,
    pub deletes: Seq<u64>,
    pub renames: Seq<(u64, Seq<u8>)>,
    pub replaces: Seq<(u64, Seq<u8>)>,
    pub encryptions: Seq<(u64, u16)>,
    pub extra_field_ops: Seq<(u64, OpView)>,
    pub file_comments: Seq<(u64, Option<Seq<u8>>)>,
    pub dostimes: Seq<(u64, (u16, u16))>,
    pub mtimes: Seq<(u64, i64)>,
    pub ext_attrs: Seq<(u64, (u8, u32))>,
    pub compressions: Seq<(u64, (i32, u32))>,
    pub archive_comment: Option<Seq<u8>>,
}

/// What a list of entries to be appended holds.
pub open spec fn adds_view(s: Seq<PendingAdd>) -> Seq<AddView> {
    s.map_values(|a: PendingAdd| a@)
}

/// What a list of byte strings for entries holds.
pub open spec fn bytes_list_view(s: Seq<(u64, Vec<u8>)>) -> Seq<(u64, Seq<u8>)> {
    s.map_values(|p: (u64, Vec<u8>)| (p.0, p.1@))
}

/// What a list of comments for entries holds.
pub open spec fn comments_view(s: Seq<(u64, Option<Vec<u8>>)>) -> Seq<(u64, Option<Seq<u8>>)> {
    s.map_values(|p: (u64, Option<Vec<u8>>)| (p.0, bytes_view(p.1)))
}

impl View for PendingOps {
    type V = PendingView;

    open spec fn view(&self) -> PendingView {
        PendingView {
            adds: adds_view(self.adds@),
            deletes: self.deletes@,
            renames: bytes_list_view(self.renames@),
            replaces: bytes_list_view(self.replaces@),
            encryptions: self.encryptions@,
            extra_field_ops: ops_view(self.extra_field_ops@),
            file_comments: comments_view(self.file_comments@),
            dostimes: self.dostimes@,
            mtimes: self.mtimes@,
            ext_attrs: self.ext_attrs@,
            compressions: self.compressions@,
            archive_comment: bytes_view(self.archive_comment),
        }
    }
}

/// No edit waits.
pub open spec fn no_edits() -> PendingView {
    PendingView {
        adds: Seq::empty(),
        deletes: Seq::empty(),
        renames: Seq::empty(),
        replaces: Seq::empty(),
        encryptions: Seq::empty(),
        extra_field_ops: Seq::empty(),
        file_comments: Seq::empty(),
        dostimes: Seq::empty(),
        mtimes: Seq::empty(),
        ext_attrs: Seq::empty(),
        compressions: Seq::empty(),
        archive_comment: None,
    }
}

/// A list of indices without `x`.
pub open spec fn drop_value(s: Seq<u64>, x: u64) -> Seq<u64>
    decreases s.len(),
{
    if s.len() == 0 {
        Seq::empty()
    } else {
        let rest = drop_value(s.drop_last(), x);
        if s.last() == x {
            rest
        } else {
            rest.push(s.last())
        }
    }
}

/// What is taken out of a list of indices is not in it; the others stay.
pub proof fn lemma_drop_value(s: Seq<u64>, x: u64, y: u64)
    ensures
        drop_value(s, x).contains(y) <==> s.contains(y) && y != x,
    decreases s.len(),
{
    if s.len() > 0 {
        let shorter = s.drop_last();
        lemma_drop_value(shorter, x, y);
        let rest = drop_value(shorter, x);
        assert(s =~= shorter.push(s.last()));
        assert forall|t: Seq<u64>, v: u64| #![auto] t.push(v).contains(y) == (t.contains(y) || v
            == y) by {
            if t.contains(y) {
                let k = choose|k: int| 0 <= k < t.len() && t[k] == y;
                assert(t.push(v)[k] == y);
            }
            assert(t.push(v)[t.len() as int] == v);
        }
    }
}

/// The edits without those for entry `index`, in an archive of `entries`
/// entries. An entry to be appended is not appended after all.
pub open spec fn reverted(p: PendingView, entries: nat, index: u64) -> PendingView {
    PendingView {
        adds: if entries <= index < entries + p.adds.len() {
            p.adds.remove(index - entries)
        } else {
            p.adds
        },
        deletes: drop_value(p.deletes, index),
        renames: without(p.renames, index),
        replaces: without(p.replaces, index),
        encryptions: without(p.encryptions, index),
        extra_field_ops: without(p.extra_field_ops, index),
        file_comments: without(p.file_comments, index),
        dostimes: without(p.dostimes, index),
        mtimes: without(p.mtimes, index),
        ext_attrs: without(p.ext_attrs, index),
        compressions: without(p.compressions, index),
        archive_comment: p.archive_comment,
    }
}

/// Whether `x` is in the list.
pub fn contains_value(v: &Vec<u64>, x: u64) -> (r: bool)
    ensures
        r == v@.contains(x),
{
    let mut i: usize = 0;
    while i < v.len()
        invariant
            i <= v@.len(),
            forall|j: int| 0 <= j < i ==> v@[j] != x,
        decreases v.len() - i,
    {
        if v[i] == x {
            assert(v@[i as int] == x);
            return true;
        }
        i += 1;
    }
    false
}

fn remove_value(v: &mut Vec<u64>, x: u64)
    ensures
        final(v)@ == drop_value(old(v)@, x),
{
    let ghost before = v@;
    let mut out: Vec<u64> = Vec::new();
    let mut i: usize = 0;
    assert(before.take(0) =~= Seq::empty());
    while i < v.len()
        invariant
            i <= v@.len(),
            v@ == before,
            out@ == drop_value(before.take(i as int), x),
        decreases v.len() - i,
    {
        assert(before.take(i + 1).drop_last() =~= before.take(i as int));
        if v[i] != x {
            out.push(v[i]);
        }
        i += 1;
    }
    assert(before.take(before.len() as int) =~= before);
    *v = out;
}

impl PendingOps {
    /// No edits.
    pub fn new() -> (r: PendingOps)
        ensures
            r@ == no_edits(),
    {
        let r = PendingOps {
            adds: Vec::new(),
            deletes: Vec::new(),
            renames: Vec::new(),
            replaces: Vec::new(),
            encryptions: Vec::new(),
            extra_field_ops: Vec::new(),
            file_comments: Vec::new(),
            dostimes: Vec::new(),
            mtimes: Vec::new(),
            ext_attrs: Vec::new(),
            compressions: Vec::new(),
            archive_comment: None,
        };
        assert(r@.adds =~= Seq::empty());
        assert(r@.renames =~= Seq::empty());
        assert(r@.replaces =~= Seq::empty());
        assert(r@.extra_field_ops =~= Seq::empty());
        assert(r@.file_comments =~= Seq::empty());
        r
    }

    /// Whether no edit waits.
    pub fn is_empty(&self) -> (r: bool)
        ensures
            r == (self@ == no_edits()),
    {
        let r = self.adds.is_empty() && self.deletes.is_empty() && self.renames.is_empty()
            && self.replaces.is_empty() && self.encryptions.is_empty()
            && self.extra_field_ops.is_empty() && self.file_comments.is_empty()
            && self.dostimes.is_empty() && self.mtimes.is_empty() && self.ext_attrs.is_empty()
            && self.compressions.is_empty() && self.archive_comment.is_none();
        proof {
            let v = self@;
            if r {
                assert(v.adds =~= Seq::empty());
                assert(v.deletes =~= Seq::empty());
                assert(v.renames =~= Seq::empty());
                assert(v.replaces =~= Seq::empty());
                assert(v.encryptions =~= Seq::empty());
                assert(v.extra_field_ops =~= Seq::empty());
                assert(v.file_comments =~= Seq::empty());
                assert(v.dostimes =~= Seq::empty());
                assert(v.mtimes =~= Seq::empty());
                assert(v.ext_attrs =~= Seq::empty());
                assert(v.compressions =~= Seq::empty());
            } else if v == no_edits() {
                assert(v.adds.len() == 0 && v.renames.len() == 0 && v.replaces.len() == 0
                    && v.extra_field_ops.len() == 0 && v.file_comments.len() == 0);
                assert(v.archive_comment is None);
            }
        }
        r
    }

    /// Takes back every edit for entry `index`, in an archive of `entries`
    /// entries.
    pub fn unchange_entry(&mut self, entries: u64, index: u64)
        ensures
            final(self)@ == reverted(old(self)@, entries as nat, index),
    {
        let ghost before = *self;
        remove_value(&mut self.deletes, index);
        remove_all(&mut self.renames, index);
        remove_all(&mut self.replaces, index);
        remove_all(&mut self.encryptions, index);
        remove_all(&mut self.extra_field_ops, index);
        remove_all(&mut self.file_comments, index);
        remove_all(&mut self.dostimes, index);
        remove_all(&mut self.mtimes, index);
        remove_all(&mut self.ext_attrs, index);
        remove_all(&mut self.compressions, index);
        if index >= entries {
            let place: u64 = index - entries;
            if place < self.adds.len() as u64 {
                self.adds.remove(place as usize);
                assert(adds_view(self.adds@) =~= adds_view(before.adds@).remove(place as int));
            }
        }
        proof {
            lemma_without_map(before.renames@, |p: (u64, Vec<u8>)| (p.0, p.1@), index);
            lemma_without_map(before.replaces@, |p: (u64, Vec<u8>)| (p.0, p.1@), index);
            lemma_without_map(
                before.extra_field_ops@,
                |p: (u64, ExtraFieldOp)| (p.0, p.1@),
                index,
            );
            lemma_without_map(
                before.file_comments@,
                |p: (u64, Option<Vec<u8>>)| (p.0, bytes_view(p.1)),
                index,
            );
        }
    }
}

} // verus!
