//! Lists of values keyed by an entry index, in the order in which they were
//! recorded.

use vstd::prelude::*;

verus! {

/// The value recorded last for `index`.
pub open spec fn last_value<T>(s: Seq<(u64, T)>, index: u64) -> Option<T>
    decreases s.len(),
{
    if s.len() == 0 {
        None
    } else if s.last().0 == index {
        Some(s.last().1)
    } else {
        last_value(s.drop_last(), index)
    }
}

/// The list without what was recorded for `index`.
pub open spec fn without<T>(s: Seq<(u64, T)>, index: u64) -> Seq<(u64, T)>
    decreases s.len(),
{
    if s.len() == 0 {
        Seq::empty()
    } else {
        let rest = without(s.drop_last(), index);
        if s.last().0 == index {
            rest
        } else {
            rest.push(s.last())
        }
    }
}

/// The list with `value` as all that is recorded for `index`.
pub open spec fn replaced<T>(s: Seq<(u64, T)>, index: u64, value: T) -> Seq<(u64, T)> {
    without(s, index).push((index, value))
}

/// Where the last value for an index stands.
pub open spec fn is_last<T>(s: Seq<(u64, T)>, index: u64, at: Option<usize>) -> bool {
    match at {
        Some(k) => {
            &&& k < s.len()
            &&& s[k as int].0 == index
            &&& forall|j: int| k < j < s.len() ==> (#[trigger] s[j]).0 != index
        },
        None => forall|j: int| 0 <= j < s.len() ==> (#[trigger] s[j]).0 != index,
    }
}

/// The last value is the one at the last place.
pub proof fn lemma_last<T>(s: Seq<(u64, T)>, index: u64, at: Option<usize>)
    requires
        is_last(s, index, at),
    ensures
        last_value(s, index) == (match at {
            Some(k) => Some(s[k as int].1),
            None => None,
        }),
    decreases s.len(),
{
    if s.len() > 0 {
        let shorter = s.drop_last();
        match at {
            Some(k) => if k + 1 < s.len() {
                assert(s.last().0 != index);
                assert(is_last(shorter, index, at));
                lemma_last(shorter, index, at);
            },
            None => {
                assert(s.last().0 != index);
                assert(is_last(shorter, index, None));
                lemma_last(shorter, index, None);
            },
        }
    }
}

/// A change of the values alone does not matter for what is left out.
pub proof fn lemma_without_map<T, U>(
    s: Seq<(u64, T)>,
    f: spec_fn((u64, T)) -> (u64, U),
    index: u64,
)
    requires
        forall|p: (u64, T)| (#[trigger] f(p)).0 == p.0,
    ensures
        without(s, index).map_values(f) == without(s.map_values(f), index),
    decreases s.len(),
{
    if s.len() > 0 {
        lemma_without_map(s.drop_last(), f, index);
        assert(s.map_values(f).drop_last() =~= s.drop_last().map_values(f));
        assert(s.map_values(f).last() == f(s.last()));
        assert(without(s, index).map_values(f) =~= without(s.map_values(f), index));
    } else {
        assert(without(s, index).map_values(f) =~= without(s.map_values(f), index));
    }
}

/// What is left out of a list is not in it, and nothing else is touched.
pub proof fn lemma_without<T>(s: Seq<(u64, T)>, index: u64, other: u64)
    ensures
        last_value(without(s, index), index) is None,
        other != index ==> last_value(without(s, index), other) == last_value(s, other),
    decreases s.len(),
{
    if s.len() > 0 {
        lemma_without(s.drop_last(), index, other);
        if s.last().0 != index {
            let rest = without(s.drop_last(), index);
            assert(rest.push(s.last()).drop_last() =~= rest);
        }
    }
}

/// What was recorded last for an index is what is found, whatever else the
/// list holds.
pub proof fn lemma_push<T>(s: Seq<(u64, T)>, index: u64, value: T, other: u64)
    ensures
        last_value(s.push((index, value)), index) == Some(value),
        other != index ==> last_value(s.push((index, value)), other) == last_value(s, other),
{
    assert(s.push((index, value)).drop_last() =~= s);
}

/// After a value is set for an index, it is what is found for it, and what is
/// found for the others is as before.
pub proof fn lemma_replaced<T>(s: Seq<(u64, T)>, index: u64, value: T, other: u64)
    ensures
        last_value(replaced(s, index, value), index) == Some(value),
        other != index ==> last_value(replaced(s, index, value), other) == last_value(s, other),
{
    lemma_without(s, index, other);
    lemma_push(without(s, index), index, value, other);
}

/// The place of the last value for `index`.
pub fn find_last<T>(v: &Vec<(u64, T)>, index: u64) -> (r: Option<usize>)
    ensures
        is_last(v@, index, r),
{
    let mut i: usize = v.len();
    while i > 0
        invariant
            i <= v@.len(),
            forall|j: int| i <= j < v@.len() ==> (#[trigger] v@[j]).0 != index,
        decreases i,
    {
        i -= 1;
        if v[i].0 == index {
            return Some(i);
        }
    }
    None
}

/// Removes what was recorded for `index`.
pub fn remove_all<T>(v: &mut Vec<(u64, T)>, index: u64)
    ensures
        final(v)@ == without(old(v)@, index),
{
    let ghost before = v@;
    let mut i: usize = 0;
    assert(before.take(0) =~= Seq::empty());
    assert(v@ =~= without(before.take(0), index) + before.skip(0));
    let ghost mut seen: int = 0;
    while i < v.len()
        invariant
            0 <= seen <= before.len(),
            i <= v@.len(),
            i == without(before.take(seen), index).len(),
            v@ == without(before.take(seen), index) + before.skip(seen),
        decreases before.len() - seen,
    {
        let ghost kept = without(before.take(seen), index);
        assert(v@[i as int] == before[seen]);
        assert(before.take(seen + 1).drop_last() =~= before.take(seen));
        if v[i].0 == index {
            v.remove(i);
            assert(v@ =~= without(before.take(seen + 1), index) + before.skip(seen + 1));
        } else {
            i += 1;
            assert(v@ =~= without(before.take(seen + 1), index) + before.skip(seen + 1));
        }
        proof {
            seen = seen + 1;
        }
    }
    assert(seen == before.len());
    assert(before.take(seen) =~= before);
    assert(v@ =~= without(before, index));
}

} // verus!
