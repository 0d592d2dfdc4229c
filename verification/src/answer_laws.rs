//! What becomes of the answers of a user's source, and of small questions that are
//! answered at once.
//!
//! A law here speaks of a call: of what was handed in, and of what came back.

use crate::command::{
    bit, bitmap, make_bitmap, zip_source_seek_compute_offset, CommandData, DataView,
    ZipSourceArgsSeek,
};
use crate::errors::{
    zip_error, zip_error_code_system, zip_error_code_zip, zip_error_set, zip_error_to_data,
    ErrorPair,
};
use crate::harness::{check_at, check_entries, checks, passed, ArchiveCheck, Finding};
use crate::source::{
    crc_layered_cb, step, told, CrcCtx, LayeredCallback, SourceCallback, ZipSource,
};
use crate::source_api::{
    zip_source_at_eof, zip_source_close, zip_source_open, zip_source_read, zip_source_seek,
    zip_source_tell,
};
use crate::source_laws::leads_to;
use crate::stat::{zip_stat as StatRecord, zip_stat_init};
use vstd::prelude::*;

verus! {

/// A user's source that is opened is asked once, and has succeeded unless it answers
/// with a negative number.
pub proof fn law_users_source_opened<F: SourceCallback, L: LayeredCallback<F>>(
    before: ZipSource<F, L>,
    after: ZipSource<F, L>,
    r: i32,
)
    requires
        before.backend is Function,
        exists|s: &mut ZipSource<F, L>| #[trigger]
            call_ensures(zip_source_open::<F, L>, (Some(s),), r) && *s == before && *final(s)
                == after,
    ensures
        exists|f: &mut F, d: &mut CommandData, a: i64|
            {
                &&& #[trigger] call_ensures(F::call, (f, d, 0, 0), a)
                &&& *f == before.backend->Function_0
                &&& *d == CommandData::Null
                &&& after.backend is Function
                &&& *final(f) == after.backend->Function_0
                &&& a >= 0 ==> r == 0 && after.node@ == before.node@
                &&& a < 0 ==> r == -1 && after.node.error.zip_err == 28
            },
{
}

/// A user's source that is closed is asked once, and has succeeded unless it answers
/// with a negative number.
pub proof fn law_users_source_closed<F: SourceCallback, L: LayeredCallback<F>>(
    before: ZipSource<F, L>,
    after: ZipSource<F, L>,
    r: i32,
)
    requires
        before.backend is Function,
        exists|s: &mut ZipSource<F, L>| #[trigger]
            call_ensures(zip_source_close::<F, L>, (Some(s),), r) && *s == before && *final(s)
                == after,
    ensures
        exists|f: &mut F, d: &mut CommandData, a: i64|
            {
                &&& #[trigger] call_ensures(F::call, (f, d, 0, 2), a)
                &&& *f == before.backend->Function_0
                &&& *final(f) == after.backend->Function_0
                &&& a >= 0 ==> r == 0 && after.node@ == before.node@
                &&& a < 0 ==> r == -1 && after.node.error.zip_err == 28
            },
{
}

/// A read from a user's source is answered by the user, with the bytes that the user
/// put into the buffer; an answer of 0 is noted as the end, and a negative one recorded
/// as a read error.
pub proof fn law_users_source_read<F: SourceCallback, L: LayeredCallback<F>>(
    before: ZipSource<F, L>,
    after: ZipSource<F, L>,
    buf: (Seq<u8>, Seq<u8>),
    len: u64,
    r: i64,
)
    requires
        before.backend is Function,
        exists|s: &mut ZipSource<F, L>, b: &mut Vec<u8>| #[trigger]
            call_ensures(zip_source_read::<F, L>, (Some(s), b, len), r) && *s == before
                && *final(s) == after && (b@, final(b)@) == buf,
    ensures
        exists|f: &mut F, d: &mut CommandData|
            {
                &&& #[trigger] call_ensures(F::call, (f, d, len, 1), r)
                &&& *f == before.backend->Function_0
                &&& d@ == DataView::Bytes(buf.0)
                &&& *final(f) == after.backend->Function_0
                &&& final(d)@ is Bytes ==> final(d)@ == DataView::Bytes(buf.1)
            },
        r < 0 ==> after.node.error.zip_err == 5,
        r >= 0 ==> after.node.error@ == before.node.error@,
        r == 0 ==> after.node.eof,
        r > 0 ==> after.node.eof == before.node.eof,
{
}

/// A seek in a user's source hands the user the offset and where it counts from.
pub proof fn law_users_source_sought<F: SourceCallback, L: LayeredCallback<F>>(
    before: ZipSource<F, L>,
    after: ZipSource<F, L>,
    offset: i64,
    whence: i32,
    r: i32,
)
    requires
        before.backend is Function,
        exists|s: &mut ZipSource<F, L>| #[trigger]
            call_ensures(zip_source_seek::<F, L>, (Some(s), offset, whence), r) && *s == before
                && *final(s) == after,
    ensures
        exists|f: &mut F, d: &mut CommandData, a: i64|
            {
                &&& #[trigger] call_ensures(F::call, (f, d, 16, 6), a)
                &&& *f == before.backend->Function_0
                &&& *d == CommandData::Seek(ZipSourceArgsSeek { offset, whence })
                &&& *final(f) == after.backend->Function_0
                &&& a >= 0 ==> r == 0
                &&& a < 0 ==> r == -1
            },
        after.node@ == before.node@,
{
}

/// The position of a user's source is what the user tells.
pub proof fn law_users_source_told<F: SourceCallback, L: LayeredCallback<F>>(
    before: ZipSource<F, L>,
    after: ZipSource<F, L>,
    r: i64,
)
    requires
        before.backend is Function,
        exists|s: &mut ZipSource<F, L>| #[trigger]
            call_ensures(zip_source_tell::<F, L>, (Some(s),), r) && *s == before && *final(s)
                == after,
    ensures
        exists|f: &mut F, d: &mut CommandData|
            {
                &&& #[trigger] call_ensures(F::call, (f, d, 0, 7), r)
                &&& *f == before.backend->Function_0
                &&& *d == CommandData::Null
                &&& *final(f) == after.backend->Function_0
            },
        after.node@ == before.node@,
{
}

/// Whether a user's source is at its end is what the user says, or for want of an answer
/// what was noted of the last read.
pub proof fn law_users_source_at_end<F: SourceCallback, L: LayeredCallback<F>>(
    before: ZipSource<F, L>,
    after: ZipSource<F, L>,
    r: i32,
)
    requires
        before.backend is Function,
        exists|s: &mut ZipSource<F, L>| #[trigger]
            call_ensures(zip_source_at_eof::<F, L>, (Some(s),), r) && *s == before && *final(s)
                == after,
    ensures
        exists|f: &mut F, d: &mut CommandData, a: i64|
            {
                &&& #[trigger] call_ensures(F::call, (f, d, 0, 22), a)
                &&& *f == before.backend->Function_0
                &&& a == 0 ==> r == 0
                &&& a > 0 ==> r == 1
                &&& a < 0 ==> (r == 1 <==> before.node.eof)
            },
        r == 0 || r == 1,
        after.node@ == before.node@,
{
}

/// A seek through a CRC layer over a buffer leads both to the same place; one that fails
/// leads neither anywhere.
pub proof fn law_crc_layer_sought<F: SourceCallback, L: LayeredCallback<F>>(
    ctx: (CrcCtx, CrcCtx),
    lower: (ZipSource<F, L>, ZipSource<F, L>),
    args: ZipSourceArgsSeek,
    r: i64,
)
    requires
        lower.0.backend is Memory,
        lower.0.backend->Memory_0.data@.len() <= i64::MAX,
        lower.0.backend->Memory_0.pos <= i64::MAX,
        exists|s: &mut ZipSource<F, L>, c: &mut CrcCtx, d: &mut CommandData| #[trigger]
            call_ensures(crc_layered_cb::<F, L>, (s, c, d, 16, 6), r) && (*s, *final(s)) == lower
                && (*c, *final(c)) == ctx && d@ == DataView::Seek(args),
    ensures
        ({
            let m = lower.0.backend->Memory_0;
            match leads_to(args.offset, args.whence, m.pos, m.data@.len()) {
                Some(t) => {
                    let to = if t < m.data@.len() { t } else { m.data@.len() as int };
                    &&& r == 0
                    &&& ctx.1 == (CrcCtx { position: to as u64, ..ctx.0 })
                    &&& lower.1@.backend->Memory_0.pos == to
                    &&& lower.1@.backend->Memory_0.data == m.data@
                },
                None => r == -1 && ctx.1 == ctx.0 && lower.1@.backend == lower.0@.backend,
            }
        }),
{
    let o = step(lower.0@, 6, DataView::Seek(args), 16);
    let t = told(o.source);
    assert(lower.1@ == o.source);
}

/// The place that a seek argument asks for is given if it lies within the length; else
/// that is stored.
pub proof fn law_offset_is_computed(
    offset: u64,
    length: u64,
    args: ZipSourceArgsSeek,
    len: u64,
    e: (i32, i32),
    r: i64,
)
    requires
        offset <= i64::MAX,
        length <= i64::MAX,
        exists|p: &mut i32| #[trigger]
            call_ensures(
                zip_source_seek_compute_offset,
                (offset, length, &CommandData::Seek(args), len, Some(p)),
                r,
            ) && (*p, *final(p)) == e,
    ensures
        ({
            let t = leads_to(
                args.offset,
                args.whence,
                offset,
                length as nat,
            );
            let fine = len >= 16 && t is Some && t->0 <= length;
            &&& fine ==> r == t->0 && e.1 == e.0
            &&& !fine ==> r == -1 && e.1 == 18
        }),
{
}

proof fn lemma_bitmap(cmds: Seq<i32>, n: int, i: int, m: i64)
    requires
        0 <= i < n <= cmds.len(),
        forall|j: int| 0 <= j < n ==> #[trigger] cmds[j] >= 0,
    ensures
        bitmap(cmds) & bit(cmds[i]) == bit(cmds[i]),
    decreases i,
{
    let b = bit(cmds[0]);
    let rest = bitmap(cmds.skip(1));
    if i == 0 {
        assert((b | rest) & b == b) by (bit_vector);
    } else {
        let s = cmds.skip(1);
        assert forall|j: int| 0 <= j < n - 1 implies #[trigger] s[j] >= 0 by {
            assert(cmds[j + 1] >= 0);
        }
        lemma_bitmap(s, n - 1, i - 1, m);
        let c = bit(cmds[i]);
        assert(s[i - 1] == cmds[i]);
        assert(cmds[0] >= 0);
        assert(rest & c == c ==> (b | rest) & c == c) by (bit_vector);
    }
}

proof fn lemma_not_in_bitmap(cmds: Seq<i32>, m: i64)
    requires
        forall|j: int| 0 <= j < cmds.len() ==> bit(#[trigger] cmds[j]) & m == 0,
    ensures
        bitmap(cmds) & m == 0,
    decreases cmds.len(),
{
    if cmds.len() == 0 || cmds[0] < 0 {
        assert(0i64 & m == 0) by (bit_vector);
    } else {
        let s = cmds.skip(1);
        assert forall|j: int| 0 <= j < s.len() implies bit(#[trigger] s[j]) & m == 0 by {
            assert(s[j] == cmds[j + 1]);
        }
        lemma_not_in_bitmap(s, m);
        let b = bit(cmds[0]);
        let rest = bitmap(s);
        assert(b & m == 0 && rest & m == 0 ==> (b | rest) & m == 0) by (bit_vector);
    }
}

/// A mask has the bits of the commands before the first negative one, and no bit that
/// none of the commands has.
pub proof fn law_mask_of_commands(cmds: &[i32], r: i64, n: int, i: int, m: i64)
    requires
        call_ensures(make_bitmap, (cmds,), r),
        0 <= i < n <= cmds@.len(),
        forall|j: int| 0 <= j < n ==> #[trigger] cmds@[j] >= 0,
    ensures
        r & bit(cmds@[i]) == bit(cmds@[i]),
        (forall|j: int| 0 <= j < cmds@.len() ==> bit(#[trigger] cmds@[j]) & m == 0) ==> r & m == 0,
{
    lemma_bitmap(cmds@, n, i, m);
    if forall|j: int| 0 <= j < cmds@.len() ==> bit(#[trigger] cmds@[j]) & m == 0 {
        lemma_not_in_bitmap(cmds@, m);
    }
}

/// A record that is cleared tells nothing.
pub proof fn law_record_is_cleared(b: StatRecord)
    requires
        exists|s: &mut StatRecord| #[trigger]
            call_ensures(zip_stat_init, (Some(s),), ()) && *final(s) == b,
    ensures
        b.valid == 0,
        b.name is None,
        b.index == 0,
        b.size == 0,
        b.comp_size == 0,
        b.mtime == 0,
        b.crc == 0,
        b.comp_method == 0,
        b.encryption_method == 0,
        b.flags == 0,
{
}

/// The codes that are set in an error object are those that it then gives, one by one
/// and as a pair.
pub proof fn law_error_codes_are_given(
    e: zip_error,
    zip: i32,
    sys: i32,
    a: i32,
    b: i32,
    length: u64,
    pair: (ErrorPair, ErrorPair),
    n: i64,
)
    requires
        exists|x: &mut zip_error| #[trigger]
            call_ensures(zip_error_set, (Some(x), zip, sys), ()) && *final(x) == e,
        call_ensures(zip_error_code_zip, (Some(&e),), a),
        call_ensures(zip_error_code_system, (Some(&e),), b),
        exists|d: &mut ErrorPair| #[trigger]
            call_ensures(zip_error_to_data, (Some(&e), Some(d), length), n) && (*d, *final(d))
                == pair,
    ensures
        a == zip,
        b == sys,
        length >= 8 ==> n == 8 && pair.1.zip_err == zip && pair.1.sys_err == sys,
        length < 8 ==> n == -1 && pair.1 == pair.0,
{
}

/// Each entry of an archive is checked by what was found of it under its own index.
pub proof fn law_each_entry_is_checked<D: Fn(u64) -> Finding>(
    archive: String,
    count: u64,
    names_count: bool,
    find: D,
    r: ArchiveCheck,
    i: u64,
)
    requires
        call_ensures(check_entries::<D>, (archive, count, names_count, find), r),
        i < count,
    ensures
        r.entries@.len() == count,
        exists|f: Finding|
            {
                let c = r.entries@[i as int];
                &&& #[trigger] call_ensures(find, (i,), f)
                &&& c.index == i
                &&& c.name == f.name
                &&& c.size == f.size
                &&& c.method == f.method
                &&& c.bytes_match <==> f.read@ == f.expected@
                &&& c.size_match <==> f.read@.len() == f.expected@.len()
                &&& c.name_match == f.name_match
            },
        r.all_match ==> {
            let c = r.entries@[i as int];
            c.bytes_match && c.size_match && (names_count ==> c.name_match)
        },
{
    let f = choose|f: Finding|
        call_ensures(find, (i,), f) && #[trigger] checks(check_at(r.entries@, i), i, f);
    assert(check_at(r.entries@, i) == r.entries@[i as int]);
    if r.all_match {
        assert(passed(r.entries@[i as int], names_count));
    }
}

} // verus!
