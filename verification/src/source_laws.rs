//! What commands on a source over a buffer do: to the bytes, to the positions, and
//! to what is told of them; and what a source that is made holds.
//!
//! A law here speaks of a call: of what was handed in, and of what came back.

use crate::archive::Zip;
use crate::command::DataView;
use crate::consts::{STAT_SIZE, ZIP_SOURCE_OPEN, ZIP_SOURCE_STAT};
use crate::errors::err_msg;
use crate::memory::{MemView, NodeView, WriteView};
use crate::source::{
    remaining, step, BackendView, LayeredCallback, ReadFailure, SourceBackend, SourceCallback,
    SourceView, ZipSource,
};
use crate::source_api::{
    zip_source_at_eof, zip_source_close, zip_source_free, zip_source_is_deleted,
    zip_source_is_seekable, zip_source_keep, zip_source_open, zip_source_read, zip_source_seek,
    zip_source_stat, zip_source_tell,
};
use crate::source_new::{
    entry_source, file_stat, joined, make_memory_source, makes, window, window_source, window_stat,
    zip_buffer_fragment as Fragment, zip_source_buffer, zip_source_buffer_fragment_create,
    zip_source_file_create, zip_source_function_create, zip_source_win32a_create,
    zip_source_window_create, zip_source_zip_create, FileContent,
};
use crate::stat::{empty_stat, unknown_stat, zip_stat as StatRecord, Stat, StatView};
use crate::write_session::{
    zip_source_begin_write, zip_source_begin_write_cloning, zip_source_commit_write,
    zip_source_rollback_write, zip_source_seek_write, zip_source_tell_write, zip_source_write,
};
use vstd::prelude::*;

verus! {

/// Whether a call failed with a code: it is recorded, and nothing else is changed.
pub open spec fn source_refused<F, L>(
    before: SourceView<F, L>,
    after: SourceView<F, L>,
    code: i32,
) -> bool {
    &&& after == (SourceView {
        node: NodeView { error: after.node.error, ..before.node },
        ..before
    })
    &&& after.node.error.zip_err == code
    &&& after.node.error.sys_err == 0
    &&& after.node.error.str == Some(err_msg(code))
}

/// Whether a source is the same but for its buffer and the positions in it.
pub open spec fn buffer_becomes<F, L>(
    before: SourceView<F, L>,
    after: SourceView<F, L>,
    m: MemView,
) -> bool {
    after == SourceView { backend: BackendView::Memory(m), ..before }
}

/// Where a seek leads: to the offset, counted from the start, from a position or
/// from an end. There is no such place from anywhere else, or before the start.
pub open spec fn leads_to(offset: i64, whence: i32, pos: u64, end: nat) -> Option<int> {
    let from = if whence == 0 {
        0int
    } else if whence == 1 {
        pos as int
    } else {
        end as int
    };
    if (whence == 0 || whence == 1 || whence == 2) && 0 <= from + offset <= i64::MAX {
        Some(from + offset)
    } else {
        None
    }
}

/// Opening a source leads reading back to its start.
pub proof fn law_source_opened<F: SourceCallback, L: LayeredCallback<F>>(
    before: SourceView<F, L>,
    after: SourceView<F, L>,
    r: i32,
)
    requires
        before.backend is Memory,
        exists|s: &mut ZipSource<F, L>| #[trigger]
            call_ensures(zip_source_open::<F, L>, (Some(s),), r) && s@ == before
                && final(s)@ == after,
    ensures
        r == 0,
        after == (SourceView {
            backend: BackendView::<F, L>::Memory(MemView { pos: 0, ..before.backend->Memory_0 }),
            node: NodeView { opened: true, eof: false, ..before.node },
        }),
{
}

/// Closing a source changes nothing.
pub proof fn law_source_closed<F: SourceCallback, L: LayeredCallback<F>>(
    before: SourceView<F, L>,
    after: SourceView<F, L>,
    r: i32,
)
    requires
        before.backend is Memory,
        exists|s: &mut ZipSource<F, L>| #[trigger]
            call_ensures(zip_source_close::<F, L>, (Some(s),), r) && s@ == before
                && final(s)@ == after,
    ensures
        r == 0,
        after == before,
{
}

/// A read moves the next bytes into the buffer: as many as are asked for, as there is
/// room for, and as are left. What is behind them in the buffer stays, and the next
/// read goes on where this one ended.
pub proof fn law_source_read<F: SourceCallback, L: LayeredCallback<F>>(
    before: SourceView<F, L>,
    after: SourceView<F, L>,
    buf: (Seq<u8>, Seq<u8>),
    len: u64,
    r: i64,
)
    requires
        before.backend is Memory,
        before.backend->Memory_0.data.len() <= i64::MAX,
        exists|s: &mut ZipSource<F, L>, b: &mut Vec<u8>| #[trigger]
            call_ensures(zip_source_read::<F, L>, (Some(s), b, len), r) && s@ == before
                && final(s)@ == after && (b@, final(b)@) == buf,
    ensures
        ({
            let m = before.backend->Memory_0;
            let left = if m.pos < m.data.len() { m.data.len() - m.pos } else { 0 };
            let room = if buf.0.len() < len { buf.0.len() as int } else { len as int };
            let k = if left < room { left } else { room };
            &&& r == k
            &&& buf.1.len() == buf.0.len()
            &&& forall|i: int|
                0 <= i < buf.0.len() ==> #[trigger] buf.1[i] == (if i < k {
                    m.data[m.pos + i]
                } else {
                    buf.0[i]
                })
            &&& after == (SourceView {
                backend: BackendView::<F, L>::Memory(MemView { pos: (m.pos + k) as u64, ..m }),
                node: NodeView {
                    eof: before.node.eof || (k == 0 && m.pos >= m.data.len()),
                    ..before.node
                },
            })
        }),
{
}

/// A seek leads reading to a place, to the end at most, and notes whether that is
/// the end.
pub proof fn law_source_sought<F: SourceCallback, L: LayeredCallback<F>>(
    before: SourceView<F, L>,
    after: SourceView<F, L>,
    offset: i64,
    whence: i32,
    r: i32,
)
    requires
        before.backend is Memory,
        before.backend->Memory_0.data.len() <= i64::MAX,
        before.backend->Memory_0.pos <= i64::MAX,
        exists|s: &mut ZipSource<F, L>| #[trigger]
            call_ensures(zip_source_seek::<F, L>, (Some(s), offset, whence), r) && s@ == before
                && final(s)@ == after,
    ensures
        ({
            let m = before.backend->Memory_0;
            match leads_to(offset, whence, m.pos, m.data.len()) {
                Some(t) => {
                    &&& r == 0
                    &&& after == (SourceView {
                        backend: BackendView::<F, L>::Memory(
                            MemView {
                                pos: if t < m.data.len() { t as u64 } else { m.data.len() as u64 },
                                ..m
                            },
                        ),
                        node: NodeView { eof: t >= m.data.len(), ..before.node },
                    })
                },
                None => r == -1 && source_refused(before, after, 18),
            }
        }),
{
}

/// The position that is told is where reading goes on.
pub proof fn law_source_told<F: SourceCallback, L: LayeredCallback<F>>(
    before: SourceView<F, L>,
    after: SourceView<F, L>,
    r: i64,
)
    requires
        before.backend is Memory,
        before.backend->Memory_0.pos <= i64::MAX,
        exists|s: &mut ZipSource<F, L>| #[trigger]
            call_ensures(zip_source_tell::<F, L>, (Some(s),), r) && s@ == before
                && final(s)@ == after,
    ensures
        r == before.backend->Memory_0.pos,
        after == before,
{
}

/// A source is at its end exactly if nothing is left to be read.
pub proof fn law_source_at_end<F: SourceCallback, L: LayeredCallback<F>>(
    before: SourceView<F, L>,
    after: SourceView<F, L>,
    r: i32,
)
    requires
        before.backend is Memory,
        exists|s: &mut ZipSource<F, L>| #[trigger]
            call_ensures(zip_source_at_eof::<F, L>, (Some(s),), r) && s@ == before
                && final(s)@ == after,
    ensures
        r == (if before.backend->Memory_0.pos >= before.backend->Memory_0.data.len() {
            1int
        } else {
            0
        }),
        after == before,
{
}

/// A source is seekable exactly if its mask says that it takes SEEK.
pub proof fn law_source_is_seekable<F: SourceCallback, L: LayeredCallback<F>>(
    before: SourceView<F, L>,
    after: SourceView<F, L>,
    r: i32,
)
    requires
        before.backend is Memory,
        exists|s: &mut ZipSource<F, L>| #[trigger]
            call_ensures(zip_source_is_seekable::<F, L>, (Some(s),), r) && s@ == before
                && final(s)@ == after,
    ensures
        before.node.supports >= 0 ==> after == before,
        r == (if after.node.supports & 0x40 != 0 { 1int } else { 0 }),
{
}

/// What a source stands for can be removed exactly if its mask says that it takes
/// REMOVE.
pub proof fn law_source_is_removable<F: SourceCallback, L: LayeredCallback<F>>(
    before: SourceView<F, L>,
    after: SourceView<F, L>,
    r: i32,
)
    requires
        before.backend is Memory,
        exists|s: &mut ZipSource<F, L>| #[trigger]
            call_ensures(zip_source_is_deleted::<F, L>, (Some(s),), r) && s@ == before
                && final(s)@ == after,
    ensures
        before.node.supports >= 0 ==> after == before,
        r == (if after.node.supports & 0x8000 != 0 { 1int } else { 0 }),
{
}

/// Whether a record tells what a source knows of itself: of each field the value
/// with its bit, and 0 without where it is not known.
pub open spec fn tells_of_source(b: StatView, st: Stat) -> bool {
    &&& st.size matches Some(v) ==> b.size == v && b.valid & 0x04 == 0x04
    &&& st.size is None ==> b.size == 0 && b.valid & 0x04 == 0
    &&& st.comp_size matches Some(v) ==> b.comp_size == v && b.valid & 0x08 == 0x08
    &&& st.comp_size is None ==> b.comp_size == 0 && b.valid & 0x08 == 0
    &&& st.mtime matches Some(v) ==> b.mtime == v as i64 && b.valid & 0x10 == 0x10
    &&& st.mtime is None ==> b.mtime == 0 && b.valid & 0x10 == 0
    &&& st.crc matches Some(v) ==> b.crc == v && b.valid & 0x20 == 0x20
    &&& st.crc is None ==> b.crc == 0 && b.valid & 0x20 == 0
    &&& st.comp_method matches Some(v) ==> b.comp_method == v && b.valid & 0x40 == 0x40
    &&& st.comp_method is None ==> b.comp_method == 0 && b.valid & 0x40 == 0
    &&& st.encryption_method matches Some(v) ==> b.encryption_method == v && b.valid & 0x80
        == 0x80
    &&& st.encryption_method is None ==> b.encryption_method == 0 && b.valid & 0x80 == 0
    &&& b.valid & 0xFFFF_FFFF_FFFF_FF03 == 0
    &&& b.name is None
    &&& b.index == 0
    &&& b.flags == 0
}

proof fn lemma_bits(a: u64, b: u64, c: u64, d: u64, e: u64, f: u64)
    requires
        a == 0 || a == 0x04,
        b == 0 || b == 0x08,
        c == 0 || c == 0x10,
        d == 0 || d == 0x20,
        e == 0 || e == 0x40,
        f == 0 || f == 0x80,
    ensures
        ({
            let v = a | b | c | d | e | f;
            &&& v & 0x04 == a
            &&& v & 0x08 == b
            &&& v & 0x10 == c
            &&& v & 0x20 == d
            &&& v & 0x40 == e
            &&& v & 0x80 == f
            &&& v & 0xFFFF_FFFF_FFFF_FF03 == 0
        }),
{
    assert({
        let v = a | b | c | d | e | f;
        &&& v & 0x04 == a
        &&& v & 0x08 == b
        &&& v & 0x10 == c
        &&& v & 0x20 == d
        &&& v & 0x40 == e
        &&& v & 0x80 == f
        &&& v & 0xFFFF_FFFF_FFFF_FF03 == 0
    }) by (bit_vector)
        requires
            a == 0 || a == 0x04,
            b == 0 || b == 0x08,
            c == 0 || c == 0x10,
            d == 0 || d == 0x20,
            e == 0 || e == 0x40,
            f == 0 || f == 0x80,
    ;
}

/// What is told of a source is what it knows of itself.
pub proof fn law_source_tells<F: SourceCallback, L: LayeredCallback<F>>(
    before: SourceView<F, L>,
    after: SourceView<F, L>,
    b: StatView,
    r: i32,
)
    requires
        before.backend is Memory,
        exists|s: &mut ZipSource<F, L>, sb: &mut StatRecord| #[trigger]
            call_ensures(zip_source_stat::<F, L>, (Some(s), Some(sb)), r) && s@ == before
                && final(s)@ == after && final(sb)@ == b,
    ensures
        r == 0,
        after == before,
        tells_of_source(b, before.backend->Memory_0.stat),
{
    let st = before.backend->Memory_0.stat;
    lemma_bits(
        if st.size is Some { 0x04 } else { 0 },
        if st.comp_size is Some { 0x08 } else { 0 },
        if st.mtime is Some { 0x10 } else { 0 },
        if st.crc is Some { 0x20 } else { 0 },
        if st.comp_method is Some { 0x40 } else { 0 },
        if st.encryption_method is Some { 0x80 } else { 0 },
    );
}

/// A holder more is counted, and nothing else is changed.
pub proof fn law_source_kept<F: SourceCallback, L: LayeredCallback<F>>(
    before: SourceView<F, L>,
    after: SourceView<F, L>,
)
    requires
        before.backend is Memory,
        before.node.refcount < i32::MAX,
        exists|s: &mut ZipSource<F, L>| #[trigger]
            call_ensures(zip_source_keep::<F, L>, (Some(s),), ()) && s@ == before
                && final(s)@ == after,
    ensures
        after == (SourceView {
            node: NodeView { refcount: (before.node.refcount + 1) as i32, ..before.node },
            ..before
        }),
{
}

/// The last holder of a source that lets go leaves nothing of it; any other leaves
/// it as it is, with a holder less.
pub proof fn law_source_let_go<F: SourceCallback, L: LayeredCallback<F>>(
    s: Box<ZipSource<F, L>>,
    r: Option<Box<ZipSource<F, L>>>,
)
    requires
        s.backend is Memory,
        call_ensures(zip_source_free::<F, L>, (Some(s),), r),
    ensures
        s.node.refcount <= 1 ==> r is None,
        s.node.refcount > 1 ==> r is Some && r->0@ == (SourceView {
            node: NodeView { refcount: (s.node.refcount - 1) as i32, ..s@.node },
            ..s@
        }),
{
}

/// A session begins with nothing written. Only one is open at a time.
pub proof fn law_session_begun<F: SourceCallback, L: LayeredCallback<F>>(
    before: SourceView<F, L>,
    after: SourceView<F, L>,
    r: i32,
)
    requires
        before.backend is Memory,
        exists|s: &mut ZipSource<F, L>| #[trigger]
            call_ensures(zip_source_begin_write::<F, L>, (Some(s),), r) && s@ == before
                && final(s)@ == after,
    ensures
        before.node.write_open ==> r == -1 && source_refused(before, after, 18),
        !before.node.write_open ==> {
            &&& r == 0
            &&& after.backend == BackendView::<F, L>::Memory(
                MemView {
                    pending: Some(WriteView { out: Seq::empty(), offset: 0 }),
                    ..before.backend->Memory_0
                },
            )
            &&& after.node == (NodeView {
                write_open: true,
                error: after.node.error,
                ..before.node
            })
            &&& after.node.error.zip_err == 0
        },
{
}

/// A session on a copy begins with the first bytes written, and goes on behind them.
/// It cannot begin with more than there are.
pub proof fn law_session_begun_on_a_copy<F: SourceCallback, L: LayeredCallback<F>>(
    before: SourceView<F, L>,
    after: SourceView<F, L>,
    offset: u64,
    r: i32,
)
    requires
        before.backend is Memory,
        exists|s: &mut ZipSource<F, L>| #[trigger]
            call_ensures(zip_source_begin_write_cloning::<F, L>, (Some(s), offset), r)
                && s@ == before && final(s)@ == after,
    ensures
        ({
            let m = before.backend->Memory_0;
            &&& before.node.write_open || offset > m.data.len() ==> r == -1 && source_refused(
                before,
                after,
                18,
            )
            &&& !before.node.write_open && offset <= m.data.len() ==> {
                &&& r == 0
                &&& after == (SourceView {
                    backend: BackendView::<F, L>::Memory(
                        MemView {
                            pending: Some(WriteView { out: m.data.take(offset as int), offset }),
                            ..m
                        },
                    ),
                    node: NodeView { write_open: true, ..before.node },
                })
            }
        }),
{
}

/// A write puts its bytes where the session stands, over what is there or behind it,
/// with zeros in a gap, and goes on behind them. What was read before stays so.
/// Without a session it is refused.
pub proof fn law_session_written<F: SourceCallback, L: LayeredCallback<F>>(
    before: SourceView<F, L>,
    after: SourceView<F, L>,
    data: &[u8],
    len: u64,
    r: i64,
)
    requires
        before.backend is Memory,
        len <= data@.len(),
        exists|s: &mut ZipSource<F, L>| #[trigger]
            call_ensures(zip_source_write::<F, L>, (Some(s), Some(data), len), r)
                && s@ == before && final(s)@ == after,
    ensures
        !before.node.write_open ==> r == -1 && source_refused(before, after, 18),
        before.node.write_open && before.backend->Memory_0.pending is Some ==> {
            let m = before.backend->Memory_0;
            let w = m.pending->0;
            &&& w.offset + len <= isize::MAX ==> {
                let n = after.backend->Memory_0.pending->0;
                let end = w.offset + len;
                &&& r == len
                &&& buffer_becomes(before, after, MemView { pending: Some(n), ..m })
                &&& n.offset == end
                &&& n.out.len() == (if w.out.len() < end { end } else { w.out.len() as int })
                &&& forall|i: int|
                    0 <= i < n.out.len() ==> #[trigger] n.out[i] == (if w.offset <= i < end {
                        data@[i - w.offset]
                    } else if i < w.out.len() {
                        w.out[i]
                    } else {
                        0
                    })
            }
            &&& w.offset + len > isize::MAX ==> r == -1 && source_refused(before, after, 6)
        },
{
    if before.node.write_open && before.backend->Memory_0.pending is Some {
        let w = before.backend->Memory_0.pending->0;
        assert(data@.take(len as int).len() == len);
    }
}

/// A seek in a session leads writing to a place, which may lie behind the end.
pub proof fn law_session_sought<F: SourceCallback, L: LayeredCallback<F>>(
    before: SourceView<F, L>,
    after: SourceView<F, L>,
    offset: i64,
    whence: i32,
    r: i32,
)
    requires
        before.backend is Memory,
        before.backend->Memory_0.pending is Some,
        before.backend->Memory_0.pending->0.offset <= i64::MAX,
        before.backend->Memory_0.pending->0.out.len() <= i64::MAX,
        exists|s: &mut ZipSource<F, L>| #[trigger]
            call_ensures(zip_source_seek_write::<F, L>, (Some(s), offset, whence), r)
                && s@ == before && final(s)@ == after,
    ensures
        !before.node.write_open ==> r == -1 && source_refused(before, after, 18),
        before.node.write_open ==> {
            let m = before.backend->Memory_0;
            let w = m.pending->0;
            match leads_to(offset, whence, w.offset, w.out.len()) {
                Some(t) => {
                    &&& r == 0
                    &&& buffer_becomes(
                        before,
                        after,
                        MemView {
                            pending: Some(WriteView { offset: t as u64, ..w }),
                            ..m
                        },
                    )
                },
                None => r == -1 && source_refused(before, after, 18),
            }
        },
{
}

/// The position that is told of a session is where writing goes on.
pub proof fn law_session_told<F: SourceCallback, L: LayeredCallback<F>>(
    before: SourceView<F, L>,
    after: SourceView<F, L>,
    r: i64,
)
    requires
        before.backend is Memory,
        before.backend->Memory_0.pending is Some,
        before.backend->Memory_0.pending->0.offset <= i64::MAX,
        exists|s: &mut ZipSource<F, L>| #[trigger]
            call_ensures(zip_source_tell_write::<F, L>, (Some(s),), r) && s@ == before
                && final(s)@ == after,
    ensures
        before.node.write_open ==> r == before.backend->Memory_0.pending->0.offset && after
            == before,
        !before.node.write_open ==> r == -1 && source_refused(before, after, 18),
{
}

/// What was written becomes the content on commit, to be read from its start, and its
/// size is known; the session ends.
pub proof fn law_session_committed<F: SourceCallback, L: LayeredCallback<F>>(
    before: SourceView<F, L>,
    after: SourceView<F, L>,
    r: i32,
)
    requires
        before.backend is Memory,
        before.backend->Memory_0.pending is Some,
        exists|s: &mut ZipSource<F, L>| #[trigger]
            call_ensures(zip_source_commit_write::<F, L>, (Some(s),), r) && s@ == before
                && final(s)@ == after,
    ensures
        before.node.write_open ==> {
            let m = before.backend->Memory_0;
            let out = m.pending->0.out;
            &&& r == 0
            &&& after == (SourceView {
                backend: BackendView::<F, L>::Memory(
                    MemView {
                        data: out,
                        pos: 0,
                        stat: Stat { size: Some(out.len() as u64), ..m.stat },
                        pending: None,
                    },
                ),
                node: NodeView { write_open: false, ..before.node },
            })
        },
        !before.node.write_open ==> r == -1 && source_refused(before, after, 18),
{
}

/// What was written is gone on rollback, and the content is as before; the session
/// ends. Without one nothing is changed.
pub proof fn law_session_rolled_back<F: SourceCallback, L: LayeredCallback<F>>(
    before: SourceView<F, L>,
    after: SourceView<F, L>,
)
    requires
        before.backend is Memory,
        exists|s: &mut ZipSource<F, L>| #[trigger]
            call_ensures(zip_source_rollback_write::<F, L>, (Some(s),), ()) && s@ == before
                && final(s)@ == after,
    ensures
        before.node.write_open ==> after == (SourceView {
            backend: BackendView::<F, L>::Memory(
                MemView { pending: None, ..before.backend->Memory_0 },
            ),
            node: NodeView { write_open: false, ..before.node },
        }),
        !before.node.write_open ==> after == before,
{
}

/// Reading a source whole gives all its bytes, wherever reading stood before.
pub proof fn law_source_read_whole<F: SourceCallback, L: LayeredCallback<F>>(
    before: ZipSource<F, L>,
    after: ZipSource<F, L>,
    r: Result<Vec<u8>, ReadFailure>,
)
    requires
        before.backend is Memory,
        before.backend->Memory_0.data@.len() <= isize::MAX,
        exists|s: &mut ZipSource<F, L>| #[trigger]
            call_ensures(ZipSource::<F, L>::read_all, (s,), r) && *s == before && *final(s)
                == after,
    ensures
        r is Ok,
        r->Ok_0@ == before.backend->Memory_0.data@,
        after.backend is Memory,
        after.backend->Memory_0.data@ == before.backend->Memory_0.data@,
        after.backend->Memory_0.pos == before.backend->Memory_0.data@.len(),
{
    let o = step(before@, ZIP_SOURCE_OPEN, DataView::Null, 0).source;
    let data = before.backend->Memory_0.data@;
    assert(data.skip(0) =~= data);
    assert(remaining(o) =~= data);
}

/// Whether a new source holds these bytes, to be read from their start, and knows
/// their number; nobody has opened it, and it has one holder.
pub open spec fn holds_bytes<F, L>(s: ZipSource<F, L>, bytes: Seq<u8>) -> bool {
    &&& s.backend is Memory
    &&& s.backend->Memory_0.data@ == bytes
    &&& s.backend->Memory_0.pos == 0
    &&& s.backend->Memory_0.pending is None
    &&& s.backend->Memory_0.stat.size == Some(bytes.len() as u64)
    &&& s.node.refcount == 1
    &&& !s.node.opened
    &&& !s.node.eof
    &&& !s.node.write_open
    &&& s.node.error.zip_err == 0
}

/// A source over a buffer holds the first bytes of it, and can be written. Without a
/// buffer there is only one that holds nothing.
pub proof fn law_buffer_made<F: SourceCallback, L: LayeredCallback<F>>(
    zh: Option<&Zip>,
    data: Option<&[u8]>,
    len: u64,
    freep: i32,
    r: Option<ZipSource<F, L>>,
)
    requires
        data matches Some(d) ==> len <= d@.len(),
        call_ensures(zip_source_buffer::<F, L>, (zh, data, len, freep), r),
    ensures
        r is Some <==> data is Some || len == 0,
        r matches Some(s) ==> holds_bytes(
            s,
            match data {
                Some(d) => d@.take(len as int),
                None => Seq::empty(),
            },
        ) && s.node.supports == 0x42_7fff,
{
    assert(0x40ffi64 | 0x23f00i64 | 0x40_0000i64 == 0x42_7fffi64) by (bit_vector);
}

/// Whether these are the bytes from a start on, as many as a length says or as there
/// are; all of them with a negative length. There are none for a start behind the
/// end.
pub open spec fn is_part(part: Option<Seq<u8>>, data: Seq<u8>, start: u64, len: i64) -> bool {
    if start > data.len() {
        part is None
    } else {
        let left = data.len() - start;
        let n = if len < 0 || len > left { left } else { len as int };
        &&& part is Some
        &&& part->0.len() == n
        &&& forall|i: int| 0 <= i < n ==> #[trigger] part->0[i] == data[start + i]
    }
}

/// The part of a byte string that is asked for is the one that is cut out.
pub proof fn law_part_is_cut_out(data: Seq<u8>, start: u64, len: i64)
    ensures
        is_part(window(data, start, len), data, start, len),
{
}

/// Whether a source was made over a part of some bytes, or none for want of it.
pub open spec fn made_over<F, L>(
    r: Option<ZipSource<F, L>>,
    data: Seq<u8>,
    start: u64,
    len: i64,
) -> bool {
    &&& r is Some <==> start <= data.len()
    &&& r matches Some(s) ==> exists|part: Seq<u8>| #[trigger]
        holds_bytes(s, part) && is_part(Some(part), data, start, len)
    &&& r matches Some(s) ==> s.node.supports == 0x40_40ff
}

/// A source that was made over a window of some bytes was made over that part.
pub proof fn lemma_made_over<F, L>(
    r: Option<ZipSource<F, L>>,
    data: Seq<u8>,
    start: u64,
    len: i64,
    stat: Stat,
)
    requires
        makes(
            r,
            window_source::<F, L>(data, start, len, stat),
        ),
    ensures
        made_over(r, data, start, len),
{
    assert(0x40ffi64 | 0x40_0000i64 == 0x40_40ffi64) by (bit_vector);
    law_part_is_cut_out(data, start, len);
    if let Some(s) = r {
        let part = window(data, start, len)->0;
        assert(s@.backend is Memory);
        assert(s.backend is Memory);
        assert(holds_bytes(s, part));
    }
}

/// A source over a part of some bytes holds that part, and what else is known stays
/// known.
pub proof fn law_part_made<F: SourceCallback, L: LayeredCallback<F>>(
    data: Vec<u8>,
    start: u64,
    len: i64,
    stat: Stat,
    r: Option<ZipSource<F, L>>,
)
    requires
        call_ensures(make_memory_source::<F, L>, (data, start, len, stat), r),
    ensures
        made_over(r, data@, start, len),
        r matches Some(s) ==> {
            let st = s.backend->Memory_0.stat;
            &&& st.index == stat.index
            &&& st.comp_size == stat.comp_size
            &&& st.mtime == stat.mtime
            &&& st.crc == stat.crc
            &&& st.comp_method == stat.comp_method
            &&& st.encryption_method == stat.encryption_method
        },
{
    lemma_made_over(r, data@, start, len, stat);
}

/// A source over a part of a file holds that part and knows when the file was
/// modified. There is none for a file that could not be read, and every failure is
/// stored as one to open it.
pub proof fn law_file_source_made<F: SourceCallback, L: LayeredCallback<F>>(
    read: Result<FileContent, i32>,
    start: u64,
    len: i64,
    e: (i32, i32),
    r: Option<ZipSource<F, L>>,
)
    requires
        exists|p: &mut i32| #[trigger]
            call_ensures(zip_source_file_create::<F, L>, (read, start, len, Some(p)), r) && (
            *p,
            *final(p),
        ) == e,
    ensures
        read is Err ==> r is None,
        read matches Ok(c) ==> {
            &&& made_over(r, c.data@, start, len)
            &&& r matches Some(s) ==> s.backend->Memory_0.stat.mtime == c.mtime
        },
        e.1 == (if r is Some { e.0 } else { 11 }),
{
    if let Ok(c) = read {
        lemma_made_over(r, c.data@, start, len, file_stat(c));
    }
}

/// A source over a part of a file that is named in another encoding is made likewise,
/// and the code of a failure is stored; a length below the two that reach to the end
/// is refused.
pub proof fn law_named_file_source_made<F: SourceCallback, L: LayeredCallback<F>>(
    read: Result<FileContent, i32>,
    start: u64,
    len: i64,
    e: (i32, i32),
    r: Option<ZipSource<F, L>>,
)
    requires
        exists|p: &mut i32| #[trigger]
            call_ensures(zip_source_win32a_create::<F, L>, (read, start, len, Some(p)), r) && (
            *p,
            *final(p),
        ) == e,
    ensures
        len < -2 ==> r is None && e.1 == 18,
        len >= -2 ==> match read {
            Err(code) => r is None && e.1 == code,
            Ok(c) => {
                &&& made_over(r, c.data@, start, len)
                &&& e.1 == (if r is Some { e.0 } else { 18 })
            },
        },
{
    if let Ok(c) = read {
        if len >= -2 {
            lemma_made_over(r, c.data@, start, len, file_stat(c));
        }
    }
}

/// A source over a part of an entry holds that part of what was read of the entry:
/// of its stored bytes where the flags ask for them, and else of its contents.
pub proof fn law_entry_source_made<
    F: SourceCallback,
    L: LayeredCallback<F>,
    R: Fn(u64, bool) -> Result<Vec<u8>, i32>,
    S: Fn(u64) -> Result<Stat, i32>,
>(
    z: Zip,
    index: u64,
    flags: u32,
    start: u64,
    len: i64,
    e: (i32, i32),
    read: R,
    stat: S,
    r: Option<ZipSource<F, L>>,
)
    requires
        exists|p: &mut i32| #[trigger]
            call_ensures(
                zip_source_zip_create::<F, L, R, S>,
                (Some(&z), index, flags, start, len, Some(p), read, stat),
                r,
            ) && (*p, *final(p)) == e,
    ensures
        exists|stored: bool, content: Result<Vec<u8>, i32>|
            {
                &&& #[trigger] call_ensures(read, (index, stored), content)
                &&& stored == (flags & 4 != 0)
                &&& match content {
                    Ok(data) => made_over(r, data@, start, len),
                    Err(_) => r is None,
                }
            },
        e.1 == (if r is Some { e.0 } else { z.error.zip_err }),
{
    let stored = flags & 4 != 0;
    let (content, st) = choose|content: Result<Vec<u8>, i32>, st: Result<Stat, i32>|
        {
            &&& #[trigger] call_ensures(read, (index, stored), content)
            &&& #[trigger] call_ensures(stat, (index,), st)
            &&& makes(
                r,
                entry_source::<F, L>(content, st, start, len),
            )
        };
    if let Ok(data) = content {
        lemma_made_over(
            r,
            data@,
            start,
            len,
            match st {
                Ok(x) => x,
                Err(_) => unknown_stat(),
            },
        );
    }
}

/// A window over a source over a buffer holds the part of its bytes that is asked
/// for.
pub proof fn law_window_made<F: SourceCallback, L: LayeredCallback<F>>(
    source: Box<ZipSource<F, L>>,
    offset: u64,
    len: i64,
    e: (i32, i32),
    r: (Option<ZipSource<F, L>>, Option<Box<ZipSource<F, L>>>),
)
    requires
        source.backend is Memory,
        source.backend->Memory_0.data@.len() <= isize::MAX,
        exists|p: &mut i32| #[trigger]
            call_ensures(
                zip_source_window_create::<F, L>,
                (Some(source), offset, len, Some(p)),
                r,
            ) && (*p, *final(p)) == e,
    ensures
        made_over(r.0, source.backend->Memory_0.data@, offset, len),
        e.1 == (if r.0 is Some { e.0 } else { 18 }),
        source.node.refcount <= 1 ==> r.1 is None,
{
    let s = source@;
    let o = step(
        s,
        ZIP_SOURCE_STAT,
        DataView::Stat(empty_stat()),
        STAT_SIZE,
    );
    let opened = step(o.source, ZIP_SOURCE_OPEN, DataView::Null, 0).source;
    let data = source.backend->Memory_0.data@;
    assert(data.skip(0) =~= data);
    assert(remaining(opened) =~= data);
    lemma_made_over(
        r.0,
        data,
        offset,
        len,
        window_stat(o.result, o.data),
    );
}

/// A source of the user's hands every command to the user.
pub proof fn law_function_source_made<F: SourceCallback, L: LayeredCallback<F>>(
    cb: Option<F>,
    e: (i32, i32),
    r: Option<ZipSource<F, L>>,
)
    requires
        exists|p: &mut i32| #[trigger]
            call_ensures(zip_source_function_create::<F, L>, (cb, Some(p)), r) && (*p, *final(p))
                == e,
    ensures
        r is Some <==> cb is Some,
        r matches Some(s) ==> s.backend == SourceBackend::<F, L>::Function(cb->0)
            && s.node.refcount == 1 && s.node.supports == 0x40ff,
        e.1 == (if r is Some { e.0 } else { 18 }),
{
    if let Some(s) = r {
        assert(s@.backend is Function);
        assert(s.backend is Function);
    }
}

/// The bytes of fragments, one behind the other, none if any are missing.
pub open spec fn row_of(fragments: Seq<Fragment>, n: nat) -> Seq<Seq<u8>> {
    Seq::new(
        n,
        |i: int|
            if fragments[i].length == 0 {
                Seq::empty()
            } else {
                fragments[i].data->0@.take(fragments[i].length as int)
            },
    )
}

/// Fragments are joined in their order, each with as many bytes as it says; nothing
/// comes of them if one has none though it says so.
pub proof fn law_fragments_are_joined(fragments: Seq<Fragment>, n: nat)
    requires
        n <= fragments.len(),
    ensures
        joined(fragments, n) is None <==> exists|i: int|
            0 <= i < n && (#[trigger] fragments[i]).length > 0 && fragments[i].data is None,
        joined(fragments, n) matches Some(b) ==> b == row_of(fragments, n).flatten(),
    decreases n,
{
    if n > 0 {
        let k = (n - 1) as nat;
        law_fragments_are_joined(fragments, k);
        let row = row_of(fragments, n);
        let fewer = row_of(fragments, k);
        assert(row.drop_last() =~= fewer);
        assert(row =~= fewer.push(row.last()));
        fewer.lemma_flatten_push(row.last());
        if joined(fragments, k) is None {
            let i = choose|i: int|
                0 <= i < k && (#[trigger] fragments[i]).length > 0 && fragments[i].data is None;
            assert(fragments[i].length > 0);
        }
        assert(fragments[k as int].length >= 0);
    } else {
        assert(row_of(fragments, 0) =~= Seq::empty());
        assert(row_of(fragments, 0).flatten() =~= Seq::empty());
    }
}

/// A source over fragments holds their bytes in one, and knows that they are stored
/// and not encrypted.
pub proof fn law_fragment_source_made<F: SourceCallback, L: LayeredCallback<F>>(
    fragments: Vec<Fragment>,
    n: u64,
    freep: i32,
    e: (i32, i32),
    r: Option<ZipSource<F, L>>,
)
    requires
        n <= fragments@.len(),
        forall|i: int|
            0 <= i < n && (#[trigger] fragments@[i]).length > 0 ==> fragments@[i].data is Some,
        row_of(fragments@, n as nat).flatten().len() <= isize::MAX,
        exists|p: &mut i32| #[trigger]
            call_ensures(
                zip_source_buffer_fragment_create::<F, L>,
                (Some(&fragments), n, freep, Some(p)),
                r,
            ) && (*p, *final(p)) == e,
    ensures
        r is Some,
        holds_bytes(r->0, row_of(fragments@, n as nat).flatten()),
        r->0.backend->Memory_0.stat.comp_method == Some(0u16),
        r->0.backend->Memory_0.stat.encryption_method == Some(0u16),
        e.1 == e.0,
{
    law_fragments_are_joined(fragments@, n as nat);
    let b = row_of(fragments@, n as nat).flatten();
    assert(b.subrange(0, b.len() as int) =~= b);
    assert(r->0@.backend is Memory);
}

} // verus!
