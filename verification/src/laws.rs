//! What holds across functions: of write sessions, layers, reference counts and
//! extra fields.

use crate::checksum::{crc32_of, lemma_crc32_append};
use crate::command::{seek_target, DataView, ZipSourceArgsSeek};
use crate::compress_layer::{compress_step, CompressView};
use crate::consts::{
    SEEK_ARGS_SIZE, SRC_WRITABLE, ZIP_ER_OPNOTSUPP, ZIP_EXTRA_FIELD_ALL, ZIP_EXTRA_FIELD_NEW,
    ZIP_SOURCE_BEGIN_WRITE, ZIP_SOURCE_BEGIN_WRITE_CLONING, ZIP_SOURCE_COMMIT_WRITE,
    ZIP_SOURCE_OPEN, ZIP_SOURCE_READ, ZIP_SOURCE_ROLLBACK_WRITE, ZIP_SOURCE_SEEK,
    ZIP_SOURCE_SEEK_WRITE, ZIP_SOURCE_TELL_WRITE,
    ZIP_SOURCE_WRITE, ZIP_STAT_COMP_METHOD, ZIP_STAT_COMP_SIZE, ZIP_STAT_CRC,
    ZIP_STAT_ENCRYPTION_METHOD, ZIP_STAT_SIZE,
};
use crate::edit::source_content;
use crate::extra::{apply_op, count_id, drop_id, lemma_nth_place, nth_place, FieldView, OpView};
use crate::memory::{mem_step, new_node, offered, overwritten, MemView, NodeView, WriteView};
use crate::source::{
    addressable, crc_stat, crc_took, drained, in_sync, remaining, step, told, BackendView, CrcCtx,
    Layer, SourceView,
};
use crate::source_api::{kept, released};
use crate::source_new::{buffer_source, window, window_source};
use crate::stat::{Stat, StatView};
use vstd::prelude::*;

verus! {

/// Every command keeps a memory source in order: positions lie within buffers
/// and buffers can exist.
pub proof fn law_memory_stays_in_order(
    n: NodeView,
    m: MemView,
    cmd: i32,
    d: DataView,
    len: u64,
)
    requires
        m.wf(),
    ensures
        mem_step(n, m, cmd, d, len).mem.wf(),
{
    if cmd == ZIP_SOURCE_WRITE {
        if let Some(w) = m.pending {
            if let Some(bytes) = offered(d, len) {
                if w.offset + len <= isize::MAX {
                    lemma_overwritten_len(w.out, w.offset as int, bytes);
                }
            }
        }
    }
}

proof fn lemma_overwritten_len(out: Seq<u8>, offset: int, bytes: Seq<u8>)
    requires
        offset >= 0,
    ensures
        overwritten(out, offset, bytes).len() == (if out.len() < offset + bytes.len() {
            offset + bytes.len()
        } else {
            out.len() as int
        }),
{
}

/// Until it is committed a write session does not show: what a read gives, and
/// from where, is as before.
pub proof fn law_session_does_not_show<F, L>(
    s: SourceView<F, L>,
    cmd: i32,
    d: DataView,
    len: u64,
)
    requires
        s.backend is Memory,
        cmd == ZIP_SOURCE_BEGIN_WRITE || cmd == ZIP_SOURCE_BEGIN_WRITE_CLONING || cmd
            == ZIP_SOURCE_WRITE || cmd == ZIP_SOURCE_SEEK_WRITE || cmd == ZIP_SOURCE_TELL_WRITE
            || cmd == ZIP_SOURCE_ROLLBACK_WRITE,
    ensures
        remaining(step(s, cmd, d, len).source) == remaining(s),
        source_content(step(s, cmd, d, len).source) == source_content(s),
{
}

/// What is written in a session and committed is what is read: a session on an
/// empty buffer, one write, and a commit make the written bytes the content.
pub proof fn law_written_is_read<F, L>(s: SourceView<F, L>, bytes: Seq<u8>)
    requires
        s.backend is Memory,
        bytes.len() <= isize::MAX,
    ensures
        ({
            let begun = step(s, ZIP_SOURCE_BEGIN_WRITE, DataView::Null, 0);
            let written = step(
                begun.source.with_session(true).failed(0),
                ZIP_SOURCE_WRITE,
                DataView::Bytes(bytes),
                bytes.len() as u64,
            );
            let committed = step(written.source, ZIP_SOURCE_COMMIT_WRITE, DataView::Null, 0);
            &&& begun.result == 0
            &&& written.result == bytes.len()
            &&& committed.result == 0
            &&& source_content(committed.source.with_session(false)) == Some(bytes)
        }),
{
    let begun = step(s, ZIP_SOURCE_BEGIN_WRITE, DataView::Null, 0);
    let open = begun.source.with_session(true).failed(0);
    let written = step(open, ZIP_SOURCE_WRITE, DataView::Bytes(bytes), bytes.len() as u64);
    assert(bytes.take(bytes.len() as int) =~= bytes);
    assert(overwritten(Seq::empty(), 0, bytes) =~= bytes);
    let committed = step(written.source, ZIP_SOURCE_COMMIT_WRITE, DataView::Null, 0);
    let again = step(committed.source.with_session(false), ZIP_SOURCE_OPEN, DataView::Null, 0);
    assert(bytes.skip(0) =~= bytes);
    assert(remaining(again.source) =~= bytes);
}

/// A source behind a row of writes.
pub open spec fn behind_writes<F, L>(s: SourceView<F, L>, chunks: Seq<Seq<u8>>) -> SourceView<F, L>
    decreases chunks.len(),
{
    if chunks.len() == 0 {
        s
    } else {
        step(
            behind_writes(s, chunks.drop_last()),
            ZIP_SOURCE_WRITE,
            DataView::Bytes(chunks.last()),
            chunks.last().len() as u64,
        ).source
    }
}

proof fn lemma_behind_writes<F, L>(s: SourceView<F, L>, m: MemView, chunks: Seq<Seq<u8>>)
    requires
        s.backend == BackendView::<F, L>::Memory(m),
        m.pending == Some(WriteView { out: Seq::empty(), offset: 0 }),
        chunks.flatten().len() <= isize::MAX,
    ensures
        behind_writes(s, chunks).node == s.node,
        behind_writes(s, chunks).backend == BackendView::<F, L>::Memory(
            MemView {
                pending: Some(
                    WriteView { out: chunks.flatten(), offset: chunks.flatten().len() as u64 },
                ),
                ..m
            },
        ),
    decreases chunks.len(),
{
    if chunks.len() == 0 {
        assert(chunks.flatten() =~= Seq::empty());
    } else {
        let before = chunks.drop_last();
        let last = chunks.last();
        before.lemma_flatten_push(last);
        assert(before.push(last) =~= chunks);
        assert(chunks.flatten() =~= before.flatten() + last);
        lemma_behind_writes(s, m, before);
        assert(last.take(last.len() as int) =~= last);
        law_write_appends(before.flatten(), last);
    }
}

/// What is written in a session piece by piece and committed is read in one:
/// the pieces in their order.
pub proof fn law_pieces_are_read<F, L>(s: SourceView<F, L>, chunks: Seq<Seq<u8>>)
    requires
        s.backend is Memory,
        chunks.flatten().len() <= isize::MAX,
    ensures
        ({
            let begun = step(s, ZIP_SOURCE_BEGIN_WRITE, DataView::Null, 0);
            let written = behind_writes(begun.source.with_session(true).failed(0), chunks);
            let committed = step(written, ZIP_SOURCE_COMMIT_WRITE, DataView::Null, 0);
            &&& committed.result == 0
            &&& source_content(committed.source.with_session(false)) == Some(chunks.flatten())
        }),
{
    let begun = step(s, ZIP_SOURCE_BEGIN_WRITE, DataView::Null, 0);
    let open = begun.source.with_session(true).failed(0);
    lemma_behind_writes(open, open.backend->Memory_0, chunks);
    let bytes = chunks.flatten();
    let committed = step(behind_writes(open, chunks), ZIP_SOURCE_COMMIT_WRITE, DataView::Null, 0);
    let again = step(committed.source.with_session(false), ZIP_SOURCE_OPEN, DataView::Null, 0);
    assert(bytes.skip(0) =~= bytes);
    assert(remaining(again.source) =~= bytes);
}

/// Writing at the end of what was written appends to it.
pub proof fn law_write_appends(out: Seq<u8>, bytes: Seq<u8>)
    ensures
        overwritten(out, out.len() as int, bytes) == out + bytes,
{
    assert(overwritten(out, out.len() as int, bytes) =~= out + bytes);
}

/// Writing somewhere else changes the bytes there and no others; a gap before
/// them reads as zero.
pub proof fn law_write_is_local(out: Seq<u8>, offset: int, bytes: Seq<u8>, i: int)
    requires
        0 <= offset,
        0 <= i < overwritten(out, offset, bytes).len(),
    ensures
        overwritten(out, offset, bytes)[i] == (if offset <= i < offset + bytes.len() {
            bytes[i - offset]
        } else if i < out.len() {
            out[i]
        } else {
            0
        }),
{
}

/// A session on a copy of the first bytes that is committed at once leaves
/// these as the content.
pub proof fn law_cloning_keeps_the_start<F, L>(s: SourceView<F, L>, offset: u64)
    requires
        s.backend is Memory,
        offset <= s.backend->Memory_0.data.len() <= isize::MAX,
    ensures
        ({
            let begun = step(s, ZIP_SOURCE_BEGIN_WRITE_CLONING, DataView::Null, offset);
            let committed = step(
                begun.source.with_session(true),
                ZIP_SOURCE_COMMIT_WRITE,
                DataView::Null,
                0,
            );
            &&& begun.result == 0
            &&& committed.result == 0
            &&& source_content(committed.source.with_session(false)) == Some(
                s.backend->Memory_0.data.take(offset as int),
            )
        }),
{
    let start = s.backend->Memory_0.data.take(offset as int);
    let begun = step(s, ZIP_SOURCE_BEGIN_WRITE_CLONING, DataView::Null, offset);
    let committed = step(
        begun.source.with_session(true),
        ZIP_SOURCE_COMMIT_WRITE,
        DataView::Null,
        0,
    );
    let again = step(committed.source.with_session(false), ZIP_SOURCE_OPEN, DataView::Null, 0);
    assert(start.skip(0) =~= start);
    assert(remaining(again.source) =~= start);
}

/// A session that is rolled back leaves the content as it was before.
pub proof fn law_rollback_discards<F, L>(s: SourceView<F, L>, bytes: Seq<u8>)
    requires
        s.backend is Memory,
    ensures
        ({
            let begun = step(s, ZIP_SOURCE_BEGIN_WRITE, DataView::Null, 0);
            let written = step(
                begun.source.with_session(true).failed(0),
                ZIP_SOURCE_WRITE,
                DataView::Bytes(bytes),
                bytes.len() as u64,
            );
            let back = step(written.source, ZIP_SOURCE_ROLLBACK_WRITE, DataView::Null, 0);
            &&& source_content(back.source.with_session(false)) == source_content(s)
            &&& back.source.backend->Memory_0.pending is None
        }),
{
}

/// Behind a seek the position is the one that was sought, the end at most.
pub proof fn law_seek_sets_position<F, L>(s: SourceView<F, L>, args: ZipSourceArgsSeek)
    requires
        s.backend is Memory,
        s.backend->Memory_0.data.len() <= isize::MAX,
        seek_target(
            args,
            s.backend->Memory_0.pos,
            s.backend->Memory_0.data.len() as u64,
        ) is Some,
    ensures
        ({
            let len = s.backend->Memory_0.data.len();
            let target = seek_target(args, s.backend->Memory_0.pos, len as u64)->0;
            let o = step(s, ZIP_SOURCE_SEEK, DataView::Seek(args), SEEK_ARGS_SIZE);
            &&& o.result == 0
            &&& told(o.source) == (if target < len { target as int } else { len as int })
            &&& remaining(o.source) == s.backend->Memory_0.data.skip(told(o.source) as int)
        }),
{
    let m = s.backend->Memory_0;
    let o = step(s, ZIP_SOURCE_SEEK, DataView::Seek(args), SEEK_ARGS_SIZE);
    assert(remaining(o.source) =~= m.data.skip(told(o.source) as int));
}

/// Reading a source to its end twice gives the same.
pub proof fn law_reading_again<F, L>(s: SourceView<F, L>)
    requires
        s.backend is Memory,
    ensures
        source_content(drained(step(s, ZIP_SOURCE_OPEN, DataView::Null, 0).source))
            == source_content(s),
{
}

/// A source over a buffer gives the bytes of the buffer.
pub proof fn law_buffer_content<F, L>(data: &[u8], len: u64)
    requires
        len <= data@.len(),
        len <= isize::MAX,
    ensures
        buffer_source::<F, L>(Some(data), len) is Some,
        source_content(buffer_source::<F, L>(Some(data), len)->0) == Some(data@.take(len as int)),
{
    let s = buffer_source::<F, L>(Some(data), len)->0;
    let o = step(s, ZIP_SOURCE_OPEN, DataView::Null, 0);
    let bytes = data@.take(len as int);
    assert(bytes.skip(0) =~= bytes);
    assert(remaining(o.source) =~= bytes);
}

/// A source over a part of a byte string gives that part.
pub proof fn law_window_content<F, L>(data: Seq<u8>, start: u64, len: i64, stat: Stat)
    requires
        data.len() <= isize::MAX,
        window(data, start, len) is Some,
    ensures
        window_source::<F, L>(data, start, len, stat) is Some,
        source_content(window_source::<F, L>(data, start, len, stat)->0) == window(
            data,
            start,
            len,
        ),
{
    let s = window_source::<F, L>(data, start, len, stat)->0;
    let part = window(data, start, len)->0;
    let o = step(s, ZIP_SOURCE_OPEN, DataView::Null, 0);
    assert(part.skip(0) =~= part);
    assert(remaining(o.source) =~= part);
}

/// A CRC layer lets the bytes through as they are, and knows their CRC-32 and
/// their number when they have all gone through.
pub proof fn law_crc_layer<F, L>(s: SourceView<F, L>, lower: SourceView<F, L>, ctx: CrcCtx)
    requires
        lower.closed(),
        addressable(lower),
        in_sync(lower),
        s.backend == (BackendView::Layered { lower: Box::new(lower), layer: Layer::Crc(ctx) }),
    ensures
        ({
            let begun = step(s, ZIP_SOURCE_OPEN, DataView::Null, 0).source;
            let done = drained(begun);
            let end = done.backend->layer->Crc_0;
            &&& remaining(begun) == remaining(lower)
            &&& in_sync(begun)
            &&& done.backend is Layered
            &&& done.backend->layer is Crc
            &&& end.crc_complete
            &&& end.crc == crc32_of(remaining(lower))
            &&& end.size == remaining(lower).len()
        }),
{
    let begun = step(s, ZIP_SOURCE_OPEN, DataView::Null, 0).source;
    lemma_remaining_fits(lower);
    assert(remaining(begun) == remaining(lower));
}

proof fn lemma_remaining_fits<F, L>(s: SourceView<F, L>)
    requires
        s.closed(),
        addressable(s),
    ensures
        remaining(s).len() <= usize::MAX,
    decreases s,
{
    if let BackendView::Layered { lower, layer: _ } = s.backend {
        lemma_remaining_fits(*lower);
    }
}

/// The bytes that a row of answers to reads has brought.
pub open spec fn passed_on(reads: Seq<(DataView, i64)>) -> Seq<u8>
    decreases reads.len(),
{
    if reads.len() == 0 {
        Seq::empty()
    } else {
        passed_on(reads.drop_last()) + offered(reads.last().0, reads.last().1 as u64)->0
    }
}

/// Whether a CRC layer has gone through a row of reads that each gave bytes:
/// `states` are its states before, between and behind them.
pub open spec fn took_all(states: Seq<CrcCtx>, reads: Seq<(DataView, i64)>) -> bool {
    &&& states.len() == reads.len() + 1
    &&& forall|j: int|
        0 <= j < reads.len() ==> (#[trigger] reads[j]).1 > 0 && crc_took(
            states[j],
            states[j + 1],
            reads[j].0,
            reads[j].1,
        )
}

proof fn lemma_row_of_reads(states: Seq<CrcCtx>, reads: Seq<(DataView, i64)>)
    requires
        took_all(states, reads),
        !states[0].crc_complete,
        states[0].position == 0,
        states[0].crc_position == 0,
        states[0].running == 0,
        passed_on(reads).len() <= u64::MAX,
    ensures
        ({
            let end = states.last();
            &&& !end.crc_complete
            &&& end.position == passed_on(reads).len()
            &&& end.crc_position == end.position
            &&& end.running == crc32_of(passed_on(reads))
        }),
    decreases reads.len(),
{
    if reads.len() > 0 {
        let before = states.drop_last();
        let fewer = reads.drop_last();
        assert forall|j: int| 0 <= j < fewer.len() implies (#[trigger] fewer[j]).1 > 0 && crc_took(
            before[j],
            before[j + 1],
            fewer[j].0,
            fewer[j].1,
        ) by {
            assert(fewer[j] == reads[j]);
        }
        lemma_row_of_reads(before, fewer);
        let k = reads.len() - 1;
        assert(reads[k].1 > 0);
        let bytes = offered(reads[k].0, reads[k].1 as u64)->0;
        assert(states[k] == before.last());
        lemma_crc32_append(0, passed_on(fewer), bytes);
    }
}

/// Whatever source is below, a row of reads through a CRC layer that was opened,
/// up to one that gives no bytes, leaves it knowing the CRC-32 and the number of
/// the bytes that were passed on, however they were cut; STAT then adds these to
/// a record. Before that it adds nothing.
pub proof fn law_crc_of_any_source(
    states: Seq<CrcCtx>,
    reads: Seq<(DataView, i64)>,
    last: DataView,
    end: CrcCtx,
    st: StatView,
)
    requires
        took_all(states, reads),
        !states[0].crc_complete,
        states[0].position == 0,
        states[0].crc_position == 0,
        states[0].running == 0,
        crc_took(states.last(), end, last, 0),
        passed_on(reads).len() <= u64::MAX,
    ensures
        end.crc_complete,
        end.crc == crc32_of(passed_on(reads)),
        end.size == passed_on(reads).len(),
        crc_stat(st, end) == (StatView {
            size: passed_on(reads).len() as u64,
            crc: crc32_of(passed_on(reads)),
            comp_size: passed_on(reads).len() as u64,
            comp_method: 0,
            encryption_method: 0,
            valid: st.valid | (ZIP_STAT_SIZE | ZIP_STAT_CRC | ZIP_STAT_COMP_SIZE
                | ZIP_STAT_COMP_METHOD | ZIP_STAT_ENCRYPTION_METHOD),
            ..st
        }),
        crc_stat(st, states.last()) == st,
{
    lemma_row_of_reads(states, reads);
}

/// A holder more and a holder less leave a source as it was.
pub proof fn law_keep_and_free<F, L>(s: SourceView<F, L>)
    requires
        1 <= s.node.refcount < i32::MAX,
    ensures
        released(kept(s)) == Some(s),
{
}

/// The last holder of a source takes it away; what is left of a layer is what
/// the letting go of the source below leaves.
pub proof fn law_last_holder<F, L>(s: SourceView<F, L>)
    requires
        s.node.refcount <= 1,
    ensures
        released(s) == (match s.backend {
            BackendView::Layered { lower, layer: _ } => released(*lower),
            _ => None,
        }),
{
}

/// A field that is added is found behind the fields with its identifier, and
/// these stay where they were.
pub proof fn law_new_field_is_found(fields: Seq<FieldView>, id: u16, data: Seq<u8>, n: nat)
    ensures
        ({
            let after = apply_op(fields, OpView::Put { id, ef_idx: ZIP_EXTRA_FIELD_NEW, data });
            let count = count_id(fields, id);
            &&& after == fields.push((id, data))
            &&& count_id(after, id) == count + 1
            &&& nth_place(after, id, count) == Some(fields.len() as int)
            &&& n < count ==> nth_place(after, id, n) == nth_place(fields, id, n)
        }),
{
    let after = fields.push((id, data));
    assert(after.drop_last() =~= fields);
    lemma_nth_place(fields, id, count_id(fields, id));
    lemma_nth_place(fields, id, n);
}

/// Deleting all fields leaves none.
pub proof fn law_delete_all_fields(fields: Seq<FieldView>)
    ensures
        apply_op(fields, OpView::Delete { ef_idx: ZIP_EXTRA_FIELD_ALL }).len() == 0,
{
}

/// Deleting the fields with an identifier leaves none with it, and those with
/// another are as many as before.
pub proof fn law_delete_by_id(fields: Seq<FieldView>, id: u16, other: u16)
    requires
        id != ZIP_EXTRA_FIELD_ALL,
    ensures
        ({
            let after = apply_op(
                fields,
                OpView::DeleteById { id, ef_idx: ZIP_EXTRA_FIELD_ALL },
            );
            &&& count_id(after, id) == 0
            &&& other != id ==> count_id(after, other) == count_id(fields, other)
        }),
    decreases fields.len(),
{
    if fields.len() > 0 {
        law_delete_by_id(fields.drop_last(), id, other);
        let rest = drop_id(fields.drop_last(), id);
        assert(rest.push(fields.last()).drop_last() =~= rest);
    }
}

/// Replacing a field changes its data and nothing else.
pub proof fn law_replaced_field(fields: Seq<FieldView>, id: u16, n: u16, data: Seq<u8>)
    requires
        n < count_id(fields, id),
        n != ZIP_EXTRA_FIELD_NEW,
    ensures
        ({
            let k = nth_place(fields, id, n as nat)->0;
            let after = apply_op(fields, OpView::Put { id, ef_idx: n, data });
            &&& after == fields.update(k, (id, data))
            &&& after.len() == fields.len()
        }),
{
    lemma_nth_place(fields, id, n as nat);
}

/// A write at the end of what was written appends to it, and leaves the write
/// position at the end again.
pub proof fn law_next_write_appends<F, L>(s: SourceView<F, L>, w: WriteView, bytes: Seq<u8>)
    requires
        s.backend is Memory,
        s.backend->Memory_0.pending == Some(w),
        w.offset == w.out.len(),
        w.out.len() + bytes.len() <= isize::MAX,
    ensures
        ({
            let o = step(s, ZIP_SOURCE_WRITE, DataView::Bytes(bytes), bytes.len() as u64);
            let after = o.source.backend->Memory_0.pending;
            &&& o.result == bytes.len()
            &&& after is Some
            &&& after->0.out == w.out + bytes
            &&& after->0.offset == after->0.out.len()
            &&& step(o.source, ZIP_SOURCE_TELL_WRITE, DataView::Null, 0).result == w.out.len()
                + bytes.len()
        }),
{
    assert(bytes.take(bytes.len() as int) =~= bytes);
    law_write_appends(w.out, bytes);
}

/// A new layer supports no command of write mode, whatever the source below
/// supports, and refuses each step of a write session.
pub proof fn law_layers_are_not_writable<F, L>(answer: i64, s: SourceView<F, L>)
    requires
        s.backend is Layered,
    ensures
        new_node(answer & !SRC_WRITABLE).supports & SRC_WRITABLE == 0,
        s.begin_refused() == Some(ZIP_ER_OPNOTSUPP),
        s.session_refused() == Some(ZIP_ER_OPNOTSUPP),
{
    assert((answer & !0x2bf00i64) & 0x2bf00i64 == 0) by (bit_vector);
}

/// A read from a compressing layer moves the next bytes of the encoded stream,
/// and only a read at its end moves none.
pub proof fn law_compressed_is_read(c: CompressView, b: Seq<u8>, len: u64)
    requires
        c.data.len() <= usize::MAX,
        0 < len <= b.len(),
        len <= i64::MAX,
    ensures
        ({
            let (after, d, n) = compress_step(c, ZIP_SOURCE_READ, DataView::Bytes(b), len);
            let k = if c.rest().len() < len { c.rest().len() as int } else { len as int };
            &&& n == k
            &&& d == DataView::Bytes(c.rest().take(k) + b.skip(k))
            &&& after.rest() == c.rest().skip(k)
            &&& after.data == c.data
        }),
{
    let (after, d, n) = compress_step(c, ZIP_SOURCE_READ, DataView::Bytes(b), len);
    let k = if c.rest().len() < len { c.rest().len() as int } else { len as int };
    assert(after.rest() =~= c.rest().skip(k));
    assert(c.rest().take(k).len() == k);
}

/// What a row of reads from a compressing layer brings, and the layer behind it.
/// Each read is given by the buffer that it fills and the number of bytes that
/// it asks for.
pub open spec fn compressed_reads(c: CompressView, reads: Seq<(Seq<u8>, u64)>) -> (
    CompressView,
    Seq<u8>,
)
    decreases reads.len(),
{
    if reads.len() == 0 {
        (c, Seq::empty())
    } else {
        let (before, out) = compressed_reads(c, reads.drop_last());
        let (b, len) = reads.last();
        let (after, d, n) = compress_step(before, ZIP_SOURCE_READ, DataView::Bytes(b), len);
        (after, out + d->Bytes_0.take(n as int))
    }
}

proof fn lemma_compressed_reads(c: CompressView, reads: Seq<(Seq<u8>, u64)>)
    requires
        c.data.len() <= usize::MAX,
        forall|j: int|
            0 <= j < reads.len() ==> 0 < (#[trigger] reads[j]).1 <= reads[j].0.len() && reads[j].1
                <= i64::MAX,
    ensures
        compressed_reads(c, reads).0.data == c.data,
        compressed_reads(c, reads).1 + compressed_reads(c, reads).0.rest() == c.rest(),
    decreases reads.len(),
{
    if reads.len() == 0 {
        assert(Seq::<u8>::empty() + c.rest() =~= c.rest());
    } else {
        let fewer = reads.drop_last();
        assert forall|j: int| 0 <= j < fewer.len() implies 0 < (#[trigger] fewer[j]).1
            <= fewer[j].0.len() && fewer[j].1 <= i64::MAX by {
            assert(fewer[j] == reads[j]);
        }
        lemma_compressed_reads(c, fewer);
        let (before, out) = compressed_reads(c, fewer);
        let last = reads[reads.len() - 1];
        law_compressed_is_read(before, last.0, last.1);
        let (after, d, n) = compress_step(
            before,
            ZIP_SOURCE_READ,
            DataView::Bytes(last.0),
            last.1,
        );
        assert(d->Bytes_0.take(n as int) =~= before.rest().take(n as int));
        assert(out + d->Bytes_0.take(n as int) + after.rest() =~= out + before.rest());
    }
}

/// The bytes that are read from a compressing layer until a read gives none are
/// the encoded stream from its start, however many each read asks for.
pub proof fn law_compressed_stream_is_read(
    c: CompressView,
    reads: Seq<(Seq<u8>, u64)>,
    b: Seq<u8>,
    len: u64,
)
    requires
        c.pos == 0,
        c.data.len() <= usize::MAX,
        forall|j: int|
            0 <= j < reads.len() ==> 0 < (#[trigger] reads[j]).1 <= reads[j].0.len() && reads[j].1
                <= i64::MAX,
        0 < len <= b.len(),
        len <= i64::MAX,
        compress_step(
            compressed_reads(c, reads).0,
            ZIP_SOURCE_READ,
            DataView::Bytes(b),
            len,
        ).2 == 0,
    ensures
        compressed_reads(c, reads).1 == c.data,
{
    lemma_compressed_reads(c, reads);
    let (after, out) = compressed_reads(c, reads);
    law_compressed_is_read(after, b, len);
    assert(after.rest() =~= Seq::empty());
    assert(c.rest() =~= c.data);
    assert(out + after.rest() =~= out);
}

} // verus!
