//! What layers over a source do with commands, and what they tell.
//!
//! A law here speaks of a call: of what was handed in, and of what came back.

use crate::checksum::crc32_from;
use crate::command::{bit, bitmap, src_bit, CommandData, DataView};
use crate::compress_layer::{compress_layered_cb, CompressAnswer, CompressCtx, CompressView};
use crate::consts::{
    ZIP_SOURCE_BEGIN_WRITE, ZIP_SOURCE_COMMIT_WRITE, ZIP_SOURCE_GET_FILE_ATTRIBUTES,
    ZIP_SOURCE_OPEN, ZIP_SOURCE_REMOVE, ZIP_SOURCE_ROLLBACK_WRITE, ZIP_SOURCE_SEEK_WRITE,
    ZIP_SOURCE_TELL_WRITE,
};
use crate::source::{
    crc_layered_cb, crc_unsupported, pass_command, read_step, remaining, step, CrcCtx,
    LayeredCallback, SourceCallback, SourceView, ZipSource,
};
use crate::source_new::zip_source_crc_create;
use crate::stat::StatView;
use vstd::prelude::*;

verus! {

/// The mask of a command has the bit of its number, and no other.
pub proof fn law_bit_of_a_command(cmd: i32, r: i64)
    requires
        0 <= cmd < 64,
        call_ensures(src_bit, (cmd,), r),
    ensures
        r == 1i64 << (cmd as i64),
{
    assert(0 <= cmd < 64 ==> cmd & 63 == cmd) by (bit_vector);
}

proof fn lemma_unsupported()
    ensures
        crc_unsupported() == 0x8b700,
        bit(5) == 0x20,
        bit(19) == 0x8_0000,
        bit(20) == 0x10_0000,
{
    let s = seq![
        ZIP_SOURCE_BEGIN_WRITE,
        ZIP_SOURCE_COMMIT_WRITE,
        ZIP_SOURCE_ROLLBACK_WRITE,
        ZIP_SOURCE_SEEK_WRITE,
        ZIP_SOURCE_TELL_WRITE,
        ZIP_SOURCE_REMOVE,
        ZIP_SOURCE_GET_FILE_ATTRIBUTES,
    ];
    assert(5i32 & 63 == 5 && 8i32 & 63 == 8 && 9i32 & 63 == 9 && 10i32 & 63 == 10 && 12i32 & 63
        == 12 && 13i32 & 63 == 13 && 15i32 & 63 == 15 && 19i32 & 63 == 19 && 20i32 & 63 == 20)
        by (bit_vector);
    assert(1i64 << 5i64 == 0x20 && 1i64 << 8i64 == 0x100 && 1i64 << 9i64 == 0x200 && 1i64 << 10i64
        == 0x400 && 1i64 << 12i64 == 0x1000 && 1i64 << 13i64 == 0x2000 && 1i64 << 15i64 == 0x8000
        && 1i64 << 19i64 == 0x8_0000 && 1i64 << 20i64 == 0x10_0000) by (bit_vector);
    assert(0x100i64 | (0x200i64 | (0x400i64 | (0x1000i64 | (0x2000i64 | (0x8000i64 | (0x8_0000i64
        | 0i64)))))) == 0x8b700) by (bit_vector);
    assert(s.skip(1).skip(1) =~= s.skip(2));
    assert(s.skip(2).skip(1) =~= s.skip(3));
    assert(s.skip(3).skip(1) =~= s.skip(4));
    assert(s.skip(4).skip(1) =~= s.skip(5));
    assert(s.skip(5).skip(1) =~= s.skip(6));
    assert(s.skip(6).skip(1) =~= s.skip(7));
    reveal_with_fuel(bitmap, 9);
}

/// A CRC layer supports what the source below does, but for changing it and for its
/// attributes; it can always be released.
pub proof fn law_crc_layer_supports<F: SourceCallback, L: LayeredCallback<F>>(
    ctx: (CrcCtx, CrcCtx),
    lower: (ZipSource<F, L>, ZipSource<F, L>),
    mask: i64,
    r: i64,
)
    requires
        exists|s: &mut ZipSource<F, L>, c: &mut CrcCtx, d: &mut CommandData| #[trigger]
            call_ensures(crc_layered_cb::<F, L>, (s, c, d, 8, 14), r) && (*s, *final(s)) == lower
                && (*c, *final(c)) == ctx && *d == CommandData::Supports(mask),
    ensures
        r & 0x8b700 == 0,
        r & 0x20 == 0x20,
        r & !0x8b720 == mask & !0x8b720,
        lower.1 == lower.0,
        ctx.1 == ctx.0,
{
    lemma_unsupported();
    assert(((mask & !0x8b700i64) | 0x20i64) & 0x8b700 == 0) by (bit_vector);
    assert(((mask & !0x8b700i64) | 0x20i64) & 0x20 == 0x20) by (bit_vector);
    assert(((mask & !0x8b700i64) | 0x20i64) & !0x8b720 == mask & !0x8b720) by (bit_vector);
}

/// Opening a CRC layer begins a new checksum; the source below is not asked.
pub proof fn law_crc_layer_opened<F: SourceCallback, L: LayeredCallback<F>>(
    ctx: (CrcCtx, CrcCtx),
    lower: (ZipSource<F, L>, ZipSource<F, L>),
    len: u64,
    r: i64,
)
    requires
        exists|s: &mut ZipSource<F, L>, c: &mut CrcCtx, d: &mut CommandData| #[trigger]
            call_ensures(crc_layered_cb::<F, L>, (s, c, d, len, 0), r) && (*s, *final(s)) == lower
                && (*c, *final(c)) == ctx,
    ensures
        r == 0,
        lower.1 == lower.0,
        ctx.1.position == 0,
        ctx.1.crc_position == 0,
        ctx.1.crc == 0,
        ctx.1.running == 0,
        !ctx.1.crc_complete,
        ctx.1.validate == ctx.0.validate,
        ctx.1.err_zip == ctx.0.err_zip,
{
}

/// A read through a CRC layer over a buffer brings the next bytes of the buffer and
/// takes them up into the checksum, as long as none were left out; at the end the
/// checksum and the size are complete.
pub proof fn law_crc_layer_read<F: SourceCallback, L: LayeredCallback<F>>(
    ctx: (CrcCtx, CrcCtx),
    lower: (ZipSource<F, L>, ZipSource<F, L>),
    buf: (Seq<u8>, DataView),
    len: u64,
    r: i64,
)
    requires
        lower.0.backend is Memory,
        lower.0.backend->Memory_0.data@.len() <= i64::MAX,
        ctx.0.position + lower.0.backend->Memory_0.data@.len() <= u64::MAX,
        0 < len <= buf.0.len(),
        exists|s: &mut ZipSource<F, L>, c: &mut CrcCtx, d: &mut CommandData| #[trigger]
            call_ensures(crc_layered_cb::<F, L>, (s, c, d, len, 1), r) && (*s, *final(s)) == lower
                && (*c, *final(c)) == ctx && d@ == DataView::Bytes(buf.0) && final(d)@ == buf.1,
    ensures
        ({
            let m = lower.0.backend->Memory_0;
            let left = if m.pos < m.data@.len() { m.data@.len() - m.pos } else { 0 };
            let k = if left < len { left } else { len as int };
            let bytes = m.data@.subrange(m.pos as int, m.pos + k);
            let on = !ctx.0.crc_complete && ctx.0.position == ctx.0.crc_position;
            &&& r == k
            &&& buf.1 is Bytes
            &&& k > 0 ==> buf.1->Bytes_0 == bytes + buf.0.skip(k)
            &&& k > 0 ==> ctx.1 == (CrcCtx {
                position: (ctx.0.position + k) as u64,
                crc_position: if on {
                    (ctx.0.crc_position + k) as u64
                } else {
                    ctx.0.crc_position
                },
                running: if on { crc32_from(ctx.0.running, bytes) } else { ctx.0.running },
                ..ctx.0
            })
            &&& k == 0 ==> ctx.1 == (CrcCtx {
                size: ctx.0.position,
                crc: if ctx.0.crc_position == ctx.0.position { ctx.0.running } else { ctx.0.crc },
                crc_complete: ctx.0.crc_complete || ctx.0.crc_position == ctx.0.position,
                ..ctx.0
            })
        }),
{
    let m = lower.0.backend->Memory_0;
    let left = if m.pos < m.data@.len() { m.data@.len() - m.pos } else { 0 };
    let k = if left < len { left } else { len as int };
    let o = read_step(lower.0@, DataView::Bytes(buf.0), len);
    assert(o.result == k);
    if k > 0 {
        let bytes = m.data@.subrange(m.pos as int, m.pos + k);
        assert(m@.rest().take(k) =~= bytes);
        assert((bytes + buf.0.skip(k)).take(k) =~= bytes);
    }
}

/// A complete CRC layer adds the size, the checksum and that the stream is stored and
/// not encrypted to a record; before that it adds nothing.
pub proof fn law_crc_layer_tells<F: SourceCallback, L: LayeredCallback<F>>(
    ctx: (CrcCtx, CrcCtx),
    lower: (ZipSource<F, L>, ZipSource<F, L>),
    st: (StatView, DataView),
    r: i64,
)
    requires
        exists|s: &mut ZipSource<F, L>, c: &mut CrcCtx, d: &mut CommandData| #[trigger]
            call_ensures(crc_layered_cb::<F, L>, (s, c, d, 64, 3), r) && (*s, *final(s)) == lower
                && (*c, *final(c)) == ctx && d@ == DataView::Stat(st.0) && final(d)@ == st.1,
    ensures
        r == 0,
        lower.1 == lower.0,
        ctx.1 == ctx.0,
        st.1 is Stat,
        !ctx.0.crc_complete ==> st.1->Stat_0 == st.0,
        ctx.0.crc_complete ==> st.1->Stat_0 == (StatView {
            size: ctx.0.size,
            comp_size: ctx.0.size,
            crc: ctx.0.crc,
            comp_method: 0,
            encryption_method: 0,
            valid: st.0.valid | 0xec,
            ..st.0
        }),
{
    assert(0x04u64 | 0x20u64 | 0x08u64 | 0x40u64 | 0x80u64 == 0xecu64) by (bit_vector);
}

/// The position of a CRC layer is what has gone through it; nobody below is asked.
pub proof fn law_crc_layer_told<F: SourceCallback, L: LayeredCallback<F>>(
    ctx: (CrcCtx, CrcCtx),
    lower: (ZipSource<F, L>, ZipSource<F, L>),
    len: u64,
    r: i64,
)
    requires
        ctx.0.position <= i64::MAX,
        exists|s: &mut ZipSource<F, L>, c: &mut CrcCtx, d: &mut CommandData| #[trigger]
            call_ensures(crc_layered_cb::<F, L>, (s, c, d, len, 7), r) && (*s, *final(s)) == lower
                && (*c, *final(c)) == ctx,
    ensures
        r == ctx.0.position,
        ctx.1 == ctx.0,
        lower.1 == lower.0,
{
}

/// A CRC layer over a buffer owns it, begins with nothing, and cannot be written.
pub proof fn law_crc_layer_made<F: SourceCallback, L: LayeredCallback<F>>(
    source: Box<ZipSource<F, L>>,
    validate: i32,
    r: (Option<ZipSource<F, L>>, Option<Box<ZipSource<F, L>>>),
)
    requires
        source.backend is Memory,
        source.node.supports >= 0,
        call_ensures(zip_source_crc_create::<F, L>, (Some(source), validate), r),
    ensures
        r.0 is Some,
        r.1 is None,
        r.0->0.backend is Layered,
        r.0->0.backend->lower@ == source@,
        r.0->0.backend->layer is Crc,
        r.0->0.backend->layer->Crc_0 == (CrcCtx {
            validate,
            crc_complete: false,
            size: 0,
            position: 0,
            crc_position: 0,
            crc: 0,
            running: 0,
            err_zip: 0,
            err_sys: 0,
        }),
        r.0->0.node.supports & 0x2bf00 == 0,
        r.0->0.node.supports & !0xabf20 == source.node.supports & !0xabf20,
        r.0->0.node.refcount == 1,
{
    lemma_unsupported();
    let m = source.node.supports;
    assert(m >= 0 ==> (m & !0x8b700i64) | 0x20i64 >= 0) by (bit_vector);
    assert((((m & !0x8b700i64) | 0x20i64) & !0x2bf00i64) & 0x2bf00 == 0) by (bit_vector);
    assert((((m & !0x8b700i64) | 0x20i64) & !0x2bf00i64) & !0xabf20 == m & !0xabf20)
        by (bit_vector);
    assert(r.0->0@.backend is Layered);
}

/// A compressing layer that was opened gives the encoded stream from its start, or
/// the stream itself where it could not be encoded, and knows its size.
pub proof fn law_compressing_layer_opened(
    c: (CompressCtx, CompressCtx),
    raw: Vec<u8>,
    encoded: Option<Vec<u8>>,
    r: i64,
)
    requires
        exists|x: &mut CompressCtx| #[trigger]
            call_ensures(CompressCtx::opened, (x, raw, encoded), r) && (*x, *final(x)) == c,
    ensures
        r == 0,
        encoded matches Some(v) ==> c.1.data@ == v@ && c.1.size == v@.len(),
        encoded is None ==> c.1.data@ == raw@ && c.1.size == raw@.len(),
        c.1.end_of_stream,
        c.1.method == c.0.method,
        c.1.pos == c.0.pos,
{
    assert(raw.len() <= usize::MAX);
    if let Some(v) = encoded {
        assert(v.len() <= usize::MAX);
    }
}

/// Opening a compressing layer over a buffer asks for all its bytes to be encoded,
/// and leads reading back to the start.
pub proof fn law_compressing_layer_asks<F: SourceCallback, L: LayeredCallback<F>>(
    c: (CompressCtx, CompressCtx),
    lower: ZipSource<F, L>,
    len: u64,
    r: CompressAnswer,
)
    requires
        lower.backend is Memory,
        lower.backend->Memory_0.data@.len() <= isize::MAX,
        exists|s: &mut ZipSource<F, L>, x: &mut CompressCtx, d: &mut CommandData| #[trigger]
            call_ensures(compress_layered_cb::<F, L>, (s, x, d, len, 0), r) && *s == lower && (
            *x,
            *final(x),
        ) == c,
    ensures
        r is Encode,
        r->Encode_0@ == lower.backend->Memory_0.data@,
        c.1.pos == 0,
        !c.1.end_of_stream,
        c.1.method == c.0.method,
{
    let o = step(lower@, ZIP_SOURCE_OPEN, DataView::Null, 0).source;
    let data = lower.backend->Memory_0.data@;
    assert(data.skip(0) =~= data);
    assert(remaining(o) =~= data);
}

/// A read from a compressing layer brings the next bytes of the encoded stream, and
/// nobody below is asked.
pub proof fn law_compressing_layer_read<F: SourceCallback, L: LayeredCallback<F>>(
    c: (CompressCtx, CompressCtx),
    lower: (ZipSource<F, L>, ZipSource<F, L>),
    buf: (Seq<u8>, DataView),
    len: u64,
    r: CompressAnswer,
)
    requires
        len <= buf.0.len(),
        c.0.data@.len() <= i64::MAX,
        exists|s: &mut ZipSource<F, L>, x: &mut CompressCtx, d: &mut CommandData| #[trigger]
            call_ensures(compress_layered_cb::<F, L>, (s, x, d, len, 1), r) && (*s, *final(s))
                == lower && (*x, *final(x)) == c && d@ == DataView::Bytes(buf.0) && final(d)@
                == buf.1,
    ensures
        ({
            let left = if c.0.pos < c.0.data@.len() { c.0.data@.len() - c.0.pos } else { 0 };
            let k = if left < len { left } else { len as int };
            &&& r == CompressAnswer::Done(k as i64)
            &&& buf.1 is Bytes
            &&& buf.1->Bytes_0.len() == buf.0.len()
            &&& forall|i: int|
                0 <= i < buf.0.len() ==> #[trigger] buf.1->Bytes_0[i] == (if i < k {
                    c.0.data@[c.0.pos + i]
                } else {
                    buf.0[i]
                })
            &&& c.1@ == (CompressView { pos: (c.0.pos + k) as u64, ..c.0@ })
            &&& lower.1 == lower.0
        }),
{
}

/// A compressing layer tells its method and the size of the encoded stream.
pub proof fn law_compressing_layer_tells<F: SourceCallback, L: LayeredCallback<F>>(
    c: (CompressCtx, CompressCtx),
    lower: (ZipSource<F, L>, ZipSource<F, L>),
    st: (StatView, DataView),
    r: CompressAnswer,
)
    requires
        exists|s: &mut ZipSource<F, L>, x: &mut CompressCtx, d: &mut CommandData| #[trigger]
            call_ensures(compress_layered_cb::<F, L>, (s, x, d, 64, 3), r) && (*s, *final(s))
                == lower && (*x, *final(x)) == c && d@ == DataView::Stat(st.0) && final(d)@
                == st.1,
    ensures
        r == CompressAnswer::Done(0),
        c.1@ == c.0@,
        lower.1 == lower.0,
        st.1 == DataView::Stat(
            StatView {
                comp_method: if c.0.method == 0 { 0 } else { 8 },
                comp_size: c.0.size,
                valid: st.0.valid | 0x48,
                ..st.0
            },
        ),
{
    assert(0x08u64 | 0x40u64 == 0x48u64) by (bit_vector);
}

/// A compressing layer can be read, tells attributes and can be opened again; it
/// cannot seek or be written.
pub proof fn law_compressing_layer_supports<F: SourceCallback, L: LayeredCallback<F>>(
    c: (CompressCtx, CompressCtx),
    lower: (ZipSource<F, L>, ZipSource<F, L>),
    len: u64,
    r: CompressAnswer,
)
    requires
        exists|s: &mut ZipSource<F, L>, x: &mut CompressCtx, d: &mut CommandData| #[trigger]
            call_ensures(compress_layered_cb::<F, L>, (s, x, d, len, 14), r) && (*s, *final(s))
                == lower && (*x, *final(x)) == c,
    ensures
        r == CompressAnswer::Done(0x18_003f),
        c.1@ == c.0@,
        lower.1 == lower.0,
{
    lemma_unsupported();
    assert(0x3fi64 | 0x8_0000i64 | 0x10_0000i64 == 0x18_003fi64) by (bit_vector);
}

/// A layer that does not run a command leaves those of reading, seeking and telling,
/// of errors, ends and times to the source below; others it answers by itself, and
/// those that change something it refuses.
pub proof fn law_commands_are_passed<F: SourceCallback, L: LayeredCallback<F>>(
    lower: (SourceView<F, L>, SourceView<F, L>),
    d: (DataView, DataView),
    len: u64,
    cmd: i32,
    r: i64,
)
    requires
        exists|s: &mut ZipSource<F, L>, p: &mut CommandData| #[trigger]
            call_ensures(pass_command::<F, L>, (s, p, len, cmd), r) && (s@, final(s)@) == lower
                && (p@, final(p)@) == d,
    ensures
        cmd == 0 || cmd == 2 || cmd == 5 || cmd == 19 || cmd == 20 ==> r == 0 && lower.1
            == lower.0 && d.1 == d.0,
        cmd == 3 ==> r == 64 && lower.1 == lower.0 && d.1 == d.0,
        cmd == 14 && len >= 8 && d.0 is Supports ==> r == d.0->Supports_0 && lower.1 == lower.0
            && d.1 == d.0,
        8 <= cmd <= 13 || cmd == 15 || cmd == 16 || cmd == 17 || cmd < 0 || cmd > 22 ==> r == -1
            && d.1 == d.0 && lower.1.backend == lower.0.backend && lower.1.node.error.zip_err
            == 28,
        lower.0.closed() && (cmd == 1 || cmd == 4 || cmd == 6 || cmd == 7 || cmd == 18 || cmd
            == 21 || cmd == 22) ==> {
            let o = step(lower.0, cmd, d.0, len);
            r == o.result && lower.1 == o.source && d.1 == o.data
        },
{
}

} // verus!
