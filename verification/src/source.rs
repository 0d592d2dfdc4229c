//! Sources: stacks of byte providers that are driven by commands.

use crate::checksum::{crc32_from, crc32_update, lemma_crc32_append};
use crate::command::{
    bit, make_bitmap, seek_args, src_bit, zip_source_args_seek, CommandData, DataView,
    ZipSourceArgsSeek,
};
use crate::consts::{
    ERROR_PAIR_SIZE, SEEK_ARGS_SIZE, SRC_READABLE, STAT_SIZE, ZIP_CM_STORE, ZIP_EM_NONE,
    ZIP_ER_INTERNAL, ZIP_ER_INVAL, ZIP_ER_OPNOTSUPP, ZIP_ER_READ, ZIP_SOURCE_ACCEPT_EMPTY,
    ZIP_SOURCE_AT_EOF, ZIP_SOURCE_BEGIN_WRITE, ZIP_SOURCE_CLOSE, ZIP_SOURCE_COMMIT_WRITE,
    ZIP_SOURCE_ERROR, ZIP_SOURCE_FREE, ZIP_SOURCE_GET_DOS_TIME, ZIP_SOURCE_GET_FILE_ATTRIBUTES,
    ZIP_SOURCE_OPEN, ZIP_SOURCE_READ, ZIP_SOURCE_REMOVE, ZIP_SOURCE_ROLLBACK_WRITE,
    ZIP_SOURCE_SEEK, ZIP_SOURCE_SEEK_WRITE, ZIP_SOURCE_STAT, ZIP_SOURCE_SUPPORTS,
    ZIP_SOURCE_SUPPORTS_REOPEN, ZIP_SOURCE_TELL, ZIP_SOURCE_TELL_WRITE, ZIP_STAT_COMP_METHOD,
    ZIP_STAT_COMP_SIZE, ZIP_STAT_CRC, ZIP_STAT_ENCRYPTION_METHOD, ZIP_STAT_SIZE,
};
use crate::errors::{error_of, ErrorPair};
use crate::memory::{
    mem_step, new_node, offered, with_error, MemView, MemorySource, NodeView, SourceNode,
};
use crate::stat::StatView;
use vstd::prelude::*;
use vstd::slice::slice_subrange;

verus! {

/// A source that its user implements: every command arrives here.
pub trait SourceCallback: Sized {
    /// Runs a command on a payload of `len` bytes and gives its result.
    fn call(&mut self, data: &mut CommandData, len: u64, cmd: i32) -> (r: i64);
}

/// A layer that its user implements: every command arrives here, with the
/// source below.
pub trait LayeredCallback<F>: Sized {
    /// Runs a command on a payload of `len` bytes and gives its result.
    fn call_over(
        &mut self,
        lower: &mut ZipSource<F, Self>,
        data: &mut CommandData,
        len: u64,
        cmd: i32,
    ) -> (r: i64);
}

/// Stands for sources and layers of the user's where there are none. It refuses
/// every command.
#[derive(Clone, Copy, Debug, PartialEq, Eq, Structural)]
pub struct NoCallback {}

impl SourceCallback for NoCallback {
    fn call(&mut self, data: &mut CommandData, len: u64, cmd: i32) -> (r: i64)
        ensures
            r == -1,
            *final(data) == *old(data),
    {
        -1
    }
}

impl<F> LayeredCallback<F> for NoCallback {
    fn call_over(
        &mut self,
        lower: &mut ZipSource<F, NoCallback>,
        data: &mut CommandData,
        len: u64,
        cmd: i32,
    ) -> (r: i64)
        ensures
            r == -1,
            *final(lower) == *old(lower),
            *final(data) == *old(data),
    {
        -1
    }
}

/// A source in which the user has no part.
pub type PlainSource = ZipSource<NoCallback, NoCallback>;

/// The state of the layer that computes the CRC-32 and the size of what passes
/// through it.
#[derive(Clone, Copy, Debug, PartialEq, Eq, Structural)]
pub struct CrcCtx {
    /// Whether the CRC is to be verified. Kept for the user; nothing reads it.
    pub validate: i32,
    /// Whether the end was reached without a gap.
    pub crc_complete: bool,
    /// Size of the stream, once the end was reached.
    pub size: u64,
    /// Read position.
    pub position: u64,
    /// Up to where the running CRC has got.
    pub crc_position: u64,
    /// CRC of the stream, once complete.
    pub crc: u32,
    /// CRC of the bytes before `crc_position`.
    pub running: u32,
    /// Last error of the layer.
    pub err_zip: i32,
    /// System error that belongs to it.
    pub err_sys: i32,
}

/// What stands between a layered source and the source below it.
pub enum Layer<L> {
    /// The layer that computes a CRC-32.
    Crc(CrcCtx),
    /// A layer of the user's.
    User(L),
}

/// What provides the bytes of a source.
pub enum SourceBackend<F, L> {
    /// A byte buffer.
    Memory(MemorySource),
    /// A source of the user's.
    Function(F),
    /// A layer over another source, which it owns.
    Layered { lower: Box<ZipSource<F, L>>, layer: Layer<L> },
}

/// A source.
pub struct ZipSource<F, L> {
    /// What provides the bytes.
    pub backend: SourceBackend<F, L>,
    /// The state that every source has.
    pub node: SourceNode,
}

/// What provides the bytes of a source, as it is seen in contracts.
pub ghost enum BackendView<F, L> {
    Memory(MemView),
    Function(F),
    Layered { lower: Box<SourceView<F, L>>, layer: Layer<L> },
}

/// What a source holds.
pub ghost struct SourceView<F, L> {
    pub backend: BackendView<F, L>,
    pub node: NodeView,
}

impl<F, L> ZipSource<F, L> {
    /// What the source holds.
    pub open spec fn view(&self) -> SourceView<F, L>
        decreases self,
    {
        SourceView {
            backend: match self.backend {
                SourceBackend::Memory(m) => BackendView::Memory(m@),
                SourceBackend::Function(f) => BackendView::Function(f),
                SourceBackend::Layered { lower, layer } => BackendView::Layered {
                    lower: Box::new((*lower).view()),
                    layer,
                },
            },
            node: self.node@,
        }
    }
}

impl<F, L> ZipSource<F, L> {
    /// Number of layers of this library's from here down to the first provider
    /// of another kind.
    pub open spec fn height(&self) -> nat
        decreases self,
    {
        match self.backend {
            SourceBackend::Layered { lower, layer: Layer::Crc(_) } => 1 + lower.height(),
            _ => 0,
        }
    }
}

impl<F, L> SourceView<F, L> {
    /// Whether nothing of the user's has a part in the source, so that the
    /// outcome of every command is known.
    pub open spec fn closed(self) -> bool
        decreases self,
    {
        match self.backend {
            BackendView::Memory(_) => true,
            BackendView::Function(_) => false,
            BackendView::Layered { lower, layer } => layer is Crc && lower.closed(),
        }
    }

    /// The source with an error recorded in it.
    pub open spec fn failed(self, code: i32) -> SourceView<F, L> {
        SourceView { node: with_error(self.node, code), ..self }
    }
}

/// Outcome of a command: the source and the payload behind it, and the result.
pub ghost struct Outcome<F, L> {
    pub source: SourceView<F, L>,
    pub data: DataView,
    pub result: i64,
}

/// Outcome of a command on a CRC layer.
pub ghost struct CrcOutcome<F, L> {
    pub lower: SourceView<F, L>,
    pub ctx: CrcCtx,
    pub data: DataView,
    pub result: i64,
}

/// The state of a source behind a command that its user answered with `r`:
/// a read of no bytes marks the end.
pub open spec fn noted(n: NodeView, cmd: i32, r: i64) -> NodeView {
    NodeView { eof: n.eof || (cmd == ZIP_SOURCE_READ && r == 0), ..n }
}

/// What a command does to a source in which the user has no part.
pub open spec fn step<F, L>(s: SourceView<F, L>, cmd: i32, d: DataView, len: u64) -> Outcome<F, L>
    decreases s, 0int,
{
    match s.backend {
        BackendView::Memory(m) => {
            let o = mem_step(s.node, m, cmd, d, len);
            Outcome {
                source: SourceView { backend: BackendView::Memory(o.mem), node: o.node },
                data: o.data,
                result: o.result,
            }
        },
        BackendView::Layered { lower, layer: Layer::Crc(ctx) } => {
            let o = crc_step(*lower, ctx, cmd, d, len);
            Outcome {
                source: SourceView {
                    backend: BackendView::Layered {
                        lower: Box::new(o.lower),
                        layer: Layer::Crc(o.ctx),
                    },
                    node: noted(s.node, cmd, o.result),
                },
                data: o.data,
                result: o.result,
            }
        },
        _ => Outcome { source: s, data: d, result: (-1) as i64 },
    }
}

/// READ, with the read error recorded where it fails.
pub open spec fn read_step<F, L>(s: SourceView<F, L>, d: DataView, len: u64) -> Outcome<F, L>
    decreases s, 1int,
{
    let o = step(s, ZIP_SOURCE_READ, d, len);
    if o.result < 0 {
        Outcome { source: o.source.failed(ZIP_ER_READ), ..o }
    } else {
        o
    }
}

/// What a layer does with a command that it leaves to the source below.
pub open spec fn pass_step<F, L>(
    lower: SourceView<F, L>,
    d: DataView,
    len: u64,
    cmd: i32,
) -> Outcome<F, L>
    decreases lower, 1int,
{
    if cmd == ZIP_SOURCE_OPEN || cmd == ZIP_SOURCE_CLOSE || cmd == ZIP_SOURCE_FREE || cmd
        == ZIP_SOURCE_GET_FILE_ATTRIBUTES || cmd == ZIP_SOURCE_SUPPORTS_REOPEN {
        Outcome { source: lower, data: d, result: 0 }
    } else if cmd == ZIP_SOURCE_STAT {
        Outcome { source: lower, data: d, result: STAT_SIZE as i64 }
    } else if forwards(cmd) {
        step(lower, cmd, d, len)
    } else if cmd == ZIP_SOURCE_SUPPORTS {
        match d {
            DataView::Supports(mask) if len >= 8 => Outcome {
                source: lower,
                data: d,
                result: mask,
            },
            _ => Outcome {
                source: lower.failed(ZIP_ER_INTERNAL),
                data: d,
                result: (-1) as i64,
            },
        }
    } else {
        Outcome { source: lower.failed(ZIP_ER_OPNOTSUPP), data: d, result: (-1) as i64 }
    }
}

/// The commands that a layer hands down to the source below.
pub open spec fn forwards(cmd: i32) -> bool {
    cmd == ZIP_SOURCE_ACCEPT_EMPTY || cmd == ZIP_SOURCE_AT_EOF || cmd == ZIP_SOURCE_ERROR || cmd
        == ZIP_SOURCE_GET_DOS_TIME || cmd == ZIP_SOURCE_READ || cmd == ZIP_SOURCE_SEEK || cmd
        == ZIP_SOURCE_TELL
}

/// A CRC layer behind the passage of `bytes`: the running CRC takes them up
/// where they follow on without a gap.
pub open spec fn crc_passed(ctx: CrcCtx, bytes: Seq<u8>) -> CrcCtx {
    let n = bytes.len() as u64;
    let on = !ctx.crc_complete && ctx.position == ctx.crc_position;
    CrcCtx {
        running: if on { crc32_from(ctx.running, bytes) } else { ctx.running },
        crc_position: if on { ctx.crc_position.wrapping_add(n) } else { ctx.crc_position },
        position: ctx.position.wrapping_add(n),
        ..ctx
    }
}

/// A CRC layer behind the end of the stream.
pub open spec fn crc_ended(ctx: CrcCtx) -> CrcCtx {
    if ctx.crc_position == ctx.position {
        CrcCtx { size: ctx.position, crc: ctx.running, crc_complete: true, ..ctx }
    } else {
        CrcCtx { size: ctx.position, ..ctx }
    }
}

/// A stat record with what a complete CRC layer knows.
pub open spec fn crc_stat(st: StatView, ctx: CrcCtx) -> StatView {
    if ctx.crc_complete {
        StatView {
            size: ctx.size,
            crc: ctx.crc,
            comp_size: ctx.size,
            comp_method: 0,
            encryption_method: 0,
            valid: st.valid | (ZIP_STAT_SIZE | ZIP_STAT_CRC | ZIP_STAT_COMP_SIZE
                | ZIP_STAT_COMP_METHOD | ZIP_STAT_ENCRYPTION_METHOD),
            ..st
        }
    } else {
        st
    }
}

/// The commands that a CRC layer takes out of a mask: those of write mode and
/// the file attributes.
pub open spec fn crc_unsupported() -> i64 {
    crate::command::bitmap(
        seq![
            ZIP_SOURCE_BEGIN_WRITE,
            ZIP_SOURCE_COMMIT_WRITE,
            ZIP_SOURCE_ROLLBACK_WRITE,
            ZIP_SOURCE_SEEK_WRITE,
            ZIP_SOURCE_TELL_WRITE,
            ZIP_SOURCE_REMOVE,
            ZIP_SOURCE_GET_FILE_ATTRIBUTES,
        ],
    )
}

/// The mask that a CRC layer answers for a mask of the source below.
pub open spec fn crc_mask(d: DataView, len: u64) -> i64 {
    let below = match d {
        DataView::Supports(mask) if len >= 8 => mask,
        _ => SRC_READABLE,
    };
    (below & !crc_unsupported()) | bit(ZIP_SOURCE_FREE)
}

/// The commands for which a CRC layer asks the source below.
pub open spec fn crc_asks(cmd: i32) -> bool {
    cmd == ZIP_SOURCE_READ || cmd == ZIP_SOURCE_SEEK || cmd == ZIP_SOURCE_ACCEPT_EMPTY || cmd
        == ZIP_SOURCE_AT_EOF || cmd == ZIP_SOURCE_GET_DOS_TIME
}

/// Whether a CRC layer leaves a command to the source below, with its payload.
pub open spec fn crc_forwards(cmd: i32) -> bool {
    cmd == ZIP_SOURCE_ACCEPT_EMPTY || cmd == ZIP_SOURCE_AT_EOF || cmd == ZIP_SOURCE_GET_DOS_TIME
}

/// Whether a CRC layer has taken up a read that it answered with `r`: nothing
/// where the read failed, the end where it gave no bytes, and else the bytes,
/// which the buffer holds.
pub open spec fn crc_took(before: CrcCtx, after: CrcCtx, d: DataView, r: i64) -> bool {
    if r < 0 {
        r == -1 && after == before
    } else if r == 0 {
        after == crc_ended(before)
    } else {
        offered(d, r as u64) is Some && after == crc_passed(before, offered(d, r as u64)->0)
    }
}

/// Whether a CRC layer has followed a seek that it answered with `r`: it takes
/// over the position that the source below tells, and else changes nothing. A
/// payload that is no seek argument is its own error.
pub open spec fn crc_sought(
    before: CrcCtx,
    after: CrcCtx,
    args: Option<ZipSourceArgsSeek>,
    r: i64,
) -> bool {
    if args is None {
        r == -1 && after == CrcCtx { err_zip: ZIP_ER_INVAL, ..before }
    } else if r == 0 {
        after.position <= i64::MAX && after == CrcCtx { position: after.position, ..before }
    } else {
        r == -1 && after == before
    }
}

/// Whether a CRC layer has gone on as it must, whatever the source below has
/// answered.
pub open spec fn crc_went_on(
    before: CrcCtx,
    after: CrcCtx,
    cmd: i32,
    d: DataView,
    len: u64,
    behind: DataView,
    r: i64,
) -> bool {
    &&& cmd == ZIP_SOURCE_READ ==> crc_took(before, after, behind, r)
    &&& cmd == ZIP_SOURCE_SEEK ==> crc_sought(before, after, seek_args(d, len), r)
    &&& crc_asks(cmd) && cmd != ZIP_SOURCE_READ && cmd != ZIP_SOURCE_SEEK ==> after == before
}

/// What a CRC layer answers to a read that the source below answered with `a`.
pub open spec fn crc_answer(a: i64, behind: DataView) -> i64 {
    if a == 0 || (a > 0 && offered(behind, a as u64) is Some) {
        a
    } else {
        (-1) as i64
    }
}

/// Whether a CRC layer has answered a seek with `r`, where the source below told
/// the position `t` behind it.
pub open spec fn crc_followed(t: i64, after: CrcCtx, r: i64) -> bool {
    if t < 0 {
        r == -1
    } else {
        r == 0 && after.position == t
    }
}

/// The state of a source behind a read that the user answered with `a`.
pub open spec fn read_noted(n: NodeView, a: i64) -> NodeView {
    if a < 0 {
        with_error(n, ZIP_ER_READ)
    } else {
        noted(n, ZIP_SOURCE_READ, a)
    }
}

/// What a source asks that is over a function of the user.
pub open spec fn over_function<F, L>(f: F) -> SourceBackend<F, L> {
    SourceBackend::Function(f)
}

/// What a source asks that is over a layer of the user.
pub open spec fn over_layer<F, L>(l: L, s: ZipSource<F, L>) -> SourceBackend<F, L> {
    SourceBackend::Layered { lower: Box::new(s), layer: Layer::User(l) }
}

/// What TELL answers.
pub open spec fn told<F, L>(s: SourceView<F, L>) -> i64 {
    match s.backend {
        BackendView::Memory(m) => m.pos as i64,
        BackendView::Layered { lower, layer: Layer::Crc(ctx) } => ctx.position as i64,
        _ => (-1) as i64,
    }
}

/// What a command does to a CRC layer and the source below it.
pub open spec fn crc_step<F, L>(
    lower: SourceView<F, L>,
    ctx: CrcCtx,
    cmd: i32,
    d: DataView,
    len: u64,
) -> CrcOutcome<F, L>
    decreases lower, 2int,
{
    if cmd == ZIP_SOURCE_OPEN {
        CrcOutcome {
            lower,
            ctx: CrcCtx {
                position: 0,
                crc_position: 0,
                crc: 0,
                crc_complete: false,
                running: 0,
                ..ctx
            },
            data: d,
            result: 0,
        }
    } else if cmd == ZIP_SOURCE_READ {
        let o = read_step(lower, d, len);
        if o.result < 0 {
            CrcOutcome { lower: o.source, ctx, data: o.data, result: (-1) as i64 }
        } else if o.result == 0 {
            CrcOutcome { lower: o.source, ctx: crc_ended(ctx), data: o.data, result: 0 }
        } else {
            match offered(o.data, o.result as u64) {
                Some(bytes) => CrcOutcome {
                    lower: o.source,
                    ctx: crc_passed(ctx, bytes),
                    data: o.data,
                    result: o.result,
                },
                None => CrcOutcome { lower: o.source, ctx, data: o.data, result: (-1) as i64 },
            }
        }
    } else if cmd == ZIP_SOURCE_CLOSE || cmd == ZIP_SOURCE_FREE {
        CrcOutcome { lower, ctx, data: d, result: 0 }
    } else if cmd == ZIP_SOURCE_STAT {
        match d {
            DataView::Stat(st) if len >= STAT_SIZE => CrcOutcome {
                lower,
                ctx,
                data: DataView::Stat(crc_stat(st, ctx)),
                result: 0,
            },
            _ => CrcOutcome {
                lower,
                ctx: CrcCtx { err_zip: ZIP_ER_INVAL, ..ctx },
                data: d,
                result: (-1) as i64,
            },
        }
    } else if cmd == ZIP_SOURCE_ERROR {
        CrcOutcome {
            lower,
            ctx,
            data: if d is Error && len >= ERROR_PAIR_SIZE {
                DataView::Error(ErrorPair { zip_err: ctx.err_zip, sys_err: ctx.err_sys })
            } else {
                d
            },
            result: 0,
        }
    } else if cmd == ZIP_SOURCE_SUPPORTS {
        CrcOutcome { lower, ctx, data: d, result: crc_mask(d, len) }
    } else if cmd == ZIP_SOURCE_SEEK {
        match seek_args(d, len) {
            None => CrcOutcome {
                lower,
                ctx: CrcCtx { err_zip: ZIP_ER_INVAL, ..ctx },
                data: d,
                result: (-1) as i64,
            },
            Some(args) => {
                let o = step(lower, ZIP_SOURCE_SEEK, DataView::Seek(args), SEEK_ARGS_SIZE);
                if o.result < 0 || told(o.source) < 0 {
                    CrcOutcome { lower: o.source, ctx, data: d, result: (-1) as i64 }
                } else {
                    CrcOutcome {
                        lower: o.source,
                        ctx: CrcCtx { position: told(o.source) as u64, ..ctx },
                        data: d,
                        result: 0,
                    }
                }
            },
        }
    } else if cmd == ZIP_SOURCE_TELL {
        CrcOutcome { lower, ctx, data: d, result: ctx.position as i64 }
    } else {
        let o = pass_step(lower, d, len, cmd);
        CrcOutcome { lower: o.source, ctx, data: o.data, result: o.result }
    }
}

/// TELL changes nothing.
pub proof fn lemma_tell<F, L>(s: SourceView<F, L>, d: DataView, len: u64)
    requires
        s.closed(),
    ensures
        step(s, ZIP_SOURCE_TELL, d, len) == (Outcome { source: s, data: d, result: told(s) }),
{
}

/// CLOSE changes nothing.
pub proof fn lemma_close<F, L>(s: SourceView<F, L>, d: DataView, len: u64)
    requires
        s.closed(),
    ensures
        step(s, ZIP_SOURCE_CLOSE, d, len) == (Outcome { source: s, data: d, result: 0 }),
{
}

/// A recorded error brings the user into no source.
proof fn lemma_failed_closed<F, L>(s: SourceView<F, L>, code: i32)
    ensures
        s.failed(code).closed() == s.closed(),
{
}

/// No command brings the user into a source.
pub proof fn lemma_step_closed<F, L>(s: SourceView<F, L>, cmd: i32, d: DataView, len: u64)
    requires
        s.closed(),
    ensures
        step(s, cmd, d, len).source.closed(),
    decreases s,
{
    if let BackendView::Layered { lower, layer: Layer::Crc(ctx) } = s.backend {
        lemma_step_closed(*lower, cmd, d, len);
        lemma_failed_closed(*lower, ZIP_ER_INTERNAL);
        lemma_failed_closed(*lower, ZIP_ER_OPNOTSUPP);
        lemma_failed_closed(step(*lower, cmd, d, len).source, ZIP_ER_READ);
        if let Some(args) = seek_args(d, len) {
            lemma_step_closed(*lower, ZIP_SOURCE_SEEK, DataView::Seek(args), SEEK_ARGS_SIZE);
        }
        let o = crc_step(*lower, ctx, cmd, d, len);
        let p = pass_step(*lower, d, len, cmd);
        assert(p.source.closed());
        assert(o.lower.closed());
    }
}

/// Whether two payloads are of one form, and buffers of one length.
pub open spec fn same_form(a: DataView, b: DataView) -> bool {
    match (a, b) {
        (DataView::Null, DataView::Null) => true,
        (DataView::Bytes(x), DataView::Bytes(y)) => x.len() == y.len(),
        (DataView::Seek(_), DataView::Seek(_)) => true,
        (DataView::Stat(_), DataView::Stat(_)) => true,
        (DataView::Error(_), DataView::Error(_)) => true,
        (DataView::Supports(_), DataView::Supports(_)) => true,
        (DataView::Attributes(_), DataView::Attributes(_)) => true,
        _ => false,
    }
}

/// No command turns a payload into one of another form.
pub proof fn lemma_step_form<F, L>(s: SourceView<F, L>, cmd: i32, d: DataView, len: u64)
    requires
        s.closed(),
    ensures
        same_form(d, step(s, cmd, d, len).data),
    decreases s,
{
    match s.backend {
        BackendView::Memory(m) => {
            assert(same_form(d, mem_step(s.node, m, cmd, d, len).data));
        },
        BackendView::Layered { lower, layer: Layer::Crc(ctx) } => {
            lemma_step_form(*lower, cmd, d, len);
            let p = pass_step(*lower, d, len, cmd);
            assert(same_form(d, p.data));
            assert(same_form(d, crc_step(*lower, ctx, cmd, d, len).data));
        },
        _ => {},
    }
}

impl SourceNode {
    /// Takes note of how the user answered a command.
    pub fn note_answer(&mut self, cmd: i32, r: i64)
        ensures
            final(self)@ == noted(old(self)@, cmd, r),
    {
        if cmd == ZIP_SOURCE_READ && r == 0 {
            self.eof = true;
        }
    }
}

impl<F: SourceCallback, L: LayeredCallback<F>> ZipSource<F, L> {
    /// A source over a backend that supports the commands in `supports`.
    pub fn new(backend: SourceBackend<F, L>, supports: i64) -> (r: ZipSource<F, L>)
        ensures
            r.backend == backend,
            r.node@ == new_node(supports),
    {
        ZipSource { backend, node: SourceNode::new(supports) }
    }

    /// Records an error.
    pub fn set_err(&mut self, code: i32, sys: i32)
        ensures
            final(self).backend == old(self).backend,
            final(self).node@ == (NodeView { error: error_of(code, sys), ..old(self).node@ }),
    {
        self.node.set_err(code, sys);
    }

    /// Runs a command.
    ///
    /// Where the user has a part in a source with two CRC layers, one right over
    /// the other, the contract says what the upper one makes of the answer that
    /// it gets, not what the lower one was asked.
    pub fn dispatch(&mut self, cmd: i32, data: &mut CommandData, len: u64) -> (r: i64)
        ensures
            final(self).height() == old(self).height(),
            old(self)@.closed() ==> (Outcome {
                source: final(self)@,
                data: final(data)@,
                result: r,
            }) == step(old(self)@, cmd, old(data)@, len),
            old(self).backend is Function ==> {
                &&& final(self).backend is Function
                &&& final(self).node@ == noted(old(self).node@, cmd, r)
                &&& exists|f: &mut F, d: &mut CommandData| #[trigger]
                    call_ensures(F::call, (f, d, len, cmd), r) && *f
                        == old(self).backend->Function_0 && *d == *old(data) && *final(f)
                        == final(self).backend->Function_0 && *final(d) == *final(data)
            },
            old(self).backend is Layered && old(self).backend->layer is Crc ==> {
                let lower = *old(self).backend->lower;
                let below = *final(self).backend->lower;
                &&& final(self).backend is Layered
                &&& final(self).backend->layer is Crc
                &&& final(self).node@ == noted(old(self).node@, cmd, r)
                &&& !crc_asks(cmd) ==> (Outcome {
                    source: final(self)@,
                    data: final(data)@,
                    result: r,
                }) == step(old(self)@, cmd, old(data)@, len)
                &&& crc_went_on(
                    old(self).backend->layer->Crc_0,
                    final(self).backend->layer->Crc_0,
                    cmd,
                    old(data)@,
                    len,
                    final(data)@,
                    r,
                )
                &&& lower.backend is Function && cmd == ZIP_SOURCE_READ ==> exists|
                    f: &mut F,
                    d: &mut CommandData,
                    a: i64,
                |
                    {
                        &&& #[trigger] call_ensures(F::call, (f, d, len, cmd), a)
                        &&& *f == lower.backend->Function_0
                        &&& *d == *old(data)
                        &&& *final(d) == *final(data)
                        &&& below.backend == over_function::<F, L>(*final(f))
                        &&& below.node@ == read_noted(lower.node@, a)
                        &&& r == crc_answer(a, final(data)@)
                    }
                &&& lower.backend is Layered && lower.backend->layer is User && cmd
                    == ZIP_SOURCE_READ ==> exists|
                    l: &mut L,
                    s: &mut ZipSource<F, L>,
                    d: &mut CommandData,
                    a: i64,
                |
                    {
                        &&& #[trigger] call_ensures(L::call_over, (l, s, d, len, cmd), a)
                        &&& *l == lower.backend->layer->User_0
                        &&& *s == *lower.backend->lower
                        &&& *d == *old(data)
                        &&& *final(d) == *final(data)
                        &&& below.backend == over_layer(*final(l), *final(s))
                        &&& below.node@ == read_noted(lower.node@, a)
                        &&& r == crc_answer(a, final(data)@)
                    }
                &&& lower.backend is Function && crc_forwards(cmd) ==> exists|
                    f: &mut F,
                    d: &mut CommandData,
                |
                    {
                        &&& #[trigger] call_ensures(F::call, (f, d, len, cmd), r)
                        &&& *f == lower.backend->Function_0
                        &&& *d == *old(data)
                        &&& *final(d) == *final(data)
                        &&& below.backend == over_function::<F, L>(*final(f))
                        &&& below.node@ == lower.node@
                    }
                &&& lower.backend is Layered && lower.backend->layer is User && crc_forwards(
                    cmd,
                ) ==> exists|
                    l: &mut L,
                    s: &mut ZipSource<F, L>,
                    d: &mut CommandData,
                |
                    {
                        &&& #[trigger] call_ensures(L::call_over, (l, s, d, len, cmd), r)
                        &&& *l == lower.backend->layer->User_0
                        &&& *s == *lower.backend->lower
                        &&& *d == *old(data)
                        &&& *final(d) == *final(data)
                        &&& below.backend == over_layer(*final(l), *final(s))
                        &&& below.node@ == lower.node@
                    }
                &&& cmd == ZIP_SOURCE_SEEK ==> *final(data) == *old(data)
                &&& cmd == ZIP_SOURCE_SEEK && seek_args(old(data)@, len) is None ==> below == lower
                &&& lower.backend is Function && cmd == ZIP_SOURCE_SEEK && seek_args(
                    old(data)@,
                    len,
                ) is Some ==> exists|
                    f: &mut F,
                    d: &mut CommandData,
                    a: i64,
                |
                    {
                        &&& #[trigger] call_ensures(
                            F::call,
                            (f, d, SEEK_ARGS_SIZE, ZIP_SOURCE_SEEK),
                            a,
                        )
                        &&& *f == lower.backend->Function_0
                        &&& *d == CommandData::Seek(seek_args(old(data)@, len)->0)
                        &&& below.node@ == lower.node@
                        &&& if a < 0 {
                            r == -1 && below.backend == over_function::<F, L>(*final(f))
                        } else {
                            exists|g: &mut F, n: &mut CommandData, t: i64|
                            {
                                &&& #[trigger] call_ensures(F::call, (g, n, 0, ZIP_SOURCE_TELL), t)
                                &&& *g == *final(f)
                                &&& *n == CommandData::Null
                                &&& below.backend == over_function::<F, L>(*final(g))
                                &&& crc_followed(t, final(self).backend->layer->Crc_0, r)
                            }
                        }
                    }
                &&& lower.backend is Layered && lower.backend->layer is User && cmd
                    == ZIP_SOURCE_SEEK && seek_args(old(data)@, len) is Some ==> exists|
                    l: &mut L,
                    s: &mut ZipSource<F, L>,
                    d: &mut CommandData,
                    a: i64,
                |
                    {
                        &&& #[trigger] call_ensures(
                            L::call_over,
                            (l, s, d, SEEK_ARGS_SIZE, ZIP_SOURCE_SEEK),
                            a,
                        )
                        &&& *l == lower.backend->layer->User_0
                        &&& *s == *lower.backend->lower
                        &&& *d == CommandData::Seek(seek_args(old(data)@, len)->0)
                        &&& below.node@ == lower.node@
                        &&& if a < 0 {
                            r == -1 && below.backend == over_layer(*final(l), *final(s))
                        } else {
                            exists|k: &mut L, q: &mut ZipSource<F, L>, n: &mut CommandData, t: i64|
                            {
                                &&& #[trigger] call_ensures(
                                    L::call_over,
                                    (k, q, n, 0, ZIP_SOURCE_TELL),
                                    t,
                                )
                                &&& *k == *final(l)
                                &&& *q == *final(s)
                                &&& *n == CommandData::Null
                                &&& below.backend == over_layer(*final(k), *final(q))
                                &&& crc_followed(t, final(self).backend->layer->Crc_0, r)
                            }
                        }
                    }
            },
            old(self).backend is Layered && old(self).backend->layer is User ==> {
                &&& final(self).backend is Layered
                &&& final(self).backend->layer is User
                &&& final(self).node@ == noted(old(self).node@, cmd, r)
                &&& exists|l: &mut L, s: &mut ZipSource<F, L>, d: &mut CommandData| #[trigger]
                    call_ensures(L::call_over, (l, s, d, len, cmd), r) && *l
                        == old(self).backend->layer->User_0 && *s
                        == *old(self).backend->lower && *d == *old(data) && *final(l)
                        == final(self).backend->layer->User_0 && *final(s)
                        == *final(self).backend->lower && *final(d) == *final(data)
            },
        decreases old(self).height(), 0int,
    {
        match &mut self.backend {
            SourceBackend::Memory(m) => m.dispatch(&mut self.node, cmd, data, len),
            SourceBackend::Function(f) => {
                let r: i64 = f.call(data, len, cmd);
                self.node.note_answer(cmd, r);
                r
            },
            SourceBackend::Layered { lower, layer: Layer::User(l) } => {
                let below: &mut ZipSource<F, L> = &mut **lower;
                let r: i64 = l.call_over(below, data, len, cmd);
                self.node.note_answer(cmd, r);
                r
            },
            SourceBackend::Layered { lower, layer: Layer::Crc(ctx) } => {
                let below: &mut ZipSource<F, L> = &mut **lower;
                let r: i64 = crc_layered_cb(below, ctx, data, len, cmd);
                self.node.note_answer(cmd, r);
                r
            },
        }
    }

    /// Reads, and records the read error where that fails.
    pub fn read_command(&mut self, data: &mut CommandData, len: u64) -> (r: i64)
        ensures
            final(self).height() == old(self).height(),
            old(self)@.closed() ==> (Outcome {
                source: final(self)@,
                data: final(data)@,
                result: r,
            }) == read_step(old(self)@, old(data)@, len),
            r < 0 ==> final(self).node.error@ == error_of(ZIP_ER_READ, 0),
            !(old(self).backend is Memory) ==> final(self).node@ == (if r < 0 {
                with_error(old(self).node@, ZIP_ER_READ)
            } else {
                noted(old(self).node@, ZIP_SOURCE_READ, r)
            }),
            old(self).backend is Layered && old(self).backend->layer is Crc ==> {
                &&& final(self).backend is Layered
                &&& final(self).backend->layer is Crc
                &&& crc_took(
                    old(self).backend->layer->Crc_0,
                    final(self).backend->layer->Crc_0,
                    final(data)@,
                    r,
                )
            },
            old(self).backend is Function ==> exists|f: &mut F, d: &mut CommandData| #[trigger]
                call_ensures(F::call, (f, d, len, ZIP_SOURCE_READ), r) && *f
                    == old(self).backend->Function_0 && *d == *old(data) && *final(d)
                    == *final(data) && final(self).backend == SourceBackend::<F, L>::Function(
                    *final(f),
                ),
            old(self).backend is Layered && old(self).backend->layer is User ==> exists|
                l: &mut L,
                s: &mut ZipSource<F, L>,
                d: &mut CommandData,
            | #[trigger]
                call_ensures(L::call_over, (l, s, d, len, ZIP_SOURCE_READ), r) && *l
                    == old(self).backend->layer->User_0 && *s == *old(self).backend->lower && *d
                    == *old(data) && *final(d) == *final(data) && final(self).backend
                    == (SourceBackend::<F, L>::Layered {
                    lower: Box::new(*final(s)),
                    layer: Layer::User(*final(l)),
                }),
        decreases old(self).height(), 1int,
    {
        let r: i64 = self.dispatch(ZIP_SOURCE_READ, data, len);
        if r < 0 {
            self.node.set_err(ZIP_ER_READ, 0);
        }
        r
    }
}

/// Runs a command on a CRC layer over `lower`.
pub fn crc_layered_cb<F: SourceCallback, L: LayeredCallback<F>>(
    lower: &mut ZipSource<F, L>,
    ctx: &mut CrcCtx,
    data: &mut CommandData,
    len: u64,
    cmd: i32,
) -> (r: i64)
    ensures
        final(lower).height() == old(lower).height(),
        old(lower)@.closed() || !crc_asks(cmd) ==> (CrcOutcome {
            lower: final(lower)@,
            ctx: *final(ctx),
            data: final(data)@,
            result: r,
        }) == crc_step(old(lower)@, *old(ctx), cmd, old(data)@, len),
        cmd == ZIP_SOURCE_OPEN || cmd == ZIP_SOURCE_CLOSE || cmd == ZIP_SOURCE_STAT || cmd
            == ZIP_SOURCE_ERROR || cmd == ZIP_SOURCE_FREE || cmd == ZIP_SOURCE_SUPPORTS || cmd
            == ZIP_SOURCE_TELL ==> *final(lower) == *old(lower),
        crc_went_on(*old(ctx), *final(ctx), cmd, old(data)@, len, final(data)@, r),
        old(lower).backend is Function && cmd == ZIP_SOURCE_READ ==> exists|
            f: &mut F,
            d: &mut CommandData,
            a: i64,
        |
            {
                &&& #[trigger] call_ensures(F::call, (f, d, len, cmd), a)
                &&& *f == old(lower).backend->Function_0
                &&& *d == *old(data)
                &&& *final(d) == *final(data)
                &&& final(lower).backend == over_function::<F, L>(*final(f))
                &&& final(lower).node@ == read_noted(old(lower).node@, a)
                &&& r == crc_answer(a, final(data)@)
            },
        old(lower).backend is Layered && old(lower).backend->layer is User && cmd
            == ZIP_SOURCE_READ ==> exists|
            l: &mut L,
            s: &mut ZipSource<F, L>,
            d: &mut CommandData,
            a: i64,
        |
            {
                &&& #[trigger] call_ensures(L::call_over, (l, s, d, len, cmd), a)
                &&& *l == old(lower).backend->layer->User_0
                &&& *s == *old(lower).backend->lower
                &&& *d == *old(data)
                &&& *final(d) == *final(data)
                &&& final(lower).backend == over_layer(*final(l), *final(s))
                &&& final(lower).node@ == read_noted(old(lower).node@, a)
                &&& r == crc_answer(a, final(data)@)
            },
        old(lower).backend is Function && crc_forwards(cmd) ==> exists|
            f: &mut F,
            d: &mut CommandData,
        |
            {
                &&& #[trigger] call_ensures(F::call, (f, d, len, cmd), r)
                &&& *f == old(lower).backend->Function_0
                &&& *d == *old(data)
                &&& *final(d) == *final(data)
                &&& final(lower).backend == over_function::<F, L>(*final(f))
                &&& final(lower).node@ == old(lower).node@
            },
        old(lower).backend is Layered && old(lower).backend->layer is User && crc_forwards(
            cmd,
        ) ==> exists|
            l: &mut L,
            s: &mut ZipSource<F, L>,
            d: &mut CommandData,
        |
            {
                &&& #[trigger] call_ensures(L::call_over, (l, s, d, len, cmd), r)
                &&& *l == old(lower).backend->layer->User_0
                &&& *s == *old(lower).backend->lower
                &&& *d == *old(data)
                &&& *final(d) == *final(data)
                &&& final(lower).backend == over_layer(*final(l), *final(s))
                &&& final(lower).node@ == old(lower).node@
            },
        cmd == ZIP_SOURCE_SEEK ==> *final(data) == *old(data),
        cmd == ZIP_SOURCE_SEEK && seek_args(old(data)@, len) is None ==> *final(lower)
            == *old(lower),
        old(lower).backend is Function && cmd == ZIP_SOURCE_SEEK && seek_args(
            old(data)@,
            len,
        ) is Some ==> exists|
            f: &mut F,
            d: &mut CommandData,
            a: i64,
        |
            {
                &&& #[trigger] call_ensures(F::call, (f, d, SEEK_ARGS_SIZE, ZIP_SOURCE_SEEK), a)
                &&& *f == old(lower).backend->Function_0
                &&& *d == CommandData::Seek(seek_args(old(data)@, len)->0)
                &&& final(lower).node@ == old(lower).node@
                &&& if a < 0 {
                    r == -1 && final(lower).backend == over_function::<F, L>(*final(f))
                } else {
                    exists|g: &mut F, n: &mut CommandData, t: i64|
                    {
                        &&& #[trigger] call_ensures(F::call, (g, n, 0, ZIP_SOURCE_TELL), t)
                        &&& *g == *final(f)
                        &&& *n == CommandData::Null
                        &&& final(lower).backend == over_function::<F, L>(*final(g))
                        &&& crc_followed(t, *final(ctx), r)
                    }
                }
            },
        old(lower).backend is Layered && old(lower).backend->layer is User && cmd
            == ZIP_SOURCE_SEEK && seek_args(old(data)@, len) is Some ==> exists|
            l: &mut L,
            s: &mut ZipSource<F, L>,
            d: &mut CommandData,
            a: i64,
        |
            {
                &&& #[trigger] call_ensures(
                    L::call_over,
                    (l, s, d, SEEK_ARGS_SIZE, ZIP_SOURCE_SEEK),
                    a,
                )
                &&& *l == old(lower).backend->layer->User_0
                &&& *s == *old(lower).backend->lower
                &&& *d == CommandData::Seek(seek_args(old(data)@, len)->0)
                &&& final(lower).node@ == old(lower).node@
                &&& if a < 0 {
                    r == -1 && final(lower).backend == over_layer(*final(l), *final(s))
                } else {
                    exists|k: &mut L, q: &mut ZipSource<F, L>, n: &mut CommandData, t: i64|
                    {
                        &&& #[trigger] call_ensures(
                            L::call_over,
                            (k, q, n, 0, ZIP_SOURCE_TELL),
                            t,
                        )
                        &&& *k == *final(l)
                        &&& *q == *final(s)
                        &&& *n == CommandData::Null
                        &&& final(lower).backend == over_layer(*final(k), *final(q))
                        &&& crc_followed(t, *final(ctx), r)
                    }
                }
            },
    decreases old(lower).height(), 2int,
{
    match cmd {
        ZIP_SOURCE_OPEN => {
            ctx.position = 0;
            ctx.crc_position = 0;
            ctx.crc = 0;
            ctx.crc_complete = false;
            ctx.running = 0;
            0
        },
        ZIP_SOURCE_READ => {
            let n: i64 = lower.read_command(data, len);
            if n < 0 {
                return -1;
            }
            if n == 0 {
                ctx.size = ctx.position;
                if ctx.crc_position == ctx.position {
                    ctx.crc = ctx.running;
                    ctx.crc_complete = true;
                }
                return 0;
            }
            if let CommandData::Bytes(buf) = &*data {
                if buf.len() as u64 >= n as u64 {
                    let bytes = slice_subrange(buf.as_slice(), 0, n as usize);
                    if !ctx.crc_complete && ctx.position == ctx.crc_position {
                        ctx.running = crc32_update(ctx.running, bytes);
                        ctx.crc_position = ctx.crc_position.wrapping_add(n as u64);
                    }
                    ctx.position = ctx.position.wrapping_add(n as u64);
                    return n;
                }
            }
            -1
        },
        ZIP_SOURCE_CLOSE => 0,
        ZIP_SOURCE_STAT => {
            if len >= STAT_SIZE {
                if let CommandData::Stat(st) = data {
                    if ctx.crc_complete {
                        st.size = ctx.size;
                        st.crc = ctx.crc;
                        st.comp_size = ctx.size;
                        st.comp_method = ZIP_CM_STORE as u16;
                        st.encryption_method = ZIP_EM_NONE;
                        st.valid = st.valid | (ZIP_STAT_SIZE | ZIP_STAT_CRC | ZIP_STAT_COMP_SIZE
                            | ZIP_STAT_COMP_METHOD | ZIP_STAT_ENCRYPTION_METHOD);
                    }
                    return 0;
                }
            }
            ctx.err_zip = ZIP_ER_INVAL;
            -1
        },
        ZIP_SOURCE_ERROR => {
            if len >= ERROR_PAIR_SIZE {
                if let CommandData::Error(out) = data {
                    out.zip_err = ctx.err_zip;
                    out.sys_err = ctx.err_sys;
                }
            }
            0
        },
        ZIP_SOURCE_FREE => 0,
        ZIP_SOURCE_SUPPORTS => {
            let below: i64 = match &*data {
                CommandData::Supports(mask) if len >= 8 => *mask,
                _ => SRC_READABLE,
            };
            let cmds: [i32; 7] = [
                ZIP_SOURCE_BEGIN_WRITE,
                ZIP_SOURCE_COMMIT_WRITE,
                ZIP_SOURCE_ROLLBACK_WRITE,
                ZIP_SOURCE_SEEK_WRITE,
                ZIP_SOURCE_TELL_WRITE,
                ZIP_SOURCE_REMOVE,
                ZIP_SOURCE_GET_FILE_ATTRIBUTES,
            ];
            let taken: i64 = make_bitmap(&cmds);
            assert(cmds@ =~= seq![
                ZIP_SOURCE_BEGIN_WRITE,
                ZIP_SOURCE_COMMIT_WRITE,
                ZIP_SOURCE_ROLLBACK_WRITE,
                ZIP_SOURCE_SEEK_WRITE,
                ZIP_SOURCE_TELL_WRITE,
                ZIP_SOURCE_REMOVE,
                ZIP_SOURCE_GET_FILE_ATTRIBUTES,
            ]);
            (below & !taken) | src_bit(ZIP_SOURCE_FREE)
        },
        ZIP_SOURCE_SEEK => {
            match zip_source_args_seek(data, len) {
                None => {
                    ctx.err_zip = ZIP_ER_INVAL;
                    -1
                },
                Some(args) => {
                    let mut payload = CommandData::Seek(args);
                    if lower.dispatch(ZIP_SOURCE_SEEK, &mut payload, SEEK_ARGS_SIZE) < 0 {
                        return -1;
                    }
                    proof {
                        if old(lower)@.closed() {
                            lemma_step_closed(
                                old(lower)@,
                                ZIP_SOURCE_SEEK,
                                DataView::Seek(args),
                                SEEK_ARGS_SIZE,
                            );
                            lemma_tell(lower@, DataView::Null, 0);
                        }
                    }
                    let mut nothing = CommandData::Null;
                    let tell: i64 = lower.dispatch(ZIP_SOURCE_TELL, &mut nothing, 0);
                    if tell < 0 {
                        return -1;
                    }
                    ctx.position = tell as u64;
                    0
                },
            }
        },
        ZIP_SOURCE_TELL => ctx.position as i64,
        ZIP_SOURCE_ACCEPT_EMPTY | ZIP_SOURCE_AT_EOF | ZIP_SOURCE_GET_DOS_TIME => {
            lower.dispatch(cmd, data, len)
        },
        _ => answer_alone(lower, data, len, cmd),
    }
}

/// What a layer answers by itself to a command that it neither runs nor leaves to
/// the source below.
fn answer_alone<F: SourceCallback, L: LayeredCallback<F>>(
    lower: &mut ZipSource<F, L>,
    data: &mut CommandData,
    len: u64,
    cmd: i32,
) -> (r: i64)
    requires
        !forwards(cmd),
    ensures
        final(lower).height() == old(lower).height(),
        (Outcome { source: final(lower)@, data: final(data)@, result: r }) == pass_step(
            old(lower)@,
            old(data)@,
            len,
            cmd,
        ),
{
    match cmd {
        ZIP_SOURCE_OPEN
        | ZIP_SOURCE_CLOSE
        | ZIP_SOURCE_FREE
        | ZIP_SOURCE_GET_FILE_ATTRIBUTES
        | ZIP_SOURCE_SUPPORTS_REOPEN => 0,
        ZIP_SOURCE_STAT => STAT_SIZE as i64,
        ZIP_SOURCE_SUPPORTS => {
            if len >= 8 {
                if let CommandData::Supports(mask) = data {
                    return *mask;
                }
            }
            lower.set_err(ZIP_ER_INTERNAL, 0);
            -1
        },
        _ => {
            lower.set_err(ZIP_ER_OPNOTSUPP, 0);
            -1
        },
    }
}

/// What a layer does with a command that it does not run: most of those that ask
/// for something are left to the source below, and some are answered.
pub fn pass_command<F: SourceCallback, L: LayeredCallback<F>>(
    lower: &mut ZipSource<F, L>,
    data: &mut CommandData,
    len: u64,
    cmd: i32,
) -> (r: i64)
    ensures
        old(lower)@.closed() || !forwards(cmd) ==> (Outcome {
            source: final(lower)@,
            data: final(data)@,
            result: r,
        }) == pass_step(old(lower)@, old(data)@, len, cmd),
        forwards(cmd) ==> exists|p: &mut ZipSource<F, L>, d: &mut CommandData|
            {
                &&& #[trigger] call_ensures(ZipSource::<F, L>::dispatch, (p, cmd, d, len), r)
                &&& *p == *old(lower)
                &&& *d == *old(data)
                &&& *final(p) == *final(lower)
                &&& *final(d) == *final(data)
            },
{
    match cmd {
        ZIP_SOURCE_ACCEPT_EMPTY
        | ZIP_SOURCE_AT_EOF
        | ZIP_SOURCE_ERROR
        | ZIP_SOURCE_GET_DOS_TIME
        | ZIP_SOURCE_READ
        | ZIP_SOURCE_SEEK
        | ZIP_SOURCE_TELL => lower.dispatch(cmd, data, len),
        _ => answer_alone(lower, data, len, cmd),
    }
}

/// The bytes that are still to be read from a source in which the user has no
/// part.
pub open spec fn remaining<F, L>(s: SourceView<F, L>) -> Seq<u8>
    decreases s,
{
    match s.backend {
        BackendView::Memory(m) => m.rest(),
        BackendView::Layered { lower, layer: Layer::Crc(_) } => remaining(*lower),
        _ => Seq::empty(),
    }
}

/// Whether the buffer at the bottom of a source can be addressed.
pub open spec fn addressable<F, L>(s: SourceView<F, L>) -> bool
    decreases s,
{
    match s.backend {
        BackendView::Memory(m) => m.data.len() <= usize::MAX,
        BackendView::Layered { lower, layer: _ } => addressable(*lower),
        _ => true,
    }
}

/// Every source is addressable.
pub proof fn lemma_addressable<F, L>(s: ZipSource<F, L>)
    ensures
        addressable(s@),
    decreases s,
{
    match s.backend {
        SourceBackend::Memory(m) => {
            assert(m.data.len() <= usize::MAX);
        },
        SourceBackend::Layered { lower, layer: _ } => {
            lemma_addressable(*lower);
        },
        _ => {},
    }
}

/// Whether every CRC layer of a source has taken up all that has been read.
pub open spec fn in_sync<F, L>(s: SourceView<F, L>) -> bool
    decreases s,
{
    match s.backend {
        BackendView::Memory(m) => true,
        BackendView::Layered { lower, layer: Layer::Crc(ctx) } => !ctx.crc_complete && ctx.position
            == ctx.crc_position && in_sync(*lower),
        _ => false,
    }
}

/// A source that has been read to its end: a memory source stands at the end,
/// and a CRC layer knows the size and the CRC-32 of all that went through it.
pub open spec fn drained<F, L>(s: SourceView<F, L>) -> SourceView<F, L>
    decreases s,
{
    let node = NodeView { eof: true, ..s.node };
    match s.backend {
        BackendView::Memory(m) => SourceView {
            backend: BackendView::Memory(
                MemView { pos: (m.pos + m.rest().len()) as u64, ..m },
            ),
            node,
        },
        BackendView::Layered { lower, layer: Layer::Crc(ctx) } => SourceView {
            backend: BackendView::Layered {
                lower: Box::new(drained(*lower)),
                layer: Layer::Crc(crc_ended(crc_passed(ctx, remaining(*lower)))),
            },
            node,
        },
        _ => s,
    }
}

proof fn lemma_remaining_bound<F, L>(s: SourceView<F, L>)
    requires
        s.closed(),
        addressable(s),
    ensures
        remaining(s).len() <= usize::MAX,
    decreases s,
{
    if let BackendView::Layered { lower, layer: _ } = s.backend {
        lemma_remaining_bound(*lower);
    }
}

/// A CRC layer that has missed nothing ends up the same whether bytes pass
/// through it in two parts or at once.
pub proof fn lemma_passed_in_parts(ctx: CrcCtx, a: Seq<u8>, b: Seq<u8>)
    requires
        !ctx.crc_complete,
        ctx.position == ctx.crc_position,
        a.len() + b.len() <= u64::MAX,
    ensures
        crc_passed(crc_passed(ctx, a), b) == crc_passed(ctx, a + b),
        crc_passed(ctx, a).position == crc_passed(ctx, a).crc_position,
        !crc_passed(ctx, a).crc_complete,
{
    lemma_crc32_append(ctx.running, a, b);
}

/// A read moves the next bytes into the buffer, and only a read at the end
/// moves none.
pub proof fn lemma_read<F, L>(s: SourceView<F, L>, b: Seq<u8>, len: u64)
    requires
        s.closed(),
        0 < len <= b.len(),
        len <= i64::MAX,
        addressable(s),
    ensures
        ({
            let o = step(s, ZIP_SOURCE_READ, DataView::Bytes(b), len);
            let n = if remaining(s).len() < len { remaining(s).len() as int } else { len as int };
            &&& o.source.closed()
            &&& o.result == n
            &&& o.data == DataView::Bytes(remaining(s).take(n) + b.skip(n))
            &&& remaining(o.source) == remaining(s).skip(n)
            &&& in_sync(s) && n > 0 ==> in_sync(o.source) && drained(o.source) == drained(s)
            &&& in_sync(s) && n == 0 ==> o.source == drained(s)
        }),
    decreases s,
{
    let o = step(s, ZIP_SOURCE_READ, DataView::Bytes(b), len);
    let n = if remaining(s).len() < len { remaining(s).len() as int } else { len as int };
    lemma_step_closed(s, ZIP_SOURCE_READ, DataView::Bytes(b), len);
    match s.backend {
        BackendView::Memory(m) => {
            assert(remaining(o.source) =~= remaining(s).skip(n));
            let p = MemView { pos: (m.pos + n) as u64, ..m };
            assert(o.source.backend == BackendView::<F, L>::Memory(p));
            assert(p.rest() == m.rest().skip(n));
            if n > 0 {
                assert(drained(o.source) == drained(s));
            }
            assert(remaining(s).take(n) + b.skip(n) =~= remaining(s).take(n) + b.skip(
                remaining(s).take(n).len() as int,
            ));
        },
        BackendView::Layered { lower, layer: Layer::Crc(ctx) } => {
            lemma_remaining_bound(*lower);
            lemma_read(*lower, b, len);
            let q = read_step(*lower, DataView::Bytes(b), len);
            assert(q == step(*lower, ZIP_SOURCE_READ, DataView::Bytes(b), len));
            let bytes = remaining(s).take(n);
            assert((bytes + b.skip(n)).take(n) =~= bytes);
            if n > 0 {
                if in_sync(s) {
                    lemma_passed_in_parts(ctx, bytes, remaining(s).skip(n));
                }
                assert(bytes + remaining(s).skip(n) =~= remaining(s));
            } else {
                assert(remaining(s) =~= Seq::empty());
            }
        },
        _ => {},
    }
}

/// Why a source could not be read to its end.
#[derive(Clone, Copy, Debug, PartialEq, Eq, Structural)]
pub enum ReadFailure {
    /// A command failed.
    Failed,
    /// More bytes were announced than the buffer or the memory can hold.
    Overrun,
}

/// The size of the buffer through which sources are read.
pub const CHUNK: u64 = 65536;

/// The buffer that a read of a whole source hands down.
pub open spec fn fresh_buffer() -> Seq<u8> {
    Seq::new(CHUNK as nat, |i: int| 0u8)
}

/// Whether a source is of the kind of another: both are the user's, or both are
/// layers of one kind.
pub open spec fn same_kind<F, L>(a: ZipSource<F, L>, b: ZipSource<F, L>) -> bool {
    &&& a.backend is Function ==> b.backend is Function
    &&& a.backend is Layered ==> {
        &&& b.backend is Layered
        &&& a.backend->layer is User <==> b.backend->layer is User
    }
}

/// Whether an answer to a read is more than can be taken up behind `had` bytes:
/// the payload is no buffer, or shorter than announced, or memory ends.
pub open spec fn overruns(had: nat, d: CommandData, n: i64) -> bool {
    n > 0 && (!(d is Bytes) || n > d->Bytes_0@.len() || had + n > isize::MAX)
}

impl<F: SourceCallback, L: LayeredCallback<F>> ZipSource<F, L> {
    /// Reads the whole content: opens the source, reads it to its end, and
    /// closes it.
    ///
    /// `states` are the source behind OPEN and behind each read that gave bytes,
    /// and `chunks` are the bytes that these gave, in order.
    #[verifier::spinoff_prover]
    #[verifier::rlimit(60)]
    pub fn read_all(&mut self) -> (r: Result<Vec<u8>, ReadFailure>)
        ensures
            final(self).height() == old(self).height(),
            r matches Ok(v) ==> v@.len() <= isize::MAX,
            old(self)@.closed() ==> {
                let s = step(old(self)@, ZIP_SOURCE_OPEN, DataView::Null, 0).source;
                &&& final(self)@.closed()
                &&& r is Ok <==> remaining(s).len() <= isize::MAX
                &&& r matches Ok(v) ==> v@ == remaining(s)
                &&& r is Err ==> r->Err_0 == ReadFailure::Overrun
                &&& in_sync(s) && r is Ok ==> final(self)@ == drained(s)
            },
            exists|states: Seq<ZipSource<F, L>>, chunks: Seq<Seq<u8>>|
                #![trigger states.len(), chunks.flatten()]
                {
                    &&& states.len() == chunks.len() + 1
                    &&& forall|j: int|
                        0 <= j < states.len() ==> same_kind(*old(self), #[trigger] states[j])
                    &&& exists|p: &mut ZipSource<F, L>, d: &mut CommandData, n: i64|
                        {
                            &&& #[trigger] call_ensures(
                                ZipSource::<F, L>::dispatch,
                                (p, ZIP_SOURCE_OPEN, d, 0),
                                n,
                            )
                            &&& *p == *old(self)
                            &&& *d == CommandData::Null
                            &&& *final(p) == states[0]
                            &&& n < 0 ==> {
                                &&& r == Err::<Vec<u8>, ReadFailure>(ReadFailure::Failed)
                                &&& *final(self) == states[0]
                            }
                            &&& n >= 0 ==> exists|
                                q: &mut ZipSource<F, L>,
                                b: &mut CommandData,
                                m: i64,
                            |
                                {
                                    &&& #[trigger] call_ensures(
                                        ZipSource::<F, L>::dispatch,
                                        (q, ZIP_SOURCE_READ, b, CHUNK),
                                        m,
                                    )
                                    &&& *q == states.last()
                                    &&& *b is Bytes
                                    &&& b->Bytes_0@ == fresh_buffer()
                                    &&& match r {
                                        Ok(v) => m == 0 && v@ == chunks.flatten(),
                                        Err(ReadFailure::Failed) => m < 0,
                                        Err(ReadFailure::Overrun) => {
                                            &&& overruns(chunks.flatten().len(), *final(b), m)
                                            &&& *final(self) == *final(q)
                                        },
                                    }
                                    &&& m <= 0 ==> exists|
                                        c: &mut ZipSource<F, L>,
                                        e: &mut CommandData,
                                        k: i64,
                                    |
                                        {
                                            &&& #[trigger] call_ensures(
                                                ZipSource::<F, L>::dispatch,
                                                (c, ZIP_SOURCE_CLOSE, e, 0),
                                                k,
                                            )
                                            &&& *c == *final(q)
                                            &&& *e == CommandData::Null
                                            &&& *final(self) == *final(c)
                                        }
                                }
                        }
                    &&& forall|j: int|
                        0 <= j < chunks.len() ==> (#[trigger] chunks[j]).len() > 0 && exists|
                            p: &mut ZipSource<F, L>,
                            d: &mut CommandData,
                            n: i64,
                        |
                            {
                                &&& #[trigger] call_ensures(
                                    ZipSource::<F, L>::dispatch,
                                    (p, ZIP_SOURCE_READ, d, CHUNK),
                                    n,
                                )
                                &&& *p == states[j]
                                &&& *d is Bytes
                                &&& d->Bytes_0@ == fresh_buffer()
                                &&& *final(p) == states[j + 1]
                                &&& *final(d) is Bytes
                                &&& 0 < n <= final(d)->Bytes_0@.len()
                                &&& chunks[j] == final(d)->Bytes_0@.take(n as int)
                            }
                },
    {
        let ghost mut chunks: Seq<Seq<u8>> = Seq::empty();
        let mut nothing = CommandData::Null;
        let opened: i64 = self.dispatch(ZIP_SOURCE_OPEN, &mut nothing, 0);
        let ghost mut states: Seq<ZipSource<F, L>> = seq![*self];
        proof {
            if old(self)@.closed() {
                lemma_step_closed(old(self)@, ZIP_SOURCE_OPEN, DataView::Null, 0);
            }
            assert(chunks.flatten() =~= Seq::empty());
        }
        if opened < 0 {
            assert(states.len() == chunks.len() + 1);
            return Err(ReadFailure::Failed);
        }
        let ghost start = self@;
        let mut out: Vec<u8> = Vec::new();
        assert(out@ + remaining(start) =~= remaining(start));
        loop
            invariant_except_break
                old(self)@.closed() && in_sync(start) ==> in_sync(self@) && drained(self@)
                    == drained(start),
                states.last() == *self,
            invariant
                opened >= 0,
                out@.len() <= isize::MAX,
                self.height() == old(self).height(),
                out@ == chunks.flatten(),
                states.len() == chunks.len() + 1,
                forall|j: int|
                    0 <= j < states.len() ==> same_kind(*old(self), #[trigger] states[j]),
                exists|p: &mut ZipSource<F, L>, d: &mut CommandData|
                    {
                        &&& #[trigger] call_ensures(
                            ZipSource::<F, L>::dispatch,
                            (p, ZIP_SOURCE_OPEN, d, 0),
                            opened,
                        )
                        &&& *p == *old(self)
                        &&& *d == CommandData::Null
                        &&& *final(p) == states[0]
                    },
                forall|j: int|
                    0 <= j < chunks.len() ==> (#[trigger] chunks[j]).len() > 0 && exists|
                        p: &mut ZipSource<F, L>,
                        d: &mut CommandData,
                        n: i64,
                    |
                        {
                            &&& #[trigger] call_ensures(
                                ZipSource::<F, L>::dispatch,
                                (p, ZIP_SOURCE_READ, d, CHUNK),
                                n,
                            )
                            &&& *p == states[j]
                            &&& *d is Bytes
                            &&& d->Bytes_0@ == fresh_buffer()
                            &&& *final(p) == states[j + 1]
                            &&& *final(d) is Bytes
                            &&& 0 < n <= final(d)->Bytes_0@.len()
                            &&& chunks[j] == final(d)->Bytes_0@.take(n as int)
                        },
                old(self)@.closed() ==> {
                    &&& start == step(old(self)@, ZIP_SOURCE_OPEN, DataView::Null, 0).source
                    &&& self@.closed()
                    &&& out@ + remaining(self@) == remaining(start)
                },
            ensures
                old(self)@.closed() ==> {
                    &&& out@ == remaining(start)
                    &&& in_sync(start) ==> self@ == drained(start)
                },
                exists|q: &mut ZipSource<F, L>, b: &mut CommandData|
                    {
                        &&& #[trigger] call_ensures(
                            ZipSource::<F, L>::dispatch,
                            (q, ZIP_SOURCE_READ, b, CHUNK),
                            0,
                        )
                        &&& *q == states.last()
                        &&& *b is Bytes
                        &&& b->Bytes_0@ == fresh_buffer()
                        &&& *final(q) == *self
                    },
            decreases isize::MAX - out@.len(),
        {
            let ghost before = self@;
            proof {
                lemma_addressable(*self);
            }
            let buf: Vec<u8> = vec![0u8; CHUNK as usize];
            assert(buf@ =~= fresh_buffer());
            let mut data = CommandData::Bytes(buf);
            let n: i64 = self.dispatch(ZIP_SOURCE_READ, &mut data, CHUNK);
            proof {
                if before.closed() {
                    lemma_read(before, fresh_buffer(), CHUNK);
                }
            }
            if n < 0 {
                let mut nothing = CommandData::Null;
                self.dispatch(ZIP_SOURCE_CLOSE, &mut nothing, 0);
                return Err(ReadFailure::Failed);
            }
            if n == 0 {
                assert(old(self)@.closed() ==> out@ =~= remaining(start));
                break ;
            }
            match &data {
                CommandData::Bytes(buf) => {
                    if n as u64 > buf.len() as u64 || n as u64 > isize::MAX as u64
                        - out.len() as u64 {
                        return Err(ReadFailure::Overrun);
                    }
                    let ghost had = out@;
                    out.extend_from_slice(slice_subrange(buf.as_slice(), 0, n as usize));
                    proof {
                        let chunk = buf@.take(n as int);
                        assert(out@ =~= had + chunk);
                        chunks.lemma_flatten_push(chunk);
                        let more = chunks.push(chunk);
                        let further = states.push(*self);
                        assert forall|j: int| 0 <= j < more.len() implies (#[trigger] more[j]).len() > 0 && exists|
                            p: &mut ZipSource<F, L>,
                            d: &mut CommandData,
                            n: i64,
                        |
                            {
                                &&& #[trigger] call_ensures(
                                    ZipSource::<F, L>::dispatch,
                                    (p, ZIP_SOURCE_READ, d, CHUNK),
                                    n,
                                )
                                &&& *p == further[j]
                                &&& *d is Bytes
                                &&& d->Bytes_0@ == fresh_buffer()
                                &&& *final(p) == further[j + 1]
                                &&& *final(d) is Bytes
                                &&& 0 < n <= final(d)->Bytes_0@.len()
                                &&& more[j] == final(d)->Bytes_0@.take(n as int)
                            } by {
                            if j < chunks.len() {
                                assert(more[j] == chunks[j]);
                                assert(further[j] == states[j]);
                                assert(further[j + 1] == states[j + 1]);
                            }
                        }
                        chunks = more;
                        states = further;
                        if old(self)@.closed() {
                            assert(buf@.take(n as int) =~= remaining(before).take(n as int));
                            assert(out@ + remaining(self@) =~= had + remaining(before));
                        }
                    }
                },
                _ => {
                    return Err(ReadFailure::Overrun);
                },
            }
        }
        proof {
            if old(self)@.closed() {
                lemma_close(self@, DataView::Null, 0);
            }
        }
        let mut nothing = CommandData::Null;
        self.dispatch(ZIP_SOURCE_CLOSE, &mut nothing, 0);
        Ok(out)
    }
}

} // verus!
