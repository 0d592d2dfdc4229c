//! The in-memory byte provider behind a source: reading, seeking, and write
//! sessions.

use crate::command::{
    compute_target, seek_args, seek_target, zip_source_args_seek, CommandData, DataView,
};
use crate::consts::{
    ERROR_PAIR_SIZE, STAT_SIZE, ZIP_ER_INVAL, ZIP_ER_OPNOTSUPP, ZIP_SOURCE_AT_EOF,
    ZIP_SOURCE_BEGIN_WRITE, ZIP_SOURCE_BEGIN_WRITE_CLONING, ZIP_SOURCE_CLOSE,
    ZIP_SOURCE_COMMIT_WRITE, ZIP_SOURCE_ERROR, ZIP_SOURCE_FREE, ZIP_SOURCE_OPEN, ZIP_SOURCE_READ,
    ZIP_SOURCE_ROLLBACK_WRITE, ZIP_SOURCE_SEEK, ZIP_SOURCE_SEEK_WRITE, ZIP_SOURCE_STAT,
    ZIP_SOURCE_SUPPORTS, ZIP_SOURCE_TELL, ZIP_SOURCE_TELL_WRITE, ZIP_SOURCE_WRITE,
};
use crate::errors::{error_of, no_error, zip_error, ErrorPair, ErrorView};
use crate::stat::{copy_bytes, fill_zip_stat, source_stat, Stat};
use vstd::prelude::*;

verus! {

/// The state that every source has, whatever provides its bytes.
#[derive(Debug)]
pub struct SourceNode {
    /// The last error.
    pub error: zip_error,
    /// Number of holders.
    pub refcount: i32,
    /// Mask of the supported commands, as far as it is known.
    pub supports: i64,
    /// Whether the source has been opened.
    pub opened: bool,
    /// Whether a read has reached the end.
    pub eof: bool,
    /// Whether a write session is open.
    pub write_open: bool,
}

/// What the state of a source says.
pub ghost struct NodeView {
    pub error: ErrorView,
    pub refcount: i32,
    pub supports: i64,
    pub opened: bool,
    pub eof: bool,
    pub write_open: bool,
}

impl View for SourceNode {
    type V = NodeView;

    open spec fn view(&self) -> NodeView {
        NodeView {
            error: self.error@,
            refcount: self.refcount,
            supports: self.supports,
            opened: self.opened,
            eof: self.eof,
            write_open: self.write_open,
        }
    }
}

/// The state of a source that has just been made.
pub open spec fn new_node(supports: i64) -> NodeView {
    NodeView {
        error: no_error(),
        refcount: 1,
        supports,
        opened: false,
        eof: false,
        write_open: false,
    }
}

/// A state with an error recorded in it.
pub open spec fn with_error(n: NodeView, code: i32) -> NodeView {
    NodeView { error: error_of(code, 0), ..n }
}

impl SourceNode {
    /// The state of a new source that supports the commands in `supports`.
    pub fn new(supports: i64) -> (r: SourceNode)
        ensures
            r@ == new_node(supports),
    {
        SourceNode {
            error: zip_error::new(),
            refcount: 1,
            supports,
            opened: false,
            eof: false,
            write_open: false,
        }
    }

    /// Records an error.
    pub fn set_err(&mut self, code: i32, sys: i32)
        ensures
            final(self)@ == (NodeView { error: error_of(code, sys), ..old(self)@ }),
    {
        self.error.record(code, sys);
    }
}

/// The bytes written in a session that is still open.
#[derive(Debug)]
pub struct PendingWrite {
    /// What the content becomes on commit.
    pub out: Vec<u8>,
    /// Where the next write goes.
    pub offset: u64,
}

/// What an open write session holds.
pub ghost struct WriteView {
    pub out: Seq<u8>,
    pub offset: u64,
}

impl View for PendingWrite {
    type V = WriteView;

    open spec fn view(&self) -> WriteView {
        WriteView { out: self.out@, offset: self.offset }
    }
}

/// A byte buffer with a read position, metadata, and perhaps an open write
/// session.
#[derive(Debug)]
pub struct MemorySource {
    pub data: Vec<u8>,
    pub pos: u64,
    pub stat: Stat,
    pub pending: Option<PendingWrite>,
}

/// What a memory source holds.
pub ghost struct MemView {
    pub data: Seq<u8>,
    pub pos: u64,
    pub stat: Stat,
    pub pending: Option<WriteView>,
}

impl View for MemorySource {
    type V = MemView;

    open spec fn view(&self) -> MemView {
        MemView {
            data: self.data@,
            pos: self.pos,
            stat: self.stat,
            pending: match self.pending {
                Some(w) => Some(w@),
                None => None,
            },
        }
    }
}

impl MemView {
    /// Positions lie within buffers, and buffers can exist.
    pub open spec fn wf(self) -> bool {
        &&& self.pos <= self.data.len() <= isize::MAX
        &&& self.pending matches Some(w) ==> w.out.len() <= isize::MAX && w.offset <= i64::MAX
    }

    /// The bytes that are still to be read.
    pub open spec fn rest(self) -> Seq<u8> {
        if self.pos < self.data.len() {
            self.data.skip(self.pos as int)
        } else {
            Seq::empty()
        }
    }
}

/// The room of a payload as a read buffer.
pub open spec fn room(data: DataView) -> nat {
    match data {
        DataView::Bytes(b) => b.len(),
        _ => 0,
    }
}

/// The number of bytes that a read of at most `len` bytes moves.
pub open spec fn read_count(m: MemView, data: DataView, len: u64) -> nat {
    let wanted = if room(data) < len { room(data) } else { len as nat };
    if m.rest().len() < wanted { m.rest().len() } else { wanted }
}

/// A buffer whose first bytes are replaced by `bytes`.
pub open spec fn filled(data: DataView, bytes: Seq<u8>) -> DataView {
    match data {
        DataView::Bytes(b) => DataView::Bytes(bytes + b.skip(bytes.len() as int)),
        _ => data,
    }
}

/// `out`, extended with zeros to at least `len` bytes.
pub open spec fn zero_extended(out: Seq<u8>, len: int) -> Seq<u8> {
    if out.len() < len {
        out + Seq::new((len - out.len()) as nat, |i: int| 0u8)
    } else {
        out
    }
}

/// `out` with `bytes` written at `offset`; a gap before `offset` is zero.
pub open spec fn overwritten(out: Seq<u8>, offset: int, bytes: Seq<u8>) -> Seq<u8> {
    let end = offset + bytes.len();
    let wide = zero_extended(out, end);
    wide.take(offset) + bytes + wide.skip(end)
}

/// The bytes that a WRITE payload offers: none if it holds fewer than `len`.
pub open spec fn offered(data: DataView, len: u64) -> Option<Seq<u8>> {
    match data {
        DataView::Bytes(b) => if b.len() >= len {
            Some(b.take(len as int))
        } else {
            None
        },
        _ => if len == 0 {
            Some(Seq::empty())
        } else {
            None
        },
    }
}

/// Outcome of a command: the two states and the payload behind it, and the
/// result.
pub ghost struct MemOutcome {
    pub node: NodeView,
    pub mem: MemView,
    pub data: DataView,
    pub result: i64,
}

/// The command fails with `code`; nothing else changes.
pub open spec fn mem_fail(n: NodeView, m: MemView, d: DataView, code: i32) -> MemOutcome {
    MemOutcome { node: with_error(n, code), mem: m, data: d, result: (-1) as i64 }
}

/// READ moves bytes from the read position into the buffer.
pub open spec fn mem_read(n: NodeView, m: MemView, d: DataView, len: u64) -> MemOutcome {
    let k = read_count(m, d, len);
    MemOutcome {
        node: NodeView { eof: n.eof || (k == 0 && m.pos >= m.data.len()), ..n },
        mem: MemView { pos: (m.pos + k) as u64, ..m },
        data: filled(d, m.rest().take(k as int)),
        result: k as i64,
    }
}

/// SEEK moves the read position, to the end at most.
pub open spec fn mem_seek(n: NodeView, m: MemView, d: DataView, len: u64) -> MemOutcome {
    match seek_args(d, len) {
        None => mem_fail(n, m, d, ZIP_ER_INVAL),
        Some(args) => match seek_target(args, m.pos, m.data.len() as u64) {
            None => mem_fail(n, m, d, ZIP_ER_INVAL),
            Some(target) => {
                let at_end = target >= m.data.len();
                MemOutcome {
                    node: NodeView { eof: at_end, ..n },
                    mem: MemView { pos: if at_end { m.data.len() as u64 } else { target }, ..m },
                    data: d,
                    result: 0,
                }
            },
        },
    }
}

/// STAT fills a stat record with what the source knows.
pub open spec fn mem_stat(n: NodeView, m: MemView, d: DataView, len: u64) -> MemOutcome {
    if d is Stat && len >= STAT_SIZE {
        MemOutcome { node: n, mem: m, data: DataView::Stat(source_stat(m.stat)), result: 0 }
    } else {
        mem_fail(n, m, d, ZIP_ER_INVAL)
    }
}

/// ERROR fills a pair of codes with the last error.
pub open spec fn mem_error(n: NodeView, m: MemView, d: DataView, len: u64) -> MemOutcome {
    if d is Error && len >= ERROR_PAIR_SIZE {
        MemOutcome {
            node: n,
            mem: m,
            data: DataView::Error(
                ErrorPair { zip_err: n.error.zip_err, sys_err: n.error.sys_err },
            ),
            result: 0,
        }
    } else {
        MemOutcome { node: n, mem: m, data: d, result: (-1) as i64 }
    }
}

/// BEGIN_WRITE_CLONING opens a session on a copy of the first `len` bytes.
pub open spec fn mem_clone(n: NodeView, m: MemView, d: DataView, len: u64) -> MemOutcome {
    if len > m.data.len() {
        mem_fail(n, m, d, ZIP_ER_INVAL)
    } else {
        MemOutcome {
            node: n,
            mem: MemView {
                pending: Some(WriteView { out: m.data.take(len as int), offset: len }),
                ..m
            },
            data: d,
            result: 0,
        }
    }
}

/// WRITE puts `len` bytes at the write position and moves it behind them. A
/// buffer that cannot exist is refused without an error.
pub open spec fn mem_write(n: NodeView, m: MemView, d: DataView, len: u64) -> MemOutcome {
    match (m.pending, offered(d, len)) {
        (Some(w), Some(bytes)) => if w.offset + len > isize::MAX {
            MemOutcome { node: n, mem: m, data: d, result: (-1) as i64 }
        } else {
            MemOutcome {
                node: n,
                mem: MemView {
                    pending: Some(
                        WriteView {
                            out: overwritten(w.out, w.offset as int, bytes),
                            offset: (w.offset + len) as u64,
                        },
                    ),
                    ..m
                },
                data: d,
                result: len as i64,
            }
        },
        _ => mem_fail(n, m, d, ZIP_ER_INVAL),
    }
}

/// SEEK_WRITE moves the write position, which may lie behind the end.
pub open spec fn mem_seek_write(n: NodeView, m: MemView, d: DataView, len: u64) -> MemOutcome {
    match (m.pending, seek_args(d, len)) {
        (Some(w), Some(args)) => match seek_target(args, w.offset, w.out.len() as u64) {
            None => mem_fail(n, m, d, ZIP_ER_INVAL),
            Some(target) => MemOutcome {
                node: n,
                mem: MemView { pending: Some(WriteView { offset: target, ..w }), ..m },
                data: d,
                result: 0,
            },
        },
        _ => mem_fail(n, m, d, ZIP_ER_INVAL),
    }
}

/// COMMIT_WRITE makes what was written the content, read from the start.
pub open spec fn mem_commit(n: NodeView, m: MemView, d: DataView) -> MemOutcome {
    match m.pending {
        None => mem_fail(n, m, d, ZIP_ER_INVAL),
        Some(w) => MemOutcome {
            node: n,
            mem: MemView {
                data: w.out,
                pos: 0,
                stat: Stat { size: Some(w.out.len() as u64), ..m.stat },
                pending: None,
            },
            data: d,
            result: 0,
        },
    }
}

/// What a command does to a memory source.
pub open spec fn mem_step(n: NodeView, m: MemView, cmd: i32, d: DataView, len: u64) -> MemOutcome {
    if cmd == ZIP_SOURCE_OPEN {
        MemOutcome {
            node: NodeView { opened: true, eof: false, ..n },
            mem: MemView { pos: 0, ..m },
            data: d,
            result: 0,
        }
    } else if cmd == ZIP_SOURCE_CLOSE || cmd == ZIP_SOURCE_FREE {
        MemOutcome { node: n, mem: m, data: d, result: 0 }
    } else if cmd == ZIP_SOURCE_READ {
        mem_read(n, m, d, len)
    } else if cmd == ZIP_SOURCE_SEEK {
        mem_seek(n, m, d, len)
    } else if cmd == ZIP_SOURCE_TELL {
        MemOutcome { node: n, mem: m, data: d, result: m.pos as i64 }
    } else if cmd == ZIP_SOURCE_STAT {
        mem_stat(n, m, d, len)
    } else if cmd == ZIP_SOURCE_ERROR {
        mem_error(n, m, d, len)
    } else if cmd == ZIP_SOURCE_SUPPORTS {
        MemOutcome { node: n, mem: m, data: d, result: n.supports }
    } else if cmd == ZIP_SOURCE_AT_EOF {
        MemOutcome {
            node: n,
            mem: m,
            data: d,
            result: if m.pos >= m.data.len() { 1 } else { 0 },
        }
    } else if cmd == ZIP_SOURCE_BEGIN_WRITE {
        MemOutcome {
            node: n,
            mem: MemView { pending: Some(WriteView { out: Seq::empty(), offset: 0 }), ..m },
            data: d,
            result: 0,
        }
    } else if cmd == ZIP_SOURCE_BEGIN_WRITE_CLONING {
        mem_clone(n, m, d, len)
    } else if cmd == ZIP_SOURCE_WRITE {
        mem_write(n, m, d, len)
    } else if cmd == ZIP_SOURCE_SEEK_WRITE {
        mem_seek_write(n, m, d, len)
    } else if cmd == ZIP_SOURCE_TELL_WRITE {
        match m.pending {
            Some(w) => MemOutcome { node: n, mem: m, data: d, result: w.offset as i64 },
            None => mem_fail(n, m, d, ZIP_ER_INVAL),
        }
    } else if cmd == ZIP_SOURCE_COMMIT_WRITE {
        mem_commit(n, m, d)
    } else if cmd == ZIP_SOURCE_ROLLBACK_WRITE {
        MemOutcome { node: n, mem: MemView { pending: None, ..m }, data: d, result: 0 }
    } else {
        mem_fail(n, m, d, ZIP_ER_OPNOTSUPP)
    }
}

/// Replaces `n` bytes of `dst` from `at` on by the bytes of `src` from `from` on.
pub fn copy_into(dst: &mut Vec<u8>, at: usize, src: &Vec<u8>, from: usize, n: usize)
    requires
        at + n <= old(dst)@.len(),
        from + n <= src@.len(),
    ensures
        final(dst)@ == old(dst)@.take(at as int) + src@.subrange(from as int, from + n) + old(
            dst,
        )@.skip(at + n),
{
    let ghost before = dst@;
    let mut i: usize = 0;
    assert(dst.len() <= usize::MAX && src.len() <= usize::MAX);
    assert(dst@ =~= before.take(at as int) + src@.subrange(from as int, from as int)
        + before.skip(at as int));
    while i < n
        invariant
            i <= n,
            at + n <= before.len() <= usize::MAX,
            from + n <= src@.len() <= usize::MAX,
            dst@.len() == before.len(),
            dst@ == before.take(at as int) + src@.subrange(from as int, from + i) + before.skip(
                at + i,
            ),
        decreases n - i,
    {
        dst[at + i] = src[from + i];
        i += 1;
        assert(dst@ =~= before.take(at as int) + src@.subrange(from as int, from + i)
            + before.skip(at + i));
    }
}

impl MemorySource {
    /// A memory source over `data`, to be read from the start.
    pub fn new(data: Vec<u8>, stat: Stat) -> (r: MemorySource)
        ensures
            r@ == (MemView { data: data@, pos: 0, stat, pending: None }),
    {
        MemorySource { data, pos: 0, stat, pending: None }
    }

    fn read(&mut self, node: &mut SourceNode, data: &mut CommandData, len: u64) -> (r: i64)
        ensures
            (MemOutcome {
                node: final(node)@,
                mem: final(self)@,
                data: final(data)@,
                result: r,
            }) == mem_read(old(node)@, old(self)@, old(data)@, len),
    {
        let size: u64 = self.data.len() as u64;
        let remaining: u64 = if self.pos < size { size - self.pos } else { 0 };
        let mut n: usize = 0;
        if let CommandData::Bytes(buf) = data {
            let wanted: u64 = if (buf.len() as u64) < len { buf.len() as u64 } else { len };
            n = if remaining < wanted { remaining as usize } else { wanted as usize };
            if n > 0 {
                copy_into(buf, 0, &self.data, self.pos as usize, n);
            }
        }
        proof {
            let k = read_count(old(self)@, old(data)@, len);
            assert(n == k);
            if let DataView::Bytes(b) = old(data)@ {
                let moved = old(self)@.rest().take(k as int);
                if n > 0 {
                    assert(moved =~= old(self)@.data.subrange(
                        old(self)@.pos as int,
                        old(self)@.pos + n,
                    ));
                }
                assert(data@ is Bytes);
                assert(data@->Bytes_0 =~= moved + b.skip(k as int));
            }
        }
        self.pos = self.pos + n as u64;
        if n == 0 && self.pos >= size {
            node.eof = true;
        }
        n as i64
    }

    fn write(&mut self, node: &mut SourceNode, data: &CommandData, len: u64) -> (r: i64)
        ensures
            (MemOutcome { node: final(node)@, mem: final(self)@, data: data@, result: r })
                == mem_write(old(node)@, old(self)@, data@, len),
    {
        match &mut self.pending {
            None => {
                node.set_err(ZIP_ER_INVAL, 0);
                return -1;
            },
            Some(pw) => {
                let fits = match data {
                    CommandData::Bytes(b) => b.len() as u64 >= len,
                    _ => len == 0,
                };
                if !fits {
                    node.set_err(ZIP_ER_INVAL, 0);
                    return -1;
                }
                let end: u64 = pw.offset.saturating_add(len);
                if end > isize::MAX as u64 {
                    return -1;
                }
                let ghost before = pw.out@;
                let ghost bytes = offered(data@, len)->0;
                if end > pw.out.len() as u64 {
                    pw.out.resize(end as usize, 0);
                    assert(pw.out@ =~= zero_extended(before, end as int));
                }
                let ghost wide = pw.out@;
                if len > 0 {
                    if let CommandData::Bytes(src) = data {
                        copy_into(&mut pw.out, pw.offset as usize, src, 0, len as usize);
                        assert(src@.subrange(0, len as int) =~= bytes);
                    }
                }
                assert(pw.out@ =~= overwritten(before, pw.offset as int, bytes));
                pw.offset = end;
                len as i64
            },
        }
    }

    fn seek_write(&mut self, node: &mut SourceNode, data: &CommandData, len: u64) -> (r: i64)
        ensures
            (MemOutcome { node: final(node)@, mem: final(self)@, data: data@, result: r })
                == mem_seek_write(old(node)@, old(self)@, data@, len),
    {
        match &mut self.pending {
            None => {
                node.set_err(ZIP_ER_INVAL, 0);
                -1
            },
            Some(pw) => {
                if let Some(args) = zip_source_args_seek(data, len) {
                    if let Some(target) = compute_target(args, pw.offset, pw.out.len() as u64) {
                        pw.offset = target;
                        return 0;
                    }
                }
                node.set_err(ZIP_ER_INVAL, 0);
                -1
            },
        }
    }

    /// Runs a command.
    pub fn dispatch(
        &mut self,
        node: &mut SourceNode,
        cmd: i32,
        data: &mut CommandData,
        len: u64,
    ) -> (r: i64)
        ensures
            (MemOutcome {
                node: final(node)@,
                mem: final(self)@,
                data: final(data)@,
                result: r,
            }) == mem_step(old(node)@, old(self)@, cmd, old(data)@, len),
    {
        match cmd {
            ZIP_SOURCE_OPEN => {
                self.pos = 0;
                node.opened = true;
                node.eof = false;
                0
            },
            ZIP_SOURCE_CLOSE => 0,
            ZIP_SOURCE_READ => self.read(node, data, len),
            ZIP_SOURCE_SEEK => {
                let size: u64 = self.data.len() as u64;
                if let Some(args) = zip_source_args_seek(data, len) {
                    if let Some(target) = compute_target(args, self.pos, size) {
                        self.pos = if target < size { target } else { size };
                        node.eof = self.pos >= size;
                        return 0;
                    }
                }
                node.set_err(ZIP_ER_INVAL, 0);
                -1
            },
            ZIP_SOURCE_TELL => self.pos as i64,
            ZIP_SOURCE_STAT => {
                if len >= STAT_SIZE {
                    if let CommandData::Stat(sb) = data {
                        fill_zip_stat(sb, &self.stat);
                        return 0;
                    }
                }
                node.set_err(ZIP_ER_INVAL, 0);
                -1
            },
            ZIP_SOURCE_ERROR => {
                if len >= ERROR_PAIR_SIZE {
                    if let CommandData::Error(out) = data {
                        out.zip_err = node.error.zip_err;
                        out.sys_err = node.error.sys_err;
                        return 0;
                    }
                }
                -1
            },
            ZIP_SOURCE_SUPPORTS => node.supports,
            ZIP_SOURCE_AT_EOF => if self.pos >= self.data.len() as u64 {
                1
            } else {
                0
            },
            ZIP_SOURCE_BEGIN_WRITE => {
                self.pending = Some(PendingWrite { out: Vec::new(), offset: 0 });
                0
            },
            ZIP_SOURCE_BEGIN_WRITE_CLONING => {
                if len > self.data.len() as u64 {
                    node.set_err(ZIP_ER_INVAL, 0);
                    return -1;
                }
                let mut out = copy_bytes(&self.data);
                out.truncate(len as usize);
                assert(out@ =~= self.data@.take(len as int));
                self.pending = Some(PendingWrite { out, offset: len });
                0
            },
            ZIP_SOURCE_WRITE => self.write(node, data, len),
            ZIP_SOURCE_SEEK_WRITE => self.seek_write(node, data, len),
            ZIP_SOURCE_TELL_WRITE => match &self.pending {
                Some(pw) => pw.offset as i64,
                None => {
                    node.set_err(ZIP_ER_INVAL, 0);
                    -1
                },
            },
            ZIP_SOURCE_COMMIT_WRITE => match self.pending.take() {
                Some(pw) => {
                    self.data = pw.out;
                    self.pos = 0;
                    self.stat.size = Some(self.data.len() as u64);
                    0
                },
                None => {
                    node.set_err(ZIP_ER_INVAL, 0);
                    -1
                },
            },
            ZIP_SOURCE_ROLLBACK_WRITE => {
                self.pending = None;
                0
            },
            ZIP_SOURCE_FREE => 0,
            _ => {
                node.set_err(ZIP_ER_OPNOTSUPP, 0);
                -1
            },
        }
    }
}

} // verus!
