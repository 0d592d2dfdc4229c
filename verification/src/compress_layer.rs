//! The layer that compresses the source below it.
//!
//! The stream below is read when the layer is opened. Encoding it is left to
//! whoever drives the layer: `compress_layered_cb` hands the bytes out, and
//! `CompressCtx::opened` takes the encoded bytes back.

use crate::command::{bit, src_bit, CommandData, DataView};
use crate::consts::{
    ERROR_PAIR_SIZE, SRC_READABLE, STAT_SIZE, ZIP_CM_DEFLATE, ZIP_CM_STORE, ZIP_ER_INVAL,
    ZIP_SOURCE_CLOSE, ZIP_SOURCE_ERROR, ZIP_SOURCE_FREE, ZIP_SOURCE_GET_FILE_ATTRIBUTES,
    ZIP_SOURCE_OPEN, ZIP_SOURCE_READ, ZIP_SOURCE_STAT, ZIP_SOURCE_SUPPORTS,
    ZIP_SOURCE_SUPPORTS_REOPEN, ZIP_STAT_COMP_METHOD, ZIP_STAT_COMP_SIZE,
};
use crate::edit::was_read;
use crate::errors::ErrorPair;
use crate::memory::{copy_into, filled, room};
use crate::source::{
    forwards, pass_command, pass_step, remaining, step, LayeredCallback, Outcome, ReadFailure,
    SourceCallback, ZipSource,
};
use crate::stat::StatView;
use vstd::prelude::*;

verus! {

/// The compression level that the layer asks for.
pub const COMPRESSION_LEVEL: u32 = 6;

/// The state of a compressing layer.
#[derive(Debug)]
pub struct CompressCtx {
    /// Compression method.
    pub method: i32,
    /// The encoded stream.
    pub data: Vec<u8>,
    /// Read position.
    pub pos: u64,
    /// Whether the stream below was read to its end.
    pub end_of_stream: bool,
    /// Size of the encoded stream.
    pub size: u64,
    /// Last error of the layer.
    pub err_zip: i32,
    /// System error that belongs to it.
    pub err_sys: i32,
}

/// What a compressing layer holds.
pub ghost struct CompressView {
    pub method: i32,
    pub data: Seq<u8>,
    pub pos: u64,
    pub end_of_stream: bool,
    pub size: u64,
    pub err_zip: i32,
    pub err_sys: i32,
}

impl View for CompressCtx {
    type V = CompressView;

    open spec fn view(&self) -> CompressView {
        CompressView {
            method: self.method,
            data: self.data@,
            pos: self.pos,
            end_of_stream: self.end_of_stream,
            size: self.size,
            err_zip: self.err_zip,
            err_sys: self.err_sys,
        }
    }
}

impl CompressView {
    /// The encoded bytes that are still to be read.
    pub open spec fn rest(self) -> Seq<u8> {
        if self.pos < self.data.len() {
            self.data.skip(self.pos as int)
        } else {
            Seq::empty()
        }
    }
}

/// What a command on a compressing layer comes to.
#[derive(Debug)]
pub enum CompressAnswer {
    /// The command is done, with this result.
    Done(i64),
    /// The stream below, to be encoded by the layer's method at
    /// `COMPRESSION_LEVEL` and handed to `CompressCtx::opened`.
    Encode(Vec<u8>),
}

impl CompressCtx {
    /// A layer that has not been opened.
    pub fn new(method: i32) -> (r: CompressCtx)
        ensures
            r@ == (CompressView {
                method,
                data: Seq::empty(),
                pos: 0,
                end_of_stream: false,
                size: 0,
                err_zip: 0,
                err_sys: 0,
            }),
    {
        CompressCtx {
            method,
            data: Vec::new(),
            pos: 0,
            end_of_stream: false,
            size: 0,
            err_zip: 0,
            err_sys: 0,
        }
    }

    /// Completes the opening of the layer with the encoded stream. A stream
    /// that could not be encoded is passed on as it is. Gives the result of
    /// the OPEN command.
    pub fn opened(&mut self, raw: Vec<u8>, encoded: Option<Vec<u8>>) -> (r: i64)
        ensures
            r == 0,
            final(self)@ == ({
                let out = match encoded {
                    Some(v) => v@,
                    None => raw@,
                };
                CompressView {
                    data: out,
                    size: out.len() as u64,
                    end_of_stream: true,
                    ..old(self)@
                }
            }),
    {
        self.data = match encoded {
            Some(v) => v,
            None => raw,
        };
        self.size = self.data.len() as u64;
        self.end_of_stream = true;
        0
    }

    /// The number of bytes that a read moves.
    pub open spec fn count(c: CompressView, d: DataView, len: u64) -> nat {
        let wanted = if room(d) < len { room(d) } else { len as nat };
        if c.rest().len() < wanted { c.rest().len() } else { wanted }
    }

    fn read(&mut self, data: &mut CommandData, len: u64) -> (r: i64)
        ensures
            ({
                let k = CompressCtx::count(old(self)@, old(data)@, len);
                &&& r == k as i64
                &&& final(self)@ == (CompressView { pos: (old(self)@.pos + k) as u64, ..old(self)@
                })
                &&& final(data)@ == filled(old(data)@, old(self)@.rest().take(k as int))
            }),
    {
        let size: u64 = self.data.len() as u64;
        let left: u64 = if self.pos < size { size - self.pos } else { 0 };
        let mut n: usize = 0;
        if let CommandData::Bytes(buf) = data {
            let wanted: u64 = if (buf.len() as u64) < len { buf.len() as u64 } else { len };
            n = if left < wanted { left as usize } else { wanted as usize };
            if n > 0 {
                copy_into(buf, 0, &self.data, self.pos as usize, n);
            }
        }
        proof {
            let k = CompressCtx::count(old(self)@, old(data)@, len);
            assert(n == k);
            if let DataView::Bytes(b) = old(data)@ {
                let moved = old(self)@.rest().take(k as int);
                if n > 0 {
                    assert(moved =~= old(self)@.data.subrange(
                        old(self)@.pos as int,
                        old(self)@.pos + n,
                    ));
                }
                assert(data@ is Bytes);
                assert(data@->Bytes_0 =~= moved + b.skip(k as int));
            }
        }
        self.pos = self.pos + n as u64;
        n as i64
    }
}

/// A stat record with what a compressing layer knows.
pub open spec fn compress_stat(st: StatView, c: CompressView) -> StatView {
    StatView {
        comp_method: if c.method == ZIP_CM_STORE { ZIP_CM_STORE as u16 } else {
            ZIP_CM_DEFLATE as u16
        },
        comp_size: c.size,
        valid: st.valid | (ZIP_STAT_COMP_SIZE | ZIP_STAT_COMP_METHOD),
        ..st
    }
}

/// Whether a compressing layer leaves a command to the source below.
pub open spec fn compress_passes(cmd: i32) -> bool {
    cmd != ZIP_SOURCE_OPEN && cmd != ZIP_SOURCE_READ && cmd != ZIP_SOURCE_CLOSE && cmd
        != ZIP_SOURCE_STAT && cmd != ZIP_SOURCE_ERROR && cmd != ZIP_SOURCE_FREE && cmd
        != ZIP_SOURCE_SUPPORTS
}

/// What a compressing layer answers to a command that it handles itself, OPEN
/// excepted: the layer and the payload behind it, and the result.
pub open spec fn compress_step(c: CompressView, cmd: i32, d: DataView, len: u64) -> (
    CompressView,
    DataView,
    i64,
) {
    if cmd == ZIP_SOURCE_READ {
        let k = CompressCtx::count(c, d, len);
        (
            CompressView { pos: (c.pos + k) as u64, ..c },
            filled(d, c.rest().take(k as int)),
            k as i64,
        )
    } else if cmd == ZIP_SOURCE_STAT {
        match d {
            DataView::Stat(st) if len >= STAT_SIZE => (
                c,
                DataView::Stat(compress_stat(st, c)),
                0i64,
            ),
            _ => (CompressView { err_zip: ZIP_ER_INVAL, ..c }, d, (-1) as i64),
        }
    } else if cmd == ZIP_SOURCE_ERROR {
        if d is Error && len >= ERROR_PAIR_SIZE {
            (c, DataView::Error(ErrorPair { zip_err: c.err_zip, sys_err: c.err_sys }), 0i64)
        } else {
            (c, d, 0i64)
        }
    } else if cmd == ZIP_SOURCE_SUPPORTS {
        (
            c,
            d,
            SRC_READABLE | bit(ZIP_SOURCE_GET_FILE_ATTRIBUTES) | bit(ZIP_SOURCE_SUPPORTS_REOPEN),
        )
    } else {
        (c, d, 0i64)
    }
}

/// Runs a command on a compressing layer over `lower`. OPEN reads the stream
/// below and asks for it to be encoded; it fails where that stream cannot be
/// read.
pub fn compress_layered_cb<F: SourceCallback, L: LayeredCallback<F>>(
    lower: &mut ZipSource<F, L>,
    ctx: &mut CompressCtx,
    data: &mut CommandData,
    len: u64,
    cmd: i32,
) -> (r: CompressAnswer)
    ensures
        cmd == ZIP_SOURCE_OPEN ==> {
            &&& final(ctx)@ == (CompressView { pos: 0, end_of_stream: false, ..old(ctx)@ })
            &&& *final(data) == *old(data)
            &&& r == CompressAnswer::Done((-1) as i64) || r is Encode
            &&& old(lower)@.closed() ==> {
                let stream = remaining(
                    step(old(lower)@, ZIP_SOURCE_OPEN, DataView::Null, 0).source,
                );
                &&& r is Encode <==> stream.len() <= isize::MAX
                &&& r matches CompressAnswer::Encode(raw) ==> raw@ == stream
                &&& was_read(old(lower)@, final(lower)@)
            }
        },
        cmd == ZIP_SOURCE_OPEN ==> exists|
            p: &mut ZipSource<F, L>,
            read: Result<Vec<u8>, ReadFailure>,
        |
            {
                &&& #[trigger] call_ensures(ZipSource::<F, L>::read_all, (p,), read)
                &&& *p == *old(lower)
                &&& *final(p) == *final(lower)
                &&& r == (match read {
                    Ok(raw) => CompressAnswer::Encode(raw),
                    Err(_) => CompressAnswer::Done((-1) as i64),
                })
            },
        cmd != ZIP_SOURCE_OPEN && !compress_passes(cmd) ==> {
            let (c, d, result) = compress_step(old(ctx)@, cmd, old(data)@, len);
            &&& final(ctx)@ == c
            &&& final(data)@ == d
            &&& r == CompressAnswer::Done(result)
            &&& *final(lower) == *old(lower)
        },
        compress_passes(cmd) ==> {
            &&& *final(ctx) == *old(ctx)
            &&& r is Done
            &&& old(lower)@.closed() || !forwards(cmd) ==> (Outcome {
                source: final(lower)@,
                data: final(data)@,
                result: r->Done_0,
            }) == pass_step(old(lower)@, old(data)@, len, cmd)
            &&& forwards(cmd) ==> exists|p: &mut ZipSource<F, L>, d: &mut CommandData|
                {
                    &&& #[trigger] call_ensures(
                        ZipSource::<F, L>::dispatch,
                        (p, cmd, d, len),
                        r->Done_0,
                    )
                    &&& *p == *old(lower)
                    &&& *d == *old(data)
                    &&& *final(p) == *final(lower)
                    &&& *final(d) == *final(data)
                }
        },
{
    match cmd {
        ZIP_SOURCE_OPEN => {
            ctx.pos = 0;
            ctx.end_of_stream = false;
            match lower.read_all() {
                Ok(raw) => CompressAnswer::Encode(raw),
                Err(_) => CompressAnswer::Done(-1),
            }
        },
        ZIP_SOURCE_READ => CompressAnswer::Done(ctx.read(data, len)),
        ZIP_SOURCE_CLOSE => CompressAnswer::Done(0),
        ZIP_SOURCE_STAT => {
            if len >= STAT_SIZE {
                if let CommandData::Stat(st) = data {
                    st.comp_method = if ctx.method == ZIP_CM_STORE {
                        ZIP_CM_STORE as u16
                    } else {
                        ZIP_CM_DEFLATE as u16
                    };
                    st.comp_size = ctx.size;
                    st.valid = st.valid | (ZIP_STAT_COMP_SIZE | ZIP_STAT_COMP_METHOD);
                    return CompressAnswer::Done(0);
                }
            }
            ctx.err_zip = ZIP_ER_INVAL;
            CompressAnswer::Done(-1)
        },
        ZIP_SOURCE_ERROR => {
            if len >= ERROR_PAIR_SIZE {
                if let CommandData::Error(out) = data {
                    out.zip_err = ctx.err_zip;
                    out.sys_err = ctx.err_sys;
                }
            }
            CompressAnswer::Done(0)
        },
        ZIP_SOURCE_FREE => CompressAnswer::Done(0),
        ZIP_SOURCE_SUPPORTS => CompressAnswer::Done(
            SRC_READABLE | src_bit(ZIP_SOURCE_GET_FILE_ATTRIBUTES) | src_bit(
                ZIP_SOURCE_SUPPORTS_REOPEN,
            ),
        ),
        _ => CompressAnswer::Done(pass_command(lower, data, len, cmd)),
    }
}

} // verus!
