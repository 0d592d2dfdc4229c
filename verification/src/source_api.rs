//! The `zip_source_*` functions: commands on a source handle, write sessions,
//! reference counts, and layers.
//!
//! A handle is an optional reference; a missing one is the null handle.

use crate::command::{CommandData, DataView, ZipSourceArgsSeek};
use crate::consts::{
    FILE_ATTRIBUTES_SIZE, SEEK_ARGS_SIZE, SRC_REMOVE, SRC_SEEK, STAT_SIZE, ZIP_ER_OPNOTSUPP,
    ZIP_ER_READ, ZIP_SOURCE_AT_EOF, ZIP_SOURCE_CLOSE, ZIP_SOURCE_FREE,
    ZIP_SOURCE_GET_FILE_ATTRIBUTES, ZIP_SOURCE_OPEN, ZIP_SOURCE_READ, ZIP_SOURCE_SEEK,
    ZIP_SOURCE_STAT, ZIP_SOURCE_SUPPORTS, ZIP_SOURCE_SUPPORTS_REOPEN, ZIP_SOURCE_TELL,
};
use crate::errors::{err_msg, err_str, error_of, zip_error, ErrorView};
use crate::memory::{with_error, NodeView, SourceNode};
use crate::source::{
    forwards, lemma_step_form, lemma_tell, noted, pass_command, pass_step, read_step, step, told,
    BackendView, LayeredCallback, Outcome, SourceBackend, SourceCallback, SourceView, ZipSource,
};
use crate::stat::{zip_file_attributes, zip_stat};
use vstd::prelude::*;

verus! {

/// An outcome that is reported as 0 or -1, with `code` recorded for the latter.
pub open spec fn settled<F, L>(o: Outcome<F, L>, code: i32) -> Outcome<F, L> {
    if o.result < 0 {
        Outcome { source: o.source.failed(code), data: o.data, result: (-1) as i64 }
    } else {
        Outcome { result: 0, ..o }
    }
}

/// An outcome that is reported as 0 or -1.
pub open spec fn reported(answer: i64) -> int {
    if answer < 0 { -1 } else { 0 }
}

/// The state of a source behind a command that is reported as `r`, with `code`
/// recorded where that is -1.
pub open spec fn settled_node(n: NodeView, r: i32, code: i32) -> NodeView {
    if r == -1 {
        with_error(n, code)
    } else {
        n
    }
}

impl SourceNode {
    /// Reports an answer as 0 or -1, and records `code` for the latter.
    pub fn settle(&mut self, answer: i64, code: i32) -> (r: i32)
        ensures
            r == reported(answer),
            final(self)@ == (if answer < 0 {
                NodeView { error: error_of(code, 0), ..old(self)@ }
            } else {
                old(self)@
            }),
    {
        if answer < 0 {
            self.set_err(code, 0);
            -1
        } else {
            0
        }
    }
}

/// Opens a source for reading. Gives 0, or -1 with `ZIP_ER_OPNOTSUPP` recorded.
pub fn zip_source_open<F: SourceCallback, L: LayeredCallback<F>>(
    src: Option<&mut ZipSource<F, L>>,
) -> (r: i32)
    ensures
        src is None ==> r == -1,
        src matches Some(s) ==> {
            &&& s@.closed() ==> {
                let o = settled(step(s@, ZIP_SOURCE_OPEN, DataView::Null, 0), ZIP_ER_OPNOTSUPP);
                final(s)@ == o.source && r == o.result
            }
            &&& exists|p: &mut ZipSource<F, L>, d: &mut CommandData, a: i64|
                {
                    &&& #[trigger] call_ensures(
                        ZipSource::<F, L>::dispatch,
                        (p, ZIP_SOURCE_OPEN, d, 0),
                        a,
                    )
                    &&& *p == *s
                    &&& *d == CommandData::Null
                    &&& r == reported(a)
                    &&& final(s).backend == final(p).backend
                    &&& final(s).node@ == settled_node(final(p).node@, r, ZIP_ER_OPNOTSUPP)
                }
            &&& r == 0 || r == -1
            &&& r == -1 ==> final(s)@.node.error == error_of(ZIP_ER_OPNOTSUPP, 0)
        },
{
    match src {
        None => -1,
        Some(s) => {
            let mut nothing = CommandData::Null;
            let r: i64 = s.dispatch(ZIP_SOURCE_OPEN, &mut nothing, 0);
            s.node.settle(r, ZIP_ER_OPNOTSUPP)
        },
    }
}

/// Ends reading. Gives 0, or -1 with `ZIP_ER_OPNOTSUPP` recorded.
pub fn zip_source_close<F: SourceCallback, L: LayeredCallback<F>>(
    src: Option<&mut ZipSource<F, L>>,
) -> (r: i32)
    ensures
        src is None ==> r == -1,
        src matches Some(s) ==> {
            &&& s@.closed() ==> {
                let o = settled(step(s@, ZIP_SOURCE_CLOSE, DataView::Null, 0), ZIP_ER_OPNOTSUPP);
                final(s)@ == o.source && r == o.result
            }
            &&& exists|p: &mut ZipSource<F, L>, d: &mut CommandData, a: i64|
                {
                    &&& #[trigger] call_ensures(
                        ZipSource::<F, L>::dispatch,
                        (p, ZIP_SOURCE_CLOSE, d, 0),
                        a,
                    )
                    &&& *p == *s
                    &&& *d == CommandData::Null
                    &&& r == reported(a)
                    &&& final(s).backend == final(p).backend
                    &&& final(s).node@ == settled_node(final(p).node@, r, ZIP_ER_OPNOTSUPP)
                }
            &&& r == 0 || r == -1
            &&& r == -1 ==> final(s)@.node.error == error_of(ZIP_ER_OPNOTSUPP, 0)
        },
{
    match src {
        None => -1,
        Some(s) => {
            let mut nothing = CommandData::Null;
            let r: i64 = s.dispatch(ZIP_SOURCE_CLOSE, &mut nothing, 0);
            s.node.settle(r, ZIP_ER_OPNOTSUPP)
        },
    }
}

/// Reads up to `len` bytes into `buf`. Gives the number of bytes, 0 at the
/// end, or a negative number with `ZIP_ER_READ` recorded.
pub fn zip_source_read<F: SourceCallback, L: LayeredCallback<F>>(
    src: Option<&mut ZipSource<F, L>>,
    buf: &mut Vec<u8>,
    len: u64,
) -> (r: i64)
    ensures
        src is None ==> r == -1 && final(buf)@ == old(buf)@,
        src matches Some(s) ==> {
            &&& s@.closed() ==> {
                let o = read_step(s@, DataView::Bytes(old(buf)@), len);
                &&& final(s)@ == o.source
                &&& r == o.result
                &&& o.data == DataView::Bytes(final(buf)@)
            }
            &&& exists|p: &mut ZipSource<F, L>, d: &mut CommandData, a: i64|
                {
                    &&& #[trigger] call_ensures(
                        ZipSource::<F, L>::dispatch,
                        (p, ZIP_SOURCE_READ, d, len),
                        a,
                    )
                    &&& *p == *s
                    &&& d@ == DataView::Bytes(old(buf)@)
                    &&& r == a
                    &&& final(s).backend == final(p).backend
                    &&& final(s).node@ == (if r < 0 {
                        with_error(final(p).node@, ZIP_ER_READ)
                    } else {
                        final(p).node@
                    })
                    &&& final(buf)@ == (match final(d)@ {
                        DataView::Bytes(b) => b,
                        _ => Seq::empty(),
                    })
                }
            &&& r < 0 ==> final(s)@.node.error == error_of(ZIP_ER_READ, 0)
        },
{
    match src {
        None => -1,
        Some(s) => {
            proof {
                if s@.closed() {
                    lemma_step_form(s@, ZIP_SOURCE_READ, DataView::Bytes(buf@), len);
                }
            }
            let mut held: Vec<u8> = Vec::new();
            core::mem::swap(buf, &mut held);
            let mut data = CommandData::Bytes(held);
            let r: i64 = s.dispatch(ZIP_SOURCE_READ, &mut data, len);
            if r < 0 {
                s.set_err(ZIP_ER_READ, 0);
            }
            if let CommandData::Bytes(b) = data {
                *buf = b;
            }
            r
        },
    }
}

/// Moves the read position. Gives 0 or -1.
pub fn zip_source_seek<F: SourceCallback, L: LayeredCallback<F>>(
    src: Option<&mut ZipSource<F, L>>,
    offset: i64,
    whence: i32,
) -> (r: i32)
    ensures
        src is None ==> r == -1,
        src matches Some(s) ==> {
            let args = ZipSourceArgsSeek { offset, whence };
            &&& s@.closed() ==> {
                let o = step(s@, ZIP_SOURCE_SEEK, DataView::Seek(args), SEEK_ARGS_SIZE);
                final(s)@ == o.source && r == reported(o.result)
            }
            &&& exists|p: &mut ZipSource<F, L>, d: &mut CommandData, a: i64|
                {
                    &&& #[trigger] call_ensures(
                        ZipSource::<F, L>::dispatch,
                        (p, ZIP_SOURCE_SEEK, d, SEEK_ARGS_SIZE),
                        a,
                    )
                    &&& *p == *s
                    &&& *d == CommandData::Seek(args)
                    &&& r == reported(a)
                    &&& *final(s) == *final(p)
                }
            &&& r == 0 || r == -1
        },
{
    match src {
        None => -1,
        Some(s) => {
            let args = ZipSourceArgsSeek { offset, whence };
            let mut data = CommandData::Seek(args);
            let a: i64 = s.dispatch(ZIP_SOURCE_SEEK, &mut data, SEEK_ARGS_SIZE);
            if a < 0 {
                -1
            } else {
                0
            }
        },
    }
}

/// The read position, or a negative number.
pub fn zip_source_tell<F: SourceCallback, L: LayeredCallback<F>>(
    src: Option<&mut ZipSource<F, L>>,
) -> (r: i64)
    ensures
        src is None ==> r == -1,
        src matches Some(s) ==> {
            &&& s@.closed() ==> final(s)@ == s@ && r == told(s@)
            &&& exists|p: &mut ZipSource<F, L>, d: &mut CommandData, a: i64|
                {
                    &&& #[trigger] call_ensures(
                        ZipSource::<F, L>::dispatch,
                        (p, ZIP_SOURCE_TELL, d, 0),
                        a,
                    )
                    &&& *p == *s
                    &&& *d == CommandData::Null
                    &&& r == a
                    &&& *final(s) == *final(p)
                }
        },
{
    match src {
        None => -1,
        Some(s) => {
            proof {
                if s@.closed() {
                    lemma_tell(s@, DataView::Null, 0);
                }
            }
            let mut nothing = CommandData::Null;
            s.dispatch(ZIP_SOURCE_TELL, &mut nothing, 0)
        },
    }
}

/// The payload of STAT for an optional stat record.
pub open spec fn stat_payload(sb: Option<&mut zip_stat>) -> DataView {
    match sb {
        Some(b) => DataView::Stat(b@),
        None => DataView::Null,
    }
}

/// Fills a stat record with what the source knows. Gives 0 or -1.
pub fn zip_source_stat<F: SourceCallback, L: LayeredCallback<F>>(
    src: Option<&mut ZipSource<F, L>>,
    sb: Option<&mut zip_stat>,
) -> (r: i32)
    ensures
        src is None ==> r == -1,
        src is None ==> (sb matches Some(b) ==> final(b)@ == b@),
        src matches Some(s) ==> {
            &&& s@.closed() ==> {
                let o = step(s@, ZIP_SOURCE_STAT, stat_payload(sb), STAT_SIZE);
                &&& final(s)@ == o.source
                &&& r == reported(o.result)
                &&& sb matches Some(b) ==> o.data == DataView::Stat(final(b)@)
            }
            &&& exists|p: &mut ZipSource<F, L>, d: &mut CommandData, a: i64|
                {
                    &&& #[trigger] call_ensures(
                        ZipSource::<F, L>::dispatch,
                        (p, ZIP_SOURCE_STAT, d, STAT_SIZE),
                        a,
                    )
                    &&& *p == *s
                    &&& d@ == stat_payload(sb)
                    &&& r == reported(a)
                    &&& *final(s) == *final(p)
                    &&& sb matches Some(b) ==> final(d)@ is Stat ==> final(d)@ == DataView::Stat(final(b)@)
                }
            &&& r == 0 || r == -1
        },
{
    match src {
        None => -1,
        Some(s) => {
            proof {
                if s@.closed() {
                    lemma_step_form(s@, ZIP_SOURCE_STAT, stat_payload(sb), STAT_SIZE);
                }
            }
            let a: i64 = match sb {
                None => {
                    let mut nothing = CommandData::Null;
                    s.dispatch(ZIP_SOURCE_STAT, &mut nothing, STAT_SIZE)
                },
                Some(b) => {
                    let mut held = zip_stat::empty();
                    core::mem::swap(b, &mut held);
                    let mut data = CommandData::Stat(held);
                    let a: i64 = s.dispatch(ZIP_SOURCE_STAT, &mut data, STAT_SIZE);
                    if let CommandData::Stat(record) = data {
                        *b = record;
                    }
                    a
                },
            };
            if a < 0 {
                -1
            } else {
                0
            }
        },
    }
}

/// What AT_EOF is reported as: an answer is cut to 1; without an answer the
/// note of the last read counts.
pub open spec fn eof_report(answer: i64, noted: bool) -> int {
    if answer < 0 {
        if noted { 1 } else { 0 }
    } else if answer > 1 {
        1
    } else {
        answer as int
    }
}

/// 1 if the source is at its end, 0 if not, -1 without a source.
pub fn zip_source_at_eof<F: SourceCallback, L: LayeredCallback<F>>(
    src: Option<&mut ZipSource<F, L>>,
) -> (r: i32)
    ensures
        src is None ==> r == -1,
        src matches Some(s) ==> {
            &&& s@.closed() ==> {
                let o = step(s@, ZIP_SOURCE_AT_EOF, DataView::Null, 0);
                final(s)@ == o.source && r == eof_report(o.result, o.source.node.eof)
            }
            &&& exists|p: &mut ZipSource<F, L>, d: &mut CommandData, a: i64|
                {
                    &&& #[trigger] call_ensures(
                        ZipSource::<F, L>::dispatch,
                        (p, ZIP_SOURCE_AT_EOF, d, 0),
                        a,
                    )
                    &&& *p == *s
                    &&& *d == CommandData::Null
                    &&& r == eof_report(a, final(p).node.eof)
                    &&& *final(s) == *final(p)
                }
            &&& r == 0 || r == 1
        },
{
    match src {
        None => -1,
        Some(s) => {
            let mut nothing = CommandData::Null;
            let a: i64 = s.dispatch(ZIP_SOURCE_AT_EOF, &mut nothing, 0);
            if a < 0 {
                if s.node.eof {
                    1
                } else {
                    0
                }
            } else if a > 1 {
                1
            } else {
                a as i32
            }
        },
    }
}

/// The outcome of asking a source for its command mask: an answer is kept; for
/// want of one the mask known so far stands.
pub open spec fn supports_step<F, L>(s: SourceView<F, L>) -> Outcome<F, L> {
    let o = step(s, ZIP_SOURCE_SUPPORTS, DataView::Null, 0);
    if o.result < 0 {
        Outcome { result: o.source.node.supports, ..o }
    } else {
        Outcome {
            source: SourceView {
                node: NodeView { supports: o.result, ..o.source.node },
                ..o.source
            },
            ..o
        }
    }
}

impl<F: SourceCallback, L: LayeredCallback<F>> ZipSource<F, L> {
    /// Asks for the command mask and keeps the answer.
    pub fn query_supports(&mut self) -> (r: i64)
        ensures
            old(self)@.closed() ==> {
                let o = supports_step(old(self)@);
                final(self)@ == o.source && r == o.result
            },
            r == final(self).node.supports,
            exists|p: &mut ZipSource<F, L>, d: &mut CommandData, a: i64|
                {
                    &&& #[trigger] call_ensures(
                        ZipSource::<F, L>::dispatch,
                        (p, ZIP_SOURCE_SUPPORTS, d, 0),
                        a,
                    )
                    &&& *p == *old(self)
                    &&& *d == CommandData::Null
                    &&& r == (if a < 0 { final(p).node.supports } else { a })
                    &&& final(self).backend == final(p).backend
                    &&& final(self).node@ == (NodeView { supports: r, ..final(p).node@ })
                },
    {
        let mut nothing = CommandData::Null;
        let a: i64 = self.dispatch(ZIP_SOURCE_SUPPORTS, &mut nothing, 0);
        if a < 0 {
            return self.node.supports;
        }
        self.node.supports = a;
        a
    }
}

/// 1 if the source supports seeking, 0 if not, -1 without a source.
pub fn zip_source_is_seekable<F: SourceCallback, L: LayeredCallback<F>>(
    src: Option<&mut ZipSource<F, L>>,
) -> (r: i32)
    ensures
        src is None ==> r == -1,
        src matches Some(s) ==> {
            &&& s@.closed() ==> final(s)@ == supports_step(s@).source
            &&& exists|p: &mut ZipSource<F, L>, mask: i64|
                {
                    &&& #[trigger] call_ensures(ZipSource::<F, L>::query_supports, (p,), mask)
                    &&& *p == *s
                    &&& *final(s) == *final(p)
                }
            &&& r == (if final(s)@.node.supports & SRC_SEEK != 0 { 1int } else { 0 })
        },
{
    match src {
        None => -1,
        Some(s) => if s.query_supports() & SRC_SEEK != 0 {
            1
        } else {
            0
        },
    }
}

/// 1 if what the source stands for can be removed, 0 if not, -1 without a
/// source.
pub fn zip_source_is_deleted<F: SourceCallback, L: LayeredCallback<F>>(
    src: Option<&mut ZipSource<F, L>>,
) -> (r: i32)
    ensures
        src is None ==> r == -1,
        src matches Some(s) ==> {
            &&& s@.closed() ==> final(s)@ == supports_step(s@).source
            &&& exists|p: &mut ZipSource<F, L>, mask: i64|
                {
                    &&& #[trigger] call_ensures(ZipSource::<F, L>::query_supports, (p,), mask)
                    &&& *p == *s
                    &&& *final(s) == *final(p)
                }
            &&& r == (if final(s)@.node.supports & SRC_REMOVE != 0 { 1int } else { 0 })
        },
{
    match src {
        None => -1,
        Some(s) => if s.query_supports() & SRC_REMOVE != 0 {
            1
        } else {
            0
        },
    }
}

/// A source with one more holder.
pub open spec fn kept<F, L>(s: SourceView<F, L>) -> SourceView<F, L> {
    SourceView {
        node: NodeView { refcount: s.node.refcount.wrapping_add(1), ..s.node },
        ..s
    }
}

/// Adds a holder.
pub fn zip_source_keep<F, L>(src: Option<&mut ZipSource<F, L>>)
    ensures
        src matches Some(s) ==> final(s).backend == s.backend && final(s)@ == kept(s@),
{
    if let Some(s) = src {
        s.node.refcount = s.node.refcount.wrapping_add(1);
    }
}

/// What is left of a stack of sources when a holder of its top lets go: the
/// top, as long as it has another holder; else what is left below it.
pub open spec fn released<F, L>(s: SourceView<F, L>) -> Option<SourceView<F, L>>
    decreases s,
{
    if s.node.refcount > 1 {
        Some(
            SourceView {
                node: NodeView { refcount: (s.node.refcount - 1) as i32, ..s.node },
                ..s
            },
        )
    } else {
        match s.backend {
            BackendView::Layered { lower, layer: _ } => released(*lower),
            _ => None,
        }
    }
}

/// Whether a source, or none, is what is left of a stack of sources.
pub open spec fn leaves<F, L>(r: Option<Box<ZipSource<F, L>>>, s: Option<SourceView<F, L>>) -> bool {
    match s {
        Some(v) => r is Some && r->0@ == v,
        None => r is None,
    }
}

/// Lets go of a source, and of the sources below it when it has no other
/// holder. Gives what is left.
fn release<F, L>(source: Box<ZipSource<F, L>>) -> (r: Option<Box<ZipSource<F, L>>>)
    ensures
        leaves(r, released(source@)),
    decreases source,
{
    let mut s = source;
    if s.node.refcount > 1 {
        s.node.refcount = s.node.refcount - 1;
        return Some(s);
    }
    match (*s).backend {
        SourceBackend::Layered { lower, layer: _ } => release(lower),
        _ => None,
    }
}

/// Lets go of a source, and of the sources below it when it has no other
/// holder. Gives what is left.
pub fn zip_source_free<F, L>(source: Option<Box<ZipSource<F, L>>>) -> (r: Option<
    Box<ZipSource<F, L>>,
>)
    ensures
        source is None ==> r is None,
        source matches Some(s) ==> leaves(r, released(s@)),
{
    match source {
        None => None,
        Some(s) => release(s),
    }
}

/// The source's error object, with the message of its code.
pub fn zip_source_error<F, L>(src: Option<&mut ZipSource<F, L>>) -> (r: Option<zip_error>)
    ensures
        src is None ==> r is None,
        src matches Some(s) ==> {
            let e = ErrorView { str: Some(err_msg(s.node.error.zip_err)), ..s.node.error@ };
            &&& r is Some
            &&& r->0@ == e
            &&& final(s).backend == s.backend
            &&& final(s).node@ == (NodeView { error: e, ..s.node@ })
        },
{
    match src {
        None => None,
        Some(s) => {
            s.node.error.str = Some(err_str(s.node.error.zip_err));
            Some(s.node.error)
        },
    }
}

/// Resets an error object, if there is one. Sources carry their errors
/// themselves, so none is taken over.
pub fn zip_error_set_from_source<F, L>(
    ze: Option<&mut zip_error>,
    _src: Option<&ZipSource<F, L>>,
)
    ensures
        ze matches Some(e) ==> final(e)@ == error_of(0, 0),
{
    if let Some(e) = ze {
        e.record(0, 0);
    }
}

/// Fills a file-attributes record, where the source has one. Gives 0 or -1.
pub fn zip_source_get_file_attributes<F: SourceCallback, L: LayeredCallback<F>>(
    src: Option<&mut ZipSource<F, L>>,
    attrs: Option<&mut zip_file_attributes>,
) -> (r: i32)
    ensures
        src is None || attrs is None ==> r == -1,
        src is None ==> (attrs matches Some(a) ==> *final(a) == *a),
        attrs is None ==> (src matches Some(s) ==> *final(s) == *s),
        src matches Some(s) ==> attrs matches Some(b) ==> {
            &&& s@.closed() ==> {
                let o = step(
                    s@,
                    ZIP_SOURCE_GET_FILE_ATTRIBUTES,
                    DataView::Attributes(*b),
                    FILE_ATTRIBUTES_SIZE,
                );
                &&& final(s)@ == o.source
                &&& r == reported(o.result)
                &&& o.data == DataView::Attributes(*final(b))
            }
            &&& exists|p: &mut ZipSource<F, L>, d: &mut CommandData, a: i64|
                {
                    &&& #[trigger] call_ensures(
                        ZipSource::<F, L>::dispatch,
                        (p, ZIP_SOURCE_GET_FILE_ATTRIBUTES, d, FILE_ATTRIBUTES_SIZE),
                        a,
                    )
                    &&& *p == *s
                    &&& *d == CommandData::Attributes(*b)
                    &&& r == reported(a)
                    &&& *final(s) == *final(p)
                    &&& final(d)@ is Attributes ==> final(d)@ == DataView::Attributes(*final(b))
                }
            &&& r == 0 || r == -1
        },
{
    match (src, attrs) {
        (Some(s), Some(b)) => {
            proof {
                if s@.closed() {
                    lemma_step_form(
                        s@,
                        ZIP_SOURCE_GET_FILE_ATTRIBUTES,
                        DataView::Attributes(*b),
                        FILE_ATTRIBUTES_SIZE,
                    );
                }
            }
            let mut data = CommandData::Attributes(*b);
            let a: i64 = s.dispatch(
                ZIP_SOURCE_GET_FILE_ATTRIBUTES,
                &mut data,
                FILE_ATTRIBUTES_SIZE,
            );
            if let CommandData::Attributes(record) = data {
                *b = record;
            }
            if a < 0 {
                -1
            } else {
                0
            }
        },
        _ => -1,
    }
}

/// Runs a command as a layer does that leaves it to the source below.
pub fn zip_source_pass_to_lower_layer<F: SourceCallback, L: LayeredCallback<F>>(
    src: Option<&mut ZipSource<F, L>>,
    data: &mut CommandData,
    length: u64,
    command: i32,
) -> (r: i64)
    ensures
        src is None ==> final(data)@ == old(data)@ && r == (match command {
            ZIP_SOURCE_OPEN => 0int,
            ZIP_SOURCE_CLOSE => 0,
            ZIP_SOURCE_FREE => 0,
            ZIP_SOURCE_GET_FILE_ATTRIBUTES => 0,
            ZIP_SOURCE_SUPPORTS_REOPEN => 0,
            ZIP_SOURCE_STAT => STAT_SIZE as int,
            ZIP_SOURCE_SUPPORTS => match old(data)@ {
                DataView::Supports(mask) if length >= 8 => mask as int,
                _ => -1,
            },
            _ => -1,
        }),
        src matches Some(s) ==> {
            &&& s@.closed() || !forwards(command) ==> (Outcome {
                source: final(s)@,
                data: final(data)@,
                result: r,
            }) == pass_step(s@, old(data)@, length, command)
            &&& forwards(command) ==> exists|p: &mut ZipSource<F, L>, d: &mut CommandData|
                {
                    &&& #[trigger] call_ensures(
                        ZipSource::<F, L>::dispatch,
                        (p, command, d, length),
                        r,
                    )
                    &&& *p == *s
                    &&& *d == *old(data)
                    &&& *final(p) == *final(s)
                    &&& *final(d) == *final(data)
                }
        },
{
    match src {
        Some(s) => pass_command(s, data, length, command),
        None => match command {
            ZIP_SOURCE_OPEN
            | ZIP_SOURCE_CLOSE
            | ZIP_SOURCE_FREE
            | ZIP_SOURCE_GET_FILE_ATTRIBUTES
            | ZIP_SOURCE_SUPPORTS_REOPEN => 0,
            ZIP_SOURCE_STAT => STAT_SIZE as i64,
            ZIP_SOURCE_SUPPORTS => {
                if length >= 8 {
                    if let CommandData::Supports(mask) = data {
                        return *mask;
                    }
                }
                -1
            },
            _ => -1,
        },
    }
}

} // verus!
