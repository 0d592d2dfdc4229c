//! Write sessions: what is written becomes the content on commit and is
//! discarded on rollback.

use crate::command::{CommandData, DataView, ZipSourceArgsSeek};
use crate::consts::{
    SEEK_ARGS_SIZE, SEEK_CUR, SEEK_END, SEEK_SET, ZIP_ER_INVAL, ZIP_ER_OPNOTSUPP, ZIP_ER_WRITE,
    ZIP_SOURCE_BEGIN_WRITE, ZIP_SOURCE_BEGIN_WRITE_CLONING, ZIP_SOURCE_COMMIT_WRITE,
    ZIP_SOURCE_ROLLBACK_WRITE, ZIP_SOURCE_SEEK_WRITE, ZIP_SOURCE_TELL_WRITE, ZIP_SOURCE_WRITE,
};
use crate::errors::error_of;
use crate::memory::{with_error, NodeView};
use crate::source::{step, LayeredCallback, SourceBackend, SourceCallback, SourceView, ZipSource};
use crate::source_api::reported;
use vstd::prelude::*;
use vstd::slice::slice_to_vec;

verus! {

impl<F, L> SourceView<F, L> {
    /// Whether this is a layer over another source.
    pub open spec fn is_layered(self) -> bool {
        self.backend is Layered
    }

    /// The source with its write session opened or ended.
    pub open spec fn with_session(self, open: bool) -> SourceView<F, L> {
        SourceView { node: NodeView { write_open: open, ..self.node }, ..self }
    }

    /// Why a session cannot be opened: layers are not writable, and only one
    /// session is open at a time.
    pub open spec fn begin_refused(self) -> Option<i32> {
        if self.is_layered() {
            Some(ZIP_ER_OPNOTSUPP)
        } else if self.node.write_open {
            Some(ZIP_ER_INVAL)
        } else {
            None
        }
    }

    /// Why an operation of an open session cannot be done.
    pub open spec fn session_refused(self) -> Option<i32> {
        if self.is_layered() {
            Some(ZIP_ER_OPNOTSUPP)
        } else if !self.node.write_open {
            Some(ZIP_ER_INVAL)
        } else {
            None
        }
    }
}

impl<F, L> ZipSource<F, L> {
    /// Whether this is a layer over another source.
    pub fn is_layered(&self) -> (r: bool)
        ensures
            r == self@.is_layered(),
    {
        match self.backend {
            SourceBackend::Layered { .. } => true,
            _ => false,
        }
    }
}

/// Opens a write session on an empty buffer. Gives 0 or -1.
pub fn zip_source_begin_write<F: SourceCallback, L: LayeredCallback<F>>(
    src: Option<&mut ZipSource<F, L>>,
) -> (r: i32)
    ensures
        src is None ==> r == -1,
        src matches Some(s) ==> match s@.begin_refused() {
            Some(code) => r == -1 && final(s)@ == s@.failed(code),
            None => {
                &&& s@.closed() ==> {
                    let o = step(s@, ZIP_SOURCE_BEGIN_WRITE, DataView::Null, 0);
                    &&& r == reported(o.result)
                    &&& final(s)@ == (if o.result < 0 {
                        o.source
                    } else {
                        o.source.with_session(true).failed(0)
                    })
                }
                &&& s.backend is Function ==> exists|f: &mut F, d: &mut CommandData, a: i64|
                    {
                        &&& #[trigger] call_ensures(F::call, (f, d, 0, ZIP_SOURCE_BEGIN_WRITE), a)
                        &&& *f == s.backend->Function_0
                        &&& *d == CommandData::Null
                        &&& r == reported(a)
                        &&& final(s).backend == SourceBackend::<F, L>::Function(*final(f))
                    }
                &&& s.backend is Function ==> final(s).node@ == (if r == 0 {
                    s@.with_session(true).failed(0).node
                } else {
                    s.node@
                })
                &&& final(s).node.write_open == (r == 0)
            },
        },
{
    match src {
        None => -1,
        Some(s) => {
            if s.is_layered() {
                s.set_err(ZIP_ER_OPNOTSUPP, 0);
                return -1;
            }
            if s.node.write_open {
                s.set_err(ZIP_ER_INVAL, 0);
                return -1;
            }
            let mut nothing = CommandData::Null;
            if s.dispatch(ZIP_SOURCE_BEGIN_WRITE, &mut nothing, 0) < 0 {
                return -1;
            }
            s.node.write_open = true;
            s.set_err(0, 0);
            0
        },
    }
}

/// Opens a write session on a copy of the first `offset` bytes. Gives 0 or -1.
pub fn zip_source_begin_write_cloning<F: SourceCallback, L: LayeredCallback<F>>(
    src: Option<&mut ZipSource<F, L>>,
    offset: u64,
) -> (r: i32)
    ensures
        src is None ==> r == -1,
        src matches Some(s) ==> match s@.begin_refused() {
            Some(code) => r == -1 && final(s)@ == s@.failed(code),
            None => {
                &&& s@.closed() ==> {
                    let o = step(s@, ZIP_SOURCE_BEGIN_WRITE_CLONING, DataView::Null, offset);
                    &&& r == reported(o.result)
                    &&& final(s)@ == (if o.result < 0 {
                        o.source
                    } else {
                        o.source.with_session(true)
                    })
                }
                &&& s.backend is Function ==> exists|f: &mut F, d: &mut CommandData, a: i64|
                    {
                        &&& #[trigger] call_ensures(F::call, (f, d, offset, ZIP_SOURCE_BEGIN_WRITE_CLONING), a)
                        &&& *f == s.backend->Function_0
                        &&& *d == CommandData::Null
                        &&& r == reported(a)
                        &&& final(s).backend == SourceBackend::<F, L>::Function(*final(f))
                    }
                &&& s.backend is Function ==> final(s).node@ == s@.with_session(r == 0).node
                &&& final(s).node.write_open == (r == 0)
            },
        },
{
    match src {
        None => -1,
        Some(s) => {
            if s.is_layered() {
                s.set_err(ZIP_ER_OPNOTSUPP, 0);
                return -1;
            }
            if s.node.write_open {
                s.set_err(ZIP_ER_INVAL, 0);
                return -1;
            }
            let mut nothing = CommandData::Null;
            if s.dispatch(ZIP_SOURCE_BEGIN_WRITE_CLONING, &mut nothing, offset) < 0 {
                return -1;
            }
            s.node.write_open = true;
            0
        },
    }
}

/// The payload of WRITE for an optional byte string.
pub open spec fn write_payload(data: Option<&[u8]>) -> DataView {
    match data {
        Some(b) => DataView::Bytes(b@),
        None => DataView::Null,
    }
}

/// Writes `length` bytes into the open session. Gives their number, or a
/// negative number with `ZIP_ER_WRITE` recorded, or -1 with `ZIP_ER_INVAL`
/// recorded if no session is open.
pub fn zip_source_write<F: SourceCallback, L: LayeredCallback<F>>(
    src: Option<&mut ZipSource<F, L>>,
    data: Option<&[u8]>,
    length: u64,
) -> (r: i64)
    ensures
        src is None ==> r == -1,
        src matches Some(s) ==> if !s.node.write_open {
            r == -1 && final(s)@ == s@.failed(ZIP_ER_INVAL)
        } else {
            &&& s@.closed() ==> {
                let o = step(s@, ZIP_SOURCE_WRITE, write_payload(data), length);
                &&& r == o.result
                &&& final(s)@ == (if o.result < 0 {
                    o.source.failed(ZIP_ER_WRITE)
                } else {
                    o.source
                })
            }
            &&& exists|p: &mut ZipSource<F, L>, d: &mut CommandData, a: i64|
                {
                    &&& #[trigger] call_ensures(
                        ZipSource::<F, L>::dispatch,
                        (p, ZIP_SOURCE_WRITE, d, length),
                        a,
                    )
                    &&& *p == *s
                    &&& d@ == write_payload(data)
                    &&& r == a
                    &&& final(s).backend == final(p).backend
                    &&& final(s).node@ == (if r < 0 {
                        with_error(final(p).node@, ZIP_ER_WRITE)
                    } else {
                        final(p).node@
                    })
                }
            &&& r < 0 ==> final(s)@.node.error == error_of(ZIP_ER_WRITE, 0)
        },
{
    match src {
        None => -1,
        Some(s) => {
            if !s.node.write_open {
                s.set_err(ZIP_ER_INVAL, 0);
                return -1;
            }
            let mut payload = match data {
                Some(b) => CommandData::Bytes(slice_to_vec(b)),
                None => CommandData::Null,
            };
            let r: i64 = s.dispatch(ZIP_SOURCE_WRITE, &mut payload, length);
            if r < 0 {
                s.set_err(ZIP_ER_WRITE, 0);
            }
            r
        },
    }
}

/// Moves the write position of the open session. Gives 0 or -1.
pub fn zip_source_seek_write<F: SourceCallback, L: LayeredCallback<F>>(
    src: Option<&mut ZipSource<F, L>>,
    offset: i64,
    whence: i32,
) -> (r: i32)
    ensures
        src is None ==> r == -1,
        src matches Some(s) ==> match s@.session_refused() {
            Some(code) => r == -1 && final(s)@ == s@.failed(code),
            None => if whence != SEEK_SET && whence != SEEK_CUR && whence != SEEK_END {
                r == -1 && final(s)@ == s@.failed(ZIP_ER_INVAL)
            } else {
                let args = ZipSourceArgsSeek { offset, whence };
                &&& s@.closed() ==> {
                    let o = step(s@, ZIP_SOURCE_SEEK_WRITE, DataView::Seek(args), SEEK_ARGS_SIZE);
                    r == reported(o.result) && final(s)@ == o.source
                }
                &&& s.backend is Function ==> exists|f: &mut F, d: &mut CommandData, a: i64|
                    {
                        &&& #[trigger] call_ensures(F::call, (f, d, SEEK_ARGS_SIZE, ZIP_SOURCE_SEEK_WRITE), a)
                        &&& *f == s.backend->Function_0
                        &&& *d == CommandData::Seek(args)
                        &&& r == reported(a)
                        &&& final(s).backend == SourceBackend::<F, L>::Function(*final(f))
                    }
                &&& s.backend is Function ==> final(s).node@ == s.node@
                &&& r == 0 || r == -1
            },
        },
{
    match src {
        None => -1,
        Some(s) => {
            if s.is_layered() {
                s.set_err(ZIP_ER_OPNOTSUPP, 0);
                return -1;
            }
            if !s.node.write_open || (whence != SEEK_SET && whence != SEEK_CUR && whence
                != SEEK_END) {
                s.set_err(ZIP_ER_INVAL, 0);
                return -1;
            }
            let mut data = CommandData::Seek(ZipSourceArgsSeek { offset, whence });
            if s.dispatch(ZIP_SOURCE_SEEK_WRITE, &mut data, SEEK_ARGS_SIZE) < 0 {
                -1
            } else {
                0
            }
        },
    }
}

/// The write position of the open session, or a negative number.
pub fn zip_source_tell_write<F: SourceCallback, L: LayeredCallback<F>>(
    src: Option<&mut ZipSource<F, L>>,
) -> (r: i64)
    ensures
        src is None ==> r == -1,
        src matches Some(s) ==> match s@.session_refused() {
            Some(code) => r == -1 && final(s)@ == s@.failed(code),
            None => {
                &&& s@.closed() ==> {
                    let o = step(s@, ZIP_SOURCE_TELL_WRITE, DataView::Null, 0);
                    r == o.result && final(s)@ == o.source
                }
                &&& s.backend is Function ==> exists|f: &mut F, d: &mut CommandData, a: i64|
                    {
                        &&& #[trigger] call_ensures(F::call, (f, d, 0, ZIP_SOURCE_TELL_WRITE), a)
                        &&& *f == s.backend->Function_0
                        &&& *d == CommandData::Null
                        &&& r == a
                        &&& final(s).backend == SourceBackend::<F, L>::Function(*final(f))
                    }
                &&& s.backend is Function ==> final(s).node@ == s.node@
            },
        },
{
    match src {
        None => -1,
        Some(s) => {
            if s.is_layered() {
                s.set_err(ZIP_ER_OPNOTSUPP, 0);
                return -1;
            }
            if !s.node.write_open {
                s.set_err(ZIP_ER_INVAL, 0);
                return -1;
            }
            let mut nothing = CommandData::Null;
            s.dispatch(ZIP_SOURCE_TELL_WRITE, &mut nothing, 0)
        },
    }
}

/// Makes what was written the content, and ends the session whether that
/// succeeds or not. Gives 0 or -1.
pub fn zip_source_commit_write<F: SourceCallback, L: LayeredCallback<F>>(
    src: Option<&mut ZipSource<F, L>>,
) -> (r: i32)
    ensures
        src is None ==> r == -1,
        src matches Some(s) ==> match s@.session_refused() {
            Some(code) => r == -1 && final(s)@ == s@.failed(code),
            None => {
                &&& s@.closed() ==> {
                    let o = step(s@, ZIP_SOURCE_COMMIT_WRITE, DataView::Null, 0);
                    r == reported(o.result) && final(s)@ == o.source.with_session(false)
                }
                &&& s.backend is Function ==> exists|f: &mut F, d: &mut CommandData, a: i64|
                    {
                        &&& #[trigger] call_ensures(F::call, (f, d, 0, ZIP_SOURCE_COMMIT_WRITE), a)
                        &&& *f == s.backend->Function_0
                        &&& *d == CommandData::Null
                        &&& r == reported(a)
                        &&& final(s).backend == SourceBackend::<F, L>::Function(*final(f))
                    }
                &&& s.backend is Function ==> final(s).node@ == s@.with_session(false).node
                &&& !final(s).node.write_open
                &&& r == 0 || r == -1
            },
        },
{
    match src {
        None => -1,
        Some(s) => {
            if s.is_layered() {
                s.set_err(ZIP_ER_OPNOTSUPP, 0);
                return -1;
            }
            if !s.node.write_open {
                s.set_err(ZIP_ER_INVAL, 0);
                return -1;
            }
            let mut nothing = CommandData::Null;
            let r: i64 = s.dispatch(ZIP_SOURCE_COMMIT_WRITE, &mut nothing, 0);
            s.node.write_open = false;
            if r < 0 {
                -1
            } else {
                0
            }
        },
    }
}

/// Discards what was written and ends the session. Without a session there is
/// nothing to do.
pub fn zip_source_rollback_write<F: SourceCallback, L: LayeredCallback<F>>(
    src: Option<&mut ZipSource<F, L>>,
)
    ensures
        src matches Some(s) ==> match s@.session_refused() {
            Some(_) => *final(s) == *s,
            None => {
                &&& s@.closed() ==> final(s)@ == step(
                    s@,
                    ZIP_SOURCE_ROLLBACK_WRITE,
                    DataView::Null,
                    0,
                ).source.with_session(false)
                &&& s.backend is Function ==> exists|f: &mut F, d: &mut CommandData, a: i64|
                    {
                        &&& #[trigger] call_ensures(F::call, (f, d, 0, ZIP_SOURCE_ROLLBACK_WRITE), a)
                        &&& *f == s.backend->Function_0
                        &&& *d == CommandData::Null
                        &&& final(s).backend == SourceBackend::<F, L>::Function(*final(f))
                    }
                &&& s.backend is Function ==> final(s).node@ == s@.with_session(false).node
                &&& !final(s).node.write_open
            },
        },
{
    if let Some(s) = src {
        if s.is_layered() || !s.node.write_open {
            return ;
        }
        let mut nothing = CommandData::Null;
        s.dispatch(ZIP_SOURCE_ROLLBACK_WRITE, &mut nothing, 0);
        s.node.write_open = false;
    }
}

} // verus!
