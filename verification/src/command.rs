//! Source commands: their payloads, masks and seek arithmetic.

use crate::consts::{
    SEEK_ARGS_SIZE, SEEK_CUR, SEEK_END, SEEK_SET, ZIP_ER_INVAL,
};
use crate::errors::ErrorPair;
use crate::stat::{zip_file_attributes, zip_stat, StatView};
use vstd::prelude::*;

verus! {

/// The argument of the SEEK and SEEK_WRITE commands.
#[derive(Clone, Copy, Debug, PartialEq, Eq, Structural)]
pub struct ZipSourceArgsSeek {
    pub offset: i64,
    pub whence: i32,
}

/// The payload of a command. Where a command asks for one form, every other
/// form counts as absent.
#[derive(Debug)]
pub enum CommandData {
    /// No payload.
    Null,
    /// A buffer to read into or to write from.
    Bytes(Vec<u8>),
    /// The argument of a seek.
    Seek(ZipSourceArgsSeek),
    /// A stat record to fill.
    Stat(zip_stat),
    /// A pair of error codes to fill.
    Error(ErrorPair),
    /// The command mask of the layer below.
    Supports(i64),
    /// A file-attributes record to fill.
    Attributes(zip_file_attributes),
}

/// What a payload holds.
pub ghost enum DataView {
    Null,
    Bytes(Seq<u8>),
    Seek(ZipSourceArgsSeek),
    Stat(StatView),
    Error(ErrorPair),
    Supports(i64),
    Attributes(zip_file_attributes),
}

impl View for CommandData {
    type V = DataView;

    open spec fn view(&self) -> DataView {
        match *self {
            CommandData::Null => DataView::Null,
            CommandData::Bytes(b) => DataView::Bytes(b@),
            CommandData::Seek(a) => DataView::Seek(a),
            CommandData::Stat(s) => DataView::Stat(s@),
            CommandData::Error(e) => DataView::Error(e),
            CommandData::Supports(m) => DataView::Supports(m),
            CommandData::Attributes(a) => DataView::Attributes(a),
        }
    }
}

/// The mask of one command. The bit position is taken modulo 64.
pub open spec fn bit(cmd: i32) -> i64 {
    1i64 << ((cmd & 63) as i64)
}

/// The mask of one command.
pub fn src_bit(cmd: i32) -> (r: i64)
    ensures
        r == bit(cmd),
{
    assert(0 <= cmd & 63 < 64) by (bit_vector);
    1i64 << ((cmd & 63) as i64)
}

/// The mask of the commands up to the first negative one.
pub open spec fn bitmap(cmds: Seq<i32>) -> i64
    decreases cmds.len(),
{
    if cmds.len() == 0 || cmds[0] < 0 {
        0
    } else {
        bit(cmds[0]) | bitmap(cmds.skip(1))
    }
}

/// The mask of the commands in `cmds` up to the first negative one.
pub fn make_bitmap(cmds: &[i32]) -> (r: i64)
    ensures
        r == bitmap(cmds@),
{
    let mut b: i64 = 0;
    let mut i: usize = 0;
    assert(cmds@.skip(0) =~= cmds@);
    assert(0i64 | bitmap(cmds@) == bitmap(cmds@)) by {
        let x = bitmap(cmds@);
        assert(0i64 | x == x) by (bit_vector);
    }
    while i < cmds.len() && cmds[i] >= 0
        invariant
            i <= cmds@.len(),
            b | bitmap(cmds@.skip(i as int)) == bitmap(cmds@),
        decreases cmds.len() - i,
    {
        let m: i64 = src_bit(cmds[i]);
        proof {
            let rest = bitmap(cmds@.skip(i as int).skip(1));
            assert(cmds@.skip(i as int).skip(1) =~= cmds@.skip(i + 1));
            assert(b | (m | rest) == (b | m) | rest) by (bit_vector);
        }
        b = b | m;
        i += 1;
    }
    assert(b | 0i64 == b) by (bit_vector);
    b
}

/// The mask of a single command.
pub fn zip_source_make_command_bitmap(cmd0: i32) -> (r: i64)
    ensures
        r == bit(cmd0),
{
    src_bit(cmd0)
}

/// The seek argument in a payload: none if the payload is something else or
/// its stated length is too short.
pub open spec fn seek_args(data: DataView, len: u64) -> Option<ZipSourceArgsSeek> {
    match data {
        DataView::Seek(args) => if len >= SEEK_ARGS_SIZE {
            Some(args)
        } else {
            None
        },
        _ => None,
    }
}

/// The seek argument in a payload.
pub fn zip_source_args_seek(data: &CommandData, len: u64) -> (r: Option<ZipSourceArgsSeek>)
    ensures
        r == seek_args(data@, len),
{
    match data {
        CommandData::Seek(args) => if len >= SEEK_ARGS_SIZE {
            Some(*args)
        } else {
            None
        },
        _ => None,
    }
}

/// The position that a seek aims at, from a current position and an end: none
/// if the origin is unknown or the position is negative or not representable.
pub open spec fn seek_target(args: ZipSourceArgsSeek, pos: u64, end: u64) -> Option<u64> {
    if args.whence != SEEK_SET && args.whence != SEEK_CUR && args.whence != SEEK_END {
        None
    } else {
        let target = if args.whence == SEEK_SET {
            args.offset as int
        } else if args.whence == SEEK_CUR {
            (pos as i64) + args.offset
        } else {
            (end as i64) + args.offset
        };
        if 0 <= target <= i64::MAX {
            Some(target as u64)
        } else {
            None
        }
    }
}

/// The position that a seek aims at.
pub fn compute_target(args: ZipSourceArgsSeek, pos: u64, end: u64) -> (r: Option<u64>)
    ensures
        r == seek_target(args, pos, end),
{
    let base: i64 = match args.whence {
        SEEK_SET => 0,
        SEEK_CUR => pos as i64,
        SEEK_END => end as i64,
        _ => {
            return None;
        },
    };
    match base.checked_add(args.offset) {
        Some(target) => if target >= 0 {
            Some(target as u64)
        } else {
            None
        },
        None => None,
    }
}

/// The absolute position that the seek argument in a payload asks for, within
/// `length` bytes.
pub open spec fn absolute_offset(offset: u64, length: u64, data: DataView, data_length: u64) ->
    Option<u64> {
    match seek_args(data, data_length) {
        None => None,
        Some(args) => match seek_target(args, offset, length) {
            Some(target) => if target <= length {
                Some(target)
            } else {
                None
            },
            None => None,
        },
    }
}

/// Computes the absolute position that the seek argument in `data` asks for.
/// Gives -1 and stores `ZIP_ER_INVAL` if there is none within `length` bytes.
pub fn zip_source_seek_compute_offset(
    offset: u64,
    length: u64,
    data: &CommandData,
    data_length: u64,
    errorp: Option<&mut i32>,
) -> (r: i64)
    ensures
        r == (match absolute_offset(offset, length, data@, data_length) {
            Some(target) => target as int,
            None => -1,
        }),
        errorp matches Some(e) ==> *final(e) == (if absolute_offset(
            offset,
            length,
            data@,
            data_length,
        ) is Some {
            *e
        } else {
            ZIP_ER_INVAL
        }),
{
    if let Some(args) = zip_source_args_seek(data, data_length) {
        if let Some(target) = compute_target(args, offset, length) {
            if target <= length {
                return target as i64;
            }
        }
    }
    if let Some(e) = errorp {
        *e = ZIP_ER_INVAL;
    }
    -1
}

} // verus!
