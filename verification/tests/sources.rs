use kzip::command::{
    make_bitmap, src_bit, zip_source_args_seek, zip_source_make_command_bitmap,
    zip_source_seek_compute_offset, CommandData, ZipSourceArgsSeek,
};
use kzip::consts::{
    SEEK_ARGS_SIZE, SEEK_CUR, SEEK_END, SEEK_SET, SRC_SEEKABLE, ZIP_ER_INVAL, ZIP_SOURCE_CLOSE,
    ZIP_SOURCE_ERROR, ZIP_SOURCE_FREE, ZIP_SOURCE_OPEN, ZIP_SOURCE_READ, ZIP_SOURCE_SEEK,
    ZIP_SOURCE_STAT, ZIP_SOURCE_SUPPORTS, ZIP_SOURCE_TELL, ZIP_SOURCE_WRITE, ZIP_STAT_SIZE,
};
use kzip::source::{
    LayeredCallback, NoCallback, PlainSource, SourceBackend, SourceCallback, ZipSource,
};
use kzip::source_api::{
    zip_source_close, zip_source_free, zip_source_is_seekable, zip_source_open,
    zip_source_pass_to_lower_layer, zip_source_read, zip_source_seek, zip_source_stat,
    zip_source_tell,
};
use kzip::source_new::{
    zip_source_buffer, zip_source_function_create, zip_source_layered,
    zip_source_layered_create,
};
use kzip::stat::zip_stat;
use kzip::write_session::{
    zip_source_begin_write, zip_source_begin_write_cloning, zip_source_commit_write,
    zip_source_rollback_write, zip_source_seek_write, zip_source_tell_write, zip_source_write,
};
use std::cell::Cell;
use std::rc::Rc;

fn read_source_all<F: SourceCallback, L: LayeredCallback<F>>(
    src: &mut ZipSource<F, L>,
) -> Vec<u8> {
    assert_eq!(zip_source_open(Some(src)), 0);
    let mut out = Vec::new();
    let mut buf = vec![0u8; 4096];
    loop {
        let n = zip_source_read(Some(src), &mut buf, 4096);
        assert!(n >= 0);
        if n == 0 {
            break;
        }
        out.extend_from_slice(&buf[..n as usize]);
    }
    assert_eq!(zip_source_close(Some(src)), 0);
    out
}

fn buffer(data: &[u8]) -> PlainSource {
    zip_source_buffer(None, Some(data), data.len() as u64, 0).unwrap()
}

fn empty() -> PlainSource {
    zip_source_buffer(None, None, 0, 0).unwrap()
}

const DATA: &[u8] = b"function-source payload 0123456789";

struct FnState {
    open_count: Rc<Cell<i32>>,
    close_count: Rc<Cell<i32>>,
    fail_next_read: Rc<Cell<bool>>,
    pos: usize,
}

impl SourceCallback for FnState {
    fn call(&mut self, data: &mut CommandData, len: u64, cmd: i32) -> i64 {
        match cmd {
            ZIP_SOURCE_OPEN => {
                self.open_count.set(self.open_count.get() + 1);
                self.pos = 0;
                0
            }
            ZIP_SOURCE_CLOSE => {
                self.close_count.set(self.close_count.get() + 1);
                0
            }
            ZIP_SOURCE_READ => {
                if self.fail_next_read.replace(false) {
                    return -1;
                }
                let remaining = DATA.len().saturating_sub(self.pos);
                let n = remaining.min(len as usize);
                if let CommandData::Bytes(out) = data {
                    out[..n].copy_from_slice(&DATA[self.pos..self.pos + n]);
                }
                self.pos += n;
                n as i64
            }
            ZIP_SOURCE_STAT => {
                if let CommandData::Stat(sb) = data {
                    sb.valid = ZIP_STAT_SIZE;
                    sb.size = DATA.len() as u64;
                }
                0
            }
            ZIP_SOURCE_SEEK => {
                let args = match data {
                    CommandData::Seek(args) => *args,
                    _ => return -1,
                };
                let target = match args.whence {
                    SEEK_SET => args.offset,
                    SEEK_CUR => self.pos as i64 + args.offset,
                    SEEK_END => DATA.len() as i64 + args.offset,
                    _ => return -1,
                };
                if target < 0 {
                    return -1;
                }
                self.pos = target as usize;
                0
            }
            ZIP_SOURCE_TELL => self.pos as i64,
            ZIP_SOURCE_SUPPORTS => SRC_SEEKABLE,
            ZIP_SOURCE_ERROR => 0,
            ZIP_SOURCE_FREE => 0,
            _ => -1,
        }
    }
}

#[test]
fn source_function_callbacks() {
    let open_count = Rc::new(Cell::new(0));
    let close_count = Rc::new(Cell::new(0));
    let fail_next_read = Rc::new(Cell::new(false));
    let state = FnState {
        open_count: open_count.clone(),
        close_count: close_count.clone(),
        fail_next_read: fail_next_read.clone(),
        pos: 0,
    };
    let mut errp = -1;
    let src: Option<ZipSource<FnState, NoCallback>> =
        zip_source_function_create(Some(state), Some(&mut errp));
    assert!(src.is_some(), "zip_source_function_create errp={errp}");
    let mut src = src.unwrap();

    assert_eq!(zip_source_is_seekable(Some(&mut src)), 1, "SUPPORTS seekable");
    let bytes = read_source_all(&mut src);
    assert_eq!(bytes, DATA.to_vec(), "byte-identical to the slice");
    assert_eq!(open_count.get(), 1, "OPEN exactly once");
    assert_eq!(close_count.get(), 1, "CLOSE exactly once");

    // SEEK/TELL: seek within the source and read the sub-range.
    assert_eq!(zip_source_open(Some(&mut src)), 0);
    assert_eq!(zip_source_seek(Some(&mut src), 10, SEEK_SET), 0);
    assert_eq!(zip_source_tell(Some(&mut src)), 10);
    let mut b = vec![0u8; 5];
    assert_eq!(zip_source_read(Some(&mut src), &mut b, 5), 5);
    assert_eq!(&b[..], &DATA[10..15]);
    zip_source_close(Some(&mut src));

    // ERROR is reachable: a failing READ returns -1 without panicking.
    fail_next_read.set(true);
    assert_eq!(zip_source_open(Some(&mut src)), 0);
    assert_eq!(zip_source_read(Some(&mut src), &mut b, 5), -1);
    zip_source_close(Some(&mut src));

    assert!(zip_source_free(Some(Box::new(src))).is_none());
}

struct Passthrough;

impl LayeredCallback<NoCallback> for Passthrough {
    fn call_over(
        &mut self,
        lower: &mut ZipSource<NoCallback, Passthrough>,
        data: &mut CommandData,
        len: u64,
        cmd: i32,
    ) -> i64 {
        zip_source_pass_to_lower_layer(Some(lower), data, len, cmd)
    }
}

type Layered = ZipSource<NoCallback, Passthrough>;

#[test]
fn source_layered_wrap() {
    let data = b"layered wrap payload 0123456789".to_vec();
    let base: Option<Layered> = zip_source_buffer(None, Some(&data), data.len() as u64, 0);
    assert!(base.is_some());
    let mut errp = -1;
    let (layered, left) = zip_source_layered_create(
        base.map(Box::new),
        Some(Passthrough),
        Some(&mut errp),
    );
    assert!(layered.is_some(), "zip_source_layered_create errp={errp}");
    assert!(left.is_none());
    let mut layered = layered.unwrap();

    // Reads propagate byte-identically.
    let got = read_source_all(&mut layered);
    assert_eq!(got, data);
    assert_eq!(zip_source_is_seekable(Some(&mut layered)), 1);

    // Seek/tell/stat propagate.
    assert_eq!(zip_source_open(Some(&mut layered)), 0);
    assert_eq!(zip_source_seek(Some(&mut layered), 3, SEEK_SET), 0);
    assert_eq!(zip_source_tell(Some(&mut layered)), 3);
    let mut b = vec![0u8; 4];
    assert_eq!(zip_source_read(Some(&mut layered), &mut b, 4), 4);
    assert_eq!(&b[..], &data[3..7]);
    let mut sb = zip_stat::empty();
    assert_eq!(zip_source_stat(Some(&mut layered), Some(&mut sb)), 0);
    // STAT is answered without filling the record, so the size is verified
    // through the lower source instead.
    zip_source_close(Some(&mut layered));
    if let SourceBackend::Layered { lower, .. } = &mut layered.backend {
        zip_source_open(Some(&mut **lower));
        let mut sb2 = zip_stat::empty();
        assert_eq!(zip_source_stat(Some(&mut **lower), Some(&mut sb2)), 0);
        assert_eq!(sb2.size, data.len() as u64);
        zip_source_close(Some(&mut **lower));
    } else {
        panic!("not a layer");
    }

    // `zip_source_layered` (archive form) behaves identically.
    let base2: Option<Layered> = zip_source_buffer(None, Some(&data), data.len() as u64, 0);
    let (layered2, _) = zip_source_layered(None, base2.map(Box::new), Some(Passthrough));
    assert!(layered2.is_some());
    let mut layered2 = layered2.unwrap();
    let got2 = read_source_all(&mut layered2);
    assert_eq!(got2, data);
    assert!(zip_source_free(Some(Box::new(layered2))).is_none());
    assert!(zip_source_free(Some(Box::new(layered))).is_none());
}

#[test]
fn source_write() {
    let mut src = empty();
    assert_eq!(zip_source_begin_write(Some(&mut src)), 0);
    let a = b"hello ";
    assert_eq!(zip_source_write(Some(&mut src), Some(a), a.len() as u64), a.len() as i64);
    let b2 = b"world";
    assert_eq!(zip_source_write(Some(&mut src), Some(b2), b2.len() as u64), b2.len() as i64);
    assert_eq!(zip_source_tell_write(Some(&mut src)), 11);
    // SEEK_WRITE to position 5 and overwrite.
    assert_eq!(zip_source_seek_write(Some(&mut src), 5, SEEK_SET), 0);
    assert_eq!(zip_source_tell_write(Some(&mut src)), 5);
    let c = b"Z";
    assert_eq!(zip_source_write(Some(&mut src), Some(c), 1), 1);
    assert_eq!(zip_source_commit_write(Some(&mut src)), 0);
    let got = read_source_all(&mut src);
    assert_eq!(got, b"helloZworld");
    zip_source_free(Some(Box::new(src)));

    // Writing without an open write session -> -1, defined error, no panic.
    let mut src2 = empty();
    let d = b"x";
    assert_eq!(zip_source_write(Some(&mut src2), Some(d), 1), -1);
    zip_source_free(Some(Box::new(src2)));
}

#[test]
fn source_commit_rollback() {
    // Commit persists.
    let mut src = empty();
    assert_eq!(zip_source_begin_write(Some(&mut src)), 0);
    let p = b"commitdata";
    assert_eq!(zip_source_write(Some(&mut src), Some(p), p.len() as u64), p.len() as i64);
    assert_eq!(zip_source_commit_write(Some(&mut src)), 0);
    assert_eq!(read_source_all(&mut src), b"commitdata");
    zip_source_free(Some(Box::new(src)));

    // Rollback discards.
    let mut src2 = empty();
    assert_eq!(zip_source_begin_write(Some(&mut src2)), 0);
    let t = b"temporary";
    assert_eq!(zip_source_write(Some(&mut src2), Some(t), t.len() as u64), t.len() as i64);
    zip_source_rollback_write(Some(&mut src2));
    // Returns to the empty pre-write state.
    assert_eq!(read_source_all(&mut src2), b"");
    zip_source_free(Some(Box::new(src2)));

    // begin_write_cloning clones existing content; the original is
    // untouched until commit.
    let data = b"cloning base".to_vec();
    let mut src3 = buffer(&data);
    assert_eq!(read_source_all(&mut src3), data);
    assert_eq!(zip_source_begin_write_cloning(Some(&mut src3), 0), 0);
    let n = b"new";
    assert_eq!(zip_source_write(Some(&mut src3), Some(n), n.len() as u64), n.len() as i64);
    // Original still intact before commit.
    assert_eq!(read_source_all(&mut src3), data);
    assert_eq!(zip_source_commit_write(Some(&mut src3)), 0);
    assert_eq!(read_source_all(&mut src3), b"new");
    zip_source_free(Some(Box::new(src3)));

    // Misordering returns a defined error, never a panic.
    let mut src4 = empty();
    assert_eq!(zip_source_commit_write(Some(&mut src4)), -1);
    assert_eq!(zip_source_begin_write(Some(&mut src4)), 0);
    zip_source_rollback_write(Some(&mut src4));
    assert_eq!(zip_source_commit_write(Some(&mut src4)), -1);
    zip_source_free(Some(Box::new(src4)));
}

#[test]
fn source_helpers_parity() {
    // make_command_bitmap: single-bit + multi-bit, terminated by a negative.
    assert_eq!(make_bitmap(&[ZIP_SOURCE_READ]), src_bit(ZIP_SOURCE_READ));
    let bm = make_bitmap(&[
        ZIP_SOURCE_OPEN,
        ZIP_SOURCE_READ,
        ZIP_SOURCE_CLOSE,
        ZIP_SOURCE_SEEK,
        ZIP_SOURCE_TELL,
        -1,
    ]);
    assert_eq!(
        bm,
        src_bit(ZIP_SOURCE_OPEN)
            | src_bit(ZIP_SOURCE_READ)
            | src_bit(ZIP_SOURCE_CLOSE)
            | src_bit(ZIP_SOURCE_SEEK)
            | src_bit(ZIP_SOURCE_TELL)
    );
    // The fixed-arity function sets bit cmd0.
    assert_eq!(zip_source_make_command_bitmap(ZIP_SOURCE_READ), src_bit(ZIP_SOURCE_READ));

    // seek_compute_offset across whence.
    let mut args = ZipSourceArgsSeek { offset: 10, whence: SEEK_SET };
    let mut errp = 0;
    assert_eq!(
        zip_source_seek_compute_offset(
            0,
            100,
            &CommandData::Seek(args),
            SEEK_ARGS_SIZE,
            Some(&mut errp)
        ),
        10
    );
    args.whence = SEEK_CUR;
    assert_eq!(
        zip_source_seek_compute_offset(
            20,
            100,
            &CommandData::Seek(args),
            SEEK_ARGS_SIZE,
            Some(&mut errp)
        ),
        30
    );
    args.whence = SEEK_END;
    args.offset = -5;
    assert_eq!(
        zip_source_seek_compute_offset(
            0,
            100,
            &CommandData::Seek(args),
            SEEK_ARGS_SIZE,
            Some(&mut errp)
        ),
        95
    );
    // Out-of-bounds -> -1 + INVAL.
    args.whence = SEEK_SET;
    args.offset = 200;
    assert_eq!(
        zip_source_seek_compute_offset(
            0,
            100,
            &CommandData::Seek(args),
            SEEK_ARGS_SIZE,
            Some(&mut errp)
        ),
        -1
    );
    assert_eq!(errp, ZIP_ER_INVAL);

    // args_seek gives nothing for too-small len.
    assert!(zip_source_args_seek(&CommandData::Seek(args), 1).is_none());

    // pass_to_lower_layer forwards to a real lower source.
    let data = b"forward me".to_vec();
    let mut lower = buffer(&data);
    // OPEN + READ via pass_to_lower_layer.
    assert_eq!(
        zip_source_pass_to_lower_layer(
            Some(&mut lower),
            &mut CommandData::Null,
            0,
            ZIP_SOURCE_OPEN
        ),
        0
    );
    let mut buf = CommandData::Bytes(vec![0u8; 6]);
    assert_eq!(
        zip_source_pass_to_lower_layer(Some(&mut lower), &mut buf, 6, ZIP_SOURCE_READ),
        6
    );
    match &buf {
        CommandData::Bytes(b) => assert_eq!(&b[..], b"forwar"),
        _ => panic!("the buffer is gone"),
    }
    // Write-mode commands -> OPNOTSUPP (-1).
    assert_eq!(
        zip_source_pass_to_lower_layer(
            Some(&mut lower),
            &mut CommandData::Null,
            0,
            ZIP_SOURCE_WRITE
        ),
        -1
    );
    zip_source_free(Some(Box::new(lower)));
}

struct BadLayer;

impl LayeredCallback<NoCallback> for BadLayer {
    fn call_over(
        &mut self,
        _lower: &mut ZipSource<NoCallback, BadLayer>,
        _data: &mut CommandData,
        _len: u64,
        _cmd: i32,
    ) -> i64 {
        -1
    }
}

#[test]
fn source_write_malformed_no_panic() {
    let data = b"x".to_vec();
    let base: Option<ZipSource<NoCallback, BadLayer>> =
        zip_source_buffer(None, Some(&data), data.len() as u64, 0);
    let mut errp = -1;
    // SUPPORTS < 0 => creation fails cleanly, no panic.
    let (layered, _left) =
        zip_source_layered_create(base.map(Box::new), Some(BadLayer), Some(&mut errp));
    assert!(layered.is_none(), "invalid SUPPORTS must fail creation");

    // begin_write on an already-open source -> -1, no panic.
    let mut src = empty();
    assert_eq!(zip_source_begin_write(Some(&mut src)), 0);
    assert_eq!(zip_source_begin_write(Some(&mut src)), -1);
    zip_source_free(Some(Box::new(src)));

    // commit/rollback/seek_write on a source with no open write -> defined error.
    let mut src2 = empty();
    assert_eq!(zip_source_seek_write(Some(&mut src2), 0, SEEK_SET), -1);
    assert_eq!(zip_source_tell_write(Some(&mut src2)), -1);
    zip_source_rollback_write(Some(&mut src2));
    assert_eq!(zip_source_commit_write(Some(&mut src2)), -1);
    zip_source_free(Some(Box::new(src2)));
}

#[test]
fn source_begin_write_cloning() {
    let base = b"original bytes".to_vec();
    let mut src = buffer(&base);
    // Clone first 8 bytes as the write base.
    assert_eq!(zip_source_begin_write_cloning(Some(&mut src), 8), 0);
    let extra = b"EDITED";
    assert_eq!(
        zip_source_write(Some(&mut src), Some(extra), extra.len() as u64),
        extra.len() as i64
    );
    // Original is untouched until commit.
    assert_eq!(read_source_all(&mut src), base);
    assert_eq!(zip_source_commit_write(Some(&mut src)), 0);
    // After commit: first 8 bytes of original + the edit.
    let mut expected = base[..8].to_vec();
    expected.extend_from_slice(extra);
    assert_eq!(read_source_all(&mut src), expected);
    zip_source_free(Some(Box::new(src)));
}
