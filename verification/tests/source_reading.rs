use kzip::checksum::crc32;
use kzip::command::{compute_target, src_bit, CommandData, ZipSourceArgsSeek};
use kzip::compress_layer::{compress_layered_cb, CompressAnswer, CompressCtx, COMPRESSION_LEVEL};
use kzip::consts::{
    SEEK_CUR, SEEK_END, SEEK_SET, SRC_AT_EOF, SRC_READABLE, SRC_SEEKABLE, SRC_WRITABLE,
    SRC_WRITE_MODE, ZIP_CM_DEFLATE, ZIP_CM_STORE, ZIP_ER_INVAL, ZIP_ER_OPNOTSUPP, ZIP_ER_READ,
    ZIP_SOURCE_ACCEPT_EMPTY, ZIP_SOURCE_AT_EOF, ZIP_SOURCE_ERROR, ZIP_SOURCE_FREE,
    ZIP_SOURCE_GET_DOS_TIME, ZIP_SOURCE_GET_FILE_ATTRIBUTES, ZIP_SOURCE_OPEN, ZIP_SOURCE_READ,
    ZIP_SOURCE_REMOVE, ZIP_SOURCE_SEEK, ZIP_SOURCE_STAT, ZIP_SOURCE_SUPPORTS,
    ZIP_SOURCE_SUPPORTS_REOPEN, ZIP_SOURCE_TELL, ZIP_SOURCE_WRITE, ZIP_STAT_COMP_METHOD,
    ZIP_STAT_COMP_SIZE, ZIP_STAT_CRC, ZIP_STAT_ENCRYPTION_METHOD, ZIP_STAT_MTIME,
    ZIP_STAT_SIZE,
};
use kzip::errors::{zip_error, ErrorPair};
use kzip::source::{
    crc_layered_cb, CrcCtx, Layer, LayeredCallback, NoCallback, PlainSource, ReadFailure, SourceBackend, SourceCallback,
    ZipSource,
};
use kzip::source_api::{
    zip_error_set_from_source, zip_source_at_eof, zip_source_close, zip_source_error,
    zip_source_free, zip_source_get_file_attributes, zip_source_is_deleted,
    zip_source_is_seekable, zip_source_keep, zip_source_open, zip_source_pass_to_lower_layer,
    zip_source_read, zip_source_seek, zip_source_stat, zip_source_tell,
};
use kzip::source_new::{
    zip_buffer_fragment, zip_source_buffer, zip_source_buffer_create,
    zip_source_buffer_fragment_create, zip_source_crc_create, zip_source_file_create,
    zip_source_function, zip_source_function_create, zip_source_layered_create,
    zip_source_win32a_create, zip_source_window_create, FileContent,
};
use kzip::stat::{zip_file_attributes, zip_file_attributes_init, zip_stat, zip_stat_init};
use kzip::write_session::{
    zip_source_begin_write, zip_source_begin_write_cloning, zip_source_commit_write,
    zip_source_seek_write, zip_source_tell_write, zip_source_write,
};
use std::io::Read;

fn plain(data: &[u8]) -> PlainSource {
    zip_source_buffer(None, Some(data), data.len() as u64, 0).unwrap()
}

fn boxed(data: &[u8]) -> Option<Box<PlainSource>> {
    Some(Box::new(plain(data)))
}

#[test]
fn a_buffer_source_reads_its_bytes() {
    let mut s = plain(b"0123456789");
    assert_eq!(s.read_all(), Ok(b"0123456789".to_vec()));
    // Reading again gives the same.
    assert_eq!(s.read_all(), Ok(b"0123456789".to_vec()));
}

#[test]
fn a_long_buffer_is_read_through() {
    let data: Vec<u8> = (0..200_000u32).map(|i| (i % 251) as u8).collect();
    let mut s = plain(&data);
    assert_eq!(s.read_all().unwrap(), data);
}

#[test]
fn only_the_given_length_is_taken() {
    let mut s: PlainSource = zip_source_buffer(None, Some(b"abcdef"), 3, 0).unwrap();
    assert_eq!(s.read_all().unwrap(), b"abc");
    let missing: Option<PlainSource> = zip_source_buffer(None, None, 1, 0);
    assert!(missing.is_none());
}

#[test]
fn buffer_create_reports_through_the_error_object() {
    let mut e = zip_error::new();
    let ok: Option<PlainSource> = zip_source_buffer_create(Some(b"x"), 1, 0, Some(&mut e));
    assert!(ok.is_some());
    assert_eq!(e.zip_err, 0);
    assert_eq!(e.str, Some("No error"));
    let bad: Option<PlainSource> = zip_source_buffer_create(None, 1, 0, Some(&mut e));
    assert!(bad.is_none());
    assert_eq!(e.zip_err, ZIP_ER_INVAL);
}

#[test]
fn seek_and_tell_in_memory() {
    let mut s = plain(b"0123456789");
    assert_eq!(zip_source_open(Some(&mut s)), 0);
    assert_eq!(zip_source_seek(Some(&mut s), 4, SEEK_SET), 0);
    assert_eq!(zip_source_tell(Some(&mut s)), 4);
    assert_eq!(zip_source_seek(Some(&mut s), 2, SEEK_CUR), 0);
    assert_eq!(zip_source_tell(Some(&mut s)), 6);
    assert_eq!(zip_source_seek(Some(&mut s), -3, SEEK_END), 0);
    assert_eq!(zip_source_tell(Some(&mut s)), 7);
    let mut b = vec![b'.'; 5];
    assert_eq!(zip_source_read(Some(&mut s), &mut b, 5), 3);
    assert_eq!(&b, b"789..");
    // Behind the end the position is the end.
    assert_eq!(zip_source_seek(Some(&mut s), 100, SEEK_SET), 0);
    assert_eq!(zip_source_tell(Some(&mut s)), 10);
    assert_eq!(zip_source_at_eof(Some(&mut s)), 1);
    assert_eq!(zip_source_seek(Some(&mut s), 0, SEEK_SET), 0);
    assert_eq!(zip_source_at_eof(Some(&mut s)), 0);
    // Refused: before the start, an unknown origin, an unreachable position.
    assert_eq!(zip_source_seek(Some(&mut s), -1, SEEK_SET), -1);
    assert_eq!(zip_source_error(Some(&mut s)).unwrap().zip_err, ZIP_ER_INVAL);
    assert_eq!(zip_source_seek(Some(&mut s), 0, 9), -1);
    assert_eq!(zip_source_seek(Some(&mut s), i64::MAX, SEEK_END), -1);
    assert_eq!(zip_source_tell(Some(&mut s)), 0);
    assert_eq!(zip_source_close(Some(&mut s)), 0);
}

#[test]
fn seek_targets() {
    let at = |offset, whence| compute_target(ZipSourceArgsSeek { offset, whence }, 20, 100);
    assert_eq!(at(7, SEEK_SET), Some(7));
    assert_eq!(at(7, SEEK_CUR), Some(27));
    assert_eq!(at(-100, SEEK_END), Some(0));
    assert_eq!(at(-101, SEEK_END), None);
    assert_eq!(at(i64::MAX, SEEK_CUR), None);
    assert_eq!(at(0, 3), None);
}

#[test]
fn a_source_reports_its_size() {
    let mut s = plain(b"abc");
    let mut sb = zip_stat::empty();
    sb.index = 77;
    assert_eq!(zip_source_stat(Some(&mut s), Some(&mut sb)), 0);
    assert_eq!(sb.valid, ZIP_STAT_SIZE);
    assert_eq!(sb.size, 3);
    assert_eq!(sb.index, 0);
    assert_eq!(zip_source_stat(Some(&mut s), None), -1);
    zip_stat_init(Some(&mut sb));
    assert_eq!(sb.valid, 0);
    assert_eq!(sb.size, 0);
    zip_stat_init(None);
}

#[test]
fn masks_of_memory_sources() {
    let mut s = plain(b"abc");
    assert_eq!(s.query_supports(), SRC_SEEKABLE | SRC_WRITE_MODE | SRC_AT_EOF);
    assert_eq!(zip_source_is_seekable(Some(&mut s)), 1);
    assert_eq!(zip_source_is_deleted(Some(&mut s)), 0);
    assert_eq!(SRC_WRITABLE, SRC_WRITE_MODE | src_bit(ZIP_SOURCE_REMOVE));
    assert_eq!(src_bit(ZIP_SOURCE_AT_EOF), SRC_AT_EOF);
    // The bit position wraps, so that every number can be asked for.
    assert_eq!(src_bit(64), 1);
    assert_eq!(src_bit(-1), i64::MIN);
}

#[test]
fn unsupported_commands_are_refused() {
    let mut s = plain(b"abc");
    let mut attrs = zip_file_attributes {
        valid: 9,
        version: 9,
        host_system: 9,
        ascii: 9,
        version_needed: 9,
        external_file_attributes: 9,
        general_purpose_bit_flags: 9,
        general_purpose_bit_mask: 9,
    };
    assert_eq!(zip_source_get_file_attributes(Some(&mut s), Some(&mut attrs)), -1);
    assert_eq!(zip_source_error(Some(&mut s)).unwrap().zip_err, ZIP_ER_OPNOTSUPP);
    assert_eq!(attrs.valid, 9);
    zip_file_attributes_init(Some(&mut attrs));
    assert_eq!(attrs.valid, 0);
    assert_eq!(attrs.version, 1);
    assert_eq!(attrs.external_file_attributes, 0);
    zip_file_attributes_init(None);
}

#[test]
fn the_last_error_can_be_asked_for() {
    let mut s = plain(b"abc");
    zip_source_seek(Some(&mut s), -1, SEEK_SET);
    let mut pair = CommandData::Error(ErrorPair { zip_err: 0, sys_err: 0 });
    assert_eq!(s.dispatch(ZIP_SOURCE_ERROR, &mut pair, 8), 0);
    assert!(matches!(
        pair,
        CommandData::Error(ErrorPair { zip_err: ZIP_ER_INVAL, sys_err: 0 })
    ));
    assert_eq!(s.dispatch(ZIP_SOURCE_ERROR, &mut pair, 7), -1);
    assert_eq!(s.dispatch(ZIP_SOURCE_ERROR, &mut CommandData::Null, 8), -1);
    let mut e = zip_error { zip_err: 4, sys_err: 4, str: None };
    zip_error_set_from_source(Some(&mut e), Some(&s));
    assert_eq!((e.zip_err, e.sys_err, e.str), (0, 0, Some("No error")));
}

#[test]
fn missing_sources_are_refused() {
    let none: fn() -> Option<&'static mut PlainSource> = || None;
    assert_eq!(zip_source_open(none()), -1);
    assert_eq!(zip_source_close(none()), -1);
    assert_eq!(zip_source_read(none(), &mut vec![0], 1), -1);
    assert_eq!(zip_source_seek(none(), 0, SEEK_SET), -1);
    assert_eq!(zip_source_tell(none()), -1);
    assert_eq!(zip_source_stat(none(), None), -1);
    assert_eq!(zip_source_at_eof(none()), -1);
    assert_eq!(zip_source_is_seekable(none()), -1);
    assert_eq!(zip_source_is_deleted(none()), -1);
    assert_eq!(zip_source_begin_write(none()), -1);
    assert_eq!(zip_source_begin_write_cloning(none(), 0), -1);
    assert_eq!(zip_source_write(none(), None, 0), -1);
    assert_eq!(zip_source_seek_write(none(), 0, SEEK_SET), -1);
    assert_eq!(zip_source_tell_write(none()), -1);
    assert_eq!(zip_source_commit_write(none()), -1);
    assert_eq!(zip_source_get_file_attributes(none(), None), -1);
    assert!(zip_source_error(none()).is_none());
    zip_source_keep(none());
    let nothing: Option<Box<PlainSource>> = None;
    assert!(zip_source_free(nothing).is_none());
    let mut d = CommandData::Null;
    assert_eq!(zip_source_pass_to_lower_layer(none(), &mut d, 0, ZIP_SOURCE_OPEN), 0);
    assert_eq!(zip_source_pass_to_lower_layer(none(), &mut d, 0, ZIP_SOURCE_STAT), 64);
    assert_eq!(zip_source_pass_to_lower_layer(none(), &mut d, 0, ZIP_SOURCE_READ), -1);
    assert_eq!(zip_source_pass_to_lower_layer(none(), &mut d, 8, ZIP_SOURCE_SUPPORTS), -1);
    let mut m = CommandData::Supports(5);
    assert_eq!(zip_source_pass_to_lower_layer(none(), &mut m, 8, ZIP_SOURCE_SUPPORTS), 5);
}

#[test]
fn holders_are_counted() {
    let mut s = plain(b"abc");
    zip_source_keep(Some(&mut s));
    let left = zip_source_free(Some(Box::new(s)));
    assert!(left.is_some());
    let mut left = left.unwrap();
    assert_eq!(left.node.refcount, 1);
    assert_eq!(left.read_all().unwrap(), b"abc");
    assert!(zip_source_free(Some(left)).is_none());
}

#[test]
fn freeing_a_layer_frees_what_is_below() {
    // Nobody else holds the lower source.
    let (crc, _) = zip_source_crc_create(boxed(b"abc"), 0);
    assert!(zip_source_free(crc.map(Box::new)).is_none());
    // Someone else holds it: it is what is left.
    let mut lower = boxed(b"abc");
    zip_source_keep(lower.as_deref_mut());
    let (crc, _) = zip_source_crc_create(lower, 0);
    let left = zip_source_free(crc.map(Box::new)).unwrap();
    assert_eq!(left.node.refcount, 1);
    assert!(matches!(left.backend, SourceBackend::Memory(_)));
}

#[test]
fn a_window_shows_a_part() {
    let mut errp = -1;
    let (w, left) = zip_source_window_create(boxed(b"0123456789"), 3, 4, Some(&mut errp));
    assert!(left.is_none());
    assert_eq!(errp, -1);
    let mut w = w.unwrap();
    assert_eq!(w.read_all().unwrap(), b"3456");
    assert_eq!(zip_source_seek(Some(&mut w), 2, SEEK_SET), 0);
    let mut b = vec![0; 9];
    assert_eq!(zip_source_read(Some(&mut w), &mut b, 9), 2);
    assert_eq!(&b[..2], b"56");
    assert_eq!(w.query_supports(), SRC_SEEKABLE | SRC_AT_EOF);
    // To the end, by either negative length, or cut to it.
    for len in [-1, -2, 100] {
        let (w, _) = zip_source_window_create(boxed(b"0123456789"), 7, len, None);
        assert_eq!(w.unwrap().read_all().unwrap(), b"789");
    }
    // At the end it is empty, behind the end there is none.
    let (w, _) = zip_source_window_create(boxed(b"0123456789"), 10, 5, None);
    assert_eq!(w.unwrap().read_all().unwrap(), b"");
    let (w, _) = zip_source_window_create(boxed(b"0123456789"), 11, -1, Some(&mut errp));
    assert!(w.is_none());
    assert_eq!(errp, ZIP_ER_INVAL);
    let (w, _) = zip_source_window_create(boxed(b"0123456789"), u64::MAX, 5, None);
    assert!(w.is_none());
    let nothing: Option<Box<PlainSource>> = None;
    let (w, left) = zip_source_window_create(nothing, 0, -1, None);
    assert!(w.is_none() && left.is_none());
}

#[test]
fn a_window_keeps_the_modification_time() {
    let read = FileContent { data: b"file".to_vec(), mtime: Some(1_600_000_000) };
    let file: Option<PlainSource> = zip_source_file_create(Ok(read), 0, -1, None);
    let (w, _) = zip_source_window_create(file.map(Box::new), 1, 2, None);
    let mut w = w.unwrap();
    let mut sb = zip_stat::empty();
    assert_eq!(zip_source_stat(Some(&mut w), Some(&mut sb)), 0);
    assert_eq!(sb.valid, ZIP_STAT_SIZE | ZIP_STAT_MTIME);
    assert_eq!(sb.mtime, 1_600_000_000);
    assert_eq!(sb.size, 2);
}

#[test]
fn a_kept_source_survives_its_window() {
    let mut s = boxed(b"0123456789");
    zip_source_keep(s.as_deref_mut());
    let (w, left) = zip_source_window_create(s, 0, 2, None);
    assert_eq!(w.unwrap().read_all().unwrap(), b"01");
    assert_eq!(left.unwrap().node.refcount, 1);
}

#[test]
fn files_are_sources() {
    let mut errp = 0;
    let read = FileContent { data: b"content".to_vec(), mtime: None };
    let s: Option<PlainSource> = zip_source_file_create(Ok(read), 3, 2, Some(&mut errp));
    assert_eq!(s.unwrap().read_all().unwrap(), b"te");
    assert_eq!(errp, 0);
    // Every failure is a failure to open.
    let s: Option<PlainSource> = zip_source_file_create(Err(5), 0, -1, Some(&mut errp));
    assert!(s.is_none());
    assert_eq!(errp, 11);
    // With checked lengths the code of the failure is kept.
    let s: Option<PlainSource> = zip_source_win32a_create(Err(5), 0, -1, Some(&mut errp));
    assert!(s.is_none());
    assert_eq!(errp, 5);
    let read = FileContent { data: b"content".to_vec(), mtime: None };
    let s: Option<PlainSource> = zip_source_win32a_create(Ok(read), 0, -3, Some(&mut errp));
    assert!(s.is_none());
    assert_eq!(errp, ZIP_ER_INVAL);
    let read = FileContent { data: b"content".to_vec(), mtime: None };
    let s: Option<PlainSource> = zip_source_win32a_create(Ok(read), 0, -2, None);
    assert_eq!(s.unwrap().read_all().unwrap(), b"content");
}

#[test]
fn fragments_are_joined() {
    let frags = vec![
        zip_buffer_fragment { data: Some(b"Hello, ".to_vec()), length: 7 },
        zip_buffer_fragment { data: None, length: 0 },
        zip_buffer_fragment { data: Some(b"world!!".to_vec()), length: 5 },
    ];
    let mut errp = -1;
    let s: Option<PlainSource> =
        zip_source_buffer_fragment_create(Some(&frags), 3, 0, Some(&mut errp));
    let mut s = s.unwrap();
    assert_eq!(s.read_all().unwrap(), b"Hello, world");
    assert_eq!(errp, -1);
    let mut sb = zip_stat::empty();
    assert_eq!(zip_source_stat(Some(&mut s), Some(&mut sb)), 0);
    assert_eq!(
        sb.valid,
        ZIP_STAT_SIZE
            | ZIP_STAT_COMP_SIZE
            | ZIP_STAT_MTIME
            | ZIP_STAT_COMP_METHOD
            | ZIP_STAT_ENCRYPTION_METHOD
    );
    assert_eq!((sb.size, sb.comp_size, sb.comp_method), (12, 12, 0));
    // The time is that of the clock.
    assert!(sb.mtime > 1_500_000_000);
    let s: Option<PlainSource> = zip_buffer_fragment(Some(&frags), 1, 0, None);
    assert_eq!(s.unwrap().read_all().unwrap(), b"Hello, ");
    let s: Option<PlainSource> = zip_buffer_fragment(None, 0, 0, None);
    assert_eq!(s.unwrap().read_all().unwrap(), b"");
}

#[test]
fn missing_fragments_are_refused() {
    let mut errp = -1;
    let s: Option<PlainSource> = zip_source_buffer_fragment_create(None, 1, 0, Some(&mut errp));
    assert!(s.is_none());
    assert_eq!(errp, ZIP_ER_INVAL);
    let frags = vec![zip_buffer_fragment { data: None, length: 3 }];
    let s: Option<PlainSource> = zip_source_buffer_fragment_create(Some(&frags), 1, 0, None);
    assert!(s.is_none());
}

#[test]
fn crc_of_the_check_string() {
    assert_eq!(crc32(b"123456789"), 0xCBF4_3926);
    assert_eq!(crc32(b""), 0);
}

#[test]
fn crc_bit_by_bit() {
    let data: Vec<u8> = (0..300u32).map(|i| (i * 7 + i / 3) as u8).collect();
    let mut sum = 0u32;
    for n in 0..data.len() {
        assert_eq!(crc32(&data[..n]), sum);
        let mut c = !sum ^ u32::from(data[n]);
        for _ in 0..8 {
            c = if c & 1 == 1 { (c >> 1) ^ 0xEDB8_8320 } else { c >> 1 };
        }
        sum = !c;
    }
}

#[test]
fn a_crc_layer_sums_what_passes() {
    let (crc, _) = zip_source_crc_create(boxed(b"123456789"), 1);
    let mut crc = crc.unwrap();
    let mut sb = zip_stat::empty();
    // Nothing is known before the end was reached.
    assert_eq!(zip_source_stat(Some(&mut crc), Some(&mut sb)), 0);
    assert_eq!(sb.valid, 0);
    assert_eq!(crc.read_all().unwrap(), b"123456789");
    assert_eq!(zip_source_stat(Some(&mut crc), Some(&mut sb)), 0);
    assert_eq!(
        sb.valid,
        ZIP_STAT_SIZE
            | ZIP_STAT_CRC
            | ZIP_STAT_COMP_SIZE
            | ZIP_STAT_COMP_METHOD
            | ZIP_STAT_ENCRYPTION_METHOD
    );
    assert_eq!((sb.size, sb.comp_size, sb.crc), (9, 9, 0xCBF4_3926));
    assert_eq!(sb.comp_method, ZIP_CM_STORE as u16);
}

#[test]
fn a_crc_layer_sums_in_parts() {
    let (crc, _) = zip_source_crc_create(boxed(b"123456789"), 0);
    let mut crc = crc.unwrap();
    assert_eq!(zip_source_open(Some(&mut crc)), 0);
    let mut b = vec![0; 4];
    for n in [4, 4, 1, 0] {
        assert_eq!(zip_source_read(Some(&mut crc), &mut b, 4), n);
    }
    assert_eq!(zip_source_at_eof(Some(&mut crc)), 1);
    if let SourceBackend::Layered { layer: Layer::Crc(ctx), .. } = &crc.backend {
        assert!(ctx.crc_complete);
        assert_eq!(ctx.crc, 0xCBF4_3926);
        assert_eq!(ctx.size, 9);
    } else {
        panic!("not a layer");
    }
}

#[test]
fn a_gap_keeps_the_crc_open() {
    let (crc, _) = zip_source_crc_create(boxed(b"123456789"), 0);
    let mut crc = crc.unwrap();
    assert_eq!(zip_source_open(Some(&mut crc)), 0);
    let mut b = vec![0; 9];
    assert_eq!(zip_source_read(Some(&mut crc), &mut b, 2), 2);
    assert_eq!(zip_source_seek(Some(&mut crc), 5, SEEK_SET), 0);
    assert_eq!(zip_source_tell(Some(&mut crc)), 5);
    assert_eq!(zip_source_read(Some(&mut crc), &mut b, 9), 4);
    assert_eq!(zip_source_read(Some(&mut crc), &mut b, 9), 0);
    let mut sb = zip_stat::empty();
    assert_eq!(zip_source_stat(Some(&mut crc), Some(&mut sb)), 0);
    assert_eq!(sb.valid, 0);
    assert_eq!(zip_source_seek(Some(&mut crc), -1, SEEK_SET), -1);
}

#[test]
fn layers_refuse_write_mode() {
    let (crc, _) = zip_source_crc_create(boxed(b"abc"), 0);
    let mut crc = crc.unwrap();
    assert_eq!(crc.node.supports & SRC_WRITABLE, 0);
    assert_ne!(crc.node.supports & src_bit(ZIP_SOURCE_FREE), 0);
    assert_eq!(zip_source_begin_write(Some(&mut crc)), -1);
    assert_eq!(zip_source_error(Some(&mut crc)).unwrap().zip_err, ZIP_ER_OPNOTSUPP);
    assert_eq!(zip_source_begin_write_cloning(Some(&mut crc), 0), -1);
    assert_eq!(zip_source_commit_write(Some(&mut crc)), -1);
    assert_eq!(zip_source_tell_write(Some(&mut crc)), -1);
    assert_eq!(zip_source_seek_write(Some(&mut crc), 0, SEEK_SET), -1);
    let mut d = CommandData::Bytes(vec![1]);
    assert_eq!(crc.dispatch(ZIP_SOURCE_WRITE, &mut d, 1), -1);
    // The refusal is recorded on the source below.
    if let SourceBackend::Layered { lower, .. } = &crc.backend {
        assert_eq!(lower.node.error.zip_err, ZIP_ER_OPNOTSUPP);
    }
}

/// A layer that compresses by flate2.
enum TestLayer {
    Compress(CompressCtx),
}

impl LayeredCallback<NoCallback> for TestLayer {
    fn call_over(
        &mut self,
        lower: &mut ZipSource<NoCallback, TestLayer>,
        data: &mut CommandData,
        len: u64,
        cmd: i32,
    ) -> i64 {
        let TestLayer::Compress(ctx) = self;
        match compress_layered_cb(lower, ctx, data, len, cmd) {
            CompressAnswer::Done(r) => r,
            CompressAnswer::Encode(raw) => {
                let mut encoder = flate2::read::DeflateEncoder::new(
                    &raw[..],
                    flate2::Compression::new(COMPRESSION_LEVEL),
                );
                let mut out = Vec::new();
                let encoded = encoder.read_to_end(&mut out).ok().map(|_| out);
                ctx.opened(raw, encoded)
            }
        }
    }
}

fn inflate(bytes: &[u8]) -> Vec<u8> {
    let mut out = Vec::new();
    flate2::read::DeflateDecoder::new(bytes).read_to_end(&mut out).unwrap();
    out
}

#[test]
fn a_pipeline_of_layers() {
    let data: Vec<u8> = b"pipeline payload ".repeat(400);
    let read = FileContent { data: data.clone(), mtime: Some(7) };
    let file: Option<ZipSource<NoCallback, TestLayer>> =
        zip_source_file_create(Ok(read), 0, -1, None);
    let (window, _) = zip_source_window_create(file.map(Box::new), 0, -1, None);
    let (crc, _) = zip_source_crc_create(window.map(Box::new), 0);
    let (comp, _) = zip_source_layered_create(
        crc.map(Box::new),
        Some(TestLayer::Compress(CompressCtx::new(ZIP_CM_DEFLATE))),
        None,
    );
    let mut comp = comp.unwrap();
    let packed = comp.read_all().unwrap();
    assert!(packed.len() < data.len());
    assert_eq!(inflate(&packed), data);
    let mut sb = zip_stat::empty();
    assert_eq!(zip_source_stat(Some(&mut comp), Some(&mut sb)), 0);
    assert_eq!(sb.valid, ZIP_STAT_COMP_SIZE | ZIP_STAT_COMP_METHOD);
    assert_eq!(sb.comp_size, packed.len() as u64);
    assert_eq!(sb.comp_method, ZIP_CM_DEFLATE as u16);
    assert_eq!(
        comp.query_supports(),
        SRC_READABLE
            | src_bit(ZIP_SOURCE_GET_FILE_ATTRIBUTES)
            | src_bit(ZIP_SOURCE_SUPPORTS_REOPEN)
    );
    // The CRC layer below has seen all of it.
    if let SourceBackend::Layered { lower, .. } = &comp.backend {
        if let SourceBackend::Layered { layer: Layer::Crc(ctx), .. } = &lower.backend {
            assert_eq!(ctx.crc, crc32(&data));
        } else {
            panic!("no CRC layer");
        }
    }
}

#[test]
fn a_stream_that_is_not_encoded_passes_as_it_is() {
    let mut lower = plain(b"raw stream");
    let mut ctx = CompressCtx::new(ZIP_CM_STORE);
    let mut nothing = CommandData::Null;
    let raw = match compress_layered_cb(&mut lower, &mut ctx, &mut nothing, 0, ZIP_SOURCE_OPEN) {
        CompressAnswer::Encode(raw) => raw,
        CompressAnswer::Done(_) => panic!("nothing to encode"),
    };
    assert_eq!(raw, b"raw stream");
    assert_eq!(ctx.opened(raw, None), 0);
    assert!(ctx.end_of_stream);
    let mut buf = CommandData::Bytes(vec![0; 6]);
    let r = compress_layered_cb(&mut lower, &mut ctx, &mut buf, 6, ZIP_SOURCE_READ);
    assert!(matches!(r, CompressAnswer::Done(6)));
    assert!(matches!(&buf, CommandData::Bytes(b) if b == b"raw st"));
    let r = compress_layered_cb(&mut lower, &mut ctx, &mut nothing, 0, ZIP_SOURCE_STAT);
    assert!(matches!(r, CompressAnswer::Done(-1)));
    assert_eq!(ctx.err_zip, ZIP_ER_INVAL);
    let mut pair = CommandData::Error(ErrorPair { zip_err: 0, sys_err: 0 });
    let r = compress_layered_cb(&mut lower, &mut ctx, &mut pair, 8, ZIP_SOURCE_ERROR);
    assert!(matches!(r, CompressAnswer::Done(0)));
    assert!(matches!(pair, CommandData::Error(ErrorPair { zip_err: ZIP_ER_INVAL, .. })));
}

/// A source that answers every command with the same number.
struct Constant(i64);

impl SourceCallback for Constant {
    fn call(&mut self, _data: &mut CommandData, _len: u64, _cmd: i32) -> i64 {
        self.0
    }
}

fn constant(answer: i64) -> ZipSource<Constant, NoCallback> {
    zip_source_function_create(Some(Constant(answer)), None).unwrap()
}

#[test]
fn stubborn_sources_do_no_harm() {
    assert_eq!(constant(-1).read_all(), Err(ReadFailure::Failed));
    assert_eq!(constant(0).read_all(), Ok(vec![]));
    assert_eq!(constant(70_000).read_all(), Err(ReadFailure::Overrun));
    let mut s = constant(-5);
    assert_eq!(zip_source_open(Some(&mut s)), -1);
    assert_eq!(zip_source_error(Some(&mut s)).unwrap().zip_err, ZIP_ER_OPNOTSUPP);
    assert_eq!(zip_source_read(Some(&mut s), &mut vec![0], 1), -5);
    assert_eq!(zip_source_error(Some(&mut s)).unwrap().zip_err, ZIP_ER_READ);
    // Without an answer the mask known so far counts, and so does the note of
    // the last read.
    assert_eq!(zip_source_is_seekable(Some(&mut s)), 1);
    assert_eq!(zip_source_at_eof(Some(&mut s)), 0);
    let mut s = constant(0);
    assert_eq!(zip_source_read(Some(&mut s), &mut vec![0], 1), 0);
    assert!(s.node.eof);
    let mut s = constant(9);
    assert_eq!(zip_source_at_eof(Some(&mut s)), 1);
    let mut s = constant(0x8000);
    assert_eq!(zip_source_is_deleted(Some(&mut s)), 1);
    let mut errp = 0;
    let none: Option<ZipSource<Constant, NoCallback>> =
        zip_source_function_create(None, Some(&mut errp));
    assert!(none.is_none());
    assert_eq!(errp, ZIP_ER_INVAL);
    let none: Option<ZipSource<Constant, NoCallback>> = zip_source_function(None, None);
    assert!(none.is_none());
}

#[test]
fn writes_leave_zeros_in_gaps() {
    let mut s = plain(b"old");
    assert_eq!(zip_source_begin_write(Some(&mut s)), 0);
    assert_eq!(zip_source_write(Some(&mut s), Some(b"ab"), 2), 2);
    assert_eq!(zip_source_seek_write(Some(&mut s), 3, SEEK_CUR), 0);
    assert_eq!(zip_source_tell_write(Some(&mut s)), 5);
    assert_eq!(zip_source_write(Some(&mut s), Some(b"z"), 1), 1);
    assert_eq!(zip_source_seek_write(Some(&mut s), -5, SEEK_END), 0);
    assert_eq!(zip_source_write(Some(&mut s), Some(b"B"), 1), 1);
    assert_eq!(zip_source_seek_write(Some(&mut s), -1, SEEK_SET), -1);
    assert_eq!(zip_source_seek_write(Some(&mut s), 0, 7), -1);
    // A write without bytes behind the end still fills up to there.
    assert_eq!(zip_source_seek_write(Some(&mut s), 8, SEEK_SET), 0);
    assert_eq!(zip_source_write(Some(&mut s), None, 0), 0);
    assert_eq!(zip_source_write(Some(&mut s), None, 1), -1);
    assert_eq!(zip_source_commit_write(Some(&mut s)), 0);
    assert_eq!(s.read_all().unwrap(), b"aB\0\0\0z\0\0");
    let mut sb = zip_stat::empty();
    assert_eq!(zip_source_stat(Some(&mut s), Some(&mut sb)), 0);
    assert_eq!(sb.size, 8);
}

#[test]
fn impossible_writes_are_refused() {
    let mut s = plain(b"");
    assert_eq!(zip_source_begin_write(Some(&mut s)), 0);
    assert_eq!(zip_source_seek_write(Some(&mut s), i64::MAX, SEEK_SET), 0);
    assert_eq!(zip_source_write(Some(&mut s), Some(b"x"), 1), -1);
    assert_eq!(zip_source_tell_write(Some(&mut s)), i64::MAX);
    assert_eq!(zip_source_begin_write_cloning(Some(&mut s), 0), -1);
    assert_eq!(zip_source_error(Some(&mut s)).unwrap().zip_err, ZIP_ER_INVAL);
}

#[test]
fn cloning_cannot_go_beyond_the_content() {
    let mut s = plain(b"abc");
    assert_eq!(zip_source_begin_write_cloning(Some(&mut s), 4), -1);
    assert_eq!(zip_source_begin_write_cloning(Some(&mut s), 3), 0);
    assert_eq!(zip_source_commit_write(Some(&mut s)), 0);
    assert_eq!(s.read_all().unwrap(), b"abc");
}

#[test]
fn beginning_to_write_clears_the_error() {
    let mut s = plain(b"abc");
    zip_source_seek(Some(&mut s), -1, SEEK_SET);
    assert_eq!(s.node.error.zip_err, ZIP_ER_INVAL);
    assert_eq!(zip_source_begin_write(Some(&mut s)), 0);
    assert_eq!(s.node.error.zip_err, 0);
}

#[test]
fn pieces_are_read_as_one() {
    let mut s = plain(b"what was there before");
    assert_eq!(zip_source_begin_write(Some(&mut s)), 0);
    let pieces: [&[u8]; 4] = [b"one ", b"", b"after ", b"another"];
    for p in pieces {
        assert_eq!(zip_source_write(Some(&mut s), Some(p), p.len() as u64), p.len() as i64);
    }
    assert_eq!(zip_source_tell_write(Some(&mut s)), 17);
    assert_eq!(zip_source_commit_write(Some(&mut s)), 0);
    assert_eq!(s.read_all().unwrap(), b"one after another");
}

/// A source that gives two bytes with each read.
struct Pairs {
    data: Vec<u8>,
    at: usize,
}

impl SourceCallback for Pairs {
    fn call(&mut self, data: &mut CommandData, _len: u64, cmd: i32) -> i64 {
        match (cmd, data) {
            (ZIP_SOURCE_OPEN, _) => 0,
            (ZIP_SOURCE_SUPPORTS, _) => SRC_READABLE,
            (ZIP_SOURCE_READ, CommandData::Bytes(out)) => {
                let n = (self.data.len() - self.at).min(2);
                out[..n].copy_from_slice(&self.data[self.at..self.at + n]);
                self.at += n;
                n as i64
            }
            _ => -1,
        }
    }
}

#[test]
fn a_crc_layer_over_a_users_source() {
    let pairs = Pairs { data: b"123456789".to_vec(), at: 0 };
    let lower: ZipSource<Pairs, NoCallback> =
        zip_source_function_create(Some(pairs), None).unwrap();
    let (crc, _) = zip_source_crc_create(Some(Box::new(lower)), 0);
    let mut crc = crc.unwrap();
    assert_eq!(crc.read_all().unwrap(), b"123456789");
    if let SourceBackend::Layered { layer: Layer::Crc(ctx), .. } = &crc.backend {
        assert!(ctx.crc_complete);
        assert_eq!((ctx.crc, ctx.size), (0xCBF4_3926, 9));
    } else {
        panic!("not a layer");
    }
}

/// A source that notes its commands and gives each its own answer.
struct Listing {
    log: Vec<(i32, u64)>,
    tell: i64,
}

impl SourceCallback for Listing {
    fn call(&mut self, data: &mut CommandData, len: u64, cmd: i32) -> i64 {
        self.log.push((cmd, len));
        match (cmd, data) {
            (ZIP_SOURCE_SUPPORTS, _) => SRC_SEEKABLE,
            (ZIP_SOURCE_SEEK, CommandData::Seek(args)) => args.offset.min(0),
            (ZIP_SOURCE_TELL, CommandData::Null) => self.tell,
            (ZIP_SOURCE_AT_EOF, _) => 11,
            (ZIP_SOURCE_ACCEPT_EMPTY, _) => 12,
            (ZIP_SOURCE_GET_DOS_TIME, _) => 13,
            _ => -1,
        }
    }
}

/// A layer that hands every command down.
struct Down;

impl LayeredCallback<Listing> for Down {
    fn call_over(
        &mut self,
        lower: &mut ZipSource<Listing, Down>,
        data: &mut CommandData,
        len: u64,
        cmd: i32,
    ) -> i64 {
        lower.dispatch(cmd, data, len)
    }
}

/// The commands that have come down to the source at the bottom.
fn listed(s: &ZipSource<Listing, Down>) -> &Vec<(i32, u64)> {
    match &s.backend {
        SourceBackend::Function(f) => &f.log,
        SourceBackend::Layered { lower, .. } => listed(lower),
        SourceBackend::Memory(_) => panic!("not a user's source"),
    }
}

#[test]
fn a_crc_layer_asks_the_source_below() {
    for layers in [0, 1] {
        for tell in [4, -1] {
            let mut lower: ZipSource<Listing, Down> =
                zip_source_function_create(Some(Listing { log: vec![], tell }), None).unwrap();
            if layers == 1 {
                lower = zip_source_layered_create(Some(Box::new(lower)), Some(Down), None)
                    .0
                    .unwrap();
            }
            let mut ctx = CrcCtx {
                validate: 0,
                crc_complete: false,
                size: 0,
                position: 0,
                crc_position: 0,
                crc: 0,
                running: 0,
                err_zip: 0,
                err_sys: 0,
            };
            let mut none = CommandData::Null;
            let before = listed(&lower).len();
            for (cmd, answer) in [
                (ZIP_SOURCE_AT_EOF, 11),
                (ZIP_SOURCE_ACCEPT_EMPTY, 12),
                (ZIP_SOURCE_GET_DOS_TIME, 13),
            ] {
                assert_eq!(crc_layered_cb(&mut lower, &mut ctx, &mut none, 3, cmd), answer);
                assert_eq!(listed(&lower).last(), Some(&(cmd, 3)));
            }
            assert_eq!(listed(&lower).len(), before + 3);
            // A seek is a seek and a question for the position.
            let mut there = CommandData::Seek(ZipSourceArgsSeek { offset: 4, whence: SEEK_SET });
            let r = crc_layered_cb(&mut lower, &mut ctx, &mut there, 16, ZIP_SOURCE_SEEK);
            assert_eq!(r, if tell < 0 { -1 } else { 0 });
            assert_eq!(ctx.position, if tell < 0 { 0 } else { 4 });
            assert_eq!(
                listed(&lower)[before + 3..],
                [(ZIP_SOURCE_SEEK, 16), (ZIP_SOURCE_TELL, 0)]
            );
            // One that fails is the last question.
            let mut bad = CommandData::Seek(ZipSourceArgsSeek { offset: -4, whence: SEEK_SET });
            assert_eq!(crc_layered_cb(&mut lower, &mut ctx, &mut bad, 16, ZIP_SOURCE_SEEK), -1);
            assert_eq!(listed(&lower).len(), before + 6);
            // What is no seek argument goes to nobody.
            assert_eq!(crc_layered_cb(&mut lower, &mut ctx, &mut none, 16, ZIP_SOURCE_SEEK), -1);
            assert_eq!(listed(&lower).len(), before + 6);
            assert_eq!(ctx.err_zip, ZIP_ER_INVAL);
        }
    }
}
