use kzip::consts::{
    ZIP_CM_BZIP2, ZIP_CM_DEFAULT, ZIP_CM_DEFLATE, ZIP_CM_LZMA, ZIP_CM_STORE, ZIP_CREATE,
    ZIP_EM_AES_128, ZIP_EM_AES_192, ZIP_EM_AES_256, ZIP_EM_NONE, ZIP_EM_TRAD_PKWARE,
    ZIP_ER_INVAL, ZIP_ER_OPEN,
};
use kzip::edit::zip_encryption_method_supported;
use kzip::errors::zip_error;
use kzip::metadata::zip_compression_method_supported;
use kzip::open::{zip_fdopen, zip_open_from_source};
use kzip::source::PlainSource;
use kzip::source_new::zip_source_buffer;

#[test]
fn encryption_method_supported() {
    assert_eq!(zip_compression_method_supported(ZIP_CM_STORE, 1), 1);
    assert_eq!(zip_compression_method_supported(ZIP_CM_DEFLATE, 1), 1);
    assert_eq!(zip_compression_method_supported(ZIP_CM_DEFAULT, 1), 1);
    assert_eq!(zip_compression_method_supported(ZIP_CM_BZIP2, 1), 0);
    assert_eq!(zip_compression_method_supported(ZIP_CM_BZIP2, 0), 1);
    assert_eq!(zip_compression_method_supported(ZIP_CM_LZMA, 1), 0);
    assert_eq!(zip_compression_method_supported(ZIP_CM_LZMA, 0), 0);
    assert_eq!(zip_compression_method_supported(99, 1), 0);
    assert_eq!(zip_encryption_method_supported(ZIP_EM_NONE, 1), 1);
    assert_eq!(zip_encryption_method_supported(ZIP_EM_TRAD_PKWARE, 1), 1);
    assert_eq!(zip_encryption_method_supported(ZIP_EM_AES_128, 1), 1);
    assert_eq!(zip_encryption_method_supported(ZIP_EM_AES_192, 1), 1);
    assert_eq!(zip_encryption_method_supported(ZIP_EM_AES_256, 1), 1);
    assert_eq!(zip_encryption_method_supported(99, 1), 0);
}

#[test]
fn compression_method_supported() {
    assert_eq!(zip_compression_method_supported(ZIP_CM_STORE, 0), 1);
    assert_eq!(zip_compression_method_supported(ZIP_CM_STORE, 1), 1);
    assert_eq!(zip_compression_method_supported(ZIP_CM_DEFLATE, 0), 1);
    assert_eq!(zip_compression_method_supported(ZIP_CM_DEFLATE, 1), 1);
    assert_eq!(zip_compression_method_supported(ZIP_CM_DEFAULT, 0), 1);
    assert_eq!(zip_compression_method_supported(ZIP_CM_DEFAULT, 1), 1);
    assert_eq!(zip_compression_method_supported(ZIP_CM_BZIP2, 0), 1);
    assert_eq!(zip_compression_method_supported(ZIP_CM_BZIP2, 1), 0);
    assert_eq!(zip_compression_method_supported(ZIP_CM_LZMA, 0), 0);
    assert_eq!(zip_compression_method_supported(ZIP_CM_LZMA, 1), 0);
    assert_eq!(zip_compression_method_supported(99, 0), 0);
    assert_eq!(zip_compression_method_supported(99, 1), 0);
}

/// The code of "Not a zip archive".
const NOZIP: i32 = 19;

#[test]
fn open_from_source_malformed_no_panic() {
    // No source -> INVAL (18), no handle, no panic.
    let mut err = zip_error { zip_err: -1, sys_err: 0, str: None };
    let none: Option<&mut PlainSource> = None;
    let zh = zip_open_from_source(
        none,
        0,
        Some(&mut err),
        |_bytes| Err(NOZIP),
        || Err(NOZIP),
    );
    assert!(zh.is_none());
    assert_eq!(err.zip_err, ZIP_ER_INVAL);

    // Zero-length buffer source -> NOZIP (19), no handle, no panic.
    let empty: Option<PlainSource> = zip_source_buffer(None, None, 0, 0);
    let mut empty = empty.unwrap();
    let mut err2 = zip_error { zip_err: -1, sys_err: 0, str: None };
    let zh2 = zip_open_from_source(
        Some(&mut empty),
        0,
        Some(&mut err2),
        |bytes| {
            assert!(bytes.is_empty());
            Err(NOZIP)
        },
        || unreachable!(),
    );
    assert!(zh2.is_none());
    assert_eq!(err2.zip_err, NOZIP);
}

#[test]
fn fdopen_malformed_no_panic() {
    // Invalid fd (-1) -> ZIP_ER_OPEN (11), no panic.
    let mut errp = -1;
    let _zh = zip_fdopen(-1, 0, Some(&mut errp), |_fd| unreachable!(), |_bytes| unreachable!());
    assert_eq!(errp, ZIP_ER_OPEN);

    // Unsupported flags -> ZIP_ER_INVAL (18), no panic.
    let mut errp2 = -1;
    let zh2 = zip_fdopen(
        -1,
        ZIP_CREATE,
        Some(&mut errp2),
        |_fd| unreachable!(),
        |_bytes| unreachable!(),
    );
    assert!(zh2.is_none());
    assert_eq!(errp2, ZIP_ER_INVAL);
}
