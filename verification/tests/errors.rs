use kzip::consts::{
    ZIP_AFL_RDONLY, ZIP_ET_LIBZIP, ZIP_ET_NONE, ZIP_ET_SYS, ZIP_ET_ZLIB,
};
use kzip::entry::{zip_file_error_clear, zip_file_error_get, zip_file_get_error};
use kzip::errors::{
    err_cstr, err_str, error_string, zip_error, zip_error_code_system, zip_error_code_zip,
    zip_error_fini, zip_error_get_sys_type, zip_error_init, zip_error_init_with_code,
    zip_error_set, zip_error_strerror, zip_error_system_type, zip_error_to_data,
    zip_error_to_str, ErrorPair,
};
use kzip::handle::zip_get_num_files;
use kzip::revert::{
    zip_get_archive_flag, zip_set_archive_flag, zip_unchange, zip_unchange_all,
    zip_unchange_archive,
};

#[test]
fn err_str_matches_libzip_exactly() {
    let expected: &[(i32, &str)] = &[
        (0, "No error"),
        (1, "Multi-disk zip archives not supported"),
        (2, "Renaming temporary file failed"),
        (3, "Closing zip archive failed"),
        (4, "Seek error"),
        (5, "Read error"),
        (6, "Write error"),
        (7, "CRC error"),
        (8, "Containing zip archive was closed"),
        (9, "No such file"),
        (10, "File already exists"),
        (11, "Can't open file"),
        (12, "Failure to create temporary file"),
        (13, "Zlib error"),
        (14, "Malloc failure"),
        (15, "Entry has been changed"),
        (16, "Compression method not supported"),
        (17, "Premature end of file"),
        (18, "Invalid argument"),
        (19, "Not a zip archive"),
        (20, "Internal error"),
        (21, "Zip archive inconsistent"),
        (22, "Can't remove file"),
        (23, "Entry has been deleted"),
        (24, "Encryption method not supported"),
        (25, "Read-only archive"),
        (26, "No password provided"),
        (27, "Wrong password provided"),
        (28, "Operation not supported"),
        (29, "Resource still in use"),
        (30, "Tell error"),
        (31, "Compressed data invalid"),
        (32, "Operation cancelled"),
        (33, "Unexpected length of data"),
        (34, "Not allowed in torrentzip"),
        (35, "Possibly truncated or corrupted zip archive"),
        (36, "Extra fields too large"),
        (37, "Decompressed data exceeds the size limit"),
        (38, "Central directory too large"),
    ];
    for &(code, want) in expected {
        assert_eq!(err_str(code), want, "err_str({code}) must match libzip exactly");
    }
}

#[test]
fn unknown_codes_are_internal_errors() {
    assert_eq!(err_str(39), "Internal error");
    assert_eq!(err_str(-1), "Internal error");
    assert_eq!(err_str(i32::MAX), "Internal error");
}

#[test]
fn c_messages_end_in_nul() {
    assert_eq!(err_cstr(9), b"No such file\0".to_vec());
    assert_eq!(err_cstr(-3), b"Internal error\0".to_vec());
}

#[test]
fn error_get_sys_type() {
    assert_eq!(zip_error_get_sys_type(5), ZIP_ET_SYS);
    assert_eq!(zip_error_get_sys_type(11), ZIP_ET_SYS);
    assert_eq!(zip_error_get_sys_type(13), ZIP_ET_ZLIB);
    assert_eq!(zip_error_get_sys_type(21), ZIP_ET_LIBZIP);
    assert_eq!(zip_error_get_sys_type(9), ZIP_ET_NONE);
    assert_eq!(zip_error_get_sys_type(27), ZIP_ET_NONE);
    assert_eq!(zip_error_get_sys_type(999), ZIP_ET_NONE);
    assert_eq!(zip_error_get_sys_type(-5), ZIP_ET_NONE);
}

#[test]
fn phase7_malformed_no_panic() {
    assert_eq!(zip_get_archive_flag(None, ZIP_AFL_RDONLY, 0), -1);
    assert_eq!(zip_set_archive_flag(None, ZIP_AFL_RDONLY, 1), -1);
    assert_eq!(zip_unchange(None, 0), -1);
    assert_eq!(zip_unchange_all(None), -1);
    assert_eq!(zip_unchange_archive(None), -1);
    assert_eq!(zip_get_num_files(None), -1);
    assert!(zip_file_get_error(None).is_none());
    zip_file_error_clear(None);
    zip_file_error_get(None, None, None);
    assert_eq!(zip_error_get_sys_type(13), ZIP_ET_ZLIB);
}

#[test]
fn every_system_code_is_known() {
    for code in 0..40 {
        let want = match code {
            2 | 3 | 4 | 5 | 6 | 11 | 12 | 22 | 30 => ZIP_ET_SYS,
            13 => ZIP_ET_ZLIB,
            21 => ZIP_ET_LIBZIP,
            _ => ZIP_ET_NONE,
        };
        assert_eq!(zip_error_get_sys_type(code), want, "code {code}");
    }
}

#[test]
fn error_object_lives_through_its_functions() {
    let mut e = zip_error::new();
    zip_error_init(Some(&mut e));
    assert_eq!(zip_error_code_zip(Some(&e)), 0);
    assert_eq!(e.str, None);
    // A message is attached on demand.
    assert_eq!(zip_error_strerror(Some(&mut e)), Some("No error"));
    zip_error_init_with_code(Some(&mut e), 9);
    assert_eq!(zip_error_code_zip(Some(&e)), 9);
    assert_eq!(zip_error_strerror(Some(&mut e)), Some("No such file"));
    assert_eq!(zip_error_system_type(Some(&e)), ZIP_ET_NONE);
    zip_error_set(Some(&mut e), 11, 2);
    assert_eq!(zip_error_code_zip(Some(&e)), 11);
    assert_eq!(zip_error_code_system(Some(&e)), 2);
    assert_eq!(zip_error_system_type(Some(&e)), ZIP_ET_SYS);
    assert_eq!(zip_error_strerror(Some(&mut e)), Some("Can't open file"));
    zip_error_fini(Some(&mut e));
    assert_eq!(zip_error_code_zip(Some(&e)), 0);
    assert_eq!(zip_error_code_system(Some(&e)), 0);
    assert_eq!(e.str, None);
}

#[test]
fn error_functions_accept_no_object() {
    zip_error_init(None);
    zip_error_init_with_code(None, 5);
    zip_error_set(None, 5, 1);
    zip_error_fini(None);
    assert_eq!(zip_error_strerror(None), None);
    assert_eq!(zip_error_code_zip(None), -1);
    assert_eq!(zip_error_code_system(None), -1);
    assert_eq!(zip_error_system_type(None), -1);
    assert_eq!(zip_error_to_str(None, 10, 5, 0), -1);
}

#[test]
fn a_message_once_attached_stays() {
    let mut e = zip_error { zip_err: 5, sys_err: 0, str: Some("mine") };
    assert_eq!(zip_error_strerror(Some(&mut e)), Some("mine"));
}

#[test]
fn error_text_is_cut_to_the_buffer() {
    let mut buf = vec![b'#'; 40];
    assert_eq!(zip_error_to_str(Some(&mut buf), 40, 9, 0), 12);
    assert_eq!(&buf[..13], b"No such file\0");
    assert_eq!(buf[13], b'#');
    let mut buf = vec![b'#'; 40];
    assert_eq!(zip_error_to_str(Some(&mut buf), 40, 11, 2), 18);
    assert_eq!(&buf[..19], b"Can't open file: 2\0");
    let mut buf = vec![b'#'; 40];
    assert_eq!(zip_error_to_str(Some(&mut buf), 40, 11, -13), 20);
    assert_eq!(&buf[..21], b"Can't open file: -13\0");
    let mut buf = vec![b'#'; 8];
    assert_eq!(zip_error_to_str(Some(&mut buf), 5, 9, 0), 4);
    assert_eq!(&buf[..6], b"No s\0#");
    let mut buf = vec![b'#'; 2];
    assert_eq!(zip_error_to_str(Some(&mut buf), 0, 9, 0), 0);
    assert_eq!(&buf[..], b"##");
    assert_eq!(zip_error_to_str(Some(&mut Vec::new()), 0, 9, 0), 0);
    assert_eq!(zip_error_to_str(Some(&mut buf), 1, 9, 0), 0);
    assert_eq!(&buf[..], b"\0#");
}

#[test]
fn error_text_of_the_smallest_system_code() {
    assert_eq!(error_string(4, i32::MIN), "Seek error: -2147483648");
    assert_eq!(error_string(4, 0), "Seek error");
}

#[test]
fn error_codes_as_data() {
    let e = zip_error { zip_err: 7, sys_err: 3, str: None };
    let mut pair = ErrorPair { zip_err: 0, sys_err: 0 };
    assert_eq!(zip_error_to_data(Some(&e), Some(&mut pair), 8), 8);
    assert_eq!(pair, ErrorPair { zip_err: 7, sys_err: 3 });
    let mut untouched = ErrorPair { zip_err: 1, sys_err: 1 };
    assert_eq!(zip_error_to_data(Some(&e), Some(&mut untouched), 7), -1);
    assert_eq!(zip_error_to_data(None, Some(&mut untouched), 8), -1);
    assert_eq!(untouched, ErrorPair { zip_err: 1, sys_err: 1 });
    assert_eq!(zip_error_to_data(Some(&e), None, 8), -1);
}
