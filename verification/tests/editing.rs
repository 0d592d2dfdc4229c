use kzip::archive::{make_zip, Archive, Dirent, EntryTime, Zip};
use kzip::consts::{
    ZIP_AFL_CREATE_OR_KEEP_FILE_FOR_EMPTY_ARCHIVE, ZIP_AFL_IS_TORRENTZIP, ZIP_AFL_RDONLY,
    ZIP_CM_BZIP2, ZIP_CM_DEFAULT, ZIP_CM_DEFLATE, ZIP_CM_STORE, ZIP_CREATE, ZIP_EF_ZIP64,
    ZIP_EM_AES_256, ZIP_EM_NONE, ZIP_EM_TRAD_PKWARE, ZIP_ER_CHANGED, ZIP_ER_COMPNOTSUPP,
    ZIP_ER_ENCRNOTSUPP, ZIP_ER_EXISTS, ZIP_ER_INVAL, ZIP_ER_NOENT, ZIP_ER_NOPASSWD,
    ZIP_ER_RDONLY, ZIP_ER_READ, ZIP_ER_WRITE, ZIP_EXTRA_FIELD_ALL, ZIP_EXTRA_FIELD_NEW,
    ZIP_FL_OVERWRITE, ZIP_FL_UNCHANGED, ZIP_OPSYS_UNIX, ZIP_RDONLY, ZIP_TRUNCATE,
};
use kzip::edit::{
    zip_add, zip_add_dir, zip_delete, zip_dir_add, zip_discard, zip_file_add, zip_file_rename,
    zip_file_replace, zip_file_set_encryption, zip_rename, zip_replace, zip_set_default_password,
};
use kzip::extra::ExtraField;
use kzip::handle::{
    zip_error_clear, zip_error_get, zip_get_error, zip_get_name, zip_get_num_entries,
    zip_get_num_files, zip_libzip_version, zip_name_locate, zip_strerror,
};
use kzip::metadata::{
    zip_file_extra_field_delete, zip_file_extra_field_delete_by_id, zip_file_extra_field_get,
    zip_file_extra_field_get_by_id, zip_file_extra_field_set, zip_file_extra_fields_count,
    zip_file_extra_fields_count_by_id, zip_file_get_comment, zip_file_get_external_attributes,
    zip_file_set_comment, zip_file_set_dostime, zip_file_set_external_attributes,
    zip_file_set_mtime, zip_get_archive_comment, zip_get_file_comment, zip_set_archive_comment,
    zip_set_file_comment, zip_set_file_compression,
};
use kzip::plan::{
    close_encoded, close_stored, materialize, zip_close, CloseStep, CompressionMethod, StoreStep,
    WritePlan,
};
use kzip::revert::{
    zip_get_archive_flag, zip_set_archive_flag, zip_unchange, zip_unchange_all,
    zip_unchange_archive,
};
use kzip::source::{NoCallback, PlainSource, SourceCallback, ZipSource};
use kzip::source_new::{zip_source_buffer, zip_source_function_create};

fn dirent(name: &[u8], comment: &[u8]) -> Dirent {
    Dirent {
        name: name.to_vec(),
        comment: comment.to_vec(),
        extra_fields: vec![
            ExtraField { id: ZIP_EF_ZIP64, data: vec![9] },
            ExtraField { id: 0x7777, data: vec![1, 2] },
        ],
        version_madeby: 0x0314,
        ext_attrib: 0o644 << 16,
        last_mod_time: 0x6000,
        last_mod_date: 0x5100,
        encryption_method: 0,
    }
}

fn archive() -> Archive {
    Archive {
        entries: vec![dirent(b"a.txt", b"first"), dirent(b"b.txt", b""), dirent(b"c/", b"")],
        comment: b"on disk".to_vec(),
    }
}

fn zip(flags: i32) -> Zip {
    make_zip(archive(), flags, true, Some(b"out.zip".to_vec()))
}

/// The contents of the entries on disk.
fn read(index: u64) -> Result<Vec<u8>, i32> {
    match index {
        0 => Ok(b"alpha".to_vec()),
        1 => Ok(b"beta".to_vec()),
        2 => Ok(vec![]),
        _ => Err(ZIP_ER_INVAL),
    }
}

fn source(data: &[u8]) -> PlainSource {
    zip_source_buffer(None, Some(data), data.len() as u64, 0).unwrap()
}

fn add(z: &mut Zip, name: &[u8], data: &[u8], flags: u32) -> i64 {
    zip_file_add(Some(z), Some(name), Some(&mut source(data)), flags)
}

fn written(z: &Zip) -> Vec<(Vec<u8>, Vec<u8>)> {
    let plan = materialize(z, read).unwrap();
    plan.files.into_iter().map(|f| (f.name, f.data)).collect()
}

fn pair(name: &[u8], data: &[u8]) -> (Vec<u8>, Vec<u8>) {
    (name.to_vec(), data.to_vec())
}

#[test]
fn without_edits_the_archive_is_written_as_it_is() {
    let z = zip(0);
    assert_eq!(
        written(&z),
        vec![pair(b"a.txt", b"alpha"), pair(b"b.txt", b"beta"), pair(b"c/", b"")]
    );
    let plan = materialize(&z, read).unwrap();
    assert_eq!(plan.archive_comment, b"on disk");
    assert_eq!(plan.password, b"");
    let f = &plan.files[0];
    assert_eq!(f.comment.as_deref(), Some(&b"first"[..]));
    assert_eq!(f.extra_fields.len(), 1);
    assert_eq!(f.extra_fields[0].id, 0x7777);
    assert!(matches!(f.time, EntryTime::Dos(0x6000, 0x5100)));
    assert_eq!(f.attributes, Some((3, 0o644 << 16)));
    assert_eq!(f.method, None);
    assert_eq!(f.encryption, 0);
}

#[test]
fn edits_are_written() {
    let mut z = zip(0);
    assert_eq!(add(&mut z, b"new.txt", b"fresh", 0), 3);
    assert_eq!(zip_add_dir(Some(&mut z), Some(b"dir")), 4);
    assert_eq!(zip_dir_add(Some(&mut z), Some(b"sub/"), 0), 5);
    assert_eq!(zip_delete(Some(&mut z), 1), 0);
    assert_eq!(zip_delete(Some(&mut z), 1), 0);
    assert_eq!(zip_rename(Some(&mut z), 0, Some(b"A.txt")), 0);
    assert_eq!(zip_replace(Some(&mut z), 2, Some(&mut source(b"file now"))), 0);
    assert_eq!(
        written(&z),
        vec![
            pair(b"A.txt", b"alpha"),
            pair(b"c/", b"file now"),
            pair(b"new.txt", b"fresh"),
            pair(b"dir/", b""),
            pair(b"sub/", b""),
        ]
    );
    // Nothing was written so far: the names on disk still count.
    assert_eq!(zip_get_num_entries(Some(&z), 0), 3);
    assert_eq!(zip_get_name(Some(&z), 0, 0).map(|n| n.as_slice()), Some(&b"a.txt"[..]));
    zip_discard(Some(z));
}

#[test]
fn names_on_disk_are_taken() {
    let mut z = zip(0);
    assert_eq!(add(&mut z, b"b.txt", b"2", 0), -1);
    assert_eq!(z.error.zip_err, ZIP_ER_EXISTS);
    assert_eq!(add(&mut z, b"b.txt", b"2", ZIP_FL_OVERWRITE), 1);
    assert_eq!(zip_add_dir(Some(&mut z), Some(b"c")), -1);
    assert_eq!(written(&z)[1], pair(b"b.txt", b"2"));
    // A rename does not look at the other names.
    assert_eq!(zip_file_rename(Some(&mut z), 0, Some(b"b.txt"), 0), 0);
}

#[test]
fn of_several_renames_the_last_counts() {
    let mut z = zip(0);
    assert_eq!(zip_rename(Some(&mut z), 0, Some(b"one")), 0);
    assert_eq!(zip_rename(Some(&mut z), 0, Some(b"two")), 0);
    assert_eq!(written(&z)[0], pair(b"two", b"alpha"));
}

#[test]
fn of_several_replacements_the_last_counts() {
    let mut z = zip(0);
    assert_eq!(zip_file_replace(Some(&mut z), 1, Some(&mut source(b"one")), 0), 0);
    assert_eq!(zip_replace(Some(&mut z), 1, Some(&mut source(b"two"))), 0);
    assert_eq!(written(&z)[1].1, b"two");
    assert_eq!(add(&mut z, b"b.txt", b"three", ZIP_FL_OVERWRITE), 1);
    assert_eq!(written(&z)[1].1, b"three");
}

#[test]
fn names_must_be_utf8() {
    let mut z = zip(0);
    assert_eq!(add(&mut z, b"\xff\xfe", b"", 0), -1);
    assert_eq!(z.error.zip_err, ZIP_ER_INVAL);
    assert_eq!(add(&mut z, "gr\u{fc}n".as_bytes(), b"", 0), 3);
    assert_eq!(zip_add_dir(Some(&mut z), Some(b"\xc3")), -1);
    assert_eq!(zip_rename(Some(&mut z), 0, Some(b"\x80")), -1);
    assert_eq!(zip_rename(Some(&mut z), 0, None), -1);
    assert_eq!(zip_name_locate(Some(&mut z), Some(b"\x80"), 0), -1);
    assert_eq!(z.error.zip_err, ZIP_ER_INVAL);
}

#[test]
fn bad_indices_are_refused() {
    let mut z = zip(0);
    assert_eq!(zip_delete(Some(&mut z), 3), -1);
    assert_eq!(z.error.zip_err, ZIP_ER_INVAL);
    assert_eq!(zip_rename(Some(&mut z), 9, Some(b"x")), -1);
    assert_eq!(zip_file_replace(Some(&mut z), 9, Some(&mut source(b"")), 0), -1);
    assert_eq!(zip_file_set_encryption(Some(&mut z), 3, ZIP_EM_AES_256), -1);
    assert_eq!(zip_file_set_comment(Some(&mut z), 3, Some(b"x"), 1, 0), -1);
    assert_eq!(zip_file_set_mtime(Some(&mut z), 3, 1, 0), -1);
    assert_eq!(zip_file_set_dostime(Some(&mut z), 3, 1, 1, 0), -1);
    assert_eq!(zip_file_set_external_attributes(Some(&mut z), 3, 0, 3, 1), -1);
    assert_eq!(zip_set_file_compression(Some(&mut z), 3, ZIP_CM_STORE, 0), -1);
    assert_eq!(zip_unchange(Some(&mut z), 3), -1);
    assert!(zip_get_name(Some(&z), 3, 0).is_none());
    assert_eq!(zip_file_extra_fields_count(Some(&z), 3, 0), 0);
    // One that waits to be appended has an index.
    assert_eq!(add(&mut z, b"n", b"", 0), 3);
    assert_eq!(zip_file_set_mtime(Some(&mut z), 3, 1, 0), 0);
    assert_eq!(zip_file_set_comment(Some(&mut z), 3, Some(b"x"), 1, 0), 0);
    assert_eq!(zip_delete(Some(&mut z), 3), -1);
}

#[test]
fn read_only_archives_refuse_edits() {
    let mut z = zip(ZIP_RDONLY);
    assert_eq!(add(&mut z, b"n", b"", 0), -1);
    assert_eq!(z.error.zip_err, ZIP_ER_RDONLY);
    assert_eq!(zip_add_dir(Some(&mut z), Some(b"n")), -1);
    assert_eq!(zip_delete(Some(&mut z), 0), -1);
    assert_eq!(zip_rename(Some(&mut z), 0, Some(b"x")), -1);
    assert_eq!(zip_replace(Some(&mut z), 0, Some(&mut source(b""))), -1);
    assert_eq!(zip_file_set_encryption(Some(&mut z), 0, ZIP_EM_AES_256), -1);
    assert_eq!(zip_set_archive_comment(Some(&mut z), Some(b"x"), 1), -1);
    assert_eq!(zip_file_set_comment(Some(&mut z), 0, Some(b"x"), 1, 0), -1);
    assert_eq!(zip_set_file_comment(Some(&mut z), 0, Some(b"x"), 1), -1);
    assert_eq!(
        zip_file_extra_field_set(Some(&mut z), 0, 7, ZIP_EXTRA_FIELD_NEW, None, 0, 0),
        -1
    );
    assert_eq!(zip_file_extra_field_delete(Some(&mut z), 0, 0, 0), -1);
    assert_eq!(zip_file_extra_field_delete_by_id(Some(&mut z), 0, 7, 0, 0), -1);
    assert_eq!(zip_file_set_mtime(Some(&mut z), 0, 1, 0), -1);
    assert_eq!(zip_file_set_dostime(Some(&mut z), 0, 1, 1, 0), -1);
    assert_eq!(zip_file_set_external_attributes(Some(&mut z), 0, 0, 3, 1), -1);
    assert_eq!(zip_set_file_compression(Some(&mut z), 0, ZIP_CM_STORE, 0), -1);
    assert_eq!(z.error.zip_err, ZIP_ER_RDONLY);
    assert!(z.pending.is_empty());
}

struct Broken;

impl SourceCallback for Broken {
    fn call(&mut self, _data: &mut kzip::command::CommandData, _len: u64, cmd: i32) -> i64 {
        if cmd == 0 {
            0
        } else {
            -1
        }
    }
}

/// A source that gives one byte with each read, and notes the commands.
struct Single {
    left: Vec<u8>,
    commands: Vec<i32>,
}

impl SourceCallback for Single {
    fn call(&mut self, data: &mut kzip::command::CommandData, _len: u64, cmd: i32) -> i64 {
        self.commands.push(cmd);
        if cmd != 1 || self.left.is_empty() {
            return 0;
        }
        if let kzip::command::CommandData::Bytes(out) = data {
            out[0] = self.left.remove(0);
        }
        1
    }
}

#[test]
fn the_content_of_a_users_source_is_added() {
    let mut z = zip(0);
    let single = Single { left: b"abc".to_vec(), commands: vec![] };
    let mut s: ZipSource<Single, NoCallback> =
        zip_source_function_create(Some(single), None).unwrap();
    let r = zip_file_add(Some(&mut z), Some(b"b.txt"), Some(&mut s), ZIP_FL_OVERWRITE);
    assert_eq!(r, 1);
    assert_eq!(written(&z)[1], pair(b"b.txt", b"abc"));
    // It is opened once, read until a read gives nothing, and closed once.
    if let kzip::source::SourceBackend::Function(f) = &s.backend {
        assert_eq!(f.commands, [0, 1, 1, 1, 1, 2]);
    } else {
        panic!("not the user's");
    }
}

#[test]
fn a_broken_source_is_a_read_error() {
    let mut z = zip(0);
    let mut s: ZipSource<Broken, NoCallback> =
        zip_source_function_create(Some(Broken), None).unwrap();
    assert_eq!(zip_add(Some(&mut z), Some(b"n"), Some(&mut s)), -1);
    assert_eq!(z.error.zip_err, ZIP_ER_READ);
    assert_eq!(zip_file_replace(Some(&mut z), 0, Some(&mut s), 0), -1);
    assert_eq!(z.error.zip_err, ZIP_ER_READ);
    let none: Option<&mut PlainSource> = None;
    assert_eq!(zip_add(Some(&mut z), Some(b"n"), none), -1);
    assert_eq!(z.error.zip_err, ZIP_ER_INVAL);
}

#[test]
fn encrypted_entries_need_a_password() {
    let mut z = zip(0);
    assert_eq!(zip_file_set_encryption(Some(&mut z), 0, 0x0999), -1);
    assert_eq!(z.error.zip_err, ZIP_ER_ENCRNOTSUPP);
    assert_eq!(zip_file_set_encryption(Some(&mut z), 0, ZIP_EM_NONE), 0);
    assert_eq!(zip_file_set_encryption(Some(&mut z), 1, ZIP_EM_TRAD_PKWARE), 0);
    assert_eq!(zip_file_set_encryption(Some(&mut z), 1, ZIP_EM_AES_256), 0);
    assert!(matches!(materialize(&z, read), Err(ZIP_ER_NOPASSWD)));
    assert_eq!(zip_set_default_password(Some(&mut z), Some(b"pw")), 0);
    let plan = materialize(&z, read).unwrap();
    assert_eq!(plan.password, b"pw");
    assert_eq!(plan.files[0].encryption, 0);
    assert_eq!(plan.files[1].encryption, ZIP_EM_AES_256);
    assert_eq!(zip_set_default_password(Some(&mut z), None), -1);
    assert_eq!(z.error.zip_err, ZIP_ER_INVAL);
    assert!(materialize(&z, read).is_ok());
}

#[test]
fn archive_comments() {
    // The getter gives a C string; its length does not count the closing NUL.
    let mut z = zip(0);
    let mut n = 0;
    assert_eq!(zip_get_archive_comment(Some(&z), Some(&mut n), 0).unwrap(), b"on disk\0");
    assert_eq!(n, 7);
    assert_eq!(zip_set_archive_comment(Some(&mut z), Some(b"changed"), 4), 0);
    assert_eq!(zip_get_archive_comment(Some(&z), Some(&mut n), 0).unwrap(), b"chan\0");
    assert_eq!(n, 4);
    assert_eq!(materialize(&z, read).unwrap().archive_comment, b"chan");
    assert_eq!(zip_set_archive_comment(Some(&mut z), None, 0), 0);
    assert!(zip_get_archive_comment(Some(&z), Some(&mut n), 0).is_none());
    assert_eq!(materialize(&z, read).unwrap().archive_comment, b"");
    assert_eq!(zip_set_archive_comment(Some(&mut z), None, 1), -1);
    assert_eq!(z.error.zip_err, ZIP_ER_INVAL);
}

#[test]
fn entry_comments() {
    let mut z = zip(0);
    let mut n = 0;
    assert_eq!(zip_file_get_comment(Some(&z), 0, Some(&mut n), 0).unwrap(), b"first");
    assert_eq!(n, 5);
    assert_eq!(zip_file_set_comment(Some(&mut z), 1, Some(b"second!"), 6, 0), 0);
    assert_eq!(zip_file_get_comment(Some(&z), 1, Some(&mut n), 0).unwrap(), b"second");
    assert_eq!(n, 6);
    assert_eq!(zip_get_file_comment(Some(&z), 0, None, 0).unwrap(), b"first");
    assert_eq!(zip_set_file_comment(Some(&mut z), 0, Some(b"whole"), -1), 0);
    assert_eq!(zip_get_file_comment(Some(&z), 0, None, 0).unwrap(), b"whole");
    let plan = materialize(&z, read).unwrap();
    assert_eq!(plan.files[0].comment.as_deref(), Some(&b"whole"[..]));
    assert_eq!(plan.files[1].comment.as_deref(), Some(&b"second"[..]));
    assert_eq!(zip_file_set_comment(Some(&mut z), 0, None, 0, 0), 0);
    assert!(zip_file_get_comment(Some(&z), 0, Some(&mut n), 0).is_none());
    assert_eq!(materialize(&z, read).unwrap().files[0].comment, None);
    assert_eq!(zip_file_set_comment(Some(&mut z), 0, None, 1, 0), -1);
}

#[test]
fn extra_fields() {
    let mut z = zip(0);
    let mut n = 0u16;
    let mut at = 0u16;
    // The fields that the writer manages are not shown.
    assert_eq!(zip_file_extra_fields_count(Some(&z), 0, 0), 1);
    assert_eq!(zip_file_extra_fields_count_by_id(Some(&z), 0, ZIP_EF_ZIP64, 0), 0);
    assert_eq!(
        zip_file_extra_field_set(Some(&mut z), 0, 0x1234, ZIP_EXTRA_FIELD_NEW, Some(b"xyz"), 2, 0),
        0
    );
    assert_eq!(
        zip_file_extra_field_set(Some(&mut z), 0, 0x1234, 1, Some(b"q"), 1, 0),
        0
    );
    assert_eq!(zip_file_extra_fields_count(Some(&z), 0, 0), 3);
    assert_eq!(zip_file_extra_fields_count_by_id(Some(&z), 0, 0x1234, 0), 2);
    assert_eq!(
        zip_file_extra_field_get_by_id(Some(&z), 0, 0x1234, 0, Some(&mut n), 0).unwrap(),
        b"xy"
    );
    assert_eq!(n, 2);
    assert_eq!(
        zip_file_extra_field_get(Some(&z), 0, 0x1234, Some(&mut at), Some(&mut n), 0).unwrap(),
        b"xy"
    );
    assert_eq!((at, n), (0, 2));
    // Setting an existing one replaces it.
    assert_eq!(zip_file_extra_field_set(Some(&mut z), 0, 0x1234, 0, Some(b"new"), 3, 0), 0);
    assert_eq!(zip_file_extra_field_get_by_id(Some(&z), 0, 0x1234, 0, None, 0).unwrap(), b"new");
    // Beyond the next place, and under an identifier of the writer, it is refused.
    assert_eq!(zip_file_extra_field_set(Some(&mut z), 0, 0x1234, 3, Some(b""), 0, 0), -1);
    assert_eq!(zip_file_extra_field_set(Some(&mut z), 0, ZIP_EF_ZIP64, 0, Some(b""), 0, 0), -1);
    assert_eq!(z.error.zip_err, ZIP_ER_INVAL);
    let ids: Vec<u16> =
        materialize(&z, read).unwrap().files[0].extra_fields.iter().map(|f| f.id).collect();
    assert_eq!(ids, vec![0x7777, 0x1234, 0x1234]);
    // Deleting: by place, by identifier, all.
    assert_eq!(zip_file_extra_field_delete(Some(&mut z), 0, 0, 0), 0);
    assert_eq!(zip_file_extra_fields_count_by_id(Some(&z), 0, 0x7777, 0), 0);
    assert_eq!(zip_file_extra_field_delete_by_id(Some(&mut z), 0, 0x1234, 0, 0), 0);
    assert_eq!(zip_file_extra_field_get_by_id(Some(&z), 0, 0x1234, 0, None, 0).unwrap(), b"q");
    assert_eq!(zip_file_extra_field_delete_by_id(Some(&mut z), 0, 0x1234, 5, 0), -1);
    assert_eq!(z.error.zip_err, ZIP_ER_NOENT);
    assert_eq!(zip_file_extra_field_delete(Some(&mut z), 0, 7, 0), -1);
    assert_eq!(zip_file_extra_field_delete(Some(&mut z), 0, ZIP_EXTRA_FIELD_ALL, 0), 0);
    assert_eq!(zip_file_extra_fields_count(Some(&z), 0, 0), 0);
    assert!(zip_file_extra_field_get_by_id(Some(&z), 0, 0x1234, 0, None, 0).is_none());
    // Every identifier at once.
    assert_eq!(
        zip_file_extra_field_delete_by_id(Some(&mut z), 1, ZIP_EXTRA_FIELD_ALL, 0, 0),
        0
    );
    assert_eq!(zip_file_extra_fields_count(Some(&z), 1, 0), 0);
}

#[test]
fn times_attributes_and_methods() {
    let mut z = zip(0);
    assert_eq!(zip_file_set_dostime(Some(&mut z), 0, 11, 22, 0), 0);
    assert_eq!(zip_file_set_mtime(Some(&mut z), 1, 1_234_567_890, 0), 0);
    assert_eq!(zip_file_set_external_attributes(Some(&mut z), 0, 0, 7, 99), 0);
    assert_eq!(zip_set_file_compression(Some(&mut z), 0, ZIP_CM_STORE, 0), 0);
    assert_eq!(zip_set_file_compression(Some(&mut z), 1, ZIP_CM_DEFLATE, 9), 0);
    assert_eq!(zip_set_file_compression(Some(&mut z), 2, ZIP_CM_DEFAULT, 3), 0);
    assert_eq!(zip_set_file_compression(Some(&mut z), 2, ZIP_CM_BZIP2, 0), -1);
    assert_eq!(z.error.zip_err, ZIP_ER_COMPNOTSUPP);
    let (mut sys, mut attrs) = (0u8, 0u32);
    assert_eq!(
        zip_file_get_external_attributes(Some(&mut z), 0, 0, Some(&mut sys), Some(&mut attrs)),
        0
    );
    assert_eq!((sys, attrs), (7, 99));
    assert_eq!(
        zip_file_get_external_attributes(Some(&mut z), 1, 0, Some(&mut sys), Some(&mut attrs)),
        0
    );
    assert_eq!((sys, attrs), (3, 0o644 << 16));
    let plan = materialize(&z, read).unwrap();
    assert!(matches!(plan.files[0].time, EntryTime::Dos(11, 22)));
    assert!(matches!(plan.files[1].time, EntryTime::Unix(1_234_567_890)));
    assert_eq!(plan.files[0].attributes, Some((7, 99)));
    assert_eq!(plan.files[0].method, Some((CompressionMethod::Store, 0)));
    assert_eq!(plan.files[1].method, Some((CompressionMethod::Deflate, 9)));
    assert_eq!(plan.files[2].method, None);
}

#[test]
fn an_entry_to_be_appended_has_no_attributes_at_first() {
    let mut z = zip(0);
    assert_eq!(add(&mut z, b"n", b"", 0), 3);
    let (mut sys, mut attrs) = (9u8, 9u32);
    let r = zip_file_get_external_attributes(
        Some(&mut z),
        3,
        0,
        Some(&mut sys),
        Some(&mut attrs),
    );
    assert_eq!(r, -1);
    assert_eq!((sys, attrs), (9, 9));
    assert_eq!(zip_file_set_external_attributes(Some(&mut z), 3, 0, ZIP_OPSYS_UNIX, 5), 0);
    assert_eq!(
        zip_file_get_external_attributes(Some(&mut z), 3, 0, Some(&mut sys), Some(&mut attrs)),
        0
    );
    assert_eq!((sys, attrs), (ZIP_OPSYS_UNIX, 5));
}

#[test]
fn edits_of_an_entry_are_taken_back() {
    let mut z = zip(0);
    assert_eq!(zip_rename(Some(&mut z), 0, Some(b"x")), 0);
    assert_eq!(zip_delete(Some(&mut z), 0), 0);
    assert_eq!(zip_file_set_comment(Some(&mut z), 0, Some(b"c"), 1, 0), 0);
    assert_eq!(zip_file_set_comment(Some(&mut z), 1, Some(b"d"), 1, 0), 0);
    assert_eq!(
        zip_file_extra_field_set(Some(&mut z), 0, 5, ZIP_EXTRA_FIELD_NEW, Some(b"e"), 1, 0),
        0
    );
    assert_eq!(zip_unchange(Some(&mut z), 0), 0);
    assert_eq!(zip_file_get_comment(Some(&z), 0, None, 0).unwrap(), b"first");
    assert_eq!(zip_file_extra_fields_count(Some(&z), 0, 0), 1);
    assert_eq!(written(&z)[0], pair(b"a.txt", b"alpha"));
    // Those of others stay.
    assert_eq!(zip_file_get_comment(Some(&z), 1, None, 0).unwrap(), b"d");
}

#[test]
fn an_appended_entry_is_taken_back() {
    let mut z = zip(0);
    assert_eq!(add(&mut z, b"one", b"1", 0), 3);
    assert_eq!(zip_unchange(Some(&mut z), 3), 0);
    assert_eq!(written(&z).len(), 3);
}

#[test]
fn all_edits_are_taken_back() {
    let mut z = zip(0);
    add(&mut z, b"n", b"1", 0);
    zip_delete(Some(&mut z), 0);
    zip_set_archive_comment(Some(&mut z), Some(b"x"), 1);
    zip_file_set_comment(Some(&mut z), 0, Some(b"x"), 1, 0);
    assert!(!z.pending.is_empty());
    assert_eq!(zip_unchange_all(Some(&mut z)), 0);
    assert!(z.pending.is_empty());
    assert_eq!(zip_get_archive_comment(Some(&z), None, 0).unwrap(), b"on disk\0");
    assert_eq!(zip_file_get_comment(Some(&z), 0, None, 0).unwrap(), b"first");
    assert_eq!(written(&z).len(), 3);
}

#[test]
fn the_archive_alone_is_taken_back() {
    let mut z = zip(0);
    zip_delete(Some(&mut z), 0);
    zip_set_archive_comment(Some(&mut z), Some(b"x"), 1);
    assert_eq!(zip_unchange_archive(Some(&mut z)), 0);
    assert_eq!(zip_get_archive_comment(Some(&z), None, 0).unwrap(), b"on disk\0");
    assert_eq!(written(&z).len(), 2);
}

#[test]
fn archive_flags() {
    let keep = ZIP_AFL_CREATE_OR_KEEP_FILE_FOR_EMPTY_ARCHIVE;
    let mut z = zip(0);
    assert_eq!(zip_get_archive_flag(Some(&z), keep, 0), 0);
    assert_eq!(zip_set_archive_flag(Some(&mut z), keep, 1), 0);
    assert_eq!(zip_get_archive_flag(Some(&z), keep, 0), 1);
    assert_eq!(zip_get_archive_flag(Some(&z), keep, ZIP_FL_UNCHANGED), 0);
    assert_eq!(zip_set_archive_flag(Some(&mut z), keep, 0), 0);
    assert_eq!(zip_get_archive_flag(Some(&z), keep, 0), 0);
    assert_eq!(zip_set_archive_flag(Some(&mut z), ZIP_AFL_IS_TORRENTZIP, 1), -1);
    assert_eq!(z.error.zip_err, ZIP_ER_INVAL);
    // An archive with edits cannot become read-only.
    assert_eq!(zip_delete(Some(&mut z), 0), 0);
    assert_eq!(zip_set_archive_flag(Some(&mut z), ZIP_AFL_RDONLY, 1), -1);
    assert_eq!(z.error.zip_err, ZIP_ER_CHANGED);
    assert_eq!(zip_unchange_all(Some(&mut z)), 0);
    assert_eq!(zip_set_archive_flag(Some(&mut z), ZIP_AFL_RDONLY, 1), 0);
    assert_eq!(zip_get_archive_flag(Some(&z), ZIP_AFL_RDONLY, 0), 1);
    assert_eq!(zip_set_archive_flag(Some(&mut z), ZIP_AFL_RDONLY, 0), 0);
    assert_eq!(zip_get_archive_flag(Some(&z), ZIP_AFL_RDONLY, 0), 0);
    // One that was opened read-only keeps its flags.
    let mut z = zip(ZIP_RDONLY);
    assert_eq!(zip_get_archive_flag(Some(&z), ZIP_AFL_RDONLY, ZIP_FL_UNCHANGED), 1);
    assert_eq!(zip_set_archive_flag(Some(&mut z), keep, 1), -1);
    assert_eq!(z.error.zip_err, ZIP_ER_RDONLY);
    assert_eq!(zip_get_archive_flag(None, keep, 0), -1);
    assert_eq!(zip_set_archive_flag(None, keep, 0), -1);
}

#[test]
fn lookups() {
    let mut z = zip(0);
    assert_eq!(zip_get_num_entries(Some(&z), 0), 3);
    assert_eq!(zip_get_num_files(Some(&mut z)), 3);
    assert_eq!(zip_name_locate(Some(&mut z), Some(b"b.txt"), 0), 1);
    assert_eq!(zip_name_locate(Some(&mut z), Some(b"none"), 0), -1);
    assert_eq!(z.error.zip_err, ZIP_ER_NOENT);
    assert_eq!(zip_strerror(Some(&z)), Some("No such file"));
    assert_eq!(zip_get_error(Some(&z)).unwrap().zip_err, ZIP_ER_NOENT);
    let (mut a, mut b) = (7, 7);
    zip_error_get(Some(&z), Some(&mut a), Some(&mut b));
    assert_eq!((a, b), (ZIP_ER_NOENT, 0));
    zip_error_clear(Some(&mut z));
    assert_eq!(z.error.zip_err, 0);
    assert_eq!(zip_libzip_version(), "1.11.4");
}

#[test]
fn missing_handles_are_safe() {
    let none: Option<&mut PlainSource> = None;
    assert_eq!(zip_get_num_entries(None, 0), -1);
    assert_eq!(zip_get_num_files(None), -1);
    assert_eq!(zip_name_locate(None, Some(b"x"), 0), -1);
    assert!(zip_get_name(None, 0, 0).is_none());
    assert_eq!(zip_add(None, Some(b"x"), none), -1);
    assert_eq!(zip_add_dir(None, Some(b"x")), -1);
    assert_eq!(zip_delete(None, 0), -1);
    assert_eq!(zip_rename(None, 0, Some(b"x")), -1);
    assert_eq!(zip_set_archive_comment(None, None, 0), -1);
    assert_eq!(zip_unchange_all(None), -1);
    assert_eq!(zip_unchange_archive(None), -1);
    assert_eq!(zip_unchange(None, 0), -1);
    assert_eq!(zip_set_default_password(None, None), -1);
    assert!(zip_get_error(None).is_none());
    zip_error_clear(None);
    zip_discard(None);
    assert!(matches!(zip_close(None, read), CloseStep::Done(-1)));
}

#[test]
fn closing_without_edits_writes_nothing() {
    let mut z = zip(0);
    assert!(matches!(zip_close(Some(&mut z), read), CloseStep::Done(0)));
    // Opened for writing it is written, but not if it is read-only.
    let mut z = zip(ZIP_CREATE);
    assert!(matches!(zip_close(Some(&mut z), read), CloseStep::Encode(_)));
    let mut z = zip(ZIP_TRUNCATE);
    assert!(matches!(zip_close(Some(&mut z), read), CloseStep::Encode(_)));
    let mut z = zip(ZIP_CREATE | ZIP_RDONLY);
    assert!(matches!(zip_close(Some(&mut z), read), CloseStep::Done(0)));
}

fn encode(step: CloseStep) -> WritePlan {
    match step {
        CloseStep::Encode(plan) => plan,
        CloseStep::Done(_) => panic!("nothing to encode"),
    }
}

#[test]
fn closing_goes_through_its_steps() {
    let mut z = zip(0);
    zip_delete(Some(&mut z), 0);
    let plan = encode(zip_close(Some(&mut z), read));
    assert_eq!(plan.files.len(), 2);
    match close_encoded(&mut z, Ok(vec![1, 2, 3])) {
        StoreStep::Store(path, bytes) => {
            assert_eq!(path, b"out.zip");
            assert_eq!(bytes, vec![1, 2, 3]);
        }
        StoreStep::Done(_) => panic!("nothing to store"),
    }
    assert_eq!(close_stored(&mut z, true), 0);
    assert_eq!(close_stored(&mut z, false), -1);
    assert_eq!(z.error.zip_err, ZIP_ER_WRITE);
    assert!(matches!(close_encoded(&mut z, Err(14)), StoreStep::Done(-1)));
    assert_eq!(z.error.zip_err, 14);
}

#[test]
fn closing_needs_a_path() {
    let mut z = make_zip(archive(), 0, true, None);
    zip_delete(Some(&mut z), 0);
    encode(zip_close(Some(&mut z), read));
    assert!(matches!(close_encoded(&mut z, Ok(vec![])), StoreStep::Done(-1)));
    let mut z = make_zip(archive(), 0, true, Some(vec![0xff]));
    assert!(matches!(close_encoded(&mut z, Ok(vec![])), StoreStep::Done(-1)));
}

#[test]
fn closing_fails_with_its_reads() {
    let mut z = zip(0);
    zip_delete(Some(&mut z), 0);
    let step = zip_close(Some(&mut z), |i: u64| if i == 2 { Err(7) } else { Ok(vec![]) });
    assert!(matches!(step, CloseStep::Done(-1)));
    assert_eq!(z.error.zip_err, 7);
    // Entries that are deleted or replaced are not read.
    let mut z = zip(0);
    zip_delete(Some(&mut z), 0);
    zip_replace(Some(&mut z), 1, Some(&mut source(b"r")));
    assert_eq!(z.entries_to_read(), vec![2]);
}
