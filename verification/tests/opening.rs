use kzip::archive::{make_zip, Archive, Dirent, EntryTime, Zip};
use kzip::consts::{
    SEEK_CUR, SEEK_END, SEEK_SET, ZIP_CHECKCONS, ZIP_CREATE, ZIP_EM_AES_256, ZIP_ER_INVAL,
    ZIP_ER_MEMORY, ZIP_ER_NOENT, ZIP_ER_OPEN, ZIP_ER_READ, ZIP_ER_SEEK,
    ZIP_FL_COMPRESSED, ZIP_RDONLY, ZIP_TRUNCATE,
};
use kzip::entry::{
    read_done, seek_done, zip_fclose, zip_file_error_clear, zip_file_error_get,
    zip_file_get_error, zip_file_is_seekable, zip_file_strerror, zip_fopen, zip_fopen_encrypted,
    zip_fopen_index, zip_fopen_index_encrypted, zip_fread, zip_fseek, zip_ftell, zip_stat,
    zip_stat_index, ReaderStep, ZipFile,
};
use kzip::errors::zip_error;
use kzip::metadata::{zip_file_set_dostime, zip_file_set_mtime};
use kzip::open::{check_size, decide_open, zip_fdopen, zip_open, zip_open_from_source, OpenRequest};
use kzip::registration::{
    asks_to_cancel, zip_register_cancel_callback_with_state, zip_register_progress_callback,
    zip_register_progress_callback_with_state, Slot,
};
use kzip::source::PlainSource;
use kzip::source_new::{zip_source_buffer, zip_source_zip, zip_source_zip_create};
use kzip::stat::{zip_stat as StatRecord, Stat};

const ZIP_ER_NOZIP: i32 = 19;
const ZIP_ER_WRONGPASSWD: i32 = 27;

fn archive(names: &[&[u8]]) -> Archive {
    Archive {
        entries: names
            .iter()
            .enumerate()
            .map(|(i, n)| Dirent {
                name: n.to_vec(),
                comment: vec![],
                extra_fields: vec![],
                version_madeby: 0x0314,
                ext_attrib: 0,
                last_mod_time: 5,
                last_mod_date: 6,
                encryption_method: if i == 1 { ZIP_EM_AES_256 } else { 0 },
            })
            .collect(),
        comment: vec![],
    }
}

/// An engine whose archives are lists of one-letter names.
fn parse(bytes: Vec<u8>) -> Result<Archive, i32> {
    if bytes.contains(&0) {
        return Err(ZIP_ER_NOZIP);
    }
    let names: Vec<&[u8]> = bytes.chunks(1).collect();
    Ok(archive(&names))
}

fn fresh() -> Result<Archive, i32> {
    Ok(archive(&[]))
}

fn stat(index: u64) -> Result<Stat, i32> {
    match index {
        0 | 1 => Ok(Stat {
            valid: 0x7f,
            index: Some(index),
            size: Some(5),
            comp_size: Some(4),
            mtime: Some(1),
            crc: Some(0xabcd),
            comp_method: Some(8),
            encryption_method: None,
        }),
        _ => Err(ZIP_ER_INVAL),
    }
}

fn content(index: u64) -> Result<Vec<u8>, i32> {
    match index {
        0 => Ok(b"hello".to_vec()),
        1 => Err(ZIP_ER_WRONGPASSWD),
        _ => Err(ZIP_ER_INVAL),
    }
}

fn decrypt(index: u64, password: Vec<u8>) -> Result<Vec<u8>, i32> {
    if index == 1 && password == b"pw" {
        Ok(b"secret".to_vec())
    } else {
        Err(ZIP_ER_WRONGPASSWD)
    }
}

fn open(path: &[u8], flags: i32, there: bool, file: Result<Vec<u8>, i32>) -> (Option<Zip>, i32) {
    let mut code = -1;
    let z = zip_open(
        Some(path),
        flags,
        Some(&mut code),
        || there,
        || file.clone(),
        parse,
        fresh,
    );
    (z, code)
}

#[test]
fn what_is_opened() {
    assert_eq!(decide_open(true, 0), Ok(OpenRequest::Existing));
    assert_eq!(decide_open(true, ZIP_CREATE), Ok(OpenRequest::Existing));
    assert_eq!(decide_open(true, ZIP_TRUNCATE), Ok(OpenRequest::Fresh));
    assert_eq!(decide_open(false, ZIP_CREATE), Ok(OpenRequest::Fresh));
    assert_eq!(decide_open(false, 0), Err(ZIP_ER_OPEN));
    assert_eq!(decide_open(false, ZIP_TRUNCATE), Err(ZIP_ER_OPEN));
}

#[test]
fn opening_a_path() {
    let (z, code) = open(b"x.zip", 0, true, Ok(b"ab".to_vec()));
    let z = z.unwrap();
    assert_eq!(code, 0);
    assert_eq!(z.archive.entries.len(), 2);
    assert_eq!(z.path.as_deref(), Some(&b"x.zip"[..]));
    let (z, code) = open(b"x.zip", ZIP_TRUNCATE, true, Ok(b"ab".to_vec()));
    assert_eq!((z.unwrap().archive.entries.len(), code), (0, 0));
    let (z, code) = open(b"x.zip", ZIP_CREATE, false, Err(5));
    assert_eq!((z.unwrap().existed, code), (false, 0));
}

#[test]
fn opening_a_path_fails() {
    let (z, code) = open(b"x.zip", 0, false, Ok(vec![]));
    assert!(z.is_none());
    assert_eq!(code, ZIP_ER_OPEN);
    let (z, code) = open(b"x.zip", 0, true, Err(ZIP_ER_READ));
    assert!(z.is_none());
    assert_eq!(code, ZIP_ER_READ);
    let (z, code) = open(b"x.zip", 0, true, Ok(vec![0]));
    assert!(z.is_none());
    assert_eq!(code, ZIP_ER_NOZIP);
    let (z, code) = open(b"\xff", 0, true, Ok(vec![]));
    assert!(z.is_none());
    assert_eq!(code, ZIP_ER_INVAL);
    let mut code = 0;
    let z = zip_open(None, 0, Some(&mut code), || true, || Ok(vec![]), parse, fresh);
    assert!(z.is_none());
    assert_eq!(code, ZIP_ER_INVAL);
}

#[test]
fn files_within_the_limit_are_accepted() {
    assert_eq!(check_size(Ok(vec![1; 1000])), Ok(vec![1; 1000]));
    assert_eq!(check_size(Err(3)), Err(3));
    assert_eq!(kzip::consts::MAX_OPEN_FILE_SIZE, 2_147_483_648);
    assert_eq!(ZIP_ER_MEMORY, 14);
}

#[test]
fn opening_from_a_source() {
    let mut s: PlainSource = zip_source_buffer(None, Some(b"xyz"), 3, 0).unwrap();
    let mut e = zip_error::new();
    let z = zip_open_from_source(Some(&mut s), 0, Some(&mut e), parse, fresh).unwrap();
    assert_eq!(z.archive.entries.len(), 3);
    assert!(z.path.is_none());
    assert_eq!((e.zip_err, e.sys_err, e.str), (0, 0, None));
    let z = zip_open_from_source(Some(&mut s), ZIP_TRUNCATE, None, parse, fresh).unwrap();
    assert_eq!(z.archive.entries.len(), 0);
    assert!(zip_open_from_source(Some(&mut s), -1, Some(&mut e), parse, fresh).is_none());
    assert_eq!(e.zip_err, ZIP_ER_INVAL);
    let mut s: PlainSource = zip_source_buffer(None, Some(&[0]), 1, 0).unwrap();
    assert!(zip_open_from_source(Some(&mut s), 0, Some(&mut e), parse, fresh).is_none());
    assert_eq!(e.zip_err, ZIP_ER_NOZIP);
}

#[test]
fn opening_a_descriptor() {
    let mut code = -1;
    let read = |fd: i32| if fd == 3 { Ok(b"ab".to_vec()) } else { Err(ZIP_ER_READ) };
    let z = zip_fdopen(3, ZIP_CHECKCONS | ZIP_RDONLY, Some(&mut code), read, parse).unwrap();
    assert_eq!(code, 0);
    assert_eq!(z.archive.entries.len(), 2);
    assert!(zip_fdopen(4, 0, Some(&mut code), read, parse).is_none());
    assert_eq!(code, ZIP_ER_READ);
    assert!(zip_fdopen(-1, 0, Some(&mut code), read, parse).is_none());
    assert_eq!(code, ZIP_ER_OPEN);
    assert!(zip_fdopen(3, ZIP_CREATE, Some(&mut code), read, parse).is_none());
    assert_eq!(code, ZIP_ER_INVAL);
}

fn two() -> Zip {
    make_zip(archive(&[b"plain", b"aes"]), 0, true, None)
}

#[test]
fn opening_entries() {
    let mut z = two();
    let e = zip_fopen_index(Some(&mut z), 0, 0, content, stat).unwrap();
    assert_eq!(e.data, b"hello");
    assert_eq!((e.size, e.crc), (5, Some(0xabcd)));
    assert_eq!(e.file.last_error, 0);
    let e = zip_fopen(Some(&mut z), Some(b"plain"), 0, content, stat).unwrap();
    assert_eq!(e.data, b"hello");
    assert!(zip_fopen(Some(&mut z), Some(b"none"), 0, content, stat).is_none());
    assert_eq!(z.error.zip_err, ZIP_ER_NOENT);
    assert!(zip_fopen(Some(&mut z), None, 0, content, stat).is_none());
    assert_eq!(z.error.zip_err, ZIP_ER_INVAL);
    assert!(zip_fopen_index(Some(&mut z), 1, 0, content, stat).is_none());
    assert_eq!(z.error.zip_err, ZIP_ER_WRONGPASSWD);
    assert!(zip_fopen_index(Some(&mut z), 9, 0, content, stat).is_none());
    assert_eq!(z.error.zip_err, ZIP_ER_INVAL);
    assert!(zip_fopen_index(None, 0, 0, content, stat).is_none());
}

#[test]
fn opening_encrypted_entries() {
    let mut z = two();
    let e = zip_fopen_index_encrypted(Some(&mut z), 1, 0, Some(b"pw"), decrypt, stat).unwrap();
    assert_eq!(e.data, b"secret");
    // AES entries carry no CRC.
    assert_eq!(e.crc, None);
    let e = zip_fopen_encrypted(Some(&mut z), Some(b"aes"), 0, Some(b"pw"), decrypt, stat);
    assert_eq!(e.unwrap().data, b"secret");
    assert!(
        zip_fopen_encrypted(Some(&mut z), Some(b"aes"), 0, Some(b"no"), decrypt, stat).is_none()
    );
    assert_eq!(z.error.zip_err, ZIP_ER_WRONGPASSWD);
    assert!(zip_fopen_encrypted(Some(&mut z), Some(b"aes"), 0, None, decrypt, stat).is_none());
    assert_eq!(z.error.zip_err, ZIP_ER_INVAL);
}

#[test]
fn reading_an_open_entry() {
    let mut f = ZipFile::new();
    assert_eq!(zip_fread(Some(&mut f), true, 10), ReaderStep::Move(10));
    assert_eq!(read_done(&mut f, Some(5)), 5);
    assert_eq!(read_done(&mut f, None), -1);
    assert_eq!(f.last_error, ZIP_ER_READ);
    assert_eq!(zip_file_strerror(Some(&f)), Some("Read error"));
    let (mut a, mut b) = (9, 9);
    zip_file_error_get(Some(&f), Some(&mut a), Some(&mut b));
    assert_eq!((a, b), (ZIP_ER_READ, 0));
    assert_eq!(zip_file_get_error(Some(&f)).unwrap().zip_err, ZIP_ER_READ);
    zip_file_error_clear(Some(&mut f));
    assert_eq!(zip_file_strerror(Some(&f)), Some("No error"));
    assert_eq!(zip_fread(None, true, 1), ReaderStep::Failed);
    assert_eq!(zip_fclose(Some(f)), 0);
    assert_eq!(zip_fclose(None), -1);
    assert!(zip_file_strerror(None).is_none());
}

#[test]
fn seeking_an_open_entry() {
    let mut f = ZipFile::new();
    assert_eq!(zip_fseek(Some(&mut f), 4, SEEK_SET, 0, 10), ReaderStep::Move(4));
    assert_eq!(zip_fseek(Some(&mut f), -2, SEEK_CUR, 6, 10), ReaderStep::Move(4));
    assert_eq!(zip_fseek(Some(&mut f), -10, SEEK_END, 0, 10), ReaderStep::Move(0));
    assert_eq!(zip_fseek(Some(&mut f), -11, SEEK_END, 0, 10), ReaderStep::Failed);
    assert_eq!(f.last_error, ZIP_ER_INVAL);
    assert_eq!(zip_fseek(Some(&mut f), 0, 9, 0, 10), ReaderStep::Failed);
    assert_eq!(seek_done(&mut f, true), 0);
    assert_eq!(seek_done(&mut f, false), -1);
    assert_eq!(f.last_error, ZIP_ER_SEEK);
    assert_eq!(zip_ftell(Some(&f), 7), 7);
    assert_eq!(zip_ftell(None, 7), -1);
    assert_eq!(zip_file_is_seekable(Some(&f), true), 1);
    assert_eq!(zip_file_is_seekable(Some(&f), false), 0);
    assert_eq!(zip_file_is_seekable(None, true), -1);
}

fn to_unix(t: EntryTime) -> i64 {
    match t {
        EntryTime::Unix(s) => s as i64,
        EntryTime::Dos(time, date) => time as i64 * 1000 + date as i64,
    }
}

#[test]
fn stat_of_entries() {
    let mut z = two();
    let mut sb = StatRecord::empty();
    assert_eq!(zip_stat_index(Some(&mut z), 0, 0, Some(&mut sb), stat, to_unix), 0);
    assert_eq!(sb.valid, 0x7f);
    assert_eq!(sb.name.as_deref(), Some(&b"plain"[..]));
    assert_eq!((sb.index, sb.size, sb.comp_size), (0, 5, 4));
    assert_eq!((sb.crc, sb.comp_method, sb.encryption_method), (0xabcd, 8, 0));
    assert_eq!(sb.mtime, 5006);
    // Edits of the time are seen.
    assert_eq!(zip_file_set_mtime(Some(&mut z), 0, 77, 0), 0);
    assert_eq!(zip_stat(Some(&mut z), Some(b"plain"), 0, Some(&mut sb), stat, to_unix), 0);
    assert_eq!(sb.mtime, 77);
    assert_eq!(zip_file_set_dostime(Some(&mut z), 1, 1, 2, 0), 0);
    assert_eq!(zip_stat(Some(&mut z), Some(b"aes"), 0, Some(&mut sb), stat, to_unix), 0);
    assert_eq!(sb.mtime, 1002);
    // A Unix time goes before a DOS time.
    assert_eq!(zip_file_set_mtime(Some(&mut z), 1, -5, 0), 0);
    assert_eq!(zip_stat(Some(&mut z), Some(b"aes"), 0, Some(&mut sb), stat, to_unix), 0);
    assert_eq!(sb.mtime, 0);
    assert_eq!(zip_stat(Some(&mut z), Some(b"none"), 0, Some(&mut sb), stat, to_unix), -1);
    assert_eq!(zip_stat_index(Some(&mut z), 9, 0, Some(&mut sb), stat, to_unix), -1);
    assert_eq!(z.error.zip_err, ZIP_ER_INVAL);
    assert_eq!(zip_stat_index(Some(&mut z), 0, 0, None, stat, to_unix), -1);
    assert_eq!(zip_stat_index(None, 0, 0, Some(&mut sb), stat, to_unix), -1);
}

#[test]
fn entries_are_sources() {
    let mut z = two();
    let mut code = -1;
    // The packed contents are asked for by a flag.
    let read = |i: u64, packed: bool| if packed { Ok(b"pack".to_vec()) } else { content(i) };
    let s: Option<PlainSource> =
        zip_source_zip_create(Some(&z), 0, 0, 1, 3, Some(&mut code), read, stat);
    assert_eq!(s.unwrap().read_all().unwrap(), b"ell");
    let s: Option<PlainSource> =
        zip_source_zip_create(Some(&z), 0, ZIP_FL_COMPRESSED, 0, -1, Some(&mut code), read, stat);
    assert_eq!(s.unwrap().read_all().unwrap(), b"pack");
    let s: Option<PlainSource> =
        zip_source_zip_create(None, 0, 0, 0, -1, Some(&mut code), read, stat);
    assert!(s.is_none());
    assert_eq!(code, ZIP_ER_READ);
    let from = two();
    let s: Option<PlainSource> =
        zip_source_zip(Some(&mut z), Some(&from), 0, 0, 0, 2, read, stat);
    assert_eq!(s.unwrap().read_all().unwrap(), b"he");
}

#[test]
fn callbacks_are_registered() {
    let mut slot: Slot<u32> = Slot::new();
    assert!(!slot.is_registered());
    assert_eq!(
        zip_register_progress_callback_with_state(Some(&mut slot), Some(1)),
        (0, None)
    );
    assert!(slot.is_registered());
    // The one before is given back, to be released.
    assert_eq!(
        zip_register_cancel_callback_with_state(Some(&mut slot), Some(2)),
        (0, Some(1))
    );
    assert_eq!(zip_register_progress_callback(Some(&mut slot), None), Some(2));
    assert!(!slot.is_registered());
    assert_eq!(zip_register_progress_callback_with_state(None, Some(3)).0, -1);
    assert!(asks_to_cancel(1));
    assert!(!asks_to_cancel(0));
}
