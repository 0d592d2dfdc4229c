use kzip::bench::{fnv_update, Tally, FNV_START};
use kzip::checksum::crc32;
use kzip::corpus::{
    begin_corpus_archive, edits_of_archive, edits_of_entry, handcraft_data_descriptor,
    handcraft_extra_fields, handcraft_zip64, make_descriptor_archive, next_corpus_action,
    rand_bytes, text, ArchiveSpec, CorpusAction, CorpusEdit, CorpusEvent, CorpusStage, EntrySpec,
};
use kzip::corpus_specs::corpus_specs;
use kzip::harness::{
    all_archives_match, check_archive, check_entries, check_entry, check_unopened,
    contains_bytes, corpus_password, fingerprint, has_name, is_named, needs_password,
    process_archive, process_entries, record_read, record_unopened, sha256hex, Finding, NamedStat,
    Probe, StatRecord,
};
use kzip::le::{push_le16, push_le32, push_le64};
use kzip::reading::{
    read_content, read_entry, read_to_end, EntryRead, OpenEntry, ReadProgress,
};
use kzip::text::{append_decimal, append_hex, append_signed, hex_of_bytes};
use std::cell::Cell;
use std::collections::VecDeque;
use std::io::Read;
use std::rc::Rc;

#[test]
fn numbers_as_text() {
    let mut s = String::from("n=");
    append_decimal(&mut s, 0);
    append_decimal(&mut s, u64::MAX);
    append_signed(&mut s, -7);
    append_signed(&mut s, i64::MIN);
    append_hex(&mut s, 0x1f, 4);
    assert_eq!(s, "n=018446744073709551615-7-9223372036854775808001f");
    assert_eq!(hex_of_bytes(&vec![0, 0xa5, 0xff]), "00a5ff");
}

#[test]
fn numbers_as_bytes() {
    let mut v = vec![];
    push_le16(&mut v, 0x0102);
    push_le32(&mut v, 0x0304_0506);
    push_le64(&mut v, 0x0708_090a_0b0c_0d0e);
    assert_eq!(v, [2, 1, 6, 5, 4, 3, 14, 13, 12, 11, 10, 9, 8, 7]);
}

#[test]
fn corpus_content() {
    // The seed is made odd.
    assert_eq!(rand_bytes(8, 8), [0x49, 0x22, 0x93, 0x44, 2, 0, 0, 0]);
    assert_eq!(rand_bytes(9, 8), rand_bytes(8, 8));
    assert_eq!(rand_bytes(9, 3).len(), 3);
    assert_eq!(text("ab\u{e9}", 2), "ab\u{e9}ab\u{e9}".as_bytes());
    assert!(text("x", 0).is_empty());
}

fn u16_at(v: &[u8], at: usize) -> usize {
    v[at] as usize | (v[at + 1] as usize) << 8
}

fn u32_at(v: &[u8], at: usize) -> usize {
    u16_at(v, at) | u16_at(v, at + 2) << 16
}

/// The start of the end of central directory record.
fn end_of(v: &[u8]) -> usize {
    let at = v.len() - 22;
    assert_eq!(&v[at..at + 4], b"PK\x05\x06");
    at
}

#[test]
fn an_archive_with_extra_fields() {
    let v = handcraft_extra_fields();
    let content = b"entry with extra fields";
    assert_eq!(&v[..4], b"PK\x03\x04");
    assert_eq!(u32_at(&v, 14), crc32(content) as usize);
    assert_eq!(u32_at(&v, 22), content.len());
    assert_eq!(u16_at(&v, 26), 9);
    assert_eq!(u16_at(&v, 28), 8);
    assert_eq!(&v[30..39], b"extra.txt");
    assert_eq!(&v[39..47], [0xFE, 0xCA, 4, 0, 0xDE, 0xAD, 0xBE, 0xEF]);
    assert_eq!(&v[47..70], content);
    let end = end_of(&v);
    let central = u32_at(&v, end + 16);
    assert_eq!(central, 70);
    assert_eq!(u32_at(&v, end + 12), end - central);
    assert_eq!(&v[central..central + 4], b"PK\x01\x02");
    assert!(contains_bytes(&v[central..end], b"file comment here"));
}

#[test]
fn an_archive_with_zip64_records() {
    let v = handcraft_zip64();
    let content = b"zip64 minimal payload";
    assert_eq!(u16_at(&v, 4), 45);
    assert_eq!(u32_at(&v, 14), crc32(content) as usize);
    assert_eq!(u32_at(&v, 18), 0xFFFF_FFFF);
    assert_eq!(&v[30..45], b"zip64_entry.txt");
    // The extra field: its identifier, its length, and the two sizes.
    assert_eq!(u16_at(&v, 45), 1);
    assert_eq!(u16_at(&v, 47), 24);
    assert_eq!(u32_at(&v, 49), content.len());
    assert_eq!(u32_at(&v, 57), content.len());
    let end = end_of(&v);
    assert_eq!(&v[end - 20..end - 16], b"PK\x06\x07");
    let record = u32_at(&v, end - 12);
    assert_eq!(&v[record..record + 4], b"PK\x06\x06");
    assert_eq!(record, end - 20 - 56);
    assert_eq!(u32_at(&v, end + 12), 0xFFFF_FFFF);
}

#[test]
fn an_archive_with_a_data_descriptor() {
    let v = handcraft_data_descriptor();
    let content = b"data-descriptor payload payload payload payload";
    assert_eq!(u16_at(&v, 6), 8);
    assert_eq!(u16_at(&v, 8), 8);
    assert_eq!(u32_at(&v, 14), 0);
    assert_eq!(&v[30..36], b"dd.txt");
    let end = end_of(&v);
    let central = u32_at(&v, end + 16);
    let packed = u32_at(&v, central + 20);
    // The packed data is deflated.
    let mut out = Vec::new();
    flate2::read::DeflateDecoder::new(&v[36..36 + packed]).read_to_end(&mut out).unwrap();
    assert_eq!(out, content);
    assert_ne!(&v[36..36 + packed], content);
    let d = 36 + packed;
    assert_eq!(&v[d..d + 4], b"PK\x07\x08");
    assert_eq!(u32_at(&v, d + 4), crc32(content) as usize);
    assert_eq!(u32_at(&v, d + 8), packed);
    assert_eq!(u32_at(&v, d + 12), content.len());
    assert_eq!(central, d + 16);
    assert_eq!(make_descriptor_archive(b"dd.txt", content, &v[36..d]), v);
}

fn corpus_entry(name: &str, mtime: Option<i64>, comment: Option<&str>) -> EntrySpec {
    EntrySpec {
        name: name.to_string(),
        data: vec![1],
        method: 8,
        level: 6,
        mtime,
        comment: comment.map(|c| c.to_string()),
    }
}

#[test]
fn edits_of_a_corpus_archive() {
    let e = edits_of_entry(&corpus_entry("a", Some(5), Some("c")), 3);
    assert_eq!(e.len(), 3);
    assert!(matches!(e[0], CorpusEdit::Method(3, 8, 6)));
    assert!(matches!(e[1], CorpusEdit::Mtime(3, 5)));
    assert!(matches!(&e[2], CorpusEdit::Comment(3, c) if c == "c"));
    assert_eq!(edits_of_entry(&corpus_entry("a", None, None), 3).len(), 1);
    let a = ArchiveSpec {
        filename: "x.zip".to_string(),
        comment: Some("all".to_string()),
        keep_empty: true,
        entries: vec![],
    };
    let e = edits_of_archive(&a);
    assert_eq!(e.len(), 2);
    assert!(matches!(&e[0], CorpusEdit::ArchiveComment(c) if c == "all"));
    assert!(matches!(e[1], CorpusEdit::KeepEmpty));
}

/// Runs the writing of an archive, in which entry `i` is added under `2 * i`, and
/// gives the actions and the result.
fn run_corpus(
    a: &ArchiveSpec,
    mirror: fn(usize) -> Result<(), String>,
    add: fn(usize) -> CorpusEvent,
    closed: i32,
) -> (Vec<String>, Result<(), String>) {
    let mut actions = Vec::new();
    let (mut stage, mut action) = begin_corpus_archive(a);
    loop {
        actions.push(format!("{:?}", action));
        let event = match action {
            CorpusAction::Mirror(i) => CorpusEvent::Mirrored(mirror(i)),
            CorpusAction::Add(i) => add(i),
            CorpusAction::Edit(_) => CorpusEvent::Edited,
            CorpusAction::Close => CorpusEvent::Closed(closed),
            CorpusAction::Finish(r) => {
                assert_eq!(stage, CorpusStage::Over);
                return (actions, r);
            }
        };
        (stage, action) = next_corpus_action(a, stage, event);
    }
}

#[test]
fn corpus_archives_are_written() {
    let a = ArchiveSpec {
        filename: "x.zip".to_string(),
        comment: Some("all".to_string()),
        keep_empty: true,
        entries: vec![corpus_entry("a", Some(5), None), corpus_entry("b", None, Some("c"))],
    };
    let fine = |_i: usize| Ok(());
    let added = |i: usize| CorpusEvent::Added(Some(2 * i as u64));
    let (actions, r) = run_corpus(&a, fine, added, 0);
    assert_eq!(r, Ok(()));
    assert_eq!(
        actions,
        [
            "Mirror(0)",
            "Add(0)",
            "Edit(Method(0, 8, 6))",
            "Edit(Mtime(0, 5))",
            "Mirror(1)",
            "Add(1)",
            "Edit(Method(2, 8, 6))",
            "Edit(Comment(2, \"c\"))",
            "Edit(ArchiveComment(\"all\"))",
            "Edit(KeepEmpty)",
            "Close",
            "Finish(Ok(()))",
        ]
    );
    // An entry that cannot be added is the last one.
    let one = |i: usize| CorpusEvent::Added(if i == 0 { Some(0) } else { None });
    let (actions, r) = run_corpus(&a, fine, one, 0);
    assert_eq!(r, Ok(()));
    assert_eq!(actions[4..], ["Mirror(1)", "Add(1)", "Close", "Finish(Ok(()))"]);
    let (_, r) = run_corpus(&a, fine, added, -3);
    assert_eq!(r.unwrap_err(), "zip_close failed rc=-3");
    let (actions, r) = run_corpus(&a, |_i: usize| Err("disk full".to_string()), added, 0);
    assert_eq!(r.unwrap_err(), "disk full");
    assert_eq!(actions.len(), 2);
    let bad = |_i: usize| CorpusEvent::BadName("bad name".to_string());
    let (actions, r) = run_corpus(&a, fine, bad, 0);
    assert_eq!(r.unwrap_err(), "bad name");
    assert_eq!(actions[..2], ["Mirror(0)", "Add(0)"]);
    assert_eq!(actions.len(), 3);
}

#[test]
fn digests() {
    assert_eq!(
        sha256hex(b""),
        "e3b0c44298fc1c149afbf4c8996fb92427ae41e4649b934ca495991b7852b855"
    );
    assert_eq!(
        sha256hex(b"abc"),
        "ba7816bf8f01cfea414140de5dae2223b00361a396177a9cb410ff61f20015ad"
    );
    assert_eq!(fingerprint(0xabc), "0000000000000abc");
}

#[test]
fn encrypted_archives_are_known_by_name() {
    assert!(needs_password("x/enc_zipcrypto_1.zip"));
    assert!(needs_password("aes128_enc.zip"));
    assert!(needs_password("07_aes256_enc.zip"));
    assert!(!needs_password("aes_enc.zip"));
    assert!(!needs_password(""));
    assert_eq!(corpus_password(), "kzip-test-password");
    assert!(contains_bytes(b"abc", b"") && contains_bytes(b"abc", b"c"));
    assert!(!contains_bytes(b"ab", b"abc"));
}

#[test]
fn progress_of_reads() {
    let mut t = Tally::new();
    assert_eq!(t.take_up(2, b"abc"), ReadProgress::More);
    assert_eq!(t.bytes, 2);
    assert_eq!(t.checksum, fnv_update(FNV_START, b"ab"));
    assert_eq!(t.take_up(0, b"abc"), ReadProgress::End);
    assert_eq!(t.take_up(-1, b"abc"), ReadProgress::Failed);
    assert_eq!(t.bytes, 2);
    let (after, e) = read_to_end(Tally::new(), answering(&[(2, b"xyz"), (1, b"xyz"), (0, b"")]));
    assert!(e.ok);
    assert_eq!(e.tally.checksum, fnv_update(FNV_START, b"xyx"));
    assert_eq!(e.tally.bytes, 3);
    assert!(after.answers.is_empty());
    // Reading goes on from what was read before.
    let start = Tally { bytes: 5, checksum: fnv_update(FNV_START, b"hello") };
    let (_, e) = read_to_end(start, answering(&[(1, b"!"), (-1, b"")]));
    assert!(!e.ok);
    assert_eq!((e.tally.bytes, e.tally.checksum), (6, fnv_update(FNV_START, b"hello!")));
    assert!(!read_to_end(Tally::new(), answering(&[(5, b"x")])).1.ok);
    // What cannot be counted is a failure.
    let full = Tally { bytes: u64::MAX, checksum: 1 };
    let (_, e) = read_to_end(full, answering(&[(1, b"x")]));
    assert_eq!(e, EntryRead { tally: full, ok: false });
}

/// An open entry that gives these answers, and notes how often it is closed.
struct Answering {
    answers: VecDeque<(i64, Vec<u8>)>,
    closed: Rc<Cell<u32>>,
}

impl OpenEntry for Answering {
    fn read_on(mut self) -> (Self, (i64, Vec<u8>)) {
        let answer = self.answers.pop_front().unwrap();
        (self, answer)
    }

    fn close(self) -> i32 {
        self.closed.set(self.closed.get() + 1);
        0
    }
}

fn answering(answers: &[(i64, &[u8])]) -> Answering {
    Answering {
        answers: answers.iter().map(|(n, b)| (*n, b.to_vec())).collect(),
        closed: Rc::new(Cell::new(0)),
    }
}

/// An open entry with this content, which comes in chunks of this size.
fn chunked(data: &[u8], size: usize) -> Answering {
    let mut answers: VecDeque<(i64, Vec<u8>)> = data
        .chunks(size)
        .map(|c| (c.len() as i64, [c, b"#"].concat()))
        .collect();
    answers.push_back((0, b"#".to_vec()));
    Answering { answers, closed: Rc::new(Cell::new(0)) }
}

fn entry_read(data: &[u8]) -> Option<EntryRead> {
    let mut tally = Tally::new();
    tally.absorb(data);
    Some(EntryRead { tally, ok: true })
}

fn stat_record(index: u64) -> StatRecord {
    StatRecord {
        ret: 0,
        valid: 1,
        name: None,
        index,
        size: 2,
        comp_size: 3,
        mtime: 4,
        crc: 5,
        comp_method: 6,
        encryption_method: 0,
    }
}

#[test]
fn reads_are_recorded() {
    let r = record_read(entry_read(b"a"), "absent");
    assert_eq!(r.status, "ok");
    assert_eq!(r.len, 1);
    assert_eq!(r.fnv.as_deref(), Some("af63dc4c8601ec8c"));
    let failed = Some(EntryRead { tally: Tally::new(), ok: false });
    assert_eq!(record_read(failed, "absent").status, "read_failed");
    let r = record_read(None, "absent");
    assert_eq!((r.status.as_str(), r.len, r.fnv), ("absent", 0, None));
}

#[test]
fn archives_are_recorded() {
    let names = |i: u64| if i == 0 { Some("a".to_string()) } else { None };
    let r = process_archive(
        "x.zip".to_string(),
        0,
        2,
        names,
        |n: String| Some(chunked(n.as_bytes(), 1)),
        |i: u64| if i == 1 { Some(answering(&[(2, b"bc"), (-1, b"")])) } else { None },
        stat_record,
        |_n: String| NamedStat { ret: 0, size: 9, comp_method: 8 },
        || Probe { opened: false, message: Some("No such file".to_string()) },
        || Probe { opened: true, message: None },
    );
    assert_eq!(r.archive, "x.zip");
    assert_eq!((r.open_error, r.num_entries), (Some(0), Some(2)));
    assert_eq!(r.entries.len(), 2);
    assert_eq!(r.entries[0].name.as_deref(), Some("a"));
    assert_eq!(r.entries[0].fopen.len, 1);
    assert_eq!(r.entries[0].fopen.status, "ok");
    assert_eq!(r.entries[0].fopen.fnv.as_deref(), Some("af63dc4c8601ec8c"));
    assert_eq!(r.entries[0].fopen_index.status, "failed");
    assert_eq!(r.entries[1].fopen.status, "no_name");
    let failed = &r.entries[1].fopen_index;
    assert_eq!((failed.status.as_str(), failed.len), ("read_failed", 2));
    assert_eq!(r.entries[0].stat_by_name.size, 9);
    assert_eq!(r.entries[1].stat.index, 1);
    assert_eq!(r.entries[1].stat_by_name.ret, -1);
    assert_eq!(r.err_fopen_missing_status, "failed");
    assert_eq!(r.err_fopen_missing_strerror.as_deref(), Some("No such file"));
    assert_eq!(r.err_fopen_index_oob_status, "opened");
    let r = record_unopened("y.zip".to_string(), 19, "not_opened");
    assert_eq!((r.open_error, r.num_entries), (Some(19), None));
    assert_eq!(r.err_fopen_missing_status, "not_opened");
    let p = process_entries(2, names, |n: String| Some(chunked(n.as_bytes(), 1)));
    assert_eq!(p.len(), 2);
    assert_eq!(p[0].read.status, "ok");
    assert_eq!(p[1].index, 1);
    assert!(process_entries(-1, names, |_n: String| None::<Answering>).is_empty());
}

#[test]
fn entries_are_checked() {
    let c = check_entry(4, Some("n".to_string()), 3, 8, b"abc", b"abc", true);
    assert!(c.bytes_match && c.size_match && c.name_match);
    assert_eq!(c.expected_sha256, sha256hex(b"abc"));
    let c = check_entry(4, None, 3, 8, b"abc", b"abd", true);
    assert!(!c.bytes_match && c.size_match);
    assert_ne!(c.expected_sha256, c.read_sha256);
    let find = |i: u64| Finding {
        name: None,
        size: 1,
        method: 0,
        expected: vec![1],
        read: vec![1],
        name_match: i != 1,
    };
    let a = check_entries("x".to_string(), 3, true, find);
    assert_eq!((a.num_entries, a.all_match), (3, false));
    let b = check_entries("x".to_string(), 3, false, find);
    assert!(b.all_match);
    assert!(check_archive("e".to_string(), vec![], true).all_match);
    let u = check_unopened("u".to_string());
    assert!(!u.all_match);
    assert!(all_archives_match(&vec![b]));
    assert!(!all_archives_match(&vec![u, a]));
    assert!(all_archives_match(&vec![]));
    assert!(has_name(&Some("a".to_string())) && !has_name(&None));
    assert!(is_named(&Some("a".to_string()), "a") && !is_named(&None, "a"));
}

#[test]
fn content_is_read_in_any_chunks() {
    let data = b"the content of an entry";
    for size in [1, 2, 7, 100] {
        assert_eq!(read_content(chunked(data, size)).1.unwrap(), data);
        let (after, seen) = read_to_end(Tally::new(), chunked(data, size));
        assert_eq!(Some(seen), entry_read(data));
        assert_eq!(seen.tally.bytes, 23);
        assert!(after.answers.is_empty());
        let opened = chunked(data, size);
        let closed = opened.closed.clone();
        assert_eq!(read_entry(Some(opened)), entry_read(data));
        assert_eq!(closed.get(), 1);
    }
    assert_eq!(read_entry(None::<Answering>), None);
    assert_eq!(read_content(answering(&[(1, b"a"), (-1, b"")])).1, None);
    assert_eq!(read_content(answering(&[(2, b"1")])).1, None);
    assert_eq!(read_content(answering(&[(0, b"1")])).1, Some(vec![]));
}

#[test]
fn the_archives_of_the_corpus() {
    let specs = corpus_specs();
    let shape: Vec<(&str, usize)> =
        specs.iter().map(|a| (a.filename.as_str(), a.entries.len())).collect();
    assert_eq!(
        shape,
        [
            ("basic_deflate.zip", 3),
            ("basic_store.zip", 2),
            ("empty_archive.zip", 0),
            ("one_empty.zip", 1),
            ("deep.zip", 2),
            ("unicode.zip", 3),
            ("large.zip", 1),
            ("huge.zip", 1),
            ("mix.zip", 4),
            ("many.zip", 1500),
            ("many_zip64.zip", 70000),
        ]
    );
    assert_eq!(specs[0].comment.as_deref(), Some("verification basic deflate archive"));
    assert_eq!(specs[0].entries[0].mtime, Some(1_600_000_000));
    assert_eq!(specs[0].entries[0].data, b"hello verification deflate payload ".repeat(120));
    assert_eq!(specs[0].entries[1].comment.as_deref(), Some("numbers file"));
    assert_eq!(specs[0].entries[1].data, rand_bytes(0x1111, 8192));
    assert!(specs[2].keep_empty && !specs[3].keep_empty);
    let mut deep = String::new();
    for d in 0..24 {
        deep.push_str(&format!("level{d:02}/"));
    }
    deep.push_str("leaf.txt");
    assert_eq!(specs[4].entries[0].name, deep);
    assert_eq!(specs[5].comment.as_deref(), Some("caf\u{e9} \u{65e5}\u{672c}\u{8a9e}"));
    assert_eq!(specs[5].entries[2].name, "emojis/\u{1f389}party\u{1f38a}.txt");
    assert_eq!(specs[7].entries[0].data.len(), 8 * 1024 * 1024);
    assert_eq!((specs[8].entries[3].method, specs[8].entries[3].level), (8, 1));
    let e = &specs[9].entries[1499];
    assert_eq!(e.name, "file_1499.txt");
    assert_eq!(e.data, b"many entry content number 1499 ".repeat(4));
    assert_eq!((e.method, specs[9].entries[0].method), (0, 8));
    assert_eq!(specs[9].entries[7].name, "file_0007.txt");
    assert_eq!(specs[10].entries[69_999].name, "z69999.txt");
    assert_eq!(specs[10].entries[8].data, b"zzzzz");
}
