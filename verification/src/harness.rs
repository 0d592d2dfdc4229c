//! Records and checks of the comparison harness, which reads the same archives
//! through two libraries.

use crate::archive::same_bytes;
use crate::bench::{fnv_from, same_text, FNV_START};
use crate::reading::{
    content, entry_read, read_and_closed, read_entry, EntryRead, OpenEntry,
};
use crate::text::{append_hex, hex, hex_bytes, hex_of_bytes};
use vstd::prelude::*;
use vstd::slice::slice_subrange;
use vstd::string::*;
use vstd::utf8::encode_utf8;

verus! {

/// The SHA-256 digest of a byte string: what `sha2::Sha256` gives for it.
pub uninterp spec fn sha256_of(bytes: Seq<u8>) -> Seq<u8>;

/// Calls `sha2::Sha256` by `sha2::Digest::digest`. Claimed of it: the result
/// depends on the bytes alone and is 32 bytes long.
#[verifier::external_body]
fn sha256(bytes: &[u8]) -> (r: Vec<u8>)
    ensures
        r@ == sha256_of(bytes@),
        r@.len() == 32,
{
    <sha2::Sha256 as sha2::Digest>::digest(bytes).to_vec()
}

/// The SHA-256 digest of a byte string, as hexadecimal text.
pub fn sha256hex(data: &[u8]) -> (r: String)
    ensures
        r@ == hex_bytes(sha256_of(data@)),
{
    let digest = sha256(data);
    hex_of_bytes(&digest)
}

/// A checksum as 16 hexadecimal digits.
pub fn fingerprint(sum: u64) -> (r: String)
    ensures
        r@ == hex(sum as nat, 16),
{
    let mut text = String::new();
    append_hex(&mut text, sum, 16);
    assert(text@ =~= hex(sum as nat, 16));
    text
}

/// Whether `needle` stands somewhere in `text`.
pub open spec fn holds(text: Seq<u8>, needle: Seq<u8>) -> bool {
    exists|k: int|
        0 <= k && k + needle.len() <= text.len() && #[trigger] text.subrange(
            k,
            k + needle.len(),
        ) == needle
}

/// Whether `needle` stands somewhere in `text`.
pub fn contains_bytes(text: &[u8], needle: &[u8]) -> (r: bool)
    ensures
        r == holds(text@, needle@),
{
    if needle.len() > text.len() {
        return false;
    }
    let last: usize = text.len() - needle.len();
    let mut k: usize = 0;
    loop
        invariant
            k <= last,
            last + needle@.len() == text@.len(),
            text@.len() <= usize::MAX,
            forall|j: int|
                0 <= j < k ==> #[trigger] text@.subrange(j, j + needle@.len()) != needle@,
        decreases last - k,
    {
        if same_bytes(slice_subrange(text, k, k + needle.len()), needle) {
            assert(text@.subrange(k as int, k + needle@.len()) == needle@);
            return true;
        }
        if k == last {
            return false;
        }
        k += 1;
    }
}

/// Whether the entries of a corpus archive are encrypted, by its file name.
pub open spec fn is_encrypted_name(name: Seq<u8>) -> bool {
    holds(name, encode_utf8("enc_zipcrypto"@)) || holds(name, encode_utf8("aes128_enc"@)) || holds(
        name,
        encode_utf8("aes256_enc"@),
    )
}

/// Whether the entries of a corpus archive are encrypted, by its file name.
pub fn needs_password(name: &str) -> (r: bool)
    ensures
        r == is_encrypted_name(encode_utf8(name@)),
{
    let bytes = name.as_bytes();
    contains_bytes(bytes, "enc_zipcrypto".as_bytes()) || contains_bytes(
        bytes,
        "aes128_enc".as_bytes(),
    ) || contains_bytes(bytes, "aes256_enc".as_bytes())
}

/// The password of the encrypted corpus archives.
pub fn corpus_password() -> (r: &'static str)
    ensures
        r@ == "kzip-test-password"@,
{
    "kzip-test-password"
}

/// What is recorded of an attempt to read an entry.
#[derive(Debug)]
pub struct ReadRecord {
    pub status: String,
    pub len: u64,
    pub fnv: Option<String>,
}

/// Whether a record says what an attempt to read came to: `absent` stands for
/// one that was not made, or that could not open the entry.
pub open spec fn records_read(r: ReadRecord, read: Option<EntryRead>, absent: Seq<char>) -> bool {
    match read {
        Some(e) => {
            &&& r.status@ == (if e.ok { "ok"@ } else { "read_failed"@ })
            &&& r.len == e.tally.bytes
            &&& r.fnv is Some
            &&& r.fnv->0@ == hex(e.tally.checksum as nat, 16)
        },
        None => r.status@ == absent && r.len == 0 && r.fnv is None,
    }
}

/// Records what an attempt to read an entry came to.
pub fn record_read(read: Option<EntryRead>, absent: &str) -> (r: ReadRecord)
    ensures
        records_read(r, read, absent@),
{
    match read {
        Some(e) => ReadRecord {
            status: String::from_str(if e.ok { "ok" } else { "read_failed" }),
            len: e.tally.bytes,
            fnv: Some(fingerprint(e.tally.checksum)),
        },
        None => ReadRecord { status: String::from_str(absent), len: 0, fnv: None },
    }
}

/// A stat record with the result of the call that filled it.
#[derive(Debug)]
pub struct StatRecord {
    pub ret: i32,
    pub valid: u64,
    pub name: Option<String>,
    pub index: u64,
    pub size: u64,
    pub comp_size: u64,
    pub mtime: i64,
    pub crc: u32,
    pub comp_method: u16,
    pub encryption_method: u16,
}

/// What is recorded of a stat by name: the result, the size and the method.
#[derive(Clone, Copy, Debug, PartialEq, Eq, Structural)]
pub struct NamedStat {
    pub ret: i32,
    pub size: u64,
    pub comp_method: u16,
}

/// What is recorded of an entry.
#[derive(Debug)]
pub struct EntryRecord {
    pub index: u64,
    pub name: Option<String>,
    /// Read by name.
    pub fopen: ReadRecord,
    /// Read by index.
    pub fopen_index: ReadRecord,
    pub stat: StatRecord,
    pub stat_by_name: NamedStat,
}

/// Whether a record says what was found out about an entry. Without a name the
/// entry is neither read nor looked up by name; of a failed look-up only the
/// result is recorded.
pub open spec fn records_entry(
    r: EntryRecord,
    index: u64,
    name: Option<String>,
    by_name: Option<EntryRead>,
    by_index: Option<EntryRead>,
    stat: StatRecord,
    named: NamedStat,
) -> bool {
    &&& r.index == index
    &&& match name {
        Some(n) => r.name is Some && r.name->0@ == n@,
        None => r.name is None,
    }
    &&& records_read(
        r.fopen,
        if name is Some { by_name } else { None },
        if name is Some { "failed"@ } else { "no_name"@ },
    )
    &&& records_read(r.fopen_index, by_index, "failed"@)
    &&& r.stat == stat
    &&& r.stat_by_name == (if name is None {
        NamedStat { ret: (-1) as i32, size: 0, comp_method: 0 }
    } else if named.ret == 0 {
        named
    } else {
        NamedStat { ret: named.ret, size: 0, comp_method: 0 }
    })
}

/// Records what was found out about an entry.
pub fn record_entry(
    index: u64,
    name: Option<String>,
    by_name: Option<EntryRead>,
    by_index: Option<EntryRead>,
    stat: StatRecord,
    named: NamedStat,
) -> (r: EntryRecord)
    ensures
        records_entry(r, index, name, by_name, by_index, stat, named),
{
    let known = name.is_some();
    let fopen = if known {
        record_read(by_name, "failed")
    } else {
        record_read(None, "no_name")
    };
    let stat_by_name = if !known {
        NamedStat { ret: -1, size: 0, comp_method: 0 }
    } else if named.ret == 0 {
        named
    } else {
        NamedStat { ret: named.ret, size: 0, comp_method: 0 }
    };
    EntryRecord {
        index,
        name,
        fopen,
        fopen_index: record_read(by_index, "failed"),
        stat,
        stat_by_name,
    }
}

/// What is recorded of an archive.
#[derive(Debug)]
pub struct ArchiveRecord {
    pub archive: String,
    pub open_error: Option<i32>,
    pub num_entries: Option<i64>,
    pub entries: Vec<EntryRecord>,
    pub err_fopen_missing_status: String,
    pub err_fopen_missing_strerror: Option<String>,
    pub err_fopen_index_oob_status: String,
    pub err_fopen_index_oob_strerror: Option<String>,
}

/// Records an archive that was not opened, with `status` for what could not be
/// tried.
pub fn record_unopened(archive: String, code: i32, status: &str) -> (r: ArchiveRecord)
    ensures
        r.archive@ == archive@,
        r.open_error == Some(code),
        r.num_entries is None,
        r.entries@.len() == 0,
        r.err_fopen_missing_status@ == status@,
        r.err_fopen_missing_strerror is None,
        r.err_fopen_index_oob_status@ == status@,
        r.err_fopen_index_oob_strerror is None,
{
    ArchiveRecord {
        archive,
        open_error: Some(code),
        num_entries: None,
        entries: Vec::new(),
        err_fopen_missing_status: String::from_str(status),
        err_fopen_missing_strerror: None,
        err_fopen_index_oob_status: String::from_str(status),
        err_fopen_index_oob_strerror: None,
    }
}

/// Whether an entry that should not be there could be opened, and the message
/// of the library behind that.
#[derive(Debug)]
pub struct Probe {
    pub opened: bool,
    pub message: Option<String>,
}

/// The status of an attempt to open an entry that should not be there.
pub open spec fn probe_status(opened: bool) -> Seq<char> {
    if opened {
        "opened"@
    } else {
        "failed"@
    }
}

/// The record of an entry.
pub open spec fn entry_at(entries: Seq<EntryRecord>, index: u64) -> EntryRecord {
    entries[index as int]
}

/// The number of entries that a count stands for.
pub open spec fn entry_count(num: i64) -> nat {
    if num < 0 {
        0
    } else {
        num as nat
    }
}

/// Whether an entry was opened by its name and read to its end, and reading it
/// came to this.
pub open spec fn read_by_name<E: OpenEntry, A: Fn(String) -> Option<E>>(
    open_named: A,
    name: Seq<char>,
    r: Option<EntryRead>,
) -> bool {
    exists|text: String, opened: Option<E>|
        {
            &&& text@ == name
            &&& #[trigger] call_ensures(open_named, (text,), opened)
            &&& entry_read(opened, r)
        }
}

/// Whether an entry was opened by its index and read to its end, and reading it
/// came to this.
pub open spec fn read_by_index<E: OpenEntry, B: Fn(u64) -> Option<E>>(
    open_index: B,
    index: u64,
    r: Option<EntryRead>,
) -> bool {
    exists|opened: Option<E>| #[trigger]
        call_ensures(open_index, (index,), opened) && entry_read(opened, r)
}

/// Records an open archive with `num` entries. `name` gives the name of an
/// entry, `open_named` and `open_index` open one, which is then read to its end
/// and closed, `stat_index` and `stat_named` give its metadata, and `missing`
/// and `beyond` try to open an entry that is not there, by name and by index.
pub fn process_archive<
    E: OpenEntry,
    N: Fn(u64) -> Option<String>,
    A: Fn(String) -> Option<E>,
    B: Fn(u64) -> Option<E>,
    S: Fn(u64) -> StatRecord,
    T: Fn(String) -> NamedStat,
    M: Fn() -> Probe,
    O: Fn() -> Probe,
>(
    archive: String,
    open_error: i32,
    num: i64,
    name: N,
    open_named: A,
    open_index: B,
    stat_index: S,
    stat_named: T,
    missing: M,
    beyond: O,
) -> (r: ArchiveRecord)
    requires
        forall|i: u64| call_requires(name, (i,)),
        forall|n: String| call_requires(open_named, (n,)),
        forall|i: u64| call_requires(open_index, (i,)),
        forall|i: u64| call_requires(stat_index, (i,)),
        forall|n: String| call_requires(stat_named, (n,)),
        call_requires(missing, ()),
        call_requires(beyond, ()),
    ensures
        r.archive@ == archive@,
        r.open_error == Some(open_error),
        r.num_entries == Some(num),
        r.entries@.len() == entry_count(num),
        forall|i: u64|
            #![trigger entry_at(r.entries@, i)]
            i < entry_count(num) ==> exists|
                n: Option<String>,
                a: Option<EntryRead>,
                b: Option<EntryRead>,
                s: StatRecord,
                t: NamedStat,
            |
                {
                    &&& call_ensures(name, (i,), n)
                    &&& n is Some ==> read_by_name(open_named, n->0@, a)
                    &&& read_by_index(open_index, i, b)
                    &&& call_ensures(stat_index, (i,), s)
                    &&& n is Some ==> exists|text: String|
                        text@ == n->0@ && #[trigger] call_ensures(stat_named, (text,), t)
                    &&& #[trigger] records_entry(entry_at(r.entries@, i), i, n, a, b, s, t)
                },
        exists|p: Probe|
            {
                &&& #[trigger] call_ensures(missing, (), p)
                &&& r.err_fopen_missing_status@ == probe_status(p.opened)
                &&& r.err_fopen_missing_strerror == p.message
            },
        exists|p: Probe|
            {
                &&& #[trigger] call_ensures(beyond, (), p)
                &&& r.err_fopen_index_oob_status@ == probe_status(p.opened)
                &&& r.err_fopen_index_oob_strerror == p.message
            },
{
    let mut entries: Vec<EntryRecord> = Vec::new();
    let mut i: u64 = 0;
    let count: u64 = if num < 0 { 0 } else { num as u64 };
    while i < count
        invariant
            i <= count,
            count == entry_count(num),
            entries@.len() == i,
            forall|i: u64| call_requires(name, (i,)),
            forall|n: String| call_requires(open_named, (n,)),
            forall|i: u64| call_requires(open_index, (i,)),
            forall|i: u64| call_requires(stat_index, (i,)),
            forall|n: String| call_requires(stat_named, (n,)),
            forall|j: u64|
                #![trigger entry_at(entries@, j)]
                j < i ==> exists|
                    n: Option<String>,
                    a: Option<EntryRead>,
                    b: Option<EntryRead>,
                    s: StatRecord,
                    t: NamedStat,
                |
                    {
                        &&& call_ensures(name, (j,), n)
                        &&& n is Some ==> read_by_name(open_named, n->0@, a)
                        &&& read_by_index(open_index, j, b)
                        &&& call_ensures(stat_index, (j,), s)
                        &&& n is Some ==> exists|text: String|
                            text@ == n->0@ && #[trigger] call_ensures(stat_named, (text,), t)
                        &&& #[trigger] records_entry(entry_at(entries@, j), j, n, a, b, s, t)
                    },
        decreases count - i,
    {
        let found = name(i);
        let by_name = match &found {
            Some(n) => read_entry(open_named(n.clone())),
            None => None,
        };
        let by_index = read_entry(open_index(i));
        let stat = stat_index(i);
        let named = match &found {
            Some(n) => stat_named(n.clone()),
            None => NamedStat { ret: -1, size: 0, comp_method: 0 },
        };
        let ghost held = entries@;
        let ghost n0 = found;
        let ghost s0 = stat;
        let record = record_entry(i, found, by_name, by_index, stat, named);
        assert(records_entry(record, i, n0, by_name, by_index, s0, named));
        entries.push(record);
        assert forall|j: u64| #![trigger entry_at(entries@, j)] j < i + 1 implies exists|
            n: Option<String>,
            a: Option<EntryRead>,
            b: Option<EntryRead>,
            s: StatRecord,
            t: NamedStat,
        |
            {
                &&& call_ensures(name, (j,), n)
                &&& n is Some ==> read_by_name(open_named, n->0@, a)
                &&& read_by_index(open_index, j, b)
                &&& call_ensures(stat_index, (j,), s)
                &&& n is Some ==> exists|text: String|
                    text@ == n->0@ && #[trigger] call_ensures(stat_named, (text,), t)
                &&& #[trigger] records_entry(entry_at(entries@, j), j, n, a, b, s, t)
            } by {
            if j < i {
                assert(entry_at(entries@, j) == entry_at(held, j));
            } else {
                assert(records_entry(
                    entry_at(entries@, j),
                    j,
                    n0,
                    by_name,
                    by_index,
                    s0,
                    named,
                ));
            }
        }
        i += 1;
    }
    let absent = missing();
    let outside = beyond();
    ArchiveRecord {
        archive,
        open_error: Some(open_error),
        num_entries: Some(num),
        entries,
        err_fopen_missing_status: String::from_str(
            if absent.opened { "opened" } else { "failed" },
        ),
        err_fopen_missing_strerror: absent.message,
        err_fopen_index_oob_status: String::from_str(
            if outside.opened { "opened" } else { "failed" },
        ),
        err_fopen_index_oob_strerror: outside.message,
    }
}

/// What the shorter run records of an entry.
#[derive(Debug)]
pub struct PlainEntry {
    pub index: u64,
    pub name: Option<String>,
    pub read: ReadRecord,
}

/// Whether a record says what the shorter run found out about an entry.
pub open spec fn records_plain(
    r: PlainEntry,
    index: u64,
    name: Option<String>,
    read: Option<EntryRead>,
) -> bool {
    &&& r.index == index
    &&& match name {
        Some(n) => r.name is Some && r.name->0@ == n@,
        None => r.name is None,
    }
    &&& records_read(
        r.read,
        if name is Some { read } else { None },
        if name is Some { "fopen_failed"@ } else { "no_name"@ },
    )
}

/// The record of an entry.
pub open spec fn plain_at(entries: Seq<PlainEntry>, index: u64) -> PlainEntry {
    entries[index as int]
}

/// Records the entries of an open archive with `num` entries. `name` gives the
/// name of an entry, and `open_named` opens one, which is then read to its end
/// and closed.
pub fn process_entries<E: OpenEntry, N: Fn(u64) -> Option<String>, A: Fn(String) -> Option<E>>(
    num: i64,
    name: N,
    open_named: A,
) -> (r: Vec<PlainEntry>)
    requires
        forall|i: u64| call_requires(name, (i,)),
        forall|n: String| call_requires(open_named, (n,)),
    ensures
        r@.len() == entry_count(num),
        forall|i: u64|
            #![trigger plain_at(r@, i)]
            i < entry_count(num) ==> exists|n: Option<String>, a: Option<EntryRead>|
                {
                    &&& call_ensures(name, (i,), n)
                    &&& n is Some ==> read_by_name(open_named, n->0@, a)
                    &&& #[trigger] records_plain(plain_at(r@, i), i, n, a)
                },
{
    let mut entries: Vec<PlainEntry> = Vec::new();
    let mut i: u64 = 0;
    let count: u64 = if num < 0 { 0 } else { num as u64 };
    while i < count
        invariant
            i <= count,
            count == entry_count(num),
            entries@.len() == i,
            forall|i: u64| call_requires(name, (i,)),
            forall|n: String| call_requires(open_named, (n,)),
            forall|j: u64|
                #![trigger plain_at(entries@, j)]
                j < i ==> exists|n: Option<String>, a: Option<EntryRead>|
                    {
                        &&& call_ensures(name, (j,), n)
                        &&& n is Some ==> read_by_name(open_named, n->0@, a)
                        &&& #[trigger] records_plain(plain_at(entries@, j), j, n, a)
                    },
        decreases count - i,
    {
        let found = name(i);
        let by_name = match &found {
            Some(n) => read_entry(open_named(n.clone())),
            None => None,
        };
        let read = if found.is_some() {
            record_read(by_name, "fopen_failed")
        } else {
            record_read(None, "no_name")
        };
        let ghost held = entries@;
        let ghost n0 = found;
        let record = PlainEntry { index: i, name: found, read };
        assert(records_plain(record, i, n0, by_name));
        entries.push(record);
        assert forall|j: u64| #![trigger plain_at(entries@, j)] j < i + 1 implies exists|
            n: Option<String>,
            a: Option<EntryRead>,
        |
            {
                &&& call_ensures(name, (j,), n)
                &&& n is Some ==> read_by_name(open_named, n->0@, a)
                &&& #[trigger] records_plain(plain_at(entries@, j), j, n, a)
            } by {
            if j < i {
                assert(plain_at(entries@, j) == plain_at(held, j));
            } else {
                assert(records_plain(plain_at(entries@, j), j, n0, by_name));
            }
        }
        i += 1;
    }
    entries
}

/// What is checked of an entry that one library wrote and the other read.
#[derive(Debug)]
pub struct EntryCheck {
    pub index: u64,
    pub name: Option<String>,
    pub size: u64,
    pub method: u16,
    pub expected_sha256: String,
    pub read_sha256: String,
    pub bytes_match: bool,
    pub name_match: bool,
    pub size_match: bool,
}

/// Checks the bytes that were read of an entry against those expected.
pub fn check_entry(
    index: u64,
    name: Option<String>,
    size: u64,
    method: u16,
    expected: &[u8],
    read: &[u8],
    name_match: bool,
) -> (r: EntryCheck)
    ensures
        r.index == index,
        r.name == name,
        r.size == size,
        r.method == method,
        r.expected_sha256@ == hex_bytes(sha256_of(expected@)),
        r.read_sha256@ == hex_bytes(sha256_of(read@)),
        r.bytes_match == (read@ == expected@),
        r.name_match == name_match,
        r.size_match == (read@.len() == expected@.len()),
{
    EntryCheck {
        index,
        name,
        size,
        method,
        expected_sha256: sha256hex(expected),
        read_sha256: sha256hex(read),
        bytes_match: same_bytes(read, expected),
        name_match,
        size_match: read.len() == expected.len(),
    }
}

/// Whether an entry has a name that is not empty.
pub fn has_name(name: &Option<String>) -> (r: bool)
    ensures
        r == (name is Some && name->0@.len() > 0),
{
    match name {
        Some(n) => !n.as_str().is_empty(),
        None => false,
    }
}

/// Whether an entry has a certain name.
pub fn is_named(name: &Option<String>, expected: &str) -> (r: bool)
    ensures
        r == (name is Some && name->0@ == expected@),
{
    match name {
        Some(n) => same_text(n.as_str(), expected),
        None => false,
    }
}

/// Whether an entry has passed: by its bytes and its size, and by its name
/// where that counts.
pub open spec fn passed(c: EntryCheck, names_count: bool) -> bool {
    c.bytes_match && c.size_match && (c.name_match || !names_count)
}

/// What is checked of an archive.
#[derive(Debug)]
pub struct ArchiveCheck {
    pub archive: String,
    pub num_entries: usize,
    pub entries: Vec<EntryCheck>,
    pub all_match: bool,
}

/// Sums up the checks of an archive.
pub fn check_archive(archive: String, entries: Vec<EntryCheck>, names_count: bool) -> (r:
    ArchiveCheck)
    ensures
        r.archive@ == archive@,
        r.num_entries == entries@.len(),
        r.entries@ == entries@,
        r.all_match == forall|i: int|
            0 <= i < entries@.len() ==> passed(#[trigger] entries@[i], names_count),
{
    let mut all_match = true;
    let mut i: usize = 0;
    while i < entries.len()
        invariant
            i <= entries@.len(),
            all_match == forall|j: int|
                0 <= j < i ==> passed(#[trigger] entries@[j], names_count),
        decreases entries.len() - i,
    {
        let c = &entries[i];
        if !(c.bytes_match && c.size_match && (c.name_match || !names_count)) {
            assert(!passed(entries@[i as int], names_count));
            all_match = false;
        }
        i += 1;
    }
    ArchiveCheck { archive, num_entries: entries.len(), entries, all_match }
}

/// An archive that could not be opened: nothing in it matches.
pub fn check_unopened(archive: String) -> (r: ArchiveCheck)
    ensures
        r.archive@ == archive@,
        r.num_entries == 0,
        r.entries@.len() == 0,
        !r.all_match,
{
    ArchiveCheck { archive, num_entries: 0, entries: Vec::new(), all_match: false }
}

/// Whether all archives match.
pub fn all_archives_match(checks: &Vec<ArchiveCheck>) -> (r: bool)
    ensures
        r == forall|i: int| 0 <= i < checks@.len() ==> (#[trigger] checks@[i]).all_match,
{
    let mut i: usize = 0;
    while i < checks.len()
        invariant
            i <= checks@.len(),
            forall|j: int| 0 <= j < i ==> (#[trigger] checks@[j]).all_match,
        decreases checks.len() - i,
    {
        if !checks[i].all_match {
            assert(!checks@[i as int].all_match);
            return false;
        }
        i += 1;
    }
    true
}

/// What is recorded of an entry that was read up to an answer of 0 is the number
/// of bytes of its whole content, and the checksum over it.
pub proof fn law_whole_content_is_recorded<E: OpenEntry>(
    entry: E,
    answers: Seq<(i64, Vec<u8>)>,
    seen: EntryRead,
    r: ReadRecord,
    absent: Seq<char>,
)
    requires
        read_and_closed(entry, answers, seen),
        answers.last().0 == 0,
        records_read(r, Some(seen), absent),
    ensures
        r.status@ == "ok"@,
        r.len == content(answers.drop_last()).len(),
        r.fnv is Some,
        r.fnv->0@ == hex(fnv_from(FNV_START, content(answers.drop_last())) as nat, 16),
{
}

/// It does not matter in what chunks the bytes of an entry come: two entries
/// with the same content, read to their end, give the same record.
pub proof fn law_chunks_do_not_matter<E: OpenEntry, F: OpenEntry>(
    one: E,
    other: F,
    a: Seq<(i64, Vec<u8>)>,
    b: Seq<(i64, Vec<u8>)>,
    first: EntryRead,
    second: EntryRead,
    x: ReadRecord,
    y: ReadRecord,
    absent: Seq<char>,
)
    requires
        read_and_closed(one, a, first),
        read_and_closed(other, b, second),
        content(a.drop_last()) == content(b.drop_last()),
        first.ok == second.ok,
        records_read(x, Some(first), absent),
        records_read(y, Some(second), absent),
    ensures
        first == second,
        x.status@ == y.status@,
        x.len == y.len,
        x.fnv is Some && y.fnv is Some,
        x.fnv->0@ == y.fnv->0@,
{
}

/// What is known of an entry that is to be checked.
#[derive(Debug)]
pub struct Finding {
    pub name: Option<String>,
    pub size: u64,
    pub method: u16,
    pub expected: Vec<u8>,
    pub read: Vec<u8>,
    pub name_match: bool,
}

/// Whether a check is that of a finding.
pub open spec fn checks(c: EntryCheck, index: u64, f: Finding) -> bool {
    &&& c.index == index
    &&& c.name == f.name
    &&& c.size == f.size
    &&& c.method == f.method
    &&& c.expected_sha256@ == hex_bytes(sha256_of(f.expected@))
    &&& c.read_sha256@ == hex_bytes(sha256_of(f.read@))
    &&& c.bytes_match == (f.read@ == f.expected@)
    &&& c.name_match == f.name_match
    &&& c.size_match == (f.read@.len() == f.expected@.len())
}

/// The check of an entry.
pub open spec fn check_at(entries: Seq<EntryCheck>, index: u64) -> EntryCheck {
    entries[index as int]
}

/// Checks the `count` entries of an archive. `find` reads an entry and gives
/// what is expected of it.
pub fn check_entries<D: Fn(u64) -> Finding>(
    archive: String,
    count: u64,
    names_count: bool,
    find: D,
) -> (r: ArchiveCheck)
    requires
        forall|i: u64| call_requires(find, (i,)),
    ensures
        r.archive@ == archive@,
        r.num_entries == count,
        r.entries@.len() == count,
        forall|i: u64|
            #![trigger check_at(r.entries@, i)]
            i < count ==> exists|f: Finding|
                call_ensures(find, (i,), f) && #[trigger] checks(check_at(r.entries@, i), i, f),
        r.all_match == forall|i: int|
            0 <= i < count ==> passed(#[trigger] r.entries@[i], names_count),
{
    let mut entries: Vec<EntryCheck> = Vec::new();
    let mut i: u64 = 0;
    while i < count
        invariant
            i <= count,
            entries@.len() == i,
            forall|i: u64| call_requires(find, (i,)),
            forall|j: u64|
                #![trigger check_at(entries@, j)]
                j < i ==> exists|f: Finding|
                    call_ensures(find, (j,), f) && #[trigger] checks(check_at(entries@, j), j, f),
        decreases count - i,
    {
        let f = find(i);
        let ghost f0 = f;
        let ghost held = entries@;
        let c = check_entry(
            i,
            f.name,
            f.size,
            f.method,
            f.expected.as_slice(),
            f.read.as_slice(),
            f.name_match,
        );
        assert(checks(c, i, f0));
        entries.push(c);
        assert forall|j: u64| #![trigger check_at(entries@, j)] j < i + 1 implies exists|
            f: Finding,
        | call_ensures(find, (j,), f) && #[trigger] checks(check_at(entries@, j), j, f) by {
            if j < i {
                assert(check_at(entries@, j) == check_at(held, j));
            } else {
                assert(checks(check_at(entries@, j), j, f0));
            }
        }
        i += 1;
    }
    check_archive(archive, entries, names_count)
}

} // verus!
