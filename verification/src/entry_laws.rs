//! What opening an entry gives, what is told of one, and what the getters show.
//!
//! A law here speaks of a call: of what was handed in, and of what came back.

use crate::archive::{
    c_string, law_first_of_a_name, name_place, shown_comment, EntryTime, Zip, ZipView,
};
use crate::change_laws::{is_first_named, is_taken, refused, shows};
use crate::entry::{
    fill_stat, make_zipfile, read_done, seek_done, zip_fopen, zip_fopen_encrypted,
    zip_fopen_index, zip_fopen_index_encrypted, zip_fread, zip_fseek, zip_ftell, zip_stat,
    zip_stat_index, OpenedEntry, ReaderStep, ZipFile,
};
use crate::handle::{
    found, zip_get_name, zip_get_num_entries, zip_get_num_files, zip_name_locate,
};
use crate::keyed::last_value;
use crate::metadata::{zip_file_get_comment, zip_get_archive_comment, zip_get_file_comment};
use crate::save_laws::{latest, law_latest_counts};
use crate::stat::{zip_stat as StatRecord, Stat, StatView};
use vstd::prelude::*;
use vstd::utf8::valid_utf8;

verus! {

/// Whether an entry was opened with these contents and this metadata: it holds
/// the contents, expects the size of the metadata, and checks the CRC-32 of the
/// metadata, unless it is encrypted by AES with 128, 192 or 256 bits; then it
/// checks none. It has no error yet.
pub open spec fn opened_with(
    e: OpenedEntry,
    z: ZipView,
    index: u64,
    content: Vec<u8>,
    stat: Stat,
) -> bool {
    let on_disk = index < z.archive.entries.len();
    let m = z.archive.entries[index as int].encryption_method;
    &&& e.data@ == content@
    &&& stat.size matches Some(size) ==> e.size == size
    &&& stat.size is None ==> e.size == 0
    &&& on_disk && (m == 0x0101 || m == 0x0102 || m == 0x0103) ==> e.crc is None
    &&& !(on_disk && (m == 0x0101 || m == 0x0102 || m == 0x0103)) ==> {
        &&& e.crc is Some
        &&& stat.crc matches Some(crc) ==> e.crc == Some(crc)
        &&& stat.crc is None ==> e.crc == Some(0u32)
    }
    &&& e.file.last_error == 0
    &&& e.file.error.zip_err == 0
    &&& e.file.error.sys_err == 0
}

/// Whether an attempt to open an entry came to its end: an open entry exactly if
/// its contents and its metadata could be had, and else the code of the first
/// that could not.
pub open spec fn tried_to_open(
    r: Option<OpenedEntry>,
    before: ZipView,
    after: ZipView,
    index: u64,
    content: Result<Vec<u8>, i32>,
    stat: Result<Stat, i32>,
) -> bool {
    match (content, stat) {
        (Ok(data), Ok(st)) => {
            &&& r is Some
            &&& opened_with(r->0, before, index, data, st)
            &&& after == before
        },
        (Err(code), _) => r is None && refused(before, after, code),
        (_, Err(code)) => r is None && refused(before, after, code),
    }
}

/// Opening an entry gives the contents that were read of it, with the size and
/// the CRC-32 of its metadata; that of an entry encrypted by AES is not checked,
/// whichever of the three methods it is.
pub proof fn law_opened_entry(
    before: ZipView,
    after: ZipView,
    content: Result<Vec<u8>, i32>,
    index: u64,
    stat: Result<Stat, i32>,
    r: Option<OpenedEntry>,
)
    requires
        exists|z: &mut Zip| #[trigger]
            call_ensures(make_zipfile, (z, content, index, stat), r) && z@ == before && final(z)@
                == after,
    ensures
        tried_to_open(r, before, after, index, content, stat),
{
}

/// An entry that is opened by its index is the one that is read and told of.
pub proof fn law_opened_by_index<
    R: Fn(u64) -> Result<Vec<u8>, i32>,
    S: Fn(u64) -> Result<Stat, i32>,
>(
    before: ZipView,
    after: ZipView,
    index: u64,
    flags: u32,
    read: R,
    stat: S,
    r: Option<OpenedEntry>,
)
    requires
        exists|z: &mut Zip| #[trigger]
            call_ensures(zip_fopen_index::<R, S>, (Some(z), index, flags, read, stat), r) && z@
                == before && final(z)@ == after,
    ensures
        exists|content: Result<Vec<u8>, i32>, st: Result<Stat, i32>|
            {
                &&& #[trigger] call_ensures(read, (index,), content)
                &&& #[trigger] call_ensures(stat, (index,), st)
                &&& tried_to_open(r, before, after, index, content, st)
            },
{
}

proof fn lemma_found(z: ZipView, name: Option<&[u8]>)
    requires
        z.len() <= u64::MAX,
    ensures
        match found(z, name) {
            Some(k) => name is Some && valid_utf8(name->0@) && is_first_named(
                z,
                name->0@,
                k as int,
            ),
            None => name is None || !valid_utf8(name->0@) || !is_taken(z, name->0@),
        },
{
    if name is Some {
        law_first_of_a_name(z.archive, name->0@, z.archive.entries.len());
    }
}

/// An entry that is opened by a name is the first on disk that has it. Without a
/// name in UTF-8, or with one that no entry has, nothing is opened.
pub proof fn law_opened_by_name<
    R: Fn(u64) -> Result<Vec<u8>, i32>,
    S: Fn(u64) -> Result<Stat, i32>,
>(
    before: ZipView,
    after: ZipView,
    name: Option<&[u8]>,
    flags: u32,
    read: R,
    stat: S,
    r: Option<OpenedEntry>,
)
    requires
        before.len() <= u64::MAX,
        exists|z: &mut Zip| #[trigger]
            call_ensures(zip_fopen::<R, S>, (Some(z), name, flags, read, stat), r) && z@ == before
                && final(z)@ == after,
    ensures
        name is None || !valid_utf8(name->0@) ==> r is None && refused(before, after, 18),
        name is Some && valid_utf8(name->0@) && !is_taken(before, name->0@) ==> r is None
            && refused(before, after, 9),
        name is Some && valid_utf8(name->0@) && is_taken(before, name->0@) ==> exists|
            index: u64,
            content: Result<Vec<u8>, i32>,
            st: Result<Stat, i32>,
        |
            {
                &&& is_first_named(before, name->0@, index as int)
                &&& #[trigger] call_ensures(read, (index,), content)
                &&& #[trigger] call_ensures(stat, (index,), st)
                &&& tried_to_open(r, before, after, index, content, st)
            },
{
    lemma_found(before, name);
    lemma_taken(before, name);
}

proof fn lemma_taken(z: ZipView, name: Option<&[u8]>)
    requires
        z.len() <= u64::MAX,
    ensures
        found(z, name) matches Some(k) ==> is_taken(z, name->0@),
{
    lemma_found(z, name);
    if let Some(k) = found(z, name) {
        assert(z.archive.entries[k as int].name == name->0@);
    }
}

/// An encrypted entry that is opened by its index is the one that is told of and
/// read by the password that was given. Without a password it is refused.
pub proof fn law_encrypted_opened_by_index<
    R: Fn(u64, Vec<u8>) -> Result<Vec<u8>, i32>,
    S: Fn(u64) -> Result<Stat, i32>,
>(
    before: ZipView,
    after: ZipView,
    index: u64,
    flags: u32,
    password: Option<&[u8]>,
    read: R,
    stat: S,
    r: Option<OpenedEntry>,
)
    requires
        exists|z: &mut Zip| #[trigger]
            call_ensures(
                zip_fopen_index_encrypted::<R, S>,
                (Some(z), index, flags, password, read, stat),
                r,
            ) && z@ == before && final(z)@ == after,
    ensures
        password is None ==> r is None && refused(before, after, 18),
        password is Some ==> exists|
            p: Vec<u8>,
            content: Result<Vec<u8>, i32>,
            st: Result<Stat, i32>,
        |
            {
                &&& p@ == password->0@
                &&& #[trigger] call_ensures(read, (index, p), content)
                &&& #[trigger] call_ensures(stat, (index,), st)
                &&& tried_to_open(r, before, after, index, content, st)
            },
{
}

/// An encrypted entry that is opened by a name is the first on disk that has it,
/// read by the password that was given. Without a password it is refused.
pub proof fn law_encrypted_opened_by_name<
    R: Fn(u64, Vec<u8>) -> Result<Vec<u8>, i32>,
    S: Fn(u64) -> Result<Stat, i32>,
>(
    before: ZipView,
    after: ZipView,
    name: Option<&[u8]>,
    flags: u32,
    password: Option<&[u8]>,
    read: R,
    stat: S,
    r: Option<OpenedEntry>,
)
    requires
        before.len() <= u64::MAX,
        exists|z: &mut Zip| #[trigger]
            call_ensures(
                zip_fopen_encrypted::<R, S>,
                (Some(z), name, flags, password, read, stat),
                r,
            ) && z@ == before && final(z)@ == after,
    ensures
        password is None ==> r is None && refused(before, after, 18),
        password is Some && (name is None || !valid_utf8(name->0@)) ==> r is None && refused(
            before,
            after,
            18,
        ),
        password is Some && name is Some && valid_utf8(name->0@) && !is_taken(before, name->0@)
            ==> r is None && refused(before, after, 9),
        password is Some && name is Some && valid_utf8(name->0@) && is_taken(before, name->0@)
            ==> exists|
            index: u64,
            p: Vec<u8>,
            content: Result<Vec<u8>, i32>,
            st: Result<Stat, i32>,
        |
            {
                &&& is_first_named(before, name->0@, index as int)
                &&& p@ == password->0@
                &&& #[trigger] call_ensures(read, (index, p), content)
                &&& #[trigger] call_ensures(stat, (index,), st)
                &&& tried_to_open(r, before, after, index, content, st)
            },
{
    lemma_found(before, name);
    lemma_taken(before, name);
}

/// The index that metadata tell, 0 where it is not known.
pub open spec fn place_of(st: Stat) -> u64 {
    match st.index {
        Some(i) => i,
        None => 0,
    }
}

/// Whether a record tells what is known of an entry: of each field the value, and
/// 0 where it is not known. The name is the one that the getter shows.
pub open spec fn tells(b: StatView, z: ZipView, st: Stat) -> bool {
    let index = place_of(st);
    &&& b.valid == st.valid
    &&& b.index == index
    &&& b.name == (if index < z.names.len() { z.names[index as int] } else { None })
    &&& st.size matches Some(v) ==> b.size == v
    &&& st.size is None ==> b.size == 0
    &&& st.comp_size matches Some(v) ==> b.comp_size == v
    &&& st.comp_size is None ==> b.comp_size == 0
    &&& st.crc matches Some(v) ==> b.crc == v
    &&& st.crc is None ==> b.crc == 0
    &&& st.comp_method matches Some(v) ==> b.comp_method == v
    &&& st.comp_method is None ==> b.comp_method == 0
    &&& st.encryption_method matches Some(v) ==> b.encryption_method == v
    &&& st.encryption_method is None ==> b.encryption_method == 0
    &&& b.flags == 0
}

/// A record that is filled for an entry tells all that is known of it, and the
/// time that was given.
pub proof fn law_told_of_an_entry(
    z: Zip,
    stat: Stat,
    mtime: i64,
    b: StatView,
    r: i32,
)
    requires
        exists|sb: &mut StatRecord| #[trigger]
            call_ensures(fill_stat, (&z, &stat, mtime, Some(sb)), r) && final(sb)@ == b,
    ensures
        r == 0,
        tells(b, z@, stat),
        b.mtime == mtime,
{
}

/// Whether this is when an entry was last modified: the modification time that
/// was set last, 1970 at the earliest; or the DOS time that was set last; or the
/// one on disk.
pub open spec fn modified_at(z: ZipView, i: u64, t: EntryTime) -> bool {
    exists|m: Option<i64>, dos: Option<(u16, u16)>|
        {
            &&& #[trigger] latest(z.pending.mtimes, i, m)
            &&& #[trigger] latest(z.pending.dostimes, i, dos)
            &&& t == (match (m, dos) {
                (Some(s), _) => EntryTime::Unix(if s < 0 { 0 } else { s as u64 }),
                (None, Some(x)) => EntryTime::Dos(x.0, x.1),
                (None, None) => if i < z.archive.entries.len() {
                    EntryTime::Dos(
                        z.archive.entries[i as int].last_mod_time,
                        z.archive.entries[i as int].last_mod_date,
                    )
                } else {
                    EntryTime::Dos(0, 0)
                },
            })
        }
}

proof fn lemma_modified_at(z: ZipView, i: u64)
    ensures
        modified_at(z, i, z.effective_time(i)),
{
    law_latest_counts(z.pending.mtimes, i);
    law_latest_counts(z.pending.dostimes, i);
    assert(latest(z.pending.mtimes, i, last_value(z.pending.mtimes, i)));
    assert(latest(z.pending.dostimes, i, last_value(z.pending.dostimes, i)));
}

/// Whether an entry was told of by its metadata, which were had or not: then the
/// record tells all that is known, with its time as edited; else nothing is
/// stored, and the code is recorded.
pub open spec fn told<T: Fn(EntryTime) -> i64>(
    before: ZipView,
    after: ZipView,
    st: Result<Stat, i32>,
    to_unix: T,
    b: (StatRecord, StatRecord),
    r: i32,
) -> bool {
    match st {
        Ok(s) => {
            &&& r == 0
            &&& after == before
            &&& tells(b.1@, before, s)
            &&& exists|t: EntryTime|
                {
                    &&& #[trigger] modified_at(before, place_of(s), t)
                    &&& call_ensures(to_unix, (t,), b.1.mtime)
                }
        },
        Err(code) => r == -1 && refused(before, after, code) && b.1 == b.0,
    }
}

/// What is told of an entry by its index is what its own metadata say.
pub proof fn law_told_by_index<S: Fn(u64) -> Result<Stat, i32>, T: Fn(EntryTime) -> i64>(
    before: ZipView,
    after: ZipView,
    index: u64,
    flags: u32,
    b: (StatRecord, StatRecord),
    stat: S,
    to_unix: T,
    r: i32,
)
    requires
        exists|z: &mut Zip, sb: &mut StatRecord| #[trigger]
            call_ensures(
                zip_stat_index::<S, T>,
                (Some(z), index, flags, Some(sb), stat, to_unix),
                r,
            ) && z@ == before && final(z)@ == after && (*sb, *final(sb)) == b,
    ensures
        exists|st: Result<Stat, i32>| #[trigger]
            call_ensures(stat, (index,), st) && told(before, after, st, to_unix, b, r),
{
    assert forall|i: u64| modified_at(before, i, #[trigger] before.effective_time(i)) by {
        lemma_modified_at(before, i);
    }
}

/// What is told of an entry by a name is what the metadata say of the first on
/// disk that has it. Without a name in UTF-8, or with one that no entry has,
/// nothing is stored and nothing is recorded.
pub proof fn law_told_by_name<S: Fn(u64) -> Result<Stat, i32>, T: Fn(EntryTime) -> i64>(
    before: ZipView,
    after: ZipView,
    name: Option<&[u8]>,
    flags: u32,
    b: (StatRecord, StatRecord),
    stat: S,
    to_unix: T,
    r: i32,
)
    requires
        before.len() <= u64::MAX,
        exists|z: &mut Zip, sb: &mut StatRecord| #[trigger]
            call_ensures(zip_stat::<S, T>, (Some(z), name, flags, Some(sb), stat, to_unix), r)
                && z@ == before && final(z)@ == after && (*sb, *final(sb)) == b,
    ensures
        ({
            let there = name is Some && valid_utf8(name->0@) && is_taken(before, name->0@);
            &&& !there ==> r == -1 && after == before && b.1 == b.0
            &&& there ==> exists|index: u64, st: Result<Stat, i32>|
                {
                    &&& is_first_named(before, name->0@, index as int)
                    &&& #[trigger] call_ensures(stat, (index,), st)
                    &&& told(before, after, st, to_unix, b, r)
                }
        }),
{
    lemma_found(before, name);
    lemma_taken(before, name);
    assert forall|i: u64| modified_at(before, i, #[trigger] before.effective_time(i)) by {
        lemma_modified_at(before, i);
    }
}

/// A name is looked up among the entries on disk: the first that has it is found.
pub proof fn law_name_is_located(
    before: ZipView,
    after: ZipView,
    name: Option<&[u8]>,
    flags: u32,
    r: i64,
)
    requires
        before.countable(),
        exists|z: &mut Zip| #[trigger]
            call_ensures(zip_name_locate, (Some(z), name, flags), r) && z@ == before && final(z)@
                == after,
    ensures
        name is None || !valid_utf8(name->0@) ==> r == -1 && refused(before, after, 18),
        name is Some && valid_utf8(name->0@) && !is_taken(before, name->0@) ==> r == -1
            && refused(before, after, 9),
        name is Some && valid_utf8(name->0@) && is_taken(before, name->0@) ==> after == before
            && is_first_named(before, name->0@, r as int),
{
    if name is Some {
        law_first_of_a_name(before.archive, name->0@, before.archive.entries.len());
        if let Some(k) = name_place(before.archive, name->0@) {
            assert(before.archive.entries[k].name == name->0@);
        }
    }
}

/// The name that is got of an entry is the one on disk, if it holds no NUL.
pub proof fn law_name_is_got(z: Zip, index: u64, flags: u32, r: Option<&Vec<u8>>)
    requires
        z@.wf(),
        call_ensures(zip_get_name, (Some(&z), index, flags), r),
    ensures
        ({
            let on_disk = index < z.archive.entries@.len();
            let n = z.archive.entries@[index as int].name@;
            &&& on_disk && !n.contains(0u8) ==> r is Some && r->0@ == n
            &&& !on_disk || n.contains(0u8) ==> r is None
        }),
{
    if index < z.archive.entries@.len() {
        assert(z@.archive.entries[index as int].name == z.archive.entries@[index as int].name@);
        assert(z@.names[index as int] == c_string(
            z@.archive.entries[index as int].name,
        ));
    }
}

/// The entries that are counted are those on disk, whatever edits wait.
pub proof fn law_entries_are_counted(z: Zip, flags: u32, r: i64)
    requires
        z.archive.entries@.len() <= i64::MAX,
        call_ensures(zip_get_num_entries, (Some(&z), flags), r),
    ensures
        r == z.archive.entries@.len(),
{
}

/// The entries are counted by an `i32` as far as that reaches.
pub proof fn law_files_are_counted(before: ZipView, after: ZipView, r: i32)
    requires
        exists|z: &mut Zip| #[trigger]
            call_ensures(zip_get_num_files, (Some(z),), r) && z@ == before && final(z)@ == after,
    ensures
        before.archive.entries.len() <= 0x7fff_ffff ==> r == before.archive.entries.len()
            && after == before,
        before.archive.entries.len() > 0x7fff_ffff ==> r == -1 && refused(before, after, 28),
{
}

/// Whether this is the text of a comment as edited: the one that was set last, or
/// else the one on disk.
pub open spec fn comment_text(z: ZipView, i: u64, text: Option<Seq<u8>>) -> bool {
    exists|c: Option<Option<Seq<u8>>>| #[trigger]
        latest(z.pending.file_comments, i, c) && text == (match c {
            Some(set) => set,
            None => if i < z.archive.entries.len() {
                Some(z.archive.entries[i as int].comment)
            } else {
                None
            },
        })
}

proof fn lemma_comment_text(z: ZipView, i: u64)
    requires
        z.wf(),
    ensures
        exists|text: Option<Seq<u8>>| #[trigger]
            comment_text(z, i, text) && shows(z.comment_at(i), text),
{
    law_latest_counts(z.pending.file_comments, i);
    let c = last_value(z.pending.file_comments, i);
    assert(latest(z.pending.file_comments, i, c));
    assert(z.comment_at(i) == shown_comment(z.effective_comment(i)));
    let text = match c {
        Some(set) => set,
        None => if i < z.archive.entries.len() {
            Some(z.archive.entries[i as int].comment)
        } else {
            None
        },
    };
    assert(comment_text(z, i, text));
    assert(shows(z.comment_at(i), text));
}

/// The comment that is got of an entry is the one that was set last or else the one
/// on disk, if it is not empty and holds no NUL, and its length is stored.
pub proof fn law_comment_is_got(
    z: Zip,
    index: u64,
    flags: u32,
    len: i32,
    r: Option<&Vec<u8>>,
)
    requires
        z@.wf(),
        exists|l: &mut i32| #[trigger]
            call_ensures(zip_file_get_comment, (Some(&z), index, Some(l), flags), r)
                && *final(l) == len,
    ensures
        exists|text: Option<Seq<u8>>| #[trigger]
            comment_text(z@, index, text) && shows(
                match r {
                    Some(c) => Some(c@),
                    None => None,
                },
                text,
            ),
        r matches Some(c) ==> c@.len() <= i32::MAX ==> len == c@.len(),
        r is None ==> len == 0,
{
    lemma_comment_text(z@, index);
}

/// Under its older name the getter of a comment does the same.
pub proof fn law_file_comment_is_got(
    z: Zip,
    index: u64,
    flags: u32,
    len: i32,
    r: Option<&Vec<u8>>,
)
    requires
        z@.wf(),
        exists|l: &mut i32| #[trigger]
            call_ensures(zip_get_file_comment, (Some(&z), index, Some(l), flags), r)
                && *final(l) == len,
    ensures
        exists|text: Option<Seq<u8>>| #[trigger]
            comment_text(z@, index, text) && shows(
                match r {
                    Some(c) => Some(c@),
                    None => None,
                },
                text,
            ),
        r matches Some(c) ==> c@.len() <= i32::MAX ==> len == c@.len(),
        r is None ==> len == 0,
{
    lemma_comment_text(z@, index);
}

/// The archive comment that is got is the one that was set last or else the one on
/// disk, with a closing NUL, and its length without that is stored; an empty one
/// counts as none.
pub proof fn law_archive_comment_is_got(z: Zip, flags: u32, len: i32, r: Option<&Vec<u8>>)
    requires
        z@.wf(),
        exists|l: &mut i32| #[trigger]
            call_ensures(zip_get_archive_comment, (Some(&z), Some(l), flags), r) && *final(l)
                == len,
    ensures
        ({
            let text = match z@.pending.archive_comment {
                Some(c) => c,
                None => z@.archive.comment,
            };
            &&& text.len() == 0 ==> r is None && len == 0
            &&& text.len() > 0 ==> {
                &&& r is Some
                &&& r->0@ == text.push(0)
                &&& text.len() <= i32::MAX ==> len == text.len()
            }
        }),
{
}

/// A read asks the reader for as many bytes as it was asked for; without a
/// buffer it fails, and that is recorded.
pub proof fn law_read_is_asked_for(
    before: ZipFile,
    after: ZipFile,
    has_buffer: bool,
    nbytes: u64,
    r: ReaderStep,
)
    requires
        exists|f: &mut ZipFile| #[trigger]
            call_ensures(zip_fread, (Some(f), has_buffer, nbytes), r) && *f == before && *final(f)
                == after,
    ensures
        has_buffer ==> r == ReaderStep::Move(nbytes) && after@ == before@,
        !has_buffer ==> r == ReaderStep::Failed && after.last_error == 18
            && after.error.zip_err == 18,
{
}

/// A read gives the number of bytes that were read; where the reader failed, -1
/// is given and a read error recorded.
pub proof fn law_read_is_counted(before: ZipFile, after: ZipFile, count: Option<u64>, r: i64)
    requires
        exists|f: &mut ZipFile| #[trigger]
            call_ensures(read_done, (f, count), r) && *f == before && *final(f) == after,
    ensures
        count matches Some(n) ==> n <= i64::MAX ==> r == n,
        count is Some ==> after@ == before@,
        count is None ==> r == -1 && after.last_error == 5 && after.error.zip_err == 5,
{
}

/// A seek moves the reader to the offset, counted from the start, from where it
/// stands or from the end; to before the start, or from anywhere else, it fails,
/// and that is recorded.
pub proof fn law_seek_in_an_entry(
    before: ZipFile,
    after: ZipFile,
    offset: i64,
    whence: i32,
    position: u64,
    size: u64,
    r: ReaderStep,
)
    requires
        position <= i64::MAX,
        size <= i64::MAX,
        exists|f: &mut ZipFile| #[trigger]
            call_ensures(zip_fseek, (Some(f), offset, whence, position, size), r) && *f == before
                && *final(f) == after,
    ensures
        ({
            let known = whence == 0 || whence == 1 || whence == 2;
            let target = (if whence == 0 {
                0int
            } else if whence == 1 {
                position as int
            } else {
                size as int
            }) + offset;
            let fine = known && 0 <= target <= i64::MAX;
            &&& fine ==> r == ReaderStep::Move(target as u64) && after@ == before@
            &&& !fine ==> r == ReaderStep::Failed && after.last_error == 18
                && after.error.zip_err == 18
        }),
{
}

/// A seek succeeds exactly if the reader was moved; else that is recorded.
pub proof fn law_seek_is_reported(before: ZipFile, after: ZipFile, moved: bool, r: i8)
    requires
        exists|f: &mut ZipFile| #[trigger]
            call_ensures(seek_done, (f, moved), r) && *f == before && *final(f) == after,
    ensures
        moved ==> r == 0 && after@ == before@,
        !moved ==> r == -1 && after.last_error == 4 && after.error.zip_err == 4,
{
}

/// The position that is told of an open entry is that of its reader.
pub proof fn law_position_is_told(f: ZipFile, position: u64, r: i64)
    requires
        position <= i64::MAX,
        call_ensures(zip_ftell, (Some(&f), position), r),
    ensures
        r == position,
{
}

} // verus!
