//! The archives of the benchmark: written file by file, and read back entry by
//! entry.

use crate::bench::{
    all_bytes, count_fits, entry_name, fnv_from, lemma_fnv_append, make_entry_name, Tally, Workload,
    FNV_START,
};
use crate::harness::entry_count;
use crate::reading::{content, outcome, read_through, read_to_end, OpenEntry};
use crate::text::{append_decimal, append_signed, decimal, signed_decimal};
use vstd::prelude::*;
use vstd::string::*;

verus! {

/// The message for an operation that failed on an entry.
pub open spec fn entry_failure(what: Seq<char>, index: u64) -> Seq<char> {
    what + " failed for entry "@ + decimal(index as nat)
}

/// The message for an operation that failed on an entry.
fn make_entry_failure(what: &str, index: u64) -> (r: String)
    ensures
        r@ == entry_failure(what@, index),
{
    let mut text = String::from_str(what);
    text.append(" failed for entry ");
    append_decimal(&mut text, index);
    text
}

/// What adding an entry came to.
#[derive(Clone, Copy, Debug, PartialEq, Eq, Structural)]
pub enum Added {
    /// There was no source for it.
    NoSource,
    /// It was refused.
    Refused,
    /// It was added under this index.
    At(u64),
}

/// An archive that is open for writing. Every call takes it, and all but the
/// last give it back, so that a contract can say which call came behind which.
pub trait ArchiveWriter: Sized {
    /// Adds a file of the workload under a name.
    fn add_file(self, index: u64, name: String) -> (Self, Added);

    /// Sets the compression of an entry. 0 stands for success.
    fn set_method(self, entry: u64) -> (Self, i32);

    /// Closes the archive. 0 stands for success.
    fn close(self) -> i32;
}

/// Whether a file was added under its name, and its compression then set.
pub open spec fn file_added<A: ArchiveWriter>(before: A, after: A, i: u64) -> bool {
    exists|n: String, e: u64, mid: A|
        {
            &&& n@ == entry_name(i)
            &&& #[trigger] call_ensures(A::add_file, (before, i, n), (mid, Added::At(e)))
            &&& call_ensures(A::set_method, (mid, e), (after, 0))
        }
}

/// Whether a file could not be added under its name, or its compression not be
/// set, and `text` says so.
pub open spec fn file_failed<A: ArchiveWriter>(
    before: A,
    after: A,
    i: u64,
    text: Seq<char>,
) -> bool {
    exists|n: String, a: Added, mid: A|
        {
            &&& n@ == entry_name(i)
            &&& #[trigger] call_ensures(A::add_file, (before, i, n), (mid, a))
            &&& match a {
                Added::NoSource => after == mid && text == entry_failure(
                    "zip_source_buffer"@,
                    i,
                ),
                Added::Refused => after == mid && text == entry_failure("zip_file_add"@, i),
                Added::At(e) => text == entry_failure("zip_set_file_compression"@, i)
                    && exists|c: i32|
                    c != 0 && #[trigger] call_ensures(A::set_method, (mid, e), (after, c)),
            }
        }
}

/// Whether the first files of a workload were added, in order, and the archive
/// came through these states: one before each of them, and one behind the last.
pub open spec fn files_added<A: ArchiveWriter>(states: Seq<A>) -> bool {
    &&& states.len() > 0
    &&& forall|j: int|
        0 <= j < states.len() - 1 ==> #[trigger] file_added(states[j], states[j + 1], j as u64)
}

/// Whether an archive was closed with this answer.
pub open spec fn archive_closed<A: ArchiveWriter>(archive: A, c: i32) -> bool {
    call_ensures(A::close, (archive,), c)
}

/// What writing an archive of `files` files with `total` bytes comes to. The
/// files are added in order, up to the first that fails, and then the archive
/// is closed.
pub open spec fn writing_came_to<A: ArchiveWriter>(
    archive: A,
    files: nat,
    total: u64,
    r: Result<u64, String>,
) -> bool {
    exists|states: Seq<A>, last: A, c: i32|
        {
            &&& #[trigger] files_added(states)
            &&& states[0] == archive
            &&& #[trigger] archive_closed(last, c)
            &&& if states.len() == files + 1 {
                &&& last == states.last()
                &&& if c == 0 {
                    r == Ok::<u64, String>(total)
                } else {
                    r is Err && r->Err_0@ == "zip_close failed for write"@
                }
            } else {
                &&& states.len() <= files
                &&& r is Err
                &&& file_failed(states.last(), last, (states.len() - 1) as u64, r->Err_0@)
            }
        }
}

/// Adds one file under its name and sets its compression.
fn write_file<A: ArchiveWriter>(archive: A, index: u64) -> (r: (A, Result<(), String>))
    ensures
        match r.1 {
            Ok(_) => file_added(archive, r.0, index),
            Err(e) => file_failed(archive, r.0, index, e@),
        },
{
    let name = make_entry_name(index);
    let ghost n = name;
    let (mid, added) = archive.add_file(index, name);
    assert(call_ensures(A::add_file, (archive, index, n), (mid, added)));
    match added {
        Added::NoSource => (mid, Err(make_entry_failure("zip_source_buffer", index))),
        Added::Refused => (mid, Err(make_entry_failure("zip_file_add", index))),
        Added::At(entry) => {
            let (after, c) = mid.set_method(entry);
            assert(call_ensures(A::set_method, (mid, entry), (after, c)));
            if c != 0 {
                (after, Err(make_entry_failure("zip_set_file_compression", index)))
            } else {
                (after, Ok(()))
            }
        },
    }
}

/// Writes the files of a workload into an open archive and closes it, also
/// where writing fails. Gives the size of the workload.
pub fn write_archive<A: ArchiveWriter>(w: &Workload, archive: A) -> (r: Result<u64, String>)
    ensures
        writing_came_to(archive, w.files@.len(), w.total_bytes, r),
{
    let mut at = archive;
    let ghost mut states: Seq<A> = seq![archive];
    let mut i: usize = 0;
    while i < w.files.len()
        invariant
            i <= w.files@.len(),
            files_added(states),
            states.len() == i + 1,
            states[0] == archive,
            states.last() == at,
        decreases w.files.len() - i,
    {
        let (next, r) = write_file(at, i as u64);
        if let Err(e) = r {
            let c: i32 = next.close();
            assert(archive_closed(next, c));
            return Err(e);
        }
        proof {
            let more = states.push(next);
            assert forall|j: int| 0 <= j < more.len() - 1 implies #[trigger] file_added(
                more[j],
                more[j + 1],
                j as u64,
            ) by {
                if j < states.len() - 1 {
                    assert(file_added(states[j], states[j + 1], j as u64));
                }
            }
            states = more;
        }
        at = next;
        i += 1;
    }
    let c: i32 = at.close();
    assert(archive_closed(at, c));
    if c != 0 {
        return Err(String::from_str("zip_close failed for write"));
    }
    Ok(w.total_bytes)
}

/// What one entry comes to, where `opened`, `ok` and `closed` say how opening,
/// reading and closing it went: the first that failed is the error.
pub fn entry_verdict(index: u64, opened: bool, ok: bool, closed: i32) -> (r: Result<(), String>)
    ensures
        if !opened {
            r matches Err(e) && e@ == entry_failure("zip_fopen_index"@, index)
        } else if !ok {
            r matches Err(e) && e@ == entry_failure("zip_fread"@, index)
        } else if closed != 0 {
            r matches Err(e) && e@ == entry_failure("zip_fclose"@, index)
        } else {
            r is Ok
        },
{
    if !opened {
        Err(make_entry_failure("zip_fopen_index", index))
    } else if !ok {
        Err(make_entry_failure("zip_fread", index))
    } else if closed != 0 {
        Err(make_entry_failure("zip_fclose", index))
    } else {
        Ok(())
    }
}

/// The tally behind some bytes.
pub open spec fn tally_of(bytes: Seq<u8>) -> Tally {
    Tally { bytes: bytes.len() as u64, checksum: fnv_from(FNV_START, bytes) }
}

/// Whether an entry was opened, read on until these answers have ended it, and
/// then closed with `c`, where `had` bytes of the archive were read before.
pub open spec fn entry_answered<E: OpenEntry, O: Fn(u64) -> Option<E>>(
    open: O,
    i: u64,
    had: nat,
    answers: Seq<(i64, Vec<u8>)>,
    c: i32,
) -> bool {
    exists|entry: E, after: E|
        {
            &&& #[trigger] call_ensures(open, (i,), Some(entry))
            &&& #[trigger] read_through(entry, after, answers, had, u64::MAX as nat)
            &&& call_ensures(E::close, (after,), c)
        }
}

/// What was read of some entries, one behind the other: of each what its answers
/// have brought up to the last, which has ended it.
pub open spec fn read_of(rows: Seq<Seq<(i64, Vec<u8>)>>) -> Seq<u8> {
    all_bytes(Seq::new(rows.len(), |j: int| content(rows[j].drop_last())))
}

/// Whether the first entries of an archive were read to their end, in order:
/// each was opened, read on up to an answer of 0, and closed with success.
pub open spec fn entries_read<E: OpenEntry, O: Fn(u64) -> Option<E>>(
    open: O,
    rows: Seq<Seq<(i64, Vec<u8>)>>,
) -> bool {
    forall|j: int|
        0 <= j < rows.len() ==> {
            &&& entry_answered(
                open,
                j as u64,
                read_of(rows.take(j)).len(),
                #[trigger] rows[j],
                0,
            )
            &&& rows[j].last().0 == 0
        }
}

/// Whether an entry could not be opened, read to its end or closed, and `text`
/// says which of these was the first.
pub open spec fn entry_failed<E: OpenEntry, O: Fn(u64) -> Option<E>>(
    open: O,
    i: u64,
    had: nat,
    text: Seq<char>,
) -> bool {
    ||| call_ensures(open, (i,), None::<E>) && text == entry_failure("zip_fopen_index"@, i)
    ||| exists|answers: Seq<(i64, Vec<u8>)>, c: i32|
        {
            &&& #[trigger] entry_answered(open, i, had, answers, c)
            &&& if answers.last().0 != 0 {
                text == entry_failure("zip_fread"@, i)
            } else {
                c != 0 && text == entry_failure("zip_fclose"@, i)
            }
        }
}

/// What reading an archive with `count` entries comes to: the tally over the
/// contents of all of them, or the error for the first that fails, with none
/// opened behind it.
pub open spec fn reading_came_to<E: OpenEntry, O: Fn(u64) -> Option<E>>(
    open: O,
    count: nat,
    r: Result<Tally, String>,
) -> bool {
    exists|rows: Seq<Seq<(i64, Vec<u8>)>>|
        {
            &&& #[trigger] entries_read(open, rows)
            &&& match r {
                Ok(t) => {
                    &&& rows.len() == count
                    &&& read_of(rows).len() <= u64::MAX
                    &&& t == tally_of(read_of(rows))
                },
                Err(e) => {
                    &&& rows.len() < count
                    &&& entry_failed(open, rows.len() as u64, read_of(rows).len(), e@)
                },
            }
        }
}

proof fn lemma_read_of_push(rows: Seq<Seq<(i64, Vec<u8>)>>, answers: Seq<(i64, Vec<u8>)>)
    ensures
        read_of(rows.push(answers)) == read_of(rows) + content(answers.drop_last()),
{
    let a = Seq::new(rows.len(), |j: int| content(rows[j].drop_last()));
    let more = rows.push(answers);
    let b = Seq::new(more.len(), |j: int| content(more[j].drop_last()));
    assert(b.drop_last() =~= a);
}

/// Reads every entry of an open archive with `count` entries, which was written
/// for a workload of `files` files. `open` opens an entry, which is then read to
/// its end and closed.
pub fn read_archive_checked<E: OpenEntry, O: Fn(u64) -> Option<E>>(
    count: i64,
    files: usize,
    open: O,
) -> (r: Result<Tally, String>)
    requires
        forall|i: u64| call_requires(open, (i,)),
    ensures
        if files == 0 || count == files as i64 {
            reading_came_to(open, entry_count(count), r)
        } else {
            r matches Err(e) && e@ == "entry count "@ + signed_decimal(count as int)
                + ", expected "@ + decimal(files as nat)
        },
{
    if !count_fits(count, files) {
        let mut text = String::from_str("entry count ");
        append_signed(&mut text, count);
        text.append(", expected ");
        append_decimal(&mut text, files as u64);
        return Err(text);
    }
    let mut tally = Tally::new();
    let ghost mut rows: Seq<Seq<(i64, Vec<u8>)>> = Seq::empty();
    assert(read_of(rows) =~= Seq::empty());
    let end: u64 = if count < 0 { 0 } else { count as u64 };
    let mut i: u64 = 0;
    while i < end
        invariant
            i <= end,
            end == entry_count(count),
            files == 0 || count == files as i64,
            forall|i: u64| call_requires(open, (i,)),
            entries_read(open, rows),
            rows.len() == i,
            tally.bytes == read_of(rows).len(),
            tally.checksum == fnv_from(FNV_START, read_of(rows)),
        decreases end - i,
    {
        let opened = open(i);
        let verdict = match opened {
            Some(entry) => {
                let (after, seen) = read_to_end(tally, entry);
                let c: i32 = after.close();
                proof {
                    let answers = choose|answers: Seq<(i64, Vec<u8>)>|
                        {
                            &&& #[trigger] read_through(
                                entry,
                                after,
                                answers,
                                tally.bytes as nat,
                                u64::MAX as nat,
                            )
                            &&& seen == outcome(tally, answers)
                        };
                    assert(entry_answered(open, i, read_of(rows).len(), answers, c));
                    lemma_read_of_push(rows, answers);
                    lemma_fnv_append(FNV_START, read_of(rows), content(answers.drop_last()));
                    if seen.ok && c == 0 {
                        let more = rows.push(answers);
                        assert forall|j: int| 0 <= j < more.len() implies {
                            &&& entry_answered(
                                open,
                                j as u64,
                                read_of(more.take(j)).len(),
                                #[trigger] more[j],
                                0,
                            )
                            &&& more[j].last().0 == 0
                        } by {
                            if j < rows.len() {
                                assert(more.take(j) =~= rows.take(j));
                                assert(entry_answered(
                                    open,
                                    j as u64,
                                    read_of(rows.take(j)).len(),
                                    rows[j],
                                    0,
                                ));
                            } else {
                                assert(more.take(j) =~= rows);
                            }
                        }
                        rows = more;
                    }
                }
                tally = seen.tally;
                entry_verdict(i, true, seen.ok, c)
            },
            None => entry_verdict(i, false, true, 0),
        };
        if let Err(e) = verdict {
            assert(entry_failed(open, i, read_of(rows).len(), e@));
            return Err(e);
        }
        i += 1;
    }
    Ok(tally)
}

} // verus!
