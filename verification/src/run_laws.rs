//! What holds of whole runs: of measuring, of the archives of the benchmark, and of the
//! records of an archive.
//!
//! A law here speaks of a call: of what was handed in, and of what came back.

use crate::bench::{
    all_same, entry_name, fnv_from, make_entry_name, measure, measured, median, ran_well, sampled,
    sampled_at, samples_gave, sorted_samples, stable, timed_run, timestamp_text, warmed_up,
    zero_padded, Operation, Tally, Workload,
};
use crate::bench_archive::{
    archive_closed, entries_read, entry_answered, file_added, files_added, read_archive_checked,
    read_of, tally_of, write_archive, Added, ArchiveWriter,
};
use crate::bench_run::{is_sample_at, law_samples_come_in_order, run_benchmark, Engines, Sample};
use crate::harness::{
    entry_at, plain_at, process_archive, process_entries, read_by_index, read_by_name,
    records_entry, records_plain, ArchiveRecord, NamedStat, PlainEntry, Probe, StatRecord,
};
use crate::number_laws::{all_decimal, lemma_decimal, number_of};
use crate::reading::{
    closed, content, entry_read, read_and_closed, read_through, EntryRead, OpenEntry,
};
use crate::text::decimal;
use crate::tool_laws::{brought, law_flatten, lemma_read_in_turn, lemma_says, read_in_turn, says};
use vstd::prelude::*;

verus! {

/// Whether one run of an operation, with success, leads from a state to another.
pub open spec fn runs_to<O: Operation>(before: O, after: O) -> bool {
    exists|n: u64| #[trigger] call_ensures(O::run, (before,), (after, Ok::<u64, String>(n)))
}

/// Whether an operation was done once in each of these states but the last, each run
/// from one to the next and with success.
pub open spec fn done_in_turn<O: Operation>(states: Seq<O>) -> bool {
    &&& states.len() > 0
    &&& forall|j: int| 0 <= j < states.len() - 1 ==> runs_to(#[trigger] states[j], states[j + 1])
}

/// Measuring that succeeds has done the operation as often as warm-ups and samples were
/// asked for, each time with success, and gives a duration for each sample.
pub proof fn law_every_run_is_done<O: Operation>(
    samples: usize,
    warmups: usize,
    operation: O,
    r: (O, Result<Vec<u128>, String>),
)
    requires
        call_ensures(measure::<O>, (samples, warmups, operation), r),
        r.1 is Ok,
    ensures
        r.1->Ok_0@.len() == samples,
        exists|states: Seq<O>|
            {
                &&& #[trigger] done_in_turn(states)
                &&& states.len() == warmups + samples + 1
                &&& states[0] == operation
                &&& states.last() == r.0
            },
{
    let warm = choose|warm: Seq<O>|
        {
            &&& #[trigger] warmed_up(warm)
            &&& warm[0] == operation
            &&& warm.len() == warmups + 1
            &&& samples_gave(warm.last(), r.0, samples as nat, r.1)
        };
    let (states, durations, sums) = choose|
        states: Seq<O>,
        durations: Seq<u128>,
        sums: Seq<u64>,
    |
        {
            &&& #[trigger] sampled(states, durations, sums)
            &&& states[0] == warm.last()
            &&& sums.len() == samples
            &&& states.last() == r.0
            &&& measured(r.1, durations, sums)
        };
    let all = warm + states.skip(1);
    assert forall|j: int| 0 <= j < all.len() - 1 implies runs_to(
        #[trigger] all[j],
        all[j + 1],
    ) by {
        let w = warm.len() - 1;
        if j < w {
            assert(ran_well(warm, j));
            let n = choose|n: u64| #[trigger]
                call_ensures(O::run, (warm[j],), (warm[j + 1], Ok::<u64, String>(n)));
            assert(all[j] == warm[j] && all[j + 1] == warm[j + 1]);
            assert(call_ensures(O::run, (all[j],), (all[j + 1], Ok::<u64, String>(n))));
        } else {
            let k = j - w;
            assert(sampled_at(states, durations, sums, k));
            assert(all[j] == states[k] && all[j + 1] == states[k + 1]);
            assert(call_ensures(O::run, (all[j],), (all[j + 1], Ok::<u64, String>(sums[k]))));
        }
    }
    assert(done_in_turn(all));
    assert(all.last() == r.0);
}

/// Measuring that fails gives the error of a run that failed, or has seen two samples
/// with different sums.
pub proof fn law_failed_run_is_reported<O: Operation>(
    samples: usize,
    warmups: usize,
    operation: O,
    r: (O, Result<Vec<u128>, String>),
)
    requires
        call_ensures(measure::<O>, (samples, warmups, operation), r),
        r.1 is Err,
    ensures
        ({
            ||| exists|o: O| #[trigger]
                call_ensures(O::run, (o,), (r.0, Err::<u64, String>(r.1->Err_0)))
            ||| samples >= 2 && r.1->Err_0@ == "checksum changed between benchmark samples"@
        }),
{
    let warm = choose|warm: Seq<O>|
        {
            &&& #[trigger] warmed_up(warm)
            &&& warm[0] == operation
            &&& if warm.len() == warmups + 1 {
                samples_gave(warm.last(), r.0, samples as nat, r.1)
            } else {
                call_ensures(O::run, (warm.last(),), (r.0, Err::<u64, String>(r.1->Err_0)))
            }
        };
    if warm.len() == warmups + 1 {
        let (states, durations, sums) = choose|
            states: Seq<O>,
            durations: Seq<u128>,
            sums: Seq<u64>,
        |
            {
                &&& #[trigger] sampled(states, durations, sums)
                &&& if sums.len() == samples {
                    measured(r.1, durations, sums)
                } else {
                    exists|ns: u128| #[trigger]
                        call_ensures(
                            timed_run::<O>,
                            (states.last(),),
                            (r.0, ns, Err::<u64, String>(r.1->Err_0)),
                        )
                }
            };
        if sums.len() == samples {
            assert(!all_same(sums));
            assert(samples >= 2);
        } else {
            assert(call_ensures(
                O::run,
                (states.last(),),
                (r.0, Err::<u64, String>(r.1->Err_0)),
            ));
        }
    } else {
        assert(call_ensures(O::run, (warm.last(),), (r.0, Err::<u64, String>(r.1->Err_0))));
    }
}

/// The samples are sorted: none is before a smaller one, each comes as often as before,
/// and so the median has as many that are no larger before it as half of them.
pub proof fn law_samples_are_sorted(samples: Vec<u128>, sorted: Vec<u128>, middle: u128, i: int)
    requires
        call_ensures(sorted_samples, (&samples,), sorted),
        call_ensures(median, (&sorted,), middle),
        0 <= i < sorted@.len(),
    ensures
        sorted@.len() == samples@.len(),
        sorted@.to_multiset() == samples@.to_multiset(),
        i > 0 ==> sorted@[i - 1] <= sorted@[i],
        2 * i < samples@.len() ==> sorted@[i] <= middle,
        2 * i >= samples@.len() ==> sorted@[i] >= middle,
{
}

/// The sums of samples are stable where each is the first one.
pub proof fn law_sums_are_stable(sums: Vec<u64>, r: bool)
    requires
        call_ensures(stable, (&sums,), r),
    ensures
        r <==> forall|i: int| 0 <= i < sums@.len() ==> sums@[0] == #[trigger] sums@[i],
{
}

proof fn lemma_zero_in_front(text: Seq<char>)
    ensures
        number_of(seq!['0'] + text, 10) == number_of(text, 10),
    decreases text.len(),
{
    let padded = seq!['0'] + text;
    if text.len() == 0 {
        assert(padded.drop_last() =~= Seq::empty());
        assert(number_of(Seq::empty(), 10) == 0);
    } else {
        lemma_zero_in_front(text.drop_last());
        assert(padded.drop_last() =~= seq!['0'] + text.drop_last());
    }
}

proof fn lemma_zeros_in_front(text: Seq<char>, width: nat)
    requires
        all_decimal(text),
    ensures
        number_of(zero_padded(text, width), 10) == number_of(text, 10),
        all_decimal(zero_padded(text, width)),
        text.len() <= width ==> zero_padded(text, width).len() == width,
        text.len() >= width ==> zero_padded(text, width) == text,
    decreases width - text.len(),
{
    if text.len() < width {
        lemma_zero_in_front(text);
        lemma_zeros_in_front(seq!['0'] + text, width);
    }
}

/// The name of an entry has its index in decimal digits, five at least.
pub proof fn law_entry_is_named(index: u64, r: String)
    requires
        call_ensures(make_entry_name, (index,), r),
    ensures
        exists|digits: Seq<char>|
            {
                &&& #[trigger] all_decimal(digits)
                &&& r@ == "f-"@ + digits + ".bin"@
                &&& number_of(digits, 10) == index
                &&& digits.len() >= 5
                &&& digits.len() > 5 ==> digits[0] != '0'
            },
{
    let text = decimal(index as nat);
    lemma_decimal(index as nat);
    lemma_zeros_in_front(text, 5);
    let digits = zero_padded(text, 5);
    assert(all_decimal(digits));
}

/// A time is written in decimal digits, and one that is not known as such.
pub proof fn law_time_is_written(now: Option<u64>, r: String)
    requires
        call_ensures(timestamp_text, (now,), r),
    ensures
        now matches Some(s) ==> all_decimal(r@) && number_of(r@, 10) == s,
        now is None ==> r@ == "unknown"@,
{
    if let Some(s) = now {
        lemma_decimal(s as nat);
    }
}

/// Whether the file of an index was added under its name, and its compression set.
pub open spec fn adds<A: ArchiveWriter>(before: A, after: A, index: u64) -> bool {
    exists|n: String, e: u64, mid: A|
        {
            &&& n@ == entry_name(index)
            &&& #[trigger] call_ensures(A::add_file, (before, index, n), (mid, Added::At(e)))
            &&& call_ensures(A::set_method, (mid, e), (after, 0))
        }
}

/// Whether every file of a workload was added in turn.
pub open spec fn adds_all<A: ArchiveWriter>(states: Seq<A>) -> bool {
    forall|j: int|
        0 <= j < states.len() - 1 ==> adds(#[trigger] states[j], states[j + 1], j as u64)
}

/// Writing an archive that succeeds has added every file under its name, in order, set
/// its compression, and then closed the archive; it gives the size of the workload.
pub proof fn law_every_file_is_written<A: ArchiveWriter>(
    w: Workload,
    archive: A,
    r: Result<u64, String>,
)
    requires
        call_ensures(write_archive::<A>, (&w, archive), r),
        r is Ok,
        w.files@.len() <= u64::MAX,
    ensures
        r->Ok_0 == w.total_bytes,
        exists|states: Seq<A>|
            {
                &&& #[trigger] adds_all(states)
                &&& states.len() == w.files@.len() + 1
                &&& states[0] == archive
                &&& call_ensures(A::close, (states.last(),), 0)
            },
{
    let (states, last, c) = choose|states: Seq<A>, last: A, c: i32|
        {
            &&& #[trigger] files_added(states)
            &&& states[0] == archive
            &&& #[trigger] archive_closed(last, c)
            &&& states.len() == w.files@.len() + 1
            &&& last == states.last()
            &&& c == 0
        };
    assert forall|j: int| 0 <= j < states.len() - 1 implies adds(
        #[trigger] states[j],
        states[j + 1],
        j as u64,
    ) by {
        assert(file_added(states[j], states[j + 1], j as u64));
    }
    assert(adds_all(states));
}

/// The bytes of entries, one behind the other: of each what its answers have brought
/// before the last.
pub open spec fn entries_bytes(rows: Seq<Seq<(i64, Vec<u8>)>>) -> Seq<u8> {
    Seq::new(rows.len(), |j: int| brought(rows[j], (rows[j].len() - 1) as nat)).flatten()
}

/// Whether the entry of an index was opened, read to an answer of 0, and closed with
/// success.
pub open spec fn reads_whole<E: OpenEntry, O: Fn(u64) -> Option<E>>(
    open: O,
    index: u64,
    row: Seq<(i64, Vec<u8>)>,
) -> bool {
    &&& row.last().0 == 0
    &&& exists|entry: E, states: Seq<E>|
        {
            &&& #[trigger] call_ensures(open, (index,), Some(entry))
            &&& #[trigger] read_in_turn(states, row)
            &&& states[0] == entry
            &&& call_ensures(E::close, (states.last(),), 0)
        }
}

/// Whether every entry was read whole, in order.
pub open spec fn reads_all<E: OpenEntry, O: Fn(u64) -> Option<E>>(
    open: O,
    rows: Seq<Seq<(i64, Vec<u8>)>>,
) -> bool {
    forall|j: int| 0 <= j < rows.len() ==> reads_whole(open, j as u64, #[trigger] rows[j])
}

proof fn lemma_reads_whole<E: OpenEntry, O: Fn(u64) -> Option<E>>(
    open: O,
    index: u64,
    had: nat,
    row: Seq<(i64, Vec<u8>)>,
)
    requires
        entry_answered(open, index, had, row, 0),
        row.last().0 == 0,
    ensures
        reads_whole(open, index, row),
        content(row.drop_last()) == brought(row, (row.len() - 1) as nat),
{
    let (entry, after) = choose|entry: E, after: E|
        {
            &&& #[trigger] call_ensures(open, (index,), Some(entry))
            &&& #[trigger] read_through(entry, after, row, had, u64::MAX as nat)
            &&& call_ensures(E::close, (after,), 0)
        };
    lemma_read_in_turn(entry, after, row, had, u64::MAX as nat);
    let states = choose|states: Seq<E>| #[trigger]
        read_in_turn(states, row) && states[0] == entry && states.last() == after;
    assert(call_ensures(E::close, (states.last(),), 0));
}

/// Reading an archive that succeeds has opened every entry, in order, read it to an
/// answer of 0 and closed it with success; it gives the number and the checksum of the
/// bytes of all of them. An archive with another number of entries is refused.
pub proof fn law_every_entry_is_read<E: OpenEntry, O: Fn(u64) -> Option<E>>(
    count: i64,
    files: usize,
    open: O,
    r: Result<Tally, String>,
)
    requires
        call_ensures(read_archive_checked::<E, O>, (count, files, open), r),
        r is Ok,
        files <= i64::MAX,
    ensures
        files == 0 || count == files,
        exists|rows: Seq<Seq<(i64, Vec<u8>)>>|
            {
                let bytes = entries_bytes(rows);
                &&& #[trigger] reads_all(open, rows)
                &&& rows.len() == (if count < 0 { 0int } else { count as int })
                &&& r->Ok_0.bytes == bytes.len()
                &&& r->Ok_0.checksum == fnv_from(14_695_981_039_346_656_037, bytes)
            },
{
    let rows = choose|rows: Seq<Seq<(i64, Vec<u8>)>>|
        {
            &&& #[trigger] entries_read(open, rows)
            &&& rows.len() == (if count < 0 { 0nat } else { count as nat })
            &&& read_of(rows).len() <= u64::MAX
            &&& r->Ok_0 == tally_of(read_of(rows))
        };
    assert forall|j: int| 0 <= j < rows.len() implies {
        &&& reads_whole(open, j as u64, #[trigger] rows[j])
        &&& content(rows[j].drop_last()) == brought(rows[j], (rows[j].len() - 1) as nat)
    } by {
        lemma_reads_whole(open, j as u64, read_of(rows.take(j)).len(), rows[j]);
    }
    let a = Seq::new(rows.len(), |j: int| content(rows[j].drop_last()));
    let b = Seq::new(rows.len(), |j: int| brought(rows[j], (rows[j].len() - 1) as nat));
    assert forall|j: int| 0 <= j < rows.len() implies a[j] == b[j] by {
        let row = rows[j];
        assert(content(row.drop_last()) == brought(row, (row.len() - 1) as nat));
    }
    assert(a =~= b);
    law_flatten(a);
    assert(reads_all(open, rows));
}

/// A benchmark that succeeds gives eight samples for each workload: stored and then
/// deflated, by the C library and then by this one, written and then read, each with
/// as many durations as were asked for and with the checksum of the workload.
pub proof fn law_benchmark_gives_samples<E: Engines>(
    workloads: Vec<Workload>,
    samples: usize,
    warmups: usize,
    engines: E,
    r: (E, Result<Vec<Sample>, String>),
    k: int,
)
    requires
        call_ensures(run_benchmark::<E>, (&workloads, samples, warmups, engines), r),
        r.1 is Ok,
        workloads@.len() <= usize::MAX,
        0 <= k < 8 * workloads@.len(),
    ensures
        r.1->Ok_0@.len() == 8 * workloads@.len(),
        ({
            let s = r.1->Ok_0@[k];
            let bytes = workloads@[k / 8]@.files.flatten();
            &&& s.workload == k / 8
            &&& s.method == (if k % 8 < 4 { 0int } else { 8 })
            &&& s.engine == (if k % 4 < 2 { 0int } else { 1 })
            &&& s.reads <==> k % 2 == 1
            &&& s.samples_ns@.len() == samples
            &&& s.checksum == fnv_from(14_695_981_039_346_656_037, bytes)
        }),
{
    let out = r.1->Ok_0;
    law_samples_come_in_order(
        engines,
        r.0,
        workloads@,
        samples as nat,
        warmups as nat,
        out,
    );
    assert(is_sample_at(out@[k], k, workloads@, samples as nat));
    law_flatten(workloads@[k / 8]@.files);
}

/// Whether an entry was opened by an answer to a question, read to its end, and closed,
/// and reading came to this.
pub open spec fn opened_and_read<E: OpenEntry>(opened: Option<E>, r: Option<EntryRead>) -> bool {
    match opened {
        Some(entry) => r is Some && exists|
            states: Seq<E>,
            answers: Seq<(i64, Vec<u8>)>,
            c: i32,
        |
            {
                let bytes = brought(answers, (answers.len() - 1) as nat);
                &&& #[trigger] read_in_turn(states, answers)
                &&& states[0] == entry
                &&& #[trigger] call_ensures(E::close, (states.last(),), c)
                &&& r->0.tally.bytes == bytes.len()
                &&& r->0.tally.checksum == fnv_from(14_695_981_039_346_656_037, bytes)
                &&& r->0.ok <==> answers.last().0 == 0
            },
        None => r is None,
    }
}

/// The record of an archive has one of each entry, in order: its name, what came of
/// opening and reading it by that name and by its index, and its metadata; and behind
/// them what came of opening two that should not be there.
pub proof fn law_archive_is_recorded<
    E: OpenEntry,
    N: Fn(u64) -> Option<String>,
    A: Fn(String) -> Option<E>,
    B: Fn(u64) -> Option<E>,
    S: Fn(u64) -> StatRecord,
    T: Fn(String) -> NamedStat,
    M: Fn() -> Probe,
    O: Fn() -> Probe,
>(
    archive: String,
    open_error: i32,
    num: i64,
    name: N,
    open_named: A,
    open_index: B,
    stat_index: S,
    stat_named: T,
    missing: M,
    beyond: O,
    r: ArchiveRecord,
    i: u64,
)
    requires
        call_ensures(
            process_archive::<E, N, A, B, S, T, M, O>,
            (
                archive,
                open_error,
                num,
                name,
                open_named,
                open_index,
                stat_index,
                stat_named,
                missing,
                beyond,
            ),
            r,
        ),
        i < num,
    ensures
        r.entries@.len() == num,
        r.archive@ == archive@,
        r.open_error == Some(open_error),
        r.num_entries == Some(num),
        r.entries@[i as int].index == i,
        exists|n: Option<String>| #[trigger]
            call_ensures(name, (i,), n) && (r.entries@[i as int].name is Some <==> n is Some) && (
            n matches Some(x) ==> r.entries@[i as int].name->0@ == x@),
        exists|opened: Option<E>, seen: Option<EntryRead>|
            {
                &&& #[trigger] call_ensures(open_index, (i,), opened)
                &&& #[trigger] opened_and_read(opened, seen)
                &&& says(r.entries@[i as int].fopen_index, seen, "failed"@)
            },
        r.entries@[i as int].name matches Some(x) ==> exists|
            t: String,
            opened: Option<E>,
            seen: Option<EntryRead>,
        |
            {
                &&& t@ == x@
                &&& #[trigger] call_ensures(open_named, (t,), opened)
                &&& #[trigger] opened_and_read(opened, seen)
                &&& says(r.entries@[i as int].fopen, seen, "failed"@)
            },
        call_ensures(stat_index, (i,), r.entries@[i as int].stat),
        exists|p: Probe| #[trigger]
            call_ensures(missing, (), p) && r.err_fopen_missing_strerror == p.message && (
            p.opened ==> r.err_fopen_missing_status@ == "opened"@) && (!p.opened
                ==> r.err_fopen_missing_status@ == "failed"@),
        exists|p: Probe| #[trigger]
            call_ensures(beyond, (), p) && r.err_fopen_index_oob_strerror == p.message && (
            p.opened ==> r.err_fopen_index_oob_status@ == "opened"@) && (!p.opened
                ==> r.err_fopen_index_oob_status@ == "failed"@),
{
    let rec = entry_at(r.entries@, i);
    assert(rec == r.entries@[i as int]);
    let (n, a, b, s, t) = choose|
        n: Option<String>,
        a: Option<EntryRead>,
        b: Option<EntryRead>,
        s: StatRecord,
        t: NamedStat,
    |
        {
            &&& call_ensures(name, (i,), n)
            &&& n is Some ==> read_by_name(open_named, n->0@, a)
            &&& read_by_index(open_index, i, b)
            &&& call_ensures(stat_index, (i,), s)
            &&& n is Some ==> exists|text: String|
                text@ == n->0@ && #[trigger] call_ensures(stat_named, (text,), t)
            &&& #[trigger] records_entry(entry_at(r.entries@, i), i, n, a, b, s, t)
        };
    assert(call_ensures(name, (i,), n));
    let opened = choose|opened: Option<E>| #[trigger]
        call_ensures(open_index, (i,), opened) && entry_read(opened, b);
    lemma_opened_and_read(opened, b);
    lemma_says(rec.fopen_index, b, "failed"@);
    assert(call_ensures(open_index, (i,), opened) && opened_and_read(opened, b));
    if n is Some {
        let (text, named) = choose|text: String, opened: Option<E>|
            {
                &&& text@ == n->0@
                &&& #[trigger] call_ensures(open_named, (text,), opened)
                &&& entry_read(opened, a)
            };
        lemma_opened_and_read(named, a);
        lemma_says(rec.fopen, a, "failed"@);
        assert(call_ensures(open_named, (text,), named) && opened_and_read(named, a));
    }
}

proof fn lemma_opened_and_read<E: OpenEntry>(opened: Option<E>, r: Option<EntryRead>)
    requires
        entry_read(opened, r),
    ensures
        opened_and_read(opened, r),
{
    if let Some(entry) = opened {
        let answers = choose|answers: Seq<(i64, Vec<u8>)>| #[trigger]
            read_and_closed(entry, answers, r->0);
        let after = choose|after: E| #[trigger]
            read_through(entry, after, answers, 0, u64::MAX as nat) && closed(
                after,
            );
        lemma_read_in_turn(entry, after, answers, 0, u64::MAX as nat);
        let states = choose|states: Seq<E>| #[trigger]
            read_in_turn(states, answers) && states[0] == entry && states.last() == after;
        let c = choose|c: i32| #[trigger] call_ensures(E::close, (after,), c);
        assert(call_ensures(E::close, (states.last(),), c));
    }
}

/// The shorter record of an archive has one of each entry, in order: its name, and what
/// came of opening and reading it by that.
pub proof fn law_entries_are_recorded<
    E: OpenEntry,
    N: Fn(u64) -> Option<String>,
    A: Fn(String) -> Option<E>,
>(num: i64, name: N, open_named: A, r: Vec<PlainEntry>, i: u64)
    requires
        call_ensures(process_entries::<E, N, A>, (num, name, open_named), r),
        i < num,
    ensures
        r@.len() == num,
        r@[i as int].index == i,
        exists|n: Option<String>|
            {
                &&& #[trigger] call_ensures(name, (i,), n)
                &&& r@[i as int].name is Some <==> n is Some
                &&& n matches Some(x) ==> r@[i as int].name->0@ == x@
                &&& n is None ==> says(r@[i as int].read, None, "no_name"@)
            },
        r@[i as int].name matches Some(x) ==> exists|
            t: String,
            opened: Option<E>,
            seen: Option<EntryRead>,
        |
            {
                &&& t@ == x@
                &&& #[trigger] call_ensures(open_named, (t,), opened)
                &&& #[trigger] opened_and_read(opened, seen)
                &&& says(r@[i as int].read, seen, "fopen_failed"@)
            },
{
    let rec = plain_at(r@, i);
    assert(rec == r@[i as int]);
    let (n, a) = choose|n: Option<String>, a: Option<EntryRead>|
        {
            &&& call_ensures(name, (i,), n)
            &&& n is Some ==> read_by_name(open_named, n->0@, a)
            &&& #[trigger] records_plain(plain_at(r@, i), i, n, a)
        };
    assert(call_ensures(name, (i,), n));
    lemma_says(
        rec.read,
        if n is Some { a } else { None },
        if n is Some { "fopen_failed"@ } else { "no_name"@ },
    );
    if n is Some {
        let (text, named) = choose|text: String, opened: Option<E>|
            {
                &&& text@ == n->0@
                &&& #[trigger] call_ensures(open_named, (text,), opened)
                &&& entry_read(opened, a)
            };
        lemma_opened_and_read(named, a);
        assert(call_ensures(open_named, (text,), named) && opened_and_read(named, a));
    }
}

} // verus!
