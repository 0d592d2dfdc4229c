//! The benchmark run: every workload, by every method, through both engines,
//! written and read, with every result checked.
//!
//! Archives are written and read through engines that the caller hands in.

use crate::bench::{
    all_bytes, check_read, check_written, fnv_from, law_steady_operations_are_measured,
    lemma_measured_len, measure, measure_gave, median, read_fault, sorted_samples,
    workload_checksum, written_fault, Operation, Tally, Workload, FNV_START,
};
use crate::consts::{ZIP_CM_DEFLATE, ZIP_CM_STORE};
use crate::text::{append_decimal, decimal};
use vstd::prelude::*;
use vstd::string::*;

verus! {

/// One archive of the benchmark.
#[derive(Clone, Copy, Debug, PartialEq, Eq, Structural)]
pub struct Job {
    /// The engine: 0 for the C library, 1 for this one.
    pub engine: usize,
    /// Whether it is the archive that all engines read, or one that an engine
    /// has written for itself.
    pub canonical: bool,
    /// The place of the workload.
    pub workload: usize,
    /// The compression method.
    pub method: i32,
}

/// What was measured of one operation.
#[derive(Debug)]
pub struct Sample {
    pub engine: usize,
    /// Whether the archive was read, or else written.
    pub reads: bool,
    pub workload: usize,
    pub method: i32,
    pub samples_ns: Vec<u128>,
    pub checksum: u64,
}

/// The name of an engine.
pub fn engine_name(engine: usize) -> (r: &'static str)
    ensures
        r@ == (if engine == 0 { "libzip-c"@ } else { "kzip-rust"@ }),
{
    if engine == 0 {
        "libzip-c"
    } else {
        "kzip-rust"
    }
}

/// The name of a compression method.
pub fn method_name(method: i32) -> (r: &'static str)
    ensures
        r@ == (if method == ZIP_CM_STORE { "store"@ } else { "deflate"@ }),
{
    if method == ZIP_CM_STORE {
        "store"
    } else {
        "deflate"
    }
}

/// The checksum of what a workload holds.
pub open spec fn expected_sum(w: Workload) -> u64 {
    fnv_from(FNV_START, all_bytes(w@.files))
}

/// Whether a sample belongs to an operation, has as many durations as were
/// asked for, and has the checksum of the workload.
pub open spec fn is_sample(
    s: Sample,
    engine: usize,
    reads: bool,
    place: usize,
    w: Workload,
    method: i32,
    samples: nat,
) -> bool {
    &&& s.engine == engine
    &&& s.reads == reads
    &&& s.workload == place
    &&& s.method == method
    &&& s.samples_ns@.len() == samples
    &&& s.checksum == expected_sum(w)
}

/// The engines: they write archives and read them. Every call takes them and
/// gives them back, so that a contract can say which call came behind which.
pub trait Engines: Sized {
    /// Writes an archive. Gives the number of bytes in it, or an error.
    fn write(self, job: Job) -> (Self, Result<u64, String>);

    /// Reads an archive to its end. Gives what was read, or an error.
    fn read(self, job: Job) -> (Self, Result<Tally, String>);

    /// Names an archive in messages.
    fn path(&self, job: Job) -> String;
}

/// Whether writing an archive always succeeds, with the size of the workload.
pub open spec fn writes_well<E: Engines>(workloads: Seq<Workload>) -> bool {
    forall|e: E, j: Job, a: (E, Result<u64, String>)|
        j.workload < workloads.len() && #[trigger] call_ensures(E::write, (e, j), a) ==> a.1
            == Ok::<u64, String>(workloads[j.workload as int].total_bytes)
}

/// Whether reading an archive always gives what the workload holds.
pub open spec fn reads_well<E: Engines>(workloads: Seq<Workload>) -> bool {
    forall|e: E, j: Job, a: (E, Result<Tally, String>)|
        j.workload < workloads.len() && #[trigger] call_ensures(E::read, (e, j), a) ==> a.1
            == Ok::<Tally, String>(wanted(workloads[j.workload as int]))
}

/// What reading an archive of a workload has to give.
pub open spec fn wanted(w: Workload) -> Tally {
    Tally { bytes: w.total_bytes, checksum: expected_sum(w) }
}

/// Whether what was read of an archive was checked: the sum where it is what was
/// wanted, the error of the read, or the message for what was read.
pub open spec fn checked(
    o: Result<u64, String>,
    read: Result<Tally, String>,
    wanted: Tally,
) -> bool {
    match read {
        Ok(t) => if t == wanted {
            o == Ok::<u64, String>(wanted.checksum)
        } else {
            o is Err && o->Err_0@ == read_fault(t, wanted)
        },
        Err(e) => o == Err::<u64, String>(e),
    }
}

/// Writing one archive, as an operation that is measured.
pub struct WriteJob<E> {
    pub engines: E,
    pub job: Job,
}

impl<E: Engines> Operation for WriteJob<E> {
    fn run(self) -> (r: (WriteJob<E>, Result<u64, String>))
        ensures
            r.0.job == self.job,
            call_ensures(E::write, (self.engines, self.job), (r.0.engines, r.1)),
    {
        let (engines, answer) = self.engines.write(self.job);
        (WriteJob { engines, job: self.job }, answer)
    }
}

/// Reading one archive and checking what was read, as an operation that is
/// measured.
pub struct ReadJob<E> {
    pub engines: E,
    pub job: Job,
    pub wanted: Tally,
}

impl<E: Engines> Operation for ReadJob<E> {
    fn run(self) -> (r: (ReadJob<E>, Result<u64, String>))
        ensures
            r.0.job == self.job,
            r.0.wanted == self.wanted,
            exists|a: Result<Tally, String>| #[trigger]
                call_ensures(E::read, (self.engines, self.job), (r.0.engines, a)) && checked(
                    r.1,
                    a,
                    self.wanted,
                ),
    {
        let (engines, answer) = self.engines.read(self.job);
        let ghost given = answer;
        let sum = match answer {
            Ok(t) => check_read(t, self.wanted.bytes, self.wanted.checksum),
            Err(e) => Err(e),
        };
        assert(checked(sum, given, self.wanted));
        let r = (ReadJob { engines, job: self.job, wanted: self.wanted }, sum);
        assert(call_ensures(E::read, (self.engines, self.job), (r.0.engines, given)));
        r
    }
}

/// What measuring how an archive is written comes to. `after` are the engines
/// then.
pub open spec fn writing_gave<E: Engines>(
    before: E,
    after: E,
    job: Job,
    samples: nat,
    warmups: nat,
    r: Result<Vec<u128>, String>,
) -> bool {
    exists|o: WriteJob<E>|
        {
            &&& #[trigger] measure_gave(
                WriteJob { engines: before, job },
                o,
                samples,
                warmups,
                r,
            )
            &&& o.engines == after
        }
}

/// What measuring how an archive is read comes to. `after` are the engines then.
pub open spec fn reading_gave<E: Engines>(
    before: E,
    after: E,
    job: Job,
    wanted: Tally,
    samples: nat,
    warmups: nat,
    r: Result<Vec<u128>, String>,
) -> bool {
    exists|o: ReadJob<E>|
        {
            &&& #[trigger] measure_gave(
                ReadJob { engines: before, job, wanted },
                o,
                samples,
                warmups,
                r,
            )
            &&& o.engines == after
        }
}

/// Whether two samples are those of an engine that took `written` for writing
/// and `seen` for reading a workload.
pub open spec fn are_samples(
    pair: (Sample, Sample),
    engine: usize,
    place: usize,
    method: i32,
    sum: u64,
    written: Seq<u128>,
    seen: Seq<u128>,
) -> bool {
    &&& pair.0.engine == engine && pair.1.engine == engine
    &&& !pair.0.reads && pair.1.reads
    &&& pair.0.workload == place && pair.1.workload == place
    &&& pair.0.method == method && pair.1.method == method
    &&& pair.0.samples_ns@ == written
    &&& pair.1.samples_ns@ == seen
    &&& pair.0.checksum == sum && pair.1.checksum == sum
}

/// The samples of an engine that took `written` for writing and `seen` for
/// reading a workload.
pub fn two_samples(
    engine: usize,
    place: usize,
    method: i32,
    sum: u64,
    written: Vec<u128>,
    seen: Vec<u128>,
) -> (r: (Sample, Sample))
    ensures
        are_samples(r, engine, place, method, sum, written@, seen@),
{
    (
        Sample {
            engine,
            reads: false,
            workload: place,
            method,
            samples_ns: written,
            checksum: sum,
        },
        Sample { engine, reads: true, workload: place, method, samples_ns: seen, checksum: sum },
    )
}

/// What measuring one engine comes to: it writes its own archive of a workload,
/// which is measured, then reads it, which is checked, and then reads the
/// canonical archive, which is measured too. The first of these that fails is
/// the error, and nothing is done behind it. `after` are the engines then.
pub open spec fn engine_gave<E: Engines>(
    before: E,
    after: E,
    engine: usize,
    place: usize,
    method: i32,
    w: Workload,
    samples: nat,
    warmups: nat,
    r: Result<(Sample, Sample), String>,
) -> bool {
    let own = Job { engine, canonical: false, workload: place, method };
    let common = Job { engine, canonical: true, workload: place, method };
    exists|a: E, written: Result<Vec<u128>, String>|
        {
            &&& #[trigger] writing_gave(before, a, own, samples, warmups, written)
            &&& match written {
                Err(e) => after == a && r == Err::<(Sample, Sample), String>(e),
                Ok(ns) => exists|b: E, t: Result<Tally, String>|
                    {
                        &&& #[trigger] call_ensures(E::read, (a, own), (b, t))
                        &&& own_archive_gave(
                            b,
                            after,
                            t,
                            common,
                            w,
                            samples,
                            warmups,
                            ns@,
                            r,
                        )
                    },
            }
        }
}

/// What measuring one engine comes to, once it has taken `written` for writing
/// its own archive and reading that has given `own`.
pub open spec fn own_archive_gave<E: Engines>(
    before: E,
    after: E,
    own: Result<Tally, String>,
    common: Job,
    w: Workload,
    samples: nat,
    warmups: nat,
    written: Seq<u128>,
    r: Result<(Sample, Sample), String>,
) -> bool {
    match own {
        Err(e) => after == before && r == Err::<(Sample, Sample), String>(e),
        Ok(t) => if t != wanted(w) {
            after == before && r is Err && r->Err_0@ == written_fault(t, wanted(w))
        } else {
            exists|seen: Result<Vec<u128>, String>|
                {
                    &&& #[trigger] reading_gave(
                        before,
                        after,
                        common,
                        wanted(w),
                        samples,
                        warmups,
                        seen,
                    )
                    &&& match seen {
                        Err(e) => r == Err::<(Sample, Sample), String>(e),
                        Ok(ns) => r is Ok && are_samples(
                            r->Ok_0,
                            common.engine,
                            common.workload,
                            common.method,
                            expected_sum(w),
                            written,
                            ns@,
                        ),
                    }
                }
        },
    }
}

/// Measures how one engine writes and reads a workload, and checks what it has
/// written and read.
pub fn run_engine<E: Engines>(
    w: &Workload,
    place: usize,
    method: i32,
    engine: usize,
    samples: usize,
    warmups: usize,
    expected: u64,
    engines: E,
) -> (r: (E, Result<(Sample, Sample), String>))
    requires
        expected == expected_sum(*w),
    ensures
        engine_gave(
            engines,
            r.0,
            engine,
            place,
            method,
            *w,
            samples as nat,
            warmups as nat,
            r.1,
        ),
{
    let total: u64 = w.total_bytes;
    let own = Job { engine, canonical: false, workload: place, method };
    let common = Job { engine, canonical: true, workload: place, method };
    let (done, measured_writes) = measure(samples, warmups, WriteJob { engines, job: own });
    let a = done.engines;
    assert(writing_gave(engines, a, own, samples as nat, warmups as nat, measured_writes));
    let written = match measured_writes {
        Ok(d) => d,
        Err(e) => {
            return (a, Err(e));
        },
    };
    let ghost given = written@;
    let (b, answer) = a.read(own);
    let ghost t0 = answer;
    let tally = match answer {
        Ok(t) => t,
        Err(e) => {
            return (b, Err(e));
        },
    };
    let sum: u64 = match check_written(tally, total, expected) {
        Ok(s) => s,
        Err(e) => {
            return (b, Err(e));
        },
    };
    let wanted = Tally { bytes: total, checksum: expected };
    let (seen_by, measured_reads) = measure(
        samples,
        warmups,
        ReadJob { engines: b, job: common, wanted },
    );
    let c = seen_by.engines;
    assert(reading_gave(b, c, common, wanted, samples as nat, warmups as nat, measured_reads));
    let r = match measured_reads {
        Ok(seen) => Ok(two_samples(engine, place, method, sum, written, seen)),
        Err(e) => Err(e),
    };
    assert(own_archive_gave(
        b,
        c,
        t0,
        common,
        *w,
        samples as nat,
        warmups as nat,
        given,
        r,
    ));
    (c, r)
}

/// The message for a canonical archive that does not hold the workload.
fn canonical_message(path: &str, what: &str, got: u64, between: &str, wanted: u64) -> (r: String)
    ensures
        r@ == "canonical archive "@ + path@ + what@ + decimal(got as nat) + between@ + decimal(
            wanted as nat,
        ),
{
    let mut text = String::from_str("canonical archive ");
    text.append(path);
    text.append(what);
    append_decimal(&mut text, got);
    text.append(between);
    append_decimal(&mut text, wanted);
    text
}

/// The message for a canonical archive of which something else was read than was
/// wanted.
pub open spec fn canonical_fault(path: Seq<char>, read: Tally, wanted: Tally) -> Seq<char> {
    if read.bytes != wanted.bytes {
        "canonical archive "@ + path + " read "@ + decimal(read.bytes as nat)
            + " bytes, expected "@ + decimal(wanted.bytes as nat)
    } else {
        "canonical archive "@ + path + " checksum "@ + decimal(read.checksum as nat)
            + ", expected "@ + decimal(wanted.checksum as nat)
    }
}

/// Checks what was read of a canonical archive.
pub fn check_canonical(path: &str, read: Tally, total: u64, expected: u64) -> (r: Result<
    (),
    String,
>)
    ensures
        ({
            let wanted = Tally { bytes: total, checksum: expected };
            if read != wanted {
                r matches Err(e) && e@ == canonical_fault(path@, read, wanted)
            } else {
                r is Ok
            }
        }),
{
    if read.bytes != total {
        return Err(canonical_message(path, " read ", read.bytes, " bytes, expected ", total));
    }
    if read.checksum != expected {
        return Err(
            canonical_message(path, " checksum ", read.checksum, ", expected ", expected),
        );
    }
    Ok(())
}

/// What one method of a workload comes to: the C library writes the canonical
/// archive, which is read and checked, and then both engines are measured. The
/// first of these that fails is the error, and nothing is done behind it.
/// `after` are the engines then, and the samples come in the order in which
/// they were taken.
pub open spec fn method_gave<E: Engines>(
    before: E,
    after: E,
    place: usize,
    method: i32,
    w: Workload,
    samples: nat,
    warmups: nat,
    r: Result<Seq<Sample>, String>,
) -> bool {
    let job = Job { engine: 0, canonical: true, workload: place, method };
    exists|a: E, o: Result<u64, String>|
        {
            &&& #[trigger] call_ensures(E::write, (before, job), (a, o))
            &&& match o {
                Err(e) => after == a && r == Err::<Seq<Sample>, String>(e),
                Ok(_) => exists|b: E, t: Result<Tally, String>|
                    {
                        &&& #[trigger] call_ensures(E::read, (a, job), (b, t))
                        &&& canonical_gave(b, after, t, job, w, samples, warmups, r)
                    },
            }
        }
}

/// What one method of a workload comes to, once reading the canonical archive
/// has given `read`.
pub open spec fn canonical_gave<E: Engines>(
    before: E,
    after: E,
    read: Result<Tally, String>,
    job: Job,
    w: Workload,
    samples: nat,
    warmups: nat,
    r: Result<Seq<Sample>, String>,
) -> bool {
    match read {
        Err(e) => after == before && r == Err::<Seq<Sample>, String>(e),
        Ok(t) => if t != wanted(w) {
            &&& after == before
            &&& r is Err
            &&& exists|p: String| #[trigger]
                call_ensures(E::path, (&before, job), p) && r->Err_0@ == canonical_fault(
                    p@,
                    t,
                    wanted(w),
                )
        } else {
            both_gave(before, after, job.workload, job.method, w, samples, warmups, r)
        },
    }
}

/// What measuring both engines comes to.
pub open spec fn both_gave<E: Engines>(
    before: E,
    after: E,
    place: usize,
    method: i32,
    w: Workload,
    samples: nat,
    warmups: nat,
    r: Result<Seq<Sample>, String>,
) -> bool {
    exists|a: E, x: Result<(Sample, Sample), String>|
        {
            &&& #[trigger] engine_gave(before, a, 0, place, method, w, samples, warmups, x)
            &&& match x {
                Err(e) => after == a && r == Err::<Seq<Sample>, String>(e),
                Ok(x) => exists|y: Result<(Sample, Sample), String>|
                    {
                        &&& #[trigger] engine_gave(
                            a,
                            after,
                            1,
                            place,
                            method,
                            w,
                            samples,
                            warmups,
                            y,
                        )
                        &&& match y {
                            Err(e) => r == Err::<Seq<Sample>, String>(e),
                            Ok(y) => r == Ok::<Seq<Sample>, String>(
                                seq![x.0, x.1, y.0, y.1],
                            ),
                        }
                    },
            }
        }
}

/// Writes a workload by one method as the canonical archive and checks it, then
/// measures both engines and appends their samples.
fn run_method<E: Engines>(
    w: &Workload,
    place: usize,
    method: i32,
    samples: usize,
    warmups: usize,
    engines: E,
    out: &mut Vec<Sample>,
) -> (r: (E, Result<(), String>))
    ensures
        match r.1 {
            Ok(_) => {
                &&& final(out)@.len() == old(out)@.len() + 4
                &&& final(out)@.take(old(out)@.len() as int) == old(out)@
                &&& method_gave(
                    engines,
                    r.0,
                    place,
                    method,
                    *w,
                    samples as nat,
                    warmups as nat,
                    Ok::<Seq<Sample>, String>(final(out)@.skip(old(out)@.len() as int)),
                )
            },
            Err(e) => method_gave(
                engines,
                r.0,
                place,
                method,
                *w,
                samples as nat,
                warmups as nat,
                Err::<Seq<Sample>, String>(e),
            ),
        },
{
    let ghost held = out@;
    let job = Job { engine: 0, canonical: true, workload: place, method };
    let (a, stored) = engines.write(job);
    match stored {
        Ok(_) => {},
        Err(e) => {
            return (a, Err(e));
        },
    }
    let (b, answer) = a.read(job);
    let ghost t0 = answer;
    let tally = match answer {
        Ok(t) => t,
        Err(e) => {
            return (b, Err(e));
        },
    };
    let expected: u64 = workload_checksum(w);
    let name = b.path(job);
    match check_canonical(name.as_str(), tally, w.total_bytes, expected) {
        Ok(_) => {},
        Err(e) => {
            assert(call_ensures(E::path, (&b, job), name));
            return (b, Err(e));
        },
    }
    let (c, x) = run_engine(w, place, method, 0, samples, warmups, expected, b);
    let first = match x {
        Ok(x) => x,
        Err(e) => {
            let ghost r: Result<Seq<Sample>, String> = Err(e);
            assert(both_gave(b, c, place, method, *w, samples as nat, warmups as nat, r));
            assert(canonical_gave(b, c, t0, job, *w, samples as nat, warmups as nat, r));
            return (c, Err(e));
        },
    };
    let ghost x0 = first;
    let (d, y) = run_engine(w, place, method, 1, samples, warmups, expected, c);
    let second = match y {
        Ok(y) => y,
        Err(e) => {
            let ghost r: Result<Seq<Sample>, String> = Err(e);
            assert(both_gave(b, d, place, method, *w, samples as nat, warmups as nat, r));
            assert(canonical_gave(b, d, t0, job, *w, samples as nat, warmups as nat, r));
            return (d, Err(e));
        },
    };
    let ghost y0 = second;
    out.push(first.0);
    out.push(first.1);
    out.push(second.0);
    out.push(second.1);
    proof {
        let row = seq![x0.0, x0.1, y0.0, y0.1];
        let r = Ok::<Seq<Sample>, String>(row);
        assert(out@.take(held.len() as int) =~= held);
        assert(out@.skip(held.len() as int) =~= row);
        assert(both_gave(b, d, place, method, *w, samples as nat, warmups as nat, r));
        assert(canonical_gave(b, d, t0, job, *w, samples as nat, warmups as nat, r));
    }
    (d, Ok(()))
}

/// The method at a place of the run: each workload comes by both.
pub open spec fn method_at(m: int) -> i32 {
    if m % 2 == 0 {
        ZIP_CM_STORE
    } else {
        ZIP_CM_DEFLATE
    }
}

/// Whether the method at a place of the run came to this: workloads in order,
/// each by both methods.
pub open spec fn step_gave<E: Engines>(
    before: E,
    after: E,
    m: int,
    workloads: Seq<Workload>,
    samples: nat,
    warmups: nat,
    r: Result<Seq<Sample>, String>,
) -> bool {
    method_gave(
        before,
        after,
        (m / 2) as usize,
        method_at(m),
        workloads[m / 2],
        samples,
        warmups,
        r,
    )
}

/// The samples of the method at a place of the run.
pub open spec fn row(v: Seq<Sample>, m: int) -> Seq<Sample> {
    v.subrange(4 * m, 4 * m + 4)
}

/// Whether the engines came through these states, one for each method that was
/// run with success and one behind the last, and these are the samples.
pub open spec fn methods_ran<E: Engines>(
    states: Seq<E>,
    v: Seq<Sample>,
    workloads: Seq<Workload>,
    samples: nat,
    warmups: nat,
) -> bool {
    &&& states.len() > 0
    &&& v.len() == 4 * (states.len() - 1)
    &&& forall|m: int|
        0 <= m < states.len() - 1 ==> step_gave(
            states[m],
            states[m + 1],
            m,
            workloads,
            samples,
            warmups,
            Ok(#[trigger] row(v, m)),
        )
}

/// What the run comes to: the samples of all methods of all workloads, or the
/// error of the first that fails, with nothing done behind it.
pub open spec fn run_gave<E: Engines>(
    before: E,
    after: E,
    workloads: Seq<Workload>,
    samples: nat,
    warmups: nat,
    r: Result<Vec<Sample>, String>,
) -> bool {
    exists|states: Seq<E>, v: Seq<Sample>|
        {
            &&& #[trigger] methods_ran(states, v, workloads, samples, warmups)
            &&& states[0] == before
            &&& match r {
                Ok(out) => {
                    &&& states.len() == 2 * workloads.len() + 1
                    &&& states.last() == after
                    &&& out@ == v
                },
                Err(e) => {
                    &&& states.len() <= 2 * workloads.len()
                    &&& step_gave(
                        states.last(),
                        after,
                        states.len() - 1,
                        workloads,
                        samples,
                        warmups,
                        Err::<Seq<Sample>, String>(e),
                    )
                },
            }
        }
}

proof fn lemma_methods_extend<E: Engines>(
    states: Seq<E>,
    v: Seq<Sample>,
    next: E,
    more: Seq<Sample>,
    workloads: Seq<Workload>,
    samples: nat,
    warmups: nat,
)
    requires
        methods_ran(states, v, workloads, samples, warmups),
        more.len() == v.len() + 4,
        more.take(v.len() as int) == v,
        step_gave(
            states.last(),
            next,
            states.len() - 1,
            workloads,
            samples,
            warmups,
            Ok::<Seq<Sample>, String>(more.skip(v.len() as int)),
        ),
    ensures
        methods_ran(states.push(next), more, workloads, samples, warmups),
{
    let s = states.push(next);
    assert forall|m: int| 0 <= m < s.len() - 1 implies step_gave(
        s[m],
        s[m + 1],
        m,
        workloads,
        samples,
        warmups,
        Ok(#[trigger] row(more, m)),
    ) by {
        if m < states.len() - 1 {
            assert(row(v, m) =~= row(more, m)) by {
                assert(row(v, m) == row(more.take(v.len() as int), m));
            }
        } else {
            assert(row(more, m) =~= more.skip(v.len() as int));
        }
    }
}

proof fn lemma_engine_samples<E: Engines>(
    before: E,
    after: E,
    engine: usize,
    place: usize,
    method: i32,
    w: Workload,
    samples: nat,
    warmups: nat,
    r: Result<(Sample, Sample), String>,
)
    requires
        engine_gave(before, after, engine, place, method, w, samples, warmups, r),
        r is Ok,
    ensures
        is_sample(r->Ok_0.0, engine, false, place, w, method, samples),
        is_sample(r->Ok_0.1, engine, true, place, w, method, samples),
{
    let own = Job { engine, canonical: false, workload: place, method };
    let common = Job { engine, canonical: true, workload: place, method };
    let (a, written) = choose|a: E, written: Result<Vec<u128>, String>|
        {
            &&& #[trigger] writing_gave(before, a, own, samples, warmups, written)
            &&& written is Ok
            &&& exists|b: E, t: Result<Tally, String>|
                {
                    &&& #[trigger] call_ensures(E::read, (a, own), (b, t))
                    &&& own_archive_gave(
                        b,
                        after,
                        t,
                        common,
                        w,
                        samples,
                        warmups,
                        written->Ok_0@,
                        r,
                    )
                }
        };
    let o = choose|o: WriteJob<E>|
        {
            &&& #[trigger] measure_gave(
                WriteJob { engines: before, job: own },
                o,
                samples,
                warmups,
                written,
            )
            &&& o.engines == a
        };
    lemma_measured_len(WriteJob { engines: before, job: own }, o, samples, warmups, written);
    let (b, t) = choose|b: E, t: Result<Tally, String>|
        {
            &&& #[trigger] call_ensures(E::read, (a, own), (b, t))
            &&& own_archive_gave(b, after, t, common, w, samples, warmups, written->Ok_0@, r)
        };
    let seen = choose|seen: Result<Vec<u128>, String>|
        {
            &&& #[trigger] reading_gave(b, after, common, wanted(w), samples, warmups, seen)
            &&& seen is Ok
            &&& are_samples(
                r->Ok_0,
                engine,
                place,
                method,
                expected_sum(w),
                written->Ok_0@,
                seen->Ok_0@,
            )
        };
    let op = ReadJob { engines: b, job: common, wanted: wanted(w) };
    let o = choose|o: ReadJob<E>|
        {
            &&& #[trigger] measure_gave(op, o, samples, warmups, seen)
            &&& o.engines == after
        };
    lemma_measured_len(op, o, samples, warmups, seen);
}

proof fn lemma_row_samples<E: Engines>(
    before: E,
    after: E,
    place: usize,
    method: i32,
    w: Workload,
    samples: nat,
    warmups: nat,
    v: Seq<Sample>,
)
    requires
        method_gave(before, after, place, method, w, samples, warmups, Ok(v)),
    ensures
        v.len() == 4,
        is_sample(v[0], 0, false, place, w, method, samples),
        is_sample(v[1], 0, true, place, w, method, samples),
        is_sample(v[2], 1, false, place, w, method, samples),
        is_sample(v[3], 1, true, place, w, method, samples),
{
    let r = Ok::<Seq<Sample>, String>(v);
    let b = choose|b: E| #[trigger]
        both_gave(b, after, place, method, w, samples, warmups, r);
    let (c, x) = choose|c: E, x: Result<(Sample, Sample), String>|
        {
            &&& #[trigger] engine_gave(b, c, 0, place, method, w, samples, warmups, x)
            &&& x is Ok
            &&& exists|y: Result<(Sample, Sample), String>|
                {
                    &&& #[trigger] engine_gave(c, after, 1, place, method, w, samples, warmups, y)
                    &&& y is Ok
                    &&& v == seq![x->Ok_0.0, x->Ok_0.1, y->Ok_0.0, y->Ok_0.1]
                }
        };
    let y = choose|y: Result<(Sample, Sample), String>|
        {
            &&& #[trigger] engine_gave(c, after, 1, place, method, w, samples, warmups, y)
            &&& y is Ok
            &&& v == seq![x->Ok_0.0, x->Ok_0.1, y->Ok_0.0, y->Ok_0.1]
        };
    lemma_engine_samples(b, c, 0, place, method, w, samples, warmups, x);
    lemma_engine_samples(c, after, 1, place, method, w, samples, warmups, y);
}

/// Whether a sample is the one at a place of a whole run: workloads in order,
/// each by both methods, each through both engines, each written and then read.
pub open spec fn is_sample_at(s: Sample, k: int, workloads: Seq<Workload>, samples: nat) -> bool {
    is_sample(
        s,
        ((k % 4) / 2) as usize,
        k % 2 == 1,
        (k / 8) as usize,
        workloads[k / 8],
        if k % 8 < 4 { ZIP_CM_STORE } else { ZIP_CM_DEFLATE },
        samples,
    )
}

/// A run that succeeds gives eight samples for each workload, in the order in
/// which they were taken, each with the checksum of the workload and as many
/// durations as were asked for.
pub proof fn law_samples_come_in_order<E: Engines>(
    before: E,
    after: E,
    workloads: Seq<Workload>,
    samples: nat,
    warmups: nat,
    out: Vec<Sample>,
)
    requires
        run_gave(before, after, workloads, samples, warmups, Ok(out)),
        workloads.len() <= usize::MAX,
    ensures
        out@.len() == 8 * workloads.len(),
        forall|k: int|
            0 <= k < out@.len() ==> is_sample_at(#[trigger] out@[k], k, workloads, samples),
{
    let v = out@;
    let states = choose|states: Seq<E>|
        {
            &&& #[trigger] methods_ran(states, v, workloads, samples, warmups)
            &&& states.len() == 2 * workloads.len() + 1
        };
    assert forall|k: int| 0 <= k < v.len() implies is_sample_at(
        #[trigger] v[k],
        k,
        workloads,
        samples,
    ) by {
        let m = k / 4;
        let four = row(v, m);
        lemma_row_samples(
            states[m],
            states[m + 1],
            (m / 2) as usize,
            method_at(m),
            workloads[m / 2],
            samples,
            warmups,
            four,
        );
        assert(v[k] == four[k % 4]);
        assert(m / 2 == k / 8);
        assert(m % 2 == 0 <==> k % 8 < 4);
        assert(k % 2 == (k % 4) % 2);
    }
}

proof fn lemma_engine_succeeds<E: Engines>(
    before: E,
    after: E,
    engine: usize,
    place: usize,
    method: i32,
    workloads: Seq<Workload>,
    samples: nat,
    warmups: nat,
    r: Result<(Sample, Sample), String>,
)
    requires
        place < workloads.len(),
        engine_gave(
            before,
            after,
            engine,
            place,
            method,
            workloads[place as int],
            samples,
            warmups,
            r,
        ),
        writes_well::<E>(workloads),
        reads_well::<E>(workloads),
    ensures
        r is Ok,
{
    let w = workloads[place as int];
    let own = Job { engine, canonical: false, workload: place, method };
    let common = Job { engine, canonical: true, workload: place, method };
    assert forall|a: E, written: Result<Vec<u128>, String>| #[trigger]
        writing_gave(before, a, own, samples, warmups, written) implies written is Ok by {
        let op = WriteJob { engines: before, job: own };
        let o = choose|o: WriteJob<E>|
            {
                &&& #[trigger] measure_gave(op, o, samples, warmups, written)
                &&& o.engines == a
            };
        law_steady_operations_are_measured(
            op,
            o,
            samples,
            warmups,
            written,
            |o: WriteJob<E>| o.job == own,
            w.total_bytes,
        );
    }
    assert forall|b: E, seen: Result<Vec<u128>, String>| #[trigger]
        reading_gave(b, after, common, wanted(w), samples, warmups, seen) implies seen is Ok by {
        let op = ReadJob { engines: b, job: common, wanted: wanted(w) };
        let o = choose|o: ReadJob<E>|
            {
                &&& #[trigger] measure_gave(op, o, samples, warmups, seen)
                &&& o.engines == after
            };
        law_steady_operations_are_measured(
            op,
            o,
            samples,
            warmups,
            seen,
            |o: ReadJob<E>| o.job == common && o.wanted == wanted(w),
            wanted(w).checksum,
        );
    }
}

proof fn lemma_method_succeeds<E: Engines>(
    before: E,
    after: E,
    place: usize,
    method: i32,
    workloads: Seq<Workload>,
    samples: nat,
    warmups: nat,
    r: Result<Seq<Sample>, String>,
)
    requires
        place < workloads.len(),
        method_gave(
            before,
            after,
            place,
            method,
            workloads[place as int],
            samples,
            warmups,
            r,
        ),
        writes_well::<E>(workloads),
        reads_well::<E>(workloads),
    ensures
        r is Ok,
{
    let w = workloads[place as int];
    let b = choose|b: E| #[trigger]
        both_gave(b, after, place, method, w, samples, warmups, r);
    assert forall|a: E, c: E, engine: usize, x: Result<(Sample, Sample), String>| #[trigger]
        engine_gave(a, c, engine, place, method, w, samples, warmups, x) implies x is Ok by {
        lemma_engine_succeeds(
            a,
            c,
            engine,
            place,
            method,
            workloads,
            samples,
            warmups,
            x,
        );
    }
}

/// If writing always succeeds with the size of the workload, and reading always
/// gives what the workload holds, then the run succeeds.
pub proof fn law_good_engines_succeed<E: Engines>(
    before: E,
    after: E,
    workloads: Seq<Workload>,
    samples: nat,
    warmups: nat,
    r: Result<Vec<Sample>, String>,
)
    requires
        run_gave(before, after, workloads, samples, warmups, r),
        workloads.len() <= usize::MAX,
        writes_well::<E>(workloads),
        reads_well::<E>(workloads),
    ensures
        r is Ok,
{
    if r is Err {
        let e = Err::<Seq<Sample>, String>(r->Err_0);
        let states = choose|states: Seq<E>|
            {
                &&& 0 < states.len() <= 2 * workloads.len()
                &&& #[trigger] step_gave(
                    states.last(),
                    after,
                    states.len() - 1,
                    workloads,
                    samples,
                    warmups,
                    e,
                )
            };
        let m = states.len() - 1;
        lemma_method_succeeds(
            states.last(),
            after,
            (m / 2) as usize,
            method_at(m),
            workloads,
            samples,
            warmups,
            e,
        );
    }
}

/// Runs the benchmark.
pub fn run_benchmark<E: Engines>(
    workloads: &Vec<Workload>,
    samples: usize,
    warmups: usize,
    engines: E,
) -> (r: (E, Result<Vec<Sample>, String>))
    ensures
        run_gave(engines, r.0, workloads@, samples as nat, warmups as nat, r.1),
{
    let mut out: Vec<Sample> = Vec::new();
    let mut at = engines;
    let ghost mut states: Seq<E> = seq![engines];
    let mut i: usize = 0;
    while i < workloads.len()
        invariant
            i <= workloads@.len(),
            states.len() == 2 * i + 1,
            states[0] == engines,
            states.last() == at,
            methods_ran(states, out@, workloads@, samples as nat, warmups as nat),
        decreases workloads.len() - i,
    {
        let ghost v = out@;
        let (half, r) = run_method(
            &workloads[i],
            i,
            ZIP_CM_STORE,
            samples,
            warmups,
            at,
            &mut out,
        );
        assert((2 * i) / 2 == i && (2 * i) % 2 == 0);
        match r {
            Ok(_) => {},
            Err(e) => {
                assert(methods_ran(states, v, workloads@, samples as nat, warmups as nat));
                return (half, Err(e));
            },
        }
        proof {
            lemma_methods_extend(
                states,
                v,
                half,
                out@,
                workloads@,
                samples as nat,
                warmups as nat,
            );
            states = states.push(half);
        }
        let ghost v = out@;
        let (next, r) = run_method(
            &workloads[i],
            i,
            ZIP_CM_DEFLATE,
            samples,
            warmups,
            half,
            &mut out,
        );
        assert((2 * i + 1) / 2 == i && (2 * i + 1) % 2 == 1);
        match r {
            Ok(_) => {},
            Err(e) => {
                assert(methods_ran(states, v, workloads@, samples as nat, warmups as nat));
                return (next, Err(e));
            },
        }
        proof {
            lemma_methods_extend(
                states,
                v,
                next,
                out@,
                workloads@,
                samples as nat,
                warmups as nat,
            );
            states = states.push(next);
        }
        at = next;
        i += 1;
    }
    (at, Ok(out))
}

/// What a measurement says in whole numbers.
#[derive(Debug)]
pub struct Measurement {
    pub engine: &'static str,
    pub operation: &'static str,
    pub workload: &'static str,
    pub method: &'static str,
    pub files: usize,
    pub bytes: u64,
    pub samples_ns: Vec<u128>,
    pub median_ns: u128,
    pub p95_ns: u128,
    pub checksum: u64,
}

/// Sums up a sample of a workload. The 95th percentile is the duration at
/// `p95_index` of the sorted ones, the last at most.
pub fn measurement(sample: Sample, w: &Workload, p95_index: usize) -> (r: Measurement)
    requires
        sample.samples_ns@.len() > 0,
    ensures
        r.engine@ == (if sample.engine == 0 { "libzip-c"@ } else { "kzip-rust"@ }),
        r.operation@ == (if sample.reads { "read"@ } else { "write"@ }),
        r.workload@ == w@.name,
        r.method@ == (if sample.method == ZIP_CM_STORE { "store"@ } else { "deflate"@ }),
        r.files == w@.files.len(),
        r.bytes == w.total_bytes,
        r.samples_ns@ == sample.samples_ns@,
        r.checksum == sample.checksum,
        exists|sorted: Seq<u128>|
            {
                let last = sorted.len() - 1;
                &&& #[trigger] crate::bench::ascending(sorted)
                &&& sorted.to_multiset() == sample.samples_ns@.to_multiset()
                &&& sorted.len() == sample.samples_ns@.len()
                &&& r.median_ns == sorted[sorted.len() as int / 2]
                &&& r.p95_ns == sorted[if p95_index < last { p95_index as int } else { last }]
            },
{
    let sorted = sorted_samples(&sample.samples_ns);
    let last: usize = sorted.len() - 1;
    let place: usize = if p95_index < last { p95_index } else { last };
    let median_ns: u128 = median(&sorted);
    let p95_ns: u128 = sorted[place];
    assert(crate::bench::ascending(sorted@));
    Measurement {
        engine: engine_name(sample.engine),
        operation: if sample.reads { "read" } else { "write" },
        workload: w.name,
        method: method_name(sample.method),
        files: w.files.len(),
        bytes: w.total_bytes,
        median_ns,
        p95_ns,
        checksum: sample.checksum,
        samples_ns: sample.samples_ns,
    }
}

} // verus!
