use kzip::bench::{
    check_read, check_written, chrono_like_timestamp, count_fits, finish_measure, fnv_update,
    make_entry_name, measure, median, next_random, option_value, parse_usize, pattern_bytes,
    random_bytes, same_text, sorted_samples, stable, timed_run, timestamp_text, workload,
    workload_checksum, workloads, Operation, Tally, FNV_START,
};
use kzip::bench_archive::{
    entry_verdict, read_archive_checked, write_archive, Added, ArchiveWriter,
};
use kzip::bench_run::{
    check_canonical, engine_name, measurement, method_name, run_benchmark, run_engine, two_samples,
    Engines, Job, Sample,
};
use kzip::clock::unix_now;
use kzip::consts::{ZIP_CM_DEFLATE, ZIP_CM_STORE};
use kzip::reading::OpenEntry;
use std::cell::{Cell, RefCell};

/// An operation that is a function.
struct Op<F>(F);

impl<F: FnMut() -> Result<u64, String>> Operation for Op<F> {
    fn run(mut self) -> (Self, Result<u64, String>) {
        let r = (self.0)();
        (self, r)
    }
}

/// Engines that are functions, and note what they are asked for.
struct Asked<W, R> {
    write: W,
    read: R,
    path: &'static str,
    jobs: Vec<(bool, Job)>,
}

impl<W: Fn(Job) -> Result<u64, String>, R: Fn(Job) -> Result<Tally, String>> Engines
    for Asked<W, R>
{
    fn write(mut self, job: Job) -> (Self, Result<u64, String>) {
        self.jobs.push((false, job));
        let r = (self.write)(job);
        (self, r)
    }

    fn read(mut self, job: Job) -> (Self, Result<Tally, String>) {
        self.jobs.push((true, job));
        let r = (self.read)(job);
        (self, r)
    }

    fn path(&self, _job: Job) -> String {
        self.path.to_string()
    }
}

/// An archive that notes what is done to it.
struct Noted<'a> {
    log: &'a RefCell<Vec<String>>,
    add: fn(u64) -> Added,
    method: i32,
    closed: i32,
}

impl ArchiveWriter for Noted<'_> {
    fn add_file(self, index: u64, name: String) -> (Self, Added) {
        self.log.borrow_mut().push(format!("add {index} {name}"));
        let r = (self.add)(index);
        (self, r)
    }

    fn set_method(self, entry: u64) -> (Self, i32) {
        self.log.borrow_mut().push(format!("method {entry}"));
        let r = self.method;
        (self, r)
    }

    fn close(self) -> i32 {
        self.log.borrow_mut().push("close".to_string());
        self.closed
    }
}

/// An open entry that gives these answers, from the last to the first, and notes
/// that it is closed.
struct Scripted<'a> {
    index: u64,
    answers: Vec<(i64, Vec<u8>)>,
    closed: i32,
    log: &'a RefCell<Vec<u64>>,
}

impl OpenEntry for Scripted<'_> {
    fn read_on(mut self) -> (Self, (i64, Vec<u8>)) {
        let answer = self.answers.pop().unwrap();
        (self, answer)
    }

    fn close(self) -> i32 {
        assert!(self.answers.is_empty());
        self.log.borrow_mut().push(self.index);
        self.closed
    }
}

#[test]
fn fnv_vectors() {
    assert_eq!(fnv_update(FNV_START, b""), FNV_START);
    assert_eq!(fnv_update(FNV_START, b"a"), 12_638_187_200_555_641_996);
    assert_eq!(fnv_update(FNV_START, b"hello world"), 8_618_312_879_776_256_743);
    // In parts it is the same.
    let half = fnv_update(FNV_START, b"hello ");
    assert_eq!(fnv_update(half, b"world"), 8_618_312_879_776_256_743);
    let mut t = Tally::new();
    t.absorb(b"hello ");
    t.absorb(b"world");
    assert_eq!((t.bytes, t.checksum), (11, 8_618_312_879_776_256_743));
}

#[test]
fn numbers_are_parsed() {
    assert_eq!(parse_usize("0"), Some(0));
    assert_eq!(parse_usize("+17"), Some(17));
    assert_eq!(parse_usize("0042"), Some(42));
    assert_eq!(parse_usize("18446744073709551615"), Some(usize::MAX));
    assert_eq!(parse_usize("18446744073709551616"), None);
    for bad in ["", "+", "-1", " 1", "1x", "\u{0661}"] {
        assert_eq!(parse_usize(bad), None);
    }
}

#[test]
fn options_are_found() {
    let args: Vec<String> =
        ["prog", "--samples", "9", "--bad", "x", "--samples", "3", "--last"]
            .iter()
            .map(|s| s.to_string())
            .collect();
    assert_eq!(option_value(&args, "--samples", 5), 9);
    assert_eq!(option_value(&args, "--bad", 5), 5);
    assert_eq!(option_value(&args, "--warmups", 2), 2);
    // Without a value behind it an option does not count.
    assert_eq!(option_value(&args, "--last", 4), 4);
    assert_eq!(option_value(&[], "--samples", 7), 7);
    assert!(same_text("ab", "ab") && !same_text("ab", "abc") && !same_text("ab", "aB"));
}

#[test]
fn patterns_repeat() {
    let p = pattern_bytes(85, 0xBEEF);
    let phrase = b"kzip benchmark pattern 000000000000beef ";
    assert_eq!(phrase.len(), 40);
    assert_eq!(&p[..40], phrase);
    assert_eq!(&p[40..80], phrase);
    assert_eq!(&p[80..], b"kzip ");
    assert!(pattern_bytes(0, 1).is_empty());
}

#[test]
fn random_content() {
    assert_eq!(
        random_bytes(20, 0x1234),
        [16, 31, 98, 60, 132, 4, 0, 0, 46, 31, 35, 81, 240, 124, 141, 68, 144, 82, 131, 63]
    );
    assert_eq!(next_random(7), u64::from_le_bytes([199, 225, 142, 195, 1, 0, 0, 0]));
    assert_eq!(next_random(0), 0);
}

#[test]
fn workload_files() {
    let w = workload("w", &[50, 10], 0x10, true);
    assert_eq!(w.name, "w");
    assert_eq!(w.total_bytes, 60);
    assert_eq!(w.files[0], pattern_bytes(50, 0x10));
    assert_eq!(w.files[1].len(), 10);
    let joined: Vec<u8> = w.files.concat();
    assert_eq!(workload_checksum(&w), fnv_update(FNV_START, &joined));
}

#[test]
fn the_workloads() {
    let all = workloads();
    let shape: Vec<(&str, usize, u64)> =
        all.iter().map(|w| (w.name, w.files.len(), w.total_bytes)).collect();
    assert_eq!(
        shape,
        vec![
            ("tiny-mixed", 64, 262_144),
            ("many-small", 1024, 4_194_304),
            ("text-8m", 8, 8_388_608),
            ("mixed-8m", 8, 8_388_608),
            ("single-16m", 1, 16_777_216),
        ]
    );
}

#[test]
fn measuring() {
    let calls = Cell::new(0);
    let (_, d) = measure(
        4,
        2,
        Op(|| {
            calls.set(calls.get() + 1);
            Ok(9)
        }),
    );
    assert_eq!(d.unwrap().len(), 4);
    assert_eq!(calls.get(), 6);
    let mut n = 0;
    let (_, r) = measure(
        3,
        0,
        Op(|| {
            n += 1;
            Ok(n)
        }),
    );
    assert_eq!(r.unwrap_err(), "checksum changed between benchmark samples");
    assert_eq!(n, 3);
    let (_, r) = measure(1, 1, Op(|| Err("broken".to_string())));
    assert_eq!(r.unwrap_err(), "broken");
    // What the warm-ups give does not count.
    let mut n = 0;
    let (_, r) = measure(
        2,
        1,
        Op(|| {
            n += 1;
            Ok(if n == 1 { 1 } else { 2 })
        }),
    );
    assert_eq!(r.unwrap().len(), 2);
    // A run that fails is reported and is the last, warm-up or not.
    for failing in [2, 5] {
        let calls = Cell::new(0);
        let (_, r) = measure(
            3,
            3,
            Op(|| {
                calls.set(calls.get() + 1);
                if calls.get() == failing {
                    Err(format!("run {failing}"))
                } else {
                    Ok(1)
                }
            }),
        );
        assert_eq!(r.unwrap_err(), format!("run {failing}"));
        assert_eq!(calls.get(), failing);
    }
    assert!(stable(&vec![]) && stable(&vec![4, 4]) && !stable(&vec![4, 5]));
    assert_eq!(finish_measure(vec![3], &vec![1]), Ok(vec![3]));
    assert!(finish_measure(vec![3, 4], &vec![1, 2]).is_err());
}

#[test]
fn durations_are_measured() {
    let work = || {
        let mut sum = 0u64;
        for i in 0..200_000u64 {
            sum = sum.wrapping_mul(31).wrapping_add(i);
        }
        Ok(sum)
    };
    let (_, d) = measure(2, 0, Op(work));
    assert!(d.unwrap().iter().all(|ns| *ns < 20_000_000_000));
    // A pause between the start and the end of the timer is seen.
    let begin = std::time::Instant::now();
    let pause = || {
        let from = std::time::Instant::now();
        while from.elapsed().as_millis() < 3 {}
        Ok(5)
    };
    let (_, ns, r) = timed_run(Op(pause));
    assert_eq!(r, Ok(5));
    assert!(ns >= 3_000_000 && ns <= begin.elapsed().as_nanos());
}

#[test]
fn the_middle_of_samples() {
    let s = sorted_samples(&vec![5, 1, 4, 1, 3]);
    assert_eq!(s, vec![1, 1, 3, 4, 5]);
    assert_eq!(median(&s), 3);
    assert_eq!(median(&sorted_samples(&vec![9, 2])), 9);
}

#[test]
fn timestamps() {
    assert_eq!(timestamp_text(Some(1_700_000_000)), "1700000000");
    assert_eq!(timestamp_text(None), "unknown");
    let before = unix_now().unwrap();
    let shown: u64 = chrono_like_timestamp().parse().unwrap();
    assert!(before > 1_600_000_000);
    assert!(shown >= before && shown <= unix_now().unwrap() + 1);
}

#[test]
fn entry_names() {
    assert_eq!(make_entry_name(0), "f-00000.bin");
    assert_eq!(make_entry_name(7), "f-00007.bin");
    assert_eq!(make_entry_name(1023), "f-01023.bin");
    assert_eq!(make_entry_name(99_999), "f-99999.bin");
    assert_eq!(make_entry_name(123_456), "f-123456.bin");
}

#[test]
fn what_was_read_is_checked() {
    let t = Tally { bytes: 10, checksum: 77 };
    assert_eq!(check_written(t, 10, 77), Ok(77));
    assert_eq!(
        check_written(t, 11, 77).unwrap_err(),
        "written archive contains 10 bytes, expected 11"
    );
    assert_eq!(
        check_written(t, 10, 78).unwrap_err(),
        "written archive checksum 77, expected 78"
    );
    assert_eq!(check_read(t, 10, 77), Ok(77));
    assert_eq!(check_read(t, 9, 77).unwrap_err(), "read byte count mismatch: 10");
    assert_eq!(check_read(t, 10, 1).unwrap_err(), "read checksum 77, expected 1");
    assert_eq!(check_canonical("p", t, 10, 77), Ok(()));
    assert_eq!(
        check_canonical("p", t, 1, 77).unwrap_err(),
        "canonical archive p read 10 bytes, expected 1"
    );
    assert_eq!(
        check_canonical("p", t, 10, 7).unwrap_err(),
        "canonical archive p checksum 77, expected 7"
    );
    assert!(count_fits(3, 3) && !count_fits(2, 3) && count_fits(-1, 0));
}

#[test]
fn a_run_measures_everything() {
    let w = vec![workload("one", &[5], 1, true), workload("two", &[3, 4], 2, false)];
    let engines = Asked {
        write: |j: Job| Ok(w[j.workload].total_bytes),
        read: |j: Job| {
            let checksum = workload_checksum(&w[j.workload]);
            Ok(Tally { bytes: w[j.workload].total_bytes, checksum })
        },
        path: "p",
        jobs: vec![],
    };
    let (engines, out) = run_benchmark(&w, 2, 1, engines);
    let out = out.unwrap();
    assert_eq!(out.len(), 16);
    for (k, s) in out.iter().enumerate() {
        assert_eq!(s.workload, k / 8);
        assert_eq!(s.method, if k % 8 < 4 { ZIP_CM_STORE } else { ZIP_CM_DEFLATE });
        assert_eq!(s.engine, k % 4 / 2);
        assert_eq!(s.reads, k % 2 == 1);
        assert_eq!(s.samples_ns.len(), 2);
        assert_eq!(s.checksum, workload_checksum(&w[k / 8]));
    }
    // Each canonical archive is written once and read once, each own one is
    // written in every round and then read once.
    let mut expected = Vec::new();
    for (workload, method) in
        [(0, ZIP_CM_STORE), (0, ZIP_CM_DEFLATE), (1, ZIP_CM_STORE), (1, ZIP_CM_DEFLATE)]
    {
        let job = |engine: usize, canonical: bool| Job { engine, canonical, workload, method };
        expected.push((false, job(0, true)));
        expected.push((true, job(0, true)));
        for engine in [0, 1] {
            for _ in 0..3 {
                expected.push((false, job(engine, false)));
            }
            expected.push((true, job(engine, false)));
            for _ in 0..3 {
                expected.push((true, job(engine, true)));
            }
        }
    }
    assert_eq!(engines.jobs, expected);
}

#[test]
fn a_run_stops_at_a_wrong_archive() {
    let w = vec![workload("one", &[5], 1, true)];
    let good = workload_checksum(&w[0]);
    let write = |_j: Job| Ok(5u64);
    let read = |_j: Job| Ok(Tally { bytes: 4, checksum: good });
    let (engines, r) =
        run_benchmark(&w, 1, 0, Asked { write, read, path: "x.zip", jobs: vec![] });
    assert_eq!(r.unwrap_err(), "canonical archive x.zip read 4 bytes, expected 5");
    assert_eq!(engines.jobs.len(), 2);
    let read = |j: Job| Ok(Tally { bytes: 5, checksum: if j.canonical { good } else { 1 } });
    let (engines, r) = run_benchmark(&w, 1, 0, Asked { write, read, path: "", jobs: vec![] });
    assert_eq!(r.unwrap_err(), format!("written archive checksum 1, expected {}", good));
    assert_eq!(engines.jobs.len(), 4);
    let broken = |_j: Job| Err("no disk".to_string());
    let (engines, r) =
        run_benchmark(&w, 1, 0, Asked { write: broken, read, path: "", jobs: vec![] });
    assert_eq!(r.unwrap_err(), "no disk");
    assert_eq!(engines.jobs.len(), 1);
    // The canonical archive can turn wrong later.
    let times = Cell::new(0);
    let read = |j: Job| {
        if j.canonical {
            times.set(times.get() + 1);
        }
        Ok(Tally { bytes: if times.get() == 3 { 6 } else { 5 }, checksum: good })
    };
    let (_, r) = run_benchmark(&w, 2, 0, Asked { write, read, path: "", jobs: vec![] });
    assert_eq!(r.unwrap_err(), "read byte count mismatch: 6");
}

#[test]
fn durations_go_to_their_sample() {
    let (a, b) = two_samples(1, 4, ZIP_CM_STORE, 77, vec![1, 2], vec![3]);
    assert_eq!((a.engine, a.reads, a.workload, a.method, a.checksum), (1, false, 4, 0, 77));
    assert_eq!((b.engine, b.reads, b.workload, b.method, b.checksum), (1, true, 4, 0, 77));
    assert_eq!((a.samples_ns, b.samples_ns), (vec![1, 2], vec![3]));
    // Writing takes its time here, reading does not.
    let w = workload("one", &[5], 1, true);
    let sum = workload_checksum(&w);
    let engines = Asked {
        write: |_j: Job| {
            let from = std::time::Instant::now();
            while from.elapsed().as_millis() < 20 {}
            Ok(5)
        },
        read: |_j: Job| Ok(Tally { bytes: 5, checksum: sum }),
        path: "",
        jobs: vec![],
    };
    let (_, r) = run_engine(&w, 0, ZIP_CM_STORE, 0, 3, 0, sum, engines);
    let (a, b) = r.unwrap();
    assert!(a.samples_ns.iter().all(|ns| *ns >= 20_000_000));
    assert!(b.samples_ns.iter().min().unwrap() < &20_000_000);
}

#[test]
fn samples_are_summed_up() {
    let w = workload("one", &[5, 6], 1, true);
    let s = Sample {
        engine: 1,
        reads: true,
        workload: 0,
        method: ZIP_CM_DEFLATE,
        samples_ns: vec![30, 10, 20, 40],
        checksum: 3,
    };
    let m = measurement(s, &w, 2);
    assert_eq!((m.engine, m.operation, m.workload, m.method), ("kzip-rust", "read", "one", "deflate"));
    assert_eq!((m.files, m.bytes), (2, 11));
    assert_eq!((m.median_ns, m.p95_ns), (30, 30));
    assert_eq!(m.samples_ns, vec![30, 10, 20, 40]);
    assert_eq!(engine_name(0), "libzip-c");
    assert_eq!(method_name(ZIP_CM_STORE), "store");
}

#[test]
fn workloads_are_written() {
    let w = workload("w", &[1, 2, 3], 1, true);
    let log = RefCell::new(Vec::new());
    let archive = Noted { log: &log, add: |i: u64| Added::At(i + 10), method: 0, closed: 0 };
    assert_eq!(write_archive(&w, archive), Ok(6));
    assert_eq!(
        *log.borrow(),
        [
            "add 0 f-00000.bin",
            "method 10",
            "add 1 f-00001.bin",
            "method 11",
            "add 2 f-00002.bin",
            "method 12",
            "close"
        ]
    );
}

#[test]
fn failures_to_write_are_reported() {
    let w = workload("w", &[1, 2], 1, true);
    let no_source: fn(u64) -> Added = |i| if i == 1 { Added::NoSource } else { Added::At(i) };
    let refused: fn(u64) -> Added = |_| Added::Refused;
    let at: fn(u64) -> Added = Added::At;
    for (add, method, closed, steps, message) in [
        (no_source, 0, 0, 4, "zip_source_buffer failed for entry 1"),
        (no_source, 0, -1, 4, "zip_source_buffer failed for entry 1"),
        (refused, 0, 0, 2, "zip_file_add failed for entry 0"),
        (at, -1, 0, 3, "zip_set_file_compression failed for entry 0"),
        (at, 0, -1, 5, "zip_close failed for write"),
    ] {
        let log = RefCell::new(Vec::new());
        let r = write_archive(&w, Noted { log: &log, add, method, closed });
        assert_eq!(r.unwrap_err(), message);
        // The archive is closed once, and last.
        let log = log.borrow();
        assert_eq!(log.len(), steps);
        assert_eq!(log.iter().position(|l| l == "close"), Some(steps - 1));
    }
}

#[test]
fn archives_are_read_to_their_end() {
    // Two entries, each in two chunks.
    let log = RefCell::new(Vec::new());
    let end = || (0i64, vec![0u8; 8]);
    let script = |index: u64, answers: Vec<(i64, Vec<u8>)>, closed: i32| {
        Some(Scripted { index, answers, closed, log: &log })
    };
    let t = read_archive_checked(2, 2, |i: u64| {
        script(i, vec![end(), (2, b"de".to_vec()), (3, vec![b'a' + i as u8, b'b', b'c', b'.'])], 0)
    })
    .unwrap();
    assert_eq!(t.bytes, 10);
    assert_eq!(t.checksum, fnv_update(FNV_START, b"abcdebbcde"));
    // Each was closed once.
    assert_eq!(*log.borrow(), [0, 1]);
    let empty = |i: u64| script(i, vec![end()], 0);
    assert_eq!(
        read_archive_checked(1, 2, empty).unwrap_err(),
        "entry count 1, expected 2"
    );
    assert_eq!(
        read_archive_checked(-1, 2, empty).unwrap_err(),
        "entry count -1, expected 2"
    );
    assert_eq!(log.borrow().len(), 2);
    assert_eq!(
        read_archive_checked(2, 2, |i: u64| if i == 0 { empty(i) } else { None }).unwrap_err(),
        "zip_fopen_index failed for entry 1"
    );
    assert_eq!(*log.borrow(), [0, 1, 0]);
    // An entry that cannot be read is closed too.
    let failing = |i: u64| script(i, vec![(-1, vec![]), (1, vec![7])], 0);
    assert_eq!(
        read_archive_checked(2, 2, failing).unwrap_err(),
        "zip_fread failed for entry 0"
    );
    assert_eq!(*log.borrow(), [0, 1, 0, 0]);
    let stuck = |i: u64| script(i, vec![end()], -1);
    assert_eq!(
        read_archive_checked(2, 2, stuck).unwrap_err(),
        "zip_fclose failed for entry 0"
    );
    assert_eq!(read_archive_checked(0, 0, empty).unwrap().bytes, 0);
    assert_eq!(log.borrow().len(), 5);
    assert_eq!(entry_verdict(3, true, true, 0), Ok(()));
    assert_eq!(entry_verdict(3, true, false, -1).unwrap_err(), "zip_fread failed for entry 3");
}
