//! Workloads and measurements of the benchmark runner.

use crate::archive::same_bytes;
use crate::clock::{read_from_clock, unix_now};
use crate::le::{le64, push_le64};
use crate::text::{append_decimal, append_hex, decimal, hex};
use vstd::prelude::*;
use vstd::string::*;
use vstd::utf8::*;

verus! {

/// The FNV-1a checksum of nothing.
pub const FNV_START: u64 = 14_695_981_039_346_656_037;
/// The FNV prime.
pub const FNV_PRIME: u64 = 1_099_511_628_211;

/// The FNV-1a checksum of a text that goes on with `byte`.
pub open spec fn fnv_byte(sum: u64, byte: u8) -> u64 {
    (sum ^ byte as u64).wrapping_mul(FNV_PRIME)
}

/// The FNV-1a checksum of a text that goes on with `bytes`.
pub open spec fn fnv_from(sum: u64, bytes: Seq<u8>) -> u64
    decreases bytes.len(),
{
    if bytes.len() == 0 {
        sum
    } else {
        fnv_byte(fnv_from(sum, bytes.drop_last()), bytes.last())
    }
}

/// The FNV-1a checksum of a text that goes on with `bytes`.
pub fn fnv_update(sum: u64, bytes: &[u8]) -> (r: u64)
    ensures
        r == fnv_from(sum, bytes@),
{
    let mut r: u64 = sum;
    let mut i: usize = 0;
    assert(bytes@.take(0) =~= Seq::empty());
    while i < bytes.len()
        invariant
            i <= bytes@.len(),
            r == fnv_from(sum, bytes@.take(i as int)),
        decreases bytes.len() - i,
    {
        r = (r ^ bytes[i] as u64).wrapping_mul(FNV_PRIME);
        assert(bytes@.take(i + 1).drop_last() =~= bytes@.take(i as int));
        i += 1;
    }
    assert(bytes@.take(bytes@.len() as int) =~= bytes@);
    r
}

/// A checksum can be taken in parts.
pub proof fn lemma_fnv_append(sum: u64, a: Seq<u8>, b: Seq<u8>)
    ensures
        fnv_from(sum, a + b) == fnv_from(fnv_from(sum, a), b),
    decreases b.len(),
{
    if b.len() == 0 {
        assert(a + b =~= a);
    } else {
        lemma_fnv_append(sum, a, b.drop_last());
        assert((a + b).drop_last() =~= a + b.drop_last());
    }
}

/// What has been read so far: how many bytes, and their checksum.
#[derive(Clone, Copy, Debug, PartialEq, Eq, Structural)]
pub struct Tally {
    pub bytes: u64,
    pub checksum: u64,
}

impl Tally {
    /// Nothing has been read.
    pub fn new() -> (r: Tally)
        ensures
            r == (Tally { bytes: 0, checksum: FNV_START }),
    {
        Tally { bytes: 0, checksum: FNV_START }
    }

    /// Takes up what was read.
    pub fn absorb(&mut self, chunk: &[u8])
        ensures
            *final(self) == (Tally {
                bytes: old(self).bytes.wrapping_add(chunk@.len() as u64),
                checksum: fnv_from(old(self).checksum, chunk@),
            }),
    {
        self.bytes = self.bytes.wrapping_add(chunk.len() as u64);
        self.checksum = fnv_update(self.checksum, chunk);
    }
}

/// Whether two texts are equal.
pub fn same_text(a: &str, b: &str) -> (r: bool)
    ensures
        r == (a@ == b@),
{
    proof {
        encode_utf8_decode_utf8(a@);
        encode_utf8_decode_utf8(b@);
    }
    same_bytes(a.as_bytes(), b.as_bytes())
}

/// The value of decimal digits: none if there are no digits or other bytes.
pub open spec fn digits_value(digits: Seq<u8>) -> Option<nat>
    decreases digits.len(),
{
    if digits.len() == 0 {
        None
    } else {
        let d = digits.last();
        let before = digits.drop_last();
        if !(48 <= d <= 57) {
            None
        } else if before.len() == 0 {
            Some((d - 48) as nat)
        } else {
            match digits_value(before) {
                Some(v) => Some(v * 10 + (d - 48) as nat),
                None => None,
            }
        }
    }
}

/// The digits of a number: a plus sign may stand before them.
pub open spec fn number_digits(text: Seq<u8>) -> Seq<u8> {
    if text.len() > 0 && text[0] == 43 {
        text.skip(1)
    } else {
        text
    }
}

/// The number that a text stands for, where it stands for one that fits.
pub open spec fn parsed_usize(text: Seq<u8>) -> Option<usize> {
    match digits_value(number_digits(text)) {
        Some(v) => if v <= usize::MAX {
            Some(v as usize)
        } else {
            None
        },
        None => None,
    }
}

proof fn lemma_digits_grow(digits: Seq<u8>, k: int)
    requires
        0 < k <= digits.len(),
    ensures
        digits_value(digits.take(k)) is None ==> digits_value(digits) is None,
        digits_value(digits) matches Some(v) ==> digits_value(digits.take(k)) is Some
            && digits_value(digits.take(k))->0 <= v,
    decreases digits.len() - k,
{
    if k < digits.len() {
        lemma_digits_grow(digits, k + 1);
        assert(digits.take(k + 1).drop_last() =~= digits.take(k));
    } else {
        assert(digits.take(k) =~= digits);
    }
}

/// The number that a text stands for, where it stands for one that fits.
pub fn parse_usize(text: &str) -> (r: Option<usize>)
    ensures
        r == parsed_usize(encode_utf8(text@)),
{
    let bytes = text.as_bytes();
    let start: usize = if bytes.len() > 0 && bytes[0] == 43 { 1 } else { 0 };
    let ghost digits = number_digits(bytes@);
    assert(digits =~= bytes@.skip(start as int));
    if start == bytes.len() {
        return None;
    }
    let mut value: usize = 0;
    let mut i: usize = start;
    while i < bytes.len()
        invariant
            start <= i <= bytes@.len(),
            start < bytes@.len(),
            digits == bytes@.skip(start as int),
            digits == number_digits(bytes@),
            bytes@ == encode_utf8(text@),
            i == start ==> value == 0,
            i > start ==> digits_value(digits.take(i - start)) == Some(value as nat),
        decreases bytes.len() - i,
    {
        let b: u8 = bytes[i];
        proof {
            let k = i - start + 1;
            assert(digits.take(k).drop_last() =~= digits.take(k - 1));
            assert(digits.take(k).last() == b);
            lemma_digits_grow(digits, k);
        }
        if b < 48 || b > 57 {
            return None;
        }
        let d: usize = (b - 48) as usize;
        match value.checked_mul(10) {
            None => {
                return None;
            },
            Some(shifted) => match shifted.checked_add(d) {
                None => {
                    return None;
                },
                Some(v) => {
                    value = v;
                },
            },
        }
        i += 1;
    }
    assert(digits.take(bytes@.len() - start) =~= digits);
    Some(value)
}

/// The value that follows the first `option` among the arguments from `from` on.
pub open spec fn option_text(args: Seq<String>, option: Seq<char>, from: int) -> Option<Seq<char>>
    decreases args.len() - from,
{
    if from < 0 || from + 1 >= args.len() {
        None
    } else if args[from]@ == option {
        Some(args[from + 1]@)
    } else {
        option_text(args, option, from + 1)
    }
}

/// The number that follows the first `option` among the arguments, or `default`
/// where there is none.
pub fn option_value(args: &[String], option: &str, default: usize) -> (r: usize)
    ensures
        r == (match option_text(args@, option@, 0) {
            Some(t) => match parsed_usize(encode_utf8(t)) {
                Some(v) => v,
                None => default,
            },
            None => default,
        }),
{
    let mut i: usize = 0;
    while i < args.len() && args.len() - i > 1
        invariant
            i <= args@.len(),
            option_text(args@, option@, 0) == option_text(args@, option@, i as int),
        decreases args.len() - i,
    {
        if same_text(args[i].as_str(), option) {
            return match parse_usize(args[i + 1].as_str()) {
                Some(v) => v,
                None => default,
            };
        }
        i += 1;
    }
    default
}

/// The phrase that a patterned file repeats.
pub open spec fn phrase(seed: u64) -> Seq<char> {
    "kzip benchmark pattern "@ + hex(seed as nat, 16) + " "@
}

proof fn lemma_hex_ascii(n: nat, width: nat)
    ensures
        is_ascii_chars(hex(n, width)),
        hex(n, width).len() == width,
    decreases width,
{
    if width > 0 {
        lemma_hex_ascii(n / 16, (width - 1) as nat);
    }
}

/// The phrase is 40 bytes long.
pub proof fn lemma_phrase(seed: u64)
    ensures
        encode_utf8(phrase(seed)).len() == 40,
{
    lemma_hex_ascii(seed as nat, 16);
    reveal_strlit("kzip benchmark pattern ");
    reveal_strlit(" ");
    assert(is_ascii_chars(phrase(seed)));
    is_ascii_chars_encode_utf8(phrase(seed));
}

/// The content of a patterned file: the phrase, over and over.
pub open spec fn pattern(size: nat, seed: u64) -> Seq<u8> {
    let p = encode_utf8(phrase(seed));
    Seq::new(size, |i: int| p[i % p.len() as int])
}

/// Makes the content of a patterned file.
pub fn pattern_bytes(size: usize, seed: u64) -> (r: Vec<u8>)
    ensures
        r@ == pattern(size as nat, seed),
{
    let mut text = String::from_str("kzip benchmark pattern ");
    append_hex(&mut text, seed, 16);
    text.append(" ");
    assert(text@ =~= phrase(seed));
    proof {
        lemma_phrase(seed);
    }
    let p = text.as_str().as_bytes_vec();
    let mut out: Vec<u8> = Vec::new();
    let mut k: usize = 0;
    while out.len() < size
        invariant
            out@.len() <= size,
            p@ == encode_utf8(phrase(seed)),
            p@.len() == 40,
            k < 40,
            k == out@.len() as int % 40,
            forall|i: int| 0 <= i < out@.len() ==> out@[i] == p@[i % 40],
        decreases size - out.len(),
    {
        out.push(p[k]);
        k = if k == 39 { 0 } else { k + 1 };
    }
    assert(out@ =~= pattern(size as nat, seed));
    out
}

/// One step of the random generator.
pub open spec fn xorshift(state: u64) -> u64 {
    let a = state ^ (state << 13);
    let b = a ^ (a >> 7);
    b ^ (b << 17)
}

/// The state of the random generator behind `n` steps.
pub open spec fn xorshift_after(state: u64, n: nat) -> u64
    decreases n,
{
    if n == 0 {
        state
    } else {
        xorshift(xorshift_after(state, (n - 1) as nat))
    }
}

/// One step of the random generator.
pub fn next_random(state: u64) -> (r: u64)
    ensures
        r == xorshift(state),
{
    let a: u64 = state ^ (state << 13);
    let b: u64 = a ^ (a >> 7);
    b ^ (b << 17)
}

/// The content of a random file: the states of the generator, one behind the
/// other.
pub open spec fn random(size: nat, state: u64) -> Seq<u8> {
    Seq::new(size, |i: int| le64(xorshift_after(state, (i / 8 + 1) as nat))[i % 8])
}

/// Makes the content of a random file.
pub fn random_bytes(size: usize, state: u64) -> (r: Vec<u8>)
    ensures
        r@ == random(size as nat, state),
{
    let mut out: Vec<u8> = Vec::new();
    let mut current: u64 = state;
    let ghost mut n: nat = 0;
    while out.len() < size
        invariant
            out@.len() == 8 * n,
            out@.len() < size + 8,
            current == xorshift_after(state, n),
            forall|i: int|
                0 <= i < out@.len() ==> out@[i] == le64(
                    xorshift_after(state, (i / 8 + 1) as nat),
                )[i % 8],
        decreases size + 8 - out.len(),
    {
        let ghost before = out@;
        current = next_random(current);
        push_le64(&mut out, current);
        proof {
            n = n + 1;
            assert forall|i: int| 0 <= i < out@.len() implies out@[i] == le64(
                xorshift_after(state, (i / 8 + 1) as nat),
            )[i % 8] by {
                if i >= before.len() {
                    assert(i / 8 + 1 == n);
                }
            }
        }
    }
    out.truncate(size);
    assert(out@ =~= random(size as nat, state));
    out
}

/// A set of files to be archived.
#[derive(Debug)]
pub struct Workload {
    pub name: &'static str,
    pub files: Vec<Vec<u8>>,
    pub total_bytes: u64,
}

/// What a workload holds.
pub ghost struct WorkloadView {
    pub name: Seq<char>,
    pub files: Seq<Seq<u8>>,
    pub total_bytes: u64,
}

impl View for Workload {
    type V = WorkloadView;

    open spec fn view(&self) -> WorkloadView {
        WorkloadView {
            name: self.name@,
            files: self.files@.map_values(|f: Vec<u8>| f@),
            total_bytes: self.total_bytes,
        }
    }
}

/// The content of a file of a workload: patterned, or every second one random.
pub open spec fn workload_file(index: nat, size: usize, seed: u64, compressible: bool) -> Seq<u8> {
    let s = seed.wrapping_add(index as u64);
    if compressible || index % 2 == 0 {
        pattern(size as nat, s)
    } else {
        random(size as nat, s)
    }
}

/// The sum of sizes.
pub open spec fn sum(sizes: Seq<usize>) -> nat
    decreases sizes.len(),
{
    if sizes.len() == 0 {
        0
    } else {
        sum(sizes.drop_last()) + sizes.last() as nat
    }
}

/// A workload of files of the given sizes.
pub open spec fn workload_of(
    name: Seq<char>,
    sizes: Seq<usize>,
    seed: u64,
    compressible: bool,
) -> WorkloadView {
    WorkloadView {
        name,
        files: Seq::new(
            sizes.len(),
            |i: int| workload_file(i as nat, sizes[i], seed, compressible),
        ),
        total_bytes: sum(sizes) as u64,
    }
}

proof fn lemma_sum_grows(sizes: Seq<usize>, k: int)
    requires
        0 <= k <= sizes.len(),
    ensures
        sum(sizes.take(k)) <= sum(sizes),
    decreases sizes.len() - k,
{
    if k < sizes.len() {
        lemma_sum_grows(sizes, k + 1);
        assert(sizes.take(k + 1).drop_last() =~= sizes.take(k));
    } else {
        assert(sizes.take(k) =~= sizes);
    }
}

/// Makes a workload of files of the given sizes.
pub fn workload(name: &'static str, sizes: &[usize], seed: u64, compressible: bool) -> (r:
    Workload)
    requires
        sum(sizes@) <= u64::MAX,
    ensures
        r@ == workload_of(name@, sizes@, seed, compressible),
{
    let mut files: Vec<Vec<u8>> = Vec::new();
    let mut total: u64 = 0;
    let mut i: usize = 0;
    assert(sizes@.take(0) =~= Seq::empty());
    while i < sizes.len()
        invariant
            i <= sizes@.len(),
            files@.len() == i,
            sum(sizes@) <= u64::MAX,
            total == sum(sizes@.take(i as int)),
            forall|j: int|
                0 <= j < i ==> (#[trigger] files@[j])@ == workload_file(
                    j as nat,
                    sizes@[j],
                    seed,
                    compressible,
                ),
        decreases sizes.len() - i,
    {
        let s: u64 = seed.wrapping_add(i as u64);
        let file = if compressible || i % 2 == 0 {
            pattern_bytes(sizes[i], s)
        } else {
            random_bytes(sizes[i], s)
        };
        proof {
            assert(sizes@.take(i + 1).drop_last() =~= sizes@.take(i as int));
            lemma_sum_grows(sizes@, i + 1);
        }
        total = total + file.len() as u64;
        files.push(file);
        i += 1;
    }
    assert(sizes@.take(sizes@.len() as int) =~= sizes@);
    let r = Workload { name, files, total_bytes: total };
    assert(r@.files =~= workload_of(name@, sizes@, seed, compressible).files);
    r
}

/// `n` times the same size.
pub open spec fn repeated(size: usize, n: nat) -> Seq<usize> {
    Seq::new(n, |i: int| size)
}

proof fn lemma_sum_repeated(size: usize, n: nat)
    ensures
        sum(repeated(size, n)) == size * n,
    decreases n,
{
    if n > 0 {
        lemma_sum_repeated(size, (n - 1) as nat);
        assert(repeated(size, n).drop_last() =~= repeated(size, (n - 1) as nat));
        assert(size as int * n as int == size as int * (n - 1) + size as int) by (nonlinear_arith);
    } else {
        assert(size as int * n as int == 0) by (nonlinear_arith)
            requires
                n == 0,
        ;
    }
}

/// A workload of `count` files of one size.
fn uniform(name: &'static str, size: usize, count: usize, seed: u64, compressible: bool) -> (r:
    Workload)
    requires
        size * count <= u64::MAX,
    ensures
        r@ == workload_of(name@, repeated(size, count as nat), seed, compressible),
{
    let sizes: Vec<usize> = vec![size; count];
    assert(sizes@ =~= repeated(size, count as nat));
    proof {
        lemma_sum_repeated(size, count as nat);
    }
    workload(name, sizes.as_slice(), seed, compressible)
}

/// The workloads of the benchmark.
pub fn workloads() -> (r: Vec<Workload>)
    ensures
        r@.len() == 5,
        r@[0]@ == workload_of("tiny-mixed"@, repeated(4096, 64), 0x1234_5678, true),
        r@[1]@ == workload_of("many-small"@, repeated(4096, 1024), 0x2345_6789, true),
        r@[2]@ == workload_of("text-8m"@, repeated(1048576, 8), 0x3456_789A, true),
        r@[3]@ == workload_of("mixed-8m"@, repeated(1048576, 8), 0x4567_89AB, false),
        r@[4]@ == workload_of("single-16m"@, repeated(16777216, 1), 0x5678_9ABC, true),
{
    let mut r: Vec<Workload> = Vec::new();
    r.push(uniform("tiny-mixed", 4096, 64, 0x1234_5678, true));
    r.push(uniform("many-small", 4096, 1024, 0x2345_6789, true));
    r.push(uniform("text-8m", 1048576, 8, 0x3456_789A, true));
    r.push(uniform("mixed-8m", 1048576, 8, 0x4567_89AB, false));
    r.push(uniform("single-16m", 16777216, 1, 0x5678_9ABC, true));
    r
}

/// The bytes of the files of a workload, one behind the other.
pub open spec fn all_bytes(files: Seq<Seq<u8>>) -> Seq<u8>
    decreases files.len(),
{
    if files.len() == 0 {
        Seq::empty()
    } else {
        all_bytes(files.drop_last()) + files.last()
    }
}

/// The checksum of the files of a workload, one behind the other.
pub fn workload_checksum(workload: &Workload) -> (r: u64)
    ensures
        r == fnv_from(FNV_START, all_bytes(workload@.files)),
{
    let ghost view = workload@.files;
    let mut sum: u64 = FNV_START;
    let mut i: usize = 0;
    assert(view.take(0) =~= Seq::empty());
    while i < workload.files.len()
        invariant
            i <= workload.files@.len(),
            view == workload@.files,
            sum == fnv_from(FNV_START, all_bytes(view.take(i as int))),
        decreases workload.files.len() - i,
    {
        sum = fnv_update(sum, workload.files[i].as_slice());
        proof {
            lemma_fnv_append(FNV_START, all_bytes(view.take(i as int)), view[i as int]);
            assert(view.take(i + 1).drop_last() =~= view.take(i as int));
        }
        i += 1;
    }
    assert(view.take(view.len() as int) =~= view);
    sum
}

/// Whether all checksums are the same.
pub open spec fn all_same(sums: Seq<u64>) -> bool {
    forall|i: int, j: int| 0 <= i < sums.len() && 0 <= j < sums.len() ==> sums[i] == sums[j]
}

/// Whether all checksums are the same.
pub fn stable(sums: &Vec<u64>) -> (r: bool)
    ensures
        r == all_same(sums@),
{
    let mut i: usize = 1;
    while i < sums.len()
        invariant
            1 <= i,
            forall|j: int| 0 <= j < i && j < sums@.len() ==> #[trigger] sums@[j] == sums@[0],
        decreases sums.len() - i,
    {
        if sums[i - 1] != sums[i] {
            assert(sums@[i - 1] != sums@[i as int]);
            return false;
        }
        i += 1;
    }
    true
}

/// `std::time::Instant`, a point of a steady clock.
#[verifier::external_type_specification]
#[verifier::external_body]
pub struct ExInstant(std::time::Instant);

/// Calls `std::time::Instant::now`. Nothing is claimed of the result.
#[verifier::external_body]
fn start_timer() -> std::time::Instant {
    std::time::Instant::now()
}

/// Calls `std::time::Instant::elapsed`. Nothing is claimed of the result.
#[verifier::external_body]
fn elapsed(start: std::time::Instant) -> std::time::Duration {
    start.elapsed()
}

/// Calls `std::time::Duration::as_nanos`. Nothing is claimed of the result.
#[verifier::external_body]
fn nanoseconds(d: std::time::Duration) -> u128 {
    d.as_nanos()
}

/// What measuring comes to, where the samples took `durations` and the operation
/// gave `sums` for them: the durations, or an error if the sums are not all the
/// same.
pub open spec fn measured(
    r: Result<Vec<u128>, String>,
    durations: Seq<u128>,
    sums: Seq<u64>,
) -> bool {
    if all_same(sums) {
        r matches Ok(d) && d@ == durations
    } else {
        r matches Err(e) && e@ == "checksum changed between benchmark samples"@
    }
}

/// Ends measuring.
pub fn finish_measure(durations: Vec<u128>, sums: &Vec<u64>) -> (r: Result<Vec<u128>, String>)
    requires
        durations@.len() == sums@.len(),
    ensures
        measured(r, durations@, sums@),
{
    if !stable(sums) {
        return Err(String::from_str("checksum changed between benchmark samples"));
    }
    Ok(durations)
}

/// Something that is done again and again. Every run takes it and gives it back,
/// so that a contract can say which run came behind which.
pub trait Operation: Sized {
    /// Does it once. Gives a checksum, or an error.
    fn run(self) -> (Self, Result<u64, String>);
}

/// Whether the timer has given this number of nanoseconds for some start.
pub closed spec fn timed(ns: u128) -> bool {
    exists|start: std::time::Instant, d: std::time::Duration|
        {
            &&& call_ensures(start_timer, (), start)
            &&& #[trigger] call_ensures(elapsed, (start,), d)
            &&& call_ensures(nanoseconds, (d,), ns)
        }
}

/// Does an operation once, between the start of a timer and its end, and gives
/// how many nanoseconds that took, and what the operation gave.
pub fn timed_run<O: Operation>(operation: O) -> (r: (O, u128, Result<u64, String>))
    ensures
        call_ensures(O::run, (operation,), (r.0, r.2)),
        timed(r.1),
{
    let start = start_timer();
    let (after, answer) = operation.run();
    let took = elapsed(start);
    let ns: u128 = nanoseconds(took);
    assert(timed(ns));
    (after, ns, answer)
}

/// Whether the operation was done in the state at a place, with success, and
/// has given the next.
pub open spec fn ran_well<O: Operation>(states: Seq<O>, j: int) -> bool {
    exists|n: u64| #[trigger]
        call_ensures(O::run, (states[j],), (states[j + 1], Ok::<u64, String>(n)))
}

/// Whether the operation was done once in each of these states but the last, in
/// turn and with success.
pub open spec fn warmed_up<O: Operation>(states: Seq<O>) -> bool {
    &&& states.len() > 0
    &&& forall|j: int| 0 <= j < states.len() - 1 ==> #[trigger] ran_well(states, j)
}

/// Whether the operation was done and timed in the state at a place, took the
/// duration at it and gave the sum at it, and the next state.
pub open spec fn sampled_at<O: Operation>(
    states: Seq<O>,
    durations: Seq<u128>,
    sums: Seq<u64>,
    j: int,
) -> bool {
    call_ensures(
        timed_run::<O>,
        (states[j],),
        (states[j + 1], durations[j], Ok::<u64, String>(sums[j])),
    )
}

/// Whether the operation was done and timed once in each of these states but the
/// last, in turn and with success, and these are the durations and sums.
pub open spec fn sampled<O: Operation>(
    states: Seq<O>,
    durations: Seq<u128>,
    sums: Seq<u64>,
) -> bool {
    &&& states.len() == sums.len() + 1
    &&& durations.len() == sums.len()
    &&& forall|j: int| 0 <= j < sums.len() ==> #[trigger] sampled_at(states, durations, sums, j)
}

/// What taking `samples` samples comes to: the error of the first run that
/// fails, behind which there is none, or else what the durations and sums of
/// all runs come to. `after` is the operation then.
pub open spec fn samples_gave<O: Operation>(
    operation: O,
    after: O,
    samples: nat,
    r: Result<Vec<u128>, String>,
) -> bool {
    exists|states: Seq<O>, durations: Seq<u128>, sums: Seq<u64>|
        {
            &&& #[trigger] sampled(states, durations, sums)
            &&& states[0] == operation
            &&& if sums.len() == samples {
                states.last() == after && measured(r, durations, sums)
            } else {
                &&& sums.len() < samples
                &&& r is Err
                &&& exists|ns: u128| #[trigger]
                    call_ensures(
                        timed_run::<O>,
                        (states.last(),),
                        (after, ns, Err::<u64, String>(r->Err_0)),
                    )
            }
        }
}

/// What measuring comes to: the error of the first of `warmups` runs that fails,
/// behind which there is none, or else what `samples` runs more come to.
/// `after` is the operation then.
pub open spec fn measure_gave<O: Operation>(
    operation: O,
    after: O,
    samples: nat,
    warmups: nat,
    r: Result<Vec<u128>, String>,
) -> bool {
    exists|warm: Seq<O>|
        {
            &&& #[trigger] warmed_up(warm)
            &&& warm[0] == operation
            &&& if warm.len() == warmups + 1 {
                samples_gave(warm.last(), after, samples, r)
            } else {
                &&& warm.len() <= warmups
                &&& r is Err
                &&& call_ensures(O::run, (warm.last(),), (after, Err::<u64, String>(r->Err_0)))
            }
        }
}

/// Runs an operation `warmups` times, then `samples` times more, and gives how
/// many nanoseconds each of the latter took. The operation has to succeed every
/// time, and to give the same checksum for every sample.
pub fn measure<O: Operation>(samples: usize, warmups: usize, operation: O) -> (r: (
    O,
    Result<Vec<u128>, String>,
))
    ensures
        measure_gave(operation, r.0, samples as nat, warmups as nat, r.1),
{
    let mut op = operation;
    let ghost mut warm: Seq<O> = seq![operation];
    let mut w: usize = 0;
    while w < warmups
        invariant
            w <= warmups,
            warm.len() == w + 1,
            warm[0] == operation,
            warm.last() == op,
            warmed_up(warm),
        decreases warmups - w,
    {
        let (next, answer) = op.run();
        match answer {
            Ok(n) => {
                proof {
                    let more = warm.push(next);
                    assert forall|j: int| 0 <= j < more.len() - 1 implies #[trigger] ran_well(
                        more,
                        j,
                    ) by {
                        if j < warm.len() - 1 {
                            assert(ran_well(warm, j));
                            assert(more[j] == warm[j] && more[j + 1] == warm[j + 1]);
                        } else {
                            assert(more[j] == op && more[j + 1] == next);
                            assert(call_ensures(
                                O::run,
                                (more[j],),
                                (more[j + 1], Ok::<u64, String>(n)),
                            ));
                        }
                    }
                    warm = more;
                }
            },
            Err(e) => {
                return (next, Err(e));
            },
        }
        op = next;
        w += 1;
    }
    let ghost first = op;
    let ghost mut states: Seq<O> = seq![op];
    let mut durations: Vec<u128> = Vec::new();
    let mut sums: Vec<u64> = Vec::new();
    let mut s: usize = 0;
    while s < samples
        invariant
            s <= samples,
            warm.len() == warmups + 1,
            warm[0] == operation,
            warm.last() == first,
            warmed_up(warm),
            sums@.len() == s,
            states[0] == first,
            states.last() == op,
            sampled(states, durations@, sums@),
        decreases samples - s,
    {
        let (next, ns, answer) = timed_run(op);
        match answer {
            Ok(sum) => {
                let ghost before = (durations@, sums@);
                durations.push(ns);
                sums.push(sum);
                proof {
                    let more = states.push(next);
                    assert forall|j: int| 0 <= j < sums@.len() implies #[trigger] sampled_at(
                        more,
                        durations@,
                        sums@,
                        j,
                    ) by {
                        if j < s {
                            assert(sampled_at(states, before.0, before.1, j));
                        }
                    }
                    states = more;
                }
            },
            Err(e) => {
                assert(samples_gave(first, next, samples as nat, Err::<Vec<u128>, String>(e)));
                return (next, Err(e));
            },
        }
        op = next;
        s += 1;
    }
    let ghost taken = durations@;
    let r = finish_measure(durations, &sums);
    assert(sampled(states, taken, sums@));
    assert(samples_gave(first, op, samples as nat, r));
    (op, r)
}

proof fn lemma_warm_states<O: Operation>(
    states: Seq<O>,
    k: int,
    keeps: spec_fn(O) -> bool,
    sum: u64,
)
    requires
        warmed_up(states),
        0 <= k < states.len(),
        keeps(states[0]),
        forall|o: O, a: (O, Result<u64, String>)| #[trigger]
            call_ensures(O::run, (o,), a) && keeps(o) ==> keeps(a.0) && a.1 == Ok::<u64, String>(
                sum,
            ),
    ensures
        keeps(states[k]),
    decreases k,
{
    if k > 0 {
        lemma_warm_states(states, k - 1, keeps, sum);
        assert(ran_well(states, k - 1));
    }
}

proof fn lemma_sample_states<O: Operation>(
    states: Seq<O>,
    durations: Seq<u128>,
    sums: Seq<u64>,
    k: int,
    keeps: spec_fn(O) -> bool,
    sum: u64,
)
    requires
        sampled(states, durations, sums),
        0 <= k < states.len(),
        keeps(states[0]),
        forall|o: O, a: (O, Result<u64, String>)| #[trigger]
            call_ensures(O::run, (o,), a) && keeps(o) ==> keeps(a.0) && a.1 == Ok::<u64, String>(
                sum,
            ),
    ensures
        keeps(states[k]),
        k > 0 ==> sums[k - 1] == sum,
    decreases k,
{
    if k > 0 {
        lemma_sample_states(states, durations, sums, k - 1, keeps, sum);
        assert(sampled_at(states, durations, sums, k - 1));
    }
}

/// Measuring that succeeds gives one duration for each sample.
pub proof fn lemma_measured_len<O: Operation>(
    operation: O,
    after: O,
    samples: nat,
    warmups: nat,
    r: Result<Vec<u128>, String>,
)
    requires
        measure_gave(operation, after, samples, warmups, r),
        r is Ok,
    ensures
        r->Ok_0@.len() == samples,
{
}

/// An operation that succeeds with one and the same sum in every state that it
/// comes to is measured with success: measuring gives a duration for each
/// sample.
pub proof fn law_steady_operations_are_measured<O: Operation>(
    operation: O,
    after: O,
    samples: nat,
    warmups: nat,
    r: Result<Vec<u128>, String>,
    keeps: spec_fn(O) -> bool,
    sum: u64,
)
    requires
        measure_gave(operation, after, samples, warmups, r),
        keeps(operation),
        forall|o: O, a: (O, Result<u64, String>)| #[trigger]
            call_ensures(O::run, (o,), a) && keeps(o) ==> keeps(a.0) && a.1 == Ok::<u64, String>(
                sum,
            ),
    ensures
        r is Ok,
        r->Ok_0@.len() == samples,
{
    let warm = choose|warm: Seq<O>|
        {
            &&& #[trigger] warmed_up(warm)
            &&& warm[0] == operation
            &&& if warm.len() == warmups + 1 {
                samples_gave(warm.last(), after, samples, r)
            } else {
                &&& warm.len() <= warmups
                &&& r is Err
                &&& call_ensures(O::run, (warm.last(),), (after, Err::<u64, String>(r->Err_0)))
            }
        };
    lemma_warm_states(warm, warm.len() - 1, keeps, sum);
    let (states, durations, sums) = choose|
        states: Seq<O>,
        durations: Seq<u128>,
        sums: Seq<u64>,
    |
        {
            &&& #[trigger] sampled(states, durations, sums)
            &&& states[0] == warm.last()
            &&& if sums.len() == samples {
                states.last() == after && measured(r, durations, sums)
            } else {
                &&& sums.len() < samples
                &&& r is Err
                &&& exists|ns: u128| #[trigger]
                    call_ensures(
                        timed_run::<O>,
                        (states.last(),),
                        (after, ns, Err::<u64, String>(r->Err_0)),
                    )
            }
        };
    lemma_sample_states(states, durations, sums, states.len() - 1, keeps, sum);
    assert forall|i: int, j: int|
        0 <= i < sums.len() && 0 <= j < sums.len() implies sums[i] == sums[j] by {
        lemma_sample_states(states, durations, sums, i + 1, keeps, sum);
        lemma_sample_states(states, durations, sums, j + 1, keeps, sum);
    }
}

/// Whether a list is in ascending order.
pub open spec fn ascending(s: Seq<u128>) -> bool {
    forall|i: int, j: int| 0 <= i <= j < s.len() ==> s[i] <= s[j]
}

/// The samples in ascending order.
pub fn sorted_samples(samples: &Vec<u128>) -> (r: Vec<u128>)
    ensures
        ascending(r@),
        r@.to_multiset() == samples@.to_multiset(),
        r@.len() == samples@.len(),
{
    let mut out: Vec<u128> = Vec::new();
    let mut i: usize = 0;
    assert(samples@.take(0) =~= Seq::empty());
    while i < samples.len()
        invariant
            i <= samples@.len(),
            out@.len() == i,
            ascending(out@),
            out@.to_multiset() == samples@.take(i as int).to_multiset(),
        decreases samples.len() - i,
    {
        let x: u128 = samples[i];
        let mut k: usize = 0;
        while k < out.len() && out[k] <= x
            invariant
                k <= out@.len(),
                forall|j: int| 0 <= j < k ==> out@[j] <= x,
            decreases out.len() - k,
        {
            k += 1;
        }
        let ghost before = out@;
        out.insert(k, x);
        proof {
            assert forall|a: int, b: int| 0 <= a <= b < out@.len() implies out@[a] <= out@[b] by {
                if a < k && b > k {
                    assert(before[a] <= before[b - 1]);
                } else if a > k {
                    assert(before[a - 1] <= before[b - 1]);
                } else if a == k && b > k {
                    assert(before[k as int] <= before[b - 1]);
                }
            }
            assert(samples@.take(i + 1) =~= samples@.take(i as int).push(x));
            vstd::seq_lib::to_multiset_insert(before, k as int, x);
            vstd::seq_lib::to_multiset_build(samples@.take(i as int), x);
            assert(out@.to_multiset() =~= samples@.take(i + 1).to_multiset());
        }
        i += 1;
    }
    assert(samples@.take(samples@.len() as int) =~= samples@);
    out
}

/// The median of samples in ascending order, the upper one of two.
pub fn median(sorted: &Vec<u128>) -> (r: u128)
    requires
        sorted@.len() > 0,
    ensures
        r == sorted@[sorted@.len() as int / 2],
{
    sorted[sorted.len() / 2]
}

/// The text of a time in Unix seconds, where it is known.
pub open spec fn timestamp(now: Option<u64>) -> Seq<char> {
    match now {
        Some(s) => decimal(s as nat),
        None => "unknown"@,
    }
}

/// The text of a time in Unix seconds, where it is known.
pub fn timestamp_text(now: Option<u64>) -> (r: String)
    ensures
        r@ == timestamp(now),
{
    match now {
        Some(s) => {
            let mut text = String::new();
            append_decimal(&mut text, s);
            assert(text@ =~= decimal(s as nat));
            text
        },
        None => String::from_str("unknown"),
    }
}

/// The current time in Unix seconds, as text.
pub fn chrono_like_timestamp() -> (r: String)
    ensures
        exists|now: Option<u64>| read_from_clock(now) && r@ == #[trigger] timestamp(now),
{
    let now = unix_now();
    timestamp_text(now)
}

/// A text with zeros before it, up to `width` characters.
pub open spec fn zero_padded(text: Seq<char>, width: nat) -> Seq<char>
    decreases width - text.len(),
{
    if text.len() < width {
        zero_padded(seq!['0'] + text, width)
    } else {
        text
    }
}

/// The name of an entry of a benchmark archive.
pub open spec fn entry_name(index: u64) -> Seq<char> {
    "f-"@ + zero_padded(decimal(index as nat), 5) + ".bin"@
}

/// The name of an entry of a benchmark archive.
pub fn make_entry_name(index: u64) -> (r: String)
    ensures
        r@ == entry_name(index),
{
    let mut text = String::from_str("f-");
    proof {
        reveal_strlit("0");
        assert("0"@ =~= seq!['0']);
    }
    proof {
        lemma_padding(index as nat);
    }
    if index < 10000 {
        text.append("0");
    }
    if index < 1000 {
        text.append("0");
    }
    if index < 100 {
        text.append("0");
    }
    if index < 10 {
        text.append("0");
    }
    append_decimal(&mut text, index);
    text.append(".bin");
    assert(text@ =~= entry_name(index));
    text
}

proof fn lemma_padding(n: nat)
    ensures
        zero_padded(decimal(n), 5) == (if n < 10 {
            seq!['0', '0', '0', '0'] + decimal(n)
        } else if n < 100 {
            seq!['0', '0', '0'] + decimal(n)
        } else if n < 1000 {
            seq!['0', '0'] + decimal(n)
        } else if n < 10000 {
            seq!['0'] + decimal(n)
        } else {
            decimal(n)
        }),
{
    let d = decimal(n);
    reveal_with_fuel(decimal, 6);
    reveal_with_fuel(zero_padded, 6);
    lemma_decimal_len(n);
    let z = seq!['0'];
    assert(z + (z + (z + (z + d))) =~= seq!['0', '0', '0', '0'] + d);
    assert(z + (z + (z + d)) =~= seq!['0', '0', '0'] + d);
    assert(z + (z + d) =~= seq!['0', '0'] + d);
}

proof fn lemma_decimal_len(n: nat)
    ensures
        n >= 10000 ==> decimal(n).len() >= 5,
    decreases n,
{
    reveal_with_fuel(decimal, 5);
}

/// A message with two numbers in it.
pub open spec fn message(before: Seq<char>, a: u64, between: Seq<char>, b: u64) -> Seq<char> {
    before + decimal(a as nat) + between + decimal(b as nat)
}

/// A message with two numbers in it.
fn make_message(before: &str, a: u64, between: &str, b: u64) -> (r: String)
    ensures
        r@ == message(before@, a, between@, b),
{
    let mut text = String::from_str(before);
    append_decimal(&mut text, a);
    text.append(between);
    append_decimal(&mut text, b);
    text
}

/// The message for a written archive of which something else was read than was
/// wanted.
pub open spec fn written_fault(read: Tally, wanted: Tally) -> Seq<char> {
    if read.bytes != wanted.bytes {
        message("written archive contains "@, read.bytes, " bytes, expected "@, wanted.bytes)
    } else {
        message("written archive checksum "@, read.checksum, ", expected "@, wanted.checksum)
    }
}

/// The message for an archive of which something else was read than was wanted.
pub open spec fn read_fault(read: Tally, wanted: Tally) -> Seq<char> {
    if read.bytes != wanted.bytes {
        "read byte count mismatch: "@ + decimal(read.bytes as nat)
    } else {
        message("read checksum "@, read.checksum, ", expected "@, wanted.checksum)
    }
}

/// Checks what was read of an archive that was written for a workload of
/// `total` bytes. Gives the checksum.
pub fn check_written(read: Tally, total: u64, expected: u64) -> (r: Result<u64, String>)
    ensures
        ({
            let wanted = Tally { bytes: total, checksum: expected };
            if read != wanted {
                r matches Err(e) && e@ == written_fault(read, wanted)
            } else {
                r == Ok::<u64, String>(expected)
            }
        }),
{
    if read.bytes != total {
        return Err(
            make_message("written archive contains ", read.bytes, " bytes, expected ", total),
        );
    }
    if read.checksum != expected {
        return Err(
            make_message("written archive checksum ", read.checksum, ", expected ", expected),
        );
    }
    Ok(read.checksum)
}

/// Checks what was read of an archive for a workload of `total` bytes. Gives
/// the checksum.
pub fn check_read(read: Tally, total: u64, expected: u64) -> (r: Result<u64, String>)
    ensures
        ({
            let wanted = Tally { bytes: total, checksum: expected };
            if read != wanted {
                r matches Err(e) && e@ == read_fault(read, wanted)
            } else {
                r == Ok::<u64, String>(expected)
            }
        }),
{
    if read.bytes != total {
        let mut text = String::from_str("read byte count mismatch: ");
        append_decimal(&mut text, read.bytes);
        return Err(text);
    }
    if read.checksum != expected {
        return Err(make_message("read checksum ", read.checksum, ", expected ", expected));
    }
    Ok(read.checksum)
}

/// Whether an archive has as many entries as the workload that it was written
/// for has files. A workload without files fits every archive.
pub fn count_fits(count: i64, files: usize) -> (r: bool)
    ensures
        r == (files == 0 || count == files as i64),
{
    files == 0 || count == files as i64
}

} // verus!
