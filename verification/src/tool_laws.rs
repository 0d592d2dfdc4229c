//! What holds of reading entries to their end, of records and checks, and of the
//! contents that are generated.
//!
//! A law here speaks of a call: of what was handed in, and of what came back.

use crate::bench::{
    all_bytes, check_read, check_written, count_fits, fnv_from, fnv_update, lemma_phrase,
    next_random, pattern_bytes, random_bytes, sum, workload, xorshift, xorshift_after, Tally,
    Workload,
};
use crate::bench_archive::entry_verdict;
use crate::corpus::{text, times};
use crate::harness::{
    check_archive, passed, record_entry, record_read, records_read, ArchiveCheck, EntryCheck,
    EntryRecord, NamedStat, ReadRecord, StatRecord,
};
use crate::le::le64;
use crate::number_laws::{lemma_fingerprint, number_of};
use crate::reading::{
    answered, brings, chunks, closed, content, in_turn, outcome, read_and_closed, read_content,
    read_entry, read_through, read_to_end, EntryRead, OpenEntry,
};
use crate::text::hex;
use vstd::prelude::*;
use vstd::utf8::encode_utf8;

verus! {

/// The bytes that the first answers bring, one behind the other.
pub open spec fn brought(answers: Seq<(i64, Vec<u8>)>, n: nat) -> Seq<u8> {
    Seq::new(n, |j: int| answers[j].1@.take(answers[j].0 as int)).flatten()
}

/// The bytes of files one behind the other are those of the files in one row.
pub proof fn law_flatten(s: Seq<Seq<u8>>)
    ensures
        all_bytes(s) == s.flatten(),
    decreases s.len(),
{
    if s.len() == 0 {
        assert(s.flatten() =~= Seq::empty());
    } else {
        law_flatten(s.drop_last());
        s.drop_last().lemma_flatten_push(s.last());
        assert(s.drop_last().push(s.last()) =~= s);
    }
}

/// Whether an entry was read on through these states, each answer from one to the
/// next; every answer but the last brings bytes, as many as it says.
pub open spec fn read_in_turn<E: OpenEntry>(
    states: Seq<E>,
    answers: Seq<(i64, Vec<u8>)>,
) -> bool {
    &&& answers.len() > 0
    &&& states.len() == answers.len() + 1
    &&& forall|j: int|
        0 <= j < answers.len() ==> call_ensures(
            E::read_on,
            (states[j],),
            (states[j + 1], #[trigger] answers[j]),
        )
    &&& forall|j: int|
        0 <= j < answers.len() - 1 ==> 0 < (#[trigger] answers[j]).0 <= answers[j].1@.len()
}

/// An entry that was read through was read on in turn.
pub proof fn lemma_read_in_turn<E: OpenEntry>(
    entry: E,
    after: E,
    answers: Seq<(i64, Vec<u8>)>,
    had: nat,
    limit: nat,
)
    requires
        read_through(entry, after, answers, had, limit),
    ensures
        exists|states: Seq<E>| #[trigger]
            read_in_turn(states, answers) && states[0] == entry && states.last() == after,
        content(answers.drop_last()) == brought(answers, (answers.len() - 1) as nat),
{
    let states = choose|states: Seq<E>| #[trigger]
        in_turn(states, answers) && states[0] == entry && states.last() == after;
    assert forall|j: int| 0 <= j < answers.len() implies call_ensures(
        E::read_on,
        (states[j],),
        (states[j + 1], #[trigger] answers[j]),
    ) by {
        assert(answered(states, answers, j));
    }
    assert forall|j: int| 0 <= j < answers.len() - 1 implies 0 < (#[trigger] answers[j]).0
        <= answers[j].1@.len() by {
        assert(brings(answers[j]));
    }
    assert(read_in_turn(states, answers));
    let n = (answers.len() - 1) as nat;
    assert(chunks(answers.drop_last()) =~= Seq::new(
        n,
        |j: int| answers[j].1@.take(answers[j].0 as int),
    ));
    law_flatten(chunks(answers.drop_last()));
}

/// Reading an entry to its end takes up all its bytes, in order, up to the answer that
/// ends it: it has succeeded exactly if that is 0, and failed if that is negative, or
/// says more than the buffer holds or can be counted.
pub proof fn law_entry_is_read_to_its_end<E: OpenEntry>(
    start: Tally,
    entry: E,
    r: (E, EntryRead),
)
    requires
        call_ensures(read_to_end::<E>, (start, entry), r),
    ensures
        exists|states: Seq<E>, answers: Seq<(i64, Vec<u8>)>|
            {
                let bytes = brought(answers, (answers.len() - 1) as nat);
                let last = answers.last();
                &&& #[trigger] read_in_turn(states, answers)
                &&& states[0] == entry
                &&& states.last() == r.0
                &&& r.1.tally.bytes == start.bytes + bytes.len()
                &&& r.1.tally.checksum == fnv_from(start.checksum, bytes)
                &&& r.1.ok <==> last.0 == 0
                &&& last.0 <= 0 || last.0 > last.1@.len() || r.1.tally.bytes + last.0 > u64::MAX
            },
{
    let answers = choose|answers: Seq<(i64, Vec<u8>)>|
        {
            &&& #[trigger] read_through(
                entry,
                r.0,
                answers,
                start.bytes as nat,
                u64::MAX as nat,
            )
            &&& r.1 == outcome(start, answers)
        };
    lemma_read_in_turn(entry, r.0, answers, start.bytes as nat, u64::MAX as nat);
}

/// The content of an entry is all its bytes, in order, up to an answer of 0; there is
/// none where another answer ends reading.
pub proof fn law_content_is_read<E: OpenEntry>(entry: E, r: (E, Option<Vec<u8>>))
    requires
        call_ensures(read_content::<E>, (entry,), r),
    ensures
        exists|states: Seq<E>, answers: Seq<(i64, Vec<u8>)>|
            {
                let bytes = brought(answers, (answers.len() - 1) as nat);
                let last = answers.last();
                &&& #[trigger] read_in_turn(states, answers)
                &&& states[0] == entry
                &&& states.last() == r.0
                &&& r.1 is Some <==> last.0 == 0
                &&& r.1 matches Some(v) ==> v@ == bytes
                &&& last.0 <= 0 || last.0 > last.1@.len() || bytes.len() + last.0 > isize::MAX
            },
{
    let answers = choose|answers: Seq<(i64, Vec<u8>)>|
        {
            &&& #[trigger] read_through(entry, r.0, answers, 0, isize::MAX as nat)
            &&& match r.1 {
                Some(v) => answers.last().0 == 0 && v@ == content(answers.drop_last()),
                None => answers.last().0 != 0,
            }
        };
    lemma_read_in_turn(entry, r.0, answers, 0, isize::MAX as nat);
}

/// An entry that was opened is read to its end from the start and then closed; one
/// that was not is not read.
pub proof fn law_opened_entry_is_read<E: OpenEntry>(opened: Option<E>, r: Option<EntryRead>)
    requires
        call_ensures(read_entry::<E>, (opened,), r),
    ensures
        r is Some <==> opened is Some,
        opened matches Some(entry) ==> exists|
            states: Seq<E>,
            answers: Seq<(i64, Vec<u8>)>,
            c: i32,
        |
            {
                let bytes = brought(answers, (answers.len() - 1) as nat);
                &&& #[trigger] read_in_turn(states, answers)
                &&& states[0] == entry
                &&& #[trigger] call_ensures(E::close, (states.last(),), c)
                &&& r->0.tally.bytes == bytes.len()
                &&& r->0.tally.checksum == fnv_from(14_695_981_039_346_656_037, bytes)
                &&& r->0.ok <==> answers.last().0 == 0
            },
{
    if let Some(entry) = opened {
        let answers = choose|answers: Seq<(i64, Vec<u8>)>| #[trigger]
            read_and_closed(entry, answers, r->0);
        let after = choose|after: E| #[trigger]
            read_through(entry, after, answers, 0, u64::MAX as nat) && closed(
                after,
            );
        lemma_read_in_turn(entry, after, answers, 0, u64::MAX as nat);
        let states = choose|states: Seq<E>| #[trigger]
            read_in_turn(states, answers) && states[0] == entry && states.last() == after;
        let c = choose|c: i32| #[trigger] call_ensures(E::close, (after,), c);
        assert(call_ensures(E::close, (states.last(),), c));
    }
}

/// Whether a record says what came of reading: how it went, how many bytes there were,
/// and their checksum as sixteen hexadecimal digits; or only a word, where nothing was
/// read.
pub open spec fn says(r: ReadRecord, read: Option<EntryRead>, absent: Seq<char>) -> bool {
    match read {
        Some(e) => {
            &&& e.ok ==> r.status@ == "ok"@
            &&& !e.ok ==> r.status@ == "read_failed"@
            &&& r.len == e.tally.bytes
            &&& r.fnv is Some
            &&& r.fnv->0@.len() == 16
            &&& number_of(r.fnv->0@, 16) == e.tally.checksum
        },
        None => r.status@ == absent && r.len == 0 && r.fnv is None,
    }
}

/// A record of reading says what came of it.
pub proof fn lemma_says(r: ReadRecord, read: Option<EntryRead>, absent: Seq<char>)
    requires
        records_read(r, read, absent),
    ensures
        says(r, read, absent),
{
    if let Some(e) = read {
        lemma_fingerprint(e.tally.checksum);
    }
}

/// What came of reading an entry is what is recorded of it.
pub proof fn law_read_is_recorded(read: Option<EntryRead>, absent: &str, r: ReadRecord)
    requires
        call_ensures(record_read, (read, absent), r),
    ensures
        says(r, read, absent@),
{
    lemma_says(r, read, absent@);
}

/// What was found out about an entry is what is recorded of it. Without a name it was
/// neither read nor looked up by one, and of a look-up that failed only that is
/// recorded.
pub proof fn law_entry_is_recorded(
    index: u64,
    name: Option<String>,
    by_name: Option<EntryRead>,
    by_index: Option<EntryRead>,
    stat: StatRecord,
    named: NamedStat,
    r: EntryRecord,
)
    requires
        call_ensures(record_entry, (index, name, by_name, by_index, stat, named), r),
    ensures
        r.index == index,
        r.name is Some <==> name is Some,
        name matches Some(n) ==> r.name->0@ == n@,
        name is Some ==> says(r.fopen, by_name, "failed"@),
        name is None ==> says(r.fopen, None, "no_name"@),
        says(r.fopen_index, by_index, "failed"@),
        r.stat == stat,
        name is None ==> r.stat_by_name.ret == -1,
        name is Some ==> r.stat_by_name.ret == named.ret,
        name is Some && named.ret == 0 ==> r.stat_by_name == named,
        name is None || named.ret != 0 ==> r.stat_by_name.size == 0 && r.stat_by_name.comp_method
            == 0,
{
    lemma_says(
        r.fopen,
        if name is Some { by_name } else { None },
        if name is Some { "failed"@ } else { "no_name"@ },
    );
    lemma_says(r.fopen_index, by_index, "failed"@);
}

/// An archive matches exactly if each of its entries has its bytes and its size, and
/// its name where that counts.
pub proof fn law_archive_is_checked(
    archive: String,
    entries: Vec<EntryCheck>,
    names_count: bool,
    r: ArchiveCheck,
)
    requires
        call_ensures(check_archive, (archive, entries, names_count), r),
    ensures
        r.archive@ == archive@,
        r.num_entries == entries@.len(),
        r.entries@ == entries@,
        r.all_match <==> forall|i: int|
            0 <= i < entries@.len() ==> (#[trigger] entries@[i]).bytes_match
                && entries@[i].size_match && (names_count ==> entries@[i].name_match),
{
    let all = forall|i: int|
        0 <= i < entries@.len() ==> (#[trigger] entries@[i]).bytes_match && entries@[i].size_match
            && (names_count ==> entries@[i].name_match);
    if all {
        assert forall|i: int| 0 <= i < entries@.len() implies passed(
            #[trigger] entries@[i],
            names_count,
        ) by {}
    }
    if r.all_match {
        assert forall|i: int| 0 <= i < entries@.len() implies (#[trigger] entries@[i]).bytes_match
            && entries@[i].size_match && (names_count ==> entries@[i].name_match) by {
            assert(passed(entries@[i], names_count));
        }
    }
}

/// What was read of an archive is right exactly if it is as many bytes as were wanted
/// and has their checksum, which is then given.
pub proof fn law_tally_is_checked(
    read: Tally,
    total: u64,
    expected: u64,
    a: Result<u64, String>,
    b: Result<u64, String>,
)
    requires
        call_ensures(check_written, (read, total, expected), a),
        call_ensures(check_read, (read, total, expected), b),
    ensures
        a is Ok <==> read.bytes == total && read.checksum == expected,
        b is Ok <==> read.bytes == total && read.checksum == expected,
        a matches Ok(sum) ==> sum == expected,
        b matches Ok(sum) ==> sum == expected,
{
}

/// A count of entries fits a workload exactly if it is the number of its files; any
/// fits one without files.
pub proof fn law_count_is_checked(count: i64, files: usize, r: bool)
    requires
        files <= i64::MAX,
        call_ensures(count_fits, (count, files), r),
    ensures
        r <==> files == 0 || count == files,
{
}

/// An entry is fine exactly if it was opened, read to its end and closed.
pub proof fn law_entry_is_judged(
    index: u64,
    opened: bool,
    ok: bool,
    closed: i32,
    r: Result<(), String>,
)
    requires
        call_ensures(entry_verdict, (index, opened, ok, closed), r),
    ensures
        r is Ok <==> opened && ok && closed == 0,
{
}

/// A checksum goes on byte by byte: each is taken in by exclusive or, and the whole
/// multiplied by the prime.
pub proof fn law_checksum_goes_on(
    sum: u64,
    bytes: &[u8],
    more: &[u8],
    a: u64,
    b: u64,
    byte: u8,
)
    requires
        more@ == bytes@.push(byte),
        call_ensures(fnv_update, (sum, bytes), a),
        call_ensures(fnv_update, (sum, more), b),
    ensures
        b == (((a ^ byte as u64) as int) * 1_099_511_628_211) % 0x1_0000_0000_0000_0000,
        bytes@.len() == 0 ==> a == sum,
{
    assert(more@.drop_last() =~= bytes@);
}

proof fn lemma_times(p: Seq<u8>, n: nat)
    ensures
        times(p, n).len() == p.len() * n,
        forall|i: int|
            0 <= i < p.len() * n ==> #[trigger] times(p, n)[i] == p[i % p.len() as int],
    decreases n,
{
    if n > 0 {
        let k = (n - 1) as nat;
        lemma_times(p, k);
        let l = p.len() as int;
        assert(l * n as int == l * k as int + l) by (nonlinear_arith)
            requires
                n == k + 1,
        ;
        assert forall|i: int| 0 <= i < p.len() * n implies #[trigger] times(p, n)[i] == p[i
            % l] by {
            if i < l * k as int {
                assert(times(p, n)[i] == times(p, k)[i]);
            } else {
                let j = i - l * k as int;
                assert(times(p, n)[i] == p[j]);
                assert(i % l == j) by {
                    vstd::arithmetic::div_mod::lemma_fundamental_div_mod_converse(
                        i,
                        l,
                        k as int,
                        j,
                    );
                    assert(k as int * l == l * k as int) by (nonlinear_arith);
                }
            }
        }
    } else {
        assert(p.len() * n == 0) by (nonlinear_arith)
            requires
                n == 0,
        ;
    }
}

/// A text that is repeated is as many times as long, and comes again and again.
pub proof fn law_text_is_repeated(pattern: &str, repeat: usize, r: Vec<u8>)
    requires
        encode_utf8(pattern@).len() * repeat <= isize::MAX,
        call_ensures(text, (pattern, repeat), r),
    ensures
        r@.len() == encode_utf8(pattern@).len() * repeat,
        forall|i: int|
            0 <= i < r@.len() ==> #[trigger] r@[i] == encode_utf8(pattern@)[i % encode_utf8(
                pattern@,
            ).len() as int],
{
    lemma_times(encode_utf8(pattern@), repeat as nat);
}

/// The files of a workload have the sizes that were asked for, which add up to its
/// total; each comes from the seed and its own place, patterned, or random for every
/// second file of one that is not to be compressed well.
pub proof fn law_workload_is_made(
    name: &'static str,
    sizes: &[usize],
    seed: u64,
    compressible: bool,
    w: Workload,
    i: int,
    own: u64,
    patterned: Vec<u8>,
    random: Vec<u8>,
)
    requires
        sum(sizes@) <= u64::MAX,
        call_ensures(workload, (name, sizes, seed, compressible), w),
        0 <= i < sizes@.len(),
        own == (seed + i) % 0x1_0000_0000_0000_0000,
        call_ensures(pattern_bytes, (sizes@[i], own), patterned),
        call_ensures(random_bytes, (sizes@[i], own), random),
        i <= u64::MAX,
    ensures
        w.name@ == name@,
        w.files@.len() == sizes@.len(),
        w.files@[i]@.len() == sizes@[i],
        w.files@[i]@ == (if compressible || i % 2 == 0 { patterned@ } else { random@ }),
        w.total_bytes == sizes@.fold_left(0int, |a: int, s: usize| a + s),
{
    lemma_sum(sizes@);
    assert(w@.files.len() == sizes@.len());
    assert(w.files@.len() == w@.files.len());
    assert(w@.files[i] == w.files@[i]@);
    assert(seed.wrapping_add(i as u64) == own);
}

proof fn lemma_sum(sizes: Seq<usize>)
    ensures
        sum(sizes) == sizes.fold_left(0int, |a: int, s: usize| a + s),
    decreases sizes.len(),
{
    reveal(Seq::fold_left);
    if sizes.len() > 0 {
        lemma_sum(sizes.drop_last());
    }
}

/// Random content is made of the states of a generator, eight bytes each, where each
/// state follows from the one before: so the content from the next state on is the
/// content from here without its first eight bytes.
pub proof fn law_random_content(size: usize, state: u64, r: Vec<u8>, next: u64, rest: Vec<u8>)
    requires
        size >= 8,
        call_ensures(next_random, (state,), next),
        call_ensures(random_bytes, (size, state), r),
        call_ensures(random_bytes, ((size - 8) as usize, next), rest),
    ensures
        r@.len() == size,
        r@.take(8) == le64(next),
        r@.skip(8) == rest@,
{
    assert(xorshift_after(state, 1) == xorshift(xorshift_after(state, 0)));
    assert(xorshift_after(state, 1) == next);
    assert forall|i: int| 0 <= i < size - 8 implies r@.skip(8)[i] == rest@[i] by {
        lemma_later(state, (i / 8 + 1) as nat);
        assert((i + 8) / 8 + 1 == i / 8 + 2);
        assert((i + 8) % 8 == i % 8);
    }
    assert(r@.skip(8) =~= rest@);
    assert forall|i: int| 0 <= i < 8 implies r@[i] == le64(next)[i] by {
        assert(i / 8 + 1 == 1);
    }
    assert(r@.take(8) =~= le64(next));
}

proof fn lemma_later(state: u64, n: nat)
    ensures
        xorshift_after(state, n + 1) == xorshift_after(xorshift(state), n),
    decreases n,
{
    if n == 0 {
        assert(xorshift_after(state, 1) == xorshift(xorshift_after(state, 0)));
    } else {
        lemma_later(state, (n - 1) as nat);
    }
}

/// Patterned content begins with a phrase that names its seed, and repeats it every
/// forty bytes.
pub proof fn law_patterned_content(size: usize, seed: u64, r: Vec<u8>)
    requires
        call_ensures(pattern_bytes, (size, seed), r),
    ensures
        r@.len() == size,
        forall|i: int| 0 <= i < size - 40 ==> #[trigger] r@[i] == r@[i + 40],
        exists|digits: Seq<char>|
            {
                &&& digits.len() == 16
                &&& #[trigger] number_of(digits, 16) == seed
                &&& forall|i: int|
                    0 <= i < size && i < 40 ==> #[trigger] r@[i] == encode_utf8(
                        "kzip benchmark pattern "@ + digits + " "@,
                    )[i]
            },
{
    lemma_phrase(seed);
    lemma_fingerprint(seed);
    let d = hex(seed as nat, 16);
    assert(number_of(d, 16) == seed);
    assert forall|i: int| 0 <= i < size - 40 implies #[trigger] r@[i] == r@[i + 40] by {
        assert((i + 40) % 40 == i % 40);
    }
}

} // verus!
