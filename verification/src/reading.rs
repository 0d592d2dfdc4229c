//! Reading an open entry to its end.
//!
//! An open entry is a value that every call takes and gives back, so that a
//! contract can say which call came behind which: a state of the entry, the
//! answer in that state, the state behind it.

use crate::bench::{all_bytes, fnv_from, lemma_fnv_append, Tally, FNV_START};
use vstd::prelude::*;
use vstd::slice::slice_subrange;

verus! {

/// An open entry.
pub trait OpenEntry: Sized {
    /// Reads on: gives the number of bytes, with a buffer that starts with them;
    /// 0 at the end; or a negative number.
    fn read_on(self) -> (Self, (i64, Vec<u8>));

    /// Closes the entry. 0 stands for success.
    fn close(self) -> i32;
}

/// How reading an entry goes on.
#[derive(Clone, Copy, Debug, PartialEq, Eq, Structural)]
pub enum ReadProgress {
    /// There may be more.
    More,
    /// The end was reached.
    End,
    /// Reading has failed.
    Failed,
}

/// What the answer of a read says of how reading goes on.
pub open spec fn progress_of(nread: i64) -> ReadProgress {
    if nread > 0 {
        ReadProgress::More
    } else if nread == 0 {
        ReadProgress::End
    } else {
        ReadProgress::Failed
    }
}

impl Tally {
    /// Takes up the answer of a read into `buf`: the number of bytes, 0 at the
    /// end, or a negative number.
    pub fn take_up(&mut self, nread: i64, buf: &[u8]) -> (r: ReadProgress)
        requires
            nread <= buf@.len(),
        ensures
            r == progress_of(nread),
            *final(self) == (if nread > 0 {
                Tally {
                    bytes: old(self).bytes.wrapping_add(nread as u64),
                    checksum: fnv_from(old(self).checksum, buf@.take(nread as int)),
                }
            } else {
                *old(self)
            }),
    {
        if nread > 0 {
            assert(nread <= buf.len());
            let chunk = slice_subrange(buf, 0, nread as usize);
            assert(chunk@ =~= buf@.take(nread as int));
            self.absorb(chunk);
            ReadProgress::More
        } else if nread == 0 {
            ReadProgress::End
        } else {
            ReadProgress::Failed
        }
    }
}

/// What reading an entry to its end came to.
#[derive(Clone, Copy, Debug, PartialEq, Eq, Structural)]
pub struct EntryRead {
    /// What was read.
    pub tally: Tally,
    /// Whether the end was reached.
    pub ok: bool,
}

/// Whether an answer brings bytes.
pub open spec fn brings(answer: (i64, Vec<u8>)) -> bool {
    0 < answer.0 <= answer.1@.len()
}

/// Whether an answer ends reading, where `had` bytes were read before and no
/// more than `limit` can be taken: it is not positive, or more than the buffer
/// holds or than can be taken.
pub open spec fn ends(answer: (i64, Vec<u8>), had: nat, limit: nat) -> bool {
    !brings(answer) || had + answer.0 > limit
}

/// The bytes that each of some answers brings.
pub open spec fn chunks(answers: Seq<(i64, Vec<u8>)>) -> Seq<Seq<u8>> {
    Seq::new(answers.len(), |j: int| answers[j].1@.take(answers[j].0 as int))
}

/// The bytes that some answers bring, one behind the other.
pub open spec fn content(answers: Seq<(i64, Vec<u8>)>) -> Seq<u8> {
    all_bytes(chunks(answers))
}

/// Whether reading on in the state at a place has given the answer at it, and
/// the next state.
pub open spec fn answered<E: OpenEntry>(
    states: Seq<E>,
    answers: Seq<(i64, Vec<u8>)>,
    j: int,
) -> bool {
    call_ensures(E::read_on, (states[j],), (states[j + 1], answers[j]))
}

/// Whether an entry was read on through these states, with these answers.
pub open spec fn in_turn<E: OpenEntry>(states: Seq<E>, answers: Seq<(i64, Vec<u8>)>) -> bool {
    &&& states.len() == answers.len() + 1
    &&& forall|j: int| 0 <= j < answers.len() ==> #[trigger] answered(states, answers, j)
}

/// Whether an entry was read on until an answer has ended it, where `had` bytes
/// were read before and no more than `limit` can be taken: all answers but the
/// last bring bytes, and the last ends reading. `after` is the entry then.
pub open spec fn read_through<E: OpenEntry>(
    entry: E,
    after: E,
    answers: Seq<(i64, Vec<u8>)>,
    had: nat,
    limit: nat,
) -> bool {
    let had_then = had + content(answers.drop_last()).len();
    &&& answers.len() > 0
    &&& exists|states: Seq<E>| #[trigger]
        in_turn(states, answers) && states[0] == entry && states.last() == after
    &&& forall|j: int| 0 <= j < answers.len() - 1 ==> brings(#[trigger] answers[j])
    &&& had_then <= limit
    &&& ends(answers.last(), had_then, limit)
}

/// What reading comes to, if these answers were given, the last of which has
/// ended it.
pub open spec fn outcome(start: Tally, answers: Seq<(i64, Vec<u8>)>) -> EntryRead {
    let read = content(answers.drop_last());
    EntryRead {
        tally: Tally {
            bytes: (start.bytes + read.len()) as u64,
            checksum: fnv_from(start.checksum, read),
        },
        ok: answers.last().0 == 0,
    }
}

proof fn lemma_content_push(answers: Seq<(i64, Vec<u8>)>, a: (i64, Vec<u8>))
    ensures
        answers.push(a).drop_last() == answers,
        content(answers.push(a)) == content(answers) + a.1@.take(a.0 as int),
{
    let more = answers.push(a);
    assert(more.drop_last() =~= answers);
    assert(chunks(more).drop_last() =~= chunks(answers));
}

proof fn lemma_in_turn<E: OpenEntry>(
    states: Seq<E>,
    answers: Seq<(i64, Vec<u8>)>,
    next: E,
    a: (i64, Vec<u8>),
)
    requires
        in_turn(states, answers),
        call_ensures(E::read_on, (states.last(),), (next, a)),
    ensures
        in_turn(states.push(next), answers.push(a)),
{
    let s = states.push(next);
    let b = answers.push(a);
    assert forall|j: int| 0 <= j < b.len() implies #[trigger] answered(s, b, j) by {
        if j < answers.len() {
            assert(answered(states, answers, j));
        }
    }
}

/// Reads an entry to its end and takes up what is read. More bytes than the
/// buffer holds, or than can be counted, count as a failure.
pub fn read_to_end<E: OpenEntry>(start: Tally, entry: E) -> (r: (E, EntryRead))
    ensures
        exists|answers: Seq<(i64, Vec<u8>)>|
            {
                &&& #[trigger] read_through(
                    entry,
                    r.0,
                    answers,
                    start.bytes as nat,
                    u64::MAX as nat,
                )
                &&& r.1 == outcome(start, answers)
            },
{
    let mut tally = start;
    let mut open = entry;
    let ghost mut states: Seq<E> = seq![entry];
    let ghost mut answers: Seq<(i64, Vec<u8>)> = Seq::empty();
    assert(content(answers) =~= Seq::empty());
    loop
        invariant
            in_turn(states, answers),
            states[0] == entry,
            states.last() == open,
            forall|j: int| 0 <= j < answers.len() ==> brings(#[trigger] answers[j]),
            tally.checksum == fnv_from(start.checksum, content(answers)),
            tally.bytes == start.bytes + content(answers).len(),
        decreases u64::MAX - tally.bytes,
    {
        let (next, answer) = open.read_on();
        proof {
            lemma_in_turn(states, answers, next, answer);
            lemma_content_push(answers, answer);
            lemma_fnv_append(start.checksum, content(answers), answer.1@.take(answer.0 as int));
            states = states.push(next);
            answers = answers.push(answer);
        }
        let n: i64 = answer.0;
        if n <= 0 || n as u64 > answer.1.len() as u64 || n as u64 > u64::MAX - tally.bytes {
            let r = (next, EntryRead { tally, ok: n == 0 });
            assert(r.1 == outcome(start, answers));
            assert(read_through(entry, r.0, answers, start.bytes as nat, u64::MAX as nat));
            return r;
        }
        let _ = tally.take_up(n, answer.1.as_slice());
        open = next;
    }
}

/// Reads an entry to its end and gives its content. There is none where an
/// answer fails, or is more than memory can hold.
pub fn read_content<E: OpenEntry>(entry: E) -> (r: (E, Option<Vec<u8>>))
    ensures
        exists|answers: Seq<(i64, Vec<u8>)>|
            {
                &&& #[trigger] read_through(entry, r.0, answers, 0, isize::MAX as nat)
                &&& match r.1 {
                    Some(v) => answers.last().0 == 0 && v@ == content(answers.drop_last()),
                    None => answers.last().0 != 0,
                }
            },
{
    let mut out: Vec<u8> = Vec::new();
    let mut open = entry;
    let ghost mut states: Seq<E> = seq![entry];
    let ghost mut answers: Seq<(i64, Vec<u8>)> = Seq::empty();
    assert(content(answers) =~= Seq::empty());
    loop
        invariant
            in_turn(states, answers),
            states[0] == entry,
            states.last() == open,
            forall|j: int| 0 <= j < answers.len() ==> brings(#[trigger] answers[j]),
            out@.len() <= isize::MAX,
            out@ == content(answers),
        decreases isize::MAX - out@.len(),
    {
        let (next, answer) = open.read_on();
        let ghost had = out@;
        proof {
            lemma_in_turn(states, answers, next, answer);
            lemma_content_push(answers, answer);
            states = states.push(next);
            answers = answers.push(answer);
        }
        let n: i64 = answer.0;
        if n <= 0 || n as u64 > answer.1.len() as u64 || n as u64 > isize::MAX as u64
            - out.len() as u64 {
            let r = (next, if n == 0 { Some(out) } else { None });
            assert(read_through(entry, r.0, answers, 0, isize::MAX as nat));
            return r;
        }
        out.extend_from_slice(slice_subrange(answer.1.as_slice(), 0, n as usize));
        assert(out@ =~= had + answer.1@.take(n as int));
        open = next;
    }
}

/// Whether an entry was closed.
pub open spec fn closed<E: OpenEntry>(entry: E) -> bool {
    exists|c: i32| #[trigger] call_ensures(E::close, (entry,), c)
}

/// Whether an opened entry was read on until these answers have ended it, and
/// then closed, and reading it came to this.
pub open spec fn read_and_closed<E: OpenEntry>(
    entry: E,
    answers: Seq<(i64, Vec<u8>)>,
    r: EntryRead,
) -> bool {
    &&& exists|after: E| #[trigger]
        read_through(entry, after, answers, 0, u64::MAX as nat) && closed(after)
    &&& r == outcome(Tally { bytes: 0, checksum: FNV_START }, answers)
}

/// Whether this is what reading an entry came to: nothing if it was not opened.
pub open spec fn entry_read<E: OpenEntry>(opened: Option<E>, r: Option<EntryRead>) -> bool {
    match opened {
        Some(entry) => r is Some && exists|answers: Seq<(i64, Vec<u8>)>| #[trigger]
            read_and_closed(entry, answers, r->0),
        None => r is None,
    }
}

/// Reads an entry that was opened to its end and closes it.
pub fn read_entry<E: OpenEntry>(opened: Option<E>) -> (r: Option<EntryRead>)
    ensures
        entry_read(opened, r),
{
    match opened {
        Some(entry) => {
            let (after, seen) = read_to_end(Tally::new(), entry);
            let c: i32 = after.close();
            assert(call_ensures(E::close, (after,), c));
            let ghost answers = choose|answers: Seq<(i64, Vec<u8>)>|
                {
                    &&& #[trigger] read_through(entry, after, answers, 0, u64::MAX as nat)
                    &&& seen == outcome(Tally { bytes: 0, checksum: FNV_START }, answers)
                };
            let r = Some(seen);
            assert(read_and_closed(entry, answers, r->0));
            r
        },
        None => None,
    }
}

} // verus!
