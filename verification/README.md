# kzip

A libzip-compatible interface to ZIP archives whose logic is verified with
[Verus](https://github.com/verus-lang/verus).

## Layout

- `src/` is the library, with contracts that Verus proves. It holds the sources
  (byte streams that take commands, with write sessions and
  layers), open archives with the edits that wait for them, what closing an
  archive writes, error objects and messages, the archives of the corpus, and the checks
  and statistics of the comparison and benchmark tools. `src/laws.rs` and
  `src/edit_laws.rs` state what holds across functions, such as that what is
  written in a session and committed is what is read.
- `tests/` runs the library on concrete values.
- `app/` is the outer layer in ordinary Rust: the C ABI with its pointers
  and callbacks, the engine that decodes and encodes archives,
  files, shared libraries, JSON and the command lines.

## What is trusted

Calls into other crates and into the standard library's clock are made by small
functions marked `external_body`, whose contracts Verus believes:

- `checksum::crc32_update` (crc32fast) continues a CRC-32 by the IEEE polynomial;
- `corpus::deflate` (flate2) gives the same stream for the same bytes;
- `harness::sha256` (sha2) gives the same digest for the same bytes;
- `edit::is_utf8` (`core::str::from_utf8`) tells valid UTF-8;
- `clock` and `bench` read the system clock and the timer, of which nothing is
  claimed beyond what their documentation says.

The archive engine is handed in. Where one call answers a question, it is a
function, and contracts say what it is asked and what becomes of the answer.
Where calls follow one another, as in reading an entry, writing an archive or
measuring, it is a trait without a promise, whose methods take a value and give
it back: contracts say which call came behind which, from the first to the last.
