//! The archives of the verification corpus that are written through another
//! library.

use crate::bench::random;
use crate::consts::{ZIP_CM_DEFLATE, ZIP_CM_STORE};
use crate::corpus::{rand_bytes, text, times, ArchiveSpec, EntrySpec};
use crate::text::{append_decimal, decimal, digit_char, digit_str};
use vstd::prelude::*;
use vstd::string::*;
use vstd::utf8::{encode_scalar, encode_utf8};

verus! {

/// What an entry of a corpus archive is.
pub ghost struct EntryView {
    pub name: Seq<char>,
    pub data: Seq<u8>,
    pub method: i32,
    pub level: u32,
    pub mtime: Option<i64>,
    pub comment: Option<Seq<char>>,
}

/// What a corpus archive is.
pub ghost struct CorpusView {
    pub filename: Seq<char>,
    pub comment: Option<Seq<char>>,
    pub keep_empty: bool,
    pub entries: Seq<EntryView>,
}

/// What an optional text says.
pub open spec fn text_view(t: Option<String>) -> Option<Seq<char>> {
    match t {
        Some(c) => Some(c@),
        None => None,
    }
}

impl View for EntrySpec {
    type V = EntryView;

    open spec fn view(&self) -> EntryView {
        EntryView {
            name: self.name@,
            data: self.data@,
            method: self.method,
            level: self.level,
            mtime: self.mtime,
            comment: text_view(self.comment),
        }
    }
}

/// What a list of entries is.
pub open spec fn entry_views(entries: Seq<EntrySpec>) -> Seq<EntryView> {
    entries.map_values(|e: EntrySpec| e@)
}

impl View for ArchiveSpec {
    type V = CorpusView;

    open spec fn view(&self) -> CorpusView {
        CorpusView {
            filename: self.filename@,
            comment: text_view(self.comment),
            keep_empty: self.keep_empty,
            entries: entry_views(self.entries@),
        }
    }
}

/// What a list of archives is.
pub open spec fn archive_views(archives: Seq<ArchiveSpec>) -> Seq<CorpusView> {
    archives.map_values(|a: ArchiveSpec| a@)
}

/// A number with at least `width` digits.
pub open spec fn padded(n: nat, width: nat) -> Seq<char>
    decreases width,
{
    if width <= 1 {
        decimal(n)
    } else {
        padded(n / 10, (width - 1) as nat).push(digit_char((n % 10) as int))
    }
}

/// Appends a number with at least `width` digits.
pub fn append_padded(out: &mut String, n: u64, width: u32)
    ensures
        final(out)@ == old(out)@ + padded(n as nat, width as nat),
    decreases width,
{
    if width <= 1 {
        append_decimal(out, n);
    } else {
        append_padded(out, n / 10, width - 1);
        out.append(digit_str((n % 10) as u8));
        assert(out@ =~= old(out)@ + padded(n as nat, width as nat));
    }
}

/// The bytes of a text, `n` times over.
pub open spec fn corpus_bytes(pattern: Seq<char>, n: nat) -> Seq<u8> {
    times(encode_utf8(pattern), n)
}

proof fn lemma_encoded_len(chars: Seq<char>)
    ensures
        encode_utf8(chars).len() <= 4 * chars.len(),
    decreases chars.len(),
{
    if chars.len() > 0 {
        lemma_encoded_len(chars.drop_first());
        assert(encode_scalar(chars[0] as u32).len() <= 4);
    }
}

/// The bytes of a short text, a few times over.
fn corpus_text(pattern: &str, repeat: usize) -> (r: Vec<u8>)
    requires
        pattern@.len() <= 1000,
        repeat <= 1000,
    ensures
        r@ == corpus_bytes(pattern@, repeat as nat),
{
    proof {
        lemma_encoded_len(pattern@);
        let n = encode_utf8(pattern@).len();
        assert(n * repeat <= 4000 * 1000) by (nonlinear_arith)
            requires
                n <= 4000,
                repeat <= 1000,
        ;
    }
    text(pattern, repeat)
}

/// An entry without a time and a comment.
pub open spec fn plain_entry(name: Seq<char>, data: Seq<u8>, method: i32, level: u32) -> EntryView {
    EntryView { name, data, method, level, mtime: None, comment: None }
}

/// An entry without a time and a comment.
fn make_entry(name: &str, data: Vec<u8>, method: i32, level: u32) -> (r: EntrySpec)
    ensures
        r@ == plain_entry(name@, data@, method, level),
{
    EntrySpec { name: String::from_str(name), data, method, level, mtime: None, comment: None }
}

/// An archive without a comment, which is not kept where it is empty.
pub open spec fn plain_archive(filename: Seq<char>, entries: Seq<EntryView>) -> CorpusView {
    CorpusView { filename, comment: None, keep_empty: false, entries }
}

/// An archive without a comment, which is not kept where it is empty.
fn make_archive(filename: &str, entries: Vec<EntrySpec>) -> (r: ArchiveSpec)
    ensures
        r@ == plain_archive(filename@, entry_views(entries@)),
{
    ArchiveSpec { filename: String::from_str(filename), comment: None, keep_empty: false, entries }
}

/// The path through `n` directories, one below the other.
pub open spec fn deep_path(n: nat) -> Seq<char>
    decreases n,
{
    if n == 0 {
        Seq::empty()
    } else {
        deep_path((n - 1) as nat) + "level"@ + padded((n - 1) as nat, 2) + "/"@
    }
}

/// The name of a file below 24 directories.
fn deep_name() -> (r: String)
    ensures
        r@ == deep_path(24) + "leaf.txt"@,
{
    let mut path = String::new();
    let mut d: u64 = 0;
    while d < 24
        invariant
            d <= 24,
            path@ == deep_path(d as nat),
        decreases 24 - d,
    {
        path.append("level");
        append_padded(&mut path, d, 2);
        path.append("/");
        d += 1;
    }
    path.append("leaf.txt");
    path
}


/// Deflated entries with times and comments.
pub open spec fn basic_deflate() -> CorpusView {
    let entries: Seq<EntryView> = seq![
        EntryView {
            mtime: Some(1600000000i64),
            ..plain_entry(
                "hello.txt"@,
                corpus_bytes("hello verification deflate payload "@, 120),
                ZIP_CM_DEFLATE,
                6,
            )
        },
        EntryView {
            mtime: Some(1600000100i64),
            comment: Some("numbers file"@),
            ..plain_entry("numbers.bin"@, random(8192, 0x1111u64 | 1), ZIP_CM_DEFLATE, 6)
        },
        EntryView {
            mtime: Some(1600000200i64),
            ..plain_entry("empty.txt"@, Seq::empty(), ZIP_CM_DEFLATE, 6)
        },
    ];
    CorpusView {
        comment: Some("verification basic deflate archive"@),
        ..plain_archive("basic_deflate.zip"@, entries)
    }
}

/// Deflated entries with times and comments.
fn make_basic_deflate() -> (r: ArchiveSpec)
    ensures
        r@ == basic_deflate(),
{
    proof {
        reveal_strlit("hello verification deflate payload ");
    }
    let mut entries: Vec<EntrySpec> = Vec::new();
    let mut e = make_entry(
        "hello.txt",
        corpus_text("hello verification deflate payload ", 120),
        ZIP_CM_DEFLATE,
        6,
    );
    e.mtime = Some(1600000000);
    entries.push(e);
    let mut e = make_entry("numbers.bin", rand_bytes(0x1111, 8192), ZIP_CM_DEFLATE, 6);
    e.mtime = Some(1600000100);
    e.comment = Some(String::from_str("numbers file"));
    entries.push(e);
    let mut e = make_entry("empty.txt", Vec::new(), ZIP_CM_DEFLATE, 6);
    e.mtime = Some(1600000200);
    entries.push(e);
    assert(entry_views(entries@) =~= basic_deflate().entries);
    let mut a = make_archive("basic_deflate.zip", entries);
    a.comment = Some(String::from_str("verification basic deflate archive"));
    a
}

/// Stored entries.
pub open spec fn basic_store() -> CorpusView {
    let entries: Seq<EntryView> = seq![
        plain_entry("raw1.bin"@, random(4096, 0x2222u64 | 1), ZIP_CM_STORE, 0),
        plain_entry("raw2.bin"@, random(65536, 0x2223u64 | 1), ZIP_CM_STORE, 0),
    ];
    plain_archive("basic_store.zip"@, entries)
}

/// Stored entries.
fn make_basic_store() -> (r: ArchiveSpec)
    ensures
        r@ == basic_store(),
{
    let mut entries: Vec<EntrySpec> = Vec::new();
    entries.push(make_entry("raw1.bin", rand_bytes(0x2222, 4096), ZIP_CM_STORE, 0));
    entries.push(make_entry("raw2.bin", rand_bytes(0x2223, 65536), ZIP_CM_STORE, 0));
    assert(entry_views(entries@) =~= basic_store().entries);
    let a = make_archive("basic_store.zip", entries);
    a
}

/// No entries.
pub open spec fn empty_archive() -> CorpusView {
    let entries: Seq<EntryView> = Seq::empty();
    CorpusView { keep_empty: true, ..plain_archive("empty_archive.zip"@, entries) }
}

/// No entries.
fn make_empty_archive() -> (r: ArchiveSpec)
    ensures
        r@ == empty_archive(),
{
    let entries: Vec<EntrySpec> = Vec::new();
    assert(entry_views(entries@) =~= empty_archive().entries);
    let mut a = make_archive("empty_archive.zip", entries);
    a.keep_empty = true;
    a
}

/// One empty entry.
pub open spec fn one_empty() -> CorpusView {
    let entries: Seq<EntryView> = seq![
        plain_entry("only_empty.txt"@, Seq::empty(), ZIP_CM_DEFLATE, 6),
    ];
    plain_archive("one_empty.zip"@, entries)
}

/// One empty entry.
fn make_one_empty() -> (r: ArchiveSpec)
    ensures
        r@ == one_empty(),
{
    let mut entries: Vec<EntrySpec> = Vec::new();
    entries.push(make_entry("only_empty.txt", Vec::new(), ZIP_CM_DEFLATE, 6));
    assert(entry_views(entries@) =~= one_empty().entries);
    let a = make_archive("one_empty.zip", entries);
    a
}

/// Entries far down in directories.
pub open spec fn deep() -> CorpusView {
    let entries: Seq<EntryView> = seq![
        plain_entry(
            deep_path(24) + "leaf.txt"@,
            corpus_bytes("deep nested content "@, 40),
            ZIP_CM_DEFLATE,
            6,
        ),
        plain_entry("a/b/c/d/e/f/g/h.txt"@, corpus_bytes("shallow-ish "@, 8), ZIP_CM_STORE, 0),
    ];
    plain_archive("deep.zip"@, entries)
}

/// Entries far down in directories.
fn make_deep() -> (r: ArchiveSpec)
    ensures
        r@ == deep(),
{
    proof {
        reveal_strlit("deep nested content ");
        reveal_strlit("shallow-ish ");
    }
    let mut entries: Vec<EntrySpec> = Vec::new();
    entries.push(
        make_entry(
            deep_name().as_str(),
            corpus_text("deep nested content ", 40),
            ZIP_CM_DEFLATE,
            6,
        ),
    );
    entries.push(
        make_entry(
            "a/b/c/d/e/f/g/h.txt",
            corpus_text("shallow-ish ", 8),
            ZIP_CM_STORE,
            0,
        ),
    );
    assert(entry_views(entries@) =~= deep().entries);
    let a = make_archive("deep.zip", entries);
    a
}

/// Names and contents that are not ASCII.
pub open spec fn unicode() -> CorpusView {
    let entries: Seq<EntryView> = seq![
        plain_entry(
            "h\u{e9}llo w\u{f6}rld.txt"@,
            corpus_bytes("unicode content "@, 30),
            ZIP_CM_DEFLATE,
            6,
        ),
        plain_entry(
            "\u{65e5}\u{672c}\u{8a9e}/\u{30d5}\u{30a1}\u{30a4}\u{30eb}.txt"@,
            corpus_bytes("\u{65e5}\u{672c}\u{8a9e}\u{30c7}\u{30fc}\u{30bf} "@, 20),
            ZIP_CM_DEFLATE,
            6,
        ),
        plain_entry(
            "emojis/\u{1f389}party\u{1f38a}.txt"@,
            corpus_bytes("party "@, 10),
            ZIP_CM_STORE,
            0,
        ),
    ];
    CorpusView {
        comment: Some("caf\u{e9} \u{65e5}\u{672c}\u{8a9e}"@),
        ..plain_archive("unicode.zip"@, entries)
    }
}

/// Names and contents that are not ASCII.
fn make_unicode() -> (r: ArchiveSpec)
    ensures
        r@ == unicode(),
{
    proof {
        reveal_strlit("unicode content ");
        reveal_strlit("\u{65e5}\u{672c}\u{8a9e}\u{30c7}\u{30fc}\u{30bf} ");
        reveal_strlit("party ");
    }
    let mut entries: Vec<EntrySpec> = Vec::new();
    entries.push(
        make_entry(
            "h\u{e9}llo w\u{f6}rld.txt",
            corpus_text("unicode content ", 30),
            ZIP_CM_DEFLATE,
            6,
        ),
    );
    entries.push(
        make_entry(
            "\u{65e5}\u{672c}\u{8a9e}/\u{30d5}\u{30a1}\u{30a4}\u{30eb}.txt",
            corpus_text("\u{65e5}\u{672c}\u{8a9e}\u{30c7}\u{30fc}\u{30bf} ", 20),
            ZIP_CM_DEFLATE,
            6,
        ),
    );
    entries.push(
        make_entry(
            "emojis/\u{1f389}party\u{1f38a}.txt",
            corpus_text("party ", 10),
            ZIP_CM_STORE,
            0,
        ),
    );
    assert(entry_views(entries@) =~= unicode().entries);
    let mut a = make_archive("unicode.zip", entries);
    a.comment = Some(String::from_str("caf\u{e9} \u{65e5}\u{672c}\u{8a9e}"));
    a
}

/// A large entry.
pub open spec fn large() -> CorpusView {
    let entries: Seq<EntryView> = seq![
        plain_entry(
            "large_incompressible.bin"@,
            random(307200, 0x3333u64 | 1),
            ZIP_CM_DEFLATE,
            6,
        ),
    ];
    plain_archive("large.zip"@, entries)
}

/// A large entry.
fn make_large() -> (r: ArchiveSpec)
    ensures
        r@ == large(),
{
    let mut entries: Vec<EntrySpec> = Vec::new();
    entries.push(
        make_entry(
            "large_incompressible.bin",
            rand_bytes(0x3333, 307200),
            ZIP_CM_DEFLATE,
            6,
        ),
    );
    assert(entry_views(entries@) =~= large().entries);
    let a = make_archive("large.zip", entries);
    a
}

/// A huge entry.
pub open spec fn huge() -> CorpusView {
    let entries: Seq<EntryView> = seq![
        plain_entry("huge.bin"@, random(8388608, 0x4444u64 | 1), ZIP_CM_DEFLATE, 6),
    ];
    plain_archive("huge.zip"@, entries)
}

/// A huge entry.
fn make_huge() -> (r: ArchiveSpec)
    ensures
        r@ == huge(),
{
    let mut entries: Vec<EntrySpec> = Vec::new();
    entries.push(make_entry("huge.bin", rand_bytes(0x4444, 8388608), ZIP_CM_DEFLATE, 6));
    assert(entry_views(entries@) =~= huge().entries);
    let a = make_archive("huge.zip", entries);
    a
}

/// Entries by several methods and levels.
pub open spec fn mix() -> CorpusView {
    let entries: Seq<EntryView> = seq![
        plain_entry("dir/one.txt"@, corpus_bytes("mix one "@, 100), ZIP_CM_DEFLATE, 9),
        plain_entry("dir/two.bin"@, random(12345, 0x5555u64 | 1), ZIP_CM_STORE, 0),
        plain_entry("dir/three.txt"@, Seq::empty(), ZIP_CM_DEFLATE, 6),
        plain_entry(
            "nested/deep/under/four.txt"@,
            corpus_bytes("mix four "@, 500),
            ZIP_CM_DEFLATE,
            1,
        ),
    ];
    plain_archive("mix.zip"@, entries)
}

/// Entries by several methods and levels.
fn make_mix() -> (r: ArchiveSpec)
    ensures
        r@ == mix(),
{
    proof {
        reveal_strlit("mix one ");
        reveal_strlit("mix four ");
    }
    let mut entries: Vec<EntrySpec> = Vec::new();
    entries.push(make_entry("dir/one.txt", corpus_text("mix one ", 100), ZIP_CM_DEFLATE, 9));
    entries.push(make_entry("dir/two.bin", rand_bytes(0x5555, 12345), ZIP_CM_STORE, 0));
    entries.push(make_entry("dir/three.txt", Vec::new(), ZIP_CM_DEFLATE, 6));
    entries.push(
        make_entry(
            "nested/deep/under/four.txt",
            corpus_text("mix four ", 500),
            ZIP_CM_DEFLATE,
            1,
        ),
    );
    assert(entry_views(entries@) =~= mix().entries);
    let a = make_archive("mix.zip", entries);
    a
}

/// An entry of the archive with many entries.
pub open spec fn many_entry(i: nat) -> EntryView {
    plain_entry(
        "file_"@ + padded(i, 4) + ".txt"@,
        corpus_bytes("many entry content number "@ + decimal(i) + " "@, 3 + i % 7),
        if i % 2 == 0 { ZIP_CM_DEFLATE } else { ZIP_CM_STORE },
        6,
    )
}

/// Many entries, by both methods in turn.
pub open spec fn many() -> CorpusView {
    plain_archive("many.zip"@, Seq::new(1500, |i: int| many_entry(i as nat)))
}

/// Many entries, by both methods in turn.
fn make_many() -> (r: ArchiveSpec)
    ensures
        r@ == many(),
{
    let mut entries: Vec<EntrySpec> = Vec::new();
    let mut i: u64 = 0;
    assert(entry_views(entries@) =~= Seq::new(0, |k: int| many_entry(k as nat)));
    while i < 1500
        invariant
            i <= 1500,
            entry_views(entries@) == Seq::new(i as nat, |k: int| many_entry(k as nat)),
        decreases 1500 - i,
    {
        let mut name = String::from_str("file_");
        append_padded(&mut name, i, 4);
        name.append(".txt");
        let mut pattern = String::from_str("many entry content number ");
        append_decimal(&mut pattern, i);
        pattern.append(" ");
        proof {
            reveal_strlit("many entry content number ");
            reveal_strlit(" ");
            lemma_short_decimal(i);
        }
        let method: i32 = if i % 2 == 0 { ZIP_CM_DEFLATE } else { ZIP_CM_STORE };
        let data = corpus_text(pattern.as_str(), 3 + (i % 7) as usize);
        let ghost had = entries@;
        let e = make_entry(name.as_str(), data, method, 6);
        assert(e@ == many_entry(i as nat));
        let ghost added = e@;
        entries.push(e);
        assert(entry_views(entries@) =~= entry_views(had).push(added));
        i += 1;
        assert(entry_views(entries@) =~= Seq::new(i as nat, |k: int| many_entry(k as nat)));
    }
    make_archive("many.zip", entries)
}

proof fn lemma_short_decimal(i: u64)
    requires
        i < 1500,
    ensures
        decimal(i as nat).len() <= 900,
{
    reveal_with_fuel(decimal, 5);
}

/// An entry of the archive with so many entries that their number needs a ZIP64
/// record.
pub open spec fn zip64_entry(i: nat) -> EntryView {
    plain_entry(
        "z"@ + padded(i, 5) + ".txt"@,
        corpus_bytes("z"@, 2 + i % 5),
        ZIP_CM_STORE,
        0,
    )
}

/// So many entries that their number needs a ZIP64 record.
pub open spec fn many_zip64() -> CorpusView {
    plain_archive("many_zip64.zip"@, Seq::new(70000, |i: int| zip64_entry(i as nat)))
}

/// So many entries that their number needs a ZIP64 record.
fn make_many_zip64() -> (r: ArchiveSpec)
    ensures
        r@ == many_zip64(),
{
    let mut entries: Vec<EntrySpec> = Vec::new();
    let mut i: u64 = 0;
    assert(entry_views(entries@) =~= Seq::new(0, |k: int| zip64_entry(k as nat)));
    while i < 70000
        invariant
            i <= 70000,
            entry_views(entries@) == Seq::new(i as nat, |k: int| zip64_entry(k as nat)),
        decreases 70000 - i,
    {
        let mut name = String::from_str("z");
        append_padded(&mut name, i, 5);
        name.append(".txt");
        proof {
            reveal_strlit("z");
        }
        let data = corpus_text("z", 2 + (i % 5) as usize);
        let ghost had = entries@;
        let e = make_entry(name.as_str(), data, ZIP_CM_STORE, 0);
        assert(e@ == zip64_entry(i as nat));
        let ghost added = e@;
        entries.push(e);
        assert(entry_views(entries@) =~= entry_views(had).push(added));
        i += 1;
        assert(entry_views(entries@) =~= Seq::new(i as nat, |k: int| zip64_entry(k as nat)));
    }
    make_archive("many_zip64.zip", entries)
}

/// The archives of the corpus.
pub open spec fn corpus_archives() -> Seq<CorpusView> {
    seq![
        basic_deflate(),
        basic_store(),
        empty_archive(),
        one_empty(),
        deep(),
        unicode(),
        large(),
        huge(),
        mix(),
        many(),
        many_zip64(),
    ]
}

/// The archives of the corpus.
pub fn corpus_specs() -> (r: Vec<ArchiveSpec>)
    ensures
        archive_views(r@) == corpus_archives(),
{
    let mut out: Vec<ArchiveSpec> = Vec::new();
    out.push(make_basic_deflate());
    out.push(make_basic_store());
    out.push(make_empty_archive());
    out.push(make_one_empty());
    out.push(make_deep());
    out.push(make_unicode());
    out.push(make_large());
    out.push(make_huge());
    out.push(make_mix());
    out.push(make_many());
    out.push(make_many_zip64());
    assert(archive_views(out@) =~= corpus_archives());
    out
}

} // verus!
