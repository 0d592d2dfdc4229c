//! Contents and handcrafted archives of the verification corpus.

use crate::bench::{random, random_bytes};
use crate::checksum::{crc32, crc32_of};
use crate::le::{le16, le32, le64, push_bytes, push_le16, push_le32, push_le64};
use crate::text::{append_signed, signed_decimal};
use vstd::prelude::*;
use vstd::string::*;
use vstd::utf8::encode_utf8;

verus! {

/// Makes random content from a seed, which is made odd first.
pub fn rand_bytes(x: u64, len: usize) -> (r: Vec<u8>)
    ensures
        r@ == random(len as nat, x | 1),
{
    random_bytes(len, x | 1)
}

/// A byte string, `n` times over.
pub open spec fn times(pattern: Seq<u8>, n: nat) -> Seq<u8>
    decreases n,
{
    if n == 0 {
        Seq::empty()
    } else {
        times(pattern, (n - 1) as nat) + pattern
    }
}

/// The bytes of a text, `repeat` times over.
pub fn text(pattern: &str, repeat: usize) -> (r: Vec<u8>)
    requires
        encode_utf8(pattern@).len() * repeat <= isize::MAX,
    ensures
        r@ == times(encode_utf8(pattern@), repeat as nat),
{
    let bytes = pattern.as_bytes();
    let mut out: Vec<u8> = Vec::new();
    let mut i: usize = 0;
    while i < repeat
        invariant
            i <= repeat,
            bytes@ == encode_utf8(pattern@),
            out@ == times(bytes@, i as nat),
        decreases repeat - i,
    {
        push_bytes(&mut out, bytes);
        i += 1;
    }
    out
}

/// A local file header.
pub ghost struct LocalHeader {
    pub version: u16,
    pub flags: u16,
    pub method: u16,
    pub crc: u32,
    pub compressed: u32,
    pub size: u32,
    pub name: Seq<u8>,
    pub extra: Seq<u8>,
}

/// The bytes of a local file header, with zero as the time and date.
pub open spec fn local_header(h: LocalHeader) -> Seq<u8> {
    seq![0x50u8, 0x4B, 0x03, 0x04] + le16(h.version) + le16(h.flags) + le16(h.method) + le32(0)
        + le32(h.crc) + le32(h.compressed) + le32(h.size) + le16(h.name.len() as u16) + le16(
        h.extra.len() as u16,
    ) + h.name + h.extra
}

/// A central directory header.
pub ghost struct CentralHeader {
    pub version_made: u16,
    pub local: LocalHeader,
    pub comment: Seq<u8>,
    pub offset: u32,
}

/// The bytes of a central directory header, with zero as the time, the date,
/// the disk and the attributes.
pub open spec fn central_header(h: CentralHeader) -> Seq<u8> {
    seq![0x50u8, 0x4B, 0x01, 0x02] + le16(h.version_made) + le16(h.local.version) + le16(
        h.local.flags,
    ) + le16(h.local.method) + le32(0) + le32(h.local.crc) + le32(h.local.compressed) + le32(
        h.local.size,
    ) + le16(h.local.name.len() as u16) + le16(h.local.extra.len() as u16) + le16(
        h.comment.len() as u16,
    ) + le16(0) + le16(0) + le32(0) + le32(h.offset) + h.local.name + h.local.extra + h.comment
}

/// The bytes of the end of central directory record, for a central directory
/// of `entries` entries and `size` bytes at `offset`, without a comment.
pub open spec fn end_record(entries: u16, size: u32, offset: u32) -> Seq<u8> {
    seq![0x50u8, 0x4B, 0x05, 0x06] + le16(0) + le16(0) + le16(entries) + le16(entries) + le32(size)
        + le32(offset) + le16(0)
}

/// The bytes of the ZIP64 end of central directory record for one entry.
pub open spec fn zip64_end_record(size: u64, offset: u64) -> Seq<u8> {
    seq![0x50u8, 0x4B, 0x06, 0x06] + le64(44) + le16(0) + le16(45) + le32(0) + le32(0) + le64(1)
        + le64(1) + le64(size) + le64(offset)
}

/// The bytes of the locator of a ZIP64 end of central directory record.
pub open spec fn zip64_locator(offset: u64) -> Seq<u8> {
    seq![0x50u8, 0x4B, 0x06, 0x07] + le32(0) + le64(offset) + le32(1)
}

/// The fields of an entry that its local header and its central directory
/// header have in common.
struct EntryRecord<'a> {
    version: u16,
    flags: u16,
    method: u16,
    crc: u32,
    compressed: u32,
    size: u32,
    name: &'a [u8],
    extra: &'a [u8],
}

impl<'a> EntryRecord<'a> {
    spec fn header(self) -> LocalHeader {
        LocalHeader {
            version: self.version,
            flags: self.flags,
            method: self.method,
            crc: self.crc,
            compressed: self.compressed,
            size: self.size,
            name: self.name@,
            extra: self.extra@,
        }
    }

    /// Appends the local header.
    fn push_local(&self, out: &mut Vec<u8>)
        ensures
            final(out)@ == old(out)@ + local_header(self.header()),
    {
        let sig: [u8; 4] = [0x50, 0x4B, 0x03, 0x04];
        push_bytes(out, &sig);
        push_le16(out, self.version);
        push_le16(out, self.flags);
        push_le16(out, self.method);
        push_le32(out, 0);
        push_le32(out, self.crc);
        push_le32(out, self.compressed);
        push_le32(out, self.size);
        push_le16(out, self.name.len() as u16);
        push_le16(out, self.extra.len() as u16);
        push_bytes(out, self.name);
        push_bytes(out, self.extra);
        assert(sig@ =~= seq![0x50u8, 0x4B, 0x03, 0x04]);
        assert(out@ =~= old(out)@ + local_header(self.header()));
    }

    /// Appends the central directory header.
    fn push_central(&self, out: &mut Vec<u8>, version_made: u16, comment: &[u8], offset: u32)
        ensures
            final(out)@ == old(out)@ + central_header(
                CentralHeader {
                    version_made,
                    local: self.header(),
                    comment: comment@,
                    offset,
                },
            ),
    {
        let sig: [u8; 4] = [0x50, 0x4B, 0x01, 0x02];
        push_bytes(out, &sig);
        push_le16(out, version_made);
        push_le16(out, self.version);
        push_le16(out, self.flags);
        push_le16(out, self.method);
        push_le32(out, 0);
        push_le32(out, self.crc);
        push_le32(out, self.compressed);
        push_le32(out, self.size);
        push_le16(out, self.name.len() as u16);
        push_le16(out, self.extra.len() as u16);
        push_le16(out, comment.len() as u16);
        push_le16(out, 0);
        push_le16(out, 0);
        push_le32(out, 0);
        push_le32(out, offset);
        push_bytes(out, self.name);
        push_bytes(out, self.extra);
        push_bytes(out, comment);
        assert(sig@ =~= seq![0x50u8, 0x4B, 0x01, 0x02]);
        assert(out@ =~= old(out)@ + central_header(
            CentralHeader { version_made, local: self.header(), comment: comment@, offset },
        ));
    }
}

/// Appends the end of central directory record.
fn push_end_record(out: &mut Vec<u8>, entries: u16, size: u32, offset: u32)
    ensures
        final(out)@ == old(out)@ + end_record(entries, size, offset),
{
    let sig: [u8; 4] = [0x50, 0x4B, 0x05, 0x06];
    push_bytes(out, &sig);
    push_le16(out, 0);
    push_le16(out, 0);
    push_le16(out, entries);
    push_le16(out, entries);
    push_le32(out, size);
    push_le32(out, offset);
    push_le16(out, 0);
    assert(sig@ =~= seq![0x50u8, 0x4B, 0x05, 0x06]);
    assert(out@ =~= old(out)@ + end_record(entries, size, offset));
}

/// The ZIP64 extra field for two sizes.
pub open spec fn zip64_extra(size: u64) -> Seq<u8> {
    le16(1) + le16(24) + le64(size) + le64(size)
}

/// An archive with one stored entry whose sizes and offset stand in ZIP64
/// records.
pub open spec fn zip64_archive(name: Seq<u8>, content: Seq<u8>) -> Seq<u8> {
    let h = LocalHeader {
        version: 45,
        flags: 0,
        method: 0,
        crc: crc32_of(content),
        compressed: 0xFFFF_FFFF,
        size: 0xFFFF_FFFF,
        name,
        extra: zip64_extra(content.len() as u64),
    };
    let local = local_header(h) + content;
    let central = central_header(
        CentralHeader {
            version_made: 0x032D,
            local: h,
            comment: Seq::empty(),
            offset: 0xFFFF_FFFF,
        },
    );
    local + central + zip64_end_record(central.len() as u64, local.len() as u64) + zip64_locator(
        (local.len() + central.len()) as u64,
    ) + end_record(0xFFFF, 0xFFFF_FFFF, 0xFFFF_FFFF)
}

/// Makes an archive with one stored entry and ZIP64 records.
pub fn handcraft_zip64() -> (r: Vec<u8>)
    ensures
        r@ == zip64_archive(
            encode_utf8("zip64_entry.txt"@),
            encode_utf8("zip64 minimal payload"@),
        ),
{
    let name = "zip64_entry.txt".as_bytes();
    let content = "zip64 minimal payload".as_bytes();
    let crc: u32 = crc32(content);
    let mut extra: Vec<u8> = Vec::new();
    push_le16(&mut extra, 1);
    push_le16(&mut extra, 24);
    push_le64(&mut extra, content.len() as u64);
    push_le64(&mut extra, content.len() as u64);
    assert(extra@ =~= zip64_extra(content@.len() as u64));
    let record = EntryRecord {
        version: 45,
        flags: 0,
        method: 0,
        crc,
        compressed: 0xFFFF_FFFF,
        size: 0xFFFF_FFFF,
        name,
        extra: extra.as_slice(),
    };
    let mut v: Vec<u8> = Vec::new();
    record.push_local(&mut v);
    push_bytes(&mut v, content);
    let ghost local = local_header(record.header()) + content@;
    assert(v@ =~= local);
    let local_len: usize = v.len();
    let none: [u8; 0] = [];
    record.push_central(&mut v, 0x032D, &none, 0xFFFF_FFFF);
    assert(none@ =~= Seq::empty());
    let ghost central = central_header(
        CentralHeader {
            version_made: 0x032D,
            local: record.header(),
            comment: Seq::empty(),
            offset: 0xFFFF_FFFF,
        },
    );
    assert(v@ =~= local + central);
    let central_len: u64 = (v.len() - local_len) as u64;
    let both: u64 = v.len() as u64;
    let record_sig: [u8; 4] = [0x50, 0x4B, 0x06, 0x06];
    assert(record_sig@ =~= seq![0x50u8, 0x4B, 0x06, 0x06]);
    push_bytes(&mut v, &record_sig);
    push_le64(&mut v, 44);
    push_le16(&mut v, 0);
    push_le16(&mut v, 45);
    push_le32(&mut v, 0);
    push_le32(&mut v, 0);
    push_le64(&mut v, 1);
    push_le64(&mut v, 1);
    push_le64(&mut v, central_len);
    push_le64(&mut v, local_len as u64);
    assert(v@ =~= local + central + zip64_end_record(central.len() as u64, local.len() as u64));
    let locator_sig: [u8; 4] = [0x50, 0x4B, 0x06, 0x07];
    assert(locator_sig@ =~= seq![0x50u8, 0x4B, 0x06, 0x07]);
    push_bytes(&mut v, &locator_sig);
    push_le32(&mut v, 0);
    push_le64(&mut v, both);
    push_le32(&mut v, 1);
    assert(v@ =~= local + central + zip64_end_record(central.len() as u64, local.len() as u64)
        + zip64_locator((local.len() + central.len()) as u64));
    push_end_record(&mut v, 0xFFFF, 0xFFFF_FFFF, 0xFFFF_FFFF);
    v
}

/// The extra field with the identifier 0xCAFE.
pub open spec fn custom_extra() -> Seq<u8> {
    le16(0xCAFE) + le16(4) + seq![0xDEu8, 0xAD, 0xBE, 0xEF]
}

/// An archive with one stored entry that has an extra field in both headers and
/// a comment.
pub open spec fn extra_fields_archive(
    name: Seq<u8>,
    content: Seq<u8>,
    comment: Seq<u8>,
) -> Seq<u8> {
    let h = LocalHeader {
        version: 20,
        flags: 0,
        method: 0,
        crc: crc32_of(content),
        compressed: content.len() as u32,
        size: content.len() as u32,
        name,
        extra: custom_extra(),
    };
    let local = local_header(h) + content;
    let central = central_header(
        CentralHeader { version_made: 0x0314, local: h, comment, offset: 0 },
    );
    local + central + end_record(1, central.len() as u32, local.len() as u32)
}

/// Makes an archive with an entry that has an extra field and a comment.
pub fn handcraft_extra_fields() -> (r: Vec<u8>)
    ensures
        r@ == extra_fields_archive(
            encode_utf8("extra.txt"@),
            encode_utf8("entry with extra fields"@),
            encode_utf8("file comment here"@),
        ),
{
    let name = "extra.txt".as_bytes();
    let content = "entry with extra fields".as_bytes();
    let comment = "file comment here".as_bytes();
    let payload: [u8; 4] = [0xDE, 0xAD, 0xBE, 0xEF];
    let mut extra: Vec<u8> = Vec::new();
    push_le16(&mut extra, 0xCAFE);
    push_le16(&mut extra, 4);
    push_bytes(&mut extra, &payload);
    assert(payload@ =~= seq![0xDEu8, 0xAD, 0xBE, 0xEF]);
    assert(extra@ =~= custom_extra());
    let record = EntryRecord {
        version: 20,
        flags: 0,
        method: 0,
        crc: crc32(content),
        compressed: content.len() as u32,
        size: content.len() as u32,
        name,
        extra: extra.as_slice(),
    };
    let mut v: Vec<u8> = Vec::new();
    record.push_local(&mut v);
    push_bytes(&mut v, content);
    let ghost local = local_header(record.header()) + content@;
    assert(v@ =~= local);
    let offset: usize = v.len();
    record.push_central(&mut v, 0x0314, comment, 0);
    let size: usize = v.len() - offset;
    push_end_record(&mut v, 1, size as u32, offset as u32);
    v
}

/// The deflated form of a byte string at a level: what
/// `flate2::write::DeflateEncoder` makes of it.
pub uninterp spec fn deflated(bytes: Seq<u8>, level: u32) -> Seq<u8>;

/// Calls `flate2::write::DeflateEncoder`: `new` on an empty vector, `write_all`
/// and `finish`, neither of which fails on a vector. Claimed of it: the result
/// depends on the bytes and the level alone.
#[verifier::external_body]
fn deflate(bytes: &[u8], level: u32) -> (r: Vec<u8>)
    requires
        level <= 9,
    ensures
        r@ == deflated(bytes@, level),
{
    let level = flate2::Compression::new(level);
    let mut encoder = flate2::write::DeflateEncoder::new(Vec::new(), level);
    std::io::Write::write_all(&mut encoder, bytes).unwrap();
    encoder.finish().unwrap()
}

/// An archive with one deflated entry whose sizes and CRC-32 stand in a data
/// descriptor behind its data.
pub open spec fn descriptor_archive(name: Seq<u8>, content: Seq<u8>, packed: Seq<u8>) -> Seq<u8> {
    let before = LocalHeader {
        version: 20,
        flags: 8,
        method: 8,
        crc: 0,
        compressed: 0,
        size: 0,
        name,
        extra: Seq::empty(),
    };
    let h = LocalHeader {
        crc: crc32_of(content),
        compressed: packed.len() as u32,
        size: content.len() as u32,
        ..before
    };
    let descriptor = seq![0x50u8, 0x4B, 0x07, 0x08] + le32(h.crc) + le32(h.compressed) + le32(
        h.size,
    );
    let local = local_header(before) + packed + descriptor;
    let central = central_header(
        CentralHeader { version_made: 0x0314, local: h, comment: Seq::empty(), offset: 0 },
    );
    local + central + end_record(1, central.len() as u32, local.len() as u32)
}

/// Makes an archive with one entry and a data descriptor, where `packed` is the
/// deflated content.
pub fn make_descriptor_archive(name: &[u8], content: &[u8], packed: &[u8]) -> (r: Vec<u8>)
    ensures
        r@ == descriptor_archive(name@, content@, packed@),
{
    let none: [u8; 0] = [];
    assert(none@ =~= Seq::empty());
    let crc: u32 = crc32(content);
    let before = EntryRecord {
        version: 20,
        flags: 8,
        method: 8,
        crc: 0,
        compressed: 0,
        size: 0,
        name,
        extra: &none,
    };
    let record = EntryRecord {
        version: 20,
        flags: 8,
        method: 8,
        crc,
        compressed: packed.len() as u32,
        size: content.len() as u32,
        name,
        extra: &none,
    };
    let mut v: Vec<u8> = Vec::new();
    before.push_local(&mut v);
    push_bytes(&mut v, packed);
    let sig: [u8; 4] = [0x50, 0x4B, 0x07, 0x08];
    assert(sig@ =~= seq![0x50u8, 0x4B, 0x07, 0x08]);
    push_bytes(&mut v, &sig);
    push_le32(&mut v, crc);
    push_le32(&mut v, packed.len() as u32);
    push_le32(&mut v, content.len() as u32);
    let ghost local = local_header(before.header()) + packed@ + (seq![0x50u8, 0x4B, 0x07, 0x08]
        + le32(crc) + le32(packed@.len() as u32) + le32(content@.len() as u32));
    assert(v@ =~= local);
    let offset: usize = v.len();
    record.push_central(&mut v, 0x0314, &none, 0);
    let size: usize = v.len() - offset;
    push_end_record(&mut v, 1, size as u32, offset as u32);
    v
}

/// Makes an archive with one entry and a data descriptor.
pub fn handcraft_data_descriptor() -> (r: Vec<u8>)
    ensures
        ({
            let content = encode_utf8("data-descriptor payload payload payload payload"@);
            r@ == descriptor_archive(encode_utf8("dd.txt"@), content, deflated(content, 6))
        }),
{
    let content = "data-descriptor payload payload payload payload".as_bytes();
    let packed = deflate(content, 6);
    make_descriptor_archive("dd.txt".as_bytes(), content, packed.as_slice())
}

/// An entry of a corpus archive.
#[derive(Debug)]
pub struct EntrySpec {
    pub name: String,
    pub data: Vec<u8>,
    pub method: i32,
    pub level: u32,
    pub mtime: Option<i64>,
    pub comment: Option<String>,
}

/// A corpus archive.
#[derive(Debug)]
pub struct ArchiveSpec {
    pub filename: String,
    pub comment: Option<String>,
    /// Whether the file stays although there are no entries.
    pub keep_empty: bool,
    pub entries: Vec<EntrySpec>,
}

/// An edit of the archive that is being written.
#[derive(Debug)]
pub enum CorpusEdit {
    /// Sets the compression method and level of an entry.
    Method(u64, i32, u32),
    /// Sets the modification time of an entry.
    Mtime(u64, i64),
    /// Sets the comment of an entry.
    Comment(u64, String),
    /// Sets the archive comment.
    ArchiveComment(String),
    /// Keeps the file of an archive without entries.
    KeepEmpty,
}

/// What an edit says.
pub ghost enum EditView {
    Method(u64, i32, u32),
    Mtime(u64, i64),
    Comment(u64, Seq<char>),
    ArchiveComment(Seq<char>),
    KeepEmpty,
}

impl View for CorpusEdit {
    type V = EditView;

    open spec fn view(&self) -> EditView {
        match *self {
            CorpusEdit::Method(i, method, level) => EditView::Method(i, method, level),
            CorpusEdit::Mtime(i, t) => EditView::Mtime(i, t),
            CorpusEdit::Comment(i, c) => EditView::Comment(i, c@),
            CorpusEdit::ArchiveComment(c) => EditView::ArchiveComment(c@),
            CorpusEdit::KeepEmpty => EditView::KeepEmpty,
        }
    }
}

/// What a list of edits says.
pub open spec fn edits_view(edits: Seq<CorpusEdit>) -> Seq<EditView> {
    edits.map_values(|e: CorpusEdit| e@)
}

/// The edits of an entry that was added under an index: its method, then its
/// time and its comment where it has them.
pub open spec fn entry_edits(e: EntrySpec, index: u64) -> Seq<EditView> {
    let first = seq![EditView::Method(index, e.method, e.level)];
    let timed = match e.mtime {
        Some(t) => first.push(EditView::Mtime(index, t)),
        None => first,
    };
    match e.comment {
        Some(c) => timed.push(EditView::Comment(index, c@)),
        None => timed,
    }
}

/// The edits of an entry that was added under an index.
pub fn edits_of_entry(e: &EntrySpec, index: u64) -> (r: Vec<CorpusEdit>)
    ensures
        edits_view(r@) == entry_edits(*e, index),
{
    let mut edits: Vec<CorpusEdit> = Vec::new();
    edits.push(CorpusEdit::Method(index, e.method, e.level));
    if let Some(t) = e.mtime {
        edits.push(CorpusEdit::Mtime(index, t));
    }
    if let Some(c) = &e.comment {
        edits.push(CorpusEdit::Comment(index, c.clone()));
    }
    assert(edits_view(edits@) =~= entry_edits(*e, index));
    edits
}

/// The edits of a whole archive: its comment where it has one, then that its
/// file stays where that was asked for.
pub open spec fn archive_edits(a: ArchiveSpec) -> Seq<EditView> {
    let noted = match a.comment {
        Some(c) => seq![EditView::ArchiveComment(c@)],
        None => Seq::empty(),
    };
    if a.keep_empty {
        noted.push(EditView::KeepEmpty)
    } else {
        noted
    }
}

/// The edits of a whole archive.
pub fn edits_of_archive(a: &ArchiveSpec) -> (r: Vec<CorpusEdit>)
    ensures
        edits_view(r@) == archive_edits(*a),
{
    let mut edits: Vec<CorpusEdit> = Vec::new();
    if let Some(c) = &a.comment {
        edits.push(CorpusEdit::ArchiveComment(c.clone()));
    }
    if a.keep_empty {
        edits.push(CorpusEdit::KeepEmpty);
    }
    assert(edits_view(edits@) =~= archive_edits(*a));
    edits
}

/// The message for an archive that could not be closed.
pub open spec fn close_failure(rc: i32) -> Seq<char> {
    "zip_close failed rc="@ + signed_decimal(rc as int)
}

/// How far the writing of a corpus archive has come: what is waited for.
#[derive(Clone, Copy, Debug, PartialEq, Eq, Structural)]
pub enum CorpusStage {
    /// That the content of an entry is stored beside the archive.
    Mirror(usize),
    /// That an entry is added.
    Add(usize),
    /// That an edit of an entry is made: the entry, the index that it was added
    /// under, and the place of the edit.
    EntryEdit(usize, u64, usize),
    /// That an edit of the whole archive is made: its place.
    ArchiveEdit(usize),
    /// That the archive is closed.
    Close,
    /// Nothing more.
    Over,
}

/// What is to be done next.
#[derive(Debug)]
pub enum CorpusAction {
    /// Store the content of an entry beside the archive.
    Mirror(usize),
    /// Add an entry.
    Add(usize),
    /// Make an edit.
    Edit(CorpusEdit),
    /// Close the archive.
    Close,
    /// Nothing; this is the result.
    Finish(Result<(), String>),
}

/// What an action says; an action that ends the writing has the message of its
/// error, where there is one.
pub ghost enum ActionView {
    Mirror(usize),
    Add(usize),
    Edit(EditView),
    Close,
    Finish(Option<Seq<char>>),
}

impl View for CorpusAction {
    type V = ActionView;

    open spec fn view(&self) -> ActionView {
        match *self {
            CorpusAction::Mirror(i) => ActionView::Mirror(i),
            CorpusAction::Add(i) => ActionView::Add(i),
            CorpusAction::Edit(e) => ActionView::Edit(e@),
            CorpusAction::Close => ActionView::Close,
            CorpusAction::Finish(Ok(_)) => ActionView::Finish(None),
            CorpusAction::Finish(Err(text)) => ActionView::Finish(Some(text@)),
        }
    }
}

/// What an action has come to.
#[derive(Debug)]
pub enum CorpusEvent {
    /// A content was stored, or could not be.
    Mirrored(Result<(), String>),
    /// An entry was added under an index, or could not be.
    Added(Option<u64>),
    /// An entry has a name that cannot be handed on, as this message says.
    BadName(String),
    /// An edit was made.
    Edited,
    /// The archive was closed, with this result.
    Closed(i32),
}

/// Where the writing goes on with the edits of the whole archive, from a place
/// on.
pub open spec fn archive_from(a: ArchiveSpec, k: int) -> (CorpusStage, ActionView) {
    if k < archive_edits(a).len() {
        (CorpusStage::ArchiveEdit(k as usize), ActionView::Edit(archive_edits(a)[k]))
    } else {
        (CorpusStage::Close, ActionView::Close)
    }
}

/// Where the writing goes on with an entry.
pub open spec fn corpus_from(a: ArchiveSpec, i: int) -> (CorpusStage, ActionView) {
    if i < a.entries@.len() {
        (CorpusStage::Mirror(i as usize), ActionView::Mirror(i as usize))
    } else {
        archive_from(a, 0)
    }
}

/// Where the writing goes on with the edits of an entry, from a place on.
pub open spec fn entry_from(a: ArchiveSpec, i: int, index: u64, k: int) -> (
    CorpusStage,
    ActionView,
) {
    let edits = entry_edits(a.entries@[i], index);
    if k < edits.len() {
        (CorpusStage::EntryEdit(i as usize, index, k as usize), ActionView::Edit(edits[k]))
    } else {
        corpus_from(a, i + 1)
    }
}

/// Whether an event is one that is waited for.
pub open spec fn awaited(a: ArchiveSpec, stage: CorpusStage, event: CorpusEvent) -> bool {
    match stage {
        CorpusStage::Mirror(i) => i < a.entries@.len() && event is Mirrored,
        CorpusStage::Add(i) => i < a.entries@.len() && (event is Added || event is BadName),
        CorpusStage::EntryEdit(i, index, k) => i < a.entries@.len() && k < entry_edits(
            a.entries@[i as int],
            index,
        ).len() && event is Edited,
        CorpusStage::ArchiveEdit(k) => k < archive_edits(a).len() && event is Edited,
        CorpusStage::Close => event is Closed,
        CorpusStage::Over => false,
    }
}

/// The next stage and action. An entry that cannot be added is the last one, and
/// the archive is closed without the edits of the whole.
pub open spec fn corpus_next(a: ArchiveSpec, stage: CorpusStage, event: CorpusEvent) -> (
    CorpusStage,
    ActionView,
) {
    match (stage, event) {
        (CorpusStage::Mirror(i), CorpusEvent::Mirrored(Ok(_))) => (
            CorpusStage::Add(i),
            ActionView::Add(i),
        ),
        (CorpusStage::Mirror(_), CorpusEvent::Mirrored(Err(text))) => (
            CorpusStage::Over,
            ActionView::Finish(Some(text@)),
        ),
        (CorpusStage::Add(_), CorpusEvent::BadName(text)) => (
            CorpusStage::Over,
            ActionView::Finish(Some(text@)),
        ),
        (CorpusStage::Add(_), CorpusEvent::Added(None)) => (
            CorpusStage::Close,
            ActionView::Close,
        ),
        (CorpusStage::Add(i), CorpusEvent::Added(Some(index))) => entry_from(
            a,
            i as int,
            index,
            0,
        ),
        (CorpusStage::EntryEdit(i, index, k), CorpusEvent::Edited) => entry_from(
            a,
            i as int,
            index,
            k + 1,
        ),
        (CorpusStage::ArchiveEdit(k), CorpusEvent::Edited) => archive_from(a, k + 1),
        (CorpusStage::Close, CorpusEvent::Closed(rc)) => (
            CorpusStage::Over,
            ActionView::Finish(if rc != 0 { Some(close_failure(rc)) } else { None }),
        ),
        _ => (CorpusStage::Over, ActionView::Finish(None)),
    }
}

fn go_on_with_archive(a: &ArchiveSpec, k: usize) -> (r: (CorpusStage, CorpusAction))
    ensures
        (r.0, r.1@) == archive_from(*a, k as int),
{
    let mut edits = edits_of_archive(a);
    let ghost all = edits@;
    assert(edits_view(all).len() == all.len());
    if k < edits.len() {
        let e = edits.remove(k);
        assert(edits_view(all)[k as int] == e@);
        (CorpusStage::ArchiveEdit(k), CorpusAction::Edit(e))
    } else {
        (CorpusStage::Close, CorpusAction::Close)
    }
}

fn go_on_with(a: &ArchiveSpec, i: usize) -> (r: (CorpusStage, CorpusAction))
    ensures
        (r.0, r.1@) == corpus_from(*a, i as int),
{
    if i < a.entries.len() {
        (CorpusStage::Mirror(i), CorpusAction::Mirror(i))
    } else {
        go_on_with_archive(a, 0)
    }
}

fn go_on_with_entry(a: &ArchiveSpec, i: usize, index: u64, k: usize) -> (r: (
    CorpusStage,
    CorpusAction,
))
    requires
        i < a.entries@.len(),
    ensures
        (r.0, r.1@) == entry_from(*a, i as int, index, k as int),
{
    let mut edits = edits_of_entry(&a.entries[i], index);
    let ghost all = edits@;
    assert(edits_view(all).len() == all.len());
    if k < edits.len() {
        let e = edits.remove(k);
        assert(edits_view(all)[k as int] == e@);
        (CorpusStage::EntryEdit(i, index, k), CorpusAction::Edit(e))
    } else {
        assert(i < a.entries.len());
        go_on_with(a, i + 1)
    }
}

/// Begins to write a corpus archive that is open.
pub fn begin_corpus_archive(a: &ArchiveSpec) -> (r: (CorpusStage, CorpusAction))
    ensures
        (r.0, r.1@) == corpus_from(*a, 0),
{
    go_on_with(a, 0)
}

/// Goes on with writing a corpus archive, behind what the last action has come
/// to. The contents of the entries are stored beside the archive and the
/// entries added and edited one after the other, the whole is edited, and the
/// archive is closed.
pub fn next_corpus_action(a: &ArchiveSpec, stage: CorpusStage, event: CorpusEvent) -> (r: (
    CorpusStage,
    CorpusAction,
))
    requires
        awaited(*a, stage, event),
    ensures
        (r.0, r.1@) == corpus_next(*a, stage, event),
{
    match (stage, event) {
        (CorpusStage::Mirror(i), CorpusEvent::Mirrored(Ok(_))) => (
            CorpusStage::Add(i),
            CorpusAction::Add(i),
        ),
        (CorpusStage::Mirror(_), CorpusEvent::Mirrored(Err(text))) => (
            CorpusStage::Over,
            CorpusAction::Finish(Err(text)),
        ),
        (CorpusStage::Add(_), CorpusEvent::BadName(text)) => (
            CorpusStage::Over,
            CorpusAction::Finish(Err(text)),
        ),
        (CorpusStage::Add(_), CorpusEvent::Added(None)) => (
            CorpusStage::Close,
            CorpusAction::Close,
        ),
        (CorpusStage::Add(i), CorpusEvent::Added(Some(index))) => go_on_with_entry(a, i, index, 0),
        (CorpusStage::EntryEdit(i, index, k), CorpusEvent::Edited) => {
            go_on_with_entry(a, i, index, k + 1)
        },
        (CorpusStage::ArchiveEdit(k), CorpusEvent::Edited) => go_on_with_archive(a, k + 1),
        (CorpusStage::Close, CorpusEvent::Closed(rc)) => {
            if rc != 0 {
                let mut text = String::from_str("zip_close failed rc=");
                append_signed(&mut text, rc as i64);
                (CorpusStage::Over, CorpusAction::Finish(Err(text)))
            } else {
                (CorpusStage::Over, CorpusAction::Finish(Ok(())))
            }
        },
        _ => (CorpusStage::Over, CorpusAction::Finish(Ok(()))),
    }
}

/// What an action comes to where nothing fails: the entries are added under
/// these indices.
pub open spec fn well_done(stage: CorpusStage, indices: Seq<u64>) -> CorpusEvent {
    match stage {
        CorpusStage::Mirror(_) => CorpusEvent::Mirrored(Ok(())),
        CorpusStage::Add(i) => CorpusEvent::Added(Some(indices[i as int])),
        CorpusStage::Close => CorpusEvent::Closed(0),
        _ => CorpusEvent::Edited,
    }
}

/// Where the writing stands behind `n` actions, where nothing fails.
pub open spec fn corpus_behind(a: ArchiveSpec, indices: Seq<u64>, n: nat) -> (
    CorpusStage,
    ActionView,
)
    decreases n,
{
    if n == 0 {
        corpus_from(a, 0)
    } else {
        let before = corpus_behind(a, indices, (n - 1) as nat).0;
        corpus_next(a, before, well_done(before, indices))
    }
}

/// How many actions the first `j` entries take.
pub open spec fn actions_of(a: ArchiveSpec, indices: Seq<u64>, j: nat) -> nat
    decreases j,
{
    if j == 0 {
        0
    } else {
        actions_of(a, indices, (j - 1) as nat) + 2 + entry_edits(
            a.entries@[j - 1],
            indices[j - 1],
        ).len()
    }
}

proof fn lemma_entry_edits_in_order(a: ArchiveSpec, indices: Seq<u64>, j: usize, n: nat, k: nat)
    requires
        j < a.entries@.len(),
        corpus_behind(a, indices, n) == entry_from(a, j as int, indices[j as int], 0),
        k <= entry_edits(a.entries@[j as int], indices[j as int]).len(),
    ensures
        corpus_behind(a, indices, n + k) == entry_from(a, j as int, indices[j as int], k as int),
    decreases k,
{
    if k > 0 {
        lemma_entry_edits_in_order(a, indices, j, n, (k - 1) as nat);
        assert((n + k - 1) as nat == n + (k - 1) as nat);
    }
}

/// Where nothing fails, every entry is stored once, then added once, then edited
/// once by each of its edits, and the entries come in their order.
pub proof fn law_corpus_entries_in_order(a: ArchiveSpec, indices: Seq<u64>, j: nat)
    requires
        j <= a.entries@.len(),
    ensures
        corpus_behind(a, indices, actions_of(a, indices, j)) == corpus_from(a, j as int),
        j < a.entries@.len() ==> {
            let n = actions_of(a, indices, j);
            let edits = entry_edits(a.entries@[j as int], indices[j as int]);
            &&& corpus_behind(a, indices, n).1 == ActionView::Mirror(j as usize)
            &&& corpus_behind(a, indices, n + 1).1 == ActionView::Add(j as usize)
            &&& forall|k: nat|
                k < edits.len() ==> #[trigger] corpus_behind(a, indices, n + 2 + k).1
                    == ActionView::Edit(edits[k as int])
        },
    decreases j,
{
    assert(a.entries.len() <= usize::MAX);
    if j > 0 {
        let i = (j - 1) as usize;
        law_corpus_entries_in_order(a, indices, i as nat);
        let n = actions_of(a, indices, i as nat);
        let edits = entry_edits(a.entries@[i as int], indices[i as int]);
        assert(corpus_behind(a, indices, n + 1).0 == CorpusStage::Add(i));
        assert(corpus_behind(a, indices, n + 2) == entry_from(
            a,
            i as int,
            indices[i as int],
            0,
        ));
        lemma_entry_edits_in_order(a, indices, i, n + 2, edits.len());
    }
    if j < a.entries@.len() {
        let n = actions_of(a, indices, j);
        let edits = entry_edits(a.entries@[j as int], indices[j as int]);
        assert(corpus_behind(a, indices, n + 1).0 == CorpusStage::Add(j as usize));
        assert(corpus_behind(a, indices, n + 2) == entry_from(
            a,
            j as int,
            indices[j as int],
            0,
        ));
        assert forall|k: nat| k < edits.len() implies #[trigger] corpus_behind(
            a,
            indices,
            n + 2 + k,
        ).1 == ActionView::Edit(edits[k as int]) by {
            lemma_entry_edits_in_order(a, indices, j as usize, n + 2, k);
        }
    }
}

proof fn lemma_archive_edits_in_order(a: ArchiveSpec, indices: Seq<u64>, n: nat, k: nat)
    requires
        corpus_behind(a, indices, n) == archive_from(a, 0),
        k <= archive_edits(a).len(),
    ensures
        corpus_behind(a, indices, n + k) == archive_from(a, k as int),
    decreases k,
{
    if k > 0 {
        lemma_archive_edits_in_order(a, indices, n, (k - 1) as nat);
        assert((n + k - 1) as nat == n + (k - 1) as nat);
    }
}

/// Where nothing fails, the whole archive is edited behind its entries, once by
/// each of its edits, then closed once, and the result is good.
pub proof fn law_corpus_closed_last(a: ArchiveSpec, indices: Seq<u64>)
    ensures
        ({
            let n = actions_of(a, indices, a.entries@.len());
            let m = archive_edits(a).len();
            &&& forall|k: nat|
                k < m ==> #[trigger] corpus_behind(a, indices, n + k).1 == ActionView::Edit(
                    archive_edits(a)[k as int],
                )
            &&& corpus_behind(a, indices, n + m).1 == ActionView::Close
            &&& corpus_behind(a, indices, n + m + 1) == (
                CorpusStage::Over,
                ActionView::Finish(None),
            )
        }),
{
    let n = actions_of(a, indices, a.entries@.len());
    let m = archive_edits(a).len();
    law_corpus_entries_in_order(a, indices, a.entries@.len());
    assert forall|k: nat| k < m implies #[trigger] corpus_behind(a, indices, n + k).1
        == ActionView::Edit(archive_edits(a)[k as int]) by {
        lemma_archive_edits_in_order(a, indices, n, k);
    }
    lemma_archive_edits_in_order(a, indices, n, m);
    assert(corpus_behind(a, indices, n + m).0 == CorpusStage::Close);
    assert((n + m + 1 - 1) as nat == n + m);
}

} // verus!
