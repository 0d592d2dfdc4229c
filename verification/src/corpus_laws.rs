//! What holds of archives that are built byte by byte, read as a ZIP reader does.
//!
//! A law here speaks of a call: of what was handed in, and of what came back.

use crate::checksum::crc32_of;
use crate::corpus::{
    central_header, custom_extra, end_record, extra_fields_archive, local_header,
    make_descriptor_archive, zip64_archive, zip64_end_record, zip64_extra, zip64_locator,
    CentralHeader, LocalHeader,
};
use crate::le::{le16, le32, le64};
use vstd::prelude::*;

verus! {

/// The number that two bytes at a place stand for.
pub open spec fn two_at(b: Seq<u8>, i: int) -> int {
    b[i] + 0x100 * b[i + 1]
}

/// The number that four bytes at a place stand for.
pub open spec fn four_at(b: Seq<u8>, i: int) -> int {
    b[i] + 0x100 * b[i + 1] + 0x1_0000 * b[i + 2] + 0x100_0000 * b[i + 3]
}

proof fn lemma_two(x: u16)
    ensures
        le16(x).len() == 2,
        two_at(le16(x), 0) == x,
{
    assert((x as u8) + 0x100 * ((x >> 8) as u8) == x) by (bit_vector);
}

proof fn lemma_four(x: u32)
    ensures
        le32(x).len() == 4,
        four_at(le32(x), 0) == x,
{
    assert((x as u8) + 0x100 * ((x >> 8) as u8) + 0x1_0000 * ((x >> 16) as u8) + 0x100_0000 * ((x
        >> 24) as u8) == x) by (bit_vector);
}

/// Whether a local header with these values stands at the start of some bytes, with the
/// name and the extra fields behind it.
pub open spec fn local_header_at(b: Seq<u8>, h: LocalHeader) -> bool {
    let n = h.name.len() as int;
    &&& four_at(b, 0) == 0x0403_4b50
    &&& two_at(b, 4) == h.version
    &&& two_at(b, 6) == h.flags
    &&& two_at(b, 8) == h.method
    &&& four_at(b, 10) == 0
    &&& four_at(b, 14) == h.crc
    &&& four_at(b, 18) == h.compressed
    &&& four_at(b, 22) == h.size
    &&& two_at(b, 26) == n
    &&& two_at(b, 28) == h.extra.len()
    &&& b.subrange(30, 30 + n) == h.name
    &&& b.subrange(30 + n, 30 + n + h.extra.len()) == h.extra
}

/// A local header has its values where a reader looks for them.
pub proof fn law_local_header(h: LocalHeader)
    requires
        h.name.len() <= 0xffff,
        h.extra.len() <= 0xffff,
    ensures
        local_header(h).len() == 30 + h.name.len() + h.extra.len(),
        local_header_at(local_header(h), h),
{
    lemma_two(h.version);
    lemma_two(h.flags);
    lemma_two(h.method);
    lemma_two(h.name.len() as u16);
    lemma_two(h.extra.len() as u16);
    lemma_four(h.crc);
    lemma_four(h.compressed);
    lemma_four(h.size);
    lemma_four(0);
    let b = local_header(h);
    let n = h.name.len() as int;
    assert(b.subrange(30, 30 + n) =~= h.name);
    assert(b.subrange(30 + n, 30 + n + h.extra.len()) =~= h.extra);
}

/// Whether a central header with these values stands at the start of some bytes, with
/// the name, the extra fields and the comment behind it.
pub open spec fn central_header_at(b: Seq<u8>, h: CentralHeader) -> bool {
    let n = h.local.name.len() as int;
    let x = h.local.extra.len() as int;
    &&& four_at(b, 0) == 0x0201_4b50
    &&& two_at(b, 4) == h.version_made
    &&& two_at(b, 6) == h.local.version
    &&& two_at(b, 8) == h.local.flags
    &&& two_at(b, 10) == h.local.method
    &&& four_at(b, 12) == 0
    &&& four_at(b, 16) == h.local.crc
    &&& four_at(b, 20) == h.local.compressed
    &&& four_at(b, 24) == h.local.size
    &&& two_at(b, 28) == n
    &&& two_at(b, 30) == x
    &&& two_at(b, 32) == h.comment.len()
    &&& four_at(b, 34) == 0
    &&& four_at(b, 38) == 0
    &&& four_at(b, 42) == h.offset
    &&& b.subrange(46, 46 + n) == h.local.name
    &&& b.subrange(46 + n, 46 + n + x) == h.local.extra
    &&& b.subrange(46 + n + x, 46 + n + x + h.comment.len()) == h.comment
}

/// A central header has its values where a reader looks for them.
pub proof fn law_central_header(h: CentralHeader)
    requires
        h.local.name.len() <= 0xffff,
        h.local.extra.len() <= 0xffff,
        h.comment.len() <= 0xffff,
    ensures
        central_header(h).len() == 46 + h.local.name.len() + h.local.extra.len()
            + h.comment.len(),
        central_header_at(central_header(h), h),
{
    lemma_two(h.version_made);
    lemma_two(h.local.version);
    lemma_two(h.local.flags);
    lemma_two(h.local.method);
    lemma_two(h.local.name.len() as u16);
    lemma_two(h.local.extra.len() as u16);
    lemma_two(h.comment.len() as u16);
    lemma_two(0);
    lemma_four(0);
    lemma_four(h.local.crc);
    lemma_four(h.local.compressed);
    lemma_four(h.local.size);
    lemma_four(h.offset);
    let b = central_header(h);
    let n = h.local.name.len() as int;
    let x = h.local.extra.len() as int;
    assert(b.subrange(46, 46 + n) =~= h.local.name);
    assert(b.subrange(46 + n, 46 + n + x) =~= h.local.extra);
    assert(b.subrange(46 + n + x, 46 + n + x + h.comment.len()) =~= h.comment);
}

/// The end of the central directory says how many entries it has, how long it is and
/// where it stands.
pub proof fn law_end_record(entries: u16, size: u32, offset: u32)
    ensures
        ({
            let b = end_record(entries, size, offset);
            &&& b.len() == 22
            &&& four_at(b, 0) == 0x0605_4b50
            &&& two_at(b, 8) == entries
            &&& two_at(b, 10) == entries
            &&& four_at(b, 12) == size
            &&& four_at(b, 16) == offset
            &&& two_at(b, 20) == 0
        }),
{
    lemma_two(entries);
    lemma_two(0);
    lemma_four(size);
    lemma_four(offset);
}

spec fn descriptor(crc: u32, compressed: u32, size: u32) -> Seq<u8> {
    seq![0x50u8, 0x4B, 0x07, 0x08] + le32(crc) + le32(compressed) + le32(size)
}

proof fn lemma_descriptor(crc: u32, compressed: u32, size: u32)
    ensures
        ({
            let b = descriptor(crc, compressed, size);
            &&& b.len() == 16
            &&& four_at(b, 0) == 0x0807_4b50
            &&& four_at(b, 4) == crc
            &&& four_at(b, 8) == compressed
            &&& four_at(b, 12) == size
        }),
{
    lemma_four(crc);
    lemma_four(compressed);
    lemma_four(size);
}

proof fn lemma_parts(
    all: Seq<u8>,
    a: Seq<u8>,
    b: Seq<u8>,
    c: Seq<u8>,
    d: Seq<u8>,
    e: Seq<u8>,
)
    requires
        all == a + b + c + d + e,
    ensures
        ({
            let i = a.len() as int;
            let j = i + b.len();
            let k = j + c.len();
            let l = k + d.len();
            let m = l + e.len();
            &&& all.len() == m
            &&& all.subrange(0, i) == a
            &&& all.subrange(i, j) == b
            &&& all.subrange(j, k) == c
            &&& all.subrange(k, l) == d
            &&& all.subrange(l, m) == e
        }),
{
    let i = a.len() as int;
    let j = i + b.len();
    let k = j + c.len();
    let l = k + d.len();
    let m = l + e.len();
    assert(all.subrange(0, i) =~= a);
    assert(all.subrange(i, j) =~= b);
    assert(all.subrange(j, k) =~= c);
    assert(all.subrange(k, l) =~= d);
    assert(all.subrange(l, m) =~= e);
}

/// An archive with a data descriptor: the local header leaves the checksum and the
/// sizes out and says so; they stand behind the data, and in the central directory,
/// which the end of the archive finds.
pub proof fn law_descriptor_archive(name: &[u8], content: &[u8], packed: &[u8], r: Vec<u8>)
    requires
        name@.len() <= 0xffff,
        content@.len() <= 0xffff_ffff,
        name@.len() + packed@.len() + 46 <= 0xffff_ffff,
        call_ensures(make_descriptor_archive, (name, content, packed), r),
    ensures
        ({
            let n = name@.len() as int;
            let d = 30 + n + packed@.len();
            let c = d + 16;
            let e = c + 46 + n;
            let none = Seq::<u8>::empty();
            let h = LocalHeader {
                version: 20,
                flags: 8,
                method: 8,
                crc: 0,
                compressed: 0,
                size: 0,
                name: name@,
                extra: none,
            };
            &&& r@.len() == e + 22
            &&& local_header_at(r@.subrange(0, 30 + n), h)
            &&& r@.subrange(30 + n, d) == packed@
            &&& four_at(r@.subrange(d, c), 0) == 0x0807_4b50
            &&& four_at(r@.subrange(d, c), 4) == crc32_of(content@)
            &&& four_at(r@.subrange(d, c), 8) == packed@.len()
            &&& four_at(r@.subrange(d, c), 12) == content@.len()
            &&& central_header_at(
                r@.subrange(c, e),
                CentralHeader {
                    version_made: 0x0314,
                    local: LocalHeader {
                        crc: crc32_of(content@),
                        compressed: packed@.len() as u32,
                        size: content@.len() as u32,
                        ..h
                    },
                    comment: none,
                    offset: 0,
                },
            )
            &&& four_at(r@.subrange(e, e + 22), 0) == 0x0605_4b50
            &&& two_at(r@.subrange(e, e + 22), 10) == 1
            &&& four_at(r@.subrange(e, e + 22), 12) == e - c
            &&& four_at(r@.subrange(e, e + 22), 16) == c
        }),
{
    let n = name@.len() as int;
    let d = 30 + n + packed@.len();
    let c = d + 16;
    let e = c + 46 + n;
    let none = Seq::<u8>::empty();
    let before = LocalHeader {
        version: 20,
        flags: 8,
        method: 8,
        crc: 0,
        compressed: 0,
        size: 0,
        name: name@,
        extra: none,
    };
    let h = LocalHeader {
        crc: crc32_of(content@),
        compressed: packed@.len() as u32,
        size: content@.len() as u32,
        ..before
    };
    let x = CentralHeader { version_made: 0x0314, local: h, comment: none, offset: 0 };
    law_local_header(before);
    law_central_header(x);
    law_end_record(1, (e - c) as u32, c as u32);
    let mark = descriptor(h.crc, h.compressed, h.size);
    lemma_descriptor(h.crc, h.compressed, h.size);
    lemma_parts(
        r@,
        local_header(before),
        packed@,
        mark,
        central_header(x),
        end_record(1, (e - c) as u32, c as u32),
    );
}

/// The number that eight bytes at a place stand for.
pub open spec fn eight_at(b: Seq<u8>, i: int) -> int {
    four_at(b, i) + 0x1_0000_0000 * four_at(b, i + 4)
}

proof fn lemma_eight(x: u64)
    ensures
        le64(x).len() == 8,
        eight_at(le64(x), 0) == x,
{
    assert((x as u8) + 0x100 * ((x >> 8) as u8) + 0x1_0000 * ((x >> 16) as u8) + 0x100_0000 * ((x
        >> 24) as u8) + 0x1_0000_0000 * (((x >> 32) as u8) + 0x100 * ((x >> 40) as u8) + 0x1_0000
        * ((x >> 48) as u8) + 0x100_0000 * ((x >> 56) as u8)) == x) by (bit_vector);
}

proof fn lemma_zip64_parts(size: u64, length: u64, offset: u64, place: u64)
    ensures
        ({
            let x = zip64_extra(size);
            &&& x.len() == 20
            &&& two_at(x, 0) == 1
            &&& two_at(x, 2) == 24
            &&& eight_at(x, 4) == size
            &&& eight_at(x, 12) == size
        }),
        ({
            let z = zip64_end_record(length, offset);
            &&& z.len() == 56
            &&& four_at(z, 0) == 0x0606_4b50
            &&& eight_at(z, 4) == 44
            &&& two_at(z, 14) == 45
            &&& eight_at(z, 24) == 1
            &&& eight_at(z, 32) == 1
            &&& eight_at(z, 40) == length
            &&& eight_at(z, 48) == offset
        }),
        ({
            let l = zip64_locator(place);
            &&& l.len() == 20
            &&& four_at(l, 0) == 0x0706_4b50
            &&& four_at(l, 4) == 0
            &&& eight_at(l, 8) == place
            &&& four_at(l, 16) == 1
        }),
{
    lemma_two(1);
    lemma_two(24);
    lemma_two(0);
    lemma_two(45);
    lemma_four(0);
    lemma_four(1);
    lemma_eight(size);
    lemma_eight(44);
    lemma_eight(1);
    lemma_eight(length);
    lemma_eight(offset);
    lemma_eight(place);
}

proof fn lemma_archive(
    all: Seq<u8>,
    a: Seq<u8>,
    b: Seq<u8>,
    c: Seq<u8>,
    d: Seq<u8>,
    e: Seq<u8>,
    f: Seq<u8>,
    at: int,
)
    requires
        all == a + b + c + d + e + f,
        0 <= at <= a.len(),
    ensures
        ({
            let i = a.len() as int;
            let j = i + b.len();
            let k = j + c.len();
            let l = k + d.len();
            let m = l + e.len();
            let n = m + f.len();
            &&& all.len() == n
            &&& all.subrange(0, i) == a
            &&& all.subrange(at, i) == a.subrange(at, i)
            &&& all.subrange(i, j) == b
            &&& all.subrange(j, k) == c
            &&& all.subrange(k, l) == d
            &&& all.subrange(l, m) == e
            &&& all.subrange(m, n) == f
        }),
{
    let i = a.len() as int;
    let j = i + b.len();
    let k = j + c.len();
    let l = k + d.len();
    let m = l + e.len();
    let n = m + f.len();
    assert(all.subrange(0, i) =~= a);
    assert(all.subrange(at, i) =~= a.subrange(at, i));
    assert(all.subrange(i, j) =~= b);
    assert(all.subrange(j, k) =~= c);
    assert(all.subrange(k, l) =~= d);
    assert(all.subrange(l, m) =~= e);
    assert(all.subrange(m, n) =~= f);
}

/// Whether some bytes are an archive of one stored entry with Zip64 records: the headers
/// leave the sizes to their extra field, and the end of the archive leaves its numbers
/// to a record of its own, which a locator before the end finds.
pub open spec fn is_zip64_archive(r: Seq<u8>, name: Seq<u8>, content: Seq<u8>) -> bool {
    let n = name.len() as int;
    let d = 50 + n;
    let c = d + content.len();
    let z = c + 66 + n;
    let l = z + 56;
    let e = l + 20;
    let x = r.subrange(30 + n, d);
    let h = LocalHeader {
        version: 45,
        flags: 0,
        method: 0,
        crc: crc32_of(content),
        compressed: 0xffff_ffff,
        size: 0xffff_ffff,
        name,
        extra: x,
    };
    &&& r.len() == e + 22
    &&& local_header_at(r.subrange(0, d), h)
    &&& two_at(x, 0) == 1
    &&& two_at(x, 2) == 24
    &&& eight_at(x, 4) == content.len()
    &&& eight_at(x, 12) == content.len()
    &&& r.subrange(d, c) == content
    &&& central_header_at(
        r.subrange(c, z),
        CentralHeader {
            version_made: 0x032d,
            local: h,
            comment: Seq::empty(),
            offset: 0xffff_ffff,
        },
    )
    &&& four_at(r.subrange(z, l), 0) == 0x0606_4b50
    &&& eight_at(r.subrange(z, l), 32) == 1
    &&& eight_at(r.subrange(z, l), 40) == z - c
    &&& eight_at(r.subrange(z, l), 48) == c
    &&& four_at(r.subrange(l, e), 0) == 0x0706_4b50
    &&& eight_at(r.subrange(l, e), 8) == z
    &&& four_at(r.subrange(e, e + 22), 0) == 0x0605_4b50
    &&& two_at(r.subrange(e, e + 22), 10) == 0xffff
    &&& four_at(r.subrange(e, e + 22), 12) == 0xffff_ffff
    &&& four_at(r.subrange(e, e + 22), 16) == 0xffff_ffff
}

proof fn lemma_zip64_archive(
    all: Seq<u8>,
    name: Seq<u8>,
    content: Seq<u8>,
    x: Seq<u8>,
    front: Seq<u8>,
    central: Seq<u8>,
    record: Seq<u8>,
    locator: Seq<u8>,
    end: Seq<u8>,
)
    requires
        ({
            let n = name.len() as int;
            let c = 50 + n + content.len();
            let z = c + 66 + n;
            let h = LocalHeader {
                version: 45,
                flags: 0,
                method: 0,
                crc: crc32_of(content),
                compressed: 0xffff_ffff,
                size: 0xffff_ffff,
                name,
                extra: x,
            };
            let g = CentralHeader {
                version_made: 0x032d,
                local: h,
                comment: Seq::empty(),
                offset: 0xffff_ffff,
            };
            &&& all == front + content + central + record + locator + end
            &&& x.len() == 20
            &&& two_at(x, 0) == 1
            &&& two_at(x, 2) == 24
            &&& eight_at(x, 4) == content.len()
            &&& eight_at(x, 12) == content.len()
            &&& front.len() == 50 + n
            &&& local_header_at(front, h)
            &&& central.len() == 66 + n
            &&& central_header_at(central, g)
            &&& record.len() == 56
            &&& four_at(record, 0) == 0x0606_4b50
            &&& eight_at(record, 32) == 1
            &&& eight_at(record, 40) == z - c
            &&& eight_at(record, 48) == c
            &&& locator.len() == 20
            &&& four_at(locator, 0) == 0x0706_4b50
            &&& eight_at(locator, 8) == z
            &&& end.len() == 22
            &&& four_at(end, 0) == 0x0605_4b50
            &&& two_at(end, 10) == 0xffff
            &&& four_at(end, 12) == 0xffff_ffff
            &&& four_at(end, 16) == 0xffff_ffff
        }),
    ensures
        is_zip64_archive(all, name, content),
{
    lemma_archive(all, front, content, central, record, locator, end, 30 + name.len() as int);
}

/// The archive with Zip64 records is one.
pub proof fn law_zip64_archive(name: Seq<u8>, content: Seq<u8>)
    requires
        name.len() <= 0xffff,
        content.len() <= 0xffff_ffff,
    ensures
        is_zip64_archive(zip64_archive(name, content), name, content),
{
    let n = name.len() as int;
    let c = 50 + n + content.len();
    let z = c + 66 + n;
    let x = zip64_extra(content.len() as u64);
    lemma_zip64_parts(content.len() as u64, (z - c) as u64, c as u64, z as u64);
    let h = LocalHeader {
        version: 45,
        flags: 0,
        method: 0,
        crc: crc32_of(content),
        compressed: 0xffff_ffff,
        size: 0xffff_ffff,
        name,
        extra: x,
    };
    let g = CentralHeader {
        version_made: 0x032d,
        local: h,
        comment: Seq::empty(),
        offset: 0xffff_ffff,
    };
    law_local_header(h);
    law_central_header(g);
    law_end_record(0xffff, 0xffff_ffff, 0xffff_ffff);
    lemma_zip64_archive(
        zip64_archive(name, content),
        name,
        content,
        x,
        local_header(h),
        central_header(g),
        zip64_end_record((z - c) as u64, c as u64),
        zip64_locator(z as u64),
        end_record(0xffff, 0xffff_ffff, 0xffff_ffff),
    );
}

/// Whether some bytes are an archive of one stored entry with an extra field: it stands
/// in both headers, and the comment of the entry in the central directory, which the end
/// of the archive finds.
pub open spec fn is_extra_fields_archive(
    r: Seq<u8>,
    name: Seq<u8>,
    content: Seq<u8>,
    comment: Seq<u8>,
) -> bool {
    let n = name.len() as int;
    let d = 38 + n;
    let c = d + content.len();
    let e = c + 54 + n + comment.len();
    let x = r.subrange(30 + n, d);
    let h = LocalHeader {
        version: 20,
        flags: 0,
        method: 0,
        crc: crc32_of(content),
        compressed: content.len() as u32,
        size: content.len() as u32,
        name,
        extra: x,
    };
    &&& r.len() == e + 22
    &&& local_header_at(r.subrange(0, d), h)
    &&& two_at(x, 0) == 0xcafe
    &&& two_at(x, 2) == 4
    &&& four_at(x, 4) == 0xefbe_adde
    &&& r.subrange(d, c) == content
    &&& central_header_at(
        r.subrange(c, e),
        CentralHeader { version_made: 0x0314, local: h, comment, offset: 0 },
    )
    &&& four_at(r.subrange(e, e + 22), 0) == 0x0605_4b50
    &&& two_at(r.subrange(e, e + 22), 10) == 1
    &&& four_at(r.subrange(e, e + 22), 12) == e - c
    &&& four_at(r.subrange(e, e + 22), 16) == c
}

proof fn lemma_extra_fields_archive(
    all: Seq<u8>,
    name: Seq<u8>,
    content: Seq<u8>,
    comment: Seq<u8>,
    x: Seq<u8>,
    front: Seq<u8>,
    central: Seq<u8>,
    end: Seq<u8>,
)
    requires
        ({
            let n = name.len() as int;
            let c = 38 + n + content.len();
            let e = c + 54 + n + comment.len();
            let h = LocalHeader {
                version: 20,
                flags: 0,
                method: 0,
                crc: crc32_of(content),
                compressed: content.len() as u32,
                size: content.len() as u32,
                name,
                extra: x,
            };
            let g = CentralHeader { version_made: 0x0314, local: h, comment, offset: 0 };
            &&& all == front + content + central + end
            &&& x.len() == 8
            &&& two_at(x, 0) == 0xcafe
            &&& two_at(x, 2) == 4
            &&& four_at(x, 4) == 0xefbe_adde
            &&& front.len() == 38 + n
            &&& local_header_at(front, h)
            &&& central.len() == 54 + n + comment.len()
            &&& central_header_at(central, g)
            &&& end.len() == 22
            &&& four_at(end, 0) == 0x0605_4b50
            &&& two_at(end, 10) == 1
            &&& four_at(end, 12) == e - c
            &&& four_at(end, 16) == c
        }),
    ensures
        is_extra_fields_archive(all, name, content, comment),
{
    let none = Seq::<u8>::empty();
    assert(all =~= front + content + central + none + none + end);
    lemma_archive(all, front, content, central, none, none, end, 30 + name.len() as int);
}

/// The archive with extra fields is one.
pub proof fn law_extra_fields_archive(name: Seq<u8>, content: Seq<u8>, comment: Seq<u8>)
    requires
        name.len() <= 0xffff,
        comment.len() <= 0xffff,
        38 + name.len() + content.len() <= 0xffff_ffff,
    ensures
        is_extra_fields_archive(
            extra_fields_archive(name, content, comment),
            name,
            content,
            comment,
        ),
{
    let n = name.len() as int;
    let c = 38 + n + content.len();
    let e = c + 54 + n + comment.len();
    lemma_two(0xcafe);
    lemma_two(4);
    let x = custom_extra();
    let h = LocalHeader {
        version: 20,
        flags: 0,
        method: 0,
        crc: crc32_of(content),
        compressed: content.len() as u32,
        size: content.len() as u32,
        name,
        extra: x,
    };
    let g = CentralHeader { version_made: 0x0314, local: h, comment, offset: 0 };
    law_local_header(h);
    law_central_header(g);
    law_end_record(1, (e - c) as u32, c as u32);
    lemma_extra_fields_archive(
        extra_fields_archive(name, content, comment),
        name,
        content,
        comment,
        x,
        local_header(h),
        central_header(g),
        end_record(1, (e - c) as u32, c as u32),
    );
}

} // verus!
