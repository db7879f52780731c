use vstd::prelude::*;

use crate::bytes::{
    concat_bytes, find_last_subslice_starting_before, min_int, occurs_at, occurs_at_exec,
    starts_with,
};
use crate::error::{is_invalid_format, ClipError};

verus! {

/// How many bytes the backward scans examine per window.
pub const SCAN_BUFFER_SIZE: usize = 65536;

/// The size of the fixed header at the start of an SQLite database file.
pub const SQLITE_DATABASE_HEADER_SIZE: usize = 100;

/// `CSFCHUNK`, the signature at the start of every `.clip` container.
pub open spec fn clip_signature() -> Seq<u8> {
    seq![0x43u8, 0x53u8, 0x46u8, 0x43u8, 0x48u8, 0x55u8, 0x4Eu8, 0x4Bu8]
}

/// `CHNKSQLi`, the tag of the chunk that holds the SQLite database.
pub open spec fn sqlite_chunk_tag() -> Seq<u8> {
    seq![0x43u8, 0x48u8, 0x4Eu8, 0x4Bu8, 0x53u8, 0x51u8, 0x4Cu8, 0x69u8]
}

/// `CHNKFoot`, the tag of the chunk that closes the container.
pub open spec fn foot_chunk_tag() -> Seq<u8> {
    seq![0x43u8, 0x48u8, 0x4Eu8, 0x4Bu8, 0x46u8, 0x6Fu8, 0x6Fu8, 0x74u8]
}

/// `SQLite format 3\0`, the first sixteen bytes of an SQLite database file.
pub open spec fn sqlite_header() -> Seq<u8> {
    seq![
        0x53u8, 0x51u8, 0x4Cu8, 0x69u8, 0x74u8, 0x65u8, 0x20u8, 0x66u8,
        0x6Fu8, 0x72u8, 0x6Du8, 0x61u8, 0x74u8, 0x20u8, 0x33u8, 0x00u8,
    ]
}

fn clip_signature_bytes() -> (res: [u8; 8])
    ensures
        res@ == clip_signature(),
{
    let res: [u8; 8] = [0x43, 0x53, 0x46, 0x43, 0x48, 0x55, 0x4E, 0x4B];
    assert(res@ =~= clip_signature());
    res
}

fn sqlite_chunk_tag_bytes() -> (res: [u8; 8])
    ensures
        res@ == sqlite_chunk_tag(),
{
    let res: [u8; 8] = [0x43, 0x48, 0x4E, 0x4B, 0x53, 0x51, 0x4C, 0x69];
    assert(res@ =~= sqlite_chunk_tag());
    res
}

fn foot_chunk_tag_bytes() -> (res: [u8; 8])
    ensures
        res@ == foot_chunk_tag(),
{
    let res: [u8; 8] = [0x43, 0x48, 0x4E, 0x4B, 0x46, 0x6F, 0x6F, 0x74];
    assert(res@ =~= foot_chunk_tag());
    res
}

fn sqlite_header_bytes() -> (res: [u8; 16])
    ensures
        res@ == sqlite_header(),
{
    let res: [u8; 16] = [
        0x53, 0x51, 0x4C, 0x69, 0x74, 0x65, 0x20, 0x66, 0x6F, 0x72, 0x6D, 0x61, 0x74, 0x20, 0x33,
        0x00,
    ];
    assert(res@ =~= sqlite_header());
    res
}

/// The unsigned integer that a byte sequence encodes in big-endian order.
pub open spec fn be_value(s: Seq<u8>) -> nat
    decreases s.len(),
{
    if s.len() == 0 {
        0
    } else {
        be_value(s.drop_last()) * 256 + (s.last() as nat)
    }
}

/// `256` to the power `n`.
pub open spec fn pow256(n: nat) -> nat
    decreases n,
{
    if n == 0 {
        1
    } else {
        256 * pow256((n - 1) as nat)
    }
}

/// A number is a power of two.
pub open spec fn is_power_of_two(n: nat) -> bool
    decreases n,
{
    if n == 0 {
        false
    } else if n == 1 {
        true
    } else {
        n % 2 == 0 && is_power_of_two(n / 2)
    }
}

/// A page size that an SQLite header may declare: 1 (standing for 65536) or a power of two
/// from 512 to 32768.
pub open spec fn spec_valid_page_size(page_size: nat) -> bool {
    page_size == 1 || (512 <= page_size <= 32768 && is_power_of_two(page_size))
}

/// Byte range of the embedded SQLite database inside the container.
#[derive(Debug, Clone, Copy, PartialEq, Eq, Structural)]
pub struct ChunkRange {
    pub offset: usize,
    pub size: usize,
}

/// What the chunk header candidate at an offset turns out to be.
pub enum HeaderCheck {
    /// A well-formed SQLite chunk whose payload is the given range.
    Accepted(ChunkRange),
    /// Not an SQLite chunk header.
    Rejected,
    /// The sixteen header bytes run past the end of the input.
    ReadPastEnd,
}

/// What a search for the embedded database turns up.
pub enum ChunkSearch {
    /// The database occupies the given range.
    Found(ChunkRange),
    /// A candidate header ran past the end of the input.
    ReadPastEnd,
    /// No database was found.
    Absent,
}

/// The verdict on the `CHNKSQLi` candidate at offset `o` of `d`: the tag, a big-endian 64-bit
/// payload size, the payload inside the input, and, where eight more bytes follow the payload,
/// a `CHNKFoot` tag there.
pub open spec fn spec_chunk_header_at(d: Seq<u8>, o: int) -> HeaderCheck {
    if o + 16 > d.len() {
        HeaderCheck::ReadPastEnd
    } else if d.subrange(o, o + 8) != sqlite_chunk_tag() {
        HeaderCheck::Rejected
    } else {
        let size = be_value(d.subrange(o + 8, o + 16));
        let payload_end = o + 16 + size;
        if payload_end > d.len() {
            HeaderCheck::Rejected
        } else if payload_end + 8 <= d.len() && d.subrange(payload_end, payload_end + 8)
            != foot_chunk_tag() {
            HeaderCheck::Rejected
        } else {
            HeaderCheck::Accepted(ChunkRange { offset: (o + 16) as usize, size: size as usize })
        }
    }
}

/// The decisive `CHNKSQLi` candidate among the offsets below `end`: the highest one whose
/// header is accepted or runs past the end of the input.
pub open spec fn spec_chunk_scan_below(d: Seq<u8>, end: int) -> ChunkSearch
    decreases end,
{
    if end <= 0 {
        ChunkSearch::Absent
    } else if occurs_at(d, sqlite_chunk_tag(), end - 1) {
        match spec_chunk_header_at(d, end - 1) {
            HeaderCheck::Accepted(r) => ChunkSearch::Found(r),
            HeaderCheck::ReadPastEnd => ChunkSearch::ReadPastEnd,
            HeaderCheck::Rejected => spec_chunk_scan_below(d, end - 1),
        }
    } else {
        spec_chunk_scan_below(d, end - 1)
    }
}

/// A plausible SQLite database header starts at offset `o` of `d`: the hundred header bytes
/// are inside the input, begin with `SQLite format 3\0`, and declare a valid page size, file
/// format versions 1 or 2 and the fixed payload fractions 64, 32 and 32.
pub open spec fn spec_valid_sqlite_header_at(d: Seq<u8>, o: int) -> bool {
    &&& 0 <= o
    &&& o + 100 <= d.len()
    &&& d.subrange(o, o + 16) == sqlite_header()
    &&& spec_valid_page_size((d[o + 16] * 256 + d[o + 17]) as nat)
    &&& (d[o + 18] == 1 || d[o + 18] == 2)
    &&& (d[o + 19] == 1 || d[o + 19] == 2)
    &&& d[o + 21] == 64
    &&& d[o + 22] == 32
    &&& d[o + 23] == 32
}

/// The highest offset below `end` at which a plausible SQLite database header starts.
pub open spec fn spec_sqlite_scan_below(d: Seq<u8>, end: int) -> Option<int>
    decreases end,
{
    if end <= 0 {
        None
    } else if occurs_at(d, sqlite_header(), end - 1) && spec_valid_sqlite_header_at(d, end - 1) {
        Some(end - 1)
    } else {
        spec_sqlite_scan_below(d, end - 1)
    }
}

/// Where the embedded database lies: the decisive `CHNKSQLi` chunk when there is one, else
/// everything from the last plausible SQLite header to the end of the input.
pub open spec fn spec_locate_database(d: Seq<u8>) -> ChunkSearch {
    match spec_chunk_scan_below(d, d.len() as int) {
        ChunkSearch::Absent => match spec_sqlite_scan_below(d, d.len() as int) {
            Some(o) => ChunkSearch::Found(ChunkRange { offset: o as usize, size: (d.len() - o) as usize }),
            None => ChunkSearch::Absent,
        },
        other => other,
    }
}

/// Skipping offsets in `[a, b)` where no `CHNKSQLi` tag occurs leaves the chunk scan unchanged.
proof fn lemma_chunk_scan_skip(d: Seq<u8>, a: int, b: int)
    requires
        0 <= a <= b,
        forall|o: int| a <= o < b ==> !occurs_at(d, sqlite_chunk_tag(), o),
    ensures
        spec_chunk_scan_below(d, b) == spec_chunk_scan_below(d, a),
    decreases b - a,
{
    if a < b {
        lemma_chunk_scan_skip(d, a, b - 1);
    }
}

/// Skipping offsets in `[a, b)` where no SQLite header occurs leaves the header scan unchanged.
proof fn lemma_sqlite_scan_skip(d: Seq<u8>, a: int, b: int)
    requires
        0 <= a <= b,
        forall|o: int| a <= o < b ==> !occurs_at(d, sqlite_header(), o),
    ensures
        spec_sqlite_scan_below(d, b) == spec_sqlite_scan_below(d, a),
    decreases b - a,
{
    if a < b {
        lemma_sqlite_scan_skip(d, a, b - 1);
    }
}

/// A window `search` that holds `d[start..]` up to `needle.len() - 1` bytes beyond `position`
/// sees exactly the occurrences of `needle` that start in `[start, position)`.
proof fn lemma_window_occurs(d: Seq<u8>, search: Seq<u8>, needle: Seq<u8>, start: int, position: int, i: int)
    requires
        needle.len() > 0,
        0 <= start <= position <= d.len(),
        search == d.subrange(start, min_int(position + needle.len() - 1, d.len() as int)),
        0 <= i < position - start,
    ensures
        occurs_at(search, needle, i) == occurs_at(d, needle, start + i),
{
    let n = needle.len() as int;
    if start + i + n <= d.len() {
        assert(search.subrange(i, i + n) =~= d.subrange(start + i, start + i + n));
    }
}

/// The candidate scan never reports a range that reaches past the input.
proof fn lemma_chunk_scan_in_bounds(d: Seq<u8>, end: int)
    requires
        0 <= end,
    ensures
        spec_chunk_scan_below(d, end) matches ChunkSearch::Found(r) ==> r.offset + r.size <= d.len(),
    decreases end,
{
    if end > 0 {
        lemma_chunk_scan_in_bounds(d, end - 1);
    }
}

/// The header scan only reports offsets inside the input.
proof fn lemma_sqlite_scan_in_bounds(d: Seq<u8>, end: int)
    requires
        0 <= end,
    ensures
        spec_sqlite_scan_below(d, end) matches Some(o) ==> 0 <= o < end && o + 100 <= d.len(),
    decreases end,
{
    if end > 0 {
        lemma_sqlite_scan_in_bounds(d, end - 1);
    }
}

/// The database range that `spec_locate_database` reports lies inside the input.
pub proof fn lemma_located_range_in_bounds(d: Seq<u8>)
    ensures
        spec_locate_database(d) matches ChunkSearch::Found(r) ==> r.offset + r.size <= d.len(),
{
    lemma_chunk_scan_in_bounds(d, d.len() as int);
    lemma_sqlite_scan_in_bounds(d, d.len() as int);
}

/// A big-endian byte sequence encodes a number below `256` to the power of its length.
proof fn lemma_be_value_bound(s: Seq<u8>)
    ensures
        be_value(s) < pow256(s.len()),
    decreases s.len(),
{
    if s.len() > 0 {
        lemma_be_value_bound(s.drop_last());
        let v = be_value(s.drop_last());
        let p = pow256(s.drop_last().len());
        let b = s.last();
        assert(v * 256 + b < 256 * p) by (nonlinear_arith)
            requires
                v < p,
                b < 256,
        ;
    }
}

/// Reads `len` bytes of `data`, starting at `offset`, with `std::io::Read::read_exact` on the
/// byte slice `&data[offset..]`.
///
/// std documents that `read_exact` either fills the whole buffer or fails with an error of kind
/// `UnexpectedEof` when the source ends first, and that reading a byte slice copies from it; so
/// the call succeeds exactly when `len` bytes remain, and then yields them. The allocation of
/// the buffer is bounded by `requires`.
#[verifier::external_body]
fn read_exact_at(data: &[u8], offset: usize, len: usize) -> (res: Result<Vec<u8>, std::io::Error>)
    requires
        offset <= data@.len(),
        len <= SCAN_BUFFER_SIZE,
    ensures
        res is Ok <==> offset + len <= data@.len(),
        res matches Ok(buf) ==> buf@ == data@.subrange(offset as int, offset + len),
{
    let mut buffer = vec![0u8; len];
    let mut source: &[u8] = &data[offset..];
    match std::io::Read::read_exact(&mut source, &mut buffer) {
        Ok(()) => Ok(buffer),
        Err(error) => Err(error),
    }
}

/// Decodes the eight bytes at `start` as a big-endian `u64`.
fn be_u64(bytes: &[u8], start: usize) -> (res: u64)
    requires
        start + 8 <= bytes@.len(),
    ensures
        res == be_value(bytes@.subrange(start as int, start + 8)),
{
    let mut value: u64 = 0;
    let mut i: usize = 0;
    while i < 8
        invariant
            start + 8 <= bytes@.len(),
            bytes@.len() == bytes.len(),
            0 <= i <= 8,
            value == be_value(bytes@.subrange(start as int, start + i)),
        decreases 8 - i,
    {
        let ghost prefix = bytes@.subrange(start as int, start + i);
        let ghost next = bytes@.subrange(start as int, start + i + 1);
        proof {
            lemma_be_value_bound(prefix);
            assert(pow256(i as nat) <= pow256(7)) by {
                reveal_with_fuel(pow256, 9);
            }
            assert(pow256(7) == 72057594037927936) by {
                reveal_with_fuel(pow256, 9);
            }
            assert(next.drop_last() =~= prefix);
        }
        let byte = bytes[start + i];
        assert(value * 256 + byte < 18446744073709551616) by (nonlinear_arith)
            requires
                value < 72057594037927936,
                byte < 256,
        ;
        value = value * 256 + byte as u64;
        i = i + 1;
    }
    value
}

/// Whether `page_size` is a page size that an SQLite header may declare.
pub fn is_valid_sqlite_page_size(page_size: u16) -> (res: bool)
    ensures
        res == spec_valid_page_size(page_size as nat),
{
    if page_size == 1 {
        return true;
    }
    if page_size < 512 || page_size > 32768 {
        return false;
    }
    let mut v: u16 = page_size;
    while v > 1 && v % 2 == 0
        invariant
            v > 0,
            is_power_of_two(v as nat) == is_power_of_two(page_size as nat),
        decreases v,
    {
        v = v / 2;
    }
    v == 1
}

/// `1` and the powers of two up to 32768 are the only powers of two up to 32768.
proof fn lemma_small_powers_of_two(n: nat)
    requires
        n <= 32768,
    ensures
        is_power_of_two(n) <==> (n == 1 || n == 2 || n == 4 || n == 8 || n == 16 || n == 32
            || n == 64 || n == 128 || n == 256 || n == 512 || n == 1024 || n == 2048 || n == 4096
            || n == 8192 || n == 16384 || n == 32768),
    decreases n,
{
    if n > 1 {
        lemma_small_powers_of_two(n / 2);
    }
}

/// The page sizes an SQLite header may declare are exactly 1 and 512, 1024, 2048, 4096, 8192,
/// 16384 and 32768.
pub proof fn law_valid_page_sizes(page_size: u16)
    ensures
        spec_valid_page_size(page_size as nat) <==> (page_size == 1 || page_size == 512
            || page_size == 1024 || page_size == 2048 || page_size == 4096 || page_size == 8192
            || page_size == 16384 || page_size == 32768),
{
    if page_size <= 32768 {
        lemma_small_powers_of_two(page_size as nat);
    }
}

/// Eight bytes read big-endian: the first byte is the most significant.
proof fn lemma_be_value_eight(s: Seq<u8>)
    requires
        s.len() == 8,
    ensures
        be_value(s) == s[0] * 0x100000000000000 + s[1] * 0x1000000000000 + s[2] * 0x10000000000
            + s[3] * 0x100000000 + s[4] * 0x1000000 + s[5] * 0x10000 + s[6] * 0x100 + s[7],
{
    let s0 = s.subrange(0, 0);
    let s1 = s.subrange(0, 1);
    let s2 = s.subrange(0, 2);
    let s3 = s.subrange(0, 3);
    let s4 = s.subrange(0, 4);
    let s5 = s.subrange(0, 5);
    let s6 = s.subrange(0, 6);
    let s7 = s.subrange(0, 7);
    assert(s1.drop_last() =~= s0);
    assert(s2.drop_last() =~= s1);
    assert(s3.drop_last() =~= s2);
    assert(s4.drop_last() =~= s3);
    assert(s5.drop_last() =~= s4);
    assert(s6.drop_last() =~= s5);
    assert(s7.drop_last() =~= s6);
    assert(s.drop_last() =~= s7);
    assert(be_value(s0) == 0);
    assert(be_value(s1) == s[0]);
    assert(be_value(s2) == s[0] * 0x100 + s[1]);
    assert(be_value(s3) == s[0] * 0x10000 + s[1] * 0x100 + s[2]);
    assert(be_value(s4) == s[0] * 0x1000000 + s[1] * 0x10000 + s[2] * 0x100 + s[3]);
    assert(be_value(s5) == s[0] * 0x100000000 + s[1] * 0x1000000 + s[2] * 0x10000 + s[3] * 0x100
        + s[4]);
    assert(be_value(s6) == s[0] * 0x10000000000 + s[1] * 0x100000000 + s[2] * 0x1000000 + s[3]
        * 0x10000 + s[4] * 0x100 + s[5]);
    assert(be_value(s7) == s[0] * 0x1000000000000 + s[1] * 0x10000000000 + s[2] * 0x100000000
        + s[3] * 0x1000000 + s[4] * 0x10000 + s[5] * 0x100 + s[6]);
}

/// `CHNKSQLi`, then the payload size `n` as the full eight-byte big-endian field, then `n`
/// payload bytes, then `CHNKFoot`: that is a well-formed SQLite chunk at offset `o`.
pub open spec fn is_well_formed_chunk_at(d: Seq<u8>, o: int, n: nat) -> bool {
    &&& 0 <= o
    &&& o + 24 + n <= d.len()
    &&& d.subrange(o, o + 8) == seq![0x43u8, 0x48u8, 0x4Eu8, 0x4Bu8, 0x53u8, 0x51u8, 0x4Cu8, 0x69u8]
    &&& n == d[o + 8] * 0x100000000000000 + d[o + 9] * 0x1000000000000 + d[o + 10] * 0x10000000000
        + d[o + 11] * 0x100000000 + d[o + 12] * 0x1000000 + d[o + 13] * 0x10000 + d[o + 14] * 0x100
        + d[o + 15]
    &&& d.subrange(o + 16 + n, o + 24 + n) == seq![
        0x43u8,
        0x48u8,
        0x4Eu8,
        0x4Bu8,
        0x46u8,
        0x6Fu8,
        0x6Fu8,
        0x74u8,
    ]
}

/// A well-formed SQLite chunk is accepted, and its payload is the `n` bytes right after the
/// sixteen header bytes.
pub proof fn law_well_formed_chunk_is_accepted(d: Seq<u8>, o: int, n: nat)
    requires
        d.len() <= usize::MAX,
        is_well_formed_chunk_at(d, o, n),
    ensures
        spec_chunk_header_at(d, o) matches HeaderCheck::Accepted(r) && r.offset == o + 16 && r.size
            == n,
{
    let size_bytes = d.subrange(o + 8, o + 16);
    assert(forall|k: int| 0 <= k < 8 ==> size_bytes[k] == d[o + 8 + k]);
    lemma_be_value_eight(size_bytes);
    assert(d.subrange(o, o + 8) =~= sqlite_chunk_tag());
    let payload_end = o + 16 + n;
    assert(d.subrange(payload_end, payload_end + 8) =~= foot_chunk_tag());
}

/// When the input holds a well-formed SQLite chunk at offset `h` and no `CHNKSQLi` tag starts
/// above it, the database is that chunk's payload, whatever raw SQLite headers the input also
/// holds.
pub proof fn law_locate_prefers_well_formed_chunk(d: Seq<u8>, h: int, n: nat)
    requires
        d.len() <= usize::MAX,
        is_well_formed_chunk_at(d, h, n),
        forall|q: int|
            h < q && q + 8 <= d.len() ==> #[trigger] d.subrange(q, q + 8) != seq![
                0x43u8,
                0x48u8,
                0x4Eu8,
                0x4Bu8,
                0x53u8,
                0x51u8,
                0x4Cu8,
                0x69u8,
            ],
    ensures
        spec_locate_database(d) matches ChunkSearch::Found(r) && r.offset == h + 16 && r.size == n,
{
    let tag = seq![0x43u8, 0x48u8, 0x4Eu8, 0x4Bu8, 0x53u8, 0x51u8, 0x4Cu8, 0x69u8];
    assert(tag =~= sqlite_chunk_tag());
    assert forall|q: int| h + 1 <= q < d.len() implies !occurs_at(d, sqlite_chunk_tag(), q) by {}
    lemma_chunk_scan_skip(d, h + 1, d.len() as int);
    law_well_formed_chunk_is_accepted(d, h, n);
    assert(occurs_at(d, sqlite_chunk_tag(), h));
}

/// A container starts with its signature exactly when its first eight bytes are `CSFCHUNK`.
pub proof fn law_clip_signature_bytes(d: Seq<u8>)
    ensures
        starts_with(d, clip_signature()) <==> (d.len() >= 8 && d[0] == 0x43u8 && d[1] == 0x53u8
            && d[2] == 0x46u8 && d[3] == 0x43u8 && d[4] == 0x48u8 && d[5] == 0x55u8 && d[6] == 0x4Eu8
            && d[7] == 0x4Bu8),
{
    if d.len() >= 8 {
        let head = d.subrange(0, 8);
        assert(forall|k: int| 0 <= k < 8 ==> head[k] == d[k]);
        if d[0] == 0x43u8 && d[1] == 0x53u8 && d[2] == 0x46u8 && d[3] == 0x43u8 && d[4] == 0x48u8
            && d[5] == 0x55u8 && d[6] == 0x4Eu8 && d[7] == 0x4Bu8 {
            assert(head =~= clip_signature());
        }
    }
}

/// A plausible SQLite header at `o`: a hundred bytes in the input that start with
/// `SQLite format 3\0`, declare page size 1 or a power of two from 512 to 32768 (big-endian at
/// bytes 16 and 17), file format versions 1 or 2 (bytes 18 and 19) and payload fractions 64, 32
/// and 32 (bytes 21 to 23); nothing else counts.
pub proof fn law_sqlite_header_fields(d: Seq<u8>, o: int)
    ensures
        spec_valid_sqlite_header_at(d, o) <==> ({
            let page = d[o + 16] * 256 + d[o + 17];
            &&& 0 <= o
            &&& o + 100 <= d.len()
            &&& d.subrange(o, o + 16) == seq![
                0x53u8,
                0x51u8,
                0x4Cu8,
                0x69u8,
                0x74u8,
                0x65u8,
                0x20u8,
                0x66u8,
                0x6Fu8,
                0x72u8,
                0x6Du8,
                0x61u8,
                0x74u8,
                0x20u8,
                0x33u8,
                0x00u8,
            ]
            &&& (page == 1 || page == 512 || page == 1024 || page == 2048 || page == 4096 || page
                == 8192 || page == 16384 || page == 32768)
            &&& (d[o + 18] == 1 || d[o + 18] == 2)
            &&& (d[o + 19] == 1 || d[o + 19] == 2)
            &&& d[o + 21] == 64
            &&& d[o + 22] == 32
            &&& d[o + 23] == 32
        }),
{
    if 0 <= o && o + 100 <= d.len() {
        let page = d[o + 16] * 256 + d[o + 17];
        law_valid_page_sizes(page as u16);
        assert(sqlite_header() =~= seq![
            0x53u8,
            0x51u8,
            0x4Cu8,
            0x69u8,
            0x74u8,
            0x65u8,
            0x20u8,
            0x66u8,
            0x6Fu8,
            0x72u8,
            0x6Du8,
            0x61u8,
            0x74u8,
            0x20u8,
            0x33u8,
            0x00u8,
        ]);
    }
}

/// Checks that the input starts with the `CSFCHUNK` container signature.
pub fn ensure_clip_signature(data: &[u8]) -> (res: Result<(), ClipError>)
    ensures
        data@.len() == 0 ==> is_invalid_format(res, "input is empty"@),
        data@.len() > 0 && !starts_with(data@, clip_signature()) ==> is_invalid_format(
            res,
            "missing CSFCHUNK signature"@,
        ),
        starts_with(data@, clip_signature()) ==> res is Ok,
{
    let signature = clip_signature_bytes();
    let read = if data.len() < 8 {
        data.len()
    } else {
        8
    };
    if read == 0 {
        return Err(ClipError::InvalidFormat("input is empty"));
    }
    if read < 8 || !occurs_at_exec(data, signature.as_slice(), 0) {
        return Err(ClipError::InvalidFormat("missing CSFCHUNK signature"));
    }
    Ok(())
}

/// Reads the `CHNKSQLi` header candidate at `header_offset` and returns the payload range of a
/// well-formed SQLite chunk.
pub fn parse_sqlite_chunk_header(data: &[u8], header_offset: usize) -> (res: Result<
    Option<ChunkRange>,
    std::io::Error,
>)
    ensures
        match spec_chunk_header_at(data@, header_offset as int) {
            HeaderCheck::Accepted(r) => res matches Ok(Some(c)) && c == r,
            HeaderCheck::Rejected => res matches Ok(None),
            HeaderCheck::ReadPastEnd => res is Err,
        },
{
    let ghost d = data@;
    let ghost o = header_offset as int;
    let file_len = data.len();
    // Reading from beyond the end of the input meets its end at once.
    let read_from = if header_offset > file_len {
        file_len
    } else {
        header_offset
    };
    let header = match read_exact_at(data, read_from, 16) {
        Ok(header) => header,
        Err(error) => return Err(error),
    };
    let tag = sqlite_chunk_tag_bytes();
    assert(header@.subrange(0, 8) =~= d.subrange(o, o + 8));
    if !occurs_at_exec(header.as_slice(), tag.as_slice(), 0) {
        return Ok(None);
    }
    let chunk_size = be_u64(header.as_slice(), 8);
    assert(header@.subrange(8, 16) =~= d.subrange(o + 8, o + 16));
    let payload_offset: u64 = header_offset as u64 + 16;
    let payload_end = match payload_offset.checked_add(chunk_size) {
        Some(payload_end) => payload_end,
        None => return Ok(None),
    };
    if payload_end > file_len as u64 {
        return Ok(None);
    }
    if file_len as u64 - payload_end >= 8 {
        let footer = match read_exact_at(data, payload_end as usize, 8) {
            Ok(footer) => footer,
            Err(error) => return Err(error),
        };
        let foot = foot_chunk_tag_bytes();
        assert(footer@.subrange(0, 8) =~= footer@);
        if !occurs_at_exec(footer.as_slice(), foot.as_slice(), 0) {
            return Ok(None);
        }
    }
    Ok(Some(ChunkRange { offset: payload_offset as usize, size: chunk_size as usize }))
}

/// Whether a plausible SQLite database header starts at `header_offset`.
pub fn is_valid_sqlite_header(data: &[u8], header_offset: usize) -> (res: bool)
    ensures
        res == spec_valid_sqlite_header_at(data@, header_offset as int),
{
    let ghost d = data@;
    let ghost o = header_offset as int;
    let file_len = data.len();
    let header_end = match header_offset.checked_add(SQLITE_DATABASE_HEADER_SIZE) {
        Some(header_end) => header_end,
        None => return false,
    };
    if header_end > file_len {
        return false;
    }
    let header = match read_exact_at(data, header_offset, SQLITE_DATABASE_HEADER_SIZE) {
        Ok(header) => header,
        Err(_) => return false,
    };
    let magic = sqlite_header_bytes();
    assert(header@.subrange(0, 16) =~= d.subrange(o, o + 16));
    if !occurs_at_exec(header.as_slice(), magic.as_slice(), 0) {
        return false;
    }
    let page_size: u16 = (header[16] as u16) * 256 + header[17] as u16;
    let write_version = header[18];
    let read_version = header[19];
    let fractions_are_valid = header[21] == 64 && header[22] == 32 && header[23] == 32;
    assert(header@[16] == d[o + 16] && header@[17] == d[o + 17] && header@[18] == d[o + 18]);
    assert(header@[19] == d[o + 19] && header@[21] == d[o + 21] && header@[22] == d[o + 22]);
    assert(header@[23] == d[o + 23]);
    is_valid_sqlite_page_size(page_size) && (write_version == 1 || write_version == 2) && (
    read_version == 1 || read_version == 2) && fractions_are_valid
}

/// The first `min(len, keep)` bytes of `chunk`: the leading edge that the next, lower window
/// carries so that a signature split across the window boundary stays visible.
fn leading_edge(chunk: &Vec<u8>, keep: usize) -> (res: Vec<u8>)
    ensures
        res@ == chunk@.subrange(0, min_int(chunk@.len() as int, keep as int)),
{
    let n = if chunk.len() < keep {
        chunk.len()
    } else {
        keep
    };
    vstd::slice::slice_to_vec(vstd::slice::slice_subrange(chunk.as_slice(), 0, n))
}

/// Scans the input backwards, window by window, for a `CHNKSQLi` chunk header and returns
/// the payload range of the highest well-formed one.
///
/// Every candidate in a window is tried, from the highest down, because matches inside the
/// payload data are false positives. A candidate whose header runs past the end of the input
/// fails the read of that header.
pub fn find_sqlite_chunk_by_chunk_header(data: &[u8]) -> (res: Result<
    Option<ChunkRange>,
    std::io::Error,
>)
    ensures
        match spec_chunk_scan_below(data@, data@.len() as int) {
            ChunkSearch::Found(r) => res matches Ok(Some(c)) && c == r,
            ChunkSearch::ReadPastEnd => res is Err,
            ChunkSearch::Absent => res matches Ok(None),
        },
{
    let ghost d = data@;
    let file_len = data.len();
    let tag = sqlite_chunk_tag_bytes();
    let keep: usize = 7;
    let mut position: usize = file_len;
    let mut carry: Vec<u8> = Vec::new();
    assert(carry@ =~= d.subrange(file_len as int, min_int(file_len + 7, file_len as int)));
    while position > 0
        invariant
            d == data@,
            file_len == d.len(),
            tag@ == sqlite_chunk_tag(),
            keep == 7,
            position <= file_len,
            position > 0 ==> carry@ == d.subrange(
                position as int,
                min_int(position + 7, file_len as int),
            ),
            spec_chunk_scan_below(d, file_len as int) == spec_chunk_scan_below(d, position as int),
        decreases position,
    {
        let start = position.saturating_sub(SCAN_BUFFER_SIZE);
        let read_len = position - start;
        let chunk = match read_exact_at(data, start, read_len) {
            Ok(chunk) => chunk,
            Err(error) => return Err(error),
        };
        let search = concat_bytes(chunk.as_slice(), carry.as_slice());
        assert(search@ =~= d.subrange(start as int, min_int(position + 7, file_len as int)));
        let mut search_end: usize = read_len;
        loop
            invariant
                d == data@,
                file_len == d.len(),
                tag@ == sqlite_chunk_tag(),
                start <= position <= file_len,
                read_len == position - start,
                search@ == d.subrange(start as int, min_int(position + 7, file_len as int)),
                search_end <= read_len,
                spec_chunk_scan_below(d, file_len as int) == spec_chunk_scan_below(
                    d,
                    start + search_end,
                ),
            ensures
                spec_chunk_scan_below(d, file_len as int) == spec_chunk_scan_below(
                    d,
                    start as int,
                ),
            decreases search_end,
        {
            match find_last_subslice_starting_before(search.as_slice(), tag.as_slice(), search_end) {
                None => {
                    proof {
                        assert forall|o: int| start <= o < start + search_end implies !occurs_at(
                            d,
                            sqlite_chunk_tag(),
                            o,
                        ) by {
                            lemma_window_occurs(d, search@, sqlite_chunk_tag(), start as int, position as int, o - start);
                        }
                        lemma_chunk_scan_skip(d, start as int, start + search_end);
                    }
                    break ;
                },
                Some(index) => {
                    let header_offset = start + index;
                    proof {
                        assert forall|o: int|
                            header_offset + 1 <= o < start + search_end implies !occurs_at(
                            d,
                            sqlite_chunk_tag(),
                            o,
                        ) by {
                            lemma_window_occurs(d, search@, sqlite_chunk_tag(), start as int, position as int, o - start);
                        }
                        lemma_chunk_scan_skip(d, header_offset + 1, start + search_end);
                        lemma_window_occurs(d, search@, sqlite_chunk_tag(), start as int, position as int, index as int);
                    }
                    match parse_sqlite_chunk_header(data, header_offset) {
                        Err(error) => return Err(error),
                        Ok(Some(range)) => return Ok(Some(range)),
                        Ok(None) => {},
                    }
                    search_end = index;
                },
            }
        }
        carry = leading_edge(&chunk, keep);
        position = start;
    }
    Ok(None)
}

/// Scans the input backwards, window by window, for the raw SQLite file header and returns
/// the offset of the highest plausible one.
///
/// Every candidate in a window is tried, from the highest down, because the header text can
/// also appear inside payload data.
pub fn find_sqlite_chunk_by_sqlite_header(data: &[u8]) -> (res: Result<usize, ClipError>)
    ensures
        match spec_sqlite_scan_below(data@, data@.len() as int) {
            Some(o) => res matches Ok(offset) && offset == o,
            None => is_invalid_format(res, "embedded SQLite header not found"@),
        },
{
    let ghost d = data@;
    let file_len = data.len();
    let magic = sqlite_header_bytes();
    let keep: usize = 15;
    let mut position: usize = file_len;
    let mut carry: Vec<u8> = Vec::new();
    assert(carry@ =~= d.subrange(file_len as int, min_int(file_len + 15, file_len as int)));
    while position > 0
        invariant
            d == data@,
            file_len == d.len(),
            magic@ == sqlite_header(),
            keep == 15,
            position <= file_len,
            position > 0 ==> carry@ == d.subrange(
                position as int,
                min_int(position + 15, file_len as int),
            ),
            spec_sqlite_scan_below(d, file_len as int) == spec_sqlite_scan_below(d, position as int),
        decreases position,
    {
        let start = position.saturating_sub(SCAN_BUFFER_SIZE);
        let read_len = position - start;
        let chunk = match read_exact_at(data, start, read_len) {
            Ok(chunk) => chunk,
            Err(error) => return Err(ClipError::Io(error)),
        };
        let search = concat_bytes(chunk.as_slice(), carry.as_slice());
        assert(search@ =~= d.subrange(start as int, min_int(position + 15, file_len as int)));
        let mut search_end: usize = read_len;
        loop
            invariant
                d == data@,
                file_len == d.len(),
                magic@ == sqlite_header(),
                start <= position <= file_len,
                read_len == position - start,
                search@ == d.subrange(start as int, min_int(position + 15, file_len as int)),
                search_end <= read_len,
                spec_sqlite_scan_below(d, file_len as int) == spec_sqlite_scan_below(
                    d,
                    start + search_end,
                ),
            ensures
                spec_sqlite_scan_below(d, file_len as int) == spec_sqlite_scan_below(
                    d,
                    start as int,
                ),
            decreases search_end,
        {
            match find_last_subslice_starting_before(search.as_slice(), magic.as_slice(), search_end) {
                None => {
                    proof {
                        assert forall|o: int| start <= o < start + search_end implies !occurs_at(
                            d,
                            sqlite_header(),
                            o,
                        ) by {
                            lemma_window_occurs(d, search@, sqlite_header(), start as int, position as int, o - start);
                        }
                        lemma_sqlite_scan_skip(d, start as int, start + search_end);
                    }
                    break ;
                },
                Some(index) => {
                    let header_offset = start + index;
                    proof {
                        assert forall|o: int|
                            header_offset + 1 <= o < start + search_end implies !occurs_at(
                            d,
                            sqlite_header(),
                            o,
                        ) by {
                            lemma_window_occurs(d, search@, sqlite_header(), start as int, position as int, o - start);
                        }
                        lemma_sqlite_scan_skip(d, header_offset + 1, start + search_end);
                        lemma_window_occurs(d, search@, sqlite_header(), start as int, position as int, index as int);
                    }
                    if is_valid_sqlite_header(data, header_offset) {
                        return Ok(header_offset);
                    }
                    search_end = index;
                },
            }
        }
        carry = leading_edge(&chunk, keep);
        position = start;
    }
    Err(ClipError::InvalidFormat("embedded SQLite header not found"))
}

/// Locates the embedded SQLite database: the `CHNKSQLi` chunk when a well-formed one exists,
/// otherwise everything from the last plausible SQLite header to the end of the input.
pub fn find_embedded_sqlite_chunk(data: &[u8]) -> (res: Result<ChunkRange, ClipError>)
    ensures
        match spec_locate_database(data@) {
            ChunkSearch::Found(r) => res matches Ok(c) && c == r,
            ChunkSearch::ReadPastEnd => res matches Err(ClipError::Io(_)),
            ChunkSearch::Absent => is_invalid_format(res, "embedded SQLite header not found"@),
        },
{
    // Prefer the chunk header when present so the payload range is exact.
    match find_sqlite_chunk_by_chunk_header(data) {
        Err(error) => return Err(ClipError::Io(error)),
        Ok(Some(chunk)) => return Ok(chunk),
        Ok(None) => {},
    }
    // Older or less understood variants are located by the SQLite file header.
    let offset = match find_sqlite_chunk_by_sqlite_header(data) {
        Ok(offset) => offset,
        Err(error) => return Err(error),
    };
    let file_len = data.len();
    proof {
        lemma_sqlite_scan_in_bounds(data@, data@.len() as int);
    }
    if offset > file_len {
        return Err(ClipError::InvalidFormat("embedded SQLite offset is out of range"));
    }
    Ok(ChunkRange { offset, size: file_len - offset })
}

} // verus!
