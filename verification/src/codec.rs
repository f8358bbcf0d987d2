//! Decoding of the fixed-layout header and of the two record tables from
//! raw container bytes (all fields big-endian).

use vstd::prelude::*;
use crate::PackageError;
use crate::bytes::{spec_u16_be, spec_u32_be, spec_u64_be, read_u16_be, read_u32_be, read_u64_be,
    copy_range};
use crate::structs::{PackageHeader, EntryHeader, BlockHeader, spec_language, language_from_u16,
    spec_starting_block, spec_starting_block_offset, spec_file_size, unpack_block_info,
    lemma_unpack_bounds};

verus! {

/// The header occupies exactly this many leading bytes of the container.
pub const HEADER_SIZE: usize = 320;

/// One entry-table record occupies this many bytes on disk.
pub const ENTRY_RECORD_SIZE: usize = 16;

/// One block-table record occupies this many bytes on disk.
pub const BLOCK_RECORD_SIZE: usize = 32;

/// A 128-byte NUL-padded field with its trailing NUL bytes removed.
pub open spec fn spec_trim_nuls(s: Seq<u8>) -> Seq<u8>
    decreases s.len(),
{
    if s.len() == 0 {
        s
    } else if s.last() != 0 {
        s
    } else {
        spec_trim_nuls(s.drop_last())
    }
}

proof fn lemma_trim_prefix(s: Seq<u8>, end: int)
    requires
        0 <= end <= s.len(),
        forall|j: int| end <= j < s.len() ==> s[j] == 0,
        end > 0 ==> s[end - 1] != 0,
    ensures
        spec_trim_nuls(s) == s.subrange(0, end),
    decreases s.len(),
{
    if s.len() == end {
        assert(s =~= s.subrange(0, end));
    } else {
        assert(s.last() == 0);
        lemma_trim_prefix(s.drop_last(), end);
        assert(s.drop_last().subrange(0, end) =~= s.subrange(0, end));
    }
}

/// Length of `s` once trailing NUL bytes are dropped.
fn trimmed_len(s: &Vec<u8>) -> (r: usize)
    ensures
        r <= s@.len(),
        spec_trim_nuls(s@) == s@.subrange(0, r as int),
{
    let mut end = s.len();
    while end > 0 && s[end - 1] == 0
        invariant
            end <= s@.len(),
            forall|j: int| end <= j < s@.len() ==> s@[j] == 0,
        decreases end,
    {
        end -= 1;
    }
    proof {
        lemma_trim_prefix(s@, end as int);
    }
    end
}

/// Every header field decoded from the first 320 bytes of `c`, as the layout
/// declares them.
pub open spec fn header_matches(h: PackageHeader, c: Seq<u8>) -> bool {
    &&& h.magic == spec_u32_be(c, 0)
    &&& h.pkg_id == spec_u16_be(c, 4)
    &&& h._unk6 == spec_u16_be(c, 6)
    &&& h._unk8 == spec_u64_be(c, 8)
    &&& h.build_time == spec_u64_be(c, 16)
    &&& h._unk_buildid == spec_u32_be(c, 24)
    &&& h._unk1c == spec_u32_be(c, 28)
    &&& h.patch_id == spec_u16_be(c, 32)
    &&& Some(h.language) == spec_language(spec_u16_be(c, 34))
    &&& h.tool_string@ == spec_trim_nuls(c.subrange(36, 164))
    &&& h._unka4 == spec_u32_be(c, 164)
    &&& h._unka8 == spec_u32_be(c, 168)
    &&& h._unkac == spec_u32_be(c, 172)
    &&& h.header_signature_offset == spec_u32_be(c, 176)
    &&& h.entry_table_size == spec_u32_be(c, 180)
    &&& h.entry_table_offset == spec_u32_be(c, 184)
    &&& h.entry_table_hash@ == c.subrange(188, 208)
    &&& h.block_table_size == spec_u32_be(c, 208)
    &&& h.block_table_offset == spec_u32_be(c, 212)
    &&& h.block_table_hash@ == c.subrange(216, 236)
}

/// The conditions under which the header itself decodes: enough bytes, and a
/// recognized language code.
pub open spec fn spec_header_ok(c: Seq<u8>) -> bool {
    &&& c.len() >= HEADER_SIZE
    &&& spec_language(spec_u16_be(c, 34)) is Some
}

/// Decodes the fixed 320-byte header from the front of `c`.
pub fn parse_header(c: &Vec<u8>) -> (r: Result<PackageHeader, PackageError>)
    ensures
        match r {
            Ok(h) => spec_header_ok(c@) && header_matches(h, c@),
            Err(e) => !spec_header_ok(c@) && e == PackageError::Decode,
        },
{
    if c.len() < HEADER_SIZE {
        return Err(PackageError::Decode);
    }
    let language = match language_from_u16(read_u16_be(c, 34)) {
        Some(l) => l,
        None => {
            return Err(PackageError::Decode);
        },
    };
    let tool_field = copy_range(c, 36, 128);
    let tool_len = trimmed_len(&tool_field);
    let tool_string = copy_range(&tool_field, 0, tool_len);
    proof {
        assert(tool_field@.subrange(0, tool_len as int) == spec_trim_nuls(c@.subrange(36, 164)));
    }
    Ok(PackageHeader {
        magic: read_u32_be(c, 0),
        pkg_id: read_u16_be(c, 4),
        _unk6: read_u16_be(c, 6),
        _unk8: read_u64_be(c, 8),
        build_time: read_u64_be(c, 16),
        _unk_buildid: read_u32_be(c, 24),
        _unk1c: read_u32_be(c, 28),
        patch_id: read_u16_be(c, 32),
        language,
        tool_string,
        _unka4: read_u32_be(c, 164),
        _unka8: read_u32_be(c, 168),
        _unkac: read_u32_be(c, 172),
        header_signature_offset: read_u32_be(c, 176),
        entry_table_size: read_u32_be(c, 180),
        entry_table_offset: read_u32_be(c, 184),
        entry_table_hash: copy_range(c, 188, 20),
        block_table_size: read_u32_be(c, 208),
        block_table_offset: read_u32_be(c, 212),
        block_table_hash: copy_range(c, 216, 20),
    })
}

/// One 16-byte entry record decoded from `c` at `off`, its packed block-info
/// word unpacked.
pub open spec fn entry_matches(e: EntryHeader, c: Seq<u8>, off: int) -> bool {
    let packed = spec_u64_be(c, off + 8);
    &&& e.reference == spec_u32_be(c, off)
    &&& e.flags == spec_u16_be(c, off + 4)
    &&& e.num_type == c[off + 6]
    &&& e.num_subtype == c[off + 7]
    &&& e.starting_block == spec_starting_block(packed)
    &&& e.starting_block_offset == spec_starting_block_offset(packed)
    &&& e.file_size == spec_file_size(packed)
}

pub fn parse_entry(c: &Vec<u8>, off: usize) -> (r: EntryHeader)
    requires
        off + ENTRY_RECORD_SIZE <= c@.len(),
    ensures
        entry_matches(r, c@, off as int),
        r.wf(),
{
    let _n: usize = c.len();
    let packed = read_u64_be(c, off + 8);
    let (starting_block, starting_block_offset, file_size) = unpack_block_info(packed);
    proof {
        lemma_unpack_bounds(packed);
    }
    EntryHeader {
        reference: read_u32_be(c, off),
        flags: read_u16_be(c, off + 4),
        num_type: c[off + 6],
        num_subtype: c[off + 7],
        starting_block,
        starting_block_offset,
        file_size,
    }
}

/// One 32-byte block record decoded from `c` at `off`.
pub open spec fn block_matches(b: BlockHeader, c: Seq<u8>, off: int) -> bool {
    &&& b.offset == spec_u32_be(c, off)
    &&& b.size == spec_u32_be(c, off + 4)
    &&& b.patch_id == spec_u16_be(c, off + 8)
    &&& b.flags == spec_u16_be(c, off + 10)
    &&& b.hash@ == c.subrange(off + 12, off + 32)
}

pub fn parse_block(c: &Vec<u8>, off: usize) -> (r: BlockHeader)
    requires
        off + BLOCK_RECORD_SIZE <= c@.len(),
    ensures
        block_matches(r, c@, off as int),
{
    let _n: usize = c.len();
    BlockHeader {
        offset: read_u32_be(c, off),
        size: read_u32_be(c, off + 4),
        patch_id: read_u16_be(c, off + 8),
        flags: read_u16_be(c, off + 10),
        hash: copy_range(c, off + 12, 20),
    }
}

/// Decodes `count` consecutive 16-byte entry records starting at `off`.
pub fn parse_entry_table(c: &Vec<u8>, off: usize, count: usize) -> (r: Vec<EntryHeader>)
    requires
        off + count * ENTRY_RECORD_SIZE <= c@.len(),
    ensures
        r@.len() == count,
        forall|j: int|
            0 <= j < count ==> entry_matches(#[trigger] r@[j], c@, off + j * ENTRY_RECORD_SIZE)
                && r@[j].wf(),
{
    let _n: usize = c.len();
    let mut r: Vec<EntryHeader> = Vec::new();
    let mut k: usize = 0;
    while k < count
        invariant
            k <= count,
            off + count * ENTRY_RECORD_SIZE <= c@.len(),
            c@.len() <= usize::MAX,
            r@.len() == k,
            forall|j: int|
                0 <= j < k ==> entry_matches(#[trigger] r@[j], c@, off + j * ENTRY_RECORD_SIZE)
                    && r@[j].wf(),
        decreases count - k,
    {
        proof {
            assert(k * ENTRY_RECORD_SIZE <= count * ENTRY_RECORD_SIZE) by (nonlinear_arith)
                requires
                    k < count,
            ;
            assert((k + 1) * ENTRY_RECORD_SIZE == k * ENTRY_RECORD_SIZE + ENTRY_RECORD_SIZE)
                by (nonlinear_arith);
        }
        let e = parse_entry(c, off + k * ENTRY_RECORD_SIZE);
        r.push(e);
        k += 1;
    }
    r
}

/// Decodes `count` consecutive 32-byte block records starting at `off`.
pub fn parse_block_table(c: &Vec<u8>, off: usize, count: usize) -> (r: Vec<BlockHeader>)
    requires
        off + count * BLOCK_RECORD_SIZE <= c@.len(),
    ensures
        r@.len() == count,
        forall|j: int|
            0 <= j < count ==> block_matches(#[trigger] r@[j], c@, off + j * BLOCK_RECORD_SIZE),
{
    let _n: usize = c.len();
    let mut r: Vec<BlockHeader> = Vec::new();
    let mut k: usize = 0;
    while k < count
        invariant
            k <= count,
            off + count * BLOCK_RECORD_SIZE <= c@.len(),
            c@.len() <= usize::MAX,
            r@.len() == k,
            forall|j: int|
                0 <= j < k ==> block_matches(#[trigger] r@[j], c@, off + j * BLOCK_RECORD_SIZE),
        decreases count - k,
    {
        proof {
            assert(k * BLOCK_RECORD_SIZE <= count * BLOCK_RECORD_SIZE) by (nonlinear_arith)
                requires
                    k < count,
            ;
            assert((k + 1) * BLOCK_RECORD_SIZE == k * BLOCK_RECORD_SIZE + BLOCK_RECORD_SIZE)
                by (nonlinear_arith);
        }
        let b = parse_block(c, off + k * BLOCK_RECORD_SIZE);
        r.push(b);
        k += 1;
    }
    r
}

} // verus!
