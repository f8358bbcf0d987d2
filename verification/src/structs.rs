//! The container's data model: the package header, entry headers with their
//! bit-packed addressing, and block headers.

use vstd::prelude::*;

verus! {

/// The uncompressed capacity of one storage block; decompression always
/// targets an output buffer of exactly this size.
pub const BLOCK_SIZE: usize = 0x40000;

/// The closed language enumeration carried by the header (on-disk values 0
/// through 7, in this order); any other value is a decode error.
#[derive(Clone, Copy, Debug, PartialEq, Eq, Structural)]
pub enum PackageLanguage {
    Unspecified,
    English,
    French,
    Italian,
    German,
    Spanish,
    Japanese,
    Portuguese,
}

pub open spec fn spec_language(v: u16) -> Option<PackageLanguage> {
    if v == 0 {
        Some(PackageLanguage::Unspecified)
    } else if v == 1 {
        Some(PackageLanguage::English)
    } else if v == 2 {
        Some(PackageLanguage::French)
    } else if v == 3 {
        Some(PackageLanguage::Italian)
    } else if v == 4 {
        Some(PackageLanguage::German)
    } else if v == 5 {
        Some(PackageLanguage::Spanish)
    } else if v == 6 {
        Some(PackageLanguage::Japanese)
    } else if v == 7 {
        Some(PackageLanguage::Portuguese)
    } else {
        None
    }
}

pub fn language_from_u16(v: u16) -> (r: Option<PackageLanguage>)
    ensures
        r == spec_language(v),
{
    match v {
        0u16 => Some(PackageLanguage::Unspecified),
        1u16 => Some(PackageLanguage::English),
        2u16 => Some(PackageLanguage::French),
        3u16 => Some(PackageLanguage::Italian),
        4u16 => Some(PackageLanguage::German),
        5u16 => Some(PackageLanguage::Spanish),
        6u16 => Some(PackageLanguage::Japanese),
        7u16 => Some(PackageLanguage::Portuguese),
        _ => None,
    }
}

/// The fixed-layout container header; it occupies exactly the first 320
/// bytes of the container file. `tool_string` holds the 128-byte ASCII
/// tool-identifier field with its trailing NUL padding removed.
#[derive(Debug)]
pub struct PackageHeader {
    pub magic: u32,
    pub pkg_id: u16,
    pub _unk6: u16,
    pub _unk8: u64,
    pub build_time: u64,
    pub _unk_buildid: u32,
    pub _unk1c: u32,
    pub patch_id: u16,
    pub language: PackageLanguage,
    pub tool_string: Vec<u8>,
    pub _unka4: u32,
    pub _unka8: u32,
    pub _unkac: u32,
    pub header_signature_offset: u32,
    pub entry_table_size: u32,
    pub entry_table_offset: u32,
    pub entry_table_hash: Vec<u8>,
    pub block_table_size: u32,
    pub block_table_offset: u32,
    pub block_table_hash: Vec<u8>,
}

/// One logical file's metadata. The three addressing fields are decoded from
/// a single 64-bit packed word: the 14 low bits are the first block's index,
/// the next 14 bits (scaled by 16) the byte offset into that block, and the
/// remaining 36 high bits the file size in bytes.
#[derive(Clone, Copy, Debug, PartialEq, Eq, Structural)]
pub struct EntryHeader {
    pub reference: u32,
    pub flags: u16,
    pub num_type: u8,
    pub num_subtype: u8,
    pub starting_block: u32,
    pub starting_block_offset: u32,
    pub file_size: u64,
}

pub open spec fn spec_starting_block(packed: u64) -> u32 {
    (packed & 0x3fff) as u32
}

pub open spec fn spec_starting_block_offset(packed: u64) -> u32 {
    (((packed >> 14) & 0x3fff) << 4) as u32
}

pub open spec fn spec_file_size(packed: u64) -> u64 {
    packed >> 28
}

/// The algebraic reconstruction of a packed block-info word from its three
/// decoded sub-values.
pub open spec fn spec_pack(sb: u32, soff: u32, fs: u64) -> u64 {
    (sb as u64) | (((soff as u64) >> 4) << 14) | (fs << 28)
}

pub fn unpack_block_info(packed: u64) -> (r: (u32, u32, u64))
    ensures
        r.0 == spec_starting_block(packed),
        r.1 == spec_starting_block_offset(packed),
        r.2 == spec_file_size(packed),
{
    let sb = (packed & 0x3fff) as u32;
    let soff = (((packed >> 14u64) & 0x3fff) << 4u64) as u32;
    let fs = packed >> 28u64;
    (sb, soff, fs)
}

pub fn pack_block_info(sb: u32, soff: u32, fs: u64) -> (r: u64)
    ensures
        r == spec_pack(sb, soff, fs),
{
    ((sb as u64) | (((soff as u64) >> 4u64) << 14u64)) | (fs << 28u64)
}

/// Decoding a packed block-info word and re-packing the three sub-values as
/// `starting_block | (starting_block_offset / 16 << 14) | (file_size << 28)`
/// recovers the original word, for every 64-bit input.
pub proof fn lemma_block_info_roundtrip(packed: u64)
    ensures
        spec_pack(
            spec_starting_block(packed),
            spec_starting_block_offset(packed),
            spec_file_size(packed),
        ) == packed,
{
    assert((((packed & 0x3fff) as u32 as u64) | ((((((packed >> 14) & 0x3fff) << 4) as u32 as u64)
        >> 4) << 14)) | ((packed >> 28) << 28) == packed) by (bit_vector);
}

/// The ranges forced on the decoded sub-values by their bit widths.
pub proof fn lemma_unpack_bounds(packed: u64)
    ensures
        spec_starting_block(packed) <= 0x3fff,
        spec_starting_block_offset(packed) <= 0x3fff0,
        spec_starting_block_offset(packed) % 16 == 0,
        spec_file_size(packed) < 0x10_0000_0000,
{
    assert((packed & 0x3fff) as u32 <= 0x3fff) by (bit_vector);
    assert((((packed >> 14) & 0x3fff) << 4) as u32 <= 0x3fff0) by (bit_vector);
    assert((((packed >> 14) & 0x3fff) << 4) as u32 % 16 == 0) by (bit_vector);
    assert(packed >> 28 < 0x10_0000_0000) by (bit_vector);
}

impl EntryHeader {
    /// Field ranges forced by the packed encoding; every entry decoded from
    /// a table satisfies this.
    pub open spec fn wf(&self) -> bool {
        &&& self.starting_block <= 0x3fff
        &&& self.starting_block_offset <= 0x3fff0
        &&& self.file_size < 0x10_0000_0000
    }
}

/// One physical storage block: its byte region inside the patch file owned
/// by `patch_id`, a flags word whose bit 0x100 marks compression, and the
/// declared 20-byte hash of the block's raw (pre-decompression) bytes.
#[derive(Debug)]
pub struct BlockHeader {
    pub offset: u32,
    pub size: u32,
    pub patch_id: u16,
    pub flags: u16,
    pub hash: Vec<u8>,
}

impl BlockHeader {
    pub open spec fn compressed(&self) -> bool {
        self.flags & 0x100 != 0
    }

    /// The length of the block's logical (decompressed-if-needed) bytes as
    /// declared by the table: the fixed block capacity when compressed, its
    /// stored size otherwise.
    pub open spec fn logical_len(&self) -> int {
        if self.compressed() {
            BLOCK_SIZE as int
        } else {
            self.size as int
        }
    }

    pub fn is_compressed(&self) -> (r: bool)
        ensures
            r == self.compressed(),
    {
        self.flags & 0x100 != 0
    }
}

} // verus!
