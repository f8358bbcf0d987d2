use destinypkg::package::{DecompressOutcome, Package};
use destinypkg::structs::{BlockHeader, EntryHeader, PackageHeader, PackageLanguage, BLOCK_SIZE};
use destinypkg::PackageError;

fn dummy_header() -> PackageHeader {
    PackageHeader {
        magic: 0,
        pkg_id: 0,
        _unk6: 0,
        _unk8: 0,
        build_time: 0,
        _unk_buildid: 0,
        _unk1c: 0,
        patch_id: 0,
        language: PackageLanguage::Unspecified,
        tool_string: Vec::new(),
        _unka4: 0,
        _unka8: 0,
        _unkac: 0,
        header_signature_offset: 0,
        entry_table_size: 0,
        entry_table_offset: 0,
        entry_table_hash: vec![0u8; 20],
        block_table_size: 0,
        block_table_offset: 0,
        block_table_hash: vec![0u8; 20],
    }
}

fn stored_block(size: u32) -> BlockHeader {
    BlockHeader { offset: 0, size, patch_id: 0, flags: 0, hash: vec![0u8; 20] }
}

fn entry(starting_block: u32, starting_block_offset: u32, file_size: u64) -> EntryHeader {
    EntryHeader {
        reference: 0,
        flags: 0,
        num_type: 0,
        num_subtype: 0,
        starting_block,
        starting_block_offset,
        file_size,
    }
}

fn package(blocks: Vec<BlockHeader>) -> Package {
    Package { header: dummy_header(), entries: Vec::new(), blocks }
}

#[test]
fn one_full_block_consumes_exactly_one_block() {
    // offset 0, file size equal to one full block's logical size: the walk
    // consumes exactly one block even though a second one follows
    let p = package(vec![stored_block(64), stored_block(64)]);
    let e = entry(0, 0, 64);
    assert_eq!(p.blocks_needed(&e).unwrap(), 1);
    let content: Vec<u8> = (0u8..64).collect();
    let data = vec![content.clone()];
    let out = p.get_entry_data(&e, &data).unwrap();
    assert_eq!(out, content);
}

#[test]
fn three_block_span_with_offset() {
    // starting offset 4096 into the first of three 8192-byte blocks: the
    // first contributes 8192 - 4096 bytes, the middle its whole length, the
    // last exactly the remainder
    let p = package(vec![stored_block(8192), stored_block(8192), stored_block(8192)]);
    let fs: u64 = (8192 - 4096) + 8192 + 1000;
    let e = entry(0, 4096, fs);
    assert_eq!(p.blocks_needed(&e).unwrap(), 3);
    let b0: Vec<u8> = vec![1u8; 8192];
    let b1: Vec<u8> = vec![2u8; 8192];
    let b2: Vec<u8> = vec![3u8; 8192];
    let data = vec![b0, b1, b2];
    let out = p.get_entry_data(&e, &data).unwrap();
    assert_eq!(out.len() as u64, fs);
    assert!(out[..4096].iter().all(|&x| x == 1));
    assert!(out[4096..4096 + 8192].iter().all(|&x| x == 2));
    assert!(out[4096 + 8192..].iter().all(|&x| x == 3));
    assert_eq!(out.len(), 4096 + 8192 + 1000);
}

#[test]
fn exact_boundary_on_non_first_block() {
    // the remainder equals the second block's length exactly: the whole-block
    // branch must still terminate the walk at two blocks
    let p = package(vec![stored_block(32), stored_block(32), stored_block(32)]);
    let e = entry(0, 0, 64);
    assert_eq!(p.blocks_needed(&e).unwrap(), 2);
    let data = vec![vec![9u8; 32], vec![8u8; 32]];
    let out = p.get_entry_data(&e, &data).unwrap();
    assert_eq!(out.len(), 64);
    assert!(out[32..].iter().all(|&x| x == 8));
}

#[test]
fn walk_past_table_end_is_range_error() {
    // two 16-byte blocks cannot hold 100 bytes: a range error, not a
    // truncated buffer
    let p = package(vec![stored_block(16), stored_block(16)]);
    let e = entry(0, 0, 100);
    assert_eq!(p.blocks_needed(&e).unwrap_err(), PackageError::Range);
    assert_eq!(p.get_entry_data(&e, &Vec::new()).unwrap_err(), PackageError::Range);
}

#[test]
fn starting_block_outside_table_is_range_error() {
    let p = package(vec![stored_block(16)]);
    let e = entry(5, 0, 10);
    assert_eq!(p.get_entry_data(&e, &Vec::new()).unwrap_err(), PackageError::Range);
}

#[test]
fn empty_entry_needs_no_blocks() {
    let p = package(vec![stored_block(16)]);
    let e = entry(0, 0, 0);
    assert_eq!(p.blocks_needed(&e).unwrap(), 0);
    assert_eq!(p.get_entry_data(&e, &Vec::new()).unwrap(), Vec::<u8>::new());
}

#[test]
fn compressed_block_counts_with_fixed_capacity() {
    // a compressed block's logical length is the fixed 262144-byte capacity,
    // not its stored size
    let compressed = BlockHeader { offset: 0, size: 100, patch_id: 0, flags: 0x100, hash: vec![0u8; 20] };
    let p = package(vec![compressed]);
    let e = entry(0, 0, BLOCK_SIZE as u64);
    assert_eq!(p.blocks_needed(&e).unwrap(), 1);
}

#[test]
fn get_block_passes_uncompressed_through() {
    let p = package(vec![stored_block(4)]);
    let raw = vec![1, 2, 3, 4];
    assert_eq!(p.get_block(0, raw.clone(), None).unwrap(), raw);
}

#[test]
fn get_block_returns_transform_output() {
    let compressed = BlockHeader { offset: 0, size: 4, patch_id: 0, flags: 0x100, hash: vec![0u8; 20] };
    let p = package(vec![compressed]);
    let out = vec![7u8; BLOCK_SIZE];
    let transform = Some(DecompressOutcome { output: out.clone(), produced: 100 });
    assert_eq!(p.get_block(0, vec![1, 2, 3, 4], transform).unwrap(), out);
}

#[test]
fn failed_decompression_is_an_error_not_empty_output() {
    // the transform reporting zero bytes is a decompression error, never an
    // empty buffer treated as success
    let compressed = BlockHeader { offset: 0, size: 4, patch_id: 0, flags: 0x100, hash: vec![0u8; 20] };
    let p = package(vec![compressed]);
    let transform = Some(DecompressOutcome { output: vec![0u8; BLOCK_SIZE], produced: 0 });
    assert_eq!(
        p.get_block(0, vec![1, 2, 3, 4], transform).unwrap_err(),
        PackageError::Decompression
    );
    let negative = Some(DecompressOutcome { output: vec![0u8; BLOCK_SIZE], produced: -1 });
    assert_eq!(
        p.get_block(0, vec![1, 2, 3, 4], negative).unwrap_err(),
        PackageError::Decompression
    );
}

#[test]
fn get_block_out_of_range_index() {
    let p = package(vec![stored_block(4)]);
    assert_eq!(p.get_block(1, Vec::new(), None).unwrap_err(), PackageError::Range);
}

#[test]
fn get_block_raw_slices_patch() {
    let block = BlockHeader { offset: 2, size: 3, patch_id: 0, flags: 0, hash: vec![0u8; 20] };
    let p = package(vec![block]);
    let patch = vec![10, 11, 12, 13, 14, 15];
    assert_eq!(p.get_block_raw(0, &patch).unwrap(), vec![12, 13, 14]);
}

#[test]
fn get_block_raw_short_patch_is_io_error() {
    let block = BlockHeader { offset: 2, size: 10, patch_id: 0, flags: 0, hash: vec![0u8; 20] };
    let p = package(vec![block]);
    let patch = vec![0u8; 5];
    assert_eq!(p.get_block_raw(0, &patch).unwrap_err(), PackageError::Io);
    assert_eq!(p.get_block_raw(3, &patch).unwrap_err(), PackageError::Range);
}
