//! The decoded package and the block-reassembly engine: resolving a block's
//! raw and logical bytes, and stitching consecutive blocks into one logical
//! file.

use vstd::prelude::*;
use crate::PackageError;
use crate::bytes::copy_range;
use crate::codec::{HEADER_SIZE, ENTRY_RECORD_SIZE, BLOCK_RECORD_SIZE, spec_header_ok,
    header_matches, entry_matches, block_matches, parse_header, parse_entry_table,
    parse_block_table};
use crate::structs::{PackageHeader, EntryHeader, BlockHeader, BLOCK_SIZE};

verus! {

/// The outcome of one external decompression call, as the caller observed
/// it: the fixed-size output buffer it filled, and the byte count the
/// transform reported (zero or negative reports failure).
pub struct DecompressOutcome {
    pub output: Vec<u8>,
    pub produced: i64,
}

/// A decoded container: its header and both record tables. Raw block bytes
/// live in sibling patch files and are handed in by the caller per call.
#[derive(Debug)]
pub struct Package {
    pub header: PackageHeader,
    pub entries: Vec<EntryHeader>,
    pub blocks: Vec<BlockHeader>,
}

/// Walks the block table from block `cur`: the first visited block
/// contributes its logical length minus `soff`, later ones their whole
/// logical length, until `fs` bytes are covered. Returns how many blocks the
/// walk visits, or `None` if it runs off the table's end first.
pub open spec fn spec_walk(blocks: Seq<BlockHeader>, cur: int, soff: int, fs: int) -> Option<int>
    decreases blocks.len() - cur,
{
    if fs <= 0 {
        Some(0)
    } else if cur < 0 || cur >= blocks.len() {
        None
    } else {
        let take = vstd::math::min(fs, blocks[cur].logical_len() - soff);
        match spec_walk(blocks, cur + 1, 0, fs - take) {
            Some(n) => Some(n + 1),
            None => None,
        }
    }
}

/// A successful walk visits at least one block when there are bytes to
/// gather, and stays inside the table: it visits blocks `cur` through
/// `cur + n - 1`.
pub proof fn lemma_walk_props(blocks: Seq<BlockHeader>, cur: int, soff: int, fs: int)
    requires
        spec_walk(blocks, cur, soff, fs) is Some,
    ensures
        spec_walk(blocks, cur, soff, fs)->Some_0 >= 0,
        fs > 0 ==> spec_walk(blocks, cur, soff, fs)->Some_0 > 0,
        spec_walk(blocks, cur, soff, fs)->Some_0 > 0 ==> cur + spec_walk(blocks, cur, soff, fs)->Some_0
            <= blocks.len() && cur >= 0,
    decreases blocks.len() - cur,
{
    if fs <= 0 {
    } else if cur < 0 || cur >= blocks.len() {
    } else {
        let take = vstd::math::min(fs, blocks[cur].logical_len() - soff);
        lemma_walk_props(blocks, cur + 1, 0, fs - take);
    }
}

/// The bytes of one logical file, stitched from the logical bytes of the
/// blocks that hold it: from the block at index `k` of `datas` take up to
/// `fs` bytes starting at `soff`, then walk on with offset zero until `fs`
/// bytes are gathered or the data runs out.
pub open spec fn spec_stitched(datas: Seq<Seq<u8>>, k: int, soff: int, fs: int) -> Seq<u8>
    decreases datas.len() - k,
{
    if fs <= 0 || k < 0 || k >= datas.len() {
        Seq::empty()
    } else {
        let take = vstd::math::min(fs, datas[k].len() - soff);
        datas[k].subrange(soff, soff + take) + spec_stitched(datas, k + 1, 0, fs - take)
    }
}

/// Both tables, as the header declares them, fit inside the container.
pub open spec fn spec_tables_ok(c: Seq<u8>) -> bool {
    &&& (crate::bytes::spec_u32_be(c, 184) as int) + (crate::bytes::spec_u32_be(c, 180) as int)
        * ENTRY_RECORD_SIZE <= c.len()
    &&& (crate::bytes::spec_u32_be(c, 212) as int) + (crate::bytes::spec_u32_be(c, 208) as int)
        * BLOCK_RECORD_SIZE <= c.len()
}

/// The container opens: the header decodes and both tables are addressable.
pub open spec fn spec_read_ok(c: Seq<u8>) -> bool {
    spec_header_ok(c) && spec_tables_ok(c)
}

impl Package {
    /// Every entry in the table satisfies the ranges its packed encoding
    /// forces; `read` establishes this.
    pub open spec fn wf(&self) -> bool {
        forall|j: int| 0 <= j < self.entries@.len() ==> (#[trigger] self.entries@[j]).wf()
    }

    /// Decodes a whole container image: header, then entry table and block
    /// table at their declared offsets. Fails with a decode error when the
    /// container is shorter than the header, the language code is not in
    /// its enumeration, or a declared table region reaches past the end of
    /// the container.
    pub fn read(c: &Vec<u8>) -> (r: Result<Package, PackageError>)
        ensures
            match r {
                Ok(p) => {
                    &&& spec_read_ok(c@)
                    &&& header_matches(p.header, c@)
                    &&& p.entries@.len() == p.header.entry_table_size
                    &&& forall|j: int|
                        0 <= j < p.entries@.len() ==> entry_matches(
                            #[trigger] p.entries@[j],
                            c@,
                            p.header.entry_table_offset + j * ENTRY_RECORD_SIZE,
                        )
                    &&& p.blocks@.len() == p.header.block_table_size
                    &&& forall|j: int|
                        0 <= j < p.blocks@.len() ==> block_matches(
                            #[trigger] p.blocks@[j],
                            c@,
                            p.header.block_table_offset + j * BLOCK_RECORD_SIZE,
                        )
                    &&& p.wf()
                },
                Err(e) => !spec_read_ok(c@) && e == PackageError::Decode,
            },
    {
        let header = match parse_header(c) {
            Ok(h) => h,
            Err(e) => {
                return Err(e);
            },
        };
        let clen: u64 = c.len() as u64;
        proof {
            assert((header.entry_table_size as u64) * 16 <= 0xffffffffu64 * 16)
                by (nonlinear_arith)
                requires
                    header.entry_table_size <= 0xffffffffu32,
            ;
            assert((header.block_table_size as u64) * 32 <= 0xffffffffu64 * 32)
                by (nonlinear_arith)
                requires
                    header.block_table_size <= 0xffffffffu32,
            ;
        }
        if (header.entry_table_offset as u64) + (header.entry_table_size as u64) * 16u64 > clen {
            return Err(PackageError::Decode);
        }
        if (header.block_table_offset as u64) + (header.block_table_size as u64) * 32u64 > clen {
            return Err(PackageError::Decode);
        }
        let entries = parse_entry_table(
            c,
            header.entry_table_offset as usize,
            header.entry_table_size as usize,
        );
        let blocks = parse_block_table(
            c,
            header.block_table_offset as usize,
            header.block_table_size as usize,
        );
        Ok(Package { header, entries, blocks })
    }

    /// The ordered entry table; an entry's index in it is its implicit id.
    pub fn list_entries(&self) -> (r: &Vec<EntryHeader>)
        ensures
            r@ == self.entries@,
    {
        &self.entries
    }

    /// The entry's starting byte offset lies inside the first visited
    /// block's logical bytes; an offset past that block's end gives the
    /// walk no defined meaning.
    pub open spec fn start_offset_ok(&self, entry: EntryHeader) -> bool {
        (entry.file_size > 0 && (entry.starting_block as int) < self.blocks@.len())
            ==> entry.starting_block_offset as int
                <= self.blocks@[entry.starting_block as int].logical_len()
    }

    /// How many consecutive blocks, starting at the entry's starting block,
    /// the assembly of this entry walks through, judged from the table's
    /// declared logical lengths alone. A walk that would leave the table
    /// (including a starting block already outside it) is a range error.
    #[verifier::loop_isolation(false)]
    pub fn blocks_needed(&self, entry: &EntryHeader) -> (r: Result<usize, PackageError>)
        requires
            entry.wf(),
            self.start_offset_ok(*entry),
        ensures
            match r {
                Ok(n) => spec_walk(
                    self.blocks@,
                    entry.starting_block as int,
                    entry.starting_block_offset as int,
                    entry.file_size as int,
                ) == Some(n as int),
                Err(e) => spec_walk(
                    self.blocks@,
                    entry.starting_block as int,
                    entry.starting_block_offset as int,
                    entry.file_size as int,
                ) is None && e == PackageError::Range,
            },
    {
        let ghost sb = entry.starting_block as int;
        let ghost soff0 = entry.starting_block_offset as int;
        let ghost fs0 = entry.file_size as int;
        if entry.file_size == 0 {
            return Ok(0);
        }
        let blocks_len = self.blocks.len();
        let mut rem: u64 = entry.file_size;
        let mut cur: usize = entry.starting_block as usize;
        let mut n: usize = 0;
        while rem > 0
            invariant
                entry.file_size > 0,
                cur == sb + n,
                rem <= entry.file_size,
                n == 0 ==> rem == entry.file_size,
                rem > 0 ==> (match spec_walk(
                    self.blocks@,
                    cur as int,
                    if n == 0 { soff0 } else { 0 },
                    rem as int,
                ) {
                    Some(m) => spec_walk(self.blocks@, sb, soff0, fs0) == Some(n + m),
                    None => spec_walk(self.blocks@, sb, soff0, fs0) is None,
                }),
                rem == 0 ==> spec_walk(self.blocks@, sb, soff0, fs0) == Some(n as int),
            decreases self.blocks@.len() - cur,
        {
            let ghost eff_g: int = if n == 0 { soff0 } else { 0 };
            if cur >= blocks_len {
                proof {
                    assert(spec_walk(self.blocks@, cur as int, eff_g, rem as int) is None);
                }
                return Err(PackageError::Range);
            }
            let bh = &self.blocks[cur];
            let blen: u64 = if bh.flags & 0x100 != 0 {
                0x40000u64
            } else {
                bh.size as u64
            };
            let eff: u64 = if n == 0 {
                entry.starting_block_offset as u64
            } else {
                0u64
            };
            proof {
                assert(blen as int == self.blocks@[cur as int].logical_len());
                assert(eff as int == eff_g);
                assert(eff <= blen);
            }
            let avail: u64 = blen - eff;
            let take: u64 = if rem < avail {
                rem
            } else {
                avail
            };
            proof {
                let take_s = vstd::math::min(
                    rem as int,
                    self.blocks@[cur as int].logical_len() - eff_g,
                );
                assert(take as int == take_s);
                assert(spec_walk(self.blocks@, cur as int, eff_g, rem as int) == (
                match spec_walk(self.blocks@, cur as int + 1, 0, rem as int - take_s) {
                    Some(m) => Some(m + 1),
                    None => None::<int>,
                }));
            }
            rem = rem - take;
            cur = cur + 1;
            n = n + 1;
        }
        Ok(n)
    }

    /// Stitches one entry's complete logical bytes out of the logical block
    /// contents the caller fetched: `block_data[k]` holds the logical bytes
    /// of block `starting_block + k`, for exactly the blocks the walk
    /// visits (their number is what `blocks_needed` returns). The first
    /// block contributes from `starting_block_offset` on, later blocks from
    /// their start, until `file_size` bytes are gathered; a walk that would
    /// leave the block table yields a range error and no buffer at all.
    #[verifier::loop_isolation(false)]
    pub fn get_entry_data(&self, entry: &EntryHeader, block_data: &Vec<Vec<u8>>) -> (r: Result<
        Vec<u8>,
        PackageError,
    >)
        requires
            entry.wf(),
            self.start_offset_ok(*entry),
            entry.file_size as int <= usize::MAX as int,
            ({
                let w = spec_walk(
                    self.blocks@,
                    entry.starting_block as int,
                    entry.starting_block_offset as int,
                    entry.file_size as int,
                );
                w is Some ==> block_data@.len() == w->Some_0 && (forall|k: int|
                    0 <= k < w->Some_0 ==> (#[trigger] block_data@[k])@.len()
                        == self.blocks@[entry.starting_block + k].logical_len())
            }),
        ensures
            match r {
                Ok(v) => {
                    &&& spec_walk(
                        self.blocks@,
                        entry.starting_block as int,
                        entry.starting_block_offset as int,
                        entry.file_size as int,
                    ) is Some
                    &&& v@ == spec_stitched(
                        block_data@.map_values(|d: Vec<u8>| d@),
                        0,
                        entry.starting_block_offset as int,
                        entry.file_size as int,
                    )
                    &&& v@.len() == entry.file_size
                },
                Err(e) => spec_walk(
                    self.blocks@,
                    entry.starting_block as int,
                    entry.starting_block_offset as int,
                    entry.file_size as int,
                ) is None && e == PackageError::Range,
            },
    {
        let ghost datas = block_data@.map_values(|d: Vec<u8>| d@);
        let ghost sb = entry.starting_block as int;
        let ghost soff0 = entry.starting_block_offset as int;
        let ghost fs0 = entry.file_size as int;
        let n = match self.blocks_needed(entry) {
            Ok(n) => n,
            Err(e) => {
                return Err(e);
            },
        };
        let fs: usize = entry.file_size as usize;
        let sb_us: usize = entry.starting_block as usize;
        let blocks_len: usize = self.blocks.len();
        let mut out: Vec<u8> = Vec::new();
        let mut rem: usize = fs;
        let mut k: usize = 0;
        proof {
            assert(Seq::<u8>::empty() + spec_stitched(datas, 0, soff0, fs0) =~= spec_stitched(
                datas,
                0,
                soff0,
                fs0,
            ));
        }
        while k < n
            invariant
                k <= n,
                out@.len() + rem == fs,
                spec_walk(
                    self.blocks@,
                    sb + k,
                    if k == 0 { soff0 } else { 0 },
                    rem as int,
                ) == Some(n - k),
                spec_stitched(datas, 0, soff0, fs0) == out@ + spec_stitched(
                    datas,
                    k as int,
                    if k == 0 { soff0 } else { 0 },
                    rem as int,
                ),
            decreases n - k,
        {
            let ghost eff_g: int = if k == 0 { soff0 } else { 0 };
            proof {
                if rem == 0 {
                    assert(spec_walk(self.blocks@, sb + k, eff_g, 0) == Some(0int));
                }
                // the walk has n - k >= 1 blocks left, so block sb + k is in the table
                lemma_walk_props(self.blocks@, sb + k, eff_g, rem as int);
                assert(sb + k < self.blocks@.len());
            }
            let bh = &self.blocks[sb_us + k];
            let blen: usize = if bh.flags & 0x100 != 0 {
                0x40000usize
            } else {
                bh.size as usize
            };
            let eff: usize = if k == 0 {
                entry.starting_block_offset as usize
            } else {
                0usize
            };
            proof {
                assert(blen as int == self.blocks@[sb + k].logical_len());
                assert(datas[k as int] == block_data@[k as int]@);
                assert(datas[k as int].len() == blen as int);
                assert(eff as int == eff_g);
                assert(eff <= blen);
            }
            let avail: usize = blen - eff;
            let take: usize = if rem < avail {
                rem
            } else {
                avail
            };
            let bd = &block_data[k];
            let ghost out0 = out@;
            let mut j: usize = eff;
            while j < eff + take
                invariant
                    eff <= j <= eff + take,
                    eff + take <= bd@.len(),
                    bd@ == datas[k as int],
                    out@ == out0 + bd@.subrange(eff as int, j as int),
                decreases eff + take - j,
            {
                proof {
                    assert(out0 + bd@.subrange(eff as int, j + 1) =~= (out0 + bd@.subrange(
                        eff as int,
                        j as int,
                    )).push(bd@[j as int]));
                }
                out.push(bd[j]);
                j += 1;
            }
            proof {
                let take_s = vstd::math::min(rem as int, datas[k as int].len() - eff_g);
                assert(take as int == take_s);
                assert(spec_stitched(datas, k as int, eff_g, rem as int) == datas[k as int]
                    .subrange(eff_g, eff_g + take_s) + spec_stitched(
                    datas,
                    k + 1,
                    0,
                    rem as int - take_s,
                ));
                assert(spec_walk(self.blocks@, sb + k, eff_g, rem as int) == (
                match spec_walk(self.blocks@, sb + k + 1, 0, rem as int - take_s) {
                    Some(m) => Some(m + 1),
                    None => None::<int>,
                }));
                assert(out0 + (datas[k as int].subrange(eff_g, eff_g + take_s) + spec_stitched(
                    datas,
                    k + 1,
                    0,
                    rem as int - take_s,
                )) =~= (out0 + datas[k as int].subrange(eff_g, eff_g + take_s)) + spec_stitched(
                    datas,
                    k + 1,
                    0,
                    rem as int - take_s,
                ));
            }
            rem = rem - take;
            k = k + 1;
        }
        proof {
            if rem > 0 {
                lemma_walk_props(self.blocks@, sb + n, if n == 0 { soff0 } else { 0 }, rem as int);
            }
            assert(rem == 0);
            assert(spec_stitched(datas, n as int, if n == 0 { soff0 } else { 0 }, 0) =~= Seq::<
                u8,
            >::empty());
            assert(out@ + Seq::<u8>::empty() =~= out@);
        }
        Ok(out)
    }

    /// The block's raw bytes taken out of `patch`, the contents of the patch
    /// file owning the block: exactly `size` bytes from `offset`. An index
    /// outside the table is a range error; a patch buffer too short for the
    /// declared region is an I/O error.
    pub fn get_block_raw(&self, block_index: usize, patch: &Vec<u8>) -> (r: Result<
        Vec<u8>,
        PackageError,
    >)
        ensures
            match r {
                Ok(v) => {
                    let bh = self.blocks@[block_index as int];
                    &&& block_index < self.blocks@.len()
                    &&& bh.offset + bh.size <= patch@.len()
                    &&& v@ == patch@.subrange(bh.offset as int, bh.offset + bh.size)
                },
                Err(e) => {
                    if block_index >= self.blocks@.len() {
                        e == PackageError::Range
                    } else {
                        let bh = self.blocks@[block_index as int];
                        bh.offset + bh.size > patch@.len() && e == PackageError::Io
                    }
                },
            },
    {
        if block_index >= self.blocks.len() {
            return Err(PackageError::Range);
        }
        let bh = &self.blocks[block_index];
        if (bh.offset as u64) + (bh.size as u64) > patch.len() as u64 {
            return Err(PackageError::Io);
        }
        Ok(copy_range(patch, bh.offset as usize, bh.size as usize))
    }

    /// The block's logical bytes, decided from the raw bytes the caller
    /// fetched and, for a compressed block, from the outcome of the
    /// external decompression call the caller made on them: an uncompressed
    /// block's raw bytes pass through unchanged; a compressed block yields
    /// exactly the transform's output buffer, and a reported count of zero
    /// or less is a decompression error, never an empty success.
    pub fn get_block(&self, block_index: usize, raw: Vec<u8>, transform: Option<
        DecompressOutcome,
    >) -> (r: Result<Vec<u8>, PackageError>)
        requires
            block_index < self.blocks@.len() ==> ((self.blocks@[block_index as int].compressed())
                <==> transform is Some),
        ensures
            match r {
                Ok(v) => {
                    let bh = self.blocks@[block_index as int];
                    &&& block_index < self.blocks@.len()
                    &&& if bh.compressed() {
                        v@ == transform->Some_0.output@ && transform->Some_0.produced > 0
                    } else {
                        v@ == raw@
                    }
                },
                Err(e) => {
                    if block_index >= self.blocks@.len() {
                        e == PackageError::Range
                    } else {
                        &&& self.blocks@[block_index as int].compressed()
                        &&& transform->Some_0.produced <= 0
                        &&& e == PackageError::Decompression
                    }
                },
            },
    {
        if block_index >= self.blocks.len() {
            return Err(PackageError::Range);
        }
        let compressed = self.blocks[block_index].flags & 0x100 != 0;
        if compressed {
            match transform {
                Some(t) => {
                    if t.produced <= 0 {
                        Err(PackageError::Decompression)
                    } else {
                        Ok(t.output)
                    }
                },
                None => {
                    // unreachable under the precondition
                    Err(PackageError::Decompression)
                },
            }
        } else {
            Ok(raw)
        }
    }
}

} // verus!
