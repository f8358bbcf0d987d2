//! Integrity checks over a container: the two table hashes, per-block raw
//! hashes, the header signature, and entry reachability. Digests and the
//! signature outcome come from outside cryptographic crates behind trusted
//! wrappers; every decision around them is verified.

use vstd::prelude::*;
use rsa::pkcs1::DecodeRsaPublicKey;
use sha1::Digest;
use crate::bytes::{bytes_eq, copy_range};
use crate::codec::HEADER_SIZE;
use crate::structs::{BlockHeader, EntryHeader};
use crate::package::{Package, spec_walk};

verus! {

/// The SHA-1 digest (20 bytes) of a byte sequence.
pub uninterp spec fn sha1_of(data: Seq<u8>) -> Seq<u8>;

/// The SHA-256 digest (32 bytes) of a byte sequence.
pub uninterp spec fn sha256_of(data: Seq<u8>) -> Seq<u8>;

/// Whether `signature` is a valid RSA-PSS signature (SHA-256, 16-byte salt)
/// over the already-hashed message `digest` under the RSA public key encoded
/// as PKCS#1 DER in `key_der` (false as well when `key_der` does not parse
/// as such a key).
pub uninterp spec fn rsa_pss_sha256_ok(key_der: Seq<u8>, digest: Seq<u8>, signature: Seq<u8>) -> bool;

/// Relies on sha1::Sha1 through the Digest interface: the 20-byte digest is
/// a function of the input bytes alone.
#[verifier::external_body]
fn sha1_digest(data: &Vec<u8>) -> (r: Vec<u8>)
    ensures
        r@ == sha1_of(data@),
        r@.len() == 20,
{
    sha1::Sha1::digest(data.as_slice()).to_vec()
}

/// Relies on sha2::Sha256 through the Digest interface: the 32-byte digest
/// is a function of the input bytes alone.
#[verifier::external_body]
fn sha256_digest(data: &Vec<u8>) -> (r: Vec<u8>)
    ensures
        r@ == sha256_of(data@),
        r@.len() == 32,
{
    sha2::Sha256::digest(data.as_slice()).to_vec()
}

/// Relies on rsa::RsaPublicKey::from_pkcs1_der and RsaPublicKey::verify with
/// the Pss scheme over SHA-256 and a 16-byte salt: both are deterministic,
/// so the outcome is a function of the key bytes, the digest and the
/// signature alone; a key that does not parse verifies nothing.
#[verifier::external_body]
fn pss_verify(key_der: &Vec<u8>, digest: &Vec<u8>, signature: &Vec<u8>) -> (r: bool)
    ensures
        r == rsa_pss_sha256_ok(key_der@, digest@, signature@),
{
    match rsa::RsaPublicKey::from_pkcs1_der(key_der.as_slice()) {
        Ok(key) => key.verify(
            rsa::Pss::new_with_salt::<sha2::Sha256>(16),
            digest.as_slice(),
            signature.as_slice(),
        ).is_ok(),
        Err(_) => false,
    }
}

/// The structured outcome of a full verification pass. The two failure
/// counts that need outside work per block — raw reads and decompression
/// calls — count over what the caller fetched and observed.
pub struct VerifyReport {
    pub header_signature_ok: bool,
    pub entry_table_hash_ok: bool,
    pub block_table_hash_ok: bool,
    pub block_hash_failures: usize,
    pub decompression_failures: usize,
    pub entry_failures: usize,
}

/// One block's raw bytes match its declared 20-byte hash.
pub open spec fn block_hash_check(bh: BlockHeader, raw: Seq<u8>) -> bool {
    sha1_of(raw) == bh.hash@
}

/// How many of the first `upto` blocks fail their raw-hash check against
/// the fetched raw contents `raws`.
pub open spec fn spec_hash_failures(blocks: Seq<BlockHeader>, raws: Seq<Seq<u8>>, upto: int) -> int
    decreases upto,
{
    if upto <= 0 {
        0
    } else {
        spec_hash_failures(blocks, raws, upto - 1) + if block_hash_check(
            blocks[upto - 1],
            raws[upto - 1],
        ) {
            0int
        } else {
            1int
        }
    }
}

/// An entry can be fully assembled from the table alone: its walk starts
/// inside the block table, begins inside its first block's logical bytes,
/// and never leaves the table.
pub open spec fn entry_reachable(blocks: Seq<BlockHeader>, e: EntryHeader) -> bool {
    let sb = e.starting_block as int;
    e.file_size == 0 || (sb < blocks.len() && e.starting_block_offset as int
        <= blocks[sb].logical_len() && spec_walk(
        blocks,
        sb,
        e.starting_block_offset as int,
        e.file_size as int,
    ) is Some)
}

/// How many of the first `upto` entries are not reachable.
pub open spec fn spec_unreachable(blocks: Seq<BlockHeader>, entries: Seq<EntryHeader>, upto: int) -> int
    decreases upto,
{
    if upto <= 0 {
        0
    } else {
        spec_unreachable(blocks, entries, upto - 1) + if entry_reachable(
            blocks,
            entries[upto - 1],
        ) {
            0int
        } else {
            1int
        }
    }
}

proof fn lemma_hash_failures_tamper_step(
    blocks: Seq<BlockHeader>,
    raws1: Seq<Seq<u8>>,
    raws2: Seq<Seq<u8>>,
    i: int,
    upto: int,
)
    requires
        raws1.len() == blocks.len(),
        raws2.len() == blocks.len(),
        0 <= i < blocks.len(),
        forall|j: int| 0 <= j < blocks.len() && j != i ==> raws1[j] == raws2[j],
        0 <= upto <= blocks.len(),
    ensures
        spec_hash_failures(blocks, raws2, upto) - spec_hash_failures(blocks, raws1, upto) == if i
            < upto {
            (if block_hash_check(blocks[i], raws2[i]) {
                0int
            } else {
                1int
            }) - (if block_hash_check(blocks[i], raws1[i]) {
                0int
            } else {
                1int
            })
        } else {
            0int
        },
    decreases upto,
{
    if upto > 0 {
        lemma_hash_failures_tamper_step(blocks, raws1, raws2, i, upto - 1);
    }
}

/// Changing the raw content handed in for one block leaves every other
/// block's hash check untouched, and moves the total mismatch count exactly
/// by the difference at that one block: altering a block's bytes can affect
/// no check but its own.
pub proof fn lemma_single_block_tamper(
    blocks: Seq<BlockHeader>,
    raws1: Seq<Seq<u8>>,
    raws2: Seq<Seq<u8>>,
    i: int,
)
    requires
        raws1.len() == blocks.len(),
        raws2.len() == blocks.len(),
        0 <= i < blocks.len(),
        forall|j: int| 0 <= j < blocks.len() && j != i ==> raws1[j] == raws2[j],
    ensures
        forall|j: int|
            0 <= j < blocks.len() && j != i ==> block_hash_check(blocks[j], raws1[j])
                == block_hash_check(blocks[j], raws2[j]),
        spec_hash_failures(blocks, raws2, blocks.len() as int) - spec_hash_failures(
            blocks,
            raws1,
            blocks.len() as int,
        ) == (if block_hash_check(blocks[i], raws2[i]) {
            0int
        } else {
            1int
        }) - (if block_hash_check(blocks[i], raws1[i]) {
            0int
        } else {
            1int
        }),
{
    lemma_hash_failures_tamper_step(blocks, raws1, raws2, i, blocks.len() as int);
}

/// A change confined to the first 320 bytes of the container — the region
/// the header signature covers — leaves both table-hash checks unchanged,
/// as long as the declared table regions lie beyond the header.
pub proof fn lemma_header_tamper_leaves_tables(p: Package, c1: Seq<u8>, c2: Seq<u8>)
    requires
        c1.len() == c2.len(),
        forall|j: int| HEADER_SIZE <= j < c1.len() ==> c1[j] == c2[j],
        p.header.entry_table_offset >= HEADER_SIZE,
        p.header.block_table_offset >= HEADER_SIZE,
    ensures
        p.entry_table_check(c1) == p.entry_table_check(c2),
        p.block_table_check(c1) == p.block_table_check(c2),
{
    let eoff = p.header.entry_table_offset as int;
    let elen = (p.header.entry_table_size as int) * 16;
    if eoff + elen <= c1.len() && elen >= 0 {
        assert(c1.subrange(eoff, eoff + elen) =~= c2.subrange(eoff, eoff + elen));
    }
    let boff = p.header.block_table_offset as int;
    let blen = (p.header.block_table_size as int) * 32;
    if boff + blen <= c1.len() && blen >= 0 {
        assert(c1.subrange(boff, boff + blen) =~= c2.subrange(boff, boff + blen));
    }
}

impl Package {
    /// The entry-table region the header declares fits in the container and
    /// its bytes hash (SHA-1) to the header's declared entry-table hash.
    pub open spec fn entry_table_check(&self, c: Seq<u8>) -> bool {
        let off = self.header.entry_table_offset as int;
        let len = (self.header.entry_table_size as int) * 16;
        off + len <= c.len() && sha1_of(c.subrange(off, off + len)) == self.header.entry_table_hash@
    }

    /// The block-table region the header declares fits in the container and
    /// its bytes hash (SHA-1) to the header's declared block-table hash.
    pub open spec fn block_table_check(&self, c: Seq<u8>) -> bool {
        let off = self.header.block_table_offset as int;
        let len = (self.header.block_table_size as int) * 32;
        off + len <= c.len() && sha1_of(c.subrange(off, off + len)) == self.header.block_table_hash@
    }

    /// The container holds the full header and a 256-byte signature at the
    /// header's declared signature offset, and that signature verifies
    /// (RSA-PSS, SHA-256, 16-byte salt) over the SHA-256 digest of the
    /// first 320 bytes under the supplied PKCS#1 DER public key.
    pub open spec fn signature_check(&self, c: Seq<u8>, key_der: Seq<u8>) -> bool {
        let soff = self.header.header_signature_offset as int;
        &&& c.len() >= HEADER_SIZE
        &&& soff + 256 <= c.len()
        &&& rsa_pss_sha256_ok(key_der, sha256_of(c.subrange(0, HEADER_SIZE as int)), c.subrange(soff, soff + 256))
    }

    /// Recomputes the entry-table hash from the container bytes and
    /// compares it to the header's declared hash.
    pub fn verify_entry_table_hash(&self, c: &Vec<u8>) -> (r: bool)
        ensures
            r == self.entry_table_check(c@),
    {
        let clen: u64 = c.len() as u64;
        proof {
            assert((self.header.entry_table_size as u64) * 16 <= 0xffffffffu64 * 16)
                by (nonlinear_arith)
                requires
                    self.header.entry_table_size <= 0xffffffffu32,
            ;
        }
        let len: u64 = (self.header.entry_table_size as u64) * 16u64;
        if (self.header.entry_table_offset as u64) + len > clen {
            return false;
        }
        let region = copy_range(c, self.header.entry_table_offset as usize, len as usize);
        let digest = sha1_digest(&region);
        bytes_eq(&digest, &self.header.entry_table_hash)
    }

    /// Recomputes the block-table hash from the container bytes and
    /// compares it to the header's declared hash.
    pub fn verify_block_table_hash(&self, c: &Vec<u8>) -> (r: bool)
        ensures
            r == self.block_table_check(c@),
    {
        let clen: u64 = c.len() as u64;
        proof {
            assert((self.header.block_table_size as u64) * 32 <= 0xffffffffu64 * 32)
                by (nonlinear_arith)
                requires
                    self.header.block_table_size <= 0xffffffffu32,
            ;
        }
        let len: u64 = (self.header.block_table_size as u64) * 32u64;
        if (self.header.block_table_offset as u64) + len > clen {
            return false;
        }
        let region = copy_range(c, self.header.block_table_offset as usize, len as usize);
        let digest = sha1_digest(&region);
        bytes_eq(&digest, &self.header.block_table_hash)
    }

    /// Recomputes the SHA-256 digest of the first 320 container bytes and
    /// checks the embedded 256-byte signature against it under `key_der`.
    /// A cryptographically invalid signature is a reported failure, never
    /// an error.
    pub fn verify_header_signature(&self, c: &Vec<u8>, key_der: &Vec<u8>) -> (r: bool)
        ensures
            r == self.signature_check(c@, key_der@),
    {
        if c.len() < HEADER_SIZE {
            return false;
        }
        let soff: u64 = self.header.header_signature_offset as u64;
        if soff + 256u64 > c.len() as u64 {
            return false;
        }
        let head = copy_range(c, 0, HEADER_SIZE);
        let digest = sha256_digest(&head);
        let signature = copy_range(c, self.header.header_signature_offset as usize, 256);
        pss_verify(key_der, &digest, &signature)
    }

    /// Recomputes one block's raw-bytes hash and compares it to the
    /// block's declared hash; `raw` is the block's raw (pre-decompression)
    /// content as the caller fetched it.
    pub fn block_hash_ok(&self, block_index: usize, raw: &Vec<u8>) -> (r: bool)
        requires
            block_index < self.blocks@.len(),
        ensures
            r == block_hash_check(self.blocks@[block_index as int], raw@),
    {
        let digest = sha1_digest(raw);
        bytes_eq(&digest, &self.blocks[block_index].hash)
    }

    /// Checks every block's raw bytes against its declared hash and counts
    /// the mismatches, never stopping at the first; `raws[i]` is the raw
    /// content of block `i` as the caller fetched it.
    #[verifier::loop_isolation(false)]
    pub fn count_block_hash_failures(&self, raws: &Vec<Vec<u8>>) -> (r: usize)
        requires
            raws@.len() == self.blocks@.len(),
        ensures
            r == spec_hash_failures(
                self.blocks@,
                raws@.map_values(|v: Vec<u8>| v@),
                self.blocks@.len() as int,
            ),
    {
        let ghost rseq = raws@.map_values(|v: Vec<u8>| v@);
        let n = self.blocks.len();
        let mut failures: usize = 0;
        let mut i: usize = 0;
        while i < n
            invariant
                i <= n,
                failures <= i,
                failures == spec_hash_failures(self.blocks@, rseq, i as int),
            decreases n - i,
        {
            proof {
                assert(rseq[i as int] == raws@[i as int]@);
            }
            if !self.block_hash_ok(i, &raws[i]) {
                failures += 1;
            }
            i += 1;
        }
        failures
    }

    /// Checks every entry's walk against the block table and counts the
    /// entries that cannot be fully assembled (a starting block outside the
    /// table, a starting offset past its first block's logical bytes, or a
    /// walk that runs off the table), never stopping at the first.
    #[verifier::loop_isolation(false)]
    pub fn count_unreachable_entries(&self) -> (r: usize)
        requires
            self.wf(),
        ensures
            r == spec_unreachable(self.blocks@, self.entries@, self.entries@.len() as int),
    {
        let n = self.entries.len();
        let mut failures: usize = 0;
        let mut i: usize = 0;
        while i < n
            invariant
                i <= n,
                failures <= i,
                failures == spec_unreachable(self.blocks@, self.entries@, i as int),
            decreases n - i,
        {
            let e = self.entries[i];
            let reachable: bool;
            if e.file_size == 0 {
                reachable = true;
            } else if (e.starting_block as usize) >= self.blocks.len() {
                reachable = false;
            } else {
                let bh = &self.blocks[e.starting_block as usize];
                let blen: u64 = if bh.flags & 0x100 != 0 {
                    0x40000u64
                } else {
                    bh.size as u64
                };
                if (e.starting_block_offset as u64) > blen {
                    reachable = false;
                } else {
                    reachable = match self.blocks_needed(&e) {
                        Ok(_) => true,
                        Err(_) => false,
                    };
                }
            }
            proof {
                assert(reachable == entry_reachable(self.blocks@, self.entries@[i as int]));
            }
            if !reachable {
                failures += 1;
            }
            i += 1;
        }
        failures
    }

    /// Runs the container-level checks and assembles the structured
    /// report. `raws` holds every block's raw bytes as fetched by the
    /// caller; `decompression_failures` is the number of compressed blocks
    /// whose decompression the caller attempted through `get_block` and saw
    /// fail, measured outside because each attempt needs the external
    /// transform.
    pub fn verify(
        &self,
        c: &Vec<u8>,
        key_der: &Vec<u8>,
        raws: &Vec<Vec<u8>>,
        decompression_failures: usize,
    ) -> (r: VerifyReport)
        requires
            self.wf(),
            raws@.len() == self.blocks@.len(),
        ensures
            r.header_signature_ok == self.signature_check(c@, key_der@),
            r.entry_table_hash_ok == self.entry_table_check(c@),
            r.block_table_hash_ok == self.block_table_check(c@),
            r.block_hash_failures == spec_hash_failures(
                self.blocks@,
                raws@.map_values(|v: Vec<u8>| v@),
                self.blocks@.len() as int,
            ),
            r.decompression_failures == decompression_failures,
            r.entry_failures == spec_unreachable(
                self.blocks@,
                self.entries@,
                self.entries@.len() as int,
            ),
    {
        VerifyReport {
            header_signature_ok: self.verify_header_signature(c, key_der),
            entry_table_hash_ok: self.verify_entry_table_hash(c),
            block_table_hash_ok: self.verify_block_table_hash(c),
            block_hash_failures: self.count_block_hash_failures(raws),
            decompression_failures,
            entry_failures: self.count_unreachable_entries(),
        }
    }
}

} // verus!
