//! Big-endian scalar readers and small byte-buffer helpers, verified against
//! direct spec-level definitions.

use vstd::prelude::*;

verus! {

pub open spec fn spec_u16_be(s: Seq<u8>, i: int) -> u16 {
    ((s[i] as u16) << 8) | (s[i + 1] as u16)
}

pub open spec fn spec_u32_be(s: Seq<u8>, i: int) -> u32 {
    ((s[i] as u32) << 24) | ((s[i + 1] as u32) << 16) | ((s[i + 2] as u32) << 8)
        | (s[i + 3] as u32)
}

pub open spec fn spec_u64_be(s: Seq<u8>, i: int) -> u64 {
    ((s[i] as u64) << 56) | ((s[i + 1] as u64) << 48) | ((s[i + 2] as u64) << 40)
        | ((s[i + 3] as u64) << 32) | ((s[i + 4] as u64) << 24) | ((s[i + 5] as u64) << 16)
        | ((s[i + 6] as u64) << 8) | (s[i + 7] as u64)
}

pub fn read_u16_be(s: &Vec<u8>, i: usize) -> (r: u16)
    requires
        i + 2 <= s@.len(),
    ensures
        r == spec_u16_be(s@, i as int),
{
    let _n: usize = s.len();
    ((s[i] as u16) << 8u16) | (s[i + 1] as u16)
}

pub fn read_u32_be(s: &Vec<u8>, i: usize) -> (r: u32)
    requires
        i + 4 <= s@.len(),
    ensures
        r == spec_u32_be(s@, i as int),
{
    let _n: usize = s.len();
    ((s[i] as u32) << 24u32) | ((s[i + 1] as u32) << 16u32) | ((s[i + 2] as u32) << 8u32)
        | (s[i + 3] as u32)
}

pub fn read_u64_be(s: &Vec<u8>, i: usize) -> (r: u64)
    requires
        i + 8 <= s@.len(),
    ensures
        r == spec_u64_be(s@, i as int),
{
    let _n: usize = s.len();
    ((s[i] as u64) << 56u64) | ((s[i + 1] as u64) << 48u64) | ((s[i + 2] as u64) << 40u64)
        | ((s[i + 3] as u64) << 32u64) | ((s[i + 4] as u64) << 24u64)
        | ((s[i + 5] as u64) << 16u64) | ((s[i + 6] as u64) << 8u64) | (s[i + 7] as u64)
}

/// Copies `s[start .. start + len]` into a fresh buffer.
pub fn copy_range(s: &Vec<u8>, start: usize, len: usize) -> (r: Vec<u8>)
    requires
        start + len <= s@.len(),
    ensures
        r@ == s@.subrange(start as int, start as int + len as int),
{
    let _n: usize = s.len();
    let mut r: Vec<u8> = Vec::new();
    let mut k: usize = 0;
    while k < len
        invariant
            k <= len,
            start + len <= s@.len(),
            s@.len() <= usize::MAX,
            r@ == s@.subrange(start as int, start as int + k as int),
        decreases len - k,
    {
        r.push(s[start + k]);
        proof {
            assert(s@.subrange(start as int, start as int + (k + 1) as int) =~= s@.subrange(
                start as int,
                start as int + k as int,
            ).push(s@[start as int + k as int]));
        }
        k += 1;
    }
    r
}

/// Compares two byte buffers for equality of contents.
pub fn bytes_eq(a: &Vec<u8>, b: &Vec<u8>) -> (r: bool)
    ensures
        r == (a@ == b@),
{
    if a.len() != b.len() {
        return false;
    }
    let mut k: usize = 0;
    while k < a.len()
        invariant
            k <= a@.len(),
            a@.len() == b@.len(),
            forall|j: int| 0 <= j < k ==> a@[j] == b@[j],
        decreases a@.len() - k,
    {
        if a[k] != b[k] {
            return false;
        }
        k += 1;
    }
    proof {
        assert(a@ =~= b@);
    }
    true
}

} // verus!
