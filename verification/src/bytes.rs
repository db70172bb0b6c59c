//! Byte-buffer workloads: filling a buffer with a repeating pattern, copying
//! one buffer into another, and incrementing every byte with wraparound.

use vstd::prelude::*;

verus! {

/// A buffer of `n` bytes where the byte at index `i` is `i % 256`.
pub fn fill_pattern(n: usize) -> (v: Vec<u8>)
    ensures
        v@.len() == n,
        forall|i: int| 0 <= i < n ==> v@[i] == (i % 256) as u8,
{
    let mut v: Vec<u8> = Vec::new();
    let mut i: usize = 0;
    while i < n
        invariant
            i <= n,
            v@.len() == i,
            forall|j: int| 0 <= j < i ==> v@[j] == (j % 256) as u8,
        decreases n - i,
    {
        v.push((i % 256) as u8);
        i = i + 1;
    }
    v
}

/// Copies `src` into `dst`, which must already have the same length.
pub fn copy_bytes(src: &Vec<u8>, dst: &mut Vec<u8>)
    requires
        old(dst)@.len() == src@.len(),
    ensures
        final(dst)@ == src@,
{
    let mut i: usize = 0;
    while i < src.len()
        invariant
            i <= src@.len(),
            dst@.len() == src@.len(),
            forall|j: int| 0 <= j < i ==> dst@[j] == src@[j],
        decreases src@.len() - i,
    {
        dst[i] = src[i];
        i = i + 1;
    }
    proof {
        assert(dst@ =~= src@);
    }
}

/// Increments every byte by one, wrapping 255 around to 0.
pub fn increment_bytes(v: &mut Vec<u8>)
    ensures
        final(v)@.len() == old(v)@.len(),
        forall|i: int| 0 <= i < old(v)@.len() ==> final(v)@[i] == (old(v)@[i] + 1) % 256,
{
    let mut i: usize = 0;
    while i < v.len()
        invariant
            i <= v@.len(),
            v@.len() == old(v)@.len(),
            forall|j: int| i <= j < v@.len() ==> v@[j] == old(v)@[j],
            forall|j: int| 0 <= j < i ==> v@[j] == (old(v)@[j] + 1) % 256,
        decreases v@.len() - i,
    {
        let b = v[i];
        v[i] = b.wrapping_add(1);
        i = i + 1;
    }
}

} // verus!
