//! Helpers for the fixed-width byte values (commitments, nullifiers, hashes,
//! keys) that the pool engine moves around.

use vstd::prelude::*;

verus! {

/// Whether two 32-byte values hold the same bytes.
pub fn bytes32_eq(a: &[u8; 32], b: &[u8; 32]) -> (r: bool)
    ensures
        r <==> a@ == b@,
{
    let mut i: usize = 0;
    while i < 32
        invariant
            i <= 32,
            forall|j: int| 0 <= j < i ==> a@[j] == b@[j],
        decreases 32 - i,
    {
        if a[i] != b[i] {
            return false;
        }
        i += 1;
    }
    proof {
        assert(a@ =~= b@);
    }
    true
}

/// Copies the 32 bytes of `data` starting at `offset` into a fresh value.
pub fn read_bytes32(data: &Vec<u8>, offset: usize) -> (r: [u8; 32])
    requires
        offset + 32 <= data@.len(),
    ensures
        r@ == data@.subrange(offset as int, offset + 32),
{
    let n: usize = data.len();
    let mut r: [u8; 32] = [0u8; 32];
    let mut i: usize = 0;
    while i < 32
        invariant
            i <= 32,
            n == data@.len(),
            offset + 32 <= n,
            forall|j: int| 0 <= j < i ==> r@[j] == data@[offset + j],
        decreases 32 - i,
    {
        r[i] = data[offset + i];
        i += 1;
    }
    proof {
        assert(r@ =~= data@.subrange(offset as int, offset + 32));
    }
    r
}

/// Copies the 64 bytes of `data` starting at `offset` into a fresh value.
pub fn read_bytes64(data: &Vec<u8>, offset: usize) -> (r: [u8; 64])
    requires
        offset + 64 <= data@.len(),
    ensures
        r@ == data@.subrange(offset as int, offset + 64),
{
    let n: usize = data.len();
    let mut r: [u8; 64] = [0u8; 64];
    let mut i: usize = 0;
    while i < 64
        invariant
            i <= 64,
            n == data@.len(),
            offset + 64 <= n,
            forall|j: int| 0 <= j < i ==> r@[j] == data@[offset + j],
        decreases 64 - i,
    {
        r[i] = data[offset + i];
        i += 1;
    }
    proof {
        assert(r@ =~= data@.subrange(offset as int, offset + 64));
    }
    r
}

/// Copies the 128 bytes of `data` starting at `offset` into a fresh value.
pub fn read_bytes128(data: &Vec<u8>, offset: usize) -> (r: [u8; 128])
    requires
        offset + 128 <= data@.len(),
    ensures
        r@ == data@.subrange(offset as int, offset + 128),
{
    let n: usize = data.len();
    let mut r: [u8; 128] = [0u8; 128];
    let mut i: usize = 0;
    while i < 128
        invariant
            i <= 128,
            n == data@.len(),
            offset + 128 <= n,
            forall|j: int| 0 <= j < i ==> r@[j] == data@[offset + j],
        decreases 128 - i,
    {
        r[i] = data[offset + i];
        i += 1;
    }
    proof {
        assert(r@ =~= data@.subrange(offset as int, offset + 128));
    }
    r
}

/// Appends the bytes of `src` to `dst`.
pub fn extend_from_bytes32(dst: &mut Vec<u8>, src: &[u8; 32])
    ensures
        final(dst)@ == old(dst)@ + src@,
{
    let mut i: usize = 0;
    while i < 32
        invariant
            i <= 32,
            dst@ == old(dst)@ + src@.take(i as int),
        decreases 32 - i,
    {
        dst.push(src[i]);
        proof {
            assert(src@.take(i + 1) =~= src@.take(i as int).push(src@[i as int]));
        }
        i += 1;
    }
    proof {
        assert(src@.take(32) =~= src@);
    }
}

/// Appends the bytes of `src` to `dst`.
pub fn extend_from_bytes64(dst: &mut Vec<u8>, src: &[u8; 64])
    ensures
        final(dst)@ == old(dst)@ + src@,
{
    let mut i: usize = 0;
    while i < 64
        invariant
            i <= 64,
            dst@ == old(dst)@ + src@.take(i as int),
        decreases 64 - i,
    {
        dst.push(src[i]);
        proof {
            assert(src@.take(i + 1) =~= src@.take(i as int).push(src@[i as int]));
        }
        i += 1;
    }
    proof {
        assert(src@.take(64) =~= src@);
    }
}

/// Appends `count` bytes of `src` starting at `offset` to `dst`.
pub fn extend_from_range(dst: &mut Vec<u8>, src: &Vec<u8>, offset: usize, count: usize)
    requires
        offset + count <= src@.len(),
    ensures
        final(dst)@ == old(dst)@ + src@.subrange(offset as int, offset + count),
{
    let n: usize = src.len();
    let mut i: usize = 0;
    while i < count
        invariant
            i <= count,
            n == src@.len(),
            offset + count <= n,
            dst@ == old(dst)@ + src@.subrange(offset as int, offset + i),
        decreases count - i,
    {
        dst.push(src[offset + i]);
        proof {
            assert(src@.subrange(offset as int, offset + i + 1) =~= src@.subrange(
                offset as int,
                offset + i,
            ).push(src@[offset + i]));
        }
        i += 1;
    }
}

} // verus!
