//! Byte-level helpers shared by all wire codecs: big-endian field access,
//! and the internet (ones-complement) checksum.

use vstd::prelude::*;

verus! {

/// The 16-bit big-endian value stored at offset `i` of `b`.
pub open spec fn be16_at(b: Seq<u8>, i: int) -> int {
    b[i] * 0x100 + b[i + 1]
}

/// The 32-bit big-endian value stored at offset `i` of `b`.
pub open spec fn be32_at(b: Seq<u8>, i: int) -> int {
    b[i] * 0x1000000 + b[i + 1] * 0x10000 + b[i + 2] * 0x100 + b[i + 3]
}

pub fn push_u16_be(v: &mut Vec<u8>, x: u16)
    ensures
        final(v)@ == old(v)@ + seq![((x as int) / 0x100) as u8, ((x as int) % 0x100) as u8],
        final(v)@.len() == old(v)@.len() + 2,
        be16_at(final(v)@, old(v)@.len() as int) == x,
{
    v.push((x / 0x100) as u8);
    v.push((x % 0x100) as u8);
    proof {
        assert(v@ =~= old(v)@ + seq![
            ((x as int) / 0x100) as u8,
            ((x as int) % 0x100) as u8,
        ]);
    }
}

pub fn push_u32_be(v: &mut Vec<u8>, x: u32)
    ensures
        final(v)@.len() == old(v)@.len() + 4,
        final(v)@ == old(v)@ + seq![
            ((x as int) / 0x1000000) as u8,
            (((x as int) / 0x10000) % 0x100) as u8,
            (((x as int) / 0x100) % 0x100) as u8,
            ((x as int) % 0x100) as u8,
        ],
        be32_at(final(v)@, old(v)@.len() as int) == x,
{
    v.push((x / 0x1000000) as u8);
    v.push(((x / 0x10000) % 0x100) as u8);
    v.push(((x / 0x100) % 0x100) as u8);
    v.push((x % 0x100) as u8);
    proof {
        assert(v@ =~= old(v)@ + seq![
            ((x as int) / 0x1000000) as u8,
            (((x as int) / 0x10000) % 0x100) as u8,
            (((x as int) / 0x100) % 0x100) as u8,
            ((x as int) % 0x100) as u8,
        ]);
    }
}

pub fn read_u16_be(b: &[u8], i: usize) -> (r: u16)
    requires
        i + 2 <= b@.len(),
    ensures
        r == be16_at(b@, i as int),
{
    (b[i] as u16) * 0x100 + (b[i + 1] as u16)
}

pub fn read_u32_be(b: &[u8], i: usize) -> (r: u32)
    requires
        i + 4 <= b@.len(),
    ensures
        r == be32_at(b@, i as int),
{
    (b[i] as u32) * 0x1000000 + (b[i + 1] as u32) * 0x10000 + (b[i + 2] as u32) * 0x100 + (b[i
        + 3] as u32)
}

/// Internet checksum over `b[start..]`: ones-complement of the
/// end-around-carry sum of the big-endian 16-bit words (a trailing odd
/// byte is padded with zero).  Only the emitted bytes depend on it, so its
/// value is not part of any frame contract.
pub fn internet_checksum(b: &[u8], start: usize, end: usize) -> u16
    requires
        start <= end <= b@.len(),
        b@.len() < 0x1000_0000,
{
    let mut sum: u64 = 0;
    let mut i: usize = start;
    let n: usize = end;
    while i < n
        invariant
            start <= i <= n,
            n <= b@.len() < 0x1000_0000,
            sum <= 0x10000 * (i - start + 1),
        decreases n - i,
    {
        if i + 1 < n {
            sum = sum + (b[i] as u64) * 0x100 + (b[i + 1] as u64);
            i = i + 2;
        } else {
            sum = sum + (b[i] as u64) * 0x100;
            i = i + 1;
        }
    }
    while sum > 0xFFFF
        invariant
            sum <= 0x10000 * 0x1000_0000,
        decreases sum,
    {
        sum = sum % 0x10000 + sum / 0x10000;
    }
    0xFFFFu16 - (sum as u16)
}

} // verus!
