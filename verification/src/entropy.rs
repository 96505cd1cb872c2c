//! The engine's randomness: one externally seeded generator per runtime,
//! used for ISN secrets, ping identifiers and pool shuffling.  All calls
//! go through the `rand` crate.

use vstd::prelude::*;

verus! {

#[verifier::external_type_specification]
#[verifier::external_body]
pub struct ExStdRng(rand::rngs::StdRng);

/// Relies on `rand::SeedableRng::seed_from_u64`: builds a generator from
/// the seed; deterministic seeding is permitted and desirable for tests.
#[verifier::external_body]
pub fn rng_from_seed(seed: u64) -> rand::rngs::StdRng {
    rand::SeedableRng::seed_from_u64(seed)
}

/// Relies on `rand::Rng::gen`: a random 16-bit value, about which nothing
/// can be promised.
#[verifier::external_body]
pub fn rng_next_u16(rng: &mut rand::rngs::StdRng) -> u16 {
    rand::Rng::gen(rng)
}

/// Relies on `rand::Rng::gen`: a random 64-bit value, about which nothing
/// can be promised.
#[verifier::external_body]
pub fn rng_next_u64(rng: &mut rand::rngs::StdRng) -> u64 {
    rand::Rng::gen(rng)
}

/// Relies on `rand::seq::SliceRandom::shuffle`: a Fisher-Yates pass that
/// permutes the slice in place, so the multiset of elements is unchanged.
#[verifier::external_body]
pub fn shuffle_u16(rng: &mut rand::rngs::StdRng, v: &mut Vec<u16>)
    ensures
        final(v)@.len() == old(v)@.len(),
        final(v)@.to_multiset() == old(v)@.to_multiset(),
{
    rand::seq::SliceRandom::shuffle(v.as_mut_slice(), rng)
}

/// Relies on `byteorder::WriteBytesExt::write_u32` with the machine's
/// native byte order: the four bytes of `n`, in an order that is fixed on
/// one machine but unspecified across machines.
#[verifier::external_body]
pub fn native_bytes_of_u32(n: u32) -> (r: Vec<u8>)
    ensures
        r@.len() == 4,
{
    let mut v: Vec<u8> = Vec::new();
    byteorder::WriteBytesExt::write_u32::<byteorder::NativeEndian>(&mut v, n).unwrap();
    v
}

} // verus!
