//! Stable 128-bit keys for canonical text.

use std::hash::{Hash, Hasher};

use seahash::SeaHasher;
use vstd::prelude::*;

verus! {

/// What a `SeaHasher` in its default state reports once `text` is hashed into it as a `str`.
pub uninterp spec fn sea_hash(text: Seq<char>) -> u64;

/// What a `SeaHasher` built with the seeds `k1` to `k4` reports once `text` is hashed into it
/// as a `str`.
pub uninterp spec fn sea_hash_seeded(text: Seq<char>, k1: u64, k2: u64, k3: u64, k4: u64) -> u64;

/// Hashes `text` with `SeaHasher::new`, through `str`'s `Hash` impl, and reads
/// `Hasher::finish`. SeaHash is a fixed function of the bytes written and the seeds, so the
/// contract names the result as a function of the text.
#[verifier::external_body]
fn sea_hash_str(text: &str) -> (h: u64)
    ensures
        h == sea_hash(text@),
{
    let mut hasher = SeaHasher::new();
    text.hash(&mut hasher);
    hasher.finish()
}

/// Hashes `text` with `SeaHasher::with_seeds(k1, k2, k3, k4)`, through `str`'s `Hash` impl,
/// and reads `Hasher::finish`. The contract names the result as a function of the text and
/// the four seeds.
#[verifier::external_body]
fn sea_hash_str_seeded(text: &str, k1: u64, k2: u64, k3: u64, k4: u64) -> (h: u64)
    ensures
        h == sea_hash_seeded(text@, k1, k2, k3, k4),
{
    let mut hasher = SeaHasher::with_seeds(k1, k2, k3, k4);
    text.hash(&mut hasher);
    hasher.finish()
}

/// `x + k`, wrapping around at the end of the `u64` range.
pub open spec fn wrapping_plus(x: u64, k: u64) -> u64 {
    if x + k > u64::MAX {
        (x + k - 0x1_0000_0000_0000_0000) as u64
    } else {
        (x + k) as u64
    }
}

/// The 128-bit key of canonical text: a default-seeded SeaHash in the high half, and in the
/// low half a SeaHash seeded from the first, so the two halves are not one hash repeated.
pub open spec fn canonical_hash(text: Seq<char>) -> u128 {
    let first = sea_hash(text);
    let second = sea_hash_seeded(
        text,
        first,
        wrapping_plus(first, 1),
        wrapping_plus(first, 2),
        wrapping_plus(first, 3),
    );
    (first as int * 0x1_0000_0000_0000_0000 + second as int) as u128
}

/// Returns the stable 128-bit SeaHash value for canonical text.
pub fn hash_canonical(normalized: &str) -> (h: u128)
    ensures
        h == canonical_hash(normalized@),
{
    let first = sea_hash_str(normalized);
    let second = sea_hash_str_seeded(
        normalized,
        first,
        first.wrapping_add(1),
        first.wrapping_add(2),
        first.wrapping_add(3),
    );
    let high = first as u128;
    let low = second as u128;
    let h = (high << 64u32) | low;
    assert(h == high * 0x1_0000_0000_0000_0000 + low) by (bit_vector)
        requires
            h == (high << 64u32) | low,
            high < 0x1_0000_0000_0000_0000,
            low < 0x1_0000_0000_0000_0000,
    ;
    h
}

} // verus!
