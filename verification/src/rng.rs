//! Deterministic seeding and randomness.
//!
//! The pseudo-random generator itself comes from the `rand` crate and is
//! reached only through the trusted items below; everything computed from
//! its draws is verified. A seeded generator is modeled by an abstract
//! state, so that reproducibility — the same seed giving the same draws —
//! is visible to the verifier.

use vstd::prelude::*;
use std::collections::hash_map::DefaultHasher;
use std::hash::Hasher;
use vstd::std_specs::hash::DefaultHasherAdditionalSpecFns;
use vstd::string::StringSliceAdditionalSpecFns;
use rand::rngs::StdRng;
use rand::{Rng, SeedableRng};
use crate::chars::chars_to_string;

verus! {

#[verifier::external_type_specification]
#[verifier::external_body]
pub struct ExStdRng(StdRng);

/// Abstract state a `StdRng` is in; draws and successor states are
/// functions of it alone.
pub uninterp spec fn rng_state(r: StdRng) -> int;

/// State of a generator freshly seeded from a 64-bit seed.
pub uninterp spec fn rng_seeded(seed: u64) -> int;

/// One bounded draw: the value drawn at a state and the state after it.
pub uninterp spec fn rng_gen(state: int, bound: u32) -> (u32, int);

/// Relies on rand's `StdRng::seed_from_u64`: a generator seeded from a
/// `u64` is a fixed deterministic function of that seed.
#[verifier::external_body]
pub fn rng_from_seed(seed: u64) -> (r: StdRng)
    ensures
        rng_state(r) == rng_seeded(seed),
{
    StdRng::seed_from_u64(seed)
}

/// Relies on rand's `Rng::gen_range` over `0..bound`: the draw lies below
/// `bound`, and both it and the generator's next state are functions of the
/// state drawn at.
#[verifier::external_body]
pub fn rng_below(rng: &mut StdRng, bound: u32) -> (r: u32)
    requires
        bound >= 1,
    ensures
        r < bound,
        r == rng_gen(rng_state(*old(rng)), bound).0,
        rng_state(*final(rng)) == rng_gen(rng_state(*old(rng)), bound).1,
{
    rng.gen_range(0..bound)
}

/// Relies on rand's `StdRng::from_entropy`: a generator seeded from the
/// operating system; nothing is assumed of its state.
#[verifier::external_body]
pub fn rng_from_entropy() -> (r: StdRng) {
    StdRng::from_entropy()
}

/// Little-endian bytes of a 64-bit value.
pub open spec fn le_bytes_u64(n: u64) -> Seq<u8> {
    seq![
        (n & 0xff) as u8,
        ((n >> 8) & 0xff) as u8,
        ((n >> 16) & 0xff) as u8,
        ((n >> 24) & 0xff) as u8,
        ((n >> 32) & 0xff) as u8,
        ((n >> 40) & 0xff) as u8,
        ((n >> 48) & 0xff) as u8,
        ((n >> 56) & 0xff) as u8,
    ]
}

/// The 64-bit value that seeding hashes a seed string and head count into:
/// a fixed deterministic function of both.
pub open spec fn seed_hash(seed_bytes: Seq<u8>, num_heads: u64) -> u64 {
    DefaultHasher::spec_finish(seq![seed_bytes + le_bytes_u64(num_heads)])
}

/// Combines the effective seed string and the head count into the 64-bit
/// generator seed.
pub fn hash_seed(seed: &str, num_heads: usize) -> (r: u64)
    ensures
        r == seed_hash(seed.spec_bytes(), num_heads as u64),
{
    let mut bytes = seed.as_bytes_vec();
    let nh = num_heads as u64;
    bytes.push((nh & 0xff) as u8);
    bytes.push(((nh >> 8) & 0xff) as u8);
    bytes.push(((nh >> 16) & 0xff) as u8);
    bytes.push(((nh >> 24) & 0xff) as u8);
    bytes.push(((nh >> 32) & 0xff) as u8);
    bytes.push(((nh >> 40) & 0xff) as u8);
    bytes.push(((nh >> 48) & 0xff) as u8);
    bytes.push(((nh >> 56) & 0xff) as u8);
    proof {
        assert(bytes@ =~= seed.spec_bytes() + le_bytes_u64(nh));
    }
    let mut hasher = DefaultHasher::new();
    hasher.write(bytes.as_slice());
    hasher.finish()
}

/// A character a generated seed may hold: lowercase letter or digit.
pub open spec fn is_seed_char(c: char) -> bool {
    (97 <= c as u32 <= 122) || (48 <= c as u32 <= 57)
}

fn seed_char(d: u32) -> (c: char)
    requires
        d < 36,
    ensures
        is_seed_char(c),
{
    if d < 26 {
        (97 + d as u8) as char
    } else {
        (48 + (d - 26) as u8) as char
    }
}

/// A fresh eight-character lowercase alphanumeric seed string, drawn from
/// the operating system's entropy.
pub fn fresh_seed() -> (r: String)
    ensures
        r@.len() == 8,
        forall|i: int| 0 <= i < 8 ==> is_seed_char(#[trigger] r@[i]),
{
    let mut rng = rng_from_entropy();
    let mut v: Vec<char> = Vec::new();
    let mut i: usize = 0;
    while i < 8
        invariant
            i <= 8,
            v@.len() == i,
            forall|j: int| 0 <= j < i ==> is_seed_char(#[trigger] v@[j]),
        decreases 8 - i,
    {
        let d = rng_below(&mut rng, 36);
        let c = seed_char(d);
        v.push(c);
        i += 1;
    }
    chars_to_string(&v)
}

} // verus!
