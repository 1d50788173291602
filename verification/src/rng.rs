//! A deterministic pseudo-random source.
//!
//! Every stochastic operation of the tracer takes its random source as an
//! explicit parameter, and a task's source is seeded as a pure function of
//! the scene seed and the row index, so a render is a deterministic function
//! of the scene description. The generator is a 64-bit counter stream mixed
//! through two rounds of xor-shift-multiply.

use vstd::prelude::*;

verus! {

/// State advance: one step along the counter stream.
pub open spec fn rng_next(s: u64) -> u64 {
    s.wrapping_add(0x9E3779B97F4A7C15)
}

/// The output word drawn when stepping from state `s`.
pub open spec fn rng_out(s: u64) -> u64 {
    let s1 = s.wrapping_add(0x9E3779B97F4A7C15);
    let z1 = (s1 ^ (s1 >> 30)).wrapping_mul(0xBF58476D1CE4E5B9);
    let z2 = (z1 ^ (z1 >> 27)).wrapping_mul(0x94D049BB133111EB);
    z2 ^ (z2 >> 31)
}

/// The seed a render task uses for one image row.
pub open spec fn row_seed(seed: u64, row: u64) -> u64 {
    seed ^ row.wrapping_mul(0xA24BAED4963EE407)
}

/// A deterministic pseudo-random generator.
pub struct Rng {
    state: u64,
}

impl Rng {
    /// Current state, for specifications.
    pub closed spec fn view(&self) -> u64 {
        self.state
    }

    /// A generator starting from the given seed.
    pub fn new(seed: u64) -> (r: Rng)
        ensures
            r@ == seed,
    {
        Rng { state: seed }
    }

    /// The generator a render task uses for one image row.
    pub fn for_row(seed: u64, row: u64) -> (r: Rng)
        ensures
            r@ == row_seed(seed, row),
    {
        Rng { state: seed ^ row.wrapping_mul(0xA24BAED4963EE407) }
    }

    /// Draw one 64-bit word.
    pub fn next_u64(&mut self) -> (r: u64)
        ensures
            final (self)@ == rng_next(old(self)@),
            r == rng_out(old(self)@),
    {
        let s1 = self.state.wrapping_add(0x9E3779B97F4A7C15);
        self.state = s1;
        let z1 = (s1 ^ (s1 >> 30)).wrapping_mul(0xBF58476D1CE4E5B9);
        let z2 = (z1 ^ (z1 >> 27)).wrapping_mul(0x94D049BB133111EB);
        z2 ^ (z2 >> 31)
    }
}

/// The stream's output word for a state, without holding a generator.
pub fn mix(s: u64) -> (r: u64)
    ensures
        r == rng_out(s),
{
    let s1 = s.wrapping_add(0x9E3779B97F4A7C15);
    let z1 = (s1 ^ (s1 >> 30)).wrapping_mul(0xBF58476D1CE4E5B9);
    let z2 = (z1 ^ (z1 >> 27)).wrapping_mul(0x94D049BB133111EB);
    z2 ^ (z2 >> 31)
}

/// The scalar in `[0, 1)` drawn when stepping from state `s`.
pub open spec fn rng_unit(s: u64) -> i64 {
    (rng_out(s) >> 48) as i64
}

/// The scalar in `[lo, hi]` drawn when stepping from state `s`.
pub open spec fn rng_range(s: u64, lo: i64, hi: i64) -> i64
    recommends
        lo <= hi,
{
    (lo + (rng_out(s) as int) % (hi - lo + 1)) as i64
}

impl Rng {
    /// Draw a scalar in `[0, 1)`: sixteen fractional bits from the stream.
    pub fn next_unit(&mut self) -> (r: i64)
        ensures
            final (self)@ == rng_next(old(self)@),
            r == rng_unit(old(self)@),
            0 <= r < crate::fixed::ONE,
    {
        let w = self.next_u64();
        proof {
            assert(w >> 48 < 65536) by (bit_vector);
        }
        (w >> 48) as i64
    }

    /// Draw a scalar uniformly in `[lo, hi]`.
    pub fn next_range(&mut self, lo: i64, hi: i64) -> (r: i64)
        requires
            lo <= hi,
        ensures
            final (self)@ == rng_next(old(self)@),
            r == rng_range(old(self)@, lo, hi),
            lo <= r <= hi,
    {
        let w = self.next_u64();
        let span: u128 = ((hi as i128) - (lo as i128) + 1) as u128;
        let m: u128 = (w as u128) % span;
        proof {
            assert((w as int) % (hi - lo + 1) == (w as u128 as int) % (span as int));
        }
        ((lo as i128) + (m as i128)) as i64
    }
}

} // verus!
