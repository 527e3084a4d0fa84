//! A seedable xorshift64 pseudo-random stream.

use crate::unit::{fraction, in_unit_interval, unit_fraction, FRACTION_LIMIT, ONE_BITS};
use vstd::prelude::*;

verus! {

/// The state that replaces a zero seed, which xorshift would never leave.
pub const FALLBACK_SEED: u64 = 0x5EED_DEAD_BEEF_CAFE;

/// One xorshift64 round with the shift triple (13, 7, 17).
pub open spec fn xorshift(state: u64) -> u64 {
    let a = state ^ (state << 13);
    let b = a ^ (a >> 7);
    b ^ (b << 17)
}

/// The state a generator starts from when given `seed`.
pub open spec fn initial_state(seed: u64) -> u64 {
    if seed == 0 {
        FALLBACK_SEED
    } else {
        seed
    }
}

/// The state after `n` rounds.
pub open spec fn advanced(state: u64, n: nat) -> u64
    decreases n,
{
    if n == 0 {
        state
    } else {
        xorshift(advanced(state, (n - 1) as nat))
    }
}

/// A round never reaches the all-zero state from a nonzero one.
pub proof fn lemma_xorshift_nonzero(state: u64)
    requires
        state != 0,
    ensures
        xorshift(state) != 0,
{
    assert(state != 0 ==> ({
        let a = state ^ (state << 13);
        let b = a ^ (a >> 7);
        b ^ (b << 17)
    }) != 0) by (bit_vector);
}

/// No number of rounds reaches the all-zero state from a nonzero one.
pub proof fn lemma_advanced_nonzero(state: u64, n: nat)
    requires
        state != 0,
    ensures
        advanced(state, n) != 0,
    decreases n,
{
    if n > 0 {
        lemma_advanced_nonzero(state, (n - 1) as nat);
        lemma_xorshift_nonzero(advanced(state, (n - 1) as nat));
    }
}

/// Deterministic xorshift64 generator.
#[derive(Debug)]
pub struct Xorshift64 {
    state: u64,
}

impl Clone for Xorshift64 {
    /// A generator that continues the same stream.
    fn clone(&self) -> (copy: Xorshift64)
        ensures
            copy@ == self@,
    {
        Xorshift64 { state: self.state }
    }
}

impl View for Xorshift64 {
    type V = u64;

    /// The current state.
    closed spec fn view(&self) -> u64 {
        self.state
    }
}

impl Xorshift64 {
    /// The state is never the all-zero fixed point.
    pub open spec fn wf(&self) -> bool {
        self@ != 0
    }

    /// Creates a generator; a zero seed is replaced by [`FALLBACK_SEED`].
    pub fn new(seed: u64) -> (rng: Xorshift64)
        ensures
            rng@ == initial_state(seed),
            rng.wf(),
    {
        Xorshift64 { state: if seed == 0 { FALLBACK_SEED } else { seed } }
    }

    /// The current state, from which `new` resumes the stream exactly.
    pub fn state(&self) -> (s: u64)
        ensures
            s == self@,
    {
        self.state
    }

    /// Advances the state by one round and returns the new state.
    pub fn next_u64(&mut self) -> (r: u64)
        ensures
            r == xorshift(old(self)@),
            final(self)@ == r,
            old(self).wf() ==> final(self).wf(),
    {
        proof {
            if self.state != 0 {
                lemma_xorshift_nonzero(self.state);
            }
        }
        let mut x: u64 = self.state;
        x ^= x << 13;
        x ^= x >> 7;
        x ^= x << 17;
        self.state = x;
        x
    }

    /// Advances the state and returns its top 53 bits: the numerator of a
    /// fraction over `2^53` that is uniform in `[0, 1)`.
    pub fn next_mantissa(&mut self) -> (r: u64)
        ensures
            final(self)@ == xorshift(old(self)@),
            r == final(self)@ >> 11,
            r < FRACTION_LIMIT,
            old(self).wf() ==> final(self).wf(),
    {
        let x: u64 = self.next_u64();
        assert(x >> 11 < 0x20_0000_0000_0000) by (bit_vector);
        x >> 11
    }

    /// Advances the state and returns the bits of a number in `[0, 1)`: the
    /// top 53 bits of the new state over `2^53`, which uses the full
    /// precision of the significand.
    pub fn next_f64(&mut self) -> (bits: u64)
        ensures
            final(self)@ == xorshift(old(self)@),
            bits == unit_fraction(final(self)@ >> 11),
            bits < ONE_BITS,
            in_unit_interval(bits),
            old(self).wf() ==> final(self).wf(),
    {
        let numerator: u64 = self.next_mantissa();
        fraction(numerator)
    }

    /// Advances the state and reduces it modulo `max`.
    pub fn next_usize(&mut self, max: usize) -> (r: usize)
        requires
            max > 0,
        ensures
            final(self)@ == xorshift(old(self)@),
            r == final(self)@ % (max as u64),
            r < max,
            old(self).wf() ==> final(self).wf(),
    {
        let x: u64 = self.next_u64();
        (x % (max as u64)) as usize
    }
}

} // verus!
