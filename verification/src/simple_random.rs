//! A small linear congruential generator, seeded from the clock.

use std::ops::Range;
use vstd::prelude::*;

verus! {

/// Multiplier of the generator.
pub const LCG_MULTIPLIER: u64 = 6364136223846793005;

/// The generator: its whole state is one 64-bit word.
pub struct SimpleRng(pub u64);

/// The state that follows `state`: `state * LCG_MULTIPLIER + 1`, modulo 2^64.
pub open spec fn lcg_step(state: u64) -> u64 {
    ((state as int * LCG_MULTIPLIER as int + 1) % 0x1_0000_0000_0000_0000) as u64
}

/// The number drawn from a state: its upper 32 bits.
pub open spec fn lcg_output(state: u64) -> u32 {
    (state as int / 0x1_0000_0000) as u32
}

/// The point of `[lo, hi)` that the draw `n` selects: `lo` plus the share
/// `n / 2^32` of the span, rounded down.
pub open spec fn scale_into(lo: int, hi: int, n: int) -> int {
    lo + ((hi - lo) * n) / 0x1_0000_0000
}

/// Calls `SystemTime::elapsed` on the Unix epoch, which reads the system
/// clock, and hands back the nanoseconds that have passed, cut to 64 bits;
/// zero where the clock stands before the epoch. Nothing is claimed of the
/// value.
#[verifier::external_body]
fn simple_seed() -> u64 {
    match std::time::UNIX_EPOCH.elapsed() {
        Ok(elapsed) => elapsed.as_nanos() as u64,
        Err(_) => 0,
    }
}

impl SimpleRng {
    /// A generator seeded from the clock: `from_seed` of whatever the clock gives.
    pub fn new() -> (rng: Self) {
        Self::from_seed(simple_seed())
    }

    /// A generator that starts from a chosen state.
    pub fn from_seed(seed: u64) -> (rng: Self)
        ensures
            rng.0 == seed,
    {
        SimpleRng(seed)
    }

    /// Advances the state by one step and returns its upper half.
    pub fn next(&mut self) -> (r: u32)
        ensures
            final(self).0 == lcg_step(old(self).0),
            r == lcg_output(lcg_step(old(self).0)),
    {
        let product: u64 = self.0.wrapping_mul(LCG_MULTIPLIER);
        let stepped: u64 = product.wrapping_add(1);
        proof {
            let m: int = 0x1_0000_0000_0000_0000;
            let p: int = old(self).0 as int * LCG_MULTIPLIER as int;
            assert(product as int == p % m);
            assert((p % m + 1) % m == (p + 1) % m) by {
                vstd::arithmetic::div_mod::lemma_add_mod_noop(p, 1, m);
                vstd::arithmetic::div_mod::lemma_small_mod(1, m as nat);
            }
            assert(stepped as int == (p % m + 1) % m) by {
                if p % m + 1 < m {
                    vstd::arithmetic::div_mod::lemma_small_mod((p % m + 1) as nat, m as nat);
                }
            }
        }
        self.0 = stepped;
        let high: u64 = stepped >> 32;
        assert(high == stepped as int / 0x1_0000_0000) by (bit_vector)
            requires
                high == stepped >> 32,
        ;
        assert(high <= 0xFFFF_FFFF) by (bit_vector)
            requires
                high == stepped >> 32,
        ;
        high as u32
    }

    /// A number of `[range.start, range.end)`: the start plus the next draw
    /// modulo the span.
    pub fn random_range_u32(&mut self, range: Range<u32>) -> (r: u32)
        requires
            range.start < range.end,
        ensures
            final(self).0 == lcg_step(old(self).0),
            r == range.start + lcg_output(lcg_step(old(self).0)) as int % (range.end
                - range.start),
            range.start <= r < range.end,
    {
        let span: u32 = range.end - range.start;
        range.start + self.next() % span
    }

    /// The low byte of the next draw.
    pub fn random_u8(&mut self) -> (r: u8)
        ensures
            final(self).0 == lcg_step(old(self).0),
            r == lcg_output(lcg_step(old(self).0)) as int % 256,
    {
        let n: u32 = self.next();
        let low: u32 = n & 0xFF;
        assert(low == n % 256) by (bit_vector)
            requires
                low == n & 0xFF,
        ;
        low as u8
    }

    /// A byte of `[range.start, range.end)`: the start plus the next byte
    /// modulo the span.
    pub fn _random_range_u8(&mut self, range: Range<u8>) -> (r: u8)
        requires
            range.start < range.end,
        ensures
            final(self).0 == lcg_step(old(self).0),
            r == range.start + (lcg_output(lcg_step(old(self).0)) as int % 256) % (range.end
                - range.start),
            range.start <= r < range.end,
    {
        let span: u8 = range.end - range.start;
        range.start + self.random_u8() % span
    }

    /// A point of `[range.start, range.end)`, both in millionths: the start
    /// plus the share `n / 2^32` of the span, rounded down, where `n` is the
    /// next draw.
    pub fn random_range_f32(&mut self, range: Range<i32>) -> (r: i32)
        requires
            range.start < range.end,
        ensures
            final(self).0 == lcg_step(old(self).0),
            r == scale_into(
                range.start as int,
                range.end as int,
                lcg_output(lcg_step(old(self).0)) as int,
            ),
            range.start <= r < range.end,
    {
        let lo: i32 = range.start;
        let hi: i32 = range.end;
        let n: u32 = self.next();
        let span: u64 = (hi as i64 - lo as i64) as u64;
        assert(0 <= span * (n as u64) <= 0xFFFF_FFFF * 0xFFFF_FFFF && span * (n as u64) < span
            * 0x1_0000_0000) by (nonlinear_arith)
            requires
                0 < span <= 0xFFFF_FFFF,
                0 <= n <= 0xFFFF_FFFF,
        ;
        let scaled: u64 = span * (n as u64);
        let offset: u64 = scaled / 0x1_0000_0000;
        assert(offset < span) by (nonlinear_arith)
            requires
                offset == scaled / 0x1_0000_0000,
                scaled < span * 0x1_0000_0000,
                span > 0,
        ;
        (lo as i64 + offset as i64) as i32
    }
}

} // verus!
