//! Deterministic per-worker random numbers: a 32-bit xorshift generator.
//!
//! The renderer only ever needs a uniform value in `[0, 1]`; the engine
//! produces the exact 31-bit numerator of that value and leaves the single
//! floating-point division to the caller.

use vstd::prelude::*;

verus! {

/// One step of the 32-bit xorshift generator: shift-xor by 13 left,
/// 17 right, 5 left.
pub open spec fn xorshift32_step(s: u32) -> u32 {
    let a = s ^ (s << 13);
    let b = a ^ (a >> 17);
    b ^ (b << 5)
}

/// The stream of one worker's random numbers.
pub struct RandomSeries {
    pub state: u32,
}

impl RandomSeries {
    pub fn new(seed: u32) -> (r: RandomSeries)
        ensures
            r.state == seed,
    {
        RandomSeries { state: seed }
    }

    /// Advance the generator and return the numerator of the next uniform
    /// sample: the top 31 bits of the new state. The sample itself is
    /// `numerator / (2^31 - 1)`, a division the caller performs in its own
    /// number format.
    pub fn next_numerator(&mut self) -> (r: u32)
        ensures
            final(self).state == xorshift32_step(old(self).state),
            r == final(self).state >> 1,
            r < 0x8000_0000,
    {
        let mut s: u32 = self.state;
        s = s ^ (s << 13);
        s = s ^ (s >> 17);
        s = s ^ (s << 5);
        self.state = s;
        proof {
            assert(s >> 1 < 0x8000_0000) by (bit_vector);
        }
        s >> 1
    }
}

/// A seed for one worker: the shared base seed mixed with the worker's
/// index, never zero. The step maps a zero state to itself, so a zero seed
/// would freeze the stream; mixing the index in keeps the workers'
/// sequences from all being the same one.
pub fn seed_for_worker(base: u32, worker: u32) -> (r: u32)
    ensures
        r != 0,
        ({
            let mixed = base ^ mul_truncated(worker, 0x9e37_79b9);
            r == if mixed == 0 { 0x9e37_79b9 } else { mixed }
        }),
{
    let mixed: u32 = base ^ worker.wrapping_mul(0x9e37_79b9);
    if mixed == 0 {
        0x9e37_79b9
    } else {
        mixed
    }
}

/// `a * b` truncated to 32 bits, the meaning of a wrapping multiply.
pub open spec fn mul_truncated(a: u32, b: u32) -> u32 {
    ((a * b) % 0x1_0000_0000) as u32
}

/// The xorshift step never reaches the stuck state from a live one: a
/// nonzero state steps to a nonzero state, so one nonzero seed keeps a
/// worker's stream live forever.
pub proof fn lemma_xorshift_step_nonzero(s: u32)
    requires
        s != 0,
    ensures
        xorshift32_step(s) != 0,
{
    assert(xorshift32_step(s) != 0) by (bit_vector)
        requires
            s != 0,
    ;
}

} // verus!
