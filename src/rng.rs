use vstd::prelude::*;

verus! {

/// Multiplier of the linear congruential generator.
pub const LCG_MUL: u64 = 6364136223846793005;

/// Increment of the linear congruential generator.
pub const LCG_INC: u64 = 1442695040888963407;

/// The generator state that follows `s`.
pub open spec fn lcg_next(s: u64) -> u64 {
    s.wrapping_mul(LCG_MUL).wrapping_add(LCG_INC)
}

/// The value drawn when the state moves to `s`: its upper 32 bits.
pub open spec fn lcg_output(s: u64) -> u64 {
    s >> 32u64
}

/// The single source of randomness of the simulation.
///
/// It first hands out the values of `script`, in order, and then those of a
/// 64-bit linear congruential generator seeded by `state`. A script lets a
/// caller fix the outcome of the next random decisions.
pub struct RandomSource {
    pub state: u64,
    pub script: Vec<u64>,
    pub cursor: usize,
}

impl RandomSource {
    /// The value that the next draw returns.
    pub open spec fn peek(&self) -> u64 {
        if self.cursor < self.script@.len() {
            self.script@[self.cursor as int]
        } else {
            lcg_output(lcg_next(self.state))
        }
    }

    /// The source after one draw.
    pub open spec fn advance(&self) -> RandomSource {
        if self.cursor < self.script@.len() {
            RandomSource { state: self.state, script: self.script, cursor: (self.cursor + 1) as usize }
        } else {
            RandomSource { state: lcg_next(self.state), script: self.script, cursor: self.cursor }
        }
    }

    /// A source driven by the generator alone, from `seed`.
    pub fn new(seed: u64) -> (r: RandomSource)
        ensures
            r.state == seed,
            r.script@.len() == 0,
            r.cursor == 0,
    {
        RandomSource { state: seed, script: Vec::new(), cursor: 0 }
    }

    /// A source that first returns the values of `script`, then those of the
    /// generator seeded by `seed`.
    pub fn scripted(script: Vec<u64>, seed: u64) -> (r: RandomSource)
        ensures
            r.state == seed,
            r.script@ == script@,
            r.cursor == 0,
    {
        RandomSource { state: seed, script, cursor: 0 }
    }

    /// Draws the next value.
    pub fn next_u64(&mut self) -> (v: u64)
        ensures
            v == old(self).peek(),
            *final(self) == old(self).advance(),
    {
        if self.cursor < self.script.len() {
            let v = self.script[self.cursor];
            self.cursor = self.cursor + 1;
            v
        } else {
            let s = self.state.wrapping_mul(LCG_MUL).wrapping_add(LCG_INC);
            self.state = s;
            s >> 32
        }
    }

    /// Draws a value below `bound`: the next value modulo `bound`.
    pub fn below(&mut self, bound: usize) -> (v: usize)
        requires
            bound > 0,
        ensures
            v as int == old(self).peek() as int % bound as int,
            *final(self) == old(self).advance(),
    {
        let r = self.next_u64();
        (r % (bound as u64)) as usize
    }
}

} // verus!
