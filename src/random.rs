use vstd::prelude::*;

verus! {

/// Multiplier of the linear congruential generator.
pub const MULTIPLIER: u64 = 6364136223846793005;

/// Increment of the linear congruential generator.
pub const INCREMENT: u64 = 1442695040888963407;

/// The state that follows `s`: `s * MULTIPLIER + INCREMENT` modulo 2^64.
pub open spec fn next_state(s: u64) -> u64 {
    ((s as nat * MULTIPLIER as nat + INCREMENT as nat) % 0x1_0000_0000_0000_0000nat) as u64
}

/// The number handed out on moving to state `s`: its upper 32 bits.
pub open spec fn output_of(s: u64) -> u64 {
    s / 0x1_0000_0000
}

/// A seeded source of pseudo-random numbers; each draw advances the state once.
pub struct RandomSource {
    pub state: u64,
}

impl RandomSource {
    /// A source that starts from `seed`.
    pub fn new(seed: u64) -> (r: RandomSource)
        ensures
            r.state == seed,
    {
        RandomSource { state: seed }
    }

    /// Advances the state and returns the number that belongs to the new state.
    pub fn next_u64(&mut self) -> (r: u64)
        ensures
            final(self).state == next_state(old(self).state),
            r == output_of(final(self).state),
            r < 0x1_0000_0000,
    {
        let s: u64 = self.state;
        assert((s as nat) * (MULTIPLIER as nat) <= 0xffff_ffff_ffff_ffffnat * (MULTIPLIER as nat)) by (nonlinear_arith)
            requires
                s <= 0xffff_ffff_ffff_ffffu64,
        ;
        let wide: u128 = (s as u128) * (MULTIPLIER as u128) + (INCREMENT as u128);
        let next: u64 = (wide % 0x1_0000_0000_0000_0000u128) as u64;
        self.state = next;
        next / 0x1_0000_0000
    }
}

} // verus!
