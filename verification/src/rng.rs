use vstd::prelude::*;

verus! {

/// The state of the generator after one more number was taken.
pub open spec fn rng_advance(state: u64) -> u64 {
    state.wrapping_add(0x9E37_79B9_7F4A_7C15u64)
}

/// The finalizer that turns a state into a number.
pub open spec fn rng_mix(z: u64) -> u64 {
    let a: u64 = (z ^ (z >> 30)).wrapping_mul(0xBF58_476D_1CE4_E5B9u64);
    let b: u64 = (a ^ (a >> 27)).wrapping_mul(0x94D0_49BB_1331_11EBu64);
    b ^ (b >> 31)
}

/// The number that the generator gives next when it is in `state`.
pub open spec fn rng_output(state: u64) -> u64 {
    rng_mix(rng_advance(state))
}

/// The random source of one game: a generator whose every number is a
/// function of its seed and of how many numbers were taken before.
#[derive(Clone, Copy, Debug, PartialEq, Eq, Structural)]
pub struct GameRng {
    pub state: u64,
}

impl GameRng {
    /// The generator for a seed.
    pub fn seed_from_u64(seed: u64) -> (r: GameRng)
        ensures
            r.state == seed,
    {
        GameRng { state: seed }
    }

    /// Takes the next number.
    pub fn next_u64(&mut self) -> (r: u64)
        ensures
            r == rng_output(old(self).state),
            final(self).state == rng_advance(old(self).state),
    {
        self.state = self.state.wrapping_add(0x9E37_79B9_7F4A_7C15u64);
        let z: u64 = self.state;
        let a: u64 = (z ^ (z >> 30)).wrapping_mul(0xBF58_476D_1CE4_E5B9u64);
        let b: u64 = (a ^ (a >> 27)).wrapping_mul(0x94D0_49BB_1331_11EBu64);
        b ^ (b >> 31)
    }

    /// Takes the next number and reduces it to the range below `bound`.
    pub fn gen_below(&mut self, bound: u64) -> (r: u64)
        requires
            bound > 0,
        ensures
            r == rng_output(old(self).state) % bound,
            r < bound,
            final(self).state == rng_advance(old(self).state),
    {
        let x: u64 = self.next_u64();
        x % bound
    }
}

} // verus!
