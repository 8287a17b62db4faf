//! The deterministic generator every initial state is seeded from:
//! SplitMix64, dependency-free and identical on every platform.
//!
//! Same seed, same sequence of draws: the integer stream is fixed here; the
//! callers turn draws into unit-interval floats.

use vstd::arithmetic::div_mod::{lemma_add_mod_noop, lemma_fundamental_div_mod_converse};
use vstd::prelude::*;

verus! {

/// Increment of the generator state on every draw (the 64-bit golden ratio).
pub const GOLDEN_GAMMA: u64 = 0x9E37_79B9_7F4A_7C15;

/// The SplitMix64 output mix of a state value.
pub open spec fn splitmix_mix(z: u64) -> u64 {
    let a = (z ^ (z >> 30u64)).wrapping_mul(0xBF58_476D_1CE4_E5B9u64);
    let b = (a ^ (a >> 27u64)).wrapping_mul(0x94D0_49BB_1331_11EBu64);
    b ^ (b >> 31u64)
}

/// The generator state after `k` draws from `seed`: `seed + k·γ mod 2⁶⁴`.
pub open spec fn state_after(seed: u64, k: nat) -> u64 {
    ((seed as int + k * GOLDEN_GAMMA) % 0x1_0000_0000_0000_0000int) as u64
}

/// The `k`-th draw (from zero) of a generator seeded with `seed`.
pub open spec fn nth_draw(seed: u64, k: nat) -> u64 {
    splitmix_mix(state_after(seed, k + 1))
}

/// One more draw advances the state by `γ`, wrapping.
pub proof fn lemma_state_step(seed: u64, k: nat)
    ensures
        state_after(seed, k).wrapping_add(GOLDEN_GAMMA) == state_after(seed, k + 1),
{
    let m: int = 0x1_0000_0000_0000_0000int;
    let a = seed as int + k * GOLDEN_GAMMA;
    let r = a % m;
    assert(r == state_after(seed, k) as int);
    lemma_add_mod_noop(a, GOLDEN_GAMMA as int, m);
    assert((GOLDEN_GAMMA as int) % m == GOLDEN_GAMMA as int);
    assert(a + GOLDEN_GAMMA == seed as int + (k + 1) * GOLDEN_GAMMA) by (nonlinear_arith)
        requires
            a == seed as int + k * GOLDEN_GAMMA,
    ;
    if r + GOLDEN_GAMMA >= m {
        lemma_fundamental_div_mod_converse(r + GOLDEN_GAMMA, m, 1, r + GOLDEN_GAMMA - m);
    } else {
        lemma_fundamental_div_mod_converse(r + GOLDEN_GAMMA, m, 0, r + GOLDEN_GAMMA);
    }
}

/// A fresh generator starts from its seed: its first draw mixes
/// `seed + γ` (wrapping), and each later draw mixes the state one `γ`
/// further on, so the `k+1`-th draw follows from the `k`-th state alone.
pub proof fn lemma_draws_from_seed(seed: u64, k: nat)
    ensures
        state_after(seed, 0) == seed,
        nth_draw(seed, 0) == splitmix_mix(seed.wrapping_add(GOLDEN_GAMMA)),
        nth_draw(seed, k + 1) == splitmix_mix(state_after(seed, k + 1).wrapping_add(GOLDEN_GAMMA)),
{
    vstd::arithmetic::div_mod::lemma_small_mod(seed as nat, 0x1_0000_0000_0000_0000nat);
    lemma_state_step(seed, 0);
    lemma_state_step(seed, k + 1);
}

/// SplitMix64 generator.
pub struct Rng {
    state: u64,
    /// The seed it was created with.
    seed: Ghost<u64>,
    /// Draws taken so far.
    draws: Ghost<nat>,
}

impl Rng {
    /// The state is the one reached from the seed after the draws taken;
    /// every generator keeps this invariant.
    #[verifier::type_invariant]
    pub closed spec fn wf(self) -> bool {
        self.state == state_after(self.seed@, self.draws@)
    }

    pub closed spec fn seed(self) -> u64 {
        self.seed@
    }

    pub closed spec fn draws(self) -> nat {
        self.draws@
    }

    /// A generator that has drawn nothing yet.
    pub fn new(seed: u64) -> (r: Self)
        ensures
            r.seed() == seed,
            r.draws() == 0,
            nth_draw(r.seed(), r.draws()) == splitmix_mix(seed.wrapping_add(GOLDEN_GAMMA)),
    {
        proof {
            vstd::arithmetic::div_mod::lemma_small_mod(seed as nat, 0x1_0000_0000_0000_0000nat);
        }
        proof {
            lemma_draws_from_seed(seed, 0);
        }
        Rng { state: seed, seed: Ghost(seed), draws: Ghost(0) }
    }

    /// The next 64-bit draw: the draw numbered `draws()` of the seed's
    /// sequence.
    pub fn next_u64(&mut self) -> (v: u64)
        ensures
            final(self).seed() == old(self).seed(),
            final(self).draws() == old(self).draws() + 1,
            v == nth_draw(old(self).seed(), old(self).draws()),
    {
        proof {
            use_type_invariant(&*self);
            lemma_state_step(self.seed@, self.draws@);
        }
        let z = self.state.wrapping_add(GOLDEN_GAMMA);
        *self = Rng { state: z, seed: self.seed, draws: Ghost(self.draws@ + 1) };
        let a = (z ^ (z >> 30u64)).wrapping_mul(0xBF58_476D_1CE4_E5B9u64);
        let b = (a ^ (a >> 27u64)).wrapping_mul(0x94D0_49BB_1331_11EBu64);
        b ^ (b >> 31u64)
    }
}

/// Two generators created with the same seed that have drawn equally often
/// are the same generator: every draw either makes from then on agrees.
/// (`wf` holds of every generator; `use_type_invariant` brings it in.)
pub proof fn lemma_same_seed_same_draws(a: Rng, b: Rng)
    requires
        a.wf(),
        b.wf(),
        a.seed() == b.seed(),
        a.draws() == b.draws(),
    ensures
        a == b,
{
}

} // verus!
