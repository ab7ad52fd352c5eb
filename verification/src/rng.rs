use vstd::prelude::*;
use vstd::arithmetic::div_mod::{lemma_add_mod_noop, lemma_mod_twice, lemma_small_mod, lemma_mod_bound};

verus! {

/// Multiplier of the race's linear congruential generator.
pub const RNG_MULTIPLIER: u64 = 6364136223846793005;

/// Increment of the race's linear congruential generator.
pub const RNG_INCREMENT: u64 = 1442695040888963407;

/// 2^64, the modulus of the generator.
pub open spec fn word_modulus() -> int {
    0x1_0000_0000_0000_0000int
}

/// One step of the generator, over the integers modulo 2^64.
#[verifier::opaque]
pub open spec fn spec_next_rng(state: u64) -> u64 {
    ((state as int * RNG_MULTIPLIER as int + RNG_INCREMENT as int) % word_modulus()) as u64
}

/// The generator's state after `steps` steps from `seed`.
pub open spec fn rng_state(seed: u64, steps: nat) -> u64
    decreases steps,
{
    if steps == 0 {
        seed
    } else {
        spec_next_rng(rng_state(seed, (steps - 1) as nat))
    }
}

proof fn lemma_wrapping_step(product: int, wrapped: int)
    requires
        wrapped == product % word_modulus(),
    ensures
        (wrapped + RNG_INCREMENT as int) % word_modulus() == (product + RNG_INCREMENT as int)
            % word_modulus(),
{
    lemma_add_mod_noop(product, RNG_INCREMENT as int, word_modulus());
    lemma_small_mod(RNG_INCREMENT as nat, word_modulus() as nat);
    lemma_mod_bound(product, word_modulus());
    lemma_add_mod_noop(wrapped, RNG_INCREMENT as int, word_modulus());
    lemma_mod_twice(product, word_modulus());
}

/// Simple pseudo-random number generator: `state * RNG_MULTIPLIER + RNG_INCREMENT`, wrapping.
pub fn next_rng(state: u64) -> (next: u64)
    ensures
        next == spec_next_rng(state),
{
    let product = state.wrapping_mul(RNG_MULTIPLIER);
    let next = product.wrapping_add(RNG_INCREMENT);
    proof {
        reveal(spec_next_rng);
        let p = state as int * RNG_MULTIPLIER as int;
        assert(product as int == p % word_modulus());
        lemma_wrapping_step(p, product as int);
        let s = product as int + RNG_INCREMENT as int;
        if s > u64::MAX {
            lemma_small_mod((s - word_modulus()) as nat, word_modulus() as nat);
            assert(s % word_modulus() == (s - word_modulus()) % word_modulus()) by {
                vstd::arithmetic::div_mod::lemma_mod_sub_multiples_vanish(s, word_modulus());
            }
        } else {
            lemma_small_mod(s as nat, word_modulus() as nat);
        }
    }
    next
}

/// Each state of the generator is the previous one times 6364136223846793005
/// plus 1442695040888963407, modulo 2^64.
pub proof fn lemma_rng_step(seed: u64, steps: nat)
    ensures
        rng_state(seed, steps + 1) as int == (rng_state(seed, steps) as int * 6364136223846793005
            + 1442695040888963407) % 0x1_0000_0000_0000_0000,
{
    reveal(spec_next_rng);
    assert(rng_state(seed, steps + 1) == spec_next_rng(rng_state(seed, steps)));
}

} // verus!
