//! SplitMix64: the small deterministic pseudo-random generator behind the
//! observation-noise models and the particles' per-particle streams,
//! reproducible in its seed.

use vstd::prelude::*;

verus! {

/// The golden-ratio increment of SplitMix64.
pub const GAMMA: u64 = 0x9E37_79B9_7F4A_7C15;

/// First multiplier of the output mix.
pub const MIX1: u64 = 0xBF58_476D_1CE4_E5B9;

/// Second multiplier of the output mix.
pub const MIX2: u64 = 0x94D0_49BB_1331_11EB;

/// 2^64, the modulus of the generator's arithmetic.
pub open spec fn modulus() -> nat {
    0x1_0000_0000_0000_0000nat
}

/// Product modulo 2^64.
pub open spec fn mul_mod(x: u64, y: u64) -> u64 {
    ((x as nat * y as nat) % modulus()) as u64
}

/// Sum modulo 2^64.
pub open spec fn add_mod(x: u64, y: u64) -> u64 {
    ((x as nat + y as nat) % modulus()) as u64
}

/// The output function: the state after an increment, mixed.
pub open spec fn mix(z: u64) -> u64 {
    let a = mul_mod(z ^ (z >> 30u64), MIX1);
    let b = mul_mod(a ^ (a >> 27u64), MIX2);
    b ^ (b >> 31u64)
}

/// The state after `k` draws from a generator seeded with `seed`.
pub open spec fn state_after(seed: u64, k: nat) -> u64
    decreases k,
{
    if k == 0 {
        add_mod(seed, GAMMA)
    } else {
        add_mod(state_after(seed, (k - 1) as nat), GAMMA)
    }
}

/// The `k`-th draw (from 0) of the stream seeded with `seed`.
pub open spec fn nth_draw(seed: u64, k: nat) -> u64 {
    mix(state_after(seed, k + 1))
}

/// The SplitMix64 generator: one 64-bit state, advanced by [`GAMMA`] at
/// every draw.
pub struct SplitMix64 {
    pub state: u64,
}

impl SplitMix64 {
    /// A generator seeded with `seed` (its state is `seed + γ`).
    pub fn new(seed: u64) -> (r: SplitMix64)
        ensures
            r.state == add_mod(seed, GAMMA),
            r.state == state_after(seed, 0),
    {
        SplitMix64 { state: seed.wrapping_add(GAMMA) }
    }

    /// The next 64-bit draw: the state advances by γ and is mixed.
    pub fn next_u64(&mut self) -> (r: u64)
        ensures
            final(self).state == add_mod(old(self).state, GAMMA),
            r == mix(final(self).state),
    {
        self.state = self.state.wrapping_add(GAMMA);
        let mut z = self.state;
        z = (z ^ (z >> 30)).wrapping_mul(MIX1);
        z = (z ^ (z >> 27)).wrapping_mul(MIX2);
        z ^ (z >> 31)
    }

    /// The integer behind a uniform draw in (0, 1]: the top 53 bits of the
    /// next draw plus one, a value in [1, 2^53] (the draw is this value
    /// divided by 2^53).
    pub fn next_uniform_bits(&mut self) -> (r: u64)
        ensures
            final(self).state == add_mod(old(self).state, GAMMA),
            r == (mix(final(self).state) >> 11u64) + 1,
            1 <= r <= 0x20_0000_0000_0000u64,
    {
        let x = self.next_u64();
        assert(x >> 11u64 <= 0x1F_FFFF_FFFF_FFFFu64) by (bit_vector);
        (x >> 11) + 1
    }
}

/// The state after `k` further draws is the seed plus (k + 1)·γ modulo
/// 2^64: where a stream stands is a function of its seed and of the number
/// of draws alone.
pub proof fn lemma_state_after_closed_form(seed: u64, k: nat)
    ensures
        state_after(seed, k) as nat == (seed as nat + (k + 1) * GAMMA as nat) % modulus(),
    decreases k,
{
    if k > 0 {
        lemma_state_after_closed_form(seed, (k - 1) as nat);
        let prev = seed as nat + k * GAMMA as nat;
        vstd::arithmetic::div_mod::lemma_add_mod_noop(prev as int, GAMMA as int, modulus() as int);
        vstd::arithmetic::div_mod::lemma_small_mod(GAMMA as nat, modulus());
        vstd::arithmetic::div_mod::lemma_mod_twice(prev as int, modulus() as int);
        assert(prev + GAMMA as nat == seed as nat + (k + 1) * GAMMA as nat) by (nonlinear_arith)
            requires
                prev == seed as nat + k * GAMMA as nat,
        ;
    } else {
        vstd::arithmetic::div_mod::lemma_small_mod(GAMMA as nat, modulus());
    }
}

/// The `k`-th draw of the stream seeded with `seed` (the draw returned by
/// the (k+1)-th call of [`SplitMix64::next_u64`] on a fresh
/// `SplitMix64::new(seed)`) is the mix of seed + (k + 2)·γ modulo 2^64:
/// two generators with the same seed give the same sequence.
pub proof fn stream_is_determined_by_seed_and_index(seed: u64, k: nat)
    ensures
        nth_draw(seed, k) == mix(((seed as nat + (k + 2) * GAMMA as nat) % modulus()) as u64),
{
    lemma_state_after_closed_form(seed, k + 1);
}


/// The inverse of [`MIX1`] modulo 2^64.
pub const MIX1_INV: u64 = 0x96DE_1B17_3F11_9089;

/// The inverse of [`MIX2`] modulo 2^64.
pub const MIX2_INV: u64 = 0x3196_42B2_D24D_8EC3;

/// Multiplying by `c` modulo 2^64 is undone by multiplying by its inverse
/// `inv` (c·inv = 1 + k·2^64).
proof fn lemma_mul_mod_undone(x: u64, c: u64, inv: u64, k: nat)
    requires
        c as nat * inv as nat == 1 + k * modulus(),
    ensures
        mul_mod(mul_mod(x, c), inv) == x,
{
    let m = modulus() as int;
    let a = x as int * c as int;
    vstd::arithmetic::div_mod::lemma_mul_mod_noop_left(a, inv as int, m);
    vstd::arithmetic::mul::lemma_mul_is_associative(x as int, c as int, inv as int);
    assert(x as int * (c as int * inv as int) == m * (x as int * k as int) + x as int) by (nonlinear_arith)
        requires
            c as int * inv as int == 1 + k * m,
    ;
    vstd::arithmetic::div_mod::lemma_mod_multiples_vanish(x as int * k as int, x as int, m);
    vstd::arithmetic::div_mod::lemma_small_mod(x as nat, m as nat);
}

/// The shift-xor steps of the mix are undone by two more shifts.
proof fn lemma_xorshifts_undone(z: u64)
    ensures
        ({ let y = z ^ (z >> 30u64); y ^ (y >> 30u64) ^ (y >> 60u64) }) == z,
        ({ let y = z ^ (z >> 27u64); y ^ (y >> 27u64) ^ (y >> 54u64) }) == z,
        ({ let y = z ^ (z >> 31u64); y ^ (y >> 31u64) ^ (y >> 62u64) }) == z,
{
    assert(({ let y = z ^ (z >> 30u64); y ^ (y >> 30u64) ^ (y >> 60u64) }) == z) by (bit_vector);
    assert(({ let y = z ^ (z >> 27u64); y ^ (y >> 27u64) ^ (y >> 54u64) }) == z) by (bit_vector);
    assert(({ let y = z ^ (z >> 31u64); y ^ (y >> 31u64) ^ (y >> 62u64) }) == z) by (bit_vector);
}

/// The output mix is one-to-one: distinct states give distinct draws.
pub proof fn mix_is_injective(a: u64, b: u64)
    ensures
        mix(a) == mix(b) ==> a == b,
{
    assert(MIX1 as nat * MIX1_INV as nat == 1 + 8125545580553827436nat * modulus());
    assert(MIX2 as nat * MIX2_INV as nat == 1 + 2077064247507883091nat * modulus());
    let a1 = mul_mod(a ^ (a >> 30u64), MIX1);
    let b1 = mul_mod(b ^ (b >> 30u64), MIX1);
    let a2 = mul_mod(a1 ^ (a1 >> 27u64), MIX2);
    let b2 = mul_mod(b1 ^ (b1 >> 27u64), MIX2);
    lemma_xorshifts_undone(a);
    lemma_xorshifts_undone(b);
    lemma_xorshifts_undone(a1);
    lemma_xorshifts_undone(b1);
    lemma_xorshifts_undone(a2);
    lemma_xorshifts_undone(b2);
    lemma_mul_mod_undone(a ^ (a >> 30u64), MIX1, MIX1_INV, 8125545580553827436nat);
    lemma_mul_mod_undone(b ^ (b >> 30u64), MIX1, MIX1_INV, 8125545580553827436nat);
    lemma_mul_mod_undone(a1 ^ (a1 >> 27u64), MIX2, MIX2_INV, 2077064247507883091nat);
    lemma_mul_mod_undone(b1 ^ (b1 >> 27u64), MIX2, MIX2_INV, 2077064247507883091nat);
}

/// The sum modulo 2^64 with `x`, reduced to at most one subtraction.
proof fn lemma_add_mod_value(x: u64, y: u64)
    ensures
        add_mod(x, y) as int == if x + y < modulus() { x + y } else { x + y - modulus() },
{
    let m = modulus() as int;
    if x + y < m {
        vstd::arithmetic::div_mod::lemma_small_mod((x + y) as nat, m as nat);
    } else {
        vstd::arithmetic::div_mod::lemma_mod_add_multiples_vanish(x + y - m, m);
        vstd::arithmetic::div_mod::lemma_small_mod((x + y - m) as nat, m as nat);
    }
}

/// The state after `k` draws determines the seed.
proof fn lemma_state_after_injective(a: u64, b: u64, k: nat)
    requires
        a != b,
    ensures
        state_after(a, k) != state_after(b, k),
    decreases k,
{
    if k > 0 {
        lemma_state_after_injective(a, b, (k - 1) as nat);
        lemma_add_mod_value(state_after(a, (k - 1) as nat), GAMMA);
        lemma_add_mod_value(state_after(b, (k - 1) as nat), GAMMA);
    } else {
        lemma_add_mod_value(a, GAMMA);
        lemma_add_mod_value(b, GAMMA);
    }
}

/// Distinct seeds give distinct streams: the `k`-th draws of two
/// generators seeded differently differ, the first ones among them.
pub proof fn distinct_seeds_give_distinct_draws(a: u64, b: u64, k: nat)
    requires
        a != b,
    ensures
        nth_draw(a, k) != nth_draw(b, k),
{
    lemma_state_after_injective(a, b, k + 1);
    mix_is_injective(state_after(a, k + 1), state_after(b, k + 1));
}

} // verus!
