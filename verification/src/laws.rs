//! Global properties of the generator, proved once and for all: only the
//! first eight seed bytes matter and equal seeds agree forever, while seeds
//! that differ in those bytes keep the two generators' states apart at every
//! step of their lives.

use vstd::prelude::*;

use crate::model::{
    init_state, out64, reject_threshold_32, reject_threshold_64, seed_word, state_after, step,
    SEED_MIX_0, SEED_MIX_1,
};

verus! {

/// The integers in `[bound % m, bound)` that leave remainder `c` modulo
/// `m`: the draws a bounded sampler with draw range `[0, bound)` accepts
/// and reduces to `c`.
pub open spec fn surviving_draws(bound: int, m: int, c: int) -> Set<int> {
    Set::new(|r: int| bound % m <= r < bound && r % m == c)
}

/// Exact uniformity of rejection sampling: once the final incomplete
/// bucket `[0, bound % m)` is rejected, every residue class modulo `m`
/// keeps exactly `bound / m` of the `bound` draw values — the same share
/// for every residue.
pub proof fn lemma_rejection_is_uniform(bound: int, m: int, c: int)
    requires
        0 < m <= bound,
        0 <= c < m,
    ensures
        surviving_draws(bound, m, c).finite(),
        surviving_draws(bound, m, c).len() == bound / m,
{
    let t = bound % m;
    let k = bound / m;
    vstd::arithmetic::div_mod::lemma_fundamental_div_mod(bound, m);
    vstd::arithmetic::div_mod::lemma_mod_bound(bound, m);
    assert(m * k > 0);
    assert(k >= 1) by (nonlinear_arith)
        requires
            m > 0,
            m * k > 0,
    ;
    let q0: int = if c >= t {
        0
    } else {
        1
    };
    let f = |q: int| m * q + c;
    let qs = vstd::set_lib::set_int_range(q0, q0 + k);
    vstd::set_lib::lemma_int_range(q0, q0 + k);
    assert forall|x: int| #[trigger] surviving_draws(bound, m, c).contains(x) implies qs.map(
        f,
    ).contains(x) by {
        vstd::arithmetic::div_mod::lemma_fundamental_div_mod(x, m);
        let q = x / m;
        assert(x == m * q + c);
        if c >= t {
            assert(q0 <= q < q0 + k) by (nonlinear_arith)
                requires
                    q0 == 0,
                    m > 0,
                    0 <= t <= c < m,
                    x == m * q + c,
                    t <= x,
                    x < m * k + t,
            ;
        } else {
            assert(q0 <= q < q0 + k) by (nonlinear_arith)
                requires
                    q0 == 1,
                    m > 0,
                    0 <= c < t < m,
                    x == m * q + c,
                    t <= x,
                    x < m * k + t,
            ;
        }
        assert(qs.contains(q) && f(q) == x);
    }
    assert forall|x: int| #[trigger] qs.map(f).contains(x) implies surviving_draws(
        bound,
        m,
        c,
    ).contains(x) by {
        let q = choose|q: int| qs.contains(q) && f(q) == x;
        vstd::arithmetic::div_mod::lemma_mod_multiples_vanish(q, c, m);
        vstd::arithmetic::div_mod::lemma_small_mod(c as nat, m as nat);
        assert(x % m == c);
        if c >= t {
            assert(t <= x < m * k + t) by (nonlinear_arith)
                requires
                    m > 0,
                    0 <= t <= c < m,
                    x == m * q + c,
                    0 <= q < k,
            ;
        } else {
            assert(t <= x < m * k + t) by (nonlinear_arith)
                requires
                    m > 0,
                    0 <= c < t < m,
                    x == m * q + c,
                    1 <= q < 1 + k,
            ;
        }
    }
    assert(qs.map(f) =~= surviving_draws(bound, m, c));
    assert(vstd::relations::injective_on(f, qs)) by {
        assert forall|q1: int, q2: int| #[trigger] f(q1) == #[trigger] f(q2) implies q1 == q2 by {
            assert(m * q1 + c == m * q2 + c ==> q1 == q2) by (nonlinear_arith)
                requires
                    m > 0,
            ;
        }
    }
    vstd::set_lib::lemma_map_size(qs, surviving_draws(bound, m, c), f);
}

/// The 32-bit bounded sampler is exactly uniform: for every modulus and
/// every pair of residues, the accepted region of the 32-bit draw range
/// holds as many draws for one residue as for the other, namely
/// `2^32 / m`.
pub proof fn lemma_bounded_32_uniform(m: u32, c1: int, c2: int)
    requires
        m > 0,
        0 <= c1 < m,
        0 <= c2 < m,
    ensures
        surviving_draws(0x1_0000_0000, m as int, c1) == Set::new(
            |r: int| reject_threshold_32(m) <= r < 0x1_0000_0000int && r % (m as int) == c1,
        ),
        surviving_draws(0x1_0000_0000, m as int, c1).len() == 0x1_0000_0000int / (m as int),
        surviving_draws(0x1_0000_0000, m as int, c1).len() == surviving_draws(
            0x1_0000_0000,
            m as int,
            c2,
        ).len(),
{
    crate::model::lemma_threshold_is_excess_32(m);
    assert(surviving_draws(0x1_0000_0000, m as int, c1) =~= Set::new(
        |r: int| reject_threshold_32(m) <= r < 0x1_0000_0000int && r % (m as int) == c1,
    ));
    lemma_rejection_is_uniform(0x1_0000_0000, m as int, c1);
    lemma_rejection_is_uniform(0x1_0000_0000, m as int, c2);
}

/// The 64-bit counterpart of [`lemma_bounded_32_uniform`].
pub proof fn lemma_bounded_64_uniform(m: u64, c1: int, c2: int)
    requires
        m > 0,
        0 <= c1 < m,
        0 <= c2 < m,
    ensures
        surviving_draws(0x1_0000_0000_0000_0000, m as int, c1) == Set::new(
            |r: int|
                reject_threshold_64(m) <= r < 0x1_0000_0000_0000_0000int && r % (m as int) == c1,
        ),
        surviving_draws(0x1_0000_0000_0000_0000, m as int, c1).len()
            == 0x1_0000_0000_0000_0000int / (m as int),
        surviving_draws(0x1_0000_0000_0000_0000, m as int, c1).len() == surviving_draws(
            0x1_0000_0000_0000_0000,
            m as int,
            c2,
        ).len(),
{
    crate::model::lemma_threshold_is_excess_64(m);
    assert(surviving_draws(0x1_0000_0000_0000_0000, m as int, c1) =~= Set::new(
        |r: int|
            reject_threshold_64(m) <= r < 0x1_0000_0000_0000_0000int && r % (m as int) == c1,
    ));
    lemma_rejection_is_uniform(0x1_0000_0000_0000_0000, m as int, c1);
    lemma_rejection_is_uniform(0x1_0000_0000_0000_0000, m as int, c2);
}

/// Determinism: a generator is a pure function of its first eight seed
/// bytes.  Two seeds that agree on those bytes give the same starting
/// state, the same state after any number of steps, and the same draw at
/// every step.
pub proof fn lemma_determinism(s1: Seq<u8>, s2: Seq<u8>, n: nat)
    requires
        s1.len() >= 8,
        s2.len() >= 8,
        forall|i: int| 0 <= i < 8 ==> s1[i] == s2[i],
    ensures
        init_state(s1) == init_state(s2),
        state_after(init_state(s1), n) == state_after(init_state(s2), n),
        out64(state_after(init_state(s1), n)) == out64(state_after(init_state(s2), n)),
{
    assert(seed_word(s1) == seed_word(s2));
}

/// The primitive step is injective: it never merges two distinct states, so
/// no two histories collapse into one.
pub proof fn lemma_step_injective(a: (u64, u64), b: (u64, u64))
    requires
        step(a) == step(b),
    ensures
        a == b,
{
    let (a0, a1) = a;
    let (b0, b1) = b;
    assert(a1 == b1);
    assert(a0 == b0) by (bit_vector)
        requires
            a1 == b1,
            (a0 ^ (a0 << 23)) ^ a1 ^ ((a0 ^ (a0 << 23)) >> 17) ^ (a1 >> 26) == (b0 ^ (b0 << 23))
                ^ b1 ^ ((b0 ^ (b0 << 23)) >> 17) ^ (b1 >> 26),
    ;
}

/// Each of the first eight seed bytes can be recovered from the seed word,
/// so the seed word is injective in them.
proof fn lemma_seed_word_injective(s1: Seq<u8>, s2: Seq<u8>)
    requires
        s1.len() >= 8,
        s2.len() >= 8,
        seed_word(s1) == seed_word(s2),
    ensures
        forall|i: int| 0 <= i < 8 ==> s1[i] == s2[i],
{
    lemma_seed_word_bytes(s1);
    lemma_seed_word_bytes(s2);
    assert forall|i: int| 0 <= i < 8 implies s1[i] == s2[i] by {
        assert(s1[i] == (seed_word(s1) >> ((8 * (7 - i)) as u64)) as u8);
        assert(s2[i] == (seed_word(s2) >> ((8 * (7 - i)) as u64)) as u8);
    }
}

/// Shifting the seed word back down recovers each seed byte.
proof fn lemma_seed_word_bytes(s: Seq<u8>)
    requires
        s.len() >= 8,
    ensures
        forall|i: int| 0 <= i < 8 ==> s[i] == (seed_word(s) >> ((8 * (7 - i)) as u64)) as u8,
{
    let b0 = s[0];
    let b1 = s[1];
    let b2 = s[2];
    let b3 = s[3];
    let b4 = s[4];
    let b5 = s[5];
    let b6 = s[6];
    let b7 = s[7];
    let w = seed_word(s);
    assert((w >> 56u64) as u8 == b0 && (w >> 48u64) as u8 == b1 && (w >> 40u64) as u8 == b2 && (w
        >> 32u64) as u8 == b3 && (w >> 24u64) as u8 == b4 && (w >> 16u64) as u8 == b5 && (w
        >> 8u64) as u8 == b6 && (w >> 0u64) as u8 == b7) by (bit_vector)
        requires
            w == ((b0 as u64) << 56) | ((b1 as u64) << 48) | ((b2 as u64) << 40) | ((b3 as u64)
                << 32) | ((b4 as u64) << 24) | ((b5 as u64) << 16) | ((b6 as u64) << 8) | (
            b7 as u64),
    ;
    assert forall|i: int| 0 <= i < 8 implies s[i] == (w >> ((8 * (7 - i)) as u64)) as u8 by {
        if i == 0 {
            assert(s[i] == (w >> 56u64) as u8);
        } else if i == 1 {
            assert(s[i] == (w >> 48u64) as u8);
        } else if i == 2 {
            assert(s[i] == (w >> 40u64) as u8);
        } else if i == 3 {
            assert(s[i] == (w >> 32u64) as u8);
        } else if i == 4 {
            assert(s[i] == (w >> 24u64) as u8);
        } else if i == 5 {
            assert(s[i] == (w >> 16u64) as u8);
        } else if i == 6 {
            assert(s[i] == (w >> 8u64) as u8);
        } else {
            assert(s[i] == (w >> 0u64) as u8);
        }
    }
}

/// The state is never degenerate: whatever the seed — an all-zero seed
/// included — the two whitening constants differ, so the generator never
/// sits in the all-zero state from which every draw would be zero, and the
/// injective step keeps it away from that state forever.
pub proof fn lemma_state_never_degenerate(seed: Seq<u8>, n: nat)
    requires
        seed.len() >= 8,
    ensures
        state_after(init_state(seed), n) != (0u64, 0u64),
    decreases n,
{
    let w = seed_word(seed);
    assert(!(w ^ SEED_MIX_0 == 0 && w ^ SEED_MIX_1 == 0)) by (bit_vector);
    if n > 0 {
        lemma_state_never_degenerate(seed, (n - 1) as nat);
        if state_after(init_state(seed), n) == (0u64, 0u64) {
            assert((0u64 ^ (0u64 << 23)) ^ 0u64 ^ ((0u64 ^ (0u64 << 23)) >> 17) ^ (0u64 >> 26)
                == 0u64) by (bit_vector);
            assert(step((0u64, 0u64)) == (0u64, 0u64));
            lemma_step_injective(state_after(init_state(seed), (n - 1) as nat), (0u64, 0u64));
            assert(false);
        }
    }
}

/// Distinct states stay distinct: the step never merges them, however long
/// the two generators run.
pub proof fn lemma_states_stay_distinct(a: (u64, u64), b: (u64, u64), n: nat)
    requires
        a != b,
    ensures
        state_after(a, n) != state_after(b, n),
    decreases n,
{
    if n > 0 {
        lemma_states_stay_distinct(a, b, (n - 1) as nat);
        if state_after(a, n) == state_after(b, n) {
            lemma_step_injective(state_after(a, (n - 1) as nat), state_after(b, (n - 1) as nat));
            assert(false);
        }
    }
}

/// Seed sensitivity: seeds that differ somewhere in their first eight bytes
/// give generators whose internal states differ at every step forever.  (A
/// single 64-bit output can still coincide by chance; the states never do.)
pub proof fn lemma_seed_sensitivity(s1: Seq<u8>, s2: Seq<u8>, n: nat)
    requires
        s1.len() >= 8,
        s2.len() >= 8,
        exists|i: int| 0 <= i < 8 && s1[i] != s2[i],
    ensures
        state_after(init_state(s1), n) != state_after(init_state(s2), n),
{
    if seed_word(s1) == seed_word(s2) {
        lemma_seed_word_injective(s1, s2);
        assert(false);
    }
    let w1 = seed_word(s1);
    let w2 = seed_word(s2);
    assert(w1 ^ SEED_MIX_0 != w2 ^ SEED_MIX_0) by (bit_vector)
        requires
            w1 != w2,
    ;
    lemma_states_stay_distinct(init_state(s1), init_state(s2), n);
}

} // verus!
