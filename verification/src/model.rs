//! The mathematical model of the generator.
//!
//! Every executable method of [`crate::Rng`] is specified against the spec
//! functions here: the seed word read big-endian from the first eight seed
//! bytes, the two fixed whitening constants, the primitive state step and its
//! 64-bit output, and the iterated state after `n` steps.

use vstd::prelude::*;

verus! {

/// Whitening constant XORed into the seed to form the first state word.
pub const SEED_MIX_0: u64 = 0xf4dbdf2183dcefb7;

/// Whitening constant XORed into the seed to form the second state word.
pub const SEED_MIX_1: u64 = 0x1ad5be0d6dd28e9b;

/// The 64-bit seed word: the first eight seed bytes, big-endian.
pub open spec fn seed_word(bytes: Seq<u8>) -> u64
    recommends
        bytes.len() >= 8,
{
    ((bytes[0] as u64) << 56) | ((bytes[1] as u64) << 48) | ((bytes[2] as u64) << 40) | ((
    bytes[3] as u64) << 32) | ((bytes[4] as u64) << 24) | ((bytes[5] as u64) << 16) | ((
    bytes[6] as u64) << 8) | (bytes[7] as u64)
}

/// The state a generator starts from, given its seed bytes.
///
/// The two constants differ, so the state is never all zero, even for an
/// all-zero seed.
pub open spec fn init_state(bytes: Seq<u8>) -> (u64, u64)
    recommends
        bytes.len() >= 8,
{
    (seed_word(bytes) ^ SEED_MIX_0, seed_word(bytes) ^ SEED_MIX_1)
}

/// One primitive step of the generator (xorshift128+ variant).
pub open spec fn step(s: (u64, u64)) -> (u64, u64) {
    let x = s.0 ^ (s.0 << 23);
    (s.1, x ^ s.1 ^ (x >> 17) ^ (s.1 >> 26))
}

/// The 64-bit value produced by stepping from state `s`: the new second word
/// plus the old second word, wrapping modulo 2^64.
pub open spec fn out64(s: (u64, u64)) -> u64 {
    vstd::wrapping::u64_specs::wrapping_add(step(s).1, s.1)
}

/// The state after `n` primitive steps from `s`.
pub open spec fn state_after(s: (u64, u64), n: nat) -> (u64, u64)
    decreases n,
{
    if n == 0 {
        s
    } else {
        step(state_after(s, (n - 1) as nat))
    }
}

/// The 32-bit value drawn at state `s`: the high 32 bits of the 64-bit output.
pub open spec fn out32(s: (u64, u64)) -> u32 {
    (out64(s) >> 32) as u32
}

/// The rejection threshold for 32-bit bounded sampling: `(2^32 - m) mod m`,
/// which equals `2^32 mod m`, the size of the final incomplete bucket of
/// width `m` in the 32-bit output range.
pub open spec fn reject_threshold_32(m: u32) -> u32
    recommends
        m > 0,
{
    ((0x1_0000_0000 - m) % (m as int)) as u32
}

/// The rejection threshold for 64-bit bounded sampling: `(2^64 - m) mod m`.
pub open spec fn reject_threshold_64(m: u64) -> u64
    recommends
        m > 0,
{
    ((0x1_0000_0000_0000_0000 - m) % (m as int)) as u64
}

/// The draw after which a bounded sampler stops rejecting regardless of the
/// threshold, so that sampling is a total function.  No physical execution
/// comes anywhere near this many consecutive rejections: each rejection has
/// probability below one half, so reaching the limit would take more than
/// `2^64` draws.
pub const REJECT_LIMIT: u64 = 0xffff_ffff_ffff_ffff;

/// The first `n` 32-bit draws from `s` all fall below the rejection
/// threshold for modulus `m`.
pub open spec fn rejects_before_32(s: (u64, u64), m: u32, n: nat) -> bool {
    forall|i: nat| i < n ==> #[trigger] out32(state_after(s, i)) < reject_threshold_32(m)
}

/// Bounded 32-bit sampling for modulus `m`, started at state `s`, stops and
/// returns at draw `n`: every earlier draw was rejected, and draw `n` either
/// clears the threshold or is the draw at [`REJECT_LIMIT`].  For given `s`
/// and `m` at most one `n` satisfies this.
pub open spec fn stops_at_32(s: (u64, u64), m: u32, n: nat) -> bool {
    n <= REJECT_LIMIT && rejects_before_32(s, m, n) && (out32(state_after(s, n))
        >= reject_threshold_32(m) || n == REJECT_LIMIT as nat)
}

/// The first `n` 64-bit draws from `s` all fall below the rejection
/// threshold for modulus `m`.
pub open spec fn rejects_before_64(s: (u64, u64), m: u64, n: nat) -> bool {
    forall|i: nat| i < n ==> #[trigger] out64(state_after(s, i)) < reject_threshold_64(m)
}

/// Bounded 64-bit sampling for modulus `m`, started at state `s`, stops and
/// returns at draw `n`; the 64-bit counterpart of [`stops_at_32`].
pub open spec fn stops_at_64(s: (u64, u64), m: u64, n: nat) -> bool {
    n <= REJECT_LIMIT && rejects_before_64(s, m, n) && (out64(state_after(s, n))
        >= reject_threshold_64(m) || n == REJECT_LIMIT as nat)
}

/// The number of 32-bit draws that filling a buffer of `len` bytes
/// consumes: one draw yields four bytes, and the last draw may be consumed
/// only in part.
pub open spec fn fill_draws(len: nat) -> nat {
    (len + 3) / 4
}

/// Byte `k` written when filling from state `s`: byte `k % 4`, least
/// significant first, of the `k / 4`-th 32-bit draw.
pub open spec fn fill_byte(s: (u64, u64), k: nat) -> u8 {
    (out32(state_after(s, k / 4)) >> ((8 * (k % 4)) as u32)) as u8
}

/// The index swapped with position `i` during a shuffle: a pointer-width
/// draw at state `st`, reduced modulo `i + 1`.  Plain modulo rather than
/// rejection sampling, so lengths that are not powers of two carry a slight
/// modulo bias; that is a fixed property of the algorithm, kept so that a
/// seed always yields the same permutation.
pub open spec fn shuffle_index(st: (u64, u64), i: nat) -> int {
    (out64(st) as usize) as int % (i + 1) as int
}

/// One Fisher-Yates pass from position `i` down to position 1: swap the
/// element at `i` with the one at the drawn index, step the state, recurse.
/// Returns the permuted sequence and the state after the pass.
pub open spec fn shuffle_down<T>(s: Seq<T>, st: (u64, u64), i: nat) -> (Seq<T>, (u64, u64))
    recommends
        i < s.len(),
    decreases i,
{
    if i == 0 {
        (s, st)
    } else {
        let j = shuffle_index(st, i);
        shuffle_down(
            s.update(i as int, s[j]).update(j, s[i as int]),
            step(st),
            (i - 1) as nat,
        )
    }
}

/// The in-place shuffle of `s` from state `st`: a no-op for the empty
/// sequence (and for a single element, where the pass starts at 0).
pub open spec fn shuffle_spec<T>(s: Seq<T>, st: (u64, u64)) -> (Seq<T>, (u64, u64)) {
    if s.len() == 0 {
        (s, st)
    } else {
        shuffle_down(s, st, (s.len() - 1) as nat)
    }
}

/// Swapping two elements of a sequence leaves its multiset of elements
/// unchanged.
pub proof fn lemma_swap_multiset<T>(s: Seq<T>, i: int, j: int)
    requires
        0 <= i < s.len(),
        0 <= j < s.len(),
    ensures
        s.update(i, s[j]).update(j, s[i]).to_multiset() == s.to_multiset(),
{
    broadcast use vstd::seq_lib::group_to_multiset_ensures;

    if i == j {
        assert(s.update(i, s[j]).update(j, s[i]) =~= s);
    } else {
        let s1 = s.update(i, s[j]);
        let s2 = s1.update(j, s[i]);
        assert(s1[j] == s[j]);
        assert(s.to_multiset().count(s[i]) > 0);
        assert(s1.to_multiset().count(s[j]) > 0);
        assert(s2.to_multiset() =~= s.to_multiset());
    }
}

/// A Fisher-Yates pass permutes the sequence: the multiset of elements is
/// unchanged.
pub proof fn lemma_shuffle_down_multiset<T>(s: Seq<T>, st: (u64, u64), i: nat)
    requires
        i < s.len(),
    ensures
        shuffle_down(s, st, i).0.to_multiset() == s.to_multiset(),
        shuffle_down(s, st, i).0.len() == s.len(),
    decreases i,
{
    broadcast use vstd::seq_lib::group_to_multiset_ensures;

    if i != 0 {
        let j = shuffle_index(st, i);
        let s2 = s.update(i as int, s[j]).update(j, s[i as int]);
        lemma_swap_multiset(s, i as int, j);
        lemma_shuffle_down_multiset(s2, step(st), (i - 1) as nat);
    }
}

/// The whole shuffle permutes the sequence, and leaves sequences of at most
/// one element untouched.
pub proof fn lemma_shuffle_spec_multiset<T>(s: Seq<T>, st: (u64, u64))
    ensures
        shuffle_spec(s, st).0.to_multiset() == s.to_multiset(),
        shuffle_spec(s, st).0.len() == s.len(),
        s.len() <= 1 ==> shuffle_spec(s, st) == (s, st),
{
    broadcast use vstd::seq_lib::group_to_multiset_ensures;

    if s.len() > 0 {
        lemma_shuffle_down_multiset(s, st, (s.len() - 1) as nat);
    }
}

/// The rejection threshold is the size of the final incomplete bucket:
/// `2^32 mod m` values of the 32-bit output range fall in it, and rejecting
/// them leaves every residue class modulo `m` with exactly `2^32 / m`
/// accepted draws.
pub proof fn lemma_threshold_is_excess_32(m: u32)
    requires
        m > 0,
    ensures
        reject_threshold_32(m) == 0x1_0000_0000int % (m as int),
        reject_threshold_32(m) < m,
{
    vstd::arithmetic::div_mod::lemma_mod_sub_multiples_vanish(0x1_0000_0000, m as int);
}

/// The 64-bit counterpart of [`lemma_threshold_is_excess_32`].
pub proof fn lemma_threshold_is_excess_64(m: u64)
    requires
        m > 0,
    ensures
        reject_threshold_64(m) == 0x1_0000_0000_0000_0000int % (m as int),
        reject_threshold_64(m) < m,
{
    vstd::arithmetic::div_mod::lemma_mod_sub_multiples_vanish(
        0x1_0000_0000_0000_0000,
        m as int,
    );
}

/// The stopping draw of bounded sampling is unique: the contracts that name
/// it name one definite draw.
pub proof fn lemma_stop_unique_32(s: (u64, u64), m: u32, n1: nat, n2: nat)
    requires
        stops_at_32(s, m, n1),
        stops_at_32(s, m, n2),
    ensures
        n1 == n2,
{
    if n1 < n2 {
        assert(out32(state_after(s, n1)) < reject_threshold_32(m));
    }
    if n2 < n1 {
        assert(out32(state_after(s, n2)) < reject_threshold_32(m));
    }
}

/// The 64-bit counterpart of [`lemma_stop_unique_32`].
pub proof fn lemma_stop_unique_64(s: (u64, u64), m: u64, n1: nat, n2: nat)
    requires
        stops_at_64(s, m, n1),
        stops_at_64(s, m, n2),
    ensures
        n1 == n2,
{
    if n1 < n2 {
        assert(out64(state_after(s, n1)) < reject_threshold_64(m));
    }
    if n2 < n1 {
        assert(out64(state_after(s, n2)) < reject_threshold_64(m));
    }
}

} // verus!
