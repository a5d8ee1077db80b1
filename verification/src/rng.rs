//! The generator itself: construction from seed bytes and the primitive
//! 64-bit step.  Every method's contract is exact: it names the state before
//! and after the call and the value returned, in terms of the spec functions
//! of [`crate::model`].

use vstd::prelude::*;

use crate::model::{
    fill_byte, fill_draws, init_state, lemma_shuffle_spec_multiset, out32, out64,
    reject_threshold_32, reject_threshold_64, rejects_before_32, rejects_before_64, shuffle_down,
    shuffle_spec, state_after, step, stops_at_32, stops_at_64, REJECT_LIMIT, SEED_MIX_0,
    SEED_MIX_1,
};

verus! {

/// Swaps the elements at `i` and `j` (with `j <= i`), moving them through
/// `remove` and `insert` so that the element type need not be `Copy`.
fn swap_elements<T>(a: &mut Vec<T>, i: usize, j: usize)
    requires
        i < old(a)@.len(),
        j <= i,
    ensures
        final (a)@ == old(a)@.update(i as int, old(a)@[j as int]).update(
            j as int,
            old(a)@[i as int],
        ),
{
    let ghost s = a@;
    if j < i {
        let hi = a.remove(i);
        let lo = a.remove(j);
        a.insert(j, hi);
        a.insert(i, lo);
        assert(a@ =~= s.update(i as int, s[j as int]).update(j as int, s[i as int]));
    } else {
        assert(a@ =~= s.update(i as int, s[j as int]).update(j as int, s[i as int]));
    }
}

/// A deterministic pseudo-random number generator with 128 bits of state.
pub struct Rng {
    state: (u64, u64),
}

impl View for Rng {
    type V = (u64, u64);

    closed spec fn view(&self) -> (u64, u64) {
        self.state
    }
}

impl Rng {
    /// Builds a generator from the first eight seed bytes, read big-endian.
    pub fn new(seed: &Vec<u8>) -> (rng: Self)
        requires
            seed.len() >= 8,
        ensures
            rng@ == init_state(seed@),
    {
        let word: u64 = ((seed[0] as u64) << 56) | ((seed[1] as u64) << 48) | ((seed[2] as u64)
            << 40) | ((seed[3] as u64) << 32) | ((seed[4] as u64) << 24) | ((seed[5] as u64) << 16)
            | ((seed[6] as u64) << 8) | (seed[7] as u64);
        Rng { state: (word ^ SEED_MIX_0, word ^ SEED_MIX_1) }
    }

    /// One primitive step: advances the state and returns 64 fresh bits.
    pub fn rand_u64(&mut self) -> (r: u64)
        ensures
            final (self)@ == step(old(self)@),
            r == out64(old(self)@),
    {
        let (x0, y) = self.state;
        self.state.0 = y;
        let x = x0 ^ (x0 << 23);
        self.state.1 = x ^ y ^ (x >> 17) ^ (y >> 26);
        self.state.1.wrapping_add(y)
    }

    /// The high 32 bits of one primitive step.
    pub fn rand_u32(&mut self) -> (r: u32)
        ensures
            final (self)@ == step(old(self)@),
            r == out32(old(self)@),
    {
        (self.rand_u64() >> 32) as u32
    }

    /// The low 8 bits of [`Rng::rand_u32`].
    pub fn rand_u8(&mut self) -> (r: u8)
        ensures
            final (self)@ == step(old(self)@),
            r == out32(old(self)@) as u8,
    {
        self.rand_u32() as u8
    }

    /// The low 16 bits of [`Rng::rand_u32`].
    pub fn rand_u16(&mut self) -> (r: u16)
        ensures
            final (self)@ == step(old(self)@),
            r == out32(old(self)@) as u16,
    {
        self.rand_u32() as u16
    }

    /// A pointer-width value: the primitive 64-bit step, truncated to the
    /// platform word.
    pub fn rand_usize(&mut self) -> (r: usize)
        ensures
            final (self)@ == step(old(self)@),
            r == out64(old(self)@) as usize,
    {
        self.rand_u64() as usize
    }

    /// A value equidistributed in `[0, m)`, by rejection sampling over
    /// 32-bit draws: draws below `2^32 mod m` fall in the final incomplete
    /// bucket of width `m` and are resampled, so every residue keeps an
    /// equal share of the accepted draws.
    ///
    /// The contract names the exact draw the sampler stopped at (unique by
    /// [`crate::model::lemma_stop_unique_32`]): every draw before it was rejected, the
    /// result is that draw reduced modulo `m`, and the state has advanced by
    /// exactly one step per draw.
    pub fn rand_bounded_u32(&mut self, m: u32) -> (r: u32)
        requires
            m > 0,
        ensures
            r < m,
            exists|n: nat|
                #[trigger] stops_at_32(old(self)@, m, n) && r == out32(
                    state_after(old(self)@, n),
                ) as int % m as int && final (self)@ == state_after(old(self)@, (n + 1) as nat),
    {
        let threshold = 0u32.wrapping_sub(m) % m;
        let mut k: u64 = 0;
        loop
            invariant
                m > 0,
                threshold == reject_threshold_32(m),
                self@ == state_after(old(self)@, k as nat),
                rejects_before_32(old(self)@, m, k as nat),
            decreases REJECT_LIMIT - k,
        {
            let r = self.rand_u32();
            if r >= threshold || k == REJECT_LIMIT {
                assert(stops_at_32(old(self)@, m, k as nat));
                return r % m;
            }
            k = k + 1;
        }
    }

    /// A value equidistributed in `[0, m)`, by rejection sampling over full
    /// 64-bit draws; the 64-bit counterpart of [`Rng::rand_bounded_u32`].
    pub fn rand_bounded_u64(&mut self, m: u64) -> (r: u64)
        requires
            m > 0,
        ensures
            r < m,
            exists|n: nat|
                #[trigger] stops_at_64(old(self)@, m, n) && r == out64(
                    state_after(old(self)@, n),
                ) as int % m as int && final (self)@ == state_after(old(self)@, (n + 1) as nat),
    {
        let threshold = 0u64.wrapping_sub(m) % m;
        let mut k: u64 = 0;
        loop
            invariant
                m > 0,
                threshold == reject_threshold_64(m),
                self@ == state_after(old(self)@, k as nat),
                rejects_before_64(old(self)@, m, k as nat),
            decreases REJECT_LIMIT - k,
        {
            let r = self.rand_u64();
            if r >= threshold || k == REJECT_LIMIT {
                assert(stops_at_64(old(self)@, m, k as nat));
                return r % m;
            }
            k = k + 1;
        }
    }

    /// A pointer-width value equidistributed in `[0, m)`: delegates to the
    /// 64-bit bounded sampler.
    pub fn rand_bounded_usize(&mut self, m: usize) -> (r: usize)
        requires
            m > 0,
        ensures
            r < m,
            exists|n: nat|
                #[trigger] stops_at_64(old(self)@, m as u64, n) && r == out64(
                    state_after(old(self)@, n),
                ) as int % m as int && final (self)@ == state_after(old(self)@, (n + 1) as nat),
    {
        self.rand_bounded_u64(m as u64) as usize
    }

    /// A value equidistributed in `[a, b)`: `a` plus a bounded draw over the
    /// span `b - a`.
    pub fn rand_range_u32(&mut self, a: u32, b: u32) -> (r: u32)
        requires
            a < b,
        ensures
            a <= r < b,
            exists|n: nat|
                #[trigger] stops_at_32(old(self)@, (b - a) as u32, n) && r == a + out32(
                    state_after(old(self)@, n),
                ) as int % (b - a) && final (self)@ == state_after(old(self)@, (n + 1) as nat),
    {
        a + self.rand_bounded_u32(b - a)
    }

    /// A value equidistributed in `[a, b)`; the 64-bit counterpart of
    /// [`Rng::rand_range_u32`].
    pub fn rand_range_u64(&mut self, a: u64, b: u64) -> (r: u64)
        requires
            a < b,
        ensures
            a <= r < b,
            exists|n: nat|
                #[trigger] stops_at_64(old(self)@, (b - a) as u64, n) && r == a + out64(
                    state_after(old(self)@, n),
                ) as int % (b - a) && final (self)@ == state_after(old(self)@, (n + 1) as nat),
    {
        a + self.rand_bounded_u64(b - a)
    }

    /// A signed value equidistributed in `[a, b)`: the span `b - a` always
    /// fits in 32 unsigned bits, so it is sampled unsigned and added back to
    /// `a` with wrapping arithmetic, which cannot leave `[a, b)`.
    pub fn rand_range_i32(&mut self, a: i32, b: i32) -> (r: i32)
        requires
            a < b,
        ensures
            a <= r < b,
            exists|n: nat|
                #[trigger] stops_at_32(old(self)@, (b - a) as u32, n) && r == a + out32(
                    state_after(old(self)@, n),
                ) as int % (b - a) && final (self)@ == state_after(old(self)@, (n + 1) as nat),
    {
        let w = b.wrapping_sub(a);
        assert(w as u32 == if w >= 0 {
            w as int
        } else {
            w + 0x1_0000_0000
        }) by (bit_vector);
        let span = w as u32;
        assert(span == b - a);
        assert(span == (b - a) as u32);
        let v = self.rand_bounded_u32(span);
        let r = a.wrapping_add(v as i32);
        assert(r == a + v) by {
            assert(v as i32 == if v <= 0x7fff_ffff {
                v as int
            } else {
                v - 0x1_0000_0000
            }) by (bit_vector);
        };
        r
    }

    /// A signed value equidistributed in `[a, b)`; the 64-bit counterpart of
    /// [`Rng::rand_range_i32`].
    pub fn rand_range_i64(&mut self, a: i64, b: i64) -> (r: i64)
        requires
            a < b,
        ensures
            a <= r < b,
            exists|n: nat|
                #[trigger] stops_at_64(old(self)@, (b - a) as u64, n) && r == a + out64(
                    state_after(old(self)@, n),
                ) as int % (b - a) && final (self)@ == state_after(old(self)@, (n + 1) as nat),
    {
        let w = b.wrapping_sub(a);
        assert(w as u64 == if w >= 0 {
            w as int
        } else {
            w + 0x1_0000_0000_0000_0000
        }) by (bit_vector);
        let span = w as u64;
        assert(span == b - a);
        assert(span == (b - a) as u64);
        let v = self.rand_bounded_u64(span);
        let r = a.wrapping_add(v as i64);
        assert(r == a + v) by {
            assert(v as i64 == if v <= 0x7fff_ffff_ffff_ffff {
                v as int
            } else {
                v - 0x1_0000_0000_0000_0000
            }) by (bit_vector);
        };
        r
    }

    /// Fills the buffer with pseudo-random bytes: each 32-bit draw is
    /// emitted least-significant byte first, and a fresh draw is taken only
    /// when a new group of four bytes begins, so exactly
    /// `fill_draws(buffer length)` draws are consumed.
    pub fn fill(&mut self, a: &mut Vec<u8>)
        ensures
            final (a)@.len() == old(a)@.len(),
            forall|k: int|
                0 <= k < old(a)@.len() ==> final (a)@[k] == fill_byte(old(self)@, k as nat),
            final (self)@ == state_after(old(self)@, fill_draws(old(a)@.len() as nat)),
    {
        let len = a.len();
        let mut k: usize = 0;
        let mut x: u32 = 0;
        while k < len
            invariant
                len == old(a)@.len(),
                a@.len() == len,
                k <= len,
                self@ == state_after(old(self)@, ((k + 3) / 4) as nat),
                k > 0 ==> x == out32(state_after(old(self)@, ((k - 1) / 4) as nat)) >> ((8 * ((k
                    - 1) % 4)) as u32),
                forall|i: int| 0 <= i < k ==> a@[i] == fill_byte(old(self)@, i as nat),
            decreases len - k,
        {
            if k % 4 == 0 {
                x = self.rand_u32();
                assert(x >> 0u32 == x) by (bit_vector);
                assert(x == out32(state_after(old(self)@, (k / 4) as nat)) >> ((8 * (k
                    % 4)) as u32));
            } else {
                let ghost d = out32(state_after(old(self)@, (k / 4) as nat));
                let ghost j = (8 * ((k - 1) % 4)) as u32;
                assert(x >> 8u32 == d >> ((j + 8) as u32)) by (bit_vector)
                    requires
                        x == d >> j,
                        j <= 16,
                ;
                x = x >> 8u32;
                assert(x == d >> ((8 * (k % 4)) as u32));
            }
            a[k] = x as u8;
            assert(a@[k as int] == fill_byte(old(self)@, k as nat));
            k = k + 1;
        }
    }

    /// In-place Fisher-Yates shuffle: for `i` from the last position down to
    /// 1, swaps position `i` with a drawn position in `[0, i]`.  The result
    /// is exactly [`shuffle_spec`] of the old contents and state; in
    /// particular it is a permutation of the input, and a sequence of at
    /// most one element is left untouched.
    pub fn shuffle<T>(&mut self, a: &mut Vec<T>)
        ensures
            (final (a)@, final (self)@) == shuffle_spec(old(a)@, old(self)@),
            final (a)@.to_multiset() == old(a)@.to_multiset(),
            final (a)@.len() == old(a)@.len(),
            old(a)@.len() <= 1 ==> final (a)@ == old(a)@ && final (self)@ == old(self)@,
    {
        if a.len() == 0 {
            proof {
                lemma_shuffle_spec_multiset(old(a)@, old(self)@);
            }
            return ;
        }
        let mut i: usize = a.len() - 1;
        while i > 0
            invariant
                i < a@.len(),
                a@.len() <= usize::MAX,
                a@.len() == old(a)@.len(),
                shuffle_spec(old(a)@, old(self)@) == shuffle_down(a@, self@, i as nat),
            decreases i,
        {
            let j = self.rand_usize() % (i + 1);
            swap_elements(a, i, j);
            i = i - 1;
        }
        proof {
            lemma_shuffle_spec_multiset(old(a)@, old(self)@);
        }
    }
}

} // verus!
