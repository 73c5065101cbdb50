//! A dependency-free pseudo-random value generator.
//!
//! A [`Rand`] owns a single 128-bit state word and advances it with a linear
//! congruential step (`state' = A * state + B mod 2^128`) once per drawn
//! value.  Typed accessors extract integers of every width from the upper
//! half of the stepped state; bounded ranges, shuffles and element picks are
//! built on top of those accessors.  Every operation is a pure function of
//! the state word, so two generators holding equal states produce identical
//! output sequences.
//!
//! The generator is not cryptographically secure, and range mapping uses a
//! plain modulo reduction whose small bias for spans that do not divide the
//! machine-word range is a documented property, not a defect.

use std::hash::BuildHasher;
use std::hash::Hasher;
use vstd::prelude::*;

mod laws;

pub use laws::lemma_deterministic;
pub use laws::lemma_seq_swap_multiset;
pub use laws::lemma_shuffle_from_permutes;
pub use laws::lemma_shuffle_from_steps;
pub use laws::lemma_step_independence;

verus! {

/// Multiplier of the linear congruential step (the Knuth/Newlib pair).
pub const PRIME_A: u128 = 1442695040888963407;

/// Increment of the linear congruential step (the Knuth/Newlib pair).
pub const PRIME_B: u128 = 6364136223846793005;

/// 2^128, the modulus of the 128-bit state word.
pub open spec fn pow2_128() -> int {
    0x1_0000_0000_0000_0000_0000_0000_0000_0000int
}

/// The successor of state `s` under the linear congruential recurrence
/// `s' = PRIME_A * s + PRIME_B mod 2^128`.
pub open spec fn lcg_next(s: u128) -> u128 {
    ((PRIME_A * s + PRIME_B) % pow2_128()) as u128
}

/// The state reached from `s` after `n` linear congruential steps.
pub open spec fn lcg_iter(s: u128, n: nat) -> u128
    decreases n,
{
    if n == 0 {
        s
    } else {
        lcg_iter(lcg_next(s), (n - 1) as nat)
    }
}

/// 2^64.
pub open spec fn pow2_64() -> int {
    0x1_0000_0000_0000_0000int
}

/// The wrapping 128-bit product of `x` and `y`.
pub open spec fn mul_mod128(x: u128, y: u128) -> u128 {
    ((x * y) % pow2_128()) as u128
}

/// The upper half of the state word, which every extraction reads: the
/// word shifted right by half its width, 64 bits.  The low bits of a
/// linear congruential state are the weakest, so no value consults them.
pub open spec fn top_word(s: u128) -> u128 {
    s >> 64
}

/// Reinterpret the nonnegative `x` as a two's-complement value modulo
/// `range`: the representative of `x` in `[-range/2, range/2)`.
pub open spec fn to_signed(x: int, range: int) -> int {
    if x % range >= range / 2 {
        x % range - range
    } else {
        x % range
    }
}

/// The machine-width unsigned value extracted from state `s`: the upper
/// half remixed by a wrapping multiplication with `PRIME_A`, truncated to
/// the machine word.
pub open spec fn out_usize(s: u128) -> usize {
    ((mul_mod128(top_word(s), PRIME_A) as int) % (usize::MAX as int + 1)) as usize
}

/// The boolean extracted from state `s`: the parity of the upper half.
pub open spec fn out_bool(s: u128) -> bool {
    top_word(s) % 2 == 0
}

/// The 8-bit value extracted from state `s`: the upper half truncated.
pub open spec fn out_u8(s: u128) -> u8 {
    (top_word(s) % 0x100) as u8
}

/// The 16-bit value extracted from state `s`: the upper half truncated.
pub open spec fn out_u16(s: u128) -> u16 {
    (top_word(s) % 0x1_0000) as u16
}

/// The 32-bit value extracted from state `s`: the upper half truncated.
pub open spec fn out_u32(s: u128) -> u32 {
    (top_word(s) % 0x1_0000_0000) as u32
}

/// The 64-bit value extracted from state `s`: the upper half remixed by a
/// wrapping multiplication with `PRIME_A`, truncated to 64 bits.
pub open spec fn out_u64(s: u128) -> u64 {
    ((mul_mod128(top_word(s), PRIME_A) as int) % pow2_64()) as u64
}

/// The 128-bit value extracted from state `s`: the upper half remixed by
/// wrapping multiplications with both `PRIME_A` and `PRIME_B`.
pub open spec fn out_u128(s: u128) -> u128 {
    mul_mod128(mul_mod128(top_word(s), PRIME_A), PRIME_B)
}

/// The signed 8-bit value extracted from state `s`: `out_u8` reinterpreted
/// in two's complement.
pub open spec fn out_i8(s: u128) -> i8 {
    to_signed(top_word(s) as int, 0x100) as i8
}

/// The signed 16-bit value extracted from state `s`.
pub open spec fn out_i16(s: u128) -> i16 {
    to_signed(top_word(s) as int, 0x1_0000) as i16
}

/// The signed 32-bit value extracted from state `s`.
pub open spec fn out_i32(s: u128) -> i32 {
    to_signed(top_word(s) as int, 0x1_0000_0000) as i32
}

/// The signed 64-bit value extracted from state `s`: the remixed word of
/// `out_u64` reinterpreted in two's complement.
pub open spec fn out_i64(s: u128) -> i64 {
    to_signed(mul_mod128(top_word(s), PRIME_A) as int, pow2_64()) as i64
}

/// The signed 128-bit value extracted from state `s`: the remixed word of
/// `out_u128` reinterpreted in two's complement.
pub open spec fn out_i128(s: u128) -> i128 {
    to_signed(out_u128(s) as int, pow2_128()) as i128
}

/// The value a range draw over `[min, max]` yields from pre-draw state `s`:
/// one step, a machine-width extraction, then a plain modulo reduction onto
/// the span.  The reduction is slightly biased towards the low end of the
/// interval whenever the span does not divide the machine-word range; that
/// bias is a documented property of the design.
pub open spec fn range_value(s: u128, min: usize, max: usize) -> usize
    recommends
        min <= max,
{
    (min + (out_usize(lcg_next(s)) as int) % (max - min + 1)) as usize
}

/// The sequence `v` with the elements at positions `i` and `j` exchanged.
pub open spec fn seq_swap<T>(v: Seq<T>, i: int, j: int) -> Seq<T>
    recommends
        0 <= i < v.len(),
        0 <= j < v.len(),
{
    v.update(i, v[j]).update(j, v[i])
}

/// The sequence and state left by `k` shuffle rounds starting from
/// sequence `v` and state `s`.  Each round draws two independent indices
/// over the whole index range — two range draws, so two state steps — and
/// exchanges the elements there, the exchange of a position with itself
/// included.  This is not the Fisher–Yates scheme, and the permutations it
/// yields are not uniformly distributed; the scheme is kept exactly as it
/// is because changing it would change the output for a given state.
pub open spec fn shuffle_from<T>(v: Seq<T>, s: u128, k: nat) -> (Seq<T>, u128)
    decreases k,
{
    if k == 0 {
        (v, s)
    } else {
        let last = (v.len() - 1) as usize;
        let i = range_value(s, 0, last);
        let s1 = lcg_next(s);
        let j = range_value(s1, 0, last);
        let s2 = lcg_next(s1);
        shuffle_from(seq_swap(v, i as int, j as int), s2, (k - 1) as nat)
    }
}

/// The pseudo-random generator: one mutable 128-bit state word, advanced
/// exactly once by every value-producing call.
pub struct Rand {
    seed: u128,
}

impl View for Rand {
    type V = u128;

    /// A generator is its state word: equal views mean indistinguishable
    /// behaviour from that point on.
    closed spec fn view(&self) -> u128 {
        self.seed
    }
}

/// The wrapping product of `PRIME_A` and `s`, then the wrapping sum with
/// `PRIME_B`, equals the single modular reduction of `lcg_next`.
proof fn lemma_lcg_step_wraps(s: u128)
    ensures
        vstd::wrapping::u128_specs::wrapping_add(
            vstd::wrapping::u128_specs::wrapping_mul(PRIME_A, s),
            PRIME_B,
        ) == lcg_next(s),
{
    let r = pow2_128();
    let p = (PRIME_A * s) % r;
    vstd::arithmetic::div_mod::lemma_add_mod_noop(PRIME_A * s, PRIME_B as int, r);
    vstd::arithmetic::div_mod::lemma_small_mod(PRIME_B as nat, r as nat);
    if p + PRIME_B > u128::MAX {
        vstd::arithmetic::div_mod::lemma_mod_sub_multiples_vanish(p + PRIME_B, r);
        vstd::arithmetic::div_mod::lemma_small_mod((p + PRIME_B - r) as nat, r as nat);
    } else {
        vstd::arithmetic::div_mod::lemma_small_mod((p + PRIME_B) as nat, r as nat);
    }
}

/// The wrapping multiplication of two 128-bit words is their product
/// reduced modulo 2^128.
proof fn lemma_wrapping_mul_u128(x: u128, y: u128)
    ensures
        vstd::wrapping::u128_specs::wrapping_mul(x, y) == mul_mod128(x, y),
{
}

/// Relies on `std::time::SystemTime::now` and its `duration_since`: the
/// count of nanoseconds between the Unix epoch and the present moment.
/// Construction fails fast here — by a panic inside this call — in the one
/// case the design treats as fatal: the clock reporting a moment before
/// the epoch.
#[verifier::external_body]
fn clock_nanos() -> (r: u128) {
    std::time::SystemTime::now().duration_since(std::time::UNIX_EPOCH).unwrap().as_nanos()
}

/// Relies on `std::collections::hash_map::RandomState`: its hashers are
/// keyed with a random per-process value, so the finished word of a fresh
/// hasher differs between processes and between construction moments.
/// Nothing is promised about the value: it is a cheap source of per-run
/// variability, not rigorous entropy.
#[verifier::external_body]
fn process_entropy() -> (r: u64) {
    std::collections::hash_map::RandomState::new().build_hasher().finish()
}

/// Relies on `<[T]>::swap`: it exchanges the elements at the two indices
/// and moves nothing else.
#[verifier::external_body]
fn vec_swap<T>(vector: &mut Vec<T>, i: usize, j: usize)
    requires
        i < old(vector)@.len(),
        j < old(vector)@.len(),
    ensures
        final(vector)@ == old(vector)@.update(i as int, old(vector)@[j as int]).update(
            j as int,
            old(vector)@[i as int],
        ),
{
    vector.swap(i, j);
}

/// The state word that construction derives from a per-process word `p`
/// and a clock reading `t`: their wrapping 128-bit product.
fn seed_from(p: u64, t: u128) -> (r: u128)
    ensures
        r == mul_mod128(p as u128, t),
{
    proof {
        lemma_wrapping_mul_u128(p as u128, t);
    }
    (p as u128).wrapping_mul(t)
}

impl Rand {
    /// Create a generator seeded from ambient entropy: the wall-clock time
    /// in nanoseconds multiplied, wrapping, by a per-process random word,
    /// with the combination done by [`seed_from`].  The seeding is meant to
    /// be cheaply different across runs and across construction moments,
    /// not statistically rigorous; the drawn values themselves are ambient,
    /// so nothing further can be stated of the state produced, and every
    /// later draw is a pure function of it.
    pub fn new() -> (r: Rand) {
        let t: u128 = clock_nanos();
        let p: u64 = process_entropy();
        Rand { seed: seed_from(p, t) }
    }

    /// Build a generator holding exactly the given state word, for callers
    /// that want a reproducible sequence or a copy of another generator's
    /// state.
    pub fn from_seed(seed: u128) -> (r: Rand)
        ensures
            r@ == seed,
    {
        Rand { seed }
    }

    /// Advance the state by one linear congruential step.
    fn step(&mut self)
        ensures
            final(self)@ == lcg_next(old(self)@),
    {
        proof {
            lemma_lcg_step_wraps(self.seed);
        }
        self.seed = PRIME_A.wrapping_mul(self.seed).wrapping_add(PRIME_B);
    }

    /// The current state word, for callers that want to copy it into a
    /// second, thereafter independent, generator.
    pub fn state(&self) -> (r: u128)
        ensures
            r == self@,
    {
        self.seed
    }

    /// Draw a machine-width unsigned value, advancing the state once.
    #[inline]
    pub fn rand(&mut self) -> (r: usize)
        ensures
            final(self)@ == lcg_next(old(self)@),
            r == out_usize(final(self)@),
    {
        self.step();
        let hi: u128 = self.seed >> 64;
        let m: u128 = hi.wrapping_mul(PRIME_A);
        proof {
            lemma_wrapping_mul_u128(hi, PRIME_A);
        }
        let w: u128 = (usize::MAX as u128) + 1;
        (m % w) as usize
    }

    /// Draw a boolean, advancing the state once: the parity of the upper
    /// half of the stepped state, no other bits consulted.
    #[inline]
    pub fn rand_bool(&mut self) -> (r: bool)
        ensures
            final(self)@ == lcg_next(old(self)@),
            r == out_bool(final(self)@),
    {
        self.step();
        let hi: u128 = self.seed >> 64;
        hi % 2 == 0
    }

    /// Draw a machine-width unsigned value, advancing the state once.
    #[inline]
    pub fn rand_usize(&mut self) -> (r: usize)
        ensures
            final(self)@ == lcg_next(old(self)@),
            r == out_usize(final(self)@),
    {
        self.rand()
    }

    /// Draw an 8-bit unsigned value, advancing the state once.
    #[inline]
    pub fn rand_u8(&mut self) -> (r: u8)
        ensures
            final(self)@ == lcg_next(old(self)@),
            r == out_u8(final(self)@),
    {
        self.step();
        let hi: u128 = self.seed >> 64;
        (hi % 0x100) as u8
    }

    /// Draw a 16-bit unsigned value, advancing the state once.
    #[inline]
    pub fn rand_u16(&mut self) -> (r: u16)
        ensures
            final(self)@ == lcg_next(old(self)@),
            r == out_u16(final(self)@),
    {
        self.step();
        let hi: u128 = self.seed >> 64;
        (hi % 0x1_0000) as u16
    }

    /// Draw a 32-bit unsigned value, advancing the state once.
    #[inline]
    pub fn rand_u32(&mut self) -> (r: u32)
        ensures
            final(self)@ == lcg_next(old(self)@),
            r == out_u32(final(self)@),
    {
        self.step();
        let hi: u128 = self.seed >> 64;
        (hi % 0x1_0000_0000) as u32
    }

    /// Draw a 64-bit unsigned value, advancing the state once.
    #[inline]
    pub fn rand_u64(&mut self) -> (r: u64)
        ensures
            final(self)@ == lcg_next(old(self)@),
            r == out_u64(final(self)@),
    {
        self.step();
        let hi: u128 = self.seed >> 64;
        let m: u128 = hi.wrapping_mul(PRIME_A);
        proof {
            lemma_wrapping_mul_u128(hi, PRIME_A);
        }
        (m % 0x1_0000_0000_0000_0000) as u64
    }

    /// Draw a 128-bit unsigned value, advancing the state once.
    #[inline]
    pub fn rand_u128(&mut self) -> (r: u128)
        ensures
            final(self)@ == lcg_next(old(self)@),
            r == out_u128(final(self)@),
    {
        self.step();
        let hi: u128 = self.seed >> 64;
        let m: u128 = hi.wrapping_mul(PRIME_A);
        let m2: u128 = m.wrapping_mul(PRIME_B);
        proof {
            lemma_wrapping_mul_u128(hi, PRIME_A);
            lemma_wrapping_mul_u128(m, PRIME_B);
        }
        m2
    }

    /// Draw a signed 8-bit value, advancing the state once: the 8-bit
    /// extraction reinterpreted in two's complement.
    #[inline]
    pub fn rand_i8(&mut self) -> (r: i8)
        ensures
            final(self)@ == lcg_next(old(self)@),
            r == out_i8(final(self)@),
    {
        self.step();
        let hi: u128 = self.seed >> 64;
        let b: u128 = hi % 0x100;
        if b >= 0x80 {
            (b as i16 - 0x100) as i8
        } else {
            b as i8
        }
    }

    /// Draw a signed 16-bit value, advancing the state once.
    #[inline]
    pub fn rand_i16(&mut self) -> (r: i16)
        ensures
            final(self)@ == lcg_next(old(self)@),
            r == out_i16(final(self)@),
    {
        self.step();
        let hi: u128 = self.seed >> 64;
        let b: u128 = hi % 0x1_0000;
        if b >= 0x8000 {
            (b as i32 - 0x1_0000) as i16
        } else {
            b as i16
        }
    }

    /// Draw a signed 32-bit value, advancing the state once.
    #[inline]
    pub fn rand_i32(&mut self) -> (r: i32)
        ensures
            final(self)@ == lcg_next(old(self)@),
            r == out_i32(final(self)@),
    {
        self.step();
        let hi: u128 = self.seed >> 64;
        let b: u128 = hi % 0x1_0000_0000;
        if b >= 0x8000_0000 {
            (b as i64 - 0x1_0000_0000) as i32
        } else {
            b as i32
        }
    }

    /// Draw a signed 64-bit value, advancing the state once.
    #[inline]
    pub fn rand_i64(&mut self) -> (r: i64)
        ensures
            final(self)@ == lcg_next(old(self)@),
            r == out_i64(final(self)@),
    {
        self.step();
        let hi: u128 = self.seed >> 64;
        let m: u128 = hi.wrapping_mul(PRIME_A);
        proof {
            lemma_wrapping_mul_u128(hi, PRIME_A);
        }
        let b: u128 = m % 0x1_0000_0000_0000_0000;
        if b >= 0x8000_0000_0000_0000 {
            (b as i128 - 0x1_0000_0000_0000_0000) as i64
        } else {
            b as i64
        }
    }

    /// Draw a signed 128-bit value, advancing the state once.
    #[inline]
    pub fn rand_i128(&mut self) -> (r: i128)
        ensures
            final(self)@ == lcg_next(old(self)@),
            r == out_i128(final(self)@),
    {
        self.step();
        let hi: u128 = self.seed >> 64;
        let m: u128 = hi.wrapping_mul(PRIME_A);
        let m2: u128 = m.wrapping_mul(PRIME_B);
        proof {
            lemma_wrapping_mul_u128(hi, PRIME_A);
            lemma_wrapping_mul_u128(m, PRIME_B);
            vstd::arithmetic::div_mod::lemma_small_mod(m2 as nat, pow2_128() as nat);
        }
        if m2 >= 0x8000_0000_0000_0000_0000_0000_0000_0000 {
            -((u128::MAX - m2) as i128) - 1
        } else {
            m2 as i128
        }
    }

    /// Draw a machine-width unsigned value in the inclusive interval
    /// `[min, max]`, advancing the state once.  The interval must be
    /// non-empty, and its span must be representable: the one interval it
    /// cannot cover is the whole machine-word range.
    #[inline]
    pub fn rand_range(&mut self, min: usize, max: usize) -> (r: usize)
        requires
            min <= max,
            !(min == 0 && max == usize::MAX),
        ensures
            final(self)@ == lcg_next(old(self)@),
            r == range_value(old(self)@, min, max),
            min <= r <= max,
    {
        let v: usize = self.rand();
        let span: usize = max - min + 1;
        v % span + min
    }

    /// Draw a value in the inclusive interval `[min, max]`, reporting an
    /// empty or unrepresentable interval as `None` with the state left
    /// untouched, instead of demanding a valid one of the caller.
    #[inline]
    pub fn checked_rand_range(&mut self, min: usize, max: usize) -> (r: Option<usize>)
        ensures
            min <= max && !(min == 0 && max == usize::MAX) ==> {
                &&& final(self)@ == lcg_next(old(self)@)
                &&& r == Some(range_value(old(self)@, min, max))
            },
            min > max || (min == 0 && max == usize::MAX) ==> {
                &&& r is None
                &&& final(self)@ == old(self)@
            },
            r matches Some(v) ==> min <= v <= max,
    {
        if min <= max && !(min == 0 && max == usize::MAX) {
            Some(self.rand_range(min, max))
        } else {
            None
        }
    }

    /// Borrow one element of a non-empty vector, chosen by a single range
    /// draw over the valid indices; the state advances once.
    #[inline]
    pub fn rand_element<'a, T>(&'a mut self, vector: &'a Vec<T>) -> (r: &'a T)
        requires
            vector@.len() > 0,
        ensures
            final(self)@ == lcg_next(old(self)@),
            *r == vector@[range_value(old(self)@, 0, (vector@.len() - 1) as usize) as int],
            vector@.contains(*r),
    {
        let idx: usize = self.rand_range(0, vector.len() - 1);
        &vector[idx]
    }

    /// Borrow one element chosen by a single range draw, reporting an empty
    /// vector as `None` with the state left untouched, instead of demanding
    /// a non-empty one of the caller.
    #[inline]
    pub fn checked_rand_element<'a, T>(&'a mut self, vector: &'a Vec<T>) -> (r: Option<&'a T>)
        ensures
            vector@.len() > 0 ==> {
                &&& final(self)@ == lcg_next(old(self)@)
                &&& r matches Some(e) && *e == vector@[range_value(
                    old(self)@,
                    0,
                    (vector@.len() - 1) as usize,
                ) as int]
            },
            vector@.len() == 0 ==> r is None && final(self)@ == old(self)@,
            r matches Some(e) ==> vector@.contains(*e),
    {
        if vector.len() > 0 {
            Some(self.rand_element(vector))
        } else {
            None
        }
    }

    /// Permute a vector in place: one shuffle round per element, each round
    /// exchanging the elements at two independently drawn indices.  The
    /// result holds exactly the elements of the input, with the same
    /// multiplicities, and the state advances by exactly two steps per
    /// round.  An empty vector performs no round and no step.
    #[inline]
    pub fn shuffle_vec<T>(&mut self, vector: &mut Vec<T>)
        ensures
            final(vector)@ == shuffle_from(old(vector)@, old(self)@, old(vector)@.len()).0,
            final(self)@ == shuffle_from(old(vector)@, old(self)@, old(vector)@.len()).1,
            final(vector)@.len() == old(vector)@.len(),
            final(vector)@.to_multiset() == old(vector)@.to_multiset(),
            final(self)@ == lcg_iter(old(self)@, 2 * old(vector)@.len()),
    {
        let ghost orig_v: Seq<T> = vector@;
        let ghost orig_s: u128 = self@;
        let vector_len: usize = vector.len();
        let mut k: usize = 0;
        while k < vector_len
            invariant
                k <= vector_len,
                vector@.len() == vector_len,
                orig_v.len() == vector_len,
                shuffle_from(vector@, self@, (vector_len - k) as nat) == shuffle_from(
                    orig_v,
                    orig_s,
                    vector_len as nat,
                ),
            decreases vector_len - k,
        {
            let ghost v0: Seq<T> = vector@;
            let ghost s0: u128 = self@;
            let i: usize = self.rand_range(0, vector_len - 1);
            let j: usize = self.rand_range(0, vector_len - 1);
            vec_swap(vector, i, j);
            proof {
                assert(vector@ == seq_swap(v0, i as int, j as int));
                assert(shuffle_from(v0, s0, (vector_len - k) as nat) == shuffle_from(
                    seq_swap(v0, i as int, j as int),
                    self@,
                    (vector_len - k - 1) as nat,
                ));
            }
            k = k + 1;
        }
        proof {
            laws::lemma_shuffle_from_permutes(orig_v, orig_s, vector_len as nat);
            laws::lemma_shuffle_from_steps(orig_v, orig_s, vector_len as nat);
        }
    }
}

impl Default for Rand {
    /// Equivalent to [`Rand::new`]: a generator seeded from ambient
    /// entropy.
    fn default() -> Self {
        Self::new()
    }
}

} // verus!
