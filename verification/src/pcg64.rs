//! The PCG64 generator as NumPy's `default_rng(seed)` builds it: seeded from
//! `SeedSequence` words and stepped by `rand_pcg`.
use vstd::prelude::*;

use rand_pcg::rand_core::Rng;
use rand_pcg::Pcg64 as CorePcg64;

use crate::bit_generator::{
    mixed_pool, seed_words, state_words, value_words, SeedSequence, SeedState,
};

verus! {

/// The PCG multiplier for 128-bit state.
pub const PCG_MULTIPLIER: u128 = 0x2360_ED05_1FC6_5DA4_4385_DF64_9FCC_F645;

// ---------------------------------------------------------------------------
// Mathematical model of PCG XSL RR 128/64
// ---------------------------------------------------------------------------

/// The odd LCG increment selected by a stream parameter: `(stream << 1) | 1`.
pub open spec fn pcg_increment(stream: u128) -> u128 {
    ((stream as nat * 2) % 0x1_0000_0000_0000_0000_0000_0000_0000_0000nat + 1) as u128
}

/// One LCG step: `state * PCG_MULTIPLIER + increment` modulo 2^128.
pub open spec fn pcg_step(state: u128, increment: u128) -> u128 {
    ((state as nat * PCG_MULTIPLIER as nat + increment as nat)
        % 0x1_0000_0000_0000_0000_0000_0000_0000_0000nat) as u128
}

/// `x` rotated right by `r` bits, for `r < 64`.
pub open spec fn rotate_right64(x: u64, r: u32) -> u64 {
    if r == 0 {
        x
    } else {
        (x >> r) | (x << ((64 - r) as u32))
    }
}

/// The XSL RR output of a state: the xor of its two halves, rotated right by
/// its top six bits.
pub open spec fn pcg_output(state: u128) -> u64 {
    rotate_right64(
        ((state / 0x1_0000_0000_0000_0000) as u64) ^ ((state % 0x1_0000_0000_0000_0000) as u64),
        (state / 0x400_0000_0000_0000_0000_0000_0000_0000) as u32,
    )
}

/// The (state, increment) pair of a generator built from `initstate` and
/// stream `initseq`: the state is moved away from `initstate` by adding the
/// increment and taking one step.
pub open spec fn pcg_seeded(initstate: u128, initseq: u128) -> (u128, u128) {
    let increment = pcg_increment(initseq);
    (
        pcg_step(
            ((initstate as nat + increment as nat) % 0x1_0000_0000_0000_0000_0000_0000_0000_0000nat) as u128,
            increment,
        ),
        increment,
    )
}

/// The 128-bit value whose high half is `hi` and low half is `lo`.
pub open spec fn join_words(hi: u64, lo: u64) -> u128 {
    (hi * 0x1_0000_0000_0000_0000 + lo) as u128
}

/// The generator NumPy's PCG64 builds from four seed words: words 0 and 1
/// make the initial state, words 2 and 3 the stream.
pub open spec fn pcg_from_words(words: Seq<u64>) -> (u128, u128) {
    pcg_seeded(join_words(words[0], words[1]), join_words(words[2], words[3]))
}

/// The four seed words NumPy derives from a single integer seed.
pub open spec fn integer_seed_words(seed: u64) -> Seq<u64> {
    state_words(mixed_pool(value_words(seed)))
}

// ---------------------------------------------------------------------------
// Calls into rand_pcg
// ---------------------------------------------------------------------------

/// Builds `rand_pcg::Pcg64::new(initstate, initseq)` and reads back its state
/// and stream with `Lcg128Xsl64::state` and `Lcg128Xsl64::stream`.
/// Claimed, as `rand_pcg`'s source shows: the increment is
/// `(initseq << 1) | 1`, the state is `initstate + increment` advanced by one
/// LCG step, and the stream read back is `increment >> 1`, that is `initseq`
/// without its highest bit.
#[verifier::external_body]
fn core_new(initstate: u128, initseq: u128) -> (r: (u128, u128))
    ensures
        r.0 == pcg_seeded(initstate, initseq).0,
        r.1 == initseq % 0x8000_0000_0000_0000_0000_0000_0000_0000,
{
    let core = CorePcg64::new(initstate, initseq);
    (core.state(), core.stream())
}

/// Rebuilds a generator with `rand_pcg::Pcg64::from_state(state, stream)`,
/// draws one value with `Rng::next_u64` and reads the new state back with
/// `Lcg128Xsl64::state`.
/// Claimed, as `rand_pcg`'s source shows: `from_state` keeps `state` and sets
/// the increment to `(stream << 1) | 1`; `next_u64` takes one LCG step and
/// returns the XSL RR output of the new state.
#[verifier::external_body]
fn core_next_u64(state: u128, stream: u128) -> (r: (u64, u128))
    ensures
        r.1 == pcg_step(state, pcg_increment(stream)),
        r.0 == pcg_output(r.1),
{
    let mut core = CorePcg64::from_state(state, stream);
    let value = core.next_u64();
    (value, core.state())
}

// ---------------------------------------------------------------------------
// The generator
// ---------------------------------------------------------------------------

/// A PCG64 generator seeded the way `numpy.random.default_rng` seeds it.
#[derive(Debug, PartialEq, Eq, Structural)]
pub struct Pcg64 {
    state: u128,
    stream: u128,
}

impl Pcg64 {
    /// The stored stream never has its highest bit set, so the view (state
    /// and increment) determines the generator.
    #[verifier::type_invariant]
    closed spec fn stream_fits(self) -> bool {
        self.stream < 0x8000_0000_0000_0000_0000_0000_0000_0000
    }
}

impl Clone for Pcg64 {
    /// A generator in the same state, which continues with the same draws.
    fn clone(&self) -> (r: Self)
        ensures
            r == *self,
    {
        proof {
            use_type_invariant(self);
        }
        Pcg64 { state: self.state, stream: self.stream }
    }
}

impl View for Pcg64 {
    /// The generator's LCG state and its (odd) increment.
    type V = (u128, u128);

    closed spec fn view(&self) -> (u128, u128) {
        (self.state, pcg_increment(self.stream))
    }
}

proof fn lemma_increment_drops_top_bit(stream: u128)
    ensures
        pcg_increment((stream % 0x8000_0000_0000_0000_0000_0000_0000_0000) as u128)
            == pcg_increment(stream),
{
    let m: int = 0x8000_0000_0000_0000_0000_0000_0000_0000;
    let s = stream as int;
    let q = s / m;
    let r = s % m;
    vstd::arithmetic::div_mod::lemma_fundamental_div_mod(s, m);
    assert(s * 2 == q * (2 * m) + 2 * r) by (nonlinear_arith)
        requires
            s == m * q + r,
    ;
    vstd::arithmetic::div_mod::lemma_fundamental_div_mod_converse(s * 2, 2 * m, q, 2 * r);
    vstd::arithmetic::div_mod::lemma_small_mod((2 * r) as nat, (2 * m) as nat);
}

proof fn lemma_join_words(hi: u64, lo: u64)
    ensures
        ((hi as u128) << 64u128) | (lo as u128) == join_words(hi, lo),
{
    assert(((hi as u128) << 64u128) | (lo as u128) == hi * 0x1_0000_0000_0000_0000 + lo)
        by (bit_vector);
}

impl Pcg64 {
    /// Constructs a generator from the same integer-seed path as
    /// `numpy.random.default_rng(seed)`.
    pub fn from_seed(seed: u64) -> (r: Self)
        ensures
            r@ == pcg_from_words(integer_seed_words(seed)),
    {
        let seed_state = Self::seed_state(seed);
        Self::from_seed_state(seed_state)
    }

    /// Constructs a generator from the same integer-sequence seed path as
    /// `numpy.random.default_rng(seed=[...])`.
    pub fn from_seed_slice(seed: &[u64]) -> (r: Self)
        ensures
            r@ == pcg_from_words(seed_words(seed@)),
    {
        let seed_state = Self::seed_state_from_slice(seed);
        Self::from_seed_state(seed_state)
    }

    /// Builds the generator from a four-word seed state.
    fn from_seed_state(seed_state: SeedState) -> (r: Self)
        ensures
            r@ == pcg_from_words(seed_state.words@),
    {
        let w = seed_state.words;
        proof {
            lemma_join_words(w[0], w[1]);
            lemma_join_words(w[2], w[3]);
        }
        let initstate = ((w[0] as u128) << 64) | (w[1] as u128);
        let initseq = ((w[2] as u128) << 64) | (w[3] as u128);
        let (state, stream) = core_new(initstate, initseq);
        proof {
            lemma_increment_drops_top_bit(initseq);
        }
        Pcg64 { state, stream }
    }

    /// Returns the four generated `u64` words NumPy uses to initialize PCG64
    /// from an integer seed.
    pub fn seed_state(seed: u64) -> (r: SeedState)
        ensures
            r.words@ == integer_seed_words(seed),
    {
        proof {
            crate::laws::law_one_value_entropy(seed);
        }
        SeedSequence::from_u64(seed).generate_state_u64_4()
    }

    /// Returns the four generated `u64` words NumPy uses to initialize PCG64
    /// from an integer-sequence seed.
    pub fn seed_state_from_slice(seed: &[u64]) -> (r: SeedState)
        ensures
            r.words@ == seed_words(seed@),
    {
        SeedSequence::from_u64_slice(seed).generate_state_u64_4()
    }

    /// Returns the next raw 64-bit value: the generator takes one LCG step and
    /// the value is the XSL RR output of the new state.
    pub fn next_u64(&mut self) -> (r: u64)
        ensures
            final(self)@ == (pcg_step(old(self)@.0, old(self)@.1), old(self)@.1),
            r == pcg_output(final(self)@.0),
    {
        proof {
            use_type_invariant(&*self);
        }
        let (value, state) = core_next_u64(self.state, self.stream);
        self.state = state;
        value
    }
}

} // verus!
