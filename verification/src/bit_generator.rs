//! NumPy's `SeedSequence`: turning integer seed entropy into the four
//! 64-bit words that initialise a PCG64 generator.
use vstd::prelude::*;

verus! {

/// Number of 32-bit words in the entropy pool.
pub const DEFAULT_POOL_SIZE: usize = 4;

pub const INIT_A: u32 = 0x43b0d7e5;

pub const MULT_A: u32 = 0x931e8875;

pub const INIT_B: u32 = 0x8b51f9dd;

pub const MULT_B: u32 = 0x58f38ded;

pub const MIX_MULT_L: u32 = 0xca01f9dd;

pub const MIX_MULT_R: u32 = 0x4973f715;

pub const XSHIFT: u32 = 16;

// ---------------------------------------------------------------------------
// Mathematical model
// ---------------------------------------------------------------------------

/// `x * y` modulo 2^32.
pub open spec fn mul32(x: u32, y: u32) -> u32 {
    ((x as nat * y as nat) % 0x1_0000_0000) as u32
}

/// `x - y` modulo 2^32.
pub open spec fn sub32(x: u32, y: u32) -> u32 {
    if x >= y {
        (x - y) as u32
    } else {
        (x - y + 0x1_0000_0000) as u32
    }
}

/// One round of the multiplicative hash: xor in the constant `hc`, advance the
/// constant by `mult`, multiply by the advanced constant and fold the high
/// half into the low half.
pub open spec fn hash_round(value: u32, hc: u32, mult: u32) -> u32 {
    let m = mul32(value ^ hc, mul32(hc, mult));
    m ^ (m >> 16u32)
}

/// The hash constant in effect before the `k`-th call of the entropy hash:
/// `INIT_A * MULT_A^k` modulo 2^32.
pub open spec fn hash_const_a(k: nat) -> u32
    decreases k,
{
    if k == 0 {
        INIT_A
    } else {
        mul32(hash_const_a((k - 1) as nat), MULT_A)
    }
}

/// The hash constant in effect before the `k`-th output word is generated:
/// `INIT_B * MULT_B^k` modulo 2^32.
pub open spec fn hash_const_b(k: nat) -> u32
    decreases k,
{
    if k == 0 {
        INIT_B
    } else {
        mul32(hash_const_b((k - 1) as nat), MULT_B)
    }
}

/// The `k`-th call (counting from zero) of the entropy hash, applied to `value`.
pub open spec fn hashmix_at(value: u32, k: nat) -> u32 {
    hash_round(value, hash_const_a(k), MULT_A)
}

/// The mixing function that combines a pool word `x` with a hashed word `y`.
pub open spec fn mix_spec(x: u32, y: u32) -> u32 {
    let r = sub32(mul32(MIX_MULT_L, x), mul32(MIX_MULT_R, y));
    r ^ (r >> 16u32)
}

/// The 32-bit words that one 64-bit seed value contributes, least significant
/// first: zero contributes one zero word, a value below 2^32 one word, and a
/// larger value its low and its high half.
pub open spec fn value_words(v: u64) -> Seq<u32> {
    if v == 0 {
        seq![0u32]
    } else if v < 0x1_0000_0000 {
        seq![v as u32]
    } else {
        seq![(v % 0x1_0000_0000) as u32, (v / 0x1_0000_0000) as u32]
    }
}

/// The words of all seed values, in order.
pub open spec fn flat_words(entropy: Seq<u64>) -> Seq<u32>
    decreases entropy.len(),
{
    if entropy.len() == 0 {
        Seq::empty()
    } else {
        flat_words(entropy.drop_last()) + value_words(entropy.last())
    }
}

/// The entropy array built from a seed: the words of all values, or a single
/// zero word for an empty seed.
pub open spec fn entropy_words(entropy: Seq<u64>) -> Seq<u32> {
    if entropy.len() == 0 {
        seq![0u32]
    } else {
        flat_words(entropy)
    }
}

/// The pool after its first filling: word `i` is the `i`-th hash of entropy
/// word `i`, or of zero where the entropy is shorter than the pool.
pub open spec fn initial_pool(entropy: Seq<u32>) -> Seq<u32> {
    Seq::new(
        4,
        |i: int|
            hashmix_at(
                if i < entropy.len() {
                    entropy[i]
                } else {
                    0u32
                },
                i as nat,
            ),
    )
}

/// Source index of the `t`-th cross-mixing step (each source feeds the three
/// other words, sources in increasing order).
pub open spec fn cross_src(t: int) -> int {
    t / 3
}

/// Destination index of the `t`-th cross-mixing step.
pub open spec fn cross_dst(t: int) -> int {
    let s = t / 3;
    let j = t % 3;
    if j < s {
        j
    } else {
        j + 1
    }
}

/// The pool after the first `t` of the twelve cross-mixing steps.
pub open spec fn cross_mixed(pool: Seq<u32>, t: nat) -> Seq<u32>
    decreases t,
{
    if t == 0 {
        pool
    } else {
        let p = cross_mixed(pool, (t - 1) as nat);
        let s = cross_src(t - 1);
        let d = cross_dst(t - 1);
        p.update(d, mix_spec(p[d], hashmix_at(p[s], (4 + t - 1) as nat)))
    }
}

/// The pool after the first `n` entropy words beyond the pool size have been
/// mixed into every pool word.
pub open spec fn absorbed(pool: Seq<u32>, entropy: Seq<u32>, n: nat) -> Seq<u32>
    decreases n,
{
    if n == 0 {
        pool
    } else {
        let p = absorbed(pool, entropy, (n - 1) as nat);
        let w = entropy[4 + n - 1];
        Seq::new(4, |d: int| mix_spec(p[d], hashmix_at(w, (16 + 4 * (n - 1) + d) as nat)))
    }
}

/// Number of entropy words beyond the pool size.
pub open spec fn extra_words(entropy: Seq<u32>) -> nat {
    if entropy.len() > 4 {
        (entropy.len() - 4) as nat
    } else {
        0
    }
}

/// The entropy pool that NumPy's `SeedSequence` derives from an entropy array.
pub open spec fn mixed_pool(entropy: Seq<u32>) -> Seq<u32> {
    absorbed(cross_mixed(initial_pool(entropy), 12), entropy, extra_words(entropy))
}

/// The `i`-th 32-bit output word generated from a pool.
pub open spec fn state_word32(pool: Seq<u32>, i: nat) -> u32 {
    hash_round(pool[(i % 4) as int], hash_const_b(i), MULT_B)
}

/// The four 64-bit seed words generated from a pool: word `k` holds output
/// word `2k` in its low half and output word `2k + 1` in its high half.
pub open spec fn state_words(pool: Seq<u32>) -> Seq<u64> {
    Seq::new(
        4,
        |k: int|
            (state_word32(pool, (2 * k) as nat) + state_word32(pool, (2 * k + 1) as nat)
                * 0x1_0000_0000) as u64,
    )
}

/// The four seed words NumPy derives from an integer-sequence seed.
pub open spec fn seed_words(entropy: Seq<u64>) -> Seq<u64> {
    state_words(mixed_pool(entropy_words(entropy)))
}

// ---------------------------------------------------------------------------
// Types
// ---------------------------------------------------------------------------

/// The four generated 64-bit words used to initialise PCG64.
#[derive(Clone, Copy, Debug, PartialEq, Eq)]
pub struct SeedState {
    pub words: [u64; 4],
}

/// A mixed entropy pool.
pub(crate) struct SeedSequence {
    pub(crate) pool: [u32; 4],
}

// ---------------------------------------------------------------------------
// Primitive hashing
// ---------------------------------------------------------------------------

/// Hashes `value` with the current constant and advances the constant.
fn hashmix(value: u32, hash_const: &mut u32) -> (r: u32)
    ensures
        r == hash_round(value, *old(hash_const), MULT_A),
        *final(hash_const) == mul32(*old(hash_const), MULT_A),
{
    let mut value = value;
    value ^= *hash_const;
    *hash_const = hash_const.wrapping_mul(MULT_A);
    value = value.wrapping_mul(*hash_const);
    value ^= value >> XSHIFT;
    value
}

/// Combines a pool word with a hashed word.
fn mix(x: u32, y: u32) -> (r: u32)
    ensures
        r == mix_spec(x, y),
{
    let mut result = MIX_MULT_L.wrapping_mul(x).wrapping_sub(MIX_MULT_R.wrapping_mul(y));
    result ^= result >> XSHIFT;
    result
}

// ---------------------------------------------------------------------------
// Entropy mixing
// ---------------------------------------------------------------------------

/// Mixes an entropy array into the pool: fill the pool with hashed entropy,
/// cross-mix every pool word into every other one, then mix each remaining
/// entropy word into every pool word.
fn mix_entropy(mixer: &mut [u32; 4], entropy_array: &[u32])
    ensures
        final(mixer)@ == mixed_pool(entropy_array@),
{
    let ghost entropy = entropy_array@;
    let ghost first = initial_pool(entropy);
    let mut hash_const = INIT_A;
    let mut idx: usize = 0;
    while idx < DEFAULT_POOL_SIZE
        invariant
            idx <= 4,
            entropy == entropy_array@,
            first == initial_pool(entropy),
            hash_const == hash_const_a(idx as nat),
            forall|i: int| 0 <= i < idx ==> mixer@[i] == first[i],
        decreases 4 - idx,
    {
        let value = if idx < entropy_array.len() {
            entropy_array[idx]
        } else {
            0
        };
        mixer[idx] = hashmix(value, &mut hash_const);
        idx += 1;
    }
    assert(mixer@ =~= first);

    let mut i_src: usize = 0;
    while i_src < DEFAULT_POOL_SIZE
        invariant
            i_src <= 4,
            entropy == entropy_array@,
            first == initial_pool(entropy),
            mixer@ == cross_mixed(first, (3 * i_src) as nat),
            hash_const == hash_const_a((4 + 3 * i_src) as nat),
        decreases 4 - i_src,
    {
        let mut i_dst: usize = 0;
        while i_dst < DEFAULT_POOL_SIZE
            invariant
                i_src < 4,
                i_dst <= 4,
                entropy == entropy_array@,
                first == initial_pool(entropy),
                mixer@ == cross_mixed(
                    first,
                    (3 * i_src + i_dst - (if i_dst > i_src { 1int } else { 0int })) as nat,
                ),
                hash_const == hash_const_a(
                    (4 + 3 * i_src + i_dst - (if i_dst > i_src { 1int } else { 0int })) as nat,
                ),
            decreases 4 - i_dst,
        {
            if i_src != i_dst {
                let ghost t: int = 3 * i_src + i_dst - (if i_dst > i_src { 1int } else { 0int });
                assert(cross_src(t) == i_src && cross_dst(t) == i_dst);
                let mixed = hashmix(mixer[i_src], &mut hash_const);
                mixer[i_dst] = mix(mixer[i_dst], mixed);
            }
            i_dst += 1;
        }
        i_src += 1;
    }

    let ghost crossed = cross_mixed(first, 12);
    let mut j: usize = DEFAULT_POOL_SIZE;
    while j < entropy_array.len()
        invariant
            4 <= j,
            j <= entropy_array.len() || j == 4,
            entropy == entropy_array@,
            crossed == cross_mixed(initial_pool(entropy), 12),
            mixer@ == absorbed(crossed, entropy, (j - 4) as nat),
            hash_const == hash_const_a((16 + 4 * (j - 4)) as nat),
        decreases entropy_array.len() - j,
    {
        let value = entropy_array[j];
        let ghost before = mixer@;
        let mut d: usize = 0;
        while d < DEFAULT_POOL_SIZE
            invariant
                4 <= j < entropy_array.len(),
                d <= 4,
                value == entropy[j as int],
                entropy == entropy_array@,
                before.len() == 4,
                mixer@.len() == 4,
                forall|e: int|
                    0 <= e < d ==> mixer@[e] == mix_spec(
                        before[e],
                        hashmix_at(value, (16 + 4 * (j - 4) + e) as nat),
                    ),
                forall|e: int| d <= e < 4 ==> mixer@[e] == before[e],
                hash_const == hash_const_a((16 + 4 * (j - 4) + d) as nat),
            decreases 4 - d,
        {
            let hashed = hashmix(value, &mut hash_const);
            mixer[d] = mix(mixer[d], hashed);
            d += 1;
        }
        assert(mixer@ =~= absorbed(crossed, entropy, (j - 3) as nat));
        j += 1;
    }
    assert(extra_words(entropy) == j - 4);
}

// ---------------------------------------------------------------------------
// Seed values to entropy words
// ---------------------------------------------------------------------------

proof fn lemma_low_high_halves(x: u64)
    ensures
        x & 0xffff_ffff == x % 0x1_0000_0000,
        x >> 32u64 == x / 0x1_0000_0000,
{
    assert(x & 0xffff_ffff == x % 0x1_0000_0000) by (bit_vector);
    assert(x >> 32u64 == x / 0x1_0000_0000) by (bit_vector);
}

proof fn lemma_flat_words_push(entropy: Seq<u64>, i: int)
    requires
        0 <= i < entropy.len(),
    ensures
        flat_words(entropy.subrange(0, i + 1)) == flat_words(entropy.subrange(0, i))
            + value_words(entropy[i]),
{
    assert(entropy.subrange(0, i + 1).drop_last() =~= entropy.subrange(0, i));
}

/// Splits every seed value into 32-bit words, least significant first; an
/// empty seed yields a single zero word.
fn u64_entropy_words(entropy: &[u64]) -> (words: Vec<u32>)
    ensures
        words@ == entropy_words(entropy@),
{
    let mut words: Vec<u32> = Vec::new();
    let mut i: usize = 0;
    while i < entropy.len()
        invariant
            i <= entropy.len(),
            words@ == flat_words(entropy@.subrange(0, i as int)),
        decreases entropy.len() - i,
    {
        let value = entropy[i];
        let ghost base = words@;
        if value == 0 {
            words.push(0);
        } else {
            let mut remaining = value;
            while remaining > 0
                invariant
                    value != 0,
                    (remaining == value && words@ == base) || (value >= 0x1_0000_0000
                        && remaining == value / 0x1_0000_0000 && words@ == base + seq![
                        (value % 0x1_0000_0000) as u32,
                    ]) || (remaining == 0 && words@ == base + value_words(value)),
                decreases remaining,
            {
                proof {
                    lemma_low_high_halves(remaining);
                }
                words.push((remaining & 0xffff_ffff) as u32);
                remaining >>= 32;
            }
        }
        proof {
            lemma_flat_words_push(entropy@, i as int);
        }
        i += 1;
    }
    assert(entropy@.subrange(0, entropy.len() as int) =~= entropy@);
    if words.len() == 0 {
        words.push(0);
    }
    words
}

// ---------------------------------------------------------------------------
// Output words
// ---------------------------------------------------------------------------

proof fn lemma_pack_halves(lo: u32, hi: u32)
    ensures
        (lo as u64) | ((hi as u64) << 32u64) == lo + hi * 0x1_0000_0000,
{
    assert((lo as u64) | ((hi as u64) << 32u64) == lo + hi * 0x1_0000_0000) by (bit_vector);
}

impl SeedSequence {
    /// Builds the pool NumPy's `SeedSequence(entropy)` holds for one integer seed.
    pub(crate) fn from_u64(entropy: u64) -> (r: Self)
        ensures
            r.pool@ == mixed_pool(entropy_words(seq![entropy])),
    {
        let mut pool = [0u32; 4];
        let seed = [entropy];
        let run_entropy = u64_entropy_words(&seed);
        assert(seed@ =~= seq![entropy]);
        mix_entropy(&mut pool, run_entropy.as_slice());
        SeedSequence { pool }
    }

    /// Builds the pool NumPy's `SeedSequence([...])` holds for an integer sequence.
    pub(crate) fn from_u64_slice(entropy: &[u64]) -> (r: Self)
        ensures
            r.pool@ == mixed_pool(entropy_words(entropy@)),
    {
        let mut pool = [0u32; 4];
        let run_entropy = u64_entropy_words(entropy);
        mix_entropy(&mut pool, run_entropy.as_slice());
        SeedSequence { pool }
    }

    /// Expands the pool into the four 64-bit words used to seed PCG64.
    pub(crate) fn generate_state_u64_4(&self) -> (r: SeedState)
        ensures
            r.words@ == state_words(self.pool@),
    {
        let mut state32 = [0u32; 8];
        let mut hash_const = INIT_B;
        let mut i: usize = 0;
        while i < 8
            invariant
                i <= 8,
                hash_const == hash_const_b(i as nat),
                forall|k: int| 0 <= k < i ==> state32@[k] == state_word32(self.pool@, k as nat),
            decreases 8 - i,
        {
            let mut data_val = self.pool[i % DEFAULT_POOL_SIZE];
            data_val ^= hash_const;
            hash_const = hash_const.wrapping_mul(MULT_B);
            data_val = data_val.wrapping_mul(hash_const);
            data_val ^= data_val >> XSHIFT;
            state32[i] = data_val;
            i += 1;
        }

        let mut words = [0u64; 4];
        let mut idx: usize = 0;
        while idx < 4
            invariant
                idx <= 4,
                forall|k: int| 0 <= k < 8 ==> state32@[k] == state_word32(self.pool@, k as nat),
                forall|k: int| 0 <= k < idx ==> words@[k] == state_words(self.pool@)[k],
            decreases 4 - idx,
        {
            let lo = state32[2 * idx];
            let hi = state32[2 * idx + 1];
            proof {
                lemma_pack_halves(lo, hi);
            }
            words[idx] = (lo as u64) | ((hi as u64) << 32);
            idx += 1;
        }
        assert(words@ =~= state_words(self.pool@));
        SeedState { words }
    }
}

} // verus!
