//! Properties of seeding and of its hashing steps that hold for every input.
use vstd::prelude::*;

use crate::bit_generator::{
    entropy_words, extra_words, flat_words, hash_const_a, hash_const_b, hash_round, hashmix_at,
    initial_pool, mix_spec, mixed_pool, mul32, seed_words, state_word32, state_words, sub32,
    value_words, absorbed, cross_dst, cross_mixed, cross_src, INIT_A, INIT_B, MIX_MULT_L,
    MIX_MULT_R, MULT_A, MULT_B,
};
use vstd::arithmetic::power::pow;
use crate::pcg64::integer_seed_words;
use vstd::arithmetic::div_mod::{
    lemma_fundamental_div_mod, lemma_mod_mod, lemma_mod_multiples_basic, lemma_mul_mod_noop,
    lemma_mul_mod_noop_left,
};
use vstd::arithmetic::power2::{lemma2_to64, lemma_pow2_pos, lemma_pow2_unfold, pow2};

verus! {

/// An integer seed gives the same seed words as the one-element sequence
/// holding it: `default_rng(s)` and `default_rng([s])` build the same generator.
pub proof fn law_integer_seed_is_one_element_sequence(seed: u64)
    ensures
        integer_seed_words(seed) == seed_words(seq![seed]),
{
    law_one_value_entropy(seed);
}

/// A one-value seed sequence contributes exactly the words of its value.
pub proof fn law_one_value_entropy(seed: u64)
    ensures
        entropy_words(seq![seed]) == value_words(seed),
{
    assert(seq![seed].drop_last() =~= Seq::<u64>::empty());
    assert(seq![seed].last() == seed);
    assert(flat_words(Seq::<u64>::empty()) =~= Seq::<u32>::empty());
    assert(flat_words(seq![seed]) =~= value_words(seed));
}

proof fn lemma_flat_words_concat(a: Seq<u64>, b: Seq<u64>)
    ensures
        flat_words(a + b) == flat_words(a) + flat_words(b),
    decreases b.len(),
{
    if b.len() == 0 {
        assert(a + b =~= a);
        assert(flat_words(a) + flat_words(b) =~= flat_words(a));
    } else {
        assert((a + b).drop_last() =~= a + b.drop_last());
        assert((a + b).last() == b.last());
        lemma_flat_words_concat(a, b.drop_last());
        assert(flat_words(a + b) =~= flat_words(a) + flat_words(b));
    }
}

/// The entropy words of two non-empty seed sequences laid end to end are the
/// words of the first followed by the words of the second.
pub proof fn law_entropy_words_concat(a: Seq<u64>, b: Seq<u64>)
    requires
        a.len() > 0,
        b.len() > 0,
    ensures
        entropy_words(a + b) == entropy_words(a) + entropy_words(b),
{
    lemma_flat_words_concat(a, b);
}

/// An empty seed sequence gives the same seed words as the integer seed 0.
pub proof fn law_empty_seed_is_zero_seed()
    ensures
        seed_words(Seq::<u64>::empty()) == integer_seed_words(0),
{
    assert(entropy_words(Seq::<u64>::empty()) =~= value_words(0));
}

/// Zero-padding an entropy array that is shorter than the pool leaves the
/// mixed pool unchanged: missing pool words are hashed as zero and no extra
/// word is absorbed.
pub proof fn law_pad_short_entropy_with_zero(words: Seq<u32>)
    requires
        words.len() < 4,
    ensures
        mixed_pool(words.push(0u32)) == mixed_pool(words),
{
    assert(initial_pool(words.push(0u32)) =~= initial_pool(words));
    assert(extra_words(words.push(0u32)) == 0);
    assert(extra_words(words) == 0);
}

/// Appending a zero to a seed sequence whose entropy fits in the pool (fewer
/// than four 32-bit words) does not change the generated seed words.
pub proof fn law_trailing_zero_seed_value(entropy: Seq<u64>)
    requires
        entropy_words(entropy).len() < 4,
    ensures
        seed_words(entropy.push(0u64)) == seed_words(entropy),
{
    let longer = entropy.push(0u64);
    assert(longer.drop_last() =~= entropy);
    assert(longer.last() == 0u64);
    if entropy.len() == 0 {
        assert(entropy =~= Seq::<u64>::empty());
        assert(flat_words(Seq::<u64>::empty()) =~= Seq::<u32>::empty());
        assert(flat_words(longer) =~= value_words(0));
        assert(entropy_words(longer) =~= entropy_words(entropy));
    } else {
        assert(entropy_words(longer) =~= entropy_words(entropy).push(0u32));
        law_pad_short_entropy_with_zero(entropy_words(entropy));
    }
}

} // verus!
verus! {

proof fn lemma_odd_factor_of_even(e: int, c: int)
    requires
        c % 2 == 1,
        (e * c) % 2 == 0,
    ensures
        e % 2 == 0,
{
    lemma_mul_mod_noop(e, c, 2);
    assert((e % 2) * (c % 2) == e % 2);
}

proof fn lemma_odd_cancel_pow2(d: int, c: int, k: nat)
    requires
        c % 2 == 1,
        (d * c) % (pow2(k) as int) == 0,
    ensures
        d % (pow2(k) as int) == 0,
    decreases k,
{
    if k == 0 {
        lemma2_to64();
    } else {
        lemma_pow2_unfold(k);
        let p: int = pow2((k - 1) as nat) as int;
        lemma_pow2_pos((k - 1) as nat);
        lemma_fundamental_div_mod(d * c, 2 * p);
        let m = (d * c) / (2 * p);
        assert(d * c == (2 * m) * p) by (nonlinear_arith)
            requires
                d * c == (2 * p) * m + 0,
        ;
        lemma_mod_multiples_basic(2 * m, p);
        lemma_odd_cancel_pow2(d, c, (k - 1) as nat);
        lemma_fundamental_div_mod(d, p);
        let e = d / p;
        assert(e * c == 2 * m) by (nonlinear_arith)
            requires
                d == p * e + 0,
                d * c == (2 * m) * p,
                p > 0,
        ;
        lemma_mod_multiples_basic(m, 2);
        lemma_odd_factor_of_even(e, c);
        lemma_fundamental_div_mod(e, 2);
        let f = e / 2;
        assert(d == f * (2 * p)) by (nonlinear_arith)
            requires
                d == p * e,
                e == 2 * f + 0,
        ;
        lemma_mod_multiples_basic(f, 2 * p);
    }
}

/// Multiplication by an odd constant modulo 2^32 is injective.
proof fn lemma_odd_mul32_injective(x1: u32, x2: u32, c: u32)
    requires
        c % 2 == 1,
        mul32(x1, c) == mul32(x2, c),
    ensures
        x1 == x2,
{
    let big: int = 0x1_0000_0000;
    let a = x1 as int * c as int;
    let b = x2 as int * c as int;
    assert(a % big == b % big);
    lemma_fundamental_div_mod(a, big);
    lemma_fundamental_div_mod(b, big);
    let d = x1 as int - x2 as int;
    assert(d * c == (a / big - b / big) * big) by (nonlinear_arith)
        requires
            a == x1 as int * c as int,
            b == x2 as int * c as int,
            d == x1 as int - x2 as int,
            a == big * (a / big) + a % big,
            b == big * (b / big) + b % big,
            a % big == b % big,
    ;
    lemma_mod_multiples_basic(a / big - b / big, big);
    lemma2_to64();
    lemma_odd_cancel_pow2(d, c as int, 32);
    lemma_fundamental_div_mod(d, big);
    assert(d == 0) by (nonlinear_arith)
        requires
            d == big * (d / big) + 0,
            -big < d < big,
            big > 0,
    ;
}

proof fn lemma_fold_injective(t1: u32, t2: u32)
    requires
        t1 ^ (t1 >> 16u32) == t2 ^ (t2 >> 16u32),
    ensures
        t1 == t2,
{
    assert(t1 == t2) by (bit_vector)
        requires
            t1 ^ (t1 >> 16u32) == t2 ^ (t2 >> 16u32),
    ;
}

proof fn lemma_xor_injective(v1: u32, v2: u32, h: u32)
    requires
        v1 ^ h == v2 ^ h,
    ensures
        v1 == v2,
{
    assert(v1 == v2) by (bit_vector)
        requires
            v1 ^ h == v2 ^ h,
    ;
}

proof fn lemma_mul32_odd(a: u32, b: u32)
    requires
        a % 2 == 1,
        b % 2 == 1,
    ensures
        mul32(a, b) % 2 == 1,
{
    let x = a as int * b as int;
    lemma_mod_mod(x, 2, 0x8000_0000);
    lemma_mul_mod_noop(a as int, b as int, 2);
}

proof fn lemma_hash_const_a_odd(k: nat)
    ensures
        hash_const_a(k) % 2 == 1,
    decreases k,
{
    if k > 0 {
        lemma_hash_const_a_odd((k - 1) as nat);
        lemma_mul32_odd(hash_const_a((k - 1) as nat), MULT_A);
    }
}

proof fn lemma_hash_const_b_odd(k: nat)
    ensures
        hash_const_b(k) % 2 == 1,
    decreases k,
{
    if k > 0 {
        lemma_hash_const_b_odd((k - 1) as nat);
        lemma_mul32_odd(hash_const_b((k - 1) as nat), MULT_B);
    }
}

proof fn lemma_hash_round_injective(v1: u32, v2: u32, hc: u32, mult: u32)
    requires
        hc % 2 == 1,
        mult % 2 == 1,
        hash_round(v1, hc, mult) == hash_round(v2, hc, mult),
    ensures
        v1 == v2,
{
    lemma_mul32_odd(hc, mult);
    lemma_fold_injective(mul32(v1 ^ hc, mul32(hc, mult)), mul32(v2 ^ hc, mul32(hc, mult)));
    lemma_odd_mul32_injective(v1 ^ hc, v2 ^ hc, mul32(hc, mult));
    lemma_xor_injective(v1, v2, hc);
}

/// With an odd hash constant, the entropy hash of distinct values differs
/// (the constant advances the same way whatever the value).
pub proof fn law_hashmix_injective(v1: u32, v2: u32, hc: u32)
    requires
        hc % 2 == 1,
        v1 != v2,
    ensures
        hash_round(v1, hc, MULT_A) != hash_round(v2, hc, MULT_A),
{
    if hash_round(v1, hc, MULT_A) == hash_round(v2, hc, MULT_A) {
        lemma_hash_round_injective(v1, v2, hc, MULT_A);
    }
}

/// Every call of the entropy hash during mixing is injective in its value.
pub proof fn law_hashmix_at_injective(v1: u32, v2: u32, k: nat)
    requires
        v1 != v2,
    ensures
        hashmix_at(v1, k) != hashmix_at(v2, k),
{
    lemma_hash_const_a_odd(k);
    law_hashmix_injective(v1, v2, hash_const_a(k));
}

/// Mixing distinct pool words with the same hashed word gives distinct results.
pub proof fn law_mix_injective_left(x1: u32, x2: u32, y: u32)
    requires
        x1 != x2,
    ensures
        mix_spec(x1, y) != mix_spec(x2, y),
{
    if mix_spec(x1, y) == mix_spec(x2, y) {
        let r1 = sub32(mul32(MIX_MULT_L, x1), mul32(MIX_MULT_R, y));
        let r2 = sub32(mul32(MIX_MULT_L, x2), mul32(MIX_MULT_R, y));
        lemma_fold_injective(r1, r2);
        assert(mul32(MIX_MULT_L, x1) == mul32(MIX_MULT_L, x2));
        assert(mul32(MIX_MULT_L, x1) == mul32(x1, MIX_MULT_L));
        assert(mul32(MIX_MULT_L, x2) == mul32(x2, MIX_MULT_L));
        lemma_odd_mul32_injective(x1, x2, MIX_MULT_L);
    }
}

/// Mixing a pool word with distinct hashed words gives distinct results.
pub proof fn law_mix_injective_right(x: u32, y1: u32, y2: u32)
    requires
        y1 != y2,
    ensures
        mix_spec(x, y1) != mix_spec(x, y2),
{
    if mix_spec(x, y1) == mix_spec(x, y2) {
        let r1 = sub32(mul32(MIX_MULT_L, x), mul32(MIX_MULT_R, y1));
        let r2 = sub32(mul32(MIX_MULT_L, x), mul32(MIX_MULT_R, y2));
        lemma_fold_injective(r1, r2);
        assert(mul32(MIX_MULT_R, y1) == mul32(MIX_MULT_R, y2));
        assert(mul32(MIX_MULT_R, y1) == mul32(y1, MIX_MULT_R));
        assert(mul32(MIX_MULT_R, y2) == mul32(y2, MIX_MULT_R));
        lemma_odd_mul32_injective(y1, y2, MIX_MULT_R);
    }
}

proof fn lemma_output_word_injective(a: Seq<u32>, b: Seq<u32>, i: nat)
    requires
        a.len() == 4,
        b.len() == 4,
        i < 4,
        a[i as int] != b[i as int],
    ensures
        state_word32(a, i) != state_word32(b, i),
{
    lemma_hash_const_b_odd(i);
    if state_word32(a, i) == state_word32(b, i) {
        lemma_hash_round_injective(a[i as int], b[i as int], hash_const_b(i), MULT_B);
    }
}

/// Distinct pools give distinct first two seed words: each of the first four
/// generated 32-bit words is an injective function of one pool word.
pub proof fn law_distinct_pools_distinct_leading_words(a: Seq<u32>, b: Seq<u32>)
    requires
        a.len() == 4,
        b.len() == 4,
        a != b,
    ensures
        state_words(a)[0] != state_words(b)[0] || state_words(a)[1] != state_words(b)[1],
{
    let i: int = choose|i: int| 0 <= i < 4 && a[i] != b[i];
    if !(exists|i: int| 0 <= i < 4 && a[i] != b[i]) {
        assert(a =~= b);
    }
    lemma_output_word_injective(a, b, i as nat);
    let sa0 = state_word32(a, 0);
    let sa1 = state_word32(a, 1);
    let sa2 = state_word32(a, 2);
    let sa3 = state_word32(a, 3);
    let sb0 = state_word32(b, 0);
    let sb1 = state_word32(b, 1);
    let sb2 = state_word32(b, 2);
    let sb3 = state_word32(b, 3);
    assert(state_words(a)[0] == sa0 + sa1 * 0x1_0000_0000);
    assert(state_words(b)[0] == sb0 + sb1 * 0x1_0000_0000);
    assert(state_words(a)[1] == sa2 + sa3 * 0x1_0000_0000);
    assert(state_words(b)[1] == sb2 + sb3 * 0x1_0000_0000);
}

// ---------------------------------------------------------------------------
// What the seeding steps compute, stated through their inputs
// ---------------------------------------------------------------------------

/// The words of a seed value encode it exactly, least significant word first,
/// and without a superfluous high word: one word equal to the value when it
/// fits in 32 bits, otherwise a low and a non-zero high word.
pub proof fn law_value_words_encode_value(v: u64)
    ensures
        1 <= value_words(v).len() <= 2,
        value_words(v).len() == 1 ==> value_words(v)[0] == v,
        value_words(v).len() == 2 ==> value_words(v)[1] != 0 && value_words(v)[0]
            + value_words(v)[1] * 0x1_0000_0000 == v,
{
    if v >= 0x1_0000_0000 {
        lemma_fundamental_div_mod(v as int, 0x1_0000_0000);
    }
}

/// Distinct seed values contribute distinct entropy words.
pub proof fn law_distinct_values_distinct_words(v1: u64, v2: u64)
    requires
        v1 != v2,
    ensures
        value_words(v1) != value_words(v2),
{
    law_value_words_encode_value(v1);
    law_value_words_encode_value(v2);
    if value_words(v1) == value_words(v2) {
        assert(value_words(v1).len() == value_words(v2).len());
    }
}

/// The `k`-th entropy hash constant is `INIT_A * MULT_A^k` modulo 2^32.
pub proof fn law_hash_const_a_power(k: nat)
    ensures
        hash_const_a(k) as int == (INIT_A as int * pow(MULT_A as int, k)) % 0x1_0000_0000,
    decreases k,
{
    reveal(pow);
    if k > 0 {
        law_hash_const_a_power((k - 1) as nat);
        let prev = pow(MULT_A as int, (k - 1) as nat);
        lemma_mul_mod_noop_left(INIT_A as int * prev, MULT_A as int, 0x1_0000_0000);
        assert(INIT_A as int * prev * MULT_A as int == INIT_A as int * (MULT_A as int * prev))
            by (nonlinear_arith);
    }
}

/// The `k`-th output hash constant is `INIT_B * MULT_B^k` modulo 2^32.
pub proof fn law_hash_const_b_power(k: nat)
    ensures
        hash_const_b(k) as int == (INIT_B as int * pow(MULT_B as int, k)) % 0x1_0000_0000,
    decreases k,
{
    reveal(pow);
    if k > 0 {
        law_hash_const_b_power((k - 1) as nat);
        let prev = pow(MULT_B as int, (k - 1) as nat);
        lemma_mul_mod_noop_left(INIT_B as int * prev, MULT_B as int, 0x1_0000_0000);
        assert(INIT_B as int * prev * MULT_B as int == INIT_B as int * (MULT_B as int * prev))
            by (nonlinear_arith);
    }
}

proof fn lemma_absorbed_reads_prefix(pool: Seq<u32>, e: Seq<u32>, w: u32, n: nat)
    requires
        4 + n <= e.len(),
    ensures
        absorbed(pool, e.push(w), n) == absorbed(pool, e, n),
    decreases n,
{
    if n > 0 {
        lemma_absorbed_reads_prefix(pool, e, w, (n - 1) as nat);
        assert(e.push(w)[4 + n - 1] == e[4 + n - 1]);
    }
}

/// Appending a word to entropy that already fills the pool mixes, into each
/// pool word `d` in turn (the pool word as first argument of `mix`), a fresh
/// hash of the appended word: the hash call that follows the 4 filling
/// calls, the 12 cross-mixing calls and the 4 calls of each earlier extra word,
/// so the hash constant advances once per pool word.
pub proof fn law_extra_word_absorption(e: Seq<u32>, w: u32, d: int)
    requires
        e.len() >= 4,
        0 <= d < 4,
    ensures
        mixed_pool(e.push(w))[d] == mix_spec(
            mixed_pool(e)[d],
            hash_round(w, hash_const_a((16 + 4 * (e.len() - 4) + d) as nat), MULT_A),
        ),
{
    let longer = e.push(w);
    assert(initial_pool(longer) =~= initial_pool(e));
    let crossed = cross_mixed(initial_pool(e), 12);
    let n = (e.len() - 4) as nat;
    assert(extra_words(longer) == n + 1);
    assert(extra_words(e) == n);
    lemma_absorbed_reads_prefix(crossed, e, w, n);
    assert(longer[4 + n as int] == w);
}

proof fn lemma_cross_mixed_len(pool: Seq<u32>, t: nat)
    requires
        pool.len() == 4,
        t <= 12,
    ensures
        cross_mixed(pool, t).len() == 4,
    decreases t,
{
    if t > 0 {
        lemma_cross_mixed_len(pool, (t - 1) as nat);
    }
}

proof fn lemma_cross_mixed_injective(p1: Seq<u32>, p2: Seq<u32>, t: nat)
    requires
        p1.len() == 4,
        p2.len() == 4,
        t <= 12,
        cross_mixed(p1, t) == cross_mixed(p2, t),
    ensures
        p1 == p2,
    decreases t,
{
    if t > 0 {
        let q1 = cross_mixed(p1, (t - 1) as nat);
        let q2 = cross_mixed(p2, (t - 1) as nat);
        lemma_cross_mixed_len(p1, (t - 1) as nat);
        lemma_cross_mixed_len(p2, (t - 1) as nat);
        let s = cross_src(t - 1);
        let d = cross_dst(t - 1);
        assert(0 <= s < 4 && 0 <= d < 4 && s != d);
        let r1 = q1.update(d, mix_spec(q1[d], hashmix_at(q1[s], (4 + t - 1) as nat)));
        let r2 = q2.update(d, mix_spec(q2[d], hashmix_at(q2[s], (4 + t - 1) as nat)));
        assert(r1 == cross_mixed(p1, t));
        assert(r2 == cross_mixed(p2, t));
        assert(q1[s] == r1[s]);
        assert(q2[s] == r2[s]);
        if q1[d] != q2[d] {
            law_mix_injective_left(q1[d], q2[d], hashmix_at(q1[s], (4 + t - 1) as nat));
            assert(r1[d] != r2[d]);
        }
        assert forall|i: int| 0 <= i < 4 implies q1[i] == q2[i] by {
            if i != d {
                assert(q1[i] == r1[i]);
                assert(q2[i] == r2[i]);
            }
        }
        assert(q1 =~= q2);
        lemma_cross_mixed_injective(p1, p2, (t - 1) as nat);
    }
}

/// Every word of entropy that fits in the pool matters: two entropy arrays of
/// the same length, at most the pool size, that differ anywhere give
/// different pools.
pub proof fn law_short_entropy_pool_injective(e1: Seq<u32>, e2: Seq<u32>)
    requires
        e1.len() == e2.len(),
        e1.len() <= 4,
        e1 != e2,
    ensures
        mixed_pool(e1) != mixed_pool(e2),
{
    let i: int = choose|i: int| 0 <= i < e1.len() && e1[i] != e2[i];
    if !(exists|i: int| 0 <= i < e1.len() && e1[i] != e2[i]) {
        assert(e1 =~= e2);
    }
    law_hashmix_at_injective(e1[i], e2[i], i as nat);
    let p1 = initial_pool(e1);
    let p2 = initial_pool(e2);
    assert(p1[i] != p2[i]);
    assert(extra_words(e1) == 0);
    assert(extra_words(e2) == 0);
    if mixed_pool(e1) == mixed_pool(e2) {
        lemma_cross_mixed_injective(p1, p2, 12);
    }
}

} // verus!
