use numpy_rust::{Pcg64, SeedState};

#[test]
fn seed_sequence_matches_numpy_reference_for_42() {
    let state = Pcg64::seed_state(42);
    let observed = [
        state.words[0] as u32,
        (state.words[0] >> 32) as u32,
        state.words[1] as u32,
        (state.words[1] >> 32) as u32,
    ];
    assert_eq!(observed, [3444837047, 2669555309, 2046530742, 3581440988]);
}

#[test]
fn seed_sequence_matches_numpy_reference_for_u64_slice() {
    let state = Pcg64::seed_state_from_slice(&[42, 43, 44]);
    let observed = [
        state.words[0] as u32,
        (state.words[0] >> 32) as u32,
        state.words[1] as u32,
        (state.words[1] >> 32) as u32,
        state.words[2] as u32,
        (state.words[2] >> 32) as u32,
        state.words[3] as u32,
        (state.words[3] >> 32) as u32,
    ];
    assert_eq!(
        observed,
        [
            167534246, 220497560, 2018543265, 1697036488, 2091501443, 447637570, 572053801,
            2514420289,
        ]
    );
}

#[test]
fn integer_seed_equals_one_element_sequence() {
    for seed in [0u64, 1, 42, 0xffff_ffff, 0x1_0000_0000, u64::MAX] {
        assert_eq!(Pcg64::seed_state(seed), Pcg64::seed_state_from_slice(&[seed]));
        assert_eq!(Pcg64::from_seed(seed), Pcg64::from_seed_slice(&[seed]));
    }
}

#[test]
fn empty_sequence_equals_zero_seed() {
    assert_eq!(Pcg64::seed_state_from_slice(&[]), Pcg64::seed_state(0));
    assert_eq!(Pcg64::seed_state_from_slice(&[0]), Pcg64::seed_state(0));
}

#[test]
fn trailing_zero_is_ignored_while_entropy_fits_the_pool() {
    assert_eq!(
        Pcg64::seed_state_from_slice(&[7, 0]),
        Pcg64::seed_state_from_slice(&[7])
    );
    assert_eq!(
        Pcg64::seed_state_from_slice(&[1 << 40, 0]),
        Pcg64::seed_state_from_slice(&[1 << 40])
    );
    assert_eq!(
        Pcg64::seed_state_from_slice(&[1, 2, 3, 0]),
        Pcg64::seed_state_from_slice(&[1, 2, 3])
    );
}

#[test]
fn trailing_zero_matters_once_entropy_fills_the_pool() {
    assert_ne!(
        Pcg64::seed_state_from_slice(&[1, 2, 3, 4, 0]),
        Pcg64::seed_state_from_slice(&[1, 2, 3, 4])
    );
    assert_ne!(
        Pcg64::seed_state_from_slice(&[1 << 40, 1 << 40, 0]),
        Pcg64::seed_state_from_slice(&[1 << 40, 1 << 40])
    );
}

#[test]
fn large_seed_values_contribute_two_words() {
    let wide = Pcg64::seed_state_from_slice(&[(5 << 32) | 3]);
    let split = Pcg64::seed_state_from_slice(&[3, 5]);
    assert_eq!(wide, split);
    assert_ne!(Pcg64::seed_state(3), Pcg64::seed_state((5 << 32) | 3));
}

#[test]
fn long_sequences_mix_every_word() {
    let base: Vec<u64> = (0..12).collect();
    let mut changed = base.clone();
    changed[11] = 99;
    assert_ne!(
        Pcg64::seed_state_from_slice(&base),
        Pcg64::seed_state_from_slice(&changed)
    );
    assert_eq!(
        Pcg64::seed_state_from_slice(&base),
        Pcg64::seed_state_from_slice(&base.clone())
    );
}

#[test]
fn different_seeds_give_different_states() {
    assert_ne!(Pcg64::seed_state(1), Pcg64::seed_state(2));
    assert_ne!(
        Pcg64::seed_state_from_slice(&[1, 2]),
        Pcg64::seed_state_from_slice(&[2, 1])
    );
}

#[test]
fn seed_words_concatenate() {
    assert_eq!(
        Pcg64::seed_state_from_slice(&[(256 << 32) | 5, 3]),
        Pcg64::seed_state_from_slice(&[5, 256, 3])
    );
    assert_eq!(
        Pcg64::seed_state_from_slice(&[9, (7 << 32) | 1, 2]),
        Pcg64::seed_state_from_slice(&[9, 1, 7, 2])
    );
}

#[test]
fn distinct_seeds_give_distinct_leading_words() {
    let states: Vec<SeedState> = (0..64u64).map(Pcg64::seed_state).collect();
    for i in 0..states.len() {
        for j in (i + 1)..states.len() {
            assert_ne!(
                (states[i].words[0], states[i].words[1]),
                (states[j].words[0], states[j].words[1])
            );
        }
    }
}
