use numpy_rust::ziggurat::ZigguratDraw;
use numpy_rust::{target_numpy_notes, target_numpy_version, Pcg64, SeedState};

const MULTIPLIER: u128 = 0x2360_ED05_1FC6_5DA4_4385_DF64_9FCC_F645;

/// PCG XSL RR 128/64 written out by hand, seeded like NumPy's PCG64.
fn reference_stream(state: SeedState, count: usize) -> Vec<u64> {
    let w = state.words;
    let initstate = ((w[0] as u128) << 64) | w[1] as u128;
    let initseq = ((w[2] as u128) << 64) | w[3] as u128;
    let increment = (initseq << 1) | 1;
    let mut s = initstate.wrapping_add(increment);
    s = s.wrapping_mul(MULTIPLIER).wrapping_add(increment);
    let mut out = Vec::new();
    for _ in 0..count {
        s = s.wrapping_mul(MULTIPLIER).wrapping_add(increment);
        let rot = (s >> 122) as u32;
        let xsl = ((s >> 64) as u64) ^ (s as u64);
        out.push(xsl.rotate_right(rot));
    }
    out
}

fn to_unit(raw: u64) -> f64 {
    ((raw >> 11) as f64) * (1.0 / 9007199254740992.0)
}

#[test]
fn raw_draws_follow_the_pcg_recurrence() {
    for seed in [0u64, 1, 42, 12345, u64::MAX] {
        let mut rng = Pcg64::from_seed(seed);
        let drawn: Vec<u64> = (0..20).map(|_| rng.next_u64()).collect();
        assert_eq!(drawn, reference_stream(Pcg64::seed_state(seed), 20));
    }
    let mut rng = Pcg64::from_seed_slice(&[42, 43, 44]);
    let drawn: Vec<u64> = (0..20).map(|_| rng.next_u64()).collect();
    assert_eq!(
        drawn,
        reference_stream(Pcg64::seed_state_from_slice(&[42, 43, 44]), 20)
    );
}

#[test]
fn first_uniforms_for_seed_42_match_numpy() {
    let mut rng = Pcg64::from_seed(42);
    let expected = [0.7739560485559633, 0.4388784397520523, 0.8585979199113825];
    for value in expected {
        assert_eq!(to_unit(rng.next_u64()).to_bits(), f64::to_bits(value));
    }
}

#[test]
fn drawing_advances_the_generator() {
    let mut rng = Pcg64::from_seed(7);
    let first = rng.next_u64();
    let second = rng.next_u64();
    assert_ne!(first, second);
    assert_ne!(rng, Pcg64::from_seed(7));
}

#[test]
fn same_seed_reproduces_the_stream() {
    let mut a = Pcg64::from_seed(2024);
    let mut b = Pcg64::from_seed(2024);
    for _ in 0..50 {
        assert_eq!(a.next_u64(), b.next_u64());
    }
    let mut c = a.clone();
    for _ in 0..10 {
        assert_eq!(a.next_u64(), c.next_u64());
    }
}

#[test]
fn version_strings() {
    assert_eq!(target_numpy_version(), "2.5.1");
    assert!(target_numpy_notes().starts_with("Matched against NumPy 2.5.1 source"));
    assert!(target_numpy_notes().ends_with("provided by rand_pcg."));
}

#[test]
fn ziggurat_draw_fields() {
    let r: u64 = (0b101 << 61) | (0x000f_ffff_ffff_ffff << 9) | (1 << 8) | 0xab;
    let d = ZigguratDraw::from_raw(r);
    assert_eq!(d.idx, 0xab);
    assert!(d.negative);
    assert_eq!(d.rabs, 0x000f_ffff_ffff_ffff);
    assert!(d.tail_negative());

    let d = ZigguratDraw::from_raw(0x1234_5678_9abc_def0);
    assert_eq!(d.idx, 0xf0);
    assert!(!d.negative);
    assert_eq!(d.rabs, (0x1234_5678_9abc_def0u64 >> 9) & 0x000f_ffff_ffff_ffff);
    assert_eq!(d.tail_negative(), (d.rabs >> 8) & 1 == 1);

    let d = ZigguratDraw::from_raw(0);
    assert_eq!(d, ZigguratDraw { idx: 0, negative: false, rabs: 0 });
    assert!(!d.tail_negative());
}

#[test]
fn clone_keeps_the_state() {
    let mut rng = Pcg64::from_seed(99);
    rng.next_u64();
    let copy = rng.clone();
    assert_eq!(copy, rng);
}
