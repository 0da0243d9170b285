use tempers::mt19937::MT19937;

/// The published first outputs of the reference generator seeded with 5489.
const REFERENCE_OUTPUTS: [u32; 10] = [
    3499211612, 581869302, 3890346734, 3586334585, 545404204, 4161255391, 3922919429, 949333985,
    2715962298, 1323567403,
];

#[test]
fn blank_state() {
    let twister = MT19937::from_seed(5489);
    assert_eq!(twister.state_length(), 624);
    assert_eq!(twister.internal_state().len(), 624);
    // The ring of a freshly seeded generator holds, word for word, the raw
    // values behind the reference generator's published first outputs.
    for (k, reference) in REFERENCE_OUTPUTS.iter().enumerate() {
        let my_state = twister.internal_state()[k];
        let reference_state = twister.untemper(*reference);
        assert_eq!(my_state, reference_state);
    }
}

#[test]
fn output_values() {
    let mut twister = MT19937::from_seed(5489);
    for (i, reference_num) in REFERENCE_OUTPUTS.iter().enumerate() {
        let my_num = twister.next().unwrap();
        assert_eq!(my_num, *reference_num, "\n(failed on the {}th number)", i);
    }
}

#[test]
fn blank_ring_is_zeroed() {
    let twister = MT19937::blank();
    assert_eq!(twister.state_index(), 0);
    assert_eq!(twister.state_length(), 624);
    assert!(twister.internal_state().iter().all(|&w| w == 0));
}

#[test]
fn default_matches_reference_seed() {
    let mut unseeded = MT19937::default();
    let mut reference = MT19937::from_seed(5489);
    assert_eq!(unseeded, reference);
    for _ in 0..1000 {
        assert_eq!(unseeded.next(), reference.next());
    }
}

#[test]
fn parameters_hold_reference_values() {
    let twister = MT19937::blank();
    assert_eq!(twister.a(), 0x9908_b0df);
    assert_eq!(twister.b(), 0x9d2c_5680);
    assert_eq!(twister.c(), 0xefc6_0000);
    assert_eq!(twister.d(), 0xffff_ffff);
    assert_eq!(twister.u(), 11);
    assert_eq!(twister.s(), 7);
    assert_eq!(twister.t(), 15);
    assert_eq!(twister.l(), 18);
}

#[test]
fn cursor_advances_and_wraps_at_cycle_end() {
    let mut twister = MT19937::default();
    assert_eq!(twister.state_index(), 0);
    for k in 1..=624 {
        twister.next().unwrap();
        assert_eq!(twister.state_index(), k);
    }
    // The 625th emission refreshes the ring first and restarts the cursor.
    twister.next().unwrap();
    assert_eq!(twister.state_index(), 1);
}

#[test]
fn seeding_is_deterministic() {
    let mut first = MT19937::from_seed(123456789);
    let mut second = MT19937::from_seed(123456789);
    for _ in 0..700 {
        assert_eq!(first.next(), second.next());
    }
}
