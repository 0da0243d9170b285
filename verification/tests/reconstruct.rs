use tempers::mt19937::MT19937;
use tempers::TempersError;

#[test]
fn untemper_values() {
    let twister = MT19937::default();
    assert_eq!(123456789, twister.untemper(twister.temper_transform(123456789)));
    assert_eq!(987654321, twister.untemper(twister.temper_transform(987654321)));
    assert_eq!(u32::MAX, twister.untemper(twister.temper_transform(u32::MAX)));
    assert_eq!(0, twister.untemper(twister.temper_transform(0)));
}

#[test]
fn untemper_basic_state() {
    let mut twister = MT19937::from_seed(123456789);
    let internal_state = twister.internal_state().clone();
    for (i, e) in internal_state.iter().enumerate() {
        let curr = twister.next().unwrap();
        assert_eq!(
            *e,
            twister.untemper(curr),
            "\nfailed on the {}th value;\ntwister state dump:\n{:?}",
            i,
            internal_state
        );
    }
}

#[test]
fn reassemble_from_complete_state() {
    let mut twister = MT19937::default();
    let twister_clone = MT19937::default();

    let first_twist_output: Vec<u32> = (0..624).map(|_| twister.next().unwrap()).collect();

    let twister_from_output = MT19937::_from_complete_output(&first_twist_output).unwrap();
    assert_eq!(twister_from_output, twister_clone);
    assert_eq!(twister_from_output.state_index(), twister_clone.state_index());
}

#[test]
fn reassemble_from_unknown_state() {
    let mut target_twister = MT19937::from_seed(987654321);
    for _ in 0..1000 {
        target_twister.next(); // get us to a random point between twists
    }

    let observed: Vec<u32> = (0..2500).map(|_| target_twister.next().unwrap()).collect();
    let (mut matched_twister, used) = MT19937::from_iter(&observed).unwrap();

    for k in 0..1000 {
        assert_eq!(observed[used + k], matched_twister.next().unwrap());
    }
}

#[test]
fn wrong_length_blocks_are_rejected_with_their_length() {
    let empty: Vec<u32> = Vec::new();
    assert_eq!(
        MT19937::_from_complete_output(&empty),
        Err(TempersError::InputLengthError(0))
    );

    let short = vec![7u32; 623];
    assert_eq!(
        MT19937::_from_complete_output(&short),
        Err(TempersError::InputLengthError(623))
    );

    let long = vec![7u32; 625];
    assert_eq!(
        MT19937::_from_complete_output(&long),
        Err(TempersError::InputLengthError(625))
    );
}

#[test]
fn short_streams_are_incomplete() {
    let empty: Vec<u32> = Vec::new();
    assert_eq!(
        MT19937::from_iter(&empty).unwrap_err(),
        TempersError::IncompleteIterator
    );

    let mut source = MT19937::default();
    let hundred: Vec<u32> = (0..100).map(|_| source.next().unwrap()).collect();
    assert_eq!(
        MT19937::from_iter(&hundred).unwrap_err(),
        TempersError::IncompleteIterator
    );

    // One full window but no value left to validate a trial against.
    let window_only: Vec<u32> = (0..624).map(|_| source.next().unwrap()).collect();
    assert_eq!(
        MT19937::from_iter(&window_only).unwrap_err(),
        TempersError::IncompleteIterator
    );
}

#[test]
fn foreign_streams_are_unmatcheable() {
    // A constant stream no generator of this family produces: every trial
    // phase over a full cycle is checked and rejected.
    let foreign = vec![2u32; 1300];
    assert_eq!(
        MT19937::from_iter(&foreign).unwrap_err(),
        TempersError::UnmatcheableIterator
    );
}

#[test]
fn aligned_streams_match_at_the_first_phase() {
    let mut source = MT19937::from_seed(24601);
    let observed: Vec<u32> = (0..700).map(|_| source.next().unwrap()).collect();

    let (mut matched, used) = MT19937::from_iter(&observed).unwrap();
    assert_eq!(used, 625);
    for k in 0..75 {
        assert_eq!(observed[used + k], matched.next().unwrap());
    }
}

#[test]
fn temper_transform_fixes_zero() {
    let twister = MT19937::blank();
    assert_eq!(twister.temper_transform(0), 0);
    assert_eq!(twister.untemper(0), 0);
}

#[test]
fn test_next_equal_to_iter_reports_matches_and_exhaustion() {
    let mut twister = MT19937::default();
    let mut probe = MT19937::default();
    let vals: Vec<u32> = (0..3).map(|_| twister.next().unwrap()).collect();

    assert_eq!(probe.test_next_equal_to_iter(&vals, 0), Ok(true));
    assert_eq!(probe.test_next_equal_to_iter(&vals, 1), Ok(true));
    // Comparing against the wrong stream position misses.
    assert_eq!(probe.test_next_equal_to_iter(&vals, 0), Ok(false));
    // Reading past the stream's end is an error, not a guess.
    assert_eq!(
        probe.test_next_equal_to_iter(&vals, 3),
        Err(TempersError::IncompleteIterator)
    );
}
