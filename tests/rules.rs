use game_of_life::rules::next_state;

#[test]
fn live_cell_with_fewer_than_two_dies() {
    assert!(!next_state(true, 0));
    assert!(!next_state(true, 1));
}

#[test]
fn live_cell_with_two_or_three_survives() {
    assert!(next_state(true, 2));
    assert!(next_state(true, 3));
}

#[test]
fn live_cell_with_more_than_three_dies() {
    for n in 4..=8u8 {
        assert!(!next_state(true, n));
    }
}

#[test]
fn dead_cell_is_born_with_exactly_three() {
    for n in 0..=8u8 {
        assert_eq!(next_state(false, n), n == 3);
    }
}

#[test]
fn next_state_is_deterministic() {
    for alive in [false, true] {
        for n in 0..=8u8 {
            assert_eq!(next_state(alive, n), next_state(alive, n));
        }
    }
}
