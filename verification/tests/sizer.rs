//! Tests for the capacity contract and its validator.

use surena_game::sizer::{check_sizer, sizer_fits, BufSizer, GameFeatureFlags};

fn sizer(options_str: usize, state_str: usize, move_str: usize, print_str: usize) -> BufSizer {
    BufSizer {
        options_str,
        state_str,
        player_count: 2,
        max_players_to_move: 1,
        max_moves: 3,
        max_actions: 0,
        max_results: 1,
        move_str,
        print_str,
    }
}

#[test]
fn validator_accepts_consistent_contract() {
    let features = GameFeatureFlags { options: true, print: true };
    assert!(check_sizer(&sizer(5, 5, 2, 6), &features));
}

#[test]
fn validator_rejects_zero_state_text_size() {
    let features = GameFeatureFlags::default();
    assert!(!check_sizer(&sizer(0, 0, 2, 0), &features));
}

#[test]
fn validator_requires_options_size_only_with_the_capability() {
    let without = GameFeatureFlags { options: false, print: false };
    let with = GameFeatureFlags { options: true, print: false };
    let s = sizer(0, 5, 2, 0);
    assert!(check_sizer(&s, &without));
    assert!(!check_sizer(&s, &with));
}

#[test]
fn validator_requires_print_size_only_with_the_capability() {
    let without = GameFeatureFlags { options: false, print: false };
    let with = GameFeatureFlags { options: false, print: true };
    let s = sizer(0, 5, 2, 0);
    assert!(check_sizer(&s, &without));
    assert!(!check_sizer(&s, &with));
}

#[test]
fn fits_is_field_wise() {
    let small = sizer(4, 5, 2, 6);
    let big = sizer(5, 5, 2, 7);
    assert!(sizer_fits(&small, &big));
    assert!(sizer_fits(&small, &small));
    assert!(!sizer_fits(&big, &small));
}
