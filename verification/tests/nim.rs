//! Tests for the reference subtraction game.

use surena_game::error::ErrorCode;
use surena_game::game::GameInit;
use surena_game::instance::{CreateStatus, GameInstance};
use surena_game::nim::{dec_bytes, digits, sub_too_large, Nim};
use surena_game::sizer::GameFeatureFlags;

fn create(opts: &[u8]) -> GameInstance<Nim> {
    let init = GameInit::Standard {
        opts: Some(opts.to_vec()),
        legacy: None,
        state: None,
    };
    let (inst, status) = GameInstance::<Nim>::create_wrapped(
        GameFeatureFlags { options: true, print: true },
        &init,
    );
    assert!(matches!(status, CreateStatus::Created));
    inst
}

#[test]
fn digits_counts_decimal_places() {
    assert_eq!(1, digits(0));
    assert_eq!(1, digits(9));
    assert_eq!(2, digits(10));
    assert_eq!(2, digits(21));
    assert_eq!(3, digits(100));
    assert_eq!(5, digits(65535));
}

#[test]
fn dec_bytes_encodes_decimal() {
    assert_eq!(b"0".to_vec(), dec_bytes(0));
    assert_eq!(b"7".to_vec(), dec_bytes(7));
    assert_eq!(b"21".to_vec(), dec_bytes(21));
    assert_eq!(b"65535".to_vec(), dec_bytes(65535));
}

#[test]
fn sub_too_large_is_exact() {
    assert!(sub_too_large(3, 3).is_ok());
    let e = sub_too_large(4, 3).unwrap_err();
    assert_eq!(ErrorCode::InvalidInput, e.code);
}

#[test]
fn sizer_matches_the_default_configuration() {
    let g = Nim::new(21, 3);
    let s = g.calc_sizer();
    assert_eq!(5, s.options_str); // "21 3" and the terminator
    assert_eq!(5, s.state_str); // "A 21" and the terminator
    assert_eq!(2, s.player_count);
    assert_eq!(1, s.max_players_to_move);
    assert_eq!(3, s.max_moves);
    assert_eq!(0, s.max_actions);
    assert_eq!(1, s.max_results);
    assert_eq!(2, s.move_str); // "3" and the terminator
    assert_eq!(6, s.print_str); // "A 21\n" and the terminator
}

#[test]
fn default_game_starts_at_twenty_one() {
    let g = Nim::default();
    assert_eq!(Nim::new(21, 3), g);
    assert_eq!(1, g.player_id());
    assert_eq!('A', g.player_char());
}

#[test]
fn export_import_round_trip_reproduces_the_state() {
    let mut inst = create(b"21 3");
    let exported = inst.export_state_wrapped().unwrap();
    assert_eq!(b"A 21\0".to_vec(), exported);

    // Import the exported text (without the terminator) into a clone and
    // compare: the states are equal.
    let mut other = inst.clone_wrapped();
    other.make_move_wrapped(1, 2).unwrap();
    assert!(!inst.compare_wrapped(&other));
    let text = exported[..exported.len() - 1].to_vec();
    other.import_state_wrapped(Some(&text)).unwrap();
    assert!(inst.compare_wrapped(&other));
}

#[test]
fn import_sets_mover_and_counter() {
    let mut inst = create(b"21 3");
    inst.import_state_wrapped(Some(&b"B 7".to_vec())).unwrap();
    assert_eq!(b"B 7\0".to_vec(), inst.export_state_wrapped().unwrap());
    // Lower-case players and surrounding whitespace are accepted.
    inst.import_state_wrapped(Some(&b"  a  15 ".to_vec())).unwrap();
    assert_eq!(b"A 15\0".to_vec(), inst.export_state_wrapped().unwrap());
}

#[test]
fn import_of_nothing_resets_the_game() {
    let mut inst = create(b"21 3");
    inst.make_move_wrapped(1, 3).unwrap();
    assert_eq!(b"B 18\0".to_vec(), inst.export_state_wrapped().unwrap());
    inst.import_state_wrapped(None).unwrap();
    assert_eq!(b"A 21\0".to_vec(), inst.export_state_wrapped().unwrap());
    // An empty or all-whitespace text resets as well.
    inst.make_move_wrapped(1, 1).unwrap();
    inst.import_state_wrapped(Some(&b"  ".to_vec())).unwrap();
    assert_eq!(b"A 21\0".to_vec(), inst.export_state_wrapped().unwrap());
}

#[test]
fn import_rejects_malformed_text_and_keeps_the_state() {
    let mut inst = create(b"21 3");
    for bad in [
        b"A".to_vec(),
        b"C 5".to_vec(),
        b"A x".to_vec(),
        b"A 99999".to_vec(),
        b"A 100".to_vec(), // three digits do not fit the declared size
        b"AB 5".to_vec(),
    ] {
        let err = inst.import_state_wrapped(Some(&bad)).unwrap_err();
        assert_eq!(ErrorCode::InvalidInput, err.code);
        assert_eq!(b"A 21\0".to_vec(), inst.export_state_wrapped().unwrap());
    }
}

#[test]
fn creation_errors_name_the_missing_piece() {
    let cases: [(&[u8], ErrorCode, &[u8]); 5] = [
        (b"", ErrorCode::InvalidInput, b"missing starting counter"),
        (b"x", ErrorCode::InvalidInput, b"counter parsing error"),
        (b"21", ErrorCode::InvalidInput, b"missing maximum subtrahend"),
        (b"21 x", ErrorCode::InvalidInput, b"subtrahend parsing error"),
        (b"21 0", ErrorCode::InvalidOptions, b"maximum subtrahend is zero"),
    ];
    for (opts, code, message) in cases {
        let init = GameInit::Standard {
            opts: Some(opts.to_vec()),
            legacy: None,
            state: None,
        };
        let (inst, status) = GameInstance::<Nim>::create_wrapped(
            GameFeatureFlags { options: true, print: true },
            &init,
        );
        match status {
            CreateStatus::Failed(e) => assert_eq!(code, e.code),
            _ => panic!("creation should fail"),
        }
        assert_eq!(Some(&message.to_vec()), inst.get_last_error_wrapped());
    }
}

#[test]
fn create_can_import_an_initial_state() {
    let init = GameInit::Standard {
        opts: Some(b"21 3".to_vec()),
        legacy: None,
        state: Some(b"B 9".to_vec()),
    };
    let (mut inst, status) = GameInstance::<Nim>::create_wrapped(
        GameFeatureFlags { options: true, print: true },
        &init,
    );
    assert!(matches!(status, CreateStatus::Created));
    assert_eq!(b"B 9\0".to_vec(), inst.export_state_wrapped().unwrap());
}

#[test]
fn serialized_creation_is_unsupported() {
    let init = GameInit::Serialized(vec![1, 2, 3]);
    let (_, status) = GameInstance::<Nim>::create_wrapped(
        GameFeatureFlags { options: true, print: true },
        &init,
    );
    match status {
        CreateStatus::Failed(e) => assert_eq!(ErrorCode::FeatureUnsupported, e.code),
        _ => panic!("creation from a serialization should fail"),
    }
}

#[test]
fn reference_scenario_counter_five() {
    // Maximum subtrahend three, counter five, mover A.
    let mut inst = create(b"5 3");

    assert_eq!(vec![1], inst.players_to_move_wrapped().unwrap());
    assert_eq!(vec![1, 2, 3], inst.get_concrete_moves_wrapped(1).unwrap());
    // The waiting player has no moves.
    assert_eq!(Vec::<u64>::new(), inst.get_concrete_moves_wrapped(2).unwrap());
    // No results yet.
    assert_eq!(Vec::<u8>::new(), inst.get_results_wrapped().unwrap());

    // Applying move three yields counter two, mover B.
    inst.is_legal_move_wrapped(1, 3).unwrap();
    inst.make_move_wrapped(1, 3).unwrap();
    assert_eq!(b"B 2\0".to_vec(), inst.export_state_wrapped().unwrap());
    assert_eq!(vec![2], inst.players_to_move_wrapped().unwrap());
    assert_eq!(vec![1, 2], inst.get_concrete_moves_wrapped(2).unwrap());

    // B empties the counter; the mover who did not just move is the sole
    // winner.
    inst.is_legal_move_wrapped(2, 2).unwrap();
    inst.make_move_wrapped(2, 2).unwrap();
    assert_eq!(b"A 0\0".to_vec(), inst.export_state_wrapped().unwrap());
    assert_eq!(Vec::<u8>::new(), inst.players_to_move_wrapped().unwrap());
    assert_eq!(vec![1], inst.get_results_wrapped().unwrap());
}

#[test]
fn illegal_moves_are_rejected() {
    let mut inst = create(b"5 3");
    // Subtracting zero, too much, or out of turn is invalid input.
    assert_eq!(
        ErrorCode::InvalidInput,
        inst.is_legal_move_wrapped(1, 0).unwrap_err().code
    );
    assert_eq!(
        ErrorCode::InvalidInput,
        inst.is_legal_move_wrapped(1, 4).unwrap_err().code
    );
    assert_eq!(
        Some(&b"can subtract at most 3".to_vec()),
        inst.get_last_error_wrapped()
    );
    assert_eq!(
        ErrorCode::InvalidInput,
        inst.is_legal_move_wrapped(2, 1).unwrap_err().code
    );

    // Near the end, the counter limits the move.
    inst.make_move_wrapped(1, 3).unwrap();
    assert_eq!(
        ErrorCode::InvalidInput,
        inst.is_legal_move_wrapped(2, 3).unwrap_err().code
    );
    assert_eq!(
        Some(&b"can subtract at most 2".to_vec()),
        inst.get_last_error_wrapped()
    );

    // On an empty counter the game is over.
    inst.make_move_wrapped(2, 2).unwrap();
    assert_eq!(
        ErrorCode::InvalidInput,
        inst.is_legal_move_wrapped(1, 1).unwrap_err().code
    );
    assert_eq!(
        Some(&b"game already over".to_vec()),
        inst.get_last_error_wrapped()
    );
}

#[test]
fn options_round_trip_reproduces_the_configuration() {
    let mut inst = create(b"21 3");
    let exported = inst.export_options_wrapped().unwrap();
    assert_eq!(b"21 3\0".to_vec(), exported);
    // A game created from the exported options declares the same
    // contract and the same starting state.
    let mut again = create(&exported[..exported.len() - 1]);
    assert!(inst.compare_wrapped(&again));
    assert_eq!(b"21 3\0".to_vec(), again.export_options_wrapped().unwrap());
}

#[test]
fn move_codec_round_trips() {
    let mut inst = create(b"21 3");
    assert_eq!(2, inst.get_move_code_wrapped(1, &b"2".to_vec()).unwrap());
    assert_eq!(b"2\0".to_vec(), inst.get_move_str_wrapped(1, 2).unwrap());
    let err = inst.get_move_code_wrapped(1, &b"4".to_vec()).unwrap_err();
    assert_eq!(ErrorCode::InvalidInput, err.code);
    let err = inst.get_move_code_wrapped(1, &b"x".to_vec()).unwrap_err();
    assert_eq!(ErrorCode::InvalidInput, err.code);
    let err = inst.get_move_str_wrapped(1, 4).unwrap_err();
    assert_eq!(ErrorCode::InvalidInput, err.code);
}
