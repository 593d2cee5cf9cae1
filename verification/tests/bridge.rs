//! Tests for the state envelope, the error channel, and the dispatch
//! table, driven through the reference game.

use surena_game::error::ErrorCode;
use surena_game::game::GameInit;
use surena_game::instance::{CreateStatus, GameInstance};
use surena_game::nim::{example_game_methods, Nim};
use surena_game::sizer::GameFeatureFlags;
use surena_game::table::{create_game_methods, Metadata, SemVer};

fn features() -> GameFeatureFlags {
    GameFeatureFlags { options: true, print: true }
}

fn create_default() -> GameInstance<Nim> {
    let (inst, status) = GameInstance::<Nim>::create_wrapped(features(), &GameInit::Default);
    assert!(matches!(status, CreateStatus::Created));
    inst
}

fn create_with_opts(opts: &[u8]) -> (GameInstance<Nim>, CreateStatus) {
    let init = GameInit::Standard {
        opts: Some(opts.to_vec()),
        legacy: None,
        state: None,
    };
    GameInstance::<Nim>::create_wrapped(features(), &init)
}

#[test]
fn fresh_instance_has_no_stored_message() {
    let inst = create_default();
    assert!(!inst.is_destroyed());
    assert_eq!(None, inst.get_last_error_wrapped());
}

#[test]
fn error_channel_stores_message_and_success_never_clears_it() {
    let mut inst = create_default();
    assert_eq!(None, inst.get_last_error_wrapped());

    // A failing operation stores its message and returns invalid input.
    let err = inst
        .import_state_wrapped(Some(&b"C 5".to_vec()))
        .unwrap_err();
    assert_eq!(ErrorCode::InvalidInput, err.code);
    assert_eq!(
        Some(&b"invalid player code".to_vec()),
        inst.get_last_error_wrapped()
    );

    // A subsequent successful operation leaves the message unchanged.
    assert!(inst.export_state_wrapped().is_ok());
    assert!(inst.import_state_wrapped(Some(&b"B 7".to_vec())).is_ok());
    assert_eq!(
        Some(&b"invalid player code".to_vec()),
        inst.get_last_error_wrapped()
    );

    // Only the next failing operation overwrites it.
    let err = inst.import_state_wrapped(Some(&b"A".to_vec())).unwrap_err();
    assert_eq!(ErrorCode::InvalidInput, err.code);
    assert_eq!(
        Some(&b"missing counter value".to_vec()),
        inst.get_last_error_wrapped()
    );
}

#[test]
fn failing_create_keeps_error_retrievable() {
    let (inst, status) = create_with_opts(b"21 0");
    match status {
        CreateStatus::Failed(e) => assert_eq!(ErrorCode::InvalidOptions, e.code),
        _ => panic!("creation should fail on a zero subtrahend"),
    }
    assert!(inst.is_destroyed());
    assert_eq!(
        Some(&b"maximum subtrahend is zero".to_vec()),
        inst.get_last_error_wrapped()
    );
}

#[test]
fn destroy_resets_state_to_the_sentinel() {
    let mut inst = create_default();
    assert!(!inst.is_destroyed());
    inst.destroy_wrapped();
    assert!(inst.is_destroyed());
    assert_eq!(None, inst.get_last_error_wrapped());
}

#[test]
fn clone_is_equal_and_independent() {
    let mut inst = create_default();
    inst.make_move_wrapped(1, 2).unwrap();
    let mut copy = inst.clone_wrapped();
    assert_eq!(None, copy.get_last_error_wrapped());
    assert!(inst.compare_wrapped(&copy));

    // Moving on in the clone does not touch the source.
    copy.make_move_wrapped(2, 1).unwrap();
    assert!(!inst.compare_wrapped(&copy));
    assert_eq!(b"B 19\0".to_vec(), inst.export_state_wrapped().unwrap());
    assert_eq!(b"A 18\0".to_vec(), copy.export_state_wrapped().unwrap());
}

#[test]
fn copy_from_overwrites_state_and_keeps_own_channel() {
    let mut a = create_default();
    let mut b = create_default();
    let err = b.import_state_wrapped(Some(&b"x".to_vec())).unwrap_err();
    assert_eq!(ErrorCode::InvalidInput, err.code);

    a.make_move_wrapped(1, 3).unwrap();
    b.copy_from_wrapped(&a).unwrap();
    assert!(a.compare_wrapped(&b));
    // Each envelope keeps its own error channel.
    assert!(b.get_last_error_wrapped().is_some());
    assert_eq!(None, a.get_last_error_wrapped());
}

#[test]
fn copy_from_rejects_an_incompatible_configuration() {
    let (mut small, status) = create_with_opts(b"21 3");
    assert!(matches!(status, CreateStatus::Created));
    let (mut big, status) = create_with_opts(b"100 3");
    assert!(matches!(status, CreateStatus::Created));

    // The bigger game's texts would not fit the smaller declared sizes.
    let err = small.copy_from_wrapped(&big).unwrap_err();
    assert_eq!(ErrorCode::InvalidInput, err.code);
    // The other way around there is room.
    big.copy_from_wrapped(&small).unwrap();
    assert!(big.compare_wrapped(&small));
}

#[test]
fn optional_entry_points_follow_the_capability_flags() {
    let metadata = Metadata {
        game_name: "Nim".to_owned(),
        variant_name: "Standard".to_owned(),
        impl_name: "surena_game_rs".to_owned(),
        version: SemVer { major: 0, minor: 1, patch: 0 },
        features: GameFeatureFlags { options: false, print: true },
    };
    let table = create_game_methods::<Nim>(metadata);
    assert!(!table.export_options);
    assert!(table.print);
    assert!(table.create && table.destroy && table.clone && table.compare);
    assert!(table.import_state && table.export_state && table.get_last_error);
    assert_eq!("Nim", table.game_name);
    assert_eq!(0, table.version.major);
    assert_eq!(1, table.version.minor);
}

#[test]
fn example_table_enables_options_and_print() {
    let table = example_game_methods();
    assert!(table.features.options && table.features.print);
    assert!(table.export_options && table.print);
    assert_eq!("Nim", table.game_name);
    assert_eq!("Standard", table.variant_name);
    assert_eq!("surena_game_rs", table.impl_name);
}

#[test]
fn export_options_and_print_through_the_bridge() {
    let mut inst = create_default();
    assert_eq!(b"21 3\0".to_vec(), inst.export_options_wrapped().unwrap());
    assert_eq!(b"A 21\n\0".to_vec(), inst.print_wrapped().unwrap());
}
