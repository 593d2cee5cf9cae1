//! The dispatch-table description handed to the host.
//!
//! The host consumes a fixed-layout table: static metadata plus one slot
//! per operation, where an absent slot signals "unsupported".  The builder
//! wires every unconditional operation and wires an optional operation
//! only when its capability flag is set.

use vstd::prelude::*;

use crate::game::GameMethods;
use crate::sizer::GameFeatureFlags;

verus! {

/// A semantic version.
#[derive(Clone, Copy, PartialEq, Eq, Structural, Debug)]
pub struct SemVer {
    pub major: u32,
    pub minor: u32,
    pub patch: u32,
}

/// Non-function members of a dispatch table.
pub struct Metadata {
    /// Display name of the game.
    pub game_name: String,
    /// Name of the game variant.
    pub variant_name: String,
    /// Name of this implementation.
    pub impl_name: String,
    /// Version of this implementation.
    pub version: SemVer,
    /// Capabilities the game supports.
    pub features: GameFeatureFlags,
}

/// The fixed-layout table of entry points the host consumes.
///
/// Each `bool` slot records whether the corresponding entry point is
/// wired; an unwired slot tells the host the operation is unsupported.
pub struct GameMethodsTable {
    /// Display name of the game.
    pub game_name: String,
    /// Name of the game variant.
    pub variant_name: String,
    /// Name of this implementation.
    pub impl_name: String,
    /// Version of this implementation.
    pub version: SemVer,
    /// Capabilities the game supports.
    pub features: GameFeatureFlags,
    /// Error-message retrieval; always wired.
    pub get_last_error: bool,
    /// Instance creation; always wired.
    pub create: bool,
    /// Options export; wired only with the `options` capability.
    pub export_options: bool,
    /// Instance destruction; always wired.
    pub destroy: bool,
    /// Instance duplication; always wired.
    pub clone: bool,
    /// In-place state copy; always wired.
    pub copy_from: bool,
    /// State comparison; always wired.
    pub compare: bool,
    /// State import; always wired.
    pub import_state: bool,
    /// State export; always wired.
    pub export_state: bool,
    /// Listing the players to move; always wired.
    pub players_to_move: bool,
    /// Listing the concrete moves; always wired.
    pub get_concrete_moves: bool,
    /// Move legality check; always wired.
    pub is_legal_move: bool,
    /// Move application; always wired.
    pub make_move: bool,
    /// Listing the results; always wired.
    pub get_results: bool,
    /// Move decoding; always wired.
    pub get_move_code: bool,
    /// Move encoding; always wired.
    pub get_move_str: bool,
    /// Human-readable rendering; wired only with the `print` capability.
    pub print: bool,
}

/// Build the dispatch table for game `G` from `metadata`.
///
/// Every unconditional entry point is wired; an optional entry point is
/// wired exactly when its capability flag is set, and left absent
/// otherwise rather than wired to a stub.
pub fn create_game_methods<G: GameMethods>(metadata: Metadata) -> (t: GameMethodsTable)
    ensures
        t.game_name@ == metadata.game_name@,
        t.variant_name@ == metadata.variant_name@,
        t.impl_name@ == metadata.impl_name@,
        t.version == metadata.version,
        t.features == metadata.features,
        t.get_last_error && t.create && t.destroy && t.clone && t.copy_from && t.compare,
        t.import_state && t.export_state && t.players_to_move && t.get_concrete_moves,
        t.is_legal_move && t.make_move && t.get_results && t.get_move_code && t.get_move_str,
        t.export_options == metadata.features.options,
        t.print == metadata.features.print,
{
    GameMethodsTable {
        game_name: metadata.game_name,
        variant_name: metadata.variant_name,
        impl_name: metadata.impl_name,
        version: metadata.version,
        features: metadata.features,
        get_last_error: true,
        create: true,
        export_options: metadata.features.options,
        destroy: true,
        clone: true,
        copy_from: true,
        compare: true,
        import_state: true,
        export_state: true,
        players_to_move: true,
        get_concrete_moves: true,
        is_legal_move: true,
        make_move: true,
        get_results: true,
        get_move_code: true,
        get_move_str: true,
        print: metadata.features.print,
    }
}

} // verus!
