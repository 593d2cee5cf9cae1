//! The capacity contract a game declares at creation, and its validator.
//!
//! The host reads these sizes to pre-allocate every buffer before a call;
//! the bridge creates each output buffer with exactly the declared
//! capacity.  Text sizes count the trailing terminator byte, so a declared
//! text size of `n` leaves room for `n - 1` content bytes.

use vstd::prelude::*;

verus! {

/// Per-field maximum sizes declared by the game logic at creation time.
///
/// Immutable after creation.  Every text size includes the slot for the
/// terminator byte.
#[derive(Clone, Copy, PartialEq, Eq, Structural, Debug)]
pub struct BufSizer {
    /// Maximum size of the exported options text.
    pub options_str: usize,
    /// Maximum size of the exported state text.
    pub state_str: usize,
    /// Number of players participating in the game.
    pub player_count: u8,
    /// Maximum number of players that move simultaneously.
    pub max_players_to_move: u8,
    /// Maximum number of concrete moves offered to one player.
    pub max_moves: u32,
    /// Maximum number of actions in one move.
    pub max_actions: u32,
    /// Maximum number of players listed in the results.
    pub max_results: u8,
    /// Maximum size of one encoded move text.
    pub move_str: usize,
    /// Maximum size of the human-readable rendering.
    pub print_str: usize,
}

/// Capability flags fixed at table-build time.
///
/// A set flag makes the corresponding optional entry point available to
/// the host and makes its capacity-contract field mandatory.
#[derive(Clone, Copy, PartialEq, Eq, Structural, Debug)]
pub struct GameFeatureFlags {
    /// The game can export its creation options as text.
    pub options: bool,
    /// The game can produce a human-readable rendering of its state.
    pub print: bool,
}

impl Default for GameFeatureFlags {
    /// All capabilities disabled.
    fn default() -> (r: Self)
        ensures
            !r.options,
            !r.print,
    {
        GameFeatureFlags { options: false, print: false }
    }
}

/// Every capacity `a` declares fits within what `b` declares.
pub open spec fn fits(a: BufSizer, b: BufSizer) -> bool {
    &&& a.options_str <= b.options_str
    &&& a.state_str <= b.state_str
    &&& a.player_count <= b.player_count
    &&& a.max_players_to_move <= b.max_players_to_move
    &&& a.max_moves <= b.max_moves
    &&& a.max_actions <= b.max_actions
    &&& a.max_results <= b.max_results
    &&& a.move_str <= b.move_str
    &&& a.print_str <= b.print_str
}

/// `fits` is transitive.
pub proof fn lemma_fits_trans(a: BufSizer, b: BufSizer, c: BufSizer)
    requires
        fits(a, b),
        fits(b, c),
    ensures
        fits(a, c),
{
}

/// The contract `sizer` is consistent with the enabled capabilities:
/// every text buffer whose entry point can be called has room for at
/// least its terminator byte.
pub open spec fn sizer_ok(sizer: BufSizer, features: GameFeatureFlags) -> bool {
    &&& features.options ==> sizer.options_str >= 1
    &&& sizer.state_str >= 1
    &&& sizer.move_str >= 1
    &&& features.print ==> sizer.print_str >= 1
}

/// Check a declared capacity contract against the enabled capabilities.
///
/// A `false` result is a configuration defect of the logic layer, raised
/// at instance creation, not a per-call error.
pub fn check_sizer(sizer: &BufSizer, features: &GameFeatureFlags) -> (r: bool)
    ensures
        r == sizer_ok(*sizer, *features),
{
    (!features.options || sizer.options_str >= 1) && sizer.state_str >= 1 && sizer.move_str >= 1
        && (!features.print || sizer.print_str >= 1)
}

/// Check that every capacity `a` declares fits within what `b` declares.
pub fn sizer_fits(a: &BufSizer, b: &BufSizer) -> (r: bool)
    ensures
        r == fits(*a, *b),
{
    a.options_str <= b.options_str && a.state_str <= b.state_str
        && a.player_count <= b.player_count && a.max_players_to_move <= b.max_players_to_move
        && a.max_moves <= b.max_moves && a.max_actions <= b.max_actions
        && a.max_results <= b.max_results && a.move_str <= b.move_str
        && a.print_str <= b.print_str
}

} // verus!
