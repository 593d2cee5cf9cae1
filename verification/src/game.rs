//! The operation set a game implements, and the creation request.
//!
//! [`GameMethods`] is the required core: every entry point of the dispatch
//! table that is always wired routes to one of these operations.  The
//! optional capabilities have their own traits ([`OptionsSupport`],
//! [`PrintSupport`]); an entry point for an optional operation exists only
//! when the game provides the matching trait, so a missing capability is a
//! compile-time absence, not a runtime failure.
//!
//! The contracts here are the bridge's side of the deal with every game:
//! buffers are only grown within the capacities the game itself declared,
//! exported text stays free of terminator bytes, and a failing operation
//! leaves the state untouched.

use vstd::prelude::*;

use crate::error::{Error, ErrorCode};
use crate::ptr_vec::{nul_free, PtrVec, StrBuf};
use crate::sizer::{fits, BufSizer};

verus! {

/// The byte view of an optional text argument.
pub open spec fn opt_bytes(string: Option<&Vec<u8>>) -> Option<Seq<u8>> {
    match string {
        None => None,
        Some(s) => Some(s@),
    }
}

/// How the host asks for a new game instance.
pub enum GameInit {
    /// Create the game with default options and default starting state.
    Default,
    /// Create the game from option text, and possibly an initial state.
    Standard {
        /// Option text configuring the game, if any.
        opts: Option<Vec<u8>>,
        /// Legacy identifier, if any.
        legacy: Option<Vec<u8>>,
        /// Initial state text to import after creation, if any.
        state: Option<Vec<u8>>,
    },
    /// Create the game from an opaque serialization.
    Serialized(Vec<u8>),
}

/// Required operation set of a game.
///
/// The two spec functions tie a game's state to the capacity contract it
/// declared: [`GameMethods::inv`] is the state's own invariant and
/// [`GameMethods::needed`] the capacities the state can currently fill.
/// Creation declares a contract the initial state fits; every mutation
/// keeps the needed capacities within what they were, so a stored contract
/// stays sufficient for the whole life of the instance.
pub trait GameMethods: Sized {
    /// Invariant of a well-formed game state.
    spec fn inv(&self) -> bool;

    /// The buffer capacities this state can currently fill.
    spec fn needed(&self) -> BufSizer;

    /// Whether `mov` may be applied for `player` in this state.
    spec fn can_make_move(&self, player: u8, mov: u64) -> bool;

    /// What creating the game from `init` results in: the state and its
    /// declared contract, or the code of the reported error.
    spec fn creation_of(init: GameInit) -> Result<(Self, BufSizer), ErrorCode>;

    /// The state a successful import of `string` leaves behind.
    spec fn after_import(&self, string: Option<Seq<u8>>) -> Self;

    /// The state a successful application of `mov` leaves behind.
    spec fn after_move(&self, player: u8, mov: u64) -> Self;

    /// The players that are to move in this state.
    spec fn movers_of(&self) -> Seq<u8>;

    /// The concrete moves available to `player` in this state.
    spec fn moves_of(&self, player: u8) -> Seq<u64>;

    /// The players that won in this state.
    spec fn winners_of(&self) -> Seq<u8>;

    /// The exported state text.
    spec fn state_text(&self) -> Seq<u8>;

    /// The textual encoding of `mov`.
    spec fn move_text(&self, player: u8, mov: u64) -> Seq<u8>;

    /// What decoding the move text `string` results in, when it succeeds.
    spec fn move_code_of(&self, player: u8, string: Seq<u8>) -> Option<u64>;

    /// Create the game data and declare its capacity contract.
    ///
    /// The outcome is exactly [`GameMethods::creation_of`]; a returned
    /// error carries the code that spec names.
    fn create(init: &GameInit) -> (r: Result<(Self, BufSizer), Error>)
        ensures
            r matches Ok((g, s)) ==> g.inv() && fits(g.needed(), s),
            ({
                match Self::creation_of(*init) {
                    Ok(p) => r matches Ok(q) && q.0 == p.0 && q.1 == p.1,
                    Err(c) => r matches Err(e) && e.code == c,
                }
            }),
    ;

    /// Duplicate the state; copying is total over well-formed states.
    fn clone_state(&self) -> (r: Self)
        requires
            self.inv(),
        ensures
            r == *self,
    ;

    /// Structural equality of two states.
    fn state_eq(&self, other: &Self) -> (r: bool)
        ensures
            r == (*self == *other),
    ;

    /// Overwrite this state in place from another one.
    fn copy_from(&mut self, other: &Self) -> (r: Result<(), Error>)
        requires
            old(self).inv(),
            other.inv(),
        ensures
            final(self).inv(),
            r is Ok ==> *final(self) == *other,
            r is Ok ==> fits(final(self).needed(), old(self).needed()),
            r is Err ==> *final(self) == *old(self),
    ;

    /// Replace the state according to the imported text, or reset it to
    /// the default state when no text is given.
    ///
    /// Malformed text is an error, never a contract violation, and a
    /// failing import leaves the state unchanged.
    fn import_state(&mut self, string: Option<&Vec<u8>>) -> (r: Result<(), Error>)
        requires
            old(self).inv(),
        ensures
            final(self).inv(),
            fits(final(self).needed(), old(self).needed()),
            r is Ok ==> *final(self) == old(self).after_import(opt_bytes(string)),
            r is Err ==> *final(self) == *old(self),
    ;

    /// Write the state as text into `str_buf`.
    fn export_state(&mut self, str_buf: &mut StrBuf) -> (r: Result<(), Error>)
        requires
            old(self).inv(),
            old(str_buf)@.len() == 0,
            old(str_buf).spec_capacity() + 1 >= old(self).needed().state_str,
        ensures
            *final(self) == *old(self),
            final(str_buf).spec_capacity() == old(str_buf).spec_capacity(),
            final(str_buf)@.len() <= final(str_buf).spec_capacity(),
            r is Ok ==> final(str_buf)@ == old(str_buf)@ + old(self).state_text(),
            r is Ok ==> nul_free(final(str_buf)@),
            r is Err ==> final(str_buf)@ == old(str_buf)@,
    ;

    /// List the players that are to move in this state.
    fn players_to_move(&mut self, players: &mut PtrVec<u8>) -> (r: Result<(), Error>)
        requires
            old(self).inv(),
            old(players)@.len() == 0,
            old(players).spec_capacity() >= old(self).needed().max_players_to_move,
        ensures
            *final(self) == *old(self),
            final(players).spec_capacity() == old(players).spec_capacity(),
            final(players)@.len() <= final(players).spec_capacity(),
            r is Ok ==> final(players)@ == old(players)@ + old(self).movers_of(),
            r is Err ==> final(players)@ == old(players)@,
    ;

    /// List the concrete moves available to `player` in this state.
    fn get_concrete_moves(&mut self, player: u8, moves: &mut PtrVec<u64>) -> (r: Result<
        (),
        Error,
    >)
        requires
            old(self).inv(),
            old(moves)@.len() == 0,
            old(moves).spec_capacity() >= old(self).needed().max_moves,
        ensures
            *final(self) == *old(self),
            final(moves).spec_capacity() == old(moves).spec_capacity(),
            final(moves)@.len() <= final(moves).spec_capacity(),
            r is Ok ==> final(moves)@ == old(moves)@ + old(self).moves_of(player),
            r is Err ==> final(moves)@ == old(moves)@,
    ;

    /// Check whether `mov` is legal for `player` in this state.
    ///
    /// Succeeds exactly when [`GameMethods::can_make_move`] holds, so a
    /// conforming game can neither certify an illegal move nor reject a
    /// legal one.
    fn is_legal_move(&mut self, player: u8, mov: u64) -> (r: Result<(), Error>)
        requires
            old(self).inv(),
        ensures
            *final(self) == *old(self),
            r is Ok <==> old(self).can_make_move(player, mov),
    ;

    /// Apply `mov` for `player`.
    ///
    /// Applying an illegal move is a defect of the caller and ruled out by
    /// the precondition; the host checks legality first.  A certified
    /// move always applies, and leaves the state
    /// [`GameMethods::after_move`] describes.
    fn make_move(&mut self, player: u8, mov: u64) -> (r: Result<(), Error>)
        requires
            old(self).inv(),
            old(self).can_make_move(player, mov),
        ensures
            final(self).inv(),
            fits(final(self).needed(), old(self).needed()),
            r is Ok,
            *final(self) == old(self).after_move(player, mov),
    ;

    /// List the players that won in this state.
    fn get_results(&mut self, players: &mut PtrVec<u8>) -> (r: Result<(), Error>)
        requires
            old(self).inv(),
            old(players)@.len() == 0,
            old(players).spec_capacity() >= old(self).needed().max_results,
        ensures
            *final(self) == *old(self),
            final(players).spec_capacity() == old(players).spec_capacity(),
            final(players)@.len() <= final(players).spec_capacity(),
            r is Ok ==> final(players)@ == old(players)@ + old(self).winners_of(),
            r is Err ==> final(players)@ == old(players)@,
    ;

    /// Decode a move from its textual encoding.
    fn get_move_code(&mut self, player: u8, string: &Vec<u8>) -> (r: Result<u64, Error>)
        requires
            old(self).inv(),
        ensures
            *final(self) == *old(self),
            r matches Ok(c) ==> old(self).move_code_of(player, string@) == Some(c),
    ;

    /// Write the textual encoding of `mov` into `str_buf`.
    fn get_move_str(&mut self, player: u8, mov: u64, str_buf: &mut StrBuf) -> (r: Result<
        (),
        Error,
    >)
        requires
            old(self).inv(),
            old(str_buf)@.len() == 0,
            old(str_buf).spec_capacity() + 1 >= old(self).needed().move_str,
        ensures
            *final(self) == *old(self),
            final(str_buf).spec_capacity() == old(str_buf).spec_capacity(),
            final(str_buf)@.len() <= final(str_buf).spec_capacity(),
            r is Ok ==> final(str_buf)@ == old(str_buf)@ + old(self).move_text(player, mov),
            r is Ok ==> nul_free(final(str_buf)@),
            r is Err ==> final(str_buf)@ == old(str_buf)@,
    ;
}

/// Optional capability: exporting the creation options as text.
pub trait OptionsSupport: GameMethods {
    /// The exported options text.
    spec fn options_text(&self) -> Seq<u8>;

    /// Write the options the game was created with into `str_buf`.
    fn export_options(&mut self, str_buf: &mut StrBuf) -> (r: Result<(), Error>)
        requires
            old(self).inv(),
            old(str_buf)@.len() == 0,
            old(str_buf).spec_capacity() + 1 >= old(self).needed().options_str,
        ensures
            *final(self) == *old(self),
            final(str_buf).spec_capacity() == old(str_buf).spec_capacity(),
            final(str_buf)@.len() <= final(str_buf).spec_capacity(),
            r is Ok ==> final(str_buf)@ == old(str_buf)@ + old(self).options_text(),
            r is Ok ==> nul_free(final(str_buf)@),
            r is Err ==> final(str_buf)@ == old(str_buf)@,
    ;
}

/// Optional capability: a human-readable rendering of the state.
pub trait PrintSupport: GameMethods {
    /// The human-readable rendering of the state.
    spec fn print_text(&self) -> Seq<u8>;

    /// Write a human-readable rendering of the state into `str_buf`.
    fn print(&mut self, str_buf: &mut StrBuf) -> (r: Result<(), Error>)
        requires
            old(self).inv(),
            old(str_buf)@.len() == 0,
            old(str_buf).spec_capacity() + 1 >= old(self).needed().print_str,
        ensures
            *final(self) == *old(self),
            final(str_buf).spec_capacity() == old(str_buf).spec_capacity(),
            final(str_buf)@.len() <= final(str_buf).spec_capacity(),
            r is Ok ==> final(str_buf)@ == old(str_buf)@ + old(self).print_text(),
            r is Ok ==> nul_free(final(str_buf)@),
            r is Err ==> final(str_buf)@ == old(str_buf)@,
    ;
}

} // verus!
