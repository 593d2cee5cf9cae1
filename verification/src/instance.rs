//! Per-instance state envelope and the entry-point shims.
//!
//! One [`GameInstance`] stands behind each opaque instance the host holds.
//! It owns the game state and the instance's error channel, created
//! together and destroyed together.  Every host operation routes through
//! one of the `*_wrapped` shims: the shim builds the output buffers with
//! exactly the declared capacities, invokes the game operation, appends
//! the terminator to successful text results, and stores the error of a
//! failing operation in the channel — success never clears the channel.

use vstd::prelude::*;

use crate::error::{Error, ErrorString};
use crate::game::{opt_bytes, GameInit, GameMethods, OptionsSupport, PrintSupport};
use crate::ptr_vec::{nul_free, PtrVec, StrBuf};
use crate::sizer::{fits, lemma_fits_trans, sizer_ok, check_sizer, BufSizer, GameFeatureFlags};

verus! {

/// Outcome of creating an instance.
pub enum CreateStatus {
    /// The game data was created and the capacity contract validated.
    Created,
    /// The game logic reported an error; the envelope still exists and
    /// its error channel holds the message.
    Failed(Error),
    /// The declared capacity contract is inconsistent with the enabled
    /// capabilities.  This is an unrecoverable configuration defect of
    /// the logic layer, not a runtime condition; the host must not use
    /// the instance.
    SizerViolation,
}

/// The state envelope behind one opaque host-visible instance.
///
/// Owns the game state and the error channel; holds the validated
/// capacity contract and the capability flags of the table the instance
/// was created through.  After destruction the state slot is the sentinel
/// empty value, which makes accidental reuse detectable.
pub struct GameInstance<G> {
    state: Option<G>,
    error: ErrorString,
    sizer: BufSizer,
    features: GameFeatureFlags,
}

impl<G: GameMethods> GameInstance<G> {
    /// The game state, or `None` after destruction or a failed creation.
    pub closed spec fn spec_state(&self) -> Option<G> {
        self.state
    }

    /// The stored error channel content.
    pub closed spec fn spec_error(&self) -> ErrorString {
        self.error
    }

    /// The validated capacity contract.
    pub closed spec fn spec_sizer(&self) -> BufSizer {
        self.sizer
    }

    /// The capability flags of the table this instance belongs to.
    pub closed spec fn spec_features(&self) -> GameFeatureFlags {
        self.features
    }

    /// The instance holds a live game state.
    pub open spec fn is_alive(&self) -> bool {
        self.spec_state() is Some
    }

    /// The live state.
    pub open spec fn state_value(&self) -> G
        recommends
            self.is_alive(),
    {
        self.spec_state()->Some_0
    }

    /// Envelope invariant: a live state is well formed, its needed
    /// capacities fit the stored contract, and the contract is consistent
    /// with the enabled capabilities.
    pub open spec fn wf(&self) -> bool {
        self.is_alive() ==> {
            &&& self.state_value().inv()
            &&& fits(self.state_value().needed(), self.spec_sizer())
            &&& sizer_ok(self.spec_sizer(), self.spec_features())
        }
    }

    /// Exposes whether the state slot holds the sentinel empty value, as
    /// left behind by [`Self::destroy_wrapped()`].
    pub fn is_destroyed(&self) -> (r: bool)
        ensures
            r == !self.is_alive(),
    {
        self.state.is_none()
    }

    /// Create an envelope and game instance.
    ///
    /// The error channel exists before the game factory runs, so even a
    /// failing creation leaves error retrieval well-defined.  On success
    /// the declared capacity contract is validated against the enabled
    /// capabilities and stored; on failure the state slot stays at the
    /// sentinel empty value.
    pub fn create_wrapped(features: GameFeatureFlags, init: &GameInit) -> (r: (
        GameInstance<G>,
        CreateStatus,
    ))
        ensures
            r.0.wf(),
            r.0.spec_features() == features,
            r.0.is_alive() <==> r.1 is Created,
            r.1 is Created ==> r.0.spec_error() is Absent && sizer_ok(r.0.spec_sizer(), features),
            r.1 matches CreateStatus::Failed(e) ==> r.0.spec_error()@ == e.message@,
            r.1 is SizerViolation ==> r.0.spec_error() is Absent,
            ({
                match G::creation_of(*init) {
                    Ok(p) => {
                        if sizer_ok(p.1, features) {
                            &&& r.1 is Created
                            &&& r.0.spec_state() == Some(p.0)
                            &&& r.0.spec_sizer() == p.1
                        } else {
                            r.1 is SizerViolation
                        }
                    },
                    Err(c) => r.1 matches CreateStatus::Failed(e) && e.code == c,
                }
            }),
    {
        let mut inst = GameInstance::<G> {
            state: None,
            error: ErrorString::Absent,
            sizer: BufSizer {
                options_str: 0,
                state_str: 0,
                player_count: 0,
                max_players_to_move: 0,
                max_moves: 0,
                max_actions: 0,
                max_results: 0,
                move_str: 0,
                print_str: 0,
            },
            features,
        };
        match G::create(init) {
            Ok((g, sizer)) => {
                if check_sizer(&sizer, &features) {
                    inst.sizer = sizer;
                    inst.state = Some(g);
                    (inst, CreateStatus::Created)
                } else {
                    (inst, CreateStatus::SizerViolation)
                }
            },
            Err(e) => {
                inst.error = clone_error_string(&e.message);
                (inst, CreateStatus::Failed(e))
            },
        }
    }

    /// Drop the game state and free the error channel.
    ///
    /// The state slot is reset to the sentinel empty value so that reuse
    /// of a destroyed instance is observably wrong instead of silently
    /// corrupting memory.
    pub fn destroy_wrapped(&mut self)
        ensures
            final(self).wf(),
            !final(self).is_alive(),
            final(self).spec_error() is Absent,
    {
        self.state = None;
        self.error = ErrorString::Absent;
    }

    /// Duplicate this instance into an independent envelope.
    ///
    /// The clone carries the same state, contract and capabilities, and a
    /// fresh, empty error channel.  Cloning never fails once the source
    /// state is valid.
    pub fn clone_wrapped(&self) -> (r: GameInstance<G>)
        requires
            self.wf(),
            self.is_alive(),
        ensures
            r.wf(),
            r.is_alive(),
            r.spec_state() == self.spec_state(),
            r.spec_error() is Absent,
            r.spec_sizer() == self.spec_sizer(),
            r.spec_features() == self.spec_features(),
    {
        match &self.state {
            Some(g) => GameInstance {
                state: Some(g.clone_state()),
                error: ErrorString::Absent,
                sizer: self.sizer,
                features: self.features,
            },
            None => unreached(),
        }
    }

    /// Overwrite this instance's state in place from another instance.
    ///
    /// Each envelope keeps its own error channel; a failing copy stores
    /// its error here and leaves the state unchanged.
    pub fn copy_from_wrapped(&mut self, other: &GameInstance<G>) -> (r: Result<(), Error>)
        requires
            old(self).wf(),
            old(self).is_alive(),
            other.wf(),
            other.is_alive(),
        ensures
            final(self).wf(),
            final(self).is_alive(),
            final(self).spec_sizer() == old(self).spec_sizer(),
            final(self).spec_features() == old(self).spec_features(),
            r is Ok ==> final(self).spec_state() == other.spec_state(),
            r is Ok ==> final(self).spec_error() == old(self).spec_error(),
            r matches Err(e) ==> {
                &&& final(self).spec_error()@ == e.message@
                &&& final(self).spec_state() == old(self).spec_state()
            },
    {
        let result = match &mut self.state {
            Some(g) => match &other.state {
                Some(og) => g.copy_from(og),
                None => unreached(),
            },
            None => unreached(),
        };
        proof {
            if result is Ok {
                lemma_fits_trans(
                    self.state_value().needed(),
                    old(self).state_value().needed(),
                    self.spec_sizer(),
                );
            }
        }
        match result {
            Ok(()) => Ok(()),
            Err(e) => {
                self.error = clone_error_string(&e.message);
                Err(e)
            },
        }
    }

    /// Structural comparison of two instances' states.
    pub fn compare_wrapped(&self, other: &GameInstance<G>) -> (r: bool)
        requires
            self.is_alive(),
            other.is_alive(),
        ensures
            r == (self.spec_state() == other.spec_state()),
    {
        match (&self.state, &other.state) {
            (Some(g), Some(og)) => g.state_eq(og),
            _ => unreached(),
        }
    }

    /// Import a state from text, or reset to the default state.
    ///
    /// Malformed text is reported as an error with the state unchanged.
    pub fn import_state_wrapped(&mut self, string: Option<&Vec<u8>>) -> (r: Result<(), Error>)
        requires
            old(self).wf(),
            old(self).is_alive(),
        ensures
            final(self).wf(),
            final(self).is_alive(),
            final(self).spec_sizer() == old(self).spec_sizer(),
            final(self).spec_features() == old(self).spec_features(),
            r is Ok ==> final(self).spec_state() == Some(
                old(self).state_value().after_import(opt_bytes(string)),
            ),
            r is Ok ==> final(self).spec_error() == old(self).spec_error(),
            r matches Err(e) ==> {
                &&& final(self).spec_error()@ == e.message@
                &&& final(self).spec_state() == old(self).spec_state()
            },
    {
        let result = match &mut self.state {
            Some(g) => g.import_state(string),
            None => unreached(),
        };
        proof {
            lemma_fits_trans(
                self.state_value().needed(),
                old(self).state_value().needed(),
                self.spec_sizer(),
            );
        }
        match result {
            Ok(()) => Ok(()),
            Err(e) => {
                self.error = clone_error_string(&e.message);
                Err(e)
            },
        }
    }

    /// Export the state as text.
    ///
    /// On success the result is the written content followed by one
    /// terminator byte; its total size never exceeds the declared state
    /// text size.
    pub fn export_state_wrapped(&mut self) -> (r: Result<Vec<u8>, Error>)
        requires
            old(self).wf(),
            old(self).is_alive(),
        ensures
            final(self).wf(),
            final(self).spec_state() == old(self).spec_state(),
            final(self).spec_sizer() == old(self).spec_sizer(),
            final(self).spec_features() == old(self).spec_features(),
            r matches Ok(v) ==> {
                &&& final(self).spec_error() == old(self).spec_error()
                &&& v@ == old(self).state_value().state_text() + seq![0u8]
                &&& 1 <= v@.len() <= final(self).spec_sizer().state_str
                &&& v@[v@.len() - 1] == 0
                &&& nul_free(v@.subrange(0, v@.len() - 1))
            },
            r matches Err(e) ==> final(self).spec_error()@ == e.message@,
    {
        let cap = self.sizer.state_str - 1;
        let mut buf = StrBuf::new(cap);
        let result = match &mut self.state {
            Some(g) => g.export_state(&mut buf),
            None => unreached(),
        };
        match result {
            Ok(()) => {
                let mut v = buf.into_vec();
                v.push(0);
                proof {
                    assert(v@.subrange(0, v@.len() - 1) =~= v@.drop_last());
                    assert(v@ =~= old(self).state_value().state_text() + seq![0u8]);
                }
                Ok(v)
            },
            Err(e) => {
                self.error = clone_error_string(&e.message);
                Err(e)
            },
        }
    }

    /// List the players that are to move.
    pub fn players_to_move_wrapped(&mut self) -> (r: Result<Vec<u8>, Error>)
        requires
            old(self).wf(),
            old(self).is_alive(),
        ensures
            final(self).wf(),
            final(self).spec_state() == old(self).spec_state(),
            final(self).spec_sizer() == old(self).spec_sizer(),
            final(self).spec_features() == old(self).spec_features(),
            r matches Ok(v) ==> {
                &&& final(self).spec_error() == old(self).spec_error()
                &&& v@ == old(self).state_value().movers_of()
                &&& v@.len() <= final(self).spec_sizer().max_players_to_move
            },
            r matches Err(e) ==> final(self).spec_error()@ == e.message@,
    {
        let mut players = PtrVec::<u8>::new(self.sizer.max_players_to_move as usize);
        let result = match &mut self.state {
            Some(g) => g.players_to_move(&mut players),
            None => unreached(),
        };
        match result {
            Ok(()) => {
                let v = players.into_vec();
                proof {
                    assert(v@ =~= old(self).state_value().movers_of());
                }
                Ok(v)
            },
            Err(e) => {
                self.error = clone_error_string(&e.message);
                Err(e)
            },
        }
    }

    /// List the concrete moves available to `player`.
    pub fn get_concrete_moves_wrapped(&mut self, player: u8) -> (r: Result<Vec<u64>, Error>)
        requires
            old(self).wf(),
            old(self).is_alive(),
        ensures
            final(self).wf(),
            final(self).spec_state() == old(self).spec_state(),
            final(self).spec_sizer() == old(self).spec_sizer(),
            final(self).spec_features() == old(self).spec_features(),
            r matches Ok(v) ==> {
                &&& final(self).spec_error() == old(self).spec_error()
                &&& v@ == old(self).state_value().moves_of(player)
                &&& v@.len() <= final(self).spec_sizer().max_moves
            },
            r matches Err(e) ==> final(self).spec_error()@ == e.message@,
    {
        let mut moves = PtrVec::<u64>::new(self.sizer.max_moves as usize);
        let result = match &mut self.state {
            Some(g) => g.get_concrete_moves(player, &mut moves),
            None => unreached(),
        };
        match result {
            Ok(()) => {
                let v = moves.into_vec();
                proof {
                    assert(v@ =~= old(self).state_value().moves_of(player));
                }
                Ok(v)
            },
            Err(e) => {
                self.error = clone_error_string(&e.message);
                Err(e)
            },
        }
    }

    /// Check whether `mov` is legal for `player`.
    ///
    /// A success certifies that the move may be applied with
    /// [`Self::make_move_wrapped()`].
    pub fn is_legal_move_wrapped(&mut self, player: u8, mov: u64) -> (r: Result<(), Error>)
        requires
            old(self).wf(),
            old(self).is_alive(),
        ensures
            final(self).wf(),
            final(self).spec_state() == old(self).spec_state(),
            final(self).spec_sizer() == old(self).spec_sizer(),
            final(self).spec_features() == old(self).spec_features(),
            r is Ok <==> old(self).state_value().can_make_move(player, mov),
            r is Ok ==> final(self).spec_error() == old(self).spec_error(),
            r matches Err(e) ==> final(self).spec_error()@ == e.message@,
    {
        let result = match &mut self.state {
            Some(g) => g.is_legal_move(player, mov),
            None => unreached(),
        };
        match result {
            Ok(()) => Ok(()),
            Err(e) => {
                self.error = clone_error_string(&e.message);
                Err(e)
            },
        }
    }

    /// Apply `mov` for `player`.
    ///
    /// Applying a move that is not certified legal is a defect of the
    /// host and ruled out by the precondition.
    pub fn make_move_wrapped(&mut self, player: u8, mov: u64) -> (r: Result<(), Error>)
        requires
            old(self).wf(),
            old(self).is_alive(),
            old(self).state_value().can_make_move(player, mov),
        ensures
            final(self).wf(),
            final(self).is_alive(),
            final(self).spec_sizer() == old(self).spec_sizer(),
            final(self).spec_features() == old(self).spec_features(),
            r is Ok,
            final(self).spec_state() == Some(
                old(self).state_value().after_move(player, mov),
            ),
            final(self).spec_error() == old(self).spec_error(),
    {
        let result = match &mut self.state {
            Some(g) => g.make_move(player, mov),
            None => unreached(),
        };
        proof {
            lemma_fits_trans(
                self.state_value().needed(),
                old(self).state_value().needed(),
                self.spec_sizer(),
            );
        }
        match result {
            Ok(()) => Ok(()),
            Err(_) => unreached(),
        }
    }

    /// List the players that won.
    pub fn get_results_wrapped(&mut self) -> (r: Result<Vec<u8>, Error>)
        requires
            old(self).wf(),
            old(self).is_alive(),
        ensures
            final(self).wf(),
            final(self).spec_state() == old(self).spec_state(),
            final(self).spec_sizer() == old(self).spec_sizer(),
            final(self).spec_features() == old(self).spec_features(),
            r matches Ok(v) ==> {
                &&& final(self).spec_error() == old(self).spec_error()
                &&& v@ == old(self).state_value().winners_of()
                &&& v@.len() <= final(self).spec_sizer().max_results
            },
            r matches Err(e) ==> final(self).spec_error()@ == e.message@,
    {
        let mut players = PtrVec::<u8>::new(self.sizer.max_results as usize);
        let result = match &mut self.state {
            Some(g) => g.get_results(&mut players),
            None => unreached(),
        };
        match result {
            Ok(()) => {
                let v = players.into_vec();
                proof {
                    assert(v@ =~= old(self).state_value().winners_of());
                }
                Ok(v)
            },
            Err(e) => {
                self.error = clone_error_string(&e.message);
                Err(e)
            },
        }
    }

    /// Decode a move from its textual encoding.
    pub fn get_move_code_wrapped(&mut self, player: u8, string: &Vec<u8>) -> (r: Result<
        u64,
        Error,
    >)
        requires
            old(self).wf(),
            old(self).is_alive(),
        ensures
            final(self).wf(),
            final(self).spec_state() == old(self).spec_state(),
            final(self).spec_sizer() == old(self).spec_sizer(),
            final(self).spec_features() == old(self).spec_features(),
            r matches Ok(c) ==> old(self).state_value().move_code_of(player, string@) == Some(c),
            r is Ok ==> final(self).spec_error() == old(self).spec_error(),
            r matches Err(e) ==> final(self).spec_error()@ == e.message@,
    {
        let result = match &mut self.state {
            Some(g) => g.get_move_code(player, string),
            None => unreached(),
        };
        match result {
            Ok(mov) => Ok(mov),
            Err(e) => {
                self.error = clone_error_string(&e.message);
                Err(e)
            },
        }
    }

    /// Encode `mov` as text.
    ///
    /// On success the result is the written content followed by one
    /// terminator byte, within the declared move text size.
    pub fn get_move_str_wrapped(&mut self, player: u8, mov: u64) -> (r: Result<Vec<u8>, Error>)
        requires
            old(self).wf(),
            old(self).is_alive(),
        ensures
            final(self).wf(),
            final(self).spec_state() == old(self).spec_state(),
            final(self).spec_sizer() == old(self).spec_sizer(),
            final(self).spec_features() == old(self).spec_features(),
            r matches Ok(v) ==> {
                &&& final(self).spec_error() == old(self).spec_error()
                &&& v@ == old(self).state_value().move_text(player, mov) + seq![0u8]
                &&& 1 <= v@.len() <= final(self).spec_sizer().move_str
                &&& v@[v@.len() - 1] == 0
                &&& nul_free(v@.subrange(0, v@.len() - 1))
            },
            r matches Err(e) ==> final(self).spec_error()@ == e.message@,
    {
        let cap = self.sizer.move_str - 1;
        let mut buf = StrBuf::new(cap);
        let result = match &mut self.state {
            Some(g) => g.get_move_str(player, mov, &mut buf),
            None => unreached(),
        };
        match result {
            Ok(()) => {
                let mut v = buf.into_vec();
                v.push(0);
                proof {
                    assert(v@.subrange(0, v@.len() - 1) =~= v@.drop_last());
                    assert(v@ =~= old(self).state_value().move_text(player, mov) + seq![0u8]);
                }
                Ok(v)
            },
            Err(e) => {
                self.error = clone_error_string(&e.message);
                Err(e)
            },
        }
    }

    /// The last stored error message, or the absent marker.
    ///
    /// Read-only and side-effect-free; the message is only overwritten by
    /// the next failing operation, never cleared by success.
    pub fn get_last_error_wrapped(&self) -> (r: Option<&Vec<u8>>)
        ensures
            match r {
                Some(v) => self.spec_error()@ == Some(v@),
                None => self.spec_error() is Absent,
            },
    {
        match &self.error {
            ErrorString::Absent => None,
            ErrorString::Text(v) => Some(v),
        }
    }
}

impl<G: OptionsSupport> GameInstance<G> {
    /// Export the creation options as text.
    ///
    /// Only available when the `options` capability was enabled at
    /// table-build time.
    pub fn export_options_wrapped(&mut self) -> (r: Result<Vec<u8>, Error>)
        requires
            old(self).wf(),
            old(self).is_alive(),
            old(self).spec_features().options,
        ensures
            final(self).wf(),
            final(self).spec_state() == old(self).spec_state(),
            final(self).spec_sizer() == old(self).spec_sizer(),
            final(self).spec_features() == old(self).spec_features(),
            r matches Ok(v) ==> {
                &&& final(self).spec_error() == old(self).spec_error()
                &&& v@ == old(self).state_value().options_text() + seq![0u8]
                &&& 1 <= v@.len() <= final(self).spec_sizer().options_str
                &&& v@[v@.len() - 1] == 0
                &&& nul_free(v@.subrange(0, v@.len() - 1))
            },
            r matches Err(e) ==> final(self).spec_error()@ == e.message@,
    {
        let cap = self.sizer.options_str - 1;
        let mut buf = StrBuf::new(cap);
        let result = match &mut self.state {
            Some(g) => g.export_options(&mut buf),
            None => unreached(),
        };
        match result {
            Ok(()) => {
                let mut v = buf.into_vec();
                v.push(0);
                proof {
                    assert(v@.subrange(0, v@.len() - 1) =~= v@.drop_last());
                    assert(v@ =~= old(self).state_value().options_text() + seq![0u8]);
                }
                Ok(v)
            },
            Err(e) => {
                self.error = clone_error_string(&e.message);
                Err(e)
            },
        }
    }
}

impl<G: PrintSupport> GameInstance<G> {
    /// Produce the human-readable rendering of the state.
    ///
    /// Only available when the `print` capability was enabled at
    /// table-build time.
    pub fn print_wrapped(&mut self) -> (r: Result<Vec<u8>, Error>)
        requires
            old(self).wf(),
            old(self).is_alive(),
            old(self).spec_features().print,
        ensures
            final(self).wf(),
            final(self).spec_state() == old(self).spec_state(),
            final(self).spec_sizer() == old(self).spec_sizer(),
            final(self).spec_features() == old(self).spec_features(),
            r matches Ok(v) ==> {
                &&& final(self).spec_error() == old(self).spec_error()
                &&& v@ == old(self).state_value().print_text() + seq![0u8]
                &&& 1 <= v@.len() <= final(self).spec_sizer().print_str
                &&& v@[v@.len() - 1] == 0
                &&& nul_free(v@.subrange(0, v@.len() - 1))
            },
            r matches Err(e) ==> final(self).spec_error()@ == e.message@,
    {
        let cap = self.sizer.print_str - 1;
        let mut buf = StrBuf::new(cap);
        let result = match &mut self.state {
            Some(g) => g.print(&mut buf),
            None => unreached(),
        };
        match result {
            Ok(()) => {
                let mut v = buf.into_vec();
                v.push(0);
                proof {
                    assert(v@.subrange(0, v@.len() - 1) =~= v@.drop_last());
                    assert(v@ =~= old(self).state_value().print_text() + seq![0u8]);
                }
                Ok(v)
            },
            Err(e) => {
                self.error = clone_error_string(&e.message);
                Err(e)
            },
        }
    }
}

/// Duplicate an error message for storage in the channel.
fn clone_error_string(e: &ErrorString) -> (r: ErrorString)
    ensures
        r@ == e@,
{
    match e {
        ErrorString::Absent => ErrorString::Absent,
        ErrorString::Text(v) => {
            let n = v.len();
            let mut c: Vec<u8> = Vec::new();
            let mut i: usize = 0;
            while i < n
                invariant
                    i <= n,
                    n == v@.len(),
                    c@ == v@.subrange(0, i as int),
                decreases n - i,
            {
                c.push(v[i]);
                i += 1;
                proof {
                    assert(c@ =~= v@.subrange(0, i as int));
                }
            }
            proof {
                assert(v@.subrange(0, n as int) =~= v@);
            }
            ErrorString::Text(c)
        },
    }
}

} // verus!
