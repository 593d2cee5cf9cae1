//! Reference subtraction game exercising the whole bridge.
//!
//! Two players alternately subtract between one and a fixed maximum from a
//! counter; whoever faces a counter of zero has won the misère game.  The
//! state text is the mover followed by the counter (for example a mover
//! `A` and counter of twenty-one export as the text `A 21`); the options
//! text is the starting counter followed by the maximum subtrahend.
//!
//! The decimal codec below carries full contracts, which is what makes the
//! export/import round trip provable.

use vstd::prelude::*;

use crate::error::{spec_str_bytes, str_bytes, Error, ErrorCode, ErrorString};
use crate::game::{GameInit, GameMethods, OptionsSupport, PrintSupport};
use crate::ptr_vec::{nul_free, PtrVec, StrBuf};
use crate::sizer::{fits, sizer_fits, BufSizer, GameFeatureFlags};
use crate::table::{create_game_methods, GameMethodsTable, Metadata, SemVer};

verus! {

use vstd::arithmetic::div_mod::{lemma_div_is_ordered, lemma_div_decreases, lemma_fundamental_div_mod};

/// Number of digits of `n` written in decimal.
pub open spec fn spec_digits(n: nat) -> nat
    decreases n,
{
    if n < 10 {
        1
    } else {
        1 + spec_digits(n / 10)
    }
}

/// The decimal encoding of `n`, most significant digit first.
pub open spec fn spec_dec(n: nat) -> Seq<u8>
    decreases n,
{
    if n < 10 {
        seq![(48 + n) as u8]
    } else {
        spec_dec(n / 10).push((48 + n % 10) as u8)
    }
}

/// Every byte of `s` is a decimal digit.
pub open spec fn all_digits(s: Seq<u8>) -> bool {
    forall|i: int| 0 <= i < s.len() ==> 48 <= #[trigger] s[i] <= 57
}

/// The value of the decimal digit string `s`.
pub open spec fn spec_val(s: Seq<u8>) -> int
    decreases s.len(),
{
    if s.len() == 0 {
        0
    } else {
        spec_val(s.drop_last()) * 10 + (s.last() - 48)
    }
}

/// A digit count is at least one, and bounded for counter-sized values.
pub proof fn lemma_digits_bounds(n: nat)
    ensures
        spec_digits(n) >= 1,
        n < 100 ==> spec_digits(n) <= 2,
        n < 1000 ==> spec_digits(n) <= 3,
        n < 10000 ==> spec_digits(n) <= 4,
        n < 100000 ==> spec_digits(n) <= 5,
    decreases n,
{
    if n >= 10 {
        lemma_digits_bounds(n / 10);
    }
}

/// More digits never come from a smaller number.
pub proof fn lemma_digits_mono(a: nat, b: nat)
    requires
        a <= b,
    ensures
        spec_digits(a) <= spec_digits(b),
    decreases b,
{
    if b < 10 {
    } else if a < 10 {
        lemma_digits_bounds(b);
    } else {
        lemma_div_is_ordered(a as int, b as int, 10);
        lemma_digits_mono(a / 10, b / 10);
    }
}

/// The decimal encoding has exactly the digit count many bytes, all of
/// them decimal digits.
pub proof fn lemma_dec_shape(n: nat)
    ensures
        spec_dec(n).len() == spec_digits(n),
        all_digits(spec_dec(n)),
    decreases n,
{
    if n >= 10 {
        lemma_dec_shape(n / 10);
    }
}

/// Decoding the decimal encoding of `n` gives back `n`.
pub proof fn lemma_dec_val(n: nat)
    ensures
        spec_val(spec_dec(n)) == n,
    decreases n,
{
    let d = spec_dec(n);
    if n < 10 {
        assert(d.len() == 1);
        assert(d.drop_last() =~= Seq::<u8>::empty());
        assert(d.last() == (48 + n) as u8);
        assert(spec_val(d) == spec_val(Seq::<u8>::empty()) * 10 + ((48 + n) as u8 - 48));
    } else {
        lemma_dec_val(n / 10);
        assert(n % 10 < 10);
        assert(d.len() > 0);
        assert(d.drop_last() =~= spec_dec(n / 10));
        assert(d.last() == (48 + n % 10) as u8);
        assert(spec_val(d) == spec_val(d.drop_last()) * 10 + (d.last() - 48));
        assert(spec_val(d.drop_last()) == n / 10);
        lemma_fundamental_div_mod(n as int, 10);
    }
}

/// The value of a digit string is never negative.
pub proof fn lemma_val_nonneg(s: Seq<u8>)
    requires
        all_digits(s),
    ensures
        spec_val(s) >= 0,
    decreases s.len(),
{
    if s.len() > 0 {
        assert(all_digits(s.drop_last()));
        lemma_val_nonneg(s.drop_last());
    }
}

/// Extending a digit string by one digit multiplies its value by ten and
/// adds the digit.
pub proof fn lemma_val_step(s: Seq<u8>, i: int)
    requires
        0 <= i < s.len(),
    ensures
        spec_val(s.subrange(0, i + 1)) == spec_val(s.subrange(0, i)) * 10 + (s[i] - 48),
{
    assert(s.subrange(0, i + 1).drop_last() =~= s.subrange(0, i));
    assert(s.subrange(0, i + 1).last() == s[i]);
}

/// The value of a digit string is at least the value of any of its
/// prefixes.
pub proof fn lemma_val_prefix_le(s: Seq<u8>, i: int)
    requires
        all_digits(s),
        0 <= i <= s.len(),
    ensures
        spec_val(s.subrange(0, i)) <= spec_val(s),
    decreases s.len() - i,
{
    if i == s.len() {
        assert(s.subrange(0, i) =~= s);
    } else {
        lemma_val_step(s, i);
        assert(all_digits(s.subrange(0, i)));
        lemma_val_nonneg(s.subrange(0, i));
        lemma_val_prefix_le(s, i + 1);
    }
}

/// Number of digits needed to print `n`.
pub fn digits(n: u16) -> (d: u16)
    ensures
        d == spec_digits(n as nat),
        1 <= d <= 5,
    decreases n,
{
    proof {
        lemma_digits_bounds(n as nat);
    }
    if n < 10 {
        1
    } else {
        proof {
            lemma_div_decreases(n as int, 10);
        }
        1 + digits(n / 10)
    }
}

/// The decimal encoding of `n`, most significant digit first.
pub fn dec_bytes(n: u16) -> (v: Vec<u8>)
    ensures
        v@ == spec_dec(n as nat),
    decreases n,
{
    if n < 10 {
        let mut v: Vec<u8> = Vec::new();
        v.push(48 + n as u8);
        proof {
            assert(v@ =~= spec_dec(n as nat));
        }
        v
    } else {
        proof {
            lemma_div_decreases(n as int, 10);
        }
        let mut v = dec_bytes(n / 10);
        v.push(48 + (n % 10) as u8);
        v
    }
}

/// Parse the bytes of `s` between `from` and `to` as a decimal number.
///
/// Succeeds exactly when the range is non-empty, holds only decimal
/// digits, and encodes a value that fits the counter type.
pub fn parse_u16_range(s: &Vec<u8>, from: usize, to: usize) -> (r: Option<u16>)
    requires
        from <= to <= s@.len(),
    ensures
        ({
            let tok = s@.subrange(from as int, to as int);
            match r {
                Some(v) => to > from && all_digits(tok) && spec_val(tok) == v,
                None => !(to > from && all_digits(tok) && spec_val(tok) <= u16::MAX),
            }
        }),
{
    let ghost tok = s@.subrange(from as int, to as int);
    if from == to {
        return None;
    }
    let mut acc: u16 = 0;
    let mut i: usize = from;
    proof {
        assert(tok.subrange(0, 0) =~= Seq::<u8>::empty());
    }
    while i < to
        invariant
            from <= i <= to <= s@.len(),
            tok == s@.subrange(from as int, to as int),
            all_digits(tok.subrange(0, i - from)),
            acc == spec_val(tok.subrange(0, i - from)),
        decreases to - i,
    {
        let b = s[i];
        proof {
            assert(tok[i - from] == b);
        }
        if b < 48 || b > 57 {
            proof {
                assert(!(48 <= tok[i - from] <= 57));
            }
            return None;
        }
        let wide: u32 = acc as u32 * 10 + (b - 48) as u32;
        proof {
            lemma_val_step(tok, i - from);
        }
        if wide > 65535 {
            proof {
                if all_digits(tok) && spec_val(tok) <= u16::MAX {
                    lemma_val_prefix_le(tok, i - from + 1);
                }
            }
            return None;
        }
        acc = wide as u16;
        i += 1;
    }
    proof {
        assert(tok.subrange(0, to - from) =~= tok);
    }
    Some(acc)
}

/// A byte the tokenizer treats as whitespace.
pub open spec fn is_ws(b: u8) -> bool {
    b == 32 || b == 9 || b == 10 || b == 13
}

/// First index at or after `i` holding a non-whitespace byte, or the
/// length of `s`.
pub open spec fn spec_skip_ws(s: Seq<u8>, i: int) -> int
    decreases s.len() - i when 0 <= i <= s.len()
{
    if i == s.len() {
        i
    } else if is_ws(s[i]) {
        spec_skip_ws(s, i + 1)
    } else {
        i
    }
}

/// First index at or after `i` holding a whitespace byte, or the length
/// of `s`.
pub open spec fn spec_token_end(s: Seq<u8>, i: int) -> int
    decreases s.len() - i when 0 <= i <= s.len()
{
    if i == s.len() {
        i
    } else if is_ws(s[i]) {
        i
    } else {
        spec_token_end(s, i + 1)
    }
}

/// Bounds of the whitespace skip: it stops at the first byte that is
/// not whitespace.
pub proof fn lemma_skip_ws_bounds(s: Seq<u8>, i: int)
    requires
        0 <= i <= s.len(),
    ensures
        i <= spec_skip_ws(s, i) <= s.len(),
        spec_skip_ws(s, i) < s.len() ==> !is_ws(s[spec_skip_ws(s, i)]),
    decreases s.len() - i,
{
    if i < s.len() && is_ws(s[i]) {
        lemma_skip_ws_bounds(s, i + 1);
    }
}

/// Bounds of the token end: a token starting on a non-whitespace byte is
/// non-empty.
pub proof fn lemma_token_end_bounds(s: Seq<u8>, i: int)
    requires
        0 <= i <= s.len(),
    ensures
        i <= spec_token_end(s, i) <= s.len(),
        i < s.len() && !is_ws(s[i]) ==> spec_token_end(s, i) > i,
        spec_token_end(s, i) < s.len() ==> is_ws(s[spec_token_end(s, i)]),
    decreases s.len() - i,
{
    if i < s.len() && !is_ws(s[i]) {
        lemma_token_end_bounds(s, i + 1);
    }
}

/// Skip whitespace from `from`.
pub fn skip_ws(s: &Vec<u8>, from: usize) -> (r: usize)
    requires
        from <= s@.len(),
    ensures
        r == spec_skip_ws(s@, from as int),
        from <= r <= s@.len(),
        r < s@.len() ==> !is_ws(s@[r as int]),
{
    proof {
        lemma_skip_ws_bounds(s@, from as int);
    }
    let mut i: usize = from;
    while i < s.len() && is_ws_byte(s[i])
        invariant
            from <= i <= s@.len(),
            spec_skip_ws(s@, from as int) == spec_skip_ws(s@, i as int),
        decreases s@.len() - i,
    {
        i += 1;
    }
    i
}

/// Find the end of the token starting at `from`.
pub fn token_end(s: &Vec<u8>, from: usize) -> (r: usize)
    requires
        from <= s@.len(),
    ensures
        r == spec_token_end(s@, from as int),
        from <= r <= s@.len(),
        from < s@.len() && !is_ws(s@[from as int]) ==> r > from,
{
    proof {
        lemma_token_end_bounds(s@, from as int);
    }
    let mut i: usize = from;
    while i < s.len() && !is_ws_byte(s[i])
        invariant
            from <= i <= s@.len(),
            spec_token_end(s@, from as int) == spec_token_end(s@, i as int),
        decreases s@.len() - i,
    {
        i += 1;
    }
    i
}

/// Whether the tokenizer treats `b` as whitespace.
fn is_ws_byte(b: u8) -> (r: bool)
    ensures
        r == is_ws(b),
{
    b == 32 || b == 9 || b == 10 || b == 13
}

/// Starting counter of the default game.
pub const DEFAULT_COUNTER: u16 = 21;

/// Maximum subtrahend of the default game.
pub const DEFAULT_MAX_SUB: u16 = 3;

/// State of the reference subtraction game.
#[derive(Clone, Copy, PartialEq, Eq, Structural, Debug)]
pub struct Nim {
    /// The current counter.
    pub counter: u16,
    /// The largest amount one move may subtract.
    pub max_sub: u16,
    /// The counter the game started from.
    pub initial_counter: u16,
    /// `false` while player `A` is to move, `true` for player `B`.
    pub turn: bool,
}

/// A fresh game starting at `counter` with maximum subtrahend `max_sub`.
pub open spec fn nim_new(counter: u16, max_sub: u16) -> Nim {
    Nim { counter, max_sub, initial_counter: counter, turn: false }
}

/// `g` reset to its starting counter with player `A` to move.
pub open spec fn nim_reset(g: Nim) -> Nim {
    Nim { counter: g.initial_counter, max_sub: g.max_sub, initial_counter: g.initial_counter, turn: false }
}

/// Identifier of the player to move.
pub open spec fn spec_player_id(g: Nim) -> u8 {
    if g.turn {
        2
    } else {
        1
    }
}

/// Text byte naming the player to move.
pub open spec fn spec_player_byte(g: Nim) -> u8 {
    if g.turn {
        66
    } else {
        65
    }
}

/// The exported state text: the mover's letter, a space, the counter.
pub open spec fn nim_state_bytes(g: Nim) -> Seq<u8> {
    seq![spec_player_byte(g), 32u8] + spec_dec(g.counter as nat)
}

/// The exported options text: starting counter, a space, the maximum
/// subtrahend.
pub open spec fn nim_options_bytes(g: Nim) -> Seq<u8> {
    spec_dec(g.initial_counter as nat) + seq![32u8] + spec_dec(g.max_sub as nat)
}

/// The human-readable rendering: the state text and a line break.
pub open spec fn nim_print_bytes(g: Nim) -> Seq<u8> {
    nim_state_bytes(g) + seq![10u8]
}

/// What importing the state text `s` into `g` results in.
///
/// An empty text resets the game.  A state text is the mover's letter
/// followed by the counter; any malformed text is invalid input, as is a
/// counter with more digits than the starting counter, which would not
/// fit the declared state text size.
pub open spec fn nim_import_result(g: Nim, s: Seq<u8>) -> Result<Nim, ErrorCode> {
    let t1s = spec_skip_ws(s, 0);
    if t1s == s.len() {
        Ok(nim_reset(g))
    } else {
        let t1e = spec_token_end(s, t1s);
        let tok1 = s.subrange(t1s, t1e);
        let t2s = spec_skip_ws(s, t1e);
        if t2s == s.len() {
            Err(ErrorCode::InvalidInput)
        } else {
            let t2e = spec_token_end(s, t2s);
            let tok2 = s.subrange(t2s, t2e);
            if !(tok1 == seq![97u8] || tok1 == seq![65u8] || tok1 == seq![98u8] || tok1
                == seq![66u8]) {
                Err(ErrorCode::InvalidInput)
            } else if !(all_digits(tok2) && spec_val(tok2) <= u16::MAX) {
                Err(ErrorCode::InvalidInput)
            } else if spec_digits(spec_val(tok2) as nat) > spec_digits(
                g.initial_counter as nat,
            ) {
                Err(ErrorCode::InvalidInput)
            } else {
                Ok(
                    Nim {
                        counter: spec_val(tok2) as u16,
                        max_sub: g.max_sub,
                        initial_counter: g.initial_counter,
                        turn: tok1 == seq![98u8] || tok1 == seq![66u8],
                    },
                )
            }
        }
    }
}

/// What creating a game from the options text `s` results in.
///
/// The options text is the starting counter followed by the maximum
/// subtrahend; a missing or malformed number is invalid input, and a
/// maximum subtrahend of zero is an invalid option.
pub open spec fn nim_create_result(s: Seq<u8>) -> Result<Nim, ErrorCode> {
    let t1s = spec_skip_ws(s, 0);
    if t1s == s.len() {
        Err(ErrorCode::InvalidInput)
    } else {
        let t1e = spec_token_end(s, t1s);
        let tok1 = s.subrange(t1s, t1e);
        if !(all_digits(tok1) && spec_val(tok1) <= u16::MAX) {
            Err(ErrorCode::InvalidInput)
        } else {
            let t2s = spec_skip_ws(s, t1e);
            if t2s == s.len() {
                Err(ErrorCode::InvalidInput)
            } else {
                let t2e = spec_token_end(s, t2s);
                let tok2 = s.subrange(t2s, t2e);
                if !(all_digits(tok2) && spec_val(tok2) <= u16::MAX) {
                    Err(ErrorCode::InvalidInput)
                } else if spec_val(tok2) == 0 {
                    Err(ErrorCode::InvalidOptions)
                } else {
                    Ok(nim_new(spec_val(tok1) as u16, spec_val(tok2) as u16))
                }
            }
        }
    }
}

/// What creating a game from a creation request results in: default
/// settings, or the options text, each followed by an optional state
/// import; creation from a serialization is unsupported.
pub open spec fn nim_init_result(init: GameInit) -> Result<Nim, ErrorCode> {
    match init {
        GameInit::Default => Ok(nim_new(DEFAULT_COUNTER, DEFAULT_MAX_SUB)),
        GameInit::Standard { opts, legacy: _, state } => {
            let created = match opts {
                Some(o) => nim_create_result(o@),
                None => Ok(nim_new(DEFAULT_COUNTER, DEFAULT_MAX_SUB)),
            };
            match created {
                Err(c) => Err(c),
                Ok(g) => match state {
                    None => Ok(g),
                    Some(st) => nim_import_result(g, st@),
                },
            }
        },
        GameInit::Serialized(_) => Err(ErrorCode::FeatureUnsupported),
    }
}

impl Nim {
    /// State invariant: the counter never has more digits than the
    /// starting counter, so the state text always fits the declared size.
    pub open spec fn wf(&self) -> bool {
        spec_digits(self.counter as nat) <= spec_digits(self.initial_counter as nat)
    }

    /// The capacity contract this game needs, derived from its fixed
    /// configuration.
    pub open spec fn sizer_needed(&self) -> BufSizer {
        BufSizer {
            options_str: (spec_digits(self.initial_counter as nat) + spec_digits(
                self.max_sub as nat,
            ) + 2) as usize,
            state_str: (spec_digits(self.initial_counter as nat) + 3) as usize,
            player_count: 2,
            max_players_to_move: 1,
            max_moves: self.max_sub as u32,
            max_actions: 0,
            max_results: 1,
            move_str: (spec_digits(self.max_sub as nat) + 1) as usize,
            print_str: (spec_digits(self.initial_counter as nat) + 4) as usize,
        }
    }

    /// Whether `mov` may be applied for `player`: the game is not over,
    /// the amount is between one and the maximum subtrahend, it does not
    /// exceed the counter, and it is this player's turn.
    pub open spec fn move_allowed(&self, player: u8, mov: u64) -> bool {
        &&& self.counter > 0
        &&& 1 <= mov
        &&& mov <= self.max_sub
        &&& mov <= self.counter
        &&& player == spec_player_id(*self)
    }

    /// A fresh game starting at `counter` with maximum subtrahend
    /// `max_sub`.
    pub fn new(counter: u16, max_sub: u16) -> (g: Nim)
        ensures
            g == nim_new(counter, max_sub),
            g.wf(),
    {
        Nim { counter, max_sub, initial_counter: counter, turn: false }
    }

    /// Reset to the starting counter with player `A` to move.
    pub fn reset(&mut self)
        ensures
            *final(self) == nim_reset(*old(self)),
            final(self).wf(),
    {
        proof {
            lemma_digits_bounds(self.initial_counter as nat);
        }
        self.counter = self.initial_counter;
        self.turn = false;
    }

    /// Identifier of the player to move.
    pub fn player_id(&self) -> (r: u8)
        ensures
            r == spec_player_id(*self),
    {
        if self.turn {
            2
        } else {
            1
        }
    }

    /// Letter naming the player to move.
    pub fn player_char(&self) -> (r: char)
        ensures
            self.turn ==> r == 'B',
            !self.turn ==> r == 'A',
    {
        if self.turn {
            'B'
        } else {
            'A'
        }
    }

    /// The capacity contract this game declares, see
    /// [`Self::sizer_needed()`].
    ///
    /// String sizes count the trailing terminator byte.
    pub fn calc_sizer(&self) -> (s: BufSizer)
        ensures
            s == self.sizer_needed(),
    {
        let di = digits(self.initial_counter);
        let dm = digits(self.max_sub);
        BufSizer {
            options_str: (di + dm + 2) as usize,
            state_str: (di + 3) as usize,
            player_count: 2,
            max_players_to_move: 1,
            max_moves: self.max_sub as u32,
            max_actions: 0,
            max_results: 1,
            move_str: (dm + 1) as usize,
            print_str: (di + 4) as usize,
        }
    }

    /// The exported state text, without a terminator.
    pub fn export_text(&self) -> (v: Vec<u8>)
        ensures
            v@ == nim_state_bytes(*self),
    {
        let mut v: Vec<u8> = Vec::new();
        v.push(if self.turn { 66 } else { 65 });
        v.push(32);
        let mut d = dec_bytes(self.counter);
        v.append(&mut d);
        proof {
            assert(v@ =~= nim_state_bytes(*self));
        }
        v
    }

    /// The exported options text, without a terminator.
    pub fn export_options_str(&self) -> (v: Vec<u8>)
        ensures
            v@ == nim_options_bytes(*self),
    {
        let mut v = dec_bytes(self.initial_counter);
        v.push(32);
        let mut d = dec_bytes(self.max_sub);
        v.append(&mut d);
        proof {
            assert(v@ =~= nim_options_bytes(*self));
        }
        v
    }

    /// The human-readable rendering, without a terminator.
    pub fn debug_print(&self) -> (v: Vec<u8>)
        ensures
            v@ == nim_print_bytes(*self),
    {
        let mut v = self.export_text();
        v.push(10);
        proof {
            assert(v@ =~= nim_print_bytes(*self));
        }
        v
    }

    /// Import the state text `s`, see [`nim_import_result`].
    pub fn import_text(&mut self, s: &Vec<u8>) -> (r: Result<(), Error>)
        requires
            old(self).wf(),
        ensures
            match nim_import_result(*old(self), s@) {
                Ok(g2) => r is Ok && *final(self) == g2,
                Err(c) => r matches Err(e) && e.code == c && *final(self) == *old(self),
            },
            final(self).wf(),
            final(self).sizer_needed() == old(self).sizer_needed(),
    {
        let t1s = skip_ws(s, 0);
        if t1s == s.len() {
            self.reset();
            return Ok(());
        }
        let t1e = token_end(s, t1s);
        let t2s = skip_ws(s, t1e);
        if t2s == s.len() {
            return Err(Error::new_static(ErrorCode::InvalidInput, "missing counter value"));
        }
        let t2e = token_end(s, t2s);
        let ghost tok1 = s@.subrange(t1s as int, t1e as int);
        proof {
            lemma_token_end_bounds(s@, t1s as int);
        }
        let turn_opt: Option<bool> = if t1e - t1s == 1 {
            let c = s[t1s];
            proof {
                assert(tok1[0] == c);
                assert(tok1 =~= seq![c]);
            }
            if c == 97 || c == 65 {
                Some(false)
            } else if c == 98 || c == 66 {
                Some(true)
            } else {
                None
            }
        } else {
            proof {
                assert(tok1.len() != 1);
            }
            None
        };
        let turn = match turn_opt {
            Some(t) => t,
            None => {
                return Err(Error::new_static(ErrorCode::InvalidInput, "invalid player code"));
            },
        };
        let counter = match parse_u16_range(s, t2s, t2e) {
            Some(v) => v,
            None => {
                return Err(Error::new_static(ErrorCode::InvalidInput, "counter parsing error"));
            },
        };
        let dv = digits(counter);
        let di = digits(self.initial_counter);
        if dv > di {
            return Err(
                Error::new_static(
                    ErrorCode::InvalidInput,
                    "counter does not fit the declared state size",
                ),
            );
        }
        self.counter = counter;
        self.turn = turn;
        Ok(())
    }

    /// Create a game from the options text, see [`nim_create_result`].
    pub fn create_with_opts_str(string: &Vec<u8>) -> (r: Result<(Nim, BufSizer), Error>)
        ensures
            match nim_create_result(string@) {
                Ok(g) => r matches Ok(p) && p.0 == g && p.1 == g.sizer_needed(),
                Err(c) => r matches Err(e) && e.code == c,
            },
            r matches Ok(p) ==> p.0.wf(),
    {
        let s = string;
        let t1s = skip_ws(s, 0);
        if t1s == s.len() {
            return Err(Error::new_static(ErrorCode::InvalidInput, "missing starting counter"));
        }
        let t1e = token_end(s, t1s);
        let counter = match parse_u16_range(s, t1s, t1e) {
            Some(v) => v,
            None => {
                return Err(Error::new_static(ErrorCode::InvalidInput, "counter parsing error"));
            },
        };
        let t2s = skip_ws(s, t1e);
        if t2s == s.len() {
            return Err(Error::new_static(ErrorCode::InvalidInput, "missing maximum subtrahend"));
        }
        let t2e = token_end(s, t2s);
        let max_sub = match parse_u16_range(s, t2s, t2e) {
            Some(v) => v,
            None => {
                return Err(
                    Error::new_static(ErrorCode::InvalidInput, "subtrahend parsing error"),
                );
            },
        };
        if max_sub == 0 {
            return Err(Error::new_static(ErrorCode::InvalidOptions, "maximum subtrahend is zero"));
        }
        let game = Nim::new(counter, max_sub);
        let sizer = game.calc_sizer();
        Ok((game, sizer))
    }

    /// Create a game with the default settings.
    pub fn create_default() -> (r: Result<(Nim, BufSizer), Error>)
        ensures
            r matches Ok(p) && p.0 == nim_new(DEFAULT_COUNTER, DEFAULT_MAX_SUB) && p.1
                == p.0.sizer_needed(),
    {
        let game = Nim::new(DEFAULT_COUNTER, DEFAULT_MAX_SUB);
        let sizer = game.calc_sizer();
        Ok((game, sizer))
    }
}

impl Default for Nim {
    /// The default game: counter twenty-one, maximum subtrahend three.
    fn default() -> (g: Nim)
        ensures
            g == nim_new(DEFAULT_COUNTER, DEFAULT_MAX_SUB),
    {
        Nim::new(DEFAULT_COUNTER, DEFAULT_MAX_SUB)
    }
}

/// Exceeding `max` is invalid input, reported with the bound in the
/// message.
///
/// The message is built from fixed text and the decimal of `max`; both
/// parts are free of terminator bytes, so it is stored as it stands,
/// like a fixed message.
pub fn sub_too_large(mov: u16, max: u16) -> (r: Result<(), Error>)
    ensures
        r is Ok <==> mov <= max,
        r matches Err(e) ==> e.code == ErrorCode::InvalidInput && e.message@ == Some(
            spec_str_bytes("can subtract at most ") + spec_dec(max as nat),
        ),
{
    if mov > max {
        let mut m = str_bytes("can subtract at most ");
        let mut d = dec_bytes(max);
        m.append(&mut d);
        Err(Error { code: ErrorCode::InvalidInput, message: ErrorString::Text(m) })
    } else {
        Ok(())
    }
}

impl Nim {
    /// Decode a move text: the whole text must be the decimal amount, and
    /// the amount must not exceed the maximum subtrahend.
    pub fn parse_move(&self, string: &Vec<u8>) -> (r: Result<u64, Error>)
        ensures
            ({
                let ok = string@.len() > 0 && all_digits(string@) && spec_val(string@)
                    <= u16::MAX && spec_val(string@) <= self.max_sub;
                if ok {
                    r matches Ok(v) && v == spec_val(string@)
                } else {
                    r matches Err(e) && e.code == ErrorCode::InvalidInput
                }
            }),
    {
        proof {
            assert(string@.subrange(0, string@.len() as int) =~= string@);
        }
        let mov = match parse_u16_range(string, 0, string.len()) {
            Some(v) => v,
            None => {
                return Err(Error::new_static(ErrorCode::InvalidInput, "move parsing error"));
            },
        };
        match sub_too_large(mov, self.max_sub) {
            Ok(()) => Ok(mov as u64),
            Err(e) => Err(e),
        }
    }

    /// Check one move: succeeds exactly when the move is allowed, see
    /// [`Self::move_allowed()`].
    pub fn check_move(&self, player: u8, mov: u64) -> (r: Result<(), Error>)
        ensures
            r is Ok <==> self.move_allowed(player, mov),
            r matches Err(e) ==> e.code == ErrorCode::InvalidInput,
    {
        if self.counter == 0 {
            return Err(Error::new_static(ErrorCode::InvalidInput, "game already over"));
        }
        if mov == 0 {
            return Err(Error::new_static(ErrorCode::InvalidInput, "need to subtract at least one"));
        }
        if player != self.player_id() {
            return Err(Error::new_static(ErrorCode::InvalidInput, "this player is not to move"));
        }
        if mov > 65535 {
            let mut m = str_bytes("can subtract at most ");
            let mut d = dec_bytes(self.max_sub);
            m.append(&mut d);
            return Err(Error::new_dynamic(ErrorCode::InvalidInput, m));
        }
        let mv_small = mov as u16;
        match sub_too_large(mv_small, self.max_sub) {
            Ok(()) => (),
            Err(e) => {
                return Err(e);
            },
        }
        match sub_too_large(mv_small, self.counter) {
            Ok(()) => (),
            Err(e) => {
                return Err(e);
            },
        }
        Ok(())
    }

    /// The players that are to move: the mover, unless the game is over.
    pub fn movers(&self) -> (v: Vec<u8>)
        ensures
            self.counter > 0 ==> v@ == seq![spec_player_id(*self)],
            self.counter == 0 ==> v@ == Seq::<u8>::empty(),
    {
        let mut v: Vec<u8> = Vec::new();
        if self.counter > 0 {
            v.push(self.player_id());
        }
        proof {
            if self.counter > 0 {
                assert(v@ =~= seq![spec_player_id(*self)]);
            }
        }
        v
    }

    /// The winners: on an empty counter, the mover who did not empty it.
    pub fn winners(&self) -> (v: Vec<u8>)
        ensures
            self.counter == 0 ==> v@ == seq![spec_player_id(*self)],
            self.counter > 0 ==> v@ == Seq::<u8>::empty(),
    {
        let mut v: Vec<u8> = Vec::new();
        if self.counter == 0 {
            v.push(self.player_id());
        }
        proof {
            if self.counter == 0 {
                assert(v@ =~= seq![spec_player_id(*self)]);
            }
        }
        v
    }

    /// The moves available to the mover: every amount from one up to the
    /// maximum subtrahend, limited by the counter.
    pub fn legal_moves(&self) -> (v: Vec<u64>)
        ensures
            ({
                let bound = if self.max_sub < self.counter {
                    self.max_sub as nat
                } else {
                    self.counter as nat
                };
                v@ == Seq::<u64>::new(bound, |i: int| (i + 1) as u64)
            }),
    {
        let m: u32 = if self.max_sub < self.counter {
            self.max_sub as u32
        } else {
            self.counter as u32
        };
        let mut v: Vec<u64> = Vec::new();
        let mut mv: u32 = 1;
        while mv <= m
            invariant
                1 <= mv <= m + 1,
                m <= u16::MAX,
                v@ =~= Seq::<u64>::new((mv - 1) as nat, |i: int| (i + 1) as u64),
            decreases m + 1 - mv,
        {
            v.push(mv as u64);
            proof {
                assert(v@ =~= Seq::<u64>::new(mv as nat, |i: int| (i + 1) as u64));
            }
            mv += 1;
        }
        v
    }
}

/// Shape of the exported state text: its length, and that it is free of
/// terminator bytes.
pub proof fn lemma_state_bytes_props(g: Nim)
    ensures
        nim_state_bytes(g).len() == 2 + spec_digits(g.counter as nat),
        nul_free(nim_state_bytes(g)),
{
    lemma_dec_shape(g.counter as nat);
    let v = nim_state_bytes(g);
    assert forall|i: int| 0 <= i < v.len() implies v[i] != 0 by {
        if i >= 2 {
            assert(v[i] == spec_dec(g.counter as nat)[i - 2]);
            assert(48 <= spec_dec(g.counter as nat)[i - 2] <= 57);
        }
    }
}

/// Shape of the exported options text: its length, and that it is free
/// of terminator bytes.
pub proof fn lemma_options_bytes_props(g: Nim)
    ensures
        nim_options_bytes(g).len() == spec_digits(g.initial_counter as nat) + 1 + spec_digits(
            g.max_sub as nat,
        ),
        nul_free(nim_options_bytes(g)),
{
    lemma_dec_shape(g.initial_counter as nat);
    lemma_dec_shape(g.max_sub as nat);
    let di = spec_digits(g.initial_counter as nat) as int;
    let v = nim_options_bytes(g);
    assert forall|i: int| 0 <= i < v.len() implies v[i] != 0 by {
        if i < di {
            assert(v[i] == spec_dec(g.initial_counter as nat)[i]);
            assert(48 <= spec_dec(g.initial_counter as nat)[i] <= 57);
        } else if i > di {
            assert(v[i] == spec_dec(g.max_sub as nat)[i - di - 1]);
            assert(48 <= spec_dec(g.max_sub as nat)[i - di - 1] <= 57);
        }
    }
}

/// Shape of the human-readable rendering: its length, and that it is
/// free of terminator bytes.
pub proof fn lemma_print_bytes_props(g: Nim)
    ensures
        nim_print_bytes(g).len() == 3 + spec_digits(g.counter as nat),
        nul_free(nim_print_bytes(g)),
{
    lemma_state_bytes_props(g);
    let v = nim_print_bytes(g);
    assert forall|i: int| 0 <= i < v.len() implies v[i] != 0 by {
        if i < nim_state_bytes(g).len() {
            assert(v[i] == nim_state_bytes(g)[i]);
        }
    }
}

impl GameMethods for Nim {
    open spec fn inv(&self) -> bool {
        self.wf()
    }

    open spec fn needed(&self) -> BufSizer {
        self.sizer_needed()
    }

    open spec fn can_make_move(&self, player: u8, mov: u64) -> bool {
        self.move_allowed(player, mov)
    }

    open spec fn creation_of(init: GameInit) -> Result<(Nim, BufSizer), ErrorCode> {
        match nim_init_result(init) {
            Ok(g) => Ok((g, g.sizer_needed())),
            Err(c) => Err(c),
        }
    }

    open spec fn after_import(&self, string: Option<Seq<u8>>) -> Nim {
        match string {
            None => nim_reset(*self),
            Some(s) => match nim_import_result(*self, s) {
                Ok(g2) => g2,
                Err(_) => *self,
            },
        }
    }

    open spec fn after_move(&self, player: u8, mov: u64) -> Nim {
        Nim {
            counter: (self.counter - mov) as u16,
            max_sub: self.max_sub,
            initial_counter: self.initial_counter,
            turn: !self.turn,
        }
    }

    open spec fn movers_of(&self) -> Seq<u8> {
        if self.counter > 0 {
            seq![spec_player_id(*self)]
        } else {
            Seq::empty()
        }
    }

    open spec fn moves_of(&self, player: u8) -> Seq<u64> {
        if player == spec_player_id(*self) {
            Seq::new(
                (if self.max_sub < self.counter {
                    self.max_sub as nat
                } else {
                    self.counter as nat
                }),
                |i: int| (i + 1) as u64,
            )
        } else {
            Seq::empty()
        }
    }

    open spec fn winners_of(&self) -> Seq<u8> {
        if self.counter == 0 {
            seq![spec_player_id(*self)]
        } else {
            Seq::empty()
        }
    }

    open spec fn state_text(&self) -> Seq<u8> {
        nim_state_bytes(*self)
    }

    open spec fn move_text(&self, player: u8, mov: u64) -> Seq<u8> {
        spec_dec(mov as nat)
    }

    open spec fn move_code_of(&self, player: u8, string: Seq<u8>) -> Option<u64> {
        if string.len() > 0 && all_digits(string) && spec_val(string) <= u16::MAX && spec_val(
            string,
        ) <= self.max_sub {
            Some(spec_val(string) as u64)
        } else {
            None
        }
    }

    fn create(init: &GameInit) -> (r: Result<(Self, BufSizer), Error>)
        ensures
            ({
                match nim_init_result(*init) {
                    Ok(g) => r matches Ok(p) && p.0 == g && p.1 == g.sizer_needed(),
                    Err(c) => r matches Err(e) && e.code == c,
                }
            }),
    {
        match init {
            GameInit::Default => Self::create_default(),
            GameInit::Standard { opts, legacy: _, state } => {
                let created = match opts {
                    Some(o) => Self::create_with_opts_str(o),
                    None => Self::create_default(),
                };
                let (mut game, sizer) = match created {
                    Ok(p) => p,
                    Err(e) => {
                        return Err(e);
                    },
                };
                if let Some(st) = state {
                    match game.import_text(st) {
                        Ok(()) => (),
                        Err(e) => {
                            return Err(e);
                        },
                    }
                }
                Ok((game, sizer))
            },
            GameInit::Serialized(_) => Err(
                Error::new_static(
                    ErrorCode::FeatureUnsupported,
                    "serialized state import is not supported",
                ),
            ),
        }
    }

    fn clone_state(&self) -> (r: Self) {
        *self
    }

    fn state_eq(&self, other: &Self) -> (r: bool) {
        self.counter == other.counter && self.max_sub == other.max_sub && self.initial_counter
            == other.initial_counter && self.turn == other.turn
    }

    fn copy_from(&mut self, other: &Self) -> (r: Result<(), Error>)
        ensures
            r is Ok <==> fits(other.sizer_needed(), old(self).sizer_needed()),
            r matches Err(e) ==> e.code == ErrorCode::InvalidInput,
    {
        let mine = self.calc_sizer();
        let theirs = other.calc_sizer();
        if sizer_fits(&theirs, &mine) {
            *self = *other;
            Ok(())
        } else {
            Err(Error::new_static(ErrorCode::InvalidInput, "incompatible game configurations"))
        }
    }

    fn import_state(&mut self, string: Option<&Vec<u8>>) -> (r: Result<(), Error>)
        ensures
            ({
                match string {
                    None => r is Ok && *final(self) == nim_reset(*old(self)),
                    Some(s) => (match nim_import_result(*old(self), s@) {
                        Ok(g2) => r is Ok && *final(self) == g2,
                        Err(c) => r matches Err(e) && e.code == c && *final(self) == *old(self),
                    }),
                }
            }),
    {
        match string {
            None => {
                self.reset();
                Ok(())
            },
            Some(s) => self.import_text(s),
        }
    }

    fn export_state(&mut self, str_buf: &mut StrBuf) -> (r: Result<(), Error>)
        ensures
            r is Ok,
            final(str_buf)@ == old(str_buf)@ + nim_state_bytes(*old(self)),
    {
        let v = self.export_text();
        proof {
            lemma_state_bytes_props(*self);
            lemma_digits_bounds(self.counter as nat);
            lemma_digits_bounds(self.initial_counter as nat);
            assert((spec_digits(self.initial_counter as nat) + 3) as usize == spec_digits(
                self.initial_counter as nat,
            ) + 3);
        }
        match str_buf.write_bytes(v.as_slice()) {
            Ok(()) => Ok(()),
            Err(_) => unreached(),
        }
    }

    fn players_to_move(&mut self, players: &mut PtrVec<u8>) -> (r: Result<(), Error>)
        ensures
            r is Ok,
            old(self).counter > 0 ==> final(players)@ == old(players)@ + seq![
                spec_player_id(*old(self)),
            ],
            old(self).counter == 0 ==> final(players)@ == old(players)@,
    {
        let v = self.movers();
        players.extend_from_slice(v.as_slice());
        proof {
            assert forall|i: int| 0 <= i < v@.len() implies players@[old(players)@.len() + i]
                == v@[i] by {
                assert(cloned(v@[i], players@[old(players)@.len() + i]));
            }
            assert(players@ =~= old(players)@ + v@);
            if self.counter == 0 {
                assert(old(players)@ + Seq::<u8>::empty() =~= old(players)@);
            }
        }
        Ok(())
    }

    fn get_concrete_moves(&mut self, player: u8, moves: &mut PtrVec<u64>) -> (r: Result<
        (),
        Error,
    >)
        ensures
            r is Ok,
            player != spec_player_id(*old(self)) ==> final(moves)@ == old(moves)@,
            player == spec_player_id(*old(self)) ==> final(moves)@ == old(moves)@
                + Seq::<u64>::new(
                (if old(self).max_sub < old(self).counter {
                    old(self).max_sub as nat
                } else {
                    old(self).counter as nat
                }),
                |i: int| (i + 1) as u64,
            ),
    {
        if player != self.player_id() {
            return Ok(());
        }
        let v = self.legal_moves();
        moves.extend_from_slice(v.as_slice());
        proof {
            assert forall|i: int| 0 <= i < v@.len() implies moves@[old(moves)@.len() + i]
                == v@[i] by {
                assert(cloned(v@[i], moves@[old(moves)@.len() + i]));
            }
            assert(moves@ =~= old(moves)@ + v@);
        }
        Ok(())
    }

    fn is_legal_move(&mut self, player: u8, mov: u64) -> (r: Result<(), Error>)
        ensures
            r is Ok <==> old(self).move_allowed(player, mov),
            r matches Err(e) ==> e.code == ErrorCode::InvalidInput,
    {
        self.check_move(player, mov)
    }

    fn make_move(&mut self, player: u8, mov: u64) -> (r: Result<(), Error>)
        ensures
            r is Ok,
            final(self).counter == old(self).counter - mov,
            final(self).turn == !old(self).turn,
            final(self).max_sub == old(self).max_sub,
            final(self).initial_counter == old(self).initial_counter,
    {
        proof {
            lemma_digits_mono((self.counter - mov) as nat, self.counter as nat);
        }
        self.counter = self.counter - (mov as u16);
        self.turn = !self.turn;
        Ok(())
    }

    fn get_results(&mut self, players: &mut PtrVec<u8>) -> (r: Result<(), Error>)
        ensures
            r is Ok,
            old(self).counter == 0 ==> final(players)@ == old(players)@ + seq![
                spec_player_id(*old(self)),
            ],
            old(self).counter > 0 ==> final(players)@ == old(players)@,
    {
        let v = self.winners();
        players.extend_from_slice(v.as_slice());
        proof {
            assert forall|i: int| 0 <= i < v@.len() implies players@[old(players)@.len() + i]
                == v@[i] by {
                assert(cloned(v@[i], players@[old(players)@.len() + i]));
            }
            assert(players@ =~= old(players)@ + v@);
            if self.counter > 0 {
                assert(old(players)@ + Seq::<u8>::empty() =~= old(players)@);
            }
        }
        Ok(())
    }

    fn get_move_code(&mut self, player: u8, string: &Vec<u8>) -> (r: Result<u64, Error>)
        ensures
            ({
                let ok = string@.len() > 0 && all_digits(string@) && spec_val(string@)
                    <= u16::MAX && spec_val(string@) <= old(self).max_sub;
                if ok {
                    r matches Ok(v) && v == spec_val(string@)
                } else {
                    r matches Err(e) && e.code == ErrorCode::InvalidInput
                }
            }),
    {
        self.parse_move(string)
    }

    fn get_move_str(&mut self, player: u8, mov: u64, str_buf: &mut StrBuf) -> (r: Result<
        (),
        Error,
    >)
        ensures
            mov <= old(self).max_sub ==> r is Ok && final(str_buf)@ == old(str_buf)@ + spec_dec(
                mov as nat,
            ),
            mov > old(self).max_sub ==> (r matches Err(e) ==> e.code == ErrorCode::InvalidInput)
                && r is Err && final(str_buf)@ == old(str_buf)@,
    {
        if mov > self.max_sub as u64 {
            let mut m = str_bytes("can subtract at most ");
            let mut d = dec_bytes(self.max_sub);
            m.append(&mut d);
            return Err(Error::new_dynamic(ErrorCode::InvalidInput, m));
        }
        let v = dec_bytes(mov as u16);
        proof {
            lemma_dec_shape(mov as nat);
            lemma_digits_mono(mov as nat, self.max_sub as nat);
            lemma_digits_bounds(self.max_sub as nat);
            assert((spec_digits(self.max_sub as nat) + 1) as usize == spec_digits(
                self.max_sub as nat,
            ) + 1);
            assert forall|i: int| 0 <= i < v@.len() implies v@[i] != 0 by {
                assert(48 <= spec_dec(mov as nat)[i] <= 57);
            }
        }
        match str_buf.write_bytes(v.as_slice()) {
            Ok(()) => Ok(()),
            Err(_) => unreached(),
        }
    }
}

impl OptionsSupport for Nim {
    open spec fn options_text(&self) -> Seq<u8> {
        nim_options_bytes(*self)
    }

    fn export_options(&mut self, str_buf: &mut StrBuf) -> (r: Result<(), Error>)
        ensures
            r is Ok,
            final(str_buf)@ == old(str_buf)@ + nim_options_bytes(*old(self)),
    {
        let v = self.export_options_str();
        proof {
            lemma_options_bytes_props(*self);
            lemma_digits_bounds(self.initial_counter as nat);
            lemma_digits_bounds(self.max_sub as nat);
            assert((spec_digits(self.initial_counter as nat) + spec_digits(self.max_sub as nat)
                + 2) as usize == spec_digits(self.initial_counter as nat) + spec_digits(
                self.max_sub as nat,
            ) + 2);
        }
        match str_buf.write_bytes(v.as_slice()) {
            Ok(()) => Ok(()),
            Err(_) => unreached(),
        }
    }
}

impl PrintSupport for Nim {
    open spec fn print_text(&self) -> Seq<u8> {
        nim_print_bytes(*self)
    }

    fn print(&mut self, str_buf: &mut StrBuf) -> (r: Result<(), Error>)
        ensures
            r is Ok,
            final(str_buf)@ == old(str_buf)@ + nim_print_bytes(*old(self)),
    {
        let v = self.debug_print();
        proof {
            lemma_print_bytes_props(*self);
            lemma_digits_bounds(self.counter as nat);
            lemma_digits_bounds(self.initial_counter as nat);
            assert((spec_digits(self.initial_counter as nat) + 4) as usize == spec_digits(
                self.initial_counter as nat,
            ) + 4);
        }
        match str_buf.write_bytes(v.as_slice()) {
            Ok(()) => Ok(()),
            Err(_) => unreached(),
        }
    }
}

/// The dispatch table exporting the reference game, with the `options`
/// and `print` capabilities enabled.
pub fn example_game_methods() -> (t: GameMethodsTable)
    ensures
        t.features.options && t.features.print,
        t.export_options && t.print,
        t.create && t.destroy && t.import_state && t.export_state && t.make_move,
{
    let mut features = GameFeatureFlags::default();
    features.print = true;
    features.options = true;

    create_game_methods::<Nim>(
        Metadata {
            game_name: "Nim".to_owned(),
            variant_name: "Standard".to_owned(),
            impl_name: "surena_game_rs".to_owned(),
            version: SemVer { major: 0, minor: 1, patch: 0 },
            features,
        },
    )
}

/// A token of non-whitespace bytes ends at the next whitespace byte.
proof fn lemma_token_end_until(s: Seq<u8>, i: int, k: int)
    requires
        0 <= i <= k < s.len(),
        forall|j: int| i <= j < k ==> !is_ws(#[trigger] s[j]),
        is_ws(s[k]),
    ensures
        spec_token_end(s, i) == k,
    decreases k - i,
{
    if i < k {
        lemma_token_end_until(s, i + 1, k);
    }
}

/// A token run of non-whitespace bytes reaches the end of the text.
proof fn lemma_token_end_nonws(s: Seq<u8>, i: int)
    requires
        0 <= i <= s.len(),
        forall|j: int| i <= j < s.len() ==> !is_ws(#[trigger] s[j]),
    ensures
        spec_token_end(s, i) == s.len(),
    decreases s.len() - i,
{
    if i < s.len() {
        lemma_token_end_nonws(s, i + 1);
    }
}

/// Exporting a state and importing the exported text reproduces the
/// state: the codec round trip is the identity on well-formed states.
pub proof fn lemma_state_round_trip(g: Nim)
    requires
        g.wf(),
    ensures
        nim_import_result(g, nim_state_bytes(g)) == Ok::<Nim, ErrorCode>(g),
{
    let s = nim_state_bytes(g);
    let d = spec_dec(g.counter as nat);
    lemma_dec_shape(g.counter as nat);
    lemma_dec_val(g.counter as nat);
    assert(s[0] == spec_player_byte(g));
    assert(s[1] == 32);
    assert(forall|j: int| 2 <= j < s.len() ==> s[j] == d[j - 2] && 48 <= #[trigger] s[j] <= 57);
    assert(!is_ws(s[0]));
    assert(spec_skip_ws(s, 0) == 0);
    assert(spec_token_end(s, 1) == 1);
    assert(spec_token_end(s, 0) == 1);
    let tok1 = s.subrange(0, 1);
    assert(tok1 =~= seq![spec_player_byte(g)]);
    assert(spec_skip_ws(s, 2) == 2);
    assert(spec_skip_ws(s, 1) == 2);
    lemma_token_end_nonws(s, 2);
    let tok2 = s.subrange(2, s.len() as int);
    assert(tok2 =~= d);
    assert(all_digits(tok2));
    assert(spec_val(tok2) == g.counter);
    if g.turn {
        assert(tok1 == seq![66u8]);
        assert(tok1 != seq![97u8] && tok1 != seq![65u8] && tok1 != seq![98u8]) by {
            assert(tok1[0] == 66);
        }
    } else {
        assert(tok1 == seq![65u8]);
        assert(tok1 != seq![97u8] && tok1 != seq![98u8] && tok1 != seq![66u8]) by {
            assert(tok1[0] == 65);
        }
    }
    assert(nim_import_result(g, s) == Ok::<Nim, ErrorCode>(g));
}

/// Creating a game from an exported options text reproduces the
/// configuration: the options codec round trip is the identity.
pub proof fn lemma_options_round_trip(g: Nim)
    requires
        g.max_sub >= 1,
    ensures
        nim_create_result(nim_options_bytes(g)) == Ok::<Nim, ErrorCode>(
            nim_new(g.initial_counter, g.max_sub),
        ),
{
    let s = nim_options_bytes(g);
    let d1 = spec_dec(g.initial_counter as nat);
    let d2 = spec_dec(g.max_sub as nat);
    lemma_dec_shape(g.initial_counter as nat);
    lemma_dec_shape(g.max_sub as nat);
    lemma_dec_val(g.initial_counter as nat);
    lemma_dec_val(g.max_sub as nat);
    let di = d1.len() as int;
    assert(forall|j: int| 0 <= j < di ==> s[j] == d1[j] && 48 <= #[trigger] s[j] <= 57);
    assert(s[di] == 32);
    assert(forall|j: int|
        di < j < s.len() ==> s[j] == d2[j - di - 1] && 48 <= #[trigger] s[j] <= 57);
    assert(!is_ws(s[0]));
    assert(spec_skip_ws(s, 0) == 0);
    lemma_token_end_until(s, 0, di);
    let tok1 = s.subrange(0, di);
    assert(tok1 =~= d1);
    assert(spec_skip_ws(s, di + 1) == di + 1);
    assert(spec_skip_ws(s, di) == di + 1);
    lemma_token_end_nonws(s, di + 1);
    let tok2 = s.subrange(di + 1, s.len() as int);
    assert(tok2 =~= d2);
    assert(spec_val(tok1) == g.initial_counter);
    assert(spec_val(tok2) == g.max_sub);
    assert(nim_create_result(s) == Ok::<Nim, ErrorCode>(nim_new(g.initial_counter, g.max_sub)));
}

} // verus!
