//! Typed errors crossing the host boundary.
//!
//! Every failing operation stores its error in the instance's error channel
//! and hands the host a typed code; the message stays retrievable until the
//! next failing operation overwrites it.

use vstd::prelude::*;

verus! {

use vstd::string::StringSliceAdditionalSpecFns;

/// Typed error kind, one-to-one with the host's error codes.
#[derive(Clone, Copy, PartialEq, Eq, Structural, Debug)]
pub enum ErrorCode {
    StateUnrecoverable,
    StateCorrupted,
    OutOfMemory,
    FeatureUnsupported,
    StateUninitialized,
    InvalidInput,
    InvalidOptions,
    UnstablePosition,
    SyncCounterMismatch,
    Retry,
}

/// Optional error message as terminator-delimited text.
///
/// `Absent` is the marker the host receives when no message is stored.
#[derive(Clone, PartialEq, Eq, Debug)]
pub enum ErrorString {
    Absent,
    Text(Vec<u8>),
}

impl View for ErrorString {
    type V = Option<Seq<u8>>;

    open spec fn view(&self) -> Option<Seq<u8>> {
        match self {
            ErrorString::Absent => None,
            ErrorString::Text(v) => Some(v@),
        }
    }
}

/// A typed error kind together with an optional message.
#[derive(Clone, PartialEq, Eq, Debug)]
pub struct Error {
    pub code: ErrorCode,
    pub message: ErrorString,
}

impl Error {
    /// An error that carries no message.
    pub fn new(code: ErrorCode) -> (e: Error)
        ensures
            e.code == code,
            e.message is Absent,
    {
        Error { code, message: ErrorString::Absent }
    }

    /// An error whose message is a fixed text.
    ///
    /// The text is stored as it stands; fixed messages are expected to be
    /// free of terminator bytes.
    pub fn new_static(code: ErrorCode, message: &str) -> (e: Error)
        ensures
            e.code == code,
            e.message@ == Some(spec_str_bytes(message)),
    {
        Error { code, message: ErrorString::Text(str_bytes(message)) }
    }

    /// An error whose message is built from caller-controlled data.
    ///
    /// Embedded terminator bytes are stripped before storage, so malformed
    /// data cannot cut the message short at the text boundary.
    pub fn new_dynamic(code: ErrorCode, message: Vec<u8>) -> (e: Error)
        ensures
            e.code == code,
            e.message@ == Some(spec_strip_nul(message@)),
    {
        Error { code, message: ErrorString::Text(strip_nul(message)) }
    }
}

/// `s` with every terminator byte removed, in order.
pub open spec fn spec_strip_nul(s: Seq<u8>) -> Seq<u8>
    decreases s.len(),
{
    if s.len() == 0 {
        Seq::empty()
    } else if s[0] != 0 {
        seq![s[0]] + spec_strip_nul(s.subrange(1, s.len() as int))
    } else {
        spec_strip_nul(s.subrange(1, s.len() as int))
    }
}

/// The bytes a text is encoded as.
pub open spec fn spec_str_bytes(s: &str) -> Seq<u8> {
    s.spec_bytes()
}

/// Copy the bytes of a text into an owned vector.
pub fn str_bytes(s: &str) -> (v: Vec<u8>)
    ensures
        v@ == spec_str_bytes(s),
{
    let b = s.as_bytes();
    let mut v: Vec<u8> = Vec::new();
    let mut i: usize = 0;
    while i < b.len()
        invariant
            i <= b@.len(),
            b@ == s.spec_bytes(),
            v@ == b@.subrange(0, i as int),
        decreases b@.len() - i,
    {
        v.push(b[i]);
        i += 1;
        proof {
            assert(v@ =~= b@.subrange(0, i as int));
        }
    }
    proof {
        assert(b@.subrange(0, b@.len() as int) =~= b@);
    }
    v
}

/// Remove every terminator byte from `message`.
fn strip_nul(message: Vec<u8>) -> (v: Vec<u8>)
    ensures
        v@ == spec_strip_nul(message@),
{
    let n = message.len();
    let mut v: Vec<u8> = Vec::new();
    let mut i: usize = 0;
    proof {
        assert(message@.subrange(0, n as int) =~= message@);
        assert(Seq::<u8>::empty() + spec_strip_nul(message@) =~= spec_strip_nul(message@));
    }
    while i < n
        invariant
            i <= n,
            n == message@.len(),
            spec_strip_nul(message@) == v@ + spec_strip_nul(
                message@.subrange(i as int, n as int),
            ),
        decreases n - i,
    {
        proof {
            let suf = message@.subrange(i as int, n as int);
            assert(suf[0] == message@[i as int]);
            assert(suf.subrange(1, suf.len() as int) =~= message@.subrange(i + 1, n as int));
            if message@[i as int] != 0 {
                assert((v@ + seq![message@[i as int]]) + spec_strip_nul(
                    message@.subrange(i + 1, n as int),
                ) =~= v@ + (seq![message@[i as int]] + spec_strip_nul(
                    message@.subrange(i + 1, n as int),
                )));
            }
        }
        if message[i] != 0 {
            v.push(message[i]);
        }
        i += 1;
    }
    proof {
        assert(message@.subrange(n as int, n as int) =~= Seq::<u8>::empty());
        assert(v@ + Seq::<u8>::empty() =~= v@);
    }
    v
}

} // verus!
