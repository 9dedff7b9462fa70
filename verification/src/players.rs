//! Engine protocols and the capability set the game driver needs
//! from an engine adapter.

use vstd::prelude::*;
use crate::clock::ClockType;

verus! {

/// The wire dialects an engine may speak.
#[derive(Clone, Copy, PartialEq, Eq, Structural, Debug)]
pub enum Protocol {
    UGI,
    UAI,
    UCI,
}

/// The lower-case folding of a string; the result depends on the
/// characters alone.
pub uninterp spec fn lower_of(s: Seq<char>) -> Seq<char>;

/// Relies on str::to_lowercase: Unicode lower-casing, a function of the
/// characters alone.
#[verifier::external_body]
fn lowercase(s: &str) -> (r: String)
    ensures
        r@ == lower_of(s@),
{
    s.to_lowercase()
}

/// Relies on str's `==`: equality of the character sequences.
#[verifier::external_body]
pub(crate) fn str_eq(a: &str, b: &str) -> (r: bool)
    ensures
        r == (a@ == b@),
{
    a == b
}

/// The protocol a lower-cased name denotes, if any.
pub open spec fn spec_protocol_of(low: Seq<char>) -> Option<Protocol> {
    if low == "ugi"@ {
        Some(Protocol::UGI)
    } else if low == "uai"@ {
        Some(Protocol::UAI)
    } else if low == "uci"@ {
        Some(Protocol::UCI)
    } else {
        None
    }
}

/// Recognise a protocol name, ignoring case.
pub fn get_protocol(name: &str) -> (r: Option<Protocol>)
    ensures
        r == spec_protocol_of(lower_of(name@)),
{
    let low = lowercase(name);
    if str_eq(low.as_str(), "ugi") {
        Some(Protocol::UGI)
    } else if str_eq(low.as_str(), "uai") {
        Some(Protocol::UAI)
    } else if str_eq(low.as_str(), "uci") {
        Some(Protocol::UCI)
    } else {
        None
    }
}

/// The move token of a `bestmove <mv>` line, its trailing newline
/// stripped; a line must hold at least one token character to match.
pub open spec fn spec_bestmove_of(s: Seq<char>) -> Option<Seq<char>> {
    if s.len() >= 10 && s.take(8) == "bestmove"@ {
        Some(s.subrange(9, s.len() as int - 1))
    } else {
        None
    }
}

/// Extract the move from a `bestmove <mv>` line.
pub fn bestmove_of(line: &str) -> (r: Option<String>)
    ensures
        match r {
            Some(mv) => spec_bestmove_of(line@) == Some(mv@),
            None => spec_bestmove_of(line@) is None,
        },
{
    let n = line.unicode_len();
    if n >= 10 && str_eq(line.substring_char(0, 8), "bestmove") {
        Some(line.substring_char(9, n - 1).to_owned())
    } else {
        None
    }
}

/// The boolean a `response <v>` line answers, if any.
pub open spec fn spec_response_bool(s: Seq<char>) -> Option<bool> {
    if s == "response true\n"@ {
        Some(true)
    } else if s == "response false\n"@ {
        Some(false)
    } else {
        None
    }
}

/// Classify a boolean query answer line.
pub fn response_bool(line: &str) -> (r: Option<bool>)
    ensures
        r == spec_response_bool(line@),
{
    if str_eq(line, "response true\n") {
        Some(true)
    } else if str_eq(line, "response false\n") {
        Some(false)
    } else {
        None
    }
}

/// The result word a `response <r>` line answers, if any.
pub open spec fn spec_response_result(s: Seq<char>) -> Option<Seq<char>> {
    if s == "response p1win\n"@ {
        Some("p1win"@)
    } else if s == "response p2win\n"@ {
        Some("p2win"@)
    } else if s == "response draw\n"@ {
        Some("draw"@)
    } else if s == "response none\n"@ {
        Some("none"@)
    } else {
        None
    }
}

/// Classify a result query answer line into its result word.
pub fn response_result(line: &str) -> (r: Option<String>)
    ensures
        match r {
            Some(word) => spec_response_result(line@) == Some(word@),
            None => spec_response_result(line@) is None,
        },
{
    if str_eq(line, "response p1win\n") {
        Some("p1win".to_owned())
    } else if str_eq(line, "response p2win\n") {
        Some("p2win".to_owned())
    } else if str_eq(line, "response draw\n") {
        Some("draw".to_owned())
    } else if str_eq(line, "response none\n") {
        Some("none".to_owned())
    } else {
        None
    }
}

/// The capability set the game driver uses to talk to one engine.
///
/// Implementations drive a child process over a line protocol (or script an
/// engine for testing); the driver makes no assumption about what they
/// return beyond the types.
pub trait Player {
    /// Perform the protocol handshake.
    fn init(&mut self);

    /// Synchronise: return once the engine is ready.
    fn isready(&mut self);

    /// Set the current position from a FEN string (or `startpos`).
    fn set_position(&mut self, fen: &str);

    /// Ask for a move on the current position.
    fn get_move(&mut self) -> (r: Option<String>);

    /// Report a move that was played, keeping the engine's state current.
    fn makemove(&mut self, mvstr: &str) -> (r: bool);

    /// The player's clock policy and state.
    fn get_clock(&self) -> (r: ClockType);

    /// Replace the player's clock state.
    fn set_clock(&mut self, clock: ClockType);

    /// Whether the current position is terminal.
    fn is_gameover(&mut self) -> (r: bool);

    /// Whether a move is legal in the current position.
    fn is_legal(&mut self, mvstr: &str) -> (r: bool);

    /// The side to move: 0 for the first player, 1 for the second.
    fn get_turn(&mut self) -> (r: Option<usize>);

    /// The final result of a finished game, as the wire word
    /// (`p1win`, `p2win`, `draw` or `none`).
    fn query_result(&mut self) -> (r: Option<String>);
}

} // verus!
