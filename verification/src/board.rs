//! A local rules board for the UAI dialect, backed by the ataxx crate.
//!
//! The adapter keeps this board beside the engine subprocess so that
//! legality, side-to-move and terminal queries need no engine round-trips.

use vstd::prelude::*;
use std::str::FromStr;
use crate::play::GameOutcome;
use crate::players::str_eq;

verus! {

#[verifier::external_type_specification]
#[verifier::external_body]
pub struct ExBitBoard(ataxx::BitBoard);

#[verifier::external_type_specification]
#[verifier::external_body]
pub struct ExHash(ataxx::Hash);

#[verifier::external_type_specification]
pub struct ExColor(ataxx::Color);

#[verifier::external_type_specification]
pub struct ExPosition(ataxx::Position);

#[verifier::external_type_specification]
#[verifier::external_body]
pub struct ExMove(ataxx::Move);

#[verifier::external_type_specification]
#[verifier::external_body]
pub struct ExMoveList(ataxx::MoveList);

/// The moves a move list holds, as their wire texts in order.
pub uninterp spec fn movelist_texts(l: ataxx::MoveList) -> Seq<Seq<char>>;

/// What parsing a FEN string yields; parsing is deterministic in the
/// string.
pub uninterp spec fn fen_result_of(s: Seq<char>) -> Option<ataxx::Position>;

/// Whether a position is finished, as the rules crate judges it.
pub uninterp spec fn game_over_of(p: ataxx::Position) -> bool;

/// The wire texts of a position's legal moves, in generation order.
pub uninterp spec fn legal_texts_of(p: ataxx::Position) -> Seq<Seq<char>>;

/// The position after playing the `i`-th generated legal move.
pub uninterp spec fn successor_of(p: ataxx::Position, i: int) -> ataxx::Position;

/// The finished game's result; `None` while the game is running.
pub uninterp spec fn result_of(p: ataxx::Position) -> Option<GameOutcome>;

/// Relies on ataxx's `Position::from_str`: parses a three-field FEN
/// (board, side to move, half-move clock), deterministically in the
/// string; it returns an error on any malformed string and does not
/// panic. A parsed position's side to move is black or white, never
/// none (the side field itself only parses as `x` or `o`).
#[verifier::external_body]
fn position_from_fen(s: &str) -> (r: Option<ataxx::Position>)
    ensures
        r == fen_result_of(s@),
        r matches Some(p) ==> p.side_to_move != ataxx::Color::None,
{
    ataxx::Position::from_str(s).ok()
}

/// Relies on ataxx's `Position::is_game_over`: true on a full board, a
/// board where one side has no pieces, or a half-move clock of 100 or
/// more (the fifty-move rule); a function of the position alone.
#[verifier::external_body]
fn position_is_game_over(p: &ataxx::Position) -> (r: bool)
    ensures
        r == game_over_of(*p),
        p.half_move_clock >= 100 ==> r,
{
    p.is_game_over()
}

/// Relies on ataxx's `Position::generate_moves`: every legal move in the
/// position (a lone pass move when only passing is legal, none on a
/// finished game), deterministically. The position must carry a side to
/// move: the generator negates the side, which has no negation for
/// `Color::None`. The crate sizes its move list at 256, above the most
/// legal moves an ataxx position can have (49 squares bound the single
/// moves; jump moves are bounded well below the remaining room), though
/// its source states no such bound itself.
#[verifier::external_body]
fn position_generate_moves(p: &ataxx::Position) -> (r: ataxx::MoveList)
    requires
        p.side_to_move != ataxx::Color::None,
    ensures
        movelist_texts(r) == legal_texts_of(*p),
{
    p.generate_moves()
}

/// Relies on ataxx's `MoveList::iter` and `Move`'s display form: each
/// held move as its wire text (`a1`, `a1a3`, or `0000` for a pass),
/// in list order.
#[verifier::external_body]
fn movelist_to_strings(l: &ataxx::MoveList) -> (r: Vec<String>)
    ensures
        r.deep_view() == movelist_texts(*l),
{
    l.iter().map(|m| format!("{}", m)).collect()
}

/// Relies on ataxx's `MoveList::at` and `Position::after_move`, applied
/// to a move of the position's own legal-move list: `at` is defined below
/// the list's length, and `after_move` cannot panic on a generated move
/// (its squares are real board squares) of a position that has a side to
/// move and whose clock stays below the integer limit. Deterministic in
/// the position and the index; the successor always has a side to move
/// (`after_move` hands the move to the other side).
#[verifier::external_body]
fn position_play_nth(p: &ataxx::Position, l: &ataxx::MoveList, i: usize) -> (r: ataxx::Position)
    requires
        movelist_texts(*l) == legal_texts_of(*p),
        i < movelist_texts(*l).len(),
        p.side_to_move != ataxx::Color::None,
        p.half_move_clock < 255,
    ensures
        r == successor_of(*p, i as int),
        r.side_to_move != ataxx::Color::None,
{
    p.after_move(l.at(i))
}

/// Relies on ataxx's `Position::is_game_over` and `Position::winner`:
/// the finished game's result, `None` while the game is running, as a
/// function of the position alone. The winner is consulted only on
/// finished games, as its documentation requires; black is the first
/// player.
#[verifier::external_body]
fn position_result(p: &ataxx::Position) -> (r: Option<GameOutcome>)
    ensures
        r == result_of(*p),
{
    if !p.is_game_over() {
        return None;
    }
    match p.winner() {
        ataxx::Color::Black => Some(GameOutcome::P1win),
        ataxx::Color::White => Some(GameOutcome::P2win),
        ataxx::Color::None => Some(GameOutcome::Draw),
    }
}

/// A game-rules board holding the position of one running game.
pub struct LocalBoard {
    pos: ataxx::Position,
}

/// The FEN a position request denotes: `startpos` names the initial
/// position.
pub open spec fn spec_fen_of(s: Seq<char>) -> Seq<char> {
    if s == "startpos"@ {
        "x5o/7/7/7/7/7/o5x x 0"@
    } else {
        s
    }
}

/// The first index at which `texts` holds `mv`; meaningful only when one
/// exists.
pub open spec fn spec_text_index(texts: Seq<Seq<char>>, mv: Seq<char>) -> int {
    choose|i: int|
        0 <= i < texts.len() && texts[i] == mv && (forall|j: int| 0 <= j < i ==> texts[j] != mv)
}

/// A first match exists whenever any match does, and it satisfies the
/// defining property of `spec_text_index`.
proof fn lemma_first_text(texts: Seq<Seq<char>>, mv: Seq<char>, w: int)
    requires
        0 <= w < texts.len(),
        texts[w] == mv,
        forall|j: int| 0 <= j < w ==> texts[j] != mv,
    ensures
        texts.contains(mv),
        spec_text_index(texts, mv) == w,
{
    assert(texts[w] == mv);
    let i = spec_text_index(texts, mv);
    assert(0 <= i < texts.len() && texts[i] == mv && (forall|j: int|
        0 <= j < i ==> texts[j] != mv)) by {
        assert(0 <= w < texts.len() && texts[w] == mv && (forall|j: int|
            0 <= j < w ==> texts[j] != mv));
    }
    if i < w {
        assert(texts[i] != mv);
    }
    if w < i {
        assert(texts[w] != mv);
    }
}

impl LocalBoard {
    /// The underlying ataxx position.
    pub closed spec fn spec_pos(self) -> ataxx::Position {
        self.pos
    }

    /// The position carries a side to move, as every parsed or played
    /// position does.
    pub open spec fn wf(self) -> bool {
        self.spec_pos().side_to_move != ataxx::Color::None
    }

    /// Set up a board from a FEN string; `startpos` names the initial
    /// position. Returns `None` exactly when the FEN does not parse.
    pub fn from_fen(fen: &str) -> (r: Option<LocalBoard>)
        ensures
            match r {
                Some(b) => b.wf() && fen_result_of(spec_fen_of(fen@)) == Some(b.spec_pos()),
                None => fen_result_of(spec_fen_of(fen@)) is None,
            },
    {
        let pos = if str_eq(fen, "startpos") {
            position_from_fen("x5o/7/7/7/7/7/o5x x 0")
        } else {
            position_from_fen(fen)
        };
        match pos {
            Some(p) => Some(LocalBoard { pos: p }),
            None => None,
        }
    }

    /// Whether the game on this board is finished.
    pub fn is_gameover(&self) -> (r: bool)
        ensures
            r == game_over_of(self.spec_pos()),
    {
        position_is_game_over(&self.pos)
    }

    /// The side to move: `Some(0)` for black (the first player),
    /// `Some(1)` for white, `None` when the position carries no side.
    pub fn turn_index(&self) -> (r: Option<usize>)
        ensures
            r matches Some(t) ==> t == 0 || t == 1,
            (r == Some(0usize)) == (self.spec_pos().side_to_move == ataxx::Color::Black),
            (r == Some(1usize)) == (self.spec_pos().side_to_move == ataxx::Color::White),
            self.wf() ==> r is Some,
    {
        match self.pos.side_to_move {
            ataxx::Color::Black => Some(0),
            ataxx::Color::White => Some(1),
            ataxx::Color::None => None,
        }
    }

    /// Whether `mvstr` is one of the legal moves of this position, in
    /// its wire spelling.
    pub fn is_legal(&self, mvstr: &str) -> (r: bool)
        requires
            self.wf(),
        ensures
            r == legal_texts_of(self.spec_pos()).contains(mvstr@),
    {
        let moves = position_generate_moves(&self.pos);
        let texts = movelist_to_strings(&moves);
        let ghost tv = legal_texts_of(self.spec_pos());
        let mut i: usize = 0;
        while i < texts.len()
            invariant
                i <= texts@.len(),
                texts.deep_view() == tv,
                tv == legal_texts_of(self.spec_pos()),
                forall|j: int| 0 <= j < i ==> tv[j] != mvstr@,
            decreases texts@.len() - i,
        {
            proof {
                assert(texts.deep_view()[i as int] == texts@[i as int]@);
            }
            if str_eq(texts[i].as_str(), mvstr) {
                return true;
            }
            i += 1;
        }
        proof {
            if tv.contains(mvstr@) {
                let w = choose|w: int| 0 <= w < tv.len() && tv[w] == mvstr@;
                assert(tv[w] != mvstr@);
            }
        }
        false
    }

    /// Play `mvstr` if it is a legal move of this position and the clock
    /// guard holds; reports whether the board changed, and on a change the
    /// new position is the successor by that move.
    pub fn apply_move(&mut self, mvstr: &str) -> (r: bool)
        requires
            old(self).wf(),
        ensures
            final(self).wf(),
            r == (legal_texts_of(old(self).spec_pos()).contains(mvstr@) && old(
                self,
            ).spec_pos().half_move_clock < 255),
            r ==> final(self).spec_pos() == successor_of(
                old(self).spec_pos(),
                spec_text_index(legal_texts_of(old(self).spec_pos()), mvstr@),
            ),
            !r ==> *final(self) == *old(self),
    {
        let moves = position_generate_moves(&self.pos);
        let texts = movelist_to_strings(&moves);
        let ghost tv = legal_texts_of(self.spec_pos());
        let mut i: usize = 0;
        while i < texts.len()
            invariant
                i <= texts@.len(),
                texts.deep_view() == tv,
                texts.deep_view() == movelist_texts(moves),
                tv == legal_texts_of(self.spec_pos()),
                forall|j: int| 0 <= j < i ==> tv[j] != mvstr@,
                self == old(self),
                self.wf(),
            decreases texts@.len() - i,
        {
            proof {
                assert(texts.deep_view()[i as int] == texts@[i as int]@);
            }
            if str_eq(texts[i].as_str(), mvstr) {
                proof {
                    lemma_first_text(tv, mvstr@, i as int);
                }
                if self.pos.half_move_clock < 255 {
                    self.pos = position_play_nth(&self.pos, &moves, i);
                    return true;
                }
                return false;
            }
            i += 1;
        }
        proof {
            if tv.contains(mvstr@) {
                let w = choose|w: int| 0 <= w < tv.len() && tv[w] == mvstr@;
                assert(tv[w] != mvstr@);
            }
        }
        false
    }

    /// The finished game's outcome, `None` while the game is running.
    pub fn result(&self) -> (r: Option<GameOutcome>)
        ensures
            r == result_of(self.spec_pos()),
    {
        position_result(&self.pos)
    }
}

} // verus!
