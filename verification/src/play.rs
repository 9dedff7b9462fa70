//! The game driver: plays one game between two engines, ply by ply,
//! enforcing legality, the clock, and the maximum game length.

use vstd::prelude::*;
use crate::clock::clock_tick;
use crate::players::Player;

verus! {

/// The most plies a game may last; reaching it adjudicates a draw.
pub const MAX_PLY: usize = 1024;

/// The outcome of one game, from the first player's perspective.
#[derive(Clone, Copy, PartialEq, Eq, Structural, Debug)]
pub enum GameOutcome {
    P1win,
    P2win,
    Draw,
}

/// What a finished game reports back to the coordinator.
#[derive(Clone, Copy, PartialEq, Debug)]
pub struct GameData {
    pub id: usize,
    pub outcome: Option<GameOutcome>,
    pub player1: usize,
    pub player2: usize,
    pub ply: usize,
    pub abort: Option<AbortKind>,
}

/// Why a game ended before the judge called it over; forfeits carry the
/// side that misbehaved.
#[derive(Clone, Copy, PartialEq, Eq, Structural, Debug)]
pub enum AbortKind {
    Timeout(usize),
    IllegalMove(usize),
    MaxGameLength,
    NoTurn,
    PlayerStall,
}

#[verifier::external_type_specification]
#[verifier::external_body]
pub struct ExInstant(std::time::Instant);

/// Relies on Instant::now: a monotonic timestamp.
#[verifier::external_body]
fn time_now() -> std::time::Instant {
    std::time::Instant::now()
}

/// Relies on Instant::elapsed: the time since `start`.
#[verifier::external_body]
fn time_elapsed(start: &std::time::Instant) -> std::time::Duration {
    start.elapsed()
}

/// Relies on Duration::as_millis, truncated to 64 bits.
#[verifier::external_body]
fn duration_millis(d: &std::time::Duration) -> u64 {
    d.as_millis() as u64
}

/// The outcome a result wire word denotes, if any.
pub open spec fn spec_outcome_of(s: Seq<char>) -> Option<GameOutcome> {
    if s == "p1win"@ {
        Some(GameOutcome::P1win)
    } else if s == "p2win"@ {
        Some(GameOutcome::P2win)
    } else if s == "draw"@ {
        Some(GameOutcome::Draw)
    } else {
        None
    }
}

/// Translate a result wire word into an outcome.
pub fn outcome_from_str(s: &str) -> (r: Option<GameOutcome>)
    ensures
        r == spec_outcome_of(s@),
{
    if crate::players::str_eq(s, "p1win") {
        Some(GameOutcome::P1win)
    } else if crate::players::str_eq(s, "p2win") {
        Some(GameOutcome::P2win)
    } else if crate::players::str_eq(s, "draw") {
        Some(GameOutcome::Draw)
    } else {
        None
    }
}

/// The wire word of an outcome.
pub open spec fn spec_outcome_word(o: GameOutcome) -> Seq<char> {
    match o {
        GameOutcome::P1win => "p1win"@,
        GameOutcome::P2win => "p2win"@,
        GameOutcome::Draw => "draw"@,
    }
}

/// Spell an outcome as its result wire word.
pub fn outcome_to_str(o: GameOutcome) -> (r: &'static str)
    ensures
        r@ == spec_outcome_word(o),
{
    match o {
        GameOutcome::P1win => "p1win",
        GameOutcome::P2win => "p2win",
        GameOutcome::Draw => "draw",
    }
}

/// Spelling an outcome and reading it back yields the outcome again.
pub proof fn lemma_outcome_word_round_trip(o: GameOutcome)
    ensures
        spec_outcome_of(spec_outcome_word(o)) == Some(o),
{
    reveal_strlit("p1win");
    reveal_strlit("p2win");
    reveal_strlit("draw");
    match o {
        GameOutcome::P1win => {},
        GameOutcome::P2win => {
            assert("p2win"@[1] == '2' && "p1win"@[1] == '1');
        },
        GameOutcome::Draw => {
            assert("draw"@.len() == 4 && "p1win"@.len() == 5 && "p2win"@.len() == 5);
        },
    }
}

/// The winner by forfeit when the side `turn` misbehaves.
pub open spec fn spec_forfeit_winner(turn: usize) -> GameOutcome {
    if turn == 0 {
        GameOutcome::P2win
    } else {
        GameOutcome::P1win
    }
}

/// What one validated ply decides: an illegal move or a timeout forfeits
/// to the other side, a game at the ply cap is drawn, anything else
/// continues.
pub open spec fn spec_ply_decision(turn: usize, legal: bool, timeout: bool, ply: usize) -> Option<
    (GameOutcome, AbortKind),
> {
    if !legal {
        Some((spec_forfeit_winner(turn), AbortKind::IllegalMove(turn)))
    } else if timeout {
        Some((spec_forfeit_winner(turn), AbortKind::Timeout(turn)))
    } else if ply >= MAX_PLY {
        Some((GameOutcome::Draw, AbortKind::MaxGameLength))
    } else {
        None
    }
}

/// Decide one ply from the judge's legality verdict, the clock's timeout
/// verdict and the plies played so far.
pub fn ply_decision(turn: usize, legal: bool, timeout: bool, ply: usize) -> (r: Option<
    (GameOutcome, AbortKind),
>)
    ensures
        r == spec_ply_decision(turn, legal, timeout, ply),
{
    if !legal {
        Some((if turn == 0 {
            GameOutcome::P2win
        } else {
            GameOutcome::P1win
        }, AbortKind::IllegalMove(turn)))
    } else if timeout {
        Some((if turn == 0 {
            GameOutcome::P2win
        } else {
            GameOutcome::P1win
        }, AbortKind::Timeout(turn)))
    } else if ply >= MAX_PLY {
        Some((GameOutcome::Draw, AbortKind::MaxGameLength))
    } else {
        None
    }
}

/// Play one game between `player1` and `player2` from the opening `fen`.
///
/// `player1` acts as the judge: it answers legality, turn and terminal
/// queries. The returned game data always carries the real game id, player
/// indices and ply count; the outcome is `None` when the game ended without
/// a result (no side to move, a stalled engine, or an unanswerable result
/// query).
pub fn play<P1: Player, P2: Player>(
    game_id: usize,
    p1_id: usize,
    p2_id: usize,
    fen: &str,
    player1: &mut P1,
    player2: &mut P2,
) -> (r: Option<GameData>)
    ensures
        r is Some,
        r matches Some(d) ==> {
            &&& d.id == game_id
            &&& d.player1 == p1_id
            &&& d.player2 == p2_id
            &&& d.ply <= MAX_PLY
            &&& d.abort matches Some(AbortKind::IllegalMove(t)) ==> t <= 1 && d.outcome
                == Some(spec_forfeit_winner(t))
            &&& d.abort matches Some(AbortKind::Timeout(t)) ==> t <= 1 && d.outcome == Some(
                spec_forfeit_winner(t),
            )
            &&& d.abort == Some(AbortKind::MaxGameLength) ==> d.outcome == Some(
                GameOutcome::Draw,
            ) && d.ply == MAX_PLY
            &&& d.abort == Some(AbortKind::NoTurn) ==> d.outcome is None
            &&& d.abort == Some(AbortKind::PlayerStall) ==> d.outcome is None
        },
{
    let mut num_ply: usize = 0;

    player1.set_position(fen);
    player2.set_position(fen);

    loop
        invariant
            num_ply <= MAX_PLY,
        decreases MAX_PLY - num_ply,
    {
        // The judge decides whether the game is over.
        if player1.is_gameover() {
            break;
        }

        // The judge names the side to move; anything but the two players
        // ends the game without a result.
        let turn = match player1.get_turn() {
            Some(t) if t <= 1 => t,
            _ => {
                return Some(GameData {
                    id: game_id,
                    outcome: None,
                    player1: p1_id,
                    player2: p2_id,
                    ply: num_ply,
                    abort: Some(AbortKind::NoTurn),
                });
            },
        };

        if turn == 0 {
            player1.isready();
        } else {
            player2.isready();
        }

        let start = time_now();

        let mv = match (if turn == 0 {
            player1.get_move()
        } else {
            player2.get_move()
        }) {
            Some(m) => m,
            None => {
                return Some(GameData {
                    id: game_id,
                    outcome: None,
                    player1: p1_id,
                    player2: p2_id,
                    ply: num_ply,
                    abort: Some(AbortKind::PlayerStall),
                });
            },
        };

        let dur = time_elapsed(&start);
        let elapsed = duration_millis(&dur);

        let is_legal = player1.is_legal(mv.as_str());

        // Charge the move against the active player's clock.
        let mut clock = if turn == 0 {
            player1.get_clock()
        } else {
            player2.get_clock()
        };
        let is_timeout = clock_tick(&mut clock, elapsed);
        if turn == 0 {
            player1.set_clock(clock);
        } else {
            player2.set_clock(clock);
        }

        // Forfeit an illegal or late move, adjudicate an over-long game.
        if let Some(decided) = ply_decision(turn, is_legal, is_timeout, num_ply) {
            let (outcome, kind) = decided;
            return Some(GameData {
                id: game_id,
                outcome: Some(outcome),
                player1: p1_id,
                player2: p2_id,
                ply: num_ply,
                abort: Some(kind),
            });
        }

        num_ply += 1;

        // Both engines apply the move so their states stay identical.
        player1.makemove(mv.as_str());
        player2.makemove(mv.as_str());
    }

    // The judge names the final result.
    let outcome = match player1.query_result() {
        Some(s) => outcome_from_str(s.as_str()),
        None => None,
    };

    Some(GameData { id: game_id, outcome, player1: p1_id, player2: p2_id, ply: num_ply, abort: None })
}

} // verus!
