//! The coordinator's reducer steps: statistics updates, pair bookkeeping
//! and the stopping and reporting decisions.
//!
//! The coordinator owns all aggregate state; workers only send it events.
//! Each function here is one step of the event reducer, from plain values
//! to plain values, so the surrounding event loop stays free of logic.

use vstd::prelude::*;
use crate::play::{GameData, GameOutcome};
use crate::stats::{WLD, WLDPairs};
use crate::store::Store;

verus! {

/// Per-player aggregates, mutated only by the coordinator.
#[derive(Debug)]
pub struct PlayerStatistics {
    pub name: String,
    pub played: usize,
    pub crashes: usize,
    pub timeouts: usize,
    pub illegalmoves: usize,
    pub wld: WLD,
    pub wld_pairs: WLDPairs,
}

/// Tournament-wide aggregates, mutated only by the coordinator.
#[derive(Clone, Copy, PartialEq, Eq, Structural, Debug)]
pub struct TournamentStatistics {
    pub games_completed: usize,
    pub players_created: usize,
    pub players_destroyed: usize,
}

/// A completed colour-reversed pair, in game order: `first_player` had the
/// first colour in the even-id game.
#[derive(Clone, Copy, PartialEq, Debug)]
pub struct PairResult {
    pub first_player: usize,
    pub second_player: usize,
    pub first_outcome: Option<GameOutcome>,
    pub second_outcome: Option<GameOutcome>,
}

impl TournamentStatistics {
    pub fn new() -> (r: Self)
        ensures
            r == (TournamentStatistics {
                games_completed: 0,
                players_created: 0,
                players_destroyed: 0,
            }),
    {
        Self { games_completed: 0, players_created: 0, players_destroyed: 0 }
    }
}

/// The game's first player's trinomial counters after an outcome.
pub open spec fn spec_wld_first(s: WLD, o: GameOutcome) -> WLD {
    match o {
        GameOutcome::P1win => WLD { w: (s.w + 1) as usize, ..s },
        GameOutcome::P2win => WLD { l: (s.l + 1) as usize, ..s },
        GameOutcome::Draw => WLD { d: (s.d + 1) as usize, ..s },
    }
}

/// The game's second player's trinomial counters after an outcome.
pub open spec fn spec_wld_second(s: WLD, o: GameOutcome) -> WLD {
    match o {
        GameOutcome::P1win => WLD { l: (s.l + 1) as usize, ..s },
        GameOutcome::P2win => WLD { w: (s.w + 1) as usize, ..s },
        GameOutcome::Draw => WLD { d: (s.d + 1) as usize, ..s },
    }
}

/// A player's aggregates after one more game: `played` always counts the
/// game; the trinomial counters move only for a decided outcome.
pub open spec fn spec_stats_after(
    ps: PlayerStatistics,
    outcome: Option<GameOutcome>,
    first: bool,
) -> PlayerStatistics {
    PlayerStatistics {
        played: (ps.played + 1) as usize,
        wld: match outcome {
            Some(o) => if first {
                spec_wld_first(ps.wld, o)
            } else {
                spec_wld_second(ps.wld, o)
            },
            None => ps.wld,
        },
        ..ps
    }
}

/// The id of the partner game in the same colour-reversed pair.
pub open spec fn spec_partner_id(id: usize) -> int {
    if id % 2 == 0 {
        id + 1
    } else {
        id - 1
    }
}

/// The two games of a pair are never both in the store: the store holds a
/// game only while its partner is unfinished, and a finishing partner
/// consumes the stored entry.
pub open spec fn spec_pair_store_wf(s: Store<usize, GameOutcome>) -> bool {
    forall|k: usize| s.has_key(k) ==> !s.has_key(#[trigger] spec_partner_id(k) as usize)
}

/// Partnering is an involution: the partner of a game's partner is the
/// game itself, and the partner id always fits in a machine word.
pub proof fn lemma_partner_involution(k: usize)
    ensures
        0 <= spec_partner_id(k) <= usize::MAX,
        spec_partner_id(spec_partner_id(k) as usize) == k,
{
    if k % 2 == 0 {
        assert(k < usize::MAX) by {
            assert(usize::MAX % 2 == 1);
        }
        assert((k + 1) % 2 == 1) by (nonlinear_arith)
            requires
                k % 2 == 0,
        ;
    } else {
        assert(k >= 1);
        assert((k - 1) % 2 == 0) by (nonlinear_arith)
            requires
                k % 2 == 1,
        ;
    }
}

/// All counters a finished game may move can still grow.
pub open spec fn spec_counters_ok(ps: PlayerStatistics) -> bool {
    &&& ps.played < usize::MAX
    &&& ps.wld.w < usize::MAX
    &&& ps.wld.l < usize::MAX
    &&& ps.wld.d < usize::MAX
}

/// Process one finished game: count it for both players, file it against
/// its colour-reversed partner, and hand back the completed pair, if any.
///
/// A game without an outcome is counted as played for both players but
/// moves no other state. Otherwise, when the partner game is already in the
/// pair store it is removed and the pair is returned in game order; when it
/// is not, this game's outcome is stored until the partner finishes.
pub fn on_game_finish(
    data: &GameData,
    pair_store: &mut Store<usize, GameOutcome>,
    player_stats: &mut Vec<PlayerStatistics>,
    tournament_stats: &mut TournamentStatistics,
) -> (r: Option<PairResult>)
    requires
        data.player1 != data.player2,
        data.player1 < old(player_stats)@.len(),
        data.player2 < old(player_stats)@.len(),
        spec_counters_ok(old(player_stats)@[data.player1 as int]),
        spec_counters_ok(old(player_stats)@[data.player2 as int]),
        old(tournament_stats).games_completed < usize::MAX,
        old(pair_store).wf(),
        spec_pair_store_wf(*old(pair_store)),
        !old(pair_store).has_key(data.id),
        old(pair_store).spec_len() < old(pair_store).spec_capacity(),
        data.id < usize::MAX,
    ensures
        final(pair_store).wf(),
        spec_pair_store_wf(*final(pair_store)),
        final(pair_store).spec_capacity() == old(pair_store).spec_capacity(),
        final(player_stats)@ == old(player_stats)@.update(
            data.player1 as int,
            spec_stats_after(old(player_stats)@[data.player1 as int], data.outcome, true),
        ).update(
            data.player2 as int,
            spec_stats_after(old(player_stats)@[data.player2 as int], data.outcome, false),
        ),
        data.outcome is None ==> r is None && *final(pair_store) == *old(pair_store)
            && *final(tournament_stats) == *old(tournament_stats),
        data.outcome is Some ==> *final(tournament_stats) == (TournamentStatistics {
            games_completed: (old(tournament_stats).games_completed + 1) as usize,
            ..*old(tournament_stats)
        }),
        data.outcome matches Some(o) ==> old(pair_store).has_key(
            spec_partner_id(data.id) as usize,
        ) ==> {
            &&& r == Some(
                PairResult {
                    first_player: if data.id % 2 == 0 {
                        data.player1
                    } else {
                        data.player2
                    },
                    second_player: if data.id % 2 == 0 {
                        data.player2
                    } else {
                        data.player1
                    },
                    first_outcome: if data.id % 2 == 0 {
                        Some(o)
                    } else {
                        Some(old(pair_store).value_of(spec_partner_id(data.id) as usize))
                    },
                    second_outcome: if data.id % 2 == 0 {
                        Some(old(pair_store).value_of(spec_partner_id(data.id) as usize))
                    } else {
                        Some(o)
                    },
                },
            )
            &&& final(pair_store).spec_len() == old(pair_store).spec_len() - 1
            &&& !final(pair_store).has_key(spec_partner_id(data.id) as usize)
            &&& forall|k: usize|
                k != spec_partner_id(data.id) as usize ==> final(pair_store).has_key(k) == old(
                    pair_store,
                ).has_key(k)
        },
        data.outcome matches Some(o) ==> !old(pair_store).has_key(
            spec_partner_id(data.id) as usize,
        ) ==> {
            &&& r is None
            &&& final(pair_store).spec_len() == old(pair_store).spec_len() + 1
            &&& final(pair_store).has_key(data.id)
            &&& final(pair_store).value_of(data.id) == o
            &&& forall|k: usize|
                k != data.id ==> final(pair_store).has_key(k) == old(pair_store).has_key(k)
        },
{
    // Count the game for both players.
    let ps1 = &mut player_stats[data.player1];
    ps1.played = ps1.played + 1;
    if let Some(o) = data.outcome {
        match o {
            GameOutcome::P1win => { ps1.wld.w = ps1.wld.w + 1; },
            GameOutcome::P2win => { ps1.wld.l = ps1.wld.l + 1; },
            GameOutcome::Draw => { ps1.wld.d = ps1.wld.d + 1; },
        }
    }
    let ps2 = &mut player_stats[data.player2];
    ps2.played = ps2.played + 1;
    if let Some(o) = data.outcome {
        match o {
            GameOutcome::P1win => { ps2.wld.l = ps2.wld.l + 1; },
            GameOutcome::P2win => { ps2.wld.w = ps2.wld.w + 1; },
            GameOutcome::Draw => { ps2.wld.d = ps2.wld.d + 1; },
        }
    }

    let outcome = match data.outcome {
        Some(o) => o,
        None => {
            // A game without a result moves nothing else.
            return None;
        },
    };

    tournament_stats.games_completed = tournament_stats.games_completed + 1;

    // File the game against its colour-reversed partner.
    let is_first_game = data.id % 2 == 0;
    let partner_id = if is_first_game {
        data.id + 1
    } else {
        data.id - 1
    };

    match pair_store.remove(partner_id) {
        Some(partner_outcome) => {
            proof {
                assert forall|k: usize| pair_store.has_key(k) implies !pair_store.has_key(
                    #[trigger] spec_partner_id(k) as usize,
                ) by {
                    lemma_partner_involution(k);
                }
            }
            let first_player = if is_first_game {
                data.player1
            } else {
                data.player2
            };
            let second_player = if is_first_game {
                data.player2
            } else {
                data.player1
            };
            let first_outcome = if is_first_game {
                Some(outcome)
            } else {
                Some(partner_outcome)
            };
            let second_outcome = if is_first_game {
                Some(partner_outcome)
            } else {
                Some(outcome)
            };
            Some(PairResult { first_player, second_player, first_outcome, second_outcome })
        },
        None => {
            pair_store.insert(data.id, outcome);
            proof {
                lemma_partner_involution(data.id);
                assert forall|k: usize| pair_store.has_key(k) implies !pair_store.has_key(
                    #[trigger] spec_partner_id(k) as usize,
                ) by {
                    lemma_partner_involution(k);
                }
            }
            None
        },
    }
}

/// Every pentanomial cell can still grow.
pub open spec fn spec_pairs_ok(p: WLDPairs) -> bool {
    &&& p.ww < usize::MAX
    &&& p.wl < usize::MAX
    &&& p.wd < usize::MAX
    &&& p.dw < usize::MAX
    &&& p.dl < usize::MAX
    &&& p.dd < usize::MAX
    &&& p.lw < usize::MAX
    &&& p.ll < usize::MAX
    &&& p.ld < usize::MAX
}

/// The pair's first player's pentanomial cells after a completed pair.
/// The second game is colour-reversed, so a first-player win there counts
/// against the pair's first player.
pub open spec fn spec_pairs_first(p: WLDPairs, r1: GameOutcome, r2: GameOutcome) -> WLDPairs {
    match (r1, r2) {
        (GameOutcome::P1win, GameOutcome::P1win) => WLDPairs { wl: (p.wl + 1) as usize, ..p },
        (GameOutcome::P1win, GameOutcome::P2win) => WLDPairs { ww: (p.ww + 1) as usize, ..p },
        (GameOutcome::P1win, GameOutcome::Draw) => WLDPairs { wd: (p.wd + 1) as usize, ..p },
        (GameOutcome::P2win, GameOutcome::P1win) => WLDPairs { ll: (p.ll + 1) as usize, ..p },
        (GameOutcome::P2win, GameOutcome::P2win) => WLDPairs { lw: (p.lw + 1) as usize, ..p },
        (GameOutcome::P2win, GameOutcome::Draw) => WLDPairs { ld: (p.ld + 1) as usize, ..p },
        (GameOutcome::Draw, GameOutcome::P1win) => WLDPairs { dl: (p.dl + 1) as usize, ..p },
        (GameOutcome::Draw, GameOutcome::P2win) => WLDPairs { dw: (p.dw + 1) as usize, ..p },
        (GameOutcome::Draw, GameOutcome::Draw) => WLDPairs { dd: (p.dd + 1) as usize, ..p },
    }
}

/// The opposite single-game outcome; a draw stays a draw.
pub open spec fn spec_outcome_flip(o: GameOutcome) -> GameOutcome {
    match o {
        GameOutcome::P1win => GameOutcome::P2win,
        GameOutcome::P2win => GameOutcome::P1win,
        GameOutcome::Draw => GameOutcome::Draw,
    }
}

/// The pair's second player's cells: the first player's table applied to
/// the flipped outcomes.
pub open spec fn spec_pairs_second(p: WLDPairs, r1: GameOutcome, r2: GameOutcome) -> WLDPairs {
    spec_pairs_first(p, spec_outcome_flip(r1), spec_outcome_flip(r2))
}

/// Record one completed colour-reversed pair in both players' pentanomial
/// counters. A pair in which either game lacks an outcome moves nothing.
pub fn on_game_pair_result(
    player_stats: &mut Vec<PlayerStatistics>,
    p1: usize,
    p2: usize,
    r1: Option<GameOutcome>,
    r2: Option<GameOutcome>,
)
    requires
        p1 != p2,
        p1 < old(player_stats)@.len(),
        p2 < old(player_stats)@.len(),
        spec_pairs_ok(old(player_stats)@[p1 as int].wld_pairs),
        spec_pairs_ok(old(player_stats)@[p2 as int].wld_pairs),
    ensures
        match (r1, r2) {
            (Some(a), Some(b)) => final(player_stats)@ == old(player_stats)@.update(
                p1 as int,
                PlayerStatistics {
                    wld_pairs: spec_pairs_first(old(player_stats)@[p1 as int].wld_pairs, a, b),
                    ..old(player_stats)@[p1 as int]
                },
            ).update(
                p2 as int,
                PlayerStatistics {
                    wld_pairs: spec_pairs_second(old(player_stats)@[p2 as int].wld_pairs, a, b),
                    ..old(player_stats)@[p2 as int]
                },
            ),
            _ => final(player_stats)@ == old(player_stats)@,
        },
{
    let (a, b) = match (r1, r2) {
        (Some(a), Some(b)) => (a, b),
        _ => {
            return ;
        },
    };

    let s1 = &mut player_stats[p1];
    match (a, b) {
        (GameOutcome::P1win, GameOutcome::P1win) => { s1.wld_pairs.wl = s1.wld_pairs.wl + 1; },
        (GameOutcome::P1win, GameOutcome::P2win) => { s1.wld_pairs.ww = s1.wld_pairs.ww + 1; },
        (GameOutcome::P1win, GameOutcome::Draw) => { s1.wld_pairs.wd = s1.wld_pairs.wd + 1; },
        (GameOutcome::P2win, GameOutcome::P1win) => { s1.wld_pairs.ll = s1.wld_pairs.ll + 1; },
        (GameOutcome::P2win, GameOutcome::P2win) => { s1.wld_pairs.lw = s1.wld_pairs.lw + 1; },
        (GameOutcome::P2win, GameOutcome::Draw) => { s1.wld_pairs.ld = s1.wld_pairs.ld + 1; },
        (GameOutcome::Draw, GameOutcome::P1win) => { s1.wld_pairs.dl = s1.wld_pairs.dl + 1; },
        (GameOutcome::Draw, GameOutcome::P2win) => { s1.wld_pairs.dw = s1.wld_pairs.dw + 1; },
        (GameOutcome::Draw, GameOutcome::Draw) => { s1.wld_pairs.dd = s1.wld_pairs.dd + 1; },
    }

    let s2 = &mut player_stats[p2];
    match (a, b) {
        (GameOutcome::P1win, GameOutcome::P1win) => { s2.wld_pairs.lw = s2.wld_pairs.lw + 1; },
        (GameOutcome::P1win, GameOutcome::P2win) => { s2.wld_pairs.ll = s2.wld_pairs.ll + 1; },
        (GameOutcome::P1win, GameOutcome::Draw) => { s2.wld_pairs.ld = s2.wld_pairs.ld + 1; },
        (GameOutcome::P2win, GameOutcome::P1win) => { s2.wld_pairs.ww = s2.wld_pairs.ww + 1; },
        (GameOutcome::P2win, GameOutcome::P2win) => { s2.wld_pairs.wl = s2.wld_pairs.wl + 1; },
        (GameOutcome::P2win, GameOutcome::Draw) => { s2.wld_pairs.wd = s2.wld_pairs.wd + 1; },
        (GameOutcome::Draw, GameOutcome::P1win) => { s2.wld_pairs.dw = s2.wld_pairs.dw + 1; },
        (GameOutcome::Draw, GameOutcome::P2win) => { s2.wld_pairs.dl = s2.wld_pairs.dl + 1; },
        (GameOutcome::Draw, GameOutcome::Draw) => { s2.wld_pairs.dd = s2.wld_pairs.dd + 1; },
    }
}

/// Count one engine subprocess creation.
pub fn on_player_create(tournament_stats: &mut TournamentStatistics)
    requires
        old(tournament_stats).players_created < usize::MAX,
    ensures
        *final(tournament_stats) == (TournamentStatistics {
            players_created: (old(tournament_stats).players_created + 1) as usize,
            ..*old(tournament_stats)
        }),
{
    tournament_stats.players_created = tournament_stats.players_created + 1;
}

/// Count one engine subprocess destruction.
pub fn on_player_destroy(tournament_stats: &mut TournamentStatistics)
    requires
        old(tournament_stats).players_destroyed < usize::MAX,
    ensures
        *final(tournament_stats) == (TournamentStatistics {
            players_destroyed: (old(tournament_stats).players_destroyed + 1) as usize,
            ..*old(tournament_stats)
        }),
{
    tournament_stats.players_destroyed = tournament_stats.players_destroyed + 1;
}

/// Whether one SPRT instance's verdict requests a stop: only in a
/// two-player duel, only when the instance is configured and set to stop
/// automatically, and only when its test crossed a bound.
pub fn sprt_stop_request(num_players: usize, configured: bool, autostop: bool, crossed: bool) -> (r:
    bool)
    ensures
        r == (num_players == 2 && configured && autostop && crossed),
{
    num_players == 2 && configured && autostop && crossed
}

/// The five-cell pair score summary: pairs finished two points up, one
/// up, even, one down, and two down, in that order.
pub fn score_summary(p: &WLDPairs) -> (r: (usize, usize, usize, usize, usize))
    requires
        p.wf(),
    ensures
        r.0 == p.ww,
        r.1 == p.wd + p.dw,
        r.2 == p.wl + p.lw + p.dd,
        r.3 == p.ld + p.dl,
        r.4 == p.ll,
{
    (p.ww, p.wd + p.dw, p.wl + p.lw + p.dd, p.ld + p.dl, p.ll)
}

/// Whether the tournament stops now: a statistical stop requested by the
/// caller, or the hard game cap reached.
pub fn should_stop_now(games_completed: usize, num_games: Option<usize>, sprt_stop: bool) -> (r:
    bool)
    ensures
        r == (sprt_stop || match num_games {
            Some(n) => games_completed >= n,
            None => false,
        }),
{
    let cap = match num_games {
        Some(n) => games_completed >= n,
        None => false,
    };
    sprt_stop || cap
}

/// Whether a score update is printed after this game: during the first
/// `update_frequency` games, on every multiple of it, and when stopping.
pub fn should_print_now(games_completed: usize, update_frequency: usize, stopping: bool) -> (r:
    bool)
    requires
        update_frequency >= 1,
    ensures
        r == (games_completed <= update_frequency || games_completed % update_frequency == 0
            || stopping),
{
    games_completed <= update_frequency || games_completed % update_frequency == 0 || stopping
}

} // verus!
