use cutergames::clock::{clock_tick, ClockType};
use cutergames::generator::Generator;
use cutergames::play::{
    outcome_from_str, outcome_to_str, play, ply_decision, AbortKind, GameData, GameOutcome,
};
use cutergames::players::Player;
use cutergames::stats::{WLD, WLDPairs};
use cutergames::store::Store;
use cutergames::tournament::{
    on_game_finish, on_game_pair_result, score_summary, should_print_now, should_stop_now,
    sprt_stop_request, PlayerStatistics, TournamentStatistics,
};

fn fresh_stats(names: &[&str]) -> Vec<PlayerStatistics> {
    names
        .iter()
        .map(|n| PlayerStatistics {
            name: n.to_string(),
            played: 0,
            crashes: 0,
            timeouts: 0,
            illegalmoves: 0,
            wld: WLD::new(),
            wld_pairs: WLDPairs::new(),
        })
        .collect()
}

/// An engine whose game is over immediately; as judge it awards the win
/// to a fixed engine.
struct DecidedEngine {
    /// The wire word this engine reports as the game's result.
    verdict: &'static str,
    clock: ClockType,
}

impl Player for DecidedEngine {
    fn init(&mut self) {}
    fn isready(&mut self) {}
    fn set_position(&mut self, _fen: &str) {}
    fn get_move(&mut self) -> Option<String> {
        None
    }
    fn makemove(&mut self, _mvstr: &str) -> bool {
        true
    }
    fn get_clock(&self) -> ClockType {
        self.clock
    }
    fn set_clock(&mut self, clock: ClockType) {
        self.clock = clock;
    }
    fn is_gameover(&mut self) -> bool {
        true
    }
    fn is_legal(&mut self, _mvstr: &str) -> bool {
        true
    }
    fn get_turn(&mut self) -> Option<usize> {
        Some(0)
    }
    fn query_result(&mut self) -> Option<String> {
        Some(self.verdict.to_string())
    }
}

/// An engine that plays plain moves; as judge it rejects the move played
/// at ply `illegal_at`, if any.
struct MovingEngine {
    ply: usize,
    illegal_at: Option<usize>,
    max_real_plies: Option<usize>,
    clock: ClockType,
}

impl MovingEngine {
    fn new() -> Self {
        Self {
            ply: 0,
            illegal_at: None,
            max_real_plies: None,
            clock: ClockType::Depth(1),
        }
    }
}

impl Player for MovingEngine {
    fn init(&mut self) {}
    fn isready(&mut self) {}
    fn set_position(&mut self, _fen: &str) {}
    fn get_move(&mut self) -> Option<String> {
        Some("0000".to_string())
    }
    fn makemove(&mut self, _mvstr: &str) -> bool {
        true
    }
    fn get_clock(&self) -> ClockType {
        self.clock
    }
    fn set_clock(&mut self, clock: ClockType) {
        self.clock = clock;
    }
    fn is_gameover(&mut self) -> bool {
        match self.max_real_plies {
            Some(n) => self.ply >= n,
            None => false,
        }
    }
    fn is_legal(&mut self, _mvstr: &str) -> bool {
        self.illegal_at != Some(self.ply)
    }
    fn get_turn(&mut self) -> Option<usize> {
        let turn = self.ply % 2;
        self.ply += 1;
        Some(turn)
    }
    fn query_result(&mut self) -> Option<String> {
        Some("draw".to_string())
    }
}

/// An engine that takes a long time over its only move.
struct SlowEngine {
    delay_ms: u64,
    clock: ClockType,
}

impl Player for SlowEngine {
    fn init(&mut self) {}
    fn isready(&mut self) {}
    fn set_position(&mut self, _fen: &str) {}
    fn get_move(&mut self) -> Option<String> {
        let start = std::time::Instant::now();
        while start.elapsed() < std::time::Duration::from_millis(self.delay_ms) {}
        Some("0000".to_string())
    }
    fn makemove(&mut self, _mvstr: &str) -> bool {
        true
    }
    fn get_clock(&self) -> ClockType {
        self.clock
    }
    fn set_clock(&mut self, clock: ClockType) {
        self.clock = clock;
    }
    fn is_gameover(&mut self) -> bool {
        false
    }
    fn is_legal(&mut self, _mvstr: &str) -> bool {
        true
    }
    fn get_turn(&mut self) -> Option<usize> {
        Some(0)
    }
    fn query_result(&mut self) -> Option<String> {
        None
    }
}

/// Drive a whole duel on one thread: pull work, play, reduce, stop on the
/// game cap. Engine A (index 0) always beats engine B.
#[test]
fn scripted_duel_single_thread() {
    let mut generator = Generator::new(2, 1, Some(4));
    let mut stats = fresh_stats(&["A", "B"]);
    let mut tstats = TournamentStatistics::new();
    let mut pair_store = Store::<usize, GameOutcome>::with_capacity(1024);
    let mut stopping = false;

    while !stopping {
        let work = match generator.next() {
            Some(w) => w,
            None => break,
        };
        // The judge is the engine holding the first colour; engine A wins
        // from either side.
        let a_is_first = work.player1 == 0;
        let mut p1 = DecidedEngine {
            verdict: if a_is_first { "p1win" } else { "p2win" },
            clock: ClockType::Movetime(10),
        };
        let mut p2 = DecidedEngine {
            verdict: "draw",
            clock: ClockType::Movetime(10),
        };
        let data = play(
            work.game_id,
            work.player1,
            work.player2,
            "startpos",
            &mut p1,
            &mut p2,
        )
        .unwrap();
        if let Some(pair) = on_game_finish(&data, &mut pair_store, &mut stats, &mut tstats) {
            on_game_pair_result(
                &mut stats,
                pair.first_player,
                pair.second_player,
                pair.first_outcome,
                pair.second_outcome,
            );
        }
        stopping = should_stop_now(tstats.games_completed, Some(4), false);
        let _ = should_print_now(tstats.games_completed, 10, stopping);
    }

    assert_eq!(tstats.games_completed, 4);
    assert_eq!((stats[0].wld.w, stats[0].wld.l, stats[0].wld.d), (4, 0, 0));
    assert_eq!((stats[1].wld.w, stats[1].wld.l, stats[1].wld.d), (0, 4, 0));
    assert_eq!(stats[0].played, 4);
    assert_eq!(stats[1].played, 4);
    // Both colour-reversed pairs were won outright by A.
    assert_eq!(stats[0].wld_pairs.ww, 2);
    assert_eq!(stats[1].wld_pairs.ll, 2);
    assert_eq!(pair_store.len(), 0);
}

/// Openings are played as colour-reversed pairs: with two openings and
/// four games the openings come out 0,0,1,1 and the first player 0,1,0,1.
#[test]
fn colour_reversed_pairs() {
    let mut generator = Generator::new(2, 2, Some(4));
    let mut ids = Vec::new();
    let mut fens = Vec::new();
    let mut firsts = Vec::new();
    while let Some(work) = generator.next() {
        ids.push(work.game_id);
        fens.push(work.fen_idx);
        firsts.push(work.player1);
        assert_eq!(work.player2, 1 - work.player1);
    }
    // Ids come out densely from zero, none twice.
    assert_eq!(ids, vec![0, 1, 2, 3]);
    assert_eq!(fens, vec![0, 0, 1, 1]);
    assert_eq!(firsts, vec![0, 1, 0, 1]);
    assert!(generator.next().is_none());
}

/// A statistical stop request ends the tournament without another game.
#[test]
fn autostop_stops_promptly() {
    let mut generator = Generator::new(2, 1, None);
    let mut games: usize = 0;
    let mut stopping = false;
    let mut games_after_stop: usize = 0;
    while !stopping && games_after_stop <= 8 {
        let _ = generator.next().unwrap();
        games += 1;
        // The caller's SPRT evaluation asks to stop from the third game on.
        let sprt_stop = games >= 3;
        stopping = should_stop_now(games, None, sprt_stop);
        if sprt_stop {
            games_after_stop += 1;
        }
    }
    assert!(stopping);
    assert_eq!(games, 3);
}

/// An illegal move on the first player's third ply forfeits the game to
/// the second player, and the forfeit is counted.
#[test]
fn illegal_move_forfeit() {
    let mut judge = MovingEngine::new();
    judge.illegal_at = Some(5);
    let mut second = MovingEngine::new();
    let data = play(9, 0, 1, "startpos", &mut judge, &mut second).unwrap();
    assert_eq!(data.outcome, Some(GameOutcome::P2win));
    assert_eq!(data.abort, Some(AbortKind::IllegalMove(0)));
    assert_eq!(data.ply, 4);
    assert_eq!(data.id, 9);
    assert_eq!(data.player1, 0);
    assert_eq!(data.player2, 1);

    let mut stats = fresh_stats(&["A", "B"]);
    let mut tstats = TournamentStatistics::new();
    let mut pair_store = Store::<usize, GameOutcome>::with_capacity(16);
    let pair = on_game_finish(&data, &mut pair_store, &mut stats, &mut tstats);
    assert!(pair.is_none());
    assert_eq!(tstats.games_completed, 1);
    assert_eq!(stats[1].wld.w, 1);
    assert_eq!(stats[0].wld.l, 1);
}

/// A reply far over a fixed move time forfeits on time; a reply within
/// the ten-millisecond grace is accepted.
#[test]
fn movetime_timeout() {
    let mut judge = SlowEngine {
        delay_ms: 200,
        clock: ClockType::Movetime(10),
    };
    let mut second = SlowEngine {
        delay_ms: 0,
        clock: ClockType::Movetime(10),
    };
    let data = play(0, 0, 1, "startpos", &mut judge, &mut second).unwrap();
    assert_eq!(data.outcome, Some(GameOutcome::P2win));
    assert_eq!(data.abort, Some(AbortKind::Timeout(0)));
    assert_eq!(data.ply, 0);

    // The grace: 15 ms against a 10 ms move time is still accepted.
    let mut clock = ClockType::Movetime(10);
    assert!(!clock_tick(&mut clock, 15));
    assert!(!clock_tick(&mut clock, 20));
    assert!(clock_tick(&mut clock, 21));
}

/// A game that never ends is adjudicated a draw at the ply cap.
#[test]
fn max_ply_draw() {
    let mut judge = MovingEngine::new();
    let mut second = MovingEngine::new();
    let data = play(0, 0, 1, "startpos", &mut judge, &mut second).unwrap();
    assert_eq!(data.outcome, Some(GameOutcome::Draw));
    assert_eq!(data.abort, Some(AbortKind::MaxGameLength));
    assert_eq!(data.ply, 1024);
}

/// A natural end asks the judge for the result.
#[test]
fn natural_end_queries_judge() {
    let mut judge = MovingEngine::new();
    judge.max_real_plies = Some(3);
    let mut second = MovingEngine::new();
    let data = play(3, 1, 0, "startpos", &mut judge, &mut second).unwrap();
    assert_eq!(data.outcome, Some(GameOutcome::Draw));
    assert_eq!(data.abort, None);
    assert_eq!(data.ply, 3);
    assert_eq!(data.player1, 1);
    assert_eq!(data.player2, 0);
}

#[test]
fn clock_time_budget() {
    // Time clocks are charged and credited the increment.
    let mut clock = ClockType::Time(100, 5);
    assert!(!clock_tick(&mut clock, 40));
    assert_eq!(clock, ClockType::Time(65, 5));
    assert!(clock_tick(&mut clock, 65));
    // Depth clocks never time out.
    let mut depth = ClockType::Depth(3);
    assert!(!clock_tick(&mut depth, u64::MAX));
    assert_eq!(depth, ClockType::Depth(3));
}

#[test]
fn outcome_words() {
    assert_eq!(outcome_from_str("p1win"), Some(GameOutcome::P1win));
    assert_eq!(outcome_from_str("p2win"), Some(GameOutcome::P2win));
    assert_eq!(outcome_from_str("draw"), Some(GameOutcome::Draw));
    assert_eq!(outcome_from_str("none"), None);
    assert_eq!(outcome_from_str(""), None);
    for o in [GameOutcome::P1win, GameOutcome::P2win, GameOutcome::Draw] {
        assert_eq!(outcome_from_str(outcome_to_str(o)), Some(o));
    }
}

/// Draw-tinged pairs land in the documented pentanomial cells.
#[test]
fn pair_table_with_draws() {
    let mut stats = fresh_stats(&["A", "B"]);
    on_game_pair_result(
        &mut stats,
        0,
        1,
        Some(GameOutcome::P1win),
        Some(GameOutcome::Draw),
    );
    assert_eq!(stats[0].wld_pairs.wd, 1);
    assert_eq!(stats[1].wld_pairs.ld, 1);
    on_game_pair_result(
        &mut stats,
        0,
        1,
        Some(GameOutcome::Draw),
        Some(GameOutcome::Draw),
    );
    assert_eq!(stats[0].wld_pairs.dd, 1);
    assert_eq!(stats[1].wld_pairs.dd, 1);
    on_game_pair_result(&mut stats, 0, 1, None, Some(GameOutcome::Draw));
    let total = stats[0].wld_pairs.ww
        + stats[0].wld_pairs.wl
        + stats[0].wld_pairs.wd
        + stats[0].wld_pairs.dw
        + stats[0].wld_pairs.dl
        + stats[0].wld_pairs.dd
        + stats[0].wld_pairs.lw
        + stats[0].wld_pairs.ll
        + stats[0].wld_pairs.ld;
    assert_eq!(total, 2);
}

/// A game without an outcome counts as played and nothing else.
#[test]
fn unfinished_game_not_counted() {
    let mut stats = fresh_stats(&["A", "B"]);
    let mut tstats = TournamentStatistics::new();
    let mut pair_store = Store::<usize, GameOutcome>::with_capacity(16);
    let data = GameData {
        id: 0,
        outcome: None,
        player1: 0,
        player2: 1,
        ply: 12,
        abort: Some(AbortKind::NoTurn),
    };
    let pair = on_game_finish(&data, &mut pair_store, &mut stats, &mut tstats);
    assert!(pair.is_none());
    assert_eq!(tstats.games_completed, 0);
    assert_eq!(stats[0].played, 1);
    assert_eq!(stats[1].played, 1);
    assert_eq!(stats[0].wld.w + stats[0].wld.l + stats[0].wld.d, 0);
    assert_eq!(pair_store.len(), 0);
}

/// `played` is the sum of the counters and the win-rate numerator stays
/// within its denominator.
#[test]
fn wld_bookkeeping() {
    let record = WLD { w: 7, l: 3, d: 2 };
    assert_eq!(record.played(), 12);
    assert!(2 * record.w + record.d <= 2 * record.played());
    let pairs = WLDPairs {
        ww: 1,
        wl: 2,
        wd: 3,
        dw: 4,
        dl: 5,
        dd: 6,
        lw: 7,
        ll: 8,
        ld: 9,
    };
    assert_eq!(pairs.played(), 2 * 45);
}

/// The per-ply decision table: forfeits, the draw at the ply cap, and
/// the order in which the checks apply.
#[test]
fn ply_decision_table() {
    assert_eq!(
        ply_decision(0, false, false, 3),
        Some((GameOutcome::P2win, AbortKind::IllegalMove(0)))
    );
    assert_eq!(
        ply_decision(1, false, true, 3),
        Some((GameOutcome::P1win, AbortKind::IllegalMove(1)))
    );
    assert_eq!(
        ply_decision(0, true, true, 3),
        Some((GameOutcome::P2win, AbortKind::Timeout(0)))
    );
    assert_eq!(
        ply_decision(1, true, true, 3),
        Some((GameOutcome::P1win, AbortKind::Timeout(1)))
    );
    assert_eq!(
        ply_decision(0, true, false, 1024),
        Some((GameOutcome::Draw, AbortKind::MaxGameLength))
    );
    assert_eq!(ply_decision(0, true, false, 1023), None);
}

/// The stop request is granted only in a duel with a configured,
/// autostopping instance whose test crossed a bound.
#[test]
fn stop_request_gating() {
    assert!(sprt_stop_request(2, true, true, true));
    assert!(!sprt_stop_request(3, true, true, true));
    assert!(!sprt_stop_request(2, false, true, true));
    assert!(!sprt_stop_request(2, true, false, true));
    assert!(!sprt_stop_request(2, true, true, false));
}

#[test]
fn pair_score_summary() {
    let pairs = WLDPairs {
        ww: 1,
        wl: 2,
        wd: 3,
        dw: 4,
        dl: 5,
        dd: 6,
        lw: 7,
        ll: 8,
        ld: 9,
    };
    assert_eq!(score_summary(&pairs), (1, 7, 15, 14, 8));
}

#[test]
fn print_cadence() {
    assert!(should_print_now(1, 10, false));
    assert!(should_print_now(10, 10, false));
    assert!(should_print_now(20, 10, false));
    assert!(!should_print_now(11, 10, false));
    assert!(should_print_now(11, 10, true));
}
