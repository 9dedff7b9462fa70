//! The work generator: schedules games as a round-robin duel.

use vstd::prelude::*;

verus! {

/// The pairing schedule in use. Only round-robin duels are defined.
#[derive(Clone, Copy, PartialEq, Eq, Structural, Debug)]
pub enum Pairing {
    RoundRobin,
}

/// One scheduled game.
#[derive(Clone, Copy, PartialEq, Eq, Structural, Debug)]
pub struct Work {
    pub game_id: usize,
    pub player1: usize,
    pub player2: usize,
    pub fen_idx: usize,
}

/// Hands out `Work` items in order. `id` is the next game id; `emitted`
/// records, in order, every id handed out so far.
pub struct Generator {
    pub pairing: Pairing,
    pub id: usize,
    pub num_players: usize,
    pub num_openings: usize,
    pub num_games: Option<usize>,
    pub emitted: Ghost<Seq<int>>,
}

impl Generator {
    /// There is at least one opening to index, and the ids handed out so
    /// far are exactly `0, 1, ..., id - 1` in order.
    pub open spec fn wf(self) -> bool {
        &&& self.num_openings >= 1
        &&& self.emitted@.len() == self.id
        &&& forall|i: int| 0 <= i < self.emitted@.len() ==> self.emitted@[i] == i
    }

    pub fn new(num_players: usize, num_openings: usize, num_games: Option<usize>) -> (r: Self)
        requires
            num_openings >= 1,
        ensures
            r.wf(),
            r.id == 0,
            r.num_players == num_players,
            r.num_openings == num_openings,
            r.num_games == num_games,
            r.emitted@ == Seq::<int>::empty(),
    {
        Self {
            pairing: Pairing::RoundRobin,
            id: 0,
            num_players,
            num_openings,
            num_games,
            emitted: Ghost(Seq::empty()),
        }
    }

    /// Whether another game may still be scheduled.
    pub open spec fn spec_can_emit(self) -> bool {
        match self.num_games {
            Some(max) => self.id < max,
            None => true,
        }
    }

    /// The next item: sides swap between consecutive games and each opening
    /// is played as a colour-reversed pair of consecutive ids.
    pub open spec fn spec_work_at(self, id: usize) -> Work {
        Work {
            game_id: id,
            player1: (id % 2) as usize,
            player2: (1 - id % 2) as usize,
            fen_idx: ((id / 2) % self.num_openings) as usize,
        }
    }

    pub fn next(&mut self) -> (r: Option<Work>)
        requires
            old(self).wf(),
            old(self).id < usize::MAX,
        ensures
            final(self).wf(),
            final(self).num_players == old(self).num_players,
            final(self).num_openings == old(self).num_openings,
            final(self).num_games == old(self).num_games,
            r == (if old(self).spec_can_emit() {
                Some(old(self).spec_work_at(old(self).id))
            } else {
                None::<Work>
            }),
            old(self).spec_can_emit() ==> final(self).id == old(self).id + 1
                && final(self).emitted@ == old(self).emitted@.push(old(self).id as int),
            !old(self).spec_can_emit() ==> *final(self) == *old(self),
    {
        if let Some(max) = self.num_games {
            if self.id >= max {
                return None;
            }
        }

        let work = match self.pairing {
            Pairing::RoundRobin => Work {
                game_id: self.id,
                player1: self.id % 2,
                player2: 1 - (self.id % 2),
                fen_idx: (self.id / 2) % self.num_openings,
            },
        };

        proof {
            self.emitted@ = self.emitted@.push(self.id as int);
        }
        self.id += 1;

        Some(work)
    }
}

/// Game ids are handed out densely from zero upward and no id is ever
/// handed out twice.
pub proof fn lemma_ids_dense(g: Generator)
    requires
        g.wf(),
    ensures
        forall|i: int| 0 <= i < g.emitted@.len() ==> g.emitted@[i] == i,
        forall|i: int, j: int|
            0 <= i < j < g.emitted@.len() ==> g.emitted@[i] != g.emitted@[j],
{
}

} // verus!
