//! The tick: who is rewarded, who is penalised and sent elsewhere, and what
//! the players are told afterwards.

use crate::census::{census, count_at, counts_of, lemma_occupants_counts_each};
use crate::client::{Client, PENALTY, REWARD};
use crate::game::{occupants, Game, GameView};
use crate::grid::Position;
use vstd::prelude::*;

verus! {

impl GameView {
    /// Whether the player at place `i` shares a cell with another player.
    pub open spec fn crowded(self, i: int) -> bool {
        occupants(self.clients, self.clients[i].state.position) >= 2
    }

    /// Whether every score has room for what the next tick does to it.
    pub open spec fn tick_fits(self) -> bool {
        forall|i: int|
            0 <= i < self.clients.len() ==> if self.crowded(i) {
                (#[trigger] self.clients[i]).state.score - PENALTY >= i32::MIN
            } else {
                self.clients[i].state.score + REWARD <= i32::MAX
            }
    }

    /// Whether `after` is a game that one tick can make of `self`.
    ///
    /// Every score has room for the tick. Every player keeps its place, id,
    /// colour and channel, and its old position becomes the cell it stood
    /// on. A player who stood alone gains `REWARD` and stays. A player who
    /// shared a cell loses `PENALTY` and stands on some cell of the grid:
    /// which one is drawn at random, one draw for each such player.
    pub open spec fn settles_to(self, after: GameView) -> bool {
        &&& self.tick_fits()
        &&& after.field == self.field
        &&& after.max_clients == self.max_clients
        &&& after.running == self.running
        &&& after.last_id == self.last_id
        &&& after.clients.len() == self.clients.len()
        &&& forall|i: int|
            0 <= i < self.clients.len() ==> {
                let was = (#[trigger] self.clients[i]);
                let now = after.clients[i];
                &&& now.sender == was.sender
                &&& if self.crowded(i) {
                    &&& now.state == was.state.penalized(now.state.position)
                    &&& self.field.holds(now.state.position)
                } else {
                    now.state == was.state.rewarded()
                }
            }
    }
}

/// What the tick adds, in sum, to the scores of those of the first `upto`
/// players who stood on `cell` before it.
pub open spec fn group_gain(before: Seq<Client>, after: Seq<Client>, cell: Position, upto: int) -> int
    decreases upto,
{
    if upto <= 0 {
        0
    } else {
        group_gain(before, after, cell, upto - 1) + if before[upto - 1].state.position == cell {
            after[upto - 1].state.score - before[upto - 1].state.score
        } else {
            0
        }
    }
}

/// At every tick, a player who stands alone on a cell gains exactly
/// `REWARD`, and so does the group that it is; on a cell that two or more
/// players share, every one of them loses exactly `PENALTY`.
pub proof fn lemma_tick_scores(before: GameView, after: GameView, cell: Position)
    requires
        before.settles_to(after),
    ensures
        occupants(before.clients, cell) == 1 ==> group_gain(
            before.clients,
            after.clients,
            cell,
            before.clients.len() as int,
        ) == REWARD,
        forall|i: int|
            0 <= i < before.clients.len() && (#[trigger] before.clients[i]).state.position == cell
                ==> occupants(before.clients, cell) >= 1 && after.clients[i].state.score
                - before.clients[i].state.score == if occupants(before.clients, cell) >= 2 {
                -PENALTY
            } else {
                REWARD as int
            },
        occupants(before.clients, cell) >= 2 ==> group_gain(
            before.clients,
            after.clients,
            cell,
            before.clients.len() as int,
        ) == -PENALTY * (occupants(before.clients, cell) as int),
{
    let gain: int = if occupants(before.clients, cell) >= 2 {
        -PENALTY
    } else {
        REWARD as int
    };
    assert forall|i: int|
        0 <= i < before.clients.len() && (#[trigger] before.clients[i]).state.position
            == cell implies occupants(before.clients, cell) >= 1 && after.clients[i].state.score
        - before.clients[i].state.score == gain by {
        lemma_occupants_counts_each(before.clients, i);
    }
    lemma_group_gain(before.clients, after.clients, cell, gain, before.clients.len() as int);
    assert(before.clients.take(before.clients.len() as int) =~= before.clients);
}

/// Where every member of a group gains the same, the group gains that much
/// for each member.
proof fn lemma_group_gain(
    before: Seq<Client>,
    after: Seq<Client>,
    cell: Position,
    gain: int,
    upto: int,
)
    requires
        0 <= upto <= before.len(),
        after.len() == before.len(),
        forall|i: int|
            0 <= i < before.len() && (#[trigger] before[i]).state.position == cell
                ==> after[i].state.score - before[i].state.score == gain,
    ensures
        group_gain(before, after, cell, upto) == gain * (occupants(before.take(upto), cell) as int),
    decreases upto,
{
    if upto > 0 {
        lemma_group_gain(before, after, cell, gain, upto - 1);
        let shorter = before.take(upto - 1);
        let longer = before.take(upto);
        assert(longer.drop_last() =~= shorter);
        assert(longer.last() == before[upto - 1]);
        let fewer = occupants(shorter, cell) as int;
        assert(gain * (fewer + 1) == gain * fewer + gain) by (nonlinear_arith);
        assert(group_gain(before, after, cell, upto - 1) == gain * fewer);
        if before[upto - 1].state.position == cell {
            assert(occupants(longer, cell) == fewer + 1);
            assert(group_gain(before, after, cell, upto) == gain * fewer + gain);
        } else {
            assert(occupants(longer, cell) == fewer);
            assert(group_gain(before, after, cell, upto) == gain * fewer);
        }
    } else {
        assert(before.take(0) =~= Seq::<Client>::empty());
        assert(occupants(before.take(0), cell) == 0);
        assert(gain * 0 == 0);
    }
}

impl Game {
    /// Whether every score has room for the next tick.
    pub fn can_tick(&self) -> (fits: bool)
        ensures
            fits == self@.tick_fits(),
    {
        let counts = census(&self.clients);
        let mut i: usize = 0;
        while i < self.clients.len()
            invariant
                i <= self.clients.len(),
                counts_of(counts@, self@.clients),
                forall|j: int|
                    0 <= j < i ==> if self@.crowded(j) {
                        (#[trigger] self@.clients[j]).state.score - PENALTY >= i32::MIN
                    } else {
                        self@.clients[j].state.score + REWARD <= i32::MAX
                    },
            decreases self.clients.len() - i,
        {
            let state = self.clients[i].state;
            assert(counts_of(counts@, self@.clients));
            let fits = if count_at(&counts, state.position) >= 2 {
                state.score >= i32::MIN + PENALTY
            } else {
                state.score <= i32::MAX - REWARD
            };
            if !fits {
                assert(self@.clients[i as int].state == state);
                return false;
            }
            i += 1;
        }
        true
    }

    /// One tick. Every player who stands alone on a cell gains `REWARD`.
    /// Every player who shares a cell loses `PENALTY` and is sent to a cell
    /// drawn at random, where they may meet again. Who shares a cell is
    /// settled before anyone is sent anywhere.
    pub fn tick(&mut self)
        requires
            old(self)@.wf(),
            old(self)@.tick_fits(),
        ensures
            old(self)@.settles_to(final(self)@),
            final(self)@.wf(),
    {
        let counts = census(&self.clients);
        let n = self.clients.len();
        let mut i: usize = 0;
        while i < n
            invariant
                i <= n,
                n == old(self)@.clients.len(),
                n == self@.clients.len(),
                old(self)@.wf(),
                old(self)@.tick_fits(),
                counts_of(counts@, old(self)@.clients),
                self@.field == old(self)@.field,
                self@.max_clients == old(self)@.max_clients,
                self@.running == old(self)@.running,
                self@.last_id == old(self)@.last_id,
                forall|j: int| i <= j < n ==> #[trigger] self@.clients[j] == old(self)@.clients[j],
                forall|j: int|
                    0 <= j < i ==> {
                        let was = (#[trigger] old(self)@.clients[j]);
                        let now = self@.clients[j];
                        &&& now.sender == was.sender
                        &&& if old(self)@.crowded(j) {
                            &&& now.state == was.state.penalized(now.state.position)
                            &&& self@.field.holds(now.state.position)
                        } else {
                            now.state == was.state.rewarded()
                        }
                    },
            decreases n - i,
        {
            let here = self.clients[i].state.position;
            assert(counts_of(counts@, old(self)@.clients));
            assert(old(self)@.clients[i as int].state.position == here);
            assert(old(self)@.field.holds(here));
            if count_at(&counts, here) >= 2 {
                let fresh = self.create_random_position();
                self.clients[i].state.penalize(fresh);
            } else {
                self.clients[i].state.reward();
            }
            i += 1;
        }
        proof {
            let before = old(self)@;
            let after = self@;
            assert forall|j: int| 0 <= j < n implies (#[trigger] after.clients[j]).state.id
                == before.clients[j].state.id && before.field.holds(
                after.clients[j].state.position,
            ) by {
                assert(after.clients[j].sender == before.clients[j].sender);
            }
        }
    }

    /// Tells every player where they stand and what their score is, the
    /// position first. Gives the number of players whose channel took both
    /// messages; a channel that took none is left for its connection to
    /// notice. How many channels are still open is decided at their other
    /// ends, so the number may be any from none to all.
    pub fn broadcast(&self) -> (reached: usize)
        ensures
            reached <= self@.clients.len(),
    {
        let mut reached: usize = 0;
        let mut i: usize = 0;
        while i < self.clients.len()
            invariant
                reached <= i <= self.clients.len(),
            decreases self.clients.len() - i,
        {
            if self.clients[i].notify() {
                reached += 1;
            }
            i += 1;
        }
        reached
    }
}

} // verus!
