//! What a display has to redraw. The game decides which cells change; a
//! display outside this library puts them on a screen.

use crate::census::{census, count_at, counts_of};
use crate::client::{Client, ClientState};
use crate::game::{occupants, Game};
use crate::grid::Position;
use vstd::prelude::*;

verus! {

/// One change on the display.
#[derive(Clone, Copy, Debug, PartialEq, Eq, Structural)]
pub enum Draw {
    /// Show the player `id` on `cell`, in `color`.
    Mark { cell: Position, color: u8, id: u16 },
    /// Show `cell` as empty.
    Erase { cell: Position },
}

/// The mark of a player on the cell where they stand.
pub open spec fn mark_of(state: ClientState) -> Draw {
    Draw::Mark { cell: state.position, color: state.color, id: state.id }
}

/// The marks of all players, in their order.
pub open spec fn marks(clients: Seq<Client>) -> Seq<Draw> {
    Seq::new(clients.len(), |i: int| mark_of(clients[i].state))
}

/// For each of the first `upto` players, in their order, the erasure of the
/// cell they stood on before, unless a player stands on it now.
pub open spec fn erasures(clients: Seq<Client>, upto: int) -> Seq<Draw>
    decreases upto,
{
    if upto <= 0 {
        Seq::empty()
    } else {
        let earlier = erasures(clients, upto - 1);
        let left = clients[upto - 1].state.old_position;
        if occupants(clients, left) == 0 {
            earlier.push(Draw::Erase { cell: left })
        } else {
            earlier
        }
    }
}

/// A whole refresh: every player's mark, then the erasures.
pub open spec fn refreshed(clients: Seq<Client>) -> Seq<Draw> {
    marks(clients) + erasures(clients, clients.len() as int)
}

/// What is erased when a player with the record `gone` has left and
/// `remaining` are still there: the cell they stood on and the cell they
/// stood on before, each unless one of the remaining players stands on it.
pub open spec fn erased_behind(remaining: Seq<Client>, gone: ClientState) -> Seq<Draw> {
    let here = if occupants(remaining, gone.position) == 0 {
        seq![Draw::Erase { cell: gone.position }]
    } else {
        Seq::empty()
    };
    let before = if occupants(remaining, gone.old_position) == 0 {
        seq![Draw::Erase { cell: gone.old_position }]
    } else {
        Seq::empty()
    };
    here + before
}

/// Computes what is erased behind a player who has left.
pub(crate) fn erase_behind(remaining: &Vec<Client>, gone: ClientState) -> (plan: Vec<Draw>)
    ensures
        plan@ == erased_behind(remaining@, gone),
{
    let counts = census(remaining);
    let mut plan: Vec<Draw> = Vec::new();
    assert(counts_of(counts@, remaining@));
    if count_at(&counts, gone.position) == 0 {
        plan.push(Draw::Erase { cell: gone.position });
    }
    if count_at(&counts, gone.old_position) == 0 {
        plan.push(Draw::Erase { cell: gone.old_position });
    }
    assert(plan@ =~= erased_behind(remaining@, gone));
    plan
}

impl Game {
    /// The mark that shows a player with the record `state` where they
    /// stand.
    pub fn place_client(&self, state: &ClientState) -> (mark: Draw)
        ensures
            mark == mark_of(*state),
    {
        Draw::Mark { cell: state.position, color: state.color, id: state.id }
    }

    /// The records of all players, in their order: a snapshot for a
    /// display, which never changes the game.
    pub fn snapshot(&self) -> (states: Vec<ClientState>)
        ensures
            states@ == self@.clients.map_values(|c: Client| c.state),
    {
        let mut states: Vec<ClientState> = Vec::new();
        let mut i: usize = 0;
        while i < self.clients.len()
            invariant
                i <= self.clients.len(),
                states@ == self@.clients.take(i as int).map_values(|c: Client| c.state),
            decreases self.clients.len() - i,
        {
            states.push(self.clients[i].state);
            assert(states@ =~= self@.clients.take(i + 1).map_values(|c: Client| c.state));
            i += 1;
        }
        assert(self@.clients.take(self.clients.len() as int) =~= self@.clients);
        states
    }

    /// What a display redraws before a tick: the mark of every player, then
    /// the erasure of every cell that a player has left and no player
    /// stands on.
    pub fn refresh_field(&self) -> (plan: Vec<Draw>)
        ensures
            plan@ == refreshed(self@.clients),
    {
        let counts = census(&self.clients);
        let n = self.clients.len();
        let mut plan: Vec<Draw> = Vec::new();
        let mut i: usize = 0;
        while i < n
            invariant
                i <= n,
                n == self.clients.len(),
                plan@ == marks(self@.clients).take(i as int),
            decreases n - i,
        {
            let state = self.clients[i].state;
            plan.push(Draw::Mark { cell: state.position, color: state.color, id: state.id });
            assert(plan@ =~= marks(self@.clients).take(i + 1));
            i += 1;
        }
        assert(marks(self@.clients).take(n as int) =~= marks(self@.clients));
        let mut k: usize = 0;
        while k < n
            invariant
                k <= n,
                n == self.clients.len(),
                counts_of(counts@, self@.clients),
                plan@ == marks(self@.clients) + erasures(self@.clients, k as int),
            decreases n - k,
        {
            let left = self.clients[k].state.old_position;
            assert(counts_of(counts@, self@.clients));
            if count_at(&counts, left) == 0 {
                plan.push(Draw::Erase { cell: left });
            }
            assert(plan@ =~= marks(self@.clients) + erasures(self@.clients, k + 1));
            k += 1;
        }
        plan
    }
}

} // verus!
