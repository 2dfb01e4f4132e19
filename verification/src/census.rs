//! A count of the players on each cell, kept in a hash map.

use crate::client::Client;
use crate::game::occupants;
use crate::grid::Position;
use std::collections::HashMap;
use vstd::prelude::*;

verus! {

broadcast use vstd::std_specs::hash::group_hash_axioms;

/// The number under which a census keeps a cell: no two cells share one.
pub open spec fn cell_key(cell: Position) -> u32 {
    (cell.x * 65536 + cell.y) as u32
}

/// How many players `counts` holds for `cell`: none where the cell has no
/// entry.
pub open spec fn counted(counts: Map<u32, usize>, cell: Position) -> nat {
    if counts.contains_key(cell_key(cell)) {
        counts[cell_key(cell)] as nat
    } else {
        0
    }
}

/// Whether `counts` holds, for every cell, the number of `clients` on it.
pub open spec fn counts_of(counts: Map<u32, usize>, clients: Seq<Client>) -> bool {
    forall|cell: Position| #[trigger] counted(counts, cell) == occupants(clients, cell)
}

/// Two cells with the same key are the same cell.
pub proof fn lemma_cell_key_tells_cells_apart(a: Position, b: Position)
    requires
        cell_key(a) == cell_key(b),
    ensures
        a == b,
{
}

/// No cell holds more players than there are.
pub proof fn lemma_occupants_at_most_all(clients: Seq<Client>, cell: Position)
    ensures
        occupants(clients, cell) <= clients.len(),
    decreases clients.len(),
{
    if clients.len() > 0 {
        lemma_occupants_at_most_all(clients.drop_last(), cell);
    }
}

/// A cell on which one of the players stands holds at least that player.
pub proof fn lemma_occupants_counts_each(clients: Seq<Client>, i: int)
    requires
        0 <= i < clients.len(),
    ensures
        occupants(clients, clients[i].state.position) >= 1,
    decreases clients.len(),
{
    if i < clients.len() - 1 {
        lemma_occupants_counts_each(clients.drop_last(), i);
    }
}

/// A cell holds no player exactly when no player stands on it.
pub proof fn lemma_occupants_none(clients: Seq<Client>, cell: Position)
    ensures
        occupants(clients, cell) == 0 <==> forall|i: int|
            0 <= i < clients.len() ==> (#[trigger] clients[i]).state.position != cell,
    decreases clients.len(),
{
    if clients.len() > 0 {
        let front = clients.drop_last();
        lemma_occupants_none(front, cell);
        if occupants(clients, cell) == 0 {
            assert forall|i: int| 0 <= i < clients.len() implies (
            #[trigger] clients[i]).state.position != cell by {
                if i < front.len() {
                    assert(front[i] == clients[i]);
                }
            }
        } else if clients.last().state.position != cell {
            let i = choose|i: int|
                0 <= i < front.len() && (#[trigger] front[i]).state.position == cell;
            assert(clients[i] == front[i]);
        }
    }
}

fn key_of(cell: Position) -> (key: u32)
    ensures
        key == cell_key(cell),
{
    cell.x as u32 * 65536 + cell.y as u32
}

/// Counts the players on each cell.
pub(crate) fn census(clients: &Vec<Client>) -> (counts: HashMap<u32, usize>)
    ensures
        counts_of(counts@, clients@),
{
    let mut counts: HashMap<u32, usize> = HashMap::new();
    let mut i: usize = 0;
    assert(clients@.take(0) =~= Seq::<Client>::empty());
    while i < clients.len()
        invariant
            i <= clients.len(),
            counts_of(counts@, clients@.take(i as int)),
        decreases clients.len() - i,
    {
        let here = clients[i].state.position;
        let key = key_of(here);
        let so_far: usize = match counts.get(&key) {
            Some(n) => *n,
            None => 0,
        };
        let ghost before = counts@;
        let ghost front = clients@.take(i as int);
        let ghost longer = clients@.take(i + 1);
        proof {
            assert(longer.drop_last() =~= front);
            assert(longer.last() == clients@[i as int]);
            assert(so_far == counted(before, here));
            lemma_occupants_at_most_all(front, here);
        }
        counts.insert(key, so_far + 1);
        proof {
            assert forall|cell: Position| #[trigger]
                counted(counts@, cell) == occupants(longer, cell) by {
                assert(counted(before, cell) == occupants(front, cell));
                if cell_key(cell) == key {
                    lemma_cell_key_tells_cells_apart(cell, here);
                }
            }
        }
        i += 1;
    }
    assert(clients@.take(clients.len() as int) =~= clients@);
    counts
}

/// How many players the census holds for `cell`.
pub(crate) fn count_at(counts: &HashMap<u32, usize>, cell: Position) -> (n: usize)
    ensures
        n == counted(counts@, cell),
{
    let key = key_of(cell);
    match counts.get(&key) {
        Some(n) => *n,
        None => 0,
    }
}

} // verus!
