//! Operations on the list of players: finding a seat, the checks that close
//! a phase, and the resets between rounds.

use vstd::prelude::*;
use crate::types::{Choice, Player, Pubkey};

verus! {

/// Whether `id` sits at the table.
pub open spec fn has_player(players: Seq<Player>, id: Pubkey) -> bool {
    exists|i: int| 0 <= i < players.len() && (#[trigger] players[i]).pubkey == id
}

/// Whether seat `i` is the first one held by `id`.
pub open spec fn is_first_seat(players: Seq<Player>, id: Pubkey, i: int) -> bool {
    &&& 0 <= i < players.len()
    &&& players[i].pubkey == id
    &&& forall|k: int| 0 <= k < i ==> (#[trigger] players[k]).pubkey != id
}

/// The first seat held by `id`, if there is one.
pub open spec fn seat_of(players: Seq<Player>, id: Pubkey) -> Option<int> {
    if exists|i: int| is_first_seat(players, id, i) {
        Some(choose|i: int| is_first_seat(players, id, i))
    } else {
        None
    }
}

/// A first seat is the only first seat.
pub proof fn lemma_first_seat(players: Seq<Player>, id: Pubkey, i: int)
    requires
        is_first_seat(players, id, i),
    ensures
        seat_of(players, id) == Some(i),
        has_player(players, id),
{
    let j = choose|j: int| is_first_seat(players, id, j);
    assert(is_first_seat(players, id, j));
    if j < i {
        assert(players[j].pubkey != id);
    }
    if i < j {
        assert(players[i].pubkey != id);
    }
}

/// Without a seat there is no first seat.
pub proof fn lemma_no_seat(players: Seq<Player>, id: Pubkey)
    requires
        forall|k: int| 0 <= k < players.len() ==> (#[trigger] players[k]).pubkey != id,
    ensures
        seat_of(players, id).is_none(),
        !has_player(players, id),
{
}

/// Below a seat held by `id` there is a first seat held by `id`.
proof fn lemma_first_seat_below(players: Seq<Player>, id: Pubkey, n: int)
    requires
        0 <= n < players.len(),
        players[n].pubkey == id,
    ensures
        exists|i: int| is_first_seat(players, id, i),
    decreases n,
{
    if forall|k: int| 0 <= k < n ==> (#[trigger] players[k]).pubkey != id {
        assert(is_first_seat(players, id, n));
    } else {
        let k = choose|k: int| 0 <= k < n && (#[trigger] players[k]).pubkey == id;
        lemma_first_seat_below(players, id, k);
    }
}

/// The seat found for `id` is a first seat, and whoever sits at the table
/// has one.
pub proof fn lemma_seat_of(players: Seq<Player>, id: Pubkey)
    ensures
        seat_of(players, id) matches Some(i) ==> is_first_seat(players, id, i),
        has_player(players, id) <==> seat_of(players, id).is_some(),
{
    if has_player(players, id) {
        let n = choose|n: int| 0 <= n < players.len() && (#[trigger] players[n]).pubkey == id;
        lemma_first_seat_below(players, id, n);
    }
    if let Some(i) = seat_of(players, id) {
        assert(is_first_seat(players, id, i));
        assert(players[i].pubkey == id);
    }
}

/// Looks for the first seat held by `id`.
pub fn find_player(players: &Vec<Player>, id: &Pubkey) -> (r: Option<usize>)
    ensures
        match r {
            Some(i) => seat_of(players@, *id) == Some(i as int) && is_first_seat(
                players@,
                *id,
                i as int,
            ),
            None => seat_of(players@, *id).is_none(),
        },
        r.is_some() == has_player(players@, *id),
{
    let mut i: usize = 0;
    while i < players.len()
        invariant
            i <= players.len(),
            forall|k: int| 0 <= k < i ==> (#[trigger] players[k]).pubkey != *id,
        decreases players.len() - i,
    {
        if players[i].pubkey.same(id) {
            proof {
                lemma_first_seat(players@, *id, i as int);
            }
            return Some(i);
        }
        i += 1;
    }
    proof {
        lemma_no_seat(players@, *id);
    }
    None
}

/// Whether every player holds a commitment.
pub open spec fn all_committed(players: Seq<Player>) -> bool {
    forall|i: int| 0 <= i < players.len() ==> (#[trigger] players[i]).committed()
}

/// Whether every player has revealed.
pub open spec fn all_revealed(players: Seq<Player>) -> bool {
    forall|i: int| 0 <= i < players.len() ==> (#[trigger] players[i]).revealed
}

/// Executable form of [`all_committed`].
pub fn everyone_committed(players: &Vec<Player>) -> (r: bool)
    ensures
        r == all_committed(players@),
{
    let mut i: usize = 0;
    while i < players.len()
        invariant
            i <= players.len(),
            forall|k: int| 0 <= k < i ==> (#[trigger] players[k]).committed(),
        decreases players.len() - i,
    {
        if !players[i].has_committed() {
            return false;
        }
        i += 1;
    }
    true
}

/// Executable form of [`all_revealed`].
pub fn everyone_revealed(players: &Vec<Player>) -> (r: bool)
    ensures
        r == all_revealed(players@),
{
    let mut i: usize = 0;
    while i < players.len()
        invariant
            i <= players.len(),
            forall|k: int| 0 <= k < i ==> (#[trigger] players[k]).revealed,
        decreases players.len() - i,
    {
        if !players[i].revealed {
            return false;
        }
        i += 1;
    }
    true
}

/// Every seat with its round-local fields emptied.
pub open spec fn cleared_all(players: Seq<Player>) -> Seq<Player> {
    Seq::new(players.len(), |i: int| players[i].cleared())
}

/// Every seat emptied and its score set back to zero.
pub open spec fn reset_all(players: Seq<Player>) -> Seq<Player> {
    Seq::new(players.len(), |i: int| Player { score: 0, ..players[i].cleared() })
}

/// A seat that did not reveal counts as revealed with no choice.
pub open spec fn forced(p: Player) -> Player {
    if p.revealed {
        p
    } else {
        Player { choice: Choice::Absent, revealed: true, ..p }
    }
}

/// Every seat after a forced reveal.
pub open spec fn forced_all(players: Seq<Player>) -> Seq<Player> {
    Seq::new(players.len(), |i: int| forced(players[i]))
}

/// The players that hold a commitment, in their order.
pub open spec fn retained(players: Seq<Player>) -> Seq<Player>
    decreases players.len(),
{
    if players.len() == 0 {
        Seq::empty()
    } else {
        let rest = retained(players.drop_last());
        if players.last().committed() {
            rest.push(players.last())
        } else {
            rest
        }
    }
}

/// Retaining drops players and invents none.
pub proof fn lemma_retained(players: Seq<Player>)
    ensures
        retained(players).len() <= players.len(),
        forall|i: int|
            0 <= i < retained(players).len() ==> players.contains(#[trigger] retained(players)[i]),
    decreases players.len(),
{
    if players.len() > 0 {
        let init = players.drop_last();
        lemma_retained(init);
        assert forall|i: int| 0 <= i < retained(players).len() implies players.contains(
            #[trigger] retained(players)[i],
        ) by {
            if i < retained(init).len() {
                let p = retained(init)[i];
                assert(init.contains(p));
                let k = choose|k: int| 0 <= k < init.len() && init[k] == p;
                assert(players[k] == p);
            } else {
                assert(players[players.len() - 1] == players.last());
            }
        }
    }
}

/// Empties every seat's round-local fields.
pub fn clear_players(players: &mut Vec<Player>)
    ensures
        final(players)@ == cleared_all(old(players)@),
{
    let ghost before = players@;
    let n = players.len();
    let mut i: usize = 0;
    while i < n
        invariant
            i <= n,
            n == players.len(),
            n == before.len(),
            forall|k: int| 0 <= k < i ==> players[k] == before[k].cleared(),
            forall|k: int| i <= k < n ==> players[k] == before[k],
        decreases n - i,
    {
        let p = players[i].clear_round();
        players.set(i, p);
        i += 1;
    }
    assert(players@ =~= cleared_all(before));
}

/// Empties every seat and zeroes its score.
pub fn reset_players(players: &mut Vec<Player>)
    ensures
        final(players)@ == reset_all(old(players)@),
{
    let ghost before = players@;
    let n = players.len();
    let mut i: usize = 0;
    while i < n
        invariant
            i <= n,
            n == players.len(),
            n == before.len(),
            forall|k: int| 0 <= k < i ==> players[k] == (Player { score: 0, ..before[k].cleared() }),
            forall|k: int| i <= k < n ==> players[k] == before[k],
        decreases n - i,
    {
        let mut p = players[i].clear_round();
        p.score = 0;
        players.set(i, p);
        i += 1;
    }
    assert(players@ =~= reset_all(before));
}

/// Marks every seat that did not reveal as revealed with no choice.
pub fn force_reveals(players: &mut Vec<Player>)
    ensures
        final(players)@ == forced_all(old(players)@),
{
    let ghost before = players@;
    let n = players.len();
    let mut i: usize = 0;
    while i < n
        invariant
            i <= n,
            n == players.len(),
            n == before.len(),
            forall|k: int| 0 <= k < i ==> players[k] == forced(before[k]),
            forall|k: int| i <= k < n ==> players[k] == before[k],
        decreases n - i,
    {
        let mut p = players[i];
        if !p.revealed {
            p.choice = Choice::Absent;
            p.revealed = true;
        }
        players.set(i, p);
        i += 1;
    }
    assert(players@ =~= forced_all(before));
}

/// Collects the players that hold a commitment.
pub fn committed_players(players: &Vec<Player>) -> (kept: Vec<Player>)
    ensures
        kept@ == retained(players@),
{
    let mut kept: Vec<Player> = Vec::new();
    let mut i: usize = 0;
    while i < players.len()
        invariant
            i <= players.len(),
            kept@ == retained(players@.take(i as int)),
        decreases players.len() - i,
    {
        proof {
            assert(players@.take(i + 1).drop_last() =~= players@.take(i as int));
        }
        if players[i].has_committed() {
            kept.push(players[i]);
        }
        i += 1;
    }
    proof {
        assert(players@.take(players.len() as int) =~= players@);
    }
    kept
}

} // verus!
