//! Who has won, and what a winner is paid.

use vstd::prelude::*;
use crate::types::{Player, Pubkey};

verus! {

/// The highest score at the table; zero at an empty table.
pub open spec fn max_score(players: Seq<Player>) -> u64
    decreases players.len(),
{
    if players.len() == 0 {
        0
    } else {
        let rest = max_score(players.drop_last());
        if players.last().score > rest {
            players.last().score
        } else {
            rest
        }
    }
}

/// How many players hold exactly the score `top`.
pub open spec fn count_with_score(players: Seq<Player>, top: u64) -> nat
    decreases players.len(),
{
    if players.len() == 0 {
        0
    } else {
        count_with_score(players.drop_last(), top) + if players.last().score == top {
            1nat
        } else {
            0nat
        }
    }
}

/// The size of the winner set: the players that hold the highest score.
pub open spec fn winner_count(players: Seq<Player>) -> nat {
    count_with_score(players, max_score(players))
}

/// Whether `id` holds a seat with the highest score.
pub open spec fn is_winner(players: Seq<Player>, id: Pubkey) -> bool {
    exists|i: int|
        0 <= i < players.len() && (#[trigger] players[i]).pubkey == id && players[i].score
            == max_score(players)
}

/// A winner's entitlement: the pot divided evenly among the winners, rounded
/// down. The remainder is not distributed.
pub open spec fn winner_share(players: Seq<Player>, pot: u64) -> u64 {
    if winner_count(players) == 0 {
        0
    } else {
        (pot as nat / winner_count(players)) as u64
    }
}

/// The highest score bounds every score and, at a table with players, is
/// some player's score.
pub proof fn lemma_max_score(players: Seq<Player>)
    ensures
        forall|i: int| 0 <= i < players.len() ==> (#[trigger] players[i]).score <= max_score(players),
        players.len() > 0 ==> exists|i: int|
            0 <= i < players.len() && (#[trigger] players[i]).score == max_score(players),
    decreases players.len(),
{
    if players.len() > 0 {
        let init = players.drop_last();
        lemma_max_score(init);
        assert forall|i: int| 0 <= i < players.len() implies (#[trigger] players[i]).score
            <= max_score(players) by {
            if i < init.len() {
                assert(init[i] == players[i]);
            }
        }
        if players.last().score > max_score(init) || init.len() == 0 {
            assert(players[players.len() - 1].score == max_score(players));
        } else {
            let k = choose|k: int| 0 <= k < init.len() && (#[trigger] init[k]).score == max_score(init);
            assert(players[k].score == max_score(players));
        }
    }
}

/// A score is counted at least once if a player holds it, and never more
/// often than there are players.
pub proof fn lemma_count_with_score(players: Seq<Player>, top: u64)
    ensures
        count_with_score(players, top) <= players.len(),
        (exists|i: int| 0 <= i < players.len() && (#[trigger] players[i]).score == top)
            ==> count_with_score(players, top) >= 1,
    decreases players.len(),
{
    if players.len() > 0 {
        let init = players.drop_last();
        lemma_count_with_score(init, top);
        if exists|i: int| 0 <= i < players.len() && (#[trigger] players[i]).score == top {
            let i = choose|i: int| 0 <= i < players.len() && (#[trigger] players[i]).score == top;
            if i < init.len() {
                assert(init[i].score == top);
            }
        }
    }
}

/// At a table with players the winner set is not empty, so the share is the
/// pot divided by the number of winners.
pub proof fn lemma_winners_exist(players: Seq<Player>)
    requires
        players.len() > 0,
    ensures
        1 <= winner_count(players) <= players.len(),
        winner_share(players, 0) == 0,
        forall|pot: u64| #[trigger] winner_share(players, pot) == pot as nat / winner_count(players),
{
    lemma_max_score(players);
    lemma_count_with_score(players, max_score(players));
    let n = winner_count(players);
    assert forall|pot: u64| #[trigger] winner_share(players, pot) == pot as nat / n by {
        assert(pot as nat / n <= pot) by (nonlinear_arith)
            requires
                n >= 1,
        ;
    }
    assert(0nat / n == 0) by (nonlinear_arith)
        requires
            n >= 1,
    ;
}

/// Finds the highest score.
pub fn highest_score(players: &Vec<Player>) -> (top: u64)
    ensures
        top == max_score(players@),
{
    let mut top: u64 = 0;
    let mut i: usize = 0;
    while i < players.len()
        invariant
            i <= players.len(),
            top == max_score(players@.take(i as int)),
        decreases players.len() - i,
    {
        proof {
            assert(players@.take(i + 1).drop_last() =~= players@.take(i as int));
        }
        if players[i].score > top {
            top = players[i].score;
        }
        i += 1;
    }
    proof {
        assert(players@.take(players.len() as int) =~= players@);
    }
    top
}

/// Counts the players that hold the score `top`.
pub fn players_with_score(players: &Vec<Player>, top: u64) -> (n: usize)
    ensures
        n == count_with_score(players@, top),
{
    let mut n: usize = 0;
    let mut i: usize = 0;
    while i < players.len()
        invariant
            i <= players.len(),
            n <= i,
            n == count_with_score(players@.take(i as int), top),
        decreases players.len() - i,
    {
        proof {
            assert(players@.take(i + 1).drop_last() =~= players@.take(i as int));
        }
        if players[i].score == top {
            n += 1;
        }
        i += 1;
    }
    proof {
        assert(players@.take(players.len() as int) =~= players@);
    }
    n
}

/// Whether `id` holds a seat whose score is `top`.
pub fn holds_score(players: &Vec<Player>, id: &Pubkey, top: u64) -> (r: bool)
    ensures
        r == exists|i: int|
            0 <= i < players.len() && (#[trigger] players[i]).pubkey == *id && players[i].score
                == top,
{
    let mut i: usize = 0;
    while i < players.len()
        invariant
            i <= players.len(),
            forall|k: int|
                0 <= k < i ==> !((#[trigger] players[k]).pubkey == *id && players[k].score == top),
        decreases players.len() - i,
    {
        if players[i].pubkey.same(id) && players[i].score == top {
            return true;
        }
        i += 1;
    }
    false
}

/// The share of the pot that each winner is entitled to.
pub fn share_of_pot(players: &Vec<Player>, pot: u64) -> (share: u64)
    ensures
        share == winner_share(players@, pot),
        share <= pot,
{
    let top = highest_score(players);
    let winners = players_with_score(players, top);
    if winners == 0 {
        0
    } else {
        let share = pot / (winners as u64);
        assert(share <= pot) by (nonlinear_arith)
            requires
                share == pot / (winners as u64),
                winners >= 1,
        ;
        share
    }
}

} // verus!
