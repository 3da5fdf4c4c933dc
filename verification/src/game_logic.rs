//! The rules of the throw and the resolution of a round.

use vstd::prelude::*;
use crate::roster::all_revealed;
use crate::types::{Choice, Game, GameVariant, GameView, Player};

verus! {

/// Classic rules: Rock beats Scissors, Paper beats Rock, Scissors beats Paper.
pub open spec fn classic_beats(a: Choice, b: Choice) -> bool {
    match (a, b) {
        (Choice::Rock, Choice::Scissors) => true,
        (Choice::Paper, Choice::Rock) => true,
        (Choice::Scissors, Choice::Paper) => true,
        _ => false,
    }
}

/// Extended rules: every one of the five real choices beats two others.
pub open spec fn extended_beats(a: Choice, b: Choice) -> bool {
    match (a, b) {
        (Choice::Rock, Choice::Scissors) | (Choice::Rock, Choice::Lizard) => true,
        (Choice::Paper, Choice::Rock) | (Choice::Paper, Choice::Spock) => true,
        (Choice::Scissors, Choice::Paper) | (Choice::Scissors, Choice::Lizard) => true,
        (Choice::Lizard, Choice::Paper) | (Choice::Lizard, Choice::Spock) => true,
        (Choice::Spock, Choice::Rock) | (Choice::Spock, Choice::Scissors) => true,
        _ => false,
    }
}

/// Whether `a` defeats `b` under `variant`. An absent choice never wins; a
/// real choice always defeats an absent one; equal choices tie.
pub open spec fn beats(a: Choice, b: Choice, variant: GameVariant) -> bool {
    if a == Choice::Absent {
        false
    } else if b == Choice::Absent {
        true
    } else if a == b {
        false
    } else if variant == GameVariant::Extended {
        extended_beats(a, b)
    } else {
        classic_beats(a, b)
    }
}

/// Decides whether the first choice defeats the second.
pub fn determine_winner(
    player1_choice: &Choice,
    player2_choice: &Choice,
    game_variant: &GameVariant,
) -> (r: bool)
    ensures
        r == beats(*player1_choice, *player2_choice, *game_variant),
{
    if *player1_choice == Choice::Absent {
        return false;
    }
    if *player2_choice == Choice::Absent {
        return true;
    }
    if *player1_choice == *player2_choice {
        return false;
    }
    match game_variant {
        GameVariant::Extended => match (player1_choice, player2_choice) {
            (Choice::Rock, Choice::Scissors) | (Choice::Rock, Choice::Lizard) => true,
            (Choice::Paper, Choice::Rock) | (Choice::Paper, Choice::Spock) => true,
            (Choice::Scissors, Choice::Paper) | (Choice::Scissors, Choice::Lizard) => true,
            (Choice::Lizard, Choice::Paper) | (Choice::Lizard, Choice::Spock) => true,
            (Choice::Spock, Choice::Rock) | (Choice::Spock, Choice::Scissors) => true,
            _ => false,
        },
        _ => match (player1_choice, player2_choice) {
            (Choice::Rock, Choice::Scissors) => true,
            (Choice::Paper, Choice::Rock) => true,
            (Choice::Scissors, Choice::Paper) => true,
            _ => false,
        },
    }
}

/// How many of `players` the choice `c` defeats. A player's own seat never
/// counts, since no choice defeats itself.
pub open spec fn wins_against(c: Choice, players: Seq<Player>, variant: GameVariant) -> nat
    decreases players.len(),
{
    if players.len() == 0 {
        0
    } else {
        wins_against(c, players.drop_last(), variant) + if beats(
            c,
            players.last().choice,
            variant,
        ) {
            1nat
        } else {
            0nat
        }
    }
}

/// The points that seat `i` earns in this round: one for every other player
/// whose choice it defeats.
pub open spec fn round_wins(players: Seq<Player>, variant: GameVariant, i: int) -> nat
    recommends
        0 <= i < players.len(),
{
    wins_against(players[i].choice, players, variant)
}

/// The players after the round: each score raised by the seat's wins,
/// everything else as it was.
pub open spec fn resolved(players: Seq<Player>, variant: GameVariant) -> Seq<Player> {
    Seq::new(
        players.len(),
        |i: int| Player { score: (players[i].score + round_wins(players, variant, i)) as u64, ..players[i] },
    )
}

/// No choice defeats more players than there are.
pub proof fn lemma_wins_bounded(c: Choice, players: Seq<Player>, variant: GameVariant)
    ensures
        wins_against(c, players, variant) <= players.len(),
    decreases players.len(),
{
    if players.len() > 0 {
        lemma_wins_bounded(c, players.drop_last(), variant);
    }
}

/// Counts the players that `c` defeats.
fn count_wins(c: Choice, players: &Vec<Player>, variant: GameVariant) -> (n: usize)
    ensures
        n == wins_against(c, players@, variant),
{
    let mut n: usize = 0;
    let mut j: usize = 0;
    while j < players.len()
        invariant
            j <= players.len(),
            n == wins_against(c, players@.take(j as int), variant),
            n <= j,
        decreases players.len() - j,
    {
        proof {
            assert(players@.take(j + 1).drop_last() =~= players@.take(j as int));
        }
        if determine_winner(&c, &players[j].choice, &variant) {
            n += 1;
        }
        j += 1;
    }
    proof {
        assert(players@.take(players.len() as int) =~= players@);
    }
    n
}

/// Scores one round: every player gains one point for each other player
/// whose choice theirs defeats. Choices, commitments and the rest of the game
/// stay as they are. A round is scored once every player has revealed, and
/// scores must have room for the points of the round.
pub fn process_round_results(game: &mut Game)
    requires
        all_revealed(old(game).players@),
        forall|i: int|
            0 <= i < old(game).players.len() ==> old(game).players[i].score + round_wins(
                old(game).players@,
                old(game).game_variant,
                i,
            ) <= u64::MAX,
    ensures
        final(game)@ == (GameView {
            players: resolved(old(game).players@, old(game).game_variant),
            ..old(game)@
        }),
{
    let ghost before = game.players@;
    let variant = game.game_variant;
    let n = game.players.len();
    let mut wins: Vec<u64> = Vec::new();
    let mut i: usize = 0;
    while i < n
        invariant
            i <= n,
            n == game.players.len(),
            game.players@ == before,
            variant == game.game_variant,
            wins.len() == i,
            forall|k: int| 0 <= k < i ==> wins[k] == round_wins(before, variant, k),
        decreases n - i,
    {
        let c = game.players[i].choice;
        let w = count_wins(c, &game.players, variant);
        proof {
            lemma_wins_bounded(c, before, variant);
        }
        wins.push(w as u64);
        i += 1;
    }
    let mut k: usize = 0;
    while k < n
        invariant
            k <= n,
            n == game.players.len(),
            n == before.len(),
            wins.len() == n,
            variant == game.game_variant,
            game@ == (GameView { players: game.players@, ..old(game)@ }),
            forall|m: int| 0 <= m < n ==> wins[m] == round_wins(before, variant, m),
            forall|m: int| 0 <= m < n ==> before[m].score + round_wins(before, variant, m) <= u64::MAX,
            forall|m: int| 0 <= m < k ==> game.players[m] == resolved(before, variant)[m],
            forall|m: int| k <= m < n ==> game.players[m] == before[m],
        decreases n - k,
    {
        let mut p = game.players[k];
        p.score = p.score + wins[k];
        game.players.set(k, p);
        k += 1;
    }
    proof {
        assert(game.players@ =~= resolved(before, variant));
    }
}

} // verus!
