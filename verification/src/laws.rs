//! What holds of the rules and of the state machine as a whole.

use vstd::prelude::*;
use crate::commitment::{code_of, commitment_of, preimage, reveal_verdict, sha256_digest};
use crate::game_logic::{beats, lemma_wins_bounded, resolved, round_wins, wins_against};
use crate::payout::{max_score, winner_count, winner_share};
use crate::roster::{forced_all, lemma_retained, lemma_seat_of, retained, seat_of};
use crate::transitions::{claim_step, complete_round, pot_has_room, step, timed_out};
use crate::types::{
    Choice, Context, GameError, GameState, GameVariant, GameView, Player, Pubkey, RPSInstruction,
    Step, Transfer,
};

verus! {

/// Whether a choice belongs to the classic game.
pub open spec fn is_classic_choice(c: Choice) -> bool {
    c == Choice::Rock || c == Choice::Paper || c == Choice::Scissors
}

/// No choice defeats itself, under any variant.
pub proof fn lemma_beats_irreflexive(a: Choice, variant: GameVariant)
    ensures
        !beats(a, a, variant),
{
}

/// Of two different real choices exactly one defeats the other: under the
/// extended rules for all five choices, under the classic rules (which the
/// other variants share) for Rock, Paper and Scissors.
pub proof fn lemma_beats_antisymmetric(a: Choice, b: Choice, variant: GameVariant)
    requires
        a != b,
        a != Choice::Absent,
        b != Choice::Absent,
        variant == GameVariant::Extended || (is_classic_choice(a) && is_classic_choice(b)),
    ensures
        beats(a, b, variant) == !beats(b, a, variant),
{
}

/// Taking one player out of the list takes out exactly that player's
/// contribution to a count of wins.
proof fn lemma_wins_remove(c: Choice, players: Seq<Player>, k: int, variant: GameVariant)
    requires
        0 <= k < players.len(),
    ensures
        wins_against(c, players, variant) == wins_against(c, players.remove(k), variant) + if beats(
            c,
            players[k].choice,
            variant,
        ) {
            1nat
        } else {
            0nat
        },
    decreases players.len(),
{
    if k == players.len() - 1 {
        assert(players.remove(k) =~= players.drop_last());
    } else {
        let init = players.drop_last();
        lemma_wins_remove(c, init, k, variant);
        assert(players.remove(k).drop_last() =~= init.remove(k));
        assert(players.remove(k).last() == players.last());
    }
}

/// The number of players that a choice defeats depends on who sits at the
/// table, not on the order of the seats.
pub proof fn lemma_wins_order_independent(
    c: Choice,
    first: Seq<Player>,
    second: Seq<Player>,
    variant: GameVariant,
)
    requires
        first.to_multiset() == second.to_multiset(),
    ensures
        wins_against(c, first, variant) == wins_against(c, second, variant),
    decreases first.len(),
{
    first.to_multiset_ensures();
    second.to_multiset_ensures();
    if first.len() == 0 {
        assert(second.len() == 0);
    } else {
        let last = first.len() - 1;
        let x = first[last];
        assert(first.contains(x));
        assert(second.to_multiset().count(x) > 0);
        assert(second.contains(x));
        let k = choose|k: int| 0 <= k < second.len() && second[k] == x;
        assert(first.remove(last) =~= first.drop_last());
        assert(first.remove(last).to_multiset() =~= first.to_multiset().remove(x));
        assert(second.remove(k).to_multiset() =~= second.to_multiset().remove(x));
        lemma_wins_order_independent(c, first.drop_last(), second.remove(k), variant);
        lemma_wins_remove(c, second, k, variant);
    }
}

/// Resolution of a round does not depend on the order of the players: where
/// two tables seat the same players, a player earns the same points and ends
/// with the same score at either.
pub proof fn lemma_round_order_independent(
    first: Seq<Player>,
    second: Seq<Player>,
    variant: GameVariant,
    i: int,
    k: int,
)
    requires
        first.to_multiset() == second.to_multiset(),
        0 <= i < first.len(),
        0 <= k < second.len(),
        first[i] == second[k],
    ensures
        round_wins(first, variant, i) == round_wins(second, variant, k),
        resolved(first, variant)[i] == resolved(second, variant)[k],
{
    lemma_wins_order_independent(first[i].choice, first, second, variant);
}

/// A reveal is accepted exactly when the stored digest is the commitment to
/// the revealed choice under the revealed salt; in particular, revealing what
/// was committed always succeeds.
pub proof fn lemma_commitment_round_trip(choice: Choice, salt: [u8; 32], stored: [u8; 32])
    ensures
        reveal_verdict(choice, salt, stored).is_ok() <==> commitment_of(choice, salt) == Some(
            stored@,
        ),
{
}

/// A reveal that differs from what was committed, in the choice or in any
/// bit of the salt, hashes different bytes. So it is accepted only if SHA-256
/// gives two different inputs the same digest.
pub proof fn lemma_changed_reveal_needs_collision(
    choice: Choice,
    salt: [u8; 32],
    other_choice: Choice,
    other_salt: [u8; 32],
    stored: [u8; 32],
)
    requires
        commitment_of(choice, salt) == Some(stored@),
        choice != other_choice || salt != other_salt,
        reveal_verdict(other_choice, other_salt, stored).is_ok(),
    ensures
        exists|a: Seq<u8>, b: Seq<u8>|
            a != b && #[trigger] sha256_digest(a) == #[trigger] sha256_digest(b),
{
    let a = preimage(salt@, code_of(choice).unwrap());
    let b = preimage(other_salt@, code_of(other_choice).unwrap());
    if choice != other_choice {
        assert(a[32] != b[32]);
    } else {
        assert(!(salt =~= other_salt));
        let i = choose|i: int| 0 <= i < 32 && salt[i] != other_salt[i];
        assert(a[i] != b[i]);
    }
    assert(a != b && sha256_digest(a) == sha256_digest(b));
}

/// The invariant survives the end of a round.
proof fn lemma_complete_round_keeps_invariant(g: GameView)
    requires
        g.wf(),
        g.state != GameState::Finished,
    ensures
        complete_round(g).wf(),
{
    let scored = resolved(g.players, g.game_variant);
    assert forall|i: int| 0 <= i < g.players.len() implies (#[trigger] scored[i]).score
        <= 255 * g.current_round by {
        lemma_wins_bounded(g.players[i].choice, g.players, g.game_variant);
        assert(g.players[i].score <= g.score_bound());
    }
    let after = complete_round(g);
    assert forall|i: int| 0 <= i < after.players.len() implies (#[trigger] after.players[i]).score
        <= after.score_bound() by {
        assert(scored[i].score <= 255 * g.current_round);
    }
}

/// The invariant survives a timeout.
proof fn lemma_timed_out_keeps_invariant(g: GameView)
    requires
        g.wf(),
        g.state != GameState::Finished,
    ensures
        timed_out(g).wf(),
{
    match g.state {
        GameState::CommitPhase => {
            lemma_retained(g.players);
            let kept = retained(g.players);
            assert forall|i: int| 0 <= i < kept.len() implies (#[trigger] kept[i]).score
                <= g.score_bound() by {
                assert(g.players.contains(kept[i]));
                let k = choose|k: int| 0 <= k < g.players.len() && g.players[k] == kept[i];
                assert(g.players[k].score <= g.score_bound());
            }
        },
        GameState::RevealPhase => {
            let forced = GameView { players: forced_all(g.players), ..g };
            assert forall|i: int| 0 <= i < forced.players.len() implies (
            #[trigger] forced.players[i]).score <= forced.score_bound() by {
                assert(g.players[i].score <= g.score_bound());
            }
            lemma_complete_round_keeps_invariant(forced);
        },
        _ => {
            assert forall|i: int| 0 <= i < g.players.len() implies (#[trigger] g.players[i]).score
                <= 255 * g.current_round by {
                assert(g.players[i].score <= g.score_bound());
            }
        },
    }
}

/// Every accepted action leaves the game well-formed: creation establishes
/// the invariant, and every other action keeps it.
pub proof fn lemma_step_keeps_invariant(
    game: Option<GameView>,
    instruction: RPSInstruction,
    ctx: Context,
)
    requires
        game matches Some(g) ==> g.wf(),
    ensures
        step(game, instruction, ctx) matches Ok(s) ==> s.game.wf(),
{
    if let Ok(s) = step(game, instruction, ctx) {
        match instruction {
            RPSInstruction::InitializeGame { .. } => {},
            _ => {
                let g = game.unwrap();
                lemma_seat_of(g.players, ctx.actor);
                match instruction {
                    RPSInstruction::RevealChoice { choice, salt } => {
                        let at = seat_of(g.players, ctx.actor).unwrap();
                        let players = g.players.update(
                            at,
                            Player { choice, revealed: true, ..g.players[at] },
                        );
                        let revealed = GameView { players, last_action_timestamp: ctx.now, ..g };
                        assert forall|j: int| 0 <= j < players.len() implies (
                        #[trigger] players[j]).score <= revealed.score_bound() by {
                            assert(g.players[j].score <= g.score_bound());
                        }
                        lemma_complete_round_keeps_invariant(revealed);
                    },
                    RPSInstruction::ResolveTimeout => {
                        lemma_timed_out_keeps_invariant(g);
                        let t = timed_out(g);
                        assert forall|i: int| 0 <= i < s.game.players.len() implies (
                        #[trigger] s.game.players[i]).score <= s.game.score_bound() by {
                            assert(t.players[i].score <= t.score_bound());
                        }
                    },
                    _ => {
                        assert forall|i: int| 0 <= i < s.game.players.len() implies (
                        #[trigger] s.game.players[i]).score <= s.game.score_bound() by {
                            if i < g.players.len() {
                                assert(g.players[i].score <= g.score_bound());
                            }
                        }
                    },
                }
            },
        }
    }
}

/// How far a game has come: rounds first, then the phase within the round.
pub open spec fn progress(g: GameView) -> int {
    4 * g.current_round + match g.state {
        GameState::WaitingForPlayers => 0int,
        GameState::CommitPhase => 1int,
        GameState::RevealPhase => 2int,
        GameState::Finished => 3int,
    }
}

/// Whether the instruction is one of the two that set a finished game up for
/// another game.
pub open spec fn is_restart(instruction: RPSInstruction) -> bool {
    instruction is StartNewGameRound || instruction is AutoPlayNextRound
}

/// A game only moves forward: no action but a restart takes a game back to
/// an earlier phase of its round or to an earlier round, and a finished game
/// stays finished. A restart is accepted only in a finished game and leads
/// to the commit phase.
pub proof fn lemma_phase_monotonic(g: GameView, instruction: RPSInstruction, ctx: Context)
    requires
        !(instruction is InitializeGame),
    ensures
        step(Some(g), instruction, ctx) matches Ok(s) ==> if is_restart(instruction) {
            g.state == GameState::Finished && s.game.state == GameState::CommitPhase
        } else {
            &&& progress(g) <= progress(s.game)
            &&& g.state == GameState::Finished ==> s.game.state == GameState::Finished
        },
{
}

/// The game after a series of claims, each by the caller it names; a claim
/// that is rejected changes nothing.
pub open spec fn after_claims(g: GameView, claims: Seq<Context>) -> GameView
    decreases claims.len(),
{
    if claims.len() == 0 {
        g
    } else {
        let before = after_claims(g, claims.drop_last());
        match claim_step(before, claims.last()) {
            Ok(s) => s.game,
            Err(_) => before,
        }
    }
}

/// The sum of the shares that a series of claims pays.
pub open spec fn total_paid(g: GameView, claims: Seq<Context>) -> nat
    decreases claims.len(),
{
    if claims.len() == 0 {
        0
    } else {
        let before = after_claims(g, claims.drop_last());
        total_paid(g, claims.drop_last()) + match claim_step(before, claims.last()) {
            Ok(s) => winner_share(before.players, before.game_pot) as nat,
            Err(_) => 0nat,
        }
    }
}

/// A share never exceeds the pot.
pub proof fn lemma_share_within_pot(players: Seq<Player>, pot: u64)
    ensures
        winner_share(players, pot) <= pot,
{
    let n = winner_count(players);
    if n > 0 {
        assert(pot as nat / n <= pot) by (nonlinear_arith)
            requires
                n > 0,
        ;
    }
}

/// Payouts are conserved: whatever claims are made in whatever order, what
/// was paid and what is left add up to the pot at the finish. So the shares
/// paid never exceed that pot, however many winners there are.
pub proof fn lemma_payout_conservation(g: GameView, claims: Seq<Context>)
    ensures
        total_paid(g, claims) + after_claims(g, claims).game_pot == g.game_pot,
        total_paid(g, claims) <= g.game_pot,
    decreases claims.len(),
{
    if claims.len() > 0 {
        lemma_payout_conservation(g, claims.drop_last());
        let before = after_claims(g, claims.drop_last());
        lemma_share_within_pot(before.players, before.game_pot);
    }
}

/// Whether `id`, whose seat `seat` was just paid and zeroed, is a winner
/// again at the table left by the claim: nobody has a point left, so that
/// zero is the highest score, or `id` holds another seat with the highest
/// score.
pub open spec fn can_claim_again(after: Seq<Player>, id: Pubkey, seat: int) -> bool {
    ||| max_score(after) == 0
    ||| exists|j: int|
        0 <= j < after.len() && j != seat && (#[trigger] after[j]).pubkey == id && after[j].score
            == max_score(after)
}

/// A winner claims once: after an accepted claim the same caller's next
/// claim is rejected as not a winner's, because the claimant's score is zero.
/// The tables left out are those of [`can_claim_again`]; where every identity
/// holds one seat, that is the table where nobody has a point left.
pub proof fn lemma_claim_once(g: GameView, ctx: Context)
    requires
        claim_step(g, ctx) matches Ok(s) && !can_claim_again(
            s.game.players,
            ctx.actor,
            seat_of(g.players, ctx.actor).unwrap(),
        ),
    ensures
        claim_step(g, ctx) matches Ok(s) && claim_step(s.game, ctx) == Err::<Step, GameError>(
            GameError::NotAWinner,
        ),
{
    let s = claim_step(g, ctx).unwrap();
    lemma_seat_of(g.players, ctx.actor);
    let seat = seat_of(g.players, ctx.actor).unwrap();
    assert forall|j: int| 0 <= j < s.game.players.len() && (#[trigger] s.game.players[j]).pubkey
        == ctx.actor implies s.game.players[j].score != max_score(s.game.players) by {
        if j == seat {
            assert(s.game.players[j].score == 0);
        }
    }
}

/// On the tables that [`lemma_claim_once`] leaves out, the second claim is
/// accepted.
pub proof fn lemma_claim_again(g: GameView, ctx: Context)
    requires
        claim_step(g, ctx) matches Ok(s) && can_claim_again(
            s.game.players,
            ctx.actor,
            seat_of(g.players, ctx.actor).unwrap(),
        ),
    ensures
        claim_step(g, ctx) matches Ok(s) && claim_step(s.game, ctx).is_ok(),
{
    let s = claim_step(g, ctx).unwrap();
    lemma_seat_of(g.players, ctx.actor);
    let seat = seat_of(g.players, ctx.actor).unwrap();
    if max_score(s.game.players) == 0 {
        assert(s.game.players[seat].pubkey == ctx.actor && s.game.players[seat].score == 0);
    }
}

/// What a transfer brings into the pot.
pub open spec fn inflow(transfer: Option<Transfer>) -> int {
    match transfer {
        Some(Transfer::ToPot { amount, .. }) => amount as int,
        _ => 0,
    }
}

/// What a transfer takes out of the pot.
pub open spec fn outflow(transfer: Option<Transfer>) -> int {
    match transfer {
        Some(Transfer::FromPot { amount, .. }) => amount as int,
        _ => 0,
    }
}

/// The pot is the fees collected less the shares paid: while the pot has
/// room, every action on an existing game changes it by exactly the transfer
/// it requests. The one exception are bots, whose fees are booked without a
/// transfer.
pub proof fn lemma_pot_follows_transfers(g: GameView, instruction: RPSInstruction, ctx: Context)
    requires
        !(instruction is InitializeGame),
        !(instruction is AddBotPlayers),
        pot_has_room(g, instruction),
    ensures
        step(Some(g), instruction, ctx) matches Ok(s) ==> s.game.game_pot == g.game_pot + inflow(
            s.transfer,
        ) - outflow(s.transfer),
{
    if let Ok(s) = step(Some(g), instruction, ctx) {
        if instruction is ClaimWinnings {
            lemma_share_within_pot(g.players, g.game_pot);
        }
    }
}

/// A round starts with empty seats: whenever an action opens a commit phase
/// after a reveal phase or after a finished game, no player holds a choice, a
/// commitment or a reveal.
pub proof fn lemma_new_round_starts_empty(g: GameView, instruction: RPSInstruction, ctx: Context)
    requires
        !(instruction is InitializeGame),
        g.state == GameState::RevealPhase || g.state == GameState::Finished,
    ensures
        step(Some(g), instruction, ctx) matches Ok(s) ==> s.game.state == GameState::CommitPhase
            ==> forall|i: int|
            0 <= i < s.game.players.len() ==> {
                &&& (#[trigger] s.game.players[i]).choice == Choice::Absent
                &&& !s.game.players[i].committed()
                &&& !s.game.players[i].revealed
            },
{
}

/// Whether no two seats are held by the same identity.
pub open spec fn distinct_players(players: Seq<Player>) -> bool {
    forall|a: int, b: int|
        0 <= a < b < players.len() ==> (#[trigger] players[a]).pubkey != (
        #[trigger] players[b]).pubkey
}

/// Dropping the players without a commitment leaves identities unique.
proof fn lemma_retained_distinct(players: Seq<Player>)
    requires
        distinct_players(players),
    ensures
        distinct_players(retained(players)),
    decreases players.len(),
{
    if players.len() > 0 {
        let init = players.drop_last();
        assert forall|a: int, b: int| 0 <= a < b < init.len() implies (#[trigger] init[a]).pubkey != (
        #[trigger] init[b]).pubkey by {
            assert(players[a].pubkey != players[b].pubkey);
        }
        lemma_retained_distinct(init);
        lemma_retained(init);
        let kept = retained(players);
        assert forall|a: int, b: int| 0 <= a < b < kept.len() implies (#[trigger] kept[a]).pubkey != (
        #[trigger] kept[b]).pubkey by {
            if b < retained(init).len() {
                assert(retained(init)[a].pubkey != retained(init)[b].pubkey);
            } else {
                assert(init.contains(retained(init)[a]));
                let k = choose|k: int| 0 <= k < init.len() && init[k] == retained(init)[a];
                assert(players[k].pubkey != players[players.len() - 1].pubkey);
            }
        }
    }
}

/// Identities stay unique: at a table where no identity sits twice, none
/// does after any accepted action of the players. Joining enforces this by
/// rejecting an identity that is already seated. Bots are the exception:
/// their identities are made up and not held against the table.
pub proof fn lemma_step_keeps_players_distinct(
    game: Option<GameView>,
    instruction: RPSInstruction,
    ctx: Context,
)
    requires
        game matches Some(g) ==> distinct_players(g.players),
        !(instruction is AddBotPlayers),
    ensures
        step(game, instruction, ctx) matches Ok(s) ==> distinct_players(s.game.players),
{
    if let Ok(s) = step(game, instruction, ctx) {
        if !(instruction is InitializeGame) {
            let g = game.unwrap();
            lemma_seat_of(g.players, ctx.actor);
            if instruction is ResolveTimeout && g.state == GameState::CommitPhase {
                lemma_retained_distinct(g.players);
            } else {
                assert(s.game.players.len() == g.players.len() || instruction is JoinGame);
                assert forall|a: int, b: int| 0 <= a < b < s.game.players.len() implies (
                #[trigger] s.game.players[a]).pubkey != (#[trigger] s.game.players[b]).pubkey by {
                    if b < g.players.len() {
                        assert(g.players[a].pubkey != g.players[b].pubkey);
                        assert(s.game.players[a].pubkey == g.players[a].pubkey);
                        assert(s.game.players[b].pubkey == g.players[b].pubkey);
                    } else {
                        assert(g.players[a].pubkey != ctx.actor);
                    }
                }
            }
        }
    }
}

/// Seats keep their place and scores only grow: but for a claim, a restart
/// and a commit phase that times out, an accepted action leaves every player
/// in the same seat with a score no lower than before.
pub proof fn lemma_scores_only_grow(g: GameView, instruction: RPSInstruction, ctx: Context)
    requires
        g.wf(),
        !(instruction is InitializeGame),
        !(instruction is ClaimWinnings),
        !is_restart(instruction),
        !(instruction is ResolveTimeout && g.state == GameState::CommitPhase),
    ensures
        step(Some(g), instruction, ctx) matches Ok(s) ==> {
            &&& g.players.len() <= s.game.players.len()
            &&& forall|i: int|
                0 <= i < g.players.len() ==> (#[trigger] s.game.players[i]).pubkey
                    == g.players[i].pubkey && g.players[i].score <= s.game.players[i].score
        },
{
    if let Ok(s) = step(Some(g), instruction, ctx) {
        lemma_seat_of(g.players, ctx.actor);
        assert forall|i: int| 0 <= i < g.players.len() implies (#[trigger] s.game.players[i]).pubkey
            == g.players[i].pubkey && g.players[i].score <= s.game.players[i].score by {
            assert(g.players[i].score <= g.score_bound());
            match instruction {
                RPSInstruction::RevealChoice { choice, salt } => {
                    let at = seat_of(g.players, ctx.actor).unwrap();
                    let players = g.players.update(
                        at,
                        Player { choice, revealed: true, ..g.players[at] },
                    );
                    lemma_wins_bounded(players[i].choice, players, g.game_variant);
                },
                RPSInstruction::ResolveTimeout => {
                    let players = forced_all(g.players);
                    lemma_wins_bounded(players[i].choice, players, g.game_variant);
                },
                _ => {},
            }
        }
    }
}

} // verus!
