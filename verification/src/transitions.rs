//! The state machine as mathematics: for every action, the function from the
//! game before and the caller to the game after, or to the error that rejects
//! the action.

use vstd::prelude::*;
use crate::commitment::reveal_verdict;
use crate::game_logic::resolved;
use crate::payout::{is_winner, max_score, winner_share};
use crate::roster::{
    all_committed, all_revealed, cleared_all, forced_all, has_player, reset_all, retained, seat_of,
};
use crate::types::{
    fresh_player, Choice, Context, CurrencyMode, GameError, GameMode, GameState, GameVariant,
    GameView, Player, Pubkey, RPSInstruction, Step, Transfer,
};

verus! {

/// The game mode that a wire code names.
pub open spec fn mode_of(code: u8) -> Option<GameMode> {
    if code == 0 {
        Some(GameMode::Manual)
    } else if code == 1 {
        Some(GameMode::Automated)
    } else {
        None
    }
}

/// The currency mode that a wire code names.
pub open spec fn currency_of(code: u8) -> Option<CurrencyMode> {
    if code == 0 {
        Some(CurrencyMode::SOL)
    } else if code == 1 {
        Some(CurrencyMode::RPSToken)
    } else {
        None
    }
}

/// The variant that a wire code names; an unknown code means Classic.
pub open spec fn variant_of(code: u8) -> GameVariant {
    if code == 1 {
        GameVariant::Extended
    } else if code == 2 {
        GameVariant::Timed
    } else if code == 3 {
        GameVariant::Streak
    } else if code == 4 {
        GameVariant::Tournament
    } else {
        GameVariant::Classic
    }
}

/// The number of seats: fixed where the bounds agree, otherwise picked by the
/// parity of the clock. This is a weak source of chance and nobody may rely
/// on it being unpredictable.
pub open spec fn seats(min_players: u8, max_players: u8, now: u64) -> u8 {
    if min_players == max_players || now % 2 == 0 {
        min_players
    } else {
        max_players
    }
}

/// Whether the bounds on the number of players are acceptable: three or four
/// each, the lower not above the upper.
pub open spec fn valid_bounds(min_players: u8, max_players: u8) -> bool {
    &&& 3 <= min_players <= 4
    &&& 3 <= max_players <= 4
    &&& min_players <= max_players
}

/// The request to pay one entry fee into the pot, where there is a fee.
pub open spec fn fee_request(from: Pubkey, fee: u64) -> Option<Transfer> {
    if fee > 0 {
        Some(Transfer::ToPot { from, amount: fee })
    } else {
        None
    }
}

/// Creation of a game by its host, who takes the first seat and pays the
/// first fee.
pub open spec fn initialize_step(
    min_players: u8,
    max_players: u8,
    total_rounds: u8,
    entry_fee: u64,
    timeout_seconds: u64,
    losers_can_rejoin: bool,
    game_mode: u8,
    currency_mode: u8,
    auto_round_delay: u64,
    max_auto_rounds: u64,
    game_variant: u8,
    time_limit: Option<u64>,
    chat_enabled: bool,
    nft_prize: bool,
    tournament_id: Option<Pubkey>,
    ctx: Context,
) -> Result<Step, GameError> {
    if !ctx.is_signer {
        Err(GameError::Unauthorized)
    } else if !valid_bounds(min_players, max_players) || total_rounds == 0 || mode_of(
        game_mode,
    ).is_none() || currency_of(currency_mode).is_none() {
        Err(GameError::InvalidParameters)
    } else {
        Ok(
            Step {
                game: GameView {
                    host: ctx.actor,
                    players: seq![fresh_player(ctx.actor)],
                    min_players,
                    max_players,
                    state: GameState::WaitingForPlayers,
                    current_round: 1,
                    total_rounds,
                    entry_fee,
                    game_pot: entry_fee,
                    required_timeout: timeout_seconds,
                    last_action_timestamp: ctx.now,
                    player_count: seats(min_players, max_players, ctx.now),
                    losers_can_rejoin,
                    game_mode: mode_of(game_mode).unwrap(),
                    auto_round_delay,
                    max_auto_rounds,
                    current_auto_round: 0,
                    currency_mode: currency_of(currency_mode).unwrap(),
                    game_variant: variant_of(game_variant),
                    time_limit,
                    spectators: Seq::empty(),
                    chat_enabled,
                    tournament_id,
                    nft_prize,
                },
                transfer: if currency_of(currency_mode) == Some(CurrencyMode::SOL) {
                    fee_request(ctx.actor, entry_fee)
                } else {
                    None
                },
            },
        )
    }
}

/// The phase after seats were taken: play starts once the table is full.
pub open spec fn phase_when_seated(g: GameView, seated: nat) -> GameState {
    if seated >= g.player_count {
        GameState::CommitPhase
    } else {
        GameState::WaitingForPlayers
    }
}

/// A player takes a seat and pays the fee.
pub open spec fn join_step(g: GameView, ctx: Context) -> Result<Step, GameError> {
    if !ctx.is_signer {
        Err(GameError::Unauthorized)
    } else if g.state != GameState::WaitingForPlayers {
        Err(GameError::WrongPhase)
    } else if has_player(g.players, ctx.actor) {
        Err(GameError::DuplicateParticipant)
    } else if g.players.len() >= g.player_count {
        Err(GameError::GameFull)
    } else {
        Ok(
            Step {
                game: GameView {
                    players: g.players.push(fresh_player(ctx.actor)),
                    game_pot: (g.game_pot + g.entry_fee) as u64,
                    state: phase_when_seated(g, g.players.len() + 1),
                    last_action_timestamp: ctx.now,
                    ..g
                },
                transfer: fee_request(ctx.actor, g.entry_fee),
            },
        )
    }
}

/// A player stores a commitment, replacing an earlier one. The reveal phase
/// starts once every player holds one.
pub open spec fn commit_step(g: GameView, ctx: Context, digest: [u8; 32]) -> Result<
    Step,
    GameError,
> {
    if !ctx.is_signer {
        Err(GameError::Unauthorized)
    } else if g.state != GameState::CommitPhase {
        Err(GameError::WrongPhase)
    } else {
        match seat_of(g.players, ctx.actor) {
            None => Err(GameError::UnknownParticipant),
            Some(i) => {
                let players = g.players.update(
                    i,
                    Player { committed_choice: digest, ..g.players[i] },
                );
                Ok(
                    Step {
                        game: GameView {
                            players,
                            state: if all_committed(players) {
                                GameState::RevealPhase
                            } else {
                                GameState::CommitPhase
                            },
                            last_action_timestamp: ctx.now,
                            ..g
                        },
                        transfer: None,
                    },
                )
            },
        }
    }
}

/// The end of a round: the round is scored; after the last round the game
/// is finished, otherwise the next round starts with emptied seats.
pub open spec fn complete_round(g: GameView) -> GameView {
    let scored = resolved(g.players, g.game_variant);
    if g.current_round >= g.total_rounds {
        GameView { players: scored, state: GameState::Finished, ..g }
    } else {
        GameView {
            players: cleared_all(scored),
            current_round: (g.current_round + 1) as u8,
            state: GameState::CommitPhase,
            ..g
        }
    }
}

/// A player reveals choice and salt. The reveal is checked against the
/// player's commitment; the last reveal completes the round.
pub open spec fn reveal_step(g: GameView, ctx: Context, choice: Choice, salt: [u8; 32]) -> Result<
    Step,
    GameError,
> {
    if !ctx.is_signer {
        Err(GameError::Unauthorized)
    } else if g.state != GameState::RevealPhase {
        Err(GameError::WrongPhase)
    } else {
        match seat_of(g.players, ctx.actor) {
            None => Err(GameError::UnknownParticipant),
            Some(i) => match reveal_verdict(choice, salt, g.players[i].committed_choice) {
                Err(e) => Err(e),
                Ok(_) => {
                    let players = g.players.update(
                        i,
                        Player { choice, revealed: true, ..g.players[i] },
                    );
                    let revealed = GameView { players, last_action_timestamp: ctx.now, ..g };
                    Ok(
                        Step {
                            game: if all_revealed(players) {
                                complete_round(revealed)
                            } else {
                                revealed
                            },
                            transfer: None,
                        },
                    )
                },
            },
        }
    }
}

/// The time since the last accepted action; zero if the clock went back.
pub open spec fn elapsed(g: GameView, now: u64) -> int {
    if now >= g.last_action_timestamp {
        now - g.last_action_timestamp
    } else {
        0
    }
}

/// What a timeout does to a game that is not finished: a game still waiting
/// for players ends; a commit phase goes on with the players that committed
/// if they are enough, and ends the game otherwise; a reveal phase is
/// completed with the silent players counted as having no choice.
pub open spec fn timed_out(g: GameView) -> GameView {
    match g.state {
        GameState::WaitingForPlayers => GameView { state: GameState::Finished, ..g },
        GameState::CommitPhase => if retained(g.players).len() >= g.min_players {
            GameView { players: retained(g.players), state: GameState::RevealPhase, ..g }
        } else {
            GameView { state: GameState::Finished, ..g }
        },
        GameState::RevealPhase => complete_round(GameView { players: forced_all(g.players), ..g }),
        GameState::Finished => g,
    }
}

/// Anyone may move a stalled game on once the timeout has passed.
pub open spec fn timeout_step(g: GameView, ctx: Context) -> Result<Step, GameError> {
    if !ctx.is_signer {
        Err(GameError::Unauthorized)
    } else if elapsed(g, ctx.now) < g.required_timeout {
        Err(GameError::TimeoutNotElapsed)
    } else if g.state == GameState::Finished {
        Err(GameError::AlreadyFinished)
    } else {
        Ok(
            Step {
                game: GameView { last_action_timestamp: ctx.now, ..timed_out(g) },
                transfer: None,
            },
        )
    }
}

/// A winner takes an equal share of the pot. The share leaves the pot and
/// the winner's score is zeroed.
pub open spec fn claim_step(g: GameView, ctx: Context) -> Result<Step, GameError> {
    if !ctx.is_signer {
        Err(GameError::Unauthorized)
    } else if g.state != GameState::Finished {
        Err(GameError::WrongPhase)
    } else if !is_winner(g.players, ctx.actor) {
        Err(GameError::NotAWinner)
    } else {
        let i = seat_of(g.players, ctx.actor).unwrap();
        let share = winner_share(g.players, g.game_pot);
        Ok(
            Step {
                game: GameView {
                    players: g.players.update(i, Player { score: 0, ..g.players[i] }),
                    game_pot: (g.game_pot - share) as u64,
                    ..g
                },
                transfer: Some(Transfer::FromPot { to: ctx.actor, amount: share }),
            },
        )
    }
}

/// A player who finished below the highest score buys back in, where the
/// game allows it. Nobody else's seat or score changes.
pub open spec fn rejoin_step(g: GameView, ctx: Context) -> Result<Step, GameError> {
    if !ctx.is_signer {
        Err(GameError::Unauthorized)
    } else if g.state != GameState::Finished {
        Err(GameError::WrongPhase)
    } else if !g.losers_can_rejoin {
        Err(GameError::NotEligible)
    } else {
        match seat_of(g.players, ctx.actor) {
            None => Err(GameError::NotEligible),
            Some(i) => if g.players[i].score >= max_score(g.players) {
                Err(GameError::NotEligible)
            } else {
                Ok(
                    Step {
                        game: GameView {
                            players: g.players.update(i, g.players[i].cleared()),
                            game_pot: (g.game_pot + g.entry_fee) as u64,
                            last_action_timestamp: ctx.now,
                            ..g
                        },
                        transfer: fee_request(ctx.actor, g.entry_fee),
                    },
                )
            },
        }
    }
}

/// Whether the caller is the host or holds a seat.
pub open spec fn is_participant(g: GameView, id: Pubkey) -> bool {
    g.host == id || has_player(g.players, id)
}

/// A finished game set up for another game with the same players: round one,
/// emptied seats, scores at zero, the number of seats drawn again.
pub open spec fn restarted(g: GameView, now: u64) -> GameView {
    GameView {
        players: reset_all(g.players),
        current_round: 1,
        state: GameState::CommitPhase,
        player_count: seats(g.min_players, g.max_players, now),
        last_action_timestamp: now,
        ..g
    }
}

/// The host or a player starts another game at the same table.
pub open spec fn new_round_step(g: GameView, ctx: Context) -> Result<Step, GameError> {
    if !ctx.is_signer {
        Err(GameError::Unauthorized)
    } else if g.state != GameState::Finished {
        Err(GameError::WrongPhase)
    } else if !is_participant(g, ctx.actor) {
        Err(GameError::UnknownParticipant)
    } else {
        Ok(Step { game: restarted(g, ctx.now), transfer: None })
    }
}

/// As [`new_round_step`], for an automated game, as long as its budget of
/// automated games lasts.
pub open spec fn auto_play_step(g: GameView, ctx: Context) -> Result<Step, GameError> {
    if !ctx.is_signer {
        Err(GameError::Unauthorized)
    } else if g.game_mode != GameMode::Automated || g.state != GameState::Finished {
        Err(GameError::WrongPhase)
    } else if g.current_auto_round >= g.max_auto_rounds {
        Err(GameError::AutoRoundLimitReached)
    } else if !is_participant(g, ctx.actor) {
        Err(GameError::UnknownParticipant)
    } else {
        Ok(
            Step {
                game: GameView {
                    current_auto_round: (g.current_auto_round + 1) as u64,
                    ..restarted(g, ctx.now)
                },
                transfer: None,
            },
        )
    }
}

/// The identity of the bot at a seat: 32 bytes, each the seat's number. It
/// is not held against the identities already at the table.
pub open spec fn bot_identity(seat: int) -> Pubkey {
    Pubkey(vstd::array::spec_array_fill_for_copy_type::<u8, 32>(seat as u8))
}

/// The number of bots that take a seat: as many as asked for, at most as
/// many as there are free seats.
pub open spec fn bots_seated(g: GameView, count: u8) -> nat {
    let free = if g.players.len() >= g.player_count {
        0
    } else {
        g.player_count - g.players.len()
    };
    if count <= free {
        count as nat
    } else {
        free as nat
    }
}

/// The table after `n` bots sat down behind the players.
pub open spec fn with_bots(players: Seq<Player>, n: nat) -> Seq<Player> {
    players + Seq::new(n, |k: int| fresh_player(bot_identity(players.len() + k)))
}

/// Bots fill free seats. Each one's fee is booked into the pot, though no
/// funds move.
pub open spec fn add_bots_step(g: GameView, ctx: Context, count: u8) -> Result<Step, GameError> {
    if !ctx.is_signer {
        Err(GameError::Unauthorized)
    } else if g.state != GameState::WaitingForPlayers {
        Err(GameError::WrongPhase)
    } else if bots_seated(g, count) == 0 {
        Err(GameError::NoRoomAvailable)
    } else {
        let n = bots_seated(g, count);
        Ok(
            Step {
                game: GameView {
                    players: with_bots(g.players, n),
                    game_pot: (g.game_pot + n * g.entry_fee) as u64,
                    state: phase_when_seated(g, g.players.len() + n),
                    last_action_timestamp: ctx.now,
                    ..g
                },
                transfer: None,
            },
        )
    }
}

/// The whole machine: what an instruction does to a game. Creation needs no
/// game; every other action needs one.
pub open spec fn step(game: Option<GameView>, instruction: RPSInstruction, ctx: Context) -> Result<
    Step,
    GameError,
> {
    match instruction {
        RPSInstruction::InitializeGame {
            min_players,
            max_players,
            total_rounds,
            entry_fee,
            timeout_seconds,
            losers_can_rejoin,
            game_mode,
            currency_mode,
            auto_round_delay,
            max_auto_rounds,
            game_variant,
            time_limit,
            chat_enabled,
            nft_prize,
            tournament_id,
        } => initialize_step(
            min_players,
            max_players,
            total_rounds,
            entry_fee,
            timeout_seconds,
            losers_can_rejoin,
            game_mode,
            currency_mode,
            auto_round_delay,
            max_auto_rounds,
            game_variant,
            time_limit,
            chat_enabled,
            nft_prize,
            tournament_id,
            ctx,
        ),
        _ => match game {
            None => Err(GameError::WrongPhase),
            Some(g) => match instruction {
                RPSInstruction::JoinGame => join_step(g, ctx),
                RPSInstruction::CommitChoice { committed_choice } => commit_step(
                    g,
                    ctx,
                    committed_choice,
                ),
                RPSInstruction::RevealChoice { choice, salt } => reveal_step(g, ctx, choice, salt),
                RPSInstruction::ResolveTimeout => timeout_step(g, ctx),
                RPSInstruction::ClaimWinnings => claim_step(g, ctx),
                RPSInstruction::RejoinGame => rejoin_step(g, ctx),
                RPSInstruction::StartNewGameRound => new_round_step(g, ctx),
                RPSInstruction::AutoPlayNextRound => auto_play_step(g, ctx),
                RPSInstruction::AddBotPlayers { count } => add_bots_step(g, ctx, count),
                _ => Err(GameError::WrongPhase),
            },
        },
    }
}

/// Whether the pot can take the fees that the instruction books into it
/// without leaving the range of its 64 bits.
pub open spec fn pot_has_room(g: GameView, instruction: RPSInstruction) -> bool {
    match instruction {
        RPSInstruction::JoinGame => g.game_pot + g.entry_fee <= u64::MAX,
        RPSInstruction::RejoinGame => g.game_pot + g.entry_fee <= u64::MAX,
        RPSInstruction::AddBotPlayers { count } => g.game_pot + bots_seated(g, count) * g.entry_fee
            <= u64::MAX,
        _ => true,
    }
}

/// Whether the machine can take the instruction: creation always; any other
/// action if the game it acts on is well-formed and its pot has room for the
/// fees.
pub open spec fn within_limits(game: Option<GameView>, instruction: RPSInstruction) -> bool {
    match game {
        Some(g) => instruction is InitializeGame || (g.wf() && pot_has_room(g, instruction)),
        None => true,
    }
}

} // verus!
