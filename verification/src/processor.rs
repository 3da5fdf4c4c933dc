//! The executable state machine: one function per action, each proved to
//! compute the transition of the same name.

use vstd::prelude::*;
use crate::commitment::verify_commitment;
use crate::game_logic::{lemma_wins_bounded, process_round_results, round_wins};
use crate::laws::lemma_step_keeps_invariant;
use crate::payout::{highest_score, holds_score, share_of_pot};
use crate::roster::{
    all_revealed, clear_players, committed_players, everyone_committed, everyone_revealed, find_player,
    force_reveals, reset_players,
};
use crate::transitions::{
    add_bots_step, auto_play_step, bot_identity, bots_seated, claim_step, commit_step,
    complete_round, fee_request, initialize_step, is_participant, join_step, new_round_step,
    pot_has_room, rejoin_step, restarted, reveal_step, seats, step, timeout_step, with_bots,
    within_limits,
};
use crate::types::{
    agrees, fresh_player, Choice, Context, CurrencyMode, Game, GameError, GameMode, GameState, GameVariant,
    GameView, Outcome, Player, Pubkey, RPSInstruction, Transfer,
};

verus! {

/// The value of a game that may not exist yet.
pub open spec fn view_of(game: Option<Game>) -> Option<GameView> {
    match game {
        Some(g) => Some(g@),
        None => None,
    }
}

/// Draws the number of seats from the bounds and the clock.
fn draw_seats(min_players: u8, max_players: u8, now: u64) -> (n: u8)
    ensures
        n == seats(min_players, max_players, now),
{
    if min_players == max_players || now % 2 == 0 {
        min_players
    } else {
        max_players
    }
}

/// The request for one entry fee, where a fee is charged.
fn request_fee(from: Pubkey, fee: u64) -> (t: Option<Transfer>)
    ensures
        t == fee_request(from, fee),
{
    if fee > 0 {
        Some(Transfer::ToPot { from, amount: fee })
    } else {
        None
    }
}

/// Creates a game with the caller as host and first player.
pub fn process_initialize_game(
    ctx: &Context,
    min_players: u8,
    max_players: u8,
    total_rounds: u8,
    entry_fee: u64,
    timeout_seconds: u64,
    losers_can_rejoin: bool,
    game_mode: u8,
    currency_mode: u8,
    auto_round_delay: u64,
    max_auto_rounds: u64,
    game_variant: u8,
    time_limit: Option<u64>,
    chat_enabled: bool,
    nft_prize: bool,
    tournament_id: Option<Pubkey>,
) -> (r: Result<Outcome, GameError>)
    ensures
        agrees(
            r,
            initialize_step(
                min_players,
                max_players,
                total_rounds,
                entry_fee,
                timeout_seconds,
                losers_can_rejoin,
                game_mode,
                currency_mode,
                auto_round_delay,
                max_auto_rounds,
                game_variant,
                time_limit,
                chat_enabled,
                nft_prize,
                tournament_id,
                *ctx,
            ),
        ),
        r matches Ok(o) ==> o.game@.wf(),
{
    proof {
        lemma_step_keeps_invariant(
            None,
            (RPSInstruction::InitializeGame {
                min_players,
                max_players,
                total_rounds,
                entry_fee,
                timeout_seconds,
                losers_can_rejoin,
                game_mode,
                currency_mode,
                auto_round_delay,
                max_auto_rounds,
                game_variant,
                time_limit,
                chat_enabled,
                nft_prize,
                tournament_id,
            }),
            *ctx,
        );
    }
    if !ctx.is_signer {
        return Err(GameError::Unauthorized);
    }
    if min_players < 3 || min_players > 4 || max_players < 3 || max_players > 4 || min_players
        > max_players {
        return Err(GameError::InvalidParameters);
    }
    if total_rounds == 0 {
        return Err(GameError::InvalidParameters);
    }
    let mode = match game_mode {
        0 => GameMode::Manual,
        1 => GameMode::Automated,
        _ => {
            return Err(GameError::InvalidParameters);
        },
    };
    let currency = match currency_mode {
        0 => CurrencyMode::SOL,
        1 => CurrencyMode::RPSToken,
        _ => {
            return Err(GameError::InvalidParameters);
        },
    };
    let variant = match game_variant {
        1 => GameVariant::Extended,
        2 => GameVariant::Timed,
        3 => GameVariant::Streak,
        4 => GameVariant::Tournament,
        _ => GameVariant::Classic,
    };
    let mut players: Vec<Player> = Vec::new();
    players.push(Player::new(ctx.actor));
    let transfer = match currency {
        CurrencyMode::SOL => request_fee(ctx.actor, entry_fee),
        CurrencyMode::RPSToken => None,
    };
    let game = Game {
        host: ctx.actor,
        players,
        min_players,
        max_players,
        state: GameState::WaitingForPlayers,
        current_round: 1,
        total_rounds,
        entry_fee,
        game_pot: entry_fee,
        required_timeout: timeout_seconds,
        last_action_timestamp: ctx.now,
        player_count: draw_seats(min_players, max_players, ctx.now),
        losers_can_rejoin,
        game_mode: mode,
        auto_round_delay,
        max_auto_rounds,
        current_auto_round: 0,
        currency_mode: currency,
        game_variant: variant,
        time_limit,
        spectators: Vec::new(),
        chat_enabled,
        tournament_id,
        nft_prize,
    };
    proof {
        assert(game@.players =~= seq![fresh_player(ctx.actor)]);
        assert(game@.spectators =~= Seq::empty());
    }
    Ok(Outcome { game, transfer })
}

/// Seats the caller and books the fee.
pub fn process_join_game(game: Game, ctx: &Context) -> (r: Result<Outcome, GameError>)
    requires
        game.game_pot + game.entry_fee <= u64::MAX,
    ensures
        agrees(r, join_step(game@, *ctx)),
        game@.wf() ==> (r matches Ok(o) ==> o.game@.wf()),
{
    proof {
        if game@.wf() {
            lemma_step_keeps_invariant(Some(game@), RPSInstruction::JoinGame, *ctx);
        }
    }
    if !ctx.is_signer {
        return Err(GameError::Unauthorized);
    }
    if game.state != GameState::WaitingForPlayers {
        return Err(GameError::WrongPhase);
    }
    if find_player(&game.players, &ctx.actor).is_some() {
        return Err(GameError::DuplicateParticipant);
    }
    if game.players.len() >= game.player_count as usize {
        return Err(GameError::GameFull);
    }
    let mut g = game;
    g.players.push(Player::new(ctx.actor));
    g.game_pot = g.game_pot + g.entry_fee;
    if g.players.len() >= g.player_count as usize {
        g.state = GameState::CommitPhase;
    }
    g.last_action_timestamp = ctx.now;
    let transfer = request_fee(ctx.actor, g.entry_fee);
    Ok(Outcome { game: g, transfer })
}

/// Stores the caller's commitment.
pub fn process_commit_choice(game: Game, ctx: &Context, committed_choice: [u8; 32]) -> (r: Result<
    Outcome,
    GameError,
>)
    ensures
        agrees(r, commit_step(game@, *ctx, committed_choice)),
        game@.wf() ==> (r matches Ok(o) ==> o.game@.wf()),
{
    proof {
        if game@.wf() {
            lemma_step_keeps_invariant(
                Some(game@),
                RPSInstruction::CommitChoice { committed_choice },
                *ctx,
            );
        }
    }
    if !ctx.is_signer {
        return Err(GameError::Unauthorized);
    }
    if game.state != GameState::CommitPhase {
        return Err(GameError::WrongPhase);
    }
    let i = match find_player(&game.players, &ctx.actor) {
        None => {
            return Err(GameError::UnknownParticipant);
        },
        Some(i) => i,
    };
    let mut g = game;
    let mut p = g.players[i];
    p.committed_choice = committed_choice;
    g.players.set(i, p);
    if everyone_committed(&g.players) {
        g.state = GameState::RevealPhase;
    }
    g.last_action_timestamp = ctx.now;
    Ok(Outcome { game: g, transfer: None })
}

/// Scores the round and either finishes the game or opens the next round.
fn finish_round(game: &mut Game)
    requires
        all_revealed(old(game).players@),
        old(game).players.len() <= 255,
        forall|i: int|
            0 <= i < old(game).players.len() ==> (#[trigger] old(game).players[i]).score
                <= u64::MAX - 255,
    ensures
        final(game)@ == complete_round(old(game)@),
{
    proof {
        assert forall|i: int| 0 <= i < game.players.len() implies game.players[i].score
            + round_wins(game.players@, game.game_variant, i) <= u64::MAX by {
            lemma_wins_bounded(game.players[i].choice, game.players@, game.game_variant);
        }
    }
    process_round_results(game);
    if game.current_round >= game.total_rounds {
        game.state = GameState::Finished;
    } else {
        game.current_round = game.current_round + 1;
        game.state = GameState::CommitPhase;
        clear_players(&mut game.players);
    }
}

/// Takes the caller's reveal and, if it was the last one, completes the round.
pub fn process_reveal_choice(game: Game, ctx: &Context, choice: Choice, salt: [u8; 32]) -> (r:
    Result<Outcome, GameError>)
    requires
        game@.wf(),
    ensures
        agrees(r, reveal_step(game@, *ctx, choice, salt)),
        r matches Ok(o) ==> o.game@.wf(),
{
    proof {
        lemma_step_keeps_invariant(
            Some(game@),
            RPSInstruction::RevealChoice { choice, salt },
            *ctx,
        );
    }
    if !ctx.is_signer {
        return Err(GameError::Unauthorized);
    }
    if game.state != GameState::RevealPhase {
        return Err(GameError::WrongPhase);
    }
    let i = match find_player(&game.players, &ctx.actor) {
        None => {
            return Err(GameError::UnknownParticipant);
        },
        Some(i) => i,
    };
    let stored = game.players[i].committed_choice;
    match verify_commitment(choice, &salt, &stored) {
        Err(e) => {
            return Err(e);
        },
        Ok(_) => {},
    }
    let mut g = game;
    let mut p = g.players[i];
    p.choice = choice;
    p.revealed = true;
    g.players.set(i, p);
    g.last_action_timestamp = ctx.now;
    if everyone_revealed(&g.players) {
        finish_round(&mut g);
    }
    Ok(Outcome { game: g, transfer: None })
}

/// Moves a stalled game on.
pub fn process_resolve_timeout(game: Game, ctx: &Context) -> (r: Result<Outcome, GameError>)
    requires
        game@.wf(),
    ensures
        agrees(r, timeout_step(game@, *ctx)),
        r matches Ok(o) ==> o.game@.wf(),
{
    proof {
        lemma_step_keeps_invariant(Some(game@), RPSInstruction::ResolveTimeout, *ctx);
    }
    if !ctx.is_signer {
        return Err(GameError::Unauthorized);
    }
    let waited: u64 = if ctx.now >= game.last_action_timestamp {
        ctx.now - game.last_action_timestamp
    } else {
        0
    };
    if waited < game.required_timeout {
        return Err(GameError::TimeoutNotElapsed);
    }
    let mut g = game;
    match g.state {
        GameState::WaitingForPlayers => {
            g.state = GameState::Finished;
        },
        GameState::CommitPhase => {
            let kept = committed_players(&g.players);
            if kept.len() >= g.min_players as usize {
                g.players = kept;
                g.state = GameState::RevealPhase;
            } else {
                g.state = GameState::Finished;
            }
        },
        GameState::RevealPhase => {
            force_reveals(&mut g.players);
            finish_round(&mut g);
        },
        GameState::Finished => {
            return Err(GameError::AlreadyFinished);
        },
    }
    g.last_action_timestamp = ctx.now;
    Ok(Outcome { game: g, transfer: None })
}

/// Pays the caller a winner's share.
pub fn process_claim_winnings(game: Game, ctx: &Context) -> (r: Result<Outcome, GameError>)
    ensures
        agrees(r, claim_step(game@, *ctx)),
        game@.wf() ==> (r matches Ok(o) ==> o.game@.wf()),
{
    proof {
        if game@.wf() {
            lemma_step_keeps_invariant(Some(game@), RPSInstruction::ClaimWinnings, *ctx);
        }
    }
    if !ctx.is_signer {
        return Err(GameError::Unauthorized);
    }
    if game.state != GameState::Finished {
        return Err(GameError::WrongPhase);
    }
    let i = match find_player(&game.players, &ctx.actor) {
        None => {
            return Err(GameError::NotAWinner);
        },
        Some(i) => i,
    };
    let top = highest_score(&game.players);
    if !holds_score(&game.players, &ctx.actor, top) {
        return Err(GameError::NotAWinner);
    }
    let share = share_of_pot(&game.players, game.game_pot);
    let mut g = game;
    let mut p = g.players[i];
    p.score = 0;
    g.players.set(i, p);
    g.game_pot = g.game_pot - share;
    Ok(Outcome { game: g, transfer: Some(Transfer::FromPot { to: ctx.actor, amount: share }) })
}

/// Lets a player who lost buy back in.
pub fn process_rejoin_game(game: Game, ctx: &Context) -> (r: Result<Outcome, GameError>)
    requires
        game.game_pot + game.entry_fee <= u64::MAX,
    ensures
        agrees(r, rejoin_step(game@, *ctx)),
        game@.wf() ==> (r matches Ok(o) ==> o.game@.wf()),
{
    proof {
        if game@.wf() {
            lemma_step_keeps_invariant(Some(game@), RPSInstruction::RejoinGame, *ctx);
        }
    }
    if !ctx.is_signer {
        return Err(GameError::Unauthorized);
    }
    if game.state != GameState::Finished {
        return Err(GameError::WrongPhase);
    }
    if !game.losers_can_rejoin {
        return Err(GameError::NotEligible);
    }
    let i = match find_player(&game.players, &ctx.actor) {
        None => {
            return Err(GameError::NotEligible);
        },
        Some(i) => i,
    };
    if game.players[i].score >= highest_score(&game.players) {
        return Err(GameError::NotEligible);
    }
    let mut g = game;
    let p = g.players[i].clear_round();
    g.players.set(i, p);
    g.game_pot = g.game_pot + g.entry_fee;
    g.last_action_timestamp = ctx.now;
    let transfer = request_fee(ctx.actor, g.entry_fee);
    Ok(Outcome { game: g, transfer })
}

/// Whether the caller is the host or holds a seat.
fn caller_takes_part(game: &Game, id: &Pubkey) -> (r: bool)
    ensures
        r == is_participant(game@, *id),
{
    game.host.same(id) || find_player(&game.players, id).is_some()
}

/// Sets a finished game up for another game at the same table.
fn restart(game: &mut Game, now: u64)
    ensures
        final(game)@ == restarted(old(game)@, now),
{
    game.current_round = 1;
    game.state = GameState::CommitPhase;
    game.player_count = draw_seats(game.min_players, game.max_players, now);
    reset_players(&mut game.players);
    game.last_action_timestamp = now;
}

/// Starts another game with the same players.
pub fn process_start_new_game_round(game: Game, ctx: &Context) -> (r: Result<Outcome, GameError>)
    ensures
        agrees(r, new_round_step(game@, *ctx)),
        game@.wf() ==> (r matches Ok(o) ==> o.game@.wf()),
{
    proof {
        if game@.wf() {
            lemma_step_keeps_invariant(Some(game@), RPSInstruction::StartNewGameRound, *ctx);
        }
    }
    if !ctx.is_signer {
        return Err(GameError::Unauthorized);
    }
    if game.state != GameState::Finished {
        return Err(GameError::WrongPhase);
    }
    if !caller_takes_part(&game, &ctx.actor) {
        return Err(GameError::UnknownParticipant);
    }
    let mut g = game;
    restart(&mut g, ctx.now);
    Ok(Outcome { game: g, transfer: None })
}

/// Starts the next automated game, while the budget lasts.
pub fn process_auto_play_next_round(game: Game, ctx: &Context) -> (r: Result<Outcome, GameError>)
    ensures
        agrees(r, auto_play_step(game@, *ctx)),
        game@.wf() ==> (r matches Ok(o) ==> o.game@.wf()),
{
    proof {
        if game@.wf() {
            lemma_step_keeps_invariant(Some(game@), RPSInstruction::AutoPlayNextRound, *ctx);
        }
    }
    if !ctx.is_signer {
        return Err(GameError::Unauthorized);
    }
    if game.game_mode != GameMode::Automated || game.state != GameState::Finished {
        return Err(GameError::WrongPhase);
    }
    if game.current_auto_round >= game.max_auto_rounds {
        return Err(GameError::AutoRoundLimitReached);
    }
    if !caller_takes_part(&game, &ctx.actor) {
        return Err(GameError::UnknownParticipant);
    }
    let mut g = game;
    restart(&mut g, ctx.now);
    g.current_auto_round = g.current_auto_round + 1;
    Ok(Outcome { game: g, transfer: None })
}

/// Fills free seats with bots.
pub fn process_add_bot_players(game: Game, ctx: &Context, count: u8) -> (r: Result<
    Outcome,
    GameError,
>)
    requires
        game.game_pot + bots_seated(game@, count) * game.entry_fee <= u64::MAX,
    ensures
        agrees(r, add_bots_step(game@, *ctx, count)),
        game@.wf() ==> (r matches Ok(o) ==> o.game@.wf()),
{
    proof {
        if game@.wf() {
            lemma_step_keeps_invariant(Some(game@), RPSInstruction::AddBotPlayers { count }, *ctx);
        }
    }
    if !ctx.is_signer {
        return Err(GameError::Unauthorized);
    }
    if game.state != GameState::WaitingForPlayers {
        return Err(GameError::WrongPhase);
    }
    let n = bots_to_seat(&game, count);
    if n == 0 {
        return Err(GameError::NoRoomAvailable);
    }
    let ghost before = game@;
    let mut g = game;
    let mut k: usize = 0;
    while k < n
        invariant
            k <= n,
            n == bots_seated(before, count),
            before.players.len() + n <= before.player_count,
            before.game_pot + n * before.entry_fee <= u64::MAX,
            g.players@ =~= with_bots(before.players, k as nat),
            g.game_pot == before.game_pot + k * before.entry_fee,
            g@ == (GameView { players: g.players@, game_pot: g.game_pot, ..before }),
        decreases n - k,
    {
        let seat = g.players.len();
        let id = Pubkey([seat as u8; 32]);
        assert(id == bot_identity(seat as int)) by {
            assert(id.0 =~= bot_identity(seat as int).0);
        }
        assert((k + 1) * before.entry_fee == k * before.entry_fee + before.entry_fee
            && (k + 1) * before.entry_fee <= n * before.entry_fee) by (nonlinear_arith)
            requires
                k + 1 <= n,
        ;
        g.players.push(Player::new(id));
        g.game_pot = g.game_pot + g.entry_fee;
        k += 1;
    }
    if g.players.len() >= g.player_count as usize {
        g.state = GameState::CommitPhase;
    }
    g.last_action_timestamp = ctx.now;
    Ok(Outcome { game: g, transfer: None })
}

/// The number of bots that `count` asks for and the table has room for.
fn bots_to_seat(game: &Game, count: u8) -> (n: usize)
    ensures
        n == bots_seated(game@, count),
        n <= 255,
{
    let free: usize = if game.players.len() >= game.player_count as usize {
        0
    } else {
        game.player_count as usize - game.players.len()
    };
    if count as usize <= free {
        count as usize
    } else {
        free
    }
}

/// Tests whether the pot can take the fees that `instruction` books into it.
pub fn pot_takes_fees(game: &Game, instruction: &RPSInstruction) -> (r: bool)
    ensures
        r == pot_has_room(game@, *instruction),
{
    match instruction {
        RPSInstruction::JoinGame => game.entry_fee <= u64::MAX - game.game_pot,
        RPSInstruction::RejoinGame => game.entry_fee <= u64::MAX - game.game_pot,
        RPSInstruction::AddBotPlayers { count } => {
            let n = bots_to_seat(game, *count) as u128;
            let fee = game.entry_fee as u128;
            assert(n * fee <= 255 * 0xffff_ffff_ffff_ffff) by (nonlinear_arith)
                requires
                    0 <= n <= 255,
                    0 <= fee <= 0xffff_ffff_ffff_ffff,
            ;
            game.game_pot as u128 + n * fee <= u64::MAX as u128
        },
        _ => true,
    }
}

/// Applies one instruction. Creation ignores `game`; every other action
/// needs one and is rejected as out of phase without it.
pub fn process_instruction(game: Option<Game>, instruction: RPSInstruction, ctx: &Context) -> (r:
    Result<Outcome, GameError>)
    requires
        within_limits(view_of(game), instruction),
    ensures
        agrees(r, step(view_of(game), instruction, *ctx)),
        r matches Ok(o) ==> o.game@.wf(),
{
    match instruction {
        RPSInstruction::InitializeGame {
            min_players,
            max_players,
            total_rounds,
            entry_fee,
            timeout_seconds,
            losers_can_rejoin,
            game_mode,
            currency_mode,
            auto_round_delay,
            max_auto_rounds,
            game_variant,
            time_limit,
            chat_enabled,
            nft_prize,
            tournament_id,
        } => process_initialize_game(
            ctx,
            min_players,
            max_players,
            total_rounds,
            entry_fee,
            timeout_seconds,
            losers_can_rejoin,
            game_mode,
            currency_mode,
            auto_round_delay,
            max_auto_rounds,
            game_variant,
            time_limit,
            chat_enabled,
            nft_prize,
            tournament_id,
        ),
        _ => match game {
            None => Err(GameError::WrongPhase),
            Some(g) => match instruction {
                RPSInstruction::JoinGame => process_join_game(g, ctx),
                RPSInstruction::CommitChoice { committed_choice } => process_commit_choice(
                    g,
                    ctx,
                    committed_choice,
                ),
                RPSInstruction::RevealChoice { choice, salt } => process_reveal_choice(
                    g,
                    ctx,
                    choice,
                    salt,
                ),
                RPSInstruction::ResolveTimeout => process_resolve_timeout(g, ctx),
                RPSInstruction::ClaimWinnings => process_claim_winnings(g, ctx),
                RPSInstruction::RejoinGame => process_rejoin_game(g, ctx),
                RPSInstruction::StartNewGameRound => process_start_new_game_round(g, ctx),
                RPSInstruction::AutoPlayNextRound => process_auto_play_next_round(g, ctx),
                RPSInstruction::AddBotPlayers { count } => process_add_bot_players(g, ctx, count),
                _ => Err(GameError::WrongPhase),
            },
        },
    }
}

/// Applies one instruction to a game of any origin: the limits that
/// [`process_instruction`] demands are tested first, and `None` says that the
/// game is malformed or that its pot cannot take the fees.
pub fn try_process_instruction(game: Option<Game>, instruction: RPSInstruction, ctx: &Context) -> (r:
    Option<Result<Outcome, GameError>>)
    ensures
        match r {
            Some(result) => {
                &&& within_limits(view_of(game), instruction)
                &&& agrees(result, step(view_of(game), instruction, *ctx))
                &&& result matches Ok(o) ==> o.game@.wf()
            },
            None => !within_limits(view_of(game), instruction),
        },
{
    let fit = match (&game, &instruction) {
        (_, RPSInstruction::InitializeGame { .. }) => true,
        (Some(g), _) => g.is_well_formed() && pot_takes_fees(g, &instruction),
        (None, _) => true,
    };
    if fit {
        Some(process_instruction(game, instruction, ctx))
    } else {
        None
    }
}

} // verus!
