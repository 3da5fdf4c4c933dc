use rps_game::{
    process_add_bot_players, process_auto_play_next_round, process_claim_winnings,
    process_commit_choice, process_initialize_game, process_join_game, process_rejoin_game,
    process_resolve_timeout, process_reveal_choice, process_start_new_game_round,
};
use rps_game::{commit_to, Choice, Context, Game, GameError, GameState, Pubkey, Transfer};

fn key(n: u8) -> Pubkey {
    Pubkey([10 * n; 32])
}

fn by(n: u8, now: u64) -> Context {
    Context { actor: key(n), is_signer: true, now }
}

fn host_game(entry_fee: u64) -> Game {
    process_initialize_game(
        &by(1, 51),
        3,
        4,
        1,
        entry_fee,
        30,
        true,
        1,
        0,
        0,
        5,
        1,
        None,
        true,
        false,
        Some(Pubkey([77; 32])),
    )
    .unwrap()
    .game
}

#[test]
fn a_whole_game_through_the_handlers() {
    let g = host_game(4);
    assert!(g.chat_enabled);
    assert_eq!(g.tournament_id, Some(Pubkey([77; 32])));
    assert_eq!(g.player_count, 4);
    let g = process_join_game(g, &by(2, 52)).unwrap().game;
    let g = process_join_game(g, &by(3, 53)).unwrap().game;
    let g = process_add_bot_players(g, &by(1, 54), 3).unwrap().game;
    assert_eq!(g.state, GameState::CommitPhase);
    assert_eq!(g.game_pot, 16);
    assert_eq!(g.players.len(), 4);
    assert_eq!(g.players[3].pubkey, Pubkey([3; 32]));

    let salt_one = [11u8; 32];
    let salt_two = [22u8; 32];
    let g = process_commit_choice(g, &by(1, 55), commit_to(Choice::Paper, &salt_one).unwrap())
        .unwrap()
        .game;
    let g = process_commit_choice(g, &by(2, 56), commit_to(Choice::Rock, &salt_two).unwrap())
        .unwrap()
        .game;
    let g = process_commit_choice(g, &by(3, 57), [8; 32]).unwrap().game;
    assert_eq!(g.state, GameState::CommitPhase);
    assert_eq!(
        process_resolve_timeout(g.clone(), &by(9, 86)).unwrap_err(),
        GameError::TimeoutNotElapsed
    );
    let g = process_resolve_timeout(g, &by(9, 87)).unwrap().game;
    assert_eq!(g.state, GameState::RevealPhase);
    assert_eq!(g.players.len(), 3);

    let g = process_reveal_choice(g, &by(1, 94), Choice::Paper, salt_one).unwrap().game;
    assert_eq!(
        process_reveal_choice(g.clone(), &by(2, 95), Choice::Rock, salt_one).unwrap_err(),
        GameError::CommitmentMismatch
    );
    let g = process_reveal_choice(g, &by(2, 96), Choice::Rock, salt_two).unwrap().game;
    assert_eq!(g.state, GameState::RevealPhase);
    let g = process_resolve_timeout(g, &by(9, 200)).unwrap().game;
    assert_eq!(g.state, GameState::Finished);
    let scores: Vec<u64> = g.players.iter().map(|p| p.score).collect();
    assert_eq!(scores, vec![2, 1, 0]);

    let back = process_rejoin_game(g.clone(), &by(3, 201)).unwrap();
    assert_eq!(back.transfer, Some(Transfer::ToPot { from: key(3), amount: 4 }));
    assert_eq!(back.game.game_pot, 20);
    let paid = process_claim_winnings(back.game, &by(1, 202)).unwrap();
    assert_eq!(paid.transfer, Some(Transfer::FromPot { to: key(1), amount: 20 }));
    assert_eq!(paid.game.game_pot, 0);

    let next = process_start_new_game_round(paid.game, &by(2, 203)).unwrap().game;
    assert_eq!(next.state, GameState::CommitPhase);
    let over = process_resolve_timeout(next, &by(9, 300)).unwrap().game;
    assert_eq!(over.state, GameState::Finished);
    let auto = process_auto_play_next_round(over, &by(1, 301)).unwrap().game;
    assert_eq!(auto.state, GameState::CommitPhase);
    assert_eq!(auto.current_auto_round, 1);
    assert!(auto.is_well_formed());
}
