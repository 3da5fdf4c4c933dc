use rps_game::{determine_winner, process_round_results};
use rps_game::{Choice, CurrencyMode, Game, GameMode, GameState, GameVariant, Player, Pubkey};

const REAL: [Choice; 5] =
    [Choice::Rock, Choice::Paper, Choice::Scissors, Choice::Lizard, Choice::Spock];

fn table(choices: &[Choice], variant: GameVariant) -> Game {
    let mut players = Vec::new();
    for (i, c) in choices.iter().enumerate() {
        let mut p = Player::new(Pubkey([i as u8 + 1; 32]));
        p.choice = *c;
        p.revealed = true;
        players.push(p);
    }
    Game {
        host: Pubkey([1; 32]),
        players,
        min_players: 3,
        max_players: 4,
        state: GameState::RevealPhase,
        current_round: 1,
        total_rounds: 3,
        entry_fee: 5,
        game_pot: 15,
        required_timeout: 60,
        last_action_timestamp: 1000,
        player_count: 3,
        losers_can_rejoin: false,
        game_mode: GameMode::Manual,
        auto_round_delay: 0,
        max_auto_rounds: 0,
        current_auto_round: 0,
        currency_mode: CurrencyMode::SOL,
        game_variant: variant,
        time_limit: None,
        spectators: Vec::new(),
        chat_enabled: false,
        tournament_id: None,
        nft_prize: false,
    }
}

fn scores(game: &Game) -> Vec<u64> {
    game.players.iter().map(|p| p.score).collect()
}

#[test]
fn classic_rules_table() {
    let v = GameVariant::Classic;
    assert!(determine_winner(&Choice::Rock, &Choice::Scissors, &v));
    assert!(determine_winner(&Choice::Paper, &Choice::Rock, &v));
    assert!(determine_winner(&Choice::Scissors, &Choice::Paper, &v));
    assert!(!determine_winner(&Choice::Scissors, &Choice::Rock, &v));
    assert!(!determine_winner(&Choice::Rock, &Choice::Paper, &v));
    assert!(!determine_winner(&Choice::Paper, &Choice::Scissors, &v));
    assert!(!determine_winner(&Choice::Lizard, &Choice::Spock, &v));
    assert!(!determine_winner(&Choice::Spock, &Choice::Lizard, &v));
    assert!(!determine_winner(&Choice::Rock, &Choice::Lizard, &v));
}

#[test]
fn extended_rules_table() {
    let v = GameVariant::Extended;
    let wins = [
        (Choice::Rock, Choice::Scissors),
        (Choice::Rock, Choice::Lizard),
        (Choice::Paper, Choice::Rock),
        (Choice::Paper, Choice::Spock),
        (Choice::Scissors, Choice::Paper),
        (Choice::Scissors, Choice::Lizard),
        (Choice::Lizard, Choice::Paper),
        (Choice::Lizard, Choice::Spock),
        (Choice::Spock, Choice::Rock),
        (Choice::Spock, Choice::Scissors),
    ];
    for a in REAL {
        for b in REAL {
            assert_eq!(determine_winner(&a, &b, &v), wins.contains(&(a, b)), "{:?} {:?}", a, b);
        }
    }
}

#[test]
fn absent_choice_always_loses() {
    for v in [GameVariant::Classic, GameVariant::Extended, GameVariant::Streak] {
        for c in REAL {
            assert!(determine_winner(&c, &Choice::Absent, &v));
            assert!(!determine_winner(&Choice::Absent, &c, &v));
        }
        assert!(!determine_winner(&Choice::Absent, &Choice::Absent, &v));
    }
}

#[test]
fn other_variants_follow_classic() {
    let all = [
        Choice::Absent,
        Choice::Rock,
        Choice::Paper,
        Choice::Scissors,
        Choice::Lizard,
        Choice::Spock,
    ];
    for v in [GameVariant::Timed, GameVariant::Streak, GameVariant::Tournament] {
        for a in all {
            for b in all {
                assert_eq!(
                    determine_winner(&a, &b, &v),
                    determine_winner(&a, &b, &GameVariant::Classic)
                );
            }
        }
    }
}

#[test]
fn beats_is_antisymmetric_and_irreflexive() {
    for a in REAL {
        assert!(!determine_winner(&a, &a, &GameVariant::Classic));
        assert!(!determine_winner(&a, &a, &GameVariant::Extended));
        for b in REAL {
            if a != b {
                assert_eq!(
                    determine_winner(&a, &b, &GameVariant::Extended),
                    !determine_winner(&b, &a, &GameVariant::Extended)
                );
            }
        }
    }
    let classic = [Choice::Rock, Choice::Paper, Choice::Scissors];
    for a in classic {
        for b in classic {
            if a != b {
                assert_eq!(
                    determine_winner(&a, &b, &GameVariant::Classic),
                    !determine_winner(&b, &a, &GameVariant::Classic)
                );
            }
        }
    }
}

#[test]
fn classic_three_way_cycle_scores_one_each() {
    let mut game = table(&[Choice::Rock, Choice::Scissors, Choice::Paper], GameVariant::Classic);
    process_round_results(&mut game);
    assert_eq!(scores(&game), vec![1, 1, 1]);
}

#[test]
fn extended_with_absent_player() {
    let mut game = table(&[Choice::Spock, Choice::Lizard, Choice::Absent], GameVariant::Extended);
    process_round_results(&mut game);
    assert_eq!(scores(&game), vec![1, 2, 0]);
}

#[test]
fn a_player_can_score_against_everyone() {
    let mut game = table(
        &[Choice::Rock, Choice::Scissors, Choice::Scissors, Choice::Scissors],
        GameVariant::Classic,
    );
    process_round_results(&mut game);
    assert_eq!(scores(&game), vec![3, 0, 0, 0]);
}

#[test]
fn scores_accumulate_and_nothing_else_changes() {
    let mut game = table(&[Choice::Paper, Choice::Rock, Choice::Rock], GameVariant::Classic);
    game.players[0].score = 4;
    game.players[1].score = 7;
    let before = game.clone();
    process_round_results(&mut game);
    assert_eq!(scores(&game), vec![6, 7, 0]);
    let mut expected = before;
    expected.players[0].score = 6;
    assert_eq!(game, expected);
}

#[test]
fn fewer_than_two_players_score_nothing() {
    let mut solo = table(&[Choice::Rock], GameVariant::Classic);
    process_round_results(&mut solo);
    assert_eq!(scores(&solo), vec![0]);
    let mut empty = table(&[], GameVariant::Classic);
    process_round_results(&mut empty);
    assert!(empty.players.is_empty());
}

#[test]
fn resolution_is_order_independent() {
    let choices = [Choice::Spock, Choice::Rock, Choice::Lizard, Choice::Absent];
    let orders: [[usize; 4]; 4] = [[0, 1, 2, 3], [3, 2, 1, 0], [1, 3, 0, 2], [2, 0, 3, 1]];
    let mut reference = table(&choices, GameVariant::Extended);
    process_round_results(&mut reference);
    for order in orders {
        let mut game = table(&choices, GameVariant::Extended);
        let seats: Vec<Player> = order.iter().map(|&i| game.players[i]).collect();
        game.players = seats;
        process_round_results(&mut game);
        for p in &game.players {
            let same = reference.players.iter().find(|q| q.pubkey == p.pubkey).unwrap();
            assert_eq!(p.score, same.score);
        }
    }
}

#[test]
fn max_size_is_exact() {
    assert_eq!(Game::get_max_size(0), 161);
    assert_eq!(Game::get_max_size(3), 353);
    assert_eq!(Game::get_max_size(4), 417);
    assert_eq!(Game::get_max_size(255), 16481);
}

#[test]
fn well_formedness_is_tested() {
    let mut game = table(&[Choice::Rock, Choice::Paper, Choice::Paper], GameVariant::Classic);
    assert!(game.is_well_formed());
    game.players[1].score = 1;
    assert!(!game.is_well_formed());
    game.current_round = 2;
    assert!(game.is_well_formed());
    game.current_round = 4;
    assert!(!game.is_well_formed());
    game.current_round = 1;
    game.state = GameState::Finished;
    assert!(game.is_well_formed());
    game.player_count = 5;
    assert!(!game.is_well_formed());
}
