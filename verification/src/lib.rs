//! A multiplayer Rock-Paper-Scissors(-Lizard-Spock) game engine.
//!
//! The engine is a deterministic state machine over a single [`Game`]
//! aggregate. Every player action is one [`RPSInstruction`]; applying it either
//! yields the next game together with the fund movement the host ledger has to
//! carry out, or a [`GameError`] and no change at all. Fairness rests on a
//! commit-reveal protocol whose commitments are SHA-256 digests.

pub mod types;
pub mod game_logic;
pub mod roster;
pub mod commitment;
pub mod payout;
pub mod transitions;
pub mod processor;
pub mod laws;

pub use types::{
    Choice, Context, CurrencyMode, Game, GameError, GameMode, GameState, GameVariant, Outcome,
    Player, Pubkey, RPSInstruction, Transfer,
};
pub use game_logic::{determine_winner, process_round_results};
pub use commitment::{choice_code, commit_to, commitment_input, digests_match, verify_commitment};
pub use processor::{
    process_add_bot_players, process_auto_play_next_round, process_claim_winnings,
    process_commit_choice, process_initialize_game, process_instruction, process_join_game,
    process_rejoin_game, process_resolve_timeout, process_reveal_choice,
    process_start_new_game_round, pot_takes_fees, try_process_instruction,
};
