//! The data model: choices, variants, players, the game aggregate and the
//! instruction set, each with the mathematical value that contracts speak of.

use vstd::prelude::*;

verus! {

/// The identity of a principal: 32 opaque bytes.
#[derive(Clone, Copy, Debug, PartialEq, Eq, Hash)]
pub struct Pubkey(pub [u8; 32]);

impl Pubkey {
    /// Byte-wise comparison of two identities.
    pub fn same(&self, other: &Pubkey) -> (r: bool)
        ensures
            r == (*self == *other),
    {
        let r = bytes_equal(&self.0, &other.0);
        r
    }
}

/// Compares two 32-byte strings.
pub fn bytes_equal(a: &[u8; 32], b: &[u8; 32]) -> (r: bool)
    ensures
        r == (*a == *b),
{
    let mut i: usize = 0;
    while i < 32
        invariant
            i <= 32,
            forall|k: int| 0 <= k < i ==> a[k] == b[k],
        decreases 32 - i,
    {
        if a[i] != b[i] {
            return false;
        }
        i += 1;
    }
    assert(*a =~= *b);
    true
}

/// The digest that stands for "nothing committed yet": 32 zero bytes.
pub open spec fn no_commitment() -> [u8; 32] {
    vstd::array::spec_array_fill_for_copy_type::<u8, 32>(0u8)
}

/// What a player throws. `Absent` is the sentinel for "no choice": it loses
/// to every real choice and ties with itself.
#[derive(Clone, Copy, Debug, PartialEq, Eq, Structural)]
pub enum Choice {
    Absent,
    Rock,
    Paper,
    Scissors,
    Lizard,
    Spock,
}

#[derive(Clone, Copy, Debug, PartialEq, Eq, Structural)]
pub enum GameMode {
    Manual,
    Automated,
}

#[derive(Clone, Copy, Debug, PartialEq, Eq, Structural)]
pub enum CurrencyMode {
    SOL,
    RPSToken,
}

/// The rule set. Only `Classic` and `Extended` have rules of their own; the
/// other three are adjudicated as `Classic`.
#[derive(Clone, Copy, Debug, PartialEq, Eq, Structural)]
pub enum GameVariant {
    Classic,
    Extended,
    Timed,
    Streak,
    Tournament,
}

/// The phase of a game.
#[derive(Clone, Copy, Debug, PartialEq, Eq, Structural)]
pub enum GameState {
    WaitingForPlayers,
    CommitPhase,
    RevealPhase,
    Finished,
}

/// Why an action was rejected.
#[derive(Clone, Copy, Debug, PartialEq, Eq, Structural)]
pub enum GameError {
    Unauthorized,
    InvalidParameters,
    WrongPhase,
    DuplicateParticipant,
    GameFull,
    UnknownParticipant,
    CommitmentMismatch,
    InvalidChoice,
    TimeoutNotElapsed,
    AlreadyFinished,
    NotAWinner,
    NotEligible,
    AutoRoundLimitReached,
    NoRoomAvailable,
}

/// One seat at the table.
#[derive(Clone, Copy, Debug, PartialEq, Eq)]
pub struct Player {
    pub pubkey: Pubkey,
    pub choice: Choice,
    /// Digest of salt and choice; all zero while nothing is committed.
    pub committed_choice: [u8; 32],
    pub revealed: bool,
    pub score: u64,
}

/// A player who has just taken a seat.
pub open spec fn fresh_player(id: Pubkey) -> Player {
    Player {
        pubkey: id,
        choice: Choice::Absent,
        committed_choice: no_commitment(),
        revealed: false,
        score: 0,
    }
}

impl Player {
    /// A player with no choice, no commitment and no score.
    pub fn new(id: Pubkey) -> (p: Player)
        ensures
            p == fresh_player(id),
    {
        Player {
            pubkey: id,
            choice: Choice::Absent,
            committed_choice: [0u8; 32],
            revealed: false,
            score: 0,
        }
    }

    /// Whether this player holds a commitment for the current round.
    pub open spec fn committed(self) -> bool {
        self.committed_choice != no_commitment()
    }

    /// Executable form of [`Player::committed`].
    pub fn has_committed(&self) -> (r: bool)
        ensures
            r == self.committed(),
    {
        let zero = [0u8; 32];
        !bytes_equal(&self.committed_choice, &zero)
    }

    /// The same seat with its round-local fields emptied; the score stays.
    pub open spec fn cleared(self) -> Player {
        Player {
            choice: Choice::Absent,
            committed_choice: no_commitment(),
            revealed: false,
            ..self
        }
    }

    /// Executable form of [`Player::cleared`].
    pub fn clear_round(&self) -> (p: Player)
        ensures
            p == self.cleared(),
    {
        Player {
            pubkey: self.pubkey,
            choice: Choice::Absent,
            committed_choice: [0u8; 32],
            revealed: false,
            score: self.score,
        }
    }
}

/// The game aggregate.
#[derive(Clone, Debug, PartialEq, Eq)]
pub struct Game {
    pub host: Pubkey,
    /// Players in join order.
    pub players: Vec<Player>,
    pub min_players: u8,
    pub max_players: u8,
    pub state: GameState,
    pub current_round: u8,
    pub total_rounds: u8,
    pub entry_fee: u64,
    pub game_pot: u64,
    pub required_timeout: u64,
    pub last_action_timestamp: u64,
    /// The number of seats of this game, between `min_players` and `max_players`.
    pub player_count: u8,
    pub losers_can_rejoin: bool,
    pub game_mode: GameMode,
    pub auto_round_delay: u64,
    pub max_auto_rounds: u64,
    pub current_auto_round: u64,
    pub currency_mode: CurrencyMode,
    pub game_variant: GameVariant,
    pub time_limit: Option<u64>,
    pub spectators: Vec<Pubkey>,
    pub chat_enabled: bool,
    pub tournament_id: Option<Pubkey>,
    pub nft_prize: bool,
}

/// The mathematical value of a [`Game`]: the same fields, with sequences in
/// place of vectors.
pub struct GameView {
    pub host: Pubkey,
    pub players: Seq<Player>,
    pub min_players: u8,
    pub max_players: u8,
    pub state: GameState,
    pub current_round: u8,
    pub total_rounds: u8,
    pub entry_fee: u64,
    pub game_pot: u64,
    pub required_timeout: u64,
    pub last_action_timestamp: u64,
    pub player_count: u8,
    pub losers_can_rejoin: bool,
    pub game_mode: GameMode,
    pub auto_round_delay: u64,
    pub max_auto_rounds: u64,
    pub current_auto_round: u64,
    pub currency_mode: CurrencyMode,
    pub game_variant: GameVariant,
    pub time_limit: Option<u64>,
    pub spectators: Seq<Pubkey>,
    pub chat_enabled: bool,
    pub tournament_id: Option<Pubkey>,
    pub nft_prize: bool,
}

impl View for Game {
    type V = GameView;

    open spec fn view(&self) -> GameView {
        GameView {
            host: self.host,
            players: self.players@,
            min_players: self.min_players,
            max_players: self.max_players,
            state: self.state,
            current_round: self.current_round,
            total_rounds: self.total_rounds,
            entry_fee: self.entry_fee,
            game_pot: self.game_pot,
            required_timeout: self.required_timeout,
            last_action_timestamp: self.last_action_timestamp,
            player_count: self.player_count,
            losers_can_rejoin: self.losers_can_rejoin,
            game_mode: self.game_mode,
            auto_round_delay: self.auto_round_delay,
            max_auto_rounds: self.max_auto_rounds,
            current_auto_round: self.current_auto_round,
            currency_mode: self.currency_mode,
            game_variant: self.game_variant,
            time_limit: self.time_limit,
            spectators: self.spectators@,
            chat_enabled: self.chat_enabled,
            tournament_id: self.tournament_id,
            nft_prize: self.nft_prize,
        }
    }
}

impl GameView {
    /// The most that a score can be in this state: a round awards a player at
    /// most one point per seat, and there are at most 255 seats.
    pub open spec fn score_bound(self) -> int {
        if self.state == GameState::Finished {
            255 * self.current_round
        } else {
            255 * (self.current_round - 1)
        }
    }

    /// The invariant of the aggregate: what creation establishes and every
    /// accepted action keeps.
    pub open spec fn wf(self) -> bool {
        &&& self.players.len() <= 255
        &&& 1 <= self.current_round <= self.total_rounds
        &&& self.min_players <= self.player_count <= self.max_players
        &&& forall|i: int|
            0 <= i < self.players.len() ==> (#[trigger] self.players[i]).score
                <= self.score_bound()
    }
}

/// An upper estimate of the bytes that a stored game with `max_players`
/// seats takes: 161 bytes for the fixed fields, 64 for every seat.
pub open spec fn max_size(max_players: u8) -> int {
    161 + 64 * max_players
}

impl Game {
    /// The space to set aside for a stored game with `max_players` seats.
    pub fn get_max_size(max_players: u8) -> (size: usize)
        ensures
            size == max_size(max_players),
    {
        let seats = max_players as usize;
        161 + 64 * seats
    }

    /// Tests the invariant of the aggregate, as a caller must who did not get
    /// the game from this library.
    pub fn is_well_formed(&self) -> (r: bool)
        ensures
            r == self@.wf(),
    {
        if self.players.len() > 255 {
            return false;
        }
        if self.current_round < 1 || self.current_round > self.total_rounds {
            return false;
        }
        if self.min_players > self.player_count || self.player_count > self.max_players {
            return false;
        }
        let round = self.current_round as u64;
        let bound: u64 = if self.state == GameState::Finished {
            255 * round
        } else {
            255 * (round - 1)
        };
        let mut i: usize = 0;
        while i < self.players.len()
            invariant
                i <= self.players.len(),
                bound == self@.score_bound(),
                forall|k: int| 0 <= k < i ==> (#[trigger] self.players[k]).score <= bound,
            decreases self.players.len() - i,
        {
            if self.players[i].score > bound {
                return false;
            }
            i += 1;
        }
        true
    }
}

/// A request to the ledger to move funds, to be carried out together with
/// the state write.
#[derive(Clone, Copy, Debug, PartialEq, Eq)]
pub enum Transfer {
    /// From a principal into the pot.
    ToPot { from: Pubkey, amount: u64 },
    /// From the pot to a principal.
    FromPot { to: Pubkey, amount: u64 },
}

/// Who acts, whether they authorised the action, and the host clock's time.
#[derive(Clone, Copy, Debug, PartialEq, Eq)]
pub struct Context {
    pub actor: Pubkey,
    pub is_signer: bool,
    pub now: u64,
}

/// What an accepted action produces: the next game and the fund movement
/// that goes with it.
#[derive(Clone, Debug, PartialEq, Eq)]
pub struct Outcome {
    pub game: Game,
    pub transfer: Option<Transfer>,
}

/// The mathematical value of an [`Outcome`].
pub struct Step {
    pub game: GameView,
    pub transfer: Option<Transfer>,
}

impl View for Outcome {
    type V = Step;

    open spec fn view(&self) -> Step {
        Step { game: self.game@, transfer: self.transfer }
    }
}

/// Whether an executable result is the one that a transition function names.
pub open spec fn agrees(r: Result<Outcome, GameError>, s: Result<Step, GameError>) -> bool {
    match (r, s) {
        (Ok(o), Ok(t)) => o@ == t,
        (Err(e), Err(f)) => e == f,
        _ => false,
    }
}

/// The actions of the game.
#[derive(Clone, Copy, Debug, PartialEq, Eq)]
pub enum RPSInstruction {
    InitializeGame {
        min_players: u8,
        max_players: u8,
        total_rounds: u8,
        entry_fee: u64,
        timeout_seconds: u64,
        losers_can_rejoin: bool,
        /// 0 = Manual, 1 = Automated
        game_mode: u8,
        /// 0 = SOL, 1 = RPSToken
        currency_mode: u8,
        auto_round_delay: u64,
        max_auto_rounds: u64,
        /// 0 = Classic, 1 = Extended, 2 = Timed, 3 = Streak, 4 = Tournament
        game_variant: u8,
        time_limit: Option<u64>,
        chat_enabled: bool,
        nft_prize: bool,
        tournament_id: Option<Pubkey>,
    },
    JoinGame,
    CommitChoice { committed_choice: [u8; 32] },
    RevealChoice { choice: Choice, salt: [u8; 32] },
    ResolveTimeout,
    ClaimWinnings,
    RejoinGame,
    StartNewGameRound,
    AutoPlayNextRound,
    AddBotPlayers { count: u8 },
}

} // verus!
