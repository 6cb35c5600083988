use vstd::prelude::*;
use vstd::string::*;
use crate::types::{GameType, Player, MoveData};
use crate::room::GameRoom;
use crate::text::{debug_string, debug_text};

verus! {

/// Marker type naming this application's operation and response types.
pub struct ChainCyclesAbi;

/// A player's per-wallet record on a chain.
#[derive(Debug, Clone)]
pub struct PlayerProfile {
    pub username: String,
    pub wallet: String,
    pub total_wins: u64,
    pub total_losses: u64,
    pub total_draws: u64,
    pub total_games: u64,
    pub xp: u64,
    pub coins: u64,
    pub created_at: u64,
}

/// Intents a signed-in client submits to its own chain.
#[allow(inconsistent_fields)]
#[derive(Debug, Clone)]
pub enum Operation {
    /// Register a new player profile
    Register { username: String },
    /// Update profile settings
    UpdateProfile { username: Option<String> },
    /// Create a new game room
    CreateRoom { game_type: GameType },
    /// Join an existing room by host chain ID
    JoinRoom { host_chain_id: String },
    /// Leave the current room
    LeaveRoom,
    /// Clear finished room state
    ClearRoom,
    /// Make a move
    MakeMove { move_data: MoveData },
    /// No-op that makes the chain process its inbox
    SyncInbox,
}

/// Messages between the two participants' chains.
#[derive(Debug, Clone)]
pub enum Message {
    /// Joiner asks the host to be let in
    JoinRequest { joiner_chain_id: String, joiner_wallet: String, joiner_username: String },
    /// Host sends the full room to the joiner
    GameStateSync { room: GameRoom },
    /// The mover sends the full room to the opponent
    GameMoveSync { room: GameRoom },
    /// Match ended notification
    MatchEnded { winner: Option<Player>, reason: String, final_room: GameRoom },
    /// Player left notification
    PlayerLeft { player_chain_id: String, player_wallet: String },
    /// Reward for one participant, applied on that participant's chain
    RewardSync { player_wallet: String, xp_earned: u64, coins_earned: u64, is_winner: bool },
}

#[derive(Debug, Clone)]
pub struct RoomCreatedResponse {
    pub host_chain_id: String,
    pub room: GameRoom,
}

#[derive(Debug, Clone)]
pub struct RoomJoinedResponse {
    pub host_chain_id: String,
    pub message: String,
}

#[derive(Debug, Clone)]
pub struct MoveResponse {
    pub success: bool,
    pub game_ended: bool,
    pub winner: Option<Player>,
    pub message: String,
}

#[derive(Debug, Clone)]
pub struct SuccessResponse {
    pub message: String,
}

#[derive(Debug, Clone)]
pub struct ErrorResponse {
    pub error: String,
}

/// What an operation returns to the client.
#[derive(Debug, Clone)]
pub enum ChainCyclesResponse {
    RoomCreated(RoomCreatedResponse),
    RoomJoined(RoomJoinedResponse),
    Move(MoveResponse),
    Success(SuccessResponse),
    Error(ErrorResponse),
}

/// Failures reported to the caller.
#[derive(Debug, Clone)]
pub enum ChainCyclesError {
    NotAuthenticated,
    NotRegistered,
    AlreadyRegistered,
    RoomAlreadyExists,
    RoomNotFound,
    RoomFull,
    GameNotInProgress,
    NotYourTurn,
    InvalidMove,
    NotInRoom,
    CannotJoinOwnRoom,
    GameAlreadyStarted,
    InternalError(String),
}

/// Arguments for setting the application up on a chain.
#[derive(Debug, Clone)]
pub struct InstantiationArgument {
    pub hub_chain_id: Option<String>,
}

/// The error's name as the response text carries it; an internal error
/// also carries its detail, quoted.
pub open spec fn error_text(e: ChainCyclesError) -> Seq<char> {
    match e {
        ChainCyclesError::NotAuthenticated => "NotAuthenticated"@,
        ChainCyclesError::NotRegistered => "NotRegistered"@,
        ChainCyclesError::AlreadyRegistered => "AlreadyRegistered"@,
        ChainCyclesError::RoomAlreadyExists => "RoomAlreadyExists"@,
        ChainCyclesError::RoomNotFound => "RoomNotFound"@,
        ChainCyclesError::RoomFull => "RoomFull"@,
        ChainCyclesError::GameNotInProgress => "GameNotInProgress"@,
        ChainCyclesError::NotYourTurn => "NotYourTurn"@,
        ChainCyclesError::InvalidMove => "InvalidMove"@,
        ChainCyclesError::NotInRoom => "NotInRoom"@,
        ChainCyclesError::CannotJoinOwnRoom => "CannotJoinOwnRoom"@,
        ChainCyclesError::GameAlreadyStarted => "GameAlreadyStarted"@,
        ChainCyclesError::InternalError(d) => "InternalError("@ + debug_text(d@) + ")"@,
    }
}

impl ChainCyclesError {
    /// The error as a response to the caller.
    pub fn into_response(self) -> (r: ChainCyclesResponse)
        ensures
            r matches ChainCyclesResponse::Error(e) && e.error@ == error_text(self),
    {
        let text = match &self {
            ChainCyclesError::NotAuthenticated => String::from_str("NotAuthenticated"),
            ChainCyclesError::NotRegistered => String::from_str("NotRegistered"),
            ChainCyclesError::AlreadyRegistered => String::from_str("AlreadyRegistered"),
            ChainCyclesError::RoomAlreadyExists => String::from_str("RoomAlreadyExists"),
            ChainCyclesError::RoomNotFound => String::from_str("RoomNotFound"),
            ChainCyclesError::RoomFull => String::from_str("RoomFull"),
            ChainCyclesError::GameNotInProgress => String::from_str("GameNotInProgress"),
            ChainCyclesError::NotYourTurn => String::from_str("NotYourTurn"),
            ChainCyclesError::InvalidMove => String::from_str("InvalidMove"),
            ChainCyclesError::NotInRoom => String::from_str("NotInRoom"),
            ChainCyclesError::CannotJoinOwnRoom => String::from_str("CannotJoinOwnRoom"),
            ChainCyclesError::GameAlreadyStarted => String::from_str("GameAlreadyStarted"),
            ChainCyclesError::InternalError(d) => {
                let mut t = String::from_str("InternalError(");
                let q = debug_string(d);
                t.append(q.as_str());
                t.append(")");
                t
            },
        };
        ChainCyclesResponse::Error(ErrorResponse { error: text })
    }
}

/// Experience and coins handed out when a match ends.
pub struct Rewards;

impl Rewards {
    pub const CHESS_WINNER_XP: u64 = 150;
    pub const CHESS_WINNER_COINS: u64 = 100;
    pub const CHESS_LOSER_XP: u64 = 50;
    pub const CHESS_LOSER_COINS: u64 = 15;

    pub const CONNECT_FOUR_WINNER_XP: u64 = 75;
    pub const CONNECT_FOUR_WINNER_COINS: u64 = 40;
    pub const CONNECT_FOUR_LOSER_XP: u64 = 30;
    pub const CONNECT_FOUR_LOSER_COINS: u64 = 8;

    pub const REVERSI_WINNER_XP: u64 = 100;
    pub const REVERSI_WINNER_COINS: u64 = 60;
    pub const REVERSI_LOSER_XP: u64 = 40;
    pub const REVERSI_LOSER_COINS: u64 = 12;

    pub const GOMOKU_WINNER_XP: u64 = 80;
    pub const GOMOKU_WINNER_COINS: u64 = 45;
    pub const GOMOKU_LOSER_XP: u64 = 30;
    pub const GOMOKU_LOSER_COINS: u64 = 10;

    pub const BATTLESHIP_WINNER_XP: u64 = 120;
    pub const BATTLESHIP_WINNER_COINS: u64 = 70;
    pub const BATTLESHIP_LOSER_XP: u64 = 45;
    pub const BATTLESHIP_LOSER_COINS: u64 = 15;

    pub const MANCALA_WINNER_XP: u64 = 80;
    pub const MANCALA_WINNER_COINS: u64 = 50;
    pub const MANCALA_LOSER_XP: u64 = 30;
    pub const MANCALA_LOSER_COINS: u64 = 10;

    pub const DRAW_XP: u64 = 50;
    pub const DRAW_COINS: u64 = 25;
}

} // verus!
