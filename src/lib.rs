//! Turn-based two-player game rooms: six board engines, the room state
//! machine that drives them, and the snapshot replication between the two
//! participants' chains.
pub mod types;
pub mod seqs;
pub mod text;
pub mod chess;
pub mod connect_four;
pub mod reversi;
pub mod gomoku;
pub mod battleship;
pub mod mancala;
pub mod room;
pub mod messages;
pub mod chain;
pub mod laws;
pub mod query;

pub use types::{Cell, GameStatus, GameType, MoveData, Player};
pub use chess::ChessBoard;
pub use connect_four::ConnectFourBoard;
pub use reversi::ReversiBoard;
pub use gomoku::GomokuBoard;
pub use battleship::BattleshipBoard;
pub use mancala::MancalaBoard;
pub use room::{GameBoard, GameRoom, MoveVerdict};
pub use messages::{
    ChainCyclesAbi, ChainCyclesError, ChainCyclesResponse, ErrorResponse, InstantiationArgument,
    Message, MoveResponse, Operation, PlayerProfile, Rewards, RoomCreatedResponse,
    RoomJoinedResponse, SuccessResponse,
};
pub use chain::{ChainCyclesState, Effect, Outgoing};
