use vstd::prelude::*;
use crate::types::{GameType, GameStatus, MoveData, Player};
use crate::chess::{ChessBoard, chess_move_ok, chess_step, with_fen, start_state};
use crate::connect_four::{ConnectFourBoard, column_full, cf_first_line, cf_at};
use crate::reversi::{ReversiBoard, placement_ok, can_place, cells_after_placement, board_full, count_mark, passes_after, mark_of};
use crate::gomoku::{GomokuBoard, gm_first_line};
use crate::battleship::{BattleshipBoard, parse_fleet, empty_layout};
use crate::mancala::{MancalaBoard, legal_pit, pits_after_move, earns_extra_turn, side_empty};
use crate::messages::ChainCyclesError;

verus! {

/// The board of a room: exactly one game's state, tagged by the game.
#[derive(Debug, Clone)]
pub enum GameBoard {
    Chess(ChessBoard),
    ConnectFour(ConnectFourBoard),
    Reversi(ReversiBoard),
    Gomoku(GomokuBoard),
    Battleship(BattleshipBoard),
    Mancala(MancalaBoard),
}

/// What a game engine reports for an accepted move.
#[derive(Debug, Clone, Copy, PartialEq, Eq, Structural)]
pub struct MoveVerdict {
    pub ended: bool,
    pub winner: Option<Player>,
    pub switch_turn: bool,
}

impl GameBoard {
    pub open spec fn game_type(&self) -> GameType {
        match self {
            GameBoard::Chess(_) => GameType::Chess,
            GameBoard::ConnectFour(_) => GameType::ConnectFour,
            GameBoard::Reversi(_) => GameType::Reversi,
            GameBoard::Gomoku(_) => GameType::Gomoku,
            GameBoard::Battleship(_) => GameType::Battleship,
            GameBoard::Mancala(_) => GameType::Mancala,
        }
    }

    /// The engine's own well-formedness.
    pub open spec fn wf(&self) -> bool {
        match self {
            GameBoard::Chess(b) => b.wf(),
            GameBoard::ConnectFour(b) => b.wf(),
            GameBoard::Reversi(b) => b.wf(),
            GameBoard::Gomoku(b) => b.wf(),
            GameBoard::Battleship(b) => b.wf(),
            GameBoard::Mancala(b) => b.wf(),
        }
    }

    /// Whether the board is in its game's starting position.
    pub open spec fn is_start(&self) -> bool {
        match self {
            GameBoard::Chess(b) => b@ == with_fen(start_state()),
            GameBoard::ConnectFour(b) => b.moves@.len() == 0 && forall|i: int| 0 <= i < 42 ==> (#[trigger] b.cells@[i]).player is None,
            GameBoard::Reversi(b) => b.moves@.len() == 0 && b.consecutive_passes == 0
                && b.cells@ == Seq::new(64, |i: int| if i == 27 || i == 36 { 2u8 } else if i == 28 || i == 35 { 1u8 } else { 0u8 }),
            GameBoard::Gomoku(b) => b.moves@.len() == 0 && forall|i: int| 0 <= i < 225 ==> #[trigger] b.cells@[i] == 0,
            GameBoard::Battleship(b) => b.moves@.len() == 0 && b.setup_phase && !b.p1_ready && !b.p2_ready
                && b.p1_ships@ == empty_layout() && b.p2_ships@ == empty_layout()
                && b.p1_hits@ == empty_layout() && b.p2_hits@ == empty_layout() && b.ships_sunk@ == seq![0u8, 0u8],
            GameBoard::Mancala(b) => b.moves@.len() == 0
                && forall|i: int| 0 <= i < 14 ==> b.pits@[i] == if i == 6 || i == 13 { 0u8 } else { 4u8 },
        }
    }

    /// The starting position of `game_type`.
    pub fn for_game(game_type: GameType) -> (r: GameBoard)
        ensures
            r.game_type() == game_type,
            r.wf(),
            r.is_start(),
    {
        match game_type {
            GameType::Chess => GameBoard::Chess(ChessBoard::new()),
            GameType::ConnectFour => GameBoard::ConnectFour(ConnectFourBoard::new()),
            GameType::Reversi => GameBoard::Reversi(ReversiBoard::new()),
            GameType::Gomoku => GameBoard::Gomoku(GomokuBoard::new()),
            GameType::Battleship => GameBoard::Battleship(BattleshipBoard::new()),
            GameType::Mancala => GameBoard::Mancala(MancalaBoard::new()),
        }
    }

    /// Whether the Battleship fleets are still being laid out.
    pub open spec fn in_setup(&self) -> bool {
        match self {
            GameBoard::Battleship(b) => b.setup_phase,
            _ => false,
        }
    }
}

/// Top row of a Connect Four grid, and so every column, full.
pub open spec fn cf_full(cells: Seq<crate::types::Cell>) -> bool {
    forall|c: int| 0 <= c < 7 ==> #[trigger] cf_at(cells, 5, c) is Some
}

pub open spec fn gm_full(cells: Seq<u8>) -> bool {
    forall|i: int| 0 <= i < 225 ==> #[trigger] cells[i] != 0
}

/// Verdict of a line game (Connect Four, Gomoku) after an accepted move:
/// the first line found ends it for its owner, else a full board ends it
/// drawn, else the turn passes.
pub open spec fn line_game_verdict(v: MoveVerdict, line_owner: Option<Player>, full: bool) -> bool {
    if line_owner is Some {
        v == MoveVerdict { ended: true, winner: line_owner, switch_turn: false }
    } else if full {
        v == MoveVerdict { ended: true, winner: None, switch_turn: false }
    } else {
        v == MoveVerdict { ended: false, winner: None, switch_turn: true }
    }
}

/// The player with more pieces, or `None` on equal counts.
pub open spec fn majority(c1: nat, c2: nat) -> Option<Player> {
    if c1 > c2 {
        Some(Player::One)
    } else if c2 > c1 {
        Some(Player::Two)
    } else {
        None
    }
}

pub open spec fn reversi_over(b: &ReversiBoard) -> bool {
    b.consecutive_passes >= 2 || board_full(b.cells@)
}

/// Whether Reversi accepts `primary`: -1 passes, which is allowed only
/// without a legal placement; otherwise a legal placement on cell 0..63.
pub open spec fn reversi_accepts(b: &ReversiBoard, p: Player, primary: i32) -> bool {
    if primary == -1 {
        !can_place(b.cells@, p)
    } else {
        0 <= primary < 64 && placement_ok(b.cells@, primary as int, p)
    }
}

/// Whether Battleship accepts the move: a fleet string that lays out
/// during setup, afterwards a shot at an untouched cell of the opponent.
pub open spec fn battleship_accepts(b: &BattleshipBoard, p: Player, mv: &MoveData) -> bool {
    if b.setup_phase {
        mv.secondary is Some && parse_fleet(mv.secondary->0@) is Some
    } else {
        0 <= mv.primary < 100 && b.hits_of(p.spec_other())[mv.primary as int] == 0
    }
}

pub open spec fn cf_moved(old: &ConnectFourBoard, new: &ConnectFourBoard, p: Player, mv: &MoveData, v: MoveVerdict) -> bool {
    &&& exists|row: int| #[trigger] crate::connect_four::landing_row(old.cells@, mv.primary as int, row)
        && new.cells@ == old.cells@.update(row * 7 + mv.primary as int, crate::types::Cell { player: Some(p) })
    &&& new.moves@ == old.moves@.push(mv.primary as u8)
    &&& line_game_verdict(v, cf_first_line(new.cells@, 0), cf_full(new.cells@))
}

pub open spec fn reversi_moved(old: &ReversiBoard, new: &ReversiBoard, p: Player, mv: &MoveData, v: MoveVerdict) -> bool {
    &&& if mv.primary == -1 {
        &&& new.cells == old.cells
        &&& new.moves == old.moves
        &&& new.consecutive_passes == passes_after(old.consecutive_passes)
    } else {
        &&& new.cells@ == cells_after_placement(old.cells@, mv.primary as int, p)
        &&& new.moves@ == old.moves@.push(mv.primary as u8)
        &&& new.consecutive_passes == 0
    }
    &&& v == if reversi_over(new) {
        MoveVerdict {
            ended: true,
            winner: majority(count_mark(new.cells@, 1), count_mark(new.cells@, 2)),
            switch_turn: false,
        }
    } else {
        MoveVerdict { ended: false, winner: None, switch_turn: can_place(new.cells@, p.spec_other()) }
    }
}

pub open spec fn gomoku_moved(old: &GomokuBoard, new: &GomokuBoard, p: Player, mv: &MoveData, v: MoveVerdict) -> bool {
    &&& new.cells@ == old.cells@.update(mv.primary as int, mark_of(p))
    &&& new.moves@ == old.moves@.push(mv.primary as u8)
    &&& line_game_verdict(v, gm_first_line(new.cells@, 0), gm_full(new.cells@))
}

pub open spec fn battleship_moved(old: &BattleshipBoard, new: &BattleshipBoard, p: Player, mv: &MoveData, v: MoveVerdict) -> bool {
    if old.setup_phase {
        &&& BattleshipBoard::fleet_placed(old, new, p, parse_fleet(mv.secondary->0@)->0)
        &&& v == MoveVerdict { ended: false, winner: None, switch_turn: false }
    } else {
        &&& BattleshipBoard::attacked(old, new, p, mv.primary as u8)
        &&& v == if new.sunk_of(Player::One) >= 5 {
            MoveVerdict { ended: true, winner: Some(Player::Two), switch_turn: false }
        } else if new.sunk_of(Player::Two) >= 5 {
            MoveVerdict { ended: true, winner: Some(Player::One), switch_turn: false }
        } else {
            MoveVerdict { ended: false, winner: None, switch_turn: true }
        }
    }
}

pub open spec fn mancala_moved(old: &MancalaBoard, new: &MancalaBoard, p: Player, mv: &MoveData, v: MoveVerdict) -> bool {
    let sown = pits_after_move(old.pits@, mv.primary as int, p);
    &&& new.moves@ == old.moves@.push(crate::mancala::pit_slot(mv.primary as int, p) as u8)
    &&& if side_empty(sown, 0) || side_empty(sown, 7) {
        &&& v.ended
        &&& !v.switch_turn
        &&& v.winner == majority(new.pits@[6] as nat, new.pits@[13] as nat)
        &&& new.pits@[6] == sown[6] + crate::mancala::side_sum(sown, 0)
        &&& new.pits@[13] == sown[13] + crate::mancala::side_sum(sown, 7)
        &&& forall|i: int| 0 <= i < 14 && i != 6 && i != 13 ==> new.pits@[i] == 0
    } else {
        &&& new.pits@ == sown
        &&& v == MoveVerdict {
            ended: false,
            winner: None,
            switch_turn: !earns_extra_turn(old.pits@, mv.primary as int, p),
        }
    }
}

pub open spec fn chess_accepts(b: &ChessBoard, p: Player, mv: &MoveData) -> bool {
    mv.secondary is Some && chess_move_ok(b@, mv.secondary->0@, p == Player::One)
}

pub open spec fn chess_moved(old: &ChessBoard, new: &ChessBoard, p: Player, mv: &MoveData, v: MoveVerdict) -> bool {
    &&& new@ == chess_step(old@, mv.secondary->0@, p == Player::One)
    &&& v == MoveVerdict { ended: false, winner: None, switch_turn: true }
}

pub open spec fn cf_accepts(b: &ConnectFourBoard, mv: &MoveData) -> bool {
    0 <= mv.primary <= 6 && !column_full(b.cells@, mv.primary as int)
}

pub open spec fn gomoku_accepts(b: &GomokuBoard, mv: &MoveData) -> bool {
    0 <= mv.primary < 225 && b.cells@[mv.primary as int] == 0
}

pub open spec fn mancala_accepts(b: &MancalaBoard, p: Player, mv: &MoveData) -> bool {
    0 <= mv.primary <= 5 && legal_pit(b.pits@, mv.primary as int, p)
}

/// Chess: the secondary field carries a UCI move; no automatic end.
pub fn process_chess_move(board: &mut ChessBoard, player: Player, move_data: &MoveData) -> (r: Option<MoveVerdict>)
    requires
        old(board).wf(),
    ensures
        final(board).wf(),
        r is Some <==> chess_accepts(old(board), player, move_data),
        r matches Some(v) ==> chess_moved(old(board), final(board), player, move_data, v),
        r is None ==> *final(board) == *old(board),
{
    let uci_move = match &move_data.secondary {
        Some(m) => m.as_str(),
        None => return None,
    };
    let is_white = match player {
        Player::One => true,
        Player::Two => false,
    };
    if !board.make_move(uci_move, is_white) {
        return None;
    }
    Some(MoveVerdict { ended: false, winner: None, switch_turn: true })
}

/// Connect Four: `primary` names the column.
pub fn process_connect_four_move(board: &mut ConnectFourBoard, player: Player, move_data: &MoveData) -> (r: Option<MoveVerdict>)
    requires
        old(board).wf(),
    ensures
        final(board).wf(),
        r is Some <==> cf_accepts(old(board), move_data),
        r matches Some(v) ==> cf_moved(old(board), final(board), player, move_data, v),
        r is None ==> *final(board) == *old(board),
{
    if move_data.primary < 0 || move_data.primary > 6 {
        return None;
    }
    let col = move_data.primary as u8;
    let row = board.drop_piece(col, player);
    if row < 0 {
        return None;
    }
    assert(crate::connect_four::landing_row(old(board).cells@, col as int, row as int));
    if let Some(winner) = board.check_winner() {
        return Some(MoveVerdict { ended: true, winner: Some(winner), switch_turn: false });
    }
    if board.is_full() {
        return Some(MoveVerdict { ended: true, winner: None, switch_turn: false });
    }
    Some(MoveVerdict { ended: false, winner: None, switch_turn: true })
}

/// Reversi: `primary` is a cell, or -1 to pass. The game ends after
/// two passes in a row or on a full board, won by the majority; the turn
/// passes only when the opponent can then place.
pub fn process_reversi_move(board: &mut ReversiBoard, player: Player, move_data: &MoveData) -> (r: Option<MoveVerdict>)
    requires
        old(board).wf(),
    ensures
        final(board).wf(),
        r is Some <==> reversi_accepts(old(board), player, move_data.primary),
        r matches Some(v) ==> reversi_moved(old(board), final(board), player, move_data, v),
        r is None ==> *final(board) == *old(board),
{
    if move_data.primary == -1 {
        if board.has_valid_moves(player) {
            return None;
        }
        board.pass();
    } else {
        if move_data.primary < 0 || move_data.primary > 63 {
            return None;
        }
        let pos = move_data.primary as u8;
        let flipped = board.make_move(pos, player);
        if flipped == 0 {
            return None;
        }
    }
    if board.is_game_over() {
        let winner = board.get_winner();
        return Some(MoveVerdict { ended: true, winner, switch_turn: false });
    }
    let switch_turn = board.has_valid_moves(player.other());
    Some(MoveVerdict { ended: false, winner: None, switch_turn })
}

/// Gomoku: `primary` names the cell.
pub fn process_gomoku_move(board: &mut GomokuBoard, player: Player, move_data: &MoveData) -> (r: Option<MoveVerdict>)
    requires
        old(board).wf(),
    ensures
        final(board).wf(),
        r is Some <==> gomoku_accepts(old(board), move_data),
        r matches Some(v) ==> gomoku_moved(old(board), final(board), player, move_data, v),
        r is None ==> *final(board) == *old(board),
{
    if move_data.primary < 0 || move_data.primary > 224 {
        return None;
    }
    let pos = move_data.primary as u8;
    if !board.make_move(pos, player) {
        return None;
    }
    if let Some(winner) = board.check_winner() {
        return Some(MoveVerdict { ended: true, winner: Some(winner), switch_turn: false });
    }
    if board.is_full() {
        return Some(MoveVerdict { ended: true, winner: None, switch_turn: false });
    }
    Some(MoveVerdict { ended: false, winner: None, switch_turn: true })
}

/// Battleship: during setup the secondary field lays out the mover's
/// fleet and the turn never changes hands; afterwards
/// `primary` is the cell fired at, and sinking all five ships of a fleet
/// ends the game.
pub fn process_battleship_move(board: &mut BattleshipBoard, player: Player, move_data: &MoveData) -> (r: Option<MoveVerdict>)
    requires
        old(board).wf(),
    ensures
        final(board).wf(),
        r is Some <==> battleship_accepts(old(board), player, move_data),
        r matches Some(v) ==> battleship_moved(old(board), final(board), player, move_data, v),
        r is None ==> *final(board) == *old(board),
{
    if board.setup_phase {
        let ship_data = match &move_data.secondary {
            Some(d) => d.as_str(),
            None => return None,
        };
        if !board.place_ships(player, ship_data) {
            return None;
        }
        return Some(MoveVerdict { ended: false, winner: None, switch_turn: false });
    }
    if move_data.primary < 0 || move_data.primary > 99 {
        return None;
    }
    let pos = move_data.primary as u8;
    let untouched = match player {
        Player::One => board.p2_hits[pos as usize] == 0,
        Player::Two => board.p1_hits[pos as usize] == 0,
    };
    if !untouched {
        return None;
    }
    board.attack(player, pos);
    if let Some(winner) = board.check_winner() {
        return Some(MoveVerdict { ended: true, winner: Some(winner), switch_turn: false });
    }
    Some(MoveVerdict { ended: false, winner: None, switch_turn: true })
}

/// Mancala: `primary` names one of the mover's pits (0..5). When a side
/// runs out the remaining stones are swept to their stores and the fuller
/// store wins; a last stone in the mover's store keeps the turn.
pub fn process_mancala_move(board: &mut MancalaBoard, player: Player, move_data: &MoveData) -> (r: Option<MoveVerdict>)
    requires
        old(board).wf(),
    ensures
        final(board).wf(),
        r is Some <==> mancala_accepts(old(board), player, move_data),
        r matches Some(v) ==> mancala_moved(old(board), final(board), player, move_data, v),
        r is None ==> *final(board) == *old(board),
{
    if move_data.primary < 0 || move_data.primary > 5 {
        return None;
    }
    let pit_idx = move_data.primary as u8;
    let another_turn = match board.make_move(pit_idx, player) {
        Some(t) => t,
        None => return None,
    };
    if board.is_game_over() {
        let winner = board.finalize();
        return Some(MoveVerdict { ended: true, winner, switch_turn: false });
    }
    Some(MoveVerdict { ended: false, winner: None, switch_turn: !another_turn })
}

impl GameBoard {
    /// Whether the board's engine accepts `mv` from `p`.
    pub open spec fn accepts(&self, p: Player, mv: &MoveData) -> bool {
        match self {
            GameBoard::Chess(b) => chess_accepts(b, p, mv),
            GameBoard::ConnectFour(b) => cf_accepts(b, mv),
            GameBoard::Reversi(b) => reversi_accepts(b, p, mv.primary),
            GameBoard::Gomoku(b) => gomoku_accepts(b, mv),
            GameBoard::Battleship(b) => battleship_accepts(b, p, mv),
            GameBoard::Mancala(b) => mancala_accepts(b, p, mv),
        }
    }

    /// Whether `new` and verdict `v` are what the engine makes of `mv`
    /// from `p` on `old`.
    pub open spec fn moved(old: &GameBoard, new: &GameBoard, p: Player, mv: &MoveData, v: MoveVerdict) -> bool {
        match (old, new) {
            (GameBoard::Chess(a), GameBoard::Chess(b)) => chess_moved(a, b, p, mv, v),
            (GameBoard::ConnectFour(a), GameBoard::ConnectFour(b)) => cf_moved(a, b, p, mv, v),
            (GameBoard::Reversi(a), GameBoard::Reversi(b)) => reversi_moved(a, b, p, mv, v),
            (GameBoard::Gomoku(a), GameBoard::Gomoku(b)) => gomoku_moved(a, b, p, mv, v),
            (GameBoard::Battleship(a), GameBoard::Battleship(b)) => battleship_moved(a, b, p, mv, v),
            (GameBoard::Mancala(a), GameBoard::Mancala(b)) => mancala_moved(a, b, p, mv, v),
            _ => false,
        }
    }

    /// Run-time check of `wf`, for boards received from the peer chain.
    pub fn is_well_formed(&self) -> (r: bool)
        ensures
            r == self.wf(),
    {
        match self {
            GameBoard::Chess(b) => b.is_well_formed(),
            GameBoard::ConnectFour(b) => b.is_well_formed(),
            GameBoard::Reversi(b) => b.is_well_formed(),
            GameBoard::Gomoku(b) => b.is_well_formed(),
            GameBoard::Battleship(b) => b.is_well_formed(),
            GameBoard::Mancala(b) => b.is_well_formed(),
        }
    }

    /// Route `mv` to the engine of this board's game. `None` when the
    /// engine rejects it, with the board unchanged.
    pub fn apply(&mut self, player: Player, mv: &MoveData) -> (r: Option<MoveVerdict>)
        requires
            old(self).wf(),
        ensures
            final(self).wf(),
            final(self).game_type() == old(self).game_type(),
            r is Some <==> old(self).accepts(player, mv),
            r matches Some(v) ==> GameBoard::moved(old(self), final(self), player, mv, v),
            r is None ==> *final(self) == *old(self),
    {
        match self {
            GameBoard::Chess(b) => process_chess_move(b, player, mv),
            GameBoard::ConnectFour(b) => process_connect_four_move(b, player, mv),
            GameBoard::Reversi(b) => process_reversi_move(b, player, mv),
            GameBoard::Gomoku(b) => process_gomoku_move(b, player, mv),
            GameBoard::Battleship(b) => process_battleship_move(b, player, mv),
            GameBoard::Mancala(b) => process_mancala_move(b, player, mv),
        }
    }
}

impl GameBoard {
    /// The game this board belongs to.
    pub fn kind(&self) -> (r: GameType)
        ensures
            r == self.game_type(),
    {
        match self {
            GameBoard::Chess(_) => GameType::Chess,
            GameBoard::ConnectFour(_) => GameType::ConnectFour,
            GameBoard::Reversi(_) => GameType::Reversi,
            GameBoard::Gomoku(_) => GameType::Gomoku,
            GameBoard::Battleship(_) => GameType::Battleship,
            GameBoard::Mancala(_) => GameType::Mancala,
        }
    }

    /// Whether Battleship fleets are still being laid out.
    pub fn is_setup(&self) -> (r: bool)
        ensures
            r == self.in_setup(),
    {
        match self {
            GameBoard::Battleship(b) => b.setup_phase,
            _ => false,
        }
    }
}

/// One two-player match as each participant's chain holds it.
#[derive(Debug, Clone)]
pub struct GameRoom {
    /// Host chain ID, which is also the room code
    pub host_chain_id: String,
    /// Player chain IDs [host, joiner]
    pub player_chain_ids: Vec<String>,
    /// Player wallets [host, joiner]
    pub player_wallets: Vec<String>,
    /// Player usernames [host, joiner]
    pub usernames: Vec<String>,
    pub game_type: GameType,
    pub board: GameBoard,
    pub status: GameStatus,
    pub current_turn: Player,
    pub winner: Option<Player>,
    pub end_reason: Option<String>,
    pub created_at: u64,
    pub last_move_at: u64,
}

/// The seat whose wallet is `w`: the first listed match, when it is one
/// of the first two entries.
pub open spec fn seat_in(wallets: Seq<Seq<char>>, w: Seq<char>) -> Option<Player> {
    if wallets.len() > 0 && wallets[0] == w {
        Some(Player::One)
    } else if wallets.len() > 1 && wallets[1] == w {
        Some(Player::Two)
    } else {
        None
    }
}

/// Room status after an accepted move with verdict `v`.
pub open spec fn status_after(s: GameStatus, v: MoveVerdict) -> GameStatus {
    if v.ended {
        if v.winner is Some { GameStatus::Finished } else { GameStatus::Draw }
    } else {
        s
    }
}

impl GameRoom {
    /// Rosters of equal length, at most two, and a board of the room's game.
    pub open spec fn wf(&self) -> bool {
        &&& self.board.game_type() == self.game_type
        &&& self.player_chain_ids@.len() == self.player_wallets@.len()
        &&& self.player_wallets@.len() == self.usernames@.len()
        &&& self.usernames@.len() <= 2
    }

    pub open spec fn wallets(&self) -> Seq<Seq<char>> {
        self.player_wallets@.map_values(|w: String| w@)
    }

    /// The seat of wallet `w` in this room, if any.
    pub open spec fn seat(&self, w: Seq<char>) -> Option<Player> {
        seat_in(self.wallets(), w)
    }

    /// Whether both may act regardless of turn: Battleship fleets being laid out.
    pub open spec fn turn_free(&self) -> bool {
        self.game_type == GameType::Battleship && self.board.in_setup()
    }

    /// Why a move by wallet `w` is refused, checked in this order; `None`
    /// when the board's engine has the last word.
    pub open spec fn move_error(&self, w: Seq<char>, mv: &MoveData) -> Option<ChainCyclesError> {
        if self.status != GameStatus::InProgress {
            Some(ChainCyclesError::GameNotInProgress)
        } else if self.seat(w) is None {
            Some(ChainCyclesError::NotInRoom)
        } else if !self.turn_free() && self.current_turn != self.seat(w)->0 {
            Some(ChainCyclesError::NotYourTurn)
        } else if !(self.board.game_type() == self.game_type && self.board.wf() && self.board.accepts(self.seat(w)->0, mv)) {
            Some(ChainCyclesError::InvalidMove)
        } else {
            None
        }
    }

    /// Whether `new` is `old` after wallet `w` played `mv` at time `now`
    /// with verdict `v`.
    pub open spec fn moved_by(old: &GameRoom, new: &GameRoom, w: Seq<char>, mv: &MoveData, now: u64, v: MoveVerdict) -> bool {
        let seat = old.seat(w)->0;
        &&& GameBoard::moved(&old.board, &new.board, seat, mv, v)
        &&& new.board.wf()
        &&& *new == (GameRoom {
            board: new.board,
            current_turn: if v.switch_turn && !v.ended { old.current_turn.spec_other() } else { old.current_turn },
            status: status_after(old.status, v),
            winner: if v.ended && v.winner is Some { v.winner } else { old.winner },
            last_move_at: now,
            ..*old
        })
    }

    /// A room hosted by `host_chain_id`, waiting for a second player, with
    /// its game's board in the starting position.
    pub fn new(host_chain_id: String, host_wallet: String, host_username: String, game_type: GameType, created_at: u64) -> (r: GameRoom)
        ensures
            r.wf(),
            r.board.wf(),
            r.board.is_start(),
            r.host_chain_id == host_chain_id,
            r.player_chain_ids@ == seq![host_chain_id],
            r.player_wallets@ == seq![host_wallet],
            r.usernames@ == seq![host_username],
            r.game_type == game_type,
            r.status == GameStatus::WaitingForPlayer,
            r.current_turn == Player::One,
            r.winner is None,
            r.end_reason is None,
            r.created_at == created_at,
            r.last_move_at == 0,
    {
        let ids = vec![host_chain_id.clone()];
        GameRoom {
            host_chain_id,
            player_chain_ids: ids,
            player_wallets: vec![host_wallet],
            usernames: vec![host_username],
            game_type,
            board: GameBoard::for_game(game_type),
            status: GameStatus::WaitingForPlayer,
            current_turn: Player::One,
            winner: None,
            end_reason: None,
            created_at,
            last_move_at: 0,
        }
    }

    /// Seat the joiner as player two and start the game.
    pub fn add_joiner(&mut self, joiner_chain_id: String, joiner_wallet: String, joiner_username: String, now: u64)
        ensures
            final(self).player_chain_ids@ == old(self).player_chain_ids@.push(joiner_chain_id),
            final(self).player_wallets@ == old(self).player_wallets@.push(joiner_wallet),
            final(self).usernames@ == old(self).usernames@.push(joiner_username),
            final(self).status == GameStatus::InProgress,
            final(self).last_move_at == now,
            final(self).host_chain_id == old(self).host_chain_id,
            final(self).game_type == old(self).game_type,
            final(self).board == old(self).board,
            final(self).current_turn == old(self).current_turn,
            final(self).winner == old(self).winner,
            final(self).end_reason == old(self).end_reason,
            final(self).created_at == old(self).created_at,
    {
        self.player_chain_ids.push(joiner_chain_id);
        self.player_wallets.push(joiner_wallet);
        self.usernames.push(joiner_username);
        self.status = GameStatus::InProgress;
        self.last_move_at = now;
    }

    /// The seat of `wallet`, if it plays in this room.
    pub fn seat_of(&self, wallet: &String) -> (r: Option<Player>)
        ensures
            r == self.seat(wallet@),
    {
        if self.player_wallets.len() > 0 && self.player_wallets[0] == *wallet {
            Some(Player::One)
        } else if self.player_wallets.len() > 1 && self.player_wallets[1] == *wallet {
            Some(Player::Two)
        } else {
            None
        }
    }

    /// Play a move for `wallet` at time `now`. Refused, with the room
    /// unchanged, for the first failing check of `move_error`. Otherwise the
    /// board's engine applies it; the turn flips when the verdict says so
    /// and the game goes on; an ended game is `Finished` with its winner,
    /// or a `Draw`; the last-move time becomes `now`.
    pub fn apply_move(&mut self, wallet: &String, move_data: &MoveData, now: u64) -> (r: Result<MoveVerdict, ChainCyclesError>)
        ensures
            old(self).move_error(wallet@, move_data) matches Some(e) ==> r == Err::<MoveVerdict, ChainCyclesError>(e) && *final(self) == *old(self),
            old(self).move_error(wallet@, move_data) is None ==> r is Ok,
            r matches Ok(v) ==> GameRoom::moved_by(old(self), final(self), wallet@, move_data, now, v),
    {
        if self.status != GameStatus::InProgress {
            return Err(ChainCyclesError::GameNotInProgress);
        }
        let player = match self.seat_of(wallet) {
            Some(p) => p,
            None => return Err(ChainCyclesError::NotInRoom),
        };
        let turn_free = self.game_type == GameType::Battleship && self.board.is_setup();
        if !turn_free && self.current_turn != player {
            return Err(ChainCyclesError::NotYourTurn);
        }
        if self.board.kind() != self.game_type || !self.board.is_well_formed() {
            return Err(ChainCyclesError::InvalidMove);
        }
        let verdict = match self.board.apply(player, move_data) {
            Some(v) => v,
            None => return Err(ChainCyclesError::InvalidMove),
        };
        if verdict.switch_turn && !verdict.ended {
            self.current_turn = self.current_turn.other();
        }
        if verdict.ended {
            if verdict.winner.is_some() {
                self.status = GameStatus::Finished;
                self.winner = verdict.winner;
            } else {
                self.status = GameStatus::Draw;
            }
        }
        self.last_move_at = now;
        Ok(verdict)
    }
}

} // verus!
