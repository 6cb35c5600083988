use vstd::prelude::*;
use crate::types::{GameType, GameStatus, Player};
use crate::room::GameBoard;
use crate::chain::{ChainCyclesState, views};
use crate::connect_four::cf_at;
use crate::reversi::placement_ok;

verus! {

/// Index of the first entry equal to `w` at or after `i`.
pub open spec fn index_from(ws: Seq<Seq<char>>, w: Seq<char>, i: int) -> Option<int>
    decreases ws.len() - i,
{
    if i < 0 || i >= ws.len() {
        None
    } else if ws[i] == w {
        Some(i)
    } else {
        index_from(ws, w, i + 1)
    }
}

/// Connect Four columns, among the first `n`, whose top cell is empty.
pub open spec fn open_columns(cells: Seq<crate::types::Cell>, n: int) -> Seq<u8>
    decreases n,
{
    if n <= 0 {
        Seq::empty()
    } else {
        open_columns(cells, n - 1) + if cf_at(cells, 5, n - 1) is None { seq![(n - 1) as u8] } else { Seq::empty() }
    }
}

/// Cells, among the first `n`, where `p` may place.
pub open spec fn legal_cells(cells: Seq<u8>, p: Player, n: int) -> Seq<u8>
    decreases n,
{
    if n <= 0 {
        Seq::empty()
    } else {
        legal_cells(cells, p, n - 1) + if placement_ok(cells, n - 1, p) { seq![(n - 1) as u8] } else { Seq::empty() }
    }
}

impl ChainCyclesState {
    /// Whether `wallet` holds the turn in a game in progress.
    pub fn is_my_turn(&self, wallet: &String) -> (r: bool)
        ensures
            r == (self.game_room is Some && {
                let room = self.game_room->0;
                room.status == GameStatus::InProgress && room.seat(wallet@) == Some(room.current_turn)
            }),
    {
        match &self.game_room {
            Some(room) => {
                if room.status != GameStatus::InProgress {
                    return false;
                }
                match room.seat_of(wallet) {
                    Some(p) => p == room.current_turn,
                    None => false,
                }
            },
            None => false,
        }
    }

    /// Whether `wallet` may move now: its turn in a game in progress, or
    /// either player while Battleship fleets are being laid out.
    pub fn can_move(&self, wallet: &String) -> (r: bool)
        ensures
            r == (self.game_room is Some && {
                let room = self.game_room->0;
                &&& room.status == GameStatus::InProgress
                &&& room.seat(wallet@) is Some
                &&& (room.turn_free() || room.seat(wallet@) == Some(room.current_turn))
            }),
    {
        match &self.game_room {
            Some(room) => {
                if room.status != GameStatus::InProgress {
                    return false;
                }
                let p = match room.seat_of(wallet) {
                    Some(p) => p,
                    None => return false,
                };
                if room.game_type == GameType::Battleship && room.board.is_setup() {
                    return true;
                }
                room.current_turn == p
            },
            None => false,
        }
    }

    /// Position of `wallet` in the room's wallet list.
    pub fn player_index(&self, wallet: &String) -> (r: Option<u8>)
        ensures
            self.game_room is None ==> r is None,
            self.game_room is Some ==> r == match index_from(views(self.game_room->0.player_wallets@), wallet@, 0) {
                Some(i) => Some(i as u8),
                None => None::<u8>,
            },
    {
        match &self.game_room {
            Some(room) => {
                let ghost ws = views(room.player_wallets@);
                let mut i: usize = 0;
                while i < room.player_wallets.len()
                    invariant
                        ws == views(room.player_wallets@),
                        self.game_room == Some(*room),
                        0 <= i <= ws.len(),
                        index_from(ws, wallet@, 0) == index_from(ws, wallet@, i as int),
                    decreases ws.len() - i,
                {
                    if room.player_wallets[i] == *wallet {
                        assert(ws[i as int] == wallet@);
                        return Some(#[verifier::truncate] (i as u8));
                    }
                    assert(ws[i as int] != wallet@);
                    i = i + 1;
                }
                None
            },
            None => None,
        }
    }

    /// Connect Four columns that still take a disc.
    pub fn connect_four_valid_columns(&self) -> (r: Option<Vec<u8>>)
        ensures
            r is Some <==> (self.game_room is Some && self.game_room->0.board is ConnectFour
                && self.game_room->0.board->ConnectFour_0.cells@.len() == 42),
            r is Some ==> {
                let cells = self.game_room->0.board->ConnectFour_0.cells@;
                r->0@ == open_columns(cells, 7)
            },
    {
        let board = match &self.game_room {
            Some(room) => match &room.board {
                GameBoard::ConnectFour(b) => b,
                _ => return None,
            },
            None => return None,
        };
        if board.cells.len() != 42 {
            return None;
        }
        let mut out: Vec<u8> = Vec::new();
        let mut col: u8 = 0;
        while col < 7
            invariant
                board.cells@.len() == 42,
                0 <= col <= 7,
                out@ == open_columns(board.cells@, col as int),
            decreases 7 - col,
        {
            if board.get_cell(5, col as i32).is_none() {
                out.push(col);
            }
            assert(out@ =~= open_columns(board.cells@, col + 1));
            col = col + 1;
        }
        Some(out)
    }

    /// Cells where the player holding the turn may place, in order.
    pub fn reversi_valid_moves(&self) -> (r: Option<Vec<u8>>)
        ensures
            r is Some <==> (self.game_room is Some && self.game_room->0.board is Reversi
                && self.game_room->0.board->Reversi_0.wf()),
            r is Some ==> {
                let room = self.game_room->0;
                let cells = room.board->Reversi_0.cells@;
                r->0@ == legal_cells(cells, room.current_turn, 64)
            },
    {
        let (board, player) = match &self.game_room {
            Some(room) => match &room.board {
                GameBoard::Reversi(b) => (b, room.current_turn),
                _ => return None,
            },
            None => return None,
        };
        if !board.is_well_formed() {
            return None;
        }
        let mut out: Vec<u8> = Vec::new();
        let mut pos: u8 = 0;
        while pos < 64
            invariant
                board.wf(),
                0 <= pos <= 64,
                out@ == legal_cells(board.cells@, player, pos as int),
            decreases 64 - pos,
        {
            if board.is_valid_move(pos, player) {
                out.push(pos);
            }
            assert(out@ =~= legal_cells(board.cells@, player, pos + 1));
            pos = pos + 1;
        }
        Some(out)
    }

    /// The six pits of a side: player one's for index 0, player two's
    /// otherwise.
    pub fn mancala_player_pits(&self, player_index: u8) -> (r: Option<Vec<u8>>)
        ensures
            r is Some <==> (self.game_room is Some && self.game_room->0.board is Mancala
                && self.game_room->0.board->Mancala_0.pits@.len() == 14),
            r is Some ==> {
                let pits = self.game_room->0.board->Mancala_0.pits@;
                r->0@ == if player_index == 0 { pits.subrange(0, 6) } else { pits.subrange(7, 13) }
            },
    {
        let board = match &self.game_room {
            Some(room) => match &room.board {
                GameBoard::Mancala(b) => b,
                _ => return None,
            },
            None => return None,
        };
        if board.pits.len() != 14 {
            return None;
        }
        let lo: usize = if player_index == 0 { 0 } else { 7 };
        let mut out: Vec<u8> = Vec::new();
        let mut i: usize = 0;
        while i < 6
            invariant
                board.pits@.len() == 14,
                lo == 0 || lo == 7,
                0 <= i <= 6,
                out@ == board.pits@.subrange(lo as int, lo + i),
            decreases 6 - i,
        {
            out.push(board.pits[lo + i]);
            assert(out@ =~= board.pits@.subrange(lo as int, lo + i + 1));
            i = i + 1;
        }
        Some(out)
    }

    /// The two stores: [player one, player two].
    pub fn mancala_stores(&self) -> (r: Option<Vec<u8>>)
        ensures
            r is Some <==> (self.game_room is Some && self.game_room->0.board is Mancala
                && self.game_room->0.board->Mancala_0.pits@.len() == 14),
            r is Some ==> {
                let pits = self.game_room->0.board->Mancala_0.pits@;
                r->0@ == seq![pits[6], pits[13]]
            },
    {
        let board = match &self.game_room {
            Some(room) => match &room.board {
                GameBoard::Mancala(b) => b,
                _ => return None,
            },
            None => return None,
        };
        if board.pits.len() != 14 {
            return None;
        }
        let v = vec![board.pits[6], board.pits[13]];
        assert(v@ =~= seq![board.pits@[6], board.pits@[13]]);
        Some(v)
    }
}

} // verus!
