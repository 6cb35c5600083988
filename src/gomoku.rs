use vstd::prelude::*;
use crate::types::Player;
use crate::reversi::mark_of;

verus! {

/// Gomoku board, 15 by 15, row-major; 0 empty, 1 player one, 2 player two.
#[derive(Debug, Clone)]
pub struct GomokuBoard {
    pub cells: Vec<u8>,
    pub moves: Vec<u8>,
}

/// Value of the cell at (r, c); 0 off the board.
pub open spec fn gm_at(cells: Seq<u8>, r: int, c: int) -> u8 {
    if 0 <= r < 15 && 0 <= c < 15 {
        cells[r * 15 + c]
    } else {
        0
    }
}

/// Five cells valued `v` from (r, c) stepping by (dr, dc).
pub open spec fn gm_line(cells: Seq<u8>, r: int, c: int, dr: int, dc: int, v: u8) -> bool {
    &&& gm_at(cells, r, c) == v
    &&& gm_at(cells, r + dr, c + dc) == v
    &&& gm_at(cells, r + 2 * dr, c + 2 * dc) == v
    &&& gm_at(cells, r + 3 * dr, c + 3 * dc) == v
    &&& gm_at(cells, r + 4 * dr, c + 4 * dc) == v
}

pub open spec fn gm_line_from(cells: Seq<u8>, r: int, c: int, v: u8) -> bool {
    ||| gm_line(cells, r, c, 0, 1, v)
    ||| gm_line(cells, r, c, 1, 0, v)
    ||| gm_line(cells, r, c, 1, 1, v)
    ||| gm_line(cells, r, c, -1, 1, v)
}

/// Whether `p` has five in a row horizontally, vertically or diagonally.
pub open spec fn gm_five(cells: Seq<u8>, p: Player) -> bool {
    exists|r: int, c: int| #[trigger] gm_line_from(cells, r, c, mark_of(p))
}

/// The player a nonzero cell value stands for.
pub open spec fn owner_of(v: u8) -> Player {
    if v == 1 { Player::One } else { Player::Two }
}

/// Owner of the first line met scanning from cell index `k` on: rows
/// top-down, each left to right; a line is owned by the stone it starts at.
pub open spec fn gm_first_line(cells: Seq<u8>, k: int) -> Option<Player>
    decreases 225 - k,
{
    if k < 0 || k >= 225 {
        None
    } else {
        let v = gm_at(cells, k / 15, k % 15);
        if v != 0 && gm_line_from(cells, k / 15, k % 15, v) {
            Some(owner_of(v))
        } else {
            gm_first_line(cells, k + 1)
        }
    }
}

impl GomokuBoard {
    /// 225 cells, each empty or holding one player's stone.
    pub open spec fn wf(&self) -> bool {
        &&& self.cells@.len() == 225
        &&& forall|i: int| 0 <= i < 225 ==> #[trigger] self.cells@[i] <= 2
    }

    /// Run-time check of `wf`.
    pub fn is_well_formed(&self) -> (r: bool)
        ensures
            r == self.wf(),
    {
        if self.cells.len() != 225 {
            return false;
        }
        let mut i: usize = 0;
        while i < 225
            invariant
                self.cells@.len() == 225,
                0 <= i <= 225,
                forall|k: int| 0 <= k < i ==> #[trigger] self.cells@[k] <= 2,
            decreases 225 - i,
        {
            if self.cells[i] > 2 {
                return false;
            }
            i = i + 1;
        }
        true
    }

    /// An empty board.
    pub fn new() -> (r: GomokuBoard)
        ensures
            r.wf(),
            forall|i: int| 0 <= i < 225 ==> #[trigger] r.cells@[i] == 0,
            r.moves@.len() == 0,
    {
        GomokuBoard { cells: vec![0u8; 225], moves: Vec::new() }
    }

    /// Put `player`'s stone on cell `pos`. False rejects a cell off the
    /// board or taken, and changes nothing.
    pub fn make_move(&mut self, pos: u8, player: Player) -> (r: bool)
        requires
            old(self).wf(),
        ensures
            final(self).wf(),
            r == (pos < 225 && old(self).cells@[pos as int] == 0),
            r ==> final(self).cells@ == old(self).cells@.update(pos as int, mark_of(player))
                && final(self).moves@ == old(self).moves@.push(pos),
            !r ==> *final(self) == *old(self),
    {
        if pos >= 225 || self.cells[pos as usize] != 0 {
            return false;
        }
        let v: u8 = match player {
            Player::One => 1,
            Player::Two => 2,
        };
        self.cells.set(pos as usize, v);
        self.moves.push(pos);
        true
    }

    /// A player with five in a row, if any. When both have one, the first
    /// met scanning rows top-down, then columns left to right.
    pub fn check_winner(&self) -> (r: Option<Player>)
        requires
            self.wf(),
        ensures
            r == gm_first_line(self.cells@, 0),
            r matches Some(p) ==> gm_five(self.cells@, p),
            r is None ==> !gm_five(self.cells@, Player::One) && !gm_five(self.cells@, Player::Two),
    {
        let mut row: i32 = 0;
        while row < 15
            invariant
                self.wf(),
                0 <= row <= 15,
                forall|r: int, c: int, v: u8| r < row && v != 0 ==> !#[trigger] gm_line_from(self.cells@, r, c, v),
                gm_first_line(self.cells@, 0) == gm_first_line(self.cells@, row * 15),
            decreases 15 - row,
        {
            let mut col: i32 = 0;
            while col < 15
                invariant
                    self.wf(),
                    0 <= row < 15,
                    0 <= col <= 15,
                    forall|r: int, c: int, v: u8| (r < row || (r == row && c < col)) && v != 0 ==> !#[trigger] gm_line_from(self.cells@, r, c, v),
                    gm_first_line(self.cells@, 0) == gm_first_line(self.cells@, row * 15 + col),
                decreases 15 - col,
            {
                assert((row * 15 + col) / 15 == row && (row * 15 + col) % 15 == col) by (nonlinear_arith)
                    requires
                        0 <= col < 15,
                        0 <= row,
                ;
                let idx = (row * 15 + col) as usize;
                let cell = self.cells[idx];
                if cell != 0 {
                    let player = if cell == 1 {
                        Player::One
                    } else {
                        Player::Two
                    };
                    assert(mark_of(player) == cell);
                    if col <= 10 && self.check_line_5(row, col, 0, 1, cell) {
                        assert(gm_line_from(self.cells@, row as int, col as int, cell));
                        return Some(player);
                    }
                    if row <= 10 && self.check_line_5(row, col, 1, 0, cell) {
                        assert(gm_line_from(self.cells@, row as int, col as int, cell));
                        return Some(player);
                    }
                    if row <= 10 && col <= 10 && self.check_line_5(row, col, 1, 1, cell) {
                        assert(gm_line_from(self.cells@, row as int, col as int, cell));
                        return Some(player);
                    }
                    if row >= 4 && col <= 10 && self.check_line_5(row, col, -1, 1, cell) {
                        assert(gm_line_from(self.cells@, row as int, col as int, cell));
                        return Some(player);
                    }
                }
                col = col + 1;
            }
            row = row + 1;
        }
        None
    }

    /// Whether the four cells after (row, col) along (dr, dc), all on the
    /// board, hold `player_val`.
    fn check_line_5(&self, row: i32, col: i32, dr: i32, dc: i32, player_val: u8) -> (r: bool)
        requires
            self.wf(),
            0 <= row + 4 * dr < 15,
            0 <= col + 4 * dc < 15,
            0 <= row < 15,
            0 <= col < 15,
            -1 <= dr <= 1,
            -1 <= dc <= 1,
        ensures
            r == (gm_at(self.cells@, row + dr, col + dc) == player_val
                && gm_at(self.cells@, row + 2 * dr, col + 2 * dc) == player_val
                && gm_at(self.cells@, row + 3 * dr, col + 3 * dc) == player_val
                && gm_at(self.cells@, row + 4 * dr, col + 4 * dc) == player_val),
    {
        let mut i: i32 = 1;
        while i < 5
            invariant
                self.wf(),
                0 <= row + 4 * dr < 15,
                0 <= col + 4 * dc < 15,
                0 <= row < 15,
                0 <= col < 15,
                -1 <= dr <= 1,
                -1 <= dc <= 1,
                1 <= i <= 5,
                i >= 2 ==> gm_at(self.cells@, row + dr, col + dc) == player_val,
                i >= 3 ==> gm_at(self.cells@, row + 2 * dr, col + 2 * dc) == player_val,
                i >= 4 ==> gm_at(self.cells@, row + 3 * dr, col + 3 * dc) == player_val,
                i >= 5 ==> gm_at(self.cells@, row + 4 * dr, col + 4 * dc) == player_val,
            decreases 5 - i,
        {
            let r = row + i * dr;
            let c = col + i * dc;
            assert(0 <= r < 15 && 0 <= c < 15) by (nonlinear_arith)
                requires
                    0 <= row + 4 * dr < 15,
                    0 <= col + 4 * dc < 15,
                    0 <= row < 15,
                    0 <= col < 15,
                    1 <= i <= 4,
                    r == row + i * dr,
                    c == col + i * dc,
                    -1 <= dr <= 1,
                    -1 <= dc <= 1,
            ;
            let idx = (r * 15 + c) as usize;
            if self.cells[idx] != player_val {
                return false;
            }
            i = i + 1;
        }
        true
    }

    /// Whether every cell is taken.
    pub fn is_full(&self) -> (r: bool)
        requires
            self.wf(),
        ensures
            r == forall|i: int| 0 <= i < 225 ==> #[trigger] self.cells@[i] != 0,
    {
        let mut i: usize = 0;
        while i < 225
            invariant
                self.wf(),
                0 <= i <= 225,
                forall|k: int| 0 <= k < i ==> #[trigger] self.cells@[k] != 0,
            decreases 225 - i,
        {
            if self.cells[i] == 0 {
                return false;
            }
            i = i + 1;
        }
        true
    }
}

} // verus!
