use vstd::prelude::*;
use crate::types::{Cell, Player};

verus! {

/// Connect Four grid, 7 columns by 6 rows. Cell `row * 7 + col` holds
/// row 0 at the bottom.
#[derive(Debug, Clone)]
pub struct ConnectFourBoard {
    pub cells: Vec<Cell>,
    pub moves: Vec<u8>,
}

/// Owner of the cell at (r, c); `None` when empty or off the grid.
pub open spec fn cf_at(cells: Seq<Cell>, r: int, c: int) -> Option<Player> {
    if 0 <= r < 6 && 0 <= c < 7 {
        cells[r * 7 + c].player
    } else {
        None
    }
}

/// Four of `p`'s discs from (r, c) stepping by (dr, dc).
pub open spec fn cf_line(cells: Seq<Cell>, r: int, c: int, dr: int, dc: int, p: Player) -> bool {
    &&& cf_at(cells, r, c) == Some(p)
    &&& cf_at(cells, r + dr, c + dc) == Some(p)
    &&& cf_at(cells, r + 2 * dr, c + 2 * dc) == Some(p)
    &&& cf_at(cells, r + 3 * dr, c + 3 * dc) == Some(p)
}

/// Four of `p`'s discs from (r, c) in one of the four line directions.
pub open spec fn cf_line_from(cells: Seq<Cell>, r: int, c: int, p: Player) -> bool {
    ||| cf_line(cells, r, c, 0, 1, p)
    ||| cf_line(cells, r, c, 1, 0, p)
    ||| cf_line(cells, r, c, 1, 1, p)
    ||| cf_line(cells, r, c, -1, 1, p)
}

/// Whether `p` has four in a row horizontally, vertically or diagonally.
pub open spec fn cf_four(cells: Seq<Cell>, p: Player) -> bool {
    exists|r: int, c: int| #[trigger] cf_line_from(cells, r, c, p)
}

/// Owner of the first line met scanning from cell index `k` on: rows
/// bottom-up, each left to right; a line is owned by the disc it starts at.
pub open spec fn cf_first_line(cells: Seq<Cell>, k: int) -> Option<Player>
    decreases 42 - k,
{
    if k < 0 || k >= 42 {
        None
    } else {
        match cf_at(cells, k / 7, k % 7) {
            Some(p) => if cf_line_from(cells, k / 7, k % 7, p) { Some(p) } else { cf_first_line(cells, k + 1) },
            None => cf_first_line(cells, k + 1),
        }
    }
}

pub open spec fn occupied(cells: Seq<Cell>) -> nat
    decreases cells.len(),
{
    if cells.len() == 0 {
        0
    } else {
        occupied(cells.drop_last()) + if cells.last().player is Some { 1nat } else { 0 }
    }
}

/// Whether column `col` has no empty cell left.
pub open spec fn column_full(cells: Seq<Cell>, col: int) -> bool {
    forall|r: int| 0 <= r < 6 ==> #[trigger] cf_at(cells, r, col) is Some
}

/// The lowest empty row of a column, when rows below `row` are all taken.
pub open spec fn landing_row(cells: Seq<Cell>, col: int, row: int) -> bool {
    &&& 0 <= row < 6
    &&& cf_at(cells, row, col) is None
    &&& forall|r: int| 0 <= r < row ==> #[trigger] cf_at(cells, r, col) is Some
}

proof fn lemma_occupied_update(s: Seq<Cell>, i: int, v: Cell)
    requires
        0 <= i < s.len(),
        s[i].player is None,
        v.player is Some,
    ensures
        occupied(s.update(i, v)) == occupied(s) + 1,
    decreases s.len(),
{
    if i == s.len() - 1 {
        assert(s.update(i, v).drop_last() =~= s.drop_last());
    } else {
        assert(s.update(i, v).drop_last() =~= s.drop_last().update(i, v));
        lemma_occupied_update(s.drop_last(), i, v);
    }
}

/// No more discs than cells.
pub proof fn lemma_occupied_le_len(s: Seq<Cell>)
    ensures
        occupied(s) <= s.len(),
    decreases s.len(),
{
    if s.len() > 0 {
        lemma_occupied_le_len(s.drop_last());
    }
}

impl ConnectFourBoard {
    /// Shape of the grid, and one disc on it for each recorded move.
    pub open spec fn wf(&self) -> bool {
        &&& self.cells@.len() == 42
        &&& occupied(self.cells@) == self.moves@.len()
    }

    /// Run-time check of `wf`.
    pub fn is_well_formed(&self) -> (r: bool)
        ensures
            r == self.wf(),
    {
        if self.cells.len() != 42 {
            return false;
        }
        let mut n: usize = 0;
        let mut i: usize = 0;
        while i < 42
            invariant
                self.cells@.len() == 42,
                0 <= i <= 42,
                n <= i,
                n as nat == occupied(self.cells@.subrange(0, i as int)),
            decreases 42 - i,
        {
            assert(self.cells@.subrange(0, i + 1).drop_last() =~= self.cells@.subrange(0, i as int));
            if self.cells[i].player.is_some() {
                n = n + 1;
            }
            i = i + 1;
        }
        assert(self.cells@.subrange(0, 42) =~= self.cells@);
        n == self.moves.len()
    }

    /// An empty grid.
    pub fn new() -> (r: ConnectFourBoard)
        ensures
            r.wf(),
            forall|i: int| 0 <= i < 42 ==> (#[trigger] r.cells@[i]).player is None,
            r.moves@.len() == 0,
    {
        let cells: Vec<Cell> = vec![Cell { player: None }; 42];
        proof {
            lemma_occupied_empty(cells@);
        }
        ConnectFourBoard { cells, moves: Vec::new() }
    }

    /// Owner of the cell at (row, col); `None` when empty or off the grid.
    pub fn get_cell(&self, row: i32, col: i32) -> (r: Option<Player>)
        requires
            self.cells@.len() == 42,
        ensures
            r == cf_at(self.cells@, row as int, col as int),
    {
        if row < 0 || row > 5 || col < 0 || col > 6 {
            return None;
        }
        let idx = (row * 7 + col) as usize;
        self.cells[idx].player
    }

    /// Drop a disc of `player` into column `col`: it lands on the lowest
    /// empty row, which is returned. -1 rejects a column out of range or
    /// full and changes nothing.
    pub fn drop_piece(&mut self, col: u8, player: Player) -> (r: i32)
        requires
            old(self).wf(),
        ensures
            final(self).wf(),
            r == -1 <==> (col > 6 || column_full(old(self).cells@, col as int)),
            r == -1 ==> *final(self) == *old(self),
            r != -1 ==> {
                &&& landing_row(old(self).cells@, col as int, r as int)
                &&& final(self).cells@ == old(self).cells@.update(r * 7 + col, Cell { player: Some(player) })
                &&& final(self).moves@ == old(self).moves@.push(col)
            },
    {
        if col > 6 {
            return -1;
        }
        let mut row: i32 = 0;
        while row < 6
            invariant
                self == old(self),
                self.wf(),
                col <= 6,
                0 <= row <= 6,
                forall|r: int| 0 <= r < row ==> #[trigger] cf_at(self.cells@, r, col as int) is Some,
            decreases 6 - row,
        {
            let idx = (row * 7 + col as i32) as usize;
            if self.cells[idx].player.is_none() {
                assert(cf_at(self.cells@, row as int, col as int) is None);
                assert(!column_full(self.cells@, col as int));
                proof {
                    lemma_occupied_update(self.cells@, idx as int, Cell { player: Some(player) });
                }
                self.cells.set(idx, Cell { player: Some(player) });
                self.moves.push(col);
                return row;
            }
            row = row + 1;
        }
        -1
    }

    /// A player with four in a row, if any. When both players have one,
    /// the first met scanning rows bottom-up, then columns left to right.
    pub fn check_winner(&self) -> (r: Option<Player>)
        requires
            self.cells@.len() == 42,
        ensures
            r == cf_first_line(self.cells@, 0),
            r matches Some(p) ==> cf_four(self.cells@, p),
            r is None ==> !cf_four(self.cells@, Player::One) && !cf_four(self.cells@, Player::Two),
    {
        let mut row: i32 = 0;
        while row < 6
            invariant
                self.cells@.len() == 42,
                0 <= row <= 6,
                forall|r: int, c: int, p: Player| r < row ==> !#[trigger] cf_line_from(self.cells@, r, c, p),
                cf_first_line(self.cells@, 0) == cf_first_line(self.cells@, row * 7),
            decreases 6 - row,
        {
            let mut col: i32 = 0;
            while col < 7
                invariant
                    self.cells@.len() == 42,
                    0 <= row < 6,
                    0 <= col <= 7,
                    forall|r: int, c: int, p: Player| r < row || (r == row && c < col) ==> !#[trigger] cf_line_from(self.cells@, r, c, p),
                    cf_first_line(self.cells@, 0) == cf_first_line(self.cells@, row * 7 + col),
                decreases 7 - col,
            {
                assert((row * 7 + col) / 7 == row && (row * 7 + col) % 7 == col) by (nonlinear_arith)
                    requires
                        0 <= col < 7,
                        0 <= row,
                ;
                if let Some(player) = self.get_cell(row, col) {
                    if col <= 3 && self.check_line(row, col, 0, 1, player) {
                        assert(cf_line_from(self.cells@, row as int, col as int, player));
                        return Some(player);
                    }
                    if row <= 2 && self.check_line(row, col, 1, 0, player) {
                        assert(cf_line_from(self.cells@, row as int, col as int, player));
                        return Some(player);
                    }
                    if row <= 2 && col <= 3 && self.check_line(row, col, 1, 1, player) {
                        assert(cf_line_from(self.cells@, row as int, col as int, player));
                        return Some(player);
                    }
                    if row >= 3 && col <= 3 && self.check_line(row, col, -1, 1, player) {
                        assert(cf_line_from(self.cells@, row as int, col as int, player));
                        return Some(player);
                    }
                }
                col = col + 1;
            }
            row = row + 1;
        }
        None
    }

    /// Whether the three cells after (row, col) along (dr, dc) hold
    /// `player`'s discs.
    fn check_line(&self, row: i32, col: i32, dr: i32, dc: i32, player: Player) -> (r: bool)
        requires
            self.cells@.len() == 42,
            0 <= row < 6,
            0 <= col < 7,
            -1 <= dr <= 1,
            -1 <= dc <= 1,
        ensures
            r == (cf_at(self.cells@, row + dr, col + dc) == Some(player)
                && cf_at(self.cells@, row + 2 * dr, col + 2 * dc) == Some(player)
                && cf_at(self.cells@, row + 3 * dr, col + 3 * dc) == Some(player)),
    {
        let mut i: i32 = 1;
        while i < 4
            invariant
                self.cells@.len() == 42,
                0 <= row < 6,
                0 <= col < 7,
                -1 <= dr <= 1,
                -1 <= dc <= 1,
                1 <= i <= 4,
                i >= 2 ==> cf_at(self.cells@, row + dr, col + dc) == Some(player),
                i >= 3 ==> cf_at(self.cells@, row + 2 * dr, col + 2 * dc) == Some(player),
                i >= 4 ==> cf_at(self.cells@, row + 3 * dr, col + 3 * dc) == Some(player),
            decreases 4 - i,
        {
            if self.get_cell(row + i * dr, col + i * dc) != Some(player) {
                return false;
            }
            i = i + 1;
        }
        true
    }

    /// Whether the top row, and so every column, is full.
    pub fn is_full(&self) -> (r: bool)
        requires
            self.cells@.len() == 42,
        ensures
            r == forall|c: int| 0 <= c < 7 ==> #[trigger] cf_at(self.cells@, 5, c) is Some,
    {
        let mut col: i32 = 0;
        while col < 7
            invariant
                self.cells@.len() == 42,
                0 <= col <= 7,
                forall|c: int| 0 <= c < col ==> #[trigger] cf_at(self.cells@, 5, c) is Some,
            decreases 7 - col,
        {
            if self.get_cell(5, col).is_none() {
                return false;
            }
            col = col + 1;
        }
        true
    }
}

proof fn lemma_occupied_empty(s: Seq<Cell>)
    requires
        forall|i: int| 0 <= i < s.len() ==> (#[trigger] s[i]).player is None,
    ensures
        occupied(s) == 0,
    decreases s.len(),
{
    if s.len() > 0 {
        lemma_occupied_empty(s.drop_last());
    }
}

} // verus!
