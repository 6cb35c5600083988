use vstd::prelude::*;
use crate::types::Player;

verus! {

/// Reversi (Othello) board: 64 cells, row-major, valued 0 (empty), 1
/// (player one) or 2 (player two).
#[derive(Debug, Clone)]
pub struct ReversiBoard {
    pub cells: Vec<u8>,
    pub moves: Vec<u8>,
    pub consecutive_passes: u8,
}

/// The cell value that marks a player's pieces.
pub open spec fn mark_of(p: Player) -> u8 {
    match p {
        Player::One => 1,
        Player::Two => 2,
    }
}

/// The eight compass directions as (row step, column step).
pub open spec fn dir(k: int) -> (int, int) {
    if k == 0 { (-1, -1) }
    else if k == 1 { (-1, 0) }
    else if k == 2 { (-1, 1) }
    else if k == 3 { (0, -1) }
    else if k == 4 { (0, 1) }
    else if k == 5 { (1, -1) }
    else if k == 6 { (1, 0) }
    else { (1, 1) }
}

pub open spec fn on_board(r: int, c: int) -> bool {
    0 <= r < 8 && 0 <= c < 8
}

/// Cells of the unbroken run of `ov` cells met walking from (r, c) by
/// (dr, dc), looking at no more than `fuel` cells.
pub open spec fn run_cells(cells: Seq<u8>, r: int, c: int, dr: int, dc: int, ov: u8, fuel: nat) -> Seq<int>
    decreases fuel,
{
    if fuel == 0 || !on_board(r, c) || cells[r * 8 + c] != ov {
        Seq::empty()
    } else {
        seq![r * 8 + c] + run_cells(cells, r + dr, c + dc, dr, dc, ov, (fuel - 1) as nat)
    }
}

/// Whether the `ov` cells met from (r, c) are followed, still on the
/// board, by a `pv` cell.
pub open spec fn closed_by(cells: Seq<u8>, r: int, c: int, dr: int, dc: int, pv: u8, ov: u8, fuel: nat) -> bool
    decreases fuel,
{
    if fuel == 0 || !on_board(r, c) {
        false
    } else if cells[r * 8 + c] == ov {
        closed_by(cells, r + dr, c + dc, dr, dc, pv, ov, (fuel - 1) as nat)
    } else {
        cells[r * 8 + c] == pv
    }
}

/// Opposing pieces that a piece placed at `pos` flips in direction `k`:
/// the unbroken opposing run next to it, when a piece of the mover's ends it.
pub open spec fn ray_flips(cells: Seq<u8>, pos: int, p: Player, k: int) -> nat {
    let (dr, dc) = dir(k);
    let pv = mark_of(p);
    let ov = mark_of(p.spec_other());
    if closed_by(cells, pos / 8 + dr, pos % 8 + dc, dr, dc, pv, ov, 8) {
        run_cells(cells, pos / 8 + dr, pos % 8 + dc, dr, dc, ov, 8).len()
    } else {
        0
    }
}

pub open spec fn ray_takes(cells: Seq<u8>, pos: int, p: Player, k: int, q: int) -> bool {
    let (dr, dc) = dir(k);
    let pv = mark_of(p);
    let ov = mark_of(p.spec_other());
    closed_by(cells, pos / 8 + dr, pos % 8 + dc, dr, dc, pv, ov, 8)
        && run_cells(cells, pos / 8 + dr, pos % 8 + dc, dr, dc, ov, 8).contains(q)
}

pub open spec fn flips_upto(cells: Seq<u8>, pos: int, p: Player, n: int) -> nat
    decreases n,
{
    if n <= 0 {
        0
    } else {
        flips_upto(cells, pos, p, n - 1) + ray_flips(cells, pos, p, n - 1)
    }
}

/// Opposing pieces a placement at `pos` flips, over all eight directions.
pub open spec fn total_flips(cells: Seq<u8>, pos: int, p: Player) -> nat {
    flips_upto(cells, pos, p, 8)
}

/// Whether a placement at `pos` flips cell `q`.
pub open spec fn flipped(cells: Seq<u8>, pos: int, p: Player, q: int) -> bool {
    exists|k: int| 0 <= k < 8 && #[trigger] ray_takes(cells, pos, p, k, q)
}

/// A placement is legal on an empty cell that flips at least one piece.
pub open spec fn placement_ok(cells: Seq<u8>, pos: int, p: Player) -> bool {
    &&& 0 <= pos < 64
    &&& cells[pos] == 0
    &&& total_flips(cells, pos, p) > 0
}

/// Cells after a legal placement: the new piece and every flipped one
/// take the mover's mark.
pub open spec fn cells_after_placement(cells: Seq<u8>, pos: int, p: Player) -> Seq<u8> {
    Seq::new(64, |q: int| if q == pos || flipped(cells, pos, p, q) { mark_of(p) } else { cells[q] })
}

/// Whether a player has a legal placement anywhere.
pub open spec fn can_place(cells: Seq<u8>, p: Player) -> bool {
    exists|pos: int| #[trigger] placement_ok(cells, pos, p)
}

pub open spec fn count_mark(s: Seq<u8>, v: u8) -> nat
    decreases s.len(),
{
    if s.len() == 0 {
        0
    } else {
        count_mark(s.drop_last(), v) + if s.last() == v { 1nat } else { 0 }
    }
}

pub open spec fn board_full(cells: Seq<u8>) -> bool {
    forall|i: int| 0 <= i < cells.len() ==> cells[i] != 0
}

pub open spec fn passes_after(n: u8) -> u8 {
    if n < u8::MAX { (n + 1) as u8 } else { 0 }
}

pub open spec fn as_ints(s: Seq<usize>) -> Seq<int> {
    s.map_values(|x: usize| x as int)
}

fn dir_of(k: usize) -> (r: (i32, i32))
    requires
        k < 8,
    ensures
        r.0 as int == dir(k as int).0,
        r.1 as int == dir(k as int).1,
{
    match k {
        0 => (-1, -1),
        1 => (-1, 0),
        2 => (-1, 1),
        3 => (0, -1),
        4 => (0, 1),
        5 => (1, -1),
        6 => (1, 0),
        _ => (1, 1),
    }
}

fn mark(p: Player) -> (r: u8)
    ensures
        r == mark_of(p),
{
    match p {
        Player::One => 1,
        Player::Two => 2,
    }
}

impl ReversiBoard {
    pub open spec fn wf(&self) -> bool {
        self.cells@.len() == 64
    }

    /// Run-time check of `wf`.
    pub fn is_well_formed(&self) -> (r: bool)
        ensures
            r == self.wf(),
    {
        self.cells.len() == 64
    }

    /// Empty board but for the centre: d4 and e5 for player two, e4 and d5
    /// for player one.
    pub fn new() -> (r: ReversiBoard)
        ensures
            r.wf(),
            r.cells@ == Seq::new(64, |i: int| if i == 27 || i == 36 { 2u8 } else if i == 28 || i == 35 { 1u8 } else { 0u8 }),
            r.moves@.len() == 0,
            r.consecutive_passes == 0,
    {
        let mut cells: Vec<u8> = vec![0u8; 64];
        cells.set(27, 2);
        cells.set(28, 1);
        cells.set(35, 1);
        cells.set(36, 2);
        let r = ReversiBoard { cells, moves: Vec::new(), consecutive_passes: 0 };
        assert(r.cells@ =~= Seq::new(64, |i: int| if i == 27 || i == 36 { 2u8 } else if i == 28 || i == 35 { 1u8 } else { 0u8 }));
        r
    }

    /// Walk from `pos` in direction `k`: the opposing run met there, and
    /// whether a piece of `p`'s ends it.
    fn scan_ray(&self, pos: u8, k: usize, p: Player) -> (r: (Vec<usize>, bool))
        requires
            self.wf(),
            pos < 64,
            k < 8,
        ensures
            ({
                let (dr, dc) = dir(k as int);
                let (r0, c0) = (pos / 8 + dr, pos % 8 + dc);
                let ov = mark_of(p.spec_other());
                &&& r.1 == closed_by(self.cells@, r0, c0, dr, dc, mark_of(p), ov, 8)
                &&& as_ints(r.0@) == run_cells(self.cells@, r0, c0, dr, dc, ov, 8)
                &&& r.0@.len() <= 8
                &&& forall|i: int| 0 <= i < r.0@.len() ==> r.0@[i] < 64
            }),
    {
        let ghost cells = self.cells@;
        let pv = mark(p);
        let ov = mark(p.other());
        let (dr, dc) = dir_of(k);
        let ghost (r0, c0) = (pos / 8 + dr, pos % 8 + dc);
        let mut r: i32 = (pos / 8) as i32 + dr;
        let mut c: i32 = (pos % 8) as i32 + dc;
        let mut line: Vec<usize> = Vec::new();
        let mut fuel: u8 = 8;
        let mut done = false;
        let mut closed = false;
        while !done && fuel > 0 && 0 <= r && r < 8 && 0 <= c && c < 8
            invariant
                self.wf(),
                cells == self.cells@,
                -1 <= dr <= 1,
                -1 <= dc <= 1,
                -1 <= r <= 8,
                -1 <= c <= 8,
                fuel <= 8,
                line@.len() + fuel == 8,
                !done ==> !closed,
                !done ==> {
                    &&& closed_by(cells, r0, c0, dr as int, dc as int, pv, ov, 8)
                        == closed_by(cells, r as int, c as int, dr as int, dc as int, pv, ov, fuel as nat)
                    &&& run_cells(cells, r0, c0, dr as int, dc as int, ov, 8)
                        == as_ints(line@) + run_cells(cells, r as int, c as int, dr as int, dc as int, ov, fuel as nat)
                },
                done ==> {
                    &&& closed == closed_by(cells, r0, c0, dr as int, dc as int, pv, ov, 8)
                    &&& run_cells(cells, r0, c0, dr as int, dc as int, ov, 8) == as_ints(line@)
                },
                forall|i: int| 0 <= i < line@.len() ==> line@[i] < 64,
            decreases fuel, if done { 0int } else { 1int },
        {
            let idx = (r * 8 + c) as usize;
            let ghost l0 = line@;
            let ghost rest = run_cells(cells, r + dr, c + dc, dr as int, dc as int, ov, (fuel - 1) as nat);
            if self.cells[idx] == ov {
                line.push(idx);
                assert(as_ints(line@) + rest =~= as_ints(l0) + (seq![r * 8 + c] + rest));
                r = r + dr;
                c = c + dc;
                fuel = fuel - 1;
            } else {
                closed = self.cells[idx] == pv;
                done = true;
                assert(as_ints(l0) + Seq::<int>::empty() =~= as_ints(l0));
            }
        }
        if !done {
            assert(as_ints(line@) + Seq::<int>::empty() =~= as_ints(line@));
        }
        (line, closed)
    }

    /// Whether `p` may place at `pos`: an empty cell from which some
    /// direction holds an opposing run closed by a piece of `p`'s.
    pub fn is_valid_move(&self, pos: u8, player: Player) -> (r: bool)
        requires
            self.wf(),
        ensures
            r == placement_ok(self.cells@, pos as int, player),
    {
        if pos >= 64 || self.cells[pos as usize] != 0 {
            return false;
        }
        let mut k: usize = 0;
        while k < 8
            invariant
                self.wf(),
                pos < 64,
                self.cells@[pos as int] == 0,
                0 <= k <= 8,
                flips_upto(self.cells@, pos as int, player, k as int) == 0,
            decreases 8 - k,
        {
            let (line, closed) = self.scan_ray(pos, k, player);
            assert(flips_upto(self.cells@, pos as int, player, k + 1)
                == flips_upto(self.cells@, pos as int, player, k as int) + ray_flips(self.cells@, pos as int, player, k as int));
            if closed && line.len() > 0 {
                proof {
                    lemma_flips_upto_mono(self.cells@, pos as int, player, k as int + 1, 8);
                }
                return true;
            }
            k = k + 1;
        }
        false
    }

    /// Whether `player` has a legal placement anywhere on the board.
    pub fn has_valid_moves(&self, player: Player) -> (r: bool)
        requires
            self.wf(),
        ensures
            r == can_place(self.cells@, player),
    {
        let mut pos: u8 = 0;
        while pos < 64
            invariant
                self.wf(),
                0 <= pos <= 64,
                forall|q: int| 0 <= q < pos ==> !#[trigger] placement_ok(self.cells@, q, player),
            decreases 64 - pos,
        {
            if self.is_valid_move(pos, player) {
                return true;
            }
            pos = pos + 1;
        }
        false
    }

    /// Place `player`'s piece at `pos` and flip every closed opposing run.
    /// Returns how many pieces flipped; 0 rejects the move and changes
    /// nothing.
    pub fn make_move(&mut self, pos: u8, player: Player) -> (r: u8)
        requires
            old(self).wf(),
        ensures
            final(self).wf(),
            placement_ok(old(self).cells@, pos as int, player) ==> {
                &&& r as int == total_flips(old(self).cells@, pos as int, player)
                &&& final(self).cells@ == cells_after_placement(old(self).cells@, pos as int, player)
                &&& final(self).moves@ == old(self).moves@.push(pos)
                &&& final(self).consecutive_passes == 0
            },
            !placement_ok(old(self).cells@, pos as int, player) ==> r == 0 && *final(self) == *old(self),
    {
        if pos >= 64 || self.cells[pos as usize] != 0 {
            return 0;
        }
        let ghost cells = self.cells@;
        let pv = mark(player);
        let mut taken: Vec<bool> = vec![false; 64];
        let mut count: u8 = 0;
        let mut k: usize = 0;
        while k < 8
            invariant
                self.wf(),
                cells == self.cells@,
                cells == old(self).cells@,
                *self == *old(self),
                pos < 64,
                cells[pos as int] == 0,
                0 <= k <= 8,
                taken@.len() == 64,
                count as int == flips_upto(cells, pos as int, player, k as int),
                count <= 8 * k,
                forall|q: int| 0 <= q < 64 ==> (taken@[q] <==> exists|j: int| 0 <= j < k && #[trigger] ray_takes(cells, pos as int, player, j, q)),
            decreases 8 - k,
        {
            let (line, closed) = self.scan_ray(pos, k, player);
            let ghost before = taken@;
            assert(flips_upto(cells, pos as int, player, k + 1)
                == flips_upto(cells, pos as int, player, k as int) + ray_flips(cells, pos as int, player, k as int));
            let ghost run = as_ints(line@);
            if closed {
                let mut m: usize = 0;
                while m < line.len()
                    invariant
                        0 <= m <= line@.len(),
                        run == as_ints(line@),
                        taken@.len() == 64,
                        forall|i: int| 0 <= i < line@.len() ==> line@[i] < 64,
                        forall|q: int| 0 <= q < 64 ==> (#[trigger] taken@[q] <==> (before[q] || run.subrange(0, m as int).contains(q))),
                    decreases line@.len() - m,
                {
                    let ghost t0 = taken@;
                    assert(run[m as int] == line@[m as int] as int);
                    taken.set(line[m], true);
                    proof {
                        assert forall|q: int| 0 <= q < 64 implies taken@[q] == (t0[q] || q == run[m as int]) by {}
                        assert forall|q: int| 0 <= q < 64 implies (#[trigger] taken@[q] <==> (before[q] || run.subrange(0, m + 1).contains(q))) by {
                            lemma_prefix_contains(run, m as int, q);
                        }
                    }
                    m = m + 1;
                }
                assert(run.subrange(0, line@.len() as int) =~= run);
                count = count + line.len() as u8;
            }
            proof {
                assert forall|q: int| 0 <= q < 64 implies (taken@[q] <==> exists|j: int| 0 <= j < k + 1 && #[trigger] ray_takes(cells, pos as int, player, j, q)) by {
                    if taken@[q] && !before[q] {
                        assert(ray_takes(cells, pos as int, player, k as int, q));
                    }
                    if ray_takes(cells, pos as int, player, k as int, q) {
                        assert(run.contains(q));
                    }
                }
            }
            k = k + 1;
        }
        if count == 0 {
            return 0;
        }
        self.cells.set(pos as usize, pv);
        let mut q: usize = 0;
        while q < 64
            invariant
                self.cells@.len() == 64,
                self.moves == old(self).moves,
                cells == old(self).cells@,
                count as int == total_flips(cells, pos as int, player),
                taken@.len() == 64,
                0 <= q <= 64,
                pos < 64,
                pv == mark_of(player),
                forall|i: int| 0 <= i < 64 ==> (taken@[i] <==> flipped(cells, pos as int, player, i)),
                forall|i: int| 0 <= i < q ==> self.cells@[i] == cells_after_placement(cells, pos as int, player)[i],
                forall|i: int| q <= i < 64 ==> self.cells@[i] == if i == pos { pv } else { cells[i] },
            decreases 64 - q,
        {
            if taken[q] {
                self.cells.set(q, pv);
            }
            q = q + 1;
        }
        assert(self.cells@ =~= cells_after_placement(cells, pos as int, player));
        self.moves.push(pos);
        self.consecutive_passes = 0;
        count
    }

    /// Record a pass.
    pub fn pass(&mut self)
        ensures
            final(self).consecutive_passes == passes_after(old(self).consecutive_passes),
            final(self).cells == old(self).cells,
            final(self).moves == old(self).moves,
    {
        if self.consecutive_passes < u8::MAX {
            self.consecutive_passes = self.consecutive_passes + 1;
        } else {
            self.consecutive_passes = 0;
        }
    }

    /// Pieces on the board: (player one, player two).
    pub fn count_pieces(&self) -> (r: (u8, u8))
        requires
            self.wf(),
        ensures
            r.0 as nat == count_mark(self.cells@, 1),
            r.1 as nat == count_mark(self.cells@, 2),
    {
        let mut p1: u8 = 0;
        let mut p2: u8 = 0;
        let mut i: usize = 0;
        while i < 64
            invariant
                self.wf(),
                0 <= i <= 64,
                p1 <= i,
                p2 <= i,
                p1 as nat == count_mark(self.cells@.subrange(0, i as int), 1),
                p2 as nat == count_mark(self.cells@.subrange(0, i as int), 2),
            decreases 64 - i,
        {
            assert(self.cells@.subrange(0, i + 1).drop_last() =~= self.cells@.subrange(0, i as int));
            let cell = self.cells[i];
            if cell == 1 {
                p1 = p1 + 1;
            } else if cell == 2 {
                p2 = p2 + 1;
            }
            i = i + 1;
        }
        assert(self.cells@.subrange(0, 64) =~= self.cells@);
        (p1, p2)
    }

    /// Over after two passes in a row, or once every cell is taken.
    pub fn is_game_over(&self) -> (r: bool)
        requires
            self.wf(),
        ensures
            r == (self.consecutive_passes >= 2 || board_full(self.cells@)),
    {
        if self.consecutive_passes >= 2 {
            return true;
        }
        let mut i: usize = 0;
        while i < 64
            invariant
                self.wf(),
                self.consecutive_passes < 2,
                0 <= i <= 64,
                forall|k: int| 0 <= k < i ==> self.cells@[k] != 0,
            decreases 64 - i,
        {
            if self.cells[i] == 0 {
                assert(!board_full(self.cells@));
                return false;
            }
            i = i + 1;
        }
        true
    }

    /// The player with more pieces; `None` on equal counts.
    pub fn get_winner(&self) -> (r: Option<Player>)
        requires
            self.wf(),
        ensures
            r == if count_mark(self.cells@, 1) > count_mark(self.cells@, 2) {
                Some(Player::One)
            } else if count_mark(self.cells@, 2) > count_mark(self.cells@, 1) {
                Some(Player::Two)
            } else {
                None::<Player>
            },
    {
        let (p1, p2) = self.count_pieces();
        if p1 > p2 {
            Some(Player::One)
        } else if p2 > p1 {
            Some(Player::Two)
        } else {
            None
        }
    }
}

proof fn lemma_prefix_contains(run: Seq<int>, m: int, q: int)
    requires
        0 <= m < run.len(),
    ensures
        run.subrange(0, m + 1).contains(q) == (run.subrange(0, m).contains(q) || run[m] == q),
{
    if run[m] == q {
        assert(run.subrange(0, m + 1)[m] == q);
    }
    if run.subrange(0, m + 1).contains(q) && run[m] != q {
        let i = choose|i: int| 0 <= i < m + 1 && #[trigger] run.subrange(0, m + 1)[i] == q;
        assert(run.subrange(0, m)[i] == q);
    }
    if run.subrange(0, m).contains(q) {
        let i = choose|i: int| 0 <= i < m && #[trigger] run.subrange(0, m)[i] == q;
        assert(run.subrange(0, m + 1)[i] == q);
    }
}

proof fn lemma_flips_upto_mono(cells: Seq<u8>, pos: int, p: Player, a: int, b: int)
    requires
        0 <= a <= b,
    ensures
        flips_upto(cells, pos, p, a) <= flips_upto(cells, pos, p, b),
    decreases b - a,
{
    if a < b {
        lemma_flips_upto_mono(cells, pos, p, a, b - 1);
    }
}

} // verus!
