use vstd::prelude::*;
use crate::types::{MoveData, Player};
use crate::room::{GameBoard, MoveVerdict, reversi_moved};
use crate::connect_four::{ConnectFourBoard, landing_row, occupied, lemma_occupied_le_len};
use crate::reversi::ReversiBoard;
use crate::battleship::{BattleshipBoard, sunk_count, lemma_sunk_count_le};

verus! {

/// Two boards hold the same position: the same game, and every field
/// equal (strings compared character by character).
pub open spec fn same_board(a: &GameBoard, b: &GameBoard) -> bool {
    match (a, b) {
        (GameBoard::Chess(x), GameBoard::Chess(y)) => x@ == y@,
        (GameBoard::ConnectFour(x), GameBoard::ConnectFour(y)) => x.cells@ == y.cells@ && x.moves@ == y.moves@,
        (GameBoard::Reversi(x), GameBoard::Reversi(y)) => x.cells@ == y.cells@ && x.moves@ == y.moves@
            && x.consecutive_passes == y.consecutive_passes,
        (GameBoard::Gomoku(x), GameBoard::Gomoku(y)) => x.cells@ == y.cells@ && x.moves@ == y.moves@,
        (GameBoard::Battleship(x), GameBoard::Battleship(y)) => {
            &&& x.p1_ships@ == y.p1_ships@
            &&& x.p1_hits@ == y.p1_hits@
            &&& x.p2_ships@ == y.p2_ships@
            &&& x.p2_hits@ == y.p2_hits@
            &&& x.setup_phase == y.setup_phase
            &&& x.p1_ready == y.p1_ready
            &&& x.p2_ready == y.p2_ready
            &&& x.moves@ == y.moves@
            &&& x.ships_sunk@ == y.ships_sunk@
        },
        (GameBoard::Mancala(x), GameBoard::Mancala(y)) => x.pits@ == y.pits@ && x.moves@ == y.moves@,
        _ => false,
    }
}

proof fn lemma_landing_row_unique(cells: Seq<crate::types::Cell>, col: int, r1: int, r2: int)
    requires
        landing_row(cells, col, r1),
        landing_row(cells, col, r2),
    ensures
        r1 == r2,
{
    if r1 < r2 {
        assert(crate::connect_four::cf_at(cells, r1, col) is Some);
    }
    if r2 < r1 {
        assert(crate::connect_four::cf_at(cells, r2, col) is Some);
    }
}

/// The same accepted move, by the same player, on the same position
/// gives the same position and the same verdict.
pub proof fn lemma_move_deterministic(
    a1: &GameBoard,
    a2: &GameBoard,
    n1: &GameBoard,
    n2: &GameBoard,
    p: Player,
    mv: &MoveData,
    v1: MoveVerdict,
    v2: MoveVerdict,
)
    requires
        same_board(a1, a2),
        n1.wf(),
        n2.wf(),
        GameBoard::moved(a1, n1, p, mv, v1),
        GameBoard::moved(a2, n2, p, mv, v2),
    ensures
        same_board(n1, n2),
        v1 == v2,
{
    match (a1, a2, n1, n2) {
        (GameBoard::ConnectFour(x1), GameBoard::ConnectFour(x2), GameBoard::ConnectFour(y1), GameBoard::ConnectFour(y2)) => {
            let col = mv.primary as int;
            let r1 = choose|row: int| #[trigger] landing_row(x1.cells@, col, row)
                && y1.cells@ == x1.cells@.update(row * 7 + col, crate::types::Cell { player: Some(p) });
            let r2 = choose|row: int| #[trigger] landing_row(x2.cells@, col, row)
                && y2.cells@ == x2.cells@.update(row * 7 + col, crate::types::Cell { player: Some(p) });
            lemma_landing_row_unique(x1.cells@, col, r1, r2);
        },
        (GameBoard::Battleship(x1), GameBoard::Battleship(x2), GameBoard::Battleship(y1), GameBoard::Battleship(y2)) => {
            assert(y1.ships_sunk@ =~= y2.ships_sunk@);
            match p {
                Player::One => {},
                Player::Two => {},
            }
        },
        (GameBoard::Mancala(x1), GameBoard::Mancala(x2), GameBoard::Mancala(y1), GameBoard::Mancala(y2)) => {
            assert(y1.pits@ =~= y2.pits@);
        },
        _ => {},
    }
}

/// Whether step `i` of a run is an accepted move taking `boards[i]` to
/// `boards[i + 1]`.
pub open spec fn step_taken(steps: Seq<(Player, MoveData)>, boards: Seq<GameBoard>, i: int) -> bool {
    exists|v: MoveVerdict| #[trigger] GameBoard::moved(&boards[i], &boards[i + 1], steps[i].0, &steps[i].1, v)
}

/// `boards` is a run of the accepted moves `steps`: one board more than
/// steps, each well formed, each step taking a board to the next.
pub open spec fn is_run(steps: Seq<(Player, MoveData)>, boards: Seq<GameBoard>) -> bool {
    &&& boards.len() == steps.len() + 1
    &&& forall|i: int| 0 <= i < boards.len() ==> (#[trigger] boards[i]).wf()
    &&& forall|i: int| 0 <= i < steps.len() ==> #[trigger] step_taken(steps, boards, i)
}

/// Replaying the same accepted moves in the same order from the same
/// position ends in the same position.
pub proof fn lemma_replay_deterministic(steps: Seq<(Player, MoveData)>, r1: Seq<GameBoard>, r2: Seq<GameBoard>)
    requires
        is_run(steps, r1),
        is_run(steps, r2),
        same_board(&r1[0], &r2[0]),
    ensures
        forall|i: int| 0 <= i < r1.len() ==> same_board(&#[trigger] r1[i], &r2[i]),
    decreases steps.len(),
{
    if steps.len() > 0 {
        let k = steps.len() - 1;
        let s0 = steps.subrange(0, k);
        let pre1 = r1.subrange(0, k + 1);
        let pre2 = r2.subrange(0, k + 1);
        assert forall|i: int| 0 <= i < s0.len() implies #[trigger] step_taken(s0, pre1, i) by {
            assert(step_taken(steps, r1, i));
            assert(pre1[i] == r1[i] && pre1[i + 1] == r1[i + 1] && s0[i] == steps[i]);
        }
        assert forall|i: int| 0 <= i < s0.len() implies #[trigger] step_taken(s0, pre2, i) by {
            assert(step_taken(steps, r2, i));
            assert(pre2[i] == r2[i] && pre2[i + 1] == r2[i + 1] && s0[i] == steps[i]);
        }
        assert forall|i: int| 0 <= i < pre1.len() implies (#[trigger] pre1[i]).wf() by {
            assert(r1[i].wf());
        }
        assert forall|i: int| 0 <= i < pre2.len() implies (#[trigger] pre2[i]).wf() by {
            assert(r2[i].wf());
        }
        lemma_replay_deterministic(s0, pre1, pre2);
        assert(same_board(&r1[k], &r2[k])) by {
            assert(pre1[k] == r1[k] && pre2[k] == r2[k]);
        }
        assert(step_taken(steps, r1, k));
        assert(step_taken(steps, r2, k));
        let v1 = choose|v: MoveVerdict| #[trigger] GameBoard::moved(&r1[k], &r1[k + 1], steps[k].0, &steps[k].1, v);
        let v2 = choose|v: MoveVerdict| #[trigger] GameBoard::moved(&r2[k], &r2[k + 1], steps[k].0, &steps[k].1, v);
        assert(r1[k + 1].wf() && r2[k + 1].wf());
        lemma_move_deterministic(&r1[k], &r2[k], &r1[k + 1], &r2[k + 1], steps[k].0, &steps[k].1, v1, v2);
        assert forall|i: int| 0 <= i < r1.len() implies same_board(&#[trigger] r1[i], &r2[i]) by {
            if i < k + 1 {
                assert(pre1[i] == r1[i] && pre2[i] == r2[i]);
            }
        }
    }
}

/// Every starting position of a game is the same position.
pub proof fn lemma_start_unique(a: &GameBoard, b: &GameBoard)
    requires
        a.is_start(),
        b.is_start(),
        a.wf(),
        b.wf(),
        a.game_type() == b.game_type(),
    ensures
        same_board(a, b),
{
    match (a, b) {
        (GameBoard::ConnectFour(x), GameBoard::ConnectFour(y)) => {
            assert(x.cells@ =~= y.cells@);
            assert(x.moves@ =~= y.moves@);
        },
        (GameBoard::Reversi(x), GameBoard::Reversi(y)) => {
            assert(x.moves@ =~= y.moves@);
        },
        (GameBoard::Gomoku(x), GameBoard::Gomoku(y)) => {
            assert(x.cells@ =~= y.cells@);
            assert(x.moves@ =~= y.moves@);
        },
        (GameBoard::Battleship(x), GameBoard::Battleship(y)) => {
            assert(x.moves@ =~= y.moves@);
        },
        (GameBoard::Mancala(x), GameBoard::Mancala(y)) => {
            assert(x.pits@ =~= y.pits@);
            assert(x.moves@ =~= y.moves@);
        },
        _ => {},
    }
}

/// Replaying the same accepted moves from the starting position of a game
/// always ends in the same position.
pub proof fn lemma_replay_from_start(steps: Seq<(Player, MoveData)>, r1: Seq<GameBoard>, r2: Seq<GameBoard>)
    requires
        is_run(steps, r1),
        is_run(steps, r2),
        r1[0].is_start(),
        r2[0].is_start(),
        r1[0].game_type() == r2[0].game_type(),
    ensures
        same_board(&r1.last(), &r2.last()),
{
    assert(r1[0].wf() && r2[0].wf());
    lemma_start_unique(&r1[0], &r2[0]);
    lemma_replay_deterministic(steps, r1, r2);
    assert(same_board(&r1[r1.len() - 1], &r2[r2.len() - 1]));
}

/// A well-formed Connect Four board has one disc per recorded move, so
/// never more than 42 moves.
pub proof fn lemma_connect_four_moves_bounded(b: &ConnectFourBoard)
    requires
        b.wf(),
    ensures
        occupied(b.cells@) == b.moves@.len(),
        b.moves@.len() <= 42,
{
    lemma_occupied_le_len(b.cells@);
}

/// A pass right after a pass ends a Reversi game.
pub proof fn lemma_second_pass_ends(old: &ReversiBoard, new: &ReversiBoard, p: Player, mv: &MoveData, v: MoveVerdict)
    requires
        reversi_moved(old, new, p, mv, v),
        mv.primary == -1,
        old.consecutive_passes == 1,
    ensures
        v.ended,
{
}

/// A Battleship side's sunk counter is the number of its ships, among
/// ids 1..5, whose every cell has been hit; so it reaches five exactly
/// when the whole fleet is sunk, and never exceeds five.
pub proof fn lemma_sunk_counter_counts(b: &BattleshipBoard, p: Player)
    requires
        b.wf(),
    ensures
        b.sunk_of(p) as nat == sunk_count(b.ships_of(p), b.hits_of(p), 5),
        b.sunk_of(p) <= 5,
{
    lemma_sunk_count_le(b.ships_of(p), b.hits_of(p), 5);
}

} // verus!
