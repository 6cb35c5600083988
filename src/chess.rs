use vstd::prelude::*;
use vstd::string::*;
use crate::text::{string_of, chars_of, digit, push_decimal, decimal, digit_char};

verus! {

/// Chess position. Squares run a8 = 0 .. h1 = 63; each holds a one-letter
/// piece code (" " empty, capitals white, lower case black). `castling` is
/// [white king side, white queen side, black king side, black queen side];
/// `en_passant` is the square a pawn may capture onto, or -1.
#[derive(Debug, Clone)]
pub struct ChessBoard {
    pub board: Vec<String>,
    pub white_turn: bool,
    pub castling: Vec<bool>,
    pub en_passant: i8,
    pub halfmove: u16,
    pub fullmove: u16,
    pub moves: Vec<String>,
    pub fen: String,
}

/// Everything a chess position holds, as mathematical values.
pub struct ChessState {
    pub board: Seq<Seq<char>>,
    pub white_turn: bool,
    pub castling: Seq<bool>,
    pub en_passant: i8,
    pub halfmove: u16,
    pub fullmove: u16,
    pub moves: Seq<Seq<char>>,
    pub fen: Seq<char>,
}

impl View for ChessBoard {
    type V = ChessState;

    open spec fn view(&self) -> ChessState {
        ChessState {
            board: self.board@.map_values(|s: String| s@),
            white_turn: self.white_turn,
            castling: self.castling@,
            en_passant: self.en_passant,
            halfmove: self.halfmove,
            fullmove: self.fullmove,
            moves: self.moves@.map_values(|s: String| s@),
            fen: self.fen@,
        }
    }
}

/// The piece on square `i`: the first letter of its code, or ' ' when the
/// square is off the board or its code is empty.
pub open spec fn piece_on(b: Seq<Seq<char>>, i: int) -> char {
    if 0 <= i < b.len() && b[i].len() > 0 {
        b[i][0]
    } else {
        ' '
    }
}

/// Put piece `c` on square `i`; squares off the board are left alone.
pub open spec fn put(b: Seq<Seq<char>>, i: int, c: char) -> Seq<Seq<char>> {
    if 0 <= i < 64 {
        b.update(i, seq![c])
    } else {
        b
    }
}

pub open spec fn is_white_piece(c: char) -> bool {
    'A' <= c <= 'Z'
}

pub open spec fn lower(c: char) -> char {
    if 'A' <= c <= 'Z' {
        ((c as u32) + 32) as char
    } else {
        c
    }
}

pub open spec fn upper(c: char) -> char {
    if 'a' <= c <= 'z' {
        ((c as u32) - 32) as char
    } else {
        c
    }
}

/// Zero-based file or rank that `c` names, counting from `base`.
pub open spec fn coord(c: char, base: char) -> int {
    c as int - base as int
}

pub open spec fn on_grid(c: char, base: char) -> bool {
    0 <= coord(c, base) < 8
}

/// Shape of a UCI move: four characters or more, the first four naming two
/// squares.
pub open spec fn uci_well_formed(m: Seq<char>) -> bool {
    &&& m.len() >= 4
    &&& on_grid(m[0], 'a')
    &&& on_grid(m[1], '1')
    &&& on_grid(m[2], 'a')
    &&& on_grid(m[3], '1')
}

pub open spec fn from_square(m: Seq<char>) -> int {
    (7 - coord(m[1], '1')) * 8 + coord(m[0], 'a')
}

pub open spec fn to_square(m: Seq<char>) -> int {
    (7 - coord(m[3], '1')) * 8 + coord(m[2], 'a')
}

/// A move is accepted when it is well formed, it is the mover's turn, and
/// the from-square holds one of the mover's pieces.
pub open spec fn chess_move_ok(s: ChessState, m: Seq<char>, is_white: bool) -> bool {
    &&& uci_well_formed(m)
    &&& s.white_turn == is_white
    &&& piece_on(s.board, from_square(m)) != ' '
    &&& is_white_piece(piece_on(s.board, from_square(m))) == is_white
}

/// Squares after the rook's half of a castling king move.
pub open spec fn board_after_castle(b: Seq<Seq<char>>, from: int, file_diff: int, kind: char) -> Seq<Seq<char>> {
    if kind == 'k' && file_diff == 2 {
        put(put(b, from + 1, piece_on(b, from + 3)), from + 3, ' ')
    } else if kind == 'k' && file_diff == -2 {
        put(put(b, from - 1, piece_on(b, from - 4)), from - 4, ' ')
    } else {
        b
    }
}

pub open spec fn castling_after(c: Seq<bool>, from: int, kind: char, is_white: bool) -> Seq<bool> {
    let c1 = if kind == 'k' {
        if is_white { c.update(0, false).update(1, false) } else { c.update(2, false).update(3, false) }
    } else {
        c
    };
    if kind == 'r' {
        if is_white {
            let c2 = if from == 63 { c1.update(0, false) } else { c1 };
            if from == 56 { c2.update(1, false) } else { c2 }
        } else {
            let c2 = if from == 7 { c1.update(2, false) } else { c1 };
            if from == 0 { c2.update(3, false) } else { c2 }
        }
    } else {
        c1
    }
}

/// The new en-passant target: the skipped square of a double pawn push.
pub open spec fn en_passant_after(m: Seq<char>, kind: char) -> i8 {
    let rank_diff = coord(m[3], '1') - coord(m[1], '1');
    if kind == 'p' && (rank_diff == 2 || rank_diff == -2) {
        ((from_square(m) + to_square(m)) / 2) as i8
    } else {
        -1i8
    }
}

/// Squares after an accepted move: the rook's half of castling, an
/// en-passant capture, the piece itself, then promotion on the last rank
/// (to the fifth letter of the move, or a queen).
pub open spec fn board_after_move(s: ChessState, m: Seq<char>, is_white: bool) -> Seq<Seq<char>> {
    let from = from_square(m);
    let to = to_square(m);
    let piece = piece_on(s.board, from);
    let kind = lower(piece);
    let b1 = board_after_castle(s.board, from, coord(m[2], 'a') - coord(m[0], 'a'), kind);
    let b2 = if kind == 'p' && s.en_passant >= 0 && to == s.en_passant as int {
        put(b1, if is_white { to + 8 } else { to - 8 }, ' ')
    } else {
        b1
    };
    let b3 = put(put(b2, to, piece), from, ' ');
    let to_rank = coord(m[3], '1');
    if kind == 'p' && (to_rank == 0 || to_rank == 7) {
        let promo = if m.len() >= 5 { m[4] } else { 'q' };
        put(b3, to, if is_white { upper(promo) } else { lower(promo) })
    } else {
        b3
    }
}

/// Counter plus one, wrapping to zero past the largest value.
pub open spec fn wrapping_inc(n: u16) -> u16 {
    if n < u16::MAX { (n + 1) as u16 } else { 0 }
}

/// The position after an accepted move, before its FEN text is rewritten.
pub open spec fn state_after_move(s: ChessState, m: Seq<char>, is_white: bool) -> ChessState {
    let from = from_square(m);
    let piece = piece_on(s.board, from);
    let kind = lower(piece);
    let captured = piece_on(s.board, to_square(m));
    ChessState {
        board: board_after_move(s, m, is_white),
        white_turn: !s.white_turn,
        castling: castling_after(s.castling, from, kind, is_white),
        en_passant: en_passant_after(m, kind),
        halfmove: if kind == 'p' || captured != ' ' { 0 } else { wrapping_inc(s.halfmove) },
        fullmove: if !is_white { wrapping_inc(s.fullmove) } else { s.fullmove },
        moves: s.moves.push(m),
        fen: s.fen,
    }
}

/// One rank of the placement field from file `f` on, with `empty` blank
/// squares pending before it.
pub open spec fn rank_text(b: Seq<Seq<char>>, r: int, f: int, empty: int) -> Seq<char>
    decreases 8 - f,
{
    if f >= 8 {
        if empty > 0 { seq![digit_char(empty)] } else { Seq::empty() }
    } else {
        let p = piece_on(b, r * 8 + f);
        if p == ' ' {
            rank_text(b, r, f + 1, empty + 1)
        } else {
            (if empty > 0 { seq![digit_char(empty)] } else { Seq::empty() }) + seq![p]
                + rank_text(b, r, f + 1, 0)
        }
    }
}

/// The placement field from rank row `r` on (row 0 is rank 8), rows
/// separated by '/'.
pub open spec fn placement_text(b: Seq<Seq<char>>, r: int) -> Seq<char>
    decreases 8 - r,
{
    if r >= 8 {
        Seq::empty()
    } else {
        rank_text(b, r, 0, 0) + (if r < 7 { seq!['/'] } else { Seq::empty() }) + placement_text(b, r + 1)
    }
}

pub open spec fn castling_text(c: Seq<bool>) -> Seq<char> {
    let t = (if c[0] { seq!['K'] } else { Seq::empty() }) + (if c[1] { seq!['Q'] } else { Seq::empty() })
        + (if c[2] { seq!['k'] } else { Seq::empty() }) + (if c[3] { seq!['q'] } else { Seq::empty() });
    if t.len() == 0 { seq!['-'] } else { t }
}

pub open spec fn file_char(f: int) -> char {
    if f == 0 { 'a' }
    else if f == 1 { 'b' }
    else if f == 2 { 'c' }
    else if f == 3 { 'd' }
    else if f == 4 { 'e' }
    else if f == 5 { 'f' }
    else if f == 6 { 'g' }
    else { 'h' }
}

pub open spec fn en_passant_text(ep: i8) -> Seq<char> {
    if ep >= 0 {
        seq![file_char(ep as int % 8), digit_char(7 - ep as int / 8 + 1)]
    } else {
        seq!['-']
    }
}

/// Forsyth-Edwards text of a position.
pub open spec fn fen_of(s: ChessState) -> Seq<char> {
    placement_text(s.board, 0) + seq![' ', if s.white_turn { 'w' } else { 'b' }, ' ']
        + castling_text(s.castling) + seq![' '] + en_passant_text(s.en_passant) + seq![' ']
        + decimal(s.halfmove as nat) + seq![' '] + decimal(s.fullmove as nat)
}

pub open spec fn with_fen(s: ChessState) -> ChessState {
    ChessState { fen: fen_of(s), ..s }
}

/// Apply a move if it is accepted; the position is unchanged otherwise.
pub open spec fn chess_step(s: ChessState, m: Seq<char>, is_white: bool) -> ChessState {
    if chess_move_ok(s, m, is_white) {
        with_fen(state_after_move(s, m, is_white))
    } else {
        s
    }
}

/// Starting code of square `i`.
pub open spec fn start_piece(i: int) -> char {
    let back = seq!['r', 'n', 'b', 'q', 'k', 'b', 'n', 'r'];
    if i < 8 {
        back[i]
    } else if i < 16 {
        'p'
    } else if i < 48 {
        ' '
    } else if i < 56 {
        'P'
    } else {
        upper(back[i - 56])
    }
}

pub open spec fn start_state() -> ChessState {
    ChessState {
        board: Seq::new(64, |i: int| seq![start_piece(i)]),
        white_turn: true,
        castling: seq![true, true, true, true],
        en_passant: -1i8,
        halfmove: 0,
        fullmove: 1,
        moves: Seq::empty(),
        fen: Seq::empty(),
    }
}

fn start_piece_at(i: usize) -> (r: char)
    requires
        i < 64,
    ensures
        r == start_piece(i as int),
{
    let f = i % 8;
    if i < 8 || i >= 56 {
        let c = if f == 0 || f == 7 {
            'r'
        } else if f == 1 || f == 6 {
            'n'
        } else if f == 2 || f == 5 {
            'b'
        } else if f == 3 {
            'q'
        } else {
            'k'
        };
        if i < 8 {
            c
        } else {
            ascii_upper(c)
        }
    } else if i < 16 {
        'p'
    } else if i < 48 {
        ' '
    } else {
        'P'
    }
}

fn file_letter(f: u8) -> (r: char)
    requires
        f < 8,
    ensures
        r == file_char(f as int),
{
    match f {
        0 => 'a',
        1 => 'b',
        2 => 'c',
        3 => 'd',
        4 => 'e',
        5 => 'f',
        6 => 'g',
        _ => 'h',
    }
}

fn ascii_lower(c: char) -> (r: char)
    ensures
        r == lower(c),
{
    if 'A' <= c && c <= 'Z' {
        ((c as u8) + 32) as char
    } else {
        c
    }
}

fn ascii_upper(c: char) -> (r: char)
    ensures
        r == upper(c),
{
    if 'a' <= c && c <= 'z' {
        ((c as u8) - 32) as char
    } else {
        c
    }
}

impl ChessBoard {
    /// Well-formed: 64 squares, four castling flags, an en-passant target
    /// on the board or -1.
    pub open spec fn wf(&self) -> bool {
        &&& self.board@.len() == 64
        &&& self.castling@.len() == 4
        &&& -1 <= self.en_passant < 64
    }

    /// Run-time check of `wf`, for positions received from elsewhere.
    pub fn is_well_formed(&self) -> (r: bool)
        ensures
            r == self.wf(),
    {
        self.board.len() == 64 && self.castling.len() == 4 && -1 <= self.en_passant && self.en_passant < 64
    }

    /// The standard starting position, white to move.
    pub fn new() -> (r: ChessBoard)
        ensures
            r.wf(),
            r@ == with_fen(start_state()),
    {
        let mut board: Vec<String> = Vec::new();
        let mut i: usize = 0;
        while i < 64
            invariant
                0 <= i <= 64,
                board@.len() == i,
                forall|k: int| 0 <= k < i ==> (#[trigger] board@[k])@ == seq![start_piece(k)],
            decreases 64 - i,
        {
            let v = vec![start_piece_at(i)];
            assert(v@ =~= seq![start_piece(i as int)]);
            let code = string_of(&v);
            board.push(code);
            i = i + 1;
        }
        let mut b = ChessBoard {
            board,
            white_turn: true,
            castling: vec![true, true, true, true],
            en_passant: -1,
            halfmove: 0,
            fullmove: 1,
            moves: Vec::new(),
            fen: String::new(),
        };
        assert(b@.board =~= start_state().board);
        assert(b@.moves =~= start_state().moves);
        b.update_fen();
        b
    }

    /// The piece on square `idx`; ' ' off the board or on an empty code.
    pub fn get_piece(&self, idx: usize) -> (r: char)
        ensures
            r == piece_on(self@.board, idx as int),
    {
        if idx < self.board.len() {
            let s = self.board[idx].as_str();
            if s.unicode_len() > 0 {
                s.get_char(0)
            } else {
                ' '
            }
        } else {
            ' '
        }
    }

    /// Put `piece` on square `idx`; an index off the board changes nothing.
    pub fn set_piece(&mut self, idx: usize, piece: char)
        requires
            old(self).wf(),
        ensures
            final(self).wf(),
            final(self)@ == (ChessState { board: put(old(self)@.board, idx as int, piece), ..old(self)@ }),
    {
        if idx < 64 {
            let v = vec![piece];
            assert(v@ =~= seq![piece]);
            let code = string_of(&v);
            self.board.set(idx, code);
            assert(self@.board =~= put(old(self)@.board, idx as int, piece));
        }
    }

    fn get_sq(&self, idx: i32) -> (r: char)
        ensures
            r == piece_on(self@.board, idx as int),
    {
        if idx < 0 {
            ' '
        } else {
            self.get_piece(idx as usize)
        }
    }

    fn put_sq(&mut self, idx: i32, piece: char)
        requires
            old(self).wf(),
        ensures
            final(self).wf(),
            final(self)@ == (ChessState { board: put(old(self)@.board, idx as int, piece), ..old(self)@ }),
    {
        if idx >= 0 {
            self.set_piece(idx as usize, piece);
        }
    }

    /// Play a move given in UCI notation ("e2e4", "e7e8n") for the side
    /// `is_white`. It is accepted when well formed, on the mover's turn,
    /// from a square holding one of the mover's pieces; legality beyond
    /// that is not checked. An accepted move updates castling rights, the
    /// en-passant target, both clocks, the side to move, the move list and
    /// the FEN text; a rejected one changes nothing.
    pub fn make_move(&mut self, uci_move: &str, is_white: bool) -> (r: bool)
        requires
            old(self).wf(),
        ensures
            final(self).wf(),
            r == chess_move_ok(old(self)@, uci_move@, is_white),
            final(self)@ == chess_step(old(self)@, uci_move@, is_white),
            !r ==> *final(self) == *old(self),
    {
        let chars = chars_of(uci_move);
        if chars.len() < 4 {
            return false;
        }
        if self.white_turn != is_white {
            return false;
        }
        let (c0, c1, c2, c3) = (chars[0], chars[1], chars[2], chars[3]);
        if c0 < 'a' || c0 > 'h' || c1 < '1' || c1 > '8' || c2 < 'a' || c2 > 'h' || c3 < '1'
            || c3 > '8' {
            return false;
        }
        let from_file: i32 = (c0 as u32 - 'a' as u32) as i32;
        let from_rank: i32 = (c1 as u32 - '1' as u32) as i32;
        let to_file: i32 = (c2 as u32 - 'a' as u32) as i32;
        let to_rank: i32 = (c3 as u32 - '1' as u32) as i32;
        let from_idx: i32 = (7 - from_rank) * 8 + from_file;
        let to_idx: i32 = (7 - to_rank) * 8 + to_file;
        let piece = self.get_sq(from_idx);
        if piece == ' ' {
            return false;
        }
        let piece_is_white = 'A' <= piece && piece <= 'Z';
        if piece_is_white != is_white {
            return false;
        }
        let ghost s0 = self@;
        let captured = self.get_sq(to_idx);
        let piece_lower = ascii_lower(piece);
        if piece_lower == 'k' {
            let file_diff = to_file - from_file;
            if file_diff == 2 {
                let rook = self.get_sq(from_idx + 3);
                self.put_sq(from_idx + 1, rook);
                self.put_sq(from_idx + 3, ' ');
            } else if file_diff == -2 {
                let rook = self.get_sq(from_idx - 4);
                self.put_sq(from_idx - 1, rook);
                self.put_sq(from_idx - 4, ' ');
            }
            if is_white {
                self.castling.set(0, false);
                self.castling.set(1, false);
            } else {
                self.castling.set(2, false);
                self.castling.set(3, false);
            }
        }
        if piece_lower == 'r' {
            if is_white {
                if from_idx == 63 {
                    self.castling.set(0, false);
                }
                if from_idx == 56 {
                    self.castling.set(1, false);
                }
            } else {
                if from_idx == 7 {
                    self.castling.set(2, false);
                }
                if from_idx == 0 {
                    self.castling.set(3, false);
                }
            }
        }
        if piece_lower == 'p' && self.en_passant >= 0 {
            if to_idx == self.en_passant as i32 {
                let pawn_idx = if is_white {
                    to_idx + 8
                } else {
                    to_idx - 8
                };
                self.put_sq(pawn_idx, ' ');
            }
        }
        self.en_passant = -1;
        if piece_lower == 'p' {
            let rank_diff = to_rank - from_rank;
            if rank_diff == 2 || rank_diff == -2 {
                self.en_passant = ((from_idx + to_idx) / 2) as i8;
            }
        }
        self.put_sq(to_idx, piece);
        self.put_sq(from_idx, ' ');
        if piece_lower == 'p' && (to_rank == 0 || to_rank == 7) {
            let promo_piece = if chars.len() >= 5 {
                chars[4]
            } else {
                'q'
            };
            let promo = if is_white {
                ascii_upper(promo_piece)
            } else {
                ascii_lower(promo_piece)
            };
            self.put_sq(to_idx, promo);
        }
        if piece_lower == 'p' || captured != ' ' {
            self.halfmove = 0;
        } else if self.halfmove == u16::MAX {
            self.halfmove = 0;
        } else {
            self.halfmove = self.halfmove + 1;
        }
        if !is_white {
            if self.fullmove == u16::MAX {
                self.fullmove = 0;
            } else {
                self.fullmove = self.fullmove + 1;
            }
        }
        self.white_turn = !self.white_turn;
        self.moves.push(String::from_str(uci_move));
        assert(self@.moves =~= s0.moves.push(uci_move@));
        assert(self@.board == board_after_move(s0, uci_move@, is_white));
        assert(self@ == state_after_move(s0, uci_move@, is_white));
        self.update_fen();
        true
    }

    /// Rewrite `fen` from the rest of the position.
    pub fn update_fen(&mut self)
        requires
            old(self).wf(),
        ensures
            final(self).wf(),
            final(self)@ == with_fen(old(self)@),
    {
        let ghost b = self@.board;
        let mut out: Vec<char> = Vec::new();
        let mut rank: usize = 0;
        while rank < 8
            invariant
                self.wf(),
                b == self@.board,
                0 <= rank <= 8,
                out@ + placement_text(b, rank as int) == placement_text(b, 0),
            decreases 8 - rank,
        {
            let ghost row_start = out@;
            self.push_rank(&mut out, rank);
            if rank < 7 {
                out.push('/');
            }
            assert(row_start + placement_text(b, rank as int) =~= out@ + placement_text(b, rank + 1));
            rank = rank + 1;
        }
        assert(out@ =~= placement_text(b, 0));
        out.push(' ');
        out.push(if self.white_turn { 'w' } else { 'b' });
        out.push(' ');
        push_castling(&mut out, &self.castling);
        out.push(' ');
        push_en_passant(&mut out, self.en_passant);
        out.push(' ');
        push_decimal(&mut out, self.halfmove);
        out.push(' ');
        push_decimal(&mut out, self.fullmove);
        assert(out@ =~= fen_of(self@));
        self.fen = string_of(&out);
    }

    /// Append the placement text of rank row `rank`.
    fn push_rank(&self, out: &mut Vec<char>, rank: usize)
        requires
            self.wf(),
            rank < 8,
        ensures
            final(out)@ == old(out)@ + rank_text(self@.board, rank as int, 0, 0),
    {
        let ghost b = self@.board;
        let ghost row_start = out@;
        let mut empty: u8 = 0;
        let mut file: usize = 0;
        while file < 8
            invariant
                self.wf(),
                b == self@.board,
                0 <= rank < 8,
                0 <= file <= 8,
                empty <= file,
                out@ + rank_text(b, rank as int, file as int, empty as int)
                    == row_start + rank_text(b, rank as int, 0, 0),
            decreases 8 - file,
        {
            let ghost before = out@;
            let ghost e0 = empty as int;
            let piece = self.get_piece(rank * 8 + file);
            if piece == ' ' {
                empty = empty + 1;
            } else {
                if empty > 0 {
                    out.push(digit(empty));
                    empty = 0;
                }
                out.push(piece);
            }
            file = file + 1;
            assert(out@ + rank_text(b, rank as int, file as int, empty as int)
                =~= before + rank_text(b, rank as int, file - 1, e0));
        }
        let ghost row_end = out@;
        if empty > 0 {
            out.push(digit(empty));
        }
        assert(row_end + rank_text(b, rank as int, 8, empty as int) =~= out@);
    }
}

fn push_castling(out: &mut Vec<char>, c: &Vec<bool>)
    requires
        c@.len() == 4,
    ensures
        final(out)@ == old(out)@ + castling_text(c@),
{
    let c_start = out.len();
    if c[0] {
        out.push('K');
    }
    if c[1] {
        out.push('Q');
    }
    if c[2] {
        out.push('k');
    }
    if c[3] {
        out.push('q');
    }
    let ghost c = c@;
    assert(out@ =~= old(out)@ + ((if c[0] { seq!['K'] } else { Seq::empty() }) + (if c[1] { seq!['Q'] } else { Seq::empty() })
        + (if c[2] { seq!['k'] } else { Seq::empty() }) + (if c[3] { seq!['q'] } else { Seq::empty() })));
    if out.len() == c_start {
        out.push('-');
    }
    assert(out@ =~= old(out)@ + castling_text(c));
}

fn push_en_passant(out: &mut Vec<char>, ep: i8)
    requires
        -1 <= ep < 64,
    ensures
        final(out)@ == old(out)@ + en_passant_text(ep),
{
    if ep >= 0 {
        out.push(file_letter((ep % 8) as u8));
        out.push(digit(7 - (ep / 8) as u8 + 1));
    } else {
        out.push('-');
    }
    assert(out@ =~= old(out)@ + en_passant_text(ep));
}

} // verus!
