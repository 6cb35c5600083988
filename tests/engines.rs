use chaincycles::{
    BattleshipBoard, ChessBoard, ConnectFourBoard, GomokuBoard, MancalaBoard, Player, ReversiBoard,
};

#[test]
fn mancala_first_move_from_pit_two() {
    let mut b = MancalaBoard::new();
    let extra = b.make_move(2, Player::One);
    assert_eq!(extra, Some(true));
    assert_eq!(b.pits, vec![4, 4, 0, 5, 5, 5, 1, 4, 4, 4, 4, 4, 4, 0]);
    assert_eq!(b.moves, vec![2]);
    assert_eq!(b.pits.iter().map(|&p| p as u32).sum::<u32>(), 48);
}

#[test]
fn mancala_rejects_empty_or_out_of_range_pit() {
    let mut b = MancalaBoard::new();
    assert_eq!(b.make_move(6, Player::One), None);
    b.make_move(2, Player::One);
    let before = b.pits.clone();
    assert_eq!(b.make_move(2, Player::One), None);
    assert_eq!(b.pits, before);
}

#[test]
fn mancala_player_two_sows_past_player_one_store() {
    let mut b = MancalaBoard::new();
    b.pits = vec![0, 0, 0, 0, 0, 1, 0, 0, 0, 0, 0, 0, 10, 37];
    // Ten stones from slot 12: 13, then 0..5, skip 6, then 7, 8, 9; the
    // last lands alone in 9 and takes slot 3 with it.
    assert_eq!(b.make_move(5, Player::Two), Some(false));
    assert_eq!(b.pits, vec![1, 1, 1, 0, 1, 2, 0, 1, 1, 0, 0, 0, 0, 40]);
    assert_eq!(b.moves, vec![12]);
}

#[test]
fn mancala_capture_takes_opposite_pit() {
    let mut b = MancalaBoard::new();
    b.pits = vec![1, 0, 0, 0, 0, 0, 0, 4, 4, 4, 4, 4, 4, 23];
    // One stone from pit 0 lands alone in pit 1, opposite slot 11.
    assert_eq!(b.make_move(0, Player::One), Some(false));
    assert_eq!(b.pits, vec![0, 0, 0, 0, 0, 0, 5, 4, 4, 4, 4, 0, 4, 23]);
    assert!(b.is_game_over());
}

#[test]
fn mancala_finalize_sweeps_and_names_winner() {
    let mut b = MancalaBoard::new();
    b.pits = vec![0, 0, 0, 0, 0, 0, 20, 1, 2, 0, 0, 0, 0, 25];
    assert!(b.is_game_over());
    assert_eq!(b.finalize(), Some(Player::Two));
    assert_eq!(b.get_scores(), (20, 28));
    b.pits = vec![0, 0, 0, 0, 0, 0, 24, 0, 0, 0, 0, 0, 0, 24];
    assert_eq!(b.finalize(), None);
}

#[test]
fn chess_start_position_text() {
    let b = ChessBoard::new();
    assert_eq!(b.fen, "rnbqkbnr/pppppppp/8/8/8/8/PPPPPPPP/RNBQKBNR w KQkq - 0 1");
    assert_eq!(b.get_piece(0), 'r');
    assert_eq!(b.get_piece(60), 'K');
    assert_eq!(b.get_piece(64), ' ');
}

#[test]
fn chess_e4_e5() {
    let mut b = ChessBoard::new();
    assert!(b.make_move("e2e4", true));
    assert_eq!(b.en_passant, 44);
    assert_eq!(b.fen, "rnbqkbnr/pppppppp/8/8/4P3/8/PPPP1PPP/RNBQKBNR b KQkq e3 0 1");
    assert!(b.make_move("e7e5", false));
    assert_eq!(b.halfmove, 0);
    assert_eq!(b.fullmove, 2);
    assert!(b.white_turn);
    assert_eq!(b.get_piece(36), 'P');
    assert_eq!(b.get_piece(28), 'p');
    assert_eq!(b.get_piece(52), ' ');
    assert_eq!(b.get_piece(12), ' ');
    assert_eq!(b.fen, "rnbqkbnr/pppp1ppp/8/4p3/4P3/8/PPPP1PPP/RNBQKBNR w KQkq e6 0 2");
    assert_eq!(b.moves, vec!["e2e4".to_string(), "e7e5".to_string()]);
}

#[test]
fn chess_rejects_wrong_turn_wrong_piece_and_bad_text() {
    let mut b = ChessBoard::new();
    assert!(!b.make_move("e7e5", false));
    assert!(!b.make_move("e7e5", true));
    assert!(!b.make_move("e3e4", true));
    assert!(!b.make_move("e2", true));
    assert!(!b.make_move("z2e4", true));
    assert_eq!(b.fen, "rnbqkbnr/pppppppp/8/8/8/8/PPPPPPPP/RNBQKBNR w KQkq - 0 1");
    assert!(b.moves.is_empty());
}

#[test]
fn chess_knight_move_counts_halfmoves() {
    let mut b = ChessBoard::new();
    assert!(b.make_move("g1f3", true));
    assert_eq!(b.halfmove, 1);
    assert_eq!(b.en_passant, -1);
    assert_eq!(b.fen, "rnbqkbnr/pppppppp/8/8/8/5N2/PPPPPPPP/RNBQKB1R b KQkq - 1 1");
}

#[test]
fn chess_kingside_castle_moves_rook_and_drops_rights() {
    let mut b = ChessBoard::new();
    b.set_piece(61, ' ');
    b.set_piece(62, ' ');
    assert!(b.make_move("e1g1", true));
    assert_eq!(b.get_piece(62), 'K');
    assert_eq!(b.get_piece(61), 'R');
    assert_eq!(b.get_piece(63), ' ');
    assert_eq!(b.get_piece(60), ' ');
    assert_eq!(b.castling, vec![false, false, true, true]);
    assert_eq!(b.fen, "rnbqkbnr/pppppppp/8/8/8/8/PPPPPPPP/RNBQ1RK1 b kq - 1 1");
}

#[test]
fn chess_promotion_defaults_to_queen() {
    let mut b = ChessBoard::new();
    for i in 0..64 {
        b.set_piece(i, ' ');
    }
    b.set_piece(8, 'P');
    b.set_piece(4, 'k');
    b.set_piece(60, 'K');
    assert!(b.make_move("a7a8", true));
    assert_eq!(b.get_piece(0), 'Q');
    assert!(b.make_move("e8d8", false));
    assert!(b.make_move("a8a1n", true));
    assert_eq!(b.get_piece(56), 'Q');
}

#[test]
fn chess_en_passant_capture_removes_pawn() {
    let mut b = ChessBoard::new();
    assert!(b.make_move("e2e4", true));
    assert!(b.make_move("a7a6", false));
    assert!(b.make_move("e4e5", true));
    assert!(b.make_move("d7d5", false));
    assert_eq!(b.en_passant, 19);
    assert!(b.make_move("e5d6", true));
    assert_eq!(b.get_piece(19), 'P');
    assert_eq!(b.get_piece(27), ' ');
    assert_eq!(b.en_passant, -1);
}

#[test]
fn connect_four_vertical_win_and_full_column() {
    let mut b = ConnectFourBoard::new();
    for i in 0..3 {
        assert_eq!(b.drop_piece(0, Player::One), i * 2);
        assert_eq!(b.drop_piece(0, Player::Two), i * 2 + 1);
    }
    assert_eq!(b.drop_piece(0, Player::One), -1);
    assert_eq!(b.moves.len(), 6);
    assert_eq!(b.drop_piece(7, Player::One), -1);
    assert_eq!(b.check_winner(), None);
    for _ in 0..4 {
        b.drop_piece(3, Player::Two);
    }
    assert_eq!(b.check_winner(), Some(Player::Two));
    assert_eq!(b.get_cell(3, 3), Some(Player::Two));
    assert_eq!(b.get_cell(6, 3), None);
}

#[test]
fn connect_four_diagonal_win() {
    let mut b = ConnectFourBoard::new();
    // Player one on (0,0), (1,1), (2,2), (3,3) with fillers below.
    b.drop_piece(0, Player::One);
    b.drop_piece(1, Player::Two);
    b.drop_piece(1, Player::One);
    b.drop_piece(2, Player::Two);
    b.drop_piece(2, Player::Two);
    b.drop_piece(2, Player::One);
    b.drop_piece(3, Player::Two);
    b.drop_piece(3, Player::Two);
    b.drop_piece(3, Player::Two);
    assert_eq!(b.check_winner(), None);
    b.drop_piece(3, Player::One);
    assert_eq!(b.check_winner(), Some(Player::One));
    assert!(!b.is_full());
}

#[test]
fn connect_four_full_board() {
    let mut b = ConnectFourBoard::new();
    for col in 0..7u8 {
        for row in 0..6 {
            let p = if (row / 2 + col as i32) % 2 == 0 { Player::One } else { Player::Two };
            b.drop_piece(col, p);
        }
    }
    assert!(b.is_full());
    assert_eq!(b.moves.len(), 42);
}

#[test]
fn reversi_four_opening_placements() {
    let b = ReversiBoard::new();
    let legal: Vec<u8> = (0..64u8).filter(|&p| b.is_valid_move(p, Player::One)).collect();
    assert_eq!(legal, vec![19, 26, 37, 44]);
    assert!(b.has_valid_moves(Player::One));
    assert_eq!(b.count_pieces(), (2, 2));
    assert_eq!(b.get_winner(), None);
}

#[test]
fn reversi_placement_flips_and_rejections() {
    let mut b = ReversiBoard::new();
    assert_eq!(b.make_move(18, Player::One), 0);
    assert_eq!(b.make_move(27, Player::One), 0);
    assert_eq!(b.make_move(64, Player::One), 0);
    assert_eq!(b.make_move(19, Player::One), 1);
    assert_eq!(b.cells[19], 1);
    assert_eq!(b.cells[27], 1);
    assert_eq!(b.count_pieces(), (4, 1));
    assert_eq!(b.moves, vec![19]);
    assert_eq!(b.get_winner(), Some(Player::One));
}

#[test]
fn reversi_two_passes_end_game() {
    let mut b = ReversiBoard::new();
    assert!(!b.is_game_over());
    b.pass();
    b.pass();
    assert_eq!(b.consecutive_passes, 2);
    assert!(b.is_game_over());
}

#[test]
fn gomoku_five_in_a_row() {
    let mut b = GomokuBoard::new();
    for c in 0..4u8 {
        assert!(b.make_move(c, Player::One));
    }
    assert_eq!(b.check_winner(), None);
    assert!(!b.make_move(3, Player::Two));
    assert!(!b.make_move(225, Player::Two));
    assert!(b.make_move(4, Player::One));
    assert_eq!(b.check_winner(), Some(Player::One));
}

#[test]
fn gomoku_anti_diagonal() {
    let mut b = GomokuBoard::new();
    // (4,0), (3,1), (2,2), (1,3), (0,4)
    for k in 0..5u8 {
        let pos = (4 - k) * 15 + k;
        assert!(b.make_move(pos, Player::Two));
    }
    assert_eq!(b.check_winner(), Some(Player::Two));
    assert!(!b.is_full());
}

const FLEET: &str = "1,0,h;2,10,h;3,20,h;4,30,h;5,40,h";

#[test]
fn battleship_setup_then_sink() {
    let mut b = BattleshipBoard::new();
    assert_eq!(b.attack(Player::One, 0), (false, 0));
    assert!(b.place_ships(Player::One, FLEET));
    assert!(b.setup_phase);
    assert!(b.place_ships(Player::Two, "1,0,v;2,1,v;3,2,v;4,3,v;5,4,v"));
    assert!(!b.setup_phase);
    assert_eq!(b.p2_ships[40], 1);
    assert_eq!(b.p2_ships[4], 5);
    assert_eq!(b.attack(Player::One, 4), (true, 0));
    assert_eq!(b.attack(Player::One, 4), (false, 0));
    assert_eq!(b.attack(Player::One, 14), (true, 5));
    assert_eq!(b.ships_sunk, vec![0, 1]);
    assert_eq!(b.attack(Player::Two, 99), (false, 0));
    assert_eq!(b.p1_hits[99], 1);
    assert_eq!(b.moves, vec![4, 14, 99]);
    assert_eq!(b.check_winner(), None);
}

#[test]
fn battleship_all_ships_sunk_wins() {
    let mut b = BattleshipBoard::new();
    assert!(b.place_ships(Player::One, FLEET));
    assert!(b.place_ships(Player::Two, FLEET));
    let cells: Vec<u8> = vec![0, 1, 2, 3, 4, 10, 11, 12, 13, 20, 21, 22, 30, 31, 32, 40, 41];
    let mut sunk = Vec::new();
    for &c in &cells {
        let (hit, id) = b.attack(Player::One, c);
        assert!(hit);
        if id != 0 {
            sunk.push(id);
        }
    }
    assert_eq!(sunk, vec![1, 2, 3, 4, 5]);
    assert_eq!(b.check_winner(), Some(Player::One));
    assert!(!b.place_ships(Player::Two, FLEET));
    assert!(b.is_well_formed());
}

#[test]
fn battleship_bad_layouts_are_refused() {
    let mut b = BattleshipBoard::new();
    assert!(!b.place_ships(Player::One, "1,0,h;2,2,v"));
    assert!(!b.place_ships(Player::One, "1,7,h"));
    assert!(!b.place_ships(Player::One, "2,70,v"));
    assert!(!b.place_ships(Player::One, "1,0"));
    assert!(!b.place_ships(Player::One, ""));
    assert!(!b.place_ships(Player::One, "6,0,h"));
    assert!(!b.place_ships(Player::One, "x,0,h"));
    assert!(!b.place_ships(Player::One, "1,100,h"));
    assert!(!b.p1_ready);
    assert!(b.p1_ships.iter().all(|&c| c == 0));
    assert!(!b.place_ships(Player::One, "5,0,h"));
    assert!(!b.place_ships(Player::One, "1,0,h;1,10,h;3,20,h;4,30,h;5,40,h"));
    assert!(!b.place_ships(Player::One, "1,0,h;2,10,h;3,20,h;4,30,h;5,40,x"));
    assert!(!b.place_ships(Player::One, "1,0,h;2,10,h;3,20,h;4,30,h;5,40,h;5,60,h"));
    assert!(!b.p1_ready);
    assert!(b.place_ships(Player::One, "+1,05,v;2,0,h;3,20,h;4,30,h;5,41,h"));
    assert_eq!(b.p1_ships[5], 1);
    assert_eq!(b.p1_ships[45], 1);
    assert_eq!(b.p1_ships[55], 0);
    assert_eq!(b.p1_ships[41], 5);
}

#[test]
fn mancala_stones_stay_at_48() {
    let mut b = MancalaBoard::new();
    let script = [(2u8, Player::One), (3, Player::One), (0, Player::Two), (5, Player::One), (4, Player::Two), (1, Player::One)];
    for (pit, p) in script {
        b.make_move(pit, p);
        assert_eq!(b.pits.iter().map(|&x| x as u32).sum::<u32>(), 48);
    }
    b.finalize();
    assert_eq!(b.pits.iter().map(|&x| x as u32).sum::<u32>(), 48);
}

#[test]
fn connect_four_discs_match_moves() {
    let mut b = ConnectFourBoard::new();
    for c in [3u8, 3, 4, 9, 2, 3, 3, 3, 3, 3] {
        b.drop_piece(c, Player::One);
        let discs = b.cells.iter().filter(|c| c.player.is_some()).count();
        assert_eq!(discs, b.moves.len());
    }
    assert_eq!(b.moves.len(), 8);
    assert!(b.is_well_formed());
}

#[test]
fn replay_gives_identical_boards() {
    let play = || {
        let mut c = ChessBoard::new();
        for (m, w) in [("d2d4", true), ("g8f6", false), ("c1g5", true), ("e7e6", false)] {
            assert!(c.make_move(m, w));
        }
        let mut r = ReversiBoard::new();
        for (pos, p) in [(19u8, Player::One), (18, Player::Two), (17, Player::One)] {
            assert!(r.make_move(pos, p) > 0);
        }
        (c.board, c.fen, c.castling, c.moves, r.cells, r.moves)
    };
    assert_eq!(play(), play());
}
