use chaincycles::chain::{apply_rewards, distribute_rewards, register, update_profile};
use chaincycles::{
    ChainCyclesError, ChainCyclesResponse, ChainCyclesState, Effect, GameBoard, GameRoom,
    GameStatus, GameType, Message, MoveData, Outgoing, Player, PlayerProfile,
};

const HOST: &str = "host-chain";
const GUEST: &str = "guest-chain";

fn profile(name: &str, wallet: &str) -> PlayerProfile {
    register(None, wallet.to_string(), name.to_string(), 7).unwrap()
}

fn error_text(r: &ChainCyclesResponse) -> String {
    match r {
        ChainCyclesResponse::Error(e) => e.error.clone(),
        _ => panic!("expected an error response"),
    }
}

fn col(c: i32) -> MoveData {
    MoveData { primary: c, secondary: None }
}

/// Host and guest chains with a Connect Four room that has started.
fn started_room() -> (ChainCyclesState, ChainCyclesState) {
    let alice = profile("alice", "wa");
    let bob = profile("bob", "wb");
    let mut host = ChainCyclesState::new(None);
    let mut guest = ChainCyclesState::new(None);
    let r = host.handle_create_room(Some(&alice), HOST.to_string(), "wa".to_string(), GameType::ConnectFour, 1000);
    assert!(matches!(r, ChainCyclesResponse::RoomCreated(ref c) if c.host_chain_id == HOST));
    let (r, out) = guest.handle_join_room(Some(&bob), GUEST.to_string(), "wb".to_string(), HOST.to_string(), true);
    assert!(matches!(r, ChainCyclesResponse::RoomJoined(_)));
    let out = out.unwrap();
    let msg = match out {
        Outgoing::JoinRequest { to, joiner_chain_id, joiner_wallet, joiner_username } => {
            assert_eq!(to, HOST);
            Message::JoinRequest { joiner_chain_id, joiner_wallet, joiner_username }
        },
        _ => panic!("expected a join request"),
    };
    let effect = host.execute_message(msg, 2000);
    assert!(matches!(effect, Effect::Send(Outgoing::StateSync { ref to }) if to == GUEST));
    let snapshot = host.game_room.clone().unwrap();
    guest.execute_message(Message::GameStateSync { room: snapshot }, 2001);
    (host, guest)
}

#[test]
fn register_twice_is_refused() {
    let p = profile("alice", "wa");
    assert_eq!(p.coins, 100);
    assert_eq!(p.created_at, 7);
    assert!(matches!(register(Some(&p), "wa".to_string(), "x".to_string(), 8), Err(ChainCyclesError::AlreadyRegistered)));
    assert!(matches!(update_profile(None, None), Err(ChainCyclesError::NotRegistered)));
    let renamed = update_profile(Some(p), Some("alicia".to_string())).unwrap();
    assert_eq!(renamed.username, "alicia");
}

#[test]
fn rewards_add_up_and_saturate() {
    let mut p = profile("alice", "wa");
    apply_rewards(&mut p, 75, 40);
    assert_eq!((p.xp, p.coins, p.total_games), (75, 140, 1));
    p.xp = u64::MAX - 1;
    apply_rewards(&mut p, 10, 0);
    assert_eq!(p.xp, u64::MAX);
}

#[test]
fn create_room_rules() {
    let alice = profile("alice", "wa");
    let mut s = ChainCyclesState::new(None);
    let r = s.handle_create_room(None, HOST.to_string(), "wa".to_string(), GameType::Chess, 5);
    assert_eq!(error_text(&r), "NotRegistered");
    s.handle_create_room(Some(&alice), HOST.to_string(), "wa".to_string(), GameType::Reversi, 5);
    assert!(s.is_hosting);
    let room = s.game_room.as_ref().unwrap();
    assert_eq!(room.status, GameStatus::WaitingForPlayer);
    assert_eq!(room.usernames, vec!["alice".to_string()]);
    assert!(matches!(room.board, GameBoard::Reversi(_)));
    let r = s.handle_create_room(Some(&alice), HOST.to_string(), "wa".to_string(), GameType::Chess, 6);
    assert_eq!(error_text(&r), "RoomAlreadyExists");
}

#[test]
fn joining_own_room_is_refused() {
    let alice = profile("alice", "wa");
    let mut s = ChainCyclesState::new(None);
    s.handle_create_room(Some(&alice), HOST.to_string(), "wa".to_string(), GameType::Gomoku, 5);
    let (r, out) = s.handle_join_room(Some(&alice), HOST.to_string(), "wa".to_string(), HOST.to_string(), true);
    assert_eq!(error_text(&r), "CannotJoinOwnRoom");
    assert!(out.is_none());
    let (r, _) = s.handle_join_room(Some(&alice), HOST.to_string(), "wa".to_string(), "elsewhere".to_string(), false);
    assert_eq!(error_text(&r), "Invalid chain ID format");
    let (r, _) = s.handle_join_room(None, HOST.to_string(), "wa".to_string(), GUEST.to_string(), true);
    assert_eq!(error_text(&r), "NotRegistered");
    assert!(s.recent_rooms.is_empty());
}

#[test]
fn join_request_to_full_room_is_ignored() {
    let mut room = GameRoom::new(HOST.to_string(), "wa".to_string(), "alice".to_string(), GameType::ConnectFour, 1);
    room.player_chain_ids.push(GUEST.to_string());
    room.player_wallets.push("wb".to_string());
    room.usernames.push("bob".to_string());
    let mut s = ChainCyclesState::new(None);
    s.game_room = Some(room);
    s.is_hosting = true;
    let out = s.handle_join_request("third".to_string(), "wc".to_string(), "carol".to_string(), 9);
    assert!(out.is_none());
    let room = s.game_room.as_ref().unwrap();
    assert_eq!(room.player_chain_ids.len(), 2);
    assert_eq!(room.status, GameStatus::WaitingForPlayer);
    assert_eq!(room.last_move_at, 0);
}

#[test]
fn recent_rooms_are_bounded_and_deduplicated() {
    let bob = profile("bob", "wb");
    let mut s = ChainCyclesState::new(None);
    for i in 0..12 {
        s.handle_join_room(Some(&bob), GUEST.to_string(), "wb".to_string(), format!("room{}", i), true);
    }
    s.handle_join_room(Some(&bob), GUEST.to_string(), "wb".to_string(), "room5".to_string(), true);
    assert_eq!(s.recent_rooms.len(), 10);
    assert_eq!(s.recent_rooms[0], "room5");
    assert_eq!(s.recent_rooms[1], "room11");
    assert_eq!(s.recent_rooms[9], "room2");
    assert_eq!(s.recent_rooms.iter().filter(|r| *r == "room5").count(), 1);
    assert_eq!(s.joined_host_chain, Some("room5".to_string()));
}

#[test]
fn moves_alternate_and_sync_to_the_opponent() {
    let (mut host, mut guest) = started_room();
    assert_eq!(host.game_room.as_ref().unwrap().status, GameStatus::InProgress);
    let (r, out) = host.handle_make_move(&"wa".to_string(), &col(3), 3000);
    assert!(matches!(r, ChainCyclesResponse::Move(ref m) if m.success && !m.game_ended && m.message == "Move accepted"));
    assert_eq!(out.len(), 1);
    assert!(matches!(out[0], Outgoing::MoveSync { ref to } if to == GUEST));
    let room = host.game_room.as_ref().unwrap();
    assert_eq!(room.current_turn, Player::Two);
    assert_eq!(room.last_move_at, 3000);
    let (r, _) = host.handle_make_move(&"wa".to_string(), &col(3), 3001);
    assert_eq!(error_text(&r), "NotYourTurn");
    let (r, _) = host.handle_make_move(&"wz".to_string(), &col(3), 3001);
    assert_eq!(error_text(&r), "NotInRoom");
    guest.execute_message(Message::GameMoveSync { room: host.game_room.clone().unwrap() }, 3002);
    let (r, _) = guest.handle_make_move(&"wb".to_string(), &col(9), 3003);
    assert_eq!(error_text(&r), "InvalidMove");
    let (r, out) = guest.handle_make_move(&"wb".to_string(), &col(4), 3004);
    assert!(matches!(r, ChainCyclesResponse::Move(_)));
    assert!(matches!(out[0], Outgoing::MoveSync { ref to } if to == HOST));
}

#[test]
fn winning_move_finishes_and_rewards_both() {
    let (mut host, mut guest) = started_room();
    for _ in 0..3 {
        host.handle_make_move(&"wa".to_string(), &col(0), 10);
        guest.execute_message(Message::GameMoveSync { room: host.game_room.clone().unwrap() }, 11);
        guest.handle_make_move(&"wb".to_string(), &col(1), 12);
        host.execute_message(Message::GameMoveSync { room: guest.game_room.clone().unwrap() }, 13);
    }
    let (r, out) = host.handle_make_move(&"wa".to_string(), &col(0), 20);
    assert!(matches!(r, ChainCyclesResponse::Move(ref m)
        if m.game_ended && m.winner == Some(Player::One) && m.message == "Game ended"));
    let room = host.game_room.as_ref().unwrap();
    assert_eq!(room.status, GameStatus::Finished);
    assert_eq!(room.winner, Some(Player::One));
    assert_eq!(out.len(), 3);
    assert!(matches!(out[1], Outgoing::Reward { ref to, xp_earned: 75, coins_earned: 40, is_winner: true, .. } if to == HOST));
    assert!(matches!(out[2], Outgoing::Reward { ref to, xp_earned: 30, coins_earned: 8, is_winner: false, .. } if to == GUEST));
    let (r, _) = host.handle_make_move(&"wb".to_string(), &col(2), 21);
    assert_eq!(error_text(&r), "GameNotInProgress");
}

#[test]
fn draw_rewards_are_shared() {
    let mut room = GameRoom::new(HOST.to_string(), "wa".to_string(), "alice".to_string(), GameType::Mancala, 1);
    room.add_joiner(GUEST.to_string(), "wb".to_string(), "bob".to_string(), 2);
    room.status = GameStatus::Draw;
    let out = distribute_rewards(&room);
    assert_eq!(out.len(), 2);
    for o in &out {
        assert!(matches!(o, Outgoing::Reward { xp_earned: 50, coins_earned: 25, is_winner: false, .. }));
    }
}

#[test]
fn battleship_setup_ignores_turn() {
    let alice = profile("alice", "wa");
    let mut host = ChainCyclesState::new(None);
    host.handle_create_room(Some(&alice), HOST.to_string(), "wa".to_string(), GameType::Battleship, 1);
    host.handle_join_request(GUEST.to_string(), "wb".to_string(), "bob".to_string(), 2);
    let fleet = MoveData { primary: 0, secondary: Some("1,0,h;2,10,h;3,20,h;4,30,h;5,40,h".to_string()) };
    let (r, _) = host.handle_make_move(&"wb".to_string(), &fleet, 3);
    assert!(matches!(r, ChainCyclesResponse::Move(_)));
    assert_eq!(host.game_room.as_ref().unwrap().current_turn, Player::One);
    let (r, _) = host.handle_make_move(&"wa".to_string(), &fleet, 4);
    assert!(matches!(r, ChainCyclesResponse::Move(_)));
    assert_eq!(host.game_room.as_ref().unwrap().current_turn, Player::One);
    assert!(!host.game_room.as_ref().unwrap().board.is_setup());
    let (r, _) = host.handle_make_move(&"wb".to_string(), &col(0), 5);
    assert_eq!(error_text(&r), "NotYourTurn");
    let (r, _) = host.handle_make_move(&"wa".to_string(), &col(0), 6);
    assert!(matches!(r, ChainCyclesResponse::Move(_)));
    let (r, _) = host.handle_make_move(&"wb".to_string(), &col(0), 7);
    assert!(matches!(r, ChainCyclesResponse::Move(_)));
    let (r, _) = host.handle_make_move(&"wa".to_string(), &col(0), 8);
    assert_eq!(error_text(&r), "InvalidMove");
    let (r, _) = host.handle_make_move(&"wa".to_string(), &col(100), 9);
    assert_eq!(error_text(&r), "InvalidMove");
}

#[test]
fn leaving_clears_and_peer_marks_abandoned() {
    let (mut host, mut guest) = started_room();
    let (r, out) = guest.handle_leave_room(GUEST.to_string(), "wb".to_string());
    assert!(matches!(r, ChainCyclesResponse::Success(ref s) if s.message == "Left room"));
    assert!(guest.game_room.is_none());
    assert!(guest.joined_host_chain.is_none());
    let (to, msg) = match out.unwrap() {
        Outgoing::PlayerLeft { to, player_chain_id, player_wallet } => (to, Message::PlayerLeft { player_chain_id, player_wallet }),
        _ => panic!("expected a leave notice"),
    };
    assert_eq!(to, HOST);
    host.execute_message(msg, 50);
    assert_eq!(host.game_room.as_ref().unwrap().status, GameStatus::Abandoned);
    let (_, out) = host.handle_leave_room(HOST.to_string(), "wa".to_string());
    assert!(matches!(out, Some(Outgoing::PlayerLeft { ref to, .. }) if to == GUEST));
    assert!(!host.is_hosting);
}

#[test]
fn leave_notice_leaves_waiting_room_alone() {
    let alice = profile("alice", "wa");
    let mut s = ChainCyclesState::new(None);
    s.handle_create_room(Some(&alice), HOST.to_string(), "wa".to_string(), GameType::Chess, 5);
    let e = s.execute_message(Message::PlayerLeft { player_chain_id: GUEST.to_string(), player_wallet: "wb".to_string() }, 6);
    assert!(matches!(e, Effect::Nothing));
    assert_eq!(s.game_room.as_ref().unwrap().status, GameStatus::WaitingForPlayer);
    let r = s.handle_clear_room();
    assert!(matches!(r, ChainCyclesResponse::Success(ref m) if m.message == "Room cleared"));
    assert!(s.game_room.is_none() && !s.is_hosting);
}

#[test]
fn reward_message_is_handed_back() {
    let mut s = ChainCyclesState::new(None);
    let e = s.execute_message(Message::RewardSync { player_wallet: "wa".to_string(), xp_earned: 5, coins_earned: 6, is_winner: true }, 1);
    assert!(matches!(e, Effect::Reward { ref player_wallet, xp_earned: 5, coins_earned: 6 } if player_wallet == "wa"));
}

#[test]
fn error_texts() {
    let r = ChainCyclesError::InternalError("disk \"full\"".to_string()).into_response();
    assert_eq!(error_text(&r), "InternalError(\"disk \\\"full\\\"\")");
    assert_eq!(error_text(&ChainCyclesError::RoomNotFound.into_response()), "RoomNotFound");
    let mut s = ChainCyclesState::new(None);
    let (r, out) = s.handle_make_move(&"wa".to_string(), &col(0), 1);
    assert_eq!(error_text(&r), "RoomNotFound");
    assert!(out.is_empty());
}

#[test]
fn chess_room_plays_uci_moves() {
    let mut room = GameRoom::new(HOST.to_string(), "wa".to_string(), "alice".to_string(), GameType::Chess, 1);
    room.add_joiner(GUEST.to_string(), "wb".to_string(), "bob".to_string(), 2);
    let e4 = MoveData { primary: 0, secondary: Some("e2e4".to_string()) };
    let v = room.apply_move(&"wa".to_string(), &e4, 3).unwrap();
    assert!(!v.ended && v.switch_turn);
    assert_eq!(room.current_turn, Player::Two);
    let none = MoveData { primary: 0, secondary: None };
    assert!(matches!(room.apply_move(&"wb".to_string(), &none, 4), Err(ChainCyclesError::InvalidMove)));
    match &room.board {
        GameBoard::Chess(b) => assert_eq!(b.moves, vec!["e2e4".to_string()]),
        _ => panic!("expected a chess board"),
    }
}

#[test]
fn reversi_pass_only_without_placements() {
    let mut room = GameRoom::new(HOST.to_string(), "wa".to_string(), "alice".to_string(), GameType::Reversi, 1);
    room.add_joiner(GUEST.to_string(), "wb".to_string(), "bob".to_string(), 2);
    let pass = MoveData { primary: -1, secondary: None };
    assert!(matches!(room.apply_move(&"wa".to_string(), &pass, 3), Err(ChainCyclesError::InvalidMove)));
    let v = room.apply_move(&"wa".to_string(), &col(19), 4).unwrap();
    assert!(!v.ended && v.switch_turn);
}

#[test]
fn mancala_extra_turn_keeps_mover() {
    let mut room = GameRoom::new(HOST.to_string(), "wa".to_string(), "alice".to_string(), GameType::Mancala, 1);
    room.add_joiner(GUEST.to_string(), "wb".to_string(), "bob".to_string(), 2);
    let v = room.apply_move(&"wa".to_string(), &col(2), 3).unwrap();
    assert!(!v.switch_turn);
    assert_eq!(room.current_turn, Player::One);
    let v = room.apply_move(&"wa".to_string(), &col(0), 4).unwrap();
    assert!(v.switch_turn);
    assert_eq!(room.current_turn, Player::Two);
}

#[test]
fn every_error_names_itself() {
    let cases = vec![
        (ChainCyclesError::NotAuthenticated, "NotAuthenticated"),
        (ChainCyclesError::NotRegistered, "NotRegistered"),
        (ChainCyclesError::AlreadyRegistered, "AlreadyRegistered"),
        (ChainCyclesError::RoomAlreadyExists, "RoomAlreadyExists"),
        (ChainCyclesError::RoomNotFound, "RoomNotFound"),
        (ChainCyclesError::RoomFull, "RoomFull"),
        (ChainCyclesError::GameNotInProgress, "GameNotInProgress"),
        (ChainCyclesError::NotYourTurn, "NotYourTurn"),
        (ChainCyclesError::InvalidMove, "InvalidMove"),
        (ChainCyclesError::NotInRoom, "NotInRoom"),
        (ChainCyclesError::CannotJoinOwnRoom, "CannotJoinOwnRoom"),
        (ChainCyclesError::GameAlreadyStarted, "GameAlreadyStarted"),
    ];
    for (e, text) in cases {
        assert_eq!(error_text(&e.into_response()), text);
    }
}

#[test]
fn queries_answer_from_the_room() {
    let (host, _guest) = started_room();
    assert!(host.is_my_turn(&"wa".to_string()));
    assert!(!host.is_my_turn(&"wb".to_string()));
    assert!(host.can_move(&"wa".to_string()));
    assert_eq!(host.player_index(&"wb".to_string()), Some(1));
    assert_eq!(host.player_index(&"wz".to_string()), None);
    assert_eq!(host.connect_four_valid_columns(), Some(vec![0, 1, 2, 3, 4, 5, 6]));
    assert_eq!(host.reversi_valid_moves(), None);
    assert_eq!(host.mancala_stores(), None);

    let alice = profile("alice", "wa");
    let mut m = ChainCyclesState::new(None);
    m.handle_create_room(Some(&alice), HOST.to_string(), "wa".to_string(), GameType::Mancala, 1);
    assert!(!m.is_my_turn(&"wa".to_string()));
    assert_eq!(m.mancala_player_pits(0), Some(vec![4; 6]));
    assert_eq!(m.mancala_stores(), Some(vec![0, 0]));

    let mut r = ChainCyclesState::new(None);
    r.handle_create_room(Some(&alice), HOST.to_string(), "wa".to_string(), GameType::Reversi, 1);
    assert_eq!(r.reversi_valid_moves(), Some(vec![19, 26, 37, 44]));
}

#[test]
fn out_of_range_indices_are_invalid() {
    let (mut host, _guest) = started_room();
    let before = host.game_room.clone().unwrap().last_move_at;
    for bad in [256, 7, -1, -256] {
        let (r, out) = host.handle_make_move(&"wa".to_string(), &col(bad), 50);
        assert_eq!(error_text(&r), "InvalidMove");
        assert!(out.is_empty());
    }
    assert_eq!(host.game_room.as_ref().unwrap().last_move_at, before);

    let mut room = GameRoom::new(HOST.to_string(), "wa".to_string(), "alice".to_string(), GameType::Reversi, 1);
    room.add_joiner(GUEST.to_string(), "wb".to_string(), "bob".to_string(), 2);
    for bad in [-2, 64, 19 + 256] {
        assert!(matches!(room.apply_move(&"wa".to_string(), &col(bad), 3), Err(ChainCyclesError::InvalidMove)));
    }
    let mut room = GameRoom::new(HOST.to_string(), "wa".to_string(), "alice".to_string(), GameType::Mancala, 1);
    room.add_joiner(GUEST.to_string(), "wb".to_string(), "bob".to_string(), 2);
    assert!(matches!(room.apply_move(&"wa".to_string(), &col(2 + 256), 3), Err(ChainCyclesError::InvalidMove)));
    let mut room = GameRoom::new(HOST.to_string(), "wa".to_string(), "alice".to_string(), GameType::Gomoku, 1);
    room.add_joiner(GUEST.to_string(), "wb".to_string(), "bob".to_string(), 2);
    assert!(matches!(room.apply_move(&"wa".to_string(), &col(225), 3), Err(ChainCyclesError::InvalidMove)));
    assert!(room.apply_move(&"wa".to_string(), &col(224), 4).is_ok());
}
