use vstd::prelude::*;
use vstd::string::*;
use crate::types::{GameType, GameStatus, MoveData, Player};
use crate::room::{GameRoom, MoveVerdict};
use crate::messages::{
    ChainCyclesError, ChainCyclesResponse, ErrorResponse, Message, MoveResponse, PlayerProfile,
    RoomCreatedResponse, RoomJoinedResponse, Rewards, SuccessResponse, error_text,
};

verus! {

/// Most rooms kept in the recently-joined list.
pub const RECENT_ROOMS_MAX: usize = 10;

/// Coins a new player starts with.
pub const STARTING_COINS: u64 = 100;

/// What one chain keeps of the room protocol: at most one room, whether
/// it hosts it, the host it joined, and the rooms it joined lately (most
/// recent first). Player profiles live in the chain's profile store.
#[derive(Debug, Clone)]
pub struct ChainCyclesState {
    pub hub_chain_id: Option<String>,
    pub game_room: Option<GameRoom>,
    pub is_hosting: bool,
    pub joined_host_chain: Option<String>,
    pub recent_rooms: Vec<String>,
}

/// A message this chain is to send. `StateSync` and `MoveSync` carry the
/// chain's room as it stands once the operation is done.
#[derive(Debug, Clone)]
pub enum Outgoing {
    JoinRequest { to: String, joiner_chain_id: String, joiner_wallet: String, joiner_username: String },
    StateSync { to: String },
    MoveSync { to: String },
    PlayerLeft { to: String, player_chain_id: String, player_wallet: String },
    Reward { to: String, player_wallet: String, xp_earned: u64, coins_earned: u64, is_winner: bool },
}

/// What handling an incoming message asks of the chain besides its
/// room state.
#[derive(Debug, Clone)]
pub enum Effect {
    Nothing,
    Send(Outgoing),
    /// Add to the profile of `player_wallet`, if this chain has one.
    Reward { player_wallet: String, xp_earned: u64, coins_earned: u64 },
}

/// (winner xp, winner coins, loser xp, loser coins) for a game.
pub open spec fn reward_table(g: GameType) -> (u64, u64, u64, u64) {
    match g {
        GameType::Chess => (Rewards::CHESS_WINNER_XP, Rewards::CHESS_WINNER_COINS, Rewards::CHESS_LOSER_XP, Rewards::CHESS_LOSER_COINS),
        GameType::ConnectFour => (Rewards::CONNECT_FOUR_WINNER_XP, Rewards::CONNECT_FOUR_WINNER_COINS, Rewards::CONNECT_FOUR_LOSER_XP, Rewards::CONNECT_FOUR_LOSER_COINS),
        GameType::Reversi => (Rewards::REVERSI_WINNER_XP, Rewards::REVERSI_WINNER_COINS, Rewards::REVERSI_LOSER_XP, Rewards::REVERSI_LOSER_COINS),
        GameType::Gomoku => (Rewards::GOMOKU_WINNER_XP, Rewards::GOMOKU_WINNER_COINS, Rewards::GOMOKU_LOSER_XP, Rewards::GOMOKU_LOSER_COINS),
        GameType::Battleship => (Rewards::BATTLESHIP_WINNER_XP, Rewards::BATTLESHIP_WINNER_COINS, Rewards::BATTLESHIP_LOSER_XP, Rewards::BATTLESHIP_LOSER_COINS),
        GameType::Mancala => (Rewards::MANCALA_WINNER_XP, Rewards::MANCALA_WINNER_COINS, Rewards::MANCALA_LOSER_XP, Rewards::MANCALA_LOSER_COINS),
    }
}

/// (xp, coins, is winner) for seat `i` of a finished game: the winner's
/// and loser's amounts of the game, or the shared draw amounts.
pub open spec fn reward_for(g: GameType, winner: Option<Player>, i: int) -> (u64, u64, bool) {
    let (wx, wc, lx, lc) = reward_table(g);
    match winner {
        Some(w) => if w.spec_index() == i { (wx, wc, true) } else { (lx, lc, false) },
        None => (Rewards::DRAW_XP, Rewards::DRAW_COINS, false),
    }
}

/// `list` with every entry equal to `h` taken out, order kept.
pub open spec fn without(list: Seq<Seq<char>>, h: Seq<char>) -> Seq<Seq<char>>
    decreases list.len(),
{
    if list.len() == 0 {
        Seq::empty()
    } else {
        let w = without(list.drop_last(), h);
        if list.last() == h { w } else { w.push(list.last()) }
    }
}

/// The recent-rooms list after joining `h`: `h` in front, then the other
/// rooms in their order, keeping at most ten.
pub open spec fn recent_after(list: Seq<Seq<char>>, h: Seq<char>) -> Seq<Seq<char>> {
    let l = seq![h] + without(list, h);
    if l.len() > RECENT_ROOMS_MAX { l.subrange(0, RECENT_ROOMS_MAX as int) } else { l }
}

/// A room just opened on `chain` by `wallet` (named `username`), waiting
/// for a second player, with its game's board in the starting position.
pub open spec fn fresh_room(room: GameRoom, chain: String, wallet: String, username: String, game_type: GameType, now: u64) -> bool {
    &&& room.wf() && room.board.wf() && room.board.is_start()
    &&& room.host_chain_id == chain
    &&& room.player_chain_ids@ == seq![chain]
    &&& room.player_wallets@ == seq![wallet]
    &&& room.usernames@ == seq![username]
    &&& room.game_type == game_type
    &&& room.status == GameStatus::WaitingForPlayer
    &&& room.current_turn == Player::One
    &&& room.winner is None
    &&& room.end_reason is None
    &&& room.created_at == now
    &&& room.last_move_at == 0
}

/// Whether `r` is an error response with text `t`.
pub open spec fn is_error(r: ChainCyclesResponse, t: Seq<char>) -> bool {
    match r {
        ChainCyclesResponse::Error(e) => e.error@ == t,
        _ => false,
    }
}

/// Whether `r` is a plain success response with text `t`.
pub open spec fn is_success(r: ChainCyclesResponse, t: Seq<char>) -> bool {
    match r {
        ChainCyclesResponse::Success(s) => s.message@ == t,
        _ => false,
    }
}

pub open spec fn views(v: Seq<String>) -> Seq<Seq<char>> {
    v.map_values(|s: String| s@)
}

/// The reward messages for a finished room, one per seated player.
pub open spec fn rewards_of(room: GameRoom) -> Seq<Outgoing> {
    let n = if room.player_chain_ids@.len() < room.player_wallets@.len() {
        room.player_chain_ids@.len()
    } else {
        room.player_wallets@.len()
    };
    Seq::new(n, |i: int| {
        let (xp, coins, won) = reward_for(room.game_type, room.winner, i);
        Outgoing::Reward {
            to: room.player_chain_ids@[i],
            player_wallet: room.player_wallets@[i],
            xp_earned: xp,
            coins_earned: coins,
            is_winner: won,
        }
    })
}

/// Where the mover's snapshot goes: the other seat's chain, if listed.
pub open spec fn opponent_chain(room: GameRoom, seat: Player) -> Option<String> {
    let i: int = if seat == Player::One { 1 } else { 0 };
    if i < room.player_chain_ids@.len() {
        Some(room.player_chain_ids@[i])
    } else {
        None
    }
}

/// Messages after an accepted move: the snapshot to the opponent, then,
/// when the game ended, the rewards.
pub open spec fn move_messages(room: GameRoom, seat: Player, ended: bool) -> Seq<Outgoing> {
    let sync = match opponent_chain(room, seat) {
        Some(to) => seq![Outgoing::MoveSync { to }],
        None => Seq::empty(),
    };
    if ended { sync + rewards_of(room) } else { sync }
}

fn reward_amounts(g: GameType) -> (r: (u64, u64, u64, u64))
    ensures
        r == reward_table(g),
{
    match g {
        GameType::Chess => (Rewards::CHESS_WINNER_XP, Rewards::CHESS_WINNER_COINS, Rewards::CHESS_LOSER_XP, Rewards::CHESS_LOSER_COINS),
        GameType::ConnectFour => (Rewards::CONNECT_FOUR_WINNER_XP, Rewards::CONNECT_FOUR_WINNER_COINS, Rewards::CONNECT_FOUR_LOSER_XP, Rewards::CONNECT_FOUR_LOSER_COINS),
        GameType::Reversi => (Rewards::REVERSI_WINNER_XP, Rewards::REVERSI_WINNER_COINS, Rewards::REVERSI_LOSER_XP, Rewards::REVERSI_LOSER_COINS),
        GameType::Gomoku => (Rewards::GOMOKU_WINNER_XP, Rewards::GOMOKU_WINNER_COINS, Rewards::GOMOKU_LOSER_XP, Rewards::GOMOKU_LOSER_COINS),
        GameType::Battleship => (Rewards::BATTLESHIP_WINNER_XP, Rewards::BATTLESHIP_WINNER_COINS, Rewards::BATTLESHIP_LOSER_XP, Rewards::BATTLESHIP_LOSER_COINS),
        GameType::Mancala => (Rewards::MANCALA_WINNER_XP, Rewards::MANCALA_WINNER_COINS, Rewards::MANCALA_LOSER_XP, Rewards::MANCALA_LOSER_COINS),
    }
}

/// One reward message per seated player of a finished room, addressed to
/// that player's chain, in seat order.
pub fn distribute_rewards(room: &GameRoom) -> (r: Vec<Outgoing>)
    ensures
        r@.len() == if room.player_chain_ids@.len() < room.player_wallets@.len() {
            room.player_chain_ids@.len()
        } else {
            room.player_wallets@.len()
        },
        forall|i: int| 0 <= i < r@.len() ==> (#[trigger] r@[i] matches Outgoing::Reward { to, player_wallet, xp_earned, coins_earned, is_winner }
            && to == room.player_chain_ids@[i] && player_wallet == room.player_wallets@[i]
            && (xp_earned, coins_earned, is_winner) == reward_for(room.game_type, room.winner, i)),
        r@ == rewards_of(*room),
{
    let (winner_xp, winner_coins, loser_xp, loser_coins) = reward_amounts(room.game_type);
    let mut out: Vec<Outgoing> = Vec::new();
    let mut i: usize = 0;
    while i < room.player_chain_ids.len() && i < room.player_wallets.len()
        invariant
            0 <= i <= room.player_chain_ids@.len(),
            i <= room.player_wallets@.len(),
            out@.len() == i,
            (winner_xp, winner_coins, loser_xp, loser_coins) == reward_table(room.game_type),
            forall|k: int| 0 <= k < i ==> (#[trigger] out@[k] matches Outgoing::Reward { to, player_wallet, xp_earned, coins_earned, is_winner }
                && to == room.player_chain_ids@[k] && player_wallet == room.player_wallets@[k]
                && (xp_earned, coins_earned, is_winner) == reward_for(room.game_type, room.winner, k)),
        decreases room.player_chain_ids@.len() - i,
    {
        let (xp, coins, is_winner) = match room.winner {
            Some(w) => if w.index() == i {
                (winner_xp, winner_coins, true)
            } else {
                (loser_xp, loser_coins, false)
            },
            None => (Rewards::DRAW_XP, Rewards::DRAW_COINS, false),
        };
        out.push(Outgoing::Reward {
            to: room.player_chain_ids[i].clone(),
            player_wallet: room.player_wallets[i].clone(),
            xp_earned: xp,
            coins_earned: coins,
            is_winner,
        });
        i = i + 1;
    }
    assert(out@ =~= rewards_of(*room));
    out
}

/// A fresh profile for `wallet`; refused when the wallet already has one.
pub fn register(existing: Option<&PlayerProfile>, wallet: String, username: String, now: u64) -> (r: Result<PlayerProfile, ChainCyclesError>)
    ensures
        existing is Some ==> r == Err::<PlayerProfile, ChainCyclesError>(ChainCyclesError::AlreadyRegistered),
        existing is None ==> r == Ok::<PlayerProfile, ChainCyclesError>(PlayerProfile {
            username,
            wallet,
            total_wins: 0,
            total_losses: 0,
            total_draws: 0,
            total_games: 0,
            xp: 0,
            coins: STARTING_COINS,
            created_at: now,
        }),
{
    if existing.is_some() {
        return Err(ChainCyclesError::AlreadyRegistered);
    }
    Ok(PlayerProfile {
        username,
        wallet,
        total_wins: 0,
        total_losses: 0,
        total_draws: 0,
        total_games: 0,
        xp: 0,
        coins: STARTING_COINS,
        created_at: now,
    })
}

/// The profile with its name replaced when one is given; refused for an
/// unregistered wallet.
pub fn update_profile(existing: Option<PlayerProfile>, username: Option<String>) -> (r: Result<PlayerProfile, ChainCyclesError>)
    ensures
        existing is None ==> r == Err::<PlayerProfile, ChainCyclesError>(ChainCyclesError::NotRegistered),
        existing matches Some(p) ==> r == Ok::<PlayerProfile, ChainCyclesError>(match username {
            Some(n) => PlayerProfile { username: n, ..p },
            None => p,
        }),
{
    let mut profile = match existing {
        Some(p) => p,
        None => return Err(ChainCyclesError::NotRegistered),
    };
    if let Some(name) = username {
        profile.username = name;
    }
    Ok(profile)
}

/// Add a reward to a profile and count the game; sums stop at the
/// largest value instead of wrapping.
pub fn apply_rewards(profile: &mut PlayerProfile, xp: u64, coins: u64)
    ensures
        *final(profile) == (PlayerProfile {
            xp: old(profile).xp.saturating_add(xp),
            coins: old(profile).coins.saturating_add(coins),
            total_games: old(profile).total_games.saturating_add(1),
            ..*old(profile)
        }),
{
    profile.xp = profile.xp.saturating_add(xp);
    profile.coins = profile.coins.saturating_add(coins);
    profile.total_games = profile.total_games.saturating_add(1);
}

fn success(text: &str) -> (r: ChainCyclesResponse)
    ensures
        is_success(r, text@),
{
    ChainCyclesResponse::Success(SuccessResponse { message: String::from_str(text) })
}

/// `list` with `host` moved, or added, to the front, keeping at most ten.
fn bring_to_front(list: &Vec<String>, host: &String) -> (r: Vec<String>)
    ensures
        views(r@) == recent_after(views(list@), host@),
{
    let ghost lv = views(list@);
    let mut out: Vec<String> = Vec::new();
    out.push(host.clone());
    let mut i: usize = 0;
    while i < list.len()
        invariant
            lv == views(list@),
            0 <= i <= list@.len(),
            views(out@) == seq![host@] + without(lv.subrange(0, i as int), host@),
        decreases list@.len() - i,
    {
        let ghost before = views(out@);
        assert(lv.subrange(0, i + 1).drop_last() =~= lv.subrange(0, i as int));
        assert(lv.subrange(0, i + 1).last() == list@[i as int]@);
        if list[i] != *host {
            out.push(list[i].clone());
            assert(views(out@) =~= before.push(list@[i as int]@));
        } else {
            assert(views(out@) =~= before);
        }
        assert(views(out@) =~= seq![host@] + without(lv.subrange(0, i + 1), host@));
        i = i + 1;
    }
    assert(lv.subrange(0, lv.len() as int) =~= lv);
    let ghost full = views(out@);
    out.truncate(RECENT_ROOMS_MAX);
    assert(views(out@) =~= recent_after(lv, host@));
    out
}

impl ChainCyclesState {
    /// `new` is `old` with the joiner seated as player two: appended to the
    /// three rosters, the game started at `now`, all else as it was.
    pub open spec fn seated(old: &ChainCyclesState, new: &ChainCyclesState, chain: String, wallet: String, username: String, now: u64) -> bool {
        let room = old.game_room->0;
        let nr = new.game_room->0;
        &&& new.game_room is Some
        &&& nr.player_chain_ids@ == room.player_chain_ids@.push(chain)
        &&& nr.player_wallets@ == room.player_wallets@.push(wallet)
        &&& nr.usernames@ == room.usernames@.push(username)
        &&& nr == (GameRoom {
            player_chain_ids: nr.player_chain_ids,
            player_wallets: nr.player_wallets,
            usernames: nr.usernames,
            status: GameStatus::InProgress,
            last_move_at: now,
            ..room
        })
        &&& new.is_hosting == old.is_hosting
        &&& new.joined_host_chain == old.joined_host_chain
        &&& new.recent_rooms == old.recent_rooms
        &&& new.hub_chain_id == old.hub_chain_id
    }

    /// Whether a join request would be accepted: a room waiting for its
    /// second player, with fewer than two players.
    pub open spec fn takes_joiner(&self) -> bool {
        match self.game_room {
            Some(room) => room.status == GameStatus::WaitingForPlayer && room.player_chain_ids@.len() < 2,
            None => false,
        }
    }

    /// A chain with no room and no history.
    pub fn new(hub_chain_id: Option<String>) -> (r: ChainCyclesState)
        ensures
            r.hub_chain_id == hub_chain_id,
            r.game_room is None,
            !r.is_hosting,
            r.joined_host_chain is None,
            r.recent_rooms@.len() == 0,
    {
        ChainCyclesState { hub_chain_id, game_room: None, is_hosting: false, joined_host_chain: None, recent_rooms: Vec::new() }
    }

    /// Open a room hosted on `chain_id` for the caller, whose profile is
    /// `profile`. Refused while hosting (RoomAlreadyExists), then for an
    /// unregistered caller (NotRegistered).
    pub fn handle_create_room(&mut self, profile: Option<&PlayerProfile>, chain_id: String, wallet: String, game_type: GameType, now: u64) -> (r: ChainCyclesResponse)
        ensures
            old(self).is_hosting ==> *final(self) == *old(self)
                && is_error(r, error_text(ChainCyclesError::RoomAlreadyExists)),
            !old(self).is_hosting && profile is None ==> *final(self) == *old(self)
                && is_error(r, error_text(ChainCyclesError::NotRegistered)),
            !old(self).is_hosting && profile is Some ==> {
                let p = profile->0;
                &&& final(self).is_hosting
                &&& final(self).joined_host_chain == old(self).joined_host_chain
                &&& final(self).recent_rooms == old(self).recent_rooms
                &&& final(self).hub_chain_id == old(self).hub_chain_id
                &&& final(self).game_room is Some
                &&& fresh_room(final(self).game_room->0, chain_id, wallet, p.username, game_type, now)
                &&& r is RoomCreated
                &&& r->RoomCreated_0.host_chain_id == chain_id
                &&& fresh_room(r->RoomCreated_0.room, chain_id, wallet, p.username, game_type, now)
            },
    {
        if self.is_hosting {
            return ChainCyclesError::RoomAlreadyExists.into_response();
        }
        let p = match profile {
            Some(p) => p,
            None => return ChainCyclesError::NotRegistered.into_response(),
        };
        let room = GameRoom::new(chain_id.clone(), wallet.clone(), p.username.clone(), game_type, now);
        let shown = GameRoom::new(chain_id.clone(), wallet, p.username.clone(), game_type, now);
        self.game_room = Some(room);
        self.is_hosting = true;
        ChainCyclesResponse::RoomCreated(RoomCreatedResponse { host_chain_id: chain_id, room: shown })
    }

    /// Ask the host on `host_chain_id` to be let in. Refused for an
    /// unregistered caller, for the caller's own chain, and for an id that
    /// does not name a chain (`host_id_valid` false). Otherwise sends the
    /// request, remembers the host and puts it first among the recent rooms; the
    /// room itself arrives later, from the host.
    pub fn handle_join_room(
        &mut self,
        profile: Option<&PlayerProfile>,
        my_chain: String,
        wallet: String,
        host_chain_id: String,
        host_id_valid: bool,
    ) -> (r: (ChainCyclesResponse, Option<Outgoing>))
        ensures
            profile is None ==> *final(self) == *old(self) && r.1 is None
                && is_error(r.0, error_text(ChainCyclesError::NotRegistered)),
            profile is Some && my_chain@ == host_chain_id@ ==> *final(self) == *old(self) && r.1 is None
                && is_error(r.0, error_text(ChainCyclesError::CannotJoinOwnRoom)),
            profile is Some && my_chain@ != host_chain_id@ && !host_id_valid ==> *final(self) == *old(self) && r.1 is None
                && is_error(r.0, "Invalid chain ID format"@),
            profile is Some && my_chain@ != host_chain_id@ && host_id_valid ==> {
                &&& r.1 == Some(Outgoing::JoinRequest { to: host_chain_id, joiner_chain_id: my_chain, joiner_wallet: wallet, joiner_username: profile->0.username })
                &&& final(self).joined_host_chain == Some(host_chain_id)
                &&& views(final(self).recent_rooms@) == recent_after(views(old(self).recent_rooms@), host_chain_id@)
                &&& final(self).game_room == old(self).game_room
                &&& final(self).is_hosting == old(self).is_hosting
                &&& final(self).hub_chain_id == old(self).hub_chain_id
                &&& r.0 is RoomJoined
                &&& r.0->RoomJoined_0.host_chain_id == host_chain_id
            },
    {
        let p = match profile {
            Some(p) => p,
            None => return (ChainCyclesError::NotRegistered.into_response(), None),
        };
        if my_chain == host_chain_id {
            return (ChainCyclesError::CannotJoinOwnRoom.into_response(), None);
        }
        if !host_id_valid {
            return (ChainCyclesResponse::Error(ErrorResponse { error: String::from_str("Invalid chain ID format") }), None);
        }
        let request = Outgoing::JoinRequest {
            to: host_chain_id.clone(),
            joiner_chain_id: my_chain,
            joiner_wallet: wallet,
            joiner_username: p.username.clone(),
        };
        self.joined_host_chain = Some(host_chain_id.clone());
        self.recent_rooms = bring_to_front(&self.recent_rooms, &host_chain_id);
        let reply = RoomJoinedResponse { host_chain_id, message: String::from_str("Join request sent") };
        (ChainCyclesResponse::RoomJoined(reply), Some(request))
    }

    /// Host side of a join request: seat the joiner when this chain has a
    /// room waiting for a player with fewer than two players, start the game
    /// and send the room to the joiner. Anything else is ignored.
    pub fn handle_join_request(&mut self, joiner_chain_id: String, joiner_wallet: String, joiner_username: String, now: u64) -> (r: Option<Outgoing>)
        ensures
            !old(self).takes_joiner() ==> r is None && *final(self) == *old(self),
            old(self).takes_joiner() ==> r == Some(Outgoing::StateSync { to: joiner_chain_id })
                && ChainCyclesState::seated(old(self), final(self), joiner_chain_id, joiner_wallet, joiner_username, now),
    {
        match &mut self.game_room {
            Some(room) => {
                if room.status != GameStatus::WaitingForPlayer {
                    return None;
                }
                if room.player_chain_ids.len() >= 2 {
                    return None;
                }
                let to = joiner_chain_id.clone();
                room.add_joiner(joiner_chain_id, joiner_wallet, joiner_username, now);
                Some(Outgoing::StateSync { to })
            },
            None => None,
        }
    }

    /// Leave the room: the local copy is cleared whatever its state. A host
    /// tells the seated joiner, if any, and stops hosting; a joiner tells
    /// the host it joined and forgets it. Nothing changes without a room.
    pub fn handle_leave_room(&mut self, my_chain: String, wallet: String) -> (r: (ChainCyclesResponse, Option<Outgoing>))
        ensures
            is_success(r.0, "Left room"@),
            old(self).game_room is None ==> *final(self) == *old(self) && r.1 is None,
            old(self).game_room matches Some(room) ==> {
                &&& final(self).game_room is None
                &&& final(self).recent_rooms == old(self).recent_rooms
                &&& final(self).hub_chain_id == old(self).hub_chain_id
                &&& if old(self).is_hosting {
                    &&& !final(self).is_hosting
                    &&& final(self).joined_host_chain == old(self).joined_host_chain
                    &&& r.1 == if room.player_chain_ids@.len() > 1 {
                        Some(Outgoing::PlayerLeft { to: room.player_chain_ids@[1], player_chain_id: my_chain, player_wallet: wallet })
                    } else {
                        None
                    }
                } else {
                    &&& final(self).is_hosting == old(self).is_hosting
                    &&& final(self).joined_host_chain is None
                    &&& r.1 == match old(self).joined_host_chain {
                        Some(h) => Some(Outgoing::PlayerLeft { to: h, player_chain_id: my_chain, player_wallet: wallet }),
                        None => None,
                    }
                }
            },
    {
        let mut notice: Option<Outgoing> = None;
        if let Some(room) = &self.game_room {
            if self.is_hosting {
                if room.player_chain_ids.len() > 1 {
                    notice = Some(Outgoing::PlayerLeft {
                        to: room.player_chain_ids[1].clone(),
                        player_chain_id: my_chain,
                        player_wallet: wallet,
                    });
                }
                self.is_hosting = false;
            } else if let Some(host) = &self.joined_host_chain {
                notice = Some(Outgoing::PlayerLeft { to: host.clone(), player_chain_id: my_chain, player_wallet: wallet });
                self.joined_host_chain = None;
            }
            self.game_room = None;
        }
        (success("Left room"), notice)
    }

    /// Forget the room, the hosting flag and the joined host; sends nothing.
    pub fn handle_clear_room(&mut self) -> (r: ChainCyclesResponse)
        ensures
            final(self).game_room is None,
            !final(self).is_hosting,
            final(self).joined_host_chain is None,
            final(self).recent_rooms == old(self).recent_rooms,
            final(self).hub_chain_id == old(self).hub_chain_id,
            is_success(r, "Room cleared"@),
    {
        self.game_room = None;
        self.is_hosting = false;
        self.joined_host_chain = None;
        success("Room cleared")
    }

    /// Play a move on this chain's room for `wallet` at time `now`. Refused
    /// without a room (RoomNotFound) or as the room refuses it, changing
    /// nothing and sending nothing. An accepted move updates the room, sends
    /// the new room to the opponent's chain and, when the game ended, a
    /// reward to each player's chain.
    pub fn handle_make_move(&mut self, wallet: &String, move_data: &MoveData, now: u64) -> (r: (ChainCyclesResponse, Vec<Outgoing>))
        ensures
            old(self).game_room is None ==> *final(self) == *old(self) && r.1@.len() == 0
                && is_error(r.0, error_text(ChainCyclesError::RoomNotFound)),
            old(self).game_room is Some && old(self).game_room->0.move_error(wallet@, move_data) is Some ==> {
                &&& *final(self) == *old(self)
                &&& r.1@.len() == 0
                &&& is_error(r.0, error_text(old(self).game_room->0.move_error(wallet@, move_data)->0))
            },
            old(self).game_room is Some && old(self).game_room->0.move_error(wallet@, move_data) is None ==> {
                let room = old(self).game_room->0;
                let nr = final(self).game_room->0;
                &&& final(self).game_room is Some
                &&& final(self).is_hosting == old(self).is_hosting
                &&& final(self).joined_host_chain == old(self).joined_host_chain
                &&& final(self).recent_rooms == old(self).recent_rooms
                &&& final(self).hub_chain_id == old(self).hub_chain_id
                &&& r.0 is Move
                &&& exists|v: MoveVerdict| {
                    &&& #[trigger] GameRoom::moved_by(&room, &nr, wallet@, move_data, now, v)
                    &&& r.0->Move_0.success
                    &&& r.0->Move_0.game_ended == v.ended
                    &&& r.0->Move_0.winner == v.winner
                    &&& r.0->Move_0.message@ == if v.ended { "Game ended"@ } else { "Move accepted"@ }
                    &&& r.1@ == move_messages(nr, room.seat(wallet@)->0, v.ended)
                }
            },
    {
        let room = match &mut self.game_room {
            Some(room) => room,
            None => return (ChainCyclesError::RoomNotFound.into_response(), Vec::new()),
        };
        let verdict = match room.apply_move(wallet, move_data, now) {
            Ok(v) => v,
            Err(e) => return (e.into_response(), Vec::new()),
        };
        let mut out: Vec<Outgoing> = Vec::new();
        let seat = room.seat_of(wallet);
        let opponent: usize = match seat {
            Some(Player::Two) => 0,
            _ => 1,
        };
        if opponent < room.player_chain_ids.len() {
            out.push(Outgoing::MoveSync { to: room.player_chain_ids[opponent].clone() });
        }
        let ghost sync = out@;
        assert(sync == match opponent_chain(*room, seat->0) {
            Some(to) => seq![Outgoing::MoveSync { to }],
            None => Seq::<Outgoing>::empty(),
        });
        if verdict.ended {
            let mut rewards = distribute_rewards(room);
            out.append(&mut rewards);
        }
        let message = if verdict.ended {
            String::from_str("Game ended")
        } else {
            String::from_str("Move accepted")
        };
        let reply = MoveResponse { success: true, game_ended: verdict.ended, winner: verdict.winner, message };
        (ChainCyclesResponse::Move(reply), out)
    }

    /// Handle a message from the peer chain. Snapshots overwrite the local
    /// room whatever it held; a leave notice turns a game in progress into
    /// `Abandoned` and leaves any other room as it is; a join request goes
    /// to `handle_join_request`; a reward is handed back for the profile
    /// store.
    pub fn execute_message(&mut self, message: Message, now: u64) -> (r: Effect)
        ensures
            final(self).is_hosting == old(self).is_hosting,
            final(self).joined_host_chain == old(self).joined_host_chain,
            final(self).recent_rooms == old(self).recent_rooms,
            final(self).hub_chain_id == old(self).hub_chain_id,
            match message {
                Message::JoinRequest { joiner_chain_id, joiner_wallet, joiner_username } => if old(self).takes_joiner() {
                    r == Effect::Send(Outgoing::StateSync { to: joiner_chain_id })
                        && ChainCyclesState::seated(old(self), final(self), joiner_chain_id, joiner_wallet, joiner_username, now)
                } else {
                    r is Nothing && *final(self) == *old(self)
                },
                Message::GameStateSync { room } => final(self).game_room == Some(room) && r is Nothing,
                Message::GameMoveSync { room } => final(self).game_room == Some(room) && r is Nothing,
                Message::MatchEnded { final_room, .. } => final(self).game_room == Some(final_room) && r is Nothing,
                Message::PlayerLeft { .. } => r is Nothing && if old(self).game_room is Some
                    && old(self).game_room->0.status == GameStatus::InProgress {
                    final(self).game_room == Some(GameRoom { status: GameStatus::Abandoned, ..old(self).game_room->0 })
                } else {
                    *final(self) == *old(self)
                },
                Message::RewardSync { player_wallet, xp_earned, coins_earned, .. } => *final(self) == *old(self)
                    && r == Effect::Reward { player_wallet, xp_earned, coins_earned },
            },
    {
        match message {
            Message::JoinRequest { joiner_chain_id, joiner_wallet, joiner_username } => {
                match self.handle_join_request(joiner_chain_id, joiner_wallet, joiner_username, now) {
                    Some(o) => Effect::Send(o),
                    None => Effect::Nothing,
                }
            },
            Message::GameStateSync { room } => {
                self.game_room = Some(room);
                Effect::Nothing
            },
            Message::GameMoveSync { room } => {
                self.game_room = Some(room);
                Effect::Nothing
            },
            Message::MatchEnded { winner: _, reason: _, final_room } => {
                self.game_room = Some(final_room);
                Effect::Nothing
            },
            Message::PlayerLeft { player_chain_id: _, player_wallet: _ } => {
                if let Some(room) = &mut self.game_room {
                    if room.status == GameStatus::InProgress {
                        room.status = GameStatus::Abandoned;
                    }
                }
                Effect::Nothing
            },
            Message::RewardSync { player_wallet, xp_earned, coins_earned, is_winner: _ } => {
                Effect::Reward { player_wallet, xp_earned, coins_earned }
            },
        }
    }
}

} // verus!
