use vstd::prelude::*;
use crate::types::Player;
use crate::seqs::{sum_u8, lemma_sum_u8_update, lemma_sum_u8_bounds};

verus! {

/// Stones in play: 4 in each of the 12 pits.
pub const MANCALA_STONES: u8 = 48;

/// Mancala board: slots 0..5 are player one's pits, 6 its store, 7..12
/// player two's pits and 13 its store.
#[derive(Debug, Clone)]
pub struct MancalaBoard {
    pub pits: Vec<u8>,
    pub moves: Vec<u8>,
}

/// Slot of a player's store.
pub open spec fn store_of(p: Player) -> int {
    match p {
        Player::One => 6,
        Player::Two => 13,
    }
}

/// Absolute slot of a player's pit numbered 0..5 from its own side.
pub open spec fn pit_slot(pit: int, p: Player) -> int {
    match p {
        Player::One => pit,
        Player::Two => pit + 7,
    }
}

/// Whether slot `i` is one of the player's six pits.
pub open spec fn own_pit(i: int, p: Player) -> bool {
    match p {
        Player::One => 0 <= i < 6,
        Player::Two => 7 <= i < 13,
    }
}

/// The slot after `at` going round the board, never landing on `skip`.
pub open spec fn next_slot(at: int, skip: int) -> int {
    let n = (at + 1) % 14;
    if n == skip {
        (n + 1) % 14
    } else {
        n
    }
}

/// Drop `n` stones one by one into the slots after `at`, skipping `skip`;
/// gives the new slots and where the last stone fell.
pub open spec fn sow(p: Seq<u8>, at: int, n: nat, skip: int) -> (Seq<u8>, int)
    decreases n,
{
    if n == 0 {
        (p, at)
    } else {
        let nx = next_slot(at, skip);
        sow(p.update(nx, (p[nx] + 1) as u8), nx, (n - 1) as nat, skip)
    }
}

/// Empty the mover's pit and sow its stones, skipping the opponent's store.
pub open spec fn sown(pits: Seq<u8>, pit: int, p: Player) -> (Seq<u8>, int) {
    let a = pit_slot(pit, p);
    sow(pits.update(a, 0), a, pits[a] as nat, store_of(p.spec_other()))
}

/// A last stone alone in one of the mover's own pits takes the opposite
/// pit's stones, and itself, into the mover's store.
pub open spec fn captured(s: Seq<u8>, last: int, p: Player) -> Seq<u8> {
    let opp = 12 - last;
    let mine = store_of(p);
    if own_pit(last, p) && s[last] == 1 && s[opp] > 0 {
        s.update(opp, 0).update(last, 0).update(mine, (s[mine] + s[opp] + 1) as u8)
    } else {
        s
    }
}

/// Pits after a legal move from `pit` (0..5 on the mover's side).
pub open spec fn pits_after_move(pits: Seq<u8>, pit: int, p: Player) -> Seq<u8> {
    let (s, last) = sown(pits, pit, p);
    captured(s, last, p)
}

/// Whether the mover sows its last stone into its own store.
pub open spec fn earns_extra_turn(pits: Seq<u8>, pit: int, p: Player) -> bool {
    sown(pits, pit, p).1 == store_of(p)
}

/// Whether a move from `pit` is legal: a pit of the mover's side holding stones.
pub open spec fn legal_pit(pits: Seq<u8>, pit: int, p: Player) -> bool {
    0 <= pit <= 5 && pits[pit_slot(pit, p)] > 0
}

pub open spec fn side_empty(pits: Seq<u8>, lo: int) -> bool {
    forall|i: int| lo <= i < lo + 6 ==> pits[i] == 0
}

pub open spec fn side_sum(pits: Seq<u8>, lo: int) -> int {
    sum_u8(pits.subrange(lo, lo + 6))
}

impl MancalaBoard {
    /// Well-formed: fourteen slots holding all the stones of the game.
    pub open spec fn wf(&self) -> bool {
        &&& self.pits@.len() == 14
        &&& sum_u8(self.pits@) == MANCALA_STONES as int
    }

    /// Run-time check of `wf`.
    pub fn is_well_formed(&self) -> (r: bool)
        ensures
            r == self.wf(),
    {
        if self.pits.len() != 14 {
            return false;
        }
        let mut total: u32 = 0;
        let mut i: usize = 0;
        while i < 14
            invariant
                self.pits@.len() == 14,
                0 <= i <= 14,
                total <= 255 * i,
                total as int == sum_u8(self.pits@.subrange(0, i as int)),
            decreases 14 - i,
        {
            assert(self.pits@.subrange(0, i + 1).drop_last() =~= self.pits@.subrange(0, i as int));
            total = total + self.pits[i] as u32;
            i = i + 1;
        }
        assert(self.pits@.subrange(0, 14) =~= self.pits@);
        total == MANCALA_STONES as u32
    }

    /// Four stones in each pit, both stores empty.
    pub fn new() -> (r: MancalaBoard)
        ensures
            r.wf(),
            forall|i: int| 0 <= i < 14 ==> r.pits@[i] == if i == 6 || i == 13 { 0u8 } else { 4u8 },
            r.moves@.len() == 0,
    {
        let mut pits: Vec<u8> = vec![4u8; 14];
        pits.set(6, 0);
        pits.set(13, 0);
        proof {
            let s = pits@;
            assert(s.subrange(0, 0) =~= Seq::<u8>::empty());
            assert forall|k: int| 0 <= k <= 14 implies sum_u8(#[trigger] s.subrange(0, k))
                == 4 * k - (if k > 6 { 4int } else { 0 }) - (if k > 13 { 4int } else { 0 }) by {
                lemma_prefix_sum(s, k);
            }
            assert(s.subrange(0, 14) =~= s);
        }
        MancalaBoard { pits, moves: Vec::new() }
    }

    /// Sow from the mover's pit `pit_idx` (0..5 on its own side). `None`
    /// rejects an index out of range or an empty pit and changes nothing;
    /// `Some(extra)` tells whether the last stone fell into the mover's own
    /// store, which earns another turn.
    pub fn make_move(&mut self, pit_idx: u8, player: Player) -> (r: Option<bool>)
        requires
            old(self).wf(),
        ensures
            final(self).wf(),
            legal_pit(old(self).pits@, pit_idx as int, player) ==> {
                &&& r == Some(earns_extra_turn(old(self).pits@, pit_idx as int, player))
                &&& final(self).pits@ == pits_after_move(old(self).pits@, pit_idx as int, player)
                &&& final(self).moves@ == old(self).moves@.push(pit_slot(pit_idx as int, player) as u8)
            },
            !legal_pit(old(self).pits@, pit_idx as int, player) ==> {
                &&& r is None
                &&& *final(self) == *old(self)
            },
    {
        if pit_idx > 5 {
            return None;
        }
        let actual_idx: usize = match player {
            Player::One => pit_idx as usize,
            Player::Two => (pit_idx + 7) as usize,
        };
        if self.pits[actual_idx] == 0 {
            return None;
        }
        let ghost start = self.pits@;
        let stones = self.pits[actual_idx];
        self.pits.set(actual_idx, 0);
        self.moves.push(actual_idx as u8);
        proof {
            lemma_sum_u8_update(start, actual_idx as int, 0);
        }
        let my_store: usize = match player {
            Player::One => 6,
            Player::Two => 13,
        };
        let opp_store: usize = match player {
            Player::One => 13,
            Player::Two => 6,
        };
        let mut current_idx: usize = actual_idx;
        let mut remaining: u8 = stones;
        while remaining > 0
            invariant
                self.pits@.len() == 14,
                0 <= current_idx < 14,
                opp_store as int == store_of(player.spec_other()),
                my_store as int == store_of(player),
                start == old(self).pits@,
                self.moves@ == old(self).moves@.push(pit_slot(pit_idx as int, player) as u8),
                sum_u8(self.pits@) + remaining as int == MANCALA_STONES as int,
                sow(self.pits@, current_idx as int, remaining as nat, opp_store as int)
                    == sown(start, pit_idx as int, player),
            decreases remaining,
        {
            let ghost before = self.pits@;
            let mut nx: usize = (current_idx + 1) % 14;
            if nx == opp_store {
                nx = (nx + 1) % 14;
            }
            proof {
                lemma_sum_u8_bounds(before, nx as int);
                lemma_sum_u8_update(before, nx as int, (before[nx as int] + 1) as u8);
            }
            let v = self.pits[nx] + 1;
            self.pits.set(nx, v);
            current_idx = nx;
            remaining = remaining - 1;
        }
        let last_idx = current_idx;
        let ghost sowed = self.pits@;
        let is_own_pit = match player {
            Player::One => last_idx < 6,
            Player::Two => last_idx >= 7 && last_idx < 13,
        };
        if is_own_pit && self.pits[last_idx] == 1 {
            let opposite_idx: usize = 12 - last_idx;
            if self.pits[opposite_idx] > 0 {
                proof {
                    lemma_sum_u8_bounds(sowed, opposite_idx as int);
                    lemma_sum_u8_bounds(sowed, my_store as int);
                }
                let captured = self.pits[opposite_idx] + 1;
                self.pits.set(opposite_idx, 0);
                self.pits.set(last_idx, 0);
                let ghost mid = self.pits@;
                proof {
                    lemma_sum_u8_update(sowed, opposite_idx as int, 0);
                    lemma_sum_u8_update(sowed.update(opposite_idx as int, 0), last_idx as int, 0);
                    lemma_sum_u8_update(mid, my_store as int, (mid[my_store as int] + captured) as u8);
                }
                let s = self.pits[my_store] + captured;
                self.pits.set(my_store, s);
            }
        }
        Some(last_idx == my_store)
    }

    /// The game ends once either side's six pits are all empty.
    pub fn is_game_over(&self) -> (r: bool)
        requires
            self.wf(),
        ensures
            r == (side_empty(self.pits@, 0) || side_empty(self.pits@, 7)),
    {
        let mut p1_empty = true;
        let mut p2_empty = true;
        let mut i: usize = 0;
        while i < 6
            invariant
                self.pits@.len() == 14,
                0 <= i <= 6,
                p1_empty == (forall|k: int| 0 <= k < i ==> self.pits@[k] == 0),
                p2_empty == (forall|k: int| 7 <= k < 7 + i ==> self.pits@[k] == 0),
            decreases 6 - i,
        {
            if self.pits[i] != 0 {
                p1_empty = false;
            }
            if self.pits[i + 7] != 0 {
                p2_empty = false;
            }
            i = i + 1;
        }
        p1_empty || p2_empty
    }

    /// Sweep each side's remaining stones into its own store, then name
    /// the player with the fuller store (`None` on a tie).
    pub fn finalize(&mut self) -> (r: Option<Player>)
        requires
            old(self).wf(),
        ensures
            final(self).wf(),
            final(self).moves == old(self).moves,
            final(self).pits@[6] == old(self).pits@[6] + side_sum(old(self).pits@, 0),
            final(self).pits@[13] == old(self).pits@[13] + side_sum(old(self).pits@, 7),
            forall|i: int| 0 <= i < 14 && i != 6 && i != 13 ==> final(self).pits@[i] == 0,
            r == if final(self).pits@[6] > final(self).pits@[13] {
                Some(Player::One)
            } else if final(self).pits@[13] > final(self).pits@[6] {
                Some(Player::Two)
            } else {
                None::<Player>
            },
    {
        let ghost start = self.pits@;
        proof {
            lemma_sides_sum(start);
        }
        let mut i: usize = 0;
        while i < 6
            invariant
                0 <= i <= 6,
                start == old(self).pits@,
                start.len() == 14,
                self.pits@.len() == 14,
                self.moves == old(self).moves,
                sum_u8(self.pits@) == MANCALA_STONES as int,
                self.pits@[6] == start[6] + sum_u8(start.subrange(0, i as int)),
                self.pits@[13] == start[13] + sum_u8(start.subrange(7, 7 + i)),
                forall|k: int| 0 <= k < i ==> self.pits@[k] == 0,
                forall|k: int| 7 <= k < 7 + i ==> self.pits@[k] == 0,
                forall|k: int| i <= k < 6 ==> self.pits@[k] == start[k],
                forall|k: int| 7 + i <= k < 13 ==> self.pits@[k] == start[k],
            decreases 6 - i,
        {
            let ghost s0 = self.pits@;
            assert(start.subrange(0, i + 1).drop_last() =~= start.subrange(0, i as int));
            assert(start.subrange(7, 7 + i + 1).drop_last() =~= start.subrange(7, 7 + i));
            proof {
                lemma_sum_u8_bounds(s0, 6);
                lemma_sum_u8_bounds(s0, i as int);
                lemma_sum_u8_update(s0, 6, (s0[6] + s0[i as int]) as u8);
            }
            let a = self.pits[6] + self.pits[i];
            self.pits.set(6, a);
            let ghost s1 = self.pits@;
            proof {
                lemma_sum_u8_update(s1, i as int, 0);
            }
            self.pits.set(i, 0);
            let ghost s2 = self.pits@;
            proof {
                lemma_sum_u8_bounds(s2, 13);
                lemma_sum_u8_bounds(s2, i + 7);
                lemma_sum_u8_update(s2, 13, (s2[13] + s2[i + 7]) as u8);
            }
            let b = self.pits[13] + self.pits[i + 7];
            self.pits.set(13, b);
            let ghost s3 = self.pits@;
            proof {
                lemma_sum_u8_update(s3, i + 7, 0);
            }
            self.pits.set(i + 7, 0);
            i = i + 1;
        }
        if self.pits[6] > self.pits[13] {
            Some(Player::One)
        } else if self.pits[13] > self.pits[6] {
            Some(Player::Two)
        } else {
            None
        }
    }

    /// Stones in the two stores: (player one, player two).
    pub fn get_scores(&self) -> (r: (u8, u8))
        requires
            self.wf(),
        ensures
            r == (self.pits@[6], self.pits@[13]),
    {
        (self.pits[6], self.pits[13])
    }
}

proof fn lemma_prefix_sum(s: Seq<u8>, k: int)
    requires
        s.len() == 14,
        0 <= k <= 14,
        forall|i: int| 0 <= i < 14 ==> s[i] == if i == 6 || i == 13 { 0u8 } else { 4u8 },
    ensures
        sum_u8(s.subrange(0, k)) == 4 * k - (if k > 6 { 4int } else { 0 }) - (if k > 13 { 4int } else { 0 }),
    decreases k,
{
    if k > 0 {
        assert(s.subrange(0, k).drop_last() =~= s.subrange(0, k - 1));
        lemma_prefix_sum(s, k - 1);
    }
}

/// The board's stones split into the two sides' pits and the two stores.
proof fn lemma_sides_sum(s: Seq<u8>)
    requires
        s.len() == 14,
    ensures
        side_sum(s, 0) + s[6] + side_sum(s, 7) + s[13] == sum_u8(s),
{
    lemma_sum_split(s, 14);
    assert(s.subrange(0, 14) =~= s);
}

proof fn lemma_sum_split(s: Seq<u8>, k: int)
    requires
        s.len() == 14,
        0 <= k <= 14,
    ensures
        sum_u8(s.subrange(0, k)) == sum_u8(s.subrange(0, if k < 6 { k } else { 6 }))
            + (if k > 6 { s[6] as int } else { 0 })
            + (if k > 7 { sum_u8(s.subrange(7, if k < 13 { k } else { 13 })) } else { 0 })
            + (if k > 13 { s[13] as int } else { 0 }),
    decreases k,
{
    if k > 0 {
        assert(s.subrange(0, k).drop_last() =~= s.subrange(0, k - 1));
        lemma_sum_split(s, k - 1);
        if 7 < k <= 13 {
            assert(s.subrange(7, k).drop_last() =~= s.subrange(7, k - 1));
        }
        if k == 7 {
            assert(s.subrange(7, 7) =~= Seq::<u8>::empty());
        }
    }
}

} // verus!
