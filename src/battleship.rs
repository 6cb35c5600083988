use vstd::prelude::*;
use crate::types::Player;
use crate::text::{chars_of, split_chars, parse_u8, split_on, parse_u8_spec, views_of};

verus! {

/// Battleship: a 10 by 10 layout per player (0 water, 1..5 ship id) and
/// the hits it has taken (0 untouched, 1 miss, 2 hit).
#[derive(Debug, Clone)]
pub struct BattleshipBoard {
    pub p1_ships: Vec<u8>,
    pub p1_hits: Vec<u8>,
    pub p2_ships: Vec<u8>,
    pub p2_hits: Vec<u8>,
    pub setup_phase: bool,
    pub p1_ready: bool,
    pub p2_ready: bool,
    pub moves: Vec<u8>,
    pub ships_sunk: Vec<u8>,
}

/// Ships in a fleet.
pub const FLEET_SIZE: usize = 5;

/// Length of ship `id`: carrier 5, battleship 4, cruiser 3, submarine 3,
/// destroyer 2.
pub open spec fn ship_size(id: int) -> int {
    if id == 1 { 5 } else if id == 2 { 4 } else if id == 3 || id == 4 { 3 } else { 2 }
}

/// The `j`-th cell of a ship starting at `start`.
pub open spec fn ship_cell(start: int, j: int, horizontal: bool) -> int {
    if horizontal { start + j } else { start + 10 * j }
}

/// Whether cell `q` is one of the first `n` cells of a ship at `start`.
pub open spec fn covers(start: int, n: int, horizontal: bool, q: int) -> bool {
    if horizontal {
        start <= q < start + n
    } else {
        start <= q && (q - start) % 10 == 0 && q - start < 10 * n
    }
}

/// One entry of a fleet string, "id,start,h" or "id,start,v": the ship
/// id (0 when not a number), its first cell (100 when not a number) and
/// whether it runs along a row. `None` unless there are three fields, the
/// last one "h" or "v".
pub open spec fn entry_of(piece: Seq<char>) -> Option<(int, int, bool)> {
    let parts = split_on(piece, ',');
    if parts.len() != 3 || !(parts[2] == seq!['h'] || parts[2] == seq!['v']) {
        None
    } else {
        let id = match parse_u8_spec(parts[0]) {
            Some(v) => v as int,
            None => 0,
        };
        let start = match parse_u8_spec(parts[1]) {
            Some(v) => v as int,
            None => 100,
        };
        Some((id, start, parts[2] == seq!['h']))
    }
}

/// Add one ship to a layout: its id must be 1..5 and not yet placed, it
/// must lie on the grid without wrapping, and all its cells must be water.
pub open spec fn place_one(layout: Seq<u8>, id: int, start: int, horizontal: bool) -> Option<Seq<u8>> {
    let size = ship_size(id);
    if !(1 <= id <= 5 && 0 <= start < 100) {
        None
    } else if exists|q: int| 0 <= q < 100 && #[trigger] layout[q] == id {
        None
    } else if horizontal && start % 10 + size > 10 {
        None
    } else if !horizontal && start / 10 + size > 10 {
        None
    } else if exists|q: int| 0 <= q < 100 && #[trigger] covers(start, size, horizontal, q) && layout[q] != 0 {
        None
    } else {
        Some(Seq::new(100, |q: int| if covers(start, size, horizontal, q) { id as u8 } else { layout[q] }))
    }
}

pub open spec fn empty_layout() -> Seq<u8> {
    Seq::new(100, |q: int| 0u8)
}

/// Layout made by the first `n` entries, placed in order on open water.
pub open spec fn fleet_upto(entries: Seq<Seq<char>>, n: int) -> Option<Seq<u8>>
    decreases n,
{
    if n <= 0 {
        Some(empty_layout())
    } else {
        match fleet_upto(entries, n - 1) {
            None => None,
            Some(l) => match entry_of(entries[n - 1]) {
                None => None,
                Some(e) => place_one(l, e.0, e.1, e.2),
            },
        }
    }
}

/// The layout a fleet string ("id,start,h|v;...") describes: exactly
/// five entries, each well formed and placing a ship whose id was not
/// placed before, so that ids 1..5 each appear once.
pub open spec fn parse_fleet(data: Seq<char>) -> Option<Seq<u8>> {
    let entries = split_on(data, ';');
    if entries.len() != FLEET_SIZE {
        None
    } else {
        fleet_upto(entries, entries.len() as int)
    }
}

/// Whether every cell of ship `id` has been hit.
pub open spec fn all_hit(ships: Seq<u8>, hits: Seq<u8>, id: u8) -> bool {
    forall|i: int| 0 <= i < 100 && ships[i] == id ==> #[trigger] hits[i] == 2
}

/// Whether some cell carries ship `id`.
pub open spec fn has_ship(ships: Seq<u8>, id: int) -> bool {
    exists|i: int| 0 <= i < 100 && ships[i] == id
}

/// Whether ship `id` is on the grid with every cell of it hit.
pub open spec fn ship_sunk(ships: Seq<u8>, hits: Seq<u8>, id: int) -> bool {
    has_ship(ships, id) && all_hit(ships, hits, id as u8)
}

/// How many of the ships with ids 1..n are sunk.
pub open spec fn sunk_count(ships: Seq<u8>, hits: Seq<u8>, n: int) -> nat
    decreases n,
{
    if n <= 0 {
        0
    } else {
        sunk_count(ships, hits, n - 1) + if ship_sunk(ships, hits, n) { 1nat } else { 0 }
    }
}

/// One player's waters: ship ids 1..5 only, the sunk counter equal to the
/// number of sunk ships, and no shot taken before setup ends.
pub open spec fn side_ok(ships: Seq<u8>, hits: Seq<u8>, sunk: u8, setup: bool) -> bool {
    &&& forall|i: int| 0 <= i < 100 ==> #[trigger] ships[i] <= 5
    &&& sunk as nat == sunk_count(ships, hits, 5)
    &&& setup ==> forall|i: int| 0 <= i < 100 ==> #[trigger] hits[i] == 0
}

pub proof fn lemma_sunk_count_le(ships: Seq<u8>, hits: Seq<u8>, n: int)
    requires
        0 <= n,
    ensures
        sunk_count(ships, hits, n) <= n,
    decreases n,
{
    if n > 0 {
        lemma_sunk_count_le(ships, hits, n - 1);
    }
}

/// Nothing is sunk before any shot.
proof fn lemma_sunk_count_unshot(ships: Seq<u8>, hits: Seq<u8>, n: int)
    requires
        hits.len() == 100,
        forall|i: int| 0 <= i < 100 ==> #[trigger] hits[i] == 0,
    ensures
        sunk_count(ships, hits, n) == 0,
    decreases n,
{
    if n > 0 {
        lemma_sunk_count_unshot(ships, hits, n - 1);
        if has_ship(ships, n) {
            let i = choose|i: int| 0 <= i < 100 && ships[i] == n;
            assert(hits[i] != 2);
        }
    }
}

/// A shot at an untouched cell of ship `ships[pos]` raises the count by
/// one exactly when it completes that ship; a shot into water changes
/// nothing.
proof fn lemma_sunk_count_shot(ships: Seq<u8>, hits: Seq<u8>, pos: int, v: u8, n: int)
    requires
        ships.len() == 100,
        hits.len() == 100,
        0 <= pos < 100,
        hits[pos] == 0,
        v == 1 || v == 2,
        v == 2 <==> ships[pos] != 0,
        n <= 5,
    ensures
        sunk_count(ships, hits.update(pos, v), n) == sunk_count(ships, hits, n)
            + if 1 <= ships[pos] <= n && all_hit(ships, hits.update(pos, v), ships[pos]) { 1nat } else { 0 },
    decreases n,
{
    let h2 = hits.update(pos, v);
    if n > 0 {
        lemma_sunk_count_shot(ships, hits, pos, v, n - 1);
        if ships[pos] as int != n {
            assert(all_hit(ships, h2, n as u8) == all_hit(ships, hits, n as u8)) by {
                if all_hit(ships, hits, n as u8) {
                    assert forall|i: int| 0 <= i < 100 && ships[i] == n as u8 implies #[trigger] h2[i] == 2 by {
                        assert(hits[i] == 2);
                    }
                }
                if all_hit(ships, h2, n as u8) {
                    assert forall|i: int| 0 <= i < 100 && ships[i] == n as u8 implies #[trigger] hits[i] == 2 by {
                        assert(i != pos);
                        assert(h2[i] == 2);
                    }
                }
            }
        } else {
            assert(!all_hit(ships, hits, n as u8)) by {
                assert(hits[pos] != 2);
            }
            assert(has_ship(ships, n));
        }
    }
}

impl BattleshipBoard {
    /// `new` is `old` after `attacker` fired at untouched cell `pos`:
    /// a hit (2) or a miss (1) marked on the target's waters, the shot
    /// recorded, and the target's sunk count raised when the hit completes
    /// a ship.
    pub open spec fn attacked(old: &BattleshipBoard, new: &BattleshipBoard, attacker: Player, pos: u8) -> bool {
        let target = attacker.spec_other();
        let ships = old.ships_of(target);
        let hits = new.hits_of(target);
        &&& new.moves@ == old.moves@.push(pos)
        &&& new.p1_ships == old.p1_ships
        &&& new.p2_ships == old.p2_ships
        &&& new.hits_of(attacker) == old.hits_of(attacker)
        &&& new.setup_phase == old.setup_phase
        &&& new.p1_ready == old.p1_ready
        &&& new.p2_ready == old.p2_ready
        &&& new.sunk_of(attacker) == old.sunk_of(attacker)
        &&& if ships[pos as int] != 0 {
            &&& hits == old.hits_of(target).update(pos as int, 2)
            &&& new.sunk_of(target) == if all_hit(ships, hits, ships[pos as int]) {
                (old.sunk_of(target) + 1) as u8
            } else {
                old.sunk_of(target)
            }
        } else {
            &&& hits == old.hits_of(target).update(pos as int, 1)
            &&& new.sunk_of(target) == old.sunk_of(target)
        }
    }

    /// `new` is `old` after `p` laid out its fleet as `layout`.
    pub open spec fn fleet_placed(old: &BattleshipBoard, new: &BattleshipBoard, p: Player, layout: Seq<u8>) -> bool {
        &&& new.ships_of(p) == layout
        &&& new.ships_of(p.spec_other()) == old.ships_of(p.spec_other())
        &&& new.ready_of(p)
        &&& new.ready_of(p.spec_other()) == old.ready_of(p.spec_other())
        &&& new.setup_phase == (old.setup_phase && !new.ready_of(p.spec_other()))
        &&& new.p1_hits == old.p1_hits
        &&& new.p2_hits == old.p2_hits
        &&& new.moves == old.moves
        &&& new.ships_sunk == old.ships_sunk
    }
}

/// Whether ship `id` is on the grid and completely hit.
fn is_ship_sunk(ships: &Vec<u8>, hits: &Vec<u8>, id: u8) -> (r: bool)
    requires
        ships@.len() == 100,
        hits@.len() == 100,
    ensures
        r == ship_sunk(ships@, hits@, id as int),
{
    let mut present = false;
    let mut i: usize = 0;
    while i < 100
        invariant
            ships@.len() == 100,
            hits@.len() == 100,
            0 <= i <= 100,
            present == exists|k: int| 0 <= k < i && ships@[k] == id,
            forall|k: int| 0 <= k < i && ships@[k] == id ==> #[trigger] hits@[k] == 2,
        decreases 100 - i,
    {
        if ships[i] == id {
            if hits[i] != 2 {
                assert(!all_hit(ships@, hits@, id));
                return false;
            }
            present = true;
        }
        i = i + 1;
    }
    present
}

/// Run-time check of `side_ok`.
fn side_is_ok(ships: &Vec<u8>, hits: &Vec<u8>, sunk: u8, setup: bool) -> (r: bool)
    requires
        ships@.len() == 100,
        hits@.len() == 100,
    ensures
        r == side_ok(ships@, hits@, sunk, setup),
{
    let mut i: usize = 0;
    while i < 100
        invariant
            ships@.len() == 100,
            hits@.len() == 100,
            0 <= i <= 100,
            forall|k: int| 0 <= k < i ==> #[trigger] ships@[k] <= 5,
            setup ==> forall|k: int| 0 <= k < i ==> #[trigger] hits@[k] == 0,
        decreases 100 - i,
    {
        if ships[i] > 5 {
            return false;
        }
        if setup && hits[i] != 0 {
            return false;
        }
        i = i + 1;
    }
    let mut count: u8 = 0;
    let mut id: u8 = 1;
    while id <= 5
        invariant
            ships@.len() == 100,
            hits@.len() == 100,
            1 <= id <= 6,
            count as nat == sunk_count(ships@, hits@, id - 1),
            count < id,
        decreases 6 - id,
    {
        if is_ship_sunk(ships, hits, id) {
            count = count + 1;
        }
        id = id + 1;
    }
    count == sunk
}

/// Set down one ship on `layout`; false when it does not fit.
fn place_ship(layout: &mut Vec<u8>, id: u8, start: u8, horizontal: bool) -> (r: bool)
    requires
        old(layout)@.len() == 100,
    ensures
        final(layout)@.len() == 100,
        r == place_one(old(layout)@, id as int, start as int, horizontal) is Some,
        r ==> final(layout)@ == place_one(old(layout)@, id as int, start as int, horizontal)->0,
        (forall|q: int| 0 <= q < 100 ==> #[trigger] old(layout)@[q] <= 5) ==> forall|q: int| 0 <= q < 100 ==> #[trigger] final(layout)@[q] <= 5,
{
    if id < 1 || id > 5 || start >= 100 {
        return false;
    }
    let mut q: usize = 0;
    while q < 100
        invariant
            layout@.len() == 100,
            0 <= q <= 100,
            forall|k: int| 0 <= k < q ==> layout@[k] != id,
        decreases 100 - q,
    {
        if layout[q] == id {
            return false;
        }
        q = q + 1;
    }
    let size: u8 = if id == 1 {
        5
    } else if id == 2 {
        4
    } else if id == 3 || id == 4 {
        3
    } else {
        2
    };
    if horizontal {
        if start % 10 + size > 10 {
            return false;
        }
    } else {
        if start / 10 + size > 10 {
            return false;
        }
    }
    let ghost l0 = layout@;
    let mut i: u8 = 0;
    while i < size
        invariant
            layout@ == l0,
            l0.len() == 100,
            0 <= i <= size,
            size as int == ship_size(id as int),
            1 <= id <= 5,
            start < 100,
            horizontal ==> start % 10 + size <= 10,
            !horizontal ==> start / 10 + size <= 10,
            forall|q: int| 0 <= q < 100 && #[trigger] covers(start as int, i as int, horizontal, q) ==> l0[q] == 0,
        decreases size - i,
    {
        let pos: u8 = if horizontal { start + i } else { start + i * 10 };
        if layout[pos as usize] != 0 {
            assert(covers(start as int, size as int, horizontal, pos as int));
            return false;
        }
        proof {
            assert forall|q: int| 0 <= q < 100 && #[trigger] covers(start as int, i + 1, horizontal, q) implies l0[q] == 0 by {
                if q != pos as int {
                    assert(covers(start as int, i as int, horizontal, q));
                }
            }
        }
        i = i + 1;
    }
    let mut j: u8 = 0;
    while j < size
        invariant
            layout@.len() == 100,
            l0.len() == 100,
            0 <= j <= size,
            size as int == ship_size(id as int),
            1 <= id <= 5,
            start < 100,
            horizontal ==> start % 10 + size <= 10,
            !horizontal ==> start / 10 + size <= 10,
            forall|q: int| 0 <= q < 100 ==> #[trigger] layout@[q] == if covers(start as int, j as int, horizontal, q) { id } else { l0[q] },
        decreases size - j,
    {
        let pos: u8 = if horizontal { start + j } else { start + j * 10 };
        layout.set(pos as usize, id);
        proof {
            assert forall|q: int| 0 <= q < 100 implies #[trigger] layout@[q] == if covers(start as int, j + 1, horizontal, q) { id } else { l0[q] } by {
                if q != pos as int {
                    assert(covers(start as int, j + 1, horizontal, q) == covers(start as int, j as int, horizontal, q));
                }
            }
        }
        j = j + 1;
    }
    assert(layout@ =~= place_one(l0, id as int, start as int, horizontal)->0);
    true
}

impl BattleshipBoard {
    /// Grids of 100 cells, two sunk counters, and each side's waters
    /// consistent with its counter.
    pub open spec fn wf(&self) -> bool {
        &&& self.p1_ships@.len() == 100
        &&& self.p1_hits@.len() == 100
        &&& self.p2_ships@.len() == 100
        &&& self.p2_hits@.len() == 100
        &&& self.ships_sunk@.len() == 2
        &&& side_ok(self.p1_ships@, self.p1_hits@, self.ships_sunk@[0], self.setup_phase)
        &&& side_ok(self.p2_ships@, self.p2_hits@, self.ships_sunk@[1], self.setup_phase)
    }

    pub open spec fn ships_of(&self, p: Player) -> Seq<u8> {
        match p {
            Player::One => self.p1_ships@,
            Player::Two => self.p2_ships@,
        }
    }

    pub open spec fn hits_of(&self, p: Player) -> Seq<u8> {
        match p {
            Player::One => self.p1_hits@,
            Player::Two => self.p2_hits@,
        }
    }

    pub open spec fn ready_of(&self, p: Player) -> bool {
        match p {
            Player::One => self.p1_ready,
            Player::Two => self.p2_ready,
        }
    }

    /// Ships of `p`'s fleet sunk so far.
    pub open spec fn sunk_of(&self, p: Player) -> u8 {
        self.ships_sunk@[p.spec_index() as int]
    }

    /// Run-time check of `wf`.
    pub fn is_well_formed(&self) -> (r: bool)
        ensures
            r == self.wf(),
    {
        self.p1_ships.len() == 100 && self.p1_hits.len() == 100 && self.p2_ships.len() == 100
            && self.p2_hits.len() == 100 && self.ships_sunk.len() == 2
            && side_is_ok(&self.p1_ships, &self.p1_hits, self.ships_sunk[0], self.setup_phase)
            && side_is_ok(&self.p2_ships, &self.p2_hits, self.ships_sunk[1], self.setup_phase)
    }

    /// Empty waters, nobody ready, setup phase.
    pub fn new() -> (r: BattleshipBoard)
        ensures
            r.wf(),
            r.p1_ships@ == empty_layout(),
            r.p2_ships@ == empty_layout(),
            r.p1_hits@ == empty_layout(),
            r.p2_hits@ == empty_layout(),
            r.setup_phase,
            !r.p1_ready,
            !r.p2_ready,
            r.moves@.len() == 0,
            r.ships_sunk@ == seq![0u8, 0u8],
    {
        let r = BattleshipBoard {
            p1_ships: vec![0u8; 100],
            p1_hits: vec![0u8; 100],
            p2_ships: vec![0u8; 100],
            p2_hits: vec![0u8; 100],
            setup_phase: true,
            p1_ready: false,
            p2_ready: false,
            moves: Vec::new(),
            ships_sunk: vec![0u8, 0u8],
        };
        assert(r.p1_ships@ =~= empty_layout());
        assert(r.p2_ships@ =~= empty_layout());
        assert(r.p1_hits@ =~= empty_layout());
        assert(r.p2_hits@ =~= empty_layout());
        assert(r.ships_sunk@ =~= seq![0u8, 0u8]);
        proof {
            lemma_sunk_count_unshot(r.p1_ships@, r.p1_hits@, 5);
            lemma_sunk_count_unshot(r.p2_ships@, r.p2_hits@, 5);
        }
        r
    }

    /// Lay out `player`'s fleet from "id,start,h|v;..." and mark the player
    /// ready; the setup phase ends once both are. False rejects a layout
    /// after setup, a malformed string, and a fleet that is not the five
    /// ships on the grid without overlap; it changes nothing.
    pub fn place_ships(&mut self, player: Player, ship_data: &str) -> (r: bool)
        requires
            old(self).wf(),
        ensures
            final(self).wf(),
            r == (old(self).setup_phase && parse_fleet(ship_data@) is Some),
            !r ==> *final(self) == *old(self),
            r ==> BattleshipBoard::fleet_placed(old(self), final(self), player, parse_fleet(ship_data@)->0),
    {
        if !self.setup_phase {
            return false;
        }
        let chars = chars_of(ship_data);
        let entries = split_chars(&chars, ';');
        let ghost ev = views_of(entries@);
        if entries.len() != FLEET_SIZE {
            return false;
        }
        let mut layout: Vec<u8> = vec![0u8; 100];
        assert(layout@ =~= empty_layout());
        let mut k: usize = 0;
        while k < entries.len()
            invariant
                *self == *old(self),
                self.wf(),
                ev == views_of(entries@),
                ev == split_on(ship_data@, ';'),
                0 <= k <= entries@.len(),
                layout@.len() == 100,
                forall|q: int| 0 <= q < 100 ==> #[trigger] layout@[q] <= 5,
                fleet_upto(ev, k as int) == Some(layout@),
            decreases entries@.len() - k,
        {
            let parts = split_chars(&entries[k], ',');
            assert(ev[k as int] == entries@[k as int]@);
            if parts.len() != 3 {
                proof {
                    lemma_fleet_fails_after(ev, k as int + 1, ev.len() as int);
                }
                return false;
            }
            let ghost pv = views_of(parts@);
            assert(pv[0] == parts@[0]@ && pv[1] == parts@[1]@ && pv[2] == parts@[2]@);
            let id: u8 = match parse_u8(&parts[0]) {
                Some(v) => v,
                None => 0,
            };
            let start: u8 = match parse_u8(&parts[1]) {
                Some(v) => v,
                None => 100,
            };
            let one_letter = parts[2].len() == 1;
            let horizontal = one_letter && parts[2][0] == 'h';
            let vertical = one_letter && parts[2][0] == 'v';
            assert(horizontal == (pv[2] == seq!['h']) && vertical == (pv[2] == seq!['v'])) by {
                if pv[2] == seq!['h'] || pv[2] == seq!['v'] {
                    assert(pv[2].len() == 1);
                }
                if horizontal {
                    assert(pv[2] =~= seq!['h']);
                }
                if vertical {
                    assert(pv[2] =~= seq!['v']);
                }
            }
            if !horizontal && !vertical {
                proof {
                    lemma_fleet_fails_after(ev, k as int + 1, ev.len() as int);
                }
                return false;
            }
            if !place_ship(&mut layout, id, start, horizontal) {
                proof {
                    lemma_fleet_fails_after(ev, k as int + 1, ev.len() as int);
                }
                return false;
            }
            k = k + 1;
        }
        proof {
            lemma_sunk_count_unshot(layout@, self.hits_of(player), 5);
            lemma_sunk_count_unshot(self.ships_of(player), self.hits_of(player), 5);
        }
        match player {
            Player::One => {
                self.p1_ships = layout;
                self.p1_ready = true;
            },
            Player::Two => {
                self.p2_ships = layout;
                self.p2_ready = true;
            },
        }
        if self.p1_ready && self.p2_ready {
            self.setup_phase = false;
        }
        true
    }

    /// Fire at cell `pos` of the opponent's waters. Returns whether a ship
    /// was hit, and the id of the ship this hit sinks (0 when none). A cell
    /// off the grid, one already fired at, or a shot during setup is
    /// refused with (false, 0) and changes nothing.
    pub fn attack(&mut self, attacker: Player, pos: u8) -> (r: (bool, u8))
        requires
            old(self).wf(),
        ensures
            final(self).wf(),
            ({
                let target = attacker.spec_other();
                let ships = old(self).ships_of(target);
                let hits = final(self).hits_of(target);
                if pos >= 100 || old(self).setup_phase || old(self).hits_of(target)[pos as int] != 0 {
                    r == (false, 0u8) && *final(self) == *old(self)
                } else {
                    &&& BattleshipBoard::attacked(old(self), final(self), attacker, pos)
                    &&& if ships[pos as int] != 0 {
                        &&& r.0
                        &&& r.1 == if all_hit(ships, hits, ships[pos as int]) { ships[pos as int] } else { 0 }
                    } else {
                        r == (false, 0u8)
                    }
                }
            }),
    {
        if pos >= 100 || self.setup_phase {
            return (false, 0);
        }
        let p = pos as usize;
        let ghost target = attacker.spec_other();
        let ghost ships = self.ships_of(target);
        let ghost hits0 = self.hits_of(target);
        let (hit, sunk) = match attacker {
            Player::One => {
                if self.p2_hits[p] != 0 {
                    return (false, 0);
                }
                strike(&self.p2_ships, &mut self.p2_hits, p)
            },
            Player::Two => {
                if self.p1_hits[p] != 0 {
                    return (false, 0);
                }
                strike(&self.p1_ships, &mut self.p1_hits, p)
            },
        };
        self.moves.push(pos);
        proof {
            let v: u8 = if ships[p as int] != 0 { 2 } else { 1 };
            lemma_sunk_count_shot(ships, hits0, p as int, v, 5);
            lemma_sunk_count_le(ships, self.hits_of(target), 5);
        }
        if sunk != 0 {
            let t = attacker.other().index();
            let n = self.ships_sunk[t];
            self.ships_sunk.set(t, n + 1);
        }
        (hit, sunk)
    }

    /// The player whose opponent has lost all five ships, if any.
    pub fn check_winner(&self) -> (r: Option<Player>)
        requires
            self.wf(),
        ensures
            r == if self.sunk_of(Player::One) >= 5 {
                Some(Player::Two)
            } else if self.sunk_of(Player::Two) >= 5 {
                Some(Player::One)
            } else {
                None::<Player>
            },
    {
        if self.ships_sunk[0] >= 5 {
            return Some(Player::Two);
        }
        if self.ships_sunk[1] >= 5 {
            return Some(Player::One);
        }
        None
    }
}

/// Record a shot at untouched cell `p`: a hit (2) on a ship, else a miss (1).
fn strike(ships: &Vec<u8>, hits: &mut Vec<u8>, p: usize) -> (r: (bool, u8))
    requires
        ships@.len() == 100,
        old(hits)@.len() == 100,
        p < 100,
    ensures
        final(hits)@.len() == 100,
        ships@[p as int] != 0 ==> {
            &&& final(hits)@ == old(hits)@.update(p as int, 2)
            &&& r.0
            &&& r.1 == if all_hit(ships@, final(hits)@, ships@[p as int]) { ships@[p as int] } else { 0 }
        },
        ships@[p as int] == 0 ==> final(hits)@ == old(hits)@.update(p as int, 1) && r == (false, 0u8),
{
    if ships[p] != 0 {
        hits.set(p, 2);
        let ship_id = ships[p];
        let mut i: usize = 0;
        while i < 100
            invariant
                ships@.len() == 100,
                hits@ == old(hits)@.update(p as int, 2),
                old(hits)@.len() == 100,
                hits@.len() == 100,
                p < 100,
                ship_id == ships@[p as int],
                ship_id != 0,
                0 <= i <= 100,
                forall|k: int| 0 <= k < i && ships@[k] == ship_id ==> #[trigger] hits@[k] == 2,
            decreases 100 - i,
        {
            if ships[i] == ship_id && hits[i] != 2 {
                assert(!all_hit(ships@, hits@, ship_id));
                return (true, 0);
            }
            i = i + 1;
        }
        (true, ship_id)
    } else {
        hits.set(p, 1);
        (false, 0)
    }
}

proof fn lemma_fleet_fails_after(entries: Seq<Seq<char>>, k: int, n: int)
    requires
        1 <= k <= n,
        fleet_upto(entries, k) is None,
    ensures
        fleet_upto(entries, n) is None,
    decreases n - k,
{
    if k < n {
        lemma_fleet_fails_after(entries, k, n - 1);
    }
}

} // verus!
