//! The battle session aggregate: board, seats, combatants, elimination
//! ledger and outbound queues, with the turn scheduler and the damage and
//! health primitive.
//!
//! All cross-references are by stable player id; every operation looks a
//! combatant up by id and releases the access before touching a second one.

use vstd::prelude::*;
use crate::character::{tick_buffs_from, BattleCharacter, BattleCterState, Buff, DEFAULT_OPEN_TIMES};
use crate::report::{ActionUnit, BattleError, BuffSnapshot, Notice, TimerTask};
use crate::templates::TemplateService;
use crate::tile_map::{Cell, TileMap};
use crate::MEMBER_MAX;

verus! {

/// Saturating 32-bit subtraction: damage mitigation floors at zero.
pub open spec fn sat_sub32(a: u32, b: u32) -> u32 {
    if a >= b {
        (a - b) as u32
    } else {
        0
    }
}

/// Saturating subtraction, floored at zero.
pub fn sat_sub(a: u32, b: u32) -> (r: u32)
    ensures
        r == sat_sub32(a, b),
{
    if a >= b {
        a - b
    } else {
        0
    }
}

/// One elimination record: who fell, and in which rank group. Entries are
/// appended in elimination order; simultaneous deaths of one multi-target
/// action share a group.
#[derive(Clone, Copy, PartialEq, Eq, Structural, Debug)]
pub struct RankEntry {
    pub user_id: u32,
    pub group: u32,
}

/// First position at or after `i` of the combatant with the given user id.
pub open spec fn find_cter_from(s: Seq<BattleCharacter>, user: u32, i: int) -> Option<int>
    decreases s.len() - i when 0 <= i <= s.len()
{
    if i >= s.len() {
        None
    } else if s[i].user_id == user {
        Some(i)
    } else {
        find_cter_from(s, user, i + 1)
    }
}

/// Number of living combatants at positions `i` and on.
pub open spec fn alive_from(s: Seq<BattleCharacter>, i: int) -> int
    decreases s.len() - i when 0 <= i <= s.len()
{
    if i >= s.len() {
        0
    } else {
        (if s[i].state is Alive { 1int } else { 0int }) + alive_from(s, i + 1)
    }
}

/// The alive count is never negative.
pub proof fn lemma_alive_nonneg(s: Seq<BattleCharacter>, i: int)
    requires
        0 <= i <= s.len(),
    ensures
        alive_from(s, i) >= 0,
    decreases s.len() - i,
{
    if i < s.len() {
        lemma_alive_nonneg(s, i + 1);
    }
}

/// A living combatant at or after `i` makes the count from `i` positive.
pub proof fn lemma_alive_witness(s: Seq<BattleCharacter>, w: int, i: int)
    requires
        0 <= i <= w < s.len(),
        s[w].state is Alive,
    ensures
        alive_from(s, i) >= 1,
    decreases w - i,
{
    if i < w {
        lemma_alive_witness(s, w, i + 1);
    } else {
        lemma_alive_nonneg(s, i + 1);
    }
}

/// Two distinct living combatants witness an alive count of at least 2.
pub proof fn lemma_alive_at_least_two(s: Seq<BattleCharacter>, a: int, b: int, i: int)
    requires
        0 <= i <= a < b < s.len(),
        s[a].state is Alive,
        s[b].state is Alive,
    ensures
        alive_from(s, i) >= 2,
    decreases a - i,
{
    if i < a {
        lemma_alive_at_least_two(s, a, b, i + 1);
    } else {
        lemma_alive_witness(s, b, i + 1);
    }
}

/// Changing one combatant shifts the alive count by the change at it.
pub proof fn lemma_alive_update(s: Seq<BattleCharacter>, j: int, c: BattleCharacter, i: int)
    requires
        0 <= i <= s.len(),
        0 <= j < s.len(),
    ensures
        alive_from(s.update(j, c), i) == alive_from(s, i) + if i <= j {
            (if c.state is Alive { 1int } else { 0int })
                - (if s[j].state is Alive { 1int } else { 0int })
        } else {
            0int
        },
    decreases s.len() - i,
{
    if i < s.len() {
        lemma_alive_update(s, j, c, i + 1);
    }
}

/// Whether some ledger entry names the given user.
pub open spec fn ledger_contains(s: Seq<RankEntry>, user: u32) -> bool {
    exists|k: int| 0 <= k < s.len() && s[k].user_id == user
}

/// Arena id discipline: no player id is zero, no id appears twice, a
/// living combatant has positive health, and a remembered recently-open
/// tile lies on the board.
#[verifier::opaque]
pub open spec fn cters_wf(s: Seq<BattleCharacter>, maplen: int) -> bool {
    &&& forall|i: int| 0 <= i < s.len() ==> (#[trigger] s[i]).user_id != 0
    &&& forall|i: int| 0 <= i < s.len() ==> ((#[trigger] s[i]).state is Alive ==> s[i].hp > 0)
    &&& forall|i: int, j: int|
        #![trigger s[i].user_id, s[j].user_id]
        0 <= i < j < s.len() ==> s[i].user_id != s[j].user_id
    &&& forall|i: int| 0 <= i < s.len() ==>
        match (#[trigger] s[i]).recently_open_cell_index {
            Some(rc) => rc < maplen,
            None => true,
        }
}

/// Elimination-ledger discipline: every entry names a dead combatant
/// exactly once, every dead combatant is listed, and group numbers climb
/// by at most one, starting at zero.
#[verifier::opaque]
pub open spec fn ledger_wf(ledger: Seq<RankEntry>, cters: Seq<BattleCharacter>) -> bool {
    &&& forall|k: int| 0 <= k < ledger.len() ==>
        match find_cter_from(cters, (#[trigger] ledger[k]).user_id, 0) {
            Some(i) => cters[i].state is Died,
            None => false,
        }
    &&& forall|k1: int, k2: int|
        #![trigger ledger[k1].user_id, ledger[k2].user_id]
        0 <= k1 < k2 < ledger.len() ==> ledger[k1].user_id != ledger[k2].user_id
    &&& forall|i: int| 0 <= i < cters.len() && (#[trigger] cters[i]).state is Died ==>
        ledger_contains(ledger, cters[i].user_id)
    &&& (ledger.len() > 0 ==> ledger[0].group == 0)
    &&& forall|k: int| 0 <= k < ledger.len() - 1 ==>
        (#[trigger] ledger[k]).group <= ledger[k + 1].group <= ledger[k].group + 1
}

/// The session aggregate root. Owned by the match's controlling process
/// and mutated only through its own operations.
#[derive(Clone, PartialEq, Eq, Debug)]
pub struct BattleData {
    /// The board.
    pub tile_map: TileMap,
    /// Pick order of the choosing phase, one player id per seat; 0 empty.
    pub choice_orders: Vec<u32>,
    /// Next pick of the choosing phase.
    pub next_choice_index: usize,
    /// The seat holding the turn.
    pub next_turn_index: usize,
    /// Turn order, one player id per seat; 0 means an empty seat.
    pub turn_orders: Vec<u32>,
    /// Per-player battle state, stable-id arena.
    pub battle_cter: Vec<BattleCharacter>,
    /// Elimination ledger, in elimination order.
    pub rank_vec: Vec<RankEntry>,
    /// Turn time limit handed to the timer service, in milliseconds.
    pub turn_limit_time: u64,
    /// Set once the match has settled; no mutating command is accepted.
    pub settled: bool,
    /// Serial of the current turn; timeouts carrying an older serial are
    /// stale and ignored.
    pub turn_serial: u64,
    /// The read-only template lookup service.
    pub templates: TemplateService,
    /// Outbound notifications, drained by the surrounding process.
    pub notices: Vec<Notice>,
    /// Turn-timeout registrations, drained by the surrounding process.
    pub tasks: Vec<TimerTask>,
}

impl BattleData {
    /// The combatant arena position of a player id.
    pub open spec fn spec_cter_idx(self, user: u32) -> Option<int> {
        find_cter_from(self.battle_cter@, user, 0)
    }

    /// The combatant of a player id.
    pub open spec fn spec_cter(self, user: u32) -> Option<BattleCharacter> {
        match self.spec_cter_idx(user) {
            Some(i) => Some(self.battle_cter@[i]),
            None => None,
        }
    }

    /// The player id holding the current turn; 0 means an empty seat.
    pub open spec fn spec_turn_user(self) -> u32 {
        self.turn_orders@[self.next_turn_index as int]
    }

    /// Number of living combatants.
    pub open spec fn spec_alive_count(self) -> int {
        alive_from(self.battle_cter@, 0)
    }

    /// Whether the seat holds a living combatant.
    pub open spec fn seat_live(self, j: int) -> bool {
        &&& self.turn_orders@[j] != 0
        &&& match find_cter_from(self.battle_cter@, self.turn_orders@[j], 0) {
            Some(i) => self.battle_cter@[i].state is Alive,
            None => false,
        }
    }

    /// The seat the scheduler hands the turn to next: the first seat after
    /// the current one, in cyclic order and within one full lap, holding a
    /// living combatant. `k` is the lap step being probed.
    pub open spec fn next_live_seat_from(self, k: int) -> Option<int>
        decreases MEMBER_MAX + 1 - k when 1 <= k <= MEMBER_MAX + 1
    {
        if k > MEMBER_MAX {
            None
        } else {
            let j = ((self.next_turn_index + k) % (MEMBER_MAX as int));
            if self.seat_live(j) {
                Some(j)
            } else {
                self.next_live_seat_from(k + 1)
            }
        }
    }

    /// Session well-formedness: the board invariant, seat-table shapes,
    /// arena id discipline, and the elimination-ledger invariants.
    pub open spec fn wf(self) -> bool {
        &&& self.tile_map.wf()
        &&& self.turn_orders@.len() == MEMBER_MAX
        &&& self.choice_orders@.len() == MEMBER_MAX
        &&& self.next_turn_index < MEMBER_MAX
        &&& cters_wf(self.battle_cter@, self.tile_map.map@.len() as int)
        &&& ledger_wf(self.rank_vec@, self.battle_cter@)
    }

    /// A fresh, empty session around a template service: no seats filled,
    /// no combatants, an empty board, a one-minute turn limit.
    pub fn new(templates: TemplateService) -> (r: BattleData)
        ensures
            r.wf(),
            r.battle_cter@.len() == 0,
            r.rank_vec@.len() == 0,
            r.notices@.len() == 0,
            r.tasks@.len() == 0,
            !r.settled,
            r.next_turn_index == 0,
            r.next_choice_index == 0,
            r.turn_limit_time == 60000,
            r.templates == templates,
            forall|j: int| 0 <= j < MEMBER_MAX ==> r.turn_orders@[j] == 0,
            forall|j: int| 0 <= j < MEMBER_MAX ==> r.choice_orders@[j] == 0,
    {
        let mut turn_orders: Vec<u32> = Vec::new();
        let mut choice_orders: Vec<u32> = Vec::new();
        let mut i: usize = 0;
        while i < MEMBER_MAX
            invariant
                i <= MEMBER_MAX,
                turn_orders@.len() == i,
                choice_orders@.len() == i,
                forall|j: int| 0 <= j < i ==> turn_orders@[j] == 0,
                forall|j: int| 0 <= j < i ==> choice_orders@[j] == 0,
            decreases MEMBER_MAX - i,
        {
            turn_orders.push(0);
            choice_orders.push(0);
            i += 1;
        }
        proof {
            reveal(cters_wf);
            reveal(ledger_wf);
        }
        BattleData {
            tile_map: TileMap::new(),
            choice_orders,
            next_choice_index: 0,
            next_turn_index: 0,
            turn_orders,
            battle_cter: Vec::new(),
            rank_vec: Vec::new(),
            turn_limit_time: 60000,
            settled: false,
            turn_serial: 0,
            templates,
            notices: Vec::new(),
            tasks: Vec::new(),
        }
    }

    /// Seat a combatant from the room roster. Rejected when the seat is
    /// out of range or taken, the player id is zero or already seated, or
    /// the combatant's recorded position lies outside the board.
    #[verifier::rlimit(60)]
    pub fn add_combatant(&mut self, cter: BattleCharacter, seat: usize) -> (r: Result<(), BattleError>)
        requires
            old(self).wf(),
        ensures
            final(self).wf(),
            match r {
                Ok(()) => {
                    &&& cter.user_id != 0
                    &&& cter.hp > 0
                    &&& seat < MEMBER_MAX
                    &&& old(self).turn_orders@[seat as int] == 0
                    &&& old(self).spec_cter_idx(cter.user_id) is None
                    &&& *final(self) == (BattleData {
                        turn_orders: final(self).turn_orders,
                        battle_cter: final(self).battle_cter,
                        ..*old(self)
                    })
                    &&& final(self).turn_orders@ == old(self).turn_orders@.update(seat as int, cter.user_id)
                    &&& final(self).battle_cter@ == old(self).battle_cter@.push(
                        (BattleCharacter {
                            state: BattleCterState::Alive,
                            recently_open_cell_index: None,
                            ..cter
                        }),
                    )
                },
                Err(e) => {
                    &&& *final(self) == *old(self)
                    &&& (e == BattleError::InvalidCellIndex <==> seat >= MEMBER_MAX)
                    &&& (e == BattleError::NoSuchCombatant <==> seat < MEMBER_MAX && cter.user_id == 0)
                    &&& (e == BattleError::NoHealth <==> seat < MEMBER_MAX && cter.user_id != 0
                        && cter.hp == 0)
                    &&& (e == BattleError::CellOccupied <==> seat < MEMBER_MAX && cter.user_id != 0
                        && cter.hp != 0
                        && (old(self).turn_orders@[seat as int] != 0
                            || old(self).spec_cter_idx(cter.user_id) is Some))
                },
            },
    {
        if seat >= MEMBER_MAX {
            return Err(BattleError::InvalidCellIndex);
        }
        if cter.user_id == 0 {
            return Err(BattleError::NoSuchCombatant);
        }
        if cter.hp == 0 {
            return Err(BattleError::NoHealth);
        }
        if self.turn_orders[seat] != 0 {
            return Err(BattleError::CellOccupied);
        }
        if self.find_cter(cter.user_id).is_some() {
            return Err(BattleError::CellOccupied);
        }
        let user_id = cter.user_id;
        self.turn_orders.set(seat, user_id);
        let seated = BattleCharacter {
            state: BattleCterState::Alive,
            recently_open_cell_index: None,
            ..cter
        };
        let ghost seated_spec = seated;
        self.battle_cter.push(seated);
        proof {
            lemma_wf_after_seat(*old(self), *self, seated_spec, seat as int);
        }
        Ok(())
    }

    /// Arena position of the combatant with the given player id.
    pub fn find_cter(&self, user: u32) -> (r: Option<usize>)
        ensures
            match r {
                Some(i) => self.spec_cter_idx(user) == Some(i as int) && i < self.battle_cter@.len(),
                None => self.spec_cter_idx(user) is None,
            },
    {
        let n = self.battle_cter.len();
        let mut i: usize = 0;
        while i < n
            invariant
                n == self.battle_cter@.len(),
                i <= n,
                find_cter_from(self.battle_cter@, user, 0) == find_cter_from(self.battle_cter@, user, i as int),
            decreases n - i,
        {
            if self.battle_cter[i].user_id == user {
                return Some(i);
            }
            i += 1;
        }
        None
    }

    /// The player ids of every combatant, in arena order.
    pub fn get_battle_cters_vec(&self) -> (r: Vec<u32>)
        ensures
            r@.len() == self.battle_cter@.len(),
            forall|i: int| 0 <= i < r@.len() ==> r@[i] == self.battle_cter@[i].user_id,
    {
        let n = self.battle_cter.len();
        let mut v: Vec<u32> = Vec::new();
        let mut i: usize = 0;
        while i < n
            invariant
                n == self.battle_cter@.len(),
                i <= n,
                v@.len() == i,
                forall|j: int| 0 <= j < i ==> v@[j] == self.battle_cter@[j].user_id,
            decreases n - i,
        {
            v.push(self.battle_cter[i].user_id);
            i += 1;
        }
        v
    }

    /// The player id seated at the given turn index, or at the current one.
    pub fn get_turn_user(&self, index: Option<usize>) -> (r: Result<u32, BattleError>)
        requires
            self.wf(),
        ensures
            match index {
                Some(i) => if i < MEMBER_MAX {
                    r == Ok::<u32, BattleError>(self.turn_orders@[i as int])
                } else {
                    r == Err::<u32, BattleError>(BattleError::NoTurnUser)
                },
                None => r == Ok::<u32, BattleError>(self.spec_turn_user()),
            },
    {
        let i = match index {
            Some(i) => i,
            None => self.next_turn_index,
        };
        if i < MEMBER_MAX {
            Ok(self.turn_orders[i])
        } else {
            Err(BattleError::NoTurnUser)
        }
    }

    /// Number of living combatants.
    pub fn alive_count(&self) -> (r: usize)
        ensures
            r == self.spec_alive_count(),
    {
        let n = self.battle_cter.len();
        let mut count: usize = 0;
        let mut i: usize = 0;
        while i < n
            invariant
                n == self.battle_cter@.len(),
                i <= n,
                count <= i,
                alive_from(self.battle_cter@, 0)
                    == count + alive_from(self.battle_cter@, i as int),
            decreases n - i,
        {
            if !self.battle_cter[i].is_died() {
                count += 1;
            }
            i += 1;
        }
        proof {
            lemma_alive_nonneg(self.battle_cter@, n as int);
        }
        count
    }

    /// Advance the turn index to the next seat holding a living combatant,
    /// skipping eliminated and empty seats, at most one full lap. Where a
    /// full lap finds none, the index is left unchanged and the caller
    /// treats the state as an immediate settlement.
    #[verifier::rlimit(60)]
    pub fn add_next_turn_index(&mut self)
        requires
            old(self).wf(),
        ensures
            final(self).wf(),
            *final(self) == (BattleData { next_turn_index: final(self).next_turn_index, ..*old(self) }),
            match old(self).next_live_seat_from(1) {
                Some(j) => final(self).next_turn_index == j,
                None => final(self).next_turn_index == old(self).next_turn_index,
            },
    {
        let mut k: usize = 1;
        while k <= MEMBER_MAX
            invariant
                self.wf(),
                *self == *old(self),
                1 <= k <= MEMBER_MAX + 1,
                old(self).next_live_seat_from(1) == old(self).next_live_seat_from(k as int),
            decreases MEMBER_MAX + 1 - k,
        {
            let j = (self.next_turn_index + k) % MEMBER_MAX;
            let user_id = self.turn_orders[j];
            if user_id != 0 {
                match self.find_cter(user_id) {
                    Some(ci) => {
                        if !self.battle_cter[ci].is_died() {
                            self.next_turn_index = j;
                            return;
                        }
                    }
                    None => {}
                }
            }
            k += 1;
        }
    }

    /// Deduct health from a target: mitigation by the target's defense,
    /// floored at zero; a killing blow marks the target died and appends it
    /// to the elimination ledger — into the latest rank group when
    /// `is_same_action` says an earlier death of the same multi-target
    /// action exists, into a fresh group otherwise. A target that is
    /// already dead is left untouched: no double death, no duplicate rank
    /// entry, health never below zero.
    #[verifier::rlimit(100)]
    #[verifier::spinoff_prover]
    pub fn deduct_hp(&mut self, target: u32, raw_damage: u32, is_same_action: bool) -> (r: Result<(u32, bool), BattleError>)
        requires
            old(self).wf(),
        ensures
            final(self).wf(),
            match r {
                Err(e) => *final(self) == *old(self) && e == BattleError::NoSuchCombatant
                    && old(self).spec_cter_idx(target) is None,
                Ok((applied, died)) => match old(self).spec_cter_idx(target) {
                    None => false,
                    Some(ti) => {
                        let c = old(self).battle_cter@[ti];
                        let eff = sat_sub32(raw_damage, c.defence);
                        &&& applied == (if c.state is Died { 0u32 } else { eff })
                        &&& if c.state is Died {
                            *final(self) == *old(self) && !died
                        } else if eff >= c.hp {
                            &&& died
                            &&& final(self).battle_cter@ == old(self).battle_cter@.update(
                                ti,
                                (BattleCharacter { hp: 0, state: BattleCterState::Died, ..c }),
                            )
                            &&& final(self).rank_vec@ == old(self).rank_vec@.push(
                                (RankEntry { user_id: target, group: spec_next_group(old(self).rank_vec@, is_same_action) }),
                            )
                            &&& *final(self) == (BattleData {
                                battle_cter: final(self).battle_cter,
                                rank_vec: final(self).rank_vec,
                                ..*old(self)
                            })
                        } else {
                            &&& !died
                            &&& final(self).battle_cter@ == old(self).battle_cter@.update(
                                ti,
                                (BattleCharacter { hp: (c.hp - eff) as u32, ..c }),
                            )
                            &&& *final(self) == (BattleData {
                                battle_cter: final(self).battle_cter,
                                ..*old(self)
                            })
                        }
                    },
                },
            },
    {
        let ti = match self.find_cter(target) {
            Some(ti) => ti,
            None => {
                return Err(BattleError::NoSuchCombatant);
            }
        };
        let defence = self.battle_cter[ti].defence;
        let eff = sat_sub(raw_damage, defence);
        if self.battle_cter[ti].is_died() {
            return Ok((0, false));
        }
        if eff >= self.battle_cter[ti].hp {
            self.apply_kill(ti, target, is_same_action);
            Ok((eff, true))
        } else {
            let _ = self.battle_cter[ti].sub_hp(eff);
            proof {
                lemma_wf_cter_update(*old(self), *self, ti as int);
            }
            Ok((eff, false))
        }
    }

    /// Mark the combatant in slot `ti` died and append it to the ledger.
    #[verifier::rlimit(60)]
    fn apply_kill(&mut self, ti: usize, target: u32, is_same_action: bool)
        requires
            old(self).wf(),
            old(self).spec_cter_idx(target) == Some(ti as int),
            old(self).battle_cter@[ti as int].state is Alive,
        ensures
            final(self).wf(),
            final(self).battle_cter@ == old(self).battle_cter@.update(
                ti as int,
                (BattleCharacter {
                    hp: 0,
                    state: BattleCterState::Died,
                    ..old(self).battle_cter@[ti as int]
                }),
            ),
            final(self).rank_vec@ == old(self).rank_vec@.push(
                (RankEntry { user_id: target, group: spec_next_group(old(self).rank_vec@, is_same_action) }),
            ),
            *final(self) == (BattleData {
                battle_cter: final(self).battle_cter,
                rank_vec: final(self).rank_vec,
                ..*old(self)
            }),
    {
        proof {
            lemma_find_cter_unique(old(self).battle_cter@, target, 0, ti as int);
        }
        let hp = self.battle_cter[ti].hp;
        let _ = self.battle_cter[ti].sub_hp(hp);
        let group: u32 = if self.rank_vec.len() == 0 {
            0
        } else {
            let last = self.rank_vec[self.rank_vec.len() - 1].group;
            if is_same_action {
                last
            } else {
                if last < u32::MAX {
                    last + 1
                } else {
                    last
                }
            }
        };
        let entry = RankEntry { user_id: target, group };
        self.rank_vec.push(entry);
        proof {
            lemma_wf_after_death(*old(self), *self, ti as int, target, is_same_action);
        }
    }

    /// Turn-start reset of the new actor's own state: open-actions and
    /// per-turn flags return. A missing or dead actor changes nothing.
    pub fn turn_start_settlement(&mut self)
        requires
            old(self).wf(),
        ensures
            final(self).wf(),
            final(self).battle_cter@.len() == old(self).battle_cter@.len(),
            forall|i: int| 0 <= i < old(self).battle_cter@.len() ==>
                final(self).battle_cter@[i] == turn_base(*old(self), i),
            *final(self) == (BattleData { battle_cter: final(self).battle_cter, ..*old(self) }),
    {
        let user = self.turn_orders[self.next_turn_index];
        let ci = match self.find_cter(user) {
            Some(ci) => ci,
            None => {
                return;
            }
        };
        if !self.battle_cter[ci].is_died() {
            self.battle_cter[ci].turn_reset();
            proof {
                lemma_wf_cter_update(*old(self), *self, ci as int);
            }
        }
    }

    /// The uniform turn-start settlement sweep: the actor's own reset,
    /// then a turn-boundary tick of every combatant's buffs, then of every
    /// tile's buffs — the full sweep, since buffs can affect players other
    /// than the current actor.
    pub fn turn_start_summary(&mut self)
        requires
            old(self).wf(),
        ensures
            final(self).wf(),
            turn_start_rel(*old(self), *final(self)),
    {
        self.turn_start_settlement();
        let ghost mid = *self;
        let n = self.battle_cter.len();
        let mut i: usize = 0;
        while i < n
            invariant
                self.wf(),
                n == mid.battle_cter@.len(),
                i <= n,
                self.battle_cter@.len() == n,
                forall|j: int| 0 <= j < i ==> {
                    &&& same_but_buffs(#[trigger] self.battle_cter@[j], mid.battle_cter@[j])
                    &&& self.battle_cter@[j].buffs@ == tick_buffs_from(mid.battle_cter@[j].buffs@, 0)
                },
                forall|j: int| i <= j < n ==> self.battle_cter@[j] == mid.battle_cter@[j],
                *self == (BattleData { battle_cter: self.battle_cter, ..mid }),
            decreases n - i,
        {
            let ghost prev = *self;
            self.battle_cter[i].settle_turn_buffs();
            proof {
                lemma_wf_cter_update(prev, *self, i as int);
            }
            i += 1;
        }
        let ghost mid2 = *self;
        let m = self.tile_map.map.len();
        let mut ci: usize = 0;
        while ci < m
            invariant
                self.wf(),
                m == mid2.tile_map.map@.len(),
                ci <= m,
                self.tile_map.map@.len() == m,
                forall|k: int| 0 <= k < ci ==> {
                    &&& (#[trigger] self.tile_map.map@[k]) == (Cell { buffs: self.tile_map.map@[k].buffs, ..mid2.tile_map.map@[k] })
                    &&& self.tile_map.map@[k].buffs@ == tick_buffs_from(mid2.tile_map.map@[k].buffs@, 0)
                },
                forall|k: int| ci <= k < m ==> self.tile_map.map@[k] == mid2.tile_map.map@[k],
                self.tile_map.un_pair_count == mid2.tile_map.un_pair_count,
                *self == (BattleData { tile_map: self.tile_map, ..mid2 }),
            decreases m - ci,
        {
            self.tile_map.tick_cell_buffs(ci);
            ci += 1;
        }
    }

    /// Queue the per-turn notice: the active player and its buff snapshot,
    /// one copy addressed to every member. A missing actor changes nothing.
    pub fn send_battle_turn_notice(&mut self)
        requires
            old(self).wf(),
        ensures
            final(self).wf(),
            match old(self).spec_cter(old(self).spec_turn_user()) {
                None => *final(self) == *old(self),
                Some(c) => {
                    &&& *final(self) == (BattleData { notices: final(self).notices, ..*old(self) })
                    &&& final(self).notices@.len() == old(self).notices@.len() + old(self).battle_cter@.len()
                    &&& forall|k: int| 0 <= k < old(self).notices@.len() ==>
                        final(self).notices@[k] == old(self).notices@[k]
                    &&& forall|m: int| 0 <= m < old(self).battle_cter@.len() ==>
                        match #[trigger] final(self).notices@[old(self).notices@.len() + m] {
                            Notice::Turn { to, user_id, buffs } => {
                                &&& to == old(self).battle_cter@[m].user_id
                                &&& user_id == old(self).spec_turn_user()
                                &&& buffs@.len() == c.buffs@.len()
                                &&& forall|b: int| 0 <= b < c.buffs@.len() ==>
                                    buffs@[b] == spec_snap(c.buffs@[b])
                            },
                            _ => false,
                        }
                },
            },
    {
        let user = self.turn_orders[self.next_turn_index];
        let ci = match self.find_cter(user) {
            Some(ci) => ci,
            None => {
                return;
            }
        };
        let nb = self.battle_cter[ci].buffs.len();
        let mut snaps: Vec<BuffSnapshot> = Vec::new();
        let mut b: usize = 0;
        while b < nb
            invariant
                ci < self.battle_cter@.len(),
                nb == self.battle_cter@[ci as int].buffs@.len(),
                b <= nb,
                *self == *old(self),
                snaps@.len() == b,
                forall|x: int| 0 <= x < b ==>
                    snaps@[x] == spec_snap(self.battle_cter@[ci as int].buffs@[x]),
            decreases nb - b,
        {
            let bf = self.battle_cter[ci].buffs[b];
            snaps.push(BuffSnapshot {
                buff_id: bf.id,
                trigger_timesed: bf.trigger_timesed,
                keep_times: bf.keep_times,
            });
            b += 1;
        }
        let count = self.battle_cter.len();
        let mut m: usize = 0;
        while m < count
            invariant
                count == self.battle_cter@.len(),
                m <= count,
                *self == (BattleData { notices: self.notices, ..*old(self) }),
                snaps@.len() == old(self).battle_cter@[old(self).spec_cter_idx(user)->Some_0].buffs@.len(),
                forall|x: int| 0 <= x < snaps@.len() ==>
                    snaps@[x] == spec_snap(old(self).battle_cter@[old(self).spec_cter_idx(user)->Some_0].buffs@[x]),
                self.notices@.len() == old(self).notices@.len() + m,
                forall|k: int| 0 <= k < old(self).notices@.len() ==>
                    self.notices@[k] == old(self).notices@[k],
                forall|x: int| 0 <= x < m ==>
                    match #[trigger] self.notices@[old(self).notices@.len() + x] {
                        Notice::Turn { to, user_id, buffs } => {
                            &&& to == old(self).battle_cter@[x].user_id
                            &&& user_id == user
                            &&& buffs@ == snaps@
                        },
                        _ => false,
                    },
            decreases count - m,
        {
            let to = self.battle_cter[m].user_id;
            let copy = copy_snaps(&snaps);
            self.notices.push(Notice::Turn { to, user_id: user, buffs: copy });
            m += 1;
        }
    }

    /// Register the turn timer: the surrounding process arms a timeout of
    /// the configured limit, tagged with the current turn serial.
    fn build_battle_turn_task(&mut self)
        ensures
            *final(self) == (BattleData { tasks: final(self).tasks, ..*old(self) }),
            final(self).tasks@ == old(self).tasks@.push(
                (TimerTask { turn_serial: old(self).turn_serial, delay_ms: old(self).turn_limit_time }),
            ),
    {
        let t = TimerTask { turn_serial: self.turn_serial, delay_ms: self.turn_limit_time };
        self.tasks.push(t);
    }

    /// Hand the turn on: advance to the next living seat, run the
    /// turn-start settlement sweep, queue the turn notice for every member
    /// and register the turn timer. A settled session stays untouched.
    pub fn next_turn(&mut self)
        requires
            old(self).wf(),
        ensures
            final(self).wf(),
            next_turn_rel(*old(self), *final(self)),
    {
        if self.settled {
            return;
        }
        self.add_next_turn_index();
        self.turn_start_summary();
        self.send_battle_turn_notice();
        if self.turn_serial < u64::MAX {
            self.turn_serial = self.turn_serial + 1;
        }
        self.build_battle_turn_task();
    }

    /// Skip the rest of the turn: hand the turn straight on. Rejected once
    /// the match has settled.
    pub fn skip_turn(&mut self, au: &mut ActionUnit) -> (r: Result<(), BattleError>)
        requires
            old(self).wf(),
        ensures
            final(self).wf(),
            *final(au) == *old(au),
            match r {
                Ok(()) => !old(self).settled && next_turn_rel(*old(self), *final(self)),
                Err(e) => e == BattleError::MatchSettled && old(self).settled
                    && *final(self) == *old(self),
            },
    {
        if self.settled {
            return Err(BattleError::MatchSettled);
        }
        self.next_turn();
        Ok(())
    }

    /// A turn timeout fired: where the serial still names the current turn
    /// of an unsettled match, a skip is synthesized; a stale timer — one
    /// whose turn has already advanced — changes nothing.
    pub fn handle_timeout(&mut self, serial: u64)
        requires
            old(self).wf(),
        ensures
            final(self).wf(),
            serial != old(self).turn_serial || old(self).settled ==> *final(self) == *old(self),
            serial == old(self).turn_serial && !old(self).settled ==>
                next_turn_rel(*old(self), *final(self)),
    {
        if self.settled {
            return;
        }
        if serial != self.turn_serial {
            return;
        }
        self.next_turn();
    }
}

/// A combatant compared up to its buff list.
pub open spec fn same_but_buffs(a: BattleCharacter, b: BattleCharacter) -> bool {
    a == (BattleCharacter { buffs: a.buffs, ..b })
}

/// The buff snapshot pushed with a turn notice.
pub open spec fn spec_snap(b: Buff) -> BuffSnapshot {
    BuffSnapshot { buff_id: b.id, trigger_timesed: b.trigger_timesed, keep_times: b.keep_times }
}

/// What the actor's own turn-start reset leaves in slot `i`: the actor is
/// reset, everyone else is untouched.
pub open spec fn turn_base(pre: BattleData, i: int) -> BattleCharacter {
    let c = pre.battle_cter@[i];
    if pre.spec_cter_idx(pre.spec_turn_user()) == Some(i) && c.state is Alive {
        BattleCharacter {
            residue_open_times: DEFAULT_OPEN_TIMES,
            is_can_attack: false,
            is_opened_cell: false,
            is_attacked: false,
            ..c
        }
    } else {
        c
    }
}

/// The turn-start settlement sweep, as a relation on session states: the
/// actor reset, every combatant's and every tile's buffs ticked once, the
/// pair state untouched.
pub open spec fn turn_sweep_rel(pre: BattleData, post: BattleData) -> bool {
    &&& post.battle_cter@.len() == pre.battle_cter@.len()
    &&& forall|i: int| 0 <= i < pre.battle_cter@.len() ==> {
        &&& same_but_buffs(#[trigger] post.battle_cter@[i], turn_base(pre, i))
        &&& post.battle_cter@[i].buffs@ == tick_buffs_from(turn_base(pre, i).buffs@, 0)
    }
    &&& post.tile_map.map@.len() == pre.tile_map.map@.len()
    &&& forall|k: int| 0 <= k < pre.tile_map.map@.len() ==> {
        &&& (#[trigger] post.tile_map.map@[k]) == (Cell { buffs: post.tile_map.map@[k].buffs, ..pre.tile_map.map@[k] })
        &&& post.tile_map.map@[k].buffs@ == tick_buffs_from(pre.tile_map.map@[k].buffs@, 0)
    }
    &&& post.tile_map.un_pair_count == pre.tile_map.un_pair_count
}

/// The turn-start settlement sweep with everything else untouched.
pub open spec fn turn_start_rel(pre: BattleData, post: BattleData) -> bool {
    &&& turn_sweep_rel(pre, post)
    &&& post == (BattleData { tile_map: post.tile_map, battle_cter: post.battle_cter, ..pre })
}

/// One full turn handover: the turn index moves to the next living seat
/// (or stays, leaving settlement to the caller), the settlement sweep
/// runs, a turn notice is queued per member where the new actor exists,
/// the turn serial advances, and one timer task is registered under it.
/// A settled session stays untouched.
pub open spec fn next_turn_rel(pre: BattleData, post: BattleData) -> bool {
    if pre.settled {
        post == pre
    } else {
        let j = match pre.next_live_seat_from(1) {
            Some(j) => j,
            None => pre.next_turn_index as int,
        };
        let mid = BattleData { next_turn_index: j as usize, ..pre };
        let serial = if pre.turn_serial < u64::MAX { (pre.turn_serial + 1) as u64 } else { pre.turn_serial };
        &&& post.next_turn_index == j
        &&& turn_sweep_rel(mid, post)
        &&& post.turn_serial == serial
        &&& post.tasks@ == pre.tasks@.push(TimerTask { turn_serial: serial, delay_ms: pre.turn_limit_time })
        &&& match find_cter_from(post.battle_cter@, post.turn_orders@[j], 0) {
            Some(_) => {
                &&& post.notices@.len() == pre.notices@.len() + post.battle_cter@.len()
                &&& forall|k: int| 0 <= k < pre.notices@.len() ==> post.notices@[k] == pre.notices@[k]
                &&& forall|m: int| 0 <= m < post.battle_cter@.len() ==>
                    match #[trigger] post.notices@[pre.notices@.len() + m] {
                        Notice::Turn { to, user_id, buffs } => {
                            &&& to == post.battle_cter@[m].user_id
                            &&& user_id == post.turn_orders@[j]
                        },
                        _ => false,
                    }
            },
            None => post.notices@ == pre.notices@,
        }
        &&& post == (BattleData {
            next_turn_index: post.next_turn_index,
            tile_map: post.tile_map,
            battle_cter: post.battle_cter,
            turn_serial: post.turn_serial,
            notices: post.notices,
            tasks: post.tasks,
            ..pre
        })
    }
}

/// Copy a snapshot list for the next addressee.
fn copy_snaps(src: &Vec<BuffSnapshot>) -> (r: Vec<BuffSnapshot>)
    ensures
        r@ == src@,
{
    let n = src.len();
    let mut r: Vec<BuffSnapshot> = Vec::new();
    let mut i: usize = 0;
    while i < n
        invariant
            n == src@.len(),
            i <= n,
            r@ == src@.take(i as int),
        decreases n - i,
    {
        r.push(src[i]);
        proof {
            assert(src@.take(i + 1) =~= src@.take(i as int).push(src@[i as int]));
        }
        i += 1;
    }
    proof {
        assert(src@.take(n as int) =~= src@);
    }
    r
}

/// The group a fresh death joins: the latest group when it shares the
/// multi-target action of an earlier death, a fresh group otherwise.
pub open spec fn spec_next_group(ledger: Seq<RankEntry>, is_same_action: bool) -> u32 {
    if ledger.len() == 0 {
        0u32
    } else {
        let last = ledger[ledger.len() - 1].group;
        if is_same_action {
            last
        } else {
            if last < u32::MAX {
                (last + 1) as u32
            } else {
                last
            }
        }
    }
}

/// Pointwise-equal player ids leave every lookup position unchanged.
pub proof fn lemma_find_cter_same_ids(pre: Seq<BattleCharacter>, post: Seq<BattleCharacter>, user: u32, i: int)
    requires
        0 <= i <= pre.len(),
        post.len() == pre.len(),
        forall|j: int| 0 <= j < pre.len() ==> (#[trigger] post[j]).user_id == pre[j].user_id,
    ensures
        find_cter_from(post, user, i) == find_cter_from(pre, user, i),
    decreases pre.len() - i,
{
    if i < pre.len() {
        lemma_find_cter_same_ids(pre, post, user, i + 1);
    }
}

/// Any change to one combatant that keeps its id and life state — and
/// keeps or rebounds its recently-open pointer within the board —
/// preserves session well-formedness.
#[verifier::rlimit(100)]
#[verifier::spinoff_prover]
pub proof fn lemma_wf_cter_update(pre: BattleData, post: BattleData, ti: int)
    requires
        pre.wf(),
        0 <= ti < pre.battle_cter@.len(),
        post.battle_cter@ == pre.battle_cter@.update(ti, post.battle_cter@[ti]),
        post.battle_cter@[ti].user_id == pre.battle_cter@[ti].user_id,
        post.battle_cter@[ti].state == pre.battle_cter@[ti].state,
        post.battle_cter@[ti].state is Died || post.battle_cter@[ti].hp > 0
            || post.battle_cter@[ti].hp >= pre.battle_cter@[ti].hp,
        post.battle_cter@[ti].recently_open_cell_index == pre.battle_cter@[ti].recently_open_cell_index
            || match post.battle_cter@[ti].recently_open_cell_index {
                Some(rc) => rc < pre.tile_map.map@.len(),
                None => true,
            },
        post.tile_map == pre.tile_map,
        post.turn_orders == pre.turn_orders,
        post.choice_orders == pre.choice_orders,
        post.next_turn_index == pre.next_turn_index,
        post.rank_vec == pre.rank_vec,
    ensures
        post.wf(),
{
    reveal(cters_wf);
    reveal(ledger_wf);
    assert forall|k: int| 0 <= k < post.rank_vec@.len() implies
        match find_cter_from(post.battle_cter@, (#[trigger] post.rank_vec@[k]).user_id, 0) {
            Some(i) => post.battle_cter@[i].state is Died,
            None => false,
        } by {
        let u = post.rank_vec@[k].user_id;
        match find_cter_from(pre.battle_cter@, u, 0) {
            Some(i) => {
                lemma_find_cter_unique(pre.battle_cter@, u, 0, i);
                if u == pre.battle_cter@[ti].user_id {
                    assert(i == ti);
                    lemma_find_cter_update_same(pre.battle_cter@, ti, post.battle_cter@[ti], u);
                } else {
                    lemma_find_cter_update_other(pre.battle_cter@, ti, post.battle_cter@[ti], u, 0);
                }
            }
            None => {
                assert(false);
            }
        }
    }
    assert forall|i: int| 0 <= i < post.battle_cter@.len()
        && (#[trigger] post.battle_cter@[i]).state is Died implies
        ledger_contains(post.rank_vec@, post.battle_cter@[i].user_id) by {
        assert(pre.battle_cter@[i].state is Died);
        assert(pre.battle_cter@[i].user_id == post.battle_cter@[i].user_id);
    }
}

/// A sweep that keeps every combatant's id, life state and recently-open
/// pointer — and the board's length — preserves session well-formedness.
#[verifier::rlimit(100)]
#[verifier::spinoff_prover]
pub proof fn lemma_wf_cters_bulk(pre: BattleData, post: BattleData)
    requires
        pre.wf(),
        post.battle_cter@.len() == pre.battle_cter@.len(),
        forall|i: int| 0 <= i < pre.battle_cter@.len() ==> {
            &&& (#[trigger] post.battle_cter@[i]).user_id == pre.battle_cter@[i].user_id
            &&& post.battle_cter@[i].state == pre.battle_cter@[i].state
            &&& post.battle_cter@[i].hp == pre.battle_cter@[i].hp
            &&& post.battle_cter@[i].recently_open_cell_index == pre.battle_cter@[i].recently_open_cell_index
        },
        post.tile_map.wf(),
        post.tile_map.map@.len() == pre.tile_map.map@.len(),
        post.turn_orders == pre.turn_orders,
        post.choice_orders == pre.choice_orders,
        post.next_turn_index == pre.next_turn_index,
        post.rank_vec == pre.rank_vec,
    ensures
        post.wf(),
{
    reveal(cters_wf);
    reveal(ledger_wf);
    assert forall|k: int| 0 <= k < post.rank_vec@.len() implies
        match find_cter_from(post.battle_cter@, (#[trigger] post.rank_vec@[k]).user_id, 0) {
            Some(i) => post.battle_cter@[i].state is Died,
            None => false,
        } by {
        let u = post.rank_vec@[k].user_id;
        lemma_find_cter_same_ids(pre.battle_cter@, post.battle_cter@, u, 0);
        match find_cter_from(pre.battle_cter@, u, 0) {
            Some(i) => {
                lemma_find_cter_unique(pre.battle_cter@, u, 0, i);
            }
            None => {
                assert(false);
            }
        }
    }
    assert forall|i: int| 0 <= i < post.battle_cter@.len()
        && (#[trigger] post.battle_cter@[i]).state is Died implies
        ledger_contains(post.rank_vec@, post.battle_cter@[i].user_id) by {
        assert(pre.battle_cter@[i].state is Died);
    }
}

/// Seating a fresh combatant preserves session well-formedness.
#[verifier::rlimit(100)]
#[verifier::spinoff_prover]
pub proof fn lemma_wf_after_seat(pre: BattleData, post: BattleData, c: BattleCharacter, seat: int)
    requires
        pre.wf(),
        0 <= seat < MEMBER_MAX,
        c.user_id != 0,
        c.hp > 0,
        c.state is Alive,
        c.recently_open_cell_index is None,
        pre.spec_cter_idx(c.user_id) is None,
        post.battle_cter@ == pre.battle_cter@.push(c),
        post.turn_orders@ == pre.turn_orders@.update(seat, c.user_id),
        post.choice_orders == pre.choice_orders,
        post.next_turn_index == pre.next_turn_index,
        post.tile_map == pre.tile_map,
        post.rank_vec == pre.rank_vec,
    ensures
        post.wf(),
{
    reveal(cters_wf);
    reveal(ledger_wf);
    lemma_find_cter_none(pre.battle_cter@, c.user_id, 0);
    lemma_ledger_still_ok(pre.rank_vec@, pre.battle_cter@, c);
    assert forall|i: int| 0 <= i < post.battle_cter@.len()
        && (#[trigger] post.battle_cter@[i]).state is Died implies
        ledger_contains(post.rank_vec@, post.battle_cter@[i].user_id) by {
        assert(i < pre.battle_cter@.len());
        assert(pre.battle_cter@[i].state is Died);
    }
}

/// A killing blow plus its ledger entry preserves session well-formedness.
pub proof fn lemma_wf_after_death(pre: BattleData, post: BattleData, ti: int, target: u32, is_same_action: bool)
    requires
        pre.wf(),
        pre.spec_cter_idx(target) == Some(ti),
        pre.battle_cter@[ti].state is Alive,
        post.battle_cter@ == pre.battle_cter@.update(
            ti,
            (BattleCharacter { hp: 0, state: BattleCterState::Died, ..pre.battle_cter@[ti] }),
        ),
        post.rank_vec@ == pre.rank_vec@.push(
            (RankEntry { user_id: target, group: spec_next_group(pre.rank_vec@, is_same_action) }),
        ),
        post.tile_map == pre.tile_map,
        post.turn_orders == pre.turn_orders,
        post.choice_orders == pre.choice_orders,
        post.next_turn_index == pre.next_turn_index,
    ensures
        post.wf(),
{
    reveal(cters_wf);
    reveal(ledger_wf);
    lemma_find_cter_unique(pre.battle_cter@, target, 0, ti);
    lemma_ledger_after_death(pre.rank_vec@, pre.battle_cter@, post.battle_cter@, ti, target);
    assert forall|k: int| 0 <= k < post.rank_vec@.len() implies
        match find_cter_from(post.battle_cter@, (#[trigger] post.rank_vec@[k]).user_id, 0) {
            Some(i) => post.battle_cter@[i].state is Died,
            None => false,
        } by {
        if k < post.rank_vec@.len() - 1 {
            assert(post.rank_vec@[k] == pre.rank_vec@[k]);
        } else {
            lemma_find_cter_update_same(pre.battle_cter@, ti, post.battle_cter@[ti], target);
        }
    }
    assert forall|i: int| 0 <= i < post.battle_cter@.len()
        && (#[trigger] post.battle_cter@[i]).state is Died implies
        ledger_contains(post.rank_vec@, post.battle_cter@[i].user_id) by {
        if i == ti {
            assert(post.rank_vec@[post.rank_vec@.len() - 1].user_id == target);
        } else {
            assert(pre.battle_cter@[i].state is Died);
            let k = choose|k: int|
                0 <= k < pre.rank_vec@.len()
                && pre.rank_vec@[k].user_id == pre.battle_cter@[i].user_id;
            assert(post.rank_vec@[k].user_id == post.battle_cter@[i].user_id);
        }
    }
}

/// Seating a fresh, living combatant preserves the ledger invariants.
pub proof fn lemma_ledger_still_ok(ledger: Seq<RankEntry>, cters: Seq<BattleCharacter>, c: BattleCharacter)
    requires
        forall|k: int| 0 <= k < ledger.len() ==>
            match find_cter_from(cters, (#[trigger] ledger[k]).user_id, 0) {
                Some(i) => cters[i].state is Died,
                None => false,
            },
    ensures
        forall|k: int| 0 <= k < ledger.len() ==>
            match find_cter_from(cters.push(c), (#[trigger] ledger[k]).user_id, 0) {
                Some(i) => cters.push(c)[i].state is Died,
                None => false,
            },
{
    assert forall|k: int| 0 <= k < ledger.len() implies
        match find_cter_from(cters.push(c), (#[trigger] ledger[k]).user_id, 0) {
            Some(i) => cters.push(c)[i].state is Died,
            None => false,
        } by {
        let u = ledger[k].user_id;
        match find_cter_from(cters, u, 0) {
            Some(i) => {
                lemma_find_cter_unique(cters, u, 0, i);
                lemma_find_cter_push(cters, c, u, 0);
                assert(cters.push(c)[i] == cters[i]);
            }
            None => {
                assert(false);
            }
        }
    }
}

/// In a well-formed session the id found in a slot looks up to that slot.
pub proof fn lemma_cter_idx_of_slot(bd: BattleData, ci: int)
    requires
        bd.wf(),
        0 <= ci < bd.battle_cter@.len(),
    ensures
        bd.spec_cter_idx(bd.battle_cter@[ci].user_id) == Some(ci),
{
    reveal(cters_wf);
    let u = bd.battle_cter@[ci].user_id;
    match find_cter_from(bd.battle_cter@, u, 0) {
        Some(i) => {
            lemma_find_cter_unique(bd.battle_cter@, u, 0, i);
            assert(i == ci);
        }
        None => {
            lemma_find_cter_none(bd.battle_cter@, u, 0);
            assert(false);
        }
    }
}

/// A failed lookup means no slot at or after the start has the id.
pub proof fn lemma_find_cter_none(s: Seq<BattleCharacter>, user: u32, i: int)
    requires
        0 <= i <= s.len(),
        find_cter_from(s, user, i) is None,
    ensures
        forall|j: int| i <= j < s.len() ==> (#[trigger] s[j]).user_id != user,
    decreases s.len() - i,
{
    if i < s.len() {
        lemma_find_cter_none(s, user, i + 1);
    }
}

/// Appending a combatant does not change where existing ids are found.
pub proof fn lemma_find_cter_push(s: Seq<BattleCharacter>, c: BattleCharacter, user: u32, i: int)
    requires
        0 <= i <= s.len(),
        find_cter_from(s, user, i) is Some,
    ensures
        find_cter_from(s.push(c), user, i) == find_cter_from(s, user, i),
    decreases s.len() - i,
{
    if i < s.len() {
        if s[i].user_id != user {
            lemma_find_cter_push(s, c, user, i + 1);
        }
    }
}

/// Updating one slot moves lookups of other users nowhere, and lookups of
/// the updated combatant's own id to the same slot when the id is kept.
pub proof fn lemma_find_cter_update_other(s: Seq<BattleCharacter>, j: int, c: BattleCharacter, user: u32, i: int)
    requires
        0 <= i <= s.len(),
        0 <= j < s.len(),
        s[j].user_id == c.user_id,
        user != c.user_id,
    ensures
        find_cter_from(s.update(j, c), user, i) == find_cter_from(s, user, i),
    decreases s.len() - i,
{
    if i < s.len() {
        lemma_find_cter_update_other(s, j, c, user, i + 1);
    }
}

/// Updating a slot without changing its id leaves its own lookup in place.
pub proof fn lemma_find_cter_update_same(s: Seq<BattleCharacter>, j: int, c: BattleCharacter, user: u32)
    requires
        0 <= j < s.len(),
        s[j].user_id == c.user_id,
        c.user_id == user,
        find_cter_from(s, user, 0) == Some(j),
    ensures
        find_cter_from(s.update(j, c), user, 0) == Some(j),
{
    lemma_find_cter_update_same_from(s, j, c, user, 0);
}

/// Helper for `lemma_find_cter_update_same`, generalized over the start.
pub proof fn lemma_find_cter_update_same_from(s: Seq<BattleCharacter>, j: int, c: BattleCharacter, user: u32, i: int)
    requires
        0 <= i <= s.len(),
        0 <= j < s.len(),
        s[j].user_id == c.user_id,
        c.user_id == user,
        find_cter_from(s, user, i) == Some(j),
    ensures
        find_cter_from(s.update(j, c), user, i) == Some(j),
    decreases s.len() - i,
{
    if i < s.len() && i != j {
        lemma_find_cter_update_same_from(s, j, c, user, i + 1);
    }
}

/// After a killing blow the existing ledger entries still name the dead:
/// the updated combatant keeps its id, every other slot is untouched.
pub proof fn lemma_ledger_after_death(
    ledger: Seq<RankEntry>,
    pre: Seq<BattleCharacter>,
    post: Seq<BattleCharacter>,
    ti: int,
    target: u32,
)
    requires
        0 <= ti < pre.len(),
        pre[ti].user_id == target,
        pre[ti].state is Alive,
        forall|i: int, j: int|
            #![trigger pre[i].user_id, pre[j].user_id]
            0 <= i < j < pre.len() ==> pre[i].user_id != pre[j].user_id,
        post == pre.update(ti, (BattleCharacter { hp: 0, state: BattleCterState::Died, ..pre[ti] })),
        forall|k: int| 0 <= k < ledger.len() ==>
            match find_cter_from(pre, (#[trigger] ledger[k]).user_id, 0) {
                Some(i) => pre[i].state is Died,
                None => false,
            },
    ensures
        forall|k: int| 0 <= k < ledger.len() ==>
            match find_cter_from(post, (#[trigger] ledger[k]).user_id, 0) {
                Some(i) => post[i].state is Died,
                None => false,
            },
        forall|k: int| 0 <= k < ledger.len() ==> (#[trigger] ledger[k]).user_id != target,
{
    assert forall|k: int| 0 <= k < ledger.len() implies
        match find_cter_from(post, (#[trigger] ledger[k]).user_id, 0) {
            Some(i) => post[i].state is Died,
            None => false,
        } && ledger[k].user_id != target by {
        let u = ledger[k].user_id;
        match find_cter_from(pre, u, 0) {
            Some(i) => {
                lemma_find_cter_unique(pre, u, 0, i);
                if u == target {
                    assert(i == ti);
                    assert(false);
                } else {
                    lemma_find_cter_update_other(pre, ti, post[ti], u, 0);
                }
            }
            None => {
                assert(false);
            }
        }
    }
}

/// A non-killing wound keeps the ledger invariants: the hurt combatant
/// keeps its id and state names, every other slot is untouched.
pub proof fn lemma_ledger_after_hurt(
    ledger: Seq<RankEntry>,
    pre: Seq<BattleCharacter>,
    post: Seq<BattleCharacter>,
    ti: int,
)
    requires
        0 <= ti < pre.len(),
        pre[ti].state is Alive,
        forall|i: int, j: int|
            #![trigger pre[i].user_id, pre[j].user_id]
            0 <= i < j < pre.len() ==> pre[i].user_id != pre[j].user_id,
        post == pre.update(ti, post[ti]),
        post[ti].user_id == pre[ti].user_id,
        post[ti].state == pre[ti].state,
        forall|k: int| 0 <= k < ledger.len() ==>
            match find_cter_from(pre, (#[trigger] ledger[k]).user_id, 0) {
                Some(i) => pre[i].state is Died,
                None => false,
            },
    ensures
        forall|k: int| 0 <= k < ledger.len() ==>
            match find_cter_from(post, (#[trigger] ledger[k]).user_id, 0) {
                Some(i) => post[i].state is Died,
                None => false,
            },
{
    assert forall|k: int| 0 <= k < ledger.len() implies
        match find_cter_from(post, (#[trigger] ledger[k]).user_id, 0) {
            Some(i) => post[i].state is Died,
            None => false,
        } by {
        let u = ledger[k].user_id;
        match find_cter_from(pre, u, 0) {
            Some(i) => {
                lemma_find_cter_unique(pre, u, 0, i);
                if u == pre[ti].user_id {
                    assert(i == ti);
                    assert(false);
                } else {
                    lemma_find_cter_update_other(pre, ti, post[ti], u, 0);
                }
            }
            None => {
                assert(false);
            }
        }
    }
}

/// A successful lookup lands on a slot with the looked-up id, at or after
/// the start position.
pub proof fn lemma_find_cter_unique(s: Seq<BattleCharacter>, user: u32, i: int, found: int)
    requires
        0 <= i <= s.len(),
        find_cter_from(s, user, i) == Some(found),
    ensures
        i <= found < s.len(),
        s[found].user_id == user,
    decreases s.len() - i,
{
    if i < s.len() && s[i].user_id != user {
        lemma_find_cter_unique(s, user, i + 1, found);
    }
}

} // verus!
