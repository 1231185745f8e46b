//! Per-player battle state: runtime skills, one-shot items, buff instances,
//! health, energy, position and turn bookkeeping.

use vstd::prelude::*;
use crate::templates::{BuffKind, SkillTemplate, TemplateService};

verus! {

/// Open-actions a combatant is granted at each of its turn starts.
pub const DEFAULT_OPEN_TIMES: u32 = 2;

/// Saturating 32-bit addition.
pub open spec fn sat_add32(a: u32, b: u32) -> u32 {
    if a + b > u32::MAX {
        u32::MAX
    } else {
        (a + b) as u32
    }
}

/// Saturating add, clamped at `u32::MAX`.
pub fn sat_add(a: u32, b: u32) -> (r: u32)
    ensures
        r == sat_add32(a, b),
{
    if b > u32::MAX - a {
        u32::MAX
    } else {
        a + b
    }
}

/// Whether a combatant is alive or has been eliminated.
#[derive(Clone, Copy, PartialEq, Eq, Structural, Debug)]
pub enum BattleCterState {
    Alive,
    Died,
}

/// A combatant's runtime skill: remaining cooldown plus the active flag.
/// Only active skills tick down when the owner opens a tile.
#[derive(Clone, Copy, PartialEq, Eq, Structural, Debug)]
pub struct Skill {
    pub id: u32,
    pub cd_times: u32,
    pub is_active: bool,
}

/// A one-shot item wrapping a skill template; consumed on use.
#[derive(Clone, PartialEq, Eq, Structural, Debug)]
pub struct Item {
    pub id: u32,
    pub skill_temp: SkillTemplate,
}

/// A runtime buff instance: uses remaining and turns remaining. A buff
/// with either counter at zero is removed on its next evaluation and is
/// never invoked again.
#[derive(Clone, Copy, PartialEq, Eq, Structural, Debug)]
pub struct Buff {
    pub id: u32,
    pub trigger_timesed: u32,
    pub keep_times: u32,
}

/// A buff may still fire only while both of its counters are positive.
pub open spec fn live_buff(b: Buff) -> bool {
    b.trigger_timesed > 0 && b.keep_times > 0
}

/// An attack bonus a buff granted, taken back when the buff's reason ends.
#[derive(Clone, Copy, PartialEq, Eq, Structural, Debug)]
pub struct AddDamage {
    pub buff_id: u32,
    pub value: u32,
}

/// First position at or after `i` of a live buff whose template kind is
/// `kind`; `None` where the template is missing or no such buff lives.
pub open spec fn find_live_kind_from(s: Seq<Buff>, ts: TemplateService, kind: BuffKind, i: int) -> Option<int>
    decreases s.len() - i when 0 <= i <= s.len()
{
    if i >= s.len() {
        None
    } else if s[i].id != 0 && live_buff(s[i]) && match ts.spec_buff(s[i].id) {
        Some(t) => t.kind == kind,
        None => false,
    } {
        Some(i)
    } else {
        find_live_kind_from(s, ts, kind, i + 1)
    }
}

/// A found live buff of a kind sits in range, is live, has a nonzero id
/// and resolves to a template of that kind.
pub proof fn lemma_find_live_kind(s: Seq<Buff>, ts: TemplateService, kind: BuffKind, i: int, g: int)
    requires
        0 <= i <= s.len(),
        find_live_kind_from(s, ts, kind, i) == Some(g),
    ensures
        i <= g < s.len(),
        s[g].id != 0,
        live_buff(s[g]),
        match ts.spec_buff(s[g].id) {
            Some(t) => t.kind == kind,
            None => false,
        },
    decreases s.len() - i,
{
    if i < s.len() {
        if !(s[i].id != 0 && live_buff(s[i]) && match ts.spec_buff(s[i].id) {
            Some(t) => t.kind == kind,
            None => false,
        }) {
            lemma_find_live_kind(s, ts, kind, i + 1, g);
        }
    }
}

/// First position at or after `i` of the skill with the given id.
pub open spec fn find_skill_slot_from(s: Seq<Skill>, id: u32, i: int) -> Option<int>
    decreases s.len() - i when 0 <= i <= s.len()
{
    if i >= s.len() {
        None
    } else if s[i].id == id {
        Some(i)
    } else {
        find_skill_slot_from(s, id, i + 1)
    }
}

/// First position at or after `i` of the item with the given id.
pub open spec fn find_item_slot_from(s: Seq<Item>, id: u32, i: int) -> Option<int>
    decreases s.len() - i when 0 <= i <= s.len()
{
    if i >= s.len() {
        None
    } else if s[i].id == id {
        Some(i)
    } else {
        find_item_slot_from(s, id, i + 1)
    }
}

/// One turn-boundary settlement step of a buff list, positions `i` and on:
/// spent buffs drop out, the rest lose one turn of duration, and a buff
/// whose duration thereby ends drops out as well.
pub open spec fn tick_buffs_from(s: Seq<Buff>, i: int) -> Seq<Buff>
    decreases s.len() - i when 0 <= i <= s.len()
{
    if i >= s.len() {
        Seq::empty()
    } else if s[i].trigger_timesed > 0 && s[i].keep_times > 1 {
        seq![Buff { keep_times: (s[i].keep_times - 1) as u32, ..s[i] }] + tick_buffs_from(s, i + 1)
    } else {
        tick_buffs_from(s, i + 1)
    }
}

/// Whether a buff instance currently fires for the given kind: it is
/// live and its template resolves to that kind.
pub open spec fn buff_fires(b: Buff, ts: TemplateService, kind: BuffKind) -> bool {
    live_buff(b) && match ts.spec_buff(b.id) {
        Some(t) => t.kind == kind,
        None => false,
    }
}

/// A buff list after every firing buff of the given kind consumed one
/// use: a spent one drops out, the others count down.
pub open spec fn consume_kind_from(s: Seq<Buff>, ts: TemplateService, kind: BuffKind, i: int) -> Seq<Buff>
    decreases s.len() - i when 0 <= i <= s.len()
{
    if i >= s.len() {
        Seq::empty()
    } else if buff_fires(s[i], ts, kind) {
        if s[i].trigger_timesed == 1 {
            consume_kind_from(s, ts, kind, i + 1)
        } else {
            seq![Buff { trigger_timesed: (s[i].trigger_timesed - 1) as u32, ..s[i] }]
                + consume_kind_from(s, ts, kind, i + 1)
        }
    } else {
        seq![s[i]] + consume_kind_from(s, ts, kind, i + 1)
    }
}

/// What the firing buffs of the given kind delivered: one record per
/// firing buff, carrying its template's magnitude.
pub open spec fn collect_kind_from(s: Seq<Buff>, ts: TemplateService, kind: BuffKind, i: int) -> Seq<AddDamage>
    decreases s.len() - i when 0 <= i <= s.len()
{
    if i >= s.len() {
        Seq::empty()
    } else if buff_fires(s[i], ts, kind) {
        seq![AddDamage { buff_id: s[i].id, value: ts.spec_buff(s[i].id)->Some_0.value }]
            + collect_kind_from(s, ts, kind, i + 1)
    } else {
        collect_kind_from(s, ts, kind, i + 1)
    }
}


/// Whether a recorded attack bonus came from a pairing buff.
pub open spec fn pair_bonus(d: AddDamage, ts: TemplateService) -> bool {
    match ts.spec_buff(d.buff_id) {
        Some(t) => t.kind == BuffKind::PairAddAttack,
        None => false,
    }
}

/// Fire every live buff of one kind in a buff list: each consumes one
/// use, spent ones are removed, and the fired records come back.
pub fn consume_kind(buffs: &mut Vec<Buff>, ts: &TemplateService, kind: BuffKind) -> (fired: Vec<AddDamage>)
    ensures
        final(buffs)@ == consume_kind_from(old(buffs)@, *ts, kind, 0),
        fired@ == collect_kind_from(old(buffs)@, *ts, kind, 0),
{
    let n = buffs.len();
    let mut out: Vec<Buff> = Vec::new();
    let mut fired: Vec<AddDamage> = Vec::new();
    let mut i: usize = 0;
    while i < n
        invariant
            n == buffs@.len(),
            i <= n,
            buffs@ == old(buffs)@,
            consume_kind_from(buffs@, *ts, kind, 0) == out@ + consume_kind_from(buffs@, *ts, kind, i as int),
            collect_kind_from(buffs@, *ts, kind, 0) == fired@ + collect_kind_from(buffs@, *ts, kind, i as int),
        decreases n - i,
    {
        let b = buffs[i];
        let mut fires = false;
        let mut value: u32 = 0;
        if b.trigger_timesed > 0 && b.keep_times > 0 {
            match ts.get_buff(b.id) {
                Some(t) => {
                    if t.kind == kind {
                        fires = true;
                        value = t.value;
                    }
                }
                None => {}
            }
        }
        if fires {
            fired.push(AddDamage { buff_id: b.id, value });
            proof {
                assert(collect_kind_from(buffs@, *ts, kind, 0)
                    =~= fired@ + collect_kind_from(buffs@, *ts, kind, i + 1));
            }
            if b.trigger_timesed > 1 {
                out.push(Buff { trigger_timesed: b.trigger_timesed - 1, ..b });
                proof {
                    assert(consume_kind_from(buffs@, *ts, kind, 0)
                        =~= out@ + consume_kind_from(buffs@, *ts, kind, i + 1));
                }
            }
        } else {
            out.push(b);
            proof {
                assert(consume_kind_from(buffs@, *ts, kind, 0)
                    =~= out@ + consume_kind_from(buffs@, *ts, kind, i + 1));
            }
        }
        i += 1;
    }
    proof {
        assert(consume_kind_from(buffs@, *ts, kind, 0) =~= out@);
        assert(collect_kind_from(buffs@, *ts, kind, 0) =~= fired@);
    }
    *buffs = out;
    fired
}

/// Total magnitude delivered by a list of fired records, saturating.
pub fn sum_fired(v: &Vec<AddDamage>) -> (r: u32)
    ensures
        r == damage_acc(v@, 0, 0),
{
    let n = v.len();
    let mut acc: u32 = 0;
    let mut i: usize = 0;
    while i < n
        invariant
            n == v@.len(),
            i <= n,
            damage_acc(v@, 0, 0) == damage_acc(v@, i as int, acc),
        decreases n - i,
    {
        acc = sat_add(acc, v[i].value);
        i += 1;
    }
    acc
}

/// A skill after one tile-open tick: active skills count down, clamped at 0.
pub open spec fn spec_tick_cd(s: Skill) -> Skill {
    if s.is_active && s.cd_times > 0 {
        Skill { cd_times: (s.cd_times - 1) as u32, ..s }
    } else {
        s
    }
}

/// Damage accumulated left to right over attack bonuses, saturating.
pub open spec fn damage_acc(s: Seq<AddDamage>, i: int, acc: u32) -> u32
    decreases s.len() - i when 0 <= i <= s.len()
{
    if i >= s.len() {
        acc
    } else {
        damage_acc(s, i + 1, sat_add32(acc, s[i].value))
    }
}

/// Per-player battle state. Created from the room roster when the match
/// starts; never removed mid-match, only marked died.
#[derive(Clone, PartialEq, Eq, Debug)]
pub struct BattleCharacter {
    pub user_id: u32,
    pub cter_id: u32,
    /// Persistent skill rating carried across matches.
    pub grade: u32,
    pub hp: u32,
    pub defence: u32,
    pub atk: u32,
    pub energy: u32,
    /// The tile the combatant stands on.
    pub cell_index: usize,
    /// The most recently opened, not yet paired tile.
    pub recently_open_cell_index: Option<usize>,
    /// Open-actions left this turn.
    pub residue_open_times: u32,
    pub is_can_attack: bool,
    pub is_opened_cell: bool,
    pub is_attacked: bool,
    pub state: BattleCterState,
    pub skills: Vec<Skill>,
    pub items: Vec<Item>,
    pub buffs: Vec<Buff>,
    /// Attack bonuses granted by buffs, by granting buff id.
    pub add_damage_buffs: Vec<AddDamage>,
}

impl BattleCharacter {
    /// Whether the combatant has been eliminated.
    pub fn is_died(&self) -> (r: bool)
        ensures
            r == (self.state is Died),
    {
        match self.state {
            BattleCterState::Died => true,
            BattleCterState::Alive => false,
        }
    }

    /// Remember (or clear) the most recently opened, unpaired tile.
    pub fn set_recently_open_cell_index(&mut self, index: Option<usize>)
        ensures
            *final(self) == (BattleCharacter { recently_open_cell_index: index, ..*old(self) }),
    {
        self.recently_open_cell_index = index;
    }

    /// Reduce health by `damage`. On a crossing to zero the combatant is
    /// marked died and `true` comes back. A dead target is left untouched:
    /// health never falls below the zero floor and no second death fires.
    pub fn sub_hp(&mut self, damage: u32) -> (died: bool)
        ensures
            old(self).state is Died ==> *final(self) == *old(self) && !died,
            old(self).state is Alive && damage >= old(self).hp ==> {
                &&& died
                &&& *final(self) == (BattleCharacter { hp: 0, state: BattleCterState::Died, ..*old(self) })
            },
            old(self).state is Alive && damage < old(self).hp ==> {
                &&& !died
                &&& *final(self) == (BattleCharacter { hp: (old(self).hp - damage) as u32, ..*old(self) })
            },
    {
        match self.state {
            BattleCterState::Died => false,
            BattleCterState::Alive => {
                if damage >= self.hp {
                    self.hp = 0;
                    self.state = BattleCterState::Died;
                    true
                } else {
                    self.hp = self.hp - damage;
                    false
                }
            }
        }
    }

    /// Restore health, saturating.
    pub fn add_hp(&mut self, value: u32)
        ensures
            *final(self) == (BattleCharacter { hp: sat_add32(old(self).hp, value), ..*old(self) }),
    {
        self.hp = sat_add(self.hp, value);
    }

    /// Grant energy, saturating. Energy never goes negative and is only
    /// ever deducted with a clamp at zero.
    pub fn add_energy(&mut self, value: u32)
        ensures
            *final(self) == (BattleCharacter { energy: sat_add32(old(self).energy, value), ..*old(self) }),
    {
        self.energy = sat_add(self.energy, value);
    }

    /// Deduct an energy cost, clamped at zero rather than rejected.
    pub fn sub_energy(&mut self, cost: u32)
        ensures
            *final(self) == (BattleCharacter {
                energy: if cost <= old(self).energy { (old(self).energy - cost) as u32 } else { 0 },
                ..*old(self)
            }),
    {
        if cost <= self.energy {
            self.energy = self.energy - cost;
        } else {
            self.energy = 0;
        }
    }

    /// Turn-start reset of the combatant's own flags and open-actions.
    pub fn turn_reset(&mut self)
        ensures
            *final(self) == (BattleCharacter {
                residue_open_times: DEFAULT_OPEN_TIMES,
                is_can_attack: false,
                is_opened_cell: false,
                is_attacked: false,
                ..*old(self)
            }),
    {
        self.residue_open_times = DEFAULT_OPEN_TIMES;
        self.is_can_attack = false;
        self.is_opened_cell = false;
        self.is_attacked = false;
    }

    /// Map-regeneration reset: open-actions return and the recently-open
    /// pointer clears; the position is preserved.
    pub fn round_reset(&mut self)
        ensures
            *final(self) == (BattleCharacter {
                residue_open_times: DEFAULT_OPEN_TIMES,
                recently_open_cell_index: None,
                ..*old(self)
            }),
    {
        self.residue_open_times = DEFAULT_OPEN_TIMES;
        self.recently_open_cell_index = None;
    }

    /// Record the attack bonus a buff granted.
    pub fn trigger_add_damage_buff(&mut self, buff_id: u32, value: u32)
        ensures
            *final(self) == (BattleCharacter { add_damage_buffs: final(self).add_damage_buffs, ..*old(self) }),
            final(self).add_damage_buffs@ == old(self).add_damage_buffs@.push(AddDamage { buff_id, value }),
    {
        self.add_damage_buffs.push(AddDamage { buff_id, value });
    }

    /// Take back every attack bonus the given buff granted.
    pub fn remove_damage_buff(&mut self, buff_id: u32)
        ensures
            *final(self) == (BattleCharacter { add_damage_buffs: final(self).add_damage_buffs, ..*old(self) }),
            final(self).add_damage_buffs@ == old(self).add_damage_buffs@.filter(|d: AddDamage| d.buff_id != buff_id),
    {
        let n = self.add_damage_buffs.len();
        let mut out: Vec<AddDamage> = Vec::new();
        let mut i: usize = 0;
        while i < n
            invariant
                n == self.add_damage_buffs@.len(),
                i <= n,
                self.add_damage_buffs == old(self).add_damage_buffs,
                out@ == old(self).add_damage_buffs@.take(i as int).filter(|d: AddDamage| d.buff_id != buff_id),
            decreases n - i,
        {
            let d = self.add_damage_buffs[i];
            proof {
                assert(old(self).add_damage_buffs@.take(i + 1).drop_last() =~= old(self).add_damage_buffs@.take(i as int));
                reveal_with_fuel(Seq::filter, 2);
                assert(old(self).add_damage_buffs@.take(i + 1).last() == d);
            }
            if d.buff_id != buff_id {
                out.push(d);
            }
            i += 1;
        }
        proof {
            assert(old(self).add_damage_buffs@.take(n as int) =~= old(self).add_damage_buffs@);
        }
        self.add_damage_buffs = out;
    }

    /// Base attack plus every granted bonus, saturating.
    pub fn calc_damage(&self) -> (r: u32)
        ensures
            r == damage_acc(self.add_damage_buffs@, 0, self.atk),
    {
        let n = self.add_damage_buffs.len();
        let mut acc: u32 = self.atk;
        let mut i: usize = 0;
        while i < n
            invariant
                n == self.add_damage_buffs@.len(),
                i <= n,
                damage_acc(self.add_damage_buffs@, 0, self.atk) == damage_acc(self.add_damage_buffs@, i as int, acc),
            decreases n - i,
        {
            acc = sat_add(acc, self.add_damage_buffs[i].value);
            i += 1;
        }
        acc
    }

    /// Whether a live buff of the given kind is attached.
    pub fn find_buff_kind(&self, ts: &TemplateService, kind: BuffKind) -> (r: Option<u32>)
        ensures
            match find_live_kind_from(self.buffs@, *ts, kind, 0) {
                Some(i) => r == Some(self.buffs@[i].id),
                None => r is None,
            },
    {
        let n = self.buffs.len();
        let mut i: usize = 0;
        while i < n
            invariant
                n == self.buffs@.len(),
                i <= n,
                find_live_kind_from(self.buffs@, *ts, kind, 0) == find_live_kind_from(self.buffs@, *ts, kind, i as int),
            decreases n - i,
        {
            let b = self.buffs[i];
            if b.id != 0 && b.trigger_timesed > 0 && b.keep_times > 0 {
                match ts.get_buff(b.id) {
                    Some(t) => {
                        if t.kind == kind {
                            return Some(b.id);
                        }
                    }
                    None => {}
                }
            }
            i += 1;
        }
        None
    }

    /// Fire the first live guard buff against one incoming damage instance.
    /// Returns the guard's buff id (0 where none fired) and whether the
    /// guard was thereby exhausted and removed.
    pub fn trigger_attack_damge_gd(&mut self, ts: &TemplateService) -> (r: (u32, bool))
        ensures
            *final(self) == (BattleCharacter { buffs: final(self).buffs, ..*old(self) }),
            match find_live_kind_from(old(self).buffs@, *ts, BuffKind::Guard, 0) {
                None => r == (0u32, false) && final(self).buffs@ == old(self).buffs@,
                Some(i) => {
                    &&& r.0 == old(self).buffs@[i].id
                    &&& r.0 == old(self).buffs@[i].id
                    &&& if old(self).buffs@[i].trigger_timesed == 1 {
                        r.1 && final(self).buffs@ == old(self).buffs@.remove(i)
                    } else {
                        !r.1 && final(self).buffs@ == old(self).buffs@.update(
                            i,
                            Buff { trigger_timesed: (old(self).buffs@[i].trigger_timesed - 1) as u32, ..old(self).buffs@[i] },
                        )
                    }
                },
            },
    {
        let n = self.buffs.len();
        let mut i: usize = 0;
        while i < n
            invariant
                n == self.buffs@.len(),
                i <= n,
                self.buffs == old(self).buffs,
                *self == *old(self),
                find_live_kind_from(self.buffs@, *ts, BuffKind::Guard, 0)
                    == find_live_kind_from(self.buffs@, *ts, BuffKind::Guard, i as int),
            decreases n - i,
        {
            let b = self.buffs[i];
            if b.id != 0 && b.trigger_timesed > 0 && b.keep_times > 0 {
                match ts.get_buff(b.id) {
                    Some(t) => {
                        if t.kind == BuffKind::Guard {
                            if b.trigger_timesed == 1 {
                                self.buffs.remove(i);
                                return (b.id, true);
                            } else {
                                self.buffs.set(i, Buff { trigger_timesed: b.trigger_timesed - 1, ..b });
                                return (b.id, false);
                            }
                        }
                    }
                    None => {}
                }
            }
            i += 1;
        }
        (0, false)
    }

    /// Turn-boundary settlement of the attached buffs.
    pub fn settle_turn_buffs(&mut self)
        ensures
            *final(self) == (BattleCharacter { buffs: final(self).buffs, ..*old(self) }),
            final(self).buffs@ == tick_buffs_from(old(self).buffs@, 0),
    {
        let n = self.buffs.len();
        let mut out: Vec<Buff> = Vec::new();
        let mut i: usize = 0;
        while i < n
            invariant
                n == self.buffs@.len(),
                i <= n,
                self.buffs == old(self).buffs,
                *self == *old(self),
                tick_buffs_from(self.buffs@, 0) == out@ + tick_buffs_from(self.buffs@, i as int),
            decreases n - i,
        {
            let b = self.buffs[i];
            if b.trigger_timesed > 0 && b.keep_times > 1 {
                out.push(Buff { keep_times: b.keep_times - 1, ..b });
                proof {
                    assert(tick_buffs_from(self.buffs@, 0) =~= out@ + tick_buffs_from(self.buffs@, i + 1));
                }
            }
            i += 1;
        }
        proof {
            assert(tick_buffs_from(self.buffs@, 0) =~= out@);
        }
        self.buffs = out;
    }

    /// One tile-open tick: every active skill's cooldown counts down by
    /// one, clamped at zero. Cooldowns are never observed negative.
    pub fn sub_all_cds(&mut self)
        ensures
            *final(self) == (BattleCharacter { skills: final(self).skills, ..*old(self) }),
            final(self).skills@.len() == old(self).skills@.len(),
            forall|j: int| 0 <= j < old(self).skills@.len() ==>
                final(self).skills@[j] == spec_tick_cd(old(self).skills@[j]),
    {
        let n = self.skills.len();
        let mut i: usize = 0;
        while i < n
            invariant
                n == self.skills@.len(),
                self.skills@.len() == old(self).skills@.len(),
                i <= n,
                *self == (BattleCharacter { skills: self.skills, ..*old(self) }),
                forall|j: int| 0 <= j < i ==> self.skills@[j] == spec_tick_cd(old(self).skills@[j]),
                forall|j: int| i <= j < n ==> self.skills@[j] == old(self).skills@[j],
            decreases n - i,
        {
            let s = self.skills[i];
            if s.is_active && s.cd_times > 0 {
                self.skills.set(i, Skill { cd_times: s.cd_times - 1, ..s });
            }
            i += 1;
        }
    }

    /// Record every attack bonus of a fired list.
    pub fn extend_damage_buffs(&mut self, list: &Vec<AddDamage>)
        ensures
            *final(self) == (BattleCharacter { add_damage_buffs: final(self).add_damage_buffs, ..*old(self) }),
            final(self).add_damage_buffs@ == old(self).add_damage_buffs@ + list@,
    {
        let n = list.len();
        let mut i: usize = 0;
        while i < n
            invariant
                n == list@.len(),
                i <= n,
                *self == (BattleCharacter { add_damage_buffs: self.add_damage_buffs, ..*old(self) }),
                self.add_damage_buffs@ == old(self).add_damage_buffs@ + list@.take(i as int),
            decreases n - i,
        {
            self.add_damage_buffs.push(list[i]);
            proof {
                assert(old(self).add_damage_buffs@ + list@.take(i + 1)
                    =~= (old(self).add_damage_buffs@ + list@.take(i as int)).push(list@[i as int]));
            }
            i += 1;
        }
        proof {
            assert(old(self).add_damage_buffs@ + list@.take(n as int) =~= old(self).add_damage_buffs@ + list@);
        }
    }

    /// Attach one buff instance.
    pub fn add_buff_instance(&mut self, b: Buff)
        ensures
            *final(self) == (BattleCharacter { buffs: final(self).buffs, ..*old(self) }),
            final(self).buffs@ == old(self).buffs@.push(b),
    {
        self.buffs.push(b);
    }


    /// Map-regeneration update: open-actions return, the recently-open
    /// pointer clears, the position is preserved; every live
    /// map-regeneration buff fires once for its attack bonus, and every
    /// bonus a pairing buff granted is taken back.
    pub fn map_reset_update(&mut self, ts: &TemplateService)
        ensures
            ({
                let c0 = *old(self);
                let fired = collect_kind_from(c0.buffs@, *ts, BuffKind::ResetMapAddAttack, 0);
                &&& *final(self) == (BattleCharacter {
                    residue_open_times: DEFAULT_OPEN_TIMES,
                    recently_open_cell_index: None,
                    buffs: final(self).buffs,
                    add_damage_buffs: final(self).add_damage_buffs,
                    ..c0
                })
                &&& final(self).buffs@ == consume_kind_from(c0.buffs@, *ts, BuffKind::ResetMapAddAttack, 0)
                &&& final(self).add_damage_buffs@
                    == c0.add_damage_buffs@.filter(|d: AddDamage| !pair_bonus(d, *ts)) + fired
            }),
    {
        self.residue_open_times = DEFAULT_OPEN_TIMES;
        self.recently_open_cell_index = None;
        let fired = consume_kind(&mut self.buffs, ts, BuffKind::ResetMapAddAttack);
        let n = self.add_damage_buffs.len();
        let mut out: Vec<AddDamage> = Vec::new();
        let mut i: usize = 0;
        while i < n
            invariant
                n == self.add_damage_buffs@.len(),
                i <= n,
                self.add_damage_buffs == old(self).add_damage_buffs,
                out@ == old(self).add_damage_buffs@.take(i as int).filter(|d: AddDamage| !pair_bonus(d, *ts)),
            decreases n - i,
        {
            let d = self.add_damage_buffs[i];
            proof {
                assert(old(self).add_damage_buffs@.take(i + 1).drop_last()
                    =~= old(self).add_damage_buffs@.take(i as int));
                reveal_with_fuel(Seq::filter, 2);
                assert(old(self).add_damage_buffs@.take(i + 1).last() == d);
            }
            let keep = match ts.get_buff(d.buff_id) {
                Some(t) => !(t.kind == BuffKind::PairAddAttack),
                None => true,
            };
            if keep {
                out.push(d);
            }
            i += 1;
        }
        proof {
            assert(old(self).add_damage_buffs@.take(n as int) =~= old(self).add_damage_buffs@);
        }
        self.add_damage_buffs = out;
        self.extend_damage_buffs(&fired);
    }

    /// Shorten every cooldown by `value`, clamped at zero: cooldowns are
    /// never observed negative.
    pub fn reduce_all_cds(&mut self, value: u32)
        ensures
            *final(self) == (BattleCharacter { skills: final(self).skills, ..*old(self) }),
            final(self).skills@.len() == old(self).skills@.len(),
            forall|j: int| 0 <= j < old(self).skills@.len() ==>
                (#[trigger] final(self).skills@[j]) == (Skill {
                    cd_times: if old(self).skills@[j].cd_times >= value {
                        (old(self).skills@[j].cd_times - value) as u32
                    } else {
                        0
                    },
                    ..old(self).skills@[j]
                }),
    {
        let n = self.skills.len();
        let mut i: usize = 0;
        while i < n
            invariant
                n == self.skills@.len(),
                self.skills@.len() == old(self).skills@.len(),
                i <= n,
                *self == (BattleCharacter { skills: self.skills, ..*old(self) }),
                forall|j: int| 0 <= j < i ==>
                    (#[trigger] self.skills@[j]) == (Skill {
                        cd_times: if old(self).skills@[j].cd_times >= value {
                            (old(self).skills@[j].cd_times - value) as u32
                        } else {
                            0
                        },
                        ..old(self).skills@[j]
                    }),
                forall|j: int| i <= j < n ==> self.skills@[j] == old(self).skills@[j],
            decreases n - i,
        {
            let s = self.skills[i];
            let ncd = if s.cd_times >= value { s.cd_times - value } else { 0 };
            self.skills.set(i, Skill { cd_times: ncd, ..s });
            i += 1;
        }
    }

    /// Position of the skill with the given id, if owned.
    pub fn find_skill(&self, id: u32) -> (r: Option<usize>)
        ensures
            match r {
                Some(i) => find_skill_slot_from(self.skills@, id, 0) == Some(i as int) && i < self.skills@.len(),
                None => find_skill_slot_from(self.skills@, id, 0) is None,
            },
    {
        let n = self.skills.len();
        let mut i: usize = 0;
        while i < n
            invariant
                n == self.skills@.len(),
                i <= n,
                find_skill_slot_from(self.skills@, id, 0) == find_skill_slot_from(self.skills@, id, i as int),
            decreases n - i,
        {
            if self.skills[i].id == id {
                return Some(i);
            }
            i += 1;
        }
        None
    }

    /// Position of the item with the given id, if owned.
    pub fn find_item(&self, id: u32) -> (r: Option<usize>)
        ensures
            match r {
                Some(i) => find_item_slot_from(self.items@, id, 0) == Some(i as int) && i < self.items@.len(),
                None => find_item_slot_from(self.items@, id, 0) is None,
            },
    {
        let n = self.items.len();
        let mut i: usize = 0;
        while i < n
            invariant
                n == self.items@.len(),
                i <= n,
                find_item_slot_from(self.items@, id, 0) == find_item_slot_from(self.items@, id, i as int),
            decreases n - i,
        {
            if self.items[i].id == id {
                return Some(i);
            }
            i += 1;
        }
        None
    }
}

} // verus!
