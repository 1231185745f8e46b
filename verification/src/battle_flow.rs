//! Command resolution: opening a tile with its move, trap, pairing and
//! trigger steps; the normal attack with its guard and area pass; skill
//! and item resolution; map regeneration; and the end-of-match summary.

use vstd::prelude::*;
use crate::battle::{
    lemma_cter_idx_of_slot, lemma_wf_cter_update, sat_sub, sat_sub32, spec_next_group,
    BattleData, RankEntry,
};
use crate::character::{
    collect_kind_from, consume_kind, consume_kind_from, damage_acc, find_item_slot_from, find_skill_slot_from,
    sat_add, sat_add32, spec_tick_cd, sum_fired, AddDamage, BattleCharacter, BattleCterState,
    Buff, Skill,
};
use crate::report::{ActionUnit, BattleError, EffectKind, Notice, SummaryData, SummaryReport, TargetEntry};
use crate::templates::{BuffKind, ConstantKey, ConsumeType, SkillFamily, SkillTemplate, TargetType};
use crate::tile_map::{find_partner_from, Cell, CellSeed, MAX_CELLS};

verus! {

/// The report entry a fired trap leaves: the tile touched and the damage
/// applied after mitigation.
pub open spec fn trap_entry_ok(e: TargetEntry, index: int, applied: u32) -> bool {
    &&& e.effect_type == EffectKind::SkillDamage
    &&& e.effect_value == applied
    &&& e.target_value@ == seq![index as u32]
    &&& e.buffs@.len() == 0
    &&& e.lost_buffs@.len() == 0
    &&& e.passive_effects@.len() == 0
}

/// The report entry a successful pairing leaves: the partner tile.
pub open spec fn pair_entry_ok(e: TargetEntry, rc: int) -> bool {
    &&& e.effect_type == EffectKind::Pair
    &&& e.effect_value == 0
    &&& e.target_value@ == seq![rc as u32]
    &&& e.buffs@.len() == 0
    &&& e.lost_buffs@.len() == 0
    &&& e.passive_effects@.len() == 0
}

/// The report entry a tile's granted buff leaves.
pub open spec fn buff_entry_ok(e: TargetEntry, buff_id: u32) -> bool {
    &&& e.effect_type == EffectKind::AddBuff
    &&& e.effect_value == buff_id
    &&& e.target_value@.len() == 0
    &&& e.buffs@ == seq![buff_id]
    &&& e.lost_buffs@.len() == 0
    &&& e.passive_effects@.len() == 0
}

/// The first reason an open-tile command is rejected, if any: not this
/// player's turn, an unknown or dead actor, a tile off the board or
/// already resolved, or no open-actions left. A settled match rejects
/// everything.
pub open spec fn open_cell_err(pre: BattleData, user: u32, index: int) -> Option<BattleError> {
    if pre.settled {
        Some(BattleError::MatchSettled)
    } else if pre.spec_turn_user() == 0 {
        Some(BattleError::NoTurnUser)
    } else if user != pre.spec_turn_user() {
        Some(BattleError::NotYourTurn)
    } else {
        match pre.spec_cter_idx(user) {
            None => Some(BattleError::NoSuchCombatant),
            Some(ci) => {
                let c = pre.battle_cter@[ci];
                if c.state is Died {
                    Some(BattleError::ActorDied)
                } else if index >= pre.tile_map.map@.len() {
                    Some(BattleError::InvalidCellIndex)
                } else if pre.tile_map.map@[index].pair_index is Some {
                    Some(BattleError::CellAlreadyPaired)
                } else if c.residue_open_times == 0 {
                    Some(BattleError::NoOpenTimesLeft)
                } else {
                    None
                }
            },
        }
    }
}

/// Whether opening `index` pairs it with the actor's recently opened
/// tile: a remembered, distinct, still-unpaired tile of equal id.
pub open spec fn pair_cond(pre: BattleData, ci: int, index: int) -> bool {
    match pre.battle_cter@[ci].recently_open_cell_index {
        Some(rc) => {
            &&& rc != index
            &&& rc < pre.tile_map.map@.len()
            &&& pre.tile_map.map@[rc as int].pair_index is None
            &&& pre.tile_map.map@[rc as int].id == pre.tile_map.map@[index].id
        },
        None => false,
    }
}

/// What a successful open-tile command did, relating the state and the
/// report before and after. The steps, in order: the actor moves onto the
/// tile and its traps fire (a death here stops the command); the pairing
/// check runs against the recently opened tile; the open triggers grant
/// energy; a pairing grants the follow-up attack, clears the
/// recently-open pointer and collects the pair-attack bonuses, while a
/// non-pairing records the tile as recently opened; the tile's granted
/// buff attaches; and one open-action is spent while every active skill's
/// cooldown ticks down.
pub open spec fn open_cell_post(
    pre: BattleData,
    post: BattleData,
    au0: ActionUnit,
    au1: ActionUnit,
    user: u32,
    index: int,
    is_pair: bool,
) -> bool {
    let ci = pre.spec_cter_idx(user)->Some_0;
    let c0 = pre.battle_cter@[ci];
    let cell0 = pre.tile_map.map@[index];
    let ts = pre.templates;
    let trapdmg = damage_acc(collect_kind_from(cell0.buffs@, ts, BuffKind::Trap, 0), 0, 0);
    let eff = sat_sub32(trapdmg, c0.defence);
    let died = trapdmg > 0 && eff >= c0.hp;
    let cellbuffs1 = consume_kind_from(cell0.buffs@, ts, BuffKind::Trap, 0);
    if died {
        &&& !is_pair
        &&& post.battle_cter@ == pre.battle_cter@.update(
            ci,
            (BattleCharacter { cell_index: index as usize, hp: 0, state: BattleCterState::Died, ..c0 }),
        )
        &&& post.rank_vec@ == pre.rank_vec@.push(
            (RankEntry { user_id: user, group: spec_next_group(pre.rank_vec@, false) }),
        )
        &&& post.tile_map.map@ == pre.tile_map.map@.update(
            index,
            (Cell { buffs: post.tile_map.map@[index].buffs, ..cell0 }),
        )
        &&& post.tile_map.map@[index].buffs@ == cellbuffs1
        &&& post.tile_map.un_pair_count == pre.tile_map.un_pair_count
        &&& post == (BattleData {
            tile_map: post.tile_map,
            battle_cter: post.battle_cter,
            rank_vec: post.rank_vec,
            ..pre
        })
        &&& au1.from_user == au0.from_user
        &&& au1.action_value@ == au0.action_value@
        &&& au1.targets@.len() == au0.targets@.len() + 1
        &&& forall|k: int| 0 <= k < au0.targets@.len() ==> au1.targets@[k] == au0.targets@[k]
        &&& trap_entry_ok(au1.targets@.last(), index, eff)
    } else {
        let hp1 = if trapdmg > 0 { (c0.hp - eff) as u32 } else { c0.hp };
        let pairs = pair_cond(pre, ci, index);
        let rc = c0.recently_open_cell_index->Some_0 as int;
        let cellbuffs2 = consume_kind_from(cellbuffs1, ts, BuffKind::OpenGainEnergy, 0);
        let cgain = damage_acc(collect_kind_from(cellbuffs1, ts, BuffKind::OpenGainEnergy, 0), 0, 0);
        let cterbuffs1 = consume_kind_from(c0.buffs@, ts, BuffKind::OpenGainEnergy, 0);
        let pgain = damage_acc(collect_kind_from(c0.buffs@, ts, BuffKind::OpenGainEnergy, 0), 0, 0);
        let energy1 = sat_add32(c0.energy, sat_add32(cgain, pgain));
        let pairfired = collect_kind_from(cterbuffs1, ts, BuffKind::PairAddAttack, 0);
        let cterbuffs2 = if pairs {
            consume_kind_from(cterbuffs1, ts, BuffKind::PairAddAttack, 0)
        } else {
            cterbuffs1
        };
        let ebt = ts.spec_buff(cell0.extra_buff);
        let grant = cell0.extra_buff != 0 && match ebt {
            Some(t) => t.trigger_times > 0 && t.keep_times > 0,
            None => false,
        };
        let cterbuffs3 = if grant {
            cterbuffs2.push(
                Buff {
                    id: ebt->Some_0.id,
                    trigger_timesed: ebt->Some_0.trigger_times,
                    keep_times: ebt->Some_0.keep_times,
                },
            )
        } else {
            cterbuffs2
        };
        let t0 = au0.targets@.len() as int;
        let trapn = if trapdmg > 0 { 1int } else { 0int };
        let pairn = if pairs { 1int } else { 0int };
        let grantn = if grant { 1int } else { 0int };
        &&& is_pair == pairs
        &&& post.battle_cter@.len() == pre.battle_cter@.len()
        &&& forall|j: int| 0 <= j < pre.battle_cter@.len() && j != ci ==>
            post.battle_cter@[j] == pre.battle_cter@[j]
        &&& {
            let c1 = post.battle_cter@[ci];
            &&& c1.user_id == c0.user_id
            &&& c1.cter_id == c0.cter_id
            &&& c1.grade == c0.grade
            &&& c1.hp == hp1
            &&& c1.defence == c0.defence
            &&& c1.atk == c0.atk
            &&& c1.energy == energy1
            &&& c1.cell_index == index
            &&& c1.recently_open_cell_index == (if pairs { None } else { Some(index as usize) })
            &&& c1.residue_open_times == c0.residue_open_times - 1
            &&& c1.is_can_attack == (pairs || c0.is_can_attack)
            &&& c1.is_opened_cell
            &&& c1.is_attacked == c0.is_attacked
            &&& c1.state is Alive
            &&& c1.skills@.len() == c0.skills@.len()
            &&& forall|j: int| 0 <= j < c0.skills@.len() ==> c1.skills@[j] == spec_tick_cd(c0.skills@[j])
            &&& c1.items == c0.items
            &&& c1.buffs@ == cterbuffs3
            &&& c1.add_damage_buffs@ == if pairs {
                c0.add_damage_buffs@ + pairfired
            } else {
                c0.add_damage_buffs@
            }
        }
        &&& post.tile_map.map@.len() == pre.tile_map.map@.len()
        &&& post.tile_map.map@[index] == (Cell {
            buffs: post.tile_map.map@[index].buffs,
            pair_index: if pairs { Some(rc as usize) } else { None },
            ..cell0
        })
        &&& post.tile_map.map@[index].buffs@ == cellbuffs2
        &&& (pairs ==> post.tile_map.map@[rc] == (Cell {
            pair_index: Some(index as usize),
            ..pre.tile_map.map@[rc]
        }))
        &&& forall|k: int| 0 <= k < pre.tile_map.map@.len() && k != index && !(pairs && k == rc) ==>
            post.tile_map.map@[k] == pre.tile_map.map@[k]
        &&& post.tile_map.un_pair_count == pre.tile_map.un_pair_count - (if pairs { 2int } else { 0int })
        &&& post.rank_vec == pre.rank_vec
        &&& post == (BattleData { tile_map: post.tile_map, battle_cter: post.battle_cter, ..pre })
        &&& au1.from_user == au0.from_user
        &&& au1.action_value@ == au0.action_value@.push(cell0.id)
        &&& au1.targets@.len() == t0 + trapn + pairn + grantn
        &&& forall|k: int| 0 <= k < t0 ==> au1.targets@[k] == au0.targets@[k]
        &&& (trapdmg > 0 ==> trap_entry_ok(au1.targets@[t0], index, eff))
        &&& (pairs ==> pair_entry_ok(au1.targets@[t0 + trapn], rc))
        &&& (grant ==> buff_entry_ok(au1.targets@[t0 + trapn + pairn], cell0.extra_buff))
    }
}

/// Whether a tile offset list reaches `pos` from `center` on a board of
/// `maplen` tiles.
pub open spec fn in_scope(pos: int, center: int, offs: Seq<i32>, maplen: int) -> bool {
    exists|k: int| 0 <= k < offs.len() && 0 <= center + offs[k] < maplen && center + offs[k] == pos
}

/// The players a positional scope reaches: living combatants standing on a
/// reached tile, in arena order, the two excluded ids left out.
pub open spec fn scope_members_from(
    s: Seq<BattleCharacter>,
    center: int,
    offs: Seq<i32>,
    maplen: int,
    excl1: u32,
    excl2: u32,
    i: int,
) -> Seq<u32>
    decreases s.len() - i when 0 <= i <= s.len()
{
    if i >= s.len() {
        Seq::empty()
    } else if s[i].state is Alive && s[i].user_id != excl1 && s[i].user_id != excl2
        && in_scope(s[i].cell_index as int, center, offs, maplen) {
        seq![s[i].user_id] + scope_members_from(s, center, offs, maplen, excl1, excl2, i + 1)
    } else {
        scope_members_from(s, center, offs, maplen, excl1, excl2, i + 1)
    }
}

/// The actor's first live area-attack buff, if any.
pub open spec fn aoe_buff_of(pre: BattleData, cu: BattleCharacter) -> Option<int> {
    crate::character::find_live_kind_from(cu.buffs@, pre.templates, BuffKind::AddAttackAndAoe, 0)
}

/// The tile offsets of the actor's area-attack buff's scope template.
pub open spec fn aoe_offs(pre: BattleData, cu: BattleCharacter) -> Seq<i32> {
    let g = aoe_buff_of(pre, cu)->Some_0;
    let bt = pre.templates.spec_buff(cu.buffs@[g].id)->Some_0;
    pre.templates.spec_scope(bt.scope)->Some_0.direction.direction@
}

/// Whether the actor carries an area-attack buff whose scope template is
/// missing from the service — a lookup error, rejected before mutation.
pub open spec fn aoe_scope_missing(pre: BattleData, cu: BattleCharacter) -> bool {
    match aoe_buff_of(pre, cu) {
        Some(g) => match pre.templates.spec_buff(cu.buffs@[g].id) {
            Some(bt) => pre.templates.spec_scope(bt.scope) is None,
            None => true,
        },
        None => false,
    }
}

/// The first reason a normal attack is rejected, if any.
pub open spec fn attack_err(pre: BattleData, user: u32, targets: Seq<u32>) -> Option<BattleError> {
    if pre.settled {
        Some(BattleError::MatchSettled)
    } else if pre.spec_turn_user() == 0 {
        Some(BattleError::NoTurnUser)
    } else if user != pre.spec_turn_user() {
        Some(BattleError::NotYourTurn)
    } else {
        match pre.spec_cter_idx(user) {
            None => Some(BattleError::NoSuchCombatant),
            Some(ui) => {
                let cu = pre.battle_cter@[ui];
                if cu.state is Died {
                    Some(BattleError::ActorDied)
                } else if !cu.is_can_attack {
                    Some(BattleError::CannotAttack)
                } else if targets.len() == 0 {
                    Some(BattleError::InvalidTargets)
                } else if targets[0] == user {
                    Some(BattleError::SelfTarget)
                } else {
                    match pre.spec_cter_idx(targets[0]) {
                        None => Some(BattleError::NoSuchCombatant),
                        Some(ti) => {
                            if pre.battle_cter@[ti].state is Died {
                                Some(BattleError::TargetDied)
                            } else if aoe_scope_missing(pre, cu) {
                                Some(BattleError::MissingTemplate)
                            } else {
                                None
                            }
                        },
                    }
                }
            },
        }
    }
}

/// Whether an arena slot is struck by the area pass: a living combatant
/// other than the actor and the primary target, standing on a tile the
/// scope reaches from the primary target's position.
pub open spec fn aoe_hits(pre: BattleData, user: u32, target: u32, j: int) -> bool {
    let ui = pre.spec_cter_idx(user)->Some_0;
    let cu = pre.battle_cter@[ui];
    let ti = pre.spec_cter_idx(target)->Some_0;
    let center = pre.battle_cter@[ti].cell_index as int;
    let c = pre.battle_cter@[j];
    &&& aoe_buff_of(pre, cu) is Some
    &&& center < pre.tile_map.map@.len()
    &&& c.state is Alive
    &&& c.user_id != user
    &&& c.user_id != target
    &&& in_scope(c.cell_index as int, center, aoe_offs(pre, cu), pre.tile_map.map@.len() as int)
}

/// The players the area pass strikes, in arena order.
pub open spec fn aoe_members(pre: BattleData, user: u32, target: u32) -> Seq<u32> {
    let ui = pre.spec_cter_idx(user)->Some_0;
    let cu = pre.battle_cter@[ui];
    let ti = pre.spec_cter_idx(target)->Some_0;
    let center = pre.battle_cter@[ti].cell_index as int;
    if aoe_buff_of(pre, cu) is Some && center < pre.tile_map.map@.len() {
        scope_members_from(
            pre.battle_cter@,
            center,
            aoe_offs(pre, cu),
            pre.tile_map.map@.len() as int,
            user,
            target,
            0,
        )
    } else {
        Seq::empty()
    }
}

/// What a successful normal attack did: the primary target takes one
/// attack instance of the actor's damage — its guard, where one fires,
/// negating it fully — and, where the actor carries an area-attack buff,
/// every combatant in the buff's scope around the primary target takes
/// one instance too, the actor and the primary target excluded. One
/// report entry per struck combatant, in order; the actor's follow-up
/// attack is spent.
pub open spec fn attack_post(
    pre: BattleData,
    post: BattleData,
    au0: ActionUnit,
    au1: ActionUnit,
    user: u32,
    targets: Seq<u32>,
) -> bool {
    let ui = pre.spec_cter_idx(user)->Some_0;
    let cu = pre.battle_cter@[ui];
    let base = damage_acc(cu.add_damage_buffs@, 0, cu.atk);
    let target = targets[0];
    let ti = pre.spec_cter_idx(target)->Some_0;
    let ts = pre.templates;
    let members = aoe_members(pre, user, target);
    let t0 = au0.targets@.len() as int;
    &&& post.battle_cter@.len() == pre.battle_cter@.len()
    &&& post.battle_cter@[ui] == (BattleCharacter { is_can_attack: false, ..cu })
    &&& struck_ok(pre.battle_cter@[ti], post.battle_cter@[ti], ts, base)
    &&& forall|j: int| 0 <= j < pre.battle_cter@.len() && j != ui && j != ti ==>
        if aoe_hits(pre, user, target, j) {
            struck_ok(pre.battle_cter@[j], #[trigger] post.battle_cter@[j], ts, base)
        } else {
            post.battle_cter@[j] == pre.battle_cter@[j]
        }
    &&& post.rank_vec@.len() >= pre.rank_vec@.len()
    &&& forall|k: int| 0 <= k < pre.rank_vec@.len() ==> post.rank_vec@[k] == pre.rank_vec@[k]
    &&& post == (BattleData { battle_cter: post.battle_cter, rank_vec: post.rank_vec, ..pre })
    &&& au1.from_user == au0.from_user
    &&& au1.action_value@ == au0.action_value@
    &&& au1.targets@.len() == t0 + 1 + members.len()
    &&& forall|k: int| 0 <= k < t0 ==> au1.targets@[k] == au0.targets@[k]
    &&& strike_entry_ok(au1.targets@[t0], pre.battle_cter@[ti], ts, base)
    &&& forall|m: int| 0 <= m < members.len() ==> strike_entry_ok(
        #[trigger] au1.targets@[t0 + 1 + m],
        pre.battle_cter@[pre.spec_cter_idx(members[m])->Some_0],
        ts,
        base,
    )
}

/// A successful skill or item use, end to end: exactly one effect family
/// executed, then the cost was applied — energy deducted clamped at zero,
/// or the cooldown reset where the skill is not item-sourced.
pub open spec fn use_skill_ok(
    pre: BattleData,
    post: BattleData,
    au0: ActionUnit,
    au1: ActionUnit,
    user: u32,
    skill_id: u32,
    is_item: bool,
    targets: Seq<u32>,
) -> bool {
    let st = pre.templates.spec_skill(skill_id)->Some_0;
    match pre.templates.spec_family(skill_id) {
        Some(f) => exists|mid: BattleData|
            #[trigger] family_post(f, pre, mid, au0, au1, user, st, targets)
                && cost_post(mid, post, user, skill_id, is_item, st),
        None => false,
    }
}

/// The first live guard buff of a combatant, if any.
pub open spec fn guard_slot(c: BattleCharacter, ts: crate::templates::TemplateService) -> Option<int> {
    crate::character::find_live_kind_from(c.buffs@, ts, BuffKind::Guard, 0)
}

/// The damage actually thrown at a struck combatant: a firing guard
/// negates the whole instance.
pub open spec fn strike_raw(c: BattleCharacter, ts: crate::templates::TemplateService, base: u32) -> u32 {
    if guard_slot(c, ts) is Some {
        0u32
    } else {
        base
    }
}

/// The damage applied after the guard check and defense mitigation.
pub open spec fn strike_eff(c: BattleCharacter, ts: crate::templates::TemplateService, base: u32) -> u32 {
    sat_sub32(strike_raw(c, ts, base), c.defence)
}

/// Whether the guard that fired was thereby spent.
pub open spec fn strike_exhausts(c: BattleCharacter, ts: crate::templates::TemplateService) -> bool {
    match guard_slot(c, ts) {
        Some(g) => c.buffs@[g].trigger_timesed == 1,
        None => false,
    }
}

/// The struck combatant's buffs: the firing guard consumed one use.
pub open spec fn strike_buffs(c: BattleCharacter, ts: crate::templates::TemplateService) -> Seq<Buff> {
    match guard_slot(c, ts) {
        Some(g) => if c.buffs@[g].trigger_timesed == 1 {
            c.buffs@.remove(g)
        } else {
            c.buffs@.update(
                g,
                Buff { trigger_timesed: (c.buffs@[g].trigger_timesed - 1) as u32, ..c.buffs@[g] },
            )
        },
        None => c.buffs@,
    }
}


/// How one instance of fixed skill damage transforms a target: defense
/// mitigation, the zero floor, a possible death.
pub open spec fn skill_struck_ok(c0: BattleCharacter, c1: BattleCharacter, value: u32) -> bool {
    let eff = sat_sub32(value, c0.defence);
    &&& if eff >= c0.hp {
        c1.hp == 0 && c1.state is Died
    } else {
        c1.hp == c0.hp - eff && c1.state == c0.state
    }
    &&& c1 == (BattleCharacter { hp: c1.hp, state: c1.state, ..c0 })
}

/// The report entry one instance of fixed skill damage leaves.
pub open spec fn skill_entry_ok(e: TargetEntry, c0: BattleCharacter, value: u32) -> bool {
    &&& e.effect_type == EffectKind::SkillDamage
    &&& e.effect_value == sat_sub32(value, c0.defence)
    &&& e.target_value@ == seq![c0.cell_index as u32]
    &&& e.buffs@.len() == 0
    &&& e.lost_buffs@.len() == 0
    &&& e.passive_effects@.len() == 0
}

/// Healing collected left to right over scope members: the damage each
/// member actually took, saturating.
pub open spec fn heal_acc(pre: BattleData, members: Seq<u32>, value: u32, m: int, acc: u32) -> u32
    decreases members.len() - m when 0 <= m <= members.len()
{
    if m >= members.len() {
        acc
    } else {
        let c = pre.battle_cter@[pre.spec_cter_idx(members[m])->Some_0];
        heal_acc(pre, members, value, m + 1, sat_add32(acc, sat_sub32(value, c.defence)))
    }
}

/// The reason the supplied target list does not fit a target type, if any.
pub open spec fn check_targets_err(pre: BattleData, user: u32, tt: TargetType, targets: Seq<u32>) -> Option<BattleError> {
    if targets.len() == 0 {
        Some(BattleError::InvalidTargets)
    } else {
        match tt {
            TargetType::Oneself => if targets[0] != user {
                Some(BattleError::InvalidTargets)
            } else {
                None
            },
            TargetType::SingleEnemy => if targets[0] == user {
                Some(BattleError::SelfTarget)
            } else {
                match pre.spec_cter_idx(targets[0]) {
                    None => Some(BattleError::NoSuchCombatant),
                    Some(ti) => if pre.battle_cter@[ti].state is Died {
                        Some(BattleError::TargetDied)
                    } else {
                        None
                    },
                }
            },
            TargetType::AnyPlayer => match pre.spec_cter_idx(targets[0]) {
                None => Some(BattleError::NoSuchCombatant),
                Some(ti) => if pre.battle_cter@[ti].state is Died {
                    Some(BattleError::TargetDied)
                } else {
                    None
                },
            },
            TargetType::Cells => if cells_ok_from(targets, pre.tile_map.map@.len() as int, 0) {
                None
            } else {
                Some(BattleError::InvalidCellIndex)
            },
        }
    }
}

/// Whether every entry at or after `k` is a tile index on the board.
pub open spec fn cells_ok_from(targets: Seq<u32>, maplen: int, k: int) -> bool
    decreases targets.len() - k when 0 <= k <= targets.len()
{
    if k >= targets.len() {
        true
    } else {
        targets[k] < maplen && cells_ok_from(targets, maplen, k + 1)
    }
}

/// The reason a family's own shape checks reject the command, if any.
pub open spec fn family_err(pre: BattleData, user: u32, f: SkillFamily, st: SkillTemplate, targets: Seq<u32>) -> Option<BattleError> {
    let maplen = pre.tile_map.map@.len();
    match f {
        SkillFamily::Reposition => if targets.len() < 2 {
            Some(BattleError::InvalidTargets)
        } else if !(targets[0] < maplen) || !(targets[1] < maplen) {
            Some(BattleError::InvalidCellIndex)
        } else if targets[0] == targets[1] {
            Some(BattleError::InvalidTargets)
        } else if pre.tile_map.map@[targets[0] as int].pair_index is Some
            || pre.tile_map.map@[targets[1] as int].pair_index is Some {
            Some(BattleError::CellAlreadyPaired)
        } else {
            None
        },
        SkillFamily::Reveal => if !(targets[0] < maplen) {
            Some(BattleError::InvalidCellIndex)
        } else {
            None
        },
        SkillFamily::ApplyBuff => if pre.spec_cter_idx(targets[0]) is None {
            Some(BattleError::NoSuchCombatant)
        } else if pre.templates.spec_buff(st.buff) is None {
            Some(BattleError::MissingTemplate)
        } else {
            None
        },
        SkillFamily::AutoPair => if !(targets[0] < maplen) {
            Some(BattleError::InvalidCellIndex)
        } else if pre.tile_map.map@[targets[0] as int].pair_index is Some {
            Some(BattleError::CellAlreadyPaired)
        } else if find_partner_from(pre.tile_map.map@, targets[0] as int, 0) is None {
            Some(BattleError::InvalidTargets)
        } else {
            None
        },
        SkillFamily::ForcedMove => if targets.len() < 2 {
            Some(BattleError::InvalidTargets)
        } else if pre.spec_cter_idx(targets[0]) is None {
            Some(BattleError::NoSuchCombatant)
        } else if !(targets[1] < maplen) {
            Some(BattleError::InvalidCellIndex)
        } else if exists|j: int| 0 <= j < pre.battle_cter@.len()
            && (#[trigger] pre.battle_cter@[j]).state is Alive
            && pre.battle_cter@[j].cell_index == targets[1] {
            Some(BattleError::CellOccupied)
        } else {
            None
        },
        SkillFamily::AoeDamageHeal => if pre.templates.spec_scope(st.scope) is None {
            Some(BattleError::MissingTemplate)
        } else {
            None
        },
        SkillFamily::AoeDamage => if pre.templates.spec_scope(st.scope) is None {
            Some(BattleError::MissingTemplate)
        } else {
            None
        },
        SkillFamily::SingleDamage => if targets[0] == user {
            Some(BattleError::SelfTarget)
        } else if pre.spec_cter_idx(targets[0]) is None {
            Some(BattleError::NoSuchCombatant)
        } else if pre.battle_cter@[pre.spec_cter_idx(targets[0])->Some_0].state is Died {
            Some(BattleError::TargetDied)
        } else {
            None
        },
        SkillFamily::CooldownReduce => if pre.spec_cter_idx(targets[0]) is None {
            Some(BattleError::NoSuchCombatant)
        } else {
            None
        },
    }
}

/// The first reason a skill or item use is rejected, if any: the declared
/// validation order — the skill exists, its cooldown is zero, the target
/// list fits the declared target type, the judge condition holds, the id
/// classifies into a family, and the family's own shape checks pass.
pub open spec fn use_skill_err(pre: BattleData, user: u32, skill_id: u32, is_item: bool, targets: Seq<u32>) -> Option<BattleError> {
    if pre.settled {
        Some(BattleError::MatchSettled)
    } else if pre.spec_turn_user() == 0 {
        Some(BattleError::NoTurnUser)
    } else if user != pre.spec_turn_user() {
        Some(BattleError::NotYourTurn)
    } else {
        match pre.spec_cter_idx(user) {
            None => Some(BattleError::NoSuchCombatant),
            Some(ui) => {
                let cu = pre.battle_cter@[ui];
                if cu.state is Died {
                    Some(BattleError::ActorDied)
                } else if !is_item && find_skill_slot_from(cu.skills@, skill_id, 0) is None {
                    Some(BattleError::NoSuchSkill)
                } else if !is_item && cu.skills@[find_skill_slot_from(cu.skills@, skill_id, 0)->Some_0].cd_times > 0 {
                    Some(BattleError::SkillOnCooldown)
                } else {
                    match pre.templates.spec_skill(skill_id) {
                        None => Some(BattleError::MissingTemplate),
                        Some(st) => match check_targets_err(pre, user, st.target, targets) {
                            Some(e) => Some(e),
                            None => if st.skill_judge != 0 && pre.templates.spec_judge(st.skill_judge) is None {
                                Some(BattleError::MissingTemplate)
                            } else if st.skill_judge != 0
                                && cu.hp < pre.templates.spec_judge(st.skill_judge)->Some_0.min_hp {
                                Some(BattleError::JudgeNotMet)
                            } else {
                                match pre.templates.spec_family(skill_id) {
                                    None => Some(BattleError::UnknownSkillFamily),
                                    Some(f) => family_err(pre, user, f, st, targets),
                                }
                            },
                        },
                    }
                }
            },
        }
    }
}

/// What one effect family did, from the state before the effect to the
/// state after it, the cost not yet applied.
pub open spec fn family_post(
    f: SkillFamily,
    pre: BattleData,
    mid: BattleData,
    au0: ActionUnit,
    au1: ActionUnit,
    user: u32,
    st: SkillTemplate,
    targets: Seq<u32>,
) -> bool {
    let ui = pre.spec_cter_idx(user)->Some_0;
    let cu = pre.battle_cter@[ui];
    let maplen = pre.tile_map.map@.len();
    let t0 = au0.targets@.len() as int;
    match f {
        SkillFamily::Reposition => {
            let a = targets[0] as int;
            let b = targets[1] as int;
            &&& mid.tile_map.map@ == pre.tile_map.map@
                .update(a, (Cell { index: targets[0] as usize, ..pre.tile_map.map@[b] }))
                .update(b, (Cell { index: targets[1] as usize, ..pre.tile_map.map@[a] }))
            &&& mid.tile_map.un_pair_count == pre.tile_map.un_pair_count
            &&& mid == (BattleData { tile_map: mid.tile_map, ..pre })
            &&& one_entry_added(au0, au1, EffectKind::ChangeCellIndex, 0, seq![targets[0], targets[1]])
        },
        SkillFamily::Reveal => {
            &&& mid == pre
            &&& one_entry_added(au0, au1, EffectKind::ShowCell, pre.tile_map.map@[targets[0] as int].id, seq![targets[0]])
        },
        SkillFamily::ApplyBuff => {
            let ti = pre.spec_cter_idx(targets[0])->Some_0;
            let bt = pre.templates.spec_buff(st.buff)->Some_0;
            &&& mid.battle_cter@ == pre.battle_cter@.update(
                ti,
                (BattleCharacter { buffs: mid.battle_cter@[ti].buffs, ..pre.battle_cter@[ti] }),
            )
            &&& mid.battle_cter@[ti].buffs@ == pre.battle_cter@[ti].buffs@.push(
                (Buff { id: bt.id, trigger_timesed: bt.trigger_times, keep_times: bt.keep_times }),
            )
            &&& mid == (BattleData { battle_cter: mid.battle_cter, ..pre })
            &&& one_entry_added(au0, au1, EffectKind::AddBuff, st.buff, seq![targets[0]])
        },
        SkillFamily::AutoPair => {
            let a = targets[0] as int;
            let b = find_partner_from(pre.tile_map.map@, a, 0)->Some_0;
            &&& mid.tile_map.map@ == pre.tile_map.map@
                .update(a, (Cell { pair_index: Some(b as usize), ..pre.tile_map.map@[a] }))
                .update(b, (Cell { pair_index: Some(a as usize), ..pre.tile_map.map@[b] }))
            &&& mid.tile_map.un_pair_count == pre.tile_map.un_pair_count - 2
            &&& mid.battle_cter@ == pre.battle_cter@.update(
                ui,
                (BattleCharacter { is_can_attack: false, ..cu }),
            )
            &&& mid == (BattleData { tile_map: mid.tile_map, battle_cter: mid.battle_cter, ..pre })
            &&& one_entry_added(au0, au1, EffectKind::AutoPair, 0, seq![targets[0], b as u32])
        },
        SkillFamily::ForcedMove => {
            let ti = pre.spec_cter_idx(targets[0])->Some_0;
            &&& mid.battle_cter@ == pre.battle_cter@.update(
                ti,
                (BattleCharacter { cell_index: targets[1] as usize, ..pre.battle_cter@[ti] }),
            )
            &&& mid == (BattleData { battle_cter: mid.battle_cter, ..pre })
            &&& one_entry_added(au0, au1, EffectKind::MoveUser, 0, seq![targets[0], targets[1]])
        },
        SkillFamily::AoeDamageHeal => {
            let members = skill_scope_members(pre, user, cu.cell_index as int, st);
            let offs = pre.templates.spec_scope(st.scope)->Some_0.direction.direction@;
            let healed = heal_acc(pre, members, st.value, 0, 0);
            &&& aoe_damage_state_ok(pre, mid, user, cu.cell_index as int, offs, st.value)
            &&& mid.battle_cter@[ui] == (BattleCharacter {
                hp: sat_add32(cu.hp, healed),
                ..cu
            })
            &&& au1.from_user == au0.from_user
            &&& au1.action_value@ == au0.action_value@
            &&& au1.targets@.len() == t0 + members.len() + 1
            &&& forall|k: int| 0 <= k < t0 ==> au1.targets@[k] == au0.targets@[k]
            &&& forall|m: int| 0 <= m < members.len() ==> skill_entry_ok(
                #[trigger] au1.targets@[t0 + m],
                pre.battle_cter@[pre.spec_cter_idx(members[m])->Some_0],
                st.value,
            )
            &&& cure_entry_ok(au1.targets@.last(), healed)
        },
        SkillFamily::AoeDamage => {
            let members = skill_scope_members(pre, user, targets[0] as int, st);
            let offs = pre.templates.spec_scope(st.scope)->Some_0.direction.direction@;
            &&& aoe_damage_state_ok(pre, mid, user, targets[0] as int, offs, st.value)
            &&& mid.battle_cter@[ui] == cu
            &&& au1.from_user == au0.from_user
            &&& au1.action_value@ == au0.action_value@
            &&& au1.targets@.len() == t0 + members.len()
            &&& forall|k: int| 0 <= k < t0 ==> au1.targets@[k] == au0.targets@[k]
            &&& forall|m: int| 0 <= m < members.len() ==> skill_entry_ok(
                #[trigger] au1.targets@[t0 + m],
                pre.battle_cter@[pre.spec_cter_idx(members[m])->Some_0],
                st.value,
            )
        },
        SkillFamily::SingleDamage => {
            let ti = pre.spec_cter_idx(targets[0])->Some_0;
            let ct = pre.battle_cter@[ti];
            &&& mid.battle_cter@.len() == pre.battle_cter@.len()
            &&& skill_struck_ok(ct, mid.battle_cter@[ti], st.value)
            &&& forall|j: int| 0 <= j < pre.battle_cter@.len() && j != ti ==>
                mid.battle_cter@[j] == pre.battle_cter@[j]
            &&& mid.rank_vec@.len() >= pre.rank_vec@.len()
            &&& forall|k: int| 0 <= k < pre.rank_vec@.len() ==> mid.rank_vec@[k] == pre.rank_vec@[k]
            &&& mid == (BattleData { battle_cter: mid.battle_cter, rank_vec: mid.rank_vec, ..pre })
            &&& au1.from_user == au0.from_user
            &&& au1.action_value@ == au0.action_value@
            &&& au1.targets@.len() == t0 + 1
            &&& forall|k: int| 0 <= k < t0 ==> au1.targets@[k] == au0.targets@[k]
            &&& skill_entry_ok(au1.targets@.last(), ct, st.value)
        },
        SkillFamily::CooldownReduce => {
            let ti = pre.spec_cter_idx(targets[0])->Some_0;
            let ct = pre.battle_cter@[ti];
            &&& mid.battle_cter@ == pre.battle_cter@.update(
                ti,
                (BattleCharacter { skills: mid.battle_cter@[ti].skills, ..ct }),
            )
            &&& mid.battle_cter@[ti].skills@.len() == ct.skills@.len()
            &&& forall|j: int| 0 <= j < ct.skills@.len() ==>
                (#[trigger] mid.battle_cter@[ti].skills@[j]) == (Skill {
                    cd_times: sat_sub32(ct.skills@[j].cd_times, st.value),
                    ..ct.skills@[j]
                })
            &&& mid == (BattleData { battle_cter: mid.battle_cter, ..pre })
            &&& one_entry_added(au0, au1, EffectKind::SubCd, st.value, seq![targets[0]])
        },
    }
}

/// Whether an arena slot is struck by a skill's scoped pass: a living
/// combatant other than the actor, standing on a tile the scope reaches
/// from an on-board center.
pub open spec fn skill_hits(pre: BattleData, user: u32, center: int, offs: Seq<i32>, j: int) -> bool {
    let c = pre.battle_cter@[j];
    &&& 0 <= center < pre.tile_map.map@.len()
    &&& c.state is Alive
    &&& c.user_id != user
    &&& in_scope(c.cell_index as int, center, offs, pre.tile_map.map@.len() as int)
}

/// The shared shape of the scoped-damage families' state change: every
/// combatant the scope strikes takes one instance of fixed skill damage,
/// everyone else is untouched, and the ledger only grows.
pub open spec fn aoe_damage_state_ok(pre: BattleData, mid: BattleData, user: u32, center: int, offs: Seq<i32>, value: u32) -> bool {
    let ui = pre.spec_cter_idx(user)->Some_0;
    &&& mid.battle_cter@.len() == pre.battle_cter@.len()
    &&& forall|j: int| 0 <= j < pre.battle_cter@.len() && j != ui ==>
        if skill_hits(pre, user, center, offs, j) {
            skill_struck_ok(pre.battle_cter@[j], #[trigger] mid.battle_cter@[j], value)
        } else {
            mid.battle_cter@[j] == pre.battle_cter@[j]
        }
    &&& mid.rank_vec@.len() >= pre.rank_vec@.len()
    &&& forall|k: int| 0 <= k < pre.rank_vec@.len() ==> mid.rank_vec@[k] == pre.rank_vec@[k]
    &&& mid == (BattleData { battle_cter: mid.battle_cter, rank_vec: mid.rank_vec, ..pre })
}

/// The members a skill's scope template reaches around `center`, the
/// actor excluded; an off-board center reaches nobody.
pub open spec fn skill_scope_members(pre: BattleData, user: u32, center: int, st: SkillTemplate) -> Seq<u32> {
    if center < pre.tile_map.map@.len() {
        scope_members_from(
            pre.battle_cter@,
            center,
            pre.templates.spec_scope(st.scope)->Some_0.direction.direction@,
            pre.tile_map.map@.len() as int,
            user,
            user,
            0,
        )
    } else {
        Seq::empty()
    }
}

/// The healing entry the melee drain skill appends for its user.
pub open spec fn cure_entry_ok(e: TargetEntry, healed: u32) -> bool {
    &&& e.effect_type == EffectKind::Cure
    &&& e.effect_value == healed
    &&& e.target_value@.len() == 0
    &&& e.buffs@.len() == 0
    &&& e.lost_buffs@.len() == 0
    &&& e.passive_effects@.len() == 0
}

/// Exactly one report entry of the given kind, magnitude and touched
/// values was appended.
pub open spec fn one_entry_added(au0: ActionUnit, au1: ActionUnit, kind: EffectKind, value: u32, tv: Seq<u32>) -> bool {
    &&& au1.from_user == au0.from_user
    &&& au1.action_value@ == au0.action_value@
    &&& au1.targets@.len() == au0.targets@.len() + 1
    &&& forall|k: int| 0 <= k < au0.targets@.len() ==> au1.targets@[k] == au0.targets@[k]
    &&& au1.targets@.last().effect_type == kind
    &&& au1.targets@.last().effect_value == value
    &&& au1.targets@.last().target_value@ == tv
    &&& au1.targets@.last().buffs@.len() == 0
    &&& au1.targets@.last().lost_buffs@.len() == 0
    &&& au1.targets@.last().passive_effects@.len() == 0
}

/// How the cost step rewrites the user after the effect: an energy skill
/// deducts its cost clamped at zero — energy is never negative — while
/// any other skill, unless item-sourced, resets its cooldown to the
/// template base. An item never touches the backing skill's cooldown.
pub open spec fn cost_post(mid: BattleData, post: BattleData, user: u32, skill_id: u32, is_item: bool, st: SkillTemplate) -> bool {
    let ui = mid.spec_cter_idx(user)->Some_0;
    let cu = mid.battle_cter@[ui];
    match st.consume_type {
        ConsumeType::Energy => {
            &&& post.battle_cter@ == mid.battle_cter@.update(
                ui,
                (BattleCharacter {
                    energy: if st.consume_value <= cu.energy {
                        (cu.energy - st.consume_value) as u32
                    } else {
                        0
                    },
                    ..cu
                }),
            )
            &&& post == (BattleData { battle_cter: post.battle_cter, ..mid })
        },
        ConsumeType::Cooldown => if is_item {
            post == mid
        } else {
            match find_skill_slot_from(cu.skills@, skill_id, 0) {
                Some(sl) => {
                    &&& post.battle_cter@ == mid.battle_cter@.update(
                        ui,
                        (BattleCharacter { skills: post.battle_cter@[ui].skills, ..cu }),
                    )
                    &&& post.battle_cter@[ui].skills@ == cu.skills@.update(
                        sl,
                        (Skill { cd_times: st.cd, ..cu.skills@[sl] }),
                    )
                    &&& post == (BattleData { battle_cter: post.battle_cter, ..mid })
                },
                None => post == mid,
            }
        },
    }
}

/// How one attack instance of `base` damage transforms a struck combatant.
pub open spec fn struck_ok(c0: BattleCharacter, c1: BattleCharacter, ts: crate::templates::TemplateService, base: u32) -> bool {
    let eff = strike_eff(c0, ts, base);
    &&& c1.buffs@ == strike_buffs(c0, ts)
    &&& if eff >= c0.hp {
        c1.hp == 0 && c1.state is Died
    } else {
        c1.hp == c0.hp - eff && c1.state == c0.state
    }
    &&& c1.is_attacked == if guard_slot(c0, ts) is Some && strike_exhausts(c0, ts) {
        c0.is_attacked
    } else {
        true
    }
    &&& c1 == (BattleCharacter {
        hp: c1.hp,
        state: c1.state,
        is_attacked: c1.is_attacked,
        buffs: c1.buffs,
        ..c0
    })
}

/// The report entry one attack instance leaves on a struck combatant.
pub open spec fn strike_entry_ok(e: TargetEntry, c0: BattleCharacter, ts: crate::templates::TemplateService, base: u32) -> bool {
    &&& e.effect_type == EffectKind::AttackDamage
    &&& e.effect_value == strike_eff(c0, ts, base)
    &&& e.target_value@ == seq![c0.cell_index as u32]
    &&& e.buffs@.len() == 0
    &&& e.lost_buffs@ == if guard_slot(c0, ts) is Some && strike_exhausts(c0, ts) {
        seq![c0.buffs@[guard_slot(c0, ts)->Some_0].id]
    } else {
        Seq::<u32>::empty()
    }
    &&& e.passive_effects@ == match guard_slot(c0, ts) {
        Some(g) => seq![
            crate::report::TriggerEffect { buff_id: c0.buffs@[g].id, value: c0.buffs@[g].id },
        ],
        None => Seq::<crate::report::TriggerEffect>::empty(),
    }
}



/// The first living combatant, in arena order, if any.
pub open spec fn find_alive_from(s: Seq<BattleCharacter>, i: int) -> Option<int>
    decreases s.len() - i when 0 <= i <= s.len()
{
    if i >= s.len() {
        None
    } else if s[i].state is Alive {
        Some(i)
    } else {
        find_alive_from(s, i + 1)
    }
}

/// The surviving player, where one is left.
pub open spec fn spec_survivor(pre: BattleData) -> Option<u32> {
    match find_alive_from(pre.battle_cter@, 0) {
        Some(i) => Some(pre.battle_cter@[i].user_id),
        None => None,
    }
}

/// The grade a settling participant ends with: up by one for the best
/// rank group, down by one otherwise, clamped into `[1, maxgrade]` — the
/// upper clamp first, then the floor at one.
pub open spec fn spec_new_grade(old_grade: u32, win: bool, maxgrade: u32) -> u32 {
    let g: int = if win { old_grade + 1 } else { old_grade - 1 };
    let g1: int = if g > maxgrade { maxgrade as int } else { g };
    let g2: int = if g1 <= 0 { 1int } else { g1 };
    g2 as u32
}

/// The grade a player carries into settlement; 0 where unknown.
pub open spec fn grade_of(pre: BattleData, user: u32) -> u32 {
    match pre.spec_cter_idx(user) {
        Some(i) => pre.battle_cter@[i].grade,
        None => 0,
    }
}

/// The character id of a player; 0 where unknown.
pub open spec fn cter_id_of(pre: BattleData, user: u32) -> u32 {
    match pre.spec_cter_idx(user) {
        Some(i) => pre.battle_cter@[i].cter_id,
        None => 0,
    }
}

/// The group number the best rank maps to: one past the last elimination
/// group where a survivor takes rank 0, the last elimination group
/// otherwise.
pub open spec fn spec_top_group(pre: BattleData, has_survivor: bool) -> u32 {
    let maxg: u32 = if pre.rank_vec@.len() > 0 {
        pre.rank_vec@[pre.rank_vec@.len() - 1].group
    } else {
        0
    };
    if has_survivor {
        sat_add32(maxg, 1)
    } else {
        maxg
    }
}

/// The settlement lines of the eliminated, in ledger order: each carries
/// the player, its character, its rank — the top group counting as rank
/// 0 — and its recomputed grade.
pub open spec fn summary_lines_from(pre: BattleData, topg: u32, maxgrade: u32, m: int) -> Seq<SummaryData>
    decreases pre.rank_vec@.len() - m when 0 <= m <= pre.rank_vec@.len()
{
    if m >= pre.rank_vec@.len() {
        Seq::empty()
    } else {
        let e = pre.rank_vec@[m];
        seq![
            SummaryData {
                user_id: e.user_id,
                cter_id: cter_id_of(pre, e.user_id),
                rank: sat_sub32(topg, e.group),
                grade: spec_new_grade(grade_of(pre, e.user_id), e.group == topg, maxgrade),
            },
        ] + summary_lines_from(pre, topg, maxgrade, m + 1)
    }
}

/// The full settlement report: the survivor's rank-0 line, where one is
/// left, then one line per elimination-ledger entry.
pub open spec fn settlement_report_seq(pre: BattleData, maxgrade: u32) -> Seq<SummaryData> {
    match spec_survivor(pre) {
        Some(u) => seq![
            SummaryData {
                user_id: u,
                cter_id: cter_id_of(pre, u),
                rank: 0,
                grade: spec_new_grade(grade_of(pre, u), true, maxgrade),
            },
        ] + summary_lines_from(pre, spec_top_group(pre, true), maxgrade, 0),
        None => summary_lines_from(pre, spec_top_group(pre, false), maxgrade, 0),
    }
}

/// First ledger entry naming the given player, if any.
pub open spec fn find_entry_from(ledger: Seq<RankEntry>, user: u32, k: int) -> Option<int>
    decreases ledger.len() - k when 0 <= k <= ledger.len()
{
    if k >= ledger.len() {
        None
    } else if ledger[k].user_id == user {
        Some(k)
    } else {
        find_entry_from(ledger, user, k + 1)
    }
}

/// Whether settlement counts a player among the winners: the survivor
/// where one is left, else membership in the top elimination group.
pub open spec fn win_of(pre: BattleData, user: u32) -> bool {
    match spec_survivor(pre) {
        Some(u) => user == u,
        None => match find_entry_from(pre.rank_vec@, user, 0) {
            Some(k) => pre.rank_vec@.len() > 0 && pre.rank_vec@[k].group == spec_top_group(pre, false),
            None => false,
        },
    }
}


/// What settlement does to the session: the settled flag rises, every
/// participant's persistent grade is recomputed — up for the best rank
/// group, down otherwise, clamped into `[1, maxgrade]` — one settlement
/// notice carrying the full report is queued per member, and nothing else
/// changes.
pub open spec fn settlement_rel(pre: BattleData, post: BattleData) -> bool {
    let maxgrade = pre.templates.spec_constant(ConstantKey::MaxGrade, 2);
    &&& post.settled
    &&& post.rank_vec == pre.rank_vec
    &&& post.battle_cter@.len() == pre.battle_cter@.len()
    &&& forall|ci: int| 0 <= ci < pre.battle_cter@.len() ==>
        (#[trigger] post.battle_cter@[ci]) == (BattleCharacter {
            grade: spec_new_grade(
                pre.battle_cter@[ci].grade,
                win_of(pre, pre.battle_cter@[ci].user_id),
                maxgrade,
            ),
            ..pre.battle_cter@[ci]
        })
    &&& post.notices@.len() == pre.notices@.len() + pre.battle_cter@.len()
    &&& forall|k: int| 0 <= k < pre.notices@.len() ==> post.notices@[k] == pre.notices@[k]
    &&& forall|m: int| 0 <= m < pre.battle_cter@.len() ==>
        match #[trigger] post.notices@[pre.notices@.len() + m] {
            Notice::Settlement { to, summary_datas } => {
                &&& to == pre.battle_cter@[m].user_id
                &&& summary_datas@ == settlement_report_seq(pre, maxgrade)
            },
            _ => false,
        }
    &&& post == (BattleData {
        settled: true,
        battle_cter: post.battle_cter,
        notices: post.notices,
        ..pre
    })
}

/// Whether the board is due for regeneration: combatants still fight on a
/// board whose unmatched counter has fallen to the threshold of 2.
pub open spec fn refresh_due(pre: BattleData) -> bool {
    &&& !pre.settled
    &&& pre.spec_alive_count() >= 2
    &&& pre.tile_map.un_pair_count <= 2
}

/// Whether a seed list fits a regeneration of the session's board: the
/// living-combatant count times the configured tiles per player, even and
/// within the size cap.
pub open spec fn seeds_fit(pre: BattleData, seeds: Seq<CellSeed>) -> bool {
    &&& seeds.len() == pre.spec_alive_count()
        * pre.templates.spec_constant(ConstantKey::CellsPerPlayer, 4)
    &&& seeds.len() % 2 == 0
    &&& seeds.len() <= MAX_CELLS
}

/// What a board regeneration does to the session: a fresh, fully unpaired
/// board from the seeds; every living combatant keeps its position, gets
/// its open-actions back, forgets its recently opened tile, fires its
/// map-regeneration buffs for their attack bonus and loses its pairing
/// bonuses; the dead only forget their recently opened tile.
pub open spec fn map_reset_rel(pre: BattleData, post: BattleData, seeds: Seq<CellSeed>) -> bool {
    &&& post.tile_map.map@.len() == seeds.len()
    &&& post.tile_map.un_pair_count == seeds.len()
    &&& forall|i: int| 0 <= i < seeds.len() ==> {
        &&& (#[trigger] post.tile_map.map@[i]).id == seeds[i].id
        &&& post.tile_map.map@[i].pair_index is None
    }
    &&& post.battle_cter@.len() == pre.battle_cter@.len()
    &&& forall|ci: int| 0 <= ci < pre.battle_cter@.len() ==> {
        let c0 = pre.battle_cter@[ci];
        if c0.state is Alive {
            &&& (#[trigger] post.battle_cter@[ci]) == (BattleCharacter {
                residue_open_times: crate::character::DEFAULT_OPEN_TIMES,
                recently_open_cell_index: None,
                buffs: post.battle_cter@[ci].buffs,
                add_damage_buffs: post.battle_cter@[ci].add_damage_buffs,
                ..c0
            })
            &&& post.battle_cter@[ci].cell_index == c0.cell_index
            &&& post.battle_cter@[ci].buffs@
                == consume_kind_from(c0.buffs@, pre.templates, BuffKind::ResetMapAddAttack, 0)
            &&& post.battle_cter@[ci].add_damage_buffs@
                == c0.add_damage_buffs@.filter(|d: AddDamage| !crate::character::pair_bonus(d, pre.templates))
                    + collect_kind_from(c0.buffs@, pre.templates, BuffKind::ResetMapAddAttack, 0)
        } else {
            post.battle_cter@[ci] == (BattleCharacter {
                recently_open_cell_index: None,
                ..c0
            })
        }
    }
    &&& post == (BattleData {
        tile_map: post.tile_map,
        battle_cter: post.battle_cter,
        ..pre
    })
}

/// The first reason an item use is rejected, if any: an unknown actor, an
/// item the actor does not own, or any rejection of the wrapped skill.
pub open spec fn use_item_err(pre: BattleData, user: u32, item_id: u32, targets: Seq<u32>) -> Option<BattleError> {
    match pre.spec_cter_idx(user) {
        None => Some(BattleError::NoSuchCombatant),
        Some(ui) => match find_item_slot_from(pre.battle_cter@[ui].items@, item_id, 0) {
            None => Some(BattleError::NoSuchItem),
            Some(sl) => use_skill_err(pre, user, pre.battle_cter@[ui].items@[sl].skill_temp.id, true, targets),
        },
    }
}


/// The id of the skill an owned item wraps.
pub open spec fn item_skill_id(pre: BattleData, user: u32, item_id: u32) -> u32 {
    let ui = pre.spec_cter_idx(user)->Some_0;
    let sl = find_item_slot_from(pre.battle_cter@[ui].items@, item_id, 0)->Some_0;
    pre.battle_cter@[ui].items@[sl].skill_temp.id
}

/// The used item leaves the actor's item set — unconditionally, once the
/// wrapped skill went through.
pub open spec fn item_removed(mid: BattleData, post: BattleData, user: u32, item_id: u32) -> bool {
    match mid.spec_cter_idx(user) {
        None => post == mid,
        Some(ui) => match find_item_slot_from(mid.battle_cter@[ui].items@, item_id, 0) {
            None => post == mid,
            Some(sl) => {
                &&& post.battle_cter@ == mid.battle_cter@.update(
                    ui,
                    (BattleCharacter { items: post.battle_cter@[ui].items, ..mid.battle_cter@[ui] }),
                )
                &&& post.battle_cter@[ui].items@ == mid.battle_cter@[ui].items@.remove(sl)
                &&& post == (BattleData { battle_cter: post.battle_cter, ..mid })
            },
        },
    }
}

impl BattleData {
    /// Move the actor in slot `ci` onto a tile: the position changes
    /// first, then every live trap on the tile fires once, and the summed
    /// trap damage is applied through the damage primitive. Returns
    /// whether the move killed the actor.
    pub(crate) fn handler_cter_move(&mut self, ci: usize, index: usize, au: &mut ActionUnit) -> (died: bool)
        requires
            old(self).wf(),
            ci < old(self).battle_cter@.len(),
            index < old(self).tile_map.map@.len(),
            old(self).battle_cter@[ci as int].state is Alive,
        ensures
            final(self).wf(),
            ({
                let pre = *old(self);
                let c0 = pre.battle_cter@[ci as int];
                let cell0 = pre.tile_map.map@[index as int];
                let trapdmg = damage_acc(collect_kind_from(cell0.buffs@, pre.templates, BuffKind::Trap, 0), 0, 0);
                let eff = sat_sub32(trapdmg, c0.defence);
                &&& died == (trapdmg > 0 && eff >= c0.hp)
                &&& final(self).tile_map.map@ == pre.tile_map.map@.update(
                    index as int,
                    (Cell { buffs: final(self).tile_map.map@[index as int].buffs, ..cell0 }),
                )
                &&& final(self).tile_map.map@[index as int].buffs@
                    == consume_kind_from(cell0.buffs@, pre.templates, BuffKind::Trap, 0)
                &&& final(self).tile_map.un_pair_count == pre.tile_map.un_pair_count
                &&& if died {
                    &&& final(self).battle_cter@ == pre.battle_cter@.update(
                        ci as int,
                        (BattleCharacter {
                            cell_index: index,
                            hp: 0,
                            state: BattleCterState::Died,
                            ..c0
                        }),
                    )
                    &&& final(self).rank_vec@ == pre.rank_vec@.push(
                        (RankEntry { user_id: c0.user_id, group: spec_next_group(pre.rank_vec@, false) }),
                    )
                } else {
                    &&& final(self).battle_cter@ == pre.battle_cter@.update(
                        ci as int,
                        (BattleCharacter {
                            cell_index: index,
                            hp: if trapdmg > 0 { (c0.hp - eff) as u32 } else { c0.hp },
                            ..c0
                        }),
                    )
                    &&& final(self).rank_vec == pre.rank_vec
                }
                &&& *final(self) == (BattleData {
                    tile_map: final(self).tile_map,
                    battle_cter: final(self).battle_cter,
                    rank_vec: final(self).rank_vec,
                    ..pre
                })
                &&& final(au).from_user == old(au).from_user
                &&& final(au).action_value@ == old(au).action_value@
                &&& final(au).targets@.len() == old(au).targets@.len() + (if trapdmg > 0 { 1int } else { 0int })
                &&& forall|k: int| 0 <= k < old(au).targets@.len() ==> final(au).targets@[k] == old(au).targets@[k]
                &&& (trapdmg > 0 ==> trap_entry_ok(final(au).targets@.last(), index as int, eff))
            }),
    {
        let user = self.battle_cter[ci].user_id;
        proof {
            lemma_cter_idx_of_slot(*old(self), ci as int);
        }
        {
            let c = &mut self.battle_cter[ci];
            c.cell_index = index;
        }
        proof {
            lemma_wf_cter_update(*old(self), *self, ci as int);
        }
        let fired = self.tile_map.consume_cell_kind(index, &self.templates, BuffKind::Trap);
        let dmg = sum_fired(&fired);
        if dmg == 0 {
            return false;
        }
        let ghost mid = *self;
        proof {
            lemma_cter_idx_of_slot(mid, ci as int);
        }
        let r = self.deduct_hp(user, dmg, false);
        match r {
            Ok((applied, died)) => {
                let mut e = TargetEntry::new(EffectKind::SkillDamage, applied);
                e.target_value.push(index as u32);
                au.targets.push(e);
                died
            }
            Err(_) => {
                proof {
                    assert(false);
                }
                false
            }
        }
    }

    /// The pairing check after a move: record the opened tile's id in the
    /// report, and where the actor's recently opened tile still stands
    /// unpaired with the same id, mark the two tiles mutually paired — the
    /// unmatched counter falls by exactly 2. Unequal ids never pair.
    pub(crate) fn handler_cell_pair(&mut self, ci: usize, au: &mut ActionUnit) -> (is_pair: bool)
        requires
            old(self).wf(),
            ci < old(self).battle_cter@.len(),
            old(self).battle_cter@[ci as int].cell_index < old(self).tile_map.map@.len(),
            old(self).tile_map.map@[old(self).battle_cter@[ci as int].cell_index as int].pair_index is None,
        ensures
            final(self).wf(),
            ({
                let pre = *old(self);
                let index = pre.battle_cter@[ci as int].cell_index as int;
                let cell0 = pre.tile_map.map@[index];
                let pairs = pair_cond(pre, ci as int, index);
                let rc = pre.battle_cter@[ci as int].recently_open_cell_index->Some_0 as int;
                &&& is_pair == pairs
                &&& if pairs {
                    &&& final(self).tile_map.map@ == pre.tile_map.map@
                        .update(index, (Cell { pair_index: Some(rc as usize), ..cell0 }))
                        .update(rc, (Cell { pair_index: Some(index as usize), ..pre.tile_map.map@[rc] }))
                    &&& final(self).tile_map.un_pair_count == pre.tile_map.un_pair_count - 2
                } else {
                    final(self).tile_map == pre.tile_map
                }
                &&& *final(self) == (BattleData { tile_map: final(self).tile_map, ..pre })
                &&& final(au).from_user == old(au).from_user
                &&& final(au).action_value@ == old(au).action_value@.push(cell0.id)
                &&& final(au).targets@.len() == old(au).targets@.len() + (if pairs { 1int } else { 0int })
                &&& forall|k: int| 0 <= k < old(au).targets@.len() ==> final(au).targets@[k] == old(au).targets@[k]
                &&& (pairs ==> pair_entry_ok(final(au).targets@.last(), rc))
            }),
    {
        let index = self.battle_cter[ci].cell_index;
        let cell_id = self.tile_map.map[index].id;
        au.action_value.push(cell_id);
        let rc = match self.battle_cter[ci].recently_open_cell_index {
            Some(rc) => rc,
            None => {
                return false;
            }
        };
        if rc == index {
            return false;
        }
        if rc >= self.tile_map.map.len() {
            return false;
        }
        let partner_open = match self.tile_map.map[rc].pair_index {
            Some(_) => false,
            None => true,
        };
        if !partner_open {
            return false;
        }
        if self.tile_map.map[rc].id != cell_id {
            return false;
        }
        self.tile_map.mark_pair(index, rc);
        let mut e = TargetEntry::new(EffectKind::Pair, 0);
        e.target_value.push(rc as u32);
        au.targets.push(e);
        true
    }

    /// Strike the living combatant in slot `tj` with one attack instance
    /// of `base` damage: its first live guard, if any, fires — negating
    /// the damage fully and consuming a use — then defense mitigation,
    /// the health deduction, a possible death with its ledger entry, and
    /// exactly one report entry carrying the applied damage, the guard
    /// that fired and, where the guard was spent, the lost buff.
    #[verifier::rlimit(100)]
    #[verifier::spinoff_prover]
    pub(crate) fn strike(&mut self, tj: usize, base: u32, is_same_action: bool, au: &mut ActionUnit) -> (died: bool)
        requires
            old(self).wf(),
            tj < old(self).battle_cter@.len(),
            old(self).battle_cter@[tj as int].state is Alive,
        ensures
            final(self).wf(),
            ({
                let pre = *old(self);
                let c0 = pre.battle_cter@[tj as int];
                let ts = pre.templates;
                &&& died == (strike_eff(c0, ts, base) >= c0.hp)
                &&& final(self).battle_cter@.len() == pre.battle_cter@.len()
                &&& struck_ok(c0, final(self).battle_cter@[tj as int], ts, base)
                &&& forall|j: int| 0 <= j < pre.battle_cter@.len() && j != tj ==>
                    final(self).battle_cter@[j] == pre.battle_cter@[j]
                &&& if died {
                    final(self).rank_vec@ == pre.rank_vec@.push(
                        (RankEntry { user_id: c0.user_id, group: spec_next_group(pre.rank_vec@, is_same_action) }),
                    )
                } else {
                    final(self).rank_vec == pre.rank_vec
                }
                &&& *final(self) == (BattleData {
                    battle_cter: final(self).battle_cter,
                    rank_vec: final(self).rank_vec,
                    ..pre
                })
                &&& final(au).from_user == old(au).from_user
                &&& final(au).action_value@ == old(au).action_value@
                &&& final(au).targets@.len() == old(au).targets@.len() + 1
                &&& forall|k: int| 0 <= k < old(au).targets@.len() ==> final(au).targets@[k] == old(au).targets@[k]
                &&& strike_entry_ok(final(au).targets@.last(), c0, ts, base)
            }),
    {
        let user = self.battle_cter[tj].user_id;
        let cell_index = self.battle_cter[tj].cell_index;
        proof {
            lemma_cter_idx_of_slot(*old(self), tj as int);
        }
        let gd = self.battle_cter[tj].trigger_attack_damge_gd(&self.templates);
        proof {
            lemma_wf_cter_update(*old(self), *self, tj as int);
            match crate::character::find_live_kind_from(
                old(self).battle_cter@[tj as int].buffs@,
                old(self).templates,
                BuffKind::Guard,
                0,
            ) {
                Some(g) => {
                    crate::character::lemma_find_live_kind(
                        old(self).battle_cter@[tj as int].buffs@,
                        old(self).templates,
                        BuffKind::Guard,
                        0,
                        g,
                    );
                }
                None => {}
            }
        }
        let raw = if gd.0 > 0 { 0 } else { base };
        let ghost mid = *self;
        proof {
            lemma_cter_idx_of_slot(mid, tj as int);
        }
        let r = self.deduct_hp(user, raw, is_same_action);
        let (applied, died) = match r {
            Ok(x) => x,
            Err(_) => {
                proof {
                    assert(false);
                }
                (0, false)
            }
        };
        let mut e = TargetEntry::new(EffectKind::AttackDamage, applied);
        e.target_value.push(cell_index as u32);
        if gd.0 > 0 {
            e.passive_effects.push(crate::report::TriggerEffect { buff_id: gd.0, value: gd.0 });
        }
        if gd.0 > 0 && gd.1 {
            e.lost_buffs.push(gd.0);
        } else {
            let ghost s2 = *self;
            {
                let c = &mut self.battle_cter[tj];
                c.is_attacked = true;
            }
            proof {
                lemma_wf_cter_update(s2, *self, tj as int);
            }
        }
        au.targets.push(e);
        died
    }

    /// Whether the positional scope reaches `pos` from `center`.
    pub(crate) fn scope_hit(&self, center: usize, offs: &Vec<i32>, pos: usize) -> (r: bool)
        requires
            center < self.tile_map.map@.len(),
            self.tile_map.map@.len() <= MAX_CELLS,
        ensures
            r == in_scope(pos as int, center as int, offs@, self.tile_map.map@.len() as int),
    {
        let maplen = self.tile_map.map.len();
        let no = offs.len();
        let mut hit = false;
        let mut k: usize = 0;
        let ghost mut wk: int = 0int;
        while k < no && !hit
            invariant
                no == offs@.len(),
                k <= no,
                center < maplen,
                maplen == self.tile_map.map@.len(),
                maplen <= MAX_CELLS,
                hit ==> (0 <= wk < no && 0 <= center + offs@[wk] < maplen
                    && center + offs@[wk] == pos as int),
                !hit ==> forall|x: int| 0 <= x < k ==> !(0 <= center + offs@[x] < maplen
                    && center + offs@[x] == pos as int),
            decreases no - k + (if hit { 0int } else { 1int }),
        {
            let p: i64 = center as i64 + offs[k] as i64;
            if 0 <= p && (p as usize) < maplen && (p as usize) == pos {
                hit = true;
                proof {
                    wk = k as int;
                }
            } else {
                k += 1;
            }
        }
        hit
    }


    /// One instance of fixed skill damage at the living combatant in slot
    /// `tj`: defense mitigation, the zero floor, a possible death with its
    /// ledger entry, and one report entry.
    pub(crate) fn skill_strike(&mut self, tj: usize, value: u32, is_same_action: bool, au: &mut ActionUnit) -> (died: bool)
        requires
            old(self).wf(),
            tj < old(self).battle_cter@.len(),
            old(self).battle_cter@[tj as int].state is Alive,
        ensures
            final(self).wf(),
            ({
                let pre = *old(self);
                let c0 = pre.battle_cter@[tj as int];
                &&& died == (sat_sub32(value, c0.defence) >= c0.hp)
                &&& final(self).battle_cter@.len() == pre.battle_cter@.len()
                &&& skill_struck_ok(c0, final(self).battle_cter@[tj as int], value)
                &&& forall|j: int| 0 <= j < pre.battle_cter@.len() && j != tj ==>
                    final(self).battle_cter@[j] == pre.battle_cter@[j]
                &&& if died {
                    final(self).rank_vec@ == pre.rank_vec@.push(
                        (RankEntry { user_id: c0.user_id, group: spec_next_group(pre.rank_vec@, is_same_action) }),
                    )
                } else {
                    final(self).rank_vec == pre.rank_vec
                }
                &&& *final(self) == (BattleData {
                    battle_cter: final(self).battle_cter,
                    rank_vec: final(self).rank_vec,
                    ..pre
                })
                &&& final(au).from_user == old(au).from_user
                &&& final(au).action_value@ == old(au).action_value@
                &&& final(au).targets@.len() == old(au).targets@.len() + 1
                &&& forall|k: int| 0 <= k < old(au).targets@.len() ==> final(au).targets@[k] == old(au).targets@[k]
                &&& skill_entry_ok(final(au).targets@.last(), c0, value)
            }),
    {
        let user = self.battle_cter[tj].user_id;
        let cell_index = self.battle_cter[tj].cell_index;
        proof {
            lemma_cter_idx_of_slot(*old(self), tj as int);
        }
        let r = self.deduct_hp(user, value, is_same_action);
        let (applied, died) = match r {
            Ok(x) => x,
            Err(_) => {
                proof {
                    assert(false);
                }
                (0, false)
            }
        };
        let mut e = TargetEntry::new(EffectKind::SkillDamage, applied);
        e.target_value.push(cell_index as u32);
        au.targets.push(e);
        died
    }

    /// Whether any living combatant stands on the given tile.
    pub(crate) fn cell_occupied(&self, dest: usize) -> (r: bool)
        ensures
            r == exists|j: int| 0 <= j < self.battle_cter@.len()
                && (#[trigger] self.battle_cter@[j]).state is Alive
                && self.battle_cter@[j].cell_index == dest,
    {
        let n = self.battle_cter.len();
        let mut i: usize = 0;
        while i < n
            invariant
                n == self.battle_cter@.len(),
                i <= n,
                forall|j: int| 0 <= j < i ==> !((#[trigger] self.battle_cter@[j]).state is Alive
                    && self.battle_cter@[j].cell_index == dest),
            decreases n - i,
        {
            if !self.battle_cter[i].is_died() && self.battle_cter[i].cell_index == dest {
                return true;
            }
            i += 1;
        }
        false
    }

    /// Check the supplied target list against a declared target type.
    pub(crate) fn check_target_array(&self, user: u32, tt: TargetType, targets: &Vec<u32>) -> (r: Option<BattleError>)
        ensures
            r == check_targets_err(*self, user, tt, targets@),
    {
        if targets.len() == 0 {
            return Some(BattleError::InvalidTargets);
        }
        match tt {
            TargetType::Oneself => {
                if targets[0] != user {
                    Some(BattleError::InvalidTargets)
                } else {
                    None
                }
            }
            TargetType::SingleEnemy => {
                if targets[0] == user {
                    return Some(BattleError::SelfTarget);
                }
                match self.find_cter(targets[0]) {
                    None => Some(BattleError::NoSuchCombatant),
                    Some(ti) => {
                        if self.battle_cter[ti].is_died() {
                            Some(BattleError::TargetDied)
                        } else {
                            None
                        }
                    }
                }
            }
            TargetType::AnyPlayer => {
                match self.find_cter(targets[0]) {
                    None => Some(BattleError::NoSuchCombatant),
                    Some(ti) => {
                        if self.battle_cter[ti].is_died() {
                            Some(BattleError::TargetDied)
                        } else {
                            None
                        }
                    }
                }
            }
            TargetType::Cells => {
                let maplen = self.tile_map.map.len();
                let n = targets.len();
                let mut k: usize = 0;
                while k < n
                    invariant
                        n == targets@.len(),
                        n > 0,
                        tt == TargetType::Cells,
                        k <= n,
                        maplen == self.tile_map.map@.len(),
                        cells_ok_from(targets@, maplen as int, 0)
                            == cells_ok_from(targets@, maplen as int, k as int),
                    decreases n - k,
                {
                    if !((targets[k] as usize) < maplen) {
                        return Some(BattleError::InvalidCellIndex);
                    }
                    k += 1;
                }
                None
            }
        }
    }

    /// The scoped-damage pass shared by the two area families: one
    /// instance of fixed skill damage at every combatant the scope reaches
    /// around `center`, the actor excluded; the deaths of one pass share a
    /// rank group with any earlier death of the same command. Returns the
    /// total damage applied, which the melee drain family heals its user
    /// by.
    #[verifier::rlimit(100)]
    #[verifier::spinoff_prover]
    pub(crate) fn aoe_damage_pass(&mut self, user_id: u32, center: usize, offs: &Vec<i32>, value: u32, death0: bool, au: &mut ActionUnit) -> (healed: u32)
        requires
            old(self).wf(),
            old(self).spec_cter_idx(user_id) is Some,
        ensures
            final(self).wf(),
            ({
                let pre = *old(self);
                let ui = pre.spec_cter_idx(user_id)->Some_0;
                let maplen = pre.tile_map.map@.len();
                let members = if center < maplen {
                    scope_members_from(pre.battle_cter@, center as int, offs@, maplen as int, user_id, user_id, 0)
                } else {
                    Seq::empty()
                };
                let t0 = old(au).targets@.len() as int;
                &&& aoe_damage_state_ok(pre, *final(self), user_id, center as int, offs@, value)
                &&& final(self).battle_cter@[ui] == pre.battle_cter@[ui]
                &&& healed == heal_acc(pre, members, value, 0, 0)
                &&& final(au).from_user == old(au).from_user
                &&& final(au).action_value@ == old(au).action_value@
                &&& final(au).targets@.len() == t0 + members.len()
                &&& forall|k: int| 0 <= k < t0 ==> final(au).targets@[k] == old(au).targets@[k]
                &&& forall|m: int| 0 <= m < members.len() ==> skill_entry_ok(
                    #[trigger] final(au).targets@[t0 + m],
                    pre.battle_cter@[pre.spec_cter_idx(members[m])->Some_0],
                    value,
                )
            }),
    {
        let ghost pre = *self;
        let maplen = self.tile_map.map.len();
        if !(center < maplen) {
            return 0;
        }
        let ui = match self.find_cter(user_id) {
            Some(x) => x,
            None => {
                proof {
                    assert(false);
                }
                0
            }
        };
        proof {
            crate::battle::lemma_find_cter_unique(self.battle_cter@, user_id, 0, ui as int);
        }
        let ghost members = scope_members_from(pre.battle_cter@, center as int, offs@, maplen as int, user_id, user_id, 0);
        let mut healed: u32 = 0;
        let mut death = death0;
        let ghost au0 = *au;
        let n = self.battle_cter.len();
        let ghost mut processed: Seq<u32> = Seq::empty();
        let mut j: usize = 0;
        while j < n
            invariant
                self.wf(),
                pre.wf(),
                pre == *old(self),
                n == pre.battle_cter@.len(),
                j <= n,
                ui < n,
                center < maplen,
                maplen == pre.tile_map.map@.len(),
                maplen == self.tile_map.map@.len(),
                self.tile_map == pre.tile_map,
                pre.spec_cter_idx(user_id) == Some(ui as int),
                pre.battle_cter@[ui as int].user_id == user_id,
                members == scope_members_from(pre.battle_cter@, center as int, offs@, maplen as int, user_id, user_id, 0),
                self.battle_cter@.len() == n,
                self.battle_cter@[ui as int] == pre.battle_cter@[ui as int],
                forall|x: int| 0 <= x < j && x != ui ==>
                    if skill_hits(pre, user_id, center as int, offs@, x) {
                        skill_struck_ok(pre.battle_cter@[x], #[trigger] self.battle_cter@[x], value)
                    } else {
                        self.battle_cter@[x] == pre.battle_cter@[x]
                    },
                forall|x: int| j <= x < n ==> self.battle_cter@[x] == pre.battle_cter@[x],
                self.rank_vec@.len() >= pre.rank_vec@.len(),
                forall|k: int| 0 <= k < pre.rank_vec@.len() ==> self.rank_vec@[k] == pre.rank_vec@[k],
                *self == (BattleData { battle_cter: self.battle_cter, rank_vec: self.rank_vec, ..pre }),
                members == processed + scope_members_from(pre.battle_cter@, center as int, offs@, maplen as int, user_id, user_id, j as int),
                heal_acc(pre, members, value, 0, 0) == heal_acc(pre, members, value, processed.len() as int, healed),
                au.from_user == au0.from_user,
                au.action_value@ == au0.action_value@,
                au.targets@.len() == au0.targets@.len() + processed.len(),
                forall|k: int| 0 <= k < au0.targets@.len() ==> au.targets@[k] == au0.targets@[k],
                forall|m: int| 0 <= m < processed.len() ==> skill_entry_ok(
                    #[trigger] au.targets@[au0.targets@.len() + m],
                    pre.battle_cter@[pre.spec_cter_idx(processed[m])->Some_0],
                    value,
                ),
            decreases n - j,
        {
            let ghost iter0 = *self;
            if j != ui {
                let alive = !self.battle_cter[j].is_died();
                let pos = self.battle_cter[j].cell_index;
                let uidj = self.battle_cter[j].user_id;
                let mut hit = false;
                if alive && uidj != user_id {
                    if self.scope_hit(center, &offs, pos) {
                        hit = true;
                    }
                }
                if hit {
                    proof {
                        lemma_cter_idx_of_slot(pre, j as int);
                        assert(skill_hits(pre, user_id, center as int, offs@, j as int));
                        assert(members =~= processed.push(uidj)
                            + scope_members_from(pre.battle_cter@, center as int, offs@, maplen as int, user_id, user_id, j + 1));
                        assert(members[processed.len() as int] == uidj);
                    }
                    let defj = self.battle_cter[j].defence;
                    let d = self.skill_strike(j, value, death, au);
                    death = death || d;
                    healed = sat_add(healed, sat_sub(value, defj));
                    proof {
                        processed = processed.push(uidj);
                    }
                } else {
                    proof {
                        assert(!skill_hits(pre, user_id, center as int, offs@, j as int));
                    }
                }
            }
            proof {
                assert forall|x: int| 0 <= x < j + 1 && x != ui implies
                    if skill_hits(pre, user_id, center as int, offs@, x) {
                        skill_struck_ok(pre.battle_cter@[x], #[trigger] self.battle_cter@[x], value)
                    } else {
                        self.battle_cter@[x] == pre.battle_cter@[x]
                    } by {
                    if x < j {
                        assert(self.battle_cter@[x] == iter0.battle_cter@[x]);
                        assert(if skill_hits(pre, user_id, center as int, offs@, x) {
                            skill_struck_ok(pre.battle_cter@[x], iter0.battle_cter@[x], value)
                        } else {
                            iter0.battle_cter@[x] == pre.battle_cter@[x]
                        });
                    }
                }
            }
            j += 1;
        }
        healed
    }

    /// The normal attack: one attack instance of the actor's damage at the
    /// primary target, and — where the actor carries an area-attack buff —
    /// one instance at every combatant its scope reaches around the
    /// primary target, the actor and the primary target excluded.
    /// Simultaneous kills of this one action share a rank group. On any
    /// validation failure nothing is mutated and the exact reason comes
    /// back; a secondary target's failure never aborts the rest.
    #[verifier::rlimit(100)]
    #[verifier::spinoff_prover]
    pub fn attack(&mut self, user_id: u32, targets: Vec<u32>, au: &mut ActionUnit) -> (r: Result<(), BattleError>)
        requires
            old(self).wf(),
        ensures
            final(self).wf(),
            match r {
                Err(e) => {
                    &&& Some(e) == attack_err(*old(self), user_id, targets@)
                    &&& *final(self) == *old(self)
                    &&& *final(au) == *old(au)
                },
                Ok(()) => {
                    &&& attack_err(*old(self), user_id, targets@) is None
                    &&& attack_post(*old(self), *final(self), *old(au), *final(au), user_id, targets@)
                },
            },
    {
        if self.settled {
            return Err(BattleError::MatchSettled);
        }
        let tu = self.turn_orders[self.next_turn_index];
        if tu == 0 {
            return Err(BattleError::NoTurnUser);
        }
        if user_id != tu {
            return Err(BattleError::NotYourTurn);
        }
        let ui = match self.find_cter(user_id) {
            Some(x) => x,
            None => {
                return Err(BattleError::NoSuchCombatant);
            }
        };
        proof {
            crate::battle::lemma_find_cter_unique(self.battle_cter@, user_id, 0, ui as int);
        }
        if self.battle_cter[ui].is_died() {
            return Err(BattleError::ActorDied);
        }
        if !self.battle_cter[ui].is_can_attack {
            return Err(BattleError::CannotAttack);
        }
        if targets.len() == 0 {
            return Err(BattleError::InvalidTargets);
        }
        let target = targets[0];
        if target == user_id {
            return Err(BattleError::SelfTarget);
        }
        let ti = match self.find_cter(target) {
            Some(x) => x,
            None => {
                return Err(BattleError::NoSuchCombatant);
            }
        };
        proof {
            crate::battle::lemma_find_cter_unique(self.battle_cter@, target, 0, ti as int);
        }
        if self.battle_cter[ti].is_died() {
            return Err(BattleError::TargetDied);
        }
        let aoe_id = self.battle_cter[ui].find_buff_kind(&self.templates, BuffKind::AddAttackAndAoe);
        proof {
            match crate::character::find_live_kind_from(
                self.battle_cter@[ui as int].buffs@,
                self.templates,
                BuffKind::AddAttackAndAoe,
                0,
            ) {
                Some(g) => {
                    crate::character::lemma_find_live_kind(
                        self.battle_cter@[ui as int].buffs@,
                        self.templates,
                        BuffKind::AddAttackAndAoe,
                        0,
                        g,
                    );
                }
                None => {}
            }
        }
        let mut offs: Vec<i32> = Vec::new();
        let mut has_aoe = false;
        match aoe_id {
            Some(bid) => {
                let scope_id = match self.templates.get_buff(bid) {
                    Some(bt) => bt.scope,
                    None => {
                        proof {
                            assert(false);
                        }
                        0
                    }
                };
                match self.templates.get_scope(scope_id) {
                    Some(st) => {
                        offs = copy_offs(&st.direction.direction);
                        has_aoe = true;
                    }
                    None => {
                        return Err(BattleError::MissingTemplate);
                    }
                }
            }
            None => {}
        }
        let base = self.battle_cter[ui].calc_damage();
        let center = self.battle_cter[ti].cell_index;
        let maplen = self.tile_map.map.len();
        let ghost pre = *self;
        let died0 = self.strike(ti, base, false, au);
        let mut death = died0;
        let ghost au_mid = *au;
        if has_aoe && center < maplen {
            let n = self.battle_cter.len();
            let ghost mut processed: Seq<u32> = Seq::empty();
            let mut j: usize = 0;
            while j < n
                invariant
                    self.wf(),
                    pre.wf(),
                    pre == *old(self),
                    n == pre.battle_cter@.len(),
                    j <= n,
                    ui < n,
                    ti < n,
                    ui != ti,
                    has_aoe,
                    center < maplen,
                    maplen == pre.tile_map.map@.len(),
                    maplen == self.tile_map.map@.len(),
                    self.tile_map == pre.tile_map,
                    aoe_buff_of(pre, pre.battle_cter@[ui as int]) is Some,
                    offs@ == aoe_offs(pre, pre.battle_cter@[ui as int]),
                    pre.battle_cter@[ui as int].user_id == user_id,
                    pre.battle_cter@[ti as int].user_id == target,
                    pre.spec_cter_idx(user_id) == Some(ui as int),
                    pre.spec_cter_idx(target) == Some(ti as int),
                    center == pre.battle_cter@[ti as int].cell_index,
                    base == damage_acc(pre.battle_cter@[ui as int].add_damage_buffs@, 0, pre.battle_cter@[ui as int].atk),
                    self.battle_cter@.len() == n,
                    self.battle_cter@[ui as int] == pre.battle_cter@[ui as int],
                    struck_ok(pre.battle_cter@[ti as int], self.battle_cter@[ti as int], pre.templates, base),
                    forall|x: int| 0 <= x < j && x != ui && x != ti ==>
                        if aoe_hits(pre, user_id, target, x) {
                            struck_ok(pre.battle_cter@[x], #[trigger] self.battle_cter@[x], pre.templates, base)
                        } else {
                            self.battle_cter@[x] == pre.battle_cter@[x]
                        },
                    forall|x: int| j <= x < n && x != ti ==> self.battle_cter@[x] == pre.battle_cter@[x],
                    self.rank_vec@.len() >= pre.rank_vec@.len(),
                    forall|k: int| 0 <= k < pre.rank_vec@.len() ==> self.rank_vec@[k] == pre.rank_vec@[k],
                    *self == (BattleData { battle_cter: self.battle_cter, rank_vec: self.rank_vec, ..pre }),
                    scope_members_from(pre.battle_cter@, center as int, offs@, maplen as int, user_id, target, 0)
                        == processed + scope_members_from(pre.battle_cter@, center as int, offs@, maplen as int, user_id, target, j as int),
                    au.from_user == au_mid.from_user,
                    au.action_value@ == au_mid.action_value@,
                    au.targets@.len() == au_mid.targets@.len() + processed.len(),
                    forall|k: int| 0 <= k < au_mid.targets@.len() ==> au.targets@[k] == au_mid.targets@[k],
                    forall|m: int| 0 <= m < processed.len() ==> strike_entry_ok(
                        #[trigger] au.targets@[au_mid.targets@.len() + m],
                        pre.battle_cter@[pre.spec_cter_idx(processed[m])->Some_0],
                        pre.templates,
                        base,
                    ),
                decreases n - j,
            {
                let ghost iter0 = *self;
                if j != ui && j != ti {
                    let alive = !self.battle_cter[j].is_died();
                    let pos = self.battle_cter[j].cell_index;
                    let uidj = self.battle_cter[j].user_id;
                    let mut hit = false;
                    if alive && uidj != user_id && uidj != target {
                        if self.scope_hit(center, &offs, pos) {
                            hit = true;
                        }
                    }
                    if hit {
                        proof {
                            lemma_cter_idx_of_slot(pre, j as int);
                            assert(aoe_hits(pre, user_id, target, j as int));
                        }
                        let d = self.strike(j, base, death, au);
                        death = death || d;
                        proof {
                            processed = processed.push(uidj);
                            assert(scope_members_from(pre.battle_cter@, center as int, offs@, maplen as int, user_id, target, 0)
                                =~= processed + scope_members_from(pre.battle_cter@, center as int, offs@, maplen as int, user_id, target, j + 1));
                        }
                    } else {
                        proof {
                            assert(!aoe_hits(pre, user_id, target, j as int));
                        }
                    }
                }
                proof {
                    assert forall|x: int| 0 <= x < j + 1 && x != ui && x != ti implies
                        if aoe_hits(pre, user_id, target, x) {
                            struck_ok(pre.battle_cter@[x], #[trigger] self.battle_cter@[x], pre.templates, base)
                        } else {
                            self.battle_cter@[x] == pre.battle_cter@[x]
                        } by {
                        if x < j {
                            assert(self.battle_cter@[x] == iter0.battle_cter@[x]);
                            assert(if aoe_hits(pre, user_id, target, x) {
                                struck_ok(pre.battle_cter@[x], iter0.battle_cter@[x], pre.templates, base)
                            } else {
                                iter0.battle_cter@[x] == pre.battle_cter@[x]
                            });
                        }
                    }
                }
                j += 1;
            }
        }
        let ghost s_end = *self;
        {
            let c = &mut self.battle_cter[ui];
            c.is_can_attack = false;
        }
        proof {
            lemma_wf_cter_update(s_end, *self, ui as int);
        }
        Ok(())
    }


    /// Use a skill, or resolve the skill an item wraps (`is_item`). The
    /// declared validation order runs first — on any failure nothing is
    /// mutated and the exact reason comes back, a cooling-down skill in
    /// particular being rejected with no cooldown change and no report
    /// entries. On success exactly one effect family executes, then the
    /// cost is applied: an energy skill deducts its cost clamped at zero,
    /// any other resets its cooldown to the template base — unless
    /// item-sourced, which never touches the backing skill's cooldown.
    ///
    /// The before- and after-use trigger points exist in the resolution
    /// order, but no buff kind of this catalog fires on them, so they
    /// consume nothing; the buff kinds that do fire are tied to opening,
    /// pairing, being attacked, entering a tile, turn starts and board
    /// regeneration.
    #[verifier::rlimit(100)]
    #[verifier::spinoff_prover]
    pub fn use_skill(&mut self, user_id: u32, skill_id: u32, is_item: bool, targets: Vec<u32>, au: &mut ActionUnit) -> (r: Result<(), BattleError>)
        requires
            old(self).wf(),
        ensures
            final(self).wf(),
            match r {
                Err(e) => {
                    &&& Some(e) == use_skill_err(*old(self), user_id, skill_id, is_item, targets@)
                    &&& *final(self) == *old(self)
                    &&& *final(au) == *old(au)
                },
                Ok(()) => {
                    &&& use_skill_err(*old(self), user_id, skill_id, is_item, targets@) is None
                    &&& use_skill_ok(*old(self), *final(self), *old(au), *final(au), user_id, skill_id, is_item, targets@)
                },
            },
    {
        if self.settled {
            return Err(BattleError::MatchSettled);
        }
        let tu = self.turn_orders[self.next_turn_index];
        if tu == 0 {
            return Err(BattleError::NoTurnUser);
        }
        if user_id != tu {
            return Err(BattleError::NotYourTurn);
        }
        let ui = match self.find_cter(user_id) {
            Some(x) => x,
            None => {
                return Err(BattleError::NoSuchCombatant);
            }
        };
        proof {
            crate::battle::lemma_find_cter_unique(self.battle_cter@, user_id, 0, ui as int);
        }
        if self.battle_cter[ui].is_died() {
            return Err(BattleError::ActorDied);
        }
        if !is_item {
            let slot = match self.battle_cter[ui].find_skill(skill_id) {
                Some(s) => s,
                None => {
                    return Err(BattleError::NoSuchSkill);
                }
            };
            if self.battle_cter[ui].skills[slot].cd_times > 0 {
                return Err(BattleError::SkillOnCooldown);
            }
        }
        let (st_target, st_consume_type, st_consume_value, st_cd, st_judge, st_scope, st_value, st_buff) =
            match self.templates.get_skill(skill_id) {
                Some(t) => (t.target, t.consume_type, t.consume_value, t.cd, t.skill_judge, t.scope, t.value, t.buff),
                None => {
                    return Err(BattleError::MissingTemplate);
                }
            };
        match self.check_target_array(user_id, st_target, &targets) {
            Some(e) => {
                return Err(e);
            }
            None => {}
        }
        if st_judge != 0 {
            let minhp = match self.templates.get_judge(st_judge) {
                Some(j) => j.min_hp,
                None => {
                    return Err(BattleError::MissingTemplate);
                }
            };
            if self.battle_cter[ui].hp < minhp {
                return Err(BattleError::JudgeNotMet);
            }
        }
        let fam = match self.templates.classify(skill_id) {
            Some(f) => f,
            None => {
                return Err(BattleError::UnknownSkillFamily);
            }
        };
        let ghost pre = *self;
        let ghost au0 = *au;
        let ghost stg = pre.templates.spec_skill(skill_id)->Some_0;
        match fam {
            SkillFamily::Reposition => {
                if targets.len() < 2 {
                    return Err(BattleError::InvalidTargets);
                }
                let a = targets[0] as usize;
                let b = targets[1] as usize;
                if !(a < self.tile_map.map.len()) || !(b < self.tile_map.map.len()) {
                    return Err(BattleError::InvalidCellIndex);
                }
                if a == b {
                    return Err(BattleError::InvalidTargets);
                }
                let ap = match self.tile_map.map[a].pair_index {
                    Some(_) => true,
                    None => false,
                };
                let bp = match self.tile_map.map[b].pair_index {
                    Some(_) => true,
                    None => false,
                };
                if ap || bp {
                    return Err(BattleError::CellAlreadyPaired);
                }
                self.tile_map.swap_cells(a, b);
                let mut e = TargetEntry::new(EffectKind::ChangeCellIndex, 0);
                e.target_value.push(targets[0]);
                e.target_value.push(targets[1]);
                au.targets.push(e);
                proof {
                    assert(au.targets@.last().target_value@ =~= seq![targets@[0], targets@[1]]);
                }
            }
            SkillFamily::Reveal => {
                let idx = targets[0] as usize;
                if !(idx < self.tile_map.map.len()) {
                    return Err(BattleError::InvalidCellIndex);
                }
                let id = self.tile_map.map[idx].id;
                let mut e = TargetEntry::new(EffectKind::ShowCell, id);
                e.target_value.push(targets[0]);
                au.targets.push(e);
                proof {
                    assert(au.targets@.last().target_value@ =~= seq![targets@[0]]);
                }
            }
            SkillFamily::ApplyBuff => {
                let ti = match self.find_cter(targets[0]) {
                    Some(x) => x,
                    None => {
                        return Err(BattleError::NoSuchCombatant);
                    }
                };
                let (bid, btr, bkp) = match self.templates.get_buff(st_buff) {
                    Some(t) => (t.id, t.trigger_times, t.keep_times),
                    None => {
                        return Err(BattleError::MissingTemplate);
                    }
                };
                let ghost s0 = *self;
                self.battle_cter[ti].add_buff_instance(Buff { id: bid, trigger_timesed: btr, keep_times: bkp });
                proof {
                    lemma_wf_cter_update(s0, *self, ti as int);
                }
                let mut e = TargetEntry::new(EffectKind::AddBuff, st_buff);
                e.target_value.push(targets[0]);
                au.targets.push(e);
                proof {
                    assert(au.targets@.last().target_value@ =~= seq![targets@[0]]);
                }
            }
            SkillFamily::AutoPair => {
                let idx = targets[0] as usize;
                if !(idx < self.tile_map.map.len()) {
                    return Err(BattleError::InvalidCellIndex);
                }
                let paired = match self.tile_map.map[idx].pair_index {
                    Some(_) => true,
                    None => false,
                };
                if paired {
                    return Err(BattleError::CellAlreadyPaired);
                }
                let partner = match self.tile_map.find_partner(idx) {
                    Some(p) => p,
                    None => {
                        return Err(BattleError::InvalidTargets);
                    }
                };
                proof {
                    crate::tile_map::lemma_find_partner_props(self.tile_map.map@, idx as int, 0, partner as int);
                }
                self.tile_map.mark_pair(idx, partner);
                let ghost s0 = *self;
                {
                    let c = &mut self.battle_cter[ui];
                    c.is_can_attack = false;
                }
                proof {
                    lemma_wf_cter_update(s0, *self, ui as int);
                }
                let mut e = TargetEntry::new(EffectKind::AutoPair, 0);
                e.target_value.push(targets[0]);
                e.target_value.push(partner as u32);
                au.targets.push(e);
                proof {
                    assert(au.targets@.last().target_value@ =~= seq![targets@[0], partner as u32]);
                }
            }
            SkillFamily::ForcedMove => {
                if targets.len() < 2 {
                    return Err(BattleError::InvalidTargets);
                }
                let ti = match self.find_cter(targets[0]) {
                    Some(x) => x,
                    None => {
                        return Err(BattleError::NoSuchCombatant);
                    }
                };
                let dest = targets[1] as usize;
                if !(dest < self.tile_map.map.len()) {
                    return Err(BattleError::InvalidCellIndex);
                }
                if self.cell_occupied(dest) {
                    return Err(BattleError::CellOccupied);
                }
                let ghost s0 = *self;
                {
                    let c = &mut self.battle_cter[ti];
                    c.cell_index = dest;
                }
                proof {
                    lemma_wf_cter_update(s0, *self, ti as int);
                }
                let mut e = TargetEntry::new(EffectKind::MoveUser, 0);
                e.target_value.push(targets[0]);
                e.target_value.push(targets[1]);
                au.targets.push(e);
                proof {
                    assert(au.targets@.last().target_value@ =~= seq![targets@[0], targets@[1]]);
                }
            }
            SkillFamily::AoeDamageHeal => {
                let offs = match self.templates.get_scope(st_scope) {
                    Some(stp) => copy_offs(&stp.direction.direction),
                    None => {
                        return Err(BattleError::MissingTemplate);
                    }
                };
                let center = self.battle_cter[ui].cell_index;
                let healed = self.aoe_damage_pass(user_id, center, &offs, st_value, false, au);
                let ghost s0 = *self;
                self.battle_cter[ui].add_hp(healed);
                proof {
                    lemma_wf_cter_update(s0, *self, ui as int);
                }
                let e = TargetEntry::new(EffectKind::Cure, healed);
                au.targets.push(e);
            }
            SkillFamily::AoeDamage => {
                let offs = match self.templates.get_scope(st_scope) {
                    Some(stp) => copy_offs(&stp.direction.direction),
                    None => {
                        return Err(BattleError::MissingTemplate);
                    }
                };
                let center = targets[0] as usize;
                let _ = self.aoe_damage_pass(user_id, center, &offs, st_value, false, au);
            }
            SkillFamily::SingleDamage => {
                if targets[0] == user_id {
                    return Err(BattleError::SelfTarget);
                }
                let ti = match self.find_cter(targets[0]) {
                    Some(x) => x,
                    None => {
                        return Err(BattleError::NoSuchCombatant);
                    }
                };
                if self.battle_cter[ti].is_died() {
                    return Err(BattleError::TargetDied);
                }
                let _ = self.skill_strike(ti, st_value, false, au);
            }
            SkillFamily::CooldownReduce => {
                let ti = match self.find_cter(targets[0]) {
                    Some(x) => x,
                    None => {
                        return Err(BattleError::NoSuchCombatant);
                    }
                };
                let ghost s0 = *self;
                self.battle_cter[ti].reduce_all_cds(st_value);
                proof {
                    lemma_wf_cter_update(s0, *self, ti as int);
                }
                let mut e = TargetEntry::new(EffectKind::SubCd, st_value);
                e.target_value.push(targets[0]);
                au.targets.push(e);
                proof {
                    assert(au.targets@.last().target_value@ =~= seq![targets@[0]]);
                }
            }
        }
        let ghost mid = *self;
        proof {
            assert(family_post(fam, pre, mid, au0, *au, user_id, stg, targets@));
        }
        match st_consume_type {
            ConsumeType::Energy => {
                let ghost s0 = *self;
                proof {
                    lemma_cter_idx_of_slot(s0, ui as int);
                }
                self.battle_cter[ui].sub_energy(st_consume_value);
                proof {
                    lemma_wf_cter_update(s0, *self, ui as int);
                }
            }
            ConsumeType::Cooldown => {
                if !is_item {
                    match self.battle_cter[ui].find_skill(skill_id) {
                        Some(sl) => {
                            let ghost s0 = *self;
                            proof {
                                lemma_cter_idx_of_slot(s0, ui as int);
                            }
                            {
                                let c = &mut self.battle_cter[ui];
                                let sk = c.skills[sl];
                                c.skills.set(sl, Skill { cd_times: st_cd, ..sk });
                            }
                            proof {
                                lemma_wf_cter_update(s0, *self, ui as int);
                            }
                        }
                        None => {
                            proof {
                                lemma_cter_idx_of_slot(*self, ui as int);
                            }
                        }
                    }
                }
            }
        }
        proof {
            if is_item && st_consume_type == ConsumeType::Cooldown {
                lemma_cter_idx_of_slot(mid, ui as int);
            }
            assert(cost_post(mid, *self, user_id, skill_id, is_item, stg));
            assert(use_skill_ok(pre, *self, au0, *au, user_id, skill_id, is_item, targets@));
        }
        Ok(())
    }


    /// Use a one-shot item: the wrapped skill resolves as an item-sourced
    /// skill use, and — once its targeting validation passed and the
    /// effect ran — the item leaves the actor's item set regardless of
    /// what the effect achieved. A rejected use keeps the item.
    pub fn use_item(&mut self, user_id: u32, item_id: u32, targets: Vec<u32>, au: &mut ActionUnit) -> (r: Result<(), BattleError>)
        requires
            old(self).wf(),
        ensures
            final(self).wf(),
            match r {
                Err(e) => {
                    &&& Some(e) == use_item_err(*old(self), user_id, item_id, targets@)
                    &&& *final(self) == *old(self)
                    &&& *final(au) == *old(au)
                },
                Ok(()) => {
                    &&& use_item_err(*old(self), user_id, item_id, targets@) is None
                    &&& exists|mid: BattleData|
                        #[trigger] use_skill_ok(*old(self), mid, *old(au), *final(au), user_id, item_skill_id(*old(self), user_id, item_id), true, targets@)
                            && item_removed(mid, *final(self), user_id, item_id)
                },
            },
    {
        let ui = match self.find_cter(user_id) {
            Some(x) => x,
            None => {
                return Err(BattleError::NoSuchCombatant);
            }
        };
        let sl = match self.battle_cter[ui].find_item(item_id) {
            Some(s) => s,
            None => {
                return Err(BattleError::NoSuchItem);
            }
        };
        let sid = self.battle_cter[ui].items[sl].skill_temp.id;
        proof {
            assert(sid == item_skill_id(*self, user_id, item_id));
        }
        let ghost tg = targets@;
        let r = self.use_skill(user_id, sid, true, targets, au);
        match r {
            Err(e) => Err(e),
            Ok(()) => {
                let ghost midg = *self;
                match self.find_cter(user_id) {
                    Some(ui2) => {
                        match self.battle_cter[ui2].find_item(item_id) {
                            Some(sl2) => {
                                let ghost s0 = *self;
                                {
                                    let c = &mut self.battle_cter[ui2];
                                    let _ = c.items.remove(sl2);
                                }
                                proof {
                                    lemma_wf_cter_update(s0, *self, ui2 as int);
                                }
                            }
                            None => {}
                        }
                    }
                    None => {}
                }
                proof {
                    assert(item_removed(midg, *self, user_id, item_id));
                    assert(use_skill_ok(
                        *old(self),
                        midg,
                        *old(au),
                        *au,
                        user_id,
                        item_skill_id(*old(self), user_id, item_id),
                        true,
                        tg,
                    ));
                }
                Ok(())
            }
        }
    }


    /// The first living combatant, in arena order.
    pub(crate) fn find_survivor(&self) -> (r: Option<u32>)
        ensures
            r == spec_survivor(*self),
    {
        let n = self.battle_cter.len();
        let mut i: usize = 0;
        while i < n
            invariant
                n == self.battle_cter@.len(),
                i <= n,
                find_alive_from(self.battle_cter@, 0) == find_alive_from(self.battle_cter@, i as int),
            decreases n - i,
        {
            if !self.battle_cter[i].is_died() {
                return Some(self.battle_cter[i].user_id);
            }
            i += 1;
        }
        None
    }

    /// A player's character id and grade going into settlement.
    pub(crate) fn cter_fields(&self, user: u32) -> (r: (u32, u32))
        ensures
            r.0 == cter_id_of(*self, user),
            r.1 == grade_of(*self, user),
    {
        match self.find_cter(user) {
            Some(i) => (self.battle_cter[i].cter_id, self.battle_cter[i].grade),
            None => (0, 0),
        }
    }

    /// End-of-match settlement. It fires exactly once per match — a
    /// settled session returns nothing and stays untouched — and only
    /// when at most one combatant survives. It then marks the session
    /// settled, recomputes every participant's persistent grade (up for
    /// the best rank group, down otherwise, clamped into `[1, maxgrade]`),
    /// builds the report assigning every listed participant its rank and
    /// grade, and queues one settlement notice per member.
    #[verifier::rlimit(100)]
    #[verifier::spinoff_prover]
    pub fn battle_summary(&mut self) -> (r: Option<SummaryReport>)
        requires
            old(self).wf(),
        ensures
            final(self).wf(),
            match r {
                None => (old(self).settled || old(self).spec_alive_count() >= 2)
                    && *final(self) == *old(self),
                Some(rep) => {
                    let pre = *old(self);
                    &&& !pre.settled
                    &&& pre.spec_alive_count() <= 1
                    &&& settlement_rel(pre, *final(self))
                    &&& rep.summary_datas@ == settlement_report_seq(
                        pre,
                        pre.templates.spec_constant(ConstantKey::MaxGrade, 2),
                    )
                },
            },
    {
        if self.settled {
            return None;
        }
        let ac = self.alive_count();
        if ac >= 2 {
            return None;
        }
        let ghost pre = *self;
        let maxgrade = self.templates.constant_or(ConstantKey::MaxGrade, 2);
        let survivor = self.find_survivor();
        let maxg: u32 = if self.rank_vec.len() > 0 {
            self.rank_vec[self.rank_vec.len() - 1].group
        } else {
            0
        };
        let topg: u32 = match survivor {
            Some(_) => sat_add(maxg, 1),
            None => maxg,
        };
        let mut lines: Vec<SummaryData> = Vec::new();
        let ghost head: Seq<SummaryData> = match spec_survivor(pre) {
            Some(u) => seq![
                SummaryData {
                    user_id: u,
                    cter_id: cter_id_of(pre, u),
                    rank: 0,
                    grade: spec_new_grade(grade_of(pre, u), true, maxgrade),
                },
            ],
            None => Seq::empty(),
        };
        match survivor {
            Some(u) => {
                let (cid, gr) = self.cter_fields(u);
                lines.push(SummaryData { user_id: u, cter_id: cid, rank: 0, grade: new_grade(gr, true, maxgrade) });
            }
            None => {}
        }
        proof {
            assert(lines@ =~= head);
        }
        let n = self.rank_vec.len();
        let mut m: usize = 0;
        while m < n
            invariant
                self.wf(),
                pre == *self,
                n == pre.rank_vec@.len(),
                m <= n,
                topg == spec_top_group(pre, spec_survivor(pre) is Some),
                head + summary_lines_from(pre, topg, maxgrade, 0)
                    == lines@ + summary_lines_from(pre, topg, maxgrade, m as int),
                maxgrade == pre.templates.spec_constant(ConstantKey::MaxGrade, 2),
            decreases n - m,
        {
            let e = self.rank_vec[m];
            let (cid, gr) = self.cter_fields(e.user_id);
            lines.push(SummaryData {
                user_id: e.user_id,
                cter_id: cid,
                rank: sat_sub(topg, e.group),
                grade: new_grade(gr, e.group == topg, maxgrade),
            });
            proof {
                assert(head + summary_lines_from(pre, topg, maxgrade, 0)
                    =~= lines@ + summary_lines_from(pre, topg, maxgrade, m + 1));
            }
            m += 1;
        }
        proof {
            assert(lines@ =~= settlement_report_seq(pre, maxgrade));
        }
        self.settled = true;
        let cn = self.battle_cter.len();
        let mut ci: usize = 0;
        while ci < cn
            invariant
                self.wf(),
                cn == pre.battle_cter@.len(),
                ci <= cn,
                self.battle_cter@.len() == cn,
                survivor == spec_survivor(pre),
                topg == spec_top_group(pre, spec_survivor(pre) is Some),
                maxgrade == pre.templates.spec_constant(ConstantKey::MaxGrade, 2),
                forall|x: int| 0 <= x < ci ==>
                    (#[trigger] self.battle_cter@[x]) == (BattleCharacter {
                        grade: spec_new_grade(
                            pre.battle_cter@[x].grade,
                            win_of(pre, pre.battle_cter@[x].user_id),
                            maxgrade,
                        ),
                        ..pre.battle_cter@[x]
                    }),
                forall|x: int| ci <= x < cn ==> self.battle_cter@[x] == pre.battle_cter@[x],
                *self == (BattleData { settled: true, battle_cter: self.battle_cter, ..pre }),
            decreases cn - ci,
        {
            let user = self.battle_cter[ci].user_id;
            let win = match survivor {
                Some(u) => user == u,
                None => {
                    let ln = self.rank_vec.len();
                    let mut k: usize = 0;
                    let mut w = false;
                    let mut found = false;
                    while k < ln && !found
                        invariant
                            ln == self.rank_vec@.len(),
                            k <= ln,
                            !found ==> find_entry_from(self.rank_vec@, user, 0)
                                == find_entry_from(self.rank_vec@, user, k as int),
                            !found ==> !w,
                            found ==> (find_entry_from(self.rank_vec@, user, 0) matches Some(kk)
                                && w == (ln > 0 && self.rank_vec@[kk].group == topg)),
                            topg == spec_top_group(pre, spec_survivor(pre) is Some),
                            self.rank_vec == pre.rank_vec,
                        decreases ln - k + (if found { 0int } else { 1int }),
                    {
                        if self.rank_vec[k].user_id == user {
                            found = true;
                            w = self.rank_vec[k].group == topg;
                        } else {
                            k += 1;
                        }
                    }
                    w
                }
            };
            let gr = self.battle_cter[ci].grade;
            let ng = new_grade(gr, win, maxgrade);
            let ghost s0 = *self;
            {
                let c = &mut self.battle_cter[ci];
                c.grade = ng;
            }
            proof {
                lemma_wf_cter_update(s0, *self, ci as int);
            }
            ci += 1;
        }
        let ghost mid2 = *self;
        let nn = self.battle_cter.len();
        let mut m2: usize = 0;
        while m2 < nn
            invariant
                self.wf(),
                nn == mid2.battle_cter@.len(),
                m2 <= nn,
                self.battle_cter == mid2.battle_cter,
                *self == (BattleData { notices: self.notices, ..mid2 }),
                self.notices@.len() == mid2.notices@.len() + m2,
                forall|k: int| 0 <= k < mid2.notices@.len() ==> self.notices@[k] == mid2.notices@[k],
                lines@ == settlement_report_seq(pre, maxgrade),
                forall|x: int| 0 <= x < m2 ==>
                    match #[trigger] self.notices@[mid2.notices@.len() + x] {
                        Notice::Settlement { to, summary_datas } => {
                            &&& to == mid2.battle_cter@[x].user_id
                            &&& summary_datas@ == lines@
                        },
                        _ => false,
                    },
            decreases nn - m2,
        {
            let to = self.battle_cter[m2].user_id;
            let copy = copy_summary(&lines);
            self.notices.push(Notice::Settlement { to, summary_datas: copy });
            m2 += 1;
        }
        Some(SummaryReport { summary_datas: lines })
    }

    /// Post-command settlement and board upkeep, run after every mutating
    /// command. Where at most one combatant survives an unsettled match,
    /// settlement fires — grades recomputed, the report queued for every
    /// member, the session marked settled — and `true` comes back. Where
    /// combatants instead still fight on a board whose unmatched counter
    /// has fallen to the threshold of 2, the board regenerates from the
    /// given seeds; a seed list of the wrong size changes nothing. In
    /// every other case the session stays untouched.
    pub fn handler_settle(&mut self, seeds: &Vec<CellSeed>) -> (r: bool)
        requires
            old(self).wf(),
        ensures
            final(self).wf(),
            r == (!old(self).settled && old(self).spec_alive_count() <= 1),
            r ==> settlement_rel(*old(self), *final(self)),
            !r && refresh_due(*old(self)) && seeds_fit(*old(self), seeds@) ==>
                map_reset_rel(*old(self), *final(self), seeds@),
            !r && !(refresh_due(*old(self)) && seeds_fit(*old(self), seeds@)) ==>
                *final(self) == *old(self),
    {
        let settled_now = match self.battle_summary() {
            Some(_) => true,
            None => false,
        };
        if settled_now {
            return true;
        }
        if self.settled {
            return false;
        }
        let ac = self.alive_count();
        if ac >= 2 && self.tile_map.un_pair_count <= 2 {
            let _ = self.reset_map(seeds);
        }
        false
    }

    /// Regenerate the board from fresh seeds, preserving combatant
    /// positions. The seed count must be the living-combatant count times
    /// the configured tiles-per-player. Every living combatant's
    /// open-actions return, its recently-open pointer clears, its
    /// map-regeneration buffs fire for their attack bonus, and its
    /// pairing bonuses are taken back; the unmatched counter resets to
    /// the map's full size.
    #[verifier::rlimit(100)]
    #[verifier::spinoff_prover]
    pub fn reset_map(&mut self, seeds: &Vec<CellSeed>) -> (r: Result<(), BattleError>)
        requires
            old(self).wf(),
        ensures
            final(self).wf(),
            match r {
                Err(e) => {
                    &&& *final(self) == *old(self)
                    &&& e == if old(self).settled {
                        BattleError::MatchSettled
                    } else {
                        BattleError::BadMapSize
                    }
                    &&& (old(self).settled || !seeds_fit(*old(self), seeds@))
                },
                Ok(()) => {
                    let pre = *old(self);
                    &&& !pre.settled
                    &&& seeds_fit(pre, seeds@)
                    &&& map_reset_rel(pre, *final(self), seeds@)
                },
            },
    {
        if self.settled {
            return Err(BattleError::MatchSettled);
        }
        let ac = self.alive_count();
        let cpp = self.templates.constant_or(ConstantKey::CellsPerPlayer, 4);
        proof {
            assert((ac as int) * (cpp as int) <= (0xFFFF_FFFF_FFFF_FFFFint) * (0xFFFF_FFFFint)) by (nonlinear_arith)
                requires
                    ac <= 0xFFFF_FFFF_FFFF_FFFFint,
                    cpp <= 0xFFFF_FFFFint,
                    0 <= ac,
                    0 <= cpp,
            ;
        }
        let need: u128 = (ac as u128) * (cpp as u128);
        if (seeds.len() as u128) != need {
            return Err(BattleError::BadMapSize);
        }
        let fresh = match crate::tile_map::TileMap::init(seeds, &self.templates) {
            Some(mp) => mp,
            None => {
                return Err(BattleError::BadMapSize);
            }
        };
        let ghost pre = *self;
        let ghost freshg = fresh;
        self.tile_map = fresh;
        let n = self.battle_cter.len();
        let mut ci: usize = 0;
        while ci < n
            invariant
                n == pre.battle_cter@.len(),
                ci <= n,
                self.battle_cter@.len() == n,
                self.tile_map == freshg,
                self.tile_map.wf(),
                forall|x: int| 0 <= x < ci ==> {
                    let c0 = pre.battle_cter@[x];
                    if c0.state is Alive {
                        &&& (#[trigger] self.battle_cter@[x]) == (BattleCharacter {
                            residue_open_times: crate::character::DEFAULT_OPEN_TIMES,
                            recently_open_cell_index: None,
                            buffs: self.battle_cter@[x].buffs,
                            add_damage_buffs: self.battle_cter@[x].add_damage_buffs,
                            ..c0
                        })
                        &&& self.battle_cter@[x].buffs@
                            == consume_kind_from(c0.buffs@, pre.templates, BuffKind::ResetMapAddAttack, 0)
                        &&& self.battle_cter@[x].add_damage_buffs@
                            == c0.add_damage_buffs@.filter(|d: AddDamage| !crate::character::pair_bonus(d, pre.templates))
                                + collect_kind_from(c0.buffs@, pre.templates, BuffKind::ResetMapAddAttack, 0)
                    } else {
                        self.battle_cter@[x] == (BattleCharacter {
                            recently_open_cell_index: None,
                            ..c0
                        })
                    }
                },
                forall|x: int| ci <= x < n ==> self.battle_cter@[x] == pre.battle_cter@[x],
                *self == (BattleData { tile_map: self.tile_map, battle_cter: self.battle_cter, ..pre }),
            decreases n - ci,
        {
            if !self.battle_cter[ci].is_died() {
                self.battle_cter[ci].map_reset_update(&self.templates);
            } else {
                self.battle_cter[ci].set_recently_open_cell_index(None);
            }
            ci += 1;
        }
        proof {
            lemma_reset_wf(pre, *self);
            assert(self.tile_map == freshg);
        }
        Ok(())
    }

    /// Open a tile: the command of the tile-pairing mechanic. On any
    /// validation failure nothing is mutated and the exact reason comes
    /// back; on success the state and the report change exactly as
    /// [`open_cell_post`] describes, and the returned flag says whether
    /// the tile paired — granting the follow-up attack — which happens
    /// precisely when the actor's recently opened tile has the same id.
    #[verifier::rlimit(100)]
    #[verifier::spinoff_prover]
    pub fn open_cell(&mut self, user_id: u32, index: usize, au: &mut ActionUnit) -> (r: Result<bool, BattleError>)
        requires
            old(self).wf(),
        ensures
            final(self).wf(),
            match r {
                Err(e) => {
                    &&& Some(e) == open_cell_err(*old(self), user_id, index as int)
                    &&& *final(self) == *old(self)
                    &&& *final(au) == *old(au)
                },
                Ok(is_pair) => {
                    &&& open_cell_err(*old(self), user_id, index as int) is None
                    &&& open_cell_post(*old(self), *final(self), *old(au), *final(au), user_id, index as int, is_pair)
                },
            },
    {
        if self.settled {
            return Err(BattleError::MatchSettled);
        }
        let tu = self.turn_orders[self.next_turn_index];
        if tu == 0 {
            return Err(BattleError::NoTurnUser);
        }
        if user_id != tu {
            return Err(BattleError::NotYourTurn);
        }
        let ci = match self.find_cter(user_id) {
            Some(ci) => ci,
            None => {
                return Err(BattleError::NoSuchCombatant);
            }
        };
        proof {
            crate::battle::lemma_find_cter_unique(self.battle_cter@, user_id, 0, ci as int);
        }
        if self.battle_cter[ci].is_died() {
            return Err(BattleError::ActorDied);
        }
        if index >= self.tile_map.map.len() {
            return Err(BattleError::InvalidCellIndex);
        }
        let already = match self.tile_map.map[index].pair_index {
            Some(_) => true,
            None => false,
        };
        if already {
            return Err(BattleError::CellAlreadyPaired);
        }
        if self.battle_cter[ci].residue_open_times == 0 {
            return Err(BattleError::NoOpenTimesLeft);
        }
        let died = self.handler_cter_move(ci, index, au);
        if died {
            return Ok(false);
        }
        let ghost s1 = *self;
        proof {
            assert(pair_cond(s1, ci as int, index as int) == pair_cond(*old(self), ci as int, index as int));
        }
        let is_pair = self.handler_cell_pair(ci, au);
        let fired_cell = self.tile_map.consume_cell_kind(index, &self.templates, BuffKind::OpenGainEnergy);
        let ghost s3 = *self;
        let fired_own = consume_kind(&mut self.battle_cter[ci].buffs, &self.templates, BuffKind::OpenGainEnergy);
        proof {
            lemma_wf_cter_update(s3, *self, ci as int);
        }
        let g1 = sum_fired(&fired_cell);
        let g2 = sum_fired(&fired_own);
        let ghost s4 = *self;
        self.battle_cter[ci].add_energy(sat_add(g1, g2));
        proof {
            lemma_wf_cter_update(s4, *self, ci as int);
        }
        if is_pair {
            let ghost s5 = *self;
            {
                let c = &mut self.battle_cter[ci];
                c.is_can_attack = true;
                c.recently_open_cell_index = None;
            }
            proof {
                lemma_wf_cter_update(s5, *self, ci as int);
            }
            let ghost s6 = *self;
            let fired_pair = consume_kind(&mut self.battle_cter[ci].buffs, &self.templates, BuffKind::PairAddAttack);
            proof {
                lemma_wf_cter_update(s6, *self, ci as int);
            }
            let ghost s7 = *self;
            self.battle_cter[ci].extend_damage_buffs(&fired_pair);
            proof {
                lemma_wf_cter_update(s7, *self, ci as int);
            }
        } else {
            let ghost s5 = *self;
            self.battle_cter[ci].set_recently_open_cell_index(Some(index));
            proof {
                lemma_wf_cter_update(s5, *self, ci as int);
            }
        }
        let eb = self.tile_map.map[index].extra_buff;
        if eb != 0 {
            match self.templates.get_buff(eb) {
                Some(t) => {
                    if t.trigger_times > 0 && t.keep_times > 0 {
                        let b = Buff { id: t.id, trigger_timesed: t.trigger_times, keep_times: t.keep_times };
                        let ghost s8 = *self;
                        self.battle_cter[ci].add_buff_instance(b);
                        proof {
                            lemma_wf_cter_update(s8, *self, ci as int);
                        }
                        let mut e = TargetEntry::new(EffectKind::AddBuff, eb);
                        e.buffs.push(eb);
                        au.targets.push(e);
                    }
                }
                None => {}
            }
        }
        let ghost s9 = *self;
        {
            let c = &mut self.battle_cter[ci];
            c.is_opened_cell = true;
            c.residue_open_times = c.residue_open_times - 1;
        }
        proof {
            lemma_wf_cter_update(s9, *self, ci as int);
        }
        let ghost s10 = *self;
        self.battle_cter[ci].sub_all_cds();
        proof {
            lemma_wf_cter_update(s10, *self, ci as int);
        }
        Ok(is_pair)
    }
}

/// Copy a scope's offset list so the board can be mutated while it is used.
fn copy_offs(src: &Vec<i32>) -> (r: Vec<i32>)
    ensures
        r@ == src@,
{
    let n = src.len();
    let mut r: Vec<i32> = Vec::new();
    let mut i: usize = 0;
    while i < n
        invariant
            n == src@.len(),
            i <= n,
            r@ == src@.take(i as int),
        decreases n - i,
    {
        r.push(src[i]);
        proof {
            assert(src@.take(i + 1) =~= src@.take(i as int).push(src@[i as int]));
        }
        i += 1;
    }
    proof {
        assert(src@.take(n as int) =~= src@);
    }
    r
}


/// Compute a settling participant's new grade.
fn new_grade(old_grade: u32, win: bool, maxgrade: u32) -> (r: u32)
    ensures
        r == spec_new_grade(old_grade, win, maxgrade),
{
    if win {
        let g = if old_grade >= u32::MAX { u32::MAX } else { old_grade + 1 };
        let g1 = if g > maxgrade { maxgrade } else { g };
        if g1 == 0 {
            1
        } else {
            g1
        }
    } else {
        let g = if old_grade == 0 { 0 } else { old_grade - 1 };
        let g1 = if g > maxgrade { maxgrade } else { g };
        if g1 == 0 || old_grade == 0 {
            1
        } else {
            g1
        }
    }
}

/// Copy the settlement lines for the next addressee.
fn copy_summary(src: &Vec<SummaryData>) -> (r: Vec<SummaryData>)
    ensures
        r@ == src@,
{
    let n = src.len();
    let mut r: Vec<SummaryData> = Vec::new();
    let mut i: usize = 0;
    while i < n
        invariant
            n == src@.len(),
            i <= n,
            r@ == src@.take(i as int),
        decreases n - i,
    {
        r.push(src[i]);
        proof {
            assert(src@.take(i + 1) =~= src@.take(i as int).push(src@[i as int]));
        }
        i += 1;
    }
    proof {
        assert(src@.take(n as int) =~= src@);
    }
    r
}

/// Regeneration preserves session well-formedness: the fresh board is
/// well-formed, every id and life state is kept, and every recently-open
/// pointer has been cleared or kept in place on a dead combatant.
#[verifier::rlimit(100)]
#[verifier::spinoff_prover]
pub proof fn lemma_reset_wf(pre: BattleData, post: BattleData)
    requires
        pre.wf(),
        post.tile_map.wf(),
        post.battle_cter@.len() == pre.battle_cter@.len(),
        forall|x: int| 0 <= x < pre.battle_cter@.len() ==> {
            &&& (#[trigger] post.battle_cter@[x]).user_id == pre.battle_cter@[x].user_id
            &&& post.battle_cter@[x].state == pre.battle_cter@[x].state
            &&& post.battle_cter@[x].hp == pre.battle_cter@[x].hp
            &&& post.battle_cter@[x].recently_open_cell_index is None
        },
        post.turn_orders == pre.turn_orders,
        post.choice_orders == pre.choice_orders,
        post.next_turn_index == pre.next_turn_index,
        post.rank_vec == pre.rank_vec,
    ensures
        post.wf(),
{
    reveal(crate::battle::cters_wf);
    reveal(crate::battle::ledger_wf);
    assert forall|k: int| 0 <= k < post.rank_vec@.len() implies
        match crate::battle::find_cter_from(post.battle_cter@, (#[trigger] post.rank_vec@[k]).user_id, 0) {
            Some(i) => post.battle_cter@[i].state is Died,
            None => false,
        } by {
        let u = post.rank_vec@[k].user_id;
        crate::battle::lemma_find_cter_same_ids(pre.battle_cter@, post.battle_cter@, u, 0);
        match crate::battle::find_cter_from(pre.battle_cter@, u, 0) {
            Some(i) => {
                crate::battle::lemma_find_cter_unique(pre.battle_cter@, u, 0, i);
            }
            None => {
                assert(false);
            }
        }
    }
    assert forall|i: int| 0 <= i < post.battle_cter@.len()
        && (#[trigger] post.battle_cter@[i]).state is Died implies
        crate::battle::ledger_contains(post.rank_vec@, post.battle_cter@[i].user_id) by {
        assert(pre.battle_cter@[i].state is Died);
    }
}


/// The pairing law of consecutive opens: once a player's open recorded a
/// tile without pairing, a second open of a distinct tile of the same id
/// always pairs and grants the follow-up attack opportunity, while a
/// second tile of a different id never pairs.
pub proof fn lemma_open_pair_second_call(
    s0: BattleData,
    s1: BattleData,
    s2: BattleData,
    au0: ActionUnit,
    au1: ActionUnit,
    au2: ActionUnit,
    user: u32,
    i: int,
    j: int,
    p2: bool,
)
    requires
        open_cell_err(s0, user, i) is None,
        open_cell_post(s0, s1, au0, au1, user, i, false),
        match s1.spec_cter_idx(user) {
            Some(c) => s1.battle_cter@[c].state is Alive,
            None => false,
        },
        open_cell_err(s1, user, j) is None,
        open_cell_post(s1, s2, au1, au2, user, j, p2),
        match s2.spec_cter_idx(user) {
            Some(c) => s2.battle_cter@[c].state is Alive,
            None => false,
        },
    ensures
        i != j && s1.tile_map.map@[j].id == s1.tile_map.map@[i].id ==> p2,
        s1.tile_map.map@[j].id != s1.tile_map.map@[i].id ==> !p2,
{
    let ci0 = s0.spec_cter_idx(user)->Some_0;
    crate::battle::lemma_find_cter_unique(s0.battle_cter@, user, 0, ci0);
    crate::battle::lemma_find_cter_same_ids(s0.battle_cter@, s1.battle_cter@, user, 0);
    let ci1 = s1.spec_cter_idx(user)->Some_0;
    assert(ci1 == ci0);
    // the first open must have taken the surviving path: the actor is alive
    assert(s1.battle_cter@[ci1].recently_open_cell_index == Some(i as usize));
    // its tile is still unpaired and its id untouched after the first open
    assert(s1.tile_map.map@[i].pair_index is None);
    // the second open survived as well, so its pairing check decided p2
    crate::battle::lemma_find_cter_same_ids(s1.battle_cter@, s2.battle_cter@, user, 0);
    let ci2 = s2.spec_cter_idx(user)->Some_0;
    assert(ci2 == ci1);
    assert(p2 == pair_cond(s1, ci1, j));
}

} // verus!
