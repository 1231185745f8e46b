//! Outbound data built by the battle engine: per-command action reports,
//! per-turn notices, the end-of-match summary, timer registrations, and the
//! typed failures a command can be rejected with.

use vstd::prelude::*;

verus! {

/// Why a command was rejected. Validation failures mutate nothing.
#[derive(Clone, Copy, PartialEq, Eq, Structural, Debug)]
pub enum BattleError {
    /// The match has already settled; no further mutating commands.
    MatchSettled,
    /// The acting player does not hold the current turn.
    NotYourTurn,
    /// The current turn seat holds no player.
    NoTurnUser,
    /// A tile index lies outside the current map.
    InvalidCellIndex,
    /// The tile is already permanently resolved.
    CellAlreadyPaired,
    /// The combatant has no open-actions left this turn.
    NoOpenTimesLeft,
    /// No combatant with that player id is in the session.
    NoSuchCombatant,
    /// The addressed combatant is dead.
    TargetDied,
    /// The acting combatant is dead.
    ActorDied,
    /// The combatant does not own that skill.
    NoSuchSkill,
    /// The skill's cooldown has not reached zero.
    SkillOnCooldown,
    /// The combatant does not own that item.
    NoSuchItem,
    /// The supplied target list does not fit the skill's target type.
    InvalidTargets,
    /// The skill may not be aimed at its user.
    SelfTarget,
    /// The skill's judge condition does not currently hold.
    JudgeNotMet,
    /// A template the resolution needs is missing from the service.
    MissingTemplate,
    /// No family id range covers the skill id.
    UnknownSkillFamily,
    /// The destination tile is occupied.
    CellOccupied,
    /// The combatant may not attack right now.
    CannotAttack,
    /// The regenerated map would have the wrong number of tiles.
    BadMapSize,
    /// A combatant cannot be seated without health.
    NoHealth,
}

/// The kind of one effect entry in an action report.
#[derive(Clone, Copy, PartialEq, Eq, Structural, Debug)]
pub enum EffectKind {
    AttackDamage,
    SkillDamage,
    Cure,
    AddBuff,
    LoseBuff,
    Pair,
    ChangeCellIndex,
    ShowCell,
    AutoPair,
    MoveUser,
    SubCd,
    AddEnergy,
}

/// A passive effect that fired on a target while it was being resolved,
/// such as a guard buff absorbing the damage.
#[derive(Clone, Copy, PartialEq, Eq, Structural, Debug)]
pub struct TriggerEffect {
    pub buff_id: u32,
    pub value: u32,
}

/// One per-target entry of an action report.
#[derive(Clone, PartialEq, Eq, Debug)]
pub struct TargetEntry {
    /// Positions or ids the effect touched, in resolution order.
    pub target_value: Vec<u32>,
    pub effect_type: EffectKind,
    pub effect_value: u32,
    /// Buff ids the target gained.
    pub buffs: Vec<u32>,
    /// Buff ids the target lost.
    pub lost_buffs: Vec<u32>,
    /// Passive effects that fired on the target.
    pub passive_effects: Vec<TriggerEffect>,
}

impl TargetEntry {
    /// A fresh entry of the given kind and magnitude.
    pub fn new(effect_type: EffectKind, effect_value: u32) -> (r: TargetEntry)
        ensures
            r.effect_type == effect_type,
            r.effect_value == effect_value,
            r.target_value@ == Seq::<u32>::empty(),
            r.buffs@ == Seq::<u32>::empty(),
            r.lost_buffs@ == Seq::<u32>::empty(),
            r.passive_effects@ == Seq::<TriggerEffect>::empty(),
    {
        TargetEntry {
            target_value: Vec::new(),
            effect_type,
            effect_value,
            buffs: Vec::new(),
            lost_buffs: Vec::new(),
            passive_effects: Vec::new(),
        }
    }
}

/// The append-only record of one command's effects.
#[derive(Clone, PartialEq, Eq, Debug)]
pub struct ActionUnit {
    /// The acting player.
    pub from_user: u32,
    /// Values describing the action itself, such as the opened tile's id.
    pub action_value: Vec<u32>,
    /// One entry per affected target, in resolution order.
    pub targets: Vec<TargetEntry>,
}

impl ActionUnit {
    /// An empty report for one command of the given player.
    pub fn new(from_user: u32) -> (r: ActionUnit)
        ensures
            r.from_user == from_user,
            r.action_value@ == Seq::<u32>::empty(),
            r.targets@ == Seq::<TargetEntry>::empty(),
    {
        ActionUnit { from_user, action_value: Vec::new(), targets: Vec::new() }
    }
}

/// Snapshot of one buff, pushed with each turn notice.
#[derive(Clone, Copy, PartialEq, Eq, Structural, Debug)]
pub struct BuffSnapshot {
    pub buff_id: u32,
    pub trigger_timesed: u32,
    pub keep_times: u32,
}

/// One settlement line: a participant's final rank and grade.
#[derive(Clone, Copy, PartialEq, Eq, Structural, Debug)]
pub struct SummaryData {
    pub user_id: u32,
    pub cter_id: u32,
    pub rank: u32,
    pub grade: u32,
}

/// The end-of-match report, one line per participant.
#[derive(Clone, PartialEq, Eq, Debug)]
pub struct SummaryReport {
    pub summary_datas: Vec<SummaryData>,
}

/// An outbound notification, queued by the session and delivered by the
/// surrounding process.
#[derive(Clone, PartialEq, Eq, Debug)]
pub enum Notice {
    /// A new turn began: the active player and its buff snapshot, addressed
    /// to one surviving member.
    Turn { to: u32, user_id: u32, buffs: Vec<BuffSnapshot> },
    /// The match settled, addressed to one member.
    Settlement { to: u32, summary_datas: Vec<SummaryData> },
}

/// A turn-timeout registration the surrounding process should arm.
/// A timeout whose serial no longer matches the session's current turn
/// serial is stale and must be ignored.
#[derive(Clone, Copy, PartialEq, Eq, Structural, Debug)]
pub struct TimerTask {
    pub turn_serial: u64,
    pub delay_ms: u64,
}

} // verus!
