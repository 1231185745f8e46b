//! Read-only template tables: skill, buff, positional-scope and
//! judge-condition definitions, the skill-family id ranges, and the
//! named-constant table. The battle session receives one
//! [`TemplateService`] at creation and only ever reads it.

use vstd::prelude::*;

verus! {

/// Who a skill may be aimed at; arity and ownership of the supplied target
/// list are checked against this before the skill resolves.
#[derive(Clone, Copy, PartialEq, Eq, Structural, Debug)]
pub enum TargetType {
    /// The user only.
    Oneself,
    /// Exactly one living combatant other than the user.
    SingleEnemy,
    /// Exactly one living combatant, the user allowed.
    AnyPlayer,
    /// One or more tile indices of the current map.
    Cells,
}

/// What using a skill costs.
#[derive(Clone, Copy, PartialEq, Eq, Structural, Debug)]
pub enum ConsumeType {
    /// Deduct `consume_value` energy, clamped at zero.
    Energy,
    /// Reset the skill cooldown to its template base.
    Cooldown,
}

/// The closed set of effect families a skill id can resolve to.
#[derive(Clone, Copy, PartialEq, Eq, Structural, Debug)]
pub enum SkillFamily {
    /// Swap the contents of two unpaired tiles.
    Reposition,
    /// Reveal one tile's id without moving.
    Reveal,
    /// Attach a buff instance to a target combatant.
    ApplyBuff,
    /// Resolve one tile pair without combat; no attack this turn.
    AutoPair,
    /// Move a target combatant onto an unoccupied tile.
    ForcedMove,
    /// Damage every adjacent combatant, heal the user by the total dealt.
    AoeDamageHeal,
    /// Scoped area damage centered on a target combatant.
    AoeDamage,
    /// Fixed damage to a single target combatant.
    SingleDamage,
    /// Shorten every cooldown of a target combatant.
    CooldownReduce,
}

/// What a buff does when its trigger event fires.
#[derive(Clone, Copy, PartialEq, Eq, Structural, Debug)]
pub enum BuffKind {
    /// On being attacked: fully negate one incoming damage instance.
    Guard,
    /// Passive: adds `value` attack and turns the normal attack into an
    /// area attack around its primary target.
    AddAttackAndAoe,
    /// On pairing a tile: gain an attack bonus of `value`; the bonus is
    /// taken back when the map regenerates.
    PairAddAttack,
    /// On map regeneration: gain an attack bonus of `value`.
    ResetMapAddAttack,
    /// Cell buff, on a combatant entering the cell: deal `value` damage.
    Trap,
    /// On opening a tile: the opener gains `value` energy.
    OpenGainEnergy,
}

/// Immutable description of a skill, looked up by id.
#[derive(Clone, PartialEq, Eq, Structural, Debug)]
pub struct SkillTemplate {
    pub id: u32,
    pub target: TargetType,
    pub consume_type: ConsumeType,
    pub consume_value: u32,
    /// Base cooldown the runtime skill is reset to after use.
    pub cd: u32,
    /// Judge-condition template id; 0 means the skill is ungated.
    pub skill_judge: u32,
    /// Positional-scope template id for the area families.
    pub scope: u32,
    /// Effect magnitude: damage dealt, cooldown turns removed, and so on.
    pub value: u32,
    /// Buff template id handed out by the `ApplyBuff` family.
    pub buff: u32,
}

/// Immutable description of a buff, looked up by id.
#[derive(Clone, PartialEq, Eq, Structural, Debug)]
pub struct BuffTemplate {
    pub id: u32,
    pub kind: BuffKind,
    /// Effect magnitude: damage, attack bonus or energy, by kind.
    pub value: u32,
    /// How many times the trigger may fire before the buff is spent.
    pub trigger_times: u32,
    /// How many turn boundaries the buff survives.
    pub keep_times: u32,
    /// Positional-scope template id used by `AddAttackAndAoe`.
    pub scope: u32,
}

/// A set of signed tile offsets relative to an origin index.
#[derive(Clone, PartialEq, Eq, Debug)]
pub struct Direction {
    pub direction: Vec<i32>,
}

/// A positional scope: the tiles reached from an origin by the offsets.
#[derive(Clone, PartialEq, Eq, Debug)]
pub struct ScopeTemplate {
    pub id: u32,
    pub direction: Direction,
}

/// A judge condition gating a skill: the user must have at least
/// `min_hp` health for the skill to be usable.
#[derive(Clone, Copy, PartialEq, Eq, Structural, Debug)]
pub struct JudgeTemplate {
    pub id: u32,
    pub min_hp: u32,
}

/// One inclusive skill-id range mapped to an effect family.
#[derive(Clone, Copy, PartialEq, Eq, Structural, Debug)]
pub struct FamilyRange {
    pub family: SkillFamily,
    pub lo: u32,
    pub hi: u32,
}

/// Keys of the named-constant table.
#[derive(Clone, Copy, PartialEq, Eq, Structural, Debug)]
pub enum ConstantKey {
    /// Upper clamp of the persistent grade counter.
    MaxGrade,
    /// Tiles generated per living combatant when the map regenerates.
    CellsPerPlayer,
}

/// One named constant.
#[derive(Clone, Copy, PartialEq, Eq, Structural, Debug)]
pub struct Constant {
    pub key: ConstantKey,
    pub value: u32,
}

/// The read-only lookup service injected into a battle session.
#[derive(Clone, PartialEq, Eq, Debug)]
pub struct TemplateService {
    pub skills: Vec<SkillTemplate>,
    pub buffs: Vec<BuffTemplate>,
    pub scopes: Vec<ScopeTemplate>,
    pub judges: Vec<JudgeTemplate>,
    pub families: Vec<FamilyRange>,
    pub constants: Vec<Constant>,
}

/// First skill template with the given id at or after position `i`.
pub open spec fn find_skill_from(s: Seq<SkillTemplate>, id: u32, i: int) -> Option<SkillTemplate>
    decreases s.len() - i when 0 <= i <= s.len()
{
    if i >= s.len() {
        None
    } else if s[i].id == id {
        Some(s[i])
    } else {
        find_skill_from(s, id, i + 1)
    }
}

/// First buff template with the given id at or after position `i`.
pub open spec fn find_buff_from(s: Seq<BuffTemplate>, id: u32, i: int) -> Option<BuffTemplate>
    decreases s.len() - i when 0 <= i <= s.len()
{
    if i >= s.len() {
        None
    } else if s[i].id == id {
        Some(s[i])
    } else {
        find_buff_from(s, id, i + 1)
    }
}

/// First judge template with the given id at or after position `i`.
pub open spec fn find_judge_from(s: Seq<JudgeTemplate>, id: u32, i: int) -> Option<JudgeTemplate>
    decreases s.len() - i when 0 <= i <= s.len()
{
    if i >= s.len() {
        None
    } else if s[i].id == id {
        Some(s[i])
    } else {
        find_judge_from(s, id, i + 1)
    }
}

/// Index of the first scope template with the given id at or after `i`.
pub open spec fn find_scope_from(s: Seq<ScopeTemplate>, id: u32, i: int) -> Option<int>
    decreases s.len() - i when 0 <= i <= s.len()
{
    if i >= s.len() {
        None
    } else if s[i].id == id {
        Some(i)
    } else {
        find_scope_from(s, id, i + 1)
    }
}

/// Family of the first id range containing `skill_id` at or after `i`.
pub open spec fn find_family_from(s: Seq<FamilyRange>, skill_id: u32, i: int) -> Option<SkillFamily>
    decreases s.len() - i when 0 <= i <= s.len()
{
    if i >= s.len() {
        None
    } else if s[i].lo <= skill_id <= s[i].hi {
        Some(s[i].family)
    } else {
        find_family_from(s, skill_id, i + 1)
    }
}

/// Value of the first constant with the given key at or after `i`.
pub open spec fn find_constant_from(s: Seq<Constant>, key: ConstantKey, i: int) -> Option<u32>
    decreases s.len() - i when 0 <= i <= s.len()
{
    if i >= s.len() {
        None
    } else if s[i].key == key {
        Some(s[i].value)
    } else {
        find_constant_from(s, key, i + 1)
    }
}

impl TemplateService {
    /// The skill template a given id resolves to: first match.
    pub open spec fn spec_skill(self, id: u32) -> Option<SkillTemplate> {
        find_skill_from(self.skills@, id, 0)
    }

    /// The buff template a given id resolves to: first match.
    pub open spec fn spec_buff(self, id: u32) -> Option<BuffTemplate> {
        find_buff_from(self.buffs@, id, 0)
    }

    /// The judge template a given id resolves to: first match.
    pub open spec fn spec_judge(self, id: u32) -> Option<JudgeTemplate> {
        find_judge_from(self.judges@, id, 0)
    }

    /// The scope template a given id resolves to: first match.
    pub open spec fn spec_scope(self, id: u32) -> Option<ScopeTemplate> {
        match find_scope_from(self.scopes@, id, 0) {
            Some(i) => Some(self.scopes@[i]),
            None => None,
        }
    }

    /// The effect family of a skill id: first matching id range.
    pub open spec fn spec_family(self, skill_id: u32) -> Option<SkillFamily> {
        find_family_from(self.families@, skill_id, 0)
    }

    /// The value of a named constant, with a fallback default.
    pub open spec fn spec_constant(self, key: ConstantKey, default: u32) -> u32 {
        match find_constant_from(self.constants@, key, 0) {
            Some(v) => v,
            None => default,
        }
    }

    /// Look up a skill template by id.
    pub fn get_skill(&self, id: u32) -> (r: Option<&SkillTemplate>)
        ensures
            match r {
                Some(t) => self.spec_skill(id) == Some(*t),
                None => self.spec_skill(id) is None,
            },
    {
        let n = self.skills.len();
        let mut i: usize = 0;
        while i < n
            invariant
                n == self.skills@.len(),
                i <= n,
                find_skill_from(self.skills@, id, 0) == find_skill_from(self.skills@, id, i as int),
            decreases n - i,
        {
            if self.skills[i].id == id {
                return Some(&self.skills[i]);
            }
            i += 1;
        }
        None
    }

    /// Look up a buff template by id.
    pub fn get_buff(&self, id: u32) -> (r: Option<&BuffTemplate>)
        ensures
            match r {
                Some(t) => self.spec_buff(id) == Some(*t),
                None => self.spec_buff(id) is None,
            },
    {
        let n = self.buffs.len();
        let mut i: usize = 0;
        while i < n
            invariant
                n == self.buffs@.len(),
                i <= n,
                find_buff_from(self.buffs@, id, 0) == find_buff_from(self.buffs@, id, i as int),
            decreases n - i,
        {
            if self.buffs[i].id == id {
                return Some(&self.buffs[i]);
            }
            i += 1;
        }
        None
    }

    /// Look up a positional-scope template by id.
    pub fn get_scope(&self, id: u32) -> (r: Option<&ScopeTemplate>)
        ensures
            match r {
                Some(t) => self.spec_scope(id) == Some(*t),
                None => self.spec_scope(id) is None,
            },
    {
        let n = self.scopes.len();
        let mut i: usize = 0;
        while i < n
            invariant
                n == self.scopes@.len(),
                i <= n,
                find_scope_from(self.scopes@, id, 0) == find_scope_from(self.scopes@, id, i as int),
            decreases n - i,
        {
            if self.scopes[i].id == id {
                return Some(&self.scopes[i]);
            }
            i += 1;
        }
        None
    }

    /// Look up a judge-condition template by id.
    pub fn get_judge(&self, id: u32) -> (r: Option<&JudgeTemplate>)
        ensures
            match r {
                Some(t) => self.spec_judge(id) == Some(*t),
                None => self.spec_judge(id) is None,
            },
    {
        let n = self.judges.len();
        let mut i: usize = 0;
        while i < n
            invariant
                n == self.judges@.len(),
                i <= n,
                find_judge_from(self.judges@, id, 0) == find_judge_from(self.judges@, id, i as int),
            decreases n - i,
        {
            if self.judges[i].id == id {
                return Some(&self.judges[i]);
            }
            i += 1;
        }
        None
    }

    /// Classify a skill id into its effect family.
    pub fn classify(&self, skill_id: u32) -> (r: Option<SkillFamily>)
        ensures
            r == self.spec_family(skill_id),
    {
        let n = self.families.len();
        let mut i: usize = 0;
        while i < n
            invariant
                n == self.families@.len(),
                i <= n,
                find_family_from(self.families@, skill_id, 0)
                    == find_family_from(self.families@, skill_id, i as int),
            decreases n - i,
        {
            let fr = self.families[i];
            if fr.lo <= skill_id && skill_id <= fr.hi {
                return Some(fr.family);
            }
            i += 1;
        }
        None
    }

    /// Read a named constant, falling back to the given default.
    pub fn constant_or(&self, key: ConstantKey, default: u32) -> (r: u32)
        ensures
            r == self.spec_constant(key, default),
    {
        let n = self.constants.len();
        let mut i: usize = 0;
        while i < n
            invariant
                n == self.constants@.len(),
                i <= n,
                find_constant_from(self.constants@, key, 0)
                    == find_constant_from(self.constants@, key, i as int),
            decreases n - i,
        {
            if self.constants[i].key == key {
                return self.constants[i].value;
            }
            i += 1;
        }
        default
    }
}

} // verus!
