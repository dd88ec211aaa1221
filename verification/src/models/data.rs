//! Records of the game data tables that the meter looks entries up in.
use crate::models::tables::LevelTable;
use vstd::prelude::*;

verus! {

/// A skill.
#[derive(Debug, Clone)]
pub struct SkillData {
    pub id: i32,
    pub name: Option<String>,
    pub skill_type: String,
    pub desc: Option<String>,
    pub class_id: u32,
    pub icon: Option<String>,
    pub identity_category: Option<String>,
    pub directional_mask: i32,
    pub groups: Option<Vec<u32>>,
    pub summon_source_skills: Option<Vec<u32>>,
    pub source_skills: Option<Vec<u32>>,
    pub is_hyper_awakening: bool,
    pub levels: std::collections::HashMap<u32, SkillLevelData>,
}

/// The ids of an optional id list, as a sequence.
pub open spec fn opt_ids(ids: Option<Vec<u32>>) -> Option<Seq<u32>> {
    match ids {
        Some(v) => Some(v@),
        None => None,
    }
}

/// Two skill records that hold the same data.
pub open spec fn same_skill(a: SkillData, b: SkillData) -> bool {
    &&& a.id == b.id
    &&& a.name == b.name
    &&& a.skill_type == b.skill_type
    &&& a.desc == b.desc
    &&& a.class_id == b.class_id
    &&& a.icon == b.icon
    &&& a.identity_category == b.identity_category
    &&& a.directional_mask == b.directional_mask
    &&& opt_ids(a.groups) == opt_ids(b.groups)
    &&& opt_ids(a.summon_source_skills) == opt_ids(b.summon_source_skills)
    &&& opt_ids(a.source_skills) == opt_ids(b.source_skills)
    &&& a.is_hyper_awakening == b.is_hyper_awakening
    &&& a.levels@ == b.levels@
}

fn copy_opt_text(t: &Option<String>) -> (r: Option<String>)
    ensures
        r == *t,
{
    match t {
        Some(s) => Some(s.clone()),
        None => None,
    }
}

fn copy_opt_ids(ids: &Option<Vec<u32>>) -> (r: Option<Vec<u32>>)
    ensures
        opt_ids(r) == opt_ids(*ids),
{
    match ids {
        Some(v) => {
            let mut out: Vec<u32> = Vec::new();
            let mut i: usize = 0;
            while i < v.len()
                invariant
                    i <= v@.len(),
                    out@ == v@.subrange(0, i as int),
                decreases v@.len() - i,
            {
                out.push(v[i]);
                i = i + 1;
            }
            proof {
                assert(v@.subrange(0, v@.len() as int) =~= v@);
            }
            Some(out)
        },
        None => None,
    }
}

impl SkillData {
    /// A copy of this record.
    pub fn duplicate(&self) -> (r: SkillData)
        ensures
            same_skill(r, *self),
    {
        SkillData {
            id: self.id,
            name: copy_opt_text(&self.name),
            skill_type: self.skill_type.clone(),
            desc: copy_opt_text(&self.desc),
            class_id: self.class_id,
            icon: copy_opt_text(&self.icon),
            identity_category: copy_opt_text(&self.identity_category),
            directional_mask: self.directional_mask,
            groups: copy_opt_ids(&self.groups),
            summon_source_skills: copy_opt_ids(&self.summon_source_skills),
            source_skills: copy_opt_ids(&self.source_skills),
            is_hyper_awakening: self.is_hyper_awakening,
            levels: self.levels.clone(),
        }
    }
}

/// A skill's data at one level.
#[derive(Debug, Clone, Copy)]
pub struct SkillLevelData {
    pub mana_cost: i32,
}

/// A skill effect: what a hit of a skill, or an item, does.
#[derive(Debug, Clone)]
pub struct SkillEffectData {
    pub id: i32,
    pub comment: String,
    pub stagger: i32,
    pub source_skills: Option<Vec<u32>>,
    pub directional_mask: Option<i32>,
    pub item_name: Option<String>,
    pub item_desc: Option<String>,
    pub item_type: Option<String>,
    pub icon: Option<String>,
    pub values: Vec<i32>,
}

/// A buff or debuff.
#[derive(Debug, Clone)]
pub struct SkillBuffData {
    pub id: i32,
    pub name: Option<String>,
    pub desc: Option<String>,
    pub icon: Option<String>,
    pub icon_show_type: Option<String>,
    pub duration: i32,
    /// `buff` or `debuff`.
    pub category: String,
    pub buff_type: String,
    pub status_effect_values: Option<Vec<i32>>,
    pub buff_category: Option<String>,
    pub target: String,
    pub unique_group: u32,
    pub overlap_flag: i32,
    /// The data per level, keyed by the level written as a string.
    pub per_level_data: LevelTable,
    pub source_skills: Option<Vec<u32>>,
    pub set_name: Option<String>,
}

/// A buff's data at one level.
#[derive(Debug, Clone)]
pub struct PerLevelData {
    pub passive_options: Vec<PassiveOption>,
    pub status_effect_values: Option<Vec<i32>>,
}

/// A passive option of a buff level.
#[derive(Debug, Clone)]
pub struct PassiveOption {
    pub option_type: String,
    pub key_stat: String,
    pub key_index: i32,
    pub value: i32,
}

/// A combat effect.
#[derive(Debug, Clone)]
pub struct CombatEffectData {
    pub effects: Vec<CombatEffectDetail>,
}

#[derive(Debug, Clone)]
pub struct CombatEffectDetail {
    pub ratio: i32,
    pub cooldown: i32,
    pub conditions: Vec<CombatEffectCondition>,
    pub actions: Vec<CombatEffectAction>,
}

#[derive(Debug, Clone)]
pub struct CombatEffectCondition {
    pub condition_type: String,
    pub actor_type: String,
    pub arg: i32,
}

#[derive(Debug, Clone)]
pub struct CombatEffectAction {
    pub action_type: String,
    pub actor_type: String,
    pub args: Vec<i32>,
}

/// A non-player character.
#[derive(Debug, Clone)]
pub struct Npc {
    pub id: Option<i32>,
    pub name: Option<String>,
    pub grade: String,
    pub npc_type: Option<String>,
    pub hp_bars: u32,
}

/// An esther and the skills and NPCs that stand for it.
#[derive(Debug, Clone)]
pub struct Esther {
    pub name: String,
    pub icon: String,
    pub skills: Vec<i32>,
    pub npc_ids: Vec<u32>,
}

} // verus!
