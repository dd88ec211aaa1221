//! The integer lookups and checks of the damage contribution accounting.
use crate::live::player_stats::SkillRuntimeData;
use crate::live::status_tracker::StatusEffectDetails;
use crate::models::entity::{Entity, EntityType};
use crate::live::utils::{decimal_string, spec_decimal, spec_table_lookup};
use crate::models::data::{PassiveOption, PerLevelData, SkillBuffData, SkillData, SkillEffectData};
use crate::models::dps::HitFlag;
use crate::text::{eq_ignore_ascii_case, spec_eq_ignore_ascii_case, str_eq};
use crate::models::tables::{EntityTable, SkillTable};
use vstd::prelude::*;

verus! {

broadcast use vstd::std_specs::hash::group_hash_axioms;

/// The first skill ids whose buffs are a support's identity buffs.
pub const SUPPORT_IDENTITY_SOURCE_SKILLS: [u32; 3] = [21140, 21141, 21142];

/// The skill groups of a support's identity skills.
pub const SUPPORT_IDENTITY_SKILL_GROUPS: [u32; 4] = [15000, 60000, 24000, 16000];

/// Whether a hit of a skill effect can crit and be buffed: a hyper awakening
/// cannot; an effect whose tenth value has bit 1 or bit 2 set cannot; an
/// effect the table lacks, or without a tenth value, can.
pub open spec fn spec_skill_effect_flags(skill_effect: Option<SkillEffectData>, is_hyper_awakening: bool) -> (bool, bool) {
    if is_hyper_awakening {
        (false, false)
    } else {
        match skill_effect {
            None => (true, true),
            Some(e) => if e.values@.len() <= 9 {
                (true, true)
            } else {
                let flags = e.values@[9];
                let can = (flags & 2) == 0 && (flags & 4) == 0;
                (can, can)
            },
        }
    }
}

pub fn resolve_skill_effect_flags(skill_effect: Option<&SkillEffectData>, is_hyper_awakening: bool) -> (r: (bool, bool))
    ensures
        r == spec_skill_effect_flags(
            match skill_effect {
                Some(e) => Some(*e),
                None => None,
            },
            is_hyper_awakening,
        ),
{
    if is_hyper_awakening {
        return (false, false);
    }
    match skill_effect {
        None => (true, true),
        Some(e) => {
            if e.values.len() <= 9 {
                return (true, true);
            }
            let flags = e.values[9];
            let can = (flags & 2) == 0 && (flags & 4) == 0;
            (can, can)
        },
    }
}

/// The skill groups of a skill, empty when the table lacks the skill or it
/// has none. `skill` is the skill table's entry.
pub fn get_skill_groups(skill: Option<&SkillData>) -> (r: Vec<u32>)
    ensures
        r@ == (match skill {
            Some(s) => match s.groups {
                Some(g) => g@,
                None => seq![],
            },
            None => seq![],
        }),
{
    match skill {
        Some(s) => match &s.groups {
            Some(g) => g.clone(),
            None => Vec::new(),
        },
        None => Vec::new(),
    }
}

pub open spec fn spec_opt_text(t: Option<String>) -> Option<Seq<char>> {
    match t {
        Some(s) => Some(s@),
        None => None,
    }
}

/// Whether a buff reaches the whole party.
pub open spec fn spec_is_party_wide(buff: SkillBuffData) -> bool {
    spec_eq_ignore_ascii_case(buff.target@, "party"@) || spec_eq_ignore_ascii_case(buff.target@, "self_party"@) || (
    spec_eq_ignore_ascii_case(buff.target@, "none"@) && (spec_opt_text(buff.icon_show_type) matches Some(icon)
        && spec_eq_ignore_ascii_case(icon, "caster_or_party"@)))
}

pub fn is_party_wide_skill_buff(skill_buff: &SkillBuffData) -> (r: bool)
    ensures
        r == spec_is_party_wide(*skill_buff),
{
    let t = skill_buff.target.as_str();
    eq_ignore_ascii_case(t, "party") || eq_ignore_ascii_case(t, "self_party") || (eq_ignore_ascii_case(t, "none") && match &skill_buff.icon_show_type {
        Some(icon) => eq_ignore_ascii_case(icon.as_str(), "caster_or_party"),
        None => false,
    })
}

pub fn is_self_target_skill_buff(skill_buff: &SkillBuffData) -> (r: bool)
    ensures
        r == spec_eq_ignore_ascii_case(skill_buff.target@, "self"@),
{
    eq_ignore_ascii_case(skill_buff.target.as_str(), "self")
}

pub fn is_critical_hit(hit_flag: &HitFlag) -> (r: bool)
    ensures
        r == (*hit_flag == HitFlag::Critical || *hit_flag == HitFlag::DotCritical),
{
    matches!(hit_flag, HitFlag::Critical | HitFlag::DotCritical)
}

pub fn damage_attr_index(damage_attr: u8) -> (r: Option<usize>)
    ensures
        r == (if damage_attr <= 7 {
            Some(damage_attr as usize)
        } else {
            None
        }),
{
    if damage_attr <= 7 {
        Some(damage_attr as usize)
    } else {
        None
    }
}

/// The data of a buff at a level (at least 1), falling back to level 1.
pub open spec fn spec_level_data(buff: SkillBuffData, skill_level: u8) -> Option<PerLevelData> {
    let level: int = if skill_level >= 1 { skill_level as int } else { 1 };
    match spec_table_lookup(buff.per_level_data@, spec_decimal(level)) {
        Some(d) => Some(d),
        None => spec_table_lookup(buff.per_level_data@, "1"@),
    }
}

pub fn get_level_data(skill_buff: &SkillBuffData, skill_level: u8) -> (r: Option<&PerLevelData>)
    ensures
        r matches Some(d) ==> spec_level_data(*skill_buff, skill_level) == Some(*d),
        r is None ==> spec_level_data(*skill_buff, skill_level) is None,
{
    let level: u8 = if skill_level >= 1 {
        skill_level
    } else {
        1
    };
    let key = decimal_string(level as i64);
    match crate::live::buff_flags::lookup_level(&skill_buff.per_level_data, key.as_str()) {
        Some(d) => Some(d),
        None => crate::live::buff_flags::lookup_level(&skill_buff.per_level_data, "1"),
    }
}

/// Whether a skill hits in a direction of `mask`: its runtime data's mask
/// when that cached one, else its mask in the skill table, else none.
pub open spec fn spec_is_directional(skill: Option<SkillData>, runtime_data: Option<SkillRuntimeData>, mask: i32) -> bool {
    let base_mask: i32 = match skill {
        Some(s) => s.directional_mask,
        None => 0,
    };
    let runtime_mask: i32 = match runtime_data {
        Some(rd) => match rd.cached_directional_mask {
            Some(m) => m,
            None => base_mask,
        },
        None => base_mask,
    };
    (runtime_mask & mask) != 0
}

/// Whether a skill hits in a direction of `mask`; `skills` is the skill
/// table.
pub fn is_directional_skill(
    skill_id: u32,
    runtime_data: Option<&SkillRuntimeData>,
    mask: i32,
    skills: &SkillTable,
) -> (r: bool)
    ensures
        r == spec_is_directional(
            if skills@.contains_key(skill_id) {
                Some(skills@[skill_id])
            } else {
                None
            },
            match runtime_data {
                Some(rd) => Some(*rd),
                None => None,
            },
            mask,
        ),
{
    let base_mask: i32 = match skills.get(&skill_id) {
        Some(s) => s.directional_mask,
        None => 0,
    };
    let runtime_mask: i32 = match runtime_data {
        Some(rd) => match rd.cached_directional_mask {
            Some(m) => m,
            None => base_mask,
        },
        None => base_mask,
    };
    (runtime_mask & mask) != 0
}

/// Whether a skill, or its real skill when that differs, hits in a direction
/// of `mask`.
pub fn is_directional_skill_any(
    skill_id: u32,
    skill_id_real: u32,
    runtime_data: Option<&SkillRuntimeData>,
    mask: i32,
    skills: &SkillTable,
) -> (r: bool)
    ensures
        r == (spec_is_directional(
            if skills@.contains_key(skill_id) {
                Some(skills@[skill_id])
            } else {
                None
            },
            match runtime_data {
                Some(rd) => Some(*rd),
                None => None,
            },
            mask,
        ) || (skill_id_real != skill_id && spec_is_directional(
            if skills@.contains_key(skill_id_real) {
                Some(skills@[skill_id_real])
            } else {
                None
            },
            match runtime_data {
                Some(rd) => Some(*rd),
                None => None,
            },
            mask,
        ))),
{
    is_directional_skill(skill_id, runtime_data, mask, skills) || (skill_id_real != skill_id && is_directional_skill(
        skill_id_real,
        runtime_data,
        mask,
        skills,
    ))
}

fn contains_id(ids: &[u32], id: u32) -> (r: bool)
    ensures
        r == ids@.contains(id),
{
    let mut i: usize = 0;
    while i < ids.len()
        invariant
            i <= ids@.len(),
            forall|j: int| 0 <= j < i ==> ids@[j] != id,
        decreases ids@.len() - i,
    {
        if ids[i] == id {
            proof {
                assert(ids@[i as int] == id);
            }
            return true;
        }
        i = i + 1;
    }
    false
}

/// Whether a buff is a support's identity buff: its unique group is one of
/// the support identity groups or the additional identity groups, or its
/// first source skill is a support identity skill.
pub fn is_identity_skill_buff(skill_buff: &SkillBuffData, support_identity_group: &Vec<u32>, rdps_additional_identity_group: &Vec<u32>) -> (r:
    bool)
    ensures
        r == (support_identity_group@.contains(skill_buff.unique_group) || rdps_additional_identity_group@.contains(skill_buff.unique_group)
            || ((skill_buff.source_skills matches Some(ss) && ss@.len() > 0 && SUPPORT_IDENTITY_SOURCE_SKILLS@.contains(ss@[0])))),
{
    if contains_id(support_identity_group.as_slice(), skill_buff.unique_group) || contains_id(
        rdps_additional_identity_group.as_slice(),
        skill_buff.unique_group,
    ) {
        return true;
    }
    match &skill_buff.source_skills {
        Some(ss) => if ss.len() > 0 {
            let ids: [u32; 3] = SUPPORT_IDENTITY_SOURCE_SKILLS;
            contains_id(&ids, ss[0])
        } else {
            false
        },
        None => false,
    }
}

/// Whether a source skill belongs to a support identity skill group; `skill`
/// is the skill table's entry for it.
pub fn source_skill_has_identity_group(skill: Option<&SkillData>) -> (r: bool)
    ensures
        r == (skill matches Some(s) && (s.groups matches Some(g) && exists|i: int|
            0 <= i < g@.len() && SUPPORT_IDENTITY_SKILL_GROUPS@.contains(#[trigger] g@[i]))),
{
    match skill {
        Some(s) => match &s.groups {
            Some(g) => {
                let groups: [u32; 4] = SUPPORT_IDENTITY_SKILL_GROUPS;
                let mut i: usize = 0;
                while i < g.len()
                    invariant
                        i <= g@.len(),
                        skill == Some(s),
                        s.groups == Some(*g),
                        groups@ == SUPPORT_IDENTITY_SKILL_GROUPS@,
                        forall|j: int| 0 <= j < i ==> !SUPPORT_IDENTITY_SKILL_GROUPS@.contains(#[trigger] g@[j]),
                    decreases g@.len() - i,
                {
                    if contains_id(&groups, g[i]) {
                        proof {
                            assert(SUPPORT_IDENTITY_SKILL_GROUPS@.contains(g@[i as int]));
                            let gg = skill->0.groups->0;
                            assert(gg@ == g@);
                            assert(SUPPORT_IDENTITY_SKILL_GROUPS@.contains(gg@[i as int]));
                        }
                        return true;
                    }
                    i = i + 1;
                }
                false
            },
            None => false,
        },
        None => false,
    }
}

} // verus!

verus! {

/// The damage one source contributed to a hit through one buff kind.
#[derive(Debug, Clone, Copy)]
pub struct HitRdpsAttribution {
    pub rdps_type: u8,
    pub source_entity_id: u64,
    pub source_skill_id: u32,
    pub damage: i64,
    pub is_support: bool,
}

/// The damage one source contributed to a hit.
#[derive(Debug, Clone, Copy)]
pub struct HitEntityRdpsAttribution {
    pub source_entity_id: u64,
    pub damage: i64,
    pub is_support: bool,
}

/// The damage one skill group of a source contributed to a hit, for
/// debugging output.
#[derive(Debug, Clone)]
pub struct HitDebugSkillGroupAttribution {
    pub source_entity_id: u64,
    pub group_name: String,
    pub damage: i64,
    pub damage_increase: i64,
}

/// The skill an effect is credited to: its source skill where that is
/// known and not zero, else its status effect id divided by ten (at least
/// one).
pub fn source_skill_id_from_effect(effect: &StatusEffectDetails) -> (r: u32)
    ensures
        r == match effect.source_skill_id {
            Some(id) if id > 0 => id,
            _ => if effect.status_effect_id / 10 >= 1 { effect.status_effect_id / 10 } else { 1 },
        },
{
    match effect.source_skill_id {
        Some(id) if id > 0 => id,
        _ => {
            let base = effect.status_effect_id / 10;
            if base >= 1 {
                base
            } else {
                1
            }
        },
    }
}

/// The entity `entity_id` as a hit sees it: from the entities buffered with
/// the hit where there are any, else from the live entities.
pub open spec fn seen_entity(entity_id: u64, buffered: Option<Map<u64, Entity>>, live: Map<u64, Entity>) -> Option<Entity> {
    match buffered {
        Some(b) if b.contains_key(entity_id) => Some(b[entity_id]),
        _ => if live.contains_key(entity_id) {
            Some(live[entity_id])
        } else {
            None
        },
    }
}

/// The view of the optional buffered entities.
pub open spec fn buffered_view(buffered: Option<&EntityTable>) -> Option<Map<u64, Entity>> {
    match buffered {
        Some(b) => Some(b@),
        None => None,
    }
}

/// The entity `entity_id`: from `buffered_entities` (the entities buffered
/// with a hit) where it is there, else from `live_entities`.
pub fn get_buffered_or_live_entity<'a>(
    entity_id: u64,
    buffered_entities: Option<&'a EntityTable>,
    live_entities: &'a EntityTable,
) -> (r: Option<&'a Entity>)
    ensures
        match r {
            Some(e) => seen_entity(entity_id, buffered_view(buffered_entities), live_entities@) == Some(*e),
            None => seen_entity(entity_id, buffered_view(buffered_entities), live_entities@) is None,
        },
{
    if let Some(b) = buffered_entities {
        if let Some(e) = b.get(&entity_id) {
            return Some(e);
        }
    }
    live_entities.get(&entity_id)
}

/// Whether the entity `entity_id`, as a hit sees it, is a player.
pub fn is_player_source_entity_id(
    entity_id: u64,
    buffered_entities: Option<&EntityTable>,
    live_entities: &EntityTable,
) -> (r: bool)
    ensures
        r == (seen_entity(entity_id, buffered_view(buffered_entities), live_entities@) matches Some(e) && e.entity_type
            == EntityType::Player),
{
    match get_buffered_or_live_entity(entity_id, buffered_entities, live_entities) {
        Some(e) => e.entity_type == EntityType::Player,
        None => false,
    }
}

/// Whether the source `source_entity_id` of an effect is the attacking player:
/// the same entity, or an entity of the same (known) character.
pub fn is_same_player(
    attacker: &Entity,
    source_entity_id: u64,
    buffered_entities: Option<&EntityTable>,
    live_entities: &EntityTable,
) -> (r: bool)
    ensures
        r == (attacker.id == source_entity_id || (seen_entity(source_entity_id, buffered_view(buffered_entities), live_entities@) matches Some(
            e,
        ) && attacker.character_id != 0 && e.character_id != 0 && attacker.character_id == e.character_id)),
{
    if attacker.id == source_entity_id {
        return true;
    }
    match get_buffered_or_live_entity(source_entity_id, buffered_entities, live_entities) {
        Some(e) => attacker.character_id != 0 && e.character_id != 0 && attacker.character_id == e.character_id,
        None => false,
    }
}

/// The stack multiplier of an effect: its stack count, at least one.
pub open spec fn stack_factor(stack_count: u8) -> int {
    if stack_count >= 1 {
        stack_count as int
    } else {
        1
    }
}

/// Whether a passive option's value scales with the stacks: a stat or an
/// attack power multiplier.
pub open spec fn scales_with_stacks(option: PassiveOption) -> bool {
    option.option_type@ == "stat"@ || option.option_type@ == "attack_power_amplify_multiplier"@
}

/// Whether the stacked values of the level data fit an `i32`.
pub open spec fn stacked_values_fit(data: PerLevelData, stack_count: u8) -> bool {
    &&& (data.status_effect_values matches Some(v) ==> forall|i: int|
        0 <= i < v@.len() ==> i32::MIN <= #[trigger] v@[i] * stack_factor(stack_count) <= i32::MAX)
    &&& forall|i: int|
        0 <= i < data.passive_options@.len() && scales_with_stacks(data.passive_options@[i]) ==> i32::MIN
            <= #[trigger] data.passive_options@[i].value * stack_factor(stack_count) <= i32::MAX
}

/// Whether `r` is `data` with its values multiplied by the stacks.
pub open spec fn stacked_level_data(r: PerLevelData, data: PerLevelData, stack_count: u8) -> bool {
    &&& match data.status_effect_values {
        Some(v) => r.status_effect_values matches Some(w) && w@.len() == v@.len() && forall|i: int|
            0 <= i < v@.len() ==> #[trigger] w@[i] == v@[i] * stack_factor(stack_count),
        None => r.status_effect_values is None,
    }
    &&& r.passive_options@.len() == data.passive_options@.len()
    &&& forall|i: int|
        0 <= i < data.passive_options@.len() ==> {
            let o = data.passive_options@[i];
            let p = #[trigger] r.passive_options@[i];
            &&& p.option_type == o.option_type
            &&& p.key_stat == o.key_stat
            &&& p.key_index == o.key_index
            &&& p.value == (if scales_with_stacks(o) {
                o.value * stack_factor(stack_count)
            } else {
                o.value as int
            })
        }
}

/// The data of a buff at a level (see `get_level_data`), with its values
/// multiplied by the effect's stacks (at least one): each status effect value,
/// and the value of each stat or attack power multiplier passive option. A
/// skill's runtime changes to its buffs, which rescale values by fractional
/// factors, are not applied here.
pub fn get_level_data_resolved(skill_buff: &SkillBuffData, skill_level: u8, stack_count: u8) -> (r: Option<PerLevelData>)
    requires
        spec_level_data(*skill_buff, skill_level) matches Some(d) ==> stacked_values_fit(d, stack_count),
    ensures
        r is Some == spec_level_data(*skill_buff, skill_level) is Some,
        r matches Some(d) ==> stacked_level_data(d, spec_level_data(*skill_buff, skill_level)->0, stack_count),
{
    let data = match get_level_data(skill_buff, skill_level) {
        Some(d) => d,
        None => return None,
    };
    let stacks: i32 = if stack_count >= 1 {
        stack_count as i32
    } else {
        1
    };
    let values = match &data.status_effect_values {
        Some(v) => {
            let mut w: Vec<i32> = Vec::new();
            let mut i: usize = 0;
            while i < v.len()
                invariant
                    i <= v@.len(),
                    w@.len() == i,
                    stacks == stack_factor(stack_count),
                    forall|j: int| 0 <= j < v@.len() ==> i32::MIN <= #[trigger] v@[j] * stack_factor(stack_count) <= i32::MAX,
                    forall|j: int| 0 <= j < i ==> #[trigger] w@[j] == v@[j] * stack_factor(stack_count),
                decreases v@.len() - i,
            {
                let x = v[i] * stacks;
                w.push(x);
                i = i + 1;
            }
            Some(w)
        },
        None => None,
    };
    let mut options: Vec<PassiveOption> = Vec::new();
    let mut k: usize = 0;
    let opts = &data.passive_options;
    while k < opts.len()
        invariant
            k <= opts@.len(),
            options@.len() == k,
            stacks == stack_factor(stack_count),
            forall|j: int|
                0 <= j < opts@.len() && scales_with_stacks(opts@[j]) ==> i32::MIN <= #[trigger] opts@[j].value * stack_factor(
                    stack_count,
                ) <= i32::MAX,
            forall|j: int|
                0 <= j < k ==> {
                    let o = opts@[j];
                    let p = #[trigger] options@[j];
                    &&& p.option_type == o.option_type
                    &&& p.key_stat == o.key_stat
                    &&& p.key_index == o.key_index
                    &&& p.value == (if scales_with_stacks(o) {
                        o.value * stack_factor(stack_count)
                    } else {
                        o.value as int
                    })
                },
        decreases opts@.len() - k,
    {
        let o = &opts[k];
        let scaled = str_eq(o.option_type.as_str(), "stat") || str_eq(o.option_type.as_str(), "attack_power_amplify_multiplier");
        proof {
            reveal_strlit("stat");
            reveal_strlit("attack_power_amplify_multiplier");
            assert(scaled == scales_with_stacks(opts@[k as int]));
        }
        let value = if scaled {
            o.value * stacks
        } else {
            o.value
        };
        options.push(PassiveOption { option_type: o.option_type.clone(), key_stat: o.key_stat.clone(), key_index: o.key_index, value });
        k = k + 1;
    }
    Some(PerLevelData { passive_options: options, status_effect_values: values })
}

} // verus!
