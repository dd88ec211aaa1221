//! Status effect instances built from a notify and the buff table.
use crate::live::buff_flags::{get_status_effect_buff_type_flags, kinds_bits, lookup_level, spec_buff_kinds, stat_bounds_known};
use crate::live::status_tracker::{
    get_status_effect_value, remap_effective_unique_group, spec_remap_effective_unique_group, spec_status_effect_value,
    StatusEffectBuffCategory, StatusEffectCategory, StatusEffectDetails, StatusEffectShowType, StatusEffectTargetType,
    StatusEffectType,
};
use crate::live::utils::{get_new_id, spec_get_new_id, spec_table_lookup};
use crate::models::data::{CombatEffectData, PassiveOption, SkillBuffData};
use crate::models::skill::Skill;
use crate::text::str_eq;
use vstd::string::StrSliceExecFns;
use crate::models::tables::{CombatEffectTable, EntitySkills, StatIds};
use vstd::prelude::*;

verus! {

broadcast use vstd::std_specs::hash::group_hash_axioms;

/// The status effect part of a notify.
#[derive(Debug, Clone)]
pub struct StatusEffectData {
    pub status_effect_instance_id: u32,
    pub status_effect_id: u32,
    /// The value bytes the notify carries, if any.
    pub value: Option<Vec<u8>>,
    pub skill_level: u8,
    pub stack_count: u8,
    /// The nominal duration in whole milliseconds (the seconds times 1000,
    /// rounded toward zero) for a finite instance; `None` for a permanent one,
    /// whose duration is zero or less, not finite, or `f32::MAX`.
    pub total_time_ms: Option<i64>,
    /// The nominal duration in seconds, an `f32` held by its bit pattern.
    pub total_time_bits: u32,
    pub end_tick: u64,
    /// The server-reported occurrence time, in nanoseconds since the epoch.
    pub occur_time: i128,
}

/// The names of the buff types that take control of the target.
pub open spec fn is_hard_crowd_control(t: Seq<char>) -> bool {
    t == "freeze"@ || t == "fear"@ || t == "stun"@ || t == "sleep"@ || t == "earthquake"@ || t == "electrocution"@ || t
        == "polymorph_pc"@ || t == "forced_move"@ || t == "mind_control"@ || t == "paralyzation"@ || t == "psychokinesis"@
}

pub open spec fn spec_effect_type(buff: SkillBuffData) -> StatusEffectType {
    if buff.buff_type@ == "shield"@ {
        StatusEffectType::Shield
    } else if is_hard_crowd_control(buff.buff_type@) {
        StatusEffectType::HardCrowdControl
    } else {
        StatusEffectType::Other
    }
}

pub open spec fn spec_opt_seq(t: Option<String>) -> Seq<char> {
    match t {
        Some(s) => s@,
        None => seq![],
    }
}

pub open spec fn spec_buff_category(buff: SkillBuffData) -> StatusEffectBuffCategory {
    let c = spec_opt_seq(buff.buff_category);
    if c == "bracelet"@ {
        StatusEffectBuffCategory::Bracelet
    } else if c == "etc"@ {
        StatusEffectBuffCategory::Etc
    } else if c == "battleitem"@ {
        StatusEffectBuffCategory::BattleItem
    } else if c == "elixir"@ {
        StatusEffectBuffCategory::Elixir
    } else {
        StatusEffectBuffCategory::Other
    }
}

/// Whether a skill of the source's skill list counts as the source of a
/// buff with several source skills: it has a name, and stigma brand (21090)
/// counts only with its second tripod on the second option.
pub open spec fn counts_as_source(skill: Skill) -> bool {
    skill.name@.len() > 0 && (skill.id != 21090 || (skill.tripod_index matches Some(t) && t.second == 2))
}

/// The most recently cast of `sources` that counts, with its cast time:
/// `(0, i64::MIN)` when none does.
pub open spec fn spec_last_used(sources: Seq<u32>, skills: Map<u32, Skill>) -> (u32, i64)
    decreases sources.len(),
{
    if sources.len() == 0 {
        (0, i64::MIN)
    } else {
        let prev = spec_last_used(sources.drop_last(), skills);
        let s = sources.last();
        if skills.contains_key(s) && counts_as_source(skills[s]) && skills[s].last_timestamp > prev.1 {
            (s, skills[s].last_timestamp)
        } else {
            prev
        }
    }
}

/// The source skill and custom id of an instance of `buff`.
pub open spec fn spec_source_skill(buff: SkillBuffData, unique_group: u32, source_skills: Option<Map<u32, Skill>>) -> (Option<u32>, u32) {
    match buff.source_skills {
        Some(ss) => {
            let base: Option<u32> = if ss@.len() == 1 { Some(ss@[0]) } else { None };
            if ss@.len() > 1 && source_skills is Some {
                let last = spec_last_used(ss@, source_skills->0).0;
                if last > 0 {
                    (Some(last), spec_get_new_id((last + buff.id as u32) as u32) as u32)
                } else {
                    (base, 0)
                }
            } else {
                (base, 0)
            }
        },
        None => {
            let a = unique_group / 10;
            let b = (buff.id as u32) / 10;
            (Some(if a >= b { a } else { b }), 0)
        },
    }
}

/// Whether the first level of `buff` has a stat passive option of `stat`.
pub open spec fn level_one_provides(buff: SkillBuffData, stat: Seq<char>) -> bool {
    match spec_table_lookup(buff.per_level_data@, "1"@) {
        Some(level) => exists|i: int|
            0 <= i < level.passive_options@.len() && (#[trigger] level.passive_options@[i]).option_type@ == "stat"@
                && level.passive_options@[i].key_stat@ == stat,
        None => false,
    }
}

/// Whether the custom ids that a buff with several source skills may take fit
/// a `u32`.
pub open spec fn custom_ids_fit(buff: SkillBuffData) -> bool {
    buff.source_skills matches Some(ss) ==> forall|i: int|
        0 <= i < ss@.len() ==> (#[trigger] ss@[i]) + (buff.id as u32) + 1_000_000_000 <= u32::MAX
}

} // verus!

verus! {

fn opt_text(t: &Option<String>) -> (r: &str)
    ensures
        r@ == spec_opt_seq(*t),
{
    match t {
        Some(s) => s.as_str(),
        None => {
            proof {
                reveal_strlit("");
            }
            ""
        },
    }
}

fn hard_crowd_control(t: &str) -> (r: bool)
    ensures
        r == is_hard_crowd_control(t@),
{
    str_eq(t, "freeze") || str_eq(t, "fear") || str_eq(t, "stun") || str_eq(t, "sleep") || str_eq(t, "earthquake") || str_eq(
        t,
        "electrocution",
    ) || str_eq(t, "polymorph_pc") || str_eq(t, "forced_move") || str_eq(t, "mind_control") || str_eq(t, "paralyzation") || str_eq(
        t,
        "psychokinesis",
    )
}

fn last_used(sources: &Vec<u32>, skills: &EntitySkills) -> (r: (u32, i64))
    ensures
        r == spec_last_used(sources@, skills@),
{
    let mut last_time: i64 = i64::MIN;
    let mut last_skill: u32 = 0;
    let mut i: usize = 0;
    proof {
        assert(sources@.subrange(0, 0) =~= Seq::<u32>::empty());
    }
    while i < sources.len()
        invariant
            i <= sources@.len(),
            (last_skill, last_time) == spec_last_used(sources@.subrange(0, i as int), skills@),
        decreases sources@.len() - i,
    {
        proof {
            assert(sources@.subrange(0, i + 1).drop_last() =~= sources@.subrange(0, i as int));
        }
        let s = sources[i];
        match skills.get(&s) {
            Some(skill) => {
                let counts = skill.name.as_str().unicode_len() > 0 && (skill.id != 21090 || match skill.tripod_index {
                    Some(t) => t.second == 2,
                    None => false,
                });
                if counts && skill.last_timestamp > last_time {
                    last_skill = s;
                    last_time = skill.last_timestamp;
                }
            },
            None => {},
        }
        i = i + 1;
    }
    proof {
        assert(sources@.subrange(0, sources@.len() as int) =~= sources@);
    }
    (last_skill, last_time)
}

fn provides_stat(buff: &SkillBuffData, stat: &str) -> (r: bool)
    ensures
        r == level_one_provides(*buff, stat@),
{
    match lookup_level(&buff.per_level_data, "1") {
        None => false,
        Some(level) => {
            let opts = &level.passive_options;
            let mut j: usize = 0;
            while j < opts.len()
                invariant
                    j <= opts@.len(),
                    spec_table_lookup(buff.per_level_data@, "1"@) == Some(*level),
                    opts@ == level.passive_options@,
                    forall|a: int| 0 <= a < j ==> !((#[trigger] opts@[a]).option_type@ == "stat"@ && opts@[a].key_stat@ == stat@),
                decreases opts@.len() - j,
            {
                if str_eq(opts[j].option_type.as_str(), "stat") && str_eq(opts[j].key_stat.as_str(), stat) {
                    proof {
                        assert(level.passive_options@[j as int].option_type@ == "stat"@);
                    }
                    return true;
                }
                j = j + 1;
            }
            false
        },
    }
}

/// An instance built from a notify's status effect data, arriving at
/// `timestamp`. `buff` is the buff table's entry for the status effect, if
/// any; `source_skills` is the source entity's skill list, if the source is
/// known; `stat_types` and `combat_effects` are the tables that classify the
/// buff (see `get_status_effect_buff_type_flags`). Without a buff entry the
/// instance is named `Unknown`.
pub fn build_status_effect(
    se_data: &StatusEffectData,
    target_id: u64,
    source_id: u64,
    target_type: StatusEffectTargetType,
    timestamp: i128,
    source_skills: Option<&EntitySkills>,
    buff: Option<&SkillBuffData>,
    stat_types: &StatIds,
    combat_effects: &CombatEffectTable,
) -> (r: StatusEffectDetails)
    requires
        stat_bounds_known(stat_types@),
        buff matches Some(b) ==> custom_ids_fit(*b),
    ensures
        r.instance_id == se_data.status_effect_instance_id,
        r.status_effect_id == se_data.status_effect_id,
        r.target_id == target_id && r.source_id == source_id && r.target_type == target_type,
        r.skill_level == se_data.skill_level && r.stack_count == se_data.stack_count,
        r.value == spec_status_effect_value(match se_data.value {
            Some(v) => Some(v@),
            None => None,
        }),
        r.expiration_delay_ms == se_data.total_time_ms && r.expiration_delay_bits == se_data.total_time_bits && r.expire_at is None && r.end_tick == se_data.end_tick,
        r.occur_time == se_data.occur_time && r.timestamp == timestamp && r.first_tracked == timestamp,
        r.owner_player_stats_snapshot is None && r.source_skill_runtime_snapshot is None,
        !r.owner_is_player && !r.created_before_zone && r.measured_stat is None,
        r.end_tick_on_zone_clock && !r.packet_expired,
        match buff {
            None => {
                &&& r.name@ == "Unknown"@ && r.db_target_type@ == Seq::<char>::empty()
                &&& r.custom_id == 0 && r.unique_group == 0 && r.source_skill_id is None && r.buff_type_flags == 0
                &&& r.category == StatusEffectCategory::Other && r.buff_category == StatusEffectBuffCategory::Other
                &&& r.show_type == StatusEffectShowType::Other && r.status_effect_type == StatusEffectType::Other
                &&& !r.provides_skill_damage_sub_rate_1 && !r.provides_skill_damage_sub_rate_2
            },
            Some(b) => {
                let ug = spec_remap_effective_unique_group(se_data.status_effect_id, b.unique_group);
                let src = spec_source_skill(
                    *b,
                    ug,
                    match source_skills {
                        Some(m) => Some(m@),
                        None => None,
                    },
                );
                &&& r.name@ == spec_opt_seq(b.name) && r.db_target_type@ == b.target@
                &&& r.unique_group == ug
                &&& r.buff_type_flags == kinds_bits(spec_buff_kinds(*b, stat_types@, combat_effects@))
                &&& r.category == (if b.category@ == "debuff"@ {
                    StatusEffectCategory::Debuff
                } else {
                    StatusEffectCategory::Other
                })
                &&& r.buff_category == spec_buff_category(*b)
                &&& r.show_type == (if spec_opt_seq(b.icon_show_type) == "all"@ {
                    StatusEffectShowType::All
                } else {
                    StatusEffectShowType::Other
                })
                &&& r.status_effect_type == spec_effect_type(*b)
                &&& r.source_skill_id == src.0 && r.custom_id == src.1
                &&& r.provides_skill_damage_sub_rate_1 == level_one_provides(*b, "skill_damage_sub_rate_1"@)
                &&& r.provides_skill_damage_sub_rate_2 == level_one_provides(*b, "skill_damage_sub_rate_2"@)
            },
        },
{
    let value = get_status_effect_value(&se_data.value);
    let mut category = StatusEffectCategory::Other;
    let mut buff_category = StatusEffectBuffCategory::Other;
    let mut show_type = StatusEffectShowType::Other;
    let mut status_effect_type = StatusEffectType::Other;
    let mut name = "Unknown".to_string();
    let mut db_target_type = String::new();
    let mut custom_id: u32 = 0;
    let mut unique_group: u32 = 0;
    let mut source_skill_id: Option<u32> = None;
    let mut buff_type_flags: u32 = 0;
    let mut provides_1 = false;
    let mut provides_2 = false;
    match buff {
        Some(effect) => {
            name = opt_text(&effect.name).to_string();
            unique_group = remap_effective_unique_group(se_data.status_effect_id, effect.unique_group);
            buff_type_flags = get_status_effect_buff_type_flags(effect, stat_types, combat_effects);
            if str_eq(effect.category.as_str(), "debuff") {
                category = StatusEffectCategory::Debuff;
            }
            let bc = opt_text(&effect.buff_category);
            if str_eq(bc, "bracelet") {
                buff_category = StatusEffectBuffCategory::Bracelet;
            } else if str_eq(bc, "etc") {
                buff_category = StatusEffectBuffCategory::Etc;
            } else if str_eq(bc, "battleitem") {
                buff_category = StatusEffectBuffCategory::BattleItem;
            } else if str_eq(bc, "elixir") {
                buff_category = StatusEffectBuffCategory::Elixir;
            }
            if str_eq(opt_text(&effect.icon_show_type), "all") {
                show_type = StatusEffectShowType::All;
            }
            status_effect_type = if str_eq(effect.buff_type.as_str(), "shield") {
                StatusEffectType::Shield
            } else if hard_crowd_control(effect.buff_type.as_str()) {
                StatusEffectType::HardCrowdControl
            } else {
                StatusEffectType::Other
            };
            db_target_type = effect.target.clone();
            match &effect.source_skills {
                Some(ss) => {
                    if ss.len() == 1 {
                        source_skill_id = Some(ss[0]);
                    }
                    if ss.len() > 1 {
                        match source_skills {
                            Some(skills) => {
                                let (last_skill, _last_time) = last_used(ss, skills);
                                if last_skill > 0 {
                                    proof {
                                        assert(spec_last_used(ss@, skills@).0 == last_skill);
                                        lemma_last_used_listed(ss@, skills@);
                                    }
                                    source_skill_id = Some(last_skill);
                                    custom_id = get_new_id(last_skill + (effect.id as u32));
                                }
                            },
                            None => {},
                        }
                    }
                },
                None => {
                    let a = unique_group / 10;
                    let b = (effect.id as u32) / 10;
                    source_skill_id = Some(if a >= b { a } else { b });
                },
            }
            provides_1 = provides_stat(effect, "skill_damage_sub_rate_1");
            provides_2 = provides_stat(effect, "skill_damage_sub_rate_2");
        },
        None => {},
    }
    StatusEffectDetails {
        instance_id: se_data.status_effect_instance_id,
        status_effect_id: se_data.status_effect_id,
        custom_id,
        target_id,
        source_id,
        source_skill_id,
        target_type,
        db_target_type,
        skill_level: se_data.skill_level,
        buff_type_flags,
        value,
        stack_count: se_data.stack_count,
        category,
        buff_category,
        show_type,
        status_effect_type,
        expiration_delay_ms: se_data.total_time_ms,
        expiration_delay_bits: se_data.total_time_bits,
        expire_at: None,
        end_tick: se_data.end_tick,
        occur_time: se_data.occur_time,
        timestamp,
        name,
        unique_group,
        owner_player_stats_snapshot: None,
        source_skill_runtime_snapshot: None,
        owner_is_player: false,
        first_tracked: timestamp,
        created_before_zone: false,
        measured_stat: None,
        end_tick_on_zone_clock: true,
        packet_expired: false,
        provides_skill_damage_sub_rate_1: provides_1,
        provides_skill_damage_sub_rate_2: provides_2,
    }
}

/// The skill `spec_last_used` picks, when it picks one, is one of the sources.
proof fn lemma_last_used_listed(sources: Seq<u32>, skills: Map<u32, Skill>)
    ensures
        spec_last_used(sources, skills).0 > 0 ==> sources.contains(spec_last_used(sources, skills).0),
    decreases sources.len(),
{
    if sources.len() > 0 {
        lemma_last_used_listed(sources.drop_last(), skills);
        let prev = spec_last_used(sources.drop_last(), skills);
        if prev.0 > 0 && spec_last_used(sources, skills).0 == prev.0 {
            let i = choose|i: int| 0 <= i < sources.drop_last().len() && sources.drop_last()[i] == prev.0;
            assert(sources[i] == prev.0);
        }
        if spec_last_used(sources, skills).0 != prev.0 {
            assert(sources[sources.len() - 1] == sources.last());
        }
    }
}

} // verus!
