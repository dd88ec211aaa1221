//! How a buff is described to the user: its target, category, kinds and the
//! skill, set or item it comes from.
use crate::live::buff_flags::{get_status_effect_buff_type_flags, kinds_bits, spec_buff_kinds, stat_bounds_known};
use crate::models::data::{CombatEffectData, SkillBuffData, SkillData, SkillEffectData, same_skill};
use crate::models::status_effect::{StatusEffect, StatusEffectSource, StatusEffectTarget};
use crate::text::str_eq;
use crate::models::tables::{CombatEffectTable, SkillBuffTable, SkillEffectTable, SkillTable, StatIds};
use vstd::prelude::*;

verus! {

broadcast use vstd::std_specs::hash::group_hash_axioms;

/// Whom a buff with this target text is shown on.
pub open spec fn spec_effect_target(target: Seq<char>) -> StatusEffectTarget {
    if target == "none"@ {
        StatusEffectTarget::OTHER
    } else if target == "self"@ {
        StatusEffectTarget::SELF
    } else {
        StatusEffectTarget::PARTY
    }
}

/// Whom a buff is shown on, by its target text: a buff aimed at no one in
/// particular (`none`) is shown on others, one aimed at the caster (`self`)
/// on the caster, and any other on the party; no other text gives others or
/// the caster.
pub proof fn effect_target_law(target: Seq<char>)
    ensures
        spec_effect_target(target) == StatusEffectTarget::OTHER <==> target == "none"@,
        spec_effect_target(target) == StatusEffectTarget::SELF <==> target == "self"@,
        spec_effect_target(target) == StatusEffectTarget::PARTY <==> (target != "none"@ && target != "self"@),
{
    reveal_strlit("none");
    reveal_strlit("self");
    assert("none"@ != "self"@) by {
        assert("none"@[0] != "self"@[0]);
    }
}

/// The unique groups of the drops of ether.
pub open spec fn is_ether_group(unique_group: u32) -> bool {
    501 <= unique_group <= 505
}

/// The buff's own category, empty where it has none.
pub open spec fn raw_category(buff: SkillBuffData) -> Seq<char> {
    match buff.buff_category {
        Some(c) => c@,
        None => Seq::empty(),
    }
}

/// The category a buff is shown under: an ability buff of a drops of ether
/// group is shown as `dropsofether`.
pub open spec fn spec_shown_category(buff: SkillBuffData) -> Seq<char> {
    if raw_category(buff) == "ability"@ && is_ether_group(buff.unique_group) {
        "dropsofether"@
    } else {
        raw_category(buff)
    }
}

/// Whether a buff shown under `category` comes from a skill.
pub open spec fn from_skill(category: Seq<char>, unique_group: u32) -> bool {
    category == "classskill"@ || category == "arkpassive"@ || category == "identity"@ || (category == "ability"@
        && unique_group != 0) || category == "supportbuff"@
}

/// The first id of `ids` that the skill table holds, restricted to skills
/// with a name where `named` is set.
pub open spec fn first_listed(ids: Seq<u32>, skills: Map<u32, SkillData>, named: bool) -> Option<u32>
    decreases ids.len(),
{
    if ids.len() == 0 {
        None
    } else if skills.contains_key(ids[0]) && (!named || skills[ids[0]].name is Some) {
        Some(ids[0])
    } else {
        first_listed(ids.drop_first(), skills, named)
    }
}

/// The listed source skill a buff is shown under: the first one with a name,
/// or else the first one the table holds.
pub open spec fn listed_pick(ids: Seq<u32>, skills: Map<u32, SkillData>) -> Option<u32> {
    match first_listed(ids, skills, true) {
        Some(id) => Some(id),
        None => first_listed(ids, skills, false),
    }
}

/// The skill shown for a chosen skill: a summoned skill is shown as the
/// first skill it is summoned by, where that is a known skill.
pub open spec fn summon_resolved(chosen: Option<u32>, skills: Map<u32, SkillData>) -> Option<u32> {
    match chosen {
        None => None,
        Some(id) => match skills[id].summon_source_skills {
            Some(list) => {
                let first = if list@.len() > 0 { list@[0] } else { 0u32 };
                if first > 0 && skills.contains_key(first) { Some(first) } else { None }
            },
            None => Some(id),
        },
    }
}

/// The key in the skill table of the skill a buff is shown as coming from.
pub open spec fn spec_source_skill_key(
    buff_id: u32,
    source_skill: Option<u32>,
    buff: SkillBuffData,
    skills: Map<u32, SkillData>,
) -> Option<u32> {
    let category = spec_shown_category(buff);
    if !from_skill(category, buff.unique_group) {
        None
    } else {
        match buff.source_skills {
            Some(list) => {
                let chosen = match source_skill {
                    Some(id) => if skills.contains_key(id) { Some(id) } else { None },
                    None => listed_pick(list@, skills),
                };
                summon_resolved(chosen, skills)
            },
            None => if skills.contains_key(buff_id / 10) {
                Some(buff_id / 10)
            } else if skills.contains_key(((buff_id / 100) * 10) as u32) {
                Some(((buff_id / 100) * 10) as u32)
            } else if skills.contains_key(buff.unique_group / 10) {
                Some(buff.unique_group / 10)
            } else {
                None
            },
        }
    }
}

/// Whether a buff's battle item entry replaces its name, description and
/// icon.
pub open spec fn shown_as_item(buff_id: u32, buff: SkillBuffData, skill_effects: Map<u32, SkillEffectData>) -> bool {
    let category = spec_shown_category(buff);
    !from_skill(category, buff.unique_group) && !(category == "set"@ && buff.set_name is Some) && category
        == "battleitem"@ && skill_effects.contains_key(buff_id)
}

/// A text of the buff, replaced by the item's text where the buff is shown as
/// an item with one.
pub open spec fn shown_text(own: Option<String>, item: bool, item_text: Option<String>) -> Seq<char> {
    if item && item_text is Some {
        item_text->0@
    } else {
        own->0@
    }
}

/// Whether a buff can be described: the table holds it with a name, a
/// description and an icon.
pub open spec fn describable(buff_id: u32, skill_buffs: Map<u32, SkillBuffData>) -> bool {
    &&& skill_buffs.contains_key(buff_id)
    &&& skill_buffs[buff_id].name is Some
    &&& skill_buffs[buff_id].desc is Some
    &&& skill_buffs[buff_id].icon is Some
}

/// The description of the buff `buff_id`, or `None` where the buff table
/// holds no such buff, or one without a name, description or icon.
/// `source_skill` is the skill that applied it, where known; `skill_buffs`,
/// `skills` and `skill_effects` are the buff, skill and skill effect tables,
/// and `stat_types` and `combat_effects` those that classify a buff (see
/// `get_status_effect_buff_type_flags`).
pub fn get_status_effect_data(
    buff_id: u32,
    source_skill: Option<u32>,
    skill_buffs: &SkillBuffTable,
    skills: &SkillTable,
    skill_effects: &SkillEffectTable,
    stat_types: &StatIds,
    combat_effects: &CombatEffectTable,
) -> (r: Option<StatusEffect>)
    requires
        stat_bounds_known(stat_types@),
    ensures
        r is Some <==> describable(buff_id, skill_buffs@),
        r matches Some(se) ==> {
            let buff = skill_buffs@[buff_id];
            let item = shown_as_item(buff_id, buff, skill_effects@);
            let entry = skill_effects@[buff_id];
            &&& se.target == spec_effect_target(buff.target@)
            &&& se.category == buff.category
            &&& se.buff_category@ == spec_shown_category(buff)
            &&& se.buff_type == kinds_bits(spec_buff_kinds(buff, stat_types@, combat_effects@))
            &&& se.unique_group == buff.unique_group
            &&& se.source.name@ == shown_text(buff.name, item, entry.item_name)
            &&& se.source.desc@ == shown_text(buff.desc, item, entry.item_desc)
            &&& se.source.icon@ == shown_text(buff.icon, item, entry.icon)
            &&& se.source.set_name == (if spec_shown_category(buff) == "set"@ && !from_skill(
                spec_shown_category(buff),
                buff.unique_group,
            ) {
                buff.set_name
            } else {
                None
            })
            &&& match spec_source_skill_key(buff_id, source_skill, buff, skills@) {
                Some(k) => se.source.skill matches Some(s) && same_skill(s, skills@[k]),
                None => se.source.skill is None,
            }
        },
{
    let buff = match skill_buffs.get(&buff_id) {
        Some(b) => b,
        None => return None,
    };
    let category = shown_category(buff);
    let target = if str_eq(buff.target.as_str(), "none") {
        StatusEffectTarget::OTHER
    } else if str_eq(buff.target.as_str(), "self") {
        StatusEffectTarget::SELF
    } else {
        StatusEffectTarget::PARTY
    };
    let name = match &buff.name {
        Some(n) => n.clone(),
        None => return None,
    };
    let desc = match &buff.desc {
        Some(d) => d.clone(),
        None => return None,
    };
    let icon = match &buff.icon {
        Some(i) => i.clone(),
        None => return None,
    };
    let buff_type = get_status_effect_buff_type_flags(buff, stat_types, combat_effects);
    let mut source = StatusEffectSource { name, desc, icon, skill: None, set_name: None };
    if is_from_skill(category.as_str(), buff.unique_group) {
        let key = source_skill_key(buff_id, source_skill, buff, skills);
        if let Some(k) = key {
            if let Some(s) = skills.get(&k) {
                source.skill = Some(s.duplicate());
            }
        }
    } else if str_eq(category.as_str(), "set") && buff.set_name.is_some() {
        source.set_name = match &buff.set_name {
            Some(n) => Some(n.clone()),
            None => None,
        };
    } else if str_eq(category.as_str(), "battleitem") {
        if let Some(entry) = skill_effects.get(&buff_id) {
            if let Some(n) = &entry.item_name {
                source.name = n.clone();
            }
            if let Some(d) = &entry.item_desc {
                source.desc = d.clone();
            }
            if let Some(i) = &entry.icon {
                source.icon = i.clone();
            }
        }
    }
    Some(StatusEffect {
        target,
        category: buff.category.clone(),
        buff_category: category,
        buff_type,
        unique_group: buff.unique_group,
        source,
    })
}

fn shown_category(buff: &SkillBuffData) -> (r: String)
    ensures
        r@ == spec_shown_category(*buff),
{
    let raw = match &buff.buff_category {
        Some(c) => c.clone(),
        None => String::new(),
    };
    if str_eq(raw.as_str(), "ability") && 501 <= buff.unique_group && buff.unique_group <= 505 {
        "dropsofether".to_string()
    } else {
        raw
    }
}

fn is_from_skill(category: &str, unique_group: u32) -> (r: bool)
    ensures
        r == from_skill(category@, unique_group),
{
    str_eq(category, "classskill") || str_eq(category, "arkpassive") || str_eq(category, "identity") || (str_eq(
        category,
        "ability",
    ) && unique_group != 0) || str_eq(category, "supportbuff")
}

fn pick_listed(ids: &Vec<u32>, skills: &SkillTable) -> (r: Option<u32>)
    ensures
        r == listed_pick(ids@, skills@),
{
    let mut first_any: Option<u32> = None;
    let mut i: usize = 0;
    while i < ids.len()
        invariant
            i <= ids@.len(),
            first_listed(ids@.subrange(0, i as int), skills@, true) is None,
            first_any == first_listed(ids@.subrange(0, i as int), skills@, false),
        decreases ids@.len() - i,
    {
        let id = ids[i];
        proof {
            lemma_first_listed_step(ids@, i as int, skills@, true);
            lemma_first_listed_step(ids@, i as int, skills@, false);
            lemma_first_listed_split(ids@, i as int + 1, skills@, true);
        }
        match skills.get(&id) {
            Some(skill) => {
                if first_any.is_none() {
                    first_any = Some(id);
                }
                if skill.name.is_some() {
                    return Some(id);
                }
            },
            None => {},
        }
        i = i + 1;
    }
    proof {
        assert(ids@.subrange(0, ids@.len() as int) =~= ids@);
    }
    first_any
}

/// `first_listed` of a prefix extended by one id.
proof fn lemma_first_listed_step(ids: Seq<u32>, i: int, skills: Map<u32, SkillData>, named: bool)
    requires
        0 <= i < ids.len(),
    ensures
        first_listed(ids.subrange(0, i + 1), skills, named) == (match first_listed(ids.subrange(0, i), skills, named) {
            Some(x) => Some(x),
            None => if skills.contains_key(ids[i]) && (!named || skills[ids[i]].name is Some) {
                Some(ids[i])
            } else {
                None
            },
        }),
        first_listed(ids.subrange(i, ids.len() as int), skills, named) == (if skills.contains_key(ids[i]) && (!named
            || skills[ids[i]].name is Some) {
            Some(ids[i])
        } else {
            first_listed(ids.subrange(i + 1, ids.len() as int), skills, named)
        }),
    decreases i,
{
    assert(ids.subrange(i, ids.len() as int).drop_first() =~= ids.subrange(i + 1, ids.len() as int));
    if i > 0 {
        lemma_first_listed_step(ids.drop_first(), i - 1, skills, named);
        assert(ids.subrange(0, i + 1).drop_first() =~= ids.drop_first().subrange(0, i));
        assert(ids.subrange(0, i).drop_first() =~= ids.drop_first().subrange(0, i - 1));
    } else {
        assert(ids.subrange(0, 1).drop_first() =~= Seq::<u32>::empty());
    }
}

/// `first_listed` over a split at `i`: the prefix's, else the suffix's.
proof fn lemma_first_listed_split(ids: Seq<u32>, i: int, skills: Map<u32, SkillData>, named: bool)
    requires
        0 <= i <= ids.len(),
    ensures
        first_listed(ids, skills, named) == (match first_listed(ids.subrange(0, i), skills, named) {
            Some(x) => Some(x),
            None => first_listed(ids.subrange(i, ids.len() as int), skills, named),
        }),
    decreases i,
{
    if i == 0 {
        assert(ids.subrange(0, ids.len() as int) =~= ids);
    } else {
        lemma_first_listed_split(ids.drop_first(), i - 1, skills, named);
        assert(ids.subrange(0, i).drop_first() =~= ids.drop_first().subrange(0, i - 1));
        assert(ids.drop_first().subrange(i - 1, ids.len() - 1) =~= ids.subrange(i, ids.len() as int));
    }
}

fn resolve_summon(chosen: Option<u32>, skills: &SkillTable) -> (r: Option<u32>)
    requires
        chosen matches Some(id) ==> skills@.contains_key(id),
    ensures
        r == summon_resolved(chosen, skills@),
        r matches Some(k) ==> skills@.contains_key(k),
{
    match chosen {
        None => None,
        Some(id) => match skills.get(&id) {
            Some(skill) => match &skill.summon_source_skills {
                Some(list) => {
                    let first: u32 = if list.len() > 0 { list[0] } else { 0 };
                    if first > 0 && skills.contains_key(&first) {
                        Some(first)
                    } else {
                        None
                    }
                },
                None => Some(id),
            },
            None => None,
        },
    }
}

fn source_skill_key(
    buff_id: u32,
    source_skill: Option<u32>,
    buff: &SkillBuffData,
    skills: &SkillTable,
) -> (r: Option<u32>)
    requires
        from_skill(spec_shown_category(*buff), buff.unique_group),
    ensures
        r == spec_source_skill_key(buff_id, source_skill, *buff, skills@),
        r matches Some(k) ==> skills@.contains_key(k),
{
    match &buff.source_skills {
        Some(list) => {
            let chosen = match source_skill {
                Some(id) => if skills.contains_key(&id) { Some(id) } else { None },
                None => pick_listed(list, skills),
            };
            proof {
                lemma_first_listed_member(list@, skills@, true);
                lemma_first_listed_member(list@, skills@, false);
            }
            resolve_summon(chosen, skills)
        },
        None => {
            let by_id = buff_id / 10;
            let by_level = (buff_id / 100) * 10;
            let by_group = buff.unique_group / 10;
            if skills.contains_key(&by_id) {
                Some(by_id)
            } else if skills.contains_key(&by_level) {
                Some(by_level)
            } else if skills.contains_key(&by_group) {
                Some(by_group)
            } else {
                None
            }
        },
    }
}

/// What `first_listed` finds is in the table.
proof fn lemma_first_listed_member(ids: Seq<u32>, skills: Map<u32, SkillData>, named: bool)
    ensures
        first_listed(ids, skills, named) matches Some(k) ==> skills.contains_key(k),
    decreases ids.len(),
{
    if ids.len() > 0 {
        lemma_first_listed_member(ids.drop_first(), skills, named);
    }
}

} // verus!
