//! Name lists that classify buffs.
use vstd::prelude::*;

verus! {

/// Whether `s` is one of the names `list` holds.
pub open spec fn names_contain(list: Seq<&'static str>, s: Seq<char>) -> bool {
    exists|i: int| 0 <= i < list.len() && (#[trigger] list[i])@ == s
}

/// Whether `s` is one of the names `list` holds.
pub fn name_in(list: &Vec<&'static str>, s: &str) -> (r: bool)
    ensures
        r == names_contain(list@, s@),
{
    let mut i: usize = 0;
    while i < list.len()
        invariant
            i <= list@.len(),
            forall|j: int| 0 <= j < i ==> (#[trigger] list@[j])@ != s@,
        decreases list@.len() - i,
    {
        if crate::text::str_eq(list[i], s) {
            return true;
        }
        i = i + 1;
    }
    false
}

/// The names of the `dmg_buff_types` list.
pub open spec fn spec_dmg_buff_types() -> Seq<Seq<char>> {
    seq!["weaken_defense"@, "weaken_resistance"@, "skill_damage_amplify"@, "beattacked_damage_amplify"@, "skill_damage_amplify_attack"@, "directional_attack_amplify"@, "instant_stat_amplify"@, "attack_power_amplify"@, "instant_stat_amplify_by_contents"@, "evolution_type_damage"@]
}

pub fn dmg_buff_types() -> (r: Vec<&'static str>)
    ensures
        r@.map_values(|s: &'static str| s@) == spec_dmg_buff_types(),
{
    let r: Vec<&'static str> = vec!["weaken_defense", "weaken_resistance", "skill_damage_amplify", "beattacked_damage_amplify", "skill_damage_amplify_attack", "directional_attack_amplify", "instant_stat_amplify", "attack_power_amplify", "instant_stat_amplify_by_contents", "evolution_type_damage"];
    proof {
        assert(r@.map_values(|s: &'static str| s@) =~= spec_dmg_buff_types());
    }
    r
}

/// The names of the `move_speed_buff_types` list.
pub open spec fn spec_move_speed_buff_types() -> Seq<Seq<char>> {
    seq!["move_speed_down"@, "all_speed_down"@]
}

pub fn move_speed_buff_types() -> (r: Vec<&'static str>)
    ensures
        r@.map_values(|s: &'static str| s@) == spec_move_speed_buff_types(),
{
    let r: Vec<&'static str> = vec!["move_speed_down", "all_speed_down"];
    proof {
        assert(r@.map_values(|s: &'static str| s@) =~= spec_move_speed_buff_types());
    }
    r
}

/// The names of the `stagger_buff_types` list.
pub open spec fn spec_stagger_buff_types() -> Seq<Seq<char>> {
    seq!["change_ai_point"@, "ai_point_amplify"@]
}

pub fn stagger_buff_types() -> (r: Vec<&'static str>)
    ensures
        r@.map_values(|s: &'static str| s@) == spec_stagger_buff_types(),
{
    let r: Vec<&'static str> = vec!["change_ai_point", "ai_point_amplify"];
    proof {
        assert(r@.map_values(|s: &'static str| s@) =~= spec_stagger_buff_types());
    }
    r
}

/// The names of the `stagger_stats` list.
pub open spec fn spec_stagger_stats() -> Seq<Seq<char>> {
    seq!["mastery"@, "mastery_x"@, "paralyzation_point_rate"@]
}

pub fn stagger_stats() -> (r: Vec<&'static str>)
    ensures
        r@.map_values(|s: &'static str| s@) == spec_stagger_stats(),
{
    let r: Vec<&'static str> = vec!["mastery", "mastery_x", "paralyzation_point_rate"];
    proof {
        assert(r@.map_values(|s: &'static str| s@) =~= spec_stagger_stats());
    }
    r
}

/// The names of the `cooldown_stats` list.
pub open spec fn spec_cooldown_stats() -> Seq<Seq<char>> {
    seq!["rapidity"@, "rapidity_x"@, "cooldown_reduction"@]
}

pub fn cooldown_stats() -> (r: Vec<&'static str>)
    ensures
        r@.map_values(|s: &'static str| s@) == spec_cooldown_stats(),
{
    let r: Vec<&'static str> = vec!["rapidity", "rapidity_x", "cooldown_reduction"];
    proof {
        assert(r@.map_values(|s: &'static str| s@) =~= spec_cooldown_stats());
    }
    r
}

/// The names of the `resource_stats` list.
pub open spec fn spec_resource_stats() -> Seq<Seq<char>> {
    seq!["max_mp"@, "max_mp_x"@, "max_mp_x_x"@, "normal_mp_recovery"@, "combat_mp_recovery"@, "normal_mp_recovery_rate"@, "combat_mp_recovery_rate"@, "resource_recovery_rate"@]
}

pub fn resource_stats() -> (r: Vec<&'static str>)
    ensures
        r@.map_values(|s: &'static str| s@) == spec_resource_stats(),
{
    let r: Vec<&'static str> = vec!["max_mp", "max_mp_x", "max_mp_x_x", "normal_mp_recovery", "combat_mp_recovery", "normal_mp_recovery_rate", "combat_mp_recovery_rate", "resource_recovery_rate"];
    proof {
        assert(r@.map_values(|s: &'static str| s@) =~= spec_resource_stats());
    }
    r
}

/// The names of the `hp_stats` list.
pub open spec fn spec_hp_stats() -> Seq<Seq<char>> {
    seq!["con"@, "con_x"@, "max_hp"@, "max_hp_x"@, "max_hp_x_x"@, "normal_hp_recovery"@, "combat_hp_recovery"@, "normal_hp_recovery_rate"@, "combat_hp_recovery_rate"@, "self_recovery_rate"@, "drain_hp_dam_rate"@, "vitality"@]
}

pub fn hp_stats() -> (r: Vec<&'static str>)
    ensures
        r@.map_values(|s: &'static str| s@) == spec_hp_stats(),
{
    let r: Vec<&'static str> = vec!["con", "con_x", "max_hp", "max_hp_x", "max_hp_x_x", "normal_hp_recovery", "combat_hp_recovery", "normal_hp_recovery_rate", "combat_hp_recovery_rate", "self_recovery_rate", "drain_hp_dam_rate", "vitality"];
    proof {
        assert(r@.map_values(|s: &'static str| s@) =~= spec_hp_stats());
    }
    r
}

/// The names of the `endurance_stats` list.
pub open spec fn spec_endurance_stats() -> Seq<Seq<char>> {
    seq!["endurance"@, "endurance_x"@]
}

pub fn endurance_stats() -> (r: Vec<&'static str>)
    ensures
        r@.map_values(|s: &'static str| s@) == spec_endurance_stats(),
{
    let r: Vec<&'static str> = vec!["endurance", "endurance_x"];
    proof {
        assert(r@.map_values(|s: &'static str| s@) =~= spec_endurance_stats());
    }
    r
}

/// The names of the `attack_speed_stats` list.
pub open spec fn spec_attack_speed_stats() -> Seq<Seq<char>> {
    seq!["attack_speed"@, "attack_speed_rate"@, "rapidity"@, "rapidity_x"@]
}

pub fn attack_speed_stats() -> (r: Vec<&'static str>)
    ensures
        r@.map_values(|s: &'static str| s@) == spec_attack_speed_stats(),
{
    let r: Vec<&'static str> = vec!["attack_speed", "attack_speed_rate", "rapidity", "rapidity_x"];
    proof {
        assert(r@.map_values(|s: &'static str| s@) =~= spec_attack_speed_stats());
    }
    r
}

/// The names of the `crit_stats` list.
pub open spec fn spec_crit_stats() -> Seq<Seq<char>> {
    seq!["critical_hit_rate"@, "criticalhit"@, "criticalhit_x"@]
}

pub fn crit_stats() -> (r: Vec<&'static str>)
    ensures
        r@.map_values(|s: &'static str| s@) == spec_crit_stats(),
{
    let r: Vec<&'static str> = vec!["critical_hit_rate", "criticalhit", "criticalhit_x"];
    proof {
        assert(r@.map_values(|s: &'static str| s@) =~= spec_crit_stats());
    }
    r
}

/// The names of the `damage_stats` list.
pub open spec fn spec_damage_stats() -> Seq<Seq<char>> {
    seq!["str"@, "agi"@, "int"@, "str_x"@, "agi_x"@, "int_x"@, "char_attack_dam"@, "attack_power_rate"@, "skill_damage_rate"@, "attack_power_rate_x"@, "skill_damage_rate_x"@, "hit_rate"@, "dodge_rate"@, "critical_dam_rate"@, "awakening_dam_rate"@, "attack_power_addend"@, "weapon_dam"@]
}

pub fn damage_stats() -> (r: Vec<&'static str>)
    ensures
        r@.map_values(|s: &'static str| s@) == spec_damage_stats(),
{
    let r: Vec<&'static str> = vec!["str", "agi", "int", "str_x", "agi_x", "int_x", "char_attack_dam", "attack_power_rate", "skill_damage_rate", "attack_power_rate_x", "skill_damage_rate_x", "hit_rate", "dodge_rate", "critical_dam_rate", "awakening_dam_rate", "attack_power_addend", "weapon_dam"];
    proof {
        assert(r@.map_values(|s: &'static str| s@) =~= spec_damage_stats());
    }
    r
}

/// The names of the `damage_option_types` list.
pub open spec fn spec_damage_option_types() -> Seq<Seq<char>> {
    seq!["skill_damage"@, "class_option"@, "skill_group_damage"@, "skill_critical_damage"@, "skill_penetration"@]
}

pub fn damage_option_types() -> (r: Vec<&'static str>)
    ensures
        r@.map_values(|s: &'static str| s@) == spec_damage_option_types(),
{
    let r: Vec<&'static str> = vec!["skill_damage", "class_option", "skill_group_damage", "skill_critical_damage", "skill_penetration"];
    proof {
        assert(r@.map_values(|s: &'static str| s@) =~= spec_damage_option_types());
    }
    r
}

/// The names of the `cooldown_option_types` list.
pub open spec fn spec_cooldown_option_types() -> Seq<Seq<char>> {
    seq!["skill_cooldown_reduction"@, "skill_group_cooldown_reduction"@]
}

pub fn cooldown_option_types() -> (r: Vec<&'static str>)
    ensures
        r@.map_values(|s: &'static str| s@) == spec_cooldown_option_types(),
{
    let r: Vec<&'static str> = vec!["skill_cooldown_reduction", "skill_group_cooldown_reduction"];
    proof {
        assert(r@.map_values(|s: &'static str| s@) =~= spec_cooldown_option_types());
    }
    r
}

/// The names of the `resource_option_types` list.
pub open spec fn spec_resource_option_types() -> Seq<Seq<char>> {
    seq!["skill_mana_reduction"@, "mana_reduction"@]
}

pub fn resource_option_types() -> (r: Vec<&'static str>)
    ensures
        r@.map_values(|s: &'static str| s@) == spec_resource_option_types(),
{
    let r: Vec<&'static str> = vec!["skill_mana_reduction", "mana_reduction"];
    proof {
        assert(r@.map_values(|s: &'static str| s@) =~= spec_resource_option_types());
    }
    r
}

/// The names of the `damage_action_types` list.
pub open spec fn spec_damage_action_types() -> Seq<Seq<char>> {
    seq!["modify_damage"@, "modify_final_damage"@, "modify_critical_multiplier"@, "modify_penetration"@, "modify_penetration_when_critical"@, "modify_penetration_addend"@, "modify_penetration_addend_when_critical"@, "modify_damage_shield_multiplier"@]
}

pub fn damage_action_types() -> (r: Vec<&'static str>)
    ensures
        r@.map_values(|s: &'static str| s@) == spec_damage_action_types(),
{
    let r: Vec<&'static str> = vec!["modify_damage", "modify_final_damage", "modify_critical_multiplier", "modify_penetration", "modify_penetration_when_critical", "modify_penetration_addend", "modify_penetration_addend_when_critical", "modify_damage_shield_multiplier"];
    proof {
        assert(r@.map_values(|s: &'static str| s@) =~= spec_damage_action_types());
    }
    r
}

/// Whether `s` is one of the names `list` holds.
pub open spec fn listed(list: Seq<Seq<char>>, s: Seq<char>) -> bool {
    list.contains(s)
}

/// The names that a name list holds, as a list of character sequences.
pub proof fn lemma_names_listed(list: Seq<&'static str>, s: Seq<char>)
    ensures
        names_contain(list, s) == list.map_values(|x: &'static str| x@).contains(s),
{
    let m = list.map_values(|x: &'static str| x@);
    if names_contain(list, s) {
        let i = choose|i: int| 0 <= i < list.len() && (#[trigger] list[i])@ == s;
        assert(m[i] == s);
    }
    if m.contains(s) {
        let i = choose|i: int| 0 <= i < m.len() && m[i] == s;
        assert(list[i]@ == s);
    }
}

} // verus!
