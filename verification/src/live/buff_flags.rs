//! The classification of a buff into the kinds of effect the meter groups
//! buffs by.
use crate::live::buff_names::{
    lemma_names_listed, listed, name_in, names_contain, dmg_buff_types, move_speed_buff_types, stagger_buff_types, stagger_stats, cooldown_stats, resource_stats, hp_stats, endurance_stats, attack_speed_stats, crit_stats, damage_stats, damage_option_types, cooldown_option_types, resource_option_types, damage_action_types, spec_dmg_buff_types, spec_move_speed_buff_types, spec_stagger_buff_types, spec_stagger_stats, spec_cooldown_stats, spec_resource_stats, spec_hp_stats, spec_endurance_stats, spec_attack_speed_stats, spec_crit_stats, spec_damage_stats, spec_damage_option_types, spec_cooldown_option_types, spec_resource_option_types, spec_damage_action_types,
};
use crate::live::utils::spec_table_lookup;
use crate::models::data::{CombatEffectAction, CombatEffectData, CombatEffectDetail, PassiveOption, PerLevelData, SkillBuffData};
use crate::text::str_eq;
use crate::models::tables::{CombatEffectTable, LevelTable, StatIds};
use vstd::prelude::*;

verus! {

broadcast use vstd::std_specs::hash::group_hash_axioms;

/// The kinds of effect a buff has.
#[derive(Debug, Clone, Copy, PartialEq, Eq, Structural)]
pub struct BuffKinds {
    pub dmg: bool,
    pub crit: bool,
    pub atkspeed: bool,
    pub movespeed: bool,
    pub hp: bool,
    pub defense: bool,
    pub resource: bool,
    pub cooldown: bool,
    pub stagger: bool,
}

pub open spec fn no_kinds() -> BuffKinds {
    BuffKinds {
        dmg: false,
        crit: false,
        atkspeed: false,
        movespeed: false,
        hp: false,
        defense: false,
        resource: false,
        cooldown: false,
        stagger: false,
    }
}

pub open spec fn union(a: BuffKinds, b: BuffKinds) -> BuffKinds {
    BuffKinds {
        dmg: a.dmg || b.dmg,
        crit: a.crit || b.crit,
        atkspeed: a.atkspeed || b.atkspeed,
        movespeed: a.movespeed || b.movespeed,
        hp: a.hp || b.hp,
        defense: a.defense || b.defense,
        resource: a.resource || b.resource,
        cooldown: a.cooldown || b.cooldown,
        stagger: a.stagger || b.stagger,
    }
}

pub open spec fn only_dmg() -> BuffKinds {
    BuffKinds { dmg: true, ..no_kinds() }
}

pub open spec fn only_crit() -> BuffKinds {
    BuffKinds { crit: true, ..no_kinds() }
}

pub open spec fn only_atkspeed() -> BuffKinds {
    BuffKinds { atkspeed: true, ..no_kinds() }
}

pub open spec fn only_movespeed() -> BuffKinds {
    BuffKinds { movespeed: true, ..no_kinds() }
}

pub open spec fn only_hp() -> BuffKinds {
    BuffKinds { hp: true, ..no_kinds() }
}

pub open spec fn only_defense() -> BuffKinds {
    BuffKinds { defense: true, ..no_kinds() }
}

pub open spec fn only_resource() -> BuffKinds {
    BuffKinds { resource: true, ..no_kinds() }
}

pub open spec fn only_cooldown() -> BuffKinds {
    BuffKinds { cooldown: true, ..no_kinds() }
}

pub open spec fn only_stagger() -> BuffKinds {
    BuffKinds { stagger: true, ..no_kinds() }
}

/// The flag bits of a set of kinds: damage 1, crit 2, attack speed 4, move
/// speed 8, hp 16, defense 32, resource 64, cooldown 128, stagger 256.
pub open spec fn kinds_bits(k: BuffKinds) -> int {
    (if k.dmg { 1int } else { 0 }) + (if k.crit { 2int } else { 0 }) + (if k.atkspeed { 4int } else { 0 }) + (if k.movespeed {
        8int
    } else {
        0
    }) + (if k.hp { 16int } else { 0 }) + (if k.defense { 32int } else { 0 }) + (if k.resource { 64int } else { 0 }) + (
    if k.cooldown {
        128int
    } else {
        0
    }) + (if k.stagger { 256int } else { 0 })
}

/// Damage for a buff that helps (a buff with a value not negative, a debuff
/// with a value not positive), defense otherwise.
pub open spec fn dmg_or_defense(buff: SkillBuffData, value: i32) -> BuffKinds {
    if (buff.category@ == "buff"@ && value >= 0) || (buff.category@ == "debuff"@ && value <= 0) {
        only_dmg()
    } else {
        only_defense()
    }
}

/// The kinds a buff's own type gives it.
pub open spec fn type_kinds(buff: SkillBuffData) -> BuffKinds {
    let t = buff.buff_type@;
    if listed(spec_dmg_buff_types(), t) {
        only_dmg()
    } else if listed(spec_move_speed_buff_types(), t) {
        only_movespeed()
    } else if t == "reset_cooldown"@ {
        only_cooldown()
    } else if listed(spec_stagger_buff_types(), t) {
        only_stagger()
    } else if t == "increase_identity_gauge"@ {
        only_resource()
    } else {
        no_kinds()
    }
}

/// The stat id of a stat name that the table is required to hold.
pub open spec fn stat_id(stats: Map<Seq<char>, u32>, name: Seq<char>) -> u32 {
    spec_table_lookup(stats, name)->0
}

/// Whether the stat table holds the names that bound the stat ranges.
pub open spec fn stat_bounds_known(stats: Map<Seq<char>, u32>) -> bool {
    &&& spec_table_lookup(stats, "def"@) is Some
    &&& spec_table_lookup(stats, "magical_inc_rate"@) is Some
    &&& spec_table_lookup(stats, "move_speed"@) is Some
    &&& spec_table_lookup(stats, "vehicle_move_speed_rate"@) is Some
    &&& spec_table_lookup(stats, "attack_power_sub_rate_1"@) is Some
    &&& spec_table_lookup(stats, "skill_damage_sub_rate_2"@) is Some
    &&& spec_table_lookup(stats, "fire_dam_rate"@) is Some
    &&& spec_table_lookup(stats, "elements_dam_rate"@) is Some
}

/// The kinds a stat passive option gives a buff.
pub open spec fn stat_option_kinds(buff: SkillBuffData, opt: PassiveOption, stats: Map<Seq<char>, u32>) -> BuffKinds {
    let key = opt.key_stat@;
    match spec_table_lookup(stats, key) {
        None => no_kinds(),
        Some(stat) => {
            let first = if listed(spec_stagger_stats(), key) {
                only_stagger()
            } else if listed(spec_cooldown_stats(), key) {
                only_cooldown()
            } else if listed(spec_resource_stats(), key) {
                only_resource()
            } else if listed(spec_hp_stats(), key) {
                only_hp()
            } else if (stat_id(stats, "def"@) <= stat && stat <= stat_id(stats, "magical_inc_rate"@)) || listed(
                spec_endurance_stats(),
                key,
            ) {
                dmg_or_defense(buff, opt.value)
            } else if stat_id(stats, "move_speed"@) <= stat && stat <= stat_id(stats, "vehicle_move_speed_rate"@) {
                only_movespeed()
            } else {
                no_kinds()
            };
            let second = if listed(spec_attack_speed_stats(), key) {
                only_atkspeed()
            } else if listed(spec_crit_stats(), key) {
                only_crit()
            } else if (stat_id(stats, "attack_power_sub_rate_1"@) <= stat && stat <= stat_id(stats, "skill_damage_sub_rate_2"@)) || (
            stat_id(stats, "fire_dam_rate"@) <= stat && stat <= stat_id(stats, "elements_dam_rate"@)) || listed(
                spec_damage_stats(),
                key,
            ) {
                dmg_or_defense(buff, opt.value)
            } else {
                no_kinds()
            };
            union(first, second)
        },
    }
}

pub open spec fn action_kinds(a: CombatEffectAction) -> BuffKinds {
    if listed(spec_damage_action_types(), a.action_type@) {
        only_dmg()
    } else if a.action_type@ == "modify_critical_ratio"@ {
        only_crit()
    } else {
        no_kinds()
    }
}

pub open spec fn actions_kinds(actions: Seq<CombatEffectAction>) -> BuffKinds
    decreases actions.len(),
{
    if actions.len() == 0 {
        no_kinds()
    } else {
        union(actions_kinds(actions.drop_last()), action_kinds(actions.last()))
    }
}

pub open spec fn effects_kinds(effects: Seq<CombatEffectDetail>) -> BuffKinds
    decreases effects.len(),
{
    if effects.len() == 0 {
        no_kinds()
    } else {
        union(effects_kinds(effects.drop_last()), actions_kinds(effects.last().actions@))
    }
}

/// The kinds one passive option gives a buff.
pub open spec fn option_kinds(
    buff: SkillBuffData,
    opt: PassiveOption,
    stats: Map<Seq<char>, u32>,
    combat_effects: Map<i32, CombatEffectData>,
) -> BuffKinds {
    let t = opt.option_type@;
    if t == "stat"@ {
        stat_option_kinds(buff, opt, stats)
    } else if t == "skill_critical_ratio"@ {
        only_crit()
    } else if listed(spec_damage_option_types(), t) {
        dmg_or_defense(buff, opt.value)
    } else if listed(spec_cooldown_option_types(), t) {
        only_cooldown()
    } else if listed(spec_resource_option_types(), t) {
        only_resource()
    } else if t == "combat_effect"@ && combat_effects.contains_key(opt.key_index) {
        effects_kinds(combat_effects[opt.key_index].effects@)
    } else {
        no_kinds()
    }
}

pub open spec fn options_kinds(
    buff: SkillBuffData,
    opts: Seq<PassiveOption>,
    stats: Map<Seq<char>, u32>,
    combat_effects: Map<i32, CombatEffectData>,
) -> BuffKinds
    decreases opts.len(),
{
    if opts.len() == 0 {
        no_kinds()
    } else {
        union(options_kinds(buff, opts.drop_last(), stats, combat_effects), option_kinds(buff, opts.last(), stats, combat_effects))
    }
}

/// The kinds of a buff: from its type, and from the passive options of its
/// first level.
pub open spec fn spec_buff_kinds(buff: SkillBuffData, stats: Map<Seq<char>, u32>, combat_effects: Map<i32, CombatEffectData>) -> BuffKinds {
    union(
        type_kinds(buff),
        match spec_table_lookup(buff.per_level_data@, "1"@) {
            Some(level) => options_kinds(buff, level.passive_options@, stats, combat_effects),
            None => no_kinds(),
        },
    )
}

fn kinds_none() -> (r: BuffKinds)
    ensures
        r == no_kinds(),
{
    BuffKinds {
        dmg: false,
        crit: false,
        atkspeed: false,
        movespeed: false,
        hp: false,
        defense: false,
        resource: false,
        cooldown: false,
        stagger: false,
    }
}

fn kinds_union(a: BuffKinds, b: BuffKinds) -> (r: BuffKinds)
    ensures
        r == union(a, b),
{
    BuffKinds {
        dmg: a.dmg || b.dmg,
        crit: a.crit || b.crit,
        atkspeed: a.atkspeed || b.atkspeed,
        movespeed: a.movespeed || b.movespeed,
        hp: a.hp || b.hp,
        defense: a.defense || b.defense,
        resource: a.resource || b.resource,
        cooldown: a.cooldown || b.cooldown,
        stagger: a.stagger || b.stagger,
    }
}

fn in_list(list: Vec<&'static str>, s: &str) -> (r: bool)
    ensures
        r == list@.map_values(|x: &'static str| x@).contains(s@),
{
    proof {
        lemma_names_listed(list@, s@);
    }
    name_in(&list, s)
}

/// The stat id of stat `key` in `table`.
pub fn lookup_stat(table: &StatIds, key: &str) -> (r: Option<u32>)
    ensures
        r == spec_table_lookup(table@, key@),
{
    match table.get(key) {
        Some(id) => Some(*id),
        None => None,
    }
}

/// The level data of `table` under `key`.
pub fn lookup_level<'a>(table: &'a LevelTable, key: &str) -> (r: Option<&'a PerLevelData>)
    ensures
        r matches Some(d) ==> spec_table_lookup(table@, key@) == Some(*d),
        r is None ==> spec_table_lookup(table@, key@) is None,
{
    table.get(key)
}

fn dmg_or_defense_exec(buff: &SkillBuffData, value: i32) -> (r: BuffKinds)
    ensures
        r == dmg_or_defense(*buff, value),
{
    let mut k = kinds_none();
    if (str_eq(buff.category.as_str(), "buff") && value >= 0) || (str_eq(buff.category.as_str(), "debuff") && value <= 0) {
        k.dmg = true;
    } else {
        k.defense = true;
    }
    k
}

fn type_kinds_exec(buff: &SkillBuffData) -> (r: BuffKinds)
    ensures
        r == type_kinds(*buff),
{
    let t = buff.buff_type.as_str();
    let mut k = kinds_none();
    if in_list(dmg_buff_types(), t) {
        k.dmg = true;
    } else if in_list(move_speed_buff_types(), t) {
        k.movespeed = true;
    } else if str_eq(t, "reset_cooldown") {
        k.cooldown = true;
    } else if in_list(stagger_buff_types(), t) {
        k.stagger = true;
    } else if str_eq(t, "increase_identity_gauge") {
        k.resource = true;
    }
    k
}

fn stat_bound(stats: &StatIds, name: &str) -> (r: u32)
    requires
        spec_table_lookup(stats@, name@) is Some,
    ensures
        r == stat_id(stats@, name@),
{
    match lookup_stat(stats, name) {
        Some(v) => v,
        None => 0,
    }
}

fn stat_option_kinds_exec(buff: &SkillBuffData, opt: &PassiveOption, stats: &StatIds) -> (r: BuffKinds)
    requires
        stat_bounds_known(stats@),
    ensures
        r == stat_option_kinds(*buff, *opt, stats@),
{
    let key = opt.key_stat.as_str();
    let stat = match lookup_stat(stats, key) {
        None => return kinds_none(),
        Some(stat) => stat,
    };
    proof {
        reveal_strlit("def");
        reveal_strlit("magical_inc_rate");
    }
    let first = if in_list(stagger_stats(), key) {
        let mut k = kinds_none();
        k.stagger = true;
        k
    } else if in_list(cooldown_stats(), key) {
        let mut k = kinds_none();
        k.cooldown = true;
        k
    } else if in_list(resource_stats(), key) {
        let mut k = kinds_none();
        k.resource = true;
        k
    } else if in_list(hp_stats(), key) {
        let mut k = kinds_none();
        k.hp = true;
        k
    } else if (stat_bound(stats, "def") <= stat && stat <= stat_bound(stats, "magical_inc_rate")) || in_list(endurance_stats(), key) {
        dmg_or_defense_exec(buff, opt.value)
    } else if stat_bound(stats, "move_speed") <= stat && stat <= stat_bound(stats, "vehicle_move_speed_rate") {
        let mut k = kinds_none();
        k.movespeed = true;
        k
    } else {
        kinds_none()
    };
    let second = if in_list(attack_speed_stats(), key) {
        let mut k = kinds_none();
        k.atkspeed = true;
        k
    } else if in_list(crit_stats(), key) {
        let mut k = kinds_none();
        k.crit = true;
        k
    } else if (stat_bound(stats, "attack_power_sub_rate_1") <= stat && stat <= stat_bound(stats, "skill_damage_sub_rate_2")) || (
    stat_bound(stats, "fire_dam_rate") <= stat && stat <= stat_bound(stats, "elements_dam_rate")) || in_list(damage_stats(), key) {
        dmg_or_defense_exec(buff, opt.value)
    } else {
        kinds_none()
    };
    kinds_union(first, second)
}

fn actions_kinds_exec(actions: &Vec<CombatEffectAction>) -> (r: BuffKinds)
    ensures
        r == actions_kinds(actions@),
{
    let mut acc = kinds_none();
    let mut i: usize = 0;
    while i < actions.len()
        invariant
            i <= actions@.len(),
            acc == actions_kinds(actions@.subrange(0, i as int)),
        decreases actions@.len() - i,
    {
        proof {
            assert(actions@.subrange(0, i + 1).drop_last() =~= actions@.subrange(0, i as int));
        }
        let t = actions[i].action_type.as_str();
        let mut k = kinds_none();
        if in_list(damage_action_types(), t) {
            k.dmg = true;
        } else if str_eq(t, "modify_critical_ratio") {
            k.crit = true;
        }
        acc = kinds_union(acc, k);
        i = i + 1;
    }
    proof {
        assert(actions@.subrange(0, actions@.len() as int) =~= actions@);
    }
    acc
}

fn effects_kinds_exec(effects: &Vec<CombatEffectDetail>) -> (r: BuffKinds)
    ensures
        r == effects_kinds(effects@),
{
    let mut acc = kinds_none();
    let mut i: usize = 0;
    while i < effects.len()
        invariant
            i <= effects@.len(),
            acc == effects_kinds(effects@.subrange(0, i as int)),
        decreases effects@.len() - i,
    {
        proof {
            assert(effects@.subrange(0, i + 1).drop_last() =~= effects@.subrange(0, i as int));
        }
        let k = actions_kinds_exec(&effects[i].actions);
        acc = kinds_union(acc, k);
        i = i + 1;
    }
    proof {
        assert(effects@.subrange(0, effects@.len() as int) =~= effects@);
    }
    acc
}

fn option_kinds_exec(
    buff: &SkillBuffData,
    opt: &PassiveOption,
    stats: &StatIds,
    combat_effects: &CombatEffectTable,
) -> (r: BuffKinds)
    requires
        stat_bounds_known(stats@),
    ensures
        r == option_kinds(*buff, *opt, stats@, combat_effects@),
{
    let t = opt.option_type.as_str();
    if str_eq(t, "stat") {
        stat_option_kinds_exec(buff, opt, stats)
    } else if str_eq(t, "skill_critical_ratio") {
        let mut k = kinds_none();
        k.crit = true;
        k
    } else if in_list(damage_option_types(), t) {
        dmg_or_defense_exec(buff, opt.value)
    } else if in_list(cooldown_option_types(), t) {
        let mut k = kinds_none();
        k.cooldown = true;
        k
    } else if in_list(resource_option_types(), t) {
        let mut k = kinds_none();
        k.resource = true;
        k
    } else if str_eq(t, "combat_effect") {
        match combat_effects.get(&opt.key_index) {
            Some(ce) => effects_kinds_exec(&ce.effects),
            None => kinds_none(),
        }
    } else {
        kinds_none()
    }
}

fn kinds_to_bits(k: BuffKinds) -> (r: u32)
    ensures
        r == kinds_bits(k),
{
    let a: u32 = if k.dmg { 1 } else { 0 };
    let b: u32 = if k.crit { 2 } else { 0 };
    let c: u32 = if k.atkspeed { 4 } else { 0 };
    let d: u32 = if k.movespeed { 8 } else { 0 };
    let e: u32 = if k.hp { 16 } else { 0 };
    let f: u32 = if k.defense { 32 } else { 0 };
    let g: u32 = if k.resource { 64 } else { 0 };
    let h: u32 = if k.cooldown { 128 } else { 0 };
    let i: u32 = if k.stagger { 256 } else { 0 };
    a + b + c + d + e + f + g + h + i
}

/// The kinds of effect a buff has, as flag bits (see `kinds_bits`): from its
/// type, and from the passive options of its first level. `stat_types` is the
/// table of stat ids by stat name and `combat_effects` the combat effect
/// table.
#[verifier::rlimit(80)]
pub fn get_status_effect_buff_type_flags(
    buff: &SkillBuffData,
    stat_types: &StatIds,
    combat_effects: &CombatEffectTable,
) -> (r: u32)
    requires
        stat_bounds_known(stat_types@),
    ensures
        r == kinds_bits(spec_buff_kinds(*buff, stat_types@, combat_effects@)),
{
    let mut acc = type_kinds_exec(buff);
    let ghost base = acc;
    match lookup_level(&buff.per_level_data, "1") {
        Some(level) => {
            let opts = &level.passive_options;
            let mut i: usize = 0;
            proof {
                assert(opts@.subrange(0, 0) =~= Seq::<PassiveOption>::empty());
                assert(union(base, no_kinds()) == base);
            }
            while i < opts.len()
                invariant
                    i <= opts@.len(),
                    stat_bounds_known(stat_types@),
                    acc == union(base, options_kinds(*buff, opts@.subrange(0, i as int), stat_types@, combat_effects@)),
                decreases opts@.len() - i,
            {
                proof {
                    assert(opts@.subrange(0, i + 1).drop_last() =~= opts@.subrange(0, i as int));
                }
                let k = option_kinds_exec(buff, &opts[i], stat_types, combat_effects);
                acc = kinds_union(acc, k);
                i = i + 1;
            }
            proof {
                assert(opts@.subrange(0, opts@.len() as int) =~= opts@);
            }
        },
        None => {},
    }
    kinds_to_bits(acc)
}

/// A passive option of type `skill_critical_ratio` gives a buff the crit
/// kind and no other: its flags are exactly the crit bit (2).
pub proof fn critical_ratio_option_is_crit(
    buff: SkillBuffData,
    opt: PassiveOption,
    stats: Map<Seq<char>, u32>,
    combat_effects: Map<i32, CombatEffectData>,
)
    requires
        opt.option_type@ == "skill_critical_ratio"@,
    ensures
        kinds_bits(option_kinds(buff, opt, stats, combat_effects)) == 2,
        option_kinds(buff, opt, stats, combat_effects).crit,
        !option_kinds(buff, opt, stats, combat_effects).dmg,
{
    reveal_strlit("stat");
    reveal_strlit("skill_critical_ratio");
    assert(opt.option_type@ != "stat"@) by {
        assert(opt.option_type@.len() != "stat"@.len());
    }
    assert(option_kinds(buff, opt, stats, combat_effects) == only_crit());
}

/// The kinds of options include those of each option.
proof fn lemma_options_include(
    buff: SkillBuffData,
    opts: Seq<PassiveOption>,
    i: int,
    stats: Map<Seq<char>, u32>,
    combat_effects: Map<i32, CombatEffectData>,
)
    requires
        0 <= i < opts.len(),
        option_kinds(buff, opts[i], stats, combat_effects).crit,
    ensures
        options_kinds(buff, opts, stats, combat_effects).crit,
    decreases opts.len(),
{
    if i < opts.len() - 1 {
        assert(opts.drop_last()[i] == opts[i]);
        lemma_options_include(buff, opts.drop_last(), i, stats, combat_effects);
    }
}

/// A buff whose first level has a `skill_critical_ratio` passive option has
/// the crit kind, whatever else it has: its flags hold the crit bit.
pub proof fn buff_with_critical_ratio_option_is_crit(
    buff: SkillBuffData,
    i: int,
    stats: Map<Seq<char>, u32>,
    combat_effects: Map<i32, CombatEffectData>,
)
    requires
        spec_table_lookup(buff.per_level_data@, "1"@) is Some,
        0 <= i < spec_table_lookup(buff.per_level_data@, "1"@)->0.passive_options@.len(),
        spec_table_lookup(buff.per_level_data@, "1"@)->0.passive_options@[i].option_type@ == "skill_critical_ratio"@,
    ensures
        spec_buff_kinds(buff, stats, combat_effects).crit,
{
    let opts = spec_table_lookup(buff.per_level_data@, "1"@)->0.passive_options@;
    critical_ratio_option_is_crit(buff, opts[i], stats, combat_effects);
    lemma_options_include(buff, opts, i, stats, combat_effects);
}

} // verus!
