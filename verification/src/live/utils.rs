//! Lookups and checks on the meter's records.
use crate::live::id_map::IdMap;
use crate::live::skill_tracker::{cached_read, summon_reads_of, SkillTracker};
use crate::live::status_tracker::StatusEffectDetails;
use crate::models::data::{SkillData, SkillEffectData};
use crate::models::entity::EntityType;
use crate::models::skill::{TripodIndex, TripodLevel};
use crate::text::str_eq;
use crate::models::tables::{RaidNames, SkillEffectTable, SkillTable};
use vstd::prelude::*;
pub use crate::live::buff_flags::get_status_effect_buff_type_flags;
pub use crate::live::effect_info::get_status_effect_data;
use vstd::string::{StrSliceExecFns, StringExecFns};

verus! {

broadcast use vstd::std_specs::hash::group_hash_axioms;

/// Whether the skill effect looked up for a hit is a battle item: its item
/// type is `useup`. `skill_effect` is the skill effect data entry for the
/// hit's skill effect id, if the table has one.
pub fn is_battle_item(skill_effect: Option<&SkillEffectData>, _item_type: &str) -> (r: bool)
    ensures
        r == (skill_effect matches Some(e) && e.item_type matches Some(t) && t@ == "useup"@),
{
    match skill_effect {
        Some(e) => match &e.item_type {
            Some(t) => str_eq(t.as_str(), "useup"),
            None => false,
        },
        None => false,
    }
}

pub open spec fn spec_is_hat_buff(buff_id: u32) -> bool {
    buff_id == 362600 || buff_id == 212305 || buff_id == 319503 || buff_id == 319504 || buff_id == 485100
}

pub open spec fn spec_is_hyper_hat_buff(buff_id: u32) -> bool {
    buff_id == 362601 || buff_id == 212306 || buff_id == 319506 || buff_id == 485101
}

/// Whether a buff is one of the hat (attack power) buffs of a support.
pub fn is_hat_buff(buff_id: &u32) -> (r: bool)
    ensures
        r == spec_is_hat_buff(*buff_id),
{
    *buff_id == 362600 || *buff_id == 212305 || *buff_id == 319503 || *buff_id == 319504 || *buff_id == 485100
}

/// Whether a buff is one of the hyper awakening hat buffs of a support.
pub fn is_hyper_hat_buff(buff_id: &u32) -> (r: bool)
    ensures
        r == spec_is_hyper_hat_buff(*buff_id),
{
    *buff_id == 362601 || *buff_id == 212306 || *buff_id == 319506 || *buff_id == 485101
}

/// Whether the tripods chosen for a skill changed: one side known and the
/// other not, or both known and different.
pub fn check_tripod_index_change(before: Option<TripodIndex>, after: Option<TripodIndex>) -> (r: bool)
    ensures
        r == (before != after),
{
    match (before, after) {
        (None, None) => false,
        (Some(b), Some(a)) => !(b.first == a.first && b.second == a.second && b.third == a.third),
        _ => true,
    }
}

/// Whether the levels of a skill's tripods changed.
pub fn check_tripod_level_change(before: Option<TripodLevel>, after: Option<TripodLevel>) -> (r: bool)
    ensures
        r == (before != after),
{
    match (before, after) {
        (None, None) => false,
        (Some(b), Some(a)) => !(b.first == a.first && b.second == a.second && b.third == a.third),
        _ => true,
    }
}

/// The id a status effect is shown under: its custom id when it has one,
/// which is then recorded as standing for the status effect id.
pub fn map_status_effect(se: &StatusEffectDetails, custom_id_map: &mut IdMap) -> (r: u32)
    ensures
        r == (if se.custom_id > 0 {
            se.custom_id
        } else {
            se.status_effect_id
        }),
        final(custom_id_map).contents() == (if se.custom_id > 0 {
            old(custom_id_map).contents().insert(se.custom_id, se.status_effect_id)
        } else {
            old(custom_id_map).contents()
        }),
{
    if se.custom_id > 0 {
        custom_id_map.insert(se.custom_id, se.status_effect_id);
        se.custom_id
    } else {
        se.status_effect_id
    }
}

/// Whether `c` is an uppercase letter (Unicode `Uppercase` property).
pub uninterp spec fn is_uppercase_char(c: char) -> bool;

/// Calls `char::is_uppercase`; the contract names its result.
#[verifier::external_body]
pub(crate) fn char_is_uppercase(c: char) -> (r: bool)
    ensures
        r == is_uppercase_char(c),
{
    c.is_uppercase()
}

/// The first character of `s`, if any.
pub(crate) fn first_char(s: &str) -> (r: Option<char>)
    ensures
        r == (if s@.len() == 0 {
            None
        } else {
            Some(s@[0])
        }),
{
    broadcast use vstd::string::axiom_spec_iter, vstd::string::next_postcondition;

    let mut chars = s.chars();
    chars.next()
}

/// Whether an encounter entity is a real player worth keeping: a known
/// player with a character id and a class, gear score not negative, and a
/// name that starts with an uppercase letter and is not the placeholder `You`.
/// The gear score is a float, so the caller hands in whether it is not
/// negative.
pub fn is_valid_player(gear_score_not_negative: bool, entity_type: EntityType, character_id: u64, class_id: u32, name: &str) -> (r: bool)
    ensures
        r == (gear_score_not_negative && entity_type == EntityType::Player && character_id != 0 && class_id != 0 && name@ != "You"@
            && name@.len() > 0 && is_uppercase_char(name@[0])),
{
    if !gear_score_not_negative {
        return false;
    }
    match entity_type {
        EntityType::Player => {},
        _ => return false,
    }
    if character_id == 0 || class_id == 0 || str_eq(name, "You") {
        return false;
    }
    match first_char(name) {
        Some(c) => char_is_uppercase(c),
        None => {
            proof {
                assert(name@.len() == 0);
            }
            false
        },
    }
}

/// The id offset under which a custom buff id is made from a source skill.
pub const CUSTOM_ID_OFFSET: u32 = 1_000_000_000u32;

pub open spec fn spec_get_new_id(source_skill: u32) -> int {
    source_skill + CUSTOM_ID_OFFSET
}

pub open spec fn spec_get_skill_id(new_skill: u32, original_buff_id: u32) -> int {
    new_skill - CUSTOM_ID_OFFSET - original_buff_id
}

/// The custom id made from a source skill (plus the buff id it is made for).
pub fn get_new_id(source_skill: u32) -> (r: u32)
    requires
        spec_get_new_id(source_skill) <= u32::MAX,
    ensures
        r == spec_get_new_id(source_skill),
{
    source_skill + CUSTOM_ID_OFFSET
}

/// The source skill that a custom id made for `original_buff_id` stands for.
pub fn get_skill_id(new_skill: u32, original_buff_id: u32) -> (r: u32)
    requires
        spec_get_skill_id(new_skill, original_buff_id) >= 0,
    ensures
        r == spec_get_skill_id(new_skill, original_buff_id),
{
    new_skill - CUSTOM_ID_OFFSET - original_buff_id
}

/// A custom id made from a skill and a buff gives the skill back.
pub proof fn custom_id_round_trip(skill_id: u32, buff_id: u32)
    requires
        skill_id + buff_id + CUSTOM_ID_OFFSET <= u32::MAX,
    ensures
        spec_get_skill_id(spec_get_new_id((skill_id + buff_id) as u32) as u32, buff_id) == skill_id,
{
}

/// The boss name under which an encounter is recorded: the parts of a
/// multi-part boss stand for the boss.
pub open spec fn spec_current_boss_name(boss_name: Seq<char>) -> Seq<char> {
    if boss_name == "Chaos Lightning Dragon Jade"@ {
        "Argeos"@
    } else if boss_name == "Vicious Argeos"@ || boss_name == "Ruthless Lakadroff"@ || boss_name == "Untrue Crimson Yoho"@
        || boss_name == "Despicable Skolakia"@ {
        "Behemoth, the Storm Commander"@
    } else if boss_name == "Krathoios's Tail"@ {
        "Krathoios"@
    } else {
        boss_name
    }
}

pub fn update_current_boss_name(boss_name: &str) -> (r: String)
    ensures
        r@ == spec_current_boss_name(boss_name@),
{
    if str_eq(boss_name, "Chaos Lightning Dragon Jade") {
        "Argeos".to_string()
    } else if str_eq(boss_name, "Vicious Argeos") || str_eq(boss_name, "Ruthless Lakadroff") || str_eq(boss_name, "Untrue Crimson Yoho")
        || str_eq(boss_name, "Despicable Skolakia") {
        "Behemoth, the Storm Commander".to_string()
    } else if str_eq(boss_name, "Krathoios's Tail") {
        "Krathoios".to_string()
    } else {
        boss_name.to_string()
    }
}

/// The entry of a string-keyed table for `key`, if it has one.
pub open spec fn spec_table_lookup<V>(table: Map<Seq<char>, V>, key: Seq<char>) -> Option<V> {
    if table.contains_key(key) {
        Some(table[key])
    } else {
        None
    }
}

/// The raid an encounter with `boss` belongs to. Brelshaza's phantom legion
/// commander is the sixth gate of the old raid, or the second gate of act 2
/// when it has more than a hundred billion hit points; any other boss is
/// looked up in `raid_map`, the table of raid names by boss.
pub fn boss_to_raid_map(boss: &str, max_hp: i64, raid_map: &RaidNames) -> (r: Option<String>)
    ensures
        boss@ == "Phantom Legion Commander Brelshaza"@ ==> (r matches Some(s) && s@ == (if max_hp > 100_000_000_000 {
            "Act 2: Brelshaza G2"@
        } else {
            "Brelshaza G6"@
        })),
        boss@ != "Phantom Legion Commander Brelshaza"@ ==> match spec_table_lookup(raid_map@, boss@) {
            Some(v) => (r matches Some(s) && s@ == v@),
            None => r is None,
        },
{
    if str_eq(boss, "Phantom Legion Commander Brelshaza") {
        if max_hp > 100_000_000_000 {
            return Some("Act 2: Brelshaza G2".to_string());
        } else {
            return Some("Brelshaza G6".to_string());
        }
    }
    match raid_map.get(boss) {
        Some(name) => Some(name.clone()),
        None => None,
    }
}

} // verus!

verus! {

/// The decimal form of `v`, with a leading minus sign when negative.
pub open spec fn spec_decimal(v: int) -> Seq<char> {
    if v < 0 {
        seq!['-'] + spec_digits(-v)
    } else {
        spec_digits(v)
    }
}

/// The decimal digits of `n`.
pub open spec fn spec_digits(n: int) -> Seq<char>
    decreases n,
{
    if n < 10 {
        seq![spec_digit(n)]
    } else {
        spec_digits(n / 10).push(spec_digit(n % 10))
    }
}

pub open spec fn spec_digit(d: int) -> char {
    if d == 0 {
        '0'
    } else if d == 1 {
        '1'
    } else if d == 2 {
        '2'
    } else if d == 3 {
        '3'
    } else if d == 4 {
        '4'
    } else if d == 5 {
        '5'
    } else if d == 6 {
        '6'
    } else if d == 7 {
        '7'
    } else if d == 8 {
        '8'
    } else {
        '9'
    }
}

/// The decimal digit `d` (below ten) as a one-character text.
fn digit_str(d: u64) -> (r: &'static str)
    requires
        d < 10,
    ensures
        r@ == seq![spec_digit(d as int)],
{
    let r = match d {
        0 => "0",
        1 => "1",
        2 => "2",
        3 => "3",
        4 => "4",
        5 => "5",
        6 => "6",
        7 => "7",
        8 => "8",
        _ => "9",
    };
    proof {
        reveal_strlit("0");
        reveal_strlit("1");
        reveal_strlit("2");
        reveal_strlit("3");
        reveal_strlit("4");
        reveal_strlit("5");
        reveal_strlit("6");
        reveal_strlit("7");
        reveal_strlit("8");
        reveal_strlit("9");
        assert(r@ =~= seq![spec_digit(d as int)]);
    }
    r
}

/// The decimal digits of `n`.
fn digits_string(n: u64) -> (r: String)
    ensures
        r@ == spec_digits(n as int),
    decreases n,
{
    if n < 10 {
        String::from_str(digit_str(n))
    } else {
        let mut s = digits_string(n / 10);
        s.append(digit_str(n % 10));
        proof {
            assert(s@ =~= spec_digits((n / 10) as int).push(spec_digit((n % 10) as int)));
        }
        s
    }
}

/// The decimal form of `v`, as `i64::to_string` writes it.
pub(crate) fn decimal_string(v: i64) -> (r: String)
    ensures
        r@ == spec_decimal(v as int),
{
    if v < 0 {
        let m: i128 = -(v as i128);
        let mut s = String::from_str("-");
        let digits = digits_string(m as u64);
        s.append(digits.as_str());
        proof {
            reveal_strlit("-");
            assert(s@ =~= seq!['-'] + spec_digits(-(v as int)));
        }
        s
    } else {
        digits_string(v as u64)
    }
}

/// A skill's name and icon, the summon source skills it stands for, whether
/// it is special (cannot crit or be buffed), and whether it is a hyper
/// awakening.
pub type SkillDetails = (String, String, Option<Vec<u32>>, bool, bool);

pub open spec fn details_view(d: SkillDetails) -> (Seq<char>, Seq<char>, Option<Seq<u32>>, bool, bool) {
    (
        d.0@,
        d.1@,
        match d.2 {
            Some(v) => Some(v@),
            None => None,
        },
        d.3,
        d.4,
    )
}

pub open spec fn spec_skill_name(skill: SkillData) -> Seq<char> {
    match skill.name {
        Some(n) => n@,
        None => spec_decimal(skill.id as int),
    }
}

pub open spec fn spec_opt_text(t: Option<String>) -> Seq<char> {
    match t {
        Some(s) => s@,
        None => seq![],
    }
}

/// The details shown for a skill of the table.
pub open spec fn spec_plain_details(skill: SkillData, special: bool) -> (Seq<char>, Seq<char>, Option<Seq<u32>>, bool, bool) {
    (spec_skill_name(skill), spec_opt_text(skill.icon), None, special, skill.is_hyper_awakening)
}

/// The details shown for an id no table entry names.
pub open spec fn spec_unknown_details(id: int, special: bool) -> (Seq<char>, Seq<char>, Option<Seq<u32>>, bool, bool) {
    (spec_decimal(id), seq![], None, special, false)
}

/// The smallest of a non-empty list of ids.
pub open spec fn spec_min_id(ids: Seq<u32>) -> u32
    decreases ids.len(),
{
    if ids.len() <= 1 {
        ids[0]
    } else {
        let m = spec_min_id(ids.drop_last());
        if ids.last() < m {
            ids.last()
        } else {
            m
        }
    }
}

/// Whether a source skill is near the base skill of an effect.
pub open spec fn near_base(id: u32, base: u32) -> bool {
    let d = (id as i32) - (base as i32);
    -10000 < d < 10000
}

/// The largest of `ids` near `base`, or 0 when none is.
pub open spec fn spec_max_near(ids: Seq<u32>, base: u32) -> u32
    decreases ids.len(),
{
    if ids.len() == 0 {
        0
    } else {
        let m = spec_max_near(ids.drop_last(), base);
        if near_base(ids.last(), base) && ids.last() > m {
            ids.last()
        } else {
            m
        }
    }
}

/// The base skill of a skill effect: e.g. 37000 for 370015.
pub open spec fn spec_effect_base(skill_effect_id: u32) -> u32 {
    ((skill_effect_id - skill_effect_id % 1000) / 10) as u32
}

/// The source skill an effect's hit is shown under.
pub open spec fn spec_effect_source_skill(ss: Seq<u32>, skill_effect_id: u32) -> u32 {
    if ss.len() == 1 {
        ss[0]
    } else {
        spec_max_near(ss, spec_effect_base(skill_effect_id))
    }
}

/// The details of a hit of `skill_id` with effect `skill_effect_id`, looked
/// up in the skill table `skills` and the skill effect table `effects`;
/// `pick` is the summon source of a summoned skill that is found cast
/// recently, if any.
pub open spec fn spec_skill_details(
    skill_id: u32,
    skill_effect_id: u32,
    skills: Map<u32, SkillData>,
    effects: Map<u32, SkillEffectData>,
    pick: Option<u32>,
) -> (Seq<char>, Seq<char>, Option<Seq<u32>>, bool, bool) {
    if skill_id == 0 && skill_effect_id == 0 {
        ("Bleed"@, "buff_168.png"@, None, false, false)
    } else if skill_effect_id != 0 && skill_id == 0 {
        if effects.contains_key(skill_effect_id) {
            let effect = effects[skill_effect_id];
            let special = effect.values@[9] > 0;
            if effect.item_name is Some {
                (effect.item_name->0@, spec_opt_text(effect.icon), None, special, false)
            } else if effect.source_skills is Some && effect.source_skills->0@.len() > 0 && skills.contains_key(
                spec_effect_source_skill(effect.source_skills->0@, skill_effect_id),
            ) {
                spec_plain_details(skills[spec_effect_source_skill(effect.source_skills->0@, skill_effect_id)], special)
            } else if !(effect.source_skills is Some && effect.source_skills->0@.len() > 0) && skills.contains_key(
                (skill_effect_id / 10) as u32,
            ) {
                spec_plain_details(skills[(skill_effect_id / 10) as u32], special)
            } else if effect.comment@.len() == 0 {
                spec_unknown_details(effect.id as int, special)
            } else {
                (effect.comment@, seq![], None, special, false)
            }
        } else {
            spec_unknown_details(skill_id as int, false)
        }
    } else if skills.contains_key(skill_id) {
        let skill = skills[skill_id];
        if skill.summon_source_skills is Some && skill.summon_source_skills->0@.len() > 0 {
            let ss = skill.summon_source_skills->0@;
            match pick {
                Some(s) => (spec_skill_name(skills[s]) + " (Summon)"@, spec_opt_text(skills[s].icon), Some(ss), false, skills[s].is_hyper_awakening),
                None => if skills.contains_key(spec_min_id(ss)) {
                    let m = skills[spec_min_id(ss)];
                    (spec_skill_name(m) + " (Summon)"@, spec_opt_text(m.icon), Some(ss), false, m.is_hyper_awakening)
                } else {
                    spec_unknown_details(skill_id as int, false)
                },
            }
        } else if skill.source_skills is Some && skill.source_skills->0@.len() > 0 {
            if skills.contains_key(spec_min_id(skill.source_skills->0@)) {
                spec_plain_details(skills[spec_min_id(skill.source_skills->0@)], false)
            } else {
                spec_unknown_details(skill_id as int, false)
            }
        } else {
            spec_plain_details(skill, false)
        }
    } else if skills.contains_key((skill_id - skill_id % 10) as u32) {
        spec_plain_details(skills[(skill_id - skill_id % 10) as u32], false)
    } else {
        spec_unknown_details(skill_id as int, false)
    }
}

/// The summon sources of skill `skill_id` in the skill table, none where it
/// has none.
pub open spec fn summon_list(skills: Map<u32, SkillData>, skill_id: u32) -> Seq<u32> {
    if skills.contains_key(skill_id) && skills[skill_id].summon_source_skills is Some {
        skills[skill_id].summon_source_skills->0@
    } else {
        Seq::empty()
    }
}

/// The first of `sources` whose read in `reads` found a remembered cast and
/// that the skill table has.
pub open spec fn first_known(sources: Seq<u32>, reads: Seq<Option<i64>>, skills: Map<u32, SkillData>) -> Option<u32>
    decreases sources.len(),
{
    if sources.len() == 0 || reads.len() == 0 {
        None
    } else if reads[0] is Some && skills.contains_key(sources[0]) {
        Some(sources[0])
    } else {
        first_known(sources.drop_first(), reads.drop_first(), skills)
    }
}

/// What `first_known` finds is one of the sources, in the skill table.
pub proof fn lemma_first_known_member(sources: Seq<u32>, reads: Seq<Option<i64>>, skills: Map<u32, SkillData>)
    ensures
        first_known(sources, reads, skills) matches Some(s) ==> sources.contains(s) && skills.contains_key(s),
    decreases sources.len(),
{
    if sources.len() > 0 && reads.len() > 0 && !(reads[0] is Some && skills.contains_key(sources[0])) {
        lemma_first_known_member(sources.drop_first(), reads.drop_first(), skills);
        if first_known(sources, reads, skills) is Some {
            let x = first_known(sources, reads, skills)->0;
            let j = choose|j: int| 0 <= j < sources.drop_first().len() && sources.drop_first()[j] == x;
            assert(sources[j + 1] == x);
        }
    } else if sources.len() > 0 && reads.len() > 0 {
        assert(sources[0] == sources[0]);
    }
}

/// `spec_min_id` of a non-empty list is one of its ids and no larger than
/// any.
proof fn lemma_min_id_is_minimum(ids: Seq<u32>)
    requires
        ids.len() > 0,
    ensures
        ids.contains(spec_min_id(ids)),
        forall|i: int| 0 <= i < ids.len() ==> spec_min_id(ids) <= #[trigger] ids[i],
    decreases ids.len(),
{
    if ids.len() == 1 {
        assert(ids[0] == ids[0]);
    } else {
        let rest = ids.drop_last();
        lemma_min_id_is_minimum(rest);
        let j = choose|j: int| 0 <= j < rest.len() && rest[j] == spec_min_id(rest);
        assert(ids[j] == rest[j]);
        assert(ids[ids.len() - 1] == ids.last());
        assert forall|i: int| 0 <= i < ids.len() implies spec_min_id(ids) <= #[trigger] ids[i] by {
            if i < ids.len() - 1 {
                assert(rest[i] == ids[i]);
            }
        }
    }
}

/// The minimum of a list is unique: an id of the list no larger than any is
/// `spec_min_id`.
proof fn lemma_minimum_unique(ids: Seq<u32>, m: u32)
    requires
        ids.contains(m),
        forall|i: int| 0 <= i < ids.len() ==> m <= #[trigger] ids[i],
    ensures
        m == spec_min_id(ids),
{
    lemma_min_id_is_minimum(ids);
    let j = choose|j: int| 0 <= j < ids.len() && ids[j] == m;
    let k = choose|k: int| 0 <= k < ids.len() && ids[k] == spec_min_id(ids);
    assert(m <= ids[k]);
    assert(spec_min_id(ids) <= ids[j]);
}

/// A skill with source skills but no summon sources is shown under its
/// source skill of the smallest id (`m`: one of its source skills, no larger
/// than any), or by its own id where the table lacks that skill; a summoned
/// skill for which no remembered summon source was found is likewise shown
/// under its summon source of the smallest id.
pub proof fn skills_shown_under_smallest_source(
    skill_id: u32,
    skill_effect_id: u32,
    skills: Map<u32, SkillData>,
    effects: Map<u32, SkillEffectData>,
    pick: Option<u32>,
    m: u32,
)
    requires
        skill_id != 0,
        skills.contains_key(skill_id),
    ensures
        ({
            let sk = skills[skill_id];
            let details = spec_skill_details(skill_id, skill_effect_id, skills, effects, pick);
            &&& (!(sk.summon_source_skills is Some && sk.summon_source_skills->0@.len() > 0) && sk.source_skills is Some
                && sk.source_skills->0@.contains(m) && (forall|i: int|
                0 <= i < sk.source_skills->0@.len() ==> m <= #[trigger] sk.source_skills->0@[i])) ==> details == (if skills.contains_key(
                m,
            ) {
                (spec_skill_name(skills[m]), spec_opt_text(skills[m].icon), None::<Seq<u32>>, false, skills[m].is_hyper_awakening)
            } else {
                (spec_decimal(skill_id as int), Seq::<char>::empty(), None::<Seq<u32>>, false, false)
            })
            &&& (sk.summon_source_skills is Some && sk.summon_source_skills->0@.contains(m) && pick is None && (forall|i: int|
                0 <= i < sk.summon_source_skills->0@.len() ==> m <= #[trigger] sk.summon_source_skills->0@[i])) ==> details == (
            if skills.contains_key(m) {
                (
                    spec_skill_name(skills[m]) + " (Summon)"@,
                    spec_opt_text(skills[m].icon),
                    Some(sk.summon_source_skills->0@),
                    false,
                    skills[m].is_hyper_awakening,
                )
            } else {
                (spec_decimal(skill_id as int), Seq::<char>::empty(), None::<Seq<u32>>, false, false)
            })
        }),
{
    let sk = skills[skill_id];
    if sk.source_skills is Some && sk.source_skills->0@.contains(m) && (forall|i: int|
        0 <= i < sk.source_skills->0@.len() ==> m <= #[trigger] sk.source_skills->0@[i]) {
        lemma_minimum_unique(sk.source_skills->0@, m);
    }
    if sk.summon_source_skills is Some && sk.summon_source_skills->0@.contains(m) && (forall|i: int|
        0 <= i < sk.summon_source_skills->0@.len() ==> m <= #[trigger] sk.summon_source_skills->0@[i]) {
        lemma_minimum_unique(sk.summon_source_skills->0@, m);
    }
}

/// Whether the effect a hit of a skill effect alone reads carries the ten
/// values the hit reads.
pub open spec fn effect_values_known(effects: Map<u32, SkillEffectData>, skill_id: u32, skill_effect_id: u32) -> bool {
    skill_id == 0 && skill_effect_id != 0 && effects.contains_key(skill_effect_id) ==> effects[skill_effect_id].values@.len()
        >= 10
}

/// Whether the difference of two ids, read as `i32`, fits an `i32` other
/// than its least value.
pub open spec fn diff_fits(id: u32, base: u32) -> bool {
    -2147483647 <= (id as i32) - (base as i32) <= 2147483647
}

/// Whether the ids of an effect's source skills, where it has more than one,
/// stay within `i32` differences of the effect's base skill.
pub open spec fn effect_ids_fit(effects: Map<u32, SkillEffectData>, skill_effect_id: u32) -> bool {
    effects.contains_key(skill_effect_id) && effects[skill_effect_id].source_skills is Some
        && effects[skill_effect_id].source_skills->0@.len() > 1 ==> forall|i: int|
        0 <= i < effects[skill_effect_id].source_skills->0@.len() ==> diff_fits(
            #[trigger] effects[skill_effect_id].source_skills->0@[i],
            spec_effect_base(skill_effect_id),
        )
}

} // verus!

verus! {

fn text_or_empty(t: &Option<String>) -> (r: String)
    ensures
        r@ == spec_opt_text(*t),
{
    match t {
        Some(s) => s.clone(),
        None => String::new(),
    }
}

fn skill_name(skill: &SkillData) -> (r: String)
    ensures
        r@ == spec_skill_name(*skill),
{
    match &skill.name {
        Some(n) => n.clone(),
        None => decimal_string(skill.id as i64),
    }
}

fn plain_details(skill: &SkillData, special: bool) -> (r: SkillDetails)
    ensures
        details_view(r) == spec_plain_details(*skill, special),
{
    (skill_name(skill), text_or_empty(&skill.icon), None, special, skill.is_hyper_awakening)
}

fn unknown_details(id: i64, special: bool) -> (r: SkillDetails)
    ensures
        details_view(r) == spec_unknown_details(id as int, special),
{
    (decimal_string(id), String::new(), None, special, false)
}

fn summon_details(skill: &SkillData, sources: &Vec<u32>) -> (r: SkillDetails)
    ensures
        details_view(r) == (spec_skill_name(*skill) + " (Summon)"@, spec_opt_text(skill.icon), Some(sources@), false, skill.is_hyper_awakening),
{
    let name = skill_name(skill).concat(" (Summon)");
    let ids = copy_ids(sources);
    (name, text_or_empty(&skill.icon), Some(ids), false, skill.is_hyper_awakening)
}

fn copy_ids(v: &Vec<u32>) -> (r: Vec<u32>)
    ensures
        r@ == v@,
{
    let mut out: Vec<u32> = Vec::new();
    let mut i: usize = 0;
    while i < v.len()
        invariant
            i <= v@.len(),
            out@ == v@.subrange(0, i as int),
        decreases v@.len() - i,
    {
        out.push(v[i]);
        i = i + 1;
        proof {
            assert(out@ =~= v@.subrange(0, i as int));
        }
    }
    proof {
        assert(out@ =~= v@);
    }
    out
}

fn min_id(ids: &Vec<u32>) -> (r: u32)
    requires
        ids@.len() > 0,
    ensures
        r == spec_min_id(ids@),
{
    let mut m = ids[0];
    let mut i: usize = 1;
    proof {
        assert(ids@.subrange(0, 1).len() == 1);
    }
    while i < ids.len()
        invariant
            1 <= i <= ids@.len(),
            m == spec_min_id(ids@.subrange(0, i as int)),
        decreases ids@.len() - i,
    {
        proof {
            assert(ids@.subrange(0, i + 1).drop_last() =~= ids@.subrange(0, i as int));
        }
        if ids[i] < m {
            m = ids[i];
        }
        i = i + 1;
    }
    proof {
        assert(ids@.subrange(0, ids@.len() as int) =~= ids@);
    }
    m
}

fn max_near(ids: &Vec<u32>, base: u32) -> (r: u32)
    requires
        forall|i: int| 0 <= i < ids@.len() ==> diff_fits(#[trigger] ids@[i], base),
    ensures
        r == spec_max_near(ids@, base),
{
    let mut m: u32 = 0;
    let mut i: usize = 0;
    proof {
        assert(ids@.subrange(0, 0) =~= Seq::<u32>::empty());
    }
    while i < ids.len()
        invariant
            i <= ids@.len(),
            forall|j: int| 0 <= j < ids@.len() ==> diff_fits(#[trigger] ids@[j], base),
            m == spec_max_near(ids@.subrange(0, i as int), base),
        decreases ids@.len() - i,
    {
        proof {
            assert(ids@.subrange(0, i + 1).drop_last() =~= ids@.subrange(0, i as int));
            assert(diff_fits(ids@[i as int], base));
        }
        let d: i32 = (ids[i] as i32) - (base as i32);
        let near = -10000 < d && d < 10000;
        if near && ids[i] > m {
            m = ids[i];
        }
        i = i + 1;
    }
    proof {
        assert(ids@.subrange(0, ids@.len() as int) =~= ids@);
    }
    m
}

/// Reads the remembered cast times of `sources` by `entity_id`, in order, up
/// to the first source that is found and that the skill table has; the
/// sources after it are not read (a read keeps an entry alive) and count as
/// not found.
fn summon_source_reads(
    sources: &Vec<u32>,
    skills: &SkillTable,
    skill_tracker: &SkillTracker,
    entity_id: u64,
) -> (r: Vec<Option<i64>>)
    ensures
        summon_reads_of(skill_tracker.skill_timestamp.contents(), entity_id, sources@, r@),
{
    let mut reads: Vec<Option<i64>> = Vec::new();
    let mut done = false;
    let mut i: usize = 0;
    while i < sources.len()
        invariant
            i <= sources@.len(),
            reads@.len() == i,
            forall|j: int|
                0 <= j < i ==> cached_read(skill_tracker.skill_timestamp.contents(), (entity_id, sources@[j]), #[trigger] reads@[j]),
        decreases sources@.len() - i,
    {
        if done {
            reads.push(None);
        } else {
            let s = sources[i];
            let read = skill_tracker.skill_timestamp.get(&(entity_id, s));
            done = read.is_some() && skills.contains_key(&s);
            reads.push(read);
        }
        i = i + 1;
    }
    reads
}

/// The first of `sources` whose read found a remembered cast and that the
/// skill table has.
pub fn first_known_source(
    sources: &Vec<u32>,
    reads: &Vec<Option<i64>>,
    skills: &SkillTable,
) -> (r: Option<u32>)
    requires
        reads@.len() == sources@.len(),
    ensures
        r == first_known(sources@, reads@, skills@),
{
    let mut i: usize = 0;
    proof {
        assert(sources@.subrange(0, sources@.len() as int) =~= sources@);
        assert(reads@.subrange(0, reads@.len() as int) =~= reads@);
    }
    while i < sources.len()
        invariant
            i <= sources@.len(),
            reads@.len() == sources@.len(),
            first_known(sources@, reads@, skills@) == first_known(
                sources@.subrange(i as int, sources@.len() as int),
                reads@.subrange(i as int, reads@.len() as int),
                skills@,
            ),
        decreases sources@.len() - i,
    {
        let ghost rest_s = sources@.subrange(i as int, sources@.len() as int);
        let ghost rest_r = reads@.subrange(i as int, reads@.len() as int);
        proof {
            assert(rest_s.drop_first() =~= sources@.subrange(i + 1, sources@.len() as int));
            assert(rest_r.drop_first() =~= reads@.subrange(i + 1, reads@.len() as int));
            assert(rest_s[0] == sources@[i as int] && rest_r[0] == reads@[i as int]);
        }
        if reads[i].is_some() && skills.contains_key(&sources[i]) {
            return Some(sources[i]);
        }
        i = i + 1;
    }
    None
}

/// The name and icon a hit is shown under, with the summon sources it stands
/// for and whether it is special or a hyper awakening. `skills` is the skill
/// table and `skill_effects` the skill effect table; a summoned skill is
/// shown under a summon source that `skill_tracker` remembers `entity_id`
/// casting, whichever such source a read finds first, or else under its
/// smallest summon source.
pub fn get_skill_name_and_icon(
    skill_id: u32,
    skill_effect_id: u32,
    skill_tracker: &SkillTracker,
    entity_id: u64,
    skills: &SkillTable,
    skill_effects: &SkillEffectTable,
) -> (r: SkillDetails)
    requires
        effect_values_known(skill_effects@, skill_id, skill_effect_id),
        skill_id == 0 && skill_effect_id != 0 ==> effect_ids_fit(skill_effects@, skill_effect_id),
    ensures
        exists|reads: Seq<Option<i64>>|
            summon_reads_of(skill_tracker.skill_timestamp.contents(), entity_id, summon_list(skills@, skill_id), reads)
                && details_view(r) == spec_skill_details(
                skill_id,
                skill_effect_id,
                skills@,
                skill_effects@,
                #[trigger] first_known(summon_list(skills@, skill_id), reads, skills@),
            ),
{
    let ghost none_reads = Seq::new(summon_list(skills@, skill_id).len(), |i: int| None::<i64>);
    proof {
        assert(summon_reads_of(skill_tracker.skill_timestamp.contents(), entity_id, summon_list(skills@, skill_id), none_reads));
    }
    if skill_id == 0 && skill_effect_id == 0 {
        let r = ("Bleed".to_string(), "buff_168.png".to_string(), None, false, false);
        proof {
            assert(details_view(r) == spec_skill_details(
                skill_id,
                skill_effect_id,
                skills@,
                skill_effects@,
                first_known(summon_list(skills@, skill_id), none_reads, skills@),
            ));
        }
        return r;
    }
    if skill_effect_id != 0 && skill_id == 0 {
        match skill_effects.get(&skill_effect_id) {
            Some(effect) => {
                proof {
                    assert(effect.values@.len() >= 10);
                }
                let special = effect.values[9] > 0;
                if let Some(item_name) = &effect.item_name {
                    let r = (item_name.clone(), text_or_empty(&effect.icon), None, special, false);
                    proof {
                        assert(details_view(r) == spec_skill_details(
                            skill_id,
                            skill_effect_id,
                            skills@,
                            skill_effects@,
                            first_known(summon_list(skills@, skill_id), none_reads, skills@),
                        ));
                    }
                    return r;
                }
                let has_sources = match &effect.source_skills {
                    Some(ss) => ss.len() > 0,
                    None => false,
                };
                if has_sources {
                    let ss = match &effect.source_skills {
                        Some(ss) => ss,
                        None => {
                            return unknown_details(0, false);
                        },
                    };
                    let source_skill = if ss.len() == 1 {
                        ss[0]
                    } else {
                        let base = (skill_effect_id - skill_effect_id % 1000) / 10;
                        max_near(ss, base)
                    };
                    if let Some(skill) = skills.get(&source_skill) {
                        let r = plain_details(skill, special);
                        proof {
                            assert(details_view(r) == spec_skill_details(
                                skill_id,
                                skill_effect_id,
                                skills@,
                                skill_effects@,
                                first_known(summon_list(skills@, skill_id), none_reads, skills@),
                            ));
                        }
                        return r;
                    }
                } else if let Some(skill) = skills.get(&(skill_effect_id / 10)) {
                    let r = plain_details(skill, special);
                    proof {
                        assert(details_view(r) == spec_skill_details(
                            skill_id,
                            skill_effect_id,
                            skills@,
                            skill_effects@,
                            first_known(summon_list(skills@, skill_id), none_reads, skills@),
                        ));
                    }
                    return r;
                }
                let r = if effect.comment.as_str().unicode_len() == 0 {
                    unknown_details(effect.id as i64, special)
                } else {
                    (effect.comment.clone(), String::new(), None, special, false)
                };
                proof {
                    assert(details_view(r) == spec_skill_details(
                        skill_id,
                        skill_effect_id,
                        skills@,
                        skill_effects@,
                        first_known(summon_list(skills@, skill_id), none_reads, skills@),
                    ));
                }
                return r;
            },
            None => {
                let r = unknown_details(skill_id as i64, false);
                proof {
                    assert(details_view(r) == spec_skill_details(
                        skill_id,
                        skill_effect_id,
                        skills@,
                        skill_effects@,
                        first_known(summon_list(skills@, skill_id), none_reads, skills@),
                    ));
                }
                return r;
            },
        }
    }
    match skills.get(&skill_id) {
        Some(skill) => {
            let has_summons = match &skill.summon_source_skills {
                Some(ss) => ss.len() > 0,
                None => false,
            };
            let has_sources = match &skill.source_skills {
                Some(ss) => ss.len() > 0,
                None => false,
            };
            if has_summons {
                let ss = match &skill.summon_source_skills {
                    Some(ss) => ss,
                    None => {
                        return unknown_details(0, false);
                    },
                };
                let reads = summon_source_reads(ss, skills, skill_tracker, entity_id);
                let pick = first_known_source(ss, &reads, skills);
                proof {
                    assert(summon_list(skills@, skill_id) == ss@);
                    lemma_first_known_member(ss@, reads@, skills@);
                }
                match pick {
                    Some(s) => {
                        let src = match skills.get(&s) {
                            Some(src) => src,
                            None => {
                                return unknown_details(0, false);
                            },
                        };
                        let r = summon_details(src, ss);
                        proof {
                            assert(details_view(r) == spec_skill_details(
                                skill_id,
                                skill_effect_id,
                                skills@,
                                skill_effects@,
                                first_known(summon_list(skills@, skill_id), reads@, skills@),
                            ));
                        }
                        return r;
                    },
                    None => {
                        let m = min_id(ss);
                        let r = match skills.get(&m) {
                            Some(src) => summon_details(src, ss),
                            None => unknown_details(skill_id as i64, false),
                        };
                        proof {
                            assert(details_view(r) == spec_skill_details(
                                skill_id,
                                skill_effect_id,
                                skills@,
                                skill_effects@,
                                first_known(summon_list(skills@, skill_id), reads@, skills@),
                            ));
                        }
                        return r;
                    },
                }
            } else if has_sources {
                let ss = match &skill.source_skills {
                    Some(ss) => ss,
                    None => {
                        return unknown_details(0, false);
                    },
                };
                let m = min_id(ss);
                let r = match skills.get(&m) {
                    Some(src) => plain_details(src, false),
                    None => unknown_details(skill_id as i64, false),
                };
                proof {
                    assert(details_view(r) == spec_skill_details(
                        skill_id,
                        skill_effect_id,
                        skills@,
                        skill_effects@,
                        first_known(summon_list(skills@, skill_id), none_reads, skills@),
                    ));
                }
                return r;
            } else {
                let r = plain_details(skill, false);
                proof {
                    assert(details_view(r) == spec_skill_details(
                        skill_id,
                        skill_effect_id,
                        skills@,
                        skill_effects@,
                        first_known(summon_list(skills@, skill_id), none_reads, skills@),
                    ));
                }
                return r;
            }
        },
        None => {
            let r = match skills.get(&(skill_id - skill_id % 10)) {
                Some(skill) => plain_details(skill, false),
                None => unknown_details(skill_id as i64, false),
            };
            proof {
                assert(details_view(r) == spec_skill_details(
                    skill_id,
                    skill_effect_id,
                    skills@,
                    skill_effects@,
                    first_known(summon_list(skills@, skill_id), none_reads, skills@),
                ));
            }
            return r;
        },
    }
}

} // verus!
