use loa_logs::live::skill_tracker::SkillTracker;
use loa_logs::live::utils::{
    boss_to_raid_map, check_tripod_index_change, get_new_id, get_skill_id, get_skill_name_and_icon,
    get_status_effect_data, is_battle_item, is_hat_buff, is_hyper_hat_buff, is_valid_player, update_current_boss_name,
};
use loa_logs::models::data::{PassiveOption, PerLevelData, SkillBuffData, SkillData, SkillEffectData};
use loa_logs::models::entity::EntityType;
use loa_logs::models::skill::TripodIndex;
use loa_logs::models::status_effect::StatusEffectTarget;
use loa_logs::models::tables::{CombatEffectTable, LevelTable, RaidNames, SkillBuffTable, SkillEffectTable, SkillTable, StatIds};

fn skill(id: i32, name: Option<&str>, icon: Option<&str>) -> SkillData {
    SkillData {
        id,
        name: name.map(|n| n.to_string()),
        skill_type: String::new(),
        desc: None,
        class_id: 0,
        icon: icon.map(|i| i.to_string()),
        identity_category: None,
        directional_mask: 0,
        groups: None,
        summon_source_skills: None,
        source_skills: None,
        is_hyper_awakening: false,
        levels: std::collections::HashMap::new(),
    }
}

fn effect(id: i32, comment: &str, item_name: Option<&str>, special: bool) -> SkillEffectData {
    let mut values = vec![0; 10];
    if special {
        values[9] = 1;
    }
    SkillEffectData {
        id,
        comment: comment.to_string(),
        stagger: 0,
        source_skills: None,
        directional_mask: None,
        item_name: item_name.map(|n| n.to_string()),
        item_desc: None,
        item_type: None,
        icon: None,
        values,
    }
}

fn buff(id: i32, category: Option<&str>, target: &str, unique_group: u32) -> SkillBuffData {
    SkillBuffData {
        id,
        name: Some("Buff".to_string()),
        desc: Some("Desc".to_string()),
        icon: Some("buff.png".to_string()),
        icon_show_type: None,
        duration: 0,
        category: "buff".to_string(),
        buff_type: "skill_damage_amplify".to_string(),
        status_effect_values: None,
        buff_category: category.map(|c| c.to_string()),
        target: target.to_string(),
        unique_group,
        overlap_flag: 0,
        per_level_data: {
            let mut levels = LevelTable::new();
            levels.insert(
                "1".to_string(),
                PerLevelData { passive_options: Vec::<PassiveOption>::new(), status_effect_values: None },
            );
            levels
        },
        source_skills: None,
        set_name: None,
    }
}

fn stat_types() -> StatIds {
    let mut table = StatIds::new();
    [
        ("def", 1),
        ("magical_inc_rate", 2),
        ("move_speed", 3),
        ("vehicle_move_speed_rate", 4),
        ("attack_power_sub_rate_1", 5),
        ("skill_damage_sub_rate_2", 6),
        ("critical_hit_rate", 7),
        ("critical_dam_rate", 8),
        ("attack_speed", 9),
        ("cooldown_reduction", 10),
        ("mp", 11),
        ("hp", 12),
        ("endurance", 13),
        ("fire_dam_rate", 14),
        ("elements_dam_rate", 15),
    ]
    .iter()
    .for_each(|(n, v)| table.insert(n.to_string(), *v));
    table
}

#[test]
fn brelshaza_raid_name_depends_on_max_hp() {
    let mut table = RaidNames::new();
    table.insert("Akkan, Lord of Death".to_string(), "Act 3: Akkan".to_string());
    let boss = "Phantom Legion Commander Brelshaza";
    assert_eq!(boss_to_raid_map(boss, 100_000_000_001, &table), Some("Act 2: Brelshaza G2".to_string()));
    assert_eq!(boss_to_raid_map(boss, 100_000_000_000, &table), Some("Brelshaza G6".to_string()));
    assert_eq!(boss_to_raid_map("Akkan, Lord of Death", 1, &table), Some("Act 3: Akkan".to_string()));
    assert_eq!(boss_to_raid_map("Nobody", 1, &table), None);
}

#[test]
fn current_boss_names_are_merged() {
    assert_eq!(update_current_boss_name("Chaos Lightning Dragon Jade"), "Argeos");
    assert_eq!(update_current_boss_name("Ruthless Lakadroff"), "Behemoth, the Storm Commander");
    assert_eq!(update_current_boss_name("Krathoios's Tail"), "Krathoios");
    assert_eq!(update_current_boss_name("Infernas"), "Infernas");
}

#[test]
fn hat_buffs_are_recognised() {
    assert!(is_hat_buff(&362600));
    assert!(!is_hat_buff(&362601));
    assert!(is_hyper_hat_buff(&362601));
    assert!(!is_hyper_hat_buff(&1));
}

#[test]
fn tripod_changes_are_detected() {
    let a = TripodIndex { first: 1, second: 2, third: 3 };
    let b = TripodIndex { first: 1, second: 2, third: 1 };
    assert!(!check_tripod_index_change(Some(a), Some(a)));
    assert!(check_tripod_index_change(Some(a), Some(b)));
    assert!(check_tripod_index_change(None, Some(a)));
    assert!(!check_tripod_index_change(None, None));
}

#[test]
fn custom_ids_give_the_skill_back() {
    let id = get_new_id(21140);
    assert_eq!(id, 1_000_021_140);
    assert_eq!(get_skill_id(id + 362600, 362600), 21140);
}

#[test]
fn valid_players_need_a_capitalised_name() {
    assert!(is_valid_player(true, EntityType::Player, 5, 102, "Zed"));
    assert!(!is_valid_player(true, EntityType::Player, 5, 102, "zed"));
    assert!(!is_valid_player(true, EntityType::Player, 5, 102, "You"));
    assert!(!is_valid_player(true, EntityType::Player, 0, 102, "Zed"));
    assert!(!is_valid_player(false, EntityType::Player, 5, 102, "Zed"));
    assert!(!is_valid_player(true, EntityType::Npc, 5, 102, "Zed"));
    assert!(!is_valid_player(true, EntityType::Player, 5, 102, ""));
}

#[test]
fn battle_items_are_useup_effects() {
    let mut item = effect(1, "", None, false);
    item.item_type = Some("useup".to_string());
    assert!(is_battle_item(Some(&item), ""));
    item.item_type = Some("other".to_string());
    assert!(!is_battle_item(Some(&item), ""));
    assert!(!is_battle_item(None, ""));
}

#[test]
fn bleed_and_unknown_skills_are_named() {
    let tracker = SkillTracker::new();
    let skills = SkillTable::new();
    let effects = SkillEffectTable::new();
    let bleed = get_skill_name_and_icon(0, 0, &tracker, 1, &skills, &effects);
    assert_eq!(bleed, ("Bleed".to_string(), "buff_168.png".to_string(), None, false, false));
    let unknown = get_skill_name_and_icon(17000, 0, &tracker, 1, &skills, &effects);
    assert_eq!(unknown, ("17000".to_string(), String::new(), None, false, false));
}

#[test]
fn skill_effects_are_named_by_item_skill_or_comment() {
    let tracker = SkillTracker::new();
    let mut skills = SkillTable::new();
    skills.insert(3700, skill(3700, Some("Strike"), Some("strike.png")));
    let mut effects = SkillEffectTable::new();
    effects.insert(37000, effect(37000, "", None, true));
    effects.insert(50, effect(50, "", Some("Grenade"), false));
    effects.insert(60, effect(60, "A comment", None, false));
    effects.insert(70, effect(70, "", None, false));
    assert_eq!(
        get_skill_name_and_icon(0, 37000, &tracker, 1, &skills, &effects),
        ("Strike".to_string(), "strike.png".to_string(), None, true, false)
    );
    assert_eq!(
        get_skill_name_and_icon(0, 50, &tracker, 1, &skills, &effects),
        ("Grenade".to_string(), String::new(), None, false, false)
    );
    assert_eq!(
        get_skill_name_and_icon(0, 60, &tracker, 1, &skills, &effects),
        ("A comment".to_string(), String::new(), None, false, false)
    );
    assert_eq!(
        get_skill_name_and_icon(0, 70, &tracker, 1, &skills, &effects),
        ("70".to_string(), String::new(), None, false, false)
    );
}

#[test]
fn summoned_skills_are_named_after_their_smallest_source() {
    let tracker = SkillTracker::new();
    let mut summoned = skill(900, Some("Summoned"), None);
    summoned.summon_source_skills = Some(vec![30, 20]);
    let mut skills = SkillTable::new();
    skills.insert(900, summoned);
    skills.insert(20, skill(20, Some("Caller"), Some("caller.png")));
    skills.insert(30, skill(30, None, None));
    let effects = SkillEffectTable::new();
    assert_eq!(
        get_skill_name_and_icon(900, 0, &tracker, 1, &skills, &effects),
        ("Caller (Summon)".to_string(), "caller.png".to_string(), Some(vec![30, 20]), false, false)
    );
}

#[test]
fn status_effect_data_describes_a_known_buff() {
    let mut buffs = SkillBuffTable::new();
    buffs.insert(211410, buff(211410, Some("classskill"), "party", 0));
    buffs.insert(5, buff(5, Some("ability"), "self", 503));
    let mut nameless = buff(6, None, "none", 0);
    nameless.name = None;
    buffs.insert(6, nameless);
    let mut skills = SkillTable::new();
    skills.insert(21141, skill(21141, Some("Heavenly Tune"), None));
    let effects = SkillEffectTable::new();
    let combat = CombatEffectTable::new();
    let stats = stat_types();

    let se = get_status_effect_data(211410, None, &buffs, &skills, &effects, &stats, &combat).unwrap();
    assert_eq!(se.target, StatusEffectTarget::PARTY);
    assert_eq!(se.buff_category, "classskill");
    assert_eq!(se.buff_type, 1);
    assert_eq!(se.source.name, "Buff");
    assert_eq!(se.source.skill.map(|s| s.id), Some(21141));

    let ether = get_status_effect_data(5, None, &buffs, &skills, &effects, &stats, &combat).unwrap();
    assert_eq!(ether.buff_category, "dropsofether");
    assert_eq!(ether.target, StatusEffectTarget::SELF);
    assert!(ether.source.skill.is_none());

    assert!(get_status_effect_data(6, None, &buffs, &skills, &effects, &stats, &combat).is_none());
    assert!(get_status_effect_data(7, None, &buffs, &skills, &effects, &stats, &combat).is_none());
}

#[test]
fn battle_item_buffs_take_the_item_text() {
    let mut buffs = SkillBuffTable::new();
    buffs.insert(800, buff(800, Some("battleitem"), "self", 0));
    let mut item = effect(800, "", Some("Whirlwind Grenade"), false);
    item.icon = Some("grenade.png".to_string());
    let mut effects = SkillEffectTable::new();
    effects.insert(800, item);
    let skills = SkillTable::new();
    let combat = CombatEffectTable::new();
    let se = get_status_effect_data(800, None, &buffs, &skills, &effects, &stat_types(), &combat).unwrap();
    assert_eq!(se.source.name, "Whirlwind Grenade");
    assert_eq!(se.source.desc, "Desc");
    assert_eq!(se.source.icon, "grenade.png");
}

#[test]
fn a_short_effect_entry_does_not_block_other_lookups() {
    let tracker = SkillTracker::new();
    let mut skills = SkillTable::new();
    skills.insert(3700, skill(3700, Some("Strike"), Some("strike.png")));
    let mut effects = SkillEffectTable::new();
    let mut short = effect(99, "", None, false);
    short.values.clear();
    effects.insert(99, short);
    assert_eq!(
        get_skill_name_and_icon(3700, 0, &tracker, 1, &skills, &effects),
        ("Strike".to_string(), "strike.png".to_string(), None, false, false)
    );
}

#[test]
fn summoned_skills_are_named_after_a_remembered_source() {
    let mut tracker = SkillTracker::new();
    tracker.fight_start = 0;
    tracker.new_cast(1, 30, None, 5);
    let mut summoned = skill(900, Some("Summoned"), None);
    summoned.summon_source_skills = Some(vec![20, 30]);
    let mut skills = SkillTable::new();
    skills.insert(900, summoned);
    skills.insert(20, skill(20, Some("Caller"), Some("caller.png")));
    skills.insert(30, skill(30, Some("Other Caller"), Some("other.png")));
    let effects = SkillEffectTable::new();
    assert_eq!(
        get_skill_name_and_icon(900, 0, &tracker, 1, &skills, &effects),
        ("Other Caller (Summon)".to_string(), "other.png".to_string(), Some(vec![20, 30]), false, false)
    );
}
