use loa_logs::live::effect_order::{
    compare_active_combat_effects, compare_combat_effect_action, compare_combat_effect_condition, compare_combat_effect_detail,
    sort_active_combat_effects,
};
use loa_logs::live::effect_select::select_unique_group_effects;
use loa_logs::live::player_stats::{
    damage_attr_debug_name, damage_attr_to_index, is_critical, normalize_feature_type, npc_grade_rank, resolve_damage_attr,
    resolve_skill_identity_category, sort_active_ability_features,
    AbilityFeatureState, ActiveCombatEffect, SkillRuntimeData,
};
use loa_logs::live::rdps::{
    get_buffered_or_live_entity, get_level_data, get_level_data_resolved, get_skill_groups, is_directional_skill, is_player_source_entity_id,
    is_same_player, is_party_wide_skill_buff, is_self_target_skill_buff,
    resolve_skill_effect_flags, source_skill_id_from_effect,
};
use loa_logs::live::status_tracker::StatusEffectDetails;
use loa_logs::models::data::{
    CombatEffectAction, CombatEffectCondition, CombatEffectDetail, PassiveOption, PerLevelData, SkillBuffData, SkillData, SkillEffectData,
};
use loa_logs::models::dps::HitFlag;
use loa_logs::models::entity::{Entity, EntityType};
use loa_logs::text::eq_ignore_ascii_case;
use loa_logs::models::tables::{EntityTable, LevelTable, SkillTable};

fn effect(instance_id: u32, status_effect_id: u32, unique_group: u32) -> StatusEffectDetails {
    StatusEffectDetails { instance_id, status_effect_id, unique_group, ..Default::default() }
}

fn levels(entries: Vec<(&str, PerLevelData)>) -> LevelTable {
    let mut table = LevelTable::new();
    for (key, data) in entries {
        table.insert(key.to_string(), data);
    }
    table
}

fn level(values: &[i32]) -> PerLevelData {
    PerLevelData { passive_options: Vec::new(), status_effect_values: Some(values.to_vec()) }
}

fn skill_buff(target: &str, icon_show_type: Option<&str>) -> SkillBuffData {
    SkillBuffData {
        id: 1,
        name: None,
        desc: None,
        icon: None,
        icon_show_type: icon_show_type.map(|t| t.to_string()),
        duration: 0,
        category: "buff".to_string(),
        buff_type: String::new(),
        status_effect_values: None,
        buff_category: None,
        target: target.to_string(),
        unique_group: 0,
        overlap_flag: 0,
        per_level_data: levels(vec![("1", level(&[1])), ("3", level(&[3]))]),
        source_skills: None,
        set_name: None,
    }
}

fn skill(id: i32, directional_mask: i32, groups: Option<Vec<u32>>) -> SkillData {
    SkillData {
        id,
        name: None,
        skill_type: String::new(),
        desc: None,
        class_id: 0,
        icon: None,
        identity_category: None,
        directional_mask,
        groups,
        summon_source_skills: None,
        source_skills: None,
        is_hyper_awakening: false,
        levels: std::collections::HashMap::new(),
    }
}

#[test]
fn one_effect_counts_for_each_unique_group() {
    let effects = vec![effect(1, 50, 7), effect(2, 10, 0), effect(3, 40, 7), effect(4, 40, 7), effect(5, 90, 3), effect(6, 11, 0)];
    let picked: Vec<u32> = select_unique_group_effects(&effects).iter().map(|e| e.instance_id).collect();
    assert_eq!(picked, vec![2, 6, 5, 3]);
    assert!(select_unique_group_effects(&[]).is_empty());
}

#[test]
fn effects_are_credited_to_their_source_skill() {
    let mut e = effect(1, 211410, 0);
    assert_eq!(source_skill_id_from_effect(&e), 21141);
    e.source_skill_id = Some(0);
    assert_eq!(source_skill_id_from_effect(&e), 21141);
    e.source_skill_id = Some(777);
    assert_eq!(source_skill_id_from_effect(&e), 777);
    assert_eq!(source_skill_id_from_effect(&effect(1, 5, 0)), 1);
}

#[test]
fn party_wide_and_self_buffs_are_told_apart() {
    assert!(is_party_wide_skill_buff(&skill_buff("Party", None)));
    assert!(is_party_wide_skill_buff(&skill_buff("self_party", None)));
    assert!(is_party_wide_skill_buff(&skill_buff("none", Some("CASTER_OR_PARTY"))));
    assert!(!is_party_wide_skill_buff(&skill_buff("none", None)));
    assert!(is_self_target_skill_buff(&skill_buff("SELF", None)));
    assert!(!is_self_target_skill_buff(&skill_buff("party", None)));
}

#[test]
fn level_data_falls_back_to_level_one() {
    let buff = skill_buff("self", None);
    assert_eq!(get_level_data(&buff, 3).and_then(|d| d.status_effect_values.clone()), Some(vec![3]));
    assert_eq!(get_level_data(&buff, 2).and_then(|d| d.status_effect_values.clone()), Some(vec![1]));
    assert_eq!(get_level_data(&buff, 0).and_then(|d| d.status_effect_values.clone()), Some(vec![1]));
}

#[test]
fn skill_effect_flags_follow_the_tenth_value() {
    let mut e = SkillEffectData {
        id: 1,
        comment: String::new(),
        stagger: 0,
        source_skills: None,
        directional_mask: None,
        item_name: None,
        item_desc: None,
        item_type: None,
        icon: None,
        values: vec![0; 10],
    };
    assert_eq!(resolve_skill_effect_flags(Some(&e), false), (true, true));
    assert_eq!(resolve_skill_effect_flags(Some(&e), true), (false, false));
    e.values[9] = 2;
    assert_eq!(resolve_skill_effect_flags(Some(&e), false), (false, false));
    e.values[9] = 1;
    assert_eq!(resolve_skill_effect_flags(Some(&e), false), (true, true));
    assert_eq!(resolve_skill_effect_flags(None, false), (true, true));
}

#[test]
fn directional_masks_prefer_the_runtime_mask() {
    let mut skills = SkillTable::new();
    skills.insert(10, skill(10, 1, Some(vec![5, 6])));
    assert!(is_directional_skill(10, None, 1, &skills));
    assert!(!is_directional_skill(10, None, 2, &skills));
    let runtime = SkillRuntimeData {
        identity_gauge1_at_start: None,
        identity_gauge2_at_start: None,
        identity_gauge3_at_start: None,
        cached_directional_mask: Some(2),
        cached_identity_category: None,
    };
    assert!(is_directional_skill(10, Some(&runtime), 2, &skills));
    assert!(!is_directional_skill(11, None, 1, &skills));
    assert_eq!(get_skill_groups(skills.get(&10)), vec![5, 6]);
    assert!(get_skill_groups(None).is_empty());
}

#[test]
fn stat_helpers_map_their_codes() {
    assert_eq!(npc_grade_rank("BOSS"), Some(6));
    assert_eq!(npc_grade_rank("epic_raid"), Some(9));
    assert_eq!(npc_grade_rank("Commander"), Some(10));
    assert_eq!(npc_grade_rank("unknown"), None);
    assert_eq!(normalize_feature_type("ap_attack_power"), "attack_power");
    assert_eq!(normalize_feature_type("attack_power"), "attack_power");
    assert_eq!(damage_attr_to_index(Some(7)), Some(7));
    assert_eq!(damage_attr_to_index(Some(8)), None);
    assert_eq!(damage_attr_to_index(None), None);
    assert_eq!(damage_attr_debug_name(3), Some("ELECTRICITY"));
    assert_eq!(damage_attr_debug_name(8), None);
    assert!(is_critical(&HitFlag::DotCritical));
    assert!(!is_critical(&HitFlag::Dot));
}

#[test]
fn ascii_case_is_ignored_only_for_ascii_letters() {
    assert!(eq_ignore_ascii_case("Party", "pARTY"));
    assert!(!eq_ignore_ascii_case("party", "partyx"));
    assert!(!eq_ignore_ascii_case("Ä", "ä"));
    assert!(eq_ignore_ascii_case("", ""));
}

fn feature(owner_id: u64, feature_type: &str, level: u32, tag: i64) -> AbilityFeatureState {
    AbilityFeatureState { feature_type: feature_type.to_string(), level, values: vec![tag], owner_id }
}

fn combat(owner_id: u64, combat_effect_id: u32, source: &str, ratio: i32, args: &[i32]) -> ActiveCombatEffect {
    ActiveCombatEffect {
        combat_effect_id,
        effect: CombatEffectDetail {
            ratio,
            cooldown: 0,
            conditions: vec![CombatEffectCondition { condition_type: "hp".to_string(), actor_type: "self".to_string(), arg: 1 }],
            actions: vec![CombatEffectAction {
                action_type: "modify_damage".to_string(),
                actor_type: "self".to_string(),
                args: args.to_vec(),
            }],
        },
        owner_id,
        source: source.to_string(),
    }
}

#[test]
fn ability_features_sort_stably_by_owner_type_and_level() {
    let mut entries = vec![
        feature(2, "ap_crit", 1, 0),
        feature(1, "speed", 2, 1),
        feature(1, "ap_speed", 1, 2),
        feature(1, "crit", 3, 3),
        feature(1, "speed", 1, 4),
    ];
    sort_active_ability_features(&mut entries);
    let tags: Vec<i64> = entries.iter().map(|e| e.values[0]).collect();
    assert_eq!(tags, vec![3, 2, 4, 1, 0]);
}

#[test]
fn combat_effects_sort_by_owner_id_source_and_data() {
    let mut entries = vec![
        combat(2, 1, "a", 0, &[]),
        combat(1, 5, "b", 0, &[]),
        combat(1, 5, "a", 10, &[]),
        combat(1, 5, "a", 5, &[3]),
        combat(1, 5, "a", 5, &[1, 1]),
        combat(1, 5, "a", 5, &[2]),
    ];
    sort_active_combat_effects(&mut entries);
    let seen: Vec<(u64, String, i32, Vec<i32>)> = entries
        .iter()
        .map(|e| (e.owner_id, e.source.clone(), e.effect.ratio, e.effect.actions[0].args.clone()))
        .collect();
    assert_eq!(
        seen,
        vec![
            (1, "a".to_string(), 5, vec![2]),
            (1, "a".to_string(), 5, vec![3]),
            (1, "a".to_string(), 5, vec![1, 1]),
            (1, "a".to_string(), 10, vec![]),
            (1, "b".to_string(), 0, vec![]),
            (2, "a".to_string(), 0, vec![]),
        ]
    );
}

#[test]
fn combat_effect_comparisons_are_three_way() {
    let a = combat(1, 1, "a", 1, &[1]);
    let b = combat(1, 1, "a", 1, &[2]);
    assert_eq!(compare_combat_effect_detail(&a.effect, &b.effect), -1);
    assert_eq!(compare_combat_effect_detail(&b.effect, &a.effect), 1);
    assert_eq!(compare_combat_effect_detail(&a.effect, &a.effect), 0);
    assert_eq!(compare_active_combat_effects(&a, &b), -1);
    assert_eq!(compare_combat_effect_action(&a.effect.actions[0], &b.effect.actions[0]), -1);
    assert_eq!(compare_combat_effect_condition(&a.effect.conditions[0], &b.effect.conditions[0]), 0);
}

#[test]
fn buffered_entities_take_precedence_over_live_ones() {
    let mut live = EntityTable::new();
    live.insert(1, Entity { id: 1, character_id: 100, entity_type: EntityType::Player, ..Default::default() });
    live.insert(2, Entity { id: 2, character_id: 200, entity_type: EntityType::Boss, ..Default::default() });
    let mut buffered = EntityTable::new();
    buffered.insert(2, Entity { id: 2, character_id: 100, entity_type: EntityType::Player, ..Default::default() });
    assert_eq!(get_buffered_or_live_entity(2, Some(&buffered), &live).map(|e| e.character_id), Some(100));
    assert_eq!(get_buffered_or_live_entity(2, None, &live).map(|e| e.character_id), Some(200));
    assert_eq!(get_buffered_or_live_entity(1, Some(&buffered), &live).map(|e| e.character_id), Some(100));
    assert!(get_buffered_or_live_entity(3, Some(&buffered), &live).is_none());
    assert!(is_player_source_entity_id(2, Some(&buffered), &live));
    assert!(!is_player_source_entity_id(2, None, &live));

    let attacker = Entity { id: 1, character_id: 100, entity_type: EntityType::Player, ..Default::default() };
    assert!(is_same_player(&attacker, 1, None, &live));
    assert!(is_same_player(&attacker, 2, Some(&buffered), &live));
    assert!(!is_same_player(&attacker, 2, None, &live));
    let unknown = Entity { id: 5, character_id: 0, ..Default::default() };
    assert!(!is_same_player(&unknown, 2, None, &live));
}

#[test]
fn damage_attributes_follow_the_conversion() {
    assert_eq!(resolve_damage_attr(None, Some(3)), Some(3));
    assert_eq!(resolve_damage_attr(Some(0), Some(3)), Some(3));
    assert_eq!(resolve_damage_attr(Some(5), Some(3)), Some(5));
    assert_eq!(resolve_damage_attr(Some(9), Some(3)), Some(0));
    assert_eq!(resolve_damage_attr(None, None), Some(0));
}

#[test]
fn identity_categories_prefer_the_runtime_cache() {
    let mut table_skill = skill(10, 0, None);
    table_skill.identity_category = Some("bard_serenade".to_string());
    let mut skills = SkillTable::new();
    skills.insert(10, table_skill);
    let cached = SkillRuntimeData {
        identity_gauge1_at_start: None,
        identity_gauge2_at_start: None,
        identity_gauge3_at_start: None,
        cached_directional_mask: None,
        cached_identity_category: Some("bard_courage".to_string()),
    };
    let empty = SkillRuntimeData { cached_identity_category: None, ..cached.clone() };
    assert_eq!(resolve_skill_identity_category(10, Some(&cached), &skills).as_deref(), Some("bard_courage"));
    assert_eq!(resolve_skill_identity_category(10, Some(&empty), &skills).as_deref(), Some("bard_serenade"));
    assert_eq!(resolve_skill_identity_category(10, None, &skills).as_deref(), Some("bard_serenade"));
    assert_eq!(resolve_skill_identity_category(11, None, &skills), None);
}

#[test]
fn resolved_level_data_scales_with_stacks() {
    let mut buff = skill_buff("self", None);
    buff.per_level_data = levels(vec![(
        "1",
        PerLevelData {
            passive_options: vec![
                PassiveOption { option_type: "stat".to_string(), key_stat: "crit".to_string(), key_index: 0, value: 100 },
                PassiveOption { option_type: "combat_effect".to_string(), key_stat: String::new(), key_index: 0, value: 7 },
            ],
            status_effect_values: Some(vec![2, -3]),
        },
    )]);
    let d = get_level_data_resolved(&buff, 1, 3).unwrap();
    assert_eq!(d.status_effect_values, Some(vec![6, -9]));
    assert_eq!(d.passive_options[0].value, 300);
    assert_eq!(d.passive_options[1].value, 7);
    let once = get_level_data_resolved(&buff, 4, 0).unwrap();
    assert_eq!(once.status_effect_values, Some(vec![2, -3]));
    buff.per_level_data = LevelTable::new();
    assert!(get_level_data_resolved(&buff, 1, 3).is_none());
}
