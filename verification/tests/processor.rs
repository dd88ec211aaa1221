use loa_logs::live::processor::{
    damage_ignored, keeps_raid_difficulty, note_local_player, party_info_to_send, plan_ui_update, resets_on_boss_battle,
    shield_change, shield_target_id, update_party, PartyState, UiUpdate,
};
use loa_logs::live::stats_api::{esther_casts, inspect_characters, participants_hash, retry_backoff_ms};
use loa_logs::live::id_map::IdMap;
use loa_logs::live::status_tracker::{StatusEffectDetails, StatusEffectTargetType};
use loa_logs::live::utils::map_status_effect;
use loa_logs::local::{LocalInfo, LocalPlayer, LocalPlayerRepository, LocalPlayers};
use loa_logs::models::entity::{Entity, EntityType};
use loa_logs::models::tables::EntityTable;

fn player(id: u64, character_id: u64, class_id: u32, name: &str) -> Entity {
    Entity { id, character_id, class_id, name: name.to_string(), entity_type: EntityType::Player, ..Default::default() }
}

fn grouping(parties: &[&[&str]]) -> Vec<Vec<String>> {
    parties.iter().map(|p| p.iter().map(|n| n.to_string()).collect()).collect()
}

#[test]
fn local_players_are_counted() {
    let mut info = LocalInfo { client_id: "id".to_string(), local_players: LocalPlayers::new() };
    note_local_player(&mut info, 7, "Alpha");
    assert_eq!(info.local_players.get(&7).map(|p| (p.name.clone(), p.count)), Some(("Alpha".to_string(), 1)));
    note_local_player(&mut info, 7, "Beta");
    assert_eq!(info.local_players.get(&7).map(|p| (p.name.clone(), p.count)), Some(("Beta".to_string(), 2)));
    info.local_players.insert(9, LocalPlayer { name: "Other".to_string(), count: 4 });
    note_local_player(&mut info, 7, "Beta");
    assert_eq!(info.local_players.get(&9).map(|p| p.count), Some(4));
    assert_eq!(info.local_players.get(&7).map(|p| p.count), Some(3));
    assert_eq!(info.client_id, "id");
}

#[test]
fn fresh_local_info_has_a_client_id_and_no_players() {
    let a = LocalPlayerRepository::create();
    let b = LocalPlayerRepository::create();
    assert_eq!(a.client_id.len(), 36);
    assert_eq!(a.local_players.len(), 0);
    assert_ne!(a.client_id, b.client_id);
}

#[test]
fn parties_are_grouped_by_rising_party_id() {
    let mut entities = EntityTable::new();
    entities.insert(1, player(1, 11, 102, "Ann"));
    entities.insert(2, player(2, 12, 102, "Bob"));
    entities.insert(3, player(3, 13, 102, "cara"));
    entities.insert(4, player(4, 0, 102, "Dan"));
    entities.insert(5, player(5, 15, 102, "Eve"));
    let assignments = vec![(5, 9), (1, 2), (3, 2), (2, 2), (4, 9), (6, 4)];
    let parties = update_party(&assignments, &entities);
    assert_eq!(parties, grouping(&[&["Ann", "Bob"], &[], &["Eve"]]));
    assert!(update_party(&Vec::new(), &entities).is_empty());
}

#[test]
fn ui_updates_are_throttled() {
    assert_eq!(plan_ui_update(None, false, false, false, 0, false), UiUpdate { send: true, refresh_party: false });
    assert_eq!(plan_ui_update(Some(199), false, false, false, 5000, false), UiUpdate { send: false, refresh_party: false });
    assert_eq!(plan_ui_update(Some(200), false, false, false, 5000, false), UiUpdate { send: true, refresh_party: true });
    assert_eq!(plan_ui_update(Some(1000), true, false, false, 5000, false), UiUpdate { send: false, refresh_party: false });
    assert_eq!(plan_ui_update(Some(1500), true, false, false, 5000, true), UiUpdate { send: true, refresh_party: false });
    assert_eq!(plan_ui_update(Some(10), false, true, false, 1999, false), UiUpdate { send: true, refresh_party: false });
    assert_eq!(plan_ui_update(Some(10), false, false, true, 2000, false), UiUpdate { send: true, refresh_party: true });
}

#[test]
fn full_party_groupings_are_cached() {
    let full = grouping(&[&["A", "B", "C", "D"], &["E", "F", "G", "H"]]);
    let mut cache = None;
    assert_eq!(party_info_to_send(true, &mut cache, Some(full.clone())), Some(full.clone()));
    assert_eq!(cache, Some(full.clone()));
    let other = grouping(&[&["X"], &["Y"]]);
    assert_eq!(party_info_to_send(true, &mut cache, Some(other)), Some(full.clone()));
    assert_eq!(party_info_to_send(false, &mut cache, None), None);
    assert_eq!(cache, Some(full));
}

#[test]
fn partial_or_single_groupings_are_sent_but_not_cached() {
    let partial = grouping(&[&["A", "B"], &["E", "F", "G", "H"]]);
    let mut cache = None;
    assert_eq!(party_info_to_send(true, &mut cache, Some(partial.clone())), Some(partial));
    assert_eq!(cache, None);
    assert_eq!(party_info_to_send(true, &mut cache, Some(grouping(&[&["A", "B", "C", "D"]]))), None);
    assert_eq!(party_info_to_send(true, &mut cache, None), None);
    assert_eq!(cache, None);
}

#[test]
fn damage_right_after_a_raid_is_ignored() {
    assert!(damage_ignored(Some(0)));
    assert!(damage_ignored(Some(9_999)));
    assert!(!damage_ignored(Some(10_000)));
    assert!(!damage_ignored(None));
}

#[test]
fn raid_difficulty_and_boss_battle_decisions() {
    assert!(keeps_raid_difficulty(5, 3, "Hard"));
    assert!(!keeps_raid_difficulty(5, 3, ""));
    assert!(!keeps_raid_difficulty(2, 3, "Hard"));
    assert!(resets_on_boss_battle("", 100));
    assert!(resets_on_boss_battle("Akkan", 0));
    assert!(resets_on_boss_battle("Saydon", 100));
    assert!(!resets_on_boss_battle("Akkan", 100));
}

#[test]
fn inspect_requests_ask_about_at_most_sixteen_players() {
    let names: Vec<String> = (0..16).map(|i| format!("P{i}")).collect();
    assert_eq!(inspect_characters(true, names.clone()), Some(names.clone()));
    assert_eq!(inspect_characters(false, names.clone()), None);
    let mut more = names;
    more.push("Extra".to_string());
    assert_eq!(inspect_characters(true, more), None);
}

#[test]
fn retry_waits_double() {
    assert_eq!(retry_backoff_ms(1), 250);
    assert_eq!(retry_backoff_ms(2), 500);
    assert_eq!(retry_backoff_ms(3), 1000);
    assert_eq!(retry_backoff_ms(64), u64::MAX);
}

#[test]
fn participants_hash_is_the_digest_of_the_sorted_names() {
    let names = vec!["Bob".to_string(), "Alice".to_string()];
    assert_eq!(participants_hash(&names), "3a92e7c619510954f1a5632808a295fe2fedf3900a4feb4e46f27b068855c788");
    let swapped = vec!["Alice".to_string(), "Bob".to_string()];
    assert_eq!(participants_hash(&swapped), participants_hash(&names));
    assert_eq!(participants_hash(&Vec::new()), "e3b0c44298fc1c149afbf4c8996fb92427ae41e4649b934ca495991b7852b855");
    let unicode = vec!["Zed".to_string(), "Äpfel".to_string()];
    assert_eq!(participants_hash(&unicode), "eba65011210b28087ecb859dae834e8a5a0f6d4542969b2ac8b1b4ff16ce7bd5");
}

#[test]
fn esther_casts_add_up_by_skill() {
    let totals = esther_casts(&vec![(10, 2), (20, 1), (10, 3)]);
    assert_eq!(totals.len(), 2);
    assert_eq!(totals.get(&10), Some(5));
    assert_eq!(totals.get(&20), Some(1));
    let mut entries = totals.entries();
    entries.sort();
    assert_eq!(entries, vec![(10, 5), (20, 1)]);
    assert_eq!(esther_casts(&Vec::new()).len(), 0);
}

#[test]
fn shield_changes_count_only_what_was_used() {
    assert_eq!(shield_change(500, 200), 300);
    assert_eq!(shield_change(200, 500), 0);
    assert_eq!(shield_change(7, 7), 0);
    assert_eq!(shield_target_id(StatusEffectTargetType::Local, 42, Some(9)), 42);
    assert_eq!(shield_target_id(StatusEffectTargetType::Party, 42, Some(9)), 9);
    assert_eq!(shield_target_id(StatusEffectTargetType::Party, 42, None), 0);
}

#[test]
fn custom_ids_are_recorded_for_their_status_effect() {
    let mut ids = IdMap::new();
    let plain = StatusEffectDetails { status_effect_id: 362600, ..Default::default() };
    assert_eq!(map_status_effect(&plain, &mut ids), 362600);
    assert_eq!(ids.len(), 0);
    let custom = StatusEffectDetails { status_effect_id: 362600, custom_id: 1_000_021_140, ..Default::default() };
    assert_eq!(map_status_effect(&custom, &mut ids), 1_000_021_140);
    assert_eq!(ids.get(&1_000_021_140), Some(362600));
}

#[test]
fn the_party_grouping_freezes_at_a_raid_end_until_reset() {
    let mut state = PartyState::new();
    let full = grouping(&[&["A", "B", "C", "D"], &["E", "F", "G", "H"]]);
    state.cache = Some(full.clone());
    assert_eq!(state.raid_ended(), Some(full));
    assert!(state.freeze);
    assert_eq!(state.cache, None);
    assert_eq!(state.raid_ended(), None);
    state.cache = Some(grouping(&[&["X"]]));
    state.party_changed();
    assert!(state.freeze);
    assert_eq!(state.cache, None);
    state.reset();
    assert!(!state.freeze);
}
