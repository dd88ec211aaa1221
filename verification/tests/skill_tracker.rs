use loa_logs::live::skill_tracker::{first_remembered, hit_start, moved_time, SkillTracker};
use loa_logs::models::skill::SkillHit;

fn hit(damage: i64, timestamp: i64) -> SkillHit {
    SkillHit::new(timestamp, damage)
}

#[test]
fn rebind_entity_id_moves_casts_and_hits() {
    let mut tracker = SkillTracker::new();
    tracker.fight_start = 1_000;
    tracker.new_cast(10, 20, None, 2_000);
    tracker.on_hit(10, 0, 20, hit(30, 1_500), None);

    tracker.rebind_entity_id(10, 99);

    let cast_log = tracker.get_cast_log();
    assert!(!cast_log.contains_key(&10));
    let casts = cast_log
        .get(&99)
        .and_then(|skills| skills.get(&20))
        .expect("rebinding should move old entity casts to the new entity id");
    let cast = casts.values().next().expect("rebinding should retain the skill cast");
    assert_eq!(cast.hits.len(), 1);
    assert_eq!(cast.hits[0].damage, 30);
    assert!(tracker.skill_timestamp.get(&(10, 20)).is_none());
    assert_eq!(tracker.skill_timestamp.get(&(99, 20)), Some(1_000));
}

#[test]
fn rebind_entity_id_preserves_existing_active_skill_timestamp() {
    let mut tracker = SkillTracker::new();
    tracker.fight_start = 1_000;
    tracker.new_cast(10, 20, None, 2_000);
    tracker.new_cast(99, 20, None, 3_000);

    tracker.rebind_entity_id(10, 99);

    assert!(tracker.skill_timestamp.get(&(10, 20)).is_none());
    assert_eq!(tracker.skill_timestamp.get(&(99, 20)), Some(2_000));
    assert!(tracker.skills.contains_key(&(99, 20, 1_000)));
    assert!(tracker.skills.contains_key(&(99, 20, 2_000)));
}

#[test]
fn duplicate_new_cast_does_not_replace_existing_hits() {
    let mut tracker = SkillTracker::new();
    tracker.fight_start = 1_000;
    tracker.new_cast(10, 20, None, 2_000);
    tracker.on_hit(10, 0, 20, hit(30, 1_500), None);

    tracker.new_cast(10, 20, None, 2_000);

    let cast = tracker.skills.get(&(10, 20, 1_000)).expect("duplicate cast should keep the existing cast entry");
    assert_eq!(cast.hits.len(), 1);
    assert_eq!(cast.hits[0].damage, 30);
}

#[test]
fn rebind_entity_id_deduplicates_same_cast_hit_collisions() {
    let mut tracker = SkillTracker::new();
    tracker.fight_start = 1_000;
    let mut shared = hit(30, 1_500);
    shared.crit = true;
    shared.buffed_by = vec![1, 2];

    tracker.new_cast(10, 20, None, 2_000);
    tracker.on_hit(10, 0, 20, shared.clone(), None);
    tracker.new_cast(99, 20, None, 2_000);
    tracker.on_hit(99, 0, 20, shared, None);

    tracker.rebind_entity_id(10, 99);

    let cast_log = tracker.get_cast_log();
    let casts = cast_log.get(&99).and_then(|skills| skills.get(&20)).expect("rebinding should keep the target cast");
    let cast = casts.get(&1_000).expect("same-timestamp casts should merge into one cast");
    assert_eq!(cast.hits.len(), 1);
    assert_eq!(cast.hits[0].damage, 30);
    assert!(cast.hits[0].crit);
}

#[test]
fn hit_starts_prefer_the_projectile_then_the_skill() {
    assert_eq!(hit_start(Some(5), Some(7)), 5);
    assert_eq!(hit_start(None, Some(7)), 7);
    assert_eq!(hit_start(None, None), -1);
    assert_eq!(first_remembered(&vec![None, Some(3), Some(4)]), Some(3));
    assert_eq!(first_remembered(&vec![None, None]), None);
    assert_eq!(moved_time(Some(9), None), Some(9));
    assert_eq!(moved_time(Some(9), Some(2)), None);
    assert_eq!(moved_time(None, None), None);
}

#[test]
fn a_summoned_hit_without_a_remembered_source_starts_its_own_cast() {
    let mut tracker = SkillTracker::new();
    tracker.fight_start = 0;
    tracker.on_hit(10, 0, 30, hit(5, 700), Some(vec![40, 41]));
    assert_eq!(tracker.skill_timestamp.get(&(10, 30)), Some(700));
    assert!(tracker.skills.contains_key(&(10, 30, 700)));
    tracker.new_cast(10, 41, None, 900);
    tracker.on_hit(10, 0, 30, hit(6, 950), Some(vec![40, 41]));
    assert!(tracker.skills.contains_key(&(10, 30, 900)));
}
