use loa_logs::live::status_tracker::{
    apply_measured_stat, hide_expired, DeadlineMode, MeasuredStat, StatType, StatusEffectDetails, StatusEffectTargetType,
    StatusTracker, INFINITE_SERVER_TICK,
};
use loa_logs::models::entity::{Entity, EntityType};
use loa_logs::models::tables::PartyIds;
use std::sync::OnceLock;

const RECEIVER: u64 = 99;
const OWNER: u64 = 61;
const STAT: StatType = StatType::SkillDamageSubRate2;

fn tracker() -> StatusTracker {
    StatusTracker::new()
}

fn now_ms() -> i64 {
    chrono::Utc::now().timestamp_millis()
}

/// Fixture time `seconds` after a base near now, in nanoseconds.
fn at(seconds: f64) -> i128 {
    static BASE_MS: OnceLock<i64> = OnceLock::new();
    let base_ms = *BASE_MS.get_or_init(|| now_ms() / 1000 * 1000);
    ((base_ms + (seconds * 1000.0) as i64) as i128) * 1_000_000
}

/// The whole milliseconds of a finite nominal duration, none for a permanent one.
fn duration_ms(duration: f32) -> Option<i64> {
    if duration > 0.0 && duration.is_finite() && duration != f32::MAX {
        Some((f64::from(duration) * 1000.0).min(i64::MAX as f64) as i64)
    } else {
        None
    }
}

/// A finite status whose end tick is on the fixture clock: tick 0 is 100 s before `at(0)`.
fn finite_status(target_id: u64, instance_id: u32, duration: f32, occurrence: f64) -> StatusEffectDetails {
    StatusEffectDetails {
        instance_id,
        status_effect_id: 1000 + instance_id,
        target_id,
        source_id: OWNER,
        target_type: StatusEffectTargetType::Local,
        expiration_delay_ms: duration_ms(duration),
        expiration_delay_bits: duration.to_bits(),
        end_tick: ((100.0 + occurrence + f64::from(duration)) * 1000.0) as u64,
        occur_time: at(occurrence),
        timestamp: at(occurrence),
        first_tracked: at(occurrence),
        end_tick_on_zone_clock: true,
        owner_is_player: true,
        ..Default::default()
    }
}

fn has(tracker: &mut StatusTracker, target_id: u64, instance_id: u32, time: i128) -> bool {
    tracker
        .actually_get_status_effects(target_id, StatusEffectTargetType::Local, time, DeadlineMode::HideExpired)
        .iter()
        .any(|effect| effect.instance_id == instance_id)
}

/// The tick epoch is adopted only once two statuses from different server moments agree.
fn seed_server_tick_epoch(tracker: &mut StatusTracker) {
    tracker.register_status_effect(finite_status(RECEIVER, 9001, 1.0, 0.0));
    tracker.register_status_effect(finite_status(RECEIVER, 9002, 1.0, 0.3));
    assert_eq!(tracker.server_tick_epoch(), Some(at(-100.0)));
}

#[test]
fn nominal_deadline_expires_a_finite_status_without_an_epoch() {
    let mut tracker = tracker();
    tracker.register_status_effect(finite_status(RECEIVER, 1, 30.0, 0.0));
    assert_eq!(tracker.server_tick_epoch(), None);
    assert!(has(&mut tracker, RECEIVER, 1, at(29.0)));
    assert!(!has(&mut tracker, RECEIVER, 1, at(30.0)));
    let mut permanent = finite_status(RECEIVER, 2, 0.0, 0.0);
    permanent.end_tick = INFINITE_SERVER_TICK;
    tracker.register_status_effect(permanent);
    assert!(has(&mut tracker, RECEIVER, 2, at(100_000.0)));
}

#[test]
fn reliable_epoch_sample_restores_an_extended_snapshot_until_its_server_end() {
    let mut tracker = tracker();
    let mut extended = finite_status(RECEIVER, 1, 12.0, 100.0);
    extended.end_tick = 220_000;
    extended.created_before_zone = true;
    tracker.register_status_effect(extended);
    tracker.register_status_effect(finite_status(RECEIVER, 2, 5.0, 100.0));
    tracker.register_status_effect(finite_status(RECEIVER, 3, 5.0, 100.5));
    assert!(has(&mut tracker, RECEIVER, 1, at(119.0)));
    assert!(!has(&mut tracker, RECEIVER, 1, at(120.0)));
}

#[test]
fn duration_correction_restores_packet_membership() {
    for received_at in [9.0, 10.0, 11.0] {
        let mut tracker = tracker();
        seed_server_tick_epoch(&mut tracker);
        tracker.register_status_effect(finite_status(RECEIVER, 1, 10.0, 0.0));
        assert_eq!(has(&mut tracker, RECEIVER, 1, at(received_at)), received_at < 10.0);
        assert!(tracker.update_status_duration(1, RECEIVER, 120_000, StatusEffectTargetType::Local, at(received_at)));
        assert!(has(&mut tracker, RECEIVER, 1, at(19.0)), "received at {received_at}");
        assert!(!has(&mut tracker, RECEIVER, 1, at(20.0)), "received at {received_at}");
    }
}

#[test]
fn duration_correction_does_not_undo_explicit_removal() {
    let mut tracker = tracker();
    seed_server_tick_epoch(&mut tracker);
    tracker.register_status_effect(finite_status(RECEIVER, 1, 10.0, 0.0));
    tracker.remove_status_effects(RECEIVER, vec![1], 0, StatusEffectTargetType::Local);
    assert!(!tracker.update_status_duration(1, RECEIVER, 130_000, StatusEffectTargetType::Local, at(1.0)));
    assert!(!has(&mut tracker, RECEIVER, 1, at(1.0)));
    assert!(!tracker.is_retained(1));
}

#[test]
fn epoch_adoption_needs_two_agreeing_samples_from_different_moments() {
    let mut tracker = tracker();
    tracker.register_status_effect(finite_status(RECEIVER, 1, 10.0, 0.0));
    tracker.register_status_effect(finite_status(RECEIVER, 2, 10.0, 0.0));
    assert!(tracker.update_status_duration(1, RECEIVER, 120_000, StatusEffectTargetType::Local, at(0.5)));
    assert!(!has(&mut tracker, RECEIVER, 1, at(10.0)));
    tracker.register_status_effect(finite_status(RECEIVER, 3, 10.0, 10.0));
    tracker.register_status_effect(finite_status(RECEIVER, 4, 10.0, 10.5));
    assert!(tracker.update_status_duration(3, RECEIVER, 130_000, StatusEffectTargetType::Local, at(11.0)));
    assert!(has(&mut tracker, RECEIVER, 3, at(29.0)));
    assert!(!has(&mut tracker, RECEIVER, 3, at(30.0)));
}

#[test]
fn relative_tick_refresh_stream_never_moves_the_epoch() {
    let mut tracker = tracker();
    seed_server_tick_epoch(&mut tracker);
    tracker.register_status_effect(finite_status(RECEIVER, 1, 30.0, 0.0));
    for second in 1..=10 {
        let mut relative = finite_status(98, 2, 10.0, f64::from(second));
        relative.end_tick = 10_000;
        tracker.register_status_effect(relative);
    }
    assert_eq!(tracker.server_tick_epoch(), Some(at(-100.0)));
    assert!(has(&mut tracker, RECEIVER, 1, at(29.0)));
    assert!(!has(&mut tracker, RECEIVER, 1, at(30.0)));
}

#[test]
fn renotification_keeps_known_source_and_owner_snapshot() {
    for snapshot_reset in [false, true] {
        let mut tracker = tracker();
        let owner_stats: u64 = 7001;
        let mut original = finite_status(RECEIVER, 1, 30.0, 0.0);
        original.source_skill_id = Some(31050);
        original.owner_player_stats_snapshot = Some(owner_stats);
        tracker.register_status_effect(original);

        if snapshot_reset {
            tracker.remove_local_object(RECEIVER);
            assert!(!has(&mut tracker, RECEIVER, 1, at(1.0)));
        }
        let mut renotified = finite_status(RECEIVER, 1, 30.0, 5.0);
        renotified.owner_player_stats_snapshot = Some(7002);
        tracker.register_status_effect(renotified);

        let refreshed = tracker
            .actually_get_status_effects(RECEIVER, StatusEffectTargetType::Local, at(6.0), DeadlineMode::HideExpired)
            .into_iter()
            .find(|effect| effect.instance_id == 1)
            .unwrap();
        assert_eq!(refreshed.source_skill_id, Some(31050));
        assert_eq!(refreshed.owner_player_stats_snapshot, Some(owner_stats));
        assert_eq!(refreshed.first_tracked, at(0.0));
        assert!(!refreshed.created_before_zone);
    }
}

#[test]
fn zone_change_retains_player_owned_instances_as_pre_zone_and_drops_npc_owned_ones() {
    let mut tracker = tracker();
    let owner_stats: u64 = 7001;
    let mut player_owned = finite_status(RECEIVER, 1, 300.0, 0.0);
    player_owned.owner_player_stats_snapshot = Some(owner_stats);
    tracker.register_status_effect(player_owned);
    let mut npc_owned = finite_status(RECEIVER, 2, 300.0, 0.0);
    npc_owned.owner_is_player = false;
    npc_owned.source_id = 777;
    tracker.register_status_effect(npc_owned);
    tracker.clear();
    assert!(!has(&mut tracker, RECEIVER, 1, at(1.0)));

    tracker.register_status_effect(finite_status(RECEIVER, 1, 300.0, 5.0));
    let mut npc_renotified = finite_status(RECEIVER, 2, 300.0, 5.0);
    npc_renotified.owner_is_player = false;
    npc_renotified.source_id = 777;
    tracker.register_status_effect(npc_renotified);

    let effects = tracker.actually_get_status_effects(RECEIVER, StatusEffectTargetType::Local, at(6.0), DeadlineMode::HideExpired);
    let resumed = effects.iter().find(|effect| effect.instance_id == 1).unwrap();
    assert!(resumed.created_before_zone);
    assert_eq!(resumed.owner_player_stats_snapshot, Some(owner_stats));
    let npc = effects.iter().find(|effect| effect.instance_id == 2).unwrap();
    assert!(!npc.created_before_zone);
    assert_eq!(npc.first_tracked, at(5.0));
}

#[test]
fn measured_stat_pins_only_the_same_instance_once() {
    let sampled = finite_status(RECEIVER, 1, 30.0, 0.0);
    let measured = MeasuredStat { stat_type: StatType::SkillDamageSubRate2, value: 2500 };
    let mut same = sampled.clone();
    assert!(apply_measured_stat(&mut same, &sampled, measured));
    assert_eq!(same.measured_stat, Some(measured));
    assert!(!apply_measured_stat(&mut same, &sampled, measured));

    let mut reused_instance = finite_status(RECEIVER, 1, 30.0, 40.0);
    assert!(!apply_measured_stat(&mut reused_instance, &sampled, measured));
    assert_eq!(reused_instance.measured_stat, None);

    let mut tracker = tracker();
    tracker.register_status_effect(sampled.clone());
    assert!(tracker.try_apply_measured_stat(&[RECEIVER], &sampled, measured));
    tracker.register_status_effect(finite_status(RECEIVER, 1, 30.0, 5.0));
    assert_eq!(tracker.tracked_status_effect(&[RECEIVER], 1).and_then(|effect| effect.measured_stat), Some(measured));
}

/// A tracked identity buff that provides the second skill damage sub rate.
fn identity_status(instance_id: u32, status_effect_id: u32, source_skill_id: u32, duration: f32, occurrence: f64) -> StatusEffectDetails {
    let mut status = finite_status(RECEIVER, instance_id, duration, occurrence);
    status.status_effect_id = status_effect_id;
    status.source_skill_id = Some(source_skill_id);
    status.provides_skill_damage_sub_rate_2 = true;
    status
}

#[test]
fn deadline_expiry_and_restoration_are_identity_stat_source_changes() {
    let mut tracker = tracker();
    seed_server_tick_epoch(&mut tracker);
    tracker.register_status_effect(identity_status(1, 310501, 31050, 30.0, 0.0));
    tracker.register_status_effect(identity_status(2, 211410, 21141, 8.0, 0.0));
    assert!(!tracker.has_stat_source_changed_since(&[RECEIVER], STAT, at(0.5)));

    let visible = tracker.actually_get_status_effects(RECEIVER, StatusEffectTargetType::Local, at(10.0), DeadlineMode::HideExpired);
    assert_eq!(visible.len(), 1);
    assert_eq!(visible[0].instance_id, 1);
    assert!(tracker.has_stat_source_changed_since(&[RECEIVER], STAT, at(5.0)));
    assert!(!tracker.has_stat_source_changed_since(&[RECEIVER], STAT, at(9.0)));

    assert!(tracker.update_status_duration(2, RECEIVER, 120_000, StatusEffectTargetType::Local, at(12.0)));
    assert!(has(&mut tracker, RECEIVER, 2, at(13.0)));
    assert!(tracker.has_stat_source_changed_since(&[RECEIVER], STAT, at(11.0)));

    assert!(tracker.update_status_duration(1, RECEIVER, 110_000, StatusEffectTargetType::Local, at(15.0)));
    assert!(!has(&mut tracker, RECEIVER, 1, at(15.5)));
    assert!(tracker.has_stat_source_changed_since(&[RECEIVER], STAT, at(14.0)));
}

#[test]
fn continuous_future_extension_is_not_a_stat_source_change() {
    let mut tracker = tracker();
    seed_server_tick_epoch(&mut tracker);
    tracker.register_status_effect(identity_status(1, 310501, 31050, 30.0, 0.0));
    assert!(tracker.update_status_duration(1, RECEIVER, 140_000, StatusEffectTargetType::Local, at(5.0)));
    assert!(has(&mut tracker, RECEIVER, 1, at(35.0)));
    assert!(!tracker.has_stat_source_changed_since(&[RECEIVER], STAT, at(1.0)));
}

#[test]
fn epoch_correction_restoring_an_instance_is_a_stat_source_change() {
    let mut tracker = tracker();
    let mut extended = identity_status(1, 310501, 31050, 12.0, 100.0);
    extended.end_tick = 220_000;
    tracker.register_status_effect(extended);
    assert!(!has(&mut tracker, RECEIVER, 1, at(115.0)));
    tracker.register_status_effect(finite_status(RECEIVER, 2, 5.0, 116.0));
    tracker.register_status_effect(finite_status(RECEIVER, 3, 5.0, 116.5));
    assert!(has(&mut tracker, RECEIVER, 1, at(117.0)));
    assert!(!has(&mut tracker, RECEIVER, 1, at(120.0)));
    assert!(tracker.has_stat_source_changed_since(&[RECEIVER], STAT, at(116.2)));
}

/// The runtime data handle of a source skill at `skill_level`.
fn runtime_snapshot(skill_level: u8) -> u64 {
    u64::from(skill_level)
}

fn tracked_source(tracker: &StatusTracker, instance_id: u32) -> (Option<u32>, Option<u64>) {
    let effect = tracker.tracked_status_effect(&[RECEIVER], instance_id).unwrap();
    (effect.source_skill_id, effect.source_skill_runtime_snapshot)
}

#[test]
fn renotification_keeps_the_creation_source_skill_with_its_own_cache() {
    let mut tracker = tracker();
    let mut original = finite_status(RECEIVER, 1, 30.0, 0.0);
    original.source_skill_id = Some(48041);
    original.source_skill_runtime_snapshot = Some(runtime_snapshot(2));
    tracker.register_status_effect(original);
    let mut renotified = finite_status(RECEIVER, 1, 30.0, 5.0);
    renotified.source_skill_id = Some(48042);
    renotified.source_skill_runtime_snapshot = Some(runtime_snapshot(5));
    tracker.register_status_effect_with(renotified, |_| panic!("the creation cache must not be resolved again"));
    assert_eq!(tracked_source(&tracker, 1), (Some(48041), Some(2)));

    let mut refreshed = finite_status(RECEIVER, 1, 30.0, 10.0);
    refreshed.source_skill_id = Some(48041);
    refreshed.source_skill_runtime_snapshot = Some(runtime_snapshot(7));
    tracker.register_status_effect(refreshed);
    assert_eq!(tracked_source(&tracker, 1), (Some(48041), Some(2)));

    let mut uncached = finite_status(RECEIVER, 2, 30.0, 0.0);
    uncached.source_skill_id = Some(48041);
    tracker.register_status_effect(uncached);
    let mut renotified = finite_status(RECEIVER, 2, 30.0, 5.0);
    renotified.source_skill_id = Some(48042);
    renotified.source_skill_runtime_snapshot = Some(runtime_snapshot(5));
    tracker.register_status_effect_with(renotified, |carried_skill_id| {
        assert_eq!(carried_skill_id, 48041);
        Some(runtime_snapshot(9))
    });
    assert_eq!(tracked_source(&tracker, 2), (Some(48041), Some(9)));

    let mut uncached = finite_status(RECEIVER, 3, 30.0, 0.0);
    uncached.source_skill_id = Some(48041);
    tracker.register_status_effect(uncached);
    let mut refreshed = finite_status(RECEIVER, 3, 30.0, 5.0);
    refreshed.source_skill_id = Some(48041);
    refreshed.source_skill_runtime_snapshot = Some(runtime_snapshot(4));
    tracker.register_status_effect_with(refreshed, |_| panic!("same skill needs no resolver"));
    assert_eq!(tracked_source(&tracker, 3), (Some(48041), Some(4)));
}

/// A finite status whose notify arrived `skew` seconds of local clock after its server occurrence.
fn skewed_status(instance_id: u32, duration: f32, occurrence: f64, skew: f64) -> StatusEffectDetails {
    let mut status = finite_status(RECEIVER, instance_id, duration, occurrence);
    status.timestamp = at(occurrence + skew);
    status.first_tracked = status.timestamp;
    status
}

fn seed_skewed_epoch(tracker: &mut StatusTracker, skew: f64) {
    tracker.register_status_effect(skewed_status(9001, 1.0, 0.0, skew));
    tracker.register_status_effect(skewed_status(9002, 1.0, 0.3, skew));
    assert_eq!(tracker.server_tick_epoch(), Some(at(-100.0)));
}

fn read(tracker: &mut StatusTracker, instance_id: u32, time: i128, mode: DeadlineMode) -> bool {
    tracker
        .actually_get_status_effects(RECEIVER, StatusEffectTargetType::Local, time, mode)
        .iter()
        .any(|effect| effect.instance_id == instance_id)
}

#[test]
fn server_deadlines_meet_the_local_clock_through_the_sampled_offset() {
    for skew in [3.5, -1.2] {
        let mut tracker = tracker();
        seed_skewed_epoch(&mut tracker, skew);
        tracker.register_status_effect(skewed_status(1, 3.0, 5.0, skew));
        assert!(has(&mut tracker, RECEIVER, 1, at(7.95 + skew)), "skew {skew}");
        assert!(!has(&mut tracker, RECEIVER, 1, at(8.05 + skew)), "skew {skew}");
    }
}

#[test]
fn nominal_deadline_without_an_epoch_counts_from_arrival() {
    let skew = 3.5;
    let mut tracker = tracker();
    tracker.register_status_effect(skewed_status(1, 3.0, 0.0, skew));
    assert_eq!(tracker.server_tick_epoch(), None);
    assert!(has(&mut tracker, RECEIVER, 1, at(skew + 2.95)));
    assert!(!has(&mut tracker, RECEIVER, 1, at(skew + 3.05)));
}

#[test]
fn duration_notify_deadline_meets_the_local_clock_through_the_offset() {
    let skew = 3.5;
    let mut tracker = tracker();
    seed_skewed_epoch(&mut tracker, skew);
    tracker.register_status_effect(skewed_status(1, 10.0, 0.0, skew));
    assert!(tracker.update_status_duration(1, RECEIVER, 120_000, StatusEffectTargetType::Local, at(5.0 + skew)));
    assert!(has(&mut tracker, RECEIVER, 1, at(19.95 + skew)));
    assert!(!has(&mut tracker, RECEIVER, 1, at(20.05 + skew)));
}

#[test]
fn deadline_history_is_recorded_on_the_local_clock() {
    let skew = 3.5;
    let mut tracker = tracker();
    seed_skewed_epoch(&mut tracker, skew);
    let mut serenade = skewed_status(1, 8.0, 0.0, skew);
    serenade.status_effect_id = 211410;
    serenade.source_skill_id = Some(21141);
    serenade.provides_skill_damage_sub_rate_2 = true;
    tracker.register_status_effect(serenade);
    assert!(!has(&mut tracker, RECEIVER, 1, at(12.0 + skew)));
    assert!(tracker.has_stat_source_changed_since(&[RECEIVER], STAT, at(7.9 + skew)));
    assert!(!tracker.has_stat_source_changed_since(&[RECEIVER], STAT, at(8.1 + skew)));
}

#[test]
fn a_stale_snapshot_sample_never_raises_the_offset() {
    let mut tracker = tracker();
    seed_skewed_epoch(&mut tracker, 3.5);
    tracker.register_status_effect(skewed_status(1, 200.0, -100.0, 103.5));
    assert!(has(&mut tracker, RECEIVER, 1, at(103.45)));
    assert!(!has(&mut tracker, RECEIVER, 1, at(103.55)));
}

#[test]
fn a_zone_change_keeps_the_offset_until_the_first_notify_replaces_it() {
    let mut tracker = tracker();
    seed_skewed_epoch(&mut tracker, 3.5);
    tracker.clear();
    seed_skewed_epoch(&mut tracker, 5.0);
    tracker.register_status_effect(skewed_status(1, 3.0, 5.0, 5.0));
    assert!(has(&mut tracker, RECEIVER, 1, at(12.95)));
    assert!(!has(&mut tracker, RECEIVER, 1, at(13.05)));
}

#[test]
fn a_zone_snapshot_never_replaces_the_inherited_offset() {
    let mut tracker = tracker();
    seed_skewed_epoch(&mut tracker, 3.5);
    tracker.clear();
    for (instance_id, occurrence) in [(1, -100.0), (2, -50.0)] {
        let mut snapshot = skewed_status(instance_id, 200.0, occurrence, 3.5 - occurrence);
        snapshot.created_before_zone = true;
        tracker.register_status_effect(snapshot);
    }
    assert_eq!(tracker.server_tick_epoch(), Some(at(-100.0)));
    assert!(has(&mut tracker, RECEIVER, 1, at(103.45)));
    assert!(!has(&mut tracker, RECEIVER, 1, at(103.55)));
    assert!(has(&mut tracker, RECEIVER, 2, at(153.45)));
    assert!(!has(&mut tracker, RECEIVER, 2, at(153.55)));
}

#[test]
fn source_reads_keep_an_expired_instance_until_the_fail_safe_leeway_passes() {
    let mut tracker = tracker();
    seed_server_tick_epoch(&mut tracker);
    tracker.register_status_effect(finite_status(RECEIVER, 1, 3.0, 0.0));
    assert!(read(&mut tracker, 1, at(2.9), DeadlineMode::HideExpired));
    assert!(!read(&mut tracker, 1, at(3.1), DeadlineMode::HideExpired));
    assert!(read(&mut tracker, 1, at(3.1), DeadlineMode::KeepUntilRemoved));
    assert!(read(&mut tracker, 1, at(3.0 + 999.9), DeadlineMode::KeepUntilRemoved));
    assert!(!read(&mut tracker, 1, at(3.0 + 1000.1), DeadlineMode::KeepUntilRemoved));
    assert!(!read(&mut tracker, 1, at(3.0 + 999.9), DeadlineMode::KeepUntilRemoved));
}

#[test]
fn hiding_expired_instances_of_a_source_read_yields_the_deadline_view() {
    let mut tracker = tracker();
    seed_server_tick_epoch(&mut tracker);
    tracker.register_status_effect(finite_status(RECEIVER, 1, 3.0, 0.0));
    tracker.register_status_effect(finite_status(RECEIVER, 2, 30.0, 0.0));
    let ids = |effects: &[StatusEffectDetails]| {
        let mut ids: Vec<u32> = effects.iter().map(|effect| effect.instance_id).collect();
        ids.sort_unstable();
        ids
    };
    let kept = tracker.actually_get_status_effects(RECEIVER, StatusEffectTargetType::Local, at(5.0), DeadlineMode::KeepUntilRemoved);
    assert_eq!(ids(&kept), vec![1, 2, 9001, 9002]);
    let hidden = tracker.actually_get_status_effects(RECEIVER, StatusEffectTargetType::Local, at(5.0), DeadlineMode::HideExpired);
    assert_eq!(ids(&hidden), vec![2]);
    assert_eq!(ids(&hide_expired(kept)), ids(&hidden));
}

#[test]
fn a_remove_packet_ends_an_expired_instance_for_source_reads() {
    let mut tracker = tracker();
    seed_server_tick_epoch(&mut tracker);
    tracker.register_status_effect(finite_status(RECEIVER, 1, 3.0, 0.0));
    assert!(read(&mut tracker, 1, at(5.0), DeadlineMode::KeepUntilRemoved));
    tracker.remove_status_effects(RECEIVER, vec![1], 0, StatusEffectTargetType::Local);
    assert!(!read(&mut tracker, 1, at(5.0), DeadlineMode::KeepUntilRemoved));
}

#[test]
fn hit_reads_keep_expired_attacker_buffs_and_hide_expired_target_effects() {
    let mut tracker = tracker();
    tracker.register_status_effect(finite_status(RECEIVER, 1, 1.0, -30.0));
    tracker.register_status_effect(finite_status(777, 2, 1.0, -30.0));
    let attacker = Entity { id: RECEIVER, entity_type: EntityType::Player, ..Default::default() };
    let target = Entity { id: 777, entity_type: EntityType::Boss, npc_id: 1, ..Default::default() };
    let (on_attacker, on_target) = tracker.get_status_effects(&attacker, &target, 0, &PartyIds::new());
    assert!(on_attacker.iter().any(|effect| effect.instance_id == 1));
    assert!(!on_target.iter().any(|effect| effect.instance_id == 2));
}

#[test]
fn updating_effects_of_an_owner_leaves_other_owners_alone() {
    let mut tracker = tracker();
    tracker.register_status_effect(finite_status(RECEIVER, 1, 30.0, 0.0));
    let mut foreign = finite_status(RECEIVER, 2, 30.0, 0.0);
    foreign.source_id = OWNER + 1;
    tracker.register_status_effect(foreign);
    tracker.update_effects_owned_by(OWNER, |effect: &StatusEffectDetails| StatusEffectDetails { value: 42, ..effect.clone() });
    assert_eq!(tracker.tracked_status_effect(&[RECEIVER], 1).map(|effect| effect.value), Some(42));
    assert_eq!(tracker.tracked_status_effect(&[RECEIVER], 2).map(|effect| effect.value), Some(0));
}

#[test]
fn a_seen_stat_source_change_stays_seen_until_clear() {
    let mut tracker = tracker();
    tracker.register_status_effect(identity_status(1, 310501, 31050, 30.0, 2.0));
    assert!(tracker.has_stat_source_changed_since(&[RECEIVER], STAT, at(1.0)));
    tracker.register_status_effect(finite_status(RECEIVER, 2, 30.0, 3.0));
    tracker.actually_get_status_effects(RECEIVER, StatusEffectTargetType::Local, at(40.0), DeadlineMode::HideExpired);
    tracker.remove_status_effects(RECEIVER, vec![2], 0, StatusEffectTargetType::Local);
    tracker.remove_local_object(OWNER);
    assert!(tracker.has_stat_source_changed_since(&[RECEIVER], STAT, at(1.0)));
    tracker.clear();
    assert!(!tracker.has_stat_source_changed_since(&[RECEIVER], STAT, at(1.0)));
}

#[test]
fn a_duration_of_zero_or_less_is_permanent() {
    let mut tracker = tracker();
    let mut status = finite_status(RECEIVER, 3, 30.0, 0.0);
    status.expiration_delay_ms = Some(-5_000);
    status.expiration_delay_bits = (-5.0f32).to_bits();
    status.end_tick_on_zone_clock = false;
    tracker.register_status_effect(status);
    assert!(has(&mut tracker, RECEIVER, 3, at(100_000.0)));
    assert!(tracker.tracked_status_effect(&[RECEIVER], 3).unwrap().is_infinite());
}

#[test]
fn effects_beyond_an_hour_or_not_positive_are_infinite() {
    let with = |seconds: f32| StatusEffectDetails { expiration_delay_bits: seconds.to_bits(), ..Default::default() };
    assert!(with(3600.0004).is_infinite());
    assert!(!with(3600.0).is_infinite());
    assert!(!with(30.0).is_infinite());
    assert!(with(0.0).is_infinite());
    assert!(with(-0.0).is_infinite());
    assert!(with(-12.5).is_infinite());
    assert!(with(f32::INFINITY).is_infinite());
    assert!(!with(f32::NAN).is_infinite());
}

#[test]
fn a_duration_under_a_millisecond_is_finite() {
    let mut tracker = tracker();
    let mut status = finite_status(RECEIVER, 4, 30.0, 0.0);
    status.expiration_delay_ms = Some(0);
    status.end_tick_on_zone_clock = false;
    tracker.register_status_effect(status);
    assert!(!has(&mut tracker, RECEIVER, 4, at(1.0)));
}
