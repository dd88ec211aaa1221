//! Status effect instances tracked per target, with deadlines on the server
//! clock.
//!
//! Every instant is a UTC instant in nanoseconds (see `clock`). A finite
//! instance's deadline is its server end tick read through the tick epoch
//! (the UTC instant of tick 0), or else its nominal duration counted from its
//! arrival read on the server clock. Deadlines meet the local clock through
//! the smallest local-arrival-minus-occurrence sample seen since the zone
//! change.
use crate::live::clock::{
    add_millis_saturating, add_or_keep, spec_add_millis_saturating, spec_add_or_keep, spec_sub_or_keep, sub_or_keep, valid_span,
    spec_whole_millis, utc_now, valid_instant, whole_millis, MAX_UTC_NANOS, MIN_UTC_NANOS, NANOS_PER_MILLI, NANOS_PER_SECOND,
};
use crate::live::effect_maps::{
    effects_on, lists_entries, lists_keys, EffectRegistry, ObjectIdSet, RetainedEffects, StatSourceChanges,
};
use crate::models::entity::{Entity, EntityType};
use crate::text::str_eq;
use crate::models::tables::PartyIds;
use vstd::prelude::*;
pub use crate::live::status_build::{build_status_effect, StatusEffectData};

verus! {

pub const WORKSHOP_BUFF_ID: u32 = 9701;

pub const INFINITE_SERVER_TICK: u64 = 18446744073709551615u64;

/// Two epoch candidates corroborate when they agree to within this many
/// milliseconds and their occurrences lie further apart than this.
pub const SERVER_TICK_EPOCH_CORROBORATION_MS: i128 = 50i128;

pub const SERVER_TICK_EPOCH_CANDIDATE_COUNT: usize = 8usize;

/// Leeway past a deadline after which an instance the server never removed is
/// dropped for every reader.
pub const FAIL_SAFE_EXPIRY_LEEWAY_SECONDS: i128 = 1000i128;

/// How a reader treats an instance past its deadline.
#[derive(Debug, Clone, Copy, PartialEq, Eq, Structural)]
pub enum DeadlineMode {
    HideExpired,
    KeepUntilRemoved,
}

/// The receiver-side stat sheet stats whose buff sources are tracked.
#[derive(Debug, Clone, Copy, PartialEq, Eq, Hash, Structural)]
pub enum StatType {
    SkillDamageSubRate1,
    SkillDamageSubRate2,
    Other,
}

/// The stats whose sources `has_stat_source_changed_since` answers for.
pub open spec fn is_identity_stat_type(stat_type: StatType) -> bool {
    stat_type == StatType::SkillDamageSubRate1 || stat_type == StatType::SkillDamageSubRate2
}

pub open spec fn spec_identity_stat_key(stat_type: StatType) -> Seq<char> {
    match stat_type {
        StatType::SkillDamageSubRate1 => "skill_damage_sub_rate_1"@,
        StatType::SkillDamageSubRate2 => "skill_damage_sub_rate_2"@,
        StatType::Other => ""@,
    }
}

/// The passive stat key of an identity stat, empty for any other stat.
pub fn identity_stat_key(stat_type: StatType) -> (r: &'static str)
    ensures
        r@ == spec_identity_stat_key(stat_type),
{
    proof {
        reveal_strlit("skill_damage_sub_rate_1");
        reveal_strlit("skill_damage_sub_rate_2");
        reveal_strlit("");
    }
    match stat_type {
        StatType::SkillDamageSubRate1 => "skill_damage_sub_rate_1",
        StatType::SkillDamageSubRate2 => "skill_damage_sub_rate_2",
        StatType::Other => "",
    }
}

/// Applied value of a buff's passive stat measured from a receiver's stat
/// sheet; it replaces the computed value for the life of the instance.
#[derive(Debug, Clone, Copy, PartialEq, Eq, Structural)]
pub struct MeasuredStat {
    pub stat_type: StatType,
    pub value: i64,
}

#[derive(Debug, Clone, Copy, PartialEq, Eq, Structural)]
pub enum StatusEffectTargetType {
    Party,
    Local,
}

#[derive(Debug, Clone, Copy, PartialEq, Eq, Structural)]
pub enum StatusEffectCategory {
    Other,
    Debuff,
}

#[derive(Debug, Clone, Copy, PartialEq, Eq, Structural)]
pub enum StatusEffectBuffCategory {
    Other,
    Bracelet,
    Etc,
    BattleItem,
    Elixir,
}

#[derive(Debug, Clone, Copy, PartialEq, Eq, Structural)]
pub enum StatusEffectShowType {
    Other,
    All,
}

#[derive(Debug, Clone, Copy, PartialEq, Eq, Structural)]
pub enum StatusEffectType {
    Shield,
    Other,
    HardCrowdControl,
}

/// The bit pattern of the `f32` 3600.0 (one hour in seconds).
pub const F32_HOUR_BITS: u32 = 0x4561_0000u32;

/// The bit pattern of the `f32` positive infinity; a larger magnitude is a
/// NaN.
pub const F32_INFINITY_BITS: u32 = 0x7F80_0000u32;

/// Whether the `f32` with bit pattern `bits` is zero or less, or more than
/// 3600.0: not a NaN, and zero, negative, or of a larger magnitude than
/// 3600.0 (the order of non-negative `f32` values is that of their bit
/// patterns).
pub open spec fn spec_f32_outside_hour(bits: u32) -> bool {
    let magnitude = bits % 0x8000_0000u32;
    magnitude <= F32_INFINITY_BITS && (magnitude == 0 || bits >= 0x8000_0000u32 || magnitude > F32_HOUR_BITS)
}

/// One tracked status effect instance.
///
/// `expiration_delay_bits` is the nominal duration in seconds as the packet
/// gives it, an `f32` held by its bit pattern; `expiration_delay_ms` is that
/// duration in whole milliseconds, `None` (or a negative count) for a
/// permanent instance. The owner's player stats snapshot
/// and the source skill's runtime data at creation are held by the caller; the
/// instance carries the keys under which the caller holds them.
/// `provides_skill_damage_sub_rate_1`/`_2` say whether the buff's passive
/// options provide that identity stat.
#[derive(Debug, Clone)]
pub struct StatusEffectDetails {
    pub instance_id: u32,
    pub status_effect_id: u32,
    pub custom_id: u32,
    pub target_id: u64,
    pub source_id: u64,
    pub source_skill_id: Option<u32>,
    pub target_type: StatusEffectTargetType,
    pub db_target_type: String,
    pub skill_level: u8,
    pub buff_type_flags: u32,
    pub value: u64,
    pub stack_count: u8,
    pub category: StatusEffectCategory,
    pub buff_category: StatusEffectBuffCategory,
    pub show_type: StatusEffectShowType,
    pub status_effect_type: StatusEffectType,
    pub expiration_delay_ms: Option<i64>,
    pub expiration_delay_bits: u32,
    pub expire_at: Option<i128>,
    pub end_tick: u64,
    pub occur_time: i128,
    pub timestamp: i128,
    pub name: String,
    pub unique_group: u32,
    pub owner_player_stats_snapshot: Option<u64>,
    pub source_skill_runtime_snapshot: Option<u64>,
    pub owner_is_player: bool,
    pub first_tracked: i128,
    pub created_before_zone: bool,
    pub measured_stat: Option<MeasuredStat>,
    pub end_tick_on_zone_clock: bool,
    pub packet_expired: bool,
    pub provides_skill_damage_sub_rate_1: bool,
    pub provides_skill_damage_sub_rate_2: bool,
}

impl StatusEffectDetails {
    /// Instants are valid.
    pub open spec fn wf(&self) -> bool {
        &&& valid_instant(self.occur_time as int)
        &&& valid_instant(self.timestamp as int)
        &&& valid_instant(self.first_tracked as int)
        &&& (self.expire_at matches Some(t) ==> valid_instant(t as int))
    }

    pub open spec fn provides(&self, stat_type: StatType) -> bool {
        match stat_type {
            StatType::SkillDamageSubRate1 => self.provides_skill_damage_sub_rate_1,
            StatType::SkillDamageSubRate2 => self.provides_skill_damage_sub_rate_2,
            StatType::Other => false,
        }
    }

    /// Whether the nominal duration is zero or less, or longer than an hour
    /// (a NaN duration is neither).
    pub fn is_infinite(&self) -> (r: bool)
        ensures
            r == spec_f32_outside_hour(self.expiration_delay_bits),
    {
        let b = self.expiration_delay_bits;
        let magnitude = b & 0x7FFF_FFFFu32;
        let negative = b >= 0x8000_0000u32;
        proof {
            assert(b & 0x7FFF_FFFFu32 == b % 0x8000_0000u32) by (bit_vector);
        }
        magnitude <= F32_INFINITY_BITS && (magnitude == 0 || negative || magnitude > F32_HOUR_BITS)
    }

    /// A field-by-field copy.
    pub fn duplicate(&self) -> (r: Self)
        ensures
            r == *self,
    {
        StatusEffectDetails {
            instance_id: self.instance_id,
            status_effect_id: self.status_effect_id,
            custom_id: self.custom_id,
            target_id: self.target_id,
            source_id: self.source_id,
            source_skill_id: self.source_skill_id,
            target_type: self.target_type,
            db_target_type: self.db_target_type.clone(),
            skill_level: self.skill_level,
            buff_type_flags: self.buff_type_flags,
            value: self.value,
            stack_count: self.stack_count,
            category: self.category,
            buff_category: self.buff_category,
            show_type: self.show_type,
            status_effect_type: self.status_effect_type,
            expiration_delay_ms: self.expiration_delay_ms,
            expiration_delay_bits: self.expiration_delay_bits,
            expire_at: self.expire_at,
            end_tick: self.end_tick,
            occur_time: self.occur_time,
            timestamp: self.timestamp,
            name: self.name.clone(),
            unique_group: self.unique_group,
            owner_player_stats_snapshot: self.owner_player_stats_snapshot,
            source_skill_runtime_snapshot: self.source_skill_runtime_snapshot,
            owner_is_player: self.owner_is_player,
            first_tracked: self.first_tracked,
            created_before_zone: self.created_before_zone,
            measured_stat: self.measured_stat,
            end_tick_on_zone_clock: self.end_tick_on_zone_clock,
            packet_expired: self.packet_expired,
            provides_skill_damage_sub_rate_1: self.provides_skill_damage_sub_rate_1,
            provides_skill_damage_sub_rate_2: self.provides_skill_damage_sub_rate_2,
        }
    }
}

impl Default for StatusEffectDetails {
    fn default() -> (r: Self)
        ensures
            r.instance_id == 0 && r.status_effect_id == 0 && r.custom_id == 0,
            r.target_id == 0 && r.source_id == 0 && r.source_skill_id is None,
            r.target_type == StatusEffectTargetType::Party,
            r.db_target_type@ == Seq::<char>::empty(),
            r.skill_level == 0 && r.buff_type_flags == 0 && r.value == 0 && r.stack_count == 0,
            r.category == StatusEffectCategory::Other,
            r.buff_category == StatusEffectBuffCategory::Other,
            r.show_type == StatusEffectShowType::Other,
            r.status_effect_type == StatusEffectType::Shield,
            r.expiration_delay_ms is None && r.expiration_delay_bits == 0 && r.expire_at is None && r.end_tick == 0,
            r.occur_time == 0 && r.timestamp == 0 && r.first_tracked == 0,
            r.name@ == Seq::<char>::empty(),
            r.unique_group == 0,
            r.owner_player_stats_snapshot is None && r.source_skill_runtime_snapshot is None,
            !r.owner_is_player && !r.created_before_zone && r.measured_stat is None,
            !r.end_tick_on_zone_clock && !r.packet_expired,
            !r.provides_skill_damage_sub_rate_1 && !r.provides_skill_damage_sub_rate_2,
    {
        StatusEffectDetails {
            instance_id: 0,
            status_effect_id: 0,
            custom_id: 0,
            target_id: 0,
            source_id: 0,
            source_skill_id: None,
            target_type: StatusEffectTargetType::Party,
            db_target_type: String::new(),
            skill_level: 0,
            buff_type_flags: 0,
            value: 0,
            stack_count: 0,
            category: StatusEffectCategory::Other,
            buff_category: StatusEffectBuffCategory::Other,
            show_type: StatusEffectShowType::Other,
            status_effect_type: StatusEffectType::Shield,
            expiration_delay_ms: None,
            expiration_delay_bits: 0,
            expire_at: None,
            end_tick: 0,
            occur_time: 0,
            timestamp: 0,
            name: String::new(),
            unique_group: 0,
            owner_player_stats_snapshot: None,
            source_skill_runtime_snapshot: None,
            owner_is_player: false,
            first_tracked: 0,
            created_before_zone: false,
            measured_stat: None,
            end_tick_on_zone_clock: false,
            packet_expired: false,
            provides_skill_damage_sub_rate_1: false,
            provides_skill_damage_sub_rate_2: false,
        }
    }
}

} // verus!

verus! {

/// Whether an instance has a finite nominal duration: a millisecond count
/// that is not negative (a duration shorter than a millisecond counts as
/// zero milliseconds; a negative count stands for a permanent effect).
pub open spec fn spec_has_finite_duration(delay_ms: Option<i64>) -> bool {
    delay_ms matches Some(ms) && ms >= 0
}

pub fn has_finite_duration(delay_ms: Option<i64>) -> (r: bool)
    ensures
        r == spec_has_finite_duration(delay_ms),
{
    match delay_ms {
        Some(ms) => ms >= 0,
        None => false,
    }
}

/// `start` plus a finite nominal duration, held at the latest instant; none
/// for a permanent effect.
pub open spec fn spec_add_duration_clamped(start: int, delay_ms: Option<i64>) -> Option<int> {
    match delay_ms {
        Some(ms) if ms >= 0 => Some(spec_add_millis_saturating(start, ms as int)),
        _ => None,
    }
}

pub fn add_duration_clamped(start: i128, delay_ms: Option<i64>) -> (r: Option<i128>)
    requires
        valid_instant(start as int),
    ensures
        r matches Some(t) ==> valid_instant(t as int),
        r is Some == spec_add_duration_clamped(start as int, delay_ms) is Some,
        r matches Some(t) ==> spec_add_duration_clamped(start as int, delay_ms) == Some(t as int),
{
    match delay_ms {
        Some(ms) if ms >= 0 => Some(add_millis_saturating(start, ms)),
        _ => None,
    }
}

/// The UTC instant of server tick `end_tick`, when the tick epoch is known and
/// the tick is finite and fits a signed millisecond count.
pub open spec fn spec_server_end_time(epoch: Option<i128>, end_tick: u64) -> Option<int> {
    if end_tick == INFINITE_SERVER_TICK {
        None
    } else {
        match epoch {
            None => None,
            Some(e) => if end_tick > i64::MAX {
                None
            } else {
                Some(spec_add_millis_saturating(e as int, end_tick as int))
            },
        }
    }
}

/// A local instant read on the server clock.
pub open spec fn spec_local_to_server(offset: Option<i128>, local: int) -> int {
    match offset {
        None => local,
        Some(o) => spec_sub_or_keep(local, o as int),
    }
}

/// A server instant read on the local clock.
pub open spec fn spec_server_to_local(offset: Option<i128>, server: int) -> int {
    match offset {
        None => server,
        Some(o) => spec_add_or_keep(server, o as int),
    }
}

/// The deadline of `se` on the server clock.
pub open spec fn spec_expire_at_for(epoch: Option<i128>, offset: Option<i128>, se: StatusEffectDetails) -> Option<int> {
    if !spec_has_finite_duration(se.expiration_delay_ms) {
        None
    } else if se.end_tick_on_zone_clock && spec_server_end_time(epoch, se.end_tick) is Some {
        spec_server_end_time(epoch, se.end_tick)
    } else {
        spec_add_duration_clamped(spec_local_to_server(offset, se.timestamp as int), se.expiration_delay_ms)
    }
}

/// The clock offset estimate and its inherited flag after a status notify.
pub open spec fn spec_observe_offset(offset: Option<i128>, inherited: bool, se: StatusEffectDetails) -> (Option<i128>, bool) {
    if se.occur_time == 0 {
        (offset, inherited)
    } else {
        let sample = se.timestamp - se.occur_time;
        if (inherited && !se.created_before_zone) || offset is None || sample < offset->0 {
            (Some(sample as i128), false)
        } else {
            (offset, inherited)
        }
    }
}

/// Whole milliseconds in the magnitude of a duration.
pub open spec fn spec_abs_millis(d: int) -> int {
    if d >= 0 {
        d / (NANOS_PER_MILLI as int)
    } else {
        (-d) / (NANOS_PER_MILLI as int)
    }
}

/// Whether a recorded candidate `(rc, ro)` corroborates the candidate epoch `c`
/// seen at occurrence `o`: the two agree and come from different moments.
pub open spec fn corroborates(c: int, o: int, rc: int, ro: int) -> bool {
    spec_abs_millis(o - ro) > SERVER_TICK_EPOCH_CORROBORATION_MS && spec_abs_millis(c - rc)
        <= SERVER_TICK_EPOCH_CORROBORATION_MS
}

/// The first index from `j` on whose recorded candidate corroborates `(c, o)`,
/// or the length when none does.
pub open spec fn first_corroborating(cands: Seq<Option<(i128, i128)>>, c: int, o: int, j: int) -> int
    decreases cands.len() - j,
{
    if j >= cands.len() {
        cands.len() as int
    } else {
        match cands[j] {
            Some(rec) => if corroborates(c, o, rec.0 as int, rec.1 as int) {
                j
            } else {
                first_corroborating(cands, c, o, j + 1)
            },
            None => first_corroborating(cands, c, o, j + 1),
        }
    }
}

/// The candidate epoch implied by a finite instance, when its occurrence is
/// known and the subtraction stays in range.
pub open spec fn spec_candidate_epoch(se: StatusEffectDetails) -> Option<int> {
    if se.end_tick == INFINITE_SERVER_TICK || !spec_has_finite_duration(se.expiration_delay_ms)
        || se.end_tick > i64::MAX || se.occur_time == 0 {
        None
    } else {
        let end_time = spec_add_millis_saturating(se.occur_time as int, se.expiration_delay_ms->0 as int);
        let c = end_time - se.end_tick * NANOS_PER_MILLI;
        if valid_instant(c) {
            Some(c)
        } else {
            None
        }
    }
}

/// The state of the tick epoch estimate.
pub struct EpochState {
    pub epoch: Option<i128>,
    pub candidates: Seq<Option<(i128, i128)>>,
    pub cursor: int,
}

/// The epoch state after a status notify, and whether a later epoch was adopted.
pub open spec fn spec_observe_epoch(st: EpochState, se: StatusEffectDetails) -> (EpochState, bool) {
    match spec_candidate_epoch(se) {
        None => (st, false),
        Some(c) => if st.epoch is Some && spec_whole_millis(c - st.epoch->0) <= SERVER_TICK_EPOCH_CORROBORATION_MS {
            (st, false)
        } else {
            let j = first_corroborating(st.candidates, c, se.occur_time as int, 0);
            if j < st.candidates.len() {
                let rec = st.candidates[j]->0;
                let rc = rec.0 as int;
                (EpochState {
                    epoch: Some((if c >= rc { c } else { rc }) as i128),
                    candidates: Seq::new(SERVER_TICK_EPOCH_CANDIDATE_COUNT as nat, |i: int| None),
                    cursor: st.cursor,
                }, true)
            } else {
                (EpochState {
                    epoch: st.epoch,
                    candidates: st.candidates.update(st.cursor, Some((c as i128, se.occur_time))),
                    cursor: (st.cursor + 1) % (SERVER_TICK_EPOCH_CANDIDATE_COUNT as int),
                }, false)
            }
        },
    }
}

/// Instants recorded as stat source changes, after recording `at` for every
/// key that `touched` holds: a recorded instant never moves back.
pub open spec fn noted_changes(
    changes: Map<(u64, StatType), i128>,
    touched: spec_fn((u64, StatType)) -> bool,
    at: i128,
) -> Map<(u64, StatType), i128> {
    Map::new(
        |k: (u64, StatType)| changes.dom().contains(k) || touched(k),
        |k: (u64, StatType)|
            if touched(k) {
                if changes.dom().contains(k) && changes[k] > at {
                    changes[k]
                } else {
                    at
                }
            } else {
                changes[k]
            },
    )
}

/// Whether every stat source change recorded in `before` is still recorded in
/// `after`, at the same instant or a later one.
pub open spec fn changes_kept(before: Map<(u64, StatType), i128>, after: Map<(u64, StatType), i128>) -> bool {
    forall|k: (u64, StatType)| #[trigger] before.dom().contains(k) ==> after.dom().contains(k) && after[k] >= before[k]
}

/// Whether a change of `stat_type` on one of `target_ids` is recorded at
/// `since` or later.
pub open spec fn changed_since(changes: Map<(u64, StatType), i128>, target_ids: Seq<u64>, stat_type: StatType, since: i128) -> bool {
    exists|j: int|
        0 <= j < target_ids.len() && #[trigger] changes.dom().contains((target_ids[j], stat_type)) && changes[(target_ids[j], stat_type)]
            >= since
}

/// A stat source change, once seen, stays seen: every method of the tracker
/// but `clear` keeps the recorded changes (`changes_kept` in its `ensures`,
/// and kept twice is kept, `lemma_changes_kept_trans`), so after any sequence
/// of such calls `has_stat_source_changed_since` still answers true.
pub proof fn seen_stat_source_change_stays_seen(
    before: Map<(u64, StatType), i128>,
    after: Map<(u64, StatType), i128>,
    target_ids: Seq<u64>,
    stat_type: StatType,
    since: i128,
)
    requires
        changes_kept(before, after),
        changed_since(before, target_ids, stat_type, since),
    ensures
        changed_since(after, target_ids, stat_type, since),
{
    let j = choose|j: int|
        0 <= j < target_ids.len() && #[trigger] before.dom().contains((target_ids[j], stat_type)) && before[(target_ids[j], stat_type)]
            >= since;
    assert(after.dom().contains((target_ids[j], stat_type)));
}

/// Recording changes keeps every recorded change.
pub broadcast proof fn lemma_noted_keeps(changes: Map<(u64, StatType), i128>, touched: spec_fn((u64, StatType)) -> bool, at: i128)
    ensures
        #[trigger] changes_kept(changes, noted_changes(changes, touched, at)),
{
}

/// Keeping changes twice keeps them.
pub proof fn lemma_changes_kept_trans(
    a: Map<(u64, StatType), i128>,
    b: Map<(u64, StatType), i128>,
    c: Map<(u64, StatType), i128>,
)
    requires
        changes_kept(a, b),
        changes_kept(b, c),
    ensures
        changes_kept(a, c),
{
}

/// The keys that a change of `se` on `target` touches.
pub open spec fn touched_by(target: u64, se: StatusEffectDetails) -> spec_fn((u64, StatType)) -> bool {
    |k: (u64, StatType)| k.0 == target && is_identity_stat_type(k.1) && se.provides(k.1)
}

/// Whether an instance is visible at server instant `now`.
pub open spec fn visible_at(packet_expired: bool, expire_at: Option<i128>, now: int) -> bool {
    !packet_expired && (expire_at is None || expire_at->0 > now)
}

/// An instance with its deadline moved, and whether that changed its
/// visibility at `now`.
pub open spec fn spec_apply_deadline(effect: StatusEffectDetails, deadline: Option<i128>, now: int) -> (StatusEffectDetails, bool) {
    let was_visible = visible_at(effect.packet_expired, effect.expire_at, now);
    let is_visible = deadline is None || deadline->0 > now;
    (StatusEffectDetails { expire_at: deadline, packet_expired: !is_visible, ..effect }, was_visible != is_visible)
}

/// Moves an instance's deadline and reports the instance when its visibility at
/// `now` changed.
pub fn apply_deadline(effect: &mut StatusEffectDetails, deadline: Option<i128>, now: i128) -> (r: Option<StatusEffectDetails>)
    ensures
        *final(effect) == spec_apply_deadline(*old(effect), deadline, now as int).0,
        r is Some == spec_apply_deadline(*old(effect), deadline, now as int).1,
        r matches Some(e) ==> e == *final(effect),
{
    let was_visible = !effect.packet_expired && match effect.expire_at {
        None => true,
        Some(expire_at) => expire_at > now,
    };
    effect.expire_at = deadline;
    let is_visible = match deadline {
        None => true,
        Some(expire_at) => expire_at > now,
    };
    effect.packet_expired = !is_visible;
    if was_visible != is_visible {
        Some(effect.duplicate())
    } else {
        None
    }
}

/// An instance after the tick epoch `epoch` re-derived its deadline from its
/// server end tick, and whether that changed its visibility at `now`.
pub open spec fn spec_refresh_effect(effect: StatusEffectDetails, epoch: i128, now: int) -> (StatusEffectDetails, bool) {
    if !effect.end_tick_on_zone_clock || effect.end_tick == INFINITE_SERVER_TICK || !spec_has_finite_duration(
        effect.expiration_delay_ms,
    ) || effect.end_tick > i64::MAX {
        (effect, false)
    } else {
        spec_apply_deadline(effect, Some(spec_add_millis_saturating(epoch as int, effect.end_tick as int) as i128), now)
    }
}

pub open spec fn refreshed_registry(reg: Map<u64, Map<u32, StatusEffectDetails>>, epoch: i128, now: int) -> Map<u64, Map<u32, StatusEffectDetails>> {
    reg.map_values(|effects: Map<u32, StatusEffectDetails>| effects.map_values(|e: StatusEffectDetails| spec_refresh_effect(e, epoch, now).0))
}

/// Whether some instance on `k.0` in `reg` changed visibility in a refresh and
/// provides the identity stat `k.1`.
pub open spec fn refresh_touches(reg: Map<u64, Map<u32, StatusEffectDetails>>, epoch: i128, now: int, k: (u64, StatType)) -> bool {
    &&& is_identity_stat_type(k.1)
    &&& reg.dom().contains(k.0)
    &&& exists|id: u32| #[trigger] reg[k.0].dom().contains(id) && spec_refresh_effect(reg[k.0][id], epoch, now).1 && reg[k.0][id].provides(k.1)
}

/// Pins `measured` on `effect` when it is the same server-side instance as `sampled`.
pub open spec fn same_instance(effect: StatusEffectDetails, sampled: StatusEffectDetails) -> bool {
    effect.instance_id == sampled.instance_id && effect.status_effect_id == sampled.status_effect_id
        && effect.source_id == sampled.source_id && effect.first_tracked == sampled.first_tracked
}

pub fn apply_measured_stat(effect: &mut StatusEffectDetails, sampled: &StatusEffectDetails, measured: MeasuredStat) -> (r: bool)
    ensures
        r == (same_instance(*old(effect), *sampled) && old(effect).measured_stat is None),
        *final(effect) == (if r {
            StatusEffectDetails { measured_stat: Some(measured), ..*old(effect) }
        } else {
            *old(effect)
        }),
{
    if effect.instance_id != sampled.instance_id || effect.status_effect_id != sampled.status_effect_id
        || effect.source_id != sampled.source_id || effect.first_tracked != sampled.first_tracked
        || effect.measured_stat.is_some() {
        return false;
    }
    effect.measured_stat = Some(measured);
    true
}

/// Whether an instance is shown by a `HideExpired` read: it is not marked
/// expired.
pub open spec fn shown_filter() -> spec_fn(StatusEffectDetails) -> bool {
    |e: StatusEffectDetails| !e.packet_expired
}

/// The `HideExpired` view of a `KeepUntilRemoved` read taken at the same moment.
pub fn hide_expired(effects: Vec<StatusEffectDetails>) -> (r: Vec<StatusEffectDetails>)
    ensures
        r@ == effects@.filter(shown_filter()),
{
    let mut out: Vec<StatusEffectDetails> = Vec::new();
    let mut i: usize = 0;
    while i < effects.len()
        invariant
            i <= effects@.len(),
            out@ == effects@.subrange(0, i as int).filter(shown_filter()),
        decreases effects@.len() - i,
    {
        proof {
            reveal_with_fuel(Seq::filter, 1);
            assert(effects@.subrange(0, i + 1).drop_last() == effects@.subrange(0, i as int));
        }
        if !effects[i].packet_expired {
            out.push(effects[i].duplicate());
        }
        i = i + 1;
    }
    proof {
        assert(effects@.subrange(0, effects@.len() as int) == effects@);
    }
    out
}

/// The smaller of the two little-endian 64-bit words a status effect value
/// carries; a missing word reads as zero.
pub open spec fn le_word(v: Seq<u8>, start: int) -> int {
    v[start] + 256 * (v[start + 1] + 256 * (v[start + 2] + 256 * (v[start + 3] + 256 * (v[start + 4] + 256 * (
    v[start + 5] + 256 * (v[start + 6] + 256 * v[start + 7]))))))
}

pub open spec fn spec_status_effect_value(value: Option<Seq<u8>>) -> int {
    match value {
        None => 0,
        Some(v) => {
            let c1 = if v.len() >= 8 { le_word(v, 0) } else { 0 };
            let c2 = if v.len() >= 16 { le_word(v, 8) } else { 0 };
            if c1 <= c2 { c1 } else { c2 }
        },
    }
}

fn read_le_word(v: &Vec<u8>, start: usize) -> (r: u64)
    requires
        start + 8 <= v@.len(),
    ensures
        r == le_word(v@, start as int),
{
    let mut acc: u64 = 0;
    let mut k: usize = 8;
    while k > 0
        invariant
            k <= 8,
            start + 8 <= v.len(),
            acc as int == (if k == 8 { 0 } else { le_word_from(v@, start as int, k as int) }),
            acc < pow256(8 - k),
        decreases k,
    {
        k = k - 1;
        let byte = v[start + k];
        proof {
            lemma_le_word_step(v@, start as int, k as int, acc as int);
        }
        acc = acc * 256 + (byte as u64);
    }
    proof {
        lemma_le_word_full(v@, start as int);
    }
    acc
}

/// The bytes from `k` to 7 of the word at `start`, little-endian.
pub open spec fn le_word_from(v: Seq<u8>, start: int, k: int) -> int
    decreases 8 - k,
{
    if k >= 8 {
        0
    } else {
        v[start + k] + 256 * le_word_from(v, start, k + 1)
    }
}

pub open spec fn pow256(n: int) -> int
    decreases n,
{
    if n <= 0 {
        1
    } else {
        256 * pow256(n - 1)
    }
}

proof fn lemma_le_word_step(v: Seq<u8>, start: int, k: int, acc: int)
    requires
        0 <= k < 8,
        acc == (if k + 1 == 8 { 0 } else { le_word_from(v, start, k + 1) }),
        acc < pow256(8 - (k + 1)),
    ensures
        acc * 256 + v[start + k] == le_word_from(v, start, k),
        acc * 256 + v[start + k] < pow256(8 - k),
        acc * 256 + v[start + k] <= u64::MAX,
{
    reveal_with_fuel(pow256, 9);
    reveal_with_fuel(le_word_from, 2);
    assert(0 <= v[start + k] < 256);
    assert(acc * 256 + v[start + k] < pow256(8 - k)) by (nonlinear_arith)
        requires
            acc < pow256(8 - (k + 1)),
            0 <= v[start + k] < 256,
            pow256(8 - k) == 256 * pow256(8 - (k + 1)),
    ;
    assert(pow256(8 - k) <= pow256(8)) by {
        reveal_with_fuel(pow256, 9);
    }
}

proof fn lemma_le_word_full(v: Seq<u8>, start: int)
    ensures
        le_word_from(v, start, 0) == le_word(v, start),
{
    reveal_with_fuel(le_word_from, 9);
}

/// The status effect value a packet carries.
pub fn get_status_effect_value(value: &Option<Vec<u8>>) -> (r: u64)
    ensures
        r == spec_status_effect_value(match value {
            Some(v) => Some(v@),
            None => None,
        }),
{
    match value {
        None => 0,
        Some(v) => {
            let c1: u64 = if v.len() >= 8 { read_le_word(v, 0) } else { 0 };
            let c2: u64 = if v.len() >= 16 { read_le_word(v, 8) } else { 0 };
            if c1 <= c2 { c1 } else { c2 }
        },
    }
}

pub open spec fn spec_remap_effective_unique_group(status_effect_id: u32, unique_group: u32) -> u32 {
    if status_effect_id == 2360068 || status_effect_id == 2360124 {
        0
    } else if status_effect_id == 2360125 {
        360102
    } else {
        unique_group
    }
}

/// The unique group that decides which of a group's instances applies; the
/// Paladin self aura pieces stay independent from the party aura group.
pub fn remap_effective_unique_group(status_effect_id: u32, unique_group: u32) -> (r: u32)
    ensures
        r == spec_remap_effective_unique_group(status_effect_id, unique_group),
{
    match status_effect_id {
        2360068 | 2360124 => 0,
        2360125 => 360102,
        _ => unique_group,
    }
}

} // verus!

verus! {

/// What a `StatusTracker` holds.
pub struct TrackerView {
    pub local: Map<u64, Map<u32, StatusEffectDetails>>,
    pub party: Map<u64, Map<u32, StatusEffectDetails>>,
    pub retained: Map<u32, StatusEffectDetails>,
    pub published: Set<u64>,
    pub changes: Map<(u64, StatType), i128>,
    pub epoch: EpochState,
    pub offset: Option<i128>,
    pub inherited: bool,
}

impl TrackerView {
    pub open spec fn registry(self, target_type: StatusEffectTargetType) -> Map<u64, Map<u32, StatusEffectDetails>> {
        match target_type {
            StatusEffectTargetType::Local => self.local,
            StatusEffectTargetType::Party => self.party,
        }
    }

    pub open spec fn with_registry(self, target_type: StatusEffectTargetType, reg: Map<u64, Map<u32, StatusEffectDetails>>) -> Self {
        match target_type {
            StatusEffectTargetType::Local => TrackerView { local: reg, ..self },
            StatusEffectTargetType::Party => TrackerView { party: reg, ..self },
        }
    }

    pub open spec fn to_server(self, local: int) -> int {
        spec_local_to_server(self.offset, local)
    }
}

/// Every instance in a registry is well formed.
pub open spec fn registry_wf(reg: Map<u64, Map<u32, StatusEffectDetails>>) -> bool {
    forall|t: u64, id: u32| #[trigger] reg.dom().contains(t) && reg[t].dom().contains(id) ==> #[trigger] reg[t][id].wf()
}

pub open spec fn retained_wf(ret: Map<u32, StatusEffectDetails>) -> bool {
    forall|id: u32| #[trigger] ret.dom().contains(id) ==> ret[id].wf()
}

pub open spec fn candidate_wf(c: Option<(i128, i128)>) -> bool {
    match c {
        Some(rec) => valid_instant(rec.0 as int) && valid_instant(rec.1 as int),
        None => true,
    }
}

pub open spec fn epoch_wf(st: EpochState) -> bool {
    &&& st.candidates.len() == SERVER_TICK_EPOCH_CANDIDATE_COUNT
    &&& 0 <= st.cursor < SERVER_TICK_EPOCH_CANDIDATE_COUNT
    &&& (st.epoch matches Some(e) ==> valid_instant(e as int))
    &&& forall|i: int| 0 <= i < st.candidates.len() ==> candidate_wf(#[trigger] st.candidates[i])
}

impl TrackerView {
    pub open spec fn wf(self) -> bool {
        &&& registry_wf(self.local)
        &&& registry_wf(self.party)
        &&& retained_wf(self.retained)
        &&& epoch_wf(self.epoch)
        &&& (self.offset matches Some(o) ==> valid_span(o as int))
        &&& forall|k: (u64, StatType)| #[trigger] self.changes.dom().contains(k) ==> valid_instant(self.changes[k] as int)
    }
}

/// Status effect instances on local objects and on party members, with the
/// server clock estimates that place their deadlines.
pub struct StatusTracker {
    local_status_effect_registry: EffectRegistry,
    party_status_effect_registry: EffectRegistry,
    retained_entries_by_instance_id: RetainedEffects,
    zone_published_object_ids: ObjectIdSet,
    stat_source_change_at: StatSourceChanges,
    server_tick_epoch: Option<i128>,
    server_tick_epoch_candidates: Vec<Option<(i128, i128)>>,
    server_tick_epoch_candidate_cursor: usize,
    server_clock_offset: Option<i128>,
    server_clock_offset_inherited: bool,
}

impl View for StatusTracker {
    type V = TrackerView;

    closed spec fn view(&self) -> TrackerView {
        TrackerView {
            local: self.local_status_effect_registry.contents(),
            party: self.party_status_effect_registry.contents(),
            retained: self.retained_entries_by_instance_id.contents(),
            published: self.zone_published_object_ids.contents(),
            changes: self.stat_source_change_at.contents(),
            epoch: EpochState {
                epoch: self.server_tick_epoch,
                candidates: self.server_tick_epoch_candidates@,
                cursor: self.server_tick_epoch_candidate_cursor as int,
            },
            offset: self.server_clock_offset,
            inherited: self.server_clock_offset_inherited,
        }
    }
}

/// A fresh candidate list.
fn empty_candidates() -> (r: Vec<Option<(i128, i128)>>)
    ensures
        r@ == Seq::new(SERVER_TICK_EPOCH_CANDIDATE_COUNT as nat, |i: int| None::<(i128, i128)>),
{
    let mut out: Vec<Option<(i128, i128)>> = Vec::new();
    let mut i: usize = 0;
    while i < SERVER_TICK_EPOCH_CANDIDATE_COUNT
        invariant
            i <= SERVER_TICK_EPOCH_CANDIDATE_COUNT,
            out@ == Seq::new(i as nat, |k: int| None::<(i128, i128)>),
        decreases SERVER_TICK_EPOCH_CANDIDATE_COUNT - i,
    {
        out.push(None);
        i = i + 1;
        proof {
            assert(out@ =~= Seq::new(i as nat, |k: int| None::<(i128, i128)>));
        }
    }
    out
}

fn abs_millis(d: i128) -> (r: i128)
    requires
        valid_span(d as int),
    ensures
        r == spec_abs_millis(d as int),
{
    if d >= 0 {
        d / NANOS_PER_MILLI
    } else {
        let n: i128 = -d;
        n / NANOS_PER_MILLI
    }
}

impl StatusTracker {
    pub closed spec fn wf(&self) -> bool {
        &&& self@.wf()
        &&& self.server_tick_epoch_candidates@.len() == SERVER_TICK_EPOCH_CANDIDATE_COUNT
    }

    pub fn new() -> (r: Self)
        ensures
            r.wf(),
            r@.local.dom().is_empty() && r@.party.dom().is_empty(),
            r@.retained.dom().is_empty() && r@.published.is_empty() && r@.changes.dom().is_empty(),
            r@.epoch.epoch is None && r@.epoch.cursor == 0,
            r@.epoch.candidates == Seq::new(SERVER_TICK_EPOCH_CANDIDATE_COUNT as nat, |i: int| None::<(i128, i128)>),
            r@.offset is None && !r@.inherited,
    {
        StatusTracker {
            local_status_effect_registry: EffectRegistry::new(),
            party_status_effect_registry: EffectRegistry::new(),
            retained_entries_by_instance_id: RetainedEffects::new(),
            zone_published_object_ids: ObjectIdSet::new(),
            stat_source_change_at: StatSourceChanges::new(),
            server_tick_epoch: None,
            server_tick_epoch_candidates: empty_candidates(),
            server_tick_epoch_candidate_cursor: 0,
            server_clock_offset: None,
            server_clock_offset_inherited: false,
        }
    }

    /// The adopted tick epoch: the UTC instant of server tick 0.
    pub fn server_tick_epoch(&self) -> (r: Option<i128>)
        ensures
            r == self@.epoch.epoch,
    {
        self.server_tick_epoch
    }

    /// The estimate of the local clock minus the server clock.
    pub fn server_clock_offset(&self) -> (r: Option<i128>)
        ensures
            r == self@.offset,
    {
        self.server_clock_offset
    }

    /// Whether an instance dropped by a reset is kept for a re-notify.
    pub fn is_retained(&self, instance_id: u32) -> (r: bool)
        ensures
            r == self@.retained.dom().contains(instance_id),
    {
        self.retained_entries_by_instance_id.get(instance_id).is_some()
    }

    fn observe_server_clock_offset(&mut self, se: &StatusEffectDetails)
        requires
            old(self).wf(),
            se.wf(),
        ensures
            final(self).wf(),
            (final(self)@.offset, final(self)@.inherited) == spec_observe_offset(old(self)@.offset, old(self)@.inherited, *se),
            final(self)@ == (TrackerView { offset: final(self)@.offset, inherited: final(self)@.inherited, ..old(self)@ }),
    {
        if se.occur_time == 0 {
            return;
        }
        let sample: i128 = se.timestamp - se.occur_time;
        let replace = (self.server_clock_offset_inherited && !se.created_before_zone) || match self.server_clock_offset {
            None => true,
            Some(offset) => sample < offset,
        };
        if replace {
            self.server_clock_offset = Some(sample);
            self.server_clock_offset_inherited = false;
        }
    }

    fn local_to_server_time(&self, local: i128) -> (r: i128)
        requires
            self.wf(),
            valid_instant(local as int),
        ensures
            r == spec_local_to_server(self@.offset, local as int),
            valid_instant(r as int),
    {
        match self.server_clock_offset {
            None => local,
            Some(offset) => sub_or_keep(local, offset),
        }
    }

    fn server_to_local_time(&self, server: i128) -> (r: i128)
        requires
            self.wf(),
            valid_instant(server as int),
        ensures
            r == spec_server_to_local(self@.offset, server as int),
            valid_instant(r as int),
    {
        match self.server_clock_offset {
            None => server,
            Some(offset) => add_or_keep(server, offset),
        }
    }

    fn server_end_time(&self, end_tick: u64) -> (r: Option<i128>)
        requires
            self.wf(),
        ensures
            r is Some == spec_server_end_time(self@.epoch.epoch, end_tick) is Some,
            r matches Some(t) ==> spec_server_end_time(self@.epoch.epoch, end_tick) == Some(t as int) && valid_instant(t as int),
    {
        if end_tick == INFINITE_SERVER_TICK {
            return None;
        }
        match self.server_tick_epoch {
            None => None,
            Some(epoch) => if end_tick > 9223372036854775807u64 {
                None
            } else {
                Some(add_millis_saturating(epoch, end_tick as i64))
            },
        }
    }

    fn expire_at_for(&self, se: &StatusEffectDetails) -> (r: Option<i128>)
        requires
            self.wf(),
            se.wf(),
        ensures
            r is Some == spec_expire_at_for(self@.epoch.epoch, self@.offset, *se) is Some,
            r matches Some(t) ==> spec_expire_at_for(self@.epoch.epoch, self@.offset, *se) == Some(t as int) && valid_instant(t as int),
    {
        if !has_finite_duration(se.expiration_delay_ms) {
            return None;
        }
        if se.end_tick_on_zone_clock {
            if let Some(server_end_at) = self.server_end_time(se.end_tick) {
                return Some(server_end_at);
            }
        }
        add_duration_clamped(self.local_to_server_time(se.timestamp), se.expiration_delay_ms)
    }

    pub fn note_zone_published(&mut self, object_id: u64)
        requires
            old(self).wf(),
        ensures
            final(self).wf(),
            changes_kept(old(self)@.changes, final(self)@.changes),
            final(self)@ == (TrackerView { published: old(self)@.published.insert(object_id), ..old(self)@ }),
    {
        self.zone_published_object_ids.insert(object_id);
    }

    pub fn is_zone_published(&self, object_id: u64) -> (r: bool)
        ensures
            r == self@.published.contains(object_id),
    {
        self.zone_published_object_ids.contains(object_id)
    }
}


impl StatusTracker {
    /// Records the tick epoch implied by a finite status effect and reports
    /// whether a later epoch was adopted.
    fn observe_server_tick_epoch(&mut self, se: &StatusEffectDetails) -> (r: bool)
        requires
            old(self).wf(),
            se.wf(),
        ensures
            final(self).wf(),
            (final(self)@.epoch, r) == spec_observe_epoch(old(self)@.epoch, *se),
            final(self)@ == (TrackerView { epoch: final(self)@.epoch, ..old(self)@ }),
    {
        if se.end_tick == INFINITE_SERVER_TICK || !has_finite_duration(se.expiration_delay_ms)
            || se.end_tick > 9223372036854775807u64 {
            return false;
        }
        let occur_time = se.occur_time;
        if occur_time == 0 {
            return false;
        }
        let end_time = match add_duration_clamped(occur_time, se.expiration_delay_ms) {
            Some(t) => t,
            None => {
                return false;
            },
        };
        let shift: i128 = (se.end_tick as i128) * NANOS_PER_MILLI;
        let candidate_epoch: i128 = end_time - shift;
        if !(MIN_UTC_NANOS <= candidate_epoch && candidate_epoch <= MAX_UTC_NANOS) {
            return false;
        }
        if let Some(epoch) = self.server_tick_epoch {
            if whole_millis(candidate_epoch - epoch) <= SERVER_TICK_EPOCH_CORROBORATION_MS {
                return false;
            }
        }
        let ghost cands = self.server_tick_epoch_candidates@;
        proof {
            assert(spec_candidate_epoch(*se) == Some(candidate_epoch as int));
        }
        let mut j: usize = 0;
        while j < SERVER_TICK_EPOCH_CANDIDATE_COUNT
            invariant
                self.wf(),
                self@ == old(self)@,
                cands == old(self)@.epoch.candidates,
                j <= SERVER_TICK_EPOCH_CANDIDATE_COUNT,
                valid_instant(candidate_epoch as int),
                valid_instant(occur_time as int),
                occur_time == se.occur_time,
                spec_candidate_epoch(*se) == Some(candidate_epoch as int),
                !(old(self)@.epoch.epoch is Some && spec_whole_millis(candidate_epoch - old(self)@.epoch.epoch->0)
                    <= SERVER_TICK_EPOCH_CORROBORATION_MS),
                first_corroborating(cands, candidate_epoch as int, occur_time as int, 0)
                    == first_corroborating(cands, candidate_epoch as int, occur_time as int, j as int),
            decreases SERVER_TICK_EPOCH_CANDIDATE_COUNT - j,
        {
            if let Some(recorded) = self.server_tick_epoch_candidates[j] {
                let (recorded_candidate_epoch, recorded_occur_time) = recorded;
                proof {
                    assert(candidate_wf(cands[j as int]));
                }
                if !(abs_millis(occur_time - recorded_occur_time) <= SERVER_TICK_EPOCH_CORROBORATION_MS
                    || abs_millis(candidate_epoch - recorded_candidate_epoch) > SERVER_TICK_EPOCH_CORROBORATION_MS) {
                    self.server_tick_epoch = Some(
                        if candidate_epoch >= recorded_candidate_epoch {
                            candidate_epoch
                        } else {
                            recorded_candidate_epoch
                        },
                    );
                    self.server_tick_epoch_candidates = empty_candidates();
                    proof {
                        assert(first_corroborating(cands, candidate_epoch as int, occur_time as int, j as int) == j as int);
                    }
                    return true;
                }
            }
            j = j + 1;
        }
        let cursor = self.server_tick_epoch_candidate_cursor;
        self.server_tick_epoch_candidates.set(cursor, Some((candidate_epoch, occur_time)));
        self.server_tick_epoch_candidate_cursor = (cursor + 1) % SERVER_TICK_EPOCH_CANDIDATE_COUNT;
        false
    }

    /// Records `at` for one identity stat of `target` unless a later instant is recorded.
    fn note_one(&mut self, target_id: u64, stat_type: StatType, at: i128)
        requires
            old(self).wf(),
            valid_instant(at as int),
        ensures
            final(self).wf(),
            final(self)@ == (TrackerView {
                changes: old(self)@.changes.insert(
                    (target_id, stat_type),
                    if old(self)@.changes.dom().contains((target_id, stat_type)) && old(self)@.changes[(target_id, stat_type)] > at {
                        old(self)@.changes[(target_id, stat_type)]
                    } else {
                        at
                    },
                ),
                ..old(self)@
            }),
    {
        let recorded = match self.stat_source_change_at.get(target_id, stat_type) {
            Some(changed_at) => if changed_at > at {
                changed_at
            } else {
                at
            },
            None => at,
        };
        self.stat_source_change_at.insert(target_id, stat_type, recorded);
    }

    /// Records that a source of an identity stat on `target_id` was added,
    /// refreshed, removed, hidden by its deadline or restored at `at`: the
    /// change time of each identity stat `se` provides becomes the later of
    /// the recorded one and `at`, so no recorded change moves back.
    pub fn note_stat_sources_changed(&mut self, target_id: u64, se: &StatusEffectDetails, at: i128)
        requires
            old(self).wf(),
            valid_instant(at as int),
        ensures
            final(self).wf(),
            changes_kept(old(self)@.changes, final(self)@.changes),
            final(self)@ == (TrackerView {
                changes: noted_changes(old(self)@.changes, touched_by(target_id, *se), at),
                ..old(self)@
            }),
    {
        let ghost before = self@.changes;
        if se.provides_skill_damage_sub_rate_1 {
            self.note_one(target_id, StatType::SkillDamageSubRate1, at);
        }
        let ghost middle = self@.changes;
        if se.provides_skill_damage_sub_rate_2 {
            self.note_one(target_id, StatType::SkillDamageSubRate2, at);
        }
        proof {
            assert(self@.changes =~= noted_changes(before, touched_by(target_id, *se), at));
        }
    }
}

/// Whether an instance is kept at server instant `now`: it has no deadline or
/// its deadline lies after `now`.
pub open spec fn kept_at(e: StatusEffectDetails, now: int) -> bool {
    e.expire_at is None || e.expire_at->0 > now
}

/// Retained entries whose deadline has not passed at server instant `now`.
pub open spec fn pruned_retained(ret: Map<u32, StatusEffectDetails>, now: int) -> Map<u32, StatusEffectDetails> {
    Map::new(|k: u32| ret.dom().contains(k) && kept_at(ret[k], now), |k: u32| ret[k])
}

pub open spec fn seen_key<V>(es: Seq<(u32, V)>, n: int, k: u32) -> bool {
    exists|j: int| 0 <= j < n && #[trigger] es[j].0 == k
}

pub open spec fn seen_target(ts: Seq<u64>, n: int, t: u64) -> bool {
    exists|j: int| 0 <= j < n && #[trigger] ts[j] == t
}

/// Whether some instance of `effects` changes visibility in a refresh and
/// provides `stat_type`.
pub open spec fn inner_touch(effects: Map<u32, StatusEffectDetails>, epoch: i128, now: int, stat_type: StatType) -> bool {
    exists|id: u32| #[trigger] effects.dom().contains(id) && spec_refresh_effect(effects[id], epoch, now).1 && effects[id].provides(
        stat_type,
    )
}

proof fn lemma_noted_union(
    c: Map<(u64, StatType), i128>,
    p: spec_fn((u64, StatType)) -> bool,
    q: spec_fn((u64, StatType)) -> bool,
    r: spec_fn((u64, StatType)) -> bool,
    at: i128,
)
    requires
        forall|k: (u64, StatType)| #[trigger] r(k) == (p(k) || q(k)),
    ensures
        noted_changes(noted_changes(c, p, at), q, at) == noted_changes(c, r, at),
{
    assert(noted_changes(noted_changes(c, p, at), q, at) =~= noted_changes(c, r, at));
}

proof fn lemma_noted_same(
    c: Map<(u64, StatType), i128>,
    p: spec_fn((u64, StatType)) -> bool,
    q: spec_fn((u64, StatType)) -> bool,
    at: i128,
)
    requires
        forall|k: (u64, StatType)| #[trigger] p(k) == q(k),
    ensures
        noted_changes(c, p, at) == noted_changes(c, q, at),
{
    assert(noted_changes(c, p, at) =~= noted_changes(c, q, at));
}

impl StatusTracker {
    /// Drops retained entries whose deadline passed at local instant `now`.
    fn prune_retained_entries(&mut self, now: i128)
        requires
            old(self).wf(),
            valid_instant(now as int),
        ensures
            final(self).wf(),
            final(self)@ == (TrackerView {
                retained: pruned_retained(old(self)@.retained, old(self)@.to_server(now as int)),
                ..old(self)@
            }),
    {
        let server_now = self.local_to_server_time(now);
        let entries = self.retained_entries_by_instance_id.entries();
        let ghost orig = self@.retained;
        let mut i: usize = 0;
        while i < entries.len()
            invariant
                old(self).wf(),
                self.wf(),
                i <= entries@.len(),
                orig == old(self)@.retained,
                lists_entries(entries@, orig),
                server_now == old(self)@.to_server(now as int),
                self@ == (TrackerView { retained: self@.retained, ..old(self)@ }),
                self@.retained == Map::new(
                    |k: u32| orig.dom().contains(k) && (kept_at(orig[k], server_now as int) || !seen_key(entries@, i as int, k)),
                    |k: u32| orig[k],
                ),
            decreases entries@.len() - i,
        {
            let id = entries[i].0;
            let expired = match entries[i].1.expire_at {
                Some(expire_at) => expire_at <= server_now,
                None => false,
            };
            let ghost before = self@.retained;
            if expired {
                self.retained_entries_by_instance_id.remove(id);
            }
            proof {
                assert forall|k: u32| #![auto] seen_key(entries@, i + 1, k) == (seen_key(entries@, i as int, k) || k == id) by {
                    if seen_key(entries@, i + 1, k) && k != id {
                        let j = choose|j: int| 0 <= j < i + 1 && #[trigger] entries@[j].0 == k;
                        assert(j < i);
                    }
                    if k == id {
                        assert(entries@[i as int].0 == k);
                    }
                }
                assert(self@.retained =~= Map::new(
                    |k: u32| orig.dom().contains(k) && (kept_at(orig[k], server_now as int) || !seen_key(entries@, i + 1, k)),
                    |k: u32| orig[k],
                ));
            }
            i = i + 1;
        }
        proof {
            assert forall|k: u32| #[trigger] orig.dom().contains(k) implies seen_key(entries@, entries@.len() as int, k) by {
                let j = choose|j: int| 0 <= j < entries@.len() && #[trigger] entries@[j].0 == k;
            }
            assert(self@.retained =~= pruned_retained(orig, server_now as int));
        }
    }
}

pub open spec fn refreshed_inner(m: Map<u32, StatusEffectDetails>, epoch: i128, now: int) -> Map<u32, StatusEffectDetails> {
    m.map_values(|e: StatusEffectDetails| spec_refresh_effect(e, epoch, now).0)
}

pub open spec fn partial_inner(
    m: Map<u32, StatusEffectDetails>,
    es: Seq<(u32, StatusEffectDetails)>,
    j: int,
    epoch: i128,
    now: int,
) -> Map<u32, StatusEffectDetails> {
    Map::new(
        |id: u32| m.dom().contains(id),
        |id: u32|
            if seen_key(es, j, id) {
                spec_refresh_effect(m[id], epoch, now).0
            } else {
                m[id]
            },
    )
}

pub open spec fn partial_registry(
    orig: Map<u64, Map<u32, StatusEffectDetails>>,
    ts: Seq<u64>,
    i: int,
    epoch: i128,
    now: int,
) -> Map<u64, Map<u32, StatusEffectDetails>> {
    Map::new(
        |t: u64| orig.dom().contains(t),
        |t: u64|
            if seen_target(ts, i, t) {
                refreshed_inner(orig[t], epoch, now)
            } else {
                orig[t]
            },
    )
}

pub open spec fn touched_outer(
    orig: Map<u64, Map<u32, StatusEffectDetails>>,
    ts: Seq<u64>,
    i: int,
    epoch: i128,
    now: int,
) -> spec_fn((u64, StatType)) -> bool {
    |k: (u64, StatType)| is_identity_stat_type(k.1) && seen_target(ts, i, k.0) && inner_touch(orig[k.0], epoch, now, k.1)
}

pub open spec fn touched_inner(
    es: Seq<(u32, StatusEffectDetails)>,
    j: int,
    t: u64,
    epoch: i128,
    now: int,
) -> spec_fn((u64, StatType)) -> bool {
    |k: (u64, StatType)|
        k.0 == t && is_identity_stat_type(k.1) && exists|b: int|
            0 <= b < j && spec_refresh_effect(#[trigger] es[b].1, epoch, now).1 && es[b].1.provides(k.1)
}

pub open spec fn refresh_touched(reg: Map<u64, Map<u32, StatusEffectDetails>>, epoch: i128, now: int) -> spec_fn((u64, StatType)) -> bool {
    |k: (u64, StatType)| refresh_touches(reg, epoch, now, k)
}


proof fn lemma_seen_key_step<V>(es: Seq<(u32, V)>, j: int, id: u32)
    requires
        0 <= j < es.len(),
        es[j].0 == id,
    ensures
        forall|k: u32| #![auto] seen_key(es, j + 1, k) == (seen_key(es, j, k) || k == id),
{
    assert forall|k: u32| #![auto] seen_key(es, j + 1, k) == (seen_key(es, j, k) || k == id) by {
        if seen_key(es, j + 1, k) && k != id {
            let b = choose|b: int| 0 <= b < j + 1 && #[trigger] es[b].0 == k;
            assert(b < j);
        }
        if k == id {
            assert(es[j].0 == k);
        }
    }
}

proof fn lemma_seen_target_step(ts: Seq<u64>, i: int, t: u64)
    requires
        0 <= i < ts.len(),
        ts[i] == t,
    ensures
        forall|u: u64| #![auto] seen_target(ts, i + 1, u) == (seen_target(ts, i, u) || u == t),
{
    assert forall|u: u64| #![auto] seen_target(ts, i + 1, u) == (seen_target(ts, i, u) || u == t) by {
        if seen_target(ts, i + 1, u) && u != t {
            let a = choose|a: int| 0 <= a < i + 1 && #[trigger] ts[a] == u;
            assert(a < i);
        }
        if u == t {
            assert(ts[i] == u);
        }
    }
}

proof fn lemma_partial_inner_step(
    m: Map<u32, StatusEffectDetails>,
    es: Seq<(u32, StatusEffectDetails)>,
    j: int,
    epoch: i128,
    sn: int,
    id: u32,
)
    requires
        0 <= j < es.len(),
        es[j].0 == id,
        m.dom().contains(id),
        m[id] == es[j].1,
    ensures
        partial_inner(m, es, j, epoch, sn).insert(id, spec_refresh_effect(es[j].1, epoch, sn).0) == partial_inner(
            m,
            es,
            j + 1,
            epoch,
            sn,
        ),
{
    lemma_seen_key_step(es, j, id);
    assert(partial_inner(m, es, j, epoch, sn).insert(id, spec_refresh_effect(es[j].1, epoch, sn).0) =~= partial_inner(
        m,
        es,
        j + 1,
        epoch,
        sn,
    ));
}

proof fn lemma_touched_inner_step(es: Seq<(u32, StatusEffectDetails)>, j: int, t: u64, epoch: i128, sn: int)
    requires
        0 <= j < es.len(),
    ensures
        forall|k: (u64, StatType)| #[trigger] touched_inner(es, j + 1, t, epoch, sn)(k) == (touched_inner(es, j, t, epoch, sn)(k) || (
        spec_refresh_effect(es[j].1, epoch, sn).1 && touched_by(t, spec_refresh_effect(es[j].1, epoch, sn).0)(k))),
{
    assert forall|k: (u64, StatType)| #[trigger] touched_inner(es, j + 1, t, epoch, sn)(k) == (touched_inner(es, j, t, epoch, sn)(k) || (
    spec_refresh_effect(es[j].1, epoch, sn).1 && touched_by(t, spec_refresh_effect(es[j].1, epoch, sn).0)(k))) by {
        if touched_inner(es, j + 1, t, epoch, sn)(k) {
            let b = choose|b: int| 0 <= b < j + 1 && spec_refresh_effect(#[trigger] es[b].1, epoch, sn).1 && es[b].1.provides(k.1);
            if b < j {
                assert(touched_inner(es, j, t, epoch, sn)(k));
            }
        }
        if touched_inner(es, j, t, epoch, sn)(k) {
            let b = choose|b: int| 0 <= b < j && spec_refresh_effect(#[trigger] es[b].1, epoch, sn).1 && es[b].1.provides(k.1);
            assert(0 <= b < j + 1);
        }
        if spec_refresh_effect(es[j].1, epoch, sn).1 && touched_by(t, spec_refresh_effect(es[j].1, epoch, sn).0)(k) {
            assert(spec_refresh_effect(es[j].1, epoch, sn).1 && es[j].1.provides(k.1));
        }
    }
}

impl StatusTracker {
    /// Refreshes one instance of `target` and records its visibility change.
    fn refresh_one(
        &mut self,
        target_type: StatusEffectTargetType,
        t: u64,
        id: u32,
        original: &StatusEffectDetails,
        epoch: i128,
        server_now: i128,
        now: i128,
    )
        requires
            old(self).wf(),
            original.wf(),
            valid_instant(epoch as int),
            valid_instant(server_now as int),
            valid_instant(now as int),
        ensures
            final(self).wf(),
            final(self)@ == (TrackerView {
                changes: if spec_refresh_effect(*original, epoch, server_now as int).1 {
                    noted_changes(
                        old(self)@.changes,
                        touched_by(t, spec_refresh_effect(*original, epoch, server_now as int).0),
                        now,
                    )
                } else {
                    old(self)@.changes
                },
                ..old(self)@.with_registry(
                    target_type,
                    old(self)@.registry(target_type).insert(
                        t,
                        effects_on(old(self)@.registry(target_type), t).insert(
                            id,
                            spec_refresh_effect(*original, epoch, server_now as int).0,
                        ),
                    ),
                )
            }),
    {
        let mut effect = original.duplicate();
        let mut transition: Option<StatusEffectDetails> = None;
        if effect.end_tick_on_zone_clock && effect.end_tick != INFINITE_SERVER_TICK && has_finite_duration(
            effect.expiration_delay_ms,
        ) && effect.end_tick <= 9223372036854775807u64 {
            let server_end_at = add_millis_saturating(epoch, effect.end_tick as i64);
            transition = apply_deadline(&mut effect, Some(server_end_at), server_now);
        }
        self.reg_insert(target_type, t, id, effect.duplicate());
        if let Some(changed) = transition {
            self.note_stat_sources_changed(t, &changed, now);
        }
    }
}

impl StatusTracker {
    fn reg_targets(&self, target_type: StatusEffectTargetType) -> (r: Vec<u64>)
        ensures
            lists_keys(r@, self@.registry(target_type)),
    {
        match target_type {
            StatusEffectTargetType::Local => self.local_status_effect_registry.targets(),
            StatusEffectTargetType::Party => self.party_status_effect_registry.targets(),
        }
    }

    fn reg_effects_of(&self, target_type: StatusEffectTargetType, target: u64) -> (r: Vec<(u32, StatusEffectDetails)>)
        ensures
            lists_entries(r@, effects_on(self@.registry(target_type), target)),
    {
        match target_type {
            StatusEffectTargetType::Local => self.local_status_effect_registry.effects_of(target),
            StatusEffectTargetType::Party => self.party_status_effect_registry.effects_of(target),
        }
    }

    fn reg_get(&self, target_type: StatusEffectTargetType, target: u64, instance: u32) -> (r: Option<StatusEffectDetails>)
        ensures
            r == (if effects_on(self@.registry(target_type), target).dom().contains(instance) {
                Some(effects_on(self@.registry(target_type), target)[instance])
            } else {
                None
            }),
    {
        match target_type {
            StatusEffectTargetType::Local => self.local_status_effect_registry.get_effect(target, instance),
            StatusEffectTargetType::Party => self.party_status_effect_registry.get_effect(target, instance),
        }
    }

    fn reg_contains_target(&self, target_type: StatusEffectTargetType, target: u64) -> (r: bool)
        ensures
            r == self@.registry(target_type).dom().contains(target),
    {
        match target_type {
            StatusEffectTargetType::Local => self.local_status_effect_registry.contains_target(target),
            StatusEffectTargetType::Party => self.party_status_effect_registry.contains_target(target),
        }
    }

    fn reg_insert(&mut self, target_type: StatusEffectTargetType, target: u64, instance: u32, effect: StatusEffectDetails)
        requires
            old(self).wf(),
            effect.wf(),
        ensures
            final(self).wf(),
            final(self)@ == old(self)@.with_registry(
                target_type,
                old(self)@.registry(target_type).insert(
                    target,
                    effects_on(old(self)@.registry(target_type), target).insert(instance, effect),
                ),
            ),
    {
        match target_type {
            StatusEffectTargetType::Local => self.local_status_effect_registry.insert_effect(target, instance, effect),
            StatusEffectTargetType::Party => self.party_status_effect_registry.insert_effect(target, instance, effect),
        }
    }

    fn reg_remove(&mut self, target_type: StatusEffectTargetType, target: u64, instance: u32) -> (r: Option<StatusEffectDetails>)
        requires
            old(self).wf(),
        ensures
            final(self).wf(),
            r == (if effects_on(old(self)@.registry(target_type), target).dom().contains(instance) {
                Some(effects_on(old(self)@.registry(target_type), target)[instance])
            } else {
                None
            }),
            final(self)@ == old(self)@.with_registry(
                target_type,
                if old(self)@.registry(target_type).dom().contains(target) {
                    old(self)@.registry(target_type).insert(target, old(self)@.registry(target_type)[target].remove(instance))
                } else {
                    old(self)@.registry(target_type)
                },
            ),
    {
        match target_type {
            StatusEffectTargetType::Local => self.local_status_effect_registry.remove_effect(target, instance),
            StatusEffectTargetType::Party => self.party_status_effect_registry.remove_effect(target, instance),
        }
    }

    fn reg_remove_target(&mut self, target_type: StatusEffectTargetType, target: u64) -> (r: Option<Vec<(u32, StatusEffectDetails)>>)
        requires
            old(self).wf(),
        ensures
            final(self).wf(),
            r is Some == old(self)@.registry(target_type).dom().contains(target),
            r is Some ==> lists_entries(r->0@, old(self)@.registry(target_type)[target]),
            final(self)@ == old(self)@.with_registry(target_type, old(self)@.registry(target_type).remove(target)),
    {
        match target_type {
            StatusEffectTargetType::Local => self.local_status_effect_registry.remove_target(target),
            StatusEffectTargetType::Party => self.party_status_effect_registry.remove_target(target),
        }
    }

    /// Re-derives the deadline of every finite instance in one registry from its
    /// server end tick, and records the visibility changes at local instant `now`.
    fn refresh_registry(&mut self, target_type: StatusEffectTargetType, epoch: i128, server_now: i128, now: i128)
        requires
            old(self).wf(),
            valid_instant(epoch as int),
            valid_instant(server_now as int),
            valid_instant(now as int),
        ensures
            final(self).wf(),
            final(self)@ == (TrackerView {
                changes: noted_changes(
                    old(self)@.changes,
                    refresh_touched(old(self)@.registry(target_type), epoch, server_now as int),
                    now,
                ),
                ..old(self)@.with_registry(
                    target_type,
                    refreshed_registry(old(self)@.registry(target_type), epoch, server_now as int),
                )
            }),
    {
        let ghost orig = self@.registry(target_type);
        let ghost orig_changes = self@.changes;
        let ghost sn = server_now as int;
        let targets = self.reg_targets(target_type);
        let mut i: usize = 0;
        proof {
            assert(partial_registry(orig, targets@, 0, epoch, sn) =~= orig);
            lemma_noted_same(orig_changes, touched_outer(orig, targets@, 0, epoch, sn), |k: (u64, StatType)| false, now);
            assert(noted_changes(orig_changes, |k: (u64, StatType)| false, now) =~= orig_changes);
        }
        while i < targets.len()
            invariant
                old(self).wf(),
                self.wf(),
                i <= targets@.len(),
                orig == old(self)@.registry(target_type),
                orig_changes == old(self)@.changes,
                sn == server_now as int,
                valid_instant(epoch as int),
                valid_instant(server_now as int),
                valid_instant(now as int),
                lists_keys(targets@, orig),
                self@ == (TrackerView { changes: self@.changes, ..old(self)@.with_registry(target_type, self@.registry(target_type)) }),
                self@.registry(target_type) == partial_registry(orig, targets@, i as int, epoch, sn),
                self@.changes == noted_changes(orig_changes, touched_outer(orig, targets@, i as int, epoch, sn), now),
            decreases targets@.len() - i,
        {
            let t = targets[i];
            proof {
                assert(orig.dom().contains(t));
                assert(!seen_target(targets@, i as int, t)) by {
                    if seen_target(targets@, i as int, t) {
                        let a = choose|a: int| 0 <= a < i && #[trigger] targets@[a] == t;
                        assert(targets@[a] != targets@[i as int]);
                    }
                }
            }
            let effects = self.reg_effects_of(target_type, t);
            let ghost m = orig[t];
            proof {
                assert(effects_on(self@.registry(target_type), t) == m);
                assert(partial_inner(m, effects@, 0, epoch, sn) =~= m);
                lemma_noted_union(
                    orig_changes,
                    touched_outer(orig, targets@, i as int, epoch, sn),
                    touched_inner(effects@, 0, t, epoch, sn),
                    touched_outer(orig, targets@, i as int, epoch, sn),
                    now,
                );
            }
            let mut j: usize = 0;
            while j < effects.len()
                invariant
                    old(self).wf(),
                    self.wf(),
                    i < targets@.len(),
                    j <= effects@.len(),
                    t == targets@[i as int],
                    orig == old(self)@.registry(target_type),
                    orig_changes == old(self)@.changes,
                    orig.dom().contains(t),
                    m == orig[t],
                    !seen_target(targets@, i as int, t),
                    sn == server_now as int,
                    valid_instant(epoch as int),
                    valid_instant(server_now as int),
                    valid_instant(now as int),
                    lists_keys(targets@, orig),
                    lists_entries(effects@, m),
                    self@ == (TrackerView { changes: self@.changes, ..old(self)@.with_registry(target_type, self@.registry(target_type)) }),
                    self@.registry(target_type) == partial_registry(orig, targets@, i as int, epoch, sn).insert(
                        t,
                        partial_inner(m, effects@, j as int, epoch, sn),
                    ),
                    self@.changes == noted_changes(
                        noted_changes(orig_changes, touched_outer(orig, targets@, i as int, epoch, sn), now),
                        touched_inner(effects@, j as int, t, epoch, sn),
                        now,
                    ),
                decreases effects@.len() - j,
            {
                let id = effects[j].0;
                proof {
                    assert(m.dom().contains(effects@[j as int].0));
                    assert(registry_wf(orig));
                    assert(orig.dom().contains(t) && orig[t].dom().contains(id));
                }
                let ghost before_changes = self@.changes;
                let ghost before_reg = self@.registry(target_type);
                let ghost e = effects@[j as int].1;
                self.refresh_one(target_type, t, id, &effects[j].1, epoch, server_now, now);
                proof {
                    lemma_seen_key_step(effects@, j as int, id);
                    lemma_partial_inner_step(m, effects@, j as int, epoch, sn, id);
                    assert(self@.registry(target_type) =~= partial_registry(orig, targets@, i as int, epoch, sn).insert(
                        t,
                        partial_inner(m, effects@, j + 1, epoch, sn),
                    ));
                    let base = noted_changes(orig_changes, touched_outer(orig, targets@, i as int, epoch, sn), now);
                    lemma_touched_inner_step(effects@, j as int, t, epoch, sn);
                    if spec_refresh_effect(e, epoch, sn).1 {
                        lemma_noted_union(
                            base,
                            touched_inner(effects@, j as int, t, epoch, sn),
                            touched_by(t, spec_refresh_effect(e, epoch, sn).0),
                            touched_inner(effects@, j + 1, t, epoch, sn),
                            now,
                        );
                    } else {
                        lemma_noted_same(
                            base,
                            touched_inner(effects@, j as int, t, epoch, sn),
                            touched_inner(effects@, j + 1, t, epoch, sn),
                            now,
                        );
                    }
                }
                j = j + 1;
            }
            proof {
                assert forall|id: u32| #[trigger] m.dom().contains(id) implies seen_key(effects@, effects@.len() as int, id) by {
                    let b = choose|b: int| 0 <= b < effects@.len() && #[trigger] effects@[b].0 == id;
                }
                assert(partial_inner(m, effects@, effects@.len() as int, epoch, sn) =~= refreshed_inner(m, epoch, sn));
                lemma_seen_target_step(targets@, i as int, t);
                assert(self@.registry(target_type) =~= partial_registry(orig, targets@, i + 1, epoch, sn));
                assert forall|k: (u64, StatType)| #[trigger] touched_outer(orig, targets@, i + 1, epoch, sn)(k) == (touched_outer(
                    orig,
                    targets@,
                    i as int,
                    epoch,
                    sn,
                )(k) || touched_inner(effects@, effects@.len() as int, t, epoch, sn)(k)) by {
                    if k.0 == t && is_identity_stat_type(k.1) && inner_touch(m, epoch, sn, k.1) {
                        let id = choose|id: u32| #[trigger] m.dom().contains(id) && spec_refresh_effect(m[id], epoch, sn).1 && m[id].provides(k.1);
                        let b = choose|b: int| 0 <= b < effects@.len() && #[trigger] effects@[b].0 == id;
                        assert(spec_refresh_effect(effects@[b].1, epoch, sn).1);
                    }
                    if touched_inner(effects@, effects@.len() as int, t, epoch, sn)(k) {
                        let b = choose|b: int|
                            0 <= b < effects@.len() && spec_refresh_effect(#[trigger] effects@[b].1, epoch, sn).1 && effects@[b].1.provides(k.1);
                        assert(m.dom().contains(effects@[b].0));
                        assert(seen_target(targets@, i + 1, t));
                    }
                }
                lemma_noted_union(
                    orig_changes,
                    touched_outer(orig, targets@, i as int, epoch, sn),
                    touched_inner(effects@, effects@.len() as int, t, epoch, sn),
                    touched_outer(orig, targets@, i + 1, epoch, sn),
                    now,
                );
            }
            i = i + 1;
        }
        proof {
            assert forall|u: u64| #[trigger] orig.dom().contains(u) implies seen_target(targets@, targets@.len() as int, u) by {
                let a = choose|a: int| 0 <= a < targets@.len() && #[trigger] targets@[a] == u;
            }
            assert(self@.registry(target_type) =~= refreshed_registry(orig, epoch, sn));
            assert forall|k: (u64, StatType)| #[trigger] touched_outer(orig, targets@, targets@.len() as int, epoch, sn)(k)
                == refresh_touched(orig, epoch, sn)(k) by {
                if refresh_touches(orig, epoch, sn, k) {
                    assert(seen_target(targets@, targets@.len() as int, k.0));
                }
            }
            lemma_noted_same(
                orig_changes,
                touched_outer(orig, targets@, targets@.len() as int, epoch, sn),
                refresh_touched(orig, epoch, sn),
                now,
            );
        }
    }
}

/// Every finite instance's deadline re-derived from its server end tick after
/// the tick epoch moved, with the visibility changes recorded at local `now`.
pub open spec fn spec_refresh_all(v: TrackerView, now: i128) -> TrackerView {
    match v.epoch.epoch {
        None => v,
        Some(e) => {
            let sn = v.to_server(now as int);
            TrackerView {
                local: refreshed_registry(v.local, e, sn),
                party: refreshed_registry(v.party, e, sn),
                changes: noted_changes(
                    noted_changes(v.changes, refresh_touched(v.local, e, sn), now),
                    refresh_touched(v.party, e, sn),
                    now,
                ),
                ..v
            }
        },
    }
}

/// Whether a re-notify of `se` resumes the live instance of the same status effect.
pub open spec fn resumes_live(v: TrackerView, se: StatusEffectDetails) -> bool {
    let effects = effects_on(v.registry(se.target_type), se.target_id);
    effects.dom().contains(se.instance_id) && effects[se.instance_id].status_effect_id == se.status_effect_id
}

/// Whether a re-notify of `se` resumes a retained instance of the same status
/// effect and source.
pub open spec fn resumes_retained(v: TrackerView, se: StatusEffectDetails) -> bool {
    !resumes_live(v, se) && v.retained.dom().contains(se.instance_id) && v.retained[se.instance_id].status_effect_id
        == se.status_effect_id && v.retained[se.instance_id].source_id == se.source_id
}

/// The instance whose creation-time data a re-notify of `se` carries over.
pub open spec fn carried_entry(v: TrackerView, se: StatusEffectDetails) -> Option<StatusEffectDetails> {
    if resumes_live(v, se) {
        Some(effects_on(v.registry(se.target_type), se.target_id)[se.instance_id])
    } else if resumes_retained(v, se) {
        Some(v.retained[se.instance_id])
    } else {
        None
    }
}

/// Whether carrying `carried` over to `se` asks the resolver for the current
/// runtime data of the carried source skill.
pub open spec fn needs_resolver(se: StatusEffectDetails, carried: Option<StatusEffectDetails>) -> bool {
    match carried {
        Some(c) => match c.source_skill_id {
            Some(cs) => c.source_skill_runtime_snapshot is None && se.source_skill_id != Some(cs),
            None => false,
        },
        None => false,
    }
}

/// `se` with the creation-time source skill, runtime data, owner snapshot,
/// first-tracked time, zone flag and measured stat of the carried instance;
/// `resolved` is the resolver's answer where one is asked.
pub open spec fn merged_entry(se: StatusEffectDetails, carried: Option<StatusEffectDetails>, resolved: Option<u64>) -> StatusEffectDetails {
    match carried {
        None => se,
        Some(c) => {
            let with_skill = match c.source_skill_id {
                Some(cs) => StatusEffectDetails {
                    source_skill_id: Some(cs),
                    custom_id: c.custom_id,
                    source_skill_runtime_snapshot: if c.source_skill_runtime_snapshot is Some {
                        c.source_skill_runtime_snapshot
                    } else if se.source_skill_id == Some(cs) {
                        se.source_skill_runtime_snapshot
                    } else {
                        resolved
                    },
                    ..se
                },
                None => se,
            };
            let with_owner = if c.owner_player_stats_snapshot is Some {
                StatusEffectDetails { owner_player_stats_snapshot: c.owner_player_stats_snapshot, ..with_skill }
            } else {
                with_skill
            };
            StatusEffectDetails {
                first_tracked: c.first_tracked,
                created_before_zone: c.created_before_zone,
                measured_stat: c.measured_stat,
                ..with_owner
            }
        },
    }
}

pub open spec fn as_instant(t: Option<int>) -> Option<i128> {
    match t {
        Some(x) => Some(x as i128),
        None => None,
    }
}

/// The tracker after storing the merged entry of a notify: the clock offset
/// and tick epoch observe it, its deadline is placed, its identity stats are
/// recorded as changed at its arrival, and a later epoch refreshes every
/// deadline.
#[verifier::opaque]
pub open spec fn spec_store(v: TrackerView, merged: StatusEffectDetails) -> TrackerView {
    let offset = spec_observe_offset(v.offset, v.inherited, merged);
    let observed = if merged.end_tick_on_zone_clock {
        spec_observe_epoch(v.epoch, merged)
    } else {
        (v.epoch, false)
    };
    let stored = StatusEffectDetails {
        expire_at: as_instant(spec_expire_at_for(observed.0.epoch, offset.0, merged)),
        packet_expired: false,
        ..merged
    };
    let v3 = TrackerView {
        offset: offset.0,
        inherited: offset.1,
        epoch: observed.0,
        changes: noted_changes(v.changes, touched_by(merged.target_id, stored), merged.timestamp),
        ..v
    };
    let v4 = v3.with_registry(
        merged.target_type,
        v3.registry(merged.target_type).insert(
            merged.target_id,
            effects_on(v3.registry(merged.target_type), merged.target_id).insert(merged.instance_id, stored),
        ),
    );
    if observed.1 {
        spec_refresh_all(v4, merged.timestamp)
    } else {
        v4
    }
}

/// The tracker with the retained entries whose deadline passed at the arrival
/// of `se` dropped.
pub open spec fn pruned_for(v: TrackerView, se: StatusEffectDetails) -> TrackerView {
    TrackerView { retained: pruned_retained(v.retained, v.to_server(se.timestamp as int)), ..v }
}

/// The tracker after registering `se`; `resolved` is the resolver's answer
/// where `needs_resolver` asks one.
pub open spec fn spec_register(v: TrackerView, se: StatusEffectDetails, resolved: Option<u64>) -> TrackerView {
    let v1 = pruned_for(v, se);
    let v2 = if resumes_retained(v1, se) {
        TrackerView { retained: v1.retained.remove(se.instance_id), ..v1 }
    } else {
        v1
    };
    spec_store(v2, merged_entry(se, carried_entry(v1, se), resolved))
}

/// The resolver of a plain registration: it knows no runtime data.
fn no_carried_runtime(_carried_skill_id: u32) -> (r: Option<u64>)
    ensures
        r is None,
{
    None
}

proof fn lemma_merged_ignores_unasked_or_none(se: StatusEffectDetails, carried: Option<StatusEffectDetails>, resolved: Option<u64>)
    requires
        needs_resolver(se, carried) ==> call_ensures(no_carried_runtime, (carried->0.source_skill_id->0,), resolved),
    ensures
        merged_entry(se, carried, resolved) == merged_entry(se, carried, None),
{
}

/// `se` with the creation-time data of `carried`; the resolver answers where
/// `needs_resolver` asks.
fn merge_carried(se: StatusEffectDetails, carried: &Option<StatusEffectDetails>, runtime_for_carried_skill: impl FnOnce(u32) -> Option<u64>) -> (r: StatusEffectDetails)
    requires
        forall|id: u32| runtime_for_carried_skill.requires((id,)),
        se.wf(),
        carried matches Some(c) ==> c.wf(),
    ensures
        r.wf(),
        exists|resolved: Option<u64>|
            {
                &&& (needs_resolver(se, *carried) ==> runtime_for_carried_skill.ensures((carried->0.source_skill_id->0,), resolved))
                &&& r == merged_entry(se, *carried, resolved)
            },
{
    let ghost original = se;
    let mut resolved: Option<u64> = None;
    let r = match carried {
        None => se,
        Some(carried_over) => {
            let with_skill = match carried_over.source_skill_id {
                Some(carried_skill_id) => {
                    let runtime = match carried_over.source_skill_runtime_snapshot {
                        Some(snapshot) => Some(snapshot),
                        None => if se.source_skill_id == Some(carried_skill_id) {
                            se.source_skill_runtime_snapshot
                        } else {
                            resolved = runtime_for_carried_skill(carried_skill_id);
                            resolved
                        },
                    };
                    StatusEffectDetails {
                        source_skill_id: Some(carried_skill_id),
                        custom_id: carried_over.custom_id,
                        source_skill_runtime_snapshot: runtime,
                        ..se
                    }
                },
                None => se,
            };
            let with_owner = if carried_over.owner_player_stats_snapshot.is_some() {
                StatusEffectDetails { owner_player_stats_snapshot: carried_over.owner_player_stats_snapshot, ..with_skill }
            } else {
                with_skill
            };
            StatusEffectDetails {
                first_tracked: carried_over.first_tracked,
                created_before_zone: carried_over.created_before_zone,
                measured_stat: carried_over.measured_stat,
                ..with_owner
            }
        },
    };
    proof {
        assert((needs_resolver(original, *carried) ==> runtime_for_carried_skill.ensures((carried->0.source_skill_id->0,), resolved))
            && r == merged_entry(original, *carried, resolved));
    }
    r
}

impl StatusTracker {
    /// Re-derives every finite instance's deadline from its server end tick after
    /// the tick epoch moved later.
    fn refresh_expiry_from_server_end_ticks(&mut self, now: i128)
        requires
            old(self).wf(),
            valid_instant(now as int),
        ensures
            final(self).wf(),
            final(self)@ == spec_refresh_all(old(self)@, now),
    {
        let epoch = match self.server_tick_epoch {
            None => {
                return;
            },
            Some(e) => e,
        };
        let server_now = self.local_to_server_time(now);
        self.refresh_registry(StatusEffectTargetType::Local, epoch, server_now, now);
        self.refresh_registry(StatusEffectTargetType::Party, epoch, server_now, now);
    }

    /// Takes the instance that a re-notify of `se` resumes, removing a retained one.
    fn take_carried(&mut self, se: &StatusEffectDetails) -> (r: Option<StatusEffectDetails>)
        requires
            old(self).wf(),
        ensures
            final(self).wf(),
            r == carried_entry(old(self)@, *se),
            r matches Some(c) ==> c.wf(),
            final(self)@ == (if resumes_retained(old(self)@, *se) {
                TrackerView { retained: old(self)@.retained.remove(se.instance_id), ..old(self)@ }
            } else {
                old(self)@
            }),
    {
        let existing = match self.reg_get(se.target_type, se.target_id, se.instance_id) {
            Some(e) => if e.status_effect_id == se.status_effect_id {
                Some(e)
            } else {
                None
            },
            None => None,
        };
        proof {
            let v = self@;
            if existing is Some {
                assert(registry_wf(v.registry(se.target_type)));
                assert(v.registry(se.target_type).dom().contains(se.target_id));
            }
            assert(retained_wf(v.retained));
        }
        match existing {
            Some(e) => Some(e),
            None => {
                let matches_retained = match self.retained_entries_by_instance_id.get(se.instance_id) {
                    Some(retained) => retained.status_effect_id == se.status_effect_id && retained.source_id == se.source_id,
                    None => false,
                };
                if matches_retained {
                    self.retained_entries_by_instance_id.remove(se.instance_id)
                } else {
                    None
                }
            },
        }
    }

    /// Observes the clocks on a merged entry, places its deadline and stores it.
    fn store_registered(&mut self, se: StatusEffectDetails)
        requires
            old(self).wf(),
            se.wf(),
        ensures
            final(self).wf(),
            final(self)@ == spec_store(old(self)@, se),
    {
        reveal(spec_store);
        let mut se = se;
        let now = se.timestamp;
        self.observe_server_clock_offset(&se);
        let epoch_moved_later = se.end_tick_on_zone_clock && self.observe_server_tick_epoch(&se);
        se.expire_at = self.expire_at_for(&se);
        se.packet_expired = false;
        let target_id = se.target_id;
        let target_type = se.target_type;
        let instance_id = se.instance_id;
        self.note_stat_sources_changed(target_id, &se, now);
        self.reg_insert(target_type, target_id, instance_id, se);
        if epoch_moved_later {
            self.refresh_expiry_from_server_end_ticks(now);
        }
    }

    /// Registers a status effect. A re-notified instance is the same server-side
    /// instance: its creation-time owner snapshot, source skill, first-tracked
    /// time and measured strength carry over.
    pub fn register_status_effect(&mut self, se: StatusEffectDetails)
        requires
            old(self).wf(),
            se.wf(),
        ensures
            final(self).wf(),
            changes_kept(old(self)@.changes, final(self)@.changes),
            final(self)@ == spec_register(old(self)@, se, None),
    {
        let ghost original = se;
        let ghost v0 = self@;
        self.prune_retained_entries(se.timestamp);
        let ghost v1 = self@;
        let carried = self.take_carried(&se);
        let merged = merge_carried(se, &carried, no_carried_runtime);
        proof {
            let resolved = choose|resolved: Option<u64>|
                {
                    &&& (needs_resolver(original, carried) ==> call_ensures(
                        no_carried_runtime,
                        (carried->0.source_skill_id->0,),
                        resolved,
                    ))
                    &&& merged == merged_entry(original, carried, resolved)
                };
            lemma_merged_ignores_unasked_or_none(original, carried, resolved);
        }
        self.store_registered(merged);
        proof {
            lemma_register_keeps(old(self)@, original, None);
        }
    }

    /// `register_status_effect` with a resolver for the current runtime data of a
    /// carried-over source skill, asked when the carried instance has none and
    /// the incoming notify resolved a different source skill.
    #[verifier::rlimit(60)]
    pub fn register_status_effect_with(&mut self, se: StatusEffectDetails, runtime_for_carried_skill: impl FnOnce(u32) -> Option<u64>)
        requires
            old(self).wf(),
            se.wf(),
            forall|id: u32| runtime_for_carried_skill.requires((id,)),
        ensures
            final(self).wf(),
            changes_kept(old(self)@.changes, final(self)@.changes),
            exists|resolved: Option<u64>|
                {
                    &&& (needs_resolver(se, carried_entry(pruned_for(old(self)@, se), se))
                        ==> runtime_for_carried_skill.ensures((carried_entry(pruned_for(old(self)@, se), se)->0.source_skill_id->0,), resolved))
                    &&& final(self)@ == spec_register(old(self)@, se, resolved)
                },
    {
        let ghost original = se;
        self.prune_retained_entries(se.timestamp);
        let carried = self.take_carried(&se);
        let merged = merge_carried(se, &carried, runtime_for_carried_skill);
        let ghost resolved = choose|resolved: Option<u64>|
            {
                &&& (needs_resolver(original, carried) ==> runtime_for_carried_skill.ensures((carried->0.source_skill_id->0,), resolved))
                &&& merged == merged_entry(original, carried, resolved)
            };
        self.store_registered(merged);
        proof {
            assert(self@ == spec_register(old(self)@, original, resolved));
            lemma_register_keeps(old(self)@, original, resolved);
        }
    }
}

} // verus!

verus! {

/// The tracker after a duration notify moved the server end tick of instance
/// `instance` on `target` to `end_tick`, applied at local instant `now`. When
/// no tick epoch places a finite end tick, only the end tick is stored.
pub open spec fn spec_update_duration(
    v: TrackerView,
    instance: u32,
    target: u64,
    end_tick: u64,
    sett: StatusEffectTargetType,
    now: i128,
) -> TrackerView {
    let reg = v.registry(sett);
    let effect = reg[target][instance];
    let deadline = spec_server_end_time(v.epoch.epoch, end_tick);
    if end_tick != INFINITE_SERVER_TICK && deadline is None {
        v.with_registry(sett, reg.insert(target, reg[target].insert(instance, StatusEffectDetails { end_tick, ..effect })))
    } else {
        let moved = spec_apply_deadline(
            StatusEffectDetails { end_tick, end_tick_on_zone_clock: true, ..effect },
            as_instant(deadline),
            v.to_server(now as int),
        );
        let v2 = v.with_registry(sett, reg.insert(target, reg[target].insert(instance, moved.0)));
        if moved.1 {
            TrackerView { changes: noted_changes(v.changes, touched_by(target, moved.0), now), ..v2 }
        } else {
            v2
        }
    }
}

impl StatusTracker {
    /// Applies a duration notify: the server moved the end tick of an instance.
    /// Moving the deadline of a continuously present instance changes no stat
    /// source; a deadline that hides the instance or restores a hidden one
    /// does. Returns whether the instance is tracked.
    pub fn update_status_duration(
        &mut self,
        instance_id: u32,
        target_id: u64,
        end_tick: u64,
        sett: StatusEffectTargetType,
        now: i128,
    ) -> (r: bool)
        requires
            old(self).wf(),
            valid_instant(now as int),
        ensures
            final(self).wf(),
            changes_kept(old(self)@.changes, final(self)@.changes),
            r == effects_on(old(self)@.registry(sett), target_id).dom().contains(instance_id),
            final(self)@ == (if r {
                spec_update_duration(old(self)@, instance_id, target_id, end_tick, sett, now)
            } else {
                old(self)@
            }),
    {
        let server_end_at = self.server_end_time(end_tick);
        let server_now = self.local_to_server_time(now);
        let mut effect = match self.reg_get(sett, target_id, instance_id) {
            Some(e) => e,
            None => return false,
        };
        proof {
            let reg = self@.registry(sett);
            assert(reg.dom().contains(target_id) && reg[target_id].dom().contains(instance_id));
            assert(reg[target_id][instance_id].wf());
        }
        effect.end_tick = end_tick;
        let new_deadline = if end_tick == INFINITE_SERVER_TICK {
            None
        } else {
            match server_end_at {
                Some(t) => Some(t),
                None => {
                    self.reg_insert(sett, target_id, instance_id, effect);
                    return true;
                },
            }
        };
        effect.end_tick_on_zone_clock = true;
        let transition = apply_deadline(&mut effect, new_deadline, server_now);
        self.reg_insert(sett, target_id, instance_id, effect);
        if let Some(e) = transition {
            self.note_stat_sources_changed(target_id, &e, now);
        }
        true
    }
}

/// What removing the instances `ids`, in order, from `effects` ends: every
/// instance found (an id repeated later finds nothing), the shields broken
/// (reason 4), the other instances ended, whether a shield was among them and
/// whether the workshop buff was.
pub struct Removal {
    pub removed: Seq<StatusEffectDetails>,
    pub broken: Seq<StatusEffectDetails>,
    pub ended: Seq<StatusEffectDetails>,
    pub shield: bool,
    pub workshop: bool,
}

pub open spec fn spec_removal(effects: Map<u32, StatusEffectDetails>, ids: Seq<u32>, reason: u8) -> Removal
    decreases ids.len(),
{
    if ids.len() == 0 {
        Removal { removed: seq![], broken: seq![], ended: seq![], shield: false, workshop: false }
    } else {
        let prev = spec_removal(effects, ids.drop_last(), reason);
        let id = ids.last();
        if effects.dom().contains(id) && !ids.drop_last().contains(id) {
            let se = effects[id];
            let broken = se.status_effect_type == StatusEffectType::Shield && reason == 4;
            Removal {
                removed: prev.removed.push(se),
                broken: if broken { prev.broken.push(se) } else { prev.broken },
                ended: if broken { prev.ended } else { prev.ended.push(se) },
                shield: prev.shield || se.status_effect_type == StatusEffectType::Shield,
                workshop: prev.workshop || se.status_effect_id == WORKSHOP_BUFF_ID,
            }
        } else {
            prev
        }
    }
}

/// `m` without the keys listed in `ids`.
pub open spec fn without_keys<V>(m: Map<u32, V>, ids: Seq<u32>) -> Map<u32, V> {
    Map::new(|k: u32| m.dom().contains(k) && !ids.contains(k), |k: u32| m[k])
}

/// The keys that a change of any of `ses` on `target` touches.
pub open spec fn touched_by_any(target: u64, ses: Seq<StatusEffectDetails>) -> spec_fn((u64, StatType)) -> bool {
    |k: (u64, StatType)| k.0 == target && is_identity_stat_type(k.1) && exists|j: int| 0 <= j < ses.len() && #[trigger] ses[j].provides(k.1)
}

/// The tracker after a remove notify for `ids` on `target`, applied at local
/// instant `now`: when the target is tracked, the instances and any retained
/// copies of them are gone and their identity stats are recorded as changed.
pub open spec fn spec_remove_effects(
    v: TrackerView,
    target: u64,
    ids: Seq<u32>,
    reason: u8,
    sett: StatusEffectTargetType,
    now: i128,
) -> TrackerView {
    let reg = v.registry(sett);
    if reg.dom().contains(target) {
        let rm = spec_removal(reg[target], ids, reason);
        TrackerView {
            retained: without_keys(v.retained, ids),
            changes: noted_changes(v.changes, touched_by_any(target, rm.removed), now),
            ..v.with_registry(sett, reg.insert(target, without_keys(reg[target], ids)))
        }
    } else {
        v
    }
}

proof fn lemma_touched_any_step(target: u64, ses: Seq<StatusEffectDetails>, i: int)
    requires
        0 <= i < ses.len(),
    ensures
        forall|k: (u64, StatType)| #[trigger] touched_by_any(target, ses.subrange(0, i + 1))(k) == (touched_by_any(
            target,
            ses.subrange(0, i),
        )(k) || touched_by(target, ses[i])(k)),
{
    assert forall|k: (u64, StatType)| #[trigger] touched_by_any(target, ses.subrange(0, i + 1))(k) == (touched_by_any(
        target,
        ses.subrange(0, i),
    )(k) || touched_by(target, ses[i])(k)) by {
        let a = ses.subrange(0, i);
        let b = ses.subrange(0, i + 1);
        if touched_by_any(target, b)(k) {
            let j = choose|j: int| 0 <= j < b.len() && #[trigger] b[j].provides(k.1);
            if j < i {
                assert(a[j] == b[j]);
            }
        }
        if touched_by_any(target, a)(k) {
            let j = choose|j: int| 0 <= j < a.len() && #[trigger] a[j].provides(k.1);
            assert(b[j] == a[j]);
        }
        if touched_by(target, ses[i])(k) {
            assert(b[i] == ses[i]);
        }
    }
}

impl StatusTracker {
    /// Records every identity stat that one of `ses` provides on `target` as
    /// changed at `at`.
    fn note_all(&mut self, target_id: u64, ses: &Vec<StatusEffectDetails>, at: i128)
        requires
            old(self).wf(),
            valid_instant(at as int),
        ensures
            final(self).wf(),
            final(self)@ == (TrackerView {
                changes: noted_changes(old(self)@.changes, touched_by_any(target_id, ses@), at),
                ..old(self)@
            }),
    {
        let ghost orig = self@.changes;
        let mut i: usize = 0;
        proof {
            assert(noted_changes(orig, touched_by_any(target_id, ses@.subrange(0, 0)), at) =~= orig);
        }
        while i < ses.len()
            invariant
                old(self).wf(),
                self.wf(),
                valid_instant(at as int),
                i <= ses@.len(),
                orig == old(self)@.changes,
                self@ == (TrackerView {
                    changes: noted_changes(orig, touched_by_any(target_id, ses@.subrange(0, i as int)), at),
                    ..old(self)@
                }),
            decreases ses@.len() - i,
        {
            self.note_stat_sources_changed(target_id, &ses[i], at);
            proof {
                lemma_touched_any_step(target_id, ses@, i as int);
                lemma_noted_union(
                    orig,
                    touched_by_any(target_id, ses@.subrange(0, i as int)),
                    touched_by(target_id, ses@[i as int]),
                    touched_by_any(target_id, ses@.subrange(0, i + 1)),
                    at,
                );
            }
            i = i + 1;
        }
        proof {
            assert(ses@.subrange(0, ses@.len() as int) == ses@);
        }
    }

    /// `remove_status_effects` at local instant `now`. Returns whether a shield
    /// was removed, the shields broken (reason 4), the other instances removed,
    /// and whether the workshop buff ended.
    pub fn remove_status_effects_at(
        &mut self,
        target_id: u64,
        instance_ids: Vec<u32>,
        reason: u8,
        sett: StatusEffectTargetType,
        now: i128,
    ) -> (r: (bool, Vec<StatusEffectDetails>, Vec<StatusEffectDetails>, bool))
        requires
            old(self).wf(),
            valid_instant(now as int),
        ensures
            final(self).wf(),
            changes_kept(old(self)@.changes, final(self)@.changes),
            r.0 == spec_removal(effects_on(old(self)@.registry(sett), target_id), instance_ids@, reason).shield,
            r.1@ == spec_removal(effects_on(old(self)@.registry(sett), target_id), instance_ids@, reason).broken,
            r.2@ == spec_removal(effects_on(old(self)@.registry(sett), target_id), instance_ids@, reason).ended,
            r.3 == spec_removal(effects_on(old(self)@.registry(sett), target_id), instance_ids@, reason).workshop,
            final(self)@ == spec_remove_effects(old(self)@, target_id, instance_ids@, reason, sett, now),
    {
        let ghost effects = effects_on(self@.registry(sett), target_id);
        let mut has_shield_buff = false;
        let mut shields_broken: Vec<StatusEffectDetails> = Vec::new();
        let mut left_workshop = false;
        let mut effects_removed: Vec<StatusEffectDetails> = Vec::new();
        let mut removed_entries: Vec<StatusEffectDetails> = Vec::new();
        if !self.reg_contains_target(sett, target_id) {
            proof {
                assert(effects =~= Map::<u32, StatusEffectDetails>::empty());
                lemma_removal_of_empty(instance_ids@, reason);
            }
            return (has_shield_buff, shields_broken, effects_removed, left_workshop);
        }
        let ghost reg0 = self@.registry(sett);
        let ghost ret0 = self@.retained;
        let mut i: usize = 0;
        proof {
            assert(instance_ids@.subrange(0, 0) =~= Seq::<u32>::empty());
            assert(without_keys(effects, instance_ids@.subrange(0, 0)) =~= effects);
            assert(without_keys(ret0, instance_ids@.subrange(0, 0)) =~= ret0);
            assert(reg0.insert(target_id, effects) =~= reg0);
        }
        while i < instance_ids.len()
            invariant
                old(self).wf(),
                self.wf(),
                i <= instance_ids@.len(),
                reg0 == old(self)@.registry(sett),
                reg0.dom().contains(target_id),
                effects == reg0[target_id],
                ret0 == old(self)@.retained,
                self@ == (TrackerView {
                    retained: without_keys(ret0, instance_ids@.subrange(0, i as int)),
                    ..old(self)@.with_registry(sett, reg0.insert(target_id, without_keys(effects, instance_ids@.subrange(0, i as int))))
                }),
                removed_entries@ == spec_removal(effects, instance_ids@.subrange(0, i as int), reason).removed,
                shields_broken@ == spec_removal(effects, instance_ids@.subrange(0, i as int), reason).broken,
                effects_removed@ == spec_removal(effects, instance_ids@.subrange(0, i as int), reason).ended,
                has_shield_buff == spec_removal(effects, instance_ids@.subrange(0, i as int), reason).shield,
                left_workshop == spec_removal(effects, instance_ids@.subrange(0, i as int), reason).workshop,
            decreases instance_ids@.len() - i,
        {
            let id = instance_ids[i];
            let ghost prefix = instance_ids@.subrange(0, i as int);
            let ghost next = instance_ids@.subrange(0, i + 1);
            proof {
                assert(next.drop_last() =~= prefix);
                assert(next.last() == id);
            }
            self.retained_entries_by_instance_id.remove(id);
            let removed = self.reg_remove(sett, target_id, id);
            proof {
                assert forall|k: u32| #![auto] next.contains(k) == (prefix.contains(k) || k == id) by {
                    if next.contains(k) && k != id {
                        let j = choose|j: int| 0 <= j < next.len() && next[j] == k;
                        assert(prefix[j] == k);
                    }
                    if prefix.contains(k) {
                        let j = choose|j: int| 0 <= j < prefix.len() && prefix[j] == k;
                        assert(next[j] == k);
                    }
                    if k == id {
                        assert(next[i as int] == k);
                    }
                }
                assert(without_keys(ret0, next) =~= without_keys(ret0, prefix).remove(id));
                assert(without_keys(effects, next) =~= without_keys(effects, prefix).remove(id));
                assert(reg0.insert(target_id, without_keys(effects, prefix)).insert(
                    target_id,
                    without_keys(effects, prefix).remove(id),
                ) =~= reg0.insert(target_id, without_keys(effects, next)));
            }
            match removed {
                Some(se) => {
                    removed_entries.push(se.duplicate());
                    if se.status_effect_id == WORKSHOP_BUFF_ID {
                        left_workshop = true;
                    }
                    let is_shield = match se.status_effect_type {
                        StatusEffectType::Shield => true,
                        _ => false,
                    };
                    if is_shield {
                        has_shield_buff = true;
                    }
                    if is_shield && reason == 4 {
                        shields_broken.push(se);
                    } else {
                        effects_removed.push(se);
                    }
                },
                None => {},
            }
            i = i + 1;
        }
        proof {
            assert(instance_ids@.subrange(0, instance_ids@.len() as int) == instance_ids@);
        }
        self.note_all(target_id, &removed_entries, now);
        (has_shield_buff, shields_broken, effects_removed, left_workshop)
    }

    /// Ends the instances `instance_ids` on `target_id` now; see
    /// `remove_status_effects_at`.
    pub fn remove_status_effects(
        &mut self,
        target_id: u64,
        instance_ids: Vec<u32>,
        reason: u8,
        sett: StatusEffectTargetType,
    ) -> (r: (bool, Vec<StatusEffectDetails>, Vec<StatusEffectDetails>, bool))
        requires
            old(self).wf(),
        ensures
            final(self).wf(),
            changes_kept(old(self)@.changes, final(self)@.changes),
            r.0 == spec_removal(effects_on(old(self)@.registry(sett), target_id), instance_ids@, reason).shield,
            r.1@ == spec_removal(effects_on(old(self)@.registry(sett), target_id), instance_ids@, reason).broken,
            r.2@ == spec_removal(effects_on(old(self)@.registry(sett), target_id), instance_ids@, reason).ended,
            r.3 == spec_removal(effects_on(old(self)@.registry(sett), target_id), instance_ids@, reason).workshop,
            exists|now: i128|
                valid_instant(now as int) && final(self)@ == spec_remove_effects(old(self)@, target_id, instance_ids@, reason, sett, now),
    {
        let now = utc_now();
        self.remove_status_effects_at(target_id, instance_ids, reason, sett, now)
    }
}

proof fn lemma_removal_of_empty(ids: Seq<u32>, reason: u8)
    ensures
        spec_removal(Map::<u32, StatusEffectDetails>::empty(), ids, reason) == (Removal {
            removed: seq![],
            broken: seq![],
            ended: seq![],
            shield: false,
            workshop: false,
        }),
    decreases ids.len(),
{
    if ids.len() > 0 {
        lemma_removal_of_empty(ids.drop_last(), reason);
    }
}

} // verus!

verus! {

/// The player-owned instances of `effects`.
pub open spec fn player_owned(effects: Map<u32, StatusEffectDetails>) -> Map<u32, StatusEffectDetails> {
    Map::new(|k: u32| effects.dom().contains(k) && effects[k].owner_is_player, |k: u32| effects[k])
}

/// The keys that a change of any instance of `effects` on `target` touches.
pub open spec fn touched_by_map(target: u64, effects: Map<u32, StatusEffectDetails>) -> spec_fn((u64, StatType)) -> bool {
    |k: (u64, StatType)|
        k.0 == target && is_identity_stat_type(k.1) && exists|id: u32| #[trigger] effects.dom().contains(id) && effects[id].provides(k.1)
}

pub open spec fn touched_by_entries(target: u64, es: Seq<(u32, StatusEffectDetails)>, n: int) -> spec_fn((u64, StatType)) -> bool {
    |k: (u64, StatType)| k.0 == target && is_identity_stat_type(k.1) && exists|j: int| 0 <= j < n && #[trigger] es[j].1.provides(k.1)
}

/// The tracker after object `object` of registry `tt` left, at local instant
/// `now`: its instances are dropped with their identity stats recorded as
/// changed, and its player-owned instances are retained for a re-notify.
pub open spec fn spec_drop_object(v: TrackerView, tt: StatusEffectTargetType, object: u64, now: i128) -> TrackerView {
    let reg = v.registry(tt);
    if reg.dom().contains(object) {
        let effects = reg[object];
        TrackerView {
            retained: v.retained.union_prefer_right(player_owned(effects)),
            changes: noted_changes(v.changes, touched_by_map(object, effects), now),
            ..v.with_registry(tt, reg.remove(object))
        }
    } else {
        v
    }
}

impl StatusTracker {
    /// Drops an object's instances at local instant `now`, retaining its
    /// player-owned ones: the server did not end them, and only a player-owned
    /// buff carries an owner snapshot worth resuming.
    pub fn drop_object_effects_at(&mut self, target_type: StatusEffectTargetType, object_id: u64, now: i128)
        requires
            old(self).wf(),
            valid_instant(now as int),
        ensures
            final(self).wf(),
            changes_kept(old(self)@.changes, final(self)@.changes),
            final(self)@ == spec_drop_object(old(self)@, target_type, object_id, now),
    {
        let ghost reg0 = self@.registry(target_type);
        let entries = match self.reg_remove_target(target_type, object_id) {
            Some(es) => es,
            None => {
                proof {
                    assert(reg0.remove(object_id) =~= reg0);
                    assert(old(self)@.with_registry(target_type, reg0) == old(self)@);
                }
                return;
            },
        };
        let ghost effects = reg0[object_id];
        let ghost ret0 = self@.retained;
        let ghost ch0 = self@.changes;
        let ghost mid = self@;
        let mut i: usize = 0;
        proof {
            assert(ret0.union_prefer_right(
                Map::new(|k: u32| seen_key(entries@, 0, k) && effects[k].owner_is_player, |k: u32| effects[k]),
            ) =~= ret0);
            assert(noted_changes(ch0, touched_by_entries(object_id, entries@, 0), now) =~= ch0);
        }
        while i < entries.len()
            invariant
                old(self).wf(),
                self.wf(),
                valid_instant(now as int),
                i <= entries@.len(),
                reg0 == old(self)@.registry(target_type),
                reg0.dom().contains(object_id),
                effects == reg0[object_id],
                lists_entries(entries@, effects),
                ret0 == mid.retained,
                ch0 == mid.changes,
                mid == old(self)@.with_registry(target_type, reg0.remove(object_id)),
                self@ == (TrackerView {
                    retained: ret0.union_prefer_right(
                        Map::new(|k: u32| seen_key(entries@, i as int, k) && effects[k].owner_is_player, |k: u32| effects[k]),
                    ),
                    changes: noted_changes(ch0, touched_by_entries(object_id, entries@, i as int), now),
                    ..mid
                }),
            decreases entries@.len() - i,
        {
            let id = entries[i].0;
            proof {
                assert(effects.dom().contains(entries@[i as int].0));
                assert(reg0[object_id][id].wf());
                lemma_seen_key_step(entries@, i as int, id);
            }
            self.note_stat_sources_changed(object_id, &entries[i].1, now);
            if entries[i].1.owner_is_player {
                self.retained_entries_by_instance_id.insert(id, entries[i].1.duplicate());
            }
            proof {
                let es = entries@;
                assert forall|k: (u64, StatType)| #[trigger] touched_by_entries(object_id, es, i + 1)(k) == (touched_by_entries(
                    object_id,
                    es,
                    i as int,
                )(k) || touched_by(object_id, es[i as int].1)(k)) by {
                    if touched_by_entries(object_id, es, i + 1)(k) {
                        let j = choose|j: int| 0 <= j < i + 1 && #[trigger] es[j].1.provides(k.1);
                    }
                }
                lemma_noted_union(
                    ch0,
                    touched_by_entries(object_id, es, i as int),
                    touched_by(object_id, es[i as int].1),
                    touched_by_entries(object_id, es, i + 1),
                    now,
                );
                assert(self@.retained =~= ret0.union_prefer_right(
                    Map::new(|k: u32| seen_key(es, i + 1, k) && effects[k].owner_is_player, |k: u32| effects[k]),
                ));
            }
            i = i + 1;
        }
        proof {
            let es = entries@;
            assert forall|k: u32| #[trigger] effects.dom().contains(k) implies seen_key(es, es.len() as int, k) by {
                let j = choose|j: int| 0 <= j < es.len() && #[trigger] es[j].0 == k;
            }
            assert(Map::new(|k: u32| seen_key(es, es.len() as int, k) && effects[k].owner_is_player, |k: u32| effects[k])
                =~= player_owned(effects));
            assert forall|k: (u64, StatType)| #[trigger] touched_by_entries(object_id, es, es.len() as int)(k) == touched_by_map(
                object_id,
                effects,
            )(k) by {
                if touched_by_entries(object_id, es, es.len() as int)(k) {
                    let j = choose|j: int| 0 <= j < es.len() && #[trigger] es[j].1.provides(k.1);
                    assert(effects.dom().contains(es[j].0));
                }
                if touched_by_map(object_id, effects)(k) {
                    let id = choose|id: u32| #[trigger] effects.dom().contains(id) && effects[id].provides(k.1);
                    let j = choose|j: int| 0 <= j < es.len() && #[trigger] es[j].0 == id;
                    assert(es[j].1.provides(k.1));
                }
            }
            lemma_noted_same(ch0, touched_by_entries(object_id, es, es.len() as int), touched_by_map(object_id, effects), now);
        }
    }

    /// A local object left: see `drop_object_effects_at`.
    pub fn remove_local_object(&mut self, object_id: u64)
        requires
            old(self).wf(),
        ensures
            final(self).wf(),
            changes_kept(old(self)@.changes, final(self)@.changes),
            exists|now: i128|
                valid_instant(now as int) && final(self)@ == spec_drop_object(
                    old(self)@,
                    StatusEffectTargetType::Local,
                    object_id,
                    now,
                ),
    {
        let now = utc_now();
        self.drop_object_effects_at(StatusEffectTargetType::Local, object_id, now);
    }

    /// A party member's object left: see `drop_object_effects_at`.
    pub fn remove_party_object(&mut self, object_id: u64)
        requires
            old(self).wf(),
        ensures
            final(self).wf(),
            changes_kept(old(self)@.changes, final(self)@.changes),
            exists|now: i128|
                valid_instant(now as int) && final(self)@ == spec_drop_object(
                    old(self)@,
                    StatusEffectTargetType::Party,
                    object_id,
                    now,
                ),
    {
        let now = utc_now();
        self.drop_object_effects_at(StatusEffectTargetType::Party, object_id, now);
    }
}

} // verus!

verus! {

/// `ret` with the player-owned instances of the targets `ts` of `reg` added,
/// target by target, a later target's instance replacing an earlier entry.
pub open spec fn retain_all(
    ret: Map<u32, StatusEffectDetails>,
    reg: Map<u64, Map<u32, StatusEffectDetails>>,
    ts: Seq<u64>,
) -> Map<u32, StatusEffectDetails>
    decreases ts.len(),
{
    if ts.len() == 0 {
        ret
    } else {
        retain_all(ret, reg, ts.drop_last()).union_prefer_right(player_owned(reg[ts.last()]))
    }
}

/// Entries marked as created before the current zone.
pub open spec fn marked_pre_zone(m: Map<u32, StatusEffectDetails>) -> Map<u32, StatusEffectDetails> {
    m.map_values(|e: StatusEffectDetails| StatusEffectDetails { created_before_zone: true, ..e })
}

/// The tracker after a zone change at local instant `now`, with the targets
/// of the local and the party registry dropped in the orders `lt` and `pt`:
/// no instance is live, the player-owned ones are retained as created before
/// the zone, the recorded stat source changes, published objects and tick
/// epoch samples are forgotten, and the clock offset is kept until a sample of
/// the new zone replaces it.
pub open spec fn spec_clear(v: TrackerView, lt: Seq<u64>, pt: Seq<u64>) -> TrackerView {
    TrackerView {
        local: Map::empty(),
        party: Map::empty(),
        retained: marked_pre_zone(retain_all(retain_all(v.retained, v.local, lt), v.party, pt)),
        published: Set::empty(),
        changes: Map::empty(),
        epoch: EpochState {
            epoch: None,
            candidates: Seq::new(SERVER_TICK_EPOCH_CANDIDATE_COUNT as nat, |i: int| None::<(i128, i128)>),
            cursor: 0,
        },
        offset: v.offset,
        inherited: v.offset is Some,
    }
}

proof fn lemma_retain_all_step(
    ret: Map<u32, StatusEffectDetails>,
    reg: Map<u64, Map<u32, StatusEffectDetails>>,
    ts: Seq<u64>,
    i: int,
)
    requires
        0 <= i < ts.len(),
    ensures
        retain_all(ret, reg, ts.subrange(0, i + 1)) == retain_all(ret, reg, ts.subrange(0, i)).union_prefer_right(
            player_owned(reg[ts[i]]),
        ),
{
    assert(ts.subrange(0, i + 1).drop_last() =~= ts.subrange(0, i));
}

proof fn lemma_retain_all_wf(ret: Map<u32, StatusEffectDetails>, reg: Map<u64, Map<u32, StatusEffectDetails>>, ts: Seq<u64>)
    requires
        retained_wf(ret),
        registry_wf(reg),
        forall|i: int| 0 <= i < ts.len() ==> reg.dom().contains(#[trigger] ts[i]),
    ensures
        retained_wf(retain_all(ret, reg, ts)),
    decreases ts.len(),
{
    if ts.len() > 0 {
        lemma_retain_all_wf(ret, reg, ts.drop_last());
        let t = ts.last();
        assert(reg.dom().contains(ts[ts.len() - 1]));
        assert forall|id: u32| #[trigger] player_owned(reg[t]).dom().contains(id) implies player_owned(reg[t])[id].wf() by {
            assert(reg[t].dom().contains(id));
        }
    }
}

/// `ret` with the entries listed in the first `n` of `es` marked as created
/// before the current zone.
pub open spec fn marked_prefix(ret: Map<u32, StatusEffectDetails>, es: Seq<(u32, StatusEffectDetails)>, n: int) -> Map<u32, StatusEffectDetails> {
    Map::new(
        |k: u32| ret.dom().contains(k),
        |k: u32|
            if seen_key(es, n, k) {
                StatusEffectDetails { created_before_zone: true, ..ret[k] }
            } else {
                ret[k]
            },
    )
}

impl StatusTracker {
    /// Drops every target of one registry, in the order of `targets`.
    fn drop_all_targets(&mut self, target_type: StatusEffectTargetType, targets: &Vec<u64>, now: i128)
        requires
            old(self).wf(),
            valid_instant(now as int),
            lists_keys(targets@, old(self)@.registry(target_type)),
        ensures
            final(self).wf(),
            final(self)@.registry(target_type).dom().is_empty(),
            final(self)@.retained == retain_all(old(self)@.retained, old(self)@.registry(target_type), targets@),
            final(self)@ == (TrackerView {
                retained: final(self)@.retained,
                changes: final(self)@.changes,
                ..old(self)@.with_registry(target_type, final(self)@.registry(target_type))
            }),
    {
        let ghost reg0 = self@.registry(target_type);
        let ghost ret0 = self@.retained;
        let mut i: usize = 0;
        proof {
            assert(targets@.subrange(0, 0) =~= Seq::<u64>::empty());
            assert(Map::new(|t: u64| reg0.dom().contains(t) && !seen_target(targets@, 0, t), |t: u64| reg0[t]) =~= reg0);
            assert(old(self)@.with_registry(target_type, reg0) == old(self)@);
        }
        while i < targets.len()
            invariant
                old(self).wf(),
                self.wf(),
                valid_instant(now as int),
                i <= targets@.len(),
                reg0 == old(self)@.registry(target_type),
                ret0 == old(self)@.retained,
                lists_keys(targets@, reg0),
                self@.retained == retain_all(ret0, reg0, targets@.subrange(0, i as int)),
                self@ == (TrackerView {
                    retained: self@.retained,
                    changes: self@.changes,
                    ..old(self)@.with_registry(
                        target_type,
                        Map::new(|t: u64| reg0.dom().contains(t) && !seen_target(targets@, i as int, t), |t: u64| reg0[t]),
                    )
                }),
            decreases targets@.len() - i,
        {
            let t = targets[i];
            proof {
                lemma_seen_target_step(targets@, i as int, t);
                assert(!seen_target(targets@, i as int, t)) by {
                    if seen_target(targets@, i as int, t) {
                        let j = choose|j: int| 0 <= j < i && #[trigger] targets@[j] == t;
                        assert(targets@[j] != targets@[i as int]);
                    }
                }
                assert(self@.registry(target_type).dom().contains(t));
                assert(self@.registry(target_type)[t] == reg0[t]);
            }
            self.drop_object_effects_at(target_type, t, now);
            proof {
                lemma_retain_all_step(ret0, reg0, targets@, i as int);
                let before = Map::new(|u: u64| reg0.dom().contains(u) && !seen_target(targets@, i as int, u), |u: u64| reg0[u]);
                let after = Map::new(|u: u64| reg0.dom().contains(u) && !seen_target(targets@, i + 1, u), |u: u64| reg0[u]);
                assert(before.remove(t) =~= after);
            }
            i = i + 1;
        }
        proof {
            assert(targets@.subrange(0, targets@.len() as int) == targets@);
            assert forall|t: u64| !(reg0.dom().contains(t) && !seen_target(targets@, targets@.len() as int, t)) by {
                if reg0.dom().contains(t) {
                    let j = choose|j: int| 0 <= j < targets@.len() && #[trigger] targets@[j] == t;
                }
            }
            let last = Map::new(
                |u: u64| reg0.dom().contains(u) && !seen_target(targets@, targets@.len() as int, u),
                |u: u64| reg0[u],
            );
            assert(last.dom() =~= Set::<u64>::empty());
        }
    }

    /// Marks every retained entry as created before the current zone.
    #[verifier::rlimit(40)]
    fn mark_retained_pre_zone(&mut self)
        requires
            old(self).wf(),
        ensures
            final(self).wf(),
            final(self)@ == (TrackerView { retained: marked_pre_zone(old(self)@.retained), ..old(self)@ }),
    {
        let entries = self.retained_entries_by_instance_id.entries();
        let ghost ret0 = self@.retained;
        let mut i: usize = 0;
        proof {
            assert(marked_prefix(ret0, entries@, 0) =~= ret0);
        }
        while i < entries.len()
            invariant
                old(self).wf(),
                self.wf(),
                i <= entries@.len(),
                ret0 == old(self)@.retained,
                lists_entries(entries@, ret0),
                self@ == (TrackerView { retained: marked_prefix(ret0, entries@, i as int), ..old(self)@ }),
            decreases entries@.len() - i,
        {
            let id = entries[i].0;
            let mut marked = entries[i].1.duplicate();
            marked.created_before_zone = true;
            proof {
                lemma_seen_key_step(entries@, i as int, id);
                assert(ret0.dom().contains(id));
                assert(ret0[id].wf());
            }
            self.retained_entries_by_instance_id.insert(id, marked);
            proof {
                assert(self@.retained =~= marked_prefix(ret0, entries@, i + 1));
            }
            i = i + 1;
        }
        proof {
            assert forall|k: u32| #[trigger] ret0.dom().contains(k) implies seen_key(entries@, entries@.len() as int, k) by {
                let j = choose|j: int| 0 <= j < entries@.len() && #[trigger] entries@[j].0 == k;
            }
            assert(self@.retained =~= marked_pre_zone(ret0));
        }
    }

    /// `clear` at local instant `now`.
    pub fn clear_at(&mut self, now: i128)
        requires
            old(self).wf(),
            valid_instant(now as int),
        ensures
            final(self).wf(),
            exists|lt: Seq<u64>, pt: Seq<u64>|
                lists_keys(lt, old(self)@.local) && lists_keys(pt, old(self)@.party) && final(self)@ == spec_clear(
                    old(self)@,
                    lt,
                    pt,
                ),
    {
        let local_targets = self.reg_targets(StatusEffectTargetType::Local);
        self.drop_all_targets(StatusEffectTargetType::Local, &local_targets, now);
        let party_targets = self.reg_targets(StatusEffectTargetType::Party);
        self.drop_all_targets(StatusEffectTargetType::Party, &party_targets, now);
        self.mark_retained_pre_zone();
        self.stat_source_change_at.clear();
        self.zone_published_object_ids.clear();
        self.server_tick_epoch = None;
        self.server_tick_epoch_candidates = empty_candidates();
        self.server_tick_epoch_candidate_cursor = 0;
        self.server_clock_offset_inherited = self.server_clock_offset.is_some();
        self.local_status_effect_registry.clear();
        self.party_status_effect_registry.clear();
        proof {
            assert(self@.local =~= Map::empty());
            assert(self@.party =~= Map::empty());
            assert(self@.changes =~= Map::empty());
            assert(self@.published =~= Set::empty());
            assert(self@ == spec_clear(old(self)@, local_targets@, party_targets@));
        }
    }

    /// Zone change: every tracked instance predates the new zone. Player-owned
    /// instances are retained for a re-notify; their owner may have changed
    /// build before entering.
    pub fn clear(&mut self)
        requires
            old(self).wf(),
        ensures
            final(self).wf(),
            exists|lt: Seq<u64>, pt: Seq<u64>|
                lists_keys(lt, old(self)@.local) && lists_keys(pt, old(self)@.party) && final(self)@ == spec_clear(
                    old(self)@,
                    lt,
                    pt,
                ),
    {
        let now = utc_now();
        self.clear_at(now);
    }
}

} // verus!

verus! {

broadcast use vstd::std_specs::hash::group_hash_axioms;

/// Whether effects on `character_id` are read from the party registry: it and
/// the local character are different characters in the same party.
pub open spec fn spec_use_party(parties: Map<u64, u32>, character_id: u64, local_character_id: u64) -> bool {
    &&& parties.contains_key(local_character_id)
    &&& parties.contains_key(character_id)
    &&& character_id != local_character_id
    &&& parties[local_character_id] == parties[character_id]
}

/// The registry and target that effects on a character or object are read from.
pub open spec fn spec_lookup_target(parties: Map<u64, u32>, character_id: u64, object_id: u64, local_character_id: u64) -> (
    StatusEffectTargetType,
    u64,
) {
    if spec_use_party(parties, character_id, local_character_id) {
        (StatusEffectTargetType::Party, character_id)
    } else {
        (StatusEffectTargetType::Local, object_id)
    }
}

/// The tracked instance `instance` on the first of `ids` that has it, looking
/// through the local registry before the party registry.
pub open spec fn first_tracked_in(reg: Map<u64, Map<u32, StatusEffectDetails>>, ids: Seq<u64>, instance: u32, n: int) -> bool {
    exists|j: int| 0 <= j < n && #[trigger] effects_on(reg, ids[j]).dom().contains(instance)
}

/// Whether `measured` is pinned on `effect` by a sample of `sampled`.
pub open spec fn pins(effect: StatusEffectDetails, sampled: StatusEffectDetails) -> bool {
    same_instance(effect, sampled) && effect.measured_stat is None
}

/// `reg` with `measured` pinned on the instance `sampled` names on each of
/// the targets `ids`.
pub open spec fn pinned_registry(
    reg: Map<u64, Map<u32, StatusEffectDetails>>,
    ids: Seq<u64>,
    sampled: StatusEffectDetails,
    measured: MeasuredStat,
) -> Map<u64, Map<u32, StatusEffectDetails>> {
    Map::new(
        |t: u64| reg.dom().contains(t),
        |t: u64|
            if ids.contains(t) && reg[t].dom().contains(sampled.instance_id) && pins(reg[t][sampled.instance_id], sampled) {
                reg[t].insert(sampled.instance_id, StatusEffectDetails { measured_stat: Some(measured), ..reg[t][sampled.instance_id] })
            } else {
                reg[t]
            },
    )
}

pub open spec fn pins_somewhere(reg: Map<u64, Map<u32, StatusEffectDetails>>, ids: Seq<u64>, sampled: StatusEffectDetails) -> bool {
    exists|j: int|
        0 <= j < ids.len() && #[trigger] effects_on(reg, ids[j]).dom().contains(sampled.instance_id) && pins(
            effects_on(reg, ids[j])[sampled.instance_id],
            sampled,
        )
}

impl StatusTracker {
    /// Whether effects on `character_id` are read from the party registry.
    /// `parties` maps each known character to its party.
    pub fn should_use_party_status_effect(
        &self,
        character_id: u64,
        local_character_id: u64,
        parties: &PartyIds,
    ) -> (r: bool)
        ensures
            r == spec_use_party(parties@, character_id, local_character_id),
    {
        let local_party = parties.get(&local_character_id);
        let affected_party = parties.get(&character_id);
        match (local_party, affected_party) {
            (Some(l), Some(a)) => character_id != local_character_id && *l == *a,
            _ => false,
        }
    }

    /// Whether the character or object has an instance of `status_effect_id`.
    pub fn has_status_effect(
        &self,
        character_id: u64,
        object_id: u64,
        local_character_id: u64,
        status_effect_id: u32,
        parties: &PartyIds,
    ) -> (r: bool)
        ensures
            r == ({
                let (tt, target) = spec_lookup_target(parties@, character_id, object_id, local_character_id);
                target != 0 && exists|id: u32|
                    #[trigger] effects_on(self@.registry(tt), target).dom().contains(id) && effects_on(self@.registry(tt), target)[id].status_effect_id
                        == status_effect_id
            }),
    {
        let use_party = self.should_use_party_status_effect(character_id, local_character_id, parties);
        let tt = if use_party {
            StatusEffectTargetType::Party
        } else {
            StatusEffectTargetType::Local
        };
        let target_id = if use_party {
            character_id
        } else {
            object_id
        };
        if target_id == 0 {
            return false;
        }
        let effects = self.reg_effects_of(tt, target_id);
        let ghost m = effects_on(self@.registry(tt), target_id);
        proof {
            assert(spec_lookup_target(parties@, character_id, object_id, local_character_id) == (tt, target_id));
        }
        let mut i: usize = 0;
        while i < effects.len()
            invariant
                i <= effects@.len(),
                lists_entries(effects@, m),
                m == effects_on(self@.registry(tt), target_id),
                spec_lookup_target(parties@, character_id, object_id, local_character_id) == (tt, target_id),
                target_id != 0,
                forall|j: int| 0 <= j < i ==> #[trigger] effects@[j].1.status_effect_id != status_effect_id,
            decreases effects@.len() - i,
        {
            if effects[i].1.status_effect_id == status_effect_id {
                proof {
                    let id = effects@[i as int].0;
                    assert(0 <= i < effects@.len());
                    assert(m.dom().contains(effects@[i as int].0));
                    assert(m[effects@[i as int].0] == effects@[i as int].1);
                    assert(m.dom().contains(id) && m[id].status_effect_id == status_effect_id);
                }
                return true;
            }
            i = i + 1;
        }
        proof {
            assert forall|id: u32| #[trigger] m.dom().contains(id) implies m[id].status_effect_id != status_effect_id by {
                let j = choose|j: int| 0 <= j < effects@.len() && #[trigger] effects@[j].0 == id;
                assert(effects@[j].1.status_effect_id != status_effect_id);
            }
        }
        false
    }

    /// Stores a new value on an instance and hands back the instance and its
    /// previous value; `(None, 0)` when it is not tracked.
    pub fn sync_status_effect(
        &mut self,
        instance_id: u32,
        character_id: u64,
        object_id: u64,
        value: u64,
        local_character_id: u64,
        parties: &PartyIds,
    ) -> (r: (Option<StatusEffectDetails>, u64))
        requires
            old(self).wf(),
        ensures
            final(self).wf(),
            changes_kept(old(self)@.changes, final(self)@.changes),
            ({
                let (tt, target) = spec_lookup_target(parties@, character_id, object_id, local_character_id);
                let effects = effects_on(old(self)@.registry(tt), target);
                if target != 0 && effects.dom().contains(instance_id) {
                    let updated = StatusEffectDetails { value, ..effects[instance_id] };
                    &&& r == (Some(updated), effects[instance_id].value)
                    &&& final(self)@ == old(self)@.with_registry(
                        tt,
                        old(self)@.registry(tt).insert(target, effects.insert(instance_id, updated)),
                    )
                } else {
                    r == (None::<StatusEffectDetails>, 0u64) && final(self)@ == old(self)@
                }
            }),
    {
        let use_party = self.should_use_party_status_effect(character_id, local_character_id, parties);
        let tt = if use_party {
            StatusEffectTargetType::Party
        } else {
            StatusEffectTargetType::Local
        };
        let target_id = if use_party {
            character_id
        } else {
            object_id
        };
        if target_id == 0 {
            return (None, 0);
        }
        let mut se = match self.reg_get(tt, target_id, instance_id) {
            Some(se) => se,
            None => return (None, 0),
        };
        proof {
            let reg = self@.registry(tt);
            assert(reg.dom().contains(target_id) && reg[target_id].dom().contains(instance_id));
            assert(reg[target_id][instance_id].wf());
        }
        let old_value = se.value;
        se.value = value;
        let out = se.duplicate();
        self.reg_insert(tt, target_id, instance_id, se);
        (Some(out), old_value)
    }

    /// Whether a source of `stat_type` on one of `target_ids` was recorded as
    /// changed at or after `since`.
    pub fn has_stat_source_changed_since(&self, target_ids: &[u64], stat_type: StatType, since: i128) -> (r: bool)
        ensures
            r == changed_since(self@.changes, target_ids@, stat_type, since),
    {
        let mut i: usize = 0;
        while i < target_ids.len()
            invariant
                i <= target_ids@.len(),
                forall|j: int|
                    0 <= j < i ==> !(#[trigger] self@.changes.dom().contains((target_ids@[j], stat_type))
                        && self@.changes[(target_ids@[j], stat_type)] >= since),
            decreases target_ids@.len() - i,
        {
            match self.stat_source_change_at.get(target_ids[i], stat_type) {
                Some(changed_at) => if changed_at >= since {
                    proof {
                        assert(self@.changes.dom().contains((target_ids@[i as int], stat_type)));
                    }
                    return true;
                },
                None => {},
            }
            i = i + 1;
        }
        false
    }

    fn first_tracked(&self, tt: StatusEffectTargetType, target_ids: &[u64], instance_id: u32) -> (r: Option<StatusEffectDetails>)
        ensures
            r is None == !first_tracked_in(self@.registry(tt), target_ids@, instance_id, target_ids@.len() as int),
            r matches Some(e) ==> exists|j: int|
                0 <= j < target_ids@.len() && #[trigger] effects_on(self@.registry(tt), target_ids@[j]).dom().contains(instance_id)
                    && e == effects_on(self@.registry(tt), target_ids@[j])[instance_id] && !first_tracked_in(
                    self@.registry(tt),
                    target_ids@,
                    instance_id,
                    j,
                ),
    {
        let mut i: usize = 0;
        while i < target_ids.len()
            invariant
                i <= target_ids@.len(),
                !first_tracked_in(self@.registry(tt), target_ids@, instance_id, i as int),
            decreases target_ids@.len() - i,
        {
            let found = self.reg_get(tt, target_ids[i], instance_id);
            if found.is_some() {
                proof {
                    assert(effects_on(self@.registry(tt), target_ids@[i as int]).dom().contains(instance_id));
                }
                return found;
            }
            proof {
                assert forall|j: int| 0 <= j < i + 1 implies !#[trigger] effects_on(self@.registry(tt), target_ids@[j]).dom().contains(
                    instance_id,
                ) by {
                    if j < i {
                        assert(!first_tracked_in(self@.registry(tt), target_ids@, instance_id, i as int));
                    }
                }
            }
            i = i + 1;
        }
        None
    }

    /// The live entry for an instance on the first of `target_ids` that tracks
    /// it, looking through the local registry before the party registry.
    pub fn tracked_status_effect(&self, target_ids: &[u64], instance_id: u32) -> (r: Option<StatusEffectDetails>)
        ensures
            r is None == (!first_tracked_in(self@.local, target_ids@, instance_id, target_ids@.len() as int)
                && !first_tracked_in(self@.party, target_ids@, instance_id, target_ids@.len() as int)),
            first_tracked_in(self@.local, target_ids@, instance_id, target_ids@.len() as int) ==> (r matches Some(e) && exists|j: int|
                0 <= j < target_ids@.len() && #[trigger] effects_on(self@.local, target_ids@[j]).dom().contains(instance_id) && e
                    == effects_on(self@.local, target_ids@[j])[instance_id] && !first_tracked_in(self@.local, target_ids@, instance_id, j)),
            !first_tracked_in(self@.local, target_ids@, instance_id, target_ids@.len() as int) && r is Some ==> (r matches Some(e) && exists|j: int|
                0 <= j < target_ids@.len() && #[trigger] effects_on(self@.party, target_ids@[j]).dom().contains(instance_id) && e
                    == effects_on(self@.party, target_ids@[j])[instance_id] && !first_tracked_in(self@.party, target_ids@, instance_id, j)),
    {
        let local = self.first_tracked(StatusEffectTargetType::Local, target_ids, instance_id);
        if local.is_some() {
            return local;
        }
        self.first_tracked(StatusEffectTargetType::Party, target_ids, instance_id)
    }
}

} // verus!

verus! {

proof fn lemma_prefix_contains<T>(s: Seq<T>, i: int)
    requires
        0 <= i < s.len(),
    ensures
        forall|k: T| #[trigger] s.subrange(0, i + 1).contains(k) == (s.subrange(0, i).contains(k) || k == s[i]),
{
    assert forall|k: T| #[trigger] s.subrange(0, i + 1).contains(k) == (s.subrange(0, i).contains(k) || k == s[i]) by {
        let next = s.subrange(0, i + 1);
        let prefix = s.subrange(0, i);
        if next.contains(k) && k != s[i] {
            let j = choose|j: int| 0 <= j < next.len() && next[j] == k;
            assert(prefix[j] == k);
        }
        if prefix.contains(k) {
            let j = choose|j: int| 0 <= j < prefix.len() && prefix[j] == k;
            assert(next[j] == k);
        }
        if k == s[i] {
            assert(next[i] == k);
        }
    }
}

impl StatusTracker {
    fn pin_in(
        &mut self,
        tt: StatusEffectTargetType,
        target_ids: &[u64],
        sampled: &StatusEffectDetails,
        measured: MeasuredStat,
    ) -> (r: bool)
        requires
            old(self).wf(),
        ensures
            final(self).wf(),
            r == pins_somewhere(old(self)@.registry(tt), target_ids@, *sampled),
            final(self)@ == old(self)@.with_registry(tt, pinned_registry(old(self)@.registry(tt), target_ids@, *sampled, measured)),
    {
        let ghost reg0 = self@.registry(tt);
        let ghost inst = sampled.instance_id;
        let mut applied = false;
        let mut i: usize = 0;
        proof {
            assert(pinned_registry(reg0, target_ids@.subrange(0, 0), *sampled, measured) =~= reg0);
            assert(old(self)@.with_registry(tt, reg0) == old(self)@);
        }
        while i < target_ids.len()
            invariant
                old(self).wf(),
                self.wf(),
                i <= target_ids@.len(),
                inst == sampled.instance_id,
                reg0 == old(self)@.registry(tt),
                applied == pins_somewhere(reg0, target_ids@.subrange(0, i as int), *sampled),
                self@ == old(self)@.with_registry(tt, pinned_registry(reg0, target_ids@.subrange(0, i as int), *sampled, measured)),
            decreases target_ids@.len() - i,
        {
            let t = target_ids[i];
            let ghost prefix = target_ids@.subrange(0, i as int);
            let ghost next = target_ids@.subrange(0, i + 1);
            proof {
                lemma_prefix_contains(target_ids@, i as int);
                assert(next[i as int] == t);
                assert forall|j: int| 0 <= j < i implies #[trigger] next[j] == prefix[j] by {}
            }
            let found = self.reg_get(tt, t, sampled.instance_id);
            match found {
                Some(effect) => {
                    let mut effect = effect;
                    proof {
                        assert(reg0.dom().contains(t));
                        assert(reg0[t].dom().contains(inst));
                        assert(reg0[t][inst].wf());
                    }
                    let pinned = apply_measured_stat(&mut effect, sampled, measured);
                    if pinned {
                        self.reg_insert(tt, t, sampled.instance_id, effect);
                        applied = true;
                        proof {
                            assert(!prefix.contains(t));
                            assert(pinned_registry(reg0, prefix, *sampled, measured).insert(
                                t,
                                pinned_registry(reg0, prefix, *sampled, measured)[t].insert(
                                    inst,
                                    StatusEffectDetails { measured_stat: Some(measured), ..reg0[t][inst] },
                                ),
                            ) =~= pinned_registry(reg0, next, *sampled, measured));
                            assert(effects_on(reg0, next[i as int]).dom().contains(inst));
                        }
                    } else {
                        proof {
                            assert(pinned_registry(reg0, prefix, *sampled, measured) =~= pinned_registry(
                                reg0,
                                next,
                                *sampled,
                                measured,
                            ));
                            if pins(reg0[t][inst], *sampled) {
                                assert(prefix.contains(t));
                                let j = choose|j: int| 0 <= j < prefix.len() && prefix[j] == t;
                                assert(effects_on(reg0, prefix[j]).dom().contains(inst));
                            }
                            assert(pins_somewhere(reg0, next, *sampled) == pins_somewhere(reg0, prefix, *sampled)) by {
                                if pins_somewhere(reg0, next, *sampled) {
                                    let j = choose|j: int|
                                        0 <= j < next.len() && #[trigger] effects_on(reg0, next[j]).dom().contains(inst) && pins(
                                            effects_on(reg0, next[j])[inst],
                                            *sampled,
                                        );
                                    if j == i {
                                        let j2 = choose|j2: int| 0 <= j2 < prefix.len() && prefix[j2] == t;
                                        assert(effects_on(reg0, prefix[j2]).dom().contains(inst));
                                    } else {
                                        assert(effects_on(reg0, prefix[j]).dom().contains(inst));
                                    }
                                }
                                if pins_somewhere(reg0, prefix, *sampled) {
                                    let j = choose|j: int|
                                        0 <= j < prefix.len() && #[trigger] effects_on(reg0, prefix[j]).dom().contains(inst) && pins(
                                            effects_on(reg0, prefix[j])[inst],
                                            *sampled,
                                        );
                                    assert(effects_on(reg0, next[j]).dom().contains(inst));
                                }
                            }
                        }
                    }
                },
                None => {
                    proof {
                        assert(pinned_registry(reg0, prefix, *sampled, measured) =~= pinned_registry(reg0, next, *sampled, measured));
                        assert(pins_somewhere(reg0, next, *sampled) == pins_somewhere(reg0, prefix, *sampled)) by {
                            if pins_somewhere(reg0, next, *sampled) {
                                let j = choose|j: int|
                                    0 <= j < next.len() && #[trigger] effects_on(reg0, next[j]).dom().contains(inst) && pins(
                                        effects_on(reg0, next[j])[inst],
                                        *sampled,
                                    );
                                if j < i {
                                    assert(effects_on(reg0, prefix[j]).dom().contains(inst));
                                }
                            }
                            if pins_somewhere(reg0, prefix, *sampled) {
                                let j = choose|j: int|
                                    0 <= j < prefix.len() && #[trigger] effects_on(reg0, prefix[j]).dom().contains(inst) && pins(
                                        effects_on(reg0, prefix[j])[inst],
                                        *sampled,
                                    );
                                assert(effects_on(reg0, next[j]).dom().contains(inst));
                            }
                        }
                    }
                },
            }
            i = i + 1;
        }
        proof {
            assert(target_ids@.subrange(0, target_ids@.len() as int) == target_ids@);
        }
        applied
    }

    /// Pins a measured stat on the live instance matching `sampled` on each of
    /// `target_ids`, in both registries; see `MeasuredStat`. Returns whether it
    /// was pinned anywhere.
    pub fn try_apply_measured_stat(&mut self, target_ids: &[u64], sampled: &StatusEffectDetails, measured: MeasuredStat) -> (r: bool)
        requires
            old(self).wf(),
        ensures
            final(self).wf(),
            changes_kept(old(self)@.changes, final(self)@.changes),
            r == (pins_somewhere(old(self)@.local, target_ids@, *sampled) || pins_somewhere(old(self)@.party, target_ids@, *sampled)),
            final(self)@ == (TrackerView {
                local: pinned_registry(old(self)@.local, target_ids@, *sampled, measured),
                party: pinned_registry(old(self)@.party, target_ids@, *sampled, measured),
                ..old(self)@
            }),
    {
        let a = self.pin_in(StatusEffectTargetType::Local, target_ids, sampled, measured);
        let b = self.pin_in(StatusEffectTargetType::Party, target_ids, sampled, measured);
        a || b
    }
}

} // verus!

verus! {

/// The server instant before which an expired instance is dropped even
/// without a remove notify: the fail-safe leeway before `server_now`, or the
/// earliest instant.
pub open spec fn spec_fail_safe_cutoff(server_now: int) -> int {
    if server_now - FAIL_SAFE_EXPIRY_LEEWAY_SECONDS * NANOS_PER_SECOND >= MIN_UTC_NANOS {
        server_now - FAIL_SAFE_EXPIRY_LEEWAY_SECONDS * NANOS_PER_SECOND
    } else {
        MIN_UTC_NANOS as int
    }
}

/// A read of one target in progress: the instances kept, the instances
/// visible so far, and the recorded stat source changes.
pub struct ReadState {
    pub kept: Map<u32, StatusEffectDetails>,
    pub visible: Seq<StatusEffectDetails>,
    pub changes: Map<(u64, StatType), i128>,
}

/// One instance of a read of `target` at server instant `sn`: an instance
/// whose deadline passed the fail-safe cutoff is dropped; one whose deadline
/// passed is marked expired (its identity stats recorded as changed at the
/// deadline, on the local clock, the first time) and is visible only to
/// `KeepUntilRemoved` reads; any other instance is visible.
pub open spec fn read_step(
    st: ReadState,
    id: u32,
    e: StatusEffectDetails,
    target: u64,
    sn: int,
    mode: DeadlineMode,
    offset: Option<i128>,
) -> ReadState {
    if e.expire_at is Some && e.expire_at->0 <= spec_fail_safe_cutoff(sn) {
        ReadState { kept: st.kept.remove(id), ..st }
    } else if e.expire_at is Some && e.expire_at->0 <= sn {
        let marked = StatusEffectDetails { packet_expired: true, ..e };
        let st2 = if e.packet_expired {
            st
        } else {
            ReadState {
                kept: st.kept.insert(id, marked),
                changes: noted_changes(
                    st.changes,
                    touched_by(target, marked),
                    spec_server_to_local(offset, e.expire_at->0 as int) as i128,
                ),
                ..st
            }
        };
        if mode == DeadlineMode::KeepUntilRemoved {
            ReadState { visible: st2.visible.push(marked), ..st2 }
        } else {
            st2
        }
    } else {
        ReadState { visible: st.visible.push(e), ..st }
    }
}

/// A read over the first `n` instances listed in `es`.
pub open spec fn read_fold(
    init: ReadState,
    es: Seq<(u32, StatusEffectDetails)>,
    n: int,
    target: u64,
    sn: int,
    mode: DeadlineMode,
    offset: Option<i128>,
) -> ReadState
    decreases n,
{
    if n <= 0 {
        init
    } else {
        read_step(read_fold(init, es, n - 1, target, sn, mode, offset), es[n - 1].0, es[n - 1].1, target, sn, mode, offset)
    }
}

/// The tracker and the visible instances after a read of `target` at local
/// instant `timestamp` that walked the target's instances in the order `es`.
pub open spec fn spec_read(
    v: TrackerView,
    target: u64,
    sett: StatusEffectTargetType,
    timestamp: i128,
    mode: DeadlineMode,
    es: Seq<(u32, StatusEffectDetails)>,
) -> (TrackerView, Seq<StatusEffectDetails>) {
    let reg = v.registry(sett);
    if reg.dom().contains(target) {
        let st = read_fold(
            ReadState { kept: reg[target], visible: seq![], changes: v.changes },
            es,
            es.len() as int,
            target,
            v.to_server(timestamp as int),
            mode,
            v.offset,
        );
        (TrackerView { changes: st.changes, ..v.with_registry(sett, reg.insert(target, st.kept)) }, st.visible)
    } else {
        (v, seq![])
    }
}

/// A read keeps every recorded stat source change.
proof fn lemma_read_fold_keeps(
    init: ReadState,
    es: Seq<(u32, StatusEffectDetails)>,
    n: int,
    target: u64,
    sn: int,
    mode: DeadlineMode,
    offset: Option<i128>,
)
    ensures
        changes_kept(init.changes, read_fold(init, es, n, target, sn, mode, offset).changes),
    decreases n,
{
    if n > 0 {
        lemma_read_fold_keeps(init, es, n - 1, target, sn, mode, offset);
        let prev = read_fold(init, es, n - 1, target, sn, mode, offset);
        let e = es[n - 1].1;
        if !(e.expire_at is Some && e.expire_at->0 <= spec_fail_safe_cutoff(sn)) && e.expire_at is Some && e.expire_at->0 <= sn
            && !e.packet_expired {
            let marked = StatusEffectDetails { packet_expired: true, ..e };
            lemma_noted_keeps(prev.changes, touched_by(target, marked), spec_server_to_local(offset, e.expire_at->0 as int) as i128);
            lemma_changes_kept_trans(
                init.changes,
                prev.changes,
                read_fold(init, es, n, target, sn, mode, offset).changes,
            );
        }
    }
}

/// A read keeps every recorded stat source change.
pub proof fn lemma_read_keeps(
    v: TrackerView,
    target: u64,
    sett: StatusEffectTargetType,
    timestamp: i128,
    mode: DeadlineMode,
    es: Seq<(u32, StatusEffectDetails)>,
)
    ensures
        changes_kept(v.changes, spec_read(v, target, sett, timestamp, mode, es).0.changes),
{
    let reg = v.registry(sett);
    if reg.dom().contains(target) {
        lemma_read_fold_keeps(
            ReadState { kept: reg[target], visible: seq![], changes: v.changes },
            es,
            es.len() as int,
            target,
            v.to_server(timestamp as int),
            mode,
            v.offset,
        );
    }
}

/// One step of a `HideExpired` read matches the step of a `KeepUntilRemoved`
/// read with the instances marked expired left out.
proof fn lemma_hidden_fold(
    init: ReadState,
    es: Seq<(u32, StatusEffectDetails)>,
    n: int,
    target: u64,
    sn: int,
    offset: Option<i128>,
)
    requires
        0 <= n <= es.len(),
        forall|i: int|
            0 <= i < n && (#[trigger] es[i]).1.packet_expired ==> (es[i].1.expire_at matches Some(t) && t <= sn),
    ensures
        ({
            let k = read_fold(init, es, n, target, sn, DeadlineMode::KeepUntilRemoved, offset);
            let h = read_fold(
                ReadState { visible: init.visible.filter(shown_filter()), ..init },
                es,
                n,
                target,
                sn,
                DeadlineMode::HideExpired,
                offset,
            );
            &&& h.kept == k.kept
            &&& h.changes == k.changes
            &&& h.visible == k.visible.filter(shown_filter())
        }),
    decreases n,
{
    if n > 0 {
        lemma_hidden_fold(init, es, n - 1, target, sn, offset);
        let k0 = read_fold(init, es, n - 1, target, sn, DeadlineMode::KeepUntilRemoved, offset);
        let e = es[n - 1].1;
        reveal_with_fuel(Seq::filter, 1);
        if e.expire_at is Some && e.expire_at->0 <= spec_fail_safe_cutoff(sn) {
        } else if e.expire_at is Some && e.expire_at->0 <= sn {
            let marked = StatusEffectDetails { packet_expired: true, ..e };
            assert(k0.visible.push(marked).drop_last() == k0.visible);
        } else {
            assert(!e.packet_expired);
            assert(k0.visible.push(e).drop_last() == k0.visible);
        }
    }
}

/// A read with expired instances hidden shows what a read that keeps them
/// shows, less the instances marked expired, and leaves the tracker the
/// same; this holds where every instance already marked expired is still
/// past its deadline at the moment of the read (`spec_read` walks the
/// target's instances in the order `es`).
pub proof fn hidden_read_is_filtered_kept_read(
    v: TrackerView,
    target: u64,
    sett: StatusEffectTargetType,
    timestamp: i128,
    es: Seq<(u32, StatusEffectDetails)>,
)
    requires
        forall|i: int|
            0 <= i < es.len() && (#[trigger] es[i]).1.packet_expired ==> (es[i].1.expire_at matches Some(t) && t <= v.to_server(
                timestamp as int,
            )),
    ensures
        spec_read(v, target, sett, timestamp, DeadlineMode::HideExpired, es).0 == spec_read(
            v,
            target,
            sett,
            timestamp,
            DeadlineMode::KeepUntilRemoved,
            es,
        ).0,
        spec_read(v, target, sett, timestamp, DeadlineMode::HideExpired, es).1 == spec_read(
            v,
            target,
            sett,
            timestamp,
            DeadlineMode::KeepUntilRemoved,
            es,
        ).1.filter(shown_filter()),
{
    let reg = v.registry(sett);
    if reg.dom().contains(target) {
        let init = ReadState { kept: reg[target], visible: seq![], changes: v.changes };
        reveal_with_fuel(Seq::filter, 1);
        assert(init.visible.filter(shown_filter()) == init.visible);
        assert(ReadState { visible: init.visible.filter(shown_filter()), ..init } == init);
        lemma_hidden_fold(init, es, es.len() as int, target, v.to_server(timestamp as int), v.offset);
    } else {
        reveal_with_fuel(Seq::filter, 1);
        assert(Seq::<StatusEffectDetails>::empty().filter(shown_filter()) == Seq::<StatusEffectDetails>::empty());
    }
}

/// A registration keeps every recorded stat source change.
pub proof fn lemma_register_keeps(v: TrackerView, se: StatusEffectDetails, resolved: Option<u64>)
    ensures
        changes_kept(v.changes, spec_register(v, se, resolved).changes),
{
    let v1 = pruned_for(v, se);
    let v2 = if resumes_retained(v1, se) {
        TrackerView { retained: v1.retained.remove(se.instance_id), ..v1 }
    } else {
        v1
    };
    let merged = merged_entry(se, carried_entry(v1, se), resolved);
    let offset = spec_observe_offset(v2.offset, v2.inherited, merged);
    let observed = if merged.end_tick_on_zone_clock {
        spec_observe_epoch(v2.epoch, merged)
    } else {
        (v2.epoch, false)
    };
    let stored = StatusEffectDetails {
        expire_at: as_instant(spec_expire_at_for(observed.0.epoch, offset.0, merged)),
        packet_expired: false,
        ..merged
    };
    reveal(spec_store);
    let c3 = noted_changes(v2.changes, touched_by(merged.target_id, stored), merged.timestamp);
    lemma_noted_keeps(v2.changes, touched_by(merged.target_id, stored), merged.timestamp);
    let v3 = TrackerView { offset: offset.0, inherited: offset.1, epoch: observed.0, changes: c3, ..v2 };
    let v4 = v3.with_registry(
        merged.target_type,
        v3.registry(merged.target_type).insert(
            merged.target_id,
            effects_on(v3.registry(merged.target_type), merged.target_id).insert(merged.instance_id, stored),
        ),
    );
    assert(v4.changes == c3);
    assert(spec_register(v, se, resolved) == spec_store(v2, merged));
    if observed.1 {
        match v4.epoch.epoch {
            None => {},
            Some(e) => {
                let sn = v4.to_server(merged.timestamp as int);
                let c5 = noted_changes(c3, refresh_touched(v4.local, e, sn), merged.timestamp);
                lemma_noted_keeps(c3, refresh_touched(v4.local, e, sn), merged.timestamp);
                lemma_noted_keeps(c5, refresh_touched(v4.party, e, sn), merged.timestamp);
                lemma_changes_kept_trans(v.changes, c3, c5);
                assert(spec_store(v2, merged).changes == noted_changes(c5, refresh_touched(v4.party, e, sn), merged.timestamp));
                lemma_changes_kept_trans(v.changes, c5, spec_register(v, se, resolved).changes);
            },
        }
    } else {
        assert(spec_store(v2, merged).changes == c3);
    }
}


impl StatusTracker {
    /// The instances visible on `target_id` at local instant `timestamp` under
    /// `deadline_mode`. Expired instances stay tracked until the server removes
    /// them or the fail-safe leeway passes, since a later duration correction
    /// can restore one whose nominal deadline was too early; reaching the
    /// deadline is recorded once, at the deadline itself.
    pub fn actually_get_status_effects(
        &mut self,
        target_id: u64,
        sett: StatusEffectTargetType,
        timestamp: i128,
        deadline_mode: DeadlineMode,
    ) -> (r: Vec<StatusEffectDetails>)
        requires
            old(self).wf(),
            valid_instant(timestamp as int),
        ensures
            final(self).wf(),
            changes_kept(old(self)@.changes, final(self)@.changes),
            exists|es: Seq<(u32, StatusEffectDetails)>|
                lists_entries(es, effects_on(old(self)@.registry(sett), target_id)) && (final(self)@, r@) == spec_read(
                    old(self)@,
                    target_id,
                    sett,
                    timestamp,
                    deadline_mode,
                    es,
                ),
    {
        let server_now = self.local_to_server_time(timestamp);
        let leeway: i128 = FAIL_SAFE_EXPIRY_LEEWAY_SECONDS * NANOS_PER_SECOND;
        let cutoff: i128 = if server_now - leeway >= MIN_UTC_NANOS {
            server_now - leeway
        } else {
            MIN_UTC_NANOS
        };
        let entries = self.reg_effects_of(sett, target_id);
        let mut visible: Vec<StatusEffectDetails> = Vec::new();
        if !self.reg_contains_target(sett, target_id) {
            proof {
                assert(effects_on(old(self)@.registry(sett), target_id) =~= Map::empty());
                assert(entries@ =~= Seq::<(u32, StatusEffectDetails)>::empty()) by {
                    if entries@.len() > 0 {
                        assert(effects_on(old(self)@.registry(sett), target_id).dom().contains(entries@[0].0));
                    }
                }
            }
            return visible;
        }
        let ghost reg0 = self@.registry(sett);
        let ghost effects = reg0[target_id];
        let ghost init = ReadState { kept: effects, visible: seq![], changes: self@.changes };
        let ghost sn = server_now as int;
        let ghost offset = self@.offset;
        proof {
            assert(reg0.insert(target_id, effects) =~= reg0);
            assert(old(self)@.with_registry(sett, reg0) == old(self)@);
        }
        let mut i: usize = 0;
        while i < entries.len()
            invariant
                old(self).wf(),
                self.wf(),
                i <= entries@.len(),
                reg0 == old(self)@.registry(sett),
                reg0.dom().contains(target_id),
                effects == reg0[target_id],
                lists_entries(entries@, effects),
                sn == server_now as int,
                sn == old(self)@.to_server(timestamp as int),
                valid_instant(sn),
                cutoff as int == spec_fail_safe_cutoff(sn),
                offset == old(self)@.offset,
                init == (ReadState { kept: effects, visible: seq![], changes: old(self)@.changes }),
                ({
                    let st = read_fold(init, entries@, i as int, target_id, sn, deadline_mode, offset);
                    &&& visible@ == st.visible
                    &&& self@ == (TrackerView {
                        changes: st.changes,
                        ..old(self)@.with_registry(sett, reg0.insert(target_id, st.kept))
                    })
                }),
            decreases entries@.len() - i,
        {
            let id = entries[i].0;
            proof {
                assert(effects.dom().contains(entries@[i as int].0));
                assert(effects[entries@[i as int].0] == entries@[i as int].1);
                assert(reg0[target_id][id].wf());
            }
            let e = entries[i].1.duplicate();
            let ghost prev = read_fold(init, entries@, i as int, target_id, sn, deadline_mode, offset);
            match e.expire_at {
                Some(expire_at) => {
                    if expire_at <= cutoff {
                        self.reg_remove(sett, target_id, id);
                        proof {
                            assert(reg0.insert(target_id, prev.kept).insert(target_id, prev.kept.remove(id)) =~= reg0.insert(
                                target_id,
                                prev.kept.remove(id),
                            ));
                        }
                    } else if expire_at <= server_now {
                        let mut marked = e.duplicate();
                        marked.packet_expired = true;
                        if !e.packet_expired {
                            let at = self.server_to_local_time(expire_at);
                            self.reg_insert(sett, target_id, id, marked.duplicate());
                            proof {
                                assert(reg0.insert(target_id, prev.kept).insert(target_id, prev.kept.insert(id, marked)) =~= reg0.insert(
                                    target_id,
                                    prev.kept.insert(id, marked),
                                ));
                            }
                            self.note_stat_sources_changed(target_id, &marked, at);
                        }
                        match deadline_mode {
                            DeadlineMode::KeepUntilRemoved => visible.push(marked),
                            DeadlineMode::HideExpired => {},
                        }
                    } else {
                        visible.push(e);
                    }
                },
                None => visible.push(e),
            }
            i = i + 1;
        }
        proof {
            assert(entries@.len() == i);
        }
        proof {
            lemma_read_keeps(old(self)@, target_id, sett, timestamp, deadline_mode, entries@);
        }
        visible
    }
}

} // verus!

verus! {

/// Whether a target read keeps `se` for a hit by `source_id` on a target with
/// NPC id `target_npc_id`: on a player, another source's self-targeted local
/// debuff is left out.
pub open spec fn kept_for_hit(se: StatusEffectDetails, source_id: u64, target_npc_id: u32) -> bool {
    target_npc_id != 0 || !(se.target_type == StatusEffectTargetType::Local && se.category == StatusEffectCategory::Debuff
        && se.source_id != source_id && se.db_target_type@ == "self"@)
}

/// `kept_for_hit` as a predicate on the effects of the target.
pub open spec fn hit_kept(source_id: u64, target_npc_id: u32) -> spec_fn(StatusEffectDetails) -> bool {
    |se: StatusEffectDetails| kept_for_hit(se, source_id, target_npc_id)
}

/// Filtering keeps exactly the items of the list that satisfy the
/// predicate, and keeps a list whose items all satisfy it whole.
proof fn lemma_filter_exact<A>(s: Seq<A>, p: spec_fn(A) -> bool)
    ensures
        (forall|i: int| 0 <= i < s.len() ==> p(#[trigger] s[i])) ==> s.filter(p) == s,
        forall|e: A| #[trigger] s.filter(p).contains(e) <==> (s.contains(e) && p(e)),
    decreases s.len(),
{
    reveal_with_fuel(Seq::filter, 1);
    if s.len() > 0 {
        let rest = s.drop_last();
        lemma_filter_exact(rest, p);
        assert(s == rest.push(s.last()));
        assert forall|e: A| #[trigger] s.filter(p).contains(e) <==> (s.contains(e) && p(e)) by {
            if s.contains(e) && p(e) {
                let i = choose|i: int| 0 <= i < s.len() && s[i] == e;
                if i < s.len() - 1 {
                    assert(rest[i] == e);
                    assert(rest.contains(e));
                }
            }
            if s.filter(p).contains(e) {
                if rest.filter(p).contains(e) {
                    let j = choose|j: int| 0 <= j < rest.len() && rest[j] == e;
                    assert(s[j] == e);
                } else {
                    assert(e == s.last());
                }
            }
        }
        if forall|i: int| 0 <= i < s.len() ==> p(#[trigger] s[i]) {
            assert forall|i: int| 0 <= i < rest.len() implies p(#[trigger] rest[i]) by {
                assert(rest[i] == s[i]);
            }
        }
    } else {
        assert(s.filter(p) =~= s);
    }
}

/// Which of the effects visible on a hit's target count for the hit: on a
/// target with an NPC id, every visible effect; otherwise every visible
/// effect but a debuff on the local registry that another source applied to
/// itself. Nothing else is dropped, and nothing is added.
pub proof fn hit_target_effects_law(visible: Seq<StatusEffectDetails>, source_id: u64, target_npc_id: u32)
    ensures
        target_npc_id != 0 ==> visible.filter(hit_kept(source_id, target_npc_id)) == visible,
        forall|e: StatusEffectDetails| #[trigger] visible.filter(hit_kept(source_id, target_npc_id)).contains(e) ==> visible.contains(e),
        forall|e: StatusEffectDetails|
            visible.contains(e) && !(#[trigger] visible.filter(hit_kept(source_id, target_npc_id)).contains(e)) ==> {
                &&& target_npc_id == 0
                &&& e.target_type == StatusEffectTargetType::Local
                &&& e.category == StatusEffectCategory::Debuff
                &&& e.source_id != source_id
                &&& e.db_target_type@ == "self"@
            },
{
    lemma_filter_exact(visible, hit_kept(source_id, target_npc_id));
}

/// On a target with an NPC id, the effects a hit reads on the target are
/// exactly the target's visible effects: those a `HideExpired` read of the
/// target shows, after the read of the source.
pub proof fn hit_on_npc_target_reads_visible_effects(
    before: TrackerView,
    after: TrackerView,
    on_source: Seq<StatusEffectDetails>,
    on_target: Seq<StatusEffectDetails>,
    source_entity: Entity,
    target_entity: Entity,
    local_character_id: u64,
    parties: Map<u64, u32>,
    timestamp: i128,
)
    requires
        spec_hit_read(before, after, on_source, on_target, source_entity, target_entity, local_character_id, parties, timestamp),
        target_entity.npc_id != 0,
    ensures
        exists|mid: TrackerView, tt: StatusEffectTargetType, tid: u64, es: Seq<(u32, StatusEffectDetails)>|
            #[trigger] spec_read(mid, tid, tt, timestamp, DeadlineMode::HideExpired, es) == (after, on_target),
{
    let is_player = source_entity.entity_type == EntityType::Player;
    let (st, sid) = spec_hit_read_target(parties, is_player, source_entity, local_character_id);
    let (tt, tid) = spec_hit_read_target(parties, is_player, target_entity, local_character_id);
    let (es1, es2) = choose|es1: Seq<(u32, StatusEffectDetails)>, es2: Seq<(u32, StatusEffectDetails)>|
        #![trigger spec_read(before, sid, st, timestamp, DeadlineMode::KeepUntilRemoved, es1), spec_read(spec_read(before, sid, st, timestamp, DeadlineMode::KeepUntilRemoved, es1).0, tid, tt, timestamp, DeadlineMode::HideExpired, es2)]
        {
            let first = spec_read(before, sid, st, timestamp, DeadlineMode::KeepUntilRemoved, es1);
            let second = spec_read(first.0, tid, tt, timestamp, DeadlineMode::HideExpired, es2);
            &&& lists_entries(es1, effects_on(before.registry(st), sid))
            &&& on_source == first.1
            &&& lists_entries(es2, effects_on(first.0.registry(tt), tid))
            &&& after == second.0
            &&& on_target == second.1.filter(hit_kept(sid, target_entity.npc_id))
        };
    let first = spec_read(before, sid, st, timestamp, DeadlineMode::KeepUntilRemoved, es1);
    let second = spec_read(first.0, tid, tt, timestamp, DeadlineMode::HideExpired, es2);
    hit_target_effects_law(second.1, sid, target_entity.npc_id);
    assert(spec_read(first.0, tid, tt, timestamp, DeadlineMode::HideExpired, es2) == (after, on_target));
}

/// The registry and target a hit reads the effects on `e` from.
pub open spec fn spec_hit_read_target(parties: Map<u64, u32>, source_is_player: bool, e: Entity, local_character_id: u64) -> (
    StatusEffectTargetType,
    u64,
) {
    if source_is_player && spec_use_party(parties, e.character_id, local_character_id) {
        (StatusEffectTargetType::Party, e.character_id)
    } else {
        (StatusEffectTargetType::Local, e.id)
    }
}

/// What a hit's read of the status effects on its source and its target
/// gives (`before` and `after` the tracker's view, `on_source` and
/// `on_target` the two lists) at local instant `timestamp`: the source's
/// effects kept until removed, then the target's effects with expired ones
/// hidden and only those that count for the hit kept.
pub open spec fn spec_hit_read(
    before: TrackerView,
    after: TrackerView,
    on_source: Seq<StatusEffectDetails>,
    on_target: Seq<StatusEffectDetails>,
    source_entity: Entity,
    target_entity: Entity,
    local_character_id: u64,
    parties: Map<u64, u32>,
    timestamp: i128,
) -> bool {
    let is_player = source_entity.entity_type == EntityType::Player;
    let (st, sid) = spec_hit_read_target(parties, is_player, source_entity, local_character_id);
    let (tt, tid) = spec_hit_read_target(parties, is_player, target_entity, local_character_id);
    exists|es1: Seq<(u32, StatusEffectDetails)>, es2: Seq<(u32, StatusEffectDetails)>|
        #![trigger spec_read(before, sid, st, timestamp, DeadlineMode::KeepUntilRemoved, es1), spec_read(spec_read(before, sid, st, timestamp, DeadlineMode::KeepUntilRemoved, es1).0, tid, tt, timestamp, DeadlineMode::HideExpired, es2)]
        {
            let first = spec_read(before, sid, st, timestamp, DeadlineMode::KeepUntilRemoved, es1);
            let second = spec_read(first.0, tid, tt, timestamp, DeadlineMode::HideExpired, es2);
            &&& lists_entries(es1, effects_on(before.registry(st), sid))
            &&& on_source == first.1
            &&& lists_entries(es2, effects_on(first.0.registry(tt), tid))
            &&& after == second.0
            &&& on_target == second.1.filter(hit_kept(sid, target_entity.npc_id))
        }
}

impl StatusTracker {
    fn kept_for_hit_exec(se: &StatusEffectDetails, source_id: u64, target_npc_id: u32) -> (r: bool)
        ensures
            r == kept_for_hit(*se, source_id, target_npc_id),
    {
        if target_npc_id != 0 {
            return true;
        }
        let local = match se.target_type {
            StatusEffectTargetType::Local => true,
            _ => false,
        };
        let debuff = match se.category {
            StatusEffectCategory::Debuff => true,
            _ => false,
        };
        !(local && debuff && se.source_id != source_id && str_eq(se.db_target_type.as_str(), "self"))
    }

    /// The effects a hit reads at local instant `timestamp`: those on the
    /// source, expired ones included until removed, and those visible on the
    /// target, without another source's self-targeted local debuffs on a
    /// player target.
    pub fn get_status_effects_at(
        &mut self,
        source_entity: &Entity,
        target_entity: &Entity,
        local_character_id: u64,
        parties: &PartyIds,
        timestamp: i128,
    ) -> (r: (Vec<StatusEffectDetails>, Vec<StatusEffectDetails>))
        requires
            old(self).wf(),
            valid_instant(timestamp as int),
        ensures
            final(self).wf(),
            changes_kept(old(self)@.changes, final(self)@.changes),
            spec_hit_read(
                old(self)@,
                final(self)@,
                r.0@,
                r.1@,
                *source_entity,
                *target_entity,
                local_character_id,
                parties@,
                timestamp,
            ),
    {
        let is_player = match source_entity.entity_type {
            EntityType::Player => true,
            _ => false,
        };
        let source_party = is_player && self.should_use_party_status_effect(
            source_entity.character_id,
            local_character_id,
            parties,
        );
        let (source_type, source_id) = if source_party {
            (StatusEffectTargetType::Party, source_entity.character_id)
        } else {
            (StatusEffectTargetType::Local, source_entity.id)
        };
        let on_source = self.actually_get_status_effects(source_id, source_type, timestamp, DeadlineMode::KeepUntilRemoved);
        let ghost mid = self@;
        let ghost es1 = choose|es: Seq<(u32, StatusEffectDetails)>|
            lists_entries(es, effects_on(old(self)@.registry(source_type), source_id)) && (mid, on_source@) == spec_read(
                old(self)@,
                source_id,
                source_type,
                timestamp,
                DeadlineMode::KeepUntilRemoved,
                es,
            );
        let target_party = is_player && self.should_use_party_status_effect(
            target_entity.character_id,
            local_character_id,
            parties,
        );
        let (target_type, target_id) = if target_party {
            (StatusEffectTargetType::Party, target_entity.character_id)
        } else {
            (StatusEffectTargetType::Local, target_entity.id)
        };
        let on_target = self.actually_get_status_effects(target_id, target_type, timestamp, DeadlineMode::HideExpired);
        let ghost es2 = choose|es: Seq<(u32, StatusEffectDetails)>|
            lists_entries(es, effects_on(mid.registry(target_type), target_id)) && (self@, on_target@) == spec_read(
                mid,
                target_id,
                target_type,
                timestamp,
                DeadlineMode::HideExpired,
                es,
            );
        let mut kept: Vec<StatusEffectDetails> = Vec::new();
        let mut i: usize = 0;
        while i < on_target.len()
            invariant
                i <= on_target@.len(),
                kept@ == on_target@.subrange(0, i as int).filter(hit_kept(source_id, target_entity.npc_id)),
            decreases on_target@.len() - i,
        {
            proof {
                reveal_with_fuel(Seq::filter, 1);
                assert(on_target@.subrange(0, i + 1).drop_last() == on_target@.subrange(0, i as int));
            }
            if Self::kept_for_hit_exec(&on_target[i], source_id, target_entity.npc_id) {
                kept.push(on_target[i].duplicate());
            }
            i = i + 1;
        }
        proof {
            assert(on_target@.subrange(0, on_target@.len() as int) == on_target@);
            assert(spec_hit_read_target(parties@, is_player, *source_entity, local_character_id) == (source_type, source_id));
            assert(spec_hit_read_target(parties@, is_player, *target_entity, local_character_id) == (target_type, target_id));
            let first = spec_read(old(self)@, source_id, source_type, timestamp, DeadlineMode::KeepUntilRemoved, es1);
            let second = spec_read(first.0, target_id, target_type, timestamp, DeadlineMode::HideExpired, es2);
            assert(first.0 == mid && first.1 == on_source@);
            assert(second.0 == self@ && second.1 == on_target@);
        }
        (on_source, kept)
    }

    /// `get_status_effects_at` now.
    pub fn get_status_effects(
        &mut self,
        source_entity: &Entity,
        target_entity: &Entity,
        local_character_id: u64,
        parties: &PartyIds,
    ) -> (r: (Vec<StatusEffectDetails>, Vec<StatusEffectDetails>))
        requires
            old(self).wf(),
        ensures
            final(self).wf(),
            changes_kept(old(self)@.changes, final(self)@.changes),
            exists|now: i128|
                valid_instant(now as int) && spec_hit_read(
                    old(self)@,
                    final(self)@,
                    r.0@,
                    r.1@,
                    *source_entity,
                    *target_entity,
                    local_character_id,
                    parties@,
                    now,
                ),
    {
        let now = utc_now();
        self.get_status_effects_at(source_entity, target_entity, local_character_id, parties, now)
    }
}

} // verus!

verus! {

/// The key under which a source read merges instances.
pub open spec fn merge_key(e: StatusEffectDetails) -> (u32, u32, u64) {
    (e.instance_id, e.status_effect_id, e.source_id)
}

/// The order of a merged source read: by arrival, then by key.
pub open spec fn sort_lt(a: StatusEffectDetails, b: StatusEffectDetails) -> bool {
    a.timestamp < b.timestamp || (a.timestamp == b.timestamp && (a.instance_id < b.instance_id || (a.instance_id
        == b.instance_id && (a.status_effect_id < b.status_effect_id || (a.status_effect_id == b.status_effect_id
        && a.source_id < b.source_id)))))
}

/// The local read keyed by merge key, a later instance replacing an earlier one.
pub open spec fn merge_local(es: Seq<StatusEffectDetails>) -> Map<(u32, u32, u64), StatusEffectDetails>
    decreases es.len(),
{
    if es.len() == 0 {
        Map::empty()
    } else {
        merge_local(es.drop_last()).insert(merge_key(es.last()), es.last())
    }
}

/// The party read merged into `m`: an instance replaces one of the same key
/// only when it arrived later.
pub open spec fn merge_party(m: Map<(u32, u32, u64), StatusEffectDetails>, es: Seq<StatusEffectDetails>) -> Map<
    (u32, u32, u64),
    StatusEffectDetails,
>
    decreases es.len(),
{
    if es.len() == 0 {
        m
    } else {
        let p = merge_party(m, es.drop_last());
        let e = es.last();
        if p.dom().contains(merge_key(e)) && !(e.timestamp > p[merge_key(e)].timestamp) {
            p
        } else {
            p.insert(merge_key(e), e)
        }
    }
}

/// Whether `v` holds the instances of `m`, each once, under their keys.
pub open spec fn lists_merged(v: Seq<StatusEffectDetails>, m: Map<(u32, u32, u64), StatusEffectDetails>) -> bool {
    &&& forall|i: int| 0 <= i < v.len() ==> #[trigger] m.dom().contains(merge_key(v[i])) && m[merge_key(v[i])] == v[i]
    &&& forall|i: int, j: int| 0 <= i < j < v.len() ==> merge_key(#[trigger] v[i]) != merge_key(#[trigger] v[j])
    &&& forall|k: (u32, u32, u64)| #[trigger] m.dom().contains(k) ==> exists|i: int| 0 <= i < v.len() && merge_key(#[trigger] v[i]) == k
}

pub open spec fn sorted_by_arrival(v: Seq<StatusEffectDetails>) -> bool {
    forall|i: int, j: int| 0 <= i < j < v.len() ==> sort_lt(#[trigger] v[i], #[trigger] v[j])
}

/// The index in `v` of the instance with key `k`, if any.
fn find_key(v: &Vec<StatusEffectDetails>, k: (u32, u32, u64)) -> (r: Option<usize>)
    ensures
        r matches Some(i) ==> i < v@.len() && merge_key(v@[i as int]) == k,
        r is None ==> forall|i: int| 0 <= i < v@.len() ==> merge_key(#[trigger] v@[i]) != k,
{
    let mut i: usize = 0;
    while i < v.len()
        invariant
            i <= v@.len(),
            forall|j: int| 0 <= j < i ==> merge_key(#[trigger] v@[j]) != k,
        decreases v@.len() - i,
    {
        if v[i].instance_id == k.0 && v[i].status_effect_id == k.1 && v[i].source_id == k.2 {
            return Some(i);
        }
        i = i + 1;
    }
    None
}

/// Stores `e` in the merged list `v` under its key: pushed when the key is
/// new, replacing the entry with that key when `replace` says so.
fn merge_into(
    v: &mut Vec<StatusEffectDetails>,
    e: StatusEffectDetails,
    only_if_later: bool,
    Ghost(m): Ghost<Map<(u32, u32, u64), StatusEffectDetails>>,
) -> (r: Ghost<Map<(u32, u32, u64), StatusEffectDetails>>)
    requires
        lists_merged(old(v)@, m),
    ensures
        lists_merged(final(v)@, r@),
        r@ == (if only_if_later && m.dom().contains(merge_key(e)) && !(e.timestamp > m[merge_key(e)].timestamp) {
            m
        } else {
            m.insert(merge_key(e), e)
        }),
{
    let k = (e.instance_id, e.status_effect_id, e.source_id);
    match find_key(v, k) {
        Some(i) => {
            proof {
                assert(m.dom().contains(merge_key(v@[i as int])));
            }
            if only_if_later && !(e.timestamp > v[i].timestamp) {
                return Ghost(m);
            }
            let ghost before = v@;
            v.set(i, e);
            proof {
                let m2 = m.insert(merge_key(e), e);
                assert forall|j: int| 0 <= j < v@.len() implies #[trigger] m2.dom().contains(merge_key(v@[j])) && m2[merge_key(v@[j])]
                    == v@[j] by {
                    if j != i {
                        assert(m.dom().contains(merge_key(before[j])));
                        assert(merge_key(before[j]) != merge_key(before[i as int])) by {
                            if j < i {
                                assert(merge_key(before[j]) != merge_key(before[i as int]));
                            } else {
                                assert(merge_key(before[i as int]) != merge_key(before[j]));
                            }
                        }
                    }
                }
                assert forall|a: int, b: int| 0 <= a < b < v@.len() implies merge_key(#[trigger] v@[a]) != merge_key(#[trigger] v@[b]) by {
                    assert(merge_key(before[a]) != merge_key(before[b]));
                }
                assert forall|kk: (u32, u32, u64)| #[trigger] m2.dom().contains(kk) implies exists|j: int|
                    0 <= j < v@.len() && merge_key(#[trigger] v@[j]) == kk by {
                    if kk == merge_key(e) {
                        assert(merge_key(v@[i as int]) == kk);
                    } else {
                        let j = choose|j: int| 0 <= j < before.len() && merge_key(#[trigger] before[j]) == kk;
                        assert(merge_key(v@[j]) == kk);
                    }
                }
            }
            Ghost(m.insert(merge_key(e), e))
        },
        None => {
            proof {
                assert(!m.dom().contains(k)) by {
                    if m.dom().contains(k) {
                        let j = choose|j: int| 0 <= j < v@.len() && merge_key(#[trigger] v@[j]) == k;
                    }
                }
            }
            let ghost before = v@;
            v.push(e);
            proof {
                let m2 = m.insert(merge_key(e), e);
                assert forall|j: int| 0 <= j < v@.len() implies #[trigger] m2.dom().contains(merge_key(v@[j])) && m2[merge_key(v@[j])]
                    == v@[j] by {
                    if j < before.len() {
                        assert(m.dom().contains(merge_key(before[j])));
                    }
                }
                assert forall|a: int, b: int| 0 <= a < b < v@.len() implies merge_key(#[trigger] v@[a]) != merge_key(#[trigger] v@[b]) by {
                    if b < before.len() {
                        assert(merge_key(before[a]) != merge_key(before[b]));
                    } else {
                        assert(merge_key(before[a]) != k);
                    }
                }
                assert forall|kk: (u32, u32, u64)| #[trigger] m2.dom().contains(kk) implies exists|j: int|
                    0 <= j < v@.len() && merge_key(#[trigger] v@[j]) == kk by {
                    if kk == merge_key(e) {
                        assert(merge_key(v@[before.len() as int]) == kk);
                    } else {
                        let j = choose|j: int| 0 <= j < before.len() && merge_key(#[trigger] before[j]) == kk;
                        assert(merge_key(v@[j]) == kk);
                    }
                }
            }
            Ghost(m.insert(merge_key(e), e))
        },
    }
}

/// Two instances of different keys are ordered one way or the other.
proof fn lemma_sort_total(x: StatusEffectDetails, y: StatusEffectDetails)
    requires
        merge_key(x) != merge_key(y),
        !sort_lt(x, y),
    ensures
        sort_lt(y, x),
{
}

proof fn lemma_insert_position(out: Seq<StatusEffectDetails>, x: StatusEffectDetails, pos: int)
    requires
        sorted_by_arrival(out),
        0 <= pos <= out.len(),
        forall|a: int| 0 <= a < pos ==> !sort_lt(x, #[trigger] out[a]),
        pos < out.len() ==> sort_lt(x, out[pos]),
        forall|a: int| 0 <= a < out.len() ==> merge_key(#[trigger] out[a]) != merge_key(x),
    ensures
        sorted_by_arrival(out.insert(pos, x)),
{
    assert forall|a: int| 0 <= a < pos implies sort_lt(#[trigger] out[a], x) by {
        lemma_sort_total(x, out[a]);
    }
    assert forall|a: int| pos <= a < out.len() implies sort_lt(x, #[trigger] out[a]) by {
        if a > pos {
            assert(sort_lt(out[pos], out[a]));
        }
    }
    let n = out.insert(pos, x);
    assert forall|a: int, c: int| 0 <= a < c < n.len() implies sort_lt(#[trigger] n[a], #[trigger] n[c]) by {
        if c < pos {
            assert(sort_lt(out[a], out[c]));
        } else if c == pos {
            assert(sort_lt(out[a], x));
        } else if a < pos {
            assert(sort_lt(out[a], out[c - 1]));
        } else if a == pos {
            assert(sort_lt(x, out[c - 1]));
        } else {
            assert(sort_lt(out[a - 1], out[c - 1]));
        }
    }
}

/// `out` holds exactly the first `i` instances of `v`.
#[verifier::opaque]
pub open spec fn holds_prefix(out: Seq<StatusEffectDetails>, v: Seq<StatusEffectDetails>, i: int) -> bool {
    &&& forall|a: int| 0 <= a < out.len() ==> exists|b: int| 0 <= b < i && #[trigger] out[a] == #[trigger] v[b]
    &&& forall|b: int| 0 <= b < i ==> exists|a: int| 0 <= a < out.len() && #[trigger] out[a] == #[trigger] v[b]
}

proof fn lemma_insert_holds(out: Seq<StatusEffectDetails>, v: Seq<StatusEffectDetails>, i: int, pos: int)
    requires
        0 <= i < v.len(),
        0 <= pos <= out.len(),
        holds_prefix(out, v, i),
    ensures
        holds_prefix(out.insert(pos, v[i]), v, i + 1),
{
    reveal(holds_prefix);
    let n = out.insert(pos, v[i]);
    assert forall|a: int| 0 <= a < n.len() implies exists|b: int| 0 <= b < i + 1 && #[trigger] n[a] == #[trigger] v[b] by {
        if a < pos {
            let b = choose|b: int| 0 <= b < i && #[trigger] out[a] == #[trigger] v[b];
            assert(n[a] == v[b]);
        } else if a == pos {
            assert(n[a] == v[i]);
        } else {
            let b = choose|b: int| 0 <= b < i && #[trigger] out[a - 1] == #[trigger] v[b];
            assert(n[a] == v[b]);
        }
    }
    assert forall|b: int| 0 <= b < i + 1 implies exists|a: int| 0 <= a < n.len() && #[trigger] n[a] == #[trigger] v[b] by {
        if b == i {
            assert(n[pos] == v[b]);
        } else {
            let a = choose|a: int| 0 <= a < out.len() && #[trigger] out[a] == #[trigger] v[b];
            if a < pos {
                assert(n[a] == v[b]);
            } else {
                assert(n[a + 1] == v[b]);
            }
        }
    }
}

proof fn lemma_new_key(out: Seq<StatusEffectDetails>, v: Seq<StatusEffectDetails>, i: int, m: Map<(u32, u32, u64), StatusEffectDetails>)
    requires
        0 <= i < v.len(),
        holds_prefix(out, v, i),
        lists_merged(v, m),
    ensures
        forall|a: int| 0 <= a < out.len() ==> merge_key(#[trigger] out[a]) != merge_key(v[i]),
{
    reveal(holds_prefix);
    assert forall|a: int| 0 <= a < out.len() implies merge_key(#[trigger] out[a]) != merge_key(v[i]) by {
        let b = choose|b: int| 0 <= b < i && #[trigger] out[a] == #[trigger] v[b];
        assert(merge_key(v[b]) != merge_key(v[i]));
    }
}

proof fn lemma_sorted_lists(out: Seq<StatusEffectDetails>, v: Seq<StatusEffectDetails>, m: Map<(u32, u32, u64), StatusEffectDetails>)
    requires
        holds_prefix(out, v, v.len() as int),
        lists_merged(v, m),
        sorted_by_arrival(out),
    ensures
        lists_merged(out, m),
{
    reveal(holds_prefix);
    assert forall|a: int| 0 <= a < out.len() implies #[trigger] m.dom().contains(merge_key(out[a])) && m[merge_key(out[a])] == out[a] by {
        let b = choose|b: int| 0 <= b < v.len() && #[trigger] out[a] == #[trigger] v[b];
        assert(m.dom().contains(merge_key(v[b])));
    }
    assert forall|a: int, c: int| 0 <= a < c < out.len() implies merge_key(#[trigger] out[a]) != merge_key(#[trigger] out[c]) by {
        assert(sort_lt(out[a], out[c]));
    }
    assert forall|k: (u32, u32, u64)| #[trigger] m.dom().contains(k) implies exists|a: int|
        0 <= a < out.len() && merge_key(#[trigger] out[a]) == k by {
        let b = choose|b: int| 0 <= b < v.len() && merge_key(#[trigger] v[b]) == k;
        let a = choose|a: int| 0 <= a < out.len() && #[trigger] out[a] == #[trigger] v[b];
    }
}

fn sorts_before(a: &StatusEffectDetails, b: &StatusEffectDetails) -> (r: bool)
    ensures
        r == sort_lt(*a, *b),
{
    a.timestamp < b.timestamp || (a.timestamp == b.timestamp && (a.instance_id < b.instance_id || (a.instance_id == b.instance_id
        && (a.status_effect_id < b.status_effect_id || (a.status_effect_id == b.status_effect_id && a.source_id < b.source_id)))))
}

/// The instances of `v` sorted by arrival, then by key.
fn sort_by_arrival(v: Vec<StatusEffectDetails>, Ghost(m): Ghost<Map<(u32, u32, u64), StatusEffectDetails>>) -> (r: Vec<StatusEffectDetails>)
    requires
        lists_merged(v@, m),
    ensures
        lists_merged(r@, m),
        sorted_by_arrival(r@),
{
    let mut out: Vec<StatusEffectDetails> = Vec::new();
    let mut i: usize = 0;
    proof {
        reveal(holds_prefix);
    }
    while i < v.len()
        invariant
            i <= v@.len(),
            lists_merged(v@, m),
            sorted_by_arrival(out@),
            holds_prefix(out@, v@, i as int),
        decreases v@.len() - i,
    {
        let x = v[i].duplicate();
        let mut pos: usize = 0;
        while pos < out.len() && !sorts_before(&x, &out[pos])
            invariant
                pos <= out@.len(),
                x == v@[i as int],
                forall|a: int| 0 <= a < pos ==> !sort_lt(x, #[trigger] out@[a]),
            decreases out@.len() - pos,
        {
            pos = pos + 1;
        }
        proof {
            lemma_new_key(out@, v@, i as int, m);
            lemma_insert_position(out@, x, pos as int);
            lemma_insert_holds(out@, v@, i as int, pos as int);
        }
        out.insert(pos, x);
        i = i + 1;
    }
    proof {
        lemma_sorted_lists(out@, v@, m);
    }
    out
}

} // verus!

verus! {

impl StatusTracker {
    /// The effects on a source at local instant `timestamp`. For a player the
    /// local and the party registry are both read and merged by instance,
    /// status effect and source, the later arrival winning; the result is
    /// ordered by arrival, then by that key.
    pub fn get_source_status_effects(&mut self, source_entity: &Entity, timestamp: i128, deadline_mode: DeadlineMode) -> (r: Vec<
        StatusEffectDetails,
    >)
        requires
            old(self).wf(),
            valid_instant(timestamp as int),
        ensures
            final(self).wf(),
            changes_kept(old(self)@.changes, final(self)@.changes),
            source_entity.entity_type != EntityType::Player ==> exists|es: Seq<(u32, StatusEffectDetails)>|
                lists_entries(es, effects_on(old(self)@.local, source_entity.id)) && (final(self)@, r@) == spec_read(
                    old(self)@,
                    source_entity.id,
                    StatusEffectTargetType::Local,
                    timestamp,
                    deadline_mode,
                    es,
                ),
            source_entity.entity_type == EntityType::Player ==> exists|es1: Seq<(u32, StatusEffectDetails)>, es2: Seq<(u32, StatusEffectDetails)>|
                #![trigger spec_read(old(self)@, source_entity.id, StatusEffectTargetType::Local, timestamp, deadline_mode, es1), spec_read(spec_read(old(self)@, source_entity.id, StatusEffectTargetType::Local, timestamp, deadline_mode, es1).0, source_entity.character_id, StatusEffectTargetType::Party, timestamp, deadline_mode, es2)]
                {
                    let first = spec_read(old(self)@, source_entity.id, StatusEffectTargetType::Local, timestamp, deadline_mode, es1);
                    let second = spec_read(first.0, source_entity.character_id, StatusEffectTargetType::Party, timestamp, deadline_mode, es2);
                    &&& lists_entries(es1, effects_on(old(self)@.local, source_entity.id))
                    &&& lists_entries(es2, effects_on(first.0.party, source_entity.character_id))
                    &&& final(self)@ == second.0
                    &&& lists_merged(r@, merge_party(merge_local(first.1), second.1))
                    &&& sorted_by_arrival(r@)
                },
    {
        let is_player = match source_entity.entity_type {
            EntityType::Player => true,
            _ => false,
        };
        if !is_player {
            return self.actually_get_status_effects(source_entity.id, StatusEffectTargetType::Local, timestamp, deadline_mode);
        }
        let local = self.actually_get_status_effects(source_entity.id, StatusEffectTargetType::Local, timestamp, deadline_mode);
        let ghost mid = self@;
        let ghost es1 = choose|es: Seq<(u32, StatusEffectDetails)>|
            lists_entries(es, effects_on(old(self)@.local, source_entity.id)) && (mid, local@) == spec_read(
                old(self)@,
                source_entity.id,
                StatusEffectTargetType::Local,
                timestamp,
                deadline_mode,
                es,
            );
        let party = self.actually_get_status_effects(source_entity.character_id, StatusEffectTargetType::Party, timestamp, deadline_mode);
        let ghost es2 = choose|es: Seq<(u32, StatusEffectDetails)>|
            lists_entries(es, effects_on(mid.party, source_entity.character_id)) && (self@, party@) == spec_read(
                mid,
                source_entity.character_id,
                StatusEffectTargetType::Party,
                timestamp,
                deadline_mode,
                es,
            );
        let mut merged: Vec<StatusEffectDetails> = Vec::new();
        let ghost mut m: Map<(u32, u32, u64), StatusEffectDetails> = Map::empty();
        let mut i: usize = 0;
        proof {
            assert(local@.subrange(0, 0) =~= Seq::<StatusEffectDetails>::empty());
        }
        while i < local.len()
            invariant
                i <= local@.len(),
                lists_merged(merged@, m),
                m == merge_local(local@.subrange(0, i as int)),
            decreases local@.len() - i,
        {
            proof {
                assert(local@.subrange(0, i + 1).drop_last() == local@.subrange(0, i as int));
            }
            let Ghost(m2) = merge_into(&mut merged, local[i].duplicate(), false, Ghost(m));
            proof {
                m = m2;
            }
            i = i + 1;
        }
        proof {
            assert(local@.subrange(0, local@.len() as int) == local@);
        }
        let ghost m0 = m;
        let mut j: usize = 0;
        proof {
            assert(party@.subrange(0, 0) =~= Seq::<StatusEffectDetails>::empty());
        }
        while j < party.len()
            invariant
                j <= party@.len(),
                lists_merged(merged@, m),
                m == merge_party(m0, party@.subrange(0, j as int)),
            decreases party@.len() - j,
        {
            proof {
                assert(party@.subrange(0, j + 1).drop_last() == party@.subrange(0, j as int));
            }
            let Ghost(m2) = merge_into(&mut merged, party[j].duplicate(), true, Ghost(m));
            proof {
                m = m2;
            }
            j = j + 1;
        }
        proof {
            assert(party@.subrange(0, party@.len() as int) == party@);
        }
        let sorted = sort_by_arrival(merged, Ghost(m));
        proof {
            let first = spec_read(old(self)@, source_entity.id, StatusEffectTargetType::Local, timestamp, deadline_mode, es1);
            let second = spec_read(first.0, source_entity.character_id, StatusEffectTargetType::Party, timestamp, deadline_mode, es2);
            assert(first.0 == mid && first.1 == local@);
            assert(second.0 == self@ && second.1 == party@);
        }
        sorted
    }
}

} // verus!

verus! {

/// A recorded stat source change never moves back: recording a change at any
/// instant keeps every recorded instant or moves it later.
pub proof fn recorded_changes_never_move_back(
    changes: Map<(u64, StatType), i128>,
    touched: spec_fn((u64, StatType)) -> bool,
    at: i128,
    k: (u64, StatType),
)
    requires
        changes.dom().contains(k),
    ensures
        noted_changes(changes, touched, at).dom().contains(k),
        noted_changes(changes, touched, at)[k] >= changes[k],
        touched(k) ==> noted_changes(changes, touched, at)[k] >= at,
{
}

proof fn lemma_first_corroborating(cands: Seq<Option<(i128, i128)>>, c: int, o: int, j: int)
    requires
        0 <= j,
    ensures
        j <= first_corroborating(cands, c, o, j) <= cands.len() || (j > cands.len() && first_corroborating(cands, c, o, j) == cands.len()),
        first_corroborating(cands, c, o, j) < cands.len() ==> (cands[first_corroborating(cands, c, o, j)] matches Some(rec)
            && corroborates(c, o, rec.0 as int, rec.1 as int)),
        (forall|i: int| j <= i < cands.len() ==> (#[trigger] cands[i]) is None) ==> first_corroborating(cands, c, o, j) == cands.len(),
    decreases cands.len() - j,
{
    if j < cands.len() {
        lemma_first_corroborating(cands, c, o, j + 1);
    }
}

/// A tick epoch is adopted only on a sample that a recorded sample from a
/// different moment corroborates, and a single sample on a fresh estimate
/// adopts nothing.
pub proof fn epoch_adoption_needs_two_agreeing_samples(st: EpochState, se: StatusEffectDetails)
    ensures
        spec_observe_epoch(st, se).1 ==> (spec_candidate_epoch(se) matches Some(c) && exists|j: int|
            0 <= j < st.candidates.len() && ((#[trigger] st.candidates[j]) matches Some(rec) && corroborates(
                c,
                se.occur_time as int,
                rec.0 as int,
                rec.1 as int,
            ))),
        (forall|i: int| 0 <= i < st.candidates.len() ==> (#[trigger] st.candidates[i]) is None) ==> !spec_observe_epoch(st, se).1
            && spec_observe_epoch(st, se).0.epoch == st.epoch,
{
    match spec_candidate_epoch(se) {
        None => {},
        Some(c) => {
            lemma_first_corroborating(st.candidates, c, se.occur_time as int, 0);
            let j = first_corroborating(st.candidates, c, se.occur_time as int, 0);
            if spec_observe_epoch(st, se).1 {
                assert(0 <= j < st.candidates.len());
            }
        },
    }
}

/// An instance the server removed stays removed: it is no longer tracked on
/// its target, nor retained, so a later duration notify for it finds nothing.
pub proof fn removed_instance_stays_removed(
    v: TrackerView,
    target: u64,
    ids: Seq<u32>,
    reason: u8,
    sett: StatusEffectTargetType,
    now: i128,
    i: int,
)
    requires
        0 <= i < ids.len(),
        v.registry(sett).dom().contains(target),
    ensures
        !effects_on(spec_remove_effects(v, target, ids, reason, sett, now).registry(sett), target).dom().contains(ids[i]),
        !spec_remove_effects(v, target, ids, reason, sett, now).retained.dom().contains(ids[i]),
{
    assert(ids.contains(ids[i]));
}

/// Pinning a measured stat happens once per instance: once pinned, pinning
/// the same sample again changes nothing.
pub proof fn measured_stat_pins_once(effect: StatusEffectDetails, sampled: StatusEffectDetails, first: MeasuredStat, second: MeasuredStat)
    requires
        pins(effect, sampled),
    ensures
        !pins(StatusEffectDetails { measured_stat: Some(first), ..effect }, sampled),
{
}

/// Whether `after` is `before` with every instance owned by `source_id`
/// replaced by a result of `update` on it, and nothing else changed.
pub open spec fn owned_updated<F: Fn(&StatusEffectDetails) -> StatusEffectDetails>(
    before: Map<u64, Map<u32, StatusEffectDetails>>,
    after: Map<u64, Map<u32, StatusEffectDetails>>,
    source_id: u64,
    update: F,
) -> bool {
    owned_updated_where(before, after, source_id, update, |t: u64, id: u32| true)
}

/// `owned_updated` for the instances that `done` marks; the others are
/// unchanged.
pub open spec fn owned_updated_where<F: Fn(&StatusEffectDetails) -> StatusEffectDetails>(
    before: Map<u64, Map<u32, StatusEffectDetails>>,
    after: Map<u64, Map<u32, StatusEffectDetails>>,
    source_id: u64,
    update: F,
    done: spec_fn(u64, u32) -> bool,
) -> bool {
    &&& after.dom() == before.dom()
    &&& forall|t: u64| #[trigger] before.dom().contains(t) ==> after[t].dom() == before[t].dom()
    &&& forall|t: u64, id: u32|
        #[trigger] before.dom().contains(t) && #[trigger] before[t].dom().contains(id) ==> if done(t, id)
            && before[t][id].source_id == source_id {
            update.ensures((&before[t][id],), after[t][id])
        } else {
            after[t][id] == before[t][id]
        }
}

/// Whether `update` can be applied to every well-formed instance and keeps
/// it well-formed.
pub open spec fn keeps_wf<F: Fn(&StatusEffectDetails) -> StatusEffectDetails>(update: F) -> bool {
    &&& forall|e: StatusEffectDetails| e.wf() ==> update.requires((&e,))
    &&& forall|e: StatusEffectDetails, u: StatusEffectDetails| e.wf() && update.ensures((&e,), u) ==> u.wf()
}

impl StatusTracker {
    fn update_owned_in<F: Fn(&StatusEffectDetails) -> StatusEffectDetails>(
        &mut self,
        target_type: StatusEffectTargetType,
        source_id: u64,
        update: &F,
    )
        requires
            old(self).wf(),
            keeps_wf(*update),
        ensures
            final(self).wf(),
            owned_updated(old(self)@.registry(target_type), final(self)@.registry(target_type), source_id, *update),
            final(self)@ == old(self)@.with_registry(target_type, final(self)@.registry(target_type)),
    {
        let ghost orig = self@.registry(target_type);
        let targets = self.reg_targets(target_type);
        let mut i: usize = 0;
        while i < targets.len()
            invariant
                self.wf(),
                keeps_wf(*update),
                i <= targets@.len(),
                orig == old(self)@.registry(target_type),
                registry_wf(orig),
                lists_keys(targets@, orig),
                self@ == old(self)@.with_registry(target_type, self@.registry(target_type)),
                owned_updated_where(
                    orig,
                    self@.registry(target_type),
                    source_id,
                    *update,
                    |u: u64, id: u32| seen_target(targets@, i as int, u),
                ),
            decreases targets@.len() - i,
        {
            let t = targets[i];
            proof {
                assert(orig.dom().contains(t));
                assert(!seen_target(targets@, i as int, t)) by {
                    if seen_target(targets@, i as int, t) {
                        let a = choose|a: int| 0 <= a < i && #[trigger] targets@[a] == t;
                        assert(targets@[a] != targets@[i as int]);
                    }
                }
                assert(self@.registry(target_type)[t] =~= orig[t]);
            }
            let effects = self.reg_effects_of(target_type, t);
            let mut j: usize = 0;
            while j < effects.len()
                invariant
                    self.wf(),
                    keeps_wf(*update),
                    i < targets@.len(),
                    j <= effects@.len(),
                    t == targets@[i as int],
                    orig == old(self)@.registry(target_type),
                    registry_wf(orig),
                    orig.dom().contains(t),
                    !seen_target(targets@, i as int, t),
                    lists_keys(targets@, orig),
                    lists_entries(effects@, orig[t]),
                    self@ == old(self)@.with_registry(target_type, self@.registry(target_type)),
                    owned_updated_where(
                        orig,
                        self@.registry(target_type),
                        source_id,
                        *update,
                        |u: u64, id: u32| seen_target(targets@, i as int, u) || (u == t && seen_key(effects@, j as int, id)),
                    ),
                decreases effects@.len() - j,
            {
                let id = effects[j].0;
                let ghost before = self@.registry(target_type);
                proof {
                    assert(orig[t].dom().contains(id));
                    assert(!seen_key(effects@, j as int, id)) by {
                        if seen_key(effects@, j as int, id) {
                            let b = choose|b: int| 0 <= b < j && #[trigger] effects@[b].0 == id;
                            assert(effects@[b].0 != effects@[j as int].0);
                        }
                    }
                    lemma_seen_key_step(effects@, j as int, id);
                }
                if effects[j].1.source_id == source_id {
                    proof {
                        assert(orig[t][id].wf());
                    }
                    let changed = update(&effects[j].1);
                    self.reg_insert(target_type, t, id, changed);
                    proof {
                        let after = self@.registry(target_type);
                        assert(after == before.insert(t, before[t].insert(id, changed)));
                        assert forall|u: u64, k: u32| #[trigger] orig.dom().contains(u) && #[trigger] orig[u].dom().contains(k) implies if (
                        seen_target(targets@, i as int, u) || (u == t && seen_key(effects@, j + 1, k))) && orig[u][k].source_id
                            == source_id {
                            update.ensures((&orig[u][k],), after[u][k])
                        } else {
                            after[u][k] == orig[u][k]
                        } by {
                            if u == t && k == id {
                            } else {
                                assert(after[u][k] == before[u][k]);
                            }
                        }
                        assert forall|u: u64| #[trigger] orig.dom().contains(u) implies after[u].dom() == orig[u].dom() by {
                            if u == t {
                                assert(after[u].dom() =~= orig[u].dom());
                            }
                        }
                        assert(after.dom() =~= orig.dom());
                    }
                } else {
                    proof {
                        let after = self@.registry(target_type);
                        assert forall|u: u64, k: u32| #[trigger] orig.dom().contains(u) && #[trigger] orig[u].dom().contains(k) implies if (
                        seen_target(targets@, i as int, u) || (u == t && seen_key(effects@, j + 1, k))) && orig[u][k].source_id
                            == source_id {
                            update.ensures((&orig[u][k],), after[u][k])
                        } else {
                            after[u][k] == orig[u][k]
                        } by {
                        }
                    }
                }
                j = j + 1;
            }
            proof {
                lemma_seen_target_step(targets@, i as int, t);
                let after = self@.registry(target_type);
                assert forall|u: u64, k: u32| #[trigger] orig.dom().contains(u) && #[trigger] orig[u].dom().contains(k) implies if seen_target(
                    targets@,
                    i + 1,
                    u,
                ) && orig[u][k].source_id == source_id {
                    update.ensures((&orig[u][k],), after[u][k])
                } else {
                    after[u][k] == orig[u][k]
                } by {
                    if u == t {
                        let b = choose|b: int| 0 <= b < effects@.len() && #[trigger] effects@[b].0 == k;
                        assert(seen_key(effects@, effects@.len() as int, k));
                    }
                }
            }
            i = i + 1;
        }
        proof {
            let after = self@.registry(target_type);
            assert forall|u: u64, k: u32| #[trigger] orig.dom().contains(u) && #[trigger] orig[u].dom().contains(k) implies if orig[u][k].source_id
                == source_id {
                update.ensures((&orig[u][k],), after[u][k])
            } else {
                after[u][k] == orig[u][k]
            } by {
                let a = choose|a: int| 0 <= a < targets@.len() && #[trigger] targets@[a] == u;
                assert(seen_target(targets@, targets@.len() as int, u));
            }
        }
    }

    /// Replaces every tracked instance, local and party, that `source_id`
    /// owns by `update` applied to it.
    pub fn update_effects_owned_by<F: Fn(&StatusEffectDetails) -> StatusEffectDetails>(&mut self, source_id: u64, update: F)
        requires
            old(self).wf(),
            keeps_wf(update),
        ensures
            final(self).wf(),
            changes_kept(old(self)@.changes, final(self)@.changes),
            owned_updated(old(self)@.local, final(self)@.local, source_id, update),
            owned_updated(old(self)@.party, final(self)@.party, source_id, update),
            final(self)@ == (TrackerView { local: final(self)@.local, party: final(self)@.party, ..old(self)@ }),
    {
        self.update_owned_in(StatusEffectTargetType::Local, source_id, &update);
        self.update_owned_in(StatusEffectTargetType::Party, source_id, &update);
    }
}

} // verus!
