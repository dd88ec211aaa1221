//! The integer runtime state of a player's stats: identity gauges, the
//! latest skill start, and what a destroyer recently consumed.
use crate::models::data::SkillData;
use crate::models::dps::HitFlag;
use crate::text::{
    ascii_lower, compare_text, lemma_text_le_antisym, lemma_text_le_refl, lemma_text_le_total, lemma_text_le_trans, starts_with, str_eq,
    strip_prefix, text_le,
};
use crate::models::tables::{GaugeSnapshots, SkillTable, StatNames};
use vstd::prelude::*;
use vstd::string::{StrSliceExecFns, StringExecFns};

verus! {

broadcast use vstd::std_specs::hash::group_hash_axioms;

/// How a modifier combines with the stat it changes.
#[derive(Debug, Clone, Copy, PartialEq, Eq, Structural)]
pub enum OperationType {
    Additive,
    Multiplicative,
}

impl Default for OperationType {
    fn default() -> (r: Self)
        ensures
            r == OperationType::Additive,
    {
        OperationType::Additive
    }
}

/// The three identity gauges at one moment.
#[derive(Debug, Clone, Copy, PartialEq, Eq, Structural)]
pub struct IdentityGaugeSnapshot {
    pub identity_gauge1: u32,
    pub identity_gauge2: u32,
    pub identity_gauge3: u32,
}

/// What a skill's runtime data recorded at its start.
#[derive(Debug, Clone)]
pub struct SkillRuntimeData {
    pub identity_gauge1_at_start: Option<u32>,
    pub identity_gauge2_at_start: Option<u32>,
    pub identity_gauge3_at_start: Option<u32>,
    pub cached_directional_mask: Option<i32>,
    pub cached_identity_category: Option<String>,
}

pub const DESTROYER_CLASS_ID: u32 = 103;

pub const DESTROYER_VORTEX_GRAVITY_SKILL_ID: u32 = 18011;

pub const DESTROYER_HYPERGRAVITY_BASIC_ATTACK_SKILL_ID: u32 = 18030;

/// How long after a destroyer skill start a drop of the second gauge counts
/// as cores that skill consumed.
pub const RECENT_DESTROYER_SKILL_START_WINDOW_MS: i64 = 4_000;

/// How long consumed cores stay readable.
pub const DESTROYER_RECENT_CONSUMED_CORE_WINDOW_MS: i64 = 5_000;

/// A player's runtime identity state.
#[derive(Debug, Clone)]
pub struct RuntimeState {
    pub identity_runtime_reliable: bool,
    pub identity_stance: u8,
    pub identity_gauge1: u32,
    pub identity_gauge2: u32,
    pub identity_gauge3: u32,
    pub identity_gauge1_prev: u32,
    pub identity_gauge2_prev: u32,
    pub identity_gauge3_prev: u32,
    pub last_skill_start_id: u32,
    pub last_skill_start_at_ms: i64,
    pub destroyer_recent_consumed_cores: i32,
    pub destroyer_recent_consumed_at_ms: i64,
    pub current_hp: i64,
    pub max_hp: i64,
    pub current_mp: i64,
    pub max_mp: i64,
    pub combat_mp_recovery: i64,
    pub skill_start_identity_gauge_snapshots: GaugeSnapshots,
}

impl RuntimeState {
    /// Whether every field holds its cleared value.
    pub open spec fn is_cleared(&self) -> bool {
        &&& !self.identity_runtime_reliable && self.identity_stance == 0
        &&& self.identity_gauge1 == 0 && self.identity_gauge2 == 0 && self.identity_gauge3 == 0
        &&& self.identity_gauge1_prev == 0 && self.identity_gauge2_prev == 0 && self.identity_gauge3_prev == 0
        &&& self.last_skill_start_id == 0 && self.last_skill_start_at_ms == 0
        &&& self.destroyer_recent_consumed_cores == 0 && self.destroyer_recent_consumed_at_ms == 0
        &&& self.current_hp == 0 && self.max_hp == 0 && self.current_mp == 0 && self.max_mp == 0 && self.combat_mp_recovery == 0
        &&& self.skill_start_identity_gauge_snapshots@.dom().is_empty()
    }

    pub fn create() -> (r: Self)
        ensures
            r.is_cleared(),
    {
        RuntimeState {
            identity_runtime_reliable: false,
            identity_stance: 0,
            identity_gauge1: 0,
            identity_gauge2: 0,
            identity_gauge3: 0,
            identity_gauge1_prev: 0,
            identity_gauge2_prev: 0,
            identity_gauge3_prev: 0,
            last_skill_start_id: 0,
            last_skill_start_at_ms: 0,
            destroyer_recent_consumed_cores: 0,
            destroyer_recent_consumed_at_ms: 0,
            current_hp: 0,
            max_hp: 0,
            current_mp: 0,
            max_mp: 0,
            combat_mp_recovery: 0,
            skill_start_identity_gauge_snapshots: GaugeSnapshots::new(),
        }
    }

    pub fn clear(&mut self)
        ensures
            final(self).is_cleared(),
    {
        self.identity_runtime_reliable = false;
        self.identity_stance = 0;
        self.identity_gauge1 = 0;
        self.identity_gauge2 = 0;
        self.identity_gauge3 = 0;
        self.identity_gauge1_prev = 0;
        self.identity_gauge2_prev = 0;
        self.identity_gauge3_prev = 0;
        self.last_skill_start_id = 0;
        self.last_skill_start_at_ms = 0;
        self.destroyer_recent_consumed_cores = 0;
        self.destroyer_recent_consumed_at_ms = 0;
        self.current_hp = 0;
        self.max_hp = 0;
        self.current_mp = 0;
        self.max_mp = 0;
        self.combat_mp_recovery = 0;
        self.skill_start_identity_gauge_snapshots.clear();
    }

    pub fn set_identity_stance(&mut self, stance: u8)
        ensures
            *final(self) == (RuntimeState { identity_stance: stance, ..*old(self) }),
    {
        self.identity_stance = stance;
    }

    /// Records a skill start: the gauges at the start are kept for the skill,
    /// and a destroyer gravity skill starts a new count of consumed cores.
    pub fn record_skill_start(&mut self, skill_id: u32, timestamp: i64)
        ensures
            final(self).last_skill_start_id == skill_id && final(self).last_skill_start_at_ms == timestamp,
            final(self).skill_start_identity_gauge_snapshots@ == (if skill_id == 0 {
                old(self).skill_start_identity_gauge_snapshots@
            } else {
                old(self).skill_start_identity_gauge_snapshots@.insert(
                    skill_id,
                    IdentityGaugeSnapshot {
                        identity_gauge1: old(self).identity_gauge1,
                        identity_gauge2: old(self).identity_gauge2,
                        identity_gauge3: old(self).identity_gauge3,
                    },
                )
            }),
            (final(self).destroyer_recent_consumed_cores, final(self).destroyer_recent_consumed_at_ms) == (if skill_id
                == DESTROYER_VORTEX_GRAVITY_SKILL_ID || skill_id == DESTROYER_HYPERGRAVITY_BASIC_ATTACK_SKILL_ID {
                (0i32, 0i64)
            } else {
                (old(self).destroyer_recent_consumed_cores, old(self).destroyer_recent_consumed_at_ms)
            }),
            final(self).identity_gauge1 == old(self).identity_gauge1 && final(self).identity_gauge2 == old(self).identity_gauge2
                && final(self).identity_gauge3 == old(self).identity_gauge3,
            final(self).identity_gauge1_prev == old(self).identity_gauge1_prev && final(self).identity_gauge2_prev
                == old(self).identity_gauge2_prev && final(self).identity_gauge3_prev == old(self).identity_gauge3_prev,
            final(self).identity_stance == old(self).identity_stance && final(self).identity_runtime_reliable
                == old(self).identity_runtime_reliable,
    {
        self.last_skill_start_id = skill_id;
        self.last_skill_start_at_ms = timestamp;
        if skill_id == 0 {
            return;
        }
        let snapshot = IdentityGaugeSnapshot {
            identity_gauge1: self.identity_gauge1,
            identity_gauge2: self.identity_gauge2,
            identity_gauge3: self.identity_gauge3,
        };
        self.skill_start_identity_gauge_snapshots.insert(skill_id, snapshot);
        if skill_id == DESTROYER_VORTEX_GRAVITY_SKILL_ID || skill_id == DESTROYER_HYPERGRAVITY_BASIC_ATTACK_SKILL_ID {
            self.destroyer_recent_consumed_cores = 0;
            self.destroyer_recent_consumed_at_ms = 0;
        }
    }

    /// Records new identity gauges. For a destroyer whose gravity skill
    /// started within the window, a drop of the second gauge is the number of
    /// cores the skill consumed.
    pub fn record_identity_gauge_change(&mut self, class_id: u32, identity_gauge1: u32, identity_gauge2: u32, identity_gauge3: u32, timestamp: i64)
        requires
            class_id == DESTROYER_CLASS_ID && (old(self).last_skill_start_id == DESTROYER_VORTEX_GRAVITY_SKILL_ID
                || old(self).last_skill_start_id == DESTROYER_HYPERGRAVITY_BASIC_ATTACK_SKILL_ID) && timestamp >= old(
                self,
            ).last_skill_start_at_ms ==> timestamp - old(self).last_skill_start_at_ms <= i64::MAX,
        ensures
            final(self).identity_gauge1_prev == old(self).identity_gauge1 && final(self).identity_gauge2_prev == old(
                self,
            ).identity_gauge2 && final(self).identity_gauge3_prev == old(self).identity_gauge3,
            final(self).identity_gauge1 == identity_gauge1 && final(self).identity_gauge2 == identity_gauge2
                && final(self).identity_gauge3 == identity_gauge3,
            final(self).last_skill_start_id == old(self).last_skill_start_id && final(self).last_skill_start_at_ms
                == old(self).last_skill_start_at_ms,
            final(self).skill_start_identity_gauge_snapshots == old(self).skill_start_identity_gauge_snapshots,
            ({
                let consumed = class_id == DESTROYER_CLASS_ID && (old(self).last_skill_start_id == DESTROYER_VORTEX_GRAVITY_SKILL_ID
                    || old(self).last_skill_start_id == DESTROYER_HYPERGRAVITY_BASIC_ATTACK_SKILL_ID) && timestamp
                    >= old(self).last_skill_start_at_ms && timestamp - old(self).last_skill_start_at_ms
                    <= RECENT_DESTROYER_SKILL_START_WINDOW_MS && old(self).identity_gauge2 > identity_gauge2 && old(
                    self,
                ).identity_gauge2 - identity_gauge2 <= i32::MAX;
                (final(self).destroyer_recent_consumed_cores, final(self).destroyer_recent_consumed_at_ms) == (if consumed {
                    ((old(self).identity_gauge2 - identity_gauge2) as i32, timestamp)
                } else {
                    (old(self).destroyer_recent_consumed_cores, old(self).destroyer_recent_consumed_at_ms)
                })
            }),
    {
        let previous_gauge2 = self.identity_gauge2;
        self.identity_gauge1_prev = self.identity_gauge1;
        self.identity_gauge2_prev = self.identity_gauge2;
        self.identity_gauge3_prev = self.identity_gauge3;
        self.identity_gauge1 = identity_gauge1;
        self.identity_gauge2 = identity_gauge2;
        self.identity_gauge3 = identity_gauge3;
        if class_id != DESTROYER_CLASS_ID {
            return;
        }
        let recent_destroyer_skill = self.last_skill_start_id == DESTROYER_VORTEX_GRAVITY_SKILL_ID || self.last_skill_start_id
            == DESTROYER_HYPERGRAVITY_BASIC_ATTACK_SKILL_ID;
        if !recent_destroyer_skill || timestamp < self.last_skill_start_at_ms || timestamp - self.last_skill_start_at_ms
            > RECENT_DESTROYER_SKILL_START_WINDOW_MS {
            return;
        }
        if previous_gauge2 <= identity_gauge2 {
            return;
        }
        let drop: u32 = previous_gauge2 - identity_gauge2;
        if drop > 2147483647 {
            return;
        }
        self.destroyer_recent_consumed_cores = drop as i32;
        self.destroyer_recent_consumed_at_ms = timestamp;
    }

    /// The gauges at the start of a skill: from its runtime data when that
    /// recorded them, else the snapshot kept for its real id, else for its id.
    pub fn try_get_skill_start_identity_gauge_snapshot(&self, skill_id: u32, skill_real_id: u32, runtime_data: Option<&SkillRuntimeData>) -> (r:
        Option<IdentityGaugeSnapshot>)
        ensures
            r == (if runtime_data matches Some(rd) && rd.identity_gauge1_at_start is Some {
                Some(
                    IdentityGaugeSnapshot {
                        identity_gauge1: runtime_data->0.identity_gauge1_at_start->0,
                        identity_gauge2: match runtime_data->0.identity_gauge2_at_start {
                            Some(g) => g,
                            None => 0,
                        },
                        identity_gauge3: match runtime_data->0.identity_gauge3_at_start {
                            Some(g) => g,
                            None => 0,
                        },
                    },
                )
            } else if self.skill_start_identity_gauge_snapshots@.contains_key(skill_real_id) {
                Some(self.skill_start_identity_gauge_snapshots@[skill_real_id])
            } else if self.skill_start_identity_gauge_snapshots@.contains_key(skill_id) {
                Some(self.skill_start_identity_gauge_snapshots@[skill_id])
            } else {
                None
            }),
    {
        if let Some(rd) = runtime_data {
            if let Some(g1) = rd.identity_gauge1_at_start {
                return Some(
                    IdentityGaugeSnapshot {
                        identity_gauge1: g1,
                        identity_gauge2: match rd.identity_gauge2_at_start {
                            Some(g) => g,
                            None => 0,
                        },
                        identity_gauge3: match rd.identity_gauge3_at_start {
                            Some(g) => g,
                            None => 0,
                        },
                    },
                );
            }
        }
        match self.skill_start_identity_gauge_snapshots.get(&skill_real_id) {
            Some(s) => Some(*s),
            None => match self.skill_start_identity_gauge_snapshots.get(&skill_id) {
                Some(s) => Some(*s),
                None => None,
            },
        }
    }

    /// The identity element a skill reads from the first gauge at its start:
    /// for 27950, whether it reached 2000; for 34640, whether it reached
    /// 10000; none for other skills.
    pub fn get_identity_element_value(&self, skill_id: u32, skill_real_id: u32, runtime_data: Option<&SkillRuntimeData>) -> (r: Option<i32>)
        ensures
            ({
                let gauge_1 = match self.spec_start_snapshot(skill_id, skill_real_id, runtime_data) {
                    Some(s) => s.identity_gauge1,
                    None => self.identity_gauge1,
                };
                let resolved = if skill_real_id != 0 { skill_real_id } else { skill_id };
                r == (if resolved == 27950 {
                    Some(if gauge_1 >= 2000 { 1i32 } else { 0i32 })
                } else if resolved == 34640 {
                    Some(if gauge_1 >= 10_000 { 1i32 } else { 0i32 })
                } else {
                    None
                })
            }),
    {
        let gauge_1 = match self.try_get_skill_start_identity_gauge_snapshot(skill_id, skill_real_id, runtime_data) {
            Some(s) => s.identity_gauge1,
            None => self.identity_gauge1,
        };
        let resolved = if skill_real_id != 0 {
            skill_real_id
        } else {
            skill_id
        };
        if resolved == 27950 {
            Some(if gauge_1 >= 2000 { 1 } else { 0 })
        } else if resolved == 34640 {
            Some(if gauge_1 >= 10_000 { 1 } else { 0 })
        } else {
            None
        }
    }

    /// The snapshot `try_get_skill_start_identity_gauge_snapshot` returns.
    pub open spec fn spec_start_snapshot(&self, skill_id: u32, skill_real_id: u32, runtime_data: Option<&SkillRuntimeData>) -> Option<
        IdentityGaugeSnapshot,
    > {
        if runtime_data matches Some(rd) && rd.identity_gauge1_at_start is Some {
            Some(
                IdentityGaugeSnapshot {
                    identity_gauge1: runtime_data->0.identity_gauge1_at_start->0,
                    identity_gauge2: match runtime_data->0.identity_gauge2_at_start {
                        Some(g) => g,
                        None => 0,
                    },
                    identity_gauge3: match runtime_data->0.identity_gauge3_at_start {
                        Some(g) => g,
                        None => 0,
                    },
                },
            )
        } else if self.skill_start_identity_gauge_snapshots@.contains_key(skill_real_id) {
            Some(self.skill_start_identity_gauge_snapshots@[skill_real_id])
        } else if self.skill_start_identity_gauge_snapshots@.contains_key(skill_id) {
            Some(self.skill_start_identity_gauge_snapshots@[skill_id])
        } else {
            None
        }
    }

    /// The cores a destroyer consumed, while still readable at `eval_tick_ms`.
    pub fn get_recent_destroyer_consumed_cores(&self, eval_tick_ms: i64) -> (r: Option<i32>)
        requires
            self.destroyer_recent_consumed_cores > 0 && eval_tick_ms >= self.destroyer_recent_consumed_at_ms ==> eval_tick_ms
                - self.destroyer_recent_consumed_at_ms <= i64::MAX,
        ensures
            r == (if self.destroyer_recent_consumed_cores > 0 && eval_tick_ms >= self.destroyer_recent_consumed_at_ms && eval_tick_ms
                - self.destroyer_recent_consumed_at_ms <= DESTROYER_RECENT_CONSUMED_CORE_WINDOW_MS {
                Some(self.destroyer_recent_consumed_cores)
            } else {
                None
            }),
    {
        if self.destroyer_recent_consumed_cores <= 0 {
            return None;
        }
        if eval_tick_ms < self.destroyer_recent_consumed_at_ms {
            return None;
        }
        if eval_tick_ms - self.destroyer_recent_consumed_at_ms > DESTROYER_RECENT_CONSUMED_CORE_WINDOW_MS {
            return None;
        }
        Some(self.destroyer_recent_consumed_cores)
    }

    /// Whether a destroyer is transformed: stance 1 is, stance 0 is not, any
    /// other stance says nothing.
    pub fn try_is_destroyer_transform_mode(&self) -> (r: Option<bool>)
        ensures
            r == (if self.identity_stance == 0 {
                Some(false)
            } else if self.identity_stance == 1 {
                Some(true)
            } else {
                None
            }),
    {
        match self.identity_stance {
            0 => Some(false),
            1 => Some(true),
            _ => None,
        }
    }

    pub fn has_reliable_identity_gauge_runtime_state(&self) -> (r: bool)
        ensures
            r == self.identity_runtime_reliable,
    {
        self.identity_runtime_reliable
    }
}

/// The rank of an NPC grade, by its name in any letter case.
pub open spec fn spec_npc_grade_rank(lower: Seq<char>) -> Option<i32> {
    if lower == "none"@ {
        Some(0)
    } else if lower == "underling"@ {
        Some(1)
    } else if lower == "normal"@ {
        Some(2)
    } else if lower == "elite"@ {
        Some(3)
    } else if lower == "named"@ {
        Some(4)
    } else if lower == "seed"@ {
        Some(5)
    } else if lower == "boss"@ {
        Some(6)
    } else if lower == "raid"@ {
        Some(7)
    } else if lower == "lucky"@ {
        Some(8)
    } else if lower == "epic_raid"@ {
        Some(9)
    } else if lower == "commander"@ {
        Some(10)
    } else {
        None
    }
}

/// `c` with an ASCII uppercase letter mapped to its lowercase letter.
pub open spec fn spec_to_ascii_lowercase(s: Seq<char>) -> Seq<char> {
    s.map_values(|c: char| ascii_lower(c))
}

/// The lowercase letter of ASCII uppercase letter `c`, as a one-character
/// text.
fn lower_letter(c: char) -> (r: &'static str)
    requires
        'A' <= c <= 'Z',
    ensures
        r@ == seq![ascii_lower(c)],
{
    let alphabet = "abcdefghijklmnopqrstuvwxyz";
    proof {
        reveal_strlit("abcdefghijklmnopqrstuvwxyz");
    }
    let k = (c as u32 - 65) as usize;
    let r = alphabet.substring_char(k, k + 1);
    proof {
        assert(alphabet@[k as int] as u32 == 97 + k);
        vstd::utf8::char_u32_cast(alphabet@[k as int], (97 + k) as u32);
        assert(r@ =~= seq![ascii_lower(c)]);
    }
    r
}

/// `s` with ASCII letters in lowercase (as `str::to_ascii_lowercase`: 'A'
/// to 'Z' become 'a' to 'z', every other character stays).
pub(crate) fn to_ascii_lowercase(s: &str) -> (r: String)
    ensures
        r@ == spec_to_ascii_lowercase(s@),
{
    let n = s.unicode_len();
    let mut out = String::new();
    let mut i: usize = 0;
    while i < n
        invariant
            n == s@.len(),
            i <= n,
            out@ == spec_to_ascii_lowercase(s@.subrange(0, i as int)),
        decreases n - i,
    {
        let c = s.get_char(i);
        let piece = if 'A' <= c && c <= 'Z' {
            lower_letter(c)
        } else {
            s.substring_char(i, i + 1)
        };
        out.append(piece);
        proof {
            assert(spec_to_ascii_lowercase(s@.subrange(0, i + 1)) =~= spec_to_ascii_lowercase(s@.subrange(0, i as int)).push(
                ascii_lower(c),
            ));
            assert(piece@ =~= seq![ascii_lower(c)]);
        }
        i = i + 1;
    }
    proof {
        assert(s@.subrange(0, n as int) =~= s@);
    }
    out
}

pub fn npc_grade_rank(grade: &str) -> (r: Option<i32>)
    ensures
        r == spec_npc_grade_rank(spec_to_ascii_lowercase(grade@)),
{
    let lower = to_ascii_lowercase(grade);
    let g = lower.as_str();
    if str_eq(g, "none") {
        Some(0)
    } else if str_eq(g, "underling") {
        Some(1)
    } else if str_eq(g, "normal") {
        Some(2)
    } else if str_eq(g, "elite") {
        Some(3)
    } else if str_eq(g, "named") {
        Some(4)
    } else if str_eq(g, "seed") {
        Some(5)
    } else if str_eq(g, "boss") {
        Some(6)
    } else if str_eq(g, "raid") {
        Some(7)
    } else if str_eq(g, "lucky") {
        Some(8)
    } else if str_eq(g, "epic_raid") {
        Some(9)
    } else if str_eq(g, "commander") {
        Some(10)
    } else {
        None
    }
}

/// The name of the stat with id `stat_id`, from the table of stat names by
/// id.
pub fn stat_name_from_id(stat_id: u8, stat_names: &StatNames) -> (r: Option<String>)
    ensures
        r matches Some(n) ==> stat_names@.contains_key(stat_id as u32) && n@ == stat_names@[stat_id as u32]@,
        r is None ==> !stat_names@.contains_key(stat_id as u32),
{
    match stat_names.get(&(stat_id as u32)) {
        Some(n) => Some(n.clone()),
        None => None,
    }
}

/// The index of a damage attribute, 0 to 7.
pub fn damage_attr_to_index(damage_attr: Option<u8>) -> (r: Option<usize>)
    ensures
        r == (if damage_attr matches Some(v) && v <= 7 {
            Some(damage_attr->0 as usize)
        } else {
            None
        }),
{
    match damage_attr {
        Some(v) => if v <= 7 {
            Some(v as usize)
        } else {
            None
        },
        None => None,
    }
}

pub fn is_critical(hit_flag: &HitFlag) -> (r: bool)
    ensures
        r == (*hit_flag == HitFlag::Critical || *hit_flag == HitFlag::DotCritical),
{
    matches!(hit_flag, HitFlag::Critical | HitFlag::DotCritical)
}

/// A feature type without its `ap_` prefix.
pub fn normalize_feature_type(feature_type: &str) -> (r: &str)
    ensures
        r@ == (if starts_with(feature_type@, "ap_"@) {
            feature_type@.subrange(3, feature_type@.len() as int)
        } else {
            feature_type@
        }),
{
    proof {
        reveal_strlit("ap_");
    }
    match strip_prefix(feature_type, "ap_") {
        Some(rest) => rest,
        None => feature_type,
    }
}

pub open spec fn spec_damage_attr_name(index: int) -> Option<Seq<char>> {
    if index == 0 {
        Some("NONE"@)
    } else if index == 1 {
        Some("FIRE"@)
    } else if index == 2 {
        Some("ICE"@)
    } else if index == 3 {
        Some("ELECTRICITY"@)
    } else if index == 4 {
        Some("WIND"@)
    } else if index == 5 {
        Some("EARTH"@)
    } else if index == 6 {
        Some("DARK"@)
    } else if index == 7 {
        Some("HOLY"@)
    } else {
        None
    }
}

/// The name of a damage attribute index, for debugging output.
pub fn damage_attr_debug_name(index: usize) -> (r: Option<&'static str>)
    ensures
        r matches Some(s) ==> spec_damage_attr_name(index as int) == Some(s@),
        r is None ==> spec_damage_attr_name(index as int) is None,
{
    match index {
        0 => Some("NONE"),
        1 => Some("FIRE"),
        2 => Some("ICE"),
        3 => Some("ELECTRICITY"),
        4 => Some("WIND"),
        5 => Some("EARTH"),
        6 => Some("DARK"),
        7 => Some("HOLY"),
        _ => None,
    }
}

/// A feature of an ability engraving active on a player.
#[derive(Debug, Clone)]
pub struct AbilityFeatureState {
    pub feature_type: String,
    pub level: u32,
    pub values: Vec<i64>,
    pub owner_id: u64,
}

/// A combat effect active on a player.
#[derive(Debug, Clone)]
pub struct ActiveCombatEffect {
    pub combat_effect_id: u32,
    pub effect: crate::models::data::CombatEffectDetail,
    pub owner_id: u64,
    pub source: String,
}

/// An addon skill feature active on a player.
#[derive(Debug, Clone, Copy)]
pub struct ActiveAddonSkillFeature {
    pub feature_id: u32,
    pub owner_id: u64,
}

pub open spec fn addon_le(a: ActiveAddonSkillFeature, b: ActiveAddonSkillFeature) -> bool {
    a.owner_id < b.owner_id || (a.owner_id == b.owner_id && a.feature_id <= b.feature_id)
}

/// Orders addon skill features by owner, then feature id; features of equal
/// owner and id keep their order.
pub fn sort_active_addon_skill_features(entries: &mut Vec<ActiveAddonSkillFeature>)
    ensures
        forall|i: int, j: int| 0 <= i <= j < final(entries)@.len() ==> addon_le(#[trigger] final(entries)@[i], #[trigger] final(entries)@[j]),
        final(entries)@.to_multiset() == old(entries)@.to_multiset(),
{
    broadcast use vstd::seq_lib::group_to_multiset_ensures;

    let mut out: Vec<ActiveAddonSkillFeature> = Vec::new();
    let mut i: usize = 0;
    let ghost src = entries@;
    while i < entries.len()
        invariant
            i <= entries@.len(),
            src == entries@,
            forall|a: int, c: int| 0 <= a <= c < out@.len() ==> addon_le(#[trigger] out@[a], #[trigger] out@[c]),
            out@.to_multiset() == src.subrange(0, i as int).to_multiset(),
        decreases entries@.len() - i,
    {
        let x = entries[i];
        let mut pos: usize = 0;
        while pos < out.len() && (out[pos].owner_id < x.owner_id || (out[pos].owner_id == x.owner_id && out[pos].feature_id <= x.feature_id))
            invariant
                pos <= out@.len(),
                forall|a: int| 0 <= a < pos ==> addon_le(#[trigger] out@[a], x),
            decreases out@.len() - pos,
        {
            pos = pos + 1;
        }
        let ghost before = out@;
        proof {
            vstd::seq_lib::to_multiset_insert(before, pos as int, x);
            assert(src.subrange(0, i + 1) =~= src.subrange(0, i as int).push(x));
            vstd::seq_lib::to_multiset_build(src.subrange(0, i as int), x);
        }
        out.insert(pos, x);
        proof {
            assert forall|a: int, c: int| 0 <= a <= c < out@.len() implies addon_le(#[trigger] out@[a], #[trigger] out@[c]) by {
                if pos < before.len() {
                    assert(!addon_le(before[pos as int], x));
                }
                if a == c {
                } else if c < pos {
                    assert(addon_le(before[a], before[c]));
                } else if c == pos {
                    assert(addon_le(before[a], x));
                } else if a < pos {
                    assert(addon_le(before[a], before[c - 1]));
                } else if a == pos {
                    assert(addon_le(before[pos as int], before[c - 1]));
                } else {
                    assert(addon_le(before[a - 1], before[c - 1]));
                }
            }
        }
        i = i + 1;
    }
    proof {
        assert(src.subrange(0, src.len() as int) == src);
    }
    *entries = out;
}

/// A feature type without its `ap_` prefix.
pub open spec fn normalized_feature(t: Seq<char>) -> Seq<char> {
    if starts_with(t, "ap_"@) {
        t.subrange(3, t.len() as int)
    } else {
        t
    }
}

/// Whether two ability features sort as equal: same owner, same feature
/// type without its `ap_` prefix, same level.
pub open spec fn same_feature_key(a: AbilityFeatureState, b: AbilityFeatureState) -> bool {
    a.owner_id == b.owner_id && normalized_feature(a.feature_type@) == normalized_feature(b.feature_type@) && a.level
        == b.level
}

/// Whether ability feature `a` sorts before or equal to `b`: by owner, then
/// feature type without its `ap_` prefix, then level.
pub open spec fn feature_le(a: AbilityFeatureState, b: AbilityFeatureState) -> bool {
    let ta = normalized_feature(a.feature_type@);
    let tb = normalized_feature(b.feature_type@);
    a.owner_id < b.owner_id || (a.owner_id == b.owner_id && ((ta != tb && text_le(ta, tb)) || (ta == tb && a.level
        <= b.level)))
}

/// Whether `a` sorts strictly before `b`.
pub open spec fn feature_lt(a: AbilityFeatureState, b: AbilityFeatureState) -> bool {
    feature_le(a, b) && !same_feature_key(a, b)
}

proof fn lemma_feature_le_total(a: AbilityFeatureState, b: AbilityFeatureState)
    ensures
        feature_le(a, b) || feature_le(b, a),
{
    lemma_text_le_total(normalized_feature(a.feature_type@), normalized_feature(b.feature_type@));
}

proof fn lemma_feature_le_trans(a: AbilityFeatureState, b: AbilityFeatureState, c: AbilityFeatureState)
    requires
        feature_le(a, b),
        feature_le(b, c),
    ensures
        feature_le(a, c),
{
    let ta = normalized_feature(a.feature_type@);
    let tb = normalized_feature(b.feature_type@);
    let tc = normalized_feature(c.feature_type@);
    if a.owner_id == b.owner_id && b.owner_id == c.owner_id {
        if ta != tb && tb != tc {
            lemma_text_le_trans(ta, tb, tc);
            if ta == tc {
                lemma_text_le_antisym(ta, tb);
            }
        }
    }
}

proof fn lemma_feature_not_lt(a: AbilityFeatureState, b: AbilityFeatureState)
    requires
        !feature_lt(a, b),
    ensures
        feature_le(b, a),
{
    lemma_feature_le_total(a, b);
    if same_feature_key(a, b) {
        lemma_text_le_refl(normalized_feature(a.feature_type@));
    }
}

/// Whether ability feature `a` sorts strictly before `b`.
fn feature_before(a: &AbilityFeatureState, b: &AbilityFeatureState) -> (r: bool)
    ensures
        r == feature_lt(*a, *b),
{
    if a.owner_id != b.owner_id {
        return a.owner_id < b.owner_id;
    }
    let c = compare_text(normalize_feature_type(a.feature_type.as_str()), normalize_feature_type(b.feature_type.as_str()));
    proof {
        reveal_strlit("ap_");
    }
    if c != 0 {
        c < 0
    } else {
        a.level < b.level
    }
}

/// Whether `sorted` is `input` put in order by `feature_le`, with
/// features that sort as equal in their order in `input`: `perm` gives the
/// place of each in `input`.
pub open spec fn stably_sorted_features(
    input: Seq<AbilityFeatureState>,
    sorted: Seq<AbilityFeatureState>,
    perm: Seq<int>,
) -> bool {
    &&& sorted.len() == input.len()
    &&& perm.len() == sorted.len()
    &&& forall|k: int| 0 <= k < perm.len() ==> 0 <= #[trigger] perm[k] < input.len() && sorted[k] == input[perm[k]]
    &&& forall|k1: int, k2: int| 0 <= k1 < k2 < perm.len() ==> #[trigger] perm[k1] != #[trigger] perm[k2]
    &&& forall|k1: int, k2: int| 0 <= k1 < k2 < sorted.len() ==> feature_le(#[trigger] sorted[k1], #[trigger] sorted[k2])
    &&& forall|k1: int, k2: int|
        0 <= k1 < k2 < sorted.len() && same_feature_key(#[trigger] sorted[k1], #[trigger] sorted[k2]) ==> perm[k1] < perm[k2]
}

/// Orders ability features by owner, then feature type without its `ap_`
/// prefix, then level; features that sort as equal keep their order.
#[verifier::rlimit(60)]
pub fn sort_active_ability_features(entries: &mut Vec<AbilityFeatureState>)
    ensures
        exists|perm: Seq<int>| stably_sorted_features(old(entries)@, final(entries)@, perm),
{
    let ghost src = entries@;
    let ghost n = src.len();
    let mut out: Vec<AbilityFeatureState> = Vec::new();
    let ghost mut perm: Seq<int> = Seq::empty();
    proof {
        assert(src.subrange(0, n as int) =~= src);
    }
    while entries.len() > 0
        invariant
            entries@ == src.subrange(0, entries@.len() as int),
            entries@.len() <= n,
            n == src.len(),
            out@.len() + entries@.len() == n,
            perm.len() == out@.len(),
            forall|k: int| 0 <= k < perm.len() ==> entries@.len() <= #[trigger] perm[k] < n && out@[k] == src[perm[k]],
            forall|k1: int, k2: int| 0 <= k1 < k2 < perm.len() ==> #[trigger] perm[k1] != #[trigger] perm[k2],
            forall|k1: int, k2: int| 0 <= k1 < k2 < out@.len() ==> feature_le(#[trigger] out@[k1], #[trigger] out@[k2]),
            forall|k1: int, k2: int|
                0 <= k1 < k2 < out@.len() && same_feature_key(#[trigger] out@[k1], #[trigger] out@[k2]) ==> perm[k1] < perm[k2],
        decreases entries@.len(),
    {
        let ghost idx = entries@.len() - 1;
        let x = match entries.pop() {
            Some(x) => x,
            None => {
                return;
            },
        };
        proof {
            assert(x == src[idx]);
            assert(entries@ =~= src.subrange(0, idx));
        }
        let mut pos: usize = 0;
        while pos < out.len() && feature_before(&out[pos], &x)
            invariant
                pos <= out@.len(),
                forall|a: int| 0 <= a < pos ==> feature_lt(#[trigger] out@[a], x),
            decreases out@.len() - pos,
        {
            pos = pos + 1;
        }
        let ghost before = out@;
        let ghost before_perm = perm;
        proof {
            if pos < before.len() {
                lemma_feature_not_lt(before[pos as int], x);
            }
            assert forall|c: int| pos <= c < before.len() implies feature_le(x, #[trigger] before[c]) by {
                if c > pos {
                    lemma_feature_le_trans(x, before[pos as int], before[c]);
                }
            }
        }
        out.insert(pos, x);
        proof {
            perm = before_perm.insert(pos as int, idx);
            assert forall|k1: int, k2: int| 0 <= k1 < k2 < out@.len() implies feature_le(#[trigger] out@[k1], #[trigger] out@[k2]) by {
                if k2 < pos {
                    assert(out@[k1] == before[k1] && out@[k2] == before[k2]);
                } else if k2 == pos {
                    assert(out@[k1] == before[k1]);
                } else if k1 == pos {
                    assert(out@[k2] == before[k2 - 1]);
                } else if k1 < pos {
                    assert(out@[k1] == before[k1] && out@[k2] == before[k2 - 1]);
                    lemma_feature_le_trans(before[k1], x, before[k2 - 1]);
                } else {
                    assert(out@[k1] == before[k1 - 1] && out@[k2] == before[k2 - 1]);
                }
            }
            assert forall|k: int| 0 <= k < perm.len() implies entries@.len() <= #[trigger] perm[k] < n && out@[k] == src[perm[k]] by {
                if k < pos {
                    assert(perm[k] == before_perm[k]);
                } else if k > pos {
                    assert(perm[k] == before_perm[k - 1]);
                }
            }
            assert forall|k1: int, k2: int| 0 <= k1 < k2 < perm.len() implies #[trigger] perm[k1] != #[trigger] perm[k2] by {
                if k1 != pos && k2 != pos {
                    let a1 = if k1 < pos { k1 } else { k1 - 1 };
                    let a2 = if k2 < pos { k2 } else { k2 - 1 };
                    assert(perm[k1] == before_perm[a1] && perm[k2] == before_perm[a2]);
                } else if k1 == pos {
                    assert(perm[k2] == before_perm[k2 - 1]);
                } else {
                    assert(perm[k1] == before_perm[k1]);
                }
            }
            assert forall|k1: int, k2: int|
                0 <= k1 < k2 < out@.len() && same_feature_key(#[trigger] out@[k1], #[trigger] out@[k2]) implies perm[k1] < perm[k2] by {
                if k2 < pos {
                    assert(out@[k1] == before[k1] && out@[k2] == before[k2]);
                    assert(perm[k1] == before_perm[k1] && perm[k2] == before_perm[k2]);
                } else if k2 == pos {
                    assert(out@[k1] == before[k1]);
                    assert(feature_lt(before[k1], x));
                } else if k1 == pos {
                    assert(perm[k2] == before_perm[k2 - 1]);
                } else if k1 < pos {
                    assert(out@[k1] == before[k1] && out@[k2] == before[k2 - 1]);
                    assert(perm[k1] == before_perm[k1] && perm[k2] == before_perm[k2 - 1]);
                } else {
                    assert(out@[k1] == before[k1 - 1] && out@[k2] == before[k2 - 1]);
                    assert(perm[k1] == before_perm[k1 - 1] && perm[k2] == before_perm[k2 - 1]);
                }
            }
        }
    }
    proof {
        assert(stably_sorted_features(src, out@, perm));
    }
    *entries = out;
}

/// The damage attribute a hit is counted under: the player's damage
/// conversion where it has one (other than none), else the hit's own; an
/// attribute outside 0 to 7, or none, counts as 0.
pub fn resolve_damage_attr(damage_conversion_type: Option<u8>, damage_attr: Option<u8>) -> (r: Option<u8>)
    ensures
        r == Some(
            {
                let resolved = match damage_conversion_type {
                    Some(t) if t != 0 => Some(t),
                    _ => damage_attr,
                };
                match resolved {
                    Some(a) if a <= 7 => a,
                    _ => 0u8,
                }
            },
        ),
{
    let resolved = match damage_conversion_type {
        Some(t) if t != 0 => Some(t),
        _ => damage_attr,
    };
    match resolved {
        Some(a) if a <= 7 => Some(a),
        _ => Some(0),
    }
}

/// The identity category of a skill: the one its runtime data cached, else
/// the one of the skill table (`skills`), if any.
pub fn resolve_skill_identity_category(
    skill_id: u32,
    runtime_data: Option<&SkillRuntimeData>,
    skills: &SkillTable,
) -> (r: Option<String>)
    ensures
        r == match runtime_data {
            Some(rd) if rd.cached_identity_category is Some => rd.cached_identity_category,
            _ => if skills@.contains_key(skill_id) {
                skills@[skill_id].identity_category
            } else {
                None
            },
        },
{
    if let Some(rd) = runtime_data {
        if let Some(c) = &rd.cached_identity_category {
            return Some(c.clone());
        }
    }
    match skills.get(&skill_id) {
        Some(skill) => match &skill.identity_category {
            Some(c) => Some(c.clone()),
            None => None,
        },
        None => None,
    }
}

} // verus!
