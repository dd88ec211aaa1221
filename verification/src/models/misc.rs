//! Records the meter stores and reports.
use vstd::prelude::*;

verus! {

/// How many logs lacked the data for a statistic.
#[derive(Debug, Clone, Copy)]
pub struct CharacterStatisticsUnavailable {
    pub rdps_logs: i32,
    pub support_logs: i32,
}

/// The encounters a raid progression range counts.
#[derive(Debug, Clone)]
pub struct RaidProgressionRangeCriteria {
    pub bosses: Vec<String>,
    pub last_gate_bosses: Vec<String>,
    pub difficulty: String,
    pub min_duration: i32,
}

/// The first pull and the first clear of a raid progression range.
#[derive(Debug, Clone, Copy)]
pub struct RaidProgressionRange {
    pub first_pull: Option<i64>,
    pub first_clear: Option<i64>,
}

/// A filter of the encounter search.
#[derive(Debug, Clone)]
pub struct SearchFilter {
    pub bosses: Vec<String>,
    pub min_duration: i32,
    pub max_duration: i32,
    pub cleared: bool,
    pub favorite: bool,
    pub difficulty: String,
    pub boss_only_damage: bool,
    pub sort: String,
    pub order: String,
    pub raids_only: bool,
    pub local_player: String,
}

/// The encounter database's size and counts.
#[derive(Debug, Clone)]
pub struct EncounterDbInfo {
    pub size: String,
    pub total_encounters: i32,
    pub total_encounters_filtered: i32,
}

/// The nodes of a player's ark passive trees.
#[derive(Debug, Clone)]
pub struct ArkPassiveData {
    pub evolution: Option<Vec<ArkPassiveNode>>,
    pub enlightenment: Option<Vec<ArkPassiveNode>>,
    pub leap: Option<Vec<ArkPassiveNode>>,
}

/// One ark passive node and its level.
#[derive(Debug, Clone, Copy)]
pub struct ArkPassiveNode {
    pub id: u32,
    pub lv: u8,
}

/// A gem of a player.
#[derive(Debug, Clone, Copy)]
pub struct GemData {
    pub tier: u8,
    pub skill_id: u32,
    pub gem_type: u8,
    pub value: u32,
}

/// An engraving of a player.
#[derive(Debug, Clone, Copy)]
pub struct Engraving {
    pub id: u32,
    pub level: u8,
}

} // verus!
