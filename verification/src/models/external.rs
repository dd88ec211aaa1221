//! Records of the item, engraving, card and ark grid tables that an
//! inspected character's stats are read from.
use vstd::prelude::*;

verus! {

/// A stat an item, card, gem or passive adds.
#[derive(Debug, Default, Clone)]
pub struct ExternalResourceAddon {
    pub addon_type: String,
    pub stat_type: String,
    pub key_index: u32,
    pub key_value: i64,
}

/// An engraving or passive at one level: its values and added stats.
#[derive(Debug, Default, Clone)]
pub struct ExternalAbilityLevelData {
    pub values: Vec<i64>,
    pub addons: Vec<ExternalResourceAddon>,
}

/// An engraving or passive and its levels.
#[derive(Debug, Default, Clone)]
pub struct ExternalAbilityData {
    pub id: u32,
    pub name: String,
    pub feature_type: String,
    pub levels: std::collections::HashMap<u32, ExternalAbilityLevelData>,
}

/// An equipment item.
#[derive(Debug, Default, Clone)]
pub struct ExternalItemData {
    pub id: u32,
    pub name: String,
    pub category: u32,
    pub tier: u32,
    pub grade: String,
    pub balance_level: u32,
    pub level_option_id: u32,
    pub item_amplification_base_id: u32,
    pub static_option_ids: Vec<u32>,
}

/// The base stats of an item at one level.
#[derive(Debug, Default, Clone)]
pub struct ExternalItemOptionLevel {
    pub weapon_power: i64,
    pub physical_defense: i64,
    pub magic_defense: i64,
    pub strength: i64,
    pub dexterity: i64,
    pub intelligence: i64,
    pub vitality: i64,
}

/// The base stats of an item by level.
#[derive(Debug, Default, Clone)]
pub struct ExternalItemLevelOptionData {
    pub levels: std::collections::HashMap<u32, ExternalItemOptionLevel>,
}

/// An item amplification stage.
#[derive(Debug, Default, Clone)]
pub struct ExternalItemAmplificationLevel {
    pub balance_level: i64,
    pub stage_bonus_stat_rate: i64,
}

/// The amplification stages of an item by level.
#[derive(Debug, Default, Clone)]
pub struct ExternalItemAmplificationBaseData {
    pub levels: std::collections::HashMap<u32, ExternalItemAmplificationLevel>,
}

/// The fixed stats of an item grade.
#[derive(Debug, Default, Clone)]
pub struct ExternalItemGradeStaticOptionData {
    pub weapon_power: i64,
    pub physical_defense: i64,
    pub magic_defense: i64,
    pub strength: i64,
    pub dexterity: i64,
    pub intelligence: i64,
    pub vitality: i64,
    pub addons: Vec<ExternalResourceAddon>,
}

/// A list of added stats.
#[derive(Debug, Default, Clone)]
pub struct ExternalAddonContainer {
    pub addons: Vec<ExternalResourceAddon>,
}

/// An ark passive node by level.
#[derive(Debug, Default, Clone)]
pub struct ExternalArkPassiveData {
    pub levels: std::collections::HashMap<u32, ExternalAbilityLevelData>,
}

/// The added stats of karma ranks and levels.
#[derive(Debug, Default, Clone)]
pub struct ExternalArkPassiveKarmaData {
    pub ranks: std::collections::HashMap<u32, ExternalAddonContainer>,
    pub levels: std::collections::HashMap<u32, ExternalAddonContainer>,
}

/// A card set bonus level.
#[derive(Debug, Default, Clone)]
pub struct ExternalCardBookLevel {
    pub required_card_count: u32,
    pub required_awakening_level_sum: u32,
    pub damage_attr: String,
    pub addons: Vec<ExternalResourceAddon>,
}

/// A card set: its cards and bonus levels.
#[derive(Debug, Default, Clone)]
pub struct ExternalCardBookData {
    pub card_ids: Vec<u32>,
    pub levels: Vec<ExternalCardBookLevel>,
}

/// An option of an ark grid core and the points it needs.
#[derive(Debug, Default, Clone)]
pub struct ExternalArkGridCoreOptionSlot {
    pub option_id: u32,
    pub required_points: u32,
}

/// An ark grid core.
#[derive(Debug, Default, Clone)]
pub struct ExternalArkGridCoreData {
    pub options: Vec<ExternalArkGridCoreOptionSlot>,
}

/// The added stats of an ark grid core option.
#[derive(Debug, Default, Clone)]
pub struct ExternalArkGridCoreOptionData {
    pub addons: Vec<ExternalResourceAddon>,
}

/// An ark grid gem option at one level.
#[derive(Debug, Default, Clone)]
pub struct ExternalArkGridGemLevel {
    pub level: u32,
    pub addon_type: String,
    pub stat_type: String,
    pub addon_index: u32,
    pub addon_value: i64,
    pub addon_value_override: i64,
}

/// An ark grid gem option and its levels.
#[derive(Debug, Default, Clone)]
pub struct ExternalArkGridOptionGroup {
    pub option_id: u32,
    pub levels: Vec<ExternalArkGridGemLevel>,
}

/// An ark grid gem.
#[derive(Debug, Default, Clone)]
pub struct ExternalArkGridGemData {
    pub option_groups: Vec<ExternalArkGridOptionGroup>,
}

/// The ark grid tables: cores, core options and gems.
#[derive(Debug, Default, Clone)]
pub struct ExternalArkGridData {
    pub cores: std::collections::HashMap<u32, ExternalArkGridCoreData>,
    pub core_options: std::collections::HashMap<u32, ExternalArkGridCoreOptionData>,
    pub gems: std::collections::HashMap<u32, ExternalArkGridGemData>,
}

/// A skill feature an item or passive adds.
#[derive(Debug, Default, Clone)]
pub struct ExternalAddonSkillFeature {
    pub id: u32,
    pub name: String,
    pub desc: String,
    pub skill_id: u32,
    pub skill_group_id: u32,
    pub feature_type: String,
    pub target: String,
    pub parameter_type: String,
    pub parameters: Vec<i64>,
}

/// An effect of a tripod.
#[derive(Debug, Default, Clone)]
pub struct ExternalSkillFeatureTripodEntry {
    pub feature_type: String,
    pub level: u32,
    pub target_mode_type: String,
    pub passive_option_value: i64,
    pub parameter_type: String,
    pub parameters: Vec<i64>,
}

/// A tripod and its effects.
#[derive(Debug, Default, Clone)]
pub struct ExternalSkillFeatureTripod {
    pub key: u32,
    pub name: String,
    pub desc: String,
    pub entries: Vec<ExternalSkillFeatureTripodEntry>,
}

/// The tripods of a skill.
#[derive(Debug, Default, Clone)]
pub struct ExternalSkillFeatureData {
    pub skill_id: u32,
    pub tripods: std::collections::HashMap<u32, ExternalSkillFeatureTripod>,
}

/// The class options of an item.
#[derive(Debug, Default, Clone)]
pub struct ExternalItemClassOptionData {
    pub id: u32,
    pub class_options: std::collections::HashMap<u32, ExternalResourceAddon>,
}

} // verus!
