//! The hash maps the meter looks things up in: the game data tables of
//! skills, skill effects, buffs and combat effects, entities, parties, stat
//! names and skill cooldowns.
use crate::models::data::{CombatEffectData, PerLevelData, SkillBuffData, SkillData, SkillEffectData};
use crate::models::entity::Entity;
use crate::live::player_stats::IdentityGaugeSnapshot;
use crate::models::skill::{CastEvent, Skill};
use vstd::prelude::*;

verus! {

/// The skill table: skills by id.
///
/// Held in a hashbrown `HashMap` in a field Verus does not see; each
/// method makes one hashbrown call.
#[derive(Debug)]
#[verifier::external_body]
pub struct SkillTable {
    map: hashbrown::HashMap<u32, SkillData>,
}

/// What a `SkillTable` holds.
pub uninterp spec fn skill_table_contents(t: SkillTable) -> Map<u32, SkillData>;

impl View for SkillTable {
    type V = Map<u32, SkillData>;

    open spec fn view(&self) -> Map<u32, SkillData> {
        skill_table_contents(*self)
    }
}

impl SkillTable {
    /// An empty table (`hashbrown::HashMap::new`).
    #[verifier::external_body]
    pub fn new() -> (r: Self)
        ensures
            skill_table_contents(r).dom().is_empty(),
    {
        SkillTable { map: hashbrown::HashMap::new() }
    }

    /// The entry for `key` (`HashMap::get`).
    #[verifier::external_body]
    pub fn get(&self, key: &u32) -> (r: Option<&SkillData>)
        ensures
            r is Some == skill_table_contents(*self).contains_key(*key),
            r matches Some(v) ==> *v == skill_table_contents(*self)[*key],
    {
        self.map.get(key)
    }

    /// Whether the table has an entry for `key` (`HashMap::contains_key`).
    #[verifier::external_body]
    pub fn contains_key(&self, key: &u32) -> (r: bool)
        ensures
            r == skill_table_contents(*self).contains_key(*key),
    {
        self.map.contains_key(key)
    }

    /// Sets the entry for `key` (`HashMap::insert`).
    #[verifier::external_body]
    pub fn insert(&mut self, key: u32, value: SkillData)
        ensures
            skill_table_contents(*final(self)) == skill_table_contents(*old(self)).insert(key, value),
    {
        self.map.insert(key, value);
    }
}

/// The skill effect table: skill effects by id.
///
/// Held in a hashbrown `HashMap` in a field Verus does not see; each
/// method makes one hashbrown call.
#[derive(Debug)]
#[verifier::external_body]
pub struct SkillEffectTable {
    map: hashbrown::HashMap<u32, SkillEffectData>,
}

/// What a `SkillEffectTable` holds.
pub uninterp spec fn skill_effect_table_contents(t: SkillEffectTable) -> Map<u32, SkillEffectData>;

impl View for SkillEffectTable {
    type V = Map<u32, SkillEffectData>;

    open spec fn view(&self) -> Map<u32, SkillEffectData> {
        skill_effect_table_contents(*self)
    }
}

impl SkillEffectTable {
    /// An empty table (`hashbrown::HashMap::new`).
    #[verifier::external_body]
    pub fn new() -> (r: Self)
        ensures
            skill_effect_table_contents(r).dom().is_empty(),
    {
        SkillEffectTable { map: hashbrown::HashMap::new() }
    }

    /// The entry for `key` (`HashMap::get`).
    #[verifier::external_body]
    pub fn get(&self, key: &u32) -> (r: Option<&SkillEffectData>)
        ensures
            r is Some == skill_effect_table_contents(*self).contains_key(*key),
            r matches Some(v) ==> *v == skill_effect_table_contents(*self)[*key],
    {
        self.map.get(key)
    }

    /// Sets the entry for `key` (`HashMap::insert`).
    #[verifier::external_body]
    pub fn insert(&mut self, key: u32, value: SkillEffectData)
        ensures
            skill_effect_table_contents(*final(self)) == skill_effect_table_contents(*old(self)).insert(key, value),
    {
        self.map.insert(key, value);
    }
}

/// The buff table: buffs by id.
///
/// Held in a hashbrown `HashMap` in a field Verus does not see; each
/// method makes one hashbrown call.
#[derive(Debug)]
#[verifier::external_body]
pub struct SkillBuffTable {
    map: hashbrown::HashMap<u32, SkillBuffData>,
}

/// What a `SkillBuffTable` holds.
pub uninterp spec fn skill_buff_table_contents(t: SkillBuffTable) -> Map<u32, SkillBuffData>;

impl View for SkillBuffTable {
    type V = Map<u32, SkillBuffData>;

    open spec fn view(&self) -> Map<u32, SkillBuffData> {
        skill_buff_table_contents(*self)
    }
}

impl SkillBuffTable {
    /// An empty table (`hashbrown::HashMap::new`).
    #[verifier::external_body]
    pub fn new() -> (r: Self)
        ensures
            skill_buff_table_contents(r).dom().is_empty(),
    {
        SkillBuffTable { map: hashbrown::HashMap::new() }
    }

    /// The entry for `key` (`HashMap::get`).
    #[verifier::external_body]
    pub fn get(&self, key: &u32) -> (r: Option<&SkillBuffData>)
        ensures
            r is Some == skill_buff_table_contents(*self).contains_key(*key),
            r matches Some(v) ==> *v == skill_buff_table_contents(*self)[*key],
    {
        self.map.get(key)
    }

    /// Sets the entry for `key` (`HashMap::insert`).
    #[verifier::external_body]
    pub fn insert(&mut self, key: u32, value: SkillBuffData)
        ensures
            skill_buff_table_contents(*final(self)) == skill_buff_table_contents(*old(self)).insert(key, value),
    {
        self.map.insert(key, value);
    }
}

/// The combat effect table: combat effects by id.
///
/// Held in a hashbrown `HashMap` in a field Verus does not see; each
/// method makes one hashbrown call.
#[derive(Debug)]
#[verifier::external_body]
pub struct CombatEffectTable {
    map: hashbrown::HashMap<i32, CombatEffectData>,
}

/// What a `CombatEffectTable` holds.
pub uninterp spec fn combat_effect_table_contents(t: CombatEffectTable) -> Map<i32, CombatEffectData>;

impl View for CombatEffectTable {
    type V = Map<i32, CombatEffectData>;

    open spec fn view(&self) -> Map<i32, CombatEffectData> {
        combat_effect_table_contents(*self)
    }
}

impl CombatEffectTable {
    /// An empty table (`hashbrown::HashMap::new`).
    #[verifier::external_body]
    pub fn new() -> (r: Self)
        ensures
            combat_effect_table_contents(r).dom().is_empty(),
    {
        CombatEffectTable { map: hashbrown::HashMap::new() }
    }

    /// The entry for `key` (`HashMap::get`).
    #[verifier::external_body]
    pub fn get(&self, key: &i32) -> (r: Option<&CombatEffectData>)
        ensures
            r is Some == combat_effect_table_contents(*self).contains_key(*key),
            r matches Some(v) ==> *v == combat_effect_table_contents(*self)[*key],
    {
        self.map.get(key)
    }

    /// Sets the entry for `key` (`HashMap::insert`).
    #[verifier::external_body]
    pub fn insert(&mut self, key: i32, value: CombatEffectData)
        ensures
            combat_effect_table_contents(*final(self)) == combat_effect_table_contents(*old(self)).insert(key, value),
    {
        self.map.insert(key, value);
    }
}
/// Entities by entity id.
///
/// Held in a hashbrown `HashMap` in a field Verus does not see; each
/// method makes one hashbrown call.
#[derive(Debug)]
#[verifier::external_body]
pub struct EntityTable {
    map: hashbrown::HashMap<u64, Entity>,
}

/// What a `EntityTable` holds.
pub uninterp spec fn entity_table_contents(t: EntityTable) -> Map<u64, Entity>;

impl View for EntityTable {
    type V = Map<u64, Entity>;

    open spec fn view(&self) -> Map<u64, Entity> {
        entity_table_contents(*self)
    }
}

impl EntityTable {
    /// An empty table (`hashbrown::HashMap::new`).
    #[verifier::external_body]
    pub fn new() -> (r: Self)
        ensures
            entity_table_contents(r).dom().is_empty(),
    {
        EntityTable { map: hashbrown::HashMap::new() }
    }

    /// The entry for `key` (`HashMap::get`).
    #[verifier::external_body]
    pub fn get(&self, key: &u64) -> (r: Option<&Entity>)
        ensures
            r is Some == entity_table_contents(*self).contains_key(*key),
            r matches Some(v) ==> *v == entity_table_contents(*self)[*key],
    {
        self.map.get(key)
    }

    /// Sets the entry for `key` (`HashMap::insert`).
    #[verifier::external_body]
    pub fn insert(&mut self, key: u64, value: Entity)
        ensures
            entity_table_contents(*final(self)) == entity_table_contents(*old(self)).insert(key, value),
    {
        self.map.insert(key, value);
    }
}

/// The party of each character, by character id.
///
/// Held in a hashbrown `HashMap` in a field Verus does not see; each
/// method makes one hashbrown call.
#[derive(Debug)]
#[verifier::external_body]
pub struct PartyIds {
    map: hashbrown::HashMap<u64, u32>,
}

/// What a `PartyIds` holds.
pub uninterp spec fn party_ids_contents(t: PartyIds) -> Map<u64, u32>;

impl View for PartyIds {
    type V = Map<u64, u32>;

    open spec fn view(&self) -> Map<u64, u32> {
        party_ids_contents(*self)
    }
}

impl PartyIds {
    /// An empty table (`hashbrown::HashMap::new`).
    #[verifier::external_body]
    pub fn new() -> (r: Self)
        ensures
            party_ids_contents(r).dom().is_empty(),
    {
        PartyIds { map: hashbrown::HashMap::new() }
    }

    /// The entry for `key` (`HashMap::get`).
    #[verifier::external_body]
    pub fn get(&self, key: &u64) -> (r: Option<&u32>)
        ensures
            r is Some == party_ids_contents(*self).contains_key(*key),
            r matches Some(v) ==> *v == party_ids_contents(*self)[*key],
    {
        self.map.get(key)
    }

    /// Sets the entry for `key` (`HashMap::insert`).
    #[verifier::external_body]
    pub fn insert(&mut self, key: u64, value: u32)
        ensures
            party_ids_contents(*final(self)) == party_ids_contents(*old(self)).insert(key, value),
    {
        self.map.insert(key, value);
    }
}

/// Stat names by stat id.
///
/// Held in a hashbrown `HashMap` in a field Verus does not see; each
/// method makes one hashbrown call.
#[derive(Debug)]
#[verifier::external_body]
pub struct StatNames {
    map: hashbrown::HashMap<u32, String>,
}

/// What a `StatNames` holds.
pub uninterp spec fn stat_names_contents(t: StatNames) -> Map<u32, String>;

impl View for StatNames {
    type V = Map<u32, String>;

    open spec fn view(&self) -> Map<u32, String> {
        stat_names_contents(*self)
    }
}

impl StatNames {
    /// An empty table (`hashbrown::HashMap::new`).
    #[verifier::external_body]
    pub fn new() -> (r: Self)
        ensures
            stat_names_contents(r).dom().is_empty(),
    {
        StatNames { map: hashbrown::HashMap::new() }
    }

    /// The entry for `key` (`HashMap::get`).
    #[verifier::external_body]
    pub fn get(&self, key: &u32) -> (r: Option<&String>)
        ensures
            r is Some == stat_names_contents(*self).contains_key(*key),
            r matches Some(v) ==> *v == stat_names_contents(*self)[*key],
    {
        self.map.get(key)
    }

    /// Sets the entry for `key` (`HashMap::insert`).
    #[verifier::external_body]
    pub fn insert(&mut self, key: u32, value: String)
        ensures
            stat_names_contents(*final(self)) == stat_names_contents(*old(self)).insert(key, value),
    {
        self.map.insert(key, value);
    }
}

/// The casts of each skill, with the cooldown each started, by skill id.
///
/// Held in a hashbrown `HashMap` in a field Verus does not see; each
/// method makes one hashbrown call.
#[derive(Debug)]
#[verifier::external_body]
pub struct SkillCooldowns {
    map: hashbrown::HashMap<u32, Vec<CastEvent>>,
}

/// What a `SkillCooldowns` holds.
pub uninterp spec fn skill_cooldowns_contents(t: SkillCooldowns) -> Map<u32, Vec<CastEvent>>;

impl View for SkillCooldowns {
    type V = Map<u32, Vec<CastEvent>>;

    open spec fn view(&self) -> Map<u32, Vec<CastEvent>> {
        skill_cooldowns_contents(*self)
    }
}

impl SkillCooldowns {
    /// An empty table (`hashbrown::HashMap::new`).
    #[verifier::external_body]
    pub fn new() -> (r: Self)
        ensures
            skill_cooldowns_contents(r).dom().is_empty(),
    {
        SkillCooldowns { map: hashbrown::HashMap::new() }
    }
}

/// A buff's data per level, keyed by the level written as a string.
///
/// Held in a hashbrown `HashMap` keyed by `String` in a field Verus does not see; each
/// method makes one hashbrown call.
#[derive(Debug)]
#[verifier::external_body]
pub struct LevelTable {
    map: hashbrown::HashMap<String, PerLevelData>,
}

/// What a `LevelTable` holds, each entry under the characters of its key.
pub uninterp spec fn level_table_contents(t: LevelTable) -> Map<Seq<char>, PerLevelData>;

impl View for LevelTable {
    type V = Map<Seq<char>, PerLevelData>;

    open spec fn view(&self) -> Map<Seq<char>, PerLevelData> {
        level_table_contents(*self)
    }
}

impl LevelTable {
    /// An empty table (`hashbrown::HashMap::new`).
    #[verifier::external_body]
    pub fn new() -> (r: Self)
        ensures
            level_table_contents(r).dom().is_empty(),
    {
        LevelTable { map: hashbrown::HashMap::new() }
    }

    /// The entry for `key` (`HashMap::get`).
    #[verifier::external_body]
    pub fn get(&self, key: &str) -> (r: Option<&PerLevelData>)
        ensures
            r is Some == level_table_contents(*self).contains_key(key@),
            r matches Some(v) ==> *v == level_table_contents(*self)[key@],
    {
        self.map.get(key)
    }

    /// Sets the entry for `key` (`HashMap::insert`).
    #[verifier::external_body]
    pub fn insert(&mut self, key: String, value: PerLevelData)
        ensures
            level_table_contents(*final(self)) == level_table_contents(*old(self)).insert(key@, value),
    {
        self.map.insert(key, value);
    }
}

/// Stat ids by stat name.
///
/// Held in a hashbrown `HashMap` keyed by `String` in a field Verus does not see; each
/// method makes one hashbrown call.
#[derive(Debug)]
#[verifier::external_body]
pub struct StatIds {
    map: hashbrown::HashMap<String, u32>,
}

/// What a `StatIds` holds, each entry under the characters of its key.
pub uninterp spec fn stat_ids_contents(t: StatIds) -> Map<Seq<char>, u32>;

impl View for StatIds {
    type V = Map<Seq<char>, u32>;

    open spec fn view(&self) -> Map<Seq<char>, u32> {
        stat_ids_contents(*self)
    }
}

impl StatIds {
    /// An empty table (`hashbrown::HashMap::new`).
    #[verifier::external_body]
    pub fn new() -> (r: Self)
        ensures
            stat_ids_contents(r).dom().is_empty(),
    {
        StatIds { map: hashbrown::HashMap::new() }
    }

    /// The entry for `key` (`HashMap::get`).
    #[verifier::external_body]
    pub fn get(&self, key: &str) -> (r: Option<&u32>)
        ensures
            r is Some == stat_ids_contents(*self).contains_key(key@),
            r matches Some(v) ==> *v == stat_ids_contents(*self)[key@],
    {
        self.map.get(key)
    }

    /// Sets the entry for `key` (`HashMap::insert`).
    #[verifier::external_body]
    pub fn insert(&mut self, key: String, value: u32)
        ensures
            stat_ids_contents(*final(self)) == stat_ids_contents(*old(self)).insert(key@, value),
    {
        self.map.insert(key, value);
    }
}

/// Raid names by boss name.
///
/// Held in a hashbrown `HashMap` keyed by `String` in a field Verus does not see; each
/// method makes one hashbrown call.
#[derive(Debug)]
#[verifier::external_body]
pub struct RaidNames {
    map: hashbrown::HashMap<String, String>,
}

/// What a `RaidNames` holds, each entry under the characters of its key.
pub uninterp spec fn raid_names_contents(t: RaidNames) -> Map<Seq<char>, String>;

impl View for RaidNames {
    type V = Map<Seq<char>, String>;

    open spec fn view(&self) -> Map<Seq<char>, String> {
        raid_names_contents(*self)
    }
}

impl RaidNames {
    /// An empty table (`hashbrown::HashMap::new`).
    #[verifier::external_body]
    pub fn new() -> (r: Self)
        ensures
            raid_names_contents(r).dom().is_empty(),
    {
        RaidNames { map: hashbrown::HashMap::new() }
    }

    /// The entry for `key` (`HashMap::get`).
    #[verifier::external_body]
    pub fn get(&self, key: &str) -> (r: Option<&String>)
        ensures
            r is Some == raid_names_contents(*self).contains_key(key@),
            r matches Some(v) ==> *v == raid_names_contents(*self)[key@],
    {
        self.map.get(key)
    }

    /// Sets the entry for `key` (`HashMap::insert`).
    #[verifier::external_body]
    pub fn insert(&mut self, key: String, value: String)
        ensures
            raid_names_contents(*final(self)) == raid_names_contents(*old(self)).insert(key@, value),
    {
        self.map.insert(key, value);
    }
}

impl Clone for LevelTable {
    /// A copy of the table (`HashMap::clone`).
    #[verifier::external_body]
    fn clone(&self) -> (r: Self)
        ensures
            r@ == self@,
    {
        LevelTable { map: self.map.clone() }
    }
}

/// The identity gauges at the start of each skill, by skill id.
///
/// Held in a hashbrown `HashMap` in a field Verus does not see; each
/// method makes one hashbrown call.
#[derive(Debug)]
#[verifier::external_body]
pub struct GaugeSnapshots {
    map: hashbrown::HashMap<u32, IdentityGaugeSnapshot>,
}

/// What a `GaugeSnapshots` holds.
pub uninterp spec fn gauge_snapshots_contents(t: GaugeSnapshots) -> Map<u32, IdentityGaugeSnapshot>;

impl View for GaugeSnapshots {
    type V = Map<u32, IdentityGaugeSnapshot>;

    open spec fn view(&self) -> Map<u32, IdentityGaugeSnapshot> {
        gauge_snapshots_contents(*self)
    }
}

impl GaugeSnapshots {
    /// An empty table (`hashbrown::HashMap::new`).
    #[verifier::external_body]
    pub fn new() -> (r: Self)
        ensures
            gauge_snapshots_contents(r).dom().is_empty(),
    {
        GaugeSnapshots { map: hashbrown::HashMap::new() }
    }

    /// The entry for `key` (`HashMap::get`).
    #[verifier::external_body]
    pub fn get(&self, key: &u32) -> (r: Option<&IdentityGaugeSnapshot>)
        ensures
            r is Some == gauge_snapshots_contents(*self).contains_key(*key),
            r matches Some(v) ==> *v == gauge_snapshots_contents(*self)[*key],
    {
        self.map.get(key)
    }

    /// Sets the entry for `key` (`HashMap::insert`).
    #[verifier::external_body]
    pub fn insert(&mut self, key: u32, value: IdentityGaugeSnapshot)
        ensures
            gauge_snapshots_contents(*final(self)) == gauge_snapshots_contents(*old(self)).insert(key, value),
    {
        self.map.insert(key, value);
    }

    /// Removes every entry (`HashMap::clear`).
    #[verifier::external_body]
    pub fn clear(&mut self)
        ensures
            gauge_snapshots_contents(*final(self)).dom().is_empty(),
    {
        self.map.clear();
    }
}

impl Clone for GaugeSnapshots {
    /// A copy of the table (`HashMap::clone`).
    #[verifier::external_body]
    fn clone(&self) -> (r: Self)
        ensures
            r@ == self@,
    {
        GaugeSnapshots { map: self.map.clone() }
    }
}

/// An encounter entity's skills by skill id.
///
/// Held in a hashbrown `HashMap` in a field Verus does not see; each
/// method makes one hashbrown call.
#[derive(Debug)]
#[verifier::external_body]
pub struct EntitySkills {
    map: hashbrown::HashMap<u32, Skill>,
}

/// What a `EntitySkills` holds.
pub uninterp spec fn entity_skills_contents(t: EntitySkills) -> Map<u32, Skill>;

impl View for EntitySkills {
    type V = Map<u32, Skill>;

    open spec fn view(&self) -> Map<u32, Skill> {
        entity_skills_contents(*self)
    }
}

impl EntitySkills {
    /// An empty table (`hashbrown::HashMap::new`).
    #[verifier::external_body]
    pub fn new() -> (r: Self)
        ensures
            entity_skills_contents(r).dom().is_empty(),
    {
        EntitySkills { map: hashbrown::HashMap::new() }
    }

    /// The entry for `key` (`HashMap::get`).
    #[verifier::external_body]
    pub fn get(&self, key: &u32) -> (r: Option<&Skill>)
        ensures
            r is Some == entity_skills_contents(*self).contains_key(*key),
            r matches Some(v) ==> *v == entity_skills_contents(*self)[*key],
    {
        self.map.get(key)
    }

    /// Sets the entry for `key` (`HashMap::insert`).
    #[verifier::external_body]
    pub fn insert(&mut self, key: u32, value: Skill)
        ensures
            entity_skills_contents(*final(self)) == entity_skills_contents(*old(self)).insert(key, value),
    {
        self.map.insert(key, value);
    }
}

} // verus!
