//! Entities seen in the combat log.
use crate::text::str_eq;
use vstd::prelude::*;

verus! {

broadcast use vstd::std_specs::hash::group_hash_axioms;

/// What an entity is.
#[derive(Debug, Clone, Copy, PartialEq, Eq, Structural)]
pub enum EntityType {
    Unknown,
    Monster,
    Boss,
    Guardian,
    Player,
    Npc,
    Esther,
    Projectile,
    Summon,
}

impl Default for EntityType {
    fn default() -> (r: Self)
        ensures
            r == EntityType::Unknown,
    {
        EntityType::Unknown
    }
}

/// The name of each entity type as the meter writes it.
pub open spec fn spec_entity_type_name(t: EntityType) -> Seq<char> {
    match t {
        EntityType::Unknown => "UNKNOWN"@,
        EntityType::Monster => "MONSTER"@,
        EntityType::Boss => "BOSS"@,
        EntityType::Guardian => "GUARDIAN"@,
        EntityType::Player => "PLAYER"@,
        EntityType::Npc => "NPC"@,
        EntityType::Esther => "ESTHER"@,
        EntityType::Projectile => "PROJECTILE"@,
        EntityType::Summon => "SUMMON"@,
    }
}

/// The entity type a name stands for; a name of no known type, and the names
/// of projectiles and summons, read as `Unknown`.
pub open spec fn spec_parse_entity_type(s: Seq<char>) -> EntityType {
    if s == "MONSTER"@ {
        EntityType::Monster
    } else if s == "BOSS"@ {
        EntityType::Boss
    } else if s == "GUARDIAN"@ {
        EntityType::Guardian
    } else if s == "PLAYER"@ {
        EntityType::Player
    } else if s == "NPC"@ {
        EntityType::Npc
    } else if s == "ESTHER"@ {
        EntityType::Esther
    } else {
        EntityType::Unknown
    }
}

impl EntityType {
    /// The type's name (its `Display` form).
    pub fn to_str(&self) -> (r: &'static str)
        ensures
            r@ == spec_entity_type_name(*self),
    {
        match self {
            EntityType::Unknown => "UNKNOWN",
            EntityType::Monster => "MONSTER",
            EntityType::Boss => "BOSS",
            EntityType::Guardian => "GUARDIAN",
            EntityType::Player => "PLAYER",
            EntityType::Npc => "NPC",
            EntityType::Esther => "ESTHER",
            EntityType::Projectile => "PROJECTILE",
            EntityType::Summon => "SUMMON",
        }
    }

    /// The type's name as an owned string.
    pub fn to_string(&self) -> (r: String)
        ensures
            r@ == spec_entity_type_name(*self),
    {
        self.to_str().to_string()
    }

    /// The type a name stands for (its `FromStr` form, which never fails).
    pub fn parse(s: &str) -> (r: EntityType)
        ensures
            r == spec_parse_entity_type(s@),
    {
        if str_eq(s, "MONSTER") {
            EntityType::Monster
        } else if str_eq(s, "BOSS") {
            EntityType::Boss
        } else if str_eq(s, "GUARDIAN") {
            EntityType::Guardian
        } else if str_eq(s, "PLAYER") {
            EntityType::Player
        } else if str_eq(s, "NPC") {
            EntityType::Npc
        } else if str_eq(s, "ESTHER") {
            EntityType::Esther
        } else {
            EntityType::Unknown
        }
    }
}

impl std::str::FromStr for EntityType {
    type Err = ();

    fn from_str(s: &str) -> (r: Result<Self, Self::Err>)
        ensures
            r == Ok::<EntityType, ()>(spec_parse_entity_type(s@)),
    {
        Ok(EntityType::parse(s))
    }
}

/// Reading back the name of a type that the meter parses gives the type.
pub proof fn entity_type_name_round_trip(t: EntityType)
    requires
        t != EntityType::Projectile,
        t != EntityType::Summon,
    ensures
        spec_parse_entity_type(spec_entity_type_name(t)) == t,
{
    reveal_strlit("UNKNOWN");
    reveal_strlit("MONSTER");
    reveal_strlit("BOSS");
    reveal_strlit("GUARDIAN");
    reveal_strlit("PLAYER");
    reveal_strlit("NPC");
    reveal_strlit("ESTHER");
    assert("UNKNOWN"@[0] != "MONSTER"@[0]);
    assert("UNKNOWN"@.len() != "BOSS"@.len());
    assert("UNKNOWN"@.len() != "GUARDIAN"@.len());
    assert("UNKNOWN"@[0] != "PLAYER"@[0]);
    assert("UNKNOWN"@.len() != "NPC"@.len());
    assert("UNKNOWN"@[0] != "ESTHER"@[0]);
    assert("BOSS"@.len() != "MONSTER"@.len());
    assert("GUARDIAN"@.len() != "MONSTER"@.len());
    assert("GUARDIAN"@.len() != "BOSS"@.len());
    assert("PLAYER"@.len() != "MONSTER"@.len());
    assert("PLAYER"@.len() != "BOSS"@.len());
    assert("PLAYER"@.len() != "GUARDIAN"@.len());
    assert("NPC"@.len() != "MONSTER"@.len());
    assert("NPC"@.len() != "BOSS"@.len());
    assert("NPC"@.len() != "GUARDIAN"@.len());
    assert("NPC"@.len() != "PLAYER"@.len());
    assert("ESTHER"@.len() != "MONSTER"@.len());
    assert("ESTHER"@.len() != "BOSS"@.len());
    assert("ESTHER"@.len() != "GUARDIAN"@.len());
    assert("ESTHER"@[0] != "PLAYER"@[0]);
    assert("ESTHER"@.len() != "NPC"@.len());
}

/// An entity of the combat log, with the fields that the library reads (its
/// gear level, a float, stays with the caller).
#[derive(Debug, Clone)]
pub struct Entity {
    pub id: u64,
    pub entity_type: EntityType,
    pub name: String,
    pub npc_id: u32,
    pub class_id: u32,
    pub character_id: u64,
    pub owner_id: u64,
    pub skill_effect_id: u32,
    pub skill_id: u32,
    pub stats: std::collections::HashMap<u8, i64>,
    pub stance: u8,
    pub grade: String,
    pub push_immune: bool,
    pub level: u16,
}

impl Default for Entity {
    fn default() -> (r: Self)
        ensures
            r.id == 0 && r.entity_type == EntityType::Unknown && r.name@ == Seq::<char>::empty(),
            r.npc_id == 0 && r.class_id == 0 && r.character_id == 0 && r.owner_id == 0,
            r.skill_effect_id == 0 && r.skill_id == 0 && r.stats@ == Map::<u8, i64>::empty() && r.stance == 0 && r.grade@ == Seq::<char>::empty(),
            !r.push_immune && r.level == 0,
    {
        Entity {
            id: 0,
            entity_type: EntityType::Unknown,
            name: String::new(),
            npc_id: 0,
            class_id: 0,
            character_id: 0,
            owner_id: 0,
            skill_effect_id: 0,
            skill_id: 0,
            stats: std::collections::HashMap::new(),
            stance: 0,
            grade: String::new(),
            push_immune: false,
            level: 0,
        }
    }
}

} // verus!
