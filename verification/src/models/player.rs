//! Class specialisations, identified in the combat log by their engraving id.
use crate::text::str_eq;
use vstd::prelude::*;

verus! {

/// A class specialisation; the variants are listed by engraving id.
#[derive(Debug, Clone, Copy, PartialEq, Eq, Hash, Structural)]
pub enum Specialisation {
    Unknown,
    BerserkerTechnique,
    Mayhem,
    LoneKnight,
    CombatReadiness,
    RageHammer,
    GravityTraining,
    GraceOfTheEmpress,
    OrderOfTheEmperor,
    CommunicationOverflow,
    MasterSummoner,
    DesperateSalvation,
    TrueCourage,
    FirstIntention,
    EsotericSkillEnhancement,
    UltimateSkillTaijutsu,
    ShockTraining,
    EnergyOverflow,
    RobustSpirit,
    Surge,
    RemainingEnergy,
    LunarVoice,
    Hunger,
    DemonicImpulse,
    PerfectSuppression,
    DeathStrike,
    LoyalCompanion,
    EnhancedWeapon,
    Pistoleer,
    BarrageEnhancement,
    FirepowerEnhancement,
    FullBloom,
    Recurrence,
    WindFury,
    Drizzle,
    Ferality,
    PhantomBeastAwakening,
    Control,
    Pinnacle,
    EvolutionaryLegacy,
    ArthetineanSkill,
    Judgement,
    BlessedAura,
    Igniter,
    Reflux,
    Peacemaker,
    TimeToHunt,
    EsotericFlurry,
    Deathblow,
    Punisher,
    Predator,
    FullMoonHarvester,
    NightsEdge,
    BrawlKingStorm,
    AsurasPath,
    ShiningKnight,
    Liberator,
}

impl Default for Specialisation {
    fn default() -> (r: Self)
        ensures
            r == Specialisation::Unknown,
    {
        Specialisation::Unknown
    }
}

/// Each specialisation with its engraving id and display name.
pub open spec fn spec_specialisation_table() -> Seq<(Specialisation, u32, Seq<char>)> {
    seq![
        (Specialisation::Unknown, 0u32, "Unknown"@),
        (Specialisation::BerserkerTechnique, 2160000u32, "Berserker Technique"@),
        (Specialisation::Mayhem, 2160010u32, "Mayhem"@),
        (Specialisation::LoneKnight, 2170000u32, "Lone Knight"@),
        (Specialisation::CombatReadiness, 2170010u32, "Combat Readiness"@),
        (Specialisation::RageHammer, 2180000u32, "Rage Hammer"@),
        (Specialisation::GravityTraining, 2180010u32, "Gravity Training"@),
        (Specialisation::GraceOfTheEmpress, 2190000u32, "Grace of the Empress"@),
        (Specialisation::OrderOfTheEmperor, 2190100u32, "Order of the Emperor"@),
        (Specialisation::CommunicationOverflow, 2200000u32, "Communication Overflow"@),
        (Specialisation::MasterSummoner, 2200100u32, "Master Summoner"@),
        (Specialisation::DesperateSalvation, 2210000u32, "Desperate Salvation"@),
        (Specialisation::TrueCourage, 2210100u32, "True Courage"@),
        (Specialisation::FirstIntention, 2220000u32, "First Intention"@),
        (Specialisation::EsotericSkillEnhancement, 2220100u32, "Esoteric Skill Enhancement"@),
        (Specialisation::UltimateSkillTaijutsu, 2230000u32, "Ultimate Skill: Taijutsu"@),
        (Specialisation::ShockTraining, 2230100u32, "Shock Training"@),
        (Specialisation::EnergyOverflow, 2240000u32, "Energy Overflow"@),
        (Specialisation::RobustSpirit, 2240100u32, "Robust Spirit"@),
        (Specialisation::Surge, 2250000u32, "Surge"@),
        (Specialisation::RemainingEnergy, 2250600u32, "Remaining Energy"@),
        (Specialisation::LunarVoice, 2260000u32, "Lunar Voice"@),
        (Specialisation::Hunger, 2260600u32, "Hunger"@),
        (Specialisation::DemonicImpulse, 2270000u32, "Demonic Impulse"@),
        (Specialisation::PerfectSuppression, 2270600u32, "Perfect Suppression"@),
        (Specialisation::DeathStrike, 2280000u32, "Death Strike"@),
        (Specialisation::LoyalCompanion, 2280100u32, "Loyal Companion"@),
        (Specialisation::EnhancedWeapon, 2290000u32, "Enhanced Weapon"@),
        (Specialisation::Pistoleer, 2290100u32, "Pistoleer"@),
        (Specialisation::BarrageEnhancement, 2300000u32, "Barrage Enhancement"@),
        (Specialisation::FirepowerEnhancement, 2300100u32, "Firepower Enhancement"@),
        (Specialisation::FullBloom, 2310000u32, "Full Bloom"@),
        (Specialisation::Recurrence, 2310600u32, "Recurrence"@),
        (Specialisation::WindFury, 2320000u32, "Wind Fury"@),
        (Specialisation::Drizzle, 2320600u32, "Drizzle"@),
        (Specialisation::Ferality, 2330000u32, "Ferality"@),
        (Specialisation::PhantomBeastAwakening, 2330100u32, "Phantom Beast Awakening"@),
        (Specialisation::Control, 2340000u32, "Control"@),
        (Specialisation::Pinnacle, 2340100u32, "Pinnacle"@),
        (Specialisation::EvolutionaryLegacy, 2350000u32, "Evolutionary Legacy"@),
        (Specialisation::ArthetineanSkill, 2350100u32, "Arthetinean Skill"@),
        (Specialisation::Judgement, 2360000u32, "Judgement"@),
        (Specialisation::BlessedAura, 2360010u32, "Blessed Aura"@),
        (Specialisation::Igniter, 2370000u32, "Igniter"@),
        (Specialisation::Reflux, 2370100u32, "Reflux"@),
        (Specialisation::Peacemaker, 2380000u32, "Peacemaker"@),
        (Specialisation::TimeToHunt, 2380100u32, "Time to Hunt"@),
        (Specialisation::EsotericFlurry, 2390000u32, "Esoteric Flurry"@),
        (Specialisation::Deathblow, 2390010u32, "Deathblow"@),
        (Specialisation::Punisher, 2450000u32, "Punisher"@),
        (Specialisation::Predator, 2450010u32, "Predator"@),
        (Specialisation::FullMoonHarvester, 2460000u32, "Full Moon Harvester"@),
        (Specialisation::NightsEdge, 2460600u32, "Night's Edge"@),
        (Specialisation::BrawlKingStorm, 2470000u32, "Brawl King Storm"@),
        (Specialisation::AsurasPath, 2470100u32, "Asura's Path"@),
        (Specialisation::ShiningKnight, 2480000u32, "Shining Knight"@),
        (Specialisation::Liberator, 2480100u32, "Liberator"@)
    ]
}

/// The entry of the table for each specialisation.
pub open spec fn spec_entry_index(s: Specialisation) -> int {
    match s {
        Specialisation::Unknown => 0,
        Specialisation::BerserkerTechnique => 1,
        Specialisation::Mayhem => 2,
        Specialisation::LoneKnight => 3,
        Specialisation::CombatReadiness => 4,
        Specialisation::RageHammer => 5,
        Specialisation::GravityTraining => 6,
        Specialisation::GraceOfTheEmpress => 7,
        Specialisation::OrderOfTheEmperor => 8,
        Specialisation::CommunicationOverflow => 9,
        Specialisation::MasterSummoner => 10,
        Specialisation::DesperateSalvation => 11,
        Specialisation::TrueCourage => 12,
        Specialisation::FirstIntention => 13,
        Specialisation::EsotericSkillEnhancement => 14,
        Specialisation::UltimateSkillTaijutsu => 15,
        Specialisation::ShockTraining => 16,
        Specialisation::EnergyOverflow => 17,
        Specialisation::RobustSpirit => 18,
        Specialisation::Surge => 19,
        Specialisation::RemainingEnergy => 20,
        Specialisation::LunarVoice => 21,
        Specialisation::Hunger => 22,
        Specialisation::DemonicImpulse => 23,
        Specialisation::PerfectSuppression => 24,
        Specialisation::DeathStrike => 25,
        Specialisation::LoyalCompanion => 26,
        Specialisation::EnhancedWeapon => 27,
        Specialisation::Pistoleer => 28,
        Specialisation::BarrageEnhancement => 29,
        Specialisation::FirepowerEnhancement => 30,
        Specialisation::FullBloom => 31,
        Specialisation::Recurrence => 32,
        Specialisation::WindFury => 33,
        Specialisation::Drizzle => 34,
        Specialisation::Ferality => 35,
        Specialisation::PhantomBeastAwakening => 36,
        Specialisation::Control => 37,
        Specialisation::Pinnacle => 38,
        Specialisation::EvolutionaryLegacy => 39,
        Specialisation::ArthetineanSkill => 40,
        Specialisation::Judgement => 41,
        Specialisation::BlessedAura => 42,
        Specialisation::Igniter => 43,
        Specialisation::Reflux => 44,
        Specialisation::Peacemaker => 45,
        Specialisation::TimeToHunt => 46,
        Specialisation::EsotericFlurry => 47,
        Specialisation::Deathblow => 48,
        Specialisation::Punisher => 49,
        Specialisation::Predator => 50,
        Specialisation::FullMoonHarvester => 51,
        Specialisation::NightsEdge => 52,
        Specialisation::BrawlKingStorm => 53,
        Specialisation::AsurasPath => 54,
        Specialisation::ShiningKnight => 55,
        Specialisation::Liberator => 56,
    }
}

/// The engraving id of each specialisation.
pub open spec fn spec_specialisation_id(s: Specialisation) -> u32 {
    spec_specialisation_table()[spec_entry_index(s)].1
}

/// The display name of each specialisation.
pub open spec fn spec_specialisation_name(s: Specialisation) -> Seq<char> {
    spec_specialisation_table()[spec_entry_index(s)].2
}

/// The specialisation of the first table entry with engraving id `id`.
pub open spec fn spec_specialisation_from_id(id: u32) -> Option<Specialisation> {
    if exists|i: int| 0 <= i < spec_specialisation_table().len() && (#[trigger] spec_specialisation_table()[i]).1 == id {
        let i = choose|i: int| 0 <= i < spec_specialisation_table().len() && (#[trigger] spec_specialisation_table()[i]).1 == id;
        Some(spec_specialisation_table()[i].0)
    } else {
        None
    }
}

impl Specialisation {
    /// Whether the specialisation plays as a support.
    pub open spec fn spec_is_support(&self) -> bool {
        *self == Specialisation::BlessedAura || *self == Specialisation::DesperateSalvation || *self == Specialisation::FullBloom
            || *self == Specialisation::Liberator
    }

    pub fn is_support(&self) -> (r: bool)
        ensures
            r == self.spec_is_support(),
    {
        matches!(self, Specialisation::BlessedAura | Specialisation::DesperateSalvation | Specialisation::FullBloom | Specialisation::Liberator)
    }

    /// The engraving id (the enum's numeric value).
    pub fn id(&self) -> (r: u32)
        ensures
            r == spec_specialisation_id(*self),
    {
        let table = specialisation_table();
        table[self.index()].1
    }

    /// The display name (its `AsRef<str>` form).
    pub fn as_str(&self) -> (r: &'static str)
        ensures
            r@ == spec_specialisation_name(*self),
    {
        let table = specialisation_table();
        table[self.index()].2
    }

    fn index(&self) -> (r: usize)
        ensures
            r == spec_entry_index(*self),
    {
        match self {
            Specialisation::Unknown => 0,
            Specialisation::BerserkerTechnique => 1,
            Specialisation::Mayhem => 2,
            Specialisation::LoneKnight => 3,
            Specialisation::CombatReadiness => 4,
            Specialisation::RageHammer => 5,
            Specialisation::GravityTraining => 6,
            Specialisation::GraceOfTheEmpress => 7,
            Specialisation::OrderOfTheEmperor => 8,
            Specialisation::CommunicationOverflow => 9,
            Specialisation::MasterSummoner => 10,
            Specialisation::DesperateSalvation => 11,
            Specialisation::TrueCourage => 12,
            Specialisation::FirstIntention => 13,
            Specialisation::EsotericSkillEnhancement => 14,
            Specialisation::UltimateSkillTaijutsu => 15,
            Specialisation::ShockTraining => 16,
            Specialisation::EnergyOverflow => 17,
            Specialisation::RobustSpirit => 18,
            Specialisation::Surge => 19,
            Specialisation::RemainingEnergy => 20,
            Specialisation::LunarVoice => 21,
            Specialisation::Hunger => 22,
            Specialisation::DemonicImpulse => 23,
            Specialisation::PerfectSuppression => 24,
            Specialisation::DeathStrike => 25,
            Specialisation::LoyalCompanion => 26,
            Specialisation::EnhancedWeapon => 27,
            Specialisation::Pistoleer => 28,
            Specialisation::BarrageEnhancement => 29,
            Specialisation::FirepowerEnhancement => 30,
            Specialisation::FullBloom => 31,
            Specialisation::Recurrence => 32,
            Specialisation::WindFury => 33,
            Specialisation::Drizzle => 34,
            Specialisation::Ferality => 35,
            Specialisation::PhantomBeastAwakening => 36,
            Specialisation::Control => 37,
            Specialisation::Pinnacle => 38,
            Specialisation::EvolutionaryLegacy => 39,
            Specialisation::ArthetineanSkill => 40,
            Specialisation::Judgement => 41,
            Specialisation::BlessedAura => 42,
            Specialisation::Igniter => 43,
            Specialisation::Reflux => 44,
            Specialisation::Peacemaker => 45,
            Specialisation::TimeToHunt => 46,
            Specialisation::EsotericFlurry => 47,
            Specialisation::Deathblow => 48,
            Specialisation::Punisher => 49,
            Specialisation::Predator => 50,
            Specialisation::FullMoonHarvester => 51,
            Specialisation::NightsEdge => 52,
            Specialisation::BrawlKingStorm => 53,
            Specialisation::AsurasPath => 54,
            Specialisation::ShiningKnight => 55,
            Specialisation::Liberator => 56,
        }
    }

    /// The specialisation with engraving id `id`, if any.
    pub fn from_id(id: u32) -> (r: Option<Specialisation>)
        ensures
            r == spec_specialisation_from_id(id),
    {
        let table = specialisation_table();
        let mut i: usize = 0;
        while i < table.len()
            invariant
                i <= table@.len(),
                table@.map_values(|e: (Specialisation, u32, &'static str)| (e.0, e.1, e.2@)) == spec_specialisation_table(),
                forall|j: int| 0 <= j < i ==> (#[trigger] spec_specialisation_table()[j]).1 != id,
            decreases table@.len() - i,
        {
            proof {
                assert(spec_specialisation_table()[i as int].1 == table@[i as int].1);
            }
            if table[i].1 == id {
                proof {
                    lemma_ids_distinct();
                    assert(spec_specialisation_table()[i as int].1 == id);
                }
                return Some(table[i].0);
            }
            i = i + 1;
        }
        None
    }

    /// The specialisation a display name stands for (its `FromStr` form).
    pub fn from_name(s: &str) -> (r: Option<Specialisation>)
        ensures
            r matches Some(v) ==> spec_specialisation_name(v) == s@,
            r is None ==> forall|i: int| 0 <= i < spec_specialisation_table().len() ==> (#[trigger] spec_specialisation_table()[i]).2 != s@,
    {
        let table = specialisation_table();
        let mut i: usize = 0;
        while i < table.len()
            invariant
                i <= table@.len(),
                table@.map_values(|e: (Specialisation, u32, &'static str)| (e.0, e.1, e.2@)) == spec_specialisation_table(),
                forall|j: int| 0 <= j < i ==> (#[trigger] spec_specialisation_table()[j]).2 != s@,
            decreases table@.len() - i,
        {
            proof {
                assert(spec_specialisation_table()[i as int].2 == table@[i as int].2@);
            }
            if str_eq(table[i].2, s) {
                proof {
                    lemma_table_indexes();
                    assert(spec_entry_index(spec_specialisation_table()[i as int].0) == i);
                }
                return Some(table[i].0);
            }
            i = i + 1;
        }
        None
    }
}

fn specialisation_table() -> (r: Vec<(Specialisation, u32, &'static str)>)
    ensures
        r@.map_values(|e: (Specialisation, u32, &'static str)| (e.0, e.1, e.2@)) == spec_specialisation_table(),
        r@.len() == spec_specialisation_table().len(),
{
    let r: Vec<(Specialisation, u32, &'static str)> = vec![
        (Specialisation::Unknown, 0, "Unknown"),
        (Specialisation::BerserkerTechnique, 2160000, "Berserker Technique"),
        (Specialisation::Mayhem, 2160010, "Mayhem"),
        (Specialisation::LoneKnight, 2170000, "Lone Knight"),
        (Specialisation::CombatReadiness, 2170010, "Combat Readiness"),
        (Specialisation::RageHammer, 2180000, "Rage Hammer"),
        (Specialisation::GravityTraining, 2180010, "Gravity Training"),
        (Specialisation::GraceOfTheEmpress, 2190000, "Grace of the Empress"),
        (Specialisation::OrderOfTheEmperor, 2190100, "Order of the Emperor"),
        (Specialisation::CommunicationOverflow, 2200000, "Communication Overflow"),
        (Specialisation::MasterSummoner, 2200100, "Master Summoner"),
        (Specialisation::DesperateSalvation, 2210000, "Desperate Salvation"),
        (Specialisation::TrueCourage, 2210100, "True Courage"),
        (Specialisation::FirstIntention, 2220000, "First Intention"),
        (Specialisation::EsotericSkillEnhancement, 2220100, "Esoteric Skill Enhancement"),
        (Specialisation::UltimateSkillTaijutsu, 2230000, "Ultimate Skill: Taijutsu"),
        (Specialisation::ShockTraining, 2230100, "Shock Training"),
        (Specialisation::EnergyOverflow, 2240000, "Energy Overflow"),
        (Specialisation::RobustSpirit, 2240100, "Robust Spirit"),
        (Specialisation::Surge, 2250000, "Surge"),
        (Specialisation::RemainingEnergy, 2250600, "Remaining Energy"),
        (Specialisation::LunarVoice, 2260000, "Lunar Voice"),
        (Specialisation::Hunger, 2260600, "Hunger"),
        (Specialisation::DemonicImpulse, 2270000, "Demonic Impulse"),
        (Specialisation::PerfectSuppression, 2270600, "Perfect Suppression"),
        (Specialisation::DeathStrike, 2280000, "Death Strike"),
        (Specialisation::LoyalCompanion, 2280100, "Loyal Companion"),
        (Specialisation::EnhancedWeapon, 2290000, "Enhanced Weapon"),
        (Specialisation::Pistoleer, 2290100, "Pistoleer"),
        (Specialisation::BarrageEnhancement, 2300000, "Barrage Enhancement"),
        (Specialisation::FirepowerEnhancement, 2300100, "Firepower Enhancement"),
        (Specialisation::FullBloom, 2310000, "Full Bloom"),
        (Specialisation::Recurrence, 2310600, "Recurrence"),
        (Specialisation::WindFury, 2320000, "Wind Fury"),
        (Specialisation::Drizzle, 2320600, "Drizzle"),
        (Specialisation::Ferality, 2330000, "Ferality"),
        (Specialisation::PhantomBeastAwakening, 2330100, "Phantom Beast Awakening"),
        (Specialisation::Control, 2340000, "Control"),
        (Specialisation::Pinnacle, 2340100, "Pinnacle"),
        (Specialisation::EvolutionaryLegacy, 2350000, "Evolutionary Legacy"),
        (Specialisation::ArthetineanSkill, 2350100, "Arthetinean Skill"),
        (Specialisation::Judgement, 2360000, "Judgement"),
        (Specialisation::BlessedAura, 2360010, "Blessed Aura"),
        (Specialisation::Igniter, 2370000, "Igniter"),
        (Specialisation::Reflux, 2370100, "Reflux"),
        (Specialisation::Peacemaker, 2380000, "Peacemaker"),
        (Specialisation::TimeToHunt, 2380100, "Time to Hunt"),
        (Specialisation::EsotericFlurry, 2390000, "Esoteric Flurry"),
        (Specialisation::Deathblow, 2390010, "Deathblow"),
        (Specialisation::Punisher, 2450000, "Punisher"),
        (Specialisation::Predator, 2450010, "Predator"),
        (Specialisation::FullMoonHarvester, 2460000, "Full Moon Harvester"),
        (Specialisation::NightsEdge, 2460600, "Night's Edge"),
        (Specialisation::BrawlKingStorm, 2470000, "Brawl King Storm"),
        (Specialisation::AsurasPath, 2470100, "Asura's Path"),
        (Specialisation::ShiningKnight, 2480000, "Shining Knight"),
        (Specialisation::Liberator, 2480100, "Liberator")
    ];
    proof {
        assert(r@.map_values(|e: (Specialisation, u32, &'static str)| (e.0, e.1, e.2@)) =~= spec_specialisation_table());
    }
    r
}

/// Each table entry sits at its specialisation's index.
proof fn lemma_table_indexes()
    ensures
        forall|i: int| 0 <= i < spec_specialisation_table().len() ==> spec_entry_index(#[trigger] spec_specialisation_table()[i].0) == i,
{
    let t = spec_specialisation_table();
    assert forall|i: int| 0 <= i < t.len() implies spec_entry_index(#[trigger] t[i].0) == i by {

        if i == 0 {
        } else if i == 1 {
        } else if i == 2 {
        } else if i == 3 {
        } else if i == 4 {
        } else if i == 5 {
        } else if i == 6 {
        } else if i == 7 {
        } else if i == 8 {
        } else if i == 9 {
        } else if i == 10 {
        } else if i == 11 {
        } else if i == 12 {
        } else if i == 13 {
        } else if i == 14 {
        } else if i == 15 {
        } else if i == 16 {
        } else if i == 17 {
        } else if i == 18 {
        } else if i == 19 {
        } else if i == 20 {
        } else if i == 21 {
        } else if i == 22 {
        } else if i == 23 {
        } else if i == 24 {
        } else if i == 25 {
        } else if i == 26 {
        } else if i == 27 {
        } else if i == 28 {
        } else if i == 29 {
        } else if i == 30 {
        } else if i == 31 {
        } else if i == 32 {
        } else if i == 33 {
        } else if i == 34 {
        } else if i == 35 {
        } else if i == 36 {
        } else if i == 37 {
        } else if i == 38 {
        } else if i == 39 {
        } else if i == 40 {
        } else if i == 41 {
        } else if i == 42 {
        } else if i == 43 {
        } else if i == 44 {
        } else if i == 45 {
        } else if i == 46 {
        } else if i == 47 {
        } else if i == 48 {
        } else if i == 49 {
        } else if i == 50 {
        } else if i == 51 {
        } else if i == 52 {
        } else if i == 53 {
        } else if i == 54 {
        } else if i == 55 {
        } else if i == 56 {
        }
    }
}

/// The engraving ids of the table are all different.
proof fn lemma_ids_distinct()
    ensures
        forall|i: int, j: int| 0 <= i < j < spec_specialisation_table().len() ==> (#[trigger] spec_specialisation_table()[i]).1 != (
        #[trigger] spec_specialisation_table()[j]).1,
{
    let t = spec_specialisation_table();
    assert forall|i: int, j: int| 0 <= i < j < t.len() implies (#[trigger] t[i]).1 < (#[trigger] t[j]).1 by {
        assert forall|k: int| 0 <= k < t.len() - 1 implies (#[trigger] t[k]).1 < t[k + 1].1 by {
        }
        lemma_increasing(t, i, j);
    }
}

proof fn lemma_increasing(t: Seq<(Specialisation, u32, Seq<char>)>, i: int, j: int)
    requires
        0 <= i < j < t.len(),
        forall|k: int| 0 <= k < t.len() - 1 ==> (#[trigger] t[k]).1 < t[k + 1].1,
    ensures
        t[i].1 < t[j].1,
    decreases j - i,
{
    if j > i + 1 {
        lemma_increasing(t, i, j - 1);
        assert(t[j - 1].1 < t[j].1);
    }
}

/// Reading back the engraving id of a specialisation gives it.
pub proof fn specialisation_id_round_trip(s: Specialisation)
    ensures
        spec_specialisation_from_id(spec_specialisation_id(s)) == Some(s),
{
    lemma_ids_distinct();
    lemma_table_indexes();
    let t = spec_specialisation_table();
    let k = spec_entry_index(s);
    assert(0 <= k < t.len());
    assert(t[k].0 == s);
    let i = choose|i: int| 0 <= i < t.len() && (#[trigger] t[i]).1 == t[k].1;
    if i != k {
        if i < k {
            assert(t[i].1 != t[k].1);
        } else {
            assert(t[k].1 != t[i].1);
        }
    }
}

} // verus!
