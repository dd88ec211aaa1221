use loa_logs::models::dps::{HitFlag, HitInfo, HitInfoError, HitOption};
use loa_logs::models::entity::{Entity, EntityType};
use loa_logs::models::player::Specialisation;
use loa_logs::models::stats::RaidType;
use std::convert::TryFrom;
use std::str::FromStr;

#[test]
fn hit_info_decodes_flag_and_option() {
    assert_eq!(HitInfo::try_from(0x11), Ok(HitInfo(HitOption::BackAttack, HitFlag::Critical)));
    assert_eq!(HitInfo::try_from(0x00), Ok(HitInfo(HitOption::NoOption, HitFlag::Normal)));
    assert_eq!(HitInfo::try_from(0x38), Ok(HitInfo(HitOption::FlankAttack, HitFlag::DotCritical)));
    assert_eq!(HitInfo::try_from(0x28), Ok(HitInfo(HitOption::FrontalAttack, HitFlag::DotCritical)));
    assert_eq!(HitInfo::try_from(0x4D), Ok(HitInfo(HitOption::Max, HitFlag::Max)));
}

#[test]
fn hit_info_rejects_unknown_flag_bits() {
    assert_eq!(HitInfo::try_from(0x0E), Err(HitInfoError::InvalidHitFlag(14)));
    assert_eq!(HitInfo::try_from(0x1F), Err(HitInfoError::InvalidHitFlag(15)));
}

#[test]
fn hit_info_rejects_unknown_option_bits() {
    assert_eq!(HitInfo::try_from(0x60), Err(HitInfoError::InvalidHitOption(5)));
    assert_eq!(HitInfo::try_from(0x71), Err(HitInfoError::InvalidHitOption(6)));
}

#[test]
fn hit_info_round_trips_through_the_modifier() {
    let options = [HitOption::NoOption, HitOption::BackAttack, HitOption::FrontalAttack, HitOption::FlankAttack];
    let flags = [HitFlag::Normal, HitFlag::Critical, HitFlag::Dot, HitFlag::DotCritical, HitFlag::DodgeHit, HitFlag::Max];
    for option in options {
        for flag in flags {
            let modifier = HitInfo::encode_modifier(flag, option);
            assert_eq!(HitInfo::from_modifier(modifier), Ok(HitInfo(option, flag)));
        }
    }
}

#[test]
fn entity_type_names_round_trip() {
    let kinds = [
        EntityType::Unknown,
        EntityType::Monster,
        EntityType::Boss,
        EntityType::Guardian,
        EntityType::Player,
        EntityType::Npc,
        EntityType::Esther,
    ];
    for kind in kinds {
        assert_eq!(EntityType::from_str(&kind.to_string()), Ok(kind));
    }
    assert_eq!(EntityType::Boss.to_string(), "BOSS");
    assert_eq!(EntityType::Projectile.to_string(), "PROJECTILE");
    assert_eq!(EntityType::Summon.to_str(), "SUMMON");
}

#[test]
fn unknown_entity_type_names_parse_as_unknown() {
    assert_eq!(EntityType::from_str("boss"), Ok(EntityType::Unknown));
    assert_eq!(EntityType::parse("PROJECTILE"), EntityType::Unknown);
    assert_eq!(EntityType::parse(""), EntityType::Unknown);
}

#[test]
fn default_entity_is_empty() {
    let entity = Entity::default();
    assert_eq!(entity.id, 0);
    assert_eq!(entity.entity_type, EntityType::Unknown);
    assert!(entity.name.is_empty());
    assert!(entity.stats.is_empty());
    assert_eq!(EntityType::default(), EntityType::Unknown);
}

#[test]
fn specialisation_ids_and_names_round_trip() {
    assert_eq!(Specialisation::Mayhem.id(), 2160010);
    assert_eq!(Specialisation::from_id(2160010), Some(Specialisation::Mayhem));
    assert_eq!(Specialisation::Mayhem.as_str(), "Mayhem");
    assert_eq!(Specialisation::from_name("Berserker Technique"), Some(Specialisation::BerserkerTechnique));
    assert_eq!(Specialisation::from_id(12345), None);
    assert_eq!(Specialisation::from_name("Nobody"), None);
    let specs = [Specialisation::BerserkerTechnique, Specialisation::Mayhem];
    for spec in specs {
        assert_eq!(Specialisation::from_id(spec.id()), Some(spec));
        assert_eq!(Specialisation::from_name(spec.as_str()), Some(spec));
    }
}

#[test]
fn raid_types_come_back_from_their_bosses() {
    let kinds = [
        RaidType::Act1G1,
        RaidType::Act1G2,
        RaidType::Act2G1,
        RaidType::Act2G2,
        RaidType::Act3G1,
        RaidType::Act3G2,
        RaidType::Act3G3,
        RaidType::Argeos,
        RaidType::BehemothG1,
        RaidType::BehemothG2,
        RaidType::Drextalas,
        RaidType::EchidnaG1,
        RaidType::EchidnaG2,
        RaidType::Skolakia,
        RaidType::StrikeG1,
    ];
    for kind in kinds {
        for boss in kind.get_bosses() {
            assert_eq!(RaidType::from_boss(boss), kind);
            assert_eq!(RaidType::from(boss.to_string()), kind);
        }
    }
    assert!(RaidType::Unknown.get_bosses().is_empty());
    assert_eq!(RaidType::from_boss("Nobody"), RaidType::Unknown);
    assert_eq!(RaidType::Act3G3.get_bosses(), vec!["Mordum, the Abyssal Punisher", "Flash of Punishment"]);
}

#[test]
fn raid_type_order_and_gates() {
    assert_eq!(RaidType::StrikeG1.order(), 0);
    assert_eq!(RaidType::Act3G3.order(), 1);
    assert_eq!(RaidType::BehemothG2.order(), 5);
    assert_eq!(RaidType::Act1G1.order(), 6);
    assert_eq!(RaidType::Argeos.order(), 999);
    assert!(RaidType::Act2G2.is_final_gate());
    assert!(!RaidType::Act2G1.is_final_gate());
    assert!(RaidType::Argeos.is_guardian_raid());
    assert!(RaidType::Argeos.is_final_gate());
    assert!(!RaidType::Act1G1.is_guardian_raid());
    assert_eq!(RaidType::Act3G1.as_str(), "Thaemine & Infernas");
}
