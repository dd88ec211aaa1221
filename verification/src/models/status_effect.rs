//! Status effects as the meter classifies and shows them.
pub use crate::live::status_tracker::{
    StatusEffectBuffCategory, StatusEffectCategory, StatusEffectShowType, StatusEffectTargetType, StatusEffectType,
};
use crate::models::data::SkillData;
use vstd::prelude::*;

verus! {

/// Whom a buff is shown on.
#[derive(Debug, Clone, Copy, PartialEq, Eq, Structural)]
pub enum StatusEffectTarget {
    OTHER,
    PARTY,
    SELF,
}

impl Default for StatusEffectTarget {
    fn default() -> (r: Self)
        ensures
            r == StatusEffectTarget::OTHER,
    {
        StatusEffectTarget::OTHER
    }
}

/// What a buff's icon stands for: its name, description and icon, and the
/// skill or the equipment set it comes from.
#[derive(Debug, Clone)]
pub struct StatusEffectSource {
    pub name: String,
    pub desc: String,
    pub icon: String,
    pub skill: Option<SkillData>,
    pub set_name: Option<String>,
}

/// A buff as the meter shows it.
#[derive(Debug, Clone)]
pub struct StatusEffect {
    pub target: StatusEffectTarget,
    pub category: String,
    pub buff_category: String,
    pub buff_type: u32,
    pub unique_group: u32,
    pub source: StatusEffectSource,
}

impl Default for StatusEffectSource {
    fn default() -> (r: Self)
        ensures
            r.name@ == Seq::<char>::empty() && r.desc@ == Seq::<char>::empty() && r.icon@ == Seq::<char>::empty(),
            r.skill is None && r.set_name is None,
    {
        StatusEffectSource { name: String::new(), desc: String::new(), icon: String::new(), skill: None, set_name: None }
    }
}

impl Default for StatusEffect {
    fn default() -> (r: Self)
        ensures
            r.target == StatusEffectTarget::OTHER,
            r.category@ == Seq::<char>::empty() && r.buff_category@ == Seq::<char>::empty(),
            r.buff_type == 0 && r.unique_group == 0,
            r.source.name@ == Seq::<char>::empty() && r.source.desc@ == Seq::<char>::empty(),
            r.source.icon@ == Seq::<char>::empty() && r.source.skill is None && r.source.set_name is None,
    {
        StatusEffect {
            target: StatusEffectTarget::OTHER,
            category: String::new(),
            buff_category: String::new(),
            buff_type: 0,
            unique_group: 0,
            source: StatusEffectSource::default(),
        }
    }
}

/// The flag bits of the kinds of effect a buff has (see
/// `get_status_effect_buff_type_flags`).
pub const BUFF_TYPE_NONE: u32 = 0;

pub const BUFF_TYPE_DMG: u32 = 1;

pub const BUFF_TYPE_CRIT: u32 = 2;

pub const BUFF_TYPE_ATKSPEED: u32 = 4;

pub const BUFF_TYPE_MOVESPEED: u32 = 8;

pub const BUFF_TYPE_HP: u32 = 16;

pub const BUFF_TYPE_DEFENSE: u32 = 32;

pub const BUFF_TYPE_RESOURCE: u32 = 64;

pub const BUFF_TYPE_COOLDOWN: u32 = 128;

pub const BUFF_TYPE_STAGGER: u32 = 256;

pub const BUFF_TYPE_SHIELD: u32 = 512;

pub const BUFF_TYPE_ANY: u32 = 1048576;

} // verus!
