//! How a hit landed, as the damage packets encode it.
use vstd::prelude::*;

verus! {

/// Where a hit landed relative to the target's facing.
#[derive(Debug, Clone, Copy, PartialEq, Eq, Structural)]
pub enum HitOption {
    NoOption,
    BackAttack,
    FrontalAttack,
    FlankAttack,
    Max,
}

/// What a hit did.
#[derive(Debug, Clone, Copy, PartialEq, Eq, Structural)]
pub enum HitFlag {
    Normal,
    Critical,
    Miss,
    Invincible,
    Dot,
    Immune,
    ImmuneSilenced,
    FontSilenced,
    DotCritical,
    Dodge,
    Reflect,
    DamageShare,
    DodgeHit,
    Max,
    Unknown,
}

/// A hit's option and flag.
#[derive(Debug, Clone, Copy, PartialEq, Eq, Structural)]
pub struct HitInfo(pub HitOption, pub HitFlag);

/// Why a modifier does not decode.
#[derive(Debug, Clone, Copy, PartialEq, Eq, Structural)]
pub enum HitInfoError {
    /// The low four bits name no hit flag.
    InvalidHitFlag(u8),
    /// The option bits, less one, name no hit option.
    InvalidHitOption(i32),
}

pub open spec fn spec_hit_option_code(o: HitOption) -> u8 {
    match o {
        HitOption::NoOption => 0,
        HitOption::BackAttack => 1,
        HitOption::FrontalAttack => 2,
        HitOption::FlankAttack => 3,
        HitOption::Max => 4,
    }
}

pub open spec fn spec_hit_flag_code(f: HitFlag) -> u8 {
    match f {
        HitFlag::Normal => 0,
        HitFlag::Critical => 1,
        HitFlag::Miss => 2,
        HitFlag::Invincible => 3,
        HitFlag::Dot => 4,
        HitFlag::Immune => 5,
        HitFlag::ImmuneSilenced => 6,
        HitFlag::FontSilenced => 7,
        HitFlag::DotCritical => 8,
        HitFlag::Dodge => 9,
        HitFlag::Reflect => 10,
        HitFlag::DamageShare => 11,
        HitFlag::DodgeHit => 12,
        HitFlag::Max => 13,
        HitFlag::Unknown => 14,
    }
}

/// The flag a raw flag value names; values above 13 name none.
pub open spec fn spec_flag_from_raw(raw: u8) -> Option<HitFlag> {
    match raw {
        0u8 => Some(HitFlag::Normal),
        1u8 => Some(HitFlag::Critical),
        2u8 => Some(HitFlag::Miss),
        3u8 => Some(HitFlag::Invincible),
        4u8 => Some(HitFlag::Dot),
        5u8 => Some(HitFlag::Immune),
        6u8 => Some(HitFlag::ImmuneSilenced),
        7u8 => Some(HitFlag::FontSilenced),
        8u8 => Some(HitFlag::DotCritical),
        9u8 => Some(HitFlag::Dodge),
        10u8 => Some(HitFlag::Reflect),
        11u8 => Some(HitFlag::DamageShare),
        12u8 => Some(HitFlag::DodgeHit),
        13u8 => Some(HitFlag::Max),
        _ => None,
    }
}

/// The option a raw option value names: -1 is no option, 0 to 3 the others.
pub open spec fn spec_option_from_raw(raw: i32) -> Option<HitOption> {
    if raw == -1 {
        Some(HitOption::NoOption)
    } else if raw == 0 {
        Some(HitOption::BackAttack)
    } else if raw == 1 {
        Some(HitOption::FrontalAttack)
    } else if raw == 2 {
        Some(HitOption::FlankAttack)
    } else if raw == 3 {
        Some(HitOption::Max)
    } else {
        None
    }
}

/// A damage modifier decoded: the flag is its low four bits, the option its
/// next three bits less one.
pub open spec fn spec_decode_hit_info(value: i32) -> Result<HitInfo, HitInfoError> {
    let flag_raw = (value & 0xF) as u8;
    let option_raw = ((value >> 4) & 0x7) - 1;
    match spec_flag_from_raw(flag_raw) {
        None => Err(HitInfoError::InvalidHitFlag(flag_raw)),
        Some(f) => match spec_option_from_raw(option_raw as i32) {
            None => Err(HitInfoError::InvalidHitOption(option_raw as i32)),
            Some(o) => Ok(HitInfo(o, f)),
        },
    }
}

/// A flag and an option encoded as a damage modifier: an unknown flag is
/// written as 15 and an option code of 4 or more as 0.
pub open spec fn spec_encode_modifier(hit_flag: HitFlag, hit_option: HitOption) -> i32 {
    let flag_bits: u8 = if hit_flag == HitFlag::Unknown {
        15
    } else {
        spec_hit_flag_code(hit_flag)
    };
    let option_bits: u8 = if spec_hit_option_code(hit_option) >= 4 {
        0
    } else {
        spec_hit_option_code(hit_option)
    };
    (((option_bits << 4u8) | flag_bits) as u8) as i32
}

impl HitOption {
    /// The option's numeric value.
    pub fn code(&self) -> (r: u8)
        ensures
            r == spec_hit_option_code(*self),
    {
        match self {
            HitOption::NoOption => 0,
            HitOption::BackAttack => 1,
            HitOption::FrontalAttack => 2,
            HitOption::FlankAttack => 3,
            HitOption::Max => 4,
        }
    }
}

impl HitFlag {
    /// The flag's numeric value.
    pub fn code(&self) -> (r: u8)
        ensures
            r == spec_hit_flag_code(*self),
    {
        match self {
            HitFlag::Normal => 0,
            HitFlag::Critical => 1,
            HitFlag::Miss => 2,
            HitFlag::Invincible => 3,
            HitFlag::Dot => 4,
            HitFlag::Immune => 5,
            HitFlag::ImmuneSilenced => 6,
            HitFlag::FontSilenced => 7,
            HitFlag::DotCritical => 8,
            HitFlag::Dodge => 9,
            HitFlag::Reflect => 10,
            HitFlag::DamageShare => 11,
            HitFlag::DodgeHit => 12,
            HitFlag::Max => 13,
            HitFlag::Unknown => 14,
        }
    }
}

impl HitInfo {
    /// Decodes a damage modifier (the `TryFrom<i32>` form).
    pub fn from_modifier(value: i32) -> (r: Result<HitInfo, HitInfoError>)
        ensures
            r == spec_decode_hit_info(value),
    {
        let flag_raw: u8 = (value & 0xF) as u8;
        let flag = match flag_raw {
            0 => HitFlag::Normal,
            1 => HitFlag::Critical,
            2 => HitFlag::Miss,
            3 => HitFlag::Invincible,
            4 => HitFlag::Dot,
            5 => HitFlag::Immune,
            6 => HitFlag::ImmuneSilenced,
            7 => HitFlag::FontSilenced,
            8 => HitFlag::DotCritical,
            9 => HitFlag::Dodge,
            10 => HitFlag::Reflect,
            11 => HitFlag::DamageShare,
            12 => HitFlag::DodgeHit,
            13 => HitFlag::Max,
            _ => return Err(HitInfoError::InvalidHitFlag(flag_raw)),
        };
        let bits: i32 = (value >> 4) & 0x7;
        proof {
            assert(0 <= (value >> 4) & 0x7 <= 7) by (bit_vector);
        }
        let option_raw: i32 = bits - 1;
        let option = if option_raw == -1 {
            HitOption::NoOption
        } else if option_raw == 0 {
            HitOption::BackAttack
        } else if option_raw == 1 {
            HitOption::FrontalAttack
        } else if option_raw == 2 {
            HitOption::FlankAttack
        } else if option_raw == 3 {
            HitOption::Max
        } else {
            return Err(HitInfoError::InvalidHitOption(option_raw));
        };
        Ok(HitInfo(option, flag))
    }

    /// Encodes a flag and an option as a damage modifier.
    pub fn encode_modifier(hit_flag: HitFlag, hit_option: HitOption) -> (r: i32)
        ensures
            r == spec_encode_modifier(hit_flag, hit_option),
    {
        let flag_bits: u8 = match hit_flag {
            HitFlag::Unknown => 15,
            _ => hit_flag.code(),
        };
        let option_bits: u8 = if hit_option.code() >= 4 {
            0
        } else {
            hit_option.code()
        };
        ((option_bits << 4u8) | flag_bits) as i32
    }
}

impl std::convert::TryFrom<i32> for HitInfo {
    type Error = HitInfoError;

    fn try_from(value: i32) -> Result<Self, Self::Error> {
        HitInfo::from_modifier(value)
    }
}

impl vstd::std_specs::convert::TryFromSpecImpl<i32> for HitInfo {
    open spec fn obeys_try_from_spec() -> bool {
        true
    }

    open spec fn try_from_spec(v: i32) -> Result<HitInfo, HitInfoError> {
        spec_decode_hit_info(v)
    }
}

proof fn lemma_modifier_bits(a: u8, b: u8)
    requires
        a < 4,
        b < 16,
    ensures
        ((((a << 4u8) | b) as u8) as i32) & 0xF == b as i32,
        (((((a << 4u8) | b) as u8) as i32) >> 4) & 0x7 == a as i32,
{
    assert(((((a << 4u8) | b) as u8) as i32) & 0xF == b as i32) by (bit_vector)
        requires
            a < 4,
            b < 16,
    ;
    assert((((((a << 4u8) | b) as u8) as i32) >> 4) & 0x7 == a as i32) by (bit_vector)
        requires
            a < 4,
            b < 16,
    ;
}

/// Decoding the modifier that a known flag and a real option encode to gives
/// them back.
pub proof fn hit_info_round_trip(hit_flag: HitFlag, hit_option: HitOption)
    requires
        hit_flag != HitFlag::Unknown,
        hit_option != HitOption::Max,
    ensures
        spec_decode_hit_info(spec_encode_modifier(hit_flag, hit_option)) == Ok::<HitInfo, HitInfoError>(HitInfo(hit_option, hit_flag)),
{
    lemma_modifier_bits(spec_hit_option_code(hit_option), spec_hit_flag_code(hit_flag));
}

} // verus!
