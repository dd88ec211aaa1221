//! Skill casts, their hits and tripod choices.
use vstd::prelude::*;

verus! {

/// The tripods chosen in each of a skill's three tiers.
#[derive(Debug, Clone, Copy, PartialEq, Eq, Structural)]
pub struct TripodIndex {
    pub first: u8,
    pub second: u8,
    pub third: u8,
}

/// The levels of a skill's three chosen tripods.
#[derive(Debug, Clone, Copy, PartialEq, Eq, Structural)]
pub struct TripodLevel {
    pub first: u16,
    pub second: u16,
    pub third: u16,
}

/// One hit of a cast.
#[derive(Debug, Clone)]
pub struct SkillHit {
    pub timestamp: i64,
    pub damage: i64,
    pub unbuffed_damage: i64,
    pub rdps_damage_received: i64,
    pub rdps_damage_received_support: i64,
    pub crit: bool,
    pub back_attack: bool,
    pub front_attack: bool,
    pub buffed_by: Vec<u32>,
    pub debuffed_by: Vec<u32>,
    pub stagger: i64,
}

/// What a hit records.
pub struct SkillHitView {
    pub timestamp: i64,
    pub damage: i64,
    pub unbuffed_damage: i64,
    pub rdps_damage_received: i64,
    pub rdps_damage_received_support: i64,
    pub crit: bool,
    pub back_attack: bool,
    pub front_attack: bool,
    pub buffed_by: Seq<u32>,
    pub debuffed_by: Seq<u32>,
    pub stagger: i64,
}

impl View for SkillHit {
    type V = SkillHitView;

    open spec fn view(&self) -> SkillHitView {
        SkillHitView {
            timestamp: self.timestamp,
            damage: self.damage,
            unbuffed_damage: self.unbuffed_damage,
            rdps_damage_received: self.rdps_damage_received,
            rdps_damage_received_support: self.rdps_damage_received_support,
            crit: self.crit,
            back_attack: self.back_attack,
            front_attack: self.front_attack,
            buffed_by: self.buffed_by@,
            debuffed_by: self.debuffed_by@,
            stagger: self.stagger,
        }
    }
}

impl SkillHit {
    /// A hit of `damage` at `timestamp` with nothing else recorded.
    pub fn new(timestamp: i64, damage: i64) -> (r: SkillHit)
        ensures
            r@ == (SkillHitView {
                timestamp,
                damage,
                unbuffed_damage: 0,
                rdps_damage_received: 0,
                rdps_damage_received_support: 0,
                crit: false,
                back_attack: false,
                front_attack: false,
                buffed_by: seq![],
                debuffed_by: seq![],
                stagger: 0,
            }),
    {
        SkillHit {
            timestamp,
            damage,
            unbuffed_damage: 0,
            rdps_damage_received: 0,
            rdps_damage_received_support: 0,
            crit: false,
            back_attack: false,
            front_attack: false,
            buffed_by: Vec::new(),
            debuffed_by: Vec::new(),
            stagger: 0,
        }
    }

    /// A field-by-field copy.
    pub fn duplicate(&self) -> (r: SkillHit)
        ensures
            r@ == self@,
    {
        SkillHit {
            timestamp: self.timestamp,
            damage: self.damage,
            unbuffed_damage: self.unbuffed_damage,
            rdps_damage_received: self.rdps_damage_received,
            rdps_damage_received_support: self.rdps_damage_received_support,
            crit: self.crit,
            back_attack: self.back_attack,
            front_attack: self.front_attack,
            buffed_by: copy_ids(&self.buffed_by),
            debuffed_by: copy_ids(&self.debuffed_by),
            stagger: self.stagger,
        }
    }
}

fn copy_ids(v: &Vec<u32>) -> (r: Vec<u32>)
    ensures
        r@ == v@,
{
    let mut out: Vec<u32> = Vec::new();
    let mut i: usize = 0;
    while i < v.len()
        invariant
            i <= v@.len(),
            out@ == v@.subrange(0, i as int),
        decreases v@.len() - i,
    {
        out.push(v[i]);
        i = i + 1;
        proof {
            assert(out@ =~= v@.subrange(0, i as int));
        }
    }
    proof {
        assert(out@ =~= v@);
    }
    out
}

/// A cast of a skill: its hits, when it started and when its last hit landed.
#[derive(Debug, Clone)]
pub struct SkillCast {
    pub hits: Vec<SkillHit>,
    pub timestamp: i64,
    pub last: i64,
}

/// What a cast records.
pub struct CastView {
    pub hits: Seq<SkillHitView>,
    pub timestamp: i64,
    pub last: i64,
}

impl View for SkillCast {
    type V = CastView;

    open spec fn view(&self) -> CastView {
        CastView { hits: self.hits@.map_values(|h: SkillHit| h@), timestamp: self.timestamp, last: self.last }
    }
}

/// A use of a skill and the cooldown it started.
#[derive(Debug, Clone, Copy)]
pub struct CastEvent {
    pub timestamp: i64,
    pub cooldown_duration_ms: i64,
}

/// A skill as a source entity's skill list records it: its latest cast and
/// the tripods chosen for it.
#[derive(Debug, Clone)]
pub struct Skill {
    pub id: u32,
    pub name: String,
    pub tripod_index: Option<TripodIndex>,
    pub last_timestamp: i64,
}

} // verus!
