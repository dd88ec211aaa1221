//! Raid kinds and the bosses that identify them.
use crate::text::str_eq;
use vstd::prelude::*;

verus! {

/// A raid gate, or a guardian raid.
#[derive(Debug, Clone, Copy, PartialEq, Eq, Hash, Structural)]
pub enum RaidType {
    Unknown,
    Act1G1,
    Act1G2,
    Act2G1,
    Act2G2,
    Act3G1,
    Act3G2,
    Act3G3,
    Argeos,
    BehemothG1,
    BehemothG2,
    Drextalas,
    EchidnaG1,
    EchidnaG2,
    Skolakia,
    StrikeG1,
}

/// The bosses that identify a raid kind, each with its kind.
pub open spec fn spec_boss_table() -> Seq<(Seq<char>, RaidType)> {
    seq![
        ("Akkan, Lord of Death"@, RaidType::Act1G1),
        ("Aegir, the Oppressor"@, RaidType::Act1G2),
        ("Narok the Butcher"@, RaidType::Act2G1),
        ("Phantom Manifester Brelshaza"@, RaidType::Act2G2),
        ("Infernas"@, RaidType::Act3G1),
        ("Blossoming Fear, Naitreya"@, RaidType::Act3G2),
        ("Flash of Punishment"@, RaidType::Act3G3),
        ("Mordum, the Abyssal Punisher"@, RaidType::Act3G3),
        ("Argeos"@, RaidType::Argeos),
        ("Behemoth, the Storm Commander"@, RaidType::BehemothG1),
        ("Behemoth, Cruel Storm Slayer"@, RaidType::BehemothG2),
        ("Drextalas"@, RaidType::Drextalas),
        ("Red Doom Narkiel"@, RaidType::EchidnaG1),
        ("Covetous Master Echidna"@, RaidType::EchidnaG2),
        ("Skolakia"@, RaidType::Skolakia),
        ("Flame of Darkness, Tarkal"@, RaidType::StrikeG1)
    ]
}

/// The kind of the first entry of `table` for boss `name`.
pub open spec fn spec_lookup_kind(table: Seq<(Seq<char>, RaidType)>, name: Seq<char>) -> RaidType
    decreases table.len(),
{
    if table.len() == 0 {
        RaidType::Unknown
    } else if table[0].0 == name {
        table[0].1
    } else {
        spec_lookup_kind(table.drop_first(), name)
    }
}

/// The raid kind an encounter with boss `name` belongs to.
pub open spec fn spec_raid_from_boss(name: Seq<char>) -> RaidType {
    spec_lookup_kind(spec_boss_table(), name)
}

/// The bosses whose encounter identifies each raid kind.
pub open spec fn spec_bosses(t: RaidType) -> Seq<Seq<char>> {
    match t {
        RaidType::Unknown => seq![],
        RaidType::Act1G1 => seq!["Akkan, Lord of Death"@],
        RaidType::Act1G2 => seq!["Aegir, the Oppressor"@],
        RaidType::Act2G1 => seq!["Narok the Butcher"@],
        RaidType::Act2G2 => seq!["Phantom Manifester Brelshaza"@],
        RaidType::Act3G1 => seq!["Infernas"@],
        RaidType::Act3G2 => seq!["Blossoming Fear, Naitreya"@],
        RaidType::Act3G3 => seq!["Mordum, the Abyssal Punisher"@, "Flash of Punishment"@],
        RaidType::Argeos => seq!["Argeos"@],
        RaidType::BehemothG1 => seq!["Behemoth, the Storm Commander"@],
        RaidType::BehemothG2 => seq!["Behemoth, Cruel Storm Slayer"@],
        RaidType::Drextalas => seq!["Drextalas"@],
        RaidType::EchidnaG1 => seq!["Red Doom Narkiel"@],
        RaidType::EchidnaG2 => seq!["Covetous Master Echidna"@],
        RaidType::Skolakia => seq!["Skolakia"@],
        RaidType::StrikeG1 => seq!["Flame of Darkness, Tarkal"@],
    }
}

/// The display name of each raid kind (its `AsRef<str>` form).
pub open spec fn spec_raid_name(t: RaidType) -> Seq<char> {
    match t {
        RaidType::Unknown => "Unknown"@,
        RaidType::Act1G1 => "Akkan"@,
        RaidType::Act1G2 => "Aegir"@,
        RaidType::Act2G1 => "Narok"@,
        RaidType::Act2G2 => "Brelshaza"@,
        RaidType::Act3G1 => "Thaemine & Infernas"@,
        RaidType::Act3G2 => "Naitreya"@,
        RaidType::Act3G3 => "Mordum"@,
        RaidType::Argeos => "Argeos"@,
        RaidType::BehemothG1 => "Behemoth"@,
        RaidType::BehemothG2 => "Behemoth"@,
        RaidType::Drextalas => "Drextalas"@,
        RaidType::EchidnaG1 => "Narkiel"@,
        RaidType::EchidnaG2 => "Echidna"@,
        RaidType::Skolakia => "Skolakia"@,
        RaidType::StrikeG1 => "Tarkal"@,
    }
}

impl RaidType {
    pub open spec fn spec_is_guardian_raid(&self) -> bool {
        *self == RaidType::Argeos || *self == RaidType::Skolakia || *self == RaidType::Drextalas
    }

    /// The last gate of a raid, or a guardian raid.
    pub open spec fn spec_is_final_gate(&self) -> bool {
        ||| self.spec_is_guardian_raid()
        ||| *self == RaidType::Act1G2
        ||| *self == RaidType::Act2G2
        ||| *self == RaidType::Act3G3
        ||| *self == RaidType::BehemothG2
        ||| *self == RaidType::EchidnaG2
        ||| *self == RaidType::StrikeG1
    }

    /// Where the raid kind sorts in statistics: the final gates from the
    /// newest raid (0) to the oldest (5), other gates at 6, guardian raids at
    /// 999.
    pub open spec fn spec_order(&self) -> u32 {
        if self.spec_is_guardian_raid() {
            999
        } else if *self == RaidType::StrikeG1 {
            0
        } else if *self == RaidType::Act3G3 {
            1
        } else if *self == RaidType::Act2G2 {
            2
        } else if *self == RaidType::Act1G2 {
            3
        } else if *self == RaidType::EchidnaG2 {
            4
        } else if *self == RaidType::BehemothG2 {
            5
        } else {
            6
        }
    }

    /// The bosses whose encounter identifies the raid kind.
    pub fn get_bosses(&self) -> (r: Vec<&'static str>)
        ensures
            r@.map_values(|s: &'static str| s@) == spec_bosses(*self),
    {
        let r: Vec<&'static str> = match self {
            RaidType::Unknown => vec![],
            RaidType::Act1G1 => vec!["Akkan, Lord of Death"],
            RaidType::Act1G2 => vec!["Aegir, the Oppressor"],
            RaidType::Act2G1 => vec!["Narok the Butcher"],
            RaidType::Act2G2 => vec!["Phantom Manifester Brelshaza"],
            RaidType::Act3G1 => vec!["Infernas"],
            RaidType::Act3G2 => vec!["Blossoming Fear, Naitreya"],
            RaidType::Act3G3 => vec!["Mordum, the Abyssal Punisher", "Flash of Punishment"],
            RaidType::Argeos => vec!["Argeos"],
            RaidType::BehemothG1 => vec!["Behemoth, the Storm Commander"],
            RaidType::BehemothG2 => vec!["Behemoth, Cruel Storm Slayer"],
            RaidType::Drextalas => vec!["Drextalas"],
            RaidType::EchidnaG1 => vec!["Red Doom Narkiel"],
            RaidType::EchidnaG2 => vec!["Covetous Master Echidna"],
            RaidType::Skolakia => vec!["Skolakia"],
            RaidType::StrikeG1 => vec!["Flame of Darkness, Tarkal"],
        };
        proof {
            assert(r@.map_values(|s: &'static str| s@) =~= spec_bosses(*self));
        }
        r
    }

    pub fn is_guardian_raid(&self) -> (r: bool)
        ensures
            r == self.spec_is_guardian_raid(),
    {
        matches!(self, RaidType::Argeos | RaidType::Skolakia | RaidType::Drextalas)
    }

    pub fn is_final_gate(&self) -> (r: bool)
        ensures
            r == self.spec_is_final_gate(),
    {
        self.is_guardian_raid() || matches!(
            self,
            RaidType::Act1G2 | RaidType::Act2G2 | RaidType::Act3G3 | RaidType::BehemothG2 | RaidType::EchidnaG2 | RaidType::StrikeG1
        )
    }

    pub fn order(&self) -> (r: u32)
        ensures
            r == self.spec_order(),
    {
        if self.is_guardian_raid() {
            return 999;
        }
        match self {
            RaidType::StrikeG1 => 0,
            RaidType::Act3G3 => 1,
            RaidType::Act2G2 => 2,
            RaidType::Act1G2 => 3,
            RaidType::EchidnaG2 => 4,
            RaidType::BehemothG2 => 5,
            _ => 6,
        }
    }

    /// The display name (its `AsRef<str>` form).
    pub fn as_str(&self) -> (r: &'static str)
        ensures
            r@ == spec_raid_name(*self),
    {
        match self {
            RaidType::Unknown => "Unknown",
            RaidType::Act1G1 => "Akkan",
            RaidType::Act1G2 => "Aegir",
            RaidType::Act2G1 => "Narok",
            RaidType::Act2G2 => "Brelshaza",
            RaidType::Act3G1 => "Thaemine & Infernas",
            RaidType::Act3G2 => "Naitreya",
            RaidType::Act3G3 => "Mordum",
            RaidType::Argeos => "Argeos",
            RaidType::BehemothG1 => "Behemoth",
            RaidType::BehemothG2 => "Behemoth",
            RaidType::Drextalas => "Drextalas",
            RaidType::EchidnaG1 => "Narkiel",
            RaidType::EchidnaG2 => "Echidna",
            RaidType::Skolakia => "Skolakia",
            RaidType::StrikeG1 => "Tarkal",
        }
    }

    /// The raid kind an encounter with boss `name` belongs to.
    pub fn from_boss(name: &str) -> (r: RaidType)
        ensures
            r == spec_raid_from_boss(name@),
    {
        let table = boss_table();
        let mut i: usize = 0;
        proof {
            assert(table@.map_values(|e: (&'static str, RaidType)| (e.0@, e.1)).subrange(0, table@.len() as int) =~= spec_boss_table());
        }
        while i < table.len()
            invariant
                i <= table@.len(),
                table@.map_values(|e: (&'static str, RaidType)| (e.0@, e.1)) == spec_boss_table(),
                spec_raid_from_boss(name@) == spec_lookup_kind(
                    table@.map_values(|e: (&'static str, RaidType)| (e.0@, e.1)).subrange(i as int, table@.len() as int),
                    name@,
                ),
            decreases table@.len() - i,
        {
            let ghost views = table@.map_values(|e: (&'static str, RaidType)| (e.0@, e.1));
            proof {
                assert(views.subrange(i as int, table@.len() as int).drop_first() =~= views.subrange(i + 1, table@.len() as int));
                assert(views.subrange(i as int, table@.len() as int)[0] == views[i as int]);
            }
            if str_eq(table[i].0, name) {
                return table[i].1;
            }
            i = i + 1;
        }
        RaidType::Unknown
    }
}

/// The bosses that identify a raid kind, each with its kind.
fn boss_table() -> (r: Vec<(&'static str, RaidType)>)
    ensures
        r@.map_values(|e: (&'static str, RaidType)| (e.0@, e.1)) == spec_boss_table(),
{
    let r: Vec<(&'static str, RaidType)> = vec![
        ("Akkan, Lord of Death", RaidType::Act1G1),
        ("Aegir, the Oppressor", RaidType::Act1G2),
        ("Narok the Butcher", RaidType::Act2G1),
        ("Phantom Manifester Brelshaza", RaidType::Act2G2),
        ("Infernas", RaidType::Act3G1),
        ("Blossoming Fear, Naitreya", RaidType::Act3G2),
        ("Flash of Punishment", RaidType::Act3G3),
        ("Mordum, the Abyssal Punisher", RaidType::Act3G3),
        ("Argeos", RaidType::Argeos),
        ("Behemoth, the Storm Commander", RaidType::BehemothG1),
        ("Behemoth, Cruel Storm Slayer", RaidType::BehemothG2),
        ("Drextalas", RaidType::Drextalas),
        ("Red Doom Narkiel", RaidType::EchidnaG1),
        ("Covetous Master Echidna", RaidType::EchidnaG2),
        ("Skolakia", RaidType::Skolakia),
        ("Flame of Darkness, Tarkal", RaidType::StrikeG1)
    ];
    proof {
        assert(r@.map_values(|e: (&'static str, RaidType)| (e.0@, e.1)) =~= spec_boss_table());
    }
    r
}

impl From<String> for RaidType {
    fn from(value: String) -> (r: Self) {
        RaidType::from_boss(value.as_str())
    }
}

impl vstd::std_specs::convert::FromSpecImpl<String> for RaidType {
    open spec fn obeys_from_spec() -> bool {
        true
    }

    open spec fn from_spec(v: String) -> RaidType {
        spec_raid_from_boss(v@)
    }
}

/// The boss names of the table are all different.
proof fn lemma_boss_names_distinct()
    ensures
        forall|i: int, j: int| 0 <= i < j < spec_boss_table().len() ==> (#[trigger] spec_boss_table()[i]).0 != (#[trigger] spec_boss_table()[j]).0,
{
    reveal_strlit("Akkan, Lord of Death");
    reveal_strlit("Aegir, the Oppressor");
    reveal_strlit("Narok the Butcher");
    reveal_strlit("Phantom Manifester Brelshaza");
    reveal_strlit("Infernas");
    reveal_strlit("Blossoming Fear, Naitreya");
    reveal_strlit("Flash of Punishment");
    reveal_strlit("Mordum, the Abyssal Punisher");
    reveal_strlit("Argeos");
    reveal_strlit("Behemoth, the Storm Commander");
    reveal_strlit("Behemoth, Cruel Storm Slayer");
    reveal_strlit("Drextalas");
    reveal_strlit("Red Doom Narkiel");
    reveal_strlit("Covetous Master Echidna");
    reveal_strlit("Skolakia");
    reveal_strlit("Flame of Darkness, Tarkal");
    let t = spec_boss_table();
    assert("Akkan, Lord of Death"@[1] != "Aegir, the Oppressor"@[1]);
    assert("Akkan, Lord of Death"@.len() != "Narok the Butcher"@.len());
    assert("Akkan, Lord of Death"@.len() != "Phantom Manifester Brelshaza"@.len());
    assert("Akkan, Lord of Death"@.len() != "Infernas"@.len());
    assert("Akkan, Lord of Death"@.len() != "Blossoming Fear, Naitreya"@.len());
    assert("Akkan, Lord of Death"@.len() != "Flash of Punishment"@.len());
    assert("Akkan, Lord of Death"@.len() != "Mordum, the Abyssal Punisher"@.len());
    assert("Akkan, Lord of Death"@.len() != "Argeos"@.len());
    assert("Akkan, Lord of Death"@.len() != "Behemoth, the Storm Commander"@.len());
    assert("Akkan, Lord of Death"@.len() != "Behemoth, Cruel Storm Slayer"@.len());
    assert("Akkan, Lord of Death"@.len() != "Drextalas"@.len());
    assert("Akkan, Lord of Death"@.len() != "Red Doom Narkiel"@.len());
    assert("Akkan, Lord of Death"@.len() != "Covetous Master Echidna"@.len());
    assert("Akkan, Lord of Death"@.len() != "Skolakia"@.len());
    assert("Akkan, Lord of Death"@.len() != "Flame of Darkness, Tarkal"@.len());
    assert("Aegir, the Oppressor"@.len() != "Narok the Butcher"@.len());
    assert("Aegir, the Oppressor"@.len() != "Phantom Manifester Brelshaza"@.len());
    assert("Aegir, the Oppressor"@.len() != "Infernas"@.len());
    assert("Aegir, the Oppressor"@.len() != "Blossoming Fear, Naitreya"@.len());
    assert("Aegir, the Oppressor"@.len() != "Flash of Punishment"@.len());
    assert("Aegir, the Oppressor"@.len() != "Mordum, the Abyssal Punisher"@.len());
    assert("Aegir, the Oppressor"@.len() != "Argeos"@.len());
    assert("Aegir, the Oppressor"@.len() != "Behemoth, the Storm Commander"@.len());
    assert("Aegir, the Oppressor"@.len() != "Behemoth, Cruel Storm Slayer"@.len());
    assert("Aegir, the Oppressor"@.len() != "Drextalas"@.len());
    assert("Aegir, the Oppressor"@.len() != "Red Doom Narkiel"@.len());
    assert("Aegir, the Oppressor"@.len() != "Covetous Master Echidna"@.len());
    assert("Aegir, the Oppressor"@.len() != "Skolakia"@.len());
    assert("Aegir, the Oppressor"@.len() != "Flame of Darkness, Tarkal"@.len());
    assert("Narok the Butcher"@.len() != "Phantom Manifester Brelshaza"@.len());
    assert("Narok the Butcher"@.len() != "Infernas"@.len());
    assert("Narok the Butcher"@.len() != "Blossoming Fear, Naitreya"@.len());
    assert("Narok the Butcher"@.len() != "Flash of Punishment"@.len());
    assert("Narok the Butcher"@.len() != "Mordum, the Abyssal Punisher"@.len());
    assert("Narok the Butcher"@.len() != "Argeos"@.len());
    assert("Narok the Butcher"@.len() != "Behemoth, the Storm Commander"@.len());
    assert("Narok the Butcher"@.len() != "Behemoth, Cruel Storm Slayer"@.len());
    assert("Narok the Butcher"@.len() != "Drextalas"@.len());
    assert("Narok the Butcher"@.len() != "Red Doom Narkiel"@.len());
    assert("Narok the Butcher"@.len() != "Covetous Master Echidna"@.len());
    assert("Narok the Butcher"@.len() != "Skolakia"@.len());
    assert("Narok the Butcher"@.len() != "Flame of Darkness, Tarkal"@.len());
    assert("Phantom Manifester Brelshaza"@.len() != "Infernas"@.len());
    assert("Phantom Manifester Brelshaza"@.len() != "Blossoming Fear, Naitreya"@.len());
    assert("Phantom Manifester Brelshaza"@.len() != "Flash of Punishment"@.len());
    assert("Phantom Manifester Brelshaza"@[0] != "Mordum, the Abyssal Punisher"@[0]);
    assert("Phantom Manifester Brelshaza"@.len() != "Argeos"@.len());
    assert("Phantom Manifester Brelshaza"@.len() != "Behemoth, the Storm Commander"@.len());
    assert("Phantom Manifester Brelshaza"@[0] != "Behemoth, Cruel Storm Slayer"@[0]);
    assert("Phantom Manifester Brelshaza"@.len() != "Drextalas"@.len());
    assert("Phantom Manifester Brelshaza"@.len() != "Red Doom Narkiel"@.len());
    assert("Phantom Manifester Brelshaza"@.len() != "Covetous Master Echidna"@.len());
    assert("Phantom Manifester Brelshaza"@.len() != "Skolakia"@.len());
    assert("Phantom Manifester Brelshaza"@.len() != "Flame of Darkness, Tarkal"@.len());
    assert("Infernas"@.len() != "Blossoming Fear, Naitreya"@.len());
    assert("Infernas"@.len() != "Flash of Punishment"@.len());
    assert("Infernas"@.len() != "Mordum, the Abyssal Punisher"@.len());
    assert("Infernas"@.len() != "Argeos"@.len());
    assert("Infernas"@.len() != "Behemoth, the Storm Commander"@.len());
    assert("Infernas"@.len() != "Behemoth, Cruel Storm Slayer"@.len());
    assert("Infernas"@.len() != "Drextalas"@.len());
    assert("Infernas"@.len() != "Red Doom Narkiel"@.len());
    assert("Infernas"@.len() != "Covetous Master Echidna"@.len());
    assert("Infernas"@[0] != "Skolakia"@[0]);
    assert("Infernas"@.len() != "Flame of Darkness, Tarkal"@.len());
    assert("Blossoming Fear, Naitreya"@.len() != "Flash of Punishment"@.len());
    assert("Blossoming Fear, Naitreya"@.len() != "Mordum, the Abyssal Punisher"@.len());
    assert("Blossoming Fear, Naitreya"@.len() != "Argeos"@.len());
    assert("Blossoming Fear, Naitreya"@.len() != "Behemoth, the Storm Commander"@.len());
    assert("Blossoming Fear, Naitreya"@.len() != "Behemoth, Cruel Storm Slayer"@.len());
    assert("Blossoming Fear, Naitreya"@.len() != "Drextalas"@.len());
    assert("Blossoming Fear, Naitreya"@.len() != "Red Doom Narkiel"@.len());
    assert("Blossoming Fear, Naitreya"@.len() != "Covetous Master Echidna"@.len());
    assert("Blossoming Fear, Naitreya"@.len() != "Skolakia"@.len());
    assert("Blossoming Fear, Naitreya"@[0] != "Flame of Darkness, Tarkal"@[0]);
    assert("Flash of Punishment"@.len() != "Mordum, the Abyssal Punisher"@.len());
    assert("Flash of Punishment"@.len() != "Argeos"@.len());
    assert("Flash of Punishment"@.len() != "Behemoth, the Storm Commander"@.len());
    assert("Flash of Punishment"@.len() != "Behemoth, Cruel Storm Slayer"@.len());
    assert("Flash of Punishment"@.len() != "Drextalas"@.len());
    assert("Flash of Punishment"@.len() != "Red Doom Narkiel"@.len());
    assert("Flash of Punishment"@.len() != "Covetous Master Echidna"@.len());
    assert("Flash of Punishment"@.len() != "Skolakia"@.len());
    assert("Flash of Punishment"@.len() != "Flame of Darkness, Tarkal"@.len());
    assert("Mordum, the Abyssal Punisher"@.len() != "Argeos"@.len());
    assert("Mordum, the Abyssal Punisher"@.len() != "Behemoth, the Storm Commander"@.len());
    assert("Mordum, the Abyssal Punisher"@[0] != "Behemoth, Cruel Storm Slayer"@[0]);
    assert("Mordum, the Abyssal Punisher"@.len() != "Drextalas"@.len());
    assert("Mordum, the Abyssal Punisher"@.len() != "Red Doom Narkiel"@.len());
    assert("Mordum, the Abyssal Punisher"@.len() != "Covetous Master Echidna"@.len());
    assert("Mordum, the Abyssal Punisher"@.len() != "Skolakia"@.len());
    assert("Mordum, the Abyssal Punisher"@.len() != "Flame of Darkness, Tarkal"@.len());
    assert("Argeos"@.len() != "Behemoth, the Storm Commander"@.len());
    assert("Argeos"@.len() != "Behemoth, Cruel Storm Slayer"@.len());
    assert("Argeos"@.len() != "Drextalas"@.len());
    assert("Argeos"@.len() != "Red Doom Narkiel"@.len());
    assert("Argeos"@.len() != "Covetous Master Echidna"@.len());
    assert("Argeos"@.len() != "Skolakia"@.len());
    assert("Argeos"@.len() != "Flame of Darkness, Tarkal"@.len());
    assert("Behemoth, the Storm Commander"@.len() != "Behemoth, Cruel Storm Slayer"@.len());
    assert("Behemoth, the Storm Commander"@.len() != "Drextalas"@.len());
    assert("Behemoth, the Storm Commander"@.len() != "Red Doom Narkiel"@.len());
    assert("Behemoth, the Storm Commander"@.len() != "Covetous Master Echidna"@.len());
    assert("Behemoth, the Storm Commander"@.len() != "Skolakia"@.len());
    assert("Behemoth, the Storm Commander"@.len() != "Flame of Darkness, Tarkal"@.len());
    assert("Behemoth, Cruel Storm Slayer"@.len() != "Drextalas"@.len());
    assert("Behemoth, Cruel Storm Slayer"@.len() != "Red Doom Narkiel"@.len());
    assert("Behemoth, Cruel Storm Slayer"@.len() != "Covetous Master Echidna"@.len());
    assert("Behemoth, Cruel Storm Slayer"@.len() != "Skolakia"@.len());
    assert("Behemoth, Cruel Storm Slayer"@.len() != "Flame of Darkness, Tarkal"@.len());
    assert("Drextalas"@.len() != "Red Doom Narkiel"@.len());
    assert("Drextalas"@.len() != "Covetous Master Echidna"@.len());
    assert("Drextalas"@.len() != "Skolakia"@.len());
    assert("Drextalas"@.len() != "Flame of Darkness, Tarkal"@.len());
    assert("Red Doom Narkiel"@.len() != "Covetous Master Echidna"@.len());
    assert("Red Doom Narkiel"@.len() != "Skolakia"@.len());
    assert("Red Doom Narkiel"@.len() != "Flame of Darkness, Tarkal"@.len());
    assert("Covetous Master Echidna"@.len() != "Skolakia"@.len());
    assert("Covetous Master Echidna"@.len() != "Flame of Darkness, Tarkal"@.len());
    assert("Skolakia"@.len() != "Flame of Darkness, Tarkal"@.len());
}

proof fn lemma_lookup_unique(table: Seq<(Seq<char>, RaidType)>, i: int)
    requires
        0 <= i < table.len(),
        forall|a: int, b: int| 0 <= a < b < table.len() ==> (#[trigger] table[a]).0 != (#[trigger] table[b]).0,
    ensures
        spec_lookup_kind(table, table[i].0) == table[i].1,
    decreases i,
{
    if i > 0 {
        assert(table[0].0 != table[i].0);
        let rest = table.drop_first();
        assert forall|a: int, b: int| 0 <= a < b < rest.len() implies (#[trigger] rest[a]).0 != (#[trigger] rest[b]).0 by {
            assert(table[a + 1].0 != table[b + 1].0);
        }
        assert(rest[i - 1] == table[i]);
        lemma_lookup_unique(rest, i - 1);
    }
}

/// Every boss that identifies a raid kind maps back to that kind, and only
/// the unknown kind lists no boss.
pub proof fn raid_type_from_its_bosses(t: RaidType)
    ensures
        forall|i: int| 0 <= i < spec_bosses(t).len() ==> spec_raid_from_boss(#[trigger] spec_bosses(t)[i]) == t,
        spec_bosses(t).len() == 0 <==> t == RaidType::Unknown,
{
    assert forall|i: int| 0 <= i < spec_bosses(t).len() implies spec_raid_from_boss(#[trigger] spec_bosses(t)[i]) == t by {
        lemma_boss_maps_back(t, i);
    }
}

proof fn lemma_boss_maps_back(t: RaidType, i: int)
    requires
        0 <= i < spec_bosses(t).len(),
    ensures
        spec_raid_from_boss(spec_bosses(t)[i]) == t,
{
    lemma_boss_names_distinct();
    let table = spec_boss_table();
    match t {
        RaidType::Unknown => {},
        RaidType::Act1G1 => lemma_lookup_unique(table, 0),
        RaidType::Act1G2 => lemma_lookup_unique(table, 1),
        RaidType::Act2G1 => lemma_lookup_unique(table, 2),
        RaidType::Act2G2 => lemma_lookup_unique(table, 3),
        RaidType::Act3G1 => lemma_lookup_unique(table, 4),
        RaidType::Act3G2 => lemma_lookup_unique(table, 5),
        RaidType::Act3G3 => {
            if i == 0 {
                lemma_lookup_unique(table, 7);
            }
            if i == 1 {
                lemma_lookup_unique(table, 6);
            }
        },
        RaidType::Argeos => lemma_lookup_unique(table, 8),
        RaidType::BehemothG1 => lemma_lookup_unique(table, 9),
        RaidType::BehemothG2 => lemma_lookup_unique(table, 10),
        RaidType::Drextalas => lemma_lookup_unique(table, 11),
        RaidType::EchidnaG1 => lemma_lookup_unique(table, 12),
        RaidType::EchidnaG2 => lemma_lookup_unique(table, 13),
        RaidType::Skolakia => lemma_lookup_unique(table, 14),
        RaidType::StrikeG1 => lemma_lookup_unique(table, 15),
    }
}

/// A guardian raid is always a final gate.
pub proof fn guardian_raids_are_final_gates(t: RaidType)
    ensures
        t.spec_is_guardian_raid() ==> t.spec_is_final_gate(),
{
}

/// A raid kind sorts last exactly when it is a guardian raid.
pub proof fn guardian_raids_sort_last(t: RaidType)
    ensures
        (t.spec_order() == 999) == t.spec_is_guardian_raid(),
        !t.spec_is_guardian_raid() ==> t.spec_order() <= 6,
{
}

/// A value with its display form.
#[derive(Debug, Clone)]
pub struct Unit {
    pub formatted: String,
    pub raw: i64,
}

} // verus!
