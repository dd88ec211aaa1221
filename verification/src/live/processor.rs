//! The decisions the packet loop makes between packets: what it remembers of
//! local players, how it groups parties, when it refreshes the UI and when it
//! ignores damage.
use crate::live::utils::{char_is_uppercase, first_char, is_uppercase_char};
use crate::live::status_tracker::StatusEffectTargetType;
use crate::local::{LocalInfo, LocalPlayer};
use crate::models::entity::Entity;
use crate::text::str_eq;
use crate::models::tables::EntityTable;
use vstd::prelude::*;
use vstd::string::StrSliceExecFns;

verus! {

broadcast use vstd::std_specs::hash::group_hash_axioms;

/// How long after a raid ends damage packets are ignored, in milliseconds.
pub const DAMAGE_IGNORE_AFTER_END_MS: u64 = 10_000u64;

/// How often the UI is refreshed, in milliseconds.
pub const UI_UPDATE_INTERVAL_MS: u64 = 200u64;

/// How often the UI is refreshed in low performance mode, in milliseconds.
pub const LOW_PERFORMANCE_UI_UPDATE_INTERVAL_MS: u64 = 1_500u64;

/// How often the party grouping sent to the UI is refreshed, in milliseconds.
pub const PARTY_UPDATE_INTERVAL_MS: u64 = 2_000u64;

/// Notes that the local character `character_id` was seen under `name`: its
/// name is updated and its count raised by one, or it is added with a count
/// of one.
pub fn note_local_player(local_info: &mut LocalInfo, character_id: u64, name: &str)
    requires
        old(local_info).local_players.contents().contains_key(character_id) ==> old(local_info).local_players.contents()[character_id].count
            < i32::MAX,
    ensures
        final(local_info).client_id == old(local_info).client_id,
        final(local_info).local_players.contents().dom() == old(local_info).local_players.contents().dom().insert(character_id),
        forall|k: u64|
            k != character_id && #[trigger] old(local_info).local_players.contents().contains_key(k) ==> final(local_info).local_players.contents()[k]
                == old(local_info).local_players.contents()[k],
        final(local_info).local_players.contents()[character_id].name@ == name@,
        final(local_info).local_players.contents()[character_id].count == (if old(local_info).local_players.contents().contains_key(
            character_id,
        ) {
            old(local_info).local_players.contents()[character_id].count + 1
        } else {
            1
        }),
{
    let count: i32 = match local_info.local_players.get(&character_id) {
        Some(p) => p.count + 1,
        None => 1,
    };
    local_info.local_players.insert(character_id, LocalPlayer { name: name.to_string(), count });
}

/// What the loop does after a packet: whether it sends the encounter to the
/// UI, and whether it refreshes the party grouping sent with it.
#[derive(Debug, Clone, Copy, PartialEq, Eq, Structural)]
pub struct UiUpdate {
    pub send: bool,
    pub refresh_party: bool,
}

/// How often the UI is refreshed, in milliseconds.
pub open spec fn ui_interval(low_performance_mode: bool) -> u64 {
    if low_performance_mode {
        LOW_PERFORMANCE_UI_UPDATE_INTERVAL_MS
    } else {
        UI_UPDATE_INTERVAL_MS
    }
}

/// Whether the encounter is sent to the UI after a packet, and whether the
/// party grouping is refreshed with it. `since_last_update_ms` is the time
/// since the last send (`None` before the first), `since_party_update_ms`
/// the time since the grouping was last refreshed; the UI is sent at once
/// while the encounter resets or a boss died, and the grouping stays as it
/// is while it is frozen at the end of a raid.
pub fn plan_ui_update(
    since_last_update_ms: Option<u64>,
    low_performance_mode: bool,
    resetting: bool,
    boss_dead_update: bool,
    since_party_update_ms: u64,
    party_freeze: bool,
) -> (r: UiUpdate)
    ensures
        r.send == match since_last_update_ms {
            None => true,
            Some(elapsed) => elapsed >= ui_interval(low_performance_mode) || resetting || boss_dead_update,
        },
        r.refresh_party == (r.send && since_party_update_ms >= PARTY_UPDATE_INTERVAL_MS && !party_freeze),
{
    let interval = if low_performance_mode {
        LOW_PERFORMANCE_UI_UPDATE_INTERVAL_MS
    } else {
        UI_UPDATE_INTERVAL_MS
    };
    let send = match since_last_update_ms {
        None => true,
        Some(elapsed) => elapsed >= interval || resetting || boss_dead_update,
    };
    UiUpdate { send, refresh_party: send && since_party_update_ms >= PARTY_UPDATE_INTERVAL_MS && !party_freeze }
}

/// The names of an optional grouping.
pub open spec fn opt_grouping(parties: Option<Vec<Vec<String>>>) -> Option<Seq<Seq<Seq<char>>>> {
    match parties {
        Some(p) => Some(grouping_names(p@)),
        None => None,
    }
}

/// Whether every party of a grouping is full (four members).
pub open spec fn all_full(parties: Seq<Vec<String>>) -> bool {
    forall|i: int| 0 <= i < parties.len() ==> (#[trigger] parties[i])@.len() == 4
}

/// The party grouping sent with an update of the UI, and the cache of it.
/// Without a refresh nothing is sent. On a refresh the cached grouping is
/// sent where there is one; else `fresh`, the grouping just made (see
/// `update_party`), is sent where it holds more than one party, and cached
/// too where all its parties are full.
pub fn party_info_to_send(
    refresh: bool,
    party_cache: &mut Option<Vec<Vec<String>>>,
    fresh: Option<Vec<Vec<String>>>,
) -> (r: Option<Vec<Vec<String>>>)
    ensures
        !refresh ==> r is None && opt_grouping(*final(party_cache)) == opt_grouping(*old(party_cache)),
        refresh && (*old(party_cache)) is Some ==> opt_grouping(r) == opt_grouping(*old(party_cache)) && opt_grouping(
            *final(party_cache),
        ) == opt_grouping(*old(party_cache)),
        refresh && (*old(party_cache)) is None ==> match fresh {
            Some(p) => if p@.len() > 1 {
                &&& opt_grouping(r) == Some(grouping_names(p@))
                &&& opt_grouping(*final(party_cache)) == (if all_full(p@) {
                    Some(grouping_names(p@))
                } else {
                    None::<Seq<Seq<Seq<char>>>>
                })
            } else {
                r is None && (*final(party_cache)) is None
            },
            None => r is None && (*final(party_cache)) is None,
        },
{
    if !refresh {
        return None;
    }
    match party_cache {
        Some(cached) => Some(copy_grouping(cached)),
        None => match fresh {
            Some(p) => {
                if p.len() > 1 {
                    if every_party_full(&p) {
                        *party_cache = Some(copy_grouping(&p));
                    }
                    Some(p)
                } else {
                    None
                }
            },
            None => None,
        },
    }
}

fn every_party_full(parties: &Vec<Vec<String>>) -> (r: bool)
    ensures
        r == all_full(parties@),
{
    let mut i: usize = 0;
    while i < parties.len()
        invariant
            i <= parties@.len(),
            forall|j: int| 0 <= j < i ==> (#[trigger] parties@[j])@.len() == 4,
        decreases parties@.len() - i,
    {
        if parties[i].len() != 4 {
            return false;
        }
        i = i + 1;
    }
    true
}

fn copy_names(names: &Vec<String>) -> (r: Vec<String>)
    ensures
        r@ == names@,
{
    let mut out: Vec<String> = Vec::new();
    let mut i: usize = 0;
    while i < names.len()
        invariant
            i <= names@.len(),
            out@ == names@.subrange(0, i as int),
        decreases names@.len() - i,
    {
        out.push(names[i].clone());
        i = i + 1;
    }
    proof {
        assert(names@.subrange(0, names@.len() as int) =~= names@);
    }
    out
}

fn copy_grouping(parties: &Vec<Vec<String>>) -> (r: Vec<Vec<String>>)
    ensures
        grouping_names(r@) == grouping_names(parties@),
{
    let mut out: Vec<Vec<String>> = Vec::new();
    let mut i: usize = 0;
    while i < parties.len()
        invariant
            i <= parties@.len(),
            out@.len() == i,
            forall|j: int| 0 <= j < i ==> (#[trigger] out@[j])@ == parties@[j]@,
        decreases parties@.len() - i,
    {
        out.push(copy_names(&parties[i]));
        i = i + 1;
    }
    proof {
        assert(grouping_names(out@) =~= grouping_names(parties@));
    }
    out
}

/// Whether a damage packet is ignored: it comes within ten seconds of the
/// end of a raid. `since_raid_end_ms` is the time since the last raid ended,
/// `None` where none has.
pub fn damage_ignored(since_raid_end_ms: Option<u64>) -> (r: bool)
    ensures
        r == (since_raid_end_ms matches Some(elapsed) && elapsed < DAMAGE_IGNORE_AFTER_END_MS),
{
    match since_raid_end_ms {
        Some(elapsed) => elapsed < DAMAGE_IGNORE_AFTER_END_MS,
        None => false,
    }
}

/// Whether a zone load keeps the raid difficulty already known: one is known
/// and its id is at least the zone's id.
pub fn keeps_raid_difficulty(raid_difficulty_id: u32, zone_id: u32, raid_difficulty: &str) -> (r: bool)
    ensures
        r == (raid_difficulty_id >= zone_id && raid_difficulty@.len() > 0),
{
    raid_difficulty_id >= zone_id && raid_difficulty.unicode_len() > 0
}

/// Whether the start of a boss battle resets the encounter: no boss is
/// current, the fight has not started, or the boss is Saydon (who appears
/// before the battle starts).
pub fn resets_on_boss_battle(current_boss_name: &str, fight_start: i64) -> (r: bool)
    ensures
        r == (current_boss_name@.len() == 0 || fight_start == 0 || current_boss_name@ == "Saydon"@),
{
    current_boss_name.unicode_len() == 0 || fight_start == 0 || str_eq(current_boss_name, "Saydon")
}

/// Whether the entity `entity_id` is listed in a party grouping: a known
/// entity with a character id, a class and a name that starts with an
/// uppercase letter.
pub open spec fn listed_member(entities: Map<u64, Entity>, entity_id: u64) -> bool {
    &&& entities.contains_key(entity_id)
    &&& entities[entity_id].character_id > 0
    &&& entities[entity_id].class_id > 0
    &&& entities[entity_id].name@.len() > 0
    &&& is_uppercase_char(entities[entity_id].name@[0])
}

/// The names of the listed members of party `party_id`, in the order of
/// `assignments` (pairs of entity id and party id).
pub open spec fn party_members(assignments: Seq<(u64, u32)>, entities: Map<u64, Entity>, party_id: u32) -> Seq<Seq<char>>
    decreases assignments.len(),
{
    if assignments.len() == 0 {
        Seq::empty()
    } else {
        let rest = party_members(assignments.drop_last(), entities, party_id);
        let (entity_id, party) = assignments.last();
        if party == party_id && listed_member(entities, entity_id) {
            rest.push(entities[entity_id].name@)
        } else {
            rest
        }
    }
}

/// Whether `ids` rises strictly.
pub open spec fn strictly_rising(ids: Seq<u32>) -> bool {
    forall|i: int, j: int| 0 <= i < j < ids.len() ==> ids[i] < ids[j]
}

/// Whether some assignment puts an entity in party `party_id`.
pub open spec fn has_party(assignments: Seq<(u64, u32)>, party_id: u32) -> bool {
    exists|i: int| 0 <= i < assignments.len() && (#[trigger] assignments[i]).1 == party_id
}

/// The names of a grouping, party by party.
pub open spec fn grouping_names(parties: Seq<Vec<String>>) -> Seq<Seq<Seq<char>>> {
    parties.map_values(|p: Vec<String>| p@.map_values(|n: String| n@))
}

/// The parties of `assignments` (pairs of entity id and party id, as the
/// party tracker holds them) by rising party id, each as the names of its
/// members that `entities` knows as players with a character id, a class and
/// a name that starts with an uppercase letter. A party none of whose members
/// is listed is an empty list.
pub fn update_party(
    assignments: &Vec<(u64, u32)>,
    entities: &EntityTable,
) -> (r: Vec<Vec<String>>)
    ensures
        exists|ids: Seq<u32>|
            {
                &&& strictly_rising(ids)
                &&& ids.len() == r@.len()
                &&& forall|p: u32| has_party(assignments@, p) <==> ids.contains(p)
                &&& forall|i: int|
                    0 <= i < ids.len() ==> #[trigger] grouping_names(r@)[i] == party_members(
                        assignments@,
                        entities@,
                        ids[i],
                    )
            },
{
    let mut ids: Vec<u32> = Vec::new();
    let mut groups: Vec<Vec<String>> = Vec::new();
    let mut n: usize = 0;
    while n < assignments.len()
        invariant
            n <= assignments@.len(),
            strictly_rising(ids@),
            ids@.len() == groups@.len(),
            forall|p: u32| has_party(assignments@.subrange(0, n as int), p) <==> ids@.contains(p),
            forall|i: int|
                0 <= i < ids@.len() ==> #[trigger] grouping_names(groups@)[i] == party_members(
                    assignments@.subrange(0, n as int),
                    entities@,
                    ids@[i],
                ),
        decreases assignments@.len() - n,
    {
        let (entity_id, party_id) = assignments[n];
        let ghost prev = assignments@.subrange(0, n as int);
        let ghost next = assignments@.subrange(0, n as int + 1);
        proof {
            assert(next.drop_last() =~= prev);
            assert(next.last() == (entity_id, party_id));
            assert forall|p: u32| has_party(next, p) <==> (has_party(prev, p) || p == party_id) by {
                if has_party(next, p) {
                    let i = choose|i: int| 0 <= i < next.len() && (#[trigger] next[i]).1 == p;
                    if i < n {
                        assert(prev[i] == next[i]);
                    }
                }
                if has_party(prev, p) {
                    let i = choose|i: int| 0 <= i < prev.len() && (#[trigger] prev[i]).1 == p;
                    assert(next[i] == prev[i]);
                }
                if p == party_id {
                    assert(next[n as int].1 == p);
                }
            }
        }
        let member: Option<String> = match entities.get(&entity_id) {
            Some(e) => {
                if e.character_id > 0 && e.class_id > 0 && starts_uppercase(e.name.as_str()) {
                    Some(e.name.clone())
                } else {
                    None
                }
            },
            None => None,
        };
        let pos = party_slot(&ids, party_id);
        if pos < ids.len() && ids[pos] == party_id {
            let ghost before = groups@;
            let mut g = groups.remove(pos);
            let ghost old_g = g@;
            proof {
                assert(old_g == before[pos as int]@);
                assert(grouping_names(before)[pos as int] == party_members(prev, entities@, party_id));
                assert(old_g.map_values(|n: String| n@) == party_members(prev, entities@, party_id));
            }
            if let Some(name) = member {
                g.push(name);
            }
            proof {
                if listed_member(entities@, entity_id) {
                    assert(g@ == old_g.push(entities@[entity_id].name));
                    assert(g@.map_values(|n: String| n@) =~= old_g.map_values(|n: String| n@).push(entities@[entity_id].name@));
                } else {
                    assert(g@ == old_g);
                }
                assert(g@.map_values(|n: String| n@) == party_members(next, entities@, party_id));
            }
            groups.insert(pos, g);
            proof {
                assert forall|i: int| 0 <= i < ids@.len() implies #[trigger] grouping_names(groups@)[i] == party_members(
                    next,
                    entities@,
                    ids@[i],
                ) by {
                    if i == pos {
                        assert(groups@[i] == g);
                    } else {
                        assert(groups@[i] == before[i]);
                        assert(grouping_names(before)[i] == party_members(prev, entities@, ids@[i]));
                    }
                }
            }
        } else {
            let ghost before_ids = ids@;
            let ghost before = groups@;
            let mut g: Vec<String> = Vec::new();
            if let Some(name) = member {
                g.push(name);
            }
            ids.insert(pos, party_id);
            groups.insert(pos, g);
            proof {
                assert(!before_ids.contains(party_id));
                lemma_no_members(prev, entities@, party_id);
                assert forall|i: int| 0 <= i < ids@.len() implies #[trigger] grouping_names(groups@)[i] == party_members(
                    next,
                    entities@,
                    ids@[i],
                ) by {
                    if i == pos {
                        assert(grouping_names(groups@)[i] =~= party_members(next, entities@, ids@[i]));
                    } else if i < pos {
                        assert(groups@[i] == before[i]);
                        assert(ids@[i] == before_ids[i]);
                        assert(grouping_names(before)[i] == party_members(prev, entities@, before_ids[i]));
                    } else {
                        assert(groups@[i] == before[i - 1]);
                        assert(ids@[i] == before_ids[i - 1]);
                        assert(grouping_names(before)[i - 1] == party_members(prev, entities@, before_ids[i - 1]));
                    }
                }
                assert forall|p: u32| has_party(next, p) <==> ids@.contains(p) by {
                    if ids@.contains(p) {
                        let j = choose|j: int| 0 <= j < ids@.len() && ids@[j] == p;
                        if j < pos {
                            assert(before_ids[j] == p);
                        } else if j > pos {
                            assert(before_ids[j - 1] == p);
                        }
                    }
                    if before_ids.contains(p) {
                        let j = choose|j: int| 0 <= j < before_ids.len() && before_ids[j] == p;
                        if j < pos {
                            assert(ids@[j] == p);
                        } else {
                            assert(ids@[j + 1] == p);
                        }
                    }
                    if p == party_id {
                        assert(ids@[pos as int] == p);
                    }
                }
            }
        }
        n = n + 1;
    }
    proof {
        assert(assignments@.subrange(0, assignments@.len() as int) =~= assignments@);
    }
    groups
}

/// No member of a party that no assignment names.
proof fn lemma_no_members(assignments: Seq<(u64, u32)>, entities: Map<u64, Entity>, party_id: u32)
    requires
        !has_party(assignments, party_id),
    ensures
        party_members(assignments, entities, party_id) == Seq::<Seq<char>>::empty(),
    decreases assignments.len(),
{
    if assignments.len() > 0 {
        let rest = assignments.drop_last();
        assert(!has_party(rest, party_id)) by {
            if has_party(rest, party_id) {
                let i = choose|i: int| 0 <= i < rest.len() && (#[trigger] rest[i]).1 == party_id;
                assert(assignments[i] == rest[i]);
            }
        }
        assert(assignments[assignments.len() - 1].1 != party_id);
        lemma_no_members(rest, entities, party_id);
    }
}

/// Where `party_id` stands, or would be inserted, in the rising list `ids`.
fn party_slot(ids: &Vec<u32>, party_id: u32) -> (r: usize)
    requires
        strictly_rising(ids@),
    ensures
        r <= ids@.len(),
        forall|i: int| 0 <= i < r ==> ids@[i] < party_id,
        forall|i: int| r < i < ids@.len() ==> party_id < ids@[i],
        r < ids@.len() ==> party_id <= ids@[r as int],
{
    let mut i: usize = 0;
    while i < ids.len() && ids[i] < party_id
        invariant
            i <= ids@.len(),
            strictly_rising(ids@),
            forall|j: int| 0 <= j < i ==> ids@[j] < party_id,
        decreases ids@.len() - i,
    {
        i = i + 1;
    }
    i
}

/// Whether `name` starts with an uppercase letter.
fn starts_uppercase(name: &str) -> (r: bool)
    ensures
        r == (name@.len() > 0 && is_uppercase_char(name@[0])),
{
    match first_char(name) {
        Some(c) => char_is_uppercase(c),
        None => false,
    }
}

/// How much of a shield a sync used: what it held before less what it
/// holds now, or nothing where it grew.
pub fn shield_change(old_value: u64, new_value: u64) -> (r: u64)
    ensures
        r == (if new_value <= old_value {
            old_value - new_value
        } else {
            0
        }),
{
    match old_value.checked_sub(new_value) {
        Some(change) => change,
        None => 0,
    }
}

/// The entity a shield is on: a party effect names a character, which the
/// id tracker maps to its entity (`party_entity_id`, zero where unknown); a
/// local effect names the entity itself.
pub fn shield_target_id(target_type: StatusEffectTargetType, target_id: u64, party_entity_id: Option<u64>) -> (r: u64)
    ensures
        r == match target_type {
            StatusEffectTargetType::Party => match party_entity_id {
                Some(id) => id,
                None => 0,
            },
            StatusEffectTargetType::Local => target_id,
        },
{
    match target_type {
        StatusEffectTargetType::Party => match party_entity_id {
            Some(id) => id,
            None => 0,
        },
        StatusEffectTargetType::Local => target_id,
    }
}

/// What the loop keeps of the party grouping between packets: whether it is
/// frozen (from the end of a raid until the encounter resets) and the last
/// grouping of full parties.
pub struct PartyState {
    pub freeze: bool,
    pub cache: Option<Vec<Vec<String>>>,
}

impl PartyState {
    /// Nothing frozen and nothing cached, as at the start of the loop.
    pub fn new() -> (r: Self)
        ensures
            !r.freeze && r.cache is None,
    {
        PartyState { freeze: false, cache: None }
    }

    /// The end of a raid (its result, a clear or a wipe): the grouping
    /// freezes, and the cached grouping, if any, is handed out for the
    /// encounter (the caller makes a fresh one where there is none).
    pub fn raid_ended(&mut self) -> (r: Option<Vec<Vec<String>>>)
        ensures
            final(self).freeze,
            final(self).cache is None,
            opt_grouping(r) == opt_grouping(old(self).cache),
    {
        self.freeze = true;
        let taken = match &self.cache {
            Some(c) => Some(copy_grouping(c)),
            None => None,
        };
        self.cache = None;
        taken
    }

    /// The party makeup changed (a new zone, party info, someone left): the
    /// cached grouping is dropped.
    pub fn party_changed(&mut self)
        ensures
            final(self).freeze == old(self).freeze,
            final(self).cache is None,
    {
        self.cache = None;
    }

    /// The encounter reset at the end of a loop iteration: the grouping thaws
    /// and the cache is dropped.
    pub fn reset(&mut self)
        ensures
            !final(self).freeze,
            final(self).cache is None,
    {
        self.freeze = false;
        self.cache = None;
    }
}

} // verus!
