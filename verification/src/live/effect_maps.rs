//! The status tracker's hash maps and sets, held in hashbrown collections.
//!
//! Each collection sits in a private field of a struct whose body Verus does
//! not see; a name gives its contents, and each method makes one hashbrown
//! call (with the conversion of its argument or result) under a contract over
//! that name. Methods that hand entries out clone them.
use crate::live::status_tracker::{StatType, StatusEffectDetails};
use vstd::prelude::*;

verus! {

/// Whether `v` lists the entries of `m`, each key once, in some order.
pub open spec fn lists_entries<K, V>(v: Seq<(K, V)>, m: Map<K, V>) -> bool {
    &&& forall|i: int| 0 <= i < v.len() ==> #[trigger] m.dom().contains(v[i].0) && m[v[i].0] == v[i].1
    &&& forall|i: int, j: int| 0 <= i < j < v.len() ==> #[trigger] v[i].0 != #[trigger] v[j].0
    &&& forall|k: K| #[trigger] m.dom().contains(k) ==> exists|i: int| 0 <= i < v.len() && #[trigger] v[i].0 == k
}

/// Whether `v` lists the keys of `m`, each once, in some order.
pub open spec fn lists_keys<K, V>(v: Seq<K>, m: Map<K, V>) -> bool {
    &&& forall|i: int| 0 <= i < v.len() ==> #[trigger] m.dom().contains(v[i])
    &&& forall|i: int, j: int| 0 <= i < j < v.len() ==> #[trigger] v[i] != #[trigger] v[j]
    &&& forall|k: K| #[trigger] m.dom().contains(k) ==> exists|i: int| 0 <= i < v.len() && #[trigger] v[i] == k
}

/// Status effect instances by target id, then by instance id.
#[verifier::external_body]
pub struct EffectRegistry {
    map: hashbrown::HashMap<u64, hashbrown::HashMap<u32, StatusEffectDetails>>,
}

/// What an `EffectRegistry` holds: for each target present, its instances.
pub uninterp spec fn effect_registry_contents(r: EffectRegistry) -> Map<u64, Map<u32, StatusEffectDetails>>;

/// The instances that a registry holds on `target`, empty when the target is absent.
pub open spec fn effects_on(m: Map<u64, Map<u32, StatusEffectDetails>>, target: u64) -> Map<u32, StatusEffectDetails> {
    if m.dom().contains(target) {
        m[target]
    } else {
        Map::empty()
    }
}

impl EffectRegistry {
    pub open spec fn contents(&self) -> Map<u64, Map<u32, StatusEffectDetails>> {
        effect_registry_contents(*self)
    }

    /// An empty registry (`hashbrown::HashMap::new`).
    #[verifier::external_body]
    pub(crate) fn new() -> (r: Self)
        ensures
            effect_registry_contents(r).dom().is_empty(),
    {
        EffectRegistry { map: hashbrown::HashMap::new() }
    }

    /// A clone of the instance `instance` on `target` (`HashMap::get` on both levels).
    #[verifier::external_body]
    pub(crate) fn get_effect(&self, target: u64, instance: u32) -> (r: Option<StatusEffectDetails>)
        ensures
            r == (if effects_on(effect_registry_contents(*self), target).dom().contains(instance) {
                Some(effects_on(effect_registry_contents(*self), target)[instance])
            } else {
                None
            }),
    {
        self.map.get(&target).and_then(|effects| effects.get(&instance)).cloned()
    }

    /// Whether `target` has an entry, possibly empty (`HashMap::contains_key`).
    #[verifier::external_body]
    pub(crate) fn contains_target(&self, target: u64) -> (r: bool)
        ensures
            r == effect_registry_contents(*self).dom().contains(target),
    {
        self.map.contains_key(&target)
    }

    /// Stores `effect` as instance `instance` on `target`, creating the target's
    /// entry when absent (`entry(..).or_default()` then `HashMap::insert`).
    #[verifier::external_body]
    pub(crate) fn insert_effect(&mut self, target: u64, instance: u32, effect: StatusEffectDetails)
        ensures
            effect_registry_contents(*final(self)) == effect_registry_contents(*old(self)).insert(
                target,
                effects_on(effect_registry_contents(*old(self)), target).insert(instance, effect),
            ),
    {
        self.map.entry(target).or_default().insert(instance, effect);
    }

    /// Removes instance `instance` from `target`, keeping the target's entry
    /// (`get_mut` then `HashMap::remove`).
    #[verifier::external_body]
    pub(crate) fn remove_effect(&mut self, target: u64, instance: u32) -> (r: Option<StatusEffectDetails>)
        ensures
            r == (if effects_on(effect_registry_contents(*old(self)), target).dom().contains(instance) {
                Some(effects_on(effect_registry_contents(*old(self)), target)[instance])
            } else {
                None
            }),
            effect_registry_contents(*final(self)) == (if effect_registry_contents(*old(self)).dom().contains(target) {
                effect_registry_contents(*old(self)).insert(target, effect_registry_contents(*old(self))[target].remove(instance))
            } else {
                effect_registry_contents(*old(self))
            }),
    {
        self.map.get_mut(&target).and_then(|effects| effects.remove(&instance))
    }

    /// Removes `target`'s entry and hands out its instances (`HashMap::remove`).
    #[verifier::external_body]
    pub(crate) fn remove_target(&mut self, target: u64) -> (r: Option<Vec<(u32, StatusEffectDetails)>>)
        ensures
            r is Some == effect_registry_contents(*old(self)).dom().contains(target),
            r is Some ==> lists_entries(r->0@, effect_registry_contents(*old(self))[target]),
            effect_registry_contents(*final(self)) == effect_registry_contents(*old(self)).remove(target),
    {
        self.map.remove(&target).map(|effects| effects.into_iter().collect())
    }

    /// The targets that have an entry (`HashMap::keys`).
    #[verifier::external_body]
    pub(crate) fn targets(&self) -> (r: Vec<u64>)
        ensures
            lists_keys(r@, effect_registry_contents(*self)),
    {
        self.map.keys().copied().collect()
    }

    /// Clones of the instances on `target` (`HashMap::get`, then `HashMap::iter`).
    #[verifier::external_body]
    pub(crate) fn effects_of(&self, target: u64) -> (r: Vec<(u32, StatusEffectDetails)>)
        ensures
            lists_entries(r@, effects_on(effect_registry_contents(*self), target)),
    {
        self.map
            .get(&target)
            .map(|effects| effects.iter().map(|(id, effect)| (*id, effect.clone())).collect())
            .unwrap_or_default()
    }

    /// Removes every target (`HashMap::clear`).
    #[verifier::external_body]
    pub(crate) fn clear(&mut self)
        ensures
            effect_registry_contents(*final(self)).dom().is_empty(),
    {
        self.map.clear();
    }
}

/// Instances dropped by a zone or object reset, kept by instance id.
#[verifier::external_body]
pub struct RetainedEffects {
    map: hashbrown::HashMap<u32, StatusEffectDetails>,
}

/// What a `RetainedEffects` holds.
pub uninterp spec fn retained_effects_contents(r: RetainedEffects) -> Map<u32, StatusEffectDetails>;

impl RetainedEffects {
    pub open spec fn contents(&self) -> Map<u32, StatusEffectDetails> {
        retained_effects_contents(*self)
    }

    /// An empty collection (`hashbrown::HashMap::new`).
    #[verifier::external_body]
    pub(crate) fn new() -> (r: Self)
        ensures
            retained_effects_contents(r).dom().is_empty(),
    {
        RetainedEffects { map: hashbrown::HashMap::new() }
    }

    /// A clone of the entry for `instance` (`HashMap::get`).
    #[verifier::external_body]
    pub(crate) fn get(&self, instance: u32) -> (r: Option<StatusEffectDetails>)
        ensures
            r == (if retained_effects_contents(*self).dom().contains(instance) {
                Some(retained_effects_contents(*self)[instance])
            } else {
                None
            }),
    {
        self.map.get(&instance).cloned()
    }

    /// Stores `effect` for `instance` (`HashMap::insert`).
    #[verifier::external_body]
    pub(crate) fn insert(&mut self, instance: u32, effect: StatusEffectDetails)
        ensures
            retained_effects_contents(*final(self)) == retained_effects_contents(*old(self)).insert(instance, effect),
    {
        self.map.insert(instance, effect);
    }

    /// Removes the entry for `instance` (`HashMap::remove`).
    #[verifier::external_body]
    pub(crate) fn remove(&mut self, instance: u32) -> (r: Option<StatusEffectDetails>)
        ensures
            r == (if retained_effects_contents(*old(self)).dom().contains(instance) {
                Some(retained_effects_contents(*old(self))[instance])
            } else {
                None
            }),
            retained_effects_contents(*final(self)) == retained_effects_contents(*old(self)).remove(instance),
    {
        self.map.remove(&instance)
    }

    /// Clones of all entries (`HashMap::iter`).
    #[verifier::external_body]
    pub(crate) fn entries(&self) -> (r: Vec<(u32, StatusEffectDetails)>)
        ensures
            lists_entries(r@, retained_effects_contents(*self)),
    {
        self.map.iter().map(|(id, effect)| (*id, effect.clone())).collect()
    }
}

/// A set of object ids.
#[verifier::external_body]
pub struct ObjectIdSet {
    set: hashbrown::HashSet<u64>,
}

/// What an `ObjectIdSet` holds.
pub uninterp spec fn object_id_set_contents(s: ObjectIdSet) -> Set<u64>;

impl ObjectIdSet {
    pub open spec fn contents(&self) -> Set<u64> {
        object_id_set_contents(*self)
    }

    /// An empty set (`hashbrown::HashSet::new`).
    #[verifier::external_body]
    pub(crate) fn new() -> (r: Self)
        ensures
            object_id_set_contents(r).is_empty(),
    {
        ObjectIdSet { set: hashbrown::HashSet::new() }
    }

    /// Adds `id` (`HashSet::insert`).
    #[verifier::external_body]
    pub(crate) fn insert(&mut self, id: u64)
        ensures
            object_id_set_contents(*final(self)) == object_id_set_contents(*old(self)).insert(id),
    {
        self.set.insert(id);
    }

    /// Whether `id` is in the set (`HashSet::contains`).
    #[verifier::external_body]
    pub(crate) fn contains(&self, id: u64) -> (r: bool)
        ensures
            r == object_id_set_contents(*self).contains(id),
    {
        self.set.contains(&id)
    }

    /// Removes every id (`HashSet::clear`).
    #[verifier::external_body]
    pub(crate) fn clear(&mut self)
        ensures
            object_id_set_contents(*final(self)).is_empty(),
    {
        self.set.clear();
    }
}

/// Instants keyed by a target id and a stat type.
#[verifier::external_body]
pub struct StatSourceChanges {
    map: hashbrown::HashMap<(u64, StatType), i128>,
}

/// What a `StatSourceChanges` holds.
pub uninterp spec fn stat_source_changes_contents(c: StatSourceChanges) -> Map<(u64, StatType), i128>;

impl StatSourceChanges {
    pub open spec fn contents(&self) -> Map<(u64, StatType), i128> {
        stat_source_changes_contents(*self)
    }

    /// An empty map (`hashbrown::HashMap::new`).
    #[verifier::external_body]
    pub(crate) fn new() -> (r: Self)
        ensures
            stat_source_changes_contents(r).dom().is_empty(),
    {
        StatSourceChanges { map: hashbrown::HashMap::new() }
    }

    /// The instant stored for `key` (`HashMap::get`).
    #[verifier::external_body]
    pub(crate) fn get(&self, target: u64, stat_type: StatType) -> (r: Option<i128>)
        ensures
            r == (if stat_source_changes_contents(*self).dom().contains((target, stat_type)) {
                Some(stat_source_changes_contents(*self)[(target, stat_type)])
            } else {
                None
            }),
    {
        self.map.get(&(target, stat_type)).copied()
    }

    /// Stores `at` for the key (`HashMap::insert`).
    #[verifier::external_body]
    pub(crate) fn insert(&mut self, target: u64, stat_type: StatType, at: i128)
        ensures
            stat_source_changes_contents(*final(self)) == stat_source_changes_contents(*old(self)).insert((target, stat_type), at),
    {
        self.map.insert((target, stat_type), at);
    }

    /// Removes every entry (`HashMap::clear`).
    #[verifier::external_body]
    pub(crate) fn clear(&mut self)
        ensures
            stat_source_changes_contents(*final(self)).dom().is_empty(),
    {
        self.map.clear();
    }
}

} // verus!
