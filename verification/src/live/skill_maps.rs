//! The skill tracker's collections: casts in a hashbrown map, and the recent
//! cast times in moka caches whose entries expire after twenty seconds idle.
//!
//! Each collection sits in a private field of a struct whose body Verus does
//! not see; a name gives its contents, and each method makes one call into the
//! outside crate under a contract over that name.
use crate::models::skill::{CastView, SkillCast};
use vstd::prelude::*;

verus! {

/// Casts keyed by entity id, skill id and start time.
#[verifier::external_body]
pub struct SkillCasts {
    map: hashbrown::HashMap<(u64, u32, i64), SkillCast>,
}

/// What a `SkillCasts` holds.
pub uninterp spec fn skill_casts_contents(c: SkillCasts) -> Map<(u64, u32, i64), CastView>;

impl SkillCasts {
    pub open spec fn contents(&self) -> Map<(u64, u32, i64), CastView> {
        skill_casts_contents(*self)
    }

    /// No casts (`hashbrown::HashMap::new`).
    #[verifier::external_body]
    pub fn new() -> (r: Self)
        ensures
            skill_casts_contents(r).dom().is_empty(),
    {
        SkillCasts { map: hashbrown::HashMap::new() }
    }

    /// A clone of the cast under `key` (`HashMap::get`).
    #[verifier::external_body]
    pub fn get(&self, key: &(u64, u32, i64)) -> (r: Option<SkillCast>)
        ensures
            r is Some == skill_casts_contents(*self).dom().contains(*key),
            r matches Some(c) ==> c@ == skill_casts_contents(*self)[*key],
    {
        self.map.get(key).cloned()
    }

    /// Whether a cast is stored under `key` (`HashMap::contains_key`).
    #[verifier::external_body]
    pub fn contains_key(&self, key: &(u64, u32, i64)) -> (r: bool)
        ensures
            r == skill_casts_contents(*self).dom().contains(*key),
    {
        self.map.contains_key(key)
    }

    /// Stores `cast` under `key` (`HashMap::insert`).
    #[verifier::external_body]
    pub fn insert(&mut self, key: (u64, u32, i64), cast: SkillCast)
        ensures
            skill_casts_contents(*final(self)) == skill_casts_contents(*old(self)).insert(key, cast@),
    {
        self.map.insert(key, cast);
    }

    /// Removes and hands out the cast under `key` (`HashMap::remove`).
    #[verifier::external_body]
    pub fn remove(&mut self, key: &(u64, u32, i64)) -> (r: Option<SkillCast>)
        ensures
            r is Some == skill_casts_contents(*old(self)).dom().contains(*key),
            r matches Some(c) ==> c@ == skill_casts_contents(*old(self))[*key],
            skill_casts_contents(*final(self)) == skill_casts_contents(*old(self)).remove(*key),
    {
        self.map.remove(key)
    }

    /// The keys of all casts, each once (`HashMap::keys`).
    #[verifier::external_body]
    pub fn keys(&self) -> (r: Vec<(u64, u32, i64)>)
        ensures
            forall|i: int| 0 <= i < r@.len() ==> #[trigger] skill_casts_contents(*self).dom().contains(r@[i]),
            forall|i: int, j: int| 0 <= i < j < r@.len() ==> #[trigger] r@[i] != #[trigger] r@[j],
            forall|k: (u64, u32, i64)| #[trigger] skill_casts_contents(*self).dom().contains(k) ==> r@.contains(k),
    {
        self.map.keys().copied().collect()
    }
}

/// The start time of the latest cast of each projectile, for twenty seconds
/// after its last read.
#[verifier::external_body]
pub struct ProjectileTimestamps {
    cache: moka::sync::Cache<u64, i64>,
}

/// The entries written to a `ProjectileTimestamps` and not discarded; a read
/// finds one of them or nothing, since an entry expires after twenty seconds
/// idle.
pub uninterp spec fn projectile_timestamps_contents(c: ProjectileTimestamps) -> Map<u64, i64>;

impl ProjectileTimestamps {
    pub open spec fn contents(&self) -> Map<u64, i64> {
        projectile_timestamps_contents(*self)
    }

    /// An empty cache whose entries expire after twenty seconds idle
    /// (`Cache::builder().time_to_idle(..).build()`).
    #[verifier::external_body]
    pub fn new() -> (r: Self)
        ensures
            projectile_timestamps_contents(r).dom().is_empty(),
    {
        ProjectileTimestamps {
            cache: moka::sync::Cache::builder().time_to_idle(std::time::Duration::from_secs(20)).build(),
        }
    }

    /// The value cached for `key`, unless it expired (`Cache::get`).
    #[verifier::external_body]
    pub fn get(&self, key: &u64) -> (r: Option<i64>)
        ensures
            r matches Some(t) ==> projectile_timestamps_contents(*self).dom().contains(*key)
                && projectile_timestamps_contents(*self)[*key] == t,
    {
        self.cache.get(key)
    }

    /// Caches `value` for `key` (`Cache::insert`).
    #[verifier::external_body]
    pub fn insert(&mut self, key: u64, value: i64)
        ensures
            projectile_timestamps_contents(*final(self)) == projectile_timestamps_contents(*old(self)).insert(key, value),
    {
        self.cache.insert(key, value);
    }
}

/// The start time of the latest cast of each skill by each entity, for
/// twenty seconds after its last read.
#[verifier::external_body]
pub struct SkillTimestamps {
    cache: moka::sync::Cache<(u64, u32), i64>,
}

/// The entries written to a `SkillTimestamps` and not discarded; a read finds
/// one of them or nothing, since an entry expires after twenty seconds idle.
pub uninterp spec fn skill_timestamps_contents(c: SkillTimestamps) -> Map<(u64, u32), i64>;

impl SkillTimestamps {
    pub open spec fn contents(&self) -> Map<(u64, u32), i64> {
        skill_timestamps_contents(*self)
    }

    /// An empty cache whose entries expire after twenty seconds idle
    /// (`Cache::builder().time_to_idle(..).build()`).
    #[verifier::external_body]
    pub fn new() -> (r: Self)
        ensures
            skill_timestamps_contents(r).dom().is_empty(),
    {
        SkillTimestamps { cache: moka::sync::Cache::builder().time_to_idle(std::time::Duration::from_secs(20)).build() }
    }

    /// The value cached for `key`, unless it expired (`Cache::get`).
    #[verifier::external_body]
    pub fn get(&self, key: &(u64, u32)) -> (r: Option<i64>)
        ensures
            r matches Some(t) ==> skill_timestamps_contents(*self).dom().contains(*key) && skill_timestamps_contents(*self)[*key]
                == t,
    {
        self.cache.get(key)
    }

    /// Caches `value` for `key` (`Cache::insert`).
    #[verifier::external_body]
    pub fn insert(&mut self, key: (u64, u32), value: i64)
        ensures
            skill_timestamps_contents(*final(self)) == skill_timestamps_contents(*old(self)).insert(key, value),
    {
        self.cache.insert(key, value);
    }

    /// Discards the value cached for `key` (`Cache::invalidate`).
    #[verifier::external_body]
    pub fn invalidate(&mut self, key: &(u64, u32))
        ensures
            skill_timestamps_contents(*final(self)) == skill_timestamps_contents(*old(self)).remove(*key),
    {
        self.cache.invalidate(key);
    }
}

} // verus!
