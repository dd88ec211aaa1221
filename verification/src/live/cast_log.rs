//! The cast log: the tracked casts grouped by entity, then skill, then start.
use crate::live::skill_tracker::SkillTracker;
use crate::models::skill::{CastView, SkillCast};
use std::collections::{BTreeMap, HashMap};
use vstd::prelude::*;

verus! {

broadcast use {vstd::std_specs::hash::group_hash_axioms, vstd::std_specs::btree::group_btree_axioms, vstd::laws_cmp::group_laws_cmp};

/// Whether a cast log holds a cast under `k`.
pub open spec fn log_has(log: Map<u64, HashMap<u32, BTreeMap<i64, SkillCast>>>, k: (u64, u32, i64)) -> bool {
    log.contains_key(k.0) && log[k.0]@.contains_key(k.1) && log[k.0]@[k.1]@.contains_key(k.2)
}

/// The cast a cast log holds under `k`.
pub open spec fn log_at(log: Map<u64, HashMap<u32, BTreeMap<i64, SkillCast>>>, k: (u64, u32, i64)) -> CastView {
    log[k.0]@[k.1]@[k.2]@
}

/// Whether a cast log holds exactly the casts of `skills`.
pub open spec fn log_lists(log: Map<u64, HashMap<u32, BTreeMap<i64, SkillCast>>>, skills: Map<(u64, u32, i64), CastView>) -> bool {
    &&& forall|k: (u64, u32, i64)| #[trigger] skills.dom().contains(k) ==> log_has(log, k) && log_at(log, k) == skills[k]
    &&& forall|k: (u64, u32, i64)| #[trigger] log_has(log, k) ==> skills.dom().contains(k)
    &&& forall|e: u64| #[trigger] log.contains_key(e) ==> exists|s: u32, t: i64| #[trigger] log_has(log, (e, s, t))
}

impl SkillTracker {
    /// The tracked casts grouped by entity, then skill, then start time.
    pub fn get_cast_log(&mut self) -> (r: HashMap<u64, HashMap<u32, BTreeMap<i64, SkillCast>>>)
        ensures
            *final(self) == *old(self),
            log_lists(r@, old(self).skills.contents()),
    {
        let keys = self.skills.keys();
        let ghost skills = self.skills.contents();
        let mut log: HashMap<u64, HashMap<u32, BTreeMap<i64, SkillCast>>> = HashMap::new();
        let mut i: usize = 0;
        while i < keys.len()
            invariant
                i <= keys@.len(),
                skills == self.skills.contents(),
                *self == *old(self),
                forall|a: int| 0 <= a < keys@.len() ==> #[trigger] skills.dom().contains(keys@[a]),
                forall|a: int, b: int| 0 <= a < b < keys@.len() ==> #[trigger] keys@[a] != #[trigger] keys@[b],
                forall|a: int| 0 <= a < i ==> log_has(log@, #[trigger] keys@[a]) && log_at(log@, keys@[a]) == skills[keys@[a]],
                forall|k: (u64, u32, i64)| #[trigger] log_has(log@, k) ==> exists|a: int| 0 <= a < i && keys@[a] == k,
                forall|e: u64| #[trigger] log@.contains_key(e) ==> exists|s: u32, t: i64| #[trigger] log_has(log@, (e, s, t)),
            decreases keys@.len() - i,
        {
            let k = keys[i];
            let cast = match self.skills.get(&k) {
                Some(c) => c,
                None => {
                    proof {
                        assert(skills.dom().contains(keys@[i as int]));
                    }
                    return log;
                },
            };
            let ghost log0 = log@;
            let mut per_entity: HashMap<u32, BTreeMap<i64, SkillCast>> = match log.remove(&k.0) {
                Some(m) => m,
                None => HashMap::new(),
            };
            let ghost pe0 = per_entity@;
            let mut per_skill: BTreeMap<i64, SkillCast> = match per_entity.remove(&k.1) {
                Some(b) => b,
                None => BTreeMap::new(),
            };
            let ghost ps0 = per_skill@;
            per_skill.insert(k.2, cast);
            per_entity.insert(k.1, per_skill);
            log.insert(k.0, per_entity);
            proof {
                assert(!log_has(log0, k)) by {
                    if log_has(log0, k) {
                        let a = choose|a: int| 0 <= a < i && keys@[a] == k;
                        assert(keys@[a] != keys@[i as int]);
                    }
                }
                assert forall|kk: (u64, u32, i64)| #[trigger] log_has(log@, kk) == (log_has(log0, kk) || kk == k) by {}
                assert forall|kk: (u64, u32, i64)| kk != k && log_has(log0, kk) implies log_at(log@, kk) == log_at(log0, kk) by {}
                assert forall|a: int| 0 <= a < i + 1 implies log_has(log@, #[trigger] keys@[a]) && log_at(log@, keys@[a]) == skills[keys@[a]] by {
                    if a < i {
                        assert(keys@[a] != keys@[i as int]);
                    }
                }
                assert forall|kk: (u64, u32, i64)| #[trigger] log_has(log@, kk) implies exists|a: int| 0 <= a < i + 1 && keys@[a] == kk by {
                    if kk == k {
                        assert(keys@[i as int] == kk);
                    } else {
                        let a = choose|a: int| 0 <= a < i && keys@[a] == kk;
                    }
                }
                assert forall|e: u64| #[trigger] log@.contains_key(e) implies exists|s: u32, t: i64| #[trigger] log_has(log@, (e, s, t)) by {
                    if e == k.0 {
                        assert(log_has(log@, (k.0, k.1, k.2)));
                    } else {
                        assert(log0.contains_key(e));
                        let (s, t) = choose|s: u32, t: i64| #[trigger] log_has(log0, (e, s, t));
                        assert(log_has(log@, (e, s, t)));
                    }
                }
            }
            i = i + 1;
        }
        proof {
            assert forall|k: (u64, u32, i64)| #[trigger] skills.dom().contains(k) implies log_has(log@, k) && log_at(log@, k) == skills[k] by {
                assert(keys@.contains(k));
                let a = choose|a: int| 0 <= a < keys@.len() && keys@[a] == k;
                assert(log_has(log@, keys@[a]));
            }
            assert forall|k: (u64, u32, i64)| #[trigger] log_has(log@, k) implies skills.dom().contains(k) by {
                let a = choose|a: int| 0 <= a < keys@.len() && keys@[a] == k;
            }
        }
        log
    }
}

} // verus!
