//! Casts of skills and the hits that belong to them.
//!
//! A cast is keyed by the caster's entity id, the skill id and its start time
//! relative to the fight start. A hit joins the cast whose start time the
//! caches remember for the projectile, the skill, or a summon source of the
//! skill; those memories expire after twenty seconds idle, so the functions
//! that read them state what holds whichever way a read comes out.
use crate::live::skill_maps::{ProjectileTimestamps, SkillCasts, SkillTimestamps};
use crate::models::skill::{CastEvent, CastView, SkillCast, SkillHit, SkillHitView};
use crate::models::tables::SkillCooldowns;
use vstd::prelude::*;
use vstd::seq_lib::*;

verus! {

broadcast use vstd::seq_lib::group_to_multiset_ensures;

/// A cast with no hits yet, started at `relative`.
pub open spec fn fresh_cast(relative: i64) -> CastView {
    CastView { hits: seq![], timestamp: relative, last: relative }
}

/// The casts after a cast of `skill_id` by `entity_id` at `relative`: a cast
/// already recorded under that key keeps its hits.
pub open spec fn spec_new_cast(skills: Map<(u64, u32, i64), CastView>, entity_id: u64, skill_id: u32, relative: i64) -> Map<
    (u64, u32, i64),
    CastView,
> {
    if skills.dom().contains((entity_id, skill_id, relative)) {
        skills
    } else {
        skills.insert((entity_id, skill_id, relative), fresh_cast(relative))
    }
}

/// The casts after `hit` joined the cast of `skill_id` by `entity_id` that
/// started at `start`; a negative start means no cast is known and the hit is
/// dropped. A hit of an unrecorded cast records it.
pub open spec fn spec_record_hit(
    skills: Map<(u64, u32, i64), CastView>,
    entity_id: u64,
    skill_id: u32,
    start: i64,
    hit: SkillHitView,
) -> Map<(u64, u32, i64), CastView> {
    let key = (entity_id, skill_id, start);
    if start < 0 {
        skills
    } else if skills.dom().contains(key) {
        skills.insert(key, CastView { hits: skills[key].hits.push(hit), last: hit.timestamp, ..skills[key] })
    } else {
        skills.insert(key, CastView { hits: seq![hit], timestamp: start, last: hit.timestamp })
    }
}

/// Whether `read`, what a read of `key` gave, is consistent with the cache
/// holding `contents`: a read finds the remembered value or, once the entry
/// expired, nothing.
pub open spec fn cached_read<K>(contents: Map<K, i64>, key: K, read: Option<i64>) -> bool {
    read matches Some(t) ==> contents.contains_key(key) && contents[key] == t
}

/// The first value found among `reads`, in order.
pub open spec fn first_found(reads: Seq<Option<i64>>) -> Option<i64>
    decreases reads.len(),
{
    if reads.len() == 0 {
        None
    } else if reads[0] is Some {
        reads[0]
    } else {
        first_found(reads.drop_first())
    }
}

/// Whether `reads` are reads of the cast times of each of `sources` by
/// `entity_id`, consistent with `contents`.
pub open spec fn summon_reads_of(contents: Map<(u64, u32), i64>, entity_id: u64, sources: Seq<u32>, reads: Seq<Option<i64>>) -> bool {
    &&& reads.len() == sources.len()
    &&& forall|i: int| 0 <= i < reads.len() ==> cached_read(contents, (entity_id, sources[i]), #[trigger] reads[i])
}

/// The start a hit without summon sources joins: the projectile's remembered
/// cast time, else the skill's, else none (-1).
pub open spec fn spec_hit_start(projectile: Option<i64>, skill: Option<i64>) -> i64 {
    match projectile {
        Some(t) => t,
        None => match skill {
            Some(t) => t,
            None => -1i64,
        },
    }
}

/// The start a hit without summon sources joins, from what the reads of the
/// projectile's and the skill's remembered cast times gave.
pub fn hit_start(projectile: Option<i64>, skill: Option<i64>) -> (r: i64)
    ensures
        r == spec_hit_start(projectile, skill),
{
    match projectile {
        Some(t) => t,
        None => match skill {
            Some(t) => t,
            None => -1,
        },
    }
}

/// The first remembered cast time among the reads of a skill's summon
/// sources, in the order of the sources.
pub fn first_remembered(reads: &Vec<Option<i64>>) -> (r: Option<i64>)
    ensures
        r == first_found(reads@),
{
    let mut i: usize = 0;
    proof {
        assert(reads@.subrange(0, reads@.len() as int) =~= reads@);
    }
    while i < reads.len()
        invariant
            i <= reads@.len(),
            first_found(reads@) == first_found(reads@.subrange(i as int, reads@.len() as int)),
        decreases reads@.len() - i,
    {
        proof {
            assert(reads@.subrange(i as int, reads@.len() as int).drop_first() =~= reads@.subrange(i + 1, reads@.len() as int));
            assert(reads@.subrange(i as int, reads@.len() as int)[0] == reads@[i as int]);
        }
        if reads[i].is_some() {
            return reads[i];
        }
        i = i + 1;
    }
    proof {
        assert(reads@.subrange(i as int, reads@.len() as int) =~= Seq::<Option<i64>>::empty());
    }
    None
}

/// A hit joins its cast without losing anything: where the cast is already
/// recorded, its hits after the hit are its hits before followed by the new
/// hit (one more), its start stays, and its last hit is the new hit's time;
/// where it is not, it is recorded with the hit alone; every other cast stays
/// as it was; and a hit without a known start (negative) changes nothing.
pub proof fn hit_joins_its_cast(
    skills: Map<(u64, u32, i64), CastView>,
    entity_id: u64,
    skill_id: u32,
    start: i64,
    hit: SkillHitView,
)
    ensures
        ({
            let key = (entity_id, skill_id, start);
            let after = spec_record_hit(skills, entity_id, skill_id, start, hit);
            &&& start < 0 ==> after == skills
            &&& start >= 0 ==> {
                &&& after.dom() == skills.dom().insert(key)
                &&& forall|k: (u64, u32, i64)| k != key && #[trigger] skills.dom().contains(k) ==> after[k] == skills[k]
                &&& skills.dom().contains(key) ==> {
                    &&& after[key].hits.len() == skills[key].hits.len() + 1
                    &&& forall|i: int| 0 <= i < skills[key].hits.len() ==> #[trigger] after[key].hits[i] == skills[key].hits[i]
                    &&& after[key].hits[skills[key].hits.len() as int] == hit
                    &&& after[key].timestamp == skills[key].timestamp
                    &&& after[key].last == hit.timestamp
                }
                &&& !skills.dom().contains(key) ==> after[key].hits.len() == 1 && after[key].hits[0] == hit
                    && after[key].timestamp == start && after[key].last == hit.timestamp
            }
        }),
{
    let key = (entity_id, skill_id, start);
    let after = spec_record_hit(skills, entity_id, skill_id, start, hit);
    if start >= 0 {
        assert(after.dom() =~= skills.dom().insert(key));
    }
}

/// `hits` ordered by time, not decreasing.
pub open spec fn sorted_by_time(hits: Seq<SkillHitView>) -> bool {
    forall|i: int, j: int| 0 <= i <= j < hits.len() ==> (#[trigger] hits[i]).timestamp <= (#[trigger] hits[j]).timestamp
}

/// `target` with each hit of `source`, in order, that it does not hold yet.
pub open spec fn appended_hits(target: Seq<SkillHitView>, source: Seq<SkillHitView>) -> Seq<SkillHitView>
    decreases source.len(),
{
    if source.len() == 0 {
        target
    } else {
        let acc = appended_hits(target, source.drop_last());
        if acc.contains(source.last()) {
            acc
        } else {
            acc.push(source.last())
        }
    }
}

/// A cast under `(new_entity, k.1, k.2)` merged with the cast of the old
/// entity under the same skill and start: the hits the old cast adds, ordered
/// by time, and the later of the two last hits.
pub open spec fn merged_cast(result: CastView, target: CastView, source: CastView) -> bool {
    &&& result.timestamp == target.timestamp
    &&& result.last == (if target.last >= source.last {
        target.last
    } else {
        source.last
    })
    &&& sorted_by_time(result.hits)
    &&& result.hits.to_multiset() == appended_hits(target.hits, source.hits).to_multiset()
}

/// The casts after the casts of `old_entity` moved to `new_entity`.
pub open spec fn rebound(
    result: Map<(u64, u32, i64), CastView>,
    skills: Map<(u64, u32, i64), CastView>,
    old_entity: u64,
    new_entity: u64,
) -> bool {
    &&& forall|k: (u64, u32, i64)|
        #[trigger] result.dom().contains(k) <==> ((skills.dom().contains(k) && k.0 != old_entity) || (k.0 == new_entity
            && skills.dom().contains((old_entity, k.1, k.2))))
    &&& forall|k: (u64, u32, i64)|
        #[trigger] result.dom().contains(k) ==> if k.0 == new_entity && skills.dom().contains((old_entity, k.1, k.2)) {
            if skills.dom().contains(k) {
                merged_cast(result[k], skills[k], skills[(old_entity, k.1, k.2)])
            } else {
                result[k] == skills[(old_entity, k.1, k.2)]
            }
        } else {
            result[k] == skills[k]
        }
}

/// Whether `after` is `before` with `hit` joined to its cast (see
/// `SkillTracker::on_hit`), given what the reads of the caches gave: `reads`
/// for the summon sources, `projectile` and `skill` for the projectile's and
/// the skill's remembered cast times.
pub open spec fn hit_joined(
    before: SkillTracker,
    after: SkillTracker,
    entity_id: u64,
    projectile_id: u64,
    skill_id: u32,
    hit: SkillHitView,
    summon_source: Option<Vec<u32>>,
    reads: Seq<Option<i64>>,
    projectile: Option<i64>,
    skill: Option<i64>,
) -> bool {
    let start = match summon_source {
        Some(_) => match first_found(reads) {
            Some(t) => t,
            None => hit.timestamp,
        },
        None => spec_hit_start(projectile, skill),
    };
    &&& after.skills.contents() == spec_record_hit(before.skills.contents(), entity_id, skill_id, start, hit)
    &&& match summon_source {
        Some(ss) => {
            &&& summon_reads_of(before.skill_timestamp.contents(), entity_id, ss@, reads)
            &&& if first_found(reads) is Some {
                after.skill_timestamp == before.skill_timestamp
            } else {
                after.skill_timestamp.contents() == before.skill_timestamp.contents().insert((entity_id, skill_id), hit.timestamp)
            }
        },
        None => {
            &&& cached_read(before.projectile_id_to_timestamp.contents(), projectile_id, projectile)
            &&& cached_read(before.skill_timestamp.contents(), (entity_id, skill_id), skill)
            &&& after.skill_timestamp == before.skill_timestamp
        },
    }
}

/// Casts of skills by entity, with the caches that join hits to them.
pub struct SkillTracker {
    pub fight_start: i64,
    pub skills: SkillCasts,
    pub projectile_id_to_timestamp: ProjectileTimestamps,
    pub skill_timestamp: SkillTimestamps,
    /// The casts of each skill, with the cooldown each started.
    pub skill_cooldowns: SkillCooldowns,
}

impl SkillTracker {
    pub fn new() -> (r: Self)
        ensures
            r.fight_start == -1,
            r.skills.contents().dom().is_empty(),
            r.projectile_id_to_timestamp.contents().dom().is_empty(),
            r.skill_timestamp.contents().dom().is_empty(),
            r.skill_cooldowns@.dom().is_empty(),
    {
        SkillTracker {
            fight_start: -1,
            skills: SkillCasts::new(),
            projectile_id_to_timestamp: ProjectileTimestamps::new(),
            skill_timestamp: SkillTimestamps::new(),
            skill_cooldowns: SkillCooldowns::new(),
        }
    }

    /// Reads the remembered cast times of `sources` by `entity_id`, in order,
    /// up to the first that is found; the sources after it are not read
    /// (a read keeps an entry alive) and count as not found.
    fn summon_reads(&self, entity_id: u64, sources: &Vec<u32>) -> (r: Vec<Option<i64>>)
        ensures
            summon_reads_of(self.skill_timestamp.contents(), entity_id, sources@, r@),
    {
        let mut reads: Vec<Option<i64>> = Vec::new();
        let mut found = false;
        let mut i: usize = 0;
        while i < sources.len()
            invariant
                i <= sources@.len(),
                reads@.len() == i,
                forall|j: int| 0 <= j < i ==> cached_read(self.skill_timestamp.contents(), (entity_id, sources@[j]), #[trigger] reads@[j]),
            decreases sources@.len() - i,
        {
            if found {
                reads.push(None);
            } else {
                let read = self.skill_timestamp.get(&(entity_id, sources[i]));
                found = read.is_some();
                reads.push(read);
            }
            i = i + 1;
        }
        reads
    }

    /// Records a cast of `skill_id` by `entity_id` at `timestamp`, unless a
    /// summon source of the skill is remembered as cast by the entity: then the
    /// cast belongs to that source. A cast already recorded keeps its hits.
    pub fn new_cast(&mut self, entity_id: u64, skill_id: u32, summon_source: Option<Vec<u32>>, timestamp: i64)
        requires
            i64::MIN <= timestamp - old(self).fight_start <= i64::MAX,
        ensures
            final(self).fight_start == old(self).fight_start,
            final(self).projectile_id_to_timestamp == old(self).projectile_id_to_timestamp,
            final(self).skill_cooldowns == old(self).skill_cooldowns,
            exists|reads: Seq<Option<i64>>|
                #![trigger first_found(reads)]
                {
                    let relative = (timestamp - old(self).fight_start) as i64;
                    let found = match summon_source {
                        Some(ss) => summon_reads_of(old(self).skill_timestamp.contents(), entity_id, ss@, reads) && first_found(
                            reads,
                        ) is Some,
                        None => false,
                    };
                    &&& (summon_source matches Some(ss) ==> summon_reads_of(
                        old(self).skill_timestamp.contents(),
                        entity_id,
                        ss@,
                        reads,
                    ))
                    &&& if found {
                        final(self).skills == old(self).skills && final(self).skill_timestamp == old(self).skill_timestamp
                    } else {
                        final(self).skill_timestamp.contents() == old(self).skill_timestamp.contents().insert(
                            (entity_id, skill_id),
                            relative,
                        ) && final(self).skills.contents() == spec_new_cast(old(self).skills.contents(), entity_id, skill_id, relative)
                    }
                },
    {
        let relative: i64 = timestamp - self.fight_start;
        let ghost mut reads: Seq<Option<i64>> = Seq::empty();
        match &summon_source {
            Some(sources) => {
                let read = self.summon_reads(entity_id, sources);
                proof {
                    reads = read@;
                }
                if first_remembered(&read).is_some() {
                    return;
                }
            },
            None => {},
        }
        self.skill_timestamp.insert((entity_id, skill_id), relative);
        if !self.skills.contains_key(&(entity_id, skill_id, relative)) {
            self.skills.insert((entity_id, skill_id, relative), SkillCast { hits: Vec::new(), timestamp: relative, last: relative });
            proof {
                assert(Seq::<SkillHit>::empty().map_values(|h: SkillHit| h@) =~= Seq::<SkillHitView>::empty());
            }
        }
    }

    /// Adds `info` to the cast of `skill_id` by `entity_id` that started at
    /// `start`; a negative start drops the hit.
    pub fn record_hit(&mut self, entity_id: u64, skill_id: u32, start: i64, info: SkillHit)
        ensures
            final(self).fight_start == old(self).fight_start,
            final(self).projectile_id_to_timestamp == old(self).projectile_id_to_timestamp,
            final(self).skill_timestamp == old(self).skill_timestamp,
            final(self).skill_cooldowns == old(self).skill_cooldowns,
            final(self).skills.contents() == spec_record_hit(old(self).skills.contents(), entity_id, skill_id, start, info@),
    {
        if start < 0 {
            return;
        }
        let key = (entity_id, skill_id, start);
        let ghost hit = info@;
        let last = info.timestamp;
        match self.skills.get(&key) {
            Some(cast) => {
                let mut cast = cast;
                let ghost before = cast.hits@;
                cast.hits.push(info);
                cast.last = last;
                proof {
                    assert(cast.hits@.map_values(|h: SkillHit| h@) =~= before.map_values(|h: SkillHit| h@).push(hit));
                }
                self.skills.insert(key, cast);
            },
            None => {
                let hits: Vec<SkillHit> = vec![info];
                proof {
                    assert(hits@.map_values(|h: SkillHit| h@) =~= seq![hit]);
                }
                self.skills.insert(key, SkillCast { hits, timestamp: start, last });
            },
        }
    }

    /// Joins a hit to its cast. A summoned skill's hit joins the remembered
    /// cast of one of its summon sources, or else starts counting from the hit
    /// itself; any other hit joins the remembered cast of its projectile or of
    /// its skill, and is dropped when neither is remembered.
    pub fn on_hit(&mut self, entity_id: u64, projectile_id: u64, skill_id: u32, info: SkillHit, summon_source: Option<Vec<u32>>)
        ensures
            final(self).fight_start == old(self).fight_start,
            final(self).projectile_id_to_timestamp == old(self).projectile_id_to_timestamp,
            final(self).skill_cooldowns == old(self).skill_cooldowns,
            exists|reads: Seq<Option<i64>>, projectile: Option<i64>, skill: Option<i64>|
                #[trigger] hit_joined(
                    *old(self),
                    *final(self),
                    entity_id,
                    projectile_id,
                    skill_id,
                    info@,
                    summon_source,
                    reads,
                    projectile,
                    skill,
                ),
    {
        let ghost info_view = info@;
        let ghost mut reads: Seq<Option<i64>> = Seq::empty();
        let ghost mut projectile: Option<i64> = None;
        let ghost mut skill: Option<i64> = None;
        let start: i64 = match &summon_source {
            Some(sources) => {
                let read = self.summon_reads(entity_id, sources);
                proof {
                    reads = read@;
                }
                match first_remembered(&read) {
                    Some(t) => t,
                    None => {
                        self.skill_timestamp.insert((entity_id, skill_id), info.timestamp);
                        info.timestamp
                    },
                }
            },
            None => {
                let p = self.projectile_id_to_timestamp.get(&projectile_id);
                let k = match p {
                    Some(_) => None,
                    None => self.skill_timestamp.get(&(entity_id, skill_id)),
                };
                proof {
                    projectile = p;
                    skill = k;
                }
                hit_start(p, k)
            },
        };
        self.record_hit(entity_id, skill_id, start, info);
        proof {
            assert(hit_joined(*old(self), *self, entity_id, projectile_id, skill_id, info_view, summon_source, reads, projectile, skill));
        }
    }
}

/// Whether two hits record the same values.
pub fn skill_hits_match(a: &SkillHit, b: &SkillHit) -> (r: bool)
    ensures
        r == (a@ == b@),
{
    a.timestamp == b.timestamp && a.damage == b.damage && a.unbuffed_damage == b.unbuffed_damage && a.rdps_damage_received
        == b.rdps_damage_received && a.rdps_damage_received_support == b.rdps_damage_received_support && a.crit == b.crit
        && a.back_attack == b.back_attack && a.front_attack == b.front_attack && ids_equal(&a.buffed_by, &b.buffed_by)
        && ids_equal(&a.debuffed_by, &b.debuffed_by) && a.stagger == b.stagger
}

fn ids_equal(a: &Vec<u32>, b: &Vec<u32>) -> (r: bool)
    ensures
        r == (a@ == b@),
{
    if a.len() != b.len() {
        return false;
    }
    let mut i: usize = 0;
    while i < a.len()
        invariant
            a@.len() == b@.len(),
            i <= a@.len(),
            forall|j: int| 0 <= j < i ==> a@[j] == b@[j],
        decreases a@.len() - i,
    {
        if a[i] != b[i] {
            return false;
        }
        i = i + 1;
    }
    proof {
        assert(a@ =~= b@);
    }
    true
}

} // verus!

verus! {

pub open spec fn hit_views(hits: Seq<SkillHit>) -> Seq<SkillHitView> {
    hits.map_values(|h: SkillHit| h@)
}

proof fn lemma_views_insert(s: Seq<SkillHit>, pos: int, x: SkillHit)
    requires
        0 <= pos <= s.len(),
    ensures
        hit_views(s.insert(pos, x)) == hit_views(s).insert(pos, x@),
{
    assert(hit_views(s.insert(pos, x)) =~= hit_views(s).insert(pos, x@));
}

/// The hits of `v` ordered by time; hits of equal time keep their order.
pub fn sort_hits_by_time(v: Vec<SkillHit>) -> (r: Vec<SkillHit>)
    ensures
        sorted_by_time(hit_views(r@)),
        hit_views(r@).to_multiset() == hit_views(v@).to_multiset(),
{
    let mut out: Vec<SkillHit> = Vec::new();
    let mut i: usize = 0;
    proof {
        assert(hit_views(out@) =~= hit_views(v@).subrange(0, 0));
    }
    while i < v.len()
        invariant
            i <= v@.len(),
            sorted_by_time(hit_views(out@)),
            hit_views(out@).to_multiset() == hit_views(v@).subrange(0, i as int).to_multiset(),
        decreases v@.len() - i,
    {
        let x = v[i].duplicate();
        let mut pos: usize = 0;
        while pos < out.len() && out[pos].timestamp <= x.timestamp
            invariant
                pos <= out@.len(),
                forall|a: int| 0 <= a < pos ==> (#[trigger] out@[a]).timestamp <= x.timestamp,
            decreases out@.len() - pos,
        {
            pos = pos + 1;
        }
        let ghost before = out@;
        proof {
            assert(forall|a: int| 0 <= a < pos ==> #[trigger] before[a].timestamp <= x.timestamp);
            lemma_views_insert(before, pos as int, x);
            to_multiset_insert(hit_views(before), pos as int, x@);
            assert(hit_views(v@).subrange(0, i + 1) =~= hit_views(v@).subrange(0, i as int).push(x@));
            to_multiset_build(hit_views(v@).subrange(0, i as int), x@);
        }
        out.insert(pos, x);
        proof {
            let hv = hit_views(out@);
            let hb = hit_views(before);
            assert forall|a: int, c: int| 0 <= a <= c < hv.len() implies (#[trigger] hv[a]).timestamp <= (#[trigger] hv[c]).timestamp by {
                if pos < before.len() {
                    assert(before[pos as int].timestamp > x.timestamp);
                }
                if a == c {
                } else if c < pos {
                    assert(hb[a].timestamp <= hb[c].timestamp);
                } else if c == pos {
                    assert(hb[a].timestamp == before[a].timestamp);
                    assert(before[a].timestamp <= x.timestamp);
                } else if a < pos {
                    assert(hb[a].timestamp <= hb[c - 1].timestamp);
                } else if a == pos {
                    assert(hb[pos as int].timestamp <= hb[c - 1].timestamp);
                } else {
                    assert(hb[a - 1].timestamp <= hb[c - 1].timestamp);
                }
            }
        }
        i = i + 1;
    }
    proof {
        assert(hit_views(v@).subrange(0, v@.len() as int) == hit_views(v@));
    }
    out
}

/// Adds to `target` each hit of `source` it does not hold yet, then orders
/// the hits by time.
pub fn append_missing_hits(target: &mut Vec<SkillHit>, source: Vec<SkillHit>)
    ensures
        sorted_by_time(hit_views(final(target)@)),
        hit_views(final(target)@).to_multiset() == appended_hits(hit_views(old(target)@), hit_views(source@)).to_multiset(),
{
    let ghost t0 = hit_views(target@);
    let mut j: usize = 0;
    proof {
        assert(hit_views(source@).subrange(0, 0) =~= Seq::<SkillHitView>::empty());
    }
    while j < source.len()
        invariant
            j <= source@.len(),
            t0 == hit_views(old(target)@),
            hit_views(target@) == appended_hits(t0, hit_views(source@).subrange(0, j as int)),
        decreases source@.len() - j,
    {
        let ghost sv = hit_views(source@);
        proof {
            assert(sv.subrange(0, j + 1).drop_last() =~= sv.subrange(0, j as int));
            assert(sv.subrange(0, j + 1).last() == source@[j as int]@);
        }
        let mut found = false;
        let mut k: usize = 0;
        while k < target.len()
            invariant
                j < source@.len(),
                k <= target@.len(),
                found ==> hit_views(target@).contains(source@[j as int]@),
                !found ==> forall|a: int| 0 <= a < k ==> (#[trigger] target@[a])@ != source@[j as int]@,
            decreases target@.len() - k,
        {
            if skill_hits_match(&target[k], &source[j]) {
                found = true;
                proof {
                    assert(hit_views(target@)[k as int] == source@[j as int]@);
                }
            }
            k = k + 1;
        }
        proof {
            if !found {
                assert(!hit_views(target@).contains(source@[j as int]@)) by {
                    if hit_views(target@).contains(source@[j as int]@) {
                        let a = choose|a: int| 0 <= a < hit_views(target@).len() && hit_views(target@)[a] == source@[j as int]@;
                        assert(target@[a]@ == source@[j as int]@);
                    }
                }
            }
        }
        if !found {
            let ghost before = target@;
            target.push(source[j].duplicate());
            proof {
                assert(hit_views(target@) =~= hit_views(before).push(source@[j as int]@));
            }
        }
        j = j + 1;
    }
    proof {
        assert(hit_views(source@).subrange(0, source@.len() as int) == hit_views(source@));
    }
    let mut all: Vec<SkillHit> = Vec::new();
    std::mem::swap(&mut all, target);
    *target = sort_hits_by_time(all);
}

} // verus!

verus! {

/// Whether the first `n` keys of `ks` include `k` as a cast of `old_entity`.
pub open spec fn processed(ks: Seq<(u64, u32, i64)>, n: int, k: (u64, u32, i64), old_entity: u64) -> bool {
    k.0 == old_entity && exists|j: int| 0 <= j < n && #[trigger] ks[j] == k
}

/// The casts part way through a rebinding that has moved the casts among the
/// first `n` keys of `ks`.
pub open spec fn partly_rebound(
    cur: Map<(u64, u32, i64), CastView>,
    skills: Map<(u64, u32, i64), CastView>,
    ks: Seq<(u64, u32, i64)>,
    n: int,
    old_entity: u64,
    new_entity: u64,
) -> bool {
    &&& forall|k: (u64, u32, i64)|
        #[trigger] cur.dom().contains(k) <==> ((skills.dom().contains(k) && !processed(ks, n, k, old_entity)) || (k.0 == new_entity
            && processed(ks, n, (old_entity, k.1, k.2), old_entity)))
    &&& forall|k: (u64, u32, i64)|
        #[trigger] cur.dom().contains(k) ==> if k.0 == new_entity && processed(ks, n, (old_entity, k.1, k.2), old_entity) {
            if skills.dom().contains(k) {
                merged_cast(cur[k], skills[k], skills[(old_entity, k.1, k.2)])
            } else {
                cur[k] == skills[(old_entity, k.1, k.2)]
            }
        } else {
            cur[k] == skills[k]
        }
}

/// Whether `old_entity` has a cast of `skill_id` among `skills`.
/// The cast time a moved skill gets under the new entity, from the reads of
/// its remembered time under the old entity and then under the new one: the
/// old time, where it is found and the new entity has none found; else
/// nothing is written.
pub open spec fn spec_moved_time(old_read: Option<i64>, new_read: Option<i64>) -> Option<i64> {
    match (old_read, new_read) {
        (Some(t), None) => Some(t),
        _ => None,
    }
}

/// The cast time a moved skill gets under the new entity (see
/// `spec_moved_time`).
pub fn moved_time(old_read: Option<i64>, new_read: Option<i64>) -> (r: Option<i64>)
    ensures
        r == spec_moved_time(old_read, new_read),
{
    match (old_read, new_read) {
        (Some(t), None) => Some(t),
        _ => None,
    }
}

/// Whether the remembered time under `key` in `after` is `written` where a
/// time was written, and else as it was in `before`.
pub open spec fn time_after(before: Map<(u64, u32), i64>, after: Map<(u64, u32), i64>, key: (u64, u32), written: Option<i64>) -> bool {
    match written {
        Some(t) => after.contains_key(key) && after[key] == t,
        None => after.contains_key(key) == before.contains_key(key) && (before.contains_key(key) ==> after[key] == before[key]),
    }
}

/// Whether the remembered time of skill `s` under `new_entity` in `after`
/// follows from reads `old_read` and `new_read` of `before`.
pub open spec fn moved_time_follows(
    before: Map<(u64, u32), i64>,
    after: Map<(u64, u32), i64>,
    old_entity: u64,
    new_entity: u64,
    s: u32,
    old_read: Option<i64>,
    new_read: Option<i64>,
) -> bool {
    &&& cached_read(before, (old_entity, s), old_read)
    &&& cached_read(before, (new_entity, s), new_read)
    &&& time_after(before, after, (new_entity, s), spec_moved_time(old_read, new_read))
}

pub open spec fn casts_skill(skills: Map<(u64, u32, i64), CastView>, old_entity: u64, skill_id: u32) -> bool {
    exists|t: i64| #[trigger] skills.dom().contains((old_entity, skill_id, t))
}

impl SkillTracker {
    /// Moves the casts of `old_entity_id` to `new_entity_id`: a cast the new
    /// entity already has under the same skill and start gains the hits it
    /// lacks and the later last hit. The remembered cast time of each moved
    /// skill moves too, unless the new entity has one.
    pub fn rebind_entity_id(&mut self, old_entity_id: u64, new_entity_id: u64)
        ensures
            final(self).fight_start == old(self).fight_start,
            final(self).projectile_id_to_timestamp == old(self).projectile_id_to_timestamp,
            final(self).skill_cooldowns == old(self).skill_cooldowns,
            old_entity_id == 0 || old_entity_id == new_entity_id ==> final(self).skills == old(self).skills && final(self).skill_timestamp
                == old(self).skill_timestamp,
            old_entity_id != 0 && old_entity_id != new_entity_id ==> {
                let s0 = old(self).skills.contents();
                let t0 = old(self).skill_timestamp.contents();
                let t1 = final(self).skill_timestamp.contents();
                &&& rebound(final(self).skills.contents(), s0, old_entity_id, new_entity_id)
                &&& forall|s: u32| #[trigger] casts_skill(s0, old_entity_id, s) ==> !t1.dom().contains((old_entity_id, s))
                &&& forall|s: u32|
                    #[trigger] casts_skill(s0, old_entity_id, s) ==> exists|o: Option<i64>, n: Option<i64>|
                        #[trigger] moved_time_follows(t0, t1, old_entity_id, new_entity_id, s, o, n)
                &&& forall|k: (u64, u32)|
                    !(casts_skill(s0, old_entity_id, k.1) && (k.0 == old_entity_id || k.0 == new_entity_id)) ==> (#[trigger] t1.dom().contains(k)
                        == t0.dom().contains(k) && (t1.dom().contains(k) ==> t1[k] == t0[k]))
            },
    {
        if old_entity_id == 0 || old_entity_id == new_entity_id {
            return;
        }
        let keys = self.skills.keys();
        let ghost s0 = self.skills.contents();
        let ghost t0 = self.skill_timestamp.contents();
        let mut moved: Vec<u32> = Vec::new();
        let mut i: usize = 0;
        proof {
            assert(partly_rebound(s0, s0, keys@, 0, old_entity_id, new_entity_id));
        }
        while i < keys.len()
            invariant
                i <= keys@.len(),
                old_entity_id != new_entity_id,
                s0 == old(self).skills.contents(),
                t0 == old(self).skill_timestamp.contents(),
                self.fight_start == old(self).fight_start,
                self.projectile_id_to_timestamp == old(self).projectile_id_to_timestamp,
                self.skill_cooldowns == old(self).skill_cooldowns,
                self.skill_timestamp == old(self).skill_timestamp,
                forall|a: int| 0 <= a < keys@.len() ==> #[trigger] s0.dom().contains(keys@[a]),
                forall|a: int, b: int| 0 <= a < b < keys@.len() ==> #[trigger] keys@[a] != #[trigger] keys@[b],
                forall|k: (u64, u32, i64)| #[trigger] s0.dom().contains(k) ==> keys@.contains(k),
                partly_rebound(self.skills.contents(), s0, keys@, i as int, old_entity_id, new_entity_id),
                forall|s: u32|
                    #[trigger] moved@.contains(s) <==> exists|j: int| 0 <= j < i && #[trigger] keys@[j].0 == old_entity_id && keys@[j].1 == s,
                forall|a: int, b: int| 0 <= a < b < moved@.len() ==> moved@[a] != moved@[b],
            decreases keys@.len() - i,
        {
            let k = keys[i];
            let ghost cur = self.skills.contents();
            proof {
                assert forall|kk: (u64, u32, i64)| #[trigger] processed(keys@, i + 1, kk, old_entity_id) == (processed(
                    keys@,
                    i as int,
                    kk,
                    old_entity_id,
                ) || (kk == k && k.0 == old_entity_id)) by {
                    if processed(keys@, i + 1, kk, old_entity_id) && kk != k {
                        let j = choose|j: int| 0 <= j < i + 1 && #[trigger] keys@[j] == kk;
                        assert(j < i);
                    }
                    if kk == k && k.0 == old_entity_id {
                        assert(keys@[i as int] == kk);
                    }
                }
                assert(!processed(keys@, i as int, k, old_entity_id)) by {
                    if processed(keys@, i as int, k, old_entity_id) {
                        let j = choose|j: int| 0 <= j < i && #[trigger] keys@[j] == k;
                        assert(keys@[j] != keys@[i as int]);
                    }
                }
            }
            if k.0 == old_entity_id {
                let nk = (new_entity_id, k.1, k.2);
                proof {
                    assert(s0.dom().contains(k));
                    assert(cur.dom().contains(k));
                    assert(cur[k] == s0[k]);
                    assert(cur.dom().contains(nk) == s0.dom().contains(nk));
                    if s0.dom().contains(nk) {
                        assert(!processed(keys@, i as int, nk, old_entity_id));
                        assert(cur[nk] == s0[nk]);
                    }
                }
                let old_cast = match self.skills.remove(&k) {
                    Some(c) => c,
                    None => {
                        proof {
                            assert(false);
                        }
                        return;
                    },
                };
                match self.skills.get(&nk) {
                    Some(existing) => {
                        let mut cast = existing;
                        if old_cast.last > cast.last {
                            cast.last = old_cast.last;
                        }
                        append_missing_hits(&mut cast.hits, old_cast.hits);
                        self.skills.insert(nk, cast);
                    },
                    None => {
                        self.skills.insert(nk, old_cast);
                    },
                }
                proof {
                    let nxt = self.skills.contents();
                    assert forall|kk: (u64, u32, i64)| #[trigger] nxt.dom().contains(kk) <==> ((s0.dom().contains(kk) && !processed(
                        keys@,
                        i + 1,
                        kk,
                        old_entity_id,
                    )) || (kk.0 == new_entity_id && processed(keys@, i + 1, (old_entity_id, kk.1, kk.2), old_entity_id))) by {
                        if kk.0 == new_entity_id && processed(keys@, i + 1, (old_entity_id, kk.1, kk.2), old_entity_id) {
                            if (old_entity_id, kk.1, kk.2) == k {
                                assert(kk == nk);
                            }
                        }
                    }
                }
                let ghost moved_before = moved@;
                let mut listed = false;
                let mut m: usize = 0;
                while m < moved.len()
                    invariant
                        m <= moved@.len(),
                        listed == exists|a: int| 0 <= a < m && moved@[a] == k.1,
                    decreases moved@.len() - m,
                {
                    if moved[m] == k.1 {
                        listed = true;
                    }
                    m = m + 1;
                }
                if !listed {
                    moved.push(k.1);
                }
                proof {
                    assert(moved_before.contains(k.1) == listed);
                    assert forall|a: int| 0 <= a < moved_before.len() implies moved@[a] == #[trigger] moved_before[a] by {}
                    assert forall|s: u32| #[trigger] moved@.contains(s) == (moved_before.contains(s) || s == k.1) by {
                        if moved@.contains(s) && !moved_before.contains(s) {
                            let a = choose|a: int| 0 <= a < moved@.len() && moved@[a] == s;
                            if a < moved_before.len() {
                                assert(moved_before[a] == s);
                            }
                        }
                        if moved_before.contains(s) {
                            let a = choose|a: int| 0 <= a < moved_before.len() && moved_before[a] == s;
                            assert(moved@[a] == s);
                        }
                        if s == k.1 && !listed {
                            assert(moved@[moved@.len() - 1] == s);
                        }
                    }
                    assert forall|s: u32| #[trigger] moved@.contains(s) <==> exists|j: int|
                        0 <= j < i + 1 && #[trigger] keys@[j].0 == old_entity_id && keys@[j].1 == s by {
                        if exists|j: int| 0 <= j < i + 1 && #[trigger] keys@[j].0 == old_entity_id && keys@[j].1 == s {
                            let j = choose|j: int| 0 <= j < i + 1 && #[trigger] keys@[j].0 == old_entity_id && keys@[j].1 == s;
                            if j < i {
                                assert(moved_before.contains(s));
                            }
                        }
                        if moved@.contains(s) {
                            if moved_before.contains(s) {
                            } else {
                                assert(keys@[i as int].0 == old_entity_id && keys@[i as int].1 == s);
                            }
                        }
                    }
                }
            } else {
                proof {
                    assert forall|kk: (u64, u32, i64)| #[trigger] processed(keys@, i + 1, kk, old_entity_id) == processed(
                        keys@,
                        i as int,
                        kk,
                        old_entity_id,
                    ) by {}
                    assert forall|s: u32| #[trigger] moved@.contains(s) <==> exists|j: int|
                        0 <= j < i + 1 && #[trigger] keys@[j].0 == old_entity_id && keys@[j].1 == s by {
                        if exists|j: int| 0 <= j < i + 1 && #[trigger] keys@[j].0 == old_entity_id && keys@[j].1 == s {
                            let j = choose|j: int| 0 <= j < i + 1 && #[trigger] keys@[j].0 == old_entity_id && keys@[j].1 == s;
                            assert(j < i);
                        }
                    }
                }
            }
            i = i + 1;
        }
        proof {
            assert forall|k: (u64, u32, i64)| #[trigger] s0.dom().contains(k) && k.0 == old_entity_id implies processed(
                keys@,
                keys@.len() as int,
                k,
                old_entity_id,
            ) by {
                let j = choose|j: int| 0 <= j < keys@.len() && keys@[j] == k;
                assert(keys@[j] == k);
            }
            assert forall|k: (u64, u32, i64)| processed(keys@, keys@.len() as int, k, old_entity_id) implies #[trigger] s0.dom().contains(
                k,
            ) by {
                let j = choose|j: int| 0 <= j < keys@.len() && #[trigger] keys@[j] == k;
            }
            assert forall|s: u32| #[trigger] casts_skill(s0, old_entity_id, s) <==> moved@.contains(s) by {
                if casts_skill(s0, old_entity_id, s) {
                    let t = choose|t: i64| #[trigger] s0.dom().contains((old_entity_id, s, t));
                    let j = choose|j: int| 0 <= j < keys@.len() && keys@[j] == (old_entity_id, s, t);
                    assert(keys@[j].0 == old_entity_id && keys@[j].1 == s);
                }
                if moved@.contains(s) {
                    let j = choose|j: int| 0 <= j < keys@.len() && #[trigger] keys@[j].0 == old_entity_id && keys@[j].1 == s;
                    assert(s0.dom().contains(keys@[j]));
                }
            }
        }
        let ghost s1 = self.skills.contents();
        let ghost mut olds: Seq<Option<i64>> = Seq::empty();
        let ghost mut news: Seq<Option<i64>> = Seq::empty();
        let mut q: usize = 0;
        while q < moved.len()
            invariant
                q <= moved@.len(),
                old_entity_id != new_entity_id,
                t0 == old(self).skill_timestamp.contents(),
                self.skills.contents() == s1,
                self.fight_start == old(self).fight_start,
                self.projectile_id_to_timestamp == old(self).projectile_id_to_timestamp,
                self.skill_cooldowns == old(self).skill_cooldowns,
                forall|a: int, b: int| 0 <= a < b < moved@.len() ==> moved@[a] != moved@[b],
                forall|a: int| 0 <= a < q ==> !self.skill_timestamp.contents().dom().contains((old_entity_id, #[trigger] moved@[a])),
                olds.len() == q,
                news.len() == q,
                forall|a: int|
                    0 <= a < q ==> moved_time_follows(
                        t0,
                        self.skill_timestamp.contents(),
                        old_entity_id,
                        new_entity_id,
                        #[trigger] moved@[a],
                        olds[a],
                        news[a],
                    ),
                forall|k: (u64, u32)|
                    !(moved@.subrange(0, q as int).contains(k.1) && (k.0 == old_entity_id || k.0 == new_entity_id)) ==> (
                    #[trigger] self.skill_timestamp.contents().dom().contains(k) == t0.dom().contains(k) && (
                    self.skill_timestamp.contents().dom().contains(k) ==> self.skill_timestamp.contents()[k] == t0[k])),
            decreases moved@.len() - q,
        {
            let s = moved[q];
            let ghost before = self.skill_timestamp.contents();
            proof {
                let pre0 = moved@.subrange(0, q as int);
                assert(!pre0.contains(s)) by {
                    if pre0.contains(s) {
                        let a = choose|a: int| 0 <= a < pre0.len() && pre0[a] == s;
                        assert(moved@[a] == moved@[q as int]);
                    }
                }
                let pre = moved@.subrange(0, q as int);
                let nxt = moved@.subrange(0, q + 1);
                assert forall|k: u32| #[trigger] nxt.contains(k) == (pre.contains(k) || k == s) by {
                    if nxt.contains(k) && k != s {
                        let a = choose|a: int| 0 <= a < nxt.len() && nxt[a] == k;
                        assert(pre[a] == k);
                    }
                    if pre.contains(k) {
                        let a = choose|a: int| 0 <= a < pre.len() && pre[a] == k;
                        assert(nxt[a] == k);
                    }
                    if k == s {
                        assert(nxt[q as int] == k);
                    }
                }
            }
            let o = self.skill_timestamp.get(&(old_entity_id, s));
            let n = match o {
                Some(_) => self.skill_timestamp.get(&(new_entity_id, s)),
                None => None,
            };
            match moved_time(o, n) {
                Some(t) => {
                    self.skill_timestamp.insert((new_entity_id, s), t);
                },
                None => {},
            }
            self.skill_timestamp.invalidate(&(old_entity_id, s));
            proof {
                assert(before.dom().contains((old_entity_id, s)) == t0.dom().contains((old_entity_id, s)));
                assert(before.dom().contains((new_entity_id, s)) == t0.dom().contains((new_entity_id, s)));
                let ghost o0 = olds;
                let ghost n0 = news;
                olds = olds.push(o);
                news = news.push(n);
                assert forall|a: int|
                    0 <= a < q + 1 implies moved_time_follows(
                    t0,
                    self.skill_timestamp.contents(),
                    old_entity_id,
                    new_entity_id,
                    #[trigger] moved@[a],
                    olds[a],
                    news[a],
                ) by {
                    if a < q {
                        assert(moved@[a] != s);
                        assert(olds[a] == o0[a] && news[a] == n0[a]);
                    }
                }
                assert forall|a: int| 0 <= a < q + 1 implies !self.skill_timestamp.contents().dom().contains(
                    (old_entity_id, #[trigger] moved@[a]),
                ) by {
                    if a < q {
                        assert(moved@[a] != s);
                    }
                }

            }
            q = q + 1;
        }
        proof {
            assert(moved@.subrange(0, moved@.len() as int) == moved@);
            let t1 = self.skill_timestamp.contents();
            assert forall|s: u32| #[trigger] casts_skill(s0, old_entity_id, s) implies !t1.dom().contains((old_entity_id, s)) by {
                let a = choose|a: int| 0 <= a < moved@.len() && moved@[a] == s;
                assert(!t1.dom().contains((old_entity_id, moved@[a])));
            }
            assert forall|s: u32| #[trigger] casts_skill(s0, old_entity_id, s) implies exists|o: Option<i64>, n: Option<i64>|
                #[trigger] moved_time_follows(t0, t1, old_entity_id, new_entity_id, s, o, n) by {
                let a = choose|a: int| 0 <= a < moved@.len() && moved@[a] == s;
                assert(moved_time_follows(t0, t1, old_entity_id, new_entity_id, moved@[a], olds[a], news[a]));
            }
            assert(rebound(s1, s0, old_entity_id, new_entity_id)) by {
                assert forall|k: (u64, u32, i64)| processed(keys@, keys@.len() as int, k, old_entity_id) == (#[trigger] s0.dom().contains(
                    k,
                ) && k.0 == old_entity_id) by {
                    if processed(keys@, keys@.len() as int, k, old_entity_id) {
                        let j = choose|j: int| 0 <= j < keys@.len() && #[trigger] keys@[j] == k;
                    }
                }
            }
        }
    }
}

} // verus!
