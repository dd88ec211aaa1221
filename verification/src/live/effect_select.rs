//! Which of the status effects on an entity count toward a hit: of the
//! effects that share a unique group only one counts.
use crate::live::status_tracker::StatusEffectDetails;
use vstd::prelude::*;

verus! {

/// Whether `effects[j]` is the effect that counts for its unique group: the
/// one with the smallest status effect id, the earliest of those.
pub open spec fn group_choice(effects: Seq<StatusEffectDetails>, j: int) -> bool {
    &&& 0 <= j < effects.len()
    &&& effects[j].unique_group != 0
    &&& forall|m: int|
        0 <= m < effects.len() && (#[trigger] effects[m]).unique_group == effects[j].unique_group ==> effects[j].status_effect_id
            < effects[m].status_effect_id || (effects[j].status_effect_id == effects[m].status_effect_id && j <= m)
}

/// Whether some effect of `effects` is in unique group `group`.
pub open spec fn in_group(effects: Seq<StatusEffectDetails>, group: u32) -> bool {
    exists|i: int| 0 <= i < effects.len() && (#[trigger] effects[i]).unique_group == group
}

/// Whether the unique groups of `effects` rise strictly.
pub open spec fn groups_rising(effects: Seq<StatusEffectDetails>) -> bool {
    forall|i: int, k: int| 0 <= i < k < effects.len() ==> effects[i].unique_group < effects[k].unique_group
}

/// The effects without a unique group.
pub open spec fn ungrouped(effects: Seq<StatusEffectDetails>) -> Seq<StatusEffectDetails> {
    effects.filter(|e: StatusEffectDetails| e.unique_group == 0)
}

/// Whether `e` is the effect that counts for its unique group among
/// `effects`.
pub open spec fn counts_for_group(effects: Seq<StatusEffectDetails>, e: StatusEffectDetails) -> bool {
    exists|j: int| group_choice(effects, j) && effects[j] == e
}

/// Whether `picks` holds, by rising unique group, the effect that counts for
/// each unique group of `effects`.
pub open spec fn group_picks(effects: Seq<StatusEffectDetails>, picks: Seq<StatusEffectDetails>) -> bool {
    &&& groups_rising(picks)
    &&& forall|k: int| 0 <= k < picks.len() ==> counts_for_group(effects, #[trigger] picks[k])
    &&& forall|g: u32| g != 0 && in_group(effects, g) ==> in_group(picks, g)
}

/// The effects that count: those without a unique group, in their order,
/// then for each unique group by rising group the one with the smallest
/// status effect id (the earliest of those).
#[verifier::rlimit(60)]
pub fn select_unique_group_effects(status_effects: &[StatusEffectDetails]) -> (r: Vec<StatusEffectDetails>)
    ensures
        exists|picks: Seq<StatusEffectDetails>|
            group_picks(status_effects@, picks) && r@ == ungrouped(status_effects@) + picks,
{
    let ghost s = status_effects@;
    let mut selected: Vec<StatusEffectDetails> = Vec::new();
    let mut picks: Vec<StatusEffectDetails> = Vec::new();
    let ghost mut js: Seq<int> = Seq::empty();
    let mut n: usize = 0;
    while n < status_effects.len()
        invariant
            n <= s.len(),
            s == status_effects@,
            selected@ == ungrouped(s.subrange(0, n as int)),
            js.len() == picks@.len(),
            groups_rising(picks@),
            forall|k: int|
                0 <= k < picks@.len() ==> group_choice(s.subrange(0, n as int), #[trigger] js[k]) && s[js[k]] == picks@[k],
            forall|g: u32| g != 0 && in_group(s.subrange(0, n as int), g) ==> in_group(picks@, g),
            forall|k: int| 0 <= k < picks@.len() ==> picks@[k].unique_group != 0,
        decreases s.len() - n,
    {
        let e = &status_effects[n];
        let ghost prev = s.subrange(0, n as int);
        let ghost next = s.subrange(0, n as int + 1);
        proof {
            assert(next.drop_last() =~= prev);
            assert(ungrouped(next) =~= ungrouped(prev) + (if e.unique_group == 0 { seq![*e] } else { Seq::empty() })) by {
                reveal(Seq::filter);
            }
        }
        if e.unique_group == 0 {
            selected.push(e.duplicate());
            proof {
                lemma_choice_extend_other(s, n as int, js, picks@);
                assert forall|g: u32| g != 0 && in_group(next, g) implies in_group(picks@, g) by {
                    let i = choose|i: int| 0 <= i < next.len() && (#[trigger] next[i]).unique_group == g;
                    assert(i < n);
                    assert(prev[i] == next[i]);
                }
            }
        } else {
            let p = group_slot(&picks, e.unique_group);
            if p < picks.len() && picks[p].unique_group == e.unique_group {
                let ghost old_picks = picks@;
                if e.status_effect_id < picks[p].status_effect_id {
                    picks.set(p, e.duplicate());
                    proof {
                        lemma_choice_replace(s, n as int, js, old_picks, p as int);
                        js = js.update(p as int, n as int);
                    }
                } else {
                    proof {
                        lemma_choice_keep(s, n as int, js, old_picks, p as int);
                    }
                }
                proof {
                    assert forall|g: u32| g != 0 && in_group(next, g) implies in_group(picks@, g) by {
                        let i = choose|i: int| 0 <= i < next.len() && (#[trigger] next[i]).unique_group == g;
                        if i < n {
                            assert(prev[i] == next[i]);
                            assert(in_group(old_picks, g));
                            let k = choose|k: int| 0 <= k < old_picks.len() && (#[trigger] old_picks[k]).unique_group == g;
                            assert(picks@[k].unique_group == g);
                        } else {
                            assert(picks@[p as int].unique_group == g);
                        }
                    }
                }
            } else {
                let ghost old_picks = picks@;
                picks.insert(p, e.duplicate());
                proof {
                    lemma_choice_insert(s, n as int, js, old_picks, p as int);
                    js = js.insert(p as int, n as int);
                    assert forall|i: int, k: int| 0 <= i < k < picks@.len() implies picks@[i].unique_group
                        < picks@[k].unique_group by {
                        if k < p {
                        } else if k == p {
                        } else if i == p {
                            assert(picks@[k] == old_picks[k - 1]);
                        } else if i < p {
                            assert(picks@[k] == old_picks[k - 1]);
                        } else {
                            assert(picks@[i] == old_picks[i - 1] && picks@[k] == old_picks[k - 1]);
                        }
                    }
                    assert forall|g: u32| g != 0 && in_group(next, g) implies in_group(picks@, g) by {
                        let i = choose|i: int| 0 <= i < next.len() && (#[trigger] next[i]).unique_group == g;
                        if i < n {
                            assert(prev[i] == next[i]);
                            assert(in_group(old_picks, g));
                            let k = choose|k: int| 0 <= k < old_picks.len() && (#[trigger] old_picks[k]).unique_group == g;
                            if k < p {
                                assert(picks@[k] == old_picks[k]);
                            } else {
                                assert(picks@[k + 1] == old_picks[k]);
                            }
                        } else {
                            assert(picks@[p as int].unique_group == g);
                        }
                    }
                    assert forall|k: int| 0 <= k < picks@.len() implies picks@[k].unique_group != 0 by {
                        if k < p {
                            assert(picks@[k] == old_picks[k]);
                        } else if k > p {
                            assert(picks@[k] == old_picks[k - 1]);
                        }
                    }
                }
            }
        }
        n = n + 1;
    }
    proof {
        assert(s.subrange(0, s.len() as int) =~= s);
        assert forall|k: int| 0 <= k < picks@.len() implies counts_for_group(s, #[trigger] picks@[k]) by {
            assert(group_choice(s, js[k]) && s[js[k]] == picks@[k]);
        }
    }
    let ghost chosen = picks@;
    let mut out = selected;
    out.append(&mut picks);
    proof {
        assert(group_picks(s, chosen));
        assert(out@ == ungrouped(s) + chosen);
    }
    out
}

/// Where unique group `group` stands, or would be inserted, among `picks`.
fn group_slot(picks: &Vec<StatusEffectDetails>, group: u32) -> (r: usize)
    requires
        groups_rising(picks@),
    ensures
        r <= picks@.len(),
        forall|i: int| 0 <= i < r ==> picks@[i].unique_group < group,
        forall|i: int| r < i < picks@.len() ==> group < picks@[i].unique_group,
        r < picks@.len() ==> group <= picks@[r as int].unique_group,
{
    let mut i: usize = 0;
    while i < picks.len() && picks[i].unique_group < group
        invariant
            i <= picks@.len(),
            groups_rising(picks@),
            forall|j: int| 0 <= j < i ==> picks@[j].unique_group < group,
        decreases picks@.len() - i,
    {
        i = i + 1;
    }
    i
}

/// A choice in a prefix stays a choice when an effect of another group (or
/// of none) follows.
proof fn lemma_choice_extend_other(s: Seq<StatusEffectDetails>, n: int, js: Seq<int>, picks: Seq<StatusEffectDetails>)
    requires
        0 <= n < s.len(),
        js.len() == picks.len(),
        forall|k: int| 0 <= k < picks.len() ==> group_choice(s.subrange(0, n), #[trigger] js[k]) && s[js[k]] == picks[k],
        forall|k: int| 0 <= k < picks.len() ==> picks[k].unique_group != s[n].unique_group,
    ensures
        forall|k: int| 0 <= k < picks.len() ==> group_choice(s.subrange(0, n + 1), #[trigger] js[k]) && s[js[k]] == picks[k],
{
    assert forall|k: int| 0 <= k < picks.len() implies group_choice(s.subrange(0, n + 1), #[trigger] js[k]) by {
        let j = js[k];
        let prev = s.subrange(0, n);
        let next = s.subrange(0, n + 1);
        assert(group_choice(prev, j));
        assert forall|m: int| 0 <= m < next.len() && (#[trigger] next[m]).unique_group == next[j].unique_group implies next[j].status_effect_id
            < next[m].status_effect_id || (next[j].status_effect_id == next[m].status_effect_id && j <= m) by {
            if m < n {
                assert(prev[m] == next[m]);
            }
        }
    }
}

/// Keeping the pick at `p` when a later effect of its group has no smaller
/// id.
proof fn lemma_choice_keep(s: Seq<StatusEffectDetails>, n: int, js: Seq<int>, picks: Seq<StatusEffectDetails>, p: int)
    requires
        0 <= n < s.len(),
        js.len() == picks.len(),
        0 <= p < picks.len(),
        groups_rising(picks),
        picks[p].unique_group == s[n].unique_group,
        s[n].status_effect_id >= picks[p].status_effect_id,
        forall|k: int| 0 <= k < picks.len() ==> group_choice(s.subrange(0, n), #[trigger] js[k]) && s[js[k]] == picks[k],
    ensures
        forall|k: int| 0 <= k < picks.len() ==> group_choice(s.subrange(0, n + 1), #[trigger] js[k]) && s[js[k]] == picks[k],
{
    assert forall|k: int| 0 <= k < picks.len() implies group_choice(s.subrange(0, n + 1), #[trigger] js[k]) by {
        let j = js[k];
        let prev = s.subrange(0, n);
        let next = s.subrange(0, n + 1);
        assert(group_choice(prev, j));
        assert(j < n);
        assert(next[j] == prev[j]);
        if k != p {
            if k < p {
                assert(picks[k].unique_group < picks[p].unique_group);
            } else {
                assert(picks[p].unique_group < picks[k].unique_group);
            }
        }
        assert forall|m: int| 0 <= m < next.len() && (#[trigger] next[m]).unique_group == next[j].unique_group implies next[j].status_effect_id
            < next[m].status_effect_id || (next[j].status_effect_id == next[m].status_effect_id && j <= m) by {
            if m < n {
                assert(prev[m] == next[m]);
            }
        }
    }
}

/// Replacing the pick at `p` by the effect at `n`, whose id is smaller.
proof fn lemma_choice_replace(s: Seq<StatusEffectDetails>, n: int, js: Seq<int>, picks: Seq<StatusEffectDetails>, p: int)
    requires
        0 <= n < s.len(),
        js.len() == picks.len(),
        0 <= p < picks.len(),
        groups_rising(picks),
        picks[p].unique_group == s[n].unique_group,
        s[n].unique_group != 0,
        s[n].status_effect_id < picks[p].status_effect_id,
        forall|k: int| 0 <= k < picks.len() ==> group_choice(s.subrange(0, n), #[trigger] js[k]) && s[js[k]] == picks[k],
    ensures
        forall|k: int|
            0 <= k < picks.len() ==> group_choice(s.subrange(0, n + 1), #[trigger] js.update(p, n)[k]) && s[js.update(p, n)[k]]
                == picks.update(p, s[n])[k],
{
    let prev = s.subrange(0, n);
    let next = s.subrange(0, n + 1);
    assert forall|k: int| 0 <= k < picks.len() implies group_choice(next, #[trigger] js.update(p, n)[k]) && s[js.update(p, n)[k]]
        == picks.update(p, s[n])[k] by {
        if k == p {
            let jp = js[p];
            assert(group_choice(prev, jp));
            assert forall|m: int| 0 <= m < next.len() && (#[trigger] next[m]).unique_group == next[n].unique_group implies next[n].status_effect_id
                < next[m].status_effect_id || (next[n].status_effect_id == next[m].status_effect_id && n <= m) by {
                if m < n {
                    assert(prev[m] == next[m]);
                    assert(prev[jp] == s[jp]);
                }
            }
        } else {
            let j = js[k];
            assert(group_choice(prev, j));
            assert(next[j] == prev[j]);
            if k < p {
                assert(picks[k].unique_group < picks[p].unique_group);
            } else {
                assert(picks[p].unique_group < picks[k].unique_group);
            }
            assert forall|m: int| 0 <= m < next.len() && (#[trigger] next[m]).unique_group == next[j].unique_group implies next[j].status_effect_id
                < next[m].status_effect_id || (next[j].status_effect_id == next[m].status_effect_id && j <= m) by {
                if m < n {
                    assert(prev[m] == next[m]);
                }
            }
        }
    }
}

/// Inserting the effect at `n`, the first of its group, at `p`.
proof fn lemma_choice_insert(s: Seq<StatusEffectDetails>, n: int, js: Seq<int>, picks: Seq<StatusEffectDetails>, p: int)
    requires
        0 <= n < s.len(),
        js.len() == picks.len(),
        0 <= p <= picks.len(),
        s[n].unique_group != 0,
        forall|k: int| 0 <= k < picks.len() ==> picks[k].unique_group != s[n].unique_group,
        forall|g: u32| g != 0 && in_group(s.subrange(0, n), g) ==> in_group(picks, g),
        forall|k: int| 0 <= k < picks.len() ==> group_choice(s.subrange(0, n), #[trigger] js[k]) && s[js[k]] == picks[k],
    ensures
        forall|k: int|
            0 <= k < picks.len() + 1 ==> group_choice(s.subrange(0, n + 1), #[trigger] js.insert(p, n)[k]) && s[js.insert(p, n)[k]]
                == picks.insert(p, s[n])[k],
{
    let prev = s.subrange(0, n);
    let next = s.subrange(0, n + 1);
    lemma_choice_extend_other(s, n, js, picks);
    assert(!in_group(prev, s[n].unique_group)) by {
        if in_group(prev, s[n].unique_group) {
            assert(in_group(picks, s[n].unique_group));
            let k = choose|k: int| 0 <= k < picks.len() && (#[trigger] picks[k]).unique_group == s[n].unique_group;
            assert(false);
        }
    }
    assert(group_choice(next, n)) by {
        assert forall|m: int| 0 <= m < next.len() && (#[trigger] next[m]).unique_group == next[n].unique_group implies next[n].status_effect_id
            < next[m].status_effect_id || (next[n].status_effect_id == next[m].status_effect_id && n <= m) by {
            if m < n {
                assert(prev[m] == next[m]);
            }
        }
    }
    assert forall|k: int| 0 <= k < picks.len() + 1 implies group_choice(next, #[trigger] js.insert(p, n)[k]) && s[js.insert(p, n)[k]]
        == picks.insert(p, s[n])[k] by {
        if k < p {
            assert(js.insert(p, n)[k] == js[k]);
        } else if k > p {
            assert(js.insert(p, n)[k] == js[k - 1]);
        }
    }
}

} // verus!
