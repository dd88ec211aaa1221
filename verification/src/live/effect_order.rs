//! The order in which a player's active combat effects are evaluated: by
//! owner, combat effect id and source, then by the effect's own data.
use crate::live::player_stats::ActiveCombatEffect;
use crate::models::data::{CombatEffectAction, CombatEffectCondition, CombatEffectDetail};
use crate::order::{
    comparator, int_fn, int_order, lemma_int_order, lemma_pair_order, lemma_seq_order, lemma_text_order, lex, pair_order, seq_order,
    text_fn,
};
use crate::text::compare_text;
use vstd::prelude::*;

verus! {

pub type ConditionKey = (Seq<char>, (Seq<char>, int));

pub type ActionKey = (Seq<char>, (Seq<char>, Seq<int>));

pub type DetailKey = (int, (int, (Seq<ConditionKey>, Seq<ActionKey>)));

pub type EffectKey = (int, (int, (Seq<char>, DetailKey)));

/// What a condition is compared by: its type, actor type and argument.
pub open spec fn condition_key(c: CombatEffectCondition) -> ConditionKey {
    (c.condition_type@, (c.actor_type@, c.arg as int))
}

/// What an action is compared by: its type, actor type and arguments.
pub open spec fn action_key(a: CombatEffectAction) -> ActionKey {
    (a.action_type@, (a.actor_type@, a.args@.map_values(|x: i32| x as int)))
}

/// What a combat effect is compared by: ratio, cooldown, conditions, then
/// actions.
pub open spec fn detail_key(d: CombatEffectDetail) -> DetailKey {
    (
        d.ratio as int,
        (
            d.cooldown as int,
            (
                d.conditions@.map_values(|c: CombatEffectCondition| condition_key(c)),
                d.actions@.map_values(|a: CombatEffectAction| action_key(a)),
            ),
        ),
    )
}

/// What an active combat effect is compared by.
pub open spec fn effect_key(e: ActiveCombatEffect) -> EffectKey {
    (e.owner_id as int, (e.combat_effect_id as int, (e.source@, detail_key(e.effect))))
}

pub open spec fn condition_order() -> spec_fn(ConditionKey, ConditionKey) -> int {
    pair_order(text_fn(), pair_order(text_fn(), int_fn()))
}

pub open spec fn action_order() -> spec_fn(ActionKey, ActionKey) -> int {
    pair_order(text_fn(), pair_order(text_fn(), seq_order(int_fn())))
}

pub open spec fn detail_order() -> spec_fn(DetailKey, DetailKey) -> int {
    pair_order(int_fn(), pair_order(int_fn(), pair_order(seq_order(condition_order()), seq_order(action_order()))))
}

pub open spec fn effect_order() -> spec_fn(EffectKey, EffectKey) -> int {
    pair_order(int_fn(), pair_order(int_fn(), pair_order(text_fn(), detail_order())))
}

/// The orders above are total orders.
pub proof fn lemma_effect_orders()
    ensures
        comparator(condition_order()),
        comparator(action_order()),
        comparator(detail_order()),
        comparator(effect_order()),
{
    lemma_int_order();
    lemma_text_order();
    lemma_pair_order(text_fn(), int_fn());
    lemma_pair_order(text_fn(), pair_order(text_fn(), int_fn()));
    lemma_seq_order(int_fn());
    lemma_pair_order(text_fn(), seq_order(int_fn()));
    lemma_pair_order(text_fn(), pair_order(text_fn(), seq_order(int_fn())));
    lemma_seq_order(condition_order());
    lemma_seq_order(action_order());
    lemma_pair_order(seq_order(condition_order()), seq_order(action_order()));
    lemma_pair_order(int_fn(), pair_order(seq_order(condition_order()), seq_order(action_order())));
    lemma_pair_order(int_fn(), pair_order(int_fn(), pair_order(seq_order(condition_order()), seq_order(action_order()))));
    lemma_pair_order(text_fn(), detail_order());
    lemma_pair_order(int_fn(), pair_order(text_fn(), detail_order()));
    lemma_pair_order(int_fn(), pair_order(int_fn(), pair_order(text_fn(), detail_order())));
}

fn compare_int(a: i64, b: i64) -> (r: i8)
    ensures
        r == int_order(a as int, b as int),
{
    if a < b {
        -1
    } else if a == b {
        0
    } else {
        1
    }
}

fn compare_size(a: usize, b: usize) -> (r: i8)
    ensures
        r == int_order(a as int, b as int),
{
    if a < b {
        -1
    } else if a == b {
        0
    } else {
        1
    }
}

/// Compares two conditions: -1, 0 or 1.
pub fn compare_combat_effect_condition(lhs: &CombatEffectCondition, rhs: &CombatEffectCondition) -> (r: i8)
    ensures
        r == condition_order()(condition_key(*lhs), condition_key(*rhs)),
{
    let c = compare_text(lhs.condition_type.as_str(), rhs.condition_type.as_str());
    if c != 0 {
        return c;
    }
    let c = compare_text(lhs.actor_type.as_str(), rhs.actor_type.as_str());
    if c != 0 {
        return c;
    }
    compare_int(lhs.arg as i64, rhs.arg as i64)
}

/// Compares two actions: -1, 0 or 1.
pub fn compare_combat_effect_action(lhs: &CombatEffectAction, rhs: &CombatEffectAction) -> (r: i8)
    ensures
        r == action_order()(action_key(*lhs), action_key(*rhs)),
{
    let c = compare_text(lhs.action_type.as_str(), rhs.action_type.as_str());
    if c != 0 {
        return c;
    }
    let c = compare_text(lhs.actor_type.as_str(), rhs.actor_type.as_str());
    if c != 0 {
        return c;
    }
    let ghost ka = action_key(*lhs).1.1;
    let ghost kb = action_key(*rhs).1.1;
    if lhs.args.len() != rhs.args.len() {
        return compare_size(lhs.args.len(), rhs.args.len());
    }
    let mut i: usize = 0;
    proof {
        assert(ka.subrange(0, ka.len() as int) =~= ka);
        assert(kb.subrange(0, kb.len() as int) =~= kb);
    }
    while i < lhs.args.len()
        invariant
            lhs.args@.len() == rhs.args@.len(),
            i <= lhs.args@.len(),
            ka == action_key(*lhs).1.1,
            lhs.action_type@ == rhs.action_type@,
            lhs.actor_type@ == rhs.actor_type@,
            kb == action_key(*rhs).1.1,
            lex(ka, kb, int_fn()) == lex(ka.subrange(i as int, ka.len() as int), kb.subrange(i as int, kb.len() as int), int_fn()),
        decreases lhs.args@.len() - i,
    {
        let c = compare_int(lhs.args[i] as i64, rhs.args[i] as i64);
        proof {
            assert(ka.subrange(i as int, ka.len() as int).drop_first() =~= ka.subrange(i + 1, ka.len() as int));
            assert(kb.subrange(i as int, kb.len() as int).drop_first() =~= kb.subrange(i + 1, kb.len() as int));
            assert(ka.subrange(i as int, ka.len() as int)[0] == ka[i as int]);
            assert(kb.subrange(i as int, kb.len() as int)[0] == kb[i as int]);
            assert(int_fn()(ka[i as int], kb[i as int]) == c);
        }
        if c != 0 {
            proof {
                assert(lex(ka.subrange(i as int, ka.len() as int), kb.subrange(i as int, kb.len() as int), int_fn()) == c);
                assert(lex(ka, kb, int_fn()) == c);
                assert(ka.len() == kb.len());
                assert(seq_order(int_fn())(ka, kb) == c);
            }
            return c;
        }
        i = i + 1;
    }
    0
}

/// Compares two combat effects: -1, 0 or 1.
pub fn compare_combat_effect_detail(lhs: &CombatEffectDetail, rhs: &CombatEffectDetail) -> (r: i8)
    ensures
        r == detail_order()(detail_key(*lhs), detail_key(*rhs)),
{
    let c = compare_int(lhs.ratio as i64, rhs.ratio as i64);
    if c != 0 {
        return c;
    }
    let c = compare_int(lhs.cooldown as i64, rhs.cooldown as i64);
    if c != 0 {
        return c;
    }
    let ghost ca = detail_key(*lhs).1.1.0;
    let ghost cb = detail_key(*rhs).1.1.0;
    if lhs.conditions.len() != rhs.conditions.len() {
        return compare_size(lhs.conditions.len(), rhs.conditions.len());
    }
    let mut i: usize = 0;
    proof {
        assert(ca.subrange(0, ca.len() as int) =~= ca);
        assert(cb.subrange(0, cb.len() as int) =~= cb);
    }
    while i < lhs.conditions.len()
        invariant
            lhs.conditions@.len() == rhs.conditions@.len(),
            i <= lhs.conditions@.len(),
            ca == detail_key(*lhs).1.1.0,
            lhs.ratio == rhs.ratio,
            lhs.cooldown == rhs.cooldown,
            cb == detail_key(*rhs).1.1.0,
            lex(ca, cb, condition_order()) == lex(
                ca.subrange(i as int, ca.len() as int),
                cb.subrange(i as int, cb.len() as int),
                condition_order(),
            ),
        decreases lhs.conditions@.len() - i,
    {
        let c = compare_combat_effect_condition(&lhs.conditions[i], &rhs.conditions[i]);
        proof {
            assert(ca.subrange(i as int, ca.len() as int).drop_first() =~= ca.subrange(i + 1, ca.len() as int));
            assert(cb.subrange(i as int, cb.len() as int).drop_first() =~= cb.subrange(i + 1, cb.len() as int));
            assert(ca.subrange(i as int, ca.len() as int)[0] == ca[i as int]);
            assert(cb.subrange(i as int, cb.len() as int)[0] == cb[i as int]);
            assert(condition_order()(ca[i as int], cb[i as int]) == c);
        }
        if c != 0 {
            return c;
        }
        i = i + 1;
    }
    let ghost aa = detail_key(*lhs).1.1.1;
    let ghost ab = detail_key(*rhs).1.1.1;
    if lhs.actions.len() != rhs.actions.len() {
        return compare_size(lhs.actions.len(), rhs.actions.len());
    }
    let mut j: usize = 0;
    proof {
        assert(aa.subrange(0, aa.len() as int) =~= aa);
        assert(ab.subrange(0, ab.len() as int) =~= ab);
        lemma_effect_orders();
        assert(lex(ca, cb, condition_order()) == 0);
        lemma_seq_order(condition_order());
        assert(seq_order(condition_order())(ca, cb) == 0);
        assert(ca == cb);
    }
    while j < lhs.actions.len()
        invariant
            lhs.actions@.len() == rhs.actions@.len(),
            j <= lhs.actions@.len(),
            aa == detail_key(*lhs).1.1.1,
            lhs.ratio == rhs.ratio,
            lhs.cooldown == rhs.cooldown,
            ca == detail_key(*lhs).1.1.0,
            cb == detail_key(*rhs).1.1.0,
            ca == cb,
            ab == detail_key(*rhs).1.1.1,
            lex(aa, ab, action_order()) == lex(
                aa.subrange(j as int, aa.len() as int),
                ab.subrange(j as int, ab.len() as int),
                action_order(),
            ),
        decreases lhs.actions@.len() - j,
    {
        let c = compare_combat_effect_action(&lhs.actions[j], &rhs.actions[j]);
        proof {
            assert(aa.subrange(j as int, aa.len() as int).drop_first() =~= aa.subrange(j + 1, aa.len() as int));
            assert(ab.subrange(j as int, ab.len() as int).drop_first() =~= ab.subrange(j + 1, ab.len() as int));
            assert(aa.subrange(j as int, aa.len() as int)[0] == aa[j as int]);
            assert(ab.subrange(j as int, ab.len() as int)[0] == ab[j as int]);
            assert(action_order()(aa[j as int], ab[j as int]) == c);
        }
        if c != 0 {
            proof {
                lemma_effect_orders();
                lemma_seq_order(condition_order());
                assert(seq_order(condition_order())(ca, cb) == 0);
                assert(lex(aa, ab, action_order()) == c);
            }
            return c;
        }
        j = j + 1;
    }
    0
}

/// Compares two active combat effects: -1, 0 or 1.
pub fn compare_active_combat_effects(lhs: &ActiveCombatEffect, rhs: &ActiveCombatEffect) -> (r: i8)
    ensures
        r == effect_order()(effect_key(*lhs), effect_key(*rhs)),
{
    if lhs.owner_id != rhs.owner_id {
        return if lhs.owner_id < rhs.owner_id {
            -1
        } else {
            1
        };
    }
    let c = compare_int(lhs.combat_effect_id as i64, rhs.combat_effect_id as i64);
    if c != 0 {
        return c;
    }
    let c = compare_text(lhs.source.as_str(), rhs.source.as_str());
    if c != 0 {
        return c;
    }
    compare_combat_effect_detail(&lhs.effect, &rhs.effect)
}

/// Whether `sorted` is `input` put in order by `effect_order`, with
/// effects that compare as equal in their order in `input`: `perm` gives the
/// place of each in `input`.
pub open spec fn stably_sorted_effects(input: Seq<ActiveCombatEffect>, sorted: Seq<ActiveCombatEffect>, perm: Seq<int>) -> bool {
    &&& sorted.len() == input.len()
    &&& perm.len() == sorted.len()
    &&& forall|k: int| 0 <= k < perm.len() ==> 0 <= #[trigger] perm[k] < input.len() && sorted[k] == input[perm[k]]
    &&& forall|k1: int, k2: int| 0 <= k1 < k2 < perm.len() ==> #[trigger] perm[k1] != #[trigger] perm[k2]
    &&& forall|k1: int, k2: int|
        0 <= k1 < k2 < sorted.len() ==> effect_order()(effect_key(#[trigger] sorted[k1]), effect_key(#[trigger] sorted[k2])) <= 0
    &&& forall|k1: int, k2: int|
        0 <= k1 < k2 < sorted.len() && effect_key(#[trigger] sorted[k1]) == effect_key(#[trigger] sorted[k2]) ==> perm[k1]
            < perm[k2]
}

/// Orders a player's active combat effects by owner, combat effect id,
/// source and then the effect's data (see `effect_order`); effects that
/// compare as equal keep their order.
#[verifier::rlimit(60)]
pub fn sort_active_combat_effects(entries: &mut Vec<ActiveCombatEffect>)
    ensures
        exists|perm: Seq<int>| stably_sorted_effects(old(entries)@, final(entries)@, perm),
{
    let ghost src = entries@;
    let ghost n = src.len();
    let ghost f = effect_order();
    let mut out: Vec<ActiveCombatEffect> = Vec::new();
    let ghost mut perm: Seq<int> = Seq::empty();
    proof {
        assert(src.subrange(0, n as int) =~= src);
        lemma_effect_orders();
    }
    while entries.len() > 0
        invariant
            comparator(f),
            f == effect_order(),
            entries@ == src.subrange(0, entries@.len() as int),
            entries@.len() <= n,
            n == src.len(),
            out@.len() + entries@.len() == n,
            perm.len() == out@.len(),
            forall|k: int| 0 <= k < perm.len() ==> entries@.len() <= #[trigger] perm[k] < n && out@[k] == src[perm[k]],
            forall|k1: int, k2: int| 0 <= k1 < k2 < perm.len() ==> #[trigger] perm[k1] != #[trigger] perm[k2],
            forall|k1: int, k2: int| 0 <= k1 < k2 < out@.len() ==> f(effect_key(#[trigger] out@[k1]), effect_key(#[trigger] out@[k2])) <= 0,
            forall|k1: int, k2: int|
                0 <= k1 < k2 < out@.len() && effect_key(#[trigger] out@[k1]) == effect_key(#[trigger] out@[k2]) ==> perm[k1]
                    < perm[k2],
        decreases entries@.len(),
    {
        let ghost idx = entries@.len() - 1;
        let x = match entries.pop() {
            Some(x) => x,
            None => {
                return;
            },
        };
        proof {
            assert(x == src[idx]);
            assert(entries@ =~= src.subrange(0, idx));
        }
        let mut pos: usize = 0;
        while pos < out.len() && compare_active_combat_effects(&out[pos], &x) < 0
            invariant
                comparator(f),
                f == effect_order(),
                pos <= out@.len(),
                forall|a: int| 0 <= a < pos ==> f(effect_key(#[trigger] out@[a]), effect_key(x)) < 0,
            decreases out@.len() - pos,
        {
            pos = pos + 1;
        }
        let ghost before = out@;
        let ghost before_perm = perm;
        let ghost kx = effect_key(x);
        proof {
            if pos < before.len() {
                assert(f(effect_key(before[pos as int]), kx) >= 0);
                assert(f(kx, effect_key(before[pos as int])) <= 0);
            }
            assert forall|c: int| pos <= c < before.len() implies f(kx, effect_key(#[trigger] before[c])) <= 0 by {
                if c > pos {
                    assert(f(effect_key(before[pos as int]), effect_key(before[c])) <= 0);
                }
            }
        }
        out.insert(pos, x);
        proof {
            perm = before_perm.insert(pos as int, idx);
            assert forall|k1: int, k2: int| 0 <= k1 < k2 < out@.len() implies f(
                effect_key(#[trigger] out@[k1]),
                effect_key(#[trigger] out@[k2]),
            ) <= 0 by {
                if k2 < pos {
                    assert(out@[k1] == before[k1] && out@[k2] == before[k2]);
                } else if k2 == pos {
                    assert(out@[k1] == before[k1]);
                } else if k1 == pos {
                    assert(out@[k2] == before[k2 - 1]);
                } else if k1 < pos {
                    assert(out@[k1] == before[k1] && out@[k2] == before[k2 - 1]);
                    assert(f(effect_key(before[k1]), kx) <= 0);
                    assert(f(kx, effect_key(before[k2 - 1])) <= 0);
                } else {
                    assert(out@[k1] == before[k1 - 1] && out@[k2] == before[k2 - 1]);
                }
            }
            assert forall|k: int| 0 <= k < perm.len() implies entries@.len() <= #[trigger] perm[k] < n && out@[k] == src[perm[k]] by {
                if k < pos {
                    assert(perm[k] == before_perm[k]);
                } else if k > pos {
                    assert(perm[k] == before_perm[k - 1]);
                }
            }
            assert forall|k1: int, k2: int| 0 <= k1 < k2 < perm.len() implies #[trigger] perm[k1] != #[trigger] perm[k2] by {
                if k1 != pos && k2 != pos {
                    let a1 = if k1 < pos { k1 } else { k1 - 1 };
                    let a2 = if k2 < pos { k2 } else { k2 - 1 };
                    assert(perm[k1] == before_perm[a1] && perm[k2] == before_perm[a2]);
                } else if k1 == pos {
                    assert(perm[k2] == before_perm[k2 - 1]);
                } else {
                    assert(perm[k1] == before_perm[k1]);
                }
            }
            assert forall|k1: int, k2: int|
                0 <= k1 < k2 < out@.len() && effect_key(#[trigger] out@[k1]) == effect_key(#[trigger] out@[k2]) implies perm[k1]
                < perm[k2] by {
                if k2 < pos {
                    assert(out@[k1] == before[k1] && out@[k2] == before[k2]);
                    assert(perm[k1] == before_perm[k1] && perm[k2] == before_perm[k2]);
                } else if k2 == pos {
                    assert(out@[k1] == before[k1]);
                    assert(f(effect_key(before[k1]), kx) < 0);
                } else if k1 == pos {
                    assert(perm[k2] == before_perm[k2 - 1]);
                } else if k1 < pos {
                    assert(out@[k1] == before[k1] && out@[k2] == before[k2 - 1]);
                    assert(perm[k1] == before_perm[k1] && perm[k2] == before_perm[k2 - 1]);
                } else {
                    assert(out@[k1] == before[k1 - 1] && out@[k2] == before[k2 - 1]);
                    assert(perm[k1] == before_perm[k1 - 1] && perm[k2] == before_perm[k2 - 1]);
                }
            }
        }
    }
    proof {
        assert(stably_sorted_effects(src, out@, perm));
    }
    *entries = out;
}

} // verus!
