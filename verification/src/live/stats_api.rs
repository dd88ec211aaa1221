//! What the meter sends to the stats service, computed ahead of the request:
//! which characters it asks about, how long it waits between attempts, the
//! hash that names a raid's participants and the esther casts it reports.
use crate::live::id_map::IdMap;
use sha2::Digest;
use vstd::prelude::*;
use vstd::string::StringExecFns;
use vstd::utf8::encode_utf8;

verus! {

broadcast use {vstd::std_specs::hash::group_hash_axioms, vstd::seq_lib::group_to_multiset_ensures};

/// The stats service.
pub const API_URL: &'static str = "https://api.snow.xyz";

/// How often a request for character info is attempted.
pub const RETRIES: u8 = 3u8;

/// The wait after the first failed attempt, in milliseconds; it doubles
/// with each further attempt.
pub const RETRY_DELAY_MS: u64 = 250u64;

/// The most players an inspect request asks about.
pub const MAX_INSPECT_PLAYERS: usize = 16usize;

/// The characters a request for character info asks about, or `None` where
/// no request is made: the encounter's region is not known, or more than
/// sixteen players take part.
pub fn inspect_characters(region_known: bool, players: Vec<String>) -> (r: Option<Vec<String>>)
    ensures
        r is Some <==> (region_known && players@.len() <= MAX_INSPECT_PLAYERS),
        r matches Some(list) ==> list@ == players@,
{
    if !region_known || players.len() > MAX_INSPECT_PLAYERS {
        None
    } else {
        Some(players)
    }
}

/// The wait after failed attempt number `attempt` (counted from one), in
/// milliseconds: `RETRY_DELAY_MS` doubled for each attempt before it, at
/// most `u64::MAX`.
pub fn retry_backoff_ms(attempt: u8) -> (r: u64)
    requires
        1 <= attempt <= 64,
    ensures
        r == (if RETRY_DELAY_MS * vstd::arithmetic::power2::pow2((attempt - 1) as nat) <= u64::MAX {
            RETRY_DELAY_MS * vstd::arithmetic::power2::pow2((attempt - 1) as nat)
        } else {
            u64::MAX as int
        }),
{
    let shift: u64 = (attempt - 1) as u64;
    proof {
        vstd::bits::lemma_u64_pow2_no_overflow(shift as nat);
        vstd::bits::lemma_u64_shl_is_mul(1u64, shift);
    }
    let factor: u64 = 1u64 << shift;
    match RETRY_DELAY_MS.checked_mul(factor) {
        Some(v) => v,
        None => u64::MAX,
    }
}

/// The SHA-256 digest of `data`.
pub uninterp spec fn sha256_of(data: Seq<u8>) -> Seq<u8>;

/// Calls `sha2::Sha256::digest`; the contract names the digest and states
/// its length of 32 bytes.
#[verifier::external_body]
fn sha256_digest(data: &[u8]) -> (r: Vec<u8>)
    ensures
        r@ == sha256_of(data@),
        r@.len() == 32,
{
    sha2::Sha256::digest(data).as_slice().to_vec()
}

/// Whether byte string `a` sorts before or equal to `b`, byte by byte (the
/// order of `str`).
pub open spec fn bytes_le(a: Seq<u8>, b: Seq<u8>) -> bool
    decreases a.len(),
{
    if a.len() == 0 {
        true
    } else if b.len() == 0 {
        false
    } else if a[0] != b[0] {
        a[0] < b[0]
    } else {
        bytes_le(a.drop_first(), b.drop_first())
    }
}

/// Whether a list of byte strings is in ascending order.
pub open spec fn bytes_sorted(s: Seq<Seq<u8>>) -> bool {
    forall|i: int, j: int| 0 <= i < j < s.len() ==> bytes_le(#[trigger] s[i], #[trigger] s[j])
}

/// The UTF-8 bytes of each name.
pub open spec fn name_bytes(names: Seq<String>) -> Seq<Seq<u8>> {
    names.map_values(|n: String| encode_utf8(n@))
}

/// The lowercase hexadecimal digit of `d` (below 16).
pub open spec fn hex_digit(d: int) -> char {
    if d < 10 {
        ((48 + d) as u8) as char
    } else {
        ((87 + d) as u8) as char
    }
}

/// `bytes` written in lowercase hexadecimal, two digits a byte.
pub open spec fn hex_text(bytes: Seq<u8>) -> Seq<char>
    decreases bytes.len(),
{
    if bytes.len() == 0 {
        Seq::empty()
    } else {
        hex_text(bytes.drop_last()) + seq![hex_digit(bytes.last() as int / 16), hex_digit(bytes.last() as int % 16)]
    }
}

/// The hash that names the participants of a raid: the SHA-256 digest of
/// their names sorted and joined, in lowercase hexadecimal.
pub fn participants_hash(names: &Vec<String>) -> (r: String)
    ensures
        is_participants_hash(names@, r@),
{
    let mut sorted: Vec<Vec<u8>> = Vec::new();
    let mut i: usize = 0;
    while i < names.len()
        invariant
            i <= names@.len(),
            bytes_sorted(sorted@.map_values(|b: Vec<u8>| b@)),
            sorted@.map_values(|b: Vec<u8>| b@).to_multiset() == name_bytes(names@.subrange(0, i as int)).to_multiset(),
        decreases names@.len() - i,
    {
        let bytes = names[i].as_str().as_bytes();
        let mut item: Vec<u8> = Vec::new();
        let mut k: usize = 0;
        while k < bytes.len()
            invariant
                k <= bytes@.len(),
                item@ == bytes@.subrange(0, k as int),
            decreases bytes@.len() - k,
        {
            item.push(bytes[k]);
            k = k + 1;
        }
        proof {
            assert(bytes@.subrange(0, bytes@.len() as int) =~= bytes@);
            assert(name_bytes(names@.subrange(0, i as int + 1)) =~= name_bytes(names@.subrange(0, i as int)).push(
                item@,
            ));
        }
        insert_sorted(&mut sorted, item);
        i = i + 1;
    }
    proof {
        assert(names@.subrange(0, names@.len() as int) =~= names@);
    }
    let mut joined: Vec<u8> = Vec::new();
    let mut j: usize = 0;
    while j < sorted.len()
        invariant
            j <= sorted@.len(),
            joined@ == sorted@.map_values(|b: Vec<u8>| b@).subrange(0, j as int).flatten(),
        decreases sorted@.len() - j,
    {
        let part = &sorted[j];
        let ghost before = joined@;
        let mut k: usize = 0;
        while k < part.len()
            invariant
                k <= part@.len(),
                joined@ == before + part@.subrange(0, k as int),
            decreases part@.len() - k,
        {
            joined.push(part[k]);
            k = k + 1;
        }
        proof {
            let views = sorted@.map_values(|b: Vec<u8>| b@);
            assert(part@.subrange(0, part@.len() as int) =~= part@);
            assert(views.subrange(0, j as int + 1) =~= views.subrange(0, j as int).push(part@));
            views.subrange(0, j as int).lemma_flatten_push(part@);
        }
        j = j + 1;
    }
    proof {
        let views = sorted@.map_values(|b: Vec<u8>| b@);
        assert(views.subrange(0, views.len() as int) =~= views);
    }
    let digest = sha256_digest(joined.as_slice());
    hex_string(&digest)
}

/// Whether `hash` is the participants hash of `names` (the `ensures` of
/// `participants_hash`).
pub open spec fn is_participants_hash(names: Seq<String>, hash: Seq<char>) -> bool {
    exists|sorted: Seq<Seq<u8>>|
        {
            &&& bytes_sorted(sorted)
            &&& sorted.to_multiset() == name_bytes(names).to_multiset()
            &&& hash == hex_text(sha256_of(sorted.flatten()))
        }
}

/// The participants hash does not depend on the order of the names: two
/// lists with the same names, each as often, have the same hash.
pub proof fn participants_hash_ignores_order(names1: Seq<String>, names2: Seq<String>, hash1: Seq<char>, hash2: Seq<char>)
    requires
        name_bytes(names1).to_multiset() == name_bytes(names2).to_multiset(),
        is_participants_hash(names1, hash1),
        is_participants_hash(names2, hash2),
    ensures
        hash1 == hash2,
{
    let s1 = choose|sorted: Seq<Seq<u8>>|
        {
            &&& bytes_sorted(sorted)
            &&& sorted.to_multiset() == name_bytes(names1).to_multiset()
            &&& hash1 == hex_text(sha256_of(sorted.flatten()))
        };
    let s2 = choose|sorted: Seq<Seq<u8>>|
        {
            &&& bytes_sorted(sorted)
            &&& sorted.to_multiset() == name_bytes(names2).to_multiset()
            &&& hash2 == hex_text(sha256_of(sorted.flatten()))
        };
    lemma_sorted_unique(s1, s2);
}

/// `bytes_le` is reflexive.
proof fn lemma_bytes_le_refl(a: Seq<u8>)
    ensures
        bytes_le(a, a),
    decreases a.len(),
{
    if a.len() > 0 {
        lemma_bytes_le_refl(a.drop_first());
    }
}

/// `bytes_le` is antisymmetric.
proof fn lemma_bytes_le_antisym(a: Seq<u8>, b: Seq<u8>)
    requires
        bytes_le(a, b),
        bytes_le(b, a),
    ensures
        a == b,
    decreases a.len(),
{
    if a.len() > 0 && b.len() > 0 {
        lemma_bytes_le_antisym(a.drop_first(), b.drop_first());
        assert(a =~= seq![a[0]] + a.drop_first());
        assert(b =~= seq![b[0]] + b.drop_first());
    }
}

/// Two ascending lists with the same items are the same list.
proof fn lemma_sorted_unique(s1: Seq<Seq<u8>>, s2: Seq<Seq<u8>>)
    requires
        bytes_sorted(s1),
        bytes_sorted(s2),
        s1.to_multiset() == s2.to_multiset(),
    ensures
        s1 == s2,
    decreases s1.len(),
{
    vstd::seq_lib::to_multiset_len(s1);
    vstd::seq_lib::to_multiset_len(s2);
    if s1.len() == 0 {
        assert(s1 =~= s2);
    } else {
        let a = s1[0];
        let b = s2[0];
        vstd::seq_lib::to_multiset_contains(s1, a);
        vstd::seq_lib::to_multiset_contains(s2, b);
        assert(s2.to_multiset().count(a) > 0);
        vstd::seq_lib::to_multiset_contains(s2, a);
        vstd::seq_lib::to_multiset_contains(s1, b);
        let k2 = choose|k: int| 0 <= k < s2.len() && s2[k] == a;
        let k1 = choose|k: int| 0 <= k < s1.len() && s1[k] == b;
        if k2 == 0 {
            lemma_bytes_le_refl(b);
        } else {
            assert(bytes_le(s2[0], s2[k2]));
        }
        if k1 == 0 {
            lemma_bytes_le_refl(a);
        } else {
            assert(bytes_le(s1[0], s1[k1]));
        }
        lemma_bytes_le_antisym(a, b);
        vstd::seq_lib::to_multiset_remove(s1, 0);
        vstd::seq_lib::to_multiset_remove(s2, 0);
        assert(s1.remove(0) =~= s1.drop_first());
        assert(s2.remove(0) =~= s2.drop_first());
        assert(bytes_sorted(s1.drop_first())) by {
            assert forall|i: int, j: int| 0 <= i < j < s1.drop_first().len() implies bytes_le(
                #[trigger] s1.drop_first()[i],
                #[trigger] s1.drop_first()[j],
            ) by {
                assert(s1.drop_first()[i] == s1[i + 1] && s1.drop_first()[j] == s1[j + 1]);
            }
        }
        assert(bytes_sorted(s2.drop_first())) by {
            assert forall|i: int, j: int| 0 <= i < j < s2.drop_first().len() implies bytes_le(
                #[trigger] s2.drop_first()[i],
                #[trigger] s2.drop_first()[j],
            ) by {
                assert(s2.drop_first()[i] == s2[i + 1] && s2.drop_first()[j] == s2[j + 1]);
            }
        }
        lemma_sorted_unique(s1.drop_first(), s2.drop_first());
        assert(s1 =~= seq![a] + s1.drop_first());
        assert(s2 =~= seq![b] + s2.drop_first());
    }
}

/// `bytes` in lowercase hexadecimal.
fn hex_string(bytes: &Vec<u8>) -> (r: String)
    ensures
        r@ == hex_text(bytes@),
{
    let mut out = String::new();
    let mut i: usize = 0;
    while i < bytes.len()
        invariant
            i <= bytes@.len(),
            out@ == hex_text(bytes@.subrange(0, i as int)),
        decreases bytes@.len() - i,
    {
        let b = bytes[i];
        out.append(hex_digit_str(b / 16));
        out.append(hex_digit_str(b % 16));
        proof {
            assert(bytes@.subrange(0, i as int + 1).drop_last() =~= bytes@.subrange(0, i as int));
        }
        i = i + 1;
    }
    proof {
        assert(bytes@.subrange(0, bytes@.len() as int) =~= bytes@);
    }
    out
}

/// The hexadecimal digit of `d` as a one-character text.
fn hex_digit_str(d: u8) -> (r: &'static str)
    requires
        d < 16,
    ensures
        r@ == seq![hex_digit(d as int)],
{
    let r = match d {
        0 => "0",
        1 => "1",
        2 => "2",
        3 => "3",
        4 => "4",
        5 => "5",
        6 => "6",
        7 => "7",
        8 => "8",
        9 => "9",
        10 => "a",
        11 => "b",
        12 => "c",
        13 => "d",
        14 => "e",
        _ => "f",
    };
    proof {
        reveal_strlit("0");
        reveal_strlit("1");
        reveal_strlit("2");
        reveal_strlit("3");
        reveal_strlit("4");
        reveal_strlit("5");
        reveal_strlit("6");
        reveal_strlit("7");
        reveal_strlit("8");
        reveal_strlit("9");
        reveal_strlit("a");
        reveal_strlit("b");
        reveal_strlit("c");
        reveal_strlit("d");
        reveal_strlit("e");
        reveal_strlit("f");
        assert(r@ =~= seq![hex_digit(d as int)]);
    }
    r
}

/// `bytes_le` is total.
proof fn lemma_bytes_le_total(a: Seq<u8>, b: Seq<u8>)
    ensures
        bytes_le(a, b) || bytes_le(b, a),
    decreases a.len(),
{
    if a.len() > 0 && b.len() > 0 && a[0] == b[0] {
        lemma_bytes_le_total(a.drop_first(), b.drop_first());
    }
}

/// `bytes_le` is transitive.
proof fn lemma_bytes_le_trans(a: Seq<u8>, b: Seq<u8>, c: Seq<u8>)
    requires
        bytes_le(a, b),
        bytes_le(b, c),
    ensures
        bytes_le(a, c),
    decreases a.len(),
{
    if a.len() > 0 && b.len() > 0 && c.len() > 0 && a[0] == b[0] && b[0] == c[0] {
        lemma_bytes_le_trans(a.drop_first(), b.drop_first(), c.drop_first());
    }
}

/// Inserts `item` into the ascending list `sorted`, keeping it ascending.
fn insert_sorted(sorted: &mut Vec<Vec<u8>>, item: Vec<u8>)
    requires
        bytes_sorted(old(sorted)@.map_values(|b: Vec<u8>| b@)),
    ensures
        bytes_sorted(final(sorted)@.map_values(|b: Vec<u8>| b@)),
        final(sorted)@.map_values(|b: Vec<u8>| b@).to_multiset() == old(sorted)@.map_values(|b: Vec<u8>| b@).to_multiset().insert(
            item@,
        ),
{
    let ghost views = sorted@.map_values(|b: Vec<u8>| b@);
    let mut p: usize = 0;
    while p < sorted.len() && bytes_le_exec(&sorted[p], &item)
        invariant
            p <= sorted@.len(),
            sorted@.map_values(|b: Vec<u8>| b@) == views,
            bytes_sorted(views),
            forall|i: int| 0 <= i < p ==> bytes_le(#[trigger] views[i], item@),
        decreases sorted@.len() - p,
    {
        p = p + 1;
    }
    let ghost x = item@;
    sorted.insert(p, item);
    proof {
        let nv = sorted@.map_values(|b: Vec<u8>| b@);
        assert(nv =~= views.insert(p as int, x));
        if p < views.len() {
            assert(!bytes_le(views[p as int], x));
            lemma_bytes_le_total(views[p as int], x);
        }
        assert forall|k: int| p <= k < views.len() implies bytes_le(x, #[trigger] views[k]) by {
            if k > p {
                lemma_bytes_le_trans(x, views[p as int], views[k]);
            }
        }
        assert forall|i: int, j: int| 0 <= i < j < nv.len() implies bytes_le(#[trigger] nv[i], #[trigger] nv[j]) by {
            if j < p {
                assert(nv[i] == views[i] && nv[j] == views[j]);
            } else if j == p {
                assert(nv[i] == views[i]);
            } else if i == p {
                assert(nv[j] == views[j - 1]);
                if j - 1 > p {
                    lemma_bytes_le_trans(x, views[p as int], views[j - 1]);
                }
            } else if i < p {
                assert(nv[i] == views[i] && nv[j] == views[j - 1]);
                assert(bytes_le(x, views[j - 1]));
                lemma_bytes_le_trans(views[i], x, views[j - 1]);
            } else {
                assert(nv[i] == views[i - 1] && nv[j] == views[j - 1]);
            }
        }
        vstd::seq_lib::to_multiset_insert(views, p as int, x);
    }
}

/// `bytes_le` on two byte strings.
fn bytes_le_exec(a: &Vec<u8>, b: &Vec<u8>) -> (r: bool)
    ensures
        r == bytes_le(a@, b@),
{
    let mut i: usize = 0;
    proof {
        assert(a@.subrange(0, a@.len() as int) =~= a@);
        assert(b@.subrange(0, b@.len() as int) =~= b@);
    }
    while i < a.len()
        invariant
            i <= a@.len(),
            i <= b@.len(),
            forall|k: int| 0 <= k < i ==> k < b@.len() && a@[k] == b@[k],
            bytes_le(a@, b@) == bytes_le(a@.subrange(i as int, a@.len() as int), b@.subrange(i as int, b@.len() as int)),
        decreases a@.len() - i,
    {
        if i >= b.len() {
            proof {
                assert(b@.subrange(i as int, b@.len() as int).len() == 0);
            }
            return false;
        }
        if a[i] != b[i] {
            proof {
                assert(a@.subrange(i as int, a@.len() as int)[0] == a@[i as int]);
                assert(b@.subrange(i as int, b@.len() as int)[0] == b@[i as int]);
            }
            return a[i] < b[i];
        }
        proof {
            assert(a@.subrange(i as int, a@.len() as int).drop_first() =~= a@.subrange(i as int + 1, a@.len() as int));
            assert(b@.subrange(i as int, b@.len() as int).drop_first() =~= b@.subrange(i as int + 1, b@.len() as int));
        }
        i = i + 1;
    }
    true
}

/// The casts of skill `skill_id` among `casts` (pairs of skill id and cast
/// count).
pub open spec fn cast_total(casts: Seq<(u32, u32)>, skill_id: u32) -> int
    decreases casts.len(),
{
    if casts.len() == 0 {
        0
    } else {
        cast_total(casts.drop_last(), skill_id) + (if casts.last().0 == skill_id {
            casts.last().1 as int
        } else {
            0
        })
    }
}

/// Whether some pair of `casts` is of skill `skill_id`.
pub open spec fn cast_listed(casts: Seq<(u32, u32)>, skill_id: u32) -> bool {
    exists|i: int| 0 <= i < casts.len() && (#[trigger] casts[i]).0 == skill_id
}

/// The esther casts of a raid: the casts of each skill among `casts` (pairs
/// of skill id and cast count, one per esther skill), added up by skill.
pub fn esther_casts(casts: &Vec<(u32, u32)>) -> (r: IdMap)
    requires
        forall|id: u32| cast_total(casts@, id) <= u32::MAX,
    ensures
        forall|id: u32| #[trigger] r.contents().contains_key(id) <==> cast_listed(casts@, id),
        forall|id: u32| #[trigger] r.contents().contains_key(id) ==> r.contents()[id] == cast_total(casts@, id),
{
    let mut totals = IdMap::new();
    let mut n: usize = 0;
    while n < casts.len()
        invariant
            n <= casts@.len(),
            forall|id: u32| cast_total(casts@, id) <= u32::MAX,
            forall|id: u32| #[trigger] totals.contents().contains_key(id) <==> cast_listed(casts@.subrange(0, n as int), id),
            forall|id: u32| #[trigger] totals.contents().contains_key(id) ==> totals.contents()[id] == cast_total(
                casts@.subrange(0, n as int),
                id,
            ),
        decreases casts@.len() - n,
    {
        let (skill_id, count) = casts[n];
        let ghost prev = casts@.subrange(0, n as int);
        let ghost next = casts@.subrange(0, n as int + 1);
        proof {
            assert(next.drop_last() =~= prev);
            lemma_cast_total_prefix(casts@, n as int + 1, skill_id);
            lemma_cast_listed_none(prev, skill_id);
        }
        let current: u32 = match totals.get(&skill_id) {
            Some(t) => t,
            None => 0,
        };
        proof {
            assert(totals.contents().contains_key(skill_id) <==> cast_listed(prev, skill_id));
        }
        totals.insert(skill_id, current + count);
        proof {
            assert forall|id: u32| #[trigger] totals.contents().contains_key(id) <==> cast_listed(next, id) by {
                if cast_listed(next, id) {
                    let i = choose|i: int| 0 <= i < next.len() && (#[trigger] next[i]).0 == id;
                    if i < n {
                        assert(prev[i] == next[i]);
                    }
                }
                if cast_listed(prev, id) {
                    let i = choose|i: int| 0 <= i < prev.len() && (#[trigger] prev[i]).0 == id;
                    assert(next[i] == prev[i]);
                }
                if id == skill_id {
                    assert(next[n as int].0 == id);
                }
            }
        }
        n = n + 1;
    }
    proof {
        assert(casts@.subrange(0, casts@.len() as int) =~= casts@);
    }
    totals
}

/// A prefix's total is at most the whole list's.
proof fn lemma_cast_total_prefix(casts: Seq<(u32, u32)>, n: int, skill_id: u32)
    requires
        0 <= n <= casts.len(),
    ensures
        cast_total(casts.subrange(0, n), skill_id) <= cast_total(casts, skill_id),
    decreases casts.len(),
{
    if n < casts.len() {
        assert(casts.drop_last().subrange(0, n) =~= casts.subrange(0, n));
        lemma_cast_total_prefix(casts.drop_last(), n, skill_id);
    } else {
        assert(casts.subrange(0, n) =~= casts);
    }
}

/// A skill no pair names has no casts.
proof fn lemma_cast_listed_none(casts: Seq<(u32, u32)>, skill_id: u32)
    ensures
        !cast_listed(casts, skill_id) ==> cast_total(casts, skill_id) == 0,
    decreases casts.len(),
{
    if casts.len() > 0 && !cast_listed(casts, skill_id) {
        let rest = casts.drop_last();
        assert(!cast_listed(rest, skill_id)) by {
            if cast_listed(rest, skill_id) {
                let i = choose|i: int| 0 <= i < rest.len() && (#[trigger] rest[i]).0 == skill_id;
                assert(casts[i] == rest[i]);
            }
        }
        assert(casts[casts.len() - 1].0 != skill_id);
        lemma_cast_listed_none(rest, skill_id);
    }
}

} // verus!
