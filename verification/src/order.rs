//! Total orders built from smaller ones: on integers, on texts, on pairs
//! compared field by field, and on lists compared by length and then item
//! by item. A comparison gives -1, 0 or 1.
use crate::text::{lemma_text_le_antisym, lemma_text_le_refl, lemma_text_le_total, lemma_text_le_trans, text_le};
use vstd::prelude::*;

verus! {

/// Whether `f` is a total order's comparison: 0 exactly on equal values,
/// reversed when the arguments are swapped, and transitive.
pub open spec fn comparator<K>(f: spec_fn(K, K) -> int) -> bool {
    &&& forall|x: K, y: K| #[trigger] f(x, y) == 0 <==> x == y
    &&& forall|x: K, y: K| #[trigger] f(x, y) == -f(y, x)
    &&& forall|x: K, y: K| -1 <= #[trigger] f(x, y) <= 1
    &&& forall|x: K, y: K, z: K| #[trigger] f(x, y) <= 0 && #[trigger] f(y, z) <= 0 ==> f(x, z) <= 0
}

/// The comparison of integers.
pub open spec fn int_order(a: int, b: int) -> int {
    if a < b {
        -1
    } else if a == b {
        0
    } else {
        1
    }
}

/// The comparison of texts in the order of `str`.
pub open spec fn text_order(a: Seq<char>, b: Seq<char>) -> int {
    if a == b {
        0
    } else if text_le(a, b) {
        -1
    } else {
        1
    }
}

/// The comparison of integers, as a function value.
pub open spec fn int_fn() -> spec_fn(int, int) -> int {
    |a: int, b: int| int_order(a, b)
}

/// The comparison of texts, as a function value.
pub open spec fn text_fn() -> spec_fn(Seq<char>, Seq<char>) -> int {
    |a: Seq<char>, b: Seq<char>| text_order(a, b)
}

/// Pairs compared by their first fields, then their second.
pub open spec fn pair_order<A, B>(f: spec_fn(A, A) -> int, g: spec_fn(B, B) -> int) -> spec_fn((A, B), (A, B)) -> int {
    |x: (A, B), y: (A, B)|
        if f(x.0, y.0) != 0 {
            f(x.0, y.0)
        } else {
            g(x.1, y.1)
        }
}

/// Lists of equal length compared item by item.
pub open spec fn lex<K>(a: Seq<K>, b: Seq<K>, f: spec_fn(K, K) -> int) -> int
    decreases a.len(),
{
    if a.len() == 0 || b.len() == 0 {
        0
    } else if f(a[0], b[0]) != 0 {
        f(a[0], b[0])
    } else {
        lex(a.drop_first(), b.drop_first(), f)
    }
}

/// Lists compared by length, then item by item.
pub open spec fn seq_order<K>(f: spec_fn(K, K) -> int) -> spec_fn(Seq<K>, Seq<K>) -> int {
    |a: Seq<K>, b: Seq<K>|
        if a.len() != b.len() {
            int_order(a.len() as int, b.len() as int)
        } else {
            lex(a, b, f)
        }
}

/// The comparison of integers is a total order's.
pub proof fn lemma_int_order()
    ensures
        comparator(int_fn()),
{
}

/// The comparison of texts is a total order's.
pub proof fn lemma_text_order()
    ensures
        comparator(text_fn()),
{
    let f = text_fn();
    assert forall|x: Seq<char>, y: Seq<char>| #[trigger] f(x, y) == -f(y, x) by {
        if x != y {
            lemma_text_le_total(x, y);
            if text_le(x, y) && text_le(y, x) {
                lemma_text_le_antisym(x, y);
            }
        }
    }
    assert forall|x: Seq<char>, y: Seq<char>, z: Seq<char>| #[trigger] f(x, y) <= 0 && #[trigger] f(y, z) <= 0 implies f(x, z)
        <= 0 by {
        if x == y {
        } else if y == z {
        } else {
            lemma_text_le_trans(x, y, z);
        }
    }
}

/// Comparing pairs field by field with total orders gives a total order.
pub proof fn lemma_pair_order<A, B>(f: spec_fn(A, A) -> int, g: spec_fn(B, B) -> int)
    requires
        comparator(f),
        comparator(g),
    ensures
        comparator(pair_order(f, g)),
{
    let h = pair_order(f, g);
    assert forall|x: (A, B), y: (A, B)| #[trigger] h(x, y) == 0 <==> x == y by {
        if h(x, y) == 0 {
            assert(f(x.0, y.0) == 0);
            assert(g(x.1, y.1) == 0);
        }
        if x == y {
            assert(f(x.0, y.0) == 0);
            assert(g(x.1, y.1) == 0);
        }
    }
    assert forall|x: (A, B), y: (A, B)| #[trigger] h(x, y) == -h(y, x) by {
        assert(f(x.0, y.0) == -f(y.0, x.0));
        assert(g(x.1, y.1) == -g(y.1, x.1));
    }
    assert forall|x: (A, B), y: (A, B)| -1 <= #[trigger] h(x, y) <= 1 by {
        assert(-1 <= f(x.0, y.0) <= 1);
        assert(-1 <= g(x.1, y.1) <= 1);
    }
    assert forall|x: (A, B), y: (A, B), z: (A, B)| #[trigger] h(x, y) <= 0 && #[trigger] h(y, z) <= 0 implies h(x, z) <= 0 by {
        let a = f(x.0, y.0);
        let b = f(y.0, z.0);
        assert(a <= 0 && b <= 0);
        assert(f(x.0, z.0) <= 0);
        if f(x.0, z.0) == 0 {
            assert(x.0 == z.0);
            assert(f(y.0, x.0) == -a);
            if a != 0 {
                assert(f(x.0, y.0) < 0);
                assert(f(y.0, x.0) > 0);
            }
            assert(a == 0 && b == 0);
            assert(g(x.1, y.1) <= 0 && g(y.1, z.1) <= 0);
        }
    }
}

/// Item by item comparison of lists of one length, with a total order on
/// the items, is a total order's.
proof fn lemma_lex<K>(f: spec_fn(K, K) -> int, a: Seq<K>, b: Seq<K>, c: Seq<K>)
    requires
        comparator(f),
        a.len() == b.len(),
        b.len() == c.len(),
    ensures
        lex(a, b, f) == 0 <==> a == b,
        lex(a, b, f) == -lex(b, a, f),
        -1 <= lex(a, b, f) <= 1,
        lex(a, b, f) <= 0 && lex(b, c, f) <= 0 ==> lex(a, c, f) <= 0,
    decreases a.len(),
{
    if a.len() > 0 {
        lemma_lex(f, a.drop_first(), b.drop_first(), c.drop_first());
        assert(f(a[0], b[0]) == -f(b[0], a[0]));
        assert(-1 <= f(a[0], b[0]) <= 1);
        assert(a =~= seq![a[0]] + a.drop_first());
        assert(b =~= seq![b[0]] + b.drop_first());
        if lex(a, b, f) <= 0 && lex(b, c, f) <= 0 {
            let p = f(a[0], b[0]);
            let q = f(b[0], c[0]);
            assert(p <= 0 && q <= 0);
            assert(f(a[0], c[0]) <= 0);
            if f(a[0], c[0]) == 0 {
                assert(a[0] == c[0]);
                assert(f(b[0], a[0]) == -p);
                assert(p == 0 && q == 0);
            }
        }
        if a == b {
            assert(f(a[0], b[0]) == 0);
        }
        if lex(a, b, f) == 0 {
            assert(f(a[0], b[0]) == 0);
            assert(a[0] == b[0]);
        }
    } else {
        assert(a =~= b);
    }
}

/// Comparing lists by length and then item by item, with a total order on
/// the items, gives a total order.
pub proof fn lemma_seq_order<K>(f: spec_fn(K, K) -> int)
    requires
        comparator(f),
    ensures
        comparator(seq_order(f)),
{
    let h = seq_order(f);
    assert forall|x: Seq<K>, y: Seq<K>| #[trigger] h(x, y) == 0 <==> x == y by {
        if x.len() == y.len() {
            lemma_lex(f, x, y, y);
        }
    }
    assert forall|x: Seq<K>, y: Seq<K>| #[trigger] h(x, y) == -h(y, x) by {
        if x.len() == y.len() {
            lemma_lex(f, x, y, y);
        }
    }
    assert forall|x: Seq<K>, y: Seq<K>| -1 <= #[trigger] h(x, y) <= 1 by {
        if x.len() == y.len() {
            lemma_lex(f, x, y, y);
        }
    }
    assert forall|x: Seq<K>, y: Seq<K>, z: Seq<K>| #[trigger] h(x, y) <= 0 && #[trigger] h(y, z) <= 0 implies h(x, z) <= 0 by {
        if x.len() == y.len() && y.len() == z.len() {
            lemma_lex(f, x, y, z);
        }
    }
}

} // verus!
