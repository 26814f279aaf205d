//! Lexicographic order on 32-byte strings, strictly sorted lists of them,
//! and sorting.

use vstd::prelude::*;
use crate::bytes::bytes32_eq;
use vstd::relations::{sorted_by, total_ordering};

verus! {

/// `a` comes strictly before `b` in byte-wise lexicographic order.
pub open spec fn lex_lt(a: [u8; 32], b: [u8; 32]) -> bool {
    exists|k: int| 0 <= k < 32 && #[trigger] a@[k] < b@[k] && (forall|j: int| 0 <= j < k ==> a@[j] == b@[j])
}

/// A list strictly increasing in lexicographic order.
pub open spec fn strictly_sorted(s: Seq<[u8; 32]>) -> bool {
    forall|i: int, j: int| 0 <= i < j < s.len() ==> lex_lt(#[trigger] s[i], #[trigger] s[j])
}

/// A list non-decreasing in lexicographic order.
pub open spec fn sorted(s: Seq<[u8; 32]>) -> bool {
    forall|i: int, j: int| 0 <= i < j < s.len() ==> !lex_lt(#[trigger] s[j], #[trigger] s[i])
}

/// `a` does not come after `b`.
pub open spec fn lex_le(a: [u8; 32], b: [u8; 32]) -> bool {
    !lex_lt(b, a)
}

/// `lex_le` as a relation value.
pub open spec fn lex_le_rel() -> spec_fn([u8; 32], [u8; 32]) -> bool {
    |a: [u8; 32], b: [u8; 32]| lex_le(a, b)
}

/// The list sorted in lexicographic order.
pub open spec fn sort_spec(s: Seq<[u8; 32]>) -> Seq<[u8; 32]> {
    s.sort_by(lex_le_rel())
}

/// Law: `lex_le` is a total order.
pub proof fn lemma_lex_le_total_ordering()
    ensures
        total_ordering(lex_le_rel()),
{
    let r = lex_le_rel();
    assert forall|a: [u8; 32]| #[trigger] r(a, a) by {
        lemma_lex_irreflexive(a);
    }
    assert forall|a: [u8; 32], b: [u8; 32]| #[trigger] r(a, b) && #[trigger] r(b, a) implies a == b by {
        lemma_lex_total(a, b);
    }
    assert forall|a: [u8; 32], b: [u8; 32], c: [u8; 32]| #[trigger] r(a, b) && #[trigger] r(b, c) implies r(a, c) by {
        lemma_lex_total(a, b);
        lemma_lex_total(b, c);
        lemma_lex_total(a, c);
        if lex_lt(c, a) {
            if a == b {
            } else if b == c {
            } else {
                lemma_lex_transitive(a, b, c);
                lemma_lex_asymmetric(a, c);
            }
        }
    }
    assert forall|a: [u8; 32], b: [u8; 32]| #[trigger] r(a, b) || #[trigger] r(b, a) by {
        lemma_lex_total(a, b);
        if lex_lt(a, b) {
            lemma_lex_asymmetric(a, b);
        }
    }
}

/// Law: lists that hold the same strings, each as often, sort to the same
/// list.
pub proof fn lemma_sort_permutation(a: Seq<[u8; 32]>, b: Seq<[u8; 32]>)
    requires
        a.to_multiset() == b.to_multiset(),
    ensures
        sort_spec(a) == sort_spec(b),
{
    lemma_lex_le_total_ordering();
    a.lemma_sort_by_ensures(lex_le_rel());
    b.lemma_sort_by_ensures(lex_le_rel());
    vstd::seq_lib::lemma_sorted_unique(sort_spec(a), sort_spec(b), lex_le_rel());
}

/// Law: lexicographic order is irreflexive.
pub proof fn lemma_lex_irreflexive(a: [u8; 32])
    ensures
        !lex_lt(a, a),
{
}

/// Law: lexicographic order is transitive.
pub proof fn lemma_lex_transitive(a: [u8; 32], b: [u8; 32], c: [u8; 32])
    requires
        lex_lt(a, b),
        lex_lt(b, c),
    ensures
        lex_lt(a, c),
{
    let k1 = choose|k: int| 0 <= k < 32 && #[trigger] a@[k] < b@[k] && (forall|j: int| 0 <= j < k ==> a@[j] == b@[j]);
    let k2 = choose|k: int| 0 <= k < 32 && #[trigger] b@[k] < c@[k] && (forall|j: int| 0 <= j < k ==> b@[j] == c@[j]);
    let k = if k1 <= k2 { k1 } else { k2 };
    assert(a@[k] < c@[k]);
    assert(forall|j: int| 0 <= j < k ==> a@[j] == c@[j]);
}

/// Law: two different strings are ordered one way or the other.
pub proof fn lemma_lex_total(a: [u8; 32], b: [u8; 32])
    ensures
        a == b || lex_lt(a, b) || lex_lt(b, a),
{
    if a@ =~= b@ {
        vstd::array::axiom_array_ext_equal(a, b);
    } else {
        assert(a@.len() == 32 && b@.len() == 32);
        let f = first_difference(a, b, 0);
        if a@[f] < b@[f] {
            assert(lex_lt(a, b));
        } else {
            assert(b@[f] < a@[f]);
            assert(lex_lt(b, a));
        }
    }
}

proof fn first_difference(a: [u8; 32], b: [u8; 32], i: int) -> (f: int)
    requires
        0 <= i <= 32,
        forall|j: int| 0 <= j < i ==> a@[j] == b@[j],
        exists|k: int| i <= k < 32 && a@[k] != b@[k],
    ensures
        i <= f < 32,
        a@[f] != b@[f],
        forall|j: int| 0 <= j < f ==> a@[j] == b@[j],
    decreases 32 - i,
{
    if a@[i] != b@[i] {
        i
    } else {
        first_difference(a, b, i + 1)
    }
}

/// Law: `lex_lt` is asymmetric.
pub proof fn lemma_lex_asymmetric(a: [u8; 32], b: [u8; 32])
    requires
        lex_lt(a, b),
    ensures
        !lex_lt(b, a),
{
    if lex_lt(b, a) {
        lemma_lex_transitive(a, b, a);
    }
}

/// Law: a strictly sorted list is determined by its elements: two strictly
/// sorted lists holding the same strings are equal.
pub proof fn lemma_strictly_sorted_unique(a: Seq<[u8; 32]>, b: Seq<[u8; 32]>)
    requires
        strictly_sorted(a),
        strictly_sorted(b),
        a.to_set() == b.to_set(),
    ensures
        a == b,
    decreases a.len(),
{
    if a.len() == 0 {
        if b.len() > 0 {
            assert(b.to_set().contains(b[0]));
            assert(a.to_set().contains(b[0]));
        }
        assert(a =~= b);
    } else {
        assert(a.to_set().contains(a[0]));
        assert(b.to_set().contains(a[0]));
        let j = choose|j: int| 0 <= j < b.len() && b[j] == a[0];
        assert(b.to_set().contains(b[0]));
        assert(a.to_set().contains(b[0]));
        let i = choose|i: int| 0 <= i < a.len() && a[i] == b[0];
        if a[0] != b[0] {
            assert(i > 0);
            assert(j > 0);
            assert(lex_lt(a[0], a[i]));
            assert(lex_lt(b[0], b[j]));
            lemma_lex_asymmetric(a[0], b[0]);
        }
        let a1 = a.drop_first();
        let b1 = b.drop_first();
        assert(strictly_sorted(a1)) by {
            assert forall|x: int, y: int| 0 <= x < y < a1.len() implies lex_lt(#[trigger] a1[x], #[trigger] a1[y]) by {
                assert(a1[x] == a[x + 1] && a1[y] == a[y + 1]);
            }
        }
        assert(strictly_sorted(b1)) by {
            assert forall|x: int, y: int| 0 <= x < y < b1.len() implies lex_lt(#[trigger] b1[x], #[trigger] b1[y]) by {
                assert(b1[x] == b[x + 1] && b1[y] == b[y + 1]);
            }
        }
        assert(a1.to_set() =~= b1.to_set()) by {
            assert forall|x: [u8; 32]| a1.to_set().contains(x) implies b1.to_set().contains(x) by {
                let k = choose|k: int| 0 <= k < a1.len() && a1[k] == x;
                assert(a[k + 1] == x);
                assert(lex_lt(a[0], a[k + 1]));
                lemma_lex_irreflexive(x);
                assert(x != a[0]);
                assert(a.to_set().contains(x));
                assert(b.to_set().contains(x));
                let m = choose|m: int| 0 <= m < b.len() && b[m] == x;
                assert(m != 0);
                assert(b1[m - 1] == x);
            }
            assert forall|x: [u8; 32]| b1.to_set().contains(x) implies a1.to_set().contains(x) by {
                let k = choose|k: int| 0 <= k < b1.len() && b1[k] == x;
                assert(b[k + 1] == x);
                assert(lex_lt(b[0], b[k + 1]));
                lemma_lex_irreflexive(x);
                assert(x != b[0]);
                assert(b.to_set().contains(x));
                assert(a.to_set().contains(x));
                let m = choose|m: int| 0 <= m < a.len() && a[m] == x;
                assert(m != 0);
                assert(a1[m - 1] == x);
            }
        }
        lemma_strictly_sorted_unique(a1, b1);
        assert(a =~= b) by {
            assert forall|x: int| 0 <= x < a.len() implies a[x] == b[x] by {
                if x > 0 {
                    assert(a[x] == a1[x - 1]);
                    assert(b[x] == b1[x - 1]);
                }
            }
        }
    }
}

/// Whether `a` comes strictly before `b`.
pub fn lex_less(a: &[u8; 32], b: &[u8; 32]) -> (r: bool)
    ensures
        r == lex_lt(*a, *b),
{
    let mut i: usize = 0;
    while i < 32
        invariant
            0 <= i <= 32,
            a@.len() == 32,
            b@.len() == 32,
            forall|j: int| 0 <= j < i ==> a@[j] == b@[j],
        decreases 32 - i,
    {
        if a[i] < b[i] {
            assert(a@[i as int] < b@[i as int]);
            return true;
        }
        if a[i] > b[i] {
            assert(b@[i as int] < a@[i as int]);
            proof {
                if lex_lt(*a, *b) {
                    let k = choose|k: int| 0 <= k < 32 && #[trigger] a@[k] < b@[k] && (forall|j: int| 0 <= j < k ==> a@[j] == b@[j]);
                    if k < i {
                    } else if k == i {
                    } else {
                        assert(a@[i as int] == b@[i as int]);
                    }
                }
            }
            return false;
        }
        i = i + 1;
    }
    proof {
        if lex_lt(*a, *b) {
            let k = choose|k: int| 0 <= k < 32 && #[trigger] a@[k] < b@[k] && (forall|j: int| 0 <= j < k ==> a@[j] == b@[j]);
            assert(a@[k] == b@[k]);
        }
    }
    false
}

/// Position of the first element of a sorted list that does not come before `x`.
pub fn lower_bound(v: &[[u8; 32]], x: &[u8; 32]) -> (p: usize)
    requires
        sorted(v@),
    ensures
        p <= v@.len(),
        forall|i: int| 0 <= i < p ==> lex_lt(#[trigger] v@[i], *x),
        forall|i: int| p <= i < v@.len() ==> !lex_lt(#[trigger] v@[i], *x),
{
    let mut p: usize = 0;
    while p < v.len()
        invariant
            p <= v@.len(),
            sorted(v@),
            forall|i: int| 0 <= i < p ==> lex_lt(#[trigger] v@[i], *x),
        decreases v@.len() - p,
    {
        if !lex_less(&v[p], x) {
            assert forall|i: int| p <= i < v@.len() implies !lex_lt(#[trigger] v@[i], *x) by {
                if i > p && lex_lt(v@[i], *x) {
                    lemma_lex_total(v@[i], v@[p as int]);
                    assert(!lex_lt(v@[i], v@[p as int]));
                    if v@[i] != v@[p as int] {
                        lemma_lex_transitive(v@[p as int], v@[i], *x);
                    }
                }
            }
            return p;
        }
        p = p + 1;
    }
    p
}

/// Whether a sorted list holds `x`.
pub fn sorted_contains(v: &[[u8; 32]], x: &[u8; 32]) -> (r: bool)
    requires
        sorted(v@),
    ensures
        r == v@.contains(*x),
{
    let p = lower_bound(v, x);
    if p < v.len() && bytes32_eq(&v[p], x) {
        assert(v@[p as int] == *x);
        return true;
    }
    proof {
        if v@.contains(*x) {
            let i = choose|i: int| 0 <= i < v@.len() && v@[i] == *x;
            lemma_lex_irreflexive(*x);
            if i < p {
            } else {
                assert(!lex_lt(v@[i], *x));
                if i > p {
                    lemma_lex_total(v@[p as int], *x);
                    assert(!lex_lt(v@[i], v@[p as int]));
                    assert(lex_lt(*x, v@[p as int]));
                }
            }
        }
    }
    false
}

/// Law: what `Seq::insert` puts at each position.
pub proof fn lemma_insert_index<A>(v: Seq<A>, p: int, x: A, k: int)
    requires
        0 <= p <= v.len(),
        0 <= k <= v.len(),
    ensures
        v.insert(p, x).len() == v.len() + 1,
        v.insert(p, x)[k] == (if k < p { v[k] } else if k == p { x } else { v[k - 1] }),
{
    let a = v.subrange(0, p).push(x);
    let b = v.subrange(p, v.len() as int);
    assert(v.insert(p, x) == a + b);
    if k < p {
        assert(a[k] == v[k]);
    } else if k == p {
        assert(a[k] == x);
    } else {
        assert((a + b)[k] == b[k - (p + 1)]);
        assert(b[k - (p + 1)] == v[p + (k - (p + 1))]);
    }
}

proof fn lemma_insert_keeps_sorted(v: Seq<[u8; 32]>, p: int, x: [u8; 32])
    requires
        sorted(v),
        0 <= p <= v.len(),
        forall|i: int| 0 <= i < p ==> lex_lt(#[trigger] v[i], x),
        forall|i: int| p <= i < v.len() ==> !lex_lt(#[trigger] v[i], x),
    ensures
        sorted(v.insert(p, x)),
{
    let w = v.insert(p, x);
    v.insert_ensures(p, x);
    assert forall|i: int, j: int| 0 <= i < j < w.len() implies !lex_lt(#[trigger] w[j], #[trigger] w[i]) by {
        lemma_insert_index(v, p, x, i);
        lemma_insert_index(v, p, x, j);
        if j < p {
            assert(w[i] == v[i] && w[j] == v[j]);
        } else if i < p && j == p {
            lemma_lex_asymmetric(v[i], x);
        } else if i < p && j > p {
            assert(w[j] == v[j - 1]);
            assert(w[i] == v[i]);
            assert(!lex_lt(v[j - 1], v[i]));
        } else if i == p {
            assert(w[j] == v[j - 1]);
        } else {
            assert(w[i] == v[i - 1] && w[j] == v[j - 1]);
            assert(!lex_lt(v[j - 1], v[i - 1]));
        }
    }
}

proof fn lemma_insert_keeps_strictly_sorted(v: Seq<[u8; 32]>, p: int, x: [u8; 32])
    requires
        strictly_sorted(v),
        0 <= p <= v.len(),
        forall|i: int| 0 <= i < p ==> lex_lt(#[trigger] v[i], x),
        forall|i: int| p <= i < v.len() ==> lex_lt(x, #[trigger] v[i]),
    ensures
        strictly_sorted(v.insert(p, x)),
{
    let w = v.insert(p, x);
    v.insert_ensures(p, x);
    assert forall|i: int, j: int| 0 <= i < j < w.len() implies lex_lt(#[trigger] w[i], #[trigger] w[j]) by {
        lemma_insert_index(v, p, x, i);
        lemma_insert_index(v, p, x, j);
        if j < p {
            assert(w[i] == v[i] && w[j] == v[j]);
        } else if i < p && j == p {
        } else if i < p && j > p {
            assert(w[j] == v[j - 1]);
            assert(w[i] == v[i]);
            assert(lex_lt(v[i], v[j - 1]));
        } else if i == p {
            assert(w[j] == v[j - 1]);
        } else {
            assert(w[i] == v[i - 1] && w[j] == v[j - 1]);
            assert(lex_lt(v[i - 1], v[j - 1]));
        }
    }
}

proof fn lemma_insert_to_set(v: Seq<[u8; 32]>, p: int, x: [u8; 32])
    requires
        0 <= p <= v.len(),
    ensures
        v.insert(p, x).to_set() == v.to_set().insert(x),
{
    let w = v.insert(p, x);
    v.insert_ensures(p, x);
    assert forall|y: [u8; 32]| w.to_set().contains(y) <==> v.to_set().insert(x).contains(y) by {
        if w.contains(y) {
            let k = choose|k: int| 0 <= k < w.len() && w[k] == y;
            lemma_insert_index(v, p, x, k);
            if k < p {
                assert(v[k] == y);
            } else if k > p {
                assert(w[(k - 1) + 1] == v[k - 1]);
            }
        }
        if v.contains(y) {
            let k = choose|k: int| 0 <= k < v.len() && v[k] == y;
            lemma_insert_index(v, p, x, k);
            lemma_insert_index(v, p, x, k + 1);
            if k < p {
                assert(w[k] == y);
            } else {
                assert(w[k + 1] == v[k]);
            }
        }
        if y == x {
            assert(w[p] == x);
        }
    }
    assert(w.to_set() =~= v.to_set().insert(x));
}

/// Law: a strictly sorted list is sorted.
pub proof fn lemma_strictly_sorted_is_sorted(v: Seq<[u8; 32]>)
    requires
        strictly_sorted(v),
    ensures
        sorted(v),
{
    assert forall|i: int, j: int| 0 <= i < j < v.len() implies !lex_lt(#[trigger] v[j], #[trigger] v[i]) by {
        lemma_lex_asymmetric(v[i], v[j]);
    }
}

/// Inserts `x` into a strictly sorted list unless it is already there.
/// Returns whether it was inserted.
pub fn sorted_insert(v: &mut Vec<[u8; 32]>, x: [u8; 32]) -> (inserted: bool)
    requires
        strictly_sorted(old(v)@),
    ensures
        inserted == !old(v)@.contains(x),
        strictly_sorted(final(v)@),
        final(v)@.to_set() == old(v)@.to_set().insert(x),
        !inserted ==> final(v)@ == old(v)@,
        inserted ==> final(v)@.len() == old(v)@.len() + 1,
{
    proof {
        lemma_strictly_sorted_is_sorted(v@);
    }
    let p = lower_bound(v.as_slice(), &x);
    if p < v.len() && bytes32_eq(&v[p], &x) {
        proof {
            assert(v@.contains(x));
            assert(v@.to_set().insert(x) =~= v@.to_set());
        }
        return false;
    }
    let ghost before = v@;
    proof {
        if before.contains(x) {
            let i = choose|i: int| 0 <= i < before.len() && before[i] == x;
            lemma_lex_irreflexive(x);
            if i > p {
                lemma_lex_total(before[p as int], x);
                lemma_lex_transitive(x, before[p as int], before[i]);
            }
        }
        if p < before.len() {
            lemma_lex_total(before[p as int], x);
        }
    }
    proof {
        assert forall|i: int| p <= i < before.len() implies lex_lt(x, #[trigger] before[i]) by {
            lemma_lex_total(before[p as int], x);
            if i > p {
                lemma_lex_transitive(x, before[p as int], before[i]);
            }
        }
        lemma_insert_keeps_strictly_sorted(before, p as int, x);
        lemma_insert_to_set(before, p as int, x);
        before.insert_ensures(p as int, x);
    }
    v.insert(p, x);
    true
}

/// A sorted copy of a list of 32-byte strings.
pub fn sorted_copy(v: &[[u8; 32]]) -> (r: Vec<[u8; 32]>)
    ensures
        r@ == sort_spec(v@),
{
    let mut out: Vec<[u8; 32]> = Vec::new();
    let mut k: usize = 0;
    proof {
        broadcast use vstd::seq_lib::group_to_multiset_ensures;
        assert(v@.subrange(0, 0) =~= Seq::<[u8; 32]>::empty());
        assert(out@ =~= Seq::<[u8; 32]>::empty());
    }
    while k < v.len()
        invariant
            0 <= k <= v@.len(),
            sorted(out@),
            out@.to_multiset() == v@.subrange(0, k as int).to_multiset(),
        decreases v@.len() - k,
    {
        let x = v[k];
        let p = lower_bound(out.as_slice(), &x);
        let ghost before = out@;
        proof {
            lemma_insert_keeps_sorted(before, p as int, x);
            vstd::seq_lib::to_multiset_insert(before, p as int, x);
            assert(v@.subrange(0, k as int + 1) =~= v@.subrange(0, k as int).push(x));
            vstd::seq_lib::to_multiset_build(v@.subrange(0, k as int), x);
        }
        out.insert(p, x);
        k = k + 1;
    }
    proof {
        assert(v@.subrange(0, v@.len() as int) =~= v@);
        lemma_lex_le_total_ordering();
        v@.lemma_sort_by_ensures(lex_le_rel());
        let r = lex_le_rel();
        assert(sorted_by(out@, r)) by {
            assert forall|i: int, j: int| 0 <= i < j < out@.len() implies #[trigger] r(out@[i], out@[j]) by {
                assert(!lex_lt(out@[j], out@[i]));
            }
        }
        vstd::seq_lib::lemma_sorted_unique(out@, sort_spec(v@), r);
    }
    out
}

} // verus!
