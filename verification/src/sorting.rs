//! Stable sorting of text by a key, as `slice::sort_by` with `str::cmp` does
//! it: keys are compared character by character (the byte order of UTF-8
//! text is its code-point order), and equal keys keep their input order.
use vstd::prelude::*;
use crate::text::views;

verus! {

/// `a` sorts strictly before `b`: lexicographic order of code points, a
/// proper prefix first.
pub open spec fn lex_lt(a: Seq<char>, b: Seq<char>) -> bool
    decreases a.len(),
{
    if a.len() == 0 {
        b.len() > 0
    } else if b.len() == 0 {
        false
    } else if a[0] < b[0] {
        true
    } else if a[0] == b[0] {
        lex_lt(a.drop_first(), b.drop_first())
    } else {
        false
    }
}

/// No key sorts before itself.
pub proof fn lemma_lex_irreflexive(a: Seq<char>)
    ensures
        !lex_lt(a, a),
    decreases a.len(),
{
    if a.len() > 0 {
        lemma_lex_irreflexive(a.drop_first());
    }
}

/// Of two different keys, one sorts before the other, and never both.
pub proof fn lemma_lex_total(a: Seq<char>, b: Seq<char>)
    ensures
        a != b ==> (lex_lt(a, b) || lex_lt(b, a)),
        !(lex_lt(a, b) && lex_lt(b, a)),
    decreases a.len(),
{
    if a.len() > 0 && b.len() > 0 && a[0] == b[0] {
        lemma_lex_total(a.drop_first(), b.drop_first());
        if a != b {
            assert(a =~= seq![a[0]] + a.drop_first());
            assert(b =~= seq![b[0]] + b.drop_first());
        }
    } else if a.len() == 0 && b.len() == 0 {
        assert(a =~= b);
    }
}

/// Sorting before is transitive.
pub proof fn lemma_lex_transitive(a: Seq<char>, b: Seq<char>, c: Seq<char>)
    requires
        lex_lt(a, b),
        lex_lt(b, c),
    ensures
        lex_lt(a, c),
    decreases a.len(),
{
    if a.len() > 0 && b.len() > 0 && c.len() > 0 && a[0] == b[0] && b[0] == c[0] {
        lemma_lex_transitive(a.drop_first(), b.drop_first(), c.drop_first());
    }
}

/// Where a key goes among the already sorted `order`: after every entry whose
/// key does not sort after it.
pub open spec fn insert_pos(order: Seq<int>, keys: Seq<Seq<char>>, k: Seq<char>) -> int
    decreases order.len(),
{
    if order.len() == 0 {
        0
    } else if lex_lt(k, keys[order[0]]) {
        0
    } else {
        1 + insert_pos(order.drop_first(), keys, k)
    }
}

/// The stable sorted order of the first `n` keys, as indices.
pub open spec fn sort_order_upto(keys: Seq<Seq<char>>, n: int) -> Seq<int>
    decreases n,
{
    if n <= 0 {
        Seq::<int>::empty()
    } else {
        let o = sort_order_upto(keys, n - 1);
        o.insert(insert_pos(o, keys, keys[n - 1]), n - 1)
    }
}

/// The stable sorted order of `keys`, as indices into `keys`.
pub open spec fn sort_order(keys: Seq<Seq<char>>) -> Seq<int> {
    sort_order_upto(keys, keys.len() as int)
}

/// The order is a permutation of the indices, sorted by key, and stable.
pub open spec fn stably_sorted(keys: Seq<Seq<char>>, o: Seq<int>, n: int) -> bool {
    &&& o.len() == n
    &&& forall|a: int| 0 <= a < o.len() ==> 0 <= #[trigger] o[a] < n
    &&& forall|a: int, b: int| 0 <= a < b < o.len() ==> #[trigger] o[a] != #[trigger] o[b]
    &&& forall|a: int, b: int|
        0 <= a < b < o.len() ==> !lex_lt(#[trigger] keys[o[b]], #[trigger] keys[o[a]])
    &&& forall|a: int, b: int|
        0 <= a < b < o.len() && keys[o[a]] == keys[o[b]] ==> #[trigger] o[a] < #[trigger] o[b]
}

proof fn lemma_insert_pos_bounds(order: Seq<int>, keys: Seq<Seq<char>>, k: Seq<char>)
    ensures
        0 <= insert_pos(order, keys, k) <= order.len(),
        forall|j: int| 0 <= j < insert_pos(order, keys, k) ==> !lex_lt(k, #[trigger] keys[order[j]]),
        insert_pos(order, keys, k) < order.len() ==> lex_lt(k, keys[order[insert_pos(order, keys, k)]]),
    decreases order.len(),
{
    if order.len() > 0 && !lex_lt(k, keys[order[0]]) {
        let rest = order.drop_first();
        lemma_insert_pos_bounds(rest, keys, k);
        assert forall|j: int| 0 <= j < insert_pos(order, keys, k) implies !lex_lt(k, #[trigger] keys[order[j]]) by {
            if j > 0 {
                assert(order[j] == rest[j - 1]);
            }
        }
    }
}

/// The sorted order of the first `n` keys is a stable sort of them.
pub proof fn lemma_sort_order_sorted(keys: Seq<Seq<char>>, n: int)
    requires
        0 <= n <= keys.len(),
    ensures
        stably_sorted(keys, sort_order_upto(keys, n), n),
    decreases n,
{
    if n > 0 {
        let o = sort_order_upto(keys, n - 1);
        lemma_sort_order_sorted(keys, n - 1);
        let k = keys[n - 1];
        let p = insert_pos(o, keys, k);
        lemma_insert_pos_bounds(o, keys, k);
        let o2 = o.insert(p, n - 1);
        assert(o2 == sort_order_upto(keys, n));
        o.insert_ensures(p, n - 1);
        assert forall|a: int| 0 <= a < o2.len() implies 0 <= #[trigger] o2[a] < n by {
            if a > p {
                assert(o2[a] == o[a - 1]);
            }
        }
        assert forall|a: int, b: int| 0 <= a < b < o2.len() implies #[trigger] o2[a] != #[trigger] o2[b] by {
            if a < p && b > p {
                assert(o2[b] == o[b - 1]);
            } else if a > p {
                assert(o2[a] == o[a - 1]);
                assert(o2[b] == o[b - 1]);
            } else if b > p {
                assert(o2[b] == o[b - 1]);
            }
        }
        assert forall|a: int, b: int| 0 <= a < b < o2.len() implies !lex_lt(#[trigger] keys[o2[b]], #[trigger] keys[o2[a]]) && (keys[o2[a]] == keys[o2[b]] ==> o2[a] < o2[b]) by {
            if a < p && b < p {
            } else if a < p && b == p {
                lemma_lex_total(k, keys[o[a]]);
            } else if a < p && b > p {
                assert(o2[b] == o[b - 1]);
            } else if a == p {
                assert(o2[b] == o[b - 1]);
                if b - 1 > p {
                    lemma_lex_total(keys[o[b - 1]], keys[o[p]]);
                    if keys[o[b - 1]] != keys[o[p]] {
                        lemma_lex_transitive(k, keys[o[p]], keys[o[b - 1]]);
                    }
                }
                lemma_lex_total(k, keys[o[b - 1]]);
                lemma_lex_irreflexive(k);
            } else {
                assert(o2[a] == o[a - 1]);
                assert(o2[b] == o[b - 1]);
            }
        }
    }
}

/// Whether `a` sorts strictly before `b`.
pub fn lex_less(a: &[char], b: &[char]) -> (r: bool)
    ensures
        r == lex_lt(a@, b@),
{
    let mut i: usize = 0;
    assert(a@.skip(0) =~= a@);
    assert(b@.skip(0) =~= b@);
    while i < a.len() && i < b.len() && a[i] == b[i]
        invariant
            i <= a.len(),
            i <= b.len(),
            lex_lt(a@, b@) == lex_lt(a@.skip(i as int), b@.skip(i as int)),
        decreases a.len() - i,
    {
        assert(a@.skip(i as int).drop_first() =~= a@.skip(i + 1));
        assert(b@.skip(i as int).drop_first() =~= b@.skip(i + 1));
        i += 1;
    }
    if i == a.len() {
        i < b.len()
    } else if i == b.len() {
        false
    } else {
        a[i] < b[i]
    }
}

/// The indices of `keys` in stable sorted order of the keys.
pub fn stable_sort_order(keys: &Vec<Vec<char>>) -> (r: Vec<usize>)
    ensures
        r@.map_values(|i: usize| i as int) == sort_order(views(keys@)),
{
    let ghost kv = views(keys@);
    let mut order: Vec<usize> = Vec::new();
    let mut i: usize = 0;
    while i < keys.len()
        invariant
            i <= keys.len(),
            kv == views(keys@),
            order@.map_values(|x: usize| x as int) == sort_order_upto(kv, i as int),
            forall|m: int| 0 <= m < order@.len() ==> (#[trigger] order@[m]) < i,
        decreases keys.len() - i,
    {
        let ghost ov = order@.map_values(|x: usize| x as int);
        let mut j: usize = 0;
        assert(ov.skip(0) =~= ov);
        while j < order.len() && !lex_less(&keys[i], &keys[order[j]])
            invariant
                i < keys.len(),
                kv == views(keys@),
                j <= order.len(),
                ov == order@.map_values(|x: usize| x as int),
                forall|m: int| 0 <= m < order@.len() ==> (#[trigger] order@[m]) < i,
                insert_pos(ov, kv, kv[i as int]) == j + insert_pos(ov.skip(j as int), kv, kv[i as int]),
            decreases order.len() - j,
        {
            assert(ov.skip(j as int).drop_first() =~= ov.skip(j + 1));
            assert(ov.skip(j as int)[0] == order@[j as int] as int);
            assert(kv[order@[j as int] as int] == keys@[order@[j as int] as int]@);
            assert(kv[i as int] == keys@[i as int]@);
            j += 1;
        }
        proof {
            assert(kv[i as int] == keys@[i as int]@);
            if j < order.len() {
                assert(ov.skip(j as int)[0] == order@[j as int] as int);
                assert(kv[order@[j as int] as int] == keys@[order@[j as int] as int]@);
            }
        }
        let ghost before = order@;
        order.insert(j, i);
        proof {
            assert(order@.map_values(|x: usize| x as int) =~= ov.insert(j as int, i as int));
            assert forall|m: int| 0 <= m < order@.len() implies (#[trigger] order@[m]) < i + 1 by {
                before.insert_ensures(j as int, i);
                if m > j {
                    assert(order@[m] == before[m - 1]);
                }
            }
        }
        i += 1;
    }
    order
}

// ---------------------------------------------------------------------------
// Two-level keys
// ---------------------------------------------------------------------------

/// Pairs of keys in order: by the first, then by the second.
pub open spec fn pair_lt(a: (Seq<char>, Seq<char>), b: (Seq<char>, Seq<char>)) -> bool {
    lex_lt(a.0, b.0) || (a.0 == b.0 && lex_lt(a.1, b.1))
}

proof fn lemma_pair_total(a: (Seq<char>, Seq<char>), b: (Seq<char>, Seq<char>))
    ensures
        a != b ==> (pair_lt(a, b) || pair_lt(b, a)),
        !(pair_lt(a, b) && pair_lt(b, a)),
        !pair_lt(a, a),
{
    lemma_lex_total(a.0, b.0);
    lemma_lex_total(a.1, b.1);
    lemma_lex_irreflexive(a.0);
    lemma_lex_irreflexive(a.1);
    lemma_lex_irreflexive(b.0);
}

proof fn lemma_pair_transitive(a: (Seq<char>, Seq<char>), b: (Seq<char>, Seq<char>), c: (Seq<char>, Seq<char>))
    requires
        pair_lt(a, b),
        pair_lt(b, c),
    ensures
        pair_lt(a, c),
{
    if lex_lt(a.0, b.0) && lex_lt(b.0, c.0) {
        lemma_lex_transitive(a.0, b.0, c.0);
    } else if lex_lt(a.1, b.1) && lex_lt(b.1, c.1) && a.0 == b.0 && b.0 == c.0 {
        lemma_lex_transitive(a.1, b.1, c.1);
    }
}

/// Where a key pair goes among the already sorted `order`.
pub open spec fn insert_pos2(order: Seq<int>, keys: Seq<(Seq<char>, Seq<char>)>, k: (Seq<char>, Seq<char>)) -> int
    decreases order.len(),
{
    if order.len() == 0 {
        0
    } else if pair_lt(k, keys[order[0]]) {
        0
    } else {
        1 + insert_pos2(order.drop_first(), keys, k)
    }
}

/// The stable sorted order of the first `n` key pairs, as indices.
pub open spec fn sort_order2_upto(keys: Seq<(Seq<char>, Seq<char>)>, n: int) -> Seq<int>
    decreases n,
{
    if n <= 0 {
        Seq::<int>::empty()
    } else {
        let o = sort_order2_upto(keys, n - 1);
        o.insert(insert_pos2(o, keys, keys[n - 1]), n - 1)
    }
}

/// The stable sorted order of key pairs, as indices.
pub open spec fn sort_order2(keys: Seq<(Seq<char>, Seq<char>)>) -> Seq<int> {
    sort_order2_upto(keys, keys.len() as int)
}

/// The order is a permutation of the indices, sorted by key pair, and stable.
pub open spec fn stably_sorted2(keys: Seq<(Seq<char>, Seq<char>)>, o: Seq<int>, n: int) -> bool {
    &&& o.len() == n
    &&& forall|a: int| 0 <= a < o.len() ==> 0 <= #[trigger] o[a] < n
    &&& forall|a: int, b: int| 0 <= a < b < o.len() ==> #[trigger] o[a] != #[trigger] o[b]
    &&& forall|a: int, b: int|
        0 <= a < b < o.len() ==> !pair_lt(#[trigger] keys[o[b]], #[trigger] keys[o[a]])
    &&& forall|a: int, b: int|
        0 <= a < b < o.len() && keys[o[a]] == keys[o[b]] ==> #[trigger] o[a] < #[trigger] o[b]
}

proof fn lemma_insert_pos2_bounds(order: Seq<int>, keys: Seq<(Seq<char>, Seq<char>)>, k: (Seq<char>, Seq<char>))
    ensures
        0 <= insert_pos2(order, keys, k) <= order.len(),
        forall|j: int| 0 <= j < insert_pos2(order, keys, k) ==> !pair_lt(k, #[trigger] keys[order[j]]),
        insert_pos2(order, keys, k) < order.len() ==> pair_lt(k, keys[order[insert_pos2(order, keys, k)]]),
    decreases order.len(),
{
    if order.len() > 0 && !pair_lt(k, keys[order[0]]) {
        let rest = order.drop_first();
        lemma_insert_pos2_bounds(rest, keys, k);
        assert forall|j: int| 0 <= j < insert_pos2(order, keys, k) implies !pair_lt(k, #[trigger] keys[order[j]]) by {
            if j > 0 {
                assert(order[j] == rest[j - 1]);
            }
        }
    }
}

/// The sorted order of the first `n` key pairs is a stable sort of them.
pub proof fn lemma_sort_order2_sorted(keys: Seq<(Seq<char>, Seq<char>)>, n: int)
    requires
        0 <= n <= keys.len(),
    ensures
        stably_sorted2(keys, sort_order2_upto(keys, n), n),
    decreases n,
{
    if n > 0 {
        let o = sort_order2_upto(keys, n - 1);
        lemma_sort_order2_sorted(keys, n - 1);
        let k = keys[n - 1];
        let p = insert_pos2(o, keys, k);
        lemma_insert_pos2_bounds(o, keys, k);
        let o2 = o.insert(p, n - 1);
        assert(o2 == sort_order2_upto(keys, n));
        o.insert_ensures(p, n - 1);
        assert forall|a: int| 0 <= a < o2.len() implies 0 <= #[trigger] o2[a] < n by {
            if a > p {
                assert(o2[a] == o[a - 1]);
            }
        }
        assert forall|a: int, b: int| 0 <= a < b < o2.len() implies #[trigger] o2[a] != #[trigger] o2[b] by {
            if a < p && b > p {
                assert(o2[b] == o[b - 1]);
            } else if a > p {
                assert(o2[a] == o[a - 1]);
                assert(o2[b] == o[b - 1]);
            } else if b > p {
                assert(o2[b] == o[b - 1]);
            }
        }
        assert forall|a: int, b: int| 0 <= a < b < o2.len() implies !pair_lt(#[trigger] keys[o2[b]], #[trigger] keys[o2[a]]) && (keys[o2[a]] == keys[o2[b]] ==> o2[a] < o2[b]) by {
            if a < p && b < p {
            } else if a < p && b == p {
                lemma_pair_total(k, keys[o[a]]);
            } else if a < p && b > p {
                assert(o2[b] == o[b - 1]);
            } else if a == p {
                assert(o2[b] == o[b - 1]);
                if b - 1 > p {
                    lemma_pair_total(keys[o[b - 1]], keys[o[p]]);
                    if keys[o[b - 1]] != keys[o[p]] {
                        lemma_pair_transitive(k, keys[o[p]], keys[o[b - 1]]);
                    }
                }
                lemma_pair_total(k, keys[o[b - 1]]);
            } else {
                assert(o2[a] == o[a - 1]);
                assert(o2[b] == o[b - 1]);
            }
        }
    }
}

/// The indices of key pairs in stable sorted order.
pub fn stable_sort_order2(first: &Vec<Vec<char>>, second: &Vec<Vec<char>>) -> (r: Vec<usize>)
    requires
        first.len() == second.len(),
    ensures
        r@.map_values(|i: usize| i as int) == sort_order2(pair_keys(views(first@), views(second@))),
{
    let ghost kv = pair_keys(views(first@), views(second@));
    let mut order: Vec<usize> = Vec::new();
    let mut i: usize = 0;
    while i < first.len()
        invariant
            i <= first.len(),
            first.len() == second.len(),
            kv == pair_keys(views(first@), views(second@)),
            order@.map_values(|x: usize| x as int) == sort_order2_upto(kv, i as int),
            forall|m: int| 0 <= m < order@.len() ==> (#[trigger] order@[m]) < i,
        decreases first.len() - i,
    {
        let ghost ov = order@.map_values(|x: usize| x as int);
        let mut j: usize = 0;
        assert(ov.skip(0) =~= ov);
        assert(kv[i as int] == (first@[i as int]@, second@[i as int]@));
        while j < order.len() && !pair_less(&first[i], &second[i], &first[order[j]], &second[order[j]])
            invariant
                i < first.len(),
                first.len() == second.len(),
                kv == pair_keys(views(first@), views(second@)),
                j <= order.len(),
                ov == order@.map_values(|x: usize| x as int),
                forall|m: int| 0 <= m < order@.len() ==> (#[trigger] order@[m]) < i,
                insert_pos2(ov, kv, kv[i as int]) == j + insert_pos2(ov.skip(j as int), kv, kv[i as int]),
                kv[i as int] == (first@[i as int]@, second@[i as int]@),
            decreases order.len() - j,
        {
            assert(ov.skip(j as int).drop_first() =~= ov.skip(j + 1));
            assert(ov.skip(j as int)[0] == order@[j as int] as int);
            assert(kv[order@[j as int] as int] == (first@[order@[j as int] as int]@, second@[order@[j as int] as int]@));
            j += 1;
        }
        proof {
            if j < order.len() {
                assert(ov.skip(j as int)[0] == order@[j as int] as int);
                assert(kv[order@[j as int] as int] == (first@[order@[j as int] as int]@, second@[order@[j as int] as int]@));
            }
        }
        let ghost before = order@;
        order.insert(j, i);
        proof {
            assert(order@.map_values(|x: usize| x as int) =~= ov.insert(j as int, i as int));
            assert forall|m: int| 0 <= m < order@.len() implies (#[trigger] order@[m]) < i + 1 by {
                before.insert_ensures(j as int, i);
                if m > j {
                    assert(order@[m] == before[m - 1]);
                }
            }
        }
        i += 1;
    }
    order
}

/// The key pairs made of two equally long key lists.
pub open spec fn pair_keys(a: Seq<Seq<char>>, b: Seq<Seq<char>>) -> Seq<(Seq<char>, Seq<char>)> {
    Seq::new(a.len(), |i: int| (a[i], b[i]))
}

/// Whether the pair `(a1, a2)` sorts strictly before `(b1, b2)`.
pub fn pair_less(a1: &[char], a2: &[char], b1: &[char], b2: &[char]) -> (r: bool)
    ensures
        r == pair_lt((a1@, a2@), (b1@, b2@)),
{
    if lex_less(a1, b1) {
        true
    } else if crate::text::same_chars(a1, b1) {
        lex_less(a2, b2)
    } else {
        false
    }
}

} // verus!
