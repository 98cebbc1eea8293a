//! A small map from text to text kept as a list of distinct keys, with the
//! `Map` it stands for.
use vstd::prelude::*;
use crate::text::{chars_of, same_chars};

verus! {

/// The map a list of assignments makes, later ones winning.
pub open spec fn assoc(v: Seq<(Seq<char>, Seq<char>)>) -> Map<Seq<char>, Seq<char>>
    decreases v.len(),
{
    if v.len() == 0 {
        Map::<Seq<char>, Seq<char>>::empty()
    } else {
        assoc(v.drop_last()).insert(v.last().0, v.last().1)
    }
}

/// No key appears twice.
pub open spec fn keys_unique(v: Seq<(Seq<char>, Seq<char>)>) -> bool {
    forall|i: int, j: int| 0 <= i < j < v.len() ==> (#[trigger] v[i]).0 != (#[trigger] v[j]).0
}

pub open spec fn pair_views(v: Seq<(String, String)>) -> Seq<(Seq<char>, Seq<char>)> {
    v.map_values(|p: (String, String)| (p.0@, p.1@))
}

/// The map an exec list of pairs stands for.
pub open spec fn text_map(v: Seq<(String, String)>) -> Map<Seq<char>, Seq<char>> {
    assoc(pair_views(v))
}

/// A key is in the map exactly when some pair has it.
pub proof fn lemma_assoc_dom(v: Seq<(Seq<char>, Seq<char>)>, k: Seq<char>)
    ensures
        assoc(v).dom().contains(k) <==> exists|i: int| 0 <= i < v.len() && (#[trigger] v[i]).0 == k,
    decreases v.len(),
{
    if v.len() > 0 {
        lemma_assoc_dom(v.drop_last(), k);
        if exists|i: int| 0 <= i < v.len() && (#[trigger] v[i]).0 == k {
            let i = choose|i: int| 0 <= i < v.len() && (#[trigger] v[i]).0 == k;
            if i < v.len() - 1 {
                assert(v.drop_last()[i].0 == k);
            }
        }
        if exists|i: int| 0 <= i < v.drop_last().len() && (#[trigger] v.drop_last()[i]).0 == k {
            let i = choose|i: int| 0 <= i < v.drop_last().len() && (#[trigger] v.drop_last()[i]).0 == k;
            assert(v[i].0 == k);
        }
    }
}

/// With distinct keys, a pair holds its key's value in the map.
pub proof fn lemma_assoc_value(v: Seq<(Seq<char>, Seq<char>)>, p: int)
    requires
        keys_unique(v),
        0 <= p < v.len(),
    ensures
        assoc(v).dom().contains(v[p].0),
        assoc(v)[v[p].0] == v[p].1,
    decreases v.len(),
{
    if p < v.len() - 1 {
        lemma_assoc_value(v.drop_last(), p);
    }
}

/// Replacing the value of a pair is inserting into the map.
pub proof fn lemma_assoc_update(v: Seq<(Seq<char>, Seq<char>)>, p: int, t: Seq<char>)
    requires
        keys_unique(v),
        0 <= p < v.len(),
    ensures
        assoc(v.update(p, (v[p].0, t))) == assoc(v).insert(v[p].0, t),
    decreases v.len(),
{
    let w = v.update(p, (v[p].0, t));
    if p == v.len() - 1 {
        assert(w.drop_last() =~= v.drop_last());
        assert(assoc(w) =~= assoc(v).insert(v[p].0, t));
    } else {
        assert(w.drop_last() =~= v.drop_last().update(p, (v[p].0, t)));
        lemma_assoc_update(v.drop_last(), p, t);
        assert(v.last().0 != v[p].0);
        assert(assoc(w) =~= assoc(v).insert(v[p].0, t));
    }
}

/// Where `key` is among the pairs, if anywhere.
pub fn text_map_find(m: &Vec<(String, String)>, key: &[char]) -> (r: Option<usize>)
    ensures
        match r {
            Some(p) => p < m.len() && m@[p as int].0@ == key@,
            None => forall|i: int| 0 <= i < m.len() ==> (#[trigger] m@[i]).0@ != key@,
        },
{
    let mut i: usize = 0;
    while i < m.len()
        invariant
            i <= m.len(),
            forall|j: int| 0 <= j < i ==> (#[trigger] m@[j]).0@ != key@,
        decreases m.len() - i,
    {
        if same_chars(&chars_of(m[i].0.as_str()), key) {
            return Some(i);
        }
        i += 1;
    }
    None
}

/// Whether `key` has a value.
pub fn text_map_contains(m: &Vec<(String, String)>, key: &str) -> (r: bool)
    ensures
        r == text_map(m@).dom().contains(key@),
{
    let k = chars_of(key);
    let found = text_map_find(m, &k);
    proof {
        lemma_assoc_dom(pair_views(m@), key@);
        match found {
            Some(p) => {
                assert(pair_views(m@)[p as int].0 == key@);
            },
            None => {
                if exists|i: int| 0 <= i < pair_views(m@).len() && (#[trigger] pair_views(m@)[i]).0 == key@ {
                    let i = choose|i: int| 0 <= i < pair_views(m@).len() && (#[trigger] pair_views(m@)[i]).0 == key@;
                    assert(m@[i].0@ == key@);
                }
            },
        }
    }
    found.is_some()
}

/// Sets `key` to `value`.
pub fn text_map_insert(m: &mut Vec<(String, String)>, key: String, value: String)
    requires
        keys_unique(pair_views(old(m)@)),
    ensures
        keys_unique(pair_views(final(m)@)),
        text_map(final(m)@) == text_map(old(m)@).insert(key@, value@),
{
    let k = chars_of(key.as_str());
    let ghost old_v = pair_views(m@);
    let ghost kv = key@;
    let ghost vv = value@;
    match text_map_find(m, &k) {
        Some(p) => {
            let old_key = m[p].0.clone();
            m.set(p, (old_key, value));
            proof {
                assert(pair_views(m@) =~= old_v.update(p as int, (old_v[p as int].0, vv)));
                lemma_assoc_update(old_v, p as int, vv);
            }
        },
        None => {
            m.push((key, value));
            proof {
                assert(pair_views(m@) =~= old_v.push((kv, vv)));
                assert(pair_views(m@).drop_last() =~= old_v);
                assert forall|i: int, j: int| 0 <= i < j < pair_views(m@).len() implies (#[trigger] pair_views(m@)[i]).0 != (#[trigger] pair_views(m@)[j]).0 by {
                    if j == old_v.len() {
                        assert(old_v[i].0 == m@[i].0@);
                    }
                }
            }
        },
    }
}

/// The value of `key`, if it has one.
pub fn text_map_get(m: &Vec<(String, String)>, key: &str) -> (r: Option<String>)
    requires
        keys_unique(pair_views(m@)),
    ensures
        match r {
            Some(v) => text_map(m@).dom().contains(key@) && text_map(m@)[key@] == v@,
            None => !text_map(m@).dom().contains(key@),
        },
{
    let k = chars_of(key);
    let found = text_map_find(m, &k);
    proof {
        lemma_assoc_dom(pair_views(m@), key@);
    }
    match found {
        Some(p) => {
            proof {
                lemma_assoc_value(pair_views(m@), p as int);
                assert(pair_views(m@)[p as int].0 == key@);
            }
            Some(m[p].1.clone())
        },
        None => {
            proof {
                if exists|i: int| 0 <= i < pair_views(m@).len() && (#[trigger] pair_views(m@)[i]).0 == key@ {
                    let i = choose|i: int| 0 <= i < pair_views(m@).len() && (#[trigger] pair_views(m@)[i]).0 == key@;
                    assert(m@[i].0@ == key@);
                }
            }
            None
        },
    }
}

/// Adds the pairs of `src` to `m`: they replace existing values, or, with
/// `keep_existing`, only fill keys `m` does not have.
pub fn text_map_extend(m: &mut Vec<(String, String)>, src: Vec<(String, String)>, keep_existing: bool)
    requires
        keys_unique(pair_views(old(m)@)),
        keys_unique(pair_views(src@)),
    ensures
        keys_unique(pair_views(final(m)@)),
        text_map(final(m)@) == if keep_existing {
            text_map(src@).union_prefer_right(text_map(old(m)@))
        } else {
            text_map(old(m)@).union_prefer_right(text_map(src@))
        },
{
    let ghost m0 = text_map(m@);
    let ghost sv = pair_views(src@);
    let ghost n = src.len();
    let mut rest = src;
    let mut k: usize = 0;
    assert(sv.take(0) =~= Seq::<(Seq<char>, Seq<char>)>::empty());
    assert(assoc(sv.take(0)) =~= Map::<Seq<char>, Seq<char>>::empty());
    assert(m0 =~= m0.union_prefer_right(Map::<Seq<char>, Seq<char>>::empty()));
    assert(m0 =~= Map::<Seq<char>, Seq<char>>::empty().union_prefer_right(m0));
    while rest.len() > 0
        invariant
            k + rest.len() == n,
            sv.len() == n,
            keys_unique(sv),
            keys_unique(pair_views(m@)),
            forall|j: int| 0 <= j < rest.len() ==> (rest@[j].0@, rest@[j].1@) == #[trigger] sv[k + j],
            text_map(m@) == if keep_existing {
                assoc(sv.take(k as int)).union_prefer_right(m0)
            } else {
                m0.union_prefer_right(assoc(sv.take(k as int)))
            },
        decreases rest.len(),
    {
        let ghost before_rest = rest@;
        assert((before_rest[0].0@, before_rest[0].1@) == sv[k + 0]);
        let (key, value) = rest.remove(0);
        assert((key@, value@) == sv[k as int]);
        let ghost t = sv.take(k as int);
        assert(sv.take(k + 1).drop_last() =~= t);
        assert(sv.take(k + 1).last() == sv[k as int]);
        proof {
            lemma_assoc_dom(t, key@);
            if exists|i: int| 0 <= i < t.len() && (#[trigger] t[i]).0 == key@ {
                let i = choose|i: int| 0 <= i < t.len() && (#[trigger] t[i]).0 == key@;
                assert(sv[i].0 == sv[k as int].0);
            }
        }
        if keep_existing {
            if !text_map_contains(m, key.as_str()) {
                text_map_insert(m, key, value);
            }
            assert(text_map(m@) =~= assoc(sv.take(k + 1)).union_prefer_right(m0));
        } else {
            text_map_insert(m, key, value);
            assert(text_map(m@) =~= m0.union_prefer_right(assoc(sv.take(k + 1))));
        }
        assert forall|j: int| 0 <= j < rest.len() implies (rest@[j].0@, rest@[j].1@) == #[trigger] sv[(k + 1) + j] by {
            assert(rest@[j] == before_rest[j + 1]);
            assert((before_rest[j + 1].0@, before_rest[j + 1].1@) == sv[k + (j + 1)]);
        }
        k += 1;
    }
    assert(sv.take(n as int) =~= sv);
}

} // verus!
