//! Association lists keyed by strings.
//!
//! A unit table is a `Vec` of `(key, value)` pairs with distinct keys, read as
//! the `Map` from key text to value that it denotes; insertion overwrites, so it
//! behaves as a map keyed by the text.

use vstd::prelude::*;

verus! {

/// The map that a list of pairs denotes; a later pair overrides an earlier one.
pub open spec fn assoc_map<V>(s: Seq<(String, V)>) -> Map<Seq<char>, V>
    decreases s.len(),
{
    if s.len() == 0 {
        Map::empty()
    } else {
        assoc_map(s.drop_last()).insert(s.last().0@, s.last().1)
    }
}

/// No key text occurs twice.
pub open spec fn keys_distinct<V>(s: Seq<(String, V)>) -> bool {
    forall|i: int, j: int| 0 <= i < j < s.len() ==> s[i].0@ != s[j].0@
}

/// A key is in the denoted map exactly when some pair carries it.
pub proof fn lemma_assoc_contains<V>(s: Seq<(String, V)>, k: Seq<char>)
    ensures
        assoc_map(s).contains_key(k) <==> exists|i: int| 0 <= i < s.len() && s[i].0@ == k,
    decreases s.len(),
{
    if s.len() > 0 {
        let t = s.drop_last();
        lemma_assoc_contains(t, k);
        if assoc_map(s).contains_key(k) {
            if s.last().0@ == k {
                assert(s[s.len() - 1].0@ == k);
            } else {
                let i = choose|i: int| 0 <= i < t.len() && t[i].0@ == k;
                assert(s[i] == t[i]);
            }
        }
        if exists|i: int| 0 <= i < s.len() && s[i].0@ == k {
            let i = choose|i: int| 0 <= i < s.len() && s[i].0@ == k;
            if i < s.len() - 1 {
                assert(t[i] == s[i]);
            }
        }
    }
}

/// With distinct keys, the map sends each pair's key to that pair's value.
pub proof fn lemma_assoc_index<V>(s: Seq<(String, V)>, i: int)
    requires
        keys_distinct(s),
        0 <= i < s.len(),
    ensures
        assoc_map(s).contains_key(s[i].0@),
        assoc_map(s)[s[i].0@] == s[i].1,
    decreases s.len(),
{
    if i < s.len() - 1 {
        let t = s.drop_last();
        assert(t[i] == s[i]);
        lemma_assoc_index(t, i);
        assert(s.last().0@ != s[i].0@);
    }
}

/// The denoted map has no more keys than the list has pairs.
pub proof fn lemma_assoc_finite<V>(s: Seq<(String, V)>)
    ensures
        assoc_map(s).dom().finite(),
    decreases s.len(),
{
    if s.len() > 0 {
        lemma_assoc_finite(s.drop_last());
    }
}

/// Inserting a pair with a new key at any position adds that key to the map.
pub proof fn lemma_assoc_insert_at<V>(s: Seq<(String, V)>, i: int, e: (String, V))
    requires
        keys_distinct(s),
        0 <= i <= s.len(),
        !assoc_map(s).contains_key(e.0@),
    ensures
        keys_distinct(s.insert(i, e)),
        assoc_map(s.insert(i, e)) == assoc_map(s).insert(e.0@, e.1),
{
    let u = s.insert(i, e);
    lemma_assoc_contains(s, e.0@);
    assert forall|a: int, b: int| 0 <= a < b < u.len() implies u[a].0@ != u[b].0@ by {
        if a == i {
            let sb = b - 1;
            assert(u[b] == s[sb]);
        } else if b == i {
            assert(u[a] == s[a]);
        } else {
            let sa = if a < i { a } else { a - 1 };
            let sb = if b < i { b } else { b - 1 };
            assert(u[a] == s[sa]);
            assert(u[b] == s[sb]);
        }
    }
    assert forall|k: Seq<char>| #[trigger] assoc_map(u).contains_key(k) <==> assoc_map(s).insert(
        e.0@,
        e.1,
    ).contains_key(k) by {
        lemma_assoc_contains(u, k);
        lemma_assoc_contains(s, k);
        if exists|j: int| 0 <= j < s.len() && s[j].0@ == k {
            let j = choose|j: int| 0 <= j < s.len() && s[j].0@ == k;
            let uj = if j < i { j } else { j + 1 };
            assert(u[uj] == s[j]);
        }
        if k == e.0@ {
            assert(u[i] == e);
        }
        if exists|j: int| 0 <= j < u.len() && u[j].0@ == k {
            let j = choose|j: int| 0 <= j < u.len() && u[j].0@ == k;
            if j != i {
                let sj = if j < i { j } else { j - 1 };
                assert(u[j] == s[sj]);
            }
        }
    }
    assert forall|k: Seq<char>| #[trigger] assoc_map(u).contains_key(k) implies assoc_map(u)[k]
        == assoc_map(s).insert(e.0@, e.1)[k] by {
        lemma_assoc_contains(u, k);
        let j = choose|j: int| 0 <= j < u.len() && u[j].0@ == k;
        lemma_assoc_index(u, j);
        if j != i {
            let sj = if j < i { j } else { j - 1 };
            assert(u[j] == s[sj]);
            lemma_assoc_index(s, sj);
        }
    }
    assert(assoc_map(u) =~= assoc_map(s).insert(e.0@, e.1));
}

proof fn lemma_assoc_update<V>(s: Seq<(String, V)>, i: int, e: (String, V))
    requires
        keys_distinct(s),
        0 <= i < s.len(),
        s[i].0@ == e.0@,
    ensures
        keys_distinct(s.update(i, e)),
        assoc_map(s.update(i, e)) == assoc_map(s).insert(e.0@, e.1),
{
    let u = s.update(i, e);
    assert(keys_distinct(u));
    assert forall|k: Seq<char>| #[trigger] assoc_map(u).contains_key(k) <==> assoc_map(s).insert(
        e.0@,
        e.1,
    ).contains_key(k) by {
        lemma_assoc_contains(u, k);
        lemma_assoc_contains(s, k);
        if exists|j: int| 0 <= j < s.len() && s[j].0@ == k {
            let j = choose|j: int| 0 <= j < s.len() && s[j].0@ == k;
            assert(u[j].0@ == k);
        }
        if exists|j: int| 0 <= j < u.len() && u[j].0@ == k {
            let j = choose|j: int| 0 <= j < u.len() && u[j].0@ == k;
            assert(s[j].0@ == k);
        }
    }
    assert forall|k: Seq<char>| #[trigger] assoc_map(u).contains_key(k) implies assoc_map(u)[k]
        == assoc_map(s).insert(e.0@, e.1)[k] by {
        lemma_assoc_contains(u, k);
        let j = choose|j: int| 0 <= j < u.len() && u[j].0@ == k;
        lemma_assoc_index(u, j);
        if j != i {
            lemma_assoc_index(s, j);
        }
    }
    assert(assoc_map(u) =~= assoc_map(s).insert(e.0@, e.1));
}

/// Removing a pair removes its key from the denoted map.
pub proof fn lemma_assoc_remove<V>(s: Seq<(String, V)>, i: int)
    requires
        keys_distinct(s),
        0 <= i < s.len(),
    ensures
        keys_distinct(s.remove(i)),
        assoc_map(s.remove(i)) == assoc_map(s).remove(s[i].0@),
{
    let u = s.remove(i);
    let key = s[i].0@;
    assert forall|a: int, b: int| 0 <= a < b < u.len() implies u[a].0@ != u[b].0@ by {
        let sa = if a < i { a } else { a + 1 };
        let sb = if b < i { b } else { b + 1 };
        assert(u[a] == s[sa]);
        assert(u[b] == s[sb]);
    }
    assert forall|k: Seq<char>| #[trigger] assoc_map(u).contains_key(k) <==> assoc_map(s).remove(
        key,
    ).contains_key(k) by {
        lemma_assoc_contains(u, k);
        lemma_assoc_contains(s, k);
        if exists|j: int| 0 <= j < s.len() && s[j].0@ == k {
            let j = choose|j: int| 0 <= j < s.len() && s[j].0@ == k;
            if k != key {
                assert(j != i);
                let uj = if j < i { j } else { j - 1 };
                assert(u[uj] == s[j]);
            }
        }
        if exists|j: int| 0 <= j < u.len() && u[j].0@ == k {
            let j = choose|j: int| 0 <= j < u.len() && u[j].0@ == k;
            let sj = if j < i { j } else { j + 1 };
            assert(u[j] == s[sj]);
            assert(sj != i);
        }
    }
    assert forall|k: Seq<char>| #[trigger] assoc_map(u).contains_key(k) implies assoc_map(u)[k]
        == assoc_map(s).remove(key)[k] by {
        lemma_assoc_contains(u, k);
        let j = choose|j: int| 0 <= j < u.len() && u[j].0@ == k;
        let sj = if j < i { j } else { j + 1 };
        assert(u[j] == s[sj]);
        lemma_assoc_index(u, j);
        lemma_assoc_index(s, sj);
    }
    assert(assoc_map(u) =~= assoc_map(s).remove(key));
}

/// The position of the pair carrying `key`, when there is one.
pub fn assoc_find<V>(v: &Vec<(String, V)>, key: &String) -> (r: Option<usize>)
    ensures
        r matches Some(i) ==> i < v.len() && v@[i as int].0@ == key@,
        r is None ==> !assoc_map(v@).contains_key(key@),
{
    let mut i: usize = 0;
    while i < v.len()
        invariant
            i <= v.len(),
            forall|j: int| 0 <= j < i ==> v@[j].0@ != key@,
        decreases v.len() - i,
    {
        if v[i].0 == *key {
            return Some(i);
        }
        i = i + 1;
    }
    proof {
        lemma_assoc_contains(v@, key@);
    }
    None
}

/// The value stored under `key`, when there is one.
pub fn assoc_get<'a, V>(v: &'a Vec<(String, V)>, key: &String) -> (r: Option<&'a V>)
    requires
        keys_distinct(v@),
    ensures
        r is Some <==> assoc_map(v@).contains_key(key@),
        r matches Some(x) ==> assoc_map(v@)[key@] == *x,
{
    match assoc_find(v, key) {
        Some(i) => {
            proof {
                lemma_assoc_index(v@, i as int);
            }
            Some(&v[i].1)
        },
        None => None,
    }
}

/// Stores `val` under `key`, replacing any earlier value.
pub fn assoc_insert<V>(v: &mut Vec<(String, V)>, key: String, val: V)
    requires
        keys_distinct(old(v)@),
    ensures
        keys_distinct(final(v)@),
        assoc_map(final(v)@) == assoc_map(old(v)@).insert(key@, val),
{
    match assoc_find(v, &key) {
        Some(i) => {
            proof {
                lemma_assoc_update(v@, i as int, (key, val));
            }
            v.set(i, (key, val));
        },
        None => {
            proof {
                lemma_assoc_contains(v@, key@);
                assert forall|a: int, b: int|
                    0 <= a < b < v@.push((key, val)).len() implies v@.push((key, val))[a].0@
                    != v@.push((key, val))[b].0@ by {
                    if b == v@.len() {
                        assert(v@[a].0@ != key@);
                    } else {
                        assert(v@.push((key, val))[a] == v@[a]);
                        assert(v@.push((key, val))[b] == v@[b]);
                    }
                }
                assert(v@.push((key, val)).drop_last() =~= v@);
            }
            v.push((key, val));
        },
    }
}

/// Removes any value stored under `key`.
pub fn assoc_remove<V>(v: &mut Vec<(String, V)>, key: &String)
    requires
        keys_distinct(old(v)@),
    ensures
        keys_distinct(final(v)@),
        assoc_map(final(v)@) == assoc_map(old(v)@).remove(key@),
{
    match assoc_find(v, key) {
        Some(i) => {
            proof {
                lemma_assoc_remove(v@, i as int);
            }
            let _ = v.remove(i);
        },
        None => {
            assert(assoc_map(v@).remove(key@) =~= assoc_map(v@));
        },
    }
}

} // verus!
