//! Lists of strings: text cut at a separator, parts joined with one, and names
//! put in the order of `String`.

use vstd::prelude::*;
use crate::text::{chars_eq, chars_lt, chars_of, extend_chars, lemma_seq_lt_order, seq_lt, string_from_chars};

verus! {

/// The views of a list of character vectors.
pub open spec fn views(v: Seq<Vec<char>>) -> Seq<Seq<char>> {
    v.map_values(|x: Vec<char>| x@)
}

/// The views of a list of strings.
pub open spec fn string_views(v: Seq<String>) -> Seq<Seq<char>> {
    v.map_values(|x: String| x@)
}

/// `s` cut at every `sep`, the separators dropped (`str::split` with a
/// character): `k` separators give `k + 1` parts.
pub open spec fn split_spec(s: Seq<char>, sep: char) -> Seq<Seq<char>>
    decreases s.len(),
{
    if s.len() == 0 {
        seq![Seq::empty()]
    } else if s.last() == sep {
        split_spec(s.drop_last(), sep).push(Seq::empty())
    } else {
        let p = split_spec(s.drop_last(), sep);
        p.update(p.len() - 1, p.last().push(s.last()))
    }
}

proof fn lemma_split_nonempty(s: Seq<char>, sep: char)
    ensures
        split_spec(s, sep).len() >= 1,
    decreases s.len(),
{
    if s.len() > 0 {
        lemma_split_nonempty(s.drop_last(), sep);
    }
}

/// The parts written one after another with `sep` between each two.
pub open spec fn join_spec(parts: Seq<Seq<char>>, sep: Seq<char>) -> Seq<char>
    decreases parts.len(),
{
    if parts.len() == 0 {
        Seq::empty()
    } else if parts.len() == 1 {
        parts[0]
    } else {
        join_spec(parts.drop_last(), sep) + sep + parts.last()
    }
}

/// Cuts `s` at every `sep`.
pub fn split_chars(s: &Vec<char>, sep: char) -> (r: Vec<Vec<char>>)
    ensures
        views(r@) == split_spec(s@, sep),
{
    let mut parts: Vec<Vec<char>> = Vec::new();
    let mut cur: Vec<char> = Vec::new();
    let mut i: usize = 0;
    assert(s@.subrange(0, 0) =~= Seq::<char>::empty());
    assert(views(parts@).push(cur@) =~= split_spec(s@.subrange(0, 0), sep));
    while i < s.len()
        invariant
            i <= s.len(),
            views(parts@).push(cur@) == split_spec(s@.subrange(0, i as int), sep),
        decreases s.len() - i,
    {
        let c = s[i];
        let ghost pre = s@.subrange(0, i as int);
        let ghost next = s@.subrange(0, i + 1);
        assert(next.drop_last() =~= pre);
        assert(next.last() == c);
        if c == sep {
            let done = cur;
            parts.push(done);
            cur = Vec::new();
            assert(views(parts@).push(cur@) =~= split_spec(pre, sep).push(Seq::empty()));
        } else {
            cur.push(c);
            assert(views(parts@).push(cur@) =~= split_spec(pre, sep).update(
                split_spec(pre, sep).len() - 1,
                split_spec(pre, sep).last().push(c),
            ));
        }
        i = i + 1;
    }
    assert(s@.subrange(0, s.len() as int) =~= s@);
    parts.push(cur);
    parts
}

/// The parts joined with `sep` between each two.
pub fn join_chars(parts: &Vec<Vec<char>>, sep: &Vec<char>) -> (r: Vec<char>)
    ensures
        r@ == join_spec(views(parts@), sep@),
{
    let mut out: Vec<char> = Vec::new();
    let mut i: usize = 0;
    while i < parts.len()
        invariant
            i <= parts.len(),
            out@ == join_spec(views(parts@.subrange(0, i as int)), sep@),
        decreases parts.len() - i,
    {
        let ghost pre = parts@.subrange(0, i as int);
        let ghost next = parts@.subrange(0, i + 1);
        assert(views(next).drop_last() =~= views(pre));
        assert(views(next).last() == parts@[i as int]@);
        if i > 0 {
            extend_chars(&mut out, sep);
        }
        extend_chars(&mut out, &parts[i]);
        proof {
            if i == 0 {
                assert(views(next).len() == 1);
                assert(out@ =~= views(next)[0]);
            }
        }
        i = i + 1;
    }
    assert(parts@.subrange(0, parts.len() as int) =~= parts@);
    out
}

/// The views are pairwise different.
pub open spec fn distinct_views(v: Seq<Seq<char>>) -> bool {
    forall|i: int, j: int| 0 <= i < j < v.len() ==> v[i] != v[j]
}

/// The views are in strictly increasing order of `String`.
pub open spec fn sorted_views(v: Seq<Seq<char>>) -> bool {
    forall|i: int, j: int| 0 <= i < j < v.len() ==> seq_lt(v[i], v[j])
}

/// Distinct names in increasing order of `String`, as `sort` puts them.
pub fn sorted_names(v: &Vec<String>) -> (r: Vec<String>)
    requires
        distinct_views(string_views(v@)),
    ensures
        sorted_views(string_views(r@)),
        string_views(r@).to_set() == string_views(v@).to_set(),
        r@.len() == v@.len(),
{
    let mut sorted: Vec<String> = Vec::new();
    let mut i: usize = 0;
    assert(string_views(v@.subrange(0, 0)).to_set() =~= string_views(sorted@).to_set());
    while i < v.len()
        invariant
            i <= v.len(),
            distinct_views(string_views(v@)),
            sorted_views(string_views(sorted@)),
            string_views(sorted@).to_set() == string_views(v@.subrange(0, i as int)).to_set(),
            sorted@.len() == i,
        decreases v.len() - i,
    {
        let name = v[i].clone();
        let key = chars_of(name.as_str());
        let ghost sv = string_views(sorted@);
        let ghost pre = string_views(v@.subrange(0, i as int));
        proof {
            assert(!pre.contains(name@)) by {
                if pre.contains(name@) {
                    let k = choose|k: int| 0 <= k < pre.len() && pre[k] == name@;
                    assert(string_views(v@)[k] == string_views(v@)[i as int]);
                }
            }
            assert(!sv.contains(name@)) by {
                if sv.contains(name@) {
                    let k = choose|k: int| 0 <= k < sv.len() && sv[k] == name@;
                    assert(sv.to_set().contains(name@));
                    assert(pre.to_set().contains(name@));
                }
            }
        }
        let mut j: usize = 0;
        while j < sorted.len() && chars_lt(&chars_of(sorted[j].as_str()), &key)
            invariant
                j <= sorted.len(),
                key@ == name@,
                sv == string_views(sorted@),
                forall|t: int| 0 <= t < j ==> seq_lt(#[trigger] sv[t], key@),
            decreases sorted.len() - j,
        {
            j = j + 1;
        }
        proof {
            let u = sv.insert(j as int, name@);
            if j < sv.len() {
                assert(sv[j as int] != name@) by {
                    assert(sv.contains(sv[j as int]));
                }
                lemma_seq_lt_order(name@, sv[j as int], name@);
            }
            assert forall|a: int, b: int| 0 <= a < b < u.len() implies seq_lt(u[a], u[b]) by {
                if a == j {
                    assert(u[b] == sv[b - 1]);
                    if b - 1 > j {
                        lemma_seq_lt_order(name@, sv[j as int], sv[b - 1]);
                    }
                } else if b == j {
                    assert(u[a] == sv[a]);
                } else {
                    let sa = if a < j { a } else { a - 1 };
                    let sb = if b < j { b } else { b - 1 };
                    assert(u[a] == sv[sa]);
                    assert(u[b] == sv[sb]);
                }
            }
        }
        sorted.insert(j, name);
        proof {
            let u = sv.insert(j as int, v@[i as int]@);
            assert(string_views(sorted@) =~= u);
            let next = string_views(v@.subrange(0, i + 1));
            assert(next =~= pre.push(v@[i as int]@));
            assert(u.to_set() =~= sv.to_set().insert(v@[i as int]@)) by {
                assert forall|x: Seq<char>| u.to_set().contains(x) implies sv.to_set().insert(
                    v@[i as int]@,
                ).contains(x) by {
                    let k = choose|k: int| 0 <= k < u.len() && u[k] == x;
                    if k < j {
                        assert(sv[k] == x);
                    } else if k > j {
                        assert(sv[k - 1] == x);
                    }
                }
                assert forall|x: Seq<char>| sv.to_set().insert(v@[i as int]@).contains(x) implies u.to_set().contains(x) by {
                    if x == v@[i as int]@ {
                        assert(u[j as int] == x);
                    } else {
                        let k = choose|k: int| 0 <= k < sv.len() && sv[k] == x;
                        if k < j {
                            assert(u[k] == x);
                        } else {
                            assert(u[k + 1] == x);
                        }
                    }
                }
            }
            assert(next.to_set() =~= pre.to_set().insert(v@[i as int]@)) by {
                assert forall|x: Seq<char>| next.to_set().contains(x) implies pre.to_set().insert(
                    v@[i as int]@,
                ).contains(x) by {
                    let k = choose|k: int| 0 <= k < next.len() && next[k] == x;
                    if k < pre.len() {
                        assert(pre[k] == x);
                    }
                }
                assert forall|x: Seq<char>| pre.to_set().insert(v@[i as int]@).contains(x) implies next.to_set().contains(x) by {
                    if x == v@[i as int]@ {
                        assert(next[i as int] == x);
                    } else {
                        let k = choose|k: int| 0 <= k < pre.len() && pre[k] == x;
                        assert(next[k] == x);
                    }
                }
            }
        }
        i = i + 1;
    }
    assert(v@.subrange(0, v.len() as int) =~= v@);
    sorted
}

/// The index of the first name equal to `k`.
pub open spec fn index_of_name(names: Seq<Seq<char>>, k: Seq<char>) -> Option<int>
    decreases names.len(),
{
    if names.len() == 0 {
        None
    } else {
        match index_of_name(names.drop_last(), k) {
            Some(i) => Some(i),
            None => if names.last() == k {
                Some(names.len() - 1)
            } else {
                None
            },
        }
    }
}

/// The index of the first name in `names` equal to `key`.
pub fn find_name(names: &Vec<String>, key: &Vec<char>) -> (r: Option<usize>)
    ensures
        r matches Some(i) ==> i < names@.len() && index_of_name(string_views(names@), key@) == Some(
            i as int,
        ),
        r is None ==> index_of_name(string_views(names@), key@) is None,
{
    let mut i: usize = 0;
    while i < names.len()
        invariant
            i <= names.len(),
            index_of_name(string_views(names@.subrange(0, i as int)), key@) is None,
        decreases names.len() - i,
    {
        let ghost pre = string_views(names@.subrange(0, i as int));
        let ghost next = string_views(names@.subrange(0, i + 1));
        assert(next.drop_last() =~= pre);
        assert(next.last() == names@[i as int]@);
        if chars_eq(&chars_of(names[i].as_str()), key) {
            proof {
                assert(index_of_name(next, key@) == Some(i as int));
                assert(string_views(names@).subrange(0, i + 1) =~= next);
                lemma_index_of_prefix(string_views(names@), key@, i + 1);
            }
            return Some(i);
        }
        i = i + 1;
    }
    assert(names@.subrange(0, names.len() as int) =~= names@);
    None
}

/// A name found in a prefix is found at the same place in the whole list.
proof fn lemma_index_of_prefix(names: Seq<Seq<char>>, k: Seq<char>, n: int)
    requires
        0 <= n <= names.len(),
        index_of_name(names.subrange(0, n), k) is Some,
    ensures
        index_of_name(names, k) == index_of_name(names.subrange(0, n), k),
    decreases names.len() - n,
{
    if n < names.len() {
        assert(names.subrange(0, n + 1).drop_last() =~= names.subrange(0, n));
        lemma_index_of_prefix(names, k, n + 1);
    } else {
        assert(names.subrange(0, n) =~= names);
    }
}

/// The strings of `parts` joined with `sep` between each two (`[String]::join`).
pub fn join_strings(parts: &Vec<String>, sep: &str) -> (r: String)
    ensures
        r@ == join_spec(string_views(parts@), sep@),
{
    let mut vs: Vec<Vec<char>> = Vec::new();
    let mut i: usize = 0;
    while i < parts.len()
        invariant
            i <= parts.len(),
            vs@.len() == i,
            views(vs@) == string_views(parts@.subrange(0, i as int)),
        decreases parts.len() - i,
    {
        let ghost before = vs@;
        let c = chars_of(parts[i].as_str());
        vs.push(c);
        assert forall|k: int| 0 <= k < i implies #[trigger] views(vs@)[k] == string_views(
            parts@.subrange(0, i + 1),
        )[k] by {
            assert(vs@[k] == before[k]);
            assert(views(before)[k] == string_views(parts@.subrange(0, i as int))[k]);
        }
        assert(views(vs@)[i as int] == string_views(parts@.subrange(0, i + 1))[i as int]);
        i = i + 1;
        assert(views(vs@) =~= string_views(parts@.subrange(0, i as int)));
    }
    assert(parts@.subrange(0, parts.len() as int) =~= parts@);
    let s = chars_of(sep);
    string_from_chars(&join_chars(&vs, &s))
}


/// Cutting at a separator and joining with it gives the text back.
pub proof fn lemma_join_split(s: Seq<char>, sep: char)
    ensures
        join_spec(split_spec(s, sep), seq![sep]) == s,
    decreases s.len(),
{
    if s.len() > 0 {
        let t = s.drop_last();
        lemma_join_split(t, sep);
        lemma_split_nonempty(t, sep);
        let p = split_spec(t, sep);
        if s.last() == sep {
            let q = p.push(Seq::<char>::empty());
            assert(q.drop_last() =~= p);
            assert(join_spec(q, seq![sep]) =~= t + seq![sep]);
        } else {
            let q = p.update(p.len() - 1, p.last().push(s.last()));
            lemma_join_update_last(p, seq![sep], s.last());
            assert(join_spec(q, seq![sep]) =~= join_spec(p, seq![sep]).push(s.last()));
        }
        assert(t.push(s.last()) =~= s);
    }
}

/// Appending to the last part appends to the joined text.
proof fn lemma_join_update_last(p: Seq<Seq<char>>, sep: Seq<char>, c: char)
    requires
        p.len() >= 1,
    ensures
        join_spec(p.update(p.len() - 1, p.last().push(c)), sep) == join_spec(p, sep).push(c),
{
    let q = p.update(p.len() - 1, p.last().push(c));
    if p.len() == 1 {
        assert(q[0] == p[0].push(c));
    } else {
        assert(q.drop_last() =~= p.drop_last());
        assert(q.last() == p.last().push(c));
        assert(join_spec(q, sep) =~= join_spec(p, sep).push(c));
    }
}

} // verus!
