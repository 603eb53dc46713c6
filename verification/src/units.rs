//! Units as maps from base-dimension names to exact rational exponents.
//!
//! `RationalUnit` is read as the `Map` from each base name to its exponent
//! `(numerator, denominator)`. Multiplying units adds exponents, dividing
//! subtracts them, raising to a power multiplies them; an exponent that comes out
//! zero is dropped, so a dimensionless unit is the empty map.

use vstd::prelude::*;
use std::hash::BuildHasher;
use crate::assoc::{
    assoc_get, assoc_insert, assoc_map, assoc_remove, keys_distinct, lemma_assoc_contains,
    lemma_assoc_index, lemma_assoc_insert_at, lemma_assoc_remove,
};
use crate::error::PhysureError;
use crate::text::{
    chars_lt, chars_of, extend_chars, lemma_seq_lt_order, seq_lt, signed_decimal_chars,
    signed_decimal_spec, string_from_chars,
};
use crate::rational::{
    add_fits, gcd, is_ratio, lemma_pos_mul, lemma_normalize, lemma_normalize_canonical, lemma_normalize_value,
    mul_fits, normalize, ratio_add, ratio_mul, ratio_new, ratio_sub,
};

verus! {

/// A unit with rational exponents.
///
/// `dimensions` holds one pair per base name (names are distinct); `id` is the
/// fingerprint `calculate_id` gives those dimensions.
#[derive(Debug)]
pub struct RationalUnit {
    /// Base names with their exponents as `(numerator, denominator)`.
    pub dimensions: Vec<(String, (i64, i64))>,
    /// The fingerprint of `dimensions`.
    pub id: u64,
}

impl View for RationalUnit {
    type V = Map<Seq<char>, (i64, i64)>;

    open spec fn view(&self) -> Map<Seq<char>, (i64, i64)> {
        assoc_map(self.dimensions@)
    }
}

/// The hash that `DefaultHasher` gives one dimension: its name, then its exponent
/// pair, hashed in that order.
pub uninterp spec fn dimension_hash(name: Seq<char>, exponent: (i64, i64)) -> u64;

/// The fingerprint of a list of dimensions: the exclusive-or of their hashes, so
/// it does not depend on the order the list holds them in.
pub open spec fn id_of(s: Seq<(String, (i64, i64))>) -> u64
    decreases s.len(),
{
    if s.len() == 0 {
        0
    } else {
        id_of(s.drop_last()) ^ dimension_hash(s.last().0@, s.last().1)
    }
}

/// An exponent that `Ratio::new` accepts without panicking.
pub open spec fn entry_ok(r: (i64, i64)) -> bool {
    r.1 != 0 && r.0 != i64::MIN && r.1 != i64::MIN
}

/// An exponent read as the reduced rational it denotes.
pub open spec fn reduce(r: (i64, i64)) -> (i64, i64) {
    let q = normalize(r.0 as int, r.1 as int);
    (q.0 as i64, q.1 as i64)
}

/// The exponent of `k` in `m`; an absent base has exponent `0/1`.
pub open spec fn exp_at(m: Map<Seq<char>, (i64, i64)>, k: Seq<char>) -> (i64, i64) {
    if m.contains_key(k) {
        m[k]
    } else {
        (0, 1)
    }
}

/// The reduced sum (or, with `subtract`, difference) of two exponents.
pub open spec fn combine_exp(x: (i64, i64), y: (i64, i64), subtract: bool) -> (i64, i64) {
    let a = reduce(x);
    let b = reduce(y);
    let s = if subtract {
        normalize(a.0 * b.1 - b.0 * a.1, a.1 * b.1)
    } else {
        normalize(a.0 * b.1 + b.0 * a.1, a.1 * b.1)
    };
    (s.0 as i64, s.1 as i64)
}

/// The reduced product of two exponents.
pub open spec fn prod_exp(x: (i64, i64), e: (i64, i64)) -> (i64, i64) {
    let a = reduce(x);
    let b = reduce(e);
    let s = normalize(a.0 * b.0, a.1 * b.1);
    (s.0 as i64, s.1 as i64)
}

/// The dimensions of `m * o` (or `m / o` with `subtract`): every base of `o` gets
/// the combined exponent and is dropped if that is zero; every other base of `m`
/// keeps its exponent untouched.
pub open spec fn merge_dims(
    m: Map<Seq<char>, (i64, i64)>,
    o: Map<Seq<char>, (i64, i64)>,
    subtract: bool,
) -> Map<Seq<char>, (i64, i64)> {
    Map::new(
        |k: Seq<char>|
            if o.contains_key(k) {
                combine_exp(exp_at(m, k), o[k], subtract).0 != 0
            } else {
                m.contains_key(k)
            },
        |k: Seq<char>|
            if o.contains_key(k) {
                combine_exp(exp_at(m, k), o[k], subtract)
            } else {
                m[k]
            },
    )
}

/// The inputs on which combining `m` with `o` stays inside `i64` throughout.
pub open spec fn merge_ok(m: Map<Seq<char>, (i64, i64)>, o: Map<Seq<char>, (i64, i64)>) -> bool {
    forall|k: Seq<char>|
        #![trigger o[k]]
        o.contains_key(k) ==> {
            &&& entry_ok(o[k])
            &&& entry_ok(exp_at(m, k))
            &&& add_fits(reduce(exp_at(m, k)), reduce(o[k]))
        }
}

/// The dimensions of `m` raised to the rational power `e`: every exponent is
/// multiplied by `e` and dropped if the product is zero.
pub open spec fn pow_dims(m: Map<Seq<char>, (i64, i64)>, e: (i64, i64)) -> Map<Seq<char>, (i64, i64)> {
    Map::new(
        |k: Seq<char>| m.contains_key(k) && prod_exp(m[k], e).0 != 0,
        |k: Seq<char>| prod_exp(m[k], e),
    )
}

/// The inputs on which raising `m` to `e` stays inside `i64` throughout.
pub open spec fn pow_ok(m: Map<Seq<char>, (i64, i64)>, e: (i64, i64)) -> bool {
    &&& entry_ok(e)
    &&& forall|k: Seq<char>|
        #![trigger m[k]]
        m.contains_key(k) ==> entry_ok(m[k]) && mul_fits(reduce(m[k]), reduce(e))
}

/// `reduce` of an acceptable exponent is a canonical rational no larger than it.
pub proof fn lemma_reduce(r: (i64, i64))
    requires
        entry_ok(r),
    ensures
        is_ratio(reduce(r)),
        reduce(r).0 as int == normalize(r.0 as int, r.1 as int).0,
        reduce(r).1 as int == normalize(r.0 as int, r.1 as int).1,
{
    lemma_normalize(r.0 as int, r.1 as int);
}

proof fn lemma_merge_step(
    m: Map<Seq<char>, (i64, i64)>,
    p: Map<Seq<char>, (i64, i64)>,
    k: Seq<char>,
    y: (i64, i64),
    subtract: bool,
)
    requires
        !p.contains_key(k),
    ensures
        exp_at(merge_dims(m, p, subtract), k) == exp_at(m, k),
        ({
            let c = combine_exp(exp_at(m, k), y, subtract);
            merge_dims(m, p.insert(k, y), subtract) == if c.0 == 0 {
                merge_dims(m, p, subtract).remove(k)
            } else {
                merge_dims(m, p, subtract).insert(k, c)
            }
        }),
{
    let c = combine_exp(exp_at(m, k), y, subtract);
    let lhs = merge_dims(m, p.insert(k, y), subtract);
    let base = merge_dims(m, p, subtract);
    if c.0 == 0 {
        assert(lhs =~= base.remove(k));
    } else {
        assert(lhs =~= base.insert(k, c));
    }
}

proof fn lemma_pow_step(
    m: Map<Seq<char>, (i64, i64)>,
    k: Seq<char>,
    x: (i64, i64),
    e: (i64, i64),
)
    requires
        !m.contains_key(k),
    ensures
        ({
            let c = prod_exp(x, e);
            pow_dims(m.insert(k, x), e) == if c.0 == 0 {
                pow_dims(m, e)
            } else {
                pow_dims(m, e).insert(k, c)
            }
        }),
{
    let c = prod_exp(x, e);
    if c.0 == 0 {
        assert(pow_dims(m.insert(k, x), e) =~= pow_dims(m, e));
    } else {
        assert(pow_dims(m.insert(k, x), e) =~= pow_dims(m, e).insert(k, c));
    }
}

proof fn lemma_prefix_map(s: Seq<(String, (i64, i64))>, i: int)
    requires
        keys_distinct(s),
        0 <= i < s.len(),
    ensures
        assoc_map(s.subrange(0, i + 1)) == assoc_map(s.subrange(0, i)).insert(s[i].0@, s[i].1),
        !assoc_map(s.subrange(0, i)).contains_key(s[i].0@),
        assoc_map(s).contains_key(s[i].0@),
        assoc_map(s)[s[i].0@] == s[i].1,
{
    assert(s.subrange(0, i + 1).drop_last() =~= s.subrange(0, i));
    lemma_assoc_contains(s.subrange(0, i), s[i].0@);
    lemma_assoc_index(s, i);
}

/// How one dimension is written: `name` for an exponent of one, `name^n` for a
/// whole exponent and `name^n/d` otherwise.
pub open spec fn part_spec(k: Seq<char>, e: (i64, i64)) -> Seq<char> {
    if e.0 == 1 && e.1 == 1 {
        k
    } else if e.1 == 1 {
        k + seq!['^'] + signed_decimal_spec(e.0 as int)
    } else {
        k + seq!['^'] + signed_decimal_spec(e.0 as int) + seq!['/'] + signed_decimal_spec(
            e.1 as int,
        )
    }
}

/// The dimensions written one after another, separated by ` * `.
pub open spec fn join_spec(s: Seq<(String, (i64, i64))>) -> Seq<char>
    decreases s.len(),
{
    if s.len() == 0 {
        Seq::empty()
    } else if s.len() == 1 {
        part_spec(s[0].0@, s[0].1)
    } else {
        join_spec(s.drop_last()) + seq![' ', '*', ' '] + part_spec(s.last().0@, s.last().1)
    }
}

/// The names are in increasing `String` order.
pub open spec fn sorted_by_name(s: Seq<(String, (i64, i64))>) -> bool {
    forall|i: int, j: int| 0 <= i < j < s.len() ==> seq_lt(s[i].0@, s[j].0@)
}

/// The dimensions in increasing order of name.
fn sort_dimensions(v: &Vec<(String, (i64, i64))>) -> (r: Vec<(String, (i64, i64))>)
    requires
        keys_distinct(v@),
    ensures
        sorted_by_name(r@),
        keys_distinct(r@),
        assoc_map(r@) == assoc_map(v@),
{
    let mut sorted: Vec<(String, (i64, i64))> = Vec::new();
    let mut i: usize = 0;
    assert(v@.subrange(0, 0) =~= Seq::<(String, (i64, i64))>::empty());
    while i < v.len()
        invariant
            keys_distinct(v@),
            i <= v.len(),
            sorted_by_name(sorted@),
            keys_distinct(sorted@),
            assoc_map(sorted@) == assoc_map(v@.subrange(0, i as int)),
        decreases v.len() - i,
    {
        let name = v[i].0.clone();
        let key = chars_of(name.as_str());
        proof {
            assert(v@.subrange(0, i + 1).drop_last() =~= v@.subrange(0, i as int));
            lemma_assoc_contains(v@.subrange(0, i as int), v@[i as int].0@);
        }
        let mut j: usize = 0;
        while j < sorted.len() && chars_lt(&chars_of(sorted[j].0.as_str()), &key)
            invariant
                j <= sorted.len(),
                key@ == name@,
                forall|t: int| 0 <= t < j ==> seq_lt(#[trigger] sorted@[t].0@, key@),
            decreases sorted.len() - j,
        {
            j = j + 1;
        }
        let ghost old_sorted = sorted@;
        let ghost e = (name, v@[i as int].1);
        proof {
            lemma_assoc_insert_at(old_sorted, j as int, e);
            if j < old_sorted.len() {
                lemma_assoc_contains(old_sorted, name@);
                assert(old_sorted[j as int].0@ != name@);
                lemma_seq_lt_order(name@, old_sorted[j as int].0@, name@);
            }
            let u = old_sorted.insert(j as int, e);
            assert forall|a: int, b: int| 0 <= a < b < u.len() implies seq_lt(u[a].0@, u[b].0@) by {
                if a == j {
                    assert(u[b] == old_sorted[b - 1]);
                    if b - 1 > j {
                        lemma_seq_lt_order(name@, old_sorted[j as int].0@, old_sorted[b - 1].0@);
                    }
                } else if b == j {
                    assert(u[a] == old_sorted[a]);
                } else {
                    let sa = if a < j { a } else { a - 1 };
                    let sb = if b < j { b } else { b - 1 };
                    assert(u[a] == old_sorted[sa]);
                    assert(u[b] == old_sorted[sb]);
                }
            }
        }
        sorted.insert(j, (name, v[i].1));
        i = i + 1;
    }
    assert(v@.subrange(0, v.len() as int) =~= v@);
    sorted
}

/// Appends how one dimension is written.
fn push_part(out: &mut Vec<char>, name: &String, e: (i64, i64))
    ensures
        final(out)@ == old(out)@ + part_spec(name@, e),
{
    let k = chars_of(name.as_str());
    extend_chars(out, &k);
    if e.0 == 1 && e.1 == 1 {
        return;
    }
    out.push('^');
    let n = signed_decimal_chars(e.0);
    extend_chars(out, &n);
    if e.1 == 1 {
        return;
    }
    out.push('/');
    let d = signed_decimal_chars(e.1);
    extend_chars(out, &d);
}

/// Hashes one dimension with `DefaultHasher`, name first and exponent second.
#[verifier::external_body]
fn hash_dimension(name: &String, exponent: (i64, i64)) -> (h: u64)
    ensures
        h == dimension_hash(name@, exponent),
{
    std::hash::BuildHasherDefault::<std::collections::hash_map::DefaultHasher>::default().hash_one(
        (name, &exponent),
    )
}

/// Copies a list of dimensions.
pub fn clone_dimensions(v: &Vec<(String, (i64, i64))>) -> (r: Vec<(String, (i64, i64))>)
    ensures
        r@ == v@,
{
    let mut r: Vec<(String, (i64, i64))> = Vec::new();
    let mut i: usize = 0;
    while i < v.len()
        invariant
            i <= v.len(),
            r@ == v@.subrange(0, i as int),
        decreases v.len() - i,
    {
        let name = v[i].0.clone();
        r.push((name, v[i].1));
        i = i + 1;
        assert(r@ =~= v@.subrange(0, i as int));
    }
    assert(v@.subrange(0, v.len() as int) =~= v@);
    r
}

impl RationalUnit {
    /// The dimensions have distinct names and `id` is their fingerprint.
    pub open spec fn wf(&self) -> bool {
        &&& keys_distinct(self.dimensions@)
        &&& self.id == id_of(self.dimensions@)
    }

    /// Well formed, and every exponent is a non-zero reduced rational: the form
    /// every arithmetic result on such units comes out in.
    pub open spec fn canonical(&self) -> bool {
        &&& self.wf()
        &&& forall|k: Seq<char>|
            #![trigger self@[k]]
            self@.contains_key(k) ==> is_ratio(self@[k]) && self@[k].0 != 0
    }

    /// `Some((n, den))` for a non-zero numerator and `None` for a zero one.
    pub fn parse_exponent_tuple(n: i64, den: i64) -> (r: Option<(i64, i64)>)
        ensures
            r == (if n != 0 { Some((n, den)) } else { None::<(i64, i64)> }),
    {
        if n != 0 {
            Some((n, den))
        } else {
            None
        }
    }

    /// The fingerprint of a list of dimensions: the exclusive-or of the hash of
    /// every `(name, exponent)` pair.
    pub fn calculate_id(dimensions: &Vec<(String, (i64, i64))>) -> (h: u64)
        ensures
            h == id_of(dimensions@),
    {
        let mut h: u64 = 0;
        let mut i: usize = 0;
        while i < dimensions.len()
            invariant
                i <= dimensions.len(),
                h == id_of(dimensions@.subrange(0, i as int)),
            decreases dimensions.len() - i,
        {
            let x = hash_dimension(&dimensions[i].0, dimensions[i].1);
            proof {
                assert(dimensions@.subrange(0, i + 1).drop_last() =~= dimensions@.subrange(
                    0,
                    i as int,
                ));
            }
            h = h ^ x;
            i = i + 1;
        }
        assert(dimensions@.subrange(0, dimensions.len() as int) =~= dimensions@);
        h
    }

    /// A unit with the given dimensions and their fingerprint.
    pub fn new_from_dimensions(dimensions: Vec<(String, (i64, i64))>) -> (r: Self)
        requires
            keys_distinct(dimensions@),
        ensures
            r.wf(),
            r.dimensions@ == dimensions@,
    {
        let id = Self::calculate_id(&dimensions);
        RationalUnit { dimensions, id }
    }

    /// The unit with no dimensions at all.
    pub fn dimensionless() -> (r: Self)
        ensures
            r.canonical(),
            r@ == Map::<Seq<char>, (i64, i64)>::empty(),
    {
        let v: Vec<(String, (i64, i64))> = Vec::new();
        let r = Self::new_from_dimensions(v);
        assert(r@ =~= Map::<Seq<char>, (i64, i64)>::empty());
        r
    }

    /// A copy of the dimensions.
    pub fn dimensions(&self) -> (r: Vec<(String, (i64, i64))>)
        ensures
            r@ == self.dimensions@,
    {
        clone_dimensions(&self.dimensions)
    }

    /// The exponent of one base, when the unit has that base.
    pub fn exponent(&self, base: &str) -> (r: Option<(i64, i64)>)
        requires
            self.wf(),
        ensures
            r is Some <==> self@.contains_key(base@),
            r matches Some(e) ==> self@[base@] == e,
    {
        let key = String::from_str(base);
        match assoc_get(&self.dimensions, &key) {
            Some(e) => Some(*e),
            None => None,
        }
    }

    /// Whether the unit has no dimensions.
    pub fn is_dimensionless(&self) -> (r: bool)
        ensures
            r == (self@ == Map::<Seq<char>, (i64, i64)>::empty()),
    {
        proof {
            if self.dimensions@.len() > 0 {
                lemma_assoc_contains(self.dimensions@, self.dimensions@[0].0@);
                assert(self@.contains_key(self.dimensions@[0].0@));
            } else {
                assert(self@ =~= Map::<Seq<char>, (i64, i64)>::empty());
            }
        }
        self.dimensions.len() == 0
    }

    /// Adds (or, with `subtract`, subtracts) the exponents of `other` into a copy
    /// of these dimensions, dropping every exponent that comes out zero.
    fn merge(&self, other: &Self, subtract: bool) -> (r: Self)
        requires
            self.wf(),
            other.wf(),
            merge_ok(self@, other@),
        ensures
            r.wf(),
            r@ == merge_dims(self@, other@, subtract),
    {
        let mut new_dims = clone_dimensions(&self.dimensions);
        let ghost o = other.dimensions@;
        proof {
            assert(o.subrange(0, 0) =~= Seq::<(String, (i64, i64))>::empty());
            assert(merge_dims(self@, assoc_map(o.subrange(0, 0)), subtract) =~= self@);
        }
        let mut i: usize = 0;
        while i < other.dimensions.len()
            invariant
                self.wf(),
                other.wf(),
                merge_ok(self@, other@),
                o == other.dimensions@,
                i <= o.len(),
                keys_distinct(new_dims@),
                assoc_map(new_dims@) == merge_dims(self@, assoc_map(o.subrange(0, i as int)), subtract),
            decreases o.len() - i,
        {
            let base = &other.dimensions[i].0;
            let exp = other.dimensions[i].1;
            let ghost prev = assoc_map(o.subrange(0, i as int));
            proof {
                lemma_prefix_map(o, i as int);
                lemma_merge_step(self@, prev, base@, exp, subtract);
            }
            let current = match assoc_get(&new_dims, base) {
                Some(c) => *c,
                None => (0i64, 1i64),
            };
            assert(current == exp_at(self@, base@));
            assert(other@[base@] == exp);
            proof {
                lemma_reduce(current);
                lemma_reduce(exp);
            }
            let r1 = ratio_new(current.0, current.1);
            let r2 = ratio_new(exp.0, exp.1);
            let res = if subtract {
                ratio_sub(r1, r2)
            } else {
                ratio_add(r1, r2)
            };
            assert(res == combine_exp(current, exp, subtract));
            if res.0 == 0 {
                assoc_remove(&mut new_dims, base);
            } else {
                assoc_insert(&mut new_dims, base.clone(), res);
            }
            i = i + 1;
        }
        assert(o.subrange(0, o.len() as int) =~= o);
        Self::new_from_dimensions(new_dims)
    }

    /// The product of two units: exponents of shared bases add, and a base whose
    /// exponent cancels to zero disappears.
    pub fn mul(&self, other: &Self) -> (r: Self)
        requires
            self.wf(),
            other.wf(),
            merge_ok(self@, other@),
        ensures
            r.wf(),
            r@ == merge_dims(self@, other@, false),
    {
        self.merge(other, false)
    }

    /// The quotient of two units: the exponents of `other` are subtracted, and a
    /// base whose exponent cancels to zero disappears.
    pub fn div(&self, other: &Self) -> (r: Self)
        requires
            self.wf(),
            other.wf(),
            merge_ok(self@, other@),
        ensures
            r.wf(),
            r@ == merge_dims(self@, other@, true),
    {
        self.merge(other, true)
    }

    /// The unit raised to the rational power `exp_r = (numerator, denominator)`:
    /// every exponent is multiplied by it, and products that are zero disappear.
    pub fn pow(&self, exp_r: (i64, i64)) -> (r: Self)
        requires
            self.wf(),
            pow_ok(self@, exp_r),
        ensures
            r.wf(),
            r@ == pow_dims(self@, exp_r),
            forall|k: Seq<char>|
                #[trigger] r@.contains_key(k) ==> self@.contains_key(k) && (r@[k].0 as int, r@[k].1 as int)
                    == normalize(self@[k].0 * exp_r.0, self@[k].1 * exp_r.1),
            forall|k: Seq<char>|
                #[trigger] self@.contains_key(k) ==> (r@.contains_key(k) <==> (self@[k].0 != 0
                    && exp_r.0 != 0)),
    {
        proof {
            lemma_reduce(exp_r);
            assert forall|k: Seq<char>| #[trigger] pow_dims(self@, exp_r).contains_key(k) || self@.contains_key(k)
                implies (pow_dims(self@, exp_r).contains_key(k) ==> self@.contains_key(k) && (
                pow_dims(self@, exp_r)[k].0 as int,
                pow_dims(self@, exp_r)[k].1 as int,
            ) == normalize(self@[k].0 * exp_r.0, self@[k].1 * exp_r.1)) && (self@.contains_key(k)
                ==> (pow_dims(self@, exp_r).contains_key(k) <==> (self@[k].0 != 0 && exp_r.0 != 0))) by {
                lemma_pow_multiplies_exponents(*self, exp_r, k);
            }
        }
        let e = ratio_new(exp_r.0, exp_r.1);
        let mut new_dims: Vec<(String, (i64, i64))> = Vec::new();
        let ghost s = self.dimensions@;
        proof {
            assert(s.subrange(0, 0) =~= Seq::<(String, (i64, i64))>::empty());
            assert(pow_dims(assoc_map(s.subrange(0, 0)), exp_r) =~= assoc_map(new_dims@));
        }
        let mut i: usize = 0;
        while i < self.dimensions.len()
            invariant
                self.wf(),
                pow_ok(self@, exp_r),
                is_ratio(e),
                e == reduce(exp_r),
                s == self.dimensions@,
                i <= s.len(),
                keys_distinct(new_dims@),
                assoc_map(new_dims@) == pow_dims(assoc_map(s.subrange(0, i as int)), exp_r),
            decreases s.len() - i,
        {
            let base = &self.dimensions[i].0;
            let x = self.dimensions[i].1;
            let ghost prev = assoc_map(s.subrange(0, i as int));
            proof {
                lemma_prefix_map(s, i as int);
                lemma_pow_step(prev, base@, x, exp_r);
                assert(self@[base@] == x);
                lemma_reduce(x);
            }
            let r1 = ratio_new(x.0, x.1);
            let res = ratio_mul(r1, e);
            assert(res == prod_exp(x, exp_r));
            if res.0 != 0 {
                assoc_insert(&mut new_dims, base.clone(), res);
            }
            i = i + 1;
        }
        assert(s.subrange(0, s.len() as int) =~= s);
        Self::new_from_dimensions(new_dims)
    }

    /// The unit written out: `Dimensionless` for no dimensions, otherwise every
    /// dimension in increasing order of name, separated by ` * `.
    pub fn __repr__(&self) -> (r: String)
        requires
            self.wf(),
        ensures
            self@ == Map::<Seq<char>, (i64, i64)>::empty() ==> r@ == "Dimensionless"@,
            self@ != Map::<Seq<char>, (i64, i64)>::empty() ==> exists|s: Seq<(String, (i64, i64))>|
                sorted_by_name(s) && keys_distinct(s) && assoc_map(s) == self@ && r@ == join_spec(
                    s,
                ),
    {
        if self.is_dimensionless() {
            return string_from_chars(&chars_of("Dimensionless"));
        }
        let sorted = sort_dimensions(&self.dimensions);
        let mut out: Vec<char> = Vec::new();
        let mut i: usize = 0;
        assert(sorted@.len() > 0) by {
            if sorted@.len() == 0 {
                assert(assoc_map(sorted@) =~= Map::<Seq<char>, (i64, i64)>::empty());
            }
        }
        while i < sorted.len()
            invariant
                i <= sorted.len(),
                out@ == join_spec(sorted@.subrange(0, i as int)),
            decreases sorted.len() - i,
        {
            proof {
                assert(sorted@.subrange(0, i + 1).drop_last() =~= sorted@.subrange(0, i as int));
            }
            if i > 0 {
                out.push(' ');
                out.push('*');
                out.push(' ');
            }
            push_part(&mut out, &sorted[i].0, sorted[i].1);
            proof {
                if i == 0 {
                    assert(out@ =~= join_spec(sorted@.subrange(0, 1)));
                } else {
                    assert(out@ =~= join_spec(sorted@.subrange(0, i + 1)));
                }
            }
            i = i + 1;
        }
        assert(sorted@.subrange(0, sorted.len() as int) =~= sorted@);
        string_from_chars(&out)
    }

    /// The same text as `__repr__`; the unit system and alias options are accepted
    /// and do not change it.
    pub fn to_string(
        &self,
        _system: Option<()>,
        _use_alias: bool,
        _alias_preference: Option<()>,
    ) -> (r: String)
        requires
            self.wf(),
        ensures
            self@ == Map::<Seq<char>, (i64, i64)>::empty() ==> r@ == "Dimensionless"@,
            self@ != Map::<Seq<char>, (i64, i64)>::empty() ==> exists|s: Seq<(String, (i64, i64))>|
                sorted_by_name(s) && keys_distinct(s) && assoc_map(s) == self@ && r@ == join_spec(
                    s,
                ),
    {
        self.__repr__()
    }

    /// The fingerprint, which is what the unit hashes as.
    pub fn __hash__(&self) -> (r: u64)
        ensures
            r == self.id,
    {
        self.id
    }

    /// Whether two units have the same dimensions with the same exponents.
    pub fn __eq__(&self, other: &RationalUnit) -> (r: bool)
        requires
            self.wf(),
            other.wf(),
        ensures
            r == (self@ == other@),
    {
        if !Self::dims_within(&self.dimensions, &other.dimensions) {
            return false;
        }
        if !Self::dims_within(&other.dimensions, &self.dimensions) {
            return false;
        }
        proof {
            assert forall|k: Seq<char>| #[trigger] self@.contains_key(k) <==> other@.contains_key(
                k,
            ) by {}
            assert(self@ =~= other@);
        }
        true
    }

    /// Whether every dimension of `a` is in `b` with the same exponent.
    fn dims_within(a: &Vec<(String, (i64, i64))>, b: &Vec<(String, (i64, i64))>) -> (r: bool)
        requires
            keys_distinct(a@),
            keys_distinct(b@),
        ensures
            r == (forall|k: Seq<char>|
                #[trigger] assoc_map(a@).contains_key(k) ==> assoc_map(b@).contains_key(k)
                    && assoc_map(b@)[k] == assoc_map(a@)[k]),
    {
        let mut i: usize = 0;
        while i < a.len()
            invariant
                keys_distinct(a@),
                keys_distinct(b@),
                i <= a.len(),
                forall|j: int|
                    0 <= j < i ==> assoc_map(b@).contains_key(#[trigger] a@[j].0@)
                        && assoc_map(b@)[a@[j].0@] == a@[j].1,
            decreases a.len() - i,
        {
            match assoc_get(b, &a[i].0) {
                Some(e) => {
                    if e.0 != a[i].1.0 || e.1 != a[i].1.1 {
                        proof {
                            lemma_assoc_index(a@, i as int);
                        }
                        return false;
                    }
                },
                None => {
                    proof {
                        lemma_assoc_index(a@, i as int);
                    }
                    return false;
                },
            }
            i = i + 1;
        }
        proof {
            assert forall|k: Seq<char>| #[trigger] assoc_map(a@).contains_key(k) implies assoc_map(
                b@,
            ).contains_key(k) && assoc_map(b@)[k] == assoc_map(a@)[k] by {
                lemma_assoc_contains(a@, k);
                let j = choose|j: int| 0 <= j < a@.len() && a@[j].0@ == k;
                lemma_assoc_index(a@, j);
            }
        }
        true
    }
}

impl Clone for RationalUnit {
    fn clone(&self) -> (r: Self)
        ensures
            r.dimensions@ == self.dimensions@,
            r.id == self.id,
    {
        RationalUnit { dimensions: clone_dimensions(&self.dimensions), id: self.id }
    }
}

/// Two units are equal when their fingerprints are.
impl PartialEq for RationalUnit {
    fn eq(&self, other: &Self) -> (r: bool) {
        self.id == other.id
    }
}

impl vstd::std_specs::cmp::PartialEqSpecImpl for RationalUnit {
    open spec fn obeys_eq_spec() -> bool {
        true
    }

    open spec fn eq_spec(&self, other: &Self) -> bool {
        self.id == other.id
    }
}

impl Eq for RationalUnit {

}

/// A unit hashes as its fingerprint, consistently with `==`.
impl std::hash::Hash for RationalUnit {
    /// Feeds the fingerprint to the hasher (`<u64 as Hash>::hash`).
    #[verifier::external_body]
    fn hash<H: std::hash::Hasher>(&self, state: &mut H) {
        self.id.hash(state);
    }
}

/// A registry of named units: base units, derived units and aliases.
pub struct UnitRegistry {
    base_units: Vec<(String, RationalUnit)>,
    derived_units: Vec<(String, RationalUnit)>,
    aliases: Vec<(String, String)>,
}

/// The name `name` reaches by following aliases, at most `hops` of them.
pub open spec fn resolve_spec(aliases: Map<Seq<char>, String>, name: Seq<char>, hops: nat) -> Seq<
    char,
>
    decreases hops,
{
    if hops > 0 && aliases.contains_key(name) {
        resolve_spec(aliases, aliases[name]@, (hops - 1) as nat)
    } else {
        name
    }
}

impl UnitRegistry {
    #[verifier::type_invariant]
    spec fn inv(self) -> bool {
        &&& keys_distinct(self.base_units@)
        &&& keys_distinct(self.derived_units@)
        &&& keys_distinct(self.aliases@)
    }

    /// The base units by name.
    pub closed spec fn base(self) -> Map<Seq<char>, RationalUnit> {
        assoc_map(self.base_units@)
    }

    /// The derived units by name.
    pub closed spec fn derived(self) -> Map<Seq<char>, RationalUnit> {
        assoc_map(self.derived_units@)
    }

    /// The aliases: each maps to the name it stands for.
    pub closed spec fn alias_map(self) -> Map<Seq<char>, String> {
        assoc_map(self.aliases@)
    }

    /// An empty registry.
    pub fn new() -> (r: Self)
        ensures
            r.base() == Map::<Seq<char>, RationalUnit>::empty(),
            r.derived() == Map::<Seq<char>, RationalUnit>::empty(),
            r.alias_map() == Map::<Seq<char>, String>::empty(),
    {
        let r = UnitRegistry { base_units: Vec::new(), derived_units: Vec::new(), aliases: Vec::new() };
        assert(r.base() =~= Map::<Seq<char>, RationalUnit>::empty());
        assert(r.derived() =~= Map::<Seq<char>, RationalUnit>::empty());
        assert(r.alias_map() =~= Map::<Seq<char>, String>::empty());
        r
    }

    /// Registers a base unit: the unit whose only dimension is `name`, to the first
    /// power.
    pub fn add_base_unit(&mut self, name: String)
        ensures
            final(self).base().contains_key(name@),
            final(self).base()[name@].wf(),
            final(self).base()[name@]@ == Map::<Seq<char>, (i64, i64)>::empty().insert(
                name@,
                (1i64, 1i64),
            ),
            final(self).base() == old(self).base().insert(name@, final(self).base()[name@]),
            final(self).derived() == old(self).derived(),
            final(self).alias_map() == old(self).alias_map(),
    {
        proof {
            use_type_invariant(&*self);
        }
        let mut dims: Vec<(String, (i64, i64))> = Vec::new();
        dims.push((name.clone(), (1, 1)));
        proof {
            assert(dims@.drop_last() =~= Seq::<(String, (i64, i64))>::empty());
            assert(assoc_map(dims@.drop_last()) =~= Map::<Seq<char>, (i64, i64)>::empty());
            assert(assoc_map(dims@) =~= Map::<Seq<char>, (i64, i64)>::empty().insert(
                name@,
                (1i64, 1i64),
            ));
        }
        let unit = RationalUnit::new_from_dimensions(dims);
        let mut table = Vec::new();
        std::mem::swap(&mut table, &mut self.base_units);
        assoc_insert(&mut table, name, unit);
        self.base_units = table;
    }

    /// Registers a derived unit under `name`, replacing any earlier one.
    pub fn add_derived_unit(&mut self, name: String, definition: RationalUnit)
        ensures
            final(self).derived() == old(self).derived().insert(name@, definition),
            final(self).base() == old(self).base(),
            final(self).alias_map() == old(self).alias_map(),
    {
        proof {
            use_type_invariant(&*self);
        }
        let mut table = Vec::new();
        std::mem::swap(&mut table, &mut self.derived_units);
        assoc_insert(&mut table, name, definition);
        self.derived_units = table;
    }

    /// Makes `alias` stand for `symbol`, replacing any earlier meaning of `alias`.
    pub fn register_alias(&mut self, alias: String, symbol: String) -> (r: Result<(), PhysureError>)
        ensures
            r is Ok,
            final(self).alias_map() == old(self).alias_map().insert(alias@, symbol),
            final(self).base() == old(self).base(),
            final(self).derived() == old(self).derived(),
    {
        proof {
            use_type_invariant(&*self);
        }
        let mut table = Vec::new();
        std::mem::swap(&mut table, &mut self.aliases);
        assoc_insert(&mut table, alias, symbol);
        self.aliases = table;
        Ok(())
    }

    /// The name `name` stands for after following aliases, at most ten of them.
    pub fn resolve_symbol(&self, name: String) -> (r: String)
        ensures
            r@ == resolve_spec(self.alias_map(), name@, 10),
    {
        proof {
            use_type_invariant(self);
        }
        let mut current = name;
        let mut n: usize = 0;
        while n < 10
            invariant
                keys_distinct(self.aliases@),
                n <= 10,
                resolve_spec(self.alias_map(), name@, 10) == resolve_spec(
                    self.alias_map(),
                    current@,
                    (10 - n) as nat,
                ),
            decreases 10 - n,
        {
            match assoc_get(&self.aliases, &current) {
                Some(target) => {
                    current = target.clone();
                },
                None => {
                    return current;
                },
            }
            n = n + 1;
        }
        current
    }

    /// Whether `name`, once its aliases are followed, is a registered unit.
    pub fn contains(&self, name: String) -> (r: bool)
        ensures
            r == (self.base().contains_key(resolve_spec(self.alias_map(), name@, 10))
                || self.derived().contains_key(resolve_spec(self.alias_map(), name@, 10))),
    {
        proof {
            use_type_invariant(self);
        }
        let resolved = self.resolve_symbol(name);
        assoc_get(&self.base_units, &resolved).is_some() || assoc_get(
            &self.derived_units,
            &resolved,
        ).is_some()
    }

    /// The unit `name` stands for: the base or derived unit its aliases resolve to,
    /// or, failing that, the base or derived unit registered under `name` itself.
    pub fn get_unit(&self, name: String) -> (r: Result<RationalUnit, PhysureError>)
        ensures
            ({
                let res = resolve_spec(self.alias_map(), name@, 10);
                let found = if self.base().contains_key(res) {
                    Some(self.base()[res])
                } else if self.derived().contains_key(res) {
                    Some(self.derived()[res])
                } else if self.base().contains_key(name@) {
                    Some(self.base()[name@])
                } else if self.derived().contains_key(name@) {
                    Some(self.derived()[name@])
                } else {
                    None::<RationalUnit>
                };
                match found {
                    Some(u) => r matches Ok(v) && v.dimensions@ == u.dimensions@ && v.id == u.id,
                    None => r matches Err(PhysureError::Generic(m)) && m@ == "Unit '"@ + name@
                        + "' not found"@,
                }
            }),
    {
        proof {
            use_type_invariant(self);
        }
        let resolved = self.resolve_symbol(name.clone());
        if let Some(u) = assoc_get(&self.base_units, &resolved) {
            return Ok(u.clone());
        }
        if let Some(u) = assoc_get(&self.derived_units, &resolved) {
            return Ok(u.clone());
        }
        if let Some(u) = assoc_get(&self.base_units, &name) {
            return Ok(u.clone());
        }
        if let Some(u) = assoc_get(&self.derived_units, &name) {
            return Ok(u.clone());
        }
        let mut msg: Vec<char> = chars_of("Unit '");
        extend_chars(&mut msg, &chars_of(name.as_str()));
        extend_chars(&mut msg, &chars_of("' not found"));
        Err(PhysureError::Generic(string_from_chars(&msg)))
    }
}

// ---------------------------------------------------------------------------
// Laws of unit arithmetic
// ---------------------------------------------------------------------------

/// Every exponent is a non-zero reduced rational.
pub open spec fn canonical_dims(m: Map<Seq<char>, (i64, i64)>) -> bool {
    forall|k: Seq<char>| #![trigger m[k]] m.contains_key(k) ==> is_ratio(m[k]) && m[k].0 != 0
}

proof fn lemma_zero_over_one_is_ratio()
    ensures
        is_ratio((0i64, 1i64)),
{
    assert(gcd(0, 1) == 1) by {
        reveal_with_fuel(gcd, 2);
    }
}

proof fn lemma_canonical_entry(m: Map<Seq<char>, (i64, i64)>, k: Seq<char>)
    requires
        canonical_dims(m),
    ensures
        is_ratio(exp_at(m, k)),
        entry_ok(exp_at(m, k)),
        reduce(exp_at(m, k)) == exp_at(m, k),
        m.contains_key(k) <==> exp_at(m, k).0 != 0,
{
    lemma_zero_over_one_is_ratio();
    let x = exp_at(m, k);
    if m.contains_key(k) {
        assert(is_ratio(m[k]));
    }
    lemma_normalize_canonical(x);
}

/// Multiplying or dividing units in canonical form gives a unit in canonical
/// form: every exponent of the result is a non-zero reduced rational.
pub proof fn lemma_merge_canonical(u: RationalUnit, v: RationalUnit, subtract: bool)
    requires
        u.canonical(),
        v.canonical(),
        merge_ok(u@, v@),
    ensures
        canonical_dims(merge_dims(u@, v@, subtract)),
{
    let m = u@;
    let o = v@;
    let r = merge_dims(m, o, subtract);
    assert forall|k: Seq<char>| #![trigger r[k]] r.contains_key(k) implies is_ratio(r[k])
        && r[k].0 != 0 by {
        if o.contains_key(k) {
            let x = exp_at(m, k);
            let y = o[k];
            lemma_reduce(x);
            lemma_reduce(y);
            let a = reduce(x);
            let b = reduce(y);
            lemma_pos_mul(a.1 as int, b.1 as int);
            if subtract {
                lemma_normalize(a.0 * b.1 - b.0 * a.1, a.1 * b.1);
            } else {
                lemma_normalize(a.0 * b.1 + b.0 * a.1, a.1 * b.1);
            }
        } else {
            assert(is_ratio(m[k]));
        }
    }
}

/// Raising a unit to a power gives a unit in canonical form.
pub proof fn lemma_pow_canonical(u: RationalUnit, e: (i64, i64))
    requires
        u.wf(),
        pow_ok(u@, e),
    ensures
        canonical_dims(pow_dims(u@, e)),
{
    let m = u@;
    let p = pow_dims(m, e);
    assert forall|k: Seq<char>| #![trigger p[k]] p.contains_key(k) implies is_ratio(p[k])
        && p[k].0 != 0 by {
        lemma_reduce(m[k]);
        lemma_reduce(e);
        let a = reduce(m[k]);
        let b = reduce(e);
        lemma_pos_mul(a.1 as int, b.1 as int);
        lemma_normalize(a.0 * b.0, a.1 * b.1);
    }
}

/// Raising a unit to a power multiplies each of its exponents by the power: in
/// `u^e` a base of `u` with exponent `x` has the exponent `x * e` in lowest
/// terms, and is left out exactly when that product is zero; a base that `u`
/// lacks stays absent.
pub proof fn lemma_pow_multiplies_exponents(u: RationalUnit, e: (i64, i64), k: Seq<char>)
    requires
        u.wf(),
        pow_ok(u@, e),
    ensures
        !u@.contains_key(k) ==> !pow_dims(u@, e).contains_key(k),
        u@.contains_key(k) ==> (pow_dims(u@, e).contains_key(k) <==> (u@[k].0 != 0 && e.0 != 0)),
        pow_dims(u@, e).contains_key(k) ==> (pow_dims(u@, e)[k].0 as int, pow_dims(u@, e)[k].1 as int)
            == normalize(u@[k].0 * e.0, u@[k].1 * e.1),
{
    if u@.contains_key(k) {
        let x = u@[k];
        lemma_reduce(x);
        lemma_reduce(e);
        let a = reduce(x);
        let b = reduce(e);
        lemma_normalize(x.0 as int, x.1 as int);
        lemma_normalize(e.0 as int, e.1 as int);
        lemma_pos_mul(a.1 as int, b.1 as int);
        let n1 = a.0 * b.0;
        let d1 = a.1 * b.1;
        let n2 = x.0 * e.0;
        let d2 = x.1 * e.1;
        assert(d2 != 0) by (nonlinear_arith)
            requires
                x.1 != 0,
                e.1 != 0,
                d2 == x.1 * e.1,
        ;
        assert(n1 * d2 == n2 * d1) by (nonlinear_arith)
            requires
                a.0 * x.1 == x.0 * a.1,
                b.0 * e.1 == e.0 * b.1,
                n1 == a.0 * b.0,
                d1 == a.1 * b.1,
                n2 == x.0 * e.0,
                d2 == x.1 * e.1,
        ;
        lemma_normalize_value(n1, d1, n2, d2);
        lemma_normalize(n1, d1);
        let t = normalize(n1, d1);
        assert(n1 == 0 <==> (a.0 == 0 || b.0 == 0)) by (nonlinear_arith)
            requires
                n1 == a.0 * b.0,
        ;
        assert(prod_exp(x, e) == (t.0 as i64, t.1 as i64));
        assert(t.0 as i64 as int == t.0);
        assert(t.1 as i64 as int == t.1);
    }
}

/// Dividing a product by one of its factors gives back the other factor:
/// `(u * v) / v == u` for units in canonical form, whenever both steps stay in
/// range.
pub proof fn lemma_mul_then_div_is_identity(u: RationalUnit, v: RationalUnit)
    requires
        u.canonical(),
        v.canonical(),
        merge_ok(u@, v@),
        merge_ok(merge_dims(u@, v@, false), v@),
    ensures
        merge_dims(merge_dims(u@, v@, false), v@, true) == u@,
{
    let m = u@;
    let o = v@;
    let p = merge_dims(m, o, false);
    let q = merge_dims(p, o, true);
    assert forall|k: Seq<char>| #[trigger] q.contains_key(k) == m.contains_key(k) && (
    m.contains_key(k) ==> q[k] == m[k]) by {
        if o.contains_key(k) {
            let x = exp_at(m, k);
            let y = o[k];
            lemma_canonical_entry(m, k);
            assert(is_ratio(y) && y.0 != 0);
            lemma_normalize_canonical(y);
            let s = combine_exp(x, y, false);
            lemma_pos_mul(x.1 as int, y.1 as int);
            lemma_normalize(x.0 * y.1 + y.0 * x.1, x.1 * y.1);
            lemma_zero_over_one_is_ratio();
            assert(exp_at(p, k) == s);
            lemma_normalize_canonical(s);
            let t = combine_exp(s, y, true);
            lemma_pos_mul(s.1 as int, y.1 as int);
            assert((s.0 * y.1 - y.0 * s.1) * x.1 == x.0 * (s.1 * y.1)) by (nonlinear_arith)
                requires
                    s.0 * (x.1 * y.1) == (x.0 * y.1 + y.0 * x.1) * s.1,
                    x.1 > 0,
                    y.1 > 0,
            ;
            lemma_normalize_value(s.0 * y.1 - y.0 * s.1, s.1 * y.1, x.0 as int, x.1 as int);
            lemma_normalize_canonical(x);
            assert(t == x);
        }
    }
    assert(q =~= m);
}

/// A unit divided by itself is dimensionless.
pub proof fn lemma_div_self_is_dimensionless(u: RationalUnit)
    requires
        u.canonical(),
        merge_ok(u@, u@),
    ensures
        merge_dims(u@, u@, true) == Map::<Seq<char>, (i64, i64)>::empty(),
{
    let m = u@;
    let q = merge_dims(m, m, true);
    assert forall|k: Seq<char>| !#[trigger] q.contains_key(k) by {
        if m.contains_key(k) {
            let x = m[k];
            assert(is_ratio(x));
            lemma_normalize_canonical(x);
            assert(x.0 * x.1 - x.0 * x.1 == 0) by (nonlinear_arith);
            lemma_pos_mul(x.1 as int, x.1 as int);
            lemma_normalize(x.0 * x.1 - x.0 * x.1, x.1 * x.1);
        }
    }
    assert(q =~= Map::<Seq<char>, (i64, i64)>::empty());
}

/// Unit multiplication is commutative.
pub proof fn lemma_mul_commutes(u: RationalUnit, v: RationalUnit)
    requires
        u.canonical(),
        v.canonical(),
        merge_ok(u@, v@),
        merge_ok(v@, u@),
    ensures
        merge_dims(u@, v@, false) == merge_dims(v@, u@, false),
{
    let a = merge_dims(u@, v@, false);
    let b = merge_dims(v@, u@, false);
    assert forall|k: Seq<char>| #[trigger] a.contains_key(k) == b.contains_key(k) && (
    a.contains_key(k) ==> a[k] == b[k]) by {
        lemma_canonical_entry(u@, k);
        lemma_canonical_entry(v@, k);
        let x = exp_at(u@, k);
        let y = exp_at(v@, k);
        assert(x.0 * y.1 + y.0 * x.1 == y.0 * x.1 + x.0 * y.1 && x.1 * y.1 == y.1 * x.1)
            by (nonlinear_arith);
        if u@.contains_key(k) && !v@.contains_key(k) {
            assert(y == (0i64, 1i64));
            assert(x.0 * 1 + 0 * x.1 == x.0 && x.1 * 1 == x.1) by (nonlinear_arith);
            lemma_normalize_canonical(x);
        }
        if v@.contains_key(k) && !u@.contains_key(k) {
            assert(x == (0i64, 1i64));
            assert(0 * y.1 + y.0 * 1 == y.0 && 1 * y.1 == y.1) by (nonlinear_arith);
            lemma_normalize_canonical(y);
        }
    }
    assert(a =~= b);
}

/// Raising to the power zero leaves no dimension.
pub proof fn lemma_pow_zero_is_dimensionless(u: RationalUnit, den: i64)
    requires
        u.wf(),
        pow_ok(u@, (0, den)),
    ensures
        pow_dims(u@, (0, den)) == Map::<Seq<char>, (i64, i64)>::empty(),
{
    lemma_normalize(0, den as int);
    let p = pow_dims(u@, (0, den));
    assert forall|k: Seq<char>| !#[trigger] p.contains_key(k) by {
        if u@.contains_key(k) {
            lemma_reduce(u@[k]);
            let a = reduce(u@[k]);
            lemma_reduce((0i64, den));
            let b = reduce((0i64, den));
            assert(b.0 == 0 && b.1 == 1);
            assert(a.0 * b.0 == 0) by (nonlinear_arith)
                requires
                    b.0 == 0,
            ;
            lemma_pos_mul(a.1 as int, b.1 as int);
            lemma_normalize(a.0 * b.0, a.1 * b.1);
        }
    }
    assert(p =~= Map::<Seq<char>, (i64, i64)>::empty());
}

/// Raising a canonical unit to the power one leaves it unchanged.
pub proof fn lemma_pow_one_is_identity(u: RationalUnit)
    requires
        u.canonical(),
        pow_ok(u@, (1, 1)),
    ensures
        pow_dims(u@, (1, 1)) == u@,
{
    let p = pow_dims(u@, (1, 1));
    assert(gcd(1, 1) == 1) by {
        reveal_with_fuel(gcd, 2);
    }
    lemma_normalize_canonical((1i64, 1i64));
    assert forall|k: Seq<char>| #[trigger] p.contains_key(k) == u@.contains_key(k) && (
    p.contains_key(k) ==> p[k] == u@[k]) by {
        if u@.contains_key(k) {
            let x = u@[k];
            assert(is_ratio(x));
            lemma_normalize_canonical(x);
            assert(x.0 * 1 == x.0 && x.1 * 1 == x.1) by (nonlinear_arith);
        }
    }
    assert(p =~= u@);
}

/// Multiplying by the dimensionless unit changes nothing.
pub proof fn lemma_mul_dimensionless_is_identity(u: RationalUnit, one: RationalUnit)
    requires
        one@ == Map::<Seq<char>, (i64, i64)>::empty(),
    ensures
        merge_dims(u@, one@, false) == u@,
        merge_dims(u@, one@, true) == u@,
{
    assert(merge_dims(u@, one@, false) =~= u@);
    assert(merge_dims(u@, one@, true) =~= u@);
}


/// An alias of a name that is no alias itself resolves to that name.
pub proof fn lemma_alias_resolves_to_target(
    aliases: Map<Seq<char>, String>,
    alias: Seq<char>,
    target: String,
)
    requires
        aliases.contains_key(alias),
        aliases[alias] == target,
        !aliases.contains_key(target@),
    ensures
        resolve_spec(aliases, alias, 10) == target@,
{
    assert(resolve_spec(aliases, target@, 9) == target@);
}

/// A name that is no alias resolves to itself.
pub proof fn lemma_plain_name_resolves_to_itself(aliases: Map<Seq<char>, String>, name: Seq<char>)
    requires
        !aliases.contains_key(name),
    ensures
        resolve_spec(aliases, name, 10) == name,
{
}


proof fn lemma_xor_swap(a: u64, b: u64, c: u64)
    ensures
        (a ^ b) ^ c == (a ^ c) ^ b,
{
    assert((a ^ b) ^ c == (a ^ c) ^ b) by (bit_vector);
}

/// Taking one dimension out of a list takes its hash out of the fingerprint.
proof fn lemma_id_of_remove(t: Seq<(String, (i64, i64))>, j: int)
    requires
        0 <= j < t.len(),
    ensures
        id_of(t) == id_of(t.remove(j)) ^ dimension_hash(t[j].0@, t[j].1),
    decreases t.len(),
{
    if j == t.len() - 1 {
        assert(t.remove(j) =~= t.drop_last());
    } else {
        let d = t.drop_last();
        lemma_id_of_remove(d, j);
        assert(t.remove(j).drop_last() =~= d.remove(j));
        assert(t.remove(j).last() == t.last());
        assert(d[j] == t[j]);
        lemma_xor_swap(
            id_of(d.remove(j)),
            dimension_hash(t[j].0@, t[j].1),
            dimension_hash(t.last().0@, t.last().1),
        );
    }
}

/// The fingerprint depends only on the dimensions, not on the order a list
/// holds them in: lists of distinct bases that denote the same dimensions have
/// the same fingerprint, so units equal as dimensions hash alike.
pub proof fn lemma_id_depends_only_on_dimensions(
    s: Seq<(String, (i64, i64))>,
    t: Seq<(String, (i64, i64))>,
)
    requires
        keys_distinct(s),
        keys_distinct(t),
        assoc_map(s) == assoc_map(t),
    ensures
        id_of(s) == id_of(t),
    decreases s.len(),
{
    if s.len() == 0 {
        if t.len() > 0 {
            lemma_assoc_index(t, 0);
            assert(assoc_map(s) =~= Map::<Seq<char>, (i64, i64)>::empty());
        }
    } else {
        let n = s.len() - 1;
        let e = s[n];
        lemma_assoc_index(s, n);
        lemma_assoc_contains(t, e.0@);
        let j = choose|j: int| 0 <= j < t.len() && t[j].0@ == e.0@;
        lemma_assoc_index(t, j);
        assert(t[j].1 == e.1);
        lemma_assoc_remove(s, n);
        lemma_assoc_remove(t, j);
        assert(s.remove(n) =~= s.drop_last());
        lemma_id_depends_only_on_dimensions(s.drop_last(), t.remove(j));
        lemma_id_of_remove(t, j);
    }
}

} // verus!
