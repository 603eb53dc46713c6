//! The unit of a symbolic expression, and the dimensional errors it can
//! contain. The numbers of an expression play no part here: only where they
//! stand, and an exponent's exact value.

use vstd::prelude::*;
use crate::assoc::{assoc_map, keys_distinct};
use crate::text::{
    chars_of, debug_quoted, debug_str, extend_chars, extend_str, signed_decimal_chars,
    signed_decimal_spec, string_from_chars,
};
use crate::units::{
    id_of, lemma_id_depends_only_on_dimensions, merge_dims, merge_ok, pow_dims, pow_ok,
    RationalUnit,
};

verus! {

/// The shape of an expression as far as units go.
#[derive(Debug)]
pub enum UnitExpr {
    /// A number or a symbol: no unit.
    Scalar,
    /// A quantity with its unit.
    Quantity(RationalUnit),
    Add(Vec<UnitExpr>),
    Sub(Box<UnitExpr>, Box<UnitExpr>),
    Mul(Vec<UnitExpr>),
    Div(Box<UnitExpr>, Box<UnitExpr>),
    /// A power: the base, and the exponent's exact value when the exponent is a
    /// number.
    Pow(Box<UnitExpr>, Option<(i64, i64)>),
    Sin(Box<UnitExpr>),
    Cos(Box<UnitExpr>),
    Ln(Box<UnitExpr>),
    Exp(Box<UnitExpr>),
}

/// Why an expression has no unit.
#[derive(Debug, Clone, Copy, PartialEq, Eq, Structural)]
pub enum UnitErrorKind {
    /// Two terms of a sum have different units.
    IncompatibleAdd,
    /// A dimensioned base is raised to a power that is not a number.
    NonConstantPower,
    /// A transcendental function is applied to a dimensioned argument.
    DimensionedTranscendental,
}

/// The fingerprint of a set of dimensions: that of any list of distinct bases
/// denoting it (they all agree).
pub open spec fn fingerprint(m: Map<Seq<char>, (i64, i64)>) -> u64 {
    id_of(choose|s: Seq<(String, (i64, i64))>| keys_distinct(s) && assoc_map(s) == m)
}

/// A well-formed unit's id is the fingerprint of its dimensions.
pub proof fn lemma_id_is_fingerprint(u: RationalUnit)
    requires
        u.wf(),
    ensures
        u.id == fingerprint(u@),
{
    let s = choose|s: Seq<(String, (i64, i64))>| keys_distinct(s) && assoc_map(s) == u@;
    assert(keys_distinct(u.dimensions@) && assoc_map(u.dimensions@) == u@);
    lemma_id_depends_only_on_dimensions(u.dimensions@, s);
}

/// The units of the expression's quantities are well formed.
pub open spec fn units_wf(e: UnitExpr) -> bool
    decreases e,
{
    match e {
        UnitExpr::Scalar => true,
        UnitExpr::Quantity(u) => u.wf(),
        UnitExpr::Add(ts) => forall|i: int| 0 <= i < ts@.len() ==> units_wf(#[trigger] ts@[i]),
        UnitExpr::Mul(fs) => forall|i: int| 0 <= i < fs@.len() ==> units_wf(#[trigger] fs@[i]),
        UnitExpr::Sub(a, b) => units_wf(*a) && units_wf(*b),
        UnitExpr::Div(a, b) => units_wf(*a) && units_wf(*b),
        UnitExpr::Pow(b, _) => units_wf(*b),
        UnitExpr::Sin(a) => units_wf(*a),
        UnitExpr::Cos(a) => units_wf(*a),
        UnitExpr::Ln(a) => units_wf(*a),
        UnitExpr::Exp(a) => units_wf(*a),
    }
}

/// One step of a sum: an error so far stays; a term's error is the sum's; a
/// term without a unit is skipped; the first unit found is kept, and every later
/// one has to match it by fingerprint.
pub open spec fn sum_step(
    acc: Result<Option<Map<Seq<char>, (i64, i64)>>, UnitErrorKind>,
    next: Result<Option<Map<Seq<char>, (i64, i64)>>, UnitErrorKind>,
) -> Result<Option<Map<Seq<char>, (i64, i64)>>, UnitErrorKind> {
    match acc {
        Err(k) => Err(k),
        Ok(a) => match next {
            Err(k) => Err(k),
            Ok(None) => Ok(a),
            Ok(Some(u)) => match a {
                None => Ok(Some(u)),
                Some(ex) => if fingerprint(ex) != fingerprint(u) {
                    Err(UnitErrorKind::IncompatibleAdd)
                } else {
                    Ok(Some(ex))
                },
            },
        },
    }
}

/// The unit of a sum of the terms `s`, taken in order.
pub open spec fn sum_unit(s: Seq<UnitExpr>) -> Result<Option<Map<Seq<char>, (i64, i64)>>, UnitErrorKind>
    decreases s,
{
    if s.len() == 0 {
        Ok(None)
    } else {
        sum_step(sum_unit(s.drop_last()), unit_of(s.last()))
    }
}

/// The unit of a product of the factors `s`: the product of the factors' units.
pub open spec fn product_unit(s: Seq<UnitExpr>) -> Result<Option<Map<Seq<char>, (i64, i64)>>, UnitErrorKind>
    decreases s,
{
    if s.len() == 0 {
        Ok(None)
    } else {
        match product_unit(s.drop_last()) {
            Err(k) => Err(k),
            Ok(acc) => match unit_of(s.last()) {
                Err(k) => Err(k),
                Ok(None) => Ok(acc),
                Ok(Some(u)) => match acc {
                    None => Ok(Some(u)),
                    Some(a) => Ok(Some(merge_dims(a, u, false))),
                },
            },
        }
    }
}

/// The unit of an expression, or why it has none: scalars have none; a
/// difference is a sum of two terms; a quotient divides the units it has (a
/// unitless numerator counts as dimensionless); a power of a dimensioned base
/// needs a numeric exponent; a transcendental function needs a dimensionless
/// argument and has no unit.
pub open spec fn unit_of(e: UnitExpr) -> Result<Option<Map<Seq<char>, (i64, i64)>>, UnitErrorKind>
    decreases e,
{
    match e {
        UnitExpr::Scalar => Ok(None),
        UnitExpr::Quantity(u) => Ok(Some(u@)),
        UnitExpr::Add(ts) => sum_unit(ts@),
        UnitExpr::Mul(fs) => product_unit(fs@),
        UnitExpr::Sub(a, b) => sum_step(sum_step(Ok(None), unit_of(*a)), unit_of(*b)),
        UnitExpr::Div(a, b) => match unit_of(*a) {
            Err(k) => Err(k),
            Ok(ua) => match unit_of(*b) {
                Err(k) => Err(k),
                Ok(ub) => Ok(
                    match (ua, ub) {
                        (Some(x), Some(y)) => Some(merge_dims(x, y, true)),
                        (Some(x), None) => Some(x),
                        (None, Some(y)) => Some(merge_dims(Map::empty(), y, true)),
                        (None, None) => None,
                    },
                ),
            },
        },
        UnitExpr::Pow(b, ex) => match unit_of(*b) {
            Err(k) => Err(k),
            Ok(None) => Ok(None),
            Ok(Some(u)) => match ex {
                Some(r) => Ok(Some(pow_dims(u, r))),
                None => Err(UnitErrorKind::NonConstantPower),
            },
        },
        UnitExpr::Sin(a) => transcendental_unit(unit_of(*a)),
        UnitExpr::Cos(a) => transcendental_unit(unit_of(*a)),
        UnitExpr::Ln(a) => transcendental_unit(unit_of(*a)),
        UnitExpr::Exp(a) => transcendental_unit(unit_of(*a)),
    }
}

/// A transcendental function's unit from its argument's.
pub open spec fn transcendental_unit(arg: Result<Option<Map<Seq<char>, (i64, i64)>>, UnitErrorKind>) -> Result<
    Option<Map<Seq<char>, (i64, i64)>>,
    UnitErrorKind,
> {
    match arg {
        Err(k) => Err(k),
        Ok(Some(u)) => if u.dom().len() > 0 || u != Map::<Seq<char>, (i64, i64)>::empty() {
            Err(UnitErrorKind::DimensionedTranscendental)
        } else {
            Ok(None)
        },
        Ok(None) => Ok(None),
    }
}


/// Whether a computed unit is stable enough to go on with.
pub open spec fn merge_safe(
    a: Result<Option<Map<Seq<char>, (i64, i64)>>, UnitErrorKind>,
    b: Result<Option<Map<Seq<char>, (i64, i64)>>, UnitErrorKind>,
) -> bool {
    match (a, b) {
        (Ok(Some(x)), Ok(Some(y))) => merge_ok(x, y),
        _ => true,
    }
}

/// The inputs on which inferring a sum's unit stays within `i64` arithmetic:
/// every term that gets evaluated is safe.
pub open spec fn sum_safe(s: Seq<UnitExpr>) -> bool
    decreases s,
{
    if s.len() == 0 {
        true
    } else {
        sum_safe(s.drop_last()) && (sum_unit(s.drop_last()) is Ok ==> unit_safe(s.last()))
    }
}

/// Likewise for a product, whose units are multiplied as they come.
pub open spec fn product_safe(s: Seq<UnitExpr>) -> bool
    decreases s,
{
    if s.len() == 0 {
        true
    } else {
        &&& product_safe(s.drop_last())
        &&& product_unit(s.drop_last()) is Ok ==> unit_safe(s.last())
        &&& merge_safe(product_unit(s.drop_last()), unit_of(s.last()))
    }
}

/// The inputs on which inferring a unit stays within `i64` arithmetic: every
/// product, quotient and power that gets computed has exponents whose rational
/// arithmetic does not overflow.
pub open spec fn unit_safe(e: UnitExpr) -> bool
    decreases e,
{
    match e {
        UnitExpr::Scalar => true,
        UnitExpr::Quantity(_) => true,
        UnitExpr::Add(ts) => sum_safe(ts@),
        UnitExpr::Mul(fs) => product_safe(fs@),
        UnitExpr::Sub(a, b) => unit_safe(*a) && (unit_of(*a) is Ok ==> unit_safe(*b)),
        UnitExpr::Div(a, b) => {
            &&& unit_safe(*a)
            &&& unit_of(*a) is Ok ==> unit_safe(*b)
            &&& merge_safe(unit_of(*a), unit_of(*b))
            &&& (unit_of(*a) matches Ok(None) && unit_of(*b) matches Ok(Some(_))) ==> merge_ok(
                Map::empty(),
                unit_of(*b)->Ok_0->Some_0,
            )
        },
        UnitExpr::Pow(b, ex) => unit_safe(*b) && ((unit_of(*b) matches Ok(Some(_)) && ex is Some)
            ==> pow_ok(unit_of(*b)->Ok_0->Some_0, ex->Some_0)),
        UnitExpr::Sin(a) => unit_safe(*a),
        UnitExpr::Cos(a) => unit_safe(*a),
        UnitExpr::Ln(a) => unit_safe(*a),
        UnitExpr::Exp(a) => unit_safe(*a),
    }
}

/// The message of each error.
pub open spec fn error_message_ok(k: UnitErrorKind, msg: Seq<char>) -> bool {
    match k {
        UnitErrorKind::IncompatibleAdd => exists|xd: Seq<(String, (i64, i64))>, yd: Seq<(String, (i64, i64))>|
            #![trigger dims_debug_spec(xd), dims_debug_spec(yd)]
            keys_distinct(xd) && keys_distinct(yd) && msg == "Incompatible units in Add: "@
                + dims_debug_spec(xd) + " vs "@ + dims_debug_spec(yd),
        UnitErrorKind::NonConstantPower => msg
            == "Cannot raise a dimensioned quantity to a non-constant power"@,
        UnitErrorKind::DimensionedTranscendental => msg
            == "Transcendental function argument must be dimensionless"@,
    }
}

/// An inference's answer agrees with the unit the expression has.
pub open spec fn answers(
    spec_r: Result<Option<Map<Seq<char>, (i64, i64)>>, UnitErrorKind>,
    r: Result<Option<RationalUnit>, String>,
) -> bool {
    match spec_r {
        Ok(None) => r matches Ok(None),
        Ok(Some(m)) => r matches Ok(Some(u)) && u.wf() && u@ == m,
        Err(k) => r matches Err(msg) && error_message_ok(k, msg@),
    }
}


/// Once a prefix of a sum fails, the whole sum fails the same way.
proof fn lemma_sum_err_persists(s: Seq<UnitExpr>, i: int)
    requires
        0 <= i <= s.len(),
        sum_unit(s.subrange(0, i)) is Err,
    ensures
        sum_unit(s) == sum_unit(s.subrange(0, i)),
    decreases s.len() - i,
{
    if i < s.len() {
        let next = s.subrange(0, i + 1);
        assert(next.drop_last() =~= s.subrange(0, i));
        lemma_sum_err_persists(s, i + 1);
    } else {
        assert(s.subrange(0, i) =~= s);
    }
}

/// Once a prefix of a product fails, the whole product fails the same way.
proof fn lemma_product_err_persists(s: Seq<UnitExpr>, i: int)
    requires
        0 <= i <= s.len(),
        product_unit(s.subrange(0, i)) is Err,
    ensures
        product_unit(s) == product_unit(s.subrange(0, i)),
    decreases s.len() - i,
{
    if i < s.len() {
        let next = s.subrange(0, i + 1);
        assert(next.drop_last() =~= s.subrange(0, i));
        lemma_product_err_persists(s, i + 1);
    } else {
        assert(s.subrange(0, i) =~= s);
    }
}

/// A safe sum is safe on every prefix.
proof fn lemma_sum_safe_prefix(s: Seq<UnitExpr>, i: int)
    requires
        0 <= i < s.len(),
        sum_safe(s),
    ensures
        sum_safe(s.subrange(0, i)),
        sum_unit(s.subrange(0, i)) is Ok ==> unit_safe(s[i]),
    decreases s.len() - i,
{
    if i < s.len() - 1 {
        assert(s.drop_last().subrange(0, i) =~= s.subrange(0, i));
        assert(s.drop_last()[i] == s[i]);
        lemma_sum_safe_prefix(s.drop_last(), i);
    } else {
        assert(s.drop_last() =~= s.subrange(0, i));
    }
}

/// A safe product is safe on every prefix.
proof fn lemma_product_safe_prefix(s: Seq<UnitExpr>, i: int)
    requires
        0 <= i < s.len(),
        product_safe(s),
    ensures
        product_safe(s.subrange(0, i)),
        product_unit(s.subrange(0, i)) is Ok ==> unit_safe(s[i]),
        merge_safe(product_unit(s.subrange(0, i)), unit_of(s[i])),
    decreases s.len() - i,
{
    if i < s.len() - 1 {
        assert(s.drop_last().subrange(0, i) =~= s.subrange(0, i));
        assert(s.drop_last()[i] == s[i]);
        lemma_product_safe_prefix(s.drop_last(), i);
    } else {
        assert(s.drop_last() =~= s.subrange(0, i));
    }
}

/// One dimension as `{:?}` writes a map entry: the quoted name, then the
/// exponent's numerator and denominator as a pair.
pub open spec fn dim_entry_debug(d: (String, (i64, i64))) -> Seq<char> {
    debug_quoted(d.0@) + ": ("@ + signed_decimal_spec(d.1.0 as int) + ", "@ + signed_decimal_spec(
        d.1.1 as int,
    ) + ")"@
}

/// The entries of a list of dimensions, in order, separated by `, `.
pub open spec fn dim_entries_debug(v: Seq<(String, (i64, i64))>) -> Seq<char>
    decreases v.len(),
{
    if v.len() == 0 {
        Seq::empty()
    } else if v.len() == 1 {
        dim_entry_debug(v[0])
    } else {
        dim_entries_debug(v.drop_last()) + ", "@ + dim_entry_debug(v.last())
    }
}

/// A set of dimensions as `{:?}` writes a map of them, in the list's order.
pub open spec fn dims_debug_spec(v: Seq<(String, (i64, i64))>) -> Seq<char> {
    "{"@ + dim_entries_debug(v) + "}"@
}

/// A set of dimensions as `{:?}` writes a map of them.
fn dims_debug(v: &Vec<(String, (i64, i64))>) -> (r: String)
    ensures
        r@ == dims_debug_spec(v@),
{
    let mut out: Vec<char> = Vec::new();
    extend_str(&mut out, "{");
    let mut i: usize = 0;
    while i < v.len()
        invariant
            i <= v.len(),
            out@ == "{"@ + dim_entries_debug(v@.subrange(0, i as int)),
        decreases v.len() - i,
    {
        let ghost pre = v@.subrange(0, i as int);
        let ghost next = v@.subrange(0, i + 1);
        assert(next.drop_last() =~= pre);
        assert(next.last() == v@[i as int]);
        if i > 0 {
            extend_str(&mut out, ", ");
        }
        let q = debug_str(v[i].0.as_str());
        extend_str(&mut out, q.as_str());
        extend_str(&mut out, ": (");
        extend_chars(&mut out, &signed_decimal_chars(v[i].1.0));
        extend_str(&mut out, ", ");
        extend_chars(&mut out, &signed_decimal_chars(v[i].1.1));
        extend_str(&mut out, ")");
        proof {
            if i == 0 {
                assert(pre =~= Seq::<(String, (i64, i64))>::empty());
                assert(next.len() == 1);
                assert(out@ =~= "{"@ + dim_entries_debug(next));
            } else {
                assert(out@ =~= "{"@ + dim_entries_debug(next));
            }
        }
        i = i + 1;
    }
    assert(v@.subrange(0, v.len() as int) =~= v@);
    extend_str(&mut out, "}");
    string_from_chars(&out)
}

/// The message for a sum whose terms' units differ.
fn incompatible_message(a: &RationalUnit, b: &RationalUnit) -> (r: String)
    requires
        a.wf(),
        b.wf(),
    ensures
        r@ == "Incompatible units in Add: "@ + dims_debug_spec(a.dimensions@) + " vs "@
            + dims_debug_spec(b.dimensions@),
        error_message_ok(UnitErrorKind::IncompatibleAdd, r@),
{
    proof {
        reveal_strlit("Incompatible units in Add: ");
    }
    let mut out: Vec<char> = Vec::new();
    extend_str(&mut out, "Incompatible units in Add: ");
    let da = dims_debug(&a.dimensions);
    extend_str(&mut out, da.as_str());
    extend_str(&mut out, " vs ");
    let db = dims_debug(&b.dimensions);
    extend_str(&mut out, db.as_str());
    assert(out@ =~= "Incompatible units in Add: "@ + dims_debug_spec(a.dimensions@) + " vs "@
        + dims_debug_spec(b.dimensions@));
    string_from_chars(&out)
}

/// Infers an expression's unit, or says which dimensional rule it breaks.
pub fn infer_unit(e: &UnitExpr) -> (r: Result<Option<RationalUnit>, String>)
    requires
        units_wf(*e),
        unit_safe(*e),
    ensures
        answers(unit_of(*e), r),
    decreases e, 0nat,
{
    match e {
        UnitExpr::Scalar => Ok(None),
        UnitExpr::Quantity(u) => Ok(Some(u.clone())),
        UnitExpr::Add(ts) => {
            let mut acc: Option<RationalUnit> = None;
            let mut i: usize = 0;
            assert(ts@.subrange(0, 0) =~= Seq::<UnitExpr>::empty());
            while i < ts.len()
                invariant
                    i <= ts.len(),
                    *e == UnitExpr::Add(*ts),
                    forall|k: int| 0 <= k < ts@.len() ==> units_wf(#[trigger] ts@[k]),
                    sum_safe(ts@),
                    answers(sum_unit(ts@.subrange(0, i as int)), Ok(acc)),
                decreases ts.len() - i,
            {
                let ghost pre = ts@.subrange(0, i as int);
                let ghost next = ts@.subrange(0, i + 1);
                assert(next.drop_last() =~= pre);
                assert(next.last() == ts@[i as int]);
                proof {
                    lemma_sum_safe_prefix(ts@, i as int);
                }
                match infer_unit(&ts[i]) {
                    Err(msg) => {
                        proof {
                            lemma_sum_err_persists(ts@, i + 1);
                        }
                        return Err(msg);
                    },
                    Ok(None) => {},
                    Ok(Some(u)) => {
                        match acc {
                            None => {
                                acc = Some(u);
                            },
                            Some(ex) => {
                                proof {
                                    lemma_id_is_fingerprint(ex);
                                    lemma_id_is_fingerprint(u);
                                }
                                if ex.id != u.id {
                                    let msg = incompatible_message(&ex, &u);
                                    proof {
                                        lemma_sum_err_persists(ts@, i + 1);
                                    }
                                    return Err(msg);
                                }
                                acc = Some(ex);
                            },
                        }
                    },
                }
                i = i + 1;
            }
            assert(ts@.subrange(0, ts.len() as int) =~= ts@);
            Ok(acc)
        },
        UnitExpr::Mul(fs) => {
            let mut acc: Option<RationalUnit> = None;
            let mut i: usize = 0;
            assert(fs@.subrange(0, 0) =~= Seq::<UnitExpr>::empty());
            while i < fs.len()
                invariant
                    i <= fs.len(),
                    *e == UnitExpr::Mul(*fs),
                    forall|k: int| 0 <= k < fs@.len() ==> units_wf(#[trigger] fs@[k]),
                    product_safe(fs@),
                    answers(product_unit(fs@.subrange(0, i as int)), Ok(acc)),
                decreases fs.len() - i,
            {
                let ghost pre = fs@.subrange(0, i as int);
                let ghost next = fs@.subrange(0, i + 1);
                assert(next.drop_last() =~= pre);
                assert(next.last() == fs@[i as int]);
                proof {
                    lemma_product_safe_prefix(fs@, i as int);
                }
                match infer_unit(&fs[i]) {
                    Err(msg) => {
                        proof {
                            lemma_product_err_persists(fs@, i + 1);
                        }
                        return Err(msg);
                    },
                    Ok(None) => {},
                    Ok(Some(u)) => {
                        acc = match acc {
                            Some(a) => Some(a.mul(&u)),
                            None => Some(u),
                        };
                    },
                }
                i = i + 1;
            }
            assert(fs@.subrange(0, fs.len() as int) =~= fs@);
            Ok(acc)
        },
        UnitExpr::Sub(a, b) => {
            let ua = match infer_unit(a) {
                Err(msg) => {
                    return Err(msg);
                },
                Ok(x) => x,
            };
            let ub = match infer_unit(b) {
                Err(msg) => {
                    return Err(msg);
                },
                Ok(x) => x,
            };
            match (ua, ub) {
                (x, None) => Ok(x),
                (None, Some(u)) => Ok(Some(u)),
                (Some(ex), Some(u)) => {
                    proof {
                        lemma_id_is_fingerprint(ex);
                        lemma_id_is_fingerprint(u);
                    }
                    if ex.id != u.id {
                        Err(incompatible_message(&ex, &u))
                    } else {
                        Ok(Some(ex))
                    }
                },
            }
        },
        UnitExpr::Div(a, b) => {
            let ua = match infer_unit(a) {
                Err(msg) => {
                    return Err(msg);
                },
                Ok(x) => x,
            };
            let ub = match infer_unit(b) {
                Err(msg) => {
                    return Err(msg);
                },
                Ok(x) => x,
            };
            Ok(
                match (ua, ub) {
                    (Some(x), Some(y)) => Some(x.div(&y)),
                    (Some(x), None) => Some(x),
                    (None, Some(y)) => Some(RationalUnit::dimensionless().div(&y)),
                    (None, None) => None,
                },
            )
        },
        UnitExpr::Pow(base, ex) => {
            match infer_unit(base) {
                Err(msg) => Err(msg),
                Ok(None) => Ok(None),
                Ok(Some(u)) => match ex {
                    Some(r) => Ok(Some(u.pow(*r))),
                    None => Err(String::from_str("Cannot raise a dimensioned quantity to a non-constant power")),
                },
            }
        },
        UnitExpr::Sin(a) => transcendental(a),
        UnitExpr::Cos(a) => transcendental(a),
        UnitExpr::Ln(a) => transcendental(a),
        UnitExpr::Exp(a) => transcendental(a),
    }
}

/// A transcendental function of `a`: its argument must be dimensionless.
fn transcendental(a: &UnitExpr) -> (r: Result<Option<RationalUnit>, String>)
    requires
        units_wf(*a),
        unit_safe(*a),
    ensures
        answers(transcendental_unit(unit_of(*a)), r),
    decreases a, 1nat,
{
    match infer_unit(a) {
        Err(msg) => Err(msg),
        Ok(None) => Ok(None),
        Ok(Some(u)) => {
            if u.dimensions.len() > 0 {
                proof {
                    crate::assoc::lemma_assoc_index(u.dimensions@, 0);
                }
                Err(String::from_str("Transcendental function argument must be dimensionless"))
            } else {
                assert(u@ =~= Map::<Seq<char>, (i64, i64)>::empty());
                Ok(None)
            }
        },
    }
}


/// Whether two terms may be added: the first error either side's unit has, or,
/// when both have a unit, that the two units agree (by fingerprint).
pub open spec fn add_compat_spec(a: UnitExpr, b: UnitExpr) -> Result<(), Option<UnitErrorKind>> {
    match unit_of(a) {
        Err(k) => Err(Some(k)),
        Ok(ua) => match unit_of(b) {
            Err(k) => Err(Some(k)),
            Ok(ub) => match (ua, ub) {
                (Some(x), Some(y)) => if fingerprint(x) != fingerprint(y) {
                    Err(None)
                } else {
                    Ok(())
                },
                _ => Ok(()),
            },
        },
    }
}

/// The message for two terms whose units `x` and `y` differ: each unit's
/// dimensions written as `{:?}` writes a map, in some order of its entries.
pub open spec fn mismatch_message_ok(
    msg: Seq<char>,
    x: Map<Seq<char>, (i64, i64)>,
    y: Map<Seq<char>, (i64, i64)>,
) -> bool {
    exists|xd: Seq<(String, (i64, i64))>, yd: Seq<(String, (i64, i64))>|
        #![trigger dims_debug_spec(xd), dims_debug_spec(yd)]
        keys_distinct(xd) && keys_distinct(yd) && assoc_map(xd) == x && assoc_map(yd) == y && msg
            == "Cannot add term with unit "@ + dims_debug_spec(xd) + " to term with unit "@
            + dims_debug_spec(yd) + ": incompatible dimensions."@
}

/// Checks that two terms can be added, as simplifying a sum does before it
/// merges them.
pub fn check_add_compat(a: &UnitExpr, b: &UnitExpr) -> (r: Result<(), String>)
    requires
        units_wf(*a),
        units_wf(*b),
        unit_safe(*a),
        unit_safe(*b),
    ensures
        match add_compat_spec(*a, *b) {
            Ok(()) => r is Ok,
            Err(Some(k)) => r matches Err(msg) && error_message_ok(k, msg@),
            Err(None) => r matches Err(msg) && mismatch_message_ok(
                msg@,
                unit_of(*a)->Ok_0->Some_0,
                unit_of(*b)->Ok_0->Some_0,
            ),
        },
{
    let ua = infer_unit(a)?;
    let ub = infer_unit(b)?;
    if let (Some(x), Some(y)) = (&ua, &ub) {
        proof {
            lemma_id_is_fingerprint(*x);
            lemma_id_is_fingerprint(*y);
        }
        if x.id != y.id {
            let mut out: Vec<char> = Vec::new();
            extend_str(&mut out, "Cannot add term with unit ");
            let dx = dims_debug(&x.dimensions);
            extend_str(&mut out, dx.as_str());
            extend_str(&mut out, " to term with unit ");
            let dy = dims_debug(&y.dimensions);
            extend_str(&mut out, dy.as_str());
            extend_str(&mut out, ": incompatible dimensions.");
            assert(out@ =~= "Cannot add term with unit "@ + dims_debug_spec(x.dimensions@)
                + " to term with unit "@ + dims_debug_spec(y.dimensions@) + ": incompatible dimensions."@);
            return Err(string_from_chars(&out));
        }
    }
    Ok(())
}

/// A factor without a unit leaves a product's unit as it is, and so does a term
/// without a unit in a sum: a number in a product or a sum neither adds nor wipes
/// a unit.
pub proof fn lemma_unitless_terms_are_neutral(s: Seq<UnitExpr>)
    ensures
        product_unit(s.push(UnitExpr::Scalar)) == product_unit(s),
        sum_unit(s.push(UnitExpr::Scalar)) == sum_unit(s),
{
    let t = s.push(UnitExpr::Scalar);
    assert(t.drop_last() =~= s);
    assert(t.last() == UnitExpr::Scalar);
    assert(unit_of(UnitExpr::Scalar) == Ok::<Option<Map<Seq<char>, (i64, i64)>>, UnitErrorKind>(None));
}

/// `n` unitless terms.
pub open spec fn unitless_terms(n: nat) -> Seq<UnitExpr> {
    Seq::new(n, |i: int| UnitExpr::Scalar)
}

/// A quantity times any number of unitless factors has the quantity's unit: in
/// `v * 2` with `v` in metres the product is in metres.
pub proof fn lemma_quantity_times_numbers(u: RationalUnit, n: nat)
    ensures
        product_unit(seq![UnitExpr::Quantity(u)] + unitless_terms(n)) == Ok::<
            Option<Map<Seq<char>, (i64, i64)>>,
            UnitErrorKind,
        >(Some(u@)),
    decreases n,
{
    let s = seq![UnitExpr::Quantity(u)] + unitless_terms(n);
    if n == 0 {
        assert(s =~= seq![UnitExpr::Quantity(u)]);
        assert(s.drop_last() =~= Seq::<UnitExpr>::empty());
        assert(product_unit(Seq::<UnitExpr>::empty()) == Ok::<Option<Map<Seq<char>, (i64, i64)>>, UnitErrorKind>(None));
        assert(unit_of(UnitExpr::Quantity(u)) == Ok::<Option<Map<Seq<char>, (i64, i64)>>, UnitErrorKind>(Some(u@)));
    } else {
        let p = seq![UnitExpr::Quantity(u)] + unitless_terms((n - 1) as nat);
        assert(s =~= p.push(UnitExpr::Scalar));
        lemma_unitless_terms_are_neutral(p);
        lemma_quantity_times_numbers(u, (n - 1) as nat);
    }
}

/// A difference has the unit of the sum of its two sides, errors included.
pub proof fn lemma_difference_is_a_sum(a: UnitExpr, b: UnitExpr)
    ensures
        unit_of(UnitExpr::Sub(Box::new(a), Box::new(b))) == sum_unit(seq![a, b]),
{
    let s = seq![a, b];
    assert(s.drop_last() =~= seq![a]);
    assert(s.drop_last().drop_last() =~= Seq::<UnitExpr>::empty());
    assert(seq![a].drop_last() =~= Seq::<UnitExpr>::empty());
    assert(seq![a].last() == a);
    assert(s.last() == b);
    assert(sum_unit(Seq::<UnitExpr>::empty()) == Ok::<Option<Map<Seq<char>, (i64, i64)>>, UnitErrorKind>(None));
    assert(sum_unit(seq![a]) == sum_step(Ok(None), unit_of(a)));
}

} // verus!
