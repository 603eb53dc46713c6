//! The unit registry's table in the generated language reference (`phs doc`).

use vstd::prelude::*;
use crate::text::{chars_of, extend_str, string_from_chars};
use crate::words::{
    distinct_views, find_name, index_of_name, sorted_names, sorted_views, string_views,
};

verus! {

/// A derived unit as the reference lists it.
#[derive(Debug, Clone)]
pub struct UnitDoc {
    pub name: String,
    /// The category the unit's metadata gives, if any.
    pub category: Option<String>,
    /// The unit written in base SI dimensions (empty for a dimensionless one).
    pub base_dims: String,
}

/// The names of the units.
pub open spec fn unit_names(u: Seq<UnitDoc>) -> Seq<Seq<char>> {
    u.map_values(|x: UnitDoc| x.name@)
}

/// The table row of a unit: its name, its category (`Derived` without one), and
/// its base dimensions (`dimensionless` when empty).
pub open spec fn unit_row_spec(u: UnitDoc) -> Seq<char> {
    let cat = match u.category {
        Some(c) => c@,
        None => "Derived"@,
    };
    let dim = if u.base_dims@.len() == 0 {
        "dimensionless"@
    } else {
        u.base_dims@
    };
    "| `"@ + u.name@ + "` | "@ + cat + " | `"@ + dim + "` |\n"@
}

/// The table row of an alias and the symbol it stands for.
pub open spec fn alias_row_spec(alias: Seq<char>, target: Seq<char>) -> Seq<char> {
    "| `"@ + alias + "` | Alias -> `"@ + target + "` | - |\n"@
}

/// The rows of the units named, in the order named.
pub open spec fn unit_rows_spec(units: Seq<UnitDoc>, order: Seq<Seq<char>>) -> Seq<char>
    decreases order.len(),
{
    if order.len() == 0 {
        Seq::empty()
    } else {
        unit_rows_spec(units, order.drop_last()) + match index_of_name(unit_names(units), order.last()) {
            Some(i) => unit_row_spec(units[i]),
            None => Seq::empty(),
        }
    }
}

/// The alias rows of the aliases named, in the order named.
pub open spec fn alias_rows_spec(aliases: Seq<(String, String)>, order: Seq<Seq<char>>) -> Seq<char>
    decreases order.len(),
{
    if order.len() == 0 {
        Seq::empty()
    } else {
        alias_rows_spec(aliases, order.drop_last()) + match index_of_name(
            aliases.map_values(|a: (String, String)| a.0@),
            order.last(),
        ) {
            Some(i) => alias_row_spec(aliases[i].0@, aliases[i].1@),
            None => Seq::empty(),
        }
    }
}

/// `order` lists the names of `names` once each, in increasing `String` order.
pub open spec fn in_name_order(order: Seq<Seq<char>>, names: Seq<Seq<char>>) -> bool {
    sorted_views(order) && order.to_set() == names.to_set() && order.len() == names.len()
}

fn unit_name_list(units: &Vec<UnitDoc>) -> (r: Vec<String>)
    ensures
        string_views(r@) == unit_names(units@),
{
    let mut r: Vec<String> = Vec::new();
    let mut i: usize = 0;
    while i < units.len()
        invariant
            i <= units.len(),
            r@.len() == i,
            forall|k: int| 0 <= k < i ==> #[trigger] r@[k]@ == units@[k].name@,
        decreases units.len() - i,
    {
        r.push(string_from_chars(&chars_of(units[i].name.as_str())));
        i = i + 1;
    }
    assert(string_views(r@) =~= unit_names(units@));
    r
}

fn alias_name_list(aliases: &Vec<(String, String)>) -> (r: Vec<String>)
    ensures
        string_views(r@) == aliases@.map_values(|a: (String, String)| a.0@),
{
    let mut r: Vec<String> = Vec::new();
    let mut i: usize = 0;
    while i < aliases.len()
        invariant
            i <= aliases.len(),
            r@.len() == i,
            forall|k: int| 0 <= k < i ==> #[trigger] r@[k]@ == aliases@[k].0@,
        decreases aliases.len() - i,
    {
        r.push(string_from_chars(&chars_of(aliases[i].0.as_str())));
        i = i + 1;
    }
    assert(string_views(r@) =~= aliases@.map_values(|a: (String, String)| a.0@));
    r
}

/// Writes the registry's rows: every derived unit, then every alias, each group
/// in increasing order of name.
pub fn unit_table_rows(units: &Vec<UnitDoc>, aliases: &Vec<(String, String)>) -> (r: String)
    requires
        distinct_views(unit_names(units@)),
        distinct_views(aliases@.map_values(|a: (String, String)| a.0@)),
    ensures
        exists|uo: Seq<Seq<char>>, ao: Seq<Seq<char>>|
            #![trigger unit_rows_spec(units@, uo), alias_rows_spec(aliases@, ao)]
            in_name_order(uo, unit_names(units@)) && in_name_order(
                ao,
                aliases@.map_values(|a: (String, String)| a.0@),
            ) && r@ == unit_rows_spec(units@, uo) + alias_rows_spec(aliases@, ao),
{
    let unames = unit_name_list(units);
    assert(string_views(unames@).len() == unames@.len());
    let uorder = sorted_names(&unames);
    let anames = alias_name_list(aliases);
    assert(string_views(anames@).len() == anames@.len());
    let aorder = sorted_names(&anames);
    let mut out: Vec<char> = Vec::new();
    let mut i: usize = 0;
    while i < uorder.len()
        invariant
            i <= uorder.len(),
            string_views(unames@) == unit_names(units@),
            out@ == unit_rows_spec(units@, string_views(uorder@.subrange(0, i as int))),
        decreases uorder.len() - i,
    {
        let ghost next = string_views(uorder@.subrange(0, i + 1));
        assert(next.drop_last() =~= string_views(uorder@.subrange(0, i as int)));
        assert(next.last() == uorder@[i as int]@);
        let key = chars_of(uorder[i].as_str());
        match find_name(&unames, &key) {
            Some(j) => {
                assert(units@[j as int].name@ == unit_names(units@)[j as int]);
                let u = &units[j];
                extend_str(&mut out, "| `");
                extend_str(&mut out, u.name.as_str());
                extend_str(&mut out, "` | ");
                match &u.category {
                    Some(c) => extend_str(&mut out, c.as_str()),
                    None => extend_str(&mut out, "Derived"),
                }
                extend_str(&mut out, " | `");
                if u.base_dims.unicode_len() == 0 {
                    extend_str(&mut out, "dimensionless");
                } else {
                    extend_str(&mut out, u.base_dims.as_str());
                }
                extend_str(&mut out, "` |\n");
            },
            None => {},
        }
        i = i + 1;
    }
    assert(uorder@.subrange(0, uorder.len() as int) =~= uorder@);
    let ghost unit_part = out@;
    let mut k: usize = 0;
    while k < aorder.len()
        invariant
            k <= aorder.len(),
            string_views(anames@) == aliases@.map_values(|a: (String, String)| a.0@),
            out@ == unit_part + alias_rows_spec(aliases@, string_views(aorder@.subrange(0, k as int))),
        decreases aorder.len() - k,
    {
        let ghost next = string_views(aorder@.subrange(0, k + 1));
        assert(next.drop_last() =~= string_views(aorder@.subrange(0, k as int)));
        assert(next.last() == aorder@[k as int]@);
        let key = chars_of(aorder[k].as_str());
        match find_name(&anames, &key) {
            Some(j) => {
                extend_str(&mut out, "| `");
                extend_str(&mut out, aliases[j].0.as_str());
                extend_str(&mut out, "` | Alias -> `");
                extend_str(&mut out, aliases[j].1.as_str());
                extend_str(&mut out, "` | - |\n");
            },
            None => {},
        }
        k = k + 1;
    }
    assert(aorder@.subrange(0, aorder.len() as int) =~= aorder@);
    string_from_chars(&out)
}

} // verus!
