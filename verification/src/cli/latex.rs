//! LaTeX text for the rendered reports: escaping for `\text{...}`, scientific
//! notation, and the shape of a displayed value.

use vstd::prelude::*;
use crate::text::{
    chars_of, ends_with, extend_chars, extend_str, has_suffix, replace_all, replace_spec,
    starts_with, string_from_chars, trim_end_spec, trim_start_matches, trim_start_matches_spec,
    has_prefix, sub_chars,
};
use crate::words::{join_spec, join_strings, string_views};

verus! {

/// `s` with one character replaced everywhere by a text.
fn replace_one(s: &Vec<char>, p: &str, r: &str) -> (out: Vec<char>)
    requires
        p@.len() > 0,
    ensures
        out@ == replace_spec(s@, p@, r@),
{
    let pv = chars_of(p);
    let rv = chars_of(r);
    replace_all(s, &pv, &rv)
}

/// The escaping of LaTeX text mode: backslash, `^`, `~`, `_`, `%`, `$`, `#` and
/// `&`, in that order, each replaced everywhere.
pub open spec fn latex_escape_spec(s: Seq<char>) -> Seq<char> {
    let a = replace_spec(s, "\\"@, "\\backslash "@);
    let b = replace_spec(a, "^"@, "\\textasciicircum{}"@);
    let c = replace_spec(b, "~"@, "\\textasciitilde{}"@);
    let d = replace_spec(c, "_"@, "\\_"@);
    let e = replace_spec(d, "%"@, "\\%"@);
    let f = replace_spec(e, "$"@, "\\$"@);
    let g = replace_spec(f, "#"@, "\\#"@);
    replace_spec(g, "&"@, "\\&"@)
}

/// Escapes characters that are special to LaTeX text mode (`\text{...}`).
pub fn escape_latex_text(s: &str) -> (r: String)
    ensures
        r@ == latex_escape_spec(s@),
{
    proof {
        reveal_strlit("\\");
        reveal_strlit("^");
        reveal_strlit("~");
        reveal_strlit("_");
        reveal_strlit("%");
        reveal_strlit("$");
        reveal_strlit("#");
        reveal_strlit("&");
    }
    let v = chars_of(s);
    let a = replace_one(&v, "\\", "\\backslash ");
    let b = replace_one(&a, "^", "\\textasciicircum{}");
    let c = replace_one(&b, "~", "\\textasciitilde{}");
    let d = replace_one(&c, "_", "\\_");
    let e = replace_one(&d, "%", "\\%");
    let f = replace_one(&e, "$", "\\$");
    let g = replace_one(&f, "#", "\\#");
    let h = replace_one(&g, "&", "\\&");
    string_from_chars(&h)
}

/// A variable's name as LaTeX: escaped text inside `\text{...}`.
pub fn format_symbol_latex(name: &str) -> (r: String)
    ensures
        r@ == "\\text{"@ + latex_escape_spec(name@) + "}"@,
{
    let esc = escape_latex_text(name);
    let mut out: Vec<char> = Vec::new();
    extend_str(&mut out, "\\text{");
    extend_str(&mut out, esc.as_str());
    extend_str(&mut out, "}");
    string_from_chars(&out)
}

/// Whether `c` marks an exponent in a number's text.
pub open spec fn is_exp_marker(c: char) -> bool {
    c == 'e' || c == 'E'
}

/// How many exponent markers `s` holds.
pub open spec fn marker_count(s: Seq<char>) -> nat
    decreases s.len(),
{
    if s.len() == 0 {
        0
    } else {
        marker_count(s.drop_last()) + if is_exp_marker(s.last()) { 1nat } else { 0nat }
    }
}

/// The index of the first exponent marker in `s`, when there is one.
pub open spec fn first_marker(s: Seq<char>) -> Option<int>
    decreases s.len(),
{
    if s.len() == 0 {
        None
    } else {
        match first_marker(s.drop_last()) {
            Some(i) => Some(i),
            None => if is_exp_marker(s.last()) {
                Some(s.len() - 1)
            } else {
                None
            },
        }
    }
}

/// A number's text in LaTeX: `m` and `e` around exactly one exponent marker
/// become `m \times 10^{e}`, leading `+` signs of the exponent dropped; any other
/// text is kept as it is.
pub open spec fn scientific_spec(s: Seq<char>) -> Seq<char> {
    match first_marker(s) {
        Some(i) => if marker_count(s) == 1 {
            s.subrange(0, i) + " \\times 10^{"@ + trim_start_matches_spec(
                s.subrange(i + 1, s.len() as int),
                "+"@,
            ) + "}"@
        } else {
            s
        },
        None => s,
    }
}

/// Rewrites a number written with an exponent (`1.5e-3`) as LaTeX
/// (`1.5 \times 10^{-3}`).
pub fn scientific_to_latex(s: &str) -> (r: String)
    ensures
        r@ == scientific_spec(s@),
{
    let v = chars_of(s);
    let n = v.len();
    let mut count: usize = 0;
    let mut first: Option<usize> = None;
    let mut i: usize = 0;
    while i < n
        invariant
            n == v@.len(),
            i <= n,
            count as nat == marker_count(v@.subrange(0, i as int)),
            count <= i,
            match first {
                Some(f) => first_marker(v@.subrange(0, i as int)) == Some(f as int) && f < i,
                None => first_marker(v@.subrange(0, i as int)) is None,
            },
        decreases n - i,
    {
        let ghost pre = v@.subrange(0, i as int);
        let ghost next = v@.subrange(0, i + 1);
        assert(next.drop_last() =~= pre);
        assert(next.last() == v@[i as int]);
        if v[i] == 'e' || v[i] == 'E' {
            count = count + 1;
            if first.is_none() {
                first = Some(i);
            }
        }
        i = i + 1;
    }
    assert(v@.subrange(0, n as int) =~= v@);
    match first {
        Some(f) => {
            if count == 1 {
                proof {
                    reveal_strlit("+");
                }
                let mant = sub_chars(&v, 0, f);
                let exp = sub_chars(&v, f + 1, n);
                let plus = chars_of("+");
                let exp2 = trim_start_matches(&exp, &plus);
                let mut out: Vec<char> = Vec::new();
                extend_chars(&mut out, &mant);
                extend_str(&mut out, " \\times 10^{");
                extend_chars(&mut out, &exp2);
                extend_str(&mut out, "}");
                string_from_chars(&out)
            } else {
                string_from_chars(&v)
            }
        },
        None => string_from_chars(&v),
    }
}

/// `s` without its leading `"= "` markers.
pub open spec fn strip_value_marker(s: Seq<char>) -> Seq<char> {
    trim_start_matches_spec(s, "= "@)
}

/// The displayed items of a vector: all of them when there are at most four,
/// otherwise the first three, `\dots` and the last.
pub open spec fn vector_items_spec(items: Seq<Seq<char>>) -> Seq<char> {
    let shown = items.map_values(|x: Seq<char>| strip_value_marker(x));
    if shown.len() > 4 {
        "= ["@ + join_spec(shown.subrange(0, 3), ", "@) + ", \\dots, "@ + shown.last() + "]"@
    } else {
        "= ["@ + join_spec(shown, ", "@) + "]"@
    }
}

/// A vector's value in LaTeX, from the LaTeX of its items (each of which may
/// start with `"= "`, which is dropped).
pub fn vector_latex(items: &Vec<String>) -> (r: String)
    ensures
        r@ == vector_items_spec(string_views(items@)),
{
    proof {
        reveal_strlit("= ");
    }
    let marker = chars_of("= ");
    let mut shown: Vec<String> = Vec::new();
    let mut i: usize = 0;
    let ghost target = string_views(items@).map_values(|x: Seq<char>| strip_value_marker(x));
    while i < items.len()
        invariant
            i <= items.len(),
            marker@ == "= "@,
            marker@.len() == 2,
            target == string_views(items@).map_values(|x: Seq<char>| strip_value_marker(x)),
            shown@.len() == i,
            forall|k: int| 0 <= k < i ==> #[trigger] shown@[k]@ == target[k],
        decreases items.len() - i,
    {
        let t = trim_start_matches(&chars_of(items[i].as_str()), &marker);
        shown.push(string_from_chars(&t));
        i = i + 1;
    }
    assert(string_views(shown@) =~= target);
    let mut out: Vec<char> = Vec::new();
    extend_str(&mut out, "= [");
    if shown.len() > 4 {
        let mut first3: Vec<String> = Vec::new();
        first3.push(shown[0].clone());
        first3.push(shown[1].clone());
        first3.push(shown[2].clone());
        assert(string_views(first3@) =~= target.subrange(0, 3));
        let j = join_strings(&first3, ", ");
        extend_str(&mut out, j.as_str());
        extend_str(&mut out, ", \\dots, ");
        extend_str(&mut out, shown[shown.len() - 1].as_str());
    } else {
        let j = join_strings(&shown, ", ");
        extend_str(&mut out, j.as_str());
    }
    extend_str(&mut out, "]");
    string_from_chars(&out)
}

/// A quantity's value in LaTeX: the mean, with `\pm` and the standard deviation
/// in brackets when there is one, then the unit after a thin space when there is
/// one; both numbers go through [`scientific_to_latex`].
pub open spec fn quantity_spec(
    mean: Seq<char>,
    std_dev: Option<Seq<char>>,
    unit: Seq<char>,
) -> Seq<char> {
    let v = match std_dev {
        Some(u) => "("@ + scientific_spec(mean) + " \\pm "@ + scientific_spec(u) + ")"@,
        None => scientific_spec(mean),
    };
    if unit.len() == 0 {
        "= "@ + v
    } else {
        "= "@ + v + "\\; "@ + unit
    }
}

/// Writes a quantity's value as LaTeX from the text of its mean, of its standard
/// deviation when it is positive, and of its unit.
pub fn quantity_latex(mean: &str, std_dev: Option<&str>, unit: &str) -> (r: String)
    ensures
        r@ == quantity_spec(
            mean@,
            match std_dev {
                Some(u) => Some(u@),
                None => None,
            },
            unit@,
        ),
{
    let m = scientific_to_latex(mean);
    let mut v: Vec<char> = Vec::new();
    match std_dev {
        Some(u) => {
            let us = scientific_to_latex(u);
            extend_str(&mut v, "(");
            extend_str(&mut v, m.as_str());
            extend_str(&mut v, " \\pm ");
            extend_str(&mut v, us.as_str());
            extend_str(&mut v, ")");
        },
        None => {
            extend_str(&mut v, m.as_str());
        },
    }
    let mut out: Vec<char> = Vec::new();
    extend_str(&mut out, "= ");
    extend_chars(&mut out, &v);
    if unit.unicode_len() > 0 {
        extend_str(&mut out, "\\; ");
        extend_str(&mut out, unit);
    }
    string_from_chars(&out)
}

/// A plain number's value in LaTeX.
pub fn number_latex(text: &str) -> (r: String)
    ensures
        r@ == "= "@ + scientific_spec(text@),
{
    let s = scientific_to_latex(text);
    let mut out: Vec<char> = Vec::new();
    extend_str(&mut out, "= ");
    extend_str(&mut out, s.as_str());
    string_from_chars(&out)
}

/// A truth value in LaTeX.
pub fn bool_latex(b: bool) -> (r: String)
    ensures
        r@ == (if b { "= \\text{True}"@ } else { "= \\text{False}"@ }),
{
    if b {
        String::from_str("= \\text{True}")
    } else {
        String::from_str("= \\text{False}")
    }
}

/// The equation shown for one evaluated step: the step's expression, then its
/// value. A value's leading `"= "` is dropped where the expression already ends
/// in `=` or `\Rightarrow` (ignoring trailing white space).
pub open spec fn equation_spec(expr: Seq<char>, value: Seq<char>) -> Seq<char> {
    let t = trim_end_spec(expr);
    let v = if expr.len() > 0 && has_prefix(value, "= "@) && (has_suffix(t, "="@) || has_suffix(
        t,
        "\\Rightarrow"@,
    )) {
        trim_start_matches_spec(value, "= "@)
    } else {
        value
    };
    if expr.len() == 0 {
        v
    } else {
        expr + " "@ + v
    }
}

/// Puts a step's LaTeX expression and its value's LaTeX together.
pub fn equation_latex(expr: &str, value: &str) -> (r: String)
    ensures
        r@ == equation_spec(expr@, value@),
{
    proof {
        reveal_strlit("= ");
    }
    let e = chars_of(expr);
    let v = chars_of(value);
    let marker = chars_of("= ");
    let t = crate::text::trim_end_chars(&e);
    let shown = if e.len() > 0 && starts_with(&v, &marker) && (ends_with(&t, &chars_of("="))
        || ends_with(&t, &chars_of("\\Rightarrow"))) {
        trim_start_matches(&v, &marker)
    } else {
        sub_chars(&v, 0, v.len())
    };
    if e.len() == 0 {
        string_from_chars(&shown)
    } else {
        let mut out: Vec<char> = Vec::new();
        extend_chars(&mut out, &e);
        extend_str(&mut out, " ");
        extend_chars(&mut out, &shown);
        string_from_chars(&out)
    }
}

} // verus!
