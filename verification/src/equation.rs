//! Equations kept as text, and the PHS scripts that solve or evaluate them.

use vstd::prelude::*;
use crate::text::{
    chars_of, extend_str, string_from_chars, trim_end_matches, trim_end_matches_spec, trim_spec,
    trim_start_matches, trim_start_matches_spec, trim_str,
};

verus! {

/// An equation such as `F = m * a`.
#[derive(Debug, Clone)]
pub struct PhyEquation {
    pub expression: String,
}

/// An equation's text as it is kept: trimmed, then stripped of surrounding
/// double quotes.
pub open spec fn equation_text_spec(s: Seq<char>) -> Seq<char> {
    trim_end_matches_spec(trim_start_matches_spec(trim_spec(s), seq!['"']), seq!['"'])
}

/// The script that solves an equation for a variable.
pub open spec fn solve_script_spec(expr: Seq<char>, var: Seq<char>) -> Seq<char> {
    "use solve from calc\neq_temp = \""@ + expr + "\"\nsolve(eq_temp, \""@ + var + "\")\n"@
}

/// One keyword argument of an evaluation, written `name = (value unit)`.
pub open spec fn kwarg_spec(a: (Seq<char>, Seq<char>, Seq<char>)) -> Seq<char> {
    a.0 + " = ("@ + a.1 + " "@ + a.2 + ")"@
}

/// The keyword arguments, comma separated.
pub open spec fn kwargs_spec(args: Seq<(Seq<char>, Seq<char>, Seq<char>)>) -> Seq<char>
    decreases args.len(),
{
    if args.len() == 0 {
        Seq::empty()
    } else if args.len() == 1 {
        kwarg_spec(args[0])
    } else {
        kwargs_spec(args.drop_last()) + ", "@ + kwarg_spec(args.last())
    }
}

/// The script that solves an equation and calls the solution with arguments.
pub open spec fn call_script_spec(
    expr: Seq<char>,
    args: Seq<(Seq<char>, Seq<char>, Seq<char>)>,
) -> Seq<char> {
    "use solve from calc\neq_temp = \""@ + expr + "\"\nsolve_fn = solve(eq_temp)\nsolve_fn("@
        + kwargs_spec(args) + ")\n"@
}

/// The views of keyword arguments.
pub open spec fn kwarg_views(args: Seq<(String, String, String)>) -> Seq<
    (Seq<char>, Seq<char>, Seq<char>),
> {
    args.map_values(|a: (String, String, String)| (a.0@, a.1@, a.2@))
}

impl PhyEquation {
    /// Keeps an equation's text; every text is accepted.
    pub fn parse(expr: &str) -> (r: Result<Self, String>)
        ensures
            r matches Ok(e) && e.expression@ == equation_text_spec(expr@),
    {
        let t = trim_str(expr);
        let mut q: Vec<char> = Vec::new();
        q.push('"');
        assert(q@ =~= seq!['"']);
        let a = trim_start_matches(&t, &q);
        let b = trim_end_matches(&a, &q);
        Ok(PhyEquation { expression: string_from_chars(&b) })
    }

    /// The script that solves the equation for `var`.
    pub fn solve_script(&self, var: &str) -> (r: String)
        ensures
            r@ == solve_script_spec(self.expression@, var@),
    {
        let mut v: Vec<char> = Vec::new();
        extend_str(&mut v, "use solve from calc\neq_temp = \"");
        extend_str(&mut v, self.expression.as_str());
        extend_str(&mut v, "\"\nsolve(eq_temp, \"");
        extend_str(&mut v, var);
        extend_str(&mut v, "\")\n");
        string_from_chars(&v)
    }

    /// What `solve` answers when the script gives no equation back:
    /// `var = solve(expression, var)`.
    pub fn unsolved(&self, var: &str) -> (r: Result<PhyEquation, String>)
        ensures
            r matches Ok(e) && e.expression@ == equation_text_spec(
                var@ + " = solve("@ + self.expression@ + ", "@ + var@ + ")"@,
            ),
    {
        let mut v: Vec<char> = Vec::new();
        extend_str(&mut v, var);
        extend_str(&mut v, " = solve(");
        extend_str(&mut v, self.expression.as_str());
        extend_str(&mut v, ", ");
        extend_str(&mut v, var);
        extend_str(&mut v, ")");
        let s = string_from_chars(&v);
        PhyEquation::parse(s.as_str())
    }

    /// The script that evaluates the equation's solution at the given arguments,
    /// each a name with its value's text and its unit's text.
    pub fn call_script(&self, args: &Vec<(String, String, String)>) -> (r: String)
        ensures
            r@ == call_script_spec(self.expression@, kwarg_views(args@)),
    {
        let mut v: Vec<char> = Vec::new();
        extend_str(&mut v, "use solve from calc\neq_temp = \"");
        extend_str(&mut v, self.expression.as_str());
        extend_str(&mut v, "\"\nsolve_fn = solve(eq_temp)\nsolve_fn(");
        let ghost start = v@;
        let mut i: usize = 0;
        while i < args.len()
            invariant
                i <= args.len(),
                v@ == start + kwargs_spec(kwarg_views(args@.subrange(0, i as int))),
            decreases args.len() - i,
        {
            let ghost pre = kwarg_views(args@.subrange(0, i as int));
            let ghost next = kwarg_views(args@.subrange(0, i + 1));
            assert(next.drop_last() =~= pre);
            assert(next.last() == (args@[i as int].0@, args@[i as int].1@, args@[i as int].2@));
            if i > 0 {
                extend_str(&mut v, ", ");
            }
            extend_str(&mut v, args[i].0.as_str());
            extend_str(&mut v, " = (");
            extend_str(&mut v, args[i].1.as_str());
            extend_str(&mut v, " ");
            extend_str(&mut v, args[i].2.as_str());
            extend_str(&mut v, ")");
            proof {
                if i == 0 {
                    assert(next.len() == 1);
                }
            }
            i = i + 1;
        }
        assert(args@.subrange(0, args.len() as int) =~= args@);
        extend_str(&mut v, ")\n");
        string_from_chars(&v)
    }
}

} // verus!
