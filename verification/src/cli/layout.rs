//! The LaTeX a report shows for a statement: the expression summaries and the
//! line that leads up to a statement's value. Expressions reach this module
//! with their numbers and units already written as text.

use vstd::prelude::*;
use crate::cli::config::trim_matches_spec;
use crate::cli::latex::{escape_latex_text, format_symbol_latex, latex_escape_spec};
use crate::text::{
    chars_of, extend_chars, extend_str, has_prefix, string_from_chars, trim_end_matches,
    trim_start_matches,
};
use crate::words::{join_spec, join_strings, string_views};

verus! {

/// A binary operator of an expression.
#[derive(Debug, Clone, Copy, PartialEq, Eq, Structural)]
pub enum LatexOp {
    Add,
    Sub,
    Mul,
    Div,
    Pow,
    /// Unit conversion, `=>`.
    Convert,
}

/// An expression as the report lays it out.
#[derive(Debug)]
pub enum LatexExpr {
    /// A quantity: its magnitude as text, and its unit in LaTeX (empty when it
    /// has none).
    Quantity { magnitude: String, unit: String },
    /// A name or a string literal, with any surrounding quotes.
    Identifier(String),
    Binary(LatexOp, Box<LatexExpr>, Box<LatexExpr>),
    /// A function call: the function's name and its arguments.
    Call(String, Vec<LatexExpr>),
}

/// The LaTeX of a binary operation on two rendered operands.
pub open spec fn op_latex_spec(op: LatexOp, l: Seq<char>, r: Seq<char>) -> Seq<char> {
    match op {
        LatexOp::Add => l + " + "@ + r,
        LatexOp::Sub => l + " - "@ + r,
        LatexOp::Mul => l + " \\cdot "@ + r,
        LatexOp::Div => "\\frac{"@ + l + "}{"@ + r + "}"@,
        LatexOp::Pow => "{"@ + l + "}^{"@ + r + "}"@,
        LatexOp::Convert => l + " \\Rightarrow "@ + r,
    }
}

/// A text without its surrounding double quotes, escaped inside `\text{...}`.
pub open spec fn identifier_latex_spec(s: Seq<char>) -> Seq<char> {
    "\\text{"@ + latex_escape_spec(trim_matches_spec(s, '"')) + "}"@
}

/// The summary of an expression: a quantity is its magnitude, then a thin space
/// and its unit when it has one; a name is escaped text; operations are laid out
/// by [`op_latex_spec`]; a call is the function's name as text and its arguments
/// separated by `, ` in brackets.
pub open spec fn expr_latex_spec(e: LatexExpr) -> Seq<char>
    decreases e,
{
    match e {
        LatexExpr::Quantity { magnitude, unit } => if unit@.len() == 0 {
            magnitude@
        } else {
            magnitude@ + "\\, "@ + unit@
        },
        LatexExpr::Identifier(s) => identifier_latex_spec(s@),
        LatexExpr::Binary(op, l, r) => op_latex_spec(op, expr_latex_spec(*l), expr_latex_spec(*r)),
        LatexExpr::Call(name, args) => "\\text{"@ + name@ + "}("@ + join_spec(
            args_latex_spec(args@),
            ", "@,
        ) + ")"@,
    }
}

/// The summaries of a list of arguments, in order.
pub open spec fn args_latex_spec(s: Seq<LatexExpr>) -> Seq<Seq<char>>
    decreases s,
{
    if s.len() == 0 {
        Seq::empty()
    } else {
        args_latex_spec(s.drop_last()).push(expr_latex_spec(s.last()))
    }
}

/// The raw text of an argument: a string literal's text without its quotes, or
/// the summary of any other expression.
pub open spec fn raw_text_spec(e: LatexExpr) -> Seq<char> {
    match e {
        LatexExpr::Identifier(s) => trim_matches_spec(s@, '"'),
        _ => expr_latex_spec(e),
    }
}

/// A text without the double quotes around it.
fn unquote(s: &str) -> (r: Vec<char>)
    ensures
        r@ == trim_matches_spec(s@, '"'),
{
    let q = vec!['"'];
    assert(q@ =~= seq!['"']);
    let a = trim_start_matches(&chars_of(s), &q);
    trim_end_matches(&a, &q)
}

/// The LaTeX of an operation on two rendered operands.
fn op_latex(op: LatexOp, l: &str, r: &str) -> (out: String)
    ensures
        out@ == op_latex_spec(op, l@, r@),
{
    let mut v: Vec<char> = Vec::new();
    match op {
        LatexOp::Add => {
            extend_str(&mut v, l);
            extend_str(&mut v, " + ");
            extend_str(&mut v, r);
        },
        LatexOp::Sub => {
            extend_str(&mut v, l);
            extend_str(&mut v, " - ");
            extend_str(&mut v, r);
        },
        LatexOp::Mul => {
            extend_str(&mut v, l);
            extend_str(&mut v, " \\cdot ");
            extend_str(&mut v, r);
        },
        LatexOp::Div => {
            extend_str(&mut v, "\\frac{");
            extend_str(&mut v, l);
            extend_str(&mut v, "}{");
            extend_str(&mut v, r);
            extend_str(&mut v, "}");
        },
        LatexOp::Pow => {
            extend_str(&mut v, "{");
            extend_str(&mut v, l);
            extend_str(&mut v, "}^{");
            extend_str(&mut v, r);
            extend_str(&mut v, "}");
        },
        LatexOp::Convert => {
            extend_str(&mut v, l);
            extend_str(&mut v, " \\Rightarrow ");
            extend_str(&mut v, r);
        },
    }
    string_from_chars(&v)
}

/// Summarises an expression in LaTeX.
pub fn expr_latex(e: &LatexExpr) -> (r: String)
    ensures
        r@ == expr_latex_spec(*e),
    decreases e,
{
    match e {
        LatexExpr::Quantity { magnitude, unit } => {
            let mut v = chars_of(magnitude.as_str());
            let u = chars_of(unit.as_str());
            if u.len() > 0 {
                extend_str(&mut v, "\\, ");
                extend_chars(&mut v, &u);
            }
            string_from_chars(&v)
        },
        LatexExpr::Identifier(s) => {
            let t = string_from_chars(&unquote(s.as_str()));
            let esc = escape_latex_text(t.as_str());
            let mut v: Vec<char> = Vec::new();
            extend_str(&mut v, "\\text{");
            extend_str(&mut v, esc.as_str());
            extend_str(&mut v, "}");
            string_from_chars(&v)
        },
        LatexExpr::Binary(op, l, r) => {
            let ls = expr_latex(l);
            let rs = expr_latex(r);
            op_latex(*op, ls.as_str(), rs.as_str())
        },
        LatexExpr::Call(name, args) => {
            let mut parts: Vec<String> = Vec::new();
            let mut i: usize = 0;
            assert(args@.subrange(0, 0) =~= Seq::<LatexExpr>::empty());
            while i < args.len()
                invariant
                    i <= args.len(),
                    *e == LatexExpr::Call(*name, *args),
                    string_views(parts@) == args_latex_spec(args@.subrange(0, i as int)),
                decreases args.len() - i,
            {
                let ghost pre = args@.subrange(0, i as int);
                let ghost next = args@.subrange(0, i + 1);
                assert(next.drop_last() =~= pre);
                assert(next.last() == args@[i as int]);
                assert(decreases_to!(*e => (*e)->Call_1));
                assert((*e)->Call_1 == *args);
                let p = expr_latex(&args[i]);
                parts.push(p);
                assert(string_views(parts@) =~= args_latex_spec(next));
                i = i + 1;
            }
            assert(args@.subrange(0, args.len() as int) =~= args@);
            let joined = join_strings(&parts, ", ");
            let mut v: Vec<char> = Vec::new();
            extend_str(&mut v, "\\text{");
            extend_str(&mut v, name.as_str());
            extend_str(&mut v, "}(");
            extend_str(&mut v, joined.as_str());
            extend_str(&mut v, ")");
            string_from_chars(&v)
        },
    }
}

/// The raw text of an argument, as [`raw_text_spec`] says.
pub fn raw_text(e: &LatexExpr) -> (r: String)
    ensures
        r@ == raw_text_spec(*e),
{
    match e {
        LatexExpr::Identifier(s) => string_from_chars(&unquote(s.as_str())),
        _ => expr_latex(e),
    }
}

/// A statement as the report lays it out.
#[derive(Debug)]
pub enum LatexStatement {
    /// `name = value`. `raw_math` is the first argument of the value's call, its
    /// raw text rendered as math; it is shown for derivatives and integrals.
    Assignment { name: String, value: LatexExpr, raw_math: String },
    /// An expression on its own.
    Expr(LatexExpr),
    /// Any other statement.
    Other,
}

/// What a report shows of a statement: its label, its source summary, the LaTeX
/// leading up to its value, and whether it is a block of prose.
#[derive(Debug, Clone)]
pub struct StatementLayout {
    pub label: String,
    pub code: String,
    pub latex: String,
    pub display_text: bool,
}

/// Whether a call is `f(a, b)` with `f` one of two names.
pub open spec fn is_call_of(e: LatexExpr, a: Seq<char>, b: Seq<char>) -> bool {
    e matches LatexExpr::Call(name, args) && (name@ == a || name@ == b) && args@.len() == 2
}

/// The second argument of a call.
pub open spec fn second_arg(e: LatexExpr) -> LatexExpr {
    e->Call_1@[1]
}

/// The LaTeX leading up to an assignment's value: a derivative and an integral
/// are written out with the variable and the first argument's math; any other
/// value is introduced by the name alone.
pub open spec fn assignment_latex_spec(name: Seq<char>, value: LatexExpr, raw_math: Seq<char>) -> Seq<
    char,
> {
    let sym = "\\text{"@ + latex_escape_spec(name) + "}"@;
    if is_call_of(value, "deriv"@, "diff"@) {
        sym + " = \\frac{d}{d "@ + latex_escape_spec(raw_text_spec(second_arg(value)))
            + "}\\!\\left["@ + raw_math + "\\right] ="@
    } else if is_call_of(value, "integral"@, "integrate"@) {
        sym + " = \\int "@ + raw_math + " \\; d"@ + latex_escape_spec(
            raw_text_spec(second_arg(value)),
        ) + " ="@
    } else {
        sym + " ="@
    }
}

/// The layout of a statement: an assignment is labelled by its name and shown
/// as `name = ...`; a backquoted text is prose; a conversion shows its left side
/// and the arrow; any other expression its summary; other statements nothing.
pub open spec fn statement_layout_spec(s: LatexStatement, r: StatementLayout) -> bool {
    match s {
        LatexStatement::Assignment { name, value, raw_math } => {
            &&& r.label@ == name@
            &&& r.code@ == name@ + " = ..."@
            &&& r.latex@ == assignment_latex_spec(name@, value, raw_math@)
            &&& !r.display_text
        },
        LatexStatement::Expr(e) => if e matches LatexExpr::Identifier(t) && has_prefix(t@, "`"@) {
            r.label@ == "note"@ && r.code@ == "note"@ && r.latex@.len() == 0 && r.display_text
        } else {
            &&& r.label@ == "expr"@
            &&& r.code@ == "expr"@
            &&& r.latex@ == (match e {
                LatexExpr::Binary(LatexOp::Convert, l, _) => expr_latex_spec(*l) + " \\Rightarrow"@,
                _ => expr_latex_spec(e),
            })
            &&& !r.display_text
        },
        LatexStatement::Other => r.label@ == "expr"@ && r.code@ == "expr"@ && r.latex@.len() == 0
            && !r.display_text,
    }
}

/// Whether a text is `a` or `b`.
fn is_either(s: &str, a: &str, b: &str) -> (r: bool)
    ensures
        r == (s@ == a@ || s@ == b@),
{
    let v = chars_of(s);
    crate::text::chars_eq_str(&v, a) || crate::text::chars_eq_str(&v, b)
}

/// The LaTeX leading up to an assignment's value.
fn assignment_latex(name: &str, value: &LatexExpr, raw_math: &str) -> (r: String)
    ensures
        r@ == assignment_latex_spec(name@, *value, raw_math@),
{
    let sym = format_symbol_latex(name);
    let mut v = chars_of(sym.as_str());
    match value {
        LatexExpr::Call(f, args) => {
            if args.len() == 2 && is_either(f.as_str(), "deriv", "diff") {
                let var = escape_latex_text(raw_text(&args[1]).as_str());
                extend_str(&mut v, " = \\frac{d}{d ");
                extend_str(&mut v, var.as_str());
                extend_str(&mut v, "}\\!\\left[");
                extend_str(&mut v, raw_math);
                extend_str(&mut v, "\\right] =");
                return string_from_chars(&v);
            }
            if args.len() == 2 && is_either(f.as_str(), "integral", "integrate") {
                let var = escape_latex_text(raw_text(&args[1]).as_str());
                extend_str(&mut v, " = \\int ");
                extend_str(&mut v, raw_math);
                extend_str(&mut v, " \\; d");
                extend_str(&mut v, var.as_str());
                extend_str(&mut v, " =");
                return string_from_chars(&v);
            }
        },
        _ => {},
    }
    extend_str(&mut v, " =");
    string_from_chars(&v)
}

/// Lays a statement out for the report.
pub fn statement_layout(s: &LatexStatement) -> (r: StatementLayout)
    ensures
        statement_layout_spec(*s, r),
{
    match s {
        LatexStatement::Assignment { name, value, raw_math } => {
            let mut code = chars_of(name.as_str());
            extend_str(&mut code, " = ...");
            StatementLayout {
                label: string_from_chars(&chars_of(name.as_str())),
                code: string_from_chars(&code),
                latex: assignment_latex(name.as_str(), value, raw_math.as_str()),
                display_text: false,
            }
        },
        LatexStatement::Expr(e) => {
            if let LatexExpr::Identifier(t) = e {
                if crate::text::starts_with(&chars_of(t.as_str()), &chars_of("`")) {
                    return StatementLayout {
                        label: String::from_str("note"),
                        code: String::from_str("note"),
                        latex: String::new(),
                        display_text: true,
                    };
                }
            }
            let latex = match e {
                LatexExpr::Binary(LatexOp::Convert, l, _) => {
                    let mut v = chars_of(expr_latex(l).as_str());
                    extend_str(&mut v, " \\Rightarrow");
                    string_from_chars(&v)
                },
                _ => expr_latex(e),
            };
            StatementLayout {
                label: String::from_str("expr"),
                code: String::from_str("expr"),
                latex,
                display_text: false,
            }
        },
        LatexStatement::Other => StatementLayout {
            label: String::from_str("expr"),
            code: String::from_str("expr"),
            latex: String::new(),
            display_text: false,
        },
    }
}

} // verus!
