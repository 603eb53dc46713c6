//! The terminal rendering of a syntax error: which lines of the parser's report
//! are a location, a source excerpt, a note or a message.

use vstd::prelude::*;
use crate::text::{
    chars_of, contains_char, has_char, is_ws, replace_all, replace_spec, string_from_chars, trim,
    trim_end_matches, trim_end_matches_spec, trim_spec, trim_start_matches, trim_start_matches_spec,
};
use crate::words::{split_chars, split_spec, views};

verus! {

/// How a line of a syntax error is shown.
#[derive(Debug, Clone, PartialEq)]
pub enum ErrorLine {
    /// A `-->` line, trimmed: where the error is.
    Location(String),
    /// A line of the source excerpt (it has a `|` gutter), as it is.
    Excerpt(String),
    /// A note (it has an `=`), trimmed.
    Note(String),
    /// Any other line that is not blank, trimmed.
    Message(String),
}

/// Whether `p` occurs in `s` as a contiguous piece.
pub open spec fn contains_seq(s: Seq<char>, p: Seq<char>) -> bool {
    exists|i: int| 0 <= i <= s.len() - p.len() && #[trigger] s.subrange(i, i + p.len()) == p
}

/// The report the parser's `{:?}` text stands for: without the `Generic("`
/// wrapper, with escaped line breaks turned into real ones, and without `␊`
/// marks.
pub open spec fn clean_report(raw: Seq<char>) -> Seq<char> {
    let a = trim_start_matches_spec(raw, "Generic(\""@);
    let b = trim_end_matches_spec(a, "\")"@);
    let c = replace_spec(b, "\\n"@, "\n"@);
    replace_spec(c, "␊"@, Seq::empty())
}

/// A line as `str::lines` gives it: without a trailing carriage return.
pub open spec fn strip_cr(l: Seq<char>) -> Seq<char> {
    if l.len() > 0 && l.last() == '\r' {
        l.drop_last()
    } else {
        l
    }
}

/// How one line is shown, if at all.
pub open spec fn classify_spec(l: Seq<char>) -> Option<(nat, Seq<char>)> {
    if contains_seq(l, "-->"@) {
        Some((0nat, trim_spec(l)))
    } else if contains_char(l, '|') {
        Some((1nat, l))
    } else if contains_char(l, '=') {
        Some((2nat, trim_spec(l)))
    } else if trim_spec(l).len() > 0 {
        Some((3nat, trim_spec(l)))
    } else {
        None
    }
}

/// The kind number and text of a shown line.
pub open spec fn line_view(e: ErrorLine) -> (nat, Seq<char>) {
    match e {
        ErrorLine::Location(s) => (0nat, s@),
        ErrorLine::Excerpt(s) => (1nat, s@),
        ErrorLine::Note(s) => (2nat, s@),
        ErrorLine::Message(s) => (3nat, s@),
    }
}

/// The shown lines of some lines, in order.
pub open spec fn shown_lines(ls: Seq<Seq<char>>) -> Seq<(nat, Seq<char>)>
    decreases ls.len(),
{
    if ls.len() == 0 {
        Seq::empty()
    } else {
        shown_lines(ls.drop_last()) + match classify_spec(strip_cr(ls.last())) {
            Some(x) => seq![x],
            None => Seq::empty(),
        }
    }
}

fn contains_piece(s: &Vec<char>, p: &Vec<char>) -> (r: bool)
    requires
        p@.len() > 0,
    ensures
        r == contains_seq(s@, p@),
{
    if p.len() > s.len() {
        return false;
    }
    let mut i: usize = 0;
    while i <= s.len() - p.len()
        invariant
            p@.len() > 0,
            p.len() <= s.len(),
            i <= s.len() - p.len() + 1,
            forall|k: int| 0 <= k < i ==> #[trigger] s@.subrange(k, k + p@.len()) != p@,
        decreases s.len() - p.len() + 1 - i,
    {
        let mut same = true;
        let mut j: usize = 0;
        while j < p.len()
            invariant
                i + p.len() <= s.len(),
                j <= p.len(),
                same == forall|q: int| 0 <= q < j ==> s@[i + q] == p@[q],
            decreases p.len() - j,
        {
            if s[i + j] != p[j] {
                same = false;
            }
            j = j + 1;
        }
        if same {
            assert(s@.subrange(i as int, i + p@.len()) =~= p@);
            return true;
        } else {
            assert(s@.subrange(i as int, i + p@.len()) != p@) by {
                let q = choose|q: int| 0 <= q < p@.len() && s@[i + q] != p@[q];
                assert(s@.subrange(i as int, i + p@.len())[q] == s@[i + q]);
            }
        }
        i = i + 1;
    }
    false
}

/// Splits the parser's `{:?}` report into the lines shown, each with its kind.
pub fn parse_error_lines(raw: &str) -> (r: Vec<ErrorLine>)
    ensures
        r@.map_values(|e: ErrorLine| line_view(e)) == shown_lines(split_spec(clean_report(raw@), '\n')),
{
    proof {
        reveal_strlit("Generic(\"");
        reveal_strlit("\")");
        reveal_strlit("\\n");
        reveal_strlit("␊");
        reveal_strlit("-->");
    }
    let v = chars_of(raw);
    let a = trim_start_matches(&v, &chars_of("Generic(\""));
    let b = trim_end_matches(&a, &chars_of("\")"));
    let c = replace_all(&b, &chars_of("\\n"), &chars_of("\n"));
    let empty: Vec<char> = Vec::new();
    let d = replace_all(&c, &chars_of("␊"), &empty);
    assert(empty@ =~= Seq::<char>::empty());
    let lines = split_chars(&d, '\n');
    let ghost ls = views(lines@);
    let arrow = chars_of("-->");
    let mut out: Vec<ErrorLine> = Vec::new();
    let mut i: usize = 0;
    while i < lines.len()
        invariant
            i <= lines.len(),
            ls == views(lines@),
            arrow@ == "-->"@,
            arrow@.len() == 3,
            out@.map_values(|e: ErrorLine| line_view(e)) == shown_lines(ls.subrange(0, i as int)),
        decreases lines.len() - i,
    {
        let ghost next = ls.subrange(0, i + 1);
        assert(next.drop_last() =~= ls.subrange(0, i as int));
        assert(next.last() == lines@[i as int]@);
        let raw_line = &lines[i];
        let l: Vec<char> = if raw_line.len() > 0 && raw_line[raw_line.len() - 1] == '\r' {
            crate::text::sub_chars(raw_line, 0, raw_line.len() - 1)
        } else {
            crate::text::sub_chars(raw_line, 0, raw_line.len())
        };
        assert(l@ == strip_cr(lines@[i as int]@)) by {
            if raw_line@.len() > 0 && raw_line@.last() == '\r' {
                assert(l@ =~= raw_line@.drop_last());
            } else {
                assert(l@ =~= raw_line@);
            }
        }
        let ghost before = out@;
        if contains_piece(&l, &arrow) {
            out.push(ErrorLine::Location(string_from_chars(&trim(&l))));
        } else if has_char(&l, '|') {
            out.push(ErrorLine::Excerpt(string_from_chars(&l)));
        } else if has_char(&l, '=') {
            out.push(ErrorLine::Note(string_from_chars(&trim(&l))));
        } else {
            let t = trim(&l);
            if t.len() > 0 {
                out.push(ErrorLine::Message(string_from_chars(&t)));
            }
        }
        assert(out@.map_values(|e: ErrorLine| line_view(e)) =~= shown_lines(next));
        i = i + 1;
    }
    assert(ls.subrange(0, lines.len() as int) =~= ls);
    out
}

} // verus!
