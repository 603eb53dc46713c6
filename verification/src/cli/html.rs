//! The HTML report (`phs --view`): the script's metadata comments, HTML
//! escaping, and the blocks of the report's body with their numbering.

use vstd::prelude::*;
use vstd::utf8::encode_utf8;
use crate::text::{
    lemma_replace_absent, chars_of, extend_chars, extend_str, has_prefix, replace_all, replace_spec, starts_with,
    string_from_chars, trim, trim_spec, trim_start_matches, trim_start_matches_spec,
    trim_start_spec, decimal_chars, decimal_spec,
};
use crate::words::{split_chars, split_spec, views};
use crate::cli::encode::{base64_encode, base64_spec};

verus! {

/// The metadata a script declares in `# @tag: value` comment lines.
#[derive(Debug, Clone)]
pub struct ScriptMetadata {
    pub title: Option<String>,
    pub author: Option<String>,
    pub institution: Option<String>,
    pub date: Option<String>,
    pub abstract_text: Option<String>,
}

/// The view of an optional string.
pub open spec fn opt_view(o: Option<String>) -> Option<Seq<char>> {
    match o {
        Some(s) => Some(s@),
        None => None,
    }
}

/// The value of the last line that, trimmed, starts with `tag`: the rest of that
/// line, trimmed, with every leading repetition of the tag removed first.
pub open spec fn tag_value(lines: Seq<Seq<char>>, tag: Seq<char>) -> Option<Seq<char>>
    decreases lines.len(),
{
    if lines.len() == 0 {
        None
    } else {
        let t = trim_spec(lines.last());
        if has_prefix(t, tag) {
            Some(trim_spec(trim_start_matches_spec(t, tag)))
        } else {
            tag_value(lines.drop_last(), tag)
        }
    }
}

/// What `extract_metadata` finds in a script: each tag's value from the lines of
/// the code.
pub open spec fn metadata_spec(code: Seq<char>, m: ScriptMetadata) -> bool {
    let lines = split_spec(code, '\n');
    &&& opt_view(m.title) == tag_value(lines, "# @title:"@)
    &&& opt_view(m.author) == tag_value(lines, "# @author:"@)
    &&& opt_view(m.institution) == tag_value(lines, "# @institution:"@)
    &&& opt_view(m.date) == tag_value(lines, "# @date:"@)
    &&& opt_view(m.abstract_text) == tag_value(lines, "# @abstract:"@)
}

/// The value of a tagged line, when the trimmed line carries the tag.
fn tagged(t: &Vec<char>, tag: &str) -> (r: Option<String>)
    requires
        tag@.len() > 0,
    ensures
        r is Some <==> has_prefix(t@, tag@),
        r is Some ==> opt_view(r) == Some(trim_spec(trim_start_matches_spec(t@, tag@))),
{
    let tv = chars_of(tag);
    if starts_with(t, &tv) {
        let rest = trim_start_matches(t, &tv);
        Some(string_from_chars(&trim(&rest)))
    } else {
        None
    }
}

/// Reads the `# @title:`, `# @author:`, `# @institution:`, `# @date:` and
/// `# @abstract:` comment lines of a script; a later line overrides an earlier one.
pub fn extract_metadata(code: &str) -> (m: ScriptMetadata)
    ensures
        metadata_spec(code@, m),
{
    proof {
        reveal_strlit("# @title:");
        reveal_strlit("# @author:");
        reveal_strlit("# @institution:");
        reveal_strlit("# @date:");
        reveal_strlit("# @abstract:");
    }
    let lines = split_chars(&chars_of(code), '\n');
    let ghost ls = views(lines@);
    let mut m = ScriptMetadata {
        title: None,
        author: None,
        institution: None,
        date: None,
        abstract_text: None,
    };
    let mut i: usize = 0;
    while i < lines.len()
        invariant
            i <= lines.len(),
            ls == views(lines@),
            opt_view(m.title) == tag_value(ls.subrange(0, i as int), "# @title:"@),
            opt_view(m.author) == tag_value(ls.subrange(0, i as int), "# @author:"@),
            opt_view(m.institution) == tag_value(ls.subrange(0, i as int), "# @institution:"@),
            opt_view(m.date) == tag_value(ls.subrange(0, i as int), "# @date:"@),
            opt_view(m.abstract_text) == tag_value(ls.subrange(0, i as int), "# @abstract:"@),
        decreases lines.len() - i,
    {
        proof {
            reveal_strlit("# @title:");
            reveal_strlit("# @author:");
            reveal_strlit("# @institution:");
            reveal_strlit("# @date:");
            reveal_strlit("# @abstract:");
        }
        let t = trim(&lines[i]);
        let ghost next = ls.subrange(0, i + 1);
        assert(next.drop_last() =~= ls.subrange(0, i as int));
        assert(next.last() == lines@[i as int]@);
        if let Some(v) = tagged(&t, "# @title:") {
            m.title = Some(v);
        } else if let Some(v) = tagged(&t, "# @author:") {
            m.author = Some(v);
        } else if let Some(v) = tagged(&t, "# @institution:") {
            m.institution = Some(v);
        } else if let Some(v) = tagged(&t, "# @date:") {
            m.date = Some(v);
        } else if let Some(v) = tagged(&t, "# @abstract:") {
            m.abstract_text = Some(v);
        }
        proof {
            let tags = seq!["# @title:"@, "# @author:"@, "# @institution:"@, "# @date:"@, "# @abstract:"@];
            assert forall|k: int| 0 <= k < 5 && has_prefix(t@, #[trigger] tags[k]) implies t@[3]
                == tags[k][3] && t@[4] == tags[k][4] by {
                assert(t@.subrange(0, tags[k].len() as int)[3] == t@[3]);
                assert(t@.subrange(0, tags[k].len() as int)[4] == t@[4]);
            }
        }
        i = i + 1;
    }
    assert(ls.subrange(0, lines.len() as int) =~= ls);
    m
}

/// HTML escaping of text: `&`, `<`, `>` and `"`, in that order, each replaced
/// by its entity.
pub open spec fn html_escape_spec(s: Seq<char>) -> Seq<char> {
    let a = replace_spec(s, "&"@, "&amp;"@);
    let b = replace_spec(a, "<"@, "&lt;"@);
    let c = replace_spec(b, ">"@, "&gt;"@);
    replace_spec(c, "\""@, "&quot;"@)
}

fn escape_chars(v: &Vec<char>) -> (r: Vec<char>)
    ensures
        r@ == html_escape_spec(v@),
{
    proof {
        reveal_strlit("&");
        reveal_strlit("<");
        reveal_strlit(">");
        reveal_strlit("\"");
    }
    let a = replace_all(v, &chars_of("&"), &chars_of("&amp;"));
    let b = replace_all(&a, &chars_of("<"), &chars_of("&lt;"));
    let c = replace_all(&b, &chars_of(">"), &chars_of("&gt;"));
    replace_all(&c, &chars_of("\""), &chars_of("&quot;"))
}

/// Escapes text for HTML.
pub fn escape_html(input: &str) -> (r: String)
    ensures
        r@ == html_escape_spec(input@),
{
    string_from_chars(&escape_chars(&chars_of(input)))
}

/// Whether a plot's markup is a whole HTML document (an interactive 3D view)
/// rather than an inline SVG.
pub open spec fn is_html_document_spec(svg: Seq<char>) -> bool {
    has_prefix(trim_start_spec(svg), "<!DOCTYPE"@) || has_prefix(trim_start_spec(svg), "<html"@)
}

/// Tells a whole HTML document from inline SVG, ignoring leading white space.
pub fn is_html_document(svg: &str) -> (r: bool)
    ensures
        r == is_html_document_spec(svg@),
{
    let v = chars_of(svg);
    let t = crate::text::trim_start_chars(&v);
    starts_with(&t, &chars_of("<!DOCTYPE")) || starts_with(&t, &chars_of("<html"))
}

/// The daemon's output line for a plot: a whole HTML document travels base64
/// encoded in a `data:text/html` URL, an SVG inline in a `data:image/svg+xml` one.
pub open spec fn plot_output_spec(svg: Seq<char>) -> Seq<char> {
    if is_html_document_spec(svg) {
        "[PLOT_HTML:data:text/html;charset=utf-8;base64,"@ + base64_spec(encode_utf8(svg)) + "]"@
    } else {
        "[PLOT_IMAGE:data:image/svg+xml;utf8,"@ + svg + "]"@
    }
}

/// Renders a plot for the editor daemon.
pub fn plot_output(svg: &str) -> (r: String)
    ensures
        r@ == plot_output_spec(svg@),
{
    let mut out: Vec<char> = Vec::new();
    if is_html_document(svg) {
        extend_str(&mut out, "[PLOT_HTML:data:text/html;charset=utf-8;base64,");
        let b = base64_encode(svg);
        extend_str(&mut out, b.as_str());
    } else {
        extend_str(&mut out, "[PLOT_IMAGE:data:image/svg+xml;utf8,");
        extend_str(&mut out, svg);
    }
    extend_str(&mut out, "]");
    string_from_chars(&out)
}

/// The abstract block under the title.
pub open spec fn abstract_spec(title: Seq<char>, text: Seq<char>) -> Seq<char> {
    "<div class=\"latex-abstract\">\n                <div class=\"abstract-title\">"@ + title + "</div>\n                <p>"@ + html_escape_spec(text) + "</p>\n            </div>"@
}

/// Renders the abstract block: its heading, and the abstract text escaped.
pub fn abstract_html(title: &str, text: &str) -> (r: String)
    ensures
        r@ == abstract_spec(title@, text@),
{
    let mut out: Vec<char> = Vec::new();
    extend_str(&mut out, "<div class=\"latex-abstract\">\n                <div class=\"abstract-title\">");
    extend_str(&mut out, title);
    extend_str(&mut out, "</div>\n                <p>");
    let e = escape_html(text);
    extend_str(&mut out, e.as_str());
    extend_str(&mut out, "</p>\n            </div>");
    string_from_chars(&out)
}

/// One block of the report's body.
#[derive(Debug, Clone)]
pub enum ReportItem {
    /// A display-text line of the script.
    Prose(String),
    /// A plot, with its title and its SVG or HTML markup.
    Plot { title: String, markup: String },
    /// An evaluated step, as LaTeX math.
    Equation(String),
}

/// Whether an item is numbered as a figure.
pub open spec fn is_figure(it: ReportItem) -> bool {
    it is Plot
}

/// Whether an item is numbered as an equation.
pub open spec fn is_equation(it: ReportItem) -> bool {
    it is Equation
}

/// How many figures a list of items holds.
pub open spec fn figure_count(items: Seq<ReportItem>) -> nat
    decreases items.len(),
{
    if items.len() == 0 {
        0
    } else {
        figure_count(items.drop_last()) + if is_figure(items.last()) { 1nat } else { 0nat }
    }
}

/// How many equations a list of items holds.
pub open spec fn equation_count(items: Seq<ReportItem>) -> nat
    decreases items.len(),
{
    if items.len() == 0 {
        0
    } else {
        equation_count(items.drop_last()) + if is_equation(items.last()) { 1nat } else { 0nat }
    }
}

/// A caption's tail: the figure's prefix and number, then its escaped title.
pub open spec fn caption_spec(prefix: Seq<char>, n: nat, title: Seq<char>) -> Seq<char> {
    prefix + " "@ + decimal_spec(n) + ".</strong> "@ + html_escape_spec(title) + ".\n                            </figcaption>\n                        </figure>"@
}

/// The markup of one block: prose escaped with its line breaks as `<br/>`; a plot
/// as a numbered figure (an HTML document embedded base64 in an iframe, an SVG
/// inline); an equation as numbered display math.
pub open spec fn block_spec(it: ReportItem, prefix: Seq<char>, fig: nat, eq: nat) -> Seq<char> {
    match it {
        ReportItem::Prose(t) => "<div class=\"latex-prose\">\n                        <p>"@ + replace_spec(html_escape_spec(t@), "\n"@, "<br/>"@)
            + "</p>\n                    </div>"@,
        ReportItem::Plot { title, markup } => if is_html_document_spec(markup@) {
            "<figure class=\"latex-figure native-3d-figure\">\n                            <div class=\"fig-frame-3d\">\n                                <iframe src=\"data:text/html;charset=utf-8;base64,"@ + base64_spec(encode_utf8(markup@)) + "\" style=\"width: 100%; height: 100%; border: none;\" sandbox=\"allow-scripts allow-same-origin\"></iframe>\n                            </div>\n                            <figcaption class=\"fig-caption\">\n                                <strong>"@ + caption_spec(
                prefix,
                fig,
                title@,
            )
        } else {
            "<figure class=\"latex-figure\">\n                            <div class=\"fig-frame\">\n                                "@ + markup@ + "\n                            </div>\n                            <figcaption class=\"fig-caption\">\n                                <strong>"@ + caption_spec(prefix, fig, title@)
        },
        ReportItem::Equation(m) => "<div class=\"latex-eq-container\">\n                        <div class=\"latex-eq-main\">\\[ "@ + m@ + " \\]</div>\n                        <div class=\"latex-eq-num\">("@ + decimal_spec(eq) + ")</div>\n                    </div>"@,
    }
}

/// The report's body: the blocks one after another, figures and equations each
/// numbered from 1 in order of appearance.
pub open spec fn body_spec(items: Seq<ReportItem>, prefix: Seq<char>) -> Seq<char>
    decreases items.len(),
{
    if items.len() == 0 {
        Seq::empty()
    } else {
        let before = items.drop_last();
        body_spec(before, prefix) + block_spec(
            items.last(),
            prefix,
            figure_count(before) + 1,
            equation_count(before) + 1,
        )
    }
}

fn push_caption(out: &mut Vec<char>, prefix: &str, n: u64, title: &String)
    ensures
        final(out)@ == old(out)@ + caption_spec(prefix@, n as nat, title@),
{
    extend_str(out, prefix);
    extend_str(out, " ");
    extend_chars(out, &decimal_chars(n));
    extend_str(out, ".</strong> ");
    extend_chars(out, &escape_chars(&chars_of(title.as_str())));
    extend_str(out, ".\n                            </figcaption>\n                        </figure>");
}

/// Renders the report's body from its blocks, numbering the figures (with the
/// language's figure prefix) and the equations.
pub fn report_body_html(items: &Vec<ReportItem>, fig_prefix: &str) -> (r: String)
    ensures
        r@ == body_spec(items@, fig_prefix@),
{
    proof {
        reveal_strlit("\n");
    }
    let mut out: Vec<char> = Vec::new();
    let mut figs: u64 = 0;
    let mut eqs: u64 = 0;
    let mut i: usize = 0;
    while i < items.len()
        invariant
            i <= items.len(),
            figs as nat == figure_count(items@.subrange(0, i as int)),
            eqs as nat == equation_count(items@.subrange(0, i as int)),
            figs <= i,
            eqs <= i,
            out@ == body_spec(items@.subrange(0, i as int), fig_prefix@),
        decreases items.len() - i,
    {
        let ghost pre = items@.subrange(0, i as int);
        let ghost next = items@.subrange(0, i + 1);
        assert(next.drop_last() =~= pre);
        assert(next.last() == items@[i as int]);
        match &items[i] {
            ReportItem::Prose(t) => {
                proof {
                    reveal_strlit("\n");
                }
                extend_str(&mut out, "<div class=\"latex-prose\">\n                        <p>");
                let e = escape_chars(&chars_of(t.as_str()));
                let br = replace_all(&e, &chars_of("\n"), &chars_of("<br/>"));
                extend_chars(&mut out, &br);
                extend_str(&mut out, "</p>\n                    </div>");
            },
            ReportItem::Plot { title, markup } => {
                if is_html_document(markup.as_str()) {
                    extend_str(&mut out, "<figure class=\"latex-figure native-3d-figure\">\n                            <div class=\"fig-frame-3d\">\n                                <iframe src=\"data:text/html;charset=utf-8;base64,");
                    let b = base64_encode(markup.as_str());
                    extend_str(&mut out, b.as_str());
                    extend_str(&mut out, "\" style=\"width: 100%; height: 100%; border: none;\" sandbox=\"allow-scripts allow-same-origin\"></iframe>\n                            </div>\n                            <figcaption class=\"fig-caption\">\n                                <strong>");
                } else {
                    extend_str(&mut out, "<figure class=\"latex-figure\">\n                            <div class=\"fig-frame\">\n                                ");
                    extend_str(&mut out, markup.as_str());
                    extend_str(&mut out, "\n                            </div>\n                            <figcaption class=\"fig-caption\">\n                                <strong>");
                }
                push_caption(&mut out, fig_prefix, figs + 1, title);
                figs = figs + 1;
            },
            ReportItem::Equation(m) => {
                extend_str(&mut out, "<div class=\"latex-eq-container\">\n                        <div class=\"latex-eq-main\">\\[ ");
                extend_str(&mut out, m.as_str());
                extend_str(&mut out, " \\]</div>\n                        <div class=\"latex-eq-num\">(");
                extend_chars(&mut out, &decimal_chars(eqs + 1));
                extend_str(&mut out, ")</div>\n                    </div>");
                eqs = eqs + 1;
            },
        }
        i = i + 1;
    }
    assert(items@.subrange(0, items.len() as int) =~= items@);
    string_from_chars(&out)
}

/// One block of the live paper (`phs --web`).
#[derive(Debug, Clone)]
pub enum LiveItem {
    /// A display-text line of the script.
    Prose(String),
    /// A plot, shown inline, with its title.
    Plot { title: String, markup: String },
    /// A comparison, already written as LaTeX.
    Comparison(String),
    /// A step's expression and its value, both LaTeX.
    Equation { expr: String, value: String },
}

/// How many figures the live items hold.
pub open spec fn live_figures(items: Seq<LiveItem>) -> nat
    decreases items.len(),
{
    if items.len() == 0 {
        0
    } else {
        live_figures(items.drop_last()) + if items.last() is Plot { 1nat } else { 0nat }
    }
}

/// How many numbered equations the live items hold.
pub open spec fn live_equations(items: Seq<LiveItem>) -> nat
    decreases items.len(),
{
    if items.len() == 0 {
        0
    } else {
        live_equations(items.drop_last()) + if items.last() is Comparison || items.last() is Equation {
            1nat
        } else {
            0nat
        }
    }
}

/// The markup of one live block; equations show the expression and the value
/// side by side.
pub open spec fn live_block_spec(it: LiveItem, prefix: Seq<char>, fig: nat, eq: nat) -> Seq<char> {
    match it {
        LiveItem::Prose(t) => "<div class=\"latex-prose\">\n                        <p>"@ + replace_spec(html_escape_spec(t@), "\n"@, "<br/>"@) + "</p>\n                    </div>"@,
        LiveItem::Plot { title, markup } => "<figure class=\"latex-figure\">\n                        <div class=\"fig-frame\">\n                            "@ + markup@ + "\n                        </div>\n                        <figcaption class=\"fig-caption\">\n                            <strong>"@ + prefix + " "@ + decimal_spec(fig)
            + ".</strong> "@ + html_escape_spec(title@) + ".\n                        </figcaption>\n                    </figure>"@,
        LiveItem::Comparison(m) => "<div class=\"latex-eq-container\">\n                            <div class=\"latex-eq-main\">\\[ "@ + m@ + " \\]</div>\n                            <div class=\"latex-eq-num\">("@ + decimal_spec(eq) + ")</div>\n                        </div>"@,
        LiveItem::Equation { expr, value } => "<div class=\"latex-eq-container\">\n                            <div class=\"latex-eq-main\">\\[ "@ + expr@ + " \\quad "@ + value@ + " \\]</div>\n                            <div class=\"latex-eq-num\">("@ + decimal_spec(eq)
            + ")</div>\n                        </div>"@,
    }
}

/// The live paper's body: its blocks in order, figures and equations numbered
/// from 1.
pub open spec fn live_body_spec(items: Seq<LiveItem>, prefix: Seq<char>) -> Seq<char>
    decreases items.len(),
{
    if items.len() == 0 {
        Seq::empty()
    } else {
        let before = items.drop_last();
        live_body_spec(before, prefix) + live_block_spec(
            items.last(),
            prefix,
            live_figures(before) + 1,
            live_equations(before) + 1,
        )
    }
}

/// Renders the live paper's body.
pub fn live_body_html(items: &Vec<LiveItem>, fig_prefix: &str) -> (r: String)
    ensures
        r@ == live_body_spec(items@, fig_prefix@),
{
    let mut out: Vec<char> = Vec::new();
    let mut figs: u64 = 0;
    let mut eqs: u64 = 0;
    let mut i: usize = 0;
    while i < items.len()
        invariant
            i <= items.len(),
            figs as nat == live_figures(items@.subrange(0, i as int)),
            eqs as nat == live_equations(items@.subrange(0, i as int)),
            figs <= i,
            eqs <= i,
            out@ == live_body_spec(items@.subrange(0, i as int), fig_prefix@),
        decreases items.len() - i,
    {
        let ghost pre = items@.subrange(0, i as int);
        let ghost next = items@.subrange(0, i + 1);
        assert(next.drop_last() =~= pre);
        assert(next.last() == items@[i as int]);
        match &items[i] {
            LiveItem::Prose(t) => {
                proof {
                    reveal_strlit("\n");
                }
                extend_str(&mut out, "<div class=\"latex-prose\">\n                        <p>");
                let e = escape_chars(&chars_of(t.as_str()));
                let br = replace_all(&e, &chars_of("\n"), &chars_of("<br/>"));
                extend_chars(&mut out, &br);
                extend_str(&mut out, "</p>\n                    </div>");
            },
            LiveItem::Plot { title, markup } => {
                extend_str(&mut out, "<figure class=\"latex-figure\">\n                        <div class=\"fig-frame\">\n                            ");
                extend_str(&mut out, markup.as_str());
                extend_str(&mut out, "\n                        </div>\n                        <figcaption class=\"fig-caption\">\n                            <strong>");
                extend_str(&mut out, fig_prefix);
                extend_str(&mut out, " ");
                extend_chars(&mut out, &decimal_chars(figs + 1));
                extend_str(&mut out, ".</strong> ");
                extend_chars(&mut out, &escape_chars(&chars_of(title.as_str())));
                extend_str(&mut out, ".\n                        </figcaption>\n                    </figure>");
                figs = figs + 1;
            },
            LiveItem::Comparison(m) => {
                extend_str(&mut out, "<div class=\"latex-eq-container\">\n                            <div class=\"latex-eq-main\">\\[ ");
                extend_str(&mut out, m.as_str());
                extend_str(&mut out, " \\]</div>\n                            <div class=\"latex-eq-num\">(");
                extend_chars(&mut out, &decimal_chars(eqs + 1));
                extend_str(&mut out, ")</div>\n                        </div>");
                eqs = eqs + 1;
            },
            LiveItem::Equation { expr, value } => {
                extend_str(&mut out, "<div class=\"latex-eq-container\">\n                            <div class=\"latex-eq-main\">\\[ ");
                extend_str(&mut out, expr.as_str());
                extend_str(&mut out, " \\quad ");
                extend_str(&mut out, value.as_str());
                extend_str(&mut out, " \\]</div>\n                            <div class=\"latex-eq-num\">(");
                extend_chars(&mut out, &decimal_chars(eqs + 1));
                extend_str(&mut out, ")</div>\n                        </div>");
                eqs = eqs + 1;
            },
        }
        i = i + 1;
    }
    assert(items@.subrange(0, items.len() as int) =~= items@);
    string_from_chars(&out)
}


/// Escaped text holds no `<`, `>` or `"`: it cannot open a tag or end an
/// attribute.
pub proof fn lemma_escaped_has_no_markup(s: Seq<char>)
    ensures
        !html_escape_spec(s).contains('<'),
        !html_escape_spec(s).contains('>'),
        !html_escape_spec(s).contains('"'),
{
    reveal_strlit("&");
    reveal_strlit("&amp;");
    reveal_strlit("<");
    reveal_strlit("&lt;");
    reveal_strlit(">");
    reveal_strlit("&gt;");
    reveal_strlit("\"");
    reveal_strlit("&quot;");
    let a = replace_spec(s, "&"@, "&amp;"@);
    let b = replace_spec(a, "<"@, "&lt;"@);
    let c = replace_spec(b, ">"@, "&gt;"@);
    assert("<"@ =~= seq!['<']);
    assert(">"@ =~= seq!['>']);
    assert("\""@ =~= seq!['"']);
    assert(!"&lt;"@.contains('<') && !"&gt;"@.contains('<') && !"&quot;"@.contains('<'));
    assert(!"&gt;"@.contains('>') && !"&quot;"@.contains('>'));
    assert(!"&quot;"@.contains('"'));
    lemma_replace_absent(a, "<"@, "&lt;"@, '<');
    lemma_replace_absent(b, ">"@, "&gt;"@, '<');
    lemma_replace_absent(c, "\""@, "&quot;"@, '<');
    lemma_replace_absent(b, ">"@, "&gt;"@, '>');
    lemma_replace_absent(c, "\""@, "&quot;"@, '>');
    lemma_replace_absent(c, "\""@, "&quot;"@, '"');
}

} // verus!
