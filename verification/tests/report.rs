use physure::cli::layout::{expr_latex, raw_text, statement_layout, LatexExpr, LatexOp, LatexStatement};
use physure::cli::page::{live_page, report_page, KatexAssets, PageParts, REPORT_BEFORE_LANG, REPORT_TAIL};
use physure::cli::rich::{parse_error_lines, ErrorLine};
use physure::cli::encode::{base64_encode, base64_encode_bytes};
use physure::cli::html::{
    abstract_html, escape_html, extract_metadata, is_html_document, live_body_html, plot_output,
    report_body_html, LiveItem, ReportItem,
};
use physure::cli::latex::{
    bool_latex, equation_latex, escape_latex_text, format_symbol_latex, number_latex, quantity_latex,
    scientific_to_latex, vector_latex,
};

#[test]
fn base64_matches_the_standard_alphabet_and_padding() {
    assert_eq!(base64_encode(""), "");
    assert_eq!(base64_encode("f"), "Zg==");
    assert_eq!(base64_encode("fo"), "Zm8=");
    assert_eq!(base64_encode("foo"), "Zm9v");
    assert_eq!(base64_encode("foobar"), "Zm9vYmFy");
    assert_eq!(base64_encode_bytes(&[0xff, 0xfe, 0x3e]), "//4+");
    assert_eq!(base64_encode("é"), "w6k=");
}

#[test]
fn base64_length_law() {
    for n in 0..10usize {
        let bytes = vec![7u8; n];
        assert_eq!(base64_encode_bytes(&bytes).len(), 4 * ((n + 2) / 3));
    }
}

#[test]
fn metadata_comments_are_read() {
    let code = "# @title: Orbit  \n  # @author: Ada\nx = 1\n# @title: Final\r\n# @abstract:   Short.\n";
    let m = extract_metadata(code);
    assert_eq!(m.title.as_deref(), Some("Final"));
    assert_eq!(m.author.as_deref(), Some("Ada"));
    assert_eq!(m.institution, None);
    assert_eq!(m.date, None);
    assert_eq!(m.abstract_text.as_deref(), Some("Short."));
}

#[test]
fn html_escaping() {
    assert_eq!(escape_html("a < b & \"c\" > d"), "a &lt; b &amp; &quot;c&quot; &gt; d");
    assert_eq!(escape_html("&lt;"), "&amp;lt;");
    let e = escape_html("<script>\"x\"</script>");
    assert!(!e.contains('<') && !e.contains('>') && !e.contains('"'));
}

#[test]
fn plots_for_the_daemon() {
    assert!(is_html_document("  <!DOCTYPE html><p>"));
    assert!(is_html_document("<html>"));
    assert!(!is_html_document("<svg/>"));
    assert_eq!(plot_output("<svg/>"), "[PLOT_IMAGE:data:image/svg+xml;utf8,<svg/>]");
    assert_eq!(plot_output("<html>"), "[PLOT_HTML:data:text/html;charset=utf-8;base64,PGh0bWw+]");
}

#[test]
fn report_blocks_are_numbered() {
    let items = vec![
        ReportItem::Prose("a<b\nc".to_string()),
        ReportItem::Equation("x = 1".to_string()),
        ReportItem::Plot { title: "T&".to_string(), markup: "<svg/>".to_string() },
        ReportItem::Equation("y = 2".to_string()),
    ];
    let html = report_body_html(&items, "Figure");
    assert!(html.starts_with("<div class=\"latex-prose\">\n                        <p>a&lt;b<br/>c</p>"));
    assert!(html.contains("<div class=\"latex-eq-main\">\\[ x = 1 \\]</div>\n                        <div class=\"latex-eq-num\">(1)</div>"));
    assert!(html.contains("<div class=\"latex-eq-main\">\\[ y = 2 \\]</div>\n                        <div class=\"latex-eq-num\">(2)</div>"));
    assert!(html.contains("<strong>Figure 1.</strong> T&amp;."));
    let html3d = report_body_html(
        &vec![ReportItem::Plot { title: "S".to_string(), markup: "<html>".to_string() }],
        "Abbildung",
    );
    assert!(html3d.contains("base64,PGh0bWw+\""));
    assert!(html3d.contains("<strong>Abbildung 1.</strong> S."));
    assert_eq!(report_body_html(&vec![], "F"), "");
}

#[test]
fn live_blocks_are_numbered() {
    let items = vec![
        LiveItem::Comparison("a = b".to_string()),
        LiveItem::Equation { expr: "v =".to_string(), value: "3".to_string() },
        LiveItem::Plot { title: "P".to_string(), markup: "<svg/>".to_string() },
    ];
    let html = live_body_html(&items, "Fig");
    assert!(html.contains("\\[ a = b \\]</div>\n                            <div class=\"latex-eq-num\">(1)</div>"));
    assert!(html.contains("\\[ v = \\quad 3 \\]</div>\n                            <div class=\"latex-eq-num\">(2)</div>"));
    assert!(html.contains("<strong>Fig 1.</strong> P."));
}

#[test]
fn abstract_block() {
    assert_eq!(
        abstract_html("Abstract", "x < y"),
        "<div class=\"latex-abstract\">\n                <div class=\"abstract-title\">Abstract</div>\n                <p>x &lt; y</p>\n            </div>"
    );
}

#[test]
fn latex_escaping_and_symbols() {
    assert_eq!(escape_latex_text("a_b^c"), "a\\_b\\textasciicircum{}c");
    assert_eq!(escape_latex_text("\\%$#&~"), "\\backslash \\%\\$\\#\\&\\textasciitilde{}");
    assert_eq!(format_symbol_latex("v_0"), "\\text{v\\_0}");
}

#[test]
fn scientific_notation() {
    assert_eq!(scientific_to_latex("1.5e-3"), "1.5 \\times 10^{-3}");
    assert_eq!(scientific_to_latex("2E+10"), "2 \\times 10^{10}");
    assert_eq!(scientific_to_latex("12.5"), "12.5");
    assert_eq!(scientific_to_latex("1e2e3"), "1e2e3");
}

#[test]
fn values_in_latex() {
    assert_eq!(quantity_latex("9.81", None, "\\mathrm{m}"), "= 9.81\\; \\mathrm{m}");
    assert_eq!(quantity_latex("1e3", Some("2e1"), ""), "= (1 \\times 10^{3} \\pm 2 \\times 10^{1})");
    assert_eq!(number_latex("4"), "= 4");
    assert_eq!(bool_latex(true), "= \\text{True}");
    assert_eq!(bool_latex(false), "= \\text{False}");
    let items: Vec<String> = ["= 1", "= 2", "3", "= 4", "= 5"].iter().map(|s| s.to_string()).collect();
    assert_eq!(vector_latex(&items), "= [1, 2, 3, \\dots, 5]");
    assert_eq!(vector_latex(&items[..2].to_vec()), "= [1, 2]");
    assert_eq!(vector_latex(&vec![]), "= []");
}

#[test]
fn equations_join_expression_and_value() {
    assert_eq!(equation_latex("\\text{x} =", "= 5"), "\\text{x} = 5");
    assert_eq!(equation_latex("a \\Rightarrow  ", "= b"), "a \\Rightarrow   b");
    assert_eq!(equation_latex("f(x)", "= 2"), "f(x) = 2");
    assert_eq!(equation_latex("", "= 2"), "= 2");
}

#[test]
fn syntax_error_lines_are_classified() {
    let raw = "Generic(\"expected expression\\n --> 3:5\\n  |\\n3 | x = \\n  = help: add a value\\n\\n\")";
    assert_eq!(
        parse_error_lines(raw),
        vec![
            ErrorLine::Message("expected expression".to_string()),
            ErrorLine::Location("--> 3:5".to_string()),
            ErrorLine::Excerpt("  |".to_string()),
            ErrorLine::Excerpt("3 | x = ".to_string()),
            ErrorLine::Note("= help: add a value".to_string()),
        ]
    );
    assert_eq!(parse_error_lines("plain␊ text\r\n"), vec![ErrorLine::Message("plain text".to_string())]);
}

fn sample_parts() -> PageParts {
    PageParts {
        html_lang: "es".to_string(),
        title: "Fuerza <F>".to_string(),
        institution: "UNI & Co".to_string(),
        author: "Ana".to_string(),
        date: "1 de mayo".to_string(),
        footer_engine: "Motor Physure Core".to_string(),
        abstract_html: "<div>abs</div>".to_string(),
        sec_evaluations: "Evaluaciones".to_string(),
        content_html: "<p>x</p>".to_string(),
        sec_appendix: "Apéndice".to_string(),
        code: "if a < b then \"x\"".to_string(),
    }
}

fn no_katex() -> KatexAssets {
    KatexAssets { css: String::new(), js: String::new(), auto_render: String::new() }
}

#[test]
fn report_page_frames_the_escaped_parts() {
    let page = report_page(&sample_parts(), &no_katex());
    assert!(page.starts_with("<!DOCTYPE html>\n<html lang=\"es\">"));
    assert!(page.starts_with(REPORT_BEFORE_LANG));
    assert!(page.ends_with(REPORT_TAIL));
    assert!(page.contains("<title>Fuerza &lt;F&gt; &mdash; Manuscrito Científico Physure</title>"));
    assert!(page.contains("<pre class=\"source-code-box\">if a &lt; b then &quot;x&quot;</pre>"));
    assert!(page.contains("UNI &amp; Co"));
    assert!(page.contains("<div>abs</div>"));
    assert!(page.contains("<p>x</p>"));
}

#[test]
fn live_page_frames_the_escaped_parts() {
    let page = live_page(&sample_parts(), &no_katex());
    assert!(page.starts_with("<!DOCTYPE html>\n<html lang=\"es\">"));
    assert!(page.contains("<pre class=\"source-code-box\">if a &lt; b then &quot;x&quot;</pre>"));
    assert!(page.contains("<p>x</p>"));
}

fn qty(m: &str, u: &str) -> LatexExpr {
    LatexExpr::Quantity { magnitude: m.to_string(), unit: u.to_string() }
}

fn ident(s: &str) -> LatexExpr {
    LatexExpr::Identifier(s.to_string())
}

#[test]
fn expressions_are_summarised_in_latex() {
    assert_eq!(expr_latex(&qty("75", "\\mathrm{kg}")), "75\\, \\mathrm{kg}");
    assert_eq!(expr_latex(&qty("2", "")), "2");
    assert_eq!(expr_latex(&ident("\"v_0\"")), "\\text{v\\_0}");
    let div = LatexExpr::Binary(LatexOp::Div, Box::new(ident("F")), Box::new(ident("A")));
    assert_eq!(expr_latex(&div), "\\frac{\\text{F}}{\\text{A}}");
    let pow = LatexExpr::Binary(LatexOp::Pow, Box::new(ident("v")), Box::new(qty("2", "")));
    assert_eq!(expr_latex(&pow), "{\\text{v}}^{2}");
    let conv = LatexExpr::Binary(LatexOp::Convert, Box::new(qty("100", "kPa")), Box::new(ident("bar")));
    assert_eq!(expr_latex(&conv), "100\\, kPa \\Rightarrow \\text{bar}");
    let call = LatexExpr::Call("sqrt".to_string(), vec![ident("x"), qty("1", "")]);
    assert_eq!(expr_latex(&call), "\\text{sqrt}(\\text{x}, 1)");
    assert_eq!(raw_text(&ident("\"t^2\"")), "t^2");
    assert_eq!(raw_text(&qty("3", "")), "3");
}

#[test]
fn statements_lead_up_to_their_values() {
    let plain = statement_layout(&LatexStatement::Assignment {
        name: "m_1".to_string(),
        value: qty("75", "kg"),
        raw_math: String::new(),
    });
    assert_eq!((plain.label.as_str(), plain.code.as_str(), plain.latex.as_str(), plain.display_text), ("m_1", "m_1 = ...", "\\text{m\\_1} =", false));
    let d = statement_layout(&LatexStatement::Assignment {
        name: "v".to_string(),
        value: LatexExpr::Call("deriv".to_string(), vec![ident("\"t^2\""), ident("\"t\"")]),
        raw_math: "{t}^{2}".to_string(),
    });
    assert_eq!(d.latex, "\\text{v} = \\frac{d}{d t}\\!\\left[{t}^{2}\\right] =");
    let i = statement_layout(&LatexStatement::Assignment {
        name: "W".to_string(),
        value: LatexExpr::Call("integral".to_string(), vec![ident("\"F\""), ident("\"x\"")]),
        raw_math: "\\text{F}".to_string(),
    });
    assert_eq!(i.latex, "\\text{W} = \\int \\text{F} \\; dx =");
    let note = statement_layout(&LatexStatement::Expr(ident("`some prose`")));
    assert!(note.display_text && note.label == "note" && note.latex.is_empty());
    let conv = statement_layout(&LatexStatement::Expr(LatexExpr::Binary(
        LatexOp::Convert,
        Box::new(qty("25", "m/s")),
        Box::new(ident("kmh")),
    )));
    assert_eq!((conv.label.as_str(), conv.latex.as_str()), ("expr", "25\\, m/s \\Rightarrow"));
    let other = statement_layout(&LatexStatement::Other);
    assert!(other.latex.is_empty() && !other.display_text && other.code == "expr");
}
