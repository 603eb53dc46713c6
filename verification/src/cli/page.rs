//! The page shells of the HTML report (`--view`) and of the live paper
//! (`--web`): the fixed text of each document, with the page's language, its
//! escaped title block, the KaTeX build, the rendered body and the escaped
//! source put in their places.

use vstd::prelude::*;
use crate::cli::html::{escape_html, html_escape_spec};
use crate::text::{extend_str, string_from_chars};

verus! {

/// The text of the standalone report before the lang.
pub const REPORT_BEFORE_LANG: &'static str = r#"<!DOCTYPE html>
<html lang=""#;

/// The text of the standalone report before the title.
pub const REPORT_BEFORE_TITLE: &'static str = r#"">
<head>
    <meta charset="UTF-8">
    <meta name="viewport" content="width=device-width, initial-scale=1.0">
    <title>"#;

/// The text of the standalone report before the katex css.
pub const REPORT_BEFORE_KATEX_CSS: &'static str = r#" &mdash; Manuscrito Científico Physure</title>
    <style>
        "#;

/// The text of the standalone report before the katex js.
pub const REPORT_BEFORE_KATEX_JS: &'static str = r#"

        @page {
            size: A4;
            margin: 25mm 20mm;
        }

        body {
            font-family: 'Crimson Pro', Georgia, 'Times New Roman', 'Liberation Serif', serif;
            font-size: 12pt;
            color: #0f172a;
            background-color: #f8fafc;
            line-height: 1.7;
            margin: 0;
            padding: 32px 20px;
        }

        .paper-manuscript {
            max-width: 1100px;
            margin: 0 auto;
            background: #ffffff;
            padding: 48px 56px;
            border-radius: 12px;
            border: 1px solid #e2e8f0;
            box-shadow: 0 10px 40px -10px rgba(15, 23, 42, 0.08);
        }

        .paper-header {
            text-align: center;
            border-top: 1.5pt solid #000000;
            border-bottom: 1.5pt solid #000000;
            padding: 22px 0 18px 0;
            margin-bottom: 36px;
        }

        .paper-institution {
            font-family: system-ui, -apple-system, sans-serif;
            font-size: 0.78rem;
            text-transform: uppercase;
            letter-spacing: 1.6px;
            color: #444444;
            margin-bottom: 10px;
        }

        .paper-title {
            font-size: 2.2rem;
            font-weight: 700;
            margin: 0 0 12px 0;
            line-height: 1.25;
            color: #000000;
            word-break: break-all;
            overflow-wrap: break-word;
        }

        .paper-author-meta {
            font-style: italic;
            font-size: 0.98rem;
            color: #333333;
        }

        .latex-abstract {
            width: 88%;
            margin: 0 auto 38px auto;
            font-size: 0.98rem;
            font-style: italic;
            line-height: 1.65;
            text-align: justify;
            border-left: 2.5pt solid #000000;
            padding-left: 18px;
        }

        .abstract-title {
            font-family: system-ui, sans-serif;
            font-size: 0.8rem;
            font-weight: bold;
            text-transform: uppercase;
            letter-spacing: 1.3px;
            margin-bottom: 6px;
            font-style: normal;
            color: #000000;
        }

        h2.paper-sec-title {
            font-size: 1.3rem;
            font-weight: 700;
            border-bottom: 0.75pt solid #000000;
            padding-bottom: 4px;
            margin-top: 42px;
            margin-bottom: 18px;
            color: #000000;
        }

        .latex-eq-container {
            display: flex;
            justify-content: space-between;
            align-items: center;
            margin: 18px 0;
            padding: 4px 0;
        }

        .latex-eq-main {
            flex-grow: 1;
            text-align: center;
            overflow-x: auto;
            font-family: 'Crimson Pro', Georgia, serif;
            font-size: 1.15rem;
        }

        .latex-eq-num {
            font-family: 'Crimson Pro', serif;
            font-size: 1.05rem;
            color: #222222;
            padding-left: 16px;
            user-select: none;
        }

        .latex-prose {
            font-size: 1.08rem;
            line-height: 1.72;
            margin: 22px 0;
            text-align: justify;
        }

        .latex-figure {
            margin: 32px 0;
            text-align: center;
        }

        .fig-frame {
            border: 0.75pt solid #cccccc;
            padding: 14px;
            background: #ffffff;
            display: inline-block;
            max-width: 100%;
            border-radius: 2px;
        }

        .fig-frame-3d {
            width: 100%;
            height: 600px;
            padding: 0;
            display: block;
            border: 1px solid #cbd5e1;
            background: #0f172a;
            border-radius: 10px;
            overflow: hidden;
            box-shadow: 0 8px 30px rgba(0,0,0,0.18);
        }

        @media (max-width: 768px) {
            body { padding: 12px 8px; }
            .paper-manuscript { padding: 24px 18px; border-radius: 8px; }
            .fig-frame-3d { height: 420px; }
        }

        .fig-caption {
            font-size: 0.9rem;
            color: #333333;
            margin-top: 10px;
            font-style: italic;
        }

        .source-code-box {
            background: #f8f9fa;
            border: 1px solid #e9ecef;
            border-radius: 3px;
            padding: 18px;
            font-family: 'Fira Code', 'Cascadia Code', Consolas, monospace;
            font-size: 0.86rem;
            white-space: pre-wrap;
            overflow-x: auto;
            color: #212529;
            margin-bottom: 40px;
        }

        @media print {
            body { padding: 0; background: #ffffff; }
            .paper-manuscript { max-width: 100%; padding: 0; border: none; box-shadow: none; }
        }
    </style>
    <script>
        "#;

/// The text of the standalone report before the auto render.
pub const REPORT_BEFORE_AUTO_RENDER: &'static str = r#"
    </script>
    <script>
        "#;

/// The text of the standalone report before the institution.
pub const REPORT_BEFORE_INSTITUTION: &'static str = r#"
    </script>
    <script>
        document.addEventListener("DOMContentLoaded", function() {
            if (typeof renderMathInElement === 'function') {
                renderMathInElement(document.body, {
                    delimiters: [
                        {left: '\\[', right: '\\]', display: true},
                        {left: '\\(', right: '\\)', display: false}
                    ],
                    throwOnError: false
                });
            }
        });
    </script>
</head>
<body>
    <article class="paper-manuscript">
        <header class="paper-header">
            <div class="paper-institution">"#;

/// The text of the standalone report before the heading.
pub const REPORT_BEFORE_HEADING: &'static str = r#"</div>
            <h1 class="paper-title">"#;

/// The text of the standalone report before the author.
pub const REPORT_BEFORE_AUTHOR: &'static str = r#"</h1>
            <div class="paper-author-meta">"#;

/// The text of the standalone report before the date.
pub const REPORT_BEFORE_DATE: &'static str = r#" &bull; "#;

/// The text of the standalone report before the footer.
pub const REPORT_BEFORE_FOOTER: &'static str = r#" &bull; "#;

/// The text of the standalone report before the abstract.
pub const REPORT_BEFORE_ABSTRACT: &'static str = r#"</div>
        </header>

        "#;

/// The text of the standalone report before the evaluations.
pub const REPORT_BEFORE_EVALUATIONS: &'static str = r#"

        <h2 class="paper-sec-title">"#;

/// The text of the standalone report before the content.
pub const REPORT_BEFORE_CONTENT: &'static str = r#"</h2>
        "#;

/// The text of the standalone report before the appendix.
pub const REPORT_BEFORE_APPENDIX: &'static str = r#"

        <h2 class="paper-sec-title">"#;

/// The text of the standalone report before the code.
pub const REPORT_BEFORE_CODE: &'static str = r#"</h2>
        <pre class="source-code-box">"#;

/// The text of the standalone report after the source.
pub const REPORT_TAIL: &'static str = r#"</pre>
    </article>
</body>
</html>
    "#;

/// The text of the live paper before the lang.
pub const LIVE_BEFORE_LANG: &'static str = r#"<!DOCTYPE html>
<html lang=""#;

/// The text of the live paper before the title.
pub const LIVE_BEFORE_TITLE: &'static str = r#"">
<head>
    <meta charset="UTF-8">
    <meta name="viewport" content="width=device-width, initial-scale=1.0">
    <title>"#;

/// The text of the live paper before the katex css.
pub const LIVE_BEFORE_KATEX_CSS: &'static str = r#" &mdash; Manuscrito Científico Physure</title>
    <style>
        "#;

/// The text of the live paper before the katex js.
pub const LIVE_BEFORE_KATEX_JS: &'static str = r#"

        @page {
            size: A4;
            margin: 25mm 20mm;
        }

        body {
            font-family: 'Crimson Pro', Georgia, 'Times New Roman', 'Liberation Serif', serif;
            font-size: 11.5pt;
            color: #111111;
            background-color: #ffffff;
            line-height: 1.65;
            margin: 0;
            padding: 40px 20px;
        }

        .paper-manuscript {
            max-width: 820px;
            margin: 0 auto;
            background: #ffffff;
            padding: 0;
        }

        .paper-header {
            text-align: center;
            border-top: 1.5pt solid #000000;
            border-bottom: 1.5pt solid #000000;
            padding: 22px 0 18px 0;
            margin-bottom: 36px;
        }

        .paper-institution {
            font-family: system-ui, -apple-system, sans-serif;
            font-size: 0.78rem;
            text-transform: uppercase;
            letter-spacing: 1.6px;
            color: #444444;
            margin-bottom: 10px;
        }

        .paper-title {
            font-size: 2.2rem;
            font-weight: 700;
            margin: 0 0 12px 0;
            line-height: 1.25;
            color: #000000;
        }

        .paper-author-meta {
            font-style: italic;
            font-size: 0.98rem;
            color: #333333;
        }

        .latex-abstract {
            width: 88%;
            margin: 0 auto 38px auto;
            font-size: 0.98rem;
            font-style: italic;
            line-height: 1.65;
            text-align: justify;
            border-left: 2.5pt solid #000000;
            padding-left: 18px;
        }

        .abstract-title {
            font-family: system-ui, sans-serif;
            font-size: 0.8rem;
            font-weight: bold;
            text-transform: uppercase;
            letter-spacing: 1.3px;
            margin-bottom: 6px;
            font-style: normal;
            color: #000000;
        }

        h2.paper-sec-title {
            font-size: 1.3rem;
            font-weight: 700;
            border-bottom: 0.75pt solid #000000;
            padding-bottom: 4px;
            margin-top: 42px;
            margin-bottom: 18px;
            color: #000000;
        }

        .latex-eq-container {
            display: flex;
            justify-content: space-between;
            align-items: center;
            margin: 18px 0;
            padding: 4px 0;
        }

        .latex-eq-main {
            flex-grow: 1;
            text-align: center;
            overflow-x: auto;
            font-family: 'Crimson Pro', Georgia, serif;
            font-size: 1.15rem;
        }

        .latex-eq-num {
            font-family: 'Crimson Pro', serif;
            font-size: 1.05rem;
            color: #222222;
            padding-left: 16px;
            user-select: none;
        }

        .latex-prose {
            font-size: 1.08rem;
            line-height: 1.72;
            margin: 22px 0;
            text-align: justify;
        }

        .latex-figure {
            margin: 32px 0;
            text-align: center;
        }

        .fig-frame {
            border: 0.75pt solid #cccccc;
            padding: 14px;
            background: #ffffff;
            display: inline-block;
            max-width: 100%;
            border-radius: 2px;
        }

        .fig-caption {
            font-size: 0.9rem;
            color: #333333;
            margin-top: 10px;
            font-style: italic;
        }

        .source-code-box {
            background: #f8f9fa;
            border: 1px solid #e9ecef;
            border-radius: 3px;
            padding: 18px;
            font-family: 'Fira Code', 'Cascadia Code', Consolas, monospace;
            font-size: 0.86rem;
            white-space: pre-wrap;
            overflow-x: auto;
            color: #212529;
            margin-bottom: 40px;
        }

        @media print {
            body {
                padding: 0;
            }
        }
    </style>
    <script>
        "#;

/// The text of the live paper before the auto render.
pub const LIVE_BEFORE_AUTO_RENDER: &'static str = r#"
    </script>
    <script>
        "#;

/// The text of the live paper before the institution.
pub const LIVE_BEFORE_INSTITUTION: &'static str = r#"
    </script>
    <script>
        document.addEventListener("DOMContentLoaded", function() {
            if (typeof renderMathInElement === 'function') {
                renderMathInElement(document.body, {
                    delimiters: [
                        {left: '\\[', right: '\\]', display: true},
                        {left: '\\(', right: '\\)', display: false}
                    ],
                    throwOnError: false
                });
            }
        });
    </script>
</head>
<body>
    <article class="paper-manuscript">
        <header class="paper-header">
            <div class="paper-institution">"#;

/// The text of the live paper before the heading.
pub const LIVE_BEFORE_HEADING: &'static str = r#"</div>
            <h1 class="paper-title">"#;

/// The text of the live paper before the author.
pub const LIVE_BEFORE_AUTHOR: &'static str = r#"</h1>
            <div class="paper-author-meta">"#;

/// The text of the live paper before the date.
pub const LIVE_BEFORE_DATE: &'static str = r#" &bull; "#;

/// The text of the live paper before the footer.
pub const LIVE_BEFORE_FOOTER: &'static str = r#" &bull; "#;

/// The text of the live paper before the abstract.
pub const LIVE_BEFORE_ABSTRACT: &'static str = r#"</div>
        </header>

        "#;

/// The text of the live paper before the evaluations.
pub const LIVE_BEFORE_EVALUATIONS: &'static str = r#"

        <h2 class="paper-sec-title">"#;

/// The text of the live paper before the content.
pub const LIVE_BEFORE_CONTENT: &'static str = r#"</h2>
        "#;

/// The text of the live paper before the appendix.
pub const LIVE_BEFORE_APPENDIX: &'static str = r#"

        <h2 class="paper-sec-title">"#;

/// The text of the live paper before the code.
pub const LIVE_BEFORE_CODE: &'static str = r#"</h2>
        <pre class="source-code-box">"#;

/// The text of the live paper after the source.
pub const LIVE_TAIL: &'static str = r#"</pre>
    </article>
</body>
</html>
    "#;

/// What a page shell holds besides its fixed text. The title block and the
/// source are raw text; the abstract and the content are rendered HTML.
#[derive(Debug, Clone)]
pub struct PageParts {
    pub html_lang: String,
    pub title: String,
    pub institution: String,
    pub author: String,
    pub date: String,
    pub footer_engine: String,
    pub abstract_html: String,
    pub sec_evaluations: String,
    pub content_html: String,
    pub sec_appendix: String,
    pub code: String,
}

/// The KaTeX build a page inlines: its style sheet, its script and the
/// auto-render script.
#[derive(Debug, Clone)]
pub struct KatexAssets {
    pub css: String,
    pub js: String,
    pub auto_render: String,
}

/// The fixed text of a shell around its fifteen fields, in order: the page's
/// language, the escaped title, the KaTeX style sheet, script and auto-render
/// script, the escaped institution, title, author and date, the engine's footer
/// label, the abstract, the evaluations heading, the content, the appendix
/// heading, and the escaped source.
pub open spec fn shell_spec(c: Seq<Seq<char>>, p: PageParts, k: KatexAssets) -> Seq<char> {
    c[0] + p.html_lang@ + c[1] + html_escape_spec(p.title@) + c[2] + k.css@ + c[3] + k.js@ + c[4]
        + k.auto_render@ + c[5] + html_escape_spec(p.institution@) + c[6] + html_escape_spec(
        p.title@,
    ) + c[7] + html_escape_spec(p.author@) + c[8] + html_escape_spec(p.date@) + c[9]
        + p.footer_engine@ + c[10] + p.abstract_html@ + c[11] + p.sec_evaluations@ + c[12]
        + p.content_html@ + c[13] + p.sec_appendix@ + c[14] + html_escape_spec(p.code@) + c[15]
}

/// The fixed text of the standalone report.
pub open spec fn report_chunks() -> Seq<Seq<char>> {
    seq![
        REPORT_BEFORE_LANG@,
        REPORT_BEFORE_TITLE@,
        REPORT_BEFORE_KATEX_CSS@,
        REPORT_BEFORE_KATEX_JS@,
        REPORT_BEFORE_AUTO_RENDER@,
        REPORT_BEFORE_INSTITUTION@,
        REPORT_BEFORE_HEADING@,
        REPORT_BEFORE_AUTHOR@,
        REPORT_BEFORE_DATE@,
        REPORT_BEFORE_FOOTER@,
        REPORT_BEFORE_ABSTRACT@,
        REPORT_BEFORE_EVALUATIONS@,
        REPORT_BEFORE_CONTENT@,
        REPORT_BEFORE_APPENDIX@,
        REPORT_BEFORE_CODE@,
        REPORT_TAIL@,
    ]
}

/// The fixed text of the live paper.
pub open spec fn live_chunks() -> Seq<Seq<char>> {
    seq![
        LIVE_BEFORE_LANG@,
        LIVE_BEFORE_TITLE@,
        LIVE_BEFORE_KATEX_CSS@,
        LIVE_BEFORE_KATEX_JS@,
        LIVE_BEFORE_AUTO_RENDER@,
        LIVE_BEFORE_INSTITUTION@,
        LIVE_BEFORE_HEADING@,
        LIVE_BEFORE_AUTHOR@,
        LIVE_BEFORE_DATE@,
        LIVE_BEFORE_FOOTER@,
        LIVE_BEFORE_ABSTRACT@,
        LIVE_BEFORE_EVALUATIONS@,
        LIVE_BEFORE_CONTENT@,
        LIVE_BEFORE_APPENDIX@,
        LIVE_BEFORE_CODE@,
        LIVE_TAIL@,
    ]
}

/// Fills a shell's fields in.
fn fill_shell(c: &Vec<&str>, p: &PageParts, k: &KatexAssets) -> (r: String)
    requires
        c@.len() == 16,
    ensures
        r@ == shell_spec(c@.map_values(|s: &str| s@), *p, *k),
{
    let ghost cs = c@.map_values(|s: &str| s@);
    let mut out: Vec<char> = Vec::new();
    extend_str(&mut out, c[0]);
    extend_str(&mut out, p.html_lang.as_str());
    extend_str(&mut out, c[1]);
    let t = escape_html(p.title.as_str());
    extend_str(&mut out, t.as_str());
    extend_str(&mut out, c[2]);
    extend_str(&mut out, k.css.as_str());
    extend_str(&mut out, c[3]);
    extend_str(&mut out, k.js.as_str());
    extend_str(&mut out, c[4]);
    extend_str(&mut out, k.auto_render.as_str());
    extend_str(&mut out, c[5]);
    let inst = escape_html(p.institution.as_str());
    extend_str(&mut out, inst.as_str());
    extend_str(&mut out, c[6]);
    extend_str(&mut out, t.as_str());
    extend_str(&mut out, c[7]);
    let author = escape_html(p.author.as_str());
    extend_str(&mut out, author.as_str());
    extend_str(&mut out, c[8]);
    let date = escape_html(p.date.as_str());
    extend_str(&mut out, date.as_str());
    extend_str(&mut out, c[9]);
    extend_str(&mut out, p.footer_engine.as_str());
    extend_str(&mut out, c[10]);
    extend_str(&mut out, p.abstract_html.as_str());
    extend_str(&mut out, c[11]);
    extend_str(&mut out, p.sec_evaluations.as_str());
    extend_str(&mut out, c[12]);
    extend_str(&mut out, p.content_html.as_str());
    extend_str(&mut out, c[13]);
    extend_str(&mut out, p.sec_appendix.as_str());
    extend_str(&mut out, c[14]);
    let code = escape_html(p.code.as_str());
    extend_str(&mut out, code.as_str());
    extend_str(&mut out, c[15]);
    assert(out@ =~= shell_spec(cs, *p, *k));
    string_from_chars(&out)
}

/// The standalone HTML report: an HTML5 document in the page's language, with
/// the title block and the source escaped.
pub fn report_page(p: &PageParts, k: &KatexAssets) -> (r: String)
    ensures
        r@ == shell_spec(report_chunks(), *p, *k),
{
    let c: Vec<&str> = vec![
        REPORT_BEFORE_LANG,
        REPORT_BEFORE_TITLE,
        REPORT_BEFORE_KATEX_CSS,
        REPORT_BEFORE_KATEX_JS,
        REPORT_BEFORE_AUTO_RENDER,
        REPORT_BEFORE_INSTITUTION,
        REPORT_BEFORE_HEADING,
        REPORT_BEFORE_AUTHOR,
        REPORT_BEFORE_DATE,
        REPORT_BEFORE_FOOTER,
        REPORT_BEFORE_ABSTRACT,
        REPORT_BEFORE_EVALUATIONS,
        REPORT_BEFORE_CONTENT,
        REPORT_BEFORE_APPENDIX,
        REPORT_BEFORE_CODE,
        REPORT_TAIL,
    ];
    assert(c@.map_values(|s: &str| s@) =~= report_chunks());
    fill_shell(&c, p, k)
}

/// The live paper served by `--web`: an HTML5 document in the page's language,
/// with the title block and the source escaped.
pub fn live_page(p: &PageParts, k: &KatexAssets) -> (r: String)
    ensures
        r@ == shell_spec(live_chunks(), *p, *k),
{
    let c: Vec<&str> = vec![
        LIVE_BEFORE_LANG,
        LIVE_BEFORE_TITLE,
        LIVE_BEFORE_KATEX_CSS,
        LIVE_BEFORE_KATEX_JS,
        LIVE_BEFORE_AUTO_RENDER,
        LIVE_BEFORE_INSTITUTION,
        LIVE_BEFORE_HEADING,
        LIVE_BEFORE_AUTHOR,
        LIVE_BEFORE_DATE,
        LIVE_BEFORE_FOOTER,
        LIVE_BEFORE_ABSTRACT,
        LIVE_BEFORE_EVALUATIONS,
        LIVE_BEFORE_CONTENT,
        LIVE_BEFORE_APPENDIX,
        LIVE_BEFORE_CODE,
        LIVE_TAIL,
    ];
    assert(c@.map_values(|s: &str| s@) =~= live_chunks());
    fill_shell(&c, p, k)
}

} // verus!
