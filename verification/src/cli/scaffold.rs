//! `phs new-plugin <name> [--lang rust|python|both] [--dir <path>]`: which files
//! a new plugin gets, from which template, and how the templates are filled in.

use vstd::prelude::*;
use crate::text::{
    chars_eq_str, chars_of, extend_str, has_prefix, replace_all, replace_spec, starts_with,
    string_from_chars,
};
use crate::cli::commands::{flag_value_spec, get_flag_value, opt_view};

verus! {

/// The kinds of plugin `new-plugin` writes.
#[derive(Debug, Clone, Copy, PartialEq, Eq, Structural)]
pub enum PluginLang {
    Rust,
    Python,
    Both,
}

/// The language a `--lang` value names: `rust`, `python` or `py`, `both`.
pub open spec fn plugin_lang_spec(s: Seq<char>) -> Option<PluginLang> {
    if s == "rust"@ {
        Some(PluginLang::Rust)
    } else if s == "python"@ || s == "py"@ {
        Some(PluginLang::Python)
    } else if s == "both"@ {
        Some(PluginLang::Both)
    } else {
        None
    }
}

/// Reads a `--lang` value.
pub fn parse_plugin_lang(s: &str) -> (r: Option<PluginLang>)
    ensures
        r == plugin_lang_spec(s@),
{
    let v = chars_of(s);
    if chars_eq_str(&v, "rust") {
        Some(PluginLang::Rust)
    } else if chars_eq_str(&v, "python") || chars_eq_str(&v, "py") {
        Some(PluginLang::Python)
    } else if chars_eq_str(&v, "both") {
        Some(PluginLang::Both)
    } else {
        None
    }
}

/// The templates a plugin's files are made from.
#[derive(Debug, Clone, Copy, PartialEq, Eq, Structural)]
pub enum PluginTemplate {
    RustPlugin,
    BuildSh,
    BuildPs1,
    BuildCmd,
    PyExt,
    DriverRust,
    DriverPy,
    DriverBoth,
}

/// A file to write: its path below the plugin directory (one name per
/// component), its template, and whether it is made executable.
#[derive(Debug, Clone)]
pub struct PluginFile {
    pub path: Vec<String>,
    pub template: PluginTemplate,
    pub executable: bool,
}

/// The view of a file to write.
pub open spec fn file_view(f: PluginFile) -> (Seq<Seq<char>>, PluginTemplate, bool) {
    (f.path@.map_values(|s: String| s@), f.template, f.executable)
}

/// The files of the native plugin: its source, and its build scripts (the shell
/// one executable).
pub open spec fn rust_files(name: Seq<char>) -> Seq<(Seq<Seq<char>>, PluginTemplate, bool)> {
    seq![
        (seq!["ext"@, name + ".rs"@], PluginTemplate::RustPlugin, false),
        (seq!["build_plugin.sh"@], PluginTemplate::BuildSh, true),
        (seq!["build_plugin.ps1"@], PluginTemplate::BuildPs1, false),
        (seq!["build_plugin.cmd"@], PluginTemplate::BuildCmd, false),
    ]
}

/// The file of the Python extension.
pub open spec fn python_file(name: Seq<char>) -> (Seq<Seq<char>>, PluginTemplate, bool) {
    (seq!["ext"@, name + ".py"@], PluginTemplate::PyExt, false)
}

/// The driver script, from the template for the kind of plugin.
pub open spec fn driver_file(t: PluginTemplate) -> (Seq<Seq<char>>, PluginTemplate, bool) {
    (seq!["driver.py"@], t, false)
}

/// Every file of a new plugin, in the order they are written.
pub open spec fn plugin_files_spec(lang: PluginLang, name: Seq<char>) -> Seq<
    (Seq<Seq<char>>, PluginTemplate, bool),
> {
    match lang {
        PluginLang::Rust => rust_files(name).push(driver_file(PluginTemplate::DriverRust)),
        PluginLang::Python => seq![python_file(name), driver_file(PluginTemplate::DriverPy)],
        PluginLang::Both => rust_files(name).push(python_file(name)).push(
            driver_file(PluginTemplate::DriverBoth),
        ),
    }
}

fn string_of(s: &str) -> (r: String)
    ensures
        r@ == s@,
{
    string_from_chars(&chars_of(s))
}

fn name_with(name: &str, ext: &str) -> (r: String)
    ensures
        r@ == name@ + ext@,
{
    let mut v: Vec<char> = Vec::new();
    extend_str(&mut v, name);
    extend_str(&mut v, ext);
    string_from_chars(&v)
}

fn one(a: &str, t: PluginTemplate, x: bool) -> (r: PluginFile)
    ensures
        file_view(r) == (seq![a@], t, x),
{
    let mut p: Vec<String> = Vec::new();
    p.push(string_of(a));
    let r = PluginFile { path: p, template: t, executable: x };
    assert(r.path@.map_values(|s: String| s@) =~= seq![a@]);
    r
}

fn in_ext(name: &str, ext: &str, t: PluginTemplate) -> (r: PluginFile)
    ensures
        file_view(r) == (seq!["ext"@, name@ + ext@], t, false),
{
    let mut p: Vec<String> = Vec::new();
    p.push(string_of("ext"));
    p.push(name_with(name, ext));
    let r = PluginFile { path: p, template: t, executable: false };
    assert(r.path@.map_values(|s: String| s@) =~= seq!["ext"@, name@ + ext@]);
    r
}

/// The files a new plugin gets.
pub fn plugin_files(lang: PluginLang, name: &str) -> (r: Vec<PluginFile>)
    ensures
        r@.map_values(|f: PluginFile| file_view(f)) == plugin_files_spec(lang, name@),
{
    let mut out: Vec<PluginFile> = Vec::new();
    if let PluginLang::Python = lang {
    } else {
        out.push(in_ext(name, ".rs", PluginTemplate::RustPlugin));
        out.push(one("build_plugin.sh", PluginTemplate::BuildSh, true));
        out.push(one("build_plugin.ps1", PluginTemplate::BuildPs1, false));
        out.push(one("build_plugin.cmd", PluginTemplate::BuildCmd, false));
    }
    if let PluginLang::Rust = lang {
    } else {
        out.push(in_ext(name, ".py", PluginTemplate::PyExt));
    }
    let driver = match lang {
        PluginLang::Rust => PluginTemplate::DriverRust,
        PluginLang::Python => PluginTemplate::DriverPy,
        PluginLang::Both => PluginTemplate::DriverBoth,
    };
    out.push(one("driver.py", driver, false));
    assert(out@.map_values(|f: PluginFile| file_view(f)) =~= plugin_files_spec(lang, name@));
    out
}

/// Fills a template in: every `__NAME__` becomes the plugin's name.
pub fn render_template(template: &str, name: &str) -> (r: String)
    ensures
        r@ == replace_spec(template@, "__NAME__"@, name@),
{
    proof {
        reveal_strlit("__NAME__");
    }
    let t = chars_of(template);
    string_from_chars(&replace_all(&t, &chars_of("__NAME__"), &chars_of(name)))
}

/// A `new-plugin` command line.
#[derive(Debug, Clone)]
pub struct PluginRequest {
    pub name: String,
    pub lang: PluginLang,
    pub dir: String,
}

/// Why a `new-plugin` command line is refused.
#[derive(Debug, Clone)]
pub enum PluginRequestError {
    /// The third argument is missing or a flag.
    Usage,
    /// The `--lang` value names no kind of plugin; carries it.
    UnknownLang(String),
}

/// What `phs new-plugin` asks for: the name is the third argument unless it is
/// missing or starts with `-`; `--lang` defaults to `rust`, `--dir` to `.`.
pub open spec fn plugin_request_spec(
    args: Seq<String>,
    r: Result<PluginRequest, PluginRequestError>,
) -> bool {
    if args.len() < 3 || has_prefix(args[2]@, "-"@) {
        r matches Err(PluginRequestError::Usage)
    } else {
        let lang = match flag_value_spec(args, "--lang"@) {
            Some(l) => l,
            None => "rust"@,
        };
        let dir = match flag_value_spec(args, "--dir"@) {
            Some(d) => d,
            None => "."@,
        };
        match plugin_lang_spec(lang) {
            Some(l) => r matches Ok(q) && q.name@ == args[2]@ && q.lang == l && q.dir@ == dir,
            None => r matches Err(PluginRequestError::UnknownLang(s)) && s@ == lang,
        }
    }
}

/// Reads a `new-plugin` command line.
pub fn plugin_request(args: &Vec<String>) -> (r: Result<PluginRequest, PluginRequestError>)
    ensures
        plugin_request_spec(args@, r),
{
    proof {
        reveal_strlit("-");
    }
    if args.len() < 3 || starts_with(&chars_of(args[2].as_str()), &chars_of("-")) {
        return Err(PluginRequestError::Usage);
    }
    let lang = match get_flag_value(args, "--lang") {
        Some(l) => l,
        None => string_of("rust"),
    };
    let dir = match get_flag_value(args, "--dir") {
        Some(d) => d,
        None => string_of("."),
    };
    match parse_plugin_lang(lang.as_str()) {
        Some(l) => Ok(PluginRequest { name: string_of(args[2].as_str()), lang: l, dir }),
        None => Err(PluginRequestError::UnknownLang(lang)),
    }
}

/// The message for an unknown `--lang` value.
pub fn unknown_lang_message(lang: &str) -> (r: String)
    ensures
        r@ == "error: unknown --lang '"@ + lang@ + "', expected rust, python, or both"@,
{
    let mut v: Vec<char> = Vec::new();
    extend_str(&mut v, "error: unknown --lang '");
    extend_str(&mut v, lang);
    extend_str(&mut v, "', expected rust, python, or both");
    string_from_chars(&v)
}

/// The "next steps" printed after the files are written.
pub open spec fn next_steps_spec(lang: PluginLang, name: Seq<char>) -> Seq<Seq<char>> {
    match lang {
        PluginLang::Rust => seq![
            "  1. ./build_plugin.sh   (or build_plugin.ps1 / build_plugin.cmd on Windows)"@,
            "  2. phs some_script.phs   # calls "@ + name + "_double(...) / "@ + name
                + "_shout(...) directly"@,
            "  3. python driver.py     # same calls, plus a live hot-reload demo"@,
        ],
        PluginLang::Python => seq![
            "  python driver.py   # loads ext/"@ + name + ".py and calls "@ + name + "_hello(...)"@,
        ],
        PluginLang::Both => seq![
            "  1. ./build_plugin.sh   (or build_plugin.ps1 / build_plugin.cmd on Windows)"@,
            "  2. python driver.py   # runs both the native plugin and the .py ext, plus hot-reload"@,
        ],
    }
}

/// The lines to print after a plugin's files are written.
pub fn next_steps(lang: PluginLang, name: &str) -> (r: Vec<String>)
    ensures
        r@.map_values(|s: String| s@) == next_steps_spec(lang, name@),
{
    let mut out: Vec<String> = Vec::new();
    match lang {
        PluginLang::Rust => {
            out.push(string_of("  1. ./build_plugin.sh   (or build_plugin.ps1 / build_plugin.cmd on Windows)"));
            let mut v: Vec<char> = Vec::new();
            extend_str(&mut v, "  2. phs some_script.phs   # calls ");
            extend_str(&mut v, name);
            extend_str(&mut v, "_double(...) / ");
            extend_str(&mut v, name);
            extend_str(&mut v, "_shout(...) directly");
            out.push(string_from_chars(&v));
            out.push(string_of("  3. python driver.py     # same calls, plus a live hot-reload demo"));
        },
        PluginLang::Python => {
            let mut v: Vec<char> = Vec::new();
            extend_str(&mut v, "  python driver.py   # loads ext/");
            extend_str(&mut v, name);
            extend_str(&mut v, ".py and calls ");
            extend_str(&mut v, name);
            extend_str(&mut v, "_hello(...)");
            out.push(string_from_chars(&v));
        },
        PluginLang::Both => {
            out.push(string_of("  1. ./build_plugin.sh   (or build_plugin.ps1 / build_plugin.cmd on Windows)"));
            out.push(string_of("  2. python driver.py   # runs both the native plugin and the .py ext, plus hot-reload"));
        },
    }
    assert(out@.map_values(|s: String| s@) =~= next_steps_spec(lang, name@));
    out
}

} // verus!
