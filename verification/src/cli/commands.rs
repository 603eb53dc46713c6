//! What a `phs` command line asks for: the subcommand, the transpiler's target
//! and files, flag values, and what a REPL line means.

use vstd::prelude::*;
use crate::text::{
    chars_eq_str, chars_of, ends_with, extend_str, has_prefix, has_suffix, string_from_chars,
    trim_str, trim_spec, trim_start_matches, trim_start_matches_spec,
};
use crate::words::{find_name, index_of_name, string_views};

verus! {

// ---------------------------------------------------------------------------
// Flags
// ---------------------------------------------------------------------------

/// The argument after the first occurrence of `flag`, when there is one.
pub open spec fn flag_value_spec(args: Seq<String>, flag: Seq<char>) -> Option<Seq<char>> {
    match index_of_name(string_views(args), flag) {
        Some(p) => if p + 1 < args.len() {
            Some(args[p + 1]@)
        } else {
            None
        },
        None => None,
    }
}

/// The view of an optional string.
pub open spec fn opt_view(o: Option<String>) -> Option<Seq<char>> {
    match o {
        Some(s) => Some(s@),
        None => None,
    }
}

/// The value given to a flag: the argument after its first occurrence.
pub fn get_flag_value(args: &Vec<String>, flag: &str) -> (r: Option<String>)
    ensures
        opt_view(r) == flag_value_spec(args@, flag@),
{
    let key = chars_of(flag);
    match find_name(args, &key) {
        Some(p) => {
            if p < args.len() - 1 {
                Some(string_from_chars(&chars_of(args[p + 1].as_str())))
            } else {
                None
            }
        },
        None => None,
    }
}

/// Whether some argument is `a`.
pub open spec fn has_arg(args: Seq<String>, a: Seq<char>) -> bool {
    exists|i: int| 0 <= i < args.len() && #[trigger] args[i]@ == a
}

/// Whether some argument is `a`.
pub fn any_arg(args: &Vec<String>, a: &str) -> (r: bool)
    ensures
        r == has_arg(args@, a@),
{
    let mut i: usize = 0;
    while i < args.len()
        invariant
            i <= args.len(),
            forall|k: int| 0 <= k < i ==> args@[k]@ != a@,
        decreases args.len() - i,
    {
        if chars_eq_str(&chars_of(args[i].as_str()), a) {
            return true;
        }
        i = i + 1;
    }
    false
}

// ---------------------------------------------------------------------------
// Transpiling
// ---------------------------------------------------------------------------

/// The language a script is transpiled to.
#[derive(Debug, Clone)]
pub enum TranspileTarget {
    Rust,
    Python,
    Java,
    /// Java with the class named after the output file.
    JavaWithClass(String),
    JavaScript,
    TypeScript,
}

/// The file name of a path without its extension (`Path::file_stem`), as text;
/// `None` where there is no file name or it is not UTF-8.
pub uninterp spec fn file_stem_spec(path: Seq<char>) -> Option<Seq<char>>;

/// `Path::new(path).file_stem()` as a `String`.
#[verifier::external_body]
fn file_stem(path: &str) -> (r: Option<String>)
    ensures
        opt_view(r) == file_stem_spec(path@),
{
    std::path::Path::new(path).file_stem().and_then(|s| s.to_str()).map(|s| s.to_string())
}

/// Whether the command line asks for transpiling: the `transpile` subcommand, or
/// a `--target`/`-t` flag anywhere. An output flag alone asks for nothing: other
/// front ends (the HTML report) take `-o` for their own file.
pub open spec fn transpile_requested_spec(args: Seq<String>) -> bool {
    (args.len() > 1 && args[1]@ == "transpile"@) || has_arg(args, "--target"@) || has_arg(
        args,
        "-t"@,
    )
}

/// Whether an argument is one of the transpiler's words (the subcommand or a flag
/// that takes a value).
pub open spec fn transpile_word(a: Seq<char>) -> bool {
    a == "transpile"@ || a == "--target"@ || a == "-t"@ || a == "--output"@ || a == "-o"@
}

/// Whether an argument is a transpiler flag that takes a value.
pub open spec fn takes_value(a: Seq<char>) -> bool {
    a == "--target"@ || a == "-t"@ || a == "--output"@ || a == "-o"@
}

/// Argument `i` is the script: not a transpiler word, and not the value of a
/// flag.
pub open spec fn is_script_arg(args: Seq<String>, i: int) -> bool {
    !transpile_word(args[i]@) && !takes_value(args[i - 1]@)
}

/// The script to transpile: the first argument after the program's name that
/// [`is_script_arg`].
pub open spec fn script_arg_spec(args: Seq<String>, r: Option<Seq<char>>) -> bool {
    match r {
        Some(s) => exists|i: int|
            1 <= i < args.len() && #[trigger] is_script_arg(args, i) && s == args[i]@ && forall|
                j: int,
            | 1 <= j < i ==> !is_script_arg(args, j),
        None => forall|j: int| 1 <= j < args.len() ==> !#[trigger] is_script_arg(args, j),
    }
}

fn is_word(a: &str) -> (r: bool)
    ensures
        r == transpile_word(a@),
{
    let v = chars_of(a);
    chars_eq_str(&v, "transpile") || chars_eq_str(&v, "--target") || chars_eq_str(&v, "-t")
        || chars_eq_str(&v, "--output") || chars_eq_str(&v, "-o")
}

fn is_value_flag(a: &str) -> (r: bool)
    ensures
        r == takes_value(a@),
{
    let v = chars_of(a);
    chars_eq_str(&v, "--target") || chars_eq_str(&v, "-t") || chars_eq_str(&v, "--output")
        || chars_eq_str(&v, "-o")
}

/// Whether the command line asks for transpiling.
pub fn transpile_requested(args: &Vec<String>) -> (r: bool)
    ensures
        r == transpile_requested_spec(args@),
{
    let sub = args.len() > 1 && chars_eq_str(&chars_of(args[1].as_str()), "transpile");
    sub || any_arg(args, "--target") || any_arg(args, "-t")
}

/// Finds the script to transpile.
pub fn transpile_script(args: &Vec<String>) -> (r: Option<String>)
    ensures
        script_arg_spec(args@, opt_view(r)),
{
    let mut i: usize = 1;
    while i < args.len()
        invariant
            1 <= i,
            forall|j: int| 1 <= j < i && j < args@.len() ==> !#[trigger] is_script_arg(args@, j),
        decreases args.len() - i,
    {
        if !is_word(args[i].as_str()) && !is_value_flag(args[i - 1].as_str()) {
            let s = string_from_chars(&chars_of(args[i].as_str()));
            assert(is_script_arg(args@, i as int));
            return Some(s);
        }
        i = i + 1;
    }
    None
}

/// The target the flags choose. A `--target`/`-t` value names the language
/// (`python`/`py`, `java`, `js`/`javascript`, `ts`/`typescript`; anything else is
/// Rust), Java taking its class name from the output file's stem (`Main` without
/// one); without it, the output file's extension decides, and Rust is the default.
pub open spec fn target_spec(
    target: Option<Seq<char>>,
    output: Option<Seq<char>>,
    r: TranspileTarget,
) -> bool {
    let class = |o: Seq<char>|
        match file_stem_spec(o) {
            Some(s) => s,
            None => "Main"@,
        };
    match target {
        Some(t) => if t == "python"@ || t == "py"@ {
            r is Python
        } else if t == "java"@ {
            match output {
                Some(o) => r matches TranspileTarget::JavaWithClass(c) && c@ == class(o),
                None => r is Java,
            }
        } else if t == "js"@ || t == "javascript"@ {
            r is JavaScript
        } else if t == "ts"@ || t == "typescript"@ {
            r is TypeScript
        } else {
            r is Rust
        },
        None => match output {
            Some(o) => if has_suffix(o, ".py"@) {
                r is Python
            } else if has_suffix(o, ".java"@) {
                r matches TranspileTarget::JavaWithClass(c) && c@ == class(o)
            } else if has_suffix(o, ".ts"@) {
                r is TypeScript
            } else if has_suffix(o, ".js"@) {
                r is JavaScript
            } else {
                r is Rust
            },
            None => r is Rust,
        },
    }
}

fn java_class(output: &str) -> (r: String)
    ensures
        r@ == (match file_stem_spec(output@) {
            Some(s) => s,
            None => "Main"@,
        }),
{
    match file_stem(output) {
        Some(s) => s,
        None => String::from_str("Main"),
    }
}

/// Chooses the target language from the `--target` and `--output` values.
pub fn select_target(target: Option<&str>, output: Option<&str>) -> (r: TranspileTarget)
    ensures
        target_spec(
            match target {
                Some(t) => Some(t@),
                None => None,
            },
            match output {
                Some(o) => Some(o@),
                None => None,
            },
            r,
        ),
{
    match target {
        Some(t) => {
            let v = chars_of(t);
            if chars_eq_str(&v, "python") || chars_eq_str(&v, "py") {
                TranspileTarget::Python
            } else if chars_eq_str(&v, "java") {
                match output {
                    Some(o) => TranspileTarget::JavaWithClass(java_class(o)),
                    None => TranspileTarget::Java,
                }
            } else if chars_eq_str(&v, "js") || chars_eq_str(&v, "javascript") {
                TranspileTarget::JavaScript
            } else if chars_eq_str(&v, "ts") || chars_eq_str(&v, "typescript") {
                TranspileTarget::TypeScript
            } else {
                TranspileTarget::Rust
            }
        },
        None => match output {
            Some(o) => {
                let v = chars_of(o);
                if ends_with(&v, &chars_of(".py")) {
                    TranspileTarget::Python
                } else if ends_with(&v, &chars_of(".java")) {
                    TranspileTarget::JavaWithClass(java_class(o))
                } else if ends_with(&v, &chars_of(".ts")) {
                    TranspileTarget::TypeScript
                } else if ends_with(&v, &chars_of(".js")) {
                    TranspileTarget::JavaScript
                } else {
                    TranspileTarget::Rust
                }
            },
            None => TranspileTarget::Rust,
        },
    }
}

/// The file extension of a target's output.
pub open spec fn extension_spec(t: TranspileTarget) -> Seq<char> {
    match t {
        TranspileTarget::Python => "py"@,
        TranspileTarget::Java => "java"@,
        TranspileTarget::JavaWithClass(_) => "java"@,
        TranspileTarget::Rust => "rs"@,
        TranspileTarget::JavaScript => "js"@,
        TranspileTarget::TypeScript => "ts"@,
    }
}

/// The language's name, as the success message gives it.
pub open spec fn target_name_spec(t: TranspileTarget) -> Seq<char> {
    match t {
        TranspileTarget::Python => "Python"@,
        TranspileTarget::Java => "Java"@,
        TranspileTarget::JavaWithClass(_) => "Java"@,
        TranspileTarget::Rust => "Rust"@,
        TranspileTarget::JavaScript => "JavaScript"@,
        TranspileTarget::TypeScript => "TypeScript"@,
    }
}

/// The file extension of a target's output.
pub fn target_extension(t: &TranspileTarget) -> (r: &'static str)
    ensures
        r@ == extension_spec(*t),
{
    match t {
        TranspileTarget::Python => "py",
        TranspileTarget::Java => "java",
        TranspileTarget::JavaWithClass(_) => "java",
        TranspileTarget::Rust => "rs",
        TranspileTarget::JavaScript => "js",
        TranspileTarget::TypeScript => "ts",
    }
}

/// The language's name.
pub fn target_name(t: &TranspileTarget) -> (r: &'static str)
    ensures
        r@ == target_name_spec(*t),
{
    match t {
        TranspileTarget::Python => "Python",
        TranspileTarget::Java => "Java",
        TranspileTarget::JavaWithClass(_) => "Java",
        TranspileTarget::Rust => "Rust",
        TranspileTarget::JavaScript => "JavaScript",
        TranspileTarget::TypeScript => "TypeScript",
    }
}

/// Where the transpiled code goes without `--output`: the script's stem (or
/// `output`) with the target's extension.
pub open spec fn default_output_spec(script: Seq<char>, t: TranspileTarget) -> Seq<char> {
    let stem = match file_stem_spec(script) {
        Some(s) => s,
        None => "output"@,
    };
    stem + "."@ + extension_spec(t)
}

/// The output file named after the script.
pub fn default_output_path(script: &str, t: &TranspileTarget) -> (r: String)
    ensures
        r@ == default_output_spec(script@, *t),
{
    let stem = match file_stem(script) {
        Some(s) => s,
        None => String::from_str("output"),
    };
    let mut out: Vec<char> = Vec::new();
    extend_str(&mut out, stem.as_str());
    extend_str(&mut out, ".");
    extend_str(&mut out, target_extension(t));
    string_from_chars(&out)
}

/// A transpile run: the script, the target, and the output file.
#[derive(Debug, Clone)]
pub struct TranspilePlan {
    pub script: String,
    pub target: TranspileTarget,
    pub output: String,
}

/// What `phs transpile` decides before touching any file.
#[derive(Debug, Clone)]
pub enum TranspileDecision {
    /// The command line does not ask for transpiling.
    NotRequested,
    /// It does, but names no script.
    MissingScript,
    Run(TranspilePlan),
}

/// The value of the first of two flags that is given.
pub open spec fn either_flag(args: Seq<String>, a: Seq<char>, b: Seq<char>) -> Option<Seq<char>> {
    match flag_value_spec(args, a) {
        Some(v) => Some(v),
        None => flag_value_spec(args, b),
    }
}

/// The whole transpile decision: whether it is asked for, the script, the target
/// from `--target`/`-t` and `--output`/`-o`, and the output file (the `--output`
/// value, else one named after the script).
pub open spec fn transpile_spec(args: Seq<String>, d: TranspileDecision) -> bool {
    if !transpile_requested_spec(args) {
        d is NotRequested
    } else {
        let out = either_flag(args, "--output"@, "-o"@);
        match d {
            TranspileDecision::NotRequested => false,
            TranspileDecision::MissingScript => script_arg_spec(args, None),
            TranspileDecision::Run(p) => {
                &&& script_arg_spec(args, Some(p.script@))
                &&& target_spec(either_flag(args, "--target"@, "-t"@), out, p.target)
                &&& p.output@ == (match out {
                    Some(o) => o,
                    None => default_output_spec(p.script@, p.target),
                })
            },
        }
    }
}

fn either_value(args: &Vec<String>, a: &str, b: &str) -> (r: Option<String>)
    ensures
        opt_view(r) == either_flag(args@, a@, b@),
{
    match get_flag_value(args, a) {
        Some(v) => Some(v),
        None => get_flag_value(args, b),
    }
}

/// Decides what `phs transpile` (or a run with transpile flags) does.
pub fn plan_transpile(args: &Vec<String>) -> (r: TranspileDecision)
    ensures
        transpile_spec(args@, r),
{
    if !transpile_requested(args) {
        return TranspileDecision::NotRequested;
    }
    let script = match transpile_script(args) {
        Some(s) => s,
        None => {
            return TranspileDecision::MissingScript;
        },
    };
    let tv = either_value(args, "--target", "-t");
    let ov = either_value(args, "--output", "-o");
    let target = select_target(
        match &tv {
            Some(t) => Some(t.as_str()),
            None => None,
        },
        match &ov {
            Some(o) => Some(o.as_str()),
            None => None,
        },
    );
    let output = match ov {
        Some(o) => o,
        None => default_output_path(script.as_str(), &target),
    };
    TranspileDecision::Run(TranspilePlan { script, target, output })
}

/// The success line of a transpile run.
pub fn transpile_done_message(p: &TranspilePlan) -> (r: String)
    ensures
        r@ == "✓ Transpiled '"@ + p.script@ + "' -> '"@ + p.output@ + "' ("@ + target_name_spec(
            p.target,
        ) + " target)"@,
{
    let mut out: Vec<char> = Vec::new();
    extend_str(&mut out, "✓ Transpiled '");
    extend_str(&mut out, p.script.as_str());
    extend_str(&mut out, "' -> '");
    extend_str(&mut out, p.output.as_str());
    extend_str(&mut out, "' (");
    extend_str(&mut out, target_name(&p.target));
    extend_str(&mut out, " target)");
    string_from_chars(&out)
}

// ---------------------------------------------------------------------------
// The subcommand
// ---------------------------------------------------------------------------

/// What `phs` was asked to do.
#[derive(Debug, Clone)]
pub enum MainCommand {
    Daemon,
    Help,
    /// Print the language reference, or save it with `--save`/`-s`.
    Doc { save: bool },
    Repl,
    RegisterProtocol,
    NewPlugin,
    Export,
    Transpile,
    /// Run a script (a path or inline code), with the chosen front end, and the
    /// file the HTML report goes to when `--output`/`-o` names one.
    Run { input: String, tui: bool, web: bool, view: bool, output: Option<String> },
}

/// A script argument with any `phs://` scheme (and the slashes after it) removed.
pub open spec fn strip_scheme_spec(a: Seq<char>) -> Seq<char> {
    if has_prefix(a, "phs://"@) {
        trim_start_matches_spec(trim_start_matches_spec(a, "phs://"@), "/"@)
    } else {
        a
    }
}

/// The order in which `phs` looks at its arguments.
pub open spec fn main_spec(args: Seq<String>, c: MainCommand) -> bool {
    if has_arg(args, "--daemon"@) || has_arg(args, "-d"@) || has_arg(args, "daemon"@) {
        c is Daemon
    } else if args.len() < 2 || has_arg(args, "--help"@) || has_arg(args, "-h"@) || has_arg(
        args,
        "help"@,
    ) {
        c is Help
    } else if has_arg(args, "--doc"@) || has_arg(args, "doc"@) || has_arg(args, "docs"@) || has_arg(
        args,
        "--docs"@,
    ) {
        c matches MainCommand::Doc { save } && save == (has_arg(args, "--save"@) || has_arg(
            args,
            "-s"@,
        ))
    } else if has_arg(args, "--repl"@) || has_arg(args, "-r"@) || has_arg(args, "repl"@) {
        c is Repl
    } else if args[1]@ == "register-protocol"@ {
        c is RegisterProtocol
    } else if args[1]@ == "new-plugin"@ {
        c is NewPlugin
    } else if args[1]@ == "export"@ {
        c is Export
    } else if transpile_requested_spec(args) {
        c is Transpile
    } else {
        c matches MainCommand::Run { input, tui, web, view, output } && input@ == strip_scheme_spec(
            args[1]@,
        ) && tui == has_arg(args, "--tui"@) && web == has_arg(args, "--web"@) && view == (
        has_arg(args, "--view"@) || has_arg(args, "--html"@)) && opt_view(output) == either_flag(
            args,
            "--output"@,
            "-o"@,
        )
    }
}

/// Removes a `phs://` scheme from a script argument.
pub fn strip_scheme(a: &str) -> (r: String)
    ensures
        r@ == strip_scheme_spec(a@),
{
    proof {
        reveal_strlit("phs://");
        reveal_strlit("/");
    }
    let v = chars_of(a);
    let scheme = chars_of("phs://");
    if crate::text::starts_with(&v, &scheme) {
        let t = trim_start_matches(&v, &scheme);
        let u = trim_start_matches(&t, &chars_of("/"));
        string_from_chars(&u)
    } else {
        string_from_chars(&v)
    }
}

/// Decides what `phs` does with its arguments.
pub fn plan_main(args: &Vec<String>) -> (r: MainCommand)
    ensures
        main_spec(args@, r),
{
    if any_arg(args, "--daemon") || any_arg(args, "-d") || any_arg(args, "daemon") {
        return MainCommand::Daemon;
    }
    if args.len() < 2 || any_arg(args, "--help") || any_arg(args, "-h") || any_arg(args, "help") {
        return MainCommand::Help;
    }
    if any_arg(args, "--doc") || any_arg(args, "doc") || any_arg(args, "docs") || any_arg(
        args,
        "--docs",
    ) {
        return MainCommand::Doc { save: any_arg(args, "--save") || any_arg(args, "-s") };
    }
    if any_arg(args, "--repl") || any_arg(args, "-r") || any_arg(args, "repl") {
        return MainCommand::Repl;
    }
    let first = chars_of(args[1].as_str());
    if chars_eq_str(&first, "register-protocol") {
        return MainCommand::RegisterProtocol;
    }
    if chars_eq_str(&first, "new-plugin") {
        return MainCommand::NewPlugin;
    }
    if chars_eq_str(&first, "export") {
        return MainCommand::Export;
    }
    if transpile_requested(args) {
        return MainCommand::Transpile;
    }
    MainCommand::Run {
        input: strip_scheme(args[1].as_str()),
        tui: any_arg(args, "--tui"),
        web: any_arg(args, "--web"),
        view: any_arg(args, "--view") || any_arg(args, "--html"),
        output: either_value(args, "--output", "-o"),
    }
}

/// Where a run's code comes from: the file's contents when it could be read; a
/// missing `.phs` file is an error; any other argument is the code itself.
pub open spec fn source_spec(
    input: Seq<char>,
    file: Option<Seq<char>>,
    r: Result<Seq<char>, Seq<char>>,
) -> bool {
    match file {
        Some(c) => r == Ok::<Seq<char>, Seq<char>>(c),
        None => if has_suffix(input, ".phs"@) {
            r == Err::<Seq<char>, Seq<char>>("error: file not found '"@ + input + "'"@)
        } else {
            r == Ok::<Seq<char>, Seq<char>>(input)
        },
    }
}

/// Chooses a run's code from the argument and what reading it as a file gave.
pub fn script_source(input: &str, file: Option<String>) -> (r: Result<String, String>)
    ensures
        source_spec(
            input@,
            opt_view(file),
            match r {
                Ok(s) => Ok(s@),
                Err(e) => Err(e@),
            },
        ),
{
    match file {
        Some(c) => Ok(c),
        None => {
            if ends_with(&chars_of(input), &chars_of(".phs")) {
                let mut out: Vec<char> = Vec::new();
                extend_str(&mut out, "error: file not found '");
                extend_str(&mut out, input);
                extend_str(&mut out, "'");
                Err(string_from_chars(&out))
            } else {
                Ok(string_from_chars(&chars_of(input)))
            }
        },
    }
}

// ---------------------------------------------------------------------------
// The REPL
// ---------------------------------------------------------------------------

/// What one line typed at the REPL asks for.
#[derive(Debug, Clone)]
pub enum ReplAction {
    /// A blank line: prompt again.
    Skip,
    /// `exit` or `quit`.
    Quit,
    /// `help`.
    Help,
    /// Anything else, trimmed, to evaluate.
    Eval(String),
}

/// What a REPL line means, once trimmed.
pub open spec fn repl_spec(line: Seq<char>, r: ReplAction) -> bool {
    let t = trim_spec(line);
    if t.len() == 0 {
        r is Skip
    } else if t == "exit"@ || t == "quit"@ {
        r is Quit
    } else if t == "help"@ {
        r is Help
    } else {
        r matches ReplAction::Eval(s) && s@ == t
    }
}

/// Reads one REPL line.
pub fn repl_action(line: &str) -> (r: ReplAction)
    ensures
        repl_spec(line@, r),
{
    let t = trim_str(line);
    if t.len() == 0 {
        ReplAction::Skip
    } else if chars_eq_str(&t, "exit") || chars_eq_str(&t, "quit") {
        ReplAction::Quit
    } else if chars_eq_str(&t, "help") {
        ReplAction::Help
    } else {
        ReplAction::Eval(string_from_chars(&t))
    }
}

} // verus!
