//! `phs export <script.phs> --fn <name> [--native] [-o <dir>]`: what is
//! exported, where it goes, and the files of the native build.

use vstd::prelude::*;
use crate::text::{chars_eq, chars_of, extend_str, has_prefix, starts_with, string_from_chars};
use crate::words::{find_name, index_of_name, string_views};
use crate::cli::commands::{any_arg, flag_value_spec, get_flag_value, has_arg, opt_view};

verus! {

/// An export command line.
#[derive(Debug, Clone)]
pub struct ExportRequest {
    pub script: String,
    pub function: String,
    pub native: bool,
}

/// Why an export command line is refused.
#[derive(Debug, Clone, Copy, PartialEq, Eq, Structural)]
pub enum ExportArgsError {
    /// The script argument is missing or a flag.
    Usage,
    /// No `--fn` value.
    MissingFunction,
}

/// What `phs export` asks for: the script is the third argument unless missing
/// or a flag; `--fn` names the function; `--native` asks for the native build.
pub open spec fn export_request_spec(
    args: Seq<String>,
    r: Result<ExportRequest, ExportArgsError>,
) -> bool {
    if args.len() < 3 || has_prefix(args[2]@, "-"@) {
        r == Err::<ExportRequest, ExportArgsError>(ExportArgsError::Usage)
    } else {
        match flag_value_spec(args, "--fn"@) {
            None => r == Err::<ExportRequest, ExportArgsError>(ExportArgsError::MissingFunction),
            Some(f) => r matches Ok(q) && q.script@ == args[2]@ && q.function@ == f && q.native
                == has_arg(args, "--native"@),
        }
    }
}

/// Reads an export command line.
pub fn export_request(args: &Vec<String>) -> (r: Result<ExportRequest, ExportArgsError>)
    ensures
        export_request_spec(args@, r),
{
    proof {
        reveal_strlit("-");
    }
    if args.len() < 3 || starts_with(&chars_of(args[2].as_str()), &chars_of("-")) {
        return Err(ExportArgsError::Usage);
    }
    match get_flag_value(args, "--fn") {
        None => Err(ExportArgsError::MissingFunction),
        Some(f) => Ok(
            ExportRequest {
                script: string_from_chars(&chars_of(args[2].as_str())),
                function: f,
                native: any_arg(args, "--native"),
            },
        ),
    }
}

/// The directory part of a path (`Path::parent`), written lossily as text.
pub uninterp spec fn parent_dir_spec(path: Seq<char>) -> Option<Seq<char>>;

/// `Path::new(path).parent()`, as text.
#[verifier::external_body]
fn parent_dir(path: &str) -> (r: Option<String>)
    ensures
        opt_view(r) == parent_dir_spec(path@),
{
    std::path::Path::new(path).parent().map(|p| p.to_string_lossy().to_string())
}

/// Where the exported files go: the `-o` value, else the `--output` value, else
/// the script's directory when it has a non-empty one, else `.`.
pub open spec fn output_dir_spec(args: Seq<String>, script: Seq<char>) -> Seq<char> {
    match flag_value_spec(args, "-o"@) {
        Some(d) => d,
        None => match flag_value_spec(args, "--output"@) {
            Some(d) => d,
            None => match parent_dir_spec(script) {
                Some(p) => if p.len() > 0 {
                    p
                } else {
                    "."@
                },
                None => "."@,
            },
        },
    }
}

/// Chooses the output directory of an export.
pub fn export_output_dir(args: &Vec<String>, script: &str) -> (r: String)
    ensures
        r@ == output_dir_spec(args@, script@),
{
    match get_flag_value(args, "-o") {
        Some(d) => d,
        None => match get_flag_value(args, "--output") {
            Some(d) => d,
            None => match parent_dir(script) {
                Some(p) => if p.unicode_len() > 0 {
                    p
                } else {
                    String::from_str(".")
                },
                None => String::from_str("."),
            },
        },
    }
}

/// Whether a function can be exported from a script that defines `functions`
/// (in order) and exports `exports`: it must be defined (the first definition is
/// used) and exported; otherwise the message says which of the two is missing.
pub open spec fn exportable_spec(
    functions: Seq<Seq<char>>,
    exports: Seq<Seq<char>>,
    name: Seq<char>,
    script: Seq<char>,
    r: Result<usize, Seq<char>>,
) -> bool {
    match index_of_name(functions, name) {
        None => r == Err::<usize, Seq<char>>(
            "error: no function named '"@ + name + "' in '"@ + script + "'"@,
        ),
        Some(i) => if exports.contains(name) {
            r == Ok::<usize, Seq<char>>(i as usize)
        } else {
            r == Err::<usize, Seq<char>>(
                "error: '"@ + name + "' exists but was never `export`ed; add `export "@ + name
                    + "`"@,
            )
        },
    }
}

/// Finds the function to export and checks that the script exports it.
pub fn check_exportable(
    functions: &Vec<String>,
    exports: &Vec<String>,
    name: &str,
    script: &str,
) -> (r: Result<usize, String>)
    ensures
        exportable_spec(
            string_views(functions@),
            string_views(exports@),
            name@,
            script@,
            match r {
                Ok(i) => Ok(i),
                Err(m) => Err(m@),
            },
        ),
{
    let key = chars_of(name);
    match find_name(functions, &key) {
        None => {
            let mut v: Vec<char> = Vec::new();
            extend_str(&mut v, "error: no function named '");
            extend_str(&mut v, name);
            extend_str(&mut v, "' in '");
            extend_str(&mut v, script);
            extend_str(&mut v, "'");
            Err(string_from_chars(&v))
        },
        Some(i) => {
            match find_name(exports, &key) {
                Some(j) => {
                    assert(string_views(exports@)[j as int] == name@) by {
                        lemma_index_hit(string_views(exports@), name@);
                    }
                    Ok(i)
                },
                None => {
                    proof {
                        lemma_index_miss(string_views(exports@), name@);
                    }
                    let mut v: Vec<char> = Vec::new();
                    extend_str(&mut v, "error: '");
                    extend_str(&mut v, name);
                    extend_str(&mut v, "' exists but was never `export`ed; add `export ");
                    extend_str(&mut v, name);
                    extend_str(&mut v, "`");
                    Err(string_from_chars(&v))
                },
            }
        },
    }
}

/// A found index names an equal element.
proof fn lemma_index_hit(names: Seq<Seq<char>>, k: Seq<char>)
    ensures
        index_of_name(names, k) matches Some(i) ==> 0 <= i < names.len() && names[i] == k,
    decreases names.len(),
{
    if names.len() > 0 {
        lemma_index_hit(names.drop_last(), k);
    }
}

/// No index is found only when no element is equal.
proof fn lemma_index_miss(names: Seq<Seq<char>>, k: Seq<char>)
    ensures
        index_of_name(names, k) is None ==> !names.contains(k),
    decreases names.len(),
{
    if names.len() > 0 {
        lemma_index_miss(names.drop_last(), k);
        if index_of_name(names, k) is None && names.contains(k) {
            let j = choose|j: int| 0 <= j < names.len() && names[j] == k;
            if j < names.len() - 1 {
                assert(names.drop_last()[j] == k);
            }
        }
    }
}

/// The operating system a native library is built for.
#[derive(Debug, Clone, Copy, PartialEq, Eq, Structural)]
pub enum NativeOs {
    Windows,
    MacOs,
    /// Linux and other systems with `.so` libraries.
    Unix,
}

/// The names of a native export: the crate's name, the library file cargo
/// builds, and the file it is copied to.
pub open spec fn native_names_spec(function: Seq<char>, os: NativeOs) -> (Seq<char>, Seq<char>, Seq<char>) {
    let krate = function + "_export"@;
    match os {
        NativeOs::Windows => (krate, krate + ".dll"@, function + ".dll"@),
        NativeOs::MacOs => (krate, "lib"@ + krate + ".dylib"@, function + ".dylib"@),
        NativeOs::Unix => (krate, "lib"@ + krate + ".so"@, function + ".so"@),
    }
}

/// The crate, built library and copied library names of a native export.
pub fn native_names(function: &str, os: NativeOs) -> (r: (String, String, String))
    ensures
        (r.0@, r.1@, r.2@) == native_names_spec(function@, os),
{
    let mut k: Vec<char> = Vec::new();
    extend_str(&mut k, function);
    extend_str(&mut k, "_export");
    let krate = string_from_chars(&k);
    let mut b: Vec<char> = Vec::new();
    let mut d: Vec<char> = Vec::new();
    extend_str(&mut d, function);
    match os {
        NativeOs::Windows => {
            extend_str(&mut b, krate.as_str());
            extend_str(&mut b, ".dll");
            extend_str(&mut d, ".dll");
        },
        NativeOs::MacOs => {
            extend_str(&mut b, "lib");
            extend_str(&mut b, krate.as_str());
            extend_str(&mut b, ".dylib");
            extend_str(&mut d, ".dylib");
        },
        NativeOs::Unix => {
            extend_str(&mut b, "lib");
            extend_str(&mut b, krate.as_str());
            extend_str(&mut b, ".so");
            extend_str(&mut d, ".so");
        },
    }
    (krate, string_from_chars(&b), string_from_chars(&d))
}

/// The manifest of the native export's crate: a `cdylib` named after the crate,
/// depending on the engine at `core_path`.
pub open spec fn cargo_manifest_spec(krate: Seq<char>, core_path: Seq<char>) -> Seq<char> {
    "[package]\nname = \""@ + krate + "\"\nversion = \"0.1.0\"\nedition = \"2021\"\n\n[lib]\nname = \""@
        + krate + "\"\ncrate-type = [\"cdylib\"]\n\n[dependencies]\nphysure-core = { path = '"@
        + core_path + "', package = \"physure\" }\n"@
}

/// Writes the native export crate's manifest.
pub fn cargo_manifest(krate: &str, core_path: &str) -> (r: String)
    ensures
        r@ == cargo_manifest_spec(krate@, core_path@),
{
    let mut v: Vec<char> = Vec::new();
    extend_str(&mut v, "[package]\nname = \"");
    extend_str(&mut v, krate);
    extend_str(&mut v, "\"\nversion = \"0.1.0\"\nedition = \"2021\"\n\n[lib]\nname = \"");
    extend_str(&mut v, krate);
    extend_str(&mut v, "\"\ncrate-type = [\"cdylib\"]\n\n[dependencies]\nphysure-core = { path = '");
    extend_str(&mut v, core_path);
    extend_str(&mut v, "', package = \"physure\" }\n");
    string_from_chars(&v)
}

/// The source of the native export crate: a header, then the generated shim.
pub fn native_lib_source(shim: &str) -> (r: String)
    ensures
        r@ == "// Generated by PhysureScript (PHS) Compiler\nuse physure_core::Quantity;\n\n"@ + shim@,
{
    let mut v: Vec<char> = Vec::new();
    extend_str(&mut v, "// Generated by PhysureScript (PHS) Compiler\nuse physure_core::Quantity;\n\n");
    extend_str(&mut v, shim);
    string_from_chars(&v)
}

} // verus!
