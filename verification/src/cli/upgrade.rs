//! `phs upgrade`: which release asset fits a platform, which release tags are
//! the engine's, and which commits call for a nightly rebuild.

use vstd::prelude::*;
use crate::text::{chars_eq_str, chars_of, decimal_spec, has_prefix, starts_with, string_from_chars, strip_prefix};

verus! {

/// The prebuilt-binary asset published for an `(os, arch)` pair, as
/// `std::env::consts::OS`/`ARCH` name them; none for other platforms.
pub open spec fn asset_name_spec(os: Seq<char>, arch: Seq<char>) -> Option<Seq<char>> {
    if os == "windows"@ && arch == "x86_64"@ {
        Some("phs-windows-x86_64.zip"@)
    } else if os == "linux"@ && arch == "x86_64"@ {
        Some("phs-linux-x86_64.tar.gz"@)
    } else if os == "linux"@ && arch == "aarch64"@ {
        Some("phs-linux-aarch64.tar.gz"@)
    } else if os == "macos"@ && arch == "x86_64"@ {
        Some("phs-macos-x86_64.tar.gz"@)
    } else if os == "macos"@ && arch == "aarch64"@ {
        Some("phs-macos-aarch64.tar.gz"@)
    } else {
        None
    }
}

/// The release asset for a platform.
pub fn asset_name_for(os: &str, arch: &str) -> (r: Option<&'static str>)
    ensures
        r matches Some(a) ==> asset_name_spec(os@, arch@) == Some(a@),
        r is None ==> asset_name_spec(os@, arch@) is None,
{
    let o = chars_of(os);
    let a = chars_of(arch);
    if chars_eq_str(&o, "windows") && chars_eq_str(&a, "x86_64") {
        Some("phs-windows-x86_64.zip")
    } else if chars_eq_str(&o, "linux") && chars_eq_str(&a, "x86_64") {
        Some("phs-linux-x86_64.tar.gz")
    } else if chars_eq_str(&o, "linux") && chars_eq_str(&a, "aarch64") {
        Some("phs-linux-aarch64.tar.gz")
    } else if chars_eq_str(&o, "macos") && chars_eq_str(&a, "x86_64") {
        Some("phs-macos-x86_64.tar.gz")
    } else if chars_eq_str(&o, "macos") && chars_eq_str(&a, "aarch64") {
        Some("phs-macos-aarch64.tar.gz")
    } else {
        None
    }
}

/// Whether a changed file lies in one of the four crates that compile into the
/// binaries.
pub open spec fn relevant_path(f: Seq<char>) -> bool {
    has_prefix(f, "physure-core/"@) || has_prefix(f, "physure-script/"@) || has_prefix(
        f,
        "physure-cli/"@,
    ) || has_prefix(f, "physure-lsp/"@)
}

/// Whether some changed file is relevant.
pub open spec fn relevant_change_spec(files: Seq<String>) -> bool {
    exists|i: int| 0 <= i < files.len() && #[trigger] relevant_path(files[i]@)
}

/// Whether a commit touching these files needs a rebuild.
pub fn is_relevant_change(files: &Vec<String>) -> (r: bool)
    ensures
        r == relevant_change_spec(files@),
{
    let mut i: usize = 0;
    while i < files.len()
        invariant
            i <= files.len(),
            forall|k: int| 0 <= k < i ==> !#[trigger] relevant_path(files@[k]@),
        decreases files.len() - i,
    {
        let f = chars_of(files[i].as_str());
        if starts_with(&f, &chars_of("physure-core/")) || starts_with(&f, &chars_of("physure-script/"))
            || starts_with(&f, &chars_of("physure-cli/")) || starts_with(
            &f,
            &chars_of("physure-lsp/"),
        ) {
            assert(relevant_path(files@[i as int]@));
            return true;
        }
        i = i + 1;
    }
    false
}

/// A semantic version: three numbers, and the pre-release and build texts
/// (empty when absent).
#[derive(Debug, Clone)]
pub struct SemVer {
    pub major: u64,
    pub minor: u64,
    pub patch: u64,
    pub pre: String,
    pub build: String,
}

/// What `semver::Version::parse` makes of a text: the version's numbers and its
/// pre-release and build texts, or nothing when the text is no version.
pub uninterp spec fn semver_parse(s: Seq<char>) -> Option<(u64, u64, u64, Seq<char>, Seq<char>)>;

/// `major.minor.patch` written in decimal without leading zeros.
pub open spec fn plain_version_text(major: u64, minor: u64, patch: u64) -> Seq<char> {
    decimal_spec(major as nat) + "."@ + decimal_spec(minor as nat) + "."@ + decimal_spec(
        patch as nat,
    )
}

/// Plain `X.Y.Z` text reads as those three numbers, with no pre-release or build.
pub open spec fn reads_plain_versions(s: Seq<char>, r: Option<SemVer>) -> bool {
    forall|a: u64, b: u64, c: u64|
        s == #[trigger] plain_version_text(a, b, c) ==> (r matches Some(v) && v.major == a
            && v.minor == b && v.patch == c && v.pre@.len() == 0 && v.build@.len() == 0)
}

/// The fields of a version, as `semver_parse` gives them.
pub open spec fn semver_fields(v: SemVer) -> (u64, u64, u64, Seq<char>, Seq<char>) {
    (v.major, v.minor, v.patch, v.pre@, v.build@)
}

/// `semver::Version::parse`, its result as a [`SemVer`]. Its documentation says
/// that a version is exactly three numeric components without leading zeros,
/// so plain `X.Y.Z` reads as those numbers with no pre-release or build; its
/// parser reads the major number first, so a text that does not start with an
/// ASCII digit is refused; what it does with other texts is left to
/// `semver_parse`.
#[verifier::external_body]
fn parse_semver(s: &str) -> (r: Option<SemVer>)
    ensures
        r matches Some(v) ==> semver_parse(s@) == Some(semver_fields(v)),
        r is None ==> semver_parse(s@) is None,
        reads_plain_versions(s@, r),
        r is Some ==> s@.len() > 0 && '0' <= s@[0] && s@[0] <= '9',
{
    match semver::Version::parse(s) {
        Ok(v) => Some(
            SemVer {
                major: v.major,
                minor: v.minor,
                patch: v.patch,
                pre: v.pre.as_str().to_string(),
                build: v.build.as_str().to_string(),
            },
        ),
        Err(_) => None,
    }
}

/// The version of a `core-vX.Y.Z` release tag: the text after `core-v` read as a
/// semantic version; other tag shapes have none.
pub open spec fn core_tag_spec(tag: Seq<char>, r: Option<SemVer>) -> bool {
    if has_prefix(tag, "core-v"@) {
        let rest = tag.subrange(6, tag.len() as int);
        &&& r is Some <==> semver_parse(rest) is Some
        &&& r matches Some(v) ==> semver_parse(rest) == Some(semver_fields(v))
    } else {
        r is None
    }
}

/// Reads the version of an engine release tag.
pub fn parse_core_tag_version(tag: &str) -> (r: Option<SemVer>)
    ensures
        core_tag_spec(tag@, r),
        r is Some ==> tag@.len() > 6 && '0' <= tag@[6] && tag@[6] <= '9',
        forall|a: u64, b: u64, c: u64|
            tag@ == "core-v"@ + #[trigger] plain_version_text(a, b, c) ==> (r matches Some(v)
                && v.major == a && v.minor == b && v.patch == c),
{
    proof {
        reveal_strlit("core-v");
    }
    let t = chars_of(tag);
    match strip_prefix(&t, &chars_of("core-v")) {
        Some(rest) => {
            let s = string_from_chars(&rest);
            let r = parse_semver(s.as_str());
            proof {
                assert(tag@.subrange(0, 6) =~= "core-v"@);
                if r is Some {
                    assert(s@[0] == tag@[6]);
                }
                assert forall|a: u64, b: u64, c: u64|
                    tag@ == "core-v"@ + #[trigger] plain_version_text(a, b, c) implies (r matches Some(v)
                        && v.major == a && v.minor == b && v.patch == c) by {
                    assert(s@ =~= plain_version_text(a, b, c));
                }
            }
            r
        },
        None => {
            proof {
                assert forall|a: u64, b: u64, c: u64|
                    tag@ == "core-v"@ + #[trigger] plain_version_text(a, b, c) implies false by {
                    assert(tag@.subrange(0, 6) =~= "core-v"@);
                }
            }
            None
        },
    }
}

} // verus!
