//! The propagation mode, as read from `[Settings] propagation_mode` in
//! `physure.conf`.
//!
//! `correlated` / `uncorrelated` decide whether a value may know it is the same
//! measurement as another; `monte_carlo` / `unscented` pick the backend a new
//! measurement is built with. The configured mode is process-wide, stored as a
//! byte; a scoped override on the current thread sits on top of it.

use vstd::prelude::*;
use crate::text::{ascii_lower_spec, chars_eq_str, chars_of, extend_chars, string_from_chars, to_ascii_lower, trim_spec, trim_str};

verus! {

/// How uncertainties combine, and what a new measurement is built with.
#[derive(Clone, Copy, Debug, PartialEq, Eq, Structural)]
pub enum PropagationMode {
    /// Shared ancestry cancels: `x - x` is exactly zero.
    Correlated,
    /// Every value is treated as an independent measurement.
    Uncorrelated,
    /// New measurements are drawn as samples.
    MonteCarlo,
    /// New measurements are carried as sigma points.
    Unscented,
}

impl Default for PropagationMode {
    fn default() -> (r: Self)
        ensures
            r == PropagationMode::Correlated,
    {
        PropagationMode::Correlated
    }
}

/// The byte a mode is stored as.
pub open spec fn mode_byte(m: PropagationMode) -> u8 {
    match m {
        PropagationMode::Correlated => 0,
        PropagationMode::Uncorrelated => 1,
        PropagationMode::MonteCarlo => 2,
        PropagationMode::Unscented => 3,
    }
}

/// The mode a stored byte reads back as; an unknown byte reads as `Correlated`.
pub open spec fn mode_of_byte(raw: u8) -> PropagationMode {
    if raw == 1 {
        PropagationMode::Uncorrelated
    } else if raw == 2 {
        PropagationMode::MonteCarlo
    } else if raw == 3 {
        PropagationMode::Unscented
    } else {
        PropagationMode::Correlated
    }
}

/// The name a mode is written with in a conf file.
pub open spec fn mode_name(m: PropagationMode) -> Seq<char> {
    match m {
        PropagationMode::Correlated => "correlated"@,
        PropagationMode::Uncorrelated => "uncorrelated"@,
        PropagationMode::MonteCarlo => "monte_carlo"@,
        PropagationMode::Unscented => "unscented"@,
    }
}

/// What a conf value reads as: trimmed and lowered in ASCII, one of the four
/// names (`montecarlo` also names Monte Carlo), or an error naming what it got.
pub open spec fn parse_mode_spec(raw: Seq<char>) -> Result<PropagationMode, Seq<char>> {
    let t = ascii_lower_spec(trim_spec(raw));
    if t == "correlated"@ {
        Ok(PropagationMode::Correlated)
    } else if t == "uncorrelated"@ {
        Ok(PropagationMode::Uncorrelated)
    } else if t == "monte_carlo"@ || t == "montecarlo"@ {
        Ok(PropagationMode::MonteCarlo)
    } else if t == "unscented"@ {
        Ok(PropagationMode::Unscented)
    } else {
        Err(
            "unknown propagation mode '"@ + t
                + "', expected one of: correlated, uncorrelated, monte_carlo, unscented"@,
        )
    }
}

impl PropagationMode {
    /// The byte the mode is stored as.
    pub fn as_u8(self) -> (r: u8)
        ensures
            r == mode_byte(self),
    {
        match self {
            PropagationMode::Correlated => 0,
            PropagationMode::Uncorrelated => 1,
            PropagationMode::MonteCarlo => 2,
            PropagationMode::Unscented => 3,
        }
    }

    /// The mode a stored byte reads back as.
    pub fn from_u8(raw: u8) -> (r: PropagationMode)
        ensures
            r == mode_of_byte(raw),
    {
        match raw {
            1 => PropagationMode::Uncorrelated,
            2 => PropagationMode::MonteCarlo,
            3 => PropagationMode::Unscented,
            _ => PropagationMode::Correlated,
        }
    }

    /// The name this mode is written with in a conf file.
    pub fn name(self) -> (r: &'static str)
        ensures
            r@ == mode_name(self),
    {
        match self {
            PropagationMode::Correlated => "correlated",
            PropagationMode::Uncorrelated => "uncorrelated",
            PropagationMode::MonteCarlo => "monte_carlo",
            PropagationMode::Unscented => "unscented",
        }
    }

    /// Reads a conf value: surrounding white space and ASCII case are ignored, and
    /// an unknown name is an error that quotes it rather than a silent default.
    pub fn parse(raw: &str) -> (r: Result<PropagationMode, String>)
        ensures
            match parse_mode_spec(raw@) {
                Ok(m) => r == Ok::<PropagationMode, String>(m),
                Err(msg) => r matches Err(e) && e@ == msg,
            },
    {
        let t = to_ascii_lower(&trim_str(raw));
        if chars_eq_str(&t, "correlated") {
            Ok(PropagationMode::Correlated)
        } else if chars_eq_str(&t, "uncorrelated") {
            Ok(PropagationMode::Uncorrelated)
        } else if chars_eq_str(&t, "monte_carlo") || chars_eq_str(&t, "montecarlo") {
            Ok(PropagationMode::MonteCarlo)
        } else if chars_eq_str(&t, "unscented") {
            Ok(PropagationMode::Unscented)
        } else {
            let mut msg = chars_of("unknown propagation mode '");
            extend_chars(&mut msg, &t);
            extend_chars(
                &mut msg,
                &chars_of("', expected one of: correlated, uncorrelated, monte_carlo, unscented"),
            );
            Err(string_from_chars(&msg))
        }
    }
}

impl std::str::FromStr for PropagationMode {
    type Err = String;

    /// Reads a conf value as [`PropagationMode::parse`] does.
    fn from_str(raw: &str) -> (r: Result<Self, Self::Err>)
        ensures
            match parse_mode_spec(raw@) {
                Ok(m) => r == Ok::<PropagationMode, String>(m),
                Err(msg) => r matches Err(e) && e@ == msg,
            },
    {
        PropagationMode::parse(raw)
    }
}

/// The configured mode and the current thread's override.
#[derive(Clone, Copy, Debug)]
pub struct ModeState {
    pub configured: u8,
    pub override_mode: Option<PropagationMode>,
}

/// The mode in force in a state.
pub open spec fn mode_in_force(s: ModeState) -> PropagationMode {
    match s.override_mode {
        Some(m) => m,
        None => mode_of_byte(s.configured),
    }
}

impl ModeState {
    /// The state of a fresh process: `correlated`, with no override.
    pub fn new() -> (r: ModeState)
        ensures
            r.configured == 0,
            r.override_mode is None,
    {
        ModeState { configured: 0, override_mode: None }
    }
}

/// Restores the mode that was in force before its [`scoped`] call.
pub struct ModeGuard(pub Option<PropagationMode>);

/// The mode currently in force: this thread's override, if any, otherwise
/// whatever the conf file asked for.
pub fn propagation_mode(s: &ModeState) -> (r: PropagationMode)
    ensures
        r == mode_in_force(*s),
{
    match s.override_mode {
        Some(m) => m,
        None => PropagationMode::from_u8(s.configured),
    }
}

/// Sets the process-wide mode, returning the one it replaced.
pub fn set_propagation_mode(s: &mut ModeState, mode: PropagationMode) -> (r: PropagationMode)
    ensures
        r == mode_of_byte(old(s).configured),
        final(s).configured == mode_byte(mode),
        final(s).override_mode == old(s).override_mode,
{
    let previous = s.configured;
    s.configured = mode.as_u8();
    PropagationMode::from_u8(previous)
}

/// Overrides the mode until the returned guard is restored.
pub fn scoped(s: &mut ModeState, mode: PropagationMode) -> (g: ModeGuard)
    ensures
        g.0 == old(s).override_mode,
        final(s).override_mode == Some(mode),
        final(s).configured == old(s).configured,
{
    let previous = s.override_mode;
    s.override_mode = Some(mode);
    ModeGuard(previous)
}

impl ModeGuard {
    /// Puts back the mode override that was in force before the scope.
    pub fn restore(self, s: &mut ModeState)
        ensures
            final(s).override_mode == self.0,
            final(s).configured == old(s).configured,
    {
        s.override_mode = self.0;
    }
}

/// Every mode survives being stored as a byte and read back.
pub proof fn lemma_mode_byte_round_trip(m: PropagationMode)
    ensures
        mode_of_byte(mode_byte(m)) == m,
{
}

/// Every mode's conf name reads back as that mode.
pub proof fn lemma_mode_name_round_trip(m: PropagationMode)
    ensures
        parse_mode_spec(mode_name(m)) == Ok::<PropagationMode, Seq<char>>(m),
{
    reveal_strlit("correlated");
    reveal_strlit("uncorrelated");
    reveal_strlit("monte_carlo");
    reveal_strlit("montecarlo");
    reveal_strlit("unscented");
    let n = mode_name(m);
    assert(trim_spec(n) == n) by {
        lemma_no_edge_space(n);
    }
    assert(ascii_lower_spec(n) =~= n);
}

proof fn lemma_no_edge_space(n: Seq<char>)
    requires
        n.len() > 0,
        forall|i: int| 0 <= i < n.len() ==> 'a' <= #[trigger] n[i] <= 'z' || n[i] == '_',
    ensures
        trim_spec(n) == n,
{
    assert(!crate::text::is_ws(n[0]));
    assert(!crate::text::is_ws(n.last()));
}

/// A scoped override is in force until restored, and restoring it brings back
/// the mode that was in force before the scope.
pub proof fn lemma_mode_scope_then_restore(s: ModeState, m: PropagationMode)
    ensures
        mode_in_force(ModeState { override_mode: Some(m), ..s }) == m,
        mode_in_force(ModeState { override_mode: s.override_mode, ..(ModeState { override_mode: Some(m), ..s }) }) == mode_in_force(s),
{
}

} // verus!
