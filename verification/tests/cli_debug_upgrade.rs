use physure::cli::debug::{
    backtrace_lines, debug_breakpoints, inspect_scope, is_local, no_variable_message, parse_break_flag,
    parse_command, pause_message, resume_action, unknown_command_message, BreakRequest, BreakpointSpec,
    DebuggerCommand, ResumeAction, StackFrame, VariableScope,
};
use physure::cli::upgrade::{asset_name_for, is_relevant_change, parse_core_tag_version};

#[test]
fn parses_print_and_inspect_with_their_argument() {
    assert_eq!(parse_command("print v"), DebuggerCommand::Print("v".to_string()));
    assert_eq!(parse_command("inspect G"), DebuggerCommand::Inspect("G".to_string()));
}

#[test]
fn parses_bare_commands_and_short_aliases() {
    assert_eq!(parse_command("locals"), DebuggerCommand::Locals);
    assert_eq!(parse_command("backtrace"), DebuggerCommand::Backtrace);
    assert_eq!(parse_command("c"), DebuggerCommand::Continue);
    assert_eq!(parse_command("n"), DebuggerCommand::Next);
}

#[test]
fn parses_a_plain_line_breakpoint() {
    assert_eq!(parse_break_flag("42"), Some(BreakpointSpec::Line(42)));
}

#[test]
fn parses_a_conditional_breakpoint() {
    assert_eq!(
        parse_break_flag("42:v > 100 m/s"),
        Some(BreakpointSpec::Conditional(42, "v > 100 m/s".to_string()))
    );
}

#[test]
fn rejects_a_zero_line_breakpoint() {
    assert_eq!(parse_break_flag("0"), None);
}

#[test]
fn rejects_a_zero_line_conditional_breakpoint() {
    assert_eq!(parse_break_flag("0:x > 1"), None);
}

#[test]
fn commands_are_trimmed_and_unknown_ones_kept() {
    assert_eq!(parse_command("  print   x + 1 \n"), DebuggerCommand::Print("x + 1".to_string()));
    assert_eq!(parse_command("globals\n"), DebuggerCommand::Globals);
    assert_eq!(parse_command("s"), DebuggerCommand::Step);
    assert_eq!(parse_command("finish"), DebuggerCommand::Finish);
    assert_eq!(parse_command(" frobnicate "), DebuggerCommand::Unknown("frobnicate".to_string()));
    assert_eq!(parse_command("print"), DebuggerCommand::Unknown("print".to_string()));
}

#[test]
fn break_flags_with_spaces_signs_and_junk() {
    assert_eq!(parse_break_flag(" 7 "), Some(BreakpointSpec::Line(7)));
    assert_eq!(parse_break_flag("+3"), Some(BreakpointSpec::Line(3)));
    assert_eq!(parse_break_flag("x"), None);
    assert_eq!(parse_break_flag(""), None);
    assert_eq!(parse_break_flag("5: a:b "), Some(BreakpointSpec::Conditional(5, "a:b".to_string())));
}

#[test]
fn resume_actions_of_the_stepping_commands() {
    assert_eq!(resume_action(&DebuggerCommand::Continue), Some(ResumeAction::Continue));
    assert_eq!(resume_action(&DebuggerCommand::Step), Some(ResumeAction::StepInto));
    assert_eq!(resume_action(&DebuggerCommand::Next), Some(ResumeAction::StepOver));
    assert_eq!(resume_action(&DebuggerCommand::Finish), Some(ResumeAction::StepOut));
    assert_eq!(resume_action(&DebuggerCommand::Locals), None);
}

fn args(v: &[&str]) -> Vec<String> {
    v.iter().map(|s| s.to_string()).collect()
}

#[test]
fn breakpoints_from_the_command_line() {
    let a = args(&["phs", "debug", "s.phs", "--break-fn", "f", "--break", "3", "--break", "0", "--break"]);
    assert_eq!(
        debug_breakpoints(&a),
        vec![
            BreakRequest::FunctionEntry("f".to_string()),
            BreakRequest::Spec(BreakpointSpec::Line(3)),
            BreakRequest::Unparsable("0".to_string()),
            BreakRequest::Unparsable(String::new()),
        ]
    );
    let b = args(&["phs", "debug", "s.phs", "--break-fn"]);
    assert_eq!(debug_breakpoints(&b), vec![]);
}

fn frame(name: &str, line: usize, declared: &[&str]) -> StackFrame {
    StackFrame { fn_name: name.to_string(), call_site_line: line, declared: args(declared) }
}

#[test]
fn pause_and_backtrace_text() {
    assert_eq!(pause_message(12, &vec![]), "Paused at line 12");
    let stack = vec![frame("outer", 3, &[]), frame("inner", 9, &["x"])];
    assert_eq!(pause_message(12, &stack), "Paused at line 12, in inner() called from line 9");
    assert_eq!(
        backtrace_lines(&stack),
        vec!["  #0 inner (called from line 9)".to_string(), "  #1 outer (called from line 3)".to_string()]
    );
}

#[test]
fn locals_and_inspect_scope() {
    let stack = vec![frame("outer", 3, &["y"]), frame("inner", 9, &["x"])];
    assert!(is_local("x", &stack));
    assert!(!is_local("y", &stack));
    assert!(!is_local("x", &vec![]));
    match inspect_scope("x", &stack) {
        VariableScope::Local { owner_fn, frame_depth } => {
            assert_eq!(owner_fn, "inner");
            assert_eq!(frame_depth, 2);
        }
        VariableScope::Global => panic!("x is local"),
    }
    assert!(matches!(inspect_scope("y", &stack), VariableScope::Global));
    assert_eq!(no_variable_message("q"), "error: no variable named 'q'");
    assert_eq!(
        unknown_command_message("zz"),
        "unknown command 'zz' -- try print/inspect/locals/globals/backtrace/step/next/finish/continue"
    );
}

#[test]
fn asset_name_for_covers_every_core_release_yml_target() {
    assert_eq!(asset_name_for("windows", "x86_64"), Some("phs-windows-x86_64.zip"));
    assert_eq!(asset_name_for("linux", "x86_64"), Some("phs-linux-x86_64.tar.gz"));
    assert_eq!(asset_name_for("linux", "aarch64"), Some("phs-linux-aarch64.tar.gz"));
    assert_eq!(asset_name_for("macos", "x86_64"), Some("phs-macos-x86_64.tar.gz"));
    assert_eq!(asset_name_for("macos", "aarch64"), Some("phs-macos-aarch64.tar.gz"));
}

#[test]
fn asset_name_for_is_none_for_an_unsupported_target() {
    assert_eq!(asset_name_for("freebsd", "x86_64"), None);
}

#[test]
fn parse_core_tag_version_reads_a_core_tag() {
    let v = parse_core_tag_version("core-v0.2.4").unwrap();
    assert_eq!((v.major, v.minor, v.patch), (0, 2, 4));
    assert_eq!(v.pre, "");
    assert_eq!(v.build, "");
}

#[test]
fn parse_core_tag_version_rejects_other_tag_shapes() {
    assert!(parse_core_tag_version("v0.2.4").is_none());
    assert!(parse_core_tag_version("py-v0.2.4").is_none());
    assert!(parse_core_tag_version("py-core-v0.2.4").is_none());
    assert!(parse_core_tag_version("core-vnotaversion").is_none());
}

#[test]
fn parse_core_tag_version_keeps_pre_release_and_build() {
    let v = parse_core_tag_version("core-v1.10.0-rc.1+abc").unwrap();
    assert_eq!((v.major, v.minor, v.patch), (1, 10, 0));
    assert_eq!(v.pre, "rc.1");
    assert_eq!(v.build, "abc");
    assert!(parse_core_tag_version("core-v01.0.0").is_none());
}

#[test]
fn is_relevant_change_true_for_any_of_the_four_crate_directories() {
    assert!(is_relevant_change(&vec!["physure-core/src/quantity.rs".to_string()]));
    assert!(is_relevant_change(&vec!["physure-script/src/interpreter/mod.rs".to_string()]));
    assert!(is_relevant_change(&vec!["physure-cli/src/main.rs".to_string()]));
    assert!(is_relevant_change(&vec!["physure-lsp/src/incremental.rs".to_string()]));
}

#[test]
fn is_relevant_change_false_for_unrelated_paths() {
    assert!(!is_relevant_change(&vec!["physure-python/physure/__init__.py".to_string()]));
    assert!(!is_relevant_change(&vec!["docs/tutorials/phs_primer.md".to_string()]));
    assert!(!is_relevant_change(&vec![]));
}
