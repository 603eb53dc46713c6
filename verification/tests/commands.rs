use physure::cli::commands::{
    get_flag_value, plan_main, plan_transpile, repl_action, script_source, select_target, strip_scheme,
    transpile_done_message, transpile_requested, transpile_script, MainCommand, ReplAction, TranspileDecision,
    TranspileTarget,
};
use physure::cli::config::{I18nLabels, PhysureConfig};
use physure::cli::docs::{unit_table_rows, UnitDoc};
use physure::cli::export::{
    cargo_manifest, check_exportable, export_output_dir, export_request, native_lib_source, native_names,
    ExportArgsError, NativeOs,
};
use physure::cli::scaffold::{
    next_steps, parse_plugin_lang, plugin_files, plugin_request, render_template, unknown_lang_message,
    PluginLang, PluginRequestError, PluginTemplate,
};
use physure::cli::tui::{copied_status, tui_start, tui_step, value_cell, TuiAction, TuiKey, TuiState};

fn args(v: &[&str]) -> Vec<String> {
    v.iter().map(|s| s.to_string()).collect()
}

#[test]
fn flag_values_come_from_the_first_occurrence() {
    let a = args(&["phs", "x", "--lang", "py", "--lang", "rust"]);
    assert_eq!(get_flag_value(&a, "--lang").as_deref(), Some("py"));
    assert_eq!(get_flag_value(&args(&["phs", "--dir"]), "--dir"), None);
    assert_eq!(get_flag_value(&a, "--dir"), None);
}

#[test]
fn transpile_targets() {
    assert!(matches!(select_target(Some("py"), None), TranspileTarget::Python));
    assert!(matches!(select_target(Some("java"), None), TranspileTarget::Java));
    match select_target(Some("java"), Some("out/Calculator.java")) {
        TranspileTarget::JavaWithClass(c) => assert_eq!(c, "Calculator"),
        _ => panic!("expected Java with a class"),
    }
    assert!(matches!(select_target(Some("typescript"), Some("x.py")), TranspileTarget::TypeScript));
    assert!(matches!(select_target(Some("cobol"), None), TranspileTarget::Rust));
    assert!(matches!(select_target(None, Some("a.py")), TranspileTarget::Python));
    assert!(matches!(select_target(None, Some("a.js")), TranspileTarget::JavaScript));
    assert!(matches!(select_target(None, Some("a.ts")), TranspileTarget::TypeScript));
    assert!(matches!(select_target(None, Some("a.txt")), TranspileTarget::Rust));
    assert!(matches!(select_target(None, None), TranspileTarget::Rust));
}

#[test]
fn test_cli_transpile_typescript() {
    let a = args(&["phs", "transpile", "calc.phs", "--target", "ts", "-o", "calc_out.ts"]);
    assert!(transpile_requested(&a));
    match plan_transpile(&a) {
        TranspileDecision::Run(p) => {
            assert_eq!(p.script, "calc.phs");
            assert!(matches!(p.target, TranspileTarget::TypeScript));
            assert_eq!(p.output, "calc_out.ts");
            let msg = transpile_done_message(&p);
            assert!(msg.contains("TypeScript"));
            assert_eq!(msg, "✓ Transpiled 'calc.phs' -> 'calc_out.ts' (TypeScript target)");
        }
        _ => panic!("expected a run"),
    }
}

#[test]
fn short_target_flag_picks_the_default_output() {
    let a = args(&["phs", "transpile", "calc.phs", "-t", "ts"]);
    match plan_transpile(&a) {
        TranspileDecision::Run(p) => {
            assert!(matches!(p.target, TranspileTarget::TypeScript));
            assert_eq!(p.output, "calc.ts");
            assert_eq!(transpile_done_message(&p), "✓ Transpiled 'calc.phs' -> 'calc.ts' (TypeScript target)");
        }
        _ => panic!("expected a run"),
    }
}

#[test]
fn transpile_script_skips_flag_values() {
    let a = args(&["phs", "-o", "out.py", "--target", "python", "model.phs"]);
    assert_eq!(transpile_script(&a).as_deref(), Some("model.phs"));
    assert!(matches!(plan_transpile(&args(&["phs", "transpile"])), TranspileDecision::MissingScript));
    assert!(matches!(plan_transpile(&args(&["phs", "model.phs"])), TranspileDecision::NotRequested));
    match plan_transpile(&a) {
        TranspileDecision::Run(p) => {
            assert_eq!(p.output, "out.py");
            assert!(matches!(p.target, TranspileTarget::Python));
        }
        _ => panic!("expected a run"),
    }
}

#[test]
fn main_dispatch_order() {
    assert!(matches!(plan_main(&args(&["phs"])), MainCommand::Help));
    assert!(matches!(plan_main(&args(&["phs", "x.phs", "--daemon"])), MainCommand::Daemon));
    assert!(matches!(plan_main(&args(&["phs", "doc", "--save"])), MainCommand::Doc { save: true }));
    assert!(matches!(plan_main(&args(&["phs", "--doc"])), MainCommand::Doc { save: false }));
    assert!(matches!(plan_main(&args(&["phs", "-r"])), MainCommand::Repl));
    assert!(matches!(plan_main(&args(&["phs", "new-plugin", "p"])), MainCommand::NewPlugin));
    assert!(matches!(plan_main(&args(&["phs", "export", "a.phs"])), MainCommand::Export));
    assert!(matches!(plan_main(&args(&["phs", "register-protocol"])), MainCommand::RegisterProtocol));
    assert!(matches!(plan_main(&args(&["phs", "a.phs", "-t", "python"])), MainCommand::Transpile));
    match plan_main(&args(&["phs", "phs:///home/a.phs", "--html"])) {
        MainCommand::Run { input, tui, web, view, output } => {
            assert_eq!(input, "home/a.phs");
            assert!(!tui && !web && view);
            assert_eq!(output, None);
        }
        _ => panic!("expected a run"),
    }
    assert_eq!(strip_scheme("plain"), "plain");
}

#[test]
fn test_phs_missing_file() {
    assert_eq!(script_source("nope.phs", None), Err("error: file not found 'nope.phs'".to_string()));
    assert_eq!(script_source("x = 1 m", None), Ok("x = 1 m".to_string()));
    assert_eq!(script_source("a.phs", Some("y = 2".to_string())), Ok("y = 2".to_string()));
}

#[test]
fn repl_lines() {
    assert!(matches!(repl_action("   \n"), ReplAction::Skip));
    assert!(matches!(repl_action(" quit "), ReplAction::Quit));
    assert!(matches!(repl_action("exit"), ReplAction::Quit));
    assert!(matches!(repl_action("help\n"), ReplAction::Help));
    match repl_action("  m = 75.0 kg \n") {
        ReplAction::Eval(s) => assert_eq!(s, "m = 75.0 kg"),
        _ => panic!("expected an evaluation"),
    }
}

#[test]
fn config_language_and_labels() {
    let c = PhysureConfig::from_conf(Some("# comment\nlang = \"ES\"\n; other\nunit = si\n"));
    assert_eq!(c.lang, "es");
    let l: I18nLabels = c.i18n();
    assert_eq!(l.fig_prefix, "Figura");
    assert_eq!(l.html_lang, "es");
    let d = PhysureConfig::from_conf(Some("language='de'\nlang = fr\n"));
    assert_eq!(d.lang, "fr");
    assert_eq!(d.i18n().abstract_title, "Résumé / Abstract");
    let e = PhysureConfig::from_conf(None);
    assert_eq!(e.lang, "en");
    assert_eq!(e.i18n().sec_appendix, "2. Appendix A: PHS Source Code");
    let g = PhysureConfig { lang: "de".to_string() };
    assert_eq!(g.i18n().fig_prefix, "Abbildung");
}

#[test]
fn plugin_files_for_each_language() {
    let r = plugin_files(PluginLang::Rust, "demo");
    let paths: Vec<Vec<String>> = r.iter().map(|f| f.path.clone()).collect();
    assert_eq!(
        paths,
        vec![
            vec!["ext".to_string(), "demo.rs".to_string()],
            vec!["build_plugin.sh".to_string()],
            vec!["build_plugin.ps1".to_string()],
            vec!["build_plugin.cmd".to_string()],
            vec!["driver.py".to_string()],
        ]
    );
    assert!(r[1].executable && !r[0].executable);
    assert_eq!(r[4].template, PluginTemplate::DriverRust);
    let p = plugin_files(PluginLang::Python, "demo");
    assert_eq!(p.len(), 2);
    assert_eq!(p[0].path, vec!["ext".to_string(), "demo.py".to_string()]);
    assert_eq!(p[1].template, PluginTemplate::DriverPy);
    let b = plugin_files(PluginLang::Both, "demo");
    assert_eq!(b.len(), 6);
    assert_eq!(b[4].template, PluginTemplate::PyExt);
    assert_eq!(b[5].template, PluginTemplate::DriverBoth);
}

#[test]
fn plugin_command_line_and_templates() {
    assert_eq!(parse_plugin_lang("py"), Some(PluginLang::Python));
    assert_eq!(parse_plugin_lang("Rust"), None);
    assert!(matches!(plugin_request(&args(&["phs", "new-plugin"])), Err(PluginRequestError::Usage)));
    assert!(matches!(plugin_request(&args(&["phs", "new-plugin", "--lang"])), Err(PluginRequestError::Usage)));
    match plugin_request(&args(&["phs", "new-plugin", "demo", "--lang", "go"])) {
        Err(PluginRequestError::UnknownLang(l)) => {
            assert_eq!(l, "go");
            assert_eq!(unknown_lang_message(&l), "error: unknown --lang 'go', expected rust, python, or both");
        }
        _ => panic!("expected an unknown language"),
    }
    let q = plugin_request(&args(&["phs", "new-plugin", "demo", "--dir", "out"])).ok().unwrap();
    assert_eq!(q.name, "demo");
    assert_eq!(q.lang, PluginLang::Rust);
    assert_eq!(q.dir, "out");
    assert_eq!(render_template("fn __NAME___double() // __NAME__", "demo"), "fn demo_double() // demo");
    assert_eq!(next_steps(PluginLang::Python, "demo"), vec!["  python driver.py   # loads ext/demo.py and calls demo_hello(...)".to_string()]);
    assert_eq!(next_steps(PluginLang::Rust, "d").len(), 3);
}

#[test]
fn export_command_line_and_names() {
    assert!(matches!(export_request(&args(&["phs", "export"])), Err(ExportArgsError::Usage)));
    assert!(matches!(export_request(&args(&["phs", "export", "a.phs"])), Err(ExportArgsError::MissingFunction)));
    let r = export_request(&args(&["phs", "export", "a.phs", "--fn", "ke", "--native"])).ok().unwrap();
    assert_eq!(r.script, "a.phs");
    assert_eq!(r.function, "ke");
    assert!(r.native);
    assert_eq!(export_output_dir(&args(&["phs", "export", "a.phs", "-o", "dist"]), "a.phs"), "dist");
    assert_eq!(export_output_dir(&args(&["phs", "export", "a.phs"]), "a.phs"), ".");
    assert_eq!(export_output_dir(&args(&["phs", "export", "s/a.phs"]), "s/a.phs"), "s");
    let (k, built, dest) = native_names("ke", NativeOs::Unix);
    assert_eq!((k.as_str(), built.as_str(), dest.as_str()), ("ke_export", "libke_export.so", "ke.so"));
    let (_, built, dest) = native_names("ke", NativeOs::Windows);
    assert_eq!((built.as_str(), dest.as_str()), ("ke_export.dll", "ke.dll"));
    assert!(cargo_manifest("ke_export", "/p").contains("name = \"ke_export\""));
    assert!(cargo_manifest("ke_export", "/p").ends_with("physure-core = { path = '/p', package = \"physure\" }\n"));
    assert_eq!(native_lib_source("X"), "// Generated by PhysureScript (PHS) Compiler\nuse physure_core::Quantity;\n\nX");
}

#[test]
fn export_requires_a_defined_exported_function() {
    let fns = args(&["f", "g"]);
    assert_eq!(check_exportable(&fns, &args(&["g"]), "g", "a.phs"), Ok(1));
    assert_eq!(
        check_exportable(&fns, &args(&["g"]), "h", "a.phs"),
        Err("error: no function named 'h' in 'a.phs'".to_string())
    );
    assert_eq!(
        check_exportable(&fns, &args(&[]), "f", "a.phs"),
        Err("error: 'f' exists but was never `export`ed; add `export f`".to_string())
    );
}

#[test]
fn dashboard_keys() {
    let s = tui_start(3);
    assert_eq!(s, TuiState { selected: Some(0), code_scroll: 0 });
    let (s1, a) = tui_step(s, TuiKey::Up, 3, 10);
    assert_eq!((s1.selected, a), (Some(2), TuiAction::Continue));
    let (s2, _) = tui_step(s1, TuiKey::Down, 3, 10);
    assert_eq!(s2, s);
    let (s3, _) = tui_step(s2, TuiKey::ScrollUp, 3, 10);
    assert_eq!(s3.code_scroll, 0);
    let (s4, _) = tui_step(s3, TuiKey::ScrollDown, 3, 2);
    assert_eq!(s4.code_scroll, 1);
    let (s5, _) = tui_step(s4, TuiKey::ScrollDown, 3, 2);
    assert_eq!(s5.code_scroll, 1);
    assert_eq!(tui_step(s5, TuiKey::Copy, 3, 2).1, TuiAction::Copy(0));
    assert_eq!(tui_step(s5, TuiKey::Quit, 3, 2).1, TuiAction::Quit);
    let empty = tui_start(0);
    assert_eq!(tui_step(empty, TuiKey::Down, 0, 1).0.selected, None);
    assert_eq!(tui_step(empty, TuiKey::Copy, 0, 1).1, TuiAction::Continue);
    assert_eq!(copied_status("a = 1"), "Copied to clipboard: a = 1");
}

#[test]
fn unit_reference_rows_are_sorted() {
    let units = vec![
        UnitDoc { name: "N".to_string(), category: Some("Force".to_string()), base_dims: "kg * m * s^-2".to_string() },
        UnitDoc { name: "J".to_string(), category: None, base_dims: "".to_string() },
    ];
    let aliases = vec![("newton".to_string(), "N".to_string()), ("joule".to_string(), "J".to_string())];
    assert_eq!(
        unit_table_rows(&units, &aliases),
        "| `J` | Derived | `dimensionless` |\n| `N` | Force | `kg * m * s^-2` |\n| `joule` | Alias -> `J` | - |\n| `newton` | Alias -> `N` | - |\n"
    );
}

#[test]
fn output_flag_alone_does_not_trigger_transpile_mode() {
    let a = args(&["phs", "script.phs", "-o", "out.txt"]);
    assert!(matches!(plan_transpile(&a), TranspileDecision::NotRequested));
    match plan_main(&a) {
        MainCommand::Run { input, tui, web, view, output } => {
            assert_eq!(input, "script.phs");
            assert!(!tui && !web && !view);
            assert_eq!(output, Some("out.txt".to_string()));
        }
        _ => panic!("expected a run"),
    }
}

#[test]
fn html_report_takes_the_output_flag() {
    match plan_main(&args(&["phs", "r.phs", "--html", "--output", "custom.html"])) {
        MainCommand::Run { view, output, .. } => {
            assert!(view);
            assert_eq!(output, Some("custom.html".to_string()));
        }
        _ => panic!("expected a run"),
    }
    assert!(matches!(
        plan_transpile(&args(&["phs", "transpile", "a.phs", "-o", "b.py"])),
        TranspileDecision::Run(_)
    ));
}

#[test]
fn long_values_are_cut_for_the_steps_table() {
    assert_eq!(value_cell("75 kg"), "75 kg");
    let thirty = "a".repeat(30);
    assert_eq!(value_cell(&thirty), thirty);
    let long = "0123456789".repeat(4);
    assert_eq!(value_cell(&long), format!("{}...", &long[..27]));
    let wide = format!("{}{}", "é".repeat(13), "x".repeat(10));
    assert_eq!(value_cell(&wide), format!("{}x...", "é".repeat(13)));
}
