use physure::equation::PhyEquation;
use physure::error::PhysureError;
use physure::plotting::{export_format, grid_faces, sanitize_unit_label, ExportFormat};
use physure::words::{join_strings, sorted_names};

#[test]
fn grid_triangulation() {
    assert_eq!(grid_faces(1, 5), Vec::<[usize; 3]>::new());
    assert_eq!(grid_faces(2, 2), vec![[0, 2, 1], [2, 3, 1]]);
    let f = grid_faces(3, 4);
    assert_eq!(f.len(), 2 * 2 * 3);
    assert_eq!(f[2 * 4], [5, 9, 6]);
    assert_eq!(f[2 * 4 + 1], [9, 10, 6]);
    assert!(f.iter().all(|t| t.iter().all(|&i| i < 12)));
}

#[test]
fn export_formats() {
    assert_eq!(export_format("STL").ok(), Some(ExportFormat::StlBinary));
    assert_eq!(export_format("glb").ok(), Some(ExportFormat::Gltf));
    assert_eq!(export_format("WebGL").ok(), Some(ExportFormat::Html));
    assert_eq!(export_format("stl_ascii").ok(), Some(ExportFormat::StlAscii));
    match export_format("Xyz") {
        Err(PhysureError::Generic(m)) => assert_eq!(m, "Unsupported export format: Xyz"),
        _ => panic!("expected an error"),
    }
}

#[test]
fn unit_labels_are_cleaned() {
    assert_eq!(sanitize_unit_label("kPa * sin"), "kPa");
    assert_eq!(sanitize_unit_label(" m * COS "), "m");
    assert_eq!(sanitize_unit_label("SIN"), "dimensionless");
    assert_eq!(sanitize_unit_label("   "), "dimensionless");
    assert_eq!(sanitize_unit_label("N*m"), "N*m");
}

#[test]
fn equations_keep_their_text() {
    let e = PhyEquation::parse("  \"F = m * a\" ").unwrap();
    assert_eq!(e.expression, "F = m * a");
    assert_eq!(
        e.solve_script("a"),
        "use solve from calc\neq_temp = \"F = m * a\"\nsolve(eq_temp, \"a\")\n"
    );
    assert_eq!(e.unsolved("a").unwrap().expression, "a = solve(F = m * a, a)");
    let args = vec![
        ("m".to_string(), "2".to_string(), "kg".to_string()),
        ("a".to_string(), "9.8".to_string(), "m/s^2".to_string()),
    ];
    assert_eq!(
        e.call_script(&args),
        "use solve from calc\neq_temp = \"F = m * a\"\nsolve_fn = solve(eq_temp)\nsolve_fn(m = (2 kg), a = (9.8 m/s^2))\n"
    );
}

#[test]
fn names_sort_and_join() {
    let v: Vec<String> = ["b", "a", "B", "ab"].iter().map(|s| s.to_string()).collect();
    let s = sorted_names(&v);
    assert_eq!(s, vec!["B".to_string(), "a".to_string(), "ab".to_string(), "b".to_string()]);
    assert_eq!(join_strings(&s, "|"), "B|a|ab|b");
    assert_eq!(join_strings(&vec![], ","), "");
}
