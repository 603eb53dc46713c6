use physure::error::PhysureError;
use physure::uncertainty::lineage::{fresh_id, reserve_id, IdCounter};
use physure::uncertainty::mode::{
    propagation_mode, scoped as scoped_mode, set_propagation_mode, ModeState, PropagationMode,
};
use physure::uncertainty::moments::not_implemented;
use physure::uncertainty::shapes::ShapeKind;

#[test]
fn every_spelling_the_conf_may_use_round_trips() {
    for mode in [
        PropagationMode::Correlated,
        PropagationMode::Uncorrelated,
        PropagationMode::MonteCarlo,
        PropagationMode::Unscented,
    ] {
        assert_eq!(mode.name().parse::<PropagationMode>().unwrap(), mode);
        assert_eq!(PropagationMode::from_u8(mode.as_u8()), mode);
    }
    assert_eq!("MonteCarlo".parse::<PropagationMode>().unwrap(), PropagationMode::MonteCarlo);
}

#[test]
fn a_misspelt_mode_is_rejected_rather_than_defaulted() {
    let err = "uncorelated".parse::<PropagationMode>().unwrap_err();
    assert!(err.contains("uncorelated"), "{err}");
    assert!(err.contains("uncorrelated"), "the error should show the spelling meant: {err}");
}

#[test]
fn mode_parse_ignores_space_and_ascii_case() {
    assert_eq!(PropagationMode::parse("  Unscented \n").unwrap(), PropagationMode::Unscented);
    assert_eq!(
        PropagationMode::parse("bogus").unwrap_err(),
        "unknown propagation mode 'bogus', expected one of: correlated, uncorrelated, monte_carlo, unscented"
    );
    assert_eq!(PropagationMode::from_u8(200), PropagationMode::Correlated);
    assert_eq!(PropagationMode::default(), PropagationMode::Correlated);
}

#[test]
fn a_mode_scope_restores_what_was_in_force() {
    let mut s = ModeState::new();
    assert_eq!(propagation_mode(&s), PropagationMode::Correlated);
    let previous = set_propagation_mode(&mut s, PropagationMode::MonteCarlo);
    assert_eq!(previous, PropagationMode::Correlated);
    let g = scoped_mode(&mut s, PropagationMode::Uncorrelated);
    assert_eq!(propagation_mode(&s), PropagationMode::Uncorrelated);
    g.restore(&mut s);
    assert_eq!(propagation_mode(&s), PropagationMode::MonteCarlo);
}

#[test]
fn an_imported_id_is_never_minted_again() {
    let mut counter = IdCounter::new();
    let imported = 900_000_u32;
    reserve_id(&mut counter, imported);
    assert!(fresh_id(&mut counter) > imported);
    reserve_id(&mut counter, imported + 5_000);
    assert!(fresh_id(&mut counter) > imported + 5_000);
}

#[test]
fn ids_count_up_and_wrap_at_the_top() {
    let mut counter = IdCounter::new();
    assert_eq!(fresh_id(&mut counter), 1);
    assert_eq!(fresh_id(&mut counter), 2);
    reserve_id(&mut counter, 1);
    assert_eq!(fresh_id(&mut counter), 3);
    reserve_id(&mut counter, u32::MAX);
    assert_eq!(fresh_id(&mut counter), u32::MAX);
    assert_eq!(fresh_id(&mut counter), 0);
}

#[test]
fn shape_kind_maps_names_and_default() {
    assert_eq!(ShapeKind::DEFAULT, ShapeKind::Dimidiated);
    assert_eq!(ShapeKind::from_name("dimidiated").unwrap(), ShapeKind::Dimidiated);
    assert_eq!(ShapeKind::from_name("fechner").unwrap(), ShapeKind::Fechner);
    assert!(ShapeKind::from_name("gauss-ish").is_err());
    assert_eq!(ShapeKind::Dimidiated.name(), "dimidiated");
    assert_eq!(ShapeKind::Fechner.name(), "fechner");
}

#[test]
fn shape_names_are_read_case_insensitively() {
    assert_eq!(ShapeKind::from_name("FECHNER").unwrap(), ShapeKind::Fechner);
    match ShapeKind::from_name("Gauss") {
        Err(PhysureError::Generic(m)) => {
            assert_eq!(m, "Unknown asymmetry shape \"gauss\". Expected one of: dimidiated, fechner.")
        }
        _ => panic!("expected an error"),
    }
}

#[test]
fn contract_violation_displays_decorator_and_message() {
    let err = PhysureError::ContractViolation {
        decorator: "requires".to_string(),
        message: "x must be positive".to_string(),
    };
    assert_eq!(err.to_string(), "@requires violated: x must be positive");
}

#[test]
fn not_implemented_names_the_operation() {
    let e = not_implemented("skew of a product");
    assert!(e.to_string().contains("skew of a product"));
}
