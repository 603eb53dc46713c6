use physure::symbolic::{check_add_compat, infer_unit, UnitExpr};
use physure::units::RationalUnit;

fn meter() -> RationalUnit {
    RationalUnit::new_from_dimensions(vec![("m".to_string(), (1, 1))])
}

fn second() -> RationalUnit {
    RationalUnit::new_from_dimensions(vec![("s".to_string(), (1, 1))])
}

fn q(u: RationalUnit) -> UnitExpr {
    UnitExpr::Quantity(u)
}

#[test]
fn add_matching_units_ok() {
    let sum = UnitExpr::Add(vec![q(meter()), q(meter())]);
    assert!(infer_unit(&sum).unwrap().is_some());
}

#[test]
fn add_mismatched_units_errors() {
    let sum = UnitExpr::Add(vec![q(meter()), q(second())]);
    assert!(infer_unit(&sum).is_err());
}

#[test]
fn mul_units_compose() {
    let prod = UnitExpr::Mul(vec![q(meter()), q(second())]);
    let u = infer_unit(&prod).unwrap().unwrap();
    assert_eq!(u, meter().mul(&second()));
}

#[test]
fn transcendental_of_dimensioned_arg_errors() {
    let expr = UnitExpr::Sin(Box::new(q(meter())));
    assert!(infer_unit(&expr).is_err());
}

#[test]
fn inference_rules_and_messages() {
    assert_eq!(infer_unit(&UnitExpr::Scalar).unwrap(), None);
    let mixed = UnitExpr::Add(vec![UnitExpr::Scalar, q(meter()), UnitExpr::Scalar, q(meter())]);
    assert_eq!(infer_unit(&mixed).unwrap().unwrap().__repr__(), "m");
    match infer_unit(&UnitExpr::Sub(Box::new(q(meter())), Box::new(q(second())))) {
        Err(m) => assert_eq!(m, "Incompatible units in Add: {\"m\": (1, 1)} vs {\"s\": (1, 1)}"),
        Ok(_) => panic!("expected an error"),
    }
    let speed = UnitExpr::Div(Box::new(q(meter())), Box::new(q(second())));
    assert_eq!(infer_unit(&speed).unwrap().unwrap().__repr__(), "m * s^-1");
    let inv = UnitExpr::Div(Box::new(UnitExpr::Scalar), Box::new(q(second())));
    assert_eq!(infer_unit(&inv).unwrap().unwrap().__repr__(), "s^-1");
    let sq = UnitExpr::Pow(Box::new(q(meter())), Some((2, 1)));
    assert_eq!(infer_unit(&sq).unwrap().unwrap().__repr__(), "m^2");
    let bad = UnitExpr::Pow(Box::new(q(meter())), None);
    assert_eq!(infer_unit(&bad).err().unwrap(), "Cannot raise a dimensioned quantity to a non-constant power");
    let fine = UnitExpr::Pow(Box::new(UnitExpr::Scalar), None);
    assert_eq!(infer_unit(&fine).unwrap(), None);
    let ln = UnitExpr::Ln(Box::new(UnitExpr::Div(Box::new(q(meter())), Box::new(q(meter())))));
    assert_eq!(infer_unit(&ln).unwrap(), None);
    assert_eq!(
        infer_unit(&UnitExpr::Exp(Box::new(q(second())))).err().unwrap(),
        "Transcendental function argument must be dimensionless"
    );
}

#[test]
fn adding_terms_checks_their_units() {
    assert_eq!(check_add_compat(&q(meter()), &q(meter())), Ok(()));
    assert_eq!(check_add_compat(&UnitExpr::Scalar, &q(second())), Ok(()));
    assert_eq!(
        check_add_compat(&q(meter()), &q(second())),
        Err("Cannot add term with unit {\"m\": (1, 1)} to term with unit {\"s\": (1, 1)}: incompatible dimensions.".to_string())
    );
    assert_eq!(
        check_add_compat(&UnitExpr::Cos(Box::new(q(meter()))), &UnitExpr::Scalar),
        Err("Transcendental function argument must be dimensionless".to_string())
    );
}
