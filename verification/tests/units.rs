use physure::error::PhysureError;
use physure::units::{RationalUnit, UnitRegistry};

fn length() -> RationalUnit {
    RationalUnit::new_from_dimensions(vec![("L".to_string(), (1, 1))])
}

fn time() -> RationalUnit {
    RationalUnit::new_from_dimensions(vec![("T".to_string(), (1, 1))])
}

#[test]
fn dimensionless_is_empty() {
    let u = RationalUnit::new_from_dimensions(Vec::new());
    assert!(u.dimensions.is_empty());
    assert!(u.is_dimensionless());
}

#[test]
fn mul_accumulates_exponents() {
    let l2 = length().mul(&length());
    assert_eq!(l2.exponent("L").unwrap(), (2, 1));
    assert!(!l2.dimensions.is_empty());
}

#[test]
fn div_cancels_same_dimension() {
    assert!(length().div(&length()).dimensions.is_empty());
}

#[test]
fn div_mixed_dimensions() {
    let speed = length().div(&time());
    assert_eq!(speed.exponent("L").unwrap(), (1, 1));
    assert_eq!(speed.exponent("T").unwrap(), (-1, 1));
}

#[test]
fn pow_scales_exponent() {
    let l3 = length().pow((3, 1));
    assert_eq!(l3.exponent("L").unwrap(), (3, 1));
}

#[test]
fn pow_fractional_exponent() {
    let sqrt_l = length().pow((1, 2));
    assert_eq!(sqrt_l.exponent("L").unwrap(), (1, 2));
}

#[test]
fn pow_zero_removes_dimension() {
    let u = length().pow((0, 1));
    assert!(u.dimensions.is_empty());
}

#[test]
fn calculate_id_is_stable() {
    let a = RationalUnit::calculate_id(&vec![("L".to_string(), (1, 1))]);
    let b = RationalUnit::calculate_id(&vec![("L".to_string(), (1, 1))]);
    assert_eq!(a, b);
}

#[test]
fn calculate_id_differs_for_distinct_dims() {
    let l_id = RationalUnit::calculate_id(&vec![("L".to_string(), (1, 1))]);
    let t_id = RationalUnit::calculate_id(&vec![("T".to_string(), (1, 1))]);
    assert_ne!(l_id, t_id);
}

#[test]
fn mul_then_div_is_identity() {
    let result = length().mul(&time()).div(&time());
    assert_eq!(result, length());
}

#[test]
fn repr_dimensionless() {
    let u = RationalUnit::new_from_dimensions(Vec::new());
    assert_eq!(u.__repr__(), "Dimensionless");
}

#[test]
fn repr_single_unit_exponent_1() {
    assert_eq!(length().__repr__(), "L");
}

#[test]
fn repr_higher_integer_power() {
    let l2 = length().mul(&length());
    assert_eq!(l2.__repr__(), "L^2");
}

#[test]
fn repr_fractional_power() {
    let sqrt_l = length().pow((1, 2));
    assert_eq!(sqrt_l.__repr__(), "L^1/2");
}

#[test]
fn hash_is_same_as_id() {
    let u = length();
    assert_eq!(u.__hash__(), u.id);
}

#[test]
fn dimensions_accessor_returns_clone() {
    let u = length();
    let dims = u.dimensions();
    assert_eq!(dims, vec![("L".to_string(), (1, 1))]);
    assert_eq!(dims.len(), 1);
}

#[test]
fn to_string_delegates_to_repr() {
    assert_eq!(length().to_string(None, false, None), "L");
}

#[test]
fn unit_registry_add_and_lookup() {
    let mut reg = UnitRegistry::new();
    reg.add_base_unit("m".to_string());
    assert!(reg.contains("m".to_string()));
    assert!(!reg.contains("s".to_string()));
}

#[test]
fn unit_registry_alias_resolves() {
    let mut reg = UnitRegistry::new();
    reg.add_base_unit("meter".to_string());
    reg.register_alias("m".to_string(), "meter".to_string()).unwrap();
    assert!(reg.contains("m".to_string()));
    assert_eq!(reg.resolve_symbol("m".to_string()), "meter");
}

#[test]
fn unit_registry_add_derived() {
    let mut reg = UnitRegistry::new();
    let speed = length().div(&time());
    reg.add_derived_unit("m_per_s".to_string(), speed.clone());
    assert!(reg.contains("m_per_s".to_string()));
}

#[test]
fn parse_exponent_tuple_nonzero() {
    assert_eq!(RationalUnit::parse_exponent_tuple(3, 2), Some((3, 2)));
}

#[test]
fn parse_exponent_tuple_zero_numerator() {
    assert_eq!(RationalUnit::parse_exponent_tuple(0, 1), None);
}

#[test]
fn rational_unit_pymul() {
    let unit = length().mul(&time());
    assert!(unit.exponent("L").is_some());
    assert!(unit.exponent("T").is_some());
}

#[test]
fn rational_unit_pydiv() {
    let unit = length().div(&length());
    assert!(unit.dimensions.is_empty());
}

#[test]
fn rational_unit_pypow() {
    let unit = length().pow((3, 1));
    assert_eq!(unit.exponent("L").unwrap(), (3, 1));
}

#[test]
fn rational_unit_pypow_tuple_exponent() {
    let unit = length().pow((1, 2));
    assert_eq!(unit.exponent("L").unwrap(), (1, 2));
}

#[test]
fn unit_registry_get_unit_base() {
    let mut reg = UnitRegistry::new();
    reg.add_base_unit("m".to_string());
    let unit = reg.get_unit("m".to_string()).unwrap();
    assert_eq!(unit.exponent("m").unwrap(), (1, 1));
}

#[test]
fn unit_registry_get_unit_derived() {
    let mut reg = UnitRegistry::new();
    let speed = length().div(&time());
    reg.add_derived_unit("v".to_string(), speed);
    let unit = reg.get_unit("v".to_string()).unwrap();
    assert_eq!(unit.exponent("L").unwrap(), (1, 1));
}

#[test]
fn unit_registry_get_unit_via_alias() {
    let mut reg = UnitRegistry::new();
    reg.add_base_unit("meter".to_string());
    reg.register_alias("m".to_string(), "meter".to_string()).unwrap();
    let unit = reg.get_unit("m".to_string()).unwrap();
    assert!(unit.exponent("meter").is_some());
}

#[test]
fn unit_registry_get_unit_not_found() {
    let reg = UnitRegistry::new();
    assert!(reg.get_unit("nope".to_string()).is_err());
}

#[test]
fn unit_registry_get_unit_via_unresolved_base_fallback() {
    let mut reg = UnitRegistry::new();
    reg.add_base_unit("L".to_string());
    let result = reg.get_unit("L".to_string());
    assert!(result.is_ok());
}

#[test]
fn unit_registry_resolve_caps_at_10_hops() {
    let mut reg = UnitRegistry::new();
    for i in 0..12u32 {
        reg.register_alias(format!("a{}", i), format!("a{}", i + 1)).unwrap();
    }
    reg.add_base_unit("a12".to_string());
    let resolved = reg.resolve_symbol("a0".to_string());
    assert_eq!(resolved, "a10");
}

#[test]
fn mul_zero_exponent_removes_dimension() {
    let l_inv = RationalUnit::new_from_dimensions(vec![("L".to_string(), (-1i64, 1i64))]);
    assert!(length().mul(&l_inv).dimensions.is_empty());
}

#[test]
fn hash_used_as_hashmap_key() {
    let mut map: std::collections::HashMap<RationalUnit, &str> = std::collections::HashMap::new();
    map.insert(length(), "length");
    assert_eq!(map[&length()], "length");
}

#[test]
fn rational_unit_eq_and_neq() {
    assert!(length().__eq__(&length()));
    assert!(!length().__eq__(&time()));
}

#[test]
fn get_unit_fallback_to_base_original_name() {
    let mut reg = UnitRegistry::new();
    reg.add_base_unit("m".to_string());
    reg.register_alias("m".to_string(), "meter".to_string()).unwrap();
    let unit = reg.get_unit("m".to_string()).unwrap();
    assert!(unit.exponent("m").is_some());
}

#[test]
fn get_unit_fallback_to_derived_original_name() {
    let mut reg = UnitRegistry::new();
    let speed = length().div(&time());
    reg.add_derived_unit("v".to_string(), speed);
    reg.register_alias("v".to_string(), "velocity".to_string()).unwrap();
    let unit = reg.get_unit("v".to_string()).unwrap();
    assert_eq!(unit.exponent("L").unwrap(), (1, 1));
}

// Tests of this crate's own.

#[test]
fn missing_unit_error_names_the_unit() {
    let reg = UnitRegistry::new();
    match reg.get_unit("parsec".to_string()) {
        Err(PhysureError::Generic(m)) => assert_eq!(m, "Unit 'parsec' not found"),
        other => panic!("unexpected {:?}", other.map(|u| u.__repr__())),
    }
}

#[test]
fn repr_lists_dimensions_in_name_order() {
    let u = time().div(&length()).mul(&RationalUnit::new_from_dimensions(vec![("M".to_string(), (2, 3))]));
    assert_eq!(u.__repr__(), "L^-1 * M^2/3 * T");
}

#[test]
fn division_by_itself_is_dimensionless_law() {
    let speed = length().div(&time());
    let d = speed.div(&speed);
    assert!(d.is_dimensionless());
    assert_eq!(d, RationalUnit::dimensionless());
}

#[test]
fn multiplication_commutes_law() {
    let a = length().mul(&time().pow((2, 1)));
    let b = time().pow((2, 1)).mul(&length());
    assert_eq!(a, b);
    assert!(a.__eq__(&b));
}

#[test]
fn pow_one_and_dimensionless_identity_laws() {
    assert_eq!(length().pow((1, 1)), length());
    assert_eq!(length().mul(&RationalUnit::dimensionless()), length());
}

#[test]
fn pow_reduces_the_exponent() {
    let u = RationalUnit::new_from_dimensions(vec![("L".to_string(), (2, 1))]).pow((3, 6));
    assert_eq!(u.exponent("L").unwrap(), (1, 1));
}

#[test]
fn alias_to_an_unknown_name_falls_back_to_the_name_itself() {
    let mut reg = UnitRegistry::new();
    reg.register_alias("x".to_string(), "y".to_string()).unwrap();
    assert!(!reg.contains("x".to_string()));
    assert_eq!(reg.resolve_symbol("x".to_string()), "y");
    assert_eq!(reg.resolve_symbol("z".to_string()), "z");
}
