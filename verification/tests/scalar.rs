use config_editor::scalar::Scalar;

#[test]
fn same_as_is_equality_of_values() {
    let a = Scalar::Array(vec![Scalar::Integer(1), Scalar::Str("x".to_string())]);
    let b = Scalar::Array(vec![Scalar::Integer(1), Scalar::Str("x".to_string())]);
    let c = Scalar::Array(vec![Scalar::Integer(1), Scalar::Str("y".to_string())]);
    let d = Scalar::Array(vec![Scalar::Integer(1)]);
    assert!(a.same_as(&b));
    assert!(!a.same_as(&c));
    assert!(!a.same_as(&d));
    assert!(!Scalar::Integer(1).same_as(&Scalar::Float("1".to_string())));
    assert!(!Scalar::Boolean(true).same_as(&Scalar::Boolean(false)));
    assert!(Scalar::Float("1.5".to_string()).same_as(&Scalar::Float("1.5".to_string())));
    assert!(!Scalar::Str("1".to_string()).same_as(&Scalar::Integer(1)));
}

#[test]
fn clone_keeps_the_value() {
    let a = Scalar::Array(vec![
        Scalar::Integer(1),
        Scalar::Array(vec![Scalar::Boolean(true), Scalar::Float("2.5".to_string())]),
        Scalar::Str("x".to_string()),
    ]);
    assert_eq!(a.clone(), a);
}

#[test]
fn storable_scalars_are_those_whose_floats_print_as_written() {
    assert!(Scalar::Integer(5).is_storable());
    assert!(Scalar::Str("x".to_string()).is_storable());
    assert!(Scalar::Float("1.5".to_string()).is_storable());
    assert!(Scalar::Float("-0".to_string()).is_storable());
    assert!(Scalar::Float("inf".to_string()).is_storable());
    assert!(Scalar::Float("NaN".to_string()).is_storable());
    assert!(!Scalar::Float("1.50".to_string()).is_storable());
    assert!(!Scalar::Float("abc".to_string()).is_storable());
    assert!(!Scalar::Float(String::new()).is_storable());
    assert!(!Scalar::Array(vec![Scalar::Integer(1), Scalar::Float("x".to_string())]).is_storable());
    assert!(Scalar::Array(vec![Scalar::Integer(1), Scalar::Float("2".to_string())]).is_storable());
}
