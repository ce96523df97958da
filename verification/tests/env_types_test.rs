use uwu::ast::{Expr, Literal, Number};
use uwu::env::Env;
use uwu::types::Type;

#[test]
fn unknown_compares_equal_to_everything() {
    assert!(Type::Unknown == Type::Number);
    assert!(Type::String == Type::Unknown);
    assert!(Type::Unknown == Type::Unknown);
}

#[test]
fn aggregates_compare_by_shape_only() {
    assert!(Type::Array(vec![Type::Number]) == Type::Array(vec![]));
    assert!(Type::Hash(vec![]) == Type::Hash(vec![(Type::String, Type::Bool)]));
    assert!(!(Type::Array(vec![]) == Type::Hash(vec![])));
    assert!(!(Type::Number == Type::String));
}

#[test]
fn from_literal_assigns_shapes() {
    assert!(Type::from_literal(&Literal::Number(Number::Int(3))) == Type::Number);
    assert!(Type::from_literal(&Literal::String("s".to_string())) == Type::String);
    assert!(Type::from_literal(&Literal::Bool(true)) == Type::Bool);
    let arr = Literal::Array(vec![
        Expr::Literal(Literal::Number(Number::Int(1))),
        Expr::Ident(uwu::ast::Ident("x".to_string())),
    ]);
    match Type::from_literal(&arr) {
        Type::Array(ts) => {
            assert_eq!(ts.len(), 2);
            assert!(matches!(ts[0], Type::Number));
            assert!(matches!(ts[1], Type::Unknown));
        }
        _ => panic!("expected an array type"),
    }
}

#[test]
fn function_store_remembers_names() {
    let mut env = Env::new();
    assert!(!env.has_fn("f".to_string()));
    env.add_fn("f".to_string());
    assert!(env.has_fn("f".to_string()));
    assert!(!env.has_fn("g".to_string()));
}

#[test]
fn type_store_set_check_get() {
    let mut env = Env::new();
    assert!(!env.checkt("x", &Type::Number));
    assert!(matches!(*env.gett("x".to_string()), Type::Unknown));
    env.sett("x", Type::Number);
    assert!(env.checkt("x", &Type::Number));
    assert!(env.checkt("x", &Type::Unknown));
    assert!(!env.checkt("x", &Type::String));
    assert!(matches!(*env.gett("x".to_string()), Type::Number));
    env.sett("x", Type::String);
    assert!(env.checkt("x", &Type::String));
    assert!(!env.checkt("x", &Type::Number));
}

#[test]
fn addt_records_the_literal_type() {
    let mut env = Env::new();
    env.addt("n", &Literal::Number(Number::Int(1)));
    assert!(env.checkt("n", &Type::Number));
    env.addt("s", &Literal::String("v".to_string()));
    assert!(env.checkt("s", &Type::String));
}
