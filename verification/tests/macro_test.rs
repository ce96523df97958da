use uwu::ast::{Expr, Ident, Literal};
use uwu::macros::Macro;

#[test]
fn regex_macro_expands_a_string_literal_argument() {
    let m = Macro::from_name("regex").unwrap();
    let args = vec![Expr::Literal(Literal::String("ab".to_string()))];
    assert_eq!(m.expand(&args), Some("/ab/;".to_string()));
}

#[test]
fn regex_macro_expands_an_identifier_argument() {
    let m = Macro::from_name("regex").unwrap();
    let args = vec![Expr::Ident(Ident("pat".to_string()))];
    assert_eq!(m.expand(&args), Some("/pat/;".to_string()));
}

#[test]
fn regex_macro_with_zero_arguments_fails_to_expand() {
    let m = Macro::from_name("regex").unwrap();
    let args: Vec<Expr> = vec![];
    assert_eq!(m.expand(&args), None);
}

#[test]
fn regex_macro_rejects_surplus_arguments() {
    let m = Macro::from_name("regex").unwrap();
    let args = vec![
        Expr::Literal(Literal::String("ab".to_string())),
        Expr::Literal(Literal::String("cd".to_string())),
    ];
    assert_eq!(m.expand(&args), None);
}

#[test]
fn regex_macro_rejects_other_argument_shapes() {
    let m = Macro::from_name("regex").unwrap();
    let args = vec![Expr::Literal(Literal::Bool(true))];
    assert_eq!(m.expand(&args), None);
}

#[test]
fn the_registry_is_closed() {
    assert!(Macro::from_name("regex").is_some());
    assert!(Macro::from_name("regexp").is_none());
    assert!(Macro::from_name("").is_none());
}
