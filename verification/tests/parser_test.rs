use uwu::ast::{Expr, Ident, Infix, Literal, Number, Stmt};
use uwu::parser::parse;

fn int_lit(v: i32) -> Expr {
    Expr::Literal(Literal::Number(Number::Int(v)))
}

fn float(t: &str) -> Expr {
    Expr::Literal(Literal::Number(Number::Float(t.to_string())))
}

fn ident(n: &str) -> Expr {
    Expr::Ident(Ident(n.to_string()))
}

#[test]
fn parses_integer_literals() {
    let (prog, errs) = parse("42");
    assert_eq!(errs.len(), 0);
    assert_eq!(prog, vec![(Stmt::Expr(int_lit(42)), 0usize)]);
    let (prog0, errs0) = parse("0");
    assert_eq!(errs0.len(), 0);
    assert_eq!(prog0, vec![(Stmt::Expr(int_lit(0)), 0usize)]);
}

#[test]
fn parses_float_literals_verbatim() {
    let (prog, errs) = parse("190.7");
    assert_eq!(errs.len(), 0);
    assert_eq!(prog, vec![(Stmt::Expr(float("190.7")), 0usize)]);
}

#[test]
fn string_parsing_preserves_multibyte_content() {
    let payload = "\u{00f1}\u{1f44d}e\u{0301} ok";
    let source = format!("\"{}\"", payload);
    let (prog, errs) = parse(&source);
    assert_eq!(errs.len(), 0);
    assert_eq!(
        prog,
        vec![(
            Stmt::Expr(Expr::Literal(Literal::String(payload.to_string()))),
            1usize
        )]
    );
}

#[test]
fn equal_precedence_resolves_left_to_right() {
    let (prog, errs) = parse("1 + 190.7 - 1");
    assert_eq!(errs.len(), 0);
    assert_eq!(
        prog,
        vec![(
            Stmt::Expr(Expr::Infix(
                Infix::Minus,
                Box::new(Expr::Infix(Infix::Plus, Box::new(int_lit(1)), Box::new(float("190.7")))),
                Box::new(int_lit(1)),
            )),
            0usize
        )]
    );
}

#[test]
fn product_binds_tighter_than_sum() {
    let (prog, errs) = parse("1 + 2 * 3");
    assert_eq!(errs.len(), 0);
    assert_eq!(
        prog,
        vec![(
            Stmt::Expr(Expr::Infix(
                Infix::Plus,
                Box::new(int_lit(1)),
                Box::new(Expr::Infix(Infix::Multiply, Box::new(int_lit(2)), Box::new(int_lit(3)))),
            )),
            0usize
        )]
    );
}

#[test]
fn power_and_modulo_bind_at_sum_level() {
    let (prog, errs) = parse("1 + 2 ^ 3");
    assert_eq!(errs.len(), 0);
    assert_eq!(
        prog,
        vec![(
            Stmt::Expr(Expr::Infix(
                Infix::Power,
                Box::new(Expr::Infix(Infix::Plus, Box::new(int_lit(1)), Box::new(int_lit(2)))),
                Box::new(int_lit(3)),
            )),
            0usize
        )]
    );
}

#[test]
fn grouping_overrides_precedence() {
    let (prog, errs) = parse("(1 + 2) * 3");
    assert_eq!(errs.len(), 0);
    assert_eq!(
        prog,
        vec![(
            Stmt::Expr(Expr::Infix(
                Infix::Multiply,
                Box::new(Expr::Infix(Infix::Plus, Box::new(int_lit(1)), Box::new(int_lit(2)))),
                Box::new(int_lit(3)),
            )),
            0usize
        )]
    );
}

#[test]
fn array_literals_preserve_element_order() {
    let (prog, errs) = parse("[1,2,3]");
    assert_eq!(errs.len(), 0);
    assert_eq!(
        prog,
        vec![(
            Stmt::Expr(Expr::Literal(Literal::Array(vec![int_lit(1), int_lit(2), int_lit(3)]))),
            0usize
        )]
    );
}

#[test]
fn hash_literals_preserve_pairs_and_order() {
    let (prog, errs) = parse("{\"k\":\"v\", \"n\": [1,2]}");
    assert_eq!(errs.len(), 0);
    assert_eq!(
        prog,
        vec![(
            Stmt::Expr(Expr::Literal(Literal::Hash(vec![
                (
                    Expr::Literal(Literal::String("k".to_string())),
                    Expr::Literal(Literal::String("v".to_string()))
                ),
                (
                    Expr::Literal(Literal::String("n".to_string())),
                    Expr::Literal(Literal::Array(vec![int_lit(1), int_lit(2)]))
                ),
            ]))),
            0usize
        )]
    );
}

#[test]
fn call_target_must_be_a_bare_identifier() {
    let (prog, errs) = parse("(1+2)(3)");
    assert!(errs.len() > 0);
    for (st, _) in &prog {
        assert!(!matches!(st, Stmt::Expr(Expr::Call { .. })));
    }
}

#[test]
fn calls_on_identifiers_parse() {
    let (prog, errs) = parse("add(1, 2)");
    assert_eq!(errs.len(), 0);
    assert_eq!(
        prog,
        vec![(
            Stmt::Expr(Expr::Call {
                func: Box::new(ident("add")),
                args: vec![int_lit(1), int_lit(2)],
            }),
            0usize
        )]
    );
}

#[test]
fn empty_conditional_has_empty_consequence_and_no_alternative() {
    let (prog, errs) = parse("if(true): end");
    assert_eq!(errs.len(), 0);
    assert_eq!(
        prog,
        vec![(
            Stmt::Expr(Expr::If {
                cond: Box::new(Expr::Literal(Literal::Bool(true))),
                consequence: vec![],
                alternative: None,
            }),
            0usize
        )]
    );
}

#[test]
fn conditional_populates_consequence_and_alternative() {
    let (prog, errs) = parse("if(1<2): x end");
    assert_eq!(errs.len(), 0);
    assert_eq!(
        prog,
        vec![(
            Stmt::Expr(Expr::If {
                cond: Box::new(Expr::Infix(
                    Infix::LessThan,
                    Box::new(int_lit(1)),
                    Box::new(int_lit(2))
                )),
                consequence: vec![(Stmt::Expr(ident("x")), 9usize)],
                alternative: None,
            }),
            0usize
        )]
    );
    let (prog2, errs2) = parse("if(1<2): x else: y end");
    assert_eq!(errs2.len(), 0);
    assert_eq!(
        prog2,
        vec![(
            Stmt::Expr(Expr::If {
                cond: Box::new(Expr::Infix(
                    Infix::LessThan,
                    Box::new(int_lit(1)),
                    Box::new(int_lit(2))
                )),
                consequence: vec![(Stmt::Expr(ident("x")), 9usize)],
                alternative: Some(vec![(Stmt::Expr(ident("y")), 17usize)]),
            }),
            0usize
        )]
    );
}

#[test]
fn regexp_literal_without_flags() {
    let (prog, errs) = parse("/x/");
    assert_eq!(errs.len(), 0);
    assert_eq!(
        prog,
        vec![(
            Stmt::Expr(Expr::Regexp {
                pattern: Box::new(Expr::Literal(Literal::String("x".to_string()))),
                flags: None,
            }),
            0usize
        )]
    );
}

#[test]
fn regexp_keeps_escaped_slashes_and_flags() {
    let (prog, errs) = parse("/a\\/b/g");
    assert_eq!(errs.len(), 0);
    assert_eq!(
        prog,
        vec![(
            Stmt::Expr(Expr::Regexp {
                pattern: Box::new(Expr::Literal(Literal::String("a\\/b".to_string()))),
                flags: Some(Ident("g".to_string())),
            }),
            0usize
        )]
    );
}

#[test]
fn index_assignment_wraps_the_index_expression() {
    let (prog, errs) = parse("a[0] = 5");
    assert_eq!(errs.len(), 0);
    assert_eq!(
        prog,
        vec![(
            Stmt::Expr(Expr::Assign(
                Box::new(Expr::Index(Box::new(ident("a")), Box::new(int_lit(0)))),
                Box::new(int_lit(5)),
            )),
            0usize
        )]
    );
}

#[test]
fn plain_index_read_is_not_an_assignment() {
    let (prog, errs) = parse("a[0]");
    assert_eq!(errs.len(), 0);
    assert_eq!(
        prog,
        vec![(
            Stmt::Expr(Expr::Index(Box::new(ident("a")), Box::new(int_lit(0)))),
            0usize
        )]
    );
}

#[test]
fn let_and_bare_assignment_forms() {
    let (prog, errs) = parse("let x = 5");
    assert_eq!(errs.len(), 0);
    assert_eq!(
        prog,
        vec![(
            Stmt::Expr(Expr::Let(Ident("x".to_string()), Box::new(int_lit(5)))),
            0usize
        )]
    );
    let (prog2, errs2) = parse("x = 5");
    assert_eq!(errs2.len(), 0);
    assert_eq!(
        prog2,
        vec![(
            Stmt::Expr(Expr::Assign(Box::new(ident("x")), Box::new(int_lit(5)))),
            0usize
        )]
    );
}

#[test]
fn compound_assignment_parses_as_infix() {
    let (prog, errs) = parse("a += 1");
    assert_eq!(errs.len(), 0);
    assert_eq!(
        prog,
        vec![(
            Stmt::Expr(Expr::Infix(
                Infix::PlusAssign,
                Box::new(ident("a")),
                Box::new(int_lit(1))
            )),
            0usize
        )]
    );
}

#[test]
fn accessor_chains_a_trailing_identifier() {
    let (prog, errs) = parse("a.b");
    assert_eq!(errs.len(), 0);
    assert_eq!(
        prog,
        vec![(
            Stmt::Expr(Expr::Accessor(
                Box::new(ident("a")),
                Ident("b".to_string())
            )),
            0usize
        )]
    );
}

#[test]
fn while_loops_parse() {
    let (prog, errs) = parse("while(true): x end");
    assert_eq!(errs.len(), 0);
    assert_eq!(
        prog,
        vec![(
            Stmt::Expr(Expr::While {
                cond: Box::new(Expr::Literal(Literal::Bool(true))),
                consequence: vec![(Stmt::Expr(ident("x")), 13usize)],
            }),
            0usize
        )]
    );
}

#[test]
fn named_functions_with_parameters_parse() {
    let (prog, errs) = parse("fn f(a, b): a end");
    assert_eq!(errs.len(), 0);
    assert_eq!(
        prog,
        vec![(
            Stmt::Expr(Expr::Func {
                params: vec![Ident("a".to_string()), Ident("b".to_string())],
                body: vec![(Stmt::Expr(ident("a")), 12usize)],
                name: Some(Ident("f".to_string())),
            }),
            0usize
        )]
    );
}

#[test]
fn return_statements_parse() {
    let (prog, errs) = parse("return 5");
    assert_eq!(errs.len(), 0);
    assert_eq!(prog, vec![(Stmt::Return(int_lit(5)), 0usize)]);
}

#[test]
fn statements_keep_their_source_offsets() {
    let (prog, errs) = parse("1; 2");
    assert_eq!(errs.len(), 0);
    assert_eq!(
        prog,
        vec![(Stmt::Expr(int_lit(1)), 0usize), (Stmt::Expr(int_lit(2)), 3usize)]
    );
}

#[test]
fn empty_source_parses_to_an_empty_program() {
    let (prog, errs) = parse("");
    assert_eq!(errs.len(), 0);
    assert_eq!(prog, vec![]);
}

#[test]
fn illegal_token_is_reported_not_panicked() {
    let (prog, errs) = parse("@");
    assert!(errs.len() > 0);
    assert_eq!(prog, vec![]);
}

#[test]
fn pathological_nesting_fails_with_an_error_not_a_crash() {
    let mut src = String::new();
    for _ in 0..80 {
        src.push('(');
    }
    src.push('1');
    for _ in 0..80 {
        src.push(')');
    }
    let (_prog, errs) = parse(&src);
    assert!(errs.len() > 0);
}

#[test]
fn slash_in_infix_position_is_division() {
    let (prog, errs) = parse("a / b");
    assert_eq!(errs.len(), 0);
    assert_eq!(
        prog,
        vec![(
            Stmt::Expr(Expr::Infix(
                Infix::Divide,
                Box::new(ident("a")),
                Box::new(ident("b"))
            )),
            0usize
        )]
    );
}

#[test]
fn anonymous_functions_have_no_name() {
    let (prog, errs) = parse("fn (a): a end");
    assert_eq!(errs.len(), 0);
    assert_eq!(
        prog,
        vec![(
            Stmt::Expr(Expr::Func {
                params: vec![Ident("a".to_string())],
                body: vec![(Stmt::Expr(ident("a")), 8usize)],
                name: None,
            }),
            0usize
        )]
    );
}

#[test]
fn a_numeric_run_with_two_dots_is_a_parse_error() {
    let (prog, errs) = parse("1.2.3");
    assert!(errs.len() > 0);
    assert_eq!(prog, vec![]);
}

#[test]
fn an_unterminated_conditional_records_an_error() {
    let (_prog, errs) = parse("if(true): x");
    assert!(errs.len() > 0);
}

#[test]
fn an_unterminated_loop_records_an_error() {
    let (_prog, errs) = parse("while(true): x");
    assert!(errs.len() > 0);
}

#[test]
fn an_unterminated_function_records_an_error() {
    let (_prog, errs) = parse("fn f(): x");
    assert!(errs.len() > 0);
}

#[test]
fn nested_conditionals_parse() {
    let (prog, errs) = parse("if(true): if(false): 1 end end");
    assert_eq!(errs.len(), 0);
    assert_eq!(prog.len(), 1);
    match &prog[0].0 {
        Stmt::Expr(Expr::If { consequence, .. }) => {
            assert_eq!(consequence.len(), 1);
            assert!(matches!(consequence[0].0, Stmt::Expr(Expr::If { .. })));
        }
        other => panic!("expected a conditional, got {:?}", other),
    }
}

#[test]
fn let_is_accepted_in_expression_position() {
    let (prog, errs) = parse("(let x = 1)");
    assert_eq!(errs.len(), 0);
    assert_eq!(
        prog,
        vec![(
            Stmt::Expr(Expr::Let(Ident("x".to_string()), Box::new(int_lit(1)))),
            0usize
        )]
    );
}
