use uwu::ast::{Expr, Ident, Literal, Stmt};
use uwu::compiler::{compile_parsed, compile_source, Compiler};
use uwu::parser::parse;

fn compile_ok(src: &str) -> String {
    let (prog, errs) = parse(src);
    assert_eq!(errs.len(), 0);
    Compiler::new(prog).compile().unwrap()
}

fn compile_err(src: &str) -> uwu::compiler::CompileError {
    let (prog, errs) = parse(src);
    assert_eq!(errs.len(), 0);
    Compiler::new(prog).compile().unwrap_err()
}

#[test]
fn compiles_integer_statements() {
    assert_eq!(compile_ok("1"), "1;\n");
    assert_eq!(compile_ok("1; 2"), "1;\n2;\n");
}

#[test]
fn compiles_negative_prefix_and_floats() {
    assert_eq!(compile_ok("-5"), "(-5);\n");
    assert_eq!(compile_ok("190.7"), "190.7;\n");
}

#[test]
fn compiles_infix_with_parentheses() {
    assert_eq!(compile_ok("1 + 2 * 3"), "(1 + (2 * 3));\n");
}

#[test]
fn compiles_let_and_assignment() {
    assert_eq!(compile_ok("let x = 5"), "let x = 5;\n");
    assert_eq!(compile_ok("x = 5"), "x = 5;\n");
}

#[test]
fn compiles_strings_bools_arrays_hashes() {
    assert_eq!(compile_ok("\"hi\""), "\"hi\";\n");
    assert_eq!(compile_ok("true; false"), "true;\nfalse;\n");
    assert_eq!(compile_ok("[1,2]"), "[1,2];\n");
    assert_eq!(compile_ok("{\"k\": 1}"), "{\"k\": 1};\n");
}

#[test]
fn compiles_index_accessor_call_return() {
    assert_eq!(compile_ok("a[0]"), "a[0];\n");
    assert_eq!(compile_ok("a.b"), "a.b;\n");
    assert_eq!(compile_ok("foo(1, x)"), "foo(1,x);\n");
    assert_eq!(compile_ok("return 1"), "return 1;\n");
}

#[test]
fn compiles_conditionals_and_loops() {
    assert_eq!(compile_ok("if(true): 1 end"), "if (true) {\n1;\n};\n");
    assert_eq!(
        compile_ok("if(true): 1 else: 2 end"),
        "if (true) {\n1;\n} else {\n2;\n};\n"
    );
    assert_eq!(compile_ok("while(true): 1 end"), "while (true) {\n1;\n};\n");
}

#[test]
fn compiles_functions_through_the_generator() {
    assert_eq!(compile_ok("fn f(a, b): a end"), "function f(a,b) {\na;\n}\n;\n");
    assert_eq!(compile_ok("fn g(): 1 end"), "function g() {\n1;\n}\n;\n");
}

#[test]
fn compiles_regexp_literals() {
    assert_eq!(compile_ok("/x/"), "/x/;\n");
    assert_eq!(compile_ok("/x/g"), "/x/g;\n");
}

#[test]
fn the_regex_macro_expands_in_call_position() {
    assert_eq!(compile_ok("regex(\"ab\")"), "/ab/;;\n");
}

#[test]
fn macro_misuse_is_a_fatal_located_error() {
    let e = compile_err("regex()");
    assert_eq!(e.msg, "macro usage error");
}

#[test]
fn a_macro_call_with_surplus_arguments_is_an_error() {
    let e = compile_err("regex(\"ab\", \"cd\")");
    assert_eq!(e.msg, "macro usage error");
}

#[test]
fn equal_precedence_compiles_left_associated() {
    assert_eq!(compile_ok("1 + 190.7 - 1"), "((1 + 190.7) - 1);\n");
    assert_eq!(
        compile_source("1 + 190.7 - 1"),
        Ok("((1 + 190.7) - 1);\n".to_string())
    );
}

#[test]
fn an_unterminated_block_fails_compilation() {
    assert!(compile_source("if(true): x").is_err());
    assert!(compile_source("while(true): x").is_err());
}

#[test]
fn a_malformed_numeric_literal_fails_compilation() {
    assert!(compile_source("1.2.3").is_err());
}

#[test]
fn reassigning_an_incompatible_literal_is_an_error() {
    let e = compile_err("x = 5\nx = \"a\"");
    assert_eq!(e.msg, "type mismatch");
    assert_eq!(e.loc, 6);
}

#[test]
fn compatible_reassignment_passes() {
    assert_eq!(compile_ok("x = 5\nx = 6"), "x = 5;\nx = 6;\n");
}

#[test]
fn compile_source_runs_the_whole_pipeline() {
    assert_eq!(compile_source("42"), Ok("42;\n".to_string()));
    assert_eq!(compile_source("190.7"), Ok("190.7;\n".to_string()));
    assert_eq!(compile_source("\"hi\""), Ok("\"hi\";\n".to_string()));
    assert_eq!(compile_source("let x = 1"), Ok("let x = 1;\n".to_string()));
}

#[test]
fn compile_parsed_routes_on_the_error_list() {
    let (prog, errs) = parse("let x = 1");
    assert_eq!(errs.len(), 0);
    assert_eq!(
        compile_parsed("let x = 1", prog, &errs),
        Ok("let x = 1;\n".to_string())
    );
    let (prog2, errs2) = parse("(1+2)(3)");
    assert!(errs2.len() > 0);
    let rendered = compile_parsed("(1+2)(3)", prog2, &errs2).unwrap_err();
    assert!(rendered.contains("unexpected token"));
    assert!(rendered.contains("main.uwu"));
}

#[test]
fn compile_source_renders_parse_errors_as_diagnostics() {
    let e = compile_source("(1+2)(3)").unwrap_err();
    assert!(e.contains("unexpected token"));
    assert!(e.contains("main.uwu"));
}

#[test]
fn compile_source_renders_compile_errors_as_diagnostics() {
    let e = compile_source("regex()").unwrap_err();
    assert!(e.contains("macro usage error"));
}

#[test]
fn an_unknown_macro_node_is_a_fatal_error() {
    let prog = vec![(
        Stmt::Expr(Expr::Macro {
            name: Box::new(Expr::Ident(Ident("nope".to_string()))),
            args: vec![],
        }),
        7usize,
    )];
    let e = Compiler::new(prog).compile().unwrap_err();
    assert_eq!(e.msg, "unknown macro");
    assert_eq!(e.loc, 7);
}

#[test]
fn a_macro_node_with_a_string_argument_expands() {
    let prog = vec![(
        Stmt::Expr(Expr::Macro {
            name: Box::new(Expr::Ident(Ident("regex".to_string()))),
            args: vec![Expr::Literal(Literal::String("ab".to_string()))],
        }),
        0usize,
    )];
    assert_eq!(Compiler::new(prog).compile().unwrap(), "/ab/;;\n");
}

#[test]
fn division_compiles_with_parentheses() {
    assert_eq!(compile_ok("a / b"), "(a / b);\n");
}

#[test]
fn an_anonymous_function_emits_an_empty_name() {
    assert_eq!(compile_ok("fn (a): a end"), "function (a) {\na;\n}\n;\n");
}
