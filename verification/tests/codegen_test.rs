use uwu::codegen::{BaseGenerator, FunctionGenerator};

#[test]
fn assembles_a_function_in_order() {
    let mut g = FunctionGenerator::new();
    g.set_name("add".to_string());
    g.set_param("a".to_string());
    g.set_param("b".to_string());
    g.set_block("return (a + b);\n".to_string());
    assert_eq!(g.generate(), "function add(a,b) {\nreturn (a + b);\n}\n");
}

#[test]
fn zero_parameters_still_finalize() {
    let mut g = FunctionGenerator::new();
    g.set_name("f".to_string());
    g.set_block("".to_string());
    assert_eq!(g.generate(), "function f() {\n}\n");
}

#[test]
fn a_parameter_before_the_name_is_a_no_op() {
    let mut g = FunctionGenerator::new();
    g.set_param("a".to_string());
    assert_eq!(g.generate(), "function");
}

#[test]
fn a_block_before_the_name_is_a_no_op() {
    let mut g = FunctionGenerator::new();
    g.set_block("body".to_string());
    assert_eq!(g.generate(), "function");
}

#[test]
fn a_fresh_generator_holds_the_keyword() {
    let mut g = FunctionGenerator::new();
    assert_eq!(g.generate(), "function");
}
