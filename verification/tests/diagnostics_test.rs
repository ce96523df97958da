use uwu::diagnostics::{create_diagnostic, underline};

#[test]
fn test_minimal_create() {
    assert_eq!(
        create_diagnostic(
            "test.uwu",
            "window",
            [2, 2],
            "no item named `window` found in scope.",
            "associated item `window` is not declared"
        ),
        r#"
error[ERRCODE]: no item named `window` found in scope.
--> test.uwu:2:2
    |
2   | window
    | -- associated item `window` is not declared
    "#
    );
}

#[test]
fn underline_length_matches_column() {
    assert_eq!(underline(0), "");
    assert_eq!(underline(1), "-");
    assert_eq!(underline(5), "-----");
}

#[test]
fn diagnostic_carries_line_and_column() {
    let d = create_diagnostic("main.uwu", "x", [12, 34], "boom", "here");
    assert!(d.contains("--> main.uwu:12:34"));
    assert!(d.contains("12   | x"));
}
