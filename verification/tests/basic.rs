use edr_test::exec;
use edr_test::host::BufferHost;

#[test]
fn garbage_fails_to_run() {
    let mut host = BufferHost::new();
    assert!(matches!(exec("garbage", &mut host), Err(_)));
}

#[test]
fn assignment_read_round_trip() {
    let mut host = BufferHost::new();
    exec("greeting = \"hi\"\nprint greeting", &mut host).unwrap();
    assert_eq!(host.output.len(), 1);
    assert_eq!(host.output[0], "hi");
}

#[test]
fn join_binds_concatenation() {
    let mut host = BufferHost::new();
    exec("x = join \"a\" \"b\" \"c\"\nprint x", &mut host).unwrap();
    assert_eq!(host.output, vec!["abc".to_string()]);
}

#[test]
fn comment_and_blank_line_are_no_ops() {
    let mut host = BufferHost::new();
    exec("# comment\n\nprint \"ok\"", &mut host).unwrap();
    assert_eq!(host.output, vec!["ok".to_string()]);
}

#[test]
fn empty_input_succeeds() {
    let mut host = BufferHost::new();
    exec("", &mut host).unwrap();
    assert!(host.output.is_empty());
}

#[test]
fn unknown_function_fails_before_effects() {
    let mut host = BufferHost::new();
    let e = exec("nosuch \"a\"\nprint \"b\"", &mut host).unwrap_err();
    assert_eq!(e.msg, "function not found");
    assert_eq!(e.loc.line, 0);
    assert_eq!(e.loc.col, 0);
    assert!(host.output.is_empty());
}

#[test]
fn missing_arguments_reported() {
    let mut host = BufferHost::new();
    let e = exec("print", &mut host).unwrap_err();
    assert_eq!(e.msg, "missing arguments, expected 1");
}

#[test]
fn too_many_arguments_reported() {
    let mut host = BufferHost::new();
    let e = exec("print \"a\" \"b\"", &mut host).unwrap_err();
    assert_eq!(e.msg, "too many arguments, expected 1");
}

#[test]
fn variadic_accepts_any_count_at_or_above_minimum() {
    let mut host = BufferHost::new();
    exec("x = join\nprint x", &mut host).unwrap();
    exec("y = join \"only\"\nprint y", &mut host).unwrap();
    exec("z = join \"a\" \"b\" \"c\" \"d\" \"e\"\nprint z", &mut host).unwrap();
    assert_eq!(
        host.output,
        vec!["".to_string(), "only".to_string(), "abcde".to_string()]
    );
}

#[test]
fn undefined_variable_reported_at_its_token() {
    let mut host = BufferHost::new();
    let e = exec("print missing", &mut host).unwrap_err();
    assert_eq!(e.msg, "undefined variable");
    assert_eq!(e.loc.line, 0);
    assert_eq!(e.loc.col, 6);
    assert!(host.output.is_empty());
}

#[test]
fn unterminated_literal_reported_at_opening_quote() {
    let mut host = BufferHost::new();
    let e = exec("x = \"abc", &mut host).unwrap_err();
    assert_eq!(e.msg, "missing closing quotation mark");
    assert_eq!(e.loc.line, 0);
    assert_eq!(e.loc.col, 4);
}

#[test]
fn invalid_character_reported() {
    let mut host = BufferHost::new();
    let e = exec("print %", &mut host).unwrap_err();
    assert_eq!(e.msg, "invalid character");
    assert_eq!(e.loc.col, 6);
}

#[test]
fn colon_shorthand_is_a_string_literal() {
    let mut host = BufferHost::new();
    exec("print :word", &mut host).unwrap();
    assert_eq!(host.output, vec!["word".to_string()]);
}

#[test]
fn assignment_from_call_binds_result() {
    let mut host = BufferHost::new();
    exec("x = print \"a\"\nprint x", &mut host).unwrap();
    assert_eq!(host.output, vec!["a".to_string(), "ok".to_string()]);
}

#[test]
fn statement_must_end_with_line() {
    let mut host = BufferHost::new();
    let e = exec("x = \"a\" \"b\"", &mut host).unwrap_err();
    assert_eq!(e.msg, "expected end of line, got string");
    assert_eq!(e.loc.col, 8);
}

#[test]
fn assignment_needs_a_value() {
    let mut host = BufferHost::new();
    let e = exec("x =", &mut host).unwrap_err();
    assert_eq!(e.msg, "expected a value");
}

#[test]
fn bare_identifier_rhs_is_a_call() {
    let mut host = BufferHost::new();
    let e = exec("x = greeting", &mut host).unwrap_err();
    assert_eq!(e.msg, "function not found");
    assert_eq!(e.loc.col, 4);
}

#[test]
fn side_effect_operations_refused_by_buffer_host() {
    let mut host = BufferHost::new();
    let e = exec("file.create :file \"somewhere\"", &mut host).unwrap_err();
    assert_eq!(e.msg, "operation not available without side effects");
    assert_eq!(e.loc.col, 0);
}

#[test]
fn crlf_lines_are_plain_lines() {
    let mut host = BufferHost::new();
    exec("print \"a\"\r\nprint \"b\"", &mut host).unwrap();
    assert_eq!(host.output, vec!["a".to_string(), "b".to_string()]);
}

#[test]
fn first_failing_statement_keeps_earlier_effects() {
    let mut host = BufferHost::new();
    let e = exec("print \"done\"\nprint missing", &mut host).unwrap_err();
    assert_eq!(e.msg, "undefined variable");
    assert_eq!(host.output, vec!["done".to_string()]);
}

#[test]
fn statement_cannot_open_with_a_literal() {
    let mut host = BufferHost::new();
    let e = exec("\"x\"", &mut host).unwrap_err();
    assert_eq!(e.msg, "unexpected token string in statement");
    assert_eq!(e.loc.col, 0);
}

#[test]
fn blank_lines_only_succeed() {
    let mut host = BufferHost::new();
    exec("\n\n\n", &mut host).unwrap();
    assert!(host.output.is_empty());
}

#[test]
fn later_assignment_overwrites() {
    let mut host = BufferHost::new();
    exec("x = \"a\"\nx = \"b\"\nprint x", &mut host).unwrap();
    assert_eq!(host.output, vec!["b".to_string()]);
}
