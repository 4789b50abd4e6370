use edr_test::error::SrcLoc;
use edr_test::host::{BufferHost, NativeHost};
use edr_test::interpreter::{interp, interp_expr, Scope};
use edr_test::script::lexer::{lex, Token, TokenType};
use edr_test::script::parser::{parse, AstNode, AstNodeType};
use edr_test::activity::{FILE_DELETE_FUNC, JOIN_FUNC, PRINT_FUNC};

fn parse_src(src: &str) -> Vec<AstNode> {
    let reg = edr_test::registry();
    parse(lex(src).unwrap(), &reg).unwrap()
}

#[test]
fn scope_bindings_overwrite() {
    let mut s = Scope::new();
    assert!(s.get("x").is_none());
    s.insert("x".to_string(), "1".to_string());
    s.insert("y".to_string(), "2".to_string());
    s.insert("x".to_string(), "3".to_string());
    assert_eq!(s.get("x").unwrap().as_str(), "3");
    assert_eq!(s.get("y").unwrap().as_str(), "2");
    assert!(s.get("z").is_none());
}

#[test]
fn buffer_host_join_concatenates() {
    let mut h = BufferHost::new();
    let args = vec!["a".to_string(), "bc".to_string(), "".to_string(), "d".to_string()];
    assert_eq!(h.invoke(JOIN_FUNC, &args).unwrap(), "abcd");
    assert!(h.output.is_empty());
}

#[test]
fn buffer_host_print_captures_lines() {
    let mut h = BufferHost::new();
    let args = vec!["one".to_string(), "two".to_string()];
    assert_eq!(h.invoke(PRINT_FUNC, &args).unwrap(), "ok");
    assert_eq!(h.output, vec!["one".to_string(), "two".to_string()]);
}

#[test]
fn buffer_host_refuses_side_effects() {
    let mut h = BufferHost::new();
    let e = h.invoke(FILE_DELETE_FUNC, &vec!["f".to_string()]).unwrap_err();
    assert_eq!(e, "operation not available without side effects");
}

#[test]
fn interp_runs_statements_in_order() {
    let ast = parse_src("print \"1\"\nprint \"2\"");
    let mut h = BufferHost::new();
    interp(&ast, &mut h).unwrap();
    assert_eq!(h.output, vec!["1".to_string(), "2".to_string()]);
}

#[test]
fn interp_of_empty_program_succeeds() {
    let ast: Vec<AstNode> = Vec::new();
    let mut h = BufferHost::new();
    interp(&ast, &mut h).unwrap();
    assert!(h.output.is_empty());
}

#[test]
fn interp_expr_evaluates_leaves_and_calls() {
    let mut scope = Scope::new();
    scope.insert("name".to_string(), "value".to_string());
    let mut h = BufferHost::new();
    let ast = parse_src("join \"a\" \"b\"");
    let v = interp_expr(&ast[0], &scope, &mut h).unwrap();
    assert_eq!(v, "ab");
}

#[test]
fn interp_expr_reports_undefined_variable() {
    let scope = Scope::new();
    let mut h = BufferHost::new();
    let ast = parse_src("join nothere");
    let e = interp_expr(&ast[0], &scope, &mut h).unwrap_err();
    assert_eq!(e.msg, "undefined variable");
    assert_eq!((e.loc.line, e.loc.col), (0, 5));
}

#[test]
fn parsed_assignment_shape() {
    let ast = parse_src("x = \"v\"");
    assert_eq!(ast.len(), 1);
    match &ast[0].t {
        AstNodeType::Assignment(name, value) => {
            assert_eq!(name, "x");
            assert!(matches!(value.t, AstNodeType::Str(_)));
        },
        _ => panic!("expected an assignment"),
    }
    assert_eq!((ast[0].loc.line, ast[0].loc.col), (0, 0));
}

#[test]
fn parsed_call_resolves_to_handle() {
    let ast = parse_src("print \"v\"");
    match &ast[0].t {
        AstNodeType::Call(func, args) => {
            assert_eq!(*func, PRINT_FUNC);
            assert_eq!(args.len(), 1);
        },
        _ => panic!("expected a call"),
    }
}

#[test]
fn running_out_of_tokens_reported() {
    let reg = edr_test::registry();
    let toks = vec![Token {
        loc: SrcLoc { line: 0, col: 0 },
        t: TokenType::Id("print".to_string()),
    }];
    let e = parse(toks, &reg).unwrap_err();
    assert_eq!(e.msg, "unexpected eof");
}

#[test]
fn parse_of_no_tokens_is_an_empty_program() {
    let reg = edr_test::registry();
    let ast = parse(Vec::new(), &reg).unwrap();
    assert!(ast.is_empty());
}
