use edr_test::error::SrcLoc;
use edr_test::registry::{ok, Registry};
use edr_test::text::{str_eq, usize_dec};

fn loc() -> SrcLoc {
    SrcLoc { line: 0, col: 0 }
}

#[test]
fn register_and_lookup() {
    let mut r = Registry::default();
    r.register("greet", &["who"], 7);
    let e = r.lookup("greet").unwrap();
    assert_eq!(e.name, "greet");
    assert_eq!(e.args, vec!["who".to_string()]);
    assert!(r.lookup("other").is_none());
    assert_eq!(r.funcs().len(), 1);
}

#[test]
fn lookup_with_err_resolves_exact_arity() {
    let mut r = Registry::default();
    r.register("pair", &["a", "b"], 3);
    assert_eq!(r.lookup_with_err(loc(), "pair", 2).unwrap(), 3);
    let e = r.lookup_with_err(loc(), "pair", 1).unwrap_err();
    assert_eq!(e.msg, "missing arguments, expected 2");
    let e = r.lookup_with_err(loc(), "pair", 3).unwrap_err();
    assert_eq!(e.msg, "too many arguments, expected 2");
}

#[test]
fn lookup_with_err_unknown_name() {
    let r = Registry::default();
    let e = r.lookup_with_err(SrcLoc { line: 2, col: 5 }, "nope", 0).unwrap_err();
    assert_eq!(e.msg, "function not found");
    assert_eq!((e.loc.line, e.loc.col), (2, 5));
}

#[test]
fn variadic_tail_sets_minimum_only() {
    let mut r = Registry::default();
    r.register("many", &["first", "*rest"], 0);
    assert!(r.lookup_with_err(loc(), "many", 1).is_ok());
    assert!(r.lookup_with_err(loc(), "many", 9).is_ok());
    let e = r.lookup_with_err(loc(), "many", 0).unwrap_err();
    assert_eq!(e.msg, "missing arguments, expected 1");
}

#[test]
fn wide_arity_renders_multi_digit_numbers() {
    let mut r = Registry::default();
    r.register(
        "wide",
        &["a", "b", "c", "d", "e", "f", "g", "h", "i", "j", "k"],
        0,
    );
    let e = r.lookup_with_err(loc(), "wide", 2).unwrap_err();
    assert_eq!(e.msg, "missing arguments, expected 11");
}

#[test]
fn ok_is_the_conventional_success() {
    assert_eq!(ok().unwrap(), "ok");
}

#[test]
fn decimal_rendering() {
    assert_eq!(usize_dec(0), "0");
    assert_eq!(usize_dec(7), "7");
    assert_eq!(usize_dec(10), "10");
    assert_eq!(usize_dec(90107), "90107");
}

#[test]
fn string_equality_by_characters() {
    assert!(str_eq("", ""));
    assert!(str_eq("abc", "abc"));
    assert!(!str_eq("abc", "abd"));
    assert!(!str_eq("abc", "abcd"));
}

#[test]
fn default_registry_knows_all_operations() {
    let r = edr_test::registry();
    for name in [
        "file.create",
        "file.modify",
        "file.delete",
        "process.spawn",
        "network.transmit",
        "join",
        "print",
    ] {
        assert!(r.lookup(name).is_some(), "{} missing", name);
    }
}
