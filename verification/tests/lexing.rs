use edr_test::script::lexer::{lex, Token, TokenType};

fn kinds(toks: &[Token]) -> String {
    let mut s = String::new();
    for t in toks {
        let k = match &t.t {
            TokenType::Id(v) => format!("I({})", v),
            TokenType::Str(v) => format!("S({})", v),
            TokenType::Eql => "=".to_string(),
            TokenType::Eol => "L".to_string(),
            TokenType::Eof => "F".to_string(),
        };
        s.push_str(&k);
        s.push(' ');
    }
    s.trim_end().to_string()
}

#[test]
fn tokens_and_locations() {
    let toks = lex("a = \"b\"").unwrap();
    assert_eq!(kinds(&toks), "I(a) = S(b) L F");
    assert_eq!((toks[0].loc.line, toks[0].loc.col), (0, 0));
    assert_eq!((toks[1].loc.line, toks[1].loc.col), (0, 2));
    assert_eq!((toks[2].loc.line, toks[2].loc.col), (0, 4));
    assert_eq!((toks[3].loc.line, toks[3].loc.col), (0, 7));
    assert_eq!((toks[4].loc.line, toks[4].loc.col), (1, 0));
}

#[test]
fn comment_discards_rest_of_line() {
    let toks = lex("# print \"x\"").unwrap();
    assert_eq!(kinds(&toks), "L F");
}

#[test]
fn empty_input_gives_only_end_of_input() {
    let toks = lex("").unwrap();
    assert_eq!(kinds(&toks), "F");
    assert_eq!((toks[0].loc.line, toks[0].loc.col), (0, 0));
}

#[test]
fn colon_shorthand_lexes_as_string() {
    let toks = lex(":file.create_x").unwrap();
    assert_eq!(kinds(&toks), "S(file.create_x) L F");
}

#[test]
fn dotted_identifier_is_one_token() {
    let toks = lex("network.transmit").unwrap();
    assert_eq!(kinds(&toks), "I(network.transmit) L F");
}

#[test]
fn whitespace_only_separates() {
    let toks = lex("a\tb  c").unwrap();
    assert_eq!(kinds(&toks), "I(a) I(b) I(c) L F");
}

#[test]
fn quoted_literal_keeps_spaces_and_marks() {
    let toks = lex("\"hello # = world\"").unwrap();
    assert_eq!(kinds(&toks), "S(hello # = world) L F");
}

#[test]
fn unterminated_literal_is_a_lex_error() {
    let e = lex("go \"oops").unwrap_err();
    assert_eq!(e.msg, "missing closing quotation mark");
    assert_eq!((e.loc.line, e.loc.col), (0, 3));
}

#[test]
fn invalid_character_is_a_lex_error() {
    let e = lex("a\n!").unwrap_err();
    assert_eq!(e.msg, "invalid character");
    assert_eq!((e.loc.line, e.loc.col), (1, 0));
}

#[test]
fn every_line_contributes_an_end_of_line() {
    let toks = lex("a\n\nb\n").unwrap();
    assert_eq!(kinds(&toks), "I(a) L L I(b) L F");
    assert_eq!((toks[5].loc.line, toks[5].loc.col), (3, 0));
}
