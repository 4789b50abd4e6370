use vstd::prelude::*;

verus! {

use crate::error::{Error, ErrorV, LocV, SrcLoc};

/// What a single token is: an identifier, a string literal, `=`, the end of
/// a line or the end of the input.
#[derive(Debug, Clone)]
pub enum TokenType {
    Id(String),
    Str(String),
    Eql,
    Eol,
    Eof,
}

/// A token together with the 0-based position of its first character.
#[derive(Debug, Clone)]
pub struct Token {
    pub loc: SrcLoc,
    pub t: TokenType,
}

/// Mathematical image of a token kind.
pub enum TokenTypeV {
    Id(Seq<char>),
    Str(Seq<char>),
    Eql,
    Eol,
    Eof,
}

/// Mathematical image of a token.
pub struct TokenV {
    pub loc: LocV,
    pub t: TokenTypeV,
}

impl View for TokenType {
    type V = TokenTypeV;

    open spec fn view(&self) -> TokenTypeV {
        match self {
            TokenType::Id(s) => TokenTypeV::Id(s@),
            TokenType::Str(s) => TokenTypeV::Str(s@),
            TokenType::Eql => TokenTypeV::Eql,
            TokenType::Eol => TokenTypeV::Eol,
            TokenType::Eof => TokenTypeV::Eof,
        }
    }
}

impl View for Token {
    type V = TokenV;

    open spec fn view(&self) -> TokenV {
        TokenV { loc: self.loc@, t: self.t@ }
    }
}

impl DeepView for Token {
    type V = TokenV;

    open spec fn deep_view(&self) -> TokenV {
        self.view()
    }
}

/// A token at a given line and column.
pub open spec fn tok(line: int, col: int, t: TokenTypeV) -> TokenV {
    TokenV { loc: LocV { line, col }, t }
}

/// An error at a given line and column.
pub open spec fn err_at(line: int, col: int, msg: Seq<char>) -> ErrorV {
    ErrorV { loc: LocV { line, col }, msg }
}

/// Space and tab separate tokens and are otherwise ignored.
pub open spec fn sp_is_space(c: char) -> bool {
    c == ' ' || c == '\t'
}

/// Characters that may continue an identifier: ASCII letters, underscore
/// and the dot of dotted operation names.
pub open spec fn sp_is_ident_char(c: char) -> bool {
    (97 <= c as u32 <= 122) || (65 <= c as u32 <= 90) || c == '_' || c == '.'
}

/// Characters that may open an identifier: as above but without the dot.
pub open spec fn sp_is_ident_start(c: char) -> bool {
    (97 <= c as u32 <= 122) || (65 <= c as u32 <= 90) || c == '_'
}

/// Offset of the first occurrence of `c` at or after `i`, or the length of
/// the text when there is none.
pub open spec fn sp_find(text: Seq<char>, i: int, c: char) -> int
    decreases text.len() - i,
{
    if i >= text.len() {
        text.len() as int
    } else if text[i] == c {
        i
    } else {
        sp_find(text, i + 1, c)
    }
}

pub proof fn lemma_find_bounds(text: Seq<char>, i: int, c: char)
    requires
        0 <= i <= text.len(),
    ensures
        i <= sp_find(text, i, c) <= text.len(),
        sp_find(text, i, c) < text.len() ==> text[sp_find(text, i, c)] == c,
        forall|k: int| i <= k < sp_find(text, i, c) ==> text[k] != c,
    decreases text.len() - i,
{
    if i < text.len() && text[i] != c {
        lemma_find_bounds(text, i + 1, c);
    }
}

pub proof fn lemma_find_run(text: Seq<char>, i: int, j: int, c: char)
    requires
        0 <= i <= j <= text.len(),
        forall|k: int| i <= k < j ==> text[k] != c,
        j == text.len() || text[j] == c,
    ensures
        sp_find(text, i, c) == j,
    decreases j - i,
{
    if i < j {
        lemma_find_run(text, i + 1, j, c);
    }
}

/// Number of identifier characters running from position `i` on.
pub open spec fn sp_ident_len(line: Seq<char>, i: int) -> int
    decreases line.len() - i,
{
    if i < 0 || i >= line.len() || !sp_is_ident_char(line[i]) {
        0
    } else {
        1 + sp_ident_len(line, i + 1)
    }
}

pub proof fn lemma_ident_len_bounds(line: Seq<char>, i: int)
    requires
        0 <= i <= line.len(),
    ensures
        0 <= sp_ident_len(line, i),
        i + sp_ident_len(line, i) <= line.len(),
    decreases line.len() - i,
{
    if i < line.len() && sp_is_ident_char(line[i]) {
        lemma_ident_len_bounds(line, i + 1);
    }
}

pub proof fn lemma_ident_run(line: Seq<char>, i: int, j: int)
    requires
        0 <= i <= j <= line.len(),
        forall|k: int| i <= k < j ==> sp_is_ident_char(line[k]),
        j == line.len() || !sp_is_ident_char(line[j]),
    ensures
        sp_ident_len(line, i) == j - i,
    decreases j - i,
{
    if i < j {
        lemma_ident_run(line, i + 1, j);
    }
}

/// Prefixing a token to the outcome of lexing the rest.
pub open spec fn sp_cons(t: TokenV, rest: Result<Seq<TokenV>, ErrorV>) -> Result<
    Seq<TokenV>,
    ErrorV,
> {
    match rest {
        Ok(ts) => Ok(seq![t] + ts),
        Err(e) => Err(e),
    }
}

/// Tokens of one line from column `col` on, or the first lexical error.
/// Whitespace is skipped, `#` discards the rest of the line, `"` opens a
/// literal that must close before the line ends, `:` turns the identifier
/// run after it into a string literal, letters and underscore open an
/// identifier, `=` stands alone, and anything else is an invalid character.
pub open spec fn sp_lex_line(line: Seq<char>, lineno: int, col: int) -> Result<Seq<TokenV>, ErrorV>
    decreases line.len() - col,
{
    if col < 0 || col >= line.len() {
        Ok(Seq::empty())
    } else {
        let c = line[col];
        if sp_is_space(c) {
            sp_lex_line(line, lineno, col + 1)
        } else if c == '#' {
            Ok(Seq::empty())
        } else if c == '"' {
            let j = sp_find(line, col + 1, '"');
            if j >= line.len() {
                Err(err_at(lineno, col, "missing closing quotation mark"@))
            } else {
                proof {
                    lemma_find_bounds(line, col + 1, '"');
                }
                sp_cons(
                    tok(lineno, col, TokenTypeV::Str(line.subrange(col + 1, j))),
                    sp_lex_line(line, lineno, j + 1),
                )
            }
        } else if c == ':' {
            let j = col + 1 + sp_ident_len(line, col + 1);
            proof {
                lemma_ident_len_bounds(line, col + 1);
            }
            sp_cons(
                tok(lineno, col, TokenTypeV::Str(line.subrange(col + 1, j))),
                sp_lex_line(line, lineno, j),
            )
        } else if sp_is_ident_start(c) {
            let j = col + 1 + sp_ident_len(line, col + 1);
            proof {
                lemma_ident_len_bounds(line, col + 1);
            }
            sp_cons(
                tok(lineno, col, TokenTypeV::Id(line.subrange(col, j))),
                sp_lex_line(line, lineno, j),
            )
        } else if c == '=' {
            sp_cons(tok(lineno, col, TokenTypeV::Eql), sp_lex_line(line, lineno, col + 1))
        } else {
            Err(err_at(lineno, col, "invalid character"@))
        }
    }
}

/// A carriage return directly before the line break is not part of the line.
pub open spec fn sp_strip_cr(l: Seq<char>) -> Seq<char> {
    if l.len() > 0 && l.last() == '\r' {
        l.drop_last()
    } else {
        l
    }
}

/// The physical lines of the text from position `i` on: split at `'\n'`,
/// with no final empty line when the text ends in a break.
pub open spec fn sp_lines_from(text: Seq<char>, i: int) -> Seq<Seq<char>>
    decreases text.len() - i,
{
    if i < 0 || i >= text.len() {
        Seq::empty()
    } else {
        let j = sp_find(text, i, '\n');
        if j >= text.len() {
            seq![text.subrange(i, text.len() as int)]
        } else {
            proof {
                lemma_find_bounds(text, i, '\n');
            }
            seq![sp_strip_cr(text.subrange(i, j))] + sp_lines_from(text, j + 1)
        }
    }
}

/// The physical lines of a whole text.
pub open spec fn sp_lines(text: Seq<char>) -> Seq<Seq<char>> {
    sp_lines_from(text, 0)
}

/// Token stream of a sequence of lines, an `Eol` token closing each line.
pub open spec fn sp_lex_lines(lines: Seq<Seq<char>>, lineno: int) -> Result<Seq<TokenV>, ErrorV>
    decreases lines.len(),
{
    if lines.len() == 0 {
        Ok(Seq::empty())
    } else {
        match sp_lex_line(lines[0], lineno, 0) {
            Err(e) => Err(e),
            Ok(ts) => match sp_lex_lines(lines.skip(1), lineno + 1) {
                Err(e) => Err(e),
                Ok(rest) => Ok(
                    ts + seq![tok(lineno, lines[0].len() as int, TokenTypeV::Eol)] + rest,
                ),
            },
        }
    }
}

/// The token stream of a whole source text, closed by `Eof`, or the first
/// lexical error.
pub open spec fn sp_lex(text: Seq<char>) -> Result<Seq<TokenV>, ErrorV> {
    match sp_lex_lines(sp_lines(text), 0) {
        Err(e) => Err(e),
        Ok(ts) => Ok(ts.push(tok(sp_lines(text).len() as int, 0, TokenTypeV::Eof))),
    }
}

/// Prefixing already-lexed tokens to the outcome of lexing the rest.
pub open spec fn sp_res_prepend(pre: Seq<TokenV>, r: Result<Seq<TokenV>, ErrorV>) -> Result<
    Seq<TokenV>,
    ErrorV,
> {
    match r {
        Ok(ts) => Ok(pre + ts),
        Err(e) => Err(e),
    }
}

fn is_space(c: char) -> (b: bool)
    ensures
        b == sp_is_space(c),
{
    c == ' ' || c == '\t'
}

fn is_ident_char(c: char) -> (b: bool)
    ensures
        b == sp_is_ident_char(c),
{
    let u = c as u32;
    (97 <= u && u <= 122) || (65 <= u && u <= 90) || c == '_' || c == '.'
}

fn is_ident_start(c: char) -> (b: bool)
    ensures
        b == sp_is_ident_start(c),
{
    let u = c as u32;
    (97 <= u && u <= 122) || (65 <= u && u <= 90) || c == '_'
}

/// Splits the source text into its physical lines.
fn split_lines(src: &str) -> (lines: Vec<String>)
    ensures
        lines.deep_view() == sp_lines(src@),
{
    let n = src.unicode_len();
    let mut lines: Vec<String> = Vec::new();
    let mut i: usize = 0;
    proof {
        assert(lines.deep_view() =~= Seq::<Seq<char>>::empty());
    }
    while i < n
        invariant
            n == src@.len(),
            0 <= i <= n,
            sp_lines(src@) == lines.deep_view() + sp_lines_from(src@, i as int),
        decreases n - i,
    {
        let ghost pre = lines.deep_view();
        let mut j: usize = i;
        while j < n && src.get_char(j) != '\n'
            invariant
                n == src@.len(),
                i <= j <= n,
                forall|k: int| i <= k < j ==> src@[k] != '\n',
            decreases n - j,
        {
            j += 1;
        }
        proof {
            lemma_find_run(src@, i as int, j as int, '\n');
        }
        if j == n {
            let line = src.substring_char(i, n).to_owned();
            lines.push(line);
            proof {
                assert(lines.deep_view() =~= pre.push(src@.subrange(i as int, n as int)));
                assert(sp_lines_from(src@, i as int) =~= seq![
                    src@.subrange(i as int, n as int),
                ]);
                assert(sp_lines_from(src@, n as int) =~= Seq::<Seq<char>>::empty());
                assert(lines.deep_view() + sp_lines_from(src@, n as int) =~= pre + sp_lines_from(
                    src@,
                    i as int,
                ));
            }
            i = n;
        } else {
            let has_cr = j > i && src.get_char(j - 1) == '\r';
            let line = if has_cr {
                src.substring_char(i, j - 1).to_owned()
            } else {
                src.substring_char(i, j).to_owned()
            };
            lines.push(line);
            proof {
                let whole = src@.subrange(i as int, j as int);
                if has_cr {
                    assert(whole.len() > 0 && whole.last() == '\r');
                    assert(sp_strip_cr(whole) =~= src@.subrange(i as int, j - 1));
                } else {
                    if whole.len() > 0 {
                        assert(whole.last() == src@[j - 1]);
                    }
                    assert(sp_strip_cr(whole) =~= whole);
                }
                assert(lines.deep_view() =~= pre.push(sp_strip_cr(whole)));
                assert(lines.deep_view() + sp_lines_from(src@, j + 1) =~= pre + sp_lines_from(
                    src@,
                    i as int,
                ));
            }
            i = j + 1;
        }
    }
    proof {
        assert(sp_lines(src@) =~= lines.deep_view());
    }
    lines
}

/// Lexes one line, appending its tokens (without the closing `Eol`).
fn lex_line(line: &str, lineno: usize, toks: &mut Vec<Token>) -> (r: Result<(), Error>)
    ensures
        match r {
            Ok(_) => {
                &&& old(toks).deep_view().len() <= final(toks).deep_view().len()
                &&& final(toks).deep_view().take(old(toks).deep_view().len() as int) == old(
                    toks,
                ).deep_view()
                &&& sp_lex_line(line@, lineno as int, 0) == Ok::<Seq<TokenV>, ErrorV>(
                    final(toks).deep_view().skip(old(toks).deep_view().len() as int),
                )
            },
            Err(e) => sp_lex_line(line@, lineno as int, 0) == Err::<Seq<TokenV>, ErrorV>(e@),
        },
{
    let n = line.unicode_len();
    let ghost base = toks.deep_view();
    let mut col: usize = 0;
    proof {
        assert(toks.deep_view().skip(base.len() as int) =~= Seq::<TokenV>::empty());
        assert(toks.deep_view().take(base.len() as int) =~= base);
    }
    while col < n
        invariant
            n == line@.len(),
            0 <= col <= n,
            base == old(toks).deep_view(),
            base.len() <= toks.deep_view().len(),
            toks.deep_view().take(base.len() as int) == base,
            sp_lex_line(line@, lineno as int, 0) == sp_res_prepend(
                toks.deep_view().skip(base.len() as int),
                sp_lex_line(line@, lineno as int, col as int),
            ),
        decreases n - col,
    {
        let ghost added = toks.deep_view().skip(base.len() as int);
        let ghost c0 = col as int;
        let c = line.get_char(col);
        if is_space(c) {
            col += 1;
        } else if c == '#' {
            proof {
                assert(sp_lex_line(line@, lineno as int, c0) == Ok::<Seq<TokenV>, ErrorV>(
                    Seq::empty(),
                ));
                assert(added + Seq::<TokenV>::empty() =~= added);
                assert(toks.deep_view() =~= base + added);
            }
            return Ok(());
        } else if c == '"' {
            let mut j: usize = col + 1;
            while j < n && line.get_char(j) != '"'
                invariant
                    n == line@.len(),
                    c0 + 1 <= j <= n,
                    forall|k: int| c0 + 1 <= k < j ==> line@[k] != '"',
                decreases n - j,
            {
                j += 1;
            }
            proof {
                lemma_find_run(line@, c0 + 1, j as int, '"');
            }
            if j == n {
                let e = Error {
                    loc: SrcLoc { line: lineno, col },
                    msg: "missing closing quotation mark".to_owned(),
                };
                return Err(e);
            }
            let s = line.substring_char(col + 1, j).to_owned();
            let t = Token { loc: SrcLoc { line: lineno, col }, t: TokenType::Str(s) };
            let ghost tv = t@;
            toks.push(t);
            proof {
                assert(toks.deep_view() =~= base + added.push(tv));
                assert(toks.deep_view().take(base.len() as int) =~= base);
                assert(toks.deep_view().skip(base.len() as int) =~= added.push(tv));
                assert(sp_lex_line(line@, lineno as int, c0) == sp_cons(
                    tv,
                    sp_lex_line(line@, lineno as int, j + 1),
                ));
                assert forall|ts2: Seq<TokenV>|
                    added.push(tv) + ts2 =~= added + (seq![tv] + ts2) by {};
            }
            col = j + 1;
        } else if c == ':' {
            let mut j: usize = col + 1;
            while j < n && is_ident_char(line.get_char(j))
                invariant
                    n == line@.len(),
                    c0 + 1 <= j <= n,
                    forall|k: int| c0 + 1 <= k < j ==> sp_is_ident_char(line@[k]),
                decreases n - j,
            {
                j += 1;
            }
            proof {
                lemma_ident_run(line@, c0 + 1, j as int);
            }
            let s = line.substring_char(col + 1, j).to_owned();
            let t = Token { loc: SrcLoc { line: lineno, col }, t: TokenType::Str(s) };
            let ghost tv = t@;
            toks.push(t);
            proof {
                assert(toks.deep_view() =~= base + added.push(tv));
                assert(toks.deep_view().take(base.len() as int) =~= base);
                assert(toks.deep_view().skip(base.len() as int) =~= added.push(tv));
                assert(sp_lex_line(line@, lineno as int, c0) == sp_cons(
                    tv,
                    sp_lex_line(line@, lineno as int, j as int),
                ));
                assert forall|ts2: Seq<TokenV>|
                    added.push(tv) + ts2 =~= added + (seq![tv] + ts2) by {};
            }
            col = j;
        } else if is_ident_start(c) {
            let mut j: usize = col + 1;
            while j < n && is_ident_char(line.get_char(j))
                invariant
                    n == line@.len(),
                    c0 + 1 <= j <= n,
                    forall|k: int| c0 + 1 <= k < j ==> sp_is_ident_char(line@[k]),
                decreases n - j,
            {
                j += 1;
            }
            proof {
                lemma_ident_run(line@, c0 + 1, j as int);
            }
            let s = line.substring_char(col, j).to_owned();
            let t = Token { loc: SrcLoc { line: lineno, col }, t: TokenType::Id(s) };
            let ghost tv = t@;
            toks.push(t);
            proof {
                assert(toks.deep_view() =~= base + added.push(tv));
                assert(toks.deep_view().take(base.len() as int) =~= base);
                assert(toks.deep_view().skip(base.len() as int) =~= added.push(tv));
                assert(sp_lex_line(line@, lineno as int, c0) == sp_cons(
                    tv,
                    sp_lex_line(line@, lineno as int, j as int),
                ));
                assert forall|ts2: Seq<TokenV>|
                    added.push(tv) + ts2 =~= added + (seq![tv] + ts2) by {};
            }
            col = j;
        } else if c == '=' {
            let t = Token { loc: SrcLoc { line: lineno, col }, t: TokenType::Eql };
            let ghost tv = t@;
            toks.push(t);
            proof {
                assert(toks.deep_view() =~= base + added.push(tv));
                assert(toks.deep_view().take(base.len() as int) =~= base);
                assert(toks.deep_view().skip(base.len() as int) =~= added.push(tv));
                assert(sp_lex_line(line@, lineno as int, c0) == sp_cons(
                    tv,
                    sp_lex_line(line@, lineno as int, c0 + 1),
                ));
                assert forall|ts2: Seq<TokenV>|
                    added.push(tv) + ts2 =~= added + (seq![tv] + ts2) by {};
            }
            col += 1;
        } else {
            let e = Error { loc: SrcLoc { line: lineno, col }, msg: "invalid character".to_owned() };
            return Err(e);
        }
    }
    proof {
        let added = toks.deep_view().skip(base.len() as int);
        assert(sp_lex_line(line@, lineno as int, col as int) == Ok::<Seq<TokenV>, ErrorV>(
            Seq::empty(),
        ));
        assert(added + Seq::<TokenV>::empty() =~= added);
        assert(toks.deep_view() =~= base + added);
    }
    Ok(())
}

/// Lexical analysis of a whole source text: its token stream, closed by an
/// `Eol` for every physical line and a final `Eof`, or the first error.
pub fn lex(src: &str) -> (r: Result<Vec<Token>, Error>)
    ensures
        match r {
            Ok(toks) => sp_lex(src@) == Ok::<Seq<TokenV>, ErrorV>(toks.deep_view()),
            Err(e) => sp_lex(src@) == Err::<Seq<TokenV>, ErrorV>(e@),
        },
{
    let lines = split_lines(src);
    let ghost lv = lines.deep_view();
    let mut toks: Vec<Token> = Vec::new();
    let mut lineno: usize = 0;
    proof {
        assert(lv.skip(0) =~= lv);
        assert(toks.deep_view() =~= Seq::<TokenV>::empty());
        match sp_lex_lines(lv, 0) {
            Ok(ts) => {
                assert(Seq::<TokenV>::empty() + ts =~= ts);
            },
            Err(_) => {},
        }
    }
    while lineno < lines.len()
        invariant
            lv == lines.deep_view(),
            lv == sp_lines(src@),
            0 <= lineno <= lines@.len(),
            lines@.len() == lv.len(),
            sp_lex_lines(lv, 0) == sp_res_prepend(
                toks.deep_view(),
                sp_lex_lines(lv.skip(lineno as int), lineno as int),
            ),
        decreases lines@.len() - lineno,
    {
        let ghost pre = toks.deep_view();
        let ghost rest = lv.skip(lineno as int);
        proof {
            assert(rest[0] == lv[lineno as int]);
            assert(rest.skip(1) =~= lv.skip(lineno + 1));
        }
        let line: &String = &lines[lineno];
        proof {
            assert(line@ == lv[lineno as int]);
        }
        let llen = line.as_str().unicode_len();
        match lex_line(line.as_str(), lineno, &mut toks) {
            Ok(_) => {},
            Err(e) => {
                proof {
                    assert(sp_lex_lines(rest, lineno as int) == Err::<Seq<TokenV>, ErrorV>(e@));
                    assert(sp_lex_lines(lv, 0) == Err::<Seq<TokenV>, ErrorV>(e@));
                }
                return Err(e);
            },
        }
        let ghost ts = toks.deep_view().skip(pre.len() as int);
        proof {
            assert(toks.deep_view() =~= pre + ts);
            assert(sp_lex_line(rest[0], lineno as int, 0) == Ok::<Seq<TokenV>, ErrorV>(ts));
        }
        let eol = Token { loc: SrcLoc { line: lineno, col: llen }, t: TokenType::Eol };
        let ghost ev = eol@;
        toks.push(eol);
        proof {
            assert(toks.deep_view() =~= pre + ts.push(ev));
            assert(ev == tok(lineno as int, lv[lineno as int].len() as int, TokenTypeV::Eol));
            match sp_lex_lines(lv.skip(lineno + 1), lineno + 1) {
                Ok(r2) => {
                    assert(sp_lex_lines(rest, lineno as int) == Ok::<Seq<TokenV>, ErrorV>(
                        ts + seq![ev] + r2,
                    ));
                    assert(pre + (ts + seq![ev] + r2) =~= (pre + ts.push(ev)) + r2);
                },
                Err(e2) => {
                    assert(sp_lex_lines(rest, lineno as int) == Err::<Seq<TokenV>, ErrorV>(e2));
                },
            }
        }
        lineno += 1;
    }
    proof {
        assert(lv.skip(lv.len() as int).len() == 0);
        assert(sp_lex_lines(lv.skip(lv.len() as int), lv.len() as int) == Ok::<
            Seq<TokenV>,
            ErrorV,
        >(Seq::empty()));
        assert(toks.deep_view() + Seq::<TokenV>::empty() =~= toks.deep_view());
    }
    let eof = Token { loc: SrcLoc { line: lines.len(), col: 0 }, t: TokenType::Eof };
    let ghost fv = eof@;
    let ghost pre = toks.deep_view();
    toks.push(eof);
    proof {
        assert(fv == tok(lv.len() as int, 0, TokenTypeV::Eof));
        assert(toks.deep_view() =~= pre.push(fv));
    }
    Ok(toks)
}

/// Law: a string literal whose opening quote is never closed before the end
/// of its line fails lexing, with the error placed at the opening quote.
pub proof fn lemma_unterminated_literal_fails(line: Seq<char>, lineno: int, col: int)
    requires
        0 <= col < line.len(),
        line[col] == '"',
        forall|k: int| col < k < line.len() ==> line[k] != '"',
    ensures
        sp_lex_line(line, lineno, col) == Err::<Seq<TokenV>, ErrorV>(
            err_at(lineno, col, "missing closing quotation mark"@),
        ),
{
    lemma_find_run(line, col + 1, line.len() as int, '"');
}

} // verus!
