use vstd::prelude::*;

pub mod lexer;
pub mod parser;

verus! {

use crate::error::{Error, ErrorV};
use crate::host::NativeHost;
use crate::interpreter::{interp, sp_exec_stmts};
use crate::registry::{ElemV, Registry};
use crate::script::lexer::{lex, sp_lex, tok, TokenTypeV, TokenV};
use crate::script::parser::{parse, sp_parse, AstV};

/// Outcome of a whole run of a source text against a registry, from a
/// given host state: the host state after it, and success or the first
/// error of any phase. Lexing and parsing leave the host untouched.
pub open spec fn sp_exec_script<H: NativeHost>(text: Seq<char>, reg: Seq<ElemV>, st: H::V) -> (
    H::V,
    Result<(), ErrorV>,
) {
    match sp_lex(text) {
        Err(e) => (st, Err(e)),
        Ok(toks) => match sp_parse(toks, 0, reg) {
            Err(e) => (st, Err(e)),
            Ok(stmts) => sp_exec_stmts::<H>(stmts, Map::empty(), st),
        },
    }
}

/// Runs a script front to back: lexing, parsing against the registry, then
/// interpretation against the host. The first error of any phase aborts
/// the run; an error before interpretation leaves the host untouched.
pub fn exec<H: NativeHost>(src: &str, registry: &Registry, host: &mut H) -> (r: Result<(), Error>)
    ensures
        ({
            let (st2, res) = sp_exec_script::<H>(src@, registry@, old(host)@);
            final(host)@ == st2 && match r {
                Ok(_) => res == Ok::<(), ErrorV>(()),
                Err(e) => res == Err::<(), ErrorV>(e@),
            }
        }),
{
    let tokens = match lex(src) {
        Err(e) => {
            return Err(e);
        },
        Ok(t) => t,
    };
    let ast = match parse(tokens, registry) {
        Err(e) => {
            return Err(e);
        },
        Ok(a) => a,
    };
    interp(&ast, host)
}

/// Law: an empty input lexes to the bare end-of-input token, an empty
/// token sequence parses to an empty program, interpreting an empty
/// program succeeds from any scope and host state without touching them,
/// and so a whole run of the empty input succeeds and moves nothing.
pub proof fn lemma_empty_program_trivial<H: NativeHost>(
    reg: Seq<ElemV>,
    scope: Map<Seq<char>, Seq<char>>,
    st: H::V,
)
    ensures
        sp_lex(Seq::empty()) == Ok::<Seq<TokenV>, ErrorV>(seq![tok(0, 0, TokenTypeV::Eof)]),
        sp_parse(Seq::empty(), 0, reg) == Ok::<Seq<AstV>, ErrorV>(Seq::empty()),
        sp_exec_stmts::<H>(Seq::empty(), scope, st) == (st, Ok::<(), ErrorV>(())),
        sp_exec_script::<H>(Seq::empty(), reg, st) == (st, Ok::<(), ErrorV>(())),
{
    assert(Seq::<char>::empty().len() == 0);
    assert(Seq::<TokenV>::empty().push(tok(0, 0, TokenTypeV::Eof)) =~= seq![
        tok(0, 0, TokenTypeV::Eof),
    ]);
    let toks = seq![tok(0, 0, TokenTypeV::Eof)];
    assert(toks[0] == tok(0, 0, TokenTypeV::Eof));
    assert(sp_parse(toks, 0, reg) == Ok::<Seq<AstV>, ErrorV>(Seq::empty()));
}

} // verus!
