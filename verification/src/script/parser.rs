use vstd::prelude::*;

verus! {

use crate::error::{Error, ErrorV, LocV, SrcLoc};
use crate::registry::{sp_lookup, sp_resolve, ElemV, Registry};
use crate::script::lexer::{Token, TokenType, TokenTypeV, TokenV};

/// What an AST node is. A statement is an `Assignment` or a `Call`; the
/// leaves are string literals and identifier reads. `Empty` is the internal
/// sentinel with which value parsing reports "no more values"; it never
/// stands in a parsed program.
#[derive(Debug)]
pub enum AstNodeType {
    Assignment(String, Box<AstNode>),
    Call(usize, Vec<AstNode>),
    Str(String),
    Id(String),
    Empty,
}

/// An AST node with the source position it originated from.
#[derive(Debug)]
pub struct AstNode {
    pub loc: SrcLoc,
    pub t: AstNodeType,
}

/// Mathematical image of an AST node kind.
pub enum AstKindV {
    Assignment(Seq<char>, Box<AstV>),
    Call(int, Seq<AstV>),
    Str(Seq<char>),
    Id(Seq<char>),
    Empty,
}

/// Mathematical image of an AST node.
pub struct AstV {
    pub loc: LocV,
    pub kind: AstKindV,
}

/// View of a node standing as a call argument: only the leaves count; the
/// grammar is strictly flat, so anything deeper collapses to `Empty`.
pub open spec fn leaf_view(n: AstNode) -> AstV {
    AstV {
        loc: n.loc@,
        kind: match n.t {
            AstNodeType::Str(s) => AstKindV::Str(s@),
            AstNodeType::Id(s) => AstKindV::Id(s@),
            _ => AstKindV::Empty,
        },
    }
}

/// View of a node standing as an expression: a leaf or a call whose
/// arguments are leaves.
pub open spec fn expr_view(n: AstNode) -> AstV {
    AstV {
        loc: n.loc@,
        kind: match n.t {
            AstNodeType::Str(s) => AstKindV::Str(s@),
            AstNodeType::Id(s) => AstKindV::Id(s@),
            AstNodeType::Call(f, args) => AstKindV::Call(
                f as int,
                args@.map_values(|a: AstNode| leaf_view(a)),
            ),
            _ => AstKindV::Empty,
        },
    }
}

impl View for AstNode {
    type V = AstV;

    open spec fn view(&self) -> AstV {
        match self.t {
            AstNodeType::Assignment(name, v) => AstV {
                loc: self.loc@,
                kind: AstKindV::Assignment(name@, Box::new(expr_view(*v))),
            },
            _ => expr_view(*self),
        }
    }
}

impl DeepView for AstNode {
    type V = AstV;

    open spec fn deep_view(&self) -> AstV {
        self.view()
    }
}

/// A node that may stand as a call argument.
pub open spec fn wf_leaf(a: AstV) -> bool {
    a.kind is Str || a.kind is Id
}

/// A node that may stand as an expression: the grammar is strictly flat,
/// one call at most, with leaf arguments.
pub open spec fn wf_expr(a: AstV) -> bool {
    match a.kind {
        AstKindV::Str(_) => true,
        AstKindV::Id(_) => true,
        AstKindV::Call(f, args) => 0 <= f && forall|i: int|
            0 <= i < args.len() ==> wf_leaf(#[trigger] args[i]),
        _ => false,
    }
}

/// A node that may stand as a statement.
pub open spec fn wf_stmt(a: AstV) -> bool {
    match a.kind {
        AstKindV::Assignment(_name, v) => wf_expr(*v),
        _ => wf_expr(a),
    }
}

/// The token under the cursor, or "unexpected eof" at the last token's
/// position when the cursor has run out.
pub open spec fn sp_get(toks: Seq<TokenV>, i: int) -> Result<TokenV, ErrorV> {
    if 0 <= i < toks.len() {
        Ok(toks[i])
    } else {
        Err(ErrorV { loc: toks.last().loc, msg: "unexpected eof"@ })
    }
}

/// A short description of a token kind, quoted by syntax errors.
pub open spec fn sp_token_desc(t: TokenTypeV) -> Seq<char> {
    match t {
        TokenTypeV::Id(_) => "identifier"@,
        TokenTypeV::Str(_) => "string"@,
        TokenTypeV::Eql => "'='"@,
        TokenTypeV::Eol => "end of line"@,
        TokenTypeV::Eof => "end of input"@,
    }
}

/// Message of the error for a token that cannot open a statement.
pub open spec fn sp_stmt_err_msg(t: TokenTypeV) -> Seq<char> {
    "unexpected token "@ + sp_token_desc(t) + " in statement"@
}

/// Message of the error for a statement not closed by its line's end.
pub open spec fn sp_eol_err_msg(t: TokenTypeV) -> Seq<char> {
    "expected end of line, got "@ + sp_token_desc(t)
}

/// One value: an identifier or literal consumes its token; any other token
/// yields the `Empty` sentinel and leaves the cursor in place.
pub open spec fn sp_parse_value(toks: Seq<TokenV>, cur: int) -> Result<(AstV, int), ErrorV> {
    match sp_get(toks, cur) {
        Err(e) => Err(e),
        Ok(t) => match t.t {
            TokenTypeV::Id(s) => Ok((AstV { loc: t.loc, kind: AstKindV::Id(s) }, cur + 1)),
            TokenTypeV::Str(s) => Ok((AstV { loc: t.loc, kind: AstKindV::Str(s) }, cur + 1)),
            _ => Ok((AstV { loc: t.loc, kind: AstKindV::Empty }, cur)),
        },
    }
}

/// A call's arguments: values are consumed until the next token no longer
/// looks like one.
pub open spec fn sp_parse_args(toks: Seq<TokenV>, cur: int) -> Result<(Seq<AstV>, int), ErrorV>
    decreases toks.len() - cur,
{
    match sp_parse_value(toks, cur) {
        Err(e) => Err(e),
        Ok((val, ncur)) => if val.kind is Empty {
            Ok((Seq::empty(), cur))
        } else {
            match sp_parse_args(toks, ncur) {
                Err(e) => Err(e),
                Ok((rest, ncur2)) => Ok((seq![val] + rest, ncur2)),
            }
        },
    }
}

/// A call: its arguments are parsed, then the target is resolved against
/// the registry at once, so unknown names and arity mismatches surface
/// here, before anything runs.
pub open spec fn sp_parse_call(
    toks: Seq<TokenV>,
    cur: int,
    id: Seq<char>,
    loc: LocV,
    reg: Seq<ElemV>,
) -> Result<(AstV, int), ErrorV> {
    match sp_parse_args(toks, cur) {
        Err(e) => Err(e),
        Ok((args, ncur)) => match sp_resolve(reg, loc, id, args.len() as int) {
            Err(e) => Err(e),
            Ok(f) => Ok((AstV { loc, kind: AstKindV::Call(f, args) }, ncur)),
        },
    }
}

/// One statement: an assignment when `=` follows the opening identifier,
/// otherwise a call. The right-hand side of an assignment is a call when it
/// opens with an identifier, else a bare literal, which must be present.
pub open spec fn sp_parse_stmt(toks: Seq<TokenV>, cur: int, reg: Seq<ElemV>) -> Result<
    (AstV, int),
    ErrorV,
> {
    match sp_get(toks, cur) {
        Err(e) => Err(e),
        Ok(c) => match c.t {
            TokenTypeV::Id(id) => match sp_get(toks, cur + 1) {
                Err(e) => Err(e),
                Ok(next) => match next.t {
                    TokenTypeV::Eql => match sp_get(toks, cur + 2) {
                        Err(e) => Err(e),
                        Ok(c2) => {
                            let rhs_res = match c2.t {
                                TokenTypeV::Id(id2) => sp_parse_call(
                                    toks,
                                    cur + 3,
                                    id2,
                                    c2.loc,
                                    reg,
                                ),
                                _ => sp_parse_value(toks, cur + 2),
                            };
                            match rhs_res {
                                Err(e) => Err(e),
                                Ok((rhs, ncur)) => if rhs.kind is Empty {
                                    Err(ErrorV { loc: rhs.loc, msg: "expected a value"@ })
                                } else {
                                    Ok(
                                        (
                                            AstV {
                                                loc: c.loc,
                                                kind: AstKindV::Assignment(id, Box::new(rhs)),
                                            },
                                            ncur,
                                        ),
                                    )
                                },
                            }
                        },
                    },
                    _ => sp_parse_call(toks, cur + 1, id, c.loc, reg),
                },
            },
            _ => Err(ErrorV { loc: c.loc, msg: sp_stmt_err_msg(c.t) }),
        },
    }
}

pub proof fn lemma_parse_args_bounds(toks: Seq<TokenV>, cur: int)
    ensures
        sp_parse_args(toks, cur) matches Ok((args, ncur)) ==> cur <= ncur <= toks.len(),
    decreases toks.len() - cur,
{
    match sp_parse_value(toks, cur) {
        Err(_) => {},
        Ok((val, ncur)) => {
            if !(val.kind is Empty) {
                lemma_parse_args_bounds(toks, ncur);
            }
        },
    }
}

pub proof fn lemma_parse_stmt_advances(toks: Seq<TokenV>, cur: int, reg: Seq<ElemV>)
    ensures
        sp_parse_stmt(toks, cur, reg) matches Ok((s, ncur)) ==> cur < ncur <= toks.len(),
{
    lemma_parse_args_bounds(toks, cur + 1);
    lemma_parse_args_bounds(toks, cur + 3);
}

/// A whole program: blank lines are skipped, each statement must close with
/// an end of line, and the first error aborts everything.
pub open spec fn sp_parse(toks: Seq<TokenV>, cur: int, reg: Seq<ElemV>) -> Result<
    Seq<AstV>,
    ErrorV,
>
    decreases toks.len() - cur,
{
    if toks.len() == 0 {
        Ok(Seq::empty())
    } else {
        match sp_get(toks, cur) {
            Err(e) => Err(e),
            Ok(next) => match next.t {
                TokenTypeV::Eof => Ok(Seq::empty()),
                TokenTypeV::Eol => sp_parse(toks, cur + 1, reg),
                _ => match sp_parse_stmt(toks, cur, reg) {
                    Err(e) => Err(e),
                    Ok((stmt, ncur)) => {
                        proof {
                            lemma_parse_stmt_advances(toks, cur, reg);
                        }
                        match sp_get(toks, ncur) {
                            Err(e) => Err(e),
                            Ok(n2) => match n2.t {
                                TokenTypeV::Eol => match sp_parse(toks, ncur + 1, reg) {
                                    Err(e) => Err(e),
                                    Ok(rest) => Ok(seq![stmt] + rest),
                                },
                                _ => Err(ErrorV { loc: n2.loc, msg: sp_eol_err_msg(n2.t) }),
                            },
                        }
                    },
                },
            },
        }
    }
}

/// Prefixing already-parsed statements to the outcome of parsing the rest.
pub open spec fn sp_stmts_prepend(pre: Seq<AstV>, r: Result<Seq<AstV>, ErrorV>) -> Result<
    Seq<AstV>,
    ErrorV,
> {
    match r {
        Ok(s) => Ok(pre + s),
        Err(e) => Err(e),
    }
}

fn token_desc(t: &TokenType) -> (s: String)
    ensures
        s@ == sp_token_desc(t@),
{
    match t {
        TokenType::Id(_) => "identifier".to_owned(),
        TokenType::Str(_) => "string".to_owned(),
        TokenType::Eql => "'='".to_owned(),
        TokenType::Eol => "end of line".to_owned(),
        TokenType::Eof => "end of input".to_owned(),
    }
}

fn get_token<'a>(toks: &'a Vec<Token>, i: usize) -> (r: Result<&'a Token, Error>)
    requires
        toks@.len() > 0,
    ensures
        match r {
            Ok(t) => sp_get(toks.deep_view(), i as int) == Ok::<TokenV, ErrorV>(t@),
            Err(e) => sp_get(toks.deep_view(), i as int) == Err::<TokenV, ErrorV>(e@),
        },
{
    if i < toks.len() {
        Ok(&toks[i])
    } else {
        let last = &toks[toks.len() - 1];
        proof {
            assert(last@ == toks.deep_view().last());
        }
        crate::error::error(last.loc, "unexpected eof")
    }
}

fn parse_value(toks: &Vec<Token>, cur: usize) -> (r: Result<(AstNode, usize), Error>)
    requires
        toks@.len() > 0,
    ensures
        match r {
            Ok(p) => sp_parse_value(toks.deep_view(), cur as int) == Ok::<(AstV, int), ErrorV>(
                (p.0@, p.1 as int),
            ),
            Err(e) => sp_parse_value(toks.deep_view(), cur as int) == Err::<(AstV, int), ErrorV>(
                e@,
            ),
        },
{
    let n = toks.len();
    match get_token(toks, cur) {
        Err(e) => Err(e),
        Ok(c) => {
            proof {
                assert(cur < n);
            }
            let loc = c.loc;
            match &c.t {
                TokenType::Id(id) => Ok(
                    (AstNode { loc, t: AstNodeType::Id(id.clone()) }, cur + 1),
                ),
                TokenType::Str(s) => Ok((AstNode { loc, t: AstNodeType::Str(s.clone()) }, cur + 1)),
                _ => Ok((AstNode { loc, t: AstNodeType::Empty }, cur)),
            }
        },
    }
}

fn parse_args(toks: &Vec<Token>, cur: usize) -> (r: Result<(Vec<AstNode>, usize), Error>)
    requires
        toks@.len() > 0,
    ensures
        match r {
            Ok(p) => sp_parse_args(toks.deep_view(), cur as int) == Ok::<
                (Seq<AstV>, int),
                ErrorV,
            >((p.0.deep_view(), p.1 as int)) && forall|i: int|
                0 <= i < p.0.deep_view().len() ==> wf_leaf(#[trigger] p.0.deep_view()[i]),
            Err(e) => sp_parse_args(toks.deep_view(), cur as int) == Err::<
                (Seq<AstV>, int),
                ErrorV,
            >(e@),
        },
    decreases toks@.len() - cur,
{
    match parse_value(toks, cur) {
        Err(e) => Err(e),
        Ok((val, ncur)) => {
            if matches!(&val.t, AstNodeType::Empty) {
                let empty: Vec<AstNode> = Vec::new();
                proof {
                    assert(empty.deep_view() =~= Seq::<AstV>::empty());
                }
                Ok((empty, cur))
            } else {
                match parse_args(toks, ncur) {
                    Err(e) => Err(e),
                    Ok((mut rest, ncur2)) => {
                        let ghost rv = rest.deep_view();
                        let ghost vv = val@;
                        let mut out: Vec<AstNode> = Vec::new();
                        out.push(val);
                        out.append(&mut rest);
                        proof {
                            assert(out.deep_view() =~= seq![vv] + rv);
                        }
                        Ok((out, ncur2))
                    },
                }
            }
        },
    }
}

fn parse_call(toks: &Vec<Token>, cur: usize, id: &str, loc: SrcLoc, registry: &Registry) -> (r:
    Result<(AstNode, usize), Error>)
    requires
        toks@.len() > 0,
    ensures
        match r {
            Ok(p) => sp_parse_call(toks.deep_view(), cur as int, id@, loc@, registry@) == Ok::<
                (AstV, int),
                ErrorV,
            >((p.0@, p.1 as int)) && wf_expr(p.0@),
            Err(e) => sp_parse_call(toks.deep_view(), cur as int, id@, loc@, registry@) == Err::<
                (AstV, int),
                ErrorV,
            >(e@),
        },
{
    match parse_args(toks, cur) {
        Err(e) => Err(e),
        Ok((args, ncur)) => {
            match registry.lookup_with_err(loc, id, args.len()) {
                Err(e) => Err(e),
                Ok(func) => {
                    proof {
                        assert forall|i: int| 0 <= i < args@.len() implies leaf_view(
                            #[trigger] args@[i],
                        ) == args.deep_view()[i] by {
                            assert(wf_leaf(args.deep_view()[i]));
                        }
                        assert(args@.map_values(|a: AstNode| leaf_view(a)) =~= args.deep_view());
                    }
                    let node = AstNode { loc, t: AstNodeType::Call(func, args) };
                    Ok((node, ncur))
                },
            }
        },
    }
}

fn parse_stmt(toks: &Vec<Token>, cur: usize, registry: &Registry) -> (r: Result<
    (AstNode, usize),
    Error,
>)
    requires
        toks@.len() > 0,
    ensures
        match r {
            Ok(p) => sp_parse_stmt(toks.deep_view(), cur as int, registry@) == Ok::<
                (AstV, int),
                ErrorV,
            >((p.0@, p.1 as int)) && wf_stmt(p.0@),
            Err(e) => sp_parse_stmt(toks.deep_view(), cur as int, registry@) == Err::<
                (AstV, int),
                ErrorV,
            >(e@),
        },
{
    let n = toks.len();
    let c = match get_token(toks, cur) {
        Err(e) => {
            return Err(e);
        },
        Ok(c) => c,
    };
    proof {
        assert(cur < n);
    }
    let c_loc = c.loc;
    match &c.t {
        TokenType::Id(id) => {
            let id = id.clone();
            let next = match get_token(toks, cur + 1) {
                Err(e) => {
                    return Err(e);
                },
                Ok(t) => t,
            };
            proof {
                assert(cur + 1 < n);
            }
            match &next.t {
                TokenType::Eql => {
                    let c2 = match get_token(toks, cur + 2) {
                        Err(e) => {
                            return Err(e);
                        },
                        Ok(t) => t,
                    };
                    proof {
                        assert(cur + 2 < n);
                    }
                    let c2_loc = c2.loc;
                    let rhs_res = if let TokenType::Id(id2) = &c2.t {
                        parse_call(toks, cur + 3, id2.as_str(), c2_loc, registry)
                    } else {
                        parse_value(toks, cur + 2)
                    };
                    match rhs_res {
                        Err(e) => Err(e),
                        Ok((rhs, ncur)) => {
                            if matches!(&rhs.t, AstNodeType::Empty) {
                                Err(
                                    Error {
                                        loc: rhs.loc,
                                        msg: "expected a value".to_owned(),
                                    },
                                )
                            } else {
                                let node = AstNode {
                                    loc: c_loc,
                                    t: AstNodeType::Assignment(id, Box::new(rhs)),
                                };
                                Ok((node, ncur))
                            }
                        },
                    }
                },
                _ => parse_call(toks, cur + 1, id.as_str(), c_loc, registry),
            }
        },
        _ => {
            let mut msg = "unexpected token ".to_owned();
            let d = token_desc(&c.t);
            msg.append(d.as_str());
            msg.append(" in statement");
            Err(Error { loc: c_loc, msg })
        },
    }
}

/// Grammar analysis of a whole token stream: one statement per line, blank
/// and comment-only lines skipped, every call resolved against the registry
/// here, before anything runs. The first error aborts the whole parse. An
/// empty token stream is an empty program.
pub fn parse(tokens: Vec<Token>, registry: &Registry) -> (r: Result<Vec<AstNode>, Error>)
    ensures
        match r {
            Ok(stmts) => sp_parse(tokens.deep_view(), 0, registry@) == Ok::<Seq<AstV>, ErrorV>(
                stmts.deep_view(),
            ) && forall|i: int|
                0 <= i < stmts.deep_view().len() ==> wf_stmt(#[trigger] stmts.deep_view()[i]),
            Err(e) => sp_parse(tokens.deep_view(), 0, registry@) == Err::<Seq<AstV>, ErrorV>(e@),
        },
{
    let ghost deep = tokens.deep_view();
    let ghost regv = registry@;
    let mut stmts: Vec<AstNode> = Vec::new();
    if tokens.len() == 0 {
        proof {
            assert(stmts.deep_view() =~= Seq::<AstV>::empty());
        }
        return Ok(stmts);
    }
    let mut cur: usize = 0;
    proof {
        match sp_parse(deep, 0, regv) {
            Ok(s) => {
                assert(Seq::<AstV>::empty() + s =~= s);
            },
            Err(_) => {},
        }
        assert(stmts.deep_view() =~= Seq::<AstV>::empty());
    }
    loop
        invariant
            deep == tokens.deep_view(),
            regv == registry@,
            deep.len() > 0,
            0 <= cur <= deep.len(),
            sp_parse(deep, 0, regv) == sp_stmts_prepend(
                stmts.deep_view(),
                sp_parse(deep, cur as int, regv),
            ),
            forall|i: int| 0 <= i < stmts.deep_view().len() ==> wf_stmt(
                #[trigger] stmts.deep_view()[i],
            ),
        decreases deep.len() - cur,
    {
        let next = match get_token(&tokens, cur) {
            Err(e) => {
                return Err(e);
            },
            Ok(t) => t,
        };
        match &next.t {
            TokenType::Eof => {
                proof {
                    assert(sp_parse(deep, cur as int, regv) == Ok::<Seq<AstV>, ErrorV>(
                        Seq::empty(),
                    ));
                    assert(stmts.deep_view() + Seq::<AstV>::empty() =~= stmts.deep_view());
                }
                return Ok(stmts);
            },
            TokenType::Eol => {
                cur += 1;
            },
            _ => {
                let (stmt, ncur) = match parse_stmt(&tokens, cur, registry) {
                    Err(e) => {
                        return Err(e);
                    },
                    Ok(p) => p,
                };
                proof {
                    lemma_parse_stmt_advances(deep, cur as int, regv);
                }
                let n2 = match get_token(&tokens, ncur) {
                    Err(e) => {
                        return Err(e);
                    },
                    Ok(t) => t,
                };
                if !matches!(&n2.t, TokenType::Eol) {
                    let mut msg = "expected end of line, got ".to_owned();
                    let d = token_desc(&n2.t);
                    msg.append(d.as_str());
                    return Err(Error { loc: n2.loc, msg });
                }
                let ghost pre = stmts.deep_view();
                let ghost sv = stmt@;
                stmts.push(stmt);
                proof {
                    assert(stmts.deep_view() =~= pre.push(sv));
                    match sp_parse(deep, ncur + 1, regv) {
                        Ok(rest) => {
                            assert(sp_parse(deep, cur as int, regv) == Ok::<Seq<AstV>, ErrorV>(
                                seq![sv] + rest,
                            ));
                            assert(pre + (seq![sv] + rest) =~= pre.push(sv) + rest);
                        },
                        Err(_) => {},
                    }
                }
                cur = ncur + 1;
            },
        }
    }
}

/// Law: a statement that names an unregistered function is rejected while
/// parsing, with "function not found" placed at the name, whatever its
/// arguments were; parsing never touches a native host, so the rejection
/// precedes every side effect.
pub proof fn lemma_unknown_function_fails(
    toks: Seq<TokenV>,
    cur: int,
    id: Seq<char>,
    loc: LocV,
    reg: Seq<ElemV>,
)
    requires
        sp_lookup(reg, id) is None,
        sp_parse_args(toks, cur) matches Ok(_),
    ensures
        sp_parse_call(toks, cur, id, loc, reg) == Err::<(AstV, int), ErrorV>(
            ErrorV { loc, msg: "function not found"@ },
        ),
{
}

} // verus!
