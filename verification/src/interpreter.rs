use vstd::prelude::*;

verus! {

use crate::error::{Error, ErrorV, LocV};
use crate::host::NativeHost;
use crate::script::parser::{expr_view, leaf_view, wf_expr, wf_leaf, wf_stmt, AstKindV, AstNode, AstNodeType, AstV};
use crate::text::str_eq;

/// The flat variable scope of one script execution: a mapping from names
/// to their current string values, a later binding overwriting an earlier
/// one. It lives exactly as long as the execution.
pub struct Scope {
    entries: Vec<(String, String)>,
}

spec fn sp_entries_map(entries: Seq<(String, String)>) -> Map<Seq<char>, Seq<char>>
    decreases entries.len(),
{
    if entries.len() == 0 {
        Map::empty()
    } else {
        sp_entries_map(entries.drop_last()).insert(entries.last().0@, entries.last().1@)
    }
}

impl View for Scope {
    type V = Map<Seq<char>, Seq<char>>;

    closed spec fn view(&self) -> Map<Seq<char>, Seq<char>> {
        sp_entries_map(self.entries@)
    }
}

impl Scope {
    /// A fresh scope with no bindings.
    pub fn new() -> (s: Scope)
        ensures
            s@ == Map::<Seq<char>, Seq<char>>::empty(),
    {
        Scope { entries: Vec::new() }
    }

    /// The current binding of `name`, if any.
    pub fn get<'a>(&'a self, name: &str) -> (r: Option<&'a String>)
        ensures
            match r {
                Some(v) => self@.contains_key(name@) && v@ == self@[name@],
                None => !self@.contains_key(name@),
            },
    {
        let ghost es = self.entries@;
        let mut i: usize = self.entries.len();
        proof {
            assert(es.take(es.len() as int) =~= es);
        }
        while i > 0
            invariant
                0 <= i <= es.len(),
                es == self.entries@,
                self@.contains_key(name@) == sp_entries_map(es.take(i as int)).contains_key(
                    name@,
                ),
                sp_entries_map(es.take(i as int)).contains_key(name@) ==> self@[name@]
                    == sp_entries_map(es.take(i as int))[name@],
            decreases i,
        {
            i -= 1;
            proof {
                assert(es.take(i + 1).drop_last() =~= es.take(i as int));
                assert(es.take(i + 1).last() == es[i as int]);
            }
            let e = &self.entries[i];
            if str_eq(e.0.as_str(), name) {
                return Some(&e.1);
            }
        }
        proof {
            assert(es.take(0) =~= Seq::<(String, String)>::empty());
        }
        None
    }

    /// Binds `name`, inserting it or overwriting an earlier binding.
    pub fn insert(&mut self, name: String, value: String)
        ensures
            final(self)@ == old(self)@.insert(name@, value@),
    {
        let ghost nv = name@;
        let ghost vv = value@;
        self.entries.push((name, value));
        proof {
            assert(self.entries@.drop_last() =~= old(self).entries@);
            assert(self.entries@.last().0@ == nv);
            assert(self.entries@.last().1@ == vv);
        }
    }
}

/// Value of a leaf node: a literal is itself; an identifier reads the
/// scope and fails as "undefined variable", at its own position, when it
/// was never bound.
pub open spec fn sp_eval_leaf(a: AstV, scope: Map<Seq<char>, Seq<char>>) -> Result<
    Seq<char>,
    ErrorV,
> {
    match a.kind {
        AstKindV::Str(s) => Ok(s),
        AstKindV::Id(id) => if scope.contains_key(id) {
            Ok(scope[id])
        } else {
            Err(ErrorV { loc: a.loc, msg: "undefined variable"@ })
        },
        _ => Err(ErrorV { loc: a.loc, msg: "undefined variable"@ }),
    }
}

/// Values of a call's arguments, evaluated left to right, or the first
/// failure, which short-circuits the rest.
pub open spec fn sp_eval_args(args: Seq<AstV>, scope: Map<Seq<char>, Seq<char>>) -> Result<
    Seq<Seq<char>>,
    ErrorV,
>
    decreases args.len(),
{
    if args.len() == 0 {
        Ok(Seq::empty())
    } else {
        match sp_eval_leaf(args[0], scope) {
            Err(e) => Err(e),
            Ok(v) => match sp_eval_args(args.skip(1), scope) {
                Err(e) => Err(e),
                Ok(rest) => Ok(seq![v] + rest),
            },
        }
    }
}

/// Outcome of evaluating an expression in a host state: the state after it
/// and its value or first error. A native failure carries the call's
/// position; the host has still taken the invocation's step.
pub open spec fn sp_eval<H: NativeHost>(
    a: AstV,
    scope: Map<Seq<char>, Seq<char>>,
    st: H::V,
) -> (H::V, Result<Seq<char>, ErrorV>) {
    match a.kind {
        AstKindV::Call(f, args) => match sp_eval_args(args, scope) {
            Err(e) => (st, Err(e)),
            Ok(vals) => {
                let st2 = H::spec_step(st, f, vals);
                match H::spec_result(st, f, vals) {
                    Ok(s) => (st2, Ok(s)),
                    Err(m) => (st2, Err(ErrorV { loc: a.loc, msg: m })),
                }
            },
        },
        _ => (st, sp_eval_leaf(a, scope)),
    }
}

/// Outcome of running statements in order from a given scope and host
/// state: an assignment binds its name to its right-hand side's value, any
/// other statement runs for its effects, and the first failure stops the
/// run with no rollback.
pub open spec fn sp_exec_stmts<H: NativeHost>(
    stmts: Seq<AstV>,
    scope: Map<Seq<char>, Seq<char>>,
    st: H::V,
) -> (H::V, Result<(), ErrorV>)
    decreases stmts.len(),
{
    if stmts.len() == 0 {
        (st, Ok(()))
    } else {
        match stmts[0].kind {
            AstKindV::Assignment(name, v) => {
                let (st2, r) = sp_eval::<H>(*v, scope, st);
                match r {
                    Err(e) => (st2, Err(e)),
                    Ok(val) => sp_exec_stmts::<H>(stmts.skip(1), scope.insert(name, val), st2),
                }
            },
            _ => {
                let (st2, r) = sp_eval::<H>(stmts[0], scope, st);
                match r {
                    Err(e) => (st2, Err(e)),
                    Ok(_) => sp_exec_stmts::<H>(stmts.skip(1), scope, st2),
                }
            },
        }
    }
}

/// Evaluates one flat expression against the scope, reaching native
/// operations through the host.
pub fn interp_expr<H: NativeHost>(expr: &AstNode, scope: &Scope, host: &mut H) -> (r: Result<
    String,
    Error,
>)
    requires
        wf_expr(expr@),
    ensures
        ({
            let (st2, res) = sp_eval::<H>(expr@, scope@, old(host)@);
            final(host)@ == st2 && match r {
                Ok(s) => res == Ok::<Seq<char>, ErrorV>(s@),
                Err(e) => res == Err::<Seq<char>, ErrorV>(e@),
            }
        }),
{
    match &expr.t {
        AstNodeType::Str(s) => Ok(s.clone()),
        AstNodeType::Id(id) => match scope.get(id.as_str()) {
            Some(v) => Ok(v.clone()),
            None => Err(Error { loc: expr.loc, msg: "undefined variable".to_owned() }),
        },
        AstNodeType::Call(f, arg_nodes) => {
            let f = *f;
            let ghost sargs = arg_nodes@.map_values(|a: AstNode| leaf_view(a));
            let mut vals: Vec<String> = Vec::new();
            let mut i: usize = 0;
            proof {
                assert(sargs.skip(0) =~= sargs);
                assert(vals.deep_view() =~= Seq::<Seq<char>>::empty());
                match sp_eval_args(sargs, scope@) {
                    Ok(vs) => {
                        assert(Seq::<Seq<char>>::empty() + vs =~= vs);
                    },
                    Err(_) => {},
                }
            }
            while i < arg_nodes.len()
                invariant
                    0 <= i <= arg_nodes@.len(),
                    wf_expr(expr@),
                    host@ == old(host)@,
                    sargs == arg_nodes@.map_values(|a: AstNode| leaf_view(a)),
                    expr@.kind == AstKindV::Call(f as int, sargs),
                    expr@ == (AstV { loc: expr.loc@, kind: AstKindV::Call(f as int, sargs) }),
                    sp_eval_args(sargs, scope@) == (match sp_eval_args(
                        sargs.skip(i as int),
                        scope@,
                    ) {
                        Ok(vs) => Ok::<Seq<Seq<char>>, ErrorV>(vals.deep_view() + vs),
                        Err(e) => Err::<Seq<Seq<char>>, ErrorV>(e),
                    }),
                decreases arg_nodes@.len() - i,
            {
                let ghost pre = vals.deep_view();
                proof {
                    assert(wf_leaf(sargs[i as int]));
                    assert(sargs.skip(i as int)[0] == sargs[i as int]);
                    assert(sargs.skip(i as int).skip(1) =~= sargs.skip(i + 1));
                }
                let arg = &arg_nodes[i];
                match &arg.t {
                    AstNodeType::Str(s) => {
                        vals.push(s.clone());
                    },
                    AstNodeType::Id(id) => match scope.get(id.as_str()) {
                        Some(v) => {
                            vals.push(v.clone());
                        },
                        None => {
                            return Err(
                                Error { loc: arg.loc, msg: "undefined variable".to_owned() },
                            );
                        },
                    },
                    _ => {
                        proof {
                            assert(false);
                        }
                        return Err(Error { loc: arg.loc, msg: "undefined variable".to_owned() });
                    },
                }
                proof {
                    assert(vals.deep_view() =~= pre.push(sp_eval_leaf(sargs[i as int], scope@)->Ok_0));
                    match sp_eval_args(sargs.skip(i + 1), scope@) {
                        Ok(vs) => {
                            assert(pre + (seq![sp_eval_leaf(sargs[i as int], scope@)->Ok_0] + vs)
                                =~= vals.deep_view() + vs);
                        },
                        Err(_) => {},
                    }
                }
                i += 1;
            }
            proof {
                assert(sargs.skip(sargs.len() as int).len() == 0);
                assert(sp_eval_args(sargs.skip(sargs.len() as int), scope@) == Ok::<
                    Seq<Seq<char>>,
                    ErrorV,
                >(Seq::empty()));
                assert(vals.deep_view() + Seq::<Seq<char>>::empty() =~= vals.deep_view());
            }
            let res = host.invoke(f, &vals);
            match res {
                Ok(s) => Ok(s),
                Err(m) => Err(Error { loc: expr.loc, msg: m }),
            }
        },
        _ => {
            proof {
                assert(false);
            }
            Err(Error { loc: expr.loc, msg: "undefined variable".to_owned() })
        },
    }
}

/// Runs the statements of a parsed program in order against a fresh, empty
/// scope. The first failing statement aborts the whole run; side effects
/// already performed stand.
pub fn interp<H: NativeHost>(ast: &Vec<AstNode>, host: &mut H) -> (r: Result<(), Error>)
    requires
        forall|i: int| 0 <= i < ast.deep_view().len() ==> wf_stmt(#[trigger] ast.deep_view()[i]),
    ensures
        ({
            let (st2, res) = sp_exec_stmts::<H>(ast.deep_view(), Map::empty(), old(host)@);
            final(host)@ == st2 && match r {
                Ok(_) => res == Ok::<(), ErrorV>(()),
                Err(e) => res == Err::<(), ErrorV>(e@),
            }
        }),
{
    let ghost dv = ast.deep_view();
    let mut scope = Scope::new();
    let mut k: usize = 0;
    proof {
        assert(dv.skip(0) =~= dv);
    }
    while k < ast.len()
        invariant
            forall|i: int| 0 <= i < dv.len() ==> wf_stmt(#[trigger] dv[i]),
            dv == ast.deep_view(),
            dv.len() == ast@.len(),
            0 <= k <= dv.len(),
            sp_exec_stmts::<H>(dv, Map::empty(), old(host)@) == sp_exec_stmts::<H>(
                dv.skip(k as int),
                scope@,
                host@,
            ),
        decreases dv.len() - k,
    {
        proof {
            assert(wf_stmt(dv[k as int]));
            assert(dv.skip(k as int)[0] == dv[k as int]);
            assert(dv.skip(k as int).skip(1) =~= dv.skip(k + 1));
        }
        let stmt = &ast[k];
        match &stmt.t {
            AstNodeType::Assignment(name, vexpr) => {
                let inner: &AstNode = vexpr;
                proof {
                    assert(inner@ == expr_view(*inner));
                }
                match interp_expr(inner, &scope, host) {
                    Err(e) => {
                        return Err(e);
                    },
                    Ok(val) => {
                        scope.insert(name.clone(), val);
                    },
                }
            },
            _ => {
                match interp_expr(stmt, &scope, host) {
                    Err(e) => {
                        return Err(e);
                    },
                    Ok(_val) => {},
                }
            },
        }
        k += 1;
    }
    proof {
        assert(dv.skip(dv.len() as int).len() == 0);
    }
    Ok(())
}

/// Law: reading an identifier that the current scope never bound fails
/// with "undefined variable", placed at the identifier's own position,
/// and moves no host state.
pub proof fn lemma_undefined_variable_fails<H: NativeHost>(
    loc: LocV,
    id: Seq<char>,
    scope: Map<Seq<char>, Seq<char>>,
    st: H::V,
)
    requires
        !scope.contains_key(id),
    ensures
        sp_eval::<H>(AstV { loc, kind: AstKindV::Id(id) }, scope, st) == (
            st,
            Err::<Seq<char>, ErrorV>(ErrorV { loc, msg: "undefined variable"@ }),
        ),
{
}

/// Law (assignment/read round trip): a statement that assigns a string
/// literal to a name always succeeds, touches no host state, and changes
/// the scope only by that one binding; evaluating the name as an
/// identifier in any scope that still carries the binding yields exactly
/// the literal's value.
pub proof fn lemma_assignment_read_round_trip<H: NativeHost>(
    loc_a: LocV,
    loc_v: LocV,
    loc_r: LocV,
    name: Seq<char>,
    value: Seq<char>,
    rest: Seq<AstV>,
    scope: Map<Seq<char>, Seq<char>>,
    st: H::V,
    scope2: Map<Seq<char>, Seq<char>>,
    st2: H::V,
)
    requires
        scope2.contains_key(name),
        scope2[name] == value,
    ensures
        sp_exec_stmts::<H>(
            seq![
                AstV {
                    loc: loc_a,
                    kind: AstKindV::Assignment(
                        name,
                        Box::new(AstV { loc: loc_v, kind: AstKindV::Str(value) }),
                    ),
                },
            ] + rest,
            scope,
            st,
        ) == sp_exec_stmts::<H>(rest, scope.insert(name, value), st),
        sp_eval::<H>(AstV { loc: loc_r, kind: AstKindV::Id(name) }, scope2, st2) == (
            st2,
            Ok::<Seq<char>, ErrorV>(value),
        ),
        sp_eval_leaf(AstV { loc: loc_r, kind: AstKindV::Id(name) }, scope2) == Ok::<
            Seq<char>,
            ErrorV,
        >(value),
{
    let stmt = AstV {
        loc: loc_a,
        kind: AstKindV::Assignment(
            name,
            Box::new(AstV { loc: loc_v, kind: AstKindV::Str(value) }),
        ),
    };
    assert((seq![stmt] + rest)[0] == stmt);
    assert((seq![stmt] + rest).skip(1) =~= rest);
    assert((seq![stmt] + rest).len() == 1 + rest.len());
}

} // verus!
