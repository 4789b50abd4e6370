use vstd::prelude::*;

verus! {

use crate::error::{error, Error, ErrorV, LocV, SrcLoc};
use crate::text::{sp_udec, str_eq, usize_dec};

/// One registered native operation: its name, its declared parameter names
/// (a leading `*` marks a variadic tail), the arity bounds computed from
/// them, and the handle under which a native host knows the callable.
pub struct RegistryElement {
    pub name: String,
    pub args: Vec<String>,
    argc_min: usize,
    argc_inf: bool,
    func: usize,
}

/// Mathematical image of a registry entry.
pub struct ElemV {
    pub name: Seq<char>,
    pub args: Seq<Seq<char>>,
    pub argc_min: int,
    pub argc_inf: bool,
    pub func: int,
}

impl View for RegistryElement {
    type V = ElemV;

    closed spec fn view(&self) -> ElemV {
        ElemV {
            name: self.name@,
            args: self.args.deep_view(),
            argc_min: self.argc_min as int,
            argc_inf: self.argc_inf,
            func: self.func as int,
        }
    }
}

impl DeepView for RegistryElement {
    type V = ElemV;

    open spec fn deep_view(&self) -> ElemV {
        self.view()
    }
}

/// Does this declared parameter name carry the variadic marker?
pub open spec fn sp_is_variadic(p: Seq<char>) -> bool {
    p.len() > 0 && p[0] == '*'
}

/// Number of declared parameters without the variadic marker: the minimum
/// number of arguments a call must supply.
pub open spec fn sp_min_arity(params: Seq<Seq<char>>) -> int
    decreases params.len(),
{
    if params.len() == 0 {
        0
    } else {
        sp_min_arity(params.drop_last()) + if sp_is_variadic(params.last()) {
            0int
        } else {
            1int
        }
    }
}

/// Number of declared parameters that carry the variadic marker.
pub open spec fn sp_variadic_count(params: Seq<Seq<char>>) -> int
    decreases params.len(),
{
    if params.len() == 0 {
        0
    } else {
        sp_variadic_count(params.drop_last()) + if sp_is_variadic(params.last()) {
            1int
        } else {
            0int
        }
    }
}

/// A registry entry is well formed when its arity bounds agree with its
/// declared parameter list, which in turn holds at most one variadic marker.
pub open spec fn elem_wf(e: ElemV) -> bool {
    &&& e.argc_min == sp_min_arity(e.args)
    &&& e.argc_inf == (sp_variadic_count(e.args) > 0)
    &&& sp_variadic_count(e.args) <= 1
    &&& 0 <= e.func
}

/// All entries of a registry are well formed.
pub open spec fn registry_wf(reg: Seq<ElemV>) -> bool {
    forall|i: int| 0 <= i < reg.len() ==> elem_wf(#[trigger] reg[i])
}

/// The view of a borrowed parameter-name list.
pub open spec fn sp_names_view(names: Seq<&str>) -> Seq<Seq<char>> {
    names.map_values(|p: &str| p@)
}

/// The static table that binds operation names to native callables, with
/// the arity rule computed from the declared parameter names.
pub struct Registry {
    funcs: Vec<RegistryElement>,
}

impl View for Registry {
    type V = Seq<ElemV>;

    closed spec fn view(&self) -> Seq<ElemV> {
        self.funcs.deep_view()
    }
}

impl Default for Registry {
    fn default() -> (r: Self)
        ensures
            r@ == Seq::<ElemV>::empty(),
    {
        let r = Registry { funcs: Vec::new() };
        proof {
            assert(r@ =~= Seq::<ElemV>::empty());
        }
        r
    }
}

/// First entry with the given name, scanning in registration order.
pub open spec fn sp_lookup(reg: Seq<ElemV>, name: Seq<char>) -> Option<ElemV>
    decreases reg.len(),
{
    if reg.len() == 0 {
        None
    } else if reg[0].name == name {
        Some(reg[0])
    } else {
        sp_lookup(reg.skip(1), name)
    }
}

/// The message of the error returned when a call supplies too few arguments.
pub open spec fn msg_missing_args(min: int) -> Seq<char> {
    "missing arguments, expected "@ + sp_udec(min)
}

/// The message of the error returned when a call supplies too many arguments.
pub open spec fn msg_too_many_args(min: int) -> Seq<char> {
    "too many arguments, expected "@ + sp_udec(min)
}

/// Resolution of a call site: unknown names and arity mismatches are
/// rejected; otherwise the entry's callable handle comes back.
pub open spec fn sp_resolve(reg: Seq<ElemV>, loc: LocV, name: Seq<char>, nargs: int) -> Result<
    int,
    ErrorV,
> {
    match sp_lookup(reg, name) {
        None => Err(ErrorV { loc, msg: "function not found"@ }),
        Some(e) => if nargs < e.argc_min {
            Err(ErrorV { loc, msg: msg_missing_args(e.argc_min) })
        } else if !e.argc_inf && nargs > e.argc_min {
            Err(ErrorV { loc, msg: msg_too_many_args(e.argc_min) })
        } else {
            Ok(e.func)
        },
    }
}

impl Registry {
    /// All entries are well formed.
    pub open spec fn wf(&self) -> bool {
        registry_wf(self@)
    }

    /// Appends an entry for `name`, computing the arity bounds from the
    /// declared parameter names. At most one parameter may carry the
    /// variadic marker: a second one is a defect in the embedding program's
    /// static setup, not a property of any script, so it is ruled out here.
    pub fn register(&mut self, name: &str, args: &[&str], func: usize)
        requires
            sp_variadic_count(sp_names_view(args@)) <= 1,
        ensures
            final(self)@ == old(self)@.push(
                ElemV {
                    name: name@,
                    args: sp_names_view(args@),
                    argc_min: sp_min_arity(sp_names_view(args@)),
                    argc_inf: sp_variadic_count(sp_names_view(args@)) > 0,
                    func: func as int,
                },
            ),
            old(self).wf() ==> final(self).wf(),
    {
        let ghost all = sp_names_view(args@);
        let mut params: Vec<String> = Vec::new();
        let mut argc_min: usize = 0;
        let mut argc_inf = false;
        let mut i: usize = 0;
        proof {
            assert(all.take(0) =~= Seq::<Seq<char>>::empty());
            assert(sp_variadic_count(Seq::<Seq<char>>::empty()) == 0);
            assert(sp_min_arity(Seq::<Seq<char>>::empty()) == 0);
            assert(params.deep_view() =~= all.take(0));
        }
        while i < args.len()
            invariant
                0 <= i <= args@.len(),
                all == sp_names_view(args@),
                sp_variadic_count(all) <= 1,
                params.deep_view() == all.take(i as int),
                argc_min as int == sp_min_arity(all.take(i as int)),
                argc_min <= i,
                0 <= sp_variadic_count(all.take(i as int)),
                argc_inf == (sp_variadic_count(all.take(i as int)) > 0),
            decreases args@.len() - i,
        {
            proof {
                assert(all.take(i + 1).drop_last() =~= all.take(i as int));
                assert(all.take(i + 1).last() == args@[i as int]@);
            }
            let a: &str = args[i];
            let variadic = a.unicode_len() > 0 && a.get_char(0) == '*';
            assert(variadic == sp_is_variadic(a@));
            if variadic {
                argc_inf = true;
            } else {
                argc_min += 1;
            }
            params.push(a.to_owned());
            proof {
                assert(params.deep_view() =~= all.take(i + 1));
            }
            i += 1;
        }
        proof {
            assert(all.take(args@.len() as int) =~= all);
        }
        let elem = RegistryElement { name: name.to_owned(), args: params, argc_min, argc_inf, func };
        self.funcs.push(elem);
        proof {
            assert(self@ =~= old(self)@.push(elem@));
        }
    }

    /// The registered entries, in registration order.
    pub fn funcs(&self) -> (r: &Vec<RegistryElement>)
        ensures
            r.deep_view() == self@,
    {
        &self.funcs
    }

    /// First entry registered under `name`, if any.
    pub fn lookup(&self, name: &str) -> (r: Option<&RegistryElement>)
        ensures
            match r {
                Some(e) => sp_lookup(self@, name@) == Some(e@),
                None => sp_lookup(self@, name@) is None,
            },
    {
        let mut i: usize = 0;
        proof {
            assert(self@.skip(0) =~= self@);
        }
        while i < self.funcs.len()
            invariant
                0 <= i <= self.funcs@.len(),
                self@.len() == self.funcs@.len(),
                sp_lookup(self@, name@) == sp_lookup(self@.skip(i as int), name@),
            decreases self.funcs@.len() - i,
        {
            proof {
                assert(self@.skip(i as int)[0] == self@[i as int]);
                assert(self@.skip(i as int).skip(1) =~= self@.skip(i + 1));
            }
            if str_eq(self.funcs[i].name.as_str(), name) {
                return Some(&self.funcs[i]);
            }
            i += 1;
        }
        proof {
            assert(self@.skip(self@.len() as int).len() == 0);
        }
        None
    }

    /// Resolution as the parser uses it: the handle of the callable when the
    /// name is known and the argument count fits its arity rule, an error
    /// located at the call site otherwise.
    pub fn lookup_with_err(&self, loc: SrcLoc, name: &str, nargs: usize) -> (r: Result<
        usize,
        Error,
    >)
        ensures
            match r {
                Ok(f) => sp_resolve(self@, loc@, name@, nargs as int) == Ok::<int, ErrorV>(
                    f as int,
                ),
                Err(e) => sp_resolve(self@, loc@, name@, nargs as int) == Err::<int, ErrorV>(e@),
            },
    {
        match self.lookup(name) {
            Some(e) => {
                if nargs < e.argc_min {
                    let mut msg = "missing arguments, expected ".to_owned();
                    let num = usize_dec(e.argc_min);
                    msg.append(num.as_str());
                    Err(Error { loc, msg })
                } else if !e.argc_inf && nargs > e.argc_min {
                    let mut msg = "too many arguments, expected ".to_owned();
                    let num = usize_dec(e.argc_min);
                    msg.append(num.as_str());
                    Err(Error { loc, msg })
                } else {
                    Ok(e.func)
                }
            },
            None => error(loc, "function not found"),
        }
    }
}

/// Law: resolving a name that no entry carries fails with "function not
/// found", whatever the argument count.
pub proof fn lemma_unregistered_fails(reg: Seq<ElemV>, loc: LocV, name: Seq<char>, nargs: int)
    requires
        sp_lookup(reg, name) is None,
    ensures
        sp_resolve(reg, loc, name, nargs) == Err::<int, ErrorV>(
            ErrorV { loc, msg: "function not found"@ },
        ),
{
}

/// Law: a call that supplies fewer arguments than the entry's minimum
/// declared arity fails resolution with "missing arguments, expected N";
/// one that supplies more than a non-variadic entry's declared arity fails
/// with "too many arguments, expected N", N being the declared minimum.
pub proof fn lemma_arity_mismatch_fails(
    reg: Seq<ElemV>,
    loc: LocV,
    name: Seq<char>,
    e: ElemV,
    nargs: int,
)
    requires
        sp_lookup(reg, name) == Some(e),
        elem_wf(e),
    ensures
        nargs < sp_min_arity(e.args) ==> sp_resolve(reg, loc, name, nargs) == Err::<int, ErrorV>(
            ErrorV { loc, msg: msg_missing_args(sp_min_arity(e.args)) },
        ),
        sp_variadic_count(e.args) == 0 && nargs > sp_min_arity(e.args) ==> sp_resolve(
            reg,
            loc,
            name,
            nargs,
        ) == Err::<int, ErrorV>(ErrorV { loc, msg: msg_too_many_args(sp_min_arity(e.args)) }),
{
}

/// Law: an entry declared variadic accepts every argument count at or
/// above its minimum declared arity.
pub proof fn lemma_variadic_accepts(
    reg: Seq<ElemV>,
    loc: LocV,
    name: Seq<char>,
    e: ElemV,
    nargs: int,
)
    requires
        sp_lookup(reg, name) == Some(e),
        elem_wf(e),
        sp_variadic_count(e.args) > 0,
        nargs >= sp_min_arity(e.args),
    ensures
        sp_resolve(reg, loc, name, nargs) == Ok::<int, ErrorV>(e.func),
{
}

/// The conventional success value of a native operation.
pub fn ok() -> (r: Result<String, String>)
    ensures
        r matches Ok(s) && s@ == "ok"@,
{
    Ok("ok".to_owned())
}

} // verus!
