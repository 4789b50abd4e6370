use vstd::prelude::*;

verus! {

use crate::activity::{JOIN_FUNC, PRINT_FUNC};

/// The view of a native call's outcome: value or failure message.
pub open spec fn call_res_view(r: Result<String, String>) -> Result<Seq<char>, Seq<char>> {
    match r {
        Ok(s) => Ok(s@),
        Err(s) => Err(s@),
    }
}

/// The capability through which the interpreter reaches native operations.
/// An embedding program implements it: `invoke` runs the callable
/// registered under the given handle on string arguments and returns a
/// string or a failure message. The two spec functions fix, per host, what
/// an invocation returns and how it moves the host's state, so everything
/// the interpreter does is determined relative to them.
pub trait NativeHost: View + Sized {
    /// What invoking handle `func` on `args` returns in state `st`. A host
    /// that does not say is one about whose results nothing is promised.
    open spec fn spec_result(st: Self::V, func: int, args: Seq<Seq<char>>) -> Result<
        Seq<char>,
        Seq<char>,
    > {
        vstd::pervasive::arbitrary()
    }

    /// The host's state after that invocation.
    open spec fn spec_step(st: Self::V, func: int, args: Seq<Seq<char>>) -> Self::V {
        vstd::pervasive::arbitrary()
    }

    /// Runs the callable registered under handle `func`.
    fn invoke(&mut self, func: usize, args: &Vec<String>) -> (r: Result<String, String>)
        ensures
            final(self)@ == Self::spec_step(old(self)@, func as int, args.deep_view()),
            call_res_view(r) == Self::spec_result(old(self)@, func as int, args.deep_view()),
    ;
}

/// Concatenation of all arguments, in order.
pub open spec fn sp_concat(args: Seq<Seq<char>>) -> Seq<char>
    decreases args.len(),
{
    if args.len() == 0 {
        Seq::empty()
    } else {
        sp_concat(args.drop_last()) + args.last()
    }
}

/// A host without side effects: `join` concatenates its arguments, `print`
/// captures each argument as one line of output, and every handle that
/// would touch the system is refused with a message. Its state is the
/// captured output.
pub struct BufferHost {
    pub output: Vec<String>,
}

impl View for BufferHost {
    type V = Seq<Seq<char>>;

    open spec fn view(&self) -> Seq<Seq<char>> {
        self.output.deep_view()
    }
}

impl BufferHost {
    /// A fresh host with no captured output.
    pub fn new() -> (r: BufferHost)
        ensures
            r@ == Seq::<Seq<char>>::empty(),
    {
        let r = BufferHost { output: Vec::new() };
        proof {
            assert(r@ =~= Seq::<Seq<char>>::empty());
        }
        r
    }
}

impl NativeHost for BufferHost {
    open spec fn spec_result(st: Seq<Seq<char>>, func: int, args: Seq<Seq<char>>) -> Result<
        Seq<char>,
        Seq<char>,
    > {
        if func == JOIN_FUNC as int {
            Ok(sp_concat(args))
        } else if func == PRINT_FUNC as int {
            Ok("ok"@)
        } else {
            Err("operation not available without side effects"@)
        }
    }

    open spec fn spec_step(st: Seq<Seq<char>>, func: int, args: Seq<Seq<char>>) -> Seq<Seq<char>> {
        if func == PRINT_FUNC as int {
            st + args
        } else {
            st
        }
    }

    fn invoke(&mut self, func: usize, args: &Vec<String>) -> (r: Result<String, String>) {
        if func == JOIN_FUNC {
            let mut s = String::new();
            let mut i: usize = 0;
            proof {
                assert(args.deep_view().take(0) =~= Seq::<Seq<char>>::empty());
                assert(sp_concat(Seq::<Seq<char>>::empty()) == Seq::<char>::empty());
                assert(s@ =~= Seq::<char>::empty());
            }
            while i < args.len()
                invariant
                    0 <= i <= args@.len(),
                    args@.len() == args.deep_view().len(),
                    s@ == sp_concat(args.deep_view().take(i as int)),
                decreases args@.len() - i,
            {
                let a = &args[i];
                s.append(a.as_str());
                proof {
                    assert(args.deep_view().take(i + 1).drop_last() =~= args.deep_view().take(
                        i as int,
                    ));
                    assert(args.deep_view().take(i + 1).last() == args.deep_view()[i as int]);
                }
                i += 1;
            }
            proof {
                assert(args.deep_view().take(args.deep_view().len() as int) =~= args.deep_view());
            }
            Ok(s)
        } else if func == PRINT_FUNC {
            let mut i: usize = 0;
            proof {
                assert(args.deep_view().take(0) =~= Seq::<Seq<char>>::empty());
                assert(self@ + args.deep_view().take(0) =~= self@);
            }
            while i < args.len()
                invariant
                    0 <= i <= args@.len(),
                    args@.len() == args.deep_view().len(),
                    self@ == old(self)@ + args.deep_view().take(i as int),
                decreases args@.len() - i,
            {
                let ghost dv = args.deep_view();
                let ghost pre = self@;
                let a = args[i].clone();
                proof {
                    assert(a@ == dv[i as int]);
                }
                self.output.push(a);
                proof {
                    assert(self@ =~= pre.push(dv[i as int]));
                    assert(pre.push(dv[i as int]) =~= old(self)@ + dv.take(i + 1));
                }
                i += 1;
            }
            proof {
                assert(args.deep_view().take(args.deep_view().len() as int) =~= args.deep_view());
            }
            Ok("ok".to_owned())
        } else {
            Err("operation not available without side effects".to_owned())
        }
    }
}

} // verus!
