use vstd::prelude::*;

pub mod activity;
pub mod error;
pub mod host;
pub mod interpreter;
pub mod registry;
pub mod script;
pub mod text;

verus! {

pub use vstd::prelude::View;

use crate::activity::sp_default_registry;
use crate::error::{Error, ErrorV};
use crate::host::NativeHost;
use crate::registry::{registry_wf, ElemV, Registry};
use crate::script::sp_exec_script;

/// The registry with every native operation registered, as an execution
/// uses it.
pub fn registry() -> (r: Registry)
    ensures
        r@ == sp_default_registry(),
        registry_wf(r@),
{
    let mut registry = Registry::default();
    crate::activity::register(&mut registry);
    proof {
        assert(Seq::<ElemV>::empty() + sp_default_registry() =~= sp_default_registry());
        assert(registry_wf(Seq::<ElemV>::empty()));
    }
    registry
}

/// Runs a script against the standard registry of native operations: the
/// whole pipeline, from source text to interpretation against the host.
pub fn exec<H: NativeHost>(src: &str, host: &mut H) -> (r: Result<(), Error>)
    ensures
        ({
            let (st2, res) = sp_exec_script::<H>(src@, sp_default_registry(), old(host)@);
            final(host)@ == st2 && match r {
                Ok(_) => res == Ok::<(), ErrorV>(()),
                Err(e) => res == Err::<(), ErrorV>(e@),
            }
        }),
{
    let registry = registry();
    crate::script::exec(src, &registry, host)
}

} // verus!
