use vstd::prelude::*;

verus! {

use crate::registry::{
    sp_is_variadic, sp_min_arity, sp_names_view, sp_variadic_count, ElemV, Registry,
};

/// Handles under which the native operations are registered. A host maps
/// each handle back to the operation it implements.
pub const FILE_CREATE_FUNC: usize = 0;

pub const FILE_MODIFY_FUNC: usize = 1;

pub const FILE_DELETE_FUNC: usize = 2;

pub const PROCESS_SPAWN_FUNC: usize = 3;

pub const NETWORK_TRANSMIT_FUNC: usize = 4;

pub const JOIN_FUNC: usize = 5;

pub const PRINT_FUNC: usize = 6;

/// The standard table of native operations: each entry's name, declared
/// parameters (a leading `*` marking the variadic tail), arity bounds and
/// handle.
pub open spec fn sp_default_registry() -> Seq<ElemV> {
    seq![
        ElemV {
            name: "file.create"@,
            args: seq!["type"@, "path"@],
            argc_min: 2,
            argc_inf: false,
            func: FILE_CREATE_FUNC as int,
        },
        ElemV {
            name: "file.modify"@,
            args: seq!["path"@, "new contents"@],
            argc_min: 2,
            argc_inf: false,
            func: FILE_MODIFY_FUNC as int,
        },
        ElemV {
            name: "file.delete"@,
            args: seq!["path"@],
            argc_min: 1,
            argc_inf: false,
            func: FILE_DELETE_FUNC as int,
        },
        ElemV {
            name: "process.spawn"@,
            args: seq!["cmd"@, "*args"@],
            argc_min: 1,
            argc_inf: true,
            func: PROCESS_SPAWN_FUNC as int,
        },
        ElemV {
            name: "network.transmit"@,
            args: seq!["protocol"@, "dest"@, "message"@],
            argc_min: 3,
            argc_inf: false,
            func: NETWORK_TRANSMIT_FUNC as int,
        },
        ElemV {
            name: "join"@,
            args: seq!["*args"@],
            argc_min: 0,
            argc_inf: true,
            func: JOIN_FUNC as int,
        },
        ElemV {
            name: "print"@,
            args: seq!["message"@],
            argc_min: 1,
            argc_inf: false,
            func: PRINT_FUNC as int,
        },
    ]
}

proof fn lemma_arity1(p0: Seq<char>)
    ensures
        sp_min_arity(seq![p0]) == if sp_is_variadic(p0) {
            0int
        } else {
            1int
        },
        sp_variadic_count(seq![p0]) == if sp_is_variadic(p0) {
            1int
        } else {
            0int
        },
{
    assert(seq![p0].drop_last() =~= Seq::<Seq<char>>::empty());
    assert(seq![p0].last() == p0);
    assert(sp_min_arity(Seq::<Seq<char>>::empty()) == 0);
    assert(sp_variadic_count(Seq::<Seq<char>>::empty()) == 0);
}

proof fn lemma_arity2(p0: Seq<char>, p1: Seq<char>)
    requires
        !sp_is_variadic(p0),
    ensures
        sp_min_arity(seq![p0, p1]) == 1 + if sp_is_variadic(p1) {
            0int
        } else {
            1int
        },
        sp_variadic_count(seq![p0, p1]) == if sp_is_variadic(p1) {
            1int
        } else {
            0int
        },
{
    lemma_arity1(p0);
    assert(seq![p0, p1].drop_last() =~= seq![p0]);
    assert(seq![p0, p1].last() == p1);
}

proof fn lemma_arity3(p0: Seq<char>, p1: Seq<char>, p2: Seq<char>)
    requires
        !sp_is_variadic(p0),
        !sp_is_variadic(p1),
    ensures
        sp_min_arity(seq![p0, p1, p2]) == 2 + if sp_is_variadic(p2) {
            0int
        } else {
            1int
        },
        sp_variadic_count(seq![p0, p1, p2]) == if sp_is_variadic(p2) {
            1int
        } else {
            0int
        },
{
    lemma_arity2(p0, p1);
    assert(seq![p0, p1, p2].drop_last() =~= seq![p0, p1]);
    assert(seq![p0, p1, p2].last() == p2);
}

/// Registers the native operations under their script names, with their
/// declared parameter lists.
pub fn register(registry: &mut Registry)
    ensures
        final(registry)@ == old(registry)@ + sp_default_registry(),
        old(registry).wf() ==> final(registry).wf(),
{
    let ghost base = registry@;
    let a0: &[&str] = &["type", "path"];
    proof {
        reveal_strlit("type");
        reveal_strlit("path");
        assert(sp_names_view(a0@) =~= seq!["type"@, "path"@]);
        lemma_arity2("type"@, "path"@);
    }
    registry.register("file.create", a0, FILE_CREATE_FUNC);
    let a1: &[&str] = &["path", "new contents"];
    proof {
        reveal_strlit("new contents");
        assert(sp_names_view(a1@) =~= seq!["path"@, "new contents"@]);
        lemma_arity2("path"@, "new contents"@);
    }
    registry.register("file.modify", a1, FILE_MODIFY_FUNC);
    let a2: &[&str] = &["path"];
    proof {
        assert(sp_names_view(a2@) =~= seq!["path"@]);
        lemma_arity1("path"@);
    }
    registry.register("file.delete", a2, FILE_DELETE_FUNC);
    let a3: &[&str] = &["cmd", "*args"];
    proof {
        reveal_strlit("cmd");
        reveal_strlit("*args");
        assert(sp_names_view(a3@) =~= seq!["cmd"@, "*args"@]);
        lemma_arity2("cmd"@, "*args"@);
    }
    registry.register("process.spawn", a3, PROCESS_SPAWN_FUNC);
    let a4: &[&str] = &["protocol", "dest", "message"];
    proof {
        reveal_strlit("protocol");
        reveal_strlit("dest");
        reveal_strlit("message");
        assert(sp_names_view(a4@) =~= seq!["protocol"@, "dest"@, "message"@]);
        lemma_arity3("protocol"@, "dest"@, "message"@);
    }
    registry.register("network.transmit", a4, NETWORK_TRANSMIT_FUNC);
    let a5: &[&str] = &["*args"];
    proof {
        assert(sp_names_view(a5@) =~= seq!["*args"@]);
        lemma_arity1("*args"@);
    }
    registry.register("join", a5, JOIN_FUNC);
    let a6: &[&str] = &["message"];
    proof {
        assert(sp_names_view(a6@) =~= seq!["message"@]);
        lemma_arity1("message"@);
    }
    registry.register("print", a6, PRINT_FUNC);
    proof {
        assert(registry@ =~= base + sp_default_registry());
    }
}

} // verus!
