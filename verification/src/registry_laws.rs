//! What the project context registry keeps true, whatever is asked of it.

use vstd::prelude::*;

use crate::attribution;
use crate::registry;
use crate::registry::ActivationRecord;
use crate::registry::OperationIdentity;
use crate::registry::RegistryView;
use crate::registry::SessionBinding;

verus! {

/// The session of an adapter, the live bindings and the live claims agree with each other.
pub open spec fn consistent(v: RegistryView) -> bool {
    &&& sandboxes_agree(v)
    &&& sessions_agree(v)
    &&& bindings_agree(v)
    &&& operations_agree(v)
    &&& claims_agree(v)
    &&& released_claims_end(v)
}

/// Every sandbox has one adapter, and every adapter is that of its sandbox.
pub open spec fn sandboxes_agree(v: RegistryView) -> bool {
    &&& forall|s: Seq<char>| #[trigger]
        v.adapter_by_sandbox.contains_key(s) ==> v.adapters.contains_key(v.adapter_by_sandbox[s])
            && v.adapters[v.adapter_by_sandbox[s]].sandbox == s
    &&& forall|conn: u64| #[trigger]
        v.adapters.contains_key(conn) ==> v.adapter_by_sandbox.contains_key(
            v.adapters[conn].sandbox,
        ) && v.adapter_by_sandbox[v.adapters[conn].sandbox] == conn
}

/// A session is released exactly when its binding is not live.
pub open spec fn session_agrees(v: RegistryView, conn: u64, s: SessionBinding) -> bool {
    if s.released {
        !v.bindings.contains_key(s.handle)
    } else {
        &&& v.bindings.contains_key(s.handle)
        &&& v.bindings[s.handle].connection_id == conn
        &&& v.bindings[s.handle].activation == s.activation
    }
}

pub open spec fn sessions_agree(v: RegistryView) -> bool {
    forall|conn: u64, k: Seq<char>|
        #![trigger v.adapters[conn].sessions[k]]
        v.adapters.contains_key(conn) && v.adapters[conn].sessions.contains_key(k)
            ==> session_agrees(v, conn, v.adapters[conn].sessions[k])
}

/// Every live binding is that of a session which has not been released.
pub open spec fn bindings_agree(v: RegistryView) -> bool {
    forall|b: u128| #[trigger]
        v.bindings.contains_key(b) ==> v.adapters.contains_key(v.bindings[b].connection_id)
            && v.session_with(v.bindings[b].connection_id, b, false)
}

/// An operation's claim is live and says what the operation says.
pub open spec fn operation_agrees(v: RegistryView, conn: u64, op: OperationIdentity) -> bool {
    &&& v.claims.contains_key(op.claim)
    &&& v.claims[op.claim].connection_id == conn
    &&& v.claims[op.claim].binding == op.binding
    &&& v.claims[op.claim].activation == op.activation
}

pub open spec fn operations_agree(v: RegistryView) -> bool {
    forall|conn: u64, k: Seq<char>|
        #![trigger v.adapters[conn].operations[k]]
        v.adapters.contains_key(conn) && v.adapters[conn].operations.contains_key(k)
            ==> operation_agrees(v, conn, v.adapters[conn].operations[k])
}

/// Every live claim is that of an operation, under a live binding of the same connection.
pub open spec fn claims_agree(v: RegistryView) -> bool {
    forall|c: u128| #[trigger]
        v.claims.contains_key(c) ==> {
            &&& v.adapters.contains_key(v.claims[c].connection_id)
            &&& v.has_claim(v.claims[c].connection_id, c)
            &&& v.binds(v.claims[c].connection_id, v.claims[c].binding)
        }
}

/// No claim that was released is live.
pub open spec fn released_claims_end(v: RegistryView) -> bool {
    forall|conn: u64, c: u128|
        #![trigger v.adapters[conn].released.contains(c)]
        v.adapters.contains_key(conn) && v.adapters[conn].released.contains(c)
            ==> !v.claims.contains_key(c)
}

/// No binding, session or claim of the registry has the handle.
pub open spec fn unused(v: RegistryView, handle: u128) -> bool {
    &&& !v.bindings.contains_key(handle)
    &&& !v.claims.contains_key(handle)
    &&& forall|conn: u64, k: Seq<char>|
        #![trigger v.adapters[conn].sessions[k]]
        v.adapters.contains_key(conn) && v.adapters[conn].sessions.contains_key(k)
            ==> v.adapters[conn].sessions[k].handle != handle
    &&& forall|conn: u64| #[trigger]
        v.adapters.contains_key(conn) ==> !v.adapters[conn].released.contains(handle)
}

/// Releasing bindings keeps the registry consistent.
pub proof fn law_release_bindings_keeps_consistent(v: RegistryView, bindings: Set<u128>)
    requires
        consistent(v),
    ensures
        consistent(v.without_bindings(bindings)),
{
    let w = v.without_bindings(bindings);
    assert(sandboxes_agree(w));
    assert(sessions_agree(w)) by {
        assert forall|conn: u64, k: Seq<char>|
            #![trigger w.adapters[conn].sessions[k]]
            w.adapters.contains_key(conn) && w.adapters[conn].sessions.contains_key(
                k,
            ) implies session_agrees(w, conn, w.adapters[conn].sessions[k]) by {
            let s = v.adapters[conn].sessions[k];
            assert(session_agrees(v, conn, s));
            assert(w.adapters[conn].sessions[k].handle == s.handle);
        }
    }
    assert(bindings_agree(w)) by {
        assert forall|b: u128| #[trigger] w.bindings.contains_key(b) implies w.adapters.contains_key(
            w.bindings[b].connection_id,
        ) && w.session_with(w.bindings[b].connection_id, b, false) by {
            assert(v.bindings.contains_key(b));
            let conn = v.bindings[b].connection_id;
            let k = choose|k: Seq<char>| #[trigger]
                v.adapters[conn].sessions.contains_key(k) && v.adapters[conn].sessions[k].handle
                    == b && v.adapters[conn].sessions[k].released == false;
            assert(w.adapters[conn].sessions.contains_key(k));
        }
    }
    assert(operations_agree(w)) by {
        assert forall|conn: u64, k: Seq<char>|
            #![trigger w.adapters[conn].operations[k]]
            w.adapters.contains_key(conn) && w.adapters[conn].operations.contains_key(
                k,
            ) implies operation_agrees(w, conn, w.adapters[conn].operations[k]) by {
            let op = v.adapters[conn].operations[k];
            assert(operation_agrees(v, conn, op));
            assert(!v.claims_under(bindings).contains(op.claim)) by {
                if v.claims_under(bindings).contains(op.claim) {
                    let (x, q) = choose|x: u64, q: Seq<char>|
                        #![trigger v.adapters[x].operations[q]]
                        v.adapters.contains_key(x) && v.adapters[x].operations.contains_key(q)
                            && v.owned(bindings, x).contains(v.adapters[x].operations[q].binding)
                            && v.adapters[x].operations[q].claim == op.claim;
                    assert(operation_agrees(v, x, v.adapters[x].operations[q]));
                }
            }
        }
    }
    assert(claims_agree(w)) by {
        assert forall|c: u128| #[trigger] w.claims.contains_key(c) implies {
            &&& w.adapters.contains_key(w.claims[c].connection_id)
            &&& w.has_claim(w.claims[c].connection_id, c)
            &&& w.binds(w.claims[c].connection_id, w.claims[c].binding)
        } by {
            assert(v.claims.contains_key(c));
            let conn = v.claims[c].connection_id;
            let k = choose|k: Seq<char>| #[trigger]
                v.adapters[conn].operations.contains_key(k) && v.adapters[conn].operations[k].claim
                    == c;
            let op = v.adapters[conn].operations[k];
            assert(operation_agrees(v, conn, op));
            if bindings.contains(op.binding) {
                assert(v.owned(bindings, conn).contains(op.binding));
                assert(v.claims_under(bindings).contains(c));
            }
            assert(w.adapters[conn].operations.contains_key(k));
        }
    }
    assert(released_claims_end(w)) by {
        assert forall|conn: u64, c: u128|
            #![trigger w.adapters[conn].released.contains(c)]
            w.adapters.contains_key(conn) && w.adapters[conn].released.contains(
                c,
            ) implies !w.claims.contains_key(c) by {
            let a = v.adapters[conn];
            let owned = v.owned(bindings, conn);
            let p = |op: OperationIdentity| owned.contains(op.binding);
            if a.released.contains(c) {
                assert(!v.claims.contains_key(c));
            } else {
                assert(registry::claims_where(a.operations, p).contains(c));
                let k = choose|k: Seq<char>| #[trigger]
                    a.operations.contains_key(k) && p(a.operations[k]) && a.operations[k].claim
                        == c;
                assert(v.adapters[conn].operations[k].claim == c);
                assert(v.claims_under(bindings).contains(c));
            }
        }
    }
}

/// Releasing claims keeps the registry consistent.
pub proof fn law_release_claims_keeps_consistent(v: RegistryView, claims: Set<u128>)
    requires
        consistent(v),
    ensures
        consistent(v.without_claims(claims)),
{
    let w = v.without_claims(claims);
    assert forall|conn: u64| #[trigger] v.adapters.contains_key(conn) implies w.adapters[conn]
        == v.adapters[conn].without_claims(claims) by {}
    assert(sandboxes_agree(w));
    assert(sessions_agree(w)) by {
        assert forall|conn: u64, k: Seq<char>|
            #![trigger w.adapters[conn].sessions[k]]
            w.adapters.contains_key(conn) && w.adapters[conn].sessions.contains_key(
                k,
            ) implies session_agrees(w, conn, w.adapters[conn].sessions[k]) by {
            assert(session_agrees(v, conn, v.adapters[conn].sessions[k]));
        }
    }
    assert(bindings_agree(w)) by {
        assert forall|b: u128| #[trigger] w.bindings.contains_key(b) implies w.adapters.contains_key(
            w.bindings[b].connection_id,
        ) && w.session_with(w.bindings[b].connection_id, b, false) by {
            let conn = v.bindings[b].connection_id;
            assert(v.session_with(conn, b, false));
            let k = choose|k: Seq<char>| #[trigger]
                v.adapters[conn].sessions.contains_key(k) && v.adapters[conn].sessions[k].handle
                    == b && v.adapters[conn].sessions[k].released == false;
            assert(w.adapters[conn].sessions.contains_key(k));
        }
    }
    assert(operations_agree(w)) by {
        assert forall|conn: u64, k: Seq<char>|
            #![trigger w.adapters[conn].operations[k]]
            w.adapters.contains_key(conn) && w.adapters[conn].operations.contains_key(
                k,
            ) implies operation_agrees(w, conn, w.adapters[conn].operations[k]) by {
            assert(operation_agrees(v, conn, v.adapters[conn].operations[k]));
        }
    }
    assert(claims_agree(w)) by {
        assert forall|c: u128| #[trigger] w.claims.contains_key(c) implies {
            &&& w.adapters.contains_key(w.claims[c].connection_id)
            &&& w.has_claim(w.claims[c].connection_id, c)
            &&& w.binds(w.claims[c].connection_id, w.claims[c].binding)
        } by {
            let conn = v.claims[c].connection_id;
            assert(v.claims.contains_key(c));
            let k = choose|k: Seq<char>| #[trigger]
                v.adapters[conn].operations.contains_key(k) && v.adapters[conn].operations[k].claim
                    == c;
            assert(w.adapters[conn].operations.contains_key(k));
        }
    }
    assert(released_claims_end(w)) by {
        assert forall|conn: u64, c: u128|
            #![trigger w.adapters[conn].released.contains(c)]
            w.adapters.contains_key(conn) && w.adapters[conn].released.contains(
                c,
            ) implies !w.claims.contains_key(c) by {
            let a = v.adapters[conn];
            let p = |op: OperationIdentity| claims.contains(op.claim);
            if !a.released.contains(c) {
                assert(registry::claims_where(a.operations, p).contains(c));
            }
        }
    }
}

/// Letting the claims run out keeps the registry consistent.
pub proof fn law_time_keeps_consistent(v: RegistryView, now: u64)
    requires
        consistent(v),
    ensures
        consistent(v.at(now)),
{
    law_release_claims_keeps_consistent(v, v.expired(now));
}

/// Forgetting a workspace keeps the registry consistent.
pub proof fn law_deactivate_keeps_consistent(v: RegistryView, activation: u128)
    requires
        consistent(v),
    ensures
        consistent(v.without_activation(activation)),
{
    if v.activations.contains_key(activation) {
        let u = RegistryView { activations: v.activations.remove(activation), ..v };
        assert(bindings_agree(u)) by {
            assert forall|b: u128| #[trigger]
                u.bindings.contains_key(b) implies u.adapters.contains_key(
                u.bindings[b].connection_id,
            ) && u.session_with(u.bindings[b].connection_id, b, false) by {
                assert(v.session_with(v.bindings[b].connection_id, b, false));
            }
        }
        assert(claims_agree(u)) by {
            assert forall|c: u128| #[trigger] u.claims.contains_key(c) implies {
                &&& u.adapters.contains_key(u.claims[c].connection_id)
                &&& u.has_claim(u.claims[c].connection_id, c)
                &&& u.binds(u.claims[c].connection_id, u.claims[c].binding)
            } by {
                let conn = v.claims[c].connection_id;
                assert(v.claims.contains_key(c));
                assert(v.has_claim(conn, c) && v.binds(conn, v.claims[c].binding));
                let k = choose|k: Seq<char>| #[trigger]
                    v.adapters[conn].operations.contains_key(k)
                        && v.adapters[conn].operations[k].claim == c;
                assert(u.adapters[conn].operations.contains_key(k));
            }
        }
        assert(sessions_agree(u)) by {
            assert forall|conn: u64, k: Seq<char>|
                #![trigger u.adapters[conn].sessions[k]]
                u.adapters.contains_key(conn) && u.adapters[conn].sessions.contains_key(
                    k,
                ) implies session_agrees(u, conn, u.adapters[conn].sessions[k]) by {
                assert(session_agrees(v, conn, v.adapters[conn].sessions[k]));
            }
        }
        assert(operations_agree(u)) by {
            assert forall|conn: u64, k: Seq<char>|
                #![trigger u.adapters[conn].operations[k]]
                u.adapters.contains_key(conn) && u.adapters[conn].operations.contains_key(
                    k,
                ) implies operation_agrees(u, conn, u.adapters[conn].operations[k]) by {
                assert(operation_agrees(v, conn, v.adapters[conn].operations[k]));
            }
        }
        assert(released_claims_end(u));
        assert(consistent(u));
        law_release_bindings_keeps_consistent(u, v.bound_to(activation));
    }
}

/// The end of an adapter's connection keeps the registry consistent.
pub proof fn law_disconnect_keeps_consistent(v: RegistryView, connection_id: u64)
    requires
        consistent(v),
    ensures
        consistent(v.without_adapter(connection_id)),
{
    let w = v.without_adapter(connection_id);
    if v.adapters.contains_key(connection_id) {
        assert(sessions_agree(w)) by {
            assert forall|conn: u64, k: Seq<char>|
                #![trigger w.adapters[conn].sessions[k]]
                w.adapters.contains_key(conn) && w.adapters[conn].sessions.contains_key(
                    k,
                ) implies session_agrees(w, conn, w.adapters[conn].sessions[k]) by {
                assert(session_agrees(v, conn, v.adapters[conn].sessions[k]));
            }
        }
        assert(bindings_agree(w)) by {
            assert forall|b: u128| #[trigger]
                w.bindings.contains_key(b) implies w.adapters.contains_key(
                w.bindings[b].connection_id,
            ) && w.session_with(w.bindings[b].connection_id, b, false) by {
                let conn = v.bindings[b].connection_id;
                assert(v.session_with(conn, b, false));
                let k = choose|k: Seq<char>| #[trigger]
                    v.adapters[conn].sessions.contains_key(k) && v.adapters[conn].sessions[k].handle
                        == b && v.adapters[conn].sessions[k].released == false;
                assert(w.adapters[conn].sessions.contains_key(k));
            }
        }
        assert(operations_agree(w)) by {
            assert forall|conn: u64, k: Seq<char>|
                #![trigger w.adapters[conn].operations[k]]
                w.adapters.contains_key(conn) && w.adapters[conn].operations.contains_key(
                    k,
                ) implies operation_agrees(w, conn, w.adapters[conn].operations[k]) by {
                assert(operation_agrees(v, conn, v.adapters[conn].operations[k]));
            }
        }
        assert(claims_agree(w)) by {
            assert forall|c: u128| #[trigger] w.claims.contains_key(c) implies {
                &&& w.adapters.contains_key(w.claims[c].connection_id)
                &&& w.has_claim(w.claims[c].connection_id, c)
                &&& w.binds(w.claims[c].connection_id, w.claims[c].binding)
            } by {
                let conn = v.claims[c].connection_id;
                assert(v.has_claim(conn, c));
                let k = choose|k: Seq<char>| #[trigger]
                    v.adapters[conn].operations.contains_key(k)
                        && v.adapters[conn].operations[k].claim == c;
                assert(w.adapters[conn].operations.contains_key(k));
            }
        }
        assert(sandboxes_agree(w));
        assert(released_claims_end(w)) by {
            assert forall|conn: u64, c: u128|
                #![trigger w.adapters[conn].released.contains(c)]
                w.adapters.contains_key(conn) && w.adapters[conn].released.contains(
                    c,
                ) implies !w.claims.contains_key(c) by {
                assert(v.adapters[conn].released.contains(c));
            }
        }
    }
}

/// Binding a session under a handle that is not in use keeps the registry consistent.
pub proof fn law_bind_keeps_consistent<L: Fn(&ActivationRecord) -> bool>(
    v: RegistryView,
    live: L,
    connection_id: u64,
    key: Seq<char>,
    activation: u128,
    fresh: u128,
)
    requires
        consistent(v),
        unused(v, fresh),
    ensures
        consistent(attribution::bound(v, live, connection_id, key, activation, fresh).1),
{
    let w = attribution::bound(v, live, connection_id, key, activation, fresh).1;
    if w != v {
        assert(sessions_agree(w)) by {
            assert forall|conn: u64, k: Seq<char>|
                #![trigger w.adapters[conn].sessions[k]]
                w.adapters.contains_key(conn) && w.adapters[conn].sessions.contains_key(
                    k,
                ) implies session_agrees(w, conn, w.adapters[conn].sessions[k]) by {
                if conn != connection_id || k != key {
                    assert(session_agrees(v, conn, v.adapters[conn].sessions[k]));
                    assert(v.adapters[conn].sessions[k].handle != fresh);
                }
            }
        }
        assert(bindings_agree(w)) by {
            assert forall|b: u128| #[trigger]
                w.bindings.contains_key(b) implies w.adapters.contains_key(
                w.bindings[b].connection_id,
            ) && w.session_with(w.bindings[b].connection_id, b, false) by {
                if b == fresh {
                    assert(w.adapters[connection_id].sessions.contains_key(key));
                } else {
                    let conn = v.bindings[b].connection_id;
                    assert(v.bindings.contains_key(b));
                    assert(v.session_with(conn, b, false));
                    let k = choose|k: Seq<char>| #[trigger]
                        v.adapters[conn].sessions.contains_key(k)
                            && v.adapters[conn].sessions[k].handle == b
                            && v.adapters[conn].sessions[k].released == false;
                    assert(w.adapters[conn].sessions.contains_key(k));
                }
            }
        }
        assert(operations_agree(w)) by {
            assert forall|conn: u64, k: Seq<char>|
                #![trigger w.adapters[conn].operations[k]]
                w.adapters.contains_key(conn) && w.adapters[conn].operations.contains_key(
                    k,
                ) implies operation_agrees(w, conn, w.adapters[conn].operations[k]) by {
                assert(operation_agrees(v, conn, v.adapters[conn].operations[k]));
            }
        }
        assert(claims_agree(w)) by {
            assert forall|c: u128| #[trigger] w.claims.contains_key(c) implies {
                &&& w.adapters.contains_key(w.claims[c].connection_id)
                &&& w.has_claim(w.claims[c].connection_id, c)
                &&& w.binds(w.claims[c].connection_id, w.claims[c].binding)
            } by {
                let conn = v.claims[c].connection_id;
                assert(v.claims.contains_key(c));
                let k = choose|k: Seq<char>| #[trigger]
                    v.adapters[conn].operations.contains_key(k)
                        && v.adapters[conn].operations[k].claim == c;
                assert(w.adapters[conn].operations.contains_key(k));
            }
        }
        assert(sandboxes_agree(w));
        assert(released_claims_end(w)) by {
            assert forall|conn: u64, c: u128|
                #![trigger w.adapters[conn].released.contains(c)]
                w.adapters.contains_key(conn) && w.adapters[conn].released.contains(
                    c,
                ) implies !w.claims.contains_key(c) by {
                assert(v.adapters[conn].released.contains(c));
            }
        }
    }
}

/// Beginning an operation under a handle that is not in use keeps the registry consistent.
pub proof fn law_begin_keeps_consistent<L: Fn(&ActivationRecord) -> bool>(
    before: RegistryView,
    live: L,
    connection_id: u64,
    key: Seq<char>,
    binding: u128,
    activation: u128,
    now: u64,
    fresh: u128,
)
    requires
        consistent(before),
        unused(before.at(now), fresh),
    ensures
        consistent(
            attribution::begun(
                before,
                live,
                connection_id,
                key,
                binding,
                activation,
                now,
                fresh,
            ).1,
        ),
{
    let v = before.at(now);
    law_time_keeps_consistent(before, now);
    let w = attribution::begun(
        before,
        live,
        connection_id,
        key,
        binding,
        activation,
        now,
        fresh,
    ).1;
    if w != v {
        assert(sandboxes_agree(w));
        assert(sessions_agree(w)) by {
            assert forall|conn: u64, k: Seq<char>|
                #![trigger w.adapters[conn].sessions[k]]
                w.adapters.contains_key(conn) && w.adapters[conn].sessions.contains_key(
                    k,
                ) implies session_agrees(w, conn, w.adapters[conn].sessions[k]) by {
                assert(session_agrees(v, conn, v.adapters[conn].sessions[k]));
            }
        }
        assert(bindings_agree(w)) by {
            assert forall|b: u128| #[trigger]
                w.bindings.contains_key(b) implies w.adapters.contains_key(
                w.bindings[b].connection_id,
            ) && w.session_with(w.bindings[b].connection_id, b, false) by {
                let conn = v.bindings[b].connection_id;
                assert(v.bindings.contains_key(b));
                let k = choose|k: Seq<char>| #[trigger]
                    v.adapters[conn].sessions.contains_key(k) && v.adapters[conn].sessions[k].handle
                        == b && v.adapters[conn].sessions[k].released == false;
                assert(w.adapters[conn].sessions.contains_key(k));
            }
        }
        assert(operations_agree(w)) by {
            assert forall|conn: u64, k: Seq<char>|
                #![trigger w.adapters[conn].operations[k]]
                w.adapters.contains_key(conn) && w.adapters[conn].operations.contains_key(
                    k,
                ) implies operation_agrees(w, conn, w.adapters[conn].operations[k]) by {
                if conn != connection_id || k != key {
                    assert(operation_agrees(v, conn, v.adapters[conn].operations[k]));
                }
            }
        }
        assert(claims_agree(w)) by {
            assert forall|c: u128| #[trigger] w.claims.contains_key(c) implies {
                &&& w.adapters.contains_key(w.claims[c].connection_id)
                &&& w.has_claim(w.claims[c].connection_id, c)
                &&& w.binds(w.claims[c].connection_id, w.claims[c].binding)
            } by {
                if c == fresh {
                    assert(w.adapters[connection_id].operations.contains_key(key));
                } else {
                    let conn = v.claims[c].connection_id;
                    assert(v.claims.contains_key(c));
                    let k = choose|k: Seq<char>| #[trigger]
                        v.adapters[conn].operations.contains_key(k)
                            && v.adapters[conn].operations[k].claim == c;
                    assert(w.adapters[conn].operations.contains_key(k));
                }
            }
        }
        assert(released_claims_end(w)) by {
            assert forall|conn: u64, c: u128|
                #![trigger w.adapters[conn].released.contains(c)]
                w.adapters.contains_key(conn) && w.adapters[conn].released.contains(
                    c,
                ) implies !w.claims.contains_key(c) by {
                assert(v.adapters[conn].released.contains(c));
            }
        }
    }
}

/// A session stays with its first workspace: binding it again changes nothing and succeeds only
/// for that workspace.
pub proof fn law_binding_immutable<L: Fn(&ActivationRecord) -> bool>(
    v: RegistryView,
    live: L,
    connection_id: u64,
    key: Seq<char>,
    activation: u128,
    fresh: u128,
)
    requires
        v.adapters.contains_key(connection_id),
        v.adapters[connection_id].sessions.contains_key(key),
    ensures
        attribution::bound(v, live, connection_id, key, activation, fresh).1 == v,
        attribution::bound(v, live, connection_id, key, activation, fresh).0 matches Ok(handle)
            ==> {
            &&& handle == v.adapters[connection_id].sessions[key].handle
            &&& activation == v.adapters[connection_id].sessions[key].activation
            &&& !v.adapters[connection_id].sessions[key].released
        },
{
}

/// A claim that was released stands for no workspace, at any later time and on any connection;
/// the workspace of its session does not take its place.
pub proof fn law_released_claim_has_no_workspace<L: Fn(&ActivationRecord) -> bool>(
    v: RegistryView,
    live: L,
    connection_id: u64,
    claim: u128,
    asked_by: u64,
    now: u64,
)
    requires
        consistent(v),
        attribution::claim_released(v, connection_id, claim).0 is Ok,
    ensures
        attribution::claim_workspace(
            attribution::claim_released(v, connection_id, claim).1,
            live,
            asked_by,
            claim,
            now,
        ).0 is None,
{
    let w = attribution::claim_released(v, connection_id, claim).1;
    assert(!w.claims.contains_key(claim));
}

/// A claim stands for no workspace once its time is up.
pub proof fn law_expired_claim_has_no_workspace<L: Fn(&ActivationRecord) -> bool>(
    v: RegistryView,
    live: L,
    connection_id: u64,
    claim: u128,
    now: u64,
)
    requires
        v.claims.contains_key(claim) ==> v.claims[claim].expires_at <= now,
    ensures
        attribution::claim_workspace(v, live, connection_id, claim, now).0 is None,
{
}

/// Releasing a claim again succeeds and changes nothing.
pub proof fn law_release_claim_twice(v: RegistryView, connection_id: u64, claim: u128)
    requires
        attribution::claim_released(v, connection_id, claim).0 is Ok,
    ensures
        ({
            let w = attribution::claim_released(v, connection_id, claim).1;
            &&& attribution::claim_released(w, connection_id, claim).0 is Ok
            &&& attribution::claim_released(w, connection_id, claim).1 == w
        }),
{
    let a = v.adapters[connection_id];
    if !a.released.contains(claim) {
        let w = v.without_claims(set![claim]);
        let p = |op: OperationIdentity| set![claim].contains(op.claim);
        let k = choose|k: Seq<char>| #[trigger]
            a.operations.contains_key(k) && a.operations[k].claim == claim;
        assert(a.operations.contains_key(k) && p(a.operations[k]));
        assert(registry::claims_where(a.operations, p).contains(claim));
        assert(w.adapters[connection_id] == a.without_claims(set![claim]));
    }
}

/// A released binding stands for no workspace, and releasing it again succeeds and changes
/// nothing.
pub proof fn law_released_binding_has_no_workspace<L: Fn(&ActivationRecord) -> bool>(
    v: RegistryView,
    live: L,
    connection_id: u64,
    binding: u128,
    asked_by: u64,
)
    requires
        attribution::binding_released(v, connection_id, binding) is Ok,
    ensures
        ({
            let w = v.without_bindings(set![binding]);
            &&& attribution::binding_workspace(w, live, asked_by, binding).0 is None
            &&& attribution::binding_released(w, connection_id, binding) is Ok
            &&& w.without_bindings(set![binding]) == w
        }),
{
    let w = v.without_bindings(set![binding]);
    registry::lemma_release_unbound(w, set![binding]);
    let k = choose|k: Seq<char>| #[trigger]
        v.adapters[connection_id].sessions.contains_key(k)
            && v.adapters[connection_id].sessions[k].handle == binding;
    assert(w.adapters[connection_id].sessions.contains_key(k));
    assert(w.adapters[connection_id].sessions[k].handle == binding);
}

/// In a consistent registry a session that was released leaves its binding with nothing to
/// release.
pub proof fn law_released_session_is_unbound(
    v: RegistryView,
    connection_id: u64,
    binding: u128,
)
    requires
        consistent(v),
        v.adapters.contains_key(connection_id),
        v.session_with(connection_id, binding, true),
    ensures
        v.without_bindings(set![binding]) == v,
{
    let k = choose|k: Seq<char>| #[trigger]
        v.adapters[connection_id].sessions.contains_key(k)
            && v.adapters[connection_id].sessions[k].handle == binding
            && v.adapters[connection_id].sessions[k].released == true;
    assert(session_agrees(v, connection_id, v.adapters[connection_id].sessions[k]));
    registry::lemma_release_unbound(v, set![binding]);
}

/// Bindings and claims stand for a workspace only on the connection that made them.
pub proof fn law_handles_stay_on_their_connection<L: Fn(&ActivationRecord) -> bool>(
    v: RegistryView,
    live: L,
    connection_id: u64,
    handle: u128,
    now: u64,
)
    ensures
        attribution::binding_workspace(v, live, connection_id, handle).0 is Some
            ==> v.bindings[handle].connection_id == connection_id,
        attribution::claim_workspace(v, live, connection_id, handle, now).0 is Some
            ==> v.claims[handle].connection_id == connection_id,
{
}

/// After the adapter's connection has ended, none of its bindings or claims stands for a
/// workspace.
pub proof fn law_disconnect_ends_handles<L: Fn(&ActivationRecord) -> bool>(
    v: RegistryView,
    live: L,
    connection_id: u64,
    handle: u128,
    now: u64,
)
    requires
        consistent(v),
    ensures
        ({
            let w = v.without_adapter(connection_id);
            &&& attribution::binding_workspace(w, live, connection_id, handle).0 is None
            &&& attribution::claim_workspace(w, live, connection_id, handle, now).0 is None
        }),
{
    let w = v.without_adapter(connection_id);
    if !v.adapters.contains_key(connection_id) {
        if v.bindings.contains_key(handle) {
            assert(v.adapters.contains_key(v.bindings[handle].connection_id));
        }
        if v.claims.contains_key(handle) {
            assert(v.adapters.contains_key(v.claims[handle].connection_id));
        }
    }
}

} // verus!
