//! What holds of workspaces: which are activated, what bindings and claims stand for, and how long.

use vstd::prelude::*;

use crate::paths;
use crate::registry::ActivationRecord;
use crate::registry::AttributionSource;
use crate::registry::ContextAdapterErrorCode;
use crate::registry::FileMeta;
use crate::registry::ProjectContextError;
use crate::registry::ProjectContextRegistry;
use crate::registry::ResolvedWorkspace;
use crate::registry::WorkspaceActivation;
use crate::registry::WorkspaceProbe;
use crate::store::PolicyStore;
use crate::text;

verus! {

/// The root is the whole path of a directory that the user owns.
pub open spec fn own_directory(owner_uid: u32, root: Seq<char>, probe: WorkspaceProbe) -> bool {
    &&& root.len() > 0 && root[0] == '/'
    &&& probe is Found
    &&& probe->Found_meta.is_dir
    &&& probe->Found_meta.uid == owner_uid
}

/// A workspace is activated only for a directory that its user owns, and for its own sandbox: the
/// handle stands for a record of that sandbox on that directory, one that is still live where it
/// was handed out before. Where it is refused nothing changes.
pub proof fn law_workspaces_are_own_directories<L: Fn(&ActivationRecord) -> bool>(
    store: &mut PolicyStore,
    sandbox: &String,
    owner_uid: u32,
    root: &str,
    probe: WorkspaceProbe,
    live: L,
    fresh: u128,
    r: Result<WorkspaceActivation, ProjectContextError>,
    other: u128,
)
    requires
        call_ensures(
            PolicyStore::activate_workspace::<L>,
            (store, sandbox, owner_uid, root, probe, live, fresh),
            r,
        ),
    ensures
        r is Ok ==> {
            let after = final(store).project_context@.activations;
            let handle = r->Ok_0.activation;
            &&& own_directory(owner_uid, root@, probe)
            &&& after.contains_key(handle)
            &&& after[handle].sandbox@ == sandbox@
            &&& paths::components(after[handle].canonical_path@) == paths::components(
                probe->Found_canonical_path@,
            )
            &&& r->Ok_0.canonical_path == after[handle].canonical_path
            &&& text::holds(live, after[handle]) || (handle == fresh && after[handle].owner_uid
                == owner_uid && after[handle].device == probe->Found_meta.device
                && after[handle].inode == probe->Found_meta.inode)
        },
        !own_directory(owner_uid, root@, probe) ==> r is Err && r->Err_0.code
            == ContextAdapterErrorCode::InvalidWorkspace,
        own_directory(owner_uid, root@, probe) && old(store).project_context@.active_count(
            sandbox@,
        ) < 256 ==> r is Ok,
        r is Err ==> final(store).project_context@ == old(store).project_context@,
        r is Err && own_directory(owner_uid, root@, probe) ==> r->Err_0.code
            == ContextAdapterErrorCode::ResourceExhausted && old(store).project_context@.active_count(sandbox@) >= 256,
        other != fresh ==> {
            &&& final(store).project_context@.activations.contains_key(other) <==> old(store).project_context@.activations.contains_key(other)
            &&& old(store).project_context@.activations.contains_key(other) ==> final(store).project_context@.activations[other] == old(store).project_context@.activations[other]
        },
        final(store).project_context@.bindings == old(store).project_context@.bindings,
        final(store).project_context@.claims == old(store).project_context@.claims,
{
}

/// A workspace is live while its path is still the directory that was activated: the same
/// directory of the same owner, and the one that is held open.
pub proof fn law_live_workspace_is_the_same_directory(
    record: &ActivationRecord,
    path: Option<FileMeta>,
    held: Option<FileMeta>,
    r: bool,
)
    requires
        call_ensures(ActivationRecord::is_live, (record, path, held), r),
    ensures
        r <==> {
            &&& path is Some && held is Some
            &&& path->0.is_dir
            &&& path->0.uid == record.owner_uid
            &&& path->0.device == record.device && path->0.inode == record.inode
            &&& held->0.device == record.device && held->0.inode == record.inode
        },
{
}

/// One adapter speaks for a sandbox, and a connection speaks for one: a second is refused and
/// changes nothing. A new adapter starts without sessions and is told exactly the live workspaces
/// of its sandbox.
pub proof fn law_one_adapter_for_a_sandbox<L: Fn(&ActivationRecord) -> bool>(
    store: &mut PolicyStore,
    connection_id: u64,
    sandbox: &String,
    live: L,
    r: Result<Vec<WorkspaceActivation>, ProjectContextError>,
    w: WorkspaceActivation,
)
    requires
        call_ensures(
            PolicyStore::register_context_adapter::<L>,
            (store, connection_id, sandbox, live),
            r,
        ),
    ensures
        r is Err <==> old(store).project_context@.adapters.contains_key(connection_id) || old(store).project_context@.adapter_by_sandbox.contains_key(sandbox@),
        r is Err ==> final(store).project_context@ == old(store).project_context@
            && r->Err_0.code == ContextAdapterErrorCode::Conflict,
        r is Ok ==> {
            let adapter = final(store).project_context@.adapters[connection_id];
            let known = old(store).project_context@.activations;
            &&& final(store).project_context@.adapters.contains_key(connection_id)
            &&& adapter.sandbox == sandbox@
            &&& adapter.sessions.dom().is_empty()
            &&& adapter.operations.dom().is_empty()
            &&& final(store).project_context@.adapter_by_sandbox.contains_key(sandbox@)
            &&& final(store).project_context@.adapter_by_sandbox[sandbox@] == connection_id
            &&& r->Ok_0@.contains(w) <==> known.contains_key(w.activation)
                && known[w.activation].sandbox@ == sandbox@ && text::holds(
                live,
                known[w.activation],
            ) && w.canonical_path == known[w.activation].canonical_path
        },
{
}

/// A session is bound only by an adapter, to a live workspace of the adapter's own sandbox, and
/// stays with its first: once bound it is never bound to another, nor again after it was
/// released.
pub proof fn law_session_keeps_its_workspace<L: Fn(&ActivationRecord) -> bool>(
    store: &mut PolicyStore,
    connection_id: u64,
    key: String,
    activation: u128,
    live: L,
    fresh: u128,
    r: Result<u128, ProjectContextError>,
    other: u128,
)
    requires
        call_ensures(
            PolicyStore::bind_project_session::<L>,
            (store, connection_id, key, activation, live, fresh),
            r,
        ),
    ensures
        r is Ok ==> {
            let before = old(store).project_context@;
            let session = final(store).project_context@.adapters[connection_id].sessions[key@];
            &&& before.adapters.contains_key(connection_id)
            &&& before.activations.contains_key(activation)
            &&& before.activations[activation].sandbox@ == before.adapters[connection_id].sandbox
            &&& text::holds(live, before.activations[activation])
            &&& final(store).project_context@.adapters[connection_id].sessions.contains_key(key@)
            &&& session.activation == activation
            &&& session.handle == r->Ok_0
            &&& !session.released
            &&& !before.adapters[connection_id].sessions.contains_key(key@) ==> r->Ok_0 == fresh
                && final(store).project_context@.bindings.contains_key(fresh)
                && final(store).project_context@.bindings[fresh].activation == activation
                && final(store).project_context@.bindings[fresh].connection_id == connection_id
        },
        old(store).project_context@.adapters.contains_key(connection_id) && old(store).project_context@.adapters[connection_id].sessions.contains_key(key@) ==> {
            let session = old(store).project_context@.adapters[connection_id].sessions[key@];
            &&& final(store).project_context@ == old(store).project_context@
            &&& session.activation != activation || session.released ==> r is Err
            &&& r is Ok ==> r->Ok_0 == session.handle
        },
        r is Err ==> final(store).project_context@ == old(store).project_context@,
        ({
            let before = old(store).project_context@;
            before.adapters.contains_key(connection_id) && before.activations.contains_key(
                activation,
            ) && before.activations[activation].sandbox@ == before.adapters[connection_id].sandbox
                && text::holds(live, before.activations[activation])
                && !before.adapters[connection_id].sessions.contains_key(key@)
                && before.adapters[connection_id].sessions.len() < 4096 ==> r is Ok
        }),
        other != fresh && old(store).project_context@.bindings.contains_key(other) ==> final(store).project_context@.bindings.contains_key(other) && final(store).project_context@.bindings[other] == old(store).project_context@.bindings[other],
{
}

/// An operation is begun only under a binding of the same connection, in a live workspace of the
/// adapter's own sandbox; its claim is the adapter's and runs for half a minute.
pub proof fn law_operation_is_claimed_for_half_a_minute<L: Fn(&ActivationRecord) -> bool>(
    store: &mut PolicyStore,
    connection_id: u64,
    key: String,
    binding: u128,
    activation: u128,
    now: u64,
    live: L,
    fresh: u128,
    r: Result<u128, ProjectContextError>,
)
    requires
        call_ensures(
            PolicyStore::begin_project_operation::<L>,
            (store, connection_id, key, binding, activation, now, live, fresh),
            r,
        ),
        now + 30_000_000_000 <= u64::MAX,
    ensures
        r is Ok ==> {
            let before = old(store).project_context@;
            let after = final(store).project_context@;
            let operation = after.adapters[connection_id].operations[key@];
            &&& before.bindings.contains_key(binding)
            &&& before.bindings[binding].connection_id == connection_id
            &&& before.activations.contains_key(activation)
            &&& before.activations[activation].sandbox@ == before.adapters[connection_id].sandbox
            &&& text::holds(live, before.activations[activation])
            &&& after.adapters[connection_id].operations.contains_key(key@)
            &&& operation.binding == binding
            &&& operation.activation == activation
            &&& operation.claim == r->Ok_0
            &&& after.claims.contains_key(r->Ok_0)
            &&& r->Ok_0 == fresh || after.claims[r->Ok_0].expires_at > now
            &&& !before.adapters[connection_id].operations.contains_key(key@) ==> {
                &&& r->Ok_0 == fresh
                &&& after.claims[fresh].expires_at == now + 30_000_000_000
                &&& after.claims[fresh].connection_id == connection_id
                &&& after.claims[fresh].binding == binding
                &&& after.claims[fresh].activation == activation
            }
        },
        !old(store).project_context@.bindings.contains_key(binding) || old(store).project_context@.bindings[binding].connection_id != connection_id ==> r is Err
            && r->Err_0.code == ContextAdapterErrorCode::UnknownHandle,
        final(store).project_context@.bindings == old(store).project_context@.bindings,
        final(store).project_context@.activations == old(store).project_context@.activations,
{
}

/// A binding stands for the workspace that it was made for, on the connection that made it, while
/// that workspace is live; otherwise for none. A workspace that is no longer live is forgotten
/// with its bindings.
pub proof fn law_binding_stands_for_its_workspace<L: Fn(&ActivationRecord) -> bool>(
    store: &mut PolicyStore,
    connection_id: u64,
    binding: u128,
    live: L,
    r: Option<ResolvedWorkspace>,
)
    requires
        call_ensures(
            PolicyStore::resolve_project_binding::<L>,
            (store, connection_id, binding, live),
            r,
        ),
    ensures
        ({
            let before = old(store).project_context@;
            let activation = before.bindings[binding].activation;
            let bound = before.bindings.contains_key(binding)
                && before.bindings[binding].connection_id == connection_id
                && before.activations.contains_key(activation);
            &&& r is Some <==> bound && text::holds(live, before.activations[activation])
            &&& r is Some ==> {
                &&& r->0.activation == activation
                &&& r->0.canonical_path == before.activations[activation].canonical_path
                &&& r->0.source == AttributionSource::SessionBinding
                &&& final(store).project_context@ == before
            }
            &&& bound && !text::holds(live, before.activations[activation]) ==> {
                &&& !final(store).project_context@.activations.contains_key(activation)
                &&& !final(store).project_context@.bindings.contains_key(binding)
            }
            &&& !bound ==> final(store).project_context@ == before
        }),
{
}

/// A claim stands for the workspace that it was made for, on the connection that made it, while it
/// has not run out, its session is still bound and the workspace is live; otherwise for none.
pub proof fn law_claim_stands_for_its_workspace<L: Fn(&ActivationRecord) -> bool>(
    store: &mut PolicyStore,
    connection_id: u64,
    claim: u128,
    now: u64,
    live: L,
    r: Option<ResolvedWorkspace>,
    other: u128,
)
    requires
        call_ensures(
            PolicyStore::resolve_project_claim::<L>,
            (store, connection_id, claim, now, live),
            r,
        ),
    ensures
        ({
            let before = old(store).project_context@;
            let record = before.claims[claim];
            let claimed = before.claims.contains_key(claim) && record.expires_at > now
                && record.connection_id == connection_id && before.bindings.contains_key(
                record.binding,
            ) && before.activations.contains_key(record.activation);
            &&& r is Some <==> claimed && text::holds(
                live,
                before.activations[record.activation],
            )
            &&& r is Some ==> {
                &&& r->0.activation == record.activation
                &&& r->0.canonical_path == before.activations[record.activation].canonical_path
                &&& r->0.source == AttributionSource::OperationOverride
            }
        }),
        final(store).project_context@.claims.contains_key(other) ==> old(store).project_context@.claims.contains_key(other) && old(store).project_context@.claims[other].expires_at > now,
        r is Some && old(store).project_context@.claims.contains_key(other) && old(store).project_context@.claims[other].expires_at > now ==> final(store).project_context@.claims.contains_key(other),
{
}

/// A binding is released only on the connection that had it; it then stands for nothing, and no
/// binding of another session is touched.
pub proof fn law_binding_is_released_by_its_connection(
    store: &mut PolicyStore,
    connection_id: u64,
    binding: u128,
    r: Result<(), ProjectContextError>,
    other: u128,
)
    requires
        call_ensures(PolicyStore::release_project_binding, (store, connection_id, binding), r),
    ensures
        r is Ok <==> old(store).project_context@.adapters.contains_key(connection_id) && exists|
            k: Seq<char>,
        |
            (#[trigger] old(store).project_context@.adapters[connection_id].sessions.contains_key(k)) && old(store).project_context@.adapters[connection_id].sessions[k].handle == binding,
        r is Err ==> final(store).project_context@ == old(store).project_context@,
        r is Ok && (forall|k: Seq<char>|
            (#[trigger] old(store).project_context@.adapters[connection_id].sessions.contains_key(k)) && old(store).project_context@.adapters[connection_id].sessions[k].handle == binding ==> !old(store).project_context@.adapters[connection_id].sessions[k].released) ==> !final(store).project_context@.bindings.contains_key(binding),
        other != binding && old(store).project_context@.bindings.contains_key(other) ==> final(store).project_context@.bindings.contains_key(other) && final(store).project_context@.bindings[other] == old(store).project_context@.bindings[other],
{
}

/// A claim is released only on the connection that has it or had it; it is then no claim any more
/// and remembered as released. No other claim is touched.
pub proof fn law_claim_is_released_by_its_connection(
    store: &mut PolicyStore,
    connection_id: u64,
    claim: u128,
    r: Result<(), ProjectContextError>,
    other: u128,
)
    requires
        call_ensures(PolicyStore::release_project_claim, (store, connection_id, claim), r),
    ensures
        r is Err ==> final(store).project_context@ == old(store).project_context@,
        !old(store).project_context@.adapters.contains_key(connection_id) ==> r is Err
            && r->Err_0.code == ContextAdapterErrorCode::Unauthorized,
        old(store).project_context@.adapters.contains_key(connection_id) ==> (r is Ok <==> old(store).project_context@.adapters[connection_id].released.contains(claim) || exists|
            k: Seq<char>,
        |
            (#[trigger] old(store).project_context@.adapters[connection_id].operations.contains_key(k)) && old(store).project_context@.adapters[connection_id].operations[k].claim == claim),
        r is Ok ==> final(store).project_context@.adapters[connection_id].released.contains(claim),
        r is Ok && !old(store).project_context@.adapters[connection_id].released.contains(claim)
            ==> !final(store).project_context@.claims.contains_key(claim),
        other != claim && old(store).project_context@.claims.contains_key(other) ==> final(store).project_context@.claims.contains_key(other) && final(store).project_context@.claims[other] == old(store).project_context@.claims[other],
{
    if r is Ok && !old(store).project_context@.adapters[connection_id].released.contains(claim) {
        let before = old(store).project_context@.adapters[connection_id];
        let k = choose|k: Seq<char>| #[trigger]
            before.operations.contains_key(k) && before.operations[k].claim == claim;
        let after = before.without_claims(set![claim]);
        assert(set![claim].contains(before.operations[k].claim));
        assert(after.released.contains(claim));
        assert(final(store).project_context@.adapters[connection_id] == after);
    }
}

/// The end of an adapter's connection ends every binding and claim that was made on it, and no
/// other; the workspaces stay.
pub proof fn law_disconnected_adapter_leaves_nothing(
    store: &mut PolicyStore,
    connection_id: u64,
    handle: u128,
)
    requires
        call_ensures(PolicyStore::disconnect_context_adapter, (store, connection_id), ()),
    ensures
        old(store).project_context@.adapters.contains_key(connection_id) ==> {
            let before = old(store).project_context@;
            let after = final(store).project_context@;
            &&& !after.adapters.contains_key(connection_id)
            &&& !after.adapter_by_sandbox.contains_key(before.adapters[connection_id].sandbox)
            &&& after.bindings.contains_key(handle) <==> before.bindings.contains_key(handle)
                && before.bindings[handle].connection_id != connection_id
            &&& after.claims.contains_key(handle) <==> before.claims.contains_key(handle)
                && before.claims[handle].connection_id != connection_id
        },
        !old(store).project_context@.adapters.contains_key(connection_id) ==> final(store).project_context@ == old(store).project_context@,
        final(store).project_context@.activations == old(store).project_context@.activations,
{
}

/// A workspace that is deactivated is known no more, and every binding to it is gone; other
/// workspaces and their bindings stay.
pub proof fn law_deactivated_workspace_is_gone(
    registry: &mut ProjectContextRegistry,
    activation: u128,
    other: u128,
)
    requires
        call_ensures(ProjectContextRegistry::deactivate, (registry, activation), ()),
    ensures
        !final(registry)@.activations.contains_key(activation),
        other != activation ==> (final(registry)@.activations.contains_key(other) <==> old(registry)@.activations.contains_key(other)),
        old(registry)@.activations.contains_key(activation) ==> (final(registry)@.bindings.contains_key(other) <==> old(registry)@.bindings.contains_key(other) && old(registry)@.bindings[other].activation != activation),
{
}

/// Claims run out at their time and not before.
pub proof fn law_claims_run_out_at_their_time(
    registry: &mut ProjectContextRegistry,
    now: u64,
    claim: u128,
)
    requires
        call_ensures(ProjectContextRegistry::expire_claims, (registry, now), ()),
    ensures
        final(registry)@.claims.contains_key(claim) <==> old(registry)@.claims.contains_key(claim)
            && old(registry)@.claims[claim].expires_at > now,
        final(registry)@.claims.contains_key(claim) ==> final(registry)@.claims[claim] == old(registry)@.claims[claim],
        final(registry)@.bindings == old(registry)@.bindings,
        final(registry)@.activations == old(registry)@.activations,
{
}

/// An operation can be begun by an adapter under its own binding, in a live workspace of its
/// sandbox, as long as it has fewer than a thousand and twenty-four under way; beginning one again
/// gives the same claim while that has not run out.
pub proof fn law_operation_can_be_begun<L: Fn(&ActivationRecord) -> bool>(
    store: &mut PolicyStore,
    connection_id: u64,
    key: String,
    binding: u128,
    activation: u128,
    now: u64,
    live: L,
    fresh: u128,
    r: Result<u128, ProjectContextError>,
)
    requires
        call_ensures(
            PolicyStore::begin_project_operation::<L>,
            (store, connection_id, key, binding, activation, now, live, fresh),
            r,
        ),
        ({
            let before = old(store).project_context@;
            &&& before.bindings.contains_key(binding)
            &&& before.bindings[binding].connection_id == connection_id
            &&& before.adapters.contains_key(connection_id)
            &&& before.adapters[connection_id].operations.dom().finite()
            &&& before.activations.contains_key(activation)
            &&& before.activations[activation].sandbox@ == before.adapters[connection_id].sandbox
            &&& text::holds(live, before.activations[activation])
        }),
    ensures
        ({
            let before = old(store).project_context@;
            let operations = before.adapters[connection_id].operations;
            let known = operations[key@];
            &&& !operations.contains_key(key@) && operations.len() < 1024 ==> r is Ok
            &&& operations.contains_key(key@) && known.binding == binding && known.activation
                == activation && before.claims.contains_key(known.claim)
                && before.claims[known.claim].expires_at > now ==> r is Ok && r->Ok_0
                == known.claim
            &&& operations.contains_key(key@) && before.claims.contains_key(known.claim)
                && before.claims[known.claim].expires_at > now && (known.binding != binding
                || known.activation != activation) ==> r is Err
        }),
{
    let before = old(store).project_context@;
    let operations = before.adapters[connection_id].operations;
    let left = before.at(now).adapters[connection_id].operations;
    assert(left.dom().subset_of(operations.dom()));
    vstd::set_lib::lemma_len_subset(left.dom(), operations.dom());
}

} // verus!
