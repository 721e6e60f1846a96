//! The store's side of project workspaces: adapter requests on its registry.

use vstd::prelude::*;

use crate::attribution;
use crate::registry::ActivationRecord;
use crate::registry::ProjectContextError;
use crate::registry::ResolvedWorkspace;
use crate::registry::WorkspaceActivation;
use crate::registry::WorkspaceProbe;
use crate::registry::CLAIM_TTL;
use crate::store::PolicyStore;
use crate::text;

verus! {

impl PolicyStore {
    /// Only the workspaces differ.
    pub open spec fn workspaces_changed(&self, before: &PolicyStore) -> bool {
        *self == (PolicyStore { project_context: self.project_context, ..*before })
    }

    /// Activate a workspace for a sandbox. `probe` is what was found at its root, `live` tells
    /// whether an active workspace still is where it was, `fresh` is an unused handle.
    pub fn activate_workspace<L: Fn(&ActivationRecord) -> bool>(
        &mut self,
        sandbox: &String,
        owner_uid: u32,
        root: &str,
        probe: WorkspaceProbe,
        live: L,
        fresh: u128,
    ) -> (r: Result<WorkspaceActivation, ProjectContextError>)
        requires
            old(self).wf(),
            text::decides(live),
        ensures
            final(self).wf(),
            final(self).configured_as(old(self)),
            final(self).workspaces_changed(old(self)),
            attribution::activated(
                old(self).project_context@,
                final(self).project_context@,
                *sandbox,
                owner_uid,
                root@,
                probe,
                live,
                fresh,
                r,
            ),
    {
        self.project_context.activate(sandbox, owner_uid, root, probe, live, fresh)
    }

    /// Register a connection as the adapter of a sandbox.
    pub fn register_context_adapter<L: Fn(&ActivationRecord) -> bool>(
        &mut self,
        connection_id: u64,
        sandbox: &String,
        live: L,
    ) -> (r: Result<Vec<WorkspaceActivation>, ProjectContextError>)
        requires
            old(self).wf(),
            text::decides(live),
        ensures
            final(self).wf(),
            final(self).configured_as(old(self)),
            final(self).workspaces_changed(old(self)),
            attribution::adapter_registered(
                old(self).project_context@,
                final(self).project_context@,
                connection_id,
                sandbox@,
                live,
                r,
            ),
    {
        self.project_context.register_adapter(connection_id, sandbox, live)
    }

    /// Bind a session of an adapter to a workspace.
    pub fn bind_project_session<L: Fn(&ActivationRecord) -> bool>(
        &mut self,
        connection_id: u64,
        key: String,
        activation: u128,
        live: L,
        fresh: u128,
    ) -> (r: Result<u128, ProjectContextError>)
        requires
            old(self).wf(),
            text::decides(live),
        ensures
            final(self).wf(),
            final(self).configured_as(old(self)),
            final(self).workspaces_changed(old(self)),
            ({
                let (due, after) = attribution::bound(
                    old(self).project_context@,
                    live,
                    connection_id,
                    key@,
                    activation,
                    fresh,
                );
                attribution::answers(r, due) && final(self).project_context@ == after
            }),
    {
        self.project_context.bind_session(connection_id, key, activation, live, fresh)
    }

    /// Begin an operation of a bound session in a workspace of its own.
    pub fn begin_project_operation<L: Fn(&ActivationRecord) -> bool>(
        &mut self,
        connection_id: u64,
        key: String,
        binding: u128,
        activation: u128,
        now: u64,
        live: L,
        fresh: u128,
    ) -> (r: Result<u128, ProjectContextError>)
        requires
            old(self).wf(),
            text::decides(live),
            now + CLAIM_TTL <= u64::MAX,
        ensures
            final(self).wf(),
            final(self).configured_as(old(self)),
            final(self).workspaces_changed(old(self)),
            ({
                let (due, after) = attribution::begun(
                    old(self).project_context@,
                    live,
                    connection_id,
                    key@,
                    binding,
                    activation,
                    now,
                    fresh,
                );
                attribution::answers(r, due) && final(self).project_context@ == after
            }),
    {
        self.project_context.begin_operation(
            connection_id,
            key,
            binding,
            activation,
            now,
            live,
            fresh,
        )
    }

    /// The number that tells this run's handles from those of another.
    pub fn project_context_boot_epoch(&self) -> (r: u64)
        ensures
            r == self.project_context@.boot_epoch,
    {
        self.project_context.boot_epoch()
    }

    /// Release a binding of an adapter, with the claims under it.
    pub fn release_project_binding(&mut self, connection_id: u64, binding: u128) -> (r: Result<
        (),
        ProjectContextError,
    >)
        requires
            old(self).wf(),
        ensures
            final(self).wf(),
            final(self).configured_as(old(self)),
            final(self).workspaces_changed(old(self)),
            attribution::answers(
                r,
                attribution::binding_released(old(self).project_context@, connection_id, binding),
            ),
            attribution::binding_gone(
                old(self).project_context@,
                final(self).project_context@,
                connection_id,
                binding,
                r is Ok,
            ),
    {
        self.project_context.release_binding_for(connection_id, binding)
    }

    /// Release a claim of an adapter.
    pub fn release_project_claim(&mut self, connection_id: u64, claim: u128) -> (r: Result<
        (),
        ProjectContextError,
    >)
        requires
            old(self).wf(),
        ensures
            final(self).wf(),
            final(self).configured_as(old(self)),
            final(self).workspaces_changed(old(self)),
            ({
                let (due, after) = attribution::claim_released(
                    old(self).project_context@,
                    connection_id,
                    claim,
                );
                attribution::answers(r, due) && final(self).project_context@ == after
            }),
    {
        self.project_context.release_claim_for(connection_id, claim)
    }

    /// Forget an adapter that has left, with all that it bound and claimed.
    pub fn disconnect_context_adapter(&mut self, connection_id: u64)
        requires
            old(self).wf(),
        ensures
            final(self).wf(),
            final(self).configured_as(old(self)),
            final(self).workspaces_changed(old(self)),
            final(self).project_context@ == old(self).project_context@.without_adapter(
                connection_id,
            ),
    {
        self.project_context.disconnect_adapter(connection_id)
    }

    /// The workspace that a binding stands for.
    pub fn resolve_project_binding<L: Fn(&ActivationRecord) -> bool>(
        &mut self,
        connection_id: u64,
        binding: u128,
        live: L,
    ) -> (r: Option<ResolvedWorkspace>)
        requires
            old(self).wf(),
            text::decides(live),
        ensures
            final(self).wf(),
            final(self).configured_as(old(self)),
            final(self).workspaces_changed(old(self)),
            (r, final(self).project_context@) == attribution::binding_workspace(
                old(self).project_context@,
                live,
                connection_id,
                binding,
            ),
    {
        self.project_context.resolve_binding(connection_id, binding, live)
    }

    /// The workspace that a claim stands for.
    pub fn resolve_project_claim<L: Fn(&ActivationRecord) -> bool>(
        &mut self,
        connection_id: u64,
        claim: u128,
        now: u64,
        live: L,
    ) -> (r: Option<ResolvedWorkspace>)
        requires
            old(self).wf(),
            text::decides(live),
        ensures
            final(self).wf(),
            final(self).configured_as(old(self)),
            final(self).workspaces_changed(old(self)),
            (r, final(self).project_context@) == attribution::claim_workspace(
                old(self).project_context@,
                live,
                connection_id,
                claim,
                now,
            ),
    {
        self.project_context.resolve_claim(connection_id, claim, now, live)
    }
}

} // verus!
