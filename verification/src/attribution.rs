//! Adapter requests on the project context registry, and what they keep true.

use vstd::prelude::*;

use crate::paths;
use crate::registry;
use crate::registry::ActivationRecord;
use crate::registry::AdapterState;
use crate::registry::AdapterView;
use crate::registry::AttributionSource;
use crate::registry::BindingRecord;
use crate::registry::ClaimRecord;
use crate::registry::ContextAdapterErrorCode;
use crate::registry::OperationIdentity;
use crate::registry::ProjectContextError;
use crate::registry::ProjectContextRegistry;
use crate::registry::RegistryView;
use crate::registry::ResolvedWorkspace;
use crate::registry::SessionBinding;
use crate::registry::WorkspaceActivation;
use crate::registry::WorkspaceProbe;
use crate::registry::CLAIM_TTL;
use crate::registry::MAX_ACTIVATIONS_PER_SANDBOX;
use crate::registry::MAX_BINDINGS_PER_ADAPTER;
use crate::registry::MAX_OVERRIDES_PER_ADAPTER;
use crate::text;

verus! {

/// A result and the refusal or value that is due.
pub open spec fn answers<T>(
    r: Result<T, ProjectContextError>,
    due: Result<T, registry::Refusal>,
) -> bool {
    match (r, due) {
        (Ok(value), Ok(expected)) => value == expected,
        (Err(e), Err(refusal)) => e.is(refusal),
        _ => false,
    }
}

/// What binding a session comes to, and the registry afterwards.
pub open spec fn bound<L: Fn(&ActivationRecord) -> bool>(
    v: RegistryView,
    live: L,
    connection_id: u64,
    key: Seq<char>,
    activation: u128,
    fresh: u128,
) -> (Result<u128, registry::Refusal>, RegistryView) {
    let adapter = v.adapters[connection_id];
    if v.activation_refusal(live, connection_id, activation) is Some {
        (Err(v.activation_refusal(live, connection_id, activation)->0), v)
    } else if adapter.sessions.contains_key(key) {
        let existing = adapter.sessions[key];
        if !existing.released && existing.activation == activation {
            (Ok(existing.handle), v)
        } else {
            (Err((ContextAdapterErrorCode::Conflict, "session binding is immutable"@)), v)
        }
    } else if adapter.sessions.len() >= MAX_BINDINGS_PER_ADAPTER {
        (Err((ContextAdapterErrorCode::ResourceExhausted, "binding limit reached"@)), v)
    } else {
        (
            Ok(fresh),
            RegistryView {
                adapters: v.adapters.insert(
                    connection_id,
                    AdapterView {
                        sessions: adapter.sessions.insert(
                            key,
                            SessionBinding { activation, handle: fresh, released: false },
                        ),
                        ..adapter
                    },
                ),
                bindings: v.bindings.insert(fresh, BindingRecord { connection_id, activation }),
                ..v
            },
        )
    }
}

/// What beginning an operation comes to, and the registry afterwards.
pub open spec fn begun<L: Fn(&ActivationRecord) -> bool>(
    before: RegistryView,
    live: L,
    connection_id: u64,
    key: Seq<char>,
    binding: u128,
    activation: u128,
    now: u64,
    fresh: u128,
) -> (Result<u128, registry::Refusal>, RegistryView) {
    let v = before.at(now);
    let adapter = v.adapters[connection_id];
    if !v.binds(connection_id, binding) {
        (
            Err((ContextAdapterErrorCode::UnknownHandle, "binding is unknown on this connection"@)),
            v,
        )
    } else if v.activation_refusal(live, connection_id, activation) is Some {
        (Err(v.activation_refusal(live, connection_id, activation)->0), v)
    } else if adapter.operations.contains_key(key) {
        let existing = adapter.operations[key];
        if existing.binding == binding && existing.activation == activation
            && v.claims.contains_key(existing.claim) {
            (Ok(existing.claim), v)
        } else {
            (Err((ContextAdapterErrorCode::Conflict, "operation key is already live"@)), v)
        }
    } else if adapter.operations.len() >= MAX_OVERRIDES_PER_ADAPTER {
        (Err((ContextAdapterErrorCode::ResourceExhausted, "override limit reached"@)), v)
    } else {
        (
            Ok(fresh),
            RegistryView {
                adapters: v.adapters.insert(
                    connection_id,
                    AdapterView {
                        operations: adapter.operations.insert(
                            key,
                            OperationIdentity { binding, activation, claim: fresh },
                        ),
                        ..adapter
                    },
                ),
                claims: v.claims.insert(
                    fresh,
                    ClaimRecord {
                        connection_id,
                        binding,
                        activation,
                        expires_at: (now + CLAIM_TTL) as u64,
                    },
                ),
                ..v
            },
        )
    }
}

/// What releasing a binding for a connection comes to.
pub open spec fn binding_released(v: RegistryView, connection_id: u64, binding: u128) -> Result<
    (),
    registry::Refusal,
> {
    if !v.adapters.contains_key(connection_id) {
        Err((ContextAdapterErrorCode::Unauthorized, "connection is not a context adapter"@))
    } else if !v.had_binding(connection_id, binding) {
        Err((ContextAdapterErrorCode::UnknownHandle, "binding is unknown on this connection"@))
    } else {
        Ok(())
    }
}

/// What releasing a claim for a connection comes to, and the registry afterwards.
pub open spec fn claim_released(v: RegistryView, connection_id: u64, claim: u128) -> (
    Result<(), registry::Refusal>,
    RegistryView,
) {
    if !v.adapters.contains_key(connection_id) {
        (
            Err((ContextAdapterErrorCode::Unauthorized, "connection is not a context adapter"@)),
            v,
        )
    } else if v.adapters[connection_id].released.contains(claim) {
        (Ok(()), v)
    } else if !v.has_claim(connection_id, claim) {
        (
            Err((ContextAdapterErrorCode::UnknownHandle, "claim is unknown on this connection"@)),
            v,
        )
    } else {
        (Ok(()), v.without_claims(set![claim]))
    }
}

/// The workspace that a handle stands for, and the registry afterwards.
pub open spec fn workspace<L: Fn(&ActivationRecord) -> bool>(
    v: RegistryView,
    live: L,
    activation: u128,
    source: AttributionSource,
) -> (Option<ResolvedWorkspace>, RegistryView) {
    if !v.activations.contains_key(activation) {
        (None, v)
    } else if !text::holds(live, v.activations[activation]) {
        (None, v.without_activation(activation))
    } else {
        (
            Some(
                ResolvedWorkspace {
                    activation,
                    canonical_path: v.activations[activation].canonical_path,
                    source,
                },
            ),
            v,
        )
    }
}

/// The workspace of a binding, and the registry afterwards.
pub open spec fn binding_workspace<L: Fn(&ActivationRecord) -> bool>(
    v: RegistryView,
    live: L,
    connection_id: u64,
    binding: u128,
) -> (Option<ResolvedWorkspace>, RegistryView) {
    if v.binds(connection_id, binding) {
        workspace(v, live, v.bindings[binding].activation, AttributionSource::SessionBinding)
    } else {
        (None, v)
    }
}

/// The workspace of a claim, and the registry afterwards.
pub open spec fn claim_workspace<L: Fn(&ActivationRecord) -> bool>(
    before: RegistryView,
    live: L,
    connection_id: u64,
    claim: u128,
    now: u64,
) -> (Option<ResolvedWorkspace>, RegistryView) {
    let v = before.at(now);
    if v.claims.contains_key(claim) && v.claims[claim].connection_id == connection_id
        && v.bindings.contains_key(v.claims[claim].binding) {
        workspace(v, live, v.claims[claim].activation, AttributionSource::OperationOverride)
    } else {
        (None, v)
    }
}

/// The record is the workspace of the sandbox at the path.
pub open spec fn workspace_at(
    record: ActivationRecord,
    sandbox: Seq<char>,
    path: Seq<char>,
) -> bool {
    record.sandbox@ == sandbox && paths::components(record.canonical_path@) == paths::components(
        path,
    )
}

fn refuse(code: ContextAdapterErrorCode, detail: &'static str) -> (r: ProjectContextError)
    ensures
        r.is((code, detail@)),
{
    ProjectContextError { code, detail }
}

/// What activating a workspace comes to: one that is active and live is handed out again, else
/// the one that was found is added under the fresh handle, as long as the sandbox has room.
pub open spec fn activated<L: Fn(&ActivationRecord) -> bool>(
    v: RegistryView,
    after: RegistryView,
    sandbox: String,
    owner_uid: u32,
    root: Seq<char>,
    probe: WorkspaceProbe,
    live: L,
    fresh: u128,
    r: Result<WorkspaceActivation, ProjectContextError>,
) -> bool {
    match ActivationRecord::open_refusal(owner_uid, root, probe) {
        Some(refusal) => r matches Err(e) && e.is(refusal) && after == v,
        None => {
            let path = probe->Found_canonical_path;
            let meta = probe->Found_meta;
            let same = |h: u128|
                v.activations.contains_key(h) && workspace_at(
                    v.activations[h],
                    sandbox@,
                    path@,
                );
            ||| {
                // An active and live workspace is handed out again.
                &&& r matches Ok(w)
                &&& same(w.activation)
                &&& text::holds(live, v.activations[w.activation])
                &&& w.canonical_path == v.activations[w.activation].canonical_path
                &&& after == v
            }
            ||| {
                &&& (forall|h: u128| !(#[trigger] same(h))) || exists|h: u128|
                    #[trigger] same(h) && !text::holds(live, v.activations[h])
                &&& if v.active_count(sandbox@) >= MAX_ACTIVATIONS_PER_SANDBOX {
                    &&& r matches Err(e)
                    &&& e.is(
                        (
                            ContextAdapterErrorCode::ResourceExhausted,
                            "activation limit reached"@,
                        ),
                    )
                    &&& after == v
                } else {
                    &&& r == Ok::<_, ProjectContextError>(
                        WorkspaceActivation { activation: fresh, canonical_path: path },
                    )
                    &&& after == (RegistryView {
                        activations: v.activations.insert(
                            fresh,
                            ActivationRecord {
                                sandbox,
                                owner_uid,
                                canonical_path: path,
                                device: meta.device,
                                inode: meta.inode,
                            },
                        ),
                        ..v
                    })
                }
            }
        },
    }
}

/// What registering an adapter comes to: a connection and a sandbox have one at most, and a new
/// one is told of the live workspaces of its sandbox.
pub open spec fn adapter_registered<L: Fn(&ActivationRecord) -> bool>(
    v: RegistryView,
    after: RegistryView,
    connection_id: u64,
    sandbox: Seq<char>,
    live: L,
    r: Result<Vec<WorkspaceActivation>, ProjectContextError>,
) -> bool {
    match r {
        Err(e) => {
            &&& v.adapters.contains_key(connection_id)
                || v.adapter_by_sandbox.contains_key(sandbox)
            &&& e.is(
                (
                    ContextAdapterErrorCode::Conflict,
                    "context adapter is already registered"@,
                ),
            )
            &&& after == v
        },
        Ok(list) => {
            &&& !v.adapters.contains_key(connection_id)
            &&& !v.adapter_by_sandbox.contains_key(sandbox)
            &&& after == (RegistryView {
                adapters: v.adapters.insert(
                    connection_id,
                    AdapterView {
                        sandbox,
                        sessions: Map::empty(),
                        operations: Map::empty(),
                        released: Set::empty(),
                    },
                ),
                adapter_by_sandbox: v.adapter_by_sandbox.insert(sandbox, connection_id),
                ..v
            })
            &&& forall|w: WorkspaceActivation| #[trigger]
                list@.contains(w) <==> {
                    &&& v.activations.contains_key(w.activation)
                    &&& v.activations[w.activation].sandbox@ == sandbox
                    &&& text::holds(live, v.activations[w.activation])
                    &&& w.canonical_path == v.activations[w.activation].canonical_path
                }
            &&& list@.no_duplicates()
        },
    }
}

/// The registry after a binding was released, or not: one that has been released before stays so.
pub open spec fn binding_gone(
    v: RegistryView,
    after: RegistryView,
    connection_id: u64,
    binding: u128,
    ok: bool,
) -> bool {
    if ok {
        ||| {
            &&& v.session_with(connection_id, binding, false)
            &&& after == v.without_bindings(set![binding])
        }
        ||| {
            &&& v.session_with(connection_id, binding, true)
            &&& after == v
        }
    } else {
        after == v
    }
}

impl ProjectContextRegistry {
    fn count_active(&self, sandbox: &String) -> (r: usize)
        requires
            self.wf(),
        ensures
            r == self@.active_count(sandbox@),
    {
        let ghost p = |h: u128| self.activations@[h].sandbox@ == sandbox@;
        let ghost mut seen: Set<u128> = Set::empty();
        let mut count: usize = 0;
        let mut i: usize = 0;
        while i < self.activations.entries.len()
            invariant
                self.wf(),
                i <= self.activations.entries@.len(),
                count <= i,
                seen.finite(),
                seen.len() == count,
                p == (|h: u128| self.activations@[h].sandbox@ == sandbox@),
                forall|h: u128|
                    seen.contains(h) <==> exists|j: int|
                        0 <= j < i && (#[trigger] self.activations.entries@[j]).0 == h && p(h),
            decreases self.activations.entries@.len() - i,
        {
            proof {
                self.activations.lemma_entry(i as int);
            }
            let ghost h = self.activations.entries@[i as int].0;
            let ghost before = seen;
            if self.activations.entries[i].1.sandbox == *sandbox {
                proof {
                    assert(!seen.contains(h)) by {
                        if seen.contains(h) {
                            let j = choose|j: int|
                                0 <= j < i && (#[trigger] self.activations.entries@[j]).0 == h
                                    && p(h);
                            assert(self.activations.entries@[j].0@
                                != self.activations.entries@[i as int].0@);
                        }
                    }
                    seen = seen.insert(h);
                }
                count += 1;
            }
            proof {
                assert forall|x: u128| seen.contains(x) <==> exists|j: int|
                    0 <= j < i + 1 && (#[trigger] self.activations.entries@[j]).0 == x && p(x) by {
                    if seen.contains(x) {
                        if before.contains(x) {
                            let j = choose|j: int|
                                0 <= j < i && (#[trigger] self.activations.entries@[j]).0 == x
                                    && p(x);
                            assert(self.activations.entries@[j].0 == x);
                        } else {
                            assert(self.activations.entries@[i as int].0 == x);
                        }
                    }
                    if exists|j: int|
                        0 <= j < i + 1 && (#[trigger] self.activations.entries@[j]).0 == x && p(
                            x,
                        ) {
                        let j = choose|j: int|
                            0 <= j < i + 1 && (#[trigger] self.activations.entries@[j]).0 == x
                                && p(x);
                        if j < i {
                            assert(before.contains(x));
                        }
                    }
                }
            }
            i += 1;
        }
        proof {
            assert(seen =~= self@.activations.dom().filter(p)) by {
                assert forall|h: u128|
                    seen.contains(h) == self@.activations.dom().filter(p).contains(h) by {
                    if seen.contains(h) {
                        let j = choose|j: int|
                            0 <= j < self.activations.entries@.len() && (
                            #[trigger] self.activations.entries@[j]).0 == h && p(h);
                        self.activations.lemma_entry(j);
                    }
                    if self@.activations.dom().filter(p).contains(h) {
                        let j = self.activations.lemma_key(h);
                        assert(self.activations.entries@[j].0 == h);
                    }
                }
            }
        }
        count
    }

    /// Make a directory a workspace of the sandbox, or find it active already.
    pub fn activate<L: Fn(&ActivationRecord) -> bool>(
        &mut self,
        sandbox: &String,
        owner_uid: u32,
        root: &str,
        probe: WorkspaceProbe,
        live: L,
        fresh: u128,
    ) -> (r: Result<WorkspaceActivation, ProjectContextError>)
        requires
            old(self).wf(),
            text::decides(live),
        ensures
            final(self).wf(),
            activated(
                old(self)@,
                final(self)@,
                *sandbox,
                owner_uid,
                root@,
                probe,
                live,
                fresh,
                r,
            ),
    {
        let ghost v = self@;
        let record = match ActivationRecord::open(sandbox.clone(), owner_uid, root, probe) {
            Ok(record) => record,
            Err(e) => {
                return Err(e);
            },
        };
        let ghost path = record.canonical_path;
        let mut found: Option<usize> = None;
        let mut i: usize = 0;
        while i < self.activations.entries.len() && found.is_none()
            invariant
                self.wf(),
                i <= self.activations.entries@.len(),
                record.canonical_path == path,
                match found {
                    Some(x) => {
                        &&& x < self.activations.entries@.len()
                        &&& workspace_at(
                            self.activations.entries@[x as int].1,
                            sandbox@,
                            path@,
                        )
                    },
                    None => forall|j: int|
                        0 <= j < i ==> !workspace_at(
                            (#[trigger] self.activations.entries@[j]).1,
                            sandbox@,
                            path@,
                        ),
                },
            decreases
                    self.activations.entries@.len() - i + (if found is None {
                        1int
                    } else {
                        0int
                    }),
        {
            if self.activations.entries[i].1.sandbox == *sandbox
                && paths::same_path(
                self.activations.entries[i].1.canonical_path.as_str(),
                record.canonical_path.as_str(),
            ) {
                found = Some(i);
            } else {
                i += 1;
            }
        }
        let ghost same = |h: u128|
            v.activations.contains_key(h) && workspace_at(v.activations[h], sandbox@, path@);
        match found {
            Some(x) => {
                proof {
                    self.activations.lemma_entry(x as int);
                    assert(same(self.activations.entries@[x as int].0));
                }
                if live(&self.activations.entries[x].1) {
                    return Ok(self.activations.entries[x].1.wire(self.activations.entries[x].0));
                }
            },
            None => {
                proof {
                    assert forall|h: u128| !(#[trigger] same(h)) by {
                        if v.activations.contains_key(h) {
                            let j = self.activations.lemma_key(h);
                            assert(!workspace_at(
                                self.activations.entries@[j].1,
                                sandbox@,
                                path@,
                            ));
                        }
                    }
                }
            },
        }
        if self.count_active(sandbox) >= MAX_ACTIVATIONS_PER_SANDBOX {
            return Err(
                refuse(ContextAdapterErrorCode::ResourceExhausted, "activation limit reached"),
            );
        }
        let wire = record.wire(fresh);
        let _ = self.activations.insert(fresh, record);
        Ok(wire)
    }

    /// Make a connection the adapter of a sandbox; returns the sandbox's live workspaces.
    pub fn register_adapter<L: Fn(&ActivationRecord) -> bool>(
        &mut self,
        connection_id: u64,
        sandbox: &String,
        live: L,
    ) -> (r: Result<Vec<WorkspaceActivation>, ProjectContextError>)
        requires
            old(self).wf(),
            text::decides(live),
        ensures
            final(self).wf(),
            adapter_registered(old(self)@, final(self)@, connection_id, sandbox@, live, r),
    {
        let ghost v = self@;
        if self.adapters.contains(&connection_id) || self.adapter_by_sandbox.contains(sandbox) {
            return Err(
                refuse(
                    ContextAdapterErrorCode::Conflict,
                    "context adapter is already registered",
                ),
            );
        }
        let adapter = AdapterState::new(sandbox.clone());
        let _ = self.adapters.insert(connection_id, adapter);
        let _ = self.adapter_by_sandbox.insert(sandbox.clone(), connection_id);
        proof {
            assert(self@.adapters =~= v.adapters.insert(connection_id, adapter@));
        }
        let mut list: Vec<WorkspaceActivation> = Vec::new();
        let mut i: usize = 0;
        let ghost listed = |w: WorkspaceActivation, j: int|
            {
                let e = self.activations.entries@[j];
                &&& e.0 == w.activation
                &&& e.1.sandbox@ == sandbox@
                &&& text::holds(live, e.1)
                &&& w.canonical_path == e.1.canonical_path
            };
        while i < self.activations.entries.len()
            invariant
                self.wf(),
                text::decides(live),
                i <= self.activations.entries@.len(),
                listed == (|w: WorkspaceActivation, j: int|
                    {
                        let e = self.activations.entries@[j];
                        &&& e.0 == w.activation
                        &&& e.1.sandbox@ == sandbox@
                        &&& text::holds(live, e.1)
                        &&& w.canonical_path == e.1.canonical_path
                    }),
                forall|w: WorkspaceActivation|
                    list@.contains(w) ==> exists|j: int| 0 <= j < i && #[trigger] listed(w, j),
                forall|w: WorkspaceActivation, j: int|
                    0 <= j < i && #[trigger] listed(w, j) ==> list@.contains(w),
                list@.no_duplicates(),
            decreases self.activations.entries@.len() - i,
        {
            let ghost before = list@;
            if self.activations.entries[i].1.sandbox == *sandbox && live(
                &self.activations.entries[i].1,
            ) {
                let wire = self.activations.entries[i].1.wire(self.activations.entries[i].0);
                proof {
                    assert(!before.contains(wire)) by {
                        if before.contains(wire) {
                            let j = choose|j: int| 0 <= j < i && #[trigger] listed(wire, j);
                            assert(self.activations.entries@[j].0@
                                != self.activations.entries@[i as int].0@);
                        }
                    }
                }
                list.push(wire);
                proof {
                    assert(listed(wire, i as int));
                    assert forall|w: WorkspaceActivation| list@.contains(w) implies exists|j: int|
                        0 <= j < i + 1 && #[trigger] listed(w, j) by {
                        let x = choose|x: int| 0 <= x < list@.len() && list@[x] == w;
                        if x < before.len() {
                            assert(before[x] == w);
                            assert(before.contains(w));
                            let j = choose|j: int| 0 <= j < i && #[trigger] listed(w, j);
                            assert(listed(w, j));
                        }
                    }
                    assert forall|w: WorkspaceActivation, j: int|
                        0 <= j < i + 1 && #[trigger] listed(w, j) implies list@.contains(w) by {
                        if j < i {
                            assert(before.contains(w));
                            let x = choose|x: int| 0 <= x < before.len() && before[x] == w;
                            assert(list@[x] == w);
                        } else {
                            assert(w == wire);
                            assert(list@[list@.len() - 1] == w);
                        }
                    }
                }
            }
            i += 1;
        }
        proof {
            assert forall|w: WorkspaceActivation| #[trigger] list@.contains(w) <==> {
                &&& v.activations.contains_key(w.activation)
                &&& v.activations[w.activation].sandbox@ == sandbox@
                &&& text::holds(live, v.activations[w.activation])
                &&& w.canonical_path == v.activations[w.activation].canonical_path
            } by {
                if list@.contains(w) {
                    let j = choose|j: int|
                        0 <= j < self.activations.entries@.len() && #[trigger] listed(w, j);
                    self.activations.lemma_entry(j);
                }
                if v.activations.contains_key(w.activation) {
                    let j = self.activations.lemma_key(w.activation);
                    if v.activations[w.activation].sandbox@ == sandbox@ && text::holds(
                        live,
                        v.activations[w.activation],
                    ) && w.canonical_path == v.activations[w.activation].canonical_path {
                        assert(listed(w, j));
                    }
                }
            }
        }
        Ok(list)
    }

    fn require_activation<L: Fn(&ActivationRecord) -> bool>(
        &self,
        connection_id: u64,
        activation: u128,
        live: &L,
    ) -> (r: Result<(), ProjectContextError>)
        requires
            self.wf(),
            text::decides(*live),
        ensures
            match self@.activation_refusal(*live, connection_id, activation) {
                Some(refusal) => r matches Err(e) && e.is(refusal),
                None => r is Ok,
            },
    {
        match self.adapters.get(&connection_id) {
            None => Err(
                refuse(
                    ContextAdapterErrorCode::Unauthorized,
                    "connection is not a context adapter",
                ),
            ),
            Some(adapter) => match self.activations.get(&activation) {
                None => Err(
                    refuse(ContextAdapterErrorCode::UnknownHandle, "activation is unknown"),
                ),
                Some(record) => {
                    if record.sandbox != adapter.sandbox || !live(record) {
                        Err(
                            refuse(
                                ContextAdapterErrorCode::InvalidWorkspace,
                                "activation is not live for this sandbox",
                            ),
                        )
                    } else {
                        Ok(())
                    }
                },
            },
        }
    }

    /// Bind a session of the adapter to a workspace. A session stays with its first workspace.
    pub fn bind_session<L: Fn(&ActivationRecord) -> bool>(
        &mut self,
        connection_id: u64,
        session_key: String,
        activation: u128,
        live: L,
        fresh: u128,
    ) -> (r: Result<u128, ProjectContextError>)
        requires
            old(self).wf(),
            text::decides(live),
        ensures
            final(self).wf(),
            answers(
                r,
                bound(old(self)@, live, connection_id, session_key@, activation, fresh).0,
            ),
            final(self)@ == bound(
                old(self)@,
                live,
                connection_id,
                session_key@,
                activation,
                fresh,
            ).1,
    {
        let ghost v = self@;
        if let Err(e) = self.require_activation(connection_id, activation, &live) {
            return Err(e);
        }
        match self.adapters.get(&connection_id) {
            None => {
                return Err(
                    refuse(
                        ContextAdapterErrorCode::Unauthorized,
                        "connection is not a context adapter",
                    ),
                );
            },
            Some(adapter) => {
                if let Some(existing) = adapter.sessions.get(&session_key) {
                    if !existing.released && existing.activation == activation {
                        return Ok(existing.handle);
                    }
                    return Err(
                        refuse(ContextAdapterErrorCode::Conflict, "session binding is immutable"),
                    );
                }
                if adapter.sessions.len() >= MAX_BINDINGS_PER_ADAPTER {
                    return Err(
                        refuse(
                            ContextAdapterErrorCode::ResourceExhausted,
                            "binding limit reached",
                        ),
                    );
                }
            },
        }
        if let Some(adapter) = self.adapters.remove(&connection_id) {
            let mut adapter = adapter;
            let ghost key = session_key@;
            let _ = adapter.sessions.insert(
                session_key,
                SessionBinding { activation, handle: fresh, released: false },
            );
            let _ = self.adapters.insert(connection_id, adapter);
            let _ = self.bindings.insert(fresh, BindingRecord { connection_id, activation });
            proof {
                let goal = bound(v, live, connection_id, key, activation, fresh).1;
                assert(self@.adapters =~= goal.adapters);
                assert(self@ =~= goal);
            }
        }
        Ok(fresh)
    }

    /// Begin an operation of the adapter: a claim that overrides its session's workspace.
    pub fn begin_operation<L: Fn(&ActivationRecord) -> bool>(
        &mut self,
        connection_id: u64,
        operation_key: String,
        binding: u128,
        activation: u128,
        now: u64,
        live: L,
        fresh: u128,
    ) -> (r: Result<u128, ProjectContextError>)
        requires
            old(self).wf(),
            text::decides(live),
            now + CLAIM_TTL <= u64::MAX,
        ensures
            final(self).wf(),
            answers(
                r,
                begun(
                    old(self)@,
                    live,
                    connection_id,
                    operation_key@,
                    binding,
                    activation,
                    now,
                    fresh,
                ).0,
            ),
            final(self)@ == begun(
                old(self)@,
                live,
                connection_id,
                operation_key@,
                binding,
                activation,
                now,
                fresh,
            ).1,
    {
        let ghost before = self@;
        self.expire_claims(now);
        let ghost v = self@;
        let owned = match self.bindings.get(&binding) {
            Some(record) => record.connection_id == connection_id,
            None => false,
        };
        if !owned {
            return Err(
                refuse(
                    ContextAdapterErrorCode::UnknownHandle,
                    "binding is unknown on this connection",
                ),
            );
        }
        if let Err(e) = self.require_activation(connection_id, activation, &live) {
            return Err(e);
        }
        match self.adapters.get(&connection_id) {
            None => {
                return Err(
                    refuse(
                        ContextAdapterErrorCode::Unauthorized,
                        "connection is not a context adapter",
                    ),
                );
            },
            Some(adapter) => {
                if let Some(existing) = adapter.operations.get(&operation_key) {
                    if existing.binding == binding && existing.activation == activation
                        && self.claims.contains(&existing.claim) {
                        return Ok(existing.claim);
                    }
                    return Err(
                        refuse(ContextAdapterErrorCode::Conflict, "operation key is already live"),
                    );
                }
                if adapter.operations.len() >= MAX_OVERRIDES_PER_ADAPTER {
                    return Err(
                        refuse(
                            ContextAdapterErrorCode::ResourceExhausted,
                            "override limit reached",
                        ),
                    );
                }
            },
        }
        if let Some(adapter) = self.adapters.remove(&connection_id) {
            let mut adapter = adapter;
            let ghost key = operation_key@;
            let _ = adapter.operations.insert(
                operation_key,
                OperationIdentity { binding, activation, claim: fresh },
            );
            let _ = self.adapters.insert(connection_id, adapter);
            let _ = self.claims.insert(
                fresh,
                ClaimRecord { connection_id, binding, activation, expires_at: now + CLAIM_TTL },
            );
            proof {
                let goal = begun(
                    before,
                    live,
                    connection_id,
                    key,
                    binding,
                    activation,
                    now,
                    fresh,
                ).1;
                assert(self@.adapters =~= goal.adapters);
                assert(self@ =~= goal);
            }
        }
        Ok(fresh)
    }

    /// Release a binding on behalf of the connection that made it; doing so twice is fine.
    pub fn release_binding_for(&mut self, connection_id: u64, binding: u128) -> (r: Result<
        (),
        ProjectContextError,
    >)
        requires
            old(self).wf(),
        ensures
            final(self).wf(),
            answers(r, binding_released(old(self)@, connection_id, binding)),
            binding_gone(old(self)@, final(self)@, connection_id, binding, r is Ok),
    {
        let ghost v = self@;
        let mut released: Option<bool> = None;
        match self.adapters.get(&connection_id) {
            None => {
                return Err(
                    refuse(
                        ContextAdapterErrorCode::Unauthorized,
                        "connection is not a context adapter",
                    ),
                );
            },
            Some(adapter) => {
                let mut i: usize = 0;
                while i < adapter.sessions.entries.len() && released.is_none()
                    invariant
                        i <= adapter.sessions.entries@.len(),
                        released is None ==> forall|j: int|
                            0 <= j < i ==> (#[trigger] adapter.sessions.entries@[j]).1.handle
                                != binding,
                        released matches Some(b) ==> exists|j: int|
                            0 <= j < adapter.sessions.entries@.len() && (
                            #[trigger] adapter.sessions.entries@[j]).1.handle == binding
                                && adapter.sessions.entries@[j].1.released == b,
                    decreases
                            adapter.sessions.entries@.len() - i + (if released is None {
                                1int
                            } else {
                                0int
                            }),
                {
                    if adapter.sessions.entries[i].1.handle == binding {
                        released = Some(adapter.sessions.entries[i].1.released);
                    } else {
                        i += 1;
                    }
                }
                proof {
                    if released is Some {
                        let j = choose|j: int|
                            0 <= j < adapter.sessions.entries@.len() && (
                            #[trigger] adapter.sessions.entries@[j]).1.handle == binding
                                && adapter.sessions.entries@[j].1.released == released->0;
                        adapter.sessions.lemma_entry(j);
                        let k = adapter.sessions.entries@[j].0@;
                        assert(v.adapters[connection_id].sessions.contains_key(k));
                        assert(v.had_binding(connection_id, binding));
                        assert(v.session_with(connection_id, binding, released->0));
                    } else {
                        assert(!v.had_binding(connection_id, binding)) by {
                            if v.had_binding(connection_id, binding) {
                                let k = choose|k: Seq<char>| #[trigger]
                                    v.adapters[connection_id].sessions.contains_key(k)
                                        && v.adapters[connection_id].sessions[k].handle == binding;
                                let j = adapter.sessions.lemma_key(k);
                                assert(adapter.sessions.entries@[j].1.handle == binding);
                            }
                        }
                    }
                }
            },
        }
        match released {
            None => Err(
                refuse(
                    ContextAdapterErrorCode::UnknownHandle,
                    "binding is unknown on this connection",
                ),
            ),
            Some(done) => {
                if !done {
                    self.release_binding(binding);
                }
                Ok(())
            },
        }
    }

    /// Release a claim on behalf of the connection that made it; doing so twice is fine.
    pub fn release_claim_for(&mut self, connection_id: u64, claim: u128) -> (r: Result<
        (),
        ProjectContextError,
    >)
        requires
            old(self).wf(),
        ensures
            final(self).wf(),
            answers(r, claim_released(old(self)@, connection_id, claim).0),
            final(self)@ == claim_released(old(self)@, connection_id, claim).1,
    {
        let ghost v = self@;
        let mut known = false;
        match self.adapters.get(&connection_id) {
            None => {
                return Err(
                    refuse(
                        ContextAdapterErrorCode::Unauthorized,
                        "connection is not a context adapter",
                    ),
                );
            },
            Some(adapter) => {
                if adapter.released_claims.contains(&claim) {
                    return Ok(());
                }
                let mut i: usize = 0;
                while i < adapter.operations.entries.len()
                    invariant
                        i <= adapter.operations.entries@.len(),
                        known == exists|j: int|
                            0 <= j < i && (#[trigger] adapter.operations.entries@[j]).1.claim
                                == claim,
                    decreases adapter.operations.entries@.len() - i,
                {
                    if adapter.operations.entries[i].1.claim == claim {
                        known = true;
                    }
                    i += 1;
                }
                proof {
                    if known {
                        let j = choose|j: int|
                            0 <= j < adapter.operations.entries@.len() && (
                            #[trigger] adapter.operations.entries@[j]).1.claim == claim;
                        adapter.operations.lemma_entry(j);
                        let k = adapter.operations.entries@[j].0@;
                        assert(v.adapters[connection_id].operations.contains_key(k));
                    } else if v.has_claim(connection_id, claim) {
                        let k = choose|k: Seq<char>| #[trigger]
                            v.adapters[connection_id].operations.contains_key(k)
                                && v.adapters[connection_id].operations[k].claim == claim;
                        let j = adapter.operations.lemma_key(k);
                        assert(adapter.operations.entries@[j].1.claim == claim);
                    }
                }
            },
        }
        if !known {
            return Err(
                refuse(
                    ContextAdapterErrorCode::UnknownHandle,
                    "claim is unknown on this connection",
                ),
            );
        }
        self.release_claim(claim);
        Ok(())
    }

    fn resolve_activation<L: Fn(&ActivationRecord) -> bool>(
        &mut self,
        activation: u128,
        source: AttributionSource,
        live: &L,
    ) -> (r: Option<ResolvedWorkspace>)
        requires
            old(self).wf(),
            text::decides(*live),
        ensures
            final(self).wf(),
            r == workspace(old(self)@, *live, activation, source).0,
            final(self)@ == workspace(old(self)@, *live, activation, source).1,
    {
        let resolved = match self.activations.get(&activation) {
            None => {
                return None;
            },
            Some(record) => {
                if live(record) {
                    Some(
                        ResolvedWorkspace {
                            activation,
                            canonical_path: record.canonical_path.clone(),
                            source,
                        },
                    )
                } else {
                    None
                }
            },
        };
        if resolved.is_none() {
            self.deactivate(activation);
        }
        resolved
    }

    /// The workspace that a live binding of the connection stands for. A workspace found dead
    /// is forgotten.
    pub fn resolve_binding<L: Fn(&ActivationRecord) -> bool>(
        &mut self,
        connection_id: u64,
        binding: u128,
        live: L,
    ) -> (r: Option<ResolvedWorkspace>)
        requires
            old(self).wf(),
            text::decides(live),
        ensures
            final(self).wf(),
            r == binding_workspace(old(self)@, live, connection_id, binding).0,
            final(self)@ == binding_workspace(old(self)@, live, connection_id, binding).1,
    {
        let activation = match self.bindings.get(&binding) {
            Some(record) => {
                if record.connection_id != connection_id {
                    return None;
                }
                record.activation
            },
            None => {
                return None;
            },
        };
        self.resolve_activation(activation, AttributionSource::SessionBinding, &live)
    }

    /// The workspace that a live claim of the connection stands for. A claim that has ended or
    /// run out stands for none: the session's own workspace does not take its place.
    pub fn resolve_claim<L: Fn(&ActivationRecord) -> bool>(
        &mut self,
        connection_id: u64,
        claim: u128,
        now: u64,
        live: L,
    ) -> (r: Option<ResolvedWorkspace>)
        requires
            old(self).wf(),
            text::decides(live),
        ensures
            final(self).wf(),
            r == claim_workspace(old(self)@, live, connection_id, claim, now).0,
            final(self)@ == claim_workspace(old(self)@, live, connection_id, claim, now).1,
    {
        self.expire_claims(now);
        let activation = match self.claims.get(&claim) {
            Some(record) => {
                if record.connection_id != connection_id || !self.bindings.contains(
                    &record.binding,
                ) {
                    return None;
                }
                record.activation
            },
            None => {
                return None;
            },
        };
        self.resolve_activation(activation, AttributionSource::OperationOverride, &live)
    }
}

impl RegistryView {
    /// The connection has a session with the binding, released or not.
    pub open spec fn session_with(self, connection_id: u64, binding: u128, released: bool) -> bool {
        exists|k: Seq<char>| #[trigger]
            self.adapters[connection_id].sessions.contains_key(k)
                && self.adapters[connection_id].sessions[k].handle == binding
                && self.adapters[connection_id].sessions[k].released == released
    }
}

} // verus!
