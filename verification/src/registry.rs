//! Which workspace a request belongs to: activations, adapters, bindings and claims.

use vstd::prelude::*;

use crate::paths;
use crate::table;
use crate::table::Table;
use crate::text;

verus! {

/// The most workspaces that one sandbox may have active.
pub const MAX_ACTIVATIONS_PER_SANDBOX: usize = 256;

/// The most sessions that one adapter may bind.
pub const MAX_BINDINGS_PER_ADAPTER: usize = 4096;

/// The most operations that one adapter may have under way.
pub const MAX_OVERRIDES_PER_ADAPTER: usize = 1024;

/// How long a claim lasts, in nanoseconds.
pub const CLAIM_TTL: u64 = 30_000_000_000;

/// The classes of refusal that an adapter is told.
#[derive(Clone, Copy, Debug, PartialEq, Eq, Structural)]
pub enum ContextAdapterErrorCode {
    InvalidWorkspace,
    ResourceExhausted,
    Conflict,
    Unauthorized,
    UnknownHandle,
}

/// A refusal and its detail.
#[derive(Clone, Copy, Debug, PartialEq, Eq)]
pub struct ProjectContextError {
    pub code: ContextAdapterErrorCode,
    pub detail: &'static str,
}

impl ProjectContextError {
    /// The refusal has the given class and detail.
    pub open spec fn is(self, refusal: (ContextAdapterErrorCode, Seq<char>)) -> bool {
        self.code == refusal.0 && self.detail@ == refusal.1
    }
}

fn error(code: ContextAdapterErrorCode, detail: &'static str) -> (r: ProjectContextError)
    ensures
        r.is((code, detail@)),
{
    ProjectContextError { code, detail }
}

/// What is known of a file on disk.
#[derive(Clone, Copy, Debug, PartialEq, Eq, Structural)]
pub struct FileMeta {
    pub is_dir: bool,
    pub uid: u32,
    pub device: u64,
    pub inode: u64,
}

/// What came of opening a workspace root.
#[derive(Debug, PartialEq, Eq)]
pub enum WorkspaceProbe {
    NotCanonical,
    NotOpened,
    NoMetadata,
    Found { canonical_path: String, meta: FileMeta },
}

/// An active workspace of a sandbox.
#[derive(Debug, PartialEq, Eq)]
pub struct ActivationRecord {
    pub sandbox: String,
    pub owner_uid: u32,
    pub canonical_path: String,
    pub device: u64,
    pub inode: u64,
}

impl ActivationRecord {
    /// Why a workspace root is refused, if it is.
    pub open spec fn open_refusal(
        owner_uid: u32,
        root: Seq<char>,
        probe: WorkspaceProbe,
    ) -> Option<(ContextAdapterErrorCode, Seq<char>)> {
        if !paths::absolute(root) {
            Some((ContextAdapterErrorCode::InvalidWorkspace, "workspace root is not absolute"@))
        } else {
            match probe {
                WorkspaceProbe::NotCanonical => Some(
                    (
                        ContextAdapterErrorCode::InvalidWorkspace,
                        "workspace root cannot be canonicalised"@,
                    ),
                ),
                WorkspaceProbe::NotOpened => Some(
                    (
                        ContextAdapterErrorCode::InvalidWorkspace,
                        "workspace root cannot be opened"@,
                    ),
                ),
                WorkspaceProbe::NoMetadata => Some(
                    (
                        ContextAdapterErrorCode::InvalidWorkspace,
                        "workspace metadata is unavailable"@,
                    ),
                ),
                WorkspaceProbe::Found { canonical_path, meta } => if !meta.is_dir || meta.uid
                    != owner_uid {
                    Some(
                        (
                            ContextAdapterErrorCode::InvalidWorkspace,
                            "workspace owner or type is invalid"@,
                        ),
                    )
                } else {
                    None
                },
            }
        }
    }

    /// Accept a workspace root that is a directory of its owner.
    pub fn open(sandbox: String, owner_uid: u32, root: &str, probe: WorkspaceProbe) -> (r: Result<
        Self,
        ProjectContextError,
    >)
        ensures
            match r {
                Ok(record) => {
                    &&& Self::open_refusal(owner_uid, root@, probe) is None
                    &&& probe matches WorkspaceProbe::Found { canonical_path, meta }
                    &&& record == (ActivationRecord {
                        sandbox,
                        owner_uid,
                        canonical_path,
                        device: meta.device,
                        inode: meta.inode,
                    })
                },
                Err(e) => {
                    &&& Self::open_refusal(owner_uid, root@, probe) matches Some(refusal)
                    &&& e.is(refusal)
                },
            },
    {
        if !paths::is_absolute(root) {
            return Err(
                error(
                    ContextAdapterErrorCode::InvalidWorkspace,
                    "workspace root is not absolute",
                ),
            );
        }
        match probe {
            WorkspaceProbe::NotCanonical => Err(
                error(
                    ContextAdapterErrorCode::InvalidWorkspace,
                    "workspace root cannot be canonicalised",
                ),
            ),
            WorkspaceProbe::NotOpened => Err(
                error(
                    ContextAdapterErrorCode::InvalidWorkspace,
                    "workspace root cannot be opened",
                ),
            ),
            WorkspaceProbe::NoMetadata => Err(
                error(
                    ContextAdapterErrorCode::InvalidWorkspace,
                    "workspace metadata is unavailable",
                ),
            ),
            WorkspaceProbe::Found { canonical_path, meta } => {
                if !meta.is_dir || meta.uid != owner_uid {
                    return Err(
                        error(
                            ContextAdapterErrorCode::InvalidWorkspace,
                            "workspace owner or type is invalid",
                        ),
                    );
                }
                Ok(
                    ActivationRecord {
                        sandbox,
                        owner_uid,
                        canonical_path,
                        device: meta.device,
                        inode: meta.inode,
                    },
                )
            },
        }
    }

    /// The directory on disk and the one held open are still the activated one.
    pub open spec fn unchanged(&self, path: Option<FileMeta>, held: Option<FileMeta>) -> bool {
        &&& path matches Some(p)
        &&& held matches Some(h)
        &&& p.is_dir
        &&& p.uid == self.owner_uid
        &&& p.device == self.device
        &&& p.inode == self.inode
        &&& h.device == self.device
        &&& h.inode == self.inode
    }

    /// Whether the workspace is still the activated directory, by the metadata at its path and
    /// that of the directory held open.
    pub fn is_live(&self, path: Option<FileMeta>, held: Option<FileMeta>) -> (r: bool)
        ensures
            r == self.unchanged(path, held),
    {
        match (path, held) {
            (Some(p), Some(h)) => p.is_dir && p.uid == self.owner_uid && p.device == self.device
                && p.inode == self.inode && h.device == self.device && h.inode == self.inode,
            _ => false,
        }
    }

    pub(crate) fn wire(&self, handle: u128) -> (r: WorkspaceActivation)
        ensures
            r == (WorkspaceActivation { activation: handle, canonical_path: self.canonical_path }),
    {
        WorkspaceActivation { activation: handle, canonical_path: self.canonical_path.clone() }
    }
}

/// An active workspace as an adapter sees it.
#[derive(Debug, PartialEq, Eq)]
pub struct WorkspaceActivation {
    pub activation: u128,
    pub canonical_path: String,
}

/// A session that an adapter bound to a workspace.
#[derive(Clone, Copy, Debug, PartialEq, Eq, Structural)]
pub struct SessionBinding {
    pub activation: u128,
    pub handle: u128,
    pub released: bool,
}

/// An operation that an adapter has under way.
#[derive(Clone, Copy, Debug, PartialEq, Eq, Structural)]
pub struct OperationIdentity {
    pub binding: u128,
    pub activation: u128,
    pub claim: u128,
}

/// A live binding.
#[derive(Clone, Copy, Debug, PartialEq, Eq, Structural)]
pub struct BindingRecord {
    pub connection_id: u64,
    pub activation: u128,
}

/// A live claim.
#[derive(Clone, Copy, Debug, PartialEq, Eq, Structural)]
pub struct ClaimRecord {
    pub connection_id: u64,
    pub binding: u128,
    pub activation: u128,
    pub expires_at: u64,
}

/// What a resolved workspace rests on.
#[derive(Clone, Copy, Debug, PartialEq, Eq, Structural)]
pub enum AttributionSource {
    SessionBinding,
    OperationOverride,
}

/// The workspace that a binding or a claim stands for.
#[derive(Debug, PartialEq, Eq)]
pub struct ResolvedWorkspace {
    pub activation: u128,
    pub canonical_path: String,
    pub source: AttributionSource,
}

/// What one adapter connection has bound and started.
pub struct AdapterState {
    pub sandbox: String,
    pub sessions: Table<String, SessionBinding>,
    pub operations: Table<String, OperationIdentity>,
    pub released_claims: Table<u128, bool>,
}

/// The view of an adapter.
#[verifier::ext_equal]
pub struct AdapterView {
    pub sandbox: Seq<char>,
    pub sessions: Map<Seq<char>, SessionBinding>,
    pub operations: Map<Seq<char>, OperationIdentity>,
    pub released: Set<u128>,
}

/// The claims of the operations that satisfy a predicate.
pub open spec fn claims_where(
    operations: Map<Seq<char>, OperationIdentity>,
    p: spec_fn(OperationIdentity) -> bool,
) -> Set<u128> {
    Set::new(
        |c: u128|
            exists|k: Seq<char>| #[trigger]
                operations.contains_key(k) && p(operations[k]) && operations[k].claim == c,
    )
}

impl View for AdapterState {
    type V = AdapterView;

    open spec fn view(&self) -> AdapterView {
        AdapterView {
            sandbox: self.sandbox@,
            sessions: self.sessions@,
            operations: self.operations@,
            released: self.released_claims@.dom(),
        }
    }
}

impl AdapterView {
    /// The adapter once the bindings have been released.
    pub open spec fn without_bindings(self, bindings: Set<u128>) -> AdapterView {
        AdapterView {
            sandbox: self.sandbox,
            sessions: self.sessions.map_values(
                |s: SessionBinding|
                    SessionBinding { released: s.released || bindings.contains(s.handle), ..s },
            ),
            operations: table::where_value(
                self.operations,
                |op: OperationIdentity| !bindings.contains(op.binding),
            ),
            released: self.released.union(
                claims_where(
                    self.operations,
                    |op: OperationIdentity| bindings.contains(op.binding),
                ),
            ),
        }
    }

    /// The adapter once the claims have been released.
    pub open spec fn without_claims(self, claims: Set<u128>) -> AdapterView {
        AdapterView {
            sandbox: self.sandbox,
            sessions: self.sessions,
            operations: table::where_value(
                self.operations,
                |op: OperationIdentity| !claims.contains(op.claim),
            ),
            released: self.released.union(
                claims_where(self.operations, |op: OperationIdentity| claims.contains(op.claim)),
            ),
        }
    }
}

impl AdapterState {
    pub open spec fn wf(&self) -> bool {
        &&& self.sessions.wf()
        &&& self.operations.wf()
        &&& self.released_claims.wf()
    }

    pub(crate) fn new(sandbox: String) -> (r: Self)
        ensures
            r.wf(),
            r@ == (AdapterView {
                sandbox: sandbox@,
                sessions: Map::empty(),
                operations: Map::empty(),
                released: Set::empty(),
            }),
    {
        let r = AdapterState {
            sandbox,
            sessions: Table::new(),
            operations: Table::new(),
            released_claims: Table::new(),
        };
        assert(r@.released =~= Set::empty());
        r
    }

    /// Mark the binding's sessions as released and end its operations; returns the ended claims.
    fn release_binding(&mut self, binding: u128) -> (r: Vec<u128>)
        requires
            old(self).wf(),
        ensures
            final(self).wf(),
            final(self)@ == old(self)@.without_bindings(set![binding]),
            r@.to_set() == claims_where(
                old(self)@.operations,
                |op: OperationIdentity| set![binding].contains(op.binding),
            ),
    {
        let ghost start = *old(self);
        let ghost p = |op: OperationIdentity| set![binding].contains(op.binding);
        let mut i: usize = 0;
        while i < self.sessions.entries.len()
            invariant
                self.wf(),
                i <= self.sessions.entries@.len(),
                self.sandbox == start.sandbox,
                self.operations == start.operations,
                self.released_claims == start.released_claims,
                self.sessions.entries@.len() == start.sessions.entries@.len(),
                start.wf(),
                forall|j: int|
                    0 <= j < start.sessions.entries@.len() ==> (
                    #[trigger] self.sessions.entries@[j]).0 == start.sessions.entries@[j].0,
                forall|j: int|
                    i <= j < start.sessions.entries@.len() ==> (
                    #[trigger] self.sessions.entries@[j]).1 == start.sessions.entries@[j].1,
                forall|j: int|
                    0 <= j < i ==> (#[trigger] self.sessions.entries@[j]).1 == (SessionBinding {
                        released: start.sessions.entries@[j].1.released
                            || start.sessions.entries@[j].1.handle == binding,
                        ..start.sessions.entries@[j].1
                    }),
            decreases self.sessions.entries@.len() - i,
        {
            let session = self.sessions.entries[i].1;
            if session.handle == binding {
                self.sessions.set_at(
                    i,
                    SessionBinding {
                        activation: session.activation,
                        handle: session.handle,
                        released: true,
                    },
                );
            }
            i += 1;
        }
        proof {
            let f = |s: SessionBinding|
                SessionBinding { released: s.released || set![binding].contains(s.handle), ..s };
            assert(self.sessions@ =~= start.sessions@.map_values(f)) by {
                assert forall|k: Seq<char>|
                    self.sessions@.contains_key(k) == start.sessions@.contains_key(k) by {
                    if self.sessions@.contains_key(k) {
                        let j = self.sessions.lemma_key(k);
                        assert(start.sessions.entries@[j].0@ == k);
                    }
                    if start.sessions@.contains_key(k) {
                        let j = start.sessions.lemma_key(k);
                        assert(self.sessions.entries@[j].0@ == k);
                    }
                }
                assert forall|k: Seq<char>| #[trigger]
                    self.sessions@.contains_key(k) implies self.sessions@[k] == f(
                    start.sessions@[k],
                ) by {
                    let j = self.sessions.lemma_key(k);
                    start.sessions.lemma_entry(j);
                }
            }
        }
        let mut claims: Vec<u128> = Vec::new();
        let mut i: usize = 0;
        while i < self.operations.entries.len()
            invariant
                i <= self.operations.entries@.len(),
                self.operations == start.operations,
                start.operations.wf(),
                p == (|op: OperationIdentity| set![binding].contains(op.binding)),
                forall|c: u128|
                    claims@.contains(c) <==> exists|j: int|
                        0 <= j < i && (#[trigger] start.operations.entries@[j]).1.binding == binding
                            && start.operations.entries@[j].1.claim == c,
            decreases self.operations.entries@.len() - i,
        {
            let op = self.operations.entries[i].1;
            if op.binding == binding {
                let ghost before = claims@;
                claims.push(op.claim);
                proof {
                    assert forall|c: u128| claims@.contains(c) <==> exists|j: int|
                        0 <= j < i + 1 && (#[trigger] start.operations.entries@[j]).1.binding
                            == binding && start.operations.entries@[j].1.claim == c by {
                        if claims@.contains(c) {
                            let x = choose|x: int| 0 <= x < claims@.len() && claims@[x] == c;
                            if x < before.len() {
                                assert(before.contains(c)) by {
                                    assert(before[x] == c);
                                }
                            } else {
                                assert(start.operations.entries@[i as int].1.claim == c);
                            }
                        }
                        if exists|j: int|
                            0 <= j < i + 1 && (#[trigger] start.operations.entries@[j]).1.binding
                                == binding && start.operations.entries@[j].1.claim == c {
                            let j = choose|j: int|
                                0 <= j < i + 1 && (
                                #[trigger] start.operations.entries@[j]).1.binding == binding
                                    && start.operations.entries@[j].1.claim == c;
                            if j < i {
                                assert(before.contains(c));
                                let x = choose|x: int| 0 <= x < before.len() && before[x] == c;
                                assert(claims@[x] == c);
                            } else {
                                assert(claims@[claims@.len() - 1] == c);
                            }
                        }
                    }
                }
            }
            i += 1;
        }
        let ghost gone = claims_where(start.operations@, p);
        proof {
            assert forall|c: u128| claims@.to_set().contains(c) == gone.contains(c) by {
                if claims@.contains(c) {
                    let j = choose|j: int|
                        0 <= j < start.operations.entries@.len() && (
                        #[trigger] start.operations.entries@[j]).1.binding == binding
                            && start.operations.entries@[j].1.claim == c;
                    start.operations.lemma_entry(j);
                    let k = start.operations.entries@[j].0@;
                    assert(start.operations@.contains_key(k));
                }
                if gone.contains(c) {
                    let k = choose|k: Seq<char>| #[trigger]
                        start.operations@.contains_key(k) && p(start.operations@[k])
                            && start.operations@[k].claim == c;
                    let j = start.operations.lemma_key(k);
                    assert(start.operations.entries@[j].1.binding == binding);
                }
            }
            assert(claims@.to_set() =~= gone);
        }
        let other = |op: &OperationIdentity| -> (keep: bool)
            ensures
                keep <==> op.binding != binding,
        { op.binding != binding };
        self.operations.retain(other, Ghost(|op: OperationIdentity| op.binding != binding));
        let mut i: usize = 0;
        while i < claims.len()
            invariant
                i <= claims@.len(),
                self.sandbox == start.sandbox,
                self.released_claims.wf(),
                self.operations.wf(),
                self.sessions.wf(),
                self.released_claims@.dom() == start.released_claims@.dom().union(
                    claims@.take(i as int).to_set(),
                ),
                self.operations@ == table::where_value(
                    start.operations@,
                    |op: OperationIdentity| op.binding != binding,
                ),
                self.sessions@ == start.sessions@.map_values(
                    |s: SessionBinding|
                        SessionBinding {
                            released: s.released || set![binding].contains(s.handle),
                            ..s
                        },
                ),
            decreases claims@.len() - i,
        {
            let ghost before = self.released_claims@.dom();
            let _ = self.released_claims.insert(claims[i], true);
            proof {
                assert(claims@.take(i + 1) =~= claims@.take(i as int).push(claims@[i as int]));
                assert(claims@.take(i + 1).to_set() =~= claims@.take(i as int).to_set().insert(
                    claims@[i as int],
                )) by {
                    assert forall|c: u128|
                        claims@.take(i + 1).to_set().contains(c) == claims@.take(
                            i as int,
                        ).to_set().insert(claims@[i as int]).contains(c) by {
                        let s = claims@.take(i as int);
                        let t = s.push(claims@[i as int]);
                        if t.contains(c) {
                            let x = choose|x: int| 0 <= x < t.len() && t[x] == c;
                            if x < s.len() {
                                assert(s[x] == c);
                            }
                        }
                        if s.contains(c) {
                            let x = choose|x: int| 0 <= x < s.len() && s[x] == c;
                            assert(t[x] == c);
                        }
                        if c == claims@[i as int] {
                            assert(t[s.len() as int] == c);
                        }
                    }
                }
                assert(self.released_claims@.dom() =~= before.insert(claims@[i as int]));
                assert(self.released_claims@.dom() =~= start.released_claims@.dom().union(
                    claims@.take(i + 1).to_set(),
                ));
            }
            i += 1;
        }
        proof {
            assert(claims@.take(claims@.len() as int) =~= claims@);
            assert(table::where_value(
                start.operations@,
                |op: OperationIdentity| op.binding != binding,
            ) =~= table::where_value(
                start.operations@,
                |op: OperationIdentity| !set![binding].contains(op.binding),
            ));
            assert(self@ =~= start@.without_bindings(set![binding]));
        }
        claims
    }

    /// End the claim's operations.
    fn release_claim(&mut self, claim: u128)
        requires
            old(self).wf(),
        ensures
            final(self).wf(),
            final(self)@ == old(self)@.without_claims(set![claim]),
    {
        let ghost start = *old(self);
        let ghost p = |op: OperationIdentity| set![claim].contains(op.claim);
        let mut i: usize = 0;
        let mut found = false;
        while i < self.operations.entries.len()
            invariant
                i <= self.operations.entries@.len(),
                *self == start,
                found == exists|j: int|
                    0 <= j < i && (#[trigger] start.operations.entries@[j]).1.claim == claim,
            decreases self.operations.entries@.len() - i,
        {
            if self.operations.entries[i].1.claim == claim {
                found = true;
            }
            i += 1;
        }
        if found {
            let _ = self.released_claims.insert(claim, true);
        }
        let other = |op: &OperationIdentity| -> (keep: bool)
            ensures
                keep <==> op.claim != claim,
        { op.claim != claim };
        self.operations.retain(other, Ghost(|op: OperationIdentity| op.claim != claim));
        proof {
            let gone = claims_where(start.operations@, p);
            if found {
                let j = choose|j: int|
                    0 <= j < start.operations.entries@.len() && (
                    #[trigger] start.operations.entries@[j]).1.claim == claim;
                start.operations.lemma_entry(j);
                assert(start.operations@.contains_key(start.operations.entries@[j].0@));
                assert(gone =~= set![claim]);
            } else {
                assert forall|c: u128| !gone.contains(c) by {
                    if gone.contains(c) {
                        let k = choose|k: Seq<char>| #[trigger]
                            start.operations@.contains_key(k) && p(start.operations@[k])
                                && start.operations@[k].claim == c;
                        let j = start.operations.lemma_key(k);
                        assert(start.operations.entries@[j].1.claim == claim);
                    }
                }
                assert(gone =~= Set::empty());
            }
            assert(self@.operations =~= table::where_value(
                start.operations@,
                |op: OperationIdentity| !set![claim].contains(op.claim),
            ));
            assert(self@.released =~= start@.released.union(gone));
            assert(self@ =~= start@.without_claims(set![claim]));
        }
    }
}

/// Which workspaces are active, and who may attribute requests to them.
pub struct ProjectContextRegistry {
    pub boot_epoch: u64,
    pub activations: Table<u128, ActivationRecord>,
    pub adapters: Table<u64, AdapterState>,
    pub adapter_by_sandbox: Table<String, u64>,
    pub bindings: Table<u128, BindingRecord>,
    pub claims: Table<u128, ClaimRecord>,
}

/// The view of the registry.
#[verifier::ext_equal]
pub struct RegistryView {
    pub boot_epoch: u64,
    pub activations: Map<u128, ActivationRecord>,
    pub adapters: Map<u64, AdapterView>,
    pub adapter_by_sandbox: Map<Seq<char>, u64>,
    pub bindings: Map<u128, BindingRecord>,
    pub claims: Map<u128, ClaimRecord>,
}

impl View for ProjectContextRegistry {
    type V = RegistryView;

    open spec fn view(&self) -> RegistryView {
        RegistryView {
            boot_epoch: self.boot_epoch,
            activations: self.activations@,
            adapters: self.adapters@.map_values(|a: AdapterState| a@),
            adapter_by_sandbox: self.adapter_by_sandbox@,
            bindings: self.bindings@,
            claims: self.claims@,
        }
    }
}

/// A refusal: its class and its detail.
pub type Refusal = (ContextAdapterErrorCode, Seq<char>);

impl RegistryView {
    /// The bindings among the given ones that belong to a connection.
    pub open spec fn owned(self, bindings: Set<u128>, connection_id: u64) -> Set<u128> {
        Set::new(
            |b: u128|
                bindings.contains(b) && self.bindings.contains_key(b)
                    && self.bindings[b].connection_id == connection_id,
        )
    }

    /// The claims that end when the bindings are released.
    pub open spec fn claims_under(self, bindings: Set<u128>) -> Set<u128> {
        Set::new(
            |c: u128|
                exists|conn: u64, k: Seq<char>|
                    #![trigger self.adapters[conn].operations[k]]
                    self.adapters.contains_key(conn) && self.adapters[conn].operations.contains_key(
                        k,
                    ) && self.owned(bindings, conn).contains(
                        self.adapters[conn].operations[k].binding,
                    ) && self.adapters[conn].operations[k].claim == c,
        )
    }

    /// The registry once the bindings have been released.
    pub open spec fn without_bindings(self, bindings: Set<u128>) -> RegistryView {
        RegistryView {
            bindings: self.bindings.remove_keys(bindings),
            adapters: Map::new(
                |conn: u64| self.adapters.contains_key(conn),
                |conn: u64| self.adapters[conn].without_bindings(self.owned(bindings, conn)),
            ),
            claims: self.claims.remove_keys(self.claims_under(bindings)),
            ..self
        }
    }

    /// The registry once the claims have been released.
    pub open spec fn without_claims(self, claims: Set<u128>) -> RegistryView {
        RegistryView {
            claims: self.claims.remove_keys(claims),
            adapters: self.adapters.map_values(|a: AdapterView| a.without_claims(claims)),
            ..self
        }
    }

    /// The claims whose time is up.
    pub open spec fn expired(self, now: u64) -> Set<u128> {
        Set::new(|c: u128| self.claims.contains_key(c) && self.claims[c].expires_at <= now)
    }

    /// The registry once the claims whose time is up have been released.
    pub open spec fn at(self, now: u64) -> RegistryView {
        self.without_claims(self.expired(now))
    }

    /// The bindings to a workspace.
    pub open spec fn bound_to(self, activation: u128) -> Set<u128> {
        Set::new(
            |b: u128|
                self.bindings.contains_key(b) && self.bindings[b].activation == activation,
        )
    }

    /// The registry once the workspace is no longer active.
    pub open spec fn without_activation(self, activation: u128) -> RegistryView {
        if self.activations.contains_key(activation) {
            RegistryView {
                activations: self.activations.remove(activation),
                ..self
            }.without_bindings(self.bound_to(activation))
        } else {
            self
        }
    }

    /// The registry once the connection's adapter is gone.
    pub open spec fn without_adapter(self, connection_id: u64) -> RegistryView {
        if self.adapters.contains_key(connection_id) {
            RegistryView {
                adapters: self.adapters.remove(connection_id),
                adapter_by_sandbox: self.adapter_by_sandbox.remove(
                    self.adapters[connection_id].sandbox,
                ),
                bindings: table::where_value(
                    self.bindings,
                    |b: BindingRecord| b.connection_id != connection_id,
                ),
                claims: table::where_value(
                    self.claims,
                    |c: ClaimRecord| c.connection_id != connection_id,
                ),
                ..self
            }
        } else {
            self
        }
    }

    /// Why a connection may not use a workspace, if it may not.
    pub open spec fn activation_refusal<L: Fn(&ActivationRecord) -> bool>(
        self,
        live: L,
        connection_id: u64,
        activation: u128,
    ) -> Option<Refusal> {
        if !self.adapters.contains_key(connection_id) {
            Some(
                (ContextAdapterErrorCode::Unauthorized, "connection is not a context adapter"@),
            )
        } else if !self.activations.contains_key(activation) {
            Some((ContextAdapterErrorCode::UnknownHandle, "activation is unknown"@))
        } else if self.activations[activation].sandbox@ != self.adapters[connection_id].sandbox
            || !text::holds(live, self.activations[activation]) {
            Some(
                (
                    ContextAdapterErrorCode::InvalidWorkspace,
                    "activation is not live for this sandbox"@,
                ),
            )
        } else {
            None
        }
    }

    /// The connection has the live binding.
    pub open spec fn binds(self, connection_id: u64, binding: u128) -> bool {
        self.bindings.contains_key(binding) && self.bindings[binding].connection_id
            == connection_id
    }

    /// Some session of the connection has, or had, the binding.
    pub open spec fn had_binding(self, connection_id: u64, binding: u128) -> bool {
        exists|k: Seq<char>| #[trigger]
            self.adapters[connection_id].sessions.contains_key(k)
                && self.adapters[connection_id].sessions[k].handle == binding
    }

    /// Some operation of the connection has the claim.
    pub open spec fn has_claim(self, connection_id: u64, claim: u128) -> bool {
        exists|k: Seq<char>| #[trigger]
            self.adapters[connection_id].operations.contains_key(k)
                && self.adapters[connection_id].operations[k].claim == claim
    }

    /// How many workspaces a sandbox has active.
    pub open spec fn active_count(self, sandbox: Seq<char>) -> nat {
        self.activations.dom().filter(
            |h: u128| self.activations[h].sandbox@ == sandbox,
        ).len()
    }
}

/// Releasing two sets of bindings one after the other releases their union.
pub proof fn lemma_release_bindings_compose(v: RegistryView, first: Set<u128>, second: Set<u128>)
    ensures
        v.without_bindings(first).without_bindings(second) == v.without_bindings(
            first.union(second),
        ),
{
    let mid = v.without_bindings(first);
    let both = first.union(second);
    let end = mid.without_bindings(second);
    let goal = v.without_bindings(both);
    assert(end.bindings =~= goal.bindings);
    assert forall|conn: u64| #[trigger] v.adapters.contains_key(conn) implies end.adapters[conn]
        == goal.adapters[conn] by {
        let a = v.adapters[conn];
        let f = v.owned(first, conn);
        let s = mid.owned(second, conn);
        let b = v.owned(both, conn);
        assert(b =~= f.union(s));
        let m = a.without_bindings(f);
        assert(m.without_bindings(s).sessions =~= a.without_bindings(b).sessions);
        assert(m.without_bindings(s).operations =~= a.without_bindings(b).operations);
        assert(m.without_bindings(s).released =~= a.without_bindings(b).released) by {
            assert forall|c: u128|
                m.without_bindings(s).released.contains(c) == a.without_bindings(b).released.contains(
                    c,
                ) by {
                let pf = |op: OperationIdentity| f.contains(op.binding);
                let ps = |op: OperationIdentity| s.contains(op.binding);
                let pb = |op: OperationIdentity| b.contains(op.binding);
                if claims_where(m.operations, ps).contains(c) {
                    let k = choose|k: Seq<char>| #[trigger]
                        m.operations.contains_key(k) && ps(m.operations[k])
                            && m.operations[k].claim == c;
                    assert(a.operations.contains_key(k) && pb(a.operations[k]));
                }
                if claims_where(a.operations, pf).contains(c) {
                    let k = choose|k: Seq<char>| #[trigger]
                        a.operations.contains_key(k) && pf(a.operations[k])
                            && a.operations[k].claim == c;
                    assert(a.operations.contains_key(k) && pb(a.operations[k]));
                }
                if claims_where(a.operations, pb).contains(c) {
                    let k = choose|k: Seq<char>| #[trigger]
                        a.operations.contains_key(k) && pb(a.operations[k])
                            && a.operations[k].claim == c;
                    if pf(a.operations[k]) {
                        assert(claims_where(a.operations, pf).contains(c));
                    } else {
                        assert(m.operations.contains_key(k) && ps(m.operations[k]));
                    }
                }
            }
        }
        assert(m.without_bindings(s) =~= a.without_bindings(b));
    }
    assert(end.adapters =~= goal.adapters);
    assert(end.claims =~= goal.claims) by {
        assert forall|c: u128| v.claims.contains_key(c) implies end.claims.contains_key(c)
            == goal.claims.contains_key(c) by {
            if v.claims_under(both).contains(c) {
                let (conn, k) = choose|conn: u64, k: Seq<char>|
                    #![trigger v.adapters[conn].operations[k]]
                    v.adapters.contains_key(conn) && v.adapters[conn].operations.contains_key(k)
                        && v.owned(both, conn).contains(v.adapters[conn].operations[k].binding)
                        && v.adapters[conn].operations[k].claim == c;
                let bnd = v.adapters[conn].operations[k].binding;
                if first.contains(bnd) {
                    assert(v.owned(first, conn).contains(bnd));
                    assert(v.claims_under(first).contains(c));
                } else {
                    assert(mid.adapters[conn].operations[k].claim == c);
                    assert(mid.owned(second, conn).contains(bnd));
                    assert(mid.claims_under(second).contains(c));
                }
            }
            if v.claims_under(first).contains(c) {
                let (conn, k) = choose|conn: u64, k: Seq<char>|
                    #![trigger v.adapters[conn].operations[k]]
                    v.adapters.contains_key(conn) && v.adapters[conn].operations.contains_key(k)
                        && v.owned(first, conn).contains(v.adapters[conn].operations[k].binding)
                        && v.adapters[conn].operations[k].claim == c;
                assert(v.owned(both, conn).contains(v.adapters[conn].operations[k].binding));
                assert(v.claims_under(both).contains(c));
            }
            if mid.claims_under(second).contains(c) {
                let (conn, k) = choose|conn: u64, k: Seq<char>|
                    #![trigger mid.adapters[conn].operations[k]]
                    mid.adapters.contains_key(conn) && mid.adapters[conn].operations.contains_key(k)
                        && mid.owned(second, conn).contains(mid.adapters[conn].operations[k].binding)
                        && mid.adapters[conn].operations[k].claim == c;
                assert(v.adapters[conn].operations[k].claim == c);
                assert(v.owned(both, conn).contains(v.adapters[conn].operations[k].binding));
                assert(v.claims_under(both).contains(c));
            }
        }
    }
    assert(end =~= goal);
}

/// Releasing two sets of claims one after the other releases their union.
pub proof fn lemma_release_claims_compose(v: RegistryView, first: Set<u128>, second: Set<u128>)
    ensures
        v.without_claims(first).without_claims(second) == v.without_claims(first.union(second)),
{
    let mid = v.without_claims(first);
    let both = first.union(second);
    let end = mid.without_claims(second);
    let goal = v.without_claims(both);
    assert forall|conn: u64| #[trigger] v.adapters.contains_key(conn) implies end.adapters[conn]
        == goal.adapters[conn] by {
        let a = v.adapters[conn];
        let m = a.without_claims(first);
        assert(m.without_claims(second).operations =~= a.without_claims(both).operations);
        assert(m.without_claims(second).released =~= a.without_claims(both).released) by {
            assert forall|c: u128|
                m.without_claims(second).released.contains(c) == a.without_claims(
                    both,
                ).released.contains(c) by {
                let pf = |op: OperationIdentity| first.contains(op.claim);
                let ps = |op: OperationIdentity| second.contains(op.claim);
                let pb = |op: OperationIdentity| both.contains(op.claim);
                if claims_where(m.operations, ps).contains(c) {
                    let k = choose|k: Seq<char>| #[trigger]
                        m.operations.contains_key(k) && ps(m.operations[k])
                            && m.operations[k].claim == c;
                    assert(a.operations.contains_key(k) && pb(a.operations[k]));
                }
                if claims_where(a.operations, pf).contains(c) {
                    let k = choose|k: Seq<char>| #[trigger]
                        a.operations.contains_key(k) && pf(a.operations[k])
                            && a.operations[k].claim == c;
                    assert(a.operations.contains_key(k) && pb(a.operations[k]));
                }
                if claims_where(a.operations, pb).contains(c) {
                    let k = choose|k: Seq<char>| #[trigger]
                        a.operations.contains_key(k) && pb(a.operations[k])
                            && a.operations[k].claim == c;
                    if pf(a.operations[k]) {
                        assert(claims_where(a.operations, pf).contains(c));
                    } else {
                        assert(m.operations.contains_key(k) && ps(m.operations[k]));
                    }
                }
            }
        }
        assert(m.without_claims(second) =~= a.without_claims(both));
    }
    assert(end.adapters =~= goal.adapters);
    assert(end.claims =~= goal.claims);
    assert(end =~= goal);
}

/// Releasing bindings that are not live changes nothing.
pub proof fn lemma_release_unbound(v: RegistryView, bindings: Set<u128>)
    requires
        forall|b: u128| bindings.contains(b) ==> !v.bindings.contains_key(b),
    ensures
        v.without_bindings(bindings) == v,
{
    let w = v.without_bindings(bindings);
    assert(w.bindings =~= v.bindings);
    assert forall|conn: u64| #[trigger] v.adapters.contains_key(conn) implies w.adapters[conn]
        == v.adapters[conn] by {
        let owned = v.owned(bindings, conn);
        assert(owned =~= Set::empty());
        let a = v.adapters[conn];
        assert(a.without_bindings(owned).sessions =~= a.sessions);
        assert(a.without_bindings(owned).operations =~= a.operations);
        assert(claims_where(a.operations, |op: OperationIdentity| owned.contains(op.binding))
            =~= Set::empty());
        assert(a.without_bindings(owned).released =~= a.released);
        assert(a.without_bindings(owned) =~= a);
    }
    assert(w.adapters =~= v.adapters);
    assert(v.claims_under(bindings) =~= Set::empty());
    assert(w.claims =~= v.claims);
    assert(w =~= v);
}

/// Releasing no claim changes nothing.
pub proof fn lemma_release_no_claim(v: RegistryView)
    ensures
        v.without_claims(Set::empty()) == v,
{
    let w = v.without_claims(Set::empty());
    assert forall|conn: u64| #[trigger] v.adapters.contains_key(conn) implies w.adapters[conn]
        == v.adapters[conn] by {
        let a = v.adapters[conn];
        assert(a.without_claims(Set::empty()).operations =~= a.operations);
        assert(claims_where(
            a.operations,
            |op: OperationIdentity| Set::<u128>::empty().contains(op.claim),
        ) =~= Set::empty());
        assert(a.without_claims(Set::empty()).released =~= a.released);
        assert(a.without_claims(Set::empty()) =~= a);
    }
    assert(w.adapters =~= v.adapters);
    assert(w.claims =~= v.claims);
    assert(w =~= v);
}

proof fn lemma_take_set(s: Seq<u128>, i: int)
    requires
        0 <= i < s.len(),
    ensures
        s.take(i + 1).to_set() == s.take(i).to_set().union(set![s[i]]),
{
    let t = s.take(i + 1);
    let u = s.take(i);
    assert forall|c: u128| t.to_set().contains(c) == u.to_set().union(set![s[i]]).contains(c) by {
        if t.contains(c) {
            let x = choose|x: int| 0 <= x < t.len() && t[x] == c;
            if x < i {
                assert(u[x] == c);
            }
        }
        if u.contains(c) {
            let x = choose|x: int| 0 <= x < u.len() && u[x] == c;
            assert(t[x] == c);
        }
        if c == s[i] {
            assert(t[i] == c);
        }
    }
    assert(t.to_set() =~= u.to_set().union(set![s[i]]));
}

impl ProjectContextRegistry {
    pub open spec fn wf(&self) -> bool {
        &&& self.activations.wf()
        &&& self.adapters.wf()
        &&& self.adapter_by_sandbox.wf()
        &&& self.bindings.wf()
        &&& self.claims.wf()
        &&& forall|conn: u64| #[trigger]
            self.adapters@.contains_key(conn) ==> self.adapters@[conn].wf()
    }

    /// The empty registry of a daemon that booted in the given epoch.
    pub fn with_epoch(boot_epoch: u64) -> (r: Self)
        ensures
            r.wf(),
            r@ == (RegistryView {
                boot_epoch,
                activations: Map::empty(),
                adapters: Map::empty(),
                adapter_by_sandbox: Map::empty(),
                bindings: Map::empty(),
                claims: Map::empty(),
            }),
    {
        let r = ProjectContextRegistry {
            boot_epoch,
            activations: Table::new(),
            adapters: Table::new(),
            adapter_by_sandbox: Table::new(),
            bindings: Table::new(),
            claims: Table::new(),
        };
        assert(r@.adapters =~= Map::empty());
        r
    }

    /// The epoch that tells handles of this daemon from those of an earlier one.
    pub fn boot_epoch(&self) -> (r: u64)
        ensures
            r == self@.boot_epoch,
    {
        self.boot_epoch
    }

    /// Release a binding and end the operations that were started under it.
    pub fn release_binding(&mut self, binding: u128)
        requires
            old(self).wf(),
        ensures
            final(self).wf(),
            final(self)@ == old(self)@.without_bindings(set![binding]),
    {
        let ghost v = old(self)@;
        let record = match self.bindings.remove(&binding) {
            Some(record) => record,
            None => {
                proof {
                    assert(self.bindings@ =~= v.bindings);
                    assert(self@ =~= v);
                    lemma_release_unbound(v, set![binding]);
                }
                return ;
            },
        };
        let conn = record.connection_id;
        let ghost goal = v.without_bindings(set![binding]);
        proof {
            assert(v.owned(set![binding], conn) =~= set![binding]);
            assert forall|other: u64| other != conn implies #[trigger] v.owned(
                set![binding],
                other,
            ) =~= Set::empty() by {}
        }
        match self.adapters.remove(&conn) {
            None => {
                proof {
                    assert(!v.adapters.contains_key(conn));
                    assert forall|other: u64| #[trigger]
                        v.adapters.contains_key(other) implies v.adapters[other].without_bindings(
                        v.owned(set![binding], other),
                    ) == v.adapters[other] by {
                        Self::lemma_adapter_unbound(v.adapters[other]);
                    }
                    assert(v.claims_under(set![binding]) =~= Set::empty());
                    assert(self.adapters@ =~= old(self).adapters@);
                    assert(self@.adapters =~= goal.adapters);
                    assert(self@.bindings =~= goal.bindings);
                    assert(self@.claims =~= goal.claims);
                    assert(self@ =~= goal);
                }
            },
            Some(adapter) => {
                let mut adapter = adapter;
                let ghost a = adapter@;
                assert(a == v.adapters[conn]);
                let claims = adapter.release_binding(binding);
                let _ = self.adapters.insert(conn, adapter);
                let ghost gone = claims@.to_set();
                let mut i: usize = 0;
                while i < claims.len()
                    invariant
                        i <= claims@.len(),
                        self.claims.wf(),
                        self.activations == old(self).activations,
                        self.adapter_by_sandbox == old(self).adapter_by_sandbox,
                        self.boot_epoch == old(self).boot_epoch,
                        self.bindings.wf(),
                        self.bindings@ == old(self).bindings@.remove(binding),
                        self.adapters.wf(),
                        self.adapters@ == old(self).adapters@.remove(conn).insert(conn, adapter),
                        self.claims@ == old(self).claims@.remove_keys(
                            claims@.take(i as int).to_set(),
                        ),
                    decreases claims@.len() - i,
                {
                    let ghost before = self.claims@;
                    let _ = self.claims.remove(&claims[i]);
                    proof {
                        lemma_take_set(claims@, i as int);
                        assert(self.claims@ =~= old(self).claims@.remove_keys(
                            claims@.take(i + 1).to_set(),
                        ));
                    }
                    i += 1;
                }
                proof {
                    assert(claims@.take(claims@.len() as int) =~= claims@);
                    assert forall|other: u64| #[trigger]
                        v.adapters.contains_key(other) && other != conn implies v.adapters[other].without_bindings(
                        v.owned(set![binding], other),
                    ) == v.adapters[other] by {
                        Self::lemma_adapter_unbound(v.adapters[other]);
                    }
                    let p = |op: OperationIdentity| set![binding].contains(op.binding);
                    assert(v.claims_under(set![binding]) =~= gone) by {
                        assert forall|c: u128|
                            v.claims_under(set![binding]).contains(c) == gone.contains(c) by {
                            if gone.contains(c) {
                                let k = choose|k: Seq<char>| #[trigger]
                                    a.operations.contains_key(k) && p(a.operations[k])
                                        && a.operations[k].claim == c;
                                assert(v.adapters[conn].operations[k].claim == c);
                                assert(v.owned(set![binding], conn).contains(binding));
                            }
                            if v.claims_under(set![binding]).contains(c) {
                                let (x, k) = choose|x: u64, k: Seq<char>|
                                    #![trigger v.adapters[x].operations[k]]
                                    v.adapters.contains_key(x)
                                        && v.adapters[x].operations.contains_key(k) && v.owned(
                                        set![binding],
                                        x,
                                    ).contains(v.adapters[x].operations[k].binding)
                                        && v.adapters[x].operations[k].claim == c;
                                assert(x == conn);
                                assert(a.operations.contains_key(k) && p(a.operations[k]));
                            }
                        }
                    }
                    assert(self@.adapters =~= goal.adapters);
                    assert(self@.bindings =~= goal.bindings);
                    assert(self@.claims =~= goal.claims);
                    assert(self@ =~= goal);
                }
            },
        }
    }

    proof fn lemma_adapter_unbound(a: AdapterView)
        ensures
            a.without_bindings(Set::empty()) == a,
    {
        let e = Set::<u128>::empty();
        assert(a.without_bindings(e).sessions =~= a.sessions);
        assert(a.without_bindings(e).operations =~= a.operations);
        assert(claims_where(a.operations, |op: OperationIdentity| e.contains(op.binding))
            =~= Set::empty());
        assert(a.without_bindings(e).released =~= a.released);
        assert(a.without_bindings(e) =~= a);
    }

    /// Release a claim and end the operations that hold it.
    pub fn release_claim(&mut self, claim: u128)
        requires
            old(self).wf(),
        ensures
            final(self).wf(),
            final(self)@ == old(self)@.without_claims(set![claim]),
    {
        let ghost start = *old(self);
        let ghost v = start@;
        let _ = self.claims.remove(&claim);
        let mut done: Table<u64, AdapterState> = Table::new();
        let ghost f = |a: AdapterView| a.without_claims(set![claim]);
        while self.adapters.entries.len() > 0
            invariant
                self.boot_epoch == start.boot_epoch,
                self.activations == start.activations,
                self.adapter_by_sandbox == start.adapter_by_sandbox,
                self.bindings == start.bindings,
                self.claims.wf(),
                self.claims@ == start.claims@.remove(claim),
                self.adapters.wf(),
                done.wf(),
                start.wf(),
                f == (|a: AdapterView| a.without_claims(set![claim])),
                forall|conn: u64| #[trigger]
                    start.adapters@.contains_key(conn) <==> (self.adapters@.contains_key(conn)
                        || done@.contains_key(conn)),
                forall|conn: u64| #[trigger]
                    self.adapters@.contains_key(conn) ==> self.adapters@[conn]
                        == start.adapters@[conn] && !done@.contains_key(conn),
                forall|conn: u64| #[trigger]
                    done@.contains_key(conn) ==> done@[conn].wf() && done@[conn]@ == f(
                        start.adapters@[conn]@,
                    ),
            decreases self.adapters.entries@.len(),
        {
            proof {
                self.adapters.lemma_entry(0);
            }
            let (conn, adapter) = self.adapters.remove_at(0);
            let mut adapter = adapter;
            assert(start.adapters@.contains_key(conn) && adapter == start.adapters@[conn]);
            adapter.release_claim(claim);
            let _ = done.insert(conn, adapter);
        }
        proof {
            assert(self.adapters@.dom() =~= Set::empty());
        }
        self.adapters = done;
        proof {
            let goal = v.without_claims(set![claim]);
            assert(self@.adapters =~= goal.adapters);
            assert(self@.claims =~= goal.claims);
            assert(self@ =~= goal);
        }
    }

    /// End every claim whose time is up.
    pub fn expire_claims(&mut self, now: u64)
        requires
            old(self).wf(),
        ensures
            final(self).wf(),
            final(self)@ == old(self)@.at(now),
    {
        let ghost start = *old(self);
        let ghost v = start@;
        let mut expired: Vec<u128> = Vec::new();
        let mut i: usize = 0;
        while i < self.claims.entries.len()
            invariant
                *self == start,
                start.wf(),
                i <= self.claims.entries@.len(),
                forall|c: u128|
                    expired@.contains(c) <==> exists|j: int|
                        0 <= j < i && (#[trigger] start.claims.entries@[j]).0 == c
                            && start.claims.entries@[j].1.expires_at <= now,
            decreases self.claims.entries@.len() - i,
        {
            if self.claims.entries[i].1.expires_at <= now {
                let ghost before = expired@;
                expired.push(self.claims.entries[i].0);
                proof {
                    assert forall|c: u128| expired@.contains(c) <==> exists|j: int|
                        0 <= j < i + 1 && (#[trigger] start.claims.entries@[j]).0 == c
                            && start.claims.entries@[j].1.expires_at <= now by {
                        if expired@.contains(c) {
                            let x = choose|x: int| 0 <= x < expired@.len() && expired@[x] == c;
                            if x < before.len() {
                                assert(before[x] == c);
                                assert(before.contains(c));
                            } else {
                                assert(start.claims.entries@[i as int].0 == c);
                            }
                        }
                        if exists|j: int|
                            0 <= j < i + 1 && (#[trigger] start.claims.entries@[j]).0 == c
                                && start.claims.entries@[j].1.expires_at <= now {
                            let j = choose|j: int|
                                0 <= j < i + 1 && (#[trigger] start.claims.entries@[j]).0 == c
                                    && start.claims.entries@[j].1.expires_at <= now;
                            if j < i {
                                assert(before.contains(c));
                                let x = choose|x: int| 0 <= x < before.len() && before[x] == c;
                                assert(expired@[x] == c);
                            } else {
                                assert(expired@[expired@.len() - 1] == c);
                            }
                        }
                    }
                }
            }
            i += 1;
        }
        proof {
            assert(expired@.to_set() =~= v.expired(now)) by {
                assert forall|c: u128| expired@.to_set().contains(c) == v.expired(now).contains(c) by {
                    if expired@.contains(c) {
                        let j = choose|j: int|
                            0 <= j < start.claims.entries@.len() && (
                            #[trigger] start.claims.entries@[j]).0 == c
                                && start.claims.entries@[j].1.expires_at <= now;
                        start.claims.lemma_entry(j);
                    }
                    if v.expired(now).contains(c) {
                        let j = start.claims.lemma_key(c);
                        assert(start.claims.entries@[j].0 == c);
                    }
                }
            }
            assert(expired@.take(0).to_set() =~= Set::empty());
            lemma_release_no_claim(v);
        }
        let mut i: usize = 0;
        while i < expired.len()
            invariant
                self.wf(),
                i <= expired@.len(),
                self@ == v.without_claims(expired@.take(i as int).to_set()),
            decreases expired@.len() - i,
        {
            self.release_claim(expired[i]);
            proof {
                lemma_release_claims_compose(
                    v,
                    expired@.take(i as int).to_set(),
                    set![expired@[i as int]],
                );
                lemma_take_set(expired@, i as int);
            }
            i += 1;
        }
        proof {
            assert(expired@.take(expired@.len() as int) =~= expired@);
        }
    }

    /// Forget a workspace and release every binding to it.
    pub fn deactivate(&mut self, activation: u128)
        requires
            old(self).wf(),
        ensures
            final(self).wf(),
            final(self)@ == old(self)@.without_activation(activation),
    {
        let ghost start = *old(self);
        let ghost v = start@;
        if self.activations.remove(&activation).is_none() {
            proof {
                assert(self@ =~= v);
            }
            return ;
        }
        let ghost w = RegistryView { activations: v.activations.remove(activation), ..v };
        assert(self@ =~= w);
        let mut dead: Vec<u128> = Vec::new();
        let mut i: usize = 0;
        while i < self.bindings.entries.len()
            invariant
                self.wf(),
                self@ == w,
                self.bindings == start.bindings,
                i <= self.bindings.entries@.len(),
                forall|b: u128|
                    dead@.contains(b) <==> exists|j: int|
                        0 <= j < i && (#[trigger] start.bindings.entries@[j]).0 == b
                            && start.bindings.entries@[j].1.activation == activation,
            decreases self.bindings.entries@.len() - i,
        {
            if self.bindings.entries[i].1.activation == activation {
                let ghost before = dead@;
                dead.push(self.bindings.entries[i].0);
                proof {
                    assert forall|b: u128| dead@.contains(b) <==> exists|j: int|
                        0 <= j < i + 1 && (#[trigger] start.bindings.entries@[j]).0 == b
                            && start.bindings.entries@[j].1.activation == activation by {
                        if dead@.contains(b) {
                            let x = choose|x: int| 0 <= x < dead@.len() && dead@[x] == b;
                            if x < before.len() {
                                assert(before[x] == b);
                                assert(before.contains(b));
                            } else {
                                assert(start.bindings.entries@[i as int].0 == b);
                            }
                        }
                        if exists|j: int|
                            0 <= j < i + 1 && (#[trigger] start.bindings.entries@[j]).0 == b
                                && start.bindings.entries@[j].1.activation == activation {
                            let j = choose|j: int|
                                0 <= j < i + 1 && (#[trigger] start.bindings.entries@[j]).0 == b
                                    && start.bindings.entries@[j].1.activation == activation;
                            if j < i {
                                assert(before.contains(b));
                                let x = choose|x: int| 0 <= x < before.len() && before[x] == b;
                                assert(dead@[x] == b);
                            } else {
                                assert(dead@[dead@.len() - 1] == b);
                            }
                        }
                    }
                }
            }
            i += 1;
        }
        proof {
            assert(dead@.to_set() =~= v.bound_to(activation)) by {
                assert forall|b: u128|
                    dead@.to_set().contains(b) == v.bound_to(activation).contains(b) by {
                    if dead@.contains(b) {
                        let j = choose|j: int|
                            0 <= j < start.bindings.entries@.len() && (
                            #[trigger] start.bindings.entries@[j]).0 == b
                                && start.bindings.entries@[j].1.activation == activation;
                        start.bindings.lemma_entry(j);
                    }
                    if v.bound_to(activation).contains(b) {
                        let j = start.bindings.lemma_key(b);
                        assert(start.bindings.entries@[j].0 == b);
                    }
                }
            }
            assert(dead@.take(0).to_set() =~= Set::empty());
            lemma_release_unbound(w, Set::empty());
        }
        let mut i: usize = 0;
        while i < dead.len()
            invariant
                self.wf(),
                i <= dead@.len(),
                self@ == w.without_bindings(dead@.take(i as int).to_set()),
            decreases dead@.len() - i,
        {
            self.release_binding(dead[i]);
            proof {
                lemma_release_bindings_compose(
                    w,
                    dead@.take(i as int).to_set(),
                    set![dead@[i as int]],
                );
                lemma_take_set(dead@, i as int);
            }
            i += 1;
        }
        proof {
            assert(dead@.take(dead@.len() as int) =~= dead@);
        }
    }

    /// Forget the connection's adapter with its bindings and claims.
    pub fn disconnect_adapter(&mut self, connection_id: u64)
        requires
            old(self).wf(),
        ensures
            final(self).wf(),
            final(self)@ == old(self)@.without_adapter(connection_id),
    {
        let ghost v = old(self)@;
        let adapter = match self.adapters.remove(&connection_id) {
            Some(adapter) => adapter,
            None => {
                proof {
                    assert(self@ =~= v);
                }
                return ;
            },
        };
        let _ = self.adapter_by_sandbox.remove(&adapter.sandbox);
        let other_binding = |b: &BindingRecord| -> (keep: bool)
            ensures
                keep <==> b.connection_id != connection_id,
        { b.connection_id != connection_id };
        self.bindings.retain(
            other_binding,
            Ghost(|b: BindingRecord| b.connection_id != connection_id),
        );
        let other_claim = |c: &ClaimRecord| -> (keep: bool)
            ensures
                keep <==> c.connection_id != connection_id,
        { c.connection_id != connection_id };
        self.claims.retain(other_claim, Ghost(|c: ClaimRecord| c.connection_id != connection_id));
        proof {
            let goal = v.without_adapter(connection_id);
            assert(self@.adapters =~= goal.adapters);
            assert(self@ =~= goal);
        }
    }
}

} // verus!
