//! Decisions on pending requests: who may make them, and what they may speak of.

use vstd::prelude::*;

use crate::error::PolicydError;
use crate::order;
use crate::paths;
use crate::state::NetworkRuleKey;
use crate::state::Pending;
use crate::state::PendingContext;
use crate::state::PendingDbus;
use crate::state::PendingElevation;
use crate::state::PendingFilesystem;
use crate::state::PendingNetwork;
use crate::state::PendingResource;
use crate::state::UiState;
use crate::store::PolicyStore;
use crate::text;
use crate::types::ApprovalScope;
use crate::types::DbusTarget;
use crate::types::FileAccess;
use crate::types::FilesystemRule;
use crate::types::HttpRuleTarget;
use crate::types::ResolvedRequestContext;
use crate::types::ResourceAccess;
use crate::types::ResourceKind;
use crate::types::ResourceRule;
use crate::types::SandboxPaths;
use crate::types::SocketAccess;

verus! {

/// What is decided on a pending request.
#[derive(Clone, Copy, Debug, PartialEq, Eq, Structural)]
pub enum DecisionAction {
    Approve,
    Deny,
}

impl DecisionAction {
    /// The word that the audit log has for the decision.
    pub fn audit_verb(self) -> (r: &'static str)
        ensures
            r@ == (match self {
                DecisionAction::Approve => "approve"@,
                DecisionAction::Deny => "deny"@,
            }),
    {
        match self {
            DecisionAction::Approve => "approve",
            DecisionAction::Deny => "deny",
        }
    }
}

/// What a decision speaks of, where it is not just the request itself.
#[derive(Debug, PartialEq, Eq)]
pub enum ApprovalTarget {
    NetworkHost(String),
    SudoCommand(Vec<String>),
    FilesystemPath(String),
    ResourcePath { resource_kind: ResourceKind, path: String },
    Dbus(DbusTarget),
    Http(HttpRuleTarget),
}

/// The context that a decision is made in.
#[derive(Debug, PartialEq, Eq)]
pub struct ScopeWire {
    pub paths: SandboxPaths,
    pub session_id: Option<String>,
    pub owner_uid: Option<u32>,
    pub sandbox_session_id: Option<String>,
    pub comment: Option<String>,
    pub package: Option<String>,
}

impl ScopeWire {
    /// The decision context of a request context, for the given UI session.
    pub open spec fn of(ctx: ResolvedRequestContext, session_id: Option<String>) -> ScopeWire {
        ScopeWire {
            paths: ctx.paths,
            session_id,
            owner_uid: ctx.ids.uid,
            sandbox_session_id: ctx.sandbox_session_id,
            comment: None,
            package: ctx.package,
        }
    }

    pub fn from_resolved(ctx: &ResolvedRequestContext, session_id: Option<String>) -> (r: Self)
        ensures
            r == Self::of(*ctx, session_id),
    {
        ScopeWire {
            paths: ctx.paths.clone(),
            session_id,
            owner_uid: ctx.ids.uid,
            sandbox_session_id: text::copy_opt(&ctx.sandbox_session_id),
            comment: None,
            package: text::copy_opt(&ctx.package),
        }
    }

    /// The decision context with what it lacks filled in from the pending request.
    pub open spec fn filled(self, context: PendingContext) -> ScopeWire {
        ScopeWire {
            paths: self.paths.filled(
                SandboxPaths {
                    cwd: context.cwd,
                    home: context.home,
                    project_root: context.project_root,
                },
            ),
            sandbox_session_id: if self.sandbox_session_id is Some {
                self.sandbox_session_id
            } else {
                context.sandbox_session_id
            },
            package: if self.package is Some {
                self.package
            } else {
                context.package
            },
            ..self
        }
    }

    /// The directory that project-relative targets are seen from.
    pub open spec fn root(self, context: PendingContext) -> Option<String> {
        if self.paths.project_root is Some {
            self.paths.project_root
        } else {
            context.project_root
        }
    }
}

/// A decision on a pending request, as it came in.
#[derive(Debug, PartialEq, Eq)]
pub struct PendingDecision {
    pub pending_id: String,
    pub scope: ApprovalScope,
    pub target: Option<ApprovalTarget>,
    pub wire: ScopeWire,
    pub client_id: u64,
    /// The user that decides; none for root.
    pub approver_uid: Option<u32>,
}

/// A decision and the request that it was taken off the board for.
#[derive(Debug, PartialEq, Eq)]
pub struct TakenPendingDecision {
    pub pending: Pending,
    pub wire: ScopeWire,
    pub scope: ApprovalScope,
    pub target: Option<ApprovalTarget>,
}

/// The UI session that a client decides for: its own, or the one that the decision names.
pub open spec fn deciding_session(
    ui: UiState,
    client_id: u64,
    ui_session_id: Option<String>,
) -> Option<Seq<char>> {
    if ui.clients@.contains_key(client_id) {
        Some(ui.clients@[client_id].session_id@)
    } else {
        text::opt_text(ui_session_id)
    }
}

/// The UI session is connected, belongs to the sandbox session that asked and to the user that
/// decides.
pub open spec fn session_speaks_for(
    ui: UiState,
    session: Seq<char>,
    sandbox_session_id: Option<String>,
    approver_uid: Option<u32>,
) -> bool {
    let ctx = ui.contexts@[session];
    &&& ui.contexts@.contains_key(session)
    &&& ui.clients@.contains_key(ctx.client_id)
    &&& ui.clients@[ctx.client_id].session_id@ == session
    &&& text::opt_text(ctx.sandbox_session_id) == text::opt_text(sandbox_session_id)
    &&& match approver_uid {
        Some(uid) => uid > 0 && ctx.owner_uid == Some(uid),
        None => true,
    }
}

/// The user that decides owns the sandbox session that asked.
pub open spec fn owns_session(
    store: PolicyStore,
    sandbox_session_id: Option<String>,
    approver_uid: Option<u32>,
) -> bool {
    match (approver_uid, sandbox_session_id) {
        (Some(uid), Some(id)) => uid > 0 && store.sandbox_sessions@.contains_key(id@)
            && store.sandbox_sessions@[id@].owner_uid == uid,
        _ => false,
    }
}

/// The client may decide on a request of the sandbox session: for a UI session of it, as its
/// owner, or, where neither a UI nor a sandbox session is in play, as root.
pub open spec fn may_decide(
    store: PolicyStore,
    client_id: u64,
    ui_session_id: Option<String>,
    sandbox_session_id: Option<String>,
    approver_uid: Option<u32>,
) -> bool {
    ||| match deciding_session(store.ui, client_id, ui_session_id) {
        Some(session) => session_speaks_for(store.ui, session, sandbox_session_id, approver_uid),
        None => sandbox_session_id is None && approver_uid is None,
    }
    ||| owns_session(store, sandbox_session_id, approver_uid)
}

/// Only the requests that wait differ.
pub open spec fn only_pending_changed(before: PolicyStore, after: PolicyStore) -> bool {
    after == (PolicyStore { pending: after.pending, ..before })
}

/// The request waits again, and nothing else differs.
pub open spec fn restored(before: PolicyStore, after: PolicyStore, pending: Pending) -> bool {
    &&& only_pending_changed(before, after)
    &&& after.pending@ == before.pending@.insert(pending.spec_id()@, pending)
}

/// Taking the request of a decision off the board comes to the result: the request must be
/// known and the client must be one that may decide on it.
pub open spec fn decision_taken(
    before: PolicyStore,
    after: PolicyStore,
    decision: PendingDecision,
    r: Result<TakenPendingDecision, PolicydError>,
) -> bool {
    let id = decision.pending_id@;
    &&& only_pending_changed(before, after)
    &&& if !before.pending@.contains_key(id) {
        r == Err::<TakenPendingDecision, _>(PolicydError::UnknownPendingId) && after.pending@
            == before.pending@
    } else if !may_decide(
        before,
        decision.client_id,
        decision.wire.session_id,
        before.pending@[id].session(),
        decision.approver_uid,
    ) {
        r == Err::<TakenPendingDecision, _>(PolicydError::UnauthorizedApprovalClient)
            && after.pending@ == before.pending@
    } else {
        &&& r == Ok::<_, PolicydError>(
            TakenPendingDecision {
                pending: before.pending@[id],
                wire: decision.wire,
                scope: decision.scope,
                target: decision.target,
            },
        )
        &&& after.pending@ == before.pending@.remove(id)
    }
}

impl PolicyStore {
    /// Whether the client may decide on a request of the sandbox session.
    pub fn approval_client_authorized(
        &self,
        client_id: u64,
        ui_session_id: &Option<String>,
        sandbox_session_id: &Option<String>,
        approver_uid: Option<u32>,
    ) -> (r: bool)
        requires
            self.wf(),
        ensures
            r == may_decide(*self, client_id, *ui_session_id, *sandbox_session_id, approver_uid),
    {
        let session = match self.ui.clients.get(&client_id) {
            Some(client) => Some(&client.session_id),
            None => match ui_session_id {
                Some(session) => Some(session),
                None => None,
            },
        };
        match session {
            Some(session) => {
                if let Some(ctx) = self.ui.contexts.get(session) {
                    if let Some(client) = self.ui.clients.get(&ctx.client_id) {
                        let owner_matches = match approver_uid {
                            Some(uid) => uid > 0 && (match ctx.owner_uid {
                                Some(owner) => owner == uid,
                                None => false,
                            }),
                            None => true,
                        };
                        if client.session_id == *session && text::same_opt(
                            &ctx.sandbox_session_id,
                            sandbox_session_id,
                        ) && owner_matches {
                            return true;
                        }
                    }
                }
            },
            None => {
                if sandbox_session_id.is_none() && approver_uid.is_none() {
                    return true;
                }
            },
        }
        match (approver_uid, sandbox_session_id) {
            (Some(uid), Some(id)) => uid > 0 && (match self.sandbox_sessions.get(id) {
                Some(registration) => registration.owner_uid == uid,
                None => false,
            }),
            _ => false,
        }
    }

    /// Put a request that was taken off the board back.
    pub fn restore_pending(&mut self, pending: Pending)
        requires
            old(self).wf(),
        ensures
            final(self).wf(),
            final(self).configured_as(old(self)),
            restored(*old(self), *final(self), pending),
    {
        let id = pending.id().clone();
        let _ = self.pending.insert(id, pending);
    }

    /// Take the request that a decision speaks of off the board.
    pub fn take_pending_decision(&mut self, decision: PendingDecision) -> (r: Result<
        TakenPendingDecision,
        PolicydError,
    >)
        requires
            old(self).wf(),
        ensures
            final(self).wf(),
            final(self).configured_as(old(self)),
            decision_taken(*old(self), *final(self), decision, r),
    {
        let ghost id = decision.pending_id@;
        let pending = match self.pending.remove(&decision.pending_id) {
            Some(pending) => pending,
            None => {
                assert(self.pending@ =~= old(self).pending@);
                return Err(PolicydError::UnknownPendingId);
            },
        };
        if !self.approval_client_authorized(
            decision.client_id,
            &decision.wire.session_id,
            pending.sandbox_session_id(),
            decision.approver_uid,
        ) {
            self.restore_pending(pending);
            assert(self.pending@ =~= old(self).pending@);
            return Err(PolicydError::UnauthorizedApprovalClient);
        }
        Ok(
            TakenPendingDecision {
                pending,
                wire: decision.wire,
                scope: decision.scope,
                target: decision.target,
            },
        )
    }
}

/// The decision context with what it lacks filled in from the pending request.
pub fn scope_wire_for_context(wire: ScopeWire, context: &PendingContext) -> (r: ScopeWire)
    ensures
        r == wire.filled(*context),
{
    let other = SandboxPaths {
        cwd: text::copy_opt(&context.cwd),
        home: text::copy_opt(&context.home),
        project_root: text::copy_opt(&context.project_root),
    };
    ScopeWire {
        paths: wire.paths.merged_with(&other),
        session_id: wire.session_id,
        owner_uid: wire.owner_uid,
        sandbox_session_id: text::or_opt(wire.sandbox_session_id, &context.sandbox_session_id),
        comment: wire.comment,
        package: text::or_opt(wire.package, &context.package),
    }
}

/// The UI session that a decision of session scope is bound to: the one that the decision
/// names, where it is one of those in play, else the first of them. Decisions of other scopes
/// keep what they name.
pub open spec fn session_bound(
    named: Option<String>,
    scope: ApprovalScope,
    session_ids: Seq<String>,
    r: Option<String>,
) -> bool {
    let ids = text::texts(session_ids);
    if scope != ApprovalScope::Session || ids.len() == 0 {
        r == named
    } else {
        match named {
            Some(id) => if ids.contains(id@) {
                r == named
            } else {
                r matches Some(s) && order::least_of(ids, s@)
            },
            None => r matches Some(s) && order::least_of(ids, s@),
        }
    }
}

/// The filled decision context, bound to one of the UI sessions in play.
pub open spec fn wire_bound(
    wire: ScopeWire,
    context: PendingContext,
    scope: ApprovalScope,
    session_ids: Seq<String>,
    r: ScopeWire,
) -> bool {
    &&& r == (ScopeWire { session_id: r.session_id, ..wire.filled(context) })
    &&& session_bound(wire.session_id, scope, session_ids, r.session_id)
}

/// Fill in a decision context and bind it to one of the UI sessions in play.
pub fn scope_wire_for_pending(
    wire: ScopeWire,
    context: &PendingContext,
    scope: ApprovalScope,
    session_ids: &Vec<String>,
) -> (r: ScopeWire)
    ensures
        wire_bound(wire, *context, scope, session_ids@, r),
{
    let mut filled = scope_wire_for_context(wire, context);
    if scope != ApprovalScope::Session {
        return filled;
    }
    if let Some(session) = &filled.session_id {
        if text::contains_text(session_ids, session) {
            return filled;
        }
    }
    assert(text::texts(session_ids@).len() == session_ids@.len());
    if let Some(session) = order::least(session_ids) {
        filled.session_id = Some(session);
    }
    filled
}

/// A path, and the directory that project-relative rules are seen from.
#[derive(Debug, PartialEq, Eq)]
pub struct PathQuery {
    pub path: String,
    pub root: Option<String>,
}

/// The host that a decision on a network request speaks of: one whose pattern covers the
/// request's, and for a single-use decision just that.
pub open spec fn network_target<H: Fn(&String, &String) -> bool>(
    pending: PendingNetwork,
    scope: ApprovalScope,
    target: Option<ApprovalTarget>,
    host_matches: H,
) -> Option<String> {
    let named = match target {
        None => Some(pending.host),
        Some(ApprovalTarget::NetworkHost(host)) => Some(host),
        Some(_) => None,
    };
    match named {
        Some(host) => if text::relates(host_matches, host, pending.host) && (scope
            == ApprovalScope::Once ==> host@ == pending.host@) {
            Some(host)
        } else {
            None
        },
        None => None,
    }
}

/// The host and port that a decision on a network request speaks of.
pub fn resolve_pending_network_target<H: Fn(&String, &String) -> bool>(
    pending: &PendingNetwork,
    scope: ApprovalScope,
    target: &Option<ApprovalTarget>,
    host_matches: &H,
) -> (r: Result<NetworkRuleKey, PolicydError>)
    requires
        text::decides_pairs(*host_matches),
    ensures
        r == (match network_target(*pending, scope, *target, *host_matches) {
            Some(host) => Ok::<_, PolicydError>(NetworkRuleKey { host, port: pending.port }),
            None => Err::<NetworkRuleKey, _>(PolicydError::InvalidDecisionTarget),
        }),
{
    let host = match target {
        None => pending.host.clone(),
        Some(ApprovalTarget::NetworkHost(host)) => host.clone(),
        Some(_) => {
            return Err(PolicydError::InvalidDecisionTarget);
        },
    };
    if !host_matches(&host, &pending.host) {
        return Err(PolicydError::InvalidDecisionTarget);
    }
    if scope == ApprovalScope::Once && host != pending.host {
        return Err(PolicydError::InvalidDecisionTarget);
    }
    Ok(NetworkRuleKey { host, port: pending.port })
}

/// The command that a decision on a command speaks of: one of its approval prefixes, and for a
/// single-use decision the whole command.
pub open spec fn sudo_target<S: Fn(&Vec<String>, &Vec<String>) -> bool>(
    pending: PendingElevation,
    scope: ApprovalScope,
    target: Option<ApprovalTarget>,
    has_prefix: S,
) -> Option<Seq<String>> {
    let named = match target {
        None => Some(pending.argv),
        Some(ApprovalTarget::SudoCommand(argv)) => Some(argv),
        Some(_) => None,
    };
    match named {
        Some(argv) => if text::relates(has_prefix, pending.argv, argv) && (scope
            == ApprovalScope::Once ==> text::texts(argv@) == text::texts(pending.argv@)) {
            Some(argv@)
        } else {
            None
        },
        None => None,
    }
}

/// The command that a decision on a command speaks of. `has_prefix` tells whether the second
/// command is one of the prefixes that the first may be approved by.
pub fn resolve_pending_sudo_target<S: Fn(&Vec<String>, &Vec<String>) -> bool>(
    pending: &PendingElevation,
    scope: ApprovalScope,
    target: &Option<ApprovalTarget>,
    has_prefix: &S,
) -> (r: Result<Vec<String>, PolicydError>)
    requires
        text::decides_pairs(*has_prefix),
    ensures
        match sudo_target(*pending, scope, *target, *has_prefix) {
            Some(argv) => r matches Ok(list) && list@ == argv,
            None => r == Err::<Vec<String>, _>(PolicydError::InvalidDecisionTarget),
        },
{
    let argv = match target {
        None => &pending.argv,
        Some(ApprovalTarget::SudoCommand(argv)) => argv,
        Some(_) => {
            return Err(PolicydError::InvalidDecisionTarget);
        },
    };
    if !has_prefix(&pending.argv, argv) {
        return Err(PolicydError::InvalidDecisionTarget);
    }
    if scope == ApprovalScope::Once && !text::same_texts(argv, &pending.argv) {
        return Err(PolicydError::InvalidDecisionTarget);
    }
    Ok(text::copy_texts(argv))
}

/// The path that a decision on a file access speaks of: the request's own, or, where the
/// decision is for more than once, one whose rule covers it.
pub open spec fn filesystem_target<F: Fn(&FilesystemRule, &PathQuery) -> bool>(
    pending: PendingFilesystem,
    scope: ApprovalScope,
    target: Option<ApprovalTarget>,
    root: Option<String>,
    path_matches: F,
) -> Option<String> {
    let named = match target {
        None => Some(pending.path),
        Some(ApprovalTarget::FilesystemPath(path)) => Some(path),
        Some(_) => None,
    };
    let root = if root is Some {
        root
    } else {
        pending.context.project_root
    };
    match named {
        Some(path) => if paths::components(path@) == paths::components(pending.path@) || (scope
            != ApprovalScope::Once && text::relates(
            path_matches,
            FilesystemRule { path, access: FileAccess::Read, comment: None },
            PathQuery { path: pending.path, root },
        )) {
            Some(path)
        } else {
            None
        },
        None => None,
    }
}

/// The path that a decision on a file access speaks of.
pub fn resolve_pending_filesystem_target<F: Fn(&FilesystemRule, &PathQuery) -> bool>(
    pending: &PendingFilesystem,
    scope: ApprovalScope,
    target: &Option<ApprovalTarget>,
    root: &Option<String>,
    path_matches: &F,
) -> (r: Result<String, PolicydError>)
    requires
        text::decides_pairs(*path_matches),
    ensures
        r == (match filesystem_target(*pending, scope, *target, *root, *path_matches) {
            Some(path) => Ok::<_, PolicydError>(path),
            None => Err::<String, _>(PolicydError::InvalidDecisionTarget),
        }),
{
    let path = match target {
        None => pending.path.clone(),
        Some(ApprovalTarget::FilesystemPath(path)) => path.clone(),
        Some(_) => {
            return Err(PolicydError::InvalidDecisionTarget);
        },
    };
    if paths::same_path(path.as_str(), pending.path.as_str()) {
        return Ok(path);
    }
    if scope == ApprovalScope::Once {
        return Err(PolicydError::InvalidDecisionTarget);
    }
    let rule = FilesystemRule { path: path.clone(), access: FileAccess::Read, comment: None };
    let query = PathQuery {
        path: pending.path.clone(),
        root: text::or_opt(text::copy_opt(root), &pending.context.project_root),
    };
    if path_matches(&rule, &query) {
        Ok(path)
    } else {
        Err(PolicydError::InvalidDecisionTarget)
    }
}

/// The path that a decision on a resource speaks of: the request's own, or, where the decision
/// is for more than once, one whose rule covers it. It must be of the request's kind.
pub open spec fn resource_target<R: Fn(&ResourceRule, &PathQuery) -> bool>(
    pending: PendingResource,
    scope: ApprovalScope,
    target: Option<ApprovalTarget>,
    root: Option<String>,
    path_matches: R,
) -> Option<String> {
    let named = match target {
        None => Some(pending.path),
        Some(ApprovalTarget::ResourcePath { resource_kind, path }) => if resource_kind
            == pending.kind {
            Some(path)
        } else {
            None
        },
        Some(_) => None,
    };
    let root = if root is Some {
        root
    } else {
        pending.context.project_root
    };
    match named {
        Some(path) => if paths::components(path@) == paths::components(pending.path@) || (scope
            != ApprovalScope::Once && text::relates(
            path_matches,
            ResourceRule {
                kind: pending.kind,
                path,
                access: ResourceAccess::Socket(SocketAccess::Connect),
                comment: None,
            },
            PathQuery { path: pending.path, root },
        )) {
            Some(path)
        } else {
            None
        },
        None => None,
    }
}

/// The path that a decision on a resource speaks of.
pub fn resolve_pending_resource_target<R: Fn(&ResourceRule, &PathQuery) -> bool>(
    pending: &PendingResource,
    scope: ApprovalScope,
    target: &Option<ApprovalTarget>,
    root: &Option<String>,
    path_matches: &R,
) -> (r: Result<String, PolicydError>)
    requires
        text::decides_pairs(*path_matches),
    ensures
        r == (match resource_target(*pending, scope, *target, *root, *path_matches) {
            Some(path) => Ok::<_, PolicydError>(path),
            None => Err::<String, _>(PolicydError::InvalidDecisionTarget),
        }),
{
    let path = match target {
        None => pending.path.clone(),
        Some(ApprovalTarget::ResourcePath { resource_kind, path }) => {
            if *resource_kind != pending.kind {
                return Err(PolicydError::InvalidDecisionTarget);
            }
            path.clone()
        },
        Some(_) => {
            return Err(PolicydError::InvalidDecisionTarget);
        },
    };
    if paths::same_path(path.as_str(), pending.path.as_str()) {
        return Ok(path);
    }
    if scope == ApprovalScope::Once {
        return Err(PolicydError::InvalidDecisionTarget);
    }
    let rule = ResourceRule {
        kind: pending.kind,
        path: path.clone(),
        access: ResourceAccess::Socket(SocketAccess::Connect),
        comment: None,
    };
    let query = PathQuery {
        path: pending.path.clone(),
        root: text::or_opt(text::copy_opt(root), &pending.context.project_root),
    };
    if path_matches(&rule, &query) {
        Ok(path)
    } else {
        Err(PolicydError::InvalidDecisionTarget)
    }
}

/// What a decision on a D-Bus message speaks of: the message itself, or a target that covers
/// it.
pub open spec fn dbus_target<D: Fn(&DbusTarget, &DbusTarget) -> bool>(
    pending: PendingDbus,
    target: Option<ApprovalTarget>,
    covers: D,
) -> Option<DbusTarget> {
    match target {
        None => Some(pending.target),
        Some(ApprovalTarget::Dbus(named)) => if text::relates(covers, named, pending.target) {
            Some(named)
        } else {
            None
        },
        Some(_) => None,
    }
}

/// What a decision on a D-Bus message speaks of. `covers` tells whether a rule on the first
/// target covers the second.
pub fn resolve_pending_dbus_target<D: Fn(&DbusTarget, &DbusTarget) -> bool>(
    pending: &PendingDbus,
    target: &Option<ApprovalTarget>,
    covers: &D,
) -> (r: Result<DbusTarget, PolicydError>)
    requires
        text::decides_pairs(*covers),
    ensures
        match dbus_target(*pending, *target, *covers) {
            Some(resolved) => r matches Ok(t) && t@ == resolved@,
            None => r == Err::<DbusTarget, _>(PolicydError::InvalidDecisionTarget),
        },
{
    match target {
        None => Ok(pending.target.clone()),
        Some(ApprovalTarget::Dbus(named)) => {
            if covers(named, &pending.target) {
                Ok(named.clone())
            } else {
                Err(PolicydError::InvalidDecisionTarget)
            }
        },
        Some(_) => Err(PolicydError::InvalidDecisionTarget),
    }
}

/// A single-use decision speaks of nothing but the request itself: of its own host, command or
/// path.
pub proof fn law_once_targets_are_exact<
    H: Fn(&String, &String) -> bool,
    S: Fn(&Vec<String>, &Vec<String>) -> bool,
    F: Fn(&FilesystemRule, &PathQuery) -> bool,
    R: Fn(&ResourceRule, &PathQuery) -> bool,
>(
    net: PendingNetwork,
    elev: PendingElevation,
    fs: PendingFilesystem,
    res: PendingResource,
    target: Option<ApprovalTarget>,
    root: Option<String>,
    host_matches: H,
    has_prefix: S,
    file_matches: F,
    resource_matches: R,
)
    ensures
        network_target(net, ApprovalScope::Once, target, host_matches) matches Some(host) ==> host@
            == net.host@,
        sudo_target(elev, ApprovalScope::Once, target, has_prefix) matches Some(argv)
            ==> text::texts(argv) == text::texts(elev.argv@),
        filesystem_target(fs, ApprovalScope::Once, target, root, file_matches) matches Some(path)
            ==> paths::components(path@) == paths::components(fs.path@),
        resource_target(res, ApprovalScope::Once, target, root, resource_matches) matches Some(
            path,
        ) ==> paths::components(path@) == paths::components(res.path@),
{
}

/// A UI that belongs to another sandbox session decides nothing, unless the user that decides
/// owns the session that asked.
pub proof fn law_foreign_ui_decides_nothing(
    store: PolicyStore,
    client_id: u64,
    ui_session_id: Option<String>,
    sandbox_session_id: Option<String>,
    approver_uid: Option<u32>,
    session: Seq<char>,
)
    requires
        deciding_session(store.ui, client_id, ui_session_id) == Some(session),
        store.ui.contexts@.contains_key(session),
        text::opt_text(store.ui.contexts@[session].sandbox_session_id) != text::opt_text(
            sandbox_session_id,
        ),
        !owns_session(store, sandbox_session_id, approver_uid),
    ensures
        !may_decide(store, client_id, ui_session_id, sandbox_session_id, approver_uid),
{
}

/// A user decides on a sandbox session's requests only as its owner or through a UI session
/// that they own.
pub proof fn law_user_decides_as_owner(
    store: PolicyStore,
    client_id: u64,
    ui_session_id: Option<String>,
    sandbox_session_id: Option<String>,
    uid: u32,
)
    requires
        may_decide(store, client_id, ui_session_id, sandbox_session_id, Some(uid)),
    ensures
        uid > 0,
        owns_session(store, sandbox_session_id, Some(uid)) || exists|session: Seq<char>|
            #[trigger] store.ui.contexts@.contains_key(session)
                && store.ui.contexts@[session].owner_uid == Some(uid) && text::opt_text(
                store.ui.contexts@[session].sandbox_session_id,
            ) == text::opt_text(sandbox_session_id),
{
}

} // verus!
