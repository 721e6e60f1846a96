//! Which work a request is handed to, and with what.

use vstd::prelude::*;

use crate::auth;
use crate::auth::SocketRole;
use crate::context::HostFacts;
use crate::context::ProcessQuery;
use crate::decide::HostApproveRequest;
use crate::decisions::ApprovalTarget;
use crate::decisions::DecisionAction;
use crate::decisions::PendingDecision;
use crate::decisions::ScopeWire;
use crate::error::PolicydError;
use crate::gate;
use crate::gate::GateKind;
use crate::peer::ClientPeer;
use crate::rpc::RpcRequest;
use crate::state::SandboxSessionRegistration;
use crate::state::UiSessionContext;
use crate::store::PolicyStore;
use crate::types::ApprovalScope;
use crate::types::DbusTarget;
use crate::types::FileAccess;
use crate::types::FilesystemRule;
use crate::types::HttpRuleTarget;
use crate::types::RequestContext;
use crate::types::ResolvedRequestContext;
use crate::types::ResourceAccess;
use crate::types::ResourceKind;
use crate::types::SandboxPaths;

verus! {

/// The work that a request comes to.
#[allow(inconsistent_fields)]
pub enum Handling {
    /// The proxy's request, as it came.
    Proxy(RpcRequest),
    /// Open a UI session for the client.
    RegisterUi(UiSessionContext),
    /// End the client's UI session.
    UnregisterUi,
    RegisterSandbox {
        session_id: String,
        package: String,
        owner_uid: u32,
        launcher_pid: u32,
        peer_pid: u32,
    },
    /// Check a host. The URL may name further hosts, which are told apart before the check.
    Check {
        host: Option<String>,
        connect_host: Option<String>,
        port: Option<u16>,
        scheme: String,
        url: Option<String>,
        ctx: ResolvedRequestContext,
    },
    CheckFilesystem { path: String, access: FileAccess, ctx: ResolvedRequestContext },
    CheckResource {
        kind: ResourceKind,
        path: String,
        access: ResourceAccess,
        ctx: ResolvedRequestContext,
    },
    CheckDbus { target: DbusTarget, ctx: ResolvedRequestContext },
    StartFilesystemMonitor {
        peer_pid: u32,
        ctx: ResolvedRequestContext,
        static_allow: Vec<FilesystemRule>,
    },
    Elevate { argv: Vec<String>, ctx: ResolvedRequestContext },
    Decide { decision: PendingDecision, action: DecisionAction },
    ApproveHost(HostApproveRequest),
    ApproveHttp {
        target: HttpRuleTarget,
        scope: ApprovalScope,
        session_id: Option<String>,
        ctx: ResolvedRequestContext,
    },
    Status(ResolvedRequestContext),
    /// Read the policy of the directories again and write it out.
    Reload(SandboxPaths),
    FilesystemSnapshot(ResolvedRequestContext),
    BindNetworkRevocation { path: String },
    ObserveNetworkGrants {
        program: String,
        pins: String,
        pid: u32,
        cgroup: u64,
        dns: String,
    },
    PublishNetworkGrants,
}

/// The request is handed to the proxy's part of the store.
pub open spec fn for_proxy(req: RpcRequest) -> bool {
    ||| req is OpenProxySession
    ||| req is RegisterNetworkFlow
    ||| req is ClaimNetworkFlow
    ||| req is ClaimNetworkFlowBySource
    ||| req is RebindNetworkFlow
    ||| req is CheckHttp
    ||| req is CheckNetworkFlow
    ||| req is CancelCheck
    ||| req is ReleaseNetworkFlow
}

/// Whether the request is handed to the proxy's part of the store.
pub fn is_for_proxy(req: &RpcRequest) -> (r: bool)
    ensures
        r == for_proxy(*req),
{
    match req {
        RpcRequest::OpenProxySession => true,
        RpcRequest::RegisterNetworkFlow { .. } => true,
        RpcRequest::ClaimNetworkFlow { .. } => true,
        RpcRequest::ClaimNetworkFlowBySource { .. } => true,
        RpcRequest::RebindNetworkFlow { .. } => true,
        RpcRequest::CheckHttp { .. } => true,
        RpcRequest::CheckNetworkFlow { .. } => true,
        RpcRequest::CancelCheck { .. } => true,
        RpcRequest::ReleaseNetworkFlow { .. } => true,
        _ => false,
    }
}

/// The context that a request carries.
pub open spec fn carried_context(req: RpcRequest) -> Option<RequestContext> {
    match req {
        RpcRequest::RegisterUi { ctx, .. } => Some(ctx),
        RpcRequest::Check { ctx, .. } => Some(ctx),
        RpcRequest::CheckFilesystem { ctx, .. } => Some(ctx),
        RpcRequest::CheckResource { ctx, .. } => Some(ctx),
        RpcRequest::CheckDbus { ctx, .. } => Some(ctx),
        RpcRequest::StartFilesystemMonitor { ctx, .. } => Some(ctx),
        RpcRequest::Elevate { ctx, .. } => Some(ctx),
        RpcRequest::Approve { ctx, .. } => Some(ctx),
        RpcRequest::ApproveHost { ctx, .. } => Some(ctx),
        RpcRequest::ApproveHttp { ctx, .. } => Some(ctx),
        RpcRequest::Deny { ctx, .. } => Some(ctx),
        RpcRequest::Status { ctx } => Some(ctx),
        RpcRequest::Reload { ctx } => Some(ctx),
        RpcRequest::FilesystemSnapshot { ctx } => Some(ctx),
        _ => None,
    }
}

/// Why the peer may not register a UI for the context's sandbox session.
pub open spec fn ui_refusal(
    sessions: Map<Seq<char>, SandboxSessionRegistration>,
    peer: ClientPeer,
    ctx: ResolvedRequestContext,
) -> Option<PolicydError> {
    match ctx.sandbox_session_id {
        None => Some(PolicydError::UnauthorizedApprovalSession),
        Some(id) => if peer.uid > 0 && sessions.contains_key(id@) && sessions[id@].owner_uid
            != peer.uid {
            Some(PolicydError::UnauthorizedUiRegistration)
        } else {
            None
        },
    }
}

/// The user of a peer that is not root.
pub open spec fn user_of(peer: ClientPeer) -> Option<u32> {
    if peer.uid > 0 {
        Some(peer.uid)
    } else {
        None
    }
}

/// The UI session of a client in a context.
pub open spec fn ui_session(
    client_id: u64,
    peer: ClientPeer,
    ctx: ResolvedRequestContext,
) -> UiSessionContext {
    UiSessionContext {
        cwd: ctx.paths.cwd,
        home: ctx.paths.home,
        project_root: ctx.paths.project_root,
        sandbox_session_id: ctx.sandbox_session_id,
        owner_uid: user_of(peer),
        client_id,
    }
}

/// The decision that a client asks for in a context.
pub open spec fn decision(
    id: String,
    scope: ApprovalScope,
    session_id: Option<String>,
    target: Option<ApprovalTarget>,
    comment: Option<String>,
    ctx: ResolvedRequestContext,
    client_id: u64,
    peer: ClientPeer,
) -> PendingDecision {
    PendingDecision {
        pending_id: id,
        scope,
        target,
        wire: ScopeWire { comment, ..ScopeWire::of(ctx, session_id) },
        client_id,
        approver_uid: user_of(peer),
    }
}

/// The process that a file monitor watches for.
pub open spec fn watched_pid(peer: ClientPeer, ctx: ResolvedRequestContext) -> u32 {
    if peer.pid > 0 {
        peer.pid
    } else {
        match ctx.ids.pid {
            Some(pid) => pid,
            None => 0,
        }
    }
}

/// The work that a request comes to, where `ctx` is what its context stands for.
pub open spec fn handling(
    sessions: Map<Seq<char>, SandboxSessionRegistration>,
    client_id: u64,
    peer: ClientPeer,
    req: RpcRequest,
    ctx: ResolvedRequestContext,
) -> Result<Handling, PolicydError> {
    match req {
        RpcRequest::RegisterUi { .. } => match ui_refusal(sessions, peer, ctx) {
            Some(error) => Err(error),
            None => Ok(Handling::RegisterUi(ui_session(client_id, peer, ctx))),
        },
        RpcRequest::UnregisterUi => Ok(Handling::UnregisterUi),
        RpcRequest::RegisterSandbox { session_id, package, launcher_pid } => Ok(
            Handling::RegisterSandbox {
                session_id,
                package,
                owner_uid: peer.uid,
                launcher_pid,
                peer_pid: peer.pid,
            },
        ),
        RpcRequest::Check { host, connect_host, port, scheme, url, .. } => Ok(
            Handling::Check { host, connect_host, port, scheme, url, ctx },
        ),
        RpcRequest::CheckFilesystem { path, access, .. } => Ok(
            Handling::CheckFilesystem { path, access, ctx },
        ),
        RpcRequest::CheckResource { kind, path, access, .. } => Ok(
            Handling::CheckResource { kind, path, access, ctx },
        ),
        RpcRequest::CheckDbus { target, .. } => Ok(Handling::CheckDbus { target, ctx }),
        RpcRequest::StartFilesystemMonitor { static_allow, .. } => Ok(
            Handling::StartFilesystemMonitor {
                peer_pid: watched_pid(peer, ctx),
                ctx,
                static_allow,
            },
        ),
        RpcRequest::Elevate { argv, .. } => if argv@.len() == 0 {
            Err(PolicydError::ArgvRequired)
        } else {
            Ok(Handling::Elevate { argv, ctx })
        },
        RpcRequest::Approve { id, scope, session_id, target, comment, .. } => Ok(
            Handling::Decide {
                decision: decision(
                    id,
                    scope,
                    session_id,
                    target,
                    comment,
                    ctx,
                    client_id,
                    peer,
                ),
                action: DecisionAction::Approve,
            },
        ),
        RpcRequest::Deny { id, scope, session_id, target, comment, .. } => Ok(
            Handling::Decide {
                decision: decision(
                    id,
                    scope,
                    session_id,
                    target,
                    comment,
                    ctx,
                    client_id,
                    peer,
                ),
                action: DecisionAction::Deny,
            },
        ),
        RpcRequest::ApproveHost { host, port, scope, session_id, .. } => Ok(
            Handling::ApproveHost(HostApproveRequest { host, port, scope, session_id, ctx }),
        ),
        RpcRequest::ApproveHttp { target, scope, session_id, .. } => Ok(
            Handling::ApproveHttp { target, scope, session_id, ctx },
        ),
        RpcRequest::Status { .. } => Ok(Handling::Status(ctx)),
        RpcRequest::Reload { .. } => Ok(Handling::Reload(ctx.paths)),
        RpcRequest::FilesystemSnapshot { .. } => Ok(Handling::FilesystemSnapshot(ctx)),
        RpcRequest::BindNetworkRevocation { path } => Ok(
            Handling::BindNetworkRevocation { path },
        ),
        RpcRequest::ObserveNetworkGrants { program, pins, pid, cgroup, dns } => Ok(
            Handling::ObserveNetworkGrants { program, pins, pid, cgroup, dns },
        ),
        RpcRequest::PublishNetworkGrants => Ok(Handling::PublishNetworkGrants),
        _ => Ok(Handling::Proxy(req)),
    }
}

/// The sandbox sessions after a request has been looked at.
pub open spec fn sessions_after<A: Fn(&u32, &u32) -> bool>(
    sessions: Map<Seq<char>, SandboxSessionRegistration>,
    peer: ClientPeer,
    role: SocketRole,
    req: RpcRequest,
    descends: A,
) -> Map<Seq<char>, SandboxSessionRegistration> {
    match carried_context(req) {
        Some(ctx) => gate::sessions_noted(sessions, peer, role, ctx, descends),
        None => sessions,
    }
}

/// What a request's context stands for. The D-Bus proxy on the host socket asks for the process
/// that it names.
pub open spec fn context_after<
    A: Fn(&u32, &u32) -> bool,
    S: Fn(&u32) -> Option<String>,
    H: Fn(&u32) -> Option<String>,
    C: Fn(&ProcessQuery) -> Option<String>,
>(
    sessions: Map<Seq<char>, SandboxSessionRegistration>,
    peer: ClientPeer,
    role: SocketRole,
    req: RpcRequest,
    facts: HostFacts<A, S, H, C>,
) -> ResolvedRequestContext {
    let ctx = carried_context(req)->0;
    if req is CheckDbus && role == SocketRole::Host {
        gate::bus_request_context(sessions, peer, ctx, facts)
    } else {
        gate::request_context(sessions, peer, ctx, facts)
    }
}

impl PolicyStore {
    /// The session that a UI of the peer is registered with, or why it is refused.
    pub fn register_ui(
        &self,
        client_id: u64,
        peer: ClientPeer,
        ctx: ResolvedRequestContext,
    ) -> (r: Result<UiSessionContext, PolicydError>)
        requires
            self.wf(),
        ensures
            r == (match ui_refusal(self.sandbox_sessions@, peer, ctx) {
                Some(error) => Err::<UiSessionContext, _>(error),
                None => Ok(ui_session(client_id, peer, ctx)),
            }),
    {
        match &ctx.sandbox_session_id {
            None => {
                return Err(PolicydError::UnauthorizedApprovalSession);
            },
            Some(id) => {
                if peer.uid > 0 {
                    if let Some(reg) = self.sandbox_sessions.get(id) {
                        if reg.owner_uid != peer.uid {
                            return Err(PolicydError::UnauthorizedUiRegistration);
                        }
                    }
                }
            },
        }
        Ok(
            UiSessionContext {
                cwd: ctx.paths.cwd,
                home: ctx.paths.home,
                project_root: ctx.paths.project_root,
                sandbox_session_id: ctx.sandbox_session_id,
                owner_uid: peer.approver_uid(),
                client_id,
            },
        )
    }

    /// The work that a request comes to. A sandbox peer is taken note of.
    pub fn handle<
        A: Fn(&u32, &u32) -> bool,
        S: Fn(&u32) -> Option<String>,
        H: Fn(&u32) -> Option<String>,
        C: Fn(&ProcessQuery) -> Option<String>,
    >(
        &mut self,
        client_id: u64,
        peer: ClientPeer,
        role: SocketRole,
        req: RpcRequest,
        facts: &HostFacts<A, S, H, C>,
    ) -> (r: Result<Handling, PolicydError>)
        requires
            old(self).wf(),
            facts.settled(),
        ensures
            final(self).wf(),
            final(self).configured_as(old(self)),
            final(self).sessions_changed(old(self)),
            final(self).sandbox_sessions@ == sessions_after(
                old(self).sandbox_sessions@,
                peer,
                role,
                req,
                *facts.descends,
            ),
            r == handling(
                final(self).sandbox_sessions@,
                client_id,
                peer,
                req,
                context_after(final(self).sandbox_sessions@, peer, role, req, *facts),
            ),
    {
        if is_for_proxy(&req) {
            return Ok(Handling::Proxy(req));
        }
        match req {
            RpcRequest::RegisterUi { ui_client: _, ctx } => {
                let ctx = self.resolve_request_context(peer, role, &ctx, facts);
                match self.register_ui(client_id, peer, ctx) {
                    Ok(session) => Ok(Handling::RegisterUi(session)),
                    Err(error) => Err(error),
                }
            },
            RpcRequest::UnregisterUi => Ok(Handling::UnregisterUi),
            RpcRequest::RegisterSandbox { session_id, package, launcher_pid } => Ok(
                Handling::RegisterSandbox {
                    session_id,
                    package,
                    owner_uid: peer.uid,
                    launcher_pid,
                    peer_pid: peer.pid,
                },
            ),
            RpcRequest::Check { host, connect_host, port, scheme, url, ctx } => {
                let ctx = self.resolve_request_context(peer, role, &ctx, facts);
                Ok(Handling::Check { host, connect_host, port, scheme, url, ctx })
            },
            RpcRequest::CheckFilesystem { path, access, ctx } => {
                let ctx = self.resolve_request_context(peer, role, &ctx, facts);
                Ok(Handling::CheckFilesystem { path, access, ctx })
            },
            RpcRequest::CheckResource { kind, path, access, ctx } => {
                let ctx = self.resolve_request_context(peer, role, &ctx, facts);
                Ok(Handling::CheckResource { kind, path, access, ctx })
            },
            RpcRequest::CheckDbus { target, ctx } => {
                let ctx = self.resolve_plain_gate_context(
                    peer,
                    role,
                    GateKind::Dbus,
                    &ctx,
                    facts,
                );
                Ok(Handling::CheckDbus { target, ctx })
            },
            RpcRequest::StartFilesystemMonitor { ctx, static_allow } => {
                let ctx = self.resolve_request_context(peer, role, &ctx, facts);
                let peer_pid: u32 = if peer.pid > 0 {
                    peer.pid
                } else {
                    match ctx.ids.pid {
                        Some(pid) => pid,
                        None => 0,
                    }
                };
                Ok(Handling::StartFilesystemMonitor { peer_pid, ctx, static_allow })
            },
            req => self.handle_decision(client_id, peer, role, req, facts),
        }
    }

    fn handle_decision<
        A: Fn(&u32, &u32) -> bool,
        S: Fn(&u32) -> Option<String>,
        H: Fn(&u32) -> Option<String>,
        C: Fn(&ProcessQuery) -> Option<String>,
    >(
        &mut self,
        client_id: u64,
        peer: ClientPeer,
        role: SocketRole,
        req: RpcRequest,
        facts: &HostFacts<A, S, H, C>,
    ) -> (r: Result<Handling, PolicydError>)
        requires
            old(self).wf(),
            facts.settled(),
            !for_proxy(req),
            !(req is RegisterUi),
            !(req is UnregisterUi),
            !(req is RegisterSandbox),
            !(req is Check),
            !(req is CheckFilesystem),
            !(req is CheckResource),
            !(req is CheckDbus),
            !(req is StartFilesystemMonitor),
        ensures
            final(self).wf(),
            final(self).sessions_changed(old(self)),
            final(self).sandbox_sessions@ == sessions_after(
                old(self).sandbox_sessions@,
                peer,
                role,
                req,
                *facts.descends,
            ),
            r == handling(
                final(self).sandbox_sessions@,
                client_id,
                peer,
                req,
                context_after(final(self).sandbox_sessions@, peer, role, req, *facts),
            ),
    {
        match req {
            RpcRequest::Elevate { argv, ctx } => {
                let ctx = self.resolve_request_context(peer, role, &ctx, facts);
                if argv.len() == 0 {
                    return Err(PolicydError::ArgvRequired);
                }
                Ok(Handling::Elevate { argv, ctx })
            },
            RpcRequest::Approve { id, scope, session_id, target, comment, ctx } => {
                let ctx = self.resolve_request_context(peer, role, &ctx, facts);
                let mut wire = ScopeWire::from_resolved(&ctx, session_id);
                wire.comment = comment;
                let decision = PendingDecision {
                    pending_id: id,
                    scope,
                    target,
                    wire,
                    client_id,
                    approver_uid: peer.approver_uid(),
                };
                Ok(Handling::Decide { decision, action: DecisionAction::Approve })
            },
            RpcRequest::Deny { id, scope, session_id, target, comment, ctx } => {
                let ctx = self.resolve_request_context(peer, role, &ctx, facts);
                let mut wire = ScopeWire::from_resolved(&ctx, session_id);
                wire.comment = comment;
                let decision = PendingDecision {
                    pending_id: id,
                    scope,
                    target,
                    wire,
                    client_id,
                    approver_uid: peer.approver_uid(),
                };
                Ok(Handling::Decide { decision, action: DecisionAction::Deny })
            },
            RpcRequest::ApproveHost { host, port, scope, session_id, ctx } => {
                let ctx = self.resolve_request_context(peer, role, &ctx, facts);
                Ok(
                    Handling::ApproveHost(
                        HostApproveRequest { host, port, scope, session_id, ctx },
                    ),
                )
            },
            RpcRequest::ApproveHttp { target, scope, session_id, ctx } => {
                let ctx = self.resolve_request_context(peer, role, &ctx, facts);
                Ok(Handling::ApproveHttp { target, scope, session_id, ctx })
            },
            RpcRequest::Status { ctx } => Ok(
                Handling::Status(self.resolve_request_context(peer, role, &ctx, facts)),
            ),
            RpcRequest::Reload { ctx } => {
                let ctx = self.resolve_request_context(peer, role, &ctx, facts);
                Ok(Handling::Reload(ctx.paths))
            },
            RpcRequest::FilesystemSnapshot { ctx } => Ok(
                Handling::FilesystemSnapshot(
                    self.resolve_request_context(peer, role, &ctx, facts),
                ),
            ),
            RpcRequest::BindNetworkRevocation { path } => Ok(
                Handling::BindNetworkRevocation { path },
            ),
            RpcRequest::ObserveNetworkGrants { program, pins, pid, cgroup, dns } => Ok(
                Handling::ObserveNetworkGrants { program, pins, pid, cgroup, dns },
            ),
            RpcRequest::PublishNetworkGrants => Ok(Handling::PublishNetworkGrants),
            req => Ok(Handling::Proxy(req)),
        }
    }

    /// The work that a request comes to, where it is admitted.
    pub fn dispatch<
        A: Fn(&u32, &u32) -> bool,
        S: Fn(&u32) -> Option<String>,
        H: Fn(&u32) -> Option<String>,
        C: Fn(&ProcessQuery) -> Option<String>,
    >(
        &mut self,
        client_id: u64,
        peer: ClientPeer,
        role: SocketRole,
        req: RpcRequest,
        facts: &HostFacts<A, S, H, C>,
    ) -> (r: Result<Handling, PolicydError>)
        requires
            old(self).wf(),
            facts.settled(),
        ensures
            final(self).wf(),
            final(self).configured_as(old(self)),
            match auth::admission_refusal(role, peer.uid, req) {
                Some(error) => r == Err::<Handling, _>(error) && *final(self) == *old(self),
                None => {
                    &&& final(self).sessions_changed(old(self))
                    &&& final(self).sandbox_sessions@ == sessions_after(
                        old(self).sandbox_sessions@,
                        peer,
                        role,
                        req,
                        *facts.descends,
                    )
                    &&& r == handling(
                        final(self).sandbox_sessions@,
                        client_id,
                        peer,
                        req,
                        context_after(final(self).sandbox_sessions@, peer, role, req, *facts),
                    )
                },
            },
    {
        match auth::authorize(role, peer.uid, &req) {
            Ok(_) => self.handle(client_id, peer, role, req, facts),
            Err(error) => Err(error),
        }
    }
}

/// What a sandboxed process asks for never comes to a decision, to a UI session or to control
/// over the daemon.
pub proof fn law_sandbox_only_asks(
    sessions: Map<Seq<char>, SandboxSessionRegistration>,
    client_id: u64,
    peer: ClientPeer,
    req: RpcRequest,
    ctx: ResolvedRequestContext,
)
    requires
        auth::admission_refusal(SocketRole::Sandbox, peer.uid, req) is None,
    ensures
        handling(sessions, client_id, peer, req, ctx) matches Ok(work) ==> !(work is Decide)
            && !(work is ApproveHost) && !(work is ApproveHttp) && !(work is RegisterUi)
            && !(work is Reload) && !(work is RegisterSandbox),
{
}

/// A user cannot register a UI for a sandbox session that another user owns.
pub proof fn law_foreign_user_registers_no_ui(
    sessions: Map<Seq<char>, SandboxSessionRegistration>,
    client_id: u64,
    peer: ClientPeer,
    req: RpcRequest,
    ctx: ResolvedRequestContext,
)
    requires
        req is RegisterUi,
        peer.uid > 0,
        ctx.sandbox_session_id is Some,
        sessions.contains_key(ctx.sandbox_session_id->0@),
        sessions[ctx.sandbox_session_id->0@].owner_uid != peer.uid,
    ensures
        handling(sessions, client_id, peer, req, ctx) == Err::<Handling, _>(
            PolicydError::UnauthorizedUiRegistration,
        ),
{
}

} // verus!
