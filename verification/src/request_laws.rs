//! What holds of requests: who may make which, what each comes to, and what a connection leaves
//! behind.

use vstd::prelude::*;

use crate::auth;
use crate::auth::SocketRole;
use crate::client;
use crate::client::ClientEnd;
use crate::client::ClientState;
use crate::client::LineRead;
use crate::client::LineStep;
use crate::client::RequestStep;
use crate::context::HostFacts;
use crate::context::ProcessQuery;
use crate::decisions::DecisionAction;
use crate::error::PolicydError;
use crate::flow::ProxyCheckId;
use crate::handlers::Handling;
use crate::handlers;
use crate::paths;
use crate::peer::ClientPeer;
use crate::rpc::RpcRequest;
use crate::server::Listener;
use crate::server::PolicyServer;
use crate::state::UiSessionContext;
use crate::store::PolicyStore;
use crate::types::ResolvedRequestContext;

verus! {

/// A sandbox may ask, start its monitor and have its commands decided; for root it may register
/// flows and take snapshots. It may do nothing else: it decides nothing, approves nothing and
/// registers nobody.
pub proof fn law_sandbox_may_only_ask(uid: u32, req: &RpcRequest, r: Result<(), PolicydError>)
    requires
        call_ensures(auth::authorize, (SocketRole::Sandbox, uid, req), r),
    ensures
        r is Ok <==> (req is Check || req is CheckFilesystem || req is CheckResource || req
            is Elevate || req is StartFilesystemMonitor || (uid == 0 && (req is RegisterNetworkFlow
            || req is FilesystemSnapshot))),
        r is Err ==> r->Err_0 is UnauthorizedRequest,
{
}

/// A connection that has registered a UI may decide, look and reload, and nothing else.
pub proof fn law_ui_may_only_decide(uid: u32, req: &RpcRequest, r: Result<(), PolicydError>)
    requires
        call_ensures(auth::authorize, (SocketRole::UiFd, uid, req), r),
    ensures
        r is Ok <==> (req is Approve || req is ApproveHost || req is ApproveHttp || req is Deny
            || req is Status || req is Reload || req is UnregisterUi),
{
}

/// The proxy may open its session, claim and release flows and have its checks made or cancelled,
/// and nothing else.
pub proof fn law_proxy_may_only_check(uid: u32, req: &RpcRequest, r: Result<(), PolicydError>)
    requires
        call_ensures(auth::authorize, (SocketRole::Proxy, uid, req), r),
    ensures
        r is Ok <==> (req is OpenProxySession || req is ClaimNetworkFlow || req is CheckHttp || req
            is CheckNetworkFlow || req is CancelCheck || req is ReleaseNetworkFlow),
        r is Err ==> r->Err_0 is UnauthorizedRequest,
{
}

/// On the host socket everything is admitted but what is the proxy's, and what is root's only for
/// root.
pub proof fn law_host_may_do_all_but_the_proxys(
    uid: u32,
    req: &RpcRequest,
    r: Result<(), PolicydError>,
)
    requires
        call_ensures(auth::authorize, (SocketRole::Host, uid, req), r),
    ensures
        req is OpenProxySession || req is ClaimNetworkFlow || req is CheckHttp || req
            is CheckNetworkFlow || req is CancelCheck || req is ReleaseNetworkFlow ==> r is Err,
        uid != 0 && (req is RegisterNetworkFlow || req is FilesystemSnapshot || req
            is BindNetworkRevocation || req is ObserveNetworkGrants || req is PublishNetworkGrants)
            ==> r is Err,
        req is RegisterUi || req is UnregisterUi || req is RegisterSandbox || req is Check || req
            is CheckFilesystem || req is CheckResource || req is CheckDbus || req
            is StartFilesystemMonitor || req is Elevate || req is Approve || req is ApproveHost
            || req is ApproveHttp || req is Deny || req is Status || req is Reload ==> r is Ok,
        uid == 0 && (req is RegisterNetworkFlow || req is FilesystemSnapshot || req
            is BindNetworkRevocation || req is ObserveNetworkGrants || req is PublishNetworkGrants)
            ==> r is Ok,
        r is Err ==> r->Err_0 is UnauthorizedRequest,
{
}

/// A request that the socket does not admit is refused with what the admission says, and changes
/// nothing.
pub proof fn law_refused_request_changes_nothing<
    A: Fn(&u32, &u32) -> bool,
    S: Fn(&u32) -> Option<String>,
    H: Fn(&u32) -> Option<String>,
    C: Fn(&ProcessQuery) -> Option<String>,
>(
    store: &mut PolicyStore,
    client_id: u64,
    peer: ClientPeer,
    role: SocketRole,
    req: RpcRequest,
    facts: &HostFacts<A, S, H, C>,
    admitted: Result<(), PolicydError>,
    r: Result<Handling, PolicydError>,
)
    requires
        call_ensures(
            PolicyStore::dispatch::<A, S, H, C>,
            (store, client_id, peer, role, req, facts),
            r,
        ),
        call_ensures(auth::authorize, (role, peer.uid, &req), admitted),
    ensures
        admitted is Err ==> r is Err && r->Err_0 == admitted->Err_0 && *final(store) == *old(store),
{
}

/// An admitted request comes to its own work with what it asks for: a denial to a denial of the
/// request that it names, an approval to an approval, each in the scope and for the target that
/// it gives, by the client that sent it and for its user; root decides as nobody.
pub proof fn law_decision_is_handed_on_as_it_was_sent<
    A: Fn(&u32, &u32) -> bool,
    S: Fn(&u32) -> Option<String>,
    H: Fn(&u32) -> Option<String>,
    C: Fn(&ProcessQuery) -> Option<String>,
>(
    store: &mut PolicyStore,
    client_id: u64,
    peer: ClientPeer,
    role: SocketRole,
    req: RpcRequest,
    facts: &HostFacts<A, S, H, C>,
    r: Result<Handling, PolicydError>,
)
    requires
        call_ensures(
            PolicyStore::dispatch::<A, S, H, C>,
            (store, client_id, peer, role, req, facts),
            r,
        ),
        role == SocketRole::Host || role == SocketRole::UiFd,
    ensures
        req is Approve || req is Deny ==> r is Ok && r->Ok_0 is Decide,
        r is Ok && r->Ok_0 is Decide ==> {
            let decision = r->Ok_0->decision;
            &&& (req is Deny && r->Ok_0->action == DecisionAction::Deny) || (req is Approve
                && r->Ok_0->action == DecisionAction::Approve)
            &&& req is Deny ==> {
                &&& decision.pending_id == req->Deny_id
                &&& decision.scope == req->Deny_scope
                &&& decision.target == req->Deny_target
                &&& decision.wire.session_id == req->Deny_session_id
                &&& decision.wire.comment == req->Deny_comment
            }
            &&& req is Approve ==> {
                &&& decision.pending_id == req->Approve_id
                &&& decision.scope == req->Approve_scope
                &&& decision.target == req->Approve_target
                &&& decision.wire.session_id == req->Approve_session_id
                &&& decision.wire.comment == req->Approve_comment
            }
            &&& decision.client_id == client_id
            &&& decision.approver_uid == (if peer.uid > 0 {
                Some(peer.uid)
            } else {
                None
            })
        },
{
}

/// What is asked is what is checked: the work that comes of a question holds its host, path,
/// resource, target or command as it was sent, and the other way round. A command without words
/// is refused.
pub proof fn law_question_is_handed_on_as_it_was_asked<
    A: Fn(&u32, &u32) -> bool,
    S: Fn(&u32) -> Option<String>,
    H: Fn(&u32) -> Option<String>,
    C: Fn(&ProcessQuery) -> Option<String>,
>(
    store: &mut PolicyStore,
    client_id: u64,
    peer: ClientPeer,
    role: SocketRole,
    req: RpcRequest,
    facts: &HostFacts<A, S, H, C>,
    r: Result<Handling, PolicydError>,
)
    requires
        call_ensures(
            PolicyStore::dispatch::<A, S, H, C>,
            (store, client_id, peer, role, req, facts),
            r,
        ),
        role == SocketRole::Host || role == SocketRole::Sandbox,
    ensures
        req is Check ==> (r matches Ok(Handling::Check { host, connect_host, port, scheme, url, .. })
            && host == req->Check_host && connect_host == req->connect_host && port
            == req->Check_port && scheme == req->scheme && url == req->url),
        req is CheckFilesystem ==> (r matches Ok(Handling::CheckFilesystem { path, access, .. })
            && path == req->CheckFilesystem_path && access == req->CheckFilesystem_access),
        req is CheckResource ==> (r matches Ok(
            Handling::CheckResource { kind, path, access, .. },
        ) && kind == req->kind && path == req->CheckResource_path && access
            == req->CheckResource_access),
        req is CheckDbus && role == SocketRole::Host ==> (r matches Ok(
            Handling::CheckDbus { target, .. },
        ) && target == req->CheckDbus_target),
        req is Elevate ==> if req->argv@.len() == 0 {
            r matches Err(error) && error is ArgvRequired
        } else {
            r matches Ok(Handling::Elevate { argv, .. }) && argv == req->argv
        },
        req is StartFilesystemMonitor ==> (r matches Ok(
            Handling::StartFilesystemMonitor { peer_pid, static_allow, .. },
        ) && static_allow == req->static_allow && (peer.pid > 0 ==> peer_pid == peer.pid)),
        r is Ok ==> {
            &&& r->Ok_0 is Check ==> req is Check
            &&& r->Ok_0 is CheckFilesystem ==> req is CheckFilesystem
            &&& r->Ok_0 is CheckResource ==> req is CheckResource
            &&& r->Ok_0 is CheckDbus ==> req is CheckDbus
            &&& r->Ok_0 is Elevate ==> req is Elevate
            &&& r->Ok_0 is StartFilesystemMonitor ==> req is StartFilesystemMonitor
        },
{
}

/// A host or an HTTP target is approved only where that was sent, as it was sent, and a sandbox is
/// registered for the user that sent it and nobody else.
pub proof fn law_approval_is_handed_on_as_it_was_sent<
    A: Fn(&u32, &u32) -> bool,
    S: Fn(&u32) -> Option<String>,
    H: Fn(&u32) -> Option<String>,
    C: Fn(&ProcessQuery) -> Option<String>,
>(
    store: &mut PolicyStore,
    client_id: u64,
    peer: ClientPeer,
    role: SocketRole,
    req: RpcRequest,
    facts: &HostFacts<A, S, H, C>,
    r: Result<Handling, PolicydError>,
)
    requires
        call_ensures(
            PolicyStore::dispatch::<A, S, H, C>,
            (store, client_id, peer, role, req, facts),
            r,
        ),
        role == SocketRole::Host,
    ensures
        req is ApproveHost ==> (r matches Ok(Handling::ApproveHost(asked)) && asked.host
            == req->ApproveHost_host && asked.port == req->ApproveHost_port && asked.scope
            == req->ApproveHost_scope && asked.session_id == req->ApproveHost_session_id),
        req is ApproveHttp ==> (r matches Ok(
            Handling::ApproveHttp { target, scope, session_id, .. },
        ) && target == req->ApproveHttp_target && scope == req->ApproveHttp_scope && session_id
            == req->ApproveHttp_session_id),
        req is RegisterSandbox ==> (r matches Ok(
            Handling::RegisterSandbox { session_id, package, owner_uid, launcher_pid, peer_pid },
        ) && session_id == req->RegisterSandbox_session_id && package == req->package && owner_uid
            == peer.uid && launcher_pid == req->launcher_pid && peer_pid == peer.pid),
        req is UnregisterUi ==> (r matches Ok(work) && work is UnregisterUi),
        req is Status ==> (r matches Ok(work) && work is Status),
        req is Reload ==> (r matches Ok(work) && work is Reload),
        r is Ok ==> {
            &&& r->Ok_0 is ApproveHost ==> req is ApproveHost
            &&& r->Ok_0 is ApproveHttp ==> req is ApproveHttp
            &&& r->Ok_0 is RegisterSandbox ==> req is RegisterSandbox
            &&& r->Ok_0 is RegisterUi ==> req is RegisterUi
            &&& r->Ok_0 is UnregisterUi ==> req is UnregisterUi
        },
{
}

/// A UI is registered for its own client and user, for a sandbox session, and where that session
/// is known for no user but its owner; root may register for any.
pub proof fn law_ui_is_registered_for_its_own_session(
    store: &PolicyStore,
    client_id: u64,
    peer: ClientPeer,
    ctx: ResolvedRequestContext,
    r: Result<UiSessionContext, PolicydError>,
)
    requires
        call_ensures(PolicyStore::register_ui, (store, client_id, peer, ctx), r),
    ensures
        r is Ok <==> {
            &&& ctx.sandbox_session_id is Some
            &&& peer.uid == 0 || !store.sandbox_sessions@.contains_key(ctx.sandbox_session_id->0@)
                || store.sandbox_sessions@[ctx.sandbox_session_id->0@].owner_uid == peer.uid
        },
        r is Ok ==> {
            &&& r->Ok_0.client_id == client_id
            &&& r->Ok_0.sandbox_session_id == ctx.sandbox_session_id
            &&& r->Ok_0.owner_uid == (if peer.uid > 0 {
                Some(peer.uid)
            } else {
                None
            })
            &&& r->Ok_0.cwd == ctx.paths.cwd
            &&& r->Ok_0.home == ctx.paths.home
            &&& r->Ok_0.project_root == ctx.paths.project_root
        },
{
}

/// The proxy's connection is for one thing: once it holds the proxy session or has a check under
/// way, no further line of it is read as a request. On every other connection each line that is
/// not empty is.
pub proof fn law_lines_are_parsed_one_by_one(
    state: &ClientState,
    line: String,
    r: LineStep,
)
    requires
        call_ensures(ClientState::on_line, (state, LineRead::Line(line)), r),
    ensures
        r is Parse <==> line@.len() > 0 && !(state.role == SocketRole::Proxy && (
        state.session_owner || state.active@.len() > 0)),
        r is Parse ==> r->Parse_0 == line,
        !(r is Refuse),
{
}

/// A line that is too long or not text is refused, and nothing is read past the end.
pub proof fn law_unusable_lines_are_refused(state: &ClientState, read: LineRead, r: LineStep)
    requires
        call_ensures(ClientState::on_line, (state, read), r),
    ensures
        read is Eof ==> r is Stop,
        r is Refuse <==> read is Unusable,
        r is Refuse ==> r->Refuse_0 is RpcLineTooLarge,
{
}

/// A check of the proxy's that was started and has not ended is cancelled when the connection
/// ends; one that has ended is not, where it was under way once. Every other check stays as it
/// was.
pub proof fn law_unfinished_checks_are_cancelled(
    started: &mut ClientState,
    req: &RpcRequest,
    check: ProxyCheckId,
    end: ClientEnd,
    other: ProxyCheckId,
)
    requires
        call_ensures(
            ClientState::on_request,
            (started, req),
            RequestStep::Start(check),
        ),
        call_ensures(ClientState::finish, (*final(started),), end),
    ensures
        end.cancel@.contains(check),
        end.cancel@.contains(other) <==> other == check || old(started).active@.contains(other),
        old(started).role == SocketRole::Proxy,
        end.close_proxy_session,
        *req matches RpcRequest::CheckHttp { proxy_session, request_id, .. } ==> check.session
            == proxy_session && check.request == request_id,
        *req matches RpcRequest::CheckNetworkFlow { proxy_session, request_id, .. }
            ==> check.session == proxy_session && check.request == request_id,
        *req is CheckHttp || *req is CheckNetworkFlow,
{
    let before = old(started).active@;
    let after = before.push(check);
    assert(after[before.len() as int] == check);
    if before.contains(other) {
        let i = choose|i: int| 0 <= i < before.len() && before[i] == other;
        assert(after[i] == other);
    }
    if after.contains(other) && other != check {
        let i = choose|i: int| 0 <= i < after.len() && after[i] == other;
        assert(before[i] == other);
    }
}

/// A check that has ended is taken off what is cancelled with the connection, where it was on it
/// once; the others stay.
pub proof fn law_ended_check_is_not_cancelled(
    state: &mut ClientState,
    check: ProxyCheckId,
    end: ClientEnd,
    other: ProxyCheckId,
)
    requires
        call_ensures(ClientState::on_check_done, (state, check), ()),
        call_ensures(ClientState::finish, (*final(state),), end),
    ensures
        old(state).active@.no_duplicates() ==> !end.cancel@.contains(check),
        other != check ==> (end.cancel@.contains(other) <==> old(state).active@.contains(other)),
        end.close_proxy_session <==> old(state).role == SocketRole::Proxy,
{
    if other != check {
        client::law_done_keeps_the_others(old(state).active@, check, other);
    } else {
        let another = ProxyCheckId { request: (if check.request == 0 { 1u64 } else { 0u64 }), ..check };
        assert(another != check);
        client::law_done_keeps_the_others(old(state).active@, check, another);
    }
}

/// A connection turns into a UI's when a UI was registered on it, and never otherwise; the proxy's
/// stays the proxy's, and only the proxy comes to hold the proxy session, by opening it.
pub proof fn law_connection_turns_only_into_a_ui(
    state: &mut ClientState,
    opens_session: bool,
    registers_ui: bool,
    ok: bool,
    r: bool,
)
    requires
        call_ensures(ClientState::on_reply, (state, opens_session, registers_ui, ok), r),
    ensures
        final(state).role != old(state).role ==> final(state).role == SocketRole::UiFd && r && ok
            && registers_ui,
        r ==> final(state).role == SocketRole::UiFd || final(state).role == SocketRole::Proxy,
        old(state).role == SocketRole::Proxy ==> final(state).role == SocketRole::Proxy,
        r <==> registers_ui && ok,
        final(state).session_owner && !old(state).session_owner ==> old(state).role
            == SocketRole::Proxy && opens_session && ok,
        old(state).session_owner || (old(state).role == SocketRole::Proxy && opens_session && ok)
            ==> final(state).session_owner,
        final(state).active == old(state).active,
{
}

/// A request that starts no check leaves the connection as it is; the proxy is answered under the
/// number that it gave.
pub proof fn law_other_requests_start_no_check(
    state: &mut ClientState,
    req: &RpcRequest,
    r: RequestStep,
)
    requires
        call_ensures(ClientState::on_request, (state, req), r),
    ensures
        r is Start <==> old(state).role == SocketRole::Proxy && (*req is CheckHttp || *req
            is CheckNetworkFlow),
        r is Dispatch ==> {
            &&& final(state).active@ == old(state).active@
            &&& r->opens_session <==> *req is OpenProxySession
            &&& r->registers_ui <==> *req is RegisterUi
            &&& *req is CancelCheck && old(state).role == SocketRole::Proxy ==> r->answer_under
                == Some(req->CancelCheck_request_id)
            &&& old(state).role != SocketRole::Proxy ==> r->answer_under is None
        },
        final(state).role == old(state).role,
        final(state).session_owner == old(state).session_owner,
{
}

/// The sandbox's socket is another than the host's, and what comes in on it is the sandbox's: no
/// socket that the daemon listens on serves two roles.
pub proof fn law_sockets_keep_roles_apart(
    server: &PolicyServer,
    sockets: Vec<Listener>,
    i: int,
)
    requires
        call_ensures(PolicyServer::listeners, (server,), Ok(sockets)),
        0 <= i < sockets@.len(),
    ensures
        sockets@[i].role == SocketRole::Host || sockets@[i].role == SocketRole::Sandbox,
        sockets@[i].role == SocketRole::Host <==> sockets@[i].path == server.host_socket_path,
        sockets@[i].role == SocketRole::Sandbox <==> sockets@[i].path
            == server.sandbox_socket_path,
        sockets@.len() == 2,
        sockets@[0].role != sockets@[1].role,
        paths::components(sockets@[0].path@) != paths::components(sockets@[1].path@),
{
}

/// What is the proxy's to do is known by its request alone, and is handed on as it came; no other
/// request is taken for the proxy's.
pub proof fn law_proxy_requests_are_handed_on_as_they_came<
    A: Fn(&u32, &u32) -> bool,
    S: Fn(&u32) -> Option<String>,
    H: Fn(&u32) -> Option<String>,
    C: Fn(&ProcessQuery) -> Option<String>,
>(
    store: &mut PolicyStore,
    client_id: u64,
    peer: ClientPeer,
    role: SocketRole,
    req: RpcRequest,
    facts: &HostFacts<A, S, H, C>,
    r: Result<Handling, PolicydError>,
    proxys: bool,
)
    requires
        call_ensures(
            PolicyStore::dispatch::<A, S, H, C>,
            (store, client_id, peer, role, req, facts),
            r,
        ),
        call_ensures(handlers::is_for_proxy, (&req,), proxys),
    ensures
        proxys <==> (req is OpenProxySession || req is RegisterNetworkFlow || req
            is ClaimNetworkFlow || req is ClaimNetworkFlowBySource || req is RebindNetworkFlow
            || req is CheckHttp || req is CheckNetworkFlow || req is CancelCheck || req
            is ReleaseNetworkFlow),
        r is Ok ==> (r->Ok_0 is Proxy <==> proxys),
        r is Ok && r->Ok_0 is Proxy ==> r->Ok_0->Proxy_0 == req,
{
}

} // verus!
