//! Connections: lines, requests, roles and what is left when one ends.

use policyd::auth::{authorize, SocketRole};
use policyd::client::{
    frame_line, ClientState, LineRead, LineStep, RequestStep,
};
use policyd::context::{HostFacts, ProcessQuery, TrustedPeer};
use policyd::decisions::DecisionAction;
use policyd::error::PolicydError;
use policyd::flow::{
    AttributionToken, FlowContext, FlowProtocol, FlowRegistration, IpAddress, NetworkFlowKey,
    ProcessIdentity, ProxyCheckId, ProxySessionToken, SocketIdentity,
};
use policyd::handlers::Handling;
use policyd::ids::{boot_epoch, epoch_of, fresh_pending_id};
use policyd::peer::ClientPeer;
use policyd::proxy_checks::CheckStart;
use policyd::rpc::RpcRequest;
use policyd::rules::InodeIdentity;
use policyd::server::PolicyServer;
use policyd::state::UiClient;
use policyd::store::{Limits, PolicyStore, PolicydArgs};
use policyd::types::{
    ApprovalScope, FileAccess, FilesystemRule, Policy, ProcessIds, RequestContext,
    ResolvedRequestContext, SandboxPaths,
};

fn store() -> PolicyStore {
    PolicyStore::new(
        PolicydArgs {
            host_socket: "/tmp/test.sock".into(),
            sandbox_socket: "/tmp/test-sandbox.sock".into(),
            proxy_socket: None,
            proxy_gid: None,
            declarative: "/tmp/declarative.json".into(),
            export_json: "/tmp/export.json".into(),
            export_nix: None,
            approval_timeout: 30_000_000_000,
            interactive_approval: true,
            ui_spawn_cmd: None,
            package_declarative: Vec::new(),
            fs_monitor_cmd: None,
            syscall_broker_cmd: None,
        },
        Limits {
            pending_approvals: 64,
            waiters_per_pending: 64,
            static_allow_rules: 64,
            proxy_flows: 64,
            verdict_cache: 64,
        },
        None,
    )
}

fn nobody(_: &u32, _: &u32) -> bool {
    false
}

fn nowhere(_: &u32) -> Option<String> {
    None
}

fn cwd(_: &ProcessQuery) -> Option<String> {
    None
}

fn dispatch(
    store: &mut PolicyStore,
    uid: u32,
    role: SocketRole,
    req: RpcRequest,
) -> Result<Handling, PolicydError> {
    let facts = HostFacts { descends: &nobody, session: &nowhere, home: &nowhere, cwd: &cwd };
    store.dispatch(5, ClientPeer { pid: 200, uid, gid: 0 }, role, req, &facts)
}

fn in_session(id: Option<&str>) -> RequestContext {
    RequestContext { sandbox_session_id: id.map(String::from), ..RequestContext::default() }
}

fn register_ui(id: Option<&str>) -> RpcRequest {
    RpcRequest::RegisterUi { ui_client: Some("standalone".into()), ctx: in_session(id) }
}

fn check() -> RpcRequest {
    RpcRequest::Check {
        host: None,
        connect_host: None,
        port: None,
        scheme: "https".into(),
        url: None,
        ctx: RequestContext::default(),
    }
}

fn refusal(result: Result<Handling, PolicydError>) -> PolicydError {
    match result {
        Ok(_) => panic!("expected a refusal"),
        Err(error) => error,
    }
}

#[test]
fn register_ui_rejects_cross_uid_peer() {
    let mut store = store();
    store.note_sandbox_peer(
        TrustedPeer { pid: 100, uid: 1000 },
        &"sandbox-a".to_string(),
        &nobody,
    );
    let ctx = ResolvedRequestContext {
        paths: SandboxPaths::default(),
        ids: ProcessIds::default(),
        sandbox_session_id: Some("sandbox-a".into()),
        package: None,
    };
    let result = store.register_ui(5, ClientPeer { pid: 200, uid: 2000, gid: 0 }, ctx.clone());
    assert!(matches!(result, Err(PolicydError::UnauthorizedUiRegistration)));
    let own = store
        .register_ui(5, ClientPeer { pid: 200, uid: 1000, gid: 0 }, ctx)
        .expect("the owner registers");
    assert_eq!(own.owner_uid, Some(1000));
    assert_eq!(own.client_id, 5);
}

#[test]
fn sandbox_socket_rejects_host_control_requests() {
    let mut store = store();
    let error = refusal(dispatch(&mut store, 1000, SocketRole::Host, register_ui(None)));
    assert_eq!(error.message(), "approval session does not match pending sandbox session");
    let error = refusal(dispatch(&mut store, 1000, SocketRole::Sandbox, register_ui(None)));
    assert_eq!(error.message(), "request not allowed on sandbox policy socket");
    let monitor = RpcRequest::StartFilesystemMonitor {
        ctx: RequestContext::default(),
        static_allow: vec![],
    };
    let Ok(Handling::StartFilesystemMonitor { peer_pid, ctx, static_allow }) =
        dispatch(&mut store, 1000, SocketRole::Sandbox, monitor)
    else {
        panic!("a sandbox may have its files watched");
    };
    let reply = store
        .start_filesystem_monitor(peer_pid, &static_allow, &ctx)
        .expect_err("no monitor is configured");
    assert!(!reply.active);
    assert_eq!(reply.error.as_deref(), Some("fs_monitor_cmd not configured"));
}

#[test]
fn registered_connection_becomes_uifd_only() {
    let mut store = store();
    let mut client = ClientState::new(SocketRole::Host);
    let req = register_ui(Some("s1"));
    let RequestStep::Dispatch { opens_session, registers_ui, .. } = client.on_request(&req) else {
        panic!("a registration is dispatched");
    };
    let Ok(Handling::RegisterUi(session)) = dispatch(&mut store, 1000, client.role, req) else {
        panic!("RegisterUi should succeed");
    };
    assert_eq!(session.sandbox_session_id.as_deref(), Some("s1"));
    assert!(client.on_reply(opens_session, registers_ui, true));
    assert_eq!(client.role, SocketRole::UiFd);
    let error = refusal(dispatch(&mut store, 1000, client.role, check()));
    assert_eq!(error.message(), "request not allowed on inherited UI policy fd");
    let status = RpcRequest::Status { ctx: RequestContext::default() };
    assert!(matches!(
        dispatch(&mut store, 1000, client.role, status),
        Ok(Handling::Status(_))
    ));
}

#[test]
fn sandbox_socket_blocks_self_approval_escape() {
    let mut store = store();
    let mut attacker = ClientState::new(SocketRole::Sandbox);
    let register = RpcRequest::RegisterUi {
        ui_client: Some("standalone".into()),
        ctx: RequestContext {
            cwd: Some("/workspace".into()),
            home: Some("/home/user".into()),
            project_root: Some("/workspace".into()),
            ..in_session(Some("attacker"))
        },
    };
    let RequestStep::Dispatch { opens_session, registers_ui, .. } = attacker.on_request(&register)
    else {
        panic!("a registration is dispatched");
    };
    let error = refusal(dispatch(&mut store, 1000, attacker.role, register));
    assert_eq!(error.message(), "request not allowed on sandbox policy socket");
    assert!(!attacker.on_reply(opens_session, registers_ui, false));
    assert_eq!(attacker.role, SocketRole::Sandbox);

    let approve = RpcRequest::Approve {
        id: "elev:fabricated".into(),
        scope: ApprovalScope::Once,
        session_id: None,
        target: None,
        comment: None,
        ctx: RequestContext::default(),
    };
    let error = refusal(dispatch(&mut store, 1000, attacker.role, approve));
    assert_eq!(error.message(), "request not allowed on sandbox policy socket");
}

#[test]
fn filesystem_snapshots_require_root_and_refresh_trusted_context() {
    let mut store = store();
    for role in [SocketRole::Host, SocketRole::Sandbox, SocketRole::Proxy, SocketRole::UiFd] {
        for uid in [0, 1000] {
            let ctx = RequestContext { home: Some("/root-home".into()), ..in_session(None) };
            let result =
                dispatch(&mut store, uid, role, RpcRequest::FilesystemSnapshot { ctx });
            if uid == 0 && (role == SocketRole::Host || role == SocketRole::Sandbox) {
                let Ok(Handling::FilesystemSnapshot(ctx)) = result else {
                    panic!("root may have a snapshot");
                };
                assert_eq!(ctx.paths.home.as_deref(), Some("/root-home"));
            } else {
                assert!(matches!(
                    result,
                    Err(PolicydError::UnauthorizedRequest
                        | PolicydError::UnauthorizedUiFdRequest)
                ));
            }
        }
    }
    let inode = InodeIdentity { inode: 3, device: 1 };
    store.deny_inodes.index_file(inode, "/root-home/policy.json".into(), FileAccess::All);
    for section in ["allow", "deny"] {
        let mut policy = Policy::empty();
        let granted =
            FilesystemRule::new("/root-home/granted".into(), FileAccess::Read, "granted");
        if section == "allow" {
            policy.filesystem.allow.push(granted);
        } else {
            policy.filesystem.deny.push(granted);
        }
        let snapshot = store.filesystem_snapshot(&policy);
        assert!(snapshot.denied_inodes.contains(&inode));
        let names = |rules: &Vec<FilesystemRule>| {
            rules.iter().any(|rule| {
                rule.path == "/root-home/granted" && rule.access.covers(FileAccess::Read)
            })
        };
        assert_eq!(names(&snapshot.allow), section == "allow");
        assert_eq!(names(&snapshot.deny), section == "deny");
    }
}

#[test]
fn network_publication_requires_root_host_socket() {
    let mut store = store();
    for role in [SocketRole::Host, SocketRole::Sandbox, SocketRole::Proxy, SocketRole::UiFd] {
        for uid in [0, 1000] {
            for req in [
                RpcRequest::BindNetworkRevocation { path: "/missing-map".into() },
                RpcRequest::ObserveNetworkGrants {
                    program: "/program".into(),
                    pins: "/pins".into(),
                    pid: 1,
                    cgroup: 1,
                    dns: "/dns".into(),
                },
                RpcRequest::PublishNetworkGrants,
            ] {
                let admitted = dispatch(&mut store, uid, role, req).is_ok();
                assert_eq!(admitted, role == SocketRole::Host && uid == 0);
            }
        }
    }
}

#[test]
fn sandbox_dispatch_records_owner_for_later_ui_registration() {
    let mut store = store();
    let req = RpcRequest::CheckFilesystem {
        path: "/file.txt".into(),
        access: FileAccess::Read,
        ctx: in_session(Some("sandbox-a")),
    };
    assert!(matches!(
        dispatch(&mut store, 1000, SocketRole::Sandbox, req),
        Ok(Handling::CheckFilesystem { .. })
    ));
    let result = dispatch(&mut store, 2000, SocketRole::Host, register_ui(Some("sandbox-a")));
    assert_eq!(refusal(result), PolicydError::UnauthorizedUiRegistration);
}

fn registration() -> FlowRegistration {
    FlowRegistration {
        flow: NetworkFlowKey {
            protocol: FlowProtocol::Tcp,
            source_ip: IpAddress::V4(0x7f00_0001),
            source_port: 12345,
            destination_ip: IpAddress::V4(0xc000_0201),
            destination_port: 443,
        },
        owner: SocketIdentity {
            process: ProcessIdentity { pid: 1, uid: 0, start_time_ticks: 1 },
            inode: 1,
        },
        policy_host: "example.com".into(),
        context: FlowContext { paths: SandboxPaths::default(), sandbox_session_id: None },
    }
}

#[test]
fn sandbox_dispatch_rejects_unprivileged_network_flow_registration() {
    let mut store = store();
    let req = RpcRequest::RegisterNetworkFlow { registration: registration() };
    assert_eq!(
        refusal(dispatch(&mut store, 1000, SocketRole::Sandbox, req)),
        PolicydError::UnauthorizedRequest
    );
}

#[test]
fn host_dispatch_registers_sandbox_package() {
    let mut store = store();
    let req = RpcRequest::RegisterSandbox {
        session_id: "sandbox-a".into(),
        package: "omp".into(),
        launcher_pid: 30,
    };
    let Ok(Handling::RegisterSandbox { session_id, package, owner_uid, launcher_pid, peer_pid }) =
        dispatch(&mut store, 1000, SocketRole::Host, req)
    else {
        panic!("host dispatch must accept RegisterSandbox");
    };
    assert_eq!(peer_pid, 200);
    let stat = |pid: u32, parent: u32| {
        Some(format!("{pid} (x) S {parent} 1 1 0 -1 4 0 0 0 0 0 0 0 0 20 0 1 0 7 0 0\n"))
    };
    store
        .register_sandbox(
            &session_id,
            &package,
            owner_uid,
            launcher_pid,
            &stat(peer_pid, 30),
            &stat(30, 1),
        )
        .expect("the launcher is the peer's parent");
    let reg = store.sandbox_sessions.get(&session_id).expect("the registration is stored");
    assert_eq!(reg.package.as_deref(), Some("omp"));
    assert_eq!(reg.owner_uid, 1000);
    assert_eq!(reg.launcher_pid, 30);
}

#[test]
fn decisions_carry_who_decides() {
    let mut store = store();
    let deny = RpcRequest::Deny {
        id: "p1".into(),
        scope: ApprovalScope::Session,
        session_id: Some("ui1".into()),
        target: None,
        comment: Some("no".into()),
        ctx: RequestContext::default(),
    };
    let Ok(Handling::Decide { decision, action }) =
        dispatch(&mut store, 1000, SocketRole::UiFd, deny)
    else {
        panic!("a UI decides");
    };
    assert_eq!(action, DecisionAction::Deny);
    assert_eq!(decision.pending_id, "p1");
    assert_eq!(decision.client_id, 5);
    assert_eq!(decision.approver_uid, Some(1000));
    assert_eq!(decision.wire.comment.as_deref(), Some("no"));
    assert_eq!(decision.wire.session_id.as_deref(), Some("ui1"));
}

#[test]
fn an_empty_command_is_refused() {
    let mut store = store();
    let req = RpcRequest::Elevate { argv: Vec::new(), ctx: RequestContext::default() };
    assert_eq!(
        refusal(dispatch(&mut store, 1000, SocketRole::Sandbox, req)),
        PolicydError::ArgvRequired
    );
}

#[test]
fn lines_are_bounded_text() {
    assert_eq!(frame_line(Vec::new(), 10), LineRead::Eof);
    assert_eq!(frame_line(b"abc\n".to_vec(), 3), LineRead::Line("abc".into()));
    assert_eq!(frame_line(b"abc".to_vec(), 3), LineRead::Line("abc".into()));
    assert_eq!(frame_line(b"abcd\n".to_vec(), 3), LineRead::Unusable);
    assert_eq!(frame_line(b"\n".to_vec(), 3), LineRead::Line(String::new()));
    assert_eq!(frame_line(vec![0xff, 10], 3), LineRead::Unusable);
    assert_eq!(frame_line(vec![0xc3, 0xa9, 10], 3), LineRead::Line("\u{e9}".into()));
}

fn http_check(request_id: u64) -> RpcRequest {
    RpcRequest::CheckNetworkFlow {
        proxy_session: ProxySessionToken { value: 1 },
        request_id,
        attribution_token: AttributionToken { value: 2 },
    }
}

fn check_id(request: u64) -> ProxyCheckId {
    ProxyCheckId { session: ProxySessionToken { value: 1 }, request }
}

#[test]
fn sequential_proxy_rpcs_preserve_reply_ids_and_session_lease() {
    let mut store = store();
    let session = ProxySessionToken { value: 1 };
    let mut lease = ClientState::new(SocketRole::Proxy);
    let step = lease.on_request(&RpcRequest::OpenProxySession);
    assert_eq!(
        step,
        RequestStep::Dispatch { answer_under: None, opens_session: true, registers_ui: false }
    );
    store.open_proxy_session(1, session, 0).expect("the lease opens a session");
    assert!(!lease.on_reply(true, false, true));
    assert_eq!(lease.on_line(LineRead::Line("{}".into())), LineStep::Stop);

    let mut worker = ClientState::new(SocketRole::Proxy);
    for number in 0..16 {
        let (cancelled, checked) = (2 * number, 2 * number + 1);
        let cancel = RpcRequest::CancelCheck { proxy_session: session, request_id: cancelled };
        let RequestStep::Dispatch { answer_under, .. } = worker.on_request(&cancel) else {
            panic!("a cancellation is dispatched");
        };
        assert_eq!(answer_under, Some(cancelled));
        assert!(store.cancel_check(check_id(cancelled)).is_ok());

        let step = worker.on_request(&http_check(checked));
        assert_eq!(step, RequestStep::Start(check_id(checked)));
        assert_eq!(worker.on_line(LineRead::Line("{}".into())), LineStep::Stop);
        assert!(matches!(store.check_http(check_id(checked), checked), Ok(CheckStart::Started)));
        let unknown = store.flow_for_check(session, AttributionToken { value: 2 }, 1);
        assert!(unknown.is_err(), "the token claims no flow");
        store.finish_proxy_check(check_id(checked));
        worker.on_check_done(check_id(checked));
        assert_eq!(worker.on_line(LineRead::Line("{}".into())), LineStep::Parse("{}".into()));
    }
    let end = worker.finish();
    assert!(end.cancel.is_empty());
    assert!(end.close_proxy_session);
    assert!(
        store.close_proxy_session(2, 2).is_none(),
        "a connection that ends must not own the session lease"
    );
    assert!(store.open_proxy_session(u64::MAX, ProxySessionToken { value: 3 }, 3).is_err());
    assert!(lease.finish().close_proxy_session);
    assert!(store.close_proxy_session(1, 4).is_some());
    assert!(store.open_proxy_session(u64::MAX, ProxySessionToken { value: 3 }, 5).is_ok());
}

#[test]
fn unfinished_checks_are_cancelled_with_their_connection() {
    let mut client = ClientState::new(SocketRole::Proxy);
    for number in [1, 2, 3] {
        client.on_request(&http_check(number));
    }
    client.on_check_done(check_id(2));
    client.on_check_done(check_id(9));
    assert_eq!(client.finish().cancel, vec![check_id(1), check_id(3)]);
}

#[test]
fn lines_that_are_no_request_are_answered_or_skipped() {
    let client = ClientState::new(SocketRole::Host);
    assert_eq!(client.on_line(LineRead::Eof), LineStep::Stop);
    assert_eq!(client.on_line(LineRead::Line(String::new())), LineStep::Skip);
    assert_eq!(
        client.on_line(LineRead::Unusable),
        LineStep::Refuse(PolicydError::RpcLineTooLarge)
    );
    let mut host = ClientState::new(SocketRole::Host);
    let RequestStep::Dispatch { answer_under, .. } = host.on_request(&http_check(4)) else {
        panic!("only the proxy's checks run beside the connection");
    };
    assert_eq!(answer_under, None);
}

#[test]
fn the_two_sockets_must_differ() {
    let server =
        PolicyServer::new(store(), "/run/host.sock".into(), "/run/sandbox.sock".into());
    let sockets = server.listeners().expect("the sockets differ");
    assert_eq!(sockets.len(), 2);
    assert_eq!((sockets[0].path.as_str(), sockets[0].role), ("/run/host.sock", SocketRole::Host));
    assert_eq!(sockets[1].role, SocketRole::Sandbox);
    assert_eq!(sockets[0].mode, 0o666);
    let server = PolicyServer::new(store(), "/run/a.sock".into(), "/run//a.sock".into());
    assert_eq!(
        server.listeners().map(|_| ()),
        Err("host and sandbox policy sockets must differ".to_string())
    );
}

#[test]
fn an_unknown_peer_is_neither_root_nor_a_process() {
    let peer = ClientPeer::unknown();
    assert_eq!((peer.pid, peer.uid, peer.gid), (u32::MAX, u32::MAX, -1));
}

#[test]
fn the_store_keeps_its_arguments_and_its_freezer() {
    let mut store = store();
    assert_eq!(store.args().host_socket, "/tmp/test.sock");
    assert!(!store.cgroup_freeze.recover);
    store.enable_cgroup_freezer(None);
    assert!(store.cgroup_freeze.recover);
    store.open_proxy_session(1, ProxySessionToken { value: 1 }, 0).expect("open session");
    assert!(store.close_proxy_session(1, 1).is_some());
    assert_eq!(store.args().host_socket, "/tmp/test.sock");
    assert_eq!(store.args().approval_timeout, 30_000_000_000);
}

#[test]
fn each_ui_session_is_listed_once() {
    let mut store = store();
    for (client, session) in [(1, "a"), (2, "b"), (3, "a")] {
        store.ui.clients.insert(client, UiClient { session_id: session.into() });
    }
    let mut sessions = store.ui.active_session_ids();
    sessions.sort();
    assert_eq!(sessions, vec!["a", "b"]);
}

#[test]
fn fresh_ids_differ() {
    let first = fresh_pending_id("net:");
    let second = fresh_pending_id("net:");
    assert_ne!(first, second);
    assert!(first.starts_with("net:"));
    assert_eq!(first.len(), "net:".len() + 32);
    assert_ne!(boot_epoch(), boot_epoch());
    assert_eq!(epoch_of(&vec![1, 2, 0, 0, 0, 0, 0, 3]), 0x0300_0000_0000_0201);
}

#[test]
fn a_sandbox_connection_stays_one() {
    let mut client = ClientState::new(SocketRole::Sandbox);
    let req = RpcRequest::RegisterUi { ui_client: None, ctx: RequestContext::default() };
    assert!(authorize(SocketRole::Sandbox, 1000, &req).is_err());
    let RequestStep::Dispatch { opens_session, registers_ui, .. } = client.on_request(&req) else {
        panic!("a registration is dispatched");
    };
    assert!(registers_ui);
    assert!(!client.on_reply(opens_session, registers_ui, false));
    assert_eq!(client.role, SocketRole::Sandbox);
}
