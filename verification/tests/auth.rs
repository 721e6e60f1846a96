//! Which requests are admitted on which socket.

use policyd::auth::{authorize, ensure_allowed, SocketRole};
use policyd::error::PolicydError;
use policyd::flow::{
    AttributionToken, FlowContext, FlowProtocol, FlowRegistration, IpAddress, NetworkFlowKey,
    ProcessIdentity, ProxySessionToken, SocketIdentity,
};
use policyd::rpc::RpcRequest;
use policyd::types::{ApprovalScope, FileAccess, HttpRequest, RequestContext, SandboxPaths};

fn registration() -> FlowRegistration {
    FlowRegistration {
        flow: NetworkFlowKey {
            protocol: FlowProtocol::Tcp,
            source_ip: IpAddress::V4(0x7f00_0001),
            source_port: 12345,
            destination_ip: IpAddress::V4(0xc000_0201),
            destination_port: 443,
        },
        owner: SocketIdentity {
            process: ProcessIdentity { pid: 1, uid: 0, start_time_ticks: 1 },
            inode: 1,
        },
        policy_host: "example.com".into(),
        context: FlowContext { paths: SandboxPaths::default(), sandbox_session_id: None },
    }
}

#[test]
fn sandbox_socket_allows_request_ops() {
    for req in [
        RpcRequest::Check {
            host: None,
            connect_host: None,
            port: None,
            scheme: "https".into(),
            url: None,
            ctx: RequestContext::default(),
        },
        RpcRequest::Elevate {
            argv: vec!["id".into()],
            ctx: RequestContext::default(),
        },
        RpcRequest::CheckFilesystem {
            path: "/tmp/test".into(),
            access: FileAccess::ReadWrite,
            ctx: RequestContext::default(),
        },
        RpcRequest::StartFilesystemMonitor {
            ctx: RequestContext::default(),
            static_allow: vec![],
        },
    ] {
        assert!(
            ensure_allowed(SocketRole::Sandbox, &req).is_ok(),
            "sandbox socket should allow request ops, got error for {:?}",
            std::mem::discriminant(&req)
        );
    }
}
#[test]
fn sandbox_socket_allows_network_flow_registration() {
    let registration = registration();
    let request = RpcRequest::RegisterNetworkFlow { registration };

    assert!(
        ensure_allowed(SocketRole::Sandbox, &request).is_ok(),
        "sandbox socket should allow privileged flow registration"
    );
}

#[test]
fn sandbox_socket_rejects_register_ui() {
    // The sandbox socket is exposed inside the jail: a UI that was registered there could approve
    // the requests of the jail.
    let req = RpcRequest::RegisterUi {
        ui_client: Some("standalone".into()),
        ctx: RequestContext::default(),
    };
    assert!(
        matches!(
            ensure_allowed(SocketRole::Sandbox, &req),
            Err(PolicydError::UnauthorizedRequest)
        ),
        "sandbox socket must reject RegisterUi"
    );
}

#[test]
fn sandbox_socket_rejects_control_ops() {
    for req in [
        RpcRequest::UnregisterUi,
        RpcRequest::Approve {
            id: "p1".into(),
            scope: ApprovalScope::Once,
            session_id: None,
            target: None,
            comment: None,
            ctx: RequestContext::default(),
        },
        RpcRequest::ApproveHost {
            host: "example.com".into(),
            port: 443,
            scope: ApprovalScope::Once,
            session_id: None,
            ctx: RequestContext::default(),
        },
        RpcRequest::Deny {
            id: "p1".into(),
            scope: ApprovalScope::Once,
            session_id: None,
            target: None,
            comment: None,
            ctx: RequestContext::default(),
        },
        RpcRequest::Status {
            ctx: RequestContext::default(),
        },
        RpcRequest::Reload {
            ctx: RequestContext::default(),
        },
    ] {
        assert!(
            matches!(
                ensure_allowed(SocketRole::Sandbox, &req),
                Err(PolicydError::UnauthorizedRequest)
            ),
            "sandbox socket should reject control ops"
        );
    }
}

#[test]
fn host_socket_allows_every_rpc_variant() {
    let all = vec![
        RpcRequest::Check {
            host: None,
            connect_host: None,
            port: None,
            scheme: "https".into(),
            url: None,
            ctx: RequestContext::default(),
        },
        RpcRequest::Elevate {
            argv: vec!["id".into()],
            ctx: RequestContext::default(),
        },
        RpcRequest::CheckFilesystem {
            path: "/tmp/test".into(),
            access: FileAccess::ReadWrite,
            ctx: RequestContext::default(),
        },
        RpcRequest::StartFilesystemMonitor {
            ctx: RequestContext::default(),
            static_allow: vec![],
        },
        RpcRequest::RegisterUi {
            ui_client: Some("standalone".into()),
            ctx: RequestContext::default(),
        },
        RpcRequest::UnregisterUi,
        RpcRequest::Approve {
            id: "p1".into(),
            scope: ApprovalScope::Once,
            session_id: None,
            target: None,
            comment: None,
            ctx: RequestContext::default(),
        },
        RpcRequest::ApproveHost {
            host: "example.com".into(),
            port: 443,
            scope: ApprovalScope::Once,
            session_id: None,
            ctx: RequestContext::default(),
        },
        RpcRequest::Deny {
            id: "p1".into(),
            scope: ApprovalScope::Once,
            session_id: None,
            target: None,
            comment: None,
            ctx: RequestContext::default(),
        },
        RpcRequest::Status {
            ctx: RequestContext::default(),
        },
        RpcRequest::Reload {
            ctx: RequestContext::default(),
        },
    ];
    for req in &all {
        assert!(
            ensure_allowed(SocketRole::Host, req).is_ok(),
            "host socket should allow all RPC variants, got error for {:?}",
            std::mem::discriminant(req)
        );
    }
}

#[test]
fn uifd_allows_approval_ops() {
    for req in [
        RpcRequest::Approve {
            id: "p1".into(),
            scope: ApprovalScope::Once,
            session_id: None,
            target: None,
            comment: None,
            ctx: RequestContext::default(),
        },
        RpcRequest::ApproveHost {
            host: "example.com".into(),
            port: 443,
            scope: ApprovalScope::Once,
            session_id: None,
            ctx: RequestContext::default(),
        },
        RpcRequest::Deny {
            id: "p1".into(),
            scope: ApprovalScope::Once,
            session_id: None,
            target: None,
            comment: None,
            ctx: RequestContext::default(),
        },
        RpcRequest::Status {
            ctx: RequestContext::default(),
        },
        RpcRequest::Reload {
            ctx: RequestContext::default(),
        },
        RpcRequest::UnregisterUi,
    ] {
        assert!(
            ensure_allowed(SocketRole::UiFd, &req).is_ok(),
            "UiFd socket should allow approval ops"
        );
    }
}

#[test]
fn uifd_rejects_sandbox_ops() {
    for req in [
        RpcRequest::Check {
            host: None,
            connect_host: None,
            port: None,
            scheme: "https".into(),
            url: None,
            ctx: RequestContext::default(),
        },
        RpcRequest::Elevate {
            argv: vec!["id".into()],
            ctx: RequestContext::default(),
        },
        RpcRequest::CheckFilesystem {
            path: "/tmp/test".into(),
            access: FileAccess::ReadWrite,
            ctx: RequestContext::default(),
        },
        RpcRequest::StartFilesystemMonitor {
            ctx: RequestContext::default(),
            static_allow: vec![],
        },
    ] {
        assert!(
            matches!(
                ensure_allowed(SocketRole::UiFd, &req),
                Err(PolicydError::UnauthorizedUiFdRequest)
            ),
            "UiFd socket should reject sandbox request ops"
        );
    }
}

#[test]
fn uifd_rejects_register_ui() {
    let req = RpcRequest::RegisterUi {
        ui_client: Some("standalone".into()),
        ctx: RequestContext::default(),
    };
    assert!(
        matches!(
            ensure_allowed(SocketRole::UiFd, &req),
            Err(PolicydError::UnauthorizedUiFdRequest)
        ),
        "UiFd socket should reject RegisterUi after transition"
    );
}

fn proxy_requests() -> Vec<RpcRequest> {
    let proxy_session = ProxySessionToken { value: 1 };
    let attribution_token = AttributionToken { value: 2 };
    vec![
        RpcRequest::OpenProxySession,
        RpcRequest::ClaimNetworkFlow {
            proxy_session,
            flow: registration().flow,
            connection_id: 3,
        },
        RpcRequest::CheckHttp {
            proxy_session,
            request_id: 4,
            attribution_token,
            request: HttpRequest { method: "GET".into(), url: "http://example.test/".into() },
        },
        RpcRequest::CheckNetworkFlow { proxy_session, request_id: 5, attribution_token },
        RpcRequest::CancelCheck { proxy_session, request_id: 6 },
        RpcRequest::ReleaseNetworkFlow { proxy_session, attribution_token, connection_id: 7 },
    ]
}

#[test]
fn proxy_requests_stay_on_the_proxy_socket() {
    for req in proxy_requests() {
        assert_eq!(ensure_allowed(SocketRole::Proxy, &req), Ok(()));
        for role in [SocketRole::Host, SocketRole::Sandbox, SocketRole::UiFd] {
            assert_eq!(ensure_allowed(role, &req), Err(PolicydError::UnauthorizedRequest));
        }
    }
    let status = RpcRequest::Status { ctx: RequestContext::default() };
    assert_eq!(
        ensure_allowed(SocketRole::Proxy, &status),
        Err(PolicydError::UnauthorizedRequest)
    );
}

#[test]
fn publication_is_for_root_on_the_host_socket() {
    let publish = RpcRequest::PublishNetworkGrants;
    assert_eq!(authorize(SocketRole::Host, 0, &publish), Ok(()));
    assert_eq!(
        authorize(SocketRole::Host, 1000, &publish),
        Err(PolicydError::UnauthorizedRequest)
    );
    for role in [SocketRole::Sandbox, SocketRole::Proxy] {
        assert_eq!(authorize(role, 0, &publish), Err(PolicydError::UnauthorizedRequest));
    }
    assert_eq!(
        authorize(SocketRole::UiFd, 0, &publish),
        Err(PolicydError::UnauthorizedUiFdRequest)
    );
}

#[test]
fn snapshots_are_for_root_on_the_host_and_sandbox_sockets() {
    for role in [SocketRole::Host, SocketRole::Sandbox, SocketRole::Proxy, SocketRole::UiFd] {
        for uid in [0, 1000] {
            let req = RpcRequest::FilesystemSnapshot { ctx: RequestContext::default() };
            let admitted = authorize(role, uid, &req).is_ok();
            let expected =
                uid == 0 && (role == SocketRole::Host || role == SocketRole::Sandbox);
            assert_eq!(admitted, expected);
        }
    }
}

#[test]
fn flow_registration_is_for_root() {
    let req = RpcRequest::RegisterNetworkFlow { registration: registration() };
    assert_eq!(
        authorize(SocketRole::Sandbox, 1000, &req),
        Err(PolicydError::UnauthorizedRequest)
    );
    assert_eq!(authorize(SocketRole::Sandbox, 0, &req), Ok(()));
}
