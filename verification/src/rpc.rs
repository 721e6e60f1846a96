//! Requests that the daemon is sent.

use vstd::prelude::*;

use crate::decisions::ApprovalTarget;
use crate::flow::AttributionToken;
use crate::flow::FlowRegistration;
use crate::flow::NetworkFlowKey;
use crate::flow::NetworkFlowSelector;
use crate::flow::ProxySessionToken;
use crate::types::ApprovalScope;
use crate::types::DbusTarget;
use crate::types::FileAccess;
use crate::types::FilesystemRule;
use crate::types::HttpRequest;
use crate::types::HttpRuleTarget;
use crate::types::RequestContext;
use crate::types::ResourceAccess;
use crate::types::ResourceKind;

verus! {

/// A request.
#[allow(inconsistent_fields)]
#[derive(Debug, PartialEq, Eq)]
pub enum RpcRequest {
    OpenProxySession,
    RegisterNetworkFlow { registration: FlowRegistration },
    ClaimNetworkFlow {
        proxy_session: ProxySessionToken,
        flow: NetworkFlowKey,
        connection_id: u64,
    },
    ClaimNetworkFlowBySource {
        proxy_session: ProxySessionToken,
        selector: NetworkFlowSelector,
        connection_id: u64,
    },
    RebindNetworkFlow {
        proxy_session: ProxySessionToken,
        attribution_token: AttributionToken,
        connection_id: u64,
        flow: NetworkFlowKey,
    },
    CheckHttp {
        proxy_session: ProxySessionToken,
        request_id: u64,
        attribution_token: AttributionToken,
        request: HttpRequest,
    },
    CheckNetworkFlow {
        proxy_session: ProxySessionToken,
        request_id: u64,
        attribution_token: AttributionToken,
    },
    CancelCheck { proxy_session: ProxySessionToken, request_id: u64 },
    ReleaseNetworkFlow {
        proxy_session: ProxySessionToken,
        attribution_token: AttributionToken,
        connection_id: u64,
    },
    RegisterUi { ui_client: Option<String>, ctx: RequestContext },
    UnregisterUi,
    RegisterSandbox { session_id: String, package: String, launcher_pid: u32 },
    Check {
        host: Option<String>,
        connect_host: Option<String>,
        port: Option<u16>,
        scheme: String,
        url: Option<String>,
        ctx: RequestContext,
    },
    CheckFilesystem { path: String, access: FileAccess, ctx: RequestContext },
    CheckResource {
        kind: ResourceKind,
        path: String,
        access: ResourceAccess,
        ctx: RequestContext,
    },
    CheckDbus { target: DbusTarget, ctx: RequestContext },
    StartFilesystemMonitor { ctx: RequestContext, static_allow: Vec<FilesystemRule> },
    Elevate { argv: Vec<String>, ctx: RequestContext },
    Approve {
        id: String,
        scope: ApprovalScope,
        session_id: Option<String>,
        target: Option<ApprovalTarget>,
        comment: Option<String>,
        ctx: RequestContext,
    },
    ApproveHost {
        host: String,
        port: u16,
        scope: ApprovalScope,
        session_id: Option<String>,
        ctx: RequestContext,
    },
    ApproveHttp {
        target: HttpRuleTarget,
        scope: ApprovalScope,
        session_id: Option<String>,
        ctx: RequestContext,
    },
    Deny {
        id: String,
        scope: ApprovalScope,
        session_id: Option<String>,
        target: Option<ApprovalTarget>,
        comment: Option<String>,
        ctx: RequestContext,
    },
    Status { ctx: RequestContext },
    Reload { ctx: RequestContext },
    FilesystemSnapshot { ctx: RequestContext },
    BindNetworkRevocation { path: String },
    ObserveNetworkGrants {
        program: String,
        pins: String,
        pid: u32,
        cgroup: u64,
        dns: String,
    },
    PublishNetworkGrants,
}

} // verus!
