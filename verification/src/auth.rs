//! Which requests are admitted on which socket.

use vstd::prelude::*;

use crate::error::PolicydError;
use crate::rpc::RpcRequest;

verus! {

/// What a connection may be used for.
#[derive(Clone, Copy, Debug, PartialEq, Eq, Structural)]
pub enum SocketRole {
    /// The socket of the host.
    Host,
    /// The socket that is exposed inside the sandbox.
    Sandbox,
    /// A connection that has registered a policy UI.
    UiFd,
    /// The socket of the trusted proxy.
    Proxy,
}

/// The request is one of a sandbox. None of them registers a UI or decides on a request, so a
/// sandboxed process cannot approve what it asks for.
pub open spec fn sandbox_request(req: RpcRequest) -> bool {
    ||| req is Check
    ||| req is Elevate
    ||| req is CheckFilesystem
    ||| req is CheckResource
    ||| req is StartFilesystemMonitor
    ||| req is RegisterNetworkFlow
    ||| req is FilesystemSnapshot
}

/// The request is one of the trusted proxy.
pub open spec fn proxy_request(req: RpcRequest) -> bool {
    ||| req is OpenProxySession
    ||| req is ClaimNetworkFlow
    ||| req is CheckHttp
    ||| req is CheckNetworkFlow
    ||| req is CancelCheck
    ||| req is ReleaseNetworkFlow
}

/// The request is one of a registered policy UI.
pub open spec fn uifd_request(req: RpcRequest) -> bool {
    ||| req is Approve
    ||| req is ApproveHost
    ||| req is ApproveHttp
    ||| req is Deny
    ||| req is Status
    ||| req is Reload
    ||| req is UnregisterUi
}

/// The request is for root alone.
pub open spec fn root_request(req: RpcRequest) -> bool {
    ||| req is RegisterNetworkFlow
    ||| req is FilesystemSnapshot
    ||| req is BindNetworkRevocation
    ||| req is ObserveNetworkGrants
    ||| req is PublishNetworkGrants
}

/// Whether the request is one of a sandbox.
pub fn is_sandbox_request(req: &RpcRequest) -> (r: bool)
    ensures
        r == sandbox_request(*req),
{
    match req {
        RpcRequest::Check { .. } => true,
        RpcRequest::Elevate { .. } => true,
        RpcRequest::CheckFilesystem { .. } => true,
        RpcRequest::CheckResource { .. } => true,
        RpcRequest::StartFilesystemMonitor { .. } => true,
        RpcRequest::RegisterNetworkFlow { .. } => true,
        RpcRequest::FilesystemSnapshot { .. } => true,
        _ => false,
    }
}

/// Whether the request is one of the trusted proxy.
pub fn is_proxy_request(req: &RpcRequest) -> (r: bool)
    ensures
        r == proxy_request(*req),
{
    match req {
        RpcRequest::OpenProxySession => true,
        RpcRequest::ClaimNetworkFlow { .. } => true,
        RpcRequest::CheckHttp { .. } => true,
        RpcRequest::CheckNetworkFlow { .. } => true,
        RpcRequest::CancelCheck { .. } => true,
        RpcRequest::ReleaseNetworkFlow { .. } => true,
        _ => false,
    }
}

/// Whether the request is one of a registered policy UI.
pub fn is_uifd_request(req: &RpcRequest) -> (r: bool)
    ensures
        r == uifd_request(*req),
{
    match req {
        RpcRequest::Approve { .. } => true,
        RpcRequest::ApproveHost { .. } => true,
        RpcRequest::ApproveHttp { .. } => true,
        RpcRequest::Deny { .. } => true,
        RpcRequest::Status { .. } => true,
        RpcRequest::Reload { .. } => true,
        RpcRequest::UnregisterUi => true,
        _ => false,
    }
}

/// Whether the request is for root alone.
pub fn is_root_request(req: &RpcRequest) -> (r: bool)
    ensures
        r == root_request(*req),
{
    match req {
        RpcRequest::RegisterNetworkFlow { .. } => true,
        RpcRequest::FilesystemSnapshot { .. } => true,
        RpcRequest::BindNetworkRevocation { .. } => true,
        RpcRequest::ObserveNetworkGrants { .. } => true,
        RpcRequest::PublishNetworkGrants => true,
        _ => false,
    }
}

/// Why the request is not admitted in the role.
pub open spec fn role_refusal(role: SocketRole, req: RpcRequest) -> Option<PolicydError> {
    if (role == SocketRole::Proxy) != proxy_request(req) {
        Some(PolicydError::UnauthorizedRequest)
    } else if role == SocketRole::Sandbox && !sandbox_request(req) {
        Some(PolicydError::UnauthorizedRequest)
    } else if role == SocketRole::UiFd && !uifd_request(req) {
        Some(PolicydError::UnauthorizedUiFdRequest)
    } else {
        None
    }
}

/// Why the request of the user is not admitted in the role.
pub open spec fn admission_refusal(role: SocketRole, uid: u32, req: RpcRequest) -> Option<
    PolicydError,
> {
    if role_refusal(role, req) is Some {
        role_refusal(role, req)
    } else if root_request(req) && uid != 0 {
        Some(PolicydError::UnauthorizedRequest)
    } else {
        None
    }
}

/// The answer carries the refusal, where there is one.
pub open spec fn answers(r: Result<(), PolicydError>, refusal: Option<PolicydError>) -> bool {
    match refusal {
        Some(error) => r == Err::<(), PolicydError>(error),
        None => r is Ok,
    }
}

/// Whether a request may be made in a role, and why not.
pub fn ensure_allowed(role: SocketRole, req: &RpcRequest) -> (r: Result<(), PolicydError>)
    ensures
        answers(r, role_refusal(role, *req)),
{
    match role {
        SocketRole::Proxy => {
            if !is_proxy_request(req) {
                return Err(PolicydError::UnauthorizedRequest);
            }
            Ok(())
        },
        _ => {
            if is_proxy_request(req) {
                return Err(PolicydError::UnauthorizedRequest);
            }
            if role == SocketRole::Sandbox && !is_sandbox_request(req) {
                return Err(PolicydError::UnauthorizedRequest);
            }
            if role == SocketRole::UiFd && !is_uifd_request(req) {
                return Err(PolicydError::UnauthorizedUiFdRequest);
            }
            Ok(())
        },
    }
}

/// Whether a user may make a request in a role, and why not.
pub fn authorize(role: SocketRole, uid: u32, req: &RpcRequest) -> (r: Result<(), PolicydError>)
    ensures
        answers(r, admission_refusal(role, uid, *req)),
{
    match ensure_allowed(role, req) {
        Ok(_) => {
            if is_root_request(req) && uid != 0 {
                Err(PolicydError::UnauthorizedRequest)
            } else {
                Ok(())
            }
        },
        Err(error) => Err(error),
    }
}

/// Nothing that is admitted on the sandbox socket registers a UI, decides on a request or
/// controls the daemon: a sandboxed process cannot approve its own requests.
pub proof fn law_sandbox_cannot_approve(req: RpcRequest)
    requires
        role_refusal(SocketRole::Sandbox, req) is None,
    ensures
        !(req is RegisterUi),
        !uifd_request(req),
{
}

/// A connection that has registered a UI can only decide: it asks for nothing itself, and it
/// cannot register again.
pub proof fn law_registered_ui_only_decides(req: RpcRequest)
    requires
        role_refusal(SocketRole::UiFd, req) is None,
    ensures
        uifd_request(req),
        !sandbox_request(req),
        !(req is RegisterUi),
{
}

/// The proxy's requests are admitted on its own socket and nowhere else, and nothing else is
/// admitted there.
pub proof fn law_proxy_is_apart(role: SocketRole, req: RpcRequest)
    ensures
        role_refusal(SocketRole::Proxy, req) is None == proxy_request(req),
        role != SocketRole::Proxy && proxy_request(req) ==> role_refusal(role, req) is Some,
{
}

/// What is for root alone is admitted for nobody else, and publishing grants only on the host
/// socket.
pub proof fn law_root_requests_need_root(role: SocketRole, uid: u32, req: RpcRequest)
    requires
        root_request(req),
        admission_refusal(role, uid, req) is None,
    ensures
        uid == 0,
        role == SocketRole::Host || role == SocketRole::Sandbox,
        req is BindNetworkRevocation || req is ObserveNetworkGrants || req is PublishNetworkGrants
            ==> role == SocketRole::Host,
{
}

} // verus!
