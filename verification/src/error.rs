//! Errors of the policy daemon, at startup and in replies.

use vstd::prelude::*;

use crate::text;

verus! {

/// Why a request was refused or failed.
#[derive(Debug, PartialEq, Eq)]
pub enum PolicydError {
    /// A request's scope could not be resolved, for the reason given.
    Scope(String),
    /// A project policy failed, for the reason given.
    ProjectPolicy(String),
    /// Input or output failed, for the reason given.
    Io(String),
    /// The request body was not valid JSON.
    InvalidJson,
    /// The request lacked a non-empty `argv` list.
    ArgvRequired,
    /// The request lacked a `host`.
    HostRequired,
    /// The request carried an invalid `port`.
    InvalidPort,
    /// The package name is not a valid one, for the reason given.
    InvalidPackageName(String),
    /// The launcher pid is not the registering peer's parent process.
    InvalidLauncherPid,
    /// The package is immutable for this session after its first registration.
    PackageImmutable,
    /// The pending approval id is not known.
    UnknownPendingId,
    /// Policy deny rules refuse the host.
    HostDeniedByPolicy,
    /// The approval target is invalid.
    InvalidDecisionTarget,
    /// The request is not allowed on this socket.
    UnauthorizedRequest,
    /// The request is not allowed on an inherited UI descriptor.
    UnauthorizedUiFdRequest,
    /// The approval session is not that of the pending request.
    UnauthorizedApprovalSession,
    /// The connection may not approve this request.
    UnauthorizedApprovalClient,
    /// The UI registration uid is not that of the sandbox owner.
    UnauthorizedUiRegistration,
    /// Too many connections are open for this uid.
    TooManyConnections,
    /// The proxy request failed, for the reason given.
    Proxy(String),
    /// An RPC line exceeded the allowed size.
    RpcLineTooLarge,
    /// The elevation program is not one of the trusted system profile.
    ElevationArgvNotAbsolute,
    /// The evidence of a gate does not describe its request.
    InvalidGateEvidence,
}

impl PolicydError {
    /// The message of the error.
    pub open spec fn described(self) -> Seq<char> {
        match self {
            PolicydError::Scope(reason) => reason@,
            PolicydError::ProjectPolicy(reason) => reason@,
            PolicydError::Io(reason) => reason@,
            PolicydError::InvalidJson => "invalid JSON"@,
            PolicydError::ArgvRequired => "argv required (non-empty list of strings)"@,
            PolicydError::HostRequired => "host required"@,
            PolicydError::InvalidPort => "invalid port"@,
            PolicydError::InvalidPackageName(reason) => "invalid package name: "@ + reason@,
            PolicydError::InvalidLauncherPid =>
                "launcher pid does not match the registering peer's parent"@,
            PolicydError::PackageImmutable =>
                "package is immutable for this session after first registration"@,
            PolicydError::UnknownPendingId => "unknown pending id"@,
            PolicydError::HostDeniedByPolicy => "host denied by policy deny rules"@,
            PolicydError::InvalidDecisionTarget => "invalid approval target"@,
            PolicydError::UnauthorizedRequest => "request not allowed on sandbox policy socket"@,
            PolicydError::UnauthorizedUiFdRequest =>
                "request not allowed on inherited UI policy fd"@,
            PolicydError::UnauthorizedApprovalSession =>
                "approval session does not match pending sandbox session"@,
            PolicydError::UnauthorizedApprovalClient =>
                "approval not authorized for this connection"@,
            PolicydError::UnauthorizedUiRegistration =>
                "UI registration uid does not match sandbox owner"@,
            PolicydError::TooManyConnections => "too many connections for this uid"@,
            PolicydError::Proxy(reason) => "proxy request failed: "@ + reason@,
            PolicydError::RpcLineTooLarge => "RPC line too large"@,
            PolicydError::ElevationArgvNotAbsolute =>
                "elevation argv[0] must be a bare command resolved via /run/current-system/sw/bin or an absolute path under /run/current-system, with a regular canonical target under /nix/store"@,
            PolicydError::InvalidGateEvidence => "gate evidence does not match the request"@,
        }
    }

    /// The message that a client is shown.
    pub fn message(&self) -> (r: String)
        ensures
            r@ == self.described(),
    {
        match self {
            PolicydError::Scope(reason) => reason.clone(),
            PolicydError::ProjectPolicy(reason) => reason.clone(),
            PolicydError::Io(reason) => reason.clone(),
            PolicydError::InvalidJson => "invalid JSON".to_owned(),
            PolicydError::ArgvRequired => "argv required (non-empty list of strings)".to_owned(),
            PolicydError::HostRequired => "host required".to_owned(),
            PolicydError::InvalidPort => "invalid port".to_owned(),
            PolicydError::InvalidPackageName(reason) => text::join2(
                "invalid package name: ",
                reason.as_str(),
            ),
            PolicydError::InvalidLauncherPid =>
                "launcher pid does not match the registering peer's parent".to_owned(),
            PolicydError::PackageImmutable =>
                "package is immutable for this session after first registration".to_owned(),
            PolicydError::UnknownPendingId => "unknown pending id".to_owned(),
            PolicydError::HostDeniedByPolicy => "host denied by policy deny rules".to_owned(),
            PolicydError::InvalidDecisionTarget => "invalid approval target".to_owned(),
            PolicydError::UnauthorizedRequest =>
                "request not allowed on sandbox policy socket".to_owned(),
            PolicydError::UnauthorizedUiFdRequest =>
                "request not allowed on inherited UI policy fd".to_owned(),
            PolicydError::UnauthorizedApprovalSession =>
                "approval session does not match pending sandbox session".to_owned(),
            PolicydError::UnauthorizedApprovalClient =>
                "approval not authorized for this connection".to_owned(),
            PolicydError::UnauthorizedUiRegistration =>
                "UI registration uid does not match sandbox owner".to_owned(),
            PolicydError::TooManyConnections => "too many connections for this uid".to_owned(),
            PolicydError::Proxy(reason) => text::join2("proxy request failed: ", reason.as_str()),
            PolicydError::RpcLineTooLarge => "RPC line too large".to_owned(),
            PolicydError::ElevationArgvNotAbsolute =>
                "elevation argv[0] must be a bare command resolved via /run/current-system/sw/bin or an absolute path under /run/current-system, with a regular canonical target under /nix/store".to_owned(),
            PolicydError::InvalidGateEvidence =>
                "gate evidence does not match the request".to_owned(),
        }
    }

    /// The error is a proxy failure with the given reason.
    pub open spec fn is_proxy(self, reason: Seq<char>) -> bool {
        self matches PolicydError::Proxy(r) && r@ == reason
    }
}

/// A proxy failure with the given reason.
pub fn proxy_error(reason: &str) -> (r: PolicydError)
    ensures
        r.is_proxy(reason@),
{
    PolicydError::Proxy(reason.to_owned())
}

} // verus!
