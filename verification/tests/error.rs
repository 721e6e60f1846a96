//! What clients are told of a failure.

use policyd::error::{proxy_error, PolicydError};

#[test]
fn every_error_has_its_message() {
    let cases = vec![
        (PolicydError::Scope("scope".into()), "scope"),
        (PolicydError::ProjectPolicy("project".into()), "project"),
        (PolicydError::Io("no such file".into()), "no such file"),
        (PolicydError::InvalidJson, "invalid JSON"),
        (PolicydError::ArgvRequired, "argv required (non-empty list of strings)"),
        (PolicydError::HostRequired, "host required"),
        (PolicydError::InvalidPort, "invalid port"),
        (PolicydError::InvalidPackageName("a/b".into()), "invalid package name: a/b"),
        (
            PolicydError::InvalidLauncherPid,
            "launcher pid does not match the registering peer's parent",
        ),
        (
            PolicydError::PackageImmutable,
            "package is immutable for this session after first registration",
        ),
        (PolicydError::UnknownPendingId, "unknown pending id"),
        (PolicydError::HostDeniedByPolicy, "host denied by policy deny rules"),
        (PolicydError::InvalidDecisionTarget, "invalid approval target"),
        (PolicydError::UnauthorizedRequest, "request not allowed on sandbox policy socket"),
        (PolicydError::UnauthorizedUiFdRequest, "request not allowed on inherited UI policy fd"),
        (
            PolicydError::UnauthorizedApprovalSession,
            "approval session does not match pending sandbox session",
        ),
        (
            PolicydError::UnauthorizedApprovalClient,
            "approval not authorized for this connection",
        ),
        (
            PolicydError::UnauthorizedUiRegistration,
            "UI registration uid does not match sandbox owner",
        ),
        (PolicydError::TooManyConnections, "too many connections for this uid"),
        (proxy_error("no session"), "proxy request failed: no session"),
        (PolicydError::RpcLineTooLarge, "RPC line too large"),
        (PolicydError::InvalidGateEvidence, "gate evidence does not match the request"),
    ];
    for (error, message) in cases {
        assert_eq!(error.message(), message);
    }
    assert!(PolicydError::ElevationArgvNotAbsolute
        .message()
        .starts_with("elevation argv[0] must be a bare command"));
}
