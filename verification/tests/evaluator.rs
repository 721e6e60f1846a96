//! What rules and decisions say, taken together.

use policyd::evaluator::{
    dbus_freeze_refused, dbus_verdict, DbusStart, NetworkQuery, ResourceQuery,
};
use policyd::freeze::CgroupFreezeError;
use policyd::state::{NetworkRuleKey, ResourceRuleKey};
use policyd::store::{Limits, PolicyStore, PolicydArgs};
use policyd::types::{
    ApprovalScope, DbusRule, DbusTarget, DeviceAccess, NetworkRule, Policy, ProcessIds,
    ResolvedRequestContext, ResourceAccess, ResourceKind, ResourceRule, SandboxPaths,
    SocketAccess, Verdict, VerdictSource,
};

fn store() -> PolicyStore {
    PolicyStore::new(
        PolicydArgs {
            host_socket: "/tmp/test.sock".into(),
            sandbox_socket: "/tmp/test-sandbox.sock".into(),
            proxy_socket: None,
            proxy_gid: None,
            declarative: "/tmp/declarative.json".into(),
            export_json: "/tmp/export.json".into(),
            export_nix: None,
            approval_timeout: 30_000_000_000,
            interactive_approval: true,
            ui_spawn_cmd: None,
            package_declarative: Vec::new(),
            fs_monitor_cmd: None,
            syscall_broker_cmd: None,
        },
        Limits {
            pending_approvals: 64,
            waiters_per_pending: 64,
            static_allow_rules: 64,
            proxy_flows: 64,
            verdict_cache: 64,
        },
        None,
    )
}

fn key(host: &str) -> NetworkRuleKey {
    NetworkRuleKey { host: host.into(), port: 443 }
}

fn same(pattern: &String, host: &String) -> bool {
    pattern == host
}

#[test]
fn network_deny_source_beats_once_and_session_allow() {
    let mut store = store();
    store.session.once_allow.insert(key("example.com"), true);
    store.session.session_allow.insert("ui-session".into(), vec![key("example.com")]);
    store.session.session_deny.insert("ui-session".into(), vec![key("example.com")]);
    let host = "example.com".to_string();
    let keys = vec![key("example.com")];
    let sessions = vec!["ui-session".to_string()];
    let policy = Policy::empty();
    let q =
        NetworkQuery { host: &host, port: 443, keys: &keys, sessions: &sessions, policy: &policy };
    assert_eq!(
        store.network_verdict(&q, &same, false),
        Some(Verdict::denied(VerdictSource::policy()))
    );
    assert!(!store.is_allowed(&q, &same, true));
}

#[test]
fn network_policy_comment_survives_as_allow_comment_source() {
    let mut store = store();
    let mut policy = Policy::empty();
    policy
        .network
        .direct
        .allow
        .push(NetworkRule::new("example.com".into(), 443, "trusted policy file"));
    let host = "example.com".to_string();
    let keys = vec![key("example.com")];
    let sessions = Vec::new();
    let q =
        NetworkQuery { host: &host, port: 443, keys: &keys, sessions: &sessions, policy: &policy };
    assert_eq!(
        store.network_verdict(&q, &same, false),
        Some(Verdict::allowed(VerdictSource::policy_with_comment(&"trusted policy file".into())))
    );
    assert!(store.is_allowed(&q, &same, true));
}

#[test]
fn resource_session_source_beats_policy_allow() {
    let mut store = store();
    let read = ResourceAccess::Device(DeviceAccess::Read);
    let path = "/dev/fd/3".to_string();
    let mut policy = Policy::empty();
    policy.resources.allow.push(ResourceRule::new(
        ResourceKind::Device,
        path.clone(),
        read,
        "policy allow",
    ));
    store.session.resource_allow.insert(
        "ui-session".into(),
        vec![ResourceRuleKey { kind: ResourceKind::Device, path: path.clone(), access: read }],
    );
    let sessions = vec!["ui-session".to_string()];
    let q = ResourceQuery {
        kind: ResourceKind::Device,
        path: &path,
        access: read,
        policy: &policy,
        sessions: &sessions,
        identity: None,
    };
    let matches = |rule: &ResourceRule| rule.path == path && rule.access == read;
    assert_eq!(
        store.resource_allow_source(&q, &matches, &matches),
        Some(Verdict::allowed(VerdictSource::Scope(ApprovalScope::Session)))
    );
}

#[test]
fn a_host_bus_is_denied_whatever_allows_it() {
    let store = store();
    let connect = ResourceAccess::Socket(SocketAccess::Connect);
    let path = "/run/dbus/system_bus_socket".to_string();
    let mut policy = Policy::empty();
    policy.resources.allow.push(ResourceRule::new(
        ResourceKind::UnixSocket,
        path.clone(),
        connect,
        "",
    ));
    let sessions = Vec::new();
    let q = ResourceQuery {
        kind: ResourceKind::UnixSocket,
        path: &path,
        access: connect,
        policy: &policy,
        sessions: &sessions,
        identity: None,
    };
    let matches = |rule: &ResourceRule| rule.path == path;
    let verdict = store.resource_allow_source(&q, &matches, &matches).expect("it is decided");
    assert!(!verdict.allowed);
}

fn target(member: &str) -> DbusTarget {
    DbusTarget {
        bus: "session".into(),
        destination: Some("org.example.Service".into()),
        object_path: Some("/org/example/Object".into()),
        interface: Some("org.example.Interface".into()),
        member: Some(member.into()),
        message_kind: "method_call".into(),
        signature: Some("s".into()),
        fd_metadata: Vec::new(),
    }
}

#[test]
fn dbus_policy_matches_structured_target() {
    let mut policy = Policy::empty();
    policy.dbus.allow.push(DbusRule {
        target: target("Read"),
        comment: Some("trusted D-Bus method".into()),
    });
    let asked = |member: &'static str| move |rule: &DbusRule| rule.target.same(&target(member));
    assert_eq!(
        dbus_verdict(&policy, &asked("Read")),
        Some(Verdict::allowed(VerdictSource::policy_with_comment(&"trusted D-Bus method".into())))
    );
    assert_eq!(dbus_verdict(&policy, &asked("Write")), None);
}

fn context(pid: Option<u32>) -> ResolvedRequestContext {
    ResolvedRequestContext {
        paths: SandboxPaths::default(),
        ids: ProcessIds::from_options(pid, Some(1000)),
        sandbox_session_id: None,
        package: None,
    }
}

fn part_covers(rule: &Option<String>, asked: &Option<String>) -> bool {
    rule.as_deref() == Some("*") || rule == asked
}

fn bus_covers(asked: &DbusTarget) -> impl Fn(&DbusTarget) -> bool + '_ {
    move |rule: &DbusTarget| {
        rule.bus == asked.bus
            && rule.message_kind == asked.message_kind
            && part_covers(&rule.destination, &asked.destination)
            && part_covers(&rule.object_path, &asked.object_path)
            && part_covers(&rule.interface, &asked.interface)
            && part_covers(&rule.member, &asked.member)
            && part_covers(&rule.signature, &asked.signature)
    }
}

#[test]
fn dbus_session_allow_matches_exact_and_wildcard_targets() {
    let mut store = store();
    let sessions = vec!["general-ui".to_string()];
    let concrete = target("Read");
    let other = DbusTarget { destination: Some("org.example.Other".into()), ..target("Read") };

    store.session.dbus_allow.insert("general-ui".into(), vec![target("Read")]);
    assert!(store.session_dbus_allowed(&sessions, &bus_covers(&concrete)));
    assert!(!store.session_dbus_allowed(&sessions, &bus_covers(&other)));

    let wildcard = DbusTarget {
        object_path: Some("*".into()),
        interface: Some("*".into()),
        signature: Some("*".into()),
        ..target("*")
    };
    store.session.dbus_allow.insert("general-ui".into(), vec![wildcard]);
    assert!(store.session_dbus_allowed(&sessions, &bus_covers(&concrete)));
    assert!(!store.session_dbus_allowed(&sessions, &bus_covers(&other)));
}

#[test]
fn a_bus_request_is_answered_by_its_own_sessions() {
    let mut store = store();
    store.session.dbus_allow.insert("general-ui".into(), vec![target("Read")]);
    let sessions = vec!["general-ui".to_string()];
    let concrete = target("Read");
    let covers = bus_covers(&concrete);
    let rules = |_: &DbusRule| false;
    let start =
        store.check_dbus(&context(Some(7)), &Policy::empty(), &sessions, &rules, &covers);
    let DbusStart::Reply(reply) = start else {
        panic!("the session answers");
    };
    assert!(reply.allowed);
    let start =
        store.check_dbus(&context(Some(7)), &Policy::empty(), &Vec::new(), &rules, &covers);
    assert!(matches!(start, DbusStart::Freeze { pid: 7, uid: Some(1000) }));
}

#[test]
fn a_bus_request_that_cannot_be_frozen_is_refused() {
    let reply = dbus_freeze_refused(&CgroupFreezeError::NotCgroupV2 { pid: 7 });
    assert!(!reply.allowed);
    assert!(reply.message.unwrap_or_default().contains("freeze"));
}

#[test]
fn a_decision_for_one_session_says_nothing_to_another() {
    let mut store = store();
    store.session.session_allow.insert("first".into(), vec![key("example.com")]);
    let host = "example.com".to_string();
    let keys = vec![key("example.com")];
    let policy = Policy::empty();
    let mut ask = |session: &str| {
        let sessions = vec![session.to_string()];
        let query = NetworkQuery {
            host: &host,
            port: 443,
            keys: &keys,
            sessions: &sessions,
            policy: &policy,
        };
        store.network_verdict(&query, &same, true)
    };
    assert_eq!(
        ask("first"),
        Some(Verdict::allowed(VerdictSource::Scope(ApprovalScope::Session)))
    );
    assert_eq!(ask("second"), None);
}
