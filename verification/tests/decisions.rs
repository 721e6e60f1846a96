//! Decisions on pending requests.

use policyd::decide::{
    approve_host, Decided, DecisionStep, HostApproveRequest, ScopeActionReply, ScopeResult,
    SudoApplied, SudoDecided, TargetTests,
};
use policyd::decisions::{
    resolve_pending_dbus_target, resolve_pending_filesystem_target,
    resolve_pending_network_target, resolve_pending_resource_target,
    resolve_pending_sudo_target, scope_wire_for_pending, ApprovalTarget, DecisionAction,
    PathQuery, PendingDecision, ScopeWire,
};
use policyd::elevation::ElevateReply;
use policyd::error::PolicydError;
use policyd::persist::{
    persist_filesystem_rule, persist_resource_rule, PersistResourceRuleArgs,
};
use policyd::rules::session_network_matches;
use policyd::state::{
    FilesystemRuleKey, NetworkRuleKey, NetworkWaiter, Pending, PendingContext, PendingDbus,
    PendingElevation, PendingFilesystem, PendingNetwork, PendingResource, ResourceRuleKey,
    SandboxSessionRegistration, UiClient, UiSessionContext,
};
use policyd::store::{Limits, PolicyStore, PolicydArgs};
use policyd::types::{
    ApprovalScope, DbusTarget, FileAccess, FilesystemRule, NetworkRule, Policy, ProcessIds,
    ResolvedRequestContext, ResourceAccess, ResourceKind, ResourceRule, SandboxPaths,
    SocketAccess, VerdictSource,
};

fn store() -> PolicyStore {
    PolicyStore::new(
        PolicydArgs {
            host_socket: "/tmp/test.sock".into(),
            sandbox_socket: "/tmp/test-sandbox.sock".into(),
            proxy_socket: None,
            proxy_gid: None,
            declarative: "/tmp/declarative.json".into(),
            export_json: "/tmp/export.json".into(),
            export_nix: None,
            approval_timeout: 30_000_000_000,
            interactive_approval: true,
            ui_spawn_cmd: None,
            package_declarative: Vec::new(),
            fs_monitor_cmd: None,
            syscall_broker_cmd: None,
        },
        Limits {
            pending_approvals: 64,
            waiters_per_pending: 64,
            static_allow_rules: 64,
            proxy_flows: 64,
            verdict_cache: 64,
        },
        None,
    )
}

/// Whether a pattern in which `*` stands for anything spells the text.
fn glob(pattern: &str, text: &str) -> bool {
    match pattern.split_once('*') {
        None => pattern == text,
        Some((start, rest)) => match text.strip_prefix(start) {
            None => false,
            Some(tail) => {
                (0..=tail.len()).any(|i| tail.is_char_boundary(i) && glob(rest, &tail[i..]))
            }
        },
    }
}

fn host_matches(pattern: &String, host: &String) -> bool {
    glob(pattern, host)
}

fn has_prefix(argv: &Vec<String>, prefix: &Vec<String>) -> bool {
    argv.starts_with(prefix)
}

/// Whether a rule's path covers a path, seen from a project root.
fn path_covers(pattern: &str, path: &str, root: &Option<String>) -> bool {
    let base = match pattern.strip_prefix("./") {
        Some(rest) => match root {
            Some(root) => format!("{root}/{rest}"),
            None => return false,
        },
        None => pattern.to_string(),
    };
    glob(&base, path) || path.starts_with(&format!("{base}/"))
}

fn file_matches(rule: &FilesystemRule, query: &PathQuery) -> bool {
    path_covers(&rule.path, &query.path, &query.root)
}

fn resource_matches(rule: &ResourceRule, query: &PathQuery) -> bool {
    path_covers(&rule.path, &query.path, &query.root)
}

fn dbus_covers(target: &DbusTarget, requested: &DbusTarget) -> bool {
    let part = |a: &Option<String>, b: &Option<String>| a.as_deref() == Some("*") || a == b;
    part(&target.destination, &requested.destination)
        && part(&target.object_path, &requested.object_path)
        && part(&target.interface, &requested.interface)
        && part(&target.member, &requested.member)
}

fn decide(store: &mut PolicyStore, decision: PendingDecision, approve: bool) -> DecisionStep {
    let tests = TargetTests {
        host: &host_matches,
        command: &has_prefix,
        file: &file_matches,
        resource: &resource_matches,
        dbus: &dbus_covers,
    };
    let sessions = store.ui.active_session_ids();
    let access = ResourceAccess::Socket(SocketAccess::All);
    if approve {
        store.approve(decision, &tests, &sessions, access, 100)
    } else {
        store.deny(decision, &tests, &sessions, access, 100)
    }
}

fn context(sandbox: Option<&str>) -> PendingContext {
    PendingContext {
        cwd: Some("/repo".into()),
        home: Some("/home/user".into()),
        project_root: Some("/repo".into()),
        sandbox_session_id: sandbox.map(String::from),
        package: None,
    }
}

fn no_context() -> PendingContext {
    PendingContext {
        cwd: None,
        home: None,
        project_root: None,
        sandbox_session_id: None,
        package: None,
    }
}

fn pending_network(host: &str) -> PendingNetwork {
    PendingNetwork {
        id: "p1".into(),
        created_at: 0,
        host: host.into(),
        port: 443,
        scheme: "https".into(),
        url: format!("https://{host}"),
        aliases: Vec::new(),
        context: no_context(),
    }
}

fn pending_elevation(argv: &[&str]) -> PendingElevation {
    PendingElevation {
        id: "p1".into(),
        created_at: 0,
        argv: argv.iter().map(|s| s.to_string()).collect(),
        context: no_context(),
    }
}

fn pending_file(path: &str, access: FileAccess, context: PendingContext) -> PendingFilesystem {
    PendingFilesystem { id: "fs1".into(), created_at: 0, path: path.into(), access, context }
}

fn file_target(path: &str) -> Option<ApprovalTarget> {
    Some(ApprovalTarget::FilesystemPath(path.into()))
}

fn wire(session: Option<&str>, sandbox: Option<&str>) -> ScopeWire {
    ScopeWire {
        paths: SandboxPaths::from_wire(
            Some("/repo".into()),
            Some("/home/user".into()),
            Some("/repo".into()),
        ),
        session_id: session.map(String::from),
        owner_uid: Some(1000),
        sandbox_session_id: sandbox.map(String::from),
        comment: None,
        package: None,
    }
}

fn decision(
    id: &str,
    scope: ApprovalScope,
    target: Option<ApprovalTarget>,
    wire: ScopeWire,
    client_id: u64,
    approver_uid: Option<u32>,
) -> PendingDecision {
    PendingDecision { pending_id: id.into(), scope, target, wire, client_id, approver_uid }
}

fn add_ui(store: &mut PolicyStore, client_id: u64, session: &str, sandbox: Option<&str>) {
    store.ui.clients.insert(client_id, UiClient { session_id: session.into() });
    store.ui.contexts.insert(
        session.into(),
        UiSessionContext {
            cwd: Some("/repo".into()),
            home: Some("/home/user".into()),
            project_root: Some("/repo".into()),
            sandbox_session_id: sandbox.map(String::from),
            owner_uid: Some(1000),
            client_id,
        },
    );
}

fn add_sandbox(store: &mut PolicyStore) {
    store.sandbox_sessions.insert(
        "sandbox-a".into(),
        SandboxSessionRegistration {
            root_pid: 42,
            owner_uid: 1000,
            package: None,
            launcher_pid: 0,
            launcher_start_time_ticks: 0,
        },
    );
}

fn put(store: &mut PolicyStore, pending: Pending) -> String {
    let id = pending.id().clone();
    store.pending.insert(id.clone(), pending);
    id
}

#[test]
fn network_target_accepts_parent_domain_patterns() {
    let pending = pending_network("foo.bar.baz.com");
    let target = Some(ApprovalTarget::NetworkHost("*.baz.com".into()));
    assert_eq!(
        resolve_pending_network_target(&pending, ApprovalScope::Project, &target, &host_matches)
            .expect("resolve pending network target"),
        NetworkRuleKey { host: "*.baz.com".into(), port: 443 }
    );
}

#[test]
fn network_target_accepts_user_defined_glob() {
    let pending = pending_network("api.v1.example.com");
    let target = Some(ApprovalTarget::NetworkHost("api.*.example.com".into()));
    assert_eq!(
        resolve_pending_network_target(&pending, ApprovalScope::Project, &target, &host_matches)
            .expect("resolve custom network glob"),
        NetworkRuleKey { host: "api.*.example.com".into(), port: 443 }
    );
}

#[test]
fn network_target_once_is_the_host_itself() {
    let pending = pending_network("foo.baz.com");
    let target = Some(ApprovalTarget::NetworkHost("*.baz.com".into()));
    assert_eq!(
        resolve_pending_network_target(&pending, ApprovalScope::Once, &target, &host_matches),
        Err(PolicydError::InvalidDecisionTarget)
    );
    assert_eq!(
        resolve_pending_network_target(&pending, ApprovalScope::Once, &None, &host_matches),
        Ok(NetworkRuleKey { host: "foo.baz.com".into(), port: 443 })
    );
    assert_eq!(
        resolve_pending_network_target(
            &pending,
            ApprovalScope::Session,
            &file_target("/x"),
            &host_matches
        ),
        Err(PolicydError::InvalidDecisionTarget)
    );
}

#[test]
fn sudo_target_accepts_command_prefixes() {
    let pending = pending_elevation(&["foo", "bar", "baz"]);
    let target = Some(ApprovalTarget::SudoCommand(vec!["foo".into(), "bar".into()]));
    assert_eq!(
        resolve_pending_sudo_target(&pending, ApprovalScope::Session, &target, &has_prefix)
            .expect("resolve pending sudo target"),
        vec!["foo".to_string(), "bar".to_string()]
    );
}

#[test]
fn filesystem_target_rejects_mismatch() {
    let pending =
        pending_file("/home/user/projects/foo/src/main.rs", FileAccess::Read, no_context());
    assert!(resolve_pending_filesystem_target(
        &pending,
        ApprovalScope::Session,
        &file_target("/other/path"),
        &None,
        &file_matches
    )
    .is_err());
}

#[test]
fn filesystem_target_accepts_ancestor_path() {
    let pending =
        pending_file("/home/user/projects/foo/src/main.rs", FileAccess::Read, no_context());
    assert_eq!(
        resolve_pending_filesystem_target(
            &pending,
            ApprovalScope::Session,
            &file_target("/home/user/projects/foo"),
            &None,
            &file_matches
        )
        .expect("resolve pending filesystem target"),
        "/home/user/projects/foo"
    );
}

#[test]
fn filesystem_target_exact_once_scope() {
    let pending = pending_file("/home/user/file.txt", FileAccess::Read, no_context());
    assert!(resolve_pending_filesystem_target(
        &pending,
        ApprovalScope::Once,
        &None,
        &None,
        &file_matches
    )
    .is_ok());
    assert!(resolve_pending_filesystem_target(
        &pending,
        ApprovalScope::Once,
        &file_target("/home/user"),
        &None,
        &file_matches
    )
    .is_err());
}

#[test]
fn filesystem_target_accepts_project_relative_path() {
    let context = PendingContext {
        home: Some("/home/user".into()),
        project_root: Some("/home/user/repo".into()),
        ..no_context()
    };
    let pending = pending_file("/home/user/repo/.gitattributes", FileAccess::Read, context);
    assert_eq!(
        resolve_pending_filesystem_target(
            &pending,
            ApprovalScope::Session,
            &file_target("./.gitattributes"),
            &None,
            &file_matches
        )
        .expect("project-relative target should resolve"),
        "./.gitattributes"
    );
}

#[test]
fn resource_target_accepts_project_relative_path() {
    let pending = PendingResource {
        id: "rs1".into(),
        created_at: 0,
        kind: ResourceKind::UnixSocket,
        path: "/home/user/repo/.sock".into(),
        access: ResourceAccess::Socket(SocketAccess::Connect),
        context: PendingContext {
            home: Some("/home/user".into()),
            project_root: Some("/home/user/repo".into()),
            ..no_context()
        },
    };
    let target = Some(ApprovalTarget::ResourcePath {
        resource_kind: ResourceKind::UnixSocket,
        path: "./.sock".into(),
    });
    assert_eq!(
        resolve_pending_resource_target(
            &pending,
            ApprovalScope::Session,
            &target,
            &None,
            &resource_matches
        )
        .expect("project-relative resource target should resolve"),
        "./.sock"
    );
}

#[test]
fn filesystem_target_accepts_project_relative_from_wire_project_root() {
    let context = PendingContext { home: Some("/home/user".into()), ..no_context() };
    let pending = pending_file("/home/user/repo/.git/config", FileAccess::ReadWrite, context);
    assert_eq!(
        resolve_pending_filesystem_target(
            &pending,
            ApprovalScope::Global,
            &file_target("./.git"),
            &Some("/home/user/repo".into()),
            &file_matches
        )
        .expect("wire project_root should validate ./.git against .git/config"),
        "./.git"
    );
}

fn git_decision(project_root: Option<&str>) -> (PolicyStore, PendingDecision) {
    let mut store = store();
    let context = PendingContext {
        cwd: Some("/home/user/dotfiles".into()),
        home: Some("/home/user".into()),
        project_root: project_root.map(String::from),
        sandbox_session_id: None,
        package: None,
    };
    let id = put(
        &mut store,
        Pending::Filesystem(pending_file(
            "/home/user/dotfiles/.git/config",
            FileAccess::ReadWrite,
            context,
        )),
    );
    let wire = ScopeWire {
        paths: SandboxPaths::from_wire(
            Some("/home/user/dotfiles".into()),
            Some("/home/user".into()),
            Some("/home/user/dotfiles".into()),
        ),
        ..wire(None, None)
    };
    let decision =
        decision(&id, ApprovalScope::Global, file_target("./.git"), wire, 1, None);
    (store, decision)
}

#[test]
fn global_git_approval_works_when_pending_lacks_project_root() {
    let (mut store, decision) = git_decision(None);
    let step = decide(&mut store, decision, true);
    let DecisionStep::Filesystem(Decided::Apply { op, pending }) = step else {
        panic!("a global approval is to be put in force");
    };
    assert_eq!(op.path, "./.git");
    let delivery =
        store.complete_filesystem_decision(pending, &op, DecisionAction::Approve, true, 100);
    assert!(delivery.is_none());
    assert_eq!(store.pending.len(), 0);
}

#[test]
fn global_filesystem_git_dir_persists_project_relative_path() {
    let (mut store, decision) = git_decision(Some("/home/user/dotfiles"));
    let step = decide(&mut store, decision, true);
    let DecisionStep::Filesystem(Decided::Apply { op, .. }) = step else {
        panic!("a global approval is to be put in force");
    };
    let less = |a: &FilesystemRule, b: &FilesystemRule| a.path < b.path;
    let policy =
        persist_filesystem_rule(Policy::empty(), &op.path, op.access, "test", true, &less);
    assert!(policy
        .filesystem
        .allow
        .iter()
        .any(|rule| rule.path == "./.git" && rule.access.covers(FileAccess::ReadWrite)));
}

#[test]
fn global_resource_dev_fd_glob_persists_to_policy_json() {
    let mut store = store();
    let connect = ResourceAccess::Socket(SocketAccess::Connect);
    let id = put(
        &mut store,
        Pending::Resource(PendingResource {
            id: "rs-devfd".into(),
            created_at: 0,
            kind: ResourceKind::UnixSocket,
            path: "/dev/fd/3".into(),
            access: connect,
            context: PendingContext { home: Some("/home/user".into()), ..no_context() },
        }),
    );
    let target = Some(ApprovalTarget::ResourcePath {
        resource_kind: ResourceKind::UnixSocket,
        path: "/dev/fd/*".into(),
    });
    let step = decide(
        &mut store,
        decision(&id, ApprovalScope::Global, target, wire(None, None), 1, None),
        true,
    );
    let DecisionStep::Resource(Decided::Apply { op, .. }) = step else {
        panic!("a global approval is to be put in force");
    };
    let less = |a: &ResourceRule, b: &ResourceRule| a.path < b.path;
    let policy = persist_resource_rule(
        Policy::empty(),
        &PersistResourceRuleArgs {
            kind: op.kind,
            rule_path: &op.path,
            access: op.access,
            label: "test",
            allow_rule: true,
        },
        &less,
    );
    assert!(policy.resources.allow.iter().any(|rule| {
        rule.kind == ResourceKind::UnixSocket
            && rule.path == "/dev/fd/*"
            && rule.access == connect
    }));
}

fn dbus(path: &str, interface: &str, member: &str) -> DbusTarget {
    DbusTarget {
        bus: "session".into(),
        destination: Some("org.example.Service".into()),
        object_path: Some(path.into()),
        interface: Some(interface.into()),
        member: Some(member.into()),
        message_kind: "method_call".into(),
        signature: Some("s".into()),
        fd_metadata: Vec::new(),
    }
}

fn requested_dbus() -> DbusTarget {
    dbus("/org/example/Object", "org.example.Interface", "Read")
}

#[test]
fn dbus_once_approval_caches_encoded_pending_path() {
    let mut store = store();
    let path = "@dbus:{encoded}".to_string();
    let id = put(
        &mut store,
        Pending::Dbus(PendingDbus {
            id: "dbus:once".into(),
            created_at: 0,
            target: requested_dbus(),
            path: path.clone(),
            context: context(None),
        }),
    );
    add_ui(&mut store, 1, "ui-session", None);
    let ctx = ResolvedRequestContext {
        paths: SandboxPaths::from_wire(
            Some("/repo".into()),
            Some("/home/user".into()),
            Some("/repo".into()),
        ),
        ids: ProcessIds::from_options(Some(123), Some(1000)),
        sandbox_session_id: None,
        package: None,
    };
    let step = decide(
        &mut store,
        decision(
            &id,
            ApprovalScope::Once,
            Some(ApprovalTarget::Dbus(requested_dbus())),
            ScopeWire::from_resolved(&ctx, None),
            1,
            Some(1000),
        ),
        true,
    );
    assert!(matches!(
        step,
        DecisionStep::Dbus(Decided::Done { reply: ScopeActionReply::Dbus { .. }, .. })
    ));
    let key = |path: &str| ResourceRuleKey {
        kind: ResourceKind::UnixSocket,
        path: path.into(),
        access: ResourceAccess::Socket(SocketAccess::All),
    };
    assert!(store.caches.resource.contains(&key(&path)));
    assert!(!store.caches.resource.contains(&key("@dbus")));
}

#[test]
fn dbus_global_approval_with_comment_persists_edited_target() {
    let mut store = store();
    let id = put(
        &mut store,
        Pending::Dbus(PendingDbus {
            id: "dbus-global-comment".into(),
            created_at: 0,
            target: requested_dbus(),
            path: "@dbus:placeholder".into(),
            context: context(None),
        }),
    );
    add_ui(&mut store, 1, "ui-session", None);
    let step = decide(
        &mut store,
        decision(
            &id,
            ApprovalScope::Global,
            Some(ApprovalTarget::Dbus(dbus("*", "*", "*"))),
            ScopeWire { comment: Some("allow introspect".into()), ..wire(None, None) },
            1,
            Some(1000),
        ),
        true,
    );
    let DecisionStep::Dbus(Decided::Apply { op, .. }) = step else {
        panic!("a global approval is to be put in force");
    };
    assert_eq!(op.target, dbus("*", "*", "*"));
    assert_eq!(op.wire.comment.as_deref(), Some("allow introspect"));
}

#[test]
fn dbus_target_must_cover_the_request() {
    let pending = PendingDbus {
        id: "d".into(),
        created_at: 0,
        target: requested_dbus(),
        path: "@dbus:x".into(),
        context: no_context(),
    };
    let other = dbus("/org/example/Object", "org.example.Interface", "Write");
    assert_eq!(
        resolve_pending_dbus_target(&pending, &Some(ApprovalTarget::Dbus(other)), &dbus_covers),
        Err(PolicydError::InvalidDecisionTarget)
    );
    assert_eq!(
        resolve_pending_dbus_target(&pending, &None, &dbus_covers),
        Ok(requested_dbus())
    );
}

fn main_rs(sandbox: Option<&str>) -> Pending {
    Pending::Filesystem(pending_file(
        "/home/user/projects/foo/src/main.rs",
        FileAccess::Read,
        context(sandbox),
    ))
}

/// Approve the project of the waiting file for a session, put the rule in force under the session
/// that the approval was bound to, and name that session.
fn session_approval(store: &mut PolicyStore) -> Option<String> {
    let id = put(store, main_rs(None));
    let step = decide(
        store,
        decision(
            &id,
            ApprovalScope::Session,
            file_target("/home/user/projects/foo"),
            wire(Some("ui-session"), None),
            1,
            None,
        ),
        true,
    );
    let DecisionStep::Filesystem(Decided::Apply { op, pending }) = step else {
        panic!("a session approval is to be put in force");
    };
    assert_eq!(op.path, "/home/user/projects/foo");
    store.complete_filesystem_decision(pending, &op, DecisionAction::Approve, true, 100);
    let session = op.wire.session_id?;
    let rule = FilesystemRuleKey { path: op.path, access: op.access };
    store.session.filesystem_allow.insert(session.clone(), vec![rule]);
    Some(session)
}

fn session_reads(store: &PolicyStore, path: &str) -> bool {
    let covers = |rule: &FilesystemRule, root: &Option<String>| {
        path_covers(&rule.path, path, root) && rule.access.covers(FileAccess::Read)
    };
    let sessions = store.ui.active_session_ids();
    store.session_filesystem_allowed(&Some("/repo".into()), &None, &sessions, &covers)
}

#[test]
fn filesystem_session_approval_binds_to_submitting_session() {
    let mut store = store();
    add_ui(&mut store, 1, "ui-session", None);
    assert_eq!(session_approval(&mut store).as_deref(), Some("ui-session"));
    assert!(store.session.filesystem_allow.contains(&"ui-session".to_string()));
    assert!(session_reads(&store, "/home/user/projects/foo/src/lib.rs"));
    assert!(!session_reads(&store, "/home/user/projects/bar/src/lib.rs"));
}

#[test]
fn filesystem_session_approval_keeps_standalone_session() {
    let mut store = store();
    add_ui(&mut store, 1, "ui-session", None);
    add_ui(&mut store, 2, "another-session", None);
    assert_eq!(session_approval(&mut store).as_deref(), Some("ui-session"));
    assert!(store.session.filesystem_allow.contains(&"ui-session".to_string()));
    assert!(!store.session.filesystem_allow.contains(&"another-session".to_string()));
    assert!(session_reads(&store, "/home/user/projects/foo/src/lib.rs"));
}

#[test]
fn a_session_decision_without_a_session_goes_to_the_first() {
    let bound = scope_wire_for_pending(
        wire(None, None),
        &context(None),
        ApprovalScope::Session,
        &vec!["b".into(), "a".into()],
    );
    assert_eq!(bound.session_id.as_deref(), Some("a"));
    let unbound = scope_wire_for_pending(
        wire(None, None),
        &context(None),
        ApprovalScope::Global,
        &vec!["b".into(), "a".into()],
    );
    assert_eq!(unbound.session_id, None);
}

#[test]
fn sandbox_session_pending_rejects_foreign_host_uid() {
    let mut store = store();
    add_sandbox(&mut store);
    let id = put(&mut store, main_rs(Some("sandbox-a")));
    let step = decide(
        &mut store,
        decision(
            &id,
            ApprovalScope::Once,
            None,
            ScopeWire { owner_uid: Some(1001), ..wire(None, Some("sandbox-a")) },
            99,
            Some(1001),
        ),
        true,
    );
    let DecisionStep::Refused(error) = step else {
        panic!("a foreign user's approval must be refused");
    };
    assert_eq!(error.message(), "approval not authorized for this connection");
    assert_eq!(store.pending.len(), 1);
    assert!(matches!(store.pending.get(&id), Some(Pending::Filesystem(_))));
}

#[test]
fn cross_connection_approve_rejects_foreign_sandbox_ui() {
    let mut store = store();
    add_ui(&mut store, 1, "ui-b", Some("sandbox-b"));
    let id = put(&mut store, main_rs(Some("sandbox-a")));
    let step = decide(
        &mut store,
        decision(&id, ApprovalScope::Once, None, wire(Some("ui-b"), None), 1, None),
        true,
    );
    let DecisionStep::Refused(error) = step else {
        panic!("a foreign UI's approval must be refused");
    };
    assert_eq!(error.message(), "approval not authorized for this connection");
    assert_eq!(store.pending.len(), 1);
    assert!(matches!(store.pending.get(&id), Some(Pending::Filesystem(_))));
}

#[test]
fn sandbox_session_pending_allows_matching_uifd_approval() {
    let mut store = store();
    add_ui(&mut store, 1, "ui-a", Some("sandbox-a"));
    let id = put(&mut store, main_rs(Some("sandbox-a")));
    store.waiters.filesystem.insert(id.clone(), vec![7]);
    let step = decide(
        &mut store,
        decision(&id, ApprovalScope::Once, None, wire(Some("ui-a"), None), 1, None),
        true,
    );
    let DecisionStep::Filesystem(Decided::Done { delivery: Some(delivery), .. }) = step else {
        panic!("the sandbox's own UI decides");
    };
    assert_eq!(delivery.told, vec![7]);
    assert!(delivery.reply.allowed);
    assert!(!store.pending.contains(&id));
}

#[test]
fn sandbox_session_pending_allows_host_owner_cli_approval() {
    let mut store = store();
    add_sandbox(&mut store);
    let id = put(&mut store, main_rs(Some("sandbox-a")));
    let step = decide(
        &mut store,
        decision(
            &id,
            ApprovalScope::Once,
            None,
            wire(None, Some("sandbox-a")),
            99,
            Some(1000),
        ),
        true,
    );
    assert!(matches!(step, DecisionStep::Filesystem(Decided::Done { .. })));
}

#[test]
fn session_network_rules_do_not_cross_sandbox_sessions_in_same_project() {
    let mut store = store();
    add_ui(&mut store, 10, "ui-a", Some("sandbox-a"));
    add_ui(&mut store, 11, "ui-b", Some("sandbox-b"));
    store.session.session_allow.insert(
        "ui-a".into(),
        vec![NetworkRuleKey { host: "api.example.com".into(), port: 443 }],
    );
    let keys = vec![NetworkRuleKey { host: "api.example.com".into(), port: 443 }];
    assert!(store.session_allowed(&keys, 443, &vec!["ui-a".into()], &host_matches));
    assert!(!store.session_allowed(&keys, 443, &vec!["ui-b".into()], &host_matches));
    assert!(session_network_matches(&keys, &keys, 443, &host_matches));
}

#[test]
fn an_unknown_request_is_not_decided() {
    let mut store = store();
    let step = decide(
        &mut store,
        decision("nope", ApprovalScope::Once, None, wire(None, None), 1, None),
        true,
    );
    assert!(matches!(step, DecisionStep::Refused(PolicydError::UnknownPendingId)));
}

#[test]
fn a_wrong_target_leaves_the_request_pending() {
    let mut store = store();
    let id = put(&mut store, Pending::Network(pending_network("example.com")));
    let step = decide(
        &mut store,
        decision(
            &id,
            ApprovalScope::Session,
            Some(ApprovalTarget::NetworkHost("other.example".into())),
            wire(None, None),
            1,
            None,
        ),
        true,
    );
    assert!(matches!(
        step,
        DecisionStep::Network(Decided::Refused(PolicydError::InvalidDecisionTarget))
    ));
    assert!(store.pending.contains(&id));
}

#[test]
fn a_network_denial_tells_every_waiter() {
    let mut store = store();
    let id = put(&mut store, Pending::Network(pending_network("example.com")));
    store.waiters.network.insert(
        id.clone(),
        vec![
            NetworkWaiter { proxy: None, waiter: 3 },
            NetworkWaiter { proxy: None, waiter: 4 },
        ],
    );
    let step = decide(
        &mut store,
        decision(&id, ApprovalScope::Once, None, wire(None, None), 1, None),
        false,
    );
    let DecisionStep::Network(Decided::Apply { op, pending }) = step else {
        panic!("a denial is to be put in force");
    };
    let delivery = store
        .complete_network_decision(pending, &op, DecisionAction::Deny, true, 100)
        .expect("the callers are told");
    assert_eq!(delivery.reply.source, VerdictSource::User);
    assert_eq!(delivery.told, vec![3, 4]);
    assert!(!delivery.reply.allowed);
    assert_eq!(store.pending.len(), 0);
    assert_eq!(store.waiters.network.len(), 0);
}

fn put_in_force(approve: bool) -> (PolicyStore, Option<bool>) {
    let mut store = store();
    let id = put(&mut store, Pending::Network(pending_network("example.com")));
    store.waiters.network.insert(id.clone(), vec![NetworkWaiter { proxy: None, waiter: 3 }]);
    let step = decide(
        &mut store,
        decision(&id, ApprovalScope::Global, None, wire(None, None), 1, None),
        approve,
    );
    let DecisionStep::Network(Decided::Apply { op, pending }) = step else {
        panic!("a global decision is to be put in force");
    };
    assert!(!store.pending.contains(&id));
    let action = if approve { DecisionAction::Approve } else { DecisionAction::Deny };
    let told = store.complete_network_decision(pending, &op, action, false, 100);
    (store, told.map(|delivery| delivery.reply.allowed))
}

#[test]
fn an_approval_that_fails_blocks_the_request() {
    let (store, told) = put_in_force(true);
    assert_eq!(told, Some(false));
    assert_eq!(store.pending.len(), 0);
}

#[test]
fn a_denial_that_fails_leaves_the_request_pending() {
    let (store, told) = put_in_force(false);
    assert_eq!(told, None);
    assert!(store.pending.contains(&"p1".to_string()));
    assert!(store.waiters.network.contains(&"p1".to_string()));
}

#[test]
fn an_approved_command_is_run_and_its_result_handed_on() {
    let mut store = store();
    let id = put(&mut store, Pending::Elevation(pending_elevation(&["id", "-u"])));
    store.waiters.elevation.insert(id.clone(), 9);
    let step = decide(
        &mut store,
        decision(&id, ApprovalScope::Once, None, wire(None, None), 1, None),
        true,
    );
    let DecisionStep::Elevation(SudoDecided::Execute(run)) = step else {
        panic!("an approved command is to be run");
    };
    assert_eq!(run.argv, vec!["id".to_string(), "-u".to_string()]);
    let result = Ok(ElevateReply::Executed {
        exit_code: 0,
        stdout: "0\n".into(),
        stderr: String::new(),
    });
    let (_, delivery) = store.complete_elevation(run, result).expect("the command ran");
    assert_eq!(delivery.expect("the waiter is told").told, 9);
    assert_eq!(store.pending.len(), 0);
}

#[test]
fn a_saved_command_rule_runs_after_it_is_saved() {
    let mut store = store();
    let id = put(&mut store, Pending::Elevation(pending_elevation(&["id", "-u"])));
    let target = Some(ApprovalTarget::SudoCommand(vec!["id".into()]));
    let step = decide(
        &mut store,
        decision(&id, ApprovalScope::Global, target, wire(None, None), 1, None),
        true,
    );
    let DecisionStep::Elevation(SudoDecided::Apply { op, pending }) = step else {
        panic!("a global approval is to be put in force");
    };
    assert_eq!(op.argv, vec!["id".to_string()]);
    let applied = store.complete_sudo_scope(
        pending,
        op,
        DecisionAction::Approve,
        ScopeResult::Succeeded { path: Some("/home/user/policy.json".into()) },
    );
    let SudoApplied::Execute(run) = applied else {
        panic!("the command runs once the rule is saved");
    };
    assert_eq!(run.saved.as_deref(), Some("/home/user/policy.json"));
}

#[test]
fn a_denied_host_is_not_approved() {
    let mut policy = Policy::empty();
    policy.network.direct.deny.push(NetworkRule::new("*.evil.example".into(), 443, ""));
    let request = |host: &str| HostApproveRequest {
        host: host.into(),
        port: 443,
        scope: ApprovalScope::Session,
        session_id: None,
        ctx: ResolvedRequestContext {
            paths: SandboxPaths::default(),
            ids: ProcessIds::default(),
            sandbox_session_id: None,
            package: None,
        },
    };
    let lower = |host: &String| host.to_lowercase();
    assert!(matches!(
        approve_host(&policy, &request("A.Evil.Example"), &lower, &host_matches),
        Err(PolicydError::HostDeniedByPolicy)
    ));
    assert!(matches!(
        approve_host(&policy, &request(""), &lower, &host_matches),
        Err(PolicydError::HostRequired)
    ));
    let op = approve_host(&policy, &request("Good.Example"), &lower, &host_matches)
        .expect("the host is not denied");
    assert_eq!((op.host.as_str(), op.port), ("good.example", 443));
}

#[test]
fn decisions_are_audited_by_verb() {
    assert_eq!(DecisionAction::Approve.audit_verb(), "approve");
    assert_eq!(DecisionAction::Deny.audit_verb(), "deny");
}

#[test]
fn a_decision_is_remembered_for_a_file() {
    let mut store = store();
    let id = put(&mut store, main_rs(None));
    let step = decide(
        &mut store,
        decision(&id, ApprovalScope::Once, None, wire(None, None), 1, None),
        false,
    );
    assert!(matches!(step, DecisionStep::Filesystem(Decided::Done { .. })));
    let reply = store
        .check_filesystem_verdict_cache(
            &"/home/user/projects/foo/src/main.rs".to_string(),
            FileAccess::Read,
            false,
            &|_: &String| false,
            101,
        )
        .expect("a denial is remembered for a while");
    assert!(!reply.allowed);
    assert_eq!(reply.source, VerdictSource::User);
}

#[test]
fn a_dbus_decision_put_in_force_tells_its_callers() {
    let mut store = store();
    let id = put(
        &mut store,
        Pending::Dbus(PendingDbus {
            id: "dbus:global".into(),
            created_at: 0,
            target: requested_dbus(),
            path: "@dbus:{encoded}".into(),
            context: context(None),
        }),
    );
    store.waiters.resource.insert(id.clone(), vec![9]);
    let step = decide(
        &mut store,
        decision(&id, ApprovalScope::Global, None, wire(None, None), 1, None),
        true,
    );
    let DecisionStep::Dbus(Decided::Apply { op, pending }) = step else {
        panic!("a global approval is to be put in force");
    };
    assert_eq!(op.scope, ApprovalScope::Global);
    let access = ResourceAccess::Socket(SocketAccess::All);
    let told = store
        .complete_dbus_decision(
            pending,
            ApprovalScope::Global,
            DecisionAction::Approve,
            access,
            true,
            100,
        )
        .expect("the caller is told");
    assert_eq!(told.told, vec![9]);
    assert!(told.reply.allowed);
    assert_eq!(told.reply.source, VerdictSource::Scope(ApprovalScope::Global));
    assert_eq!(told.reply.path, "@dbus:{encoded}");
    assert_eq!(store.waiters.resource.len(), 0);
}

#[test]
fn a_resource_decision_that_fails_is_taken_again() {
    let mut store = store();
    let id = put(
        &mut store,
        Pending::Resource(PendingResource {
            id: "resource:1".into(),
            created_at: 0,
            kind: ResourceKind::UnixSocket,
            path: "/run/example.sock".into(),
            access: ResourceAccess::Socket(SocketAccess::Connect),
            context: context(None),
        }),
    );
    store.waiters.resource.insert(id.clone(), vec![4]);
    let step = decide(
        &mut store,
        decision(&id, ApprovalScope::Global, None, wire(None, None), 1, None),
        false,
    );
    let DecisionStep::Resource(Decided::Apply { op, pending }) = step else {
        panic!("a global denial is to be put in force");
    };
    let told = store.complete_resource_decision(pending, &op, DecisionAction::Deny, false, 100);
    assert!(told.is_none());
    assert!(store.pending.contains(&id));
    let step = decide(
        &mut store,
        decision(&id, ApprovalScope::Global, None, wire(None, None), 1, None),
        false,
    );
    let DecisionStep::Resource(Decided::Apply { op, pending }) = step else {
        panic!("a global denial is to be put in force");
    };
    let told = store
        .complete_resource_decision(pending, &op, DecisionAction::Deny, true, 100)
        .expect("the caller is told");
    assert_eq!(told.told, vec![4]);
    assert!(!told.reply.allowed);
    assert_eq!(told.reply.source, VerdictSource::Scope(ApprovalScope::Global));
    assert!(!store.pending.contains(&id));
}
