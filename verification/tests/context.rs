//! Sandbox sessions, contexts and the policy that a context sees.

use policyd::context::{
    nix_export, read_proc_ppid, read_proc_start_time_ticks, validate_package_name, HostFacts,
    LayerSource, MtimeKey, ProcessQuery, TrustedPeer,
};
use policyd::error::PolicydError;
use policyd::evaluator::{FilesystemQuery, NetworkQuery};
use policyd::merge::MergedCache;
use policyd::rules::{policy_denied, sudo_policy_allowed};
use policyd::state::{NetworkRuleKey, SandboxSessionRegistration};
use policyd::store::{Limits, PolicyStore, PolicydArgs};
use policyd::types::{
    FileAccess, FilesystemRule, MergeContext, NetworkRule, Policy, ProcessIds,
    ResolvedRequestContext, SandboxPaths, SudoRule,
};

fn store() -> PolicyStore {
    PolicyStore::new(
        PolicydArgs {
            host_socket: "/tmp/test.sock".into(),
            sandbox_socket: "/tmp/test-sandbox.sock".into(),
            proxy_socket: None,
            proxy_gid: None,
            declarative: "/tmp/declarative.json".into(),
            export_json: "/tmp/export.json".into(),
            export_nix: None,
            approval_timeout: 30_000_000_000,
            interactive_approval: true,
            ui_spawn_cmd: None,
            package_declarative: Vec::new(),
            fs_monitor_cmd: None,
            syscall_broker_cmd: None,
        },
        Limits {
            pending_approvals: 64,
            waiters_per_pending: 64,
            static_allow_rules: 64,
            proxy_flows: 64,
            verdict_cache: 64,
        },
        None,
    )
}

/// The process tree of the tests: 1 - 30 (launcher) - 40 (broker) - 50 (root) - 60.
fn descends(ancestor: &u32, pid: &u32) -> bool {
    let line = [1, 30, 40, 50, 60];
    let at = |p: &u32| line.iter().position(|x| x == p);
    match (at(ancestor), at(pid)) {
        (Some(a), Some(b)) => a <= b,
        _ => false,
    }
}

fn no_session(_: &u32) -> Option<String> {
    None
}

fn home(uid: &u32) -> Option<String> {
    Some(format!("/home/{uid}"))
}

fn cwd(query: &ProcessQuery) -> Option<String> {
    Some(format!("/cwd/{}", query.pid))
}

/// The line that the kernel keeps of a process.
fn stat(pid: u32, parent: u32, start: u64) -> Option<String> {
    Some(format!("{pid} (x y) S {parent} 1 1 0 -1 4 0 0 0 0 0 0 0 0 20 0 1 0 {start} 0 0\n"))
}

fn register(
    store: &mut PolicyStore,
    package: &str,
    owner_uid: u32,
    launcher_pid: u32,
    peer_stat: Option<String>,
) -> Result<(), PolicydError> {
    store.register_sandbox(
        &"sandbox-a".to_string(),
        &package.to_string(),
        owner_uid,
        launcher_pid,
        &peer_stat,
        &stat(30, 1, 77),
    )
}

fn session(store: &PolicyStore) -> &SandboxSessionRegistration {
    store.sandbox_sessions.get(&"sandbox-a".to_string()).expect("registration exists")
}

fn named(pid: Option<u32>, uid: Option<u32>, session: Option<&str>) -> MergeContext {
    MergeContext {
        paths: SandboxPaths::default(),
        ids: ProcessIds::from_options(pid, uid),
        sandbox_session_id: session.map(String::from),
    }
}

fn resolve(
    store: &PolicyStore,
    ctx: &MergeContext,
    peer: Option<TrustedPeer>,
) -> ResolvedRequestContext {
    let facts =
        HostFacts { descends: &descends, session: &no_session, home: &home, cwd: &cwd };
    store.resolve_context_with_peer(ctx, peer, &facts)
}

fn forged_paths() -> SandboxPaths {
    SandboxPaths::from_wire(
        Some("/attacker/cwd".into()),
        Some("/attacker/home".into()),
        Some("/attacker/project".into()),
    )
}

#[test]
fn sandbox_peer_ignores_forged_wire_paths() {
    let store = store();
    let wire = MergeContext {
        paths: forged_paths(),
        ids: ProcessIds::from_options(Some(0), Some(1000)),
        sandbox_session_id: None,
    };
    let resolved = resolve(&store, &wire, Some(TrustedPeer { pid: 0, uid: 1000 }));
    assert_eq!(resolved.paths.home.as_deref(), Some("/home/1000"));
    assert_ne!(resolved.paths.home.as_deref(), Some("/attacker/home"));
    assert_eq!(resolved.paths.project_root, None);
}

#[test]
fn root_helper_preserves_display_paths_but_not_project_root() {
    let store = store();
    let wire = MergeContext {
        paths: SandboxPaths::from_wire(
            Some("/home/user".into()),
            Some("/home/user".into()),
            Some("/home/user/project".into()),
        ),
        ids: ProcessIds::from_options(None, None),
        sandbox_session_id: Some("sandbox-session".into()),
    };
    let resolved = resolve(&store, &wire, Some(TrustedPeer { pid: 42_000, uid: 0 }));
    assert_eq!(resolved.paths.home.as_deref(), Some("/home/user"));
    assert_eq!(resolved.paths.cwd.as_deref(), Some("/home/user"));
    assert_eq!(resolved.paths.project_root, None);
    assert_eq!(resolved.sandbox_session_id.as_deref(), Some("sandbox-session"));
}

#[test]
fn wire_tracee_pid_preferred_over_broker_peer() {
    let store = store();
    let wire = named(Some(50), Some(1000), None);
    let resolved = resolve(&store, &wire, Some(TrustedPeer { pid: 40, uid: 1000 }));
    assert_eq!(resolved.ids.pid, Some(50));
}

fn codex(store: &mut PolicyStore) {
    store.sandbox_sessions.insert(
        "broker-session".into(),
        SandboxSessionRegistration {
            root_pid: 50,
            owner_uid: 1000,
            package: Some("codex".into()),
            launcher_pid: 30,
            launcher_start_time_ticks: 77,
        },
    );
}

#[test]
fn broker_peer_above_adopted_root_is_attributed() {
    let mut store = store();
    codex(&mut store);
    let wire = named(Some(2_147_483_647), None, Some("broker-session"));
    let resolved = resolve(&store, &wire, Some(TrustedPeer { pid: 40, uid: 1000 }));
    assert_eq!(resolved.package.as_deref(), Some("codex"));
}

#[test]
fn broker_tracee_beside_root_is_attributed() {
    let mut store = store();
    codex(&mut store);
    let wire = named(Some(40), None, Some("broker-session"));
    let resolved = resolve(&store, &wire, Some(TrustedPeer { pid: 40, uid: 1000 }));
    assert_eq!(resolved.package.as_deref(), Some("codex"));
}

#[test]
fn register_sandbox_stores_package_and_owner() {
    let mut store = store();
    register(&mut store, "omp", 1000, 30, stat(40, 30, 80)).expect("register sandbox");
    assert_eq!(session(&store).package.as_deref(), Some("omp"));
    assert_eq!(session(&store).owner_uid, 1000);
}

#[test]
fn register_sandbox_stores_launcher_pid() {
    let mut store = store();
    register(&mut store, "omp", 1000, 30, stat(40, 30, 80)).expect("register sandbox");
    assert_eq!(session(&store).launcher_pid, 30);
    assert_eq!(session(&store).launcher_start_time_ticks, 77);
}

#[test]
fn register_sandbox_rejects_mismatched_launcher_pid() {
    let mut store = store();
    let zero = register(&mut store, "omp", 1000, 0, stat(40, 30, 80));
    assert!(matches!(zero, Err(PolicydError::InvalidLauncherPid)));
    let wrong = register(&mut store, "omp", 1000, 31, stat(40, 30, 80));
    assert!(matches!(wrong, Err(PolicydError::InvalidLauncherPid)));
    let missing_peer = register(&mut store, "omp", 1000, 30, None);
    assert!(matches!(missing_peer, Err(PolicydError::InvalidLauncherPid)));
    assert!(store.sandbox_sessions.get(&"sandbox-a".to_string()).is_none());
}

#[test]
fn note_sandbox_peer_adopts_only_launcher_descendants() {
    let mut store = store();
    register(&mut store, "omp", 1000, 30, stat(40, 30, 80)).expect("register sandbox");
    let id = "sandbox-a".to_string();
    store.note_sandbox_peer(TrustedPeer { pid: 1, uid: 1000 }, &id, &descends);
    assert_eq!(session(&store).root_pid, 0);
    store.note_sandbox_peer(TrustedPeer { pid: 60, uid: 1000 }, &id, &descends);
    assert_eq!(session(&store).root_pid, 60);
    store.note_sandbox_peer(TrustedPeer { pid: 50, uid: 1000 }, &id, &descends);
    assert_eq!(session(&store).root_pid, 60);
}

#[test]
fn register_sandbox_rejects_different_package() {
    let mut store = store();
    register(&mut store, "omp", 1000, 30, stat(40, 30, 80)).expect("first registration");
    let result = register(&mut store, "other", 1000, 30, stat(40, 30, 80));
    assert!(matches!(result, Err(PolicydError::PackageImmutable)));
    assert_eq!(session(&store).package.as_deref(), Some("omp"));
}

#[test]
fn register_sandbox_same_package_re_registers() {
    let mut store = store();
    register(&mut store, "omp", 1000, 30, stat(40, 30, 80)).expect("first registration");
    register(&mut store, "omp", 2000, 30, stat(40, 30, 80)).expect("same-package registration");
    assert_eq!(session(&store).package.as_deref(), Some("omp"));
    assert_eq!(session(&store).owner_uid, 2000);
}

#[test]
fn register_sandbox_rejects_invalid_package_names() {
    let mut store = store();
    for package in ["", "a/b", "..", "a/../b", "bad\nname"] {
        let result = register(&mut store, package, 1000, 30, stat(40, 30, 80));
        assert!(
            matches!(result, Err(PolicydError::InvalidPackageName(_))),
            "package name {package:?} must be rejected, got: {result:?}"
        );
    }
    assert!(store.sandbox_sessions.get(&"sandbox-a".to_string()).is_none());
}

#[test]
fn a_refused_package_name_is_quoted() {
    let error = validate_package_name("bad\nname").expect_err("control characters are refused");
    assert!(error.message().starts_with("invalid package name: "));
    assert!(error.message().contains("\"bad\\nname\""));
    assert_eq!(validate_package_name("good-name_1.2"), Ok(()));
}

#[test]
fn note_sandbox_peer_preserves_package_and_adopts_root() {
    let mut store = store();
    register(&mut store, "omp", 1000, 30, stat(40, 30, 80)).expect("register sandbox");
    store.note_sandbox_peer(
        TrustedPeer { pid: 40, uid: 1000 },
        &"sandbox-a".to_string(),
        &descends,
    );
    assert_eq!(session(&store).package.as_deref(), Some("omp"));
    assert_eq!(session(&store).root_pid, 40);
}

#[test]
fn root_peers_and_unknown_processes_claim_no_session() {
    let mut store = store();
    let id = "sandbox-a".to_string();
    store.note_sandbox_peer(TrustedPeer { pid: 40, uid: 0 }, &id, &descends);
    store.note_sandbox_peer(TrustedPeer { pid: 0, uid: 1000 }, &id, &descends);
    assert!(store.sandbox_sessions.get(&id).is_none());
}

#[test]
fn proc_fields_follow_the_last_bracket() {
    assert_eq!(read_proc_ppid(&stat(40, 30, 80)), Some(30));
    assert_eq!(read_proc_start_time_ticks(&stat(40, 30, 80)), Some(80));
    assert_eq!(read_proc_ppid(&Some("40 (a) b) c) S 7 1".into())), Some(7));
    assert_eq!(read_proc_ppid(&Some("40 no bracket".into())), None);
    assert_eq!(read_proc_ppid(&None), None);
}

fn rule(path: &str) -> FilesystemRule {
    FilesystemRule::new(path.into(), FileAccess::Read, "test")
}

fn layer(allow: &[&str], deny: &[&str]) -> Policy {
    let mut policy = Policy::empty();
    for path in allow {
        policy.filesystem.allow.push(rule(path));
    }
    for path in deny {
        policy.filesystem.deny.push(rule(path));
    }
    policy
}

/// Merge layers: what some layer denies, no layer allows.
fn merge(layers: &Vec<Policy>) -> Policy {
    let mut merged = Policy::empty();
    for layer in layers {
        for rule in &layer.filesystem.deny {
            merged.filesystem.deny.push(rule_like(rule));
        }
    }
    for layer in layers {
        for rule in &layer.filesystem.allow {
            if !merged.filesystem.deny.iter().any(|d| d.path == rule.path) {
                merged.filesystem.allow.push(rule_like(rule));
            }
        }
        for rule in &layer.network.direct.deny {
            merged.network.direct.deny.push(NetworkRule::new(rule.host.clone(), rule.port, ""));
        }
        for rule in &layer.network.direct.allow {
            merged.network.direct.allow.push(NetworkRule::new(rule.host.clone(), rule.port, ""));
        }
        for rule in &layer.sudo.allow {
            merged.sudo.allow.push(SudoRule::new(rule.argv.clone(), "test"));
        }
    }
    merged
}

fn rule_like(rule: &FilesystemRule) -> FilesystemRule {
    FilesystemRule { path: rule.path.clone(), access: rule.access, comment: rule.comment.clone() }
}

fn package_store(packages: &[(&str, &str)]) -> PolicyStore {
    let mut store = store();
    store.args.declarative = "/d/declarative.json".into();
    store.args.package_declarative =
        packages.iter().map(|(name, path)| (name.to_string(), path.to_string())).collect();
    store
}

fn omp_context(package: Option<&str>) -> ResolvedRequestContext {
    ResolvedRequestContext {
        paths: SandboxPaths::from_wire(
            Some("/d/repo".into()),
            Some("/d/home".into()),
            Some("/d/repo".into()),
        ),
        ids: ProcessIds::default(),
        sandbox_session_id: Some("s1".into()),
        package: package.map(String::from),
    }
}

fn trusted() -> Option<String> {
    Some("/d/repo/.agent-sandbox/policy.json".into())
}

fn merged_from(
    store: &PolicyStore,
    ctx: &ResolvedRequestContext,
    files: &[(&str, &[&str], &[&str])],
) -> Policy {
    let load = |source: &LayerSource| match files.iter().find(|f| f.0 == source.path) {
        Some((_, allow, deny)) => layer(allow, deny),
        None => Policy::empty(),
    };
    store.build_merged_for(ctx, &trusted(), &load, &merge)
}

fn fs_allowed(merged: &Policy, path: &str) -> bool {
    merged.filesystem.allow.iter().any(|r| r.path == path && r.access == FileAccess::Read)
}

fn fs_denied(merged: &Policy, path: &str) -> bool {
    merged.filesystem.deny.iter().any(|r| r.path == path)
}

const HOME_EXTENSION: &str = "/d/home/.config/agent-sandbox/packages/omp.json";
const PROJECT_OMP: &str = "/d/repo/.agent-sandbox/packages/omp.json";

#[test]
fn attributed_session_merges_home_extension_allow() {
    let store = package_store(&[("omp", "/d/omp-base.json")]);
    let merged = merged_from(
        &store,
        &omp_context(Some("omp")),
        &[
            ("/d/omp-base.json", &["/granted/base"], &[]),
            (HOME_EXTENSION, &["/granted/home-ext"], &[]),
        ],
    );
    assert!(fs_allowed(&merged, "/granted/base"));
    assert!(fs_allowed(&merged, "/granted/home-ext"));
}

#[test]
fn package_merge_order_and_deny_wins() {
    let store = package_store(&[("omp", "/d/omp-base.json")]);
    let merged = merged_from(
        &store,
        &omp_context(Some("omp")),
        &[
            ("/d/declarative.json", &[], &["/d-global"]),
            ("/d/omp-base.json", &["/d-global", "/granted/base"], &["/d-package"]),
            (HOME_EXTENSION, &["/d-global", "/d-package", "/granted/ext"], &["/d-user"]),
            (
                "/d/home/.config/agent-sandbox/policy.json",
                &["/d-user", "/granted/user"],
                &["/d-project"],
            ),
            (
                "/d/repo/.agent-sandbox/policy.json",
                &["/d-project", "/granted/project"],
                &[],
            ),
            (PROJECT_OMP, &["/granted/pkg-project"], &[]),
        ],
    );
    for path in ["/d-global", "/d-package", "/d-user", "/d-project"] {
        assert!(fs_denied(&merged, path));
        assert!(!fs_allowed(&merged, path));
    }
    for path in [
        "/granted/base",
        "/granted/ext",
        "/granted/user",
        "/granted/project",
        "/granted/pkg-project",
    ] {
        assert!(fs_allowed(&merged, path));
    }
}

#[test]
fn layers_come_lowest_first() {
    let store = package_store(&[("omp", "/d/omp-base.json")]);
    let layers = store.policy_layers(&omp_context(Some("omp")), &trusted());
    let seen: Vec<(&str, bool)> =
        layers.iter().map(|l| (l.path.as_str(), l.of_project)).collect();
    assert_eq!(
        seen,
        vec![
            ("/d/declarative.json", false),
            ("/d/omp-base.json", false),
            (HOME_EXTENSION, false),
            ("/d/home/.config/agent-sandbox/policy.json", false),
            ("/d/repo/.agent-sandbox/policy.json", true),
            (PROJECT_OMP, true),
        ]
    );
}

#[test]
fn package_project_file_applies_only_to_matching_package() {
    let store = package_store(&[("omp", "/d/omp-base.json")]);
    let files: [(&str, &[&str], &[&str]); 2] = [
        (PROJECT_OMP, &["/omp-only"], &[]),
        ("/d/repo/.agent-sandbox/packages/codex.json", &["/codex-only"], &[]),
    ];
    let omp = merged_from(&store, &omp_context(Some("omp")), &files);
    assert!(fs_allowed(&omp, "/omp-only"));
    assert!(!fs_allowed(&omp, "/codex-only"));
    let codex = merged_from(&store, &omp_context(Some("codex")), &files);
    assert!(!fs_allowed(&codex, "/omp-only"));
}

#[test]
fn unattributed_session_sees_no_package_layer() {
    let store = package_store(&[("omp", "/d/omp-base.json")]);
    let merged = merged_from(
        &store,
        &omp_context(None),
        &[
            ("/d/omp-base.json", &["/granted/base"], &[]),
            (HOME_EXTENSION, &["/granted/home-ext"], &[]),
        ],
    );
    assert!(!fs_allowed(&merged, "/granted/base"));
    assert!(!fs_allowed(&merged, "/granted/home-ext"));
    assert!(!merged
        .filesystem
        .deny
        .iter()
        .any(|r| r.path == "/d/omp-base.json" || r.path.ends_with("packages/omp.json")));
}

#[test]
fn implicit_deny_list_covers_package_policy_files() {
    let store = package_store(&[("omp", "/d/omp-base.json")]);
    let ctx = omp_context(Some("omp"));
    let merged = merged_from(&store, &ctx, &[]);
    let denied: Vec<&str> = merged
        .filesystem
        .deny
        .iter()
        .filter(|r| r.comment.as_deref() == Some("trusted policy file"))
        .map(|r| r.path.as_str())
        .collect();
    for path in ["/d/declarative.json", "/d/omp-base.json", HOME_EXTENSION, PROJECT_OMP] {
        assert!(denied.contains(&path), "policy file {path} must be implicitly denied");
    }
    let base = "/d/omp-base.json".to_string();
    let query = FilesystemQuery {
        path: &base,
        access: FileAccess::Read,
        ctx: &ctx,
        policy: &merged,
        git_root: &None,
        sessions: &Vec::new(),
        identity: None,
    };
    let matches = |rule: &FilesystemRule, _: &Option<String>| {
        rule.path == base && rule.access.covers(FileAccess::Read)
    };
    assert!(
        store.filesystem_policy_denied(&query, &matches),
        "sandbox reads of the package base file must be denied"
    );
}

#[test]
fn the_project_policy_applies_without_a_home() {
    let store = package_store(&[]);
    let mut ctx = omp_context(None);
    ctx.paths.home = None;
    let merged =
        merged_from(&store, &ctx, &[("/d/repo/.agent-sandbox/policy.json", &[], &["/secret"])]);
    assert!(fs_denied(&merged, "/secret"));
}

#[test]
fn forged_home_does_not_load_policy_from_attacker_path() {
    let store = store();
    let forged = MergeContext {
        paths: SandboxPaths::from_wire(
            Some("/evil".into()),
            Some("/evil".into()),
            Some("/evil".into()),
        ),
        ids: ProcessIds::from_options(Some(0), Some(1000)),
        sandbox_session_id: None,
    };
    let resolved = resolve(&store, &forged, Some(TrustedPeer { pid: 0, uid: 1000 }));
    let load = |source: &LayerSource| {
        let mut policy = Policy::empty();
        if source.path.starts_with("/evil") {
            policy.sudo.allow.push(SudoRule::new(vec!["id".into()], "evil"));
        }
        policy
    };
    let merged = store.build_merged_for(&resolved, &None, &load, &merge);
    assert!(merged.sudo.allow.is_empty());
}

#[test]
fn forged_home_does_not_auto_elevate_via_attacker_policy() {
    let store = store();
    let forged = MergeContext {
        paths: SandboxPaths::from_wire(
            Some("/evil".into()),
            Some("/evil".into()),
            Some("/evil".into()),
        ),
        ids: ProcessIds::from_options(Some(0), Some(1000)),
        sandbox_session_id: None,
    };
    let resolved = resolve(&store, &forged, Some(TrustedPeer { pid: 0, uid: 1000 }));
    let load = |source: &LayerSource| {
        let mut policy = Policy::empty();
        if source.path == "/evil/.config/agent-sandbox/policy.json" {
            policy.sudo.allow.push(SudoRule::new(vec!["id".into()], "evil"));
        }
        policy
    };
    let merged = store.build_merged_for(&resolved, &None, &load, &merge);
    let matches = |rule: &SudoRule| rule.argv == vec!["id".to_string()];
    assert!(
        !sudo_policy_allowed(&merged, &matches),
        "forged home must not auto-approve elevation via attacker sudo policy"
    );
}

#[test]
fn package_file_mtime_change_invalidates_merged_cache() {
    let store = package_store(&[]);
    let ctx = omp_context(Some("omp"));
    let mut cache = MergedCache::new();
    let at = |secs: u64| {
        move |path: &String| {
            if path == HOME_EXTENSION {
                Some(MtimeKey { secs, nanos: 0 })
            } else {
                None
            }
        }
    };
    let load = |grant: &'static str| {
        move |source: &LayerSource| {
            if source.path == HOME_EXTENSION {
                layer(&[grant], &[])
            } else {
                Policy::empty()
            }
        }
    };
    let trusted = trusted();
    let first =
        store.merged_for(&mut cache, &ctx, &trusted, &at(1), &load("/granted/v1"), &merge);
    assert!(fs_allowed(first, "/granted/v1"));
    let unchanged =
        store.merged_for(&mut cache, &ctx, &trusted, &at(1), &load("/granted/v2"), &merge);
    assert!(fs_allowed(unchanged, "/granted/v1"));
    let changed =
        store.merged_for(&mut cache, &ctx, &trusted, &at(3), &load("/granted/v2"), &merge);
    assert!(fs_allowed(changed, "/granted/v2"));
    assert!(!fs_allowed(changed, "/granted/v1"));
    cache.invalidate_merged_policy_cache();
    let again =
        store.merged_for(&mut cache, &ctx, &trusted, &at(1), &load("/granted/v3"), &merge);
    assert!(fs_allowed(again, "/granted/v3"));
}

#[test]
fn forged_session_id_does_not_inherit_package_policy() {
    let mut store = package_store(&[("omp", "/d/omp-base.json")]);
    register(&mut store, "omp", 1000, 30, stat(40, 30, 80)).expect("register sandbox");
    store.note_sandbox_peer(
        TrustedPeer { pid: 40, uid: 1000 },
        &"sandbox-a".to_string(),
        &descends,
    );
    let files: [(&str, &[&str], &[&str]); 1] = [("/d/omp-base.json", &["/granted/base"], &[])];
    let as_peer = |pid: u32, wire: u32, uid: u32| {
        let ctx = named(Some(wire), Some(uid), Some("sandbox-a"));
        resolve(&store, &ctx, Some(TrustedPeer { pid, uid }))
    };
    let legit = as_peer(40, 40, 1000);
    assert_eq!(legit.package.as_deref(), Some("omp"));
    assert!(fs_allowed(&merged_from(&store, &legit, &files), "/granted/base"));
    let forged = as_peer(30, 30, 2000);
    assert_eq!(forged.package, None);
    assert!(!fs_allowed(&merged_from(&store, &forged, &files), "/granted/base"));
    let wrong_pid = as_peer(30, 30, 1000);
    assert_eq!(wrong_pid.package, None);
    assert!(!fs_allowed(&merged_from(&store, &wrong_pid, &files), "/granted/base"));
    let launcher_forged = as_peer(30, 40, 1000);
    assert_eq!(launcher_forged.package, None);
}

#[test]
fn the_export_lists_the_direct_rules() {
    let mut policy = Policy::empty();
    policy.network.direct.allow.push(NetworkRule::new("a\"b".into(), 443, ""));
    policy.network.direct.deny.push(NetworkRule::new("c".into(), 80, ""));
    assert_eq!(
        nix_export(&policy),
        "# Generated by agent-sandbox-policyd.\n{\n  network.direct.allow = [\n    { host = \"a\\\"b\"; port = 443; }\n  ];\n  network.direct.deny = [\n    { host = \"c\"; port = 80; }\n  ];\n}\n"
    );
}

#[test]
fn only_the_launcher_of_a_session_is_its_adapter() {
    let mut store = store();
    register(&mut store, "omp", 1000, 30, stat(40, 30, 80)).expect("the launcher registers");
    let id = "sandbox-a".to_string();
    let peer = |pid: u32, uid: u32| TrustedPeer { pid, uid };
    assert!(store.authenticates_context_adapter(&id, peer(30, 1000), &stat(30, 1, 77)));
    assert!(!store.authenticates_context_adapter(&id, peer(30, 1000), &stat(30, 1, 78)));
    assert!(!store.authenticates_context_adapter(&id, peer(30, 1000), &None));
    assert!(!store.authenticates_context_adapter(&id, peer(30, 1001), &stat(30, 1, 77)));
    assert!(!store.authenticates_context_adapter(&id, peer(40, 1000), &stat(30, 1, 77)));
    let other = "sandbox-b".to_string();
    assert!(!store.authenticates_context_adapter(&other, peer(30, 1000), &stat(30, 1, 77)));
}

#[test]
fn a_policy_is_exported_to_the_files_that_are_asked_for() {
    let mut store = store();
    let mut policy = Policy::empty();
    policy.network.direct.allow.push(NetworkRule::new("a.example".into(), 443, ""));
    let files = store.export_policy_files(&policy, "{}");
    assert_eq!(files.len(), 1);
    assert_eq!(files[0].path, "/tmp/export.json");
    assert_eq!(files[0].text, "{}\n");
    store.args.export_nix = Some("/tmp/export.nix".into());
    let files = store.export_policy_files(&policy, "{}");
    assert_eq!(files.len(), 2);
    assert_eq!(files[1].path, "/tmp/export.nix");
    assert_eq!(files[1].text, nix_export(&policy));
}

/// Whether a host is spelled by a pattern that may end in a star.
fn spelled(pattern: &String, host: &String) -> bool {
    match pattern.strip_suffix('*') {
        Some(start) => host.starts_with(start),
        None => pattern == host,
    }
}

/// The policy of a project whose trusted file denies a host.
fn project_denies(store: &PolicyStore, pattern: &'static str) -> Policy {
    let path = trusted().expect("a trusted file");
    let load = move |source: &LayerSource| {
        let mut policy = Policy::empty();
        if source.path == path {
            policy.network.direct.deny.push(NetworkRule::new(pattern.into(), 443, "test"));
        }
        policy
    };
    store.build_merged_for(&omp_context(None), &trusted(), &load, &merge)
}

fn host_allowed(store: &mut PolicyStore, policy: &Policy, host: &str) -> bool {
    let host = host.to_string();
    let keys = vec![NetworkRuleKey { host: host.clone(), port: 443 }];
    let sessions = Vec::new();
    let query =
        NetworkQuery { host: &host, port: 443, keys: &keys, sessions: &sessions, policy };
    store.is_allowed(&query, &spelled, false)
}

#[test]
fn trusted_project_policy_deny_applies() {
    let mut store = package_store(&[]);
    let policy = project_denies(&store, "34.230.40.*");
    assert!(policy_denied(&policy, &"34.230.40.69".into(), 443, &spelled));
    assert!(!host_allowed(&mut store, &policy, "34.230.40.69"));
}

#[test]
fn trusted_project_policy_ipv6_deny_applies() {
    let store = package_store(&[]);
    let policy = project_denies(&store, "2001:db8:*");
    assert!(policy_denied(&policy, &"2001:db8::1".into(), 443, &spelled));
}

#[test]
fn global_policy_is_re_read_after_manual_edit() {
    let mut store = package_store(&[]);
    let ctx = omp_context(None);
    let home_policy = "/d/home/.config/agent-sandbox/policy.json";
    let mut cache = MergedCache::new();
    let at = |secs: u64| {
        move |path: &String| {
            if path == home_policy { Some(MtimeKey { secs, nanos: 0 }) } else { None }
        }
    };
    let load = |hosts: &'static [&'static str]| {
        move |source: &LayerSource| {
            let mut policy = Policy::empty();
            if source.path == home_policy {
                for host in hosts {
                    policy.network.direct.allow.push(NetworkRule::new((*host).into(), 443, ""));
                }
            }
            policy
        }
    };
    let merged =
        store.merged_for(&mut cache, &ctx, &None, &at(1), &load(&["example.com"]), &merge);
    assert!(host_allowed(&mut store, merged, "example.com"));
    let merged = store.merged_for(&mut cache, &ctx, &None, &at(2), &load(&[]), &merge);
    assert!(!host_allowed(&mut store, merged, "example.com"));
}

#[test]
fn declarative_policy_is_denied_to_sandbox_requests() {
    let store = store();
    let ctx = omp_context(None);
    let nothing = |_: &LayerSource| Policy::empty();
    let policy = store.build_merged_for(&ctx, &None, &nothing, &merge);
    let path = "/tmp/declarative.json".to_string();
    let query = FilesystemQuery {
        path: &path,
        access: FileAccess::Read,
        ctx: &ctx,
        policy: &policy,
        git_root: &None,
        sessions: &Vec::new(),
        identity: None,
    };
    let matches = |rule: &FilesystemRule, _: &Option<String>| {
        rule.path == "/tmp/declarative.json" && rule.access.covers(FileAccess::Read)
    };
    assert!(
        store.filesystem_policy_denied(&query, &matches),
        "sandbox reads of declarative policy must be denied"
    );
}

#[test]
fn repo_local_policy_deny_applies() {
    let store = package_store(&[]);
    let policy = project_denies(&store, "34.230.40.*");
    assert!(policy_denied(&policy, &"34.230.40.69".into(), 443, &spelled));
}

#[test]
fn trusted_project_policy_deny_persists_after_reload() {
    let mut store = package_store(&[]);
    let ctx = omp_context(None);
    let file = trusted().expect("a trusted file");
    let mut cache = MergedCache::new();
    let at = |secs: u64| {
        let file = file.clone();
        move |path: &String| {
            if *path == file { Some(MtimeKey { secs, nanos: 0 }) } else { None }
        }
    };
    let load = |hosts: &'static [&'static str]| {
        let file = file.clone();
        move |source: &LayerSource| {
            let mut policy = Policy::empty();
            if source.path == file {
                for host in hosts {
                    policy.network.direct.deny.push(NetworkRule::new((*host).into(), 443, "test"));
                }
            }
            policy
        }
    };
    let host = "example.com".to_string();
    let merged =
        store.merged_for(&mut cache, &ctx, &trusted(), &at(1), &load(&["example.com"]), &merge);
    assert!(policy_denied(merged, &host, 443, &spelled));
    assert!(!host_allowed(&mut store, merged, "example.com"));
    let merged = store.merged_for(&mut cache, &ctx, &trusted(), &at(2), &load(&[]), &merge);
    assert!(!policy_denied(merged, &host, 443, &spelled));
}
