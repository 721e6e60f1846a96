//! Workspaces, bindings and claims.

use policyd::registry::{
    ActivationRecord, AttributionSource, ContextAdapterErrorCode, FileMeta,
    ProjectContextRegistry, WorkspaceActivation, WorkspaceProbe,
};
use policyd::store::{Limits, PolicyStore, PolicydArgs};

fn found(path: &str) -> WorkspaceProbe {
    WorkspaceProbe::Found {
        canonical_path: path.into(),
        meta: FileMeta { is_dir: true, uid: 1000, device: 1, inode: 2 },
    }
}

fn live(_: &ActivationRecord) -> bool {
    true
}

fn activate(registry: &mut ProjectContextRegistry, path: &str, fresh: u128) -> WorkspaceActivation {
    registry
        .activate(&"sandbox".to_string(), 1000, path, found(path), live, fresh)
        .expect("the workspace is the owner's")
}

#[test]
fn bindings_are_immutable_and_claims_do_not_fallback() {
    let mut registry = ProjectContextRegistry::default();
    let first = activate(&mut registry, "/repo", 1);
    let snapshot = registry
        .register_adapter(7, &"sandbox".to_string(), live)
        .expect("the adapter is the only one");
    assert_eq!(
        snapshot,
        vec![WorkspaceActivation { activation: 1, canonical_path: "/repo".into() }]
    );
    let binding = registry
        .bind_session(7, "thread".into(), first.activation, live, 2)
        .expect("the session is bound");
    assert_eq!(
        registry.bind_session(7, "thread".into(), first.activation, live, 3).unwrap(),
        binding
    );
    let claim = registry
        .begin_operation(7, "turn".into(), binding, first.activation, 100, live, 4)
        .expect("the operation begins");
    assert_eq!(
        registry.resolve_claim(7, claim, 100, live).unwrap().source,
        AttributionSource::OperationOverride
    );
    registry.release_claim_for(7, claim).unwrap();
    registry.release_claim_for(7, claim).unwrap();
    assert!(registry.resolve_claim(7, claim, 100, live).is_none());
    assert_eq!(
        registry.resolve_binding(7, binding, live).unwrap().source,
        AttributionSource::SessionBinding
    );
    registry.release_binding_for(7, binding).unwrap();
    registry.release_binding_for(7, binding).unwrap();
    assert!(registry.resolve_binding(7, binding, live).is_none());
}

#[test]
fn an_active_workspace_is_handed_out_again() {
    let mut registry = ProjectContextRegistry::with_epoch(1);
    assert_eq!(registry.boot_epoch(), 1);
    let first = activate(&mut registry, "/repo", 1);
    let again = activate(&mut registry, "/repo", 2);
    assert_eq!(first.activation, again.activation);
    let other = activate(&mut registry, "/other", 3);
    assert_eq!(other.activation, 3);
}

#[test]
fn a_dead_workspace_is_opened_anew() {
    let mut registry = ProjectContextRegistry::with_epoch(1);
    activate(&mut registry, "/repo", 1);
    let again = registry
        .activate(
            &"sandbox".to_string(),
            1000,
            "/repo",
            found("/repo"),
            |_: &ActivationRecord| false,
            2,
        )
        .expect("a dead workspace makes room");
    assert_eq!(again.activation, 2);
}

#[test]
fn a_foreign_directory_is_no_workspace() {
    let mut registry = ProjectContextRegistry::with_epoch(1);
    let foreign = WorkspaceProbe::Found {
        canonical_path: "/repo".into(),
        meta: FileMeta { is_dir: true, uid: 2000, device: 1, inode: 2 },
    };
    let file = WorkspaceProbe::Found {
        canonical_path: "/repo".into(),
        meta: FileMeta { is_dir: false, uid: 1000, device: 1, inode: 2 },
    };
    for probe in
        [foreign, file, WorkspaceProbe::NotCanonical, WorkspaceProbe::NotOpened, WorkspaceProbe::NoMetadata]
    {
        let refused =
            registry.activate(&"sandbox".to_string(), 1000, "/repo", probe, live, 1);
        assert!(refused.is_err());
    }
}

#[test]
fn a_second_adapter_of_a_sandbox_is_refused() {
    let mut registry = ProjectContextRegistry::with_epoch(1);
    registry.register_adapter(7, &"sandbox".to_string(), live).expect("the first");
    let refused = registry
        .register_adapter(8, &"sandbox".to_string(), live)
        .expect_err("the sandbox has an adapter");
    assert_eq!(refused.code, ContextAdapterErrorCode::Conflict);
    registry.disconnect_adapter(7);
    assert!(registry.register_adapter(8, &"sandbox".to_string(), live).is_ok());
}

#[test]
fn handles_of_another_connection_are_unknown() {
    let mut registry = ProjectContextRegistry::with_epoch(1);
    let workspace = activate(&mut registry, "/repo", 1);
    registry.register_adapter(7, &"sandbox".to_string(), live).expect("the first");
    let binding = registry
        .bind_session(7, "thread".into(), workspace.activation, live, 2)
        .expect("the session is bound");
    assert!(registry.resolve_binding(8, binding, live).is_none());
    assert!(registry.release_binding_for(8, binding).is_err());
    assert!(registry.bind_session(8, "thread".into(), workspace.activation, live, 3).is_err());
    registry.deactivate(workspace.activation);
    assert!(registry.resolve_binding(7, binding, live).is_none());
}

#[test]
fn a_claim_expires() {
    let mut registry = ProjectContextRegistry::with_epoch(1);
    let workspace = activate(&mut registry, "/repo", 1);
    registry.register_adapter(7, &"sandbox".to_string(), live).expect("the first");
    let binding = registry
        .bind_session(7, "thread".into(), workspace.activation, live, 2)
        .expect("the session is bound");
    let claim = registry
        .begin_operation(7, "turn".into(), binding, workspace.activation, 100, live, 4)
        .expect("the operation begins");
    let expires_at = registry.claims.get(&claim).expect("the claim is kept").expires_at;
    assert!(registry.resolve_claim(7, claim, expires_at - 1, live).is_some());
    registry.expire_claims(expires_at);
    assert!(registry.resolve_claim(7, claim, expires_at, live).is_none());
}

#[test]
fn a_workspace_lives_as_long_as_its_directory_is_the_same() {
    let record =
        ActivationRecord::open("sandbox".into(), 1000, "/repo", found("/repo")).expect("found");
    let meta = FileMeta { is_dir: true, uid: 1000, device: 1, inode: 2 };
    assert!(record.is_live(Some(meta), Some(meta)));
    assert!(!record.is_live(None, Some(meta)));
    assert!(!record.is_live(Some(meta), None));
    assert!(!record.is_live(Some(FileMeta { inode: 3, ..meta }), Some(meta)));
    assert!(!record.is_live(Some(FileMeta { is_dir: false, ..meta }), Some(meta)));
}

#[test]
fn the_store_keeps_the_workspaces_of_its_sandboxes() {
    let mut store = PolicyStore::new(args(), limits(), None);
    let sandbox = "sandbox".to_string();
    let first = store
        .activate_workspace(&sandbox, 1000, "/repo", found("/repo"), live, 1)
        .expect("the workspace is the owner's");
    let known = store.register_context_adapter(7, &sandbox, live).expect("the only adapter");
    assert_eq!(known.len(), 1);
    let binding = store
        .bind_project_session(7, "thread".into(), first.activation, live, 2)
        .expect("the session is bound");
    let claim = store
        .begin_project_operation(7, "turn".into(), binding, first.activation, 100, live, 3)
        .expect("the operation begins");
    let held = store.resolve_project_claim(7, claim, 100, live).expect("the claim is held");
    assert_eq!(held.canonical_path, "/repo");
    assert_eq!(store.release_project_claim(7, claim), Ok(()));
    assert!(store.resolve_project_claim(7, claim, 100, live).is_none());
    assert!(store.resolve_project_binding(7, binding, live).is_some());
    assert!(store.resolve_project_binding(8, binding, live).is_none());
    assert_eq!(store.release_project_binding(7, binding), Ok(()));
    assert!(store.resolve_project_binding(7, binding, live).is_none());
    store.disconnect_context_adapter(7);
    assert!(store.bind_project_session(7, "t".into(), first.activation, live, 4).is_err());
    assert_eq!(store.project_context_boot_epoch(), store.project_context.boot_epoch());
}

fn args() -> PolicydArgs {
    PolicydArgs {
        host_socket: "/tmp/test.sock".into(),
        sandbox_socket: "/tmp/test-sandbox.sock".into(),
        proxy_socket: None,
        proxy_gid: None,
        declarative: "/tmp/declarative.json".into(),
        export_json: "/tmp/export.json".into(),
        export_nix: None,
        approval_timeout: 30_000_000_000,
        interactive_approval: true,
        ui_spawn_cmd: None,
        package_declarative: Vec::new(),
        fs_monitor_cmd: None,
        syscall_broker_cmd: None,
    }
}

fn limits() -> Limits {
    Limits {
        pending_approvals: 64,
        waiters_per_pending: 64,
        static_allow_rules: 64,
        proxy_flows: 64,
        verdict_cache: 64,
    }
}
