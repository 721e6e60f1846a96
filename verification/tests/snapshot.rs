//! Network grants that the kernel enforces by itself.

use policyd::snapshot::{
    additional_sources, controller_key, lookup_documents, CapturedNetworkContext, NetworkGrants,
};
use policyd::state::NetworkRuleKey;
use policyd::store::{Limits, PolicyStore, PolicydArgs};
use policyd::types::SandboxPaths;

fn store() -> PolicyStore {
    PolicyStore::new(
        PolicydArgs {
            host_socket: "/tmp/test.sock".into(),
            sandbox_socket: "/tmp/test-sandbox.sock".into(),
            proxy_socket: None,
            proxy_gid: None,
            declarative: "/tmp/declarative.json".into(),
            export_json: "/tmp/export.json".into(),
            export_nix: None,
            approval_timeout: 30_000_000_000,
            interactive_approval: true,
            ui_spawn_cmd: None,
            package_declarative: Vec::new(),
            fs_monitor_cmd: None,
            syscall_broker_cmd: None,
        },
        Limits {
            pending_approvals: 64,
            waiters_per_pending: 64,
            static_allow_rules: 64,
            proxy_flows: 64,
            verdict_cache: 64,
        },
        None,
    )
}

fn stat(pid: u32, parent: u32, start: u64) -> Option<String> {
    Some(format!("{pid} (x) S {parent} 1 1 0 -1 4 0 0 0 0 0 0 0 0 20 0 1 0 {start} 0 0\n"))
}

fn register(store: &mut PolicyStore, uid: u32) {
    store
        .register_sandbox(
            &"captured".to_string(),
            &"omp".to_string(),
            uid,
            30,
            &stat(40, 30, 80),
            &stat(30, 1, 77),
        )
        .expect("registration");
}

fn captured(uid: u32) -> CapturedNetworkContext {
    CapturedNetworkContext {
        pid: 40,
        parent_pid: 30,
        parent_start_ticks: 77,
        uids: [uid; 4],
        path_claims: SandboxPaths::from_wire(
            Some("/project".into()),
            Some("/home/fixture".into()),
            Some("/project".into()),
        ),
        session_claim: Some("captured".into()),
    }
}

#[test]
fn captured_context_requires_registered_owner_and_complete_paths() {
    let mut store = store();
    register(&mut store, 0);
    let ctx = store.captured_network_policy_context(&captured(0)).expect("captured context");
    assert_eq!(ctx.package.as_deref(), Some("omp"));
    assert_eq!(ctx.paths.home.as_deref(), Some("/home/fixture"));
    for mutation in 0..4 {
        let mut invalid = captured(0);
        match mutation {
            0 => invalid.uids[1] = 1000,
            1 => invalid.path_claims.home = Some("relative".into()),
            2 => invalid.session_claim = Some("forged".into()),
            _ => invalid.parent_pid = u32::MAX,
        }
        assert!(store.captured_network_policy_context(&invalid).is_err());
    }
    store.sandbox_sessions.entries[0].1.launcher_start_time_ticks += 1;
    assert!(store.captured_network_policy_context(&captured(0)).is_err());
    register(&mut store, 0);
    assert!(store.captured_network_policy_context(&captured(0)).is_ok());
}

#[test]
fn captured_context_matches_uniform_owner_and_rejects_mixed_credentials() {
    let mut store = store();
    register(&mut store, 1000);
    let mut user = captured(1000);
    user.path_claims.home = Some("/home/tim".into());
    let ctx = store.captured_network_policy_context(&user).expect("sandbox-user context");
    assert_eq!(ctx.ids.uid, Some(1000));
    assert_eq!(ctx.paths.home.as_deref(), Some("/home/tim"));
    let mut mixed = captured(1000);
    mixed.uids[2] = 0;
    assert!(store.captured_network_policy_context(&mixed).is_err());
    assert!(store.captured_network_policy_context(&captured(1001)).is_err());
}

#[test]
fn grants_are_revoked_where_decisions_run_ahead_of_them() {
    let mut store = store();
    let mut grants = NetworkGrants::new();
    let plan = grants.enable_network_revocation(&store);
    assert!(!plan.revoke_new && !plan.revoke_previous);
    assert!(!grants.revoke_network_grants());
    grants.revocation_bound();
    assert!(grants.revoke_network_grants());
    store.session.session_allow.insert(
        "ui1".into(),
        vec![NetworkRuleKey { host: "example.com".into(), port: 443 }],
    );
    let plan = grants.enable_network_revocation(&store);
    assert!(plan.revoke_new && plan.revoke_previous);
}

#[test]
fn grants_are_published_only_once_their_sources_are_observed() {
    let mut grants = NetworkGrants::new();
    assert!(grants.begin_observation().is_err());
    assert!(grants.publish_network_grants().is_err());
    grants.revocation_bound();
    assert!(grants.begin_observation().is_ok());
    grants.sources_observed();
    assert!(grants.publish_network_grants().is_ok());
    grants.revocation_bound();
    assert!(grants.publish_network_grants().is_err());
}

#[test]
fn a_users_grants_rest_on_the_lookup_files() {
    assert_eq!(additional_sources(0, &"/dns".into()), vec!["/dns"]);
    assert_eq!(
        additional_sources(1000, &"/dns".into()),
        vec!["/dns", "/etc/nsswitch.conf", "/etc/passwd"]
    );
    assert_eq!(lookup_documents(5), Ok((3, 4)));
    assert!(lookup_documents(2).is_err());
}

#[test]
fn a_task_is_known_by_its_start_its_program_and_its_number() {
    let key = controller_key([1; 8], [2; 8], [3; 4]);
    assert_eq!(&key[..8], &[1; 8]);
    assert_eq!(&key[8..16], &[2; 8]);
    assert_eq!(&key[16..20], &[3; 4]);
    assert_eq!(&key[20..], &[0; 4]);
}

#[test]
fn an_observation_is_planned_for_the_tasks_user() {
    let mut store = store();
    register(&mut store, 1000);
    let mut grants = NetworkGrants::new();
    let dns = "/dns".to_string();
    assert!(store.observe_captured_network_grants(&grants, &captured(1000), &dns).is_err());
    grants.revocation_bound();
    let plan = store
        .observe_captured_network_grants(&grants, &captured(1000), &dns)
        .expect("the task is registered");
    assert_eq!(plan.additional, vec!["/dns", "/etc/nsswitch.conf", "/etc/passwd"]);
    assert_eq!(plan.sockets, vec!["/run/nscd/socket"]);
    assert_eq!(plan.lookup_home.as_deref(), Some("/home/fixture"));
    register(&mut store, 0);
    let plan = store
        .observe_captured_network_grants(&grants, &captured(0), &dns)
        .expect("the task is registered");
    assert_eq!(plan.additional, vec!["/dns"]);
    assert!(plan.sockets.is_empty());
    assert_eq!(plan.lookup_home, None);
}
