//! Network requests that wait for a decision.

use policyd::flow::{ProxyCheckId, ProxySessionToken};
use policyd::network::{
    NetworkApproval, NetworkCheckRequest, NetworkRequestIdentity, NetworkWait, NetworkWaitEvent,
    NetworkWaitStep,
};
use policyd::state::{NetworkRuleKey, NetworkWaiter, Pending, PendingContext, PendingNetwork};
use policyd::store::{Limits, PolicyStore, PolicydArgs};
use policyd::types::{
    ApprovalScope, NetworkRule, Policy, ProcessIds, ResolvedRequestContext, SandboxPaths, Verdict,
    VerdictSource,
};
use policyd::waiting::{begin_wait, look, WaitPhase, WaitPoll};

fn store() -> PolicyStore {
    PolicyStore::new(
        PolicydArgs {
            host_socket: "/tmp/test.sock".into(),
            sandbox_socket: "/tmp/test-sandbox.sock".into(),
            proxy_socket: None,
            proxy_gid: None,
            declarative: "/tmp/declarative.json".into(),
            export_json: "/tmp/export.json".into(),
            export_nix: None,
            approval_timeout: 30_000_000_000,
            interactive_approval: true,
            ui_spawn_cmd: None,
            package_declarative: Vec::new(),
            fs_monitor_cmd: None,
            syscall_broker_cmd: None,
        },
        Limits {
            pending_approvals: 64,
            waiters_per_pending: 64,
            static_allow_rules: 64,
            proxy_flows: 64,
            verdict_cache: 64,
        },
        None,
    )
}

fn pending_network(host: &str, sandbox_session_id: Option<&str>) -> PendingNetwork {
    PendingNetwork {
        id: "net:1".into(),
        created_at: 0,
        host: host.into(),
        port: 443,
        scheme: "tcp".into(),
        url: format!("tcp://{host}:443"),
        aliases: Vec::new(),
        context: PendingContext {
            cwd: Some("/repo".into()),
            home: Some("/home/user".into()),
            project_root: Some("/repo".into()),
            sandbox_session_id: sandbox_session_id.map(str::to_string),
            package: None,
        },
    }
}

fn unique_request(host: &str, port: u16) -> NetworkCheckRequest {
    NetworkCheckRequest {
        host: host.into(),
        port,
        scheme: "tcp".into(),
        url: format!("tcp://{host}:{port}"),
        aliases: Vec::new(),
        ctx: ResolvedRequestContext {
            paths: SandboxPaths::from_wire(
                Some("/repo".into()),
                Some("/home/user".into()),
                Some("/repo".into()),
            ),
            ids: ProcessIds::from_options(Some(0), Some(1000)),
            sandbox_session_id: Some("sandbox-cap".into()),
            package: None,
        },
    }
}

fn key(host: &str) -> NetworkRuleKey {
    NetworkRuleKey { host: host.into(), port: 443 }
}

fn same(pattern: &String, host: &String) -> bool {
    pattern == host
}

fn ask(store: &mut PolicyStore, host: &str, sessions: &[&str], waiter: u64) -> NetworkApproval {
    let sessions = sessions.iter().map(|s| s.to_string()).collect();
    store.request_network_approval(
        &unique_request(host, 443),
        &vec![key(host)],
        &sessions,
        &Policy::empty(),
        &same,
        NetworkWaiter { proxy: None, waiter },
        5,
        100,
    )
}

#[test]
fn network_identity_matches_same_host_and_context() {
    let host = "example.com".to_string();
    let cwd = Some("/repo".to_string());
    let home = Some("/home/user".to_string());
    let project_root = Some("/repo".to_string());
    let sandbox_session_id = Some("sandbox-a".to_string());
    let identity = NetworkRequestIdentity {
        host: &host,
        port: 443,
        cwd: &cwd,
        home: &home,
        project_root: &project_root,
        sandbox_session_id: &sandbox_session_id,
    };

    assert!(identity.matches(&pending_network("example.com", Some("sandbox-a"))));
    assert!(!identity.matches(&pending_network("example.com", Some("sandbox-b"))));
    assert!(!identity.matches(&pending_network("other.example", Some("sandbox-a"))));
}

#[test]
fn session_allow_is_reused_without_creating_second_prompt() {
    let mut store = store();
    store.session.session_allow.insert("ui1".into(), vec![key("example.com")]);
    for waiter in [1, 2] {
        let NetworkApproval::Reply(reply) = ask(&mut store, "example.com", &["ui1"], waiter)
        else {
            panic!("session approval must not create a pending prompt");
        };
        assert!(reply.allowed);
        assert_eq!(reply.source, VerdictSource::Scope(ApprovalScope::Session));
        assert_eq!(store.pending.len(), 0);
    }
}

#[test]
fn once_allow_is_consumed_before_second_network_prompt() {
    let mut store = store();
    store.session.once_allow.insert(key("example.com"), true);
    let NetworkApproval::Reply(first) = ask(&mut store, "example.com", &[], 1) else {
        panic!("the grant answers the first request");
    };
    assert!(first.allowed);
    assert_eq!(first.source, VerdictSource::Scope(ApprovalScope::Once));
    assert_eq!(store.session.once_allow.len(), 0);
    let NetworkApproval::Wait(pending) = ask(&mut store, "example.com", &[], 2) else {
        panic!("the second request must not reuse the grant");
    };
    assert!(pending.is_new);
    assert!(pending.id.starts_with("net:"));
    let delivery = store
        .finish_network(&pending.id, false, VerdictSource::User, None, 200)
        .expect("the caller is told");
    assert_eq!(delivery.told, vec![2]);
    assert!(!delivery.reply.allowed);
    assert_eq!(store.waiters.network.len(), 0);
}

#[test]
fn network_pending_cap_blocks_new_prompts() {
    let mut store = store();
    for i in 0..store.limits.pending_approvals {
        let mut pending = pending_network(&format!("host{i}.example"), Some("sandbox-cap"));
        pending.id = format!("net:seed{i}");
        store.pending.insert(pending.id.clone(), Pending::Network(pending));
    }
    let NetworkApproval::Reply(reply) = ask(&mut store, "overflow.example", &[], 1) else {
        panic!("no more requests fit");
    };
    assert!(!reply.allowed);
    assert_eq!(reply.source, VerdictSource::Blocked);
    assert!(reply.message.unwrap_or_default().contains("too many pending"));
    assert_eq!(store.pending.len(), store.limits.pending_approvals);
}

#[test]
fn network_waiter_cap_blocks_extra_waiter() {
    let mut store = store();
    let mut net = pending_network("example.com", Some("sandbox-cap"));
    net.id = "net:open".into();
    store.pending.insert("net:open".into(), Pending::Network(net));
    let waiting = (0..store.limits.waiters_per_pending as u64)
        .map(|waiter| NetworkWaiter { proxy: None, waiter })
        .collect();
    store.waiters.network.insert("net:open".into(), waiting);
    let NetworkApproval::Reply(reply) = ask(&mut store, "example.com", &[], 1000) else {
        panic!("no more callers fit");
    };
    assert!(!reply.allowed);
    assert_eq!(reply.source, VerdictSource::Blocked);
    assert!(reply.message.unwrap_or_default().contains("too many waiters"));
}

#[test]
fn equal_requests_share_a_prompt() {
    let mut store = store();
    let NetworkApproval::Wait(first) = ask(&mut store, "example.com", &[], 1) else {
        panic!("nothing answers");
    };
    let NetworkApproval::Wait(second) = ask(&mut store, "example.com", &[], 2) else {
        panic!("nothing answers");
    };
    assert_eq!(first.id, second.id);
    assert!(first.is_new && !second.is_new);
    let delivery = store
        .finish_network(
            &first.id,
            true,
            VerdictSource::Scope(ApprovalScope::Once),
            Some(key("example.com")),
            300,
        )
        .expect("both callers are told");
    assert_eq!(delivery.told, vec![1, 2]);
    assert!(delivery.reply.allowed);
    assert!(store.finish_network(&first.id, true, VerdictSource::User, None, 301).is_none());
}

#[test]
fn a_request_that_nobody_may_be_asked_about_is_blocked() {
    let mut store = store();
    store.args.interactive_approval = false;
    let NetworkApproval::Reply(reply) = ask(&mut store, "example.com", &[], 1) else {
        panic!("nobody is asked");
    };
    assert!(!reply.allowed);
    assert_eq!(store.pending.len(), 0);
}

#[test]
fn policy_answers_before_anybody_is_asked() {
    let mut store = store();
    let mut policy = Policy::empty();
    policy.network.direct.deny.push(NetworkRule::new("example.com".into(), 443, "no"));
    let approval = store.request_network_approval(
        &unique_request("example.com", 443),
        &vec![key("example.com")],
        &Vec::new(),
        &policy,
        &same,
        NetworkWaiter { proxy: None, waiter: 1 },
        5,
        100,
    );
    let NetworkApproval::Reply(reply) = approval else {
        panic!("the policy answers");
    };
    assert!(!reply.allowed);
}

fn wait(id: &str, proxy: Option<ProxyCheckId>) -> NetworkWait {
    NetworkWait { pending_id: id.into(), host: "example.com".into(), port: 443, proxy }
}

#[test]
fn cli_approval_during_ui_wait_unblocks_request_promptly() {
    let mut store = store();
    let NetworkApproval::Wait(pending) = ask(&mut store, "slow.example", &[], 1) else {
        panic!("nothing answers");
    };
    let phase = begin_wait(100, store.args.approval_timeout);
    let step = store.await_network_verdict(
        &NetworkWait { host: "slow.example".into(), ..wait(&pending.id, None) },
        phase,
        NetworkWaitEvent::Look { has_ui: false },
        100,
    );
    let NetworkWaitStep::Wait { phase, .. } = step else {
        panic!("the request waits for a UI");
    };
    let delivery = store
        .finish_network(
            &pending.id,
            true,
            VerdictSource::policy_with_comment(&"cli".into()),
            None,
            101,
        )
        .expect("the caller is told");
    let step = store.await_network_verdict(
        &NetworkWait { host: "slow.example".into(), ..wait(&pending.id, None) },
        phase,
        NetworkWaitEvent::Answered(delivery.reply),
        101,
    );
    let NetworkWaitStep::Done { reply, .. } = step else {
        panic!("the answer ends the wait");
    };
    assert!(reply.allowed);
    assert_eq!(reply.source, VerdictSource::policy_with_comment(&"cli".into()));
}

#[test]
fn a_cancelled_check_leaves_the_others_waiting() {
    let mut store = store();
    let proxy = ProxyCheckId { session: ProxySessionToken { value: 1 }, request: 2 };
    let req = unique_request("example.com", 443);
    let keys = vec![key("example.com")];
    for waiter in [
        NetworkWaiter { proxy: None, waiter: 1 },
        NetworkWaiter { proxy: Some(proxy), waiter: 2 },
    ] {
        let _ = store.request_network_approval(
            &req,
            &keys,
            &Vec::new(),
            &Policy::empty(),
            &same,
            waiter,
            5,
            100,
        );
    }
    let id = store.pending.entries[0].0.clone();
    let step = store.await_network_verdict(
        &wait(&id, Some(proxy)),
        begin_wait(100, store.args.approval_timeout),
        NetworkWaitEvent::Cancelled,
        101,
    );
    assert!(matches!(step, NetworkWaitStep::Done { .. }));
    let delivery =
        store.finish_network(&id, true, VerdictSource::User, None, 102).expect("one still waits");
    assert_eq!(delivery.told, vec![1]);
}

#[test]
fn a_rule_that_came_later_releases_pending_requests() {
    let mut store = store();
    let NetworkApproval::Wait(pending) = ask(&mut store, "example.com", &[], 1) else {
        panic!("nothing answers");
    };
    let allow = |net: &PendingNetwork| {
        if net.host == "example.com" {
            Some(Verdict::allowed(VerdictSource::policy()))
        } else {
            None
        }
    };
    let told = store.resolve_pending_declarative_allow(allow, 200);
    assert_eq!(told.len(), 1);
    assert_eq!(told[0].0, pending.id);
    assert_eq!(told[0].1.told, vec![1]);
    assert!(told[0].1.reply.allowed);
    assert_eq!(store.pending.len(), 0);
}

#[test]
fn waits_are_polled_and_bounded() {
    let second = 1_000_000_000;
    let WaitPhase::ForUi { deadline } = begin_wait(5, 2) else {
        panic!("a UI is waited for first");
    };
    assert_eq!(deadline, 7);
    let phase = WaitPhase::ForUi { deadline: 10 };
    assert_eq!(look(phase, 10, false, second).0, WaitPoll::NoUi);
    assert_eq!(look(phase, 8, false, second).0, WaitPoll::Sleep(2));
    let (poll, phase) = look(phase, 8, true, second);
    assert_eq!(poll, WaitPoll::Await(second));
    assert_eq!(phase, WaitPhase::ForVerdict { deadline: 8 + second });
    assert_eq!(look(phase, 8 + second, true, second).0, WaitPoll::TimedOut);
}

#[test]
fn only_the_newest_verdicts_are_remembered() {
    let mut store = store();
    store.limits.verdict_cache = 2;
    for (host, time) in [("a.example", 100), ("b.example", 101), ("c.example", 102)] {
        let key = NetworkRuleKey { host: host.into(), port: 443 };
        let told =
            store.finish_network(&"net:x".to_string(), false, VerdictSource::User, Some(key), time);
        assert!(told.is_none());
    }
    assert_eq!(store.caches.network.len(), 2);
    let remembered =
        |host: &str| store.check_network_verdict_cache(&host.to_string(), 443, 103).is_some();
    assert!(!remembered("a.example"));
    assert!(remembered("b.example"));
    assert!(remembered("c.example"));
}
