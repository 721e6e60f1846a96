//! Network checks before and after the rules are looked at.

use policyd::check::{
    format_host_for_url, handle_check, is_ipv6_literal, prompt_url, CheckArgs, CheckPlan,
    PromptHost,
};
use policyd::evaluator::NetworkQuery;
use policyd::network::{NetworkApproval, NetworkCheckRequest};
use policyd::state::{NetworkRuleKey, NetworkWaiter};
use policyd::store::{Limits, PolicyStore, PolicydArgs};
use policyd::types::{
    ApprovalScope, CheckReply, NetworkRule, Policy, ProcessIds, ResolvedRequestContext,
    SandboxPaths, VerdictSource,
};

fn store() -> PolicyStore {
    PolicyStore::new(
        PolicydArgs {
            host_socket: "/tmp/test.sock".into(),
            sandbox_socket: "/tmp/test-sandbox.sock".into(),
            proxy_socket: None,
            proxy_gid: None,
            declarative: "/tmp/declarative.json".into(),
            export_json: "/tmp/export.json".into(),
            export_nix: None,
            approval_timeout: 30_000_000_000,
            interactive_approval: true,
            ui_spawn_cmd: None,
            package_declarative: Vec::new(),
            fs_monitor_cmd: None,
            syscall_broker_cmd: None,
        },
        Limits {
            pending_approvals: 64,
            waiters_per_pending: 64,
            static_allow_rules: 64,
            proxy_flows: 64,
            verdict_cache: 64,
        },
        None,
    )
}

fn context() -> ResolvedRequestContext {
    ResolvedRequestContext {
        paths: SandboxPaths::default(),
        ids: ProcessIds::default(),
        sandbox_session_id: None,
        package: None,
    }
}

fn args(host: Option<&str>, connect_host: Option<&str>, port: Option<u16>) -> CheckArgs {
    CheckArgs {
        host: host.map(String::from),
        connect_host: connect_host.map(String::from),
        port,
        scheme: "tcp".into(),
        url: None,
        aliases: Vec::new(),
        ctx: context(),
    }
}

fn lower(host: &String) -> String {
    host.to_lowercase()
}

fn is_ip(host: &String) -> bool {
    is_ipv6_literal(host) || host.chars().all(|c| c.is_ascii_digit() || c == '.')
}

fn reverse(host: &String) -> String {
    if host == "104.18.32.47" {
        "example.com".into()
    } else {
        host.clone()
    }
}

fn judged(plan: CheckPlan) -> NetworkCheckRequest {
    match plan {
        CheckPlan::Judge(req) => req,
        CheckPlan::Reply(_) => panic!("expected a request to judge"),
    }
}

fn replied(plan: CheckPlan) -> CheckReply {
    match plan {
        CheckPlan::Reply(reply) => reply,
        CheckPlan::Judge(_) => panic!("expected a reply"),
    }
}

#[test]
fn prompt_url_uses_resolved_hostname_for_ip_backed_checks() {
    let url = prompt_url(
        "tcp",
        Some("tcp://104.18.32.47:443".to_string()),
        "example.com",
        443,
        PromptHost::ResolvedFromIp,
    );
    assert_eq!(url, "tcp://example.com:443");
}

#[test]
fn prompt_url_keeps_provided_url_for_named_hosts() {
    let url = prompt_url(
        "https",
        Some("https://example.com/docs".to_string()),
        "example.com",
        443,
        PromptHost::AsProvided,
    );
    assert_eq!(url, "https://example.com/docs");
}

#[test]
fn prompt_url_brackets_ipv6_literal_when_resolved_from_ip() {
    let url = prompt_url("tcp", None, "::1", 443, PromptHost::ResolvedFromIp);
    assert_eq!(url, "tcp://[::1]:443");
}

#[test]
fn ipv6_literals_are_told_from_names_and_ipv4() {
    for literal in [
        "::",
        "::1",
        "1::",
        "fe80::1",
        "2001:db8::8a2e:370:7334",
        "1:2:3:4:5:6:7:8",
        "1:2:3:4:5:6:7::",
        "::2:3:4:5:6:7:8",
        "::ffff:192.0.2.1",
        "1:2:3:4:5:6:192.0.2.1",
        "ABCD::ef01",
    ] {
        assert!(is_ipv6_literal(literal), "{literal} is an IPv6 address");
    }
    for other in [
        "",
        ":",
        ":::",
        "1::2::3",
        "1:2:3:4:5:6:7",
        "1:2:3:4:5:6:7:8:9",
        "1:2:3:4::5:6:7:8",
        "12345::",
        "g::",
        "192.0.2.1",
        "example.com",
        "::192.0.2",
        "::192.0.2.256",
        "1:2:3:4:5:6:7:192.0.2.1",
        "[::1]",
    ] {
        assert!(!is_ipv6_literal(other), "{other} is no IPv6 address");
    }
    assert_eq!(format_host_for_url("fe80::1"), "[fe80::1]");
    assert_eq!(format_host_for_url("example.com"), "example.com");
}

#[test]
fn handle_check_denies_port_zero_before_prompting() {
    let reply = replied(handle_check(
        args(Some("chatgpt.com"), Some("104.18.32.47"), Some(0)),
        &lower,
        &is_ip,
        &reverse,
    ));
    assert!(!reply.allowed);
    assert_eq!(reply.source, VerdictSource::PortZero);
}

#[test]
fn handle_check_denies_none_port_without_prompting() {
    let reply = replied(handle_check(
        args(Some("chatgpt.com"), Some("104.18.32.47"), None),
        &lower,
        &is_ip,
        &reverse,
    ));
    assert!(!reply.allowed);
    assert_eq!(reply.source, VerdictSource::PortZero);
}

#[test]
fn a_named_host_is_judged_by_its_name() {
    let req = judged(handle_check(
        args(Some("Example.COM"), Some("104.18.32.47"), Some(443)),
        &lower,
        &is_ip,
        &reverse,
    ));
    assert_eq!(req.host, "example.com");
    assert_eq!(req.port, 443);
    assert_eq!(req.url, "tcp://example.com:443");
}

#[test]
fn an_address_is_judged_by_the_host_that_is_found_for_it() {
    let req = judged(handle_check(
        args(Some("10.0.0.1"), Some("104.18.32.47"), Some(443)),
        &lower,
        &is_ip,
        &reverse,
    ));
    assert_eq!(req.host, "example.com");
    let req = judged(handle_check(
        args(None, Some("104.18.32.47"), Some(443)),
        &lower,
        &is_ip,
        &reverse,
    ));
    assert_eq!(req.host, "example.com");
    let req = judged(handle_check(
        args(Some("104.18.32.47"), None, Some(443)),
        &lower,
        &is_ip,
        &reverse,
    ));
    assert_eq!(req.host, "example.com");
}

#[test]
fn a_found_host_is_judged_in_its_normal_form_and_shown_as_found() {
    let found = |_: &String| "Example.COM".to_string();
    let req = judged(handle_check(
        args(Some("10.0.0.1"), Some("104.18.32.47"), Some(443)),
        &lower,
        &is_ip,
        &found,
    ));
    assert_eq!(req.host, "example.com");
    assert_eq!(req.url, "tcp://Example.COM:443");
}

#[test]
fn handle_check_consumes_once_allow_exactly_once() {
    let mut store = store();
    store.args.interactive_approval = false;
    store
        .session
        .once_allow
        .insert(NetworkRuleKey { host: "chatgpt.com".into(), port: 443 }, true);
    let check = |store: &mut PolicyStore| {
        let asked = args(Some("chatgpt.com"), Some("104.18.32.47"), Some(443));
        let req = judged(handle_check(asked, &lower, &is_ip, &reverse));
        let keys = vec![NetworkRuleKey { host: req.host.clone(), port: req.port }];
        let (sessions, policy) = (Vec::new(), Policy::empty());
        let q = NetworkQuery {
            host: &req.host,
            port: req.port,
            keys: &keys,
            sessions: &sessions,
            policy: &policy,
        };
        let same = |a: &String, b: &String| a == b;
        if let Some(reply) = store.settle_check(&q, &same) {
            return reply;
        }
        let waiter = NetworkWaiter { proxy: None, waiter: 1 };
        match store
            .request_network_approval(&req, &keys, &sessions, &policy, &same, waiter, 5, 100)
        {
            NetworkApproval::Reply(reply) => reply,
            NetworkApproval::Wait(_) => panic!("nobody is asked"),
        }
    };

    let first = check(&mut store);
    assert!(first.allowed, "first once approval must allow");
    assert_eq!(first.source, VerdictSource::Scope(ApprovalScope::Once));
    assert_eq!(
        store.session.once_allow.len(),
        0,
        "once approval must be consumed after the first check"
    );

    let second = check(&mut store);
    assert!(!second.allowed, "second check must not reuse consumed once approval");
    assert_eq!(second.source, VerdictSource::Blocked);
}

#[test]
fn policy_allow_settles_without_spending_the_once_allow() {
    let mut store = store();
    store
        .session
        .once_allow
        .insert(NetworkRuleKey { host: "other.example".into(), port: 443 }, true);
    let host = "example.com".to_string();
    let keys = vec![NetworkRuleKey { host: "example.com".into(), port: 443 }];
    let sessions = Vec::new();
    let mut policy = Policy::empty();
    policy.network.direct.allow.push(NetworkRule::new("example.com".into(), 443, ""));
    let q = NetworkQuery {
        host: &host,
        port: 443,
        keys: &keys,
        sessions: &sessions,
        policy: &policy,
    };
    let same = |a: &String, b: &String| a == b;
    let reply = store.settle_check(&q, &same).expect("the policy answers");
    assert!(reply.allowed);
    assert_eq!(store.session.once_allow.len(), 1);
}
