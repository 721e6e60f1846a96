//! HTTP requests that the proxy asks about.

use policyd::flow::{
    AttributionToken, FlowContext, FlowProtocol, FlowRegistration, IpAddress, NetworkFlowKey,
    ProcessIdentity, ProxyCheckId, ProxySessionToken, SocketIdentity,
};
use policyd::freeze::CgroupFreezeError;
use policyd::http::{
    exact_http_target, http_context, http_freeze_refused, http_policy_verdicts, HttpStart,
    HttpWaitEvent, HttpWaitStep,
};
use policyd::state::{HttpPendingKey, HttpWaiter, VerdictEntry};
use policyd::store::{Limits, PolicyStore, PolicydArgs};
use policyd::types::{
    ApprovalScope, HttpMethodMatcher, HttpRequest, HttpRule, HttpRuleTarget, Policy, ProcessIds,
    ResolvedRequestContext, SandboxPaths, Verdict, VerdictSource,
};
use policyd::waiting::begin_wait;

fn store() -> PolicyStore {
    PolicyStore::new(
        PolicydArgs {
            host_socket: "/tmp/test.sock".into(),
            sandbox_socket: "/tmp/test-sandbox.sock".into(),
            proxy_socket: None,
            proxy_gid: None,
            declarative: "/tmp/declarative.json".into(),
            export_json: "/tmp/export.json".into(),
            export_nix: None,
            approval_timeout: 30_000_000_000,
            interactive_approval: true,
            ui_spawn_cmd: None,
            package_declarative: Vec::new(),
            fs_monitor_cmd: None,
            syscall_broker_cmd: None,
        },
        Limits {
            pending_approvals: 64,
            waiters_per_pending: 64,
            static_allow_rules: 64,
            proxy_flows: 64,
            verdict_cache: 64,
        },
        None,
    )
}

fn request(method: &str, url: &str) -> HttpRequest {
    HttpRequest { method: method.into(), url: url.into() }
}

fn rule(methods: &[&str], url: &str, comment: Option<&str>) -> HttpRule {
    HttpRule {
        methods: methods.iter().map(|m| m.to_string()).collect(),
        url: url.into(),
        comment: comment.map(String::from),
        target_url: Some(url.into()),
    }
}

fn below(url: &str, base: &str) -> bool {
    url == base || url.starts_with(&format!("{base}/"))
}

fn context(pid: Option<u32>) -> ResolvedRequestContext {
    ResolvedRequestContext {
        paths: SandboxPaths::default(),
        ids: ProcessIds::from_options(pid, Some(1000)),
        sandbox_session_id: Some("test-session".into()),
        package: None,
    }
}

fn start(store: &mut PolicyStore, req: &HttpRequest, policy: &Policy, pid: Option<u32>) -> HttpStart {
    let rule_matches = |rule: &HttpRule| {
        (rule.methods.is_empty() || rule.methods.contains(&req.method)) && below(&req.url, &rule.url)
    };
    let target_matches = |target: &HttpRuleTarget| below(&req.url, &target.url);
    store.request_http_approval(
        req,
        &context(pid),
        policy,
        &Vec::new(),
        &rule_matches,
        &target_matches,
        100,
    )
}

fn verdict(store: &mut PolicyStore, req: &HttpRequest) -> Option<Verdict> {
    let target_matches = |target: &HttpRuleTarget| below(&req.url, &target.url);
    store.evaluate_http(
        req,
        &context(None),
        &Policy::empty(),
        &Vec::new(),
        &|_: &HttpRule| false,
        &target_matches,
        100,
    )
}

fn waiter(request: u64) -> HttpWaiter {
    HttpWaiter {
        check: ProxyCheckId { session: ProxySessionToken { value: 1 }, request },
        attribution_token: AttributionToken { value: 2 },
        waiter: request,
    }
}

#[test]
fn documented_network_http_rule_allows_without_prompt() {
    let mut store = store();
    let mut policy = Policy::empty();
    policy.network.http.allow.push(rule(&["GET"], "https://api.example.com/v1", None));
    let req = request("GET", "https://api.example.com/v1");
    let HttpStart::Reply(reply) = start(&mut store, &req, &policy, None) else {
        panic!("the policy answers");
    };
    assert!(reply.allowed);
    assert_eq!(reply.source, VerdictSource::policy());
    assert_eq!(store.pending.len(), 0);
}

#[test]
fn partial_http_method_deny_preserves_allow_and_narrow_path() {
    let mut policy = Policy::empty();
    policy
        .network
        .http
        .allow
        .push(rule(&["GET"], "https://api.example.com/v1", Some("allow GET")));
    policy
        .network
        .http
        .deny
        .push(rule(&["POST"], "https://api.example.com/v1/private", Some("deny POST")));
    let verdicts = |method: &str, url: &str| {
        let matches = |rule: &HttpRule| {
            rule.methods.iter().any(|m| m == method) && below(url, &rule.url)
        };
        http_policy_verdicts(&policy, &matches)
    };
    let (get_deny, get_allow) = verdicts("GET", "https://api.example.com/v1/public");
    assert!(get_deny.is_none());
    assert_eq!(
        get_allow,
        Some(Verdict::allowed(VerdictSource::policy_with_comment(&"allow GET".into())))
    );
    let (post_deny, post_allow) = verdicts("POST", "https://api.example.com/v1/public");
    assert!(post_deny.is_none());
    assert!(post_allow.is_none());
    let (private_deny, _) = verdicts("POST", "https://api.example.com/v1/private/item");
    assert_eq!(
        private_deny,
        Some(Verdict::denied(VerdictSource::policy_with_comment(&"deny POST".into())))
    );
}

#[test]
fn http_approval_requires_process_identity_for_freezing() {
    let mut store = store();
    let req = request("GET", "https://example.com/resource");
    let HttpStart::Reply(reply) = start(&mut store, &req, &Policy::empty(), None) else {
        panic!("nobody can be frozen");
    };
    assert!(!reply.allowed);
    assert_eq!(
        reply.message.as_deref(),
        Some("agent-sandbox: cannot identify sandbox process for HTTP approval")
    );
    let HttpStart::Freeze { pid, uid } = start(&mut store, &req, &Policy::empty(), Some(7)) else {
        panic!("the process is frozen while the user is asked");
    };
    assert_eq!((pid, uid), (7, Some(1000)));
}

#[test]
fn http_approval_can_be_disabled() {
    let mut store = store();
    store.args.interactive_approval = false;
    let req = request("GET", "https://example.com/resource");
    let HttpStart::Reply(reply) = start(&mut store, &req, &Policy::empty(), Some(7)) else {
        panic!("nobody is asked");
    };
    assert_eq!(reply.message.as_deref(), Some("agent-sandbox: HTTP approval is disabled"));
}

fn file(store: &mut PolicyStore, number: u64, fresh_id: &str) -> (String, bool) {
    let req = request("GET", "https://example.com/resource");
    let result = store
        .dedup_or_create_http(waiter(number), &req, &context(Some(7)), fresh_id.into(), 5)
        .expect("the check waits");
    (result.id, result.is_new)
}

#[test]
fn once_http_decision_resolves_all_coalesced_waiters_without_cache() {
    let mut store = store();
    let session = ProxySessionToken { value: 1 };
    let flow = NetworkFlowKey {
        protocol: FlowProtocol::Tcp,
        source_ip: IpAddress::V4(0x7f00_0001),
        source_port: 12345,
        destination_ip: IpAddress::V4(0x5db8_d822),
        destination_port: 443,
    };
    let registration = FlowRegistration {
        flow,
        owner: SocketIdentity {
            process: ProcessIdentity { pid: 7, uid: 1000, start_time_ticks: 1 },
            inode: 1,
        },
        policy_host: "example.com".into(),
        context: FlowContext {
            paths: SandboxPaths::default(),
            sandbox_session_id: Some("test-session".into()),
        },
    };
    store.open_proxy_session(1, session, 0).expect("open proxy session");
    store.register_network_flow(registration, context(Some(7)), 0).expect("register flow");
    store
        .claim_network_flow(session, flow, 3, AttributionToken { value: 2 }, 1)
        .expect("claim flow");
    let (first, first_new) = file(&mut store, 1, "http:1");
    let (second, second_new) = file(&mut store, 2, "http:2");
    assert_eq!(first, second);
    assert!(first_new && !second_new);
    let finish = store.finish_http(
        &first,
        true,
        VerdictSource::Scope(ApprovalScope::Once),
        true,
        |_: &u64| false,
        100,
    );
    assert!(finish.decided);
    assert_eq!(finish.answered, vec![1, 2]);
    assert!(finish.expired.is_empty());
    let reply = finish.reply.expect("both waiters get one reply");
    assert!(reply.allowed);
    assert_eq!(reply.source, VerdictSource::Scope(ApprovalScope::Once));
    assert_eq!(reply.request, Some(request("GET", "https://example.com/resource")));
    assert_eq!(store.pending.len(), 0);
    assert_eq!(store.http.futures.len(), 0);
    assert_eq!(store.http.waiters.len(), 0);
    assert_eq!(store.http.verdict_cache.len(), 0);
    let req = request("GET", "https://example.com/resource");
    assert!(verdict(&mut store, &req).is_none());
}

#[test]
fn a_cancelled_http_check_gives_up_its_place() {
    let mut store = store();
    let (id, _) = file(&mut store, 1, "http:1");
    file(&mut store, 2, "http:2");
    assert_eq!(store.remove_http_waiter(waiter(1).check), Some(1));
    assert!(store.pending.contains(&id));
    assert_eq!(store.remove_http_waiter(waiter(2).check), Some(2));
    assert!(!store.pending.contains(&id));
}

#[test]
fn an_http_wait_without_a_ui_ends() {
    let mut store = store();
    file(&mut store, 1, "http:1");
    let phase = begin_wait(100, store.args.approval_timeout);
    let step = store.await_http_verdict(
        waiter(1).check,
        phase,
        HttpWaitEvent::Look { has_ui: false },
        u64::MAX / 2,
    );
    let HttpWaitStep::Done(reply) = step else {
        panic!("no UI came");
    };
    assert_eq!(reply.message.as_deref(), Some("agent-sandbox: no policy UI registered"));
}

#[test]
fn an_exact_target_names_the_request() {
    let target = exact_http_target(&request("GET", "https://example.com/x"));
    assert_eq!(target.method, HttpMethodMatcher::Exact("GET".into()));
    assert_eq!(target.url, "https://example.com/x");
}

#[test]
fn only_the_proxy_session_cancels_its_checks() {
    let mut store = store();
    let error = store.cancel_http_check(waiter(1).check).expect_err("there is no session");
    assert_eq!(error.message(), "proxy request failed: proxy session is not active");
    store.open_proxy_session(1, ProxySessionToken { value: 1 }, 0).expect("open proxy session");
    assert_eq!(store.cancel_http_check(waiter(1).check).expect("the session is active"), None);
    let (id, _) = file(&mut store, 1, "http:1");
    let told = store
        .cancel_http_check(waiter(1).check)
        .expect("the session is active")
        .expect("the check waited");
    assert_eq!(told.waiter, 1);
    assert!(!told.reply.allowed);
    assert_eq!(told.reply.message.as_deref(), Some("agent-sandbox: HTTP check cancelled"));
    assert!(!store.pending.contains(&id));
}

#[test]
fn a_caller_whose_flow_is_gone_is_told_that_it_expired() {
    let mut store = store();
    store.open_proxy_session(1, ProxySessionToken { value: 1 }, 0).expect("open proxy session");
    let (id, _) = file(&mut store, 1, "http:1");
    let source = VerdictSource::Scope(ApprovalScope::Session);
    let finish = store.finish_http(&id, true, source, false, |_: &u64| false, 100);
    assert!(!finish.decided);
    assert_eq!(finish.expired, vec![1]);
    assert!(!finish.expiry.allowed);
    assert_eq!(finish.expiry.message.as_deref(), Some("agent-sandbox: HTTP flow expired"));
    assert!(finish.answered.is_empty());
    assert_eq!(store.http.verdict_cache.len(), 0);
}

#[test]
fn a_closed_session_tells_its_waiters() {
    let mut store = store();
    store.open_proxy_session(1, ProxySessionToken { value: 1 }, 0).expect("open proxy session");
    file(&mut store, 1, "http:1");
    file(&mut store, 2, "http:2");
    let closed = store.close_proxy_session(1, 5).expect("the connection holds the session");
    let mut waiting = closed.waiting;
    waiting.sort();
    assert_eq!(waiting, vec![1, 2]);
    assert_eq!(closed.reply.message.as_deref(), Some("agent-sandbox: proxy session closed"));
    assert_eq!(store.pending.len(), 0);
}

#[test]
fn a_cancelled_wait_ends_and_gives_up_its_place() {
    let mut store = store();
    let phase = begin_wait(100, store.args.approval_timeout);
    store.open_proxy_session(1, ProxySessionToken { value: 1 }, 0).expect("open proxy session");
    file(&mut store, 1, "http:1");
    let step = store.await_http_verdict(waiter(1).check, phase, HttpWaitEvent::Cancelled, 100);
    let HttpWaitStep::Done(reply) = step else {
        panic!("the wait ends");
    };
    assert_eq!(reply.message.as_deref(), Some("agent-sandbox: HTTP check cancelled"));
    assert_eq!(store.pending.len(), 0);
}

#[test]
fn a_remembered_http_verdict_is_forgotten_on_request() {
    let mut store = store();
    let req = request("GET", "https://example.com/resource");
    let key = HttpPendingKey { request: req.clone(), context: http_context(&context(None)) };
    let entry = VerdictEntry {
        allowed: true,
        source: VerdictSource::Scope(ApprovalScope::Session),
        time: 100,
    };
    store.http.verdict_cache.insert(key, entry);
    assert_eq!(
        verdict(&mut store, &req),
        Some(Verdict::allowed(VerdictSource::Scope(ApprovalScope::Session)))
    );
    store.clear_http_verdict_cache();
    assert_eq!(verdict(&mut store, &req), None);
}

#[test]
fn a_sandbox_that_cannot_be_frozen_is_not_asked_about() {
    let reply = http_freeze_refused(&CgroupFreezeError::NotCgroupV2 { pid: 7 });
    assert!(!reply.allowed);
    assert_eq!(reply.source, VerdictSource::Blocked);
    let message = reply.message.expect("a message");
    assert!(
        message.starts_with("agent-sandbox: cannot freeze sandbox for HTTP approval: "),
        "{message}"
    );
}
