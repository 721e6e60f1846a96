//! Flows of the proxy.

use policyd::context::{HostFacts, ProcessQuery};
use policyd::error::PolicydError;
use policyd::flow::{
    AttributionToken, FlowContext, FlowProtocol, FlowRegistration, IpAddress, NetworkFlowKey,
    NetworkFlowSelector, ProcessIdentity, ProxyCheckId, ProxySessionToken, SocketIdentity,
};
use policyd::http::HttpStart;
use policyd::network::NetworkApproval;
use policyd::proxy::{
    registration_context, validate_registered_owner, FlowCheck, OwnerCheck,
};
use policyd::proxy_checks::{flow_request, CheckStart};
use policyd::state::{NetworkRuleKey, NetworkWaiter, Pending};
use policyd::store::{Limits, PolicyStore, PolicydArgs};
use policyd::types::{
    HttpRequest, HttpRule, HttpRuleTarget, MergeContext, Policy, ProcessIds,
    ResolvedRequestContext, SandboxPaths, VerdictSource,
};

fn store() -> PolicyStore {
    PolicyStore::new(
        PolicydArgs {
            host_socket: "/tmp/test.sock".into(),
            sandbox_socket: "/tmp/test-sandbox.sock".into(),
            proxy_socket: None,
            proxy_gid: None,
            declarative: "/tmp/declarative.json".into(),
            export_json: "/tmp/export.json".into(),
            export_nix: None,
            approval_timeout: 30_000_000_000,
            interactive_approval: true,
            ui_spawn_cmd: None,
            package_declarative: Vec::new(),
            fs_monitor_cmd: None,
            syscall_broker_cmd: None,
        },
        Limits {
            pending_approvals: 64,
            waiters_per_pending: 64,
            static_allow_rules: 64,
            proxy_flows: 64,
            verdict_cache: 64,
        },
        None,
    )
}

const SESSION: ProxySessionToken = ProxySessionToken { value: 11 };
const TOKEN: AttributionToken = AttributionToken { value: 22 };
const CONNECTION: u64 = 33;
const LOCALHOST: IpAddress = IpAddress::V4(0x7f00_0001);
const SECOND: u64 = 1_000_000_000;

fn owner(pid: u32) -> SocketIdentity {
    SocketIdentity {
        process: ProcessIdentity { pid, uid: 1000, start_time_ticks: 1 },
        inode: pid as u64,
    }
}

fn flow(source_port: u16, destination_port: u16) -> NetworkFlowKey {
    NetworkFlowKey {
        protocol: FlowProtocol::Udp,
        source_ip: LOCALHOST,
        source_port,
        destination_ip: IpAddress::V4(0x0101_0101),
        destination_port,
    }
}

fn registration(flow: NetworkFlowKey, owner: SocketIdentity) -> FlowRegistration {
    FlowRegistration {
        flow,
        owner,
        policy_host: "1.1.1.1".into(),
        context: FlowContext { paths: SandboxPaths::default(), sandbox_session_id: None },
    }
}

fn context() -> ResolvedRequestContext {
    ResolvedRequestContext {
        paths: SandboxPaths { cwd: None, home: Some("/home/user".into()), project_root: None },
        ids: ProcessIds::from_options(Some(1), Some(1000)),
        sandbox_session_id: None,
        package: None,
    }
}

fn opened() -> PolicyStore {
    let mut store = store();
    store.open_proxy_session(1, SESSION, 0).expect("open session");
    store
}

fn register(store: &mut PolicyStore, flow: NetworkFlowKey, pid: u32) {
    store
        .register_network_flow(registration(flow, owner(pid)), context(), 0)
        .expect("register flow");
}

/// A store with one claimed flow.
fn associated() -> (PolicyStore, NetworkFlowKey) {
    let mut store = opened();
    let flow = flow(4000, 443);
    register(&mut store, flow, 1);
    store.claim_network_flow(SESSION, flow, CONNECTION, TOKEN, 1).expect("claim flow");
    (store, flow)
}

fn message<T>(result: Result<T, PolicydError>) -> String {
    match result {
        Ok(_) => panic!("expected an error"),
        Err(error) => error.message(),
    }
}

#[test]
fn a_flow_keeps_the_context_that_it_was_registered_with() {
    let mut store = opened();
    let flow = flow(4000, 443);
    register(&mut store, flow, 1);
    let state = store.proxy.flows.get(&flow).expect("flow must be registered");
    assert_eq!(state.context.paths.home.as_deref(), Some("/home/user"));
    let wire = registration_context(&registration(flow, owner(1)));
    assert_eq!(wire.ids.uid, Some(1000));
    assert_eq!(wire.ids.pid, Some(1));
}

#[test]
fn redirected_flow_claim_returns_registered_destination() {
    let mut store = opened();
    let flow = flow(4000, 443);
    register(&mut store, flow, 1);
    let selector = NetworkFlowSelector {
        protocol: FlowProtocol::Udp,
        source_ip: LOCALHOST,
        source_port: 4000,
        destination_port: 443,
    };
    let found =
        store.claim_network_flow_by_source(SESSION, selector, 1).expect("one flow is selected");
    let claim = store
        .complete_claim_by_source(SESSION, &found, CONNECTION, TOKEN, 2)
        .expect("claim redirected flow");
    assert_eq!(claim.flow, flow);
    assert_eq!(claim.policy_host, "1.1.1.1");
}

#[test]
fn an_ambiguous_source_is_not_claimed() {
    let mut store = opened();
    let first = flow(4000, 443);
    let mut second = first;
    second.destination_ip = IpAddress::V4(0x0202_0202);
    register(&mut store, first, 1);
    register(&mut store, second, 1);
    let selector = NetworkFlowSelector {
        protocol: FlowProtocol::Udp,
        source_ip: LOCALHOST,
        source_port: 4000,
        destination_port: 443,
    };
    assert!(store.claim_network_flow_by_source(SESSION, selector, 1).is_err());
}

#[test]
fn a_claimed_flow_is_checked_for_its_owner() {
    let (mut store, _) = associated();
    let snapshot = store.flow_for_check(SESSION, TOKEN, 2).expect("the claim is known");
    let check = store
        .complete_flow_check(SESSION, TOKEN, snapshot, OwnerCheck::Valid, 3)
        .expect("the owner is unchanged");
    assert_eq!((check.host.as_str(), check.port), ("1.1.1.1", 443));
    assert_eq!(check.protocol, FlowProtocol::Udp);
    assert_eq!(check.context.paths.home.as_deref(), Some("/home/user"));
}

#[test]
fn ownership_loss_fails_checks() {
    let (mut store, _) = associated();
    let key = ProxyCheckId { session: SESSION, request: 5 };
    assert!(matches!(store.check_http(key, 1), Ok(CheckStart::Started)));
    let snapshot = store.flow_for_check(SESSION, TOKEN, 2).expect("the claim is known");
    let lost = store.complete_flow_check(SESSION, TOKEN, snapshot, OwnerCheck::Changed, 3);
    assert!(message(lost).contains("socket owner changed"));
    assert!(validate_registered_owner(owner(1), OwnerCheck::TimedOut).is_err());
    assert!(validate_registered_owner(owner(1), OwnerCheck::Failed).is_err());
    assert_eq!(validate_registered_owner(owner(1), OwnerCheck::Valid), Ok(owner(1)));
}

#[test]
fn canceled_check_blocks_without_releasing_claim() {
    let (mut store, _) = associated();
    let key = ProxyCheckId { session: SESSION, request: 5 };
    store.cancel_check(key).expect("cancel check");
    let CheckStart::Cancelled(reply) = store.check_http(key, 1).expect("the check replies") else {
        panic!("a canceled check must be blocked");
    };
    assert!(!reply.allowed);
    assert_eq!(reply.message.as_deref(), Some("agent-sandbox: HTTP check cancelled"));
    store
        .release_network_flow(SESSION, TOKEN, CONNECTION, 2)
        .expect("cancellation must not release the claim");
}

#[test]
fn a_canceled_network_check_blocks() {
    let (mut store, _) = associated();
    let key = ProxyCheckId { session: SESSION, request: 5 };
    store.cancel_check(key).expect("cancel check");
    let CheckStart::Cancelled(reply) = store.check_network_flow(key, 1).expect("it replies")
    else {
        panic!("a canceled check must be blocked");
    };
    assert!(!reply.allowed);
}

#[test]
fn a_running_check_is_interrupted() {
    let (mut store, _) = associated();
    let key = ProxyCheckId { session: SESSION, request: 5 };
    assert!(matches!(store.check_http(key, 77), Ok(CheckStart::Started)));
    let cancelled = store.cancel_check(key).expect("cancel check");
    assert_eq!(cancelled.interrupted, Some(77));
    store.finish_proxy_check(key);
}

#[test]
fn rebind_preserves_ownership_after_valid_migration() {
    let (mut store, old_flow) = associated();
    let migrated = flow(5000, 443);
    register(&mut store, migrated, 1);
    let plan = store
        .rebind_network_flow(SESSION, TOKEN, CONNECTION, migrated, 2)
        .expect("valid migration is planned");
    store
        .complete_rebind(SESSION, TOKEN, CONNECTION, migrated, plan, owner(1), 3)
        .expect("valid migration must rebind");
    assert!(!store.proxy.flows.contains(&old_flow));
    let state = store.proxy.flows.get(&migrated).expect("migrated tuple must own the claim");
    assert_eq!(state.attribution_token, Some(TOKEN));
    assert_eq!(state.connection_id, Some(CONNECTION));
    assert_eq!(state.registration.flow, migrated);
    assert_eq!(state.registration.policy_host, "1.1.1.1");
    store
        .release_network_flow(SESSION, TOKEN, CONNECTION, 4)
        .expect("rebound claim must release with its stable identity");
}

#[test]
fn rebind_rejects_unknown_connection_identifier() {
    let (mut store, _) = associated();
    let refused = store.rebind_network_flow(SESSION, TOKEN, 99, flow(5000, 443), 2);
    assert!(message(refused).contains("unknown connection identifier"));
    store
        .release_network_flow(SESSION, TOKEN, CONNECTION, 3)
        .expect("rejected rebind must not disturb the claim");
}

#[test]
fn rebind_rejects_changed_destination() {
    let (mut store, old_flow) = associated();
    let refused = store.rebind_network_flow(SESSION, TOKEN, CONNECTION, flow(5000, 8443), 2);
    assert!(message(refused).contains("rebind cannot change the flow destination"));
    assert!(store.proxy.flows.contains(&old_flow));
}

#[test]
fn rebind_rejects_unowned_path_and_non_udp_flows() {
    let (mut store, _) = associated();
    let foreign = flow(5000, 443);
    register(&mut store, foreign, 2);
    let plan = store.rebind_network_flow(SESSION, TOKEN, CONNECTION, foreign, 2);
    let refused = match plan {
        Ok(plan) => {
            store.complete_rebind(SESSION, TOKEN, CONNECTION, foreign, plan, owner(2), 3)
        }
        Err(error) => Err(error),
    };
    assert!(message(refused).contains("socket owner changed"));
    let mut tcp = flow(12345, 443);
    tcp.protocol = FlowProtocol::Tcp;
    let refused = store.rebind_network_flow(SESSION, TOKEN, CONNECTION, tcp, 4);
    assert!(message(refused).contains("rebind requires a UDP flow"));
    store
        .release_network_flow(SESSION, TOKEN, CONNECTION, 5)
        .expect("rejected rebinds must not disturb the claim");
}

#[test]
fn release_rejects_unknown_connection_identifier() {
    let (mut store, flow) = associated();
    let refused = store.release_network_flow(SESSION, TOKEN, 99, 2);
    assert!(message(refused).contains("unknown connection identifier"));
    store
        .release_network_flow(SESSION, TOKEN, CONNECTION, 3)
        .expect("correct identifier must release the claim");
    let state = store.proxy.flows.get(&flow).expect("the registration is kept");
    assert_eq!((state.attribution_token, state.connection_id), (None, None));
}

#[test]
fn close_proxy_session_releases_all_claims() {
    let (mut store, _) = associated();
    assert!(store.close_proxy_session(1, 2).is_some());
    let key = ProxyCheckId { session: SESSION, request: 5 };
    let refused = store.check_http(key, 1);
    assert!(message(refused).contains("proxy session token is invalid"));
    let refused = store.flow_for_check(SESSION, TOKEN, 3);
    assert!(message(refused).contains("proxy session token is invalid"));
    let refused = store.release_network_flow(SESSION, TOKEN, CONNECTION, 4);
    assert!(message(refused).contains("proxy session token is invalid"));
}

#[test]
fn another_connection_does_not_close_the_session() {
    let (mut store, _) = associated();
    assert!(store.close_proxy_session(2, 2).is_none());
    assert!(store.open_proxy_session(2, ProxySessionToken { value: 12 }, 2).is_err());
    assert!(store.close_proxy_session(1, 3).is_some());
    assert!(store.open_proxy_session(2, ProxySessionToken { value: 12 }, 4).is_ok());
}

#[test]
fn claimed_flows_survive_long_idle_periods() {
    let (mut store, _) = associated();
    let later = 48 * 3600 * SECOND;
    let snapshot = store.flow_for_check(SESSION, TOKEN, later).expect("claim survives long idle");
    let check = store
        .complete_flow_check(SESSION, TOKEN, snapshot, OwnerCheck::Valid, later)
        .expect("claim must survive long idle");
    let mut policy = Policy::empty();
    policy.network.http.allow.push(HttpRule {
        methods: vec!["GET".into()],
        url: "https://example.com/ok".into(),
        comment: None,
        target_url: Some("https://example.com/ok".into()),
    });
    let request = HttpRequest { method: "GET".into(), url: "https://example.com/ok".into() };
    let start = store.request_http_approval(
        &request,
        &check.context,
        &policy,
        &Vec::new(),
        &|rule: &HttpRule| rule.url == request.url,
        &|_: &HttpRuleTarget| false,
        later,
    );
    let HttpStart::Reply(reply) = start else {
        panic!("long-idle claim must still reach policy");
    };
    assert!(reply.allowed, "long-idle claim must still reach policy");
    store
        .release_network_flow(SESSION, TOKEN, CONNECTION, later)
        .expect("long-idle claim must release");
}

#[test]
fn unclaimed_registrations_still_prune_after_ttl() {
    let mut store = opened();
    let flow = flow(4000, 443);
    register(&mut store, flow, 1);
    let refused = store.claim_network_flow(SESSION, flow, CONNECTION, TOKEN, 60 * SECOND);
    assert!(message(refused).contains("flow is not registered"));
}

#[test]
fn the_flow_table_is_bounded() {
    let mut store = opened();
    for port in 0..store.limits.proxy_flows as u16 {
        register(&mut store, flow(1000 + port, 443), 1);
    }
    assert!(store
        .register_network_flow(registration(flow(9000, 443), owner(1)), context(), 0)
        .is_err());
}

#[test]
fn flow_registration_enriches_empty_paths_from_owner_uid() {
    let mut store = opened();
    let flow = flow(1234, 443);
    let registration = registration(flow, owner(7));
    let wire = registration_context(&registration);
    assert_eq!(wire.paths.home, None);
    let descends = |_: &u32, _: &u32| false;
    let session = |_: &u32| None;
    let home = |uid: &u32| Some(format!("/home/{uid}"));
    let cwd = |_: &ProcessQuery| None;
    let facts = HostFacts { descends: &descends, session: &session, home: &home, cwd: &cwd };
    let wire = MergeContext {
        paths: wire.paths,
        ids: wire.ids,
        sandbox_session_id: Some("test-session".into()),
    };
    let context = store.resolve_trusted_context(&wire, &facts);
    store.register_network_flow(registration, context, 0).expect("register flow");
    let state = store.proxy.flows.get(&flow).expect("flow must be registered");
    assert_eq!(
        state.context.paths.home.as_deref(),
        Some("/home/1000"),
        "flow context home must be enriched from owner uid"
    );
}

#[test]
fn check_network_flow_requests_deferred_transport_approval_and_honors_cancellation() {
    let (mut store, _) = associated();
    let key = ProxyCheckId { session: SESSION, request: 5 };
    assert!(matches!(store.check_network_flow(key, 70), Ok(CheckStart::Started)));
    let snapshot = store.flow_for_check(SESSION, TOKEN, 2).expect("the claim is known");
    let check = store
        .complete_flow_check(SESSION, TOKEN, snapshot, OwnerCheck::Valid, 3)
        .expect("the owner is unchanged");
    let req = flow_request(check, "http3".into(), &|host: &String| host.to_lowercase());
    let same = |pattern: &String, host: &String| pattern == host;
    let start = store.request_network_approval(
        &req,
        &vec![NetworkRuleKey { host: "1.1.1.1".into(), port: 443 }],
        &Vec::new(),
        &Policy::empty(),
        &same,
        NetworkWaiter { proxy: Some(key), waiter: 71 },
        5,
        4,
    );
    let NetworkApproval::Wait(pending) = start else {
        panic!("raw transport check never created pending approval");
    };
    assert!(pending.id.starts_with("net:"));
    let Some(Pending::Network(filed)) = store.pending.get(&pending.id) else {
        panic!("raw transport check never created pending approval");
    };
    assert_eq!(filed.scheme, "http3");
    let source = VerdictSource::policy_with_comment(&"test".to_string());
    let told = store
        .finish_network(&pending.id, true, source.clone(), None, 5)
        .expect("the caller is told");
    assert_eq!(told.told, vec![71]);
    assert!(told.reply.allowed);
    assert_eq!(
        told.reply.source, source,
        "raw fallback must use the transport policy verdict"
    );
    assert_eq!(
        store.waiters.network.len(),
        0,
        "finished transport approval must release its waiter"
    );
    store.finish_proxy_check(key);

    let canceled_key = ProxyCheckId { session: SESSION, request: 6 };
    store.cancel_check(canceled_key).expect("cancel check");
    let canceled = store.check_network_flow(canceled_key, 72);
    let Ok(CheckStart::Cancelled(reply)) = canceled else {
        panic!("canceled check should return a verdict");
    };
    assert!(!reply.allowed, "canceled check must be blocked");
}

#[test]
fn a_transport_check_asks_for_the_flow_in_normal_form() {
    let flow = FlowCheck {
        host: "API.Example.com".into(),
        port: 8443,
        context: context(),
        protocol: FlowProtocol::Tcp,
    };
    let req = flow_request(flow, "https".into(), &|host: &String| host.to_lowercase());
    assert_eq!(req.host, "api.example.com");
    assert_eq!(req.port, 8443);
    assert_eq!(req.scheme, "https");
    assert_eq!(req.url, "");
    assert!(req.aliases.is_empty());
    assert_eq!(req.ctx, context());
}

#[test]
fn denied_stream_does_not_close_association() {
    let (mut store, _) = associated();
    let rule = |url: &str| HttpRule {
        methods: vec!["GET".into()],
        url: url.into(),
        comment: None,
        target_url: Some(url.into()),
    };
    let mut policy = Policy::empty();
    policy.network.http.deny.push(rule("https://example.com/deny"));
    policy.network.http.allow.push(rule("https://example.com/allow"));
    let mut checked = |number: u64, path: &str| {
        let key = ProxyCheckId { session: SESSION, request: number };
        assert!(matches!(store.check_http(key, number), Ok(CheckStart::Started)));
        let snapshot = store.flow_for_check(SESSION, TOKEN, 2).expect("the claim is known");
        let check = store
            .complete_flow_check(SESSION, TOKEN, snapshot, OwnerCheck::Valid, 3)
            .expect("the owner is unchanged");
        let request =
            HttpRequest { method: "GET".into(), url: format!("https://example.com{path}") };
        let start = store.request_http_approval(
            &request,
            &check.context,
            &policy,
            &Vec::new(),
            &|rule: &HttpRule| rule.url == request.url,
            &|_: &HttpRuleTarget| false,
            4,
        );
        store.finish_proxy_check(key);
        let HttpStart::Reply(reply) = start else {
            panic!("a rule settles the check");
        };
        reply.allowed
    };
    assert!(!checked(1, "/deny"), "deny rule must apply");
    assert!(checked(2, "/allow"), "allow rule must still apply on the same claim");
    store
        .release_network_flow(SESSION, TOKEN, CONNECTION, 5)
        .expect("denied stream must not close the association");
}
