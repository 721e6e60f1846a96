//! Evidence of gates.

use policyd::auth::SocketRole;
use policyd::context::{HostFacts, ProcessQuery};
use policyd::error::PolicydError;
use policyd::flow::{
    FlowProtocol, IpAddress, NetworkFlowKey, ProcessIdentity, SocketIdentity,
};
use policyd::gate::{
    check_evidence, current_cgroup_directory, dbus_evidence_matches, elevation_evidence_matches,
    evidence_kind_matches, evidence_request_id_matches, filesystem_evidence_matches,
    live_process, network_evidence_matches, resource_evidence_matches, DbusEvidence,
    ElevationEvidence, FanotifyEvidence, GateFindings, GateKind, NfqEvidence,
    RoleEvidenceRequest, SeccompEvidence, SeccompSubcheck, ThreadIdentity,
};
use policyd::peer::ClientPeer;
use policyd::state::SandboxSessionRegistration;
use policyd::store::{Limits, PolicyStore, PolicydArgs};
use policyd::types::{
    DbusTarget, FileAccess, RequestContext, ResourceAccess, ResourceKind, SocketAccess,
};

fn store() -> PolicyStore {
    PolicyStore::new(
        PolicydArgs {
            host_socket: "/tmp/test.sock".into(),
            sandbox_socket: "/tmp/test-sandbox.sock".into(),
            proxy_socket: None,
            proxy_gid: None,
            declarative: "/tmp/declarative.json".into(),
            export_json: "/tmp/export.json".into(),
            export_nix: None,
            approval_timeout: 30_000_000_000,
            interactive_approval: true,
            ui_spawn_cmd: None,
            package_declarative: Vec::new(),
            fs_monitor_cmd: None,
            syscall_broker_cmd: None,
        },
        Limits {
            pending_approvals: 64,
            waiters_per_pending: 64,
            static_allow_rules: 64,
            proxy_flows: 64,
            verdict_cache: 64,
        },
        None,
    )
}

fn process() -> ProcessIdentity {
    ProcessIdentity { pid: 1, uid: 1000, start_time_ticks: 17 }
}

fn seccomp(request_id: u64, subchecks: Vec<SeccompSubcheck>) -> RoleEvidenceRequest {
    RoleEvidenceRequest::Seccomp {
        request_id,
        evidence: SeccompEvidence {
            operation_id: 7,
            process: process(),
            thread: ThreadIdentity { tid: 1, tgid: 1 },
            cgroup: 19,
            subchecks,
        },
    }
}

fn captured() -> Vec<SeccompSubcheck> {
    vec![SeccompSubcheck::Filesystem { path: "/captured".into(), access: FileAccess::Read }]
}

fn believable() -> GateFindings {
    GateFindings {
        workspace: Some("/repo".into()),
        peer_cgroup: Some(19),
        process_cgroup: Some(19),
        alive: true,
    }
}

fn root() -> ClientPeer {
    ClientPeer { pid: 50, uid: 0, gid: 0 }
}

fn target(member: &str) -> DbusTarget {
    DbusTarget {
        bus: "session".into(),
        destination: Some("org.example".into()),
        object_path: Some("/org/example".into()),
        interface: Some("org.example.Iface".into()),
        member: Some(member.into()),
        message_kind: "method_call".into(),
        signature: None,
        fd_metadata: Vec::new(),
    }
}

fn nobody(_: &u32, _: &u32) -> bool {
    false
}

fn nowhere(_: &u32) -> Option<String> {
    None
}

fn home(uid: &u32) -> Option<String> {
    Some(format!("/home/{uid}"))
}

fn cwd(query: &ProcessQuery) -> Option<String> {
    Some(format!("/cwd/{}", query.pid))
}

fn forged() -> RequestContext {
    RequestContext {
        cwd: Some("/attacker/cwd".into()),
        home: Some("/attacker/home".into()),
        project_root: Some("/attacker/project".into()),
        pid: Some(10_001),
        uid: Some(1001),
        sandbox_session_id: None,
    }
}

#[test]
fn gate_evidence_binds_request_and_subcheck_targets() {
    let evidence = seccomp(7, captured());
    assert!(evidence_request_id_matches(&evidence));
    assert!(filesystem_evidence_matches("/captured", FileAccess::Read, &evidence));
    assert!(!filesystem_evidence_matches("/forged", FileAccess::Read, &evidence));

    let RoleEvidenceRequest::Seccomp { evidence: captured, .. } = evidence else {
        unreachable!();
    };
    let wrong_request = RoleEvidenceRequest::Seccomp { request_id: 8, evidence: captured };
    assert!(!evidence_request_id_matches(&wrong_request));
}

#[test]
fn gate_resolver_rejects_unregistered_cgroup_evidence() {
    let mut store = store();
    let evidence = RoleEvidenceRequest::Fanotify {
        request_id: 31,
        evidence: FanotifyEvidence {
            operation_id: 31,
            process: process(),
            opener: ThreadIdentity { tid: 1, tgid: 1 },
            cgroup: 19,
            path: "/captured".into(),
            access: FileAccess::Read,
        },
    };
    let facts = HostFacts { descends: &nobody, session: &nowhere, home: &home, cwd: &cwd };
    let findings = GateFindings { workspace: None, ..believable() };
    let result = store.resolve_gate_context(
        ClientPeer { pid: 1, uid: 1000, gid: 0 },
        SocketRole::Sandbox,
        GateKind::Filesystem,
        &forged(),
        &evidence,
        &findings,
        &facts,
    );
    assert_eq!(result, Err(PolicydError::InvalidGateEvidence));
}

#[test]
fn believed_evidence_outweighs_the_wire() {
    let mut store = store();
    let facts = HostFacts { descends: &nobody, session: &nowhere, home: &home, cwd: &cwd };
    let resolved = store
        .resolve_gate_context(
            root(),
            SocketRole::Host,
            GateKind::Filesystem,
            &forged(),
            &seccomp(7, captured()),
            &believable(),
            &facts,
        )
        .expect("the evidence holds");
    assert_eq!(resolved.paths.cwd.as_deref(), Some("/cwd/1"));
    assert_eq!(resolved.paths.home.as_deref(), Some("/home/1000"));
    assert_eq!(resolved.paths.project_root.as_deref(), Some("/repo"));
    assert_eq!(resolved.ids.pid, Some(1));
    assert_eq!(resolved.ids.uid, Some(1000));
}

#[test]
fn sandbox_dispatch_plans_trusted_context_before_handlers_run() {
    let mut store = store();
    let ctx = RequestContext { sandbox_session_id: Some("sandbox-a".into()), ..forged() };
    let facts = HostFacts { descends: &nobody, session: &nowhere, home: &home, cwd: &cwd };
    let peer = ClientPeer { pid: 1, uid: 1000, gid: 0 };
    let resolved = store.resolve_request_context(peer, SocketRole::Sandbox, &ctx, &facts);
    assert_eq!(resolved.ids.pid, Some(1));
    assert_eq!(resolved.ids.uid, Some(1000));
    assert_eq!(resolved.paths.home.as_deref(), Some("/home/1000"));
    assert_ne!(resolved.paths.home.as_deref(), Some("/attacker/home"));
    assert_eq!(resolved.paths.project_root, None);
    assert_eq!(resolved.sandbox_session_id.as_deref(), Some("sandbox-a"));
    let reg = store.sandbox_sessions.get(&"sandbox-a".to_string()).expect("the peer is noted");
    assert_eq!((reg.root_pid, reg.owner_uid), (1, 1000));
}

#[test]
fn a_bus_request_without_evidence_names_its_own_users_process() {
    let mut store = store();
    store.sandbox_sessions.insert(
        "s1".into(),
        SandboxSessionRegistration {
            root_pid: 70,
            owner_uid: 1000,
            package: None,
            launcher_pid: 60,
            launcher_start_time_ticks: 1,
        },
    );
    let below = |ancestor: &u32, pid: &u32| ancestor < pid;
    let facts = HostFacts { descends: &below, session: &nowhere, home: &home, cwd: &cwd };
    let peer = ClientPeer { pid: 65, uid: 1000, gid: 0 };
    let own = RequestContext { pid: Some(80), uid: Some(1000), ..RequestContext::default() };
    let resolved =
        store.resolve_plain_gate_context(peer, SocketRole::Host, GateKind::Dbus, &own, &facts);
    assert_eq!(resolved.ids.pid, Some(80));
    let foreign = RequestContext { pid: Some(80), uid: Some(2000), ..RequestContext::default() };
    let resolved = store.resolve_plain_gate_context(
        peer,
        SocketRole::Host,
        GateKind::Dbus,
        &foreign,
        &facts,
    );
    assert_eq!(resolved.ids.pid, Some(65));
    assert_eq!(resolved.ids.uid, Some(1000));
}

#[test]
fn each_finding_is_needed() {
    let evidence = seccomp(7, captured());
    let kind = GateKind::Filesystem;
    let check = |peer: ClientPeer, findings: &GateFindings| {
        check_evidence(peer, SocketRole::Host, kind, &evidence, findings).is_ok()
    };
    assert!(check(root(), &believable()));
    assert!(!check(root(), &GateFindings { workspace: None, ..believable() }));
    assert!(!check(root(), &GateFindings { process_cgroup: Some(20), ..believable() }));
    assert!(!check(root(), &GateFindings { process_cgroup: None, ..believable() }));
    assert!(!check(root(), &GateFindings { alive: false, ..believable() }));

    let neighbour = ClientPeer { pid: 2, uid: 1000, gid: 0 };
    assert!(check(neighbour, &believable()));
    assert!(!check(neighbour, &GateFindings { peer_cgroup: Some(20), ..believable() }));
    assert!(!check(neighbour, &GateFindings { peer_cgroup: None, ..believable() }));
    let itself = ClientPeer { pid: 1, uid: 1000, gid: 0 };
    assert!(check(itself, &GateFindings { peer_cgroup: None, ..believable() }));
    assert!(!check(ClientPeer { pid: 1, uid: 2000, gid: 0 }, &believable()));

    assert!(check_evidence(root(), SocketRole::UiFd, kind, &evidence, &believable()).is_err());
    assert!(check_evidence(root(), SocketRole::Proxy, kind, &evidence, &believable()).is_err());
    let http = RoleEvidenceRequest::HttpBridge { request_id: 1 };
    assert!(check_evidence(root(), SocketRole::Host, kind, &http, &believable()).is_err());
}

#[test]
fn kinds_of_evidence_answer_their_own_kind_of_request() {
    let file = seccomp(7, captured());
    assert!(evidence_kind_matches(GateKind::Filesystem, &file));
    assert!(evidence_kind_matches(GateKind::Network, &file));
    assert!(!evidence_kind_matches(GateKind::Resource, &file));
    assert!(!evidence_kind_matches(GateKind::Dbus, &file));
    assert!(!evidence_kind_matches(GateKind::Elevation, &file));
}

#[test]
fn network_evidence_names_the_destination() {
    let nfq = RoleEvidenceRequest::Nfq {
        request_id: 7,
        evidence: NfqEvidence {
            operation_id: 7,
            owner: SocketIdentity { process: process(), inode: 5 },
            cgroup: 19,
            flow: NetworkFlowKey {
                protocol: FlowProtocol::Tcp,
                source_ip: IpAddress::V4(1),
                source_port: 2,
                destination_ip: IpAddress::V4(3),
                destination_port: 443,
            },
        },
    };
    let ip = Some(IpAddress::V4(3));
    assert!(network_evidence_matches(&None, &None, ip, Some(443), &nfq));
    assert!(!network_evidence_matches(&None, &None, ip, Some(80), &nfq));
    assert!(!network_evidence_matches(&None, &None, ip, None, &nfq));
    assert!(!network_evidence_matches(
        &None,
        &None,
        Some(IpAddress::V4(4)),
        Some(443),
        &nfq
    ));
    let named = seccomp(
        7,
        vec![SeccompSubcheck::Network { destination: Some("example.com".into()) }],
    );
    let host = Some("example.com".to_string());
    assert!(network_evidence_matches(&host, &None, None, None, &named));
    assert!(network_evidence_matches(&None, &host, None, None, &named));
    assert!(!network_evidence_matches(&None, &None, None, None, &named));
    let unnamed = seccomp(7, vec![SeccompSubcheck::Network { destination: None }]);
    assert!(!network_evidence_matches(&None, &None, None, None, &unnamed));
}

#[test]
fn dbus_elevation_and_resource_evidence_name_their_targets() {
    let dbus = RoleEvidenceRequest::Dbus {
        request_id: 9,
        evidence: DbusEvidence { serial: 9, peer: process(), cgroup: 19, target: target("Get") },
    };
    assert!(evidence_request_id_matches(&dbus));
    assert!(dbus_evidence_matches(&target("Get"), &dbus));
    assert!(!dbus_evidence_matches(&target("Set"), &dbus));

    let elevation = RoleEvidenceRequest::Elevation {
        request_id: 9,
        evidence: ElevationEvidence {
            operation_id: 9,
            peer: process(),
            cgroup: 19,
            argv: vec!["id".into()],
        },
    };
    assert!(elevation_evidence_matches(&vec!["id".into()], &elevation));
    assert!(!elevation_evidence_matches(&vec!["id".into(), "-u".into()], &elevation));
    assert!(!elevation_evidence_matches(&vec!["id".into()], &dbus));

    let connect = ResourceAccess::Socket(SocketAccess::Connect);
    let resource = seccomp(
        7,
        vec![SeccompSubcheck::Resource {
            resource_kind: ResourceKind::UnixSocket,
            path: "/run/x.sock".into(),
            access: connect,
        }],
    );
    assert!(resource_evidence_matches(
        ResourceKind::UnixSocket,
        "/run/x.sock",
        connect,
        &resource
    ));
    assert!(!resource_evidence_matches(ResourceKind::Device, "/run/x.sock", connect, &resource));
    assert!(evidence_kind_matches(GateKind::Resource, &resource));
}

#[test]
fn a_process_is_known_by_its_user_and_start_time() {
    let status = Some("Name:\tsh\nUid:\t1000\t1000\t1000\t1000\n".to_string());
    let stat = Some("1 (a) b) S 0 1 1 0 -1 4 0 0 0 0 0 0 0 0 20 0 1 0 17 0 0".to_string());
    assert!(live_process(process(), &status, &stat));
    assert!(!live_process(ProcessIdentity { uid: 0, ..process() }, &status, &stat));
    assert!(!live_process(ProcessIdentity { start_time_ticks: 18, ..process() }, &status, &stat));
    assert!(!live_process(process(), &None, &stat));
    assert!(!live_process(process(), &status, &None));
    assert!(!live_process(process(), &Some("Name:\tsh\n".into()), &stat));
}

#[test]
fn the_unified_cgroup_names_its_directory() {
    assert_eq!(
        current_cgroup_directory("1:cpu:/old\n0::/user.slice/run.scope\n").as_deref(),
        Some("/sys/fs/cgroup/user.slice/run.scope")
    );
    assert_eq!(current_cgroup_directory("1:cpu:/old\n"), None);
}
