//! What holds of evidence and of grants: what a gate must have seen to be believed, and when
//! grants are published.

use vstd::prelude::*;

use crate::auth::SocketRole;
use crate::context::HostFacts;
use crate::context::ProcessQuery;
use crate::error::PolicydError;
use crate::flow::IpAddress;
use crate::flow::ProcessIdentity;
use crate::gate;
use crate::gate::GateFindings;
use crate::gate::GateKind;
use crate::gate::RoleEvidenceRequest;
use crate::gate::SeccompSubcheck;
use crate::paths;
use crate::peer::ClientPeer;
use crate::scan;
use crate::snapshot;
use crate::snapshot::CapturedNetworkContext;
use crate::snapshot::NetworkGrants;
use crate::snapshot::ObservationPlan;
use crate::snapshot::RevocationPlan;
use crate::store::PolicyStore;
use crate::text;
use crate::types::DbusTarget;
use crate::types::FileAccess;
use crate::types::RequestContext;
use crate::types::ResolvedRequestContext;
use crate::types::ResourceAccess;
use crate::types::ResourceKind;

verus! {

/// The peer may bring evidence of the process: root of any, another user of its own process or of
/// one in its own cgroup.
pub open spec fn may_bring(
    peer: ClientPeer,
    process: ProcessIdentity,
    cgroup: u64,
    findings: GateFindings,
) -> bool {
    peer.uid == 0 || (peer.uid == process.uid && (peer.pid == process.pid || findings.peer_cgroup
        == Some(cgroup)))
}

/// The process is running where the evidence places it, in a known workspace.
pub open spec fn still_there(cgroup: u64, findings: GateFindings) -> bool {
    findings.alive && findings.workspace is Some && findings.process_cgroup == Some(cgroup)
}

/// The evidence is about the process and the cgroup.
pub open spec fn is_about(
    evidence: RoleEvidenceRequest,
    process: ProcessIdentity,
    cgroup: u64,
) -> bool {
    ||| (evidence matches RoleEvidenceRequest::Fanotify { evidence: e, .. } && e.process == process
        && e.cgroup == cgroup)
    ||| (evidence matches RoleEvidenceRequest::Seccomp { evidence: e, .. } && e.process == process
        && e.cgroup == cgroup)
    ||| (evidence matches RoleEvidenceRequest::Nfq { evidence: e, .. } && e.owner.process == process
        && e.cgroup == cgroup)
    ||| (evidence matches RoleEvidenceRequest::Elevation { evidence: e, .. } && e.peer == process
        && e.cgroup == cgroup)
    ||| (evidence matches RoleEvidenceRequest::Dbus { evidence: e, .. } && e.peer == process
        && e.cgroup == cgroup)
}

/// Evidence that is believed is about a process that still runs in the cgroup that it was seen in
/// and in a known workspace, is of the asked kind, answers its own request, and is brought on a
/// socket of the host or a sandbox by who may bring it. What is told is that process and that
/// workspace.
pub proof fn law_evidence_is_believed_only_where_it_holds(
    peer: ClientPeer,
    role: SocketRole,
    kind: GateKind,
    evidence: &RoleEvidenceRequest,
    findings: &GateFindings,
    process: ProcessIdentity,
    workspace: String,
) -> (cgroup: u64)
    requires
        call_ensures(
            gate::check_evidence,
            (peer, role, kind, evidence, findings),
            Ok((process, workspace)),
        ),
    ensures
        is_about(*evidence, process, cgroup),
        still_there(cgroup, *findings),
        findings.workspace == Some(workspace),
        may_bring(peer, process, cgroup, *findings),
        role == SocketRole::Host || role == SocketRole::Sandbox,
        *evidence matches RoleEvidenceRequest::Fanotify { request_id, evidence: e } ==> kind
            == GateKind::Filesystem && request_id == e.operation_id && e.opener.tgid == process.pid,
        *evidence matches RoleEvidenceRequest::Seccomp { request_id, evidence: e } ==> (kind
            == GateKind::Network || kind == GateKind::Filesystem || kind == GateKind::Resource)
            && request_id == e.operation_id && e.thread.tgid == process.pid,
        *evidence matches RoleEvidenceRequest::Nfq { request_id, evidence: e } ==> kind
            == GateKind::Network && request_id == e.operation_id,
        *evidence matches RoleEvidenceRequest::Elevation { request_id, evidence: e } ==> kind
            == GateKind::Elevation && request_id == e.operation_id,
        *evidence matches RoleEvidenceRequest::Dbus { request_id, evidence: e } ==> kind
            == GateKind::Dbus && request_id == e.serial,
{
    gate::subject_cgroup(*evidence)
}

/// Evidence that holds is believed: for each kind of gate, where the process is still there, who
/// brings it may, and it answers its own request.
pub proof fn law_evidence_that_holds_is_believed(
    peer: ClientPeer,
    role: SocketRole,
    kind: GateKind,
    evidence: &RoleEvidenceRequest,
    findings: &GateFindings,
    r: Result<(ProcessIdentity, String), PolicydError>,
)
    requires
        call_ensures(gate::check_evidence, (peer, role, kind, evidence, findings), r),
        role == SocketRole::Host || role == SocketRole::Sandbox,
    ensures
        *evidence matches RoleEvidenceRequest::Fanotify { request_id, evidence: e } ==> (kind
            == GateKind::Filesystem && request_id == e.operation_id && e.opener.tgid
            == e.process.pid && still_there(e.cgroup, *findings) && may_bring(
            peer,
            e.process,
            e.cgroup,
            *findings,
        ) ==> r is Ok),
        *evidence matches RoleEvidenceRequest::Seccomp { request_id, evidence: e } ==> (kind
            == GateKind::Network && request_id == e.operation_id && e.thread.tgid == e.process.pid
            && still_there(e.cgroup, *findings) && may_bring(peer, e.process, e.cgroup, *findings)
            ==> r is Ok),
        *evidence matches RoleEvidenceRequest::Nfq { request_id, evidence: e } ==> (kind
            == GateKind::Network && request_id == e.operation_id && still_there(
            e.cgroup,
            *findings,
        ) && may_bring(peer, e.owner.process, e.cgroup, *findings) ==> r is Ok),
        *evidence matches RoleEvidenceRequest::Elevation { request_id, evidence: e } ==> (kind
            == GateKind::Elevation && request_id == e.operation_id && still_there(
            e.cgroup,
            *findings,
        ) && may_bring(peer, e.peer, e.cgroup, *findings) ==> r is Ok),
        *evidence matches RoleEvidenceRequest::Dbus { request_id, evidence: e } ==> (kind
            == GateKind::Dbus && request_id == e.serial && still_there(e.cgroup, *findings)
            && may_bring(peer, e.peer, e.cgroup, *findings) ==> r is Ok),
        r is Err ==> r->Err_0 is InvalidGateEvidence,
{
}

/// A file or a resource gate believes a system call only where the call touched such a thing, and
/// then it does.
pub proof fn law_calls_are_evidence_of_what_they_touch(
    kind: GateKind,
    evidence: &RoleEvidenceRequest,
    r: bool,
)
    requires
        call_ensures(gate::evidence_kind_matches, (kind, evidence), r),
    ensures
        *evidence matches RoleEvidenceRequest::Seccomp { evidence: e, .. } ==> {
            &&& kind == GateKind::Network ==> r
            &&& kind == GateKind::Filesystem ==> (r <==> exists|i: int|
                0 <= i < e.subchecks@.len() && (#[trigger] e.subchecks@[i]) is Filesystem)
            &&& kind == GateKind::Resource ==> (r <==> exists|i: int|
                0 <= i < e.subchecks@.len() && (#[trigger] e.subchecks@[i]) is Resource)
            &&& kind == GateKind::Dbus || kind == GateKind::Elevation ==> !r
        },
        *evidence is HttpBridge ==> !r,
{
}

/// A connection is let through on a packet only where it goes to the address and the port that the
/// packet went to, and on a system call only where the call named the host; no other evidence is
/// of a connection.
pub proof fn law_network_evidence_names_the_destination(
    host: &Option<String>,
    connect_host: &Option<String>,
    connect_ip: Option<IpAddress>,
    port: Option<u16>,
    evidence: &RoleEvidenceRequest,
    r: bool,
)
    requires
        call_ensures(
            gate::network_evidence_matches,
            (host, connect_host, connect_ip, port, evidence),
            r,
        ),
    ensures
        *evidence matches RoleEvidenceRequest::Nfq { evidence: e, .. } ==> (r <==> connect_ip
            == Some(e.flow.destination_ip) && port == Some(e.flow.destination_port)),
        *evidence matches RoleEvidenceRequest::Seccomp { evidence: e, .. } ==> (r
            <==> exists|i: int|
            0 <= i < e.subchecks@.len() && (#[trigger] e.subchecks@[i] matches
                SeccompSubcheck::Network { destination: Some(named) } && ((host is Some && named@
                == host->0@) || (connect_host is Some && named@ == connect_host->0@)))),
        r ==> *evidence is Nfq || *evidence is Seccomp,
{
    if let RoleEvidenceRequest::Seccomp { evidence: e, .. } = *evidence {
        if r {
            let i = choose|i: int|
                0 <= i < e.subchecks@.len() && gate::destination_named(
                    #[trigger] e.subchecks@[i],
                    *host,
                    *connect_host,
                );
            assert(e.subchecks@[i] matches SeccompSubcheck::Network { destination: Some(named) }
                && ((host is Some && named@ == host->0@) || (connect_host is Some && named@
                == connect_host->0@)));
        }
        if exists|i: int|
            0 <= i < e.subchecks@.len() && (#[trigger] e.subchecks@[i] matches
                SeccompSubcheck::Network { destination: Some(named) } && ((host is Some && named@
                == host->0@) || (connect_host is Some && named@ == connect_host->0@))) {
            let i = choose|i: int|
                0 <= i < e.subchecks@.len() && (#[trigger] e.subchecks@[i] matches
                    SeccompSubcheck::Network { destination: Some(named) } && ((host is Some
                    && named@ == host->0@) || (connect_host is Some && named@
                    == connect_host->0@)));
            assert(gate::destination_named(e.subchecks@[i], *host, *connect_host));
        }
    }
}

/// Evidence of a D-Bus call is of the target that was called, and of a command of the command that
/// was given, word for word.
pub proof fn law_call_evidence_names_the_call(
    target: &DbusTarget,
    argv: &Vec<String>,
    evidence: &RoleEvidenceRequest,
    dbus: bool,
    elevation: bool,
)
    requires
        call_ensures(gate::dbus_evidence_matches, (target, evidence), dbus),
        call_ensures(gate::elevation_evidence_matches, (argv, evidence), elevation),
    ensures
        dbus ==> *evidence is Dbus,
        elevation ==> *evidence is Elevation,
        *evidence matches RoleEvidenceRequest::Dbus { evidence: e, .. } ==> (dbus <==> e.target@
            == target@),
        *evidence matches RoleEvidenceRequest::Elevation { evidence: e, .. } ==> (elevation <==> {
            &&& e.argv@.len() == argv@.len()
            &&& forall|i: int| 0 <= i < argv@.len() ==> (#[trigger] argv@[i])@ == e.argv@[i]@
        }),
{
    if let RoleEvidenceRequest::Elevation { evidence: e, .. } = *evidence {
        let a = text::texts(e.argv@);
        let b = text::texts(argv@);
        if elevation {
            assert(a.len() == b.len());
            assert forall|i: int| 0 <= i < argv@.len() implies (#[trigger] argv@[i])@ == e.argv@[i]@ by {
                assert(a[i] == b[i]);
            }
        }
        if e.argv@.len() == argv@.len() && forall|i: int|
            0 <= i < argv@.len() ==> (#[trigger] argv@[i])@ == e.argv@[i]@ {
            assert forall|i: int| 0 <= i < a.len() implies a[i] == b[i] by {
                assert(argv@[i]@ == e.argv@[i]@);
            }
            assert(a =~= b);
        }
    }
}

/// Evidence of a file's use is of that path and that use; evidence of a resource's of its kind as
/// well.
pub proof fn law_use_evidence_names_the_use(
    path: &str,
    access: FileAccess,
    kind: ResourceKind,
    resource_access: ResourceAccess,
    evidence: &RoleEvidenceRequest,
    file: bool,
    resource: bool,
)
    requires
        call_ensures(gate::filesystem_evidence_matches, (path, access, evidence), file),
        call_ensures(
            gate::resource_evidence_matches,
            (kind, path, resource_access, evidence),
            resource,
        ),
    ensures
        file ==> *evidence is Fanotify || *evidence is Seccomp,
        resource ==> *evidence is Seccomp,
        *evidence matches RoleEvidenceRequest::Fanotify { evidence: e, .. } ==> (file
            <==> paths::components(e.path@) == paths::components(path@) && e.access == access),
        *evidence matches RoleEvidenceRequest::Seccomp { evidence: e, .. } ==> {
            &&& file <==> exists|i: int|
                0 <= i < e.subchecks@.len() && (#[trigger] e.subchecks@[i] matches
                    SeccompSubcheck::Filesystem { path: seen, access: used } && paths::components(
                    seen@,
                ) == paths::components(path@) && used == access)
            &&& resource <==> exists|i: int|
                0 <= i < e.subchecks@.len() && (#[trigger] e.subchecks@[i] matches
                    SeccompSubcheck::Resource { resource_kind, path: seen, access: used }
                    && resource_kind == kind && paths::components(seen@) == paths::components(
                    path@,
                ) && used == resource_access)
        },
{
    if let RoleEvidenceRequest::Seccomp { evidence: e, .. } = *evidence {
        assert forall|i: int| 0 <= i < e.subchecks@.len() implies gate::file_named(
            #[trigger] e.subchecks@[i],
            path@,
            access,
        ) == (e.subchecks@[i] matches SeccompSubcheck::Filesystem { path: seen, access: used }
            && paths::components(seen@) == paths::components(path@) && used == access) by {}
        assert forall|i: int| 0 <= i < e.subchecks@.len() implies gate::resource_named(
            #[trigger] e.subchecks@[i],
            kind,
            path@,
            resource_access,
        ) == (e.subchecks@[i] matches SeccompSubcheck::Resource {
            resource_kind,
            path: seen,
            access: used,
        } && resource_kind == kind && paths::components(seen@) == paths::components(path@) && used
            == resource_access) by {}
    }
}

/// A gate's request is judged for the process that its evidence is about, in its workspace: what
/// the request says of its paths, its process and its user changes nothing. Without evidence that
/// holds there is no context, and no session is noted either way.
pub proof fn law_gate_is_judged_by_its_evidence<
    A: Fn(&u32, &u32) -> bool,
    S: Fn(&u32) -> Option<String>,
    H: Fn(&u32) -> Option<String>,
    C: Fn(&ProcessQuery) -> Option<String>,
>(
    store: &mut PolicyStore,
    again: &mut PolicyStore,
    peer: ClientPeer,
    role: SocketRole,
    kind: GateKind,
    ctx: &RequestContext,
    forged: &RequestContext,
    evidence: &RoleEvidenceRequest,
    findings: &GateFindings,
    facts: &HostFacts<A, S, H, C>,
    r: Result<ResolvedRequestContext, PolicydError>,
    s: Result<ResolvedRequestContext, PolicydError>,
    believed: Result<(ProcessIdentity, String), PolicydError>,
)
    requires
        *old(store) == *old(again),
        call_ensures(
            PolicyStore::resolve_gate_context::<A, S, H, C>,
            (store, peer, role, kind, ctx, evidence, findings, facts),
            r,
        ),
        call_ensures(
            PolicyStore::resolve_gate_context::<A, S, H, C>,
            (again, peer, role, kind, forged, evidence, findings, facts),
            s,
        ),
        call_ensures(gate::check_evidence, (peer, role, kind, evidence, findings), believed),
    ensures
        r == s,
        r is Ok <==> believed is Ok,
        *final(store) == *old(store),
        r is Ok ==> {
            let (process, workspace) = believed->Ok_0;
            &&& r->Ok_0.paths.project_root == Some(workspace)
            &&& process.uid > 0 ==> r->Ok_0.ids.uid == Some(process.uid)
            &&& process.pid > 0 ==> r->Ok_0.ids.pid == Some(process.pid)
            &&& process.pid > 0 ==> r->Ok_0.sandbox_session_id == text::answer(
                *facts.session,
                process.pid,
            )
        },
        r is Err ==> r->Err_0 is InvalidGateEvidence,
{
}

/// A task is captured only as what it is: with one user throughout, with whole paths, and as a
/// child of the launcher that registered the session that it claims, which is its user's and has a
/// package. Its context is then its own.
pub proof fn law_captured_task_is_the_launchers_child(
    store: &PolicyStore,
    captured: &CapturedNetworkContext,
    r: Result<ResolvedRequestContext, PolicydError>,
)
    requires
        call_ensures(PolicyStore::captured_network_policy_context, (store, captured), r),
    ensures
        r is Ok <==> {
            let uid = captured.uids@[0];
            let reg = store.sandbox_sessions@[captured.session_claim->0@];
            &&& captured.uids@[1] == uid && captured.uids@[2] == uid && captured.uids@[3] == uid
            &&& captured.path_claims.cwd is Some && paths::absolute(
                captured.path_claims.cwd->0@,
            )
            &&& captured.path_claims.home is Some && paths::absolute(
                captured.path_claims.home->0@,
            )
            &&& captured.path_claims.project_root is Some && paths::absolute(
                captured.path_claims.project_root->0@,
            )
            &&& captured.session_claim is Some
            &&& store.sandbox_sessions@.contains_key(captured.session_claim->0@)
            &&& reg.owner_uid == uid
            &&& reg.launcher_pid != 0 && reg.launcher_pid == captured.parent_pid
            &&& reg.launcher_start_time_ticks != 0 && reg.launcher_start_time_ticks
                == captured.parent_start_ticks
            &&& reg.package is Some
        },
        r is Ok ==> {
            &&& r->Ok_0.paths == captured.path_claims
            &&& r->Ok_0.ids.pid == Some(captured.pid)
            &&& r->Ok_0.ids.uid == Some(captured.uids@[0])
            &&& r->Ok_0.sandbox_session_id == captured.session_claim
            &&& r->Ok_0.package
                == store.sandbox_sessions@[captured.session_claim->0@].package
        },
{
}

/// Grants are observed only once they can be revoked, and only once; they are published only when
/// they have been observed. A new revocation is observed anew.
pub proof fn law_grants_are_bound_observed_published(
    grants: &mut NetworkGrants,
    observed: &mut NetworkGrants,
    before_bound: Result<(), PolicydError>,
    early: Result<(), PolicydError>,
    begun: Result<(), PolicydError>,
    again: Result<(), PolicydError>,
    published: Result<(), PolicydError>,
    revoked: bool,
)
    requires
        call_ensures(NetworkGrants::begin_observation, (&*old(grants),), before_bound),
        call_ensures(NetworkGrants::revocation_bound, (grants,), ()),
        call_ensures(NetworkGrants::publish_network_grants, (&*final(grants),), early),
        call_ensures(NetworkGrants::begin_observation, (&*final(grants),), begun),
        *old(observed) == *final(grants),
        call_ensures(NetworkGrants::sources_observed, (observed,), ()),
        call_ensures(NetworkGrants::begin_observation, (&*final(observed),), again),
        call_ensures(NetworkGrants::publish_network_grants, (&*final(observed),), published),
        call_ensures(NetworkGrants::revoke_network_grants, (&*final(observed),), revoked),
    ensures
        !old(grants).bound || old(grants).observed ==> before_bound is Err,
        early is Err,
        begun is Ok,
        again is Err,
        published is Ok,
        revoked,
{
}

/// A new revocation takes back what decisions have granted while it was not bound, and what an
/// earlier one was bound to.
pub proof fn law_revocation_takes_back_earlier_grants(
    grants: &NetworkGrants,
    store: &PolicyStore,
    r: RevocationPlan,
    id: Seq<char>,
)
    requires
        call_ensures(NetworkGrants::enable_network_revocation, (grants, store), r),
    ensures
        r.revoke_previous == grants.bound,
        store.session.session_allow@.contains_key(id) && store.session.session_allow@[id]@.len()
            > 0 ==> r.revoke_new,
        store.session.session_deny@.contains_key(id) && store.session.session_deny@[id]@.len() > 0
            ==> r.revoke_new,
        store.session.once_allow.entries@.len() > 0 ==> r.revoke_new,
        r.revoke_new ==> store.session.once_allow.entries@.len() > 0 || (exists|s: Seq<char>|
            (#[trigger] store.session.session_allow@.contains_key(s))
                && store.session.session_allow@[s]@.len() > 0) || (exists|s: Seq<char>|
            (#[trigger] store.session.session_deny@.contains_key(s))
                && store.session.session_deny@[s]@.len() > 0),
{
}

/// Grants are observed for a captured task only where observation may begin and the task is the
/// launcher's child; then for that task, with the resolver's files, and for a user but root with
/// the files that name its home.
pub proof fn law_observation_is_of_the_captured_task(
    store: &PolicyStore,
    grants: &NetworkGrants,
    captured: &CapturedNetworkContext,
    dns: &String,
    begun: Result<(), PolicydError>,
    ctx: Result<ResolvedRequestContext, PolicydError>,
    r: Result<ObservationPlan, PolicydError>,
)
    requires
        call_ensures(NetworkGrants::begin_observation, (grants,), begun),
        call_ensures(PolicyStore::captured_network_policy_context, (store, captured), ctx),
        call_ensures(
            PolicyStore::observe_captured_network_grants,
            (store, grants, captured, dns),
            r,
        ),
    ensures
        r is Ok <==> begun is Ok && ctx is Ok,
        r is Ok ==> {
            &&& r->Ok_0.ctx == ctx->Ok_0
            &&& r->Ok_0.additional@.len() >= 1 && r->Ok_0.additional@[0]@ == dns@
            &&& captured.uids@[0] == 0 ==> r->Ok_0.lookup_home is None && r->Ok_0.sockets@.len()
                == 0 && r->Ok_0.additional@.len() == 1
            &&& captured.uids@[0] != 0 ==> r->Ok_0.lookup_home == ctx->Ok_0.paths.home
                && r->Ok_0.sockets@.len() == 1 && r->Ok_0.additional@.len() == 3
        },
{
    if r is Ok {
        let a = text::texts(r->Ok_0.additional@);
        assert(a.len() == r->Ok_0.additional@.len());
        assert(a[0] == r->Ok_0.additional@[0]@);
        assert(text::texts(r->Ok_0.sockets@).len() == r->Ok_0.sockets@.len());
    }
}

/// The name service's files are the last two that were observed, and are there only where all
/// were.
pub proof fn law_lookup_files_are_the_last_observed(
    count: usize,
    r: Result<(usize, usize), PolicydError>,
)
    requires
        call_ensures(snapshot::lookup_documents, (count,), r),
    ensures
        r is Ok <==> count >= 3,
        r is Ok ==> r->Ok_0.0 + 1 == r->Ok_0.1 && r->Ok_0.1 + 1 == count,
{
}

proof fn lemma_uid_line(lines: Seq<Seq<char>>)
    ensures
        gate::status_uid(lines) is Some ==> exists|i: int|
            0 <= i < lines.len() && "Uid:"@.is_prefix_of(#[trigger] lines[i]) && ({
                let words = scan::words_of(lines[i].skip("Uid:"@.len() as int));
                words.len() > 0 && scan::number_of(words[0]) == gate::status_uid(lines)
            }),
    decreases lines.len(),
{
    if lines.len() > 0 {
        if gate::uid_of_line(lines[0]) is Some {
            assert("Uid:"@.is_prefix_of(lines[0]));
        } else if gate::status_uid(lines) is Some {
            let tail = lines.skip(1);
            lemma_uid_line(tail);
            let i = choose|i: int|
                0 <= i < tail.len() && "Uid:"@.is_prefix_of(#[trigger] tail[i]) && ({
                    let words = scan::words_of(tail[i].skip("Uid:"@.len() as int));
                    words.len() > 0 && scan::number_of(words[0]) == gate::status_uid(tail)
                });
            assert(lines[i + 1] == tail[i]);
        }
    }
}

/// A process is taken for the one that was seen only where it still runs as the same user and was
/// started at the same time: nothing that the system does not tell of it makes it so.
pub proof fn law_process_is_the_one_that_was_seen(
    identity: ProcessIdentity,
    status: &Option<String>,
    stat: &Option<String>,
    r: bool,
)
    requires
        call_ensures(gate::live_process, (identity, status, stat), r),
    ensures
        r ==> *status is Some && *stat is Some,
        r ==> exists|i: int|
            {
                &&& 0 <= i < scan::lines_of(status->0@).len()
                &&& "Uid:"@.is_prefix_of(#[trigger] scan::lines_of(status->0@)[i])
                &&& ({
                    let words = scan::words_of(
                        scan::lines_of(status->0@)[i].skip("Uid:"@.len() as int),
                    );
                    words.len() > 0 && scan::number_of(words[0]) == Some(identity.uid as nat)
                })
            },
        r ==> gate::start_of(stat->0@) == Some(identity.start_time_ticks as nat),
        *status is Some && *stat is Some && gate::status_uid(scan::lines_of(status->0@)) == Some(
            identity.uid as nat,
        ) && gate::start_of(stat->0@) == Some(identity.start_time_ticks as nat) ==> r,
{
    if r {
        lemma_uid_line(scan::lines_of(status->0@));
    }
}

} // verus!
