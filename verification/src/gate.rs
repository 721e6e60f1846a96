//! Gates: kernel hooks that ask for a process, with evidence of what they saw.

use vstd::prelude::*;

use crate::auth::SocketRole;
use crate::context;
use crate::context::HostFacts;
use crate::context::ProcessQuery;
use crate::context::TrustedPeer;
use crate::error::PolicydError;
use crate::flow::IpAddress;
use crate::flow::NetworkFlowKey;
use crate::flow::ProcessIdentity;
use crate::flow::SocketIdentity;
use crate::freeze;
use crate::paths;
use crate::peer::ClientPeer;
use crate::scan;
use crate::state::SandboxSessionRegistration;
use crate::store::PolicyStore;
use crate::text;
use crate::types::DbusTarget;
use crate::types::FileAccess;
use crate::types::MergeContext;
use crate::types::ProcessIds;
use crate::types::RequestContext;
use crate::types::ResolvedRequestContext;
use crate::types::ResourceAccess;
use crate::types::ResourceKind;
use crate::types::SandboxPaths;

verus! {

/// A thread and the process that it belongs to.
#[derive(Clone, Copy, Debug, PartialEq, Eq, Structural)]
pub struct ThreadIdentity {
    pub tid: u32,
    pub tgid: u32,
}

/// What a file event showed.
#[derive(Debug, PartialEq, Eq)]
pub struct FanotifyEvidence {
    pub operation_id: u64,
    pub process: ProcessIdentity,
    pub opener: ThreadIdentity,
    pub cgroup: u64,
    pub path: String,
    pub access: FileAccess,
}

/// One of the things that a system call was about.
#[allow(inconsistent_fields)]
#[derive(Debug, PartialEq, Eq)]
pub enum SeccompSubcheck {
    /// The destination as it was given; none where it was no text.
    Network { destination: Option<String> },
    Filesystem { path: String, access: FileAccess },
    Resource { resource_kind: ResourceKind, path: String, access: ResourceAccess },
}

/// What a system call showed.
#[derive(Debug, PartialEq, Eq)]
pub struct SeccompEvidence {
    pub operation_id: u64,
    pub process: ProcessIdentity,
    pub thread: ThreadIdentity,
    pub cgroup: u64,
    pub subchecks: Vec<SeccompSubcheck>,
}

/// What a packet showed.
#[derive(Debug, PartialEq, Eq)]
pub struct NfqEvidence {
    pub operation_id: u64,
    pub owner: SocketIdentity,
    pub cgroup: u64,
    pub flow: NetworkFlowKey,
}

/// What a request to run a command showed.
#[derive(Debug, PartialEq, Eq)]
pub struct ElevationEvidence {
    pub operation_id: u64,
    pub peer: ProcessIdentity,
    pub cgroup: u64,
    pub argv: Vec<String>,
}

/// What a D-Bus message showed.
#[derive(Debug, PartialEq, Eq)]
pub struct DbusEvidence {
    pub serial: u32,
    pub peer: ProcessIdentity,
    pub cgroup: u64,
    pub target: DbusTarget,
}

/// Evidence, and the request that it was sent with.
#[allow(inconsistent_fields)]
#[derive(Debug, PartialEq, Eq)]
pub enum RoleEvidenceRequest {
    Fanotify { request_id: u64, evidence: FanotifyEvidence },
    Seccomp { request_id: u64, evidence: SeccompEvidence },
    Nfq { request_id: u64, evidence: NfqEvidence },
    Elevation { request_id: u64, evidence: ElevationEvidence },
    Dbus { request_id: u64, evidence: DbusEvidence },
    HttpBridge { request_id: u64 },
}

/// What a gate's request is about.
#[derive(Clone, Copy, Debug, PartialEq, Eq, Structural)]
pub enum GateKind {
    Network,
    Filesystem,
    Resource,
    Dbus,
    Elevation,
}

/// The process and the cgroup that evidence is about.
pub open spec fn subject(evidence: RoleEvidenceRequest) -> Option<(ProcessIdentity, u64)> {
    match evidence {
        RoleEvidenceRequest::Fanotify { evidence: e, .. } => Some((e.process, e.cgroup)),
        RoleEvidenceRequest::Seccomp { evidence: e, .. } => Some((e.process, e.cgroup)),
        RoleEvidenceRequest::Nfq { evidence: e, .. } => Some((e.owner.process, e.cgroup)),
        RoleEvidenceRequest::Elevation { evidence: e, .. } => Some((e.peer, e.cgroup)),
        RoleEvidenceRequest::Dbus { evidence: e, .. } => Some((e.peer, e.cgroup)),
        RoleEvidenceRequest::HttpBridge { .. } => None,
    }
}

/// The process that evidence is about.
pub open spec fn subject_process(evidence: RoleEvidenceRequest) -> ProcessIdentity {
    let (process, _cgroup) = subject(evidence)->0;
    process
}

/// The cgroup that evidence is about.
pub open spec fn subject_cgroup(evidence: RoleEvidenceRequest) -> u64 {
    let (_process, cgroup) = subject(evidence)->0;
    cgroup
}

/// The process and the cgroup that evidence is about.
pub fn evidence_subject(evidence: &RoleEvidenceRequest) -> (r: Option<(ProcessIdentity, u64)>)
    ensures
        r == subject(*evidence),
{
    match evidence {
        RoleEvidenceRequest::Fanotify { evidence: e, .. } => Some((e.process, e.cgroup)),
        RoleEvidenceRequest::Seccomp { evidence: e, .. } => Some((e.process, e.cgroup)),
        RoleEvidenceRequest::Nfq { evidence: e, .. } => Some((e.owner.process, e.cgroup)),
        RoleEvidenceRequest::Elevation { evidence: e, .. } => Some((e.peer, e.cgroup)),
        RoleEvidenceRequest::Dbus { evidence: e, .. } => Some((e.peer, e.cgroup)),
        RoleEvidenceRequest::HttpBridge { .. } => None,
    }
}

/// The thread that was seen belongs to the process.
pub open spec fn thread_agrees(evidence: RoleEvidenceRequest, process: ProcessIdentity) -> bool {
    match evidence {
        RoleEvidenceRequest::Fanotify { evidence: e, .. } => e.opener.tgid == process.pid,
        RoleEvidenceRequest::Seccomp { evidence: e, .. } => e.thread.tgid == process.pid,
        _ => true,
    }
}

/// Whether the thread that was seen belongs to the process.
pub fn evidence_thread_matches_process(
    evidence: &RoleEvidenceRequest,
    process: ProcessIdentity,
) -> (r: bool)
    ensures
        r == thread_agrees(*evidence, process),
{
    match evidence {
        RoleEvidenceRequest::Fanotify { evidence: e, .. } => e.opener.tgid == process.pid,
        RoleEvidenceRequest::Seccomp { evidence: e, .. } => e.thread.tgid == process.pid,
        _ => true,
    }
}

/// The request carries the number of the operation that the evidence is of.
pub open spec fn id_agrees(evidence: RoleEvidenceRequest) -> bool {
    match evidence {
        RoleEvidenceRequest::Fanotify { request_id, evidence: e } => request_id == e.operation_id,
        RoleEvidenceRequest::Seccomp { request_id, evidence: e } => request_id == e.operation_id,
        RoleEvidenceRequest::Nfq { request_id, evidence: e } => request_id == e.operation_id,
        RoleEvidenceRequest::Elevation { request_id, evidence: e } => request_id
            == e.operation_id,
        RoleEvidenceRequest::Dbus { request_id, evidence: e } => request_id == e.serial,
        RoleEvidenceRequest::HttpBridge { .. } => true,
    }
}

/// Whether the request carries the number of the operation that the evidence is of.
pub fn evidence_request_id_matches(evidence: &RoleEvidenceRequest) -> (r: bool)
    ensures
        r == id_agrees(*evidence),
{
    match evidence {
        RoleEvidenceRequest::Fanotify { request_id, evidence: e } => *request_id
            == e.operation_id,
        RoleEvidenceRequest::Seccomp { request_id, evidence: e } => *request_id == e.operation_id,
        RoleEvidenceRequest::Nfq { request_id, evidence: e } => *request_id == e.operation_id,
        RoleEvidenceRequest::Elevation { request_id, evidence: e } => *request_id
            == e.operation_id,
        RoleEvidenceRequest::Dbus { request_id, evidence: e } => *request_id == e.serial as u64,
        RoleEvidenceRequest::HttpBridge { .. } => true,
    }
}

/// The system call was about a file.
pub open spec fn about_file(subchecks: Seq<SeccompSubcheck>) -> bool {
    exists|i: int| 0 <= i < subchecks.len() && (#[trigger] subchecks[i]) is Filesystem
}

/// The system call was about a resource.
pub open spec fn about_resource(subchecks: Seq<SeccompSubcheck>) -> bool {
    exists|i: int| 0 <= i < subchecks.len() && (#[trigger] subchecks[i]) is Resource
}

/// The evidence is of a kind that the request can rest on.
pub open spec fn kind_agrees(kind: GateKind, evidence: RoleEvidenceRequest) -> bool {
    match (kind, evidence) {
        (GateKind::Network, RoleEvidenceRequest::Nfq { .. }) => true,
        (GateKind::Network, RoleEvidenceRequest::Seccomp { .. }) => true,
        (GateKind::Filesystem, RoleEvidenceRequest::Fanotify { .. }) => true,
        (GateKind::Filesystem, RoleEvidenceRequest::Seccomp { evidence: e, .. }) => about_file(
            e.subchecks@,
        ),
        (GateKind::Resource, RoleEvidenceRequest::Seccomp { evidence: e, .. }) => about_resource(
            e.subchecks@,
        ),
        (GateKind::Dbus, RoleEvidenceRequest::Dbus { .. }) => true,
        (GateKind::Elevation, RoleEvidenceRequest::Elevation { .. }) => true,
        _ => false,
    }
}

fn has_file(subchecks: &Vec<SeccompSubcheck>) -> (r: bool)
    ensures
        r == about_file(subchecks@),
{
    let mut i: usize = 0;
    while i < subchecks.len()
        invariant
            i <= subchecks@.len(),
            forall|j: int| 0 <= j < i ==> !((#[trigger] subchecks@[j]) is Filesystem),
        decreases subchecks@.len() - i,
    {
        if let SeccompSubcheck::Filesystem { .. } = &subchecks[i] {
            assert(subchecks@[i as int] is Filesystem);
            return true;
        }
        i += 1;
    }
    false
}

fn has_resource(subchecks: &Vec<SeccompSubcheck>) -> (r: bool)
    ensures
        r == about_resource(subchecks@),
{
    let mut i: usize = 0;
    while i < subchecks.len()
        invariant
            i <= subchecks@.len(),
            forall|j: int| 0 <= j < i ==> !((#[trigger] subchecks@[j]) is Resource),
        decreases subchecks@.len() - i,
    {
        if let SeccompSubcheck::Resource { .. } = &subchecks[i] {
            assert(subchecks@[i as int] is Resource);
            return true;
        }
        i += 1;
    }
    false
}

/// Whether the evidence is of a kind that the request can rest on.
pub fn evidence_kind_matches(kind: GateKind, evidence: &RoleEvidenceRequest) -> (r: bool)
    ensures
        r == kind_agrees(kind, *evidence),
{
    match (kind, evidence) {
        (GateKind::Network, RoleEvidenceRequest::Nfq { .. }) => true,
        (GateKind::Network, RoleEvidenceRequest::Seccomp { .. }) => true,
        (GateKind::Filesystem, RoleEvidenceRequest::Fanotify { .. }) => true,
        (GateKind::Filesystem, RoleEvidenceRequest::Seccomp { evidence: e, .. }) => has_file(
            &e.subchecks,
        ),
        (GateKind::Resource, RoleEvidenceRequest::Seccomp { evidence: e, .. }) => has_resource(
            &e.subchecks,
        ),
        (GateKind::Dbus, RoleEvidenceRequest::Dbus { .. }) => true,
        (GateKind::Elevation, RoleEvidenceRequest::Elevation { .. }) => true,
        _ => false,
    }
}

/// The cgroup that a process's `cgroup` file names.
pub open spec fn unified_cgroup(content: Seq<char>) -> Option<Seq<char>> {
    freeze::first_after(scan::lines_of(content), "0::"@)
}

/// The directory of the cgroup that a process's `cgroup` file names.
pub fn current_cgroup_directory(content: &str) -> (r: Option<String>)
    ensures
        match unified_cgroup(content@) {
            Some(path) => r matches Some(dir) && dir@ == "/sys/fs/cgroup"@ + path,
            None => r is None,
        },
{
    match freeze::line_after(content, "0::") {
        Some(path) => Some(text::join2("/sys/fs/cgroup", text::from_chars(&path).as_str())),
        None => None,
    }
}

/// The user that a line of a process's `status` file names.
pub open spec fn uid_of_line(line: Seq<char>) -> Option<nat> {
    match scan::after_prefix(line, "Uid:"@) {
        Some(rest) => context::field_number(scan::words_of(rest), 0, u32::MAX as nat),
        None => None,
    }
}

/// The user that a process's `status` file names.
pub open spec fn status_uid(lines: Seq<Seq<char>>) -> Option<nat>
    decreases lines.len(),
{
    if lines.len() == 0 {
        None
    } else if uid_of_line(lines[0]) is Some {
        uid_of_line(lines[0])
    } else {
        status_uid(lines.skip(1))
    }
}

/// What follows the last closing bracket that has a space behind it.
pub open spec fn after_name(stat: Seq<char>) -> Option<Seq<char>>
    decreases stat.len(),
{
    if stat.len() < 2 {
        None
    } else if stat[stat.len() - 2] == ')' && stat.last() == ' ' {
        Some(Seq::empty())
    } else {
        match after_name(stat.drop_last()) {
            Some(rest) => Some(rest.push(stat.last())),
            None => None,
        }
    }
}

/// The start time that a process's `stat` line names.
pub open spec fn start_of(stat: Seq<char>) -> Option<nat> {
    match after_name(stat) {
        Some(rest) => context::field_number(scan::words_of(rest), 19, u64::MAX as nat),
        None => None,
    }
}

/// The process runs as the user and since the time that it is known by.
pub open spec fn alive(
    identity: ProcessIdentity,
    status: Option<String>,
    stat: Option<String>,
) -> bool {
    &&& status is Some
    &&& status_uid(scan::lines_of(status->0@)) == Some(identity.uid as nat)
    &&& stat is Some
    &&& start_of(stat->0@) == Some(identity.start_time_ticks as nat)
}

fn word_number(words: &Vec<Vec<char>>, i: usize, max: u64) -> (r: Option<u64>)
    ensures
        match r {
            Some(n) => context::field_number(scan::pieces(words@), i as int, max as nat) == Some(
                n as nat,
            ),
            None => context::field_number(scan::pieces(words@), i as int, max as nat) is None,
        },
{
    let ghost ws = scan::pieces(words@);
    assert(ws.len() == words@.len());
    if i < words.len() {
        assert(ws[i as int] == words@[i as int]@);
        scan::number(&words[i], max)
    } else {
        None
    }
}

fn uid_in_status(status: &String) -> (r: Option<u64>)
    ensures
        match r {
            Some(n) => status_uid(scan::lines_of(status@)) == Some(n as nat),
            None => status_uid(scan::lines_of(status@)) is None,
        },
{
    let lines = scan::lines(&text::chars_of(status.as_str()));
    let ghost all = scan::lines_of(status@);
    let mut i: usize = 0;
    assert(all.skip(0) =~= all);
    while i < lines.len()
        invariant
            i <= lines@.len(),
            all == scan::pieces(lines@),
            all == scan::lines_of(status@),
            status_uid(all) == status_uid(all.skip(i as int)),
        decreases lines@.len() - i,
    {
        proof {
            assert(all.skip(i as int)[0] == lines@[i as int]@);
            assert(all.skip(i as int).skip(1) =~= all.skip(i + 1));
        }
        if let Some(rest) = scan::strip_prefix(&lines[i], "Uid:") {
            let words = scan::words(&rest);
            if let Some(uid) = word_number(&words, 0, u32::MAX as u64) {
                return Some(uid);
            }
        }
        i += 1;
    }
    assert(all.skip(lines@.len() as int) =~= Seq::empty());
    None
}

fn fields_after_name(stat: &Vec<char>) -> (r: Option<Vec<char>>)
    ensures
        match r {
            Some(rest) => after_name(stat@) == Some(rest@),
            None => after_name(stat@) is None,
        },
{
    let mut end: usize = stat.len();
    proof {
        assert(stat@.take(end as int) =~= stat@);
        if let Some(rest) = after_name(stat@) {
            assert(rest + stat@.subrange(end as int, stat@.len() as int) =~= rest);
        }
    }
    while end >= 2
        invariant
            end <= stat@.len(),
            match after_name(stat@.take(end as int)) {
                Some(rest) => after_name(stat@) == Some(
                    rest + stat@.subrange(end as int, stat@.len() as int),
                ),
                None => after_name(stat@) is None,
            },
        decreases end,
    {
        let ghost t = stat@.take(end as int);
        assert(t[t.len() - 2] == stat@[end - 2] && t.last() == stat@[end - 1]);
        if stat[end - 2] == ')' && stat[end - 1] == ' ' {
            let mut rest: Vec<char> = Vec::new();
            let mut i: usize = end;
            while i < stat.len()
                invariant
                    end <= i <= stat@.len(),
                    rest@ == stat@.subrange(end as int, i as int),
                decreases stat@.len() - i,
            {
                rest.push(stat[i]);
                i += 1;
                assert(rest@ =~= stat@.subrange(end as int, i as int));
            }
            assert(Seq::<char>::empty() + rest@ =~= rest@);
            return Some(rest);
        }
        proof {
            assert(t.drop_last() =~= stat@.take(end - 1));
            if let Some(rest) = after_name(t.drop_last()) {
                assert(rest.push(t.last()) + stat@.subrange(end as int, stat@.len() as int)
                    =~= rest + stat@.subrange(end - 1, stat@.len() as int));
            }
        }
        end -= 1;
    }
    None
}

/// Whether the process runs as the user and since the time that it is known by. `status` and
/// `stat` are the files that the kernel keeps of it, where it has them.
pub fn live_process(
    identity: ProcessIdentity,
    status: &Option<String>,
    stat: &Option<String>,
) -> (r: bool)
    ensures
        r == alive(identity, *status, *stat),
{
    let uid = match status {
        Some(status) => uid_in_status(status),
        None => None,
    };
    let start = match stat {
        Some(stat) => match fields_after_name(&text::chars_of(stat.as_str())) {
            Some(rest) => word_number(&scan::words(&rest), 19, u64::MAX),
            None => None,
        },
        None => None,
    };
    match (uid, start) {
        (Some(uid), Some(start)) => uid == identity.uid as u64 && start
            == identity.start_time_ticks,
        _ => false,
    }
}

/// What is found of a gate's evidence when the host is asked.
#[derive(Debug, PartialEq, Eq)]
pub struct GateFindings {
    /// The workspace that the producer's connection has attached the cgroup to.
    pub workspace: Option<String>,
    /// The cgroup that the peer is in.
    pub peer_cgroup: Option<u64>,
    /// The cgroup that the process of the evidence is in.
    pub process_cgroup: Option<u64>,
    /// The process of the evidence still runs.
    pub alive: bool,
}

/// The peer may speak of the process: it is root, or the same user's and the process itself or
/// one of its cgroup.
pub open spec fn peer_speaks_for(
    peer: ClientPeer,
    process: ProcessIdentity,
    cgroup: u64,
    findings: GateFindings,
) -> bool {
    peer.uid == 0 || (peer.uid == process.uid && (peer.pid == process.pid || findings.peer_cgroup
        == Some(cgroup)))
}

/// The evidence is believed.
pub open spec fn evidence_holds(
    peer: ClientPeer,
    role: SocketRole,
    kind: GateKind,
    evidence: RoleEvidenceRequest,
    findings: GateFindings,
) -> bool {
    &&& role == SocketRole::Host || role == SocketRole::Sandbox
    &&& id_agrees(evidence)
    &&& kind_agrees(kind, evidence)
    &&& match subject(evidence) {
        Some((process, cgroup)) => {
            &&& findings.workspace is Some
            &&& peer_speaks_for(peer, process, cgroup, findings)
            &&& findings.alive
            &&& thread_agrees(evidence, process)
            &&& findings.process_cgroup == Some(cgroup)
        },
        None => false,
    }
}

/// Check evidence: the process that it is about, and the workspace that it belongs to.
pub fn check_evidence(
    peer: ClientPeer,
    role: SocketRole,
    kind: GateKind,
    evidence: &RoleEvidenceRequest,
    findings: &GateFindings,
) -> (r: Result<(ProcessIdentity, String), PolicydError>)
    ensures
        if evidence_holds(peer, role, kind, *evidence, *findings) {
            r == Ok::<_, PolicydError>((subject_process(*evidence), findings.workspace->0))
        } else {
            r == Err::<(ProcessIdentity, String), _>(PolicydError::InvalidGateEvidence)
        },
{
    if !(role == SocketRole::Host || role == SocketRole::Sandbox) || !evidence_request_id_matches(
        evidence,
    ) || !evidence_kind_matches(kind, evidence) {
        return Err(PolicydError::InvalidGateEvidence);
    }
    let (process, cgroup) = match evidence_subject(evidence) {
        Some(subject) => subject,
        None => {
            return Err(PolicydError::InvalidGateEvidence);
        },
    };
    let workspace = match &findings.workspace {
        Some(workspace) => workspace,
        None => {
            return Err(PolicydError::InvalidGateEvidence);
        },
    };
    let same_cgroup = match findings.peer_cgroup {
        Some(found) => found == cgroup,
        None => false,
    };
    let speaks = peer.uid == 0 || (peer.uid == process.uid && (peer.pid == process.pid
        || same_cgroup));
    if !speaks || !findings.alive || !evidence_thread_matches_process(evidence, process) {
        return Err(PolicydError::InvalidGateEvidence);
    }
    match findings.process_cgroup {
        Some(found) => {
            if found == cgroup {
                Ok((process, workspace.clone()))
            } else {
                Err(PolicydError::InvalidGateEvidence)
            }
        },
        None => Err(PolicydError::InvalidGateEvidence),
    }
}

/// The context that a gate's evidence stands in for: the process alone.
pub open spec fn evidence_context(ctx: RequestContext, process: ProcessIdentity) -> MergeContext {
    MergeContext {
        paths: SandboxPaths { cwd: None, home: None, project_root: None },
        ids: ProcessIds { pid: Some(process.pid), uid: Some(process.uid) },
        sandbox_session_id: ctx.sandbox_session_id,
    }
}

/// The context that the D-Bus proxy's request stands in for: the process that it names, where it
/// is not another user's.
pub open spec fn bus_context(ctx: RequestContext, peer: ClientPeer) -> MergeContext {
    MergeContext {
        paths: SandboxPaths { cwd: None, home: None, project_root: None },
        ids: ProcessIds {
            pid: if ctx.uid is None || ctx.uid == Some(peer.uid) {
                ctx.pid
            } else {
                None
            },
            uid: Some(peer.uid),
        },
        sandbox_session_id: ctx.sandbox_session_id,
    }
}

/// The sandbox sessions after a request's context has been looked at.
pub open spec fn sessions_noted<A: Fn(&u32, &u32) -> bool>(
    sessions: Map<Seq<char>, SandboxSessionRegistration>,
    peer: ClientPeer,
    role: SocketRole,
    ctx: RequestContext,
    descends: A,
) -> Map<Seq<char>, SandboxSessionRegistration> {
    if role == SocketRole::Sandbox && ctx.sandbox_session_id is Some {
        context::peer_noted(
            sessions,
            TrustedPeer { pid: peer.pid, uid: peer.uid },
            ctx.sandbox_session_id->0@,
            descends,
        )
    } else {
        sessions
    }
}

/// What the context of a request stands for: root is believed, everybody else is looked up.
pub open spec fn request_context<
    A: Fn(&u32, &u32) -> bool,
    S: Fn(&u32) -> Option<String>,
    H: Fn(&u32) -> Option<String>,
    C: Fn(&ProcessQuery) -> Option<String>,
>(
    sessions: Map<Seq<char>, SandboxSessionRegistration>,
    peer: ClientPeer,
    ctx: RequestContext,
    facts: HostFacts<A, S, H, C>,
) -> ResolvedRequestContext {
    if peer.uid == 0 {
        context::trusted_context(sessions, MergeContext::grouped(ctx), facts)
    } else {
        context::peer_resolved(
            sessions,
            MergeContext::grouped(ctx),
            TrustedPeer { pid: peer.pid, uid: peer.uid },
            true,
            facts,
        )
    }
}

/// What the context of the D-Bus proxy's request stands for: nobody is believed.
pub open spec fn bus_request_context<
    A: Fn(&u32, &u32) -> bool,
    S: Fn(&u32) -> Option<String>,
    H: Fn(&u32) -> Option<String>,
    C: Fn(&ProcessQuery) -> Option<String>,
>(
    sessions: Map<Seq<char>, SandboxSessionRegistration>,
    peer: ClientPeer,
    ctx: RequestContext,
    facts: HostFacts<A, S, H, C>,
) -> ResolvedRequestContext {
    context::peer_resolved(
        sessions,
        bus_context(ctx, peer),
        TrustedPeer { pid: peer.pid, uid: peer.uid },
        false,
        facts,
    )
}

impl PolicyStore {
    /// What the context of a request stands for. A sandbox peer is taken note of.
    pub fn resolve_request_context<
        A: Fn(&u32, &u32) -> bool,
        S: Fn(&u32) -> Option<String>,
        H: Fn(&u32) -> Option<String>,
        C: Fn(&ProcessQuery) -> Option<String>,
    >(
        &mut self,
        peer: ClientPeer,
        role: SocketRole,
        ctx: &RequestContext,
        facts: &HostFacts<A, S, H, C>,
    ) -> (r: ResolvedRequestContext)
        requires
            old(self).wf(),
            facts.settled(),
        ensures
            final(self).wf(),
            final(self).configured_as(old(self)),
            final(self).sessions_changed(old(self)),
            final(self).sandbox_sessions@ == sessions_noted(
                old(self).sandbox_sessions@,
                peer,
                role,
                *ctx,
                *facts.descends,
            ),
            r == request_context(final(self).sandbox_sessions@, peer, *ctx, *facts),
    {
        if role == SocketRole::Sandbox {
            if let Some(id) = &ctx.sandbox_session_id {
                self.note_sandbox_peer(peer.trusted(), id, facts.descends);
            }
        }
        let merged = MergeContext::from_request(ctx);
        self.resolve_context_with_peer(&merged, Some(peer.trusted()), facts)
    }

    /// What the context of a gate's request stands for. A request with evidence brings neither
    /// paths nor processes of its own: they come from what the kernel saw. `findings` is what
    /// the host tells of the evidence.
    pub fn resolve_gate_context<
        A: Fn(&u32, &u32) -> bool,
        S: Fn(&u32) -> Option<String>,
        H: Fn(&u32) -> Option<String>,
        C: Fn(&ProcessQuery) -> Option<String>,
    >(
        &mut self,
        peer: ClientPeer,
        role: SocketRole,
        kind: GateKind,
        ctx: &RequestContext,
        evidence: &RoleEvidenceRequest,
        findings: &GateFindings,
        facts: &HostFacts<A, S, H, C>,
    ) -> (r: Result<ResolvedRequestContext, PolicydError>)
        requires
            old(self).wf(),
            facts.settled(),
        ensures
            final(self).configured_as(old(self)),
            *final(self) == *old(self),
            if evidence_holds(peer, role, kind, *evidence, *findings) {
                let process = subject_process(*evidence);
                let seen = context::peer_resolved(
                    old(self).sandbox_sessions@,
                    evidence_context(*ctx, process),
                    TrustedPeer { pid: process.pid, uid: process.uid },
                    false,
                    *facts,
                );
                r == Ok::<_, PolicydError>(
                    ResolvedRequestContext {
                        paths: SandboxPaths {
                            project_root: findings.workspace,
                            ..seen.paths
                        },
                        ..seen
                    },
                )
            } else {
                r == Err::<ResolvedRequestContext, _>(PolicydError::InvalidGateEvidence)
            },
    {
        let (process, workspace) = match check_evidence(peer, role, kind, evidence, findings) {
            Ok(checked) => checked,
            Err(error) => {
                return Err(error);
            },
        };
        let mut merged = MergeContext::from_request(ctx);
        merged.paths = SandboxPaths::default();
        merged.ids = ProcessIds { pid: Some(process.pid), uid: Some(process.uid) };
        let mut resolved = self.resolve_gate_context_with_peer(
            &merged,
            TrustedPeer { pid: process.pid, uid: process.uid },
            facts,
        );
        let attached = SandboxPaths { cwd: None, home: None, project_root: Some(workspace) };
        resolved.paths = resolved.paths.merged_with(&attached);
        Ok(resolved)
    }

    /// What the context of a gate's request without evidence stands for: the D-Bus proxy's, or
    /// that of any other request.
    pub fn resolve_plain_gate_context<
        A: Fn(&u32, &u32) -> bool,
        S: Fn(&u32) -> Option<String>,
        H: Fn(&u32) -> Option<String>,
        C: Fn(&ProcessQuery) -> Option<String>,
    >(
        &mut self,
        peer: ClientPeer,
        role: SocketRole,
        kind: GateKind,
        ctx: &RequestContext,
        facts: &HostFacts<A, S, H, C>,
    ) -> (r: ResolvedRequestContext)
        requires
            old(self).wf(),
            facts.settled(),
        ensures
            final(self).wf(),
            final(self).configured_as(old(self)),
            final(self).sessions_changed(old(self)),
            final(self).sandbox_sessions@ == sessions_noted(
                old(self).sandbox_sessions@,
                peer,
                role,
                *ctx,
                *facts.descends,
            ),
            r == (if kind == GateKind::Dbus && role == SocketRole::Host {
                bus_request_context(final(self).sandbox_sessions@, peer, *ctx, *facts)
            } else {
                request_context(final(self).sandbox_sessions@, peer, *ctx, *facts)
            }),
    {
        if kind == GateKind::Dbus && role == SocketRole::Host {
            let own = match ctx.uid {
                Some(uid) => uid == peer.uid,
                None => true,
            };
            let pid = if own {
                ctx.pid
            } else {
                None
            };
            let mut merged = MergeContext::from_request(ctx);
            merged.paths = SandboxPaths::default();
            merged.ids = ProcessIds { pid, uid: Some(peer.uid) };
            return self.resolve_gate_context_with_peer(&merged, peer.trusted(), facts);
        }
        self.resolve_request_context(peer, role, ctx, facts)
    }
}

/// A system call's destination is the named host or the address.
pub open spec fn destination_named(
    subcheck: SeccompSubcheck,
    host: Option<String>,
    connect_host: Option<String>,
) -> bool {
    &&& subcheck matches SeccompSubcheck::Network { destination }
    &&& destination is Some
    &&& text::opt_text(destination) == text::opt_text(host) || text::opt_text(destination)
        == text::opt_text(connect_host)
}

/// The evidence is of the flow that a network request is about. `connect_ip` is the address that
/// `connect_host` writes, where it writes one.
pub open spec fn network_agrees(
    host: Option<String>,
    connect_host: Option<String>,
    connect_ip: Option<IpAddress>,
    port: Option<u16>,
    evidence: RoleEvidenceRequest,
) -> bool {
    match evidence {
        RoleEvidenceRequest::Nfq { evidence: e, .. } => connect_ip == Some(e.flow.destination_ip)
            && port == Some(e.flow.destination_port),
        RoleEvidenceRequest::Seccomp { evidence: e, .. } => exists|i: int|
            0 <= i < e.subchecks@.len() && destination_named(
                #[trigger] e.subchecks@[i],
                host,
                connect_host,
            ),
        _ => false,
    }
}

fn names_destination(
    subcheck: &SeccompSubcheck,
    host: &Option<String>,
    connect_host: &Option<String>,
) -> (r: bool)
    ensures
        r == destination_named(*subcheck, *host, *connect_host),
{
    match subcheck {
        SeccompSubcheck::Network { destination } => destination.is_some() && (text::same_opt(
            destination,
            host,
        ) || text::same_opt(destination, connect_host)),
        _ => false,
    }
}

/// Whether the evidence is of the flow that a network request is about.
pub fn network_evidence_matches(
    host: &Option<String>,
    connect_host: &Option<String>,
    connect_ip: Option<IpAddress>,
    port: Option<u16>,
    evidence: &RoleEvidenceRequest,
) -> (r: bool)
    ensures
        r == network_agrees(*host, *connect_host, connect_ip, port, *evidence),
{
    match evidence {
        RoleEvidenceRequest::Nfq { evidence: e, .. } => match (connect_ip, port) {
            (Some(ip), Some(port)) => ip == e.flow.destination_ip && port
                == e.flow.destination_port,
            _ => false,
        },
        RoleEvidenceRequest::Seccomp { evidence: e, .. } => {
            let mut i: usize = 0;
            while i < e.subchecks.len()
                invariant
                    *evidence matches RoleEvidenceRequest::Seccomp { evidence: seen, .. } && seen
                        == *e,
                    i <= e.subchecks@.len(),
                    forall|j: int|
                        0 <= j < i ==> !destination_named(
                            #[trigger] e.subchecks@[j],
                            *host,
                            *connect_host,
                        ),
                decreases e.subchecks@.len() - i,
            {
                if names_destination(&e.subchecks[i], host, connect_host) {
                    assert(destination_named(e.subchecks@[i as int], *host, *connect_host));
                    return true;
                }
                i += 1;
            }
            false
        },
        _ => false,
    }
}

/// Whether the evidence is of the D-Bus message that a request is about.
pub fn dbus_evidence_matches(target: &DbusTarget, evidence: &RoleEvidenceRequest) -> (r: bool)
    ensures
        r == (*evidence matches RoleEvidenceRequest::Dbus { evidence: e, .. } && e.target@
            == target@),
{
    match evidence {
        RoleEvidenceRequest::Dbus { evidence: e, .. } => e.target.same(target),
        _ => false,
    }
}

/// Whether the evidence is of the command that a request is about.
pub fn elevation_evidence_matches(argv: &Vec<String>, evidence: &RoleEvidenceRequest) -> (r: bool)
    ensures
        r == (*evidence matches RoleEvidenceRequest::Elevation { evidence: e, .. } && text::texts(
            e.argv@,
        ) == text::texts(argv@)),
{
    match evidence {
        RoleEvidenceRequest::Elevation { evidence: e, .. } => text::same_texts(&e.argv, argv),
        _ => false,
    }
}

/// The system call was about the file and the access.
pub open spec fn file_named(subcheck: SeccompSubcheck, path: Seq<char>, access: FileAccess) -> bool {
    subcheck matches SeccompSubcheck::Filesystem { path: captured, access: captured_access }
        && paths::components(captured@) == paths::components(path) && captured_access == access
}

/// The evidence is of the file access that a request is about.
pub open spec fn filesystem_agrees(
    path: Seq<char>,
    access: FileAccess,
    evidence: RoleEvidenceRequest,
) -> bool {
    match evidence {
        RoleEvidenceRequest::Fanotify { evidence: e, .. } => paths::components(e.path@)
            == paths::components(path) && e.access == access,
        RoleEvidenceRequest::Seccomp { evidence: e, .. } => exists|i: int|
            0 <= i < e.subchecks@.len() && file_named(#[trigger] e.subchecks@[i], path, access),
        _ => false,
    }
}

/// Whether the evidence is of the file access that a request is about.
pub fn filesystem_evidence_matches(
    path: &str,
    access: FileAccess,
    evidence: &RoleEvidenceRequest,
) -> (r: bool)
    ensures
        r == filesystem_agrees(path@, access, *evidence),
{
    match evidence {
        RoleEvidenceRequest::Fanotify { evidence: e, .. } => paths::same_path(
            e.path.as_str(),
            path,
        ) && e.access == access,
        RoleEvidenceRequest::Seccomp { evidence: e, .. } => {
            let mut i: usize = 0;
            while i < e.subchecks.len()
                invariant
                    *evidence matches RoleEvidenceRequest::Seccomp { evidence: seen, .. } && seen
                        == *e,
                    i <= e.subchecks@.len(),
                    forall|j: int|
                        0 <= j < i ==> !file_named(#[trigger] e.subchecks@[j], path@, access),
                decreases e.subchecks@.len() - i,
            {
                if let SeccompSubcheck::Filesystem { path: captured, access: captured_access } =
                    &e.subchecks[i] {
                    if paths::same_path(captured.as_str(), path) && *captured_access == access {
                        assert(file_named(e.subchecks@[i as int], path@, access));
                        return true;
                    }
                }
                i += 1;
            }
            false
        },
        _ => false,
    }
}

/// The system call was about the resource and the access.
pub open spec fn resource_named(
    subcheck: SeccompSubcheck,
    kind: ResourceKind,
    path: Seq<char>,
    access: ResourceAccess,
) -> bool {
    subcheck matches SeccompSubcheck::Resource {
        resource_kind,
        path: captured,
        access: captured_access,
    } && resource_kind == kind && paths::components(captured@) == paths::components(path)
        && captured_access == access
}

/// The evidence is of the resource that a request is about.
pub open spec fn resource_agrees(
    kind: ResourceKind,
    path: Seq<char>,
    access: ResourceAccess,
    evidence: RoleEvidenceRequest,
) -> bool {
    match evidence {
        RoleEvidenceRequest::Seccomp { evidence: e, .. } => exists|i: int|
            0 <= i < e.subchecks@.len() && resource_named(
                #[trigger] e.subchecks@[i],
                kind,
                path,
                access,
            ),
        _ => false,
    }
}

/// Whether the evidence is of the resource that a request is about.
pub fn resource_evidence_matches(
    kind: ResourceKind,
    path: &str,
    access: ResourceAccess,
    evidence: &RoleEvidenceRequest,
) -> (r: bool)
    ensures
        r == resource_agrees(kind, path@, access, *evidence),
{
    match evidence {
        RoleEvidenceRequest::Seccomp { evidence: e, .. } => {
            let mut i: usize = 0;
            while i < e.subchecks.len()
                invariant
                    *evidence matches RoleEvidenceRequest::Seccomp { evidence: seen, .. } && seen
                        == *e,
                    i <= e.subchecks@.len(),
                    forall|j: int|
                        0 <= j < i ==> !resource_named(
                            #[trigger] e.subchecks@[j],
                            kind,
                            path@,
                            access,
                        ),
                decreases e.subchecks@.len() - i,
            {
                if let SeccompSubcheck::Resource {
                    resource_kind,
                    path: captured,
                    access: captured_access,
                } = &e.subchecks[i] {
                    if *resource_kind == kind && paths::same_path(captured.as_str(), path)
                        && *captured_access == access {
                        assert(resource_named(e.subchecks@[i as int], kind, path@, access));
                        return true;
                    }
                }
                i += 1;
            }
            false
        },
        _ => false,
    }
}

/// Evidence from a cgroup that the producer's connection has not attached is never believed, not
/// even of root.
pub proof fn law_unattached_cgroup_is_refused(
    peer: ClientPeer,
    role: SocketRole,
    kind: GateKind,
    evidence: RoleEvidenceRequest,
    findings: GateFindings,
)
    requires
        findings.workspace is None,
    ensures
        !evidence_holds(peer, role, kind, evidence, findings),
{
}

/// Evidence that is believed is of a process that runs, in the cgroup that it was seen in, and
/// nobody but root speaks of another user's process.
pub proof fn law_evidence_is_current(
    peer: ClientPeer,
    role: SocketRole,
    kind: GateKind,
    evidence: RoleEvidenceRequest,
    findings: GateFindings,
)
    requires
        evidence_holds(peer, role, kind, evidence, findings),
    ensures
        findings.alive,
        subject(evidence) is Some,
        findings.process_cgroup == Some(subject_cgroup(evidence)),
        peer.uid == 0 || peer.uid == subject_process(evidence).uid,
{
}

/// What a gate's request says of its paths, processes and session counts for nothing beside its
/// evidence.
pub proof fn law_evidence_outweighs_the_wire<
    'a,
    A: Fn(&u32, &u32) -> bool,
    S: Fn(&u32) -> Option<String>,
    H: Fn(&u32) -> Option<String>,
    C: Fn(&ProcessQuery) -> Option<String>,
>(
    store: PolicyStore,
    ctx: RequestContext,
    forged: RequestContext,
    process: ProcessIdentity,
    peer: TrustedPeer,
    facts: HostFacts<'a, A, S, H, C>,
)
    ensures
        context::peer_resolved(
            store.sandbox_sessions@,
            evidence_context(ctx, process),
            peer,
            false,
            facts,
        ) == context::peer_resolved(
            store.sandbox_sessions@,
            evidence_context(forged, process),
            peer,
            false,
            facts,
        ),
{
}

} // verus!
