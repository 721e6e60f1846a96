//! What the user's decisions come to: who may decide, what a decision speaks of, what is run, and
//! what those who wait are told.

use vstd::prelude::*;

use crate::decide;
use crate::decide::ApprovedRun;
use crate::decide::DbusScopeOp;
use crate::decide::Decided;
use crate::decide::DecisionStep;
use crate::decide::FilesystemScopeOp;
use crate::decide::HostApproveRequest;
use crate::decide::NetworkScopeOp;
use crate::decide::ResourceScopeOp;
use crate::decide::ScopeActionReply;
use crate::decide::ScopeResult;
use crate::decide::SudoApplied;
use crate::decide::SudoDecided;
use crate::decide::SudoScopeOp;
use crate::decide::TargetTests;
use crate::decisions;
use crate::decisions::ApprovalTarget;
use crate::decisions::DecisionAction;
use crate::decisions::PathQuery;
use crate::decisions::PendingDecision;
use crate::decisions::ScopeWire;
use crate::decisions::TakenPendingDecision;
use crate::elevation::ElevateReply;
use crate::elevation::ElevationDelivery;
use crate::error::PolicydError;
use crate::filesystem::FilesystemDelivery;
use crate::filesystem::ResourceDelivery;
use crate::network::NetworkDelivery;
use crate::paths;
use crate::state::NetworkRuleKey;
use crate::state::Pending;
use crate::state::PendingDbus;
use crate::state::PendingElevation;
use crate::state::PendingFilesystem;
use crate::state::PendingNetwork;
use crate::state::PendingResource;
use crate::store::PolicyStore;
use crate::text;
use crate::types::ApprovalScope;
use crate::types::DbusTarget;
use crate::types::FileAccess;
use crate::types::FilesystemRule;
use crate::types::Policy;
use crate::types::ResourceAccess;
use crate::types::ResourceRule;
use crate::types::SocketAccess;
use crate::types::VerdictSource;

verus! {

/// The request waits again under its id, every other request waits as before, and nothing else
/// is touched.
pub open spec fn waits_again(before: PolicyStore, after: PolicyStore, pending: Pending) -> bool {
    &&& after.pending@ == before.pending@.insert(pending.spec_id()@, pending)
    &&& after.session == before.session
    &&& after.waiters == before.waiters
    &&& after.caches == before.caches
    &&& after.http == before.http
}

// Who may decide.

/// A client may decide on a request of a sandbox session only through a connected UI session of
/// that very sandbox session, and as that session's owner where it is a user; or as the owner of
/// the sandbox session; or, where no UI session and no sandbox session is in play, as root.
pub proof fn law_only_those_concerned_decide(
    store: &PolicyStore,
    client_id: u64,
    ui_session_id: &Option<String>,
    sandbox_session_id: &Option<String>,
    approver_uid: Option<u32>,
    r: bool,
)
    requires
        call_ensures(
            PolicyStore::approval_client_authorized,
            (store, client_id, ui_session_id, sandbox_session_id, approver_uid),
            r,
        ),
        r,
    ensures
        ({
            ||| exists|session: Seq<char>|
                {
                    let ctx = store.ui.contexts@[session];
                    &&& #[trigger] store.ui.contexts@.contains_key(session)
                    &&& store.ui.clients@.contains_key(ctx.client_id)
                    &&& store.ui.clients@[ctx.client_id].session_id@ == session
                    &&& text::opt_text(ctx.sandbox_session_id) == text::opt_text(
                        *sandbox_session_id,
                    )
                    &&& approver_uid is Some ==> approver_uid->0 > 0 && ctx.owner_uid
                        == approver_uid
                    &&& if store.ui.clients@.contains_key(client_id) {
                        store.ui.clients@[client_id].session_id@ == session
                    } else {
                        ui_session_id is Some && ui_session_id->0@ == session
                    }
                }
            ||| {
                &&& approver_uid is None
                &&& *sandbox_session_id is None
                &&& *ui_session_id is None
                &&& !store.ui.clients@.contains_key(client_id)
            }
            ||| {
                &&& approver_uid is Some
                &&& approver_uid->0 > 0
                &&& *sandbox_session_id is Some
                &&& store.sandbox_sessions@.contains_key(sandbox_session_id->0@)
                &&& store.sandbox_sessions@[sandbox_session_id->0@].owner_uid == approver_uid->0
            }
        }),
{
}

/// The owner of a sandbox session may decide on its requests, whatever UI is connected; so may a
/// connected UI session of it whose owner decides.
pub proof fn law_those_concerned_may_decide(
    store: &PolicyStore,
    client_id: u64,
    ui_session_id: &Option<String>,
    sandbox_session_id: &Option<String>,
    approver_uid: Option<u32>,
    r: bool,
)
    requires
        call_ensures(
            PolicyStore::approval_client_authorized,
            (store, client_id, ui_session_id, sandbox_session_id, approver_uid),
            r,
        ),
    ensures
        approver_uid is Some && approver_uid->0 > 0 && *sandbox_session_id is Some
            && store.sandbox_sessions@.contains_key(sandbox_session_id->0@)
            && store.sandbox_sessions@[sandbox_session_id->0@].owner_uid == approver_uid->0 ==> r,
        store.ui.clients@.contains_key(client_id) && ({
            let session = store.ui.clients@[client_id].session_id@;
            let ctx = store.ui.contexts@[session];
            &&& store.ui.contexts@.contains_key(session)
            &&& ctx.client_id == client_id
            &&& text::opt_text(ctx.sandbox_session_id) == text::opt_text(*sandbox_session_id)
            &&& approver_uid is Some ==> approver_uid->0 > 0 && ctx.owner_uid == approver_uid
        }) ==> r,
{
}

/// A decision takes the request that it names off the board, and no other; it is refused, and
/// everything waits on, where the request is not known or the client may not decide on it.
pub proof fn law_decision_takes_the_request_it_names(
    store: &mut PolicyStore,
    look: &PolicyStore,
    decision: PendingDecision,
    r: Result<TakenPendingDecision, PolicydError>,
    may: bool,
)
    requires
        *look == *old(store),
        call_ensures(PolicyStore::take_pending_decision, (store, decision), r),
        old(store).pending@.contains_key(decision.pending_id@) ==> exists|session: Option<String>|
            session == old(store).pending@[decision.pending_id@].session() && #[trigger]
                call_ensures(
                    PolicyStore::approval_client_authorized,
                    (
                        look,
                        decision.client_id,
                        &decision.wire.session_id,
                        &session,
                        decision.approver_uid,
                    ),
                    may,
                ),
    ensures
        match r {
            Ok(taken) => {
                &&& may
                &&& old(store).pending@.contains_key(decision.pending_id@)
                &&& taken.pending == old(store).pending@[decision.pending_id@]
                &&& taken.scope == decision.scope
                &&& taken.target == decision.target
                &&& taken.wire == decision.wire
                &&& final(store).pending@ == old(store).pending@.remove(decision.pending_id@)
            },
            Err(error) => {
                &&& final(store).pending@ == old(store).pending@
                &&& !old(store).pending@.contains_key(decision.pending_id@) || !may
            },
        },
        final(store).session == old(store).session,
        final(store).waiters == old(store).waiters,
{
}

// Network requests.

/// A decision on a network request speaks of its port, and of a host pattern that covers its
/// host. Only a single-use approval takes effect at once: its callers are told that they are
/// allowed once. Every other decision is first to be put in force, with nobody told. A decision
/// whose target does not fit leaves the request waiting.
pub proof fn law_network_decision_speaks_of_its_request<H: Fn(&String, &String) -> bool>(
    store: &mut PolicyStore,
    net: PendingNetwork,
    wire: ScopeWire,
    scope: ApprovalScope,
    target: &Option<ApprovalTarget>,
    action: DecisionAction,
    host_matches: &H,
    now: u64,
    r: Decided<NetworkScopeOp, PendingNetwork, NetworkDelivery>,
)
    requires
        call_ensures(
            PolicyStore::apply_pending_network_decision::<H>,
            (store, net, wire, scope, target, action, host_matches, now),
            r,
        ),
    ensures
        match r {
            Decided::Refused(_) => waits_again(*old(store), *final(store), Pending::Network(net)),
            Decided::Done { reply, delivery } => {
                &&& action is Approve
                &&& scope is Once
                &&& old(store).waiters.network@.contains_key(net.id@) ==> delivery is Some
                &&& delivery matches Some(told) ==> {
                    &&& told.reply.allowed
                    &&& told.reply.source == VerdictSource::Scope(ApprovalScope::Once)
                    &&& told.told@.len() == old(store).waiters.network@[net.id@]@.len()
                    &&& forall|i: int|
                        0 <= i < told.told@.len() ==> #[trigger] told.told@[i] == old(store).waiters.network@[net.id@]@[i].waiter
                }
                &&& reply is Network && reply->Network_host@ == net.host@ && reply->Network_port
                    == net.port
            },
            Decided::Apply { op, pending } => {
                &&& action is Deny || !(scope is Once)
                &&& op.port == net.port
                &&& op.scope == scope
                &&& text::relates(*host_matches, op.host, net.host)
                &&& scope is Once ==> op.host@ == net.host@
                &&& target is None ==> op.host == net.host
                &&& pending == net
                &&& *final(store) == *old(store)
            },
        },
        (*target is None || (*target matches Some(ApprovalTarget::NetworkHost(named)) && named
            == net.host)) && text::relates(*host_matches, net.host, net.host) ==> !(r is Refused),
{
    let b = old(store).network_board();
    assert(b.waiters.dom() =~= old(store).waiters.network@.dom());
    if b.waiters.contains_key(net.id@) {
        assert(b.waiters[net.id@] == old(store).waiters.network@[net.id@]@);
    }
}

/// Once a network decision is in force its callers are told just that: an approval allows them,
/// a denial does not. An approval that could not be put in force allows nobody, and a denial that
/// could not be leaves the request waiting with nobody told.
pub proof fn law_network_decision_is_told_as_it_was_made(
    store: &mut PolicyStore,
    net: PendingNetwork,
    op: &NetworkScopeOp,
    action: DecisionAction,
    succeeded: bool,
    now: u64,
    r: Option<NetworkDelivery>,
)
    requires
        call_ensures(
            PolicyStore::complete_network_decision,
            (store, net, op, action, succeeded, now),
            r,
        ),
    ensures
        r matches Some(told) ==> {
            &&& told.reply.allowed <==> action is Approve && succeeded
            &&& action is Approve && succeeded ==> told.reply.source == VerdictSource::Scope(
                op.scope,
            )
            &&& action is Deny ==> told.reply.source is User
            &&& !succeeded ==> told.reply.source is Blocked
            &&& told.told@.len() == old(store).waiters.network@[net.id@]@.len()
            &&& forall|i: int|
                0 <= i < told.told@.len() ==> #[trigger] told.told@[i] == old(store).waiters.network@[net.id@]@[i].waiter
        },
        action is Deny && !succeeded ==> r is None && waits_again(
            *old(store),
            *final(store),
            Pending::Network(net),
        ),
        (action is Approve || succeeded) && old(store).waiters.network@.contains_key(net.id@)
            ==> r is Some,
        action is Approve || succeeded ==> !final(store).waiters.network@.contains_key(net.id@),
{
    let (b, a) = (old(store).network_board(), final(store).network_board());
    assert(b.waiters.dom() =~= old(store).waiters.network@.dom());
    assert(a.waiters.dom() =~= final(store).waiters.network@.dom());
    if b.waiters.contains_key(net.id@) {
        assert(b.waiters[net.id@] == old(store).waiters.network@[net.id@]@);
    }
}

// Commands.

/// A denial of a command never runs anything, and an approval never refuses what fits: a denial
/// once tells the caller that it is denied, an approval once runs the very command that was asked
/// about, in the directories that it was asked from. A decision for longer is first to be put in
/// force, on words that the command may be approved by, with nobody told and nothing run.
pub proof fn law_denied_command_is_not_run<S: Fn(&Vec<String>, &Vec<String>) -> bool>(
    store: &mut PolicyStore,
    elev: PendingElevation,
    wire: ScopeWire,
    scope: ApprovalScope,
    target: &Option<ApprovalTarget>,
    action: DecisionAction,
    has_prefix: &S,
    r: SudoDecided,
)
    requires
        call_ensures(
            PolicyStore::apply_pending_sudo_decision::<S>,
            (store, elev, wire, scope, target, action, has_prefix),
            r,
        ),
    ensures
        match r {
            SudoDecided::Refused(_) => waits_again(
                *old(store),
                *final(store),
                Pending::Elevation(elev),
            ),
            SudoDecided::Done { reply, delivery } => {
                &&& action is Deny
                &&& scope is Once
                &&& old(store).waiters.elevation@.contains_key(elev.id@) ==> delivery is Some
                &&& delivery matches Some(told) ==> told.told == old(store).waiters.elevation@[elev.id@] && told.reply is Denied
            },
            SudoDecided::Execute(run) => {
                &&& action is Approve
                &&& scope is Once
                &&& run.scope is Once
                &&& text::texts(run.argv@) == text::texts(elev.argv@)
                &&& run.pending == elev
                &&& elev.context.cwd is Some ==> run.cwd == elev.context.cwd
                &&& elev.context.home is Some ==> run.home == elev.context.home
                &&& run.saved is None
                &&& *final(store) == *old(store)
            },
            SudoDecided::Apply { op, pending } => {
                &&& !(scope is Once)
                &&& op.scope == scope
                &&& exists|words: Vec<String>|
                    words@ == op.argv@ && #[trigger] text::relates(*has_prefix, elev.argv, words)
                &&& *target is None ==> op.argv@ == elev.argv@
                &&& pending == elev
                &&& *final(store) == *old(store)
            },
        },
        *target is None && text::relates(*has_prefix, elev.argv, elev.argv) ==> !(r is Refused),
{
}

/// Following up on a denial of a command never comes to a run, and on an approval never to a
/// denial. Where the denial was put in force its caller is told that it is denied, and waits no
/// more. What runs is the command that was put in force, for the request that was approved, in
/// the directories that it was asked from. Where nothing could be put in force the request waits
/// again.
pub proof fn law_denied_command_is_told_and_never_run(
    store: &mut PolicyStore,
    elev: PendingElevation,
    op: SudoScopeOp,
    action: DecisionAction,
    result: ScopeResult,
    r: SudoApplied,
)
    requires
        call_ensures(PolicyStore::complete_sudo_scope, (store, elev, op, action, result), r),
    ensures
        action is Deny ==> !(r is Execute),
        r is Execute <==> action is Approve && result is Succeeded,
        r is Restored <==> result is Failed,
        match r {
            SudoApplied::Restored => waits_again(
                *old(store),
                *final(store),
                Pending::Elevation(elev),
            ),
            SudoApplied::Denied(delivery) => {
                &&& action is Deny
                &&& delivery is Some <==> old(store).waiters.elevation@.contains_key(elev.id@)
                &&& delivery matches Some(told) ==> told.told == old(store).waiters.elevation@[elev.id@] && told.reply is Denied
                &&& !final(store).waiters.elevation@.contains_key(elev.id@)
            },
            SudoApplied::Execute(run) => {
                &&& run.argv@ == op.argv@
                &&& run.scope == op.scope
                &&& run.saved == result->path
                &&& run.pending == elev
                &&& elev.context.cwd is Some ==> run.cwd == elev.context.cwd
                &&& elev.context.cwd is None ==> run.cwd == op.wire.paths.cwd
                &&& elev.context.home is Some ==> run.home == elev.context.home
                &&& elev.context.home is None ==> run.home == op.wire.paths.home
                &&& *final(store) == *old(store)
            },
        },
{
}

/// The caller of a command that was run is told what came of it, and waits no more. Where the
/// command could not be resolved the request waits again and nobody is told.
pub proof fn law_run_is_told_to_its_caller(
    store: &mut PolicyStore,
    run: ApprovedRun,
    result: Result<ElevateReply, PolicydError>,
    r: Result<(ScopeActionReply, Option<ElevationDelivery>), PolicydError>,
)
    requires
        call_ensures(PolicyStore::complete_elevation, (store, run, result), r),
    ensures
        r is Ok <==> result is Ok,
        r matches Ok(done) ==> {
            &&& done.1 is Some <==> old(store).waiters.elevation@.contains_key(run.pending.id@)
            &&& done.1 matches Some(told) ==> told.told == old(store).waiters.elevation@[run.pending.id@] && Ok::<_, PolicydError>(told.reply) == result
            &&& !final(store).waiters.elevation@.contains_key(run.pending.id@)
            &&& done.0 is ElevationApprove
        },
        r is Err ==> waits_again(*old(store), *final(store), Pending::Elevation(run.pending)),
{
}

// Files.

/// The project root that a decision is read with: the one that it brings, or else the request's.
pub open spec fn deciding_root(wire: ScopeWire, asked: Option<String>) -> Option<String> {
    if wire.paths.project_root is Some {
        wire.paths.project_root
    } else {
        asked
    }
}

/// A decision on a file access speaks of the access that was asked for, and of its path or, for
/// longer than once, of one whose rule covers it. A single-use decision takes effect at once: its
/// callers are told that they are allowed exactly where it approves. Every other decision is
/// first to be put in force, with nobody told. A target that does not fit leaves it waiting.
pub proof fn law_file_decision_speaks_of_its_request<
    F: Fn(&FilesystemRule, &PathQuery) -> bool,
>(
    store: &mut PolicyStore,
    fs: PendingFilesystem,
    wire: ScopeWire,
    scope: ApprovalScope,
    target: &Option<ApprovalTarget>,
    action: DecisionAction,
    path_matches: &F,
    session_ids: &Vec<String>,
    now: u64,
    r: Decided<FilesystemScopeOp, PendingFilesystem, FilesystemDelivery>,
)
    requires
        call_ensures(
            PolicyStore::apply_pending_filesystem_decision::<F>,
            (store, fs, wire, scope, target, action, path_matches, session_ids, now),
            r,
        ),
    ensures
        match r {
            Decided::Refused(_) => waits_again(*old(store), *final(store), Pending::Filesystem(fs)),
            Decided::Done { reply, delivery } => {
                &&& scope is Once
                &&& delivery is Some <==> old(store).waiters.filesystem@.contains_key(fs.id@)
                &&& delivery matches Some(told) ==> {
                    &&& told.reply.allowed <==> action is Approve
                    &&& told.reply.access == fs.access
                    &&& paths::components(told.reply.path@) == paths::components(fs.path@)
                    &&& told.told@ == old(store).waiters.filesystem@[fs.id@]@
                }
            },
            Decided::Apply { op, pending } => {
                &&& !(scope is Once)
                &&& op.access == fs.access
                &&& op.scope == scope
                &&& paths::components(op.path@) == paths::components(fs.path@) || text::relates(
                    *path_matches,
                    FilesystemRule { path: op.path, access: FileAccess::Read, comment: None },
                    PathQuery {
                        path: fs.path,
                        root: deciding_root(wire, fs.context.project_root),
                    },
                )
                &&& *target is None ==> op.path == fs.path
                &&& pending == fs
                &&& *final(store) == *old(store)
            },
        },
        *target is None ==> !(r is Refused),
{
    let b = old(store).filesystem_board();
    assert(b.waiters.dom() =~= old(store).waiters.filesystem@.dom());
    if b.waiters.contains_key(fs.id@) {
        assert(b.waiters[fs.id@] == old(store).waiters.filesystem@[fs.id@]@);
    }
}

/// Once a file decision is in force its callers are told just that: an approval allows them, a
/// denial does not. An approval that could not be put in force allows nobody, and a denial that
/// could not be leaves the request waiting with nobody told.
pub proof fn law_file_decision_is_told_as_it_was_made(
    store: &mut PolicyStore,
    fs: PendingFilesystem,
    op: &FilesystemScopeOp,
    action: DecisionAction,
    succeeded: bool,
    now: u64,
    r: Option<FilesystemDelivery>,
)
    requires
        call_ensures(
            PolicyStore::complete_filesystem_decision,
            (store, fs, op, action, succeeded, now),
            r,
        ),
    ensures
        r matches Some(told) ==> {
            &&& told.reply.allowed <==> action is Approve && succeeded
            &&& succeeded ==> told.reply.source == VerdictSource::Scope(op.scope)
            &&& !succeeded ==> told.reply.source is Blocked
            &&& told.reply.path == op.path
            &&& told.reply.access == op.access
            &&& told.told@ == old(store).waiters.filesystem@[fs.id@]@
        },
        action is Deny && !succeeded ==> r is None && waits_again(
            *old(store),
            *final(store),
            Pending::Filesystem(fs),
        ),
        action is Approve || succeeded ==> {
            &&& r is Some <==> old(store).waiters.filesystem@.contains_key(fs.id@)
            &&& !final(store).waiters.filesystem@.contains_key(fs.id@)
        },
{
    let (b, a) = (old(store).filesystem_board(), final(store).filesystem_board());
    assert(b.waiters.dom() =~= old(store).waiters.filesystem@.dom());
    assert(a.waiters.dom() =~= final(store).waiters.filesystem@.dom());
    if b.waiters.contains_key(fs.id@) {
        assert(b.waiters[fs.id@] == old(store).waiters.filesystem@[fs.id@]@);
    }
}

// Resources.

/// A decision on a resource speaks of its kind and access, and of its path or, for longer than
/// once, of one whose rule covers it. A single-use decision takes effect at once: its callers are
/// told that they are allowed exactly where it approves. Every other decision is first to be put
/// in force, with nobody told. A target that does not fit leaves it waiting.
pub proof fn law_resource_decision_speaks_of_its_request<
    R: Fn(&ResourceRule, &PathQuery) -> bool,
>(
    store: &mut PolicyStore,
    res: PendingResource,
    wire: ScopeWire,
    scope: ApprovalScope,
    target: &Option<ApprovalTarget>,
    action: DecisionAction,
    path_matches: &R,
    session_ids: &Vec<String>,
    now: u64,
    r: Decided<ResourceScopeOp, PendingResource, ResourceDelivery>,
)
    requires
        call_ensures(
            PolicyStore::apply_pending_resource_decision::<R>,
            (store, res, wire, scope, target, action, path_matches, session_ids, now),
            r,
        ),
    ensures
        match r {
            Decided::Refused(_) => waits_again(*old(store), *final(store), Pending::Resource(res)),
            Decided::Done { reply, delivery } => {
                &&& scope is Once
                &&& delivery is Some <==> old(store).waiters.resource@.contains_key(res.id@)
                &&& delivery matches Some(told) ==> {
                    &&& told.reply.allowed <==> action is Approve
                    &&& told.reply.kind == res.kind
                    &&& told.reply.access == res.access
                    &&& paths::components(told.reply.path@) == paths::components(res.path@)
                    &&& told.told@ == old(store).waiters.resource@[res.id@]@
                }
            },
            Decided::Apply { op, pending } => {
                &&& !(scope is Once)
                &&& op.kind == res.kind
                &&& op.access == res.access
                &&& op.scope == scope
                &&& paths::components(op.path@) == paths::components(res.path@) || text::relates(
                    *path_matches,
                    ResourceRule {
                        kind: res.kind,
                        path: op.path,
                        access: ResourceAccess::Socket(SocketAccess::Connect),
                        comment: None,
                    },
                    PathQuery {
                        path: res.path,
                        root: deciding_root(wire, res.context.project_root),
                    },
                )
                &&& *target is None ==> op.path == res.path
                &&& pending == res
                &&& *final(store) == *old(store)
            },
        },
        *target is None ==> !(r is Refused),
        *target matches Some(ApprovalTarget::ResourcePath { resource_kind, path }) && resource_kind
            != res.kind ==> r is Refused,
{
}

/// Once a resource decision is in force its callers are told just that: an approval allows them,
/// a denial does not. An approval that could not be put in force allows nobody, and a denial that
/// could not be leaves the request waiting with nobody told.
pub proof fn law_resource_decision_is_told_as_it_was_made(
    store: &mut PolicyStore,
    res: PendingResource,
    op: &ResourceScopeOp,
    action: DecisionAction,
    succeeded: bool,
    now: u64,
    r: Option<ResourceDelivery>,
)
    requires
        call_ensures(
            PolicyStore::complete_resource_decision,
            (store, res, op, action, succeeded, now),
            r,
        ),
    ensures
        r matches Some(told) ==> {
            &&& told.reply.allowed <==> action is Approve && succeeded
            &&& succeeded ==> told.reply.source == VerdictSource::Scope(op.scope)
            &&& !succeeded ==> told.reply.source is Blocked
            &&& told.reply.kind == op.kind
            &&& told.reply.path == op.path
            &&& told.reply.access == op.access
            &&& told.told@ == old(store).waiters.resource@[res.id@]@
        },
        action is Deny && !succeeded ==> r is None && waits_again(
            *old(store),
            *final(store),
            Pending::Resource(res),
        ),
        action is Approve || succeeded ==> {
            &&& r is Some <==> old(store).waiters.resource@.contains_key(res.id@)
            &&& !final(store).waiters.resource@.contains_key(res.id@)
        },
{
}

// D-Bus messages.

/// A decision on a D-Bus message speaks of the message or of a target that covers it. A
/// single-use decision takes effect at once: its callers are told that they are allowed exactly
/// where it approves. Every other decision is first to be put in force, with nobody told.
pub proof fn law_dbus_decision_speaks_of_its_request<D: Fn(&DbusTarget, &DbusTarget) -> bool>(
    store: &mut PolicyStore,
    dbus: PendingDbus,
    wire: ScopeWire,
    scope: ApprovalScope,
    target: &Option<ApprovalTarget>,
    action: DecisionAction,
    covers: &D,
    access: ResourceAccess,
    now: u64,
    r: Decided<DbusScopeOp, PendingDbus, ResourceDelivery>,
)
    requires
        call_ensures(
            PolicyStore::apply_pending_dbus_decision::<D>,
            (store, dbus, wire, scope, target, action, covers, access, now),
            r,
        ),
    ensures
        match r {
            Decided::Refused(_) => waits_again(*old(store), *final(store), Pending::Dbus(dbus)),
            Decided::Done { reply, delivery } => {
                &&& scope is Once
                &&& delivery is Some <==> old(store).waiters.resource@.contains_key(dbus.id@)
                &&& delivery matches Some(told) ==> {
                    &&& told.reply.allowed <==> action is Approve
                    &&& told.reply.path == dbus.path
                    &&& told.told@ == old(store).waiters.resource@[dbus.id@]@
                }
            },
            Decided::Apply { op, pending } => {
                &&& !(scope is Once)
                &&& op.scope == scope
                &&& pending == dbus
                &&& *final(store) == *old(store)
                &&& match *target {
                    None => op.target@ == dbus.target@,
                    Some(ApprovalTarget::Dbus(named)) => op.target@ == named@ && text::relates(
                        *covers,
                        named,
                        dbus.target,
                    ),
                    _ => false,
                }
            },
        },
        *target is None ==> !(r is Refused),
{
}

/// Once a D-Bus decision is in force its callers are told just that: an approval allows them, a
/// denial does not. One that could not be put in force leaves the request waiting with nobody
/// told, whatever was decided.
pub proof fn law_dbus_decision_is_told_as_it_was_made(
    store: &mut PolicyStore,
    dbus: PendingDbus,
    scope: ApprovalScope,
    action: DecisionAction,
    access: ResourceAccess,
    succeeded: bool,
    now: u64,
    r: Option<ResourceDelivery>,
)
    requires
        call_ensures(
            PolicyStore::complete_dbus_decision,
            (store, dbus, scope, action, access, succeeded, now),
            r,
        ),
    ensures
        succeeded ==> {
            &&& r is Some <==> old(store).waiters.resource@.contains_key(dbus.id@)
            &&& !final(store).waiters.resource@.contains_key(dbus.id@)
        },
        r matches Some(told) ==> {
            &&& succeeded
            &&& told.reply.allowed <==> action is Approve
            &&& action is Approve ==> told.reply.source == VerdictSource::Scope(scope)
            &&& action is Deny ==> told.reply.source is User
            &&& told.told@ == old(store).waiters.resource@[dbus.id@]@
        },
        !succeeded ==> waits_again(*old(store), *final(store), Pending::Dbus(dbus)),
{
}

// Decisions of every kind.

/// A decision that is refused gives nothing to be put in force, runs nothing and tells nobody; it
/// is refused wherever the request is not known or the client may not decide on it. What a
/// decision comes to is of the kind of the request that it names.
pub proof fn law_unconcerned_client_decides_nothing<
    H: Fn(&String, &String) -> bool,
    S: Fn(&Vec<String>, &Vec<String>) -> bool,
    F: Fn(&FilesystemRule, &PathQuery) -> bool,
    R: Fn(&ResourceRule, &PathQuery) -> bool,
    D: Fn(&DbusTarget, &DbusTarget) -> bool,
>(
    store: &mut PolicyStore,
    look: &PolicyStore,
    decision: PendingDecision,
    action: DecisionAction,
    tests: &TargetTests<H, S, F, R, D>,
    session_ids: &Vec<String>,
    dbus_access: ResourceAccess,
    now: u64,
    r: DecisionStep,
    session: Option<String>,
    may: bool,
)
    requires
        *look == *old(store),
        call_ensures(
            PolicyStore::apply_pending_decision::<H, S, F, R, D>,
            (store, decision, action, tests, session_ids, dbus_access, now),
            r,
        ),
        call_ensures(
            PolicyStore::approval_client_authorized,
            (look, decision.client_id, &decision.wire.session_id, &session, decision.approver_uid),
            may,
        ),
        old(store).pending@.contains_key(decision.pending_id@) ==> session == old(store).pending@[decision.pending_id@].session(),
    ensures
        !old(store).pending@.contains_key(decision.pending_id@) || !may ==> {
            &&& r is Refused
            &&& final(store).pending@ == old(store).pending@
            &&& final(store).waiters == old(store).waiters
            &&& final(store).session == old(store).session
        },
        old(store).pending@.contains_key(decision.pending_id@) && may ==> match old(store).pending@[decision.pending_id@] {
            Pending::Network(_) => r is Network,
            Pending::Elevation(_) => r is Elevation,
            Pending::Filesystem(_) => r is Filesystem,
            Pending::Resource(_) => r is Resource,
            Pending::Dbus(_) => r is Dbus,
            Pending::Http(_) => r is Http || (r is Refused && !(decision.target is None)
                && !(decision.target->0 is Http)),
        },
{
}

/// No denial of a request, of whatever kind, comes to a run, to an HTTP permission or to a caller
/// that is told that it is allowed.
pub proof fn law_denial_allows_nothing<
    H: Fn(&String, &String) -> bool,
    S: Fn(&Vec<String>, &Vec<String>) -> bool,
    F: Fn(&FilesystemRule, &PathQuery) -> bool,
    R: Fn(&ResourceRule, &PathQuery) -> bool,
    D: Fn(&DbusTarget, &DbusTarget) -> bool,
>(
    store: &mut PolicyStore,
    decision: PendingDecision,
    tests: &TargetTests<H, S, F, R, D>,
    session_ids: &Vec<String>,
    dbus_access: ResourceAccess,
    now: u64,
    r: DecisionStep,
)
    requires
        call_ensures(
            PolicyStore::deny::<H, S, F, R, D>,
            (store, decision, tests, session_ids, dbus_access, now),
            r,
        ),
    ensures
        match r {
            DecisionStep::Refused(_) => true,
            DecisionStep::Network(step) => !(step is Done),
            DecisionStep::Elevation(step) => !(step is Execute) && (step is Done
                && step->Done_delivery is Some ==> step->Done_delivery->0.reply is Denied),
            DecisionStep::Filesystem(step) => step is Done && step->Done_delivery is Some
                ==> !step->Done_delivery->0.reply.allowed,
            DecisionStep::Resource(step) => step is Done && step->Done_delivery is Some
                ==> !step->Done_delivery->0.reply.allowed,
            DecisionStep::Dbus(step) => step is Done && step->Done_delivery is Some
                ==> !step->Done_delivery->0.reply.allowed,
            DecisionStep::Http(step) => !step.allowed && step.scope == decision.scope
                && Pending::Http(step.pending) == old(store).pending@[decision.pending_id@],
        },
{
}

/// An approval, of whatever kind, denies nobody: whoever is told at once is told that it is
/// allowed, and an HTTP decision is one that allows.
pub proof fn law_approval_denies_nobody<
    H: Fn(&String, &String) -> bool,
    S: Fn(&Vec<String>, &Vec<String>) -> bool,
    F: Fn(&FilesystemRule, &PathQuery) -> bool,
    R: Fn(&ResourceRule, &PathQuery) -> bool,
    D: Fn(&DbusTarget, &DbusTarget) -> bool,
>(
    store: &mut PolicyStore,
    decision: PendingDecision,
    tests: &TargetTests<H, S, F, R, D>,
    session_ids: &Vec<String>,
    dbus_access: ResourceAccess,
    now: u64,
    r: DecisionStep,
)
    requires
        call_ensures(
            PolicyStore::approve::<H, S, F, R, D>,
            (store, decision, tests, session_ids, dbus_access, now),
            r,
        ),
    ensures
        match r {
            DecisionStep::Refused(_) => true,
            DecisionStep::Network(step) => step is Done && step->Done_delivery is Some
                ==> step->Done_delivery->0.reply.allowed,
            DecisionStep::Elevation(step) => !(step is Done),
            DecisionStep::Filesystem(step) => step is Done && step->Done_delivery is Some
                ==> step->Done_delivery->0.reply.allowed,
            DecisionStep::Resource(step) => step is Done && step->Done_delivery is Some
                ==> step->Done_delivery->0.reply.allowed,
            DecisionStep::Dbus(step) => step is Done && step->Done_delivery is Some
                ==> step->Done_delivery->0.reply.allowed,
            DecisionStep::Http(step) => step.allowed && step.scope == decision.scope
                && Pending::Http(step.pending) == old(store).pending@[decision.pending_id@],
        },
{
}

/// A host is approved without a request only on a port, under a name, and where no deny rule of
/// the policy names that port and a pattern that covers it; what is then put in force is just that
/// host, port and scope.
pub proof fn law_denied_host_is_not_approved<
    N: Fn(&String) -> String,
    H: Fn(&String, &String) -> bool,
>(
    policy: &Policy,
    req: &HostApproveRequest,
    normalize: &N,
    host_matches: &H,
    r: Result<NetworkScopeOp, PolicydError>,
)
    requires
        call_ensures(decide::approve_host::<N, H>, (policy, req, normalize, host_matches), r),
    ensures
        ({
            let host = text::answer(*normalize, req.host);
            let denied = exists|i: int|
                {
                    &&& 0 <= i < policy.network.direct.deny@.len()
                    &&& (#[trigger] policy.network.direct.deny@[i]).port == req.port
                    &&& text::relates(*host_matches, policy.network.direct.deny@[i].host, host)
                };
            &&& r is Ok <==> host@.len() > 0 && req.port > 0 && !denied
            &&& r matches Ok(op) ==> op.host == host && op.port == req.port && op.scope
                == req.scope && op.wire.sandbox_session_id == req.ctx.sandbox_session_id
                && op.wire.session_id == req.session_id && op.wire.paths == req.ctx.paths
        }),
{
}

/// A decision is put in force for the request that it was made on: where the decision does not
/// say otherwise, in the directories, the sandbox session and the package of the request, and for
/// the UI session that it names.
pub proof fn law_decision_is_filled_in_from_its_request(
    wire: ScopeWire,
    context: &crate::state::PendingContext,
    r: ScopeWire,
)
    requires
        call_ensures(decisions::scope_wire_for_context, (wire, context), r),
    ensures
        r.sandbox_session_id == (if wire.sandbox_session_id is Some {
            wire.sandbox_session_id
        } else {
            context.sandbox_session_id
        }),
        r.package == (if wire.package is Some {
            wire.package
        } else {
            context.package
        }),
        r.paths.project_root == (if wire.paths.project_root is Some {
            wire.paths.project_root
        } else {
            context.project_root
        }),
        r.paths.cwd == (if wire.paths.cwd is Some {
            wire.paths.cwd
        } else {
            context.cwd
        }),
        r.paths.home == (if wire.paths.home is Some {
            wire.paths.home
        } else {
            context.home
        }),
        r.session_id == wire.session_id,
        r.owner_uid == wire.owner_uid,
        r.comment == wire.comment,
{
}

/// A file or resource decision of session scope is bound to one of the UI sessions that the
/// request concerns, where there is one: the session that it names where that is among them.
pub proof fn law_session_decision_is_bound_to_a_session_in_play(
    wire: ScopeWire,
    context: &crate::state::PendingContext,
    session_ids: &Vec<String>,
    r: ScopeWire,
)
    requires
        call_ensures(
            decisions::scope_wire_for_pending,
            (wire, context, ApprovalScope::Session, session_ids),
            r,
        ),
        session_ids@.len() > 0,
    ensures
        exists|i: int|
            0 <= i < session_ids@.len() && r.session_id is Some && (
            #[trigger] session_ids@[i])@ == r.session_id->0@,
        wire.session_id is Some && (exists|i: int|
            0 <= i < session_ids@.len() && (#[trigger] session_ids@[i])@ == wire.session_id->0@)
            ==> r.session_id == wire.session_id,
{
    let ids = text::texts(session_ids@);
    assert(ids.len() == session_ids@.len());
    if wire.session_id is Some && exists|i: int|
        0 <= i < session_ids@.len() && (#[trigger] session_ids@[i])@ == wire.session_id->0@ {
        let i = choose|i: int|
            0 <= i < session_ids@.len() && (#[trigger] session_ids@[i])@ == wire.session_id->0@;
        assert(ids[i] == wire.session_id->0@);
        assert(ids.contains(wire.session_id->0@));
    }
    let bound = r.session_id->0@;
    assert(ids.contains(bound));
    let i = choose|i: int| 0 <= i < ids.len() && ids[i] == bound;
    assert(session_ids@[i]@ == bound);
}

/// A request that is put back waits again as it was, and no other request is touched.
pub proof fn law_restored_request_waits_again(
    store: &mut PolicyStore,
    pending: Pending,
    other: Seq<char>,
)
    requires
        call_ensures(PolicyStore::restore_pending, (store, pending), ()),
    ensures
        final(store).pending@.contains_key(pending.spec_id()@),
        final(store).pending@[pending.spec_id()@] == pending,
        other != pending.spec_id()@ ==> {
            &&& final(store).pending@.contains_key(other) <==> old(store).pending@.contains_key(
                other,
            )
            &&& old(store).pending@.contains_key(other) ==> final(store).pending@[other] == old(store).pending@[other]
        },
        final(store).session == old(store).session,
        final(store).http == old(store).http,
{
}

/// A decision is written down as what it was.
pub proof fn law_decision_is_written_down_as_it_was(action: DecisionAction, r: &'static str)
    requires
        call_ensures(DecisionAction::audit_verb, (action,), r),
    ensures
        action == DecisionAction::Approve ==> r@ == "approve"@,
        action == DecisionAction::Deny ==> r@ == "deny"@,
{
}

/// A decision on a host may name another host than the request's only where a rule on it covers
/// the request's host, and for a single use none but that; it may not name anything else. The
/// port is the request's.
pub proof fn law_host_decision_fits_its_request<H: Fn(&String, &String) -> bool>(
    pending: &PendingNetwork,
    scope: ApprovalScope,
    target: &Option<ApprovalTarget>,
    host_matches: &H,
    r: Result<NetworkRuleKey, PolicydError>,
)
    requires
        call_ensures(
            decisions::resolve_pending_network_target::<H>,
            (pending, scope, target, host_matches),
            r,
        ),
    ensures
        *target is None ==> (r is Ok <==> text::relates(*host_matches, pending.host, pending.host)),
        *target is None && r is Ok ==> r->Ok_0.host == pending.host,
        *target matches Some(ApprovalTarget::NetworkHost(named)) ==> {
            &&& r is Ok <==> text::relates(*host_matches, named, pending.host) && (scope is Once
                ==> named@ == pending.host@)
            &&& r is Ok ==> r->Ok_0.host == named
        },
        *target is Some && !(target->0 is NetworkHost) ==> r is Err,
        r is Ok ==> r->Ok_0.port == pending.port,
{
}

/// A decision on a command may name a shorter command only where the request's begins with it, and
/// for a single use none but the request's; it may not name anything else.
pub proof fn law_command_decision_fits_its_request<S: Fn(&Vec<String>, &Vec<String>) -> bool>(
    pending: &PendingElevation,
    scope: ApprovalScope,
    target: &Option<ApprovalTarget>,
    has_prefix: &S,
    r: Result<Vec<String>, PolicydError>,
)
    requires
        call_ensures(
            decisions::resolve_pending_sudo_target::<S>,
            (pending, scope, target, has_prefix),
            r,
        ),
    ensures
        *target is None ==> (r is Ok <==> text::relates(*has_prefix, pending.argv, pending.argv)),
        *target is None && r is Ok ==> r->Ok_0@ == pending.argv@,
        *target matches Some(ApprovalTarget::SudoCommand(named)) ==> {
            &&& r is Ok <==> text::relates(*has_prefix, pending.argv, named) && (scope is Once
                ==> text::texts(named@) == text::texts(pending.argv@))
            &&& r is Ok ==> r->Ok_0@ == named@
        },
        *target is Some && !(target->0 is SudoCommand) ==> r is Err,
{
}

/// A decision on a file may name another path than the request's only where a rule on it covers
/// the request's path, and never for a single use; it may not name anything else.
pub proof fn law_file_decision_fits_its_request<F: Fn(&FilesystemRule, &PathQuery) -> bool>(
    pending: &PendingFilesystem,
    scope: ApprovalScope,
    target: &Option<ApprovalTarget>,
    root: &Option<String>,
    path_matches: &F,
    r: Result<String, PolicydError>,
)
    requires
        call_ensures(
            decisions::resolve_pending_filesystem_target::<F>,
            (pending, scope, target, root, path_matches),
            r,
        ),
    ensures
        *target is None ==> r is Ok && r->Ok_0 == pending.path,
        *target matches Some(ApprovalTarget::FilesystemPath(named)) ==> {
            &&& r is Ok <==> paths::components(named@) == paths::components(pending.path@) || (
            !(scope is Once) && text::relates(
                *path_matches,
                FilesystemRule { path: named, access: FileAccess::Read, comment: None },
                PathQuery {
                    path: pending.path,
                    root: if *root is Some { *root } else { pending.context.project_root },
                },
            ))
            &&& r is Ok ==> r->Ok_0 == named
        },
        *target is Some && !(target->0 is FilesystemPath) ==> r is Err,
{
}

/// A decision on a resource may name another path than the request's only for the same kind and
/// where a rule on it covers the request's path, and never for a single use; it may not name
/// anything else.
pub proof fn law_resource_decision_fits_its_request<R: Fn(&ResourceRule, &PathQuery) -> bool>(
    pending: &PendingResource,
    scope: ApprovalScope,
    target: &Option<ApprovalTarget>,
    root: &Option<String>,
    path_matches: &R,
    r: Result<String, PolicydError>,
)
    requires
        call_ensures(
            decisions::resolve_pending_resource_target::<R>,
            (pending, scope, target, root, path_matches),
            r,
        ),
    ensures
        *target is None ==> r is Ok && r->Ok_0 == pending.path,
        *target matches Some(ApprovalTarget::ResourcePath { resource_kind, path: named }) ==> {
            &&& r is Ok <==> resource_kind == pending.kind && (paths::components(named@)
                == paths::components(pending.path@) || (!(scope is Once) && text::relates(
                *path_matches,
                ResourceRule {
                    kind: pending.kind,
                    path: named,
                    access: ResourceAccess::Socket(SocketAccess::Connect),
                    comment: None,
                },
                PathQuery {
                    path: pending.path,
                    root: if *root is Some { *root } else { pending.context.project_root },
                },
            )))
            &&& r is Ok ==> r->Ok_0 == named
        },
        *target is Some && !(target->0 is ResourcePath) ==> r is Err,
{
}

/// A decision on a D-Bus target may name another only where it covers the request's.
pub proof fn law_dbus_decision_fits_its_request<D: Fn(&DbusTarget, &DbusTarget) -> bool>(
    pending: &PendingDbus,
    target: &Option<ApprovalTarget>,
    covers: &D,
    r: Result<DbusTarget, PolicydError>,
)
    requires
        call_ensures(
            decisions::resolve_pending_dbus_target::<D>,
            (pending, target, covers),
            r,
        ),
    ensures
        *target is None ==> r is Ok && r->Ok_0@ == pending.target@,
        *target matches Some(ApprovalTarget::Dbus(named)) ==> {
            &&& r is Ok <==> text::relates(*covers, named, pending.target)
            &&& r is Ok ==> r->Ok_0@ == named@
        },
        *target is Some && !(target->0 is Dbus) ==> r is Err,
{
}

} // verus!
