//! Applying decisions to pending requests.

use vstd::prelude::*;

use crate::decisions;
use crate::decisions::ApprovalTarget;
use crate::decisions::DecisionAction;
use crate::decisions::PathQuery;
use crate::decisions::PendingDecision;
use crate::decisions::ScopeWire;
use crate::elevation;
use crate::elevation::ElevateReply;
use crate::elevation::ElevationDelivery;
use crate::error::PolicydError;
use crate::filesystem;
use crate::filesystem::FilesystemDelivery;
use crate::filesystem::ResourceDelivery;
use crate::network;
use crate::network::NetworkDelivery;
use crate::rules;
use crate::state::NetworkRuleKey;
use crate::state::NetworkRuleKeyView;
use crate::state::Pending;
use crate::state::PendingDbus;
use crate::state::PendingElevation;
use crate::state::PendingFilesystem;
use crate::state::PendingHttp;
use crate::state::PendingNetwork;
use crate::state::PendingResource;
use crate::store::PolicyStore;
use crate::text;
use crate::types::ApprovalScope;
use crate::types::DbusTarget;
use crate::types::FileAccess;
use crate::types::FilesystemRule;
use crate::types::HttpRuleTarget;
use crate::types::Policy;
use crate::types::ResolvedRequestContext;
use crate::types::ResourceAccess;
use crate::types::ResourceKind;
use crate::types::ResourceRule;
use crate::types::Verdict;
use crate::types::VerdictSource;

verus! {

/// A network decision to put in force.
#[derive(Debug, PartialEq, Eq)]
pub struct NetworkScopeOp {
    pub host: String,
    pub port: u16,
    pub scope: ApprovalScope,
    pub wire: ScopeWire,
}

/// A decision on a command to put in force.
#[derive(Debug, PartialEq, Eq)]
pub struct SudoScopeOp {
    pub argv: Vec<String>,
    pub scope: ApprovalScope,
    pub wire: ScopeWire,
}

/// A file decision to put in force.
#[derive(Debug, PartialEq, Eq)]
pub struct FilesystemScopeOp {
    pub path: String,
    pub access: FileAccess,
    pub scope: ApprovalScope,
    pub wire: ScopeWire,
}

/// A resource decision to put in force.
#[derive(Debug, PartialEq, Eq)]
pub struct ResourceScopeOp {
    pub kind: ResourceKind,
    pub path: String,
    pub access: ResourceAccess,
    pub scope: ApprovalScope,
    pub wire: ScopeWire,
}

/// A D-Bus decision to put in force.
#[derive(Debug, PartialEq, Eq)]
pub struct DbusScopeOp {
    pub target: DbusTarget,
    pub scope: ApprovalScope,
    pub wire: ScopeWire,
}

/// Reply to a decision that took effect.
#[allow(inconsistent_fields)]
#[derive(Debug, PartialEq, Eq)]
pub enum ScopeActionReply {
    Network { host: String, port: u16, scope: ApprovalScope },
    Sudo { argv: Vec<String>, scope: ApprovalScope },
    ElevationApprove { scope: ApprovalScope, path: Option<String> },
    Filesystem { path: String, access: FileAccess, scope: ApprovalScope },
    Resource { kind: ResourceKind, path: String, access: ResourceAccess, scope: ApprovalScope },
    Dbus { target: DbusTarget, scope: ApprovalScope },
}

/// What came of putting a decision in force: where it was saved, or nothing where that failed.
#[derive(Debug, PartialEq, Eq)]
pub enum ScopeResult {
    Succeeded { path: Option<String> },
    Failed,
}

impl ScopeResult {
    pub fn succeeded(&self) -> (r: bool)
        ensures
            r == (self is Succeeded),
    {
        match self {
            ScopeResult::Succeeded { .. } => true,
            ScopeResult::Failed => false,
        }
    }
}

/// What follows from a decision: it is refused, it took effect at once, or it is first to be put
/// in force with the operation given.
#[derive(Debug, PartialEq, Eq)]
pub enum Decided<Op, P, Delivery> {
    Refused(PolicydError),
    Done { reply: ScopeActionReply, delivery: Option<Delivery> },
    Apply { op: Op, pending: P },
}

/// A command that was approved and is to be run.
#[derive(Debug, PartialEq, Eq)]
pub struct ApprovedRun {
    pub argv: Vec<String>,
    pub cwd: Option<String>,
    pub home: Option<String>,
    pub scope: ApprovalScope,
    /// Where the decision was saved.
    pub saved: Option<String>,
    pub pending: PendingElevation,
}

/// What follows from a decision on a command.
#[derive(Debug, PartialEq, Eq)]
pub enum SudoDecided {
    Refused(PolicydError),
    Done { reply: ScopeActionReply, delivery: Option<ElevationDelivery> },
    Apply { op: SudoScopeOp, pending: PendingElevation },
    Execute(ApprovedRun),
}

/// What follows from having put a decision on a command in force.
#[derive(Debug, PartialEq, Eq)]
pub enum SudoApplied {
    /// It failed; the request waits again.
    Restored,
    /// The command was refused.
    Denied(Option<ElevationDelivery>),
    /// The command is to be run.
    Execute(ApprovedRun),
}

/// The verdict that a decision comes to once it is in force.
pub open spec fn verdict_of(action: DecisionAction, scope: ApprovalScope) -> Verdict {
    match action {
        DecisionAction::Approve => Verdict { allowed: true, source: VerdictSource::Scope(scope) },
        DecisionAction::Deny => Verdict { allowed: false, source: VerdictSource::User },
    }
}

/// The verdict of an approval that could not be put in force.
pub open spec fn blocked() -> Verdict {
    Verdict { allowed: false, source: VerdictSource::Blocked }
}

/// A network decision comes to the result.
pub open spec fn network_decided<H: Fn(&String, &String) -> bool>(
    before: PolicyStore,
    after: PolicyStore,
    net: PendingNetwork,
    wire: ScopeWire,
    scope: ApprovalScope,
    target: Option<ApprovalTarget>,
    action: DecisionAction,
    host_matches: H,
    now: u64,
    r: Decided<NetworkScopeOp, PendingNetwork, NetworkDelivery>,
) -> bool {
    match decisions::network_target(net, scope, target, host_matches) {
        None => {
            &&& r == Decided::<NetworkScopeOp, PendingNetwork, NetworkDelivery>::Refused(
                PolicydError::InvalidDecisionTarget,
            )
            &&& decisions::restored(before, after, Pending::Network(net))
        },
        Some(host) => if action == DecisionAction::Approve && scope == ApprovalScope::Once {
            &&& r matches Decided::Done { reply, delivery }
            &&& reply == (ScopeActionReply::Network { host, port: net.port, scope })
            &&& network::network_finished(
                before,
                after,
                net.id@,
                verdict_of(action, scope),
                Some(NetworkRuleKeyView { host: host@, port: net.port }),
                now,
                delivery,
            )
        } else {
            &&& r == Decided::<NetworkScopeOp, PendingNetwork, NetworkDelivery>::Apply {
                op: NetworkScopeOp {
                    host,
                    port: net.port,
                    scope,
                    wire: wire.filled(net.context),
                },
                pending: net,
            }
            &&& after == before
        },
    }
}

/// Having put a network decision in force, or failed to, comes to the result.
pub open spec fn network_completed(
    before: PolicyStore,
    after: PolicyStore,
    net: PendingNetwork,
    op: NetworkScopeOp,
    action: DecisionAction,
    succeeded: bool,
    now: u64,
    r: Option<NetworkDelivery>,
) -> bool {
    if !succeeded && action == DecisionAction::Deny {
        r is None && decisions::restored(before, after, Pending::Network(net))
    } else {
        network::network_finished(
            before,
            after,
            net.id@,
            if succeeded {
                verdict_of(action, op.scope)
            } else {
                blocked()
            },
            Some(NetworkRuleKeyView { host: op.host@, port: op.port }),
            now,
            r,
        )
    }
}

fn verdict_source(action: DecisionAction, scope: ApprovalScope) -> (r: VerdictSource)
    ensures
        r == verdict_of(action, scope).source,
{
    match action {
        DecisionAction::Approve => VerdictSource::Scope(scope),
        DecisionAction::Deny => VerdictSource::User,
    }
}

impl PolicyStore {
    /// Decide on a network request that was taken off the board.
    pub fn apply_pending_network_decision<H: Fn(&String, &String) -> bool>(
        &mut self,
        net: PendingNetwork,
        wire: ScopeWire,
        scope: ApprovalScope,
        target: &Option<ApprovalTarget>,
        action: DecisionAction,
        host_matches: &H,
        now: u64,
    ) -> (r: Decided<NetworkScopeOp, PendingNetwork, NetworkDelivery>)
        requires
            old(self).wf(),
            text::decides_pairs(*host_matches),
        ensures
            final(self).wf(),
            final(self).configured_as(old(self)),
            network_decided(
                *old(self),
                *final(self),
                net,
                wire,
                scope,
                *target,
                action,
                *host_matches,
                now,
                r,
            ),
    {
        let key = match decisions::resolve_pending_network_target(
            &net,
            scope,
            target,
            host_matches,
        ) {
            Ok(key) => key,
            Err(error) => {
                self.restore_pending(Pending::Network(net));
                return Decided::Refused(error);
            },
        };
        if action == DecisionAction::Approve && scope == ApprovalScope::Once {
            let delivery = self.finish_network(
                &net.id,
                true,
                VerdictSource::Scope(ApprovalScope::Once),
                Some(key.clone()),
                now,
            );
            return Decided::Done {
                reply: ScopeActionReply::Network { host: key.host, port: key.port, scope },
                delivery,
            };
        }
        let wire = decisions::scope_wire_for_context(wire, &net.context);
        Decided::Apply {
            op: NetworkScopeOp { host: key.host, port: key.port, scope, wire },
            pending: net,
        }
    }

    /// Follow up on a network decision that was put in force, or could not be.
    pub fn complete_network_decision(
        &mut self,
        net: PendingNetwork,
        op: &NetworkScopeOp,
        action: DecisionAction,
        succeeded: bool,
        now: u64,
    ) -> (r: Option<NetworkDelivery>)
        requires
            old(self).wf(),
        ensures
            final(self).wf(),
            final(self).configured_as(old(self)),
            network_completed(*old(self), *final(self), net, *op, action, succeeded, now, r),
    {
        let key = NetworkRuleKey { host: op.host.clone(), port: op.port };
        if succeeded {
            self.finish_network(
                &net.id,
                action == DecisionAction::Approve,
                verdict_source(action, op.scope),
                Some(key),
                now,
            )
        } else if action == DecisionAction::Approve {
            self.finish_network(&net.id, false, VerdictSource::Blocked, Some(key), now)
        } else {
            self.restore_pending(Pending::Network(net));
            None
        }
    }
}

/// The run that an approval of a command leads to.
pub open spec fn run_is(
    run: ApprovedRun,
    argv: Seq<String>,
    scope: ApprovalScope,
    saved: Option<String>,
    wire: ScopeWire,
    elev: PendingElevation,
) -> bool {
    &&& run.argv@ == argv
    &&& run.scope == scope
    &&& run.saved == saved
    &&& run.pending == elev
    &&& run.cwd == (if elev.context.cwd is Some {
        elev.context.cwd
    } else {
        wire.paths.cwd
    })
    &&& run.home == (if elev.context.home is Some {
        elev.context.home
    } else {
        wire.paths.home
    })
}

/// A decision on a command comes to the result.
pub open spec fn sudo_decided<S: Fn(&Vec<String>, &Vec<String>) -> bool>(
    before: PolicyStore,
    after: PolicyStore,
    elev: PendingElevation,
    wire: ScopeWire,
    scope: ApprovalScope,
    target: Option<ApprovalTarget>,
    action: DecisionAction,
    has_prefix: S,
    r: SudoDecided,
) -> bool {
    match decisions::sudo_target(elev, scope, target, has_prefix) {
        None => {
            &&& r == SudoDecided::Refused(PolicydError::InvalidDecisionTarget)
            &&& decisions::restored(before, after, Pending::Elevation(elev))
        },
        Some(argv) => if scope != ApprovalScope::Once {
            &&& r matches SudoDecided::Apply { op, pending }
            &&& op.argv@ == argv
            &&& op.scope == scope
            &&& op.wire == wire.filled(elev.context)
            &&& pending == elev
            &&& after == before
        } else if action == DecisionAction::Deny {
            &&& r matches SudoDecided::Done { reply, delivery }
            &&& reply matches ScopeActionReply::Sudo { argv: told, scope: told_scope }
            &&& told@ == argv
            &&& told_scope == scope
            &&& elevation::elevation_finished(
                before,
                after,
                elev.id@,
                ElevateReply::Denied,
                delivery,
            )
        } else {
            &&& r matches SudoDecided::Execute(run)
            &&& run_is(run, argv, scope, None, wire.filled(elev.context), elev)
            &&& after == before
        },
    }
}

/// Having put a decision on a command in force, or failed to, comes to the result.
pub open spec fn sudo_applied(
    before: PolicyStore,
    after: PolicyStore,
    elev: PendingElevation,
    op: SudoScopeOp,
    action: DecisionAction,
    result: ScopeResult,
    r: SudoApplied,
) -> bool {
    match result {
        ScopeResult::Failed => {
            &&& r == SudoApplied::Restored
            &&& decisions::restored(before, after, Pending::Elevation(elev))
        },
        ScopeResult::Succeeded { path } => if action == DecisionAction::Deny {
            &&& r matches SudoApplied::Denied(delivery)
            &&& elevation::elevation_finished(
                before,
                after,
                elev.id@,
                ElevateReply::Denied,
                delivery,
            )
        } else {
            &&& r matches SudoApplied::Execute(run)
            &&& run_is(run, op.argv@, op.scope, path, op.wire, elev)
            &&& after == before
        },
    }
}

/// Having run an approved command, or failed to resolve it, comes to the result.
pub open spec fn run_completed(
    before: PolicyStore,
    after: PolicyStore,
    run: ApprovedRun,
    result: Result<ElevateReply, PolicydError>,
    r: Result<(ScopeActionReply, Option<ElevationDelivery>), PolicydError>,
) -> bool {
    match result {
        Ok(reply) => {
            &&& r matches Ok(done)
            &&& done.0 == (ScopeActionReply::ElevationApprove { scope: run.scope, path: run.saved })
            &&& elevation::elevation_finished(before, after, run.pending.id@, reply, done.1)
        },
        Err(error) => {
            &&& r == Err::<(ScopeActionReply, Option<ElevationDelivery>), _>(error)
            &&& decisions::restored(before, after, Pending::Elevation(run.pending))
        },
    }
}

fn approved_run(
    argv: Vec<String>,
    scope: ApprovalScope,
    saved: Option<String>,
    wire: &ScopeWire,
    elev: PendingElevation,
) -> (r: ApprovedRun)
    ensures
        run_is(r, argv@, scope, saved, *wire, elev),
{
    ApprovedRun {
        argv,
        cwd: text::or_opt(text::copy_opt(&elev.context.cwd), &wire.paths.cwd),
        home: text::or_opt(text::copy_opt(&elev.context.home), &wire.paths.home),
        scope,
        saved,
        pending: elev,
    }
}

impl PolicyStore {
    /// Decide on a command that was taken off the board.
    pub fn apply_pending_sudo_decision<S: Fn(&Vec<String>, &Vec<String>) -> bool>(
        &mut self,
        elev: PendingElevation,
        wire: ScopeWire,
        scope: ApprovalScope,
        target: &Option<ApprovalTarget>,
        action: DecisionAction,
        has_prefix: &S,
    ) -> (r: SudoDecided)
        requires
            old(self).wf(),
            text::decides_pairs(*has_prefix),
        ensures
            final(self).wf(),
            final(self).configured_as(old(self)),
            sudo_decided(
                *old(self),
                *final(self),
                elev,
                wire,
                scope,
                *target,
                action,
                *has_prefix,
                r,
            ),
    {
        let argv = match decisions::resolve_pending_sudo_target(
            &elev,
            scope,
            target,
            has_prefix,
        ) {
            Ok(argv) => argv,
            Err(error) => {
                self.restore_pending(Pending::Elevation(elev));
                return SudoDecided::Refused(error);
            },
        };
        let wire = decisions::scope_wire_for_context(wire, &elev.context);
        if scope != ApprovalScope::Once {
            return SudoDecided::Apply { op: SudoScopeOp { argv, scope, wire }, pending: elev };
        }
        match action {
            DecisionAction::Deny => {
                let delivery = self.finish_elevation(&elev.id, ElevateReply::Denied);
                SudoDecided::Done { reply: ScopeActionReply::Sudo { argv, scope }, delivery }
            },
            DecisionAction::Approve => SudoDecided::Execute(
                approved_run(argv, scope, None, &wire, elev),
            ),
        }
    }

    /// Follow up on a decision on a command that was put in force, or could not be.
    pub fn complete_sudo_scope(
        &mut self,
        elev: PendingElevation,
        op: SudoScopeOp,
        action: DecisionAction,
        result: ScopeResult,
    ) -> (r: SudoApplied)
        requires
            old(self).wf(),
        ensures
            final(self).wf(),
            final(self).configured_as(old(self)),
            sudo_applied(*old(self), *final(self), elev, op, action, result, r),
    {
        match result {
            ScopeResult::Failed => {
                self.restore_pending(Pending::Elevation(elev));
                SudoApplied::Restored
            },
            ScopeResult::Succeeded { path } => match action {
                DecisionAction::Deny => SudoApplied::Denied(
                    self.finish_elevation(&elev.id, ElevateReply::Denied),
                ),
                DecisionAction::Approve => SudoApplied::Execute(
                    approved_run(op.argv, op.scope, path, &op.wire, elev),
                ),
            },
        }
    }

    /// Follow up on a command that was run, or could not be resolved.
    pub fn complete_elevation(
        &mut self,
        run: ApprovedRun,
        result: Result<ElevateReply, PolicydError>,
    ) -> (r: Result<(ScopeActionReply, Option<ElevationDelivery>), PolicydError>)
        requires
            old(self).wf(),
        ensures
            final(self).wf(),
            final(self).configured_as(old(self)),
            run_completed(*old(self), *final(self), run, result, r),
    {
        match result {
            Ok(reply) => {
                let delivery = self.finish_elevation(&run.pending.id, reply);
                Ok(
                    (
                        ScopeActionReply::ElevationApprove { scope: run.scope, path: run.saved },
                        delivery,
                    ),
                )
            },
            Err(error) => {
                self.restore_pending(Pending::Elevation(run.pending));
                Err(error)
            },
        }
    }
}

/// A file decision comes to the result.
pub open spec fn filesystem_decided<F: Fn(&FilesystemRule, &PathQuery) -> bool>(
    before: PolicyStore,
    after: PolicyStore,
    fs: PendingFilesystem,
    wire: ScopeWire,
    scope: ApprovalScope,
    target: Option<ApprovalTarget>,
    action: DecisionAction,
    path_matches: F,
    session_ids: Seq<String>,
    now: u64,
    r: Decided<FilesystemScopeOp, PendingFilesystem, FilesystemDelivery>,
) -> bool {
    match decisions::filesystem_target(fs, scope, target, wire.root(fs.context), path_matches) {
        None => {
            &&& r == Decided::<FilesystemScopeOp, PendingFilesystem, FilesystemDelivery>::Refused(
                PolicydError::InvalidDecisionTarget,
            )
            &&& decisions::restored(before, after, Pending::Filesystem(fs))
        },
        Some(path) => if scope == ApprovalScope::Once {
            &&& r matches Decided::Done { reply, delivery }
            &&& reply == (ScopeActionReply::Filesystem { path, access: fs.access, scope })
            &&& filesystem::filesystem_finished(
                before,
                after,
                fs.id@,
                verdict_of(action, scope),
                path,
                fs.access,
                now,
                delivery,
            )
        } else {
            &&& r matches Decided::Apply { op, pending }
            &&& op == (FilesystemScopeOp { path, access: fs.access, scope, wire: op.wire })
            &&& decisions::wire_bound(wire, fs.context, scope, session_ids, op.wire)
            &&& pending == fs
            &&& after == before
        },
    }
}

/// The verdict of a decision on a path that is in force: denials carry its scope too.
pub open spec fn scoped_verdict(action: DecisionAction, scope: ApprovalScope) -> Verdict {
    Verdict {
        allowed: action == DecisionAction::Approve,
        source: VerdictSource::Scope(scope),
    }
}

/// Having put a file decision in force, or failed to, comes to the result.
pub open spec fn filesystem_completed(
    before: PolicyStore,
    after: PolicyStore,
    fs: PendingFilesystem,
    op: FilesystemScopeOp,
    action: DecisionAction,
    succeeded: bool,
    now: u64,
    r: Option<FilesystemDelivery>,
) -> bool {
    if !succeeded && action == DecisionAction::Deny {
        r is None && decisions::restored(before, after, Pending::Filesystem(fs))
    } else {
        filesystem::filesystem_finished(
            before,
            after,
            fs.id@,
            if succeeded {
                scoped_verdict(action, op.scope)
            } else {
                blocked()
            },
            op.path,
            op.access,
            now,
            r,
        )
    }
}

impl PolicyStore {
    /// Decide on a file access that was taken off the board. `session_ids` are the UI sessions
    /// that the request concerns.
    pub fn apply_pending_filesystem_decision<F: Fn(&FilesystemRule, &PathQuery) -> bool>(
        &mut self,
        fs: PendingFilesystem,
        wire: ScopeWire,
        scope: ApprovalScope,
        target: &Option<ApprovalTarget>,
        action: DecisionAction,
        path_matches: &F,
        session_ids: &Vec<String>,
        now: u64,
    ) -> (r: Decided<FilesystemScopeOp, PendingFilesystem, FilesystemDelivery>)
        requires
            old(self).wf(),
            text::decides_pairs(*path_matches),
        ensures
            final(self).wf(),
            final(self).configured_as(old(self)),
            filesystem_decided(
                *old(self),
                *final(self),
                fs,
                wire,
                scope,
                *target,
                action,
                *path_matches,
                session_ids@,
                now,
                r,
            ),
    {
        let root = text::or_opt(
            text::copy_opt(&wire.paths.project_root),
            &fs.context.project_root,
        );
        let path = match decisions::resolve_pending_filesystem_target(
            &fs,
            scope,
            target,
            &root,
            path_matches,
        ) {
            Ok(path) => path,
            Err(error) => {
                self.restore_pending(Pending::Filesystem(fs));
                return Decided::Refused(error);
            },
        };
        if scope == ApprovalScope::Once {
            let delivery = self.finish_filesystem(
                &fs.id,
                &path,
                fs.access,
                action == DecisionAction::Approve,
                verdict_source(action, scope),
                now,
            );
            return Decided::Done {
                reply: ScopeActionReply::Filesystem { path, access: fs.access, scope },
                delivery,
            };
        }
        let wire = decisions::scope_wire_for_pending(wire, &fs.context, scope, session_ids);
        Decided::Apply {
            op: FilesystemScopeOp { path, access: fs.access, scope, wire },
            pending: fs,
        }
    }

    /// Follow up on a file decision that was put in force, or could not be.
    pub fn complete_filesystem_decision(
        &mut self,
        fs: PendingFilesystem,
        op: &FilesystemScopeOp,
        action: DecisionAction,
        succeeded: bool,
        now: u64,
    ) -> (r: Option<FilesystemDelivery>)
        requires
            old(self).wf(),
        ensures
            final(self).wf(),
            final(self).configured_as(old(self)),
            filesystem_completed(*old(self), *final(self), fs, *op, action, succeeded, now, r),
    {
        if succeeded {
            self.finish_filesystem(
                &fs.id,
                &op.path,
                op.access,
                action == DecisionAction::Approve,
                VerdictSource::Scope(op.scope),
                now,
            )
        } else if action == DecisionAction::Approve {
            self.finish_filesystem(
                &fs.id,
                &op.path,
                op.access,
                false,
                VerdictSource::Blocked,
                now,
            )
        } else {
            self.restore_pending(Pending::Filesystem(fs));
            None
        }
    }
}

/// A resource decision comes to the result.
pub open spec fn resource_decided<R: Fn(&ResourceRule, &PathQuery) -> bool>(
    before: PolicyStore,
    after: PolicyStore,
    res: PendingResource,
    wire: ScopeWire,
    scope: ApprovalScope,
    target: Option<ApprovalTarget>,
    action: DecisionAction,
    path_matches: R,
    session_ids: Seq<String>,
    now: u64,
    r: Decided<ResourceScopeOp, PendingResource, ResourceDelivery>,
) -> bool {
    match decisions::resource_target(res, scope, target, wire.root(res.context), path_matches) {
        None => {
            &&& r == Decided::<ResourceScopeOp, PendingResource, ResourceDelivery>::Refused(
                PolicydError::InvalidDecisionTarget,
            )
            &&& decisions::restored(before, after, Pending::Resource(res))
        },
        Some(path) => if scope == ApprovalScope::Once {
            &&& r matches Decided::Done { reply, delivery }
            &&& reply == (ScopeActionReply::Resource {
                kind: res.kind,
                path,
                access: res.access,
                scope,
            })
            &&& filesystem::resource_finished(
                before,
                after,
                res.id@,
                verdict_of(action, scope),
                res.kind,
                path,
                res.access,
                now,
                delivery,
            )
        } else {
            &&& r matches Decided::Apply { op, pending }
            &&& op == (ResourceScopeOp {
                kind: res.kind,
                path,
                access: res.access,
                scope,
                wire: op.wire,
            })
            &&& decisions::wire_bound(wire, res.context, scope, session_ids, op.wire)
            &&& pending == res
            &&& after == before
        },
    }
}

/// Having put a resource decision in force, or failed to, comes to the result.
pub open spec fn resource_completed(
    before: PolicyStore,
    after: PolicyStore,
    res: PendingResource,
    op: ResourceScopeOp,
    action: DecisionAction,
    succeeded: bool,
    now: u64,
    r: Option<ResourceDelivery>,
) -> bool {
    if !succeeded && action == DecisionAction::Deny {
        r is None && decisions::restored(before, after, Pending::Resource(res))
    } else {
        filesystem::resource_finished(
            before,
            after,
            res.id@,
            if succeeded {
                scoped_verdict(action, op.scope)
            } else {
                blocked()
            },
            op.kind,
            op.path,
            op.access,
            now,
            r,
        )
    }
}

impl PolicyStore {
    /// Decide on a resource that was taken off the board. `session_ids` are the UI sessions that
    /// the request concerns.
    pub fn apply_pending_resource_decision<R: Fn(&ResourceRule, &PathQuery) -> bool>(
        &mut self,
        res: PendingResource,
        wire: ScopeWire,
        scope: ApprovalScope,
        target: &Option<ApprovalTarget>,
        action: DecisionAction,
        path_matches: &R,
        session_ids: &Vec<String>,
        now: u64,
    ) -> (r: Decided<ResourceScopeOp, PendingResource, ResourceDelivery>)
        requires
            old(self).wf(),
            text::decides_pairs(*path_matches),
        ensures
            final(self).wf(),
            final(self).configured_as(old(self)),
            resource_decided(
                *old(self),
                *final(self),
                res,
                wire,
                scope,
                *target,
                action,
                *path_matches,
                session_ids@,
                now,
                r,
            ),
    {
        let root = text::or_opt(
            text::copy_opt(&wire.paths.project_root),
            &res.context.project_root,
        );
        let path = match decisions::resolve_pending_resource_target(
            &res,
            scope,
            target,
            &root,
            path_matches,
        ) {
            Ok(path) => path,
            Err(error) => {
                self.restore_pending(Pending::Resource(res));
                return Decided::Refused(error);
            },
        };
        if scope == ApprovalScope::Once {
            let delivery = self.finish_resource(
                &res.id,
                res.kind,
                &path,
                res.access,
                action == DecisionAction::Approve,
                verdict_source(action, scope),
                now,
            );
            return Decided::Done {
                reply: ScopeActionReply::Resource {
                    kind: res.kind,
                    path,
                    access: res.access,
                    scope,
                },
                delivery,
            };
        }
        let wire = decisions::scope_wire_for_pending(wire, &res.context, scope, session_ids);
        Decided::Apply {
            op: ResourceScopeOp { kind: res.kind, path, access: res.access, scope, wire },
            pending: res,
        }
    }

    /// Follow up on a resource decision that was put in force, or could not be.
    pub fn complete_resource_decision(
        &mut self,
        res: PendingResource,
        op: &ResourceScopeOp,
        action: DecisionAction,
        succeeded: bool,
        now: u64,
    ) -> (r: Option<ResourceDelivery>)
        requires
            old(self).wf(),
        ensures
            final(self).wf(),
            final(self).configured_as(old(self)),
            resource_completed(*old(self), *final(self), res, *op, action, succeeded, now, r),
    {
        if succeeded {
            self.finish_resource(
                &res.id,
                op.kind,
                &op.path,
                op.access,
                action == DecisionAction::Approve,
                VerdictSource::Scope(op.scope),
                now,
            )
        } else if action == DecisionAction::Approve {
            self.finish_resource(
                &res.id,
                op.kind,
                &op.path,
                op.access,
                false,
                VerdictSource::Blocked,
                now,
            )
        } else {
            self.restore_pending(Pending::Resource(res));
            None
        }
    }
}

/// A D-Bus decision comes to the result.
pub open spec fn dbus_decided<D: Fn(&DbusTarget, &DbusTarget) -> bool>(
    before: PolicyStore,
    after: PolicyStore,
    dbus: PendingDbus,
    wire: ScopeWire,
    scope: ApprovalScope,
    target: Option<ApprovalTarget>,
    action: DecisionAction,
    covers: D,
    access: ResourceAccess,
    now: u64,
    r: Decided<DbusScopeOp, PendingDbus, ResourceDelivery>,
) -> bool {
    match decisions::dbus_target(dbus, target, covers) {
        None => {
            &&& r == Decided::<DbusScopeOp, PendingDbus, ResourceDelivery>::Refused(
                PolicydError::InvalidDecisionTarget,
            )
            &&& decisions::restored(before, after, Pending::Dbus(dbus))
        },
        Some(resolved) => if scope == ApprovalScope::Once {
            &&& r matches Decided::Done { reply, delivery }
            &&& reply matches ScopeActionReply::Dbus { target: told, scope: told_scope }
            &&& told@ == resolved@
            &&& told_scope == scope
            &&& filesystem::resource_finished(
                before,
                after,
                dbus.id@,
                verdict_of(action, scope),
                ResourceKind::UnixSocket,
                dbus.path,
                access,
                now,
                delivery,
            )
        } else {
            &&& r matches Decided::Apply { op, pending }
            &&& op.target@ == resolved@
            &&& op.scope == scope
            &&& op.wire == wire.filled(dbus.context)
            &&& pending == dbus
            &&& after == before
        },
    }
}

/// Having put a D-Bus decision in force, or failed to, comes to the result: where it failed the
/// request waits again, whatever was decided.
pub open spec fn dbus_completed(
    before: PolicyStore,
    after: PolicyStore,
    dbus: PendingDbus,
    scope: ApprovalScope,
    action: DecisionAction,
    access: ResourceAccess,
    succeeded: bool,
    now: u64,
    r: Option<ResourceDelivery>,
) -> bool {
    if succeeded {
        filesystem::resource_finished(
            before,
            after,
            dbus.id@,
            verdict_of(action, scope),
            ResourceKind::UnixSocket,
            dbus.path,
            access,
            now,
            r,
        )
    } else {
        r is None && decisions::restored(before, after, Pending::Dbus(dbus))
    }
}

impl PolicyStore {
    /// Decide on a D-Bus message that was taken off the board. `access` is what D-Bus verdicts
    /// are filed under among those of sockets.
    pub fn apply_pending_dbus_decision<D: Fn(&DbusTarget, &DbusTarget) -> bool>(
        &mut self,
        dbus: PendingDbus,
        wire: ScopeWire,
        scope: ApprovalScope,
        target: &Option<ApprovalTarget>,
        action: DecisionAction,
        covers: &D,
        access: ResourceAccess,
        now: u64,
    ) -> (r: Decided<DbusScopeOp, PendingDbus, ResourceDelivery>)
        requires
            old(self).wf(),
            text::decides_pairs(*covers),
        ensures
            final(self).wf(),
            final(self).configured_as(old(self)),
            dbus_decided(
                *old(self),
                *final(self),
                dbus,
                wire,
                scope,
                *target,
                action,
                *covers,
                access,
                now,
                r,
            ),
    {
        let resolved = match decisions::resolve_pending_dbus_target(&dbus, target, covers) {
            Ok(resolved) => resolved,
            Err(error) => {
                self.restore_pending(Pending::Dbus(dbus));
                return Decided::Refused(error);
            },
        };
        if scope == ApprovalScope::Once {
            let delivery = self.finish_resource(
                &dbus.id,
                ResourceKind::UnixSocket,
                &dbus.path,
                access,
                action == DecisionAction::Approve,
                verdict_source(action, scope),
                now,
            );
            return Decided::Done {
                reply: ScopeActionReply::Dbus { target: resolved, scope },
                delivery,
            };
        }
        let wire = decisions::scope_wire_for_context(wire, &dbus.context);
        Decided::Apply { op: DbusScopeOp { target: resolved, scope, wire }, pending: dbus }
    }

    /// Follow up on a D-Bus decision that was put in force, or could not be.
    pub fn complete_dbus_decision(
        &mut self,
        dbus: PendingDbus,
        scope: ApprovalScope,
        action: DecisionAction,
        access: ResourceAccess,
        succeeded: bool,
        now: u64,
    ) -> (r: Option<ResourceDelivery>)
        requires
            old(self).wf(),
        ensures
            final(self).wf(),
            final(self).configured_as(old(self)),
            dbus_completed(
                *old(self),
                *final(self),
                dbus,
                scope,
                action,
                access,
                succeeded,
                now,
                r,
            ),
    {
        if succeeded {
            self.finish_resource(
                &dbus.id,
                ResourceKind::UnixSocket,
                &dbus.path,
                access,
                action == DecisionAction::Approve,
                verdict_source(action, scope),
                now,
            )
        } else {
            self.restore_pending(Pending::Dbus(dbus));
            None
        }
    }
}

/// The tests on targets that decisions of the five kinds rest on.
pub struct TargetTests<'a, H, S, F, R, D> {
    /// Whether the first host pattern covers the second host.
    pub host: &'a H,
    /// Whether the first command may be approved by the second, a prefix of it.
    pub command: &'a S,
    /// Whether the file rule covers the path.
    pub file: &'a F,
    /// Whether the resource rule covers the path.
    pub resource: &'a R,
    /// Whether a rule on the first D-Bus target covers the second.
    pub dbus: &'a D,
}

impl<
    'a,
    H: Fn(&String, &String) -> bool,
    S: Fn(&Vec<String>, &Vec<String>) -> bool,
    F: Fn(&FilesystemRule, &PathQuery) -> bool,
    R: Fn(&ResourceRule, &PathQuery) -> bool,
    D: Fn(&DbusTarget, &DbusTarget) -> bool,
> TargetTests<'a, H, S, F, R, D> {
    /// Every test answers every question, one way only.
    pub open spec fn decide(&self) -> bool {
        &&& text::decides_pairs(*self.host)
        &&& text::decides_pairs(*self.command)
        &&& text::decides_pairs(*self.file)
        &&& text::decides_pairs(*self.resource)
        &&& text::decides_pairs(*self.dbus)
    }
}

/// An HTTP decision to put in force.
#[derive(Debug, PartialEq, Eq)]
pub struct HttpDecision {
    pub pending: PendingHttp,
    pub scope: ApprovalScope,
    pub target: Option<HttpRuleTarget>,
    pub wire: ScopeWire,
    pub allowed: bool,
}

/// What follows from a decision on a pending request.
#[derive(Debug, PartialEq, Eq)]
pub enum DecisionStep {
    /// The request is unknown, the client may not decide, or the target does not fit.
    Refused(PolicydError),
    Network(Decided<NetworkScopeOp, PendingNetwork, NetworkDelivery>),
    Elevation(SudoDecided),
    Filesystem(Decided<FilesystemScopeOp, PendingFilesystem, FilesystemDelivery>),
    Resource(Decided<ResourceScopeOp, PendingResource, ResourceDelivery>),
    Dbus(Decided<DbusScopeOp, PendingDbus, ResourceDelivery>),
    Http(HttpDecision),
}

/// The HTTP target that a decision names, where it names none of another kind.
pub open spec fn http_target(target: Option<ApprovalTarget>) -> Option<Option<HttpRuleTarget>> {
    match target {
        None => Some(None),
        Some(ApprovalTarget::Http(named)) => Some(Some(named)),
        Some(_) => None,
    }
}

/// A decision comes to the result, by the kind of the request that it was taken off the board
/// for.
pub open spec fn decided<
    H: Fn(&String, &String) -> bool,
    S: Fn(&Vec<String>, &Vec<String>) -> bool,
    F: Fn(&FilesystemRule, &PathQuery) -> bool,
    R: Fn(&ResourceRule, &PathQuery) -> bool,
    D: Fn(&DbusTarget, &DbusTarget) -> bool,
>(
    taken: PolicyStore,
    after: PolicyStore,
    pending: Pending,
    decision: PendingDecision,
    action: DecisionAction,
    host: H,
    command: S,
    file: F,
    resource: R,
    dbus: D,
    session_ids: Seq<String>,
    dbus_access: ResourceAccess,
    now: u64,
    r: DecisionStep,
) -> bool {
    let wire = decision.wire;
    let scope = decision.scope;
    let target = decision.target;
    match pending {
        Pending::Network(net) => r matches DecisionStep::Network(d) && network_decided(
            taken,
            after,
            net,
            wire,
            scope,
            target,
            action,
            host,
            now,
            d,
        ),
        Pending::Elevation(elev) => r matches DecisionStep::Elevation(d) && sudo_decided(
            taken,
            after,
            elev,
            wire,
            scope,
            target,
            action,
            command,
            d,
        ),
        Pending::Filesystem(fs) => r matches DecisionStep::Filesystem(d) && filesystem_decided(
            taken,
            after,
            fs,
            wire,
            scope,
            target,
            action,
            file,
            session_ids,
            now,
            d,
        ),
        Pending::Resource(res) => r matches DecisionStep::Resource(d) && resource_decided(
            taken,
            after,
            res,
            wire,
            scope,
            target,
            action,
            resource,
            session_ids,
            now,
            d,
        ),
        Pending::Dbus(message) => r matches DecisionStep::Dbus(d) && dbus_decided(
            taken,
            after,
            message,
            wire,
            scope,
            target,
            action,
            dbus,
            dbus_access,
            now,
            d,
        ),
        Pending::Http(http) => {
            &&& after == taken
            &&& r == (match http_target(target) {
                None => DecisionStep::Refused(PolicydError::InvalidDecisionTarget),
                Some(named) => DecisionStep::Http(
                    HttpDecision {
                        pending: http,
                        scope,
                        target: named,
                        wire,
                        allowed: action == DecisionAction::Approve,
                    },
                ),
            })
        },
    }
}

/// A decision on a pending request comes to the result.
pub open spec fn decision_applied<
    H: Fn(&String, &String) -> bool,
    S: Fn(&Vec<String>, &Vec<String>) -> bool,
    F: Fn(&FilesystemRule, &PathQuery) -> bool,
    R: Fn(&ResourceRule, &PathQuery) -> bool,
    D: Fn(&DbusTarget, &DbusTarget) -> bool,
>(
    before: PolicyStore,
    after: PolicyStore,
    decision: PendingDecision,
    action: DecisionAction,
    host: H,
    command: S,
    file: F,
    resource: R,
    dbus: D,
    session_ids: Seq<String>,
    dbus_access: ResourceAccess,
    now: u64,
    r: DecisionStep,
) -> bool {
    let id = decision.pending_id@;
    if !before.pending@.contains_key(id) {
        &&& r == DecisionStep::Refused(PolicydError::UnknownPendingId)
        &&& decisions::only_pending_changed(before, after)
        &&& after.pending@ == before.pending@
    } else if !decisions::may_decide(
        before,
        decision.client_id,
        decision.wire.session_id,
        before.pending@[id].session(),
        decision.approver_uid,
    ) {
        &&& r == DecisionStep::Refused(PolicydError::UnauthorizedApprovalClient)
        &&& decisions::only_pending_changed(before, after)
        &&& after.pending@ == before.pending@
    } else {
        exists|taken: PolicyStore|
            {
                &&& decisions::only_pending_changed(before, taken)
                &&& taken.pending@ == before.pending@.remove(id)
                &&& #[trigger] decided(
                    taken,
                    after,
                    before.pending@[id],
                    decision,
                    action,
                    host,
                    command,
                    file,
                    resource,
                    dbus,
                    session_ids,
                    dbus_access,
                    now,
                    r,
                )
            }
    }
}

impl PolicyStore {
    /// Decide on a pending request. What is to be put in force is handed back; the `complete_`
    /// methods follow it up. `session_ids` are the UI sessions that a file or resource request
    /// concerns, `dbus_access` what D-Bus verdicts are filed under among those of sockets.
    pub fn apply_pending_decision<
        H: Fn(&String, &String) -> bool,
        S: Fn(&Vec<String>, &Vec<String>) -> bool,
        F: Fn(&FilesystemRule, &PathQuery) -> bool,
        R: Fn(&ResourceRule, &PathQuery) -> bool,
        D: Fn(&DbusTarget, &DbusTarget) -> bool,
    >(
        &mut self,
        decision: PendingDecision,
        action: DecisionAction,
        tests: &TargetTests<H, S, F, R, D>,
        session_ids: &Vec<String>,
        dbus_access: ResourceAccess,
        now: u64,
    ) -> (r: DecisionStep)
        requires
            old(self).wf(),
            tests.decide(),
        ensures
            final(self).wf(),
            final(self).configured_as(old(self)),
            decision_applied(
                *old(self),
                *final(self),
                decision,
                action,
                *tests.host,
                *tests.command,
                *tests.file,
                *tests.resource,
                *tests.dbus,
                session_ids@,
                dbus_access,
                now,
                r,
            ),
    {
        let taken = match self.take_pending_decision(decision) {
            Ok(taken) => taken,
            Err(error) => {
                return DecisionStep::Refused(error);
            },
        };
        let ghost store = *self;
        let ghost pending = taken.pending;
        let scope = taken.scope;
        let r = match taken.pending {
            Pending::Network(net) => DecisionStep::Network(
                self.apply_pending_network_decision(
                    net,
                    taken.wire,
                    scope,
                    &taken.target,
                    action,
                    tests.host,
                    now,
                ),
            ),
            Pending::Elevation(elev) => DecisionStep::Elevation(
                self.apply_pending_sudo_decision(
                    elev,
                    taken.wire,
                    scope,
                    &taken.target,
                    action,
                    tests.command,
                ),
            ),
            Pending::Filesystem(fs) => DecisionStep::Filesystem(
                self.apply_pending_filesystem_decision(
                    fs,
                    taken.wire,
                    scope,
                    &taken.target,
                    action,
                    tests.file,
                    session_ids,
                    now,
                ),
            ),
            Pending::Resource(res) => DecisionStep::Resource(
                self.apply_pending_resource_decision(
                    res,
                    taken.wire,
                    scope,
                    &taken.target,
                    action,
                    tests.resource,
                    session_ids,
                    now,
                ),
            ),
            Pending::Dbus(message) => DecisionStep::Dbus(
                self.apply_pending_dbus_decision(
                    message,
                    taken.wire,
                    scope,
                    &taken.target,
                    action,
                    tests.dbus,
                    dbus_access,
                    now,
                ),
            ),
            Pending::Http(http) => {
                let target = match taken.target {
                    None => Some(None),
                    Some(ApprovalTarget::Http(named)) => Some(Some(named)),
                    Some(_) => None,
                };
                match target {
                    Some(target) => DecisionStep::Http(
                        HttpDecision {
                            pending: http,
                            scope,
                            target,
                            wire: taken.wire,
                            allowed: action == DecisionAction::Approve,
                        },
                    ),
                    None => DecisionStep::Refused(PolicydError::InvalidDecisionTarget),
                }
            },
        };
        assert(decided(
            store,
            *self,
            pending,
            decision,
            action,
            *tests.host,
            *tests.command,
            *tests.file,
            *tests.resource,
            *tests.dbus,
            session_ids@,
            dbus_access,
            now,
            r,
        ));
        r
    }

    /// Approve a pending request; see [`PolicyStore::apply_pending_decision`].
    pub fn approve<
        H: Fn(&String, &String) -> bool,
        S: Fn(&Vec<String>, &Vec<String>) -> bool,
        F: Fn(&FilesystemRule, &PathQuery) -> bool,
        R: Fn(&ResourceRule, &PathQuery) -> bool,
        D: Fn(&DbusTarget, &DbusTarget) -> bool,
    >(
        &mut self,
        decision: PendingDecision,
        tests: &TargetTests<H, S, F, R, D>,
        session_ids: &Vec<String>,
        dbus_access: ResourceAccess,
        now: u64,
    ) -> (r: DecisionStep)
        requires
            old(self).wf(),
            tests.decide(),
        ensures
            final(self).wf(),
            final(self).configured_as(old(self)),
            decision_applied(
                *old(self),
                *final(self),
                decision,
                DecisionAction::Approve,
                *tests.host,
                *tests.command,
                *tests.file,
                *tests.resource,
                *tests.dbus,
                session_ids@,
                dbus_access,
                now,
                r,
            ),
    {
        self.apply_pending_decision(
            decision,
            DecisionAction::Approve,
            tests,
            session_ids,
            dbus_access,
            now,
        )
    }

    /// Deny a pending request; see [`PolicyStore::apply_pending_decision`].
    pub fn deny<
        H: Fn(&String, &String) -> bool,
        S: Fn(&Vec<String>, &Vec<String>) -> bool,
        F: Fn(&FilesystemRule, &PathQuery) -> bool,
        R: Fn(&ResourceRule, &PathQuery) -> bool,
        D: Fn(&DbusTarget, &DbusTarget) -> bool,
    >(
        &mut self,
        decision: PendingDecision,
        tests: &TargetTests<H, S, F, R, D>,
        session_ids: &Vec<String>,
        dbus_access: ResourceAccess,
        now: u64,
    ) -> (r: DecisionStep)
        requires
            old(self).wf(),
            tests.decide(),
        ensures
            final(self).wf(),
            final(self).configured_as(old(self)),
            decision_applied(
                *old(self),
                *final(self),
                decision,
                DecisionAction::Deny,
                *tests.host,
                *tests.command,
                *tests.file,
                *tests.resource,
                *tests.dbus,
                session_ids@,
                dbus_access,
                now,
                r,
            ),
    {
        self.apply_pending_decision(
            decision,
            DecisionAction::Deny,
            tests,
            session_ids,
            dbus_access,
            now,
        )
    }
}

/// A request to approve a host without a pending request.
#[derive(Debug, PartialEq, Eq)]
pub struct HostApproveRequest {
    pub host: String,
    pub port: u16,
    pub scope: ApprovalScope,
    pub session_id: Option<String>,
    pub ctx: ResolvedRequestContext,
}

/// What is to be put in force to approve a host without a pending request. `normalize` gives the
/// form that rules name a host in; `host_matches` tells whether a pattern covers a host.
pub fn approve_host<N: Fn(&String) -> String, H: Fn(&String, &String) -> bool>(
    policy: &Policy,
    req: &HostApproveRequest,
    normalize: &N,
    host_matches: &H,
) -> (r: Result<NetworkScopeOp, PolicydError>)
    requires
        text::determined(*normalize),
        text::decides_pairs(*host_matches),
    ensures
        ({
            let host = text::answer(*normalize, req.host);
            if host@.len() == 0 {
                r == Err::<NetworkScopeOp, _>(PolicydError::HostRequired)
            } else if req.port == 0 {
                r == Err::<NetworkScopeOp, _>(PolicydError::InvalidPort)
            } else if rules::network_rule_covers(
                policy.network.direct.deny@,
                host,
                req.port,
                *host_matches,
            ) {
                r == Err::<NetworkScopeOp, _>(PolicydError::HostDeniedByPolicy)
            } else {
                r == Ok::<_, PolicydError>(
                    NetworkScopeOp {
                        host,
                        port: req.port,
                        scope: req.scope,
                        wire: ScopeWire::of(req.ctx, req.session_id),
                    },
                )
            }
        }),
{
    let host = normalize(&req.host);
    assert(host == text::answer(*normalize, req.host));
    if text::chars_of(host.as_str()).len() == 0 {
        return Err(PolicydError::HostRequired);
    }
    if req.port == 0 {
        return Err(PolicydError::InvalidPort);
    }
    if rules::policy_denied(policy, &host, req.port, host_matches) {
        return Err(PolicydError::HostDeniedByPolicy);
    }
    Ok(
        NetworkScopeOp {
            host,
            port: req.port,
            scope: req.scope,
            wire: ScopeWire::from_resolved(&req.ctx, text::copy_opt(&req.session_id)),
        },
    )
}

/// The step refuses the decision.
pub open spec fn refuses(step: DecisionStep) -> bool {
    match step {
        DecisionStep::Refused(_) => true,
        DecisionStep::Network(d) => d is Refused,
        DecisionStep::Elevation(d) => d is Refused,
        DecisionStep::Filesystem(d) => d is Refused,
        DecisionStep::Resource(d) => d is Refused,
        DecisionStep::Dbus(d) => d is Refused,
        DecisionStep::Http(_) => false,
    }
}

/// A refused decision leaves every request waiting and changes nothing else. The one exception
/// is an HTTP request that is decided with a target of another kind, which is left out here.
pub proof fn law_refused_decision_changes_nothing<
    H: Fn(&String, &String) -> bool,
    S: Fn(&Vec<String>, &Vec<String>) -> bool,
    F: Fn(&FilesystemRule, &PathQuery) -> bool,
    R: Fn(&ResourceRule, &PathQuery) -> bool,
    D: Fn(&DbusTarget, &DbusTarget) -> bool,
>(
    before: PolicyStore,
    after: PolicyStore,
    decision: PendingDecision,
    action: DecisionAction,
    host: H,
    command: S,
    file: F,
    resource: R,
    dbus: D,
    session_ids: Seq<String>,
    dbus_access: ResourceAccess,
    now: u64,
    r: DecisionStep,
)
    requires
        before.wf(),
        decision_applied(
            before,
            after,
            decision,
            action,
            host,
            command,
            file,
            resource,
            dbus,
            session_ids,
            dbus_access,
            now,
            r,
        ),
        refuses(r),
        before.pending@.contains_key(decision.pending_id@) ==> !(
        before.pending@[decision.pending_id@] is Http && http_target(decision.target) is None),
    ensures
        decisions::only_pending_changed(before, after),
        after.pending@ == before.pending@,
{
    let id = decision.pending_id@;
    if before.pending@.contains_key(id) {
        let pending = before.pending@[id];
        assert(pending.spec_id()@ == id);
        assert(before.pending@ =~= before.pending@.remove(id).insert(id, pending));
    }
}

/// A decision that is put in force, or has taken effect, leaves its request off the board until
/// it is followed up, and touches no other request.
pub proof fn law_decision_takes_one_request<
    H: Fn(&String, &String) -> bool,
    S: Fn(&Vec<String>, &Vec<String>) -> bool,
    F: Fn(&FilesystemRule, &PathQuery) -> bool,
    R: Fn(&ResourceRule, &PathQuery) -> bool,
    D: Fn(&DbusTarget, &DbusTarget) -> bool,
>(
    before: PolicyStore,
    after: PolicyStore,
    decision: PendingDecision,
    action: DecisionAction,
    host: H,
    command: S,
    file: F,
    resource: R,
    dbus: D,
    session_ids: Seq<String>,
    dbus_access: ResourceAccess,
    now: u64,
    r: DecisionStep,
)
    requires
        before.wf(),
        decision_applied(
            before,
            after,
            decision,
            action,
            host,
            command,
            file,
            resource,
            dbus,
            session_ids,
            dbus_access,
            now,
            r,
        ),
        !refuses(r),
    ensures
        after.pending@ == before.pending@.remove(decision.pending_id@),
{
}

/// A denial that could not be put in force leaves the board as it was before the decision: the
/// request waits again and its callers still wait.
pub proof fn law_failed_denial_waits_on(
    before: PolicyStore,
    taken: PolicyStore,
    after: PolicyStore,
    net: PendingNetwork,
    op: NetworkScopeOp,
    now: u64,
    r: Option<NetworkDelivery>,
)
    requires
        before.wf(),
        before.pending@.contains_key(net.id@),
        before.pending@[net.id@] == Pending::Network(net),
        decisions::only_pending_changed(before, taken),
        taken.pending@ == before.pending@.remove(net.id@),
        network_completed(taken, after, net, op, DecisionAction::Deny, false, now, r),
    ensures
        after.network_board() == before.network_board(),
        r is None,
{
    assert(before.pending@ =~= taken.pending@.insert(net.id@, Pending::Network(net)));
    assert(after.network_board() =~= before.network_board());
}

} // verus!
