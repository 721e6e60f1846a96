//! Verdicts: in which order rules and decisions speak, and which of them is heard.

use vstd::prelude::*;

use crate::deny_inodes;
use crate::freeze::CgroupFreezeError;
use crate::rules;
use crate::rules::InodeIdentity;
use crate::state::FilesystemRuleKey;
use crate::state::NetworkRuleKey;
use crate::state::ResourceRuleKey;
use crate::state::SessionRules;
use crate::store::PolicyStore;
use crate::text;
use crate::types::ApprovalScope;
use crate::types::DbusRule;
use crate::types::DbusTarget;
use crate::types::FileAccess;
use crate::types::FilesystemRule;
use crate::types::NetworkRule;
use crate::types::Policy;
use crate::types::ResolvedRequestContext;
use crate::types::ResourceAccess;
use crate::types::ResourceKind;
use crate::types::ResourceRule;
use crate::types::Verdict;
use crate::types::VerdictSource;

verus! {

/// There is a verdict and it rests on a single-use approval.
pub open spec fn rests_on_once(verdict: Option<Verdict>) -> bool {
    verdict matches Some(v) && v.once()
}

/// There is a verdict and it allows the request.
pub open spec fn permits(verdict: Option<Verdict>) -> bool {
    verdict matches Some(v) && v.allowed
}

/// There is a verdict and it denies the request.
pub open spec fn forbids(verdict: Option<Verdict>) -> bool {
    verdict matches Some(v) && !v.allowed
}

/// A network request and what it is judged by.
pub struct NetworkQuery<'a> {
    /// The normal form of the host.
    pub host: &'a String,
    pub port: u16,
    /// The names that the host is known by.
    pub keys: &'a Vec<NetworkRuleKey>,
    /// The sessions of the request's context.
    pub sessions: &'a Vec<String>,
    /// The policy of the request's context.
    pub policy: &'a Policy,
}

/// The source of a permission that a network rule gives: an empty comment counts as none.
pub open spec fn rule_source(comment: Option<String>) -> VerdictSource {
    match comment {
        Some(c) if c@.len() > 0 => VerdictSource::Policy(Some(c)),
        _ => VerdictSource::Policy(None),
    }
}

/// The first rule that names the port and covers the host.
pub open spec fn first_network_rule<M: Fn(&String, &String) -> bool>(
    rules: Seq<NetworkRule>,
    host: String,
    port: u16,
    matches: M,
) -> Option<NetworkRule>
    decreases rules.len(),
{
    if rules.len() == 0 {
        None
    } else if text::relates(matches, rules[0].host, host) && rules[0].port == port {
        Some(rules[0])
    } else {
        first_network_rule(rules.skip(1), host, port, matches)
    }
}

/// A session denies the network request.
pub open spec fn network_session_denies<M: Fn(&String, &String) -> bool>(
    session: SessionRules,
    q: NetworkQuery,
    matches: M,
) -> bool {
    rules::some_session(
        session.session_deny@,
        q.sessions@,
        |b: Vec<NetworkRuleKey>| rules::network_covered(b@, q.keys@, q.port, matches),
    )
}

/// A session allows the network request.
pub open spec fn network_session_allows<M: Fn(&String, &String) -> bool>(
    session: SessionRules,
    q: NetworkQuery,
    matches: M,
) -> bool {
    rules::some_session(
        session.session_allow@,
        q.sessions@,
        |b: Vec<NetworkRuleKey>| rules::network_covered(b@, q.keys@, q.port, matches),
    )
}

/// The policy or a session denies the network request.
pub open spec fn network_denied<M: Fn(&String, &String) -> bool>(
    session: SessionRules,
    q: NetworkQuery,
    matches: M,
) -> bool {
    rules::network_rule_covers(q.policy.network.direct.deny@, *q.host, q.port, matches)
        || network_session_denies(session, q, matches)
}

/// The verdict on a network request: denials first, then single-use approvals, the sessions'
/// permissions and the policy's.
pub open spec fn network_decision<M: Fn(&String, &String) -> bool>(
    session: SessionRules,
    q: NetworkQuery,
    matches: M,
) -> Option<Verdict> {
    if network_denied(session, q, matches) {
        Some(Verdict { allowed: false, source: VerdictSource::Policy(None) })
    } else if rules::once_covered(session.once_allow@, q.keys@) {
        Some(Verdict { allowed: true, source: VerdictSource::Scope(ApprovalScope::Once) })
    } else if network_session_allows(session, q, matches) {
        Some(Verdict { allowed: true, source: VerdictSource::Scope(ApprovalScope::Session) })
    } else {
        match first_network_rule(q.policy.network.direct.allow@, *q.host, q.port, matches) {
            Some(rule) => Some(Verdict { allowed: true, source: rule_source(rule.comment) }),
            None => None,
        }
    }
}

/// A file access and what it is judged by.
pub struct FilesystemQuery<'a> {
    pub path: &'a String,
    /// The access, with the traversal of a directory in its normal form.
    pub access: FileAccess,
    pub ctx: &'a ResolvedRequestContext,
    pub policy: &'a Policy,
    /// The root of the repository that holds the path.
    pub git_root: &'a Option<String>,
    /// The standalone sessions of the request's context.
    pub sessions: &'a Vec<String>,
    /// The file that the path leads to, where it is there.
    pub identity: Option<InodeIdentity>,
}

/// The policy denies the file access, by path or by inode.
pub open spec fn filesystem_policy_denies<F: Fn(&FilesystemRule, &Option<String>) -> bool>(
    store: PolicyStore,
    q: FilesystemQuery,
    matches: F,
) -> bool {
    rules::filesystem_rules_cover(
        q.policy.filesystem.deny@,
        q.ctx.paths.project_root,
        matches,
    ) || deny_inodes::inode_denied(store.deny_inodes.inodes@, q.identity, q.access)
}

/// A session denies the file access.
pub open spec fn filesystem_session_denies<F: Fn(&FilesystemRule, &Option<String>) -> bool>(
    session: SessionRules,
    q: FilesystemQuery,
    matches: F,
) -> bool {
    rules::some_session(
        session.filesystem_deny@,
        q.sessions@,
        |b: Vec<FilesystemRuleKey>|
            rules::filesystem_covered(b@, q.ctx.paths.project_root, matches),
    )
}

/// A session allows the file access, under this name or another.
pub open spec fn filesystem_session_allows<
    F: Fn(&FilesystemRule, &Option<String>) -> bool,
    I: Fn(&String) -> bool,
>(session: SessionRules, q: FilesystemQuery, matches: F, same_file: I) -> bool {
    rules::some_session(
        session.filesystem_allow@,
        q.sessions@,
        |b: Vec<FilesystemRuleKey>|
            rules::from_any_root(
                rules::roots_for_allow(q.ctx.paths.project_root, *q.git_root),
                |root: Option<String>| rules::filesystem_covered(b@, root, matches),
            ),
    ) || (q.identity is Some && rules::some_session(
        session.filesystem_allow@,
        q.sessions@,
        |b: Vec<FilesystemRuleKey>| rules::inode_covered(b@, q.access, same_file),
    ))
}

/// The verdict on a file access: the runtime's own paths, denials, the sessions' permissions,
/// the rules that the sandbox was started with, and the policy's permissions.
pub open spec fn filesystem_decision<
    F: Fn(&FilesystemRule, &Option<String>) -> bool,
    I: Fn(&String) -> bool,
>(store: PolicyStore, q: FilesystemQuery, matches: F, same_file: I) -> Option<Verdict> {
    if rules::infrastructure(q.path@) {
        Some(Verdict { allowed: true, source: VerdictSource::Infrastructure })
    } else if filesystem_policy_denies(store, q, matches) || filesystem_session_denies(
        store.session,
        q,
        matches,
    ) {
        Some(Verdict { allowed: false, source: VerdictSource::Policy(None) })
    } else if filesystem_session_allows(store.session, q, matches, same_file) {
        Some(Verdict { allowed: true, source: VerdictSource::Scope(ApprovalScope::Session) })
    } else if store.session.static_allow@.contains_key(rules::static_allow_key(*q.ctx))
        && rules::filesystem_rules_cover(
        store.session.static_allow@[rules::static_allow_key(*q.ctx)]@,
        q.ctx.paths.project_root,
        matches,
    ) {
        Some(Verdict { allowed: true, source: VerdictSource::Static })
    } else if rules::from_any_root(
        rules::roots_for_allow(q.ctx.paths.project_root, *q.git_root),
        |root: Option<String>|
            rules::filesystem_rules_cover(q.policy.filesystem.allow@, root, matches),
    ) {
        Some(Verdict { allowed: true, source: VerdictSource::Policy(None) })
    } else {
        None
    }
}

/// A use of a resource and what it is judged by.
pub struct ResourceQuery<'a> {
    pub kind: ResourceKind,
    pub path: &'a String,
    pub access: ResourceAccess,
    pub policy: &'a Policy,
    /// The standalone sessions of the request's context.
    pub sessions: &'a Vec<String>,
    /// The file that the path leads to, where it is there.
    pub identity: Option<InodeIdentity>,
}

/// The policy denies the use of the resource: it is protected, or a rule names its path or its
/// inode.
pub open spec fn resource_policy_denies<F: Fn(&ResourceRule) -> bool>(
    store: PolicyStore,
    q: ResourceQuery,
    rule_matches: F,
) -> bool {
    ||| rules::protected_ipc(q.kind, q.path@, q.access)
    ||| rules::any_holds(q.policy.resources.deny@, rule_matches)
    ||| deny_inodes::inode_denied(store.deny_inodes.inodes@, q.identity, FileAccess::All)
}

/// The verdict on the use of a resource: denials, the sessions' permissions, the policy's.
pub open spec fn resource_decision<F: Fn(&ResourceRule) -> bool, G: Fn(&ResourceRule) -> bool>(
    store: PolicyStore,
    q: ResourceQuery,
    rule_matches: F,
    session_matches: G,
) -> Option<Verdict> {
    if resource_policy_denies(store, q, rule_matches) || rules::some_session(
        store.session.resource_deny@,
        q.sessions@,
        |b: Vec<ResourceRuleKey>| rules::resource_covered(b@, session_matches),
    ) {
        Some(Verdict { allowed: false, source: VerdictSource::Policy(None) })
    } else if rules::some_session(
        store.session.resource_allow@,
        q.sessions@,
        |b: Vec<ResourceRuleKey>| rules::resource_covered(b@, session_matches),
    ) {
        Some(Verdict { allowed: true, source: VerdictSource::Scope(ApprovalScope::Session) })
    } else if rules::any_holds(q.policy.resources.allow@, rule_matches) {
        Some(Verdict { allowed: true, source: VerdictSource::Policy(None) })
    } else {
        None
    }
}

/// The first D-Bus rule that matches.
pub open spec fn first_dbus_rule<F: Fn(&DbusRule) -> bool>(
    rules: Seq<DbusRule>,
    matches: F,
) -> Option<DbusRule>
    decreases rules.len(),
{
    if rules.len() == 0 {
        None
    } else if text::holds(matches, rules[0]) {
        Some(rules[0])
    } else {
        first_dbus_rule(rules.skip(1), matches)
    }
}

/// What the policy says of a D-Bus capability: a denial wins over a permission.
pub open spec fn dbus_policy_decision<F: Fn(&DbusRule) -> bool>(
    policy: Policy,
    matches: F,
) -> Option<Verdict> {
    if rules::any_holds(policy.dbus.deny@, matches) {
        Some(Verdict { allowed: false, source: VerdictSource::Policy(None) })
    } else {
        match first_dbus_rule(policy.dbus.allow@, matches) {
            Some(rule) => Some(
                Verdict { allowed: true, source: VerdictSource::Policy(rule.comment) },
            ),
            None => None,
        }
    }
}

/// What the policy says of a D-Bus capability. `matches` tells whether a rule matches it.
pub fn dbus_verdict<F: Fn(&DbusRule) -> bool>(policy: &Policy, matches: &F) -> (r: Option<Verdict>)
    requires
        text::decides(*matches),
    ensures
        r == dbus_policy_decision(*policy, *matches),
{
    if rules::any_matches(&policy.dbus.deny, matches) {
        return Some(Verdict::denied(VerdictSource::policy()));
    }
    let list = &policy.dbus.allow;
    let mut i: usize = 0;
    assert(list@.skip(0) =~= list@);
    while i < list.len()
        invariant
            text::decides(*matches),
            *list == policy.dbus.allow,
            !rules::any_holds(policy.dbus.deny@, *matches),
            i <= list@.len(),
            first_dbus_rule(list@, *matches) == first_dbus_rule(list@.skip(i as int), *matches),
        decreases list@.len() - i,
    {
        assert(list@.skip(i as int)[0] == list@[i as int]);
        if matches(&list[i]) {
            return Some(Verdict::allowed(VerdictSource::of_rule(&list[i].comment)));
        }
        assert(list@.skip(i as int).skip(1) =~= list@.skip(i + 1));
        i += 1;
    }
    None
}

/// The verdict of the first policy rule that allows the network request.
fn policy_allow<M: Fn(&String, &String) -> bool>(q: &NetworkQuery, matches: &M) -> (r: Option<
    Verdict,
>)
    requires
        text::decides_pairs(*matches),
    ensures
        r == (match first_network_rule(
            q.policy.network.direct.allow@,
            *q.host,
            q.port,
            *matches,
        ) {
            Some(rule) => Some(Verdict { allowed: true, source: rule_source(rule.comment) }),
            None => None,
        }),
{
    let list = &q.policy.network.direct.allow;
    let mut i: usize = 0;
    assert(list@.skip(0) =~= list@);
    while i < list.len()
        invariant
            text::decides_pairs(*matches),
            *list == q.policy.network.direct.allow,
            i <= list@.len(),
            first_network_rule(list@, *q.host, q.port, *matches) == first_network_rule(
                list@.skip(i as int),
                *q.host,
                q.port,
                *matches,
            ),
        decreases list@.len() - i,
    {
        assert(list@.skip(i as int)[0] == list@[i as int]);
        if matches(&list[i].host, q.host) && list[i].port == q.port {
            if let Some(comment) = &list[i].comment {
                if text::chars_of(comment.as_str()).len() > 0 {
                    return Some(Verdict::allowed(VerdictSource::policy_with_comment(comment)));
                }
            }
            return Some(Verdict::allowed(VerdictSource::policy()));
        }
        assert(list@.skip(i as int).skip(1) =~= list@.skip(i + 1));
        i += 1;
    }
    None
}

impl PolicyStore {
    /// The verdict on a network request. With `consume_once` a single-use approval that gave the
    /// verdict is used up.
    pub fn network_verdict<M: Fn(&String, &String) -> bool>(
        &mut self,
        q: &NetworkQuery,
        matches: &M,
        consume_once: bool,
    ) -> (r: Option<Verdict>)
        requires
            old(self).wf(),
            text::decides_pairs(*matches),
        ensures
            final(self).wf(),
            final(self).configured_as(old(self)),
            *final(self) == (PolicyStore {
                session: SessionRules {
                    once_allow: final(self).session.once_allow,
                    ..old(self).session
                },
                ..*old(self)
            }),
            r == network_decision(old(self).session, *q, *matches),
            final(self).session.once_allow@ == (if consume_once && rests_on_once(r) {
                rules::once_spent(old(self).session.once_allow@, q.keys@)
            } else {
                old(self).session.once_allow@
            }),
    {
        if rules::policy_denied(q.policy, q.host, q.port, matches) {
            return Some(Verdict::denied(VerdictSource::policy()));
        }
        if self.session_denied(q.keys, q.port, q.sessions, matches) {
            return Some(Verdict::denied(VerdictSource::policy()));
        }
        if self.once_allowed(q.keys, consume_once) {
            return Some(Verdict::allowed(VerdictSource::Scope(ApprovalScope::Once)));
        }
        if self.session_allowed(q.keys, q.port, q.sessions, matches) {
            return Some(Verdict::allowed(VerdictSource::Scope(ApprovalScope::Session)));
        }
        policy_allow(q, matches)
    }

    /// The verdict on a network request, without using up a single-use approval.
    pub fn allow_verdict<M: Fn(&String, &String) -> bool>(
        &self,
        q: &NetworkQuery,
        matches: &M,
    ) -> (r: Option<Verdict>)
        requires
            self.wf(),
            text::decides_pairs(*matches),
        ensures
            r == network_decision(self.session, *q, *matches),
    {
        if rules::policy_denied(q.policy, q.host, q.port, matches) {
            return Some(Verdict::denied(VerdictSource::policy()));
        }
        if self.session_denied(q.keys, q.port, q.sessions, matches) {
            return Some(Verdict::denied(VerdictSource::policy()));
        }
        let mut i: usize = 0;
        while i < q.keys.len()
            invariant
                self.wf(),
                !network_denied(self.session, *q, *matches),
                i <= q.keys@.len(),
                forall|j: int|
                    0 <= j < i ==> !self.session.once_allow@.contains_key(#[trigger] q.keys@[j]@),
            decreases q.keys@.len() - i,
        {
            if self.session.once_allow.contains(&q.keys[i]) {
                assert(self.session.once_allow@.contains_key(q.keys@[i as int]@));
                return Some(Verdict::allowed(VerdictSource::Scope(ApprovalScope::Once)));
            }
            i += 1;
        }
        if self.session_allowed(q.keys, q.port, q.sessions, matches) {
            return Some(Verdict::allowed(VerdictSource::Scope(ApprovalScope::Session)));
        }
        policy_allow(q, matches)
    }

    /// Whether a network request is allowed; see [`PolicyStore::network_verdict`].
    pub fn is_allowed<M: Fn(&String, &String) -> bool>(
        &mut self,
        q: &NetworkQuery,
        matches: &M,
        consume_once: bool,
    ) -> (r: bool)
        requires
            old(self).wf(),
            text::decides_pairs(*matches),
        ensures
            final(self).wf(),
            final(self).configured_as(old(self)),
            *final(self) == (PolicyStore {
                session: SessionRules {
                    once_allow: final(self).session.once_allow,
                    ..old(self).session
                },
                ..*old(self)
            }),
            r == permits(network_decision(old(self).session, *q, *matches)),
            final(self).session.once_allow@ == (if consume_once && rests_on_once(
                network_decision(old(self).session, *q, *matches),
            ) {
                rules::once_spent(old(self).session.once_allow@, q.keys@)
            } else {
                old(self).session.once_allow@
            }),
    {
        match self.network_verdict(q, matches, consume_once) {
            Some(verdict) => verdict.allowed,
            None => false,
        }
    }

    /// Whether the policy denies the file access, by path or by inode.
    pub fn filesystem_policy_denied<F: Fn(&FilesystemRule, &Option<String>) -> bool>(
        &self,
        q: &FilesystemQuery,
        matches: &F,
    ) -> (r: bool)
        requires
            self.wf(),
            text::decides_pairs(*matches),
        ensures
            r == filesystem_policy_denies(*self, *q, *matches),
    {
        let root = &q.ctx.paths.project_root;
        let list = &q.policy.filesystem.deny;
        let mut i: usize = 0;
        while i < list.len()
            invariant
                text::decides_pairs(*matches),
                *list == q.policy.filesystem.deny,
                *root == q.ctx.paths.project_root,
                i <= list@.len(),
                forall|j: int|
                    0 <= j < i ==> !text::relates(*matches, #[trigger] list@[j], *root),
            decreases list@.len() - i,
        {
            if matches(&list[i], root) {
                assert(text::relates(*matches, list@[i as int], *root));
                return true;
            }
            i += 1;
        }
        self.deny_inodes.is_denied(q.identity, q.access)
    }

    /// The verdict on a file access. `matches` tells whether a rule matches the path and access
    /// from a project root; `same_file` tells whether a path leads to the requested file.
    pub fn filesystem_allow_source<
        F: Fn(&FilesystemRule, &Option<String>) -> bool,
        I: Fn(&String) -> bool,
    >(&self, q: &FilesystemQuery, matches: &F, same_file: &I) -> (r: Option<Verdict>)
        requires
            self.wf(),
            text::decides_pairs(*matches),
            text::decides(*same_file),
        ensures
            r == filesystem_decision(*self, *q, *matches, *same_file),
    {
        if rules::is_sandbox_infrastructure_path(q.path.as_str()) {
            return Some(Verdict::allowed(VerdictSource::Infrastructure));
        }
        if self.filesystem_policy_denied(q, matches) {
            return Some(Verdict::denied(VerdictSource::policy()));
        }
        if self.session_filesystem_denied(&q.ctx.paths.project_root, q.sessions, matches) {
            return Some(Verdict::denied(VerdictSource::policy()));
        }
        if self.session_filesystem_allowed(
            &q.ctx.paths.project_root,
            q.git_root,
            q.sessions,
            matches,
        ) {
            return Some(Verdict::allowed(VerdictSource::Scope(ApprovalScope::Session)));
        }
        if self.session_filesystem_allowed_by_inode(
            q.identity.is_some(),
            q.access,
            q.sessions,
            same_file,
        ) {
            return Some(Verdict::allowed(VerdictSource::Scope(ApprovalScope::Session)));
        }
        if self.static_filesystem_allowed(q.ctx, matches) {
            return Some(Verdict::allowed(VerdictSource::Static));
        }
        if rules::filesystem_rules_match_allow(
            &q.policy.filesystem.allow,
            &q.ctx.paths.project_root,
            q.git_root,
            matches,
        ) {
            return Some(Verdict::allowed(VerdictSource::policy()));
        }
        None
    }

    /// Whether the policy denies the use of the resource.
    pub fn resource_policy_denied<F: Fn(&ResourceRule) -> bool>(
        &self,
        q: &ResourceQuery,
        rule_matches: &F,
    ) -> (r: bool)
        requires
            self.wf(),
            text::decides(*rule_matches),
        ensures
            r == resource_policy_denies(*self, *q, *rule_matches),
    {
        rules::is_protected_host_ipc_socket(q.kind, q.path.as_str(), q.access)
            || rules::any_matches(&q.policy.resources.deny, rule_matches)
            || self.deny_inodes.is_denied(q.identity, FileAccess::All)
    }

    /// The verdict on the use of a resource. `rule_matches` tells whether a policy rule matches
    /// it from the project root, `session_matches` whether a decision does without one.
    pub fn resource_allow_source<
        F: Fn(&ResourceRule) -> bool,
        G: Fn(&ResourceRule) -> bool,
    >(&self, q: &ResourceQuery, rule_matches: &F, session_matches: &G) -> (r: Option<Verdict>)
        requires
            self.wf(),
            text::decides(*rule_matches),
            text::decides(*session_matches),
        ensures
            r == resource_decision(*self, *q, *rule_matches, *session_matches),
    {
        if self.resource_policy_denied(q, rule_matches) {
            return Some(Verdict::denied(VerdictSource::policy()));
        }
        if self.session_resource_denied(q.sessions, session_matches) {
            return Some(Verdict::denied(VerdictSource::policy()));
        }
        if self.session_resource_allowed(q.sessions, session_matches) {
            return Some(Verdict::allowed(VerdictSource::Scope(ApprovalScope::Session)));
        }
        if rules::any_matches(&q.policy.resources.allow, rule_matches) {
            return Some(Verdict::allowed(VerdictSource::policy()));
        }
        None
    }
}

/// Reply to a D-Bus check.
#[derive(Debug, PartialEq, Eq)]
pub struct DbusCheckReply {
    pub allowed: bool,
    pub source: VerdictSource,
    pub message: Option<String>,
}

impl DbusCheckReply {
    /// The reply that carries a verdict and no message.
    pub open spec fn of_verdict(verdict: Verdict) -> DbusCheckReply {
        DbusCheckReply { allowed: verdict.allowed, source: verdict.source, message: None }
    }

    /// The reply says that the check was blocked, with the message.
    pub open spec fn says_blocked(self, message: Seq<char>) -> bool {
        &&& !self.allowed
        &&& self.source == VerdictSource::Blocked
        &&& text::opt_text(self.message) == Some(message)
    }

    pub fn from_verdict(verdict: Verdict) -> (r: Self)
        ensures
            r == Self::of_verdict(verdict),
    {
        DbusCheckReply { allowed: verdict.allowed, source: verdict.source, message: None }
    }

    pub fn blocked(message: &str) -> (r: Self)
        ensures
            r.says_blocked(message@),
    {
        DbusCheckReply {
            allowed: false,
            source: VerdictSource::Blocked,
            message: Some(message.to_owned()),
        }
    }
}

/// What the caller of a D-Bus check is to do next.
#[derive(Debug, PartialEq, Eq)]
pub enum DbusStart {
    /// Answer at once.
    Reply(DbusCheckReply),
    /// Freeze the sandbox of the process, then wait for a decision.
    Freeze { pid: u32, uid: Option<u32> },
}

/// The verdict on a D-Bus capability, before anybody is asked: the policy's denial, the
/// sessions' denial and permission, the policy's permission.
pub open spec fn dbus_decision<F: Fn(&DbusRule) -> bool, T: Fn(&DbusTarget) -> bool>(
    session: SessionRules,
    policy: Policy,
    sessions: Seq<String>,
    rule_matches: F,
    target_matches: T,
) -> Option<Verdict> {
    let by_policy = dbus_policy_decision(policy, rule_matches);
    if forbids(by_policy) {
        by_policy
    } else if rules::some_session(
        session.dbus_deny@,
        sessions,
        |b: Vec<DbusTarget>| rules::any_holds(b@, target_matches),
    ) {
        Some(Verdict { allowed: false, source: VerdictSource::Policy(None) })
    } else if rules::some_session(
        session.dbus_allow@,
        sessions,
        |b: Vec<DbusTarget>| rules::any_holds(b@, target_matches),
    ) {
        Some(Verdict { allowed: true, source: VerdictSource::Scope(ApprovalScope::Session) })
    } else {
        by_policy
    }
}

/// The reply where the sandbox could not be frozen for a D-Bus approval.
pub fn dbus_freeze_refused(error: &CgroupFreezeError) -> (r: DbusCheckReply)
    ensures
        r.says_blocked(
            "agent-sandbox: cannot freeze sandbox for D-Bus approval: "@ + error@.described(),
        ),
{
    DbusCheckReply::blocked(
        text::join2(
            "agent-sandbox: cannot freeze sandbox for D-Bus approval: ",
            error.message().as_str(),
        ).as_str(),
    )
}

impl PolicyStore {
    /// Answer a D-Bus check from the rules and decisions in force, or say which sandbox to
    /// freeze while a decision is awaited.
    pub fn check_dbus<F: Fn(&DbusRule) -> bool, T: Fn(&DbusTarget) -> bool>(
        &self,
        ctx: &ResolvedRequestContext,
        policy: &Policy,
        sessions: &Vec<String>,
        rule_matches: &F,
        target_matches: &T,
    ) -> (r: DbusStart)
        requires
            self.wf(),
            text::decides(*rule_matches),
            text::decides(*target_matches),
        ensures
            match dbus_decision(
                self.session,
                *policy,
                sessions@,
                *rule_matches,
                *target_matches,
            ) {
                Some(verdict) => r == DbusStart::Reply(DbusCheckReply::of_verdict(verdict)),
                None => match ctx.ids.pid {
                    None => {
                        &&& r matches DbusStart::Reply(reply)
                        &&& reply.says_blocked(
                            "agent-sandbox: cannot identify sandbox process for D-Bus approval"@,
                        )
                    },
                    Some(pid) => r == (DbusStart::Freeze { pid, uid: ctx.ids.uid }),
                },
            },
    {
        let by_policy = dbus_verdict(policy, rule_matches);
        if let Some(verdict) = &by_policy {
            if !verdict.allowed {
                return DbusStart::Reply(DbusCheckReply::from_verdict(verdict.clone()));
            }
        }
        if self.session_dbus_denied(sessions, target_matches) {
            return DbusStart::Reply(
                DbusCheckReply::from_verdict(Verdict::denied(VerdictSource::policy())),
            );
        }
        if self.session_dbus_allowed(sessions, target_matches) {
            return DbusStart::Reply(
                DbusCheckReply::from_verdict(
                    Verdict::allowed(VerdictSource::Scope(ApprovalScope::Session)),
                ),
            );
        }
        if let Some(verdict) = by_policy {
            return DbusStart::Reply(DbusCheckReply::from_verdict(verdict));
        }
        match ctx.ids.pid {
            None => DbusStart::Reply(
                DbusCheckReply::blocked(
                    "agent-sandbox: cannot identify sandbox process for D-Bus approval",
                ),
            ),
            Some(pid) => DbusStart::Freeze { pid, uid: ctx.ids.uid },
        }
    }
}

/// A network request that the policy or a session denies is denied, whatever else allows it.
pub proof fn law_network_denial_wins<M: Fn(&String, &String) -> bool>(
    session: SessionRules,
    q: NetworkQuery,
    matches: M,
)
    requires
        network_denied(session, q, matches),
    ensures
        forbids(network_decision(session, q, matches)),
{
}

/// A file access that the policy or a session denies is denied, whatever else allows it, unless
/// the path belongs to the sandbox runtime itself.
pub proof fn law_filesystem_denial_wins<
    F: Fn(&FilesystemRule, &Option<String>) -> bool,
    I: Fn(&String) -> bool,
>(store: PolicyStore, q: FilesystemQuery, matches: F, same_file: I)
    requires
        !rules::infrastructure(q.path@),
        filesystem_policy_denies(store, q, matches) || filesystem_session_denies(
            store.session,
            q,
            matches,
        ),
    ensures
        forbids(filesystem_decision(store, q, matches, same_file)),
{
}

/// A file that a deny rule covers by inode is denied under every name.
pub proof fn law_hardlinks_are_denied<
    F: Fn(&FilesystemRule, &Option<String>) -> bool,
    I: Fn(&String) -> bool,
>(store: PolicyStore, q: FilesystemQuery, matches: F, same_file: I)
    requires
        !rules::infrastructure(q.path@),
        deny_inodes::inode_denied(store.deny_inodes.inodes@, q.identity, q.access),
    ensures
        forbids(filesystem_decision(store, q, matches, same_file)),
{
}

/// A socket of the host's buses or service managers is denied, whatever allows it.
pub proof fn law_host_ipc_is_denied<
    F: Fn(&ResourceRule) -> bool,
    G: Fn(&ResourceRule) -> bool,
>(store: PolicyStore, q: ResourceQuery, rule_matches: F, session_matches: G)
    requires
        rules::protected_ipc(q.kind, q.path@, q.access),
    ensures
        forbids(resource_decision(store, q, rule_matches, session_matches)),
{
}

/// The use of a resource that the policy denies is denied, whatever else allows it.
pub proof fn law_resource_denial_wins<
    F: Fn(&ResourceRule) -> bool,
    G: Fn(&ResourceRule) -> bool,
>(store: PolicyStore, q: ResourceQuery, rule_matches: F, session_matches: G)
    requires
        resource_policy_denies(store, q, rule_matches),
    ensures
        forbids(resource_decision(store, q, rule_matches, session_matches)),
{
}

/// A D-Bus capability that the policy denies is denied, whatever rule allows it.
pub proof fn law_dbus_denial_wins<F: Fn(&DbusRule) -> bool>(policy: Policy, matches: F)
    requires
        rules::any_holds(policy.dbus.deny@, matches),
    ensures
        forbids(dbus_policy_decision(policy, matches)),
{
}

/// What one session decides counts for no other: a verdict is the same whatever is decided in
/// sessions that the request does not belong to.
pub proof fn law_sessions_are_apart<M: Fn(&String, &String) -> bool>(
    here: SessionRules,
    there: SessionRules,
    q: NetworkQuery,
    matches: M,
)
    requires
        here.once_allow@ == there.once_allow@,
        forall|i: int|
            0 <= i < q.sessions@.len() ==> rules::same_entry(
                here.session_allow@,
                there.session_allow@,
                (#[trigger] q.sessions@[i])@,
            ) && rules::same_entry(here.session_deny@, there.session_deny@, q.sessions@[i]@),
    ensures
        network_decision(here, q, matches) == network_decision(there, q, matches),
{
    let covered = |b: Vec<NetworkRuleKey>| rules::network_covered(b@, q.keys@, q.port, matches);
    rules::lemma_same_sessions(here.session_allow@, there.session_allow@, q.sessions@, covered);
    rules::lemma_same_sessions(here.session_deny@, there.session_deny@, q.sessions@, covered);
}

/// A single-use approval allows once: when it is used up, nothing that the same request is
/// answered rests on it.
pub proof fn law_once_gives_one_verdict<M: Fn(&String, &String) -> bool>(
    before: SessionRules,
    after: SessionRules,
    q: NetworkQuery,
    matches: M,
)
    requires
        rests_on_once(network_decision(before, q, matches)),
        after.once_allow@ == rules::once_spent(before.once_allow@, q.keys@),
    ensures
        !rests_on_once(network_decision(after, q, matches)),
{
    rules::law_once_is_used_up(before.once_allow@, q.keys@);
}

} // verus!
