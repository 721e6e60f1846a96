//! What checks of files, resources, D-Bus messages and commands come to, whatever else is in
//! force.

use vstd::prelude::*;

use crate::elevation::ElevateReply;
use crate::elevation::ElevationStart;
use crate::evaluator::DbusCheckReply;
use crate::evaluator;
use crate::evaluator::DbusStart;
use crate::evaluator::FilesystemQuery;
use crate::evaluator::ResourceQuery;
use crate::filesystem::FilesystemCheckReply;
use crate::http::HttpCheckReply;
use crate::paths;
use crate::rules;
use crate::state::FilesystemRuleKey;
use crate::state::ResourceRuleKey;
use crate::store::PolicyStore;
use crate::text;
use crate::types::ApprovalScope;
use crate::types::CheckReply;
use crate::types::DbusRule;
use crate::types::DbusTarget;
use crate::types::FileAccess;
use crate::types::FilesystemRule;
use crate::types::HttpRequest;
use crate::types::Policy;
use crate::types::ResolvedRequestContext;
use crate::types::ResourceAccess;
use crate::types::ResourceKind;
use crate::types::ResourceRule;
use crate::types::SudoRule;
use crate::types::Verdict;
use crate::types::VerdictSource;

verus! {

/// The decision in the given place of the session in the given place is there.
pub open spec fn decided_in<B>(
    decisions: Map<Seq<char>, Vec<B>>,
    sessions: Seq<String>,
    session: int,
    decision: int,
) -> bool {
    &&& 0 <= session < sessions.len()
    &&& decisions.contains_key(sessions[session]@)
    &&& 0 <= decision < decisions[sessions[session]@]@.len()
}

/// The decision in the given place of the session in the given place.
pub open spec fn decision_in<B>(
    decisions: Map<Seq<char>, Vec<B>>,
    sessions: Seq<String>,
    session: int,
    decision: int,
) -> B {
    decisions[sessions[session]@]@[decision]
}

/// Some session has a decision that satisfies the predicate.
proof fn lemma_decided_in<B>(
    decisions: Map<Seq<char>, Vec<B>>,
    sessions: Seq<String>,
    covered: spec_fn(Vec<B>) -> bool,
    p: spec_fn(B) -> bool,
)
    requires
        forall|b: Vec<B>| #[trigger]
            covered(b) == exists|d: int| 0 <= d < b@.len() && p(#[trigger] b@[d]),
    ensures
        rules::some_session(decisions, sessions, covered) == exists|s: int, d: int|
            #[trigger] decided_in(decisions, sessions, s, d) && p(
                decision_in(decisions, sessions, s, d),
            ),
{
    if rules::some_session(decisions, sessions, covered) {
        let s = choose|s: int|
            0 <= s < sessions.len() && decisions.contains_key(#[trigger] sessions[s]@) && covered(
                decisions[sessions[s]@],
            );
        let b = decisions[sessions[s]@];
        let d = choose|d: int| 0 <= d < b@.len() && p(#[trigger] b@[d]);
        assert(decided_in(decisions, sessions, s, d));
        assert(p(decision_in(decisions, sessions, s, d)));
    }
    if exists|s: int, d: int|
        #[trigger] decided_in(decisions, sessions, s, d) && p(
            decision_in(decisions, sessions, s, d),
        ) {
        let (s, d) = choose|s: int, d: int|
            #[trigger] decided_in(decisions, sessions, s, d) && p(
                decision_in(decisions, sessions, s, d),
            );
        let b = decisions[sessions[s]@];
        assert(p(b@[d]));
        assert(covered(b));
        assert(decisions.contains_key(sessions[s]@));
    }
}

// Files.

/// The rule that covers what the decision covers.
pub open spec fn as_file_rule(key: FilesystemRuleKey) -> FilesystemRule {
    FilesystemRule { path: key.path, access: key.access, comment: None }
}

/// The path names the runtime directory of the sandbox or something below it.
pub open spec fn of_the_runtime(path: Seq<char>) -> bool {
    paths::components("/run/agent-sandbox"@).is_prefix_of(paths::components(path))
}

/// Permissions are tried from the root: it is that of the request, or that of the repository
/// where this is another one; there is no root where both are missing or empty.
pub open spec fn tried_from(q: FilesystemQuery, root: Option<String>) -> bool {
    let own = q.ctx.paths.project_root;
    let git = *q.git_root;
    match root {
        Some(path) => path@.len() > 0 && (own == root || (git == root && !(own is Some
            && own->0@.len() > 0 && paths::components(own->0@) == paths::components(path@)))),
        None => (own is None || own->0@.len() == 0) && (git is None || git->0@.len() == 0),
    }
}

proof fn lemma_tried_from(q: FilesystemQuery, p: spec_fn(Option<String>) -> bool)
    ensures
        rules::from_any_root(
            rules::roots_for_allow(q.ctx.paths.project_root, *q.git_root),
            p,
        ) == exists|root: Option<String>| #[trigger] tried_from(q, root) && p(root),
{
    let own = q.ctx.paths.project_root;
    let git = *q.git_root;
    let roots = rules::roots_for_allow(own, git);
    if rules::from_any_root(roots, p) {
        if roots.len() == 0 {
            assert(tried_from(q, None));
        } else {
            let i = choose|i: int| 0 <= i < roots.len() && p(Some(#[trigger] roots[i]));
            assert(tried_from(q, Some(roots[i])));
        }
    }
    if exists|root: Option<String>| #[trigger] tried_from(q, root) && p(root) {
        let root = choose|root: Option<String>| #[trigger] tried_from(q, root) && p(root);
        match root {
            Some(path) => {
                if own == root {
                    assert(roots[0] == path);
                } else {
                    assert(roots.last() == path);
                    assert(roots[roots.len() - 1] == path);
                }
            },
            None => {
                assert(roots.len() == 0);
            },
        }
    }
}

proof fn lemma_file_decisions<F: Fn(&FilesystemRule, &Option<String>) -> bool>(
    decisions: Map<Seq<char>, Vec<FilesystemRuleKey>>,
    sessions: Seq<String>,
    root: Option<String>,
    matches: F,
)
    ensures
        rules::some_session(
            decisions,
            sessions,
            |b: Vec<FilesystemRuleKey>| rules::filesystem_covered(b@, root, matches),
        ) == exists|s: int, d: int|
            #[trigger] decided_in(decisions, sessions, s, d) && text::relates(
                matches,
                as_file_rule(decision_in(decisions, sessions, s, d)),
                root,
            ),
{
    let covered = |b: Vec<FilesystemRuleKey>| rules::filesystem_covered(b@, root, matches);
    let p = |k: FilesystemRuleKey| text::relates(matches, as_file_rule(k), root);
    assert forall|b: Vec<FilesystemRuleKey>| #[trigger] covered(b) == exists|d: int|
        0 <= d < b@.len() && p(#[trigger] b@[d]) by {
        if rules::filesystem_covered(b@, root, matches) {
            let d = choose|d: int|
                0 <= d < b@.len() && text::relates(
                    matches,
                    rules::rule_of_key(#[trigger] b@[d]),
                    root,
                );
            assert(p(b@[d]));
        }
        if exists|d: int| 0 <= d < b@.len() && p(#[trigger] b@[d]) {
            let d = choose|d: int| 0 <= d < b@.len() && p(#[trigger] b@[d]);
            assert(text::relates(matches, rules::rule_of_key(b@[d]), root));
        }
    }
    lemma_decided_in(decisions, sessions, covered, p);
}

proof fn lemma_file_permissions<F: Fn(&FilesystemRule, &Option<String>) -> bool>(
    decisions: Map<Seq<char>, Vec<FilesystemRuleKey>>,
    q: FilesystemQuery,
    matches: F,
)
    ensures
        rules::some_session(
            decisions,
            q.sessions@,
            |b: Vec<FilesystemRuleKey>|
                rules::from_any_root(
                    rules::roots_for_allow(q.ctx.paths.project_root, *q.git_root),
                    |root: Option<String>| rules::filesystem_covered(b@, root, matches),
                ),
        ) == exists|s: int, d: int, root: Option<String>|
            #[trigger] decided_in(decisions, q.sessions@, s, d) && #[trigger] tried_from(q, root)
                && text::relates(
                matches,
                as_file_rule(decision_in(decisions, q.sessions@, s, d)),
                root,
            ),
{
    let covered = |b: Vec<FilesystemRuleKey>|
        rules::from_any_root(
            rules::roots_for_allow(q.ctx.paths.project_root, *q.git_root),
            |root: Option<String>| rules::filesystem_covered(b@, root, matches),
        );
    let p = |k: FilesystemRuleKey|
        exists|root: Option<String>|
            #[trigger] tried_from(q, root) && text::relates(matches, as_file_rule(k), root);
    assert forall|b: Vec<FilesystemRuleKey>| #[trigger] covered(b) == exists|d: int|
        0 <= d < b@.len() && p(#[trigger] b@[d]) by {
        let at = |root: Option<String>| rules::filesystem_covered(b@, root, matches);
        lemma_tried_from(q, at);
        if covered(b) {
            let root = choose|root: Option<String>| #[trigger] tried_from(q, root) && at(root);
            let d = choose|d: int|
                0 <= d < b@.len() && text::relates(
                    matches,
                    rules::rule_of_key(#[trigger] b@[d]),
                    root,
                );
            assert(tried_from(q, root) && text::relates(matches, as_file_rule(b@[d]), root));
            assert(p(b@[d]));
        }
        if exists|d: int| 0 <= d < b@.len() && p(#[trigger] b@[d]) {
            let d = choose|d: int| 0 <= d < b@.len() && p(#[trigger] b@[d]);
            let root = choose|root: Option<String>|
                #[trigger] tried_from(q, root) && text::relates(
                    matches,
                    as_file_rule(b@[d]),
                    root,
                );
            assert(text::relates(matches, rules::rule_of_key(b@[d]), root));
            assert(at(root));
        }
    }
    lemma_decided_in(decisions, q.sessions@, covered, p);
}

proof fn lemma_same_file<I: Fn(&String) -> bool>(
    decisions: Map<Seq<char>, Vec<FilesystemRuleKey>>,
    sessions: Seq<String>,
    access: FileAccess,
    same_file: I,
)
    ensures
        rules::some_session(
            decisions,
            sessions,
            |b: Vec<FilesystemRuleKey>| rules::inode_covered(b@, access, same_file),
        ) == exists|s: int, d: int|
            #[trigger] decided_in(decisions, sessions, s, d) && decision_in(
                decisions,
                sessions,
                s,
                d,
            ).access.includes(access) && text::holds(
                same_file,
                decision_in(decisions, sessions, s, d).path,
            ),
{
    let covered = |b: Vec<FilesystemRuleKey>| rules::inode_covered(b@, access, same_file);
    let p = |k: FilesystemRuleKey| k.access.includes(access) && text::holds(same_file, k.path);
    assert forall|b: Vec<FilesystemRuleKey>| #[trigger] covered(b) == exists|d: int|
        0 <= d < b@.len() && p(#[trigger] b@[d]) by {
        if rules::inode_covered(b@, access, same_file) {
            let d = choose|d: int|
                0 <= d < b@.len() && (#[trigger] b@[d]).access.includes(access) && text::holds(
                    same_file,
                    b@[d].path,
                );
            assert(p(b@[d]));
        }
    }
    lemma_decided_in(decisions, sessions, covered, p);
}

/// A file that a deny rule of the policy covers, seen from the request's project root, is denied,
/// whatever rule or decision allows it.
pub proof fn law_policy_denial_of_a_file_wins<
    F: Fn(&FilesystemRule, &Option<String>) -> bool,
    I: Fn(&String) -> bool,
>(
    store: &PolicyStore,
    q: &FilesystemQuery,
    matches: &F,
    same_file: &I,
    r: Option<Verdict>,
    i: int,
)
    requires
        call_ensures(
            PolicyStore::filesystem_allow_source::<F, I>,
            (store, q, matches, same_file),
            r,
        ),
        !of_the_runtime(q.path@),
        0 <= i < q.policy.filesystem.deny@.len(),
        text::relates(*matches, q.policy.filesystem.deny@[i], q.ctx.paths.project_root),
    ensures
        r matches Some(verdict) && !verdict.allowed,
{
    assert(rules::filesystem_rules_cover(
        q.policy.filesystem.deny@,
        q.ctx.paths.project_root,
        *matches,
    ));
}

/// A file that the index of denied files holds with enough access is denied under every name.
pub proof fn law_denied_file_is_denied_under_every_name<
    F: Fn(&FilesystemRule, &Option<String>) -> bool,
    I: Fn(&String) -> bool,
>(
    store: &PolicyStore,
    q: &FilesystemQuery,
    matches: &F,
    same_file: &I,
    r: Option<Verdict>,
    i: int,
)
    requires
        call_ensures(
            PolicyStore::filesystem_allow_source::<F, I>,
            (store, q, matches, same_file),
            r,
        ),
        !of_the_runtime(q.path@),
        q.identity is Some,
        store.deny_inodes.inodes@.contains_key(q.identity->0),
        0 <= i < store.deny_inodes.inodes@[q.identity->0]@.len(),
        store.deny_inodes.inodes@[q.identity->0]@[i].access.includes(q.access),
    ensures
        r matches Some(verdict) && !verdict.allowed,
{
    let id = q.identity->0;
    assert(crate::deny_inodes::entries_at(store.deny_inodes.inodes@, id)[i].access.includes(
        q.access,
    ));
}

/// A file that the user denied for one of the request's sessions is denied, whatever rule or
/// decision allows it.
pub proof fn law_session_denial_of_a_file_wins<
    F: Fn(&FilesystemRule, &Option<String>) -> bool,
    I: Fn(&String) -> bool,
>(
    store: &PolicyStore,
    q: &FilesystemQuery,
    matches: &F,
    same_file: &I,
    r: Option<Verdict>,
    session: int,
    decision: int,
)
    requires
        call_ensures(
            PolicyStore::filesystem_allow_source::<F, I>,
            (store, q, matches, same_file),
            r,
        ),
        !of_the_runtime(q.path@),
        decided_in(store.session.filesystem_deny@, q.sessions@, session, decision),
        text::relates(
            *matches,
            as_file_rule(
                decision_in(store.session.filesystem_deny@, q.sessions@, session, decision),
            ),
            q.ctx.paths.project_root,
        ),
    ensures
        r matches Some(verdict) && !verdict.allowed,
{
    lemma_file_decisions(
        store.session.filesystem_deny@,
        q.sessions@,
        q.ctx.paths.project_root,
        *matches,
    );
    assert(evaluator::filesystem_session_denies(store.session, *q, *matches));
}

/// What belongs to the sandbox runtime is allowed, and is told as such.
pub proof fn law_the_runtime_may_use_its_own<
    F: Fn(&FilesystemRule, &Option<String>) -> bool,
    I: Fn(&String) -> bool,
>(
    store: &PolicyStore,
    q: &FilesystemQuery,
    matches: &F,
    same_file: &I,
    r: Option<Verdict>,
)
    requires
        call_ensures(
            PolicyStore::filesystem_allow_source::<F, I>,
            (store, q, matches, same_file),
            r,
        ),
    ensures
        of_the_runtime(q.path@) ==> r == Some(
            Verdict { allowed: true, source: VerdictSource::Infrastructure },
        ),
        r is Some && r->0.source is Infrastructure ==> of_the_runtime(q.path@),
{
}

/// A file is denied only where a deny rule covers it, the index of denied files holds it, or a
/// denial of one of the request's sessions covers it.
pub proof fn law_no_file_is_denied_for_nothing<
    F: Fn(&FilesystemRule, &Option<String>) -> bool,
    I: Fn(&String) -> bool,
>(
    store: &PolicyStore,
    q: &FilesystemQuery,
    matches: &F,
    same_file: &I,
    verdict: Verdict,
)
    requires
        call_ensures(
            PolicyStore::filesystem_allow_source::<F, I>,
            (store, q, matches, same_file),
            Some(verdict),
        ),
        !verdict.allowed,
    ensures
        verdict.source == VerdictSource::Policy(None),
        ({
            ||| exists|i: int|
                0 <= i < q.policy.filesystem.deny@.len() && text::relates(
                    *matches,
                    #[trigger] q.policy.filesystem.deny@[i],
                    q.ctx.paths.project_root,
                )
            ||| q.identity is Some && store.deny_inodes.inodes@.contains_key(q.identity->0)
                && exists|i: int|
                0 <= i < store.deny_inodes.inodes@[q.identity->0]@.len() && (
                #[trigger] store.deny_inodes.inodes@[q.identity->0]@[i]).access.includes(q.access)
            ||| exists|s: int, d: int|
                #[trigger] decided_in(store.session.filesystem_deny@, q.sessions@, s, d)
                    && text::relates(
                    *matches,
                    as_file_rule(decision_in(store.session.filesystem_deny@, q.sessions@, s, d)),
                    q.ctx.paths.project_root,
                )
        }),
{
    lemma_file_decisions(
        store.session.filesystem_deny@,
        q.sessions@,
        q.ctx.paths.project_root,
        *matches,
    );
    let inodes = store.deny_inodes.inodes@;
    if crate::deny_inodes::inode_denied(inodes, q.identity, q.access) {
        let id = q.identity->0;
        let i = choose|i: int|
            0 <= i < crate::deny_inodes::entries_at(inodes, id).len() && (
            #[trigger] crate::deny_inodes::entries_at(inodes, id)[i]).access.includes(q.access);
        assert(inodes[id]@[i].access.includes(q.access));
    }
}

/// A file is allowed only by what covers it: a decision of one of the request's sessions from a
/// root that permissions are tried from, or one with enough access on the same file under another
/// name; a rule that the sandbox was started with; an allow rule of the policy.
pub proof fn law_no_file_is_allowed_for_nothing<
    F: Fn(&FilesystemRule, &Option<String>) -> bool,
    I: Fn(&String) -> bool,
>(
    store: &PolicyStore,
    q: &FilesystemQuery,
    matches: &F,
    same_file: &I,
    verdict: Verdict,
)
    requires
        call_ensures(
            PolicyStore::filesystem_allow_source::<F, I>,
            (store, q, matches, same_file),
            Some(verdict),
        ),
        verdict.allowed,
    ensures
        match verdict.source {
            VerdictSource::Infrastructure => of_the_runtime(q.path@),
            VerdictSource::Scope(ApprovalScope::Session) => {
                ||| exists|s: int, d: int, root: Option<String>|
                    #[trigger] decided_in(store.session.filesystem_allow@, q.sessions@, s, d)
                        && #[trigger] tried_from(*q, root) && text::relates(
                        *matches,
                        as_file_rule(
                            decision_in(store.session.filesystem_allow@, q.sessions@, s, d),
                        ),
                        root,
                    )
                ||| q.identity is Some && exists|s: int, d: int|
                    #[trigger] decided_in(store.session.filesystem_allow@, q.sessions@, s, d)
                        && decision_in(
                        store.session.filesystem_allow@,
                        q.sessions@,
                        s,
                        d,
                    ).access.includes(q.access) && text::holds(
                        *same_file,
                        decision_in(store.session.filesystem_allow@, q.sessions@, s, d).path,
                    )
            },
            VerdictSource::Static => exists|key: Seq<char>, i: int|
                #![trigger store.session.static_allow@[key]@[i]]
                {
                    &&& key == rules::static_allow_key(*q.ctx)
                    &&& store.session.static_allow@.contains_key(key)
                    &&& 0 <= i < store.session.static_allow@[key]@.len()
                    &&& text::relates(
                        *matches,
                        store.session.static_allow@[key]@[i],
                        q.ctx.paths.project_root,
                    )
                },
            VerdictSource::Policy(None) => exists|i: int, root: Option<String>|
                0 <= i < q.policy.filesystem.allow@.len() && #[trigger] tried_from(*q, root)
                    && text::relates(*matches, #[trigger] q.policy.filesystem.allow@[i], root),
            _ => false,
        },
{
    lemma_file_permissions(store.session.filesystem_allow@, *q, *matches);
    lemma_same_file(store.session.filesystem_allow@, q.sessions@, q.access, *same_file);
    let by_rule = |root: Option<String>|
        rules::filesystem_rules_cover(q.policy.filesystem.allow@, root, *matches);
    lemma_tried_from(*q, by_rule);
    if verdict.source is Static {
        let key = rules::static_allow_key(*q.ctx);
        let list = store.session.static_allow@[key]@;
        let i = choose|i: int|
            0 <= i < list.len() && text::relates(
                *matches,
                #[trigger] list[i],
                q.ctx.paths.project_root,
            );
        assert(text::relates(
            *matches,
            store.session.static_allow@[key]@[i],
            q.ctx.paths.project_root,
        ));
    }
    if verdict.source is Policy {
        let root = choose|root: Option<String>| #[trigger] tried_from(*q, root) && by_rule(root);
        let list = q.policy.filesystem.allow@;
        let i = choose|i: int|
            0 <= i < list.len() && text::relates(*matches, #[trigger] list[i], root);
        assert(tried_from(*q, root) && text::relates(
            *matches,
            q.policy.filesystem.allow@[i],
            root,
        ));
    }
}

/// Where nothing denies a file, whatever covers it allows it: only where no decision of the
/// request's sessions, no rule that the sandbox was started with and no allow rule covers it is
/// there no verdict. A decision is told before a rule.
pub proof fn law_what_covers_a_file_allows_it<
    F: Fn(&FilesystemRule, &Option<String>) -> bool,
    I: Fn(&String) -> bool,
>(
    store: &PolicyStore,
    q: &FilesystemQuery,
    matches: &F,
    same_file: &I,
    r: Option<Verdict>,
)
    requires
        call_ensures(
            PolicyStore::filesystem_allow_source::<F, I>,
            (store, q, matches, same_file),
            r,
        ),
        r matches Some(verdict) ==> verdict.allowed,
        !of_the_runtime(q.path@),
    ensures
        forall|s: int, d: int, root: Option<String>|
            #[trigger] decided_in(store.session.filesystem_allow@, q.sessions@, s, d)
                && #[trigger] tried_from(*q, root) && text::relates(
                *matches,
                as_file_rule(decision_in(store.session.filesystem_allow@, q.sessions@, s, d)),
                root,
            ) ==> r == Some(
                Verdict { allowed: true, source: VerdictSource::Scope(ApprovalScope::Session) },
            ),
        forall|s: int, d: int|
            q.identity is Some && #[trigger] decided_in(
                store.session.filesystem_allow@,
                q.sessions@,
                s,
                d,
            ) && decision_in(store.session.filesystem_allow@, q.sessions@, s, d).access.includes(
                q.access,
            ) && text::holds(
                *same_file,
                decision_in(store.session.filesystem_allow@, q.sessions@, s, d).path,
            ) ==> r == Some(
                Verdict { allowed: true, source: VerdictSource::Scope(ApprovalScope::Session) },
            ),
        forall|i: int, root: Option<String>|
            0 <= i < q.policy.filesystem.allow@.len() && #[trigger] tried_from(*q, root)
                && text::relates(*matches, #[trigger] q.policy.filesystem.allow@[i], root)
                ==> r is Some,
        forall|key: Seq<char>, i: int|
            #![trigger store.session.static_allow@[key]@[i]]
            key == rules::static_allow_key(*q.ctx) && store.session.static_allow@.contains_key(key)
                && 0 <= i < store.session.static_allow@[key]@.len() && text::relates(
                *matches,
                store.session.static_allow@[key]@[i],
                q.ctx.paths.project_root,
            ) ==> r is Some && !(r->0.source is Policy),
{
    lemma_file_permissions(store.session.filesystem_allow@, *q, *matches);
    lemma_same_file(store.session.filesystem_allow@, q.sessions@, q.access, *same_file);
    let by_rule = |root: Option<String>|
        rules::filesystem_rules_cover(q.policy.filesystem.allow@, root, *matches);
    lemma_tried_from(*q, by_rule);
    assert forall|i: int, root: Option<String>|
        0 <= i < q.policy.filesystem.allow@.len() && #[trigger] tried_from(*q, root)
            && text::relates(
            *matches,
            #[trigger] q.policy.filesystem.allow@[i],
            root,
        ) implies r is Some by {
        assert(by_rule(root));
    }
    assert forall|key: Seq<char>, i: int|
        #![trigger store.session.static_allow@[key]@[i]]
        key == rules::static_allow_key(*q.ctx) && store.session.static_allow@.contains_key(key)
            && 0 <= i < store.session.static_allow@[key]@.len() && text::relates(
            *matches,
            store.session.static_allow@[key]@[i],
            q.ctx.paths.project_root,
        ) implies r is Some && !(r->0.source is Policy) by {
        assert(rules::filesystem_rules_cover(
            store.session.static_allow@[key]@,
            q.ctx.paths.project_root,
            *matches,
        ));
    }
}

/// The rules that one sandbox was started with count for no other: those of a sandbox session are
/// filed apart from those of every other session and of every request without one.
pub proof fn law_started_rules_stay_with_their_sandbox(
    a: ResolvedRequestContext,
    b: ResolvedRequestContext,
)
    requires
        rules::static_allow_key(a) == rules::static_allow_key(b),
    ensures
        text::opt_text(a.sandbox_session_id) == text::opt_text(b.sandbox_session_id),
{
    reveal_strlit("sandbox:");
    reveal_strlit("ctx:");
    let (ka, kb) = (rules::static_allow_key(a), rules::static_allow_key(b));
    match (a.sandbox_session_id, b.sandbox_session_id) {
        (Some(x), Some(y)) => {
            assert(x@ =~= ka.skip(8));
            assert(y@ =~= kb.skip(8));
        },
        (Some(_), None) => {
            assert(ka[0] == 's');
            assert(kb[0] == 'c');
        },
        (None, Some(_)) => {
            assert(ka[0] == 'c');
            assert(kb[0] == 's');
        },
        (None, None) => {},
    }
}

// Resources.

/// The rule that covers what the decision covers.
pub open spec fn as_resource_rule(key: ResourceRuleKey) -> ResourceRule {
    ResourceRule { kind: key.kind, path: key.path, access: key.access, comment: None }
}

proof fn lemma_resource_decisions<G: Fn(&ResourceRule) -> bool>(
    decisions: Map<Seq<char>, Vec<ResourceRuleKey>>,
    sessions: Seq<String>,
    matches: G,
)
    ensures
        rules::some_session(
            decisions,
            sessions,
            |b: Vec<ResourceRuleKey>| rules::resource_covered(b@, matches),
        ) == exists|s: int, d: int|
            #[trigger] decided_in(decisions, sessions, s, d) && text::holds(
                matches,
                as_resource_rule(decision_in(decisions, sessions, s, d)),
            ),
{
    let covered = |b: Vec<ResourceRuleKey>| rules::resource_covered(b@, matches);
    let p = |k: ResourceRuleKey| text::holds(matches, as_resource_rule(k));
    assert forall|b: Vec<ResourceRuleKey>| #[trigger] covered(b) == exists|d: int|
        0 <= d < b@.len() && p(#[trigger] b@[d]) by {
        if rules::resource_covered(b@, matches) {
            let d = choose|d: int|
                0 <= d < b@.len() && text::holds(
                    matches,
                    rules::rule_of_resource(#[trigger] b@[d]),
                );
            assert(p(b@[d]));
        }
        if exists|d: int| 0 <= d < b@.len() && p(#[trigger] b@[d]) {
            let d = choose|d: int| 0 <= d < b@.len() && p(#[trigger] b@[d]);
            assert(text::holds(matches, rules::rule_of_resource(b@[d])));
        }
    }
    lemma_decided_in(decisions, sessions, covered, p);
}

/// The resource is a Unix socket that is one of the host's buses or service managers: by an
/// abstract name, below their directories, or in a user's runtime directory.
pub open spec fn of_the_host(
    kind: ResourceKind,
    path: Seq<char>,
    access: ResourceAccess,
) -> bool {
    let c = paths::components(path);
    &&& kind == ResourceKind::UnixSocket
    &&& access is Socket
    &&& {
        ||| "@abstract:/tmp/dbus-"@.is_prefix_of(path)
        ||| "@abstract:/org/freedesktop/DBus"@.is_prefix_of(path)
        ||| "@abstract:/org/freedesktop/systemd1"@.is_prefix_of(path)
        ||| "@abstract:org.freedesktop.DBus"@.is_prefix_of(path)
        ||| "@abstract:org.freedesktop.systemd1"@.is_prefix_of(path)
        ||| paths::components("/run/dbus"@).is_prefix_of(c)
        ||| paths::components("/run/systemd"@).is_prefix_of(c)
        ||| c.len() >= 5 && c[0] == seq!['/'] && c[1] == "run"@ && c[2] == "user"@ && (
        forall|i: int| 0 <= i < c[3].len() ==> '0' <= #[trigger] c[3][i] <= '9') && (c[4]
            == "bus"@ || c[4] == "systemd"@)
    }
}

/// Something denies the use of the resource: it is one of the host's own sockets, a deny rule
/// matches it, the index of denied files holds it for every access, or a denial of one of the
/// request's sessions covers it.
pub open spec fn resource_is_denied<F: Fn(&ResourceRule) -> bool, G: Fn(&ResourceRule) -> bool>(
    store: PolicyStore,
    q: ResourceQuery,
    rule_matches: F,
    session_matches: G,
) -> bool {
    ||| of_the_host(q.kind, q.path@, q.access)
    ||| exists|i: int|
        0 <= i < q.policy.resources.deny@.len() && text::holds(
            rule_matches,
            #[trigger] q.policy.resources.deny@[i],
        )
    ||| q.identity is Some && store.deny_inodes.inodes@.contains_key(q.identity->0) && exists|
        i: int,
    |
        0 <= i < store.deny_inodes.inodes@[q.identity->0]@.len() && (
        #[trigger] store.deny_inodes.inodes@[q.identity->0]@[i]).access == FileAccess::All
    ||| exists|s: int, d: int|
        #[trigger] decided_in(store.session.resource_deny@, q.sessions@, s, d) && text::holds(
            session_matches,
            as_resource_rule(decision_in(store.session.resource_deny@, q.sessions@, s, d)),
        )
}

/// The use of a resource is denied exactly where something denies it, whatever allows it: a host
/// socket, a deny rule, a denied file or a denial of one of its sessions.
pub proof fn law_a_resource_is_denied_where_something_denies_it<
    F: Fn(&ResourceRule) -> bool,
    G: Fn(&ResourceRule) -> bool,
>(
    store: &PolicyStore,
    q: &ResourceQuery,
    rule_matches: &F,
    session_matches: &G,
    r: Option<Verdict>,
)
    requires
        call_ensures(
            PolicyStore::resource_allow_source::<F, G>,
            (store, q, rule_matches, session_matches),
            r,
        ),
    ensures
        resource_is_denied(*store, *q, *rule_matches, *session_matches) <==> (r is Some
            && !r->0.allowed),
        r is Some && !r->0.allowed ==> r->0.source == VerdictSource::Policy(None),
{
    lemma_resource_decisions(store.session.resource_deny@, q.sessions@, *session_matches);
    let inodes = store.deny_inodes.inodes@;
    if q.identity is Some {
        let id = q.identity->0;
        assert forall|i: int|
            inodes.contains_key(id) && 0 <= i < inodes[id]@.len() implies (
        #[trigger] inodes[id]@[i]).access.includes(FileAccess::All) == (inodes[id]@[i].access
            == FileAccess::All) by {}
        if crate::deny_inodes::inode_denied(inodes, q.identity, FileAccess::All) {
            let i = choose|i: int|
                0 <= i < crate::deny_inodes::entries_at(inodes, id).len() && (
                #[trigger] crate::deny_inodes::entries_at(inodes, id)[i]).access.includes(
                    FileAccess::All,
                );
            assert(inodes[id]@[i].access == FileAccess::All);
        }
        if inodes.contains_key(id) && exists|i: int|
            0 <= i < inodes[id]@.len() && (#[trigger] inodes[id]@[i]).access == FileAccess::All {
            let i = choose|i: int|
                0 <= i < inodes[id]@.len() && (#[trigger] inodes[id]@[i]).access
                    == FileAccess::All;
            assert(crate::deny_inodes::entries_at(inodes, id)[i].access.includes(
                FileAccess::All,
            ));
        }
    }
    assert(of_the_host(q.kind, q.path@, q.access) == rules::protected_ipc(
        q.kind,
        q.path@,
        q.access,
    ));
}

/// Where nothing denies the use of a resource, a decision of one of its sessions or an allow rule
/// of the policy allows it, the decision being told first; nothing else does, and where neither
/// is there is no verdict.
pub proof fn law_a_resource_is_allowed_where_something_allows_it<
    F: Fn(&ResourceRule) -> bool,
    G: Fn(&ResourceRule) -> bool,
>(
    store: &PolicyStore,
    q: &ResourceQuery,
    rule_matches: &F,
    session_matches: &G,
    r: Option<Verdict>,
)
    requires
        call_ensures(
            PolicyStore::resource_allow_source::<F, G>,
            (store, q, rule_matches, session_matches),
            r,
        ),
        !resource_is_denied(*store, *q, *rule_matches, *session_matches),
    ensures
        (exists|s: int, d: int|
            #[trigger] decided_in(store.session.resource_allow@, q.sessions@, s, d) && text::holds(
                *session_matches,
                as_resource_rule(decision_in(store.session.resource_allow@, q.sessions@, s, d)),
            )) <==> r == Some(
            Verdict { allowed: true, source: VerdictSource::Scope(ApprovalScope::Session) },
        ),
        (exists|i: int|
            0 <= i < q.policy.resources.allow@.len() && text::holds(
                *rule_matches,
                #[trigger] q.policy.resources.allow@[i],
            )) ==> r is Some && r->0.allowed,
        r is Some ==> r->0.allowed && (r->0.source == VerdictSource::Scope(
            ApprovalScope::Session,
        ) || (r->0.source == VerdictSource::Policy(None) && exists|i: int|
            0 <= i < q.policy.resources.allow@.len() && text::holds(
                *rule_matches,
                #[trigger] q.policy.resources.allow@[i],
            ))),
{
    law_a_resource_is_denied_where_something_denies_it(
        store,
        q,
        rule_matches,
        session_matches,
        r,
    );
    lemma_resource_decisions(store.session.resource_allow@, q.sessions@, *session_matches);
}

// D-Bus.

proof fn lemma_dbus_decisions<T: Fn(&DbusTarget) -> bool>(
    decisions: Map<Seq<char>, Vec<DbusTarget>>,
    sessions: Seq<String>,
    matches: T,
)
    ensures
        rules::some_session(
            decisions,
            sessions,
            |b: Vec<DbusTarget>| rules::any_holds(b@, matches),
        ) == exists|s: int, d: int|
            #[trigger] decided_in(decisions, sessions, s, d) && text::holds(
                matches,
                decision_in(decisions, sessions, s, d),
            ),
{
    let covered = |b: Vec<DbusTarget>| rules::any_holds(b@, matches);
    let p = |t: DbusTarget| text::holds(matches, t);
    assert forall|b: Vec<DbusTarget>| #[trigger] covered(b) == exists|d: int|
        0 <= d < b@.len() && p(#[trigger] b@[d]) by {
        if rules::any_holds(b@, matches) {
            let d = choose|d: int| 0 <= d < b@.len() && text::holds(matches, #[trigger] b@[d]);
            assert(p(b@[d]));
        }
    }
    lemma_decided_in(decisions, sessions, covered, p);
}

proof fn lemma_first_dbus_rule<F: Fn(&DbusRule) -> bool>(list: Seq<DbusRule>, matches: F)
    ensures
        match evaluator::first_dbus_rule(list, matches) {
            Some(rule) => exists|i: int|
                {
                    &&& 0 <= i < list.len()
                    &&& #[trigger] list[i] == rule
                    &&& text::holds(matches, list[i])
                    &&& forall|j: int| 0 <= j < i ==> !text::holds(matches, #[trigger] list[j])
                },
            None => forall|j: int|
                0 <= j < list.len() ==> !text::holds(matches, #[trigger] list[j]),
        },
    decreases list.len(),
{
    if list.len() > 0 && !text::holds(matches, list[0]) {
        let rest = list.skip(1);
        lemma_first_dbus_rule(rest, matches);
        assert(forall|j: int| 1 <= j < list.len() ==> list[j] == #[trigger] rest[j - 1]);
        match evaluator::first_dbus_rule(rest, matches) {
            Some(rule) => {
                let i = choose|i: int|
                    {
                        &&& 0 <= i < rest.len()
                        &&& #[trigger] rest[i] == rule
                        &&& text::holds(matches, rest[i])
                        &&& forall|j: int| 0 <= j < i ==> !text::holds(matches, #[trigger] rest[j])
                    };
                assert(list[i + 1] == rule);
                assert forall|j: int| 0 <= j < i + 1 implies !text::holds(
                    matches,
                    #[trigger] list[j],
                ) by {
                    if j > 0 {
                        assert(list[j] == rest[j - 1]);
                    }
                }
            },
            None => {
                assert forall|j: int| 0 <= j < list.len() implies !text::holds(
                    matches,
                    #[trigger] list[j],
                ) by {
                    if j > 0 {
                        assert(list[j] == rest[j - 1]);
                    }
                }
            },
        }
    }
}

/// The policy, or a denial of one of the request's sessions, covers the D-Bus target.
pub open spec fn dbus_is_denied<F: Fn(&DbusRule) -> bool, T: Fn(&DbusTarget) -> bool>(
    store: PolicyStore,
    policy: Policy,
    sessions: Seq<String>,
    rule_matches: F,
    target_matches: T,
) -> bool {
    ||| exists|i: int|
        0 <= i < policy.dbus.deny@.len() && text::holds(
            rule_matches,
            #[trigger] policy.dbus.deny@[i],
        )
    ||| exists|s: int, d: int|
        #[trigger] decided_in(store.session.dbus_deny@, sessions, s, d) && text::holds(
            target_matches,
            decision_in(store.session.dbus_deny@, sessions, s, d),
        )
}

/// Where a deny rule of the policy or a denial of one of the request's sessions covers the D-Bus
/// target, the check is answered at once and does not allow, whatever rule or decision allows it.
pub proof fn law_denied_dbus_target_is_denied<
    F: Fn(&DbusRule) -> bool,
    T: Fn(&DbusTarget) -> bool,
>(
    store: &PolicyStore,
    ctx: &ResolvedRequestContext,
    policy: &Policy,
    sessions: &Vec<String>,
    rule_matches: &F,
    target_matches: &T,
    r: DbusStart,
)
    requires
        call_ensures(
            PolicyStore::check_dbus::<F, T>,
            (store, ctx, policy, sessions, rule_matches, target_matches),
            r,
        ),
        dbus_is_denied(*store, *policy, sessions@, *rule_matches, *target_matches),
    ensures
        r matches DbusStart::Reply(reply) && !reply.allowed && reply.source
            == VerdictSource::Policy(None) && reply.message is None,
{
    lemma_dbus_decisions(store.session.dbus_deny@, sessions@, *target_matches);
}

/// Where nothing denies the D-Bus target, a decision of one of the request's sessions allows it,
/// and else the first allow rule that matches, with its comment. Where neither is, the sandbox of
/// the process is frozen and the user asked; a process that is not known is not asked about.
pub proof fn law_undenied_dbus_target_is_allowed_or_asked_about<
    F: Fn(&DbusRule) -> bool,
    T: Fn(&DbusTarget) -> bool,
>(
    store: &PolicyStore,
    ctx: &ResolvedRequestContext,
    policy: &Policy,
    sessions: &Vec<String>,
    rule_matches: &F,
    target_matches: &T,
    r: DbusStart,
)
    requires
        call_ensures(
            PolicyStore::check_dbus::<F, T>,
            (store, ctx, policy, sessions, rule_matches, target_matches),
            r,
        ),
        !dbus_is_denied(*store, *policy, sessions@, *rule_matches, *target_matches),
    ensures
        ({
            let decided = exists|s: int, d: int|
                #[trigger] decided_in(store.session.dbus_allow@, sessions@, s, d) && text::holds(
                    *target_matches,
                    decision_in(store.session.dbus_allow@, sessions@, s, d),
                );
            let ruled = exists|i: int|
                0 <= i < policy.dbus.allow@.len() && text::holds(
                    *rule_matches,
                    #[trigger] policy.dbus.allow@[i],
                );
            match r {
                DbusStart::Reply(reply) => if decided {
                    &&& reply.allowed
                    &&& reply.source == VerdictSource::Scope(ApprovalScope::Session)
                } else if ruled {
                    &&& reply.allowed
                    &&& exists|i: int|
                        {
                            &&& 0 <= i < policy.dbus.allow@.len()
                            &&& text::holds(*rule_matches, #[trigger] policy.dbus.allow@[i])
                            &&& reply.source == VerdictSource::Policy(
                                policy.dbus.allow@[i].comment,
                            )
                            &&& forall|j: int|
                                0 <= j < i ==> !text::holds(
                                    *rule_matches,
                                    #[trigger] policy.dbus.allow@[j],
                                )
                        }
                } else {
                    &&& !reply.allowed
                    &&& ctx.ids.pid is None
                    &&& reply.source is Blocked
                },
                DbusStart::Freeze { pid, uid } => !decided && !ruled && ctx.ids.pid == Some(pid)
                    && uid == ctx.ids.uid,
            }
        }),
{
    lemma_dbus_decisions(store.session.dbus_deny@, sessions@, *target_matches);
    lemma_dbus_decisions(store.session.dbus_allow@, sessions@, *target_matches);
    lemma_first_dbus_rule(policy.dbus.allow@, *rule_matches);
}

// Commands.

/// The decision is not empty and its words are the first words of the command.
pub open spec fn begins_with(command: Seq<String>, decision: Seq<String>) -> bool {
    &&& 0 < decision.len() <= command.len()
    &&& forall|i: int| 0 <= i < decision.len() ==> (#[trigger] decision[i])@ == command[i]@
}

proof fn lemma_command_decisions(
    decisions: Map<Seq<char>, Vec<Vec<String>>>,
    sessions: Seq<String>,
    argv: Seq<String>,
)
    ensures
        rules::some_session(
            decisions,
            sessions,
            |b: Vec<Vec<String>>| rules::sudo_covered(b@, argv),
        ) == exists|s: int, d: int|
            #[trigger] decided_in(decisions, sessions, s, d) && begins_with(
                argv,
                decision_in(decisions, sessions, s, d)@,
            ),
{
    let covered = |b: Vec<Vec<String>>| rules::sudo_covered(b@, argv);
    let p = |words: Vec<String>| begins_with(argv, words@);
    assert forall|words: Vec<String>| #[trigger] p(words) == (words@.len() > 0 && text::texts(
        words@,
    ).is_prefix_of(text::texts(argv))) by {
        let (a, b) = (text::texts(words@), text::texts(argv));
        if p(words) {
            assert forall|i: int| 0 <= i < a.len() implies #[trigger] a[i] == b[i] by {
                assert(words@[i]@ == argv[i]@);
            }
            assert(a =~= b.take(a.len() as int));
        }
        if words@.len() > 0 && a.is_prefix_of(b) {
            assert forall|i: int| 0 <= i < words@.len() implies (#[trigger] words@[i])@
                == argv[i]@ by {
                assert(a[i] == b.take(a.len() as int)[i]);
            }
        }
    }
    assert forall|b: Vec<Vec<String>>| #[trigger] covered(b) == exists|d: int|
        0 <= d < b@.len() && p(#[trigger] b@[d]) by {
        if rules::sudo_covered(b@, argv) {
            let d = choose|d: int|
                0 <= d < b@.len() && (#[trigger] b@[d])@.len() > 0 && text::texts(
                    b@[d]@,
                ).is_prefix_of(text::texts(argv));
            assert(p(b@[d]));
        }
    }
    lemma_decided_in(decisions, sessions, covered, p);
}

/// A rule, or the beginning that one of the request's sessions decided on, covers the command.
pub open spec fn command_is_covered<F: Fn(&SudoRule) -> bool>(
    list: Seq<SudoRule>,
    decisions: Map<Seq<char>, Vec<Vec<String>>>,
    matches: F,
    argv: Seq<String>,
    sessions: Seq<String>,
) -> bool {
    ||| exists|i: int| 0 <= i < list.len() && text::holds(matches, #[trigger] list[i])
    ||| exists|s: int, d: int|
        #[trigger] decided_in(decisions, sessions, s, d) && begins_with(
            argv,
            decision_in(decisions, sessions, s, d)@,
        )
}

/// A command that a deny rule or a denial of one of its sessions covers is refused, whatever
/// allows it: it is neither run nor asked about. One that nothing denies runs where an allow rule
/// or an approval of one of its sessions covers it, and only there. Any other is put to the user
/// with the caller waiting for it, or refused where too many requests wait.
pub proof fn law_commands_are_denied_run_or_asked_about<F: Fn(&SudoRule) -> bool>(
    store: &mut PolicyStore,
    policy: &Policy,
    matches: &F,
    argv: &Vec<String>,
    sessions: &Vec<String>,
    ctx: &ResolvedRequestContext,
    waiter: u64,
    created_at: u64,
    r: ElevationStart,
)
    requires
        call_ensures(
            PolicyStore::request_elevation::<F>,
            (store, policy, matches, argv, sessions, ctx, waiter, created_at),
            r,
        ),
    ensures
        ({
            let denied = command_is_covered(
                policy.sudo.deny@,
                old(store).session.sudo_deny@,
                *matches,
                argv@,
                sessions@,
            );
            let allowed = command_is_covered(
                policy.sudo.allow@,
                old(store).session.sudo_allow@,
                *matches,
                argv@,
                sessions@,
            );
            let full = old(store).pending@.len() >= old(store).limits.pending_approvals;
            &&& r is Execute <==> allowed && !denied
            &&& denied ==> r == ElevationStart::Reply(ElevateReply::Denied)
            &&& r is Wait <==> !denied && !allowed && !full
            &&& r is Wait ==> {
                let id = r->Wait_0@;
                &&& final(store).waiters.elevation@.contains_key(id)
                &&& final(store).waiters.elevation@[id] == waiter
                &&& final(store).pending@.contains_key(id)
                &&& final(store).pending@[id] is Elevation
                &&& final(store).pending@[id]->Elevation_0.argv@ == argv@
                &&& final(store).pending@[id]->Elevation_0.context.sandbox_session_id
                    == ctx.sandbox_session_id
            }
            &&& !(r is Wait) ==> *final(store) == *old(store)
        }),
{
    lemma_command_decisions(old(store).session.sudo_deny@, sessions@, argv@);
    lemma_command_decisions(old(store).session.sudo_allow@, sessions@, argv@);
}

/// The rules that a sandbox was started with allow what they match, for its own requests: where
/// new ones are stored they take the place of the old, and where none are stored nothing changes.
/// The requests of another session are touched by neither.
pub proof fn law_stored_rules_count_for_their_sandbox<
    F: Fn(&FilesystemRule, &Option<String>) -> bool,
>(
    store: &mut PolicyStore,
    ctx: &ResolvedRequestContext,
    started: Vec<FilesystemRule>,
    asking: &ResolvedRequestContext,
    matches: &F,
    before: bool,
    after: bool,
)
    requires
        call_ensures(PolicyStore::store_sandbox_static_allow, (store, ctx, started), ()),
        call_ensures(
            PolicyStore::static_filesystem_allowed::<F>,
            (&*old(store), asking, matches),
            before,
        ),
        call_ensures(
            PolicyStore::static_filesystem_allowed::<F>,
            (&*final(store), asking, matches),
            after,
        ),
    ensures
        started@.len() == 0 ==> after == before,
        text::opt_text(asking.sandbox_session_id) != text::opt_text(ctx.sandbox_session_id)
            ==> after == before,
        started@.len() > 0 && asking.sandbox_session_id is Some && text::opt_text(
            asking.sandbox_session_id,
        ) == text::opt_text(ctx.sandbox_session_id) ==> (after <==> exists|i: int|
            0 <= i < started@.len() && text::relates(
                *matches,
                #[trigger] started@[i],
                asking.paths.project_root,
            )),
{
    if rules::static_allow_key(*asking) == rules::static_allow_key(*ctx) {
        law_started_rules_stay_with_their_sandbox(*asking, *ctx);
    }
}

/// A reply says what its verdict says: allowed where that allows and nowhere else, from the same
/// source. A blocked reply allows nothing.
pub proof fn law_replies_say_what_their_verdicts_say(
    source: VerdictSource,
    verdict: Verdict,
    message: &str,
    request: HttpRequest,
    path: String,
    access: FileAccess,
    allowed: Verdict,
    denied: Verdict,
    blocked: Verdict,
    net: CheckReply,
    net_allowed: CheckReply,
    net_denied: CheckReply,
    net_blocked: CheckReply,
    http: HttpCheckReply,
    http_blocked: HttpCheckReply,
    file: FilesystemCheckReply,
    file_blocked: FilesystemCheckReply,
    dbus: DbusCheckReply,
    dbus_blocked: DbusCheckReply,
)
    requires
        call_ensures(Verdict::allowed, (source,), allowed),
        call_ensures(Verdict::denied, (source,), denied),
        call_ensures(Verdict::blocked, (), blocked),
        call_ensures(CheckReply::from_verdict, (verdict,), net),
        call_ensures(CheckReply::allowed, (source,), net_allowed),
        call_ensures(CheckReply::denied, (source,), net_denied),
        call_ensures(CheckReply::blocked, (message,), net_blocked),
        call_ensures(HttpCheckReply::from_verdict, (request, verdict), http),
        call_ensures(HttpCheckReply::blocked, (message,), http_blocked),
        call_ensures(FilesystemCheckReply::from_verdict, (verdict, path, access), file),
        call_ensures(FilesystemCheckReply::blocked, (message, path, access), file_blocked),
        call_ensures(DbusCheckReply::from_verdict, (verdict,), dbus),
        call_ensures(DbusCheckReply::blocked, (message,), dbus_blocked),
    ensures
        allowed.allowed && allowed.source == source,
        !denied.allowed && denied.source == source,
        !blocked.allowed && blocked.source is Blocked,
        net.allowed == verdict.allowed && net.source == verdict.source,
        net_allowed.allowed && net_allowed.source == source,
        !net_denied.allowed && net_denied.source == source,
        !net_blocked.allowed && net_blocked.source is Blocked,
        http.allowed == verdict.allowed && http.source == verdict.source,
        !http_blocked.allowed && http_blocked.source is Blocked,
        file.allowed == verdict.allowed && file.path == path && file.access == access,
        !file_blocked.allowed && file_blocked.path == path && file_blocked.access == access,
        dbus.allowed == verdict.allowed,
        !dbus_blocked.allowed,
{
}

} // verus!
