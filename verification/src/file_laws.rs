//! What checks of files, resources and commands come to once the rules do not answer them: who
//! waits, what those who wait are told, and what is remembered.

use vstd::prelude::*;

use crate::elevation::ElevateReply;
use crate::elevation::ElevationDelivery;
use crate::elevation::ElevationWaitEvent;
use crate::elevation::ElevationWaitStep;
use crate::evaluator::FilesystemQuery;
use crate::filesystem::FilesystemMonitorReply;
use crate::filesystem::MonitorOutcome;
use crate::filesystem::MonitorPlan;
use crate::filesystem;
use crate::filesystem::FilesystemApproval;
use crate::filesystem::FilesystemCheckReply;
use crate::filesystem::FilesystemDelivery;
use crate::filesystem::FilesystemSnapshot;
use crate::filesystem::FilesystemWaitEvent;
use crate::filesystem::FilesystemWaitStep;
use crate::filesystem::PendingFsResult;
use crate::filesystem::ResourceDelivery;
use crate::paths;
use crate::rules::InodeIdentity;
use crate::state;
use crate::state::FilesystemRuleKeyView;
use crate::state::Pending;
use crate::state::ResourceRuleKeyView;
use crate::state::VerdictEntry;
use crate::store::PolicyStore;
use crate::text;
use crate::types::FileAccess;
use crate::types::FilesystemRule;
use crate::types::Policy;
use crate::types::ResolvedRequestContext;
use crate::types::ResourceAccess;
use crate::types::ResourceKind;
use crate::types::Verdict;
use crate::types::VerdictSource;
use crate::waiting::WaitPhase;

verus! {

/// A check of a file is answered with the verdict on it, told as it is, on the path and access
/// that were asked about.
pub proof fn law_file_check_tells_its_verdict<
    F: Fn(&FilesystemRule, &Option<String>) -> bool,
    I: Fn(&String) -> bool,
>(
    store: &PolicyStore,
    q: &FilesystemQuery,
    matches: &F,
    same_file: &I,
    reply: Option<FilesystemCheckReply>,
    verdict: Option<Verdict>,
)
    requires
        call_ensures(
            PolicyStore::check_filesystem::<F, I>,
            (store, q, matches, same_file),
            reply,
        ),
        call_ensures(
            PolicyStore::filesystem_allow_source::<F, I>,
            (store, q, matches, same_file),
            verdict,
        ),
    ensures
        reply is Some <==> verdict is Some,
        reply is Some ==> reply->0.allowed == verdict->0.allowed && reply->0.source
            == verdict->0.source && reply->0.path == *q.path && reply->0.access == q.access,
{
}

/// The pending request asks for the same access to the same path.
pub open spec fn asks_the_same(pending: Pending, path: Seq<char>, access: FileAccess) -> bool {
    &&& pending is Filesystem
    &&& paths::components(pending->Filesystem_0.path@) == paths::components(path)
    &&& pending->Filesystem_0.access == access
}

/// A denial of the access is remembered, and no more than two seconds old: under the same path,
/// or under another name of the same file with enough access.
pub open spec fn denial_known<I: Fn(&String) -> bool>(
    store: PolicyStore,
    path: Seq<char>,
    access: FileAccess,
    on_disk: bool,
    same_file: I,
    now: u64,
) -> bool {
    let key = FilesystemRuleKeyView { path: paths::components(path), access };
    let cache = store.caches.filesystem;
    ||| cache@.contains_key(key) && !cache@[key].allowed && now < cache@[key].time + 2_000_000_000
    ||| on_disk && exists|i: int|
        {
            &&& 0 <= i < cache.entries@.len()
            &&& !(#[trigger] cache.entries@[i]).1.allowed
            &&& now < cache.entries@[i].1.time + 2_000_000_000
            &&& cache.entries@[i].0.access.includes(access)
            &&& text::holds(same_file, cache.entries@[i].0.path)
        }
}

/// What is remembered of a file never allows: it answers exactly where a denial is known, and
/// then denies the path and access that were asked about.
pub proof fn law_only_denials_of_a_file_are_remembered<I: Fn(&String) -> bool>(
    store: &PolicyStore,
    path: &String,
    access: FileAccess,
    on_disk: bool,
    same_file: &I,
    now: u64,
    r: Option<FilesystemCheckReply>,
)
    requires
        call_ensures(
            PolicyStore::check_filesystem_verdict_cache::<I>,
            (store, path, access, on_disk, same_file, now),
            r,
        ),
    ensures
        r is Some <==> denial_known(*store, path@, access, on_disk, *same_file, now),
        r is Some ==> !r->0.allowed && r->0.path == *path && r->0.access == access,
{
    let cache = store.caches.filesystem;
    let key = FilesystemRuleKeyView { path: paths::components(path@), access };
    if r is Some && !(cache@.contains_key(key) && filesystem::remembered_denial(cache@[key], now)) {
        let i = choose|i: int|
            0 <= i < cache.entries@.len() && filesystem::covers_alias(
                (#[trigger] cache.entries@[i]).0,
                cache.entries@[i].1,
                access,
                *same_file,
                now,
            ) && r->0 == FilesystemCheckReply::of_verdict(
                Verdict { allowed: false, source: cache.entries@[i].1.source },
                *path,
                access,
            );
        assert(!cache.entries@[i].1.allowed);
    }
    if r is None && on_disk && exists|i: int|
        {
            &&& 0 <= i < cache.entries@.len()
            &&& !(#[trigger] cache.entries@[i]).1.allowed
            &&& now < cache.entries@[i].1.time + 2_000_000_000
            &&& cache.entries@[i].0.access.includes(access)
            &&& text::holds(*same_file, cache.entries@[i].0.path)
        } {
        let i = choose|i: int|
            {
                &&& 0 <= i < cache.entries@.len()
                &&& !(#[trigger] cache.entries@[i]).1.allowed
                &&& now < cache.entries@[i].1.time + 2_000_000_000
                &&& cache.entries@[i].0.access.includes(access)
                &&& text::holds(*same_file, cache.entries@[i].0.path)
            };
        assert(filesystem::covers_alias(
            cache.entries@[i].0,
            cache.entries@[i].1,
            access,
            *same_file,
            now,
        ));
    }
}

/// Asking for approval of a file access never allows it by itself. It is denied where a deny rule
/// covers the file, where nobody may be asked, and where a denial is known; it waits only where
/// none of these holds, for its own path and access, and nothing else is changed.
pub proof fn law_file_request_is_denied_or_waits<
    F: Fn(&FilesystemRule, &Option<String>) -> bool,
    I: Fn(&String) -> bool,
>(
    store: &mut PolicyStore,
    q: &FilesystemQuery,
    matches: &F,
    same_file: &I,
    waiter: u64,
    created_at: u64,
    now: u64,
    r: FilesystemApproval,
)
    requires
        call_ensures(
            PolicyStore::request_filesystem_approval::<F, I>,
            (store, q, matches, same_file, waiter, created_at, now),
            r,
        ),
    ensures
        match r {
            FilesystemApproval::Reply(reply) => {
                &&& !reply.allowed
                &&& reply.path == *q.path
                &&& reply.access == q.access
                &&& final(store).pending@ == old(store).pending@
            },
            FilesystemApproval::Wait(result) => {
                let id = result.id@;
                &&& old(store).args.interactive_approval
                &&& !denial_known(
                    *old(store),
                    q.path@,
                    q.access,
                    q.identity is Some,
                    *same_file,
                    now,
                )
                &&& forall|i: int|
                    0 <= i < q.policy.filesystem.deny@.len() ==> !text::relates(
                        *matches,
                        #[trigger] q.policy.filesystem.deny@[i],
                        q.ctx.paths.project_root,
                    )
                &&& final(store).pending@.contains_key(id)
                &&& asks_the_same(final(store).pending@[id], q.path@, q.access)
                &&& final(store).waiters.filesystem@.contains_key(id)
                &&& final(store).waiters.filesystem@[id]@.len() > 0
                &&& final(store).waiters.filesystem@[id]@.last() == waiter
                &&& !result.is_new ==> final(store).pending@ == old(store).pending@
                &&& result.is_new ==> {
                    &&& old(store).pending@.len() < old(store).limits.pending_approvals
                    &&& final(store).pending@[id]->Filesystem_0.path == *q.path
                    &&& final(store).pending@[id]->Filesystem_0.context.sandbox_session_id
                        == q.ctx.sandbox_session_id
                }
            },
        },
        final(store).caches == old(store).caches,
        final(store).session == old(store).session,
{
    let (b, a) = (old(store).filesystem_board(), final(store).filesystem_board());
    assert(a.waiters.dom() =~= final(store).waiters.filesystem@.dom());
    assert(b.waiters.dom() =~= old(store).waiters.filesystem@.dom());
    let fresh_id = choose|fresh_id: String|
        crate::ids::pending_id_form(fresh_id@, "fs:"@) && #[trigger] filesystem::access_requested(
            *old(store),
            *final(store),
            *q,
            *matches,
            *same_file,
            waiter,
            fresh_id,
            created_at,
            now,
            r,
        );
    let cache = old(store).caches.filesystem;
    match r {
        FilesystemApproval::Wait(result) => {
            let id = result.id@;
            if result.is_new {
                assert(a.waiters[id] == seq![waiter]);
                assert(a.pending.contains_key(id));
            } else {
                assert(a == b.joined(id, waiter));
                assert(a.waiters[id].last() == waiter);
            }
            assert(a.waiters.contains_key(id));
            assert(final(store).waiters.filesystem@[id]@ == a.waiters[id]);
            assert forall|i: int| 0 <= i < cache.entries@.len() && q.identity is Some implies !({
                &&& !(#[trigger] cache.entries@[i]).1.allowed
                &&& now < cache.entries@[i].1.time + 2_000_000_000
                &&& cache.entries@[i].0.access.includes(q.access)
                &&& text::holds(*same_file, cache.entries@[i].0.path)
            }) by {
                assert(!filesystem::covers_alias(
                    cache.entries@[i].0,
                    cache.entries@[i].1,
                    q.access,
                    *same_file,
                    now,
                ));
            }
        },
        FilesystemApproval::Reply(reply) => {},
    }
}

/// Waiting for a decision on a file never allows by itself: a caller that was answered passes the
/// answer on, any other that ends is blocked. It gives up only when its time is up, and then
/// nobody waits for the request any more.
pub proof fn law_file_wait_allows_only_what_was_answered(
    store: &mut PolicyStore,
    pending_id: &String,
    path: &String,
    access: FileAccess,
    phase: WaitPhase,
    event: FilesystemWaitEvent,
    now: u64,
    reply: FilesystemCheckReply,
)
    requires
        call_ensures(
            PolicyStore::await_filesystem_verdict,
            (store, pending_id, path, access, phase, event, now),
            FilesystemWaitStep::Done(reply),
        ),
    ensures
        match event {
            FilesystemWaitEvent::Answered(given) => reply == given,
            _ => !reply.allowed && reply.source is Blocked && reply.path == *path && reply.access
                == access,
        },
        event is Look ==> {
            &&& match phase {
                WaitPhase::ForUi { deadline } => now >= deadline && !event->has_ui,
                WaitPhase::ForVerdict { deadline } => now >= deadline,
            }
            &&& !final(store).pending@.contains_key(pending_id@)
            &&& !final(store).waiters.filesystem@.contains_key(pending_id@)
        },
{
    let a = final(store).filesystem_board();
    assert(a.waiters.dom() =~= final(store).waiters.filesystem@.dom());
}

proof fn lemma_kept<K>(
    before: Map<K, VerdictEntry>,
    after: Map<K, VerdictEntry>,
    limit: nat,
    key: K,
)
    requires
        state::newest_kept(before, after, limit),
        after.contains_key(key),
    ensures
        before.contains_key(key),
        before[key] == after[key],
{
    assert(after.dom().contains(key));
    assert(before.dom().contains(key));
}

/// A decision on a file access reaches every caller that waits for it and nobody else, as it was
/// made; nobody waits for it after that. A permission is never remembered; what is remembered of
/// a denial is the denial, under its own path and access.
pub proof fn law_file_decision_reaches_every_caller(
    store: &mut PolicyStore,
    pending_id: &String,
    path: &String,
    access: FileAccess,
    allowed: bool,
    source: VerdictSource,
    now: u64,
    r: Option<FilesystemDelivery>,
    key: FilesystemRuleKeyView,
    other: Seq<char>,
)
    requires
        call_ensures(
            PolicyStore::finish_filesystem,
            (store, pending_id, path, access, allowed, source, now),
            r,
        ),
    ensures
        r is Some <==> old(store).waiters.filesystem@.contains_key(pending_id@),
        r matches Some(delivery) ==> {
            &&& delivery.reply.allowed == allowed
            &&& delivery.reply.source == source
            &&& delivery.reply.path == *path
            &&& delivery.reply.access == access
            &&& delivery.told@ == old(store).waiters.filesystem@[pending_id@]@
        },
        !final(store).waiters.filesystem@.contains_key(pending_id@),
        other != pending_id@ && old(store).waiters.filesystem@.contains_key(other) ==> final(store).waiters.filesystem@.contains_key(other) && final(store).waiters.filesystem@[other]@ == old(store).waiters.filesystem@[other]@,
        final(store).pending@ == old(store).pending@,
        final(store).session == old(store).session,
        allowed ==> final(store).caches.filesystem == old(store).caches.filesystem,
        final(store).caches.filesystem@.contains_key(key) ==> {
            let entry = final(store).caches.filesystem@[key];
            ||| old(store).caches.filesystem@.contains_key(key) && entry == old(store).caches.filesystem@[key]
            ||| key.path == paths::components(path@) && key.access == access && !allowed
                && !entry.allowed && entry.source == source && entry.time == now
        },
        !allowed && old(store).caches.filesystem@.dom().finite() && old(store).caches.filesystem@.len() < old(store).limits.verdict_cache ==> final(store).caches.filesystem@.contains_key(
            FilesystemRuleKeyView { path: paths::components(path@), access },
        ),
{
    let (b, a) = (old(store).filesystem_board(), final(store).filesystem_board());
    assert(a.waiters.dom() =~= final(store).waiters.filesystem@.dom());
    assert(b.waiters.dom() =~= old(store).waiters.filesystem@.dom());
    if r is Some {
        assert(b.waiters[pending_id@] == old(store).waiters.filesystem@[pending_id@]@);
    }
    if other != pending_id@ && b.waiters.contains_key(other) {
        assert(a.waiters.contains_key(other) && a.waiters[other] == b.waiters[other]);
        assert(final(store).waiters.filesystem@[other]@ == a.waiters[other]);
        assert(old(store).waiters.filesystem@[other]@ == b.waiters[other]);
    }
    if !allowed && final(store).caches.filesystem@.contains_key(key) {
        let mine = FilesystemRuleKeyView { path: paths::components(path@), access };
        let all = old(store).caches.filesystem@.insert(
            mine,
            VerdictEntry { allowed: false, source, time: now },
        );
        lemma_kept(
            all,
            final(store).caches.filesystem@,
            old(store).limits.verdict_cache as nat,
            key,
        );
    }
}

/// A decision on a resource or a D-Bus call reaches every caller that waits for it and nobody
/// else, as it was made and on what it was asked about; nobody waits for it after that. What is
/// remembered of it is the decision, under its own kind, path and access.
pub proof fn law_resource_decision_reaches_every_caller(
    store: &mut PolicyStore,
    pending_id: &String,
    kind: ResourceKind,
    path: &String,
    access: ResourceAccess,
    allowed: bool,
    source: VerdictSource,
    now: u64,
    r: Option<ResourceDelivery>,
    key: ResourceRuleKeyView,
    other: Seq<char>,
)
    requires
        call_ensures(
            PolicyStore::finish_resource,
            (store, pending_id, kind, path, access, allowed, source, now),
            r,
        ),
    ensures
        r is Some <==> old(store).waiters.resource@.contains_key(pending_id@),
        r matches Some(delivery) ==> {
            &&& delivery.reply.allowed == allowed
            &&& delivery.reply.source == source
            &&& delivery.reply.kind == kind
            &&& delivery.reply.path == *path
            &&& delivery.reply.access == access
            &&& delivery.told@ == old(store).waiters.resource@[pending_id@]@
        },
        !final(store).waiters.resource@.contains_key(pending_id@),
        other != pending_id@ && old(store).waiters.resource@.contains_key(other) ==> final(store).waiters.resource@.contains_key(other) && final(store).waiters.resource@[other] == old(store).waiters.resource@[other],
        final(store).pending@ == old(store).pending@,
        final(store).session == old(store).session,
        final(store).caches.resource@.contains_key(key) ==> {
            let entry = final(store).caches.resource@[key];
            ||| old(store).caches.resource@.contains_key(key) && entry == old(store).caches.resource@[key]
            ||| key.kind == kind && key.path == paths::components(path@) && key.access == access
                && entry.allowed == allowed && entry.source == source && entry.time == now
        },
{
    if final(store).caches.resource@.contains_key(key) {
        let mine = ResourceRuleKeyView { kind, path: paths::components(path@), access };
        let all = old(store).caches.resource@.insert(
            mine,
            VerdictEntry { allowed, source, time: now },
        );
        lemma_kept(
            all,
            final(store).caches.resource@,
            old(store).limits.verdict_cache as nat,
            key,
        );
    }
}

/// Waiting for a decision on a command never runs it: a caller that was answered passes the
/// answer on, any other that ends is denied or refused. It gives up only when its time is up, and
/// then the command is off the board.
pub proof fn law_command_wait_tells_only_what_was_answered(
    store: &mut PolicyStore,
    pending_id: &String,
    phase: WaitPhase,
    event: ElevationWaitEvent,
    now: u64,
    reply: ElevateReply,
)
    requires
        call_ensures(
            PolicyStore::await_elevation_verdict,
            (store, pending_id, phase, event, now),
            ElevationWaitStep::Done(reply),
        ),
    ensures
        match event {
            ElevationWaitEvent::Answered(given) => reply == given,
            ElevationWaitEvent::Abandoned => reply is Denied,
            ElevationWaitEvent::Look { has_ui } => {
                &&& reply is Refused
                &&& match phase {
                    WaitPhase::ForUi { deadline } => now >= deadline && !has_ui,
                    WaitPhase::ForVerdict { deadline } => now >= deadline,
                }
                &&& !final(store).pending@.contains_key(pending_id@)
                &&& !final(store).waiters.elevation@.contains_key(pending_id@)
            },
        },
{
}

/// The caller that waits for a command is told the result that it has, and waits no more; nobody
/// else is told anything, or stops waiting.
pub proof fn law_command_result_reaches_its_caller(
    store: &mut PolicyStore,
    pending_id: &String,
    result: ElevateReply,
    r: Option<ElevationDelivery>,
    other: Seq<char>,
)
    requires
        call_ensures(PolicyStore::finish_elevation, (store, pending_id, result), r),
    ensures
        r is Some <==> old(store).waiters.elevation@.contains_key(pending_id@),
        r matches Some(delivery) ==> delivery.told == old(store).waiters.elevation@[pending_id@]
            && delivery.reply == result,
        !final(store).waiters.elevation@.contains_key(pending_id@),
        other != pending_id@ ==> final(store).waiters.elevation@.contains_key(other) == old(store).waiters.elevation@.contains_key(other),
        final(store).pending@ == old(store).pending@,
{
}

/// A monitor is given the rules of the policy as they are, and every file that is denied by inode.
pub proof fn law_monitor_knows_every_denied_file(
    store: &PolicyStore,
    policy: &Policy,
    r: FilesystemSnapshot,
    identity: InodeIdentity,
)
    requires
        call_ensures(PolicyStore::filesystem_snapshot, (store, policy), r),
    ensures
        store.deny_inodes.inodes@.contains_key(identity) ==> r.denied_inodes@.contains(identity),
        r.denied_inodes@.contains(identity) ==> store.deny_inodes.inodes@.contains_key(identity),
        r.allow@ == policy.filesystem.allow@,
        r.deny@ == policy.filesystem.deny@,
{
}

/// A monitor is started only where one is configured, for a known process, and with no more rules
/// than the limit allows; then with the configured program, for that process, on the sandbox's
/// socket and in the context's session.
pub proof fn law_monitor_is_started_for_its_process(
    store: &PolicyStore,
    peer_pid: u32,
    static_allow: &Vec<FilesystemRule>,
    ctx: &ResolvedRequestContext,
    r: Result<MonitorPlan, FilesystemMonitorReply>,
)
    requires
        call_ensures(
            PolicyStore::start_filesystem_monitor,
            (store, peer_pid, static_allow, ctx),
            r,
        ),
    ensures
        r is Ok <==> store.args.fs_monitor_cmd is Some && peer_pid > 0 && static_allow@.len()
            <= store.limits.static_allow_rules,
        r is Ok ==> {
            let plan = r->Ok_0;
            &&& plan.program == store.args.fs_monitor_cmd->0
            &&& plan.session == ctx.sandbox_session_id
            &&& plan.arguments@.len() >= 4
            &&& plan.arguments@[0]@ == "--pid"@
            &&& plan.arguments@[1]@ == text::decimal_text(peer_pid as nat)
            &&& plan.arguments@[2]@ == "--socket"@
            &&& plan.arguments@[3]@ == store.args.sandbox_socket@
        },
        r is Err ==> !r->Err_0.active && r->Err_0.error is Some,
{
    if r is Ok {
        let given = text::texts(r->Ok_0.arguments@);
        assert(given.len() == r->Ok_0.arguments@.len());
        assert(given[0] == "--pid"@);
        assert(given[1] == text::decimal_text(peer_pid as nat));
        assert(given[2] == "--socket"@);
        assert(given[3] == store.args.sandbox_socket@);
        assert(given[0] == r->Ok_0.arguments@[0]@);
        assert(given[1] == r->Ok_0.arguments@[1]@);
        assert(given[2] == r->Ok_0.arguments@[2]@);
        assert(given[3] == r->Ok_0.arguments@[3]@);
    }
}

/// A monitor is active exactly when it has come up; everything else is told as a failure with its
/// reason.
pub proof fn law_monitor_is_active_only_when_ready(
    outcome: &MonitorOutcome,
    r: FilesystemMonitorReply,
)
    requires
        call_ensures(filesystem::monitor_reply, (outcome,), r),
    ensures
        r.active <==> *outcome is Ready,
        r.error is None <==> *outcome is Ready,
{
}

/// The rules that a monitor starts with keep their uses and their number; only their paths are
/// written out in full.
pub proof fn law_started_rules_keep_their_uses<
    E: Fn(&String) -> String,
    C: Fn(&String) -> String,
>(
    rules: &Vec<FilesystemRule>,
    expand: &E,
    canonical: &C,
    r: Vec<FilesystemRule>,
    i: int,
)
    requires
        call_ensures(
            filesystem::expand_static_allow_rules::<E, C>,
            (rules, expand, canonical),
            r,
        ),
    ensures
        r@.len() == rules@.len(),
        0 <= i < rules@.len() ==> {
            &&& r@[i].access == rules@[i].access
            &&& r@[i].comment == rules@[i].comment
            &&& r@[i].path == text::answer(*canonical, text::answer(*expand, rules@[i].path))
        },
{
}

/// A UI is started for the user that asks, and never for root where another can be found: for
/// root and for nobody it is the home's user, and failing that the session's owner.
pub proof fn law_ui_is_started_for_the_user(
    store: &PolicyStore,
    wire_uid: Option<u32>,
    has_home: bool,
    home_user: Option<u32>,
    session: &Option<String>,
    first: Option<u32>,
    r: Option<u32>,
)
    requires
        call_ensures(filesystem::spawn_uid, (wire_uid, has_home, home_user), first),
        call_ensures(
            PolicyStore::filesystem_spawn_uid,
            (store, wire_uid, has_home, home_user, session),
            r,
        ),
    ensures
        wire_uid is Some && wire_uid->0 > 0 ==> first == wire_uid && r == wire_uid,
        (wire_uid is None || wire_uid->0 == 0) && has_home ==> first == home_user,
        !has_home ==> first == wire_uid,
        first is Some && first->0 > 0 ==> r == first,
        (first is None || first->0 == 0) && *session is Some && store.sandbox_sessions@.contains_key(
            session->0@,
        ) && store.sandbox_sessions@[session->0@].owner_uid > 0 ==> r == Some(
            store.sandbox_sessions@[session->0@].owner_uid,
        ),
{
}

/// A caller joins those who ask for the same path and access: they stay where they were, with the
/// caller behind them, and a new request is filed only where nobody asks for the same. Other
/// requests and their callers are untouched. A caller is turned away only for the numbers that
/// wait, and then nothing changes.
pub proof fn law_file_caller_joins_those_who_ask_the_same(
    store: &mut PolicyStore,
    path: &String,
    access: FileAccess,
    ctx: &ResolvedRequestContext,
    waiter: u64,
    fresh_id: String,
    created_at: u64,
    r: Result<PendingFsResult, FilesystemCheckReply>,
    other: Seq<char>,
)
    requires
        call_ensures(
            PolicyStore::dedup_or_create_pending_filesystem,
            (store, path, access, ctx, waiter, fresh_id, created_at),
            r,
        ),
    ensures
        match r {
            Ok(result) => {
                let id = result.id@;
                let before = old(store).waiters.filesystem@;
                let after = final(store).waiters.filesystem@;
                &&& after.contains_key(id)
                &&& final(store).pending@.contains_key(id)
                &&& asks_the_same(final(store).pending@[id], path@, access)
                &&& result.is_new ==> {
                    &&& id == fresh_id@
                    &&& after[id]@ == seq![waiter]
                    &&& old(store).pending@.contains_key(other) ==> !asks_the_same(
                        old(store).pending@[other],
                        path@,
                        access,
                    )
                }
                &&& !result.is_new ==> {
                    &&& after[id]@ == (if before.contains_key(id) {
                        before[id]@
                    } else {
                        Seq::empty()
                    }).push(waiter)
                    &&& final(store).pending@ == old(store).pending@
                }
                &&& other != id && before.contains_key(other) ==> after.contains_key(other)
                    && after[other]@ == before[other]@
                &&& other != id && old(store).pending@.contains_key(other)
                    ==> final(store).pending@.contains_key(other) && final(store).pending@[other]
                    == old(store).pending@[other]
            },
            Err(reply) => {
                &&& !reply.allowed
                &&& final(store).pending@ == old(store).pending@
                &&& final(store).filesystem_board() == old(store).filesystem_board()
                &&& {
                    ||| old(store).pending@.len() >= old(store).limits.pending_approvals
                    ||| old(store).limits.waiters_per_pending == 0
                    ||| exists|id: Seq<char>|
                        old(store).waiters.filesystem@.contains_key(id) && (
                        #[trigger] old(store).waiters.filesystem@[id])@.len()
                            >= old(store).limits.waiters_per_pending
                }
            },
        },
{
    let (b, a) = (old(store).filesystem_board(), final(store).filesystem_board());
    assert(a.waiters.dom() =~= final(store).waiters.filesystem@.dom());
    assert(b.waiters.dom() =~= old(store).waiters.filesystem@.dom());
    assert forall|id: Seq<char>| #[trigger] b.waits_for(id, path@, access) == (
    b.pending.contains_key(id) && asks_the_same(b.pending[id], path@, access)) by {}
    if exists|id: Seq<char>| #[trigger] b.waits_for(id, path@, access) {
        let id = choose|id: Seq<char>| #[trigger]
            b.waits_for(id, path@, access) && (if b.waiting(id)
                >= old(store).limits.waiters_per_pending {
                &&& r matches Err(reply)
                &&& reply.says_blocked(
                    "agent-sandbox: too many waiters for one filesystem approval"@,
                    *path,
                    access,
                )
                &&& a == b
            } else {
                &&& r matches Ok(result)
                &&& result.id@ == id
                &&& !result.is_new
                &&& a == b.joined(id, waiter)
            });
        if b.waiters.contains_key(id) {
            assert(b.waiters[id] == old(store).waiters.filesystem@[id]@);
        }
    } else {
        assert(!b.waits_for(other, path@, access));
    }
    if r is Ok {
        let id = r->Ok_0.id@;
        assert(a.waiters.contains_key(id));
        assert(a.waiters[id] == final(store).waiters.filesystem@[id]@);
        if b.waiters.contains_key(id) {
            assert(b.waiters[id] == old(store).waiters.filesystem@[id]@);
        }
        if other != id && b.waiters.contains_key(other) {
            assert(a.waiters.contains_key(other) && a.waiters[other] == b.waiters[other]);
            assert(a.waiters[other] == final(store).waiters.filesystem@[other]@);
            assert(b.waiters[other] == old(store).waiters.filesystem@[other]@);
        }
    }
}

} // verus!
