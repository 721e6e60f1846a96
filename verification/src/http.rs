//! HTTP decisions: evaluation, pending requests and their waiters.

use vstd::prelude::*;

use crate::error::proxy_error;
use crate::error::PolicydError;
use crate::flow::NetworkFlowKey;
use crate::flow::ProxyCheckId;
use crate::freeze::CgroupFreezeError;
use crate::proxy;
use crate::state;
use crate::state::HttpContextKey;
use crate::state::HttpPendingKey;
use crate::state::HttpPendingKeyView;
use crate::state::HttpScopeKey;
use crate::state::HttpState;
use crate::state::HttpWaiter;
use crate::state::Pending;
use crate::state::PendingHttp;
use crate::state::VerdictEntry;
use crate::store::PolicyStore;
use crate::table::Table;
use crate::text;
use crate::types::ApprovalScope;
use crate::types::HttpMethodMatcher;
use crate::types::HttpRequest;
use crate::types::HttpRule;
use crate::types::HttpRuleTarget;
use crate::types::Policy;
use crate::types::ResolvedRequestContext;
use crate::types::Verdict;
use crate::types::VerdictSource;
use crate::waiting;
use crate::waiting::WaitPhase;
use crate::waiting::WaitPoll;

verus! {

/// How long an HTTP verdict is remembered, in nanoseconds.
pub const HTTP_VERDICT_CACHE_TTL: u64 = 30_000_000_000;

/// Reply to an HTTP check.
#[derive(Debug, PartialEq, Eq)]
pub struct HttpCheckReply {
    pub allowed: bool,
    pub source: VerdictSource,
    pub request: Option<HttpRequest>,
    pub message: Option<String>,
}

impl HttpCheckReply {
    /// The reply says that the check was blocked, with the message.
    pub open spec fn says_blocked(self, message: Seq<char>) -> bool {
        &&& !self.allowed
        &&& self.source == VerdictSource::Blocked
        &&& self.request is None
        &&& text::opt_text(self.message) == Some(message)
    }

    /// The reply that carries a verdict on a request.
    pub open spec fn of_verdict(request: HttpRequest, verdict: Verdict) -> HttpCheckReply {
        HttpCheckReply {
            allowed: verdict.allowed,
            source: verdict.source,
            request: Some(request),
            message: None,
        }
    }

    pub fn blocked(message: &str) -> (r: Self)
        ensures
            r.says_blocked(message@),
    {
        HttpCheckReply {
            allowed: false,
            source: VerdictSource::Blocked,
            request: None,
            message: Some(message.to_owned()),
        }
    }

    pub fn from_verdict(request: HttpRequest, verdict: Verdict) -> (r: Self)
        ensures
            r == Self::of_verdict(request, verdict),
    {
        HttpCheckReply {
            allowed: verdict.allowed,
            source: verdict.source,
            request: Some(request),
            message: None,
        }
    }
}

/// The context that HTTP decisions of a request are bound to.
pub open spec fn context_of(ctx: ResolvedRequestContext) -> HttpContextKey {
    HttpContextKey {
        cwd: ctx.paths.cwd,
        home: ctx.paths.home,
        project_root: ctx.paths.project_root,
        sandbox_session_id: ctx.sandbox_session_id,
    }
}

/// The request in the context that its decisions are bound to.
pub open spec fn key_of(request: HttpRequest, ctx: ResolvedRequestContext) -> HttpPendingKey {
    HttpPendingKey { request, context: context_of(ctx) }
}

pub fn http_context(ctx: &ResolvedRequestContext) -> (r: HttpContextKey)
    ensures
        r == context_of(*ctx),
{
    HttpContextKey {
        cwd: text::copy_opt(&ctx.paths.cwd),
        home: text::copy_opt(&ctx.paths.home),
        project_root: text::copy_opt(&ctx.paths.project_root),
        sandbox_session_id: text::copy_opt(&ctx.sandbox_session_id),
    }
}

fn http_key(request: &HttpRequest, ctx: &ResolvedRequestContext) -> (r: HttpPendingKey)
    ensures
        r == key_of(*request, *ctx),
{
    HttpPendingKey { request: request.clone(), context: http_context(ctx) }
}

/// The target that names exactly the method and the URL of a request.
pub fn exact_http_target(request: &HttpRequest) -> (r: HttpRuleTarget)
    ensures
        r == (HttpRuleTarget {
            method: HttpMethodMatcher::Exact(request.method),
            url: request.url,
        }),
{
    HttpRuleTarget {
        method: HttpMethodMatcher::Exact(request.method.clone()),
        url: request.url.clone(),
    }
}

/// The first rule that matches.
pub open spec fn first_rule<M: Fn(&HttpRule) -> bool>(rules: Seq<HttpRule>, matches: M) -> Option<
    HttpRule,
>
    decreases rules.len(),
{
    if rules.len() == 0 {
        None
    } else if text::holds(matches, rules[0]) {
        Some(rules[0])
    } else {
        first_rule(rules.skip(1), matches)
    }
}

/// The verdict that the first matching rule gives.
pub open spec fn rule_verdict<M: Fn(&HttpRule) -> bool>(
    rules: Seq<HttpRule>,
    matches: M,
    allowed: bool,
) -> Option<Verdict> {
    match first_rule(rules, matches) {
        Some(rule) => Some(Verdict { allowed, source: VerdictSource::Policy(rule.comment) }),
        None => None,
    }
}

fn find_rule<M: Fn(&HttpRule) -> bool>(rules: &Vec<HttpRule>, matches: &M) -> (r: Option<
    VerdictSource,
>)
    requires
        text::decides(*matches),
    ensures
        match first_rule(rules@, *matches) {
            Some(rule) => r == Some(VerdictSource::Policy(rule.comment)),
            None => r is None,
        },
{
    let mut i: usize = 0;
    assert(rules@.skip(0) =~= rules@);
    while i < rules.len()
        invariant
            text::decides(*matches),
            i <= rules@.len(),
            first_rule(rules@, *matches) == first_rule(rules@.skip(i as int), *matches),
        decreases rules@.len() - i,
    {
        assert(rules@.skip(i as int)[0] == rules@[i as int]);
        if matches(&rules[i]) {
            return Some(VerdictSource::of_rule(&rules[i].comment));
        }
        assert(rules@.skip(i as int).skip(1) =~= rules@.skip(i + 1));
        i += 1;
    }
    None
}

/// What the policy's HTTP rules say of a request: its denial and its permission, if any.
/// `matches` tells whether a rule's target matches the request.
pub fn http_policy_verdicts<M: Fn(&HttpRule) -> bool>(policy: &Policy, matches: &M) -> (r: (
    Option<Verdict>,
    Option<Verdict>,
))
    requires
        text::decides(*matches),
    ensures
        r.0 == rule_verdict(policy.network.http.deny@, *matches, false),
        r.1 == rule_verdict(policy.network.http.allow@, *matches, true),
{
    let denied = match find_rule(&policy.network.http.deny, matches) {
        Some(source) => Some(Verdict::denied(source)),
        None => None,
    };
    let allowed = match find_rule(&policy.network.http.allow, matches) {
        Some(source) => Some(Verdict::allowed(source)),
        None => None,
    };
    (denied, allowed)
}

/// Some decision of the sessions covers the request in its context.
pub open spec fn session_covers<T: Fn(&HttpRuleTarget) -> bool>(
    rules: Map<Seq<char>, Vec<HttpScopeKey>>,
    sessions: Seq<String>,
    context: HttpContextKey,
    matches: T,
) -> bool {
    exists|i: int, j: int|
        #![trigger rules[sessions[i]@]@[j]]
        0 <= i < sessions.len() && rules.contains_key(sessions[i]@) && 0 <= j
            < rules[sessions[i]@]@.len() && rules[sessions[i]@]@[j].context@ == context@
            && text::holds(matches, rules[sessions[i]@]@[j].target)
}

fn session_rules_cover<T: Fn(&HttpRuleTarget) -> bool>(
    rules: &Table<String, Vec<HttpScopeKey>>,
    sessions: &Vec<String>,
    context: &HttpContextKey,
    matches: &T,
) -> (r: bool)
    requires
        rules.wf(),
        text::decides(*matches),
    ensures
        r == session_covers(rules@, sessions@, *context, *matches),
{
    let mut i: usize = 0;
    while i < sessions.len()
        invariant
            rules.wf(),
            text::decides(*matches),
            i <= sessions@.len(),
            forall|x: int, j: int|
                #![trigger rules@[sessions@[x]@]@[j]]
                !(0 <= x < i && rules@.contains_key(sessions@[x]@) && 0 <= j
                    < rules@[sessions@[x]@]@.len() && rules@[sessions@[x]@]@[j].context@
                    == context@ && text::holds(*matches, rules@[sessions@[x]@]@[j].target)),
        decreases sessions@.len() - i,
    {
        if let Some(bucket) = rules.get(&sessions[i]) {
            let mut j: usize = 0;
            while j < bucket.len()
                invariant
                    text::decides(*matches),
                    i < sessions@.len(),
                    rules@.contains_key(sessions@[i as int]@),
                    *bucket == rules@[sessions@[i as int]@],
                    j <= bucket@.len(),
                    forall|y: int|
                        0 <= y < j ==> !((#[trigger] bucket@[y]).context@ == context@
                            && text::holds(*matches, bucket@[y].target)),
                decreases bucket@.len() - j,
            {
                if bucket[j].context.same(context) && matches(&bucket[j].target) {
                    assert(rules@[sessions@[i as int]@]@[j as int].context@ == context@);
                    return true;
                }
                j += 1;
            }
        }
        i += 1;
    }
    false
}

/// A remembered verdict is still fresh.
pub open spec fn fresh(entry: VerdictEntry, now: u64, ttl: u64) -> bool {
    now - entry.time < ttl
}

/// Whether a remembered verdict is still fresh.
pub fn is_fresh(entry: &VerdictEntry, now: u64, ttl: u64) -> (r: bool)
    requires
        ttl > 0,
    ensures
        r == fresh(*entry, now, ttl),
{
    now <= entry.time || now - entry.time < ttl
}

/// What the decisions in force and the policy say of a request: denials first, then single-use
/// decisions, then the sessions' permissions, the remembered verdict and the policy's
/// permission.
pub open spec fn evaluated<
    M: Fn(&HttpRule) -> bool,
    T: Fn(&HttpRuleTarget) -> bool,
>(
    http: HttpState,
    policy: Policy,
    key: HttpPendingKey,
    sessions: Seq<String>,
    rule_matches: M,
    target_matches: T,
    now: u64,
) -> Option<Verdict> {
    let denied = rule_verdict(policy.network.http.deny@, rule_matches, false);
    if denied is Some {
        denied
    } else if session_covers(http.session_deny@, sessions, key.context, target_matches) {
        Some(
            Verdict { allowed: false, source: VerdictSource::Scope(ApprovalScope::Session) },
        )
    } else if http.once_deny@.contains_key(key@) {
        Some(Verdict { allowed: false, source: VerdictSource::User })
    } else if http.once_allow@.contains_key(key@) {
        Some(Verdict { allowed: true, source: VerdictSource::Scope(ApprovalScope::Once) })
    } else if session_covers(http.session_allow@, sessions, key.context, target_matches) {
        Some(
            Verdict { allowed: true, source: VerdictSource::Scope(ApprovalScope::Session) },
        )
    } else if http.verdict_cache@.contains_key(key@) && fresh(
        http.verdict_cache@[key@],
        now,
        HTTP_VERDICT_CACHE_TTL,
    ) {
        let entry = http.verdict_cache@[key@];
        Some(Verdict { allowed: entry.allowed, source: entry.source })
    } else {
        rule_verdict(policy.network.http.allow@, rule_matches, true)
    }
}

/// A single-use decision is used up exactly when it gave the verdict.
pub open spec fn once_used<
    M: Fn(&HttpRule) -> bool,
    T: Fn(&HttpRuleTarget) -> bool,
>(
    before: HttpState,
    after: HttpState,
    policy: Policy,
    key: HttpPendingKey,
    sessions: Seq<String>,
    rule_matches: M,
    target_matches: T,
) -> bool {
    let earlier = rule_verdict(policy.network.http.deny@, rule_matches, false) is Some
        || session_covers(before.session_deny@, sessions, key.context, target_matches);
    let deny_used = !earlier && before.once_deny@.contains_key(key@);
    let allow_used = !earlier && !deny_used && before.once_allow@.contains_key(key@);
    &&& after.once_deny@ == (if deny_used {
        before.once_deny@.remove(key@)
    } else {
        before.once_deny@
    })
    &&& after.once_allow@ == (if allow_used {
        before.once_allow@.remove(key@)
    } else {
        before.once_allow@
    })
    &&& after.futures == before.futures
    &&& after.waiters == before.waiters
    &&& after.session_allow == before.session_allow
    &&& after.session_deny == before.session_deny
    &&& after.verdict_cache == before.verdict_cache
}

/// The requests that wait, the checks that wait for them, and where each check waits.
#[verifier::ext_equal]
pub struct Board {
    pub pending: Map<Seq<char>, Pending>,
    pub futures: Map<Seq<char>, Seq<HttpWaiter>>,
    pub waiters: Map<ProxyCheckId, Seq<char>>,
}

/// The index of the check's first waiter.
pub open spec fn waiter_index(waiters: Seq<HttpWaiter>, check: ProxyCheckId) -> Option<int>
    decreases waiters.len(),
{
    if waiters.len() == 0 {
        None
    } else if waiters[0].check == check {
        Some(0)
    } else {
        match waiter_index(waiters.skip(1), check) {
            Some(i) => Some(i + 1),
            None => None,
        }
    }
}

proof fn lemma_waiter_index(waiters: Seq<HttpWaiter>, check: ProxyCheckId, i: int)
    requires
        0 <= i < waiters.len(),
        waiters[i].check == check,
        forall|j: int| 0 <= j < i ==> (#[trigger] waiters[j]).check != check,
    ensures
        waiter_index(waiters, check) == Some(i),
    decreases waiters.len(),
{
    if i > 0 {
        assert(waiters[0].check != check);
        let rest = waiters.skip(1);
        assert forall|j: int| 0 <= j < i - 1 implies (#[trigger] rest[j]).check != check by {
            assert(rest[j] == waiters[j + 1]);
        }
        lemma_waiter_index(rest, check, i - 1);
    }
}

proof fn lemma_no_waiter(waiters: Seq<HttpWaiter>, check: ProxyCheckId)
    requires
        forall|j: int| 0 <= j < waiters.len() ==> (#[trigger] waiters[j]).check != check,
    ensures
        waiter_index(waiters, check) is None,
    decreases waiters.len(),
{
    if waiters.len() > 0 {
        assert(waiters[0].check != check);
        let rest = waiters.skip(1);
        assert forall|j: int| 0 <= j < rest.len() implies (#[trigger] rest[j]).check != check by {
            assert(rest[j] == waiters[j + 1]);
        }
        lemma_no_waiter(rest, check);
    }
}

/// The request of the pending approval, in its context, is the given one.
pub open spec fn same_request(pending: Pending, key: HttpPendingKeyView) -> bool {
    pending matches Pending::Http(p) && p.request@ == key.request && p.context@ == key.context
}

impl Board {
    /// The board once a check no longer waits, and the waiter that left. A request that nobody
    /// waits for any more leaves too.
    pub open spec fn without_waiter(self, check: ProxyCheckId) -> (Option<HttpWaiter>, Board) {
        if !self.waiters.contains_key(check) {
            (None, self)
        } else {
            let id = self.waiters[check];
            let rest = Board { waiters: self.waiters.remove(check), ..self };
            if !self.futures.contains_key(id) {
                (None, rest)
            } else {
                match waiter_index(self.futures[id], check) {
                    None => (None, rest),
                    Some(i) => {
                        let left = self.futures[id].remove(i);
                        (
                            Some(self.futures[id][i]),
                            if left.len() == 0 {
                                Board {
                                    futures: self.futures.remove(id),
                                    pending: self.pending.remove(id),
                                    ..rest
                                }
                            } else {
                                Board { futures: self.futures.insert(id, left), ..rest }
                            },
                        )
                    },
                }
            }
        }
    }

    /// The board once a waiter has joined the request with the id.
    pub open spec fn joined(self, id: Seq<char>, waiter: HttpWaiter) -> Board {
        Board {
            futures: self.futures.insert(
                id,
                (if self.futures.contains_key(id) {
                    self.futures[id]
                } else {
                    Seq::empty()
                }).push(waiter),
            ),
            waiters: self.waiters.insert(waiter.check, id),
            ..self
        }
    }

    /// The id names a pending request that equals the given one.
    pub open spec fn waits_for(self, id: Seq<char>, key: HttpPendingKeyView) -> bool {
        self.pending.contains_key(id) && same_request(self.pending[id], key)
    }

    /// How many checks wait for the request with the id.
    pub open spec fn waiting(self, id: Seq<char>) -> nat {
        if self.futures.contains_key(id) {
            self.futures[id].len()
        } else {
            0
        }
    }
}

impl PolicyStore {
    /// The HTTP requests that wait.
    pub open spec fn board(&self) -> Board {
        Board {
            pending: self.pending@,
            futures: self.http.futures@.map_values(|v: Vec<HttpWaiter>| v@),
            waiters: self.http.waiters@.map_values(|s: String| s@),
        }
    }

    /// Only the HTTP requests that wait differ.
    pub open spec fn board_changed(&self, before: &PolicyStore) -> bool {
        *self == (PolicyStore {
            pending: self.pending,
            http: HttpState {
                futures: self.http.futures,
                waiters: self.http.waiters,
                ..before.http
            },
            ..*before
        })
    }
}

/// What may happen while a check waits for an HTTP decision.
#[derive(Debug, PartialEq, Eq)]
pub enum HttpWaitEvent {
    /// The check looks whether a policy UI is there.
    Look { has_ui: bool },
    /// The decision came.
    Answered(HttpCheckReply),
    /// Nobody can answer any more.
    Abandoned,
    /// The check was cancelled.
    Cancelled,
}

/// What a check that waits for an HTTP decision is to do next.
#[derive(Debug, PartialEq, Eq)]
pub enum HttpWaitStep {
    /// Wait on for so long, in the given phase.
    Wait { duration: u64, phase: WaitPhase },
    /// Answer.
    Done(HttpCheckReply),
}

/// What the caller of an HTTP approval is to do next.
#[derive(Debug, PartialEq, Eq)]
pub enum HttpStart {
    /// Answer at once.
    Reply(HttpCheckReply),
    /// Freeze the sandbox of the process, then wait for a decision.
    Freeze { pid: u32, uid: Option<u32> },
}

/// A pending request that a check waits for.
#[derive(Debug, PartialEq, Eq)]
pub struct PendingResult {
    pub id: String,
    pub is_new: bool,
}

/// The reply where the sandbox could not be frozen.
pub fn http_freeze_refused(error: &CgroupFreezeError) -> (r: HttpCheckReply)
    ensures
        r.says_blocked(
            "agent-sandbox: cannot freeze sandbox for HTTP approval: "@ + error@.described(),
        ),
{
    HttpCheckReply::blocked(
        text::join2(
            "agent-sandbox: cannot freeze sandbox for HTTP approval: ",
            error.message().as_str(),
        ).as_str(),
    )
}

/// Joining or filing a request comes to the result.
pub open spec fn request_joined_or_filed(
    board: Board,
    after: Board,
    waiter: HttpWaiter,
    request: HttpRequest,
    ctx: ResolvedRequestContext,
    fresh_id: String,
    created_at: u64,
    waiter_limit: usize,
    pending_limit: usize,
    r: Result<PendingResult, PolicydError>,
) -> bool {
    let key = key_of(request, ctx);
    if board.waiters.contains_key(waiter.check) {
        &&& proxy::refused(r, Some("duplicate in-flight HTTP request ID"@))
        &&& after == board
    } else if exists|id: Seq<char>| #[trigger] board.waits_for(id, key@) {
        exists|id: Seq<char>| #[trigger]
            board.waits_for(id, key@) && (if board.waiting(id)
                >= waiter_limit {
                &&& proxy::refused(
                    r,
                    Some("too many waiters for one HTTP approval"@),
                )
                &&& after == board
            } else {
                &&& r matches Ok(result)
                &&& result.id@ == id
                &&& !result.is_new
                &&& after == board.joined(id, waiter)
            })
    } else if board.pending.len() >= pending_limit {
        &&& proxy::refused(r, Some("too many pending approvals"@))
        &&& after == board
    } else {
        &&& r == Ok::<_, PolicydError>(PendingResult { id: fresh_id, is_new: true })
        &&& after == (Board {
            pending: board.pending.insert(
                fresh_id@,
                Pending::Http(
                    PendingHttp {
                        id: fresh_id,
                        created_at,
                        request: request,
                        context: context_of(ctx),
                    },
                ),
            ),
            futures: board.futures.insert(fresh_id@, Seq::empty()),
            ..board
        }).joined(fresh_id@, waiter)
    }
}

/// A caller that waited for an HTTP decision, and what it is told.
#[derive(Debug, PartialEq, Eq)]
pub struct HttpTold {
    pub waiter: u64,
    pub reply: HttpCheckReply,
}

/// The waiter that left, if one did, is told that its check was cancelled; nobody else is.
pub open spec fn told_cancelled(left: Option<HttpWaiter>, told: Option<HttpTold>) -> bool {
    match (left, told) {
        (Some(waiter), Some(t)) => {
            &&& t.waiter == waiter.waiter
            &&& t.reply.says_blocked("agent-sandbox: HTTP check cancelled"@)
        },
        (None, None) => true,
        _ => false,
    }
}

/// What a caller whose check was cancelled is told.
pub fn tell_cancelled(waiter: Option<u64>) -> (r: Option<HttpTold>)
    ensures
        match (waiter, r) {
            (Some(w), Some(t)) => {
                &&& t.waiter == w
                &&& t.reply.says_blocked("agent-sandbox: HTTP check cancelled"@)
            },
            (None, None) => true,
            _ => false,
        },
{
    match waiter {
        Some(waiter) => {
            let reply = HttpCheckReply::blocked("agent-sandbox: HTTP check cancelled");
            Some(HttpTold { waiter, reply })
        },
        None => None,
    }
}

/// What came of a decision on a pending HTTP request.
#[derive(Debug, PartialEq, Eq)]
pub struct HttpFinish {
    /// Whether some check was still waiting for the decision.
    pub decided: bool,
    /// Callers that were no longer live.
    pub expired: Vec<u64>,
    /// What those callers are told.
    pub expiry: HttpCheckReply,
    /// Callers to give the reply to.
    pub answered: Vec<u64>,
    /// The reply, where some check was still waiting.
    pub reply: Option<HttpCheckReply>,
}

/// The check still waits: its caller listens, its session is open and its flow is claimed.
pub open spec fn live<C: Fn(&u64) -> bool>(
    store: PolicyStore,
    waiter: HttpWaiter,
    closed: C,
) -> bool {
    &&& !text::holds(closed, waiter.waiter)
    &&& store.proxy.session_is(waiter.check.session)
    &&& proxy::has_claim(store.proxy.flows@, waiter.attribution_token)
}

/// The callers of those waiters that are live, or of those that are not, in order.
pub open spec fn callers<C: Fn(&u64) -> bool>(
    store: PolicyStore,
    waiters: Seq<HttpWaiter>,
    closed: C,
    alive: bool,
) -> Seq<u64>
    decreases waiters.len(),
{
    if waiters.len() == 0 {
        Seq::empty()
    } else {
        let front = callers(store, waiters.drop_last(), closed, alive);
        if live(store, waiters.last(), closed) == alive {
            front.push(waiters.last().waiter)
        } else {
            front
        }
    }
}

/// The checks of the waiters.
pub open spec fn checks(waiters: Seq<HttpWaiter>) -> Set<ProxyCheckId> {
    waiters.map_values(|w: HttpWaiter| w.check).to_set()
}

pub proof fn lemma_checks_step(waiters: Seq<HttpWaiter>, i: int)
    requires
        0 <= i < waiters.len(),
    ensures
        checks(waiters.take(i + 1)) == checks(waiters.take(i)).insert(waiters[i].check),
{
    let f = |w: HttpWaiter| w.check;
    let s = waiters.take(i).map_values(f);
    let t = waiters.take(i + 1).map_values(f);
    assert forall|c: ProxyCheckId| t.to_set().contains(c) == s.to_set().insert(
        waiters[i].check,
    ).contains(c) by {
        if t.contains(c) {
            let x = choose|x: int| 0 <= x < t.len() && t[x] == c;
            if x < i {
                assert(s[x] == c);
            }
        }
        if s.contains(c) {
            let x = choose|x: int| 0 <= x < s.len() && s[x] == c;
            assert(t[x] == c);
        }
        if c == waiters[i].check {
            assert(t[i] == c);
        }
    }
    assert(checks(waiters.take(i + 1)) =~= checks(waiters.take(i)).insert(waiters[i].check));
}

impl PolicyStore {
    /// Evaluate a request against the policy and the decisions in force. `rule_matches` and
    /// `target_matches` tell whether a rule, or a decision's target, matches the request.
    pub fn evaluate_http<M: Fn(&HttpRule) -> bool, T: Fn(&HttpRuleTarget) -> bool>(
        &mut self,
        request: &HttpRequest,
        ctx: &ResolvedRequestContext,
        policy: &Policy,
        sessions: &Vec<String>,
        rule_matches: &M,
        target_matches: &T,
        now: u64,
    ) -> (r: Option<Verdict>)
        requires
            old(self).wf(),
            text::decides(*rule_matches),
            text::decides(*target_matches),
        ensures
            final(self).wf(),
            final(self).configured_as(old(self)),
            *final(self) == (PolicyStore { http: final(self).http, ..*old(self) }),
            r == evaluated(
                old(self).http,
                *policy,
                key_of(*request, *ctx),
                sessions@,
                *rule_matches,
                *target_matches,
                now,
            ),
            once_used(
                old(self).http,
                final(self).http,
                *policy,
                key_of(*request, *ctx),
                sessions@,
                *rule_matches,
                *target_matches,
            ),
    {
        let (policy_deny, policy_allow) = http_policy_verdicts(policy, rule_matches);
        if policy_deny.is_some() {
            return policy_deny;
        }
        let key = http_key(request, ctx);
        if session_rules_cover(&self.http.session_deny, sessions, &key.context, target_matches) {
            return Some(Verdict::denied(VerdictSource::Scope(ApprovalScope::Session)));
        }
        if self.http.once_deny.contains(&key) {
            let _ = self.http.once_deny.remove(&key);
            return Some(Verdict::denied(VerdictSource::User));
        }
        if self.http.once_allow.contains(&key) {
            let _ = self.http.once_allow.remove(&key);
            return Some(Verdict::allowed(VerdictSource::Scope(ApprovalScope::Once)));
        }
        if session_rules_cover(&self.http.session_allow, sessions, &key.context, target_matches) {
            return Some(Verdict::allowed(VerdictSource::Scope(ApprovalScope::Session)));
        }
        if let Some(entry) = self.http.verdict_cache.get(&key) {
            if is_fresh(entry, now, HTTP_VERDICT_CACHE_TTL) {
                return Some(Verdict { allowed: entry.allowed, source: entry.source.clone() });
            }
        }
        policy_allow
    }

    /// Answer an HTTP check from the decisions in force, or say which sandbox to freeze while a
    /// decision is awaited.
    pub fn request_http_approval<M: Fn(&HttpRule) -> bool, T: Fn(&HttpRuleTarget) -> bool>(
        &mut self,
        request: &HttpRequest,
        ctx: &ResolvedRequestContext,
        policy: &Policy,
        sessions: &Vec<String>,
        rule_matches: &M,
        target_matches: &T,
        now: u64,
    ) -> (r: HttpStart)
        requires
            old(self).wf(),
            text::decides(*rule_matches),
            text::decides(*target_matches),
        ensures
            final(self).wf(),
            final(self).configured_as(old(self)),
            *final(self) == (PolicyStore { http: final(self).http, ..*old(self) }),
            once_used(
                old(self).http,
                final(self).http,
                *policy,
                key_of(*request, *ctx),
                sessions@,
                *rule_matches,
                *target_matches,
            ),
            match evaluated(
                old(self).http,
                *policy,
                key_of(*request, *ctx),
                sessions@,
                *rule_matches,
                *target_matches,
                now,
            ) {
                Some(verdict) => r == HttpStart::Reply(
                    HttpCheckReply::of_verdict(*request, verdict),
                ),
                None => if !old(self).args.interactive_approval {
                    &&& r matches HttpStart::Reply(reply)
                    &&& reply.says_blocked("agent-sandbox: HTTP approval is disabled"@)
                } else {
                    match ctx.ids.pid {
                        None => {
                            &&& r matches HttpStart::Reply(reply)
                            &&& reply.says_blocked(
                                "agent-sandbox: cannot identify sandbox process for HTTP approval"@,
                            )
                        },
                        Some(pid) => r == (HttpStart::Freeze { pid, uid: ctx.ids.uid }),
                    }
                },
            },
    {
        let verdict = self.evaluate_http(
            request,
            ctx,
            policy,
            sessions,
            rule_matches,
            target_matches,
            now,
        );
        if let Some(verdict) = verdict {
            return HttpStart::Reply(HttpCheckReply::from_verdict(request.clone(), verdict));
        }
        if !self.args.interactive_approval {
            return HttpStart::Reply(
                HttpCheckReply::blocked("agent-sandbox: HTTP approval is disabled"),
            );
        }
        match ctx.ids.pid {
            None => HttpStart::Reply(
                HttpCheckReply::blocked(
                    "agent-sandbox: cannot identify sandbox process for HTTP approval",
                ),
            ),
            Some(pid) => HttpStart::Freeze { pid, uid: ctx.ids.uid },
        }
    }

    fn find_http_pending(&self, key: &HttpPendingKey) -> (r: Option<String>)
        requires
            self.wf(),
        ensures
            match r {
                Some(id) => self.board().waits_for(id@, key@),
                None => forall|id: Seq<char>| !(#[trigger] self.board().waits_for(id, key@)),
            },
    {
        let mut i: usize = 0;
        while i < self.pending.entries.len()
            invariant
                self.wf(),
                i <= self.pending.entries@.len(),
                forall|j: int|
                    0 <= j < i ==> !same_request((#[trigger] self.pending.entries@[j]).1, key@),
            decreases self.pending.entries@.len() - i,
        {
            if let Pending::Http(p) = &self.pending.entries[i].1 {
                if p.request.method == key.request.method && p.request.url == key.request.url
                    && p.context.same(&key.context) {
                    proof {
                        self.pending.lemma_entry(i as int);
                        assert(same_request(self.pending.entries@[i as int].1, key@));
                        assert(self.board().waits_for(self.pending.entries@[i as int].0@, key@));
                    }
                    return Some(self.pending.entries[i].0.clone());
                }
                assert(!same_request(self.pending.entries@[i as int].1, key@));
            }
            i += 1;
        }
        proof {
            assert forall|id: Seq<char>| !(#[trigger] self.board().waits_for(id, key@)) by {
                if self.pending@.contains_key(id) {
                    let j = self.pending.lemma_key(id);
                    assert(!same_request(self.pending.entries@[j].1, key@));
                }
            }
        }
        None
    }

    fn join_http(&mut self, id: &String, waiter: HttpWaiter)
        requires
            old(self).wf(),
        ensures
            final(self).wf(),
            final(self).board_changed(old(self)),
            final(self).board() == old(self).board().joined(id@, waiter),
    {
        let ghost before = self.board();
        let waiters = match self.http.futures.remove(id) {
            Some(waiters) => waiters,
            None => Vec::new(),
        };
        let ghost seen = waiters@;
        let mut waiters = waiters;
        waiters.push(waiter);
        let _ = self.http.futures.insert(id.clone(), waiters);
        let _ = self.http.waiters.insert(waiter.check, id.clone());
        proof {
            let goal = before.joined(id@, waiter);
            assert(waiters@ == seen.push(waiter));
            assert(before.futures.contains_key(id@) ==> seen == before.futures[id@]);
            assert(self.board().futures =~= goal.futures);
            assert(self.board().waiters =~= goal.waiters);
            assert(self.board() =~= goal);
        }
    }

    /// Have a check wait for a request, joining the checks that already wait for it. `fresh_id`
    /// names the request where it is new.
    pub fn dedup_or_create_http(
        &mut self,
        waiter: HttpWaiter,
        request: &HttpRequest,
        ctx: &ResolvedRequestContext,
        fresh_id: String,
        created_at: u64,
    ) -> (r: Result<PendingResult, PolicydError>)
        requires
            old(self).wf(),
        ensures
            final(self).wf(),
            final(self).configured_as(old(self)),
            final(self).board_changed(old(self)),
            request_joined_or_filed(
                old(self).board(),
                final(self).board(),
                waiter,
                *request,
                *ctx,
                fresh_id,
                created_at,
                old(self).limits.waiters_per_pending,
                old(self).limits.pending_approvals,
                r,
            ),
    {
        let ghost board = self.board();
        let key = http_key(request, ctx);
        if self.http.waiters.contains(&waiter.check) {
            return Err(proxy_error("duplicate in-flight HTTP request ID"));
        }
        match self.find_http_pending(&key) {
            Some(id) => {
                assert(board.waits_for(id@, key@));
                let waiting: usize = match self.http.futures.get(&id) {
                    Some(waiters) => waiters.len(),
                    None => 0,
                };
                if waiting >= self.limits.waiters_per_pending {
                    return Err(proxy_error("too many waiters for one HTTP approval"));
                }
                self.join_http(&id, waiter);
                Ok(PendingResult { id, is_new: false })
            },
            None => {
                if self.pending.len() >= self.limits.pending_approvals {
                    return Err(proxy_error("too many pending approvals"));
                }
                let _ = self.pending.insert(
                    fresh_id.clone(),
                    Pending::Http(
                        PendingHttp {
                            id: fresh_id.clone(),
                            created_at,
                            request: request.clone(),
                            context: key.context,
                        },
                    ),
                );
                let _ = self.http.futures.insert(fresh_id.clone(), Vec::new());
                proof {
                    assert(self.board().futures =~= board.futures.insert(
                        fresh_id@,
                        Seq::empty(),
                    ));
                }
                self.join_http(&fresh_id, waiter);
                Ok(PendingResult { id: fresh_id, is_new: true })
            },
        }
    }

    /// Take a check off the request that it waits for; returns the caller that waited.
    pub fn remove_http_waiter(&mut self, check: ProxyCheckId) -> (r: Option<u64>)
        requires
            old(self).wf(),
        ensures
            final(self).wf(),
            final(self).configured_as(old(self)),
            final(self).board_changed(old(self)),
            final(self).board() == old(self).board().without_waiter(check).1,
            r == (match old(self).board().without_waiter(check).0 {
                Some(waiter) => Some(waiter.waiter),
                None => None,
            }),
    {
        let ghost board = self.board();
        let ghost goal = board.without_waiter(check).1;
        let id = match self.http.waiters.remove(&check) {
            Some(id) => id,
            None => {
                proof {
                    assert(self.board() =~= board);
                }
                return None;
            },
        };
        proof {
            assert(board.waiters[check] == id@);
            assert(self.board().waiters =~= board.waiters.remove(check));
        }
        let waiters = match self.http.futures.remove(&id) {
            Some(waiters) => waiters,
            None => {
                proof {
                    assert(self.board().futures =~= board.futures);
                    assert(self.board() =~= goal);
                }
                return None;
            },
        };
        let mut waiters = waiters;
        let ghost seen = waiters@;
        assert(board.futures[id@] == seen);
        let mut i: usize = 0;
        while i < waiters.len() && waiters[i].check != check
            invariant
                i <= waiters@.len(),
                forall|j: int| 0 <= j < i ==> (#[trigger] waiters@[j]).check != check,
            decreases waiters@.len() - i,
        {
            i += 1;
        }
        if i == waiters.len() {
            let _ = self.http.futures.insert(id, waiters);
            proof {
                lemma_no_waiter(seen, check);
                assert(self.board().futures =~= board.futures);
                assert(self.board() =~= goal);
            }
            return None;
        }
        proof {
            lemma_waiter_index(seen, check, i as int);
        }
        let left = waiters.remove(i);
        if waiters.len() == 0 {
            let _ = self.pending.remove(&id);
            proof {
                assert(self.board().futures =~= goal.futures);
                assert(self.board() =~= goal);
            }
        } else {
            let _ = self.http.futures.insert(id, waiters);
            proof {
                assert(self.board().futures =~= goal.futures);
                assert(self.board() =~= goal);
            }
        }
        Some(left.waiter)
    }

    /// Cancel exactly one waiting check of the open session; returns what its caller is told.
    pub fn cancel_http_check(&mut self, check: ProxyCheckId) -> (r: Result<
        Option<HttpTold>,
        PolicydError,
    >)
        requires
            old(self).wf(),
        ensures
            final(self).wf(),
            final(self).configured_as(old(self)),
            final(self).board_changed(old(self)),
            if old(self).proxy.session_is(check.session) {
                &&& r matches Ok(told)
                &&& told_cancelled(old(self).board().without_waiter(check).0, told)
                &&& final(self).board() == old(self).board().without_waiter(check).1
            } else {
                &&& proxy::refused(r, Some("proxy session is not active"@))
                &&& final(self).board() == old(self).board()
            },
    {
        let active = match &self.proxy.session {
            Some(session) => session.token == check.session,
            None => false,
        };
        if !active {
            return Err(proxy_error("proxy session is not active"));
        }
        let left = self.remove_http_waiter(check);
        Ok(tell_cancelled(left))
    }

    /// One step of a check that waits for an HTTP decision.
    pub fn await_http_verdict(
        &mut self,
        check: ProxyCheckId,
        phase: WaitPhase,
        event: HttpWaitEvent,
        now: u64,
    ) -> (r: HttpWaitStep)
        requires
            old(self).wf(),
            now + old(self).args.approval_timeout <= u64::MAX,
        ensures
            final(self).wf(),
            final(self).configured_as(old(self)),
            match event {
                HttpWaitEvent::Answered(reply) => {
                    &&& r == HttpWaitStep::Done(reply)
                    &&& *final(self) == *old(self)
                },
                HttpWaitEvent::Abandoned => {
                    &&& r matches HttpWaitStep::Done(reply)
                    &&& reply.says_blocked("agent-sandbox: HTTP approval waiter closed"@)
                    &&& *final(self) == *old(self)
                },
                HttpWaitEvent::Cancelled => {
                    &&& r matches HttpWaitStep::Done(reply)
                    &&& reply.says_blocked("agent-sandbox: HTTP check cancelled"@)
                    &&& final(self).board_changed(old(self))
                    &&& final(self).board() == if old(self).proxy.session_is(check.session) {
                        old(self).board().without_waiter(check).1
                    } else {
                        old(self).board()
                    }
                },
                HttpWaitEvent::Look { has_ui } => {
                    let seen = waiting::looked(
                        phase,
                        now,
                        has_ui,
                        old(self).args.approval_timeout,
                    );
                    match seen.0 {
                        WaitPoll::Sleep(duration) => {
                            &&& r == (HttpWaitStep::Wait { duration, phase: seen.1 })
                            &&& *final(self) == *old(self)
                        },
                        WaitPoll::Await(duration) => {
                            &&& r == (HttpWaitStep::Wait { duration, phase: seen.1 })
                            &&& *final(self) == *old(self)
                        },
                        WaitPoll::NoUi => {
                            &&& r matches HttpWaitStep::Done(reply)
                            &&& reply.says_blocked("agent-sandbox: no policy UI registered"@)
                            &&& final(self).board_changed(old(self))
                            &&& final(self).board() == old(self).board().without_waiter(check).1
                        },
                        WaitPoll::TimedOut => {
                            &&& r matches HttpWaitStep::Done(reply)
                            &&& reply.says_blocked("agent-sandbox: HTTP approval timed out"@)
                            &&& final(self).board_changed(old(self))
                            &&& final(self).board() == old(self).board().without_waiter(check).1
                        },
                    }
                },
            },
    {
        match event {
            HttpWaitEvent::Answered(reply) => HttpWaitStep::Done(reply),
            HttpWaitEvent::Abandoned => HttpWaitStep::Done(
                HttpCheckReply::blocked("agent-sandbox: HTTP approval waiter closed"),
            ),
            HttpWaitEvent::Cancelled => {
                let _ = self.cancel_http_check(check);
                HttpWaitStep::Done(HttpCheckReply::blocked("agent-sandbox: HTTP check cancelled"))
            },
            HttpWaitEvent::Look { has_ui } => {
                let (poll, next) = waiting::look(phase, now, has_ui, self.args.approval_timeout);
                match poll {
                    WaitPoll::Sleep(duration) => HttpWaitStep::Wait { duration, phase: next },
                    WaitPoll::Await(duration) => HttpWaitStep::Wait { duration, phase: next },
                    WaitPoll::NoUi => {
                        let _ = self.remove_http_waiter(check);
                        HttpWaitStep::Done(
                            HttpCheckReply::blocked("agent-sandbox: no policy UI registered"),
                        )
                    },
                    WaitPoll::TimedOut => {
                        let _ = self.remove_http_waiter(check);
                        HttpWaitStep::Done(
                            HttpCheckReply::blocked("agent-sandbox: HTTP approval timed out"),
                        )
                    },
                }
            },
        }
    }

    fn http_waiter_is_live<C: Fn(&u64) -> bool>(&self, waiter: &HttpWaiter, closed: &C) -> (r: bool)
        requires
            self.wf(),
            text::decides(*closed),
        ensures
            r == live(*self, *waiter, *closed),
    {
        if closed(&waiter.waiter) {
            return false;
        }
        let active = match &self.proxy.session {
            Some(session) => session.token == waiter.check.session,
            None => false,
        };
        if !active {
            return false;
        }
        let mut i: usize = 0;
        while i < self.proxy.flows.entries.len()
            invariant
                self.wf(),
                !text::holds(*closed, waiter.waiter),
                self.proxy.session_is(waiter.check.session),
                i <= self.proxy.flows.entries@.len(),
                forall|j: int|
                    0 <= j < i ==> (#[trigger] self.proxy.flows.entries@[j]).1.attribution_token
                        != Some(waiter.attribution_token),
            decreases self.proxy.flows.entries@.len() - i,
        {
            proof {
                self.proxy.flows.lemma_entry(i as int);
                assert(state::flow_consistent(
                    self.proxy.flows.entries@[i as int].0,
                    self.proxy.flows.entries@[i as int].1,
                ));
            }
            if self.proxy.flows.entries[i].1.connection_id.is_some() {
                if let Some(token) = self.proxy.flows.entries[i].1.attribution_token {
                    if token == waiter.attribution_token {
                        assert(proxy::claim_is(
                            self.proxy.flows@,
                            waiter.attribution_token,
                            self.proxy.flows.entries@[i as int].0,
                        ));
                        return true;
                    }
                }
            }
            i += 1;
        }
        proof {
            assert forall|key: NetworkFlowKey|
                !(#[trigger] proxy::claim_is(
                    self.proxy.flows@,
                    waiter.attribution_token,
                    key,
                )) by {
                if self.proxy.flows@.contains_key(key) {
                    let j = self.proxy.flows.lemma_key(key);
                    assert(self.proxy.flows.entries@[j].1.attribution_token != Some(
                        waiter.attribution_token,
                    ));
                }
            }
        }
        false
    }

    /// Give the waiting checks of a pending request their verdict. `closed` tells which callers
    /// no longer listen. A caller that is no longer live is told that its flow expired. A decision
    /// that is not single-use is remembered for a while.
    pub fn finish_http<C: Fn(&u64) -> bool>(
        &mut self,
        pending_id: &String,
        allowed: bool,
        source: VerdictSource,
        once: bool,
        closed: C,
        now: u64,
    ) -> (r: HttpFinish)
        requires
            old(self).wf(),
            text::decides(closed),
        ensures
            final(self).wf(),
            final(self).configured_as(old(self)),
            *final(self) == (PolicyStore {
                pending: final(self).pending,
                http: HttpState {
                    futures: final(self).http.futures,
                    waiters: final(self).http.waiters,
                    verdict_cache: final(self).http.verdict_cache,
                    ..old(self).http
                },
                ..*old(self)
            }),
            r.expiry.says_blocked("agent-sandbox: HTTP flow expired"@),
            ({
                let board = old(self).board();
                let id = pending_id@;
                if !(board.pending.contains_key(id) && board.pending[id] is Http) {
                    &&& !r.decided
                    &&& r.expired@.len() == 0
                    &&& r.answered@.len() == 0
                    &&& r.reply is None
                    &&& final(self).board() == (Board { pending: board.pending.remove(id), ..board })
                    &&& final(self).http.verdict_cache == old(self).http.verdict_cache
                } else {
                    let pending = board.pending[id]->Http_0;
                    let waiters = if board.futures.contains_key(id) {
                        board.futures[id]
                    } else {
                        Seq::empty()
                    };
                    &&& r.expired@ == callers(*old(self), waiters, closed, false)
                    &&& r.answered@ == callers(*old(self), waiters, closed, true)
                    &&& r.decided == (r.answered@.len() > 0)
                    &&& final(self).board() == (Board {
                        pending: board.pending.remove(id),
                        futures: board.futures.remove(id),
                        waiters: board.waiters.remove_keys(checks(waiters)),
                    })
                    &&& r.reply == (if r.decided {
                        Some(
                            HttpCheckReply::of_verdict(
                                pending.request,
                                Verdict { allowed, source },
                            ),
                        )
                    } else {
                        None
                    })
                    &&& if r.decided && !once {
                        state::newest_kept(
                            old(self).http.verdict_cache@.insert(
                                (HttpPendingKey {
                                    request: pending.request,
                                    context: pending.context,
                                })@,
                                VerdictEntry { allowed, source, time: now },
                            ),
                            final(self).http.verdict_cache@,
                            old(self).limits.verdict_cache as nat,
                        )
                    } else {
                        final(self).http.verdict_cache == old(self).http.verdict_cache
                    }
                }
            }),
    {
        let ghost start = *old(self);
        let ghost board = self.board();
        let ghost id = pending_id@;
        let expiry = HttpCheckReply::blocked("agent-sandbox: HTTP flow expired");
        let pending = match self.pending.remove(pending_id) {
            Some(Pending::Http(pending)) => pending,
            _ => {
                proof {
                    assert(self.board() =~= (Board { pending: board.pending.remove(id), ..board }));
                }
                return HttpFinish {
                    decided: false,
                    expired: Vec::new(),
                    expiry,
                    answered: Vec::new(),
                    reply: None,
                };
            },
        };
        let waiters = match self.http.futures.remove(pending_id) {
            Some(waiters) => waiters,
            None => Vec::new(),
        };
        proof {
            assert(self.board().futures =~= board.futures.remove(id));
            assert(waiters@ == (if board.futures.contains_key(id) {
                board.futures[id]
            } else {
                Seq::empty()
            }));
        }
        let mut expired: Vec<u64> = Vec::new();
        let mut answered: Vec<u64> = Vec::new();
        let ghost ws = waiters@;
        let mut i: usize = 0;
        proof {
            assert(ws.take(0) =~= Seq::empty());
            assert(checks(ws.take(0)) =~= Set::empty());
            assert(self.board().waiters =~= board.waiters.remove_keys(checks(ws.take(0))));
        }
        while i < waiters.len()
            invariant
                start.wf(),
                self.wf(),
                text::decides(closed),
                i <= waiters@.len(),
                ws == waiters@,
                *self == (PolicyStore {
                    pending: self.pending,
                    http: HttpState {
                        futures: self.http.futures,
                        waiters: self.http.waiters,
                        ..start.http
                    },
                    ..start
                }),
                self.board() == (Board {
                    pending: board.pending.remove(id),
                    futures: board.futures.remove(id),
                    waiters: board.waiters.remove_keys(checks(ws.take(i as int))),
                }),
                expired@ == callers(start, ws.take(i as int), closed, false),
                answered@ == callers(start, ws.take(i as int), closed, true),
            decreases waiters@.len() - i,
        {
            let waiter = waiters[i];
            let alive = self.http_waiter_is_live(&waiter, &closed);
            let ghost mid = self.board();
            let _ = self.http.waiters.remove(&waiter.check);
            proof {
                assert(alive == live(start, waiter, closed));
                assert(ws.take(i + 1).drop_last() =~= ws.take(i as int));
                assert(ws.take(i + 1).last() == waiter);
                lemma_checks_step(ws, i as int);
                assert(self.board().waiters =~= mid.waiters.remove(waiter.check));
                assert(self.board().waiters =~= board.waiters.remove_keys(checks(ws.take(i + 1))));
            }
            if alive {
                answered.push(waiter.waiter);
            } else {
                expired.push(waiter.waiter);
            }
            i += 1;
        }
        assert(ws.take(ws.len() as int) =~= ws);
        if answered.len() == 0 {
            return HttpFinish { decided: false, expired, expiry, answered, reply: None };
        }
        let reply = HttpCheckReply::from_verdict(
            pending.request.clone(),
            Verdict { allowed, source: source.clone() },
        );
        if !once {
            let key = HttpPendingKey { request: pending.request, context: pending.context };
            let _ = self.http.verdict_cache.insert(
                key,
                VerdictEntry { allowed, source, time: now },
            );
            state::enforce_verdict_cache_limit(
                &mut self.http.verdict_cache,
                self.limits.verdict_cache,
            );
        }
        HttpFinish { decided: true, expired, expiry, answered, reply: Some(reply) }
    }

    /// Forget every remembered HTTP verdict.
    pub fn clear_http_verdict_cache(&mut self)
        requires
            old(self).wf(),
        ensures
            final(self).wf(),
            final(self).configured_as(old(self)),
            *final(self) == (PolicyStore {
                http: HttpState {
                    verdict_cache: final(self).http.verdict_cache,
                    ..old(self).http
                },
                ..*old(self)
            }),
            final(self).http.verdict_cache.vacant(),
    {
        self.http.verdict_cache = Table::new();
    }
}

/// Cancelling a check that has just joined leaves the requests and their waiters as they were,
/// where somebody else waits too.
pub proof fn law_cancel_undoes_join(board: Board, id: Seq<char>, waiter: HttpWaiter)
    requires
        !board.waiters.contains_key(waiter.check),
        board.futures.contains_key(id),
        board.futures[id].len() > 0,
        waiter_index(board.futures[id], waiter.check) is None,
    ensures
        board.joined(id, waiter).without_waiter(waiter.check) == (Some(waiter), board),
{
    let joined = board.joined(id, waiter);
    let ws = board.futures[id].push(waiter);
    let n = board.futures[id].len() as int;
    assert forall|j: int| 0 <= j < n implies (#[trigger] ws[j]).check != waiter.check by {
        lemma_absent(board.futures[id], waiter.check, j);
    }
    lemma_waiter_index(ws, waiter.check, n);
    assert(ws.remove(n) =~= board.futures[id]);
    let after = joined.without_waiter(waiter.check).1;
    assert(after.futures =~= board.futures);
    assert(after.waiters =~= board.waiters);
    assert(after =~= board);
}

proof fn lemma_absent(waiters: Seq<HttpWaiter>, check: ProxyCheckId, j: int)
    requires
        waiter_index(waiters, check) is None,
        0 <= j < waiters.len(),
    ensures
        waiters[j].check != check,
    decreases waiters.len(),
{
    if j > 0 {
        lemma_absent(waiters.skip(1), check, j - 1);
        assert(waiters.skip(1)[j - 1] == waiters[j]);
    }
}

/// Cancelling the check that a request was filed for leaves no trace of either.
pub proof fn law_cancel_undoes_filing(
    board: Board,
    id: Seq<char>,
    pending: Pending,
    waiter: HttpWaiter,
)
    requires
        !board.pending.contains_key(id),
        !board.futures.contains_key(id),
        !board.waiters.contains_key(waiter.check),
    ensures
        (Board { pending: board.pending.insert(id, pending), ..board }).joined(
            id,
            waiter,
        ).without_waiter(waiter.check) == (Some(waiter), board),
{
    let filed = Board { pending: board.pending.insert(id, pending), ..board };
    let joined = filed.joined(id, waiter);
    let ws = Seq::<HttpWaiter>::empty().push(waiter);
    lemma_waiter_index(ws, waiter.check, 0);
    assert(ws.remove(0).len() == 0);
    let after = joined.without_waiter(waiter.check).1;
    assert(after.pending =~= board.pending);
    assert(after.futures =~= board.futures);
    assert(after.waiters =~= board.waiters);
    assert(after =~= board);
}

/// A single-use approval that no denial overrules gives one verdict. After it the approval is
/// gone, and where nothing else speaks for the request, the next check finds no verdict.
pub proof fn law_once_gives_one_verdict<
    M: Fn(&HttpRule) -> bool,
    T: Fn(&HttpRuleTarget) -> bool,
>(
    before: HttpState,
    after: HttpState,
    policy: Policy,
    key: HttpPendingKey,
    sessions: Seq<String>,
    rule_matches: M,
    target_matches: T,
    now: u64,
    later: u64,
)
    requires
        once_used(before, after, policy, key, sessions, rule_matches, target_matches),
        before.once_allow@.contains_key(key@),
        !before.once_deny@.contains_key(key@),
        !session_covers(before.session_deny@, sessions, key.context, target_matches),
        rule_verdict(policy.network.http.deny@, rule_matches, false) is None,
    ensures
        evaluated(before, policy, key, sessions, rule_matches, target_matches, now) == Some(
            Verdict { allowed: true, source: VerdictSource::Scope(ApprovalScope::Once) },
        ),
        !after.once_allow@.contains_key(key@),
        !before.verdict_cache@.contains_key(key@) && !session_covers(
            before.session_allow@,
            sessions,
            key.context,
            target_matches,
        ) && rule_verdict(policy.network.http.allow@, rule_matches, true) is None ==> evaluated(
            after,
            policy,
            key,
            sessions,
            rule_matches,
            target_matches,
            later,
        ) is None,
{
}

/// The last check to leave takes its request with it.
pub proof fn law_last_waiter_takes_request(board: Board, id: Seq<char>, waiter: HttpWaiter)
    requires
        board.waiters.contains_key(waiter.check),
        board.waiters[waiter.check] == id,
        board.futures.contains_key(id),
        board.futures[id] == seq![waiter],
    ensures
        !board.without_waiter(waiter.check).1.pending.contains_key(id),
        !board.without_waiter(waiter.check).1.futures.contains_key(id),
{
    lemma_waiter_index(seq![waiter], waiter.check, 0);
}

/// A policy denial wins over every decision in force.
pub proof fn law_policy_denial_wins<
    M: Fn(&HttpRule) -> bool,
    T: Fn(&HttpRuleTarget) -> bool,
>(
    http: HttpState,
    policy: Policy,
    key: HttpPendingKey,
    sessions: Seq<String>,
    rule_matches: M,
    target_matches: T,
    now: u64,
    i: int,
)
    requires
        0 <= i < policy.network.http.deny@.len(),
        text::holds(rule_matches, policy.network.http.deny@[i]),
    ensures
        evaluated(http, policy, key, sessions, rule_matches, target_matches, now) matches Some(
            verdict,
        ) && !verdict.allowed,
{
    lemma_some_rule(policy.network.http.deny@, rule_matches, i);
}

proof fn lemma_some_rule<M: Fn(&HttpRule) -> bool>(rules: Seq<HttpRule>, matches: M, i: int)
    requires
        0 <= i < rules.len(),
        text::holds(matches, rules[i]),
    ensures
        first_rule(rules, matches) is Some,
    decreases rules.len(),
{
    if !text::holds(matches, rules[0]) {
        assert(rules.skip(1)[i - 1] == rules[i]);
        lemma_some_rule(rules.skip(1), matches, i - 1);
    }
}

/// No more requests wait than the limit allows, and for an HTTP request no more checks.
pub proof fn law_http_requests_are_bounded(
    before: Board,
    after: Board,
    waiter: HttpWaiter,
    request: HttpRequest,
    ctx: ResolvedRequestContext,
    fresh_id: String,
    created_at: u64,
    waiter_limit: usize,
    pending_limit: usize,
    r: Result<PendingResult, PolicydError>,
    id: Seq<char>,
)
    requires
        before.pending.dom().finite(),
        before.pending.len() <= pending_limit,
        waiter_limit > 0,
        before.waiting(id) <= waiter_limit,
        request_joined_or_filed(
            before,
            after,
            waiter,
            request,
            ctx,
            fresh_id,
            created_at,
            waiter_limit,
            pending_limit,
            r,
        ),
    ensures
        after.pending.len() <= pending_limit,
        after.waiting(id) <= waiter_limit,
{
}

} // verus!
