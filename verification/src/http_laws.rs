//! What HTTP checks come to: which decision is heard, who waits, and what those who wait are told.

use vstd::prelude::*;

use crate::error::PolicydError;
use crate::flow::ProxyCheckId;
use crate::http;
use crate::http::HttpCheckReply;
use crate::http::HttpFinish;
use crate::http::HttpStart;
use crate::http::HttpTold;
use crate::http::HttpWaitEvent;
use crate::http::HttpWaitStep;
use crate::http::PendingResult;
use crate::paths;
use crate::state;
use crate::state::HttpContextView;
use crate::state::HttpPendingKey;
use crate::state::HttpPendingKeyView;
use crate::state::HttpScopeKey;
use crate::state::HttpWaiter;
use crate::state::VerdictEntry;
use crate::store::PolicyStore;
use crate::text;
use crate::types::ApprovalScope;
use crate::types::HttpRequest;
use crate::types::HttpRequestView;
use crate::types::HttpRule;
use crate::types::HttpRuleTarget;
use crate::types::Policy;
use crate::types::ResolvedRequestContext;
use crate::types::Verdict;
use crate::types::VerdictSource;
use crate::waiting::WaitPhase;

verus! {

/// The directories and the session that HTTP decisions of the request are bound to.
pub open spec fn bound_to(ctx: ResolvedRequestContext) -> HttpContextView {
    HttpContextView {
        cwd: paths::opt_components(ctx.paths.cwd),
        home: paths::opt_components(ctx.paths.home),
        project_root: paths::opt_components(ctx.paths.project_root),
        sandbox_session_id: text::opt_text(ctx.sandbox_session_id),
    }
}

/// The method and URL of the request, with what its decisions are bound to.
pub open spec fn asked(request: HttpRequest, ctx: ResolvedRequestContext) -> HttpPendingKeyView {
    HttpPendingKeyView {
        request: HttpRequestView { method: request.method@, url: request.url@ },
        context: bound_to(ctx),
    }
}

/// The decision in the given place of the session in the given place was made in the request's
/// context, and its target covers the request.
pub open spec fn decision_covers<T: Fn(&HttpRuleTarget) -> bool>(
    decisions: Map<Seq<char>, Vec<HttpScopeKey>>,
    sessions: Seq<String>,
    ctx: ResolvedRequestContext,
    target_matches: T,
    session: int,
    decision: int,
) -> bool {
    let id = sessions[session]@;
    &&& 0 <= session < sessions.len()
    &&& decisions.contains_key(id)
    &&& 0 <= decision < decisions[id]@.len()
    &&& decisions[id]@[decision].context@ == bound_to(ctx)
    &&& text::holds(target_matches, decisions[id]@[decision].target)
}

/// A verdict on the request is remembered, and no more than half a minute old.
pub open spec fn remembered(store: PolicyStore, key: HttpPendingKeyView, now: u64) -> bool {
    store.http.verdict_cache@.contains_key(key) && now < store.http.verdict_cache@[key].time
        + 30_000_000_000
}

/// Something denies the request: a deny rule of the policy, a denial of one of its sessions in
/// its context, or a single-use denial.
pub open spec fn request_is_denied<M: Fn(&HttpRule) -> bool, T: Fn(&HttpRuleTarget) -> bool>(
    store: PolicyStore,
    request: HttpRequest,
    ctx: ResolvedRequestContext,
    policy: Policy,
    sessions: Seq<String>,
    rule_matches: M,
    target_matches: T,
) -> bool {
    ||| exists|i: int|
        0 <= i < policy.network.http.deny@.len() && text::holds(
            rule_matches,
            #[trigger] policy.network.http.deny@[i],
        )
    ||| exists|s: int, d: int| #[trigger]
        decision_covers(store.http.session_deny@, sessions, ctx, target_matches, s, d)
    ||| store.http.once_deny@.contains_key(asked(request, ctx))
}

proof fn lemma_covers<T: Fn(&HttpRuleTarget) -> bool>(
    decisions: Map<Seq<char>, Vec<HttpScopeKey>>,
    sessions: Seq<String>,
    ctx: ResolvedRequestContext,
    target_matches: T,
)
    ensures
        http::session_covers(decisions, sessions, http::context_of(ctx), target_matches) == exists|
            s: int,
            d: int,
        | #[trigger] decision_covers(decisions, sessions, ctx, target_matches, s, d),
{
    if exists|s: int, d: int| #[trigger]
        decision_covers(decisions, sessions, ctx, target_matches, s, d) {
        let (s, d) = choose|s: int, d: int| #[trigger]
            decision_covers(decisions, sessions, ctx, target_matches, s, d);
        assert(decisions[sessions[s]@]@[d].context@ == http::context_of(ctx)@);
    }
    if http::session_covers(decisions, sessions, http::context_of(ctx), target_matches) {
        let (s, d) = choose|s: int, d: int|
            #![trigger decisions[sessions[s]@]@[d]]
            0 <= s < sessions.len() && decisions.contains_key(sessions[s]@) && 0 <= d
                < decisions[sessions[s]@]@.len() && decisions[sessions[s]@]@[d].context@
                == http::context_of(ctx)@ && text::holds(
                target_matches,
                decisions[sessions[s]@]@[d].target,
            );
        assert(decision_covers(decisions, sessions, ctx, target_matches, s, d));
    }
}

proof fn lemma_first_rule<M: Fn(&HttpRule) -> bool>(list: Seq<HttpRule>, matches: M)
    ensures
        match http::first_rule(list, matches) {
            Some(rule) => exists|i: int|
                {
                    &&& 0 <= i < list.len()
                    &&& #[trigger] list[i] == rule
                    &&& text::holds(matches, list[i])
                    &&& forall|j: int| 0 <= j < i ==> !text::holds(matches, #[trigger] list[j])
                },
            None => forall|j: int|
                0 <= j < list.len() ==> !text::holds(matches, #[trigger] list[j]),
        },
    decreases list.len(),
{
    if list.len() > 0 && !text::holds(matches, list[0]) {
        let rest = list.skip(1);
        lemma_first_rule(rest, matches);
        assert(forall|j: int| 1 <= j < list.len() ==> list[j] == #[trigger] rest[j - 1]);
        match http::first_rule(rest, matches) {
            Some(rule) => {
                let i = choose|i: int|
                    {
                        &&& 0 <= i < rest.len()
                        &&& #[trigger] rest[i] == rule
                        &&& text::holds(matches, rest[i])
                        &&& forall|j: int| 0 <= j < i ==> !text::holds(matches, #[trigger] rest[j])
                    };
                assert(list[i + 1] == rule);
                assert forall|j: int| 0 <= j < i + 1 implies !text::holds(
                    matches,
                    #[trigger] list[j],
                ) by {
                    if j > 0 {
                        assert(list[j] == rest[j - 1]);
                    }
                }
            },
            None => {
                assert forall|j: int| 0 <= j < list.len() implies !text::holds(
                    matches,
                    #[trigger] list[j],
                ) by {
                    if j > 0 {
                        assert(list[j] == rest[j - 1]);
                    }
                }
            },
        }
    }
}

/// A request that the policy, one of its sessions or a single-use decision denies is denied,
/// whatever else is in force.
pub proof fn law_denied_request_is_denied<
    M: Fn(&HttpRule) -> bool,
    T: Fn(&HttpRuleTarget) -> bool,
>(
    store: &mut PolicyStore,
    request: &HttpRequest,
    ctx: &ResolvedRequestContext,
    policy: &Policy,
    sessions: &Vec<String>,
    rule_matches: &M,
    target_matches: &T,
    now: u64,
    r: Option<Verdict>,
)
    requires
        call_ensures(
            PolicyStore::evaluate_http::<M, T>,
            (store, request, ctx, policy, sessions, rule_matches, target_matches, now),
            r,
        ),
        request_is_denied(
            *old(store),
            *request,
            *ctx,
            *policy,
            sessions@,
            *rule_matches,
            *target_matches,
        ),
    ensures
        r matches Some(verdict) && !verdict.allowed,
{
    lemma_covers(old(store).http.session_deny@, sessions@, *ctx, *target_matches);
    lemma_first_rule(policy.network.http.deny@, *rule_matches);
    assert(http::key_of(*request, *ctx)@ =~= asked(*request, *ctx));
}

/// A request is denied only where something denies it, or the verdict that is remembered of it
/// does; and the source tells which.
pub proof fn law_no_request_is_denied_for_nothing<
    M: Fn(&HttpRule) -> bool,
    T: Fn(&HttpRuleTarget) -> bool,
>(
    store: &mut PolicyStore,
    request: &HttpRequest,
    ctx: &ResolvedRequestContext,
    policy: &Policy,
    sessions: &Vec<String>,
    rule_matches: &M,
    target_matches: &T,
    now: u64,
    verdict: Verdict,
)
    requires
        call_ensures(
            PolicyStore::evaluate_http::<M, T>,
            (store, request, ctx, policy, sessions, rule_matches, target_matches, now),
            Some(verdict),
        ),
        !verdict.allowed,
    ensures
        ({
            let key = asked(*request, *ctx);
            ||| exists|i: int|
                {
                    &&& 0 <= i < policy.network.http.deny@.len()
                    &&& text::holds(*rule_matches, #[trigger] policy.network.http.deny@[i])
                    &&& verdict.source == VerdictSource::Policy(
                        policy.network.http.deny@[i].comment,
                    )
                    &&& forall|j: int|
                        0 <= j < i ==> !text::holds(
                            *rule_matches,
                            #[trigger] policy.network.http.deny@[j],
                        )
                }
            ||| verdict.source == VerdictSource::Scope(ApprovalScope::Session) && exists|
                s: int,
                d: int,
            | #[trigger]
                decision_covers(
                    old(store).http.session_deny@,
                    sessions@,
                    *ctx,
                    *target_matches,
                    s,
                    d,
                )
            ||| verdict.source == VerdictSource::User && old(store).http.once_deny@.contains_key(
                key,
            )
            ||| remembered(*old(store), key, now) && !old(store).http.verdict_cache@[key].allowed
                && verdict.source == old(store).http.verdict_cache@[key].source
        }),
{
    lemma_covers(old(store).http.session_deny@, sessions@, *ctx, *target_matches);
    lemma_first_rule(policy.network.http.deny@, *rule_matches);
    assert(http::key_of(*request, *ctx)@ =~= asked(*request, *ctx));
}

/// A request that nothing denies is allowed by a single-use approval first, then by a decision of
/// one of its sessions in its context. Where neither is, the remembered verdict is told as it
/// was, for half a minute; and where none is remembered, the first allow rule that matches allows
/// it, with its comment, or there is no verdict.
pub proof fn law_undenied_request_is_allowed_by_what_covers_it<
    M: Fn(&HttpRule) -> bool,
    T: Fn(&HttpRuleTarget) -> bool,
>(
    store: &mut PolicyStore,
    request: &HttpRequest,
    ctx: &ResolvedRequestContext,
    policy: &Policy,
    sessions: &Vec<String>,
    rule_matches: &M,
    target_matches: &T,
    now: u64,
    r: Option<Verdict>,
)
    requires
        call_ensures(
            PolicyStore::evaluate_http::<M, T>,
            (store, request, ctx, policy, sessions, rule_matches, target_matches, now),
            r,
        ),
        !request_is_denied(
            *old(store),
            *request,
            *ctx,
            *policy,
            sessions@,
            *rule_matches,
            *target_matches,
        ),
    ensures
        ({
            let key = asked(*request, *ctx);
            let once = old(store).http.once_allow@.contains_key(key);
            let session = exists|s: int, d: int| #[trigger]
                decision_covers(
                    old(store).http.session_allow@,
                    sessions@,
                    *ctx,
                    *target_matches,
                    s,
                    d,
                );
            if once {
                r == Some(
                    Verdict { allowed: true, source: VerdictSource::Scope(ApprovalScope::Once) },
                )
            } else if session {
                r == Some(
                    Verdict { allowed: true, source: VerdictSource::Scope(ApprovalScope::Session) },
                )
            } else if remembered(*old(store), key, now) {
                r is Some && r->0.allowed == old(store).http.verdict_cache@[key].allowed
                    && r->0.source == old(store).http.verdict_cache@[key].source
            } else {
                match r {
                    Some(verdict) => verdict.allowed && exists|i: int|
                        {
                            &&& 0 <= i < policy.network.http.allow@.len()
                            &&& text::holds(*rule_matches, #[trigger] policy.network.http.allow@[i])
                            &&& verdict.source == VerdictSource::Policy(
                                policy.network.http.allow@[i].comment,
                            )
                            &&& forall|j: int|
                                0 <= j < i ==> !text::holds(
                                    *rule_matches,
                                    #[trigger] policy.network.http.allow@[j],
                                )
                        },
                    None => forall|i: int|
                        0 <= i < policy.network.http.allow@.len() ==> !text::holds(
                            *rule_matches,
                            #[trigger] policy.network.http.allow@[i],
                        ),
                }
            }
        }),
{
    lemma_covers(old(store).http.session_deny@, sessions@, *ctx, *target_matches);
    lemma_covers(old(store).http.session_allow@, sessions@, *ctx, *target_matches);
    lemma_first_rule(policy.network.http.deny@, *rule_matches);
    lemma_first_rule(policy.network.http.allow@, *rule_matches);
    assert(http::key_of(*request, *ctx)@ =~= asked(*request, *ctx));
}

/// A check uses up no more than the single-use decision that gave its verdict, and that one it
/// does use up: a single-use approval stands for one check, and so does a single-use denial.
pub proof fn law_only_the_decision_that_spoke_is_used_up<
    M: Fn(&HttpRule) -> bool,
    T: Fn(&HttpRuleTarget) -> bool,
>(
    store: &mut PolicyStore,
    request: &HttpRequest,
    ctx: &ResolvedRequestContext,
    policy: &Policy,
    sessions: &Vec<String>,
    rule_matches: &M,
    target_matches: &T,
    now: u64,
    r: Option<Verdict>,
    key: HttpPendingKeyView,
)
    requires
        call_ensures(
            PolicyStore::evaluate_http::<M, T>,
            (store, request, ctx, policy, sessions, rule_matches, target_matches, now),
            r,
        ),
    ensures
        final(store).http.once_allow@.contains_key(key) ==> old(store).http.once_allow@.contains_key(key),
        final(store).http.once_deny@.contains_key(key) ==> old(store).http.once_deny@.contains_key(key),
        old(store).http.once_allow@.contains_key(key) && !final(store).http.once_allow@.contains_key(key) ==> key == asked(*request, *ctx) && r == Some(
            Verdict { allowed: true, source: VerdictSource::Scope(ApprovalScope::Once) },
        ),
        old(store).http.once_deny@.contains_key(key) && !final(store).http.once_deny@.contains_key(
            key,
        ) ==> key == asked(*request, *ctx) && r == Some(
            Verdict { allowed: false, source: VerdictSource::User },
        ),
        !request_is_denied(
            *old(store),
            *request,
            *ctx,
            *policy,
            sessions@,
            *rule_matches,
            *target_matches,
        ) ==> !final(store).http.once_allow@.contains_key(asked(*request, *ctx)),
        old(store).http.once_deny@.contains_key(asked(*request, *ctx)) && final(store).http.once_deny@.contains_key(asked(*request, *ctx)) ==> (exists|i: int|
            0 <= i < policy.network.http.deny@.len() && text::holds(
                *rule_matches,
                #[trigger] policy.network.http.deny@[i],
            )) || (exists|s: int, d: int| #[trigger]
            decision_covers(
                old(store).http.session_deny@,
                sessions@,
                *ctx,
                *target_matches,
                s,
                d,
            )),
        *final(store) == (PolicyStore { http: final(store).http, ..*old(store) }),
{
    lemma_covers(old(store).http.session_deny@, sessions@, *ctx, *target_matches);
    lemma_first_rule(policy.network.http.deny@, *rule_matches);
    assert(http::key_of(*request, *ctx)@ =~= asked(*request, *ctx));
}

/// A check is answered with the verdict that the decisions in force give it. Only where they give
/// none, approvals are asked for and the process is known is its sandbox frozen and the user
/// asked; any other check without a verdict is blocked.
pub proof fn law_request_is_answered_with_its_verdict<
    M: Fn(&HttpRule) -> bool,
    T: Fn(&HttpRuleTarget) -> bool,
>(
    store: &mut PolicyStore,
    look: &mut PolicyStore,
    request: &HttpRequest,
    ctx: &ResolvedRequestContext,
    policy: &Policy,
    sessions: &Vec<String>,
    rule_matches: &M,
    target_matches: &T,
    now: u64,
    start: HttpStart,
    verdict: Option<Verdict>,
)
    requires
        *old(store) == *old(look),
        call_ensures(
            PolicyStore::request_http_approval::<M, T>,
            (store, request, ctx, policy, sessions, rule_matches, target_matches, now),
            start,
        ),
        call_ensures(
            PolicyStore::evaluate_http::<M, T>,
            (look, request, ctx, policy, sessions, rule_matches, target_matches, now),
            verdict,
        ),
    ensures
        match start {
            HttpStart::Reply(reply) => match verdict {
                Some(verdict) => reply.allowed == verdict.allowed && reply.source == verdict.source
                    && reply.request == Some(*request),
                None => !reply.allowed && reply.source is Blocked && (!old(store).args.interactive_approval || ctx.ids.pid is None),
            },
            HttpStart::Freeze { pid, uid } => verdict is None && old(store).args.interactive_approval && ctx.ids.pid == Some(pid) && uid == ctx.ids.uid,
        },
        final(store).http.once_allow@ == final(look).http.once_allow@,
        final(store).http.once_deny@ == final(look).http.once_deny@,
{
}

/// A check that is to wait waits for a pending request with its own method, URL and context, and
/// is the last to be answered; no other check waits elsewhere than before. It is refused where it
/// already waits, and where too many wait.
pub proof fn law_check_waits_for_its_own_request(
    store: &mut PolicyStore,
    waiter: HttpWaiter,
    request: &HttpRequest,
    ctx: &ResolvedRequestContext,
    fresh_id: String,
    created_at: u64,
    r: Result<PendingResult, PolicydError>,
)
    requires
        call_ensures(
            PolicyStore::dedup_or_create_http,
            (store, waiter, request, ctx, fresh_id, created_at),
            r,
        ),
    ensures
        match r {
            Ok(result) => {
                let id = result.id@;
                &&& !old(store).http.waiters@.contains_key(waiter.check)
                &&& final(store).http.waiters@.contains_key(waiter.check)
                &&& final(store).http.waiters@[waiter.check]@ == id
                &&& final(store).http.futures@.contains_key(id)
                &&& final(store).http.futures@[id]@.len() > 0
                &&& final(store).http.futures@[id]@.last() == waiter
                &&& final(store).pending@.contains_key(id)
                &&& final(store).pending@[id] is Http
                &&& final(store).pending@[id]->Http_0.request@ == asked(*request, *ctx).request
                &&& final(store).pending@[id]->Http_0.context@ == bound_to(*ctx)
                &&& !result.is_new ==> final(store).pending@ == old(store).pending@
                &&& result.is_new ==> id == fresh_id@ && old(store).pending@.len() < old(store).limits.pending_approvals
            },
            Err(_) => {
                &&& final(store).pending@ == old(store).pending@
                &&& final(store).board() == old(store).board()
                &&& {
                    ||| old(store).http.waiters@.contains_key(waiter.check)
                    ||| old(store).pending@.len() >= old(store).limits.pending_approvals
                    ||| exists|id: Seq<char>|
                        old(store).http.futures@.contains_key(id) && (
                        #[trigger] old(store).http.futures@[id])@.len() >= old(store).limits.waiters_per_pending
                    ||| old(store).limits.waiters_per_pending == 0
                }
            },
        },
        forall|check: ProxyCheckId|
            check != waiter.check && #[trigger] old(store).http.waiters@.contains_key(check)
                ==> final(store).http.waiters@.contains_key(check) && final(store).http.waiters@[check]@ == old(store).http.waiters@[check]@,
{
    let (b, a) = (old(store).board(), final(store).board());
    let key = http::key_of(*request, *ctx)@;
    assert(key =~= asked(*request, *ctx));
    assert(a.waiters.dom() =~= final(store).http.waiters@.dom());
    assert(b.waiters.dom() =~= old(store).http.waiters@.dom());
    assert(a.futures.dom() =~= final(store).http.futures@.dom());
    assert(b.futures.dom() =~= old(store).http.futures@.dom());
    match r {
        Ok(result) => {
            let id = result.id@;
            assert(a.waiters.contains_key(waiter.check));
            assert(a.waiters[waiter.check] == id);
            assert(a.futures.contains_key(id));
            assert(a.futures[id].last() == waiter);
            assert(final(store).http.futures@[id]@ == a.futures[id]);
            assert(final(store).http.waiters@[waiter.check]@ == a.waiters[waiter.check]);
        },
        Err(_) => {
            if !b.waiters.contains_key(waiter.check) && (exists|id: Seq<char>| #[trigger]
                b.waits_for(id, key)) {
                let id = choose|id: Seq<char>| #[trigger]
                    b.waits_for(id, key) && (if b.waiting(id) >= old(store).limits.waiters_per_pending {
                        &&& crate::proxy::refused(
                            r,
                            Some("too many waiters for one HTTP approval"@),
                        )
                        &&& a == b
                    } else {
                        &&& r matches Ok(result)
                        &&& result.id@ == id
                        &&& !result.is_new
                        &&& a == b.joined(id, waiter)
                    });
                if b.futures.contains_key(id) {
                    assert(old(store).http.futures@[id]@ == b.futures[id]);
                }
            }
        },
    }
    assert forall|check: ProxyCheckId|
        check != waiter.check && #[trigger] old(store).http.waiters@.contains_key(
            check,
        ) implies final(store).http.waiters@.contains_key(check) && final(store).http.waiters@[check]@ == old(store).http.waiters@[check]@ by {
        assert(b.waiters.contains_key(check));
        assert(a.waiters.contains_key(check) && a.waiters[check] == b.waiters[check]);
    }
}

/// Waiting for a decision never allows by itself: a check that ends without having been answered
/// is blocked, and one that was answered passes the answer on.
pub proof fn law_http_wait_allows_only_what_was_answered(
    store: &mut PolicyStore,
    check: ProxyCheckId,
    phase: WaitPhase,
    event: HttpWaitEvent,
    now: u64,
    reply: HttpCheckReply,
)
    requires
        call_ensures(
            PolicyStore::await_http_verdict,
            (store, check, phase, event, now),
            HttpWaitStep::Done(reply),
        ),
    ensures
        match event {
            HttpWaitEvent::Answered(given) => reply == given,
            _ => !reply.allowed && reply.source is Blocked,
        },
        event is Look ==> match phase {
            WaitPhase::ForUi { deadline } => now >= deadline && !event->has_ui,
            WaitPhase::ForVerdict { deadline } => now >= deadline,
        },
        event is Look && old(store).http.waiters@.contains_key(check) ==> !final(store).http.waiters@.contains_key(check),
{
    let (b, a) = (old(store).board(), final(store).board());
    assert(a.waiters.dom() =~= final(store).http.waiters@.dom());
    assert(b.waiters.dom() =~= old(store).http.waiters@.dom());
}

/// A check that is cancelled waits no more, and no other check is touched; nobody is told
/// anything but the cancelled caller, who is told that it is blocked. Only the open session
/// cancels its checks.
pub proof fn law_cancelled_check_waits_no_more(
    store: &mut PolicyStore,
    check: ProxyCheckId,
    r: Result<Option<HttpTold>, PolicydError>,
    other: ProxyCheckId,
)
    requires
        call_ensures(PolicyStore::cancel_http_check, (store, check), r),
    ensures
        r is Ok <==> old(store).proxy.session is Some && old(store).proxy.session->0.token
            == check.session,
        r is Ok ==> !final(store).http.waiters@.contains_key(check),
        r matches Ok(Some(told)) ==> {
            &&& !told.reply.allowed
            &&& told.reply.source is Blocked
            &&& old(store).http.waiters@.contains_key(check)
            &&& exists|id: Seq<char>, i: int|
                #![trigger old(store).http.futures@[id]@[i]]
                {
                    &&& id == old(store).http.waiters@[check]@
                    &&& old(store).http.futures@.contains_key(id)
                    &&& 0 <= i < old(store).http.futures@[id]@.len()
                    &&& old(store).http.futures@[id]@[i].check == check
                    &&& old(store).http.futures@[id]@[i].waiter == told.waiter
                }
        },
        r is Err ==> final(store).board() == old(store).board(),
        other != check ==> final(store).http.waiters@.contains_key(other) == old(store).http.waiters@.contains_key(other),
{
    let (b, a) = (old(store).board(), final(store).board());
    assert(a.waiters.dom() =~= final(store).http.waiters@.dom());
    assert(b.waiters.dom() =~= old(store).http.waiters@.dom());
    assert(b.futures.dom() =~= old(store).http.futures@.dom());
    if r is Ok && r->Ok_0 is Some {
        let id = b.waiters[check];
        lemma_index_names_check(b.futures[id], check);
        let i = http::waiter_index(b.futures[id], check)->0;
        assert(old(store).http.futures@[id]@ == b.futures[id]);
        assert(old(store).http.futures@[id]@[i].check == check);
    }
}

proof fn lemma_index_names_check(waiters: Seq<HttpWaiter>, check: ProxyCheckId)
    requires
        http::waiter_index(waiters, check) is Some,
    ensures
        ({
            let i = http::waiter_index(waiters, check)->0;
            0 <= i < waiters.len() && waiters[i].check == check
        }),
    decreases waiters.len(),
{
    if waiters[0].check != check {
        lemma_index_names_check(waiters.skip(1), check);
    }
}

/// The caller listens, its proxy session is open, and some flow is claimed under its token.
pub open spec fn still_there<C: Fn(&u64) -> bool>(
    store: PolicyStore,
    waiter: HttpWaiter,
    closed: C,
) -> bool {
    &&& !text::holds(closed, waiter.waiter)
    &&& store.proxy.session is Some
    &&& store.proxy.session->0.token == waiter.check.session
    &&& exists|flow: crate::flow::NetworkFlowKey|
        store.proxy.flows@.contains_key(flow) && (
        #[trigger] store.proxy.flows@[flow]).attribution_token == Some(waiter.attribution_token)
}

proof fn lemma_callers<C: Fn(&u64) -> bool>(
    store: PolicyStore,
    waiters: Seq<HttpWaiter>,
    closed: C,
    alive: bool,
    i: int,
)
    requires
        0 <= i < waiters.len(),
        http::live(store, waiters[i], closed) == alive,
    ensures
        http::callers(store, waiters, closed, alive).contains(waiters[i].waiter),
    decreases waiters.len(),
{
    let front = http::callers(store, waiters.drop_last(), closed, alive);
    if i == waiters.len() - 1 {
        assert(front.push(waiters.last().waiter).last() == waiters[i].waiter);
    } else {
        lemma_callers(store, waiters.drop_last(), closed, alive, i);
        let x = choose|x: int| 0 <= x < front.len() && front[x] == waiters[i].waiter;
        assert(http::callers(store, waiters, closed, alive)[x] == waiters[i].waiter);
    }
}

proof fn lemma_callers_of<C: Fn(&u64) -> bool>(
    store: PolicyStore,
    waiters: Seq<HttpWaiter>,
    closed: C,
    alive: bool,
    x: int,
) -> (i: int)
    requires
        0 <= x < http::callers(store, waiters, closed, alive).len(),
    ensures
        0 <= i < waiters.len(),
        http::live(store, waiters[i], closed) == alive,
        http::callers(store, waiters, closed, alive)[x] == waiters[i].waiter,
    decreases waiters.len(),
{
    let front = http::callers(store, waiters.drop_last(), closed, alive);
    if x < front.len() {
        lemma_callers_of(store, waiters.drop_last(), closed, alive, x)
    } else {
        waiters.len() - 1
    }
}

/// A decision on a pending HTTP request is given to every check that waits for it and is still
/// there, and to nobody else; the others are told that they are blocked. The reply carries the
/// decision as it was made. No check waits for the request any more, and it is off the board.
pub proof fn law_decision_reaches_every_check<C: Fn(&u64) -> bool>(
    store: &mut PolicyStore,
    pending_id: &String,
    allowed: bool,
    source: VerdictSource,
    once: bool,
    closed: C,
    now: u64,
    r: HttpFinish,
)
    requires
        call_ensures(
            PolicyStore::finish_http::<C>,
            (store, pending_id, allowed, source, once, closed, now),
            r,
        ),
        old(store).pending@.contains_key(pending_id@),
        old(store).pending@[pending_id@] is Http,
        old(store).http.futures@.contains_key(pending_id@),
    ensures
        !r.expiry.allowed && r.expiry.source is Blocked,
        !final(store).pending@.contains_key(pending_id@),
        !final(store).http.futures@.contains_key(pending_id@),
        forall|i: int|
            0 <= i < old(store).http.futures@[pending_id@]@.len() ==> {
                let waiter = #[trigger] old(store).http.futures@[pending_id@]@[i];
                &&& !final(store).http.waiters@.contains_key(waiter.check)
                &&& if still_there(*old(store), waiter, closed) {
                    r.answered@.contains(waiter.waiter)
                } else {
                    r.expired@.contains(waiter.waiter)
                }
            },
        forall|caller: u64| #[trigger]
            r.answered@.contains(caller) ==> exists|i: int|
                {
                    &&& 0 <= i < old(store).http.futures@[pending_id@]@.len()
                    &&& (#[trigger] old(store).http.futures@[pending_id@]@[i]).waiter == caller
                    &&& still_there(
                        *old(store),
                        old(store).http.futures@[pending_id@]@[i],
                        closed,
                    )
                },
        r.reply is Some <==> r.answered@.len() > 0,
        r.decided == (r.answered@.len() > 0),
        r.reply matches Some(reply) ==> reply.allowed == allowed && reply.source == source
            && reply.request == Some(old(store).pending@[pending_id@]->Http_0.request),
{
    let id = pending_id@;
    let (b, a) = (old(store).board(), final(store).board());
    let waiters = old(store).http.futures@[id]@;
    assert(b.futures.contains_key(id) && b.futures[id] == waiters);
    assert(a.futures.dom() =~= final(store).http.futures@.dom());
    assert(a.waiters.dom() =~= final(store).http.waiters@.dom());
    assert forall|w: HttpWaiter| #[trigger] http::live(*old(store), w, closed) == still_there(
        *old(store),
        w,
        closed,
    ) by {
        let flows = old(store).proxy.flows@;
        if crate::proxy::has_claim(flows, w.attribution_token) {
            let flow = choose|flow: crate::flow::NetworkFlowKey| #[trigger]
                crate::proxy::claim_is(flows, w.attribution_token, flow);
            assert(flows[flow].attribution_token == Some(w.attribution_token));
        }
        if exists|flow: crate::flow::NetworkFlowKey|
            flows.contains_key(flow) && (#[trigger] flows[flow]).attribution_token == Some(
                w.attribution_token,
            ) {
            let flow = choose|flow: crate::flow::NetworkFlowKey|
                flows.contains_key(flow) && (#[trigger] flows[flow]).attribution_token == Some(
                    w.attribution_token,
                );
            assert(crate::proxy::claim_is(flows, w.attribution_token, flow));
        }
    }
    assert forall|i: int| 0 <= i < waiters.len() implies {
        let waiter = #[trigger] waiters[i];
        &&& !final(store).http.waiters@.contains_key(waiter.check)
        &&& if still_there(*old(store), waiter, closed) {
            r.answered@.contains(waiter.waiter)
        } else {
            r.expired@.contains(waiter.waiter)
        }
    } by {
        let all = waiters.map_values(|w: HttpWaiter| w.check);
        assert(all[i] == waiters[i].check);
        assert(http::checks(waiters).contains(waiters[i].check));
        lemma_callers(
            *old(store),
            waiters,
            closed,
            http::live(*old(store), waiters[i], closed),
            i,
        );
    }
    assert forall|caller: u64| #[trigger] r.answered@.contains(caller) implies exists|i: int|
        {
            &&& 0 <= i < waiters.len()
            &&& (#[trigger] waiters[i]).waiter == caller
            &&& still_there(*old(store), waiters[i], closed)
        } by {
        let x = choose|x: int| 0 <= x < r.answered@.len() && r.answered@[x] == caller;
        let i = lemma_callers_of(*old(store), waiters, closed, true, x);
        assert(waiters[i].waiter == caller);
        assert(http::live(*old(store), waiters[i], closed));
    }
}

proof fn lemma_kept<K>(
    before: Map<K, VerdictEntry>,
    after: Map<K, VerdictEntry>,
    limit: nat,
    key: K,
)
    requires
        state::newest_kept(before, after, limit),
        after.contains_key(key),
    ensures
        before.contains_key(key),
        before[key] == after[key],
{
    assert(after.dom().contains(key));
    assert(before.dom().contains(key));
}

/// A decision on a pending HTTP request that reached somebody is remembered as it was made, in
/// the request's own context, unless it is single-use; a single-use one is not, nor is one that
/// reached nobody. What is remembered of other requests is never changed.
pub proof fn law_single_use_decision_is_not_remembered<C: Fn(&u64) -> bool>(
    store: &mut PolicyStore,
    pending_id: &String,
    allowed: bool,
    source: VerdictSource,
    once: bool,
    closed: C,
    now: u64,
    r: HttpFinish,
    key: HttpPendingKeyView,
)
    requires
        call_ensures(
            PolicyStore::finish_http::<C>,
            (store, pending_id, allowed, source, once, closed, now),
            r,
        ),
    ensures
        once || !r.decided ==> final(store).http.verdict_cache@ == old(store).http.verdict_cache@,
        ({
            let before = old(store).http.verdict_cache@;
            let after = final(store).http.verdict_cache@;
            after.contains_key(key) ==> {
                ||| before.contains_key(key) && after[key] == before[key]
                ||| {
                    &&& !once
                    &&& old(store).pending@.contains_key(pending_id@)
                    &&& old(store).pending@[pending_id@] is Http
                    &&& key.request == old(store).pending@[pending_id@]->Http_0.request@
                    &&& key.context == old(store).pending@[pending_id@]->Http_0.context@
                    &&& after[key].allowed == allowed
                    &&& after[key].source == source
                    &&& after[key].time == now
                }
            }
        }),
        r.decided && !once && old(store).http.verdict_cache@.dom().finite() && old(store).http.verdict_cache@.len() < old(store).limits.verdict_cache ==> {
            let request = old(store).pending@[pending_id@]->Http_0;
            let filed = HttpPendingKeyView { request: request.request@, context: request.context@ };
            &&& final(store).http.verdict_cache@.contains_key(filed)
            &&& final(store).http.verdict_cache@[filed].allowed == allowed
            &&& final(store).http.verdict_cache@[filed].source == source
        },
{
    let before = old(store).http.verdict_cache@;
    let after = final(store).http.verdict_cache@;
    if r.decided && !once && after.contains_key(key) {
        let request = old(store).pending@[pending_id@]->Http_0;
        let filed = (HttpPendingKey { request: request.request, context: request.context })@;
        let all = before.insert(filed, VerdictEntry { allowed, source, time: now });
        lemma_kept(all, after, old(store).limits.verdict_cache as nat, key);
        if key != filed {
            assert(before.contains_key(key) && after[key] == before[key]);
        }
    }
}

/// A check joins those that wait for the same request: they stay where they were, with the check
/// behind them, and a new request is filed only where nobody waits for the same. Those who wait
/// for other requests are untouched.
pub proof fn law_http_check_joins_those_who_ask_the_same(
    store: &mut PolicyStore,
    waiter: HttpWaiter,
    request: &HttpRequest,
    ctx: &ResolvedRequestContext,
    fresh_id: String,
    created_at: u64,
    result: PendingResult,
    other: Seq<char>,
)
    requires
        call_ensures(
            PolicyStore::dedup_or_create_http,
            (store, waiter, request, ctx, fresh_id, created_at),
            Ok(result),
        ),
    ensures
        ({
            let id = result.id@;
            let before = old(store).http.futures@;
            let after = final(store).http.futures@;
            &&& result.is_new ==> {
                &&& after[id]@ == seq![waiter]
                &&& old(store).pending@.contains_key(other) && old(store).pending@[other] is Http
                    ==> !(old(store).pending@[other]->Http_0.request@ == asked(*request, *ctx).request
                    && old(store).pending@[other]->Http_0.context@ == bound_to(*ctx))
            }
            &&& !result.is_new ==> after[id]@ == (if before.contains_key(id) {
                before[id]@
            } else {
                Seq::empty()
            }).push(waiter)
            &&& other != id && before.contains_key(other) ==> after.contains_key(other)
                && after[other]@ == before[other]@
            &&& other != id && old(store).pending@.contains_key(other)
                ==> final(store).pending@.contains_key(other) && final(store).pending@[other]
                == old(store).pending@[other]
        }),
{
    let (b, a) = (old(store).board(), final(store).board());
    let id = result.id@;
    let key = http::key_of(*request, *ctx)@;
    assert(key =~= asked(*request, *ctx));
    assert(a.futures.dom() =~= final(store).http.futures@.dom());
    assert(b.futures.dom() =~= old(store).http.futures@.dom());
    assert(a.futures.contains_key(id));
    assert(a.futures[id] == final(store).http.futures@[id]@);
    if b.futures.contains_key(id) {
        assert(b.futures[id] == old(store).http.futures@[id]@);
    }
    if result.is_new {
        assert(!b.waits_for(other, key));
        assert(a.futures[id] =~= seq![waiter]);
    }
    if other != id && b.futures.contains_key(other) {
        assert(a.futures.contains_key(other) && a.futures[other] == b.futures[other]);
        assert(a.futures[other] == final(store).http.futures@[other]@);
        assert(b.futures[other] == old(store).http.futures@[other]@);
    }
}

/// A check that is cancelled leaves the others that wait for its request waiting for it; the
/// request goes only when nobody waits for it any more, and no other request goes with it.
pub proof fn law_cancelled_check_leaves_the_others_waiting(
    store: &mut PolicyStore,
    check: ProxyCheckId,
    r: Result<Option<HttpTold>, PolicydError>,
    id: Seq<char>,
    i: int,
)
    requires
        call_ensures(PolicyStore::cancel_http_check, (store, check), r),
    ensures
        old(store).http.futures@.contains_key(id) && 0 <= i < old(store).http.futures@[id]@.len()
            && old(store).http.futures@[id]@[i].check != check ==> {
            &&& final(store).http.futures@.contains_key(id)
            &&& final(store).http.futures@[id]@.contains(old(store).http.futures@[id]@[i])
            &&& old(store).pending@.contains_key(id) ==> final(store).pending@.contains_key(id)
        },
        final(store).pending@.contains_key(id) ==> old(store).pending@.contains_key(id),
        old(store).pending@.contains_key(id) && !final(store).pending@.contains_key(id) ==> {
            &&& r is Ok
            &&& old(store).http.waiters@.contains_key(check)
            &&& old(store).http.waiters@[check]@ == id
            &&& !final(store).http.futures@.contains_key(id)
        },
        r matches Ok(Some(told)) ==> {
            let own = old(store).http.waiters@[check]@;
            old(store).http.futures@[own]@.len() == 1 ==> !final(store).pending@.contains_key(own)
        },
{
    let (b, a) = (old(store).board(), final(store).board());
    assert(a.waiters.dom() =~= final(store).http.waiters@.dom());
    assert(b.waiters.dom() =~= old(store).http.waiters@.dom());
    assert(a.futures.dom() =~= final(store).http.futures@.dom());
    assert(b.futures.dom() =~= old(store).http.futures@.dom());
    if b.waiters.contains_key(check) {
        let own = b.waiters[check];
        assert(own == old(store).http.waiters@[check]@);
        if b.futures.contains_key(own) {
            assert(b.futures[own] == old(store).http.futures@[own]@);
            if http::waiter_index(b.futures[own], check) is Some {
                lemma_index_names_check(b.futures[own], check);
                let k = http::waiter_index(b.futures[own], check)->0;
                let left = b.futures[own].remove(k);
                if id == own && 0 <= i < b.futures[own].len() && b.futures[own][i].check != check {
                    if i < k {
                        assert(left[i] == b.futures[own][i]);
                    } else {
                        assert(left[i - 1] == b.futures[own][i]);
                    }
                }
            }
        }
    }
    if b.futures.contains_key(id) {
        assert(b.futures[id] == old(store).http.futures@[id]@);
    }
    if a.futures.contains_key(id) {
        assert(a.futures[id] == final(store).http.futures@[id]@);
    }
    if old(store).http.futures@.contains_key(id) && 0 <= i < old(store).http.futures@[id]@.len()
        && old(store).http.futures@[id]@[i].check != check {
        assert(b.futures[id][i] == old(store).http.futures@[id]@[i]);
        assert(b.futures[id].contains(b.futures[id][i]));
        assert(a.futures.contains_key(id));
        assert(a.futures[id].contains(b.futures[id][i]));
    }
}

} // verus!
