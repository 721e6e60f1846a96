//! What network checks come to: which are answered at once, who waits, and what those who wait are
//! told.

use vstd::prelude::*;

use crate::check::PromptHost;
use crate::check;
use crate::check::CheckArgs;
use crate::check::CheckPlan;
use crate::evaluator::NetworkQuery;
use crate::flow::ProxyCheckId;
use crate::network;
use crate::network::NetworkApproval;
use crate::network::NetworkBoard;
use crate::network::NetworkCheckRequest;
use crate::network::NetworkDelivery;
use crate::network::NetworkWait;
use crate::network::NetworkWaitEvent;
use crate::network::NetworkWaitStep;
use crate::paths;
use crate::state;
use crate::state::NetworkRuleKey;
use crate::state::NetworkRuleKeyView;
use crate::state::NetworkWaiter;
use crate::state::Pending;
use crate::state::PendingNetwork;
use crate::state::VerdictEntry;
use crate::store::PolicyStore;
use crate::text;
use crate::types::CheckReply;
use crate::types::Policy;
use crate::types::Verdict;
use crate::types::VerdictSource;
use crate::waiting::WaitPhase;

verus! {

/// A verdict on the host and port is remembered, and no more than a second old.
pub open spec fn remembered(store: PolicyStore, host: Seq<char>, port: u16, now: u64) -> bool {
    let key = NetworkRuleKeyView { host, port };
    store.caches.network@.contains_key(key) && now < store.caches.network@[key].time
        + 1_000_000_000
}

/// The pending request asks for the same host and port from the same directories and session.
pub open spec fn asks_the_same(pending: Pending, req: NetworkCheckRequest) -> bool {
    &&& pending is Network
    &&& pending->Network_0.host@ == req.host@
    &&& pending->Network_0.port == req.port
    &&& paths::opt_components(pending->Network_0.context.cwd) == paths::opt_components(
        req.ctx.paths.cwd,
    )
    &&& paths::opt_components(pending->Network_0.context.home) == paths::opt_components(
        req.ctx.paths.home,
    )
    &&& paths::opt_components(pending->Network_0.context.project_root) == paths::opt_components(
        req.ctx.paths.project_root,
    )
    &&& text::opt_text(pending->Network_0.context.sandbox_session_id) == text::opt_text(
        req.ctx.sandbox_session_id,
    )
}

/// A check without a port, or on port zero, is denied; any other is judged on its own port.
pub proof fn law_no_check_passes_without_a_port<
    N: Fn(&String) -> String,
    I: Fn(&String) -> bool,
    P: Fn(&String) -> String,
>(args: CheckArgs, normalize: &N, is_ip: &I, found: &P, r: CheckPlan)
    requires
        call_ensures(check::handle_check::<N, I, P>, (args, normalize, is_ip, found), r),
    ensures
        match r {
            CheckPlan::Reply(reply) => !reply.allowed && (args.port is None || args.port->0 == 0),
            CheckPlan::Judge(req) => args.port == Some(req.port) && req.port > 0 && req.ctx
                == args.ctx && req.scheme == args.scheme,
        },
{
}

/// A check that names a host which is no address is judged by that host, in normal form; one that
/// names none, or an address, by the host that is found for the address that was connected to. The
/// user is shown the URL as it was given, or one that names the host that was found.
pub proof fn law_check_is_judged_by_the_host_it_means<
    N: Fn(&String) -> String,
    I: Fn(&String) -> bool,
    P: Fn(&String) -> String,
>(
    args: CheckArgs,
    normalize: &N,
    is_ip: &I,
    found: &P,
    req: NetworkCheckRequest,
    named: String,
    connected: String,
)
    requires
        call_ensures(
            check::handle_check::<N, I, P>,
            (args, normalize, is_ip, found),
            CheckPlan::Judge(req),
        ),
        args.host == Some(named),
        args.connect_host == Some(connected),
    ensures
        ({
            let host = text::answer(*normalize, named);
            if host@.len() > 0 && !text::holds(*is_ip, host) {
                req.host == host
            } else {
                req.host == text::answer(*normalize, text::answer(*found, connected))
            }
        }),
        req.aliases == args.aliases,
        ({
            let host = text::answer(*normalize, named);
            if host@.len() > 0 && !text::holds(*is_ip, host) {
                &&& args.url is Some ==> req.url@ == args.url->0@
                &&& args.url is None ==> req.url@ == args.scheme@ + "://"@ + host@ + (":"@
                    + text::decimal_text(req.port as nat))
            } else {
                req.url@ == args.scheme@ + "://"@ + check::url_host(
                    text::answer(*found, connected)@,
                ) + (":"@ + text::decimal_text(req.port as nat))
            }
        }),
{
    assert(check::check_stands_for(args, *normalize, *is_ip, *found, req));
}

/// A check that names no address to connect to is judged by the host that it names alone: where
/// that is an address, by the host that is found for it.
pub proof fn law_unconnected_check_is_judged_by_its_host<
    N: Fn(&String) -> String,
    I: Fn(&String) -> bool,
    P: Fn(&String) -> String,
>(
    args: CheckArgs,
    normalize: &N,
    is_ip: &I,
    found: &P,
    req: NetworkCheckRequest,
    named: String,
)
    requires
        call_ensures(
            check::handle_check::<N, I, P>,
            (args, normalize, is_ip, found),
            CheckPlan::Judge(req),
        ),
        args.host == Some(named),
        args.connect_host is None,
    ensures
        ({
            let host = text::answer(*normalize, named);
            if host@.len() > 0 && !text::holds(*is_ip, host) {
                req.host == host
            } else {
                req.host == text::answer(*normalize, text::answer(*found, named))
            }
        }),
{
    assert(check::check_stands_for(args, *normalize, *is_ip, *found, req));
}

/// What settles a check is the verdict on it, told as it is, and what the verdict uses up.
pub proof fn law_check_is_settled_by_its_verdict<M: Fn(&String, &String) -> bool>(
    store: &mut PolicyStore,
    look: &mut PolicyStore,
    q: &NetworkQuery,
    matches: &M,
    settled: Option<CheckReply>,
    verdict: Option<Verdict>,
)
    requires
        *old(store) == *old(look),
        call_ensures(PolicyStore::settle_check::<M>, (store, q, matches), settled),
        call_ensures(PolicyStore::network_verdict::<M>, (look, q, matches, true), verdict),
    ensures
        settled is Some <==> verdict is Some,
        settled is Some ==> settled->0.allowed == verdict->0.allowed && settled->0.source
            == verdict->0.source,
        final(store).session.once_allow@ == final(look).session.once_allow@,
{
}

/// A remembered verdict is told as it was, for its own host and port and for a second.
pub proof fn law_remembered_verdict_is_told_for_a_second(
    store: &PolicyStore,
    host: &String,
    port: u16,
    now: u64,
    r: Option<CheckReply>,
)
    requires
        call_ensures(PolicyStore::check_network_verdict_cache, (store, host, port, now), r),
    ensures
        r is Some <==> remembered(*store, host@, port, now),
        r is Some ==> {
            let entry = store.caches.network@[NetworkRuleKeyView { host: host@, port }];
            r->0.allowed == entry.allowed && r->0.source == entry.source
        },
{
}

proof fn lemma_waits(board: NetworkBoard, req: NetworkCheckRequest, id: Seq<char>)
    ensures
        board.waits_for(id, req) == (board.pending.contains_key(id) && asks_the_same(
            board.pending[id],
            req,
        )),
{
}

/// Asking for approval of a network request is answered with the verdict where there is one.
/// Where there is none it is blocked when nobody may be asked, and else answered with the verdict
/// that is remembered. It waits only where neither is, and is then refused only for the numbers
/// that wait or a check that waits already.
pub proof fn law_request_is_answered_remembered_or_waits<M: Fn(&String, &String) -> bool>(
    store: &mut PolicyStore,
    look: &mut PolicyStore,
    req: &NetworkCheckRequest,
    keys: &Vec<NetworkRuleKey>,
    sessions: &Vec<String>,
    policy: &Policy,
    q: &NetworkQuery,
    matches: &M,
    waiter: NetworkWaiter,
    created_at: u64,
    now: u64,
    r: NetworkApproval,
    verdict: Option<Verdict>,
)
    requires
        *old(store) == *old(look),
        *q == (NetworkQuery { host: &req.host, port: req.port, keys, sessions, policy }),
        call_ensures(
            PolicyStore::request_network_approval::<M>,
            (store, req, keys, sessions, policy, matches, waiter, created_at, now),
            r,
        ),
        call_ensures(PolicyStore::network_verdict::<M>, (look, q, matches, true), verdict),
    ensures
        match verdict {
            Some(v) => r is Reply && r->Reply_0.allowed == v.allowed && r->Reply_0.source
                == v.source && final(store).pending@ == old(store).pending@,
            None => if !old(store).args.interactive_approval {
                r is Reply && !r->Reply_0.allowed && final(store).pending@ == old(store).pending@
            } else if remembered(*old(store), req.host@, req.port, now) {
                let entry = old(store).caches.network@[NetworkRuleKeyView {
                    host: req.host@,
                    port: req.port,
                }];
                r is Reply && r->Reply_0.allowed == entry.allowed && r->Reply_0.source
                    == entry.source && final(store).pending@ == old(store).pending@
            } else {
                match r {
                    NetworkApproval::Reply(reply) => !reply.allowed && reply.source is Blocked
                        && final(store).network_board() == old(store).network_board(),
                    NetworkApproval::Wait(result) => {
                        let id = result.id@;
                        &&& final(store).pending@.contains_key(id)
                        &&& asks_the_same(final(store).pending@[id], *req)
                        &&& final(store).waiters.network@.contains_key(id)
                        &&& final(store).waiters.network@[id]@.len() > 0
                        &&& final(store).waiters.network@[id]@.last() == waiter
                        &&& !result.is_new ==> final(store).pending@ == old(store).pending@
                        &&& result.is_new ==> old(store).pending@.len() < old(store).limits.pending_approvals
                    },
                }
            },
        },
        final(store).session.once_allow@ == final(look).session.once_allow@,
        final(store).caches.network == old(store).caches.network,
{
    let (b, a) = (old(store).network_board(), final(store).network_board());
    assert(a.waiters.dom() =~= final(store).waiters.network@.dom());
    assert(b.waiters.dom() =~= old(store).waiters.network@.dom());
    let fresh_id = choose|fresh_id: String|
        crate::ids::pending_id_form(fresh_id@, "net:"@) && #[trigger] network::approval_requested(
            *old(store),
            *final(store),
            *req,
            network::query_of(req, keys, sessions, policy),
            *matches,
            waiter,
            fresh_id,
            created_at,
            now,
            r,
        );
    assert(network::query_of(req, keys, sessions, policy) == *q);
    if verdict is None && old(store).args.interactive_approval && !remembered(
        *old(store),
        req.host@,
        req.port,
        now,
    ) {
        if let NetworkApproval::Wait(result) = r {
            let id = result.id@;
            lemma_waits(b, *req, id);
            if result.is_new {
                assert(a.waiters[id] == seq![waiter]);
            } else {
                assert(b.waits_for(id, *req));
                assert(a == b.joined(id, waiter));
                assert(a.waiters[id].last() == waiter);
            }
            assert(a.waiters.contains_key(id));
            assert(final(store).waiters.network@[id]@ == a.waiters[id]);
        }
    }
}

/// A caller that asks waits for its own request alone, and nobody else waits elsewhere than
/// before. A caller is refused only where its check waits already, or too many wait.
pub proof fn law_caller_waits_for_its_own_request(
    store: &mut PolicyStore,
    req: &NetworkCheckRequest,
    waiter: NetworkWaiter,
    fresh_id: String,
    created_at: u64,
    r: Result<network::PendingNetResult, CheckReply>,
    other: Seq<char>,
)
    requires
        call_ensures(
            PolicyStore::dedup_or_create_pending_network,
            (store, req, waiter, fresh_id, created_at),
            r,
        ),
    ensures
        match r {
            Ok(result) => {
                let id = result.id@;
                &&& final(store).pending@.contains_key(id)
                &&& asks_the_same(final(store).pending@[id], *req)
                &&& final(store).waiters.network@.contains_key(id)
                &&& final(store).waiters.network@[id]@.len() > 0
                &&& final(store).waiters.network@[id]@.last() == waiter
                &&& !result.is_new ==> final(store).pending@ == old(store).pending@
                &&& result.is_new ==> id == fresh_id@
                &&& other != id && old(store).waiters.network@.contains_key(other) ==> final(store).waiters.network@.contains_key(other) && final(store).waiters.network@[other]@ == old(store).waiters.network@[other]@
            },
            Err(reply) => {
                &&& !reply.allowed
                &&& final(store).network_board() == old(store).network_board()
                &&& {
                    ||| waiter.proxy is Some && exists|id: Seq<char>, i: int|
                        #![trigger old(store).waiters.network@[id]@[i]]
                        old(store).waiters.network@.contains_key(id) && 0 <= i < old(store).waiters.network@[id]@.len() && old(store).waiters.network@[id]@[i].proxy == waiter.proxy
                    ||| old(store).pending@.len() >= old(store).limits.pending_approvals
                    ||| old(store).limits.waiters_per_pending == 0
                    ||| exists|id: Seq<char>|
                        old(store).waiters.network@.contains_key(id) && (#[trigger] old(store).waiters.network@[id])@.len() >= old(store).limits.waiters_per_pending
                }
            },
        },
{
    let (b, a) = (old(store).network_board(), final(store).network_board());
    assert(a.waiters.dom() =~= final(store).waiters.network@.dom());
    assert(b.waiters.dom() =~= old(store).waiters.network@.dom());
    match r {
        Ok(result) => {
            let id = result.id@;
            lemma_waits(b, *req, id);
            if result.is_new {
                assert(a.waiters[id] == seq![waiter]);
            } else {
                assert(a == b.joined(id, waiter));
                assert(a.waiters[id].last() == waiter);
            }
            assert(a.waiters.contains_key(id));
            assert(final(store).waiters.network@[id]@ == a.waiters[id]);
            if other != id && b.waiters.contains_key(other) {
                assert(a.waiters.contains_key(other) && a.waiters[other] == b.waiters[other]);
                assert(final(store).waiters.network@[other]@ == a.waiters[other]);
                assert(old(store).waiters.network@[other]@ == b.waiters[other]);
            }
        },
        Err(reply) => {
            if waiter.proxy is Some && b.has_proxy(waiter.proxy->0) {
                let (id, i) = choose|id: Seq<char>, i: int|
                    #![trigger b.waiters[id][i]]
                    b.waiters.contains_key(id) && 0 <= i < b.waiters[id].len()
                        && b.waiters[id][i].proxy == waiter.proxy;
                assert(old(store).waiters.network@[id]@ == b.waiters[id]);
                assert(old(store).waiters.network@[id]@[i].proxy == waiter.proxy);
            } else if exists|id: Seq<char>| #[trigger] b.waits_for(id, *req) {
                let id = choose|id: Seq<char>| #[trigger]
                    b.waits_for(id, *req) && (if b.waiting(id) >= old(store).limits.waiters_per_pending {
                        &&& r matches Err(reply)
                        &&& reply.says_blocked(
                            "agent-sandbox: too many waiters for one network approval"@,
                        )
                        &&& a == b
                    } else {
                        &&& r matches Ok(result)
                        &&& result.id@ == id
                        &&& !result.is_new
                        &&& a == b.joined(id, waiter)
                    });
                if b.waiters.contains_key(id) {
                    assert(old(store).waiters.network@[id]@ == b.waiters[id]);
                }
            }
        },
    }
}

/// Waiting for a decision on a network request never allows by itself: a caller that was answered
/// passes the answer on, any other that ends is blocked, and so are those who leave with it. A
/// caller gives up for want of a UI, or of a decision, only when its time is up.
pub proof fn law_network_wait_allows_only_what_was_answered(
    store: &mut PolicyStore,
    wait: &NetworkWait,
    phase: WaitPhase,
    event: NetworkWaitEvent,
    now: u64,
    reply: CheckReply,
    told: Option<NetworkDelivery>,
)
    requires
        call_ensures(
            PolicyStore::await_network_verdict,
            (store, wait, phase, event, now),
            NetworkWaitStep::Done { reply, told },
        ),
    ensures
        match event {
            NetworkWaitEvent::Answered(given) => reply == given && told is None,
            _ => !reply.allowed && reply.source is Blocked,
        },
        told is Some ==> !told->0.reply.allowed,
        event is Look ==> match phase {
            WaitPhase::ForUi { deadline } => now >= deadline && !event->has_ui,
            WaitPhase::ForVerdict { deadline } => now >= deadline,
        },
        wait.proxy is None && (event is Look || event is Cancelled) ==> !final(store).waiters.network@.contains_key(wait.pending_id@),
{
    let (b, a) = (old(store).network_board(), final(store).network_board());
    assert(a.waiters.dom() =~= final(store).waiters.network@.dom());
    assert(b.waiters.dom() =~= old(store).waiters.network@.dom());
}

/// A decision on a network request reaches every caller that waits for it, in the order in which
/// they came, and nobody else; it is told as it was made. Nobody waits for the request after
/// that, and those who wait for others wait on.
pub proof fn law_decision_reaches_every_caller(
    store: &mut PolicyStore,
    pending_id: &String,
    allowed: bool,
    source: VerdictSource,
    cache_key: Option<NetworkRuleKey>,
    now: u64,
    r: Option<NetworkDelivery>,
    other: Seq<char>,
)
    requires
        call_ensures(
            PolicyStore::finish_network,
            (store, pending_id, allowed, source, cache_key, now),
            r,
        ),
    ensures
        r is Some <==> old(store).waiters.network@.contains_key(pending_id@),
        r matches Some(delivery) ==> {
            let waiters = old(store).waiters.network@[pending_id@]@;
            &&& delivery.reply.allowed == allowed
            &&& delivery.reply.source == source
            &&& delivery.told@.len() == waiters.len()
            &&& forall|i: int|
                0 <= i < waiters.len() ==> #[trigger] delivery.told@[i] == waiters[i].waiter
        },
        !final(store).waiters.network@.contains_key(pending_id@),
        other != pending_id@ && old(store).waiters.network@.contains_key(other) ==> final(store).waiters.network@.contains_key(other) && final(store).waiters.network@[other]@ == old(store).waiters.network@[other]@,
        final(store).pending@ == old(store).pending@,
        final(store).session == old(store).session,
{
    let (b, a) = (old(store).network_board(), final(store).network_board());
    assert(a.waiters.dom() =~= final(store).waiters.network@.dom());
    assert(b.waiters.dom() =~= old(store).waiters.network@.dom());
    if r is Some {
        assert(b.waiters[pending_id@] == old(store).waiters.network@[pending_id@]@);
    }
    if other != pending_id@ && b.waiters.contains_key(other) {
        assert(a.waiters.contains_key(other) && a.waiters[other] == b.waiters[other]);
        assert(final(store).waiters.network@[other]@ == a.waiters[other]);
        assert(old(store).waiters.network@[other]@ == b.waiters[other]);
    }
}

proof fn lemma_kept<K>(
    before: Map<K, VerdictEntry>,
    after: Map<K, VerdictEntry>,
    limit: nat,
    key: K,
)
    requires
        state::newest_kept(before, after, limit),
        after.contains_key(key),
    ensures
        before.contains_key(key),
        before[key] == after[key],
{
    assert(after.dom().contains(key));
    assert(before.dom().contains(key));
}

/// What is remembered of a decision on a network request is the decision as it was made, under
/// the host and port that it is for; what is remembered of others is not changed. Where there is
/// room it is remembered.
pub proof fn law_decision_is_remembered_as_it_was_made(
    store: &mut PolicyStore,
    pending_id: &String,
    allowed: bool,
    source: VerdictSource,
    cache_key: NetworkRuleKey,
    now: u64,
    r: Option<NetworkDelivery>,
    key: NetworkRuleKeyView,
)
    requires
        call_ensures(
            PolicyStore::finish_network,
            (store, pending_id, allowed, source, Some(cache_key), now),
            r,
        ),
    ensures
        ({
            let before = old(store).caches.network@;
            let after = final(store).caches.network@;
            let mine = NetworkRuleKeyView { host: cache_key.host@, port: cache_key.port };
            &&& after.contains_key(key) && key != mine ==> before.contains_key(key) && after[key]
                == before[key]
            &&& after.contains_key(mine) ==> after[mine].allowed == allowed && after[mine].source
                == source && after[mine].time == now
            &&& before.dom().finite() && before.len() < old(store).limits.verdict_cache
                ==> after.contains_key(mine)
        }),
{
    let before = old(store).caches.network@;
    let after = final(store).caches.network@;
    let mine = NetworkRuleKeyView { host: cache_key.host@, port: cache_key.port };
    let all = before.insert(mine, VerdictEntry { allowed, source, time: now });
    let limit = old(store).limits.verdict_cache as nat;
    assert(cache_key@ == mine);
    assert(state::newest_kept(all, after, limit));
    if after.contains_key(key) {
        lemma_kept(all, after, limit, key);
    }
    if after.contains_key(mine) {
        lemma_kept(all, after, limit, mine);
    }
}

/// When rules or sessions come to allow pending network requests, exactly those leave the board
/// whose present verdict stands for good and is no denial of a rule; their callers, and no
/// others, are told that they are allowed.
pub proof fn law_only_requests_that_are_now_allowed_are_answered<
    A: Fn(&PendingNetwork) -> Option<Verdict>,
>(
    store: &mut PolicyStore,
    allow: A,
    now: u64,
    r: Vec<(String, NetworkDelivery)>,
    id: Seq<char>,
)
    requires
        call_ensures(
            PolicyStore::resolve_pending_declarative_allow::<A>,
            (store, allow, now),
            r,
        ),
    ensures
        ({
            let pending = old(store).pending@;
            let answered = pending.contains_key(id) && pending[id] is Network
                && pending[id]->Network_0.port > 0 && text::answer(
                allow,
                pending[id]->Network_0,
            ) is Some && ({
                let verdict = text::answer(allow, pending[id]->Network_0)->0;
                &&& !(verdict.source is Policy && !verdict.allowed)
                &&& verdict.source != VerdictSource::Scope(crate::types::ApprovalScope::Once)
            });
            &&& final(store).pending@.contains_key(id) == (pending.contains_key(id) && !answered)
            &&& final(store).pending@.contains_key(id) ==> final(store).pending@[id]
                == pending[id]
            &&& answered && old(store).waiters.network@.contains_key(id) ==> exists|i: int|
                0 <= i < r@.len() && (#[trigger] r@[i]).0@ == id
            &&& forall|i: int|
                0 <= i < r@.len() && (#[trigger] r@[i]).0@ == id ==> answered && r@[i].1.reply.allowed
                    && r@[i].1.reply.source == text::answer(
                    allow,
                    pending[id]->Network_0,
                )->0.source && r@[i].1.told@.len() == old(store).waiters.network@[id]@.len() && forall|j: int|
                    0 <= j < r@[i].1.told@.len() ==> #[trigger] r@[i].1.told@[j] == old(store).waiters.network@[id]@[j].waiter
        }),
{
    let (b, a) = (old(store).network_board(), final(store).network_board());
    assert(a.waiters.dom() =~= final(store).waiters.network@.dom());
    assert(b.waiters.dom() =~= old(store).waiters.network@.dom());
    let done = Set::new(|id: Seq<char>| network::now_allowed(b.pending, allow, id));
    assert(done.contains(id) == network::now_allowed(b.pending, allow, id));
    assert forall|i: int| 0 <= i < r@.len() && (#[trigger] r@[i]).0@ == id implies {
        &&& network::told_allowed(b, allow, id, r@[i].1)
        &&& b.waiters[id] == old(store).waiters.network@[id]@
    } by {}
}

/// The user is shown the URL as it was given, or one that names the scheme, the host that is judged
/// and the port; an address of the sixth version stands in brackets where it was looked up.
pub proof fn law_shown_url_names_the_host(
    scheme: &str,
    provided: Option<String>,
    host: &str,
    port: u16,
    prompt: PromptHost,
    written: String,
    v6: bool,
    r: String,
)
    requires
        call_ensures(check::prompt_url, (scheme, provided, host, port, prompt), r),
        call_ensures(check::format_host_for_url, (host,), written),
        call_ensures(check::is_ipv6_literal, (host,), v6),
    ensures
        written@ == (if v6 {
            "["@ + host@ + "]"@
        } else {
            host@
        }),
        prompt == PromptHost::AsProvided && provided is Some ==> r@ == provided->0@,
        prompt == PromptHost::AsProvided && provided is None ==> r@ == scheme@ + "://"@ + host@ + (
        ":"@ + text::decimal_text(port as nat)),
        prompt == PromptHost::ResolvedFromIp ==> r@ == scheme@ + "://"@ + written@ + (":"@
            + text::decimal_text(port as nat)),
{
}

/// A caller joins those who ask for the same: they stay where they were, with the caller behind
/// them, and a new request is filed only where nobody asks for the same.
pub proof fn law_network_caller_joins_those_who_ask_the_same(
    store: &mut PolicyStore,
    req: &NetworkCheckRequest,
    waiter: NetworkWaiter,
    fresh_id: String,
    created_at: u64,
    result: network::PendingNetResult,
    other: Seq<char>,
)
    requires
        call_ensures(
            PolicyStore::dedup_or_create_pending_network,
            (store, req, waiter, fresh_id, created_at),
            Ok(result),
        ),
    ensures
        ({
            let id = result.id@;
            let before = old(store).waiters.network@;
            let after = final(store).waiters.network@;
            &&& result.is_new ==> {
                &&& after[id]@ == seq![waiter]
                &&& old(store).pending@.contains_key(other) ==> !asks_the_same(
                    old(store).pending@[other],
                    *req,
                )
            }
            &&& !result.is_new ==> after[id]@ == (if before.contains_key(id) {
                before[id]@
            } else {
                Seq::empty()
            }).push(waiter)
            &&& other != id && old(store).pending@.contains_key(other)
                ==> final(store).pending@.contains_key(other) && final(store).pending@[other]
                == old(store).pending@[other]
        }),
{
    let (b, a) = (old(store).network_board(), final(store).network_board());
    let id = result.id@;
    assert(a.waiters.dom() =~= final(store).waiters.network@.dom());
    assert(b.waiters.dom() =~= old(store).waiters.network@.dom());
    assert(a.waiters.contains_key(id));
    assert(a.waiters[id] == final(store).waiters.network@[id]@);
    if b.waiters.contains_key(id) {
        assert(b.waiters[id] == old(store).waiters.network@[id]@);
    }
    if result.is_new {
        lemma_waits(b, *req, other);
        assert(!b.waits_for(other, *req));
    } else {
        assert(a == b.joined(id, waiter));
    }
}

proof fn lemma_index_is_first(waiters: Seq<NetworkWaiter>, check: ProxyCheckId)
    ensures
        ({
            let i = network::proxy_index(waiters, check);
            &&& 0 <= i <= waiters.len()
            &&& i < waiters.len() ==> waiters[i].proxy == Some(check)
            &&& forall|j: int| 0 <= j < i ==> (#[trigger] waiters[j]).proxy != Some(check)
        }),
    decreases waiters.len(),
{
    if waiters.len() > 0 && waiters[0].proxy != Some(check) {
        let rest = waiters.skip(1);
        lemma_index_is_first(rest, check);
        let i = network::proxy_index(waiters, check);
        assert forall|j: int| 0 <= j < i implies (#[trigger] waiters[j]).proxy != Some(check) by {
            if j > 0 {
                assert(rest[j - 1] == waiters[j]);
            }
        }
    }
}

/// A proxy's check that no longer waits leaves alone: every other caller stays, and the request
/// goes only when nobody waits for it any more. Without a check everybody who waits for the
/// request leaves with it. Those who leave are told, and no other request is touched.
pub proof fn law_cancelled_network_check_leaves_alone(
    store: &mut PolicyStore,
    pending_id: &String,
    proxy: Option<ProxyCheckId>,
    r: Vec<u64>,
    other: Seq<char>,
    i: int,
)
    requires
        call_ensures(PolicyStore::cancel_network_wait, (store, pending_id, proxy), r),
    ensures
        ({
            let id = pending_id@;
            let before = old(store).waiters.network@;
            let after = final(store).waiters.network@;
            &&& other != id ==> {
                &&& after.contains_key(other) <==> before.contains_key(other)
                &&& before.contains_key(other) ==> after[other]@ == before[other]@
                &&& final(store).pending@.contains_key(other)
                    <==> old(store).pending@.contains_key(other)
            }
            &&& before.contains_key(id) && proxy is None ==> {
                &&& !after.contains_key(id)
                &&& !final(store).pending@.contains_key(id)
                &&& r@.len() == before[id]@.len()
                &&& 0 <= i < r@.len() ==> r@[i] == before[id]@[i].waiter
            }
            &&& before.contains_key(id) && proxy is Some && 0 <= i < before[id]@.len()
                && before[id]@[i].proxy != proxy ==> {
                &&& after.contains_key(id)
                &&& after[id]@.contains(before[id]@[i])
                &&& old(store).pending@.contains_key(id) ==> final(store).pending@.contains_key(id)
            }
            &&& before.contains_key(id) && proxy is Some && 0 <= i < before[id]@.len()
                && before[id]@[i].proxy == proxy && (forall|j: int|
                0 <= j < before[id]@.len() && j != i ==> (#[trigger] before[id]@[j]).proxy != proxy)
                ==> {
                &&& r@ == seq![before[id]@[i].waiter]
                &&& after.contains_key(id) ==> after[id]@ == before[id]@.remove(i)
                &&& !after.contains_key(id) ==> before[id]@.len() == 1
            }
        }),
{
    let id = pending_id@;
    let (b, a) = (old(store).network_board(), final(store).network_board());
    assert(a.waiters.dom() =~= final(store).waiters.network@.dom());
    assert(b.waiters.dom() =~= old(store).waiters.network@.dom());
    if b.waiters.contains_key(id) {
        assert(b.waiters[id] == old(store).waiters.network@[id]@);
        if proxy is Some {
            lemma_index_is_first(b.waiters[id], proxy->0);
            let k = network::proxy_index(b.waiters[id], proxy->0);
            let left = if k < b.waiters[id].len() {
                b.waiters[id].remove(k)
            } else {
                b.waiters[id]
            };
            if 0 <= i < b.waiters[id].len() && b.waiters[id][i].proxy != proxy {
                if i < k {
                    assert(left[i] == b.waiters[id][i]);
                } else {
                    assert(left[i - 1] == b.waiters[id][i]);
                }
            }
        }
    }
    if a.waiters.contains_key(id) {
        assert(a.waiters[id] == final(store).waiters.network@[id]@);
    }
    if other != id {
        assert(a.waiters.contains_key(other) == b.waiters.contains_key(other));
        if b.waiters.contains_key(other) {
            assert(a.waiters[other] == b.waiters[other]);
            assert(a.waiters[other] == final(store).waiters.network@[other]@);
            assert(b.waiters[other] == old(store).waiters.network@[other]@);
        }
    }
}

proof fn lemma_all_remembered(
    before: Map<NetworkRuleKeyView, VerdictEntry>,
    after: Map<NetworkRuleKeyView, VerdictEntry>,
    entries: Seq<(NetworkRuleKeyView, VerdictEntry)>,
    limit: usize,
    key: NetworkRuleKeyView,
)
    requires
        network::all_remembered(before, after, entries, limit),
        after.contains_key(key),
    ensures
        (before.contains_key(key) && after[key] == before[key]) || exists|i: int|
            0 <= i < entries.len() && (#[trigger] entries[i]).0 == key && after[key]
                == entries[i].1,
    decreases entries.len(),
{
    if entries.len() > 0 {
        let front = entries.drop_last();
        let (last, entry) = entries.last();
        let between = choose|between: Map<NetworkRuleKeyView, VerdictEntry>|
            network::all_remembered(before, between, front, limit) && #[trigger] network::remembered(
                between,
                after,
                last,
                entry,
                limit,
            );
        lemma_kept(between.insert(last, entry), after, limit as nat, key);
        if key == last {
            assert(entries[entries.len() - 1] == (last, entry));
        } else {
            lemma_all_remembered(before, between, front, limit, key);
            if exists|i: int|
                0 <= i < front.len() && (#[trigger] front[i]).0 == key && between[key]
                    == front[i].1 {
                let i = choose|i: int|
                    0 <= i < front.len() && (#[trigger] front[i]).0 == key && between[key]
                        == front[i].1;
                assert(entries[i] == front[i]);
            }
        }
    }
}

/// When pending requests come to be allowed, what is remembered of a host besides what was is that
/// it is allowed: for the host and port of one of those requests, from the source that allows it.
pub proof fn law_only_what_is_now_allowed_is_remembered<
    A: Fn(&PendingNetwork) -> Option<Verdict>,
>(
    store: &mut PolicyStore,
    allow: A,
    now: u64,
    r: Vec<(String, NetworkDelivery)>,
    key: NetworkRuleKeyView,
)
    requires
        call_ensures(
            PolicyStore::resolve_pending_declarative_allow::<A>,
            (store, allow, now),
            r,
        ),
        final(store).caches.network@.contains_key(key),
    ensures
        ({
            let entry = final(store).caches.network@[key];
            ||| old(store).caches.network@.contains_key(key) && entry
                == old(store).caches.network@[key]
            ||| entry.allowed && entry.time == now && exists|id: Seq<char>|
                {
                    &&& #[trigger] old(store).pending@.contains_key(id)
                    &&& !final(store).pending@.contains_key(id)
                    &&& old(store).pending@[id] is Network
                    &&& old(store).pending@[id]->Network_0.host@ == key.host
                    &&& old(store).pending@[id]->Network_0.port == key.port
                    &&& text::answer(allow, old(store).pending@[id]->Network_0) is Some
                    &&& entry.source == text::answer(
                        allow,
                        old(store).pending@[id]->Network_0,
                    )->0.source
                }
        }),
{
    let pending = old(store).pending@;
    let order = choose|order: Seq<Seq<char>>|
        order.no_duplicates() && order.to_set() == Set::new(
            |id: Seq<char>| network::now_allowed(pending, allow, id),
        ) && #[trigger] network::remembered_in_turn(
            *old(store),
            *final(store),
            allow,
            now,
            order,
        );
    let entries = network::allowed_entries(pending, allow, now, order);
    lemma_all_remembered(
        old(store).caches.network@,
        final(store).caches.network@,
        entries,
        old(store).limits.verdict_cache,
        key,
    );
    let entry = final(store).caches.network@[key];
    if !(old(store).caches.network@.contains_key(key) && entry
        == old(store).caches.network@[key]) {
        let i = choose|i: int|
            0 <= i < entries.len() && (#[trigger] entries[i]).0 == key && entry == entries[i].1;
        let id = order[i];
        assert(order.to_set().contains(id));
        assert(network::now_allowed(pending, allow, id));
        let (b, a) = (old(store).network_board(), final(store).network_board());
        let done = Set::new(|id: Seq<char>| network::now_allowed(b.pending, allow, id));
        assert(done.contains(id));
        assert(pending.contains_key(id));
    }
}

/// A wait that runs out makes nobody allowed: what is remembered of it is that its own host and
/// port were blocked, and only where nobody waits for the request any more. Those who leave with
/// it are told as they are when it is cancelled.
pub proof fn law_wait_that_runs_out_allows_nothing(
    store: &mut PolicyStore,
    cancelled: &mut PolicyStore,
    wait: &NetworkWait,
    now: u64,
    r: Vec<u64>,
    told: Vec<u64>,
    key: NetworkRuleKeyView,
)
    requires
        *old(store) == *old(cancelled),
        call_ensures(PolicyStore::expire_network_wait, (store, wait, now), r),
        call_ensures(
            PolicyStore::cancel_network_wait,
            (cancelled, &wait.pending_id, wait.proxy),
            told,
        ),
    ensures
        r@ == told@,
        final(store).pending@ == final(cancelled).pending@,
        final(store).caches.network@.contains_key(key) ==> {
            let entry = final(store).caches.network@[key];
            ||| old(store).caches.network@.contains_key(key) && entry
                == old(store).caches.network@[key]
            ||| !entry.allowed && entry.source is Blocked && entry.time == now && key.host
                == wait.host@ && key.port == wait.port
        },
        final(store).waiters.network@.contains_key(wait.pending_id@) ==> final(store).caches
            == old(store).caches,
        final(store).session == old(store).session,
{
    let (b, a) = (old(store).network_board(), final(store).network_board());
    let left = final(cancelled).network_board();
    assert(a.waiters.dom() =~= final(store).waiters.network@.dom());
    assert(a.pending == left.pending);
    let own = NetworkRuleKeyView { host: wait.host@, port: wait.port };
    let entry = VerdictEntry { allowed: false, source: VerdictSource::Blocked, time: now };
    if final(store).caches.network@.contains_key(key) && !a.waiters.contains_key(
        wait.pending_id@,
    ) {
        lemma_kept(
            old(store).caches.network@.insert(own, entry),
            final(store).caches.network@,
            old(store).limits.verdict_cache as nat,
            key,
        );
    }
}

} // verus!
