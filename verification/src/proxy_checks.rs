//! Checks that the proxy has under way: how they begin, end and are cancelled.

use vstd::prelude::*;

use crate::error::proxy_error;
use crate::error::PolicydError;
use crate::flow::NetworkFlowKey;
use crate::flow::ProxyCheckId;
use crate::flow::ProxySessionToken;
use crate::http;
use crate::http::Board;
use crate::http::HttpCheckReply;
use crate::http::HttpTold;
use crate::network::NetworkCheckRequest;
use crate::proxy;
use crate::proxy::FlowCheck;
use crate::proxy::MAX_PROXY_CANCEL_TOMBSTONES;
use crate::state;
use crate::state::HttpState;
use crate::state::HttpWaiter;
use crate::state::ProxyCancellation;
use crate::state::ProxyFlowState;
use crate::state::ProxyState;
use crate::store::PolicyStore;
use crate::table::Table;
use crate::text;
use crate::types::CheckReply;

verus! {

/// How a check of the proxy begins.
#[derive(Debug, PartialEq, Eq)]
pub enum CheckStart<T> {
    /// The check was cancelled before it began: answer at once.
    Cancelled(T),
    /// The check is under way.
    Started,
}

/// What a transport check of a claimed flow asks approval for. `normalize` gives the form that
/// rules name a host in.
pub fn flow_request<N: Fn(&String) -> String>(
    flow: FlowCheck,
    scheme: String,
    normalize: &N,
) -> (r: NetworkCheckRequest)
    requires
        text::determined(*normalize),
    ensures
        r.host == text::answer(*normalize, flow.host),
        r.port == flow.port,
        r.scheme == scheme,
        r.url@.len() == 0,
        r.aliases@.len() == 0,
        r.ctx == flow.context,
{
    NetworkCheckRequest {
        host: normalize(&flow.host),
        port: flow.port,
        scheme,
        url: String::new(),
        aliases: Vec::new(),
        ctx: flow.context,
    }
}

/// Why a check of the proxy cannot begin, if it cannot.
pub open spec fn check_refusal(
    proxy: ProxyState,
    key: ProxyCheckId,
    duplicate: Seq<char>,
) -> Option<Seq<char>> {
    if !proxy.session_is(key.session) {
        Some("proxy session token is invalid"@)
    } else if proxy.cancellations@.contains_key(key) {
        match proxy.cancellations@[key] {
            ProxyCancellation::Canceled => None,
            ProxyCancellation::Active(_) => Some(duplicate),
        }
    } else if proxy.cancellations@.len() >= MAX_PROXY_CANCEL_TOMBSTONES {
        Some("too many in-flight proxy checks"@)
    } else {
        None
    }
}

/// The checks under way after one more was asked for.
pub open spec fn check_begun(
    proxy: ProxyState,
    key: ProxyCheckId,
    waiter: u64,
    duplicate: Seq<char>,
) -> Map<ProxyCheckId, ProxyCancellation> {
    if check_refusal(proxy, key, duplicate) is Some {
        proxy.cancellations@
    } else if proxy.cancellations@.contains_key(key) {
        proxy.cancellations@.remove(key)
    } else {
        proxy.cancellations@.insert(key, ProxyCancellation::Active(waiter))
    }
}

/// The checks known after one was cancelled.
pub open spec fn check_cancelled(
    cancellations: Map<ProxyCheckId, ProxyCancellation>,
    key: ProxyCheckId,
) -> Map<ProxyCheckId, ProxyCancellation> {
    if cancellations.contains_key(key) {
        cancellations.remove(key)
    } else if cancellations.len() < MAX_PROXY_CANCEL_TOMBSTONES {
        cancellations.insert(key, ProxyCancellation::Canceled)
    } else {
        cancellations
    }
}

/// Whom to tell of a cancelled check.
#[derive(Debug, PartialEq, Eq)]
pub struct Cancelled {
    /// The check to interrupt, where it is under way.
    pub interrupted: Option<u64>,
    /// The caller that waited for an HTTP decision, and what it is told.
    pub waiting: Option<HttpTold>,
}

/// Whom to tell of a closed session.
#[derive(Debug, PartialEq, Eq)]
pub struct Closed {
    /// The checks to interrupt.
    pub interrupted: Vec<u64>,
    /// The callers that waited for HTTP decisions.
    pub waiting: Vec<u64>,
    /// What those callers are told.
    pub reply: HttpCheckReply,
}

impl PolicyStore {
    /// Only the checks of the proxy differ.
    pub open spec fn checks_changed(&self, before: &PolicyStore) -> bool {
        *self == (PolicyStore {
            proxy: ProxyState { cancellations: self.proxy.cancellations, ..before.proxy },
            ..*before
        })
    }

    fn start_proxy_check(&mut self, key: ProxyCheckId, waiter: u64, duplicate: &str) -> (r: Result<
        bool,
        PolicydError,
    >)
        requires
            old(self).wf(),
        ensures
            final(self).wf(),
            final(self).checks_changed(old(self)),
            proxy::refused(r, check_refusal(old(self).proxy, key, duplicate@)),
            final(self).proxy.cancellations@ == check_begun(
                old(self).proxy,
                key,
                waiter,
                duplicate@,
            ),
            r matches Ok(started) ==> started == !old(self).proxy.cancellations@.contains_key(key),
    {
        let active = match &self.proxy.session {
            Some(session) => session.token == key.session,
            None => false,
        };
        if !active {
            return Err(proxy_error("proxy session token is invalid"));
        }
        let known = match self.proxy.cancellations.get(&key) {
            Some(state) => Some(*state),
            None => None,
        };
        match known {
            Some(ProxyCancellation::Canceled) => {
                let _ = self.proxy.cancellations.remove(&key);
                Ok(false)
            },
            Some(ProxyCancellation::Active(_)) => Err(proxy_error(duplicate)),
            None => {
                if self.proxy.cancellations.len() >= MAX_PROXY_CANCEL_TOMBSTONES {
                    return Err(proxy_error("too many in-flight proxy checks"));
                }
                let _ = self.proxy.cancellations.insert(key, ProxyCancellation::Active(waiter));
                Ok(true)
            },
        }
    }

    /// Begin a transport check for a claimed flow. `waiter` names the caller to interrupt where
    /// the check is cancelled.
    pub fn check_network_flow(&mut self, key: ProxyCheckId, waiter: u64) -> (r: Result<
        CheckStart<CheckReply>,
        PolicydError,
    >)
        requires
            old(self).wf(),
        ensures
            final(self).wf(),
            final(self).configured_as(old(self)),
            final(self).checks_changed(old(self)),
            proxy::refused(
                r,
                check_refusal(
                    old(self).proxy,
                    key,
                    "duplicate in-flight network request ID"@,
                ),
            ),
            final(self).proxy.cancellations@ == check_begun(
                old(self).proxy,
                key,
                waiter,
                "duplicate in-flight network request ID"@,
            ),
            r matches Ok(start) ==> match start {
                CheckStart::Started => !old(self).proxy.cancellations@.contains_key(key),
                CheckStart::Cancelled(reply) => {
                    &&& old(self).proxy.cancellations@.contains_key(key)
                    &&& reply.says_blocked("agent-sandbox: network check cancelled"@)
                },
            },
    {
        match self.start_proxy_check(key, waiter, "duplicate in-flight network request ID") {
            Err(e) => Err(e),
            Ok(true) => Ok(CheckStart::Started),
            Ok(false) => Ok(
                CheckStart::Cancelled(
                    CheckReply::blocked("agent-sandbox: network check cancelled"),
                ),
            ),
        }
    }

    /// Begin a check of a decoded HTTP request for a claimed flow. `waiter` names the caller to
    /// interrupt where the check is cancelled.
    pub fn check_http(&mut self, key: ProxyCheckId, waiter: u64) -> (r: Result<
        CheckStart<HttpCheckReply>,
        PolicydError,
    >)
        requires
            old(self).wf(),
        ensures
            final(self).wf(),
            final(self).configured_as(old(self)),
            final(self).checks_changed(old(self)),
            proxy::refused(
                r,
                check_refusal(old(self).proxy, key, "duplicate in-flight HTTP request ID"@),
            ),
            final(self).proxy.cancellations@ == check_begun(
                old(self).proxy,
                key,
                waiter,
                "duplicate in-flight HTTP request ID"@,
            ),
            r matches Ok(start) ==> match start {
                CheckStart::Started => !old(self).proxy.cancellations@.contains_key(key),
                CheckStart::Cancelled(reply) => {
                    &&& old(self).proxy.cancellations@.contains_key(key)
                    &&& reply.says_blocked("agent-sandbox: HTTP check cancelled"@)
                },
            },
    {
        match self.start_proxy_check(key, waiter, "duplicate in-flight HTTP request ID") {
            Err(e) => Err(e),
            Ok(true) => Ok(CheckStart::Started),
            Ok(false) => Ok(
                CheckStart::Cancelled(
                    HttpCheckReply::blocked("agent-sandbox: HTTP check cancelled"),
                ),
            ),
        }
    }

    /// Forget a check that is over.
    pub fn finish_proxy_check(&mut self, key: ProxyCheckId)
        requires
            old(self).wf(),
        ensures
            final(self).wf(),
            final(self).configured_as(old(self)),
            final(self).checks_changed(old(self)),
            final(self).proxy.cancellations@ == old(self).proxy.cancellations@.remove(key),
    {
        let _ = self.proxy.cancellations.remove(&key);
    }

    /// Cancel a check, whether it waits, is about to wait or has not begun. A check that has not
    /// begun is remembered, so that it is answered at once when it does.
    pub fn cancel_check(&mut self, key: ProxyCheckId) -> (r: Result<Cancelled, PolicydError>)
        requires
            old(self).wf(),
        ensures
            final(self).wf(),
            final(self).configured_as(old(self)),
            if !old(self).proxy.session_is(key.session) {
                &&& proxy::refused(r, Some("proxy session token is invalid"@))
                &&& *final(self) == *old(self)
            } else {
                let before = old(self).proxy.cancellations@;
                &&& r matches Ok(told)
                &&& told.interrupted == (if before.contains_key(key) {
                    match before[key] {
                        ProxyCancellation::Active(waiter) => Some(waiter),
                        ProxyCancellation::Canceled => None,
                    }
                } else {
                    None
                })
                &&& http::told_cancelled(old(self).board().without_waiter(key).0, told.waiting)
                &&& final(self).proxy.cancellations@ == check_cancelled(before, key)
                &&& final(self).board() == old(self).board().without_waiter(key).1
                &&& *final(self) == (PolicyStore {
                    pending: final(self).pending,
                    http: HttpState {
                        futures: final(self).http.futures,
                        waiters: final(self).http.waiters,
                        ..old(self).http
                    },
                    proxy: ProxyState {
                        cancellations: final(self).proxy.cancellations,
                        ..old(self).proxy
                    },
                    ..*old(self)
                })
            },
    {
        let active = match &self.proxy.session {
            Some(session) => session.token == key.session,
            None => false,
        };
        if !active {
            return Err(proxy_error("proxy session token is invalid"));
        }
        let ghost board = self.board();
        let interrupted = match self.proxy.cancellations.remove(&key) {
            Some(ProxyCancellation::Active(waiter)) => Some(waiter),
            Some(ProxyCancellation::Canceled) => None,
            None => {
                proof {
                    assert(self.proxy.cancellations@ =~= old(self).proxy.cancellations@);
                }
                if self.proxy.cancellations.len() < MAX_PROXY_CANCEL_TOMBSTONES {
                    let _ = self.proxy.cancellations.insert(key, ProxyCancellation::Canceled);
                }
                None
            },
        };
        assert(self.board() == board);
        let left = self.remove_http_waiter(key);
        Ok(Cancelled { interrupted, waiting: http::tell_cancelled(left) })
    }
}

/// The waiters that stay when a session closes.
pub open spec fn staying(waiters: Seq<HttpWaiter>, token: ProxySessionToken) -> Seq<HttpWaiter> {
    waiters.filter(|w: HttpWaiter| w.check.session != token)
}

/// The waiter waits for the request with the id and belongs to the session.
pub open spec fn leaves(
    futures: Map<Seq<char>, Seq<HttpWaiter>>,
    token: ProxySessionToken,
    id: Seq<char>,
    i: int,
) -> bool {
    futures.contains_key(id) && 0 <= i < futures[id].len() && futures[id][i].check.session == token
}

/// The requests that wait once a session has closed: its checks have left, and with them the
/// requests that nobody else waits for.
pub open spec fn without_session(board: Board, token: ProxySessionToken) -> Board {
    Board {
        pending: board.pending.remove_keys(
            Set::new(
                |id: Seq<char>|
                    board.futures.contains_key(id) && staying(board.futures[id], token).len() == 0,
            ),
        ),
        futures: Map::new(
            |id: Seq<char>|
                board.futures.contains_key(id) && staying(board.futures[id], token).len() > 0,
            |id: Seq<char>| staying(board.futures[id], token),
        ),
        waiters: board.waiters.remove_keys(
            Set::new(
                |check: ProxyCheckId|
                    exists|id: Seq<char>, i: int| #[trigger]
                        leaves(board.futures, token, id, i) && board.futures[id][i].check == check,
            ),
        ),
    }
}

/// The flows once a session has closed: none is claimed.
pub open spec fn all_unclaimed(
    flows: Map<NetworkFlowKey, ProxyFlowState>,
    now: u64,
) -> Map<NetworkFlowKey, ProxyFlowState> {
    flows.map_values(|s: ProxyFlowState| proxy::unclaimed(s, now))
}

/// Split the waiters of one request into those that stay and those that leave.
fn part_waiters(waiters: &Vec<HttpWaiter>, token: ProxySessionToken) -> (r: (
    Vec<HttpWaiter>,
    Vec<HttpWaiter>,
))
    ensures
        r.0@ == staying(waiters@, token),
        r.1@ == waiters@.filter(|w: HttpWaiter| w.check.session == token),
{
    let ghost stay = |w: HttpWaiter| w.check.session != token;
    let ghost leave = |w: HttpWaiter| w.check.session == token;
    let mut stays: Vec<HttpWaiter> = Vec::new();
    let mut gone: Vec<HttpWaiter> = Vec::new();
    let mut i: usize = 0;
    proof {
        reveal(Seq::filter);
        assert(waiters@.take(0).filter(stay) =~= Seq::empty());
        assert(waiters@.take(0).filter(leave) =~= Seq::empty());
    }
    while i < waiters.len()
        invariant
            i <= waiters@.len(),
            stay == (|w: HttpWaiter| w.check.session != token),
            leave == (|w: HttpWaiter| w.check.session == token),
            stays@ == waiters@.take(i as int).filter(stay),
            gone@ == waiters@.take(i as int).filter(leave),
        decreases waiters@.len() - i,
    {
        let waiter = waiters[i];
        proof {
            reveal(Seq::filter);
            assert(waiters@.take(i + 1).drop_last() =~= waiters@.take(i as int));
            assert(waiters@.take(i + 1).last() == waiter);
        }
        if waiter.check.session == token {
            gone.push(waiter);
        } else {
            stays.push(waiter);
        }
        i += 1;
    }
    assert(waiters@.take(waiters@.len() as int) =~= waiters@);
    (stays, gone)
}

impl PolicyStore {
    fn unclaim_all(&mut self, now: u64)
        requires
            old(self).wf(),
        ensures
            final(self).wf(),
            final(self).only_flows_changed(old(self)),
            final(self).proxy.flows@ == all_unclaimed(old(self).proxy.flows@, now),
    {
        let ghost start = self.proxy.flows@;
        let mut done: Table<NetworkFlowKey, ProxyFlowState> = Table::new();
        while self.proxy.flows.entries.len() > 0
            invariant
                self.proxy.flows.wf(),
                *self == (PolicyStore {
                    proxy: ProxyState { flows: self.proxy.flows, ..old(self).proxy },
                    ..*old(self)
                }),
                done.wf(),
                forall|k: NetworkFlowKey| #[trigger]
                    start.contains_key(k) <==> (self.proxy.flows@.contains_key(k)
                        || done@.contains_key(k)),
                forall|k: NetworkFlowKey| #[trigger]
                    self.proxy.flows@.contains_key(k) ==> self.proxy.flows@[k] == start[k]
                        && !done@.contains_key(k),
                forall|k: NetworkFlowKey| #[trigger]
                    done@.contains_key(k) ==> done@[k] == proxy::unclaimed(start[k], now),
            decreases self.proxy.flows.entries@.len(),
        {
            proof {
                self.proxy.flows.lemma_entry(0);
            }
            let (key, state) = self.proxy.flows.remove_at(0);
            assert(start.contains_key(key) && start[key] == state);
            let mut state = state;
            state.attribution_token = None;
            state.connection_id = None;
            state.claimed_at = None;
            state.last_check = now;
            let _ = done.insert(key, state);
        }
        proof {
            assert(self.proxy.flows@.dom() =~= Set::empty());
        }
        self.proxy.flows = done;
        proof {
            assert(self.proxy.flows@ =~= all_unclaimed(start, now));
            assert forall|k: NetworkFlowKey| #[trigger]
                self.proxy.flows@.contains_key(k) implies state::flow_consistent(
                k,
                self.proxy.flows@[k],
            ) by {
                assert(start.contains_key(k));
                assert(state::flow_consistent(k, start[k]));
            }
        }
    }

    fn drain_checks(&mut self) -> (r: Vec<u64>)
        requires
            old(self).wf(),
        ensures
            final(self).wf(),
            final(self).checks_changed(old(self)),
            final(self).proxy.cancellations.vacant(),
            forall|x: u64| #[trigger]
                r@.contains(x) <==> exists|k: ProxyCheckId| #[trigger]
                    old(self).proxy.cancellations@.contains_key(k)
                        && old(self).proxy.cancellations@[k] == ProxyCancellation::Active(x),
    {
        let ghost start = self.proxy.cancellations;
        let mut told: Vec<u64> = Vec::new();
        let mut i: usize = 0;
        while i < self.proxy.cancellations.entries.len()
            invariant
                *self == *old(self),
                self.wf(),
                start == self.proxy.cancellations,
                i <= start.entries@.len(),
                forall|x: u64| #[trigger]
                    told@.contains(x) <==> exists|j: int|
                        0 <= j < i && (#[trigger] start.entries@[j]).1
                            == ProxyCancellation::Active(x),
            decreases start.entries@.len() - i,
        {
            let ghost before = told@;
            if let ProxyCancellation::Active(waiter) = self.proxy.cancellations.entries[i].1 {
                told.push(waiter);
            }
            proof {
                assert forall|x: u64| #[trigger] told@.contains(x) <==> exists|j: int|
                    0 <= j < i + 1 && (#[trigger] start.entries@[j]).1
                        == ProxyCancellation::Active(x) by {
                    if told@.contains(x) {
                        let y = choose|y: int| 0 <= y < told@.len() && told@[y] == x;
                        if y < before.len() {
                            assert(before[y] == x);
                            assert(before.contains(x));
                        } else {
                            assert(start.entries@[i as int].1 == ProxyCancellation::Active(x));
                        }
                    }
                    if exists|j: int|
                        0 <= j < i + 1 && (#[trigger] start.entries@[j]).1
                            == ProxyCancellation::Active(x) {
                        let j = choose|j: int|
                            0 <= j < i + 1 && (#[trigger] start.entries@[j]).1
                                == ProxyCancellation::Active(x);
                        if j < i {
                            assert(before.contains(x));
                            let y = choose|y: int| 0 <= y < before.len() && before[y] == x;
                            assert(told@[y] == x);
                        } else {
                            assert(told@[told@.len() - 1] == x);
                        }
                    }
                }
            }
            i += 1;
        }
        self.proxy.cancellations = Table::new();
        proof {
            assert forall|x: u64| #[trigger] told@.contains(x) <==> exists|k: ProxyCheckId|
                #[trigger] start@.contains_key(k) && start@[k] == ProxyCancellation::Active(x) by {
                if told@.contains(x) {
                    let j = choose|j: int|
                        0 <= j < start.entries@.len() && (#[trigger] start.entries@[j]).1
                            == ProxyCancellation::Active(x);
                    start.lemma_entry(j);
                    assert(start@.contains_key(start.entries@[j].0));
                }
                if exists|k: ProxyCheckId| #[trigger]
                    start@.contains_key(k) && start@[k] == ProxyCancellation::Active(x) {
                    let k = choose|k: ProxyCheckId| #[trigger]
                        start@.contains_key(k) && start@[k] == ProxyCancellation::Active(x);
                    let j = start.lemma_key(k);
                    assert(start.entries@[j].1 == ProxyCancellation::Active(x));
                }
            }
        }
        told
    }
}

/// The requests that wait once a session's checks have left those among the given ones.
pub open spec fn without_session_in(
    board: Board,
    token: ProxySessionToken,
    done: Set<Seq<char>>,
) -> Board {
    Board {
        pending: board.pending.remove_keys(
            Set::new(
                |id: Seq<char>|
                    done.contains(id) && board.futures.contains_key(id) && staying(
                        board.futures[id],
                        token,
                    ).len() == 0,
            ),
        ),
        futures: Map::new(
            |id: Seq<char>|
                board.futures.contains_key(id) && (!done.contains(id) || staying(
                    board.futures[id],
                    token,
                ).len() > 0),
            |id: Seq<char>|
                if done.contains(id) {
                    staying(board.futures[id], token)
                } else {
                    board.futures[id]
                },
        ),
        waiters: board.waiters.remove_keys(
            Set::new(
                |check: ProxyCheckId|
                    exists|id: Seq<char>, i: int| #[trigger]
                        leaves(board.futures, token, id, i) && done.contains(id)
                            && board.futures[id][i].check == check,
            ),
        ),
    }
}

proof fn lemma_filter_members(s: Seq<HttpWaiter>, p: spec_fn(HttpWaiter) -> bool, w: HttpWaiter)
    ensures
        s.filter(p).contains(w) <==> s.contains(w) && p(w),
    decreases s.len(),
{
    reveal(Seq::filter);
    if s.len() > 0 {
        let front = s.drop_last();
        lemma_filter_members(front, p, w);
        let f = front.filter(p);
        assert(s.contains(w) <==> front.contains(w) || s.last() == w) by {
            if s.contains(w) {
                let i = choose|i: int| 0 <= i < s.len() && s[i] == w;
                if i < front.len() {
                    assert(front[i] == w);
                }
            }
            if front.contains(w) {
                let i = choose|i: int| 0 <= i < front.len() && front[i] == w;
                assert(s[i] == w);
            }
            if s.last() == w {
                assert(s[s.len() - 1] == w);
            }
        }
        if p(s.last()) {
            assert(f.push(s.last()).contains(w) <==> f.contains(w) || s.last() == w) by {
                let t = f.push(s.last());
                if t.contains(w) {
                    let i = choose|i: int| 0 <= i < t.len() && t[i] == w;
                    if i < f.len() {
                        assert(f[i] == w);
                    }
                }
                if f.contains(w) {
                    let i = choose|i: int| 0 <= i < f.len() && f[i] == w;
                    assert(t[i] == w);
                }
                if s.last() == w {
                    assert(t[f.len() as int] == w);
                }
            }
        }
    }
}

proof fn lemma_leaving_checks(
    board: Board,
    token: ProxySessionToken,
    done: Set<Seq<char>>,
    id: Seq<char>,
    gone: Seq<HttpWaiter>,
)
    requires
        board.futures.contains_key(id),
        gone == board.futures[id].filter(|w: HttpWaiter| w.check.session == token),
        !done.contains(id),
    ensures
        without_session_in(board, token, done).waiters.remove_keys(crate::http::checks(gone))
            == without_session_in(board, token, done.insert(id)).waiters,
{
    let a = without_session_in(board, token, done).waiters.remove_keys(crate::http::checks(gone));
    let b = without_session_in(board, token, done.insert(id)).waiters;
    let ws = board.futures[id];
    let p = |w: HttpWaiter| w.check.session == token;
    let f = |w: HttpWaiter| w.check;
    assert forall|check: ProxyCheckId| board.waiters.contains_key(check) implies a.contains_key(
        check,
    ) == b.contains_key(check) by {
        if crate::http::checks(gone).contains(check) {
            let m = gone.map_values(f);
            let x = choose|x: int| 0 <= x < m.len() && m[x] == check;
            lemma_filter_members(ws, p, gone[x]);
            assert(gone.contains(gone[x]));
            let i = choose|i: int| 0 <= i < ws.len() && ws[i] == gone[x];
            assert(leaves(board.futures, token, id, i));
        }
        if exists|q: Seq<char>, i: int| #[trigger]
            leaves(board.futures, token, q, i) && done.insert(id).contains(q)
                && board.futures[q][i].check == check {
            let (q, i) = choose|q: Seq<char>, i: int| #[trigger]
                leaves(board.futures, token, q, i) && done.insert(id).contains(q)
                    && board.futures[q][i].check == check;
            if q == id {
                lemma_filter_members(ws, p, ws[i]);
                assert(ws.contains(ws[i]));
                let x = choose|x: int| 0 <= x < gone.len() && gone[x] == ws[i];
                assert(gone.map_values(f)[x] == check);
                assert(crate::http::checks(gone).contains(check));
            } else {
                assert(done.contains(q));
            }
        }
        if exists|q: Seq<char>, i: int| #[trigger]
            leaves(board.futures, token, q, i) && done.contains(q) && board.futures[q][i].check
                == check {
            let (q, i) = choose|q: Seq<char>, i: int| #[trigger]
                leaves(board.futures, token, q, i) && done.contains(q)
                    && board.futures[q][i].check == check;
            assert(leaves(board.futures, token, q, i) && done.insert(id).contains(q));
        }
    }
    assert(a =~= b);
}

impl PolicyStore {
    fn remove_checks(&mut self, gone: &Vec<HttpWaiter>, told: &mut Vec<u64>)
        requires
            old(self).wf(),
        ensures
            final(self).wf(),
            *final(self) == (PolicyStore {
                http: HttpState { waiters: final(self).http.waiters, ..old(self).http },
                ..*old(self)
            }),
            final(self).http.waiters@ == old(self).http.waiters@.remove_keys(
                crate::http::checks(gone@),
            ),
            final(told)@ == old(told)@ + gone@.map_values(|w: HttpWaiter| w.waiter),
    {
        let ghost f = |w: HttpWaiter| w.waiter;
        let mut i: usize = 0;
        proof {
            assert(gone@.take(0) =~= Seq::empty());
            assert(crate::http::checks(gone@.take(0)) =~= Set::empty());
            assert(self.http.waiters@ =~= old(self).http.waiters@.remove_keys(
                crate::http::checks(gone@.take(0)),
            ));
            assert(told@ =~= old(told)@ + gone@.take(0).map_values(f));
        }
        while i < gone.len()
            invariant
                i <= gone@.len(),
                self.wf(),
                f == (|w: HttpWaiter| w.waiter),
                *self == (PolicyStore {
                    http: HttpState { waiters: self.http.waiters, ..old(self).http },
                    ..*old(self)
                }),
                self.http.waiters@ == old(self).http.waiters@.remove_keys(
                    crate::http::checks(gone@.take(i as int)),
                ),
                told@ == old(told)@ + gone@.take(i as int).map_values(f),
            decreases gone@.len() - i,
        {
            let _ = self.http.waiters.remove(&gone[i].check);
            told.push(gone[i].waiter);
            proof {
                crate::http::lemma_checks_step(gone@, i as int);
                assert(self.http.waiters@ =~= old(self).http.waiters@.remove_keys(
                    crate::http::checks(gone@.take(i + 1)),
                ));
                assert(told@ =~= old(told)@ + gone@.take(i + 1).map_values(f));
            }
            i += 1;
        }
        assert(gone@.take(gone@.len() as int) =~= gone@);
    }

    fn close_http_waiters(&mut self, token: ProxySessionToken) -> (r: Vec<u64>)
        requires
            old(self).wf(),
        ensures
            final(self).wf(),
            final(self).board_changed(old(self)),
            final(self).board() == without_session(old(self).board(), token),
            forall|x: u64| #[trigger]
                r@.contains(x) <==> exists|id: Seq<char>, i: int| #[trigger]
                    leaves(old(self).board().futures, token, id, i)
                        && old(self).board().futures[id][i].waiter == x,
    {
        let ghost board = self.board();
        let ghost mut done: Set<Seq<char>> = Set::empty();
        let ghost p = |w: HttpWaiter| w.check.session == token;
        let ghost f = |w: HttpWaiter| w.waiter;
        let mut kept: Table<String, Vec<HttpWaiter>> = Table::new();
        let mut told: Vec<u64> = Vec::new();
        proof {
            let b0 = without_session_in(board, token, done);
            assert(b0.pending =~= board.pending);
            assert(b0.waiters =~= board.waiters);
        }
        while self.http.futures.entries.len() > 0
            invariant
                self.wf(),
                kept.wf(),
                board == old(self).board(),
                p == (|w: HttpWaiter| w.check.session == token),
                f == (|w: HttpWaiter| w.waiter),
                self.board_changed(old(self)),
                forall|id: Seq<char>| #[trigger] done.contains(id) ==> board.futures.contains_key(
                    id,
                ),
                forall|id: Seq<char>| #[trigger]
                    self.http.futures@.contains_key(id) <==> board.futures.contains_key(id)
                        && !done.contains(id),
                forall|id: Seq<char>| #[trigger]
                    self.http.futures@.contains_key(id) ==> self.http.futures@[id]@
                        == board.futures[id],
                forall|id: Seq<char>| #[trigger]
                    kept@.contains_key(id) <==> done.contains(id) && staying(
                        board.futures[id],
                        token,
                    ).len() > 0,
                forall|id: Seq<char>| #[trigger]
                    kept@.contains_key(id) ==> kept@[id]@ == staying(board.futures[id], token),
                self.pending@ == without_session_in(board, token, done).pending,
                self.board().waiters == without_session_in(board, token, done).waiters,
                forall|x: u64| #[trigger]
                    told@.contains(x) <==> exists|id: Seq<char>, i: int| #[trigger]
                        leaves(board.futures, token, id, i) && done.contains(id)
                            && board.futures[id][i].waiter == x,
            decreases self.http.futures.entries@.len(),
        {
            proof {
                self.http.futures.lemma_entry(0);
            }
            let ghost key = self.http.futures.entries@[0].0@;
            let ghost waiters_before = self.board().waiters;
            let (id, waiters) = self.http.futures.remove_at(0);
            assert(board.futures.contains_key(id@) && waiters@ == board.futures[id@]);
            let (stays, gone) = part_waiters(&waiters, token);
            let ghost told_before = told@;
            self.remove_checks(&gone, &mut told);
            proof {
                lemma_leaving_checks(board, token, done, id@, gone@);
                assert(self.board().waiters =~= waiters_before.remove_keys(
                    crate::http::checks(gone@),
                ));
            }
            let ghost before = done;
            proof {
                done = done.insert(id@);
                let ws = board.futures[id@];
                assert forall|x: u64| #[trigger] told@.contains(x) <==> exists|
                    q: Seq<char>,
                    i: int,
                | #[trigger]
                    leaves(board.futures, token, q, i) && done.contains(q)
                        && board.futures[q][i].waiter == x by {
                    let g = gone@.map_values(f);
                    if told@.contains(x) {
                        let y = choose|y: int| 0 <= y < told@.len() && told@[y] == x;
                        if y < told_before.len() {
                            assert(told_before[y] == x);
                            assert(told_before.contains(x));
                            let (q, i) = choose|q: Seq<char>, i: int| #[trigger]
                                leaves(board.futures, token, q, i) && before.contains(q)
                                    && board.futures[q][i].waiter == x;
                            assert(leaves(board.futures, token, q, i) && done.contains(q));
                        } else {
                            let z = y - told_before.len();
                            assert(g[z] == x);
                            lemma_filter_members(ws, p, gone@[z]);
                            assert(gone@.contains(gone@[z]));
                            let i = choose|i: int| 0 <= i < ws.len() && ws[i] == gone@[z];
                            assert(leaves(board.futures, token, id@, i));
                        }
                    }
                    if exists|q: Seq<char>, i: int| #[trigger]
                        leaves(board.futures, token, q, i) && done.contains(q)
                            && board.futures[q][i].waiter == x {
                        let (q, i) = choose|q: Seq<char>, i: int| #[trigger]
                            leaves(board.futures, token, q, i) && done.contains(q)
                                && board.futures[q][i].waiter == x;
                        if q == id@ {
                            lemma_filter_members(ws, p, ws[i]);
                            assert(ws.contains(ws[i]));
                            let z = choose|z: int| 0 <= z < gone@.len() && gone@[z] == ws[i];
                            assert(told@[told_before.len() + z] == x);
                        } else {
                            assert(leaves(board.futures, token, q, i) && before.contains(q));
                            assert(told_before.contains(x));
                            let y = choose|y: int|
                                0 <= y < told_before.len() && told_before[y] == x;
                            assert(told@[y] == x);
                        }
                    }
                }
            }
            if stays.len() == 0 {
                let _ = self.pending.remove(&id);
                proof {
                    assert(self.pending@ =~= without_session_in(board, token, done).pending);
                }
            } else {
                let _ = kept.insert(id, stays);
                proof {
                    assert(self.pending@ =~= without_session_in(board, token, done).pending);
                }
            }
        }
        proof {
            assert(self.http.futures@.dom() =~= Set::empty());
            assert forall|id: Seq<char>| board.futures.contains_key(id) implies done.contains(
                id,
            ) by {
                assert(!self.http.futures@.contains_key(id));
            }
        }
        self.http.futures = kept;
        proof {
            let goal = without_session(board, token);
            let end = without_session_in(board, token, done);
            assert(end.pending =~= goal.pending);
            assert(end.waiters =~= goal.waiters) by {
                assert forall|check: ProxyCheckId| board.waiters.contains_key(check) implies
                    end.waiters.contains_key(check) == goal.waiters.contains_key(check) by {
                    if exists|id: Seq<char>, i: int| #[trigger]
                        leaves(board.futures, token, id, i) && board.futures[id][i].check
                            == check {
                        let (id, i) = choose|id: Seq<char>, i: int| #[trigger]
                            leaves(board.futures, token, id, i) && board.futures[id][i].check
                                == check;
                        assert(leaves(board.futures, token, id, i) && done.contains(id));
                    }
                }
            }
            assert(self.board().futures =~= goal.futures);
            assert(self.board() =~= goal);
            assert forall|x: u64| #[trigger] told@.contains(x) <==> exists|id: Seq<char>, i: int|
                #[trigger] leaves(board.futures, token, id, i) && board.futures[id][i].waiter
                    == x by {
                if exists|id: Seq<char>, i: int| #[trigger]
                    leaves(board.futures, token, id, i) && board.futures[id][i].waiter == x {
                    let (id, i) = choose|id: Seq<char>, i: int| #[trigger]
                        leaves(board.futures, token, id, i) && board.futures[id][i].waiter == x;
                    assert(leaves(board.futures, token, id, i) && done.contains(id));
                }
            }
        }
        told
    }

    /// Close the session that a connection holds, with every claim and every check of it.
    pub fn close_proxy_session(&mut self, connection_id: u64, now: u64) -> (r: Option<Closed>)
        requires
            old(self).wf(),
        ensures
            final(self).wf(),
            final(self).configured_as(old(self)),
            match old(self).proxy.session {
                Some(session) if session.connection_id == connection_id => {
                    &&& r matches Some(told)
                    &&& *final(self) == (PolicyStore {
                        pending: final(self).pending,
                        http: HttpState {
                            futures: final(self).http.futures,
                            waiters: final(self).http.waiters,
                            ..old(self).http
                        },
                        proxy: final(self).proxy,
                        ..*old(self)
                    })
                    &&& told.reply.says_blocked("agent-sandbox: proxy session closed"@)
                    &&& final(self).proxy.session is None
                    &&& final(self).proxy.cancellations.vacant()
                    &&& final(self).proxy.flows@ == all_unclaimed(old(self).proxy.flows@, now)
                    &&& final(self).board() == without_session(old(self).board(), session.token)
                    &&& forall|x: u64| #[trigger]
                        told.interrupted@.contains(x) <==> exists|k: ProxyCheckId| #[trigger]
                            old(self).proxy.cancellations@.contains_key(k)
                                && old(self).proxy.cancellations@[k] == ProxyCancellation::Active(
                                x,
                            )
                    &&& forall|x: u64| #[trigger]
                        told.waiting@.contains(x) <==> exists|id: Seq<char>, i: int| #[trigger]
                            leaves(old(self).board().futures, session.token, id, i)
                                && old(self).board().futures[id][i].waiter == x
                },
                _ => r is None && *final(self) == *old(self),
            },
    {
        let ghost board = self.board();
        let token = match &self.proxy.session {
            Some(session) => {
                if session.connection_id != connection_id {
                    return None;
                }
                session.token
            },
            None => {
                return None;
            },
        };
        self.proxy.session = None;
        let interrupted = self.drain_checks();
        self.unclaim_all(now);
        assert(self.board() == board);
        let waiting = self.close_http_waiters(token);
        let reply = HttpCheckReply::blocked("agent-sandbox: proxy session closed");
        Some(Closed { interrupted, waiting, reply })
    }
}

/// Closing a session ends every claim.
pub proof fn law_close_ends_claims(
    flows: Map<NetworkFlowKey, ProxyFlowState>,
    now: u64,
    token: crate::flow::AttributionToken,
)
    ensures
        !proxy::has_claim(all_unclaimed(flows, now), token),
{
    assert forall|k: NetworkFlowKey|
        !(#[trigger] proxy::claim_is(all_unclaimed(flows, now), token, k)) by {}
}

/// A check that was cancelled before it began is answered at once when it does, and leaves no
/// trace.
pub proof fn law_early_cancel_is_remembered(proxy: ProxyState, key: ProxyCheckId, waiter: u64)
    requires
        proxy.session_is(key.session),
        !proxy.cancellations@.contains_key(key),
        proxy.cancellations@.len() < MAX_PROXY_CANCEL_TOMBSTONES,
    ensures
        ({
            let cancelled = check_cancelled(proxy.cancellations@, key);
            &&& cancelled.contains_key(key)
            &&& cancelled[key] == ProxyCancellation::Canceled
            &&& cancelled.remove(key) == proxy.cancellations@
        }),
{
    let cancelled = check_cancelled(proxy.cancellations@, key);
    assert(cancelled.remove(key) =~= proxy.cancellations@);
}

} // verus!
