//! Network approvals: pending requests, their waiters and remembered verdicts.

use vstd::prelude::*;

use crate::evaluator;
use crate::evaluator::NetworkQuery;
use crate::flow::ProxyCheckId;
use crate::http;
use crate::ids;
use crate::paths;
use crate::rules;
use crate::state;
use crate::state::NetworkRuleKey;
use crate::state::NetworkRuleKeyView;
use crate::state::NetworkWaiter;
use crate::state::Pending;
use crate::state::PendingContext;
use crate::state::PendingNetwork;
use crate::state::SessionRules;
use crate::state::VerdictCaches;
use crate::state::VerdictEntry;
use crate::state::Waiters;
use crate::store::PolicyStore;
use crate::text;
use crate::types::CheckReply;
use crate::types::ResolvedRequestContext;
use crate::types::Verdict;
use crate::types::VerdictSource;
use crate::waiting;
use crate::waiting::WaitPhase;
use crate::waiting::WaitPoll;

verus! {

/// How long a network verdict is remembered, in nanoseconds.
pub const NETWORK_VERDICT_CACHE_TTL: u64 = 1_000_000_000;

/// What tells one network request from another.
pub struct NetworkRequestIdentity<'a> {
    pub host: &'a String,
    pub port: u16,
    pub cwd: &'a Option<String>,
    pub home: &'a Option<String>,
    pub project_root: &'a Option<String>,
    pub sandbox_session_id: &'a Option<String>,
}

impl<'a> NetworkRequestIdentity<'a> {
    /// The pending approval is for the same request.
    pub open spec fn identifies(&self, pending: PendingNetwork) -> bool {
        &&& pending.host@ == self.host@
        &&& pending.port == self.port
        &&& paths::opt_components(pending.context.cwd) == paths::opt_components(*self.cwd)
        &&& paths::opt_components(pending.context.home) == paths::opt_components(*self.home)
        &&& paths::opt_components(pending.context.project_root) == paths::opt_components(
            *self.project_root,
        )
        &&& text::opt_text(pending.context.sandbox_session_id) == text::opt_text(
            *self.sandbox_session_id,
        )
    }

    /// Whether the pending approval is for the same request.
    pub fn matches(&self, pending: &PendingNetwork) -> (r: bool)
        ensures
            r == self.identifies(*pending),
    {
        pending.host == *self.host && pending.port == self.port && paths::same_opt_path(
            &pending.context.cwd,
            self.cwd,
        ) && paths::same_opt_path(&pending.context.home, self.home) && paths::same_opt_path(
            &pending.context.project_root,
            self.project_root,
        ) && text::same_opt(&pending.context.sandbox_session_id, self.sandbox_session_id)
    }
}

/// A network request to be decided.
pub struct NetworkCheckRequest {
    /// The normal form of the host.
    pub host: String,
    pub port: u16,
    pub scheme: String,
    pub url: String,
    pub aliases: Vec<String>,
    pub ctx: ResolvedRequestContext,
}

impl NetworkCheckRequest {
    /// The pending approval is for this request.
    pub open spec fn identifies(&self, pending: PendingNetwork) -> bool {
        &&& pending.host@ == self.host@
        &&& pending.port == self.port
        &&& paths::opt_components(pending.context.cwd) == paths::opt_components(
            self.ctx.paths.cwd,
        )
        &&& paths::opt_components(pending.context.home) == paths::opt_components(
            self.ctx.paths.home,
        )
        &&& paths::opt_components(pending.context.project_root) == paths::opt_components(
            self.ctx.paths.project_root,
        )
        &&& text::opt_text(pending.context.sandbox_session_id) == text::opt_text(
            self.ctx.sandbox_session_id,
        )
    }

    /// The pending approval that the request is filed as.
    pub open spec fn filed(&self, id: String, created_at: u64, pending: PendingNetwork) -> bool {
        &&& pending.id == id
        &&& pending.created_at == created_at
        &&& pending.host == self.host
        &&& pending.port == self.port
        &&& pending.scheme == self.scheme
        &&& pending.url == self.url
        &&& pending.aliases@ == self.aliases@
        &&& pending.context == PendingContext::of(self.ctx)
    }
}

/// The network requests that wait and the callers that wait for them.
#[verifier::ext_equal]
pub struct NetworkBoard {
    pub pending: Map<Seq<char>, Pending>,
    pub waiters: Map<Seq<char>, Seq<NetworkWaiter>>,
}

/// The index of the proxy check's first waiter, or the number of waiters.
pub open spec fn proxy_index(waiters: Seq<NetworkWaiter>, proxy: ProxyCheckId) -> int
    decreases waiters.len(),
{
    if waiters.len() == 0 || waiters[0].proxy == Some(proxy) {
        0
    } else {
        1 + proxy_index(waiters.skip(1), proxy)
    }
}

proof fn lemma_proxy_index(waiters: Seq<NetworkWaiter>, proxy: ProxyCheckId, i: int)
    requires
        0 <= i <= waiters.len(),
        i < waiters.len() ==> waiters[i].proxy == Some(proxy),
        forall|j: int| 0 <= j < i ==> (#[trigger] waiters[j]).proxy != Some(proxy),
    ensures
        proxy_index(waiters, proxy) == i,
    decreases waiters.len(),
{
    if i > 0 {
        assert(waiters[0].proxy != Some(proxy));
        let rest = waiters.skip(1);
        assert forall|j: int| 0 <= j < i - 1 implies (#[trigger] rest[j]).proxy != Some(proxy) by {
            assert(rest[j] == waiters[j + 1]);
        }
        lemma_proxy_index(rest, proxy, i - 1);
    }
}

/// The callers of the waiters, in order.
pub open spec fn callers(waiters: Seq<NetworkWaiter>) -> Seq<u64> {
    waiters.map_values(|w: NetworkWaiter| w.waiter)
}

impl NetworkBoard {
    /// The board once a proxy's check, or everybody, no longer waits for a request, and the
    /// callers that left. A request that nobody waits for any more leaves too.
    pub open spec fn without(self, id: Seq<char>, proxy: Option<ProxyCheckId>) -> (
        Seq<u64>,
        NetworkBoard,
    ) {
        if !self.waiters.contains_key(id) {
            (Seq::empty(), self)
        } else {
            let waiters = self.waiters[id];
            match proxy {
                None => (
                    callers(waiters),
                    NetworkBoard {
                        pending: self.pending.remove(id),
                        waiters: self.waiters.remove(id),
                    },
                ),
                Some(check) => {
                    let i = proxy_index(waiters, check);
                    let left = if i < waiters.len() {
                        waiters.remove(i)
                    } else {
                        waiters
                    };
                    (
                        if i < waiters.len() {
                            seq![waiters[i].waiter]
                        } else {
                            Seq::empty()
                        },
                        if left.len() == 0 {
                            NetworkBoard {
                                pending: self.pending.remove(id),
                                waiters: self.waiters.remove(id),
                            }
                        } else {
                            NetworkBoard { waiters: self.waiters.insert(id, left), ..self }
                        },
                    )
                },
            }
        }
    }

    /// The board once a caller has joined the request with the id.
    pub open spec fn joined(self, id: Seq<char>, waiter: NetworkWaiter) -> NetworkBoard {
        NetworkBoard {
            waiters: self.waiters.insert(
                id,
                (if self.waiters.contains_key(id) {
                    self.waiters[id]
                } else {
                    Seq::empty()
                }).push(waiter),
            ),
            ..self
        }
    }

    /// The id names a pending network request that the given one equals.
    pub open spec fn waits_for(self, id: Seq<char>, req: NetworkCheckRequest) -> bool {
        self.pending.contains_key(id) && (self.pending[id] matches Pending::Network(p)
            && req.identifies(p))
    }

    /// How many callers wait for the request with the id.
    pub open spec fn waiting(self, id: Seq<char>) -> nat {
        if self.waiters.contains_key(id) {
            self.waiters[id].len()
        } else {
            0
        }
    }

    /// The proxy's check already waits for some request.
    pub open spec fn has_proxy(self, proxy: ProxyCheckId) -> bool {
        exists|id: Seq<char>, i: int|
            #![trigger self.waiters[id][i]]
            self.waiters.contains_key(id) && 0 <= i < self.waiters[id].len()
                && self.waiters[id][i].proxy == Some(proxy)
    }
}

impl PolicyStore {
    /// The network requests that wait.
    pub open spec fn network_board(&self) -> NetworkBoard {
        NetworkBoard {
            pending: self.pending@,
            waiters: self.waiters.network@.map_values(|v: Vec<NetworkWaiter>| v@),
        }
    }

    /// Only the network requests that wait differ.
    pub open spec fn network_board_changed(&self, before: &PolicyStore) -> bool {
        *self == (PolicyStore {
            pending: self.pending,
            waiters: Waiters { network: self.waiters.network, ..before.waiters },
            ..*before
        })
    }
}

/// A pending network request that a caller waits for.
#[derive(Debug, PartialEq, Eq)]
pub struct PendingNetResult {
    pub id: String,
    pub is_new: bool,
}

/// Callers to answer, and their reply.
#[derive(Debug, PartialEq, Eq)]
pub struct NetworkDelivery {
    pub told: Vec<u64>,
    pub reply: CheckReply,
}

/// What a caller of a network approval is to do next.
#[derive(Debug, PartialEq, Eq)]
pub enum NetworkApproval {
    /// Answer at once.
    Reply(CheckReply),
    /// Wait for a decision; a new request is first shown to the policy UIs.
    Wait(PendingNetResult),
}

/// The cache once a verdict has been remembered.
pub open spec fn remembered(
    before: Map<NetworkRuleKeyView, VerdictEntry>,
    after: Map<NetworkRuleKeyView, VerdictEntry>,
    key: NetworkRuleKeyView,
    entry: VerdictEntry,
    limit: usize,
) -> bool {
    state::newest_kept(before.insert(key, entry), after, limit as nat)
}

/// The reply that a remembered verdict gives, while it is fresh.
pub open spec fn remembered_reply(
    cache: Map<NetworkRuleKeyView, VerdictEntry>,
    key: NetworkRuleKeyView,
    now: u64,
) -> Option<CheckReply> {
    if cache.contains_key(key) && http::fresh(cache[key], now, NETWORK_VERDICT_CACHE_TTL) {
        Some(
            CheckReply::of_verdict(
                Verdict { allowed: cache[key].allowed, source: cache[key].source },
            ),
        )
    } else {
        None
    }
}

/// Joining or filing a request comes to the result.
pub open spec fn joined_or_filed(
    before: NetworkBoard,
    after: NetworkBoard,
    req: NetworkCheckRequest,
    waiter: NetworkWaiter,
    fresh_id: String,
    created_at: u64,
    waiter_limit: usize,
    pending_limit: usize,
    r: Result<PendingNetResult, CheckReply>,
) -> bool {
    if waiter.proxy matches Some(proxy) && before.has_proxy(proxy) {
        &&& r matches Err(reply)
        &&& reply.says_blocked("agent-sandbox: duplicate in-flight network request ID"@)
        &&& after == before
    } else if exists|id: Seq<char>| #[trigger] before.waits_for(id, req) {
        exists|id: Seq<char>| #[trigger]
            before.waits_for(id, req) && (if before.waiting(id) >= waiter_limit {
                &&& r matches Err(reply)
                &&& reply.says_blocked("agent-sandbox: too many waiters for one network approval"@)
                &&& after == before
            } else {
                &&& r matches Ok(result)
                &&& result.id@ == id
                &&& !result.is_new
                &&& after == before.joined(id, waiter)
            })
    } else if before.pending.len() >= pending_limit {
        &&& r matches Err(reply)
        &&& reply.says_blocked("agent-sandbox: too many pending approvals"@)
        &&& after == before
    } else {
        &&& r == Ok::<_, CheckReply>(PendingNetResult { id: fresh_id, is_new: true })
        &&& after.waiters == before.waiters.insert(fresh_id@, seq![waiter])
        &&& after.pending.contains_key(fresh_id@)
        &&& after.pending[fresh_id@] matches Pending::Network(p)
        &&& req.filed(fresh_id, created_at, p)
        &&& after.pending == before.pending.insert(fresh_id@, after.pending[fresh_id@])
    }
}

/// One caller that waits for a network decision.
#[derive(Debug, PartialEq, Eq)]
pub struct NetworkWait {
    pub pending_id: String,
    pub host: String,
    pub port: u16,
    pub proxy: Option<ProxyCheckId>,
}

/// What may happen while a caller waits.
#[derive(Debug, PartialEq, Eq)]
pub enum NetworkWaitEvent {
    /// The caller looks whether a policy UI is there.
    Look { has_ui: bool },
    /// The decision came.
    Answered(CheckReply),
    /// Nobody can answer any more.
    Abandoned,
    /// The check was cancelled.
    Cancelled,
}

/// What a caller that waits is to do next.
#[derive(Debug, PartialEq, Eq)]
pub enum NetworkWaitStep {
    /// Wait on for so long, in the given phase.
    Wait { duration: u64, phase: WaitPhase },
    /// Answer; others that leave with the caller are told too.
    Done { reply: CheckReply, told: Option<NetworkDelivery> },
}

/// The callers that leave are told why, and the caller itself is answered.
pub open spec fn gave_up(
    step: NetworkWaitStep,
    left: Seq<u64>,
    told: Seq<char>,
    answered: Seq<char>,
) -> bool {
    &&& step matches NetworkWaitStep::Done { reply, told: Some(delivery) }
    &&& reply.says_blocked(answered)
    &&& delivery.told@ == left
    &&& delivery.reply.says_blocked(told)
}

/// A caller's time was up: it left the request, and where it was the last one the request
/// counts as blocked for a while.
pub open spec fn wait_expired(
    before: PolicyStore,
    after: PolicyStore,
    wait: NetworkWait,
    now: u64,
) -> bool {
    let board = before.network_board().without(wait.pending_id@, wait.proxy).1;
    &&& after == (PolicyStore {
        pending: after.pending,
        waiters: Waiters { network: after.waiters.network, ..before.waiters },
        caches: VerdictCaches { network: after.caches.network, ..before.caches },
        ..before
    })
    &&& after.network_board() == board
    &&& if board.waiters.contains_key(wait.pending_id@) {
        after.caches.network == before.caches.network
    } else {
        remembered(
            before.caches.network@,
            after.caches.network@,
            NetworkRuleKeyView { host: wait.host@, port: wait.port },
            VerdictEntry { allowed: false, source: VerdictSource::Blocked, time: now },
            before.limits.verdict_cache,
        )
    }
}

/// The callers that waited for a network request have their reply, and the verdict is remembered
/// under the key, where there is one.
pub open spec fn network_finished(
    before: PolicyStore,
    after: PolicyStore,
    pending_id: Seq<char>,
    verdict: Verdict,
    cache_key: Option<NetworkRuleKeyView>,
    now: u64,
    r: Option<NetworkDelivery>,
) -> bool {
    &&& after == (PolicyStore {
        waiters: Waiters { network: after.waiters.network, ..before.waiters },
        caches: VerdictCaches { network: after.caches.network, ..before.caches },
        ..before
    })
    &&& after.network_board() == (NetworkBoard {
        waiters: before.network_board().waiters.remove(pending_id),
        ..before.network_board()
    })
    &&& match r {
        Some(delivery) => {
            &&& before.network_board().waiters.contains_key(pending_id)
            &&& delivery.told@ == callers(before.network_board().waiters[pending_id])
            &&& delivery.reply == CheckReply::of_verdict(verdict)
        },
        None => !before.network_board().waiters.contains_key(pending_id),
    }
    &&& match cache_key {
        Some(key) => remembered(
            before.caches.network@,
            after.caches.network@,
            key,
            VerdictEntry { allowed: verdict.allowed, source: verdict.source, time: now },
            before.limits.verdict_cache,
        ),
        None => after.caches.network == before.caches.network,
    }
}

impl PolicyStore {
    /// Give the callers that wait for a network request their reply, and remember the verdict
    /// under the given key.
    pub fn finish_network(
        &mut self,
        pending_id: &String,
        allowed: bool,
        source: VerdictSource,
        cache_key: Option<NetworkRuleKey>,
        now: u64,
    ) -> (r: Option<NetworkDelivery>)
        requires
            old(self).wf(),
        ensures
            final(self).wf(),
            final(self).configured_as(old(self)),
            network_finished(
                *old(self),
                *final(self),
                pending_id@,
                Verdict { allowed, source },
                (match cache_key {
                    Some(key) => Some(key@),
                    None => None,
                }),
                now,
                r,
            ),
    {
        let ghost board = self.network_board();
        let delivery = match self.waiters.network.remove(pending_id) {
            Some(waiters) => {
                let told = Self::callers_of(&waiters);
                Some(
                    NetworkDelivery {
                        told,
                        reply: CheckReply {
                            allowed,
                            source: source.clone(),
                            message: None,
                        },
                    },
                )
            },
            None => None,
        };
        proof {
            assert(self.network_board().waiters =~= board.waiters.remove(pending_id@));
        }
        if let Some(key) = cache_key {
            let _ = self.caches.network.insert(key, VerdictEntry { allowed, source, time: now });
            state::enforce_verdict_cache_limit(
                &mut self.caches.network,
                self.limits.verdict_cache,
            );
        }
        delivery
    }

    fn callers_of(waiters: &Vec<NetworkWaiter>) -> (r: Vec<u64>)
        ensures
            r@ == callers(waiters@),
    {
        let mut r: Vec<u64> = Vec::new();
        let mut i: usize = 0;
        while i < waiters.len()
            invariant
                i <= waiters@.len(),
                r@.len() == i,
                forall|j: int| 0 <= j < i ==> #[trigger] r@[j] == waiters@[j].waiter,
            decreases waiters@.len() - i,
        {
            r.push(waiters[i].waiter);
            i += 1;
        }
        assert(r@ =~= callers(waiters@));
        r
    }

    /// The reply that a remembered verdict gives.
    pub fn check_network_verdict_cache(&self, host: &String, port: u16, now: u64) -> (r: Option<
        CheckReply,
    >)
        requires
            self.wf(),
        ensures
            r == remembered_reply(
                self.caches.network@,
                NetworkRuleKeyView { host: host@, port },
                now,
            ),
    {
        let key = NetworkRuleKey { host: host.clone(), port };
        match self.caches.network.get(&key) {
            Some(entry) => {
                if http::is_fresh(entry, now, NETWORK_VERDICT_CACHE_TTL) {
                    Some(
                        CheckReply {
                            allowed: entry.allowed,
                            source: entry.source.clone(),
                            message: None,
                        },
                    )
                } else {
                    None
                }
            },
            None => None,
        }
    }

    fn proxy_waits(&self, proxy: ProxyCheckId) -> (r: bool)
        requires
            self.wf(),
        ensures
            r == self.network_board().has_proxy(proxy),
    {
        let ghost board = self.network_board();
        let mut i: usize = 0;
        while i < self.waiters.network.entries.len()
            invariant
                self.wf(),
                board == self.network_board(),
                i <= self.waiters.network.entries@.len(),
                forall|x: int, y: int|
                    #![trigger self.waiters.network.entries@[x].1@[y]]
                    0 <= x < i && 0 <= y < self.waiters.network.entries@[x].1@.len()
                        ==> self.waiters.network.entries@[x].1@[y].proxy != Some(proxy),
            decreases self.waiters.network.entries@.len() - i,
        {
            let list = &self.waiters.network.entries[i].1;
            let mut j: usize = 0;
            while j < list.len()
                invariant
                    self.wf(),
                    board == self.network_board(),
                    i < self.waiters.network.entries@.len(),
                    *list == self.waiters.network.entries@[i as int].1,
                    j <= list@.len(),
                    forall|y: int|
                        0 <= y < j ==> (#[trigger] list@[y]).proxy != Some(proxy),
                decreases list@.len() - j,
            {
                if let Some(p) = list[j].proxy {
                    if p == proxy {
                        proof {
                            self.waiters.network.lemma_entry(i as int);
                            let id = self.waiters.network.entries@[i as int].0@;
                            assert(board.waiters[id][j as int].proxy == Some(proxy));
                        }
                        return true;
                    }
                }
                j += 1;
            }
            i += 1;
        }
        proof {
            assert forall|id: Seq<char>, y: int|
                #![trigger board.waiters[id][y]]
                board.waiters.contains_key(id) && 0 <= y
                    < board.waiters[id].len() implies board.waiters[id][y].proxy != Some(
                proxy,
            ) by {
                let x = self.waiters.network.lemma_key(id);
                assert(self.waiters.network.entries@[x].1@[y].proxy != Some(proxy));
            }
        }
        false
    }

    fn find_network_pending(&self, req: &NetworkCheckRequest) -> (r: Option<String>)
        requires
            self.wf(),
        ensures
            match r {
                Some(id) => self.network_board().waits_for(id@, *req),
                None => forall|id: Seq<char>|
                    !(#[trigger] self.network_board().waits_for(id, *req)),
            },
    {
        let identity = NetworkRequestIdentity {
            host: &req.host,
            port: req.port,
            cwd: &req.ctx.paths.cwd,
            home: &req.ctx.paths.home,
            project_root: &req.ctx.paths.project_root,
            sandbox_session_id: &req.ctx.sandbox_session_id,
        };
        let mut i: usize = 0;
        while i < self.pending.entries.len()
            invariant
                self.wf(),
                i <= self.pending.entries@.len(),
                forall|p: PendingNetwork| #[trigger]
                    identity.identifies(p) == req.identifies(p),
                forall|j: int|
                    0 <= j < i ==> !((#[trigger] self.pending.entries@[j]).1 matches Pending::Network(
                        p,
                    ) && req.identifies(p)),
            decreases self.pending.entries@.len() - i,
        {
            if let Pending::Network(p) = &self.pending.entries[i].1 {
                if identity.matches(p) {
                    proof {
                        self.pending.lemma_entry(i as int);
                        assert(self.network_board().waits_for(
                            self.pending.entries@[i as int].0@,
                            *req,
                        ));
                    }
                    return Some(self.pending.entries[i].0.clone());
                }
            }
            i += 1;
        }
        proof {
            assert forall|id: Seq<char>|
                !(#[trigger] self.network_board().waits_for(id, *req)) by {
                if self.pending@.contains_key(id) {
                    let j = self.pending.lemma_key(id);
                    assert(!(self.pending.entries@[j].1 matches Pending::Network(p)
                        && req.identifies(p)));
                }
            }
        }
        None
    }

    /// Have a caller wait for a network request, joining the callers that already wait for it.
    /// `fresh_id` names the request where it is new.
    pub fn dedup_or_create_pending_network(
        &mut self,
        req: &NetworkCheckRequest,
        waiter: NetworkWaiter,
        fresh_id: String,
        created_at: u64,
    ) -> (r: Result<PendingNetResult, CheckReply>)
        requires
            old(self).wf(),
        ensures
            final(self).wf(),
            final(self).configured_as(old(self)),
            final(self).network_board_changed(old(self)),
            joined_or_filed(
                old(self).network_board(),
                final(self).network_board(),
                *req,
                waiter,
                fresh_id,
                created_at,
                old(self).limits.waiters_per_pending,
                old(self).limits.pending_approvals,
                r,
            ),
    {
        let ghost board = self.network_board();
        if let Some(proxy) = waiter.proxy {
            if self.proxy_waits(proxy) {
                return Err(
                    CheckReply::blocked("agent-sandbox: duplicate in-flight network request ID"),
                );
            }
        }
        match self.find_network_pending(req) {
            Some(id) => {
                assert(board.waits_for(id@, *req));
                let waiting: usize = match self.waiters.network.get(&id) {
                    Some(list) => list.len(),
                    None => 0,
                };
                if waiting >= self.limits.waiters_per_pending {
                    return Err(
                        CheckReply::blocked(
                            "agent-sandbox: too many waiters for one network approval",
                        ),
                    );
                }
                let mut list = match self.waiters.network.remove(&id) {
                    Some(list) => list,
                    None => Vec::new(),
                };
                let ghost seen = list@;
                list.push(waiter);
                let _ = self.waiters.network.insert(id.clone(), list);
                proof {
                    assert(list@ == seen.push(waiter));
                    assert(board.waiters.contains_key(id@) ==> seen == board.waiters[id@]);
                    assert(self.network_board().waiters =~= board.joined(id@, waiter).waiters);
                    assert(self.network_board() =~= board.joined(id@, waiter));
                }
                Ok(PendingNetResult { id, is_new: false })
            },
            None => {
                if self.pending.len() >= self.limits.pending_approvals {
                    return Err(CheckReply::blocked("agent-sandbox: too many pending approvals"));
                }
                let mut list: Vec<NetworkWaiter> = Vec::new();
                list.push(waiter);
                let _ = self.waiters.network.insert(fresh_id.clone(), list);
                let pending = Pending::Network(
                    PendingNetwork {
                        id: fresh_id.clone(),
                        created_at,
                        host: req.host.clone(),
                        port: req.port,
                        scheme: req.scheme.clone(),
                        url: req.url.clone(),
                        aliases: text::copy_texts(&req.aliases),
                        context: PendingContext::from_resolved(&req.ctx),
                    },
                );
                let _ = self.pending.insert(fresh_id.clone(), pending);
                proof {
                    assert(list@ =~= seq![waiter]);
                    assert(self.network_board().waiters =~= board.waiters.insert(
                        fresh_id@,
                        seq![waiter],
                    ));
                }
                Ok(PendingNetResult { id: fresh_id, is_new: true })
            },
        }
    }

    fn remove_network_waiter(
        &mut self,
        pending_id: &String,
        proxy: Option<ProxyCheckId>,
    ) -> (r: Vec<u64>)
        requires
            old(self).wf(),
        ensures
            final(self).wf(),
            final(self).network_board_changed(old(self)),
            r@ == old(self).network_board().without(pending_id@, proxy).0,
            final(self).network_board() == old(self).network_board().without(
                pending_id@,
                proxy,
            ).1,
    {
        let ghost board = self.network_board();
        let ghost id = pending_id@;
        let ghost goal = board.without(id, proxy).1;
        let waiters = match self.waiters.network.remove(pending_id) {
            Some(waiters) => waiters,
            None => {
                proof {
                    assert(self.network_board().waiters =~= board.waiters);
                    assert(self.network_board() =~= board);
                }
                return Vec::new();
            },
        };
        let mut waiters = waiters;
        let ghost seen = waiters@;
        assert(board.waiters[id] == seen);
        match proxy {
            None => {
                let told = Self::callers_of(&waiters);
                let _ = self.pending.remove(pending_id);
                proof {
                    assert(self.network_board().waiters =~= goal.waiters);
                    assert(self.network_board() =~= goal);
                }
                told
            },
            Some(check) => {
                let mut told: Vec<u64> = Vec::new();
                let mut i: usize = 0;
                let mut found = false;
                while i < waiters.len() && !found
                    invariant
                        i <= waiters@.len(),
                        found ==> i < waiters@.len() && waiters@[i as int].proxy == Some(check),
                        forall|j: int|
                            0 <= j < i ==> (#[trigger] waiters@[j]).proxy != Some(check),
                    decreases
                            waiters@.len() - i + (if found {
                                0int
                            } else {
                                1int
                            }),
                {
                    let here = match waiters[i].proxy {
                        Some(p) => p == check,
                        None => false,
                    };
                    if here {
                        found = true;
                    } else {
                        i += 1;
                    }
                }
                proof {
                    lemma_proxy_index(seen, check, i as int);
                }
                if found {
                    let left = waiters.remove(i);
                    told.push(left.waiter);
                    assert(told@ =~= seq![seen[i as int].waiter]);
                } else {
                    assert(told@ =~= Seq::empty());
                }
                if waiters.len() == 0 {
                    let _ = self.pending.remove(pending_id);
                } else {
                    let _ = self.waiters.network.insert(pending_id.clone(), waiters);
                }
                proof {
                    assert(self.network_board().waiters =~= goal.waiters);
                    assert(self.network_board() =~= goal);
                }
                told
            },
        }
    }

    /// Take a cancelled caller off the request that it waits for; returns the callers to tell.
    pub fn cancel_network_wait(&mut self, pending_id: &String, proxy: Option<ProxyCheckId>) -> (r:
        Vec<u64>)
        requires
            old(self).wf(),
        ensures
            final(self).wf(),
            final(self).configured_as(old(self)),
            final(self).network_board_changed(old(self)),
            r@ == old(self).network_board().without(pending_id@, proxy).0,
            final(self).network_board() == old(self).network_board().without(
                pending_id@,
                proxy,
            ).1,
    {
        self.remove_network_waiter(pending_id, proxy)
    }

    /// Take a caller whose time is up off the request that it waits for; returns the callers to
    /// tell. Where it was the last, the request counts as blocked for a while.
    pub fn expire_network_wait(&mut self, wait: &NetworkWait, now: u64) -> (r: Vec<u64>)
        requires
            old(self).wf(),
        ensures
            final(self).wf(),
            final(self).configured_as(old(self)),
            r@ == old(self).network_board().without(wait.pending_id@, wait.proxy).0,
            wait_expired(*old(self), *final(self), *wait, now),
    {
        let told = self.remove_network_waiter(&wait.pending_id, wait.proxy);
        let ghost after = self.network_board();
        let last = !self.waiters.network.contains(&wait.pending_id);
        if last {
            let key = NetworkRuleKey { host: wait.host.clone(), port: wait.port };
            let _ = self.caches.network.insert(
                key,
                VerdictEntry { allowed: false, source: VerdictSource::Blocked, time: now },
            );
            state::enforce_verdict_cache_limit(
                &mut self.caches.network,
                self.limits.verdict_cache,
            );
        }
        assert(self.network_board() == after);
        told
    }

    /// One step of a caller that waits for a network decision.
    pub fn await_network_verdict(
        &mut self,
        wait: &NetworkWait,
        phase: WaitPhase,
        event: NetworkWaitEvent,
        now: u64,
    ) -> (r: NetworkWaitStep)
        requires
            old(self).wf(),
            now + old(self).args.approval_timeout <= u64::MAX,
        ensures
            final(self).wf(),
            final(self).configured_as(old(self)),
            ({
                let board = old(self).network_board();
                let left = board.without(wait.pending_id@, wait.proxy);
                match event {
                    NetworkWaitEvent::Answered(reply) => {
                        &&& r == (NetworkWaitStep::Done { reply, told: None })
                        &&& *final(self) == *old(self)
                    },
                    NetworkWaitEvent::Abandoned => {
                        &&& r == (NetworkWaitStep::Done {
                            reply: CheckReply::of_verdict(
                                Verdict { allowed: false, source: VerdictSource::Blocked },
                            ),
                            told: None,
                        })
                        &&& *final(self) == *old(self)
                    },
                    NetworkWaitEvent::Cancelled => {
                        &&& gave_up(
                            r,
                            left.0,
                            "agent-sandbox: network check cancelled"@,
                            "agent-sandbox: network check cancelled"@,
                        )
                        &&& final(self).network_board() == left.1
                        &&& final(self).network_board_changed(old(self))
                    },
                    NetworkWaitEvent::Look { has_ui } => {
                        let seen = waiting::looked(
                            phase,
                            now,
                            has_ui,
                            old(self).args.approval_timeout,
                        );
                        match seen.0 {
                            WaitPoll::Sleep(duration) => {
                                &&& r == (NetworkWaitStep::Wait { duration, phase: seen.1 })
                                &&& *final(self) == *old(self)
                            },
                            WaitPoll::Await(duration) => {
                                &&& r == (NetworkWaitStep::Wait { duration, phase: seen.1 })
                                &&& *final(self) == *old(self)
                            },
                            WaitPoll::NoUi => {
                                &&& gave_up(
                                    r,
                                    left.0,
                                    "agent-sandbox: no policy UI registered"@,
                                    "agent-sandbox: no policy UI registered (agent-sandbox-ui or auto-spawn)"@,
                                )
                                &&& wait_expired(*old(self), *final(self), *wait, now)
                            },
                            WaitPoll::TimedOut => {
                                &&& gave_up(
                                    r,
                                    left.0,
                                    "agent-sandbox: network approval timed out"@,
                                    "agent-sandbox: network approval timed out (no response from policy UI)"@,
                                )
                                &&& wait_expired(*old(self), *final(self), *wait, now)
                            },
                        }
                    },
                }
            }),
    {
        match event {
            NetworkWaitEvent::Answered(reply) => NetworkWaitStep::Done { reply, told: None },
            NetworkWaitEvent::Abandoned => NetworkWaitStep::Done {
                reply: CheckReply::denied(VerdictSource::Blocked),
                told: None,
            },
            NetworkWaitEvent::Cancelled => {
                let told = self.cancel_network_wait(&wait.pending_id, wait.proxy);
                NetworkWaitStep::Done {
                    reply: CheckReply::blocked("agent-sandbox: network check cancelled"),
                    told: Some(
                        NetworkDelivery {
                            told,
                            reply: CheckReply::blocked("agent-sandbox: network check cancelled"),
                        },
                    ),
                }
            },
            NetworkWaitEvent::Look { has_ui } => {
                let (poll, next) = waiting::look(phase, now, has_ui, self.args.approval_timeout);
                match poll {
                    WaitPoll::Sleep(duration) => NetworkWaitStep::Wait { duration, phase: next },
                    WaitPoll::Await(duration) => NetworkWaitStep::Wait { duration, phase: next },
                    WaitPoll::NoUi => {
                        let told = self.expire_network_wait(wait, now);
                        NetworkWaitStep::Done {
                            reply: CheckReply::blocked(
                                "agent-sandbox: no policy UI registered (agent-sandbox-ui or auto-spawn)",
                            ),
                            told: Some(
                                NetworkDelivery {
                                    told,
                                    reply: CheckReply::blocked(
                                        "agent-sandbox: no policy UI registered",
                                    ),
                                },
                            ),
                        }
                    },
                    WaitPoll::TimedOut => {
                        let told = self.expire_network_wait(wait, now);
                        NetworkWaitStep::Done {
                            reply: CheckReply::blocked(
                                "agent-sandbox: network approval timed out (no response from policy UI)",
                            ),
                            told: Some(
                                NetworkDelivery {
                                    told,
                                    reply: CheckReply::blocked(
                                        "agent-sandbox: network approval timed out",
                                    ),
                                },
                            ),
                        }
                    },
                }
            },
        }
    }
}

/// Asking for a network approval comes to the result: rules and decisions in force are heard
/// first, then remembered verdicts, and only then does the caller wait.
pub open spec fn approval_requested<M: Fn(&String, &String) -> bool>(
    before: PolicyStore,
    after: PolicyStore,
    req: NetworkCheckRequest,
    q: NetworkQuery,
    matches: M,
    waiter: NetworkWaiter,
    fresh_id: String,
    created_at: u64,
    now: u64,
    r: NetworkApproval,
) -> bool {
    match evaluator::network_decision(before.session, q, matches) {
        Some(verdict) => {
            &&& r == NetworkApproval::Reply(CheckReply::of_verdict(verdict))
            &&& after == (PolicyStore {
                session: SessionRules { once_allow: after.session.once_allow, ..before.session },
                ..before
            })
            &&& after.session.once_allow@ == (if verdict.once() {
                rules::once_spent(before.session.once_allow@, q.keys@)
            } else {
                before.session.once_allow@
            })
        },
        None => {
            &&& after.session.once_allow@ == before.session.once_allow@
            &&& after == (PolicyStore {
                session: SessionRules { once_allow: after.session.once_allow, ..before.session },
                pending: after.pending,
                waiters: Waiters { network: after.waiters.network, ..before.waiters },
                ..before
            })
            &&& if !before.args.interactive_approval {
                &&& r == NetworkApproval::Reply(
                    CheckReply::of_verdict(
                        Verdict { allowed: false, source: VerdictSource::Blocked },
                    ),
                )
                &&& after.network_board() == before.network_board()
            } else {
                match remembered_reply(
                    before.caches.network@,
                    NetworkRuleKeyView { host: req.host@, port: req.port },
                    now,
                ) {
                    Some(reply) => {
                        &&& r == NetworkApproval::Reply(reply)
                        &&& after.network_board() == before.network_board()
                    },
                    None => joined_or_filed(
                        before.network_board(),
                        after.network_board(),
                        req,
                        waiter,
                        fresh_id,
                        created_at,
                        before.limits.waiters_per_pending,
                        before.limits.pending_approvals,
                        match r {
                            NetworkApproval::Wait(result) => Ok(result),
                            NetworkApproval::Reply(reply) => Err(reply),
                        },
                    ),
                }
            }
        },
    }
}

/// The query that a request is judged by.
pub open spec fn query_of<'a>(
    req: &'a NetworkCheckRequest,
    keys: &'a Vec<NetworkRuleKey>,
    sessions: &'a Vec<String>,
    policy: &'a crate::types::Policy,
) -> NetworkQuery<'a> {
    NetworkQuery { host: &req.host, port: req.port, keys, sessions, policy }
}

/// The pending request is one that policy or sessions now allow for good.
pub open spec fn now_allowed<A: Fn(&PendingNetwork) -> Option<Verdict>>(
    pending: Map<Seq<char>, Pending>,
    allow: A,
    id: Seq<char>,
) -> bool {
    &&& pending.contains_key(id)
    &&& pending[id] matches Pending::Network(p)
    &&& p.port > 0
    &&& text::answer(allow, p) matches Some(verdict)
    &&& !verdict.policy_denied()
    &&& !verdict.once()
}

/// The verdict that now allows the pending request.
pub open spec fn allowing_verdict<A: Fn(&PendingNetwork) -> Option<Verdict>>(
    pending: Map<Seq<char>, Pending>,
    allow: A,
    id: Seq<char>,
) -> Verdict {
    text::answer(allow, pending[id]->Network_0)->0
}

/// The callers of a request that is now allowed are told so.
pub open spec fn told_allowed<A: Fn(&PendingNetwork) -> Option<Verdict>>(
    board: NetworkBoard,
    allow: A,
    id: Seq<char>,
    delivery: NetworkDelivery,
) -> bool {
    &&& now_allowed(board.pending, allow, id)
    &&& board.waiters.contains_key(id)
    &&& delivery.told@ == callers(board.waiters[id])
    &&& delivery.reply == CheckReply::of_verdict(
        Verdict { allowed: true, source: allowing_verdict(board.pending, allow, id).source },
    )
}

/// The cache once verdicts have been remembered one after the other.
pub open spec fn all_remembered(
    before: Map<NetworkRuleKeyView, VerdictEntry>,
    after: Map<NetworkRuleKeyView, VerdictEntry>,
    entries: Seq<(NetworkRuleKeyView, VerdictEntry)>,
    limit: usize,
) -> bool
    decreases entries.len(),
{
    if entries.len() == 0 {
        after == before
    } else {
        let (key, entry) = entries.last();
        exists|between: Map<NetworkRuleKeyView, VerdictEntry>|
            all_remembered(before, between, entries.drop_last(), limit) && #[trigger] remembered(
                between,
                after,
                key,
                entry,
                limit,
            )
    }
}

/// What is remembered of a pending request that is now allowed.
pub open spec fn allowed_entry<A: Fn(&PendingNetwork) -> Option<Verdict>>(
    pending: Map<Seq<char>, Pending>,
    allow: A,
    now: u64,
    id: Seq<char>,
) -> (NetworkRuleKeyView, VerdictEntry) {
    let p = pending[id]->Network_0;
    (
        NetworkRuleKeyView { host: p.host@, port: p.port },
        VerdictEntry {
            allowed: true,
            source: allowing_verdict(pending, allow, id).source,
            time: now,
        },
    )
}

/// What is remembered of pending requests that are now allowed.
pub open spec fn allowed_entries<A: Fn(&PendingNetwork) -> Option<Verdict>>(
    pending: Map<Seq<char>, Pending>,
    allow: A,
    now: u64,
    order: Seq<Seq<char>>,
) -> Seq<(NetworkRuleKeyView, VerdictEntry)> {
    Seq::new(order.len(), |i: int| allowed_entry(pending, allow, now, order[i]))
}

/// The verdicts on the requests with the ids are remembered in this order.
pub open spec fn remembered_in_turn<A: Fn(&PendingNetwork) -> Option<Verdict>>(
    before: PolicyStore,
    after: PolicyStore,
    allow: A,
    now: u64,
    order: Seq<Seq<char>>,
) -> bool {
    all_remembered(
        before.caches.network@,
        after.caches.network@,
        allowed_entries(before.pending@, allow, now, order),
        before.limits.verdict_cache,
    )
}

impl PolicyStore {
    /// Ask for a network approval under the given id; see [`approval_requested`]. `keys` are
    /// the names that the host is known by, `sessions` those of the request's context.
    pub fn request_network_approval_with_id<M: Fn(&String, &String) -> bool>(
        &mut self,
        req: &NetworkCheckRequest,
        keys: &Vec<NetworkRuleKey>,
        sessions: &Vec<String>,
        policy: &crate::types::Policy,
        matches: &M,
        waiter: NetworkWaiter,
        fresh_id: String,
        created_at: u64,
        now: u64,
    ) -> (r: NetworkApproval)
        requires
            old(self).wf(),
            text::decides_pairs(*matches),
        ensures
            final(self).wf(),
            final(self).configured_as(old(self)),
            approval_requested(
                *old(self),
                *final(self),
                *req,
                query_of(req, keys, sessions, policy),
                *matches,
                waiter,
                fresh_id,
                created_at,
                now,
                r,
            ),
    {
        let ghost board = self.network_board();
        let q = NetworkQuery { host: &req.host, port: req.port, keys, sessions, policy };
        if let Some(verdict) = self.network_verdict(&q, matches, true) {
            return NetworkApproval::Reply(CheckReply::from_verdict(verdict));
        }
        assert(self.network_board() == board);
        if !self.args.interactive_approval {
            return NetworkApproval::Reply(CheckReply::denied(VerdictSource::Blocked));
        }
        if let Some(reply) = self.check_network_verdict_cache(&req.host, req.port, now) {
            return NetworkApproval::Reply(reply);
        }
        match self.dedup_or_create_pending_network(req, waiter, fresh_id, created_at) {
            Ok(result) => NetworkApproval::Wait(result),
            Err(reply) => NetworkApproval::Reply(reply),
        }
    }

    /// Ask for a network approval, under a fresh id where the request is new; see
    /// [`PolicyStore::request_network_approval_with_id`].
    pub fn request_network_approval<M: Fn(&String, &String) -> bool>(
        &mut self,
        req: &NetworkCheckRequest,
        keys: &Vec<NetworkRuleKey>,
        sessions: &Vec<String>,
        policy: &crate::types::Policy,
        matches: &M,
        waiter: NetworkWaiter,
        created_at: u64,
        now: u64,
    ) -> (r: NetworkApproval)
        requires
            old(self).wf(),
            text::decides_pairs(*matches),
        ensures
            final(self).wf(),
            final(self).configured_as(old(self)),
            exists|fresh_id: String| ids::pending_id_form(fresh_id@, "net:"@) && #[trigger]
                approval_requested(
                    *old(self),
                    *final(self),
                    *req,
                    query_of(req, keys, sessions, policy),
                    *matches,
                    waiter,
                    fresh_id,
                    created_at,
                    now,
                    r,
                ),
    {
        let fresh_id = ids::fresh_pending_id("net:");
        self.request_network_approval_with_id(
            req,
            keys,
            sessions,
            policy,
            matches,
            waiter,
            fresh_id,
            created_at,
            now,
        )
    }

    fn now_allowed_ids<A: Fn(&PendingNetwork) -> Option<Verdict>>(&self, allow: &A) -> (r: Vec<
        (NetworkRuleKey, String, VerdictSource),
    >)
        requires
            self.wf(),
            text::determined(*allow),
        ensures
            forall|i: int|
                0 <= i < r@.len() ==> now_allowed(self.pending@, *allow, (#[trigger] r@[i]).1@)
                    && r@[i].2 == allowing_verdict(self.pending@, *allow, r@[i].1@).source
                    && self.pending@[r@[i].1@]->Network_0.host == r@[i].0.host
                    && self.pending@[r@[i].1@]->Network_0.port == r@[i].0.port,
            forall|id: Seq<char>|
                now_allowed(self.pending@, *allow, id) ==> exists|i: int|
                    0 <= i < r@.len() && (#[trigger] r@[i]).1@ == id,
            forall|i: int, j: int|
                0 <= i < j < r@.len() ==> (#[trigger] r@[i]).1@ != (#[trigger] r@[j]).1@,
    {
        let mut r: Vec<(NetworkRuleKey, String, VerdictSource)> = Vec::new();
        let ghost mut at: Seq<int> = Seq::empty();
        let mut i: usize = 0;
        while i < self.pending.entries.len()
            invariant
                self.wf(),
                text::determined(*allow),
                i <= self.pending.entries@.len(),
                at.len() == r@.len(),
                forall|x: int|
                    0 <= x < r@.len() ==> 0 <= #[trigger] at[x] < i
                        && self.pending.entries@[at[x]].0@ == r@[x].1@,
                forall|x: int, y: int|
                    0 <= x < y < r@.len() ==> #[trigger] at[x] < #[trigger] at[y],
                forall|x: int|
                    0 <= x < r@.len() ==> now_allowed(
                        self.pending@,
                        *allow,
                        (#[trigger] r@[x]).1@,
                    ) && r@[x].2 == allowing_verdict(self.pending@, *allow, r@[x].1@).source
                        && self.pending@[r@[x].1@]->Network_0.host == r@[x].0.host
                        && self.pending@[r@[x].1@]->Network_0.port == r@[x].0.port,
                forall|y: int|
                    0 <= y < i && now_allowed(
                        self.pending@,
                        *allow,
                        (#[trigger] self.pending.entries@[y]).0@,
                    ) ==> exists|x: int|
                        0 <= x < r@.len() && (#[trigger] r@[x]).1@
                            == self.pending.entries@[y].0@,
            decreases self.pending.entries@.len() - i,
        {
            proof {
                self.pending.lemma_entry(i as int);
            }
            let ghost id = self.pending.entries@[i as int].0@;
            let ghost before = r@;
            if let Pending::Network(p) = &self.pending.entries[i].1 {
                if p.port > 0 {
                    let verdict = allow(p);
                    assert(verdict == text::answer(*allow, *p));
                    if let Some(v) = verdict {
                        if !v.is_policy_denied() && !v.is_once() {
                            proof {
                                assert(now_allowed(self.pending@, *allow, id));
                            }
                            r.push(
                                (
                                    NetworkRuleKey { host: p.host.clone(), port: p.port },
                                    self.pending.entries[i].0.clone(),
                                    v.source,
                                ),
                            );
                            proof {
                                at = at.push(i as int);
                                assert(r@[r@.len() - 1].1@ == id);
                            }
                        }
                    }
                }
            }
            proof {
                assert forall|y: int|
                    0 <= y < i + 1 && now_allowed(
                        self.pending@,
                        *allow,
                        (#[trigger] self.pending.entries@[y]).0@,
                    ) implies exists|x: int|
                    0 <= x < r@.len() && (#[trigger] r@[x]).1@ == self.pending.entries@[y].0@ by {
                    if y < i {
                        let x = choose|x: int|
                            0 <= x < before.len() && (#[trigger] before[x]).1@
                                == self.pending.entries@[y].0@;
                        assert(r@[x] == before[x]);
                    } else {
                        assert(r@.len() == before.len() + 1);
                        assert(r@[r@.len() - 1].1@ == id);
                    }
                }
            }
            i += 1;
        }
        proof {
            assert forall|id: Seq<char>|
                now_allowed(self.pending@, *allow, id) implies exists|x: int|
                0 <= x < r@.len() && (#[trigger] r@[x]).1@ == id by {
                let y = self.pending.lemma_key(id);
                assert(self.pending.entries@[y].0@ == id);
            }
            assert forall|x: int, y: int| 0 <= x < y < r@.len() implies (#[trigger] r@[x]).1@ != (
            #[trigger] r@[y]).1@ by {
                assert(at[x] < at[y]);
                assert(self.pending.entries@[at[x]].0@ != self.pending.entries@[at[y]].0@);
            }
        }
        r
    }

    /// Answer the pending network requests that policy or sessions now allow for good. `allow`
    /// gives the present verdict on a pending request. Denials and single-use approvals answer
    /// nobody.
    pub fn resolve_pending_declarative_allow<A: Fn(&PendingNetwork) -> Option<Verdict>>(
        &mut self,
        allow: A,
        now: u64,
    ) -> (r: Vec<(String, NetworkDelivery)>)
        requires
            old(self).wf(),
            text::determined(allow),
        ensures
            final(self).wf(),
            final(self).configured_as(old(self)),
            *final(self) == (PolicyStore {
                pending: final(self).pending,
                waiters: Waiters { network: final(self).waiters.network, ..old(self).waiters },
                caches: VerdictCaches {
                    network: final(self).caches.network,
                    ..old(self).caches
                },
                ..*old(self)
            }),
            ({
                let board = old(self).network_board();
                let done = Set::new(|id: Seq<char>| now_allowed(board.pending, allow, id));
                &&& final(self).network_board() == (NetworkBoard {
                    pending: board.pending.remove_keys(done),
                    waiters: board.waiters.remove_keys(done),
                })
                &&& forall|i: int|
                    0 <= i < r@.len() ==> told_allowed(
                        board,
                        allow,
                        (#[trigger] r@[i]).0@,
                        r@[i].1,
                    )
                &&& forall|id: Seq<char>|
                    now_allowed(board.pending, allow, id) && #[trigger] board.waiters.contains_key(
                        id,
                    ) ==> exists|i: int| 0 <= i < r@.len() && (#[trigger] r@[i]).0@ == id
                &&& forall|i: int, j: int|
                    0 <= i < j < r@.len() ==> (#[trigger] r@[i]).0@ != (#[trigger] r@[j]).0@
                &&& exists|order: Seq<Seq<char>>|
                    order.no_duplicates() && order.to_set() == done && #[trigger]
                        remembered_in_turn(*old(self), *final(self), allow, now, order)
            }),
    {
        let ghost board = self.network_board();
        let found = self.now_allowed_ids(&allow);
        let ghost listed = Seq::new(found@.len(), |x: int| found@[x].1@);
        let mut told: Vec<(String, NetworkDelivery)> = Vec::new();
        let mut i: usize = 0;
        proof {
            assert(listed.take(0).to_set() =~= Set::empty());
            assert(board.pending.remove_keys(listed.take(0).to_set()) =~= board.pending);
            assert(board.waiters.remove_keys(listed.take(0).to_set()) =~= board.waiters);
        }
        while i < found.len()
            invariant
                self.wf(),
                i <= found@.len(),
                remembered_in_turn(*old(self), *self, allow, now, listed.take(i as int)),
                listed == Seq::new(found@.len(), |x: int| found@[x].1@),
                *self == (PolicyStore {
                    pending: self.pending,
                    waiters: Waiters { network: self.waiters.network, ..old(self).waiters },
                    caches: VerdictCaches { network: self.caches.network, ..old(self).caches },
                    ..*old(self)
                }),
                board == old(self).network_board(),
                self.network_board() == (NetworkBoard {
                    pending: board.pending.remove_keys(listed.take(i as int).to_set()),
                    waiters: board.waiters.remove_keys(listed.take(i as int).to_set()),
                }),
                forall|x: int|
                    0 <= x < found@.len() ==> now_allowed(
                        board.pending,
                        allow,
                        (#[trigger] found@[x]).1@,
                    ) && found@[x].2 == allowing_verdict(
                        board.pending,
                        allow,
                        found@[x].1@,
                    ).source && board.pending[found@[x].1@]->Network_0.host == found@[x].0.host
                        && board.pending[found@[x].1@]->Network_0.port == found@[x].0.port,
                forall|x: int, y: int|
                    0 <= x < y < found@.len() ==> (#[trigger] found@[x]).1@ != (
                    #[trigger] found@[y]).1@,
                forall|x: int|
                    0 <= x < told@.len() ==> exists|y: int|
                        0 <= y < i && (#[trigger] told@[x]).0@ == (#[trigger] found@[y]).1@,
                forall|x: int, y: int|
                    0 <= x < y < told@.len() ==> (#[trigger] told@[x]).0@ != (
                    #[trigger] told@[y]).0@,
                forall|x: int|
                    0 <= x < told@.len() ==> told_allowed(
                        board,
                        allow,
                        (#[trigger] told@[x]).0@,
                        told@[x].1,
                    ),
                forall|y: int|
                    0 <= y < i && board.waiters.contains_key((#[trigger] found@[y]).1@)
                        ==> exists|x: int|
                        0 <= x < told@.len() && (#[trigger] told@[x]).0@ == found@[y].1@,
            decreases found@.len() - i,
        {
            let key = found[i].0.clone();
            let source = found[i].2.clone();
            let ghost id = found@[i as int].1@;
            let ghost before = told@;
            let ghost middle = *self;
            let delivery = self.finish_network(&found[i].1, true, source, Some(key), now);
            let _ = self.pending.remove(&found[i].1);
            proof {
                assert(listed[i as int] == id);
                lemma_listed_step(listed, i as int);
                assert(listed.take(i + 1) =~= listed.take(i as int).push(id));
                lemma_remembered_next(
                    *old(self),
                    middle,
                    *self,
                    allow,
                    now,
                    listed.take(i as int),
                    id,
                );
                assert(!listed.take(i as int).to_set().contains(id)) by {
                    if listed.take(i as int).contains(id) {
                        let x = choose|x: int|
                            0 <= x < listed.take(i as int).len() && listed.take(i as int)[x] == id;
                        assert(found@[x].1@ == id);
                    }
                }
                assert(self.network_board().pending =~= board.pending.remove_keys(
                    listed.take(i + 1).to_set(),
                ));
                assert(self.network_board().waiters =~= board.waiters.remove_keys(
                    listed.take(i + 1).to_set(),
                ));
            }
            if let Some(delivery) = delivery {
                assert(told_allowed(board, allow, id, delivery));
                told.push((found[i].1.clone(), delivery));
                assert(told@[told@.len() - 1].0@ == id);
            }
            proof {
                assert forall|y: int|
                    0 <= y < i + 1 && board.waiters.contains_key(
                        (#[trigger] found@[y]).1@,
                    ) implies exists|x: int|
                    0 <= x < told@.len() && (#[trigger] told@[x]).0@ == found@[y].1@ by {
                    if y < i {
                        let x = choose|x: int|
                            0 <= x < before.len() && (#[trigger] before[x]).0@ == found@[y].1@;
                        assert(told@[x] == before[x]);
                    } else {
                        assert(told@[told@.len() - 1].0@ == id);
                    }
                }
            }
            i += 1;
        }
        proof {
            assert(listed.take(listed.len() as int) =~= listed);
            let done = Set::new(|id: Seq<char>| now_allowed(board.pending, allow, id));
            assert(listed.to_set() =~= done) by {
                assert forall|id: Seq<char>| listed.to_set().contains(id) == done.contains(id) by {
                    if listed.contains(id) {
                        let x = choose|x: int| 0 <= x < listed.len() && listed[x] == id;
                        assert(found@[x].1@ == id);
                    }
                    if done.contains(id) {
                        let x = choose|x: int| 0 <= x < found@.len() && (#[trigger] found@[x]).1@
                            == id;
                        assert(listed[x] == id);
                    }
                }
            }
            assert forall|id: Seq<char>|
                now_allowed(board.pending, allow, id) && #[trigger] board.waiters.contains_key(
                    id,
                ) implies exists|x: int|
                0 <= x < told@.len() && (#[trigger] told@[x]).0@ == id by {
                let y = choose|y: int| 0 <= y < found@.len() && (#[trigger] found@[y]).1@ == id;
                assert(board.waiters.contains_key(found@[y].1@));
            }
        }
        told
    }
}

proof fn lemma_remembered_next<A: Fn(&PendingNetwork) -> Option<Verdict>>(
    before: PolicyStore,
    middle: PolicyStore,
    after: PolicyStore,
    allow: A,
    now: u64,
    order: Seq<Seq<char>>,
    id: Seq<char>,
)
    requires
        remembered_in_turn(before, middle, allow, now, order),
        ({
            let (key, entry) = allowed_entry(before.pending@, allow, now, id);
            remembered(
                middle.caches.network@,
                after.caches.network@,
                key,
                entry,
                before.limits.verdict_cache,
            )
        }),
    ensures
        remembered_in_turn(before, after, allow, now, order.push(id)),
{
    let next = allowed_entries(before.pending@, allow, now, order.push(id));
    assert(next.drop_last() =~= allowed_entries(before.pending@, allow, now, order));
    assert(next.last() == allowed_entry(before.pending@, allow, now, id));
    let (key, entry) = next.last();
    assert(all_remembered(
        before.caches.network@,
        middle.caches.network@,
        next.drop_last(),
        before.limits.verdict_cache,
    ) && remembered(
        middle.caches.network@,
        after.caches.network@,
        key,
        entry,
        before.limits.verdict_cache,
    ));
}

proof fn lemma_listed_step(listed: Seq<Seq<char>>, i: int)
    requires
        0 <= i < listed.len(),
    ensures
        listed.take(i + 1).to_set() == listed.take(i).to_set().insert(listed[i]),
{
    let s = listed.take(i);
    let t = listed.take(i + 1);
    assert forall|id: Seq<char>| t.to_set().contains(id) == s.to_set().insert(
        listed[i],
    ).contains(id) by {
        if t.contains(id) {
            let x = choose|x: int| 0 <= x < t.len() && t[x] == id;
            if x < i {
                assert(s[x] == id);
            }
        }
        if s.contains(id) {
            let x = choose|x: int| 0 <= x < s.len() && s[x] == id;
            assert(t[x] == id);
        }
        if id == listed[i] {
            assert(t[i] == id);
        }
    }
    assert(t.to_set() =~= s.to_set().insert(listed[i]));
}

/// Cancelling a proxy's check that has just joined leaves the requests and their callers as
/// they were, where somebody else waits too.
pub proof fn law_cancel_undoes_join(
    board: NetworkBoard,
    id: Seq<char>,
    proxy: ProxyCheckId,
    waiter: u64,
)
    requires
        board.waiters.contains_key(id),
        board.waiters[id].len() > 0,
        !board.has_proxy(proxy),
    ensures
        board.joined(id, NetworkWaiter { proxy: Some(proxy), waiter }).without(id, Some(proxy)) == (
            seq![waiter],
            board,
        ),
{
    let w = NetworkWaiter { proxy: Some(proxy), waiter };
    let joined = board.joined(id, w);
    let before = board.waiters[id];
    let after = before.push(w);
    let n = before.len() as int;
    assert forall|j: int| 0 <= j < n implies (#[trigger] after[j]).proxy != Some(proxy) by {
        assert(board.waiters[id][j] == after[j]);
    }
    lemma_proxy_index(after, proxy, n);
    assert(after.remove(n) =~= before);
    let end = joined.without(id, Some(proxy)).1;
    assert(end.waiters =~= board.waiters);
    assert(end =~= board);
}

/// A request that was filed for one caller is gone without trace once that caller has left.
pub proof fn law_last_caller_takes_request(
    board: NetworkBoard,
    id: Seq<char>,
    waiter: NetworkWaiter,
)
    requires
        board.waiters.contains_key(id),
        board.waiters[id] == seq![waiter],
    ensures
        board.without(id, waiter.proxy).0 == seq![waiter.waiter],
        !board.without(id, waiter.proxy).1.pending.contains_key(id),
        !board.without(id, waiter.proxy).1.waiters.contains_key(id),
{
    let ws = board.waiters[id];
    assert(callers(ws) =~= seq![waiter.waiter]);
    if let Some(proxy) = waiter.proxy {
        lemma_proxy_index(ws, proxy, 0);
        assert(ws.remove(0) =~= Seq::empty());
    }
}

/// No more requests wait than the limit allows, and for a network request no more callers.
pub proof fn law_network_requests_are_bounded(
    before: NetworkBoard,
    after: NetworkBoard,
    req: NetworkCheckRequest,
    waiter: NetworkWaiter,
    fresh_id: String,
    created_at: u64,
    waiter_limit: usize,
    pending_limit: usize,
    r: Result<PendingNetResult, CheckReply>,
    id: Seq<char>,
)
    requires
        before.pending.dom().finite(),
        before.pending.len() <= pending_limit,
        waiter_limit > 0,
        before.waiting(id) <= waiter_limit,
        joined_or_filed(
            before,
            after,
            req,
            waiter,
            fresh_id,
            created_at,
            waiter_limit,
            pending_limit,
            r,
        ),
    ensures
        after.pending.len() <= pending_limit,
        after.waiting(id) <= waiter_limit,
{
}

/// A decision tells every caller that waits for its request, in the order in which they came,
/// and afterwards nobody waits for it.
pub proof fn law_decision_tells_every_caller(
    before: PolicyStore,
    after: PolicyStore,
    pending_id: Seq<char>,
    verdict: Verdict,
    cache_key: Option<NetworkRuleKeyView>,
    now: u64,
    r: Option<NetworkDelivery>,
    i: int,
)
    requires
        network_finished(before, after, pending_id, verdict, cache_key, now, r),
        before.network_board().waiters.contains_key(pending_id),
        0 <= i < before.network_board().waiters[pending_id].len(),
    ensures
        r matches Some(delivery) && delivery.told@.len()
            == before.network_board().waiters[pending_id].len() && delivery.told@[i]
            == before.network_board().waiters[pending_id][i].waiter && delivery.reply.allowed
            == verdict.allowed && delivery.reply.source == verdict.source,
        !after.network_board().waiters.contains_key(pending_id),
{
}

} // verus!
