//! The trusted proxy's session and the registry of flows that it claims.

use vstd::prelude::*;

use crate::error::proxy_error;
use crate::error::PolicydError;
use crate::flow::AttributionToken;
use crate::flow::FlowProtocol;
use crate::flow::FlowRegistration;
use crate::flow::NetworkFlowKey;
use crate::flow::NetworkFlowSelector;
use crate::flow::ProxySessionToken;
use crate::flow::SocketIdentity;
use crate::state::ProxyFlowState;
use crate::state::ProxySessionState;
use crate::state::ProxyState;
use crate::store::PolicyStore;
use crate::table;
use crate::table::Table;
use crate::text;
use crate::types::ProcessIds;
use crate::types::ResolvedRequestContext;

verus! {

/// How long a flow that nobody claimed stays registered, in nanoseconds.
pub const UNCLAIMED_TTL: u64 = 30_000_000_000;

/// The most checks of the proxy that are remembered at once.
pub const MAX_PROXY_CANCEL_TOMBSTONES: usize = 4096;

/// Reply to the opening of a proxy session.
#[derive(Clone, Copy, Debug, PartialEq, Eq, Structural)]
pub struct ProxySessionReply {
    pub ok: bool,
    pub proxy_session: ProxySessionToken,
}

/// Reply to the claim of a flow.
#[derive(Debug, PartialEq, Eq)]
pub struct FlowClaimReply {
    pub ok: bool,
    pub attribution_token: AttributionToken,
    pub flow: NetworkFlowKey,
    pub policy_host: String,
}

/// What came of asking the system whether a socket still has its owner.
#[derive(Clone, Copy, Debug, PartialEq, Eq, Structural)]
pub enum OwnerCheck {
    Valid,
    Changed,
    TimedOut,
    Failed,
}

/// The flow stays registered: it is claimed, or its time is not up.
pub open spec fn kept(state: ProxyFlowState, now: u64) -> bool {
    state.attribution_token is Some || now - state.last_check <= UNCLAIMED_TTL
}

/// The flows that stay registered.
pub open spec fn pruned(
    flows: Map<NetworkFlowKey, ProxyFlowState>,
    now: u64,
) -> Map<NetworkFlowKey, ProxyFlowState> {
    table::where_value(flows, |s: ProxyFlowState| kept(s, now))
}

/// The flow once a connection has claimed it.
pub open spec fn claimed(
    state: ProxyFlowState,
    token: AttributionToken,
    connection_id: u64,
    now: u64,
) -> ProxyFlowState {
    ProxyFlowState {
        attribution_token: Some(token),
        connection_id: Some(connection_id),
        claimed_at: Some(now),
        last_check: now,
        ..state
    }
}

/// The flow once its claim is over.
pub open spec fn unclaimed(state: ProxyFlowState, now: u64) -> ProxyFlowState {
    ProxyFlowState {
        attribution_token: None,
        connection_id: None,
        claimed_at: None,
        last_check: now,
        ..state
    }
}

/// The token stands for the claim of the flow.
pub open spec fn claim_is(
    flows: Map<NetworkFlowKey, ProxyFlowState>,
    token: AttributionToken,
    key: NetworkFlowKey,
) -> bool {
    flows.contains_key(key) && flows[key].attribution_token == Some(token)
}

/// The token stands for the claim of some flow.
pub open spec fn has_claim(
    flows: Map<NetworkFlowKey, ProxyFlowState>,
    token: AttributionToken,
) -> bool {
    exists|key: NetworkFlowKey| #[trigger] claim_is(flows, token, key)
}

/// No token stands for the claims of two flows.
pub open spec fn tokens_distinct(flows: Map<NetworkFlowKey, ProxyFlowState>) -> bool {
    forall|a: NetworkFlowKey, b: NetworkFlowKey, token: AttributionToken| #[trigger]
        claim_is(flows, token, a) && #[trigger] claim_is(flows, token, b) ==> a == b
}

/// The refusal, if any, is the one that is due.
pub open spec fn refused<T>(r: Result<T, PolicydError>, reason: Option<Seq<char>>) -> bool {
    match reason {
        Some(reason) => r matches Err(e) && e.is_proxy(reason),
        None => r is Ok,
    }
}

impl ProxyState {
    /// The token is that of the open session.
    pub open spec fn session_is(&self, token: ProxySessionToken) -> bool {
        self.session matches Some(s) && s.token == token
    }

    /// Only the flows differ.
    pub open spec fn flows_changed(&self, before: &ProxyState) -> bool {
        self.session == before.session && self.cancellations == before.cancellations
    }
}

impl PolicyStore {
    /// Only the proxy's part of the store differs.
    pub open spec fn proxy_changed(&self, before: &PolicyStore) -> bool {
        *self == (PolicyStore { proxy: self.proxy, ..*before })
    }

    /// Only the proxy's flows differ.
    pub open spec fn only_flows_changed(&self, before: &PolicyStore) -> bool {
        self.proxy_changed(before) && self.proxy.flows_changed(&before.proxy)
    }
}

/// Whether both sockets belong to the same process.
pub fn same_socket_owner(first: SocketIdentity, second: SocketIdentity) -> (r: bool)
    ensures
        r == (first.process == second.process),
{
    first.process == second.process
}

/// Why a claim may not move to a pending flow, if it may not.
pub open spec fn candidate_refusal(
    claimed: ProxyFlowState,
    pending: ProxyFlowState,
) -> Option<Seq<char>> {
    if pending.attribution_token is Some {
        Some("rebind conflicts with an existing flow"@)
    } else if claimed.registration.owner.process != pending.registration.owner.process {
        Some("socket owner changed"@)
    } else if !pending.registration.agrees(&claimed.registration) {
        Some("rebind conflicts with an existing flow"@)
    } else {
        None
    }
}

fn validate_rebind_candidate(claimed: &ProxyFlowState, pending: &ProxyFlowState) -> (r: Result<
    (),
    PolicydError,
>)
    ensures
        refused(r, candidate_refusal(*claimed, *pending)),
{
    if pending.attribution_token.is_some() {
        return Err(proxy_error("rebind conflicts with an existing flow"));
    }
    if !same_socket_owner(claimed.registration.owner, pending.registration.owner) {
        return Err(proxy_error("socket owner changed"));
    }
    if !pending.registration.same_target(&claimed.registration) {
        return Err(proxy_error("rebind conflicts with an existing flow"));
    }
    Ok(())
}

/// Why a flow's owner is not accepted, if it is not.
pub open spec fn owner_refusal(check: OwnerCheck) -> Option<Seq<char>> {
    match check {
        OwnerCheck::Valid => None,
        OwnerCheck::Changed => Some("socket owner changed"@),
        OwnerCheck::TimedOut => Some("socket owner validation timed out"@),
        OwnerCheck::Failed => Some("socket owner validation failed"@),
    }
}

/// Accept a registered owner that the system confirms.
pub fn validate_registered_owner(owner: SocketIdentity, check: OwnerCheck) -> (r: Result<
    SocketIdentity,
    PolicydError,
>)
    ensures
        refused(r, owner_refusal(check)),
        r matches Ok(o) ==> o == owner,
{
    match check {
        OwnerCheck::Valid => Ok(owner),
        OwnerCheck::Changed => Err(proxy_error("socket owner changed")),
        OwnerCheck::TimedOut => Err(proxy_error("socket owner validation timed out")),
        OwnerCheck::Failed => Err(proxy_error("socket owner validation failed")),
    }
}

/// The context that a registration itself carries, with the ids of its owner.
pub fn registration_context(registration: &FlowRegistration) -> (r: ResolvedRequestContext)
    ensures
        r == (ResolvedRequestContext {
            paths: registration.context.paths,
            ids: ProcessIds {
                pid: Some(registration.owner.process.pid),
                uid: Some(registration.owner.process.uid),
            },
            sandbox_session_id: registration.context.sandbox_session_id,
            package: None,
        }),
{
    ResolvedRequestContext {
        paths: registration.context.paths.clone(),
        ids: ProcessIds {
            pid: Some(registration.owner.process.pid),
            uid: Some(registration.owner.process.uid),
        },
        sandbox_session_id: text::copy_opt(&registration.context.sandbox_session_id),
        package: None,
    }
}

/// Let the flows leave that nobody claimed in time.
pub fn prune_flows(flows: &mut Table<NetworkFlowKey, ProxyFlowState>, now: u64)
    requires
        old(flows).wf(),
    ensures
        final(flows).wf(),
        final(flows)@ == pruned(old(flows)@, now),
{
    let stays = |s: &ProxyFlowState| -> (keep: bool)
        ensures
            keep == kept(*s, now),
    {
        if s.attribution_token.is_some() {
            return true;
        }
        if now <= s.last_check {
            true
        } else {
            now - s.last_check <= UNCLAIMED_TTL
        }
    };
    flows.retain(stays, Ghost(|s: ProxyFlowState| kept(s, now)));
    assert(flows@ =~= pruned(old(flows)@, now));
}

/// What registering a flow comes to: the refusal, if any, and the flows afterwards.
pub open spec fn registered(
    before: Map<NetworkFlowKey, ProxyFlowState>,
    registration: FlowRegistration,
    context: ResolvedRequestContext,
    now: u64,
    limit: usize,
) -> (Option<Seq<char>>, Map<NetworkFlowKey, ProxyFlowState>) {
    let flows = pruned(before, now);
    let key = registration.flow;
    if flows.contains_key(key) {
        let existing = flows[key];
        if existing.registration@ != registration@ {
            (Some("flow registration conflicts with an existing owner"@), flows)
        } else if existing.attribution_token is None {
            (
                None,
                flows.insert(
                    key,
                    ProxyFlowState { registration, context, last_check: now, ..existing },
                ),
            )
        } else {
            (None, flows.insert(key, ProxyFlowState { last_check: now, ..existing }))
        }
    } else if flows.len() >= limit {
        (Some("proxy flow registry is full"@), flows)
    } else {
        (
            None,
            flows.insert(
                key,
                ProxyFlowState {
                    owner: registration.owner,
                    registration,
                    context,
                    attribution_token: None,
                    connection_id: None,
                    claimed_at: None,
                    last_check: now,
                },
            ),
        )
    }
}

/// Why a flow cannot be claimed by its tuple, if it cannot.
pub open spec fn claim_refusal(
    proxy: ProxyState,
    session: ProxySessionToken,
    flow: NetworkFlowKey,
    now: u64,
) -> Option<Seq<char>> {
    let flows = pruned(proxy.flows@, now);
    if !proxy.session_is(session) {
        Some("proxy session token is invalid"@)
    } else if !flows.contains_key(flow) {
        Some("flow is not registered"@)
    } else if flows[flow].attribution_token is Some {
        Some("flow is already claimed"@)
    } else {
        None
    }
}

/// The selector picks the registered flow.
pub open spec fn picks(
    flows: Map<NetworkFlowKey, ProxyFlowState>,
    selector: NetworkFlowSelector,
    key: NetworkFlowKey,
) -> bool {
    flows.contains_key(key) && selector.selects(key)
}

/// Why a hidden flow cannot be claimed by its selector, if it cannot.
pub open spec fn selection_refusal(
    proxy: ProxyState,
    session: ProxySessionToken,
    selector: NetworkFlowSelector,
    now: u64,
) -> Option<Seq<char>> {
    let flows = pruned(proxy.flows@, now);
    if selector.protocol != FlowProtocol::Udp {
        Some("redirected flow selector requires UDP"@)
    } else if !proxy.session_is(session) {
        Some("proxy session token is invalid"@)
    } else if !(exists|k: NetworkFlowKey| #[trigger] picks(flows, selector, k)) {
        Some("redirected flow is not registered"@)
    } else if exists|a: NetworkFlowKey, b: NetworkFlowKey|
        a != b && #[trigger] picks(flows, selector, a) && #[trigger] picks(flows, selector, b) {
        Some("redirected flow selector is ambiguous"@)
    } else if flows[choose|k: NetworkFlowKey| #[trigger]
        picks(flows, selector, k)].attribution_token is Some {
        Some("redirected flow is already claimed"@)
    } else {
        None
    }
}

/// Why the claim of a selected flow cannot be completed, if it cannot.
pub open spec fn selected_refusal(
    proxy: ProxyState,
    session: ProxySessionToken,
    expected: FlowRegistration,
    now: u64,
) -> Option<Seq<char>> {
    let flows = pruned(proxy.flows@, now);
    if !proxy.session_is(session) {
        Some("proxy session token is invalid"@)
    } else if !flows.contains_key(expected.flow) {
        Some("redirected flow is no longer registered"@)
    } else if flows[expected.flow].registration@ != expected@ {
        Some("redirected flow changed during claim"@)
    } else if flows[expected.flow].attribution_token is Some {
        Some("redirected flow is already claimed"@)
    } else {
        None
    }
}

/// What a claim is to move from and to.
#[derive(Debug, PartialEq, Eq)]
pub struct RebindPlan {
    pub old_key: NetworkFlowKey,
    pub registration: FlowRegistration,
    pub pending_registration: FlowRegistration,
}

/// Why a claim may not move to a new tuple, if it may not.
pub open spec fn rebind_refusal(
    flows: Map<NetworkFlowKey, ProxyFlowState>,
    old_key: NetworkFlowKey,
    connection_id: u64,
    flow: NetworkFlowKey,
) -> Option<Seq<char>> {
    let state = flows[old_key];
    if state.connection_id != Some(connection_id) {
        Some("unknown connection identifier"@)
    } else if old_key.protocol != FlowProtocol::Udp || flow.protocol != FlowProtocol::Udp {
        Some("rebind requires a UDP flow"@)
    } else if flow.destination_ip != old_key.destination_ip || flow.destination_port
        != old_key.destination_port {
        Some("rebind cannot change the flow destination"@)
    } else if flow == old_key {
        Some("rebind requires a new flow tuple"@)
    } else if !flows.contains_key(flow) {
        Some("rebind flow is not registered"@)
    } else {
        candidate_refusal(state, flows[flow])
    }
}

/// Why a planned move cannot be completed, if it cannot.
pub open spec fn move_refusal(
    proxy: ProxyState,
    session: ProxySessionToken,
    token: AttributionToken,
    connection_id: u64,
    flow: NetworkFlowKey,
    plan: RebindPlan,
) -> Option<Seq<char>> {
    let flows = proxy.flows@;
    let state = flows[plan.old_key];
    let pending = flows[flow];
    if !proxy.session_is(session) {
        Some("proxy session token is invalid"@)
    } else if !flows.contains_key(plan.old_key) {
        Some("flow registration expired"@)
    } else if state.registration@ != plan.registration@ || state.connection_id != Some(
        connection_id,
    ) || state.attribution_token != Some(token) {
        Some("flow claim changed during rebind"@)
    } else if !flows.contains_key(flow) {
        Some("rebind flow is no longer registered"@)
    } else if plan.registration.owner.process != pending.registration.owner.process {
        Some("socket owner changed"@)
    } else if pending.attribution_token is Some || pending.registration@
        != plan.pending_registration@ {
        Some("rebind flow changed during validation"@)
    } else {
        None
    }
}

/// The flows once a claim has moved to a new tuple.
pub open spec fn moved(
    flows: Map<NetworkFlowKey, ProxyFlowState>,
    flow: NetworkFlowKey,
    plan: RebindPlan,
    new_owner: SocketIdentity,
    now: u64,
) -> Map<NetworkFlowKey, ProxyFlowState> {
    flows.remove(plan.old_key).insert(
        flow,
        ProxyFlowState {
            registration: FlowRegistration {
                flow,
                owner: new_owner,
                policy_host: plan.registration.policy_host,
                context: plan.registration.context,
            },
            owner: new_owner,
            last_check: now,
            ..flows[plan.old_key]
        },
    )
}

/// A claimed flow as it was when a check of it began.
#[derive(Debug, PartialEq, Eq)]
pub struct FlowSnapshot {
    pub flow: NetworkFlowKey,
    pub registration: FlowRegistration,
    pub owner: SocketIdentity,
    pub context: ResolvedRequestContext,
}

/// What a check of a claimed flow is about.
#[derive(Debug, PartialEq, Eq)]
pub struct FlowCheck {
    pub host: String,
    pub port: u16,
    pub context: ResolvedRequestContext,
    pub protocol: FlowProtocol,
}

/// Why a flow's owner is not confirmed for a check, if it is not.
pub open spec fn revalidation_refusal(check: OwnerCheck) -> Option<Seq<char>> {
    match check {
        OwnerCheck::Valid => None,
        OwnerCheck::Changed => Some("socket owner changed"@),
        OwnerCheck::TimedOut => Some("socket owner revalidation timed out"@),
        OwnerCheck::Failed => Some("socket owner revalidation failed"@),
    }
}

/// Why a check of a claimed flow cannot go on, if it cannot.
pub open spec fn flow_check_refusal(
    proxy: ProxyState,
    session: ProxySessionToken,
    token: AttributionToken,
    snapshot: FlowSnapshot,
    check: OwnerCheck,
) -> Option<Seq<char>> {
    let flows = proxy.flows@;
    if revalidation_refusal(check) is Some {
        revalidation_refusal(check)
    } else if !proxy.session_is(session) {
        Some("proxy session token is invalid"@)
    } else if !flows.contains_key(snapshot.flow) {
        Some("flow registration expired"@)
    } else if flows[snapshot.flow].registration@ != snapshot.registration@
        || flows[snapshot.flow].attribution_token != Some(token) {
        Some("flow claim changed during revalidation"@)
    } else {
        None
    }
}

impl ProxyState {
    fn validate_session(&self, token: ProxySessionToken) -> (r: Result<(), PolicydError>)
        ensures
            refused(
                r,
                if self.session_is(token) {
                    None
                } else {
                    Some("proxy session token is invalid"@)
                },
            ),
    {
        match &self.session {
            Some(session) => {
                if session.token == token {
                    return Ok(());
                }
            },
            None => {},
        }
        Err(proxy_error("proxy session token is invalid"))
    }

    fn prune(&mut self, now: u64)
        requires
            old(self).wf(),
        ensures
            final(self).wf(),
            final(self).flows_changed(old(self)),
            final(self).flows@ == pruned(old(self).flows@, now),
    {
        prune_flows(&mut self.flows, now);
    }

    fn find_claim(&self, token: AttributionToken) -> (r: Option<NetworkFlowKey>)
        requires
            self.wf(),
        ensures
            match r {
                Some(key) => claim_is(self.flows@, token, key),
                None => !has_claim(self.flows@, token),
            },
    {
        let mut i: usize = 0;
        while i < self.flows.entries.len()
            invariant
                self.wf(),
                i <= self.flows.entries@.len(),
                forall|j: int|
                    0 <= j < i ==> (#[trigger] self.flows.entries@[j]).1.attribution_token != Some(
                        token,
                    ),
            decreases self.flows.entries@.len() - i,
        {
            if let Some(t) = self.flows.entries[i].1.attribution_token {
                if t == token {
                    proof {
                        self.flows.lemma_entry(i as int);
                    }
                    return Some(self.flows.entries[i].0);
                }
            }
            i += 1;
        }
        proof {
            assert forall|key: NetworkFlowKey| !(#[trigger] claim_is(self.flows@, token, key)) by {
                if self.flows@.contains_key(key) {
                    let j = self.flows.lemma_key(key);
                    assert(self.flows.entries@[j].1.attribution_token != Some(token));
                }
            }
        }
        None
    }

    fn claim(&mut self, key: NetworkFlowKey, token: AttributionToken, connection_id: u64, now: u64)
        requires
            old(self).wf(),
            old(self).flows@.contains_key(key),
        ensures
            final(self).wf(),
            final(self).flows_changed(old(self)),
            final(self).flows@ == old(self).flows@.insert(
                key,
                claimed(old(self).flows@[key], token, connection_id, now),
            ),
    {
        if let Some(state) = self.flows.remove(&key) {
            let mut state = state;
            state.attribution_token = Some(token);
            state.connection_id = Some(connection_id);
            state.claimed_at = Some(now);
            state.last_check = now;
            let _ = self.flows.insert(key, state);
        }
        assert(self.flows@ =~= old(self).flows@.insert(
            key,
            claimed(old(self).flows@[key], token, connection_id, now),
        ));
    }
}

impl PolicyStore {
    /// Open the one session of the trusted proxy for a client connection. `token` is the
    /// session's fresh secret.
    pub fn open_proxy_session(
        &mut self,
        connection_id: u64,
        token: ProxySessionToken,
        now: u64,
    ) -> (r: Result<ProxySessionReply, PolicydError>)
        requires
            old(self).wf(),
        ensures
            final(self).wf(),
            final(self).configured_as(old(self)),
            match old(self).proxy.session {
                Some(_) => {
                    &&& refused(r, Some("a proxy session is already active"@))
                    &&& *final(self) == *old(self)
                },
                None => {
                    &&& r == Ok::<_, PolicydError>(
                        ProxySessionReply { ok: true, proxy_session: token },
                    )
                    &&& *final(self) == (PolicyStore {
                        proxy: ProxyState {
                            session: Some(
                                ProxySessionState { token, connection_id, opened_at: now },
                            ),
                            ..old(self).proxy
                        },
                        ..*old(self)
                    })
                },
            },
    {
        if self.proxy.session.is_some() {
            return Err(proxy_error("a proxy session is already active"));
        }
        self.proxy.session = Some(ProxySessionState { token, connection_id, opened_at: now });
        Ok(ProxySessionReply { ok: true, proxy_session: token })
    }

    /// Register a flow with its owner before the proxy uses it, or refresh it. `context` is the
    /// registration's context as resolved from its owner.
    pub fn register_network_flow(
        &mut self,
        registration: FlowRegistration,
        context: ResolvedRequestContext,
        now: u64,
    ) -> (r: Result<(), PolicydError>)
        requires
            old(self).wf(),
        ensures
            final(self).wf(),
            final(self).configured_as(old(self)),
            final(self).only_flows_changed(old(self)),
            refused(
                r,
                registered(
                    old(self).proxy.flows@,
                    registration,
                    context,
                    now,
                    old(self).limits.proxy_flows,
                ).0,
            ),
            final(self).proxy.flows@ == registered(
                old(self).proxy.flows@,
                registration,
                context,
                now,
                old(self).limits.proxy_flows,
            ).1,
    {
        let key = registration.flow;
        self.proxy.prune(now);
        let ghost flows = self.proxy.flows@;
        match self.proxy.flows.find(&key) {
            Some(i) => {
                if !self.proxy.flows.entries[i].1.registration.same(&registration) {
                    return Err(proxy_error("flow registration conflicts with an existing owner"));
                }
                if let Some(existing) = self.proxy.flows.remove(&key) {
                    let mut existing = existing;
                    if existing.attribution_token.is_none() {
                        existing.registration = registration;
                        existing.context = context;
                    }
                    existing.last_check = now;
                    let _ = self.proxy.flows.insert(key, existing);
                }
                assert(self.proxy.flows@ =~= registered(
                    old(self).proxy.flows@,
                    registration,
                    context,
                    now,
                    self.limits.proxy_flows,
                ).1);
                return Ok(());
            },
            None => {},
        }
        if self.proxy.flows.len() >= self.limits.proxy_flows {
            return Err(proxy_error("proxy flow registry is full"));
        }
        let _ = self.proxy.flows.insert(
            key,
            ProxyFlowState {
                owner: registration.owner,
                registration,
                context,
                attribution_token: None,
                connection_id: None,
                claimed_at: None,
                last_check: now,
            },
        );
        Ok(())
    }

    /// Pin a registered flow to one connection of the proxy. `token` is the claim's fresh
    /// secret.
    pub fn claim_network_flow(
        &mut self,
        session: ProxySessionToken,
        flow: NetworkFlowKey,
        connection_id: u64,
        token: AttributionToken,
        now: u64,
    ) -> (r: Result<FlowClaimReply, PolicydError>)
        requires
            old(self).wf(),
        ensures
            final(self).wf(),
            final(self).configured_as(old(self)),
            final(self).only_flows_changed(old(self)),
            refused(r, claim_refusal(old(self).proxy, session, flow, now)),
            ({
                let flows = pruned(old(self).proxy.flows@, now);
                match r {
                    Err(_) => final(self).proxy.flows@ == flows,
                    Ok(reply) => {
                        &&& reply == (FlowClaimReply {
                            ok: true,
                            attribution_token: token,
                            flow,
                            policy_host: flows[flow].registration.policy_host,
                        })
                        &&& final(self).proxy.flows@ == flows.insert(
                            flow,
                            claimed(flows[flow], token, connection_id, now),
                        )
                    },
                }
            }),
    {
        self.proxy.prune(now);
        if let Err(e) = self.proxy.validate_session(session) {
            return Err(e);
        }
        let policy_host = match self.proxy.flows.get(&flow) {
            None => {
                return Err(proxy_error("flow is not registered"));
            },
            Some(state) => {
                if state.attribution_token.is_some() {
                    return Err(proxy_error("flow is already claimed"));
                }
                state.registration.policy_host.clone()
            },
        };
        self.proxy.claim(flow, token, connection_id, now);
        Ok(FlowClaimReply { ok: true, attribution_token: token, flow, policy_host })
    }

    /// Select the one registered UDP flow that a redirected packet can belong to. The claim is
    /// completed with [`PolicyStore::complete_claim_by_source`] once the flow's owner has been
    /// confirmed.
    pub fn claim_network_flow_by_source(
        &mut self,
        session: ProxySessionToken,
        selector: NetworkFlowSelector,
        now: u64,
    ) -> (r: Result<FlowRegistration, PolicydError>)
        requires
            old(self).wf(),
        ensures
            final(self).wf(),
            final(self).configured_as(old(self)),
            final(self).only_flows_changed(old(self)),
            refused(r, selection_refusal(old(self).proxy, session, selector, now)),
            final(self).proxy.flows@ == (if selector.protocol != FlowProtocol::Udp {
                old(self).proxy.flows@
            } else {
                pruned(old(self).proxy.flows@, now)
            }),
            r matches Ok(registration) ==> {
                &&& picks(final(self).proxy.flows@, selector, registration.flow)
                &&& final(self).proxy.flows@[registration.flow].registration == registration
            },
    {
        if selector.protocol != FlowProtocol::Udp {
            return Err(proxy_error("redirected flow selector requires UDP"));
        }
        self.proxy.prune(now);
        if let Err(e) = self.proxy.validate_session(session) {
            return Err(e);
        }
        let ghost flows = self.proxy.flows@;
        let mut found: Option<usize> = None;
        let mut i: usize = 0;
        while i < self.proxy.flows.entries.len()
            invariant
                self.wf(),
                *self == (PolicyStore { proxy: self.proxy, ..*old(self) }),
                self.proxy.flows_changed(&old(self).proxy),
                self.proxy.flows@ == flows,
                flows == pruned(old(self).proxy.flows@, now),
                self.proxy.session_is(session),
                selector.protocol == FlowProtocol::Udp,
                i <= self.proxy.flows.entries@.len(),
                match found {
                    Some(x) => x < i && selector.selects(self.proxy.flows.entries@[x as int].0),
                    None => true,
                },
                forall|j: int|
                    0 <= j < i && selector.selects((#[trigger] self.proxy.flows.entries@[j]).0)
                        ==> found == Some(j as usize),
            decreases self.proxy.flows.entries@.len() - i,
        {
            if selector.matches(&self.proxy.flows.entries[i].0) {
                proof {
                    self.proxy.flows.lemma_entry(i as int);
                    assert(picks(flows, selector, self.proxy.flows.entries@[i as int].0));
                }
                if let Some(x) = found {
                    proof {
                        self.proxy.flows.lemma_entry(x as int);
                        assert(picks(flows, selector, self.proxy.flows.entries@[x as int].0));
                        assert(self.proxy.flows.entries@[x as int].0@
                            != self.proxy.flows.entries@[i as int].0@);
                    }
                    return Err(proxy_error("redirected flow selector is ambiguous"));
                }
                found = Some(i);
            }
            i += 1;
        }
        match found {
            None => {
                proof {
                    assert forall|k: NetworkFlowKey| !(#[trigger] picks(flows, selector, k)) by {
                        if flows.contains_key(k) {
                            let j = self.proxy.flows.lemma_key(k);
                            assert(!selector.selects(self.proxy.flows.entries@[j].0));
                        }
                    }
                }
                Err(proxy_error("redirected flow is not registered"))
            },
            Some(x) => {
                proof {
                    self.proxy.flows.lemma_entry(x as int);
                    let key = self.proxy.flows.entries@[x as int].0;
                    assert(picks(flows, selector, key));
                    assert forall|k: NetworkFlowKey| #[trigger]
                        picks(flows, selector, k) implies k == key by {
                        let j = self.proxy.flows.lemma_key(k);
                        assert(selector.selects(self.proxy.flows.entries@[j].0));
                    }
                }
                if self.proxy.flows.entries[x].1.attribution_token.is_some() {
                    return Err(proxy_error("redirected flow is already claimed"));
                }
                Ok(self.proxy.flows.entries[x].1.registration.clone())
            },
        }
    }

    /// Claim the flow that [`PolicyStore::claim_network_flow_by_source`] selected, if it has not
    /// changed since.
    pub fn complete_claim_by_source(
        &mut self,
        session: ProxySessionToken,
        expected: &FlowRegistration,
        connection_id: u64,
        token: AttributionToken,
        now: u64,
    ) -> (r: Result<FlowClaimReply, PolicydError>)
        requires
            old(self).wf(),
        ensures
            final(self).wf(),
            final(self).configured_as(old(self)),
            final(self).only_flows_changed(old(self)),
            refused(r, selected_refusal(old(self).proxy, session, *expected, now)),
            ({
                let flows = pruned(old(self).proxy.flows@, now);
                let flow = expected.flow;
                match r {
                    Err(_) => final(self).proxy.flows@ == flows,
                    Ok(reply) => {
                        &&& reply == (FlowClaimReply {
                            ok: true,
                            attribution_token: token,
                            flow,
                            policy_host: flows[flow].registration.policy_host,
                        })
                        &&& final(self).proxy.flows@ == flows.insert(
                            flow,
                            claimed(flows[flow], token, connection_id, now),
                        )
                    },
                }
            }),
    {
        self.proxy.prune(now);
        if let Err(e) = self.proxy.validate_session(session) {
            return Err(e);
        }
        let flow = expected.flow;
        let policy_host = match self.proxy.flows.get(&flow) {
            None => {
                return Err(proxy_error("redirected flow is no longer registered"));
            },
            Some(state) => {
                if !state.registration.same(expected) {
                    return Err(proxy_error("redirected flow changed during claim"));
                }
                if state.attribution_token.is_some() {
                    return Err(proxy_error("redirected flow is already claimed"));
                }
                state.registration.policy_host.clone()
            },
        };
        self.proxy.claim(flow, token, connection_id, now);
        Ok(FlowClaimReply { ok: true, attribution_token: token, flow, policy_host })
    }

    /// Plan the move of a claim to a new tuple of the same association. The move is completed
    /// with [`PolicyStore::complete_rebind`] once the new tuple's owner has been confirmed.
    pub fn rebind_network_flow(
        &mut self,
        session: ProxySessionToken,
        token: AttributionToken,
        connection_id: u64,
        flow: NetworkFlowKey,
        now: u64,
    ) -> (r: Result<RebindPlan, PolicydError>)
        requires
            old(self).wf(),
        ensures
            final(self).wf(),
            final(self).configured_as(old(self)),
            final(self).only_flows_changed(old(self)),
            final(self).proxy.flows@ == pruned(old(self).proxy.flows@, now),
            ({
                let flows = pruned(old(self).proxy.flows@, now);
                if !old(self).proxy.session_is(session) {
                    refused(r, Some("proxy session token is invalid"@))
                } else if !has_claim(flows, token) {
                    refused(r, Some("flow attribution is invalid"@))
                } else {
                    exists|key: NetworkFlowKey| #[trigger]
                        claim_is(flows, token, key) && refused(
                            r,
                            rebind_refusal(flows, key, connection_id, flow),
                        ) && (r matches Ok(plan) ==> plan == (RebindPlan {
                            old_key: key,
                            registration: flows[key].registration,
                            pending_registration: flows[flow].registration,
                        }))
                }
            }),
    {
        self.proxy.prune(now);
        if let Err(e) = self.proxy.validate_session(session) {
            return Err(e);
        }
        let old_key = match self.proxy.find_claim(token) {
            Some(key) => key,
            None => {
                return Err(proxy_error("flow attribution is invalid"));
            },
        };
        let ghost flows = self.proxy.flows@;
        assert(claim_is(flows, token, old_key));
        let state = match self.proxy.flows.get(&old_key) {
            Some(state) => state,
            None => {
                return Err(proxy_error("flow attribution is invalid"));
            },
        };
        let owned = match state.connection_id {
            Some(id) => id == connection_id,
            None => false,
        };
        if !owned {
            return Err(proxy_error("unknown connection identifier"));
        }
        if state.registration.flow.protocol != FlowProtocol::Udp || flow.protocol
            != FlowProtocol::Udp {
            return Err(proxy_error("rebind requires a UDP flow"));
        }
        if flow.destination_ip != old_key.destination_ip || flow.destination_port
            != old_key.destination_port {
            return Err(proxy_error("rebind cannot change the flow destination"));
        }
        if flow == old_key {
            return Err(proxy_error("rebind requires a new flow tuple"));
        }
        match self.proxy.flows.get(&flow) {
            None => Err(proxy_error("rebind flow is not registered")),
            Some(pending) => {
                if let Err(e) = validate_rebind_candidate(state, pending) {
                    return Err(e);
                }
                Ok(
                    RebindPlan {
                        old_key,
                        registration: state.registration.clone(),
                        pending_registration: pending.registration.clone(),
                    },
                )
            },
        }
    }

    /// Move a claim as planned, if neither flow has changed since. `new_owner` is the confirmed
    /// owner of the new tuple.
    pub fn complete_rebind(
        &mut self,
        session: ProxySessionToken,
        token: AttributionToken,
        connection_id: u64,
        flow: NetworkFlowKey,
        plan: RebindPlan,
        new_owner: SocketIdentity,
        now: u64,
    ) -> (r: Result<(), PolicydError>)
        requires
            old(self).wf(),
        ensures
            final(self).wf(),
            final(self).configured_as(old(self)),
            final(self).only_flows_changed(old(self)),
            refused(
                r,
                move_refusal(old(self).proxy, session, token, connection_id, flow, plan),
            ),
            final(self).proxy.flows@ == (if r is Ok {
                moved(old(self).proxy.flows@, flow, plan, new_owner, now)
            } else {
                old(self).proxy.flows@
            }),
    {
        let ghost flows = self.proxy.flows@;
        if let Err(e) = self.proxy.validate_session(session) {
            return Err(e);
        }
        match self.proxy.flows.get(&plan.old_key) {
            None => {
                return Err(proxy_error("flow registration expired"));
            },
            Some(state) => {
                let same_connection = match state.connection_id {
                    Some(id) => id == connection_id,
                    None => false,
                };
                let same_token = match state.attribution_token {
                    Some(t) => t == token,
                    None => false,
                };
                if !state.registration.same(&plan.registration) || !same_connection
                    || !same_token {
                    return Err(proxy_error("flow claim changed during rebind"));
                }
            },
        }
        match self.proxy.flows.get(&flow) {
            None => {
                return Err(proxy_error("rebind flow is no longer registered"));
            },
            Some(pending) => {
                if !same_socket_owner(plan.registration.owner, pending.registration.owner) {
                    return Err(proxy_error("socket owner changed"));
                }
                if pending.attribution_token.is_some() || !pending.registration.same(
                    &plan.pending_registration,
                ) {
                    return Err(proxy_error("rebind flow changed during validation"));
                }
            },
        }
        let _ = self.proxy.flows.remove(&flow);
        if let Some(state) = self.proxy.flows.remove(&plan.old_key) {
            let rebind = ProxyFlowState {
                registration: FlowRegistration {
                    flow,
                    owner: new_owner,
                    policy_host: plan.registration.policy_host.clone(),
                    context: plan.registration.context.clone(),
                },
                owner: new_owner,
                context: state.context,
                attribution_token: state.attribution_token,
                connection_id: state.connection_id,
                claimed_at: state.claimed_at,
                last_check: now,
            };
            let _ = self.proxy.flows.insert(flow, rebind);
        }
        assert(self.proxy.flows@ =~= moved(flows, flow, plan, new_owner, now));
        Ok(())
    }

    /// Give up the claim that the token stands for. A token that stands for no claim is no
    /// error.
    pub fn release_network_flow(
        &mut self,
        session: ProxySessionToken,
        token: AttributionToken,
        connection_id: u64,
        now: u64,
    ) -> (r: Result<(), PolicydError>)
        requires
            old(self).wf(),
        ensures
            final(self).wf(),
            final(self).configured_as(old(self)),
            final(self).only_flows_changed(old(self)),
            ({
                let flows = old(self).proxy.flows@;
                if !old(self).proxy.session_is(session) {
                    &&& refused(r, Some("proxy session token is invalid"@))
                    &&& final(self).proxy.flows@ == flows
                } else if !has_claim(flows, token) {
                    &&& r is Ok
                    &&& final(self).proxy.flows@ == flows
                } else {
                    exists|key: NetworkFlowKey| #[trigger]
                        claim_is(flows, token, key) && (if flows[key].connection_id != Some(
                            connection_id,
                        ) {
                            &&& refused(r, Some("unknown connection identifier"@))
                            &&& final(self).proxy.flows@ == flows
                        } else {
                            &&& r is Ok
                            &&& final(self).proxy.flows@ == flows.insert(
                                key,
                                unclaimed(flows[key], now),
                            )
                        })
                }
            }),
    {
        let ghost flows = self.proxy.flows@;
        if let Err(e) = self.proxy.validate_session(session) {
            return Err(e);
        }
        let key = match self.proxy.find_claim(token) {
            Some(key) => key,
            None => {
                return Ok(());
            },
        };
        assert(claim_is(flows, token, key));
        let owned = match self.proxy.flows.get(&key) {
            Some(state) => match state.connection_id {
                Some(id) => id == connection_id,
                None => false,
            },
            None => false,
        };
        if !owned {
            return Err(proxy_error("unknown connection identifier"));
        }
        if let Some(state) = self.proxy.flows.remove(&key) {
            let mut state = state;
            state.attribution_token = None;
            state.connection_id = None;
            state.claimed_at = None;
            state.last_check = now;
            let _ = self.proxy.flows.insert(key, state);
        }
        assert(self.proxy.flows@ =~= flows.insert(key, unclaimed(flows[key], now)));
        Ok(())
    }

    /// Begin a check of a claimed flow. The check goes on with
    /// [`PolicyStore::complete_flow_check`] once the system has been asked about the owner.
    pub fn flow_for_check(
        &mut self,
        session: ProxySessionToken,
        token: AttributionToken,
        now: u64,
    ) -> (r: Result<FlowSnapshot, PolicydError>)
        requires
            old(self).wf(),
        ensures
            final(self).wf(),
            final(self).configured_as(old(self)),
            final(self).only_flows_changed(old(self)),
            final(self).proxy.flows@ == pruned(old(self).proxy.flows@, now),
            ({
                let flows = pruned(old(self).proxy.flows@, now);
                if !old(self).proxy.session_is(session) {
                    refused(r, Some("proxy session token is invalid"@))
                } else if !has_claim(flows, token) {
                    refused(r, Some("flow attribution is invalid"@))
                } else {
                    &&& r matches Ok(snapshot)
                    &&& claim_is(flows, token, snapshot.flow)
                    &&& snapshot.registration == flows[snapshot.flow].registration
                    &&& snapshot.owner == flows[snapshot.flow].owner
                    &&& snapshot.context == flows[snapshot.flow].context
                }
            }),
    {
        self.proxy.prune(now);
        if let Err(e) = self.proxy.validate_session(session) {
            return Err(e);
        }
        let flow = match self.proxy.find_claim(token) {
            Some(key) => key,
            None => {
                return Err(proxy_error("flow attribution is invalid"));
            },
        };
        match self.proxy.flows.get(&flow) {
            Some(state) => Ok(
                FlowSnapshot {
                    flow,
                    registration: state.registration.clone(),
                    owner: state.owner,
                    context: state.context.clone(),
                },
            ),
            None => Err(proxy_error("flow attribution is invalid")),
        }
    }

    /// Go on with a check of a claimed flow, if the claim has not changed since it began.
    pub fn complete_flow_check(
        &mut self,
        session: ProxySessionToken,
        token: AttributionToken,
        snapshot: FlowSnapshot,
        check: OwnerCheck,
        now: u64,
    ) -> (r: Result<FlowCheck, PolicydError>)
        requires
            old(self).wf(),
        ensures
            final(self).wf(),
            final(self).configured_as(old(self)),
            final(self).only_flows_changed(old(self)),
            refused(r, flow_check_refusal(old(self).proxy, session, token, snapshot, check)),
            ({
                let flows = old(self).proxy.flows@;
                match r {
                    Err(_) => final(self).proxy.flows@ == flows,
                    Ok(about) => {
                        &&& about == (FlowCheck {
                            host: snapshot.registration.policy_host,
                            port: snapshot.registration.flow.destination_port,
                            context: snapshot.context,
                            protocol: snapshot.registration.flow.protocol,
                        })
                        &&& final(self).proxy.flows@ == flows.insert(
                            snapshot.flow,
                            ProxyFlowState { last_check: now, ..flows[snapshot.flow] },
                        )
                    },
                }
            }),
    {
        let ghost flows = self.proxy.flows@;
        match check {
            OwnerCheck::Valid => {},
            OwnerCheck::Changed => {
                return Err(proxy_error("socket owner changed"));
            },
            OwnerCheck::TimedOut => {
                return Err(proxy_error("socket owner revalidation timed out"));
            },
            OwnerCheck::Failed => {
                return Err(proxy_error("socket owner revalidation failed"));
            },
        }
        if let Err(e) = self.proxy.validate_session(session) {
            return Err(e);
        }
        match self.proxy.flows.get(&snapshot.flow) {
            None => {
                return Err(proxy_error("flow registration expired"));
            },
            Some(state) => {
                let same_token = match state.attribution_token {
                    Some(t) => t == token,
                    None => false,
                };
                if !state.registration.same(&snapshot.registration) || !same_token {
                    return Err(proxy_error("flow claim changed during revalidation"));
                }
            },
        }
        if let Some(state) = self.proxy.flows.remove(&snapshot.flow) {
            let mut state = state;
            state.last_check = now;
            let _ = self.proxy.flows.insert(snapshot.flow, state);
        }
        assert(self.proxy.flows@ =~= flows.insert(
            snapshot.flow,
            ProxyFlowState { last_check: now, ..flows[snapshot.flow] },
        ));
        Ok(
            FlowCheck {
                host: snapshot.registration.policy_host,
                port: snapshot.registration.flow.destination_port,
                context: snapshot.context,
                protocol: snapshot.registration.flow.protocol,
            },
        )
    }
}

/// Claiming a flow under a token that stands for no claim keeps tokens distinct.
pub proof fn law_claim_keeps_tokens_distinct(
    flows: Map<NetworkFlowKey, ProxyFlowState>,
    flow: NetworkFlowKey,
    token: AttributionToken,
    connection_id: u64,
    now: u64,
)
    requires
        tokens_distinct(flows),
        !has_claim(flows, token),
        flows.contains_key(flow),
        flows[flow].attribution_token is None,
    ensures
        tokens_distinct(flows.insert(flow, claimed(flows[flow], token, connection_id, now))),
        claim_is(
            flows.insert(flow, claimed(flows[flow], token, connection_id, now)),
            token,
            flow,
        ),
{
    let after = flows.insert(flow, claimed(flows[flow], token, connection_id, now));
    assert forall|a: NetworkFlowKey, b: NetworkFlowKey, t: AttributionToken| #[trigger]
        claim_is(after, t, a) && #[trigger] claim_is(after, t, b) implies a == b by {
        if a != flow {
            assert(claim_is(flows, t, a));
        }
        if b != flow {
            assert(claim_is(flows, t, b));
        }
    }
}

/// Moving a claim keeps tokens distinct, and the token then stands for the new tuple alone.
pub proof fn law_rebind_moves_claim(
    flows: Map<NetworkFlowKey, ProxyFlowState>,
    flow: NetworkFlowKey,
    token: AttributionToken,
    plan: RebindPlan,
    new_owner: SocketIdentity,
    now: u64,
)
    requires
        tokens_distinct(flows),
        claim_is(flows, token, plan.old_key),
        flows.contains_key(flow),
        flows[flow].attribution_token is None,
    ensures
        tokens_distinct(moved(flows, flow, plan, new_owner, now)),
        claim_is(moved(flows, flow, plan, new_owner, now), token, flow),
        !moved(flows, flow, plan, new_owner, now).contains_key(plan.old_key),
{
    let after = moved(flows, flow, plan, new_owner, now);
    assert forall|a: NetworkFlowKey, b: NetworkFlowKey, t: AttributionToken| #[trigger]
        claim_is(after, t, a) && #[trigger] claim_is(after, t, b) implies a == b by {
        if a != flow {
            assert(claim_is(flows, t, a));
        } else {
            assert(claim_is(flows, t, plan.old_key));
        }
        if b != flow {
            assert(claim_is(flows, t, b));
        } else {
            assert(claim_is(flows, t, plan.old_key));
        }
    }
}

/// Giving up a claim ends it: the token stands for nothing afterwards.
pub proof fn law_release_ends_claim(
    flows: Map<NetworkFlowKey, ProxyFlowState>,
    token: AttributionToken,
    key: NetworkFlowKey,
    now: u64,
)
    requires
        tokens_distinct(flows),
        claim_is(flows, token, key),
    ensures
        !has_claim(flows.insert(key, unclaimed(flows[key], now)), token),
{
    let after = flows.insert(key, unclaimed(flows[key], now));
    assert forall|k: NetworkFlowKey| !(#[trigger] claim_is(after, token, k)) by {
        if claim_is(after, token, k) {
            assert(claim_is(flows, token, k));
        }
    }
}

/// A claimed flow stays registered however long it is idle.
pub proof fn law_claims_do_not_expire(
    flows: Map<NetworkFlowKey, ProxyFlowState>,
    token: AttributionToken,
    key: NetworkFlowKey,
    now: u64,
)
    requires
        claim_is(flows, token, key),
    ensures
        claim_is(pruned(flows, now), token, key),
        pruned(flows, now)[key] == flows[key],
{
}

/// No more flows are registered than the limit allows.
pub proof fn law_flow_limit(
    before: Map<NetworkFlowKey, ProxyFlowState>,
    registration: FlowRegistration,
    context: ResolvedRequestContext,
    now: u64,
    limit: usize,
)
    requires
        before.dom().finite(),
        before.len() <= limit,
    ensures
        registered(before, registration, context, now, limit).1.len() <= limit,
{
    let flows = pruned(before, now);
    assert(flows.dom().subset_of(before.dom()));
    vstd::set_lib::lemma_len_subset(flows.dom(), before.dom());
    let key = registration.flow;
    if flows.contains_key(key) {
        let after = registered(before, registration, context, now, limit).1;
        assert(after.dom() =~= flows.dom());
    }
}

} // verus!
