//! What holds of the trusted proxy: who claims which flow, what a claimed flow is checked as, and
//! what ends a claim or a check.

use vstd::prelude::*;

use crate::error::PolicydError;
use crate::flow::AttributionToken;
use crate::flow::FlowRegistration;
use crate::flow::NetworkFlowKey;
use crate::flow::NetworkFlowSelector;
use crate::flow::ProxyCheckId;
use crate::flow::ProxySessionToken;
use crate::flow::SocketIdentity;
use crate::http::HttpCheckReply;
use crate::network::NetworkCheckRequest;
use crate::proxy;
use crate::proxy::FlowCheck;
use crate::proxy::FlowClaimReply;
use crate::proxy::FlowSnapshot;
use crate::proxy::OwnerCheck;
use crate::proxy::ProxySessionReply;
use crate::proxy::RebindPlan;
use crate::proxy_checks;
use crate::proxy_checks::Cancelled;
use crate::proxy_checks::CheckStart;
use crate::proxy_checks::Closed;
use crate::state::ProxyCancellation;
use crate::state::ProxyFlowState;
use crate::store::PolicyStore;
use crate::text;
use crate::types::CheckReply;
use crate::types::ResolvedRequestContext;

verus! {

/// The session with the token is open.
pub open spec fn session_open(store: PolicyStore, token: ProxySessionToken) -> bool {
    store.proxy.session is Some && store.proxy.session->0.token == token
}

/// The flow is claimed under the token.
pub open spec fn claimed_under(
    store: PolicyStore,
    flow: NetworkFlowKey,
    token: AttributionToken,
) -> bool {
    store.proxy.flows@.contains_key(flow) && store.proxy.flows@[flow].attribution_token == Some(
        token,
    )
}

/// No flow but those of the given keys is claimed otherwise than before, and none of them is
/// registered otherwise.
pub open spec fn others_untouched(
    before: PolicyStore,
    after: PolicyStore,
    a: NetworkFlowKey,
    b: NetworkFlowKey,
    other: NetworkFlowKey,
) -> bool {
    other != a && other != b && after.proxy.flows@.contains_key(other)
        ==> before.proxy.flows@.contains_key(other) && after.proxy.flows@[other]
        == before.proxy.flows@[other]
}

/// One proxy session is open at a time: a second is refused and the first stays.
pub proof fn law_one_proxy_session_at_a_time(
    store: &mut PolicyStore,
    connection_id: u64,
    token: ProxySessionToken,
    now: u64,
    r: Result<ProxySessionReply, PolicydError>,
)
    requires
        call_ensures(PolicyStore::open_proxy_session, (store, connection_id, token, now), r),
    ensures
        r is Ok <==> old(store).proxy.session is None,
        r matches Ok(reply) ==> {
            &&& reply.proxy_session == token
            &&& session_open(*final(store), token)
            &&& final(store).proxy.session->0.connection_id == connection_id
        },
        r is Err ==> final(store).proxy.session == old(store).proxy.session,
        final(store).proxy.flows == old(store).proxy.flows,
{
}

/// Registering a flow never takes a claim away or hands one out, and never changes whose flow it
/// is: a registration that differs from the one that stands is refused. A claimed flow stays
/// registered however long it is idle; an unclaimed one lasts half a minute after it was last
/// heard of.
pub proof fn law_registering_a_flow_keeps_claims(
    store: &mut PolicyStore,
    registration: FlowRegistration,
    context: ResolvedRequestContext,
    now: u64,
    r: Result<(), PolicydError>,
    flow: NetworkFlowKey,
    token: AttributionToken,
)
    requires
        call_ensures(
            PolicyStore::register_network_flow,
            (store, registration, context, now),
            r,
        ),
    ensures
        claimed_under(*old(store), flow, token) <==> claimed_under(*final(store), flow, token),
        claimed_under(*old(store), flow, token) ==> final(store).proxy.flows@[flow].registration
            == old(store).proxy.flows@[flow].registration && final(store).proxy.flows@[flow].context == old(store).proxy.flows@[flow].context,
        r is Ok ==> {
            &&& final(store).proxy.flows@.contains_key(registration.flow)
            &&& final(store).proxy.flows@[registration.flow].registration@ == registration@
        },
        r is Ok && (forall|t: AttributionToken|
            !(#[trigger] claimed_under(*old(store), registration.flow, t))) ==> final(store).proxy.flows@[registration.flow].context == context && final(store).proxy.flows@[registration.flow].attribution_token is None,
        old(store).proxy.flows@.contains_key(registration.flow) && old(store).proxy.flows@[registration.flow].attribution_token is Some && old(store).proxy.flows@[registration.flow].registration@ != registration@ ==> r is Err,
        flow != registration.flow && old(store).proxy.flows@.contains_key(flow) && old(store).proxy.flows@[flow].attribution_token is None ==> (final(store).proxy.flows@.contains_key(flow) <==> now <= old(store).proxy.flows@[flow].last_check + 30_000_000_000),
        flow != registration.flow && final(store).proxy.flows@.contains_key(flow) ==> old(store).proxy.flows@.contains_key(flow) && final(store).proxy.flows@[flow] == old(store).proxy.flows@[flow],
{
    if old(store).proxy.flows@.contains_key(registration.flow) && old(store).proxy.flows@[registration.flow].attribution_token is Some {
        assert(claimed_under(
            *old(store),
            registration.flow,
            old(store).proxy.flows@[registration.flow].attribution_token->0,
        ));
    }
}

/// A flow is claimed only by the open session, only while nobody has claimed it, and only where
/// it is registered; the claim is then the caller's, and the caller is told the host that the
/// flow was registered for. No other flow is claimed or loses its claim.
pub proof fn law_flow_is_claimed_once(
    store: &mut PolicyStore,
    session: ProxySessionToken,
    flow: NetworkFlowKey,
    connection_id: u64,
    token: AttributionToken,
    now: u64,
    r: Result<FlowClaimReply, PolicydError>,
    other: NetworkFlowKey,
    held: AttributionToken,
)
    requires
        call_ensures(
            PolicyStore::claim_network_flow,
            (store, session, flow, connection_id, token, now),
            r,
        ),
    ensures
        r is Ok <==> {
            &&& session_open(*old(store), session)
            &&& old(store).proxy.flows@.contains_key(flow)
            &&& old(store).proxy.flows@[flow].attribution_token is None
            &&& now <= old(store).proxy.flows@[flow].last_check + 30_000_000_000
        },
        r matches Ok(reply) ==> {
            &&& reply.attribution_token == token
            &&& reply.flow == flow
            &&& reply.policy_host == old(store).proxy.flows@[flow].registration.policy_host
            &&& claimed_under(*final(store), flow, token)
            &&& final(store).proxy.flows@[flow].connection_id == Some(connection_id)
            &&& final(store).proxy.flows@[flow].registration == old(store).proxy.flows@[flow].registration
            &&& final(store).proxy.flows@[flow].context == old(store).proxy.flows@[flow].context
        },
        other != flow || r is Err ==> (claimed_under(*final(store), other, held) <==> claimed_under(
            *old(store),
            other,
            held,
        )),
        others_untouched(*old(store), *final(store), flow, flow, other),
        final(store).proxy.session == old(store).proxy.session,
{
}

/// A redirected flow is picked by its own source and port, for the open session, and only where
/// no other registered flow could be meant and nobody has claimed it. Picking claims nothing.
pub proof fn law_ambiguous_flow_is_not_picked(
    store: &mut PolicyStore,
    session: ProxySessionToken,
    selector: NetworkFlowSelector,
    now: u64,
    registration: FlowRegistration,
    other: NetworkFlowKey,
    held: AttributionToken,
)
    requires
        call_ensures(
            PolicyStore::claim_network_flow_by_source,
            (store, session, selector, now),
            Ok(registration),
        ),
    ensures
        session_open(*old(store), session),
        selector.protocol is Udp,
        final(store).proxy.flows@.contains_key(registration.flow),
        final(store).proxy.flows@[registration.flow].registration == registration,
        final(store).proxy.flows@[registration.flow].attribution_token is None,
        registration.flow.protocol == selector.protocol,
        registration.flow.source_ip == selector.source_ip,
        registration.flow.source_port == selector.source_port,
        registration.flow.destination_port == selector.destination_port,
        final(store).proxy.flows@.contains_key(other) && other.protocol == selector.protocol
            && other.source_ip == selector.source_ip && other.source_port == selector.source_port
            && other.destination_port == selector.destination_port ==> other
            == registration.flow,
        claimed_under(*final(store), other, held) <==> claimed_under(*old(store), other, held),
{
    let flows = final(store).proxy.flows@;
    if final(store).proxy.flows@.contains_key(other) && selector.selects(other) {
        assert(proxy::picks(flows, selector, other));
        assert(proxy::picks(flows, selector, registration.flow));
    }
    let k = choose|k: NetworkFlowKey| #[trigger] proxy::picks(flows, selector, k);
    assert(proxy::picks(flows, selector, registration.flow));
    assert(proxy::picks(flows, selector, k));
    assert(k == registration.flow);
}

/// A flow that was picked is claimed only where it still stands as it was picked, for the open
/// session, with nobody having claimed it meanwhile.
pub proof fn law_picked_flow_is_claimed_as_it_was(
    store: &mut PolicyStore,
    session: ProxySessionToken,
    expected: &FlowRegistration,
    connection_id: u64,
    token: AttributionToken,
    now: u64,
    r: Result<FlowClaimReply, PolicydError>,
    other: NetworkFlowKey,
    held: AttributionToken,
)
    requires
        call_ensures(
            PolicyStore::complete_claim_by_source,
            (store, session, expected, connection_id, token, now),
            r,
        ),
    ensures
        r is Ok <==> {
            &&& session_open(*old(store), session)
            &&& old(store).proxy.flows@.contains_key(expected.flow)
            &&& old(store).proxy.flows@[expected.flow].attribution_token is None
            &&& old(store).proxy.flows@[expected.flow].registration@ == expected@
            &&& now <= old(store).proxy.flows@[expected.flow].last_check + 30_000_000_000
        },
        r matches Ok(reply) ==> {
            &&& reply.attribution_token == token
            &&& reply.flow == expected.flow
            &&& reply.policy_host@ == expected.policy_host@
            &&& claimed_under(*final(store), expected.flow, token)
            &&& final(store).proxy.flows@[expected.flow].connection_id == Some(connection_id)
            &&& final(store).proxy.flows@[expected.flow].context == old(store).proxy.flows@[expected.flow].context
        },
        other != expected.flow || r is Err ==> (claimed_under(*final(store), other, held)
            <==> claimed_under(*old(store), other, held)),
{
}

/// A claim moves only to another tuple of the same UDP flow: for the open session, by the
/// connection that holds it, to a registered and unclaimed flow with the same destination, owner
/// process, policy host and context. Planning the move moves nothing.
pub proof fn law_claim_moves_only_to_the_same_flow(
    store: &mut PolicyStore,
    session: ProxySessionToken,
    token: AttributionToken,
    connection_id: u64,
    flow: NetworkFlowKey,
    now: u64,
    plan: RebindPlan,
    other: NetworkFlowKey,
    held: AttributionToken,
)
    requires
        call_ensures(
            PolicyStore::rebind_network_flow,
            (store, session, token, connection_id, flow, now),
            Ok(plan),
        ),
    ensures
        session_open(*old(store), session),
        claimed_under(*old(store), plan.old_key, token),
        old(store).proxy.flows@[plan.old_key].connection_id == Some(connection_id),
        plan.registration == old(store).proxy.flows@[plan.old_key].registration,
        flow != plan.old_key,
        flow.protocol is Udp && plan.old_key.protocol is Udp,
        flow.destination_ip == plan.old_key.destination_ip,
        flow.destination_port == plan.old_key.destination_port,
        old(store).proxy.flows@.contains_key(flow),
        old(store).proxy.flows@[flow].attribution_token is None,
        plan.pending_registration == old(store).proxy.flows@[flow].registration,
        plan.pending_registration.owner.process == plan.registration.owner.process,
        plan.pending_registration.policy_host@ == plan.registration.policy_host@,
        plan.pending_registration.context.paths@ == plan.registration.context.paths@,
        text::opt_text(plan.pending_registration.context.sandbox_session_id) == text::opt_text(
            plan.registration.context.sandbox_session_id,
        ),
        claimed_under(*final(store), other, held) <==> claimed_under(*old(store), other, held),
{
}

/// A planned move takes place only where both flows still stand as they were: the claim then
/// stands under the new tuple with its token and its connection, and for the host and context
/// that it was registered with; the old tuple is gone. Else nothing changes.
pub proof fn law_moved_claim_keeps_its_registration(
    store: &mut PolicyStore,
    session: ProxySessionToken,
    token: AttributionToken,
    connection_id: u64,
    flow: NetworkFlowKey,
    plan: RebindPlan,
    new_owner: SocketIdentity,
    now: u64,
    r: Result<(), PolicydError>,
    other: NetworkFlowKey,
    held: AttributionToken,
)
    requires
        call_ensures(
            PolicyStore::complete_rebind,
            (store, session, token, connection_id, flow, plan, new_owner, now),
            r,
        ),
        flow != plan.old_key,
    ensures
        r is Ok <==> {
            &&& session_open(*old(store), session)
            &&& claimed_under(*old(store), plan.old_key, token)
            &&& old(store).proxy.flows@[plan.old_key].connection_id == Some(connection_id)
            &&& old(store).proxy.flows@[plan.old_key].registration@ == plan.registration@
            &&& old(store).proxy.flows@.contains_key(flow)
            &&& old(store).proxy.flows@[flow].attribution_token is None
            &&& old(store).proxy.flows@[flow].registration@ == plan.pending_registration@
            &&& old(store).proxy.flows@[flow].registration.owner.process
                == plan.registration.owner.process
        },
        r is Ok ==> {
            let state = final(store).proxy.flows@[flow];
            &&& claimed_under(*final(store), flow, token)
            &&& state.connection_id == Some(connection_id)
            &&& state.registration.policy_host == plan.registration.policy_host
            &&& state.registration.context == plan.registration.context
            &&& state.context == old(store).proxy.flows@[plan.old_key].context
            &&& state.owner == new_owner && state.registration.owner == new_owner
            &&& !final(store).proxy.flows@.contains_key(plan.old_key)
        },
        r is Err ==> final(store).proxy.flows@ == old(store).proxy.flows@,
        other != flow && other != plan.old_key ==> (claimed_under(*final(store), other, held)
            <==> claimed_under(*old(store), other, held)),
{
}

/// A claim is given up only by the connection that holds it, through the open session; after that
/// nobody has claimed the flow, which stays registered as it was. Every other claim stands.
pub proof fn law_claim_is_given_up_by_its_holder(
    store: &mut PolicyStore,
    session: ProxySessionToken,
    token: AttributionToken,
    connection_id: u64,
    now: u64,
    r: Result<(), PolicydError>,
    flow: NetworkFlowKey,
    other: NetworkFlowKey,
    held: AttributionToken,
)
    requires
        call_ensures(
            PolicyStore::release_network_flow,
            (store, session, token, connection_id, now),
            r,
        ),
        claimed_under(*old(store), flow, token),
        forall|key: NetworkFlowKey| #[trigger]
            claimed_under(*old(store), key, token) ==> key == flow,
    ensures
        r is Ok <==> session_open(*old(store), session) && old(store).proxy.flows@[flow].connection_id == Some(connection_id),
        r is Ok ==> {
            &&& final(store).proxy.flows@.contains_key(flow)
            &&& final(store).proxy.flows@[flow].attribution_token is None
            &&& final(store).proxy.flows@[flow].connection_id is None
            &&& final(store).proxy.flows@[flow].registration == old(store).proxy.flows@[flow].registration
        },
        r is Err ==> final(store).proxy.flows@ == old(store).proxy.flows@,
        other != flow ==> (claimed_under(*final(store), other, held) <==> claimed_under(
            *old(store),
            other,
            held,
        )),
{
    let flows = old(store).proxy.flows@;
    assert(proxy::claim_is(flows, token, flow));
    assert forall|key: NetworkFlowKey| #[trigger] proxy::claim_is(flows, token, key) implies key
        == flow by {
        assert(claimed_under(*old(store), key, token));
    }
}

/// A claimed flow is looked up by its token alone, for the open session: the snapshot is that of
/// a flow that is claimed under the token.
pub proof fn law_flow_is_found_by_its_token(
    store: &mut PolicyStore,
    session: ProxySessionToken,
    token: AttributionToken,
    now: u64,
    r: Result<FlowSnapshot, PolicydError>,
)
    requires
        call_ensures(PolicyStore::flow_for_check, (store, session, token, now), r),
    ensures
        r is Ok <==> session_open(*old(store), session) && exists|flow: NetworkFlowKey|
            #[trigger] claimed_under(*old(store), flow, token),
        r matches Ok(snapshot) ==> {
            &&& claimed_under(*old(store), snapshot.flow, token)
            &&& snapshot.registration == old(store).proxy.flows@[snapshot.flow].registration
            &&& snapshot.owner == old(store).proxy.flows@[snapshot.flow].owner
            &&& snapshot.context == old(store).proxy.flows@[snapshot.flow].context
        },
{
    let flows = final(store).proxy.flows@;
    assert forall|flow: NetworkFlowKey| #[trigger]
        claimed_under(*old(store), flow, token) implies proxy::claim_is(flows, token, flow) by {}
    if proxy::has_claim(flows, token) {
        let flow = choose|flow: NetworkFlowKey| #[trigger] proxy::claim_is(flows, token, flow);
        assert(claimed_under(*old(store), flow, token));
    }
    if r is Ok {
        assert(claimed_under(*old(store), r->Ok_0.flow, token));
    }
}

/// A claimed flow is checked as what it was registered for, in the context that it was registered
/// with, and only while the system confirms its owner, its session is open and its claim stands
/// as it was.
pub proof fn law_flow_is_checked_as_it_was_registered(
    store: &mut PolicyStore,
    session: ProxySessionToken,
    token: AttributionToken,
    snapshot: FlowSnapshot,
    check: OwnerCheck,
    now: u64,
    r: Result<FlowCheck, PolicydError>,
)
    requires
        call_ensures(
            PolicyStore::complete_flow_check,
            (store, session, token, snapshot, check, now),
            r,
        ),
    ensures
        r is Ok <==> {
            &&& check is Valid
            &&& session_open(*old(store), session)
            &&& claimed_under(*old(store), snapshot.flow, token)
            &&& old(store).proxy.flows@[snapshot.flow].registration@ == snapshot.registration@
        },
        r matches Ok(about) ==> {
            &&& about.host == snapshot.registration.policy_host
            &&& about.port == snapshot.registration.flow.destination_port
            &&& about.context == snapshot.context
            &&& about.protocol == snapshot.registration.flow.protocol
            &&& claimed_under(*final(store), snapshot.flow, token)
        },
        r is Err ==> final(store).proxy.flows@ == old(store).proxy.flows@,
{
}

/// What is asked of a transport check is the flow that is checked: its host in normal form, its
/// port and its context.
pub proof fn law_transport_check_asks_for_its_flow<N: Fn(&String) -> String>(
    flow: FlowCheck,
    scheme: String,
    normalize: &N,
    r: NetworkCheckRequest,
)
    requires
        call_ensures(proxy_checks::flow_request::<N>, (flow, scheme, normalize), r),
    ensures
        r.host == text::answer(*normalize, flow.host),
        r.port == flow.port,
        r.ctx == flow.context,
        r.scheme == scheme,
{
}

/// A check of the proxy begins only for the open session, and not twice. One that was cancelled
/// before it began is blocked, and after that may be asked anew; one that begins can be cancelled
/// through its caller.
pub proof fn law_cancelled_check_does_not_begin(
    store: &mut PolicyStore,
    key: ProxyCheckId,
    waiter: u64,
    r: Result<CheckStart<CheckReply>, PolicydError>,
    other: ProxyCheckId,
)
    requires
        call_ensures(PolicyStore::check_network_flow, (store, key, waiter), r),
    ensures
        r is Ok ==> session_open(*old(store), key.session),
        ({
            let before = old(store).proxy.cancellations@;
            let after = final(store).proxy.cancellations@;
            &&& before.contains_key(key) && before[key] is Active ==> r is Err
            &&& session_open(*old(store), key.session) && before.contains_key(key)
                && before[key] is Canceled ==> r is Ok && r->Ok_0 is Cancelled
                && !after.contains_key(key)
            &&& r matches Ok(CheckStart::Cancelled(reply)) ==> !reply.allowed
                && before.contains_key(key) && before[key] is Canceled
            &&& r matches Ok(CheckStart::Started) ==> after.contains_key(key) && after[key]
                == ProxyCancellation::Active(waiter) && !before.contains_key(key)
            &&& r is Err ==> after == before
            &&& other != key ==> after.contains_key(other) == before.contains_key(other) && (
            after.contains_key(other) ==> after[other] == before[other])
        }),
{
}

/// An HTTP check of the proxy begins as a transport check does.
pub proof fn law_cancelled_http_check_does_not_begin(
    store: &mut PolicyStore,
    key: ProxyCheckId,
    waiter: u64,
    r: Result<CheckStart<HttpCheckReply>, PolicydError>,
    other: ProxyCheckId,
)
    requires
        call_ensures(PolicyStore::check_http, (store, key, waiter), r),
    ensures
        r is Ok ==> session_open(*old(store), key.session),
        ({
            let before = old(store).proxy.cancellations@;
            let after = final(store).proxy.cancellations@;
            &&& before.contains_key(key) && before[key] is Active ==> r is Err
            &&& session_open(*old(store), key.session) && before.contains_key(key)
                && before[key] is Canceled ==> r is Ok && r->Ok_0 is Cancelled
                && !after.contains_key(key)
            &&& r matches Ok(CheckStart::Cancelled(reply)) ==> !reply.allowed
                && before.contains_key(key) && before[key] is Canceled
            &&& r matches Ok(CheckStart::Started) ==> after.contains_key(key) && after[key]
                == ProxyCancellation::Active(waiter) && !before.contains_key(key)
            &&& r is Err ==> after == before
            &&& other != key ==> after.contains_key(other) == before.contains_key(other) && (
            after.contains_key(other) ==> after[other] == before[other])
        }),
{
}

/// To cancel a check interrupts its own caller and no other: one that runs is interrupted, one
/// that waits is told that it is blocked and waits no more, and one that has not begun is
/// remembered as cancelled where there is room. Only the open session cancels.
pub proof fn law_cancelling_touches_one_check(
    store: &mut PolicyStore,
    key: ProxyCheckId,
    r: Result<Cancelled, PolicydError>,
    other: ProxyCheckId,
)
    requires
        call_ensures(PolicyStore::cancel_check, (store, key), r),
    ensures
        r is Ok <==> session_open(*old(store), key.session),
        ({
            let before = old(store).proxy.cancellations@;
            let after = final(store).proxy.cancellations@;
            &&& r matches Ok(told) ==> {
                &&& told.interrupted is Some <==> before.contains_key(key) && before[key] is Active
                &&& told.interrupted is Some ==> before[key] == ProxyCancellation::Active(
                    told.interrupted->0,
                )
                &&& before.contains_key(key) ==> !after.contains_key(key)
                &&& !before.contains_key(key) && before.len() < 4096 ==> after.contains_key(key)
                    && after[key] is Canceled
                &&& told.waiting is Some ==> !told.waiting->0.reply.allowed
                &&& !final(store).http.waiters@.contains_key(key)
            }
            &&& r is Err ==> after == before
            &&& other != key ==> after.contains_key(other) == before.contains_key(other) && (
            after.contains_key(other) ==> after[other] == before[other])
            &&& other != key ==> final(store).http.waiters@.contains_key(other) == old(store).http.waiters@.contains_key(other)
        }),
{
    let (b, a) = (old(store).board(), final(store).board());
    assert(a.waiters.dom() =~= final(store).http.waiters@.dom());
    assert(b.waiters.dom() =~= old(store).http.waiters@.dom());
}

/// When the proxy's connection ends its session is closed: no flow is claimed any more, no check
/// is under way, every running check's caller is interrupted, and every caller that waits for an
/// HTTP decision of the session is told that it is blocked. Another connection closes nothing.
pub proof fn law_closing_ends_every_claim_and_check(
    store: &mut PolicyStore,
    connection_id: u64,
    now: u64,
    r: Option<Closed>,
    flow: NetworkFlowKey,
    check: ProxyCheckId,
    id: Seq<char>,
    i: int,
)
    requires
        call_ensures(PolicyStore::close_proxy_session, (store, connection_id, now), r),
    ensures
        r is Some <==> old(store).proxy.session is Some && old(store).proxy.session->0.connection_id == connection_id,
        r is None ==> *final(store) == *old(store),
        r matches Some(told) ==> {
            let token = old(store).proxy.session->0.token;
            &&& final(store).proxy.session is None
            &&& !told.reply.allowed
            &&& !final(store).proxy.cancellations@.contains_key(check)
            &&& old(store).proxy.cancellations@.contains_key(check) && old(store).proxy.cancellations@[check] is Active ==> told.interrupted@.contains(
                old(store).proxy.cancellations@[check]->Active_0,
            )
            &&& old(store).proxy.flows@.contains_key(flow) ==> final(store).proxy.flows@.contains_key(flow) && final(store).proxy.flows@[flow].attribution_token is None && final(store).proxy.flows@[flow].registration == old(store).proxy.flows@[flow].registration
            &&& old(store).http.futures@.contains_key(id) && 0 <= i < old(store).http.futures@[id]@.len() && old(store).http.futures@[id]@[i].check.session == token
                ==> told.waiting@.contains(old(store).http.futures@[id]@[i].waiter)
        },
{
    if r is Some {
        let token = old(store).proxy.session->0.token;
        let b = old(store).board();
        assert(b.futures.dom() =~= old(store).http.futures@.dom());
        if old(store).http.futures@.contains_key(id) && 0 <= i < old(store).http.futures@[id]@.len() && old(store).http.futures@[id]@[i].check.session == token {
            assert(b.futures[id] == old(store).http.futures@[id]@);
            assert(proxy_checks::leaves(b.futures, token, id, i));
        }
        if old(store).proxy.cancellations@.contains_key(check) && old(store).proxy.cancellations@[check] is Active {
            assert(old(store).proxy.cancellations@[check] == ProxyCancellation::Active(
                old(store).proxy.cancellations@[check]->Active_0,
            ));
        }
    }
}

/// A registered owner is taken for the owner of its socket only where the system confirms it, and
/// then as it was registered.
pub proof fn law_owner_is_confirmed(
    owner: SocketIdentity,
    check: OwnerCheck,
    r: Result<SocketIdentity, PolicydError>,
)
    requires
        call_ensures(proxy::validate_registered_owner, (owner, check), r),
    ensures
        r is Ok <==> check is Valid,
        r is Ok ==> r->Ok_0 == owner,
{
}

/// A registration is for its owner: the user and the process that hold the socket, in the session
/// that it was registered for. It brings no package.
pub proof fn law_registration_is_for_its_owner(
    registration: &FlowRegistration,
    r: ResolvedRequestContext,
)
    requires
        call_ensures(proxy::registration_context, (registration,), r),
    ensures
        r.ids.uid == Some(registration.owner.process.uid),
        r.ids.pid == Some(registration.owner.process.pid),
        r.sandbox_session_id == registration.context.sandbox_session_id,
        r.paths == registration.context.paths,
        r.package is None,
{
}

/// A check that has ended is no longer under way, and no other check is touched.
pub proof fn law_ended_check_is_forgotten(
    store: &mut PolicyStore,
    key: ProxyCheckId,
    other: ProxyCheckId,
)
    requires
        call_ensures(PolicyStore::finish_proxy_check, (store, key), ()),
    ensures
        !final(store).proxy.cancellations@.contains_key(key),
        other != key ==> (final(store).proxy.cancellations@.contains_key(other) <==> old(store).proxy.cancellations@.contains_key(other)),
{
}

proof fn lemma_pruned_is_no_larger(flows: Map<NetworkFlowKey, ProxyFlowState>, now: u64)
    requires
        flows.dom().finite(),
    ensures
        proxy::pruned(flows, now).len() <= flows.len(),
{
    let left = proxy::pruned(flows, now);
    assert(left.dom().subset_of(flows.dom()));
    vstd::set_lib::lemma_len_subset(left.dom(), flows.dom());
}

/// A flow can be registered as long as there is room, and again by its owner at any time; a
/// registration that conflicts with nothing is not refused.
pub proof fn law_flow_can_be_registered(
    store: &mut PolicyStore,
    registration: FlowRegistration,
    context: ResolvedRequestContext,
    now: u64,
    r: Result<(), PolicydError>,
)
    requires
        call_ensures(
            PolicyStore::register_network_flow,
            (store, registration, context, now),
            r,
        ),
        old(store).proxy.flows@.dom().finite(),
    ensures
        !old(store).proxy.flows@.contains_key(registration.flow) && old(store).proxy.flows@.len()
            < old(store).limits.proxy_flows ==> r is Ok,
        old(store).proxy.flows@.contains_key(registration.flow) && old(store).proxy.flows@[registration.flow].registration@ == registration@ && old(store).proxy.flows@[registration.flow].attribution_token is Some ==> r is Ok,
        r is Ok ==> final(store).proxy.flows@[registration.flow].last_check == now,
{
    lemma_pruned_is_no_larger(old(store).proxy.flows@, now);
}

/// A claim can be moved by its holder to any registered and unclaimed tuple of the same UDP flow
/// that has not lapsed.
pub proof fn law_claim_can_be_moved_by_its_holder(
    store: &mut PolicyStore,
    session: ProxySessionToken,
    token: AttributionToken,
    connection_id: u64,
    flow: NetworkFlowKey,
    now: u64,
    r: Result<RebindPlan, PolicydError>,
    held: NetworkFlowKey,
)
    requires
        call_ensures(
            PolicyStore::rebind_network_flow,
            (store, session, token, connection_id, flow, now),
            r,
        ),
        claimed_under(*old(store), held, token),
        forall|key: NetworkFlowKey| #[trigger]
            claimed_under(*old(store), key, token) ==> key == held,
    ensures
        ({
            let own = old(store).proxy.flows@[held];
            let next = old(store).proxy.flows@[flow];
            &&& session_open(*old(store), session)
            &&& own.connection_id == Some(connection_id)
            &&& held.protocol is Udp && flow.protocol is Udp
            &&& flow != held
            &&& flow.destination_ip == held.destination_ip
            &&& flow.destination_port == held.destination_port
            &&& old(store).proxy.flows@.contains_key(flow)
            &&& next.attribution_token is None
            &&& now <= next.last_check + 30_000_000_000
            &&& next.registration.owner.process == own.registration.owner.process
            &&& next.registration.policy_host@ == own.registration.policy_host@
            &&& next.registration.context.paths@ == own.registration.context.paths@
            &&& text::opt_text(next.registration.context.sandbox_session_id) == text::opt_text(
                own.registration.context.sandbox_session_id,
            )
        }) ==> r is Ok && r->Ok_0.old_key == held,
{
    let flows = proxy::pruned(old(store).proxy.flows@, now);
    assert(proxy::claim_is(flows, token, held));
    assert forall|key: NetworkFlowKey| #[trigger] proxy::claim_is(flows, token, key) implies key
        == held by {
        assert(claimed_under(*old(store), key, token));
    }
}

} // verus!
