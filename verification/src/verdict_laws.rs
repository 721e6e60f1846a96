//! What verdicts come to, whatever else is in force: denials are heard before permissions, and no
//! permission comes from nowhere.

use vstd::prelude::*;

use crate::evaluator;
use crate::evaluator::NetworkQuery;
use crate::rules;
use crate::state::NetworkRuleKey;
use crate::state::NetworkRuleKeyView;
use crate::store::PolicyStore;
use crate::text;
use crate::types::ApprovalScope;
use crate::types::NetworkRule;
use crate::types::Verdict;
use crate::types::VerdictSource;

verus! {

/// The session in the given place has the decision in the given place, which names the port and a
/// pattern that covers one of the names of the host.
pub open spec fn names_host<M: Fn(&String, &String) -> bool>(
    decisions: Map<Seq<char>, Vec<NetworkRuleKey>>,
    q: NetworkQuery,
    matches: M,
    session: int,
    decision: int,
    name: int,
) -> bool {
    let id = q.sessions@[session]@;
    &&& 0 <= session < q.sessions@.len()
    &&& decisions.contains_key(id)
    &&& 0 <= decision < decisions[id]@.len()
    &&& decisions[id]@[decision].port == q.port
    &&& 0 <= name < q.keys@.len()
    &&& text::relates(matches, decisions[id]@[decision].host, q.keys@[name].host)
}

/// The rule names the port of the request and a pattern that covers its host.
pub open spec fn rule_names_host<M: Fn(&String, &String) -> bool>(
    rule: NetworkRule,
    q: NetworkQuery,
    matches: M,
) -> bool {
    rule.port == q.port && text::relates(matches, rule.host, *q.host)
}

proof fn lemma_names_host<M: Fn(&String, &String) -> bool>(
    decisions: Map<Seq<char>, Vec<NetworkRuleKey>>,
    q: NetworkQuery,
    matches: M,
)
    ensures
        rules::some_session(
            decisions,
            q.sessions@,
            |b: Vec<NetworkRuleKey>| rules::network_covered(b@, q.keys@, q.port, matches),
        ) == exists|s: int, d: int, k: int| #[trigger] names_host(decisions, q, matches, s, d, k),
{
    let p = |b: Vec<NetworkRuleKey>| rules::network_covered(b@, q.keys@, q.port, matches);
    if rules::some_session(decisions, q.sessions@, p) {
        let s = choose|s: int|
            0 <= s < q.sessions@.len() && decisions.contains_key(#[trigger] q.sessions@[s]@) && p(
                decisions[q.sessions@[s]@],
            );
        let b = decisions[q.sessions@[s]@]@;
        let d = choose|d: int|
            0 <= d < b.len() && rules::network_key_covers(
                #[trigger] b[d],
                q.keys@,
                q.port,
                matches,
            );
        let k = choose|k: int|
            0 <= k < q.keys@.len() && text::relates(
                matches,
                b[d].host,
                (#[trigger] q.keys@[k]).host,
            );
        assert(names_host(decisions, q, matches, s, d, k));
    }
    if exists|s: int, d: int, k: int| #[trigger] names_host(decisions, q, matches, s, d, k) {
        let (s, d, k) = choose|s: int, d: int, k: int| #[trigger]
            names_host(decisions, q, matches, s, d, k);
        let b = decisions[q.sessions@[s]@]@;
        assert(text::relates(matches, b[d].host, q.keys@[k].host));
        assert(rules::network_key_covers(b[d], q.keys@, q.port, matches));
        assert(p(decisions[q.sessions@[s]@]));
    }
}

proof fn lemma_first_rule<M: Fn(&String, &String) -> bool>(
    list: Seq<NetworkRule>,
    q: NetworkQuery,
    matches: M,
)
    ensures
        match evaluator::first_network_rule(list, *q.host, q.port, matches) {
            Some(rule) => exists|i: int|
                {
                    &&& 0 <= i < list.len()
                    &&& #[trigger] list[i] == rule
                    &&& rule_names_host(list[i], q, matches)
                    &&& forall|j: int|
                        0 <= j < i ==> !rule_names_host(#[trigger] list[j], q, matches)
                },
            None => forall|j: int|
                0 <= j < list.len() ==> !rule_names_host(#[trigger] list[j], q, matches),
        },
    decreases list.len(),
{
    if list.len() > 0 {
        let rest = list.skip(1);
        lemma_first_rule(rest, q, matches);
        if rule_names_host(list[0], q, matches) {
            assert(evaluator::first_network_rule(list, *q.host, q.port, matches) == Some(list[0]));
        } else {
            let found = evaluator::first_network_rule(rest, *q.host, q.port, matches);
            assert(evaluator::first_network_rule(list, *q.host, q.port, matches) == found);
            assert(forall|j: int| 1 <= j < list.len() ==> list[j] == #[trigger] rest[j - 1]);
            match found {
                Some(rule) => {
                    let i = choose|i: int|
                        {
                            &&& 0 <= i < rest.len()
                            &&& #[trigger] rest[i] == rule
                            &&& rule_names_host(rest[i], q, matches)
                            &&& forall|j: int|
                                0 <= j < i ==> !rule_names_host(#[trigger] rest[j], q, matches)
                        };
                    assert(list[i + 1] == rule);
                    assert forall|j: int| 0 <= j < i + 1 implies !rule_names_host(
                        #[trigger] list[j],
                        q,
                        matches,
                    ) by {
                        if j > 0 {
                            assert(list[j] == rest[j - 1]);
                        }
                    }
                },
                None => {
                    assert forall|j: int| 0 <= j < list.len() implies !rule_names_host(
                        #[trigger] list[j],
                        q,
                        matches,
                    ) by {
                        if j > 0 {
                            assert(list[j] == rest[j - 1]);
                        }
                    }
                },
            }
        }
    }
}

/// A host and port that a rule of the policy denies are denied, whatever decisions are in force
/// and whatever else the policy allows.
pub proof fn law_policy_denial_of_a_host_wins<M: Fn(&String, &String) -> bool>(
    store: &mut PolicyStore,
    q: &NetworkQuery,
    matches: &M,
    consume_once: bool,
    r: Option<Verdict>,
    i: int,
)
    requires
        call_ensures(PolicyStore::network_verdict::<M>, (store, q, matches, consume_once), r),
        0 <= i < q.policy.network.direct.deny@.len(),
        q.policy.network.direct.deny@[i].port == q.port,
        text::relates(*matches, q.policy.network.direct.deny@[i].host, *q.host),
    ensures
        r matches Some(verdict) && !verdict.allowed,
        final(store).session.once_allow@ == old(store).session.once_allow@,
{
    assert(rules::network_rule_covers(
        q.policy.network.direct.deny@,
        *q.host,
        q.port,
        *matches,
    ));
}

/// A host and port that the user denied for one of the request's sessions are denied, whatever
/// else is in force.
pub proof fn law_session_denial_of_a_host_wins<M: Fn(&String, &String) -> bool>(
    store: &mut PolicyStore,
    q: &NetworkQuery,
    matches: &M,
    consume_once: bool,
    r: Option<Verdict>,
    session: int,
    decision: int,
    name: int,
)
    requires
        call_ensures(PolicyStore::network_verdict::<M>, (store, q, matches, consume_once), r),
        0 <= session < q.sessions@.len(),
        old(store).session.session_deny@.contains_key(q.sessions@[session]@),
        ({
            let denied = old(store).session.session_deny@[q.sessions@[session]@]@;
            &&& 0 <= decision < denied.len()
            &&& denied[decision].port == q.port
            &&& 0 <= name < q.keys@.len()
            &&& text::relates(*matches, denied[decision].host, q.keys@[name].host)
        }),
    ensures
        r matches Some(verdict) && !verdict.allowed,
        final(store).session.once_allow@ == old(store).session.once_allow@,
{
    let deny = old(store).session.session_deny@;
    assert(names_host(deny, *q, *matches, session, decision, name));
    lemma_names_host(deny, *q, *matches);
    assert(evaluator::network_session_denies(old(store).session, *q, *matches));
}

/// A network request is denied only where a deny rule of the policy names its port and a pattern
/// that covers its host, or a denial of one of its sessions does.
pub proof fn law_no_host_is_denied_for_nothing<M: Fn(&String, &String) -> bool>(
    store: &mut PolicyStore,
    q: &NetworkQuery,
    matches: &M,
    consume_once: bool,
    verdict: Verdict,
)
    requires
        call_ensures(
            PolicyStore::network_verdict::<M>,
            (store, q, matches, consume_once),
            Some(verdict),
        ),
        !verdict.allowed,
    ensures
        verdict.source == VerdictSource::Policy(None),
        (exists|i: int|
            {
                &&& 0 <= i < q.policy.network.direct.deny@.len()
                &&& (#[trigger] q.policy.network.direct.deny@[i]).port == q.port
                &&& text::relates(*matches, q.policy.network.direct.deny@[i].host, *q.host)
            }) || (exists|s: int, d: int, k: int| #[trigger]
            names_host(old(store).session.session_deny@, *q, *matches, s, d, k)),
{
    lemma_names_host(old(store).session.session_deny@, *q, *matches);
}

/// A network request is allowed only by what names it. A permission of the policy is that of the
/// first allow rule whose port is the request's and whose pattern covers its host; one of a
/// session is a decision on that port and a pattern that covers one of its names; a single-use
/// one stands under one of its names.
pub proof fn law_no_host_is_allowed_for_nothing<M: Fn(&String, &String) -> bool>(
    store: &mut PolicyStore,
    q: &NetworkQuery,
    matches: &M,
    consume_once: bool,
    verdict: Verdict,
)
    requires
        call_ensures(
            PolicyStore::network_verdict::<M>,
            (store, q, matches, consume_once),
            Some(verdict),
        ),
        verdict.allowed,
    ensures
        match verdict.source {
            VerdictSource::Policy(comment) => exists|i: int|
                #![trigger q.policy.network.direct.allow@[i]]
                {
                    let allow = q.policy.network.direct.allow@;
                    &&& 0 <= i < allow.len()
                    &&& allow[i].port == q.port
                    &&& text::relates(*matches, allow[i].host, *q.host)
                    &&& match comment {
                        Some(text) => allow[i].comment == Some(text) && text@.len() > 0,
                        None => allow[i].comment is None || allow[i].comment->0@.len() == 0,
                    }
                    &&& forall|j: int|
                        #![trigger q.policy.network.direct.allow@[j]]
                        0 <= j < i ==> !(allow[j].port == q.port && text::relates(
                            *matches,
                            allow[j].host,
                            *q.host,
                        ))
                },
            VerdictSource::Scope(ApprovalScope::Session) => exists|s: int, d: int, k: int|
                #[trigger]
                names_host(old(store).session.session_allow@, *q, *matches, s, d, k),
            VerdictSource::Scope(ApprovalScope::Once) => exists|k: int|
                0 <= k < q.keys@.len() && old(store).session.once_allow@.contains_key(
                    #[trigger] q.keys@[k]@,
                ),
            _ => false,
        },
{
    lemma_names_host(old(store).session.session_allow@, *q, *matches);
    let allow = q.policy.network.direct.allow@;
    lemma_first_rule(allow, *q, *matches);
    if verdict.source is Policy {
        let rule = evaluator::first_network_rule(allow, *q.host, q.port, *matches)->0;
        let i = choose|i: int|
            {
                &&& 0 <= i < allow.len()
                &&& #[trigger] allow[i] == rule
                &&& rule_names_host(allow[i], *q, *matches)
                &&& forall|j: int|
                    0 <= j < i ==> !rule_names_host(#[trigger] allow[j], *q, *matches)
            };
        assert(allow[i].port == q.port);
        assert forall|j: int| 0 <= j < i implies !((#[trigger] allow[j]).port == q.port
            && text::relates(*matches, allow[j].host, *q.host)) by {
            assert(!rule_names_host(allow[j], *q, *matches));
        }
    }
}

/// Where nothing denies a network request, whatever names it allows it: a single-use approval
/// first, then a decision of one of its sessions, then a rule of the policy. Only where none of
/// these names it is there no verdict.
pub proof fn law_what_names_a_host_allows_it<M: Fn(&String, &String) -> bool>(
    store: &mut PolicyStore,
    q: &NetworkQuery,
    matches: &M,
    consume_once: bool,
    r: Option<Verdict>,
)
    requires
        call_ensures(PolicyStore::network_verdict::<M>, (store, q, matches, consume_once), r),
        r matches Some(verdict) ==> verdict.allowed,
    ensures
        forall|k: int|
            0 <= k < q.keys@.len() && old(store).session.once_allow@.contains_key(
                #[trigger] q.keys@[k]@,
            ) ==> r == Some(
                Verdict { allowed: true, source: VerdictSource::Scope(ApprovalScope::Once) },
            ),
        forall|s: int, d: int, k: int| #[trigger]
            names_host(old(store).session.session_allow@, *q, *matches, s, d, k) ==> r is Some
                && r->0.source is Scope,
        forall|i: int|
            0 <= i < q.policy.network.direct.allow@.len() && (
            #[trigger] q.policy.network.direct.allow@[i]).port == q.port && text::relates(
                *matches,
                q.policy.network.direct.allow@[i].host,
                *q.host,
            ) ==> r is Some,
{
    lemma_names_host(old(store).session.session_allow@, *q, *matches);
    let allow = q.policy.network.direct.allow@;
    lemma_first_rule(allow, *q, *matches);
    assert forall|i: int|
        0 <= i < allow.len() && (#[trigger] allow[i]).port == q.port && text::relates(
            *matches,
            allow[i].host,
            *q.host,
        ) implies r is Some by {
        assert(rule_names_host(allow[i], *q, *matches));
    }
}

/// A single-use approval that gave the verdict stands no more under any of the request's names
/// where it is to be used up, and those under other names stand. Where it did not give the
/// verdict, or is only looked at, it stands.
pub proof fn law_only_the_approval_that_spoke_is_spent<M: Fn(&String, &String) -> bool>(
    store: &mut PolicyStore,
    q: &NetworkQuery,
    matches: &M,
    consume_once: bool,
    r: Option<Verdict>,
    key: NetworkRuleKeyView,
)
    requires
        call_ensures(PolicyStore::network_verdict::<M>, (store, q, matches, consume_once), r),
    ensures
        final(store).session.once_allow@.contains_key(key) <==> {
            &&& old(store).session.once_allow@.contains_key(key)
            &&& !(consume_once && r is Some && r->0.source == VerdictSource::Scope(
                ApprovalScope::Once,
            ) && exists|k: int| 0 <= k < q.keys@.len() && (#[trigger] q.keys@[k])@ == key)
        },
{
    let names = q.keys@.map_values(|k: NetworkRuleKey| k@);
    assert(names.to_set().contains(key) == exists|k: int|
        0 <= k < q.keys@.len() && (#[trigger] q.keys@[k])@ == key) by {
        if names.contains(key) {
            let k = choose|k: int| 0 <= k < names.len() && names[k] == key;
            assert(q.keys@[k]@ == key);
        }
        if exists|k: int| 0 <= k < q.keys@.len() && (#[trigger] q.keys@[k])@ == key {
            let k = choose|k: int| 0 <= k < q.keys@.len() && (#[trigger] q.keys@[k])@ == key;
            assert(names[k] == key);
        }
    }
}

/// To look at the verdict on a network request, or to ask only whether it is allowed, comes to
/// the same as to ask for the verdict.
pub proof fn law_looking_at_a_host_tells_its_verdict<M: Fn(&String, &String) -> bool>(
    look: &PolicyStore,
    asked: &mut PolicyStore,
    told: &mut PolicyStore,
    q: &NetworkQuery,
    matches: &M,
    consume_once: bool,
    seen: Option<Verdict>,
    verdict: Option<Verdict>,
    allowed: bool,
)
    requires
        *look == *old(asked),
        *look == *old(told),
        call_ensures(PolicyStore::allow_verdict::<M>, (look, q, matches), seen),
        call_ensures(
            PolicyStore::network_verdict::<M>,
            (asked, q, matches, consume_once),
            verdict,
        ),
        call_ensures(PolicyStore::is_allowed::<M>, (told, q, matches, consume_once), allowed),
    ensures
        seen == verdict,
        allowed <==> (verdict is Some && verdict->0.allowed),
        final(told).session.once_allow@ == final(asked).session.once_allow@,
{
}

} // verus!
