//! Network checks: the host that a check is about, and the URL that the user is shown.

use vstd::prelude::*;

use crate::evaluator;
use crate::evaluator::NetworkQuery;
use crate::network::NetworkCheckRequest;
use crate::rules;
use crate::scan;
use crate::state::SessionRules;
use crate::store::PolicyStore;
use crate::text;
use crate::types::CheckReply;
use crate::types::ResolvedRequestContext;
use crate::types::Verdict;
use crate::types::VerdictSource;

verus! {

/// A hexadecimal digit.
pub open spec fn hex(c: char) -> bool {
    '0' <= c <= '9' || 'a' <= c <= 'f' || 'A' <= c <= 'F'
}

/// One to four hexadecimal digits.
pub open spec fn hex_group(s: Seq<char>) -> bool {
    1 <= s.len() <= 4 && forall|i: int| 0 <= i < s.len() ==> hex(#[trigger] s[i])
}

/// A decimal number up to 255, without a leading zero.
pub open spec fn octet(s: Seq<char>) -> bool {
    &&& 1 <= s.len() <= 3
    &&& s.len() > 1 ==> s[0] != '0'
    &&& scan::digits_value(s) is Some
    &&& scan::digits_value(s)->0 <= 255
}

/// Four such numbers with dots between them.
pub open spec fn ipv4_literal(s: Seq<char>) -> bool {
    let parts = scan::split_on(s, '.');
    parts.len() == 4 && forall|i: int| 0 <= i < parts.len() ==> octet(#[trigger] parts[i])
}

/// How many groups the parts of an IPv6 address stand for. The last may be an IPv4 address,
/// where that is allowed; it stands for two.
pub open spec fn group_count(parts: Seq<Seq<char>>, v4: bool) -> Option<nat>
    decreases parts.len(),
{
    if parts.len() == 0 {
        Some(0)
    } else {
        match (group_count(parts.drop_last(), false), hex_group(parts.last())) {
            (Some(n), true) => Some(n + 1),
            (Some(n), false) => if v4 && ipv4_literal(parts.last()) {
                Some(n + 2)
            } else {
                None
            },
            (None, _) => None,
        }
    }
}

/// The parts of a text between colons; an empty text has none.
pub open spec fn colon_parts(s: Seq<char>) -> Seq<Seq<char>> {
    if s.len() == 0 {
        Seq::empty()
    } else {
        scan::split_on(s, ':')
    }
}

/// The index of the first double colon.
pub open spec fn double_colon(s: Seq<char>) -> Option<int>
    decreases s.len(),
{
    if s.len() < 2 {
        None
    } else if s[0] == ':' && s[1] == ':' {
        Some(0)
    } else {
        match double_colon(s.skip(1)) {
            Some(i) => Some(i + 1),
            None => None,
        }
    }
}

/// The text writes an IPv6 address: eight groups, or fewer with a double colon in place of the
/// groups that are left out.
pub open spec fn ipv6_literal(s: Seq<char>) -> bool {
    match double_colon(s) {
        None => group_count(colon_parts(s), true) == Some(8nat),
        Some(i) => match (
            group_count(colon_parts(s.take(i)), false),
            group_count(colon_parts(s.skip(i + 2)), true),
        ) {
            (Some(a), Some(b)) => a + b <= 7,
            _ => false,
        },
    }
}

fn is_hex_group(s: &Vec<char>) -> (r: bool)
    ensures
        r == hex_group(s@),
{
    if s.len() < 1 || s.len() > 4 {
        return false;
    }
    let mut i: usize = 0;
    while i < s.len()
        invariant
            1 <= s@.len() <= 4,
            i <= s@.len(),
            forall|j: int| 0 <= j < i ==> hex(#[trigger] s@[j]),
        decreases s@.len() - i,
    {
        let c = s[i];
        if !(('0' <= c && c <= '9') || ('a' <= c && c <= 'f') || ('A' <= c && c <= 'F')) {
            assert(!hex(s@[i as int]));
            return false;
        }
        i += 1;
    }
    true
}

fn is_octet(s: &Vec<char>) -> (r: bool)
    ensures
        r == octet(s@),
{
    if s.len() < 1 || s.len() > 3 || (s.len() > 1 && s[0] == '0') {
        return false;
    }
    if s[0] == '+' {
        proof {
            lemma_sign_is_no_digit(s@);
        }
        return false;
    }
    scan::number(s, 255).is_some()
}

proof fn lemma_sign_is_no_digit(s: Seq<char>)
    requires
        s.len() > 0,
        s[0] == '+',
    ensures
        scan::digits_value(s) is None,
    decreases s.len(),
{
    if s.len() > 1 {
        assert(s.drop_last()[0] == '+');
        lemma_sign_is_no_digit(s.drop_last());
    }
}

fn is_ipv4_literal(s: &Vec<char>) -> (r: bool)
    ensures
        r == ipv4_literal(s@),
{
    let parts = scan::split(s, '.');
    let ghost ps = scan::split_on(s@, '.');
    assert(parts@.len() == ps.len());
    if parts.len() != 4 {
        return false;
    }
    let mut i: usize = 0;
    while i < parts.len()
        invariant
            ps == scan::split_on(s@, '.'),
            ps == scan::pieces(parts@),
            parts@.len() == 4,
            i <= parts@.len(),
            forall|j: int| 0 <= j < i ==> octet(#[trigger] ps[j]),
        decreases parts@.len() - i,
    {
        assert(ps[i as int] == parts@[i as int]@);
        if !is_octet(&parts[i]) {
            return false;
        }
        i += 1;
    }
    true
}

/// The number of groups, where it is one that an address can have.
fn count_groups(parts: &Vec<Vec<char>>, v4: bool) -> (r: Option<usize>)
    ensures
        match r {
            Some(n) => group_count(scan::pieces(parts@), v4) == Some(n as nat) && n <= 9,
            None => match group_count(scan::pieces(parts@), v4) {
                Some(n) => n > 8,
                None => true,
            },
        },
{
    let ghost ps = scan::pieces(parts@);
    let n = parts.len();
    if n == 0 {
        assert(ps =~= Seq::empty());
        return Some(0);
    }
    if n > 8 {
        proof {
            lemma_count_at_least(ps, v4);
        }
        return None;
    }
    let mut i: usize = 0;
    assert(ps.take(0) =~= Seq::empty());
    while i < n - 1
        invariant
            n == parts@.len(),
            0 < n <= 8,
            ps == scan::pieces(parts@),
            i <= n - 1,
            group_count(ps.take(i as int), false) == Some(i as nat),
        decreases n - i,
    {
        let ghost t = ps.take(i + 1);
        assert(t.drop_last() =~= ps.take(i as int));
        assert(t.last() == parts@[i as int]@);
        if !is_hex_group(&parts[i]) {
            proof {
                lemma_bad_group(ps, i as int, v4);
            }
            return None;
        }
        i += 1;
    }
    assert(ps.drop_last() =~= ps.take(n - 1));
    assert(ps.last() == parts@[n - 1]@);
    if is_hex_group(&parts[n - 1]) {
        Some(n)
    } else if v4 && is_ipv4_literal(&parts[n - 1]) {
        Some(n + 1)
    } else {
        None
    }
}

proof fn lemma_bad_group(parts: Seq<Seq<char>>, i: int, v4: bool)
    requires
        0 <= i < parts.len() - 1,
        !hex_group(parts[i]),
    ensures
        group_count(parts, v4) is None,
    decreases parts.len(),
{
    let front = parts.drop_last();
    if i == front.len() - 1 {
        assert(front.last() == parts[i]);
    } else {
        assert(front[i] == parts[i]);
        lemma_bad_group(front, i, false);
    }
}

fn find_double_colon(s: &Vec<char>) -> (r: Option<usize>)
    ensures
        match r {
            Some(i) => double_colon(s@) == Some(i as int) && i + 2 <= s@.len(),
            None => double_colon(s@) is None,
        },
{
    let mut i: usize = 0;
    assert(s@.skip(0) =~= s@);
    while i < s.len() && s.len() - i >= 2
        invariant
            i <= s@.len(),
            match double_colon(s@.skip(i as int)) {
                Some(k) => double_colon(s@) == Some(k + i),
                None => double_colon(s@) is None,
            },
        decreases s@.len() - i,
    {
        let ghost rest = s@.skip(i as int);
        assert(rest[0] == s@[i as int] && rest[1] == s@[i + 1]);
        if s[i] == ':' && s[i + 1] == ':' {
            return Some(i);
        }
        assert(rest.skip(1) =~= s@.skip(i + 1));
        i += 1;
    }
    None
}

fn part_of(s: &Vec<char>, from: usize, to: usize) -> (r: Vec<char>)
    requires
        from <= to <= s@.len(),
    ensures
        r@ == s@.subrange(from as int, to as int),
{
    let mut r: Vec<char> = Vec::new();
    let mut i: usize = from;
    while i < to
        invariant
            from <= i <= to <= s@.len(),
            r@ == s@.subrange(from as int, i as int),
        decreases to - i,
    {
        r.push(s[i]);
        i += 1;
        assert(r@ =~= s@.subrange(from as int, i as int));
    }
    r
}

fn parts_of(s: &Vec<char>) -> (r: Vec<Vec<char>>)
    ensures
        scan::pieces(r@) == colon_parts(s@),
{
    if s.len() == 0 {
        let r: Vec<Vec<char>> = Vec::new();
        assert(scan::pieces(r@) =~= Seq::empty());
        return r;
    }
    scan::split(s, ':')
}

/// Whether a text writes an IPv6 address.
pub fn is_ipv6_literal(s: &str) -> (r: bool)
    ensures
        r == ipv6_literal(s@),
{
    let chars = text::chars_of(s);
    let n = chars.len();
    match find_double_colon(&chars) {
        None => match count_groups(&parts_of(&chars), true) {
            Some(n) => n == 8,
            None => false,
        },
        Some(i) => {
            let left = part_of(&chars, 0, i);
            let right = part_of(&chars, i + 2, n);
            proof {
                assert(left@ =~= s@.take(i as int));
                assert(right@ =~= s@.skip(i + 2));
            }
            match (count_groups(&parts_of(&left), false), count_groups(&parts_of(&right), true)) {
                (Some(a), Some(b)) => a + b <= 7,
                _ => false,
            }
        },
    }
}

proof fn lemma_count_at_least(parts: Seq<Seq<char>>, v4: bool)
    ensures
        group_count(parts, v4) matches Some(n) ==> n >= parts.len(),
    decreases parts.len(),
{
    if parts.len() > 0 {
        lemma_count_at_least(parts.drop_last(), false);
    }
}

/// Where the host of a check comes from.
#[derive(Clone, Copy, Debug, PartialEq, Eq, Structural)]
pub enum PromptHost {
    /// The check named it.
    AsProvided,
    /// It was found from the address that was connected to.
    ResolvedFromIp,
}

/// The host as it stands in a URL: an IPv6 address in brackets.
pub open spec fn url_host(host: Seq<char>) -> Seq<char> {
    if ipv6_literal(host) {
        "["@ + host + "]"@
    } else {
        host
    }
}

/// The URL of a host and port.
pub open spec fn host_url(scheme: Seq<char>, host: Seq<char>, port: u16) -> Seq<char> {
    scheme + "://"@ + host + (":"@ + text::decimal_text(port as nat))
}

/// The URL that the user is shown.
pub open spec fn shown_url(
    scheme: Seq<char>,
    provided: Option<String>,
    host: Seq<char>,
    port: u16,
    prompt: PromptHost,
) -> Seq<char> {
    match prompt {
        PromptHost::AsProvided => match provided {
            Some(url) => url@,
            None => host_url(scheme, host, port),
        },
        PromptHost::ResolvedFromIp => host_url(scheme, url_host(host), port),
    }
}

/// The host as it stands in a URL.
pub fn format_host_for_url(host: &str) -> (r: String)
    ensures
        r@ == url_host(host@),
{
    if is_ipv6_literal(host) {
        text::join3("[", host, "]")
    } else {
        host.to_owned()
    }
}

fn url_of(scheme: &str, host: &str, port: u16) -> (r: String)
    ensures
        r@ == host_url(scheme@, host@, port),
{
    let tail = text::join2(":", text::decimal(port as u64).as_str());
    let start = text::join3(scheme, "://", host);
    text::join2(start.as_str(), tail.as_str())
}

/// The URL that the user is shown: the one that the check gave, where it named the host itself,
/// else one made from the host that was found.
pub fn prompt_url(
    scheme: &str,
    provided_url: Option<String>,
    policy_host: &str,
    port: u16,
    prompt_host: PromptHost,
) -> (r: String)
    ensures
        r@ == shown_url(scheme@, provided_url, policy_host@, port, prompt_host),
{
    match prompt_host {
        PromptHost::AsProvided => match provided_url {
            Some(url) => url,
            None => url_of(scheme, policy_host, port),
        },
        PromptHost::ResolvedFromIp => url_of(
            scheme,
            format_host_for_url(policy_host).as_str(),
            port,
        ),
    }
}

/// A network check, as it came in.
pub struct CheckArgs {
    pub host: Option<String>,
    pub connect_host: Option<String>,
    pub port: Option<u16>,
    pub scheme: String,
    pub url: Option<String>,
    pub aliases: Vec<String>,
    pub ctx: ResolvedRequestContext,
}

/// What follows from a network check.
pub enum CheckPlan {
    /// Answer at once.
    Reply(CheckReply),
    /// Look for a verdict on the request, and where there is none ask the user.
    Judge(NetworkCheckRequest),
}

/// The text, or the empty one where there is none.
pub open spec fn text_or_empty(o: Option<String>) -> Seq<char> {
    match o {
        Some(s) => s@,
        None => Seq::empty(),
    }
}

/// The request is the one that the check stands for. The host is the one that the check names,
/// where it names one that is no address; else the one that is found for the address that was
/// connected to. It is judged in its normal form, and shown as it was found.
pub open spec fn check_stands_for<
    N: Fn(&String) -> String,
    I: Fn(&String) -> bool,
    P: Fn(&String) -> String,
>(args: CheckArgs, normalize: N, is_ip: I, found: P, req: NetworkCheckRequest) -> bool {
    exists|named: String, connected: String|
        #![trigger text::answer(normalize, named), text::answer(found, connected)]
        {
            let host = text::answer(normalize, named);
            let resolved = host@.len() == 0 || text::holds(is_ip, host);
            let shown = if resolved {
                text::answer(found, connected)
            } else {
                host
            };
            let prompt = if resolved {
                PromptHost::ResolvedFromIp
            } else {
                PromptHost::AsProvided
            };
            &&& named@ == text_or_empty(args.host)
            &&& args.host is Some ==> named == args.host->0
            &&& args.connect_host is Some ==> connected == args.connect_host->0
            &&& args.connect_host is None && args.host is Some ==> connected == args.host->0
            &&& connected@ == (if args.connect_host is Some {
                args.connect_host->0@
            } else {
                text_or_empty(args.host)
            })
            &&& req.host == (if resolved {
                text::answer(normalize, shown)
            } else {
                host
            })
            &&& req.port == args.port->0
            &&& req.scheme == args.scheme
            &&& req.url@ == shown_url(args.scheme@, args.url, shown@, req.port, prompt)
            &&& req.aliases == args.aliases
            &&& req.ctx == args.ctx
        }
}

/// What a network check comes to before any rule is looked at. A check without a port, or on
/// port zero, is denied. `normalize` gives the form that rules name a host in, `is_ip` tells
/// whether that is an address, and `found` gives the host for an address.
pub fn handle_check<
    N: Fn(&String) -> String,
    I: Fn(&String) -> bool,
    P: Fn(&String) -> String,
>(args: CheckArgs, normalize: &N, is_ip: &I, found: &P) -> (r: CheckPlan)
    requires
        text::determined(*normalize),
        text::decides(*is_ip),
        text::determined(*found),
    ensures
        if args.port is None || args.port == Some(0u16) {
            r == CheckPlan::Reply(
                CheckReply::of_verdict(
                    Verdict { allowed: false, source: VerdictSource::PortZero },
                ),
            )
        } else {
            r matches CheckPlan::Judge(req) && check_stands_for(
                args,
                *normalize,
                *is_ip,
                *found,
                req,
            )
        },
{
    let ghost given = args;
    let port: u16 = match args.port {
        Some(port) => port,
        None => 0,
    };
    if port == 0 {
        return CheckPlan::Reply(CheckReply::denied(VerdictSource::PortZero));
    }
    let named = match &args.host {
        Some(host) => host.clone(),
        None => String::new(),
    };
    let connected = match args.connect_host {
        Some(host) => host,
        None => named.clone(),
    };
    assert(named@ =~= text_or_empty(args.host));
    let host = normalize(&named);
    assert(host == text::answer(*normalize, named));
    let resolved = text::chars_of(host.as_str()).len() == 0 || is_ip(&host);
    let prompt_host = if resolved {
        PromptHost::ResolvedFromIp
    } else {
        PromptHost::AsProvided
    };
    let shown = if resolved {
        found(&connected)
    } else {
        host
    };
    let ghost at_address = text::answer(*found, connected);
    let url = prompt_url(args.scheme.as_str(), args.url, shown.as_str(), port, prompt_host);
    let host = if resolved {
        normalize(&shown)
    } else {
        shown
    };
    let req = NetworkCheckRequest {
        host,
        port,
        scheme: args.scheme,
        url,
        aliases: args.aliases,
        ctx: args.ctx,
    };
    assert(check_stands_for(given, *normalize, *is_ip, *found, req));
    CheckPlan::Judge(req)
}

impl PolicyStore {
    /// The reply that the rules and decisions in force give to a network check, or nothing. A
    /// single-use approval that gives it is used up.
    pub fn settle_check<M: Fn(&String, &String) -> bool>(
        &mut self,
        q: &NetworkQuery,
        matches: &M,
    ) -> (r: Option<CheckReply>)
        requires
            old(self).wf(),
            text::decides_pairs(*matches),
        ensures
            final(self).wf(),
            final(self).configured_as(old(self)),
            *final(self) == (PolicyStore {
                session: SessionRules {
                    once_allow: final(self).session.once_allow,
                    ..old(self).session
                },
                ..*old(self)
            }),
            ({
                let verdict = evaluator::network_decision(old(self).session, *q, *matches);
                &&& r == (match verdict {
                    Some(v) => Some(CheckReply::of_verdict(v)),
                    None => None,
                })
                &&& final(self).session.once_allow@ == (if evaluator::rests_on_once(verdict) {
                    rules::once_spent(old(self).session.once_allow@, q.keys@)
                } else {
                    old(self).session.once_allow@
                })
            }),
    {
        match self.allow_verdict(q, matches) {
            Some(verdict) => {
                if verdict.is_once() {
                    let verdict = match self.network_verdict(q, matches, true) {
                        Some(verdict) => verdict,
                        None => Verdict::blocked(),
                    };
                    return Some(CheckReply::from_verdict(verdict));
                }
                Some(CheckReply::from_verdict(verdict))
            },
            None => None,
        }
    }
}

} // verus!
