//! What holds of kept rules: what one access covers, and what a decision leaves of a policy.

use vstd::prelude::*;

use crate::paths;
use crate::persist;
use crate::persist::HttpMethods;
use crate::persist::PersistResourceRuleArgs;
use crate::sorting;
use crate::sorting::Keyed;
use crate::text;
use crate::types;
use crate::types::DeviceAccess;
use crate::types::FileAccess;
use crate::types::FilesystemRule;
use crate::types::HttpRule;
use crate::types::HttpRuleTarget;
use crate::types::NetworkRule;
use crate::types::Policy;
use crate::types::ResourceAccess;
use crate::types::ResourceKind;
use crate::types::ResourceRule;
use crate::types::SocketAccess;
use crate::types::SudoRule;

verus! {

/// An access covers itself; every access is covered by all, and reading and writing by both
/// together. Nothing else is covered: to execute covers only that, and nothing but it and all
/// covers it.
pub proof fn law_access_covers_no_more(access: FileAccess, other: FileAccess, r: bool)
    requires
        call_ensures(FileAccess::covers, (access, other), r),
    ensures
        r <==> access == other || access == FileAccess::All || (access == FileAccess::ReadWrite && (
        other == FileAccess::Read || other == FileAccess::Write)),
        access.includes(other) == r,
{
}

/// The join of two accesses covers both, and is covered by all that covers both.
pub proof fn law_join_covers_both(
    a: FileAccess,
    b: FileAccess,
    upper: FileAccess,
    r: FileAccess,
    left: bool,
    right: bool,
    least: bool,
    over_a: bool,
    over_b: bool,
)
    requires
        call_ensures(FileAccess::union, (a, b), r),
        call_ensures(FileAccess::covers, (r, a), left),
        call_ensures(FileAccess::covers, (r, b), right),
        call_ensures(FileAccess::covers, (upper, a), over_a),
        call_ensures(FileAccess::covers, (upper, b), over_b),
        call_ensures(FileAccess::covers, (upper, r), least),
    ensures
        left && right,
        over_a && over_b ==> least,
        a == b ==> r == a,
        a == FileAccess::Read && b == FileAccess::Write ==> r == FileAccess::ReadWrite,
{
}

/// What a socket may be used for and what a device may be used for are apart: a use is covered by
/// the same use, and by every use of the same sort of thing.
pub proof fn law_resource_access_covers_no_more(a: ResourceAccess, b: ResourceAccess)
    ensures
        a.includes(b) <==> a == b || (a == ResourceAccess::Socket(SocketAccess::All) && b is Socket)
            || (a == ResourceAccess::Device(DeviceAccess::ReadWrite) && b is Device),
{
}

/// Two uses of a resource join to one only where they are of the same sort of thing, and then to
/// one that covers both and no more than it must.
pub proof fn law_resource_join_covers_both(
    a: ResourceAccess,
    b: ResourceAccess,
    r: Option<ResourceAccess>,
)
    requires
        call_ensures(ResourceAccess::union, (a, b), r),
    ensures
        r is Some <==> a is Socket == b is Socket,
        r is Some ==> {
            &&& a == b ==> r->0 == a
            &&& a != b && a is Socket ==> r->0 == ResourceAccess::Socket(SocketAccess::All)
            &&& a != b && a is Device ==> r->0 == ResourceAccess::Device(DeviceAccess::ReadWrite)
        },
{
}

proof fn lemma_same_items<T>(a: Seq<T>, b: Seq<T>, x: T)
    requires
        a.to_multiset() == b.to_multiset(),
    ensures
        a.contains(x) == b.contains(x),
{
    vstd::seq_lib::to_multiset_contains(a, x);
    vstd::seq_lib::to_multiset_contains(b, x);
}

proof fn lemma_front<T>(rules: Seq<T>, x: T)
    requires
        rules.len() > 0,
        rules.drop_last().contains(x) || x == rules.last(),
    ensures
        rules.contains(x),
{
    if rules.drop_last().contains(x) {
        let i = choose|i: int| 0 <= i < rules.drop_last().len() && rules.drop_last()[i] == x;
        assert(rules[i] == x);
    } else {
        assert(rules[rules.len() - 1] == x);
    }
}

proof fn lemma_merged_file(rules: Seq<FilesystemRule>, key: Seq<char>, access: FileAccess)
    ensures
        persist::merged_access(rules, key, access).includes(access),
        persist::merged_access(rules, key, access) != access ==> exists|rule: FilesystemRule|
            #[trigger] rules.contains(rule) && paths::rule_key(rule.path@) == key,
    decreases rules.len(),
{
    if rules.len() > 0 {
        let front = rules.drop_last();
        lemma_merged_file(front, key, access);
        lemma_front(rules, rules.last());
        if persist::merged_access(front, key, access) != access {
            let old_rule = choose|rule: FilesystemRule| #[trigger]
                front.contains(rule) && paths::rule_key(rule.path@) == key;
            lemma_front(rules, old_rule);
        }
    }
}

/// Of the rule `x`: the decision on the path has gone into the one list, as one rule with the label
/// that covers the access, and out of the other.
pub open spec fn file_decided(
    into: Seq<FilesystemRule>,
    kept: Seq<FilesystemRule>,
    out_of: Seq<FilesystemRule>,
    left: Seq<FilesystemRule>,
    path: String,
    access: FileAccess,
    label: Seq<char>,
    x: FilesystemRule,
) -> bool {
    let key = paths::rule_key(path@);
    &&& exists|rule: FilesystemRule| #[trigger]
        kept.contains(rule) && rule.path == path && rule.access.includes(access)
            && text::opt_text(rule.comment) == types::comment_of(label)
    &&& paths::rule_key(x.path@) != key ==> (kept.contains(x) <==> into.contains(x))
    &&& paths::rule_key(x.path@) == key && kept.contains(x) ==> {
        &&& x.path == path
        &&& x.access.includes(access)
        &&& x.access != access ==> exists|rule: FilesystemRule| #[trigger]
            into.contains(rule) && paths::rule_key(rule.path@) == key
    }
    &&& left.contains(x) <==> out_of.contains(x) && !(paths::rule_key(x.path@) == key
        && x.access == access)
}

/// A kept decision on a path goes into the list that it is for: an approval among what is allowed,
/// a denial among what is denied. There it has a rule that covers the access, and is the only one
/// on the path; where no rule was on the path it covers just the access. The other list loses
/// nothing but what says of the path just the opposite. What other paths have stays in both lists,
/// and nothing else of the policy changes.
pub proof fn law_kept_file_decision<L: Fn(&FilesystemRule, &FilesystemRule) -> bool>(
    policy: Policy,
    path: &String,
    access: FileAccess,
    label: &str,
    allow_rule: bool,
    less: &L,
    r: Policy,
    x: FilesystemRule,
)
    requires
        call_ensures(
            persist::persist_filesystem_rule::<L>,
            (policy, path, access, label, allow_rule, less),
            r,
        ),
    ensures
        allow_rule ==> file_decided(
            policy.filesystem.allow@,
            r.filesystem.allow@,
            policy.filesystem.deny@,
            r.filesystem.deny@,
            *path,
            access,
            label@,
            x,
        ),
        !allow_rule ==> file_decided(
            policy.filesystem.deny@,
            r.filesystem.deny@,
            policy.filesystem.allow@,
            r.filesystem.allow@,
            *path,
            access,
            label@,
            x,
        ),
        r.network == policy.network,
        r.resources == policy.resources,
        r.dbus == policy.dbus,
        r.sudo == policy.sudo,
{
    let into = if allow_rule { policy.filesystem.allow@ } else { policy.filesystem.deny@ };
    let kept = if allow_rule { r.filesystem.allow@ } else { r.filesystem.deny@ };
    let out_of = if allow_rule { policy.filesystem.deny@ } else { policy.filesystem.allow@ };
    let left = if allow_rule { r.filesystem.deny@ } else { r.filesystem.allow@ };
    let key = paths::rule_key(path@);
    let list = choose|list: Seq<FilesystemRule>| #[trigger]
        persist::filesystem_upserted(into, list, *path, access, label@) && kept
            == sorting::sorted_by(list, *less);
    let comment = choose|comment: Option<String>|
        text::opt_text(comment) == types::comment_of(label@) && list == #[trigger] persist::placed(
            into,
            persist::on_path(key),
            FilesystemRule {
                path: *path,
                access: persist::merged_access(into, key, access),
                comment,
            },
        );
    let merged = persist::merged_access(into, key, access);
    let rule = FilesystemRule { path: *path, access: merged, comment };
    lemma_merged_file(into, key, access);
    sorting::law_sorting_keeps_items(list, *less);
    lemma_same_items(kept, list, x);
    lemma_same_items(kept, list, rule);
    persist::lemma_placed(into, persist::on_path(key), rule, x);
    persist::lemma_placed(into, persist::on_path(key), rule, rule);
    assert(kept.contains(rule));
    let rest = persist::others(out_of, persist::on_path_with(key, access));
    sorting::law_sorting_keeps_items(rest, *less);
    lemma_same_items(left, rest, x);
    persist::lemma_others(out_of, persist::on_path_with(key, access), x);
}

proof fn lemma_merged_resource(
    rules: Seq<ResourceRule>,
    kind: ResourceKind,
    key: Seq<char>,
    access: ResourceAccess,
)
    ensures
        persist::merged_resource_access(rules, kind, key, access).includes(access),
        persist::merged_resource_access(rules, kind, key, access) is Socket == access is Socket,
        persist::merged_resource_access(rules, kind, key, access) != access ==> exists|
            rule: ResourceRule,
        | #[trigger]
            rules.contains(rule) && rule.kind == kind && paths::rule_key(rule.path@) == key,
    decreases rules.len(),
{
    if rules.len() > 0 {
        let front = rules.drop_last();
        lemma_merged_resource(front, kind, key, access);
        lemma_front(rules, rules.last());
        if persist::merged_resource_access(front, kind, key, access) != access {
            let old_rule = choose|rule: ResourceRule| #[trigger]
                front.contains(rule) && rule.kind == kind && paths::rule_key(rule.path@) == key;
            lemma_front(rules, old_rule);
        }
    }
}

/// Of the rule `x`: the decision on the resource has gone into the one list, as one rule with the
/// label that covers the access, and out of the other.
pub open spec fn resource_decided(
    into: Seq<ResourceRule>,
    kept: Seq<ResourceRule>,
    out_of: Seq<ResourceRule>,
    left: Seq<ResourceRule>,
    args: PersistResourceRuleArgs,
    x: ResourceRule,
) -> bool {
    let key = paths::rule_key(args.rule_path@);
    &&& exists|rule: ResourceRule| #[trigger]
        kept.contains(rule) && rule.kind == args.kind && rule.path == *args.rule_path
            && rule.access.includes(args.access) && text::opt_text(rule.comment)
            == types::comment_of(args.label@)
    &&& x.kind != args.kind || paths::rule_key(x.path@) != key || x.access is Socket
        != args.access is Socket ==> (kept.contains(x) <==> into.contains(x))
    &&& x.kind == args.kind && paths::rule_key(x.path@) == key && x.access is Socket
        == args.access is Socket && kept.contains(x) ==> {
        &&& x.path == *args.rule_path
        &&& x.access.includes(args.access)
        &&& x.access != args.access ==> exists|rule: ResourceRule| #[trigger]
            into.contains(rule) && rule.kind == args.kind && paths::rule_key(rule.path@)
                == key
    }
    &&& left.contains(x) <==> out_of.contains(x) && !(x.kind == args.kind
        && paths::rule_key(x.path@) == key && x.access == args.access)
}

/// A kept decision on a resource goes into the list that it is for, where it has a rule that
/// covers the access, the only one on the resource and its sort of access; the other list loses
/// nothing but what says of it just the opposite. What other resources have stays in both lists,
/// and nothing else of the policy changes.
pub proof fn law_kept_resource_decision<L: Fn(&ResourceRule, &ResourceRule) -> bool>(
    policy: Policy,
    args: &PersistResourceRuleArgs,
    less: &L,
    r: Policy,
    x: ResourceRule,
)
    requires
        call_ensures(persist::persist_resource_rule::<L>, (policy, args, less), r),
    ensures
        args.allow_rule ==> resource_decided(
            policy.resources.allow@,
            r.resources.allow@,
            policy.resources.deny@,
            r.resources.deny@,
            *args,
            x,
        ),
        !args.allow_rule ==> resource_decided(
            policy.resources.deny@,
            r.resources.deny@,
            policy.resources.allow@,
            r.resources.allow@,
            *args,
            x,
        ),
        r.network == policy.network,
        r.filesystem == policy.filesystem,
        r.dbus == policy.dbus,
        r.sudo == policy.sudo,
{
    let into = if args.allow_rule { policy.resources.allow@ } else { policy.resources.deny@ };
    let kept = if args.allow_rule { r.resources.allow@ } else { r.resources.deny@ };
    let out_of = if args.allow_rule { policy.resources.deny@ } else { policy.resources.allow@ };
    let left = if args.allow_rule { r.resources.deny@ } else { r.resources.allow@ };
    let key = paths::rule_key(args.rule_path@);
    let same = persist::on_resource(args.kind, key, args.access);
    let list = choose|list: Seq<ResourceRule>| #[trigger]
        persist::resource_upserted(
            into,
            list,
            args.kind,
            *args.rule_path,
            args.access,
            args.label@,
        ) && kept == sorting::sorted_by(list, *less);
    let merged = persist::merged_resource_access(into, args.kind, key, args.access);
    let comment = choose|comment: Option<String>|
        text::opt_text(comment) == types::comment_of(args.label@) && list
            == #[trigger] persist::placed(
            into,
            same,
            ResourceRule { kind: args.kind, path: *args.rule_path, access: merged, comment },
        );
    let rule = ResourceRule {
        kind: args.kind,
        path: *args.rule_path,
        access: merged,
        comment,
    };
    lemma_merged_resource(into, args.kind, key, args.access);
    sorting::law_sorting_keeps_items(list, *less);
    lemma_same_items(kept, list, x);
    lemma_same_items(kept, list, rule);
    persist::lemma_placed(into, same, rule, x);
    persist::lemma_placed(into, same, rule, rule);
    assert(kept.contains(rule));
    let with = persist::on_resource_with(args.kind, key, args.access);
    let rest = persist::others(out_of, with);
    sorting::law_sorting_keeps_items(rest, *less);
    lemma_same_items(left, rest, x);
    persist::lemma_others(out_of, with, x);
}

/// A list of network rules has a rule on the host and port.
pub open spec fn has_host(rules: Seq<NetworkRule>, host: Seq<char>, port: u16) -> bool {
    exists|i: int|
        0 <= i < rules.len() && (#[trigger] rules[i]).host@ == host && rules[i].port == port
}

proof fn lemma_last_host(rules: Seq<NetworkRule>, host: Seq<char>, port: u16)
    ensures
        has_host(rules, host, port) <==> exists|x: NetworkRule| #[trigger]
            persist::is_last(rules, x) && x.host@ == host && x.port == port,
    decreases rules.len(),
{
    if has_host(rules, host, port) {
        let front = rules.drop_last();
        let last = rules.last();
        if last.host@ == host && last.port == port {
            assert(rules[rules.len() - 1] == last);
            assert(persist::is_last(rules, last));
        } else {
            let i = choose|i: int|
                0 <= i < rules.len() && (#[trigger] rules[i]).host@ == host && rules[i].port
                    == port;
            assert(front[i] == rules[i]);
            lemma_last_host(front, host, port);
            let x = choose|x: NetworkRule| #[trigger]
                persist::is_last(front, x) && x.host@ == host && x.port == port;
            let k = choose|k: int|
                0 <= k < front.len() && #[trigger] front[k] == x && forall|j: int|
                    k < j < front.len() ==> (#[trigger] front[j]).key() != x.key();
            assert(rules[k] == x);
            assert forall|j: int| k < j < rules.len() implies (#[trigger] rules[j]).key()
                != x.key() by {
                if j < front.len() {
                    assert(front[j] == rules[j]);
                } else {
                    assert(rules[j] == last);
                }
            }
            assert(persist::is_last(rules, x));
        }
    }
}

proof fn lemma_network_kept(
    into: Seq<NetworkRule>,
    kept: Seq<NetworkRule>,
    out_of: Seq<NetworkRule>,
    left: Seq<NetworkRule>,
    host: String,
    port: u16,
    label: Seq<char>,
    other: Seq<char>,
    at: u16,
)
    requires
        persist::network_persisted(into, kept, out_of, left, host, port, label),
    ensures
        has_host(kept, other, at) <==> (other == host@ && at == port) || has_host(into, other, at),
        has_host(left, other, at) <==> !(other == host@ && at == port) && has_host(
            out_of,
            other,
            at,
        ),
{
    let comment = choose|comment: Option<String>|
        text::opt_text(comment) == types::comment_of(label) && #[trigger] persist::rule_added(
            into,
            kept,
            NetworkRule { host, port, comment },
        );
    let rule = NetworkRule { host, port, comment };
    lemma_last_host(into, other, at);
    lemma_last_host(out_of, other, at);
    assert(sorting::holds_item(kept, rule));
    if has_host(kept, other, at) {
        let i = choose|i: int|
            0 <= i < kept.len() && (#[trigger] kept[i]).host@ == other && kept[i].port == at;
        assert(sorting::holds_item(kept, kept[i]));
    }
    if other == host@ && at == port {
        let i = choose|i: int| 0 <= i < kept.len() && #[trigger] kept[i] == rule;
        assert(kept[i].host@ == other);
    } else if has_host(into, other, at) {
        let x = choose|x: NetworkRule| #[trigger]
            persist::is_last(into, x) && x.host@ == other && x.port == at;
        assert(sorting::holds_item(kept, x));
        let i = choose|i: int| 0 <= i < kept.len() && #[trigger] kept[i] == x;
        assert(kept[i].host@ == other);
    }
    if has_host(left, other, at) {
        let i = choose|i: int|
            0 <= i < left.len() && (#[trigger] left[i]).host@ == other && left[i].port == at;
        assert(sorting::holds_item(left, left[i]));
    }
    if !(other == host@ && at == port) && has_host(out_of, other, at) {
        let x = choose|x: NetworkRule| #[trigger]
            persist::is_last(out_of, x) && x.host@ == other && x.port == at;
        assert(sorting::holds_item(left, x));
        let i = choose|i: int| 0 <= i < left.len() && #[trigger] left[i] == x;
        assert(left[i].host@ == other);
    }
}

/// A kept approval of a host allows it on its port and on no other, and denies it there no more;
/// what is said of other hosts and ports stays said.
pub proof fn law_kept_host_approval<N: Fn(&String) -> String>(
    policy: Policy,
    host: &String,
    port: u16,
    label: &str,
    normalize: &N,
    r: Policy,
    other: Seq<char>,
    at: u16,
)
    requires
        call_ensures(
            persist::persist_network_allow::<N>,
            (policy, host, port, label, normalize),
            r,
        ),
    ensures
        ({
            let named = text::answer(*normalize, *host)@;
            &&& has_host(r.network.direct.allow@, other, at) <==> (other == named && at == port)
                || has_host(policy.network.direct.allow@, other, at)
            &&& has_host(r.network.direct.deny@, other, at) <==> !(other == named && at == port)
                && has_host(policy.network.direct.deny@, other, at)
        }),
        r.network.http == policy.network.http,
        r.filesystem == policy.filesystem,
        r.resources == policy.resources,
        r.dbus == policy.dbus,
        r.sudo == policy.sudo,
{
    lemma_network_kept(
        policy.network.direct.allow@,
        r.network.direct.allow@,
        policy.network.direct.deny@,
        r.network.direct.deny@,
        text::answer(*normalize, *host),
        port,
        label@,
        other,
        at,
    );
}

/// A kept denial of a host denies it on its port and on no other, and allows it there no more;
/// what is said of other hosts and ports stays said.
pub proof fn law_kept_host_denial<N: Fn(&String) -> String>(
    policy: Policy,
    host: &String,
    port: u16,
    label: &str,
    normalize: &N,
    r: Policy,
    other: Seq<char>,
    at: u16,
)
    requires
        call_ensures(
            persist::persist_network_deny::<N>,
            (policy, host, port, label, normalize),
            r,
        ),
    ensures
        ({
            let named = text::answer(*normalize, *host)@;
            &&& has_host(r.network.direct.deny@, other, at) <==> (other == named && at == port)
                || has_host(policy.network.direct.deny@, other, at)
            &&& has_host(r.network.direct.allow@, other, at) <==> !(other == named && at == port)
                && has_host(policy.network.direct.allow@, other, at)
        }),
        r.network.http == policy.network.http,
        r.filesystem == policy.filesystem,
        r.resources == policy.resources,
        r.dbus == policy.dbus,
        r.sudo == policy.sudo,
{
    lemma_network_kept(
        policy.network.direct.deny@,
        r.network.direct.deny@,
        policy.network.direct.allow@,
        r.network.direct.allow@,
        text::answer(*normalize, *host),
        port,
        label@,
        other,
        at,
    );
}

/// A list of command rules has a rule on the command.
pub open spec fn has_command(rules: Seq<SudoRule>, argv: Seq<Seq<char>>) -> bool {
    exists|i: int| 0 <= i < rules.len() && text::texts((#[trigger] rules[i]).argv@) == argv
}

proof fn lemma_last_command(rules: Seq<SudoRule>, argv: Seq<Seq<char>>)
    ensures
        has_command(rules, argv) <==> exists|x: SudoRule| #[trigger]
            persist::is_last(rules, x) && text::texts(x.argv@) == argv,
    decreases rules.len(),
{
    if has_command(rules, argv) {
        let front = rules.drop_last();
        let last = rules.last();
        if text::texts(last.argv@) == argv {
            assert(rules[rules.len() - 1] == last);
            assert(persist::is_last(rules, last));
        } else {
            let i = choose|i: int|
                0 <= i < rules.len() && text::texts((#[trigger] rules[i]).argv@) == argv;
            assert(front[i] == rules[i]);
            lemma_last_command(front, argv);
            let x = choose|x: SudoRule| #[trigger]
                persist::is_last(front, x) && text::texts(x.argv@) == argv;
            let k = choose|k: int|
                0 <= k < front.len() && #[trigger] front[k] == x && forall|j: int|
                    k < j < front.len() ==> (#[trigger] front[j]).key() != x.key();
            assert(rules[k] == x);
            assert forall|j: int| k < j < rules.len() implies (#[trigger] rules[j]).key()
                != x.key() by {
                if j < front.len() {
                    assert(front[j] == rules[j]);
                } else {
                    assert(rules[j] == last);
                }
            }
            assert(persist::is_last(rules, x));
        }
    }
}

proof fn lemma_worded(rules: Seq<SudoRule>, argv: Seq<Seq<char>>)
    requires
        argv.len() > 0,
    ensures
        has_command(persist::others(rules, persist::wordless()), argv) <==> has_command(
            rules,
            argv,
        ),
{
    let worded = persist::others(rules, persist::wordless());
    if has_command(rules, argv) {
        let i = choose|i: int|
            0 <= i < rules.len() && text::texts((#[trigger] rules[i]).argv@) == argv;
        assert(text::texts(rules[i].argv@).len() == rules[i].argv@.len());
        persist::lemma_others(rules, persist::wordless(), rules[i]);
        assert(rules.contains(rules[i]));
        let k = choose|k: int| 0 <= k < worded.len() && worded[k] == rules[i];
        assert(text::texts(worded[k].argv@) == argv);
    }
    if has_command(worded, argv) {
        let i = choose|i: int|
            0 <= i < worded.len() && text::texts((#[trigger] worded[i]).argv@) == argv;
        persist::lemma_others(rules, persist::wordless(), worded[i]);
        assert(worded.contains(worded[i]));
        let k = choose|k: int| 0 <= k < rules.len() && rules[k] == worded[i];
        assert(text::texts(rules[k].argv@) == argv);
    }
}

proof fn lemma_command_kept(
    into: Seq<SudoRule>,
    kept: Seq<SudoRule>,
    out_of: Seq<SudoRule>,
    left: Seq<SudoRule>,
    argv: Seq<String>,
    label: Seq<char>,
    other: Seq<Seq<char>>,
)
    requires
        persist::sudo_persisted(into, kept, out_of, left, argv, label),
        other.len() > 0,
    ensures
        has_command(kept, other) <==> other == text::texts(argv) || has_command(into, other),
        has_command(left, other) <==> other != text::texts(argv) && has_command(out_of, other),
{
    let ours = persist::others(into, persist::wordless());
    let theirs = persist::others(out_of, persist::wordless());
    let rule = choose|rule: SudoRule| #[trigger]
        persist::rule_added(ours, kept, rule) && rule.argv@ == argv && text::opt_text(rule.comment)
            == types::comment_of(label);
    lemma_worded(into, other);
    lemma_worded(out_of, other);
    lemma_last_command(ours, other);
    lemma_last_command(theirs, other);
    assert(sorting::holds_item(kept, rule));
    if has_command(kept, other) {
        let i = choose|i: int|
            0 <= i < kept.len() && text::texts((#[trigger] kept[i]).argv@) == other;
        assert(sorting::holds_item(kept, kept[i]));
    }
    if other == text::texts(argv) {
        let i = choose|i: int| 0 <= i < kept.len() && #[trigger] kept[i] == rule;
        assert(text::texts(kept[i].argv@) == other);
    } else if has_command(into, other) {
        let x = choose|x: SudoRule| #[trigger]
            persist::is_last(ours, x) && text::texts(x.argv@) == other;
        assert(sorting::holds_item(kept, x));
        let i = choose|i: int| 0 <= i < kept.len() && #[trigger] kept[i] == x;
        assert(text::texts(kept[i].argv@) == other);
    }
    if has_command(left, other) {
        let i = choose|i: int|
            0 <= i < left.len() && text::texts((#[trigger] left[i]).argv@) == other;
        assert(sorting::holds_item(left, left[i]));
    }
    if other != text::texts(argv) && has_command(out_of, other) {
        let x = choose|x: SudoRule| #[trigger]
            persist::is_last(theirs, x) && text::texts(x.argv@) == other;
        assert(sorting::holds_item(left, x));
        let i = choose|i: int| 0 <= i < left.len() && #[trigger] left[i] == x;
        assert(text::texts(left[i].argv@) == other);
    }
}

/// A kept approval of a command allows that command, word for word, and denies it no more; a kept
/// denial denies it and allows it no more. What is said of every other command stays said.
pub proof fn law_kept_command_decision(
    policy: Policy,
    argv: &Vec<String>,
    label: &str,
    approved: Policy,
    denied: Policy,
    other: Seq<Seq<char>>,
)
    requires
        call_ensures(persist::persist_sudo_allow, (policy, argv, label), approved),
        call_ensures(persist::persist_sudo_deny, (policy, argv, label), denied),
        other.len() > 0,
    ensures
        has_command(approved.sudo.allow@, other) <==> other == text::texts(argv@) || has_command(
            policy.sudo.allow@,
            other,
        ),
        has_command(approved.sudo.deny@, other) <==> other != text::texts(argv@) && has_command(
            policy.sudo.deny@,
            other,
        ),
        has_command(denied.sudo.deny@, other) <==> other == text::texts(argv@) || has_command(
            policy.sudo.deny@,
            other,
        ),
        has_command(denied.sudo.allow@, other) <==> other != text::texts(argv@) && has_command(
            policy.sudo.allow@,
            other,
        ),
        approved.network == policy.network && denied.network == policy.network,
        approved.filesystem == policy.filesystem && denied.filesystem == policy.filesystem,
        approved.resources == policy.resources && denied.resources == policy.resources,
        approved.dbus == policy.dbus && denied.dbus == policy.dbus,
{
    lemma_command_kept(
        policy.sudo.allow@,
        approved.sudo.allow@,
        policy.sudo.deny@,
        approved.sudo.deny@,
        argv@,
        label@,
        other,
    );
    lemma_command_kept(
        policy.sudo.deny@,
        denied.sudo.deny@,
        policy.sudo.allow@,
        denied.sudo.allow@,
        argv@,
        label@,
        other,
    );
}

/// The methods name the method: no method at all stands for every one.
pub open spec fn names_method(methods: Seq<String>, m: Seq<char>) -> bool {
    methods.len() == 0 || exists|i: int| 0 <= i < methods.len() && (#[trigger] methods[i])@ == m
}

/// A list of HTTP rules has a rule on the URL for the method.
pub open spec fn has_url(rules: Seq<HttpRule>, url: Seq<char>, m: Seq<char>) -> bool {
    exists|i: int|
        0 <= i < rules.len() && text::opt_text((#[trigger] rules[i]).target_url) == Some(url)
            && names_method(rules[i].methods@, m)
}

/// The target names the method.
pub open spec fn targets_method(target: HttpRuleTarget, m: Seq<char>) -> bool {
    match target.method {
        types::HttpMethodMatcher::All => true,
        types::HttpMethodMatcher::Exact(only) => only@ == m,
        types::HttpMethodMatcher::AnyOf(list) => exists|i: int|
            0 <= i < list@.len() && (#[trigger] list@[i])@ == m,
    }
}

proof fn lemma_targets(target: HttpRuleTarget, m: Seq<char>)
    ensures
        targets_method(target, m) <==> (persist::target_methods(target) is None
            || persist::target_methods(target)->0.contains(m)),
{
    if let types::HttpMethodMatcher::AnyOf(list) = target.method {
        if targets_method(target, m) {
            let i = choose|i: int| 0 <= i < list@.len() && (#[trigger] list@[i])@ == m;
            assert(list@[i].key() == m);
        }
        if sorting::holds_key::<String>(list@, m) {
            let i = choose|i: int| 0 <= i < list@.len() && (#[trigger] list@[i]).key() == m;
            assert(list@[i]@ == m);
        }
    }
}

proof fn lemma_names(list: Seq<String>, m: Seq<char>)
    ensures
        names_method(list, m) <==> list.len() == 0 || persist::text_set(list).contains(m),
{
    if list.len() > 0 {
        if names_method(list, m) {
            let i = choose|i: int| 0 <= i < list.len() && (#[trigger] list[i])@ == m;
            assert(list[i].key() == m);
        }
        if sorting::holds_key::<String>(list, m) {
            let i = choose|i: int| 0 <= i < list.len() && (#[trigger] list[i]).key() == m;
            assert(list[i]@ == m);
        }
    }
}

proof fn lemma_url_methods(rules: Seq<HttpRule>, url: Seq<char>, target: HttpRuleTarget, m: Seq<char>)
    ensures
        ({
            let merged = persist::merged_methods(rules, url, persist::target_methods(target));
            (merged is None || merged->0.contains(m)) ==> targets_method(target, m) || has_url(
                rules,
                url,
                m,
            )
        }),
        ({
            let merged = persist::merged_methods(rules, url, persist::target_methods(target));
            targets_method(target, m) || has_url(rules, url, m) ==> merged is None
                || merged->0.contains(m)
        }),
    decreases rules.len(),
{
    lemma_targets(target, m);
    if rules.len() > 0 {
        let front = rules.drop_last();
        let last = rules.last();
        lemma_url_methods(front, url, target, m);
        lemma_names(last.methods@, m);
        if has_url(front, url, m) {
            let i = choose|i: int|
                0 <= i < front.len() && text::opt_text((#[trigger] front[i]).target_url) == Some(
                    url,
                ) && names_method(front[i].methods@, m);
            assert(rules[i] == front[i]);
        }
        if has_url(rules, url, m) && !has_url(front, url, m) {
            let i = choose|i: int|
                0 <= i < rules.len() && text::opt_text((#[trigger] rules[i]).target_url) == Some(
                    url,
                ) && names_method(rules[i].methods@, m);
            if i < front.len() {
                assert(front[i] == rules[i]);
            }
        }
        if persist::on_url(url)(last) && names_method(last.methods@, m) {
            assert(rules[rules.len() - 1] == last);
        }
    }
}

proof fn lemma_url_left(
    before: Seq<HttpRule>,
    after: Seq<HttpRule>,
    target: HttpRuleTarget,
    x: HttpRule,
    m: Seq<char>,
)
    requires
        persist::methods_subtracted(
            before,
            after,
            target.url@,
            persist::target_methods(target),
        ),
    ensures
        text::opt_text(x.target_url) != Some(target.url@) ==> (after.contains(x)
            <==> before.contains(x)),
        target.method is All ==> !has_url(after, target.url@, m),
        !targets_method(target, m) && has_url(before, target.url@, m) ==> has_url(
            after,
            target.url@,
            m,
        ),
        has_url(after, target.url@, m) ==> has_url(before, target.url@, m),
    decreases before.len(),
{
    let url = target.url@;
    lemma_targets(target, m);
    if before.len() > 0 {
        let front = before.drop_last();
        let last = before.last();
        let left = persist::methods_left(
            persist::rule_methods(last),
            persist::target_methods(target),
        );
        let shorter = if persist::on_url(url)(last) && left is None {
            after
        } else {
            after.drop_last()
        };
        lemma_url_left(front, shorter, target, x, m);
        lemma_names(last.methods@, m);
        assert(before =~= front.push(last));
        assert(before.contains(x) <==> front.contains(x) || x == last) by {
            if front.contains(x) || x == last {
                lemma_front(before, x);
            }
            if before.contains(x) {
                let i = choose|i: int| 0 <= i < before.len() && before[i] == x;
                if i < front.len() {
                    assert(front[i] == x);
                }
            }
        }
        assert(has_url(before, url, m) <==> has_url(front, url, m) || (persist::on_url(url)(last)
            && names_method(last.methods@, m))) by {
            if has_url(front, url, m) {
                let i = choose|i: int|
                    0 <= i < front.len() && text::opt_text((#[trigger] front[i]).target_url)
                        == Some(url) && names_method(front[i].methods@, m);
                assert(before[i] == front[i]);
            }
            if persist::on_url(url)(last) && names_method(last.methods@, m) {
                assert(before[before.len() - 1] == last);
            }
            if has_url(before, url, m) {
                let i = choose|i: int|
                    0 <= i < before.len() && text::opt_text((#[trigger] before[i]).target_url)
                        == Some(url) && names_method(before[i].methods@, m);
                if i < front.len() {
                    assert(front[i] == before[i]);
                }
            }
        }
        if shorter != after {
            let new_last = after.last();
            lemma_names(new_last.methods@, m);
            if persist::on_url(url)(last) && left->0 is Some {
                let had = persist::text_set(last.methods@);
                let taken = persist::target_methods(target)->0;
                let other = choose|n: Seq<char>| #[trigger] had.contains(n) && !taken.contains(n);
                assert(had.difference(taken).contains(other));
                assert(sorting::holds_key::<String>(new_last.methods@, other));
            }
            assert(after =~= shorter.push(new_last));
            assert(after.contains(x) <==> shorter.contains(x) || x == new_last) by {
                if shorter.contains(x) || x == new_last {
                    lemma_front(after, x);
                }
                if after.contains(x) {
                    let i = choose|i: int| 0 <= i < after.len() && after[i] == x;
                    if i < shorter.len() {
                        assert(shorter[i] == x);
                    }
                }
            }
            assert(has_url(after, url, m) <==> has_url(shorter, url, m) || (persist::on_url(url)(
                new_last,
            ) && names_method(new_last.methods@, m))) by {
                if has_url(shorter, url, m) {
                    let i = choose|i: int|
                        0 <= i < shorter.len() && text::opt_text((#[trigger] shorter[i]).target_url)
                            == Some(url) && names_method(shorter[i].methods@, m);
                    assert(after[i] == shorter[i]);
                }
                if persist::on_url(url)(new_last) && names_method(new_last.methods@, m) {
                    assert(after[after.len() - 1] == new_last);
                }
                if has_url(after, url, m) {
                    let i = choose|i: int|
                        0 <= i < after.len() && text::opt_text((#[trigger] after[i]).target_url)
                            == Some(url) && names_method(after[i].methods@, m);
                    if i < shorter.len() {
                        assert(shorter[i] == after[i]);
                    }
                }
            }
        }
    }
}

/// Of the rule `x` and the method `m`: the decision on the URL has gone into the one list and out
/// of the other.
pub open spec fn http_decided(
    into: Seq<HttpRule>,
    kept: Seq<HttpRule>,
    out_of: Seq<HttpRule>,
    left: Seq<HttpRule>,
    target: HttpRuleTarget,
    x: HttpRule,
    m: Seq<char>,
) -> bool {
    let url = target.url@;
    &&& targets_method(target, m) || has_url(into, url, m) ==> has_url(kept, url, m)
    &&& (target.method matches types::HttpMethodMatcher::AnyOf(list) ==> list@.len() > 0) ==> (
    has_url(kept, url, m) ==> targets_method(target, m) || has_url(into, url, m))
    &&& has_url(left, url, m) ==> has_url(out_of, url, m)
    &&& !targets_method(target, m) && has_url(out_of, url, m) ==> has_url(left, url, m)
    &&& target.method is All ==> !has_url(left, url, m)
    &&& text::opt_text(x.target_url) != Some(url) ==> {
        &&& kept.contains(x) <==> into.contains(x)
        &&& left.contains(x) <==> out_of.contains(x)
    }
}

/// A kept HTTP decision goes into the list that it is for: its URL has there the methods that it
/// had and those of the decision, and no others where the decision has any. In the other list the URL keeps each method that
/// the decision does not name and gains none; a decision on every method leaves it none. Rules on
/// other URLs stay in both lists, and nothing else of the policy changes.
pub proof fn law_kept_http_decision(
    policy: Policy,
    target: &HttpRuleTarget,
    label: &str,
    allow_rule: bool,
    r: Policy,
    x: HttpRule,
    m: Seq<char>,
)
    requires
        call_ensures(persist::persist_http_rule, (policy, target, label, allow_rule), r),
    ensures
        allow_rule ==> http_decided(
            policy.network.http.allow@,
            r.network.http.allow@,
            policy.network.http.deny@,
            r.network.http.deny@,
            *target,
            x,
            m,
        ),
        !allow_rule ==> http_decided(
            policy.network.http.deny@,
            r.network.http.deny@,
            policy.network.http.allow@,
            r.network.http.allow@,
            *target,
            x,
            m,
        ),
        r.network.direct == policy.network.direct,
        r.filesystem == policy.filesystem,
        r.resources == policy.resources,
        r.dbus == policy.dbus,
        r.sudo == policy.sudo,
{
    let into = if allow_rule { policy.network.http.allow@ } else { policy.network.http.deny@ };
    let kept = if allow_rule { r.network.http.allow@ } else { r.network.http.deny@ };
    let out_of = if allow_rule { policy.network.http.deny@ } else { policy.network.http.allow@ };
    let left = if allow_rule { r.network.http.deny@ } else { r.network.http.allow@ };
    let url = target.url@;
    let selected = persist::target_methods(*target);
    let merged = persist::merged_methods(into, url, selected);
    let rule = choose|rule: HttpRule|
        persist::http_rule_is(rule, url, merged, label@) && kept == #[trigger] persist::placed(
            into,
            persist::on_url(url),
            rule,
        );
    lemma_url_left(out_of, left, *target, x, m);
    lemma_url_methods(into, url, *target, m);
    lemma_names(rule.methods@, m);
    persist::lemma_placed(into, persist::on_url(url), rule, x);
    persist::lemma_placed(into, persist::on_url(url), rule, rule);
    assert(kept.contains(rule));
    if targets_method(*target, m) || has_url(into, url, m) {
        let i = choose|i: int| 0 <= i < kept.len() && kept[i] == rule;
        assert(text::opt_text(kept[i].target_url) == Some(url));
        assert(names_method(kept[i].methods@, m));
    }
    if (target.method matches types::HttpMethodMatcher::AnyOf(list) ==> list@.len() > 0)
        && has_url(kept, url, m) {
        let i = choose|i: int|
            0 <= i < kept.len() && text::opt_text((#[trigger] kept[i]).target_url) == Some(url)
                && names_method(kept[i].methods@, m);
        persist::lemma_placed(into, persist::on_url(url), rule, kept[i]);
        assert(kept.contains(kept[i]));
        assert(kept[i] == rule);
        if merged is Some {
            let n = match target.method {
                types::HttpMethodMatcher::All => m,
                types::HttpMethodMatcher::Exact(only) => only@,
                types::HttpMethodMatcher::AnyOf(list) => list@[0]@,
            };
            assert(targets_method(*target, n));
            lemma_url_methods(into, url, *target, n);
            assert(sorting::holds_key::<String>(rule.methods@, n));
        }
    }
}

/// Methods are joined and taken away as sets are: the join has what either has, what is left has
/// what the first has and the second has not, and nothing is left where the second has all of the
/// first. To take single methods from every method leaves every method.
pub proof fn law_methods_are_sets(
    methods: &mut HttpMethods,
    other: &HttpMethods,
    first: HttpMethods,
    left: Option<HttpMethods>,
    m: Seq<char>,
)
    requires
        call_ensures(HttpMethods::union_with, (methods, other), ()),
        call_ensures(HttpMethods::subtract, (first, other), left),
    ensures
        final(methods).set() is None <==> old(methods).set() is None || other.set() is None,
        final(methods).set() is Some ==> (final(methods).set()->0.contains(m) <==> old(methods).set()->0.contains(m) || other.set()->0.contains(m)),
        other.set() is None ==> left is None,
        first.set() is None && other.set() is Some ==> left is Some && left->0.set() is None,
        first.set() is Some && other.set() is Some && first.set()->0.contains(m)
            && !other.set()->0.contains(m) ==> left is Some && left->0.set() is Some
            && left->0.set()->0.contains(m),
        left is Some && left->0.set() is Some ==> (left->0.set()->0.contains(m)
            ==> first.set()->0.contains(m) && !other.set()->0.contains(m)),
{
    if left is None && first.set() is Some && other.set() is Some {
        assert(!persist::some_left(first.set()->0, other.set()->0));
    }
}

} // verus!
