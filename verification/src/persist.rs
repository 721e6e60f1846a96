//! How decisions change a policy that is kept on disk.

use vstd::prelude::*;

use crate::paths;
use crate::sorting;
use crate::sorting::Keyed;
use crate::text;
use crate::types;
use crate::types::FileAccess;
use crate::types::FilesystemRule;
use crate::types::HttpMethodMatcher;
use crate::types::HttpRule;
use crate::types::HttpRuleTarget;
use crate::types::NetworkPolicy;
use crate::types::NetworkRule;
use crate::types::Policy;
use crate::types::ResourceAccess;
use crate::types::ResourceKind;
use crate::types::ResourceRule;
use crate::types::RuleSet;
use crate::types::SudoRule;

verus! {

/// The rules that the predicate leaves out.
pub open spec fn others<T>(rules: Seq<T>, same: spec_fn(T) -> bool) -> Seq<T>
    decreases rules.len(),
{
    if rules.len() == 0 {
        Seq::empty()
    } else if same(rules.last()) {
        others(rules.drop_last(), same)
    } else {
        others(rules.drop_last(), same).push(rules.last())
    }
}

/// Where among the other rules the first one stood that the predicate picks.
pub open spec fn slot<T>(rules: Seq<T>, same: spec_fn(T) -> bool) -> Option<int>
    decreases rules.len(),
{
    if rules.len() == 0 {
        None
    } else {
        match slot(rules.drop_last(), same) {
            Some(i) => Some(i),
            None => if same(rules.last()) {
                Some(others(rules.drop_last(), same).len() as int)
            } else {
                None
            },
        }
    }
}

/// The rules with one in place of all those that the predicate picks: where the first of them
/// stood, or behind the rest.
pub open spec fn placed<T>(rules: Seq<T>, same: spec_fn(T) -> bool, rule: T) -> Seq<T> {
    match slot(rules, same) {
        Some(i) => others(rules, same).insert(i, rule),
        None => others(rules, same).push(rule),
    }
}

proof fn lemma_slot<T>(rules: Seq<T>, same: spec_fn(T) -> bool)
    ensures
        slot(rules, same) matches Some(i) ==> 0 <= i <= others(rules, same).len(),
    decreases rules.len(),
{
    if rules.len() > 0 {
        lemma_slot(rules.drop_last(), same);
    }
}

/// The others hold exactly the rules that the predicate does not pick.
pub proof fn lemma_others<T>(rules: Seq<T>, same: spec_fn(T) -> bool, rule: T)
    ensures
        others(rules, same).contains(rule) == (rules.contains(rule) && !same(rule)),
    decreases rules.len(),
{
    if rules.len() > 0 {
        let front = rules.drop_last();
        let last = rules.last();
        lemma_others(front, same, rule);
        assert(rules =~= front.push(last));
        assert(rules.contains(rule) == (front.contains(rule) || last == rule)) by {
            if front.contains(rule) {
                let i = choose|i: int| 0 <= i < front.len() && front[i] == rule;
                assert(rules[i] == rule);
            }
            if last == rule {
                assert(rules[rules.len() - 1] == rule);
            }
            if rules.contains(rule) {
                let i = choose|i: int| 0 <= i < rules.len() && rules[i] == rule;
                if i < front.len() {
                    assert(front[i] == rule);
                }
            }
        }
        if !same(last) {
            let o = others(front, same);
            assert(o.push(last).contains(rule) == (o.contains(rule) || last == rule)) by {
                if o.contains(rule) {
                    let i = choose|i: int| 0 <= i < o.len() && o[i] == rule;
                    assert(o.push(last)[i] == rule);
                }
                if last == rule {
                    assert(o.push(last)[o.len() as int] == rule);
                }
                if o.push(last).contains(rule) {
                    let i = choose|i: int| 0 <= i < o.push(last).len() && o.push(last)[i] == rule;
                    if i < o.len() {
                        assert(o[i] == rule);
                    }
                }
            }
        }
    }
}

/// Placing a rule leaves it and the rules that the predicate does not pick, and no other.
pub proof fn lemma_placed<T>(rules: Seq<T>, same: spec_fn(T) -> bool, rule: T, x: T)
    ensures
        placed(rules, same, rule).contains(x) == (x == rule || (rules.contains(x) && !same(x))),
{
    lemma_slot(rules, same);
    lemma_others(rules, same, x);
    let o = others(rules, same);
    let p = placed(rules, same, rule);
    let at = match slot(rules, same) {
        Some(i) => i,
        None => o.len() as int,
    };
    assert(p =~= o.insert(at, rule));
    if x == rule {
        assert(p[at] == x);
    }
    if o.contains(x) {
        let i = choose|i: int| 0 <= i < o.len() && o[i] == x;
        if i < at {
            assert(p[i] == x);
        } else {
            assert(p[i + 1] == x);
        }
    }
    if p.contains(x) && x != rule {
        let i = choose|i: int| 0 <= i < p.len() && p[i] == x;
        if i < at {
            assert(o[i] == x);
        } else {
            assert(o[i - 1] == x);
        }
    }
}

fn place_rule<T>(list: &mut Vec<T>, at: Option<usize>, rule: T)
    requires
        at matches Some(i) ==> i <= old(list)@.len(),
    ensures
        final(list)@ == (match at {
            Some(i) => old(list)@.insert(i as int, rule),
            None => old(list)@.push(rule),
        }),
{
    match at {
        Some(i) => {
            list.insert(i, rule);
        },
        None => {
            list.push(rule);
        },
    }
}

/// The rules on the path with the given key.
pub open spec fn on_path(key: Seq<char>) -> spec_fn(FilesystemRule) -> bool {
    |rule: FilesystemRule| paths::rule_key(rule.path@) == key
}

/// The access together with that of every rule on the path.
pub open spec fn merged_access(
    rules: Seq<FilesystemRule>,
    key: Seq<char>,
    access: FileAccess,
) -> FileAccess
    decreases rules.len(),
{
    if rules.len() == 0 {
        access
    } else {
        let front = merged_access(rules.drop_last(), key, access);
        if on_path(key)(rules.last()) {
            front.joined(rules.last().access)
        } else {
            front
        }
    }
}

/// The rules with one for the path that joins what the rules on it allowed.
pub open spec fn filesystem_upserted(
    before: Seq<FilesystemRule>,
    after: Seq<FilesystemRule>,
    path: String,
    access: FileAccess,
    label: Seq<char>,
) -> bool {
    let key = paths::rule_key(path@);
    exists|comment: Option<String>|
        text::opt_text(comment) == types::comment_of(label) && after == #[trigger] placed(
            before,
            on_path(key),
            FilesystemRule { path, access: merged_access(before, key, access), comment },
        )
}

/// Put a rule for a path in place of the rules on it, with what they allowed joined to it.
pub fn upsert_filesystem_rule(
    rules: &mut Vec<FilesystemRule>,
    rule_path: &String,
    access: FileAccess,
    label: &str,
)
    ensures
        filesystem_upserted(old(rules)@, final(rules)@, *rule_path, access, label@),
{
    let key = paths::path_key(rule_path.as_str());
    let ghost all = rules@;
    let ghost same = on_path(key@);
    let mut merged = access;
    let mut at: Option<usize> = None;
    let mut retained: Vec<FilesystemRule> = Vec::new();
    let ghost mut done: int = 0;
    assert(all.take(0) =~= Seq::empty());
    assert(all.skip(0) =~= all);
    while rules.len() > 0
        invariant
            same == on_path(key@),
            0 <= done <= all.len(),
            rules@ == all.skip(done),
            retained@ == others(all.take(done), same),
            merged == merged_access(all.take(done), key@, access),
            match at {
                Some(i) => slot(all.take(done), same) == Some(i as int),
                None => slot(all.take(done), same) is None,
            },
        decreases rules@.len(),
    {
        let rule = rules.remove(0);
        proof {
            assert(rule == all[done]);
            assert(all.take(done + 1).drop_last() =~= all.take(done));
            assert(all.take(done + 1).last() == rule);
            assert(rules@ =~= all.skip(done + 1));
            done = done + 1;
        }
        if paths::path_key(rule.path.as_str()) == key {
            merged = merged.union(rule.access);
            if at.is_none() {
                at = Some(retained.len());
            }
        } else {
            retained.push(rule);
        }
    }
    proof {
        assert(all.take(done) =~= all);
        lemma_slot(all, same);
    }
    let rule = FilesystemRule::new(rule_path.clone(), merged, label);
    let ghost comment = rule.comment;
    place_rule(&mut retained, at, rule);
    assert(retained@ == placed(
        all,
        same,
        FilesystemRule {
            path: *rule_path,
            access: merged_access(all, key@, access),
            comment,
        },
    ));
    *rules = retained;
}

/// The rules on the path with just the given access.
pub open spec fn on_path_with(key: Seq<char>, access: FileAccess) -> spec_fn(
    FilesystemRule,
) -> bool {
    |rule: FilesystemRule| paths::rule_key(rule.path@) == key && rule.access == access
}

/// Take the rules on a path with just the given access out.
pub fn remove_filesystem_rule(
    rules: &mut Vec<FilesystemRule>,
    rule_path: &String,
    access: FileAccess,
)
    ensures
        final(rules)@ == others(
            old(rules)@,
            on_path_with(paths::rule_key(rule_path@), access),
        ),
{
    let key = paths::path_key(rule_path.as_str());
    let ghost all = rules@;
    let ghost same = on_path_with(key@, access);
    let mut retained: Vec<FilesystemRule> = Vec::new();
    let ghost mut done: int = 0;
    assert(all.take(0) =~= Seq::empty());
    assert(all.skip(0) =~= all);
    while rules.len() > 0
        invariant
            same == on_path_with(key@, access),
            0 <= done <= all.len(),
            rules@ == all.skip(done),
            retained@ == others(all.take(done), same),
        decreases rules@.len(),
    {
        let rule = rules.remove(0);
        proof {
            assert(rule == all[done]);
            assert(all.take(done + 1).drop_last() =~= all.take(done));
            assert(all.take(done + 1).last() == rule);
            assert(rules@ =~= all.skip(done + 1));
            done = done + 1;
        }
        if paths::path_key(rule.path.as_str()) != key || rule.access != access {
            retained.push(rule);
        }
    }
    assert(all.take(done) =~= all);
    *rules = retained;
}

/// A decision on a path has gone into the one list and out of the other, and both are in order.
pub open spec fn filesystem_persisted<L: Fn(&FilesystemRule, &FilesystemRule) -> bool>(
    into: Seq<FilesystemRule>,
    into_after: Seq<FilesystemRule>,
    out_of: Seq<FilesystemRule>,
    out_of_after: Seq<FilesystemRule>,
    path: String,
    access: FileAccess,
    label: Seq<char>,
    less: L,
) -> bool {
    &&& exists|list: Seq<FilesystemRule>| #[trigger]
        filesystem_upserted(into, list, path, access, label) && into_after == sorting::sorted_by(
            list,
            less,
        )
    &&& out_of_after == sorting::sorted_by(
        others(out_of, on_path_with(paths::rule_key(path@), access)),
        less,
    )
}

/// A policy in which files at and below a path are allowed or denied. `less` is the order that
/// rules are kept in.
pub fn persist_filesystem_rule<L: Fn(&FilesystemRule, &FilesystemRule) -> bool>(
    policy: Policy,
    rule_path: &String,
    access: FileAccess,
    label: &str,
    allow_rule: bool,
    less: &L,
) -> (r: Policy)
    requires
        text::decides_pairs(*less),
    ensures
        r == (Policy { filesystem: r.filesystem, ..policy }),
        ({
            let allow = policy.filesystem.allow@;
            let allow_after = r.filesystem.allow@;
            let deny = policy.filesystem.deny@;
            let deny_after = r.filesystem.deny@;
            if allow_rule {
                filesystem_persisted(allow, allow_after, deny, deny_after, *rule_path, access, label@, *less)
            } else {
                filesystem_persisted(deny, deny_after, allow, allow_after, *rule_path, access, label@, *less)
            }
        }),
{
    let mut allow = policy.filesystem.allow;
    let mut deny = policy.filesystem.deny;
    if allow_rule {
        upsert_filesystem_rule(&mut allow, rule_path, access, label);
        remove_filesystem_rule(&mut deny, rule_path, access);
    } else {
        upsert_filesystem_rule(&mut deny, rule_path, access, label);
        remove_filesystem_rule(&mut allow, rule_path, access);
    }
    let ghost lists = (allow@, deny@);
    proof {
        if allow_rule {
            assert(filesystem_upserted(
                policy.filesystem.allow@,
                lists.0,
                *rule_path,
                access,
                label@,
            ));
        } else {
            assert(filesystem_upserted(
                policy.filesystem.deny@,
                lists.1,
                *rule_path,
                access,
                label@,
            ));
        }
    }
    Policy {
        network: policy.network,
        filesystem: RuleSet {
            allow: sorting::sort_by(allow, less),
            deny: sorting::sort_by(deny, less),
        },
        resources: policy.resources,
        sudo: policy.sudo,
        dbus: policy.dbus,
    }
}

/// The rules on the resource at the path with the given key whose access joins with the given
/// one.
pub open spec fn on_resource(
    kind: ResourceKind,
    key: Seq<char>,
    access: ResourceAccess,
) -> spec_fn(ResourceRule) -> bool {
    |rule: ResourceRule|
        rule.kind == kind && paths::rule_key(rule.path@) == key && access.joined(
            rule.access,
        ) is Some
}

/// The access together with that of every rule on the resource.
pub open spec fn merged_resource_access(
    rules: Seq<ResourceRule>,
    kind: ResourceKind,
    key: Seq<char>,
    access: ResourceAccess,
) -> ResourceAccess
    decreases rules.len(),
{
    if rules.len() == 0 {
        access
    } else {
        let front = merged_resource_access(rules.drop_last(), kind, key, access);
        if on_resource(kind, key, access)(rules.last()) {
            front.joined(rules.last().access)->0
        } else {
            front
        }
    }
}

proof fn lemma_merged_kind(
    rules: Seq<ResourceRule>,
    kind: ResourceKind,
    key: Seq<char>,
    access: ResourceAccess,
)
    ensures
        merged_resource_access(rules, kind, key, access) is Socket == access is Socket,
        merged_resource_access(rules, kind, key, access).includes(access),
    decreases rules.len(),
{
    if rules.len() > 0 {
        lemma_merged_kind(rules.drop_last(), kind, key, access);
    }
}

/// The rules with one for the resource that joins what the rules on it allowed.
pub open spec fn resource_upserted(
    before: Seq<ResourceRule>,
    after: Seq<ResourceRule>,
    kind: ResourceKind,
    path: String,
    access: ResourceAccess,
    label: Seq<char>,
) -> bool {
    let key = paths::rule_key(path@);
    exists|comment: Option<String>|
        text::opt_text(comment) == types::comment_of(label) && after == #[trigger] placed(
            before,
            on_resource(kind, key, access),
            ResourceRule {
                kind,
                path,
                access: merged_resource_access(before, kind, key, access),
                comment,
            },
        )
}

/// Put a rule for a resource in place of the rules on it, with what they allowed joined to it.
pub fn upsert_resource_rule(
    rules: &mut Vec<ResourceRule>,
    kind: ResourceKind,
    rule_path: &String,
    access: ResourceAccess,
    label: &str,
)
    ensures
        resource_upserted(old(rules)@, final(rules)@, kind, *rule_path, access, label@),
{
    let key = paths::path_key(rule_path.as_str());
    let ghost all = rules@;
    let ghost same = on_resource(kind, key@, access);
    let mut merged = access;
    let mut at: Option<usize> = None;
    let mut retained: Vec<ResourceRule> = Vec::new();
    let ghost mut done: int = 0;
    assert(all.take(0) =~= Seq::empty());
    assert(all.skip(0) =~= all);
    while rules.len() > 0
        invariant
            same == on_resource(kind, key@, access),
            0 <= done <= all.len(),
            rules@ == all.skip(done),
            retained@ == others(all.take(done), same),
            merged == merged_resource_access(all.take(done), kind, key@, access),
            match at {
                Some(i) => slot(all.take(done), same) == Some(i as int),
                None => slot(all.take(done), same) is None,
            },
        decreases rules@.len(),
    {
        let rule = rules.remove(0);
        proof {
            lemma_merged_kind(all.take(done), kind, key@, access);
            assert(rule == all[done]);
            assert(all.take(done + 1).drop_last() =~= all.take(done));
            assert(all.take(done + 1).last() == rule);
            assert(rules@ =~= all.skip(done + 1));
            done = done + 1;
        }
        let joined = if rule.kind == kind && paths::path_key(rule.path.as_str()) == key {
            merged.union(rule.access)
        } else {
            None
        };
        match joined {
            Some(union) => {
                merged = union;
                if at.is_none() {
                    at = Some(retained.len());
                }
            },
            None => {
                retained.push(rule);
            },
        }
    }
    proof {
        assert(all.take(done) =~= all);
        lemma_slot(all, same);
    }
    let rule = ResourceRule::new(kind, rule_path.clone(), merged, label);
    let ghost comment = rule.comment;
    place_rule(&mut retained, at, rule);
    assert(retained@ == placed(
        all,
        same,
        ResourceRule {
            kind,
            path: *rule_path,
            access: merged_resource_access(all, kind, key@, access),
            comment,
        },
    ));
    *rules = retained;
}

/// The rules on the resource with just the given access.
pub open spec fn on_resource_with(
    kind: ResourceKind,
    key: Seq<char>,
    access: ResourceAccess,
) -> spec_fn(ResourceRule) -> bool {
    |rule: ResourceRule|
        rule.kind == kind && paths::rule_key(rule.path@) == key && rule.access == access
}

/// Take the rules on a resource with just the given access out.
pub fn remove_resource_rule(
    rules: &mut Vec<ResourceRule>,
    kind: ResourceKind,
    rule_path: &String,
    access: ResourceAccess,
)
    ensures
        final(rules)@ == others(
            old(rules)@,
            on_resource_with(kind, paths::rule_key(rule_path@), access),
        ),
{
    let key = paths::path_key(rule_path.as_str());
    let ghost all = rules@;
    let ghost same = on_resource_with(kind, key@, access);
    let mut retained: Vec<ResourceRule> = Vec::new();
    let ghost mut done: int = 0;
    assert(all.take(0) =~= Seq::empty());
    assert(all.skip(0) =~= all);
    while rules.len() > 0
        invariant
            same == on_resource_with(kind, key@, access),
            0 <= done <= all.len(),
            rules@ == all.skip(done),
            retained@ == others(all.take(done), same),
        decreases rules@.len(),
    {
        let rule = rules.remove(0);
        proof {
            assert(rule == all[done]);
            assert(all.take(done + 1).drop_last() =~= all.take(done));
            assert(all.take(done + 1).last() == rule);
            assert(rules@ =~= all.skip(done + 1));
            done = done + 1;
        }
        if rule.kind != kind || paths::path_key(rule.path.as_str()) != key || rule.access
            != access {
            retained.push(rule);
        }
    }
    assert(all.take(done) =~= all);
    *rules = retained;
}

/// A decision on a resource has gone into the one list and out of the other, and both are in
/// order.
pub open spec fn resource_persisted<L: Fn(&ResourceRule, &ResourceRule) -> bool>(
    into: Seq<ResourceRule>,
    into_after: Seq<ResourceRule>,
    out_of: Seq<ResourceRule>,
    out_of_after: Seq<ResourceRule>,
    kind: ResourceKind,
    path: String,
    access: ResourceAccess,
    label: Seq<char>,
    less: L,
) -> bool {
    &&& exists|list: Seq<ResourceRule>| #[trigger]
        resource_upserted(into, list, kind, path, access, label) && into_after
            == sorting::sorted_by(list, less)
    &&& out_of_after == sorting::sorted_by(
        others(out_of, on_resource_with(kind, paths::rule_key(path@), access)),
        less,
    )
}

/// A decision on a resource that is to be kept.
pub struct PersistResourceRuleArgs<'a> {
    pub kind: ResourceKind,
    pub rule_path: &'a String,
    pub access: ResourceAccess,
    pub label: &'a str,
    pub allow_rule: bool,
}

/// A policy in which a resource is allowed or denied. `less` is the order that rules are kept
/// in.
pub fn persist_resource_rule<L: Fn(&ResourceRule, &ResourceRule) -> bool>(
    policy: Policy,
    args: &PersistResourceRuleArgs,
    less: &L,
) -> (r: Policy)
    requires
        text::decides_pairs(*less),
    ensures
        r == (Policy { resources: r.resources, ..policy }),
        ({
            let allow = policy.resources.allow@;
            let allow_after = r.resources.allow@;
            let deny = policy.resources.deny@;
            let deny_after = r.resources.deny@;
            let (into, into_after, out_of, out_of_after) = if args.allow_rule {
                (allow, allow_after, deny, deny_after)
            } else {
                (deny, deny_after, allow, allow_after)
            };
            resource_persisted(
                into,
                into_after,
                out_of,
                out_of_after,
                args.kind,
                *args.rule_path,
                args.access,
                args.label@,
                *less,
            )
        }),
{
    let PersistResourceRuleArgs { kind, rule_path, access, label, allow_rule } = *args;
    let mut allow = policy.resources.allow;
    let mut deny = policy.resources.deny;
    if allow_rule {
        upsert_resource_rule(&mut allow, kind, rule_path, access, label);
        remove_resource_rule(&mut deny, kind, rule_path, access);
    } else {
        upsert_resource_rule(&mut deny, kind, rule_path, access, label);
        remove_resource_rule(&mut allow, kind, rule_path, access);
    }
    let ghost lists = (allow@, deny@);
    proof {
        if allow_rule {
            assert(resource_upserted(
                policy.resources.allow@,
                lists.0,
                kind,
                *rule_path,
                access,
                label@,
            ));
        } else {
            assert(resource_upserted(
                policy.resources.deny@,
                lists.1,
                kind,
                *rule_path,
                access,
                label@,
            ));
        }
    }
    Policy {
        network: policy.network,
        filesystem: policy.filesystem,
        resources: RuleSet {
            allow: sorting::sort_by(allow, less),
            deny: sorting::sort_by(deny, less),
        },
        sudo: policy.sudo,
        dbus: policy.dbus,
    }
}

/// The item is the last one of the list under its key.
pub open spec fn is_last<T: Keyed>(list: Seq<T>, item: T) -> bool {
    exists|i: int|
        0 <= i < list.len() && #[trigger] list[i] == item && forall|j: int|
            i < j < list.len() ==> (#[trigger] list[j]).key() != item.key()
}

/// The second list holds, in the order of their keys, the last item of the first under each.
pub open spec fn indexed<T: Keyed>(before: Seq<T>, after: Seq<T>) -> bool {
    &&& sorting::rising(after)
    &&& forall|other: T| #[trigger] sorting::holds_item(after, other) == is_last(before, other)
}

/// The second list holds the item and, under the other keys, the last item of the first, in the
/// order of their keys.
pub open spec fn rule_added<T: Keyed>(before: Seq<T>, after: Seq<T>, item: T) -> bool {
    &&& sorting::rising(after)
    &&& forall|other: T| #[trigger]
        sorting::holds_item(after, other) == (other == item || (other.key() != item.key()
            && is_last(before, other)))
}

/// The second list holds, under the keys other than the given one, the last item of the first,
/// in the order of their keys.
pub open spec fn rule_dropped<T: Keyed>(before: Seq<T>, after: Seq<T>, key: T::K) -> bool {
    &&& sorting::rising(after)
    &&& forall|other: T| #[trigger]
        sorting::holds_item(after, other) == (other.key() != key && is_last(before, other))
}

proof fn lemma_last_step<T: Keyed>(list: Seq<T>, item: T, other: T)
    ensures
        is_last(list.push(item), other) == (other == item || (other.key() != item.key()
            && is_last(list, other))),
{
    let longer = list.push(item);
    if other == item {
        assert(longer[list.len() as int] == item);
    }
    if other.key() != item.key() && is_last(list, other) {
        let i = choose|i: int|
            0 <= i < list.len() && #[trigger] list[i] == other && forall|j: int|
                i < j < list.len() ==> (#[trigger] list[j]).key() != other.key();
        assert(longer[i] == other);
        assert forall|j: int| i < j < longer.len() implies (#[trigger] longer[j]).key()
            != other.key() by {
            if j < list.len() {
                assert(longer[j] == list[j]);
            }
        }
    }
    if is_last(longer, other) && other != item {
        let i = choose|i: int|
            0 <= i < longer.len() && #[trigger] longer[i] == other && forall|j: int|
                i < j < longer.len() ==> (#[trigger] longer[j]).key() != other.key();
        assert(i < list.len());
        assert(longer[list.len() as int] == item);
        assert(list[i] == other);
        assert forall|j: int| i < j < list.len() implies (#[trigger] list[j]).key()
            != other.key() by {
            assert(longer[j] == list[j]);
        }
    }
}

fn index_rules<T: Keyed>(list: Vec<T>) -> (r: Vec<T>)
    ensures
        indexed(list@, r@),
{
    let ghost all = list@;
    let mut list = list;
    let mut r: Vec<T> = Vec::new();
    let ghost mut done: int = 0;
    assert(all.skip(0) =~= all);
    while list.len() > 0
        invariant
            0 <= done <= all.len(),
            list@ == all.skip(done),
            indexed(all.take(done), r@),
        decreases list@.len(),
    {
        let ghost before = r@;
        let item = list.remove(0);
        proof {
            assert(item == all[done]);
            assert(list@ =~= all.skip(done + 1));
            assert(all.take(done + 1) =~= all.take(done).push(item));
        }
        sorting::put(&mut r, item);
        proof {
            assert forall|other: T| #[trigger]
                sorting::holds_item(r@, other) == is_last(all.take(done + 1), other) by {
                lemma_last_step(all.take(done), item, other);
                assert(sorting::holds_item(before, other) == is_last(all.take(done), other));
            }
            done = done + 1;
        }
    }
    assert(all.take(done) =~= all);
    r
}

fn add_rule<T: Keyed>(list: Vec<T>, item: T) -> (r: Vec<T>)
    ensures
        rule_added(list@, r@, item),
{
    let ghost all = list@;
    let mut r = index_rules(list);
    let ghost mid = r@;
    sorting::put(&mut r, item);
    proof {
        assert forall|other: T| #[trigger]
            sorting::holds_item(r@, other) == (other == item || (other.key() != item.key()
                && is_last(all, other))) by {
            assert(sorting::holds_item(mid, other) == is_last(all, other));
        }
    }
    r
}

fn drop_rule<T: Keyed>(list: Vec<T>, like: &T) -> (r: Vec<T>)
    ensures
        rule_dropped(list@, r@, like.key()),
{
    let ghost all = list@;
    let mut r = index_rules(list);
    let ghost mid = r@;
    sorting::drop_key(&mut r, like);
    proof {
        assert forall|other: T| #[trigger]
            sorting::holds_item(r@, other) == (other.key() != like.key() && is_last(
                all,
                other,
            )) by {
            assert(sorting::holds_item(mid, other) == is_last(all, other));
        }
    }
    r
}

/// A network decision has gone into the one list and out of the other.
pub open spec fn network_persisted(
    into: Seq<NetworkRule>,
    into_after: Seq<NetworkRule>,
    out_of: Seq<NetworkRule>,
    out_of_after: Seq<NetworkRule>,
    host: String,
    port: u16,
    label: Seq<char>,
) -> bool {
    &&& exists|comment: Option<String>|
        text::opt_text(comment) == types::comment_of(label) && #[trigger] rule_added(
            into,
            into_after,
            NetworkRule { host, port, comment },
        )
    &&& rule_dropped(out_of, out_of_after, (host@, port))
}

fn persist_network_rule<N: Fn(&String) -> String>(
    policy: Policy,
    host: &String,
    port: u16,
    label: &str,
    allow_rule: bool,
    normalize: &N,
) -> (r: Policy)
    requires
        text::determined(*normalize),
    ensures
        r == (Policy {
            network: NetworkPolicy { direct: r.network.direct, ..policy.network },
            ..policy
        }),
        ({
            let allow = policy.network.direct.allow@;
            let allow_after = r.network.direct.allow@;
            let deny = policy.network.direct.deny@;
            let deny_after = r.network.direct.deny@;
            let host = text::answer(*normalize, *host);
            if allow_rule {
                network_persisted(allow, allow_after, deny, deny_after, host, port, label@)
            } else {
                network_persisted(deny, deny_after, allow, allow_after, host, port, label@)
            }
        }),
{
    let host_norm = normalize(host);
    assert(host_norm == text::answer(*normalize, *host));
    let rule = NetworkRule::new(host_norm, port, label);
    let ghost named = NetworkRule {
        host: text::answer(*normalize, *host),
        port,
        comment: rule.comment,
    };
    let direct = policy.network.direct;
    let direct = if allow_rule {
        let deny = drop_rule(direct.deny, &rule);
        RuleSet { allow: add_rule(direct.allow, rule), deny }
    } else {
        let allow = drop_rule(direct.allow, &rule);
        RuleSet { allow, deny: add_rule(direct.deny, rule) }
    };
    proof {
        if allow_rule {
            assert(rule_added(policy.network.direct.allow@, direct.allow@, named));
        } else {
            assert(rule_added(policy.network.direct.deny@, direct.deny@, named));
        }
    }
    Policy {
        network: NetworkPolicy { direct, http: policy.network.http },
        filesystem: policy.filesystem,
        resources: policy.resources,
        sudo: policy.sudo,
        dbus: policy.dbus,
    }
}

/// A policy in which a host and port are allowed. `normalize` gives the form that rules name a
/// host in.
pub fn persist_network_allow<N: Fn(&String) -> String>(
    policy: Policy,
    host: &String,
    port: u16,
    label: &str,
    normalize: &N,
) -> (r: Policy)
    requires
        text::determined(*normalize),
    ensures
        r == (Policy {
            network: NetworkPolicy { direct: r.network.direct, ..policy.network },
            ..policy
        }),
        network_persisted(
            policy.network.direct.allow@,
            r.network.direct.allow@,
            policy.network.direct.deny@,
            r.network.direct.deny@,
            text::answer(*normalize, *host),
            port,
            label@,
        ),
{
    persist_network_rule(policy, host, port, label, true, normalize)
}

/// A policy in which a host and port are denied. `normalize` gives the form that rules name a
/// host in.
pub fn persist_network_deny<N: Fn(&String) -> String>(
    policy: Policy,
    host: &String,
    port: u16,
    label: &str,
    normalize: &N,
) -> (r: Policy)
    requires
        text::determined(*normalize),
    ensures
        r == (Policy {
            network: NetworkPolicy { direct: r.network.direct, ..policy.network },
            ..policy
        }),
        network_persisted(
            policy.network.direct.deny@,
            r.network.direct.deny@,
            policy.network.direct.allow@,
            r.network.direct.allow@,
            text::answer(*normalize, *host),
            port,
            label@,
        ),
{
    persist_network_rule(policy, host, port, label, false, normalize)
}

/// The rules on no command at all.
pub open spec fn wordless() -> spec_fn(SudoRule) -> bool {
    |rule: SudoRule| rule.argv@.len() == 0
}

/// A decision on a command has gone into the one list and out of the other. Rules on no command
/// leave both.
pub open spec fn sudo_persisted(
    into: Seq<SudoRule>,
    into_after: Seq<SudoRule>,
    out_of: Seq<SudoRule>,
    out_of_after: Seq<SudoRule>,
    argv: Seq<String>,
    label: Seq<char>,
) -> bool {
    &&& exists|rule: SudoRule| #[trigger]
        rule_added(others(into, wordless()), into_after, rule) && rule.argv@ == argv
            && text::opt_text(rule.comment) == types::comment_of(label)
    &&& rule_dropped(others(out_of, wordless()), out_of_after, text::texts(argv))
}

fn with_words(list: Vec<SudoRule>) -> (r: Vec<SudoRule>)
    ensures
        r@ == others(list@, wordless()),
{
    let ghost all = list@;
    let mut list = list;
    let mut r: Vec<SudoRule> = Vec::new();
    let ghost mut done: int = 0;
    assert(all.take(0) =~= Seq::empty());
    assert(all.skip(0) =~= all);
    while list.len() > 0
        invariant
            0 <= done <= all.len(),
            list@ == all.skip(done),
            r@ == others(all.take(done), wordless()),
        decreases list@.len(),
    {
        let rule = list.remove(0);
        proof {
            assert(rule == all[done]);
            assert(all.take(done + 1).drop_last() =~= all.take(done));
            assert(all.take(done + 1).last() == rule);
            assert(list@ =~= all.skip(done + 1));
            done = done + 1;
        }
        if rule.argv.len() > 0 {
            r.push(rule);
        }
    }
    assert(all.take(done) =~= all);
    r
}

fn persist_sudo_rule(policy: Policy, argv: &Vec<String>, label: &str, allow_rule: bool) -> (r:
    Policy)
    ensures
        r == (Policy { sudo: r.sudo, ..policy }),
        ({
            let allow = policy.sudo.allow@;
            let allow_after = r.sudo.allow@;
            let deny = policy.sudo.deny@;
            let deny_after = r.sudo.deny@;
            if allow_rule {
                sudo_persisted(allow, allow_after, deny, deny_after, argv@, label@)
            } else {
                sudo_persisted(deny, deny_after, allow, allow_after, argv@, label@)
            }
        }),
{
    let rule = SudoRule::new(text::copy_texts(argv), label);
    let ghost named = rule;
    let allow = with_words(policy.sudo.allow);
    let deny = with_words(policy.sudo.deny);
    let sudo = if allow_rule {
        let deny = drop_rule(deny, &rule);
        RuleSet { allow: add_rule(allow, rule), deny }
    } else {
        let allow = drop_rule(allow, &rule);
        RuleSet { allow, deny: add_rule(deny, rule) }
    };
    proof {
        assert(named.key() == text::texts(argv@));
        if allow_rule {
            assert(rule_added(others(policy.sudo.allow@, wordless()), sudo.allow@, named));
        } else {
            assert(rule_added(others(policy.sudo.deny@, wordless()), sudo.deny@, named));
        }
    }
    Policy {
        network: policy.network,
        filesystem: policy.filesystem,
        resources: policy.resources,
        sudo,
        dbus: policy.dbus,
    }
}

/// A policy in which commands that start with the words are allowed.
pub fn persist_sudo_allow(policy: Policy, argv: &Vec<String>, label: &str) -> (r: Policy)
    ensures
        r == (Policy { sudo: r.sudo, ..policy }),
        sudo_persisted(
            policy.sudo.allow@,
            r.sudo.allow@,
            policy.sudo.deny@,
            r.sudo.deny@,
            argv@,
            label@,
        ),
{
    persist_sudo_rule(policy, argv, label, true)
}

/// A policy in which commands that start with the words are denied.
pub fn persist_sudo_deny(policy: Policy, argv: &Vec<String>, label: &str) -> (r: Policy)
    ensures
        r == (Policy { sudo: r.sudo, ..policy }),
        sudo_persisted(
            policy.sudo.deny@,
            r.sudo.deny@,
            policy.sudo.allow@,
            r.sudo.allow@,
            argv@,
            label@,
        ),
{
    persist_sudo_rule(policy, argv, label, false)
}

/// The methods that a rule or a decision speaks of: none stands for every method.
pub type MethodSet = Option<Set<Seq<char>>>;

/// The texts of a list, as a set.
pub open spec fn text_set(list: Seq<String>) -> Set<Seq<char>> {
    Set::new(|m: Seq<char>| sorting::holds_key::<String>(list, m))
}

/// The methods that a rule speaks of.
pub open spec fn rule_methods(rule: HttpRule) -> MethodSet {
    if rule.methods@.len() == 0 {
        None
    } else {
        Some(text_set(rule.methods@))
    }
}

/// The methods that a decision speaks of.
pub open spec fn target_methods(target: HttpRuleTarget) -> MethodSet {
    match target.method {
        HttpMethodMatcher::All => None,
        HttpMethodMatcher::Exact(m) => Some(set![m@]),
        HttpMethodMatcher::AnyOf(list) => Some(text_set(list@)),
    }
}

/// The methods of either.
pub open spec fn methods_union(a: MethodSet, b: MethodSet) -> MethodSet {
    match (a, b) {
        (Some(x), Some(y)) => Some(x.union(y)),
        _ => None,
    }
}

/// Some method is left when others are taken away.
pub open spec fn some_left(current: Set<Seq<char>>, selected: Set<Seq<char>>) -> bool {
    exists|m: Seq<char>| #[trigger] current.contains(m) && !selected.contains(m)
}

/// What is left of the methods of a rule when others are taken away: nothing where they all
/// are. A rule on every method stays one, unless every method is taken away.
pub open spec fn methods_left(current: MethodSet, selected: MethodSet) -> Option<MethodSet> {
    match (current, selected) {
        (_, None) => None,
        (None, Some(_)) => Some(None),
        (Some(c), Some(s)) => if some_left(c, s) {
            Some(Some(c.difference(s)))
        } else {
            None
        },
    }
}

/// The list writes the methods down, in their order; an empty one stands for every method.
pub open spec fn writes_methods(list: Seq<String>, methods: MethodSet) -> bool {
    match methods {
        None => list.len() == 0,
        Some(s) => sorting::rising(list) && text_set(list) == s,
    }
}

/// The methods that a rule or a decision speaks of.
#[derive(Debug, PartialEq, Eq)]
pub enum HttpMethods {
    All,
    /// These, each once and in their order.
    Only(Vec<String>),
}

impl HttpMethods {
    /// The methods, whatever the order in which they are kept.
    pub open spec fn set(&self) -> MethodSet {
        match self {
            HttpMethods::All => None,
            HttpMethods::Only(list) => Some(text_set(list@)),
        }
    }

    pub open spec fn wf(&self) -> bool {
        match self {
            HttpMethods::All => true,
            HttpMethods::Only(list) => sorting::rising(list@),
        }
    }

    /// The methods that a decision is about.
    pub fn from_target(target: &HttpRuleTarget) -> (r: Self)
        ensures
            r.wf(),
            r.set() == target_methods(*target),
    {
        match &target.method {
            HttpMethodMatcher::All => HttpMethods::All,
            HttpMethodMatcher::Exact(method) => {
                let mut list: Vec<String> = Vec::new();
                list.push(method.clone());
                proof {
                    assert forall|m: Seq<char>|
                        text_set(list@).contains(m) == set![method@].contains(m) by {
                        if m == method@ {
                            assert(list@[0].key() == m);
                        }
                    }
                    assert(text_set(list@) =~= set![method@]);
                }
                HttpMethods::Only(list)
            },
            HttpMethodMatcher::AnyOf(methods) => HttpMethods::Only(collect(methods)),
        }
    }

    /// The methods that a rule covers.
    pub fn from_rule(rule: &HttpRule) -> (r: Self)
        ensures
            r.wf(),
            r.set() == rule_methods(*rule),
    {
        if rule.methods.len() == 0 {
            HttpMethods::All
        } else {
            HttpMethods::Only(collect(&rule.methods))
        }
    }

    /// Take in the methods of the other.
    pub fn union_with(&mut self, other: &HttpMethods)
        requires
            old(self).wf(),
        ensures
            final(self).wf(),
            final(self).set() == methods_union(old(self).set(), other.set()),
    {
        match other {
            HttpMethods::All => {
                *self = HttpMethods::All;
            },
            HttpMethods::Only(more) => match self {
                HttpMethods::All => {},
                HttpMethods::Only(current) => {
                    let ghost start = text_set(current@);
                    extend(current, more);
                    assert(text_set(current@) =~= start.union(text_set(more@)));
                },
            },
        }
    }

    /// What is left when the selected methods are taken away.
    pub fn subtract(self, selected: &HttpMethods) -> (r: Option<Self>)
        requires
            self.wf(),
        ensures
            match r {
                Some(left) => left.wf() && methods_left(self.set(), selected.set()) == Some(
                    left.set(),
                ),
                None => methods_left(self.set(), selected.set()) is None,
            },
    {
        match (self, selected) {
            (_, HttpMethods::All) => None,
            (HttpMethods::All, HttpMethods::Only(_)) => Some(HttpMethods::All),
            (HttpMethods::Only(current), HttpMethods::Only(gone)) => {
                let left = difference(current, gone);
                if left.len() == 0 {
                    proof {
                        assert forall|m: Seq<char>|
                            !(#[trigger] text_set(current@).contains(m) && !text_set(
                                gone@,
                            ).contains(m)) by {
                            if text_set(current@).contains(m) && !text_set(gone@).contains(m) {
                                assert(text_set(left@).contains(m));
                            }
                        }
                    }
                    None
                } else {
                    proof {
                        let m = left@[0]@;
                        assert(left@[0].key() == m);
                        assert(text_set(left@).contains(m));
                        assert(text_set(current@).contains(m) && !text_set(gone@).contains(m));
                        assert(some_left(text_set(current@), text_set(gone@)));
                        assert(text_set(left@) =~= text_set(current@).difference(
                            text_set(gone@),
                        ));
                    }
                    Some(HttpMethods::Only(left))
                }
            },
        }
    }

    /// The list that a rule writes the methods down in.
    pub fn into_methods(self) -> (r: Vec<String>)
        requires
            self.wf(),
        ensures
            writes_methods(r@, self.set()),
    {
        match self {
            HttpMethods::All => Vec::new(),
            HttpMethods::Only(list) => list,
        }
    }
}

/// The methods of either do not depend on which of the two takes in the other.
pub proof fn law_union_commutes(a: MethodSet, b: MethodSet)
    ensures
        methods_union(a, b) == methods_union(b, a),
{
    if let (Some(x), Some(y)) = (a, b) {
        assert(x.union(y) =~= y.union(x));
    }
}

/// The methods of any of three do not depend on which two are joined first.
pub proof fn law_union_associates(a: MethodSet, b: MethodSet, c: MethodSet)
    ensures
        methods_union(methods_union(a, b), c) == methods_union(a, methods_union(b, c)),
{
    if let (Some(x), Some(y), Some(z)) = (a, b, c) {
        assert(x.union(y).union(z) =~= x.union(y.union(z)));
    }
}

/// Methods are written down in one way only: a rule reads the same whatever the order in which
/// the decisions that it joins were made.
pub proof fn law_methods_are_written_one_way(a: Seq<String>, b: Seq<String>, methods: MethodSet)
    requires
        writes_methods(a, methods),
        writes_methods(b, methods),
    ensures
        text::texts(a) == text::texts(b),
{
    if methods is Some {
        assert forall|key: Seq<char>|
            sorting::holds_key::<String>(a, key) == #[trigger] sorting::holds_key::<String>(
                b,
                key,
            ) by {
            assert(text_set(a).contains(key) == text_set(b).contains(key));
        }
        sorting::law_rising_is_one_order(a, b);
        assert forall|i: int| 0 <= i < a.len() implies text::texts(a)[i] == text::texts(b)[i] by {
            assert(a[i].key() == b[i].key());
        }
    }
    assert(text::texts(a) =~= text::texts(b));
}

/// To take in the same methods again adds none, nor does taking in none; and nothing is added to
/// every method.
pub proof fn law_union_repeats_nothing(a: MethodSet)
    ensures
        methods_union(a, a) == a,
        methods_union(a, Some(Set::empty())) == a,
        methods_union(a, None) == None::<Set<Seq<char>>>,
{
    if let Some(x) = a {
        assert(x.union(x) =~= x);
        assert(x.union(Set::empty()) =~= x);
    }
}

proof fn lemma_put_text(before: Seq<String>, after: Seq<String>, item: String)
    requires
        sorting::item_put(before, after, item),
    ensures
        text_set(after) == text_set(before).insert(item@),
{
    assert forall|m: Seq<char>|
        text_set(after).contains(m) == text_set(before).insert(item@).contains(m) by {
        if text_set(after).contains(m) {
            let i = choose|i: int| 0 <= i < after.len() && (#[trigger] after[i]).key() == m;
            assert(sorting::holds_item(after, after[i]));
            if after[i] != item {
                let j = choose|j: int| 0 <= j < before.len() && #[trigger] before[j] == after[i];
                assert(before[j].key() == m);
            }
        }
        if m == item@ {
            let i = choose|i: int| 0 <= i < after.len() && #[trigger] after[i] == item;
            assert(after[i].key() == m);
        } else if text_set(before).contains(m) {
            let j = choose|j: int| 0 <= j < before.len() && (#[trigger] before[j]).key() == m;
            assert(sorting::holds_item(before, before[j]));
            let i = choose|i: int| 0 <= i < after.len() && #[trigger] after[i] == before[j];
            assert(after[i].key() == m);
        }
    }
    assert(text_set(after) =~= text_set(before).insert(item@));
}

fn extend(list: &mut Vec<String>, more: &Vec<String>)
    requires
        sorting::rising(old(list)@),
    ensures
        sorting::rising(final(list)@),
        text_set(final(list)@) == text_set(old(list)@).union(text_set(more@)),
{
    let ghost start = text_set(list@);
    let mut i: usize = 0;
    assert(start.union(text_set(more@.take(0))) =~= start);
    while i < more.len()
        invariant
            i <= more@.len(),
            sorting::rising(list@),
            text_set(list@) == start.union(text_set(more@.take(i as int))),
        decreases more@.len() - i,
    {
        let ghost before = list@;
        let item = more[i].clone();
        sorting::put(list, item);
        proof {
            lemma_put_text(before, list@, item);
            let a = more@.take(i as int);
            let b = more@.take(i + 1);
            assert forall|m: Seq<char>|
                start.union(text_set(b)).contains(m) == text_set(before).insert(item@).contains(
                    m,
                ) by {
                if text_set(b).contains(m) {
                    let j = choose|j: int| 0 <= j < b.len() && (#[trigger] b[j]).key() == m;
                    if j < i {
                        assert(a[j].key() == m);
                    }
                }
                if m == item@ {
                    assert(b[i as int].key() == m);
                }
                if text_set(a).contains(m) {
                    let j = choose|j: int| 0 <= j < a.len() && (#[trigger] a[j]).key() == m;
                    assert(b[j].key() == m);
                }
            }
            assert(text_set(list@) =~= start.union(text_set(b)));
        }
        i += 1;
    }
    assert(more@.take(more@.len() as int) =~= more@);
}

fn collect(list: &Vec<String>) -> (r: Vec<String>)
    ensures
        sorting::rising(r@),
        text_set(r@) == text_set(list@),
{
    let mut r: Vec<String> = Vec::new();
    let ghost empty = r@;
    extend(&mut r, list);
    assert(text_set(empty).union(text_set(list@)) =~= text_set(list@));
    r
}

fn difference(current: Vec<String>, gone: &Vec<String>) -> (r: Vec<String>)
    requires
        sorting::rising(current@),
    ensures
        sorting::rising(r@),
        forall|m: Seq<char>| #[trigger]
            text_set(r@).contains(m) == (text_set(current@).contains(m) && !text_set(
                gone@,
            ).contains(m)),
{
    let mut r: Vec<String> = Vec::new();
    let mut i: usize = 0;
    while i < current.len()
        invariant
            i <= current@.len(),
            sorting::rising(r@),
            forall|m: Seq<char>| #[trigger]
                text_set(r@).contains(m) == (text_set(current@.take(i as int)).contains(m)
                    && !text_set(gone@).contains(m)),
        decreases current@.len() - i,
    {
        let ghost before = r@;
        let ghost a = current@.take(i as int);
        let ghost b = current@.take(i + 1);
        proof {
            assert forall|m: Seq<char>|
                text_set(b).contains(m) == (text_set(a).contains(m) || m
                    == current@[i as int]@) by {
                if text_set(b).contains(m) {
                    let j = choose|j: int| 0 <= j < b.len() && (#[trigger] b[j]).key() == m;
                    if j < i {
                        assert(a[j].key() == m);
                    }
                }
                if m == current@[i as int]@ {
                    assert(b[i as int].key() == m);
                }
                if text_set(a).contains(m) {
                    let j = choose|j: int| 0 <= j < a.len() && (#[trigger] a[j]).key() == m;
                    assert(b[j].key() == m);
                }
            }
            lemma_text_set(gone@, current@[i as int]@);
        }
        if !text::contains_text(gone, &current[i]) {
            let item = current[i].clone();
            sorting::put(&mut r, item);
            proof {
                lemma_put_text(before, r@, item);
            }
        }
        i += 1;
    }
    assert(current@.take(current@.len() as int) =~= current@);
    r
}

proof fn lemma_text_set(list: Seq<String>, m: Seq<char>)
    ensures
        text_set(list).contains(m) == text::texts(list).contains(m),
{
    if text_set(list).contains(m) {
        let j = choose|j: int| 0 <= j < list.len() && (#[trigger] list[j]).key() == m;
        assert(text::texts(list)[j] == m);
    }
    if text::texts(list).contains(m) {
        let j = choose|j: int| 0 <= j < text::texts(list).len() && text::texts(list)[j] == m;
        assert(list[j].key() == m);
    }
}

/// The rules on the URL.
pub open spec fn on_url(url: Seq<char>) -> spec_fn(HttpRule) -> bool {
    |rule: HttpRule| text::opt_text(rule.target_url) == Some(url)
}

fn same_http_url(rule: &HttpRule, url: &String) -> (r: bool)
    ensures
        r == on_url(url@)(*rule),
{
    match &rule.target_url {
        Some(named) => *named == *url,
        None => false,
    }
}

/// The rule with the methods written down anew.
pub open spec fn rewritten(before: HttpRule, after: HttpRule, methods: MethodSet) -> bool {
    &&& after == (HttpRule { methods: after.methods, ..before })
    &&& writes_methods(after.methods@, methods)
}

/// The rules with the methods taken away from those on the URL.
pub open spec fn methods_subtracted(
    before: Seq<HttpRule>,
    after: Seq<HttpRule>,
    url: Seq<char>,
    selected: MethodSet,
) -> bool
    decreases before.len(),
{
    if before.len() == 0 {
        after.len() == 0
    } else if !on_url(url)(before.last()) {
        &&& after.len() > 0
        &&& after.last() == before.last()
        &&& methods_subtracted(before.drop_last(), after.drop_last(), url, selected)
    } else {
        match methods_left(rule_methods(before.last()), selected) {
            None => methods_subtracted(before.drop_last(), after, url, selected),
            Some(left) => {
                &&& after.len() > 0
                &&& rewritten(before.last(), after.last(), left)
                &&& methods_subtracted(before.drop_last(), after.drop_last(), url, selected)
            },
        }
    }
}

fn subtract_http_methods(rules: Vec<HttpRule>, url: &String, selected: &HttpMethods) -> (r: Vec<
    HttpRule,
>)
    ensures
        methods_subtracted(rules@, r@, url@, selected.set()),
{
    let ghost all = rules@;
    let mut rules = rules;
    let mut retained: Vec<HttpRule> = Vec::new();
    let ghost mut done: int = 0;
    assert(all.skip(0) =~= all);
    while rules.len() > 0
        invariant
            0 <= done <= all.len(),
            rules@ == all.skip(done),
            methods_subtracted(all.take(done), retained@, url@, selected.set()),
        decreases rules@.len(),
    {
        let ghost before = retained@;
        let rule = rules.remove(0);
        proof {
            assert(rule == all[done]);
            assert(all.take(done + 1).drop_last() =~= all.take(done));
            assert(all.take(done + 1).last() == rule);
            assert(rules@ =~= all.skip(done + 1));
            done = done + 1;
        }
        if !same_http_url(&rule, url) {
            retained.push(rule);
            assert(retained@.drop_last() =~= before);
        } else if let Some(left) = HttpMethods::from_rule(&rule).subtract(selected) {
            retained.push(
                HttpRule {
                    methods: left.into_methods(),
                    url: rule.url,
                    comment: rule.comment,
                    target_url: rule.target_url,
                },
            );
            assert(retained@.drop_last() =~= before);
        }
    }
    assert(all.take(done) =~= all);
    retained
}

/// The methods together with those of every rule on the URL.
pub open spec fn merged_methods(
    rules: Seq<HttpRule>,
    url: Seq<char>,
    selected: MethodSet,
) -> MethodSet
    decreases rules.len(),
{
    if rules.len() == 0 {
        selected
    } else {
        let front = merged_methods(rules.drop_last(), url, selected);
        if on_url(url)(rules.last()) {
            methods_union(front, rule_methods(rules.last()))
        } else {
            front
        }
    }
}

/// The rule speaks of the URL and the methods.
pub open spec fn http_rule_is(
    rule: HttpRule,
    url: Seq<char>,
    methods: MethodSet,
    label: Seq<char>,
) -> bool {
    &&& writes_methods(rule.methods@, methods)
    &&& rule.url@ == url
    &&& text::opt_text(rule.target_url) == Some(url)
    &&& text::opt_text(rule.comment) == types::comment_of(label)
}

/// The rules with one for the URL that joins the methods of the rules on it.
pub open spec fn methods_joined(
    before: Seq<HttpRule>,
    after: Seq<HttpRule>,
    url: Seq<char>,
    selected: MethodSet,
    label: Seq<char>,
) -> bool {
    exists|rule: HttpRule|
        http_rule_is(rule, url, merged_methods(before, url, selected), label) && after
            == #[trigger] placed(before, on_url(url), rule)
}

fn union_http_methods(rules: Vec<HttpRule>, url: &String, selected: HttpMethods, label: &str) -> (r:
    Vec<HttpRule>)
    requires
        selected.wf(),
    ensures
        methods_joined(rules@, r@, url@, selected.set(), label@),
{
    let ghost all = rules@;
    let ghost same = on_url(url@);
    let ghost start = selected.set();
    let mut rules = rules;
    let mut merged = selected;
    let mut at: Option<usize> = None;
    let mut retained: Vec<HttpRule> = Vec::new();
    let ghost mut done: int = 0;
    assert(all.take(0) =~= Seq::empty());
    assert(all.skip(0) =~= all);
    while rules.len() > 0
        invariant
            same == on_url(url@),
            0 <= done <= all.len(),
            rules@ == all.skip(done),
            retained@ == others(all.take(done), same),
            merged.wf(),
            merged.set() == merged_methods(all.take(done), url@, start),
            match at {
                Some(i) => slot(all.take(done), same) == Some(i as int),
                None => slot(all.take(done), same) is None,
            },
        decreases rules@.len(),
    {
        let rule = rules.remove(0);
        proof {
            assert(rule == all[done]);
            assert(all.take(done + 1).drop_last() =~= all.take(done));
            assert(all.take(done + 1).last() == rule);
            assert(rules@ =~= all.skip(done + 1));
            done = done + 1;
        }
        if same_http_url(&rule, url) {
            merged.union_with(&HttpMethods::from_rule(&rule));
            if at.is_none() {
                at = Some(retained.len());
            }
        } else {
            retained.push(rule);
        }
    }
    proof {
        assert(all.take(done) =~= all);
        lemma_slot(all, same);
    }
    let rule = HttpRule {
        methods: merged.into_methods(),
        url: url.clone(),
        comment: types::label_comment(label),
        target_url: Some(url.clone()),
    };
    place_rule(&mut retained, at, rule);
    assert(http_rule_is(rule, url@, merged_methods(all, url@, start), label@));
    assert(retained@ == placed(all, same, rule));
    retained
}

/// An HTTP decision has gone into the one list and out of the other.
pub open spec fn http_persisted(
    into: Seq<HttpRule>,
    into_after: Seq<HttpRule>,
    out_of: Seq<HttpRule>,
    out_of_after: Seq<HttpRule>,
    target: HttpRuleTarget,
    label: Seq<char>,
) -> bool {
    &&& methods_joined(into, into_after, target.url@, target_methods(target), label)
    &&& methods_subtracted(out_of, out_of_after, target.url@, target_methods(target))
}

/// A policy in which the methods of a target are allowed or denied on its URL.
pub fn persist_http_rule(
    policy: Policy,
    target: &HttpRuleTarget,
    label: &str,
    allow_rule: bool,
) -> (r: Policy)
    ensures
        r == (Policy {
            network: NetworkPolicy { http: r.network.http, ..policy.network },
            ..policy
        }),
        ({
            let allow = policy.network.http.allow@;
            let allow_after = r.network.http.allow@;
            let deny = policy.network.http.deny@;
            let deny_after = r.network.http.deny@;
            if allow_rule {
                http_persisted(allow, allow_after, deny, deny_after, *target, label@)
            } else {
                http_persisted(deny, deny_after, allow, allow_after, *target, label@)
            }
        }),
{
    let selected = HttpMethods::from_target(target);
    let http = policy.network.http;
    let http = if allow_rule {
        let deny = subtract_http_methods(http.deny, &target.url, &selected);
        RuleSet { allow: union_http_methods(http.allow, &target.url, selected, label), deny }
    } else {
        let allow = subtract_http_methods(http.allow, &target.url, &selected);
        RuleSet { allow, deny: union_http_methods(http.deny, &target.url, selected, label) }
    };
    Policy {
        network: NetworkPolicy { direct: policy.network.direct, http },
        filesystem: policy.filesystem,
        resources: policy.resources,
        sudo: policy.sudo,
        dbus: policy.dbus,
    }
}

proof fn lemma_merged_access(rules: Seq<FilesystemRule>, key: Seq<char>, access: FileAccess)
    ensures
        merged_access(rules, key, access).includes(access),
    decreases rules.len(),
{
    if rules.len() > 0 {
        lemma_merged_access(rules.drop_last(), key, access);
    }
}

proof fn lemma_same_items<T>(a: Seq<T>, b: Seq<T>, x: T)
    requires
        a.to_multiset() == b.to_multiset(),
    ensures
        a.contains(x) == b.contains(x),
{
    vstd::seq_lib::to_multiset_contains(a, x);
    vstd::seq_lib::to_multiset_contains(b, x);
}

/// A decision on a path takes effect: exactly one rule on it is in the list that it goes into,
/// one that covers the access, and no rule on it with just this access is left in the other.
pub proof fn law_filesystem_decision_takes_effect<
    L: Fn(&FilesystemRule, &FilesystemRule) -> bool,
>(
    into: Seq<FilesystemRule>,
    into_after: Seq<FilesystemRule>,
    out_of: Seq<FilesystemRule>,
    out_of_after: Seq<FilesystemRule>,
    path: String,
    access: FileAccess,
    label: Seq<char>,
    less: L,
    x: FilesystemRule,
    y: FilesystemRule,
)
    requires
        filesystem_persisted(into, into_after, out_of, out_of_after, path, access, label, less),
    ensures
        into_after.contains(x) && paths::rule_key(x.path@) == paths::rule_key(path@) ==> x.path == path
            && x.access.includes(access),
        into_after.contains(x) && into_after.contains(y) && paths::rule_key(x.path@) == paths::rule_key(
            path@,
        ) && paths::rule_key(y.path@) == paths::rule_key(path@) ==> x == y,
        exists|rule: FilesystemRule| #[trigger] into_after.contains(rule) && rule.path == path,
        out_of_after.contains(x) ==> !(paths::rule_key(x.path@) == paths::rule_key(path@) && x.access
            == access),
{
    let key = paths::rule_key(path@);
    let list = choose|list: Seq<FilesystemRule>| #[trigger]
        filesystem_upserted(into, list, path, access, label) && into_after == sorting::sorted_by(
            list,
            less,
        );
    let comment = choose|comment: Option<String>|
        text::opt_text(comment) == types::comment_of(label) && list == #[trigger] placed(
            into,
            on_path(key),
            FilesystemRule { path, access: merged_access(into, key, access), comment },
        );
    let rule = FilesystemRule { path, access: merged_access(into, key, access), comment };
    lemma_merged_access(into, key, access);
    sorting::law_sorting_keeps_items(list, less);
    lemma_same_items(into_after, list, x);
    lemma_same_items(into_after, list, y);
    lemma_same_items(into_after, list, rule);
    lemma_placed(into, on_path(key), rule, x);
    lemma_placed(into, on_path(key), rule, y);
    lemma_placed(into, on_path(key), rule, rule);
    assert(into_after.contains(rule));
    let rest = others(out_of, on_path_with(key, access));
    sorting::law_sorting_keeps_items(rest, less);
    lemma_same_items(out_of_after, rest, x);
    lemma_others(out_of, on_path_with(key, access), x);
}

/// A network decision takes effect: the host and port have a rule in the list that it goes into,
/// the only one there, and none in the other.
pub proof fn law_network_decision_takes_effect(
    into: Seq<NetworkRule>,
    into_after: Seq<NetworkRule>,
    out_of: Seq<NetworkRule>,
    out_of_after: Seq<NetworkRule>,
    host: String,
    port: u16,
    label: Seq<char>,
    i: int,
    j: int,
)
    requires
        network_persisted(into, into_after, out_of, out_of_after, host, port, label),
    ensures
        exists|rule: NetworkRule| #[trigger]
            sorting::holds_item(into_after, rule) && rule.host == host && rule.port == port,
        0 <= i < j < into_after.len() ==> into_after[i].key() != into_after[j].key(),
        0 <= i < out_of_after.len() ==> out_of_after[i].key() != (host@, port),
{
    let comment = choose|comment: Option<String>|
        text::opt_text(comment) == types::comment_of(label) && #[trigger] rule_added(
            into,
            into_after,
            NetworkRule { host, port, comment },
        );
    assert(sorting::holds_item(into_after, NetworkRule { host, port, comment }));
    if 0 <= i < j < into_after.len() {
        NetworkRule::lemma_order(into_after[i].key(), into_after[j].key(), into_after[j].key());
    }
    if 0 <= i < out_of_after.len() {
        assert(sorting::holds_item(out_of_after, out_of_after[i]));
    }
}

/// A decision on a resource takes effect: exactly one rule on it and its sort of access is in
/// the list that it goes into, one that covers the access, and no rule on it with just this
/// access is left in the other.
pub proof fn law_resource_decision_takes_effect<L: Fn(&ResourceRule, &ResourceRule) -> bool>(
    into: Seq<ResourceRule>,
    into_after: Seq<ResourceRule>,
    out_of: Seq<ResourceRule>,
    out_of_after: Seq<ResourceRule>,
    kind: ResourceKind,
    path: String,
    access: ResourceAccess,
    label: Seq<char>,
    less: L,
    x: ResourceRule,
    y: ResourceRule,
)
    requires
        resource_persisted(
            into,
            into_after,
            out_of,
            out_of_after,
            kind,
            path,
            access,
            label,
            less,
        ),
    ensures
        into_after.contains(x) && on_resource(kind, paths::rule_key(path@), access)(x) ==> x.path
            == path && x.access.includes(access),
        into_after.contains(x) && into_after.contains(y) && on_resource(
            kind,
            paths::rule_key(path@),
            access,
        )(x) && on_resource(kind, paths::rule_key(path@), access)(y) ==> x == y,
        exists|rule: ResourceRule| #[trigger]
            into_after.contains(rule) && rule.kind == kind && rule.path == path,
        out_of_after.contains(x) ==> !on_resource_with(kind, paths::rule_key(path@), access)(x),
{
    let key = paths::rule_key(path@);
    let same = on_resource(kind, key, access);
    let list = choose|list: Seq<ResourceRule>| #[trigger]
        resource_upserted(into, list, kind, path, access, label) && into_after
            == sorting::sorted_by(list, less);
    let merged = merged_resource_access(into, kind, key, access);
    let comment = choose|comment: Option<String>|
        text::opt_text(comment) == types::comment_of(label) && list == #[trigger] placed(
            into,
            same,
            ResourceRule { kind, path, access: merged, comment },
        );
    let rule = ResourceRule { kind, path, access: merged, comment };
    lemma_merged_kind(into, kind, key, access);
    sorting::law_sorting_keeps_items(list, less);
    lemma_same_items(into_after, list, x);
    lemma_same_items(into_after, list, y);
    lemma_same_items(into_after, list, rule);
    lemma_placed(into, same, rule, x);
    lemma_placed(into, same, rule, y);
    lemma_placed(into, same, rule, rule);
    assert(into_after.contains(rule));
    let rest = others(out_of, on_resource_with(kind, key, access));
    sorting::law_sorting_keeps_items(rest, less);
    lemma_same_items(out_of_after, rest, x);
    lemma_others(out_of, on_resource_with(kind, key, access), x);
}

/// A decision on a command takes effect: the command has a rule in the list that it goes into,
/// the only one there, and none in the other.
pub proof fn law_sudo_decision_takes_effect(
    into: Seq<SudoRule>,
    into_after: Seq<SudoRule>,
    out_of: Seq<SudoRule>,
    out_of_after: Seq<SudoRule>,
    argv: Seq<String>,
    label: Seq<char>,
    i: int,
    j: int,
)
    requires
        sudo_persisted(into, into_after, out_of, out_of_after, argv, label),
    ensures
        exists|rule: SudoRule| #[trigger]
            sorting::holds_item(into_after, rule) && rule.argv@ == argv,
        0 <= i < j < into_after.len() ==> into_after[i].key() != into_after[j].key(),
        0 <= i < out_of_after.len() ==> out_of_after[i].key() != text::texts(argv),
{
    let rule = choose|rule: SudoRule| #[trigger]
        rule_added(others(into, wordless()), into_after, rule) && rule.argv@ == argv
            && text::opt_text(rule.comment) == types::comment_of(label);
    assert(sorting::holds_item(into_after, rule));
    if 0 <= i < j < into_after.len() {
        SudoRule::lemma_order(into_after[i].key(), into_after[j].key(), into_after[j].key());
    }
    if 0 <= i < out_of_after.len() {
        assert(sorting::holds_item(out_of_after, out_of_after[i]));
    }
}

proof fn lemma_subtracted(
    before: Seq<HttpRule>,
    after: Seq<HttpRule>,
    url: Seq<char>,
    selected: MethodSet,
    i: int,
)
    requires
        methods_subtracted(before, after, url, selected),
        0 <= i < after.len(),
        on_url(url)(after[i]),
    ensures
        selected is Some,
        after[i].methods@.len() == 0 || forall|m: Seq<char>| #[trigger]
            selected->0.contains(m) ==> !text_set(after[i].methods@).contains(m),
    decreases before.len(),
{
    if before.len() > 0 {
        let front = before.drop_last();
        if !on_url(url)(before.last()) {
            if i < after.len() - 1 {
                lemma_subtracted(front, after.drop_last(), url, selected, i);
            }
        } else {
            match methods_left(rule_methods(before.last()), selected) {
                None => {
                    lemma_subtracted(front, after, url, selected, i);
                },
                Some(left) => {
                    if i < after.len() - 1 {
                        lemma_subtracted(front, after.drop_last(), url, selected, i);
                    }
                },
            }
        }
    }
}

proof fn lemma_merged_methods(
    rules: Seq<HttpRule>,
    url: Seq<char>,
    selected: MethodSet,
    m: Seq<char>,
)
    requires
        selected is None || selected->0.contains(m),
    ensures
        merged_methods(rules, url, selected) is None || merged_methods(
            rules,
            url,
            selected,
        )->0.contains(m),
    decreases rules.len(),
{
    if rules.len() > 0 {
        lemma_merged_methods(rules.drop_last(), url, selected, m);
    }
}

/// An HTTP decision takes effect: the list that it goes into has a rule on the URL for each of
/// its methods, and in the other no rule on the URL names one of them. A rule there on every
/// method stays, unless the decision is on every method too.
pub proof fn law_http_decision_takes_effect(
    into: Seq<HttpRule>,
    into_after: Seq<HttpRule>,
    out_of: Seq<HttpRule>,
    out_of_after: Seq<HttpRule>,
    target: HttpRuleTarget,
    label: Seq<char>,
    m: Seq<char>,
    i: int,
)
    requires
        http_persisted(into, into_after, out_of, out_of_after, target, label),
        target_methods(target) matches Some(s) ==> s.contains(m),
    ensures
        exists|rule: HttpRule| #[trigger]
            into_after.contains(rule) && text::opt_text(rule.target_url) == Some(target.url@) && (
            rule.methods@.len() == 0 || text_set(rule.methods@).contains(m)),
        0 <= i < out_of_after.len() && on_url(target.url@)(out_of_after[i]) ==> target_methods(
            target,
        ) is Some && (out_of_after[i].methods@.len() == 0 || !text_set(
            out_of_after[i].methods@,
        ).contains(m)),
{
    let url = target.url@;
    let selected = target_methods(target);
    let rule = choose|rule: HttpRule|
        http_rule_is(rule, url, merged_methods(into, url, selected), label) && into_after
            == #[trigger] placed(into, on_url(url), rule);
    lemma_merged_methods(into, url, selected, m);
    lemma_placed(into, on_url(url), rule, rule);
    assert(into_after.contains(rule));
    if 0 <= i < out_of_after.len() && on_url(url)(out_of_after[i]) {
        lemma_subtracted(out_of, out_of_after, url, selected, i);
    }
}

} // verus!
