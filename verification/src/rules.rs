//! How decisions in force and policy rules apply to requests.

use vstd::prelude::*;

use crate::paths;
use crate::scan;
use crate::state::FilesystemRuleKey;
use crate::state::NetworkRuleKey;
use crate::state::NetworkRuleKeyView;
use crate::state::ResourceRuleKey;
use crate::state::SessionRules;
use crate::store::PolicyStore;
use crate::table::Table;
use crate::text;
use crate::types::DbusTarget;
use crate::types::FileAccess;
use crate::types::FilesystemRule;
use crate::types::NetworkRule;
use crate::types::Policy;
use crate::types::ResolvedRequestContext;
use crate::types::ResourceAccess;
use crate::types::ResourceKind;
use crate::types::ResourceRule;
use crate::types::SudoRule;

verus! {

/// Some of the sessions has rules that satisfy the predicate.
pub open spec fn some_session<B>(
    rules: Map<Seq<char>, B>,
    sessions: Seq<String>,
    p: spec_fn(B) -> bool,
) -> bool {
    exists|i: int|
        0 <= i < sessions.len() && rules.contains_key(#[trigger] sessions[i]@) && p(
            rules[sessions[i]@],
        )
}

/// Both maps have the same under the key.
pub open spec fn same_entry<B>(a: Map<Seq<char>, B>, b: Map<Seq<char>, B>, key: Seq<char>) -> bool {
    a.contains_key(key) == b.contains_key(key) && (a.contains_key(key) ==> a[key] == b[key])
}

/// Rules that are the same in each of the sessions come to the same.
pub proof fn lemma_same_sessions<B>(
    a: Map<Seq<char>, B>,
    b: Map<Seq<char>, B>,
    sessions: Seq<String>,
    p: spec_fn(B) -> bool,
)
    requires
        forall|i: int| 0 <= i < sessions.len() ==> same_entry(a, b, (#[trigger] sessions[i])@),
    ensures
        some_session(a, sessions, p) == some_session(b, sessions, p),
{
}

fn any_session<B, F: Fn(&B) -> bool>(
    rules: &Table<String, B>,
    sessions: &Vec<String>,
    covers: F,
    p: Ghost<spec_fn(B) -> bool>,
) -> (r: bool)
    requires
        rules.wf(),
        forall|b: &B| #[trigger] call_requires(covers, (b,)),
        forall|b: &B, v: bool| #[trigger] call_ensures(covers, (b,), v) ==> v == p@(*b),
    ensures
        r == some_session(rules@, sessions@, p@),
{
    let mut i: usize = 0;
    while i < sessions.len()
        invariant
            rules.wf(),
            forall|b: &B| #[trigger] call_requires(covers, (b,)),
            forall|b: &B, v: bool| #[trigger] call_ensures(covers, (b,), v) ==> v == p@(*b),
            i <= sessions@.len(),
            forall|j: int|
                0 <= j < i ==> !(rules@.contains_key(#[trigger] sessions@[j]@) && p@(
                    rules@[sessions@[j]@],
                )),
        decreases sessions@.len() - i,
    {
        if let Some(bucket) = rules.get(&sessions[i]) {
            if covers(bucket) {
                assert(rules@.contains_key(sessions@[i as int]@));
                return true;
            }
        }
        i += 1;
    }
    false
}

/// The rule's port is the request's, and its host pattern covers one of the request's names.
pub open spec fn network_key_covers<M: Fn(&String, &String) -> bool>(
    rule: NetworkRuleKey,
    keys: Seq<NetworkRuleKey>,
    port: u16,
    matches: M,
) -> bool {
    rule.port == port && exists|j: int|
        0 <= j < keys.len() && text::relates(matches, rule.host, (#[trigger] keys[j]).host)
}

/// Some rule of a session covers the request.
pub open spec fn network_covered<M: Fn(&String, &String) -> bool>(
    bucket: Seq<NetworkRuleKey>,
    keys: Seq<NetworkRuleKey>,
    port: u16,
    matches: M,
) -> bool {
    exists|i: int|
        0 <= i < bucket.len() && network_key_covers(#[trigger] bucket[i], keys, port, matches)
}

/// Whether some rule of a session covers the request. `keys` are the names that the request's
/// host is known by; `matches` tells whether a host pattern matches a host.
pub fn session_network_matches<M: Fn(&String, &String) -> bool>(
    bucket: &Vec<NetworkRuleKey>,
    keys: &Vec<NetworkRuleKey>,
    port: u16,
    matches: &M,
) -> (r: bool)
    requires
        text::decides_pairs(*matches),
    ensures
        r == network_covered(bucket@, keys@, port, *matches),
{
    let mut i: usize = 0;
    while i < bucket.len()
        invariant
            text::decides_pairs(*matches),
            i <= bucket@.len(),
            forall|x: int|
                0 <= x < i ==> !network_key_covers(#[trigger] bucket@[x], keys@, port, *matches),
        decreases bucket@.len() - i,
    {
        if bucket[i].port == port {
            let mut j: usize = 0;
            while j < keys.len()
                invariant
                    text::decides_pairs(*matches),
                    i < bucket@.len(),
                    bucket@[i as int].port == port,
                    j <= keys@.len(),
                    forall|y: int|
                        0 <= y < j ==> !text::relates(
                            *matches,
                            bucket@[i as int].host,
                            (#[trigger] keys@[y]).host,
                        ),
                decreases keys@.len() - j,
            {
                if matches(&bucket[i].host, &keys[j].host) {
                    assert(text::relates(*matches, bucket@[i as int].host, keys@[j as int].host));
                    assert(network_key_covers(bucket@[i as int], keys@, port, *matches));
                    return true;
                }
                j += 1;
            }
        }
        i += 1;
    }
    false
}

/// Some non-empty rule of a session is the beginning of the command.
pub open spec fn sudo_covered(bucket: Seq<Vec<String>>, argv: Seq<String>) -> bool {
    exists|i: int|
        0 <= i < bucket.len() && (#[trigger] bucket[i])@.len() > 0 && text::texts(
            bucket[i]@,
        ).is_prefix_of(text::texts(argv))
}

fn starts_with_words(argv: &Vec<String>, rule: &Vec<String>) -> (r: bool)
    ensures
        r == text::texts(rule@).is_prefix_of(text::texts(argv@)),
{
    let ghost a = text::texts(argv@);
    let ghost b = text::texts(rule@);
    if rule.len() > argv.len() {
        return false;
    }
    let mut i: usize = 0;
    while i < rule.len()
        invariant
            a == text::texts(argv@),
            b == text::texts(rule@),
            rule@.len() <= argv@.len(),
            i <= rule@.len(),
            forall|j: int| 0 <= j < i ==> #[trigger] b[j] == a[j],
        decreases rule@.len() - i,
    {
        if rule[i] != argv[i] {
            proof {
                assert(b[i as int] != a[i as int]);
                assert(a.take(b.len() as int)[i as int] != b[i as int]);
            }
            return false;
        }
        i += 1;
    }
    assert(b =~= a.take(b.len() as int));
    true
}

/// Whether a rule of a session is the beginning of the command.
pub fn session_sudo_matches(bucket: &Vec<Vec<String>>, argv: &Vec<String>) -> (r: bool)
    ensures
        r == sudo_covered(bucket@, argv@),
{
    let mut i: usize = 0;
    while i < bucket.len()
        invariant
            i <= bucket@.len(),
            forall|j: int|
                0 <= j < i ==> !((#[trigger] bucket@[j])@.len() > 0 && text::texts(
                    bucket@[j]@,
                ).is_prefix_of(text::texts(argv@))),
        decreases bucket@.len() - i,
    {
        if bucket[i].len() > 0 && starts_with_words(argv, &bucket[i]) {
            assert(bucket@[i as int]@.len() > 0);
            return true;
        }
        i += 1;
    }
    false
}

/// Some item satisfies the caller's predicate.
pub open spec fn any_holds<T, F: Fn(&T) -> bool>(items: Seq<T>, matches: F) -> bool {
    exists|i: int| 0 <= i < items.len() && text::holds(matches, #[trigger] items[i])
}

/// Whether some item satisfies the caller's predicate.
pub fn any_matches<T, F: Fn(&T) -> bool>(items: &Vec<T>, matches: &F) -> (r: bool)
    requires
        text::decides(*matches),
    ensures
        r == any_holds(items@, *matches),
{
    let mut i: usize = 0;
    while i < items.len()
        invariant
            text::decides(*matches),
            i <= items@.len(),
            forall|j: int| 0 <= j < i ==> !text::holds(*matches, #[trigger] items@[j]),
        decreases items@.len() - i,
    {
        if matches(&items[i]) {
            assert(text::holds(*matches, items@[i as int]));
            return true;
        }
        i += 1;
    }
    false
}

/// What the filesystem rules that a sandbox was started with are filed under.
pub open spec fn static_allow_key(ctx: ResolvedRequestContext) -> Seq<char> {
    match ctx.sandbox_session_id {
        Some(id) => "sandbox:"@ + id@,
        None => "ctx:"@ + (match ctx.paths.cwd {
            Some(cwd) => cwd@,
            None => Seq::empty(),
        }) + (":"@ + (match ctx.paths.project_root {
            Some(root) => root@,
            None => Seq::empty(),
        })),
    }
}

fn sandbox_filesystem_static_allow_key(ctx: &ResolvedRequestContext) -> (r: String)
    ensures
        r@ == static_allow_key(*ctx),
{
    if let Some(id) = &ctx.sandbox_session_id {
        return text::join2("sandbox:", id.as_str());
    }
    let cwd = match &ctx.paths.cwd {
        Some(cwd) => cwd.clone(),
        None => String::new(),
    };
    let root = match &ctx.paths.project_root {
        Some(root) => root.clone(),
        None => String::new(),
    };
    proof {
        assert(cwd@ =~= (match ctx.paths.cwd {
            Some(cwd) => cwd@,
            None => Seq::empty(),
        }));
        assert(root@ =~= (match ctx.paths.project_root {
            Some(root) => root@,
            None => Seq::empty(),
        }));
    }
    text::join3("ctx:", cwd.as_str(), text::join2(":", root.as_str()).as_str())
}

/// The path belongs to the sandbox runtime itself.
pub open spec fn infrastructure(path: Seq<char>) -> bool {
    paths::below(path, "/run/agent-sandbox"@)
}

/// Whether the path belongs to the sandbox runtime itself.
pub fn is_sandbox_infrastructure_path(path: &str) -> (r: bool)
    ensures
        r == infrastructure(path@),
{
    paths::starts_with(path, "/run/agent-sandbox")
}

/// Some rule names the port and a pattern that covers the host.
pub open spec fn network_rule_covers<M: Fn(&String, &String) -> bool>(
    rules: Seq<NetworkRule>,
    host: String,
    port: u16,
    matches: M,
) -> bool {
    exists|i: int|
        0 <= i < rules.len() && text::relates(matches, (#[trigger] rules[i]).host, host)
            && rules[i].port == port
}

/// Whether the policy denies the host and port.
pub fn policy_denied<M: Fn(&String, &String) -> bool>(
    policy: &Policy,
    host: &String,
    port: u16,
    matches: &M,
) -> (r: bool)
    requires
        text::decides_pairs(*matches),
    ensures
        r == network_rule_covers(policy.network.direct.deny@, *host, port, *matches),
{
    let rules = &policy.network.direct.deny;
    let mut i: usize = 0;
    while i < rules.len()
        invariant
            text::decides_pairs(*matches),
            i <= rules@.len(),
            *rules == policy.network.direct.deny,
            forall|j: int|
                0 <= j < i ==> !(text::relates(*matches, (#[trigger] rules@[j]).host, *host)
                    && rules@[j].port == port),
        decreases rules@.len() - i,
    {
        if matches(&rules[i].host, host) && rules[i].port == port {
            assert(text::relates(*matches, rules@[i as int].host, *host));
            return true;
        }
        i += 1;
    }
    false
}

/// Whether the policy denies a command. `matches` tells whether a rule matches it.
pub fn sudo_policy_denied<F: Fn(&SudoRule) -> bool>(policy: &Policy, matches: &F) -> (r: bool)
    requires
        text::decides(*matches),
    ensures
        r == any_holds(policy.sudo.deny@, *matches),
{
    any_matches(&policy.sudo.deny, matches)
}

/// Whether the policy allows a command. `matches` tells whether a rule matches it.
pub fn sudo_policy_allowed<F: Fn(&SudoRule) -> bool>(policy: &Policy, matches: &F) -> (r: bool)
    requires
        text::decides(*matches),
    ensures
        r == any_holds(policy.sudo.allow@, *matches),
{
    any_matches(&policy.sudo.allow, matches)
}

/// The rule that a decision on a path stands for.
pub open spec fn rule_of_key(key: FilesystemRuleKey) -> FilesystemRule {
    FilesystemRule { path: key.path, access: key.access, comment: None }
}

/// Some decision of a session covers the access, seen from a project root.
pub open spec fn filesystem_covered<F: Fn(&FilesystemRule, &Option<String>) -> bool>(
    bucket: Seq<FilesystemRuleKey>,
    root: Option<String>,
    matches: F,
) -> bool {
    exists|i: int|
        0 <= i < bucket.len() && text::relates(matches, rule_of_key(#[trigger] bucket[i]), root)
}

/// Whether some decision of a session covers the access, seen from a project root. `matches`
/// tells whether a rule matches the requested path and access from a root.
pub fn session_filesystem_matches<F: Fn(&FilesystemRule, &Option<String>) -> bool>(
    bucket: &Vec<FilesystemRuleKey>,
    root: &Option<String>,
    matches: &F,
) -> (r: bool)
    requires
        text::decides_pairs(*matches),
    ensures
        r == filesystem_covered(bucket@, *root, *matches),
{
    let mut i: usize = 0;
    while i < bucket.len()
        invariant
            text::decides_pairs(*matches),
            i <= bucket@.len(),
            forall|j: int|
                0 <= j < i ==> !text::relates(
                    *matches,
                    rule_of_key(#[trigger] bucket@[j]),
                    *root,
                ),
        decreases bucket@.len() - i,
    {
        let rule = FilesystemRule {
            path: bucket[i].path.clone(),
            access: bucket[i].access,
            comment: None,
        };
        if matches(&rule, root) {
            assert(rule == rule_of_key(bucket@[i as int]));
            return true;
        }
        i += 1;
    }
    false
}

/// Some rule covers the access, seen from a project root.
pub open spec fn filesystem_rules_cover<F: Fn(&FilesystemRule, &Option<String>) -> bool>(
    rules: Seq<FilesystemRule>,
    root: Option<String>,
    matches: F,
) -> bool {
    exists|i: int| 0 <= i < rules.len() && text::relates(matches, #[trigger] rules[i], root)
}

fn filesystem_rules_match<F: Fn(&FilesystemRule, &Option<String>) -> bool>(
    rules: &Vec<FilesystemRule>,
    root: &Option<String>,
    matches: &F,
) -> (r: bool)
    requires
        text::decides_pairs(*matches),
    ensures
        r == filesystem_rules_cover(rules@, *root, *matches),
{
    let mut i: usize = 0;
    while i < rules.len()
        invariant
            text::decides_pairs(*matches),
            i <= rules@.len(),
            forall|j: int| 0 <= j < i ==> !text::relates(*matches, #[trigger] rules@[j], *root),
        decreases rules@.len() - i,
    {
        if matches(&rules[i], root) {
            assert(text::relates(*matches, rules@[i as int], *root));
            return true;
        }
        i += 1;
    }
    false
}

/// The project roots from which permissions are tried: that of the request, then that of the
/// repository which holds the path, without repetition and without empty ones.
pub open spec fn roots_for_allow(ctx_root: Option<String>, git_root: Option<String>) -> Seq<
    String,
> {
    let first = match ctx_root {
        Some(root) if root@.len() > 0 => seq![root],
        _ => Seq::empty(),
    };
    match git_root {
        Some(root) if root@.len() > 0 && !(first.len() > 0 && paths::components(first[0]@)
            == paths::components(root@)) => first.push(root),
        _ => first,
    }
}

/// The project roots from which permissions are tried. `git_root` is the root of the repository
/// that holds the path.
pub fn project_roots_for_allow(ctx_root: &Option<String>, git_root: &Option<String>) -> (r: Vec<
    String,
>)
    ensures
        r@ == roots_for_allow(*ctx_root, *git_root),
{
    let mut roots: Vec<String> = Vec::new();
    if let Some(root) = ctx_root {
        if text::chars_of(root.as_str()).len() > 0 {
            roots.push(root.clone());
        }
    }
    if let Some(root) = git_root {
        if text::chars_of(root.as_str()).len() > 0 && !(roots.len() > 0 && paths::same_path(
            roots[0].as_str(),
            root.as_str(),
        )) {
            roots.push(root.clone());
        }
    }
    assert(roots@ =~= roots_for_allow(*ctx_root, *git_root));
    roots
}

/// Permission from any of the project roots, or from none where there is no root.
pub open spec fn from_any_root(roots: Seq<String>, p: spec_fn(Option<String>) -> bool) -> bool {
    if roots.len() == 0 {
        p(None)
    } else {
        exists|i: int| 0 <= i < roots.len() && p(Some(#[trigger] roots[i]))
    }
}

/// Whether some rule permits the access from any of the project roots.
pub fn filesystem_rules_match_allow<F: Fn(&FilesystemRule, &Option<String>) -> bool>(
    rules: &Vec<FilesystemRule>,
    ctx_root: &Option<String>,
    git_root: &Option<String>,
    matches: &F,
) -> (r: bool)
    requires
        text::decides_pairs(*matches),
    ensures
        r == from_any_root(
            roots_for_allow(*ctx_root, *git_root),
            |root: Option<String>| filesystem_rules_cover(rules@, root, *matches),
        ),
{
    let ghost p = |root: Option<String>| filesystem_rules_cover(rules@, root, *matches);
    let roots = project_roots_for_allow(ctx_root, git_root);
    if roots.len() == 0 {
        return filesystem_rules_match(rules, &None, matches);
    }
    let mut i: usize = 0;
    while i < roots.len()
        invariant
            text::decides_pairs(*matches),
            p == (|root: Option<String>| filesystem_rules_cover(rules@, root, *matches)),
            i <= roots@.len(),
            roots@.len() > 0,
            roots@ == roots_for_allow(*ctx_root, *git_root),
            forall|j: int| 0 <= j < i ==> !p(Some(#[trigger] roots@[j])),
        decreases roots@.len() - i,
    {
        let root = Some(roots[i].clone());
        if filesystem_rules_match(rules, &root, matches) {
            assert(p(Some(roots@[i as int])));
            return true;
        }
        assert(!p(Some(roots@[i as int])));
        i += 1;
    }
    false
}

/// Whether some decision of a session permits the access from any of the project roots.
pub fn session_filesystem_bucket_matches_allow<
    F: Fn(&FilesystemRule, &Option<String>) -> bool,
>(
    bucket: &Vec<FilesystemRuleKey>,
    ctx_root: &Option<String>,
    git_root: &Option<String>,
    matches: &F,
) -> (r: bool)
    requires
        text::decides_pairs(*matches),
    ensures
        r == from_any_root(
            roots_for_allow(*ctx_root, *git_root),
            |root: Option<String>| filesystem_covered(bucket@, root, *matches),
        ),
{
    let ghost p = |root: Option<String>| filesystem_covered(bucket@, root, *matches);
    let roots = project_roots_for_allow(ctx_root, git_root);
    if roots.len() == 0 {
        return session_filesystem_matches(bucket, &None, matches);
    }
    let mut i: usize = 0;
    while i < roots.len()
        invariant
            text::decides_pairs(*matches),
            p == (|root: Option<String>| filesystem_covered(bucket@, root, *matches)),
            i <= roots@.len(),
            roots@.len() > 0,
            roots@ == roots_for_allow(*ctx_root, *git_root),
            forall|j: int| 0 <= j < i ==> !p(Some(#[trigger] roots@[j])),
        decreases roots@.len() - i,
    {
        let root = Some(roots[i].clone());
        if session_filesystem_matches(bucket, &root, matches) {
            assert(p(Some(roots@[i as int])));
            return true;
        }
        assert(!p(Some(roots@[i as int])));
        i += 1;
    }
    false
}

/// A file on disk, whatever its name.
#[derive(Clone, Copy, Debug, PartialEq, Eq, Structural)]
pub struct InodeIdentity {
    pub inode: u64,
    pub device: u64,
}

impl View for InodeIdentity {
    type V = InodeIdentity;

    open spec fn view(&self) -> InodeIdentity {
        *self
    }
}

impl crate::table::TableKey for InodeIdentity {
    fn same(&self, other: &Self) -> (r: bool) {
        *self == *other
    }

    fn duplicate(&self) -> (r: Self) {
        *self
    }
}

/// Some decision with enough access is on the file itself, under whatever name.
pub open spec fn inode_covered<I: Fn(&String) -> bool>(
    bucket: Seq<FilesystemRuleKey>,
    access: FileAccess,
    same_file: I,
) -> bool {
    exists|i: int|
        0 <= i < bucket.len() && (#[trigger] bucket[i]).access.includes(access) && text::holds(
            same_file,
            bucket[i].path,
        )
}

fn inode_matches<I: Fn(&String) -> bool>(
    bucket: &Vec<FilesystemRuleKey>,
    access: FileAccess,
    same_file: &I,
) -> (r: bool)
    requires
        text::decides(*same_file),
    ensures
        r == inode_covered(bucket@, access, *same_file),
{
    let mut i: usize = 0;
    while i < bucket.len()
        invariant
            text::decides(*same_file),
            i <= bucket@.len(),
            forall|j: int|
                0 <= j < i ==> !((#[trigger] bucket@[j]).access.includes(access) && text::holds(
                    *same_file,
                    bucket@[j].path,
                )),
        decreases bucket@.len() - i,
    {
        if bucket[i].access.covers(access) && same_file(&bucket[i].path) {
            assert(bucket@[i as int].access.includes(access));
            return true;
        }
        i += 1;
    }
    false
}

/// The rule that a decision on a resource stands for.
pub open spec fn rule_of_resource(key: ResourceRuleKey) -> ResourceRule {
    ResourceRule { kind: key.kind, path: key.path, access: key.access, comment: None }
}

/// Some decision of a session covers the use of the resource.
pub open spec fn resource_covered<F: Fn(&ResourceRule) -> bool>(
    bucket: Seq<ResourceRuleKey>,
    matches: F,
) -> bool {
    exists|i: int|
        0 <= i < bucket.len() && text::holds(matches, rule_of_resource(#[trigger] bucket[i]))
}

/// Whether some decision of a session covers the use of the resource. `matches` tells whether a
/// rule matches it without a project root.
pub fn session_resource_matches<F: Fn(&ResourceRule) -> bool>(
    bucket: &Vec<ResourceRuleKey>,
    matches: &F,
) -> (r: bool)
    requires
        text::decides(*matches),
    ensures
        r == resource_covered(bucket@, *matches),
{
    let mut i: usize = 0;
    while i < bucket.len()
        invariant
            text::decides(*matches),
            i <= bucket@.len(),
            forall|j: int|
                0 <= j < i ==> !text::holds(*matches, rule_of_resource(#[trigger] bucket@[j])),
        decreases bucket@.len() - i,
    {
        let rule = ResourceRule {
            kind: bucket[i].kind,
            path: bucket[i].path.clone(),
            access: bucket[i].access,
            comment: None,
        };
        if matches(&rule) {
            assert(rule == rule_of_resource(bucket@[i as int]));
            return true;
        }
        i += 1;
    }
    false
}

/// The name is that of a host bus or service manager in the abstract namespace.
pub open spec fn protected_abstract(path: Seq<char>) -> bool {
    ||| "@abstract:/tmp/dbus-"@.is_prefix_of(path)
    ||| "@abstract:/org/freedesktop/DBus"@.is_prefix_of(path)
    ||| "@abstract:/org/freedesktop/systemd1"@.is_prefix_of(path)
    ||| "@abstract:org.freedesktop.DBus"@.is_prefix_of(path)
    ||| "@abstract:org.freedesktop.systemd1"@.is_prefix_of(path)
}

fn is_protected_abstract_socket(path: &Vec<char>) -> (r: bool)
    ensures
        r == protected_abstract(path@),
{
    scan::has_prefix(path, "@abstract:/tmp/dbus-") || scan::has_prefix(
        path,
        "@abstract:/org/freedesktop/DBus",
    ) || scan::has_prefix(path, "@abstract:/org/freedesktop/systemd1") || scan::has_prefix(
        path,
        "@abstract:org.freedesktop.DBus",
    ) || scan::has_prefix(path, "@abstract:org.freedesktop.systemd1")
}

/// Every character is a decimal digit.
pub open spec fn all_digits(s: Seq<char>) -> bool {
    forall|i: int| 0 <= i < s.len() ==> '0' <= #[trigger] s[i] <= '9'
}

fn is_all_digits(s: &Vec<char>) -> (r: bool)
    ensures
        r == all_digits(s@),
{
    let mut i: usize = 0;
    while i < s.len()
        invariant
            i <= s@.len(),
            forall|j: int| 0 <= j < i ==> '0' <= #[trigger] s@[j] <= '9',
        decreases s@.len() - i,
    {
        if !('0' <= s[i] && s[i] <= '9') {
            return false;
        }
        i += 1;
    }
    true
}

/// The path lies in the bus or service manager area of a user's runtime directory.
pub open spec fn user_bus_area(path: Seq<char>) -> bool {
    let c = paths::components(path);
    &&& c.len() >= 5
    &&& c[0] == seq!['/']
    &&& c[1] == "run"@
    &&& c[2] == "user"@
    &&& all_digits(c[3])
    &&& c[4] == "bus"@ || c[4] == "systemd"@
}

/// The resource is a socket of the host's buses or service managers.
pub open spec fn protected_ipc(
    kind: ResourceKind,
    path: Seq<char>,
    access: ResourceAccess,
) -> bool {
    &&& kind == ResourceKind::UnixSocket
    &&& access is Socket
    &&& protected_abstract(path) || paths::below(path, "/run/dbus"@) || paths::below(
        path,
        "/run/systemd"@,
    ) || user_bus_area(path)
}

/// Whether the resource is a socket of the host's buses or service managers, which no rule can
/// open.
pub fn is_protected_host_ipc_socket(kind: ResourceKind, path: &str, access: ResourceAccess) -> (r:
    bool)
    ensures
        r == protected_ipc(kind, path@, access),
{
    if kind != ResourceKind::UnixSocket {
        return false;
    }
    match access {
        ResourceAccess::Socket(_) => {},
        ResourceAccess::Device(_) => {
            return false;
        },
    }
    if is_protected_abstract_socket(&text::chars_of(path)) {
        return true;
    }
    if paths::starts_with(path, "/run/dbus") || paths::starts_with(path, "/run/systemd") {
        return true;
    }
    let parts = paths::components_of(path);
    let ghost ps = scan::pieces(parts@);
    if parts.len() < 5 {
        return false;
    }
    proof {
        assert(ps[0] == parts@[0]@ && ps[1] == parts@[1]@ && ps[2] == parts@[2]@ && ps[3]
            == parts@[3]@ && ps[4] == parts@[4]@);
        reveal_strlit("/");
        assert("/"@ =~= seq!['/']);
    }
    paths::spells(&parts[0], "/") && paths::spells(&parts[1], "run") && paths::spells(
        &parts[2],
        "user",
    ) && is_all_digits(&parts[3]) && (paths::spells(&parts[4], "bus") || paths::spells(
        &parts[4],
        "systemd",
    ))
}

/// One of the names is approved once.
pub open spec fn once_covered(
    once: Map<NetworkRuleKeyView, bool>,
    keys: Seq<NetworkRuleKey>,
) -> bool {
    exists|i: int| 0 <= i < keys.len() && once.contains_key(#[trigger] keys[i]@)
}

/// The single-use approvals once those of the names are used up.
pub open spec fn once_spent(
    once: Map<NetworkRuleKeyView, bool>,
    keys: Seq<NetworkRuleKey>,
) -> Map<NetworkRuleKeyView, bool> {
    once.remove_keys(keys.map_values(|k: NetworkRuleKey| k@).to_set())
}

proof fn lemma_keys_step(keys: Seq<NetworkRuleKey>, i: int)
    requires
        0 <= i < keys.len(),
    ensures
        keys.take(i + 1).map_values(|k: NetworkRuleKey| k@).to_set() == keys.take(i).map_values(
            |k: NetworkRuleKey| k@,
        ).to_set().insert(keys[i]@),
{
    let f = |k: NetworkRuleKey| k@;
    let s = keys.take(i).map_values(f);
    let t = keys.take(i + 1).map_values(f);
    assert forall|v: NetworkRuleKeyView| t.to_set().contains(v) == s.to_set().insert(
        keys[i]@,
    ).contains(v) by {
        if t.contains(v) {
            let x = choose|x: int| 0 <= x < t.len() && t[x] == v;
            if x < i {
                assert(s[x] == v);
            }
        }
        if s.contains(v) {
            let x = choose|x: int| 0 <= x < s.len() && s[x] == v;
            assert(t[x] == v);
        }
        if v == keys[i]@ {
            assert(t[i] == v);
        }
    }
    assert(t.to_set() =~= s.to_set().insert(keys[i]@));
}

impl PolicyStore {
    /// Whether one of the names is approved once; with `consume` the approval is used up.
    pub fn once_allowed(&mut self, keys: &Vec<NetworkRuleKey>, consume: bool) -> (r: bool)
        requires
            old(self).wf(),
        ensures
            final(self).wf(),
            final(self).configured_as(old(self)),
            *final(self) == (PolicyStore {
                session: SessionRules {
                    once_allow: final(self).session.once_allow,
                    ..old(self).session
                },
                ..*old(self)
            }),
            r == once_covered(old(self).session.once_allow@, keys@),
            final(self).session.once_allow@ == (if r && consume {
                once_spent(old(self).session.once_allow@, keys@)
            } else {
                old(self).session.once_allow@
            }),
    {
        let ghost once = self.session.once_allow@;
        let mut matched = false;
        let mut i: usize = 0;
        while i < keys.len()
            invariant
                *self == *old(self),
                self.wf(),
                i <= keys@.len(),
                matched == exists|j: int|
                    0 <= j < i && self.session.once_allow@.contains_key(#[trigger] keys@[j]@),
            decreases keys@.len() - i,
        {
            if self.session.once_allow.contains(&keys[i]) {
                matched = true;
            }
            i += 1;
        }
        if matched && consume {
            let ghost f = |k: NetworkRuleKey| k@;
            let mut i: usize = 0;
            proof {
                assert(keys@.take(0).map_values(f).to_set() =~= Set::empty());
                assert(once.remove_keys(keys@.take(0).map_values(f).to_set()) =~= once);
            }
            while i < keys.len()
                invariant
                    self.wf(),
                    f == (|k: NetworkRuleKey| k@),
                    i <= keys@.len(),
                    *self == (PolicyStore {
                        session: SessionRules {
                            once_allow: self.session.once_allow,
                            ..old(self).session
                        },
                        ..*old(self)
                    }),
                    self.session.once_allow@ == once.remove_keys(
                        keys@.take(i as int).map_values(f).to_set(),
                    ),
                decreases keys@.len() - i,
            {
                let _ = self.session.once_allow.remove(&keys[i]);
                proof {
                    lemma_keys_step(keys@, i as int);
                    assert(self.session.once_allow@ =~= once.remove_keys(
                        keys@.take(i + 1).map_values(f).to_set(),
                    ));
                }
                i += 1;
            }
            assert(keys@.take(keys@.len() as int) =~= keys@);
        }
        matched
    }

    /// Whether a session denies the request.
    pub fn session_denied<M: Fn(&String, &String) -> bool>(
        &self,
        keys: &Vec<NetworkRuleKey>,
        port: u16,
        sessions: &Vec<String>,
        matches: &M,
    ) -> (r: bool)
        requires
            self.wf(),
            text::decides_pairs(*matches),
        ensures
            r == some_session(
                self.session.session_deny@,
                sessions@,
                |b: Vec<NetworkRuleKey>| network_covered(b@, keys@, port, *matches),
            ),
    {
        let covers = |b: &Vec<NetworkRuleKey>| -> (v: bool)
            ensures
                v == network_covered(b@, keys@, port, *matches),
        { session_network_matches(b, keys, port, matches) };
        any_session(
            &self.session.session_deny,
            sessions,
            covers,
            Ghost(|b: Vec<NetworkRuleKey>| network_covered(b@, keys@, port, *matches)),
        )
    }

    /// Whether a session allows the request.
    pub fn session_allowed<M: Fn(&String, &String) -> bool>(
        &self,
        keys: &Vec<NetworkRuleKey>,
        port: u16,
        sessions: &Vec<String>,
        matches: &M,
    ) -> (r: bool)
        requires
            self.wf(),
            text::decides_pairs(*matches),
        ensures
            r == some_session(
                self.session.session_allow@,
                sessions@,
                |b: Vec<NetworkRuleKey>| network_covered(b@, keys@, port, *matches),
            ),
    {
        let covers = |b: &Vec<NetworkRuleKey>| -> (v: bool)
            ensures
                v == network_covered(b@, keys@, port, *matches),
        { session_network_matches(b, keys, port, matches) };
        any_session(
            &self.session.session_allow,
            sessions,
            covers,
            Ghost(|b: Vec<NetworkRuleKey>| network_covered(b@, keys@, port, *matches)),
        )
    }

    /// Whether a session denies the command.
    pub fn session_sudo_denied(&self, argv: &Vec<String>, sessions: &Vec<String>) -> (r: bool)
        requires
            self.wf(),
        ensures
            r == some_session(
                self.session.sudo_deny@,
                sessions@,
                |b: Vec<Vec<String>>| sudo_covered(b@, argv@),
            ),
    {
        let covers = |b: &Vec<Vec<String>>| -> (v: bool)
            ensures
                v == sudo_covered(b@, argv@),
        { session_sudo_matches(b, argv) };
        any_session(
            &self.session.sudo_deny,
            sessions,
            covers,
            Ghost(|b: Vec<Vec<String>>| sudo_covered(b@, argv@)),
        )
    }

    /// Whether a session allows the command.
    pub fn session_sudo_allowed(&self, argv: &Vec<String>, sessions: &Vec<String>) -> (r: bool)
        requires
            self.wf(),
        ensures
            r == some_session(
                self.session.sudo_allow@,
                sessions@,
                |b: Vec<Vec<String>>| sudo_covered(b@, argv@),
            ),
    {
        let covers = |b: &Vec<Vec<String>>| -> (v: bool)
            ensures
                v == sudo_covered(b@, argv@),
        { session_sudo_matches(b, argv) };
        any_session(
            &self.session.sudo_allow,
            sessions,
            covers,
            Ghost(|b: Vec<Vec<String>>| sudo_covered(b@, argv@)),
        )
    }

    /// Whether a session denies the file access, seen from the request's project root.
    pub fn session_filesystem_denied<F: Fn(&FilesystemRule, &Option<String>) -> bool>(
        &self,
        root: &Option<String>,
        sessions: &Vec<String>,
        matches: &F,
    ) -> (r: bool)
        requires
            self.wf(),
            text::decides_pairs(*matches),
        ensures
            r == some_session(
                self.session.filesystem_deny@,
                sessions@,
                |b: Vec<FilesystemRuleKey>| filesystem_covered(b@, *root, *matches),
            ),
    {
        let covers = |b: &Vec<FilesystemRuleKey>| -> (v: bool)
            ensures
                v == filesystem_covered(b@, *root, *matches),
        { session_filesystem_matches(b, root, matches) };
        any_session(
            &self.session.filesystem_deny,
            sessions,
            covers,
            Ghost(|b: Vec<FilesystemRuleKey>| filesystem_covered(b@, *root, *matches)),
        )
    }

    /// Whether a session allows the file access, seen from any of the project roots.
    pub fn session_filesystem_allowed<F: Fn(&FilesystemRule, &Option<String>) -> bool>(
        &self,
        ctx_root: &Option<String>,
        git_root: &Option<String>,
        sessions: &Vec<String>,
        matches: &F,
    ) -> (r: bool)
        requires
            self.wf(),
            text::decides_pairs(*matches),
        ensures
            r == some_session(
                self.session.filesystem_allow@,
                sessions@,
                |b: Vec<FilesystemRuleKey>|
                    from_any_root(
                        roots_for_allow(*ctx_root, *git_root),
                        |root: Option<String>| filesystem_covered(b@, root, *matches),
                    ),
            ),
    {
        let covers = |b: &Vec<FilesystemRuleKey>| -> (v: bool)
            ensures
                v == from_any_root(
                    roots_for_allow(*ctx_root, *git_root),
                    |root: Option<String>| filesystem_covered(b@, root, *matches),
                ),
        { session_filesystem_bucket_matches_allow(b, ctx_root, git_root, matches) };
        any_session(
            &self.session.filesystem_allow,
            sessions,
            covers,
            Ghost(
                |b: Vec<FilesystemRuleKey>|
                    from_any_root(
                        roots_for_allow(*ctx_root, *git_root),
                        |root: Option<String>| filesystem_covered(b@, root, *matches),
                    ),
            ),
        )
    }

    /// Whether a session allows the file under another name. `exists_on_disk` tells whether the
    /// file is there; `same_file` tells whether a path leads to it.
    pub fn session_filesystem_allowed_by_inode<I: Fn(&String) -> bool>(
        &self,
        exists_on_disk: bool,
        access: FileAccess,
        sessions: &Vec<String>,
        same_file: &I,
    ) -> (r: bool)
        requires
            self.wf(),
            text::decides(*same_file),
        ensures
            r == (exists_on_disk && some_session(
                self.session.filesystem_allow@,
                sessions@,
                |b: Vec<FilesystemRuleKey>| inode_covered(b@, access, *same_file),
            )),
    {
        if !exists_on_disk {
            return false;
        }
        let covers = |b: &Vec<FilesystemRuleKey>| -> (v: bool)
            ensures
                v == inode_covered(b@, access, *same_file),
        { inode_matches(b, access, same_file) };
        any_session(
            &self.session.filesystem_allow,
            sessions,
            covers,
            Ghost(|b: Vec<FilesystemRuleKey>| inode_covered(b@, access, *same_file)),
        )
    }

    /// Whether a rule that the sandbox was started with allows the file access.
    pub fn static_filesystem_allowed<F: Fn(&FilesystemRule, &Option<String>) -> bool>(
        &self,
        ctx: &ResolvedRequestContext,
        matches: &F,
    ) -> (r: bool)
        requires
            self.wf(),
            text::decides_pairs(*matches),
        ensures
            r == (self.session.static_allow@.contains_key(static_allow_key(*ctx))
                && filesystem_rules_cover(
                self.session.static_allow@[static_allow_key(*ctx)]@,
                ctx.paths.project_root,
                *matches,
            )),
    {
        let key = sandbox_filesystem_static_allow_key(ctx);
        match self.session.static_allow.get(&key) {
            Some(rules) => filesystem_rules_match(rules, &ctx.paths.project_root, matches),
            None => false,
        }
    }

    /// Keep the rules that a sandbox was started with; no rules at all change nothing.
    pub fn store_sandbox_static_allow(
        &mut self,
        ctx: &ResolvedRequestContext,
        rules: Vec<FilesystemRule>,
    )
        requires
            old(self).wf(),
        ensures
            final(self).wf(),
            final(self).configured_as(old(self)),
            *final(self) == (PolicyStore {
                session: SessionRules {
                    static_allow: final(self).session.static_allow,
                    ..old(self).session
                },
                ..*old(self)
            }),
            final(self).session.static_allow@ == (if rules@.len() == 0 {
                old(self).session.static_allow@
            } else {
                old(self).session.static_allow@.insert(static_allow_key(*ctx), rules)
            }),
    {
        if rules.len() == 0 {
            return ;
        }
        let key = sandbox_filesystem_static_allow_key(ctx);
        let _ = self.session.static_allow.insert(key, rules);
    }

    /// Whether a session denies the use of the resource.
    pub fn session_resource_denied<F: Fn(&ResourceRule) -> bool>(
        &self,
        sessions: &Vec<String>,
        matches: &F,
    ) -> (r: bool)
        requires
            self.wf(),
            text::decides(*matches),
        ensures
            r == some_session(
                self.session.resource_deny@,
                sessions@,
                |b: Vec<ResourceRuleKey>| resource_covered(b@, *matches),
            ),
    {
        let covers = |b: &Vec<ResourceRuleKey>| -> (v: bool)
            ensures
                v == resource_covered(b@, *matches),
        { session_resource_matches(b, matches) };
        any_session(
            &self.session.resource_deny,
            sessions,
            covers,
            Ghost(|b: Vec<ResourceRuleKey>| resource_covered(b@, *matches)),
        )
    }

    /// Whether a session allows the use of the resource.
    pub fn session_resource_allowed<F: Fn(&ResourceRule) -> bool>(
        &self,
        sessions: &Vec<String>,
        matches: &F,
    ) -> (r: bool)
        requires
            self.wf(),
            text::decides(*matches),
        ensures
            r == some_session(
                self.session.resource_allow@,
                sessions@,
                |b: Vec<ResourceRuleKey>| resource_covered(b@, *matches),
            ),
    {
        let covers = |b: &Vec<ResourceRuleKey>| -> (v: bool)
            ensures
                v == resource_covered(b@, *matches),
        { session_resource_matches(b, matches) };
        any_session(
            &self.session.resource_allow,
            sessions,
            covers,
            Ghost(|b: Vec<ResourceRuleKey>| resource_covered(b@, *matches)),
        )
    }

    /// Whether a session denies the D-Bus capability. `matches` tells whether a decided target
    /// covers the requested one.
    pub fn session_dbus_denied<F: Fn(&DbusTarget) -> bool>(
        &self,
        sessions: &Vec<String>,
        matches: &F,
    ) -> (r: bool)
        requires
            self.wf(),
            text::decides(*matches),
        ensures
            r == some_session(
                self.session.dbus_deny@,
                sessions@,
                |b: Vec<DbusTarget>| any_holds(b@, *matches),
            ),
    {
        let covers = |b: &Vec<DbusTarget>| -> (v: bool)
            ensures
                v == any_holds(b@, *matches),
        { any_matches(b, matches) };
        any_session(
            &self.session.dbus_deny,
            sessions,
            covers,
            Ghost(|b: Vec<DbusTarget>| any_holds(b@, *matches)),
        )
    }

    /// Whether a session allows the D-Bus capability. `matches` tells whether a decided target
    /// covers the requested one.
    pub fn session_dbus_allowed<F: Fn(&DbusTarget) -> bool>(
        &self,
        sessions: &Vec<String>,
        matches: &F,
    ) -> (r: bool)
        requires
            self.wf(),
            text::decides(*matches),
        ensures
            r == some_session(
                self.session.dbus_allow@,
                sessions@,
                |b: Vec<DbusTarget>| any_holds(b@, *matches),
            ),
    {
        let covers = |b: &Vec<DbusTarget>| -> (v: bool)
            ensures
                v == any_holds(b@, *matches),
        { any_matches(b, matches) };
        any_session(
            &self.session.dbus_allow,
            sessions,
            covers,
            Ghost(|b: Vec<DbusTarget>| any_holds(b@, *matches)),
        )
    }
}

/// A single-use approval that was used up covers the names no more.
pub proof fn law_once_is_used_up(
    once: Map<NetworkRuleKeyView, bool>,
    keys: Seq<NetworkRuleKey>,
)
    ensures
        !once_covered(once_spent(once, keys), keys),
{
    let f = |k: NetworkRuleKey| k@;
    let after = once_spent(once, keys);
    assert forall|i: int| 0 <= i < keys.len() implies !after.contains_key(#[trigger] keys[i]@) by {
        assert(keys.map_values(f)[i] == keys[i]@);
        assert(keys.map_values(f).to_set().contains(keys[i]@));
    }
}

} // verus!
