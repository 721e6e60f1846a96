//! Rules that a decision leaves behind.

use policyd::persist::{
    persist_filesystem_rule, persist_http_rule, persist_network_allow, persist_network_deny,
    persist_resource_rule, persist_sudo_allow, persist_sudo_deny, remove_filesystem_rule,
    upsert_filesystem_rule, upsert_resource_rule, HttpMethods, PersistResourceRuleArgs,
};
use policyd::types::{
    FileAccess, FilesystemRule, HttpMethodMatcher, HttpRule, HttpRuleTarget, Policy,
    ResourceAccess, ResourceKind, ResourceRule, SocketAccess,
};

fn target(method: &str) -> HttpRuleTarget {
    HttpRuleTarget {
        method: HttpMethodMatcher::Exact(method.into()),
        url: "https://example.com/api".into(),
    }
}

#[test]
fn persist_http_rules_unions_methods_and_subtracts_denies() {
    let policy = Policy::empty();
    let policy = persist_http_rule(policy, &target("GET"), "get", true);
    let policy = persist_http_rule(policy, &target("POST"), "post", true);
    assert_eq!(policy.network.http.allow.len(), 1);
    assert_eq!(
        policy.network.http.allow[0].methods,
        vec!["GET".to_owned(), "POST".to_owned()]
    );

    let policy = persist_http_rule(policy, &target("POST"), "deny post", false);
    assert_eq!(policy.network.http.allow.len(), 1);
    assert_eq!(policy.network.http.allow[0].methods, vec!["GET".to_owned()]);
    assert_eq!(policy.network.http.deny.len(), 1);
    assert_eq!(policy.network.http.deny[0].methods, vec!["POST".to_owned()]);
}

fn methods(list: &[&str]) -> HttpMethods {
    HttpMethods::from_target(&HttpRuleTarget {
        method: HttpMethodMatcher::AnyOf(list.iter().map(|m| m.to_string()).collect()),
        url: "https://example.com/api".into(),
    })
}

fn joined(first: &[&str], second: &[&str]) -> HttpMethods {
    let mut all = methods(first);
    all.union_with(&methods(second));
    all
}

#[test]
fn a_union_of_methods_is_the_same_either_way_round() {
    let list = vec!["GET".to_owned(), "POST".to_owned(), "PUT".to_owned()];
    assert_eq!(joined(&["PUT", "GET"], &["POST", "GET"]).into_methods(), list);
    assert_eq!(joined(&["POST", "GET"], &["PUT", "GET"]).into_methods(), list);
}

#[test]
fn a_union_of_methods_does_not_depend_on_the_grouping() {
    let list = vec!["GET".to_owned(), "POST".to_owned(), "PUT".to_owned()];
    let mut left = joined(&["PUT"], &["POST"]);
    left.union_with(&methods(&["GET"]));
    let mut right = methods(&["PUT"]);
    right.union_with(&joined(&["POST"], &["GET"]));
    assert_eq!(left.into_methods(), list);
    assert_eq!(right.into_methods(), list);
}

#[test]
fn a_union_of_methods_repeats_nothing() {
    let list = vec!["GET".to_owned(), "PUT".to_owned()];
    assert_eq!(joined(&["PUT", "GET"], &["GET", "PUT"]).into_methods(), list);
    assert_eq!(joined(&["PUT", "GET"], &[]).into_methods(), list);
    let every = HttpMethods::from_rule(&HttpRule {
        methods: Vec::new(),
        url: "https://example.com/api".into(),
        comment: None,
        target_url: None,
    });
    assert_eq!(every, HttpMethods::All);
    let mut some = methods(&["GET"]);
    some.union_with(&every);
    assert_eq!(some, HttpMethods::All);
    some.union_with(&methods(&["GET"]));
    assert_eq!(some, HttpMethods::All);
    assert!(some.into_methods().is_empty());
}

#[test]
fn methods_are_taken_away_from_a_rule() {
    let left = methods(&["GET", "POST"]).subtract(&methods(&["POST"]));
    assert_eq!(left.map(HttpMethods::into_methods), Some(vec!["GET".to_owned()]));
    assert_eq!(methods(&["GET"]).subtract(&methods(&["GET", "POST"])), None);
    assert_eq!(HttpMethods::All.subtract(&methods(&["GET"])), Some(HttpMethods::All));
    assert_eq!(HttpMethods::All.subtract(&HttpMethods::All), None);
}

#[test]
fn persist_resource_rules_merges_connect_and_send_into_all() {
    let mut rules = Vec::new();
    let path = "/tmp/example.sock".to_string();

    upsert_resource_rule(
        &mut rules,
        ResourceKind::UnixSocket,
        &path,
        ResourceAccess::Socket(SocketAccess::Connect),
        "connect",
    );
    upsert_resource_rule(
        &mut rules,
        ResourceKind::UnixSocket,
        &path,
        ResourceAccess::Socket(SocketAccess::Send),
        "send",
    );

    assert_eq!(rules.len(), 1);
    assert_eq!(rules[0].access, ResourceAccess::Socket(SocketAccess::All));
}

fn by_path(a: &FilesystemRule, b: &FilesystemRule) -> bool {
    a.path < b.path
}

#[test]
fn file_rules_join_their_accesses_and_stay_in_order() {
    let policy = Policy::empty();
    let policy =
        persist_filesystem_rule(policy, &"/b".into(), FileAccess::Read, "b", true, &by_path);
    let policy =
        persist_filesystem_rule(policy, &"/a".into(), FileAccess::Read, "a", true, &by_path);
    let policy =
        persist_filesystem_rule(policy, &"/b".into(), FileAccess::Write, "b", true, &by_path);
    let seen: Vec<(&str, FileAccess)> =
        policy.filesystem.allow.iter().map(|r| (r.path.as_str(), r.access)).collect();
    assert_eq!(seen, vec![("/a", FileAccess::Read), ("/b", FileAccess::ReadWrite)]);
    let policy =
        persist_filesystem_rule(policy, &"/b".into(), FileAccess::ReadWrite, "b", false, &by_path);
    assert_eq!(policy.filesystem.allow.len(), 1);
    assert_eq!(policy.filesystem.deny.len(), 1);
}

#[test]
fn a_trailing_slash_names_the_same_file() {
    let mut rules = Vec::new();
    upsert_filesystem_rule(&mut rules, &"/a/".into(), FileAccess::Read, "");
    upsert_filesystem_rule(&mut rules, &"/a".into(), FileAccess::Read, "");
    assert_eq!(rules.len(), 1);
    remove_filesystem_rule(&mut rules, &"/a/".into(), FileAccess::Read);
    assert!(rules.is_empty());
}

#[test]
fn a_network_decision_takes_the_opposite_one_back() {
    let lower = |host: &String| host.to_lowercase();
    let policy = persist_network_allow(Policy::empty(), &"B.example".into(), 443, "", &lower);
    let policy = persist_network_allow(policy, &"a.example".into(), 443, "", &lower);
    let hosts: Vec<&str> =
        policy.network.direct.allow.iter().map(|r| r.host.as_str()).collect();
    assert_eq!(hosts, vec!["a.example", "b.example"]);
    let policy = persist_network_deny(policy, &"a.example".into(), 443, "why", &lower);
    assert_eq!(policy.network.direct.allow.len(), 1);
    assert_eq!(policy.network.direct.deny[0].host, "a.example");
    assert_eq!(policy.network.direct.deny[0].comment.as_deref(), Some("why"));
}

#[test]
fn a_command_decision_takes_the_opposite_one_back() {
    let argv = vec!["id".to_string()];
    let policy = persist_sudo_allow(Policy::empty(), &argv, "");
    assert_eq!(policy.sudo.allow.len(), 1);
    let policy = persist_sudo_deny(policy, &argv, "");
    assert!(policy.sudo.allow.is_empty());
    assert_eq!(policy.sudo.deny[0].argv, argv);
}

#[test]
fn a_resource_decision_takes_the_opposite_one_back() {
    let path = "/run/example.sock".to_string();
    let kind = ResourceKind::UnixSocket;
    let access = ResourceAccess::Socket(SocketAccess::Connect);
    let by_path = |a: &ResourceRule, b: &ResourceRule| a.path < b.path;
    let args = |label: &'static str, allow_rule: bool| PersistResourceRuleArgs {
        kind,
        rule_path: &path,
        access,
        label,
        allow_rule,
    };
    let policy = persist_resource_rule(Policy::empty(), &args("", true), &by_path);
    assert_eq!(policy.resources.allow.len(), 1);
    let policy = persist_resource_rule(policy, &args("no", false), &by_path);
    assert!(policy.resources.allow.is_empty());
    assert_eq!(policy.resources.deny[0].path, path);
    assert_eq!(policy.resources.deny[0].comment.as_deref(), Some("no"));
}

#[test]
fn the_methods_of_two_rules_do_not_depend_on_their_order() {
    let both = |first: &str, second: &str| {
        let policy = persist_http_rule(Policy::empty(), &target(first), "", true);
        let policy = persist_http_rule(policy, &target(second), "", true);
        policy.network.http.allow[0].methods.clone()
    };
    assert_eq!(both("GET", "POST"), vec!["GET".to_owned(), "POST".to_owned()]);
    assert_eq!(both("POST", "GET"), both("GET", "POST"));
    assert_eq!(both("GET", "GET"), vec!["GET".to_owned()]);
}
