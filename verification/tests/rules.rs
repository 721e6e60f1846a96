//! Rules of a session and built-in rules.

use policyd::rules::{
    is_protected_host_ipc_socket, is_sandbox_infrastructure_path, policy_denied,
    project_roots_for_allow, session_filesystem_matches, session_network_matches,
    session_sudo_matches,
};
use policyd::state::{FilesystemRuleKey, NetworkRuleKey};
use policyd::types::{
    DeviceAccess, FileAccess, FilesystemRule, NetworkRule, Policy, ResourceAccess, ResourceKind,
    SocketAccess,
};

/// Whether a pattern in which `*` stands for anything spells the text.
fn glob(pattern: &str, text: &str) -> bool {
    match pattern.split_once('*') {
        None => pattern == text,
        Some((start, rest)) => match text.strip_prefix(start) {
            None => false,
            Some(tail) => {
                (0..=tail.len()).any(|i| tail.is_char_boundary(i) && glob(rest, &tail[i..]))
            }
        },
    }
}

fn host_matches(pattern: &String, host: &String) -> bool {
    glob(pattern, host)
}

fn key(host: &str, port: u16) -> NetworkRuleKey {
    NetworkRuleKey { host: host.into(), port }
}

fn network(bucket: &Vec<NetworkRuleKey>, host: &str, port: u16) -> bool {
    session_network_matches(bucket, &vec![key(host, port)], port, &host_matches)
}

/// Whether a rule covers a path seen from a project root.
fn covers(rule: &FilesystemRule, path: &str, access: FileAccess, root: &Option<String>) -> bool {
    let base = match rule.path.strip_prefix("./") {
        Some(rest) => match root {
            Some(root) => format!("{root}/{rest}"),
            None => return false,
        },
        None => rule.path.clone(),
    };
    (path == base || path.starts_with(&format!("{base}/"))) && rule.access.covers(access)
}

#[test]
fn session_filesystem_matches_honors_project_relative_paths() {
    let bucket = vec![FilesystemRuleKey { path: "./.git".into(), access: FileAccess::ReadWrite }];
    let project = Some("/home/user/dotfiles".to_string());
    let config = "/home/user/dotfiles/.git/config";
    let matches = |rule: &FilesystemRule, root: &Option<String>| {
        covers(rule, config, FileAccess::ReadWrite, root)
    };
    assert!(session_filesystem_matches(&bucket, &project, &matches));
    assert!(!session_filesystem_matches(&bucket, &None, &matches));
}

#[test]
fn protected_host_ipc_socket_is_builtin_denied() {
    for path in [
        "/run/dbus/system_bus_socket",
        "/run/dbus/custom.sock",
        "/run/systemd/private",
        "/run/systemd/notify",
        "/run/user/1000/bus",
        "/run/user/1000/systemd/private",
        "@abstract:/tmp/dbus-1234",
        "@abstract:org.freedesktop.systemd1",
    ] {
        assert!(is_protected_host_ipc_socket(
            ResourceKind::UnixSocket,
            path,
            ResourceAccess::Socket(SocketAccess::Connect)
        ));
        assert!(is_protected_host_ipc_socket(
            ResourceKind::UnixSocket,
            path,
            ResourceAccess::Socket(SocketAccess::Send)
        ));
    }
    assert!(!is_protected_host_ipc_socket(
        ResourceKind::UnixSocket,
        "@abstract:nv_target_process_1234",
        ResourceAccess::Socket(SocketAccess::Connect)
    ));
    assert!(!is_protected_host_ipc_socket(
        ResourceKind::UnixSocket,
        "/run/user/1000/portal-bus",
        ResourceAccess::Socket(SocketAccess::Connect)
    ));
    assert!(!is_protected_host_ipc_socket(
        ResourceKind::Device,
        "/run/user/1000/bus",
        ResourceAccess::Device(DeviceAccess::Read)
    ));
}

#[test]
fn session_network_matches_wildcard_hosts() {
    let bucket = vec![key("*.baz.com", 443)];
    assert!(network(&bucket, "foo.bar.baz.com", 443));
    assert!(!network(&bucket, "foo.bar.baz.com", 80));
}

#[test]
fn session_network_matches_ipv4_prefix_wildcard() {
    let bucket = vec![key("34.230.40.*", 443)];
    assert!(network(&bucket, "34.230.40.69", 443));
    assert!(network(&bucket, "34.230.40.1", 443));
    assert!(!network(&bucket, "34.230.41.69", 443));
    assert!(!network(&bucket, "34.230.40.69", 80));
    assert!(!network(&bucket, "34.230.4.1", 443));
}

#[test]
fn session_network_matches_ipv4_broader_prefix_wildcards() {
    let bucket = vec![key("34.*", 443)];
    assert!(network(&bucket, "34.230.40.69", 443));
    assert!(network(&bucket, "34.0.0.1", 443));
    assert!(!network(&bucket, "35.0.0.1", 443));
}

#[test]
fn session_network_matches_ipv6_prefix_wildcard() {
    let bucket = vec![key("2001:db8:*", 443)];
    assert!(network(&bucket, "2001:db8::1", 443));
    assert!(network(&bucket, "2001:db8:0:0:0:0:0:1", 443));
    assert!(!network(&bucket, "2001:db9::1", 443));
    assert!(!network(&bucket, "2001:db8::1", 80));
}

#[test]
fn session_sudo_matches_prefixes() {
    let bucket = vec![vec![String::from("sudo"), String::from("apt")]];
    let argv = vec![String::from("sudo"), String::from("apt"), String::from("update")];
    assert!(session_sudo_matches(&bucket, &argv));
}

#[test]
fn session_sudo_needs_the_whole_prefix() {
    let bucket = vec![vec![String::from("sudo"), String::from("apt")]];
    assert!(!session_sudo_matches(&bucket, &vec![String::from("sudo")]));
    assert!(!session_sudo_matches(
        &bucket,
        &vec![String::from("sudo"), String::from("apt-get")]
    ));
    assert!(!session_sudo_matches(&Vec::new(), &vec![String::from("sudo")]));
}

#[test]
fn any_name_of_the_host_may_match() {
    let bucket = vec![key("cdn.example", 443)];
    let keys = vec![key("example.com", 443), key("cdn.example", 443)];
    assert!(session_network_matches(&bucket, &keys, 443, &host_matches));
    assert!(!session_network_matches(&Vec::new(), &keys, 443, &host_matches));
}

#[test]
fn policy_denies_by_host_and_port() {
    let mut policy = Policy::empty();
    policy.network.direct.deny.push(NetworkRule::new("*.evil.example".into(), 443, ""));
    assert!(policy_denied(&policy, &"a.evil.example".into(), 443, &host_matches));
    assert!(!policy_denied(&policy, &"a.evil.example".into(), 80, &host_matches));
    assert!(!policy_denied(&policy, &"good.example".into(), 443, &host_matches));
}

#[test]
fn project_roots_are_tried_without_repeats() {
    let ctx = Some("/repo".to_string());
    let git = Some("/repo/nested".to_string());
    assert_eq!(project_roots_for_allow(&ctx, &git), vec!["/repo", "/repo/nested"]);
    assert_eq!(project_roots_for_allow(&ctx, &ctx), vec!["/repo"]);
    assert_eq!(project_roots_for_allow(&None, &git), vec!["/repo/nested"]);
    assert!(project_roots_for_allow(&None, &None).is_empty());
}

#[test]
fn infrastructure_paths_are_told_apart() {
    assert!(is_sandbox_infrastructure_path("/run/agent-sandbox"));
    assert!(is_sandbox_infrastructure_path("/run/agent-sandbox/policy.sock"));
    assert!(!is_sandbox_infrastructure_path("/run/agent-sandboxed"));
    assert!(!is_sandbox_infrastructure_path("/home/user/file"));
}

#[test]
fn accesses_cover_and_join() {
    assert!(FileAccess::All.covers(FileAccess::Execute));
    assert!(FileAccess::ReadWrite.covers(FileAccess::Read));
    assert!(!FileAccess::Read.covers(FileAccess::Write));
    assert_eq!(FileAccess::Read.union(FileAccess::Write), FileAccess::ReadWrite);
    let connect = ResourceAccess::Socket(SocketAccess::Connect);
    let send = ResourceAccess::Socket(SocketAccess::Send);
    assert_eq!(connect.union(send), Some(ResourceAccess::Socket(SocketAccess::All)));
    assert_eq!(connect.union(ResourceAccess::Device(DeviceAccess::Read)), None);
}
