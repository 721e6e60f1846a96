//! File accesses: what rules and decisions say, and who waits.

use policyd::deny_inodes::{
    deny_fingerprint, DenyFingerprint, DenyInodeCache, WalkEntry, WalkStep,
    MAX_DENY_INODE_ENTRIES,
};
use policyd::evaluator::FilesystemQuery;
use policyd::filesystem::{
    expand_static_allow_rules, is_ready_line, monitor_reply, spawn_uid, FilesystemApproval,
    FilesystemWaitEvent, FilesystemWaitStep, MonitorOutcome,
};
use policyd::rules::InodeIdentity;
use policyd::state::{FilesystemRuleKey, SandboxSessionRegistration};
use policyd::store::{Limits, PolicyStore, PolicydArgs};
use policyd::types::{
    ApprovalScope, FileAccess, FilesystemRule, Policy, ProcessIds, ResolvedRequestContext,
    SandboxPaths, VerdictSource,
};
use policyd::waiting::begin_wait;

fn store() -> PolicyStore {
    PolicyStore::new(
        PolicydArgs {
            host_socket: "/tmp/test.sock".into(),
            sandbox_socket: "/tmp/test-sandbox.sock".into(),
            proxy_socket: None,
            proxy_gid: None,
            declarative: "/tmp/declarative.json".into(),
            export_json: "/tmp/export.json".into(),
            export_nix: None,
            approval_timeout: 30_000_000_000,
            interactive_approval: true,
            ui_spawn_cmd: None,
            package_declarative: Vec::new(),
            fs_monitor_cmd: None,
            syscall_broker_cmd: None,
        },
        Limits {
            pending_approvals: 64,
            waiters_per_pending: 64,
            static_allow_rules: 64,
            proxy_flows: 64,
            verdict_cache: 64,
        },
        None,
    )
}

/// Whether a pattern in which `*` stands for anything spells the text.
fn glob(pattern: &str, text: &str) -> bool {
    match pattern.split_once('*') {
        None => pattern == text,
        Some((start, rest)) => match text.strip_prefix(start) {
            None => false,
            Some(tail) => {
                (0..=tail.len()).any(|i| tail.is_char_boundary(i) && glob(rest, &tail[i..]))
            }
        },
    }
}

fn context(session: &str) -> ResolvedRequestContext {
    ResolvedRequestContext {
        paths: SandboxPaths::from_wire(
            Some("/repo".into()),
            Some("/home/user".into()),
            Some("/repo".into()),
        ),
        ids: ProcessIds::from_options(Some(0), Some(1000)),
        sandbox_session_id: Some(session.into()),
        package: None,
    }
}

/// Whether a rule covers a path and an access, seen from a project root.
fn covers(rule: &FilesystemRule, path: &str, access: FileAccess, root: &Option<String>) -> bool {
    let base = match rule.path.strip_prefix("./") {
        Some(rest) => match root {
            Some(root) => format!("{root}/{rest}"),
            None => return false,
        },
        None => rule.path.clone(),
    };
    let dir = base.trim_end_matches('/');
    (glob(&base, path) || path.starts_with(&format!("{dir}/"))) && rule.access.covers(access)
}

struct Case {
    store: PolicyStore,
    project_root: Option<String>,
    policy: Policy,
    sessions: Vec<String>,
    git_root: Option<String>,
    identity: Option<InodeIdentity>,
}

fn case() -> Case {
    Case {
        store: store(),
        project_root: Some("/repo".into()),
        policy: Policy::empty(),
        sessions: Vec::new(),
        git_root: None,
        identity: None,
    }
}

impl Case {
    /// The verdict's outcome and source, where rules or decisions give one.
    fn check(&self, path: &str, access: FileAccess) -> Option<(bool, VerdictSource)> {
        let path = path.to_string();
        let mut ctx = context("sandbox-cap");
        ctx.paths.project_root = self.project_root.clone();
        let q = FilesystemQuery {
            path: &path,
            access,
            ctx: &ctx,
            policy: &self.policy,
            git_root: &self.git_root,
            sessions: &self.sessions,
            identity: self.identity,
        };
        let matches = |rule: &FilesystemRule, root: &Option<String>| {
            covers(rule, &path, access, root)
        };
        self.store
            .check_filesystem(&q, &matches, &|_: &String| false)
            .map(|reply| (reply.allowed, reply.source))
    }

    fn ask(&mut self, path: &str, access: FileAccess, waiter: u64) -> FilesystemApproval {
        let path = path.to_string();
        let mut ctx = context("sandbox-cap");
        ctx.paths.project_root = self.project_root.clone();
        let q = FilesystemQuery {
            path: &path,
            access,
            ctx: &ctx,
            policy: &self.policy,
            git_root: &self.git_root,
            sessions: &self.sessions,
            identity: self.identity,
        };
        let matches = |rule: &FilesystemRule, root: &Option<String>| {
            covers(rule, &path, access, root)
        };
        self.store.request_filesystem_approval(&q, &matches, &|_: &String| false, waiter, 5, 100)
    }
}

fn rule(path: &str, access: FileAccess, label: &str) -> FilesystemRule {
    FilesystemRule::new(path.into(), access, label)
}

fn allowed(found: Option<(bool, VerdictSource)>) -> bool {
    matches!(found, Some((true, _)))
}

fn denied(found: Option<(bool, VerdictSource)>) -> bool {
    matches!(found, Some((false, _)))
}

#[test]
fn cli_approval_during_ui_wait_unblocks_filesystem_promptly() {
    let mut case = case();
    let path = "/repo/file.txt".to_string();
    let FilesystemApproval::Wait(pending) = case.ask(&path, FileAccess::Read, 4) else {
        panic!("nothing answers");
    };
    assert!(pending.id.starts_with("fs:"));
    let phase = begin_wait(100, case.store.args.approval_timeout);
    let step = case.store.await_filesystem_verdict(
        &pending.id,
        &path,
        FileAccess::Read,
        phase,
        FilesystemWaitEvent::Look { has_ui: false },
        100,
    );
    let FilesystemWaitStep::Wait { phase, .. } = step else {
        panic!("the request waits for a UI");
    };
    let delivery = case
        .store
        .finish_filesystem(
            &pending.id,
            &path,
            FileAccess::Read,
            true,
            VerdictSource::policy_with_comment(&"cli".into()),
            101,
        )
        .expect("the caller is told");
    assert_eq!(delivery.told, vec![4]);
    let step = case.store.await_filesystem_verdict(
        &pending.id,
        &path,
        FileAccess::Read,
        phase,
        FilesystemWaitEvent::Answered(delivery.reply),
        101,
    );
    let FilesystemWaitStep::Done(reply) = step else {
        panic!("the answer ends the wait");
    };
    assert!(reply.allowed);
    assert_eq!(reply.source, VerdictSource::policy_with_comment(&"cli".into()));
}

#[test]
fn filesystem_allow_verdict_is_not_cached() {
    let mut case = case();
    let path = "/tmp/agent-sandbox-allow-not-cached".to_string();
    case.store.finish_filesystem(
        &"fs:test".to_string(),
        &path,
        FileAccess::Read,
        true,
        VerdictSource::Scope(ApprovalScope::Once),
        100,
    );
    assert!(case
        .store
        .check_filesystem_verdict_cache(&path, FileAccess::Read, false, &|_: &String| false, 100)
        .is_none());
}

#[test]
fn filesystem_deny_verdict_is_cached_briefly() {
    let mut case = case();
    let path = "/tmp/agent-sandbox-deny-cached".to_string();
    case.store.finish_filesystem(
        &"fs:test".to_string(),
        &path,
        FileAccess::Read,
        false,
        VerdictSource::User,
        100,
    );
    let ask = |store: &PolicyStore, now: u64| {
        store.check_filesystem_verdict_cache(
            &path,
            FileAccess::Read,
            false,
            &|_: &String| false,
            now,
        )
    };
    let reply = ask(&case.store, 101).expect("deny verdict should be cached");
    assert!(!reply.allowed);
    assert!(ask(&case.store, 3_600_000_000_000).is_none());
}

#[test]
fn check_filesystem_mutation_denies_when_any_endpoint_denied() {
    let mut case = case();
    case.policy.filesystem.allow.push(rule("/repo/allowed.txt", FileAccess::ReadWrite, "source"));
    case.policy.filesystem.deny.push(rule("/repo/denied.txt", FileAccess::All, "destination"));
    assert!(allowed(case.check("/repo/allowed.txt", FileAccess::ReadWrite)));
    assert!(denied(case.check("/repo/denied.txt", FileAccess::ReadWrite)));
}

#[test]
fn check_filesystem_symlink_checks_target_read_and_linkpath_write() {
    let mut case = case();
    case.policy.filesystem.allow.push(rule("/repo/target.txt", FileAccess::Read, "target"));
    case.policy.filesystem.deny.push(rule("/repo/link.txt", FileAccess::All, "linkpath"));
    assert!(allowed(case.check("/repo/target.txt", FileAccess::Read)));
    assert!(denied(case.check("/repo/link.txt", FileAccess::Write)));
}

fn static_allow(case: &mut Case, path: &str, access: FileAccess) {
    case.store.store_sandbox_static_allow(
        &context("sandbox-cap"),
        vec![rule(path, access, "static allow")],
    );
}

#[test]
fn check_filesystem_allows_broad_static_glob_when_not_denied() {
    let mut case = case();
    static_allow(&mut case, "/repo/vendor/**", FileAccess::Read);
    assert_eq!(
        case.check("/repo/vendor/pkg/LICENSE", FileAccess::Read),
        Some((true, VerdictSource::Static))
    );
}

#[test]
fn check_filesystem_denies_when_broad_static_glob_matches_but_policy_denies() {
    let mut case = case();
    static_allow(&mut case, "/repo/**", FileAccess::All);
    case.policy.filesystem.deny.push(rule("/repo/LICENSE", FileAccess::All, "deny license"));
    assert_eq!(
        case.check("/repo/LICENSE", FileAccess::Read),
        Some((false, VerdictSource::policy())),
        "a denial comes before broad static-allow globs"
    );
}

#[test]
fn infrastructure_paths_are_allowed_without_merged_policy() {
    let mut case = case();
    case.policy.filesystem.deny.push(rule("/run", FileAccess::All, ""));
    assert_eq!(
        case.check("/run/agent-sandbox/sandbox-policy.sock", FileAccess::ReadWrite),
        Some((true, VerdictSource::Infrastructure))
    );
}

#[test]
fn static_allow_allows_when_no_deny_matches() {
    let mut case = case();
    static_allow(&mut case, "/repo/LICENSE", FileAccess::Read);
    assert_eq!(
        case.check("/repo/LICENSE", FileAccess::Read),
        Some((true, VerdictSource::Static))
    );
    assert_eq!(case.check("/repo/NOTICE", FileAccess::Read), None);
}

#[test]
fn static_allow_does_not_override_concrete_deny() {
    let mut case = case();
    static_allow(&mut case, "/repo/LICENSE", FileAccess::All);
    case.policy.filesystem.deny.push(rule("/repo/LICENSE", FileAccess::All, "deny license"));
    assert_eq!(
        case.check("/repo/LICENSE", FileAccess::Read),
        Some((false, VerdictSource::policy()))
    );
}

#[test]
fn static_allow_does_not_override_inode_deny() {
    let mut case = case();
    static_allow(&mut case, "/repo/alias.txt", FileAccess::All);
    case.policy.filesystem.deny.push(rule("/repo/secret.txt", FileAccess::All, "deny secret"));
    let inode = InodeIdentity { inode: 5, device: 1 };
    case.store.deny_inodes.index_file(inode, "/repo/secret.txt".into(), FileAccess::All);
    case.identity = Some(inode);
    assert_eq!(
        case.check("/repo/alias.txt", FileAccess::Read),
        Some((false, VerdictSource::policy()))
    );
    case.identity = Some(InodeIdentity { inode: 6, device: 1 });
    assert!(allowed(case.check("/repo/alias.txt", FileAccess::Read)));
}

#[test]
fn global_git_star_rule_needs_project_root_to_match() {
    let mut case = case();
    case.policy.filesystem.allow.push(rule("./.git*", FileAccess::ReadWrite, "global"));
    assert_eq!(
        case.check("/repo/.git/config", FileAccess::ReadWrite),
        Some((true, VerdictSource::policy())),
        "global ./.git* should match .git/config when project_root is set"
    );
    case.project_root = None;
    case.git_root = Some("/repo".into());
    assert_eq!(
        case.check("/repo/.git/config", FileAccess::ReadWrite),
        Some((true, VerdictSource::policy())),
        "global ./.git* should still match via the git root when project_root is empty"
    );
    case.git_root = None;
    assert_eq!(case.check("/repo/.git/config", FileAccess::ReadWrite), None);
}

#[test]
fn global_git_star_matches_objects_when_ctx_project_root_is_stale() {
    let mut case = case();
    case.policy.filesystem.allow.push(rule("./.git*", FileAccess::ReadWrite, "global"));
    case.project_root = Some("/tmp".into());
    case.git_root = Some("/agent-sandbox".into());
    assert_eq!(
        case.check("/agent-sandbox/.git/objects/pack", FileAccess::ReadWrite),
        Some((true, VerdictSource::policy())),
        "git root inferred from path should match ./.git* even when project_root is stale"
    );
}

#[test]
fn session_deny_overrides_global_allow_for_git_objects() {
    let mut case = case();
    case.policy.filesystem.allow.push(rule("./.git*", FileAccess::ReadWrite, "global"));
    case.sessions = vec!["ui-git-session".into()];
    case.store.session.filesystem_deny.insert(
        "ui-git-session".into(),
        vec![FilesystemRuleKey { path: "./.git".into(), access: FileAccess::ReadWrite }],
    );
    assert_eq!(
        case.check("/repo/.git/objects/pack", FileAccess::Read),
        Some((false, VerdictSource::policy())),
        "session deny on ./.git blocks the tree even when global ./.git* allows"
    );
    case.sessions = Vec::new();
    assert!(allowed(case.check("/repo/.git/objects/pack", FileAccess::Read)));
}

#[test]
fn equal_file_requests_share_a_prompt() {
    let mut case = case();
    let FilesystemApproval::Wait(first) = case.ask("/repo/x", FileAccess::Read, 1) else {
        panic!("nothing answers");
    };
    let FilesystemApproval::Wait(second) = case.ask("/repo/x", FileAccess::Read, 2) else {
        panic!("nothing answers");
    };
    assert_eq!(first.id, second.id);
    assert!(first.is_new && !second.is_new);
    let FilesystemApproval::Wait(other) = case.ask("/repo/x", FileAccess::Write, 3) else {
        panic!("nothing answers");
    };
    assert_ne!(first.id, other.id);
}

#[test]
fn expand_static_allow_rules_canonicalizes_home_symlinks() {
    let expand = |path: &String| path.replacen("~", "/home/user", 1);
    let target = "/home/user/dotfiles/home/dot_omp";
    let canonical = |path: &String| {
        if path == "/home/user/.omp" {
            target.to_string()
        } else {
            path.clone()
        }
    };
    let rules = expand_static_allow_rules(
        &vec![rule("~/.omp", FileAccess::ReadWrite, ""), rule("/etc", FileAccess::Read, "l")],
        &expand,
        &canonical,
    );
    assert_eq!(rules[0].path, target);
    let config = format!("{target}/private_agent/config.yml");
    assert!(
        covers(&rules[0], &config, FileAccess::ReadWrite, &None),
        "static allow must match paths under the symlink target"
    );
    assert_eq!(rules[1].path, "/etc");
    assert_eq!(rules[1].comment.as_deref(), Some("l"));
}

#[test]
fn a_monitor_is_started_only_where_it_can_be() {
    let mut case = case();
    let ctx = context("sandbox-cap");
    let refused = case
        .store
        .start_filesystem_monitor(7, &Vec::new(), &ctx)
        .expect_err("no monitor is configured");
    assert_eq!(refused.error.as_deref(), Some("fs_monitor_cmd not configured"));
    case.store.args.fs_monitor_cmd = Some("/bin/fsmon".into());
    let refused = case
        .store
        .start_filesystem_monitor(0, &Vec::new(), &ctx)
        .expect_err("nothing to monitor");
    assert_eq!(refused.error.as_deref(), Some("cannot determine monitor target pid"));
    let plan =
        case.store.start_filesystem_monitor(7, &Vec::new(), &ctx).expect("the monitor starts");
    assert_eq!(plan.program, "/bin/fsmon");
    assert_eq!(
        plan.arguments,
        vec![
            "--pid",
            "7",
            "--socket",
            "/tmp/test-sandbox.sock",
            "--cwd",
            "/repo",
            "--home",
            "/home/user",
            "--project-root",
            "/repo"
        ]
    );
    assert!(monitor_reply(&MonitorOutcome::Ready).active);
    assert!(!monitor_reply(&MonitorOutcome::TimedOut).active);
    assert!(!is_ready_line(""));
}

#[test]
fn a_ui_runs_as_the_user_of_the_request_or_of_the_home() {
    assert_eq!(spawn_uid(Some(1000), true, Some(2000)), Some(1000));
    assert_eq!(spawn_uid(Some(0), true, Some(2000)), Some(2000));
    assert_eq!(spawn_uid(None, true, None), None);
    assert_eq!(spawn_uid(None, false, Some(2000)), None);
}

#[test]
fn denied_files_are_known_by_inode() {
    let mut policy = Policy::empty();
    policy.filesystem.deny.push(rule("/b", FileAccess::Read, ""));
    policy.filesystem.deny.push(rule("/a", FileAccess::All, ""));
    policy.filesystem.deny.push(rule("/glob/*", FileAccess::All, ""));
    let same = |path: &String| path.clone();
    let fingerprint = deny_fingerprint(&policy, &same, &|_: &String| Some(1));
    let seen: Vec<&str> = fingerprint.iter().map(|f| f.path.as_str()).collect();
    assert_eq!(seen, vec!["/a", "/b"]);
    let mut cache = DenyInodeCache::new(fingerprint);
    let fresh = deny_fingerprint(&policy, &same, &|_: &String| Some(1));
    assert!(!cache.fingerprint_changed(&fresh));
    let changed = deny_fingerprint(&policy, &same, &|_: &String| Some(2));
    assert!(cache.fingerprint_changed(&changed));
    let inode = InodeIdentity { inode: 1, device: 2 };
    let step = cache.visit(WalkEntry::File(inode), "/a/x".into(), FileAccess::Read);
    assert_eq!(step, WalkStep::Next);
    assert_eq!(
        cache.visit(WalkEntry::Directory, "/a/d".into(), FileAccess::Read),
        WalkStep::Descend
    );
    assert!(cache.is_denied(Some(inode), FileAccess::Read));
    assert!(!cache.is_denied(Some(inode), FileAccess::Write));
    assert!(!cache.is_denied(None, FileAccess::Read));
    assert_eq!(cache.denied_inodes(), vec![inode]);
    cache.budget = 0;
    let stopped = cache.visit(WalkEntry::File(inode), "/a/y".into(), FileAccess::Read);
    assert_eq!(stopped, WalkStep::Stop);
    assert!(!cache.index_file(inode, "/b".into(), FileAccess::Write));
    assert!(!cache.is_denied(Some(inode), FileAccess::Write));
    let empty: Vec<DenyFingerprint> = Vec::new();
    assert!(cache.fingerprint_changed(&empty));
}

#[test]
fn each_denied_file_uses_the_budget() {
    let mut cache = DenyInodeCache::new(Vec::new());
    assert_eq!(cache.budget, MAX_DENY_INODE_ENTRIES);
    let inode = InodeIdentity { inode: 1, device: 2 };
    assert!(cache.index_file(inode, "/a".into(), FileAccess::Read));
    cache.visit(WalkEntry::File(inode), "/d/a".into(), FileAccess::All);
    assert_eq!(cache.budget, MAX_DENY_INODE_ENTRIES - 2);
    assert!(cache.is_denied(Some(inode), FileAccess::Write));
}

#[test]
fn a_file_ui_runs_as_the_owner_of_the_sandbox_rather_than_as_root() {
    let mut store = store();
    store.sandbox_sessions.insert(
        "owned".into(),
        SandboxSessionRegistration {
            root_pid: 5,
            owner_uid: 1000,
            package: None,
            launcher_pid: 0,
            launcher_start_time_ticks: 0,
        },
    );
    let owned = Some("owned".to_string());
    assert_eq!(store.filesystem_spawn_uid(Some(0), false, None, &owned), Some(1000));
    assert_eq!(store.filesystem_spawn_uid(Some(0), true, Some(2000), &owned), Some(2000));
    assert_eq!(store.filesystem_spawn_uid(Some(0), false, None, &Some("x".into())), None);
    assert_eq!(store.filesystem_spawn_uid(Some(0), false, None, &None), Some(0));
}

#[test]
fn static_allow_glob_matches_broad_paths_when_not_denied() {
    let mut case = case();
    static_allow(&mut case, "/repo/vendor/**", FileAccess::Read);
    assert_eq!(
        case.check("/repo/vendor/pkg/LICENSE", FileAccess::Read),
        Some((true, VerdictSource::Static))
    );
    assert_eq!(case.check("/repo/vendor/pkg/LICENSE", FileAccess::Write), None);
}

#[test]
fn static_allow_glob_does_not_override_inode_deny() {
    let mut case = case();
    static_allow(&mut case, "/repo/writable/**", FileAccess::All);
    let inode = InodeIdentity { inode: 5, device: 1 };
    case.store.deny_inodes.index_file(inode, "/repo/secret.txt".into(), FileAccess::All);
    case.identity = Some(inode);
    assert_eq!(
        case.check("/repo/writable/alias.txt", FileAccess::Write),
        Some((false, VerdictSource::policy())),
        "static allow globs must not bypass inode deny checks"
    );
}

#[test]
fn static_allow_broad_glob_does_not_override_concrete_deny() {
    let mut case = case();
    static_allow(&mut case, "/repo/**", FileAccess::All);
    case.policy.filesystem.deny.push(rule("/repo/LICENSE", FileAccess::All, "deny license"));
    assert_eq!(
        case.check("/repo/LICENSE", FileAccess::Read),
        Some((false, VerdictSource::policy())),
        "broad user-defined globs must not bypass concrete policy deny"
    );
}

#[test]
fn global_git_slash_prefix_matches_head_with_project_root() {
    let mut case = case();
    case.policy.filesystem.allow.push(rule("./.git/", FileAccess::ReadWrite, "global"));
    assert_eq!(
        case.check("/repo/.git/HEAD", FileAccess::Read),
        Some((true, VerdictSource::policy())),
        "./.git/ prefix should match .git/HEAD when project_root is set"
    );
    case.project_root = None;
    case.git_root = Some("/repo".into());
    assert_eq!(
        case.check("/repo/.git/HEAD", FileAccess::Read),
        Some((true, VerdictSource::policy())),
        "./.git/ prefix should match via git-discovered project root when ctx project_root is empty"
    );
}
