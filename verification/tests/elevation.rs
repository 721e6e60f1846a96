//! Commands that run with the rights of root.

use policyd::elevation::{
    elevation_candidate, elevation_env, elevation_refused, resolve_elevation_argv, user_for_home,
    ElevateReply, ElevationStart, ElevationTarget, ElevationWaitEvent, ElevationWaitStep,
};
use policyd::error::PolicydError;
use policyd::store::{Limits, PolicyStore, PolicydArgs};
use policyd::types::{
    Policy, ProcessIds, ResolvedRequestContext, SandboxPaths, SudoRule,
};
use policyd::waiting::begin_wait;

fn store() -> PolicyStore {
    PolicyStore::new(
        PolicydArgs {
            host_socket: "/tmp/test.sock".into(),
            sandbox_socket: "/tmp/test-sandbox.sock".into(),
            proxy_socket: None,
            proxy_gid: None,
            declarative: "/tmp/declarative.json".into(),
            export_json: "/tmp/export.json".into(),
            export_nix: None,
            approval_timeout: 30_000_000_000,
            interactive_approval: true,
            ui_spawn_cmd: None,
            package_declarative: Vec::new(),
            fs_monitor_cmd: None,
            syscall_broker_cmd: None,
        },
        Limits {
            pending_approvals: 64,
            waiters_per_pending: 64,
            static_allow_rules: 64,
            proxy_flows: 64,
            verdict_cache: 64,
        },
        None,
    )
}

fn argv(words: &[&str]) -> Vec<String> {
    words.iter().map(|w| w.to_string()).collect()
}

fn context() -> ResolvedRequestContext {
    ResolvedRequestContext {
        paths: SandboxPaths::from_wire(
            Some("/repo".into()),
            Some("/home/user".into()),
            Some("/repo".into()),
        ),
        ids: ProcessIds::from_options(Some(0), Some(1000)),
        sandbox_session_id: Some("sandbox-cap".into()),
        package: None,
    }
}

fn ask(store: &mut PolicyStore, policy: &Policy, words: &[&str], sessions: &[&str]) -> ElevationStart {
    let argv = argv(words);
    let matches = |rule: &SudoRule| argv.starts_with(&rule.argv);
    let sessions = sessions.iter().map(|s| s.to_string()).collect();
    store.request_elevation(policy, &matches, &argv, &sessions, &context(), 9, 5)
}

fn executed() -> ElevateReply {
    ElevateReply::Executed { exit_code: 0, stdout: String::new(), stderr: String::new() }
}

#[test]
fn cli_approval_during_ui_wait_unblocks_elevation_promptly() {
    let mut store = store();
    let ElevationStart::Wait(id) =
        ask(&mut store, &Policy::empty(), &["systemctl", "restart"], &[])
    else {
        panic!("nothing answers");
    };
    assert!(id.starts_with("elev:"));
    let phase = begin_wait(100, store.args.approval_timeout);
    let step = store.await_elevation_verdict(
        &id,
        phase,
        ElevationWaitEvent::Look { has_ui: false },
        100,
    );
    let ElevationWaitStep::Wait { phase, .. } = step else {
        panic!("the request waits for a UI");
    };
    let delivery = store.finish_elevation(&id, executed()).expect("the caller is told");
    assert_eq!(delivery.told, 9);
    let step = store.await_elevation_verdict(
        &id,
        phase,
        ElevationWaitEvent::Answered(delivery.reply),
        101,
    );
    let ElevationWaitStep::Done(reply) = step else {
        panic!("the answer ends the wait");
    };
    assert_eq!(reply, executed());
}

#[test]
fn elevation_rejects_executable_outside_nix_store() {
    let outside = ElevationTarget { canonical: "/tmp/evil".into(), is_file: true };
    assert_eq!(
        resolve_elevation_argv(&argv(&["/tmp/evil"]), Some(outside), None).map(|_| ()),
        Err(PolicydError::ElevationArgvNotAbsolute)
    );
    let linked = ElevationTarget { canonical: "/tmp/evil".into(), is_file: true };
    assert_eq!(
        resolve_elevation_argv(&argv(&["evil"]), Some(linked), None).map(|_| ()),
        Err(PolicydError::ElevationArgvNotAbsolute)
    );
}

#[test]
fn elevation_rejects_direct_nix_store_path() {
    let path = "/nix/store/abc-coreutils/bin/true";
    let target = ElevationTarget { canonical: path.into(), is_file: true };
    assert_eq!(
        resolve_elevation_argv(&argv(&[path]), Some(target), None).map(|_| ()),
        Err(PolicydError::ElevationArgvNotAbsolute)
    );
}

fn true_target() -> Option<ElevationTarget> {
    Some(ElevationTarget {
        canonical: "/nix/store/abc-coreutils/bin/coreutils".into(),
        is_file: true,
    })
}

#[test]
fn elevation_resolves_bare_system_profile_binary() {
    assert_eq!(
        elevation_candidate(&argv(&["true", "x"])),
        Ok("/run/current-system/sw/bin/true".to_string())
    );
    let command = resolve_elevation_argv(&argv(&["true", "x"]), true_target(), None)
        .expect("true must resolve");
    assert_eq!(command.program, "/nix/store/abc-coreutils/bin/coreutils");
    assert_eq!(command.arguments, argv(&["x"]));
}

#[test]
fn elevation_accepts_absolute_system_profile_binary() {
    let path = "/run/current-system/sw/bin/true";
    assert_eq!(elevation_candidate(&argv(&[path])), Ok(path.to_string()));
    assert!(resolve_elevation_argv(&argv(&[path]), true_target(), Some("/repo".into())).is_ok());
}

#[test]
fn elevation_rejects_traversal_symlink_alias() {
    assert_eq!(
        elevation_candidate(&argv(&["../../../../tmp/x/rm"])),
        Err(PolicydError::ElevationArgvNotAbsolute)
    );
}

#[test]
fn elevation_rejects_absolute_traversal_symlink_alias() {
    assert_eq!(
        elevation_candidate(&argv(&["/run/current-system/../../../../tmp/x/rm"])),
        Err(PolicydError::ElevationArgvNotAbsolute)
    );
}

#[test]
fn elevation_rejects_symlink_alias_outside_trusted_root() {
    assert_eq!(
        elevation_candidate(&argv(&["/tmp/x/rm"])),
        Err(PolicydError::ElevationArgvNotAbsolute)
    );
}

#[test]
fn a_target_must_be_a_regular_file_that_is_there() {
    let directory =
        ElevationTarget { canonical: "/nix/store/abc-coreutils/bin".into(), is_file: false };
    assert!(resolve_elevation_argv(&argv(&["true"]), Some(directory), None).is_err());
    assert!(resolve_elevation_argv(&argv(&["true"]), None, None).is_err());
    assert!(resolve_elevation_argv(&Vec::new(), true_target(), None).is_err());
}

#[test]
fn policy_decides_before_anybody_is_asked() {
    let mut store = store();
    let mut policy = Policy::empty();
    policy.sudo.allow.push(SudoRule::new(argv(&["id"]), ""));
    assert!(matches!(ask(&mut store, &policy, &["id", "-u"], &[]), ElevationStart::Execute));
    policy.sudo.deny.push(SudoRule::new(argv(&["id"]), ""));
    assert!(matches!(
        ask(&mut store, &policy, &["id", "-u"], &[]),
        ElevationStart::Reply(ElevateReply::Denied)
    ));
    assert_eq!(store.pending.len(), 0);
}

#[test]
fn a_session_decides_for_its_own_commands() {
    let mut store = store();
    store.session.sudo_allow.insert("ui1".into(), vec![argv(&["id"])]);
    assert!(matches!(
        ask(&mut store, &Policy::empty(), &["id", "-u"], &["ui1"]),
        ElevationStart::Execute
    ));
    assert!(matches!(
        ask(&mut store, &Policy::empty(), &["id", "-u"], &["ui2"]),
        ElevationStart::Wait(_)
    ));
}

#[test]
fn the_user_of_a_home_is_looked_up() {
    let passwd = Some("root:x:0:0::/root:/bin/sh\nann:x:1000:100::/home/a:/bin/sh\n".to_string());
    assert_eq!(user_for_home(&Some("/home/a".into()), &passwd), "ann");
    let env = elevation_env(&Some("/home/a".into()), &passwd);
    assert!(env.iter().any(|(k, v)| k == "PATH" && v.contains("/run/current-system/sw/bin")));
}

#[test]
fn a_refusal_carries_the_error() {
    let reply = elevation_refused(&PolicydError::ElevationArgvNotAbsolute);
    let ElevateReply::Refused(message) = reply else {
        panic!("the command is refused");
    };
    assert_eq!(
        message,
        format!("agent-sandbox: {}", PolicydError::ElevationArgvNotAbsolute.message())
    );
}

#[test]
fn a_denied_command_is_denied_whatever_allows_it() {
    let mut store = store();
    let mut policy = Policy::empty();
    policy.sudo.allow.push(SudoRule::new(argv(&["id"]), ""));
    assert_eq!(ask(&mut store, &policy, &["id"], &["ui"]), ElevationStart::Execute);
    store.session.sudo_deny.insert("ui".into(), vec![argv(&["id"])]);
    assert_eq!(
        ask(&mut store, &policy, &["id"], &["ui"]),
        ElevationStart::Reply(ElevateReply::Denied)
    );
    assert_eq!(ask(&mut store, &policy, &["id"], &["other"]), ElevationStart::Execute);
    policy.sudo.deny.push(SudoRule::new(argv(&["id"]), ""));
    assert_eq!(
        ask(&mut store, &policy, &["id"], &["other"]),
        ElevationStart::Reply(ElevateReply::Denied)
    );
    assert_eq!(store.pending.len(), 0);
}

#[test]
fn a_full_board_refuses_another_command() {
    let mut store = store();
    store.limits.pending_approvals = 1;
    assert!(matches!(
        ask(&mut store, &Policy::empty(), &["id"], &[]),
        ElevationStart::Wait(_)
    ));
    let ElevationStart::Reply(ElevateReply::Refused(reason)) =
        ask(&mut store, &Policy::empty(), &["id"], &[])
    else {
        panic!("the second command is refused");
    };
    assert_eq!(reason, "agent-sandbox: too many pending approvals");
}
