//! Cgroups that are frozen while the user is asked.

use std::collections::BTreeMap;

use policyd::freeze::{
    cgroup_for_pid, cleanup_default_registry, is_agent_scope, registry_contents, AcquireStep,
    CgroupFreezeError, CgroupFreezeHold, CgroupFreezeManager, CgroupPath, CleanupStep, FrozenStep,
    PendingHold, PersistedStep, RegistryRead, ReleaseStep, ThawResult,
};

const SCOPE: &str = "/sys/fs/cgroup/user.slice/agent-sandbox-abc.scope";

/// The freezer files and the registry, and every write to them in turn.
#[derive(Default)]
struct Disk {
    freezers: BTreeMap<String, String>,
    registry: Option<String>,
    full: bool,
    writes: Vec<String>,
}

impl Disk {
    fn with(path: &str, state: &str) -> Disk {
        let mut disk = Disk::default();
        disk.freezers.insert(path.to_string(), state.to_string());
        disk
    }

    fn set(&mut self, path: &str, state: &str) -> Result<(), String> {
        self.writes.push(format!("{state} {path}"));
        match self.freezers.get_mut(path) {
            Some(file) => {
                *file = state.to_string();
                Ok(())
            }
            None => Err("no such file".to_string()),
        }
    }

    fn persist(&mut self, list: &Vec<String>) -> Result<(), String> {
        self.writes.push(format!("list {}", list.join(" ")));
        if self.full {
            return Err("disk full".to_string());
        }
        self.registry = Some(registry_contents(list));
        Ok(())
    }

    fn acquire(
        &mut self,
        manager: &mut CgroupFreezeManager,
        pid: Option<u32>,
        found: Result<String, CgroupFreezeError>,
    ) -> Result<Option<CgroupFreezeHold>, CgroupFreezeError> {
        let (list, pending) = match manager.acquire(pid, found)? {
            AcquireStep::Nothing => return Ok(None),
            AcquireStep::Persist { list, pending } => (list, pending),
        };
        let written = self.persist(&list);
        let path = match manager.on_persisted(pending, written) {
            PersistedStep::Failed(error) => return Err(error),
            PersistedStep::Held(hold) => return Ok(Some(hold)),
            PersistedStep::Freeze(path) => path,
        };
        let frozen = self.set(&path, "1");
        match manager.on_frozen(path, frozen) {
            FrozenStep::Held(hold) => Ok(Some(hold)),
            FrozenStep::Persist { list, error } => {
                let _ = self.persist(&list);
                Err(error)
            }
        }
    }

    fn release(&mut self, manager: &mut CgroupFreezeManager, path: &str) {
        let list = match manager.release(CgroupFreezeHold { path: path.to_string() }) {
            ReleaseStep::Persist(list) => list,
            ReleaseStep::Thaw(path) => {
                let done = self.set(&path, "0").is_ok();
                manager.thawed(path, done)
            }
        };
        let _ = self.persist(&list);
    }
}

fn manager_for(path: &str, registry: &str, count: usize) -> CgroupFreezeManager {
    let mut manager = CgroupFreezeManager::new_without_recovery(Some(registry.to_string()));
    manager.holds.insert(CgroupPath { path: path.to_string() }, count);
    manager
}

#[test]
fn last_release_thaws_after_shared_holds() {
    let cgroup = "/tmp/x/sandbox";
    let mut disk = Disk::with(cgroup, "1");
    let mut manager = manager_for(cgroup, "/tmp/x/state", 2);

    disk.release(&mut manager, cgroup);
    assert_eq!(disk.freezers[cgroup], "1");
    assert_eq!(manager.holds.get(&CgroupPath { path: cgroup.into() }), Some(&1));
    assert_eq!(disk.writes, vec![format!("list {cgroup}")]);

    disk.release(&mut manager, cgroup);
    assert_eq!(disk.freezers[cgroup], "0");
    assert_eq!(manager.holds.len(), 0);
    assert_eq!(disk.registry.as_deref(), Some(""));
}

#[test]
fn failed_thaw_retains_recovery_registry() {
    let cgroup = "/tmp/x/missing";
    let mut disk = Disk::default();
    let mut manager = manager_for(cgroup, "/tmp/x/state", 1);

    disk.release(&mut manager, cgroup);
    let registry = disk.registry.expect("the registry exists");
    assert_eq!(registry.trim(), cgroup);
    assert_eq!(manager.holds.get(&CgroupPath { path: cgroup.into() }), Some(&1));
}

#[test]
fn stale_registry_cleanup_removes_missing_cgroup_entries() {
    let mut cleanup = cleanup_default_registry(Some("/tmp/x/state".into()));
    assert_eq!(cleanup.registry, "/tmp/x/state");
    let step = cleanup.on_read(RegistryRead::Contents(
        "/sys/fs/cgroup/agent-sandbox-freeze-test-missing.scope\n".into(),
    ));
    assert_eq!(
        step,
        CleanupStep::Thaw(vec!["/sys/fs/cgroup/agent-sandbox-freeze-test-missing.scope".into()])
    );
    let step = cleanup.on_thawed(&vec![ThawResult::Missing]);
    assert_eq!(step, CleanupStep::Remove("/tmp/x/state".into()));
    assert_eq!(cleanup.on_removed(Ok(())), Ok(()));
}

#[test]
fn a_hold_is_written_down_before_its_cgroup_freezes() {
    let mut disk = Disk::with(SCOPE, "0");
    let mut manager = CgroupFreezeManager::new_without_recovery(None);
    let first = disk.acquire(&mut manager, Some(7), Ok(SCOPE.into()));
    assert_eq!(first, Ok(Some(CgroupFreezeHold { path: SCOPE.into() })));
    assert_eq!(disk.writes, vec![format!("list {SCOPE}"), format!("1 {SCOPE}")]);
    let second = disk.acquire(&mut manager, Some(8), Ok(SCOPE.into()));
    assert_eq!(second, Ok(Some(CgroupFreezeHold { path: SCOPE.into() })));
    assert_eq!(disk.writes.len(), 3);
    assert_eq!(disk.writes[2], format!("list {SCOPE}"));
    disk.release(&mut manager, SCOPE);
    assert_eq!(disk.freezers[SCOPE], "1");
    disk.release(&mut manager, SCOPE);
    assert_eq!(disk.freezers[SCOPE], "0");
    assert_eq!(manager.holds.len(), 0);
}

#[test]
fn a_cgroup_goes_by_its_components() {
    let mut disk = Disk::with(SCOPE, "0");
    let mut manager = CgroupFreezeManager::new_without_recovery(None);
    let again = format!("{SCOPE}/./");
    assert!(disk.acquire(&mut manager, Some(7), Ok(SCOPE.into())).is_ok());
    assert_eq!(
        manager.acquire(Some(8), Ok(again.clone())),
        Ok(AcquireStep::Persist {
            list: vec![SCOPE.into()],
            pending: PendingHold { path: again.clone(), first: false },
        })
    );
    assert_eq!(manager.holds.get(&CgroupPath { path: SCOPE.into() }), Some(&2));
    assert_eq!(manager.held(), vec![SCOPE.to_string()]);
    disk.release(&mut manager, &again);
    assert_eq!(disk.freezers[SCOPE], "1");
}

#[test]
fn nothing_is_written_without_a_process_or_a_scope() {
    let mut disk = Disk::with(SCOPE, "0");
    let mut manager = CgroupFreezeManager::new_without_recovery(None);
    assert_eq!(disk.acquire(&mut manager, None, Ok(SCOPE.into())), Ok(None));
    let wrong = CgroupFreezeError::WrongOwner { pid: 7, expected_uid: 1000, actual_uid: 0 };
    let refused = disk.acquire(&mut manager, Some(7), Err(wrong));
    assert_eq!(
        refused,
        Err(CgroupFreezeError::WrongOwner { pid: 7, expected_uid: 1000, actual_uid: 0 })
    );
    assert!(disk.writes.is_empty());
    assert_eq!(manager.holds.len(), 0);
}

#[test]
fn a_hold_that_is_not_written_down_freezes_nothing() {
    let mut disk = Disk::with(SCOPE, "0");
    disk.full = true;
    let mut manager = CgroupFreezeManager::new_without_recovery(None);
    let failed = disk.acquire(&mut manager, Some(7), Ok(SCOPE.into()));
    assert_eq!(failed, Err(CgroupFreezeError::Registry("disk full".into())));
    assert_eq!(disk.freezers[SCOPE], "0");
    assert_eq!(disk.writes, vec![format!("list {SCOPE}")]);
    assert_eq!(manager.holds.len(), 0);
}

#[test]
fn a_shared_hold_that_is_not_written_down_keeps_the_others() {
    let mut disk = Disk::with(SCOPE, "1");
    disk.full = true;
    let mut manager = manager_for(SCOPE, "/tmp/x/state", 2);
    assert!(disk.acquire(&mut manager, Some(7), Ok(SCOPE.into())).is_err());
    assert_eq!(disk.freezers[SCOPE], "1");
    assert_eq!(manager.holds.get(&CgroupPath { path: SCOPE.into() }), Some(&2));
}

#[test]
fn a_cgroup_that_does_not_freeze_is_not_held() {
    let mut disk = Disk::default();
    let mut manager = CgroupFreezeManager::new_without_recovery(None);
    let failed = disk.acquire(&mut manager, Some(7), Ok(SCOPE.into()));
    assert_eq!(
        failed,
        Err(CgroupFreezeError::Freeze { path: SCOPE.into(), reason: "no such file".into() })
    );
    assert_eq!(disk.registry.as_deref(), Some(""));
    assert_eq!(manager.holds.len(), 0);
}

#[test]
fn a_failed_recovery_keeps_the_registry_and_tells_the_first_failure() {
    let mut cleanup = cleanup_default_registry(None);
    assert_eq!(cleanup.registry, "/run/agent-sandbox/cgroup-freeze");
    let step = cleanup.on_read(RegistryRead::Contents(format!("{SCOPE}\n/home/a\n{SCOPE}2\n")));
    assert_eq!(step, CleanupStep::Thaw(vec![SCOPE.into(), format!("{SCOPE}2")]));
    let kept = cleanup.on_thawed(&vec![ThawResult::Thawed, ThawResult::Failed("busy".into())]);
    assert_eq!(
        kept,
        CleanupStep::Done(Err(CgroupFreezeError::Freeze {
            path: format!("{SCOPE}2"),
            reason: "busy".into(),
        }))
    );
    let both = cleanup
        .on_thawed(&vec![ThawResult::Failed("first".into()), ThawResult::Failed("second".into())]);
    assert_eq!(
        both,
        CleanupStep::Done(Err(CgroupFreezeError::Freeze {
            path: SCOPE.into(),
            reason: "first".into(),
        }))
    );
    assert_eq!(
        cleanup.on_removed(Err("read only".into())),
        Err(CgroupFreezeError::Registry("read only".into()))
    );
}

#[test]
fn a_daemon_that_left_no_registry_left_nothing_frozen() {
    let mut cleanup = CgroupFreezeManager::cleanup_default_registry(Some("/tmp/registry".into()));
    assert_eq!(cleanup.on_read(RegistryRead::Missing), CleanupStep::Done(Ok(())));
    assert_eq!(
        cleanup.on_read(RegistryRead::Failed("denied".into())),
        CleanupStep::Done(Err(CgroupFreezeError::Registry("denied".into())))
    );
}

#[test]
fn the_registry_holds_one_cgroup_a_line() {
    assert_eq!(registry_contents(&vec!["/a".into(), "/b".into()]), "/a\n/b\n");
    assert_eq!(registry_contents(&Vec::new()), "");
}

fn status(uid: u32) -> Result<String, String> {
    Ok(format!("Name:\tsh\nUid:\t{uid}\t{uid}\t{uid}\t{uid}\n"))
}

fn cgroup() -> Result<String, String> {
    Ok("1:cpu:/old\n0::/user.slice/agent-sandbox-abc.scope\n".to_string())
}

#[test]
fn the_cgroup_of_a_sandbox_process_is_found() {
    let found = cgroup_for_pid(7, Some(1000), &status(1000), &cgroup(), |_: &String| true);
    assert_eq!(found, Ok(SCOPE.to_string()));
    let unasked = cgroup_for_pid(7, None, &Err("gone".into()), &cgroup(), |_: &String| true);
    assert_eq!(unasked, Ok(SCOPE.to_string()));
}

#[test]
fn each_reason_not_to_freeze_is_told() {
    let wrong = cgroup_for_pid(7, Some(1000), &status(0), &cgroup(), |_: &String| true);
    assert_eq!(
        wrong,
        Err(CgroupFreezeError::WrongOwner { pid: 7, expected_uid: 1000, actual_uid: 0 })
    );
    let gone =
        cgroup_for_pid(7, Some(1000), &Err("gone".into()), &cgroup(), |_: &String| true);
    assert!(matches!(gone, Err(CgroupFreezeError::ProcessCgroup { pid: 7, .. })));
    let v1 = cgroup_for_pid(7, None, &status(0), &Ok("1:cpu:/x\n".into()), |_: &String| true);
    assert_eq!(v1, Err(CgroupFreezeError::NotCgroupV2 { pid: 7 }));
    let other = Ok("0::/user.slice/other.scope\n".to_string());
    let unmanaged = cgroup_for_pid(7, None, &status(0), &other, |_: &String| true);
    assert!(matches!(unmanaged, Err(CgroupFreezeError::UnmanagedScope { pid: 7, .. })));
    let missing = cgroup_for_pid(7, None, &status(0), &cgroup(), |_: &String| false);
    assert_eq!(missing, Err(CgroupFreezeError::InvalidPath(SCOPE.into())));
    for error in [wrong, gone, v1, unmanaged, missing] {
        let error = error.expect_err("each of them fails");
        assert!(!error.message().is_empty());
    }
}

#[test]
fn scopes_of_the_launcher_are_told_apart() {
    assert!(is_agent_scope("/user.slice/agent-sandbox-1.scope"));
    assert!(is_agent_scope("/user.slice/agent-sandbox-1.SCOPE/inner"));
    assert!(!is_agent_scope("/user.slice/agent-sandbox-.scope"));
    assert!(!is_agent_scope("/user.slice/agent-sandbox-1.slice"));
    assert!(!is_agent_scope("/user.slice/sandbox-1.scope"));
}
