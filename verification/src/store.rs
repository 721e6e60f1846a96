//! The policy store: arguments, limits and the state that decisions are made from.

use vstd::prelude::*;

use crate::deny_inodes::DenyInodeCache;
use crate::freeze::CgroupFreezeManager;
use crate::ids;
use crate::registry;
use crate::registry::ProjectContextRegistry;
use crate::state::HttpState;
use crate::state::Pending;
use crate::state::ProxyState;
use crate::state::SandboxSessionRegistration;
use crate::state::SessionRules;
use crate::state::UiState;
use crate::state::VerdictCaches;
use crate::state::Waiters;
use crate::table::Table;

verus! {

/// What the daemon was started with. Times are in nanoseconds.
#[derive(Debug, PartialEq, Eq)]
pub struct PolicydArgs {
    pub host_socket: String,
    pub sandbox_socket: String,
    pub proxy_socket: Option<String>,
    pub proxy_gid: Option<u32>,
    pub declarative: String,
    pub export_json: String,
    pub export_nix: Option<String>,
    pub approval_timeout: u64,
    pub interactive_approval: bool,
    pub ui_spawn_cmd: Option<String>,
    pub package_declarative: Vec<(String, String)>,
    pub fs_monitor_cmd: Option<String>,
    pub syscall_broker_cmd: Option<String>,
}

/// How much of each kind the store holds at once.
#[derive(Clone, Copy, Debug, PartialEq, Eq, Structural)]
pub struct Limits {
    pub pending_approvals: usize,
    pub waiters_per_pending: usize,
    pub static_allow_rules: usize,
    pub proxy_flows: usize,
    pub verdict_cache: usize,
}

/// The policy store.
pub struct PolicyStore {
    pub args: PolicydArgs,
    pub limits: Limits,
    pub sandbox_sessions: Table<String, SandboxSessionRegistration>,
    pub pending: Table<String, Pending>,
    pub waiters: Waiters,
    pub http: HttpState,
    pub caches: VerdictCaches,
    pub session: SessionRules,
    pub proxy: ProxyState,
    pub ui: UiState,
    pub deny_inodes: DenyInodeCache,
    pub project_context: ProjectContextRegistry,
    pub cgroup_freeze: CgroupFreezeManager,
}

impl PolicyStore {
    /// Every table has distinct keys, and every pending approval is filed under its own id.
    pub open spec fn wf(&self) -> bool {
        &&& self.sandbox_sessions.wf()
        &&& self.pending.wf()
        &&& self.waiters.wf()
        &&& self.http.wf()
        &&& self.caches.wf()
        &&& self.session.wf()
        &&& self.proxy.wf()
        &&& self.ui.wf()
        &&& self.deny_inodes.wf()
        &&& self.project_context.wf()
        &&& self.cgroup_freeze.wf()
        &&& forall|id: Seq<char>| #[trigger]
            self.pending@.contains_key(id) ==> self.pending@[id].spec_id()@ == id
    }

    /// The store has the arguments and the limits that the other has. Every function of the store
    /// that changes it keeps both.
    pub open spec fn configured_as(&self, other: &PolicyStore) -> bool {
        self.args == other.args && self.limits == other.limits
    }

    /// The store holds no decision, request, flow or session.
    pub open spec fn blank(&self) -> bool {
        &&& self.sandbox_sessions.vacant()
        &&& self.pending.vacant()
        &&& self.waiters.network.vacant()
        &&& self.waiters.filesystem.vacant()
        &&& self.waiters.resource.vacant()
        &&& self.waiters.elevation.vacant()
        &&& self.http.futures.vacant()
        &&& self.http.waiters.vacant()
        &&& self.http.once_allow.vacant()
        &&& self.http.once_deny.vacant()
        &&& self.http.session_allow.vacant()
        &&& self.http.session_deny.vacant()
        &&& self.http.verdict_cache.vacant()
        &&& self.caches.network.vacant()
        &&& self.caches.filesystem.vacant()
        &&& self.caches.resource.vacant()
        &&& self.session.once_allow.vacant()
        &&& self.session.session_allow.vacant()
        &&& self.session.session_deny.vacant()
        &&& self.session.sudo_allow.vacant()
        &&& self.session.sudo_deny.vacant()
        &&& self.session.filesystem_allow.vacant()
        &&& self.session.filesystem_deny.vacant()
        &&& self.session.resource_allow.vacant()
        &&& self.session.resource_deny.vacant()
        &&& self.session.dbus_allow.vacant()
        &&& self.session.dbus_deny.vacant()
        &&& self.session.static_allow.vacant()
        &&& self.proxy.flows.vacant()
        &&& self.proxy.cancellations.vacant()
        &&& self.ui.clients.vacant()
        &&& self.ui.contexts.vacant()
        &&& self.deny_inodes.inodes.vacant()
        &&& self.deny_inodes.fingerprint@.len() == 0
        &&& self.cgroup_freeze.holds.vacant()
        &&& self.proxy.session is None
        &&& self.project_context@ == (registry::RegistryView {
            boot_epoch: self.project_context.boot_epoch,
            activations: Map::empty(),
            adapters: Map::empty(),
            adapter_by_sandbox: Map::empty(),
            bindings: Map::empty(),
            claims: Map::empty(),
        })
    }

    /// A store for the given daemon arguments. Its freezer leaves cgroups of an earlier daemon
    /// alone; `freeze_registry` is where it writes its own down.
    pub fn new(args: PolicydArgs, limits: Limits, freeze_registry: Option<String>) -> (r: Self)
        ensures
            r.wf(),
            r.args == args,
            r.limits == limits,
            r.blank(),
            !r.cgroup_freeze.recover,
    {
        let r = PolicyStore {
            args,
            limits,
            sandbox_sessions: Table::new(),
            pending: Table::new(),
            waiters: Waiters {
                network: Table::new(),
                filesystem: Table::new(),
                resource: Table::new(),
                elevation: Table::new(),
            },
            http: HttpState {
                futures: Table::new(),
                waiters: Table::new(),
                once_allow: Table::new(),
                once_deny: Table::new(),
                session_allow: Table::new(),
                session_deny: Table::new(),
                verdict_cache: Table::new(),
            },
            caches: VerdictCaches {
                network: Table::new(),
                filesystem: Table::new(),
                resource: Table::new(),
            },
            session: SessionRules {
                once_allow: Table::new(),
                session_allow: Table::new(),
                session_deny: Table::new(),
                sudo_allow: Table::new(),
                sudo_deny: Table::new(),
                filesystem_allow: Table::new(),
                filesystem_deny: Table::new(),
                resource_allow: Table::new(),
                resource_deny: Table::new(),
                dbus_allow: Table::new(),
                dbus_deny: Table::new(),
                static_allow: Table::new(),
            },
            proxy: ProxyState {
                session: None,
                flows: Table::new(),
                cancellations: Table::new(),
            },
            ui: UiState { clients: Table::new(), contexts: Table::new() },
            deny_inodes: DenyInodeCache::new(Vec::new()),
            project_context: ProjectContextRegistry::default(),
            cgroup_freeze: CgroupFreezeManager::new_without_recovery(freeze_registry),
        };
        r
    }

    /// Have the freezer recover what an earlier daemon left frozen.
    pub fn enable_cgroup_freezer(&mut self, freeze_registry: Option<String>)
        requires
            old(self).wf(),
        ensures
            final(self).wf(),
            final(self).configured_as(old(self)),
            *final(self) == (PolicyStore {
                cgroup_freeze: final(self).cgroup_freeze,
                ..*old(self)
            }),
            final(self).cgroup_freeze.holds@ == crate::freeze::Holds::empty(),
            final(self).cgroup_freeze.registry@ == crate::freeze::registry_path(freeze_registry),
            final(self).cgroup_freeze.recover,
    {
        self.cgroup_freeze = CgroupFreezeManager::new(freeze_registry);
    }

    /// What the daemon was started with.
    pub fn args(&self) -> (r: &PolicydArgs)
        ensures
            *r == self.args,
    {
        &self.args
    }
}

/// Whatever functions of the store are called, and in whatever order, the store keeps the
/// arguments that it was made with. The states are those before the first call, between each two
/// and after the last.
pub proof fn law_arguments_never_change(states: Seq<PolicyStore>, args: PolicydArgs, limits: Limits)
    requires
        states.len() > 0,
        states[0].args == args,
        states[0].limits == limits,
        forall|i: int, j: int|
            #![trigger states[i], states[j]]
            0 <= i && j == i + 1 && j < states.len() ==> states[j].configured_as(&states[i]),
    ensures
        forall|i: int|
            0 <= i < states.len() ==> (#[trigger] states[i]).args == args && states[i].limits
                == limits,
    decreases states.len(),
{
    if states.len() > 1 {
        let n = states.len() - 1;
        let front = states.drop_last();
        assert forall|i: int, j: int|
            #![trigger front[i], front[j]]
            0 <= i && j == i + 1 && j < front.len() implies front[j].configured_as(&front[i]) by {
            assert(states[j].configured_as(&states[i]));
        }
        law_arguments_never_change(front, args, limits);
        assert(front[n - 1].args == args);
        assert(states[n].configured_as(&states[n - 1]));
        assert forall|i: int| 0 <= i < states.len() implies (#[trigger] states[i]).args == args
            && states[i].limits == limits by {
            if i < n {
                assert(front[i].args == args);
            }
        }
    }
}

impl Default for ProjectContextRegistry {
    /// An empty registry with an epoch of its own.
    fn default() -> (r: Self)
        ensures
            r.wf(),
            r@ == (registry::RegistryView {
                boot_epoch: r.boot_epoch,
                activations: Map::empty(),
                adapters: Map::empty(),
                adapter_by_sandbox: Map::empty(),
                bindings: Map::empty(),
                claims: Map::empty(),
            }),
            exists|bytes: Seq<u8>|
                ids::v4_form(bytes) && r.boot_epoch == #[trigger] ids::little_endian(bytes),
    {
        ProjectContextRegistry::with_epoch(ids::boot_epoch())
    }
}

} // verus!
