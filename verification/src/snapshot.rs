//! Network grants that the kernel enforces: whose they are, and when they may be published.

use vstd::prelude::*;

use crate::error::PolicydError;
use crate::paths;
use crate::state::NetworkRuleKey;
use crate::state::SandboxSessionRegistration;
use crate::store::PolicyStore;
use crate::table::Table;
use crate::text;
use crate::types::ProcessIds;
use crate::types::ResolvedRequestContext;
use crate::types::SandboxPaths;

verus! {

/// A task as the kernel saw it when its network sources were captured.
#[derive(Debug, PartialEq, Eq)]
pub struct CapturedNetworkContext {
    pub pid: u32,
    pub parent_pid: u32,
    pub parent_start_ticks: u64,
    /// The real, effective, saved and filesystem user.
    pub uids: [u32; 4],
    pub path_claims: SandboxPaths,
    pub session_claim: Option<String>,
}

/// The path is there and starts at the root.
pub open spec fn complete(path: Option<String>) -> bool {
    path is Some && paths::absolute(path->0@)
}

/// Why a captured task has no context: its users differ, a path is missing, or no sandbox
/// session of its user was registered by its parent for a package.
pub open spec fn capture_refusal(
    sessions: Map<Seq<char>, SandboxSessionRegistration>,
    captured: CapturedNetworkContext,
) -> Option<Seq<char>> {
    let uid = captured.uids@[0];
    let claims = captured.path_claims;
    if captured.uids@[1] != uid || captured.uids@[2] != uid || captured.uids@[3] != uid {
        Some("captured credentials are not uniform"@)
    } else if !complete(claims.cwd) || !complete(claims.home) || !complete(claims.project_root) {
        Some("missing absolute captured path"@)
    } else if captured.session_claim is None {
        Some("captured task has no registration claim"@)
    } else {
        let id = captured.session_claim->0@;
        let reg = sessions[id];
        if !sessions.contains_key(id) || reg.owner_uid != uid || reg.launcher_pid == 0 {
            Some("captured task has no matching registration"@)
        } else if reg.launcher_start_time_ticks == 0 || captured.parent_start_ticks
            != reg.launcher_start_time_ticks || captured.parent_pid != reg.launcher_pid {
            Some("captured task is not the registered launcher's child"@)
        } else if reg.package is None {
            Some("registration has no package"@)
        } else {
            None
        }
    }
}

/// The context of a captured task: what it claims, and the package of the session.
pub open spec fn captured_context(
    sessions: Map<Seq<char>, SandboxSessionRegistration>,
    captured: CapturedNetworkContext,
) -> ResolvedRequestContext {
    ResolvedRequestContext {
        paths: captured.path_claims,
        ids: ProcessIds { pid: Some(captured.pid), uid: Some(captured.uids@[0]) },
        sandbox_session_id: captured.session_claim,
        package: sessions[captured.session_claim->0@].package,
    }
}

/// The answer is an input or output failure with the reason, where there is one.
pub open spec fn fails_with<T>(r: Result<T, PolicydError>, reason: Option<Seq<char>>) -> bool {
    match reason {
        Some(m) => r matches Err(PolicydError::Io(text)) && text@ == m,
        None => r is Ok,
    }
}

fn failure(reason: &str) -> (r: PolicydError)
    ensures
        r matches PolicydError::Io(text) && text@ == reason@,
{
    PolicydError::Io(reason.to_owned())
}

fn is_complete(path: &Option<String>) -> (r: bool)
    ensures
        r == complete(*path),
{
    match path {
        Some(p) => paths::is_absolute(p.as_str()),
        None => false,
    }
}

impl PolicyStore {
    /// The context that a captured task's grants are evaluated in.
    pub fn captured_network_policy_context(&self, captured: &CapturedNetworkContext) -> (r: Result<
        ResolvedRequestContext,
        PolicydError,
    >)
        requires
            self.wf(),
        ensures
            fails_with(r, capture_refusal(self.sandbox_sessions@, *captured)),
            r matches Ok(ctx) ==> ctx == captured_context(self.sandbox_sessions@, *captured),
    {
        let uid: u32 = captured.uids[0];
        if captured.uids[1] != uid || captured.uids[2] != uid || captured.uids[3] != uid {
            return Err(failure("captured credentials are not uniform"));
        }
        let claims = &captured.path_claims;
        if !is_complete(&claims.cwd) || !is_complete(&claims.home) || !is_complete(
            &claims.project_root,
        ) {
            return Err(failure("missing absolute captured path"));
        }
        let session = match &captured.session_claim {
            Some(session) => session,
            None => {
                return Err(failure("captured task has no registration claim"));
            },
        };
        let reg = match self.sandbox_sessions.get(session) {
            Some(reg) => reg,
            None => {
                return Err(failure("captured task has no matching registration"));
            },
        };
        if reg.owner_uid != uid || reg.launcher_pid == 0 {
            return Err(failure("captured task has no matching registration"));
        }
        if reg.launcher_start_time_ticks == 0 || captured.parent_start_ticks
            != reg.launcher_start_time_ticks || captured.parent_pid != reg.launcher_pid {
            return Err(failure("captured task is not the registered launcher's child"));
        }
        if reg.package.is_none() {
            return Err(failure("registration has no package"));
        }
        Ok(
            ResolvedRequestContext {
                paths: claims.clone(),
                ids: ProcessIds { pid: Some(captured.pid), uid: Some(uid) },
                sandbox_session_id: Some(session.clone()),
                package: text::copy_opt(&reg.package),
            },
        )
    }
}

/// How far the publication of network grants has come.
#[derive(Clone, Copy, Debug, PartialEq, Eq, Structural)]
pub struct NetworkGrants {
    /// A revocation map is bound.
    pub bound: bool,
    /// The sources of the grants were observed since.
    pub observed: bool,
}

/// What is to be revoked before a revocation map takes effect.
#[derive(Clone, Copy, Debug, PartialEq, Eq, Structural)]
pub struct RevocationPlan {
    /// The new map: decisions that the grants do not know of are already in force.
    pub revoke_new: bool,
    /// The map that it takes the place of.
    pub revoke_previous: bool,
}

/// Some session has a rule.
pub open spec fn some_rule(table: Map<Seq<char>, Vec<NetworkRuleKey>>) -> bool {
    exists|id: Seq<char>| #[trigger] table.contains_key(id) && table[id]@.len() > 0
}

/// Network decisions are in force that no policy file holds.
pub open spec fn runtime_decisions(store: PolicyStore) -> bool {
    ||| store.session.once_allow.entries@.len() > 0
    ||| some_rule(store.session.session_allow@)
    ||| some_rule(store.session.session_deny@)
}

fn has_rule(table: &Table<String, Vec<NetworkRuleKey>>) -> (r: bool)
    requires
        table.wf(),
    ensures
        r == some_rule(table@),
{
    let mut i: usize = 0;
    while i < table.entries.len()
        invariant
            table.wf(),
            i <= table.entries@.len(),
            forall|j: int| 0 <= j < i ==> (#[trigger] table.entries@[j]).1@.len() == 0,
        decreases table.entries@.len() - i,
    {
        if table.entries[i].1.len() > 0 {
            proof {
                table.lemma_entry(i as int);
                assert(table@.contains_key(table.entries@[i as int].0@));
            }
            return true;
        }
        i += 1;
    }
    proof {
        assert forall|id: Seq<char>| #[trigger] table@.contains_key(id) implies table@[id]@.len()
            == 0 by {
            let j = table.lemma_key(id);
            assert(table.entries@[j].1@.len() == 0);
        }
    }
    false
}

impl NetworkGrants {
    /// Nothing is bound.
    pub fn new() -> (r: Self)
        ensures
            r == (NetworkGrants { bound: false, observed: false }),
    {
        NetworkGrants { bound: false, observed: false }
    }

    /// What is to be revoked before a new revocation map is bound.
    pub fn enable_network_revocation(&self, store: &PolicyStore) -> (r: RevocationPlan)
        requires
            store.wf(),
        ensures
            r == (RevocationPlan {
                revoke_new: runtime_decisions(*store),
                revoke_previous: self.bound,
            }),
    {
        let decided = store.session.once_allow.entries.len() > 0 || has_rule(
            &store.session.session_allow,
        ) || has_rule(&store.session.session_deny);
        RevocationPlan { revoke_new: decided, revoke_previous: self.bound }
    }

    /// A revocation map was bound. What was observed before counts no more.
    pub fn revocation_bound(&mut self)
        ensures
            *final(self) == (NetworkGrants { bound: true, observed: false }),
    {
        self.bound = true;
        self.observed = false;
    }

    /// Whether there is a map to revoke when a decision is made.
    pub fn revoke_network_grants(&self) -> (r: bool)
        ensures
            r == self.bound,
    {
        self.bound
    }

    /// Why the sources of grants may not be observed now.
    pub open spec fn observation_refusal(self) -> Option<Seq<char>> {
        if self.observed {
            Some("network sources are already observed"@)
        } else if !self.bound {
            Some("bind runtime revocation before observation"@)
        } else {
            None
        }
    }

    /// Whether the sources of grants may be observed now.
    pub fn begin_observation(&self) -> (r: Result<(), PolicydError>)
        ensures
            fails_with(r, self.observation_refusal()),
    {
        if self.observed {
            return Err(failure("network sources are already observed"));
        }
        if !self.bound {
            return Err(failure("bind runtime revocation before observation"));
        }
        Ok(())
    }

    /// The sources of grants were observed.
    pub fn sources_observed(&mut self)
        ensures
            *final(self) == (NetworkGrants { observed: true, ..*old(self) }),
    {
        self.observed = true;
    }

    /// Whether grants may be published now.
    pub fn publish_network_grants(&self) -> (r: Result<(), PolicydError>)
        ensures
            fails_with(
                r,
                if self.observed {
                    None
                } else {
                    Some("network sources have not been observed"@)
                },
            ),
    {
        if self.observed {
            Ok(())
        } else {
            Err(failure("network sources have not been observed"))
        }
    }
}

/// The files that the grants of a user rest on besides the policy files.
pub open spec fn source_files(uid: u32, dns: Seq<char>) -> Seq<Seq<char>> {
    if uid == 0 {
        seq![dns]
    } else {
        seq![dns, "/etc/nsswitch.conf"@, "/etc/passwd"@]
    }
}

/// The files that the grants of a user rest on besides the policy files. Those of anyone but
/// root rest on how the user's home directory is looked up, too.
pub fn additional_sources(uid: u32, dns: &String) -> (r: Vec<String>)
    ensures
        text::texts(r@) == source_files(uid, dns@),
{
    let mut r: Vec<String> = Vec::new();
    r.push(dns.clone());
    if uid != 0 {
        r.push("/etc/nsswitch.conf".to_owned());
        r.push("/etc/passwd".to_owned());
        assert(text::texts(r@) =~= seq![dns@, "/etc/nsswitch.conf"@, "/etc/passwd"@]);
    } else {
        assert(text::texts(r@) =~= seq![dns@]);
    }
    r
}

/// What the grants of a captured task are observed by.
#[derive(Debug, PartialEq, Eq)]
pub struct ObservationPlan {
    pub ctx: ResolvedRequestContext,
    /// The files that the grants rest on besides the policy files.
    pub additional: Vec<String>,
    /// The sockets that the grants rest on.
    pub sockets: Vec<String>,
    /// The home directory that the observed lookup files must give the user; none for root.
    pub lookup_home: Option<String>,
}

/// The plan is the one for the task in the context.
pub open spec fn observed_by(
    plan: ObservationPlan,
    ctx: ResolvedRequestContext,
    uid: u32,
    dns: Seq<char>,
) -> bool {
    &&& plan.ctx == ctx
    &&& text::texts(plan.additional@) == source_files(uid, dns)
    &&& text::texts(plan.sockets@) == (if uid == 0 {
        Seq::empty()
    } else {
        seq!["/run/nscd/socket"@]
    })
    &&& plan.lookup_home == (if uid == 0 {
        None
    } else {
        ctx.paths.home
    })
}

impl PolicyStore {
    /// How the grants of a captured task are observed, or why they are not.
    pub fn observe_captured_network_grants(
        &self,
        grants: &NetworkGrants,
        captured: &CapturedNetworkContext,
        dns: &String,
    ) -> (r: Result<ObservationPlan, PolicydError>)
        requires
            self.wf(),
        ensures
            if grants.observation_refusal() is Some {
                fails_with(r, grants.observation_refusal())
            } else if capture_refusal(self.sandbox_sessions@, *captured) is Some {
                fails_with(r, capture_refusal(self.sandbox_sessions@, *captured))
            } else {
                r matches Ok(plan) && observed_by(
                    plan,
                    captured_context(self.sandbox_sessions@, *captured),
                    captured.uids@[0],
                    dns@,
                )
            },
    {
        if let Err(error) = grants.begin_observation() {
            return Err(error);
        }
        let ctx = match self.captured_network_policy_context(captured) {
            Ok(ctx) => ctx,
            Err(error) => {
                return Err(error);
            },
        };
        let uid = captured.uids[0];
        let additional = additional_sources(uid, dns);
        let mut sockets: Vec<String> = Vec::new();
        let mut lookup_home: Option<String> = None;
        if uid != 0 {
            sockets.push("/run/nscd/socket".to_owned());
            lookup_home = text::copy_opt(&ctx.paths.home);
        }
        let plan = ObservationPlan { ctx, additional, sockets, lookup_home };
        assert(text::texts(plan.sockets@) =~= (if uid == 0 {
            Seq::empty()
        } else {
            seq!["/run/nscd/socket"@]
        }));
        Ok(plan)
    }
}

/// Where the two lookup files stand among the observed documents: they are the last two.
pub fn lookup_documents(count: usize) -> (r: Result<(usize, usize), PolicydError>)
    ensures
        if count < 3 {
            fails_with(r, Some("NSS sources were not observed"@))
        } else {
            r == Ok::<_, PolicydError>(((count - 2) as usize, (count - 1) as usize))
        },
{
    if count < 3 {
        return Err(failure("NSS sources were not observed"));
    }
    Ok((count - 2, count - 1))
}

/// The key that the kernel knows a captured task by: when it started, what it executes and its
/// process, each as the machine writes it, filled up with zeros.
pub fn controller_key(start: [u8; 8], exec: [u8; 8], pid: [u8; 4]) -> (r: [u8; 24])
    ensures
        r@ == start@ + exec@ + pid@ + seq![0u8, 0u8, 0u8, 0u8],
{
    let r: [u8; 24] = [
        start[0],
        start[1],
        start[2],
        start[3],
        start[4],
        start[5],
        start[6],
        start[7],
        exec[0],
        exec[1],
        exec[2],
        exec[3],
        exec[4],
        exec[5],
        exec[6],
        exec[7],
        pid[0],
        pid[1],
        pid[2],
        pid[3],
        0u8,
        0u8,
        0u8,
        0u8,
    ];
    assert(r@ =~= start@ + exec@ + pid@ + seq![0u8, 0u8, 0u8, 0u8]);
    r
}

/// A captured task gets a session's package only as a child of the very launcher that
/// registered it: a process that merely has the launcher's number again does not.
pub proof fn law_reused_launcher_is_refused(
    sessions: Map<Seq<char>, SandboxSessionRegistration>,
    captured: CapturedNetworkContext,
)
    requires
        captured.session_claim is Some,
        sessions.contains_key(captured.session_claim->0@),
        sessions[captured.session_claim->0@].launcher_start_time_ticks
            != captured.parent_start_ticks,
    ensures
        capture_refusal(sessions, captured) is Some,
{
}

} // verus!
