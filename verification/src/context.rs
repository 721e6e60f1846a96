//! Whose request it is: sandbox sessions, trusted contexts and the policy layers they see.

use vstd::prelude::*;

use crate::error::PolicydError;
use crate::freeze;
use crate::paths;
use crate::scan;
use crate::state::SandboxSessionRegistration;
use crate::store::PolicyStore;
use crate::text;
use crate::types::FileAccess;
use crate::types::FilesystemRule;
use crate::types::MergeContext;
use crate::types::NetworkRule;
use crate::types::Policy;
use crate::types::ProcessIds;
use crate::types::ResolvedRequestContext;
use crate::types::RuleSet;
use crate::types::SandboxPaths;

verus! {

/// The process on the other end of a connection, as the kernel tells it.
#[derive(Clone, Copy, Debug, PartialEq, Eq, Structural)]
pub struct TrustedPeer {
    pub pid: u32,
    pub uid: u32,
}

/// What `format!("{:?}")` makes of a text.
pub uninterp spec fn quoted(s: Seq<char>) -> Seq<char>;

/// `Debug` for `str` writes the text in quotes, with what cannot be shown escaped.
#[verifier::external_body]
fn quote(s: &str) -> (r: String)
    ensures
        r@ == quoted(s@),
{
    format!("{s:?}")
}

/// A control character.
pub open spec fn control(c: char) -> bool {
    c <= '\u{1f}' || '\u{7f}' <= c <= '\u{9f}'
}

/// What is wrong with a package name.
pub open spec fn package_fault(package: Seq<char>) -> Option<Seq<char>> {
    if package.len() == 0 {
        Some("package name must not be empty"@)
    } else if package.contains('/') {
        Some(quoted(package) + " must not contain '/'"@)
    } else if package == ".."@ {
        Some(quoted(package) + " must not contain a '..' component"@)
    } else if exists|i: int| 0 <= i < package.len() && control(#[trigger] package[i]) {
        Some(quoted(package) + " must not contain control characters"@)
    } else {
        None
    }
}

/// The answer says what is wrong with the package name, or that nothing is.
pub open spec fn package_checked(package: Seq<char>, r: Result<(), PolicydError>) -> bool {
    match package_fault(package) {
        Some(fault) => r matches Err(PolicydError::InvalidPackageName(reason)) && reason@ == fault,
        None => r is Ok,
    }
}

/// Check a package name: it is one path component and can be shown.
pub fn validate_package_name(package: &str) -> (r: Result<(), PolicydError>)
    ensures
        package_checked(package@, r),
{
    let chars = text::chars_of(package);
    if chars.len() == 0 {
        return Err(PolicydError::InvalidPackageName("package name must not be empty".to_owned()));
    }
    let mut slash = false;
    let mut unshown = false;
    let mut i: usize = 0;
    while i < chars.len()
        invariant
            i <= chars@.len(),
            slash == exists|j: int| 0 <= j < i && #[trigger] chars@[j] == '/',
            unshown == exists|j: int| 0 <= j < i && control(#[trigger] chars@[j]),
        decreases chars@.len() - i,
    {
        let c = chars[i];
        if c == '/' {
            slash = true;
        }
        if c <= '\u{1f}' || ('\u{7f}' <= c && c <= '\u{9f}') {
            unshown = true;
        }
        i += 1;
    }
    if slash {
        return Err(
            PolicydError::InvalidPackageName(
                text::join2(quote(package).as_str(), " must not contain '/'"),
            ),
        );
    }
    if paths::spells(&chars, "..") {
        return Err(
            PolicydError::InvalidPackageName(
                text::join2(quote(package).as_str(), " must not contain a '..' component"),
            ),
        );
    }
    if unshown {
        return Err(
            PolicydError::InvalidPackageName(
                text::join2(quote(package).as_str(), " must not contain control characters"),
            ),
        );
    }
    Ok(())
}

/// The fields of a process's `stat` line that follow its name.
pub open spec fn stat_fields(stat: Seq<char>) -> Seq<Seq<char>> {
    match scan::after_last(stat, ')') {
        Some(rest) => scan::words_of(rest),
        None => Seq::empty(),
    }
}

/// The number in a field, where there is one up to the limit.
pub open spec fn field_number(fields: Seq<Seq<char>>, i: int, max: nat) -> Option<nat> {
    if i < fields.len() {
        match scan::number_of(fields[i]) {
            Some(n) => if n <= max {
                Some(n)
            } else {
                None
            },
            None => None,
        }
    } else {
        None
    }
}

/// The parent that a process's `stat` line names.
pub open spec fn stat_parent(stat: Option<String>) -> Option<nat> {
    match stat {
        Some(line) => field_number(stat_fields(line@), 1, u32::MAX as nat),
        None => None,
    }
}

/// The start time that a process's `stat` line names.
pub open spec fn stat_start(stat: Option<String>) -> Option<nat> {
    match stat {
        Some(line) => field_number(stat_fields(line@), 19, u64::MAX as nat),
        None => None,
    }
}

fn stat_number(stat: &Option<String>, i: usize, max: u64) -> (r: Option<u64>)
    ensures
        match r {
            Some(n) => stat is Some && field_number(
                stat_fields(stat->0@),
                i as int,
                max as nat,
            ) == Some(n as nat) && n <= max,
            None => stat is None || field_number(
                stat_fields(stat->0@),
                i as int,
                max as nat,
            ) is None,
        },
{
    let line = match stat {
        Some(line) => line,
        None => {
            return None;
        },
    };
    match scan::after_last_of(&text::chars_of(line.as_str()), ')') {
        Some(rest) => {
            let words = scan::words(&rest);
            let ghost ws = scan::pieces(words@);
            assert(ws == stat_fields(line@));
            assert(ws.len() == words@.len());
            if i < words.len() {
                assert(ws[i as int] == words@[i as int]@);
                scan::number(&words[i], max)
            } else {
                None
            }
        },
        None => None,
    }
}

/// The parent that a process's `stat` line names.
pub fn read_proc_ppid(stat: &Option<String>) -> (r: Option<u32>)
    ensures
        match r {
            Some(pid) => stat_parent(*stat) == Some(pid as nat),
            None => stat_parent(*stat) is None,
        },
{
    match stat_number(stat, 1, u32::MAX as u64) {
        Some(pid) => Some(pid as u32),
        None => None,
    }
}

/// The start time that a process's `stat` line names, in clock ticks.
pub fn read_proc_start_time_ticks(stat: &Option<String>) -> (r: Option<u64>)
    ensures
        match r {
            Some(ticks) => stat_start(*stat) == Some(ticks as nat),
            None => stat_start(*stat) is None,
        },
{
    stat_number(stat, 19, u64::MAX)
}

/// The sandbox sessions after a peer has spoken for one of them.
pub open spec fn peer_noted<A: Fn(&u32, &u32) -> bool>(
    sessions: Map<Seq<char>, SandboxSessionRegistration>,
    peer: TrustedPeer,
    id: Seq<char>,
    descends: A,
) -> Map<Seq<char>, SandboxSessionRegistration> {
    if peer.pid == 0 || peer.uid == 0 {
        sessions
    } else if !sessions.contains_key(id) {
        sessions.insert(
            id,
            SandboxSessionRegistration {
                root_pid: peer.pid,
                owner_uid: peer.uid,
                package: None,
                launcher_pid: 0,
                launcher_start_time_ticks: 0,
            },
        )
    } else {
        let reg = sessions[id];
        if reg.root_pid == 0 && (reg.launcher_pid == 0 || text::relates(
            descends,
            reg.launcher_pid,
            peer.pid,
        )) {
            sessions.insert(id, SandboxSessionRegistration { root_pid: peer.pid, ..reg })
        } else {
            sessions
        }
    }
}

/// The launcher of a registration is the peer's parent and runs.
pub open spec fn launcher_verified(
    launcher_pid: u32,
    peer_stat: Option<String>,
    launcher_stat: Option<String>,
) -> bool {
    &&& launcher_pid != 0
    &&& stat_parent(peer_stat) == Some(launcher_pid as nat)
    &&& stat_start(launcher_stat) is Some
}

/// Registering a sandbox session's package comes to the result.
pub open spec fn sandbox_registered(
    before: Map<Seq<char>, SandboxSessionRegistration>,
    after: Map<Seq<char>, SandboxSessionRegistration>,
    id: Seq<char>,
    package: Seq<char>,
    owner_uid: u32,
    launcher_pid: u32,
    peer_stat: Option<String>,
    launcher_stat: Option<String>,
    r: Result<(), PolicydError>,
) -> bool {
    if package_fault(package) is Some {
        package_checked(package, r) && after == before
    } else if !launcher_verified(launcher_pid, peer_stat, launcher_stat) {
        r == Err::<(), _>(PolicydError::InvalidLauncherPid) && after == before
    } else if before.contains_key(id) && before[id].package is Some && before[id].package->0@
        != package {
        r == Err::<(), _>(PolicydError::PackageImmutable) && after == before
    } else {
        let reg = after[id];
        &&& r is Ok
        &&& after == before.insert(id, reg)
        &&& text::opt_text(reg.package) == Some(package)
        &&& reg.root_pid == (if before.contains_key(id) {
            before[id].root_pid
        } else {
            0
        })
        &&& reg.owner_uid == owner_uid
        &&& reg.launcher_pid == launcher_pid
        &&& reg.launcher_start_time_ticks == stat_start(launcher_stat)->0
    }
}

impl PolicyStore {
    /// Only the sandbox sessions differ.
    pub open spec fn sessions_changed(&self, before: &PolicyStore) -> bool {
        *self == (PolicyStore { sandbox_sessions: self.sandbox_sessions, ..*before })
    }

    /// Take note of a sandbox peer. The first peer of a session becomes its root; where the
    /// session was registered by a launcher, only a descendant of that launcher does.
    /// `descends` tells whether the second process descends from the first.
    pub fn note_sandbox_peer<A: Fn(&u32, &u32) -> bool>(
        &mut self,
        peer: TrustedPeer,
        sandbox_session_id: &String,
        descends: &A,
    )
        requires
            old(self).wf(),
            text::decides_pairs(*descends),
        ensures
            final(self).wf(),
            final(self).configured_as(old(self)),
            final(self).sessions_changed(old(self)),
            final(self).sandbox_sessions@ == peer_noted(
                old(self).sandbox_sessions@,
                peer,
                sandbox_session_id@,
                *descends,
            ),
    {
        if peer.pid == 0 || peer.uid == 0 {
            return;
        }
        match self.sandbox_sessions.find(sandbox_session_id) {
            Some(i) => {
                let mut reg = self.sandbox_sessions.entries[i].1.clone();
                if reg.root_pid == 0 && (reg.launcher_pid == 0 || descends(
                    &reg.launcher_pid,
                    &peer.pid,
                )) {
                    reg.root_pid = peer.pid;
                    self.sandbox_sessions.set_at(i, reg);
                }
            },
            None => {
                let _ = self.sandbox_sessions.insert(
                    sandbox_session_id.clone(),
                    SandboxSessionRegistration {
                        root_pid: peer.pid,
                        owner_uid: peer.uid,
                        package: None,
                        launcher_pid: 0,
                        launcher_start_time_ticks: 0,
                    },
                );
            },
        }
    }

    /// Register a sandbox session's package. `peer_stat` and `launcher_stat` are the `stat`
    /// lines of the registering peer and of the launcher that it names, where they have one.
    pub fn register_sandbox(
        &mut self,
        session_id: &String,
        package: &String,
        owner_uid: u32,
        launcher_pid: u32,
        peer_stat: &Option<String>,
        launcher_stat: &Option<String>,
    ) -> (r: Result<(), PolicydError>)
        requires
            old(self).wf(),
        ensures
            final(self).wf(),
            final(self).configured_as(old(self)),
            final(self).sessions_changed(old(self)),
            sandbox_registered(
                old(self).sandbox_sessions@,
                final(self).sandbox_sessions@,
                session_id@,
                package@,
                owner_uid,
                launcher_pid,
                *peer_stat,
                *launcher_stat,
                r,
            ),
    {
        let checked = validate_package_name(package.as_str());
        if checked.is_err() {
            return checked;
        }
        if launcher_pid == 0 {
            return Err(PolicydError::InvalidLauncherPid);
        }
        match read_proc_ppid(peer_stat) {
            Some(parent) => {
                if parent != launcher_pid {
                    return Err(PolicydError::InvalidLauncherPid);
                }
            },
            None => {
                return Err(PolicydError::InvalidLauncherPid);
            },
        }
        let launcher_start_time_ticks = match read_proc_start_time_ticks(launcher_stat) {
            Some(ticks) => ticks,
            None => {
                return Err(PolicydError::InvalidLauncherPid);
            },
        };
        let mut root_pid: u32 = 0;
        if let Some(reg) = self.sandbox_sessions.get(session_id) {
            if let Some(existing) = &reg.package {
                if *existing != *package {
                    return Err(PolicydError::PackageImmutable);
                }
            }
            root_pid = reg.root_pid;
        }
        let _ = self.sandbox_sessions.insert(
            session_id.clone(),
            SandboxSessionRegistration {
                root_pid,
                owner_uid,
                package: Some(package.clone()),
                launcher_pid,
                launcher_start_time_ticks,
            },
        );
        Ok(())
    }

    /// Whether a peer is the launcher that registered the sandbox session. `peer_stat` is the
    /// peer's `stat` line, where it has one.
    pub fn authenticates_context_adapter(
        &self,
        sandbox_session_id: &String,
        peer: TrustedPeer,
        peer_stat: &Option<String>,
    ) -> (r: bool)
        requires
            self.wf(),
        ensures
            r == ({
                let id = sandbox_session_id@;
                let reg = self.sandbox_sessions@[id];
                &&& self.sandbox_sessions@.contains_key(id)
                &&& reg.owner_uid == peer.uid
                &&& reg.launcher_pid == peer.pid
                &&& reg.launcher_start_time_ticks != 0
                &&& stat_start(*peer_stat) == Some(reg.launcher_start_time_ticks as nat)
            }),
    {
        match self.sandbox_sessions.get(sandbox_session_id) {
            Some(reg) => reg.owner_uid == peer.uid && reg.launcher_pid == peer.pid
                && reg.launcher_start_time_ticks != 0 && (match read_proc_start_time_ticks(
                peer_stat,
            ) {
                Some(ticks) => ticks == reg.launcher_start_time_ticks,
                None => false,
            }),
            None => false,
        }
    }
}

/// A process, and the user that it runs as, where that is known.
#[derive(Clone, Copy, Debug, PartialEq, Eq)]
pub struct ProcessQuery {
    pub pid: u32,
    pub uid: Option<u32>,
}

/// What the host tells of its processes and users.
pub struct HostFacts<'a, A, S, H, C> {
    /// Whether the second process descends from the first.
    pub descends: &'a A,
    /// The sandbox session that a process runs in.
    pub session: &'a S,
    /// The home directory of a user.
    pub home: &'a H,
    /// The working directory of a process.
    pub cwd: &'a C,
}

impl<
    'a,
    A: Fn(&u32, &u32) -> bool,
    S: Fn(&u32) -> Option<String>,
    H: Fn(&u32) -> Option<String>,
    C: Fn(&ProcessQuery) -> Option<String>,
> HostFacts<'a, A, S, H, C> {
    /// Every question is answered, one way only.
    pub open spec fn settled(&self) -> bool {
        &&& text::decides_pairs(*self.descends)
        &&& text::determined(*self.session)
        &&& text::determined(*self.home)
        &&& text::determined(*self.cwd)
    }

    /// The home directory of a user, where there is one.
    pub open spec fn home_of(&self, uid: Option<u32>) -> Option<String> {
        match uid {
            Some(u) => text::answer(*self.home, u),
            None => None,
        }
    }

    /// The sandbox session that a process runs in, where there is a process.
    pub open spec fn session_of(&self, pid: Option<u32>) -> Option<String> {
        match pid {
            Some(p) => text::answer(*self.session, p),
            None => None,
        }
    }

    fn home_for(&self, uid: Option<u32>) -> (r: Option<String>)
        requires
            self.settled(),
        ensures
            r == self.home_of(uid),
    {
        match uid {
            Some(u) => (self.home)(&u),
            None => None,
        }
    }

    fn session_for(&self, pid: Option<u32>) -> (r: Option<String>)
        requires
            self.settled(),
        ensures
            r == self.session_of(pid),
    {
        match pid {
            Some(p) => (self.session)(&p),
            None => None,
        }
    }
}

/// The package that a sandbox session is registered for.
pub open spec fn registered_package(
    sessions: Map<Seq<char>, SandboxSessionRegistration>,
    id: Option<String>,
) -> Option<String> {
    match id {
        Some(s) => if sessions.contains_key(s@) {
            sessions[s@].package
        } else {
            None
        },
        None => None,
    }
}

/// What a context from a trusted source stands for: what it says, with what it lacks filled in
/// from the host. Its project root is dropped.
pub open spec fn trusted_context<
    'a,
    A: Fn(&u32, &u32) -> bool,
    S: Fn(&u32) -> Option<String>,
    H: Fn(&u32) -> Option<String>,
    C: Fn(&ProcessQuery) -> Option<String>,
>(
    sessions: Map<Seq<char>, SandboxSessionRegistration>,
    ctx: MergeContext,
    facts: HostFacts<'a, A, S, H, C>,
) -> ResolvedRequestContext {
    let session = if ctx.sandbox_session_id is Some {
        ctx.sandbox_session_id
    } else {
        facts.session_of(ctx.ids.pid)
    };
    ResolvedRequestContext {
        paths: SandboxPaths {
            cwd: if ctx.paths.cwd is Some {
                ctx.paths.cwd
            } else {
                match ctx.ids.pid {
                    Some(pid) => text::answer(
                        *facts.cwd,
                        ProcessQuery { pid, uid: ctx.ids.uid },
                    ),
                    None => None,
                }
            },
            home: if ctx.paths.home is Some {
                ctx.paths.home
            } else {
                facts.home_of(ctx.ids.uid)
            },
            project_root: None,
        },
        ids: ctx.ids,
        sandbox_session_id: session,
        package: registered_package(sessions, session),
    }
}

/// The process that a request is made for: the one that it names, where that descends from the
/// peer, else the peer.
pub open spec fn verified_process<A: Fn(&u32, &u32) -> bool>(
    wire_pid: Option<u32>,
    peer: TrustedPeer,
    descends: A,
) -> Option<u32> {
    if wire_pid is Some && wire_pid->0 > 0 && text::relates(descends, peer.pid, wire_pid->0) {
        wire_pid
    } else if peer.pid > 0 {
        Some(peer.pid)
    } else {
        None
    }
}

/// The peer runs inside the sandbox: below its launcher, and on one line with its root.
pub open spec fn inside_sandbox<A: Fn(&u32, &u32) -> bool>(
    reg: SandboxSessionRegistration,
    pid: u32,
    peer: TrustedPeer,
    descends: A,
) -> bool {
    &&& reg.launcher_pid > 0
    &&& peer.pid != reg.launcher_pid
    &&& text::relates(descends, reg.launcher_pid, peer.pid)
    &&& reg.root_pid == pid || text::relates(descends, reg.root_pid, pid) || text::relates(
        descends,
        peer.pid,
        reg.root_pid,
    )
}

/// What the context of a peer that is not trusted stands for. Its paths count for nothing: the
/// home directory is the user's, the working directory that of the process. The session that it
/// names counts only where `named_session` is set, and neither it nor its package is believed of
/// a process outside the sandbox.
pub open spec fn peer_resolved<
    'a,
    A: Fn(&u32, &u32) -> bool,
    S: Fn(&u32) -> Option<String>,
    H: Fn(&u32) -> Option<String>,
    C: Fn(&ProcessQuery) -> Option<String>,
>(
    sessions: Map<Seq<char>, SandboxSessionRegistration>,
    ctx: MergeContext,
    peer: TrustedPeer,
    named_session: bool,
    facts: HostFacts<'a, A, S, H, C>,
) -> ResolvedRequestContext {
    let pid = verified_process(ctx.ids.pid, peer, *facts.descends);
    let uid = if peer.uid > 0 {
        Some(peer.uid)
    } else {
        ctx.ids.uid
    };
    let session = if named_session && ctx.sandbox_session_id is Some {
        ctx.sandbox_session_id
    } else {
        facts.session_of(pid)
    };
    let registered = session is Some && sessions.contains_key(session->0@);
    let reg = sessions[session->0@];
    let allowed = pid is Some && (registered ==> inside_sandbox(
        reg,
        pid->0,
        peer,
        *facts.descends,
    ));
    ResolvedRequestContext {
        paths: SandboxPaths {
            cwd: if allowed {
                text::answer(*facts.cwd, ProcessQuery { pid: pid->0, uid })
            } else {
                None
            },
            home: facts.home_of(uid),
            project_root: None,
        },
        ids: ProcessIds { pid, uid },
        sandbox_session_id: session,
        package: if allowed && registered && reg.owner_uid == (match uid {
            Some(u) => u,
            None => 0,
        }) {
            reg.package
        } else {
            None
        },
    }
}

impl PolicyStore {
    /// What a context from a trusted source stands for.
    pub fn resolve_trusted_context<
        A: Fn(&u32, &u32) -> bool,
        S: Fn(&u32) -> Option<String>,
        H: Fn(&u32) -> Option<String>,
        C: Fn(&ProcessQuery) -> Option<String>,
    >(&self, ctx: &MergeContext, facts: &HostFacts<A, S, H, C>) -> (r: ResolvedRequestContext)
        requires
            self.wf(),
            facts.settled(),
        ensures
            r == trusted_context(self.sandbox_sessions@, *ctx, *facts),
    {
        let sandbox_session_id = match &ctx.sandbox_session_id {
            Some(id) => Some(id.clone()),
            None => facts.session_for(ctx.ids.pid),
        };
        let home = match &ctx.paths.home {
            Some(home) => Some(home.clone()),
            None => facts.home_for(ctx.ids.uid),
        };
        let cwd = match &ctx.paths.cwd {
            Some(cwd) => Some(cwd.clone()),
            None => match ctx.ids.pid {
                Some(pid) => {
                    let query = ProcessQuery { pid, uid: ctx.ids.uid };
                    (facts.cwd)(&query)
                },
                None => None,
            },
        };
        let package = match &sandbox_session_id {
            Some(id) => match self.sandbox_sessions.get(id) {
                Some(reg) => text::copy_opt(&reg.package),
                None => None,
            },
            None => None,
        };
        ResolvedRequestContext {
            paths: SandboxPaths { cwd, home, project_root: None },
            ids: ctx.ids,
            sandbox_session_id,
            package,
        }
    }

    fn resolve_from_peer_inner<
        A: Fn(&u32, &u32) -> bool,
        S: Fn(&u32) -> Option<String>,
        H: Fn(&u32) -> Option<String>,
        C: Fn(&ProcessQuery) -> Option<String>,
    >(
        &self,
        ctx: &MergeContext,
        peer: TrustedPeer,
        allow_root_wire_context: bool,
        facts: &HostFacts<A, S, H, C>,
    ) -> (r: ResolvedRequestContext)
        requires
            self.wf(),
            facts.settled(),
        ensures
            r == (if allow_root_wire_context && peer.uid == 0 {
                trusted_context(self.sandbox_sessions@, *ctx, *facts)
            } else {
                peer_resolved(
                    self.sandbox_sessions@,
                    *ctx,
                    peer,
                    allow_root_wire_context,
                    *facts,
                )
            }),
    {
        if allow_root_wire_context && peer.uid == 0 {
            return self.resolve_trusted_context(ctx, facts);
        }
        let mut pid: Option<u32> = if peer.pid > 0 {
            Some(peer.pid)
        } else {
            None
        };
        if let Some(wire_pid) = ctx.ids.pid {
            if wire_pid > 0 && (facts.descends)(&peer.pid, &wire_pid) {
                pid = Some(wire_pid);
            }
        }
        let uid: Option<u32> = if peer.uid > 0 {
            Some(peer.uid)
        } else {
            ctx.ids.uid
        };
        let named = if allow_root_wire_context {
            text::copy_opt(&ctx.sandbox_session_id)
        } else {
            None
        };
        let sandbox_session_id = match named {
            Some(id) => Some(id),
            None => facts.session_for(pid),
        };
        let home = facts.home_for(uid);
        let mut cwd = None;
        let mut package = None;
        if let Some(pid) = pid {
            let registration = match &sandbox_session_id {
                Some(id) => self.sandbox_sessions.get(id),
                None => None,
            };
            let allowed = match registration {
                Some(reg) => reg.launcher_pid > 0 && peer.pid != reg.launcher_pid && (
                facts.descends)(&reg.launcher_pid, &peer.pid) && (reg.root_pid == pid || (
                facts.descends)(&reg.root_pid, &pid) || (facts.descends)(
                    &peer.pid,
                    &reg.root_pid,
                )),
                None => true,
            };
            if allowed {
                if let Some(reg) = registration {
                    let owner: u32 = match uid {
                        Some(u) => u,
                        None => 0,
                    };
                    if reg.owner_uid == owner {
                        package = text::copy_opt(&reg.package);
                    }
                }
                let query = ProcessQuery { pid, uid };
                cwd = (facts.cwd)(&query);
            }
        }
        ResolvedRequestContext {
            paths: SandboxPaths { cwd, home, project_root: None },
            ids: ProcessIds { pid, uid },
            sandbox_session_id,
            package,
        }
    }

    /// What the context of a request stands for. Root's helpers and callers without a peer are
    /// trusted.
    pub fn resolve_context_with_peer<
        A: Fn(&u32, &u32) -> bool,
        S: Fn(&u32) -> Option<String>,
        H: Fn(&u32) -> Option<String>,
        C: Fn(&ProcessQuery) -> Option<String>,
    >(
        &self,
        ctx: &MergeContext,
        peer: Option<TrustedPeer>,
        facts: &HostFacts<A, S, H, C>,
    ) -> (r: ResolvedRequestContext)
        requires
            self.wf(),
            facts.settled(),
        ensures
            r == (match peer {
                Some(p) => if p.uid == 0 {
                    trusted_context(self.sandbox_sessions@, *ctx, *facts)
                } else {
                    peer_resolved(self.sandbox_sessions@, *ctx, p, true, *facts)
                },
                None => trusted_context(self.sandbox_sessions@, *ctx, *facts),
            }),
    {
        match peer {
            Some(peer) => self.resolve_from_peer_inner(ctx, peer, true, facts),
            None => self.resolve_trusted_context(ctx, facts),
        }
    }

    /// What the context of a gate's request stands for: not even root is believed.
    pub fn resolve_gate_context_with_peer<
        A: Fn(&u32, &u32) -> bool,
        S: Fn(&u32) -> Option<String>,
        H: Fn(&u32) -> Option<String>,
        C: Fn(&ProcessQuery) -> Option<String>,
    >(&self, ctx: &MergeContext, peer: TrustedPeer, facts: &HostFacts<A, S, H, C>) -> (r:
        ResolvedRequestContext)
        requires
            self.wf(),
            facts.settled(),
        ensures
            r == peer_resolved(self.sandbox_sessions@, *ctx, peer, false, *facts),
    {
        self.resolve_from_peer_inner(ctx, peer, false, facts)
    }
}

/// The file that a package's rules stand in, below a directory.
pub open spec fn package_file(base: Seq<char>, dir: Seq<char>, package: Seq<char>) -> Seq<char> {
    paths::joined(paths::joined(paths::joined(base, dir), "packages"@), package + ".json"@)
}

/// The user's own policy file.
pub open spec fn home_policy(home: Seq<char>) -> Seq<char> {
    paths::joined(home, ".config/agent-sandbox/policy.json"@)
}

/// The files that hold a package's rules.
pub struct PackageFiles {
    pub base: Option<String>,
    pub home: Option<String>,
    pub project: Option<String>,
}

/// The views of the files that hold a package's rules.
pub struct PackageFilesView {
    pub base: Option<Seq<char>>,
    pub home: Option<Seq<char>>,
    pub project: Option<Seq<char>>,
}

impl View for PackageFiles {
    type V = PackageFilesView;

    open spec fn view(&self) -> PackageFilesView {
        PackageFilesView {
            base: text::opt_text(self.base),
            home: text::opt_text(self.home),
            project: text::opt_text(self.project),
        }
    }
}

/// The first file that is declared for the package.
pub open spec fn declared_file(list: Seq<(String, String)>, package: Seq<char>) -> Option<
    Seq<char>,
>
    decreases list.len(),
{
    if list.len() == 0 {
        None
    } else if list[0].0@ == package {
        Some(list[0].1@)
    } else {
        declared_file(list.skip(1), package)
    }
}

/// The files that hold a package's rules.
pub open spec fn package_files(
    declared: Seq<(String, String)>,
    package: Seq<char>,
    home: Option<String>,
    root: Option<String>,
) -> PackageFilesView {
    PackageFilesView {
        base: declared_file(declared, package),
        home: match home {
            Some(h) => Some(package_file(h@, ".config/agent-sandbox"@, package)),
            None => None,
        },
        project: match root {
            Some(r) => Some(package_file(r@, ".agent-sandbox"@, package)),
            None => None,
        },
    }
}

/// The files that hold the rules of a context's package; none where it has no valid one.
pub open spec fn context_package_files(
    declared: Seq<(String, String)>,
    ctx: ResolvedRequestContext,
) -> PackageFilesView {
    match ctx.package {
        Some(name) => if package_fault(name@) is None {
            package_files(declared, name@, ctx.paths.home, ctx.paths.project_root)
        } else {
            PackageFilesView { base: None, home: None, project: None }
        },
        None => PackageFilesView { base: None, home: None, project: None },
    }
}

/// A policy file, and whether it is read as one of the project.
#[derive(Debug, PartialEq, Eq)]
pub struct LayerSource {
    pub path: String,
    pub of_project: bool,
}

/// A policy file that may be there.
pub open spec fn source(path: Option<Seq<char>>, of_project: bool) -> Seq<(Seq<char>, bool)> {
    match path {
        Some(p) => seq![(p, of_project)],
        None => Seq::empty(),
    }
}

/// The project's own policy file, where it has a trusted one.
pub open spec fn project_file(ctx: ResolvedRequestContext, trusted: Option<String>) -> Option<
    Seq<char>,
> {
    if ctx.paths.project_root is Some {
        text::opt_text(trusted)
    } else {
        None
    }
}

/// The user's own policy file, where the context has a home directory.
pub open spec fn home_file(ctx: ResolvedRequestContext) -> Option<Seq<char>> {
    match ctx.paths.home {
        Some(h) => Some(home_policy(h@)),
        None => None,
    }
}

/// The policy files that a context sees, lowest first: the declared policy, the package's base
/// and home files, the user's own, the project's, and the package's in the project.
pub open spec fn layer_sources(
    declarative: Seq<char>,
    declared: Seq<(String, String)>,
    ctx: ResolvedRequestContext,
    trusted: Option<String>,
) -> Seq<(Seq<char>, bool)> {
    let files = context_package_files(declared, ctx);
    seq![(declarative, false)] + source(files.base, false) + source(files.home, false) + source(
        home_file(ctx),
        false,
    ) + source(project_file(ctx, trusted), true) + source(files.project, true)
}

/// The policy files that a context may not touch.
pub open spec fn hidden_files(
    declarative: Seq<char>,
    declared: Seq<(String, String)>,
    ctx: ResolvedRequestContext,
    trusted: Option<String>,
) -> Seq<Seq<char>> {
    let files = context_package_files(declared, ctx);
    seq![declarative] + present(home_file(ctx)) + present(files.base) + present(files.home) + present(files.project) + present(
        project_file(ctx, trusted),
    )
}

/// A file that may be there.
pub open spec fn present(path: Option<Seq<char>>) -> Seq<Seq<char>> {
    match path {
        Some(p) => seq![p],
        None => Seq::empty(),
    }
}

/// The view of a list of policy files.
pub open spec fn sources_view(list: Seq<LayerSource>) -> Seq<(Seq<char>, bool)> {
    list.map_values(|s: LayerSource| (s.path@, s.of_project))
}

fn push_source(list: &mut Vec<LayerSource>, path: &Option<String>, of_project: bool)
    ensures
        sources_view(final(list)@) == sources_view(old(list)@) + source(
            text::opt_text(*path),
            of_project,
        ),
{
    if let Some(p) = path {
        list.push(LayerSource { path: p.clone(), of_project });
        assert(sources_view(list@) =~= sources_view(old(list)@) + seq![(p@, of_project)]);
    } else {
        assert(sources_view(list@) =~= sources_view(old(list)@) + Seq::empty());
    }
}

fn join_file(base: &str, dir: &str, package: &str) -> (r: String)
    requires
        !paths::absolute(dir@),
        package_fault(package@) is None,
    ensures
        r@ == package_file(base@, dir@, package@),
{
    proof {
        reveal_strlit("packages");
        assert(!package@.contains('/'));
        assert(package@[0] != '/') by {
            if package@[0] == '/' {
                assert(package@.contains('/'));
            }
        }
    }
    let name = text::join2(package, ".json");
    assert(name@[0] == package@[0]);
    let inside = paths::join(paths::join(base, dir).as_str(), "packages");
    paths::join(inside.as_str(), name.as_str())
}

fn home_policy_file(home: &str) -> (r: String)
    ensures
        r@ == home_policy(home@),
{
    proof {
        reveal_strlit(".config/agent-sandbox/policy.json");
    }
    paths::join(home, ".config/agent-sandbox/policy.json")
}

/// The rule that hides a policy file.
pub open spec fn hides(rule: FilesystemRule, path: Seq<char>) -> bool {
    &&& rule.path@ == path
    &&& rule.access == FileAccess::All
    &&& text::opt_text(rule.comment) == Some("trusted policy file"@)
}

/// The rules are those of before and, behind them, one for each hidden file.
pub open spec fn hidden_added(
    before: Seq<FilesystemRule>,
    after: Seq<FilesystemRule>,
    files: Seq<Seq<char>>,
) -> bool {
    &&& after.len() == before.len() + files.len()
    &&& forall|i: int| 0 <= i < before.len() ==> #[trigger] after[i] == before[i]
    &&& forall|i: int|
        0 <= i < files.len() ==> hides(after[before.len() + i], #[trigger] files[i])
}

fn push_hidden(rules: &mut Vec<FilesystemRule>, path: &Option<String>)
    ensures
        hidden_added(old(rules)@, final(rules)@, present(text::opt_text(*path))),
{
    if let Some(p) = path {
        rules.push(
            FilesystemRule {
                path: p.clone(),
                access: FileAccess::All,
                comment: Some("trusted policy file".to_owned()),
            },
        );
    }
}

proof fn lemma_hidden_added(
    first: Seq<FilesystemRule>,
    second: Seq<FilesystemRule>,
    third: Seq<FilesystemRule>,
    a: Seq<Seq<char>>,
    b: Seq<Seq<char>>,
)
    requires
        hidden_added(first, second, a),
        hidden_added(second, third, b),
    ensures
        hidden_added(first, third, a + b),
{
    assert forall|i: int| 0 <= i < first.len() implies #[trigger] third[i] == first[i] by {
        assert(second[i] == first[i]);
    }
    assert forall|i: int| 0 <= i < (a + b).len() implies hides(
        third[first.len() + i],
        #[trigger] (a + b)[i],
    ) by {
        if i < a.len() {
            assert((a + b)[i] == a[i]);
            assert(third[first.len() + i] == second[first.len() + i]);
        } else {
            assert((a + b)[i] == b[i - a.len()]);
            assert(third[second.len() + (i - a.len())] == third[first.len() + i]);
        }
    }
}

/// The time at which a file was last changed, in seconds and nanoseconds.
#[derive(Clone, Copy, Debug, PartialEq, Eq, Structural)]
pub struct MtimeKey {
    pub secs: u64,
    pub nanos: u32,
}

/// What a merged policy is remembered under: whose it is, and when each of its files was last
/// changed.
#[derive(Debug, PartialEq, Eq)]
pub struct MergedCacheKey {
    pub home: Option<String>,
    pub project_root: Option<String>,
    pub package: Option<String>,
    pub declarative_mtime: Option<MtimeKey>,
    pub home_policy_mtime: Option<MtimeKey>,
    pub project_policy_mtime: Option<MtimeKey>,
    pub package_base_mtime: Option<MtimeKey>,
    pub package_home_mtime: Option<MtimeKey>,
    pub package_project_mtime: Option<MtimeKey>,
}

/// When a file that may be there was last changed; the function is asked by the file's path.
pub open spec fn changed_at<T: Fn(&String) -> Option<MtimeKey>>(
    mtime: T,
    path: Option<Seq<char>>,
    r: Option<MtimeKey>,
) -> bool {
    match path {
        Some(p) => exists|s: String| s@ == p && r == #[trigger] text::answer(mtime, s),
        None => r is None,
    }
}

fn mtime_of<T: Fn(&String) -> Option<MtimeKey>>(mtime: &T, path: &Option<String>) -> (r: Option<
    MtimeKey,
>)
    requires
        text::determined(*mtime),
    ensures
        changed_at(*mtime, text::opt_text(*path), r),
{
    match path {
        Some(p) => {
            let r = mtime(p);
            assert(r == text::answer(*mtime, *p));
            r
        },
        None => None,
    }
}

impl PolicyStore {
    /// The files that hold a package's rules.
    fn package_layer_paths(
        &self,
        package: &String,
        home: &Option<String>,
        project_root: &Option<String>,
    ) -> (r: PackageFiles)
        requires
            package_fault(package@) is None,
        ensures
            r@ == package_files(self.args.package_declarative@, package@, *home, *project_root),
    {
        let ghost all = self.args.package_declarative@;
        let mut base: Option<String> = None;
        let mut i: usize = 0;
        assert(all.skip(0) =~= all);
        while i < self.args.package_declarative.len() && base.is_none()
            invariant
                all == self.args.package_declarative@,
                i <= all.len(),
                match base {
                    Some(path) => declared_file(all, package@) == Some(path@),
                    None => declared_file(all, package@) == declared_file(
                        all.skip(i as int),
                        package@,
                    ),
                },
            decreases all.len() - i,
        {
            assert(all.skip(i as int)[0] == all[i as int]);
            assert(all.skip(i as int).skip(1) =~= all.skip(i + 1));
            if self.args.package_declarative[i].0 == *package {
                base = Some(self.args.package_declarative[i].1.clone());
            }
            i += 1;
        }
        assert(base is None ==> all.skip(i as int) =~= Seq::empty());
        proof {
            reveal_strlit(".config/agent-sandbox");
            reveal_strlit(".agent-sandbox");
        }
        let home = match home {
            Some(h) => Some(join_file(h.as_str(), ".config/agent-sandbox", package.as_str())),
            None => None,
        };
        let project = match project_root {
            Some(root) => Some(join_file(root.as_str(), ".agent-sandbox", package.as_str())),
            None => None,
        };
        PackageFiles { base, home, project }
    }

    fn files_of_context(&self, ctx: &ResolvedRequestContext) -> (r: PackageFiles)
        ensures
            r@ == context_package_files(self.args.package_declarative@, *ctx),
    {
        if let Some(name) = &ctx.package {
            if validate_package_name(name.as_str()).is_ok() {
                return self.package_layer_paths(name, &ctx.paths.home, &ctx.paths.project_root);
            }
        }
        PackageFiles { base: None, home: None, project: None }
    }

    /// The policy files that a context sees, lowest first. `trusted` is the project's own policy
    /// file, where it has a trusted one.
    pub fn policy_layers(&self, ctx: &ResolvedRequestContext, trusted: &Option<String>) -> (r: Vec<
        LayerSource,
    >)
        ensures
            sources_view(r@) == layer_sources(
                self.args.declarative@,
                self.args.package_declarative@,
                *ctx,
                *trusted,
            ),
    {
        let files = self.files_of_context(ctx);
        let mut r: Vec<LayerSource> = Vec::new();
        r.push(LayerSource { path: self.args.declarative.clone(), of_project: false });
        assert(sources_view(r@) =~= seq![(self.args.declarative@, false)]);
        push_source(&mut r, &files.base, false);
        push_source(&mut r, &files.home, false);
        if let Some(home) = &ctx.paths.home {
            let own = Some(home_policy_file(home.as_str()));
            push_source(&mut r, &own, false);
        } else {
            assert(sources_view(r@) + Seq::empty() =~= sources_view(r@));
        }
        if ctx.paths.project_root.is_some() {
            push_source(&mut r, trusted, true);
        } else {
            assert(sources_view(r@) + Seq::empty() =~= sources_view(r@));
        }
        push_source(&mut r, &files.project, true);
        r
    }

    /// A merged policy with a rule that hides each policy file which the context sees.
    pub fn hide_policy_files(
        &self,
        merged: Policy,
        ctx: &ResolvedRequestContext,
        trusted: &Option<String>,
    ) -> (r: Policy)
        ensures
            r == (Policy {
                filesystem: RuleSet { deny: r.filesystem.deny, ..merged.filesystem },
                ..merged
            }),
            hidden_added(
                merged.filesystem.deny@,
                r.filesystem.deny@,
                hidden_files(
                    self.args.declarative@,
                    self.args.package_declarative@,
                    *ctx,
                    *trusted,
                ),
            ),
    {
        let files = self.files_of_context(ctx);
        let own = match &ctx.paths.home {
            Some(home) => Some(home_policy_file(home.as_str())),
            None => None,
        };
        let project = if ctx.paths.project_root.is_some() {
            text::copy_opt(trusted)
        } else {
            None
        };
        let declarative = Some(self.args.declarative.clone());
        let mut merged = merged;
        let ghost d0 = merged.filesystem.deny@;
        push_hidden(&mut merged.filesystem.deny, &declarative);
        let ghost d1 = merged.filesystem.deny@;
        push_hidden(&mut merged.filesystem.deny, &own);
        let ghost d2 = merged.filesystem.deny@;
        push_hidden(&mut merged.filesystem.deny, &files.base);
        let ghost d3 = merged.filesystem.deny@;
        push_hidden(&mut merged.filesystem.deny, &files.home);
        let ghost d4 = merged.filesystem.deny@;
        push_hidden(&mut merged.filesystem.deny, &files.project);
        let ghost d5 = merged.filesystem.deny@;
        push_hidden(&mut merged.filesystem.deny, &project);
        proof {
            let d6 = merged.filesystem.deny@;
            let p1 = seq![self.args.declarative@];
            let p2 = present(text::opt_text(own));
            let p3 = present(files@.base);
            let p4 = present(files@.home);
            let p5 = present(files@.project);
            let p6 = present(text::opt_text(project));
            assert(present(text::opt_text(declarative)) == p1);
            lemma_hidden_added(d0, d1, d2, p1, p2);
            lemma_hidden_added(d0, d2, d3, p1 + p2, p3);
            lemma_hidden_added(d0, d3, d4, p1 + p2 + p3, p4);
            lemma_hidden_added(d0, d4, d5, p1 + p2 + p3 + p4, p5);
            lemma_hidden_added(d0, d5, d6, p1 + p2 + p3 + p4 + p5, p6);
        }
        merged
    }

    /// What the merged policy of a context is remembered under. `mtime` tells when a file was
    /// last changed.
    pub fn merged_cache_key<T: Fn(&String) -> Option<MtimeKey>>(
        &self,
        ctx: &ResolvedRequestContext,
        trusted: &Option<String>,
        mtime: &T,
    ) -> (r: MergedCacheKey)
        requires
            text::determined(*mtime),
        ensures
            r.home == ctx.paths.home,
            r.project_root == ctx.paths.project_root,
            r.package == ctx.package,
            changed_at(*mtime, Some(self.args.declarative@), r.declarative_mtime),
            changed_at(
                *mtime,
                (match ctx.paths.home {
                    Some(h) => Some(home_policy(h@)),
                    None => None,
                }),
                r.home_policy_mtime,
            ),
            changed_at(*mtime, project_file(*ctx, *trusted), r.project_policy_mtime),
            ({
                let files = context_package_files(self.args.package_declarative@, *ctx);
                &&& changed_at(*mtime, files.base, r.package_base_mtime)
                &&& changed_at(*mtime, files.home, r.package_home_mtime)
                &&& changed_at(*mtime, files.project, r.package_project_mtime)
            }),
    {
        let files = self.files_of_context(ctx);
        let own = match &ctx.paths.home {
            Some(home) => Some(home_policy_file(home.as_str())),
            None => None,
        };
        let project = if ctx.paths.project_root.is_some() {
            text::copy_opt(trusted)
        } else {
            None
        };
        let declarative = Some(self.args.declarative.clone());
        MergedCacheKey {
            home: text::copy_opt(&ctx.paths.home),
            project_root: text::copy_opt(&ctx.paths.project_root),
            package: text::copy_opt(&ctx.package),
            declarative_mtime: mtime_of(mtime, &declarative),
            home_policy_mtime: mtime_of(mtime, &own),
            project_policy_mtime: mtime_of(mtime, &project),
            package_base_mtime: mtime_of(mtime, &files.base),
            package_home_mtime: mtime_of(mtime, &files.home),
            package_project_mtime: mtime_of(mtime, &files.project),
        }
    }
}

/// The text with a backslash before each double quote.
pub open spec fn escaped(s: Seq<char>) -> Seq<char>
    decreases s.len(),
{
    if s.len() == 0 {
        Seq::empty()
    } else if s.last() == '"' {
        escaped(s.drop_last()) + seq!['\\', '"']
    } else {
        escaped(s.drop_last()).push(s.last())
    }
}

/// The line that a network rule is exported as.
pub open spec fn rule_line(rule: NetworkRule) -> Seq<char> {
    "    { host = \""@ + escaped(rule.host@) + ("\"; port = "@ + text::decimal_text(
        rule.port as nat,
    ) + "; }"@)
}

/// The lines that network rules are exported as.
pub open spec fn rule_lines(rules: Seq<NetworkRule>) -> Seq<Seq<char>> {
    rules.map_values(|rule: NetworkRule| rule_line(rule))
}

/// The lines of the export of a policy's network rules.
pub open spec fn nix_lines(policy: Policy) -> Seq<Seq<char>> {
    seq![
        "# Generated by agent-sandbox-policyd."@,
        "{"@,
        "  network.direct.allow = ["@,
    ] + rule_lines(policy.network.direct.allow@) + seq![
        "  ];"@,
        "  network.direct.deny = ["@,
    ] + rule_lines(policy.network.direct.deny@) + seq!["  ];"@, "}"@]
}

fn escape(s: &String) -> (r: String)
    ensures
        r@ == escaped(s@),
{
    let chars = text::chars_of(s.as_str());
    let mut r = String::new();
    let mut i: usize = 0;
    assert(chars@.take(0) =~= Seq::empty());
    while i < chars.len()
        invariant
            i <= chars@.len(),
            r@ == escaped(chars@.take(i as int)),
        decreases chars@.len() - i,
    {
        let ghost t = chars@.take(i + 1);
        assert(t.drop_last() =~= chars@.take(i as int));
        assert(t.last() == chars@[i as int]);
        if chars[i] == '"' {
            r.push('\\');
            r.push('"');
            assert(r@ =~= escaped(chars@.take(i as int)) + seq!['\\', '"']);
        } else {
            r.push(chars[i]);
        }
        i += 1;
    }
    assert(chars@.take(chars@.len() as int) =~= chars@);
    r
}

fn push_rules(lines: &mut Vec<String>, rules: &Vec<NetworkRule>)
    ensures
        text::texts(final(lines)@) == text::texts(old(lines)@) + rule_lines(rules@),
{
    let ghost before = text::texts(lines@);
    let mut i: usize = 0;
    assert(before + rule_lines(rules@).take(0) =~= before);
    while i < rules.len()
        invariant
            i <= rules@.len(),
            text::texts(lines@) == before + rule_lines(rules@).take(i as int),
        decreases rules@.len() - i,
    {
        let ghost all = rule_lines(rules@);
        let ghost so_far = text::texts(lines@);
        let tail = text::join3(
            "\"; port = ",
            text::decimal(rules[i].port as u64).as_str(),
            "; }",
        );
        let line = text::join3("    { host = \"", escape(&rules[i].host).as_str(), tail.as_str());
        lines.push(line);
        assert(line@ =~= all[i as int]);
        assert(text::texts(lines@) =~= so_far.push(all[i as int]));
        assert(before + all.take(i + 1) =~= (before + all.take(i as int)).push(all[i as int]));
        i += 1;
    }
    assert(rule_lines(rules@).take(rules@.len() as int) =~= rule_lines(rules@));
}

/// The export of a policy's network rules.
pub fn nix_export(policy: &Policy) -> (r: String)
    ensures
        r@ == freeze::registry_text(nix_lines(*policy)),
{
    let mut lines: Vec<String> = Vec::new();
    lines.push("# Generated by agent-sandbox-policyd.".to_owned());
    lines.push("{".to_owned());
    lines.push("  network.direct.allow = [".to_owned());
    assert(text::texts(lines@) =~= seq![
        "# Generated by agent-sandbox-policyd."@,
        "{"@,
        "  network.direct.allow = ["@,
    ]);
    push_rules(&mut lines, &policy.network.direct.allow);
    let ghost t1 = text::texts(lines@);
    lines.push("  ];".to_owned());
    lines.push("  network.direct.deny = [".to_owned());
    assert(text::texts(lines@) =~= t1 + seq!["  ];"@, "  network.direct.deny = ["@]);
    push_rules(&mut lines, &policy.network.direct.deny);
    let ghost t2 = text::texts(lines@);
    lines.push("  ];".to_owned());
    lines.push("}".to_owned());
    assert(text::texts(lines@) =~= t2 + seq!["  ];"@, "}"@]);
    freeze::registry_contents(&lines)
}

/// A file that a policy is exported to, and its text.
#[derive(Debug, PartialEq, Eq)]
pub struct ExportedFile {
    pub path: String,
    pub text: String,
}

impl ExportedFile {
    /// The file is the one at the path, with the text.
    pub open spec fn is(self, path: String, text: Seq<char>) -> bool {
        self.path == path && self.text@ == text
    }
}

impl PolicyStore {
    /// The files that a policy is exported to: always its JSON text, which ends in a line break,
    /// and its network rules where there is a file for them.
    pub fn export_policy_files(&self, merged: &Policy, json: &str) -> (r: Vec<ExportedFile>)
        ensures
            r@.len() == (if self.args.export_nix is Some {
                2int
            } else {
                1
            }),
            r@[0].is(self.args.export_json, json@ + "\n"@),
            self.args.export_nix matches Some(path) ==> r@[1].is(
                path,
                freeze::registry_text(nix_lines(*merged)),
            ),
    {
        let mut files: Vec<ExportedFile> = Vec::new();
        files.push(
            ExportedFile {
                path: self.args.export_json.clone(),
                text: text::join2(json, "\n"),
            },
        );
        match &self.args.export_nix {
            Some(path) => {
                files.push(ExportedFile { path: path.clone(), text: nix_export(merged) });
            },
            None => {},
        }
        files
    }
}

/// A session's package is settled once it is registered: nobody that speaks for the session or
/// registers it again changes it.
pub proof fn law_package_is_immutable<A: Fn(&u32, &u32) -> bool>(
    before: Map<Seq<char>, SandboxSessionRegistration>,
    after: Map<Seq<char>, SandboxSessionRegistration>,
    session: Seq<char>,
    id: Seq<char>,
    peer: TrustedPeer,
    descends: A,
    package: Seq<char>,
    owner_uid: u32,
    launcher_pid: u32,
    peer_stat: Option<String>,
    launcher_stat: Option<String>,
    r: Result<(), PolicydError>,
)
    requires
        before.contains_key(session),
        before[session].package is Some,
        after == peer_noted(before, peer, id, descends) || sandbox_registered(
            before,
            after,
            id,
            package,
            owner_uid,
            launcher_pid,
            peer_stat,
            launcher_stat,
            r,
        ),
    ensures
        after.contains_key(session),
        text::opt_text(after[session].package) == text::opt_text(before[session].package),
{
}

/// A session that a launcher registered takes no root from outside the launcher's processes.
pub proof fn law_outsiders_do_not_claim_a_session<A: Fn(&u32, &u32) -> bool>(
    sessions: Map<Seq<char>, SandboxSessionRegistration>,
    id: Seq<char>,
    peer: TrustedPeer,
    descends: A,
)
    requires
        sessions.contains_key(id),
        sessions[id].launcher_pid != 0,
        !text::relates(descends, sessions[id].launcher_pid, peer.pid),
    ensures
        peer_noted(sessions, peer, id, descends) == sessions,
{
}

/// What a peer that is not root says of its paths changes nothing.
pub proof fn law_forged_paths_are_ignored<
    'a,
    A: Fn(&u32, &u32) -> bool,
    S: Fn(&u32) -> Option<String>,
    H: Fn(&u32) -> Option<String>,
    C: Fn(&ProcessQuery) -> Option<String>,
>(
    sessions: Map<Seq<char>, SandboxSessionRegistration>,
    ctx: MergeContext,
    forged: SandboxPaths,
    peer: TrustedPeer,
    named_session: bool,
    facts: HostFacts<'a, A, S, H, C>,
)
    ensures
        peer_resolved(
            sessions,
            MergeContext { paths: forged, ..ctx },
            peer,
            named_session,
            facts,
        ) == peer_resolved(sessions, ctx, peer, named_session, facts),
{
}

/// No request brings its own project root, trusted or not.
pub proof fn law_project_root_is_never_taken_from_the_wire<
    'a,
    A: Fn(&u32, &u32) -> bool,
    S: Fn(&u32) -> Option<String>,
    H: Fn(&u32) -> Option<String>,
    C: Fn(&ProcessQuery) -> Option<String>,
>(
    sessions: Map<Seq<char>, SandboxSessionRegistration>,
    ctx: MergeContext,
    peer: TrustedPeer,
    named_session: bool,
    facts: HostFacts<'a, A, S, H, C>,
)
    ensures
        trusted_context(sessions, ctx, facts).paths.project_root is None,
        peer_resolved(sessions, ctx, peer, named_session, facts).paths.project_root is None,
{
}

/// A gate's request cannot name its session.
pub proof fn law_gates_do_not_name_sessions<
    'a,
    A: Fn(&u32, &u32) -> bool,
    S: Fn(&u32) -> Option<String>,
    H: Fn(&u32) -> Option<String>,
    C: Fn(&ProcessQuery) -> Option<String>,
>(
    sessions: Map<Seq<char>, SandboxSessionRegistration>,
    ctx: MergeContext,
    named: Option<String>,
    peer: TrustedPeer,
    facts: HostFacts<'a, A, S, H, C>,
)
    ensures
        peer_resolved(
            sessions,
            MergeContext { sandbox_session_id: named, ..ctx },
            peer,
            false,
            facts,
        ) == peer_resolved(sessions, ctx, peer, false, facts),
{
}

/// A package goes only to peers that own the session and run inside its sandbox: never to
/// another user, to the launcher, or to a process that does not descend from the launcher.
pub proof fn law_package_stays_inside_the_sandbox<
    'a,
    A: Fn(&u32, &u32) -> bool,
    S: Fn(&u32) -> Option<String>,
    H: Fn(&u32) -> Option<String>,
    C: Fn(&ProcessQuery) -> Option<String>,
>(
    sessions: Map<Seq<char>, SandboxSessionRegistration>,
    ctx: MergeContext,
    peer: TrustedPeer,
    named_session: bool,
    facts: HostFacts<'a, A, S, H, C>,
)
    requires
        peer.uid > 0,
        peer_resolved(sessions, ctx, peer, named_session, facts).package is Some,
    ensures
        ({
            let r = peer_resolved(sessions, ctx, peer, named_session, facts);
            let reg = sessions[r.sandbox_session_id->0@];
            &&& r.sandbox_session_id is Some
            &&& sessions.contains_key(r.sandbox_session_id->0@)
            &&& reg.owner_uid == peer.uid
            &&& reg.launcher_pid != peer.pid
            &&& text::relates(*facts.descends, reg.launcher_pid, peer.pid)
            &&& r.package == reg.package
        }),
{
}

/// A context without a package sees no package's files, and has none hidden from it.
pub proof fn law_unattributed_sees_no_package_layer(
    declarative: Seq<char>,
    declared: Seq<(String, String)>,
    ctx: ResolvedRequestContext,
    trusted: Option<String>,
)
    requires
        ctx.package is None,
    ensures
        layer_sources(declarative, declared, ctx, trusted) == layer_sources(
            declarative,
            Seq::empty(),
            ctx,
            trusted,
        ),
        hidden_files(declarative, declared, ctx, trusted) == hidden_files(
            declarative,
            Seq::empty(),
            ctx,
            trusted,
        ),
{
}

/// A context whose project root is known sees the project's trusted policy, whether or not it has
/// a home directory: above every file but the package's in the project.
pub proof fn law_project_policy_needs_only_its_root(
    declarative: Seq<char>,
    declared: Seq<(String, String)>,
    ctx: ResolvedRequestContext,
    trusted: Option<String>,
)
    requires
        ctx.paths.project_root is Some,
        trusted is Some,
    ensures
        ({
            let seen = layer_sources(declarative, declared, ctx, trusted);
            let above = source(context_package_files(declared, ctx).project, true);
            &&& seen.len() > above.len()
            &&& seen[seen.len() - above.len() - 1] == (trusted->0@, true)
            &&& seen.skip(seen.len() - above.len()) == above
        }),
{
    let seen = layer_sources(declarative, declared, ctx, trusted);
    let above = source(context_package_files(declared, ctx).project, true);
    assert(seen.skip(seen.len() - above.len()) =~= above);
}

/// Every policy file that a context sees is hidden from it.
pub proof fn law_seen_files_are_hidden(
    declarative: Seq<char>,
    declared: Seq<(String, String)>,
    ctx: ResolvedRequestContext,
    trusted: Option<String>,
    i: int,
)
    requires
        0 <= i < layer_sources(declarative, declared, ctx, trusted).len(),
    ensures
        hidden_files(declarative, declared, ctx, trusted).contains(
            layer_sources(declarative, declared, ctx, trusted)[i].0,
        ),
{
    let files = context_package_files(declared, ctx);
    let own = home_file(ctx);
    let seen = layer_sources(declarative, declared, ctx, trusted);
    let all = hidden_files(declarative, declared, ctx, trusted);
    let p = project_file(ctx, trusted);
    let a1 = seq![declarative];
    let a2 = a1 + present(own);
    let a3 = a2 + present(files.base);
    let a4 = a3 + present(files.home);
    let a5 = a4 + present(files.project);
    assert(all == a5 + present(p));
    assert(all[0] == declarative);
    if own is Some {
        assert(all[a1.len() as int] == own->0);
    }
    if files.base is Some {
        assert(all[a2.len() as int] == files.base->0);
    }
    if files.home is Some {
        assert(all[a3.len() as int] == files.home->0);
    }
    if files.project is Some {
        assert(all[a4.len() as int] == files.project->0);
    }
    if p is Some {
        assert(all[a5.len() as int] == p->0);
    }
    assert(seen[i].0 == declarative || Some(seen[i].0) == own || Some(seen[i].0) == files.base
        || Some(seen[i].0) == files.home || Some(seen[i].0) == files.project || Some(seen[i].0)
        == p);
}

} // verus!
