//! Commands that run with the daemon's rights: which programs are trusted, and who approves.

use vstd::prelude::*;

use crate::error::PolicydError;
use crate::ids;
use crate::paths;
use crate::rules;
use crate::scan;
use crate::state::Pending;
use crate::state::PendingContext;
use crate::state::PendingElevation;
use crate::state::Waiters;
use crate::store::PolicyStore;
use crate::text;
use crate::types::Policy;
use crate::types::ResolvedRequestContext;
use crate::types::SudoRule;
use crate::waiting;
use crate::waiting::WaitPhase;
use crate::waiting::WaitPoll;

verus! {

/// Reply to a request to run a command.
#[derive(Debug, PartialEq, Eq)]
pub enum ElevateReply {
    /// A rule or the user refused.
    Denied,
    /// The command was not run; the text says why.
    Refused(String),
    /// The command ran.
    Executed { exit_code: i32, stdout: String, stderr: String },
    /// The command could not be started; the text says why.
    ExecFailed(String),
}

impl ElevateReply {
    /// The reply says that the command was not run, for the reason given.
    pub open spec fn says_refused(self, reason: Seq<char>) -> bool {
        self matches ElevateReply::Refused(r) && r@ == reason
    }

    fn refused(reason: &str) -> (r: Self)
        ensures
            r.says_refused(reason@),
    {
        ElevateReply::Refused(reason.to_owned())
    }
}

/// The home directory that a line of the user database names; empty where it names none.
pub open spec fn home_field(line: Seq<char>) -> Seq<char> {
    if scan::split_on(line, ':').len() >= 6 {
        scan::split_on(line, ':')[5]
    } else {
        Seq::empty()
    }
}

/// The line names a user with the home directory.
pub open spec fn names_home(line: Seq<char>, home: Seq<char>) -> bool {
    home_field(line) == home && scan::split_on(line, ':')[0].len() > 0
}

/// The user of the first line that names one with the home directory.
pub open spec fn first_user(lines: Seq<Seq<char>>, home: Seq<char>) -> Option<Seq<char>>
    decreases lines.len(),
{
    if lines.len() == 0 {
        None
    } else if names_home(lines[0], home) {
        Some(scan::split_on(lines[0], ':')[0])
    } else {
        first_user(lines.skip(1), home)
    }
}

/// The component names something in its directory: it is no root, no dot and no double dot.
pub open spec fn normal(component: Seq<char>) -> bool {
    component != "/"@ && component != "."@ && component != ".."@
}

/// The last component of a home directory, where it is a name.
pub open spec fn home_name(home: Seq<char>) -> Seq<char> {
    let cs = paths::components(home);
    if cs.len() > 0 && normal(cs.last()) && cs.last().len() > 0 {
        cs.last()
    } else {
        "nobody"@
    }
}

/// The user that a home directory belongs to.
pub open spec fn user_of_home(home: Option<String>, passwd: Option<String>) -> Seq<char> {
    match home {
        None => "root"@,
        Some(h) => match passwd {
            Some(contents) => match first_user(scan::lines_of(contents@), h@) {
                Some(user) => user,
                None => home_name(h@),
            },
            None => home_name(h@),
        },
    }
}

fn is_normal(component: &Vec<char>) -> (r: bool)
    ensures
        r == normal(component@),
{
    !paths::spells(component, "/") && !paths::spells(component, ".") && !paths::spells(
        component,
        "..",
    )
}

fn find_user(contents: &String, home: &String) -> (r: Option<String>)
    ensures
        match r {
            Some(user) => first_user(scan::lines_of(contents@), home@) == Some(user@),
            None => first_user(scan::lines_of(contents@), home@) is None,
        },
{
    let lines = scan::lines(&text::chars_of(contents.as_str()));
    let wanted = text::chars_of(home.as_str());
    let ghost all = scan::lines_of(contents@);
    let mut i: usize = 0;
    assert(all.skip(0) =~= all);
    while i < lines.len()
        invariant
            i <= lines@.len(),
            all == scan::pieces(lines@),
            all == scan::lines_of(contents@),
            wanted@ == home@,
            first_user(all, home@) == first_user(all.skip(i as int), home@),
        decreases lines@.len() - i,
    {
        let fields = scan::split(&lines[i], ':');
        let ghost fs = scan::split_on(lines@[i as int]@, ':');
        proof {
            assert(scan::pieces(fields@) == fs);
            assert(fields@.len() == fs.len());
            assert(all.skip(i as int)[0] == lines@[i as int]@);
            assert(all.skip(i as int).skip(1) =~= all.skip(i + 1));
        }
        let found = if fields.len() >= 6 {
            assert(fs[5] == fields@[5]@);
            scan::same_chars(&fields[5], &wanted)
        } else {
            assert(wanted.len() == 0 ==> wanted@ =~= Seq::<char>::empty());
            wanted.len() == 0
        };
        assert(found == (home_field(lines@[i as int]@) == home@));
        if found && fields.len() > 0 && fields[0].len() > 0 {
            assert(fs[0] == fields@[0]@);
            return Some(text::from_chars(&fields[0]));
        }
        proof {
            scan::lemma_split_has_part(lines@[i as int]@, ':');
            assert(fs[0] == fields@[0]@);
        }
        i += 1;
    }
    assert(all.skip(lines@.len() as int) =~= Seq::empty());
    None
}

/// The user that a home directory belongs to: root where there is none, else the one that the
/// user database (`passwd`, where it could be read) names, else its last component.
pub fn user_for_home(home: &Option<String>, passwd: &Option<String>) -> (r: String)
    ensures
        r@ == user_of_home(*home, *passwd),
{
    let home = match home {
        Some(home) => home,
        None => {
            return "root".to_owned();
        },
    };
    if let Some(contents) = passwd {
        if let Some(user) = find_user(contents, home) {
            return user;
        }
    }
    let cs = paths::components_of(home.as_str());
    let ghost all = paths::components(home@);
    let n = cs.len();
    assert(n == all.len());
    if n > 0 {
        assert(all.last() == cs@[n - 1]@);
        if is_normal(&cs[n - 1]) && cs[n - 1].len() > 0 {
            return text::from_chars(&cs[n - 1]);
        }
    }
    "nobody".to_owned()
}

/// The environment that a command is given: the user that it is run for, and where programs are.
pub fn elevation_env(home: &Option<String>, passwd: &Option<String>) -> (r: Vec<(String, String)>)
    ensures
        r@.len() == 2,
        r@[0].0@ == "AGENT_SANDBOX_ELEVATE_USER"@,
        r@[0].1@ == user_of_home(*home, *passwd),
        r@[1].0@ == "PATH"@,
        r@[1].1@ == "/run/current-system/sw/bin"@,
{
    let mut r: Vec<(String, String)> = Vec::new();
    r.push(("AGENT_SANDBOX_ELEVATE_USER".to_owned(), user_for_home(home, passwd)));
    r.push(("PATH".to_owned(), "/run/current-system/sw/bin".to_owned()));
    r
}

/// The path is a relative one, and no part of it is a dot or a double dot.
pub open spec fn plain(path: Seq<char>) -> bool {
    &&& path.len() > 0
    &&& !paths::absolute(path)
    &&& forall|i: int|
        0 <= i < scan::split_on(path, '/').len() ==> (#[trigger] scan::split_on(path, '/')[i])
            != "."@ && scan::split_on(path, '/')[i] != ".."@
}

/// The path is one name in a directory.
pub open spec fn bare(path: Seq<char>) -> bool {
    paths::components(path).len() == 1 && normal(paths::components(path)[0])
}

/// Where a trusted program is looked for: nothing where the name is not trusted.
pub open spec fn trusted_candidate(program: Seq<char>) -> Option<Seq<char>> {
    if paths::absolute(program) {
        match scan::after_prefix(program, "/run/current-system/"@) {
            Some(rest) => if plain(rest) {
                Some(program)
            } else {
                None
            },
            None => None,
        }
    } else if bare(program) {
        Some(paths::joined("/run/current-system/sw/bin"@, program))
    } else {
        None
    }
}

/// Whether a path is relative and free of dots and double dots.
fn is_plain(path: &Vec<char>) -> (r: bool)
    ensures
        r == plain(path@),
{
    if path.len() == 0 || path[0] == '/' {
        return false;
    }
    let parts = scan::split(path, '/');
    let ghost ps = scan::split_on(path@, '/');
    let mut i: usize = 0;
    while i < parts.len()
        invariant
            ps == scan::split_on(path@, '/'),
            ps == scan::pieces(parts@),
            i <= parts@.len(),
            forall|j: int| 0 <= j < i ==> (#[trigger] ps[j]) != "."@ && ps[j] != ".."@,
        decreases parts@.len() - i,
    {
        assert(ps[i as int] == parts@[i as int]@);
        if paths::spells(&parts[i], ".") || paths::spells(&parts[i], "..") {
            return false;
        }
        i += 1;
    }
    true
}

/// Where the program of a command is looked for. An absolute name must lie in the system
/// profile, with neither dots nor double dots on the way; any other must be a bare one.
pub fn elevation_candidate(argv: &Vec<String>) -> (r: Result<String, PolicydError>)
    ensures
        if argv@.len() == 0 {
            r == Err::<String, _>(PolicydError::ArgvRequired)
        } else {
            match trusted_candidate(argv@[0]@) {
                Some(candidate) => r matches Ok(path) && path@ == candidate,
                None => r == Err::<String, _>(PolicydError::ElevationArgvNotAbsolute),
            }
        },
{
    if argv.len() == 0 {
        return Err(PolicydError::ArgvRequired);
    }
    let program = argv[0].as_str();
    if paths::is_absolute(program) {
        match scan::strip_prefix(&text::chars_of(program), "/run/current-system/") {
            Some(rest) => {
                if is_plain(&rest) {
                    Ok(argv[0].clone())
                } else {
                    Err(PolicydError::ElevationArgvNotAbsolute)
                }
            },
            None => Err(PolicydError::ElevationArgvNotAbsolute),
        }
    } else {
        let cs = paths::components_of(program);
        let ghost all = paths::components(program@);
        assert(cs@.len() == all.len());
        if cs.len() != 1 {
            return Err(PolicydError::ElevationArgvNotAbsolute);
        }
        assert(all[0] == cs@[0]@);
        if is_normal(&cs[0]) {
            Ok(paths::join("/run/current-system/sw/bin", program))
        } else {
            Err(PolicydError::ElevationArgvNotAbsolute)
        }
    }
}

/// What a candidate program leads to when its links are followed.
#[derive(Debug, PartialEq, Eq)]
pub struct ElevationTarget {
    pub canonical: String,
    pub is_file: bool,
}

/// A command that is ready to run.
#[derive(Debug, PartialEq, Eq)]
pub struct ElevationCommand {
    pub program: String,
    /// The name that the program is told it was called by.
    pub arg0: String,
    pub arguments: Vec<String>,
    pub work_dir: String,
}

/// The target is a regular file of the immutable store.
pub open spec fn trusted_target(target: Option<ElevationTarget>) -> bool {
    target matches Some(t) && t.is_file && paths::below(t.canonical@, "/nix/store/"@)
}

/// The command that an argument list stands for. `target` is what the candidate program leads
/// to, `work_dir` the canonical working directory, where there are such.
pub fn resolve_elevation_argv(
    argv: &Vec<String>,
    target: Option<ElevationTarget>,
    work_dir: Option<String>,
) -> (r: Result<ElevationCommand, PolicydError>)
    ensures
        if argv@.len() == 0 {
            r == Err::<ElevationCommand, _>(PolicydError::ArgvRequired)
        } else if trusted_candidate(argv@[0]@) is None || !trusted_target(target) {
            r == Err::<ElevationCommand, _>(PolicydError::ElevationArgvNotAbsolute)
        } else {
            &&& r matches Ok(command)
            &&& command.program == target->0.canonical
            &&& Some(command.arg0@) == trusted_candidate(argv@[0]@)
            &&& command.arguments@ == argv@.skip(1)
            &&& command.work_dir@ == (match work_dir {
                Some(dir) => dir@,
                None => "/"@,
            })
        },
{
    let arg0 = match elevation_candidate(argv) {
        Ok(candidate) => candidate,
        Err(error) => {
            return Err(error);
        },
    };
    let target = match target {
        Some(target) => target,
        None => {
            return Err(PolicydError::ElevationArgvNotAbsolute);
        },
    };
    if !target.is_file || !paths::starts_with(target.canonical.as_str(), "/nix/store/") {
        return Err(PolicydError::ElevationArgvNotAbsolute);
    }
    let mut arguments: Vec<String> = Vec::new();
    let mut i: usize = 1;
    while i < argv.len()
        invariant
            1 <= i <= argv@.len(),
            arguments@.len() == i - 1,
            forall|j: int| 0 <= j < i - 1 ==> #[trigger] arguments@[j] == argv@.skip(1)[j],
        decreases argv@.len() - i,
    {
        arguments.push(argv[i].clone());
        i += 1;
    }
    assert(arguments@ =~= argv@.skip(1));
    let work_dir = match work_dir {
        Some(dir) => dir,
        None => "/".to_owned(),
    };
    Ok(ElevationCommand { program: target.canonical, arg0, arguments, work_dir })
}

/// The reply to a command that rules allow but that cannot be resolved.
pub fn elevation_refused(error: &PolicydError) -> (r: ElevateReply)
    ensures
        if *error is ElevationArgvNotAbsolute {
            r.says_refused(
                "agent-sandbox: elevation argv[0] must be a bare command resolved via /run/current-system/sw/bin or an absolute path under /run/current-system, with a regular canonical target under /nix/store"@,
            )
        } else {
            r == ElevateReply::Denied
        },
{
    match error {
        PolicydError::ElevationArgvNotAbsolute => ElevateReply::refused(
            "agent-sandbox: elevation argv[0] must be a bare command resolved via /run/current-system/sw/bin or an absolute path under /run/current-system, with a regular canonical target under /nix/store",
        ),
        _ => ElevateReply::Denied,
    }
}

/// What the caller that asked to run a command is to do next.
#[derive(Debug, PartialEq, Eq)]
pub enum ElevationStart {
    /// Answer at once.
    Reply(ElevateReply),
    /// Run the command and answer with what came of it.
    Execute,
    /// Show the request with this id to the policy UIs and wait for a decision.
    Wait(String),
}

/// The caller to answer, and its reply.
#[derive(Debug, PartialEq, Eq)]
pub struct ElevationDelivery {
    pub told: u64,
    pub reply: ElevateReply,
}

/// The commands that wait and the callers that wait for them.
#[verifier::ext_equal]
pub struct ElevationBoard {
    pub pending: Map<Seq<char>, Pending>,
    pub waiters: Map<Seq<char>, u64>,
}

impl ElevationBoard {
    /// The board without the command with the id and its caller.
    pub open spec fn without(self, id: Seq<char>) -> ElevationBoard {
        ElevationBoard { pending: self.pending.remove(id), waiters: self.waiters.remove(id) }
    }
}

impl PolicyStore {
    /// The commands that wait.
    pub open spec fn elevation_board(&self) -> ElevationBoard {
        ElevationBoard { pending: self.pending@, waiters: self.waiters.elevation@ }
    }

    /// Only the commands that wait differ.
    pub open spec fn elevation_board_changed(&self, before: &PolicyStore) -> bool {
        *self == (PolicyStore {
            pending: self.pending,
            waiters: Waiters { elevation: self.waiters.elevation, ..before.waiters },
            ..*before
        })
    }
}

/// The pending command is what the request is filed as.
pub open spec fn command_filed(
    pending: Pending,
    id: String,
    created_at: u64,
    argv: Seq<String>,
    ctx: ResolvedRequestContext,
) -> bool {
    pending matches Pending::Elevation(p) && p.id == id && p.created_at == created_at && p.argv@
        == argv && p.context == PendingContext::of(ctx)
}

/// A rule or a session denies the command.
pub open spec fn command_denied<F: Fn(&SudoRule) -> bool>(
    store: PolicyStore,
    policy: Policy,
    matches: F,
    argv: Seq<String>,
    sessions: Seq<String>,
) -> bool {
    rules::any_holds(policy.sudo.deny@, matches) || rules::some_session(
        store.session.sudo_deny@,
        sessions,
        |b: Vec<Vec<String>>| rules::sudo_covered(b@, argv),
    )
}

/// A rule or a session allows the command.
pub open spec fn command_allowed<F: Fn(&SudoRule) -> bool>(
    store: PolicyStore,
    policy: Policy,
    matches: F,
    argv: Seq<String>,
    sessions: Seq<String>,
) -> bool {
    rules::any_holds(policy.sudo.allow@, matches) || rules::some_session(
        store.session.sudo_allow@,
        sessions,
        |b: Vec<Vec<String>>| rules::sudo_covered(b@, argv),
    )
}

/// Asking to run a command comes to the result: denials are heard before approvals, and only
/// where neither speaks is the user asked.
pub open spec fn elevation_requested<F: Fn(&SudoRule) -> bool>(
    before: PolicyStore,
    after: PolicyStore,
    policy: Policy,
    matches: F,
    argv: Seq<String>,
    sessions: Seq<String>,
    ctx: ResolvedRequestContext,
    waiter: u64,
    fresh_id: String,
    created_at: u64,
    r: ElevationStart,
) -> bool {
    if command_denied(before, policy, matches, argv, sessions) {
        r == ElevationStart::Reply(ElevateReply::Denied) && after == before
    } else if command_allowed(before, policy, matches, argv, sessions) {
        r == ElevationStart::Execute && after == before
    } else if before.pending@.len() >= before.limits.pending_approvals {
        &&& r matches ElevationStart::Reply(reply)
        &&& reply.says_refused("agent-sandbox: too many pending approvals"@)
        &&& after == before
    } else {
        &&& r == ElevationStart::Wait(fresh_id)
        &&& after.elevation_board_changed(&before)
        &&& after.waiters.elevation@ == before.waiters.elevation@.insert(fresh_id@, waiter)
        &&& after.pending@ == before.pending@.insert(fresh_id@, after.pending@[fresh_id@])
        &&& command_filed(after.pending@[fresh_id@], fresh_id, created_at, argv, ctx)
    }
}

/// The caller that waited for a command has its reply.
pub open spec fn elevation_finished(
    before: PolicyStore,
    after: PolicyStore,
    pending_id: Seq<char>,
    result: ElevateReply,
    r: Option<ElevationDelivery>,
) -> bool {
    &&& after == (PolicyStore {
        waiters: Waiters { elevation: after.waiters.elevation, ..before.waiters },
        ..before
    })
    &&& after.waiters.elevation@ == before.waiters.elevation@.remove(pending_id)
    &&& r == (if before.waiters.elevation@.contains_key(pending_id) {
        Some(
            ElevationDelivery { told: before.waiters.elevation@[pending_id], reply: result },
        )
    } else {
        None
    })
}

/// What may happen while a caller waits for a decision on a command.
#[derive(Debug, PartialEq, Eq)]
pub enum ElevationWaitEvent {
    /// The caller looks whether a policy UI is there.
    Look { has_ui: bool },
    /// The decision came.
    Answered(ElevateReply),
    /// Nobody can answer any more.
    Abandoned,
}

/// What a caller that waits for a decision on a command is to do next.
#[derive(Debug, PartialEq, Eq)]
pub enum ElevationWaitStep {
    /// Wait on for so long, in the given phase.
    Wait { duration: u64, phase: WaitPhase },
    /// Answer.
    Done(ElevateReply),
}

impl PolicyStore {
    /// Have a caller wait for a decision on a command under the id. Nothing is filed where too
    /// many requests already wait.
    pub fn create_pending_elevation_entry(
        &mut self,
        argv: &Vec<String>,
        ctx: &ResolvedRequestContext,
        waiter: u64,
        fresh_id: String,
        created_at: u64,
    ) -> (r: Option<String>)
        requires
            old(self).wf(),
        ensures
            final(self).wf(),
            final(self).configured_as(old(self)),
            if old(self).pending@.len() >= old(self).limits.pending_approvals {
                r is None && *final(self) == *old(self)
            } else {
                &&& r == Some(fresh_id)
                &&& final(self).elevation_board_changed(old(self))
                &&& final(self).waiters.elevation@ == old(self).waiters.elevation@.insert(
                    fresh_id@,
                    waiter,
                )
                &&& final(self).pending@ == old(self).pending@.insert(
                    fresh_id@,
                    final(self).pending@[fresh_id@],
                )
                &&& command_filed(
                    final(self).pending@[fresh_id@],
                    fresh_id,
                    created_at,
                    argv@,
                    *ctx,
                )
            },
    {
        if self.pending.len() >= self.limits.pending_approvals {
            return None;
        }
        let _ = self.waiters.elevation.insert(fresh_id.clone(), waiter);
        let pending = Pending::Elevation(
            PendingElevation {
                id: fresh_id.clone(),
                created_at,
                argv: text::copy_texts(argv),
                context: PendingContext::from_resolved(ctx),
            },
        );
        let _ = self.pending.insert(fresh_id.clone(), pending);
        Some(fresh_id)
    }

    /// Ask to run a command under the given id; see [`elevation_requested`].
    pub fn request_elevation_with_id<F: Fn(&SudoRule) -> bool>(
        &mut self,
        policy: &Policy,
        matches: &F,
        argv: &Vec<String>,
        sessions: &Vec<String>,
        ctx: &ResolvedRequestContext,
        waiter: u64,
        fresh_id: String,
        created_at: u64,
    ) -> (r: ElevationStart)
        requires
            old(self).wf(),
            text::decides(*matches),
        ensures
            final(self).wf(),
            final(self).configured_as(old(self)),
            elevation_requested(
                *old(self),
                *final(self),
                *policy,
                *matches,
                argv@,
                sessions@,
                *ctx,
                waiter,
                fresh_id,
                created_at,
                r,
            ),
    {
        if rules::sudo_policy_denied(policy, matches) || self.session_sudo_denied(argv, sessions) {
            return ElevationStart::Reply(ElevateReply::Denied);
        }
        if rules::sudo_policy_allowed(policy, matches) || self.session_sudo_allowed(
            argv,
            sessions,
        ) {
            return ElevationStart::Execute;
        }
        match self.create_pending_elevation_entry(argv, ctx, waiter, fresh_id, created_at) {
            Some(id) => ElevationStart::Wait(id),
            None => ElevationStart::Reply(
                ElevateReply::refused("agent-sandbox: too many pending approvals"),
            ),
        }
    }

    /// Ask to run a command, under a fresh id where the user is asked; see
    /// [`PolicyStore::request_elevation_with_id`].
    pub fn request_elevation<F: Fn(&SudoRule) -> bool>(
        &mut self,
        policy: &Policy,
        matches: &F,
        argv: &Vec<String>,
        sessions: &Vec<String>,
        ctx: &ResolvedRequestContext,
        waiter: u64,
        created_at: u64,
    ) -> (r: ElevationStart)
        requires
            old(self).wf(),
            text::decides(*matches),
        ensures
            final(self).wf(),
            final(self).configured_as(old(self)),
            exists|fresh_id: String| ids::pending_id_form(fresh_id@, "elev:"@) && #[trigger]
                elevation_requested(
                    *old(self),
                    *final(self),
                    *policy,
                    *matches,
                    argv@,
                    sessions@,
                    *ctx,
                    waiter,
                    fresh_id,
                    created_at,
                    r,
                ),
    {
        let fresh_id = ids::fresh_pending_id("elev:");
        self.request_elevation_with_id(
            policy,
            matches,
            argv,
            sessions,
            ctx,
            waiter,
            fresh_id,
            created_at,
        )
    }

    /// Give the caller that waits for a command its reply.
    pub fn finish_elevation(&mut self, pending_id: &String, result: ElevateReply) -> (r: Option<
        ElevationDelivery,
    >)
        requires
            old(self).wf(),
        ensures
            final(self).wf(),
            final(self).configured_as(old(self)),
            elevation_finished(*old(self), *final(self), pending_id@, result, r),
    {
        match self.waiters.elevation.remove(pending_id) {
            Some(told) => Some(ElevationDelivery { told, reply: result }),
            None => None,
        }
    }

    /// Take a command that nobody decided off the board.
    fn expire_elevation_wait(&mut self, pending_id: &String)
        requires
            old(self).wf(),
        ensures
            final(self).wf(),
            final(self).elevation_board_changed(old(self)),
            final(self).elevation_board() == old(self).elevation_board().without(pending_id@),
    {
        let _ = self.pending.remove(pending_id);
        let _ = self.waiters.elevation.remove(pending_id);
    }

    /// One step of a caller that waits for a decision on a command.
    pub fn await_elevation_verdict(
        &mut self,
        pending_id: &String,
        phase: WaitPhase,
        event: ElevationWaitEvent,
        now: u64,
    ) -> (r: ElevationWaitStep)
        requires
            old(self).wf(),
            now + old(self).args.approval_timeout <= u64::MAX,
        ensures
            final(self).wf(),
            final(self).configured_as(old(self)),
            match event {
                ElevationWaitEvent::Answered(reply) => {
                    &&& r == ElevationWaitStep::Done(reply)
                    &&& *final(self) == *old(self)
                },
                ElevationWaitEvent::Abandoned => {
                    &&& r == ElevationWaitStep::Done(ElevateReply::Denied)
                    &&& *final(self) == *old(self)
                },
                ElevationWaitEvent::Look { has_ui } => {
                    let seen = waiting::looked(
                        phase,
                        now,
                        has_ui,
                        old(self).args.approval_timeout,
                    );
                    match seen.0 {
                        WaitPoll::Sleep(duration) => {
                            &&& r == (ElevationWaitStep::Wait { duration, phase: seen.1 })
                            &&& *final(self) == *old(self)
                        },
                        WaitPoll::Await(duration) => {
                            &&& r == (ElevationWaitStep::Wait { duration, phase: seen.1 })
                            &&& *final(self) == *old(self)
                        },
                        WaitPoll::NoUi => {
                            &&& r matches ElevationWaitStep::Done(reply)
                            &&& reply.says_refused(
                                "agent-sandbox: no policy UI registered (agent-sandbox-ui or auto-spawn)"@,
                            )
                            &&& final(self).elevation_board_changed(old(self))
                            &&& final(self).elevation_board()
                                == old(self).elevation_board().without(pending_id@)
                        },
                        WaitPoll::TimedOut => {
                            &&& r matches ElevationWaitStep::Done(reply)
                            &&& reply.says_refused(
                                "agent-sandbox: elevation timed out (no response from policy UI)"@,
                            )
                            &&& final(self).elevation_board_changed(old(self))
                            &&& final(self).elevation_board()
                                == old(self).elevation_board().without(pending_id@)
                        },
                    }
                },
            },
    {
        match event {
            ElevationWaitEvent::Answered(reply) => ElevationWaitStep::Done(reply),
            ElevationWaitEvent::Abandoned => ElevationWaitStep::Done(ElevateReply::Denied),
            ElevationWaitEvent::Look { has_ui } => {
                let (poll, next) = waiting::look(phase, now, has_ui, self.args.approval_timeout);
                match poll {
                    WaitPoll::Sleep(duration) => ElevationWaitStep::Wait { duration, phase: next },
                    WaitPoll::Await(duration) => ElevationWaitStep::Wait { duration, phase: next },
                    WaitPoll::NoUi => {
                        self.expire_elevation_wait(pending_id);
                        ElevationWaitStep::Done(
                            ElevateReply::refused(
                                "agent-sandbox: no policy UI registered (agent-sandbox-ui or auto-spawn)",
                            ),
                        )
                    },
                    WaitPoll::TimedOut => {
                        self.expire_elevation_wait(pending_id);
                        ElevationWaitStep::Done(
                            ElevateReply::refused(
                                "agent-sandbox: elevation timed out (no response from policy UI)",
                            ),
                        )
                    },
                }
            },
        }
    }
}

/// A program name with a double dot among its parts is never trusted. Of an absolute name the
/// parts after the system profile's directory count, of any other one all.
pub proof fn law_traversal_is_refused(program: Seq<char>, i: int)
    requires
        ({
            let rest = match scan::after_prefix(program, "/run/current-system/"@) {
                Some(rest) => if paths::absolute(program) {
                    rest
                } else {
                    program
                },
                None => program,
            };
            0 <= i < scan::split_on(rest, '/').len() && scan::split_on(rest, '/')[i] == ".."@
        }),
    ensures
        trusted_candidate(program) is None,
{
    if !paths::absolute(program) {
        reveal_strlit("..");
        reveal_strlit(".");
        reveal_strlit("/");
        let parts = scan::split_on(program, '/');
        lemma_double_dot_kept(parts, true, i);
        assert(paths::components(program) =~= paths::kept(parts, true));
    }
}

proof fn lemma_double_dot_kept(parts: Seq<Seq<char>>, first: bool, i: int)
    requires
        0 <= i < parts.len(),
        parts[i] == ".."@,
    ensures
        paths::kept(parts, first).contains(".."@),
    decreases parts.len(),
{
    reveal_strlit("..");
    let rest = paths::kept(parts.skip(1), false);
    if i == 0 {
        assert(parts[0].len() == 2);
        assert(parts[0] != seq!['.']);
        assert(paths::kept(parts, first) == seq![parts[0]] + rest);
        assert(paths::kept(parts, first)[0] == ".."@);
    } else {
        assert(parts.skip(1)[i - 1] == ".."@);
        lemma_double_dot_kept(parts.skip(1), false, i - 1);
        let j = choose|j: int| 0 <= j < rest.len() && rest[j] == ".."@;
        if parts[0].len() == 0 || (parts[0] == seq!['.'] && !first) {
            assert(paths::kept(parts, first) == rest);
        } else {
            assert(paths::kept(parts, first) == seq![parts[0]] + rest);
            assert((seq![parts[0]] + rest)[j + 1] == ".."@);
        }
    }
}

/// A command that a rule or a session denies is neither run nor asked about, whatever allows it.
pub proof fn law_command_denial_wins<F: Fn(&SudoRule) -> bool>(
    before: PolicyStore,
    after: PolicyStore,
    policy: Policy,
    matches: F,
    argv: Seq<String>,
    sessions: Seq<String>,
    ctx: ResolvedRequestContext,
    waiter: u64,
    fresh_id: String,
    created_at: u64,
    r: ElevationStart,
)
    requires
        elevation_requested(
            before,
            after,
            policy,
            matches,
            argv,
            sessions,
            ctx,
            waiter,
            fresh_id,
            created_at,
            r,
        ),
        command_denied(before, policy, matches, argv, sessions),
    ensures
        r == ElevationStart::Reply(ElevateReply::Denied),
        after == before,
{
}

/// A command runs without being asked about only where a rule or a session allows it.
pub proof fn law_commands_run_only_where_allowed<F: Fn(&SudoRule) -> bool>(
    before: PolicyStore,
    after: PolicyStore,
    policy: Policy,
    matches: F,
    argv: Seq<String>,
    sessions: Seq<String>,
    ctx: ResolvedRequestContext,
    waiter: u64,
    fresh_id: String,
    created_at: u64,
)
    requires
        elevation_requested(
            before,
            after,
            policy,
            matches,
            argv,
            sessions,
            ctx,
            waiter,
            fresh_id,
            created_at,
            ElevationStart::Execute,
        ),
    ensures
        command_allowed(before, policy, matches, argv, sessions),
        !command_denied(before, policy, matches, argv, sessions),
{
}

} // verus!
