//! File approvals: pending accesses, their waiters, remembered denials and the monitor.

use vstd::prelude::*;

use crate::evaluator;
use crate::evaluator::FilesystemQuery;
use crate::http;
use crate::ids;
use crate::paths;
use crate::rules::InodeIdentity;
use crate::scan;
use crate::state;
use crate::state::FilesystemRuleKey;
use crate::state::FilesystemRuleKeyView;
use crate::state::Pending;
use crate::state::PendingContext;
use crate::state::PendingFilesystem;
use crate::state::ResourceRuleKey;
use crate::state::ResourceRuleKeyView;
use crate::state::VerdictCaches;
use crate::state::VerdictEntry;
use crate::state::Waiters;
use crate::store::PolicyStore;
use crate::text;
use crate::types::FileAccess;
use crate::types::FilesystemRule;
use crate::types::Policy;
use crate::types::ResolvedRequestContext;
use crate::types::ResourceAccess;
use crate::types::ResourceKind;
use crate::types::Verdict;
use crate::types::VerdictSource;
use crate::waiting;
use crate::waiting::WaitPhase;
use crate::waiting::WaitPoll;

verus! {

/// How long a denial of a file access is remembered, in nanoseconds.
pub const FILESYSTEM_VERDICT_DENY_CACHE_TTL: u64 = 2_000_000_000;

/// How long a monitor may take until it is ready, in nanoseconds.
pub const FSMON_READY_TIMEOUT: u64 = 10_000_000_000;

/// Reply to a file check.
#[derive(Debug, PartialEq, Eq)]
pub struct FilesystemCheckReply {
    pub allowed: bool,
    pub source: VerdictSource,
    pub path: String,
    pub access: FileAccess,
    pub message: Option<String>,
}

impl Clone for FilesystemCheckReply {
    fn clone(&self) -> (r: Self)
        ensures
            r == *self,
    {
        FilesystemCheckReply {
            allowed: self.allowed,
            source: self.source.clone(),
            path: self.path.clone(),
            access: self.access,
            message: text::copy_opt(&self.message),
        }
    }
}

impl FilesystemCheckReply {
    /// The reply that carries a verdict on an access.
    pub open spec fn of_verdict(verdict: Verdict, path: String, access: FileAccess) -> Self {
        FilesystemCheckReply {
            allowed: verdict.allowed,
            source: verdict.source,
            path,
            access,
            message: None,
        }
    }

    /// The reply says that the check was blocked, with the message.
    pub open spec fn says_blocked(
        self,
        message: Seq<char>,
        path: String,
        access: FileAccess,
    ) -> bool {
        &&& !self.allowed
        &&& self.source == VerdictSource::Blocked
        &&& self.path == path
        &&& self.access == access
        &&& text::opt_text(self.message) == Some(message)
    }

    pub fn from_verdict(verdict: Verdict, path: String, access: FileAccess) -> (r: Self)
        ensures
            r == Self::of_verdict(verdict, path, access),
    {
        FilesystemCheckReply {
            allowed: verdict.allowed,
            source: verdict.source,
            path,
            access,
            message: None,
        }
    }

    pub fn blocked(message: &str, path: String, access: FileAccess) -> (r: Self)
        ensures
            r.says_blocked(message@, path, access),
    {
        FilesystemCheckReply {
            allowed: false,
            source: VerdictSource::Blocked,
            path,
            access,
            message: Some(message.to_owned()),
        }
    }
}

/// The file accesses that wait and the callers that wait for them.
#[verifier::ext_equal]
pub struct FilesystemBoard {
    pub pending: Map<Seq<char>, Pending>,
    pub waiters: Map<Seq<char>, Seq<u64>>,
}

impl FilesystemBoard {
    /// The id names a pending access to the same path of the same kind.
    pub open spec fn waits_for(self, id: Seq<char>, path: Seq<char>, access: FileAccess) -> bool {
        self.pending.contains_key(id) && (self.pending[id] matches Pending::Filesystem(p)
            && paths::components(p.path@) == paths::components(path) && p.access == access)
    }

    /// How many callers wait for the access with the id.
    pub open spec fn waiting(self, id: Seq<char>) -> nat {
        if self.waiters.contains_key(id) {
            self.waiters[id].len()
        } else {
            0
        }
    }

    /// The board once a caller has joined the access with the id.
    pub open spec fn joined(self, id: Seq<char>, waiter: u64) -> FilesystemBoard {
        FilesystemBoard {
            waiters: self.waiters.insert(
                id,
                (if self.waiters.contains_key(id) {
                    self.waiters[id]
                } else {
                    Seq::empty()
                }).push(waiter),
            ),
            ..self
        }
    }

    /// The board without the access with the id and its callers.
    pub open spec fn without(self, id: Seq<char>) -> FilesystemBoard {
        FilesystemBoard { pending: self.pending.remove(id), waiters: self.waiters.remove(id) }
    }
}

impl PolicyStore {
    /// The file accesses that wait.
    pub open spec fn filesystem_board(&self) -> FilesystemBoard {
        FilesystemBoard {
            pending: self.pending@,
            waiters: self.waiters.filesystem@.map_values(|v: Vec<u64>| v@),
        }
    }

    /// Only the file accesses that wait differ.
    pub open spec fn filesystem_board_changed(&self, before: &PolicyStore) -> bool {
        *self == (PolicyStore {
            pending: self.pending,
            waiters: Waiters { filesystem: self.waiters.filesystem, ..before.waiters },
            ..*before
        })
    }
}

/// A pending file access that a caller waits for.
#[derive(Debug, PartialEq, Eq)]
pub struct PendingFsResult {
    pub id: String,
    pub is_new: bool,
}

/// What the caller of a file approval is to do next.
#[derive(Debug, PartialEq, Eq)]
pub enum FilesystemApproval {
    /// Answer at once.
    Reply(FilesystemCheckReply),
    /// Wait for a decision; a new request is first shown to the policy UIs.
    Wait(PendingFsResult),
}

/// Callers to answer, and their reply.
#[derive(Debug, PartialEq, Eq)]
pub struct FilesystemDelivery {
    pub told: Vec<u64>,
    pub reply: FilesystemCheckReply,
}

/// The entry is a denial that is still remembered.
pub open spec fn remembered_denial(entry: VerdictEntry, now: u64) -> bool {
    !entry.allowed && http::fresh(entry, now, FILESYSTEM_VERDICT_DENY_CACHE_TTL)
}

/// The remembered denial covers the access under another name of the file.
pub open spec fn covers_alias<I: Fn(&String) -> bool>(
    key: FilesystemRuleKey,
    entry: VerdictEntry,
    access: FileAccess,
    same_file: I,
    now: u64,
) -> bool {
    &&& remembered_denial(entry, now)
    &&& key.access.includes(access)
    &&& text::holds(same_file, key.path)
}

/// What the remembered denials say of an access.
pub open spec fn denial_remembered<I: Fn(&String) -> bool>(
    caches: VerdictCaches,
    path: String,
    access: FileAccess,
    on_disk: bool,
    same_file: I,
    now: u64,
    r: Option<FilesystemCheckReply>,
) -> bool {
    let key = FilesystemRuleKeyView { path: paths::components(path@), access };
    let cache = caches.filesystem;
    if cache@.contains_key(key) && remembered_denial(cache@[key], now) {
        r == Some(
            FilesystemCheckReply::of_verdict(
                Verdict { allowed: false, source: cache@[key].source },
                path,
                access,
            ),
        )
    } else {
        match r {
            Some(reply) => on_disk && exists|i: int|
                0 <= i < cache.entries@.len() && covers_alias(
                    (#[trigger] cache.entries@[i]).0,
                    cache.entries@[i].1,
                    access,
                    same_file,
                    now,
                ) && reply == FilesystemCheckReply::of_verdict(
                    Verdict { allowed: false, source: cache.entries@[i].1.source },
                    path,
                    access,
                ),
            None => !on_disk || forall|i: int|
                0 <= i < cache.entries@.len() ==> !covers_alias(
                    (#[trigger] cache.entries@[i]).0,
                    cache.entries@[i].1,
                    access,
                    same_file,
                    now,
                ),
        }
    }
}

/// The pending access is what the request is filed as.
pub open spec fn access_filed(
    pending: Pending,
    id: String,
    created_at: u64,
    path: String,
    access: FileAccess,
    ctx: ResolvedRequestContext,
) -> bool {
    pending == Pending::Filesystem(
        PendingFilesystem { id, created_at, path, access, context: PendingContext::of(ctx) },
    )
}

/// Joining or filing an access comes to the result.
pub open spec fn access_joined_or_filed(
    before: FilesystemBoard,
    after: FilesystemBoard,
    path: String,
    access: FileAccess,
    ctx: ResolvedRequestContext,
    waiter: u64,
    fresh_id: String,
    created_at: u64,
    waiter_limit: usize,
    pending_limit: usize,
    r: Result<PendingFsResult, FilesystemCheckReply>,
) -> bool {
    if exists|id: Seq<char>| #[trigger] before.waits_for(id, path@, access) {
        exists|id: Seq<char>| #[trigger]
            before.waits_for(id, path@, access) && (if before.waiting(id) >= waiter_limit {
                &&& r matches Err(reply)
                &&& reply.says_blocked(
                    "agent-sandbox: too many waiters for one filesystem approval"@,
                    path,
                    access,
                )
                &&& after == before
            } else {
                &&& r matches Ok(result)
                &&& result.id@ == id
                &&& !result.is_new
                &&& after == before.joined(id, waiter)
            })
    } else if before.pending.len() >= pending_limit {
        &&& r matches Err(reply)
        &&& reply.says_blocked("agent-sandbox: too many pending approvals"@, path, access)
        &&& after == before
    } else {
        &&& r == Ok::<_, FilesystemCheckReply>(PendingFsResult { id: fresh_id, is_new: true })
        &&& after.waiters == before.waiters.insert(fresh_id@, seq![waiter])
        &&& after.pending == before.pending.insert(fresh_id@, after.pending[fresh_id@])
        &&& access_filed(after.pending[fresh_id@], fresh_id, created_at, path, access, ctx)
    }
}

/// Asking for a file approval comes to the result: policy denials are heard first, then
/// remembered denials, and only then does the caller wait.
pub open spec fn access_requested<
    F: Fn(&FilesystemRule, &Option<String>) -> bool,
    I: Fn(&String) -> bool,
>(
    before: PolicyStore,
    after: PolicyStore,
    q: FilesystemQuery,
    matches: F,
    same_file: I,
    waiter: u64,
    fresh_id: String,
    created_at: u64,
    now: u64,
    r: FilesystemApproval,
) -> bool {
    if evaluator::filesystem_policy_denies(before, q, matches) {
        &&& r == FilesystemApproval::Reply(
            FilesystemCheckReply::of_verdict(
                Verdict { allowed: false, source: VerdictSource::Policy(None) },
                *q.path,
                q.access,
            ),
        )
        &&& after == before
    } else if !before.args.interactive_approval {
        &&& r == FilesystemApproval::Reply(
            FilesystemCheckReply::of_verdict(
                Verdict { allowed: false, source: VerdictSource::Blocked },
                *q.path,
                q.access,
            ),
        )
        &&& after == before
    } else {
        ||| {
            &&& r matches FilesystemApproval::Reply(reply)
            &&& denial_remembered(
                before.caches,
                *q.path,
                q.access,
                q.identity is Some,
                same_file,
                now,
                Some(reply),
            )
            &&& after == before
        }
        ||| {
            &&& denial_remembered(
                before.caches,
                *q.path,
                q.access,
                q.identity is Some,
                same_file,
                now,
                None,
            )
            &&& after.filesystem_board_changed(&before)
            &&& access_joined_or_filed(
                before.filesystem_board(),
                after.filesystem_board(),
                *q.path,
                q.access,
                *q.ctx,
                waiter,
                fresh_id,
                created_at,
                before.limits.waiters_per_pending,
                before.limits.pending_approvals,
                match r {
                    FilesystemApproval::Wait(result) => Ok(result),
                    FilesystemApproval::Reply(reply) => Err(reply),
                },
            )
        }
    }
}

/// The callers that waited for a file access have their reply, and a denial is remembered.
pub open spec fn filesystem_finished(
    before: PolicyStore,
    after: PolicyStore,
    pending_id: Seq<char>,
    verdict: Verdict,
    path: String,
    access: FileAccess,
    now: u64,
    r: Option<FilesystemDelivery>,
) -> bool {
    &&& after == (PolicyStore {
        waiters: Waiters { filesystem: after.waiters.filesystem, ..before.waiters },
        caches: VerdictCaches { filesystem: after.caches.filesystem, ..before.caches },
        ..before
    })
    &&& after.filesystem_board() == (FilesystemBoard {
        waiters: before.filesystem_board().waiters.remove(pending_id),
        ..before.filesystem_board()
    })
    &&& match r {
        Some(delivery) => {
            &&& before.filesystem_board().waiters.contains_key(pending_id)
            &&& delivery.told@ == before.filesystem_board().waiters[pending_id]
            &&& delivery.reply == FilesystemCheckReply::of_verdict(verdict, path, access)
        },
        None => !before.filesystem_board().waiters.contains_key(pending_id),
    }
    &&& if verdict.allowed {
        after.caches.filesystem == before.caches.filesystem
    } else {
        state::newest_kept(
            before.caches.filesystem@.insert(
                FilesystemRuleKeyView { path: paths::components(path@), access },
                VerdictEntry { allowed: false, source: verdict.source, time: now },
            ),
            after.caches.filesystem@,
            before.limits.verdict_cache as nat,
        )
    }
}

/// What may happen while a caller waits for a file decision.
#[derive(Debug, PartialEq, Eq)]
pub enum FilesystemWaitEvent {
    /// The caller looks whether a policy UI is there.
    Look { has_ui: bool },
    /// The decision came.
    Answered(FilesystemCheckReply),
    /// Nobody can answer any more.
    Abandoned,
}

/// What a caller that waits for a file decision is to do next.
#[derive(Debug, PartialEq, Eq)]
pub enum FilesystemWaitStep {
    /// Wait on for so long, in the given phase.
    Wait { duration: u64, phase: WaitPhase },
    /// Answer.
    Done(FilesystemCheckReply),
}

impl PolicyStore {
    /// What the rules and decisions in force say of a file access, or nothing.
    pub fn check_filesystem<
        F: Fn(&FilesystemRule, &Option<String>) -> bool,
        I: Fn(&String) -> bool,
    >(&self, q: &FilesystemQuery, matches: &F, same_file: &I) -> (r: Option<FilesystemCheckReply>)
        requires
            self.wf(),
            text::decides_pairs(*matches),
            text::decides(*same_file),
        ensures
            r == (match evaluator::filesystem_decision(*self, *q, *matches, *same_file) {
                Some(verdict) => Some(
                    FilesystemCheckReply::of_verdict(verdict, *q.path, q.access),
                ),
                None => None,
            }),
    {
        match self.filesystem_allow_source(q, matches, same_file) {
            Some(verdict) => Some(
                FilesystemCheckReply::from_verdict(verdict, q.path.clone(), q.access),
            ),
            None => None,
        }
    }

    /// What the remembered denials say of an access, under this name of the file or another.
    pub fn check_filesystem_verdict_cache<I: Fn(&String) -> bool>(
        &self,
        path: &String,
        access: FileAccess,
        on_disk: bool,
        same_file: &I,
        now: u64,
    ) -> (r: Option<FilesystemCheckReply>)
        requires
            self.wf(),
            text::decides(*same_file),
        ensures
            denial_remembered(self.caches, *path, access, on_disk, *same_file, now, r),
    {
        let key = FilesystemRuleKey { path: path.clone(), access };
        if let Some(entry) = self.caches.filesystem.get(&key) {
            if !entry.allowed && http::is_fresh(entry, now, FILESYSTEM_VERDICT_DENY_CACHE_TTL) {
                return Some(
                    FilesystemCheckReply::from_verdict(
                        Verdict::denied(entry.source.clone()),
                        path.clone(),
                        access,
                    ),
                );
            }
        }
        if !on_disk {
            return None;
        }
        let ghost cache = self.caches.filesystem;
        let mut i: usize = 0;
        while i < self.caches.filesystem.entries.len()
            invariant
                self.wf(),
                text::decides(*same_file),
                on_disk,
                cache == self.caches.filesystem,
                i <= cache.entries@.len(),
                !(cache@.contains_key(
                    FilesystemRuleKeyView { path: paths::components(path@), access },
                ) && remembered_denial(
                    cache@[FilesystemRuleKeyView { path: paths::components(path@), access }],
                    now,
                )),
                forall|j: int|
                    0 <= j < i ==> !covers_alias(
                        (#[trigger] cache.entries@[j]).0,
                        cache.entries@[j].1,
                        access,
                        *same_file,
                        now,
                    ),
            decreases cache.entries@.len() - i,
        {
            let entry = &self.caches.filesystem.entries[i].1;
            let key = &self.caches.filesystem.entries[i].0;
            if !entry.allowed && http::is_fresh(entry, now, FILESYSTEM_VERDICT_DENY_CACHE_TTL)
                && key.access.covers(access) && same_file(&key.path) {
                assert(covers_alias(
                    cache.entries@[i as int].0,
                    cache.entries@[i as int].1,
                    access,
                    *same_file,
                    now,
                ));
                return Some(
                    FilesystemCheckReply::from_verdict(
                        Verdict::denied(entry.source.clone()),
                        path.clone(),
                        access,
                    ),
                );
            }
            i += 1;
        }
        None
    }

    fn find_filesystem_pending(&self, path: &String, access: FileAccess) -> (r: Option<String>)
        requires
            self.wf(),
        ensures
            match r {
                Some(id) => self.filesystem_board().waits_for(id@, path@, access),
                None => forall|id: Seq<char>|
                    !(#[trigger] self.filesystem_board().waits_for(id, path@, access)),
            },
    {
        let mut i: usize = 0;
        while i < self.pending.entries.len()
            invariant
                self.wf(),
                i <= self.pending.entries@.len(),
                forall|j: int|
                    0 <= j < i ==> !((#[trigger] self.pending.entries@[j]).1 matches Pending::Filesystem(
                        p,
                    ) && paths::components(p.path@) == paths::components(path@) && p.access
                        == access),
            decreases self.pending.entries@.len() - i,
        {
            if let Pending::Filesystem(p) = &self.pending.entries[i].1 {
                if paths::same_path(p.path.as_str(), path.as_str()) && p.access == access {
                    proof {
                        self.pending.lemma_entry(i as int);
                        assert(self.filesystem_board().waits_for(
                            self.pending.entries@[i as int].0@,
                            path@,
                            access,
                        ));
                    }
                    return Some(self.pending.entries[i].0.clone());
                }
            }
            i += 1;
        }
        proof {
            assert forall|id: Seq<char>|
                !(#[trigger] self.filesystem_board().waits_for(id, path@, access)) by {
                if self.pending@.contains_key(id) {
                    let j = self.pending.lemma_key(id);
                    assert(!(self.pending.entries@[j].1 matches Pending::Filesystem(p)
                        && paths::components(p.path@) == paths::components(path@) && p.access
                        == access));
                }
            }
        }
        None
    }

    /// Have a caller wait for a file access, joining the callers that already wait for it.
    /// `fresh_id` names the access where it is new.
    pub fn dedup_or_create_pending_filesystem(
        &mut self,
        path: &String,
        access: FileAccess,
        ctx: &ResolvedRequestContext,
        waiter: u64,
        fresh_id: String,
        created_at: u64,
    ) -> (r: Result<PendingFsResult, FilesystemCheckReply>)
        requires
            old(self).wf(),
        ensures
            final(self).wf(),
            final(self).configured_as(old(self)),
            final(self).filesystem_board_changed(old(self)),
            access_joined_or_filed(
                old(self).filesystem_board(),
                final(self).filesystem_board(),
                *path,
                access,
                *ctx,
                waiter,
                fresh_id,
                created_at,
                old(self).limits.waiters_per_pending,
                old(self).limits.pending_approvals,
                r,
            ),
    {
        let ghost board = self.filesystem_board();
        match self.find_filesystem_pending(path, access) {
            Some(id) => {
                assert(board.waits_for(id@, path@, access));
                let waiting: usize = match self.waiters.filesystem.get(&id) {
                    Some(list) => list.len(),
                    None => 0,
                };
                if waiting >= self.limits.waiters_per_pending {
                    return Err(
                        FilesystemCheckReply::blocked(
                            "agent-sandbox: too many waiters for one filesystem approval",
                            path.clone(),
                            access,
                        ),
                    );
                }
                let mut list = match self.waiters.filesystem.remove(&id) {
                    Some(list) => list,
                    None => Vec::new(),
                };
                let ghost seen = list@;
                list.push(waiter);
                let _ = self.waiters.filesystem.insert(id.clone(), list);
                proof {
                    assert(list@ == seen.push(waiter));
                    assert(board.waiters.contains_key(id@) ==> seen == board.waiters[id@]);
                    assert(self.filesystem_board().waiters =~= board.joined(id@, waiter).waiters);
                    assert(self.filesystem_board() =~= board.joined(id@, waiter));
                }
                Ok(PendingFsResult { id, is_new: false })
            },
            None => {
                if self.pending.len() >= self.limits.pending_approvals {
                    return Err(
                        FilesystemCheckReply::blocked(
                            "agent-sandbox: too many pending approvals",
                            path.clone(),
                            access,
                        ),
                    );
                }
                let mut list: Vec<u64> = Vec::new();
                list.push(waiter);
                let _ = self.waiters.filesystem.insert(fresh_id.clone(), list);
                let pending = Pending::Filesystem(
                    PendingFilesystem {
                        id: fresh_id.clone(),
                        created_at,
                        path: path.clone(),
                        access,
                        context: PendingContext::from_resolved(ctx),
                    },
                );
                let _ = self.pending.insert(fresh_id.clone(), pending);
                proof {
                    assert(list@ =~= seq![waiter]);
                    assert(self.filesystem_board().waiters =~= board.waiters.insert(
                        fresh_id@,
                        seq![waiter],
                    ));
                }
                Ok(PendingFsResult { id: fresh_id, is_new: true })
            },
        }
    }

    /// Ask for a file approval under the given id; see [`access_requested`].
    pub fn request_filesystem_approval_with_id<
        F: Fn(&FilesystemRule, &Option<String>) -> bool,
        I: Fn(&String) -> bool,
    >(
        &mut self,
        q: &FilesystemQuery,
        matches: &F,
        same_file: &I,
        waiter: u64,
        fresh_id: String,
        created_at: u64,
        now: u64,
    ) -> (r: FilesystemApproval)
        requires
            old(self).wf(),
            text::decides_pairs(*matches),
            text::decides(*same_file),
        ensures
            final(self).wf(),
            final(self).configured_as(old(self)),
            access_requested(
                *old(self),
                *final(self),
                *q,
                *matches,
                *same_file,
                waiter,
                fresh_id,
                created_at,
                now,
                r,
            ),
    {
        if self.filesystem_policy_denied(q, matches) {
            return FilesystemApproval::Reply(
                FilesystemCheckReply::from_verdict(
                    Verdict::denied(VerdictSource::policy()),
                    q.path.clone(),
                    q.access,
                ),
            );
        }
        if !self.args.interactive_approval {
            return FilesystemApproval::Reply(
                FilesystemCheckReply::from_verdict(Verdict::blocked(), q.path.clone(), q.access),
            );
        }
        if let Some(reply) = self.check_filesystem_verdict_cache(
            q.path,
            q.access,
            q.identity.is_some(),
            same_file,
            now,
        ) {
            return FilesystemApproval::Reply(reply);
        }
        match self.dedup_or_create_pending_filesystem(
            q.path,
            q.access,
            q.ctx,
            waiter,
            fresh_id,
            created_at,
        ) {
            Ok(result) => FilesystemApproval::Wait(result),
            Err(reply) => FilesystemApproval::Reply(reply),
        }
    }

    /// Ask for a file approval, under a fresh id where the access is new; see
    /// [`PolicyStore::request_filesystem_approval_with_id`].
    pub fn request_filesystem_approval<
        F: Fn(&FilesystemRule, &Option<String>) -> bool,
        I: Fn(&String) -> bool,
    >(
        &mut self,
        q: &FilesystemQuery,
        matches: &F,
        same_file: &I,
        waiter: u64,
        created_at: u64,
        now: u64,
    ) -> (r: FilesystemApproval)
        requires
            old(self).wf(),
            text::decides_pairs(*matches),
            text::decides(*same_file),
        ensures
            final(self).wf(),
            final(self).configured_as(old(self)),
            exists|fresh_id: String| ids::pending_id_form(fresh_id@, "fs:"@) && #[trigger]
                access_requested(
                    *old(self),
                    *final(self),
                    *q,
                    *matches,
                    *same_file,
                    waiter,
                    fresh_id,
                    created_at,
                    now,
                    r,
                ),
    {
        let fresh_id = ids::fresh_pending_id("fs:");
        self.request_filesystem_approval_with_id(
            q,
            matches,
            same_file,
            waiter,
            fresh_id,
            created_at,
            now,
        )
    }

    /// Take a file access that nobody decided off the board.
    fn expire_filesystem_wait(&mut self, pending_id: &String)
        requires
            old(self).wf(),
        ensures
            final(self).wf(),
            final(self).filesystem_board_changed(old(self)),
            final(self).filesystem_board() == old(self).filesystem_board().without(pending_id@),
    {
        let ghost board = self.filesystem_board();
        let _ = self.pending.remove(pending_id);
        let _ = self.waiters.filesystem.remove(pending_id);
        proof {
            assert(self.filesystem_board().waiters =~= board.waiters.remove(pending_id@));
            assert(self.filesystem_board() =~= board.without(pending_id@));
        }
    }

    /// One step of a caller that waits for a file decision.
    pub fn await_filesystem_verdict(
        &mut self,
        pending_id: &String,
        path: &String,
        access: FileAccess,
        phase: WaitPhase,
        event: FilesystemWaitEvent,
        now: u64,
    ) -> (r: FilesystemWaitStep)
        requires
            old(self).wf(),
            now + old(self).args.approval_timeout <= u64::MAX,
        ensures
            final(self).wf(),
            final(self).configured_as(old(self)),
            match event {
                FilesystemWaitEvent::Answered(reply) => {
                    &&& r == FilesystemWaitStep::Done(reply)
                    &&& *final(self) == *old(self)
                },
                FilesystemWaitEvent::Abandoned => {
                    &&& r == FilesystemWaitStep::Done(
                        FilesystemCheckReply::of_verdict(
                            Verdict { allowed: false, source: VerdictSource::Blocked },
                            *path,
                            access,
                        ),
                    )
                    &&& *final(self) == *old(self)
                },
                FilesystemWaitEvent::Look { has_ui } => {
                    let seen = waiting::looked(
                        phase,
                        now,
                        has_ui,
                        old(self).args.approval_timeout,
                    );
                    match seen.0 {
                        WaitPoll::Sleep(duration) => {
                            &&& r == (FilesystemWaitStep::Wait { duration, phase: seen.1 })
                            &&& *final(self) == *old(self)
                        },
                        WaitPoll::Await(duration) => {
                            &&& r == (FilesystemWaitStep::Wait { duration, phase: seen.1 })
                            &&& *final(self) == *old(self)
                        },
                        WaitPoll::NoUi => {
                            &&& r matches FilesystemWaitStep::Done(reply)
                            &&& reply.says_blocked(
                                "agent-sandbox: no standalone filesystem policy UI registered (agent-sandbox-ui or auto-spawn)"@,
                                *path,
                                access,
                            )
                            &&& final(self).filesystem_board_changed(old(self))
                            &&& final(self).filesystem_board()
                                == old(self).filesystem_board().without(pending_id@)
                        },
                        WaitPoll::TimedOut => {
                            &&& r matches FilesystemWaitStep::Done(reply)
                            &&& reply.says_blocked(
                                "agent-sandbox: filesystem approval timed out (no response from policy UI)"@,
                                *path,
                                access,
                            )
                            &&& final(self).filesystem_board_changed(old(self))
                            &&& final(self).filesystem_board()
                                == old(self).filesystem_board().without(pending_id@)
                        },
                    }
                },
            },
    {
        match event {
            FilesystemWaitEvent::Answered(reply) => FilesystemWaitStep::Done(reply),
            FilesystemWaitEvent::Abandoned => FilesystemWaitStep::Done(
                FilesystemCheckReply::from_verdict(Verdict::blocked(), path.clone(), access),
            ),
            FilesystemWaitEvent::Look { has_ui } => {
                let (poll, next) = waiting::look(phase, now, has_ui, self.args.approval_timeout);
                match poll {
                    WaitPoll::Sleep(duration) => FilesystemWaitStep::Wait {
                        duration,
                        phase: next,
                    },
                    WaitPoll::Await(duration) => FilesystemWaitStep::Wait {
                        duration,
                        phase: next,
                    },
                    WaitPoll::NoUi => {
                        self.expire_filesystem_wait(pending_id);
                        FilesystemWaitStep::Done(
                            FilesystemCheckReply::blocked(
                                "agent-sandbox: no standalone filesystem policy UI registered (agent-sandbox-ui or auto-spawn)",
                                path.clone(),
                                access,
                            ),
                        )
                    },
                    WaitPoll::TimedOut => {
                        self.expire_filesystem_wait(pending_id);
                        FilesystemWaitStep::Done(
                            FilesystemCheckReply::blocked(
                                "agent-sandbox: filesystem approval timed out (no response from policy UI)",
                                path.clone(),
                                access,
                            ),
                        )
                    },
                }
            },
        }
    }

    /// Give the callers that wait for a file access their reply. Only a denial is remembered.
    pub fn finish_filesystem(
        &mut self,
        pending_id: &String,
        path: &String,
        access: FileAccess,
        allowed: bool,
        source: VerdictSource,
        now: u64,
    ) -> (r: Option<FilesystemDelivery>)
        requires
            old(self).wf(),
        ensures
            final(self).wf(),
            final(self).configured_as(old(self)),
            filesystem_finished(
                *old(self),
                *final(self),
                pending_id@,
                Verdict { allowed, source },
                *path,
                access,
                now,
                r,
            ),
    {
        let ghost board = self.filesystem_board();
        let delivery = match self.waiters.filesystem.remove(pending_id) {
            Some(told) => Some(
                FilesystemDelivery {
                    told,
                    reply: FilesystemCheckReply::from_verdict(
                        Verdict { allowed, source: source.clone() },
                        path.clone(),
                        access,
                    ),
                },
            ),
            None => None,
        };
        proof {
            assert(self.filesystem_board().waiters =~= board.waiters.remove(pending_id@));
        }
        if !allowed {
            let key = FilesystemRuleKey { path: path.clone(), access };
            let _ = self.caches.filesystem.insert(
                key,
                VerdictEntry { allowed: false, source, time: now },
            );
            state::enforce_verdict_cache_limit(
                &mut self.caches.filesystem,
                self.limits.verdict_cache,
            );
        }
        delivery
    }
}

/// Reply to a resource check.
#[derive(Debug, PartialEq, Eq)]
pub struct ResourceCheckReply {
    pub allowed: bool,
    pub source: VerdictSource,
    pub kind: ResourceKind,
    pub path: String,
    pub access: ResourceAccess,
}

/// Callers to answer, and their reply.
#[derive(Debug, PartialEq, Eq)]
pub struct ResourceDelivery {
    pub told: Vec<u64>,
    pub reply: ResourceCheckReply,
}

/// The callers that waited for a resource have their reply, and the verdict is remembered.
pub open spec fn resource_finished(
    before: PolicyStore,
    after: PolicyStore,
    pending_id: Seq<char>,
    verdict: Verdict,
    kind: ResourceKind,
    path: String,
    access: ResourceAccess,
    now: u64,
    r: Option<ResourceDelivery>,
) -> bool {
    &&& after == (PolicyStore {
        waiters: Waiters { resource: after.waiters.resource, ..before.waiters },
        caches: VerdictCaches { resource: after.caches.resource, ..before.caches },
        ..before
    })
    &&& after.waiters.resource@ == before.waiters.resource@.remove(pending_id)
    &&& match r {
        Some(delivery) => {
            &&& before.waiters.resource@.contains_key(pending_id)
            &&& delivery.told == before.waiters.resource@[pending_id]
            &&& delivery.reply == (ResourceCheckReply {
                allowed: verdict.allowed,
                source: verdict.source,
                kind,
                path,
                access,
            })
        },
        None => !before.waiters.resource@.contains_key(pending_id),
    }
    &&& state::newest_kept(
        before.caches.resource@.insert(
            ResourceRuleKeyView { kind, path: paths::components(path@), access },
            VerdictEntry { allowed: verdict.allowed, source: verdict.source, time: now },
        ),
        after.caches.resource@,
        before.limits.verdict_cache as nat,
    )
}

impl PolicyStore {
    /// Give the callers that wait for a resource or a D-Bus capability their reply, and remember
    /// the verdict.
    pub fn finish_resource(
        &mut self,
        pending_id: &String,
        kind: ResourceKind,
        path: &String,
        access: ResourceAccess,
        allowed: bool,
        source: VerdictSource,
        now: u64,
    ) -> (r: Option<ResourceDelivery>)
        requires
            old(self).wf(),
        ensures
            final(self).wf(),
            final(self).configured_as(old(self)),
            resource_finished(
                *old(self),
                *final(self),
                pending_id@,
                Verdict { allowed, source },
                kind,
                *path,
                access,
                now,
                r,
            ),
    {
        let delivery = match self.waiters.resource.remove(pending_id) {
            Some(told) => Some(
                ResourceDelivery {
                    told,
                    reply: ResourceCheckReply {
                        allowed,
                        source: source.clone(),
                        kind,
                        path: path.clone(),
                        access,
                    },
                },
            ),
            None => None,
        };
        let key = ResourceRuleKey { kind, path: path.clone(), access };
        let _ = self.caches.resource.insert(key, VerdictEntry { allowed, source, time: now });
        state::enforce_verdict_cache_limit(&mut self.caches.resource, self.limits.verdict_cache);
        delivery
    }
}

impl PolicyStore {
    /// Take a request for a socket, a device or a D-Bus call that nobody decided off the board,
    /// with every caller that waits for it.
    pub fn expire_resource_wait(&mut self, pending_id: &String)
        requires
            old(self).wf(),
        ensures
            final(self).wf(),
            final(self).configured_as(old(self)),
            *final(self) == (PolicyStore {
                pending: final(self).pending,
                waiters: Waiters {
                    resource: final(self).waiters.resource,
                    ..old(self).waiters
                },
                ..*old(self)
            }),
            final(self).pending@ == old(self).pending@.remove(pending_id@),
            final(self).waiters.resource@ == old(self).waiters.resource@.remove(pending_id@),
    {
        let _ = self.pending.remove(pending_id);
        let _ = self.waiters.resource.remove(pending_id);
    }

    /// What a monitor needs to judge file accesses by itself: the rules of a policy, and the files
    /// that it denies under whatever name.
    pub fn filesystem_snapshot(&self, policy: &Policy) -> (r: FilesystemSnapshot)
        requires
            self.wf(),
        ensures
            r.allow@ == policy.filesystem.allow@,
            r.deny@ == policy.filesystem.deny@,
            r.denied_inodes@.no_duplicates(),
            forall|identity: InodeIdentity|
                r.denied_inodes@.contains(identity) <==> #[trigger]
                    self.deny_inodes.inodes@.contains_key(identity),
    {
        FilesystemSnapshot {
            allow: copy_rules(&policy.filesystem.allow),
            deny: copy_rules(&policy.filesystem.deny),
            denied_inodes: self.deny_inodes.denied_inodes(),
        }
    }
}

/// The rules on files and the files that are denied by inode.
#[derive(Debug, PartialEq, Eq)]
pub struct FilesystemSnapshot {
    pub allow: Vec<FilesystemRule>,
    pub deny: Vec<FilesystemRule>,
    pub denied_inodes: Vec<InodeIdentity>,
}

fn copy_rules(rules: &Vec<FilesystemRule>) -> (r: Vec<FilesystemRule>)
    ensures
        r@ == rules@,
{
    let mut r: Vec<FilesystemRule> = Vec::new();
    let mut i: usize = 0;
    while i < rules.len()
        invariant
            i <= rules@.len(),
            r@ == rules@.take(i as int),
        decreases rules@.len() - i,
    {
        r.push(rules[i].clone());
        i += 1;
        assert(r@ =~= rules@.take(i as int));
    }
    assert(rules@.take(rules@.len() as int) =~= rules@);
    r
}

/// The rules that a sandbox was started with, with their paths as they are on disk.
pub open spec fn expanded<E: Fn(&String) -> String, C: Fn(&String) -> String>(
    rules: Seq<FilesystemRule>,
    expand: E,
    canonical: C,
) -> Seq<FilesystemRule> {
    rules.map_values(
        |rule: FilesystemRule|
            FilesystemRule {
                path: text::answer(canonical, text::answer(expand, rule.path)),
                access: rule.access,
                comment: rule.comment,
            },
    )
}

/// Give the rules that a sandbox is started with the paths that they have on disk. `expand`
/// gives the path that a rule names, `canonical` its canonical form, or the path itself where
/// it has none.
pub fn expand_static_allow_rules<E: Fn(&String) -> String, C: Fn(&String) -> String>(
    rules: &Vec<FilesystemRule>,
    expand: &E,
    canonical: &C,
) -> (r: Vec<FilesystemRule>)
    requires
        text::determined(*expand),
        text::determined(*canonical),
    ensures
        r@ == expanded(rules@, *expand, *canonical),
{
    let mut r: Vec<FilesystemRule> = Vec::new();
    let mut i: usize = 0;
    while i < rules.len()
        invariant
            text::determined(*expand),
            text::determined(*canonical),
            i <= rules@.len(),
            r@.len() == i,
            forall|j: int|
                0 <= j < i ==> #[trigger] r@[j] == expanded(rules@, *expand, *canonical)[j],
        decreases rules@.len() - i,
    {
        let path = expand(&rules[i].path);
        assert(path == text::answer(*expand, rules@[i as int].path));
        let path = canonical(&path);
        r.push(
            FilesystemRule {
                path,
                access: rules[i].access,
                comment: text::copy_opt(&rules[i].comment),
            },
        );
        i += 1;
    }
    assert(r@ =~= expanded(rules@, *expand, *canonical));
    r
}

/// Reply to the start of a filesystem monitor.
#[derive(Debug, PartialEq, Eq)]
pub struct FilesystemMonitorReply {
    pub active: bool,
    pub error: Option<String>,
}

impl FilesystemMonitorReply {
    /// The reply says that the monitor could not be started, for the reason given.
    pub open spec fn says_failed(self, reason: Seq<char>) -> bool {
        !self.active && text::opt_text(self.error) == Some(reason)
    }

    pub fn failed(reason: &str) -> (r: Self)
        ensures
            r.says_failed(reason@),
    {
        FilesystemMonitorReply { active: false, error: Some(reason.to_owned()) }
    }

    pub fn active() -> (r: Self)
        ensures
            r == (FilesystemMonitorReply { active: true, error: None }),
    {
        FilesystemMonitorReply { active: true, error: None }
    }
}

/// How a filesystem monitor is to be started.
#[derive(Debug, PartialEq, Eq)]
pub struct MonitorPlan {
    pub program: String,
    pub arguments: Vec<String>,
    /// The session that the monitor is told of in its environment.
    pub session: Option<String>,
}

/// What came of starting a filesystem monitor.
#[derive(Debug, PartialEq, Eq)]
pub enum MonitorOutcome {
    Ready,
    ExpandPanicked,
    SpawnFailed(String),
    NoStdout,
    NotReady(String),
    WaitPanicked,
    TimedOut,
}

/// An option and its value, where there is a value.
pub open spec fn option_argument(name: Seq<char>, value: Option<String>) -> Seq<Seq<char>> {
    match value {
        Some(v) => seq![name, v@],
        None => Seq::empty(),
    }
}

/// The arguments that a filesystem monitor is started with.
pub open spec fn monitor_arguments(
    peer_pid: u32,
    socket: Seq<char>,
    ctx: ResolvedRequestContext,
) -> Seq<Seq<char>> {
    seq!["--pid"@, text::decimal_text(peer_pid as nat), "--socket"@, socket] + option_argument(
        "--cwd"@,
        ctx.paths.cwd,
    ) + option_argument("--home"@, ctx.paths.home) + option_argument(
        "--project-root"@,
        ctx.paths.project_root,
    )
}

fn push_option(list: &mut Vec<String>, name: &str, value: &Option<String>)
    ensures
        text::texts(final(list)@) == text::texts(old(list)@) + option_argument(name@, *value),
{
    match value {
        Some(v) => {
            list.push(name.to_owned());
            list.push(v.clone());
            assert(text::texts(list@) =~= text::texts(old(list)@) + seq![name@, v@]);
        },
        None => {
            assert(text::texts(list@) =~= text::texts(old(list)@) + Seq::empty());
        },
    }
}

impl PolicyStore {
    /// Plan the start of a filesystem monitor for a sandbox.
    pub fn start_filesystem_monitor(
        &self,
        peer_pid: u32,
        static_allow: &Vec<FilesystemRule>,
        ctx: &ResolvedRequestContext,
    ) -> (r: Result<MonitorPlan, FilesystemMonitorReply>)
        ensures
            match self.args.fs_monitor_cmd {
                None => r matches Err(reply) && reply.says_failed(
                    "fs_monitor_cmd not configured"@,
                ),
                Some(program) => if peer_pid == 0 {
                    r matches Err(reply) && reply.says_failed(
                        "cannot determine monitor target pid"@,
                    )
                } else if static_allow@.len() > self.limits.static_allow_rules {
                    r matches Err(reply) && reply.says_failed(
                        "too many filesystem static allow rules"@,
                    )
                } else {
                    &&& r matches Ok(plan)
                    &&& plan.program == program
                    &&& text::texts(plan.arguments@) == monitor_arguments(
                        peer_pid,
                        self.args.sandbox_socket@,
                        *ctx,
                    )
                    &&& plan.session == ctx.sandbox_session_id
                },
            },
    {
        let program = match &self.args.fs_monitor_cmd {
            Some(program) => program.clone(),
            None => {
                return Err(FilesystemMonitorReply::failed("fs_monitor_cmd not configured"));
            },
        };
        if peer_pid == 0 {
            return Err(FilesystemMonitorReply::failed("cannot determine monitor target pid"));
        }
        if static_allow.len() > self.limits.static_allow_rules {
            return Err(FilesystemMonitorReply::failed("too many filesystem static allow rules"));
        }
        let mut arguments: Vec<String> = Vec::new();
        arguments.push("--pid".to_owned());
        arguments.push(text::decimal(peer_pid as u64));
        arguments.push("--socket".to_owned());
        arguments.push(self.args.sandbox_socket.clone());
        assert(text::texts(arguments@) =~= seq![
            "--pid"@,
            text::decimal_text(peer_pid as nat),
            "--socket"@,
            self.args.sandbox_socket@,
        ]);
        push_option(&mut arguments, "--cwd", &ctx.paths.cwd);
        push_option(&mut arguments, "--home", &ctx.paths.home);
        push_option(&mut arguments, "--project-root", &ctx.paths.project_root);
        Ok(MonitorPlan { program, arguments, session: text::copy_opt(&ctx.sandbox_session_id) })
    }
}

/// The reply to what came of starting a filesystem monitor.
pub fn monitor_reply(outcome: &MonitorOutcome) -> (r: FilesystemMonitorReply)
    ensures
        match *outcome {
            MonitorOutcome::Ready => r == (FilesystemMonitorReply { active: true, error: None }),
            MonitorOutcome::ExpandPanicked => r.says_failed(
                "internal error expanding static allow"@,
            ),
            MonitorOutcome::SpawnFailed(reason) => r.says_failed("spawn failed: "@ + reason@),
            MonitorOutcome::NoStdout => r.says_failed("stdout not captured"@),
            MonitorOutcome::NotReady(reason) => r.says_failed("ready wait failed: "@ + reason@),
            MonitorOutcome::WaitPanicked => r.says_failed("internal error waiting for fsmon"@),
            MonitorOutcome::TimedOut => r.says_failed("fsmon ready timeout"@),
        },
{
    match outcome {
        MonitorOutcome::Ready => FilesystemMonitorReply::active(),
        MonitorOutcome::ExpandPanicked => FilesystemMonitorReply::failed(
            "internal error expanding static allow",
        ),
        MonitorOutcome::SpawnFailed(reason) => FilesystemMonitorReply::failed(
            text::join2("spawn failed: ", reason.as_str()).as_str(),
        ),
        MonitorOutcome::NoStdout => FilesystemMonitorReply::failed("stdout not captured"),
        MonitorOutcome::NotReady(reason) => FilesystemMonitorReply::failed(
            text::join2("ready wait failed: ", reason.as_str()).as_str(),
        ),
        MonitorOutcome::WaitPanicked => FilesystemMonitorReply::failed(
            "internal error waiting for fsmon",
        ),
        MonitorOutcome::TimedOut => FilesystemMonitorReply::failed("fsmon ready timeout"),
    }
}

/// Whether a line of the monitor says that it is ready: the word alone, with white space around
/// it or none.
pub fn is_ready_line(line: &str) -> (r: bool)
    ensures
        r == (scan::words_of(line@) == seq!["ready"@]),
{
    let words = scan::words(&text::chars_of(line));
    let ghost ws = scan::pieces(words@);
    if words.len() != 1 {
        assert(ws.len() != 1);
        return false;
    }
    assert(ws[0] == words@[0]@);
    let r = paths::spells(&words[0], "ready");
    if r {
        assert(ws =~= seq!["ready"@]);
    }
    r
}

/// The uid to start a policy UI for: that of the request, or where it has none or root's, that
/// of the home directory's user.
pub open spec fn ui_uid(
    wire_uid: Option<u32>,
    has_home: bool,
    home_user: Option<u32>,
) -> Option<u32> {
    if (wire_uid is None || wire_uid == Some(0u32)) && has_home {
        home_user
    } else {
        wire_uid
    }
}

pub fn spawn_uid(wire_uid: Option<u32>, has_home: bool, home_user: Option<u32>) -> (r: Option<u32>)
    ensures
        r == ui_uid(wire_uid, has_home, home_user),
{
    let trusted = match wire_uid {
        Some(uid) => uid != 0,
        None => false,
    };
    if !trusted && has_home {
        home_user
    } else {
        wire_uid
    }
}

impl PolicyStore {
    /// The uid to start a policy UI for a file approval for: where the request and the home
    /// directory give none but root's, that of the sandbox session's owner.
    pub fn filesystem_spawn_uid(
        &self,
        wire_uid: Option<u32>,
        has_home: bool,
        home_user: Option<u32>,
        sandbox_session_id: &Option<String>,
    ) -> (r: Option<u32>)
        requires
            self.wf(),
        ensures
            ({
                let first = ui_uid(wire_uid, has_home, home_user);
                if (first is None || first == Some(0u32)) && sandbox_session_id is Some {
                    let id = sandbox_session_id->0@;
                    r == (if self.sandbox_sessions@.contains_key(id)
                        && self.sandbox_sessions@[id].owner_uid > 0 {
                        Some(self.sandbox_sessions@[id].owner_uid)
                    } else {
                        None
                    })
                } else {
                    r == first
                }
            }),
    {
        let first = spawn_uid(wire_uid, has_home, home_user);
        let trusted = match first {
            Some(uid) => uid != 0,
            None => false,
        };
        if !trusted {
            if let Some(id) = sandbox_session_id {
                return match self.sandbox_sessions.get(id) {
                    Some(registration) => {
                        if registration.owner_uid > 0 {
                            Some(registration.owner_uid)
                        } else {
                            None
                        }
                    },
                    None => None,
                };
            }
        }
        first
    }
}

/// What is remembered of a file only ever denies: an approval must not silently cover a later
/// access.
pub proof fn law_only_denials_are_remembered<I: Fn(&String) -> bool>(
    caches: VerdictCaches,
    path: String,
    access: FileAccess,
    on_disk: bool,
    same_file: I,
    now: u64,
    reply: FilesystemCheckReply,
)
    requires
        denial_remembered(caches, path, access, on_disk, same_file, now, Some(reply)),
    ensures
        !reply.allowed,
        reply.path == path,
        reply.access == access,
{
}

/// An approval of a file access leaves what is remembered as it was.
pub proof fn law_approval_is_not_remembered(
    before: PolicyStore,
    after: PolicyStore,
    pending_id: Seq<char>,
    source: VerdictSource,
    path: String,
    access: FileAccess,
    now: u64,
    r: Option<FilesystemDelivery>,
)
    requires
        filesystem_finished(
            before,
            after,
            pending_id,
            Verdict { allowed: true, source },
            path,
            access,
            now,
            r,
        ),
    ensures
        after.caches == before.caches,
{
}

/// No more requests wait than the limit allows, and for a file access no more callers.
pub proof fn law_file_requests_are_bounded(
    before: FilesystemBoard,
    after: FilesystemBoard,
    path: String,
    access: FileAccess,
    ctx: ResolvedRequestContext,
    waiter: u64,
    fresh_id: String,
    created_at: u64,
    waiter_limit: usize,
    pending_limit: usize,
    r: Result<PendingFsResult, FilesystemCheckReply>,
    id: Seq<char>,
)
    requires
        before.pending.dom().finite(),
        before.pending.len() <= pending_limit,
        waiter_limit > 0,
        before.waiting(id) <= waiter_limit,
        access_joined_or_filed(
            before,
            after,
            path,
            access,
            ctx,
            waiter,
            fresh_id,
            created_at,
            waiter_limit,
            pending_limit,
            r,
        ),
    ensures
        after.pending.len() <= pending_limit,
        after.waiting(id) <= waiter_limit,
{
}

} // verus!
