//! What holds of contexts: whose request a request is, which policy files its context sees, and
//! what is hidden from it.

use vstd::prelude::*;

use crate::auth::SocketRole;
use crate::context::ExportedFile;
use crate::context;
use crate::context::HostFacts;
use crate::context::LayerSource;
use crate::context::MergedCacheKey;
use crate::context::MtimeKey;
use crate::context::ProcessQuery;
use crate::context::TrustedPeer;
use crate::error::PolicydError;
use crate::gate::GateKind;
use crate::handlers::Handling;
use crate::merge;
use crate::merge::MergedCache;
use crate::merge::MergedKeyView;
use crate::paths;
use crate::peer::ClientPeer;
use crate::rpc::RpcRequest;
use crate::scan;
use crate::store::PolicyStore;
use crate::text;
use crate::types::DbusTarget;
use crate::types::FileAccess;
use crate::types::MergeContext;
use crate::types::Policy;
use crate::types::RequestContext;
use crate::types::ResolvedRequestContext;

verus! {

/// A package's name is one plain file name: not empty, not the directory above, without a slash
/// and without a control character. Every such name is good.
pub proof fn law_package_names_are_file_names(package: &str, r: Result<(), PolicydError>)
    requires
        call_ensures(context::validate_package_name, (package,), r),
    ensures
        r is Ok <==> {
            &&& package@.len() > 0
            &&& package@ != ".."@
            &&& forall|i: int|
                #![trigger package@[i]]
                0 <= i < package@.len() ==> package@[i] != '/' && package@[i] > '\u{1f}' && !(
                '\u{7f}' <= package@[i] <= '\u{9f}')
        },
        r is Err ==> r->Err_0 is InvalidPackageName,
{
    if context::package_fault(package@) is None {
        assert forall|i: int| #![trigger package@[i]] 0 <= i < package@.len() implies package@[i]
            != '/' && package@[i] > '\u{1f}' && !('\u{7f}' <= package@[i] <= '\u{9f}') by {
            assert(!context::control(package@[i]));
            assert(package@[i] != '/');
        }
    }
}

/// A sandbox is registered only by a child of its launcher, with a good package name, and never
/// under another package than it was registered with before; then it is registered as asked. No
/// other session is touched, and where it fails none is.
pub proof fn law_sandbox_is_registered_by_its_launchers_child(
    store: &mut PolicyStore,
    session_id: &String,
    package: &String,
    owner_uid: u32,
    launcher_pid: u32,
    peer_stat: &Option<String>,
    launcher_stat: &Option<String>,
    r: Result<(), PolicydError>,
    parent: Option<u32>,
    started: Option<u64>,
    other: Seq<char>,
)
    requires
        call_ensures(
            PolicyStore::register_sandbox,
            (store, session_id, package, owner_uid, launcher_pid, peer_stat, launcher_stat),
            r,
        ),
        call_ensures(context::read_proc_ppid, (peer_stat,), parent),
        call_ensures(context::read_proc_start_time_ticks, (launcher_stat,), started),
    ensures
        r is Ok <==> {
            let known = old(store).sandbox_sessions@;
            &&& context::package_fault(package@) is None
            &&& launcher_pid != 0
            &&& parent == Some(launcher_pid)
            &&& started is Some
            &&& known.contains_key(session_id@) && known[session_id@].package is Some
                ==> known[session_id@].package->0@ == package@
        },
        r is Ok ==> {
            let reg = final(store).sandbox_sessions@[session_id@];
            &&& final(store).sandbox_sessions@.contains_key(session_id@)
            &&& reg.package is Some && reg.package->0@ == package@
            &&& reg.owner_uid == owner_uid
            &&& reg.launcher_pid == launcher_pid
            &&& Some(reg.launcher_start_time_ticks) == started
            &&& old(store).sandbox_sessions@.contains_key(session_id@) ==> reg.root_pid
                == old(store).sandbox_sessions@[session_id@].root_pid
            &&& !old(store).sandbox_sessions@.contains_key(session_id@) ==> reg.root_pid == 0
        },
        r is Err || other != session_id@ ==> {
            &&& final(store).sandbox_sessions@.contains_key(other)
                <==> old(store).sandbox_sessions@.contains_key(other)
            &&& old(store).sandbox_sessions@.contains_key(other)
                ==> final(store).sandbox_sessions@[other] == old(store).sandbox_sessions@[other]
        },
{
}

/// To speak for a session makes nobody its owner but who speaks first, and gives it no package:
/// of a session that is known only the root process is filled in, once, and where a launcher
/// registered it only by a process of that launcher's. Root and unknown processes are not noted,
/// and no other session is touched.
pub proof fn law_speaking_for_a_session_changes_little<A: Fn(&u32, &u32) -> bool>(
    store: &mut PolicyStore,
    peer: TrustedPeer,
    id: &String,
    descends: &A,
    other: Seq<char>,
)
    requires
        call_ensures(PolicyStore::note_sandbox_peer::<A>, (store, peer, id, descends), ()),
    ensures
        peer.uid == 0 || peer.pid == 0 || other != id@ ==> {
            &&& final(store).sandbox_sessions@.contains_key(other)
                <==> old(store).sandbox_sessions@.contains_key(other)
            &&& old(store).sandbox_sessions@.contains_key(other)
                ==> final(store).sandbox_sessions@[other] == old(store).sandbox_sessions@[other]
        },
        old(store).sandbox_sessions@.contains_key(id@) ==> {
            let was = old(store).sandbox_sessions@[id@];
            let is_now = final(store).sandbox_sessions@[id@];
            &&& is_now.owner_uid == was.owner_uid
            &&& is_now.package == was.package
            &&& is_now.launcher_pid == was.launcher_pid
            &&& is_now.launcher_start_time_ticks == was.launcher_start_time_ticks
            &&& is_now.root_pid != was.root_pid ==> was.root_pid == 0 && is_now.root_pid == peer.pid
                && (was.launcher_pid != 0 ==> text::relates(*descends, was.launcher_pid, peer.pid))
            &&& was.root_pid == 0 && peer.uid != 0 && (was.launcher_pid == 0 || text::relates(
                *descends,
                was.launcher_pid,
                peer.pid,
            )) ==> is_now.root_pid == peer.pid
        },
        !old(store).sandbox_sessions@.contains_key(id@) && peer.uid != 0 && peer.pid != 0 ==> {
            let is_now = final(store).sandbox_sessions@[id@];
            &&& final(store).sandbox_sessions@.contains_key(id@)
            &&& is_now.owner_uid == peer.uid
            &&& is_now.root_pid == peer.pid
            &&& is_now.package is None
            &&& is_now.launcher_pid == 0
        },
{
}

/// A context adapter is taken for what it says only where it is the session's launcher, run by
/// the session's owner, and has not been replaced by a later process under the same number.
pub proof fn law_adapter_is_the_launcher(
    store: &PolicyStore,
    id: &String,
    peer: TrustedPeer,
    peer_stat: &Option<String>,
    r: bool,
    started: Option<u64>,
)
    requires
        call_ensures(
            PolicyStore::authenticates_context_adapter,
            (store, id, peer, peer_stat),
            r,
        ),
        call_ensures(context::read_proc_start_time_ticks, (peer_stat,), started),
    ensures
        r <==> {
            let reg = store.sandbox_sessions@[id@];
            &&& store.sandbox_sessions@.contains_key(id@)
            &&& reg.owner_uid == peer.uid
            &&& reg.launcher_pid == peer.pid
            &&& reg.launcher_start_time_ticks != 0
            &&& started == Some(reg.launcher_start_time_ticks)
        },
{
}

/// Nobody but root asks for another user, from another place or for another process than its own
/// or one that it started: what the request says of its paths and its user changes nothing.
pub proof fn law_peers_speak_for_themselves<
    A: Fn(&u32, &u32) -> bool,
    S: Fn(&u32) -> Option<String>,
    H: Fn(&u32) -> Option<String>,
    C: Fn(&ProcessQuery) -> Option<String>,
>(
    store: &PolicyStore,
    ctx: &MergeContext,
    forged: &MergeContext,
    peer: TrustedPeer,
    facts: &HostFacts<A, S, H, C>,
    r: ResolvedRequestContext,
    s: ResolvedRequestContext,
)
    requires
        call_ensures(
            PolicyStore::resolve_context_with_peer::<A, S, H, C>,
            (store, ctx, Some(peer), facts),
            r,
        ),
        call_ensures(
            PolicyStore::resolve_context_with_peer::<A, S, H, C>,
            (store, forged, Some(peer), facts),
            s,
        ),
        peer.uid > 0,
        forged.ids.pid == ctx.ids.pid,
        forged.sandbox_session_id == ctx.sandbox_session_id,
    ensures
        r == s,
        r.ids.uid == Some(peer.uid),
        r.ids.pid is Some ==> r.ids.pid->0 == peer.pid || (r.ids.pid == ctx.ids.pid
            && text::relates(*facts.descends, peer.pid, r.ids.pid->0)),
        ctx.ids.pid is Some && ctx.ids.pid->0 > 0 && text::relates(
            *facts.descends,
            peer.pid,
            ctx.ids.pid->0,
        ) ==> r.ids.pid == ctx.ids.pid,
        r.paths.project_root is None,
        r.paths.home == text::answer(*facts.home, peer.uid),
        r.paths.cwd is Some ==> r.ids.pid is Some && r.paths.cwd == text::answer(
            *facts.cwd,
            ProcessQuery { pid: r.ids.pid->0, uid: Some(peer.uid) },
        ),
        ctx.sandbox_session_id is Some ==> r.sandbox_session_id == ctx.sandbox_session_id,
{
}

/// A package goes only to who owns the session and runs inside its sandbox, and is then the
/// session's.
pub proof fn law_package_goes_only_to_the_sandbox<
    A: Fn(&u32, &u32) -> bool,
    S: Fn(&u32) -> Option<String>,
    H: Fn(&u32) -> Option<String>,
    C: Fn(&ProcessQuery) -> Option<String>,
>(
    store: &PolicyStore,
    ctx: &MergeContext,
    peer: TrustedPeer,
    facts: &HostFacts<A, S, H, C>,
    r: ResolvedRequestContext,
)
    requires
        call_ensures(
            PolicyStore::resolve_context_with_peer::<A, S, H, C>,
            (store, ctx, Some(peer), facts),
            r,
        ) || call_ensures(
            PolicyStore::resolve_gate_context_with_peer::<A, S, H, C>,
            (store, ctx, peer, facts),
            r,
        ),
        peer.uid > 0,
    ensures
        r.package is Some ==> {
            let reg = store.sandbox_sessions@[r.sandbox_session_id->0@];
            &&& r.sandbox_session_id is Some
            &&& store.sandbox_sessions@.contains_key(r.sandbox_session_id->0@)
            &&& r.package == reg.package
            &&& reg.owner_uid == peer.uid
            &&& reg.launcher_pid > 0
            &&& reg.launcher_pid != peer.pid
            &&& text::relates(*facts.descends, reg.launcher_pid, peer.pid)
        },
        r.sandbox_session_id is Some && r.ids.pid is Some && store.sandbox_sessions@.contains_key(
            r.sandbox_session_id->0@,
        ) ==> ({
            let reg = store.sandbox_sessions@[r.sandbox_session_id->0@];
            reg.owner_uid == peer.uid && reg.launcher_pid > 0 && reg.launcher_pid != peer.pid
                && text::relates(*facts.descends, reg.launcher_pid, peer.pid) && reg.root_pid
                == r.ids.pid->0 ==> r.package == reg.package
        }),
{
}

/// The kernel's view of a gate's process names its session; what the request says of it does not.
pub proof fn law_gate_is_told_no_session<
    A: Fn(&u32, &u32) -> bool,
    S: Fn(&u32) -> Option<String>,
    H: Fn(&u32) -> Option<String>,
    C: Fn(&ProcessQuery) -> Option<String>,
>(
    store: &PolicyStore,
    ctx: &MergeContext,
    forged: &MergeContext,
    peer: TrustedPeer,
    facts: &HostFacts<A, S, H, C>,
    r: ResolvedRequestContext,
    s: ResolvedRequestContext,
)
    requires
        call_ensures(
            PolicyStore::resolve_gate_context_with_peer::<A, S, H, C>,
            (store, ctx, peer, facts),
            r,
        ),
        call_ensures(
            PolicyStore::resolve_gate_context_with_peer::<A, S, H, C>,
            (store, forged, peer, facts),
            s,
        ),
        peer.uid > 0,
        forged.ids.pid == ctx.ids.pid,
    ensures
        r == s,
        r.ids.pid is Some ==> r.sandbox_session_id == text::answer(
            *facts.session,
            r.ids.pid->0,
        ),
        r.ids.pid is None ==> r.sandbox_session_id is None,
        r.ids.uid == Some(peer.uid),
{
}

/// Root is believed: its request is for the user, the process, the paths and the session that it
/// names, and what it does not name the host is asked for. A project root it never brings.
pub proof fn law_root_speaks_for_others<
    A: Fn(&u32, &u32) -> bool,
    S: Fn(&u32) -> Option<String>,
    H: Fn(&u32) -> Option<String>,
    C: Fn(&ProcessQuery) -> Option<String>,
>(
    store: &PolicyStore,
    ctx: &MergeContext,
    facts: &HostFacts<A, S, H, C>,
    r: ResolvedRequestContext,
)
    requires
        call_ensures(
            PolicyStore::resolve_trusted_context::<A, S, H, C>,
            (store, ctx, facts),
            r,
        ),
    ensures
        r.ids == ctx.ids,
        ctx.paths.cwd is Some ==> r.paths.cwd == ctx.paths.cwd,
        ctx.paths.home is Some ==> r.paths.home == ctx.paths.home,
        ctx.paths.home is None && ctx.ids.uid is Some ==> r.paths.home == text::answer(
            *facts.home,
            ctx.ids.uid->0,
        ),
        ctx.paths.cwd is None && ctx.ids.pid is Some ==> r.paths.cwd == text::answer(
            *facts.cwd,
            ProcessQuery { pid: ctx.ids.pid->0, uid: ctx.ids.uid },
        ),
        ctx.sandbox_session_id is Some ==> r.sandbox_session_id == ctx.sandbox_session_id,
        ctx.sandbox_session_id is None && ctx.ids.pid is Some ==> r.sandbox_session_id
            == text::answer(*facts.session, ctx.ids.pid->0),
        r.paths.project_root is None,
        r.package is Some ==> r.sandbox_session_id is Some && store.sandbox_sessions@.contains_key(
            r.sandbox_session_id->0@,
        ) && r.package == store.sandbox_sessions@[r.sandbox_session_id->0@].package,
        r.sandbox_session_id is Some && store.sandbox_sessions@.contains_key(
            r.sandbox_session_id->0@,
        ) ==> r.package == store.sandbox_sessions@[r.sandbox_session_id->0@].package,
{
}

/// The context that a request is handed on with.
pub open spec fn context_of(work: Handling) -> Option<ResolvedRequestContext> {
    match work {
        Handling::Check { ctx, .. } => Some(ctx),
        Handling::CheckFilesystem { ctx, .. } => Some(ctx),
        Handling::CheckResource { ctx, .. } => Some(ctx),
        Handling::CheckDbus { ctx, .. } => Some(ctx),
        Handling::StartFilesystemMonitor { ctx, .. } => Some(ctx),
        Handling::Elevate { ctx, .. } => Some(ctx),
        Handling::ApproveHost(asked) => Some(asked.ctx),
        Handling::ApproveHttp { ctx, .. } => Some(ctx),
        Handling::Status(ctx) => Some(ctx),
        Handling::FilesystemSnapshot(ctx) => Some(ctx),
        _ => None,
    }
}

/// Whatever is asked is asked for the user that asks: no user but root has work done for another,
/// and no request brings its own project root.
pub proof fn law_work_is_done_for_who_asks<
    A: Fn(&u32, &u32) -> bool,
    S: Fn(&u32) -> Option<String>,
    H: Fn(&u32) -> Option<String>,
    C: Fn(&ProcessQuery) -> Option<String>,
>(
    store: &mut PolicyStore,
    client_id: u64,
    peer: ClientPeer,
    role: SocketRole,
    req: RpcRequest,
    facts: &HostFacts<A, S, H, C>,
    r: Result<Handling, PolicydError>,
)
    requires
        call_ensures(
            PolicyStore::dispatch::<A, S, H, C>,
            (store, client_id, peer, role, req, facts),
            r,
        ),
        peer.uid > 0,
    ensures
        r is Ok && context_of(r->Ok_0) is Some ==> {
            &&& context_of(r->Ok_0)->0.ids.uid == Some(peer.uid)
            &&& context_of(r->Ok_0)->0.paths.project_root is None
        },
        r is Ok && r->Ok_0 is Decide ==> {
            &&& r->Ok_0->decision.wire.owner_uid == Some(peer.uid)
            &&& r->Ok_0->decision.wire.paths.project_root is None
            &&& r->Ok_0->decision.approver_uid == Some(peer.uid)
        },
        r is Ok && r->Ok_0 is RegisterSandbox ==> r->Ok_0->owner_uid == peer.uid,
{
}

/// A context sees the declared policy below everything else, the policy in its home where it has
/// one, the project's where its root is known, and the files of its package where it has one.
/// Nothing of a project is seen without a project root.
pub proof fn law_context_sees_its_own_layers(
    store: &PolicyStore,
    ctx: &ResolvedRequestContext,
    trusted: &Option<String>,
    r: Vec<LayerSource>,
    i: int,
)
    requires
        call_ensures(PolicyStore::policy_layers, (store, ctx, trusted), r),
    ensures
        r@.len() >= 1,
        r@[0].path@ == store.args.declarative@ && !r@[0].of_project,
        0 <= i < r@.len() && r@[i].of_project ==> ctx.paths.project_root is Some,
        ctx.paths.project_root is Some && *trusted is Some ==> exists|j: int|
            0 <= j < r@.len() && (#[trigger] r@[j]).path@ == trusted->0@ && r@[j].of_project,
        ctx.paths.home is Some ==> exists|j: int|
            0 <= j < r@.len() && (#[trigger] r@[j]).path@ == context::home_policy(
                ctx.paths.home->0@,
            ) && !r@[j].of_project,
        ctx.package is None && ctx.paths.home is None && ctx.paths.project_root is None
            ==> r@.len() == 1,
        r@.len() <= 6,
{
    let files = context::context_package_files(store.args.package_declarative@, *ctx);
    let own = context::home_file(*ctx);
    let p = context::project_file(*ctx, *trusted);
    let seen = context::sources_view(r@);
    let a1 = seq![(store.args.declarative@, false)];
    let a2 = a1 + context::source(files.base, false);
    let a3 = a2 + context::source(files.home, false);
    let a4 = a3 + context::source(own, false);
    let a5 = a4 + context::source(p, true);
    assert(seen == a5 + context::source(files.project, true));
    assert(seen[0] == (r@[0].path@, r@[0].of_project));
    if 0 <= i < r@.len() {
        assert(seen[i] == (r@[i].path@, r@[i].of_project));
    }
    if own is Some {
        let j = a3.len() as int;
        assert(seen[j] == (own->0, false));
        assert(seen[j] == (r@[j].path@, r@[j].of_project));
    }
    if p is Some {
        let j = a4.len() as int;
        assert(seen[j] == (p->0, true));
        assert(seen[j] == (r@[j].path@, r@[j].of_project));
    }
}

/// The policy denies every use of the path.
pub open spec fn hidden_from(policy: Policy, path: Seq<char>) -> bool {
    exists|j: int|
        0 <= j < policy.filesystem.deny@.len() && (#[trigger] policy.filesystem.deny@[j]).path@
            == path && policy.filesystem.deny@[j].access == FileAccess::All
}

/// Every policy file that a context sees is denied to it for every use; what was denied before
/// stays denied, and nothing else of the policy changes.
pub proof fn law_policy_files_are_out_of_reach(
    store: &PolicyStore,
    merged: Policy,
    ctx: &ResolvedRequestContext,
    trusted: &Option<String>,
    layers: Vec<LayerSource>,
    r: Policy,
    i: int,
    k: int,
)
    requires
        call_ensures(PolicyStore::policy_layers, (store, ctx, trusted), layers),
        call_ensures(PolicyStore::hide_policy_files, (store, merged, ctx, trusted), r),
    ensures
        0 <= i < layers@.len() ==> hidden_from(r, layers@[i].path@),
        0 <= k < merged.filesystem.deny@.len() ==> r.filesystem.deny@.contains(
            merged.filesystem.deny@[k],
        ),
        r.filesystem.allow == merged.filesystem.allow,
        r.network == merged.network,
        r.resources == merged.resources,
        r.dbus == merged.dbus,
        r.sudo == merged.sudo,
{
    let declarative = store.args.declarative@;
    let declared = store.args.package_declarative@;
    let before = merged.filesystem.deny@;
    let after = r.filesystem.deny@;
    let hidden = context::hidden_files(declarative, declared, *ctx, *trusted);
    if 0 <= i < layers@.len() {
        let seen = context::layer_sources(declarative, declared, *ctx, *trusted);
        assert(context::sources_view(layers@)[i] == (layers@[i].path@, layers@[i].of_project));
        context::law_seen_files_are_hidden(declarative, declared, *ctx, *trusted, i);
        let n = choose|n: int| 0 <= n < hidden.len() && hidden[n] == seen[i].0;
        assert(context::hides(after[before.len() + n], hidden[n]));
    }
    if 0 <= k < before.len() {
        assert(after[k] == before[k]);
    }
}

/// The policy that a context sees is what merging gives of its layers, each as it was loaded, in
/// their order, with its own files hidden from it.
pub proof fn law_context_sees_its_layers_merged<
    L: Fn(&LayerSource) -> Policy,
    M: Fn(&Vec<Policy>) -> Policy,
>(
    store: &PolicyStore,
    ctx: &ResolvedRequestContext,
    trusted: &Option<String>,
    load: &L,
    merge: &M,
    r: Policy,
) -> (found: (Seq<LayerSource>, Vec<Policy>))
    requires
        call_ensures(PolicyStore::build_merged_for::<L, M>, (store, ctx, trusted, load, merge), r),
    ensures
        found.1@.len() == found.0.len(),
        forall|i: int|
            0 <= i < found.0.len() ==> #[trigger] found.1@[i] == text::answer(*load, found.0[i]),
        found.0.len() >= 1 && found.0[0].path@ == store.args.declarative@,
        forall|i: int|
            0 <= i < found.0.len() ==> hidden_from(r, (#[trigger] found.0[i]).path@),
        ({
            let merged = text::answer(*merge, found.1);
            &&& r.network == merged.network
            &&& r.filesystem.allow == merged.filesystem.allow
            &&& merged.filesystem.deny@.is_prefix_of(r.filesystem.deny@)
            &&& r.resources == merged.resources
            &&& r.dbus == merged.dbus
            &&& r.sudo == merged.sudo
        }),
{
    let declarative = store.args.declarative@;
    let declared = store.args.package_declarative@;
    let (sources, layers): (Seq<LayerSource>, Vec<Policy>) = choose|
        sources: Seq<LayerSource>,
        layers: Vec<Policy>,
    |
        #![trigger merge::loaded(sources, *load), text::answer(*merge, layers)]
        {
            &&& context::sources_view(sources) == context::layer_sources(
                declarative,
                declared,
                *ctx,
                *trusted,
            )
            &&& layers@ == merge::loaded(sources, *load)
            &&& merge::hidden_in(
                store.args,
                *ctx,
                *trusted,
                text::answer(*merge, layers),
                r,
            )
        };
    let merged = text::answer(*merge, layers);
    let before = merged.filesystem.deny@;
    let after = r.filesystem.deny@;
    let hidden = context::hidden_files(declarative, declared, *ctx, *trusted);
    let seen = context::layer_sources(declarative, declared, *ctx, *trusted);
    assert(seen[0] == (declarative, false));
    assert(context::sources_view(sources).len() == sources.len());
    assert(context::sources_view(sources)[0] == (sources[0].path@, sources[0].of_project));
    assert forall|i: int| 0 <= i < sources.len() implies hidden_from(
        r,
        (#[trigger] sources[i]).path@,
    ) by {
        assert(context::sources_view(sources)[i] == (sources[i].path@, sources[i].of_project));
        context::law_seen_files_are_hidden(declarative, declared, *ctx, *trusted, i);
        let n = choose|n: int| 0 <= n < hidden.len() && hidden[n] == seen[i].0;
        assert(context::hides(after[before.len() + n], hidden[n]));
    }
    assert(before =~= after.take(before.len() as int));
    (sources, layers)
}

/// The file was last changed then.
pub open spec fn as_of<T: Fn(&String) -> Option<MtimeKey>>(
    mtime: T,
    path: Seq<char>,
    at: Option<MtimeKey>,
) -> bool {
    exists|s: String| s@ == path && at == #[trigger] text::answer(mtime, s)
}

/// A remembered policy is told only for the context that it was merged for, as its files are now:
/// under the same home, project and package, and since each file last changed. What is not
/// remembered is merged, with the context's own files hidden, and remembered; nothing that was
/// remembered is dropped or replaced.
pub proof fn law_policy_is_remembered_for_its_own_context<
    'a,
    T: Fn(&String) -> Option<MtimeKey>,
    L: Fn(&LayerSource) -> Policy,
    M: Fn(&Vec<Policy>) -> Policy,
>(
    store: &PolicyStore,
    cache: &'a mut MergedCache,
    ctx: &ResolvedRequestContext,
    trusted: &Option<String>,
    mtime: &T,
    load: &L,
    merge: &M,
    r: &'a Policy,
    other: MergedKeyView,
)
    requires
        call_ensures(
            PolicyStore::merged_for::<T, L, M>,
            (store, cache, ctx, trusted, mtime, load, merge),
            r,
        ),
    ensures
        exists|key: MergedKeyView|
            {
                &&& #[trigger] final(cache).entries@.contains_key(key)
                &&& final(cache).entries@[key] == *r
                &&& key.home == paths::opt_components(ctx.paths.home)
                &&& key.project_root == paths::opt_components(ctx.paths.project_root)
                &&& key.package == text::opt_text(ctx.package)
                &&& as_of(*mtime, store.args.declarative@, key.declarative_mtime)
                &&& ctx.paths.home is Some ==> as_of(
                    *mtime,
                    context::home_policy(ctx.paths.home->0@),
                    key.home_policy_mtime,
                )
                &&& ctx.paths.project_root is Some && *trusted is Some ==> as_of(
                    *mtime,
                    trusted->0@,
                    key.project_policy_mtime,
                )
                &&& old(cache).entries@.contains_key(key) ==> old(cache).entries@[key] == *r
                &&& !old(cache).entries@.contains_key(key) ==> hidden_from(
                    *r,
                    store.args.declarative@,
                )
                &&& final(cache).entries@.contains_key(other)
                    ==> old(cache).entries@.contains_key(other) || other == key
            },
        old(cache).entries@.contains_key(other) ==> final(cache).entries@.contains_key(other)
            && final(cache).entries@[other] == old(cache).entries@[other],
{
    let key = choose|key: MergedCacheKey| #[trigger]
        merge::key_of(store.args, *ctx, *trusted, *mtime, key) && merge::recalled(
            store.args,
            *ctx,
            *trusted,
            *load,
            *merge,
            key,
            old(cache).entries@,
            final(cache).entries@,
            *r,
        );
    if !old(cache).entries@.contains_key(key@) {
        let hidden = context::hidden_files(
            store.args.declarative@,
            store.args.package_declarative@,
            *ctx,
            *trusted,
        );
        let (sources, layers): (Seq<LayerSource>, Vec<Policy>) = choose|
            sources: Seq<LayerSource>,
            layers: Vec<Policy>,
        |
            #![trigger merge::loaded(sources, *load), text::answer(*merge, layers)]
            {
                &&& context::sources_view(sources) == context::layer_sources(
                    store.args.declarative@,
                    store.args.package_declarative@,
                    *ctx,
                    *trusted,
                )
                &&& layers@ == merge::loaded(sources, *load)
                &&& merge::hidden_in(store.args, *ctx, *trusted, text::answer(*merge, layers), *r)
            };
        assert(hidden[0] == store.args.declarative@);
        let n = text::answer(*merge, layers).filesystem.deny@.len() as int;
        assert(context::hides(r.filesystem.deny@[n], hidden[0]));
    }
    assert(final(cache).entries@.contains_key(key@));
}

/// After the remembered policies have been dropped none is remembered.
pub proof fn law_dropped_policies_are_forgotten(cache: &mut MergedCache)
    requires
        call_ensures(MergedCache::invalidate_merged_policy_cache, (cache,), ()),
    ensures
        final(cache).entries@.dom().is_empty(),
{
}

/// A process's parent and start are read off its status line where they stand and as they are: the
/// second and the twentieth word behind its name.
pub proof fn law_process_is_read_as_it_stands(
    stat: &Option<String>,
    parent: Option<u32>,
    started: Option<u64>,
)
    requires
        call_ensures(context::read_proc_ppid, (stat,), parent),
        call_ensures(context::read_proc_start_time_ticks, (stat,), started),
    ensures
        *stat is None ==> parent is None && started is None,
        *stat is Some ==> {
            let rest = scan::after_last(stat->0@, ')');
            let words = scan::words_of(rest->0);
            &&& rest is None ==> parent is None && started is None
            &&& parent is Some ==> rest is Some && words.len() > 1 && scan::number_of(words[1])
                == Some(parent->0 as nat)
            &&& started is Some ==> rest is Some && words.len() > 19 && scan::number_of(words[19])
                == Some(started->0 as nat)
            &&& rest is Some && words.len() > 1 && scan::number_of(words[1]) is Some
                && scan::number_of(words[1])->0 <= u32::MAX ==> parent is Some
            &&& rest is Some && words.len() > 19 && scan::number_of(words[19]) is Some
                && scan::number_of(words[19])->0 <= u64::MAX ==> started is Some
        },
{
}

/// A message on the host's bus is asked for the user that sent it and in the session that the
/// system finds for its process: the session that the request names is not taken, nor a process
/// that it names for another user.
pub proof fn law_bus_message_is_its_senders<
    A: Fn(&u32, &u32) -> bool,
    S: Fn(&u32) -> Option<String>,
    H: Fn(&u32) -> Option<String>,
    C: Fn(&ProcessQuery) -> Option<String>,
>(
    store: &mut PolicyStore,
    client_id: u64,
    peer: ClientPeer,
    req: RpcRequest,
    facts: &HostFacts<A, S, H, C>,
    ctx: ResolvedRequestContext,
    target: DbusTarget,
)
    requires
        call_ensures(
            PolicyStore::dispatch::<A, S, H, C>,
            (store, client_id, peer, SocketRole::Host, req, facts),
            Ok(Handling::CheckDbus { target, ctx }),
        ),
    ensures
        req is CheckDbus,
        ctx.ids.uid == Some(peer.uid),
        ctx.ids.pid is Some ==> ctx.sandbox_session_id == text::answer(
            *facts.session,
            ctx.ids.pid->0,
        ),
        ctx.ids.pid is None ==> ctx.sandbox_session_id is None,
        ({
            let said = req->CheckDbus_ctx;
            let own = said.uid is None || said.uid == Some(peer.uid);
            let named = said.pid is Some && said.pid->0 > 0 && text::relates(
                *facts.descends,
                peer.pid,
                said.pid->0,
            );
            &&& own && named ==> ctx.ids.pid == said.pid
            &&& !(own && named) && peer.pid > 0 ==> ctx.ids.pid == Some(peer.pid)
        }),
{
}

/// On every other socket and for every other question the session that the request names is taken;
/// root is believed in its user and process as well. A request from a sandbox speaks for the
/// session that it names, and no other request does.
pub proof fn law_request_names_its_session<
    A: Fn(&u32, &u32) -> bool,
    S: Fn(&u32) -> Option<String>,
    H: Fn(&u32) -> Option<String>,
    C: Fn(&ProcessQuery) -> Option<String>,
>(
    store: &mut PolicyStore,
    peer: ClientPeer,
    role: SocketRole,
    said: &RequestContext,
    facts: &HostFacts<A, S, H, C>,
    r: ResolvedRequestContext,
    noted: &mut PolicyStore,
    id: String,
)
    requires
        call_ensures(
            PolicyStore::resolve_request_context::<A, S, H, C>,
            (store, peer, role, said, facts),
            r,
        ),
        *old(noted) == *old(store),
        call_ensures(
            PolicyStore::note_sandbox_peer::<A>,
            (noted, (TrustedPeer { pid: peer.pid, uid: peer.uid }), &id, facts.descends),
            (),
        ),
    ensures
        role == SocketRole::Sandbox && said.sandbox_session_id == Some(id) ==> final(store).sandbox_sessions@ == final(noted).sandbox_sessions@,
        said.sandbox_session_id is None ==> final(store).sandbox_sessions@
            == old(store).sandbox_sessions@,
        said.sandbox_session_id is Some ==> r.sandbox_session_id == said.sandbox_session_id,
        peer.uid == 0 ==> r.ids.uid == said.uid && r.ids.pid == said.pid,
        peer.uid == 0 && said.cwd is Some ==> r.paths.cwd == said.cwd,
        peer.uid == 0 && said.home is Some ==> r.paths.home == said.home,
        peer.uid > 0 ==> r.ids.uid == Some(peer.uid),
        peer.uid > 0 ==> r.paths.home == text::answer(*facts.home, peer.uid),
        r.paths.project_root is None,
        role != SocketRole::Sandbox ==> final(store).sandbox_sessions@
            == old(store).sandbox_sessions@,
{
}

/// Where a package's policy lies below a directory.
pub open spec fn package_policy(
    base: Seq<char>,
    dir: Seq<char>,
    package: Seq<char>,
) -> Seq<char> {
    paths::joined(paths::joined(paths::joined(base, dir), "packages"@), package + ".json"@)
}

proof fn lemma_declared(list: Seq<(String, String)>, package: Seq<char>, i: int)
    requires
        0 <= i < list.len(),
        list[i].0@ == package,
        forall|j: int| 0 <= j < i ==> (#[trigger] list[j]).0@ != package,
    ensures
        context::declared_file(list, package) == Some(list[i].1@),
    decreases i,
{
    if i > 0 {
        let rest = list.skip(1);
        assert(list[0].0@ != package);
        assert(rest[i - 1] == list[i]);
        assert forall|j: int| 0 <= j < i - 1 implies (#[trigger] rest[j]).0@ != package by {
            assert(rest[j] == list[j + 1]);
        }
        lemma_declared(rest, package, i - 1);
    }
}

/// A context with a good package sees the package's policies: the declared one, the one in its
/// home and the one in its project, as far as it has them. Without a package, or with a bad name,
/// it sees none.
pub proof fn law_context_sees_its_package(
    store: &PolicyStore,
    ctx: &ResolvedRequestContext,
    trusted: &Option<String>,
    package: &str,
    good: Result<(), PolicydError>,
    r: Vec<LayerSource>,
    i: int,
)
    requires
        call_ensures(PolicyStore::policy_layers, (store, ctx, trusted), r),
        ctx.package is Some ==> ctx.package->0@ == package@,
        call_ensures(context::validate_package_name, (package,), good),
    ensures
        ctx.package is None || good is Err ==> r@.len() <= 3,
        ctx.package is Some && good is Ok && ctx.paths.home is Some ==> exists|j: int|
            0 <= j < r@.len() && (#[trigger] r@[j]).path@ == package_policy(
                ctx.paths.home->0@,
                ".config/agent-sandbox"@,
                package@,
            ) && !r@[j].of_project,
        ctx.package is Some && good is Ok && ctx.paths.project_root is Some ==> exists|j: int|
            0 <= j < r@.len() && (#[trigger] r@[j]).path@ == package_policy(
                ctx.paths.project_root->0@,
                ".agent-sandbox"@,
                package@,
            ) && r@[j].of_project,
        ctx.package is Some && good is Ok && 0 <= i < store.args.package_declarative@.len()
            && store.args.package_declarative@[i].0@ == package@ && (forall|j: int|
            0 <= j < i ==> (#[trigger] store.args.package_declarative@[j]).0@ != package@)
            ==> exists|j: int|
            0 <= j < r@.len() && (#[trigger] r@[j]).path@
                == store.args.package_declarative@[i].1@ && !r@[j].of_project,
{
    let declared = store.args.package_declarative@;
    let files = context::context_package_files(declared, *ctx);
    let own = context::home_file(*ctx);
    let p = context::project_file(*ctx, *trusted);
    let seen = context::sources_view(r@);
    let a1 = seq![(store.args.declarative@, false)];
    let a2 = a1 + context::source(files.base, false);
    let a3 = a2 + context::source(files.home, false);
    let a4 = a3 + context::source(own, false);
    let a5 = a4 + context::source(p, true);
    assert(seen == a5 + context::source(files.project, true));
    assert(seen.len() == r@.len());
    if ctx.package is Some && good is Ok && 0 <= i < declared.len() && declared[i].0@ == package@
        && (forall|j: int| 0 <= j < i ==> (#[trigger] declared[j]).0@ != package@) {
        lemma_declared(declared, package@, i);
        let j = a1.len() as int;
        assert(seen[j] == (files.base->0, false));
        assert(seen[j] == (r@[j].path@, r@[j].of_project));
    }
    if files.home is Some {
        let j = a2.len() as int;
        assert(seen[j] == (files.home->0, false));
        assert(seen[j] == (r@[j].path@, r@[j].of_project));
    }
    if files.project is Some {
        let j = a5.len() as int;
        assert(seen[j] == (files.project->0, true));
        assert(seen[j] == (r@[j].path@, r@[j].of_project));
    }
}

/// The merged policy is written out as it was told, and for Nix where that is asked for, each to
/// its own file and nowhere else.
pub proof fn law_policy_is_written_out_where_asked(
    store: &PolicyStore,
    merged: &Policy,
    json: &str,
    nix: String,
    r: Vec<ExportedFile>,
)
    requires
        call_ensures(PolicyStore::export_policy_files, (store, merged, json), r),
        call_ensures(context::nix_export, (merged,), nix),
    ensures
        r@.len() >= 1,
        r@[0].path == store.args.export_json,
        r@[0].text@ == json@ + "\n"@,
        store.args.export_nix is None ==> r@.len() == 1,
        store.args.export_nix is Some ==> r@.len() == 2 && r@[1].path == store.args.export_nix->0
            && r@[1].text@ == nix@,
{
}

/// A gate that brings no evidence is judged as the same request would be: for D-Bus on the host's
/// socket as its sender's, with the session that the system finds, and everywhere else in the
/// session that it names.
pub proof fn law_plain_gate_is_judged_as_a_request<
    A: Fn(&u32, &u32) -> bool,
    S: Fn(&u32) -> Option<String>,
    H: Fn(&u32) -> Option<String>,
    C: Fn(&ProcessQuery) -> Option<String>,
>(
    store: &mut PolicyStore,
    peer: ClientPeer,
    role: SocketRole,
    kind: GateKind,
    said: &RequestContext,
    facts: &HostFacts<A, S, H, C>,
    r: ResolvedRequestContext,
)
    requires
        call_ensures(
            PolicyStore::resolve_plain_gate_context::<A, S, H, C>,
            (store, peer, role, kind, said, facts),
            r,
        ),
    ensures
        kind == GateKind::Dbus && role == SocketRole::Host ==> {
            &&& r.ids.uid == Some(peer.uid)
            &&& r.ids.pid is Some ==> r.sandbox_session_id == text::answer(
                *facts.session,
                r.ids.pid->0,
            )
        },
        !(kind == GateKind::Dbus && role == SocketRole::Host) && said.sandbox_session_id is Some
            ==> r.sandbox_session_id == said.sandbox_session_id,
        peer.uid > 0 ==> r.ids.uid == Some(peer.uid),
        r.paths.project_root is None,
{
}

} // verus!
