//! Pending approvals, their waiters, and the caches and rules that decisions leave behind.

use vstd::prelude::*;

use crate::flow::AttributionToken;
use crate::flow::NetworkFlowKey;
use crate::flow::FlowRegistration;
use crate::flow::ProxyCheckId;
use crate::flow::ProxySessionToken;
use crate::flow::SocketIdentity;
use crate::paths;
use crate::table::Table;
use crate::table::TableKey;
use crate::text;
use crate::types::DbusTarget;
use crate::types::FileAccess;
use crate::types::FilesystemRule;
use crate::types::HttpRequest;
use crate::types::HttpRequestView;
use crate::types::HttpRuleTarget;
use crate::types::ResolvedRequestContext;
use crate::types::ResourceAccess;
use crate::types::ResourceKind;
use crate::types::VerdictSource;

verus! {

/// A host and port that a decision speaks of.
#[derive(Debug, PartialEq, Eq)]
pub struct NetworkRuleKey {
    pub host: String,
    pub port: u16,
}

/// The view of a host and port.
pub struct NetworkRuleKeyView {
    pub host: Seq<char>,
    pub port: u16,
}

impl View for NetworkRuleKey {
    type V = NetworkRuleKeyView;

    open spec fn view(&self) -> NetworkRuleKeyView {
        NetworkRuleKeyView { host: self.host@, port: self.port }
    }
}

impl Clone for NetworkRuleKey {
    fn clone(&self) -> (r: Self)
        ensures
            r == *self,
    {
        NetworkRuleKey { host: self.host.clone(), port: self.port }
    }
}

impl TableKey for NetworkRuleKey {
    fn same(&self, other: &Self) -> (r: bool) {
        self.host == other.host && self.port == other.port
    }

    fn duplicate(&self) -> (r: Self) {
        self.clone()
    }
}

/// A path and access that a decision speaks of.
#[derive(Debug, PartialEq, Eq)]
pub struct FilesystemRuleKey {
    pub path: String,
    pub access: FileAccess,
}

/// The view of a path and access.
pub struct FilesystemRuleKeyView {
    pub path: Seq<Seq<char>>,
    pub access: FileAccess,
}

impl View for FilesystemRuleKey {
    type V = FilesystemRuleKeyView;

    open spec fn view(&self) -> FilesystemRuleKeyView {
        FilesystemRuleKeyView { path: paths::components(self.path@), access: self.access }
    }
}

impl Clone for FilesystemRuleKey {
    fn clone(&self) -> (r: Self)
        ensures
            r == *self,
    {
        FilesystemRuleKey { path: self.path.clone(), access: self.access }
    }
}

impl TableKey for FilesystemRuleKey {
    fn same(&self, other: &Self) -> (r: bool) {
        paths::same_path(self.path.as_str(), other.path.as_str()) && self.access == other.access
    }

    fn duplicate(&self) -> (r: Self) {
        self.clone()
    }
}

/// A resource and access that a decision speaks of.
#[derive(Debug, PartialEq, Eq)]
pub struct ResourceRuleKey {
    pub kind: ResourceKind,
    pub path: String,
    pub access: ResourceAccess,
}

/// The view of a resource and access.
pub struct ResourceRuleKeyView {
    pub kind: ResourceKind,
    pub path: Seq<Seq<char>>,
    pub access: ResourceAccess,
}

impl View for ResourceRuleKey {
    type V = ResourceRuleKeyView;

    open spec fn view(&self) -> ResourceRuleKeyView {
        ResourceRuleKeyView {
            kind: self.kind,
            path: paths::components(self.path@),
            access: self.access,
        }
    }
}

impl Clone for ResourceRuleKey {
    fn clone(&self) -> (r: Self)
        ensures
            r == *self,
    {
        ResourceRuleKey { kind: self.kind, path: self.path.clone(), access: self.access }
    }
}

impl TableKey for ResourceRuleKey {
    fn same(&self, other: &Self) -> (r: bool) {
        self.kind == other.kind && paths::same_path(self.path.as_str(), other.path.as_str())
            && self.access == other.access
    }

    fn duplicate(&self) -> (r: Self) {
        self.clone()
    }
}

/// The context that HTTP decisions are bound to.
#[derive(Debug, PartialEq, Eq)]
pub struct HttpContextKey {
    pub cwd: Option<String>,
    pub home: Option<String>,
    pub project_root: Option<String>,
    pub sandbox_session_id: Option<String>,
}

/// The view of an HTTP context.
pub struct HttpContextView {
    pub cwd: Option<Seq<Seq<char>>>,
    pub home: Option<Seq<Seq<char>>>,
    pub project_root: Option<Seq<Seq<char>>>,
    pub sandbox_session_id: Option<Seq<char>>,
}

impl View for HttpContextKey {
    type V = HttpContextView;

    open spec fn view(&self) -> HttpContextView {
        HttpContextView {
            cwd: paths::opt_components(self.cwd),
            home: paths::opt_components(self.home),
            project_root: paths::opt_components(self.project_root),
            sandbox_session_id: text::opt_text(self.sandbox_session_id),
        }
    }
}

impl Clone for HttpContextKey {
    fn clone(&self) -> (r: Self)
        ensures
            r == *self,
    {
        HttpContextKey {
            cwd: text::copy_opt(&self.cwd),
            home: text::copy_opt(&self.home),
            project_root: text::copy_opt(&self.project_root),
            sandbox_session_id: text::copy_opt(&self.sandbox_session_id),
        }
    }
}

impl HttpContextKey {
    pub fn same(&self, other: &HttpContextKey) -> (r: bool)
        ensures
            r == (self@ == other@),
    {
        paths::same_opt_path(&self.cwd, &other.cwd) && paths::same_opt_path(
            &self.home,
            &other.home,
        ) && paths::same_opt_path(&self.project_root, &other.project_root) && text::same_opt(
            &self.sandbox_session_id,
            &other.sandbox_session_id,
        )
    }
}

/// A request in its context.
#[derive(Debug, PartialEq, Eq)]
pub struct HttpPendingKey {
    pub request: HttpRequest,
    pub context: HttpContextKey,
}

/// The view of a request in its context.
pub struct HttpPendingKeyView {
    pub request: HttpRequestView,
    pub context: HttpContextView,
}

impl View for HttpPendingKey {
    type V = HttpPendingKeyView;

    open spec fn view(&self) -> HttpPendingKeyView {
        HttpPendingKeyView { request: self.request@, context: self.context@ }
    }
}

impl Clone for HttpPendingKey {
    fn clone(&self) -> (r: Self)
        ensures
            r == *self,
    {
        HttpPendingKey { request: self.request.clone(), context: self.context.clone() }
    }
}

impl TableKey for HttpPendingKey {
    fn same(&self, other: &Self) -> (r: bool) {
        self.request.method == other.request.method && self.request.url == other.request.url
            && self.context.same(&other.context)
    }

    fn duplicate(&self) -> (r: Self) {
        self.clone()
    }
}

/// An HTTP decision of session scope.
#[derive(Debug, PartialEq, Eq)]
pub struct HttpScopeKey {
    pub context: HttpContextKey,
    pub target: HttpRuleTarget,
}

/// The context that a pending approval was asked for in.
#[derive(Debug, PartialEq, Eq)]
pub struct PendingContext {
    pub cwd: Option<String>,
    pub home: Option<String>,
    pub project_root: Option<String>,
    pub sandbox_session_id: Option<String>,
    pub package: Option<String>,
}

impl Clone for PendingContext {
    fn clone(&self) -> (r: Self)
        ensures
            r == *self,
    {
        PendingContext {
            cwd: text::copy_opt(&self.cwd),
            home: text::copy_opt(&self.home),
            project_root: text::copy_opt(&self.project_root),
            sandbox_session_id: text::copy_opt(&self.sandbox_session_id),
            package: text::copy_opt(&self.package),
        }
    }
}

impl PendingContext {
    /// The parts of a request context that a pending approval keeps.
    pub open spec fn of(ctx: ResolvedRequestContext) -> PendingContext {
        PendingContext {
            cwd: ctx.paths.cwd,
            home: ctx.paths.home,
            project_root: ctx.paths.project_root,
            sandbox_session_id: ctx.sandbox_session_id,
            package: ctx.package,
        }
    }

    pub fn from_resolved(ctx: &ResolvedRequestContext) -> (r: Self)
        ensures
            r == Self::of(*ctx),
    {
        PendingContext {
            cwd: text::copy_opt(&ctx.paths.cwd),
            home: text::copy_opt(&ctx.paths.home),
            project_root: text::copy_opt(&ctx.paths.project_root),
            sandbox_session_id: text::copy_opt(&ctx.sandbox_session_id),
            package: text::copy_opt(&ctx.package),
        }
    }
}

/// A network request that waits for a decision.
#[derive(Debug, PartialEq, Eq)]
pub struct PendingNetwork {
    pub id: String,
    pub created_at: u64,
    pub host: String,
    pub port: u16,
    pub scheme: String,
    pub url: String,
    pub aliases: Vec<String>,
    pub context: PendingContext,
}

/// A command that waits for a decision.
#[derive(Debug, PartialEq, Eq)]
pub struct PendingElevation {
    pub id: String,
    pub created_at: u64,
    pub argv: Vec<String>,
    pub context: PendingContext,
}

/// A file access that waits for a decision.
#[derive(Debug, PartialEq, Eq)]
pub struct PendingFilesystem {
    pub id: String,
    pub created_at: u64,
    pub path: String,
    pub access: FileAccess,
    pub context: PendingContext,
}

/// A socket or device access that waits for a decision.
#[derive(Debug, PartialEq, Eq)]
pub struct PendingResource {
    pub id: String,
    pub created_at: u64,
    pub kind: ResourceKind,
    pub path: String,
    pub access: ResourceAccess,
    pub context: PendingContext,
}

/// A D-Bus message that waits for a decision.
#[derive(Debug, PartialEq, Eq)]
pub struct PendingDbus {
    pub id: String,
    pub created_at: u64,
    pub target: DbusTarget,
    pub path: String,
    pub context: PendingContext,
}

/// An HTTP request that waits for a decision.
#[derive(Debug, PartialEq, Eq)]
pub struct PendingHttp {
    pub id: String,
    pub created_at: u64,
    pub request: HttpRequest,
    pub context: HttpContextKey,
}

/// A request that waits for a decision.
#[derive(Debug, PartialEq, Eq)]
pub enum Pending {
    Network(PendingNetwork),
    Elevation(PendingElevation),
    Filesystem(PendingFilesystem),
    Resource(PendingResource),
    Dbus(PendingDbus),
    Http(PendingHttp),
}

impl Pending {
    pub open spec fn spec_id(self) -> String {
        match self {
            Pending::Network(p) => p.id,
            Pending::Elevation(p) => p.id,
            Pending::Filesystem(p) => p.id,
            Pending::Resource(p) => p.id,
            Pending::Dbus(p) => p.id,
            Pending::Http(p) => p.id,
        }
    }

    /// The id that the approval is decided under.
    pub fn id(&self) -> (r: &String)
        ensures
            *r == self.spec_id(),
    {
        match self {
            Pending::Network(p) => &p.id,
            Pending::Elevation(p) => &p.id,
            Pending::Filesystem(p) => &p.id,
            Pending::Resource(p) => &p.id,
            Pending::Dbus(p) => &p.id,
            Pending::Http(p) => &p.id,
        }
    }

    pub open spec fn session(self) -> Option<String> {
        match self {
            Pending::Network(p) => p.context.sandbox_session_id,
            Pending::Elevation(p) => p.context.sandbox_session_id,
            Pending::Filesystem(p) => p.context.sandbox_session_id,
            Pending::Resource(p) => p.context.sandbox_session_id,
            Pending::Dbus(p) => p.context.sandbox_session_id,
            Pending::Http(p) => p.context.sandbox_session_id,
        }
    }

    /// The sandbox session that asked.
    pub fn sandbox_session_id(&self) -> (r: &Option<String>)
        ensures
            *r == self.session(),
    {
        match self {
            Pending::Network(p) => &p.context.sandbox_session_id,
            Pending::Elevation(p) => &p.context.sandbox_session_id,
            Pending::Filesystem(p) => &p.context.sandbox_session_id,
            Pending::Resource(p) => &p.context.sandbox_session_id,
            Pending::Dbus(p) => &p.context.sandbox_session_id,
            Pending::Http(p) => &p.context.sandbox_session_id,
        }
    }
}

/// One caller that waits for a network decision.
#[derive(Clone, Copy, Debug, PartialEq, Eq)]
pub struct NetworkWaiter {
    /// The proxy check that waits, where a proxy asked.
    pub proxy: Option<ProxyCheckId>,
    /// The caller to answer.
    pub waiter: u64,
}

/// One proxy check that waits for an HTTP decision.
#[derive(Clone, Copy, Debug, PartialEq, Eq, Structural)]
pub struct HttpWaiter {
    pub check: ProxyCheckId,
    pub attribution_token: AttributionToken,
    /// The caller to answer.
    pub waiter: u64,
}

/// A verdict that is remembered for a while.
#[derive(Debug, PartialEq, Eq)]
pub struct VerdictEntry {
    pub allowed: bool,
    pub source: VerdictSource,
    pub time: u64,
}

/// The persistent connection that a trusted proxy holds.
#[derive(Clone, Copy, Debug, PartialEq, Eq, Structural)]
pub struct ProxySessionState {
    pub token: ProxySessionToken,
    pub connection_id: u64,
    pub opened_at: u64,
}

/// A registered flow and its claim.
#[derive(Debug, PartialEq, Eq)]
pub struct ProxyFlowState {
    pub registration: FlowRegistration,
    pub owner: SocketIdentity,
    pub context: ResolvedRequestContext,
    pub attribution_token: Option<AttributionToken>,
    pub connection_id: Option<u64>,
    pub claimed_at: Option<u64>,
    pub last_check: u64,
}

/// What is known of one check of the proxy.
#[derive(Clone, Copy, Debug, PartialEq, Eq, Structural)]
pub enum ProxyCancellation {
    /// The check runs; the value names the caller to interrupt.
    Active(u64),
    /// The check was cancelled before it began.
    Canceled,
}

/// The proxy's session, flows and checks.
pub struct ProxyState {
    pub session: Option<ProxySessionState>,
    pub flows: Table<NetworkFlowKey, ProxyFlowState>,
    pub cancellations: Table<ProxyCheckId, ProxyCancellation>,
}

impl ProxyState {
    pub open spec fn wf(&self) -> bool {
        &&& self.flows.wf()
        &&& self.cancellations.wf()
        &&& forall|k: NetworkFlowKey| #[trigger]
            self.flows@.contains_key(k) ==> flow_consistent(k, self.flows@[k])
    }
}

/// A flow is filed under its own tuple, and its claim is whole or absent.
pub open spec fn flow_consistent(key: NetworkFlowKey, state: ProxyFlowState) -> bool {
    &&& state.registration.flow == key
    &&& state.owner == state.registration.owner
    &&& state.attribution_token is Some <==> state.connection_id is Some
    &&& state.attribution_token is Some <==> state.claimed_at is Some
}

/// Callers that wait for HTTP decisions, and HTTP decisions in force.
pub struct HttpState {
    pub futures: Table<String, Vec<HttpWaiter>>,
    pub waiters: Table<ProxyCheckId, String>,
    pub once_allow: Table<HttpPendingKey, bool>,
    pub once_deny: Table<HttpPendingKey, bool>,
    pub session_allow: Table<String, Vec<HttpScopeKey>>,
    pub session_deny: Table<String, Vec<HttpScopeKey>>,
    pub verdict_cache: Table<HttpPendingKey, VerdictEntry>,
}

impl HttpState {
    pub open spec fn wf(&self) -> bool {
        &&& self.futures.wf()
        &&& self.waiters.wf()
        &&& self.once_allow.wf()
        &&& self.once_deny.wf()
        &&& self.session_allow.wf()
        &&& self.session_deny.wf()
        &&& self.verdict_cache.wf()
    }
}

/// Decisions in force for the sessions.
pub struct SessionRules {
    pub once_allow: Table<NetworkRuleKey, bool>,
    pub session_allow: Table<String, Vec<NetworkRuleKey>>,
    pub session_deny: Table<String, Vec<NetworkRuleKey>>,
    pub sudo_allow: Table<String, Vec<Vec<String>>>,
    pub sudo_deny: Table<String, Vec<Vec<String>>>,
    pub filesystem_allow: Table<String, Vec<FilesystemRuleKey>>,
    pub filesystem_deny: Table<String, Vec<FilesystemRuleKey>>,
    pub resource_allow: Table<String, Vec<ResourceRuleKey>>,
    pub resource_deny: Table<String, Vec<ResourceRuleKey>>,
    pub dbus_allow: Table<String, Vec<DbusTarget>>,
    pub dbus_deny: Table<String, Vec<DbusTarget>>,
    pub static_allow: Table<String, Vec<FilesystemRule>>,
}

impl SessionRules {
    pub open spec fn wf(&self) -> bool {
        &&& self.once_allow.wf()
        &&& self.session_allow.wf()
        &&& self.session_deny.wf()
        &&& self.sudo_allow.wf()
        &&& self.sudo_deny.wf()
        &&& self.filesystem_allow.wf()
        &&& self.filesystem_deny.wf()
        &&& self.resource_allow.wf()
        &&& self.resource_deny.wf()
        &&& self.dbus_allow.wf()
        &&& self.dbus_deny.wf()
        &&& self.static_allow.wf()
    }
}

/// Callers that wait for decisions other than HTTP ones.
pub struct Waiters {
    pub network: Table<String, Vec<NetworkWaiter>>,
    pub filesystem: Table<String, Vec<u64>>,
    pub resource: Table<String, Vec<u64>>,
    pub elevation: Table<String, u64>,
}

impl Waiters {
    pub open spec fn wf(&self) -> bool {
        &&& self.network.wf()
        &&& self.filesystem.wf()
        &&& self.resource.wf()
        &&& self.elevation.wf()
    }
}

/// Verdicts that are remembered for a while.
pub struct VerdictCaches {
    pub network: Table<NetworkRuleKey, VerdictEntry>,
    pub filesystem: Table<FilesystemRuleKey, VerdictEntry>,
    pub resource: Table<ResourceRuleKey, VerdictEntry>,
}

impl VerdictCaches {
    pub open spec fn wf(&self) -> bool {
        &&& self.network.wf()
        &&& self.filesystem.wf()
        &&& self.resource.wf()
    }
}

/// A connected policy UI.
#[derive(Debug, PartialEq, Eq)]
pub struct UiClient {
    pub session_id: String,
}

/// The context of a UI session.
#[derive(Debug, PartialEq, Eq)]
pub struct UiSessionContext {
    pub cwd: Option<String>,
    pub home: Option<String>,
    pub project_root: Option<String>,
    pub sandbox_session_id: Option<String>,
    pub owner_uid: Option<u32>,
    pub client_id: u64,
}

/// The connected policy UIs and their sessions.
pub struct UiState {
    pub clients: Table<u64, UiClient>,
    pub contexts: Table<String, UiSessionContext>,
}

impl UiState {
    pub open spec fn wf(&self) -> bool {
        &&& self.clients.wf()
        &&& self.contexts.wf()
    }

    /// The sessions of the connected UIs, each once.
    pub fn active_session_ids(&self) -> (r: Vec<String>)
        requires
            self.wf(),
        ensures
            text::texts(r@).no_duplicates(),
            forall|id: Seq<char>| #[trigger]
                text::texts(r@).contains(id) <==> exists|client: u64|
                    self.clients@.contains_key(client) && (
                    #[trigger] self.clients@[client]).session_id@ == id,
    {
        let mut r: Vec<String> = Vec::new();
        let mut i: usize = 0;
        let n = self.clients.entries.len();
        while i < n
            invariant
                self.wf(),
                n == self.clients.entries@.len(),
                i <= n,
                text::texts(r@).no_duplicates(),
                forall|id: Seq<char>| #[trigger]
                    text::texts(r@).contains(id) <==> exists|j: int|
                        0 <= j < i && (#[trigger] self.clients.entries@[j]).1.session_id@ == id,
            decreases n - i,
        {
            let id = &self.clients.entries[i].1.session_id;
            let ghost before = text::texts(r@);
            if !text::contains_text(&r, id) {
                r.push(id.clone());
                proof {
                    assert(text::texts(r@) =~= before.push(id@));
                    assert forall|x: Seq<char>| #[trigger]
                        text::texts(r@).contains(x) <==> before.contains(x) || x == id@ by {
                        let after = text::texts(r@);
                        if before.contains(x) {
                            let k = choose|k: int| 0 <= k < before.len() && before[k] == x;
                            assert(after[k] == x);
                        }
                        if x == id@ {
                            assert(after[before.len() as int] == x);
                        }
                    }
                }
            }
            proof {
                let after = text::texts(r@);
                assert(before.contains(id@) || after == before.push(id@));
                assert forall|x: Seq<char>| #[trigger] after.contains(x) <==> exists|j: int|
                    0 <= j < i + 1 && (#[trigger] self.clients.entries@[j]).1.session_id@
                        == x by {
                    if x == id@ {
                        assert(self.clients.entries@[i as int].1.session_id@ == x);
                    }
                }
            }
            i += 1;
        }
        proof {
            assert forall|id: Seq<char>| #[trigger] text::texts(r@).contains(id) <==> exists|
                client: u64,
            |
                self.clients@.contains_key(client) && (
                #[trigger] self.clients@[client]).session_id@ == id by {
                if text::texts(r@).contains(id) {
                    let j = choose|j: int|
                        0 <= j < n && (#[trigger] self.clients.entries@[j]).1.session_id@ == id;
                    self.clients.lemma_entry(j);
                    let client = self.clients.entries@[j].0;
                    assert(self.clients@.contains_key(client));
                    assert(self.clients@[client].session_id@ == id);
                }
                if exists|client: u64|
                    self.clients@.contains_key(client) && (
                    #[trigger] self.clients@[client]).session_id@ == id {
                    let client = choose|client: u64|
                        self.clients@.contains_key(client) && (
                        #[trigger] self.clients@[client]).session_id@ == id;
                    let j = crate::table::key_index(self.clients.entries@, client);
                    assert(self.clients.entries@[j].1.session_id@ == id);
                }
            }
        }
        r
    }
}

/// The process tree and owner that a sandbox session was registered for.
#[derive(Debug, PartialEq, Eq)]
pub struct SandboxSessionRegistration {
    pub root_pid: u32,
    pub owner_uid: u32,
    pub package: Option<String>,
    pub launcher_pid: u32,
    pub launcher_start_time_ticks: u64,
}

impl Clone for SandboxSessionRegistration {
    fn clone(&self) -> (r: Self)
        ensures
            r == *self,
    {
        SandboxSessionRegistration {
            root_pid: self.root_pid,
            owner_uid: self.owner_uid,
            package: text::copy_opt(&self.package),
            launcher_pid: self.launcher_pid,
            launcher_start_time_ticks: self.launcher_start_time_ticks,
        }
    }
}

/// The cache after the oldest verdicts have left so that at most `limit` stay.
pub open spec fn newest_kept<K>(
    before: Map<K, VerdictEntry>,
    after: Map<K, VerdictEntry>,
    limit: nat,
) -> bool {
    &&& after.submap_of(before)
    &&& before.len() <= limit ==> after == before
    &&& before.len() > limit ==> after.len() == limit
    &&& forall|kept: K, gone: K|
        #![trigger after[kept], before[gone]]
        after.contains_key(kept) && before.contains_key(gone) && !after.contains_key(gone)
            ==> before[gone].time <= after[kept].time
}

/// No more verdicts are remembered than the limit allows.
pub proof fn law_cache_is_bounded<K>(
    before: Map<K, VerdictEntry>,
    after: Map<K, VerdictEntry>,
    limit: nat,
)
    requires
        newest_kept(before, after, limit),
    ensures
        after.len() <= limit,
{
}

/// Where there is room for a verdict at all, one that is newer than all others is remembered.
pub proof fn law_newest_verdict_is_remembered<K>(
    before: Map<K, VerdictEntry>,
    after: Map<K, VerdictEntry>,
    key: K,
    entry: VerdictEntry,
    limit: nat,
)
    requires
        before.dom().finite(),
        newest_kept(before.insert(key, entry), after, limit),
        limit > 0,
        forall|k: K| #[trigger] before.contains_key(k) ==> before[k].time < entry.time,
    ensures
        after.contains_key(key),
        after[key] == entry,
{
    let all = before.insert(key, entry);
    if all.len() > limit && !after.contains_key(key) {
        assert(after.dom().finite()) by {
            assert(after.dom().subset_of(all.dom()));
            vstd::set_lib::lemma_len_subset(after.dom(), all.dom());
        }
        assert(after.dom().len() > 0);
        let kept = after.dom().choose();
        assert(after.contains_key(kept));
        assert(all[key].time <= after[kept].time);
        assert(all.contains_key(kept) && all[kept] == after[kept]);
        assert(before.contains_key(kept));
    }
    assert(after.dom().contains(key));
    assert(all.dom().contains(key));
    assert(after[key] == all[key]);
}

/// Index of an entry that is older than every other one, or as old.
fn oldest<K: TableKey>(cache: &Table<K, VerdictEntry>) -> (r: usize)
    requires
        cache.entries@.len() > 0,
    ensures
        r < cache.entries@.len(),
        forall|j: int|
            0 <= j < cache.entries@.len() ==> cache.entries@[r as int].1.time <= (
            #[trigger] cache.entries@[j]).1.time,
{
    let mut best: usize = 0;
    let mut i: usize = 1;
    while i < cache.entries.len()
        invariant
            best < cache.entries@.len(),
            1 <= i <= cache.entries@.len(),
            forall|j: int|
                0 <= j < i ==> cache.entries@[best as int].1.time <= (
                #[trigger] cache.entries@[j]).1.time,
        decreases cache.entries@.len() - i,
    {
        if cache.entries[i].1.time < cache.entries[best].1.time {
            best = i;
        }
        i += 1;
    }
    best
}

/// Let the oldest verdicts leave until at most `limit` are left.
pub fn enforce_verdict_cache_limit<K: TableKey>(cache: &mut Table<K, VerdictEntry>, limit: usize)
    requires
        old(cache).wf(),
    ensures
        final(cache).wf(),
        newest_kept(old(cache)@, final(cache)@, limit as nat),
{
    let ghost before = old(cache)@;
    proof {
        cache.lemma_len();
    }
    while cache.entries.len() > limit
        invariant
            cache.wf(),
            before.dom().finite(),
            cache@.submap_of(before),
            cache@.len() == cache.entries@.len(),
            before.len() <= limit ==> cache@ == before,
            before.len() > limit ==> cache.entries@.len() >= limit,
            forall|kept: K::V, gone: K::V|
                #![trigger cache@[kept], before[gone]]
                cache@.contains_key(kept) && before.contains_key(gone) && !cache@.contains_key(gone)
                    ==> before[gone].time <= cache@[kept].time,
        decreases cache.entries@.len(),
    {
        let i = oldest(cache);
        let ghost mid = cache@;
        let ghost key = cache.entries@[i as int].0@;
        let ghost table = *cache;
        proof {
            cache.lemma_entry(i as int);
        }
        let _ = cache.remove_at(i);
        proof {
            cache.lemma_len();
            assert(cache@ =~= mid.remove(key));
            assert forall|kept: K::V, gone: K::V|
                #![trigger cache@[kept], before[gone]]
                cache@.contains_key(kept) && before.contains_key(gone) && !cache@.contains_key(
                    gone,
                ) implies before[gone].time <= cache@[kept].time by {
                assert(mid[kept] == cache@[kept]);
                if gone == key {
                    let j = table.lemma_key(kept);
                    assert(table.entries@[i as int].1.time <= table.entries@[j].1.time);
                }
            }
        }
    }
}

} // verus!
