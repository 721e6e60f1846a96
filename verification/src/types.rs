//! Values that requests, rules and replies are made of.

use vstd::prelude::*;

use crate::paths;
use crate::text;

verus! {

/// How long a decision stays in force.
#[derive(Clone, Copy, Debug, PartialEq, Eq, Structural)]
pub enum ApprovalScope {
    Once,
    Session,
    Project,
    Global,
}

/// What a verdict rests on.
#[derive(Debug, PartialEq, Eq)]
pub enum VerdictSource {
    /// A policy rule, with the comment that it carries.
    Policy(Option<String>),
    /// A decision of the given scope.
    Scope(ApprovalScope),
    /// The destination port was missing or zero.
    PortZero,
    /// Nothing allowed the request and nobody could be asked.
    Blocked,
    /// The user refused.
    User,
    /// The path belongs to the sandbox runtime itself.
    Infrastructure,
    /// A rule that the sandbox was started with.
    Static,
}

impl Clone for VerdictSource {
    fn clone(&self) -> (r: Self)
        ensures
            r == *self,
    {
        match self {
            VerdictSource::Policy(comment) => VerdictSource::Policy(text::copy_opt(comment)),
            VerdictSource::Scope(scope) => VerdictSource::Scope(*scope),
            VerdictSource::PortZero => VerdictSource::PortZero,
            VerdictSource::Blocked => VerdictSource::Blocked,
            VerdictSource::User => VerdictSource::User,
            VerdictSource::Infrastructure => VerdictSource::Infrastructure,
            VerdictSource::Static => VerdictSource::Static,
        }
    }
}

impl VerdictSource {
    /// A policy rule without a comment.
    pub fn policy() -> (r: Self)
        ensures
            r == VerdictSource::Policy(None),
    {
        VerdictSource::Policy(None)
    }

    /// A policy rule with a comment.
    pub fn policy_with_comment(comment: &String) -> (r: Self)
        ensures
            r == VerdictSource::Policy(Some(*comment)),
    {
        VerdictSource::Policy(Some(comment.clone()))
    }

    /// The rule with the given comment, if it carries one.
    pub fn of_rule(comment: &Option<String>) -> (r: Self)
        ensures
            r == VerdictSource::Policy(*comment),
    {
        VerdictSource::Policy(text::copy_opt(comment))
    }
}

/// An answer and what it rests on.
#[derive(Debug, PartialEq, Eq)]
pub struct Verdict {
    pub allowed: bool,
    pub source: VerdictSource,
}

impl Clone for Verdict {
    fn clone(&self) -> (r: Self)
        ensures
            r == *self,
    {
        Verdict { allowed: self.allowed, source: self.source.clone() }
    }
}

impl Verdict {
    pub fn allowed(source: VerdictSource) -> (r: Self)
        ensures
            r == (Verdict { allowed: true, source }),
    {
        Verdict { allowed: true, source }
    }

    pub fn denied(source: VerdictSource) -> (r: Self)
        ensures
            r == (Verdict { allowed: false, source }),
    {
        Verdict { allowed: false, source }
    }

    pub fn blocked() -> (r: Self)
        ensures
            r == (Verdict { allowed: false, source: VerdictSource::Blocked }),
    {
        Verdict { allowed: false, source: VerdictSource::Blocked }
    }

    /// The verdict rests on a single-use approval.
    pub open spec fn once(&self) -> bool {
        self.source == VerdictSource::Scope(ApprovalScope::Once)
    }

    pub fn is_once(&self) -> (r: bool)
        ensures
            r == self.once(),
    {
        match &self.source {
            VerdictSource::Scope(scope) => *scope == ApprovalScope::Once,
            _ => false,
        }
    }

    /// A policy rule denies the request.
    pub open spec fn policy_denied(&self) -> bool {
        !self.allowed && self.source is Policy
    }

    pub fn is_policy_denied(&self) -> (r: bool)
        ensures
            r == self.policy_denied(),
    {
        match &self.source {
            VerdictSource::Policy(_) => !self.allowed,
            _ => false,
        }
    }
}

/// Reply to a network check.
#[derive(Debug, PartialEq, Eq)]
pub struct CheckReply {
    pub allowed: bool,
    pub source: VerdictSource,
    pub message: Option<String>,
}

impl Clone for CheckReply {
    fn clone(&self) -> (r: Self)
        ensures
            r == *self,
    {
        CheckReply {
            allowed: self.allowed,
            source: self.source.clone(),
            message: text::copy_opt(&self.message),
        }
    }
}

impl CheckReply {
    /// The reply says that the check was blocked, with the message.
    pub open spec fn says_blocked(self, message: Seq<char>) -> bool {
        &&& !self.allowed
        &&& self.source == VerdictSource::Blocked
        &&& text::opt_text(self.message) == Some(message)
    }

    /// The reply that carries a verdict and no message.
    pub open spec fn of_verdict(verdict: Verdict) -> CheckReply {
        CheckReply { allowed: verdict.allowed, source: verdict.source, message: None }
    }

    pub fn allowed(source: VerdictSource) -> (r: Self)
        ensures
            r == Self::of_verdict(Verdict { allowed: true, source }),
    {
        CheckReply { allowed: true, source, message: None }
    }

    pub fn denied(source: VerdictSource) -> (r: Self)
        ensures
            r == Self::of_verdict(Verdict { allowed: false, source }),
    {
        CheckReply { allowed: false, source, message: None }
    }

    pub fn blocked(message: &str) -> (r: Self)
        ensures
            r.says_blocked(message@),
    {
        CheckReply {
            allowed: false,
            source: VerdictSource::Blocked,
            message: Some(message.to_owned()),
        }
    }

    pub fn from_verdict(verdict: Verdict) -> (r: Self)
        ensures
            r == Self::of_verdict(verdict),
    {
        CheckReply { allowed: verdict.allowed, source: verdict.source, message: None }
    }
}

/// What a file may be used for.
#[derive(Clone, Copy, Debug, PartialEq, Eq, Structural)]
pub enum FileAccess {
    Read,
    Write,
    ReadWrite,
    Execute,
    All,
}

impl FileAccess {
    pub open spec fn reads(self) -> bool {
        self == FileAccess::Read || self == FileAccess::ReadWrite || self == FileAccess::All
    }

    pub open spec fn writes(self) -> bool {
        self == FileAccess::Write || self == FileAccess::ReadWrite || self == FileAccess::All
    }

    pub open spec fn executes(self) -> bool {
        self == FileAccess::Execute || self == FileAccess::All
    }

    /// Every use that `other` permits is permitted.
    pub open spec fn includes(self, other: FileAccess) -> bool {
        &&& other.reads() ==> self.reads()
        &&& other.writes() ==> self.writes()
        &&& other.executes() ==> self.executes()
    }

    pub fn covers(self, other: FileAccess) -> (r: bool)
        ensures
            r == self.includes(other),
    {
        match (self, other) {
            (FileAccess::All, _) => true,
            (FileAccess::ReadWrite, FileAccess::Read) => true,
            (FileAccess::ReadWrite, FileAccess::Write) => true,
            _ => self == other,
        }
    }

    /// The smallest access that includes both.
    pub open spec fn joined(self, other: FileAccess) -> FileAccess {
        if self.includes(other) {
            self
        } else if other.includes(self) {
            other
        } else if self == FileAccess::Execute || other == FileAccess::Execute {
            FileAccess::All
        } else {
            FileAccess::ReadWrite
        }
    }

    /// The smallest access that includes both.
    pub fn union(self, other: FileAccess) -> (r: FileAccess)
        ensures
            r == self.joined(other),
            r.includes(self),
            r.includes(other),
            forall|upper: FileAccess|
                upper.includes(self) && upper.includes(other) ==> #[trigger] upper.includes(r),
    {
        if self.covers(other) {
            self
        } else if other.covers(self) {
            other
        } else if self == FileAccess::Execute || other == FileAccess::Execute {
            FileAccess::All
        } else {
            FileAccess::ReadWrite
        }
    }
}

/// What a Unix socket may be used for.
#[derive(Clone, Copy, Debug, PartialEq, Eq, Structural)]
pub enum SocketAccess {
    Connect,
    Send,
    All,
}

/// What a device node may be used for.
#[derive(Clone, Copy, Debug, PartialEq, Eq, Structural)]
pub enum DeviceAccess {
    Read,
    Write,
    ReadWrite,
}

/// What a resource may be used for.
#[derive(Clone, Copy, Debug, PartialEq, Eq, Structural)]
pub enum ResourceAccess {
    Socket(SocketAccess),
    Device(DeviceAccess),
}

/// The kinds of resource.
#[derive(Clone, Copy, Debug, PartialEq, Eq, Structural)]
pub enum ResourceKind {
    UnixSocket,
    Device,
}

impl SocketAccess {
    /// Every use that `other` permits is permitted.
    pub open spec fn includes(self, other: SocketAccess) -> bool {
        self == other || self == SocketAccess::All
    }
}

impl DeviceAccess {
    /// Every use that `other` permits is permitted.
    pub open spec fn includes(self, other: DeviceAccess) -> bool {
        self == other || self == DeviceAccess::ReadWrite
    }
}

impl ResourceAccess {
    /// Every use that `other` permits is permitted.
    pub open spec fn includes(self, other: ResourceAccess) -> bool {
        match (self, other) {
            (ResourceAccess::Socket(a), ResourceAccess::Socket(b)) => a.includes(b),
            (ResourceAccess::Device(a), ResourceAccess::Device(b)) => a.includes(b),
            _ => false,
        }
    }

    /// The smallest access that includes both, where there is one.
    pub open spec fn joined(self, other: ResourceAccess) -> Option<ResourceAccess> {
        match (self, other) {
            (ResourceAccess::Socket(a), ResourceAccess::Socket(b)) => Some(
                ResourceAccess::Socket(if a == b { a } else { SocketAccess::All }),
            ),
            (ResourceAccess::Device(a), ResourceAccess::Device(b)) => Some(
                ResourceAccess::Device(if a == b { a } else { DeviceAccess::ReadWrite }),
            ),
            _ => None,
        }
    }

    /// The smallest access that includes both; a socket and a device have none.
    pub fn union(self, other: ResourceAccess) -> (r: Option<ResourceAccess>)
        ensures
            r == self.joined(other),
            (r is None) == !exists|upper: ResourceAccess|
                #[trigger] upper.includes(self) && upper.includes(other),
            r matches Some(least) ==> {
                &&& least.includes(self)
                &&& least.includes(other)
                &&& forall|upper: ResourceAccess|
                    upper.includes(self) && upper.includes(other) ==> #[trigger] upper.includes(
                        least,
                    )
            },
    {
        let r = match (self, other) {
            (ResourceAccess::Socket(a), ResourceAccess::Socket(b)) => Some(
                ResourceAccess::Socket(
                    if a == b {
                        a
                    } else {
                        SocketAccess::All
                    },
                ),
            ),
            (ResourceAccess::Device(a), ResourceAccess::Device(b)) => Some(
                ResourceAccess::Device(
                    if a == b {
                        a
                    } else {
                        DeviceAccess::ReadWrite
                    },
                ),
            ),
            _ => None,
        };
        proof {
            if r is Some {
                assert(r->0.includes(self) && r->0.includes(other));
            }
        }
        r
    }
}

/// The directories that a request is made from.
#[derive(Debug, PartialEq, Eq)]
pub struct SandboxPaths {
    pub cwd: Option<String>,
    pub home: Option<String>,
    pub project_root: Option<String>,
}

/// The components of the directories of a request.
pub struct PathsView {
    pub cwd: Option<Seq<Seq<char>>>,
    pub home: Option<Seq<Seq<char>>>,
    pub project_root: Option<Seq<Seq<char>>>,
}

impl View for SandboxPaths {
    type V = PathsView;

    open spec fn view(&self) -> PathsView {
        PathsView {
            cwd: paths::opt_components(self.cwd),
            home: paths::opt_components(self.home),
            project_root: paths::opt_components(self.project_root),
        }
    }
}

impl Clone for SandboxPaths {
    fn clone(&self) -> (r: Self)
        ensures
            r == *self,
    {
        SandboxPaths {
            cwd: text::copy_opt(&self.cwd),
            home: text::copy_opt(&self.home),
            project_root: text::copy_opt(&self.project_root),
        }
    }
}

impl Default for SandboxPaths {
    fn default() -> (r: Self)
        ensures
            r == (SandboxPaths { cwd: None, home: None, project_root: None }),
    {
        SandboxPaths { cwd: None, home: None, project_root: None }
    }
}

impl SandboxPaths {
    pub fn from_wire(
        cwd: Option<String>,
        home: Option<String>,
        project_root: Option<String>,
    ) -> (r: Self)
        ensures
            r == (SandboxPaths { cwd, home, project_root }),
    {
        SandboxPaths { cwd, home, project_root }
    }

    /// The paths with the missing ones filled in.
    pub open spec fn filled(self, other: SandboxPaths) -> SandboxPaths {
        SandboxPaths {
            cwd: if self.cwd is Some { self.cwd } else { other.cwd },
            home: if self.home is Some { self.home } else { other.home },
            project_root: if self.project_root is Some {
                self.project_root
            } else {
                other.project_root
            },
        }
    }

    pub fn merged_with(self, other: &SandboxPaths) -> (r: Self)
        ensures
            r == self.filled(*other),
    {
        SandboxPaths {
            cwd: text::or_opt(self.cwd, &other.cwd),
            home: text::or_opt(self.home, &other.home),
            project_root: text::or_opt(self.project_root, &other.project_root),
        }
    }

    /// Whether the same directories are named.
    pub fn same(&self, other: &SandboxPaths) -> (r: bool)
        ensures
            r == (self@ == other@),
    {
        paths::same_opt_path(&self.cwd, &other.cwd) && paths::same_opt_path(
            &self.home,
            &other.home,
        ) && paths::same_opt_path(&self.project_root, &other.project_root)
    }
}

/// The process that a request is made for.
#[derive(Clone, Copy, Debug, PartialEq, Eq)]
pub struct ProcessIds {
    pub pid: Option<u32>,
    pub uid: Option<u32>,
}

impl ProcessIds {
    pub fn from_options(pid: Option<u32>, uid: Option<u32>) -> (r: Self)
        ensures
            r == (ProcessIds { pid, uid }),
    {
        ProcessIds { pid, uid }
    }
}

impl Default for ProcessIds {
    fn default() -> (r: Self)
        ensures
            r == (ProcessIds { pid: None, uid: None }),
    {
        ProcessIds { pid: None, uid: None }
    }
}

/// The context that a request carries on the wire.
#[derive(Debug, PartialEq, Eq)]
pub struct RequestContext {
    pub cwd: Option<String>,
    pub home: Option<String>,
    pub project_root: Option<String>,
    pub pid: Option<u32>,
    pub uid: Option<u32>,
    pub sandbox_session_id: Option<String>,
}

impl Default for RequestContext {
    fn default() -> (r: Self)
        ensures
            r == (RequestContext {
                cwd: None,
                home: None,
                project_root: None,
                pid: None,
                uid: None,
                sandbox_session_id: None,
            }),
    {
        RequestContext {
            cwd: None,
            home: None,
            project_root: None,
            pid: None,
            uid: None,
            sandbox_session_id: None,
        }
    }
}

/// A wire context with its paths and ids grouped.
#[derive(Debug, PartialEq, Eq)]
pub struct MergeContext {
    pub paths: SandboxPaths,
    pub ids: ProcessIds,
    pub sandbox_session_id: Option<String>,
}

impl MergeContext {
    /// The grouped form of a wire context.
    pub open spec fn grouped(ctx: RequestContext) -> MergeContext {
        MergeContext {
            paths: SandboxPaths { cwd: ctx.cwd, home: ctx.home, project_root: ctx.project_root },
            ids: ProcessIds { pid: ctx.pid, uid: ctx.uid },
            sandbox_session_id: ctx.sandbox_session_id,
        }
    }

    pub fn from_request(ctx: &RequestContext) -> (r: Self)
        ensures
            r == Self::grouped(*ctx),
    {
        MergeContext {
            paths: SandboxPaths {
                cwd: text::copy_opt(&ctx.cwd),
                home: text::copy_opt(&ctx.home),
                project_root: text::copy_opt(&ctx.project_root),
            },
            ids: ProcessIds { pid: ctx.pid, uid: ctx.uid },
            sandbox_session_id: text::copy_opt(&ctx.sandbox_session_id),
        }
    }
}

/// A context whose every field comes from a trusted source.
#[derive(Debug, PartialEq, Eq)]
pub struct ResolvedRequestContext {
    pub paths: SandboxPaths,
    pub ids: ProcessIds,
    pub sandbox_session_id: Option<String>,
    pub package: Option<String>,
}

impl Clone for ResolvedRequestContext {
    fn clone(&self) -> (r: Self)
        ensures
            r == *self,
    {
        ResolvedRequestContext {
            paths: self.paths.clone(),
            ids: self.ids,
            sandbox_session_id: text::copy_opt(&self.sandbox_session_id),
            package: text::copy_opt(&self.package),
        }
    }
}

/// Allow and deny rules of one kind.
#[derive(Clone, Debug, PartialEq, Eq)]
pub struct RuleSet<T> {
    pub allow: Vec<T>,
    pub deny: Vec<T>,
}

impl<T> RuleSet<T> {
    pub fn empty() -> (r: Self)
        ensures
            r.allow@.len() == 0,
            r.deny@.len() == 0,
    {
        RuleSet { allow: Vec::new(), deny: Vec::new() }
    }
}

/// A rule on a destination host and port.
#[derive(Debug, PartialEq, Eq)]
pub struct NetworkRule {
    pub host: String,
    pub port: u16,
    pub comment: Option<String>,
}

/// The comment that a label stands for: an empty label is none.
pub fn label_comment(label: &str) -> (r: Option<String>)
    ensures
        match r {
            Some(s) => s@ == label@ && label@.len() > 0,
            None => label@.len() == 0,
        },
{
    let s = label.to_owned();
    if text::chars_of(label).len() == 0 {
        None
    } else {
        Some(s)
    }
}

/// The view of the comment that a label stands for.
pub open spec fn comment_of(label: Seq<char>) -> Option<Seq<char>> {
    if label.len() == 0 {
        None
    } else {
        Some(label)
    }
}

impl NetworkRule {
    pub fn new(host: String, port: u16, label: &str) -> (r: Self)
        ensures
            r.host == host,
            r.port == port,
            text::opt_text(r.comment) == comment_of(label@),
    {
        NetworkRule { host, port, comment: label_comment(label) }
    }
}

impl Clone for NetworkRule {
    fn clone(&self) -> (r: Self)
        ensures
            r == *self,
    {
        NetworkRule {
            host: self.host.clone(),
            port: self.port,
            comment: text::copy_opt(&self.comment),
        }
    }
}

/// A rule on the files at and below a path.
#[derive(Debug, PartialEq, Eq)]
pub struct FilesystemRule {
    pub path: String,
    pub access: FileAccess,
    pub comment: Option<String>,
}

impl FilesystemRule {
    pub fn new(path: String, access: FileAccess, label: &str) -> (r: Self)
        ensures
            r.path == path,
            r.access == access,
            text::opt_text(r.comment) == comment_of(label@),
    {
        FilesystemRule { path, access, comment: label_comment(label) }
    }
}

impl Clone for FilesystemRule {
    fn clone(&self) -> (r: Self)
        ensures
            r == *self,
    {
        FilesystemRule {
            path: self.path.clone(),
            access: self.access,
            comment: text::copy_opt(&self.comment),
        }
    }
}

/// A rule on sockets or devices at and below a path.
#[derive(Debug, PartialEq, Eq)]
pub struct ResourceRule {
    pub kind: ResourceKind,
    pub path: String,
    pub access: ResourceAccess,
    pub comment: Option<String>,
}

impl ResourceRule {
    pub fn new(kind: ResourceKind, path: String, access: ResourceAccess, label: &str) -> (r: Self)
        ensures
            r.kind == kind,
            r.path == path,
            r.access == access,
            text::opt_text(r.comment) == comment_of(label@),
    {
        ResourceRule { kind, path, access, comment: label_comment(label) }
    }
}

impl Clone for ResourceRule {
    fn clone(&self) -> (r: Self)
        ensures
            r == *self,
    {
        ResourceRule {
            kind: self.kind,
            path: self.path.clone(),
            access: self.access,
            comment: text::copy_opt(&self.comment),
        }
    }
}

/// A rule on the commands that start with the given words.
#[derive(Clone, Debug, PartialEq, Eq)]
pub struct SudoRule {
    pub argv: Vec<String>,
    pub comment: Option<String>,
}

impl SudoRule {
    pub fn new(argv: Vec<String>, label: &str) -> (r: Self)
        ensures
            r.argv == argv,
            text::opt_text(r.comment) == comment_of(label@),
    {
        SudoRule { argv, comment: label_comment(label) }
    }
}

/// A file descriptor that a D-Bus message carries.
#[derive(Debug, PartialEq, Eq)]
pub struct DbusFd {
    pub kind: String,
    pub read_only: bool,
}

/// What a D-Bus message is addressed to.
#[derive(Debug, PartialEq, Eq)]
pub struct DbusTarget {
    pub bus: String,
    pub destination: Option<String>,
    pub object_path: Option<String>,
    pub interface: Option<String>,
    pub member: Option<String>,
    pub message_kind: String,
    pub signature: Option<String>,
    pub fd_metadata: Vec<DbusFd>,
}

/// The view of a D-Bus target.
pub struct DbusTargetView {
    pub bus: Seq<char>,
    pub destination: Option<Seq<char>>,
    pub object_path: Option<Seq<char>>,
    pub interface: Option<Seq<char>>,
    pub member: Option<Seq<char>>,
    pub message_kind: Seq<char>,
    pub signature: Option<Seq<char>>,
    pub fd_metadata: Seq<(Seq<char>, bool)>,
}

impl View for DbusTarget {
    type V = DbusTargetView;

    open spec fn view(&self) -> DbusTargetView {
        DbusTargetView {
            bus: self.bus@,
            destination: text::opt_text(self.destination),
            object_path: text::opt_text(self.object_path),
            interface: text::opt_text(self.interface),
            member: text::opt_text(self.member),
            message_kind: self.message_kind@,
            signature: text::opt_text(self.signature),
            fd_metadata: self.fd_metadata@.map_values(|fd: DbusFd| (fd.kind@, fd.read_only)),
        }
    }
}

fn same_fds(a: &Vec<DbusFd>, b: &Vec<DbusFd>) -> (r: bool)
    ensures
        r == (a@.map_values(|fd: DbusFd| (fd.kind@, fd.read_only)) == b@.map_values(
            |fd: DbusFd| (fd.kind@, fd.read_only),
        )),
{
    let ghost f = |fd: DbusFd| (fd.kind@, fd.read_only);
    if a.len() != b.len() {
        assert(a@.map_values(f).len() != b@.map_values(f).len());
        return false;
    }
    let mut i: usize = 0;
    while i < a.len()
        invariant
            a@.len() == b@.len(),
            i <= a@.len(),
            f == (|fd: DbusFd| (fd.kind@, fd.read_only)),
            forall|j: int|
                0 <= j < i ==> (#[trigger] a@[j]).kind@ == b@[j].kind@ && a@[j].read_only
                    == b@[j].read_only,
        decreases a@.len() - i,
    {
        if a[i].kind != b[i].kind || a[i].read_only != b[i].read_only {
            assert(a@.map_values(f)[i as int] != b@.map_values(f)[i as int]);
            return false;
        }
        i += 1;
    }
    assert(a@.map_values(f) =~= b@.map_values(f));
    true
}

impl DbusTarget {
    /// Whether both targets name the same capability.
    pub fn same(&self, other: &DbusTarget) -> (r: bool)
        ensures
            r == (self@ == other@),
    {
        self.bus == other.bus && text::same_opt(&self.destination, &other.destination)
            && text::same_opt(&self.object_path, &other.object_path) && text::same_opt(
            &self.interface,
            &other.interface,
        ) && text::same_opt(&self.member, &other.member) && self.message_kind == other.message_kind
            && text::same_opt(&self.signature, &other.signature) && same_fds(
            &self.fd_metadata,
            &other.fd_metadata,
        )
    }
}

impl Clone for DbusFd {
    fn clone(&self) -> (r: Self)
        ensures
            r == *self,
    {
        DbusFd { kind: self.kind.clone(), read_only: self.read_only }
    }
}

impl Clone for DbusTarget {
    fn clone(&self) -> (r: Self)
        ensures
            r@ == self@,
    {
        let mut fds: Vec<DbusFd> = Vec::new();
        let mut i: usize = 0;
        while i < self.fd_metadata.len()
            invariant
                i <= self.fd_metadata@.len(),
                fds@.len() == i,
                forall|j: int| 0 <= j < i ==> #[trigger] fds@[j] == self.fd_metadata@[j],
            decreases self.fd_metadata@.len() - i,
        {
            fds.push(self.fd_metadata[i].clone());
            i += 1;
        }
        assert(fds@ =~= self.fd_metadata@);
        DbusTarget {
            bus: self.bus.clone(),
            destination: text::copy_opt(&self.destination),
            object_path: text::copy_opt(&self.object_path),
            interface: text::copy_opt(&self.interface),
            member: text::copy_opt(&self.member),
            message_kind: self.message_kind.clone(),
            signature: text::copy_opt(&self.signature),
            fd_metadata: fds,
        }
    }
}

/// A rule on a D-Bus capability.
#[derive(Clone, Debug, PartialEq, Eq)]
pub struct DbusRule {
    pub target: DbusTarget,
    pub comment: Option<String>,
}

/// A decoded HTTP request.
#[derive(Debug, PartialEq, Eq)]
pub struct HttpRequest {
    pub method: String,
    pub url: String,
}

/// The view of an HTTP request.
pub struct HttpRequestView {
    pub method: Seq<char>,
    pub url: Seq<char>,
}

impl View for HttpRequest {
    type V = HttpRequestView;

    open spec fn view(&self) -> HttpRequestView {
        HttpRequestView { method: self.method@, url: self.url@ }
    }
}

impl Clone for HttpRequest {
    fn clone(&self) -> (r: Self)
        ensures
            r == *self,
    {
        HttpRequest { method: self.method.clone(), url: self.url.clone() }
    }
}

/// The methods that an HTTP target speaks of.
#[derive(Debug, PartialEq, Eq)]
pub enum HttpMethodMatcher {
    All,
    Exact(String),
    AnyOf(Vec<String>),
}

/// The methods and the URL that an HTTP rule or decision speaks of.
#[derive(Debug, PartialEq, Eq)]
pub struct HttpRuleTarget {
    pub method: HttpMethodMatcher,
    pub url: String,
}

/// A rule on HTTP requests. No method at all stands for every method.
#[derive(Clone, Debug, PartialEq, Eq)]
pub struct HttpRule {
    pub methods: Vec<String>,
    pub url: String,
    pub comment: Option<String>,
    /// The normal form of the URL; none where the rule's URL is no valid one.
    pub target_url: Option<String>,
}

/// Direct and HTTP rules on the network.
#[derive(Clone, Debug, PartialEq, Eq)]
pub struct NetworkPolicy {
    pub direct: RuleSet<NetworkRule>,
    pub http: RuleSet<HttpRule>,
}

/// A policy: the rules of every kind.
#[derive(Clone, Debug, PartialEq, Eq)]
pub struct Policy {
    pub network: NetworkPolicy,
    pub filesystem: RuleSet<FilesystemRule>,
    pub resources: RuleSet<ResourceRule>,
    pub sudo: RuleSet<SudoRule>,
    pub dbus: RuleSet<DbusRule>,
}

impl Policy {
    /// A policy without rules.
    pub fn empty() -> (r: Self)
        ensures
            r.network.direct.allow@.len() == 0,
            r.network.direct.deny@.len() == 0,
            r.network.http.allow@.len() == 0,
            r.network.http.deny@.len() == 0,
            r.filesystem.allow@.len() == 0,
            r.filesystem.deny@.len() == 0,
            r.resources.allow@.len() == 0,
            r.resources.deny@.len() == 0,
            r.sudo.allow@.len() == 0,
            r.sudo.deny@.len() == 0,
            r.dbus.allow@.len() == 0,
            r.dbus.deny@.len() == 0,
    {
        Policy {
            network: NetworkPolicy { direct: RuleSet::empty(), http: RuleSet::empty() },
            filesystem: RuleSet::empty(),
            resources: RuleSet::empty(),
            sudo: RuleSet::empty(),
            dbus: RuleSet::empty(),
        }
    }
}

} // verus!
