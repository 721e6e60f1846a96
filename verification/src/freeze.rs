//! Shared holds on frozen cgroups while an approval is awaited.

use vstd::prelude::*;
use vstd::string::*;

use crate::paths;
use crate::scan;
use crate::table::Table;
use crate::table::TableKey;
use crate::text;

verus! {

/// Why a sandbox could not be frozen or thawed.
#[derive(Debug, PartialEq, Eq)]
pub enum CgroupFreezeError {
    ProcessCgroup { pid: u32, reason: String },
    NotCgroupV2 { pid: u32 },
    WrongOwner { pid: u32, expected_uid: u32, actual_uid: u32 },
    UnmanagedScope { pid: u32, path: String },
    InvalidPath(String),
    Freeze { path: String, reason: String },
    Registry(String),
}

/// The view of a freeze error.
pub enum CgroupFreezeErrorView {
    ProcessCgroup { pid: u32, reason: Seq<char> },
    NotCgroupV2 { pid: u32 },
    WrongOwner { pid: u32, expected_uid: u32, actual_uid: u32 },
    UnmanagedScope { pid: u32, path: Seq<char> },
    InvalidPath(Seq<char>),
    Freeze { path: Seq<char>, reason: Seq<char> },
    Registry(Seq<char>),
}

impl View for CgroupFreezeError {
    type V = CgroupFreezeErrorView;

    open spec fn view(&self) -> CgroupFreezeErrorView {
        match *self {
            CgroupFreezeError::ProcessCgroup { pid, reason } =>
                CgroupFreezeErrorView::ProcessCgroup { pid, reason: reason@ },
            CgroupFreezeError::NotCgroupV2 { pid } => CgroupFreezeErrorView::NotCgroupV2 { pid },
            CgroupFreezeError::WrongOwner { pid, expected_uid, actual_uid } =>
                CgroupFreezeErrorView::WrongOwner { pid, expected_uid, actual_uid },
            CgroupFreezeError::UnmanagedScope { pid, path } =>
                CgroupFreezeErrorView::UnmanagedScope { pid, path: path@ },
            CgroupFreezeError::InvalidPath(path) => CgroupFreezeErrorView::InvalidPath(path@),
            CgroupFreezeError::Freeze { path, reason } => CgroupFreezeErrorView::Freeze {
                path: path@,
                reason: reason@,
            },
            CgroupFreezeError::Registry(reason) => CgroupFreezeErrorView::Registry(reason@),
        }
    }
}

impl CgroupFreezeErrorView {
    /// The message of the error.
    pub open spec fn described(self) -> Seq<char> {
        match self {
            CgroupFreezeErrorView::ProcessCgroup { pid, reason } => "cannot read cgroup for pid "@
                + text::decimal_text(pid as nat) + (": "@ + reason),
            CgroupFreezeErrorView::NotCgroupV2 { pid } => "pid "@ + text::decimal_text(pid as nat)
                + " is not in a cgroup v2 hierarchy"@,
            CgroupFreezeErrorView::WrongOwner { pid, expected_uid, actual_uid } => "pid "@
                + text::decimal_text(pid as nat) + (" is not owned by uid "@ + text::decimal_text(
                expected_uid as nat,
            ) + (" (actual uid "@ + text::decimal_text(actual_uid as nat) + ")"@)),
            CgroupFreezeErrorView::UnmanagedScope { pid, path } => "pid "@ + text::decimal_text(
                pid as nat,
            ) + (" is not in an agent-sandbox systemd scope: "@ + path),
            CgroupFreezeErrorView::InvalidPath(path) => "cgroup freezer path is invalid: "@ + path,
            CgroupFreezeErrorView::Freeze { path, reason } => "cannot freeze cgroup "@ + path + (
            ": "@ + reason),
            CgroupFreezeErrorView::Registry(reason) => "cannot persist cgroup freeze state: "@
                + reason,
        }
    }
}

impl CgroupFreezeError {
    /// The message of the error.
    pub fn message(&self) -> (r: String)
        ensures
            r@ == self@.described(),
    {
        match self {
            CgroupFreezeError::ProcessCgroup { pid, reason } => text::join3(
                "cannot read cgroup for pid ",
                text::decimal(*pid as u64).as_str(),
                text::join2(": ", reason.as_str()).as_str(),
            ),
            CgroupFreezeError::NotCgroupV2 { pid } => text::join3(
                "pid ",
                text::decimal(*pid as u64).as_str(),
                " is not in a cgroup v2 hierarchy",
            ),
            CgroupFreezeError::WrongOwner { pid, expected_uid, actual_uid } => text::join3(
                "pid ",
                text::decimal(*pid as u64).as_str(),
                text::join3(
                    " is not owned by uid ",
                    text::decimal(*expected_uid as u64).as_str(),
                    text::join3(
                        " (actual uid ",
                        text::decimal(*actual_uid as u64).as_str(),
                        ")",
                    ).as_str(),
                ).as_str(),
            ),
            CgroupFreezeError::UnmanagedScope { pid, path } => text::join3(
                "pid ",
                text::decimal(*pid as u64).as_str(),
                text::join2(
                    " is not in an agent-sandbox systemd scope: ",
                    path.as_str(),
                ).as_str(),
            ),
            CgroupFreezeError::InvalidPath(path) => text::join2(
                "cgroup freezer path is invalid: ",
                path.as_str(),
            ),
            CgroupFreezeError::Freeze { path, reason } => text::join3(
                "cannot freeze cgroup ",
                path.as_str(),
                text::join2(": ", reason.as_str()).as_str(),
            ),
            CgroupFreezeError::Registry(reason) => text::join2(
                "cannot persist cgroup freeze state: ",
                reason.as_str(),
            ),
        }
    }
}

/// What follows the prefix in the first line that has it.
pub open spec fn first_after(lines: Seq<Seq<char>>, prefix: Seq<char>) -> Option<Seq<char>>
    decreases lines.len(),
{
    if lines.len() == 0 {
        None
    } else if scan::after_prefix(lines[0], prefix) is Some {
        scan::after_prefix(lines[0], prefix)
    } else {
        first_after(lines.skip(1), prefix)
    }
}

/// What follows the prefix in the first line of a file that has it.
pub fn line_after(contents: &str, prefix: &str) -> (r: Option<Vec<char>>)
    ensures
        match r {
            Some(rest) => first_after(scan::lines_of(contents@), prefix@) == Some(rest@),
            None => first_after(scan::lines_of(contents@), prefix@) is None,
        },
{
    let lines = scan::lines(&text::chars_of(contents));
    let ghost ls = scan::pieces(lines@);
    let mut i: usize = 0;
    assert(ls.skip(0) =~= ls);
    while i < lines.len()
        invariant
            i <= lines@.len(),
            ls == scan::pieces(lines@),
            ls == scan::lines_of(contents@),
            first_after(ls, prefix@) == first_after(ls.skip(i as int), prefix@),
        decreases lines@.len() - i,
    {
        assert(ls.skip(i as int)[0] == lines@[i as int]@);
        match scan::strip_prefix(&lines[i], prefix) {
            Some(rest) => {
                return Some(rest);
            },
            None => {},
        }
        assert(ls.skip(i as int).skip(1) =~= ls.skip(i + 1));
        i += 1;
    }
    None
}

/// The real uid in the text of a process status file.
pub open spec fn status_uid(status: Seq<char>) -> Option<nat> {
    match first_after(scan::lines_of(status), "Uid:"@) {
        Some(rest) => if scan::words_of(rest).len() == 0 {
            None
        } else {
            match scan::number_of(scan::words_of(rest)[0]) {
                Some(n) => if n <= u32::MAX {
                    Some(n)
                } else {
                    None
                },
                None => None,
            }
        },
        None => None,
    }
}

/// The uid that owns a process, from the text of its status file.
pub open spec fn process_owner(pid: u32, status: Result<String, String>) -> Result<
    u32,
    CgroupFreezeErrorView,
> {
    match status {
        Err(reason) => Err(CgroupFreezeErrorView::ProcessCgroup { pid, reason: reason@ }),
        Ok(contents) => match status_uid(contents@) {
            Some(uid) => Ok(uid as u32),
            None => Err(
                CgroupFreezeErrorView::ProcessCgroup { pid, reason: "missing process uid"@ },
            ),
        },
    }
}

fn process_uid(pid: u32, status: &Result<String, String>) -> (r: Result<u32, CgroupFreezeError>)
    ensures
        match r {
            Ok(uid) => process_owner(pid, *status) == Ok::<u32, CgroupFreezeErrorView>(uid),
            Err(e) => process_owner(pid, *status) == Err::<u32, CgroupFreezeErrorView>(e@),
        },
{
    match status {
        Err(reason) => Err(CgroupFreezeError::ProcessCgroup { pid, reason: reason.clone() }),
        Ok(contents) => {
            let mut uid: Option<u64> = None;
            if let Some(rest) = line_after(contents.as_str(), "Uid:") {
                let words = scan::words(&rest);
                if words.len() > 0 {
                    assert(scan::pieces(words@)[0] == words@[0]@);
                    uid = scan::number(&words[0], u32::MAX as u64);
                }
            }
            match uid {
                Some(n) => Ok(n as u32),
                None => Err(
                    CgroupFreezeError::ProcessCgroup {
                        pid,
                        reason: "missing process uid".to_owned(),
                    },
                ),
            }
        },
    }
}

/// The text is `scope` up to the case of its letters.
pub open spec fn spells_scope(s: Seq<char>) -> bool {
    &&& s.len() == 5
    &&& s[0] == 's' || s[0] == 'S'
    &&& s[1] == 'c' || s[1] == 'C'
    &&& s[2] == 'o' || s[2] == 'O'
    &&& s[3] == 'p' || s[3] == 'P'
    &&& s[4] == 'e' || s[4] == 'E'
}

/// The component is the name of a systemd scope that the sandbox launcher made: its prefix, a
/// name that does not begin with the last dot, and the scope suffix.
pub open spec fn scope_name(component: Seq<char>) -> bool {
    match scan::after_prefix(component, "agent-sandbox-"@) {
        Some(suffix) => match scan::after_last(suffix, '.') {
            Some(extension) => extension.len() + 1 < suffix.len() && spells_scope(extension),
            None => false,
        },
        None => false,
    }
}

/// Some component of the path names a scope of the sandbox launcher.
pub open spec fn agent_scope(path: Seq<char>) -> bool {
    exists|i: int|
        0 <= i < paths::components(path).len() && scope_name(
            #[trigger] paths::components(path)[i],
        )
}

fn is_scope_name(component: &Vec<char>) -> (r: bool)
    ensures
        r == scope_name(component@),
{
    match scan::strip_prefix(component, "agent-sandbox-") {
        None => false,
        Some(suffix) => match scan::after_last_of(&suffix, '.') {
            None => false,
            Some(e) => e.len() == 5 && suffix.len() > 6 && (e[0] == 's' || e[0] == 'S')
                && (e[1] == 'c' || e[1] == 'C') && (e[2] == 'o' || e[2] == 'O') && (e[3] == 'p'
                || e[3] == 'P') && (e[4] == 'e' || e[4] == 'E'),
        },
    }
}

/// Whether a cgroup path lies in a scope of the sandbox launcher.
pub fn is_agent_scope(path: &str) -> (r: bool)
    ensures
        r == agent_scope(path@),
{
    let parts = paths::components_of(path);
    let ghost ps = scan::pieces(parts@);
    let mut i: usize = 0;
    while i < parts.len()
        invariant
            i <= parts@.len(),
            ps == scan::pieces(parts@),
            ps == paths::components(path@),
            forall|j: int| 0 <= j < i ==> !scope_name(#[trigger] ps[j]),
        decreases parts@.len() - i,
    {
        if is_scope_name(&parts[i]) {
            assert(scope_name(ps[i as int]));
            return true;
        }
        assert(ps[i as int] == parts@[i as int]@);
        i += 1;
    }
    false
}

/// A text without the slashes in front.
pub open spec fn without_leading_slashes(s: Seq<char>) -> Seq<char> {
    s.skip(scan::first_where(s, |c: char| c != '/'))
}

/// The directory of a cgroup, from its path in the hierarchy.
pub open spec fn cgroup_dir(relative: Seq<char>) -> Seq<char> {
    "/sys/fs/cgroup/"@ + without_leading_slashes(relative)
}

fn strip_slashes(s: &Vec<char>) -> (r: String)
    ensures
        r@ == without_leading_slashes(s@),
{
    let ghost p = |c: char| c != '/';
    let mut start: usize = 0;
    while start < s.len() && s[start] == '/'
        invariant
            start <= s@.len(),
            forall|j: int| 0 <= j < start ==> #[trigger] s@[j] == '/',
        decreases s@.len() - start,
    {
        start += 1;
    }
    proof {
        scan::lemma_first_where(s@, p);
        let f = scan::first_where(s@, p);
        if f < start {
            assert(s@[f] == '/');
        } else if start < f {
            assert(!p(s@[start as int]));
        }
    }
    let mut r = String::new();
    let mut i: usize = start;
    while i < s.len()
        invariant
            start <= i <= s@.len(),
            r@ == s@.subrange(start as int, i as int),
        decreases s@.len() - i,
    {
        r.push(s[i]);
        i += 1;
        assert(r@ =~= s@.subrange(start as int, i as int));
    }
    assert(r@ =~= s@.skip(start as int));
    r
}

/// The cgroup to freeze for a process, from its status and cgroup files and what is on disk.
pub open spec fn cgroup_found<F: Fn(&String) -> bool>(
    pid: u32,
    expected_uid: Option<u32>,
    status: Result<String, String>,
    cgroup: Result<String, String>,
    freezer: F,
    found: Result<String, CgroupFreezeError>,
) -> bool {
    let owner = process_owner(pid, status);
    if expected_uid is Some && owner is Err {
        found matches Err(e) && e@ == owner->Err_0
    } else if expected_uid is Some && owner->Ok_0 != expected_uid->0 {
        found matches Err(e) && e@ == (CgroupFreezeErrorView::WrongOwner {
            pid,
            expected_uid: expected_uid->0,
            actual_uid: owner->Ok_0,
        })
    } else {
        match cgroup {
            Err(reason) => found matches Err(e) && e@ == (CgroupFreezeErrorView::ProcessCgroup {
                pid,
                reason: reason@,
            }),
            Ok(contents) => match first_after(scan::lines_of(contents@), "0::"@) {
                None => found matches Err(e) && e@ == (CgroupFreezeErrorView::NotCgroupV2 { pid }),
                Some(relative) => {
                    let path = cgroup_dir(relative);
                    if !agent_scope(path) {
                        found matches Err(e) && e@ == (CgroupFreezeErrorView::UnmanagedScope {
                            pid,
                            path,
                        })
                    } else {
                        match found {
                            Ok(dir) => dir@ == path && text::holds(freezer, dir),
                            Err(e) => {
                                &&& e matches CgroupFreezeError::InvalidPath(dir)
                                &&& dir@ == path
                                &&& !text::holds(freezer, dir)
                            },
                        }
                    }
                },
            },
        }
    }
}

/// Find the cgroup that an approval for the process freezes. `freezer` tells whether a cgroup
/// directory has a freezer file.
pub fn cgroup_for_pid<F: Fn(&String) -> bool>(
    pid: u32,
    expected_uid: Option<u32>,
    status: &Result<String, String>,
    cgroup: &Result<String, String>,
    freezer: F,
) -> (r: Result<String, CgroupFreezeError>)
    requires
        text::decides(freezer),
    ensures
        cgroup_found(pid, expected_uid, *status, *cgroup, freezer, r),
{
    if let Some(expected) = expected_uid {
        match process_uid(pid, status) {
            Err(e) => {
                return Err(e);
            },
            Ok(actual) => {
                if actual != expected {
                    return Err(
                        CgroupFreezeError::WrongOwner {
                            pid,
                            expected_uid: expected,
                            actual_uid: actual,
                        },
                    );
                }
            },
        }
    }
    match cgroup {
        Err(reason) => Err(CgroupFreezeError::ProcessCgroup { pid, reason: reason.clone() }),
        Ok(contents) => match line_after(contents.as_str(), "0::") {
            None => Err(CgroupFreezeError::NotCgroupV2 { pid }),
            Some(relative) => {
                let path = text::join2("/sys/fs/cgroup/", strip_slashes(&relative).as_str());
                if !is_agent_scope(path.as_str()) {
                    return Err(CgroupFreezeError::UnmanagedScope { pid, path });
                }
                if !freezer(&path) {
                    return Err(CgroupFreezeError::InvalidPath(path));
                }
                Ok(path)
            },
        },
    }
}

/// A cgroup directory. Two of them are the same cgroup when their components agree.
#[derive(Debug)]
pub struct CgroupPath {
    pub path: String,
}

impl View for CgroupPath {
    type V = Seq<Seq<char>>;

    open spec fn view(&self) -> Seq<Seq<char>> {
        paths::components(self.path@)
    }
}

impl TableKey for CgroupPath {
    fn same(&self, other: &Self) -> (r: bool) {
        paths::same_path(self.path.as_str(), other.path.as_str())
    }

    fn duplicate(&self) -> (r: Self) {
        CgroupPath { path: self.path.clone() }
    }
}

/// The number of approvals that hold each cgroup, which goes by its components.
pub type Holds = Map<Seq<Seq<char>>, usize>;

/// The holds after one more approval waits in the cgroup.
pub open spec fn acquired(holds: Holds, cgroup: Seq<Seq<char>>) -> Holds {
    holds.insert(
        cgroup,
        if holds.contains_key(cgroup) {
            (holds[cgroup] + 1) as usize
        } else {
            1
        },
    )
}

/// The holds after one approval less waits in the cgroup. The last hold stays where the cgroup
/// could not be thawed.
pub open spec fn released(holds: Holds, cgroup: Seq<Seq<char>>, thawed: bool) -> Holds {
    if !holds.contains_key(cgroup) {
        holds
    } else if holds[cgroup] > 1 {
        holds.insert(cgroup, (holds[cgroup] - 1) as usize)
    } else if thawed {
        holds.remove(cgroup)
    } else {
        holds
    }
}

/// Giving a hold on the cgroup back thaws it: it is the last one.
pub open spec fn thaws(holds: Holds, cgroup: Seq<Seq<char>>) -> bool {
    holds.contains_key(cgroup) && holds[cgroup] == 1
}

/// A hold that is given back leaves the holds as they were, where the cgroup thaws.
pub proof fn law_release_undoes_acquire(holds: Holds, cgroup: Seq<Seq<char>>)
    requires
        holds.contains_key(cgroup) ==> 1 <= holds[cgroup] < usize::MAX,
    ensures
        released(acquired(holds, cgroup), cgroup, true) == holds,
{
    assert(released(acquired(holds, cgroup), cgroup, true) =~= holds);
}

/// A cgroup is thawed exactly when the hold that was first taken, with none beside it, is given
/// back: each hold that is taken while another is kept is given back without a thaw.
pub proof fn law_only_last_release_thaws(holds: Holds, cgroup: Seq<Seq<char>>)
    requires
        holds.contains_key(cgroup) ==> 1 <= holds[cgroup] < usize::MAX,
    ensures
        thaws(acquired(holds, cgroup), cgroup) == !holds.contains_key(cgroup),
{
}

/// Only the last of several holds on a cgroup thaws it: until then the cgroup keeps a hold, and
/// no thaw is asked for.
pub proof fn law_earlier_release_keeps_hold(holds: Holds, cgroup: Seq<Seq<char>>, thawed: bool)
    requires
        holds.contains_key(cgroup),
        holds[cgroup] > 1,
    ensures
        released(holds, cgroup, thawed).contains_key(cgroup),
        !thaws(holds, cgroup),
{
}

/// Exactly the held cgroups are frozen after a hold is taken, where they were before: the first
/// hold on a cgroup freezes it, and no other does.
pub proof fn law_taking_a_hold_keeps_the_held_frozen(
    holds: Holds,
    frozen: Set<Seq<Seq<char>>>,
    cgroup: Seq<Seq<char>>,
)
    requires
        frozen == holds.dom(),
    ensures
        acquired(holds, cgroup).dom() == if holds.contains_key(cgroup) {
            frozen
        } else {
            frozen.insert(cgroup)
        },
{
    assert(acquired(holds, cgroup).dom() =~= frozen.insert(cgroup));
    if holds.contains_key(cgroup) {
        assert(frozen.insert(cgroup) =~= frozen);
    }
}

/// Exactly the held cgroups are frozen after a hold is given back, where they were before,
/// whether or not a thaw that was asked for was done.
pub proof fn law_giving_a_hold_back_keeps_the_held_frozen(
    holds: Holds,
    frozen: Set<Seq<Seq<char>>>,
    cgroup: Seq<Seq<char>>,
    thawed: bool,
)
    requires
        frozen == holds.dom(),
        holds.contains_key(cgroup) ==> holds[cgroup] >= 1,
    ensures
        released(holds, cgroup, thawed).dom() == if thaws(holds, cgroup) && thawed {
            frozen.remove(cgroup)
        } else {
            frozen
        },
{
    let after = released(holds, cgroup, thawed).dom();
    if thaws(holds, cgroup) && thawed {
        assert(after =~= frozen.remove(cgroup));
    } else {
        assert(after =~= frozen);
    }
}

/// The list names each cgroup of the set once, and no other.
pub open spec fn lists(list: Seq<Seq<char>>, cgroups: Set<Seq<Seq<char>>>) -> bool {
    &&& forall|i: int, j: int|
        0 <= i < j < list.len() ==> paths::components(#[trigger] list[i]) != paths::components(
            #[trigger] list[j],
        )
    &&& forall|i: int|
        0 <= i < list.len() ==> cgroups.contains(paths::components(#[trigger] list[i]))
    &&& forall|c: Seq<Seq<char>>| #[trigger]
        cgroups.contains(c) ==> exists|i: int|
            0 <= i < list.len() && paths::components(#[trigger] list[i]) == c
}

/// The second list is the first one without the cgroup.
pub open spec fn struck(
    before: Seq<Seq<char>>,
    after: Seq<Seq<char>>,
    cgroup: Seq<Seq<char>>,
) -> bool {
    exists|i: int|
        0 <= i < before.len() && paths::components(#[trigger] before[i]) == cgroup && after
            == before.remove(i)
}

/// A cgroup that is written down and struck again leaves the list as it was.
pub proof fn law_striking_undoes_listing(
    list: Seq<Seq<char>>,
    path: Seq<char>,
    after: Seq<Seq<char>>,
)
    requires
        forall|i: int|
            0 <= i < list.len() ==> paths::components(#[trigger] list[i]) != paths::components(path),
        struck(list.push(path), after, paths::components(path)),
    ensures
        after == list,
{
    let whole = list.push(path);
    let i = choose|i: int|
        0 <= i < whole.len() && paths::components(#[trigger] whole[i]) == paths::components(path)
            && after == whole.remove(i);
    if i < list.len() {
        assert(whole[i] == list[i]);
    }
    assert(after =~= list);
}

/// A share in a frozen cgroup.
#[derive(Debug, PartialEq, Eq)]
pub struct CgroupFreezeHold {
    pub path: String,
}

/// A hold that is counted but not written down yet.
#[derive(Debug, PartialEq, Eq)]
pub struct PendingHold {
    pub path: String,
    /// Whether the cgroup was not held before.
    pub first: bool,
}

/// What taking a hold asks for next.
#[derive(Debug, PartialEq, Eq)]
pub enum AcquireStep {
    /// Nothing is frozen.
    Nothing,
    /// Write the list down, then go on with [`CgroupFreezeManager::on_persisted`].
    Persist { list: Vec<String>, pending: PendingHold },
}

/// What a hold that was to be written down asks for next.
#[derive(Debug, PartialEq, Eq)]
pub enum PersistedStep {
    /// Freeze the cgroup, then go on with [`CgroupFreezeManager::on_frozen`].
    Freeze(String),
    /// The hold is taken.
    Held(CgroupFreezeHold),
    /// The hold is not taken.
    Failed(CgroupFreezeError),
}

/// What a cgroup that was to be frozen asks for next.
#[derive(Debug, PartialEq, Eq)]
pub enum FrozenStep {
    /// The hold is taken.
    Held(CgroupFreezeHold),
    /// The hold is not taken: write the list down, whatever comes of it.
    Persist { list: Vec<String>, error: CgroupFreezeError },
}

/// What giving a hold back asks for next.
#[derive(Debug, PartialEq, Eq)]
pub enum ReleaseStep {
    /// Thaw the cgroup, then go on with [`CgroupFreezeManager::thawed`].
    Thaw(String),
    /// Write the list down.
    Persist(Vec<String>),
}

/// Which cgroups are held frozen, and by how many approvals.
pub struct CgroupFreezeManager {
    pub holds: Table<CgroupPath, usize>,
    /// Where the held cgroups are written down.
    pub registry: String,
    /// Whether cgroups that an earlier daemon left frozen are to be thawed first.
    pub recover: bool,
}

/// The file that the held cgroups are written down in.
pub open spec fn registry_path(configured: Option<String>) -> Seq<char> {
    match configured {
        Some(path) => path@,
        None => "/run/agent-sandbox/cgroup-freeze"@,
    }
}

impl CgroupFreezeManager {
    /// Every cgroup that is listed is held by someone.
    pub open spec fn wf(&self) -> bool {
        &&& self.holds.wf()
        &&& forall|c: Seq<Seq<char>>| #[trigger]
            self.holds@.contains_key(c) ==> self.holds@[c] >= 1
    }

    /// The held cgroups as they were first named, in the order in which they were first held.
    pub open spec fn written(&self) -> Seq<Seq<char>> {
        self.holds.entries@.map_values(|e: (CgroupPath, usize)| e.0.path@)
    }

    /// The list is what recovery needs: each held cgroup, once.
    pub open spec fn recovery_list(&self, list: Vec<String>) -> bool {
        &&& text::texts(list@) == self.written()
        &&& lists(text::texts(list@), self.holds@.dom())
    }

    /// The two managers have the same settings.
    pub open spec fn same_settings(&self, other: &Self) -> bool {
        self.registry == other.registry && self.recover == other.recover
    }

    /// A manager without holds that first recovers what an earlier daemon left behind.
    pub fn new(configured: Option<String>) -> (r: Self)
        ensures
            r.wf(),
            r.holds@ == Holds::empty(),
            r.holds.vacant(),
            r.registry@ == registry_path(configured),
            r.recover,
    {
        Self::new_with_recovery(configured, true)
    }

    /// A manager without holds that leaves an earlier daemon's cgroups alone.
    pub fn new_without_recovery(configured: Option<String>) -> (r: Self)
        ensures
            r.wf(),
            r.holds@ == Holds::empty(),
            r.holds.vacant(),
            r.registry@ == registry_path(configured),
            !r.recover,
    {
        Self::new_with_recovery(configured, false)
    }

    fn new_with_recovery(configured: Option<String>, recover: bool) -> (r: Self)
        ensures
            r.wf(),
            r.holds@ == Holds::empty(),
            r.holds.vacant(),
            r.registry@ == registry_path(configured),
            r.recover == recover,
    {
        let registry = match configured {
            Some(path) => path,
            None => "/run/agent-sandbox/cgroup-freeze".to_owned(),
        };
        CgroupFreezeManager { holds: Table::new(), registry, recover }
    }

    /// The cgroups to write down for recovery.
    pub fn held(&self) -> (r: Vec<String>)
        requires
            self.wf(),
        ensures
            self.recovery_list(r),
    {
        let mut r: Vec<String> = Vec::new();
        let mut i: usize = 0;
        while i < self.holds.entries.len()
            invariant
                i <= self.holds.entries@.len(),
                r@.len() == i,
                forall|j: int|
                    0 <= j < i ==> (#[trigger] r@[j])@ == self.holds.entries@[j].0.path@,
            decreases self.holds.entries@.len() - i,
        {
            r.push(self.holds.entries[i].0.path.clone());
            i += 1;
        }
        proof {
            let t = text::texts(r@);
            assert(t =~= self.written());
            self.lemma_written();
        }
        r
    }

    /// What is written down names each held cgroup once.
    pub proof fn lemma_written(&self)
        requires
            self.wf(),
        ensures
            lists(self.written(), self.holds@.dom()),
    {
        let w = self.written();
        let entries = self.holds.entries@;
        assert forall|i: int, j: int| 0 <= i < j < w.len() implies paths::components(
            #[trigger] w[i],
        ) != paths::components(#[trigger] w[j]) by {
            assert(entries[i].0@ != entries[j].0@);
        }
        assert forall|i: int| 0 <= i < w.len() implies self.holds@.dom().contains(
            paths::components(#[trigger] w[i]),
        ) by {
            self.holds.lemma_entry(i);
            assert(entries[i].0@ == paths::components(w[i]));
        }
        assert forall|c: Seq<Seq<char>>| #[trigger] self.holds@.dom().contains(c) implies exists|
            i: int,
        |
            0 <= i < w.len() && paths::components(#[trigger] w[i]) == c by {
            let i = self.holds.lemma_key(c);
            assert(paths::components(w[i]) == c);
        }
    }

    /// Count one hold less on a cgroup; the last one leaves.
    fn take_back(&mut self, path: &String)
        requires
            old(self).wf(),
            old(self).holds@.contains_key(paths::components(path@)),
        ensures
            final(self).wf(),
            final(self).same_settings(old(self)),
            final(self).holds@ == released(old(self).holds@, paths::components(path@), true),
            if thaws(old(self).holds@, paths::components(path@)) {
                struck(old(self).written(), final(self).written(), paths::components(path@))
            } else {
                final(self).written() == old(self).written()
            },
    {
        let ghost c = paths::components(path@);
        let key = CgroupPath { path: path.clone() };
        assert(key@ == c);
        if let Some(i) = self.holds.find(&key) {
            let count = self.holds.entries[i].1;
            if count > 1 {
                self.holds.set_at(i, count - 1);
                assert(self.holds@ =~= released(old(self).holds@, c, true));
                assert(self.written() =~= old(self).written());
            } else {
                let _ = self.holds.remove_at(i);
                assert(self.holds@ =~= released(old(self).holds@, c, true));
                assert(self.written() =~= old(self).written().remove(i as int));
                assert(paths::components(old(self).written()[i as int]) == c);
            }
        }
    }

    /// Begin to freeze the sandbox scope of a process, and to share the hold with other
    /// approvals for the same scope. `found` is what [`cgroup_for_pid`] found. The hold is
    /// counted, and is to be written down before anything is frozen. Without a process, or
    /// without a scope to freeze, nothing is counted and nothing is to be written.
    pub fn acquire(
        &mut self,
        pid: Option<u32>,
        found: Result<String, CgroupFreezeError>,
    ) -> (r: Result<AcquireStep, CgroupFreezeError>)
        requires
            old(self).wf(),
            match found {
                Ok(path) => old(self).holds@.contains_key(paths::components(path@)) ==> old(
                    self,
                ).holds@[paths::components(path@)] < usize::MAX,
                Err(_) => true,
            },
        ensures
            final(self).wf(),
            final(self).same_settings(old(self)),
            match (pid, found) {
                (None, _) => {
                    &&& r == Ok::<AcquireStep, CgroupFreezeError>(AcquireStep::Nothing)
                    &&& *final(self) == *old(self)
                },
                (Some(_), Err(e)) => {
                    &&& r == Err::<AcquireStep, CgroupFreezeError>(e)
                    &&& *final(self) == *old(self)
                },
                (Some(_), Ok(path)) => {
                    let cgroup = paths::components(path@);
                    &&& r matches Ok(AcquireStep::Persist { list, pending })
                    &&& pending == (PendingHold {
                        path,
                        first: !old(self).holds@.contains_key(cgroup),
                    })
                    &&& final(self).holds@ == acquired(old(self).holds@, cgroup)
                    &&& final(self).written() == if pending.first {
                        old(self).written().push(path@)
                    } else {
                        old(self).written()
                    }
                    &&& final(self).recovery_list(list)
                },
            },
    {
        if pid.is_none() {
            return Ok(AcquireStep::Nothing);
        }
        let path = match found {
            Ok(path) => path,
            Err(e) => {
                return Err(e);
            },
        };
        let ghost c = paths::components(path@);
        let key = CgroupPath { path: path.clone() };
        assert(key@ == c);
        let first = match self.holds.find(&key) {
            Some(i) => {
                let count = self.holds.entries[i].1;
                self.holds.set_at(i, count + 1);
                assert(self.written() =~= old(self).written());
                false
            },
            None => {
                let _ = self.holds.insert(key, 1);
                assert(self.written() =~= old(self).written().push(path@));
                true
            },
        };
        assert(self.holds@ =~= acquired(old(self).holds@, c));
        let list = self.held();
        Ok(AcquireStep::Persist { list, pending: PendingHold { path, first } })
    }

    /// Go on after the list of a begun hold was, or was not, written down. Only then, and only
    /// for the first hold on it, a cgroup is frozen; where the list was not written, the hold
    /// is taken back and nothing is frozen.
    pub fn on_persisted(&mut self, pending: PendingHold, written: Result<(), String>) -> (r:
        PersistedStep)
        requires
            old(self).wf(),
            old(self).holds@.contains_key(paths::components(pending.path@)),
        ensures
            final(self).wf(),
            final(self).same_settings(old(self)),
            match written {
                Ok(_) => {
                    &&& *final(self) == *old(self)
                    &&& r == if pending.first {
                        PersistedStep::Freeze(pending.path)
                    } else {
                        PersistedStep::Held(CgroupFreezeHold { path: pending.path })
                    }
                },
                Err(reason) => {
                    let cgroup = paths::components(pending.path@);
                    &&& r == PersistedStep::Failed(CgroupFreezeError::Registry(reason))
                    &&& final(self).holds@ == released(old(self).holds@, cgroup, true)
                    &&& if thaws(old(self).holds@, cgroup) {
                        struck(old(self).written(), final(self).written(), cgroup)
                    } else {
                        final(self).written() == old(self).written()
                    }
                },
            },
    {
        match written {
            Ok(_) => if pending.first {
                PersistedStep::Freeze(pending.path)
            } else {
                PersistedStep::Held(CgroupFreezeHold { path: pending.path })
            },
            Err(reason) => {
                self.take_back(&pending.path);
                PersistedStep::Failed(CgroupFreezeError::Registry(reason))
            },
        }
    }

    /// Go on after a cgroup was, or was not, frozen. Where it was not, the hold is taken back
    /// and the list without it is to be written down.
    pub fn on_frozen(&mut self, path: String, frozen: Result<(), String>) -> (r: FrozenStep)
        requires
            old(self).wf(),
            old(self).holds@.contains_key(paths::components(path@)),
        ensures
            final(self).wf(),
            final(self).same_settings(old(self)),
            match frozen {
                Ok(_) => {
                    &&& *final(self) == *old(self)
                    &&& r == FrozenStep::Held(CgroupFreezeHold { path })
                },
                Err(reason) => {
                    let cgroup = paths::components(path@);
                    &&& r matches FrozenStep::Persist { list, error }
                    &&& error == (CgroupFreezeError::Freeze { path, reason })
                    &&& final(self).holds@ == released(old(self).holds@, cgroup, true)
                    &&& if thaws(old(self).holds@, cgroup) {
                        struck(old(self).written(), final(self).written(), cgroup)
                    } else {
                        final(self).written() == old(self).written()
                    }
                    &&& final(self).recovery_list(list)
                },
            },
    {
        match frozen {
            Ok(_) => FrozenStep::Held(CgroupFreezeHold { path }),
            Err(reason) => {
                self.take_back(&path);
                let list = self.held();
                FrozenStep::Persist { list, error: CgroupFreezeError::Freeze { path, reason } }
            },
        }
    }

    /// Begin to give a hold back. The last hold asks for its cgroup to be thawed and stays
    /// until that is done; while another is left, or where there is none, no cgroup is thawed.
    pub fn release(&mut self, hold: CgroupFreezeHold) -> (r: ReleaseStep)
        requires
            old(self).wf(),
        ensures
            final(self).wf(),
            final(self).same_settings(old(self)),
            final(self).written() == old(self).written(),
            if thaws(old(self).holds@, paths::components(hold.path@)) {
                &&& r == ReleaseStep::Thaw(hold.path)
                &&& *final(self) == *old(self)
            } else {
                &&& r matches ReleaseStep::Persist(list)
                &&& final(self).holds@ == released(
                    old(self).holds@,
                    paths::components(hold.path@),
                    false,
                )
                &&& final(self).recovery_list(list)
            },
    {
        let ghost c = paths::components(hold.path@);
        let key = CgroupPath { path: hold.path.clone() };
        assert(key@ == c);
        if let Some(i) = self.holds.find(&key) {
            let count = self.holds.entries[i].1;
            if count == 1 {
                return ReleaseStep::Thaw(hold.path);
            }
            self.holds.set_at(i, count - 1);
        }
        assert(self.holds@ =~= released(old(self).holds@, c, false));
        assert(self.written() =~= old(self).written());
        ReleaseStep::Persist(self.held())
    }

    /// Go on after the last hold's cgroup was, or was not, thawed. The hold leaves only where
    /// it was; otherwise it stays written down so that it can be recovered.
    pub fn thawed(&mut self, path: String, ok: bool) -> (r: Vec<String>)
        requires
            old(self).wf(),
            thaws(old(self).holds@, paths::components(path@)),
        ensures
            final(self).wf(),
            final(self).same_settings(old(self)),
            final(self).holds@ == released(old(self).holds@, paths::components(path@), ok),
            if ok {
                struck(old(self).written(), final(self).written(), paths::components(path@))
            } else {
                *final(self) == *old(self)
            },
            final(self).recovery_list(r),
    {
        if ok {
            self.take_back(&path);
        }
        self.held()
    }

    /// Begin to thaw what an earlier daemon left frozen; see [`cleanup_default_registry`].
    pub fn cleanup_default_registry(configured: Option<String>) -> (r: RegistryCleanup)
        ensures
            r.registry@ == registry_path(configured),
            r.paths@.len() == 0,
    {
        let registry = match configured {
            Some(path) => path,
            None => "/run/agent-sandbox/cgroup-freeze".to_owned(),
        };
        RegistryCleanup { registry, paths: Vec::new() }
    }
}

/// A hold that is counted and then taken back, because it was not written down or its cgroup was
/// not frozen, leaves the holds and the list of held cgroups as they were.
pub proof fn law_failed_hold_changes_nothing(
    before: &CgroupFreezeManager,
    counted: &CgroupFreezeManager,
    after: &CgroupFreezeManager,
    path: Seq<char>,
)
    requires
        before.wf(),
        before.holds@.contains_key(paths::components(path)) ==> before.holds@[paths::components(
            path,
        )] < usize::MAX,
        counted.holds@ == acquired(before.holds@, paths::components(path)),
        counted.written() == (if before.holds@.contains_key(paths::components(path)) {
            before.written()
        } else {
            before.written().push(path)
        }),
        after.holds@ == released(counted.holds@, paths::components(path), true),
        if thaws(counted.holds@, paths::components(path)) {
            struck(counted.written(), after.written(), paths::components(path))
        } else {
            after.written() == counted.written()
        },
    ensures
        after.holds@ == before.holds@,
        after.written() == before.written(),
{
    let cgroup = paths::components(path);
    law_release_undoes_acquire(before.holds@, cgroup);
    law_only_last_release_thaws(before.holds@, cgroup);
    if !before.holds@.contains_key(cgroup) {
        before.lemma_written();
        let w = before.written();
        assert forall|i: int| 0 <= i < w.len() implies paths::components(#[trigger] w[i])
            != cgroup by {
            assert(before.holds@.dom().contains(paths::components(w[i])));
        }
        law_striking_undoes_listing(w, path, after.written());
    }
}

/// What came of reading the file of held cgroups.
#[derive(Debug, PartialEq, Eq)]
pub enum RegistryRead {
    Contents(String),
    Missing,
    Failed(String),
}

/// What came of thawing a cgroup.
#[derive(Debug, PartialEq, Eq)]
pub enum ThawResult {
    Thawed,
    Missing,
    Failed(String),
}

/// The text that the held cgroups are written down as: one path per line.
pub open spec fn registry_text(list: Seq<Seq<char>>) -> Seq<char>
    decreases list.len(),
{
    if list.len() == 0 {
        Seq::empty()
    } else {
        registry_text(list.drop_last()) + list.last() + seq!['\n']
    }
}

/// The text that the held cgroups are written down as.
pub fn registry_contents(list: &Vec<String>) -> (r: String)
    ensures
        r@ == registry_text(text::texts(list@)),
{
    let ghost t = text::texts(list@);
    let mut r = String::new();
    let mut i: usize = 0;
    assert(t.take(0) =~= Seq::empty());
    assert(r@ =~= Seq::empty());
    while i < list.len()
        invariant
            t == text::texts(list@),
            i <= list@.len(),
            r@ == registry_text(t.take(i as int)),
        decreases list@.len() - i,
    {
        r.append(list[i].as_str());
        r.push('\n');
        proof {
            let u = t.take(i + 1);
            assert(u.drop_last() =~= t.take(i as int));
            assert(u.last() == list@[i as int]@);
            assert(r@ =~= registry_text(u));
        }
        i += 1;
    }
    assert(t.take(list@.len() as int) =~= t);
    r
}

proof fn lemma_lines_append(s: Seq<char>, line: Seq<char>)
    requires
        s.len() == 0 || s.last() == '\n',
        !line.contains('\n'),
        line.len() == 0 || line.last() != '\r',
    ensures
        scan::lines_of(s + line + seq!['\n']) == scan::lines_of(s).push(line),
    decreases s.len(),
{
    let p = |c: char| c == '\n';
    let whole = s + line + seq!['\n'];
    if s.len() == 0 {
        assert(whole =~= line + seq!['\n']);
        scan::lemma_first_where(whole, p);
        let f = scan::first_where(whole, p);
        if f < line.len() {
            assert(whole[f] == line[f]);
            assert(line.contains(line[f]));
        } else if f > line.len() {
            assert(!p(whole[line.len() as int]));
        }
        assert(whole.take(line.len() as int) =~= line);
        assert(whole.skip(line.len() as int + 1) =~= Seq::empty());
        assert(scan::lines_of(Seq::<char>::empty()) =~= Seq::empty());
        assert(scan::lines_of(whole) =~= seq![line]);
        assert(scan::lines_of(s).push(line) =~= seq![line]);
    } else {
        scan::lemma_first_where(s, p);
        scan::lemma_first_where(whole, p);
        let f = scan::first_where(s, p);
        let g = scan::first_where(whole, p);
        assert(f < s.len()) by {
            if f >= s.len() {
                assert(!p(s[s.len() - 1]));
            }
        }
        if f < g {
            assert(whole[f] == s[f]);
            assert(!p(whole[f]));
        } else if g < f {
            assert(whole[g] == s[g]);
            assert(!p(s[g]));
        }
        let rest = s.skip(f + 1);
        assert(rest.len() == 0 || rest.last() == '\n');
        lemma_lines_append(rest, line);
        assert(whole.skip(f + 1) =~= rest + line + seq!['\n']);
        assert(whole.take(f) =~= s.take(f));
        assert(scan::lines_of(whole) =~= scan::lines_of(s).push(line));
    }
}

/// The lines of the text that cgroups are written down as are the cgroups, in order.
pub proof fn law_registry_round_trip(list: Seq<Seq<char>>)
    requires
        forall|i: int| 0 <= i < list.len() ==> !(#[trigger] list[i]).contains('\n'),
        forall|i: int|
            0 <= i < list.len() ==> (#[trigger] list[i]).len() == 0 || list[i].last() != '\r',
    ensures
        scan::lines_of(registry_text(list)) == list,
    decreases list.len(),
{
    if list.len() == 0 {
        assert(scan::lines_of(Seq::<char>::empty()) =~= list);
    } else {
        let front = list.drop_last();
        assert forall|i: int| 0 <= i < front.len() implies !(#[trigger] front[i]).contains('\n') by {
            assert(front[i] == list[i]);
        }
        assert forall|i: int|
            0 <= i < front.len() implies (#[trigger] front[i]).len() == 0 || front[i].last()
            != '\r' by {
            assert(front[i] == list[i]);
        }
        law_registry_round_trip(front);
        let s = registry_text(front);
        assert(s.len() == 0 || s.last() == '\n');
        assert(list.last() == list[list.len() - 1]);
        lemma_lines_append(s, list.last());
        assert(list =~= front.push(list.last()));
    }
}

/// The line names a cgroup directory.
pub open spec fn stale(line: Seq<char>) -> bool {
    paths::below(line, "/sys/fs/cgroup"@)
}

/// The lines that name a cgroup directory, in order.
pub open spec fn stale_lines(lines: Seq<Seq<char>>) -> Seq<Seq<char>>
    decreases lines.len(),
{
    if lines.len() == 0 {
        Seq::empty()
    } else if stale(lines.last()) {
        stale_lines(lines.drop_last()).push(lines.last())
    } else {
        stale_lines(lines.drop_last())
    }
}

/// No cgroup failed to thaw. One that is gone counts as thawed.
pub open spec fn none_failed(results: Seq<ThawResult>) -> bool {
    forall|i: int| 0 <= i < results.len() ==> !(#[trigger] results[i] is Failed)
}

/// The first cgroup that failed to thaw, and why.
pub open spec fn first_failure(results: Seq<ThawResult>, i: int, reason: Seq<char>) -> bool {
    &&& 0 <= i < results.len()
    &&& results[i] matches ThawResult::Failed(told)
    &&& told@ == reason
    &&& none_failed(results.take(i))
}

/// What cleaning up asks for next.
#[derive(Debug, PartialEq, Eq)]
pub enum CleanupStep {
    /// Thaw each of the cgroups, whatever comes of the others, then go on with
    /// [`RegistryCleanup::on_thawed`].
    Thaw(Vec<String>),
    /// Remove the file, then go on with [`RegistryCleanup::on_removed`].
    Remove(String),
    /// Nothing; the file is left alone.
    Done(Result<(), CgroupFreezeError>),
}

/// A clean-up after an earlier daemon, between two of its steps.
#[derive(Debug)]
pub struct RegistryCleanup {
    /// The file that the earlier daemon wrote its cgroups down in.
    pub registry: String,
    /// The cgroups to thaw.
    pub paths: Vec<String>,
}

impl RegistryCleanup {
    /// Go on after the file was read: every cgroup that it names is to be thawed. A file that is
    /// missing is no failure.
    pub fn on_read(&mut self, read: RegistryRead) -> (r: CleanupStep)
        ensures
            final(self).registry == old(self).registry,
            match read {
                RegistryRead::Missing => {
                    &&& r == CleanupStep::Done(Ok(()))
                    &&& final(self).paths@.len() == 0
                },
                RegistryRead::Failed(reason) => {
                    &&& r == CleanupStep::Done(Err(CgroupFreezeError::Registry(reason)))
                    &&& final(self).paths@.len() == 0
                },
                RegistryRead::Contents(contents) => {
                    &&& r matches CleanupStep::Thaw(list)
                    &&& text::texts(list@) == stale_lines(scan::lines_of(contents@))
                    &&& text::texts(final(self).paths@) == text::texts(list@)
                },
            },
    {
        self.paths = Vec::new();
        let contents = match read {
            RegistryRead::Missing => {
                return CleanupStep::Done(Ok(()));
            },
            RegistryRead::Failed(reason) => {
                return CleanupStep::Done(Err(CgroupFreezeError::Registry(reason)));
            },
            RegistryRead::Contents(contents) => contents,
        };
        let lines = scan::lines(&text::chars_of(contents.as_str()));
        let ghost ls = scan::pieces(lines@);
        let mut list: Vec<String> = Vec::new();
        let mut i: usize = 0;
        assert(text::texts(list@) =~= stale_lines(ls.take(0)));
        assert(text::texts(self.paths@) =~= text::texts(list@));
        while i < lines.len()
            invariant
                i <= lines@.len(),
                ls == scan::pieces(lines@),
                self.registry == old(self).registry,
                text::texts(list@) == stale_lines(ls.take(i as int)),
                text::texts(self.paths@) == text::texts(list@),
            decreases lines@.len() - i,
        {
            let path = text::from_chars(&lines[i]);
            let ghost before = text::texts(list@);
            assert(ls[i as int] == path@);
            assert(ls.take(i + 1).drop_last() =~= ls.take(i as int));
            if paths::starts_with(path.as_str(), "/sys/fs/cgroup") {
                self.paths.push(path.clone());
                list.push(path);
                assert(text::texts(list@) =~= before.push(ls[i as int]));
                assert(text::texts(self.paths@) =~= before.push(ls[i as int]));
            }
            i += 1;
        }
        assert(ls.take(ls.len() as int) =~= ls);
        CleanupStep::Thaw(list)
    }

    /// Go on after the cgroups were asked to thaw, each with what came of it. The file is
    /// removed exactly when none failed; otherwise it is kept and the first failure is told.
    pub fn on_thawed(&self, results: &Vec<ThawResult>) -> (r: CleanupStep)
        requires
            results@.len() == self.paths@.len(),
        ensures
            none_failed(results@) <==> r is Remove,
            match r {
                CleanupStep::Remove(file) => file@ == self.registry@,
                CleanupStep::Done(Err(e)) => exists|i: int, reason: Seq<char>|
                    #[trigger] first_failure(results@, i, reason) && e@
                        == (CgroupFreezeErrorView::Freeze { path: self.paths@[i]@, reason }),
                _ => false,
            },
    {
        let mut i: usize = 0;
        while i < results.len()
            invariant
                i <= results@.len(),
                results@.len() == self.paths@.len(),
                none_failed(results@.take(i as int)),
            decreases results@.len() - i,
        {
            if let ThawResult::Failed(reason) = &results[i] {
                assert(first_failure(results@, i as int, reason@));
                let path = self.paths[i].clone();
                return CleanupStep::Done(
                    Err(CgroupFreezeError::Freeze { path, reason: reason.clone() }),
                );
            }
            proof {
                let t = results@.take(i + 1);
                assert forall|j: int| 0 <= j < t.len() implies !(#[trigger] t[j] is Failed) by {
                    if j < i {
                        assert(results@.take(i as int)[j] == t[j]);
                    }
                }
            }
            i += 1;
        }
        assert(results@.take(results@.len() as int) =~= results@);
        CleanupStep::Remove(self.registry.clone())
    }

    /// What cleaning up comes to after the file was, or was not, removed.
    pub fn on_removed(&self, removed: Result<(), String>) -> (r: Result<(), CgroupFreezeError>)
        ensures
            r == match removed {
                Ok(_) => Ok(()),
                Err(reason) => Err(CgroupFreezeError::Registry(reason)),
            },
    {
        match removed {
            Ok(_) => Ok(()),
            Err(reason) => Err(CgroupFreezeError::Registry(reason)),
        }
    }
}

/// Begin to thaw every cgroup that an earlier daemon wrote down as frozen: the file to read, and
/// no cgroup yet.
pub fn cleanup_default_registry(configured: Option<String>) -> (r: RegistryCleanup)
    ensures
        r.registry@ == registry_path(configured),
        r.paths@.len() == 0,
{
    CgroupFreezeManager::cleanup_default_registry(configured)
}

} // verus!
