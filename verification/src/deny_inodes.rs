//! Denied files known by inode, so that no other name for them is a way round a deny rule.

use vstd::prelude::*;

use crate::order;
use crate::paths;
use crate::rules::InodeIdentity;
use crate::scan;
use crate::table::Table;
use crate::text;
use crate::types::FileAccess;
use crate::types::FilesystemRule;
use crate::types::Policy;
use crate::types::ResourceRule;

verus! {

/// The most files that are indexed across all deny rules.
pub const MAX_DENY_INODE_ENTRIES: usize = 100_000;

/// A deny rule's path as it was when its files were indexed.
#[derive(Debug, PartialEq, Eq)]
pub struct DenyFingerprint {
    pub path: String,
    pub access: FileAccess,
    pub mtime: Option<u64>,
}

/// The view of a fingerprint.
pub struct FingerprintView {
    pub path: Seq<Seq<char>>,
    pub access: FileAccess,
    pub mtime: Option<u64>,
}

impl View for DenyFingerprint {
    type V = FingerprintView;

    open spec fn view(&self) -> FingerprintView {
        FingerprintView {
            path: paths::components(self.path@),
            access: self.access,
            mtime: self.mtime,
        }
    }
}

impl Clone for DenyFingerprint {
    fn clone(&self) -> (r: Self)
        ensures
            r == *self,
    {
        DenyFingerprint { path: self.path.clone(), access: self.access, mtime: self.mtime }
    }
}

/// A file that a deny rule covers.
#[derive(Debug, PartialEq, Eq)]
pub struct DenyCacheEntry {
    pub path: String,
    pub access: FileAccess,
}

/// The indexed files and the rules that they were indexed for.
pub struct DenyInodeCache {
    pub inodes: Table<InodeIdentity, Vec<DenyCacheEntry>>,
    pub fingerprint: Vec<DenyFingerprint>,
    /// How many more files may be indexed.
    pub budget: usize,
}

/// The path names files without a wildcard.
pub open spec fn concrete(path: Seq<char>) -> bool {
    !path.contains('*') && !path.contains('?')
}

fn is_concrete(path: &str) -> (r: bool)
    ensures
        r == concrete(path@),
{
    let chars = text::chars_of(path);
    let mut i: usize = 0;
    while i < chars.len()
        invariant
            chars@ == path@,
            i <= chars@.len(),
            forall|j: int| 0 <= j < i ==> #[trigger] chars@[j] != '*' && chars@[j] != '?',
        decreases chars@.len() - i,
    {
        if chars[i] == '*' || chars[i] == '?' {
            assert(path@.contains(chars@[i as int]));
            return false;
        }
        i += 1;
    }
    true
}

/// The kinds of component in their order: the root, a dot, two dots, a name.
pub open spec fn component_rank(c: Seq<char>) -> int {
    if c == seq!['/'] {
        0
    } else if c == seq!['.'] {
        1
    } else if c == seq!['.', '.'] {
        2
    } else {
        3
    }
}

/// The first component comes before the second.
pub open spec fn component_less(a: Seq<char>, b: Seq<char>) -> bool {
    component_rank(a) < component_rank(b) || (component_rank(a) == component_rank(b) && order::text_less(
        a,
        b,
    ))
}

/// The first path comes before the second, component by component.
pub open spec fn path_less(a: Seq<Seq<char>>, b: Seq<Seq<char>>) -> bool
    decreases a.len(),
{
    if b.len() == 0 {
        false
    } else if a.len() == 0 {
        true
    } else if a[0] != b[0] {
        component_less(a[0], b[0])
    } else {
        path_less(a.skip(1), b.skip(1))
    }
}

fn rank_of(c: &Vec<char>) -> (r: u8)
    ensures
        r == component_rank(c@),
{
    if c.len() == 1 && c[0] == '/' {
        assert(c@ =~= seq!['/']);
        0
    } else if c.len() == 1 && c[0] == '.' {
        assert(c@ =~= seq!['.']);
        1
    } else if c.len() == 2 && c[0] == '.' && c[1] == '.' {
        assert(c@ =~= seq!['.', '.']);
        2
    } else {
        3
    }
}

fn paths_less(a: &str, b: &str) -> (r: bool)
    ensures
        r == path_less(paths::components(a@), paths::components(b@)),
{
    let x = paths::components_of(a);
    let y = paths::components_of(b);
    let ghost px = scan::pieces(x@);
    let ghost py = scan::pieces(y@);
    let mut i: usize = 0;
    assert(px.skip(0) =~= px && py.skip(0) =~= py);
    while i < x.len() && i < y.len()
        invariant
            px == scan::pieces(x@),
            py == scan::pieces(y@),
            px == paths::components(a@),
            py == paths::components(b@),
            i <= x@.len(),
            i <= y@.len(),
            path_less(px, py) == path_less(px.skip(i as int), py.skip(i as int)),
        decreases x@.len() - i,
    {
        let ghost u = px.skip(i as int);
        let ghost v = py.skip(i as int);
        assert(u[0] == x@[i as int]@ && v[0] == y@[i as int]@);
        if !scan::same_chars(&x[i], &y[i]) {
            let rx = rank_of(&x[i]);
            let ry = rank_of(&y[i]);
            return rx < ry || (rx == ry && order::chars_less(&x[i], &y[i]));
        }
        assert(u.skip(1) =~= px.skip(i + 1) && v.skip(1) =~= py.skip(i + 1));
        i += 1;
    }
    i < y.len()
}

/// The fingerprints with one more, which goes behind those that do not come after it.
pub open spec fn filed(list: Seq<DenyFingerprint>, f: DenyFingerprint) -> Seq<DenyFingerprint>
    decreases list.len(),
{
    if list.len() > 0 && path_less(
        paths::components(f.path@),
        paths::components(list.last().path@),
    ) {
        filed(list.drop_last(), f).push(list.last())
    } else {
        list.push(f)
    }
}

/// The fingerprints in the order of their paths; those of one path keep their order.
pub open spec fn in_path_order(list: Seq<DenyFingerprint>) -> Seq<DenyFingerprint>
    decreases list.len(),
{
    if list.len() == 0 {
        Seq::empty()
    } else {
        filed(in_path_order(list.drop_last()), list.last())
    }
}

proof fn lemma_filed(list: Seq<DenyFingerprint>, f: DenyFingerprint, i: int)
    requires
        0 <= i <= list.len(),
        forall|j: int|
            i <= j < list.len() ==> path_less(
                paths::components(f.path@),
                paths::components((#[trigger] list[j]).path@),
            ),
        i > 0 ==> !path_less(
            paths::components(f.path@),
            paths::components(list[i - 1].path@),
        ),
    ensures
        filed(list, f) == list.insert(i, f),
    decreases list.len(),
{
    if i == list.len() {
        if list.len() > 0 {
            assert(list.last() == list[i - 1]);
        }
        assert(list.insert(i, f) =~= list.push(f));
    } else {
        assert(list.last() == list[list.len() - 1]);
        let front = list.drop_last();
        lemma_filed(front, f, i);
        assert(list.insert(i, f) =~= front.insert(i, f).push(list.last()));
    }
}

fn file_fingerprint(list: &mut Vec<DenyFingerprint>, f: DenyFingerprint)
    ensures
        final(list)@ == filed(old(list)@, f),
{
    let mut i: usize = list.len();
    while i > 0 && paths_less(f.path.as_str(), list[i - 1].path.as_str())
        invariant
            *list == *old(list),
            i <= list@.len(),
            forall|j: int|
                i <= j < list@.len() ==> path_less(
                    paths::components(f.path@),
                    paths::components((#[trigger] list@[j]).path@),
                ),
        decreases i,
    {
        i -= 1;
    }
    proof {
        lemma_filed(list@, f, i as int);
    }
    list.insert(i, f);
}

/// The fingerprint of a path that a deny rule names.
pub open spec fn fingerprint_of<S: Fn(&String) -> Option<u64>>(
    path: String,
    access: FileAccess,
    mtime: S,
) -> Seq<DenyFingerprint> {
    if concrete(path@) {
        seq![DenyFingerprint { path, access, mtime: text::answer(mtime, path) }]
    } else {
        Seq::empty()
    }
}

/// The fingerprints of the filesystem deny rules, in the order of the rules.
pub open spec fn filesystem_fingerprints<
    E: Fn(&String) -> String,
    S: Fn(&String) -> Option<u64>,
>(rules: Seq<FilesystemRule>, expand: E, mtime: S) -> Seq<DenyFingerprint>
    decreases rules.len(),
{
    if rules.len() == 0 {
        Seq::empty()
    } else {
        filesystem_fingerprints(rules.drop_last(), expand, mtime) + fingerprint_of(
            text::answer(expand, rules.last().path),
            rules.last().access,
            mtime,
        )
    }
}

/// The fingerprints of the resource deny rules, in the order of the rules.
pub open spec fn resource_fingerprints<
    E: Fn(&String) -> String,
    S: Fn(&String) -> Option<u64>,
>(rules: Seq<ResourceRule>, expand: E, mtime: S) -> Seq<DenyFingerprint>
    decreases rules.len(),
{
    if rules.len() == 0 {
        Seq::empty()
    } else {
        resource_fingerprints(rules.drop_last(), expand, mtime) + fingerprint_of(
            text::answer(expand, rules.last().path),
            FileAccess::All,
            mtime,
        )
    }
}

proof fn lemma_ordered_push(list: Seq<DenyFingerprint>, f: DenyFingerprint)
    ensures
        in_path_order(list.push(f)) == filed(in_path_order(list), f),
{
    assert(list.push(f).drop_last() =~= list);
}

/// One fingerprint per deny rule on a path without wildcards, in the order of the paths.
/// `expand` gives the path that a rule names; `mtime` gives the time it was last changed.
pub fn deny_fingerprint<E: Fn(&String) -> String, S: Fn(&String) -> Option<u64>>(
    policy: &Policy,
    expand: &E,
    mtime: &S,
) -> (r: Vec<DenyFingerprint>)
    requires
        text::determined(*expand),
        text::determined(*mtime),
    ensures
        r@ == in_path_order(
            filesystem_fingerprints(policy.filesystem.deny@, *expand, *mtime)
                + resource_fingerprints(policy.resources.deny@, *expand, *mtime),
        ),
{
    let mut r: Vec<DenyFingerprint> = Vec::new();
    let ghost files = policy.filesystem.deny@;
    let ghost resources = policy.resources.deny@;
    let mut i: usize = 0;
    proof {
        assert(filesystem_fingerprints(files.take(0), *expand, *mtime) =~= Seq::empty());
        assert(r@ =~= in_path_order(filesystem_fingerprints(files.take(0), *expand, *mtime)));
    }
    while i < policy.filesystem.deny.len()
        invariant
            text::determined(*expand),
            text::determined(*mtime),
            files == policy.filesystem.deny@,
            i <= files.len(),
            r@ == in_path_order(filesystem_fingerprints(files.take(i as int), *expand, *mtime)),
        decreases files.len() - i,
    {
        let path = expand(&policy.filesystem.deny[i].path);
        let access = policy.filesystem.deny[i].access;
        let ghost before = filesystem_fingerprints(files.take(i as int), *expand, *mtime);
        proof {
            assert(files.take(i + 1).drop_last() =~= files.take(i as int));
            assert(files.take(i + 1).last() == files[i as int]);
            assert(path == text::answer(*expand, files[i as int].path));
        }
        if is_concrete(path.as_str()) {
            let time = mtime(&path);
            let f = DenyFingerprint { path, access, mtime: time };
            proof {
                assert(time == text::answer(*mtime, path));
                lemma_ordered_push(before, f);
                assert(before + seq![f] =~= before.push(f));
            }
            file_fingerprint(&mut r, f);
        } else {
            assert(before + Seq::<DenyFingerprint>::empty() =~= before);
        }
        i += 1;
    }
    proof {
        assert(files.take(files.len() as int) =~= files);
        let all = filesystem_fingerprints(files, *expand, *mtime);
        assert(resource_fingerprints(resources.take(0), *expand, *mtime) =~= Seq::empty());
        assert(all + resource_fingerprints(resources.take(0), *expand, *mtime) =~= all);
    }
    let ghost all = filesystem_fingerprints(files, *expand, *mtime);
    let mut i: usize = 0;
    while i < policy.resources.deny.len()
        invariant
            text::determined(*expand),
            text::determined(*mtime),
            resources == policy.resources.deny@,
            i <= resources.len(),
            r@ == in_path_order(
                all + resource_fingerprints(resources.take(i as int), *expand, *mtime),
            ),
        decreases resources.len() - i,
    {
        let path = expand(&policy.resources.deny[i].path);
        let ghost part = resource_fingerprints(resources.take(i as int), *expand, *mtime);
        let ghost before = all + part;
        proof {
            assert(resources.take(i + 1).drop_last() =~= resources.take(i as int));
            assert(resources.take(i + 1).last() == resources[i as int]);
            assert(path == text::answer(*expand, resources[i as int].path));
        }
        if is_concrete(path.as_str()) {
            let time = mtime(&path);
            let f = DenyFingerprint { path, access: FileAccess::All, mtime: time };
            proof {
                assert(time == text::answer(*mtime, path));
                lemma_ordered_push(before, f);
                assert(all + (part + seq![f]) =~= before.push(f));
            }
            file_fingerprint(&mut r, f);
        } else {
            assert(part + Seq::<DenyFingerprint>::empty() =~= part);
        }
        i += 1;
    }
    assert(resources.take(resources.len() as int) =~= resources);
    r
}

/// The views of a list of fingerprints.
pub open spec fn fingerprint_views(list: Seq<DenyFingerprint>) -> Seq<FingerprintView> {
    list.map_values(|f: DenyFingerprint| f@)
}

/// What the visit of a directory entry asks for next.
#[derive(Clone, Copy, Debug, PartialEq, Eq, Structural)]
pub enum WalkStep {
    /// Go on with the next entry.
    Next,
    /// Visit the entries of the directory.
    Descend,
    /// Too many files: the whole walk ends.
    Stop,
}

/// A directory entry as the system describes it.
#[derive(Clone, Copy, Debug, PartialEq, Eq, Structural)]
pub enum WalkEntry {
    Unreadable,
    Directory,
    File(InodeIdentity),
}

/// The files known under an inode.
pub open spec fn entries_at(
    inodes: Map<InodeIdentity, Vec<DenyCacheEntry>>,
    identity: InodeIdentity,
) -> Seq<DenyCacheEntry> {
    if inodes.contains_key(identity) {
        inodes[identity]@
    } else {
        Seq::empty()
    }
}

/// How many files are indexed over all inodes.
pub open spec fn indexed_files(entries: Seq<(InodeIdentity, Vec<DenyCacheEntry>)>) -> nat
    decreases entries.len(),
{
    if entries.len() == 0 {
        0
    } else {
        indexed_files(entries.drop_last()) + entries.last().1@.len()
    }
}

proof fn lemma_indexed_push(
    entries: Seq<(InodeIdentity, Vec<DenyCacheEntry>)>,
    e: (InodeIdentity, Vec<DenyCacheEntry>),
)
    ensures
        indexed_files(entries.push(e)) == indexed_files(entries) + e.1@.len(),
{
    assert(entries.push(e).drop_last() =~= entries);
}

proof fn lemma_indexed_remove(entries: Seq<(InodeIdentity, Vec<DenyCacheEntry>)>, i: int)
    requires
        0 <= i < entries.len(),
    ensures
        indexed_files(entries) == indexed_files(entries.remove(i)) + entries[i].1@.len(),
    decreases entries.len(),
{
    let front = entries.drop_last();
    if i < front.len() {
        lemma_indexed_remove(front, i);
        assert(entries.remove(i) =~= front.remove(i).push(entries.last()));
        lemma_indexed_push(front.remove(i), entries.last());
    } else {
        assert(entries.remove(i) =~= front);
    }
}

/// The index has one more file.
pub open spec fn indexed(
    before: Map<InodeIdentity, Vec<DenyCacheEntry>>,
    after: Map<InodeIdentity, Vec<DenyCacheEntry>>,
    identity: InodeIdentity,
    entry: DenyCacheEntry,
) -> bool {
    &&& after.dom() == before.dom().insert(identity)
    &&& entries_at(after, identity) == entries_at(before, identity).push(entry)
    &&& forall|other: InodeIdentity|
        other != identity && #[trigger] before.contains_key(other) ==> after[other]
            == before[other]
}

/// A deny rule with enough access covers the file with the inode.
pub open spec fn inode_denied(
    inodes: Map<InodeIdentity, Vec<DenyCacheEntry>>,
    identity: Option<InodeIdentity>,
    access: FileAccess,
) -> bool {
    identity matches Some(id) && exists|i: int|
        0 <= i < entries_at(inodes, id).len() && (#[trigger] entries_at(
            inodes,
            id,
        )[i]).access.includes(access)
}

impl DenyInodeCache {
    /// The files that are indexed, and those that may still be, stay within the limit.
    pub open spec fn wf(&self) -> bool {
        &&& self.inodes.wf()
        &&& indexed_files(self.inodes.entries@) + self.budget <= MAX_DENY_INODE_ENTRIES
    }

    /// An empty index for the given rules.
    pub fn new(fingerprint: Vec<DenyFingerprint>) -> (r: Self)
        ensures
            r.wf(),
            r.inodes.vacant(),
            r.fingerprint == fingerprint,
            r.budget == MAX_DENY_INODE_ENTRIES,
    {
        DenyInodeCache { inodes: Table::new(), fingerprint, budget: MAX_DENY_INODE_ENTRIES }
    }

    /// Whether the rules differ from those that the files were indexed for.
    pub fn fingerprint_changed(&self, fingerprint: &Vec<DenyFingerprint>) -> (r: bool)
        ensures
            r == (fingerprint_views(self.fingerprint@) != fingerprint_views(fingerprint@)),
    {
        let ghost a = fingerprint_views(self.fingerprint@);
        let ghost b = fingerprint_views(fingerprint@);
        if self.fingerprint.len() != fingerprint.len() {
            assert(a.len() != b.len());
            return true;
        }
        let mut i: usize = 0;
        while i < fingerprint.len()
            invariant
                a == fingerprint_views(self.fingerprint@),
                b == fingerprint_views(fingerprint@),
                self.fingerprint@.len() == fingerprint@.len(),
                i <= fingerprint@.len(),
                forall|j: int| 0 <= j < i ==> #[trigger] a[j] == b[j],
            decreases fingerprint@.len() - i,
        {
            let x = &self.fingerprint[i];
            let y = &fingerprint[i];
            let same_time = match (x.mtime, y.mtime) {
                (Some(s), Some(t)) => s == t,
                (None, None) => true,
                _ => false,
            };
            if !(paths::same_path(x.path.as_str(), y.path.as_str()) && x.access == y.access
                && same_time) {
                assert(a[i as int] != b[i as int]);
                return true;
            }
            assert(a[i as int] == b[i as int]);
            i += 1;
        }
        assert(a =~= b);
        false
    }

    /// Index a file that a deny rule covers, as long as the budget lasts; false where it does not.
    pub fn index_file(&mut self, identity: InodeIdentity, path: String, access: FileAccess) -> (r:
        bool)
        requires
            old(self).wf(),
        ensures
            final(self).wf(),
            final(self).fingerprint == old(self).fingerprint,
            r == (old(self).budget > 0),
            if old(self).budget == 0 {
                *final(self) == *old(self)
            } else {
                &&& final(self).budget == old(self).budget - 1
                &&& indexed(
                    old(self).inodes@,
                    final(self).inodes@,
                    identity,
                    DenyCacheEntry { path, access },
                )
            },
    {
        if self.budget == 0 {
            return false;
        }
        let ghost before = self.inodes@;
        let ghost start = self.inodes.entries@;
        let mut entries: Vec<DenyCacheEntry> = match self.inodes.find(&identity) {
            Some(i) => {
                proof {
                    lemma_indexed_remove(start, i as int);
                }
                self.inodes.remove_at(i).1
            },
            None => Vec::new(),
        };
        let ghost seen = entries@;
        entries.push(DenyCacheEntry { path, access });
        proof {
            assert(seen =~= entries_at(before, identity));
            lemma_indexed_push(self.inodes.entries@, (identity, entries));
        }
        let _ = self.inodes.insert(identity, entries);
        self.budget = self.budget - 1;
        assert(self.inodes@.dom() =~= before.dom().insert(identity));
        true
    }

    /// Visit an entry of a denied directory: files are indexed as long as the budget lasts.
    pub fn visit(&mut self, entry: WalkEntry, path: String, access: FileAccess) -> (r: WalkStep)
        requires
            old(self).wf(),
        ensures
            final(self).wf(),
            final(self).fingerprint == old(self).fingerprint,
            if old(self).budget == 0 {
                r == WalkStep::Stop && *final(self) == *old(self)
            } else {
                match entry {
                    WalkEntry::Unreadable => r == WalkStep::Next && *final(self) == *old(self),
                    WalkEntry::Directory => r == WalkStep::Descend && *final(self) == *old(self),
                    WalkEntry::File(identity) => {
                        &&& r == WalkStep::Next
                        &&& final(self).budget == old(self).budget - 1
                        &&& indexed(
                            old(self).inodes@,
                            final(self).inodes@,
                            identity,
                            DenyCacheEntry { path, access },
                        )
                    },
                }
            },
    {
        if self.budget == 0 {
            return WalkStep::Stop;
        }
        match entry {
            WalkEntry::Unreadable => WalkStep::Next,
            WalkEntry::Directory => WalkStep::Descend,
            WalkEntry::File(identity) => {
                let _ = self.index_file(identity, path, access);
                WalkStep::Next
            },
        }
    }

    /// The files that some deny rule covers.
    pub fn denied_inodes(&self) -> (r: Vec<InodeIdentity>)
        requires
            self.wf(),
        ensures
            r@.no_duplicates(),
            forall|identity: InodeIdentity|
                r@.contains(identity) <==> #[trigger] self.inodes@.contains_key(identity),
    {
        let mut r: Vec<InodeIdentity> = Vec::new();
        let mut i: usize = 0;
        while i < self.inodes.entries.len()
            invariant
                self.wf(),
                i <= self.inodes.entries@.len(),
                r@.len() == i,
                forall|j: int| 0 <= j < i ==> #[trigger] r@[j] == self.inodes.entries@[j].0,
            decreases self.inodes.entries@.len() - i,
        {
            r.push(self.inodes.entries[i].0);
            i += 1;
        }
        proof {
            assert forall|identity: InodeIdentity|
                r@.contains(identity) <==> #[trigger] self.inodes@.contains_key(identity) by {
                if r@.contains(identity) {
                    let j = choose|j: int| 0 <= j < r@.len() && r@[j] == identity;
                    self.inodes.lemma_entry(j);
                }
                if self.inodes@.contains_key(identity) {
                    let j = self.inodes.lemma_key(identity);
                    assert(r@[j] == identity);
                }
            }
        }
        r
    }

    /// Whether a deny rule covers the file that the request's path leads to.
    pub fn is_denied(&self, identity: Option<InodeIdentity>, access: FileAccess) -> (r: bool)
        requires
            self.wf(),
        ensures
            r == inode_denied(self.inodes@, identity, access),
    {
        let id = match identity {
            Some(id) => id,
            None => {
                return false;
            },
        };
        match self.inodes.get(&id) {
            None => false,
            Some(entries) => {
                let mut i: usize = 0;
                while i < entries.len()
                    invariant
                        identity == Some(id),
                        self.inodes@.contains_key(id),
                        *entries == self.inodes@[id],
                        i <= entries@.len(),
                        forall|j: int|
                            0 <= j < i ==> !(#[trigger] entries@[j]).access.includes(access),
                    decreases entries@.len() - i,
                {
                    if entries[i].access.covers(access) {
                        assert(entries_at(self.inodes@, id)[i as int].access.includes(access));
                        return true;
                    }
                    i += 1;
                }
                false
            },
        }
    }
}

/// However many files the deny rules cover, no more than the limit are indexed, over all rules
/// and all inodes.
pub proof fn law_denied_files_are_bounded(cache: DenyInodeCache)
    requires
        cache.wf(),
    ensures
        indexed_files(cache.inodes.entries@) <= MAX_DENY_INODE_ENTRIES,
        forall|identity: InodeIdentity|
            (#[trigger] entries_at(cache.inodes@, identity)).len() <= MAX_DENY_INODE_ENTRIES,
{
    assert forall|identity: InodeIdentity|
        (#[trigger] entries_at(cache.inodes@, identity)).len() <= MAX_DENY_INODE_ENTRIES by {
        if cache.inodes@.contains_key(identity) {
            let i = cache.inodes.lemma_key(identity);
            lemma_indexed_remove(cache.inodes.entries@, i);
        }
    }
}

/// The first fingerprint does not come after the second.
pub open spec fn before_or_level(a: DenyFingerprint, b: DenyFingerprint) -> bool {
    !path_less(paths::components(b.path@), paths::components(a.path@))
}

/// No fingerprint comes after the next one.
pub open spec fn ordered(list: Seq<DenyFingerprint>) -> bool {
    forall|i: int, j: int|
        0 <= i < list.len() && j == i + 1 && j < list.len() ==> before_or_level(
            #[trigger] list[i],
            #[trigger] list[j],
        )
}

/// Filing puts nothing out of order: where each fingerprint did not come after the next, each
/// still does not.
pub proof fn law_filed_in_order(list: Seq<DenyFingerprint>, f: DenyFingerprint)
    requires
        ordered(list),
    ensures
        ordered(filed(list, f)),
    decreases list.len(),
{
    let last = list.last();
    if list.len() > 0 && path_less(paths::components(f.path@), paths::components(last.path@)) {
        let front = list.drop_last();
        assert(ordered(front)) by {
            assert forall|i: int, j: int|
                0 <= i < front.len() && j == i + 1 && j < front.len() implies before_or_level(
                #[trigger] front[i],
                #[trigger] front[j],
            ) by {
                assert(before_or_level(list[i], list[j]));
            }
        }
        law_filed_in_order(front, f);
        let g = filed(front, f);
        lemma_filed_last(front, f);
        let r = g.push(last);
        lemma_path_less_asymmetric(paths::components(f.path@), paths::components(last.path@));
        if front.len() > 0 {
            let n = list.len() - 2;
            assert(before_or_level(list[n], list[n + 1]));
            assert(list[n] == front.last() && list[n + 1] == last);
        }
        assert(before_or_level(g.last(), last));
        assert forall|i: int, j: int|
            0 <= i < r.len() && j == i + 1 && j < r.len() implies before_or_level(
            #[trigger] r[i],
            #[trigger] r[j],
        ) by {
            if j < g.len() {
                assert(before_or_level(g[i], g[j]));
            }
        }
    } else {
        let r = list.push(f);
        assert forall|i: int, j: int|
            0 <= i < r.len() && j == i + 1 && j < r.len() implies before_or_level(
            #[trigger] r[i],
            #[trigger] r[j],
        ) by {
            if j < list.len() {
                assert(before_or_level(list[i], list[j]));
            }
        }
    }
}

/// The fingerprints of a policy come in the order of their paths.
pub proof fn law_fingerprints_in_order(list: Seq<DenyFingerprint>)
    ensures
        ordered(in_path_order(list)),
    decreases list.len(),
{
    if list.len() > 0 {
        law_fingerprints_in_order(list.drop_last());
        law_filed_in_order(in_path_order(list.drop_last()), list.last());
    }
}

proof fn lemma_filed_last(list: Seq<DenyFingerprint>, f: DenyFingerprint)
    ensures
        filed(list, f).len() == list.len() + 1,
        filed(list, f).last() == f || (list.len() > 0 && filed(list, f).last() == list.last()),
    decreases list.len(),
{
    if list.len() > 0 && path_less(
        paths::components(f.path@),
        paths::components(list.last().path@),
    ) {
        lemma_filed_last(list.drop_last(), f);
    }
}

proof fn lemma_path_less_asymmetric(a: Seq<Seq<char>>, b: Seq<Seq<char>>)
    requires
        path_less(a, b),
    ensures
        !path_less(b, a),
    decreases a.len(),
{
    if a.len() > 0 && b.len() > 0 {
        if a[0] == b[0] {
            lemma_path_less_asymmetric(a.skip(1), b.skip(1));
        } else if component_rank(a[0]) == component_rank(b[0]) {
            order::lemma_text_less_asymmetric(a[0], b[0]);
        }
    }
}

} // verus!
