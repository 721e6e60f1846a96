//! What holds of denied files that are known by inode: what is denied after a walk, and when a
//! walk is due.

use vstd::prelude::*;

use crate::deny_inodes;
use crate::deny_inodes::DenyFingerprint;
use crate::deny_inodes::DenyInodeCache;
use crate::deny_inodes::WalkEntry;
use crate::deny_inodes::WalkStep;
use crate::filesystem::FilesystemSnapshot;
use crate::paths;
use crate::rules::InodeIdentity;
use crate::store::PolicyStore;
use crate::text;
use crate::types::FileAccess;
use crate::types::FilesystemRule;
use crate::types::Policy;
use crate::types::ResourceRule;

verus! {

proof fn lemma_indexed(
    before: Map<InodeIdentity, Vec<deny_inodes::DenyCacheEntry>>,
    after: Map<InodeIdentity, Vec<deny_inodes::DenyCacheEntry>>,
    identity: InodeIdentity,
    entry: deny_inodes::DenyCacheEntry,
    other: InodeIdentity,
    access: FileAccess,
)
    requires
        deny_inodes::indexed(before, after, identity, entry),
    ensures
        deny_inodes::inode_denied(after, Some(other), access) <==> deny_inodes::inode_denied(
            before,
            Some(other),
            access,
        ) || (other == identity && entry.access.includes(access)),
{
    let a = deny_inodes::entries_at(before, other);
    let b = deny_inodes::entries_at(after, other);
    if other == identity {
        assert(b == a.push(entry));
        assert(b[a.len() as int] == entry);
        if deny_inodes::inode_denied(before, Some(other), access) {
            let i = choose|i: int| 0 <= i < a.len() && (#[trigger] a[i]).access.includes(access);
            assert(b[i] == a[i]);
        }
        if deny_inodes::inode_denied(after, Some(other), access) {
            let i = choose|i: int| 0 <= i < b.len() && (#[trigger] b[i]).access.includes(access);
            if i < a.len() {
                assert(a[i] == b[i]);
            }
        }
    } else {
        assert(after.dom().contains(other) == before.dom().contains(other));
        if before.contains_key(other) {
            assert(after[other] == before[other]);
        }
        assert(a == b);
    }
}

/// A denied file that is filed is denied from then on, under whatever name it is reached, for the
/// uses that its rule denies; what was denied stays denied, and nothing else comes to be. When the
/// budget is used up nothing is filed, and the caller is told.
pub proof fn law_filed_file_is_denied(
    cache: &mut DenyInodeCache,
    identity: InodeIdentity,
    path: String,
    access: FileAccess,
    filed: bool,
    other: Option<InodeIdentity>,
    used: FileAccess,
    before: bool,
    after: bool,
    covers: bool,
)
    requires
        call_ensures(DenyInodeCache::index_file, (cache, identity, path, access), filed),
        call_ensures(DenyInodeCache::is_denied, (&*old(cache), other, used), before),
        call_ensures(DenyInodeCache::is_denied, (&*final(cache), other, used), after),
        call_ensures(FileAccess::covers, (access, used), covers),
    ensures
        filed <==> old(cache).budget > 0,
        filed ==> (after <==> before || (other == Some(identity) && covers)),
        filed ==> final(cache).budget == old(cache).budget - 1,
        !filed ==> *final(cache) == *old(cache) && after == before,
        final(cache).fingerprint == old(cache).fingerprint,
{
    if filed && other is Some {
        lemma_indexed(
            old(cache).inodes@,
            final(cache).inodes@,
            identity,
            deny_inodes::DenyCacheEntry { path, access },
            other->0,
            used,
        );
    }
}

/// The walk files every file that it meets and goes into every directory; what cannot be read is
/// passed over. It stops only when the budget is used up.
pub proof fn law_walk_files_what_it_meets(
    cache: &mut DenyInodeCache,
    entry: WalkEntry,
    path: String,
    access: FileAccess,
    step: WalkStep,
    other: Option<InodeIdentity>,
    used: FileAccess,
    before: bool,
    after: bool,
    covers: bool,
)
    requires
        call_ensures(DenyInodeCache::visit, (cache, entry, path, access), step),
        call_ensures(DenyInodeCache::is_denied, (&*old(cache), other, used), before),
        call_ensures(DenyInodeCache::is_denied, (&*final(cache), other, used), after),
        call_ensures(FileAccess::covers, (access, used), covers),
    ensures
        step == WalkStep::Stop <==> old(cache).budget == 0,
        step == WalkStep::Descend <==> old(cache).budget > 0 && entry is Directory,
        step != WalkStep::Stop && entry is File ==> (after <==> before || (other == Some(
            entry->File_0,
        ) && covers)),
        step == WalkStep::Stop || !(entry is File) ==> *final(cache) == *old(cache),
{
    if step != WalkStep::Stop && entry is File && other is Some {
        lemma_indexed(
            old(cache).inodes@,
            final(cache).inodes@,
            entry->File_0,
            deny_inodes::DenyCacheEntry { path, access },
            other->0,
            used,
        );
    }
}

/// A new list denies nothing, and has room for a hundred thousand files.
pub proof fn law_new_list_denies_nothing(
    fingerprint: Vec<DenyFingerprint>,
    cache: DenyInodeCache,
    identity: Option<InodeIdentity>,
    access: FileAccess,
    denied: bool,
)
    requires
        call_ensures(DenyInodeCache::new, (fingerprint,), cache),
        call_ensures(DenyInodeCache::is_denied, (&cache, identity, access), denied),
    ensures
        !denied,
        cache.budget == 100_000,
        cache.fingerprint == fingerprint,
{
}

/// A file without a known inode is not denied by it, and every file that is denied by its inode is
/// among those that a monitor is told.
pub proof fn law_denied_files_are_told(
    store: &PolicyStore,
    policy: &Policy,
    identity: Option<InodeIdentity>,
    access: FileAccess,
    denied: bool,
    told: FilesystemSnapshot,
)
    requires
        call_ensures(
            DenyInodeCache::is_denied,
            (&store.deny_inodes, identity, access),
            denied,
        ),
        call_ensures(PolicyStore::filesystem_snapshot, (store, policy), told),
    ensures
        identity is None ==> !denied,
        denied ==> told.denied_inodes@.contains(identity->0),
{
    if denied {
        assert(deny_inodes::entries_at(store.deny_inodes.inodes@, identity->0).len() > 0);
        assert(store.deny_inodes.inodes@.contains_key(identity->0));
    }
}

/// A walk is due exactly when what is denied has changed: another path, another use, another
/// time of change, or more or fewer of them.
pub proof fn law_walk_is_due_when_denials_change(
    cache: &DenyInodeCache,
    fingerprint: &Vec<DenyFingerprint>,
    r: bool,
)
    requires
        call_ensures(DenyInodeCache::fingerprint_changed, (cache, fingerprint), r),
    ensures
        !r <==> {
            &&& cache.fingerprint@.len() == fingerprint@.len()
            &&& forall|i: int|
                #![trigger cache.fingerprint@[i]]
                0 <= i < fingerprint@.len() ==> {
                    &&& paths::components(cache.fingerprint@[i].path@) == paths::components(
                        fingerprint@[i].path@,
                    )
                    &&& cache.fingerprint@[i].access == fingerprint@[i].access
                    &&& cache.fingerprint@[i].mtime == fingerprint@[i].mtime
                }
        },
{
    let a = deny_inodes::fingerprint_views(cache.fingerprint@);
    let b = deny_inodes::fingerprint_views(fingerprint@);
    if !r {
        assert(a.len() == b.len());
        assert forall|i: int| #![trigger cache.fingerprint@[i]] 0 <= i < fingerprint@.len() implies {
            &&& paths::components(cache.fingerprint@[i].path@) == paths::components(
                fingerprint@[i].path@,
            )
            &&& cache.fingerprint@[i].access == fingerprint@[i].access
            &&& cache.fingerprint@[i].mtime == fingerprint@[i].mtime
        } by {
            assert(a[i] == cache.fingerprint@[i]@);
            assert(b[i] == fingerprint@[i]@);
        }
    }
    if cache.fingerprint@.len() == fingerprint@.len() && forall|i: int|
        #![trigger cache.fingerprint@[i]]
        0 <= i < fingerprint@.len() ==> {
            &&& paths::components(cache.fingerprint@[i].path@) == paths::components(
                fingerprint@[i].path@,
            )
            &&& cache.fingerprint@[i].access == fingerprint@[i].access
            &&& cache.fingerprint@[i].mtime == fingerprint@[i].mtime
        } {
        assert forall|i: int| 0 <= i < a.len() implies a[i] == b[i] by {
            assert(cache.fingerprint@[i].access == fingerprint@[i].access);
        }
        assert(a =~= b);
    }
}

proof fn lemma_filed(list: Seq<DenyFingerprint>, f: DenyFingerprint, x: DenyFingerprint)
    ensures
        deny_inodes::filed(list, f).contains(x) <==> list.contains(x) || x == f,
    decreases list.len(),
{
    if list.len() > 0 && deny_inodes::path_less(
        paths::components(f.path@),
        paths::components(list.last().path@),
    ) {
        lemma_filed(list.drop_last(), f, x);
        lemma_pushed(deny_inodes::filed(list.drop_last(), f), list.last(), x);
        lemma_pushed(list.drop_last(), list.last(), x);
        assert(list =~= list.drop_last().push(list.last()));
    } else {
        lemma_pushed(list, f, x);
    }
}

proof fn lemma_pushed<T>(list: Seq<T>, item: T, x: T)
    ensures
        list.push(item).contains(x) <==> list.contains(x) || x == item,
{
    let all = list.push(item);
    if list.contains(x) {
        let i = choose|i: int| 0 <= i < list.len() && list[i] == x;
        assert(all[i] == x);
    }
    if x == item {
        assert(all[list.len() as int] == x);
    }
    if all.contains(x) {
        let i = choose|i: int| 0 <= i < all.len() && all[i] == x;
        if i < list.len() {
            assert(list[i] == x);
        }
    }
}

proof fn lemma_in_order(list: Seq<DenyFingerprint>, x: DenyFingerprint)
    ensures
        deny_inodes::in_path_order(list).contains(x) <==> list.contains(x),
    decreases list.len(),
{
    if list.len() > 0 {
        lemma_in_order(list.drop_last(), x);
        lemma_filed(deny_inodes::in_path_order(list.drop_last()), list.last(), x);
        lemma_pushed(list.drop_last(), list.last(), x);
        assert(list =~= list.drop_last().push(list.last()));
    }
}

proof fn lemma_joined<T>(a: Seq<T>, b: Seq<T>, x: T)
    ensures
        (a + b).contains(x) <==> a.contains(x) || b.contains(x),
{
    if a.contains(x) {
        let i = choose|i: int| 0 <= i < a.len() && a[i] == x;
        assert((a + b)[i] == x);
    }
    if b.contains(x) {
        let i = choose|i: int| 0 <= i < b.len() && b[i] == x;
        assert((a + b)[a.len() + i] == x);
    }
    if (a + b).contains(x) {
        let i = choose|i: int| 0 <= i < (a + b).len() && (a + b)[i] == x;
        if i < a.len() {
            assert(a[i] == x);
        } else {
            assert(b[i - a.len()] == x);
        }
    }
}

/// The mark is of a rule on the path with the access: a path without wildcards, and when it last
/// changed.
pub open spec fn marks<E: Fn(&String) -> String, S: Fn(&String) -> Option<u64>>(
    f: DenyFingerprint,
    path: String,
    access: FileAccess,
    expand: E,
    mtime: S,
) -> bool {
    &&& f.path == text::answer(expand, path)
    &&& f.access == access
    &&& f.mtime == text::answer(mtime, f.path)
    &&& !f.path@.contains('*') && !f.path@.contains('?')
}

proof fn lemma_one<E: Fn(&String) -> String, S: Fn(&String) -> Option<u64>>(
    path: String,
    access: FileAccess,
    expand: E,
    mtime: S,
    x: DenyFingerprint,
)
    ensures
        deny_inodes::fingerprint_of(text::answer(expand, path), access, mtime).contains(x)
            <==> marks(x, path, access, expand, mtime),
{
    let of = deny_inodes::fingerprint_of(text::answer(expand, path), access, mtime);
    if marks(x, path, access, expand, mtime) {
        assert(of[0] == x);
    }
    if of.contains(x) {
        let i = choose|i: int| 0 <= i < of.len() && of[i] == x;
        assert(i == 0);
    }
}

proof fn lemma_file_marks<E: Fn(&String) -> String, S: Fn(&String) -> Option<u64>>(
    rules: Seq<FilesystemRule>,
    expand: E,
    mtime: S,
    x: DenyFingerprint,
)
    ensures
        deny_inodes::filesystem_fingerprints(rules, expand, mtime).contains(x) <==> exists|i: int|
            0 <= i < rules.len() && marks(
                x,
                (#[trigger] rules[i]).path,
                rules[i].access,
                expand,
                mtime,
            ),
    decreases rules.len(),
{
    if rules.len() > 0 {
        let front = rules.drop_last();
        let last = rules.last();
        lemma_file_marks(front, expand, mtime, x);
        lemma_one(last.path, last.access, expand, mtime, x);
        lemma_joined(
            deny_inodes::filesystem_fingerprints(front, expand, mtime),
            deny_inodes::fingerprint_of(text::answer(expand, last.path), last.access, mtime),
            x,
        );
        if exists|i: int|
            0 <= i < front.len() && marks(
                x,
                (#[trigger] front[i]).path,
                front[i].access,
                expand,
                mtime,
            ) {
            let i = choose|i: int|
                0 <= i < front.len() && marks(
                    x,
                    (#[trigger] front[i]).path,
                    front[i].access,
                    expand,
                    mtime,
                );
            assert(rules[i] == front[i]);
        }
        if marks(x, last.path, last.access, expand, mtime) {
            assert(rules[rules.len() - 1] == last);
        }
        if exists|i: int|
            0 <= i < rules.len() && marks(
                x,
                (#[trigger] rules[i]).path,
                rules[i].access,
                expand,
                mtime,
            ) {
            let i = choose|i: int|
                0 <= i < rules.len() && marks(
                    x,
                    (#[trigger] rules[i]).path,
                    rules[i].access,
                    expand,
                    mtime,
                );
            if i < front.len() {
                assert(front[i] == rules[i]);
            }
        }
    }
}

proof fn lemma_resource_marks<E: Fn(&String) -> String, S: Fn(&String) -> Option<u64>>(
    rules: Seq<ResourceRule>,
    expand: E,
    mtime: S,
    x: DenyFingerprint,
)
    ensures
        deny_inodes::resource_fingerprints(rules, expand, mtime).contains(x) <==> exists|i: int|
            0 <= i < rules.len() && marks(
                x,
                (#[trigger] rules[i]).path,
                FileAccess::All,
                expand,
                mtime,
            ),
    decreases rules.len(),
{
    if rules.len() > 0 {
        let front = rules.drop_last();
        let last = rules.last();
        lemma_resource_marks(front, expand, mtime, x);
        lemma_one(last.path, FileAccess::All, expand, mtime, x);
        lemma_joined(
            deny_inodes::resource_fingerprints(front, expand, mtime),
            deny_inodes::fingerprint_of(text::answer(expand, last.path), FileAccess::All, mtime),
            x,
        );
        if exists|i: int|
            0 <= i < front.len() && marks(
                x,
                (#[trigger] front[i]).path,
                FileAccess::All,
                expand,
                mtime,
            ) {
            let i = choose|i: int|
                0 <= i < front.len() && marks(
                    x,
                    (#[trigger] front[i]).path,
                    FileAccess::All,
                    expand,
                    mtime,
                );
            assert(rules[i] == front[i]);
        }
        if marks(x, last.path, FileAccess::All, expand, mtime) {
            assert(rules[rules.len() - 1] == last);
        }
        if exists|i: int|
            0 <= i < rules.len() && marks(
                x,
                (#[trigger] rules[i]).path,
                FileAccess::All,
                expand,
                mtime,
            ) {
            let i = choose|i: int|
                0 <= i < rules.len() && marks(
                    x,
                    (#[trigger] rules[i]).path,
                    FileAccess::All,
                    expand,
                    mtime,
                );
            if i < front.len() {
                assert(front[i] == rules[i]);
            }
        }
    }
}

/// What is walked is what the policy denies by a path without wildcards: every such file rule with
/// its use, every such resource rule for every use, and nothing else.
pub proof fn law_every_plain_denial_is_walked<
    E: Fn(&String) -> String,
    S: Fn(&String) -> Option<u64>,
>(policy: &Policy, expand: &E, mtime: &S, r: Vec<DenyFingerprint>, x: DenyFingerprint)
    requires
        call_ensures(deny_inodes::deny_fingerprint::<E, S>, (policy, expand, mtime), r),
    ensures
        r@.contains(x) <==> (exists|i: int|
            0 <= i < policy.filesystem.deny@.len() && marks(
                x,
                (#[trigger] policy.filesystem.deny@[i]).path,
                policy.filesystem.deny@[i].access,
                *expand,
                *mtime,
            )) || (exists|i: int|
            0 <= i < policy.resources.deny@.len() && marks(
                x,
                (#[trigger] policy.resources.deny@[i]).path,
                FileAccess::All,
                *expand,
                *mtime,
            )),
{
    let a = deny_inodes::filesystem_fingerprints(policy.filesystem.deny@, *expand, *mtime);
    let b = deny_inodes::resource_fingerprints(policy.resources.deny@, *expand, *mtime);
    lemma_in_order(a + b, x);
    lemma_joined(a, b, x);
    lemma_file_marks(policy.filesystem.deny@, *expand, *mtime, x);
    lemma_resource_marks(policy.resources.deny@, *expand, *mtime, x);
}

} // verus!
