//! What holds of frozen sandboxes: which may be frozen, when they are thawed, and what is written
//! down of them.

use vstd::prelude::*;

use crate::freeze;
use crate::freeze::AcquireStep;
use crate::freeze::CgroupFreezeError;
use crate::freeze::CgroupFreezeHold;
use crate::freeze::CgroupFreezeManager;
use crate::freeze::CleanupStep;
use crate::freeze::FrozenStep;
use crate::freeze::PendingHold;
use crate::freeze::PersistedStep;
use crate::freeze::RegistryCleanup;
use crate::freeze::RegistryRead;
use crate::freeze::ReleaseStep;
use crate::freeze::ThawResult;
use crate::paths;
use crate::scan;
use crate::text;

verus! {

/// How many holds there are on the cgroup.
pub open spec fn holds_on(manager: CgroupFreezeManager, cgroup: Seq<Seq<char>>) -> int {
    if manager.holds@.contains_key(cgroup) {
        manager.holds@[cgroup] as int
    } else {
        0
    }
}

/// The list has a path to the cgroup.
pub open spec fn listed(list: Seq<String>, cgroup: Seq<Seq<char>>) -> bool {
    exists|i: int|
        0 <= i < list.len() && paths::components((#[trigger] list[i])@) == cgroup
}

proof fn lemma_listed(manager: CgroupFreezeManager, list: Vec<String>, cgroup: Seq<Seq<char>>)
    requires
        manager.recovery_list(list),
    ensures
        listed(list@, cgroup) <==> manager.holds@.contains_key(cgroup),
{
    let texts = text::texts(list@);
    if listed(list@, cgroup) {
        let i = choose|i: int|
            0 <= i < list@.len() && paths::components((#[trigger] list@[i])@) == cgroup;
        assert(texts[i] == list@[i]@);
        assert(manager.holds@.dom().contains(paths::components(texts[i])));
    }
    if manager.holds@.contains_key(cgroup) {
        assert(manager.holds@.dom().contains(cgroup));
        let i = choose|i: int|
            0 <= i < texts.len() && paths::components(#[trigger] texts[i]) == cgroup;
        assert(paths::components(list@[i]@) == cgroup);
    }
}

/// The rest is what follows the prefix in the first line that has it.
pub open spec fn first_line(lines: Seq<Seq<char>>, prefix: Seq<char>, rest: Seq<char>) -> bool {
    exists|i: int|
        {
            &&& 0 <= i < lines.len()
            &&& #[trigger] lines[i] == prefix + rest
            &&& forall|j: int| 0 <= j < i ==> !prefix.is_prefix_of(#[trigger] lines[j])
        }
}

proof fn lemma_first_line(lines: Seq<Seq<char>>, prefix: Seq<char>)
    ensures
        freeze::first_after(lines, prefix) matches Some(rest) ==> first_line(lines, prefix, rest),
    decreases lines.len(),
{
    if lines.len() > 0 {
        if prefix.is_prefix_of(lines[0]) {
            let rest = lines[0].skip(prefix.len() as int);
            assert(lines[0] =~= prefix + rest);
        } else {
            let tail = lines.skip(1);
            lemma_first_line(tail, prefix);
            if freeze::first_after(tail, prefix) is Some {
                let rest = freeze::first_after(tail, prefix)->0;
                let i = choose|i: int|
                    {
                        &&& 0 <= i < tail.len()
                        &&& #[trigger] tail[i] == prefix + rest
                        &&& forall|j: int| 0 <= j < i ==> !prefix.is_prefix_of(#[trigger] tail[j])
                    };
                assert(lines[i + 1] == prefix + rest);
                assert forall|j: int| 0 <= j < i + 1 implies !prefix.is_prefix_of(
                    #[trigger] lines[j],
                ) by {
                    if j > 0 {
                        assert(tail[j - 1] == lines[j]);
                    }
                }
            }
        }
    }
}

/// A cgroup is frozen for a process only where the process belongs to the expected user, the
/// cgroup lies below the cgroup mount and belongs to a scope of the sandbox, and it has a
/// freezer.
pub proof fn law_only_sandboxes_of_the_user_are_frozen<F: Fn(&String) -> bool>(
    pid: u32,
    expected_uid: Option<u32>,
    status: &Result<String, String>,
    cgroup: &Result<String, String>,
    freezer: F,
    dir: String,
)
    requires
        call_ensures(
            freeze::cgroup_for_pid::<F>,
            (pid, expected_uid, status, cgroup, freezer),
            Ok(dir),
        ),
    ensures
        text::holds(freezer, dir),
        "/sys/fs/cgroup/"@.is_prefix_of(dir@),
        exists|i: int|
            0 <= i < paths::components(dir@).len() && ({
                let name = #[trigger] paths::components(dir@)[i];
                let suffix = scan::after_prefix(name, "agent-sandbox-"@);
                &&& suffix is Some
                &&& scan::after_last(suffix->0, '.') is Some
                &&& scan::after_last(suffix->0, '.')->0.len() == 5
            }),
        expected_uid is Some ==> *status is Ok && exists|rest: Seq<char>|
            {
                &&& #[trigger] first_line(scan::lines_of(status->Ok_0@), "Uid:"@, rest)
                &&& scan::words_of(rest).len() > 0
                &&& scan::number_of(scan::words_of(rest)[0]) == Some(expected_uid->0 as nat)
            },
        *cgroup is Ok && exists|rest: Seq<char>|
            {
                &&& #[trigger] first_line(scan::lines_of(cgroup->Ok_0@), "0::"@, rest)
                &&& dir@ == "/sys/fs/cgroup/"@ + freeze::without_leading_slashes(rest)
            },
{
    if expected_uid is Some {
        lemma_first_line(scan::lines_of(status->Ok_0@), "Uid:"@);
    }
    lemma_first_line(scan::lines_of(cgroup->Ok_0@), "0::"@);
    let relative = freeze::first_after(scan::lines_of(cgroup->Ok_0@), "0::"@)->0;
    let base = "/sys/fs/cgroup/"@;
    assert(dir@ == base + freeze::without_leading_slashes(relative));
    assert(base =~= dir@.take(base.len() as int));
    let i = choose|i: int|
        0 <= i < paths::components(dir@).len() && freeze::scope_name(
            #[trigger] paths::components(dir@)[i],
        );
    assert(freeze::scope_name(paths::components(dir@)[i]));
}

/// To take a hold on a cgroup adds one to its holds and touches no other; it is to be frozen
/// exactly where nobody held it, and what is to be written down lists every cgroup that is held,
/// this one among them. Where no process is known, or none of its cgroups may be frozen, nothing
/// is held.
pub proof fn law_taking_a_hold_adds_one(
    manager: &mut CgroupFreezeManager,
    pid: Option<u32>,
    found: Result<String, CgroupFreezeError>,
    r: Result<AcquireStep, CgroupFreezeError>,
    other: Seq<Seq<char>>,
)
    requires
        call_ensures(CgroupFreezeManager::acquire, (manager, pid, found), r),
        found is Ok ==> holds_on(*old(manager), paths::components(found->Ok_0@)) < usize::MAX,
    ensures
        pid is None || found is Err ==> *final(manager) == *old(manager) && !(r is Ok
            && r->Ok_0 is Persist),
        pid is Some && found is Ok ==> {
            let cgroup = paths::components(found->Ok_0@);
            &&& r is Ok && r->Ok_0 is Persist
            &&& r->Ok_0->pending.path == found->Ok_0
            &&& r->Ok_0->pending.first <==> holds_on(*old(manager), cgroup) == 0
                && !old(manager).holds@.contains_key(cgroup)
            &&& holds_on(*final(manager), cgroup) == holds_on(*old(manager), cgroup) + 1
            &&& other != cgroup ==> holds_on(*final(manager), other) == holds_on(
                *old(manager),
                other,
            )
            &&& listed(r->Ok_0->list@, other) <==> final(manager).holds@.contains_key(other)
            &&& listed(r->Ok_0->list@, cgroup)
        },
        pid is Some && found is Err ==> r is Err,
{
    if pid is Some && found is Ok {
        let cgroup = paths::components(found->Ok_0@);
        lemma_listed(*final(manager), r->Ok_0->list, other);
        lemma_listed(*final(manager), r->Ok_0->list, cgroup);
    }
}

/// Where the list could not be written the hold is given back: one less than before, and no other
/// cgroup is touched. Where it was written the holds stand; the first hold goes on to freeze the
/// cgroup, any other is held.
pub proof fn law_unwritten_hold_is_given_back(
    manager: &mut CgroupFreezeManager,
    pending: PendingHold,
    written: Result<(), String>,
    r: PersistedStep,
    other: Seq<Seq<char>>,
)
    requires
        call_ensures(CgroupFreezeManager::on_persisted, (manager, pending, written), r),
        holds_on(*old(manager), paths::components(pending.path@)) >= 1,
    ensures
        r is Failed <==> written is Err,
        written is Ok ==> holds_on(*final(manager), other) == holds_on(*old(manager), other),
        written is Ok ==> if pending.first {
            r is Freeze && r->Freeze_0 == pending.path
        } else {
            r is Held && r->Held_0.path == pending.path
        },
        written is Err ==> holds_on(*final(manager), other) == holds_on(*old(manager), other) - (
        if other == paths::components(pending.path@) {
            1int
        } else {
            0int
        }),
{
}

/// A cgroup that could not be frozen is not held: its hold is given back, no other is touched, and
/// what is to be written down lists exactly what is still held.
pub proof fn law_unfrozen_cgroup_is_not_held(
    manager: &mut CgroupFreezeManager,
    path: String,
    frozen: Result<(), String>,
    r: FrozenStep,
    other: Seq<Seq<char>>,
)
    requires
        call_ensures(CgroupFreezeManager::on_frozen, (manager, path, frozen), r),
        holds_on(*old(manager), paths::components(path@)) >= 1,
    ensures
        r is Held <==> frozen is Ok,
        frozen is Ok ==> r->Held_0.path == path && holds_on(*final(manager), other) == holds_on(
            *old(manager),
            other,
        ),
        frozen is Err ==> {
            &&& holds_on(*final(manager), other) == holds_on(*old(manager), other) - (if other
                == paths::components(path@) {
                1int
            } else {
                0int
            })
            &&& listed(r->list@, other) <==> final(manager).holds@.contains_key(other)
        },
{
    if frozen is Err {
        lemma_listed(*final(manager), r->list, other);
    }
}

/// A cgroup is thawed only when its last hold is given back; an earlier one takes one hold off and
/// leaves it frozen. No other cgroup is touched.
pub proof fn law_only_the_last_hold_thaws(
    manager: &mut CgroupFreezeManager,
    hold: CgroupFreezeHold,
    r: ReleaseStep,
    other: Seq<Seq<char>>,
)
    requires
        call_ensures(CgroupFreezeManager::release, (manager, hold), r),
    ensures
        r is Thaw <==> holds_on(*old(manager), paths::components(hold.path@)) == 1,
        r is Thaw ==> r->Thaw_0 == hold.path,
        other != paths::components(hold.path@) || r is Thaw ==> holds_on(*final(manager), other)
            == holds_on(*old(manager), other),
        holds_on(*old(manager), paths::components(hold.path@)) > 1 ==> holds_on(
            *final(manager),
            paths::components(hold.path@),
        ) == holds_on(*old(manager), paths::components(hold.path@)) - 1,
        r is Persist ==> (listed(r->Persist_0@, other) <==> final(manager).holds@.contains_key(
            other,
        )),
{
    if r is Persist {
        lemma_listed(*final(manager), r->Persist_0, other);
    }
}

/// A cgroup that was thawed is held no more and no longer listed; one that could not be stays held
/// and listed, so that it can be recovered. No other is touched.
pub proof fn law_unthawed_cgroup_stays_listed(
    manager: &mut CgroupFreezeManager,
    path: String,
    ok: bool,
    r: Vec<String>,
    other: Seq<Seq<char>>,
)
    requires
        call_ensures(CgroupFreezeManager::thawed, (manager, path, ok), r),
        holds_on(*old(manager), paths::components(path@)) == 1,
    ensures
        final(manager).holds@.contains_key(paths::components(path@)) <==> !ok,
        listed(r@, paths::components(path@)) <==> !ok,
        other != paths::components(path@) ==> {
            &&& holds_on(*final(manager), other) == holds_on(*old(manager), other)
            &&& listed(r@, other) <==> old(manager).holds@.contains_key(other)
        },
{
    lemma_listed(*final(manager), r, other);
    lemma_listed(*final(manager), r, paths::components(path@));
}

proof fn lemma_stale(lines: Seq<Seq<char>>, x: Seq<char>)
    ensures
        freeze::stale_lines(lines).contains(x) <==> lines.contains(x) && freeze::stale(x),
    decreases lines.len(),
{
    if lines.len() > 0 {
        let front = lines.drop_last();
        lemma_stale(front, x);
        let rest = freeze::stale_lines(front);
        if lines.contains(x) {
            let i = choose|i: int| 0 <= i < lines.len() && lines[i] == x;
            if i < front.len() {
                assert(front[i] == x);
            }
        }
        if front.contains(x) {
            let i = choose|i: int| 0 <= i < front.len() && front[i] == x;
            assert(lines[i] == x);
        }
        if x == lines.last() {
            assert(lines[lines.len() - 1] == x);
        }
        if freeze::stale(lines.last()) {
            let all = rest.push(lines.last());
            assert(freeze::stale_lines(lines) == all);
            if rest.contains(x) {
                let i = choose|i: int| 0 <= i < rest.len() && rest[i] == x;
                assert(all[i] == x);
            }
            if x == lines.last() {
                assert(all[rest.len() as int] == x);
            }
            if all.contains(x) {
                let i = choose|i: int| 0 <= i < all.len() && all[i] == x;
                if i < rest.len() {
                    assert(rest[i] == x);
                }
            }
        }
    }
}

/// What an earlier run left frozen is thawed as it was written down: every line that names a path
/// below the cgroup mount, and nothing else.
pub proof fn law_recovery_thaws_what_was_written_down(
    cleanup: &mut RegistryCleanup,
    contents: String,
    r: CleanupStep,
    path: Seq<char>,
)
    requires
        call_ensures(
            RegistryCleanup::on_read,
            (cleanup, RegistryRead::Contents(contents)),
            r,
        ),
    ensures
        r is Thaw,
        text::texts(r->Thaw_0@).contains(path) <==> scan::lines_of(contents@).contains(path)
            && paths::components("/sys/fs/cgroup"@).is_prefix_of(paths::components(path)),
{
    lemma_stale(scan::lines_of(contents@), path);
}

/// What was written down is taken away only when nothing that it names stayed frozen; a cgroup
/// that is gone counts as thawed.
pub proof fn law_registry_goes_only_when_all_is_thawed(
    cleanup: &RegistryCleanup,
    results: &Vec<ThawResult>,
    r: CleanupStep,
)
    requires
        call_ensures(RegistryCleanup::on_thawed, (cleanup, results), r),
    ensures
        r is Remove <==> forall|i: int|
            0 <= i < results@.len() ==> (#[trigger] results@[i] is Thawed) || results@[i] is Missing,
        r is Remove ==> r->Remove_0@ == cleanup.registry@,
        !(r is Remove) ==> r is Done && r->Done_0 is Err,
{
    assert(freeze::none_failed(results@) <==> forall|i: int|
        0 <= i < results@.len() ==> (#[trigger] results@[i] is Thawed) || results@[i] is Missing)
        by {
        if freeze::none_failed(results@) {
            assert forall|i: int| 0 <= i < results@.len() implies (#[trigger] results@[i] is Thawed)
                || results@[i] is Missing by {
                assert(!(results@[i] is Failed));
            }
        }
        if forall|i: int|
            0 <= i < results@.len() ==> (#[trigger] results@[i] is Thawed) || results@[i] is Missing {
            assert forall|i: int| 0 <= i < results@.len() implies !(#[trigger] results@[i] is Failed) by {
                assert(results@[i] is Thawed || results@[i] is Missing);
            }
        }
    }
}

} // verus!
