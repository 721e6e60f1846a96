//! What holds of commands: which programs are run, with what, and for whom.

use vstd::prelude::*;

use crate::elevation;
use crate::elevation::ElevateReply;
use crate::elevation::ElevationCommand;
use crate::elevation::ElevationTarget;
use crate::error::PolicydError;
use crate::paths;
use crate::scan;

verus! {

/// The program is named by its whole path below the system's, without a way up or out.
pub open spec fn system_path(program: Seq<char>) -> bool {
    let base = "/run/current-system/"@;
    let rest = program.skip(base.len() as int);
    &&& base.is_prefix_of(program)
    &&& rest.len() > 0
    &&& rest[0] != '/'
    &&& forall|i: int|
        0 <= i < scan::split_on(rest, '/').len() ==> (#[trigger] scan::split_on(rest, '/')[i])
            != "."@ && scan::split_on(rest, '/')[i] != ".."@
}

/// The program is named by one plain name.
pub open spec fn plain_name(program: Seq<char>) -> bool {
    let parts = paths::components(program);
    &&& program.len() > 0
    &&& program[0] != '/'
    &&& parts.len() == 1
    &&& parts[0] != "/"@ && parts[0] != "."@ && parts[0] != ".."@
}

/// A command is run only by a whole path below the system's, taken as it is, or by a plain name,
/// which is looked for among the system's programs. Anything else is refused, and so is a command
/// without words.
pub proof fn law_only_programs_of_the_system_are_run(
    argv: &Vec<String>,
    r: Result<String, PolicydError>,
)
    requires
        call_ensures(elevation::elevation_candidate, (argv,), r),
    ensures
        argv@.len() == 0 ==> r is Err && r->Err_0 is ArgvRequired,
        argv@.len() > 0 ==> {
            let program = argv@[0]@;
            &&& r is Ok <==> system_path(program) || plain_name(program)
            &&& r is Ok && program[0] == '/' ==> r->Ok_0@ == program
            &&& r is Ok && program[0] != '/' ==> r->Ok_0@ == "/run/current-system/sw/bin/"@
                + program
            &&& r is Err ==> r->Err_0 is ElevationArgvNotAbsolute
        },
{
    reveal_strlit("/run/current-system/");
    reveal_strlit("/run/current-system/sw/bin");
    reveal_strlit("/run/current-system/sw/bin/");
    if argv@.len() > 0 {
        let program = argv@[0]@;
        let base = "/run/current-system/"@;
        if base.is_prefix_of(program) {
            assert(program[0] == base[0]);
        }
        if paths::absolute(program) {
            assert(system_path(program) <==> elevation::trusted_candidate(program) is Some);
        } else if r is Ok {
            assert("/run/current-system/sw/bin/"@ =~= "/run/current-system/sw/bin"@ + seq!['/']);
        }
        if program.len() == 0 {
            assert(scan::split_on(program, '/') =~= seq![program]) by {
                reveal_with_fuel(scan::split_on, 2);
            }
            assert(paths::kept(scan::split_on(program, '/'), true) =~= Seq::empty()) by {
                reveal_with_fuel(paths::kept, 2);
            }
        }
    }
}

/// A command that is run is one that may be, whose program is a file of the store; it is run as
/// that file, under the name that was looked for, with the words that were given and from the
/// given directory.
pub proof fn law_command_is_run_as_it_was_given(
    argv: &Vec<String>,
    target: Option<ElevationTarget>,
    work_dir: Option<String>,
    looked_for: Result<String, PolicydError>,
    r: Result<ElevationCommand, PolicydError>,
)
    requires
        call_ensures(elevation::elevation_candidate, (argv,), looked_for),
        call_ensures(elevation::resolve_elevation_argv, (argv, target, work_dir), r),
    ensures
        r is Ok <==> looked_for is Ok && target is Some && target->0.is_file && paths::components(
            "/nix/store/"@,
        ).is_prefix_of(paths::components(target->0.canonical@)),
        r is Ok ==> {
            &&& r->Ok_0.program == target->0.canonical
            &&& r->Ok_0.arg0@ == looked_for->Ok_0@
            &&& r->Ok_0.arguments@.len() == argv@.len() - 1
            &&& forall|i: int|
                0 <= i < r->Ok_0.arguments@.len() ==> #[trigger] r->Ok_0.arguments@[i] == argv@[i
                    + 1]
            &&& work_dir is Some ==> r->Ok_0.work_dir@ == work_dir->0@
            &&& work_dir is None ==> r->Ok_0.work_dir@ == "/"@
        },
        looked_for is Err ==> r is Err && r->Err_0 == looked_for->Err_0,
{
}

/// A command that cannot be resolved is refused or denied, and never taken for one that was run.
pub proof fn law_unresolved_command_is_not_run(error: &PolicydError, r: ElevateReply)
    requires
        call_ensures(elevation::elevation_refused, (error,), r),
    ensures
        r is Refused <==> *error is ElevationArgvNotAbsolute,
        r is Denied <==> !(*error is ElevationArgvNotAbsolute),
{
}

proof fn lemma_first_user(lines: Seq<Seq<char>>, home: Seq<char>, i: int)
    requires
        0 <= i < lines.len(),
        elevation::names_home(lines[i], home),
        forall|j: int| 0 <= j < i ==> !elevation::names_home(#[trigger] lines[j], home),
    ensures
        elevation::first_user(lines, home) == Some(scan::split_on(lines[i], ':')[0]),
    decreases i,
{
    if i > 0 {
        assert(!elevation::names_home(lines[0], home));
        assert(lines.skip(1)[i - 1] == lines[i]);
        assert forall|j: int| 0 <= j < i - 1 implies !elevation::names_home(
            #[trigger] lines.skip(1)[j],
            home,
        ) by {
            assert(lines.skip(1)[j] == lines[j + 1]);
        }
        lemma_first_user(lines.skip(1), home, i - 1);
    }
}

proof fn lemma_no_user(lines: Seq<Seq<char>>, home: Seq<char>)
    requires
        forall|j: int| 0 <= j < lines.len() ==> !elevation::names_home(#[trigger] lines[j], home),
    ensures
        elevation::first_user(lines, home) is None,
    decreases lines.len(),
{
    if lines.len() > 0 {
        assert(!elevation::names_home(lines[0], home));
        assert forall|j: int| 0 <= j < lines.skip(1).len() implies !elevation::names_home(
            #[trigger] lines.skip(1)[j],
            home,
        ) by {
            assert(lines.skip(1)[j] == lines[j + 1]);
        }
        lemma_no_user(lines.skip(1), home);
    }
}

/// The line of the user table is of a user with the home: its sixth field is the home, and its
/// first is not empty.
pub open spec fn user_line(line: Seq<char>, home: Seq<char>) -> bool {
    let fields = scan::split_on(line, ':');
    &&& home.len() > 0 ==> fields.len() >= 6
    &&& fields.len() >= 6 ==> fields[5] == home
    &&& fields[0].len() > 0
}

/// A command is run for the first user of the table with the home; where the table has none, for
/// the one that the home is named after, and without a home for root.
pub proof fn law_command_is_run_for_the_users_home(
    home: &Option<String>,
    passwd: &Option<String>,
    r: String,
    env: Vec<(String, String)>,
    i: int,
)
    requires
        call_ensures(elevation::user_for_home, (home, passwd), r),
        call_ensures(elevation::elevation_env, (home, passwd), env),
    ensures
        *home is None ==> r@ == "root"@,
        *home is Some && *passwd is Some && home->0@.len() > 0 ==> {
            let lines = scan::lines_of(passwd->0@);
            &&& 0 <= i < lines.len() && user_line(lines[i], home->0@) && (forall|j: int|
                0 <= j < i ==> !user_line(#[trigger] lines[j], home->0@)) ==> r@
                == scan::split_on(lines[i], ':')[0]
            &&& (forall|j: int|
                0 <= j < lines.len() ==> !user_line(#[trigger] lines[j], home->0@)) ==> r@
                == elevation::home_name(home->0@)
        },
        *home is Some && *passwd is None ==> r@ == elevation::home_name(home->0@),
        env@.len() == 2,
        env@[0].0@ == "AGENT_SANDBOX_ELEVATE_USER"@ && env@[0].1@ == r@,
        env@[1].0@ == "PATH"@ && env@[1].1@ == "/run/current-system/sw/bin"@,
{
    if *home is Some && *passwd is Some && home->0@.len() > 0 {
        let lines = scan::lines_of(passwd->0@);
        assert forall|j: int| 0 <= j < lines.len() implies elevation::names_home(
            #[trigger] lines[j],
            home->0@,
        ) == user_line(lines[j], home->0@) by {}
        if 0 <= i < lines.len() && user_line(lines[i], home->0@) && (forall|j: int|
            0 <= j < i ==> !user_line(#[trigger] lines[j], home->0@)) {
            assert forall|j: int| 0 <= j < i implies !elevation::names_home(
                #[trigger] lines[j],
                home->0@,
            ) by {
                assert(!user_line(lines[j], home->0@));
            }
            lemma_first_user(lines, home->0@, i);
        }
        if forall|j: int| 0 <= j < lines.len() ==> !user_line(#[trigger] lines[j], home->0@) {
            assert forall|j: int| 0 <= j < lines.len() implies !elevation::names_home(
                #[trigger] lines[j],
                home->0@,
            ) by {
                assert(!user_line(lines[j], home->0@));
            }
            lemma_no_user(lines, home->0@);
        }
    }
}

} // verus!
