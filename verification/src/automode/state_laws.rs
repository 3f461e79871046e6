//! Which run comes next, where it keeps its state, and what it starts from.
use crate::automode::state::{
    deadline_after, deadline_timestamp, initial_document, initial_progress_document, initial_state,
    largest_run, law_next_run_is_new, lemma_run_number, load_state, names_run, next_run,
    next_run_name, parse_run_number, resolve_state_dir, run_line, run_number, run_root,
    run_root_dir, state_dir_of, timestamp_secs,
};
use crate::automode::types::{AutomodeState, StateModel};
use crate::paths::{joined, PathRules};
use crate::text::{decimal, holds, lemma_holds_further, opt_text, texts, trim_of};
use vstd::prelude::*;

verus! {

/// A name names a run if it is `run` with a number from one up behind it, written without leading
/// zeros, and then it names the run with that number.
pub proof fn law_names_of_runs(name: Seq<char>, number: nat)
    ensures
        0 < number <= u64::MAX ==> run_number("run"@ + decimal(number)) == Some(number),
        run_number(name) matches Some(n) ==> 0 < n <= u64::MAX && name == "run"@ + decimal(n),
{
    if 0 < number <= u64::MAX {
        lemma_run_number("run"@ + decimal(number), number);
    }
    if run_number(name) is Some {
        let n = choose|n: nat| names_run(name, n);
        assert(names_run(name, n));
    }
}

/// The run that comes next has the number behind the largest that is there, and the number one
/// where there is none. There is no next one only behind the largest number of all.
pub proof fn law_which_run_comes_next(names: Seq<Seq<char>>)
    ensures
        (forall|i: int| 0 <= i < names.len() ==> run_number(#[trigger] names[i]) is None)
            ==> next_run(names) == Ok::<Seq<char>, Seq<char>>("run"@ + decimal(1)),
        (exists|i: int| 0 <= i < names.len() && run_number(#[trigger] names[i]) is Some)
            ==> exists|i: int|
            {
                &&& 0 <= i < names.len()
                &&& run_number(#[trigger] names[i]) is Some
                &&& forall|j: int|
                    0 <= j < names.len() && run_number(#[trigger] names[j]) is Some ==> run_number(
                        names[j],
                    )->0 <= run_number(names[i])->0
                &&& run_number(names[i])->0 < u64::MAX ==> next_run(names) == Ok::<
                    Seq<char>,
                    Seq<char>,
                >("run"@ + decimal(run_number(names[i])->0 + 1))
                &&& run_number(names[i])->0 == u64::MAX ==> next_run(names) is Err
            },
{
    lemma_largest(names);
    if exists|i: int| 0 <= i < names.len() && run_number(#[trigger] names[i]) is Some {
        let k = choose|i: int| 0 <= i < names.len() && run_number(#[trigger] names[i]) is Some;
        law_names_of_runs(names[k], 0);
        assert(run_number(names[k])->0 > 0);
        assert(largest_run(names) > 0);
        let i = choose|i: int|
            0 <= i < names.len() && #[trigger] run_number(names[i]) == Some(largest_run(names));
        law_names_of_runs(names[i], 0);
        assert(run_number(names[i]) == Some(largest_run(names)));
    } else {
        if largest_run(names) > 0 {
            let i = choose|i: int|
                0 <= i < names.len() && #[trigger] run_number(names[i]) == Some(largest_run(names));
            assert(run_number(names[i]) is Some);
        }
    }
}

proof fn lemma_largest(names: Seq<Seq<char>>)
    ensures
        largest_run(names) > 0 ==> exists|i: int|
            0 <= i < names.len() && #[trigger] run_number(names[i]) == Some(largest_run(names)),
        forall|i: int|
            0 <= i < names.len() && run_number(#[trigger] names[i]) is Some ==> run_number(
                names[i],
            )->0 <= largest_run(names),
    decreases names.len(),
{
    if names.len() > 0 {
        let before = names.drop_last();
        lemma_largest(before);
        assert forall|i: int|
            0 <= i < names.len() && run_number(#[trigger] names[i]) is Some implies run_number(
            names[i],
        )->0 <= largest_run(names) by {
            if i < before.len() {
                assert(before[i] == names[i]);
            }
        }
        if largest_run(names) > 0 {
            if largest_run(names) == largest_run(before) {
                let i = choose|i: int|
                    0 <= i < before.len() && #[trigger] run_number(before[i]) == Some(
                        largest_run(before),
                    );
                assert(run_number(names[i]) == Some(largest_run(names)));
            } else {
                assert(run_number(names[names.len() - 1]) == Some(largest_run(names)));
            }
        }
    }
}

/// Where a run keeps its state: where it was told to, seen from the project, or else under the name
/// of the next run, in the project's own directory for runs.
pub proof fn law_where_state_is_kept(
    separator: char,
    project: Seq<char>,
    asked: Option<Seq<char>>,
    names: Seq<Seq<char>>,
)
    ensures
        run_root(separator, project) == joined(
            separator,
            joined(separator, project, ".codex"@),
            "automode"@,
        ),
        asked matches Some(path) ==> state_dir_of(separator, project, asked, names) == Ok::<
            Seq<char>,
            Seq<char>,
        >(joined(separator, project, path)),
        asked is None ==> state_dir_of(separator, project, asked, names) == (match next_run(names) {
            Ok(name) => Ok::<Seq<char>, Seq<char>>(
                joined(separator, run_root(separator, project), name),
            ),
            Err(message) => Err::<Seq<char>, Seq<char>>(message),
        }),
{
}

/// What a run starts from. Its goal, its project and its deadline are those of this run. Of an
/// earlier run in the same directory it keeps when that started, how many iterations it had, the
/// last decision and the last turn, and its progress document unless that is blank. A new run
/// starts now, and with none of these.
pub proof fn law_what_a_run_starts_from(
    separator: char,
    kept: Option<StateModel>,
    state_dir: Seq<char>,
    goal: Seq<char>,
    project: Seq<char>,
    started_at: i64,
    deadline_at: i64,
)
    ensures
        ({
            let state = initial_state(
                separator,
                kept,
                state_dir,
                goal,
                project,
                started_at,
                deadline_at,
            );
            let document = initial_document(separator, goal, project, state_dir);
            &&& state.goal == goal
            &&& state.project == project
            &&& state.deadline_at == deadline_at
            &&& kept matches Some(earlier) ==> {
                &&& state.started_at == earlier.started_at
                &&& state.iteration == earlier.iteration
                &&& state.last_decision == earlier.last_decision
                &&& state.last_worker_summary == earlier.last_worker_summary
                &&& trim_of(earlier.progress_document).len() > 0 ==> state.progress_document
                    == earlier.progress_document
                &&& trim_of(earlier.progress_document).len() == 0 ==> state.progress_document
                    == document
            }
            &&& kept is None ==> {
                &&& state.started_at == started_at
                &&& state.iteration == 0
                &&& state.last_decision is None
                &&& state.last_worker_summary is None
                &&& state.progress_document == document
            }
        }),
{
}

/// The document that a run starts with names its goal, its project, and the run if it is a numbered
/// one.
pub proof fn law_first_documents(
    separator: char,
    goal: Seq<char>,
    project: Seq<char>,
    state_dir: Seq<char>,
)
    ensures
        ({
            let document = initial_document(separator, goal, project, state_dir);
            &&& ("# Automode Progress\n\nGoal: "@ + goal + "\n\nProject: "@
                + project).is_prefix_of(document)
            &&& holds(document, "\n\nProject: "@ + project + run_line(separator, state_dir))
            &&& crate::paths::name_of(separator, state_dir) matches Some(name) ==> (
            if run_number(name) is Some {
                run_line(separator, state_dir) == "\n\nRun: "@ + name
            } else {
                run_line(separator, state_dir).len() == 0
            })
            &&& crate::paths::name_of(separator, state_dir) is None ==> run_line(
                separator,
                state_dir,
            ).len() == 0
        }),
{
    reveal_strlit("");
    let head = "# Automode Progress\n\nGoal: "@ + goal;
    let line = run_line(separator, state_dir);
    let note =
        "\n\nNo simulated operator decision has been recorded yet. The first operator turn must define numeric metrics with fixed baselines and targets before worker turns begin.\n"@;
    let document = initial_document(separator, goal, project, state_dir);
    let front = head + "\n\nProject: "@ + project;
    assert(document == front + line + note);
    assert(front =~= document.subrange(0, front.len() as int));
    crate::text::lemma_holds_three(head, "\n\nProject: "@, project, line);
    lemma_holds_further(
        front + line,
        "\n\nProject: "@ + project + line,
        note,
    );
}

/// A run ends as many seconds after its start as it is to last, or with the end of all times that
/// can be written, if that comes first: never before it starts. A run that is to last longer ends
/// no earlier.
pub proof fn law_when_a_timed_run_ends(started_at: i64, secs: u64, more: u64)
    requires
        secs <= more <= i64::MAX,
    ensures
        started_at + secs <= i64::MAX ==> deadline_after(started_at, secs) == started_at + secs,
        started_at + secs > i64::MAX ==> deadline_after(started_at, secs) == i64::MAX,
        started_at <= deadline_after(started_at, secs),
        deadline_after(started_at, secs) <= deadline_after(started_at, more),
{
}

/// A name is read as the number of a run exactly if it is what that run is called.
pub proof fn law_reading_a_run_number(value: &str, number: u64, r: Option<u64>)
    requires
        call_ensures(parse_run_number, (value,), r),
    ensures
        r == Some(number) <==> number > 0 && value@ == "run"@ + decimal(number as nat),
{
    law_names_of_runs(value@, number as nat);
}

/// The name that is given to the next run is new, and is read as a number above all that are there.
pub proof fn law_naming_the_next_run(names: &Vec<String>, r: Result<String, String>)
    requires
        call_ensures(next_run_name, (names,), r),
    ensures
        r matches Ok(name) ==> {
            &&& forall|i: int| 0 <= i < names@.len() ==> (#[trigger] names@[i])@ != name@
            &&& run_number(name@) is Some
            &&& forall|i: int|
                0 <= i < names@.len() && run_number((#[trigger] names@[i])@) is Some ==> run_number(
                    names@[i]@,
                )->0 < run_number(name@)->0
            &&& names@.len() == 0 ==> name@ == "run"@ + decimal(1)
        },
        r is Err ==> exists|i: int|
            0 <= i < names@.len() && run_number((#[trigger] names@[i])@) == Some(u64::MAX as nat),
{
    let all = texts(names@);
    law_which_run_comes_next(all);
    lemma_largest(all);
    if r is Ok {
        law_next_run_is_new(all);
        assert forall|i: int| 0 <= i < names@.len() implies (#[trigger] names@[i])@
            != r->Ok_0@ by {
            assert(all[i] == names@[i]@);
            assert(all.contains(all[i]));
        }
        assert forall|i: int|
            0 <= i < names@.len() && run_number((#[trigger] names@[i])@) is Some implies run_number(
            names@[i]@,
        )->0 < run_number(r->Ok_0@)->0 by {
            assert(all[i] == names@[i]@);
        }
    } else {
        assert(largest_run(all) > 0);
        let i = choose|i: int|
            0 <= i < all.len() && #[trigger] run_number(all[i]) == Some(largest_run(all));
        law_names_of_runs(all[i], 0);
        assert(all[i] == names@[i]@);
        assert(run_number(names@[i]@) == Some(u64::MAX as nat));
    }
}

/// The directory that is found for the state of a run is the one that was asked for, seen from the
/// project, or one that is named like the next run, under the project.
pub proof fn law_finding_the_state(
    rules: PathRules,
    project: &str,
    state_dir: Option<String>,
    names: &Vec<String>,
    r: Result<String, String>,
)
    requires
        call_ensures(resolve_state_dir, (rules, project, state_dir, names), r),
    ensures
        state_dir matches Some(asked) ==> r is Ok && r->Ok_0@ == joined(rules@, project@, asked@),
        state_dir is None && r is Ok ==> next_run(texts(names@)) is Ok && r->Ok_0@ == joined(
            rules@,
            joined(rules@, joined(rules@, project@, ".codex"@), "automode"@),
            next_run(texts(names@))->Ok_0,
        ),
        state_dir is None ==> (r is Ok <==> next_run(texts(names@)) is Ok),
{
    law_where_state_is_kept(rules@, project@, opt_text(state_dir), texts(names@));
}

/// What a run is started from, and what it keeps of an earlier one.
pub proof fn law_loading_the_state(
    rules: PathRules,
    kept: Option<AutomodeState>,
    state_dir: &str,
    goal: &str,
    project: &str,
    started_at: i64,
    deadline_at: i64,
    state: AutomodeState,
)
    requires
        call_ensures(
            load_state,
            (rules, kept, state_dir, goal, project, started_at, deadline_at),
            state,
        ),
    ensures
        state.goal@ == goal@,
        state.project@ == project@,
        state.deadline_at == deadline_at,
        kept matches Some(earlier) ==> {
            &&& state.started_at == earlier.started_at
            &&& state.iteration == earlier.iteration
            &&& state@.last_decision == earlier@.last_decision
            &&& state@.last_worker_summary == earlier@.last_worker_summary
            &&& trim_of(earlier.progress_document@).len() > 0 ==> state.progress_document@
                == earlier.progress_document@
        },
        kept is None ==> state.started_at == started_at && state.iteration == 0
            && state.last_decision is None && state.last_worker_summary is None,
{
    law_what_a_run_starts_from(
        rules@,
        match kept {
            Some(earlier) => Some(earlier@),
            None => None,
        },
        state_dir@,
        goal@,
        project@,
        started_at,
        deadline_at,
    );
    let m = state@;
    assert(m.last_decision is None <==> state.last_decision is None);
    assert(m.last_worker_summary is None <==> state.last_worker_summary is None);
}

/// When a run ends, in timestamps: so many seconds after its start, and never before it. Seconds
/// that have no room in a timestamp are held at the end of its range.
pub proof fn law_timestamps(
    started_at: i64,
    secs: u64,
    deadline: i64,
    stamp: i64,
)
    requires
        call_ensures(deadline_timestamp, (started_at, secs), deadline),
        call_ensures(timestamp_secs, (secs,), stamp),
    ensures
        secs <= i64::MAX ==> stamp == secs,
        secs > i64::MAX ==> stamp == i64::MAX,
        secs <= i64::MAX && started_at + secs <= i64::MAX ==> deadline == started_at + secs,
        secs <= i64::MAX && started_at + secs > i64::MAX ==> deadline == i64::MAX,
{
}

/// The document that a run starts with, and the directory for runs, when they are asked for.
pub proof fn law_asking_for_the_first_document(
    rules: PathRules,
    goal: &str,
    project: &str,
    state_dir: &str,
    document: String,
    root: String,
)
    requires
        call_ensures(initial_progress_document, (rules, goal, project, state_dir), document),
        call_ensures(run_root_dir, (rules, project), root),
    ensures
        ("# Automode Progress\n\nGoal: "@ + goal@ + "\n\nProject: "@ + project@).is_prefix_of(
            document@,
        ),
        crate::paths::name_of(rules@, state_dir@) matches Some(name) ==> (run_number(name) is Some
            ==> holds(document@, "\n\nProject: "@ + project@ + ("\n\nRun: "@ + name))),
        root@ == joined(rules@, joined(rules@, project@, ".codex"@), "automode"@),
{
    law_first_documents(rules@, goal@, project@, state_dir@);
}

} // verus!
