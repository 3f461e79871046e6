//! What an interactive run is started with, what its turns are told, and where its goal is found.
use crate::duration::duration_text;
use crate::json::{json_pair, json_text_member};
use crate::paths::{joined, PathRules};
use crate::session::command::{
    AutomodeResumeRequest, AutomodeStartRequest, RequestModel, ResumeModel,
};
use crate::session::document::{
    build_turn_prompt, first_document, initial_progress_document, remaining_text, truncate,
    turn_prompt,
};
use crate::session::goal::{
    goal_in_document, goal_in_line, goal_in_lines, goal_in_state, kept_goal, not_blank,
    read_goal_from_exec_state, read_goal_from_progress_doc, read_goal_from_tui_state,
    read_resume_goal, resume_from, resume_with_goal, resumed, tui_state_contents, GoalSources,
    SourcesModel,
};
use crate::session::goal_laws::law_first_document_keeps_the_goal;
use crate::session::run_state::{
    files_of, is_over, next_iteration, plan_start, prompt_of, session_of, start_plan, time_left,
    AutomodeRunState, AutomodeTurnPrompt, SessionModel, StartFiles,
};
use crate::text::{
    decimal, holds, is_space, lemma_holds_end, lemma_holds_further, lemma_holds_neighbours,
    lemma_run_on, lemma_run_one, lemma_trim_blank, lemma_trim_bounds, lines_of, opt_text,
    run_together, trim_of,
};
use vstd::prelude::*;

verus! {

/// A turn is told the project, the goal, the state directory, the progress document, which turn of
/// the run it is, and how much time is left. It runs in the project, and what is shown in place of
/// the prompt is the number of the turn and the goal, cut off after 120 characters.
pub proof fn law_what_a_turn_is_told(session: SessionModel, now: u128)
    ensures
        ({
            let turn = prompt_of(session, now);
            let number = decimal((session.iteration + 1) as nat);
            let goal = trim_of(session.request.goal);
            let left = match time_left(session.deadline, now) {
                Some(secs) => duration_text(secs),
                None => "unlimited; run until /automode stop or interrupt"@,
            };
            &&& turn.cwd == session.request.project
            &&& holds(turn.prompt, session.request.project + "\n\nGoal:\n"@ + session.request.goal)
            &&& holds(
                turn.prompt,
                session.request.goal + "\n\nAutomode state directory:\n"@ + session.state_dir,
            )
            &&& holds(
                turn.prompt,
                session.state_dir + "\n\nProgress document:\n"@ + session.progress_path,
            )
            &&& holds(turn.prompt, session.progress_path + "\n\nIteration: "@ + number)
            &&& holds(
                turn.prompt,
                number + "\nRemaining run time before the controller stops automode: "@ + left,
            )
            &&& goal.len() <= 120 ==> turn.display_text == "/automode iteration "@ + number + ": "@
                + goal
            &&& goal.len() > 120 ==> turn.display_text == "/automode iteration "@ + number + ": "@
                + (goal.take(120) + "..."@)
        }),
{
    lemma_turn_prompt(
        session.request,
        session.state_dir,
        session.progress_path,
        (session.iteration + 1) as nat,
        time_left(session.deadline, now),
    );
}

proof fn lemma_turn_prompt(
    request: RequestModel,
    state_dir: Seq<char>,
    progress_path: Seq<char>,
    iteration: nat,
    remaining: Option<nat>,
)
    ensures
        ({
            let prompt = turn_prompt(request, state_dir, progress_path, iteration, remaining);
            let number = decimal(iteration);
            let left = remaining_text(remaining);
            &&& holds(prompt, request.project + "\n\nGoal:\n"@ + request.goal)
            &&& holds(prompt, request.goal + "\n\nAutomode state directory:\n"@ + state_dir)
            &&& holds(prompt, state_dir + "\n\nProgress document:\n"@ + progress_path)
            &&& holds(prompt, progress_path + "\n\nIteration: "@ + number)
            &&& holds(
                prompt,
                number + "\nRemaining run time before the controller stops automode: "@ + left,
            )
        }),
{
    let number = decimal(iteration);
    let left = remaining_text(remaining);
    let first = "You are running inside Codex automode in the interactive TUI.\n\nProject:\n"@;
    let last =
        "\n\nYou have danger-full-access and approval_policy=never for this automode turn.\n\nBefore doing new work:\n1. Read the progress document.\n2. Evaluate whether the previous turn moved the goal closer using fixed numeric metrics.\n3. Update the progress document if you learned anything that improves the metrics, evaluation method, or next-step choice.\n4. Decide the single best next step.\n\nThen execute that next step immediately. Do not ask the user for input. If the goal appears complete, use the remaining turn to improve verification, source quality, documentation, reproducibility, or the final report in a measurable way. Keep working until this turn ends; the controller will decide whether to start another turn.\n"@;
    let p1 = seq![first];
    let p2 = p1.push(request.project);
    let p3 = p2.push("\n\nGoal:\n"@);
    let p4 = p3.push(request.goal);
    let p5 = p4.push("\n\nAutomode state directory:\n"@);
    let p6 = p5.push(state_dir);
    let p7 = p6.push("\n\nProgress document:\n"@);
    let p8 = p7.push(progress_path);
    let p9 = p8.push("\n\nIteration: "@);
    let p10 = p9.push(number);
    let p11 = p10.push("\nRemaining run time before the controller stops automode: "@);
    let p12 = p11.push(left);
    let parts = p12.push(last);
    lemma_run_one(first);
    lemma_run_on(p1, request.project);
    lemma_run_on(p2, "\n\nGoal:\n"@);
    lemma_run_on(p3, request.goal);
    lemma_run_on(p4, "\n\nAutomode state directory:\n"@);
    lemma_run_on(p5, state_dir);
    lemma_run_on(p6, "\n\nProgress document:\n"@);
    lemma_run_on(p7, progress_path);
    lemma_run_on(p8, "\n\nIteration: "@);
    lemma_run_on(p9, number);
    lemma_run_on(p10, "\nRemaining run time before the controller stops automode: "@);
    lemma_run_on(p11, left);
    lemma_run_on(p12, last);
    assert(turn_prompt(request, state_dir, progress_path, iteration, remaining) == run_together(parts));
    lemma_holds_neighbours(parts, 1);
    lemma_holds_neighbours(parts, 3);
    lemma_holds_neighbours(parts, 5);
    lemma_holds_neighbours(parts, 7);
    lemma_holds_neighbours(parts, 9);
}

/// Counting the next turn changes the number of turns, and nothing else.
pub proof fn law_counting_a_turn(session: SessionModel)
    requires
        session.iteration < u64::MAX,
    ensures
        next_iteration(session).iteration == session.iteration + 1,
        next_iteration(session) == (SessionModel {
            iteration: next_iteration(session).iteration,
            ..session
        }),
{
}

/// The time that is left is in whole seconds, rounded down. There is none left once the deadline
/// has come, and later there is never more.
pub proof fn law_the_time_that_is_left(deadline: u128, now: u128, later: u128)
    requires
        now <= later,
    ensures
        time_left(None, now) is None,
        !is_over(None, now),
        is_over(Some(deadline), now) <==> deadline <= now,
        time_left(Some(deadline), now) is Some,
        deadline <= now ==> time_left(Some(deadline), now) == Some(0nat),
        now < deadline && deadline - now < 18_446_744_073_709_551_616_000_000_000 ==> {
            let secs = time_left(Some(deadline), now)->0;
            secs * 1_000_000_000 <= deadline - now < (secs + 1) * 1_000_000_000
        },
        time_left(Some(deadline), later)->0 <= time_left(Some(deadline), now)->0,
{
}

/// A run that is started keeps what was asked for, has had no turn, and has the number that it was
/// given. It ends only if it was given a run time: then, if the clock can tell that time, and at
/// once if it cannot. It works on the files that were written for it.
pub proof fn law_what_a_run_is(
    separator: char,
    request: RequestModel,
    run_id: u64,
    now: u128,
    added: Option<u128>,
)
    ensures
        ({
            let session = session_of(separator, request, run_id, now, added);
            let files = files_of(separator, request);
            &&& session.request == request
            &&& session.run_id == run_id
            &&& session.iteration == 0
            &&& session.deadline is Some <==> request.duration is Some
            &&& request.duration is Some && added is Some ==> session.deadline == added
            &&& request.duration is Some && added is None ==> session.deadline == Some(now)
            &&& session.state_dir == files.state_dir
            &&& session.progress_path == files.progress_path
            &&& files.state_dir == joined(
                separator,
                joined(separator, request.project, ".codex"@),
                "automode"@,
            )
            &&& files.progress_path == joined(separator, files.state_dir, "progress.md"@)
            &&& files.state_path == joined(separator, files.state_dir, "tui-state.json"@)
            &&& files.state_contents == json_pair(
                "goal"@,
                request.goal,
                "project"@,
                request.project,
            )
        }),
{
}

/// A run starts only in a directory, and only in a repository unless that check is skipped. The
/// document that it starts with names the goal and the project.
pub proof fn law_when_a_run_starts(
    separator: char,
    request: RequestModel,
    is_dir: bool,
    in_repository: bool,
)
    ensures
        start_plan(separator, request, is_dir, in_repository) is Ok <==> is_dir && (
        request.skip_git_repo_check || in_repository),
        start_plan(separator, request, is_dir, in_repository) matches Ok(files) ==> {
            &&& files == files_of(separator, request)
            &&& holds(files.progress_document, request.goal)
            &&& holds(files.progress_document, "\n\nProject: "@ + request.project)
            &&& trim_of(request.goal).len() > 0 && !request.goal.contains('\n')
                ==> goal_in_document(Some(files.progress_document)) == Some(trim_of(request.goal))
        },
        !is_dir ==> holds(
            start_plan(separator, request, is_dir, in_repository)->Err_0,
            request.project,
        ),
{
    lemma_holds_end(
        "Automode project does not exist or is not a directory: "@,
        request.project,
    );
    let last =
        "\n\nThe simulated operator must keep this document current after every turn.\n\n## Completion Metrics\n\nDefine fixed numeric metrics here before doing substantial work. Each metric must include:\n- name\n- baseline\n- current value\n- target\n- unit\n- measurement method\n- direction: increase, decrease, or equal\n\n## Iteration Log\n\nNo iterations have been recorded yet.\n"@;
    let first = "# Automode Progress\n\nGoal: "@;
    let goal = first + request.goal;
    let project = goal + "\n\nProject: "@;
    lemma_holds_end(first, request.goal);
    lemma_holds_further(goal, request.goal, "\n\nProject: "@);
    lemma_holds_further(project, request.goal, request.project);
    lemma_holds_further(project + request.project, request.goal, last);
    crate::text::lemma_holds_two(goal, "\n\nProject: "@, request.project);
    lemma_holds_further(project + request.project, "\n\nProject: "@ + request.project, last);
    assert(first_document(request.goal, request.project) == project + request.project + last);
    if trim_of(request.goal).len() > 0 && !request.goal.contains('\n') {
        law_first_document_keeps_the_goal(request.goal, request.project);
    }
}

/// Whether a line of a progress document names a goal.
pub open spec fn names_goal(line: Seq<char>, goal: Seq<char>) -> bool {
    "Goal:"@.is_prefix_of(line) && goal.len() > 0 && trim_of(line.skip(5)) == goal
}

/// The goal that is found in a progress document is the one on the first line that names one, and
/// where no line does, none is found.
pub proof fn law_the_first_goal_is_found(lines: Seq<Seq<char>>)
    ensures
        goal_in_lines(lines) matches Some(goal) ==> exists|i: int|
            0 <= i < lines.len() && names_goal(#[trigger] lines[i], goal) && forall|j: int, g: Seq<
                char,
            >|
                0 <= j < i ==> !#[trigger] names_goal(lines[j], g),
        goal_in_lines(lines) is None ==> forall|j: int, g: Seq<char>|
            0 <= j < lines.len() ==> !#[trigger] names_goal(lines[j], g),
    decreases lines.len(),
{
    reveal_strlit("Goal:");
    if lines.len() > 0 {
        let rest = lines.drop_first();
        match goal_in_line(lines[0]) {
            Some(goal) => {
                assert(names_goal(lines[0], goal));
            },
            None => {
                law_the_first_goal_is_found(rest);
                assert forall|g: Seq<char>| !#[trigger] names_goal(lines[0], g) by {}
                match goal_in_lines(rest) {
                    Some(goal) => {
                        let i = choose|i: int|
                            0 <= i < rest.len() && names_goal(#[trigger] rest[i], goal) && forall|
                                j: int,
                                g: Seq<char>,
                            |
                                0 <= j < i ==> !#[trigger] names_goal(rest[j], g);
                        assert(names_goal(lines[i + 1], goal));
                        assert forall|j: int, g: Seq<char>| 0 <= j < i + 1 implies !#[trigger]
                            names_goal(lines[j], g) by {
                            if j > 0 {
                                assert(lines[j] == rest[j - 1]);
                                assert(!names_goal(rest[j - 1], g));
                            }
                        }
                    },
                    None => {
                        assert forall|j: int, g: Seq<char>| 0 <= j < lines.len() implies !#[trigger]
                            names_goal(lines[j], g) by {
                            if j > 0 {
                                assert(lines[j] == rest[j - 1]);
                                assert(!names_goal(rest[j - 1], g));
                            }
                        }
                    },
                }
            },
        }
    }
}

/// Where the goal of a run is found: in the state of an interactive run, or else in that of a
/// non-interactive one, or else in the progress document. What is blank is no goal, and the white
/// space around a goal is no part of it.
pub proof fn law_where_the_goal_is_found(sources: SourcesModel, text: Seq<char>)
    ensures
        ({
            let first = goal_in_state(sources.tui_state);
            let second = goal_in_state(sources.exec_state);
            let third = goal_in_document(sources.progress_document);
            &&& first is Some ==> kept_goal(sources) == first
            &&& first is None && second is Some ==> kept_goal(sources) == second
            &&& first is None && second is None ==> kept_goal(sources) == third
        }),
        goal_in_state(None) is None,
        goal_in_state(Some(text)) == (match json_text_member(text, "goal"@) {
            Some(goal) if trim_of(goal).len() > 0 => Some(trim_of(goal)),
            _ => None,
        }),
        goal_in_document(None) is None,
        goal_in_document(Some(text)) == goal_in_lines(lines_of(text)),
        not_blank(text) is Some <==> exists|k: int|
            0 <= k < text.len() && !is_space(#[trigger] text[k]),
        not_blank(text) matches Some(goal) ==> goal == trim_of(text),
{
    let (i, j) = lemma_trim_bounds(text);
    if forall|k: int| 0 <= k < text.len() ==> is_space(#[trigger] text[k]) {
        lemma_trim_blank(text);
    }
}

/// A run is resumed with the goal that was found, and with the project, the run time and the check
/// that were asked for. Without a goal it is not resumed, and the directory is named in which none
/// was found.
pub proof fn law_resuming_a_run(separator: char, resume: ResumeModel, goal: Option<Seq<char>>)
    ensures
        resumed(separator, resume, goal) is Ok <==> goal is Some,
        resumed(separator, resume, goal) matches Ok(request) ==> {
            &&& request.project == resume.project
            &&& request.duration == resume.duration
            &&& Some(request.goal) == goal
            &&& request.skip_git_repo_check == resume.skip_git_repo_check
            &&& request.resume
        },
        goal is None ==> holds(
            resumed(separator, resume, goal)->Err_0,
            joined(separator, joined(separator, resume.project, ".codex"@), "automode"@),
        ),
{
    let dir = joined(separator, joined(separator, resume.project, ".codex"@), "automode"@);
    lemma_holds_end("Could not resume automode. No goal found in "@, dir);
    lemma_holds_further("Could not resume automode. No goal found in "@ + dir, dir, "."@);
}

/// What is prepared for a run: only in a directory, and in a repository or with the check skipped.
/// What is written then names the goal and the project, and the goal is found again in it.
pub proof fn law_preparing_a_run(
    rules: PathRules,
    request: &AutomodeStartRequest,
    is_dir: bool,
    in_repository: bool,
    r: Result<StartFiles, String>,
)
    requires
        call_ensures(plan_start, (rules, request, is_dir, in_repository), r),
    ensures
        r is Ok <==> is_dir && (request.skip_git_repo_check || in_repository),
        r matches Ok(files) ==> {
            &&& holds(files.progress_document@, request.goal@)
            &&& holds(files.progress_document@, "\n\nProject: "@ + request.project@)
            &&& goal_in_state(Some(files.state_contents@)) == not_blank(request.goal@)
            &&& files.state_dir@ == joined(
                rules@,
                joined(rules@, request.project@, ".codex"@),
                "automode"@,
            )
            &&& files.progress_path@ == joined(rules@, files.state_dir@, "progress.md"@)
            &&& files.state_path@ == joined(rules@, files.state_dir@, "tui-state.json"@)
        },
{
    law_when_a_run_starts(rules@, request@, is_dir, in_repository);
    law_what_a_run_is(rules@, request@, 0, 0, None);
}

/// A run that was prepared and then started works on the files that were written for it.
pub proof fn law_starting_a_prepared_run(
    rules: PathRules,
    request: AutomodeStartRequest,
    files: StartFiles,
    run_id: u64,
    now: u128,
    added: Option<u128>,
    run: AutomodeRunState,
)
    requires
        call_ensures(
            plan_start,
            (rules, &request, true, true),
            Ok::<StartFiles, String>(files),
        ),
        call_ensures(AutomodeRunState::start, (rules, request, run_id, now, added), run),
    ensures
        run.state_dir@ == files.state_dir@,
        run.progress_path@ == files.progress_path@,
        run@.request == request@,
        run.run_id == run_id,
        run.iteration == 0,
        run.deadline is Some <==> request.duration is Some,
        request.duration is Some && added is Some ==> run.deadline == added,
        request.duration is Some && added is None ==> run.deadline == Some(now),
{
    law_what_a_run_is(rules@, request@, run_id, now, added);
}

/// Taking the next turn counts it, tells it so, and leaves the run as it is otherwise. It works on
/// the run's project and is told its goal.
pub proof fn law_taking_the_next_turn(
    run: &mut AutomodeRunState,
    now: u128,
    turn: AutomodeTurnPrompt,
)
    requires
        call_ensures(AutomodeRunState::next_turn_prompt, (run, now), turn),
        old(run).iteration < u64::MAX,
    ensures
        final(run).iteration == old(run).iteration + 1,
        final(run)@ == (SessionModel { iteration: final(run).iteration, ..old(run)@ }),
        turn.cwd@ == old(run)@.request.project,
        holds(
            turn.prompt@,
            old(run)@.request.project + "\n\nGoal:\n"@ + old(run)@.request.goal,
        ),
        holds(
            turn.prompt@,
            old(run)@.progress_path + "\n\nIteration: "@ + decimal(final(run).iteration as nat),
        ),
        ("/automode iteration "@ + decimal(final(run).iteration as nat) + ": "@).is_prefix_of(
            turn.display_text@,
        ),
{
    law_what_a_turn_is_told(old(run)@, now);
    law_counting_a_turn(old(run)@);
    let start = "/automode iteration "@ + decimal((old(run)@.iteration + 1) as nat) + ": "@;
    assert(start =~= turn.display_text@.subrange(0, start.len() as int));
}

/// How much time a run has left, and whether its time has come: there is none left exactly once
/// the deadline is less than a second away, and a run without a deadline always has time.
pub proof fn law_asking_for_the_time(
    run: &AutomodeRunState,
    now: u128,
    left: Option<u64>,
    over: bool,
)
    requires
        call_ensures(AutomodeRunState::remaining_duration, (run, now), left),
        call_ensures(AutomodeRunState::deadline_reached, (run, now), over),
    ensures
        left is None <==> run.deadline is None,
        over <==> run.deadline is Some && run.deadline->0 <= now,
        over ==> left == Some(0u64),
        left == Some(0u64) ==> run.deadline->0 < now + 1_000_000_000,
{
    match run.deadline {
        Some(deadline) => law_the_time_that_is_left(deadline, now, now),
        None => law_the_time_that_is_left(0, now, now),
    }
}

/// A run is resumed with the goal that is kept in its project, and with what was asked for
/// otherwise; where no goal is kept, it is not resumed.
pub proof fn law_taking_up_a_run(
    rules: PathRules,
    resume: AutomodeResumeRequest,
    sources: &GoalSources,
    r: Result<AutomodeStartRequest, String>,
)
    requires
        call_ensures(resume_from, (rules, resume, sources), r),
    ensures
        r is Ok <==> kept_goal(sources@) is Some,
        r matches Ok(request) ==> {
            &&& Some(request.goal@) == kept_goal(sources@)
            &&& request.project@ == resume.project@
            &&& request@.duration == resume@.duration
            &&& request.skip_git_repo_check == resume.skip_git_repo_check
            &&& request.resume
        },
{
    law_resuming_a_run(rules@, resume@, kept_goal(sources@));
}

/// The goal that is read in a progress document is the one on the first line that names one.
pub proof fn law_reading_a_document(contents: &str, r: Option<String>)
    requires
        call_ensures(read_goal_from_progress_doc, (contents,), r),
    ensures
        r is None ==> forall|j: int, g: Seq<char>|
            0 <= j < lines_of(contents@).len() ==> !#[trigger] names_goal(
                lines_of(contents@)[j],
                g,
            ),
        r matches Some(goal) ==> exists|i: int|
            0 <= i < lines_of(contents@).len() && names_goal(
                #[trigger] lines_of(contents@)[i],
                goal@,
            ) && forall|j: int, g: Seq<char>|
                0 <= j < i ==> !#[trigger] names_goal(lines_of(contents@)[j], g),
{
    law_the_first_goal_is_found(lines_of(contents@));
}

/// A text is shown without the white space around it, up to so many characters, and marked where
/// something is missing.
pub proof fn law_shortening(value: &str, most: usize, kept: String)
    requires
        call_ensures(truncate, (value, most), kept),
    ensures
        trim_of(value@).len() <= most ==> kept@ == trim_of(value@),
        trim_of(value@).len() > most ==> kept@ == trim_of(value@).take(most as int) + "..."@,
{
}

/// What the state file of an interactive run holds is read again as its goal and, as the state of
/// any run is, before everything else.
pub proof fn law_the_state_file_keeps_the_goal(
    rules: PathRules,
    request: &AutomodeStartRequest,
    contents: Result<String, String>,
    sources: &GoalSources,
    goal: Option<String>,
)
    requires
        call_ensures(tui_state_contents, (rules, request), contents),
        call_ensures(read_resume_goal, (sources,), goal),
        trim_of(request.goal@).len() > 0,
        opt_text(sources.tui_state) == Some(contents->Ok_0@),
    ensures
        contents is Ok,
        goal is Some,
        goal->0@ == trim_of(request.goal@),
        json_text_member(contents->Ok_0@, "project"@) == Some(request.project@),
{
    law_where_the_goal_is_found(sources@, contents->Ok_0@);
}

/// Without the files of interactive runs, the goal is that of a non-interactive one, and without
/// that, the one in the progress document.
pub proof fn law_reading_the_goal(sources: &GoalSources, goal: Option<String>)
    requires
        call_ensures(read_resume_goal, (sources,), goal),
    ensures
        goal_in_state(opt_text(sources.tui_state)) is None && goal_in_state(
            opt_text(sources.exec_state),
        ) is Some ==> opt_text(goal) == goal_in_state(opt_text(sources.exec_state)),
        goal_in_state(opt_text(sources.tui_state)) is None && goal_in_state(
            opt_text(sources.exec_state),
        ) is None ==> opt_text(goal) == goal_in_document(opt_text(sources.progress_document)),
        goal matches Some(text) ==> text@.len() > 0,
{
    law_where_the_goal_is_found(sources@, seq![]);
    match sources@.progress_document {
        Some(contents) => law_the_first_goal_is_found(lines_of(contents)),
        None => {},
    }
}

/// What a turn is told when its prompt is asked for, and what the first document says.
pub proof fn law_asking_for_a_prompt(
    request: &AutomodeStartRequest,
    state_dir: &str,
    progress_path: &str,
    iteration: u64,
    remaining: Option<u64>,
    prompt: String,
    goal: &str,
    project: &str,
    document: String,
)
    requires
        call_ensures(
            build_turn_prompt,
            (request, state_dir, progress_path, iteration, remaining),
            prompt,
        ),
        call_ensures(initial_progress_document, (goal, project), document),
    ensures
        holds(prompt@, request.project@ + "\n\nGoal:\n"@ + request.goal@),
        holds(prompt@, request.goal@ + "\n\nAutomode state directory:\n"@ + state_dir@),
        holds(prompt@, state_dir@ + "\n\nProgress document:\n"@ + progress_path@),
        holds(prompt@, progress_path@ + "\n\nIteration: "@ + decimal(iteration as nat)),
        remaining matches Some(secs) ==> holds(
            prompt@,
            decimal(iteration as nat)
                + "\nRemaining run time before the controller stops automode: "@ + duration_text(
                secs as nat,
            ),
        ),
        ("# Automode Progress\n\nGoal: "@ + goal@ + "\n\nProject: "@ + project@).is_prefix_of(
            document@,
        ),
{
    lemma_turn_prompt(
        request@,
        state_dir@,
        progress_path@,
        iteration as nat,
        crate::session::command::opt_secs(remaining),
    );
    let front = "# Automode Progress\n\nGoal: "@ + goal@ + "\n\nProject: "@ + project@;
    assert(front =~= document@.subrange(0, front.len() as int));
}

/// The goal in the state of a run is what its member for the goal holds, if that is not blank.
pub proof fn law_reading_the_states(
    contents: &str,
    interactive: Option<String>,
    other: Option<String>,
    rules: PathRules,
    resume: AutomodeResumeRequest,
    goal: Option<String>,
    r: Result<AutomodeStartRequest, String>,
)
    requires
        call_ensures(read_goal_from_tui_state, (contents,), interactive),
        call_ensures(read_goal_from_exec_state, (contents,), other),
        call_ensures(resume_with_goal, (rules, resume, goal), r),
    ensures
        opt_text(interactive) == opt_text(other),
        opt_text(interactive) == (match json_text_member(contents@, "goal"@) {
            Some(text) if trim_of(text).len() > 0 => Some(trim_of(text)),
            _ => None,
        }),
        r is Ok <==> goal is Some,
        r matches Ok(request) ==> request.goal@ == goal->0@ && request.project@ == resume.project@
            && request@.duration == resume@.duration && request.resume,
{
    law_where_the_goal_is_found(
        SourcesModel { tui_state: None, exec_state: None, progress_document: None },
        contents@,
    );
    law_resuming_a_run(rules@, resume@, opt_text(goal));
}

/// What a run tells of itself is what it was started with.
pub proof fn law_asking_a_run(
    run: &AutomodeRunState,
    run_id: u64,
    deadline: Option<u128>,
    path: &str,
)
    requires
        call_ensures(AutomodeRunState::run_id, (run,), run_id),
        call_ensures(AutomodeRunState::deadline, (run,), deadline),
        call_ensures(AutomodeRunState::progress_path, (run,), path),
    ensures
        run_id == run.run_id,
        deadline == run.deadline,
        path@ == run.progress_path@,
{
}

} // verus!
