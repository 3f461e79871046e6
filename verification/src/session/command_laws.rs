//! What is shown of a run is how it is asked for.
use crate::duration::{duration_text, law_duration_round_trip};
use crate::paths::{joined, leads_from_anywhere};
use crate::session::command::{
    command_words, is_duration_flag, is_project_flag, no_args, resume_args, resume_of,
    shown_command, slash_of, start_args, start_of, ArgsModel, RequestModel, ResumeModel, SlashModel,
};
use crate::text::{join_of, lemma_join_cons, same_ignoring_case, trim_of};
use vstd::prelude::*;

verus! {

/// A run that a command can ask for: its project leads to the same place from anywhere, if it is to
/// end it does not end at once, and if it is new it has a goal, made of the given words.
pub open spec fn can_be_asked_for(
    separator: char,
    request: RequestModel,
    goal: Seq<Seq<char>>,
) -> bool {
    &&& leads_from_anywhere(separator, request.project)
    &&& request.duration matches Some(secs) ==> 0 < secs <= u64::MAX
    &&& !request.resume ==> goal.len() > 0 && request.goal == join_of(goal, " "@) && trim_of(
        request.goal,
    ).len() > 0
}

/// What a command comes to that asks for a run. The goal of a resumed run is not part of it, and
/// the option that skips the repository check is not shown.
pub open spec fn asked_for(request: RequestModel) -> SlashModel {
    if request.resume {
        SlashModel::Resume(
            ResumeModel {
                project: request.project,
                duration: request.duration,
                skip_git_repo_check: false,
            },
        )
    } else {
        SlashModel::Start(RequestModel { skip_git_repo_check: false, ..request })
    }
}

proof fn lemma_flags()
    ensures
        !is_project_flag("--duration"@),
        !is_project_flag("--goal"@),
        !is_duration_flag("--goal"@),
        !same_ignoring_case("--project"@, "stop"@),
        !same_ignoring_case("--project"@, "resume"@),
        same_ignoring_case("resume"@, "resume"@),
        " "@.len() == 1,
{
    reveal_strlit("--project");
    reveal_strlit("-p");
    reveal_strlit("--duration");
    reveal_strlit("-d");
    reveal_strlit("--goal");
    reveal_strlit("-g");
    reveal_strlit("stop");
    reveal_strlit("resume");
    reveal_strlit(" ");
    assert("--duration"@.len() != "--project"@.len());
    assert("--goal"@.len() != "--project"@.len());
    assert("--goal"@.len() != "--duration"@.len());
}

proof fn lemma_start_words(
    separator: char,
    request: RequestModel,
    goal: Seq<Seq<char>>,
    default_project: Seq<char>,
)
    requires
        can_be_asked_for(separator, request, goal),
        !request.resume,
    ensures
        slash_of(separator, Some(command_words(request, goal)), default_project) == Ok::<
            SlashModel,
            Seq<char>,
        >(asked_for(request)),
{
    lemma_flags();
    let tokens = command_words(request, goal);
    let none = no_args(default_project);
    let with_project = ArgsModel { project: request.project, ..none };
    let with_duration = ArgsModel { duration: request.duration, ..with_project };
    let last = seq!["--goal"@] + goal;
    assert(tokens[0] == "--project"@);
    assert(tokens[1] == request.project);
    assert(joined(separator, default_project, request.project) == request.project);
    match request.duration {
        Some(secs) => {
            law_duration_round_trip(secs);
            let rest = tokens.skip(2);
            assert(rest[0] == "--duration"@);
            assert(rest[1] == duration_text(secs));
            assert(rest.skip(2) =~= last);
            assert(start_args(separator, rest, with_project, default_project) == start_args(
                separator,
                last,
                with_duration,
                default_project,
            ));
        },
        None => {
            assert(tokens.skip(2) =~= last);
        },
    }
    assert(last[0] == "--goal"@);
    assert(last.skip(1) =~= goal);
    let all = ArgsModel { goal, ..with_duration };
    assert(with_duration.goal + goal =~= goal);
    assert(start_args(separator, last, with_duration, default_project) == Ok::<
        ArgsModel,
        Seq<char>,
    >(all));
    assert(start_args(separator, tokens, none, default_project) == Ok::<ArgsModel, Seq<char>>(all));
    assert(start_of(all) == Ok::<SlashModel, Seq<char>>(asked_for(request)));
}

proof fn lemma_resume_words(
    separator: char,
    request: RequestModel,
    goal: Seq<Seq<char>>,
    default_project: Seq<char>,
)
    requires
        can_be_asked_for(separator, request, goal),
        request.resume,
    ensures
        slash_of(separator, Some(command_words(request, goal)), default_project) == Ok::<
            SlashModel,
            Seq<char>,
        >(asked_for(request)),
{
    lemma_flags();
    let tokens = command_words(request, goal);
    let none = no_args(default_project);
    let with_project = ArgsModel { project: request.project, ..none };
    let all = ArgsModel { duration: request.duration, ..with_project };
    assert(tokens[0] == "resume"@);
    let rest = tokens.skip(1);
    assert(rest[0] == "--project"@);
    assert(rest[1] == request.project);
    assert(joined(separator, default_project, request.project) == request.project);
    match request.duration {
        Some(secs) => {
            law_duration_round_trip(secs);
            let last = rest.skip(2);
            assert(last[0] == "--duration"@);
            assert(last[1] == duration_text(secs));
            assert(last.skip(2) =~= seq![]);
            assert(resume_args(separator, last.skip(2), all, default_project) == Ok::<
                ArgsModel,
                Seq<char>,
            >(all));
            assert(resume_args(separator, last, with_project, default_project) == Ok::<
                ArgsModel,
                Seq<char>,
            >(all));
        },
        None => {
            assert(rest.skip(2) =~= seq![]);
            assert(resume_args(separator, rest.skip(2), all, default_project) == Ok::<
                ArgsModel,
                Seq<char>,
            >(all));
        },
    }
    assert(resume_args(separator, rest, none, default_project) == Ok::<ArgsModel, Seq<char>>(all));
    assert(resume_of(all) == Ok::<SlashModel, Seq<char>>(asked_for(request)));
}

proof fn lemma_spaced_flags()
    ensures
        "--project "@ == "--project"@ + " "@,
        " --duration "@ == " "@ + "--duration"@ + " "@,
        " --goal "@ == " "@ + "--goal"@ + " "@,
        "/automode resume "@ == "/automode "@ + "resume"@ + " "@,
{
    reveal_strlit("--project ");
    reveal_strlit("--project");
    reveal_strlit(" --duration ");
    reveal_strlit("--duration");
    reveal_strlit(" --goal ");
    reveal_strlit("--goal");
    reveal_strlit("/automode resume ");
    reveal_strlit("/automode ");
    reveal_strlit("resume");
    reveal_strlit(" ");
    assert("--project "@ =~= "--project"@ + " "@);
    assert(" --duration "@ =~= " "@ + "--duration"@ + " "@);
    assert(" --goal "@ =~= " "@ + "--goal"@ + " "@);
    assert("/automode resume "@ =~= "/automode "@ + "resume"@ + " "@);
}

/// A flag with its value in front of further words.
proof fn lemma_join_pair(flag: Seq<char>, value: Seq<char>, rest: Seq<Seq<char>>, space: Seq<char>)
    requires
        rest.len() > 0,
    ensures
        join_of(seq![flag, value] + rest, space) == flag + space + value + space + join_of(
            rest,
            space,
        ),
{
    let tail = seq![value] + rest;
    lemma_join_cons(value, rest, space);
    lemma_join_cons(flag, tail, space);
    assert(seq![flag, value] + rest =~= seq![flag] + tail);
    assert(flag + space + (value + space + join_of(rest, space)) =~= flag + space + value + space
        + join_of(rest, space));
}

proof fn lemma_start_text(separator: char, request: RequestModel, goal: Seq<Seq<char>>)
    requires
        can_be_asked_for(separator, request, goal),
        !request.resume,
    ensures
        shown_command(request) == "/automode "@ + join_of(command_words(request, goal), " "@),
{
    lemma_spaced_flags();
    let space = " "@;
    let head = "/automode "@;
    let project = "--project"@ + space + request.project;
    let tokens = command_words(request, goal);
    let last = seq!["--goal"@] + goal;
    let end = "--goal"@ + space + request.goal;
    lemma_join_cons("--goal"@, goal, space);
    match request.duration {
        Some(secs) => {
            let text = duration_text(secs);
            let timed = seq!["--duration"@, text] + last;
            let duration = "--duration"@ + space + text;
            lemma_join_pair("--duration"@, text, last, space);
            lemma_join_pair("--project"@, request.project, timed, space);
            assert(tokens =~= seq!["--project"@, request.project] + timed);
            assert(join_of(tokens, space) == project + space + (duration + space + end));
            lemma_regroup(head, project, space, "--duration"@, text, "--goal"@, request.goal);
        },
        None => {
            lemma_join_pair("--project"@, request.project, last, space);
            assert(tokens =~= seq!["--project"@, request.project] + last);
            assert(join_of(tokens, space) == project + space + end);
            assert(head + project + (space + "--goal"@ + space) + request.goal =~= head + (project
                + space + end));
        },
    }
}

proof fn lemma_regroup(
    head: Seq<char>,
    project: Seq<char>,
    space: Seq<char>,
    flag: Seq<char>,
    text: Seq<char>,
    goal_flag: Seq<char>,
    goal: Seq<char>,
)
    ensures
        head + project + (space + flag + space) + text + (space + goal_flag + space) + goal == head
            + (project + space + ((flag + space + text) + space + (goal_flag + space + goal))),
{
    let left = head + project + (space + flag + space) + text + (space + goal_flag + space) + goal;
    let right = head + (project + space + ((flag + space + text) + space + (goal_flag + space
        + goal)));
    assert(left =~= right);
}

proof fn lemma_resume_text(separator: char, request: RequestModel, goal: Seq<Seq<char>>)
    requires
        can_be_asked_for(separator, request, goal),
        request.resume,
    ensures
        shown_command(request) == "/automode "@ + join_of(command_words(request, goal), " "@),
{
    lemma_spaced_flags();
    let space = " "@;
    let tokens = command_words(request, goal);
    match request.duration {
        Some(secs) => {
            let timed = seq![duration_text(secs)];
            let flagged = seq!["--duration"@] + timed;
            lemma_join_cons("--duration"@, timed, space);
            let rest = seq![request.project] + flagged;
            lemma_join_cons(request.project, flagged, space);
            let named = seq!["--project"@] + rest;
            lemma_join_cons("--project"@, rest, space);
            lemma_join_cons("resume"@, named, space);
            assert(tokens =~= seq!["resume"@] + named);
            assert(join_of(timed, space) =~= duration_text(secs));
        },
        None => {
            let rest = seq![request.project];
            let named = seq!["--project"@] + rest;
            lemma_join_cons("--project"@, rest, space);
            lemma_join_cons("resume"@, named, space);
            assert(tokens =~= seq!["resume"@] + named);
            assert(join_of(rest, space) =~= request.project);
        },
    }
    assert(shown_command(request) =~= "/automode "@ + join_of(tokens, space));
}

/// The command that is shown for a run consists of the words that ask for it: read as a command,
/// they come to the same run.
pub proof fn law_shown_command_is_read_back(
    separator: char,
    request: RequestModel,
    goal: Seq<Seq<char>>,
    default_project: Seq<char>,
)
    requires
        can_be_asked_for(separator, request, goal),
    ensures
        shown_command(request) == "/automode "@ + join_of(command_words(request, goal), " "@),
        slash_of(separator, Some(command_words(request, goal)), default_project) == Ok::<
            SlashModel,
            Seq<char>,
        >(asked_for(request)),
{
    if request.resume {
        lemma_resume_words(separator, request, goal, default_project);
        lemma_resume_text(separator, request, goal);
    } else {
        lemma_start_words(separator, request, goal, default_project);
        lemma_start_text(separator, request, goal);
    }
}

/// A run that is started has a goal, and if it is to end, it does not end at once.
pub proof fn law_started_runs_make_sense(
    separator: char,
    words: Option<Seq<Seq<char>>>,
    default_project: Seq<char>,
)
    ensures
        slash_of(separator, words, default_project) matches Ok(SlashModel::Start(request))
            ==> trim_of(
            request.goal,
        ).len() > 0 && request.duration != Some(0nat) && !request.resume,
        slash_of(separator, words, default_project) matches Ok(SlashModel::Resume(request))
            ==> request.duration != Some(0nat),
{
}

} // verus!
