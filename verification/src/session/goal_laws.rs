//! Every progress document keeps the goal of its run.
use crate::automode::decision::{document_body, progress_document, NumbersModel};
use crate::automode::state::{initial_document, run_line};
use crate::automode::types::{DecisionModel, StateModel};
use crate::session::command::{RequestModel, ResumeModel};
use crate::session::document::first_document;
use crate::session::goal::{
    goal_in_document, goal_in_state, kept_goal, law_document_keeps_the_goal, not_blank, resumed,
    SourcesModel,
};
use crate::text::trim_of;
use vstd::prelude::*;

verus! {

/// The goal is found in the progress document that an interactive run starts with.
pub proof fn law_first_document_keeps_the_goal(goal: Seq<char>, project: Seq<char>)
    requires
        trim_of(goal).len() > 0,
        !goal.contains('\n'),
    ensures
        goal_in_document(Some(first_document(goal, project))) == Some(trim_of(goal)),
{
    let end =
        "\n\nThe simulated operator must keep this document current after every turn.\n\n## Completion Metrics\n\nDefine fixed numeric metrics here before doing substantial work. Each metric must include:\n- name\n- baseline\n- current value\n- target\n- unit\n- measurement method\n- direction: increase, decrease, or equal\n\n## Iteration Log\n\nNo iterations have been recorded yet.\n"@;
    let rest = "Project: "@ + project + end;
    lemma_project_line(goal, project, end);
    law_document_keeps_the_goal(goal, rest);
}

/// The goal is found in the progress document that a non-interactive run starts with.
pub proof fn law_initial_document_keeps_the_goal(
    separator: char,
    goal: Seq<char>,
    project: Seq<char>,
    state_dir: Seq<char>,
)
    requires
        trim_of(goal).len() > 0,
        !goal.contains('\n'),
    ensures
        goal_in_document(Some(initial_document(separator, goal, project, state_dir))) == Some(
            trim_of(goal),
        ),
{
    let note =
        "\n\nNo simulated operator decision has been recorded yet. The first operator turn must define numeric metrics with fixed baselines and targets before worker turns begin.\n"@;
    let end = run_line(separator, state_dir) + note;
    let rest = "Project: "@ + project + end;
    lemma_project_line(goal, project, end);
    let head = "# Automode Progress\n\nGoal: "@ + goal + "\n\nProject: "@ + project;
    assert(head + run_line(separator, state_dir) + note =~= head + end);
    law_document_keeps_the_goal(goal, rest);
}

proof fn lemma_project_line(goal: Seq<char>, project: Seq<char>, end: Seq<char>)
    ensures
        "# Automode Progress\n\nGoal: "@ + goal + "\n\nProject: "@ + project + end
            == "# Automode Progress\n\nGoal: "@ + goal + "\n\n"@ + ("Project: "@ + project + end),
{
    assert("\n\nProject: "@ == "\n\n"@ + "Project: "@) by {
        reveal_strlit("\n\nProject: ");
        reveal_strlit("\n\n");
        reveal_strlit("Project: ");
        assert("\n\nProject: "@ =~= "\n\n"@ + "Project: "@);
    }
    let head = "# Automode Progress\n\nGoal: "@ + goal;
    assert(head + ("\n\n"@ + "Project: "@) + project + end =~= head + "\n\n"@ + ("Project: "@
        + project + end));
}

/// The goal is found in every progress document that holds a decision.
pub proof fn law_progress_document_keeps_the_goal(
    state: StateModel,
    decision: DecisionModel,
    numbers: Seq<NumbersModel>,
)
    requires
        trim_of(state.goal).len() > 0,
        !state.goal.contains('\n'),
    ensures
        goal_in_document(Some(progress_document(state, decision, numbers))) == Some(
            trim_of(state.goal),
        ),
{
    law_document_keeps_the_goal(state.goal, document_body(state, decision, numbers));
}

/// A run that was started and is resumed goes on with its goal: what its state file holds is what
/// comes back, whatever became of the progress document.
pub proof fn law_resumed_run_keeps_the_goal(
    separator: char,
    started: RequestModel,
    resume: ResumeModel,
    sources: SourcesModel,
)
    requires
        trim_of(started.goal).len() > 0,
        goal_in_state(sources.tui_state) == not_blank(started.goal),
    ensures
        resumed(separator, resume, kept_goal(sources)) == Ok::<RequestModel, Seq<char>>(
            RequestModel {
                project: resume.project,
                duration: resume.duration,
                goal: trim_of(started.goal),
                skip_git_repo_check: resume.skip_git_repo_check,
                resume: true,
            },
        ),
{
}

} // verus!
