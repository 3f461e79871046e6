//! What an interactive run writes: its first progress document, and the prompt of each turn.
use crate::duration::{duration_text, format_duration};
use crate::session::command::{AutomodeStartRequest, RequestModel};
use crate::text::{decimal, decimal_string, trim, trim_of};
use vstd::prelude::*;
use vstd::string::*;

verus! {

/// The progress document that an interactive run starts with.
pub open spec fn first_document(goal: Seq<char>, project: Seq<char>) -> Seq<char> {
    "# Automode Progress\n\nGoal: "@ + goal + "\n\nProject: "@ + project
        + "\n\nThe simulated operator must keep this document current after every turn.\n\n## Completion Metrics\n\nDefine fixed numeric metrics here before doing substantial work. Each metric must include:\n- name\n- baseline\n- current value\n- target\n- unit\n- measurement method\n- direction: increase, decrease, or equal\n\n## Iteration Log\n\nNo iterations have been recorded yet.\n"@
}

/// The time that is left, in words.
pub open spec fn remaining_text(remaining: Option<nat>) -> Seq<char> {
    match remaining {
        Some(secs) => duration_text(secs),
        None => "unlimited; run until /automode stop or interrupt"@,
    }
}

/// The prompt of a turn.
pub open spec fn turn_prompt(
    request: RequestModel,
    state_dir: Seq<char>,
    progress_path: Seq<char>,
    iteration: nat,
    remaining: Option<nat>,
) -> Seq<char> {
    "You are running inside Codex automode in the interactive TUI.\n\nProject:\n"@ + request.project
        + "\n\nGoal:\n"@ + request.goal + "\n\nAutomode state directory:\n"@ + state_dir
        + "\n\nProgress document:\n"@ + progress_path + "\n\nIteration: "@ + decimal(iteration)
        + "\nRemaining run time before the controller stops automode: "@ + remaining_text(remaining)
        + "\n\nYou have danger-full-access and approval_policy=never for this automode turn.\n\nBefore doing new work:\n1. Read the progress document.\n2. Evaluate whether the previous turn moved the goal closer using fixed numeric metrics.\n3. Update the progress document if you learned anything that improves the metrics, evaluation method, or next-step choice.\n4. Decide the single best next step.\n\nThen execute that next step immediately. Do not ask the user for input. If the goal appears complete, use the remaining turn to improve verification, source quality, documentation, reproducibility, or the final report in a measurable way. Keep working until this turn ends; the controller will decide whether to start another turn.\n"@
}

/// A text without the white space around it, cut off and marked after `max` characters.
pub open spec fn shortened(s: Seq<char>, max: nat) -> Seq<char> {
    let text = trim_of(s);
    if text.len() <= max {
        text
    } else {
        text.take(max as int) + "..."@
    }
}

/// Returns the progress document that an interactive run starts with.
pub fn initial_progress_document(goal: &str, project: &str) -> (r: String)
    ensures
        r@ == first_document(goal@, project@),
{
    let mut r = "# Automode Progress\n\nGoal: ".to_owned();
    r.append(goal);
    r.append("\n\nProject: ");
    r.append(project);
    r.append(
        "\n\nThe simulated operator must keep this document current after every turn.\n\n## Completion Metrics\n\nDefine fixed numeric metrics here before doing substantial work. Each metric must include:\n- name\n- baseline\n- current value\n- target\n- unit\n- measurement method\n- direction: increase, decrease, or equal\n\n## Iteration Log\n\nNo iterations have been recorded yet.\n",
    );
    r
}

/// Returns the prompt of a turn. The remaining time is in seconds, if there is an end to it.
pub fn build_turn_prompt(
    request: &AutomodeStartRequest,
    state_dir: &str,
    progress_path: &str,
    iteration: u64,
    remaining: Option<u64>,
) -> (r: String)
    ensures
        r@ == turn_prompt(
            request@,
            state_dir@,
            progress_path@,
            iteration as nat,
            crate::session::command::opt_secs(remaining),
        ),
{
    let digits = decimal_string(iteration);
    let left = match remaining {
        Some(secs) => format_duration(secs),
        None => "unlimited; run until /automode stop or interrupt".to_owned(),
    };
    let mut r =
        "You are running inside Codex automode in the interactive TUI.\n\nProject:\n".to_owned();
    r.append(request.project.as_str());
    r.append("\n\nGoal:\n");
    r.append(request.goal.as_str());
    r.append("\n\nAutomode state directory:\n");
    r.append(state_dir);
    r.append("\n\nProgress document:\n");
    r.append(progress_path);
    r.append("\n\nIteration: ");
    r.append(digits.as_str());
    r.append("\nRemaining run time before the controller stops automode: ");
    r.append(left.as_str());
    r.append(
        "\n\nYou have danger-full-access and approval_policy=never for this automode turn.\n\nBefore doing new work:\n1. Read the progress document.\n2. Evaluate whether the previous turn moved the goal closer using fixed numeric metrics.\n3. Update the progress document if you learned anything that improves the metrics, evaluation method, or next-step choice.\n4. Decide the single best next step.\n\nThen execute that next step immediately. Do not ask the user for input. If the goal appears complete, use the remaining turn to improve verification, source quality, documentation, reproducibility, or the final report in a measurable way. Keep working until this turn ends; the controller will decide whether to start another turn.\n",
    );
    r
}

/// Returns a text without the white space around it, cut off and marked after `max_chars`
/// characters.
pub fn truncate(value: &str, max_chars: usize) -> (r: String)
    ensures
        r@ == shortened(value@, max_chars as nat),
{
    let text = trim(value);
    if text.unicode_len() <= max_chars {
        return text.to_owned();
    }
    let mut r = text.substring_char(0, max_chars).to_owned();
    r.append("...");
    assert(text@.subrange(0, max_chars as int) =~= text@.take(max_chars as int));
    r
}

} // verus!
