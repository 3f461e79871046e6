//! The goal of a run: kept beside the project, and found again when the run is resumed.
use crate::automode::state::{run_root, run_root_dir};
use crate::json::{json_pair, json_text_member, read_text_member, write_pair};
use crate::paths::{join_path, PathRules};
use crate::session::command::{
    AutomodeResumeRequest, AutomodeStartRequest, RequestModel, ResumeModel,
};
use crate::text::{
    chop_cr, concat3, is_space, lemma_lines_cons, lemma_trim_bounds, lemma_trim_middle, lines,
    lines_of, opt_text, strip, strip_prefix, texts, trim, trim_of,
};
use vstd::prelude::*;
use vstd::string::*;

verus! {

/// The file that an interactive run keeps its goal in.
pub const TUI_STATE_FILE: &'static str = "tui-state.json";

/// What the files hold that a goal can be found in, as far as they could be read.
#[derive(Debug, PartialEq, Eq)]
pub struct GoalSources {
    pub tui_state: Option<String>,
    pub exec_state: Option<String>,
    pub progress_document: Option<String>,
}

/// What [`GoalSources`] say.
pub struct SourcesModel {
    pub tui_state: Option<Seq<char>>,
    pub exec_state: Option<Seq<char>>,
    pub progress_document: Option<Seq<char>>,
}

impl View for GoalSources {
    type V = SourcesModel;

    open spec fn view(&self) -> SourcesModel {
        SourcesModel {
            tui_state: opt_text(self.tui_state),
            exec_state: opt_text(self.exec_state),
            progress_document: opt_text(self.progress_document),
        }
    }
}

/// A text without the white space around it, if there is more to it than that.
pub open spec fn not_blank(text: Seq<char>) -> Option<Seq<char>> {
    if trim_of(text).len() == 0 {
        None
    } else {
        Some(trim_of(text))
    }
}

/// The goal that a member of a state file holds.
pub open spec fn goal_in_member(member: Option<Seq<char>>) -> Option<Seq<char>> {
    match member {
        Some(text) => not_blank(text),
        None => None,
    }
}

/// The goal that a state file holds.
pub open spec fn goal_in_state(contents: Option<Seq<char>>) -> Option<Seq<char>> {
    match contents {
        Some(contents) => goal_in_member(json_text_member(contents, "goal"@)),
        None => None,
    }
}

/// The goal in a line of a progress document.
pub open spec fn goal_in_line(line: Seq<char>) -> Option<Seq<char>> {
    match strip(line, "Goal:"@) {
        Some(rest) => not_blank(rest),
        None => None,
    }
}

/// The first goal in the lines of a progress document.
pub open spec fn goal_in_lines(lines: Seq<Seq<char>>) -> Option<Seq<char>>
    decreases lines.len(),
{
    if lines.len() == 0 {
        None
    } else {
        match goal_in_line(lines[0]) {
            Some(goal) => Some(goal),
            None => goal_in_lines(lines.drop_first()),
        }
    }
}

/// The goal that a progress document holds.
pub open spec fn goal_in_document(contents: Option<Seq<char>>) -> Option<Seq<char>> {
    match contents {
        Some(contents) => goal_in_lines(lines_of(contents)),
        None => None,
    }
}

/// The goal that the files hold: the state of an interactive run comes first, then that of a
/// non-interactive one, and the progress document last.
pub open spec fn kept_goal(sources: SourcesModel) -> Option<Seq<char>> {
    match goal_in_state(sources.tui_state) {
        Some(goal) => Some(goal),
        None => match goal_in_state(sources.exec_state) {
            Some(goal) => Some(goal),
            None => goal_in_document(sources.progress_document),
        },
    }
}

/// The run that a resumed run is, given what was found of its goal.
pub open spec fn resumed(separator: char, resume: ResumeModel, goal: Option<Seq<char>>) -> Result<
    RequestModel,
    Seq<char>,
> {
    match goal {
        Some(goal) => Ok(
            RequestModel {
                project: resume.project,
                duration: resume.duration,
                goal,
                skip_git_repo_check: resume.skip_git_repo_check,
                resume: true,
            },
        ),
        None => Err(
            "Could not resume automode. No goal found in "@ + run_root(separator, resume.project)
                + "."@,
        ),
    }
}

/// A line that names a goal holds that goal.
pub proof fn lemma_goal_line(goal: Seq<char>)
    requires
        trim_of(goal).len() > 0,
    ensures
        goal_in_line("Goal: "@ + goal) == Some(trim_of(goal)),
{
    reveal_strlit("Goal: ");
    reveal_strlit("Goal:");
    let line = "Goal: "@ + goal;
    let rest = seq![' '] + goal;
    assert(line =~= "Goal:"@ + rest);
    assert(line.take("Goal:"@.len() as int) =~= "Goal:"@);
    assert(line.skip("Goal:"@.len() as int) =~= rest);
    let (i, j) = lemma_trim_bounds(goal);
    assert forall|k: int| 0 <= k < i + 1 implies is_space(#[trigger] rest[k]) by {
        if k > 0 {
            assert(rest[k] == goal[k - 1]);
        }
    }
    assert forall|k: int| j + 1 <= k < rest.len() implies is_space(#[trigger] rest[k]) by {
        assert(rest[k] == goal[k - 1]);
    }
    assert(rest[i + 1] == goal[i]);
    assert(rest[j] == goal[j - 1]);
    lemma_trim_middle(rest, i + 1, j + 1);
    assert(rest.subrange(i + 1, j + 1) =~= goal.subrange(i, j));
}

proof fn lemma_goal_of_chopped(goal: Seq<char>)
    requires
        trim_of(goal).len() > 0,
    ensures
        goal_in_line(chop_cr("Goal: "@ + goal)) == Some(trim_of(goal)),
{
    let line = "Goal: "@ + goal;
    let (i, j) = lemma_trim_bounds(goal);
    assert(line.last() == goal.last());
    if goal.last() == '\r' {
        let chopped = goal.drop_last();
        assert(chop_cr(line) =~= "Goal: "@ + chopped);
        assert(is_space(goal[goal.len() - 1]));
        assert(j < goal.len());
        assert forall|k: int| 0 <= k < i implies is_space(#[trigger] chopped[k]) by {
            assert(chopped[k] == goal[k]);
        }
        assert forall|k: int| j <= k < chopped.len() implies is_space(#[trigger] chopped[k]) by {
            assert(chopped[k] == goal[k]);
        }
        lemma_trim_middle(chopped, i, j);
        assert(chopped.subrange(i, j) =~= goal.subrange(i, j));
        lemma_goal_line(chopped);
    } else {
        lemma_goal_line(goal);
    }
}

/// Whatever follows the first lines of a progress document, the goal that they name is the one
/// that is found in it, as long as it fits on its line.
pub proof fn law_document_keeps_the_goal(goal: Seq<char>, rest: Seq<char>)
    requires
        trim_of(goal).len() > 0,
        !goal.contains('\n'),
    ensures
        goal_in_document(Some("# Automode Progress\n\nGoal: "@ + goal + "\n\n"@ + rest)) == Some(
            trim_of(goal),
        ),
{
    let text = "# Automode Progress\n\nGoal: "@ + goal + "\n\n"@ + rest;
    let title = "# Automode Progress"@;
    let line = "Goal: "@ + goal;
    let tail = "\n"@ + rest;
    reveal_strlit("# Automode Progress\n\nGoal: ");
    reveal_strlit("# Automode Progress");
    reveal_strlit("\n");
    reveal_strlit("\n\n");
    reveal_strlit("Goal: ");
    reveal_strlit("Goal:");
    let after_goal = line + "\n"@ + tail;
    let after_blank = seq![] + "\n"@ + after_goal;
    assert(text =~= title + "\n"@ + after_blank);
    lemma_lines_cons(title, after_blank);
    lemma_lines_cons(seq![], after_goal);
    assert forall|k: int| 0 <= k < line.len() implies line[k] != '\n' by {
        if k >= 6 {
            assert(line[k] == goal[k - 6]);
            assert(goal.contains(goal[k - 6]));
        }
    }
    lemma_lines_cons(line, tail);
    lemma_goal_of_chopped(goal);
    let all = lines_of(text);
    assert(all.drop_first() =~= lines_of(after_blank));
    assert(all.drop_first().drop_first() =~= lines_of(after_goal));
    assert(all[0] == title);
    assert(title.take(5)[0] != "Goal:"@[0]);
    assert(goal_in_line(all[0]) is None);
    assert(goal_in_line(all[1]) is None);
    assert(goal_in_lines(lines_of(after_goal)) == Some(trim_of(goal)));
    assert(goal_in_lines(lines_of(after_blank)) == Some(trim_of(goal)));
}

/// What the state file of an interactive run holds is found again: it is the goal that a run is
/// resumed with, whatever the other files hold.
pub proof fn law_own_state_comes_first(sources: SourcesModel, goal: Seq<char>)
    requires
        goal_in_state(sources.tui_state) == Some(goal),
    ensures
        kept_goal(sources) == Some(goal),
{
}

/// Returns a text without the white space around it, if there is more to it than that.
fn unless_blank(text: &str) -> (r: Option<String>)
    ensures
        opt_text(r) == not_blank(text@),
{
    let trimmed = trim(text);
    if trimmed.unicode_len() == 0 {
        None
    } else {
        Some(trimmed.to_owned())
    }
}

/// Returns the goal that a member of a state file holds.
pub fn goal_from_member(member: Option<String>) -> (r: Option<String>)
    ensures
        opt_text(r) == goal_in_member(opt_text(member)),
{
    match member {
        Some(text) => unless_blank(text.as_str()),
        None => None,
    }
}

/// Returns the goal that the state file of an interactive run holds.
pub fn read_goal_from_tui_state(contents: &str) -> (r: Option<String>)
    ensures
        opt_text(r) == goal_in_state(Some(contents@)),
{
    goal_from_member(read_text_member(contents, "goal"))
}

/// Returns the goal that the state file of a non-interactive run holds.
pub fn read_goal_from_exec_state(contents: &str) -> (r: Option<String>)
    ensures
        opt_text(r) == goal_in_state(Some(contents@)),
{
    goal_from_member(read_text_member(contents, "goal"))
}

/// Returns the goal that a progress document holds.
pub fn read_goal_from_progress_doc(contents: &str) -> (r: Option<String>)
    ensures
        opt_text(r) == goal_in_document(Some(contents@)),
{
    let all = lines(contents);
    let ghost meaning = goal_in_lines(lines_of(contents@));
    let mut i: usize = 0;
    assert(texts(all@).skip(0) =~= texts(all@));
    while i < all.len()
        invariant
            i <= all.len(),
            meaning == goal_in_document(Some(contents@)),
            meaning == goal_in_lines(texts(all@).skip(i as int)),
        decreases all.len() - i,
    {
        let ghost rest = texts(all@).skip(i as int);
        assert(rest[0] == all@[i as int]@);
        assert(rest.drop_first() =~= texts(all@).skip(i + 1));
        if let Some(goal) = strip_prefix(all[i].as_str(), "Goal:") {
            if let Some(goal) = unless_blank(goal) {
                return Some(goal);
            }
        }
        i += 1;
    }
    None
}

/// Returns the goal that the files hold, if they hold one.
pub fn read_resume_goal(sources: &GoalSources) -> (r: Option<String>)
    ensures
        opt_text(r) == kept_goal(sources@),
{
    if let Some(contents) = &sources.tui_state {
        if let Some(goal) = read_goal_from_tui_state(contents.as_str()) {
            return Some(goal);
        }
    }
    if let Some(contents) = &sources.exec_state {
        if let Some(goal) = read_goal_from_exec_state(contents.as_str()) {
            return Some(goal);
        }
    }
    match &sources.progress_document {
        Some(contents) => read_goal_from_progress_doc(contents.as_str()),
        None => None,
    }
}

/// What the outcome of resuming a run says.
pub open spec fn resume_result(r: Result<AutomodeStartRequest, String>) -> Result<
    RequestModel,
    Seq<char>,
> {
    match r {
        Ok(request) => Ok(request@),
        Err(message) => Err(message@),
    }
}

/// Returns the run that a resumed run is, given the goal that was found.
pub fn resume_with_goal(
    rules: PathRules,
    resume: AutomodeResumeRequest,
    goal: Option<String>,
) -> (r: Result<AutomodeStartRequest, String>)
    ensures
        resume_result(r) == resumed(rules@, resume@, opt_text(goal)),
{
    match goal {
        Some(goal) => Ok(
            AutomodeStartRequest {
                project: resume.project,
                duration: resume.duration,
                goal,
                skip_git_repo_check: resume.skip_git_repo_check,
                resume: true,
            },
        ),
        None => {
            let dir = run_root_dir(rules, resume.project.as_str());
            Err(concat3("Could not resume automode. No goal found in ", dir.as_str(), "."))
        },
    }
}

/// Returns the run that a resumed run is, given what the files in its project hold.
pub fn resume_from(
    rules: PathRules,
    resume: AutomodeResumeRequest,
    sources: &GoalSources,
) -> (r: Result<AutomodeStartRequest, String>)
    ensures
        resume_result(r) == resumed(rules@, resume@, kept_goal(sources@)),
{
    let goal = read_resume_goal(sources);
    resume_with_goal(rules, resume, goal)
}

/// Returns what the state file of an interactive run holds: the goal, which is found again when
/// the run is resumed, and the project.
pub fn tui_state_contents(
    rules: PathRules,
    request: &AutomodeStartRequest,
) -> (r: Result<String, String>)
    ensures
        r is Ok,
        r->Ok_0@ == json_pair("goal"@, request@.goal, "project"@, request@.project),
        goal_in_state(Some(r->Ok_0@)) == not_blank(request@.goal),
        json_text_member(r->Ok_0@, "project"@) == Some(request@.project),
{
    proof {
        reveal_strlit("goal");
        reveal_strlit("project");
    }
    assert("goal"@.len() != "project"@.len());
    match write_pair("goal", request.goal.as_str(), "project", request.project.as_str()) {
        Ok(contents) => Ok(contents),
        Err(err) => {
            let dir = run_root_dir(rules, request.project.as_str());
            let path = join_path(rules, dir.as_str(), TUI_STATE_FILE);
            let mut message = concat3("Failed to serialize ", path.as_str(), ": ");
            message.append(err.as_str());
            Err(message)
        },
    }
}

} // verus!
