//! An interactive run: where it keeps its files, how long it lasts, and what each turn is asked.
use crate::automode::runtime::check_repository;
use crate::automode::state::{run_root, run_root_dir, PROGRESS_DOC_FILE};
use crate::duration::{duration_text, format_duration};
use crate::json::json_pair;
use crate::paths::{join_path, joined, PathRules};
use crate::session::command::{
    format_automode_command, opt_secs, shown_command, AutomodeStartRequest, RequestModel,
};
use crate::session::document::{
    build_turn_prompt, first_document, initial_progress_document, shortened, truncate, turn_prompt,
};
use crate::session::goal::{goal_in_state, not_blank, tui_state_contents, TUI_STATE_FILE};
use crate::session::lines::{
    automode_start_lines, line_models, started_lines, SpanModel, StyledLine,
};
use crate::text::{decimal, decimal_string};
use vstd::prelude::*;
use vstd::string::*;

verus! {

/// How many nanoseconds a second has.
pub const NANOS: u128 = 1_000_000_000;

/// A run that is under way, with its deadline in nanoseconds of a clock that the caller reads.
#[derive(Debug, PartialEq, Eq)]
pub struct AutomodeRunState {
    pub request: AutomodeStartRequest,
    pub state_dir: String,
    pub progress_path: String,
    pub deadline: Option<u128>,
    pub iteration: u64,
    pub run_id: u64,
}

/// What an [`AutomodeRunState`] holds.
pub struct SessionModel {
    pub request: RequestModel,
    pub state_dir: Seq<char>,
    pub progress_path: Seq<char>,
    pub deadline: Option<u128>,
    pub iteration: u64,
    pub run_id: u64,
}

impl View for AutomodeRunState {
    type V = SessionModel;

    open spec fn view(&self) -> SessionModel {
        SessionModel {
            request: self.request@,
            state_dir: self.state_dir@,
            progress_path: self.progress_path@,
            deadline: self.deadline,
            iteration: self.iteration,
            run_id: self.run_id,
        }
    }
}

/// What a turn is started with: the prompt, what is shown in its place, and where it runs.
#[derive(Debug, PartialEq, Eq)]
pub struct AutomodeTurnPrompt {
    pub prompt: String,
    pub display_text: String,
    pub cwd: String,
}

/// What an [`AutomodeTurnPrompt`] says.
pub struct PromptModel {
    pub prompt: Seq<char>,
    pub display_text: Seq<char>,
    pub cwd: Seq<char>,
}

impl View for AutomodeTurnPrompt {
    type V = PromptModel;

    open spec fn view(&self) -> PromptModel {
        PromptModel {
            prompt: self.prompt@,
            display_text: self.display_text@,
            cwd: self.cwd@,
        }
    }
}

/// The files that a run writes before it starts. The progress document is only written where
/// there is none yet.
#[derive(Debug, PartialEq, Eq)]
pub struct StartFiles {
    pub state_dir: String,
    pub progress_path: String,
    pub progress_document: String,
    pub state_path: String,
    pub state_contents: String,
}

/// What [`StartFiles`] say.
pub struct FilesModel {
    pub state_dir: Seq<char>,
    pub progress_path: Seq<char>,
    pub progress_document: Seq<char>,
    pub state_path: Seq<char>,
    pub state_contents: Seq<char>,
}

impl View for StartFiles {
    type V = FilesModel;

    open spec fn view(&self) -> FilesModel {
        FilesModel {
            state_dir: self.state_dir@,
            progress_path: self.progress_path@,
            progress_document: self.progress_document@,
            state_path: self.state_path@,
            state_contents: self.state_contents@,
        }
    }
}

/// The files that a run writes before it starts.
pub open spec fn files_of(separator: char, request: RequestModel) -> FilesModel {
    let dir = run_root(separator, request.project);
    FilesModel {
        state_dir: dir,
        progress_path: joined(separator, dir, PROGRESS_DOC_FILE@),
        progress_document: first_document(request.goal, request.project),
        state_path: joined(separator, dir, TUI_STATE_FILE@),
        state_contents: json_pair("goal"@, request.goal, "project"@, request.project),
    }
}

/// The files that a run writes before it starts, or why it does not start.
pub open spec fn start_plan(
    separator: char,
    request: RequestModel,
    is_dir: bool,
    in_repository: bool,
) -> Result<FilesModel, Seq<char>> {
    if !is_dir {
        Err("Automode project does not exist or is not a directory: "@ + request.project)
    } else if !request.skip_git_repo_check && !in_repository {
        Err("Not inside a trusted directory and --skip-git-repo-check was not specified."@)
    } else {
        Ok(files_of(separator, request))
    }
}

/// When a run ends that starts at `now`, if there is an end to it. `added` is that time where the
/// clock can tell it; a run that would end after all times that the clock can tell ends at once.
pub open spec fn end_of_run(
    duration: Option<nat>,
    now: u128,
    added: Option<u128>,
) -> Option<u128> {
    match duration {
        None => None,
        Some(_) => match added {
            Some(deadline) => Some(deadline),
            None => Some(now),
        },
    }
}

/// A run that has just been started.
pub open spec fn session_of(
    separator: char,
    request: RequestModel,
    run_id: u64,
    now: u128,
    added: Option<u128>,
) -> SessionModel {
    let dir = run_root(separator, request.project);
    SessionModel {
        request,
        state_dir: dir,
        progress_path: joined(separator, dir, PROGRESS_DOC_FILE@),
        deadline: end_of_run(request.duration, now, added),
        iteration: 0,
        run_id,
    }
}

/// Whether the time of a run is over.
pub open spec fn is_over(deadline: Option<u128>, now: u128) -> bool {
    match deadline {
        Some(deadline) => now >= deadline,
        None => false,
    }
}

/// How many whole seconds are left, if there is an end to the run.
pub open spec fn time_left(deadline: Option<u128>, now: u128) -> Option<nat> {
    match deadline {
        None => None,
        Some(deadline) => {
            let nanos = if now < deadline {
                deadline - now
            } else {
                0
            };
            let secs = nanos / NANOS as int;
            Some(
                if secs <= u64::MAX {
                    secs as nat
                } else {
                    u64::MAX as nat
                },
            )
        },
    }
}

/// The run with its next turn counted.
pub open spec fn next_iteration(session: SessionModel) -> SessionModel {
    SessionModel { iteration: (session.iteration + 1) as u64, ..session }
}

/// What the next turn of a run is started with.
pub open spec fn prompt_of(session: SessionModel, now: u128) -> PromptModel {
    let iteration = (session.iteration + 1) as nat;
    PromptModel {
        prompt: turn_prompt(
            session.request,
            session.state_dir,
            session.progress_path,
            iteration,
            time_left(session.deadline, now),
        ),
        display_text: "/automode iteration "@ + decimal(iteration) + ": "@ + shortened(
            session.request.goal,
            120,
        ),
        cwd: session.request.project,
    }
}

/// The lines for a run that begins.
pub open spec fn begin_lines(session: SessionModel) -> Seq<Seq<SpanModel>> {
    started_lines(
        shown_command(session.request),
        session.request.resume,
        session.request.project,
        session.progress_path,
        match session.request.duration {
            Some(secs) => Some(duration_text(secs)),
            None => None,
        },
    )
}

/// A run without a run time never ends by itself, and one with a run time that the clock can tell
/// ends then and not before.
pub proof fn law_when_a_run_ends(
    separator: char,
    request: RequestModel,
    run_id: u64,
    start: u128,
    added: Option<u128>,
    now: u128,
)
    ensures
        request.duration is None ==> !is_over(
            session_of(separator, request, run_id, start, added).deadline,
            now,
        ),
        request.duration is Some && added is Some ==> (is_over(
            session_of(separator, request, run_id, start, added).deadline,
            now,
        ) <==> now >= added->0),
        request.duration is None <==> time_left(
            session_of(separator, request, run_id, start, added).deadline,
            now,
        ) is None,
        is_over(session_of(separator, request, run_id, start, added).deadline, now) ==> time_left(
            session_of(separator, request, run_id, start, added).deadline,
            now,
        ) == Some(0nat),
{
}

/// Returns the files that a run writes before it starts, or why it does not start.
pub fn plan_start(
    rules: PathRules,
    request: &AutomodeStartRequest,
    is_dir: bool,
    in_repository: bool,
) -> (r: Result<StartFiles, String>)
    ensures
        start_plan(rules@, request@, is_dir, in_repository) == (match r {
            Ok(files) => Ok::<FilesModel, Seq<char>>(files@),
            Err(message) => Err::<FilesModel, Seq<char>>(message@),
        }),
        r matches Ok(files) ==> goal_in_state(Some(files@.state_contents)) == not_blank(
            request@.goal,
        ),
{
    if !is_dir {
        let mut message = "Automode project does not exist or is not a directory: ".to_owned();
        message.append(request.project.as_str());
        return Err(message);
    }
    match check_repository(request.skip_git_repo_check, in_repository) {
        Ok(()) => {},
        Err(message) => return Err(message),
    }
    let state_dir = run_root_dir(rules, request.project.as_str());
    let progress_path = join_path(rules, state_dir.as_str(), PROGRESS_DOC_FILE);
    let progress_document = initial_progress_document(
        request.goal.as_str(),
        request.project.as_str(),
    );
    let state_path = join_path(rules, state_dir.as_str(), TUI_STATE_FILE);
    let state_contents = tui_state_contents(rules, request)?;
    Ok(StartFiles { state_dir, progress_path, progress_document, state_path, state_contents })
}

impl AutomodeRunState {
    /// Starts a run at `now`, where `added` is the time at which it ends, as far as the clock can
    /// tell it.
    pub fn start(
        rules: PathRules,
        request: AutomodeStartRequest,
        run_id: u64,
        now: u128,
        added: Option<u128>,
    ) -> (r: Self)
        ensures
            r@ == session_of(rules@, request@, run_id, now, added),
    {
        let state_dir = run_root_dir(rules, request.project.as_str());
        let progress_path = join_path(rules, state_dir.as_str(), PROGRESS_DOC_FILE);
        let deadline = match request.duration {
            None => None,
            Some(_) => match added {
                Some(deadline) => Some(deadline),
                None => Some(now),
            },
        };
        AutomodeRunState { request, state_dir, progress_path, deadline, iteration: 0, run_id }
    }

    /// Returns the number that tells this run from others.
    pub fn run_id(&self) -> (r: u64)
        ensures
            r == self@.run_id,
    {
        self.run_id
    }

    /// Returns when the run ends, if there is an end to it.
    pub fn deadline(&self) -> (r: Option<u128>)
        ensures
            r == self@.deadline,
    {
        self.deadline
    }

    /// Tells whether the time of the run is over.
    pub fn deadline_reached(&self, now: u128) -> (r: bool)
        ensures
            r == is_over(self@.deadline, now),
    {
        match self.deadline {
            Some(deadline) => now >= deadline,
            None => false,
        }
    }

    /// Returns the path of the progress document.
    pub fn progress_path(&self) -> (r: &str)
        ensures
            r@ == self@.progress_path,
    {
        self.progress_path.as_str()
    }

    /// Returns how many whole seconds are left, if there is an end to the run.
    pub fn remaining_duration(&self, now: u128) -> (r: Option<u64>)
        ensures
            opt_secs(r) == time_left(self@.deadline, now),
    {
        match self.deadline {
            None => None,
            Some(deadline) => {
                let nanos: u128 = if now < deadline {
                    deadline - now
                } else {
                    0
                };
                let secs: u128 = nanos / NANOS;
                if secs <= u64::MAX as u128 {
                    Some(secs as u64)
                } else {
                    Some(u64::MAX)
                }
            },
        }
    }

    /// Counts the next turn of the run, and returns what it is started with.
    pub fn next_turn_prompt(&mut self, now: u128) -> (r: AutomodeTurnPrompt)
        requires
            old(self)@.iteration < u64::MAX,
        ensures
            final(self)@ == next_iteration(old(self)@),
            r@ == prompt_of(old(self)@, now),
    {
        self.iteration = self.iteration + 1;
        let prompt = build_turn_prompt(
            &self.request,
            self.state_dir.as_str(),
            self.progress_path.as_str(),
            self.iteration,
            self.remaining_duration(now),
        );
        let digits = decimal_string(self.iteration);
        let goal = truncate(self.request.goal.as_str(), 120);
        let mut display_text = "/automode iteration ".to_owned();
        display_text.append(digits.as_str());
        display_text.append(": ");
        display_text.append(goal.as_str());
        AutomodeTurnPrompt { prompt, display_text, cwd: self.request.project.clone() }
    }
}

/// Returns the lines for a run that begins.
pub fn automode_started_lines(state: &AutomodeRunState) -> (r: Vec<StyledLine>)
    ensures
        line_models(r@) == begin_lines(state@),
{
    let command = format_automode_command(&state.request);
    let duration = match state.request.duration {
        Some(secs) => Some(format_duration(secs)),
        None => None,
    };
    automode_start_lines(
        command.as_str(),
        state.request.resume,
        state.request.project.as_str(),
        state.progress_path.as_str(),
        duration,
    )
}

} // verus!
