//! What the command line of the non-interactive program says.
use vstd::prelude::*;

verus! {

/// The options that every program of the family takes.
#[derive(Debug, PartialEq, Eq)]
pub struct SharedCliOptions {
    /// Images to attach to the prompt.
    pub images: Vec<String>,
    /// The model to use.
    pub model: Option<String>,
    /// Use a local open source model provider.
    pub oss: bool,
    /// The local provider to use.
    pub oss_provider: Option<String>,
    /// The configuration profile to use.
    pub config_profile: Option<String>,
    /// The sandbox mode that was asked for.
    pub sandbox_mode: Option<String>,
    /// Run without asking, in the workspace's sandbox.
    pub full_auto: bool,
    /// Run without asking and without a sandbox.
    pub dangerously_bypass_approvals_and_sandbox: bool,
    /// The directory to work in.
    pub cwd: Option<String>,
    /// Further directories to write to.
    pub add_dir: Vec<String>,
}

impl Default for SharedCliOptions {
    fn default() -> (r: Self)
        ensures
            r.images@.len() == 0,
            r.model is None,
            !r.oss,
            r.oss_provider is None,
            r.config_profile is None,
            r.sandbox_mode is None,
            !r.full_auto,
            !r.dangerously_bypass_approvals_and_sandbox,
            r.cwd is None,
            r.add_dir@.len() == 0,
    {
        SharedCliOptions {
            images: Vec::new(),
            model: None,
            oss: false,
            oss_provider: None,
            config_profile: None,
            sandbox_mode: None,
            full_auto: false,
            dangerously_bypass_approvals_and_sandbox: false,
            cwd: None,
            add_dir: Vec::new(),
        }
    }
}

/// The shared options as the non-interactive program takes them.
#[derive(Debug, PartialEq, Eq)]
pub struct ExecSharedCliOptions(pub SharedCliOptions);

impl Default for ExecSharedCliOptions {
    fn default() -> (r: Self)
        ensures
            call_ensures(SharedCliOptions::default, (), r.0),
    {
        ExecSharedCliOptions(SharedCliOptions::default())
    }
}

impl ExecSharedCliOptions {
    /// Returns the shared options.
    pub fn into_inner(self) -> (r: SharedCliOptions)
        ensures
            r == self.0,
    {
        self.0
    }
}

impl core::ops::Deref for ExecSharedCliOptions {
    type Target = SharedCliOptions;

    fn deref(&self) -> (r: &SharedCliOptions)
        ensures
            *r == self.0,
    {
        &self.0
    }
}

/// Whether the output is coloured.
#[derive(Debug, Clone, Copy, PartialEq, Eq, Structural)]
pub enum Color {
    Always,
    Never,
    Auto,
}

impl Default for Color {
    fn default() -> (r: Self)
        ensures
            r == Color::Auto,
    {
        Color::Auto
    }
}

/// What to do, if not to run a new session.
#[derive(Debug, PartialEq, Eq)]
pub enum Command {
    /// Resume a previous session by id or pick the most recent with --last.
    Resume(ResumeArgs),
    /// Run a code review against the current repository.
    Review(ReviewArgs),
}

/// The arguments of a resumed session in the order in which they are written.
#[derive(Debug, PartialEq, Eq)]
pub struct ResumeArgsRaw {
    /// Conversation/session id (UUID) or thread name. UUIDs take precedence if it parses.
    /// If omitted, use --last to pick the most recent recorded session.
    pub session_id: Option<String>,
    /// Resume the most recent recorded session (newest) without specifying an id.
    pub last: bool,
    /// Show all sessions (disables cwd filtering).
    pub all: bool,
    /// Optional image(s) to attach to the prompt sent after resuming.
    pub images: Vec<String>,
    /// Prompt to send after resuming the session. If `-` is used, read from stdin.
    pub prompt: Option<String>,
}

/// The arguments of a resumed session.
#[derive(Debug, PartialEq, Eq)]
pub struct ResumeArgs {
    /// Conversation/session id (UUID) or thread name. UUIDs take precedence if it parses.
    /// If omitted, use --last to pick the most recent recorded session.
    pub session_id: Option<String>,
    /// Resume the most recent recorded session (newest) without specifying an id.
    pub last: bool,
    /// Show all sessions (disables cwd filtering).
    pub all: bool,
    /// Optional image(s) to attach to the prompt sent after resuming.
    pub images: Vec<String>,
    /// Prompt to send after resuming the session. If `-` is used, read from stdin.
    pub prompt: Option<String>,
}

/// With --last and no second positional argument, the first one is the prompt and not a session.
pub open spec fn resume_args(raw: ResumeArgsRaw) -> ResumeArgs {
    let prompt_only = raw.last && raw.prompt is None;
    ResumeArgs {
        session_id: if prompt_only {
            None
        } else {
            raw.session_id
        },
        last: raw.last,
        all: raw.all,
        images: raw.images,
        prompt: if prompt_only {
            raw.session_id
        } else {
            raw.prompt
        },
    }
}

impl From<ResumeArgsRaw> for ResumeArgs {
    fn from(raw: ResumeArgsRaw) -> (r: Self) {
        let prompt_only = raw.last && raw.prompt.is_none();
        let (session_id, prompt) = if prompt_only {
            (None, raw.session_id)
        } else {
            (raw.session_id, raw.prompt)
        };
        ResumeArgs { session_id, last: raw.last, all: raw.all, images: raw.images, prompt }
    }
}

impl vstd::std_specs::convert::FromSpecImpl<ResumeArgsRaw> for ResumeArgs {
    open spec fn obeys_from_spec() -> bool {
        true
    }

    open spec fn from_spec(raw: ResumeArgsRaw) -> ResumeArgs {
        resume_args(raw)
    }
}

/// What to review.
#[derive(Debug, PartialEq, Eq)]
pub struct ReviewArgs {
    /// Review staged, unstaged, and untracked changes.
    pub uncommitted: bool,
    /// Review changes against the given base branch.
    pub base: Option<String>,
    /// Review the changes introduced by a commit.
    pub commit: Option<String>,
    /// Optional commit title to display in the review summary.
    pub commit_title: Option<String>,
    /// Custom review instructions. If `-` is used, read from stdin.
    pub prompt: Option<String>,
}

/// The command line of the non-interactive program.
#[derive(Debug, PartialEq, Eq)]
pub struct Cli {
    /// Action to perform. If omitted, runs a new non-interactive session.
    pub command: Option<Command>,
    pub shared: ExecSharedCliOptions,
    /// Allow running outside a Git repository.
    pub skip_git_repo_check: bool,
    /// Run without persisting session files to disk.
    pub ephemeral: bool,
    /// Do not load the user's configuration.
    pub ignore_user_config: bool,
    /// Do not load user or project rule files.
    pub ignore_rules: bool,
    /// Path to a JSON Schema file describing the model's final response shape.
    pub output_schema: Option<String>,
    /// Configuration values in the form `key=value`.
    pub config_overrides: Vec<String>,
    /// Specifies color settings for use in the output.
    pub color: Color,
    /// Print events to stdout as JSONL.
    pub json: bool,
    /// Specifies file where the last message from the agent should be written.
    pub last_message_file: Option<String>,
    /// Initial instructions for the agent.
    pub prompt: Option<String>,
}

impl core::ops::Deref for Cli {
    type Target = SharedCliOptions;

    fn deref(&self) -> (r: &SharedCliOptions)
        ensures
            *r == self.shared.0,
    {
        &self.shared.0
    }
}

/// The command line of an unattended run.
#[derive(Debug, PartialEq, Eq)]
pub struct AutomodeArgs {
    pub shared: ExecSharedCliOptions,
    /// Project directory automode should operate on. Equivalent to -C/--cd.
    pub project: Option<String>,
    /// How many seconds automode should keep running.
    pub duration: u64,
    /// Goal automode should pursue for the entire run.
    pub goal: String,
    /// Directory for automode state. Relative paths are resolved inside the project.
    pub state_dir: Option<String>,
    /// Allow running automode outside a Git repository.
    pub skip_git_repo_check: bool,
    /// Configuration values in the form `key=value`.
    pub config_overrides: Vec<String>,
}

/// Nothing that was written is lost, and the order tells what it is: of two texts the first is the
/// session and the second the prompt, and a single one is the session, or with --last the prompt.
pub proof fn law_resumed_sessions(raw: ResumeArgsRaw)
    ensures
        ({
            let args = resume_args(raw);
            &&& args.last == raw.last
            &&& args.all == raw.all
            &&& args.images == raw.images
            &&& raw.prompt is Some ==> args.session_id == raw.session_id && args.prompt
                == raw.prompt
            &&& raw.prompt is None && !raw.last ==> args.session_id == raw.session_id
                && args.prompt is None
            &&& raw.prompt is None && raw.last ==> args.session_id is None && args.prompt
                == raw.session_id
        }),
{
}

} // verus!
