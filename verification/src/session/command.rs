//! The `/automode` command: what the user types, and what is shown of it.
use crate::duration::{duration_of, duration_text, format_duration, parse_duration};
use crate::paths::{join_path, joined, PathRules};
use crate::shell::{plain_words, shell_words, split_words};
use crate::text::{
    first_char, is_ascii_digit, is_digit, join, join_of, lemma_texts_push, same_ignoring_case,
    same_text, same_text_ignoring_case, texts, trim, trim_of,
};
use vstd::prelude::*;
use vstd::string::*;

verus! {

/// How the command is used.
pub const AUTOMODE_USAGE: &'static str =
    "Usage: /automode [<duration>] <goal> [--project DIR] [--skip-git-repo-check] | /automode resume [--duration DURATION] [--project DIR]";

/// A run that is to be started.
#[derive(Debug, PartialEq, Eq)]
pub struct AutomodeStartRequest {
    pub project: String,
    /// How many seconds the run lasts, if there is an end to it.
    pub duration: Option<u64>,
    pub goal: String,
    pub skip_git_repo_check: bool,
    pub resume: bool,
}

/// A run that is to be taken up again, with the goal that it had.
#[derive(Debug, PartialEq, Eq)]
pub struct AutomodeResumeRequest {
    pub project: String,
    /// How many seconds the run lasts, if there is an end to it.
    pub duration: Option<u64>,
    pub skip_git_repo_check: bool,
}

/// What the user wants.
#[derive(Debug, PartialEq, Eq)]
pub enum AutomodeSlashCommand {
    Start(AutomodeStartRequest),
    Stop,
}

/// What the arguments of the command say. The goal of a resumed run is not among them.
#[derive(Debug, PartialEq, Eq)]
pub enum AutomodeSlashArgs {
    Command(AutomodeSlashCommand),
    Resume(AutomodeResumeRequest),
}

/// What an [`AutomodeStartRequest`] says.
pub struct RequestModel {
    pub project: Seq<char>,
    pub duration: Option<nat>,
    pub goal: Seq<char>,
    pub skip_git_repo_check: bool,
    pub resume: bool,
}

/// What an [`AutomodeResumeRequest`] says.
pub struct ResumeModel {
    pub project: Seq<char>,
    pub duration: Option<nat>,
    pub skip_git_repo_check: bool,
}

/// What [`AutomodeSlashArgs`] say.
pub enum SlashModel {
    Start(RequestModel),
    Stop,
    Resume(ResumeModel),
}

/// A number of seconds, if there is one.
pub open spec fn opt_secs(secs: Option<u64>) -> Option<nat> {
    match secs {
        Some(secs) => Some(secs as nat),
        None => None,
    }
}

impl View for AutomodeStartRequest {
    type V = RequestModel;

    open spec fn view(&self) -> RequestModel {
        RequestModel {
            project: self.project@,
            duration: opt_secs(self.duration),
            goal: self.goal@,
            skip_git_repo_check: self.skip_git_repo_check,
            resume: self.resume,
        }
    }
}

impl Clone for AutomodeStartRequest {
    fn clone(&self) -> (r: Self)
        ensures
            r@ == self@,
    {
        AutomodeStartRequest {
            project: self.project.clone(),
            duration: self.duration,
            goal: self.goal.clone(),
            skip_git_repo_check: self.skip_git_repo_check,
            resume: self.resume,
        }
    }
}

impl View for AutomodeResumeRequest {
    type V = ResumeModel;

    open spec fn view(&self) -> ResumeModel {
        ResumeModel {
            project: self.project@,
            duration: opt_secs(self.duration),
            skip_git_repo_check: self.skip_git_repo_check,
        }
    }
}

impl View for AutomodeSlashArgs {
    type V = SlashModel;

    open spec fn view(&self) -> SlashModel {
        match self {
            AutomodeSlashArgs::Command(AutomodeSlashCommand::Start(request)) => SlashModel::Start(
                request@,
            ),
            AutomodeSlashArgs::Command(AutomodeSlashCommand::Stop) => SlashModel::Stop,
            AutomodeSlashArgs::Resume(request) => SlashModel::Resume(request@),
        }
    }
}

/// What has been read of the arguments so far.
pub struct ArgsModel {
    pub project: Seq<char>,
    pub duration: Option<nat>,
    pub goal: Seq<Seq<char>>,
    pub skip_git_repo_check: bool,
}

/// Arguments of which nothing has been read.
pub open spec fn no_args(default_project: Seq<char>) -> ArgsModel {
    ArgsModel {
        project: default_project,
        duration: None,
        goal: seq![],
        skip_git_repo_check: false,
    }
}

pub open spec fn is_project_flag(token: Seq<char>) -> bool {
    token == "--project"@ || token == "-p"@
}

pub open spec fn is_duration_flag(token: Seq<char>) -> bool {
    token == "--duration"@ || token == "-d"@
}

pub open spec fn is_goal_flag(token: Seq<char>) -> bool {
    token == "--goal"@ || token == "-g"@
}

pub open spec fn is_skip_flag(token: Seq<char>) -> bool {
    token == "--skip-git-repo-check"@
}

pub open spec fn starts_with_digit(s: Seq<char>) -> bool {
    s.len() > 0 && is_digit(s[0])
}

/// The arguments of a new run. An option comes with its value; everything that follows the goal
/// option is the goal. Of the other words, those that are no run time belong to the goal, and so
/// does every one after a run time has been given.
pub open spec fn start_args(
    separator: char,
    tokens: Seq<Seq<char>>,
    args: ArgsModel,
    default_project: Seq<char>,
) -> Result<ArgsModel, Seq<char>>
    decreases tokens.len(),
{
    if tokens.len() == 0 {
        Ok(args)
    } else if is_project_flag(tokens[0]) {
        if tokens.len() < 2 {
            Err("Missing value after --project."@)
        } else {
            start_args(
                separator,
                tokens.skip(2),
                ArgsModel { project: joined(separator, default_project, tokens[1]), ..args },
                default_project,
            )
        }
    } else if is_duration_flag(tokens[0]) {
        if tokens.len() < 2 {
            Err("Missing value after --duration."@)
        } else {
            match duration_of(tokens[1]) {
                Ok(secs) => start_args(
                    separator,
                    tokens.skip(2),
                    ArgsModel { duration: Some(secs), ..args },
                    default_project,
                ),
                Err(message) => Err(message),
            }
        }
    } else if is_goal_flag(tokens[0]) {
        if tokens.len() < 2 {
            Err("Missing value after --goal."@)
        } else {
            Ok(ArgsModel { goal: args.goal + tokens.skip(1), ..args })
        }
    } else if is_skip_flag(tokens[0]) {
        start_args(
            separator,
            tokens.skip(1),
            ArgsModel { skip_git_repo_check: true, ..args },
            default_project,
        )
    } else {
        let as_goal = ArgsModel { goal: args.goal.push(tokens[0]), ..args };
        if args.duration is Some {
            start_args(separator, tokens.skip(1), as_goal, default_project)
        } else {
            match duration_of(tokens[0]) {
                Ok(secs) => start_args(
                    separator,
                    tokens.skip(1),
                    ArgsModel { duration: Some(secs), ..args },
                    default_project,
                ),
                Err(message) => if starts_with_digit(tokens[0]) {
                    Err(
                        message
                            + ". First positional argument must be a valid duration or part of the goal."@,
                    )
                } else {
                    start_args(separator, tokens.skip(1), as_goal, default_project)
                },
            }
        }
    }
}

/// The arguments of a resumed run: options, and a run time that may stand without its option.
pub open spec fn resume_args(
    separator: char,
    tokens: Seq<Seq<char>>,
    args: ArgsModel,
    default_project: Seq<char>,
) -> Result<ArgsModel, Seq<char>>
    decreases tokens.len(),
{
    if tokens.len() == 0 {
        Ok(args)
    } else if is_project_flag(tokens[0]) {
        if tokens.len() < 2 {
            Err("Missing value after --project."@)
        } else {
            resume_args(
                separator,
                tokens.skip(2),
                ArgsModel { project: joined(separator, default_project, tokens[1]), ..args },
                default_project,
            )
        }
    } else if is_duration_flag(tokens[0]) {
        if tokens.len() < 2 {
            Err("Missing value after --duration."@)
        } else {
            match duration_of(tokens[1]) {
                Ok(secs) => resume_args(
                    separator,
                    tokens.skip(2),
                    ArgsModel { duration: Some(secs), ..args },
                    default_project,
                ),
                Err(message) => Err(message),
            }
        }
    } else if is_skip_flag(tokens[0]) {
        resume_args(
            separator,
            tokens.skip(1),
            ArgsModel { skip_git_repo_check: true, ..args },
            default_project,
        )
    } else if args.duration is None {
        match duration_of(tokens[0]) {
            Ok(secs) => resume_args(
                separator,
                tokens.skip(1),
                ArgsModel { duration: Some(secs), ..args },
                default_project,
            ),
            Err(message) => Err(
                message + ". Resume accepts only an optional duration and flags."@,
            ),
        }
    } else {
        Err("Unexpected /automode resume argument: "@ + tokens[0])
    }
}

/// The run that arguments ask for. It has a goal, and if it is to end, not at once.
pub open spec fn start_of(args: ArgsModel) -> Result<SlashModel, Seq<char>> {
    let goal = join_of(args.goal, " "@);
    if args.duration == Some(0nat) {
        Err("Duration must be greater than zero."@)
    } else if trim_of(goal).len() == 0 {
        Err("Automode goal must not be empty."@)
    } else {
        Ok(
            SlashModel::Start(
                RequestModel {
                    project: args.project,
                    duration: args.duration,
                    goal,
                    skip_git_repo_check: args.skip_git_repo_check,
                    resume: false,
                },
            ),
        )
    }
}

/// The resumed run that arguments ask for.
pub open spec fn resume_of(args: ArgsModel) -> Result<SlashModel, Seq<char>> {
    if args.duration == Some(0nat) {
        Err("Duration must be greater than zero."@)
    } else {
        Ok(
            SlashModel::Resume(
                ResumeModel {
                    project: args.project,
                    duration: args.duration,
                    skip_git_repo_check: args.skip_git_repo_check,
                },
            ),
        )
    }
}

/// What the words of the command come to, if they could be told apart.
pub open spec fn slash_of(
    separator: char,
    words: Option<Seq<Seq<char>>>,
    default_project: Seq<char>,
) -> Result<SlashModel, Seq<char>> {
    match words {
        None => Err("Could not parse /automode arguments. Check quoted strings."@),
        Some(tokens) => if tokens.len() == 0 {
            Err(AUTOMODE_USAGE@)
        } else if tokens.len() == 1 && same_ignoring_case(tokens[0], "stop"@) {
            Ok(SlashModel::Stop)
        } else if same_ignoring_case(tokens[0], "resume"@) {
            match resume_args(
                separator,
                tokens.skip(1),
                no_args(default_project),
                default_project,
            ) {
                Ok(args) => resume_of(args),
                Err(message) => Err(message),
            }
        } else {
            match start_args(separator, tokens, no_args(default_project), default_project) {
                Ok(args) => start_of(args),
                Err(message) => Err(message),
            }
        },
    }
}

/// What a result of reading the command says.
pub open spec fn slash_result(r: Result<AutomodeSlashArgs, String>) -> Result<
    SlashModel,
    Seq<char>,
> {
    match r {
        Ok(args) => Ok(args@),
        Err(message) => Err(message@),
    }
}

/// The words that a run is asked for with.
pub open spec fn command_words(request: RequestModel, goal: Seq<Seq<char>>) -> Seq<Seq<char>> {
    let project = seq!["--project"@, request.project];
    let duration = match request.duration {
        Some(secs) => seq!["--duration"@, duration_text(secs)],
        None => seq![],
    };
    if request.resume {
        seq!["resume"@] + project + duration
    } else {
        project + duration + seq!["--goal"@] + goal
    }
}

/// The command as it is shown.
pub open spec fn shown_command(request: RequestModel) -> Seq<char> {
    let project = "--project "@ + request.project;
    match (request.resume, request.duration) {
        (true, Some(secs)) => "/automode resume "@ + project + " --duration "@ + duration_text(secs),
        (true, None) => "/automode resume "@ + project,
        (false, Some(secs)) => "/automode "@ + project + " --duration "@ + duration_text(secs)
            + " --goal "@ + request.goal,
        (false, None) => "/automode "@ + project + " --goal "@ + request.goal,
    }
}

/// Tells whether a text starts with a decimal digit.
pub fn starts_with_ascii_digit(value: &str) -> (r: bool)
    ensures
        r == starts_with_digit(value@),
{
    match first_char(value) {
        Some(c) => is_ascii_digit(c),
        None => false,
    }
}

/// Returns where a project argument leads from the default project.
pub fn resolve_project_arg(rules: PathRules, raw: &str, default_project: &str) -> (r: String)
    ensures
        r@ == joined(rules@, default_project@, raw@),
{
    join_path(rules, default_project, raw)
}

fn is_either(token: &str, long: &str, short: &str) -> (r: bool)
    ensures
        r == (token@ == long@ || token@ == short@),
{
    same_text(token, long) || same_text(token, short)
}

/// What has been read of the arguments so far.
struct Args {
    project: String,
    duration: Option<u64>,
    goal: Vec<String>,
    skip_git_repo_check: bool,
}

impl View for Args {
    type V = ArgsModel;

    closed spec fn view(&self) -> ArgsModel {
        ArgsModel {
            project: self.project@,
            duration: opt_secs(self.duration),
            goal: texts(self.goal@),
            skip_git_repo_check: self.skip_git_repo_check,
        }
    }
}

fn new_args(default_project: &str) -> (r: Args)
    ensures
        r@ == no_args(default_project@),
{
    let r = Args {
        project: default_project.to_owned(),
        duration: None,
        goal: Vec::new(),
        skip_git_repo_check: false,
    };
    assert(texts(r.goal@) =~= seq![]);
    r
}

fn push_goal(goal: &mut Vec<String>, word: &String)
    ensures
        texts(final(goal)@) == texts(old(goal)@).push(word@),
{
    let word = word.clone();
    proof {
        lemma_texts_push(goal@, word);
    }
    goal.push(word);
}

fn parse_start_args(
    rules: PathRules,
    tokens: &Vec<String>,
    default_project: &str,
) -> (r: Result<Args, String>)
    ensures
        start_args(rules@, texts(tokens@), no_args(default_project@), default_project@) == (match
            r {
            Ok(args) => Ok::<ArgsModel, Seq<char>>(args@),
            Err(message) => Err::<ArgsModel, Seq<char>>(message@),
        }),
{
    let ghost all = texts(tokens@);
    let ghost meaning = start_args(rules@, all, no_args(default_project@), default_project@);
    let mut args = new_args(default_project);
    let mut index: usize = 0;
    assert(all.skip(0) =~= all);
    while index < tokens.len()
        invariant
            index <= tokens.len(),
            all == texts(tokens@),
            meaning == start_args(rules@, all, no_args(default_project@), default_project@),
            meaning == start_args(rules@, all.skip(index as int), args@, default_project@),
        decreases tokens.len() - index,
    {
        let ghost rest = all.skip(index as int);
        let ghost before = args@;
        let token = tokens[index].as_str();
        assert(rest[0] == token@);
        if is_either(token, "--project", "-p") {
            if index + 1 >= tokens.len() {
                return Err("Missing value after --project.".to_owned());
            }
            assert(rest[1] == tokens@[index + 1]@);
            args.project = resolve_project_arg(rules, tokens[index + 1].as_str(), default_project);
            assert(rest.skip(2) =~= all.skip(index + 2));
            index += 2;
        } else if is_either(token, "--duration", "-d") {
            if index + 1 >= tokens.len() {
                return Err("Missing value after --duration.".to_owned());
            }
            assert(rest[1] == tokens@[index + 1]@);
            match parse_duration(tokens[index + 1].as_str()) {
                Ok(secs) => {
                    args.duration = Some(secs);
                },
                Err(message) => return Err(message),
            }
            assert(rest.skip(2) =~= all.skip(index + 2));
            index += 2;
        } else if is_either(token, "--goal", "-g") {
            if index + 1 >= tokens.len() {
                return Err("Missing value after --goal.".to_owned());
            }
            let mut next: usize = index + 1;
            let ghost words = rest.skip(1);
            assert(before.goal + words.take(0) =~= before.goal);
            while next < tokens.len()
                invariant
                    index + 1 <= next <= tokens.len(),
                    all == texts(tokens@),
                    words == all.skip(index + 1),
                    args@ == (ArgsModel {
                        goal: before.goal + words.take(next - index - 1),
                        ..before
                    }),
                decreases tokens.len() - next,
            {
                assert(tokens@[next as int]@ == words[next - index - 1]);
                push_goal(&mut args.goal, &tokens[next]);
                next += 1;
                assert(before.goal + words.take(next - index - 1) =~= (before.goal + words.take(
                    next - index - 2,
                )).push(words[next - index - 2]));
            }
            assert(words.take(words.len() as int) =~= words);
            return Ok(args);
        } else if same_text(token, "--skip-git-repo-check") {
            args.skip_git_repo_check = true;
            assert(rest.skip(1) =~= all.skip(index + 1));
            index += 1;
        } else {
            assert(rest.skip(1) =~= all.skip(index + 1));
            if args.duration.is_some() {
                push_goal(&mut args.goal, &tokens[index]);
            } else {
                match parse_duration(token) {
                    Ok(secs) => {
                        args.duration = Some(secs);
                    },
                    Err(message) => {
                        if starts_with_ascii_digit(token) {
                            let mut message = message;
                            message.append(
                                ". First positional argument must be a valid duration or part of the goal.",
                            );
                            return Err(message);
                        }
                        push_goal(&mut args.goal, &tokens[index]);
                    },
                }
            }
            index += 1;
        }
    }
    Ok(args)
}

fn parse_resume_args(
    rules: PathRules,
    tokens: &Vec<String>,
    default_project: &str,
) -> (r: Result<Args, String>)
    requires
        tokens@.len() > 0,
    ensures
        resume_args(
            rules@,
            texts(tokens@).skip(1),
            no_args(default_project@),
            default_project@,
        ) == (
        match r {
            Ok(args) => Ok::<ArgsModel, Seq<char>>(args@),
            Err(message) => Err::<ArgsModel, Seq<char>>(message@),
        }),
{
    let ghost all = texts(tokens@);
    let ghost none = no_args(default_project@);
    let ghost meaning = resume_args(rules@, all.skip(1), none, default_project@);
    let mut args = new_args(default_project);
    let mut index: usize = 1;
    while index < tokens.len()
        invariant
            1 <= index <= tokens.len(),
            all == texts(tokens@),
            none == no_args(default_project@),
            meaning == resume_args(rules@, all.skip(1), none, default_project@),
            meaning == resume_args(rules@, all.skip(index as int), args@, default_project@),
        decreases tokens.len() - index,
    {
        let ghost rest = all.skip(index as int);
        let token = tokens[index].as_str();
        assert(rest[0] == token@);
        if is_either(token, "--project", "-p") {
            if index + 1 >= tokens.len() {
                return Err("Missing value after --project.".to_owned());
            }
            assert(rest[1] == tokens@[index + 1]@);
            args.project = resolve_project_arg(rules, tokens[index + 1].as_str(), default_project);
            assert(rest.skip(2) =~= all.skip(index + 2));
            index += 2;
        } else if is_either(token, "--duration", "-d") {
            if index + 1 >= tokens.len() {
                return Err("Missing value after --duration.".to_owned());
            }
            assert(rest[1] == tokens@[index + 1]@);
            match parse_duration(tokens[index + 1].as_str()) {
                Ok(secs) => {
                    args.duration = Some(secs);
                },
                Err(message) => return Err(message),
            }
            assert(rest.skip(2) =~= all.skip(index + 2));
            index += 2;
        } else if same_text(token, "--skip-git-repo-check") {
            args.skip_git_repo_check = true;
            assert(rest.skip(1) =~= all.skip(index + 1));
            index += 1;
        } else if args.duration.is_none() {
            match parse_duration(token) {
                Ok(secs) => {
                    args.duration = Some(secs);
                },
                Err(message) => {
                    let mut message = message;
                    message.append(". Resume accepts only an optional duration and flags.");
                    return Err(message);
                },
            }
            assert(rest.skip(1) =~= all.skip(index + 1));
            index += 1;
        } else {
            let mut message = "Unexpected /automode resume argument: ".to_owned();
            message.append(token);
            return Err(message);
        }
    }
    Ok(args)
}

fn is_zero(duration: Option<u64>) -> (r: bool)
    ensures
        r == (opt_secs(duration) == Some(0nat)),
{
    match duration {
        Some(secs) => secs == 0,
        None => false,
    }
}

/// Returns what the words of the command come to, if they could be told apart.
pub fn parse_automode_words(
    rules: PathRules,
    words: Option<Vec<String>>,
    default_project: &str,
) -> (r: Result<AutomodeSlashArgs, String>)
    ensures
        slash_result(r) == slash_of(
            rules@,
            match words {
                Some(tokens) => Some(texts(tokens@)),
                None => None,
            },
            default_project@,
        ),
{
    let tokens = match words {
        Some(tokens) => tokens,
        None => return Err(
            "Could not parse /automode arguments. Check quoted strings.".to_owned(),
        ),
    };
    if tokens.len() == 0 {
        return Err(AUTOMODE_USAGE.to_owned());
    }
    if tokens.len() == 1 && same_text_ignoring_case(tokens[0].as_str(), "stop") {
        return Ok(AutomodeSlashArgs::Command(AutomodeSlashCommand::Stop));
    }
    if same_text_ignoring_case(tokens[0].as_str(), "resume") {
        let args = match parse_resume_args(rules, &tokens, default_project) {
            Ok(args) => args,
            Err(message) => return Err(message),
        };
        if is_zero(args.duration) {
            return Err("Duration must be greater than zero.".to_owned());
        }
        return Ok(
            AutomodeSlashArgs::Resume(
                AutomodeResumeRequest {
                    project: args.project,
                    duration: args.duration,
                    skip_git_repo_check: args.skip_git_repo_check,
                },
            ),
        );
    }
    let args = match parse_start_args(rules, &tokens, default_project) {
        Ok(args) => args,
        Err(message) => return Err(message),
    };
    if is_zero(args.duration) {
        return Err("Duration must be greater than zero.".to_owned());
    }
    let goal = join(args.goal.as_slice(), " ");
    if trim(goal.as_str()).unicode_len() == 0 {
        return Err("Automode goal must not be empty.".to_owned());
    }
    Ok(
        AutomodeSlashArgs::Command(
            AutomodeSlashCommand::Start(
                AutomodeStartRequest {
                    project: args.project,
                    duration: args.duration,
                    goal,
                    skip_git_repo_check: args.skip_git_repo_check,
                    resume: false,
                },
            ),
        ),
    )
}

/// Returns what the arguments of the command come to.
pub fn parse_automode_slash_args(
    rules: PathRules,
    raw: &str,
    default_project: &str,
) -> (r: Result<AutomodeSlashArgs, String>)
    ensures
        slash_result(r) == slash_of(rules@, shell_words(raw@), default_project@),
        forall|words: Seq<Seq<char>>| #[trigger]
            plain_words(words) && raw@ == join_of(words, " "@) ==> slash_result(r) == slash_of(
                rules@,
                Some(words),
                default_project@,
            ),
{
    parse_automode_words(rules, split_words(raw), default_project)
}

/// Returns the command as it is shown.
pub fn format_automode_command(request: &AutomodeStartRequest) -> (r: String)
    ensures
        r@ == shown_command(request@),
{
    let mut project = "--project ".to_owned();
    project.append(request.project.as_str());
    let mut r = if request.resume {
        "/automode resume ".to_owned()
    } else {
        "/automode ".to_owned()
    };
    r.append(project.as_str());
    if let Some(secs) = request.duration {
        let duration = format_duration(secs);
        r.append(" --duration ");
        r.append(duration.as_str());
    }
    if !request.resume {
        r.append(" --goal ");
        r.append(request.goal.as_str());
    }
    r
}

} // verus!
