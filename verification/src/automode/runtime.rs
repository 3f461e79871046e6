//! What a run is set up with.
use crate::automode::run_loop::{
    automode_developer_instructions, APPROVAL_POLICY, DEVELOPER_INSTRUCTIONS, SANDBOX_MODE,
};
use crate::automode::state::{resolve_state_dir, state_dir_of};
use crate::cli::{AutomodeArgs, SharedCliOptions};
use crate::paths::PathRules;
use crate::text::{concat3, opt_text, same_text, texts};
use vstd::prelude::*;
use vstd::string::*;

verus! {

/// The address that is used where the configuration names none.
pub const DEFAULT_BASE_URL: &'static str = "https://chatgpt.com/backend-api/";

/// What a run is about.
#[derive(Debug, PartialEq, Eq)]
pub struct AutomodeRunArgs {
    pub goal: String,
    pub project: String,
    /// How many seconds the run lasts.
    pub duration: u64,
    pub state_dir: String,
}

/// What was found on disk of the directories that the command line names. A path that does not
/// lead anywhere was not found.
#[derive(Debug, PartialEq, Eq)]
pub struct ProjectProbes {
    /// Where --project leads.
    pub project: Option<String>,
    /// Where -C/--cd leads.
    pub cwd: Option<String>,
    /// Where the one of the two leads that is used.
    pub chosen: Option<String>,
    /// Whether a directory was found there.
    pub is_dir: bool,
}

/// What [`ProjectProbes`] say.
pub struct ProbesModel {
    pub project: Option<Seq<char>>,
    pub cwd: Option<Seq<char>>,
    pub chosen: Option<Seq<char>>,
    pub is_dir: bool,
}

impl View for ProjectProbes {
    type V = ProbesModel;

    open spec fn view(&self) -> ProbesModel {
        ProbesModel {
            project: opt_text(self.project),
            cwd: opt_text(self.cwd),
            chosen: opt_text(self.chosen),
            is_dir: self.is_dir,
        }
    }
}

/// The directory that the command line names for the project: --project comes before -C/--cd.
pub open spec fn named_project(
    project: Option<Seq<char>>,
    cwd: Option<Seq<char>>,
) -> Option<Seq<char>> {
    match project {
        Some(project) => Some(project),
        None => cwd,
    }
}

/// The directory of the project, or why there is none. Where both options are given, they have to
/// lead to the same place.
pub open spec fn project_of(
    project: Option<Seq<char>>,
    cwd: Option<Seq<char>>,
    probes: ProbesModel,
) -> Result<Seq<char>, Seq<char>> {
    match named_project(project, cwd) {
        None => Err("automode requires --project DIR or -C/--cd DIR"@),
        Some(named) => if project is Some && cwd is Some && probes.project is None {
            Err("failed to resolve --project "@ + named)
        } else if project is Some && cwd is Some && probes.cwd is None {
            Err("failed to resolve -C/--cd "@ + cwd->0)
        } else if project is Some && cwd is Some && probes.project != probes.cwd {
            Err("--project and -C/--cd point to different directories"@)
        } else {
            match probes.chosen {
                None => Err("failed to resolve project path "@ + named),
                Some(path) => if probes.is_dir {
                    Ok(path)
                } else {
                    Err("project path "@ + path + " is not a directory"@)
                },
            }
        },
    }
}

/// Returns the directory that the command line names for the project.
pub fn choose_project(project: &Option<String>, cwd: &Option<String>) -> (r: Option<String>)
    ensures
        opt_text(r) == named_project(opt_text(*project), opt_text(*cwd)),
{
    match project {
        Some(project) => Some(project.clone()),
        None => crate::text::copy_option(cwd),
    }
}

/// Returns the directory of the project, given what was found on disk of the directories that the
/// command line names.
pub fn resolve_project(
    project_arg: Option<String>,
    cwd_arg: Option<String>,
    probes: ProjectProbes,
) -> (r: Result<String, String>)
    ensures
        project_of(opt_text(project_arg), opt_text(cwd_arg), probes@) == (match r {
            Ok(path) => Ok::<Seq<char>, Seq<char>>(path@),
            Err(message) => Err::<Seq<char>, Seq<char>>(message@),
        }),
{
    let named = match choose_project(&project_arg, &cwd_arg) {
        Some(named) => named,
        None => return Err("automode requires --project DIR or -C/--cd DIR".to_owned()),
    };
    if let (Some(project), Some(cwd)) = (&project_arg, &cwd_arg) {
        match (&probes.project, &probes.cwd) {
            (None, _) => {
                let mut message = "failed to resolve --project ".to_owned();
                message.append(project.as_str());
                return Err(message);
            },
            (_, None) => {
                let mut message = "failed to resolve -C/--cd ".to_owned();
                message.append(cwd.as_str());
                return Err(message);
            },
            (Some(project_abs), Some(cwd_abs)) => {
                if !same_text(project_abs.as_str(), cwd_abs.as_str()) {
                    return Err("--project and -C/--cd point to different directories".to_owned());
                }
            },
        }
    }
    match probes.chosen {
        None => {
            let mut message = "failed to resolve project path ".to_owned();
            message.append(named.as_str());
            Err(message)
        },
        Some(path) => if probes.is_dir {
            Ok(path)
        } else {
            Err(concat3("project path ", path.as_str(), " is not a directory"))
        },
    }
}

/// Tells whether a run may work in a directory, and why not.
pub fn check_repository(skip_git_repo_check: bool, in_repository: bool) -> (r: Result<(), String>)
    ensures
        r is Ok <==> skip_git_repo_check || in_repository,
        r matches Err(message) ==> message@
            == "Not inside a trusted directory and --skip-git-repo-check was not specified."@,
{
    if !skip_git_repo_check && !in_repository {
        Err(
            "Not inside a trusted directory and --skip-git-repo-check was not specified.".to_owned(),
        )
    } else {
        Ok(())
    }
}

/// Returns what the user is told about the permissions of a run.
pub fn warn_ignored_sandbox_flags(
    sandbox_set: bool,
    full_auto: bool,
    yolo: bool,
) -> (r: Option<&'static str>)
    ensures
        r is None <==> !sandbox_set && !full_auto && yolo,
        sandbox_set || full_auto ==> r is Some && r->0@
            == "Automode always uses danger-full-access with approval_policy=never; ignoring sandbox/full-auto overrides."@,
        !sandbox_set && !full_auto && !yolo ==> r is Some && r->0@
            == "Automode uses danger-full-access with approval_policy=never."@,
{
    if sandbox_set || full_auto {
        Some(
            "Automode always uses danger-full-access with approval_policy=never; ignoring sandbox/full-auto overrides.",
        )
    } else if !yolo {
        Some("Automode uses danger-full-access with approval_policy=never.")
    } else {
        None
    }
}

/// Returns the address of the service, which the configuration may name.
pub fn base_url(configured: Option<String>) -> (r: String)
    ensures
        r@ == (match configured {
            Some(url) => url@,
            None => DEFAULT_BASE_URL@,
        }),
{
    match configured {
        Some(url) => url,
        None => DEFAULT_BASE_URL.to_owned(),
    }
}

/// Returns what is said where the configuration cannot be loaded: what is wrong with it, if that
/// is known, and else what went wrong.
pub fn format_load_config_error(config_error: Option<&str>, err: &str) -> (r: String)
    ensures
        r@ == (match config_error {
            Some(detail) => "Error loading config.toml:\n"@ + detail@,
            None => "Error loading config.toml: "@ + err@,
        }),
{
    match config_error {
        Some(detail) => {
            let mut r = "Error loading config.toml:\n".to_owned();
            r.append(detail);
            r
        },
        None => {
            let mut r = "Error loading config.toml: ".to_owned();
            r.append(err);
            r
        },
    }
}

/// What is said where a local provider is asked for and none is known.
pub open spec fn no_provider_text(first: Seq<char>, second: Seq<char>) -> Seq<char> {
    "No default OSS provider configured. Use --local-provider=provider or set oss_provider to one of: "@
        + first + ", "@ + second + " in config.toml"@
}

/// Returns the model provider of a run, given the local provider that the options and the
/// configuration come to, and the names of the two that there are.
pub fn choose_provider(
    oss: bool,
    resolved: Option<String>,
    first: &str,
    second: &str,
) -> (r: Result<Option<String>, String>)
    ensures
        r is Err <==> oss && resolved is None,
        r matches Err(message) ==> message@ == no_provider_text(first@, second@),
        r matches Ok(provider) ==> opt_text(provider) == (if oss {
            opt_text(resolved)
        } else {
            None
        }),
{
    if !oss {
        return Ok(None);
    }
    match resolved {
        Some(provider) => Ok(Some(provider)),
        None => {
            let mut message =
                "No default OSS provider configured. Use --local-provider=provider or set oss_provider to one of: ".to_owned();
            message.append(first);
            message.append(", ");
            message.append(second);
            message.append(" in config.toml");
            Err(message)
        },
    }
}

/// Returns the model of a run: the one that was asked for, or else the one that the local
/// provider offers by default.
pub fn choose_model(
    asked: Option<String>,
    oss: bool,
    provider_default: Option<String>,
) -> (r: Option<String>)
    ensures
        opt_text(r) == (if asked is Some {
            opt_text(asked)
        } else if oss {
            opt_text(provider_default)
        } else {
            None
        }),
{
    match asked {
        Some(model) => Some(model),
        None => if oss {
            provider_default
        } else {
            None
        },
    }
}

/// What a run sets in the configuration.
#[derive(Debug, PartialEq, Eq)]
pub struct RunOverrides {
    pub model: Option<String>,
    pub config_profile: Option<String>,
    pub approval_policy: String,
    pub sandbox_mode: String,
    pub cwd: String,
    pub model_provider: Option<String>,
    pub developer_instructions: String,
    pub show_raw_agent_reasoning: Option<bool>,
    pub additional_writable_roots: Vec<String>,
}

/// Returns what a run sets in the configuration. Whatever the options ask for, it never asks for
/// approval and has full access.
pub fn run_overrides(
    shared: SharedCliOptions,
    project: &str,
    provider: Option<String>,
    provider_default: Option<String>,
) -> (r: RunOverrides)
    ensures
        opt_text(r.model) == (if shared.model is Some {
            opt_text(shared.model)
        } else if shared.oss {
            opt_text(provider_default)
        } else {
            None
        }),
        opt_text(r.config_profile) == opt_text(shared.config_profile),
        r.approval_policy@ == APPROVAL_POLICY@,
        r.sandbox_mode@ == SANDBOX_MODE@,
        r.cwd@ == project@,
        opt_text(r.model_provider) == opt_text(provider),
        r.developer_instructions@ == DEVELOPER_INSTRUCTIONS@,
        r.show_raw_agent_reasoning == (if shared.oss {
            Some(true)
        } else {
            None
        }),
        texts(r.additional_writable_roots@) == texts(shared.add_dir@),
{
    RunOverrides {
        model: choose_model(shared.model, shared.oss, provider_default),
        config_profile: shared.config_profile,
        approval_policy: APPROVAL_POLICY.to_owned(),
        sandbox_mode: SANDBOX_MODE.to_owned(),
        cwd: project.to_owned(),
        model_provider: provider,
        developer_instructions: automode_developer_instructions(),
        show_raw_agent_reasoning: if shared.oss {
            Some(true)
        } else {
            None
        },
        additional_writable_roots: shared.add_dir,
    }
}

/// Returns what a run is about, given its project, whether that lies in a repository, and the
/// names in the project's run root.
pub fn run_args(
    rules: PathRules,
    args: &AutomodeArgs,
    project: String,
    in_repository: bool,
    names: &Vec<String>,
) -> (r: Result<AutomodeRunArgs, String>)
    ensures
        !(args.skip_git_repo_check || in_repository) ==> r is Err && r->Err_0@
            == "Not inside a trusted directory and --skip-git-repo-check was not specified."@,
        args.skip_git_repo_check || in_repository ==> state_dir_of(
            rules@,
            project@,
            opt_text(args.state_dir),
            texts(names@),
        ) == (match r {
            Ok(run) => Ok::<Seq<char>, Seq<char>>(run.state_dir@),
            Err(message) => Err::<Seq<char>, Seq<char>>(message@),
        }),
        r matches Ok(run) ==> run.goal@ == args.goal@ && run.project@ == project@ && run.duration
            == args.duration,
{
    match check_repository(args.skip_git_repo_check, in_repository) {
        Ok(()) => {},
        Err(message) => return Err(message),
    }
    let asked = crate::text::copy_option(&args.state_dir);
    match resolve_state_dir(rules, project.as_str(), asked, names) {
        Ok(state_dir) => Ok(
            AutomodeRunArgs {
                goal: args.goal.clone(),
                project,
                duration: args.duration,
                state_dir,
            },
        ),
        Err(message) => Err(message),
    }
}

} // verus!
