//! How an installed program is brought up to date.
use crate::shell::{bare_words, join_words, shell_line};
use crate::text::{
    holds, join, join_of, lemma_holds_end, lemma_holds_further, opt_text, texts,
};
use vstd::prelude::*;
use vstd::string::*;

verus! {

/// The platform that a standalone release is for.
#[derive(Debug, Clone, Copy, PartialEq, Eq, Structural)]
pub enum StandalonePlatform {
    Unix,
    Windows,
}

/// How the running program was installed.
#[derive(Debug, PartialEq, Eq)]
pub enum InstallContext {
    Npm,
    Bun,
    Brew,
    Standalone {
        platform: StandalonePlatform,
        release_dir: String,
        resources_dir: Option<String>,
    },
    Other,
}

/// Update action the CLI should perform after the TUI exits.
#[derive(Debug, PartialEq, Eq)]
pub enum UpdateAction {
    /// Update via `npm install -g @openai/codex@latest`.
    NpmGlobalLatest,
    /// Update via `npm install -g @openai/codex@<version>`.
    NpmGlobalVersion(String),
    /// Update via `bun install -g @openai/codex@latest`.
    BunGlobalLatest,
    /// Update via `bun install -g @openai/codex@<version>`.
    BunGlobalVersion(String),
    /// Update via `brew upgrade codex`.
    BrewUpgrade,
    /// Update via `curl -fsSL https://chatgpt.com/codex/install.sh | sh`.
    StandaloneUnix,
    /// Update via `irm https://chatgpt.com/codex/install.ps1|iex`.
    StandaloneWindows,
}

/// What an [`UpdateAction`] says.
pub enum ActionModel {
    NpmGlobalLatest,
    NpmGlobalVersion(Seq<char>),
    BunGlobalLatest,
    BunGlobalVersion(Seq<char>),
    BrewUpgrade,
    StandaloneUnix,
    StandaloneWindows,
}

impl View for UpdateAction {
    type V = ActionModel;

    open spec fn view(&self) -> ActionModel {
        match self {
            UpdateAction::NpmGlobalLatest => ActionModel::NpmGlobalLatest,
            UpdateAction::NpmGlobalVersion(version) => ActionModel::NpmGlobalVersion(version@),
            UpdateAction::BunGlobalLatest => ActionModel::BunGlobalLatest,
            UpdateAction::BunGlobalVersion(version) => ActionModel::BunGlobalVersion(version@),
            UpdateAction::BrewUpgrade => ActionModel::BrewUpgrade,
            UpdateAction::StandaloneUnix => ActionModel::StandaloneUnix,
            UpdateAction::StandaloneWindows => ActionModel::StandaloneWindows,
        }
    }
}

impl Clone for UpdateAction {
    fn clone(&self) -> (r: Self)
        ensures
            r@ == self@,
    {
        match self {
            UpdateAction::NpmGlobalLatest => UpdateAction::NpmGlobalLatest,
            UpdateAction::NpmGlobalVersion(version) => UpdateAction::NpmGlobalVersion(
                version.clone(),
            ),
            UpdateAction::BunGlobalLatest => UpdateAction::BunGlobalLatest,
            UpdateAction::BunGlobalVersion(version) => UpdateAction::BunGlobalVersion(
                version.clone(),
            ),
            UpdateAction::BrewUpgrade => UpdateAction::BrewUpgrade,
            UpdateAction::StandaloneUnix => UpdateAction::StandaloneUnix,
            UpdateAction::StandaloneWindows => UpdateAction::StandaloneWindows,
        }
    }
}

/// The action that brings an installation up to date, if there is one.
pub open spec fn action_for(context: InstallContext) -> Option<ActionModel> {
    match context {
        InstallContext::Npm => Some(ActionModel::NpmGlobalLatest),
        InstallContext::Bun => Some(ActionModel::BunGlobalLatest),
        InstallContext::Brew => Some(ActionModel::BrewUpgrade),
        InstallContext::Standalone { platform, .. } => Some(
            match platform {
                StandalonePlatform::Unix => ActionModel::StandaloneUnix,
                StandalonePlatform::Windows => ActionModel::StandaloneWindows,
            },
        ),
        InstallContext::Other => None,
    }
}

/// The action with its package pinned to a version, where it installs a package.
pub open spec fn pinned(action: ActionModel, version: Seq<char>) -> ActionModel {
    match action {
        ActionModel::NpmGlobalLatest => ActionModel::NpmGlobalVersion(version),
        ActionModel::NpmGlobalVersion(_) => ActionModel::NpmGlobalVersion(version),
        ActionModel::BunGlobalLatest => ActionModel::BunGlobalVersion(version),
        ActionModel::BunGlobalVersion(_) => ActionModel::BunGlobalVersion(version),
        other => other,
    }
}

/// The package in a given version.
pub open spec fn package(version: Seq<char>) -> Seq<char> {
    "@openai/codex@"@ + version
}

pub open spec fn global_install(package: Seq<char>) -> Seq<Seq<char>> {
    seq!["install"@, "-g"@, package]
}

/// The program that an action runs.
pub open spec fn program_of(action: ActionModel) -> Seq<char> {
    match action {
        ActionModel::NpmGlobalLatest => "npm"@,
        ActionModel::NpmGlobalVersion(_) => "npm"@,
        ActionModel::BunGlobalLatest => "bun"@,
        ActionModel::BunGlobalVersion(_) => "bun"@,
        ActionModel::BrewUpgrade => "brew"@,
        ActionModel::StandaloneUnix => "sh"@,
        ActionModel::StandaloneWindows => "powershell"@,
    }
}

/// The arguments that an action hands to its program.
pub open spec fn arguments_of(action: ActionModel) -> Seq<Seq<char>> {
    match action {
        ActionModel::NpmGlobalLatest => global_install("@openai/codex@latest"@),
        ActionModel::NpmGlobalVersion(version) => global_install(package(version)),
        ActionModel::BunGlobalLatest => global_install("@openai/codex@latest"@),
        ActionModel::BunGlobalVersion(version) => global_install(package(version)),
        ActionModel::BrewUpgrade => seq!["upgrade"@, "codex"@],
        ActionModel::StandaloneUnix => seq![
            "-c"@,
            "curl -fsSL https://chatgpt.com/codex/install.sh | sh"@,
        ],
        ActionModel::StandaloneWindows => seq![
            "-c"@,
            "irm https://chatgpt.com/codex/install.ps1|iex"@,
        ],
    }
}

/// The command that an action runs, word by word.
pub open spec fn command_words(action: ActionModel) -> Seq<Seq<char>> {
    seq![program_of(action)] + arguments_of(action)
}

/// The command line that an action shows, given what the shell's quoting makes of its words:
/// where they cannot be quoted, they stand side by side.
pub open spec fn command_line(action: ActionModel, line: Option<Seq<char>>) -> Seq<char> {
    match line {
        Some(line) => line,
        None => program_of(action) + " "@ + join_of(arguments_of(action), " "@),
    }
}

fn strings1(a: &str) -> (r: Vec<String>)
    ensures
        texts(r@) == seq![a@],
{
    let mut r: Vec<String> = Vec::new();
    r.push(a.to_owned());
    assert(texts(r@) =~= seq![a@]);
    r
}

fn strings2(a: &str, b: &str) -> (r: Vec<String>)
    ensures
        texts(r@) == seq![a@, b@],
{
    let mut r: Vec<String> = Vec::new();
    r.push(a.to_owned());
    r.push(b.to_owned());
    assert(texts(r@) =~= seq![a@, b@]);
    r
}

fn strings3(a: &str, b: &str, c: &str) -> (r: Vec<String>)
    ensures
        texts(r@) == seq![a@, b@, c@],
{
    let mut r: Vec<String> = Vec::new();
    r.push(a.to_owned());
    r.push(b.to_owned());
    r.push(c.to_owned());
    assert(texts(r@) =~= seq![a@, b@, c@]);
    r
}

impl UpdateAction {
    /// Returns the action that brings an installation up to date, if there is one.
    pub fn from_install_context(context: &InstallContext) -> (r: Option<Self>)
        ensures
            action_for(*context) == (match r {
                Some(action) => Some(action@),
                None => None,
            }),
    {
        match context {
            InstallContext::Npm => Some(UpdateAction::NpmGlobalLatest),
            InstallContext::Bun => Some(UpdateAction::BunGlobalLatest),
            InstallContext::Brew => Some(UpdateAction::BrewUpgrade),
            InstallContext::Standalone { platform, .. } => match platform {
                StandalonePlatform::Unix => Some(UpdateAction::StandaloneUnix),
                StandalonePlatform::Windows => Some(UpdateAction::StandaloneWindows),
            },
            InstallContext::Other => None,
        }
    }

    /// Pins npm-style update actions to the version that passed readiness checks.
    pub fn with_target_version(self, version: &str) -> (r: Self)
        ensures
            r@ == pinned(self@, version@),
    {
        match self {
            UpdateAction::NpmGlobalLatest => UpdateAction::NpmGlobalVersion(version.to_owned()),
            UpdateAction::NpmGlobalVersion(_) => UpdateAction::NpmGlobalVersion(version.to_owned()),
            UpdateAction::BunGlobalLatest => UpdateAction::BunGlobalVersion(version.to_owned()),
            UpdateAction::BunGlobalVersion(_) => UpdateAction::BunGlobalVersion(version.to_owned()),
            other => other,
        }
    }

    /// Returns the list of command-line arguments for invoking the update.
    pub fn command_args(&self) -> (r: (String, Vec<String>))
        ensures
            r.0@ == program_of(self@),
            texts(r.1@) == arguments_of(self@),
    {
        match self {
            UpdateAction::NpmGlobalLatest => (
                "npm".to_owned(),
                strings3("install", "-g", "@openai/codex@latest"),
            ),
            UpdateAction::NpmGlobalVersion(version) => {
                let mut package = "@openai/codex@".to_owned();
                package.append(version.as_str());
                ("npm".to_owned(), strings3("install", "-g", package.as_str()))
            },
            UpdateAction::BunGlobalLatest => (
                "bun".to_owned(),
                strings3("install", "-g", "@openai/codex@latest"),
            ),
            UpdateAction::BunGlobalVersion(version) => {
                let mut package = "@openai/codex@".to_owned();
                package.append(version.as_str());
                ("bun".to_owned(), strings3("install", "-g", package.as_str()))
            },
            UpdateAction::BrewUpgrade => ("brew".to_owned(), strings2("upgrade", "codex")),
            UpdateAction::StandaloneUnix => (
                "sh".to_owned(),
                strings2("-c", "curl -fsSL https://chatgpt.com/codex/install.sh | sh"),
            ),
            UpdateAction::StandaloneWindows => (
                "powershell".to_owned(),
                strings2("-c", "irm https://chatgpt.com/codex/install.ps1|iex"),
            ),
        }
    }

    /// Returns string representation of the command-line arguments for invoking the update.
    pub fn command_str(&self) -> (r: String)
        ensures
            r@ == command_line(self@, shell_line(command_words(self@))),
            bare_words(command_words(self@)) ==> r@ == join_of(command_words(self@), " "@),
    {
        let (command, args) = self.command_args();
        let mut words = strings1(command.as_str());
        let mut i: usize = 0;
        while i < args.len()
            invariant
                i <= args.len(),
                texts(args@) == arguments_of(self@),
                texts(words@) =~= seq![program_of(self@)] + texts(args@).take(i as int),
            decreases args.len() - i,
        {
            let ghost before = words@;
            words.push(args[i].clone());
            assert(texts(words@) =~= texts(before).push(args@[i as int]@));
            i += 1;
        }
        assert(texts(args@).take(args@.len() as int) =~= texts(args@));
        self.command_str_from(join_words(&words))
    }

    /// Returns the command line to show, given the quoted form of its words, if they have one.
    pub fn command_str_from(&self, line: Option<String>) -> (r: String)
        ensures
            r@ == command_line(self@, opt_text(line)),
    {
        match line {
            Some(line) => line,
            None => {
                let (command, args) = self.command_args();
                let mut r = command;
                r.append(" ");
                let joined = join(args.as_slice(), " ");
                r.append(joined.as_str());
                r
            },
        }
    }
}

/// Returns the action that brings the installation up to date that the program runs from, if
/// there is one.
pub fn get_update_action(context: &InstallContext) -> (r: Option<UpdateAction>)
    ensures
        action_for(*context) == (match r {
            Some(action) => Some(action@),
            None => None,
        }),
{
    UpdateAction::from_install_context(context)
}

/// Pinning keeps the program that an action runs; where the action installs a package, it
/// installs that version of it, and pinning again replaces the version.
pub proof fn law_pinning(action: ActionModel, version: Seq<char>, later: Seq<char>)
    ensures
        program_of(pinned(action, version)) == program_of(action),
        arguments_of(pinned(action, version)) == (if pinned(action, version) == action && (action
            is BrewUpgrade || action is StandaloneUnix || action is StandaloneWindows) {
            arguments_of(action)
        } else {
            global_install(package(version))
        }),
        pinned(pinned(action, version), later) == pinned(action, later),
{
}

/// Every kind of installation is brought up to date by the program that it came from: a package
/// by its package manager, and one that stands alone by the shell of its system. For any other
/// there is no way.
pub proof fn law_every_installation_by_its_own_program(context: InstallContext)
    ensures
        action_for(context) is None <==> context is Other,
        context is Npm ==> program_of(action_for(context)->0) == "npm"@,
        context is Bun ==> program_of(action_for(context)->0) == "bun"@,
        context is Brew ==> program_of(action_for(context)->0) == "brew"@,
        context matches InstallContext::Standalone { platform, .. } ==> program_of(
            action_for(context)->0,
        ) == (match platform {
            StandalonePlatform::Unix => "sh"@,
            StandalonePlatform::Windows => "powershell"@,
        }),
{
}

/// What the programs are told. The two package managers are told the same, to install the package
/// in one version for all users, and the latest is the version of that name. The shells are told to
/// run the installer of their system, and the third package manager to upgrade.
pub proof fn law_what_the_programs_are_told(version: Seq<char>)
    ensures
        arguments_of(ActionModel::NpmGlobalVersion(version)) == arguments_of(
            ActionModel::BunGlobalVersion(version),
        ),
        arguments_of(ActionModel::NpmGlobalVersion(version)) == seq![
            "install"@,
            "-g"@,
            "@openai/codex@"@ + version,
        ],
        arguments_of(ActionModel::NpmGlobalLatest) == arguments_of(
            ActionModel::NpmGlobalVersion("latest"@),
        ),
        arguments_of(ActionModel::BunGlobalLatest) == arguments_of(
            ActionModel::BunGlobalVersion("latest"@),
        ),
        arguments_of(ActionModel::BrewUpgrade)[0] == "upgrade"@,
        arguments_of(ActionModel::BrewUpgrade).last() == "codex"@,
        arguments_of(ActionModel::StandaloneUnix).len() == 2,
        arguments_of(ActionModel::StandaloneUnix)[0] == "-c"@,
        holds(
            arguments_of(ActionModel::StandaloneUnix)[1],
            "https://chatgpt.com/codex/install.sh"@,
        ),
        arguments_of(ActionModel::StandaloneWindows).len() == 2,
        arguments_of(ActionModel::StandaloneWindows)[0] == "-c"@,
        holds(
            arguments_of(ActionModel::StandaloneWindows)[1],
            "https://chatgpt.com/codex/install.ps1"@,
        ),
{
    reveal_strlit("@openai/codex@latest");
    reveal_strlit("@openai/codex@");
    reveal_strlit("latest");
    assert("@openai/codex@latest"@ =~= "@openai/codex@"@ + "latest"@);
    lemma_installers();
}

proof fn lemma_installers()
    ensures
        holds(
            "curl -fsSL https://chatgpt.com/codex/install.sh | sh"@,
            "https://chatgpt.com/codex/install.sh"@,
        ),
        holds(
            "irm https://chatgpt.com/codex/install.ps1|iex"@,
            "https://chatgpt.com/codex/install.ps1"@,
        ),
{
    reveal_strlit("curl -fsSL https://chatgpt.com/codex/install.sh | sh");
    reveal_strlit("https://chatgpt.com/codex/install.sh");
    reveal_strlit("curl -fsSL ");
    reveal_strlit(" | sh");
    reveal_strlit("irm https://chatgpt.com/codex/install.ps1|iex");
    reveal_strlit("https://chatgpt.com/codex/install.ps1");
    reveal_strlit("irm ");
    reveal_strlit("|iex");
    let unix = "https://chatgpt.com/codex/install.sh"@;
    let windows = "https://chatgpt.com/codex/install.ps1"@;
    lemma_holds_end("curl -fsSL "@, unix);
    lemma_holds_further("curl -fsSL "@ + unix, unix, " | sh"@);
    lemma_holds_end("irm "@, windows);
    lemma_holds_further("irm "@ + windows, windows, "|iex"@);
    assert("curl -fsSL https://chatgpt.com/codex/install.sh | sh"@ =~= "curl -fsSL "@ + unix
        + " | sh"@);
    assert("irm https://chatgpt.com/codex/install.ps1|iex"@ =~= "irm "@ + windows + "|iex"@);
}

/// Pinning makes of a package the package in that version, from the same package manager, and
/// leaves every other way of updating as it is.
pub proof fn law_what_pinning_changes(action: ActionModel, version: Seq<char>)
    ensures
        action is NpmGlobalLatest || action is NpmGlobalVersion ==> pinned(action, version)
            == ActionModel::NpmGlobalVersion(version),
        action is BunGlobalLatest || action is BunGlobalVersion ==> pinned(action, version)
            == ActionModel::BunGlobalVersion(version),
        action is BrewUpgrade || action is StandaloneUnix || action is StandaloneWindows ==> pinned(
            action,
            version,
        ) == action,
{
}

/// The command line that is shown holds the program and all that it is told, in order: quoted, if
/// that can be done, and else side by side.
pub proof fn law_what_command_lines_show(action: ActionModel, line: Seq<char>)
    ensures
        command_words(action)[0] == program_of(action),
        command_words(action).skip(1) == arguments_of(action),
        command_line(action, Some(line)) == line,
        command_line(action, None) == join_of(command_words(action), " "@),
{
    assert(command_words(action).skip(1) =~= arguments_of(action));
    assert(arguments_of(action).len() > 0);
    crate::text::lemma_join_cons(program_of(action), arguments_of(action), " "@);
}

/// An update that is pinned to a version runs the same program, and tells it that version if it
/// installs a package.
pub proof fn law_running_a_pinned_update(
    action: UpdateAction,
    version: &str,
    pinned_action: UpdateAction,
    before: (String, Vec<String>),
    after: (String, Vec<String>),
)
    requires
        call_ensures(UpdateAction::with_target_version, (action, version), pinned_action),
        call_ensures(UpdateAction::command_args, (&action,), before),
        call_ensures(UpdateAction::command_args, (&pinned_action,), after),
    ensures
        after.0@ == before.0@,
        before.0@ == "npm"@ || before.0@ == "bun"@ ==> texts(after.1@) == seq![
            "install"@,
            "-g"@,
            "@openai/codex@"@ + version@,
        ],
        before.0@ != "npm"@ && before.0@ != "bun"@ ==> texts(after.1@) == texts(before.1@),
{
    reveal_strlit("npm");
    reveal_strlit("bun");
    reveal_strlit("brew");
    reveal_strlit("sh");
    reveal_strlit("powershell");
    assert("npm"@[0] == 'n' && "bun"@[0] == 'b');
    assert("brew"@.len() != "npm"@.len());
    assert("sh"@.len() != "npm"@.len());
    assert("powershell"@.len() != "npm"@.len());
}

/// The program that brings an installation up to date is the one that it came from.
pub proof fn law_updating_an_installation(
    context: &InstallContext,
    action: Option<UpdateAction>,
    command: (String, Vec<String>),
)
    requires
        call_ensures(get_update_action, (context,), action),
        action is Some ==> call_ensures(UpdateAction::command_args, (&action->0,), command),
    ensures
        action is None <==> context is Other,
        context is Npm ==> command.0@ == "npm"@,
        context is Bun ==> command.0@ == "bun"@,
        context is Brew ==> command.0@ == "brew"@,
        *context matches InstallContext::Standalone { platform, .. } ==> command.0@ == (
        match platform {
            StandalonePlatform::Unix => "sh"@,
            StandalonePlatform::Windows => "powershell"@,
        }),
{
    law_every_installation_by_its_own_program(*context);
}

/// The command line that is shown for an update is its program and what that is told, with a space
/// between each two, where none of it needs quotes. Where there is no quoted form, it is shown the
/// same way.
pub proof fn law_showing_an_update(
    action: &UpdateAction,
    command: (String, Vec<String>),
    shown: String,
    unquoted: String,
)
    requires
        call_ensures(UpdateAction::command_args, (action,), command),
        call_ensures(UpdateAction::command_str, (action,), shown),
        call_ensures(UpdateAction::command_str_from, (action, None::<String>), unquoted),
    ensures
        ({
            let words = seq![command.0@] + texts(command.1@);
            &&& bare_words(words) ==> shown@ == join_of(words, " "@)
            &&& unquoted@ == join_of(words, " "@)
        }),
{
    law_what_command_lines_show(action@, seq![]);
    assert(seq![command.0@] + texts(command.1@) =~= command_words(action@));
}

} // verus!
