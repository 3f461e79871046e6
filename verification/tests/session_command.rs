use automode::paths::PathRules;
use automode::session::command::{
    format_automode_command, parse_automode_slash_args, AutomodeResumeRequest, AutomodeSlashArgs,
    AutomodeSlashCommand, AutomodeStartRequest, AUTOMODE_USAGE,
};
use automode::session::goal::{
    goal_from_member, read_goal_from_exec_state, read_goal_from_progress_doc,
    read_goal_from_tui_state, resume_from, tui_state_contents, GoalSources,
};

fn rules() -> PathRules {
    PathRules::current()
}

fn command(raw: &str, project: &str) -> Result<AutomodeSlashCommand, String> {
    command_with(raw, project, &sources(None, None, None))
}

fn command_with(
    raw: &str,
    project: &str,
    sources: &GoalSources,
) -> Result<AutomodeSlashCommand, String> {
    match parse_automode_slash_args(rules(), raw, project)? {
        AutomodeSlashArgs::Command(command) => Ok(command),
        AutomodeSlashArgs::Resume(resume) => {
            resume_from(rules(), resume, sources).map(AutomodeSlashCommand::Start)
        }
    }
}

fn sources(tui: Option<&str>, exec: Option<&str>, document: Option<&str>) -> GoalSources {
    GoalSources {
        tui_state: tui.map(str::to_string),
        exec_state: exec.map(str::to_string),
        progress_document: document.map(str::to_string),
    }
}

fn request(project: &str, duration: Option<u64>, goal: &str) -> AutomodeStartRequest {
    AutomodeStartRequest {
        project: project.to_string(),
        duration,
        goal: goal.to_string(),
        skip_git_repo_check: false,
        resume: false,
    }
}

#[test]
fn parses_positional_duration_and_goal() {
    let command = command("10m find the best beach destination", "/work/project").unwrap();

    assert_eq!(
        command,
        AutomodeSlashCommand::Start(AutomodeStartRequest {
            project: "/work/project".to_string(),
            duration: Some(600),
            goal: "find the best beach destination".to_string(),
            skip_git_repo_check: false,
            resume: false,
        })
    );
}

#[test]
fn parses_goal_without_duration_as_unlimited() {
    let command = command("find the best beach destination", "/work/project").unwrap();

    assert_eq!(
        command,
        AutomodeSlashCommand::Start(AutomodeStartRequest {
            project: "/work/project".to_string(),
            duration: None,
            goal: "find the best beach destination".to_string(),
            skip_git_repo_check: false,
            resume: false,
        })
    );
}

#[test]
fn parses_flags_and_relative_project() {
    let command = command(
        "--project child --duration 2h --skip-git-repo-check --goal run validation",
        "/work/project",
    )
    .unwrap();

    assert_eq!(
        command,
        AutomodeSlashCommand::Start(AutomodeStartRequest {
            project: "/work/project/child".to_string(),
            duration: Some(7200),
            goal: "run validation".to_string(),
            skip_git_repo_check: true,
            resume: false,
        })
    );
}

#[test]
fn parses_resume_with_duration_from_progress_doc() {
    let temp = tempfile::tempdir().unwrap();
    let project = temp.path().display().to_string();
    let sources = sources(
        None,
        None,
        Some("# Automode Progress\n\nGoal: resume this goal\n\nProject: /tmp/project\n"),
    );

    let command = command_with("resume --duration 30m", &project, &sources).unwrap();

    assert_eq!(
        command,
        AutomodeSlashCommand::Start(AutomodeStartRequest {
            project,
            duration: Some(1800),
            goal: "resume this goal".to_string(),
            skip_git_repo_check: false,
            resume: true,
        })
    );
}

#[test]
fn parses_resume_without_duration_as_unlimited() {
    let temp = tempfile::tempdir().unwrap();
    let project = temp.path().display().to_string();
    let mut object = serde_json::Map::new();
    object.insert("goal".to_string(), serde_json::Value::from("resume forever"));
    object.insert("project".to_string(), serde_json::Value::from(project.clone()));
    let contents = serde_json::Value::Object(object).to_string();

    let command =
        command_with("resume", &project, &sources(Some(&contents), None, None)).unwrap();

    assert_eq!(
        command,
        AutomodeSlashCommand::Start(AutomodeStartRequest {
            project,
            duration: None,
            goal: "resume forever".to_string(),
            skip_git_repo_check: false,
            resume: true,
        })
    );
}

#[test]
fn parses_stop_command() {
    assert_eq!(
        command("stop", "/work/project").unwrap(),
        AutomodeSlashCommand::Stop
    );
    assert_eq!(
        command(" STOP ", "/work/project").unwrap(),
        AutomodeSlashCommand::Stop
    );
    assert_eq!(
        command("stop here", "/work/project").unwrap(),
        AutomodeSlashCommand::Start(request("/work/project", None, "stop here"))
    );
}

#[test]
fn requires_goal() {
    assert!(command("10m", "/work/project").is_err());
    assert!(command("10x run", "/work/project").is_err());
}

#[test]
fn words_are_quoted_as_in_a_shell() {
    assert_eq!(
        command("-p '/with space' -d 1h \"a  b\" c\\ d # a comment", "/p"),
        Ok(AutomodeSlashCommand::Start(request("/with space", Some(3600), "a  b c d")))
    );
    assert_eq!(
        command("fix 'it", "/p"),
        Err("Could not parse /automode arguments. Check quoted strings.".to_string())
    );
}

#[test]
fn only_the_first_run_time_counts() {
    assert_eq!(
        command("run 10m then 20m", "/p"),
        Ok(AutomodeSlashCommand::Start(request("/p", Some(600), "run then 20m")))
    );
    assert_eq!(
        command("-d 1h -d 2h go", "/p"),
        Ok(AutomodeSlashCommand::Start(request("/p", Some(7200), "go")))
    );
    assert_eq!(
        command("a -g b --project c", "/p"),
        Ok(AutomodeSlashCommand::Start(request("/p", None, "a b --project c")))
    );
}

#[test]
fn what_cannot_be_read_is_explained() {
    let message = |raw: &str| command(raw, "/p").unwrap_err();
    assert_eq!(message(""), AUTOMODE_USAGE);
    assert_eq!(message("a --project"), "Missing value after --project.");
    assert_eq!(message("a -d"), "Missing value after --duration.");
    assert_eq!(message("a --goal"), "Missing value after --goal.");
    assert_eq!(message("-d 1x a"), "invalid duration unit `x` in `1x`; use s, m, h, or d");
    assert_eq!(
        message("10x run"),
        "invalid duration unit `x` in `10x`; use s, m, h, or d. First positional argument must be a valid duration or part of the goal."
    );
    assert_eq!(message("0 go"), "Duration must be greater than zero.");
    assert_eq!(message("' '"), "Automode goal must not be empty.");
    assert_eq!(message("resume --project"), "Missing value after --project.");
    assert_eq!(message("resume -d"), "Missing value after --duration.");
    assert_eq!(message("resume 0"), "Duration must be greater than zero.");
    assert_eq!(
        message("resume go"),
        "invalid duration `go`. Resume accepts only an optional duration and flags."
    );
    assert_eq!(message("resume 1h go"), "Unexpected /automode resume argument: go");
    assert_eq!(
        message("resume"),
        "Could not resume automode. No goal found in /p/.codex/automode."
    );
}

#[test]
fn resuming_has_its_own_arguments() {
    assert_eq!(
        parse_automode_slash_args(rules(), "Resume 1h -p q --skip-git-repo-check", "/p"),
        Ok(AutomodeSlashArgs::Resume(AutomodeResumeRequest {
            project: "/p/q".to_string(),
            duration: Some(3600),
            skip_git_repo_check: true,
        }))
    );
}

#[test]
fn the_shown_command_is_read_back() {
    for (request, shown) in [
        (
            request("/work/project", Some(600), "ship the feature"),
            "/automode --project /work/project --duration 10m --goal ship the feature",
        ),
        (
            request("/work/project", None, "ship it"),
            "/automode --project /work/project --goal ship it",
        ),
    ] {
        assert_eq!(format_automode_command(&request), shown);
        assert_eq!(
            command(shown.strip_prefix("/automode ").unwrap(), "/elsewhere"),
            Ok(AutomodeSlashCommand::Start(request))
        );
    }
    let mut resumed = request("/p", Some(90), "goal");
    resumed.resume = true;
    assert_eq!(
        format_automode_command(&resumed),
        "/automode resume --project /p --duration 90s"
    );
    resumed.duration = None;
    assert_eq!(format_automode_command(&resumed), "/automode resume --project /p");
}

#[test]
fn what_a_run_writes_is_resumed() {
    let started = request("/p", None, " say \"hi\"\n\u{1F980} ");
    let contents = tui_state_contents(rules(), &started).unwrap();
    assert_eq!(
        contents,
        "{\n  \"goal\": \" say \\\"hi\\\"\\n\u{1F980} \",\n  \"project\": \"/p\"\n}"
    );
    assert_eq!(
        command_with(
            "resume",
            "/p",
            &sources(Some(&contents), Some("{\"goal\":\"other\"}"), Some("Goal: third"))
        ),
        Ok(AutomodeSlashCommand::Start(AutomodeStartRequest {
            goal: "say \"hi\"\n\u{1F980}".to_string(),
            resume: true,
            ..started
        }))
    );
}

#[test]
fn goals_are_looked_for_in_order() {
    let goal = |tui, exec, document| {
        match command_with("resume", "/p", &sources(tui, exec, document)).unwrap() {
            AutomodeSlashCommand::Start(request) => request.goal,
            AutomodeSlashCommand::Stop => unreachable!(),
        }
    };
    let document = Some("Goal:\nGoal: from the document\r\nGoal: later");
    assert_eq!(
        goal(Some("{\"goal\":\" a \"}"), Some("{\"goal\":\"b\"}"), document),
        "a"
    );
    assert_eq!(goal(Some("{\"goal\":\" \"}"), Some("{\"goal\":\"b\"}"), document), "b");
    assert_eq!(goal(Some("no json"), Some("{\"goal\":1}"), document), "from the document");
    assert_eq!(goal(Some("[\"goal\"]"), Some("{}"), document), "from the document");
}

#[test]
fn each_file_is_read_for_its_goal() {
    assert_eq!(read_goal_from_tui_state("{\"goal\":\"a\"}"), Some("a".to_string()));
    assert_eq!(read_goal_from_exec_state("{\"goal\":\"a\"}"), Some("a".to_string()));
    assert_eq!(read_goal_from_tui_state("{\"goal\":null}"), None);
    assert_eq!(read_goal_from_progress_doc("a\n Goal: b\nGoal:c"), Some("c".to_string()));
    assert_eq!(read_goal_from_progress_doc("Goal: \n"), None);
    assert_eq!(goal_from_member(Some(" a ".to_string())), Some("a".to_string()));
    assert_eq!(goal_from_member(Some("\t".to_string())), None);
    assert_eq!(goal_from_member(None), None);
}
