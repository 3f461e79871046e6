use automode::automode::decision::{fallback_decision, fallback_metrics, MetricNumbers};
use automode::automode::run_loop::{
    automode_developer_instructions, operator_decision, thread_settings, turn_request,
    OperatorReply, Phase, RunLoop, RunRecord,
};
use automode::automode::runtime::{
    base_url, check_repository, choose_model, choose_project, choose_provider,
    format_load_config_error, resolve_project, run_args, run_overrides,
    warn_ignored_sandbox_flags, ProjectProbes,
};
use automode::automode::state::load_state;
use automode::automode::types::{AutomodeDecision, AutomodeState, TurnRole, TurnSummary};
use automode::cli::{AutomodeArgs, ExecSharedCliOptions, SharedCliOptions};
use automode::paths::PathRules;

fn rules() -> PathRules {
    PathRules::current()
}

fn text(text: &str) -> String {
    text.to_string()
}

fn some(text: &str) -> Option<String> {
    Some(text.to_string())
}

fn state() -> AutomodeState {
    load_state(rules(), None, "/p/run1", "goal", "/p", 10, 70)
}

fn decision() -> AutomodeDecision {
    AutomodeDecision {
        metrics: fallback_metrics(),
        assessment: text("fine"),
        learned: Vec::new(),
        document_changes: Vec::new(),
        next_prompt: text("go on"),
    }
}

fn numbers() -> Vec<MetricNumbers> {
    vec![MetricNumbers {
        baseline: text("0"),
        current: text("1"),
        target: text("100"),
    }]
}

fn summary() -> TurnSummary {
    TurnSummary {
        role: TurnRole::Worker,
        turn_id: text("turn"),
        status: text("completed"),
        final_message: None,
        commands: Vec::new(),
        file_changes: Vec::new(),
        errors: Vec::new(),
    }
}

#[test]
fn a_run_alternates_until_the_deadline() {
    let (mut run, started) = RunLoop::new(state(), text("/p/run1"), 100);
    assert_eq!(run.phase, Phase::Operator);
    assert_eq!(
        run.started_message(),
        "Automode started for /p until 70 (state: /p/run1)."
    );
    assert_eq!(
        started,
        RunRecord::Started {
            goal: text("goal"),
            project: text("/p"),
            deadline_at: 70,
        }
    );
    for round in 1..4 {
        assert_eq!(
            run.apply_decision(decision(), &numbers()),
            RunRecord::OperatorDecision {
                iteration: round - 1,
                decision: decision(),
            }
        );
        assert_eq!(run.phase, Phase::Decided);
        let prompt = run.begin_worker_turn(rules(), 50).unwrap();
        assert!(prompt.contains("\ngo on\n"));
        assert_eq!(run.state.iteration, round);
        assert_eq!(run.phase, Phase::Worker);
        assert_eq!(
            run.record_worker_turn(summary()),
            RunRecord::WorkerTurnCompleted {
                iteration: round,
                summary: summary(),
            }
        );
        assert_eq!(run.state.last_worker_summary, Some(summary()));
        assert!(run.begin_operator_turn(99));
        assert_eq!(run.phase, Phase::Operator);
    }
    run.apply_decision(decision(), &numbers());
    assert_eq!(run.begin_worker_turn(rules(), 100), None);
    assert_eq!(run.phase, Phase::Finished);
    let (finished, message) = run.finish(rules(), true);
    assert_eq!(
        finished,
        RunRecord::Finished {
            iteration: 3,
            error_seen: true,
        }
    );
    assert_eq!(
        message,
        "Automode stopped after 3 iteration(s). Progress document: /p/run1/progress.md"
    );
}

#[test]
fn a_run_can_end_after_a_worker_turn() {
    let (mut run, _) = RunLoop::new(state(), text("/p/run1"), 100);
    run.state.iteration = u64::MAX;
    run.apply_decision(decision(), &numbers());
    assert!(run.begin_worker_turn(rules(), 0).is_some());
    assert_eq!(run.state.iteration, u64::MAX);
    run.record_worker_turn(summary());
    assert!(!run.begin_operator_turn(100));
    assert_eq!(run.phase, Phase::Finished);
}

#[test]
fn the_records_of_a_run_come_in_order() {
    let (mut run, started) = RunLoop::new(state(), text("/p/run1"), 100);
    let mut records = vec![started];
    let reply = OperatorReply::Unreadable {
        reason: text("no JSON"),
        message: text("hello"),
    };
    let (first, record) = operator_decision(&run.state, reply);
    records.extend(record);
    records.push(run.apply_decision(first, &numbers()));
    run.begin_worker_turn(rules(), 10).unwrap();
    records.push(run.record_worker_turn(summary()));
    assert!(run.begin_operator_turn(20));
    let (second, record) = operator_decision(&run.state, OperatorReply::Decision(decision()));
    records.extend(record);
    records.push(run.apply_decision(second, &numbers()));
    run.begin_worker_turn(rules(), 30).unwrap();
    records.push(run.record_worker_turn(summary()));
    assert!(!run.begin_operator_turn(100));
    records.push(run.finish(rules(), false).0);

    let kinds: Vec<&str> = records.iter().map(|record| record.kind()).collect();
    assert_eq!(
        kinds,
        vec![
            "automode.started",
            "automode.operatorInvalid",
            "automode.operatorDecision",
            "automode.workerTurnCompleted",
            "automode.operatorDecision",
            "automode.workerTurnCompleted",
            "automode.finished",
        ]
    );
    assert_eq!(
        records[5],
        RunRecord::WorkerTurnCompleted { iteration: 2, summary: summary() }
    );
    assert_eq!(
        records[6],
        RunRecord::Finished { iteration: 2, error_seen: false }
    );
}

#[test]
fn replies_become_decisions() {
    let state = state();
    assert_eq!(
        operator_decision(&state, OperatorReply::Missing { summary: summary() }),
        (
            fallback_decision(&state, "operator turn produced no final message"),
            Some(RunRecord::OperatorMissing { summary: summary() }),
        )
    );
    assert_eq!(
        operator_decision(
            &state,
            OperatorReply::Unreadable {
                reason: text("no JSON"),
                message: text("hello"),
            }
        ),
        (
            fallback_decision(&state, "no JSON"),
            Some(RunRecord::OperatorUnreadable {
                reason: text("no JSON"),
                message: text("hello"),
            }),
        )
    );
    assert_eq!(
        operator_decision(&state, OperatorReply::Decision(decision())),
        (decision(), None)
    );
}

#[test]
fn records_are_filed_under_their_kind() {
    let (_, started) = RunLoop::new(state(), text("/p/run1"), 100);
    assert_eq!(started.kind(), "automode.started");
    for (record, kind) in [
        (
            RunRecord::Finished { iteration: 1, error_seen: false },
            "automode.finished",
        ),
        (
            RunRecord::WorkerTurnCompleted { iteration: 1, summary: summary() },
            "automode.workerTurnCompleted",
        ),
        (
            RunRecord::OperatorMissing { summary: summary() },
            "automode.operatorInvalid",
        ),
        (
            RunRecord::OperatorUnreadable { reason: text("r"), message: text("m") },
            "automode.operatorInvalid",
        ),
        (
            RunRecord::OperatorDecision { iteration: 1, decision: decision() },
            "automode.operatorDecision",
        ),
    ] {
        assert_eq!(record.kind(), kind);
    }
}

#[test]
fn turns_have_full_access_and_never_ask() {
    let thread = thread_settings("/p");
    assert_eq!(thread.cwd, "/p");
    assert_eq!(thread.approval_policy, "never");
    assert_eq!(thread.sandbox, "danger-full-access");
    assert_eq!(thread.developer_instructions, automode_developer_instructions());
    assert_eq!(
        automode_developer_instructions(),
        "You are running under Codex automode. The environment is intentionally non-interactive. Never ask the user for input; make a reasonable assumption, act, measure progress, and continue. Approval policy is never and sandbox mode is danger-full-access for this session."
    );
    let operator = turn_request(TurnRole::Operator, "thread", "/p", text("prompt"));
    assert!(operator.wants_decision);
    assert_eq!(operator.approval_policy, "never");
    assert_eq!(operator.sandbox_policy, "danger-full-access");
    let worker = turn_request(TurnRole::Worker, "thread", "/p", text("prompt"));
    assert!(!worker.wants_decision);
    assert_eq!(worker.thread_id, "thread");
    assert_eq!(worker.prompt, "prompt");
    assert_eq!(worker.cwd, "/p");
}

fn probes(project: Option<&str>, cwd: Option<&str>, chosen: Option<&str>) -> ProjectProbes {
    ProjectProbes {
        project: project.map(text),
        cwd: cwd.map(text),
        chosen: chosen.map(text),
        is_dir: true,
    }
}

#[test]
fn the_project_is_resolved() {
    assert_eq!(
        resolve_project(some("p"), None, probes(None, None, Some("/w/p"))),
        Ok(text("/w/p"))
    );
    assert_eq!(
        resolve_project(None, some("c"), probes(None, None, Some("/w/c"))),
        Ok(text("/w/c"))
    );
    assert_eq!(
        resolve_project(some("p"), some("c"), probes(Some("/w"), Some("/w"), Some("/w"))),
        Ok(text("/w"))
    );
    assert_eq!(choose_project(&some("p"), &some("c")), some("p"));
}

#[test]
fn a_project_that_is_not_there_is_refused() {
    let none = || probes(None, None, None);
    assert_eq!(
        resolve_project(None, None, none()),
        Err(text("automode requires --project DIR or -C/--cd DIR"))
    );
    assert_eq!(
        resolve_project(some("p"), None, none()),
        Err(text("failed to resolve project path p"))
    );
    assert_eq!(
        resolve_project(some("p"), some("c"), none()),
        Err(text("failed to resolve --project p"))
    );
    assert_eq!(
        resolve_project(some("p"), some("c"), probes(Some("/p"), None, None)),
        Err(text("failed to resolve -C/--cd c"))
    );
    assert_eq!(
        resolve_project(some("p"), some("c"), probes(Some("/p"), Some("/c"), Some("/p"))),
        Err(text("--project and -C/--cd point to different directories"))
    );
    let mut file = probes(None, None, Some("/f"));
    file.is_dir = false;
    assert_eq!(
        resolve_project(some("f"), None, file),
        Err(text("project path /f is not a directory"))
    );
}

#[test]
fn repositories_can_be_waived() {
    assert!(check_repository(true, false).is_ok());
    assert!(check_repository(false, true).is_ok());
    assert_eq!(
        check_repository(false, false),
        Err(text(
            "Not inside a trusted directory and --skip-git-repo-check was not specified."
        ))
    );
}

#[test]
fn ignored_flags_are_announced() {
    let ignored = "Automode always uses danger-full-access with approval_policy=never; ignoring sandbox/full-auto overrides.";
    assert_eq!(warn_ignored_sandbox_flags(true, false, true), Some(ignored));
    assert_eq!(warn_ignored_sandbox_flags(false, true, false), Some(ignored));
    assert_eq!(
        warn_ignored_sandbox_flags(false, false, false),
        Some("Automode uses danger-full-access with approval_policy=never.")
    );
    assert_eq!(warn_ignored_sandbox_flags(false, false, true), None);
}

#[test]
fn models_and_providers_are_chosen() {
    assert_eq!(base_url(None), "https://chatgpt.com/backend-api/");
    assert_eq!(base_url(some("http://x")), "http://x");
    assert_eq!(choose_provider(false, some("a"), "one", "two"), Ok(None));
    assert_eq!(choose_provider(true, some("a"), "one", "two"), Ok(some("a")));
    assert_eq!(
        choose_provider(true, None, "one", "two"),
        Err(text("No default OSS provider configured. Use --local-provider=provider or set oss_provider to one of: one, two in config.toml"))
    );
    assert_eq!(choose_model(some("m"), true, some("d")), some("m"));
    assert_eq!(choose_model(None, true, some("d")), some("d"));
    assert_eq!(choose_model(None, false, some("d")), None);
}

#[test]
fn overrides_never_ask() {
    let mut shared = SharedCliOptions::default();
    shared.oss = true;
    shared.add_dir = vec![text("/more")];
    shared.sandbox_mode = some("read-only");
    let overrides = run_overrides(shared, "/p", some("local"), some("d"));
    assert_eq!(overrides.model, some("d"));
    assert_eq!(overrides.model_provider, some("local"));
    assert_eq!(overrides.approval_policy, "never");
    assert_eq!(overrides.sandbox_mode, "danger-full-access");
    assert_eq!(overrides.cwd, "/p");
    assert_eq!(overrides.show_raw_agent_reasoning, Some(true));
    assert_eq!(overrides.additional_writable_roots, vec![text("/more")]);
    let plain = run_overrides(SharedCliOptions::default(), "/p", None, None);
    assert_eq!(plain.show_raw_agent_reasoning, None);
}

#[test]
fn runs_are_set_up_in_their_state_directory() {
    let args = AutomodeArgs {
        shared: ExecSharedCliOptions::default(),
        project: None,
        duration: 60,
        goal: text("goal"),
        state_dir: None,
        skip_git_repo_check: false,
        config_overrides: Vec::new(),
    };
    assert!(run_args(rules(), &args, text("/p"), false, &Vec::new()).is_err());
    let run = run_args(rules(), &args, text("/p"), true, &vec![text("run1")]).unwrap();
    assert_eq!(run.state_dir, "/p/.codex/automode/run2");
    assert_eq!(run.goal, "goal");
    assert_eq!(run.duration, 60);
}

#[test]
fn a_broken_configuration_is_explained() {
    assert_eq!(
        format_load_config_error(Some("line 1"), "bad"),
        "Error loading config.toml:\nline 1"
    );
    assert_eq!(
        format_load_config_error(None, "bad"),
        "Error loading config.toml: bad"
    );
}
