use automode::automode::state::{
    deadline_timestamp, initial_progress_document, load_state, next_run_name, parse_run_number,
    resolve_state_dir, timestamp_secs,
};
use automode::automode::types::{AutomodeState, TurnRole, TurnSummary};
use automode::paths::PathRules;

fn rules() -> PathRules {
    PathRules::current()
}

fn names(names: &[&str]) -> Vec<String> {
    names.iter().map(|name| name.to_string()).collect()
}

#[test]
fn resolve_state_dir_defaults_inside_project_run_dir() {
    let temp = tempfile::tempdir().unwrap();
    let project = temp.path();
    let root = project.join(".codex").join("automode");
    let project_text = project.display().to_string();
    assert_eq!(
        resolve_state_dir(rules(), &project_text, None, &names(&[])).unwrap(),
        root.join("run1").display().to_string()
    );
    assert_eq!(
        resolve_state_dir(rules(), &project_text, None, &names(&["run1"])).unwrap(),
        root.join("run2").display().to_string()
    );
}

#[test]
fn resolve_state_dir_keeps_explicit_dir_exact() {
    let project = "/tmp/project";
    assert_eq!(
        resolve_state_dir(rules(), project, Some("state".to_string()), &Vec::new()).unwrap(),
        "/tmp/project/state"
    );
    assert_eq!(
        resolve_state_dir(rules(), project, Some("/var/state".to_string()), &Vec::new()).unwrap(),
        "/var/state"
    );
}

#[test]
fn initial_progress_document_marks_numbered_runs_only() {
    let project = "/tmp/project";
    let run_doc =
        initial_progress_document(rules(), "test goal", project, "/tmp/project/.codex/automode/run2");
    let explicit_doc =
        initial_progress_document(rules(), "test goal", project, "/tmp/project/state");

    assert!(run_doc.contains("Run: run2"));
    assert!(!explicit_doc.contains("Run: state"));
    assert_eq!(
        run_doc,
        "# Automode Progress\n\nGoal: test goal\n\nProject: /tmp/project\n\nRun: run2\n\nNo simulated operator decision has been recorded yet. The first operator turn must define numeric metrics with fixed baselines and targets before worker turns begin.\n"
    );
}

#[test]
fn runs_are_numbered_from_one() {
    assert_eq!(parse_run_number("run1"), Some(1));
    assert_eq!(parse_run_number("run18446744073709551615"), Some(u64::MAX));
    for name in [
        "run", "run0", "run01", "run+1", "run-1", "Run1", "run1 ", "xrun1", "run1a",
        "run18446744073709551616",
    ] {
        assert_eq!(parse_run_number(name), None, "{name}");
    }
}

#[test]
fn the_next_run_is_new() {
    assert_eq!(next_run_name(&names(&[])).unwrap(), "run1");
    assert_eq!(
        next_run_name(&names(&["run3", "notes", "run10", "run007", "progress.md"])).unwrap(),
        "run11"
    );
    assert_eq!(
        next_run_name(&names(&["run18446744073709551615"])).unwrap_err(),
        "automode run number overflowed"
    );
    assert_eq!(
        resolve_state_dir(rules(), "/p", None, &names(&["run18446744073709551615"])).unwrap_err(),
        "automode run number overflowed"
    );
}

fn kept(document: &str) -> AutomodeState {
    AutomodeState {
        goal: "old goal".to_string(),
        project: "/old".to_string(),
        started_at: 1,
        deadline_at: 2,
        iteration: 3,
        progress_document: document.to_string(),
        last_worker_summary: Some(TurnSummary {
            role: TurnRole::Worker,
            turn_id: "turn".to_string(),
            status: "completed".to_string(),
            final_message: None,
            commands: Vec::new(),
            file_changes: Vec::new(),
            errors: Vec::new(),
        }),
        last_decision: None,
    }
}

#[test]
fn a_kept_state_goes_on_with_the_new_goal() {
    let earlier = Some(kept("what was learned"));
    let state = load_state(rules(), earlier, "/p/state", "goal", "/p", 10, 20);
    assert_eq!(state.goal, "goal");
    assert_eq!(state.project, "/p");
    assert_eq!(state.started_at, 1);
    assert_eq!(state.deadline_at, 20);
    assert_eq!(state.iteration, 3);
    assert_eq!(state.progress_document, "what was learned");
    assert!(state.last_worker_summary.is_some());
}

#[test]
fn a_blank_document_is_replaced() {
    let state = load_state(rules(), Some(kept(" \n")), "/p/run4", "goal", "/p", 10, 20);
    assert_eq!(
        state.progress_document,
        initial_progress_document(rules(), "goal", "/p", "/p/run4")
    );
}

#[test]
fn a_new_state_starts_from_nothing() {
    let state = load_state(rules(), None, "/p/run4", "goal", "/p", 10, 20);
    assert_eq!(
        state,
        AutomodeState {
            goal: "goal".to_string(),
            project: "/p".to_string(),
            started_at: 10,
            deadline_at: 20,
            iteration: 0,
            progress_document: initial_progress_document(rules(), "goal", "/p", "/p/run4"),
            last_worker_summary: None,
            last_decision: None,
        }
    );
}

#[test]
fn timestamps_stay_in_range() {
    assert_eq!(timestamp_secs(1_700_000_000), 1_700_000_000);
    assert_eq!(timestamp_secs(u64::MAX), i64::MAX);
    for (started_at, secs) in [(5, 600), (i64::MAX, 1), (5, u64::MAX), (i64::MIN, 1 << 63), (-7, 0)] {
        assert_eq!(
            deadline_timestamp(started_at, secs),
            started_at.saturating_add(secs as i64)
        );
    }
}
