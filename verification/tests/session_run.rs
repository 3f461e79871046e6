use automode::automode::state::initial_progress_document as exec_document;
use automode::automode::turn::TurnStatus;
use automode::paths::PathRules;
use automode::session::command::AutomodeStartRequest;
use automode::session::controller::{AutomodeController, Effect};
use automode::session::document::{build_turn_prompt, initial_progress_document, truncate};
use automode::session::goal::read_goal_from_progress_doc;
use automode::session::lines::{
    automode_finished_lines, automode_stopped_lines, SpanStyle, StyledLine,
};
use automode::session::run_state::{
    automode_started_lines, plan_start, AutomodeRunState, StartFiles,
};

fn rules() -> PathRules {
    PathRules::current()
}

fn request(duration: Option<u64>) -> AutomodeStartRequest {
    AutomodeStartRequest {
        project: "/work/project".to_string(),
        duration,
        goal: "ship the feature".to_string(),
        skip_git_repo_check: true,
        resume: false,
    }
}

fn session(duration: Option<u64>, run_id: u64) -> AutomodeRunState {
    let deadline = duration.map(|secs| u128::from(secs) * 1_000_000_000);
    AutomodeRunState::start(rules(), request(duration), run_id, 0, deadline)
}

fn line_to_text(line: &StyledLine) -> String {
    line.spans.iter().map(|span| span.text.as_str()).collect::<Vec<_>>().join("")
}

fn render_lines(lines: &[StyledLine]) -> String {
    lines.iter().map(line_to_text).collect::<Vec<_>>().join("\n")
}

#[test]
fn turn_prompt_points_model_at_progress_document() {
    let prompt = build_turn_prompt(
        &request(Some(600)),
        "/work/project/.codex/automode",
        "/work/project/.codex/automode/progress.md",
        3,
        Some(120),
    );

    assert!(prompt.contains("Iteration: 3"));
    assert!(prompt.contains("/work/project/.codex/automode/progress.md"));
    assert!(prompt.contains("Read the progress document"));
    assert!(prompt.contains("Remaining run time before the controller stops automode: 2m\n"));
    assert!(prompt.starts_with(
        "You are running inside Codex automode in the interactive TUI.\n\nProject:\n/work/project\n\nGoal:\nship the feature\n\nAutomode state directory:\n/work/project/.codex/automode\n\nProgress document:\n/work/project/.codex/automode/progress.md\n\nIteration: 3\n"
    ));
}

#[test]
fn started_lines_render_snapshot() {
    let state = AutomodeRunState {
        request: request(Some(600)),
        state_dir: "/work/project/.codex/automode".to_string(),
        progress_path: "/work/project/.codex/automode/progress.md".to_string(),
        deadline: Some(0),
        iteration: 0,
        run_id: 1,
    };

    assert_eq!(
        render_lines(&automode_started_lines(&state)),
        "/automode --project /work/project --duration 10m --goal ship the feature\nAutomode started for /work/project\n  progress: /work/project/.codex/automode/progress.md\n  duration: 10m\nAutomode uses danger-full-access with approval_policy=never.\nIt runs in this interactive thread until its duration expires or you interrupt it."
    );
}

#[test]
fn lines_are_styled() {
    let mut state = session(None, 1);
    state.request.resume = true;
    let lines = automode_started_lines(&state);
    assert_eq!(lines[0].spans[0].style, SpanStyle::Magenta);
    assert_eq!(line_to_text(&lines[1]), "Automode resumed for /work/project");
    assert_eq!(lines[1].spans[0].style, SpanStyle::MagentaBold);
    assert_eq!(lines[1].spans[1].style, SpanStyle::Green);
    assert_eq!(lines[1].spans[2].style, SpanStyle::Plain);
    assert_eq!(line_to_text(&lines[3]), "  duration: unlimited");
    assert_eq!(lines[3].spans[1].style, SpanStyle::Cyan);
    assert_eq!(lines[4].spans[1].style, SpanStyle::Red);
    assert_eq!(lines[5].spans[0].style, SpanStyle::Dim);
    assert_eq!(
        render_lines(&automode_finished_lines("/d")),
        "Automode duration reached.\n  progress: /d"
    );
    assert_eq!(
        render_lines(&automode_stopped_lines(Some("/d"))),
        "Automode stopped.\n  progress: /d"
    );
    assert_eq!(render_lines(&automode_stopped_lines(None)), "Automode stopped.");
}

#[test]
fn a_start_is_planned() {
    assert_eq!(
        plan_start(rules(), &request(None), false, true),
        Err("Automode project does not exist or is not a directory: /work/project".to_string())
    );
    let mut careful = request(None);
    careful.skip_git_repo_check = false;
    assert_eq!(
        plan_start(rules(), &careful, true, false),
        Err(
            "Not inside a trusted directory and --skip-git-repo-check was not specified."
                .to_string()
        )
    );
    assert_eq!(
        plan_start(rules(), &careful, true, true),
        Ok(StartFiles {
            state_dir: "/work/project/.codex/automode".to_string(),
            progress_path: "/work/project/.codex/automode/progress.md".to_string(),
            progress_document: initial_progress_document("ship the feature", "/work/project"),
            state_path: "/work/project/.codex/automode/tui-state.json".to_string(),
            state_contents: "{\n  \"goal\": \"ship the feature\",\n  \"project\": \"/work/project\"\n}"
                .to_string(),
        })
    );
}

#[test]
fn documents_keep_the_goal() {
    let document = initial_progress_document("  reach the top ", "/p");
    assert!(document.starts_with("# Automode Progress\n\nGoal:   reach the top \n\nProject: /p\n\n"));
    assert!(document.ends_with("No iterations have been recorded yet.\n"));
    assert_eq!(read_goal_from_progress_doc(&document), Some("reach the top".to_string()));
    assert_eq!(
        read_goal_from_progress_doc(&exec_document(rules(), "reach the top\r", "/p", "/p/run1")),
        Some("reach the top".to_string())
    );
    assert_eq!(
        read_goal_from_progress_doc(&initial_progress_document("two\nlines", "/p")),
        Some("two".to_string())
    );
}

#[test]
fn goals_are_shortened_for_display() {
    assert_eq!(truncate("  äbc ", 3), "äbc");
    assert_eq!(truncate("  äbcd ", 3), "äbc...");
    let mut session = session(None, 1);
    session.request.goal = "g".repeat(121);
    let prompt = session.next_turn_prompt(0);
    assert_eq!(
        prompt.display_text,
        format!("/automode iteration 1: {}...", "g".repeat(120))
    );
    assert_eq!(prompt.cwd, "/work/project");
    assert!(prompt
        .prompt
        .contains("automode: unlimited; run until /automode stop or interrupt\n"));
}

#[test]
fn runs_end_at_their_deadline() {
    let timed = session(Some(60), 7);
    assert_eq!(timed.run_id(), 7);
    assert_eq!(timed.deadline(), Some(60_000_000_000));
    assert!(!timed.deadline_reached(59_999_999_999));
    assert!(timed.deadline_reached(60_000_000_000));
    assert_eq!(timed.remaining_duration(1), Some(59));
    assert_eq!(timed.remaining_duration(70_000_000_000), Some(0));
    assert_eq!(timed.progress_path(), "/work/project/.codex/automode/progress.md");
    let endless = session(None, 8);
    assert_eq!(endless.deadline(), None);
    assert!(!endless.deadline_reached(u128::MAX));
    assert_eq!(endless.remaining_duration(0), None);
    let overlong = AutomodeRunState::start(rules(), request(Some(u64::MAX)), 9, 5, None);
    assert_eq!(overlong.deadline(), Some(5));
}

fn submitted(effects: &[Effect]) -> bool {
    effects.iter().any(|effect| matches!(effect, Effect::Submit(_)))
}

fn running(duration: Option<u64>) -> AutomodeController {
    let mut controller = AutomodeController::new();
    assert!(submitted(&controller.start_automode(Ok(session(duration, 1)), 0)));
    assert_eq!(controller.submit_next_automode_turn(true), vec![Effect::Redraw]);
    controller
}

#[test]
fn one_run_at_a_time() {
    let controller = AutomodeController::new();
    assert_eq!(controller.refuse_start(false), None);
    assert_eq!(
        controller.refuse_start(true),
        Some(vec![
            Effect::ShowError(
                "Automode cannot start while a turn is already running.".to_string()
            ),
            Effect::Redraw,
        ])
    );
    assert_eq!(
        running(None).refuse_start(false),
        Some(vec![
            Effect::ShowError(
                "Automode is already running. Use /automode stop first.".to_string()
            ),
            Effect::Redraw,
        ])
    );
}

#[test]
fn a_run_begins_with_a_turn() {
    let mut controller = AutomodeController::new();
    let mut expected = session(Some(60), 1);
    let lines = automode_started_lines(&expected);
    let prompt = expected.next_turn_prompt(3);
    assert_eq!(
        controller.start_automode(Ok(session(Some(60), 1)), 3),
        vec![
            Effect::ClearTimer,
            Effect::ArmTimer { deadline: 60_000_000_000, run_id: 1 },
            Effect::ShowLines(lines),
            Effect::Submit(prompt),
        ]
    );
    assert_eq!(controller.session, Some(expected));
    assert_eq!(controller.timer, Some(1));
    let mut failed = AutomodeController::new();
    assert_eq!(
        failed.start_automode(Err("no".to_string()), 0),
        vec![Effect::ShowError("no".to_string()), Effect::Redraw]
    );
    assert_eq!(failed, AutomodeController::new());
}

#[test]
fn a_turn_that_cannot_start_ends_the_run() {
    let mut controller = AutomodeController::new();
    controller.start_automode(Ok(session(None, 1)), 0);
    assert_eq!(
        controller.submit_next_automode_turn(false),
        vec![
            Effect::ShowError("Automode failed to submit the next turn.".to_string()),
            Effect::ClearTimer,
            Effect::Redraw,
        ]
    );
    assert_eq!(controller, AutomodeController::new());
}

#[test]
fn a_run_can_be_stopped() {
    let path = Some("/work/project/.codex/automode/progress.md");
    let mut controller = running(Some(60));
    assert_eq!(
        controller.stop_automode(true),
        vec![
            Effect::ClearTimer,
            Effect::ShowLines(automode_stopped_lines(path)),
            Effect::Interrupt,
            Effect::Redraw,
        ]
    );
    assert_eq!(controller, AutomodeController::new());
    assert_eq!(
        controller.stop_automode(true),
        vec![
            Effect::ShowInfo("Automode is not running.".to_string()),
            Effect::Redraw,
        ]
    );
}

#[test]
fn a_stale_timer_is_ignored() {
    let mut controller = running(Some(60));
    assert_eq!(controller.handle_automode_deadline_reached(2, true), Vec::new());
    assert!(controller.session.is_some());
    assert_eq!(
        controller.handle_automode_deadline_reached(1, false),
        vec![
            Effect::ClearTimer,
            Effect::ShowLines(automode_finished_lines(
                "/work/project/.codex/automode/progress.md"
            )),
            Effect::Redraw,
        ]
    );
    assert_eq!(controller, AutomodeController::new());
    assert_eq!(controller.handle_automode_deadline_reached(1, true), Vec::new());
    assert_eq!(
        controller.handle_automode_turn_completed(TurnStatus::Completed, 0, false),
        Vec::new()
    );
}

#[test]
fn turns_follow_each_other() {
    let mut controller = running(Some(60));
    assert_eq!(
        controller.handle_automode_turn_completed(TurnStatus::InProgress, 0, true),
        vec![Effect::Redraw]
    );
    assert_eq!(
        controller.handle_automode_turn_completed(TurnStatus::Completed, 0, true),
        vec![Effect::Redraw]
    );
    assert!(submitted(
        &controller.handle_automode_turn_completed(TurnStatus::Failed, 0, false)
    ));
    assert_eq!(controller.session.as_ref().unwrap().iteration, 2);
    let effects =
        controller.handle_automode_turn_completed(TurnStatus::Completed, 60_000_000_000, false);
    assert_eq!(
        effects,
        vec![
            Effect::ClearTimer,
            Effect::ShowLines(automode_finished_lines(
                "/work/project/.codex/automode/progress.md"
            )),
            Effect::Redraw,
        ]
    );
    assert_eq!(controller, AutomodeController::new());
}

#[test]
fn an_interrupted_turn_ends_the_run() {
    let path = "/work/project/.codex/automode/progress.md";
    for (now, lines) in [
        (0, automode_stopped_lines(Some(path))),
        (60_000_000_000, automode_finished_lines(path)),
    ] {
        let mut controller = running(Some(60));
        assert_eq!(
            controller.handle_automode_turn_completed(TurnStatus::Interrupted, now, false),
            vec![Effect::ClearTimer, Effect::ShowLines(lines), Effect::Redraw]
        );
        assert_eq!(controller, AutomodeController::new());
    }
}

#[test]
fn the_last_iteration_can_end_too() {
    let path = "/work/project/.codex/automode/progress.md";
    for (status, now, turn_running, lines) in [
        (TurnStatus::Interrupted, 0, false, automode_stopped_lines(Some(path))),
        (TurnStatus::Completed, 60_000_000_000, false, automode_finished_lines(path)),
    ] {
        let mut controller = running(Some(60));
        controller.session.as_mut().unwrap().iteration = u64::MAX;
        assert_eq!(
            controller.handle_automode_turn_completed(TurnStatus::Completed, 0, true),
            vec![Effect::Redraw]
        );
        assert_eq!(
            controller.handle_automode_turn_completed(status, now, turn_running),
            vec![Effect::ClearTimer, Effect::ShowLines(lines), Effect::Redraw]
        );
        assert_eq!(controller, AutomodeController::new());
    }
}
