use automode::automode::decision::{
    apply_decision, escape_table, extract_json_object, fallback_decision, fallback_metrics,
    next_worker_prompt, normalize_decision, operator_prompt, parse_decision,
    render_progress_document, MetricNumbers,
};
use automode::automode::types::{
    AutomodeDecision, AutomodeMetric, AutomodeState, MetricDirection,
};
use automode::paths::PathRules;

fn state() -> AutomodeState {
    AutomodeState {
        goal: "ship feature".to_string(),
        project: "/repo".to_string(),
        started_at: 1,
        deadline_at: 2,
        iteration: 3,
        progress_document: String::new(),
        last_worker_summary: None,
        last_decision: None,
    }
}

fn decision() -> AutomodeDecision {
    AutomodeDecision {
        metrics: fallback_metrics(),
        assessment: "moved from 0 to 10".to_string(),
        learned: vec!["tests exist".to_string()],
        document_changes: vec!["created metrics".to_string()],
        next_prompt: "run tests".to_string(),
    }
}

fn numbers(baseline: &str, current: &str, target: &str) -> MetricNumbers {
    MetricNumbers {
        baseline: baseline.to_string(),
        current: current.to_string(),
        target: target.to_string(),
    }
}

/// Reads a decision from JSON.
fn read_decision(text: &str) -> Result<AutomodeDecision, String> {
    let value: serde_json::Value = serde_json::from_str(text).map_err(|err| err.to_string())?;
    let member = |value: &serde_json::Value, name: &str| {
        value[name].as_str().map(str::to_string).ok_or(format!("no text {name}"))
    };
    let list = |name: &str| -> Result<Vec<String>, String> {
        let items = value[name].as_array().ok_or(format!("no list {name}"))?;
        items
            .iter()
            .map(|item| item.as_str().map(str::to_string).ok_or(format!("no text in {name}")))
            .collect()
    };
    let number = |metric: &serde_json::Value, name: &str| {
        metric[name].as_f64().map(f64::to_bits).ok_or(format!("no number {name}"))
    };
    let mut metrics = Vec::new();
    for metric in value["metrics"].as_array().ok_or("no metrics")? {
        metrics.push(AutomodeMetric {
            name: member(metric, "name")?,
            baseline: number(metric, "baseline")?,
            current: number(metric, "current")?,
            target: number(metric, "target")?,
            unit: member(metric, "unit")?,
            direction: match metric["direction"].as_str() {
                Some("increase") => MetricDirection::Increase,
                Some("decrease") => MetricDirection::Decrease,
                Some("equal") => MetricDirection::Equal,
                _ => return Err("no direction".to_string()),
            },
            measurement_method: member(metric, "measurement_method")?,
        });
    }
    Ok(AutomodeDecision {
        metrics,
        assessment: member(&value, "assessment")?,
        learned: list("learned")?,
        document_changes: list("document_changes")?,
        next_prompt: member(&value, "next_prompt")?,
    })
}

#[test]
fn apply_decision_writes_progress_document_and_state() {
    let mut state = state();
    apply_decision(&mut state, decision(), &vec![numbers("0", "0", "100")]);

    assert!(state.progress_document.contains("goal_progress_percent"));
    assert!(state.progress_document.contains("run tests"));
    assert_eq!(state.iteration, 3);
    assert_eq!(
        state.last_decision.expect("decision").next_prompt,
        "run tests"
    );
}

#[test]
fn parse_decision_accepts_embedded_json_object() {
    let message = r#"prefix {"metrics":[{"name":"tests","baseline":1,"current":2,"target":3,"unit":"count","direction":"increase","measurement_method":"cargo test"}],"assessment":"better","learned":[],"document_changes":[],"next_prompt":"continue"} suffix"#;
    let whole = read_decision(message);
    assert!(whole.is_err());
    let object = extract_json_object(message).map(read_decision);
    let decision = parse_decision(whole, object).unwrap();
    assert_eq!(decision.metrics[0].name, "tests");
    assert_eq!(decision.next_prompt, "continue");
    assert_eq!(
        decision,
        AutomodeDecision {
            metrics: vec![AutomodeMetric {
                name: "tests".to_string(),
                baseline: 1.0_f64.to_bits(),
                current: 2.0_f64.to_bits(),
                target: 3.0_f64.to_bits(),
                unit: "count".to_string(),
                direction: MetricDirection::Increase,
                measurement_method: "cargo test".to_string(),
            }],
            assessment: "better".to_string(),
            learned: Vec::new(),
            document_changes: Vec::new(),
            next_prompt: "continue".to_string(),
        }
    );
}

#[test]
fn the_whole_message_comes_first() {
    let mut other = decision();
    other.next_prompt = "other".to_string();
    assert_eq!(parse_decision(Ok(decision()), Some(Ok(other.clone()))), Ok(decision()));
    assert_eq!(
        parse_decision(Err("first".to_string()), Some(Ok(other.clone()))),
        Ok(other)
    );
    assert_eq!(
        parse_decision(Err("first".to_string()), Some(Err("second".to_string()))),
        Err("second".to_string())
    );
    assert_eq!(
        parse_decision(Err("first".to_string()), None),
        Err("first".to_string())
    );
}

#[test]
fn objects_are_found_between_their_braces() {
    assert_eq!(extract_json_object("a {b} c"), Some("{b}"));
    assert_eq!(extract_json_object("{a}{b}"), Some("{a}{b}"));
    assert_eq!(extract_json_object("é{ü}é"), Some("{ü}"));
    assert_eq!(extract_json_object("{}"), Some("{}"));
    for text in ["", "{", "}", "}{", "no object", "} a {"] {
        assert_eq!(extract_json_object(text), None, "{text}");
    }
}

#[test]
fn fallback_metrics_go_from_nothing_to_a_hundred() {
    assert_eq!(
        fallback_metrics(),
        vec![AutomodeMetric {
            name: "goal_progress_percent".to_string(),
            baseline: 0.0_f64.to_bits(),
            current: 0.0_f64.to_bits(),
            target: 100.0_f64.to_bits(),
            unit: "percent".to_string(),
            direction: MetricDirection::Increase,
            measurement_method: "Simulated operator estimate based on completed implementation, tests, and validation evidence.".to_string(),
        }]
    );
}

#[test]
fn the_progress_document_is_laid_out_in_sections() {
    let mut decision = decision();
    decision.metrics[0].name = "pass|rate\nall".to_string();
    decision.metrics[0].direction = MetricDirection::Equal;
    decision.assessment = "  better \n".to_string();
    decision.learned = Vec::new();
    decision.document_changes = vec![" a ".to_string(), "b".to_string()];
    assert_eq!(
        render_progress_document(&state(), &decision, &vec![numbers("1.500", "2", "3")]),
        "# Automode Progress\n\nGoal: ship feature\n\nProject: /repo\n\nStarted at: 1\n\nDeadline at: 2\n\nIteration: 3\n\n## Metrics\n\n| Name | Baseline | Current | Target | Direction | Unit | Measurement |\n| --- | ---: | ---: | ---: | --- | --- | --- |\n| pass\\|rate all | 1.500 | 2 | 3 | Equal | percent | Simulated operator estimate based on completed implementation, tests, and validation evidence. |\n\n## Assessment\n\nbetter\n\n## Learnings\n\n- None\n\n## Document Changes\n\n- a\n- b\n\n## Next Prompt\n\nrun tests\n"
    );
}

#[test]
fn table_cells_stay_in_the_table() {
    for value in ["", "a|b", "||", "a\nb\n", "\\|", "plain"] {
        assert_eq!(escape_table(value), value.replace('|', "\\|").replace('\n', " "));
    }
}

#[test]
fn gaps_in_a_decision_are_filled() {
    let mut open = decision();
    open.next_prompt = " \t".to_string();
    open.metrics = Vec::new();
    let filled = normalize_decision(open, &state());
    assert_eq!(
        filled.next_prompt,
        "Continue making measurable progress toward this goal: ship feature. Inspect the repository, identify the highest-impact incomplete validation or implementation step, execute it, and report concrete evidence."
    );
    assert_eq!(filled.metrics, fallback_metrics());
    assert_eq!(normalize_decision(decision(), &state()), decision());
}

#[test]
fn a_fallback_keeps_the_metrics() {
    let mut state = state();
    assert_eq!(fallback_decision(&state, "why").metrics, fallback_metrics());
    let mut last = decision();
    last.metrics[0].name = "kept".to_string();
    state.last_decision = Some(last);
    let fallback = fallback_decision(&state, "why");
    assert_eq!(fallback.metrics[0].name, "kept");
    assert_eq!(
        fallback.assessment,
        "The operator response was invalid (why). Automode preserved the previous metrics and will continue with a conservative next step."
    );
    assert_eq!(
        fallback.learned,
        vec!["Operator output must stay valid JSON; last parse issue: why".to_string()]
    );
    assert_eq!(
        fallback.document_changes,
        vec!["Recorded fallback decision after invalid operator output.".to_string()]
    );
}

#[test]
fn the_operator_is_shown_the_document_and_the_last_turn() {
    let mut state = state();
    state.progress_document = "DOCUMENT".to_string();
    let prompt = operator_prompt("/repo", "/repo/.codex", &state, Some("{\n}"));
    assert!(prompt.starts_with(
        "You are the simulated human operator for Codex automode.\n\nYou must read the progress document below before choosing the next step.\nThe project path is: /repo\nThe automode state directory is: /repo/.codex\nThe fixed goal is:\nship feature\n\nRules:\n- Return only JSON matching the supplied schema.\n"
    ));
    assert!(prompt.ends_with(
        "- Do not ask the user for input.\n\nCurrent progress document:\n```markdown\nDOCUMENT\n```\n\nLast worker turn summary:\n```json\n{\n}\n```\n"
    ));
    assert!(operator_prompt("/repo", "/repo/.codex", &state, None)
        .ends_with("```json\nnull\n```\n"));
}

#[test]
fn the_worker_is_given_the_chosen_task() {
    let mut state = state();
    assert!(next_worker_prompt(PathRules::current(), &state, "/s").contains(
        "\n\nTask selected by the simulated operator:\nContinue working toward the automode goal.\n\n"
    ));
    state.last_decision = Some(decision());
    let prompt = next_worker_prompt(PathRules::current(), &state, "/s");
    assert_eq!(
        prompt,
        "You are running inside Codex automode.\n\nRead the automode progress document before doing work:\n/s/progress.md\n\nGoal:\nship feature\n\nTask selected by the simulated operator:\nrun tests\n\nOperate autonomously. Do not ask the user for input. If this \
         task appears complete, use the remaining turn to improve verification, tests, documentation, or cleanup that measurably moves the goal forward.\n"
    );
}
