//! The operator's decisions: asking for them, reading them, and writing them down.
use crate::automode::state::PROGRESS_DOC_FILE;
use crate::automode::types::{
    copy_metrics, metric_models, AutomodeDecision, AutomodeMetric, AutomodeState,
    DecisionModel, MetricDirection, MetricModel, StateModel,
};
use crate::paths::{join_path, joined, PathRules};
use crate::text::{
    chars_of, concat3, decimal, decimal_signed, decimal_string, decimal_string_signed, find,
    find_after_last, find_char, last_place, lemma_find_char, lemma_find_char_is, lemma_last_place,
    lemma_last_place_bounds,
    texts, trim, trim_of,
};
use vstd::prelude::*;
use vstd::string::*;

verus! {

/// The three numbers of a metric as they stand in the progress document.
#[derive(Debug, PartialEq, Eq)]
pub struct MetricNumbers {
    pub baseline: String,
    pub current: String,
    pub target: String,
}

/// What [`MetricNumbers`] say.
pub struct NumbersModel {
    pub baseline: Seq<char>,
    pub current: Seq<char>,
    pub target: Seq<char>,
}

impl View for MetricNumbers {
    type V = NumbersModel;

    open spec fn view(&self) -> NumbersModel {
        NumbersModel {
            baseline: self.baseline@,
            current: self.current@,
            target: self.target@,
        }
    }
}

/// What a list of metric numbers says.
pub open spec fn number_models(numbers: Seq<MetricNumbers>) -> Seq<NumbersModel> {
    numbers.map_values(|number: MetricNumbers| number@)
}

/// What the operator is asked. `worker_summary` is the last worker turn in JSON.
pub open spec fn operator_question(
    project: Seq<char>,
    state_dir: Seq<char>,
    state: StateModel,
    worker_summary: Seq<char>,
) -> Seq<char> {
    "You are the simulated human operator for Codex automode.\n\nYou must read the progress document below before choosing the next step.\nThe project path is: "@
        + project + "\nThe automode state directory is: "@ + state_dir
        + "\nThe fixed goal is:\n"@ + state.goal
        + "\n\nRules:\n- Return only JSON matching the supplied schema.\n- Keep metrics numeric, measurable, and tied to fixed baselines and targets.\n- Decide whether the last worker turn moved the project closer to the goal using those metrics.\n- Update the metrics or measurement methods when you learned something useful.\n- Always produce a non-empty next_prompt. Do not stop because the goal looks complete; choose quality, tests, docs, cleanup, or harder validation next.\n- Do not ask the user for input.\n\nCurrent progress document:\n```markdown\n"@
        + state.progress_document + "\n```\n\nLast worker turn summary:\n```json\n"@ + worker_summary
        + "\n```\n"@
}

/// The task that the operator chose for the worker, if it chose one.
pub open spec fn chosen_task(decision: Option<DecisionModel>) -> Seq<char> {
    match decision {
        Some(decision) if trim_of(decision.next_prompt).len() > 0 => trim_of(decision.next_prompt),
        _ => "Continue working toward the automode goal."@,
    }
}

/// What the worker is asked.
pub open spec fn worker_question(
    separator: char,
    state: StateModel,
    state_dir: Seq<char>,
) -> Seq<char> {
    "You are running inside Codex automode.\n\nRead the automode progress document before doing work:\n"@
        + joined(separator, state_dir, PROGRESS_DOC_FILE@) + "\n\nGoal:\n"@ + state.goal
        + "\n\nTask selected by the simulated operator:\n"@ + chosen_task(state.last_decision)
        + "\n\nOperate autonomously. Do not ask the user for input. If this \
         task appears complete, use the remaining turn to improve verification, tests, documentation, or cleanup that measurably moves the goal forward.\n"@
}

/// The task that is chosen where the operator chose none.
pub open spec fn fallback_task(goal: Seq<char>) -> Seq<char> {
    "Continue making measurable progress toward this goal: "@ + goal
        + ". Inspect the repository, identify the highest-impact incomplete validation or implementation step, execute it, and report concrete evidence."@
}

/// The metric that is kept where the operator gave none: progress in percent, from 0 to 100.
pub open spec fn fallback_metric() -> MetricModel {
    MetricModel {
        name: "goal_progress_percent"@,
        baseline: 0,
        current: 0,
        target: HUNDRED,
        unit: "percent"@,
        direction: MetricDirection::Increase,
        measurement_method:
            "Simulated operator estimate based on completed implementation, tests, and validation evidence."@,
    }
}

/// The bits of one hundred as a double-precision number.
pub const HUNDRED: u64 = 0x4059_0000_0000_0000;

/// A decision with the gaps filled that the operator left.
pub open spec fn normalized(decision: DecisionModel, goal: Seq<char>) -> DecisionModel {
    DecisionModel {
        next_prompt: if trim_of(decision.next_prompt).len() == 0 {
            fallback_task(goal)
        } else {
            decision.next_prompt
        },
        metrics: if decision.metrics.len() == 0 {
            seq![fallback_metric()]
        } else {
            decision.metrics
        },
        ..decision
    }
}

/// The decision that stands in for one that could not be read.
pub open spec fn fallback(state: StateModel, reason: Seq<char>) -> DecisionModel {
    DecisionModel {
        metrics: match state.last_decision {
            Some(decision) if decision.metrics.len() > 0 => decision.metrics,
            _ => seq![fallback_metric()],
        },
        assessment: "The operator response was invalid ("@ + reason
            + "). Automode preserved the previous metrics and will continue with a conservative next step."@,
        learned: seq!["Operator output must stay valid JSON; last parse issue: "@ + reason],
        document_changes: seq!["Recorded fallback decision after invalid operator output."@],
        next_prompt: fallback_task(state.goal),
    }
}

/// What stands from the first opening to the last closing brace, if they come in that order.
pub open spec fn braced(s: Seq<char>) -> Option<Seq<char>> {
    let start = find_char(s, '{') as int;
    let end = last_place(s, '}');
    if start < end {
        Some(s.subrange(start, end + 1))
    } else {
        None
    }
}

/// A character as it stands in a table cell.
pub open spec fn escape_char(c: char) -> Seq<char> {
    if c == '|' {
        seq!['\\', '|']
    } else if c == '\n' {
        seq![' ']
    } else {
        seq![c]
    }
}

/// A text as it stands in a table cell.
pub open spec fn escaped(s: Seq<char>) -> Seq<char>
    decreases s.len(),
{
    if s.len() == 0 {
        seq![]
    } else {
        escaped(s.drop_last()) + escape_char(s.last())
    }
}

/// The word for a direction.
pub open spec fn direction_text(direction: MetricDirection) -> Seq<char> {
    match direction {
        MetricDirection::Increase => "Increase"@,
        MetricDirection::Decrease => "Decrease"@,
        MetricDirection::Equal => "Equal"@,
    }
}

/// The table row of a metric.
pub open spec fn metric_row(metric: MetricModel, numbers: NumbersModel) -> Seq<char> {
    "| "@ + escaped(metric.name) + " | "@ + numbers.baseline + " | "@ + numbers.current + " | "@
        + numbers.target + " | "@ + direction_text(metric.direction) + " | "@ + escaped(metric.unit)
        + " | "@ + escaped(metric.measurement_method) + " |\n"@
}

/// The table rows of metrics.
pub open spec fn metric_rows(metrics: Seq<MetricModel>, numbers: Seq<NumbersModel>) -> Seq<char>
    decreases metrics.len(),
{
    if metrics.len() == 0 {
        seq![]
    } else {
        metric_rows(metrics.drop_last(), numbers) + metric_row(
            metrics.last(),
            numbers[metrics.len() - 1],
        )
    }
}

/// One bullet for each item.
pub open spec fn bullet_lines(items: Seq<Seq<char>>) -> Seq<char>
    decreases items.len(),
{
    if items.len() == 0 {
        seq![]
    } else {
        bullet_lines(items.drop_last()) + ("- "@ + trim_of(items.last()) + "\n"@)
    }
}

/// The bullets of a section, which says so where there is nothing to list.
pub open spec fn bullets(items: Seq<Seq<char>>) -> Seq<char> {
    if items.len() == 0 {
        "- None\n"@
    } else {
        bullet_lines(items)
    }
}

/// How every progress document starts.
pub open spec fn document_head(goal: Seq<char>) -> Seq<char> {
    "# Automode Progress\n\nGoal: "@ + goal + "\n\n"@
}

/// The progress document after its first lines.
pub open spec fn document_body(
    state: StateModel,
    decision: DecisionModel,
    numbers: Seq<NumbersModel>,
) -> Seq<char> {
    "Project: "@ + state.project + "\n\nStarted at: "@ + decimal_signed(state.started_at as int)
        + "\n\nDeadline at: "@ + decimal_signed(state.deadline_at as int) + "\n\nIteration: "@
        + decimal(state.iteration as nat)
        + "\n\n## Metrics\n\n| Name | Baseline | Current | Target | Direction | Unit | Measurement |\n| --- | ---: | ---: | ---: | --- | --- | --- |\n"@
        + metric_rows(decision.metrics, numbers) + "\n## Assessment\n\n"@ + trim_of(
        decision.assessment,
    ) + "\n\n## Learnings\n\n"@ + bullets(decision.learned) + "\n## Document Changes\n\n"@
        + bullets(decision.document_changes) + "\n## Next Prompt\n\n"@ + trim_of(
        decision.next_prompt,
    ) + "\n"@
}

/// The progress document that holds a decision.
pub open spec fn progress_document(
    state: StateModel,
    decision: DecisionModel,
    numbers: Seq<NumbersModel>,
) -> Seq<char> {
    document_head(state.goal) + document_body(state, decision, numbers)
}

/// The state once a decision has been taken.
pub open spec fn decided(
    state: StateModel,
    decision: DecisionModel,
    numbers: Seq<NumbersModel>,
) -> StateModel {
    StateModel {
        progress_document: progress_document(state, decision, numbers),
        last_decision: Some(decision),
        ..state
    }
}

/// An object is found in the middle of other text, as long as no opening brace stands before it
/// and no closing brace after it.
pub proof fn law_embedded_object_is_found(before: Seq<char>, object: Seq<char>, after: Seq<char>)
    requires
        object.len() > 1,
        object[0] == '{',
        object.last() == '}',
        !before.contains('{'),
        !after.contains('}'),
    ensures
        braced(before + object + after) == Some(object),
{
    let s = before + object + after;
    let start = before.len() as int;
    let end = before.len() + object.len() - 1;
    assert forall|k: int| 0 <= k < start implies #[trigger] s[k] != '{' by {
        assert(before.contains(before[k]));
    }
    assert(s[start] == '{');
    lemma_find_char_is(s, '{', start);
    assert forall|k: int| end < k < s.len() implies #[trigger] s[k] != '}' by {
        assert(after.contains(after[k - end - 1]));
    }
    assert(s[end] == object.last());
    lemma_last_place(s, '}', end);
    assert(s.subrange(start, end + 1) =~= object);
}

/// A table cell holds no line break, and every bar in it is escaped.
pub proof fn law_cells_stay_in_the_table(s: Seq<char>)
    ensures
        !escaped(s).contains('\n'),
        forall|k: int|
            0 <= k < escaped(s).len() && #[trigger] escaped(s)[k] == '|' ==> k > 0 && escaped(s)[k
                - 1] == '\\',
    decreases s.len(),
{
    if s.len() > 0 {
        let before = escaped(s.drop_last());
        let last = escape_char(s.last());
        law_cells_stay_in_the_table(s.drop_last());
        assert forall|k: int| 0 <= k < escaped(s).len() implies escaped(s)[k] != '\n' by {
            if k < before.len() {
                assert(escaped(s)[k] == before[k]);
                assert(before.contains(before[k]));
            } else {
                assert(escaped(s)[k] == last[k - before.len()]);
            }
        }
        assert forall|k: int|
            0 <= k < escaped(s).len() && #[trigger] escaped(s)[k] == '|' implies k > 0 && escaped(
            s,
        )[k - 1] == '\\' by {
            if k < before.len() {
                assert(escaped(s)[k] == before[k]);
                assert(escaped(s)[k - 1] == before[k - 1]);
            } else {
                assert(escaped(s)[k] == last[k - before.len()]);
                assert(escaped(s)[k - 1] == last[k - before.len() - 1]);
            }
        }
    }
}

/// Whatever the operator answered, what is done next is never blank and never without a metric.
pub proof fn law_decisions_are_complete(
    state: StateModel,
    decision: DecisionModel,
    reason: Seq<char>,
)
    ensures
        trim_of(normalized(decision, state.goal).next_prompt).len() > 0,
        normalized(decision, state.goal).metrics.len() > 0,
        trim_of(fallback(state, reason).next_prompt).len() > 0,
        fallback(state, reason).metrics.len() > 0,
        normalized(normalized(decision, state.goal), state.goal) == normalized(
            decision,
            state.goal,
        ),
{
    let task = fallback_task(state.goal);
    reveal_strlit("Continue making measurable progress toward this goal: ");
    assert(task[0] == 'C');
    if trim_of(task).len() == 0 {
        let (i, j) = crate::text::lemma_trim_bounds(task);
    }
}

/// Returns what the operator is asked, given the last worker turn in JSON, if there was one.
pub fn operator_prompt(
    project: &str,
    state_dir: &str,
    state: &AutomodeState,
    worker_summary: Option<&str>,
) -> (r: String)
    ensures
        r@ == operator_question(
            project@,
            state_dir@,
            state@,
            match worker_summary {
                Some(json) => json@,
                None => "null"@,
            },
        ),
{
    let mut r =
        "You are the simulated human operator for Codex automode.\n\nYou must read the progress document below before choosing the next step.\nThe project path is: ".to_owned();
    r.append(project);
    r.append("\nThe automode state directory is: ");
    r.append(state_dir);
    r.append("\nThe fixed goal is:\n");
    r.append(state.goal.as_str());
    r.append(
        "\n\nRules:\n- Return only JSON matching the supplied schema.\n- Keep metrics numeric, measurable, and tied to fixed baselines and targets.\n- Decide whether the last worker turn moved the project closer to the goal using those metrics.\n- Update the metrics or measurement methods when you learned something useful.\n- Always produce a non-empty next_prompt. Do not stop because the goal looks complete; choose quality, tests, docs, cleanup, or harder validation next.\n- Do not ask the user for input.\n\nCurrent progress document:\n```markdown\n",
    );
    r.append(state.progress_document.as_str());
    r.append("\n```\n\nLast worker turn summary:\n```json\n");
    match worker_summary {
        Some(json) => r.append(json),
        None => r.append("null"),
    }
    r.append("\n```\n");
    r
}

/// Returns what the worker is asked.
pub fn next_worker_prompt(rules: PathRules, state: &AutomodeState, state_dir: &str) -> (r: String)
    ensures
        r@ == worker_question(rules@, state@, state_dir@),
{
    let progress_path = join_path(rules, state_dir, PROGRESS_DOC_FILE);
    let mut task = "Continue working toward the automode goal.";
    if let Some(decision) = &state.last_decision {
        let chosen = trim(decision.next_prompt.as_str());
        if chosen.unicode_len() > 0 {
            task = chosen;
        }
    }
    let mut r =
        "You are running inside Codex automode.\n\nRead the automode progress document before doing work:\n".to_owned();
    r.append(progress_path.as_str());
    r.append("\n\nGoal:\n");
    r.append(state.goal.as_str());
    r.append("\n\nTask selected by the simulated operator:\n");
    r.append(task);
    r.append(
        "\n\nOperate autonomously. Do not ask the user for input. If this \
         task appears complete, use the remaining turn to improve verification, tests, documentation, or cleanup that measurably moves the goal forward.\n",
    );
    r
}

/// Returns the task that is chosen where the operator chose none.
pub fn fallback_next_prompt(goal: &str) -> (r: String)
    ensures
        r@ == fallback_task(goal@),
{
    concat3(
        "Continue making measurable progress toward this goal: ",
        goal,
        ". Inspect the repository, identify the highest-impact incomplete validation or implementation step, execute it, and report concrete evidence.",
    )
}

/// Returns the metrics that are kept where the operator gave none.
pub fn fallback_metrics() -> (r: Vec<AutomodeMetric>)
    ensures
        metric_models(r@) == seq![fallback_metric()],
{
    let mut r: Vec<AutomodeMetric> = Vec::new();
    r.push(
        AutomodeMetric {
            name: "goal_progress_percent".to_owned(),
            baseline: 0,
            current: 0,
            target: HUNDRED,
            unit: "percent".to_owned(),
            direction: MetricDirection::Increase,
            measurement_method:
                "Simulated operator estimate based on completed implementation, tests, and validation evidence.".to_owned(),
        },
    );
    assert(metric_models(r@) =~= seq![fallback_metric()]);
    r
}

/// Returns a decision with the gaps filled that the operator left.
pub fn normalize_decision(
    decision: AutomodeDecision,
    state: &AutomodeState,
) -> (r: AutomodeDecision)
    ensures
        r@ == normalized(decision@, state@.goal),
{
    let mut decision = decision;
    if trim(decision.next_prompt.as_str()).unicode_len() == 0 {
        decision.next_prompt = fallback_next_prompt(state.goal.as_str());
    }
    if decision.metrics.len() == 0 {
        decision.metrics = fallback_metrics();
    }
    decision
}

/// Returns the decision that stands in for one that could not be read.
pub fn fallback_decision(state: &AutomodeState, reason: &str) -> (r: AutomodeDecision)
    ensures
        r@ == fallback(state@, reason@),
{
    let mut kept: Option<Vec<AutomodeMetric>> = None;
    if let Some(decision) = &state.last_decision {
        if decision.metrics.len() > 0 {
            kept = Some(copy_metrics(&decision.metrics));
        }
    }
    let mut learned: Vec<String> = Vec::new();
    learned.push(concat3("Operator output must stay valid JSON; last parse issue: ", reason, ""));
    let mut document_changes: Vec<String> = Vec::new();
    document_changes.push("Recorded fallback decision after invalid operator output.".to_owned());
    proof {
        reveal_strlit("");
    }
    assert(texts(learned@) =~= fallback(state@, reason@).learned);
    assert(texts(document_changes@) =~= fallback(state@, reason@).document_changes);
    AutomodeDecision {
        metrics: match kept {
            Some(metrics) => metrics,
            None => fallback_metrics(),
        },
        assessment: concat3(
            "The operator response was invalid (",
            reason,
            "). Automode preserved the previous metrics and will continue with a conservative next step.",
        ),
        learned,
        document_changes,
        next_prompt: fallback_next_prompt(state.goal.as_str()),
    }
}

/// Returns what stands from the first opening to the last closing brace, if they come in that
/// order.
pub fn extract_json_object(message: &str) -> (r: Option<&str>)
    ensures
        braced(message@) == (match r {
            Some(text) => Some(text@),
            None => None,
        }),
{
    let chars = chars_of(message);
    let start: usize = find(chars.as_slice(), '{');
    let end: usize = find_after_last(chars.as_slice(), '}');
    proof {
        lemma_find_char(message@, '{');
        lemma_last_place_bounds(message@, '}');
    }
    if end > 0 && start < end - 1 {
        Some(message.substring_char(start, end))
    } else {
        None
    }
}

/// What the outcome of reading a decision says.
pub open spec fn parsed(r: Result<AutomodeDecision, String>) -> Result<DecisionModel, Seq<char>> {
    match r {
        Ok(decision) => Ok(decision@),
        Err(message) => Err(message@),
    }
}

/// Returns the decision in a message, given what came of reading the whole of it, and of reading
/// the object in it, if there is one. The object is only looked at where the whole is no decision.
pub fn parse_decision(
    whole: Result<AutomodeDecision, String>,
    object: Option<Result<AutomodeDecision, String>>,
) -> (r: Result<AutomodeDecision, String>)
    ensures
        parsed(r) == (if whole is Ok || object is None {
            parsed(whole)
        } else {
            parsed(object->0)
        }),
{
    match whole {
        Ok(decision) => Ok(decision),
        Err(message) => match object {
            Some(object) => object,
            None => Err(message),
        },
    }
}

/// Returns a text as it stands in a table cell.
pub fn escape_table(value: &str) -> (r: String)
    ensures
        r@ == escaped(value@),
{
    let mut r = String::new();
    assert(value@.take(0) =~= seq![]);
    for c in it: value.chars()
        invariant
            it.seq() == value@,
            r@ == escaped(value@.take(it.index() as int)),
    {
        let ghost done = it.index() as int;
        assert(value@.take(done + 1).drop_last() =~= value@.take(done));
        if c == '|' {
            r.push('\\');
            r.push('|');
        } else if c == '\n' {
            r.push(' ');
        } else {
            r.push(c);
        }
        assert(r@ =~= escaped(value@.take(done)) + escape_char(c));
    }
    assert(value@.take(value@.len() as int) =~= value@);
    r
}

fn direction_word(direction: MetricDirection) -> (r: &'static str)
    ensures
        r@ == direction_text(direction),
{
    match direction {
        MetricDirection::Increase => "Increase",
        MetricDirection::Decrease => "Decrease",
        MetricDirection::Equal => "Equal",
    }
}

fn render_metric_row(metric: &AutomodeMetric, numbers: &MetricNumbers) -> (r: String)
    ensures
        r@ == metric_row(metric@, numbers@),
{
    let name = escape_table(metric.name.as_str());
    let unit = escape_table(metric.unit.as_str());
    let method = escape_table(metric.measurement_method.as_str());
    let mut r = "| ".to_owned();
    r.append(name.as_str());
    r.append(" | ");
    r.append(numbers.baseline.as_str());
    r.append(" | ");
    r.append(numbers.current.as_str());
    r.append(" | ");
    r.append(numbers.target.as_str());
    r.append(" | ");
    r.append(direction_word(metric.direction));
    r.append(" | ");
    r.append(unit.as_str());
    r.append(" | ");
    r.append(method.as_str());
    r.append(" |\n");
    r
}

fn render_metric_rows(metrics: &Vec<AutomodeMetric>, numbers: &Vec<MetricNumbers>) -> (r: String)
    requires
        metrics@.len() == numbers@.len(),
    ensures
        r@ == metric_rows(metric_models(metrics@), number_models(numbers@)),
{
    let mut r = String::new();
    let mut i: usize = 0;
    let ghost rows = metric_models(metrics@);
    let ghost cells = number_models(numbers@);
    assert(rows.take(0) =~= seq![]);
    while i < metrics.len()
        invariant
            i <= metrics.len(),
            metrics@.len() == numbers@.len(),
            rows == metric_models(metrics@),
            cells == number_models(numbers@),
            r@ == metric_rows(rows.take(i as int), cells),
        decreases metrics.len() - i,
    {
        assert(rows.take(i + 1).drop_last() =~= rows.take(i as int));
        let row = render_metric_row(&metrics[i], &numbers[i]);
        r.append(row.as_str());
        i += 1;
    }
    assert(rows.take(rows.len() as int) =~= rows);
    r
}

fn render_bullets(items: &Vec<String>) -> (r: String)
    ensures
        r@ == bullets(texts(items@)),
{
    if items.len() == 0 {
        return "- None\n".to_owned();
    }
    let mut r = String::new();
    let mut i: usize = 0;
    let ghost all = texts(items@);
    assert(all.take(0) =~= seq![]);
    while i < items.len()
        invariant
            i <= items.len(),
            all == texts(items@),
            r@ == bullet_lines(all.take(i as int)),
        decreases items.len() - i,
    {
        assert(all.take(i + 1).drop_last() =~= all.take(i as int));
        let line = concat3("- ", trim(items[i].as_str()), "\n");
        r.append(line.as_str());
        i += 1;
    }
    assert(all.take(all.len() as int) =~= all);
    r
}

/// Returns the progress document that holds a decision, given the numbers of its metrics.
pub fn render_progress_document(
    state: &AutomodeState,
    decision: &AutomodeDecision,
    numbers: &Vec<MetricNumbers>,
) -> (r: String)
    requires
        numbers@.len() == decision.metrics@.len(),
    ensures
        r@ == progress_document(state@, decision@, number_models(numbers@)),
{
    let started_at = decimal_string_signed(state.started_at);
    let deadline_at = decimal_string_signed(state.deadline_at);
    let iteration = decimal_string(state.iteration);
    let rows = render_metric_rows(&decision.metrics, numbers);
    let learned = render_bullets(&decision.learned);
    let changes = render_bullets(&decision.document_changes);
    let mut body = "Project: ".to_owned();
    body.append(state.project.as_str());
    body.append("\n\nStarted at: ");
    body.append(started_at.as_str());
    body.append("\n\nDeadline at: ");
    body.append(deadline_at.as_str());
    body.append("\n\nIteration: ");
    body.append(iteration.as_str());
    body.append(
        "\n\n## Metrics\n\n| Name | Baseline | Current | Target | Direction | Unit | Measurement |\n| --- | ---: | ---: | ---: | --- | --- | --- |\n",
    );
    body.append(rows.as_str());
    body.append("\n## Assessment\n\n");
    body.append(trim(decision.assessment.as_str()));
    body.append("\n\n## Learnings\n\n");
    body.append(learned.as_str());
    body.append("\n## Document Changes\n\n");
    body.append(changes.as_str());
    body.append("\n## Next Prompt\n\n");
    body.append(trim(decision.next_prompt.as_str()));
    body.append("\n");
    let mut r = "# Automode Progress\n\nGoal: ".to_owned();
    r.append(state.goal.as_str());
    r.append("\n\n");
    r.append(body.as_str());
    r
}

/// Takes a decision: writes it into the progress document and keeps it as the last one.
pub fn apply_decision(
    state: &mut AutomodeState,
    decision: AutomodeDecision,
    numbers: &Vec<MetricNumbers>,
)
    requires
        numbers@.len() == decision.metrics@.len(),
    ensures
        final(state)@ == decided(old(state)@, decision@, number_models(numbers@)),
{
    let document = render_progress_document(state, &decision, numbers);
    state.progress_document = document;
    state.last_decision = Some(decision);
}

} // verus!
