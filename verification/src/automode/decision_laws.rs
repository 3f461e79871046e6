//! What the progress document and the prompts hold, and what becomes of a decision.
use crate::automode::decision::{
    apply_decision, braced, bullet_lines, bullets, chosen_task, decided, direction_text,
    document_body, escape_table, escaped, extract_json_object, fallback, fallback_decision,
    fallback_task, metric_row, metric_rows, next_worker_prompt, normalize_decision, normalized,
    number_models, operator_prompt, operator_question, progress_document, render_progress_document,
    worker_question, MetricNumbers, NumbersModel,
};
use crate::automode::state::PROGRESS_DOC_FILE;
use crate::automode::types::{
    AutomodeDecision, AutomodeState, DecisionModel, MetricDirection, MetricModel, StateModel,
};
use crate::paths::{joined, PathRules};
use crate::text::{
    chop_cr, decimal, decimal_signed, find_char, holds, holds_at, is_space, join_of, last_place,
    lemma_find_char, lemma_holds_behind, lemma_holds_end, lemma_holds_further,
    lemma_holds_neighbours, lemma_last_place_absent, lemma_last_place_bounds, lemma_lines_cons,
    lemma_run_on, lemma_run_one, lemma_trim_bounds, lines_of, one_line, run_together, texts,
    trim_of,
};
use vstd::prelude::*;

verus! {

/// Of a list, every item is one bullet, in order, and that there is nothing to list is said only
/// where there is nothing.
pub proof fn law_every_item_is_a_bullet(items: Seq<Seq<char>>, item: Seq<char>)
    ensures
        bullets(Seq::<Seq<char>>::empty()) == "- None\n"@,
        bullets(items.push(item)) == (if items.len() == 0 {
            seq![]
        } else {
            bullets(items)
        }) + ("- "@ + trim_of(item) + "\n"@),
{
    reveal_with_fuel(bullet_lines, 2);
    assert(items.push(item).drop_last() =~= items);
    assert(items.push(item).last() == item);
}

/// The lines of a text that ends in a line feed, with one more line that does, too.
proof fn lemma_lines_ended(s: Seq<char>, line: Seq<char>)
    requires
        one_line(line),
        chop_cr(line) == line,
        s.len() == 0 || s.last() == '\n',
    ensures
        lines_of(s + (line + "\n"@)) == lines_of(s).push(line),
    decreases s.len(),
{
    reveal_strlit("\n");
    let more = line + "\n"@;
    if s.len() == 0 {
        assert(s + more =~= line + "\n"@ + seq![]);
        lemma_lines_cons(line, seq![]);
        assert(lines_of(Seq::<char>::empty()) =~= seq![]);
        assert(lines_of(s) =~= seq![]);
        assert(lines_of(s + more) =~= lines_of(s).push(line));
    } else {
        lemma_find_char(s, '\n');
        let end = find_char(s, '\n') as int;
        assert(s[s.len() - 1] == '\n');
        let head = s.take(end);
        let tail = s.skip(end + 1);
        assert(one_line(head));
        assert(tail.len() > 0 ==> tail.last() == s.last());
        lemma_lines_ended(tail, line);
        assert(s =~= head + "\n"@ + tail);
        assert(s + more =~= head + "\n"@ + (tail + more));
        lemma_lines_cons(head, tail);
        lemma_lines_cons(head, tail + more);
        assert(lines_of(s + more) =~= lines_of(s).push(line));
    }
}

/// Read line by line, a section lists its items: as many lines as there are items, and the one at
/// each place is the bullet of the item at that place.
pub proof fn law_bullets_line_by_line(items: Seq<Seq<char>>)
    requires
        items.len() > 0,
        forall|i: int| 0 <= i < items.len() ==> one_line(#[trigger] items[i]),
    ensures
        lines_of(bullets(items)).len() == items.len(),
        forall|i: int|
            0 <= i < items.len() ==> #[trigger] lines_of(bullets(items))[i] == "- "@ + trim_of(
                items[i],
            ),
{
    lemma_bullet_lines(items);
}

proof fn lemma_bullet_lines(items: Seq<Seq<char>>)
    requires
        forall|i: int| 0 <= i < items.len() ==> one_line(#[trigger] items[i]),
    ensures
        lines_of(bullet_lines(items)).len() == items.len(),
        bullet_lines(items).len() == 0 || bullet_lines(items).last() == '\n',
        forall|i: int|
            0 <= i < items.len() ==> #[trigger] lines_of(bullet_lines(items))[i] == "- "@
                + trim_of(items[i]),
    decreases items.len(),
{
    if items.len() > 0 {
        let before = items.drop_last();
        let last = items.last();
        assert forall|i: int| 0 <= i < before.len() implies one_line(#[trigger] before[i]) by {
            assert(before[i] == items[i]);
        }
        lemma_bullet_lines(before);
        assert(one_line(items[items.len() - 1]));
        let line = "- "@ + trim_of(last);
        let (i, j) = lemma_trim_bounds(last);
        reveal_strlit("- ");
        reveal_strlit("\n");
        assert forall|k: int| 0 <= k < line.len() implies #[trigger] line[k] != '\n' by {
            if k >= 2 {
                assert(line[k] == last[i + k - 2]);
            }
        }
        assert(chop_cr(line) == line) by {
            if i < j {
                assert(line.last() == last[j - 1]);
                assert(!is_space(last[j - 1]));
            }
        }
        lemma_lines_ended(bullet_lines(before), line);
        assert(bullet_lines(items).last() == '\n');
    }
}

/// Of metrics, every one is a row of the table, in order, with its own numbers.
pub proof fn law_every_metric_is_a_row(
    metrics: Seq<MetricModel>,
    numbers: Seq<NumbersModel>,
    metric: MetricModel,
    number: NumbersModel,
)
    requires
        metrics.len() == numbers.len(),
    ensures
        metric_rows(Seq::<MetricModel>::empty(), numbers).len() == 0,
        metric_rows(metrics.push(metric), numbers.push(number)) == metric_rows(metrics, numbers)
            + metric_row(metric, number),
{
    assert(metrics.push(metric).drop_last() =~= metrics);
    lemma_rows_of_longer(metrics, numbers, number);
}

proof fn lemma_rows_of_longer(
    metrics: Seq<MetricModel>,
    numbers: Seq<NumbersModel>,
    number: NumbersModel,
)
    requires
        metrics.len() <= numbers.len(),
    ensures
        metric_rows(metrics, numbers.push(number)) == metric_rows(metrics, numbers),
    decreases metrics.len(),
{
    if metrics.len() > 0 {
        lemma_rows_of_longer(metrics.drop_last(), numbers, number);
    }
}

/// The cells of a row come in the order of the table's columns: name, baseline, current, target,
/// direction, unit, measurement.
pub proof fn law_cells_of_a_row(metric: MetricModel, numbers: NumbersModel)
    ensures
        metric_row(metric, numbers) == "| "@ + join_of(
            seq![
                escaped(metric.name),
                numbers.baseline,
                numbers.current,
                numbers.target,
                match metric.direction {
                    MetricDirection::Increase => "Increase"@,
                    MetricDirection::Decrease => "Decrease"@,
                    MetricDirection::Equal => "Equal"@,
                },
                escaped(metric.unit),
                escaped(metric.measurement_method),
            ],
            " | "@,
        ) + " |\n"@,
{
    let bar = " | "@;
    let c1 = seq![escaped(metric.name)];
    let c2 = c1.push(numbers.baseline);
    let c3 = c2.push(numbers.current);
    let c4 = c3.push(numbers.target);
    let c5 = c4.push(direction_text(metric.direction));
    let c6 = c5.push(escaped(metric.unit));
    let c7 = c6.push(escaped(metric.measurement_method));
    lemma_join_push(c1, numbers.baseline, bar);
    lemma_join_push(c2, numbers.current, bar);
    lemma_join_push(c3, numbers.target, bar);
    lemma_join_push(c4, direction_text(metric.direction), bar);
    lemma_join_push(c5, escaped(metric.unit), bar);
    lemma_join_push(c6, escaped(metric.measurement_method), bar);
    assert(join_of(c1, bar) == escaped(metric.name));
    let open = "| "@;
    lemma_shift(open, escaped(metric.name), bar, numbers.baseline);
    lemma_shift(open, join_of(c2, bar), bar, numbers.current);
    lemma_shift(open, join_of(c3, bar), bar, numbers.target);
    lemma_shift(open, join_of(c4, bar), bar, direction_text(metric.direction));
    lemma_shift(open, join_of(c5, bar), bar, escaped(metric.unit));
    lemma_shift(open, join_of(c6, bar), bar, escaped(metric.measurement_method));
    assert(seq![
        escaped(metric.name),
        numbers.baseline,
        numbers.current,
        numbers.target,
        direction_text(metric.direction),
        escaped(metric.unit),
        escaped(metric.measurement_method),
    ] =~= c7);
}

proof fn lemma_join_push(parts: Seq<Seq<char>>, part: Seq<char>, sep: Seq<char>)
    requires
        parts.len() > 0,
    ensures
        join_of(parts.push(part), sep) == join_of(parts, sep) + sep + part,
{
    assert(parts.push(part).drop_last() =~= parts);
}

proof fn lemma_shift(a: Seq<char>, b: Seq<char>, c: Seq<char>, d: Seq<char>)
    ensures
        a + b + c + d == a + (b + c + d),
{
    assert(a + b + c + d =~= a + (b + c + d));
}

/// A cell says what its text says: it is written character by character, where a bar is escaped
/// and a line break becomes a space, and nothing else changes.
pub proof fn law_cells_say_their_text(s: Seq<char>, t: Seq<char>)
    ensures
        escaped(s + t) == escaped(s) + escaped(t),
        escaped(seq!['|']) == seq!['\\', '|'],
        escaped(seq!['\n']) == seq![' '],
        forall|c: char| c != '|' && c != '\n' ==> #[trigger] escaped(seq![c]) == seq![c],
        !s.contains('|') && !s.contains('\n') ==> escaped(s) == s,
    decreases t.len(), s.len(),
{
    assert forall|c: char| #[trigger] escaped(seq![c])
        == crate::automode::decision::escape_char(c) by {
        assert(seq![c].drop_last() =~= seq![]);
        assert(escaped(seq![c].drop_last()) =~= seq![]);
        assert(escaped(seq![c]) =~= crate::automode::decision::escape_char(c));
    }
    assert(escaped(seq!['|']) == seq!['\\', '|']);
    assert(escaped(seq!['\n']) == seq![' ']);
    if t.len() == 0 {
        assert(s + t =~= s);
        assert(escaped(s) + escaped(t) =~= escaped(s));
        if s.len() > 0 && !s.contains('|') && !s.contains('\n') {
            let before = s.drop_last();
            assert(!before.contains('|')) by {
                if before.contains('|') {
                    let k = choose|k: int| 0 <= k < before.len() && before[k] == '|';
                    assert(s[k] == '|');
                }
            }
            assert(!before.contains('\n')) by {
                if before.contains('\n') {
                    let k = choose|k: int| 0 <= k < before.len() && before[k] == '\n';
                    assert(s[k] == '\n');
                }
            }
            law_cells_say_their_text(before, seq![]);
            assert(s.contains(s.last()));
            assert(escaped(s) =~= s);
        }
        if s.len() == 0 {
            assert(escaped(s) =~= s);
        }
    } else {
        law_cells_say_their_text(s, t.drop_last());
        assert((s + t).drop_last() =~= s + t.drop_last());
        assert((s + t).last() == t.last());
        let last = crate::automode::decision::escape_char(t.last());
        assert(escaped(s) + escaped(t.drop_last()) + last =~= escaped(s) + (escaped(t.drop_last())
            + last));
        law_cells_say_their_text(s, seq![]);
    }
}

/// Every part of a decision, and of the run that it is taken in, can be read in the progress
/// document, each under its heading and before the next one.
pub proof fn law_decisions_can_be_read(
    state: StateModel,
    decision: DecisionModel,
    numbers: Seq<NumbersModel>,
)
    ensures
        ({
            let document = progress_document(state, decision, numbers);
            let table =
                "\n\n## Metrics\n\n| Name | Baseline | Current | Target | Direction | Unit | Measurement |\n| --- | ---: | ---: | ---: | --- | --- | --- |\n"@;
            &&& ("# Automode Progress\n\nGoal: "@ + state.goal + "\n\n"@).is_prefix_of(document)
            &&& holds(document, "Project: "@ + state.project + "\n\nStarted at: "@)
            &&& holds(
                document,
                "\n\nStarted at: "@ + decimal_signed(state.started_at as int)
                    + "\n\nDeadline at: "@,
            )
            &&& holds(
                document,
                "\n\nDeadline at: "@ + decimal_signed(state.deadline_at as int)
                    + "\n\nIteration: "@,
            )
            &&& holds(document, "\n\nIteration: "@ + decimal(state.iteration as nat) + table)
            &&& holds(
                document,
                table + metric_rows(decision.metrics, numbers) + "\n## Assessment\n\n"@,
            )
            &&& holds(
                document,
                "\n## Assessment\n\n"@ + trim_of(decision.assessment) + "\n\n## Learnings\n\n"@,
            )
            &&& holds(
                document,
                "\n\n## Learnings\n\n"@ + bullets(decision.learned) + "\n## Document Changes\n\n"@,
            )
            &&& holds(
                document,
                "\n## Document Changes\n\n"@ + bullets(decision.document_changes)
                    + "\n## Next Prompt\n\n"@,
            )
            &&& ("\n## Next Prompt\n\n"@ + trim_of(decision.next_prompt) + "\n"@).is_suffix_of(
                document,
            )
        }),
{
    let table =
        "\n\n## Metrics\n\n| Name | Baseline | Current | Target | Direction | Unit | Measurement |\n| --- | ---: | ---: | ---: | --- | --- | --- |\n"@;
    let body = document_body(state, decision, numbers);
    let p1 = seq!["Project: "@];
    let p2 = p1.push(state.project);
    let p3 = p2.push("\n\nStarted at: "@);
    let p4 = p3.push(decimal_signed(state.started_at as int));
    let p5 = p4.push("\n\nDeadline at: "@);
    let p6 = p5.push(decimal_signed(state.deadline_at as int));
    let p7 = p6.push("\n\nIteration: "@);
    let p8 = p7.push(decimal(state.iteration as nat));
    let p9 = p8.push(table);
    let p10 = p9.push(metric_rows(decision.metrics, numbers));
    let p11 = p10.push("\n## Assessment\n\n"@);
    let p12 = p11.push(trim_of(decision.assessment));
    let p13 = p12.push("\n\n## Learnings\n\n"@);
    let p14 = p13.push(bullets(decision.learned));
    let p15 = p14.push("\n## Document Changes\n\n"@);
    let p16 = p15.push(bullets(decision.document_changes));
    let p17 = p16.push("\n## Next Prompt\n\n"@);
    let p18 = p17.push(trim_of(decision.next_prompt));
    let parts = p18.push("\n"@);
    lemma_run_one("Project: "@);
    lemma_run_on(p1, state.project);
    lemma_run_on(p2, "\n\nStarted at: "@);
    lemma_run_on(p3, decimal_signed(state.started_at as int));
    lemma_run_on(p4, "\n\nDeadline at: "@);
    lemma_run_on(p5, decimal_signed(state.deadline_at as int));
    lemma_run_on(p6, "\n\nIteration: "@);
    lemma_run_on(p7, decimal(state.iteration as nat));
    lemma_run_on(p8, table);
    lemma_run_on(p9, metric_rows(decision.metrics, numbers));
    lemma_run_on(p10, "\n## Assessment\n\n"@);
    lemma_run_on(p11, trim_of(decision.assessment));
    lemma_run_on(p12, "\n\n## Learnings\n\n"@);
    lemma_run_on(p13, bullets(decision.learned));
    lemma_run_on(p14, "\n## Document Changes\n\n"@);
    lemma_run_on(p15, bullets(decision.document_changes));
    lemma_run_on(p16, "\n## Next Prompt\n\n"@);
    lemma_run_on(p17, trim_of(decision.next_prompt));
    lemma_run_on(p18, "\n"@);
    assert(body == run_together(parts));
    let head = "# Automode Progress\n\nGoal: "@ + state.goal + "\n\n"@;
    let document = progress_document(state, decision, numbers);
    assert(document == head + body);
    lemma_part(head, parts, 0);
    lemma_part(head, parts, 2);
    lemma_part(head, parts, 4);
    lemma_part(head, parts, 6);
    lemma_part(head, parts, 8);
    lemma_part(head, parts, 10);
    lemma_part(head, parts, 12);
    lemma_part(head, parts, 14);
    lemma_start_and_end(
        head,
        run_together(p16),
        "\n## Next Prompt\n\n"@,
        trim_of(decision.next_prompt),
        "\n"@,
    );
}

proof fn lemma_part(head: Seq<char>, parts: Seq<Seq<char>>, i: int)
    requires
        0 <= i,
        i + 2 < parts.len(),
    ensures
        holds(head + run_together(parts), parts[i] + parts[i + 1] + parts[i + 2]),
{
    lemma_holds_neighbours(parts, i);
    lemma_holds_behind(head, run_together(parts), parts[i] + parts[i + 1] + parts[i + 2]);
}

proof fn lemma_start_and_end(
    head: Seq<char>,
    middle: Seq<char>,
    a: Seq<char>,
    b: Seq<char>,
    c: Seq<char>,
)
    ensures
        head.is_prefix_of(head + (middle + a + b + c)),
        (a + b + c).is_suffix_of(head + (middle + a + b + c)),
{
    let all = head + (middle + a + b + c);
    let end = a + b + c;
    assert(head =~= all.subrange(0, head.len() as int));
    assert(end =~= all.subrange(all.len() - end.len(), all.len() as int));
}

/// Where the operator left no gap, its decision is taken as it is. Only a prompt that is blank is
/// replaced, by a task that names the goal, and only a list without metrics is replaced, by one
/// metric that goes from nothing to a hundred percent.
pub proof fn law_only_gaps_are_filled(decision: DecisionModel, goal: Seq<char>)
    ensures
        ({
            let done = normalized(decision, goal);
            &&& done.assessment == decision.assessment
            &&& done.learned == decision.learned
            &&& done.document_changes == decision.document_changes
            &&& trim_of(decision.next_prompt).len() > 0 ==> done.next_prompt
                == decision.next_prompt
            &&& trim_of(decision.next_prompt).len() == 0 ==> holds(done.next_prompt, goal)
            &&& decision.metrics.len() > 0 ==> done.metrics == decision.metrics
            &&& decision.metrics.len() == 0 ==> is_progress_in_percent(done.metrics)
        }),
{
    lemma_task_names_the_goal(goal);
}

/// A list of one metric, which goes up from nothing to a hundred percent.
pub open spec fn is_progress_in_percent(metrics: Seq<MetricModel>) -> bool {
    &&& metrics.len() == 1
    &&& metrics[0].name == "goal_progress_percent"@
    &&& metrics[0].unit == "percent"@
    &&& metrics[0].direction == MetricDirection::Increase
    &&& metrics[0].baseline == 0
    &&& metrics[0].current == 0
    &&& metrics[0].target == 0x4059_0000_0000_0000
}

proof fn lemma_task_names_the_goal(goal: Seq<char>)
    ensures
        holds(fallback_task(goal), goal),
{
    let start = "Continue making measurable progress toward this goal: "@;
    lemma_holds_end(start, goal);
    lemma_holds_further(
        start + goal,
        goal,
        ". Inspect the repository, identify the highest-impact incomplete validation or implementation step, execute it, and report concrete evidence."@,
    );
}

/// The decision that stands in for one that could not be read keeps the metrics of the last
/// decision that had any, names the reason in its assessment and in what was learned, and goes on
/// with the goal.
pub proof fn law_stand_ins_keep_the_metrics(state: StateModel, reason: Seq<char>)
    ensures
        ({
            let done = fallback(state, reason);
            let kept = state.last_decision is Some && state.last_decision->0.metrics.len() > 0;
            &&& kept ==> done.metrics == state.last_decision->0.metrics
            &&& !kept ==> is_progress_in_percent(done.metrics)
            &&& holds(done.assessment, reason)
            &&& done.learned.len() == 1
            &&& holds(done.learned[0], reason)
            &&& done.document_changes.len() == 1
            &&& holds(done.next_prompt, state.goal)
        }),
{
    lemma_task_names_the_goal(state.goal);
    let start = "The operator response was invalid ("@;
    lemma_holds_end(start, reason);
    lemma_holds_further(
        start + reason,
        reason,
        "). Automode preserved the previous metrics and will continue with a conservative next step."@,
    );
    lemma_holds_end("Operator output must stay valid JSON; last parse issue: "@, reason);
}

/// A decision that is taken is kept as the last one and written down, and nothing else of the
/// state changes.
pub proof fn law_taking_a_decision(
    state: StateModel,
    decision: DecisionModel,
    numbers: Seq<NumbersModel>,
)
    ensures
        ({
            let after = decided(state, decision, numbers);
            &&& after.last_decision == Some(decision)
            &&& after.progress_document == progress_document(state, decision, numbers)
            &&& after == (StateModel {
                last_decision: after.last_decision,
                progress_document: after.progress_document,
                ..state
            })
        }),
{
}

/// The operator is told the project, the state directory and the goal, and shown the progress
/// document and the last worker turn.
pub proof fn law_what_the_operator_is_shown(
    project: Seq<char>,
    state_dir: Seq<char>,
    state: StateModel,
    worker_summary: Seq<char>,
)
    ensures
        ({
            let question = operator_question(project, state_dir, state, worker_summary);
            let rules =
                "\n\nRules:\n- Return only JSON matching the supplied schema.\n- Keep metrics numeric, measurable, and tied to fixed baselines and targets.\n- Decide whether the last worker turn moved the project closer to the goal using those metrics.\n- Update the metrics or measurement methods when you learned something useful.\n- Always produce a non-empty next_prompt. Do not stop because the goal looks complete; choose quality, tests, docs, cleanup, or harder validation next.\n- Do not ask the user for input.\n\nCurrent progress document:\n```markdown\n"@;
            &&& holds(question, project + "\nThe automode state directory is: "@ + state_dir)
            &&& holds(question, state_dir + "\nThe fixed goal is:\n"@ + state.goal)
            &&& holds(question, state.goal + rules + state.progress_document)
            &&& holds(
                question,
                state.progress_document + "\n```\n\nLast worker turn summary:\n```json\n"@
                    + worker_summary,
            )
        }),
{
    let rules =
        "\n\nRules:\n- Return only JSON matching the supplied schema.\n- Keep metrics numeric, measurable, and tied to fixed baselines and targets.\n- Decide whether the last worker turn moved the project closer to the goal using those metrics.\n- Update the metrics or measurement methods when you learned something useful.\n- Always produce a non-empty next_prompt. Do not stop because the goal looks complete; choose quality, tests, docs, cleanup, or harder validation next.\n- Do not ask the user for input.\n\nCurrent progress document:\n```markdown\n"@;
    let first =
        "You are the simulated human operator for Codex automode.\n\nYou must read the progress document below before choosing the next step.\nThe project path is: "@;
    let p1 = seq![first];
    let p2 = p1.push(project);
    let p3 = p2.push("\nThe automode state directory is: "@);
    let p4 = p3.push(state_dir);
    let p5 = p4.push("\nThe fixed goal is:\n"@);
    let p6 = p5.push(state.goal);
    let p7 = p6.push(rules);
    let p8 = p7.push(state.progress_document);
    let p9 = p8.push("\n```\n\nLast worker turn summary:\n```json\n"@);
    let p10 = p9.push(worker_summary);
    let parts = p10.push("\n```\n"@);
    lemma_run_one(first);
    lemma_run_on(p1, project);
    lemma_run_on(p2, "\nThe automode state directory is: "@);
    lemma_run_on(p3, state_dir);
    lemma_run_on(p4, "\nThe fixed goal is:\n"@);
    lemma_run_on(p5, state.goal);
    lemma_run_on(p6, rules);
    lemma_run_on(p7, state.progress_document);
    lemma_run_on(p8, "\n```\n\nLast worker turn summary:\n```json\n"@);
    lemma_run_on(p9, worker_summary);
    lemma_run_on(p10, "\n```\n"@);
    assert(operator_question(project, state_dir, state, worker_summary) == run_together(parts));
    lemma_holds_neighbours(parts, 1);
    lemma_holds_neighbours(parts, 3);
    lemma_holds_neighbours(parts, 5);
    lemma_holds_neighbours(parts, 7);
}

/// The worker is told where the progress document is, what the goal is, and what to do: what the
/// last decision says, if it says anything.
pub proof fn law_what_the_worker_is_told(
    separator: char,
    state: StateModel,
    state_dir: Seq<char>,
)
    ensures
        ({
            let question = worker_question(separator, state, state_dir);
            let task = match state.last_decision {
                Some(decision) => trim_of(decision.next_prompt),
                None => seq![],
            };
            &&& holds(
                question,
                joined(separator, state_dir, PROGRESS_DOC_FILE@) + "\n\nGoal:\n"@ + state.goal,
            )
            &&& task.len() > 0 ==> holds(
                question,
                state.goal + "\n\nTask selected by the simulated operator:\n"@ + task,
            )
            &&& task.len() == 0 ==> holds(
                question,
                state.goal + "\n\nTask selected by the simulated operator:\n"@
                    + "Continue working toward the automode goal."@,
            )
        }),
{
    let first =
        "You are running inside Codex automode.\n\nRead the automode progress document before doing work:\n"@;
    let last =
        "\n\nOperate autonomously. Do not ask the user for input. If this \
         task appears complete, use the remaining turn to improve verification, tests, documentation, or cleanup that measurably moves the goal forward.\n"@;
    let path = joined(separator, state_dir, PROGRESS_DOC_FILE@);
    let p1 = seq![first];
    let p2 = p1.push(path);
    let p3 = p2.push("\n\nGoal:\n"@);
    let p4 = p3.push(state.goal);
    let p5 = p4.push("\n\nTask selected by the simulated operator:\n"@);
    let p6 = p5.push(chosen_task(state.last_decision));
    let parts = p6.push(last);
    lemma_run_one(first);
    lemma_run_on(p1, path);
    lemma_run_on(p2, "\n\nGoal:\n"@);
    lemma_run_on(p3, state.goal);
    lemma_run_on(p4, "\n\nTask selected by the simulated operator:\n"@);
    lemma_run_on(p5, chosen_task(state.last_decision));
    lemma_run_on(p6, last);
    assert(worker_question(separator, state, state_dir) == run_together(parts));
    lemma_holds_neighbours(parts, 1);
    lemma_holds_neighbours(parts, 3);
}

/// No object is found in a text without an opening brace, without a closing one, or with all of
/// its closing braces before all of its opening ones. What is found starts with an opening brace,
/// ends in a closing one, and stands in the text.
pub proof fn law_what_an_object_is(s: Seq<char>)
    ensures
        !s.contains('{') || !s.contains('}') ==> braced(s) is None,
        (forall|i: int, j: int|
            0 <= i < s.len() && 0 <= j < s.len() && #[trigger] s[i] == '{' && #[trigger] s[j] == '}'
                ==> j < i) ==> braced(s) is None,
        braced(s) matches Some(object) ==> object.len() >= 2 && object[0] == '{' && object.last()
            == '}' && holds(s, object),
{
    lemma_find_char(s, '{');
    lemma_last_place_bounds(s, '}');
    let start = find_char(s, '{') as int;
    let end = last_place(s, '}');
    if !s.contains('}') {
        lemma_last_place_absent(s, '}');
    }
    if start < end {
        assert(s[start] == '{');
        assert(s[end] == '}');
        let object = s.subrange(start, end + 1);
        lemma_holds_end(s.take(start), object);
        lemma_holds_further(s.take(start) + object, object, s.skip(end + 1));
        assert(s.take(start) + object + s.skip(end + 1) =~= s);
    }
}

/// What is written down of a decision: every part of it, under its heading and before the next one.
/// Taking the decision writes the same, keeps it as the last one, and changes nothing else.
pub proof fn law_writing_a_decision(
    state: &mut AutomodeState,
    decision: AutomodeDecision,
    numbers: &Vec<MetricNumbers>,
    document: String,
)
    requires
        call_ensures(render_progress_document, (old(state), &decision, numbers), document),
        call_ensures(apply_decision, (state, decision, numbers), ()),
    ensures
        final(state)@.progress_document == document@,
        final(state)@.last_decision == Some(decision@),
        final(state)@ == (StateModel {
            progress_document: final(state)@.progress_document,
            last_decision: final(state)@.last_decision,
            ..old(state)@
        }),
        ("# Automode Progress\n\nGoal: "@ + old(state)@.goal + "\n\n"@).is_prefix_of(document@),
        holds(
            document@,
            "\n## Assessment\n\n"@ + trim_of(decision@.assessment) + "\n\n## Learnings\n\n"@,
        ),
        holds(
            document@,
            "\n\n## Learnings\n\n"@ + bullets(decision@.learned) + "\n## Document Changes\n\n"@,
        ),
        holds(
            document@,
            "\n## Document Changes\n\n"@ + bullets(decision@.document_changes)
                + "\n## Next Prompt\n\n"@,
        ),
        holds(
            document@,
            "| --- | ---: | ---: | ---: | --- | --- | --- |\n"@ + metric_rows(
                decision@.metrics,
                number_models(numbers@),
            ) + "\n## Assessment\n\n"@,
        ),
        ("\n## Next Prompt\n\n"@ + trim_of(decision@.next_prompt) + "\n"@).is_suffix_of(document@),
{
    let rows = metric_rows(decision@.metrics, number_models(numbers@));
    law_decisions_can_be_read(old(state)@, decision@, number_models(numbers@));
    lemma_table_head(document@, rows, "\n## Assessment\n\n"@);
}

proof fn lemma_table_head(document: Seq<char>, rows: Seq<char>, next: Seq<char>)
    requires
        holds(
            document,
            "\n\n## Metrics\n\n| Name | Baseline | Current | Target | Direction | Unit | Measurement |\n| --- | ---: | ---: | ---: | --- | --- | --- |\n"@
                + rows + next,
        ),
    ensures
        holds(
            document,
            "| --- | ---: | ---: | ---: | --- | --- | --- |\n"@ + rows + next,
        ),
{
    reveal(holds);
    let head =
        "\n\n## Metrics\n\n| Name | Baseline | Current | Target | Direction | Unit | Measurement |\n"@;
    let line = "| --- | ---: | ---: | ---: | --- | --- | --- |\n"@;
    let both =
        "\n\n## Metrics\n\n| Name | Baseline | Current | Target | Direction | Unit | Measurement |\n| --- | ---: | ---: | ---: | --- | --- | --- |\n"@;
    assert(both == head + line) by {
        reveal_strlit(
            "\n\n## Metrics\n\n| Name | Baseline | Current | Target | Direction | Unit | Measurement |\n",
        );
        reveal_strlit("| --- | ---: | ---: | ---: | --- | --- | --- |\n");
        reveal_strlit(
            "\n\n## Metrics\n\n| Name | Baseline | Current | Target | Direction | Unit | Measurement |\n| --- | ---: | ---: | ---: | --- | --- | --- |\n",
        );
        assert(both =~= head + line);
    }
    let whole = both + rows + next;
    let part = line + rows + next;
    let i = choose|i: int| #[trigger] holds_at(document, whole, i);
    let place = i + head.len();
    assert(whole =~= head + part);
    assert(part =~= whole.subrange(head.len() as int, whole.len() as int));
    assert(document.subrange(place, place + part.len()) =~= document.subrange(
        i,
        i + whole.len(),
    ).subrange(head.len() as int, whole.len() as int));
    assert(holds_at(document, part, place));
}

/// The operator is asked the same where there was no worker turn as where its summary is `null`,
/// and is shown the document and the goal of the state that it is asked about.
pub proof fn law_asking_the_operator(
    project: &str,
    state_dir: &str,
    state: &AutomodeState,
    summary: &str,
    first: String,
    later: String,
)
    requires
        call_ensures(
            operator_prompt,
            (project, state_dir, state, None::<&str>),
            first,
        ),
        call_ensures(operator_prompt, (project, state_dir, state, Some(summary)), later),
    ensures
        summary@ == "null"@ ==> first@ == later@,
        holds(
            later@,
            state.progress_document@ + "\n```\n\nLast worker turn summary:\n```json\n"@ + summary@,
        ),
        holds(later@, state_dir@ + "\nThe fixed goal is:\n"@ + state.goal@),
        holds(later@, project@ + "\nThe automode state directory is: "@ + state_dir@),
{
    law_what_the_operator_is_shown(project@, state_dir@, state@, summary@);
}

/// A cell of the table is its text, character by character, and an object is what stands from the
/// first opening to the last closing brace.
pub proof fn law_cells_and_objects(
    value: &str,
    cell: String,
    message: &str,
    object: Option<&str>,
    before: Seq<char>,
    inner: Seq<char>,
    after: Seq<char>,
)
    requires
        call_ensures(escape_table, (value,), cell),
        call_ensures(extract_json_object, (message,), object),
        message@ == before + (seq!['{'] + inner + seq!['}']) + after,
        !before.contains('{'),
        !after.contains('}'),
    ensures
        cell@ == escaped(value@),
        !value@.contains('|') && !value@.contains('\n') ==> cell@ == value@,
        object is Some,
        object->0@ == seq!['{'] + inner + seq!['}'],
{
    law_cells_say_their_text(value@, seq![]);
    let middle = seq!['{'] + inner + seq!['}'];
    assert(middle[0] == '{');
    assert(middle.last() == '}');
    crate::automode::decision::law_embedded_object_is_found(before, middle, after);
}

/// What the worker is asked, what a decision becomes, and what stands in for one, when the
/// functions are called for it.
pub proof fn law_asking_the_worker(
    rules: PathRules,
    state: &AutomodeState,
    state_dir: &str,
    prompt: String,
    decision: AutomodeDecision,
    filled: AutomodeDecision,
    reason: &str,
    stand_in: AutomodeDecision,
)
    requires
        call_ensures(next_worker_prompt, (rules, state, state_dir), prompt),
        call_ensures(normalize_decision, (decision, state), filled),
        call_ensures(fallback_decision, (state, reason), stand_in),
    ensures
        holds(
            prompt@,
            joined(rules@, state_dir@, "progress.md"@) + "\n\nGoal:\n"@ + state.goal@,
        ),
        state.last_decision is Some && trim_of(state.last_decision->0.next_prompt@).len() > 0
            ==> holds(
            prompt@,
            state.goal@ + "\n\nTask selected by the simulated operator:\n"@ + trim_of(
                state.last_decision->0.next_prompt@,
            ),
        ),
        filled.assessment@ == decision.assessment@,
        texts(filled.learned@) == texts(decision.learned@),
        texts(filled.document_changes@) == texts(decision.document_changes@),
        trim_of(decision.next_prompt@).len() > 0 ==> filled.next_prompt@ == decision.next_prompt@,
        trim_of(decision.next_prompt@).len() == 0 ==> holds(filled.next_prompt@, state.goal@),
        decision.metrics@.len() > 0 ==> filled@.metrics == decision@.metrics,
        decision.metrics@.len() == 0 ==> is_progress_in_percent(filled@.metrics),
        holds(stand_in.assessment@, reason@),
        holds(stand_in.next_prompt@, state.goal@),
{
    law_what_the_worker_is_told(rules@, state@, state_dir@);
    law_only_gaps_are_filled(decision@, state@.goal);
    law_stand_ins_keep_the_metrics(state@, reason@);
    assert(decision@.metrics.len() == decision.metrics@.len());
}

} // verus!
