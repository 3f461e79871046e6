//! What a run is set up with, and what all of its turns have in common.
use crate::automode::decision::{
    fallback, law_decisions_are_complete, normalized, parse_decision, parsed, MetricNumbers,
};
use crate::automode::decision_laws::{
    law_only_gaps_are_filled, law_stand_ins_keep_the_metrics, law_what_the_worker_is_told,
};
use crate::automode::run_loop::{
    decision_on, operator_begun, operator_decision, reply_record, started_text, stopped_text,
    thread_settings, turn_request, worker_begun, OperatorReply, Phase, RecordModel, ReplyModel,
    RunLoop, RunModel, RunRecord, ThreadSettings, TurnRequest,
};
use crate::automode::runtime::{
    base_url, check_repository, choose_model, choose_project, choose_provider,
    format_load_config_error, named_project, project_of, resolve_project, run_args, run_overrides,
    warn_ignored_sandbox_flags, AutomodeRunArgs, ProbesModel, ProjectProbes, RunOverrides,
};
use crate::automode::state::state_dir_of;
use crate::automode::turn::check_turn_start;
use crate::automode::types::{AutomodeDecision, AutomodeState, StateModel, TurnRole, TurnSummary};
use crate::cli::{AutomodeArgs, SharedCliOptions};
use crate::paths::{joined, PathRules};
use crate::session::command::RequestModel;
use crate::session::run_state::start_plan;
use crate::text::{
    decimal, decimal_signed, holds, lemma_holds_end, lemma_holds_further, lemma_holds_neighbours,
    lemma_run_on, lemma_run_one, opt_text, run_together, texts,
};
use vstd::prelude::*;

verus! {

/// A turn may be started as long as the run would begin one: before its deadline, whoever's turn
/// it is.
pub proof fn law_when_a_turn_may_start(run: RunModel, now: u128, r: Result<(), String>)
    requires
        call_ensures(check_turn_start, (now, run.deadline), r),
    ensures
        r is Ok <==> now < run.deadline,
        r is Ok <==> worker_begun(run, now).phase == Phase::Worker,
        r is Ok <==> operator_begun(run, now).phase == Phase::Operator,
{
}

/// Interactive and other runs start under the same condition: in a repository, or with the check
/// skipped.
pub proof fn law_where_a_run_may_work(
    separator: char,
    request: RequestModel,
    in_repository: bool,
    r: Result<(), String>,
)
    requires
        call_ensures(check_repository, (request.skip_git_repo_check, in_repository), r),
    ensures
        r is Ok <==> request.skip_git_repo_check || in_repository,
        r is Ok <==> start_plan(separator, request, true, in_repository) is Ok,
        r matches Err(message) ==> start_plan(separator, request, true, in_repository)->Err_0
            == message@,
{
}

/// The directory of the project is the one that was named, where it leads to. If both options name
/// one, they have to lead to the same place, and if neither does, there is none. Whatever is wrong
/// is said, with the path.
pub proof fn law_which_project_is_worked_on(
    project: Option<Seq<char>>,
    cwd: Option<Seq<char>>,
    probes: ProbesModel,
)
    ensures
        project is Some ==> named_project(project, cwd) == project,
        project is None ==> named_project(project, cwd) == cwd,
        project_of(project, cwd, probes) is Ok <==> (project is Some || cwd is Some)
            && probes.chosen is Some && probes.is_dir && (project is Some && cwd is Some
            ==> probes.project is Some && probes.cwd is Some && probes.project == probes.cwd),
        project_of(project, cwd, probes) matches Ok(path) ==> Some(path) == probes.chosen,
        project is None && cwd is None ==> project_of(project, cwd, probes)->Err_0
            == "automode requires --project DIR or -C/--cd DIR"@,
        project is Some && cwd is Some && probes.project is None ==> holds(
            project_of(project, cwd, probes)->Err_0,
            project->0,
        ),
        project is Some && cwd is Some && probes.project is Some && probes.cwd is None ==> holds(
            project_of(project, cwd, probes)->Err_0,
            cwd->0,
        ),
{
    if project is Some {
        lemma_holds_end("failed to resolve --project "@, project->0);
    }
    if cwd is Some {
        lemma_holds_end("failed to resolve -C/--cd "@, cwd->0);
    }
}

/// A run never asks for approval and has full access, in its configuration, in its thread and in
/// each of its turns, and works on its project. Only the operator has to answer with a decision.
pub proof fn law_runs_never_ask(
    shared: SharedCliOptions,
    project: &str,
    provider: Option<String>,
    provider_default: Option<String>,
    overrides: RunOverrides,
    thread: ThreadSettings,
    role: TurnRole,
    thread_id: &str,
    prompt: String,
    turn: TurnRequest,
)
    requires
        call_ensures(
            run_overrides,
            (shared, project, provider, provider_default),
            overrides,
        ),
        call_ensures(thread_settings, (project,), thread),
        call_ensures(turn_request, (role, thread_id, project, prompt), turn),
    ensures
        overrides.approval_policy@ == "never"@,
        thread.approval_policy@ == "never"@,
        turn.approval_policy@ == "never"@,
        overrides.sandbox_mode@ == "danger-full-access"@,
        thread.sandbox@ == "danger-full-access"@,
        turn.sandbox_policy@ == "danger-full-access"@,
        overrides.cwd@ == project@,
        thread.cwd@ == project@,
        turn.cwd@ == project@,
        overrides.developer_instructions@ == thread.developer_instructions@,
        turn.prompt@ == prompt@,
        turn.thread_id@ == thread_id@,
        turn.wants_decision <==> role == TurnRole::Operator,
        opt_text(overrides.model_provider) == opt_text(provider),
        opt_text(overrides.config_profile) == opt_text(shared.config_profile),
        texts(overrides.additional_writable_roots@) == texts(shared.add_dir@),
        shared.model is Some ==> opt_text(overrides.model) == opt_text(shared.model),
        shared.model is None && shared.oss ==> opt_text(overrides.model) == opt_text(
            provider_default,
        ),
        shared.model is None && !shared.oss ==> overrides.model is None,
        overrides.show_raw_agent_reasoning is Some <==> shared.oss,
        overrides.show_raw_agent_reasoning is Some ==> overrides.show_raw_agent_reasoning == Some(
            true,
        ),
{
}

/// What a run is about is what the command line says: its goal and its run time, on the project
/// that was found, with its state where that is kept.
pub proof fn law_what_a_run_is_about(
    rules: PathRules,
    args: &AutomodeArgs,
    project: String,
    in_repository: bool,
    names: &Vec<String>,
    r: Result<AutomodeRunArgs, String>,
)
    requires
        call_ensures(run_args, (rules, args, project, in_repository, names), r),
    ensures
        r is Ok <==> (args.skip_git_repo_check || in_repository) && state_dir_of(
            rules@,
            project@,
            opt_text(args.state_dir),
            texts(names@),
        ) is Ok,
        r matches Ok(run) ==> {
            &&& run.goal@ == args.goal@
            &&& run.project@ == project@
            &&& run.duration == args.duration
            &&& args.state_dir matches Some(dir) ==> run.state_dir@ == joined(
                rules@,
                project@,
                dir@,
            )
            &&& state_dir_of(rules@, project@, opt_text(args.state_dir), texts(names@)) == Ok::<
                Seq<char>,
                Seq<char>,
            >(run.state_dir@)
        },
{
}

/// The address of the service is the one that was configured, if one was. The provider and the
/// model come from the local provider only if a local one was asked for, and then there has to be
/// one; a model that was asked for always comes first.
pub proof fn law_what_is_chosen(
    configured: Option<String>,
    url: String,
    oss: bool,
    resolved: Option<String>,
    first: &str,
    second: &str,
    provider: Result<Option<String>, String>,
    asked: Option<String>,
    provider_default: Option<String>,
    model: Option<String>,
)
    requires
        call_ensures(base_url, (configured,), url),
        call_ensures(choose_provider, (oss, resolved, first, second), provider),
        call_ensures(choose_model, (asked, oss, provider_default), model),
    ensures
        configured matches Some(given) ==> url@ == given@,
        configured is None ==> url@ == "https://chatgpt.com/backend-api/"@,
        !oss ==> provider matches Ok(None),
        oss && resolved is Some ==> provider is Ok && opt_text(provider->Ok_0) == opt_text(
            resolved,
        ),
        oss && resolved is None ==> provider is Err && holds(
            provider->Err_0@,
            first@ + ", "@ + second@,
        ),
        asked is Some ==> opt_text(model) == opt_text(asked),
        asked is None && oss ==> opt_text(model) == opt_text(provider_default),
        asked is None && !oss ==> model is None,
{
    let start =
        "No default OSS provider configured. Use --local-provider=provider or set oss_provider to one of: "@;
    let whole = start + first@ + ", "@ + second@;
    crate::text::lemma_holds_three(start, first@, ", "@, second@);
    lemma_holds_further(whole, first@ + ", "@ + second@, " in config.toml"@);
}

/// The user is warned of what a run may do, unless full access was asked for by name, and told that
/// other wishes are ignored, if there are any.
pub proof fn law_what_the_user_is_warned_of(
    sandbox_set: bool,
    full_auto: bool,
    yolo: bool,
    r: Option<&'static str>,
    plain: Option<&'static str>,
)
    requires
        call_ensures(warn_ignored_sandbox_flags, (sandbox_set, full_auto, yolo), r),
        call_ensures(warn_ignored_sandbox_flags, (false, false, false), plain),
    ensures
        r is None <==> yolo && !sandbox_set && !full_auto,
        plain is Some,
        r matches Some(warning) && !(sandbox_set || full_auto) ==> r->0@ == plain->0@,
        sandbox_set || full_auto ==> r->0@.len() > plain->0@.len(),
{
    reveal_strlit(
        "Automode always uses danger-full-access with approval_policy=never; ignoring sandbox/full-auto overrides.",
    );
    reveal_strlit("Automode uses danger-full-access with approval_policy=never.");
}

/// What is read of the operator's message: the whole of it, if that is a decision, and else the
/// object in it, if there is one.
pub proof fn law_what_is_read_of_a_message(
    whole: Result<AutomodeDecision, String>,
    object: Option<Result<AutomodeDecision, String>>,
    r: Result<AutomodeDecision, String>,
)
    requires
        call_ensures(parse_decision, (whole, object), r),
    ensures
        whole is Ok ==> parsed(r) == parsed(whole),
        whole is Err && object is Some ==> parsed(r) == parsed(object->0),
        whole is Err && object is None ==> parsed(r) == parsed(whole),
        r is Ok <==> whole is Ok || (object is Some && object->0 is Ok),
{
}

/// What becomes of the operator's reply: a decision is taken with its gaps filled, and is not
/// recorded as anything else; without one, a decision stands in for it that names the reason, and
/// the reply is recorded.
pub proof fn law_what_becomes_of_a_reply(state: StateModel, reply: ReplyModel)
    ensures
        match reply {
            ReplyModel::Decision(decision) => {
                &&& decision_on(state, reply) == normalized(decision, state.goal)
                &&& reply_record(reply) is None
            },
            ReplyModel::Missing { summary } => {
                &&& decision_on(state, reply) == fallback(
                    state,
                    "operator turn produced no final message"@,
                )
                &&& reply_record(reply) == Some(RecordModel::OperatorMissing { summary })
            },
            ReplyModel::Unreadable { reason, message } => {
                &&& decision_on(state, reply) == fallback(state, reason)
                &&& reply_record(reply) == Some(RecordModel::OperatorUnreadable { reason, message })
            },
        },
{
}

/// What is said at the start and at the end of a run: for which project, until when and where its
/// state is, and how many iterations it had and where its progress document is.
pub proof fn law_what_is_said_of_a_run(
    separator: char,
    project: Seq<char>,
    deadline_at: i64,
    iteration: u64,
    state_dir: Seq<char>,
)
    ensures
        holds(
            started_text(project, deadline_at, state_dir),
            project + " until "@ + decimal_signed(deadline_at as int),
        ),
        holds(started_text(project, deadline_at, state_dir), state_dir),
        holds(
            stopped_text(separator, iteration, state_dir),
            "Automode stopped after "@ + decimal(iteration as nat) + " iteration(s). "@,
        ),
        joined(separator, state_dir, "progress.md"@).is_suffix_of(
            stopped_text(separator, iteration, state_dir),
        ),
{
    let p1 = seq!["Automode started for "@];
    let p2 = p1.push(project);
    let p3 = p2.push(" until "@);
    let p4 = p3.push(decimal_signed(deadline_at as int));
    let p5 = p4.push(" (state: "@);
    let p6 = p5.push(state_dir);
    let parts = p6.push(")."@);
    lemma_run_one("Automode started for "@);
    lemma_run_on(p1, project);
    lemma_run_on(p2, " until "@);
    lemma_run_on(p3, decimal_signed(deadline_at as int));
    lemma_run_on(p4, " (state: "@);
    lemma_run_on(p5, state_dir);
    lemma_run_on(p6, ")."@);
    assert(started_text(project, deadline_at, state_dir) == run_together(parts));
    lemma_holds_neighbours(parts, 1);
    lemma_holds_end(run_together(p5), state_dir);
    lemma_holds_further(run_together(p6), state_dir, ")."@);
    let path = joined(separator, state_dir, "progress.md"@);
    let ended = stopped_text(separator, iteration, state_dir);
    assert(path =~= ended.subrange(ended.len() - path.len(), ended.len() as int));
    reveal_strlit(" iteration(s). Progress document: ");
    reveal_strlit(" iteration(s). ");
    reveal_strlit("Progress document: ");
    assert(" iteration(s). Progress document: "@ =~= " iteration(s). "@ + "Progress document: "@);
    let start = "Automode stopped after "@ + decimal(iteration as nat) + " iteration(s). "@;
    lemma_holds_end(seq![], start);
    assert(seq![] + start =~= start);
    lemma_holds_further(start, start, "Progress document: "@ + path);
    assert(ended =~= start + ("Progress document: "@ + path));
}

/// How a run goes on. Before the deadline the worker takes a turn, which counts as an iteration and
/// is told what the last decision says; once the deadline has come the run is over instead, and
/// nothing else changes.
pub proof fn law_beginning_a_worker_turn(
    run: &mut RunLoop,
    rules: PathRules,
    now: u128,
    prompt: Option<String>,
)
    requires
        call_ensures(RunLoop::begin_worker_turn, (run, rules, now), prompt),
    ensures
        prompt is Some <==> now < old(run).deadline,
        final(run).phase == (if prompt is Some {
            Phase::Worker
        } else {
            Phase::Finished
        }),
        prompt is Some && old(run).state.iteration < u64::MAX ==> final(run).state.iteration
            == old(run).state.iteration + 1,
        prompt is None ==> final(run).state@ == old(run).state@,
        final(run)@.state == (StateModel {
            iteration: final(run).state.iteration,
            ..old(run)@.state
        }),
        final(run).deadline == old(run).deadline,
        final(run).state_dir@ == old(run).state_dir@,
        prompt matches Some(text) ==> holds(
            text@,
            joined(rules@, old(run).state_dir@, "progress.md"@) + "\n\nGoal:\n"@
                + old(run).state.goal@,
        ),
{
    law_what_the_worker_is_told(rules@, old(run)@.state, old(run)@.state_dir);
}

/// The worker's turn is recorded under its iteration and kept as the last one. Then the operator
/// takes a turn, unless the deadline has come.
pub proof fn law_recording_a_worker_turn(
    run: &mut RunLoop,
    summary: TurnSummary,
    record: RunRecord,
)
    requires
        call_ensures(RunLoop::record_worker_turn, (run, summary), record),
    ensures
        final(run).phase == Phase::Worked,
        final(run)@.state == (StateModel {
            last_worker_summary: Some(summary@),
            ..old(run)@.state
        }),
        final(run).deadline == old(run).deadline,
        record@ == (RecordModel::WorkerTurnCompleted {
            iteration: old(run).state.iteration,
            summary: summary@,
        }),
{
}

/// The operator takes a turn only before the deadline, and nothing else changes.
pub proof fn law_beginning_an_operator_turn(run: &mut RunLoop, now: u128, begins: bool)
    requires
        call_ensures(RunLoop::begin_operator_turn, (run, now), begins),
    ensures
        begins <==> now < old(run).deadline,
        final(run).phase == (if begins {
            Phase::Operator
        } else {
            Phase::Finished
        }),
        final(run)@.state == old(run)@.state,
        final(run).deadline == old(run).deadline,
{
}

/// A decision is taken as it is: it is recorded under the iteration, kept as the last one and
/// written down, and then it is the worker's turn.
pub proof fn law_taking_a_decision_in_a_run(
    run: &mut RunLoop,
    decision: AutomodeDecision,
    numbers: &Vec<MetricNumbers>,
    record: RunRecord,
)
    requires
        call_ensures(RunLoop::apply_decision, (run, decision, numbers), record),
    ensures
        final(run).phase == Phase::Decided,
        final(run)@.state.last_decision == Some(decision@),
        final(run)@.state.iteration == old(run)@.state.iteration,
        final(run)@.state.goal == old(run)@.state.goal,
        final(run)@.state.last_worker_summary == old(run)@.state.last_worker_summary,
        final(run).deadline == old(run).deadline,
        record@ == (RecordModel::OperatorDecision {
            iteration: old(run).state.iteration,
            decision: decision@,
        }),
{
}

/// A run starts with its operator's turn and the record that it has started, and ends with the
/// record that it has finished.
pub proof fn law_starting_and_finishing(
    state: AutomodeState,
    state_dir: String,
    deadline: u128,
    begun: (RunLoop, RunRecord),
    run: RunLoop,
    rules: PathRules,
    error_seen: bool,
    ended: (RunRecord, String),
)
    requires
        call_ensures(RunLoop::new, (state, state_dir, deadline), begun),
        call_ensures(RunLoop::finish, (run, rules, error_seen), ended),
    ensures
        begun.0.phase == Phase::Operator,
        begun.0.deadline == deadline,
        begun.0.state@ == state@,
        begun.0.state_dir@ == state_dir@,
        begun.1@ == (RecordModel::Started {
            goal: state.goal@,
            project: state.project@,
            deadline_at: state.deadline_at,
        }),
        ended.0@ == (RecordModel::Finished { iteration: run.state.iteration, error_seen }),
        holds(
            ended.1@,
            "Automode stopped after "@ + decimal(run.state.iteration as nat) + " iteration(s). "@,
        ),
{
    law_what_is_said_of_a_run(
        rules@,
        run.state.project@,
        run.state.deadline_at,
        run.state.iteration,
        run.state_dir@,
    );
}

/// What the operator's reply leads to: a decision with something to do and something to measure,
/// the operator's own wherever it gave one.
pub proof fn law_deciding_on_a_reply(
    state: &AutomodeState,
    reply: OperatorReply,
    r: (AutomodeDecision, Option<RunRecord>),
)
    requires
        call_ensures(operator_decision, (state, reply), r),
    ensures
        r.1 is None <==> reply is Decision,
        crate::text::trim_of(r.0.next_prompt@).len() > 0,
        r.0@.metrics.len() > 0,
        reply matches OperatorReply::Decision(decision) ==> {
            &&& r.0.assessment@ == decision.assessment@
            &&& texts(r.0.learned@) == texts(decision.learned@)
            &&& texts(r.0.document_changes@) == texts(decision.document_changes@)
            &&& crate::text::trim_of(decision.next_prompt@).len() > 0 ==> r.0.next_prompt@
                == decision.next_prompt@
            &&& decision@.metrics.len() > 0 ==> r.0@.metrics == decision@.metrics
        },
        !(reply is Decision) && state@.last_decision is Some
            && state@.last_decision->0.metrics.len() > 0 ==> r.0@.metrics
            == state@.last_decision->0.metrics,
        reply matches OperatorReply::Unreadable { reason, .. } ==> holds(
            r.0.assessment@,
            reason@,
        ),
{
    let reason = match reply@ {
        ReplyModel::Missing { .. } => "operator turn produced no final message"@,
        ReplyModel::Unreadable { reason, .. } => reason,
        ReplyModel::Decision(_) => seq![],
    };
    let decision = match reply@ {
        ReplyModel::Decision(decision) => decision,
        _ => fallback(state@, reason),
    };
    law_decisions_are_complete(state@, decision, reason);
    law_only_gaps_are_filled(decision, state@.goal);
    law_stand_ins_keep_the_metrics(state@, reason);
    law_what_becomes_of_a_reply(state@, reply@);
}

/// The project that is worked on is the one that was named, where it leads to.
pub proof fn law_finding_the_project(
    project: Option<String>,
    cwd: Option<String>,
    probes: ProjectProbes,
    named: Option<String>,
    found: Result<String, String>,
)
    requires
        call_ensures(choose_project, (&project, &cwd), named),
        call_ensures(resolve_project, (project, cwd, probes), found),
    ensures
        project matches Some(path) ==> named is Some && named->0@ == path@,
        project is None ==> opt_text(named) == opt_text(cwd),
        found is Ok ==> probes.is_dir && (project is Some || cwd is Some),
        found matches Ok(path) ==> probes.chosen is Some && path@ == probes.chosen->0@,
        project is Some && cwd is Some && found is Ok ==> opt_text(probes.project) == opt_text(
            probes.cwd,
        ),
{
    law_which_project_is_worked_on(opt_text(project), opt_text(cwd), probes@);
}

/// What is wrong with the configuration is said, as closely as it is known.
pub proof fn law_reporting_the_configuration(
    detail: &str,
    err: &str,
    known: String,
    unknown: String,
)
    requires
        call_ensures(format_load_config_error, (Some(detail), err), known),
        call_ensures(format_load_config_error, (None::<&str>, err), unknown),
    ensures
        detail@.is_suffix_of(known@),
        err@.is_suffix_of(unknown@),
{
    assert(detail@ =~= known@.subrange(known@.len() - detail@.len(), known@.len() as int));
    assert(err@ =~= unknown@.subrange(unknown@.len() - err@.len(), unknown@.len() as int));
}

/// What is announced of a run, and what its records are filed under.
pub proof fn law_announcing_a_run(run: &RunLoop, message: String, record: &RunRecord, kind: &str)
    requires
        call_ensures(RunLoop::started_message, (run,), message),
        call_ensures(RunRecord::kind, (record,), kind),
    ensures
        holds(
            message@,
            run.state.project@ + " until "@ + decimal_signed(run.state.deadline_at as int),
        ),
        holds(message@, run.state_dir@),
        record is Started ==> kind@ == "automode.started"@,
        record is WorkerTurnCompleted ==> kind@ == "automode.workerTurnCompleted"@,
        record is OperatorMissing || record is OperatorUnreadable ==> kind@
            == "automode.operatorInvalid"@,
        record is OperatorDecision ==> kind@ == "automode.operatorDecision"@,
        record is Finished ==> kind@ == "automode.finished"@,
{
    law_what_is_said_of_a_run(
        '/',
        run.state.project@,
        run.state.deadline_at,
        run.state.iteration,
        run.state_dir@,
    );
}

} // verus!
