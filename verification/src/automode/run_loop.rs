//! The course of a run: an operator turn, and then worker and operator turns in alternation until
//! the deadline.
use crate::automode::decision::{
    apply_decision, decided, fallback, fallback_decision, next_worker_prompt, normalize_decision,
    normalized, number_models, worker_question, MetricNumbers, NumbersModel,
};
use crate::automode::state::PROGRESS_DOC_FILE;
use crate::automode::types::{
    AutomodeDecision, AutomodeState, DecisionModel, StateModel, SummaryModel, TurnRole, TurnSummary,
};
use crate::paths::{join_path, joined, PathRules};
use crate::text::{decimal, decimal_signed, decimal_string, decimal_string_signed};
use vstd::prelude::*;
use vstd::string::*;

verus! {

/// The approval policy of every turn of a run.
pub const APPROVAL_POLICY: &'static str = "never";

/// The sandbox mode of every turn of a run.
pub const SANDBOX_MODE: &'static str = "danger-full-access";

/// What the agent is told about the run as a whole.
pub const DEVELOPER_INSTRUCTIONS: &'static str =
    "You are running under Codex automode. The environment is intentionally non-interactive. Never ask the user for input; make a reasonable assumption, act, measure progress, and continue. Approval policy is never and sandbox mode is danger-full-access for this session.";

/// What a thread is started with.
#[derive(Debug, PartialEq, Eq)]
pub struct ThreadSettings {
    pub cwd: String,
    pub approval_policy: String,
    pub sandbox: String,
    pub developer_instructions: String,
}

/// What a turn is started with.
#[derive(Debug, PartialEq, Eq)]
pub struct TurnRequest {
    pub thread_id: String,
    pub prompt: String,
    pub cwd: String,
    pub approval_policy: String,
    pub sandbox_policy: String,
    /// Whether the answer has to match the schema of a decision.
    pub wants_decision: bool,
}

/// What came back from an operator turn.
#[derive(Debug, PartialEq, Eq)]
pub enum OperatorReply {
    /// The turn ended without a message.
    Missing { summary: TurnSummary },
    /// The message could not be read as a decision.
    Unreadable { reason: String, message: String },
    Decision(AutomodeDecision),
}

/// What an [`OperatorReply`] says.
pub enum ReplyModel {
    Missing { summary: SummaryModel },
    Unreadable { reason: Seq<char>, message: Seq<char> },
    Decision(DecisionModel),
}

impl View for OperatorReply {
    type V = ReplyModel;

    open spec fn view(&self) -> ReplyModel {
        match self {
            OperatorReply::Missing { summary } => ReplyModel::Missing { summary: summary@ },
            OperatorReply::Unreadable { reason, message } => ReplyModel::Unreadable {
                reason: reason@,
                message: message@,
            },
            OperatorReply::Decision(decision) => ReplyModel::Decision(decision@),
        }
    }
}

/// What is recorded of a run, in the order in which it happens.
#[derive(Debug, PartialEq, Eq)]
pub enum RunRecord {
    Started { goal: String, project: String, deadline_at: i64 },
    WorkerTurnCompleted { iteration: u64, summary: TurnSummary },
    /// The operator turn ended without a message.
    OperatorMissing { summary: TurnSummary },
    /// The operator's message could not be read as a decision.
    OperatorUnreadable { reason: String, message: String },
    OperatorDecision { iteration: u64, decision: AutomodeDecision },
    Finished { iteration: u64, error_seen: bool },
}

/// What a [`RunRecord`] says.
pub enum RecordModel {
    Started { goal: Seq<char>, project: Seq<char>, deadline_at: i64 },
    WorkerTurnCompleted { iteration: u64, summary: SummaryModel },
    OperatorMissing { summary: SummaryModel },
    OperatorUnreadable { reason: Seq<char>, message: Seq<char> },
    OperatorDecision { iteration: u64, decision: DecisionModel },
    Finished { iteration: u64, error_seen: bool },
}

impl View for RunRecord {
    type V = RecordModel;

    open spec fn view(&self) -> RecordModel {
        match self {
            RunRecord::Started { goal, project, deadline_at } => RecordModel::Started {
                goal: goal@,
                project: project@,
                deadline_at: *deadline_at,
            },
            RunRecord::WorkerTurnCompleted { iteration, summary } =>
                RecordModel::WorkerTurnCompleted { iteration: *iteration, summary: summary@ },
            RunRecord::OperatorMissing { summary } => RecordModel::OperatorMissing {
                summary: summary@,
            },
            RunRecord::OperatorUnreadable { reason, message } => RecordModel::OperatorUnreadable {
                reason: reason@,
                message: message@,
            },
            RunRecord::OperatorDecision { iteration, decision } => RecordModel::OperatorDecision {
                iteration: *iteration,
                decision: decision@,
            },
            RunRecord::Finished { iteration, error_seen } => RecordModel::Finished {
                iteration: *iteration,
                error_seen: *error_seen,
            },
        }
    }
}

/// What a record is filed under.
pub open spec fn record_kind(record: RecordModel) -> Seq<char> {
    match record {
        RecordModel::Started { .. } => "automode.started"@,
        RecordModel::WorkerTurnCompleted { .. } => "automode.workerTurnCompleted"@,
        RecordModel::OperatorMissing { .. } => "automode.operatorInvalid"@,
        RecordModel::OperatorUnreadable { .. } => "automode.operatorInvalid"@,
        RecordModel::OperatorDecision { .. } => "automode.operatorDecision"@,
        RecordModel::Finished { .. } => "automode.finished"@,
    }
}

/// Where a run stands.
#[derive(Debug, Clone, Copy, PartialEq, Eq, Structural)]
pub enum Phase {
    /// The operator is taking a turn.
    Operator,
    /// The operator's decision has been taken.
    Decided,
    /// The worker is taking a turn.
    Worker,
    /// The worker's turn has been recorded.
    Worked,
    Finished,
}

/// A run, with the times in nanoseconds of a clock that the caller reads.
#[derive(Debug, PartialEq, Eq)]
pub struct RunLoop {
    pub state: AutomodeState,
    pub state_dir: String,
    pub deadline: u128,
    pub phase: Phase,
}

/// What a [`RunLoop`] holds.
pub struct RunModel {
    pub state: StateModel,
    pub state_dir: Seq<char>,
    pub deadline: u128,
    pub phase: Phase,
}

impl View for RunLoop {
    type V = RunModel;

    open spec fn view(&self) -> RunModel {
        RunModel {
            state: self.state@,
            state_dir: self.state_dir@,
            deadline: self.deadline,
            phase: self.phase,
        }
    }
}

/// The decision that is taken on a reply.
pub open spec fn decision_on(state: StateModel, reply: ReplyModel) -> DecisionModel {
    match reply {
        ReplyModel::Missing { .. } => fallback(state, "operator turn produced no final message"@),
        ReplyModel::Unreadable { reason, .. } => fallback(state, reason),
        ReplyModel::Decision(decision) => normalized(decision, state.goal),
    }
}

/// What is recorded of a reply that is no decision.
pub open spec fn reply_record(reply: ReplyModel) -> Option<RecordModel> {
    match reply {
        ReplyModel::Missing { summary } => Some(RecordModel::OperatorMissing { summary }),
        ReplyModel::Unreadable { reason, message } => Some(
            RecordModel::OperatorUnreadable { reason, message },
        ),
        ReplyModel::Decision(_) => None,
    }
}

/// A number of iterations after one more, held at the end of the range.
pub open spec fn one_more(iteration: u64) -> u64 {
    if iteration == u64::MAX {
        iteration
    } else {
        (iteration + 1) as u64
    }
}

/// The run after a decision has been taken.
pub open spec fn after_decision(
    run: RunModel,
    decision: DecisionModel,
    numbers: Seq<NumbersModel>,
) -> RunModel {
    RunModel { state: decided(run.state, decision, numbers), phase: Phase::Decided, ..run }
}

/// What is recorded of a decision.
pub open spec fn decision_record(run: RunModel, decision: DecisionModel) -> RecordModel {
    RecordModel::OperatorDecision { iteration: run.state.iteration, decision }
}

/// What is recorded of a worker turn.
pub open spec fn worker_record(run: RunModel, summary: SummaryModel) -> RecordModel {
    RecordModel::WorkerTurnCompleted { iteration: run.state.iteration, summary }
}

/// What is recorded of an operator's reply: the reply itself if it is no decision, and the decision
/// that is taken on it.
pub open spec fn reply_records(run: RunModel, reply: ReplyModel) -> Seq<RecordModel> {
    let decision = decision_record(run, decision_on(run.state, reply));
    match reply_record(reply) {
        Some(record) => seq![record, decision],
        None => seq![decision],
    }
}

/// What is recorded of a run as it starts.
pub open spec fn started_record(run: RunModel) -> RecordModel {
    RecordModel::Started {
        goal: run.state.goal,
        project: run.state.project,
        deadline_at: run.state.deadline_at,
    }
}

/// What is recorded of a run as it ends.
pub open spec fn finished_record(run: RunModel, error_seen: bool) -> RecordModel {
    RecordModel::Finished { iteration: run.state.iteration, error_seen }
}

/// The run as the worker takes a turn: only before the deadline, and as a new iteration.
pub open spec fn worker_begun(run: RunModel, now: u128) -> RunModel {
    if now < run.deadline {
        RunModel {
            state: StateModel { iteration: one_more(run.state.iteration), ..run.state },
            phase: Phase::Worker,
            ..run
        }
    } else {
        RunModel { phase: Phase::Finished, ..run }
    }
}

/// The run after a worker turn has been recorded.
pub open spec fn worker_done(run: RunModel, summary: SummaryModel) -> RunModel {
    RunModel {
        state: StateModel { last_worker_summary: Some(summary), ..run.state },
        phase: Phase::Worked,
        ..run
    }
}

/// The run as the operator takes a turn: only before the deadline.
pub open spec fn operator_begun(run: RunModel, now: u128) -> RunModel {
    RunModel {
        phase: if now < run.deadline {
            Phase::Operator
        } else {
            Phase::Finished
        },
        ..run
    }
}

/// What happens in one round of a run: the worker takes a turn, which begins and is done at
/// certain times, and the operator replies.
pub struct Round {
    pub begun: u128,
    pub summary: SummaryModel,
    pub done: u128,
    pub reply: ReplyModel,
    pub numbers: Seq<NumbersModel>,
}

/// Whether a round takes place before the deadline.
pub open spec fn in_time(round: Round, deadline: u128) -> bool {
    round.begun < deadline && round.done < deadline
}

/// The run as the operator is asked about a round.
pub open spec fn round_asked(run: RunModel, round: Round) -> RunModel {
    operator_begun(worker_done(worker_begun(run, round.begun), round.summary), round.done)
}

/// The run after a round.
pub open spec fn after_round(run: RunModel, round: Round) -> RunModel {
    let asked = round_asked(run, round);
    after_decision(asked, decision_on(asked.state, round.reply), round.numbers)
}

/// What is recorded of a round: the worker's turn, then the operator's reply if it is no decision,
/// and the decision last.
pub open spec fn round_records(run: RunModel, round: Round) -> Seq<RecordModel> {
    let begun = worker_begun(run, round.begun);
    seq![worker_record(begun, round.summary)] + reply_records(
        round_asked(run, round),
        round.reply,
    )
}

/// The run after rounds.
pub open spec fn after_rounds(run: RunModel, rounds: Seq<Round>) -> RunModel
    decreases rounds.len(),
{
    if rounds.len() == 0 {
        run
    } else {
        after_round(after_rounds(run, rounds.drop_last()), rounds.last())
    }
}

/// What is recorded of rounds.
pub open spec fn rounds_records(run: RunModel, rounds: Seq<Round>) -> Seq<RecordModel>
    decreases rounds.len(),
{
    if rounds.len() == 0 {
        seq![]
    } else {
        rounds_records(run, rounds.drop_last()) + round_records(
            after_rounds(run, rounds.drop_last()),
            rounds.last(),
        )
    }
}

/// A number of iterations after `more` of them, held at the end of the range.
pub open spec fn iterations_after(iteration: u64, more: nat) -> int {
    if iteration + more <= u64::MAX {
        iteration + more
    } else {
        u64::MAX as int
    }
}

/// One round of a run. As long as the deadline has not passed, it counts as one iteration, leaves
/// the goal and the project as they are, and ends where the next one starts. Its records carry the
/// number of the iteration.
pub proof fn law_one_round(run: RunModel, round: Round)
    requires
        run.phase == Phase::Decided,
        in_time(round, run.deadline),
    ensures
        ({
            let next = after_round(run, round);
            let records = round_records(run, round);
            &&& worker_begun(run, round.begun).phase == Phase::Worker
            &&& round_asked(run, round).phase == Phase::Operator
            &&& next.phase == Phase::Decided
            &&& next.deadline == run.deadline
            &&& next.state_dir == run.state_dir
            &&& next.state.iteration == one_more(run.state.iteration)
            &&& next.state.last_worker_summary == Some(round.summary)
            &&& next.state.goal == run.state.goal
            &&& next.state.project == run.state.project
            &&& next.state.last_decision is Some
            &&& next.state.last_decision->0.metrics.len() > 0
            &&& crate::text::trim_of(next.state.last_decision->0.next_prompt).len() > 0
            &&& records.len() == (if round.reply is Decision {
                2int
            } else {
                3
            })
            &&& records[0] == (RecordModel::WorkerTurnCompleted {
                iteration: next.state.iteration,
                summary: round.summary,
            })
            &&& records.last() == (RecordModel::OperatorDecision {
                iteration: next.state.iteration,
                decision: next.state.last_decision->0,
            })
        }),
{
    let asked = round_asked(run, round);
    let decision = match round.reply {
        ReplyModel::Decision(decision) => decision,
        _ => fallback(asked.state, seq![]),
    };
    let reason = match round.reply {
        ReplyModel::Missing { .. } => "operator turn produced no final message"@,
        ReplyModel::Unreadable { reason, .. } => reason,
        ReplyModel::Decision(_) => seq![],
    };
    crate::automode::decision::law_decisions_are_complete(asked.state, decision, reason);
}

/// As long as the deadline has not passed, every round adds one iteration, and none changes the
/// goal or the project. Each leaves two or three records.
pub proof fn law_rounds_add_up(run: RunModel, rounds: Seq<Round>)
    requires
        run.phase == Phase::Decided,
        forall|i: int| 0 <= i < rounds.len() ==> in_time(#[trigger] rounds[i], run.deadline),
    ensures
        ({
            let next = after_rounds(run, rounds);
            &&& next.phase == Phase::Decided
            &&& next.deadline == run.deadline
            &&& next.state_dir == run.state_dir
            &&& next.state.iteration == iterations_after(run.state.iteration, rounds.len())
            &&& next.state.goal == run.state.goal
            &&& next.state.project == run.state.project
            &&& rounds.len() > 0 ==> next.state.last_worker_summary == Some(rounds.last().summary)
            &&& 2 * rounds.len() <= rounds_records(run, rounds).len() <= 3 * rounds.len()
        }),
    decreases rounds.len(),
{
    if rounds.len() > 0 {
        let before = rounds.drop_last();
        assert forall|i: int| 0 <= i < before.len() implies in_time(
            #[trigger] before[i],
            run.deadline,
        ) by {
            assert(before[i] == rounds[i]);
        }
        law_rounds_add_up(run, before);
        assert(in_time(rounds[rounds.len() - 1], run.deadline));
        law_one_round(after_rounds(run, before), rounds.last());
    }
}

/// How a run ends: its deadline passes before the worker's turn begins, or while the worker takes
/// its turn.
pub enum Ending {
    BeforeTheWorker { now: u128 },
    AfterTheWorker { begun: u128, summary: SummaryModel, done: u128 },
}

/// What happens in a run: the operator's first reply, rounds, the end, and whether an error was
/// seen.
pub struct Course {
    pub first: ReplyModel,
    pub numbers: Seq<NumbersModel>,
    pub rounds: Seq<Round>,
    pub ending: Ending,
    pub error_seen: bool,
}

/// Whether the rounds of a run take place before its deadline, and the end comes with it.
pub open spec fn on_time(course: Course, deadline: u128) -> bool {
    &&& forall|i: int|
        0 <= i < course.rounds.len() ==> in_time(#[trigger] course.rounds[i], deadline)
    &&& match course.ending {
        Ending::BeforeTheWorker { now } => now >= deadline,
        Ending::AfterTheWorker { begun, done, .. } => begun < deadline <= done,
    }
}

/// The run after the operator's first reply.
pub open spec fn after_first(run: RunModel, course: Course) -> RunModel {
    after_decision(run, decision_on(run.state, course.first), course.numbers)
}

/// The run after its end.
pub open spec fn after_ending(run: RunModel, ending: Ending) -> RunModel {
    match ending {
        Ending::BeforeTheWorker { now } => worker_begun(run, now),
        Ending::AfterTheWorker { begun, summary, done } => operator_begun(
            worker_done(worker_begun(run, begun), summary),
            done,
        ),
    }
}

/// What is recorded of the turn that is cut off by the end, if one is.
pub open spec fn ending_records(run: RunModel, ending: Ending) -> Seq<RecordModel> {
    match ending {
        Ending::BeforeTheWorker { .. } => seq![],
        Ending::AfterTheWorker { begun, summary, .. } => seq![
            worker_record(worker_begun(run, begun), summary),
        ],
    }
}

/// The run after all that happens in it.
pub open spec fn after_course(run: RunModel, course: Course) -> RunModel {
    after_ending(after_rounds(after_first(run, course), course.rounds), course.ending)
}

/// All that is recorded of a run, in order: that it starts, the first reply, the rounds, the turn
/// that is cut off by the end, if one is, and that it has finished.
pub open spec fn course_records(run: RunModel, course: Course) -> Seq<RecordModel> {
    let decided = after_first(run, course);
    seq![started_record(run)] + reply_records(run, course.first) + rounds_records(
        decided,
        course.rounds,
    ) + ending_records(after_rounds(decided, course.rounds), course.ending) + seq![
        finished_record(after_course(run, course), course.error_seen),
    ]
}

/// Whether a record is of something that happens between the start and the end of a run.
pub open spec fn is_between(record: RecordModel) -> bool {
    !(record is Started) && !(record is Finished)
}

proof fn lemma_rounds_are_between(run: RunModel, rounds: Seq<Round>)
    ensures
        forall|i: int|
            0 <= i < rounds_records(run, rounds).len() ==> is_between(
                #[trigger] rounds_records(run, rounds)[i],
            ),
    decreases rounds.len(),
{
    if rounds.len() > 0 {
        lemma_rounds_are_between(run, rounds.drop_last());
        let before = rounds_records(run, rounds.drop_last());
        let last = round_records(after_rounds(run, rounds.drop_last()), rounds.last());
        let all = rounds_records(run, rounds);
        assert(all == before + last);
        assert forall|i: int| 0 <= i < all.len() implies is_between(#[trigger] all[i]) by {
            if i < before.len() {
                assert(all[i] == before[i]);
            } else {
                assert(all[i] == last[i - before.len()]);
            }
        }
    }
}

/// A run as a whole. Its records start with the one that it has started and end with the one that
/// it has finished, and there are no others of these two. The operator's first reply comes right
/// after the start. A worker turn that the deadline cuts off is the last that is recorded before
/// the end, and counts as an iteration. The goal and the project stay as they are.
#[verifier::spinoff_prover]
#[verifier::rlimit(50)]
pub proof fn law_records_of_a_run(run: RunModel, course: Course)
    requires
        run.phase == Phase::Operator,
        on_time(course, run.deadline),
    ensures
        ({
            let records = course_records(run, course);
            let last = after_course(run, course);
            let turns = course.rounds.len() + (if course.ending is AfterTheWorker {
                1nat
            } else {
                0
            });
            &&& last.phase == Phase::Finished
            &&& last.state.iteration == iterations_after(run.state.iteration, turns)
            &&& last.state.goal == run.state.goal
            &&& last.state.project == run.state.project
            &&& records[0] == (RecordModel::Started {
                goal: run.state.goal,
                project: run.state.project,
                deadline_at: run.state.deadline_at,
            })
            &&& records.last() == (RecordModel::Finished {
                iteration: last.state.iteration,
                error_seen: course.error_seen,
            })
            &&& forall|i: int|
                0 < i < records.len() - 1 ==> is_between(#[trigger] records[i])
            &&& match reply_record(course.first) {
                Some(record) => records[1] == record && records[2] == decision_record(
                    run,
                    decision_on(run.state, course.first),
                ),
                None => records[1] == decision_record(run, decision_on(run.state, course.first)),
            }
            &&& course.ending matches Ending::AfterTheWorker { summary, .. } ==> {
                &&& last.state.last_worker_summary == Some(summary)
                &&& records[records.len() - 2] == (RecordModel::WorkerTurnCompleted {
                    iteration: last.state.iteration,
                    summary,
                })
            }
            &&& course.ending is BeforeTheWorker ==> records[records.len() - 2]
                is OperatorDecision
            &&& 2 * course.rounds.len() + 3 <= records.len() <= 3 * course.rounds.len() + 5
        }),
{
    let decided = after_first(run, course);
    let rest = after_rounds(decided, course.rounds);
    let rounds = rounds_records(decided, course.rounds);
    law_rounds_add_up(decided, course.rounds);
    lemma_rounds_are_between(decided, course.rounds);
    if course.rounds.len() > 0 {
        let before = after_rounds(decided, course.rounds.drop_last());
        let last = round_records(before, course.rounds.last());
        assert(rounds.last() == last.last());
        assert(rounds.last() is OperatorDecision);
    }
}

/// Once the deadline has passed, no turn begins and the run is over.
pub proof fn law_no_turn_after_the_deadline(run: RunModel, now: u128)
    requires
        now >= run.deadline,
    ensures
        worker_begun(run, now) == (RunModel { phase: Phase::Finished, ..run }),
        operator_begun(run, now) == (RunModel { phase: Phase::Finished, ..run }),
{
}

/// Returns what the agent is told about the run as a whole.
pub fn automode_developer_instructions() -> (r: String)
    ensures
        r@ == DEVELOPER_INSTRUCTIONS@,
{
    DEVELOPER_INSTRUCTIONS.to_owned()
}

/// Returns what the thread of a run is started with.
pub fn thread_settings(project: &str) -> (r: ThreadSettings)
    ensures
        r.cwd@ == project@,
        r.approval_policy@ == APPROVAL_POLICY@,
        r.sandbox@ == SANDBOX_MODE@,
        r.developer_instructions@ == DEVELOPER_INSTRUCTIONS@,
{
    ThreadSettings {
        cwd: project.to_owned(),
        approval_policy: APPROVAL_POLICY.to_owned(),
        sandbox: SANDBOX_MODE.to_owned(),
        developer_instructions: automode_developer_instructions(),
    }
}

/// Returns what a turn is started with. Only the operator has to answer with a decision.
pub fn turn_request(role: TurnRole, thread_id: &str, cwd: &str, prompt: String) -> (r: TurnRequest)
    ensures
        r.thread_id@ == thread_id@,
        r.prompt@ == prompt@,
        r.cwd@ == cwd@,
        r.approval_policy@ == APPROVAL_POLICY@,
        r.sandbox_policy@ == SANDBOX_MODE@,
        r.wants_decision <==> role == TurnRole::Operator,
{
    TurnRequest {
        thread_id: thread_id.to_owned(),
        prompt,
        cwd: cwd.to_owned(),
        approval_policy: APPROVAL_POLICY.to_owned(),
        sandbox_policy: SANDBOX_MODE.to_owned(),
        wants_decision: match role {
            TurnRole::Operator => true,
            TurnRole::Worker => false,
        },
    }
}

/// Returns the decision that is taken on a reply, and what is recorded of the reply if it is no
/// decision.
pub fn operator_decision(
    state: &AutomodeState,
    reply: OperatorReply,
) -> (r: (AutomodeDecision, Option<RunRecord>))
    ensures
        r.0@ == decision_on(state@, reply@),
        reply_record(reply@) == (match r.1 {
            Some(record) => Some(record@),
            None => None,
        }),
{
    match reply {
        OperatorReply::Missing { summary } => (
            fallback_decision(state, "operator turn produced no final message"),
            Some(RunRecord::OperatorMissing { summary }),
        ),
        OperatorReply::Unreadable { reason, message } => (
            fallback_decision(state, reason.as_str()),
            Some(RunRecord::OperatorUnreadable { reason, message }),
        ),
        OperatorReply::Decision(decision) => (normalize_decision(decision, state), None),
    }
}

impl RunRecord {
    /// Returns what the record is filed under.
    pub fn kind(&self) -> (r: &'static str)
        ensures
            r@ == record_kind(self@),
    {
        match self {
            RunRecord::Started { .. } => "automode.started",
            RunRecord::WorkerTurnCompleted { .. } => "automode.workerTurnCompleted",
            RunRecord::OperatorMissing { .. } => "automode.operatorInvalid",
            RunRecord::OperatorUnreadable { .. } => "automode.operatorInvalid",
            RunRecord::OperatorDecision { .. } => "automode.operatorDecision",
            RunRecord::Finished { .. } => "automode.finished",
        }
    }
}

/// The line that announces a run.
pub open spec fn started_text(project: Seq<char>, deadline_at: i64, state_dir: Seq<char>) -> Seq<
    char,
> {
    "Automode started for "@ + project + " until "@ + decimal_signed(deadline_at as int)
        + " (state: "@ + state_dir + ")."@
}

/// The line that ends a run.
pub open spec fn stopped_text(separator: char, iteration: u64, state_dir: Seq<char>) -> Seq<char> {
    "Automode stopped after "@ + decimal(iteration as nat) + " iteration(s). Progress document: "@
        + joined(separator, state_dir, PROGRESS_DOC_FILE@)
}

impl RunLoop {
    /// Starts a run with an operator turn, and returns what is recorded of it as it starts.
    pub fn new(state: AutomodeState, state_dir: String, deadline: u128) -> (r: (Self, RunRecord))
        ensures
            r.0@ == (RunModel {
                state: state@,
                state_dir: state_dir@,
                deadline,
                phase: Phase::Operator,
            }),
            r.1@ == started_record(r.0@),
    {
        let record = RunRecord::Started {
            goal: state.goal.clone(),
            project: state.project.clone(),
            deadline_at: state.deadline_at,
        };
        (RunLoop { state, state_dir, deadline, phase: Phase::Operator }, record)
    }

    /// Takes the operator's decision, given the numbers of its metrics, and returns what is
    /// recorded of it.
    pub fn apply_decision(
        &mut self,
        decision: AutomodeDecision,
        numbers: &Vec<MetricNumbers>,
    ) -> (r: RunRecord)
        requires
            old(self)@.phase == Phase::Operator,
            numbers@.len() == decision.metrics@.len(),
        ensures
            final(self)@ == after_decision(old(self)@, decision@, number_models(numbers@)),
            r@ == decision_record(old(self)@, decision@),
    {
        let record = RunRecord::OperatorDecision {
            iteration: self.state.iteration,
            decision: decision.clone(),
        };
        apply_decision(&mut self.state, decision, numbers);
        self.phase = Phase::Decided;
        record
    }

    /// Begins the worker's turn and returns what it is asked, or ends the run if the deadline has
    /// passed.
    pub fn begin_worker_turn(&mut self, rules: PathRules, now: u128) -> (r: Option<String>)
        requires
            old(self)@.phase == Phase::Decided,
        ensures
            final(self)@ == worker_begun(old(self)@, now),
            r is Some <==> now < old(self)@.deadline,
            r matches Some(prompt) ==> prompt@ == worker_question(
                rules@,
                old(self)@.state,
                old(self)@.state_dir,
            ),
    {
        if now >= self.deadline {
            self.phase = Phase::Finished;
            return None;
        }
        let prompt = next_worker_prompt(rules, &self.state, self.state_dir.as_str());
        if self.state.iteration < u64::MAX {
            self.state.iteration = self.state.iteration + 1;
        }
        self.phase = Phase::Worker;
        Some(prompt)
    }

    /// Takes the worker's turn into account, and returns what is recorded of it.
    pub fn record_worker_turn(&mut self, summary: TurnSummary) -> (r: RunRecord)
        requires
            old(self)@.phase == Phase::Worker,
        ensures
            final(self)@ == worker_done(old(self)@, summary@),
            r@ == worker_record(old(self)@, summary@),
    {
        let record = RunRecord::WorkerTurnCompleted {
            iteration: self.state.iteration,
            summary: summary.clone(),
        };
        self.state.last_worker_summary = Some(summary);
        self.phase = Phase::Worked;
        record
    }

    /// Begins the operator's turn, or ends the run if the deadline has passed. Returns whether
    /// the turn begins.
    pub fn begin_operator_turn(&mut self, now: u128) -> (r: bool)
        requires
            old(self)@.phase == Phase::Worked,
        ensures
            final(self)@ == operator_begun(old(self)@, now),
            r == (now < old(self)@.deadline),
    {
        if now >= self.deadline {
            self.phase = Phase::Finished;
            false
        } else {
            self.phase = Phase::Operator;
            true
        }
    }

    /// Returns the line that announces the run.
    pub fn started_message(&self) -> (r: String)
        ensures
            r@ == started_text(self@.state.project, self@.state.deadline_at, self@.state_dir),
    {
        let until = decimal_string_signed(self.state.deadline_at);
        let mut r = "Automode started for ".to_owned();
        r.append(self.state.project.as_str());
        r.append(" until ");
        r.append(until.as_str());
        r.append(" (state: ");
        r.append(self.state_dir.as_str());
        r.append(").");
        r
    }

    /// Ends a run that is over, and returns what is recorded of it as it ends and the line that
    /// says so.
    pub fn finish(self, rules: PathRules, error_seen: bool) -> (r: (RunRecord, String))
        requires
            self@.phase == Phase::Finished,
        ensures
            r.0@ == finished_record(self@, error_seen),
            r.1@ == stopped_text(rules@, self@.state.iteration, self@.state_dir),
    {
        let iterations = decimal_string(self.state.iteration);
        let path = join_path(rules, self.state_dir.as_str(), PROGRESS_DOC_FILE);
        let mut line = "Automode stopped after ".to_owned();
        line.append(iterations.as_str());
        line.append(" iteration(s). Progress document: ");
        line.append(path.as_str());
        (RunRecord::Finished { iteration: self.state.iteration, error_seen }, line)
    }
}

} // verus!
