//! Nothing is hidden: values of which contracts say the same hold the same.
use crate::automode::decision::MetricNumbers;
use crate::automode::run_loop::{RunLoop, RunRecord};
use crate::automode::turn::{ServerNotification, ThreadItem, TurnCollector};
use crate::automode::types::{AutomodeDecision, AutomodeMetric, AutomodeState, TurnSummary};
use crate::patch::batch::ApplyPatchArgs;
use crate::patch::model::{Hunk, ParseError, UpdateFileChunk};
use crate::session::command::{AutomodeResumeRequest, AutomodeStartRequest};
use crate::session::controller::AutomodeController;
use crate::session::lines::StyledSpan;
use crate::session::run_state::{AutomodeRunState, AutomodeTurnPrompt, StartFiles};
use crate::text::{opt_text, texts};
use vstd::prelude::*;

verus! {

/// The texts of a list are the texts of its strings, one for one, and that of an optional string is
/// its text.
pub proof fn law_texts(v: Seq<String>, o: Option<String>)
    ensures
        texts(v).len() == v.len(),
        forall|i: int| 0 <= i < v.len() ==> #[trigger] texts(v)[i] == v[i]@,
        o matches Some(s) ==> opt_text(o) == Some(s@),
        o is None ==> opt_text(o) is None,
{
}

/// Metrics of which the same is said have the same name, numbers, unit, direction and method.
pub proof fn law_metrics_hide_nothing(a: AutomodeMetric, b: AutomodeMetric)
    requires
        a@ == b@,
    ensures
        a.name@ == b.name@,
        a.baseline == b.baseline,
        a.current == b.current,
        a.target == b.target,
        a.unit@ == b.unit@,
        a.direction == b.direction,
        a.measurement_method@ == b.measurement_method@,
{
}

/// Decisions of which the same is said are the same in every part.
pub proof fn law_decisions_hide_nothing(a: AutomodeDecision, b: AutomodeDecision)
    requires
        a@ == b@,
    ensures
        a.assessment@ == b.assessment@,
        a.next_prompt@ == b.next_prompt@,
        texts(a.learned@) == texts(b.learned@),
        texts(a.document_changes@) == texts(b.document_changes@),
        a.metrics@.len() == b.metrics@.len(),
        forall|i: int| 0 <= i < a.metrics@.len() ==> (#[trigger] a.metrics@[i])@ == b.metrics@[i]@,
{
    let left = crate::automode::types::metric_models(a.metrics@);
    let right = crate::automode::types::metric_models(b.metrics@);
    assert(left.len() == a.metrics@.len() && right.len() == b.metrics@.len());
    assert forall|i: int| 0 <= i < a.metrics@.len() implies (#[trigger] a.metrics@[i])@
        == b.metrics@[i]@ by {
        assert(left[i] == right[i]);
    }
}

/// Summaries of which the same is said are the same in every part.
pub proof fn law_summaries_hide_nothing(a: TurnSummary, b: TurnSummary)
    requires
        a@ == b@,
    ensures
        a.role == b.role,
        a.turn_id@ == b.turn_id@,
        a.status@ == b.status@,
        opt_text(a.final_message) == opt_text(b.final_message),
        texts(a.commands@) == texts(b.commands@),
        texts(a.file_changes@) == texts(b.file_changes@),
        texts(a.errors@) == texts(b.errors@),
{
}

/// Records of turns of which the same is said are the same in every part, as a summary is.
pub proof fn law_records_hide_nothing(a: TurnCollector, b: TurnCollector, summary: TurnSummary)
    ensures
        a@ == b@ ==> {
            &&& a.role == b.role
            &&& a.turn_id@ == b.turn_id@
            &&& a.status@ == b.status@
            &&& opt_text(a.final_message) == opt_text(b.final_message)
            &&& texts(a.commands@) == texts(b.commands@)
            &&& texts(a.file_changes@) == texts(b.file_changes@)
            &&& texts(a.errors@) == texts(b.errors@)
        },
        a@ == summary@ ==> {
            &&& a.status@ == summary.status@
            &&& opt_text(a.final_message) == opt_text(summary.final_message)
            &&& texts(a.commands@) == texts(summary.commands@)
            &&& texts(a.file_changes@) == texts(summary.file_changes@)
            &&& texts(a.errors@) == texts(summary.errors@)
        },
{
}

/// States of which the same is said are the same in every part.
pub proof fn law_states_hide_nothing(a: AutomodeState, b: AutomodeState)
    requires
        a@ == b@,
    ensures
        a.goal@ == b.goal@,
        a.project@ == b.project@,
        a.started_at == b.started_at,
        a.deadline_at == b.deadline_at,
        a.iteration == b.iteration,
        a.progress_document@ == b.progress_document@,
        a.last_worker_summary is Some <==> b.last_worker_summary is Some,
        a.last_worker_summary is Some ==> a.last_worker_summary->0@ == b.last_worker_summary->0@,
        a.last_decision is Some <==> b.last_decision is Some,
        a.last_decision is Some ==> a.last_decision->0@ == b.last_decision->0@,
{
}

/// Runs of which the same is said stand at the same place, with the same state and deadline.
pub proof fn law_runs_hide_nothing(a: RunLoop, b: RunLoop)
    requires
        a@ == b@,
    ensures
        a.state@ == b.state@,
        a.state_dir@ == b.state_dir@,
        a.deadline == b.deadline,
        a.phase == b.phase,
{
}

/// Records of which the same is said are of the same kind and hold the same.
pub proof fn law_records_of_runs_hide_nothing(a: RunRecord, b: RunRecord)
    requires
        a@ == b@,
    ensures
        a matches RunRecord::Started { goal, project, deadline_at } ==> b is Started
            && b->Started_goal@ == goal@ && b->Started_project@ == project@
            && b->Started_deadline_at == deadline_at,
        a matches RunRecord::WorkerTurnCompleted { iteration, summary } ==> b is WorkerTurnCompleted
            && b->WorkerTurnCompleted_iteration == iteration && b->WorkerTurnCompleted_summary@
            == summary@,
        a matches RunRecord::OperatorMissing { summary } ==> b is OperatorMissing
            && b->OperatorMissing_summary@ == summary@,
        a matches RunRecord::OperatorUnreadable { reason, message } ==> b is OperatorUnreadable
            && b->OperatorUnreadable_reason@ == reason@ && b->OperatorUnreadable_message@
            == message@,
        a matches RunRecord::OperatorDecision { iteration, decision } ==> b is OperatorDecision
            && b->OperatorDecision_iteration == iteration && b->OperatorDecision_decision@
            == decision@,
        a matches RunRecord::Finished { iteration, error_seen } ==> b is Finished
            && b->Finished_iteration == iteration && b->Finished_error_seen == error_seen,
{
}

/// Items of which the same is said are of the same kind and hold the same.
pub proof fn law_items_hide_nothing(a: ThreadItem, b: ThreadItem)
    requires
        a@ == b@,
    ensures
        a matches ThreadItem::AgentMessage { text } ==> b is AgentMessage && b->text@ == text@,
        a matches ThreadItem::CommandExecution { command, exit_code, aggregated_output } ==> b
            is CommandExecution && b->command@ == command@ && b->exit_code == exit_code && opt_text(
            b->aggregated_output,
        ) == opt_text(aggregated_output),
        a matches ThreadItem::FileChange { changes } ==> b is FileChange && b->changes@.len()
            == changes@.len() && forall|i: int|
            0 <= i < changes@.len() ==> (#[trigger] changes@[i]).kind@ == b->changes@[i].kind@
                && changes@[i].path@ == b->changes@[i].path@,
        a is McpToolCall ==> b is McpToolCall && a->server@ == b->server@ && a->McpToolCall_tool@
            == b->McpToolCall_tool@ && opt_text(a->error) == opt_text(b->error),
        a is DynamicToolCall ==> b is DynamicToolCall && a->DynamicToolCall_tool@
            == b->DynamicToolCall_tool@ && a->success == b->success && a->content_items
            == b->content_items,
        a is Other ==> b is Other,
{
    if a is FileChange && b is FileChange {
        let left = crate::automode::turn::update_models(a->changes@);
        let right = crate::automode::turn::update_models(b->changes@);
        assert(left.len() == a->changes@.len() && right.len() == b->changes@.len());
        assert forall|i: int| 0 <= i < a->changes@.len() implies (#[trigger] a->changes@[i]).kind@
            == b->changes@[i].kind@ && a->changes@[i].path@ == b->changes@[i].path@ by {
            assert(left[i] == right[i]);
        }
    }
}

/// Notifications of which the same is said are of the same kind and about the same turn, and
/// hold the same.
pub proof fn law_notifications_hide_nothing(a: ServerNotification, b: ServerNotification)
    requires
        a@ == b@,
    ensures
        a is Error ==> b is Error && a->Error_thread_id@ == b->Error_thread_id@
            && a->Error_turn_id@ == b->Error_turn_id@ && a->message@ == b->message@,
        a is ItemCompleted ==> b is ItemCompleted && a->ItemCompleted_thread_id@
            == b->ItemCompleted_thread_id@ && a->ItemCompleted_turn_id@ == b->ItemCompleted_turn_id@
            && a->item@ == b->item@,
        a is TurnCompleted ==> {
            &&& b is TurnCompleted
            &&& a->TurnCompleted_thread_id@ == b->TurnCompleted_thread_id@
            &&& a->TurnCompleted_turn_id@ == b->TurnCompleted_turn_id@
            &&& a->status == b->status
            &&& opt_text(a->error) == opt_text(b->error)
            &&& a->items@.len() == b->items@.len()
            &&& forall|i: int| 0 <= i < a->items@.len() ==> (#[trigger] a->items@[i])@
                == b->items@[i]@
        },
        a is Other ==> b is Other,
{
    if a is TurnCompleted && b is TurnCompleted {
        let left = crate::automode::turn::item_models(a->items@);
        let right = crate::automode::turn::item_models(b->items@);
        assert(left.len() == a->items@.len() && right.len() == b->items@.len());
        assert forall|i: int| 0 <= i < a->items@.len() implies (#[trigger] a->items@[i])@
            == b->items@[i]@ by {
            assert(left[i] == right[i]);
        }
    }
}

/// Chunks of which the same is said have the same context and the same two sides.
pub proof fn law_chunks_hide_nothing(a: UpdateFileChunk, b: UpdateFileChunk)
    requires
        a@ == b@,
    ensures
        opt_text(a.change_context) == opt_text(b.change_context),
        texts(a.old_lines@) == texts(b.old_lines@),
        texts(a.new_lines@) == texts(b.new_lines@),
        a.is_end_of_file == b.is_end_of_file,
{
}

/// Hunks of which the same is said are of the same kind and about the same files, and hold the
/// same.
pub proof fn law_hunks_hide_nothing(a: Hunk, b: Hunk)
    requires
        a@ == b@,
    ensures
        a is AddFile ==> b is AddFile && a->AddFile_path@ == b->AddFile_path@ && a->contents@
            == b->contents@,
        a is DeleteFile ==> b is DeleteFile && a->DeleteFile_path@ == b->DeleteFile_path@,
        a is UpdateFile ==> {
            &&& b is UpdateFile
            &&& a->UpdateFile_path@ == b->UpdateFile_path@
            &&& opt_text(a->move_path) == opt_text(b->move_path)
            &&& a->chunks@.len() == b->chunks@.len()
            &&& forall|i: int| 0 <= i < a->chunks@.len() ==> (#[trigger] a->chunks@[i])@
                == b->chunks@[i]@
        },
{
    if a is UpdateFile && b is UpdateFile {
        let left = crate::patch::model::chunk_models(a->chunks@);
        let right = crate::patch::model::chunk_models(b->chunks@);
        assert(left.len() == a->chunks@.len() && right.len() == b->chunks@.len());
        assert forall|i: int| 0 <= i < a->chunks@.len() implies (#[trigger] a->chunks@[i])@
            == b->chunks@[i]@ by {
            assert(left[i] == right[i]);
        }
    }
}

/// Patches of which the same is said have the same text and the same hunks.
pub proof fn law_patches_hide_nothing(a: ApplyPatchArgs, b: ApplyPatchArgs)
    requires
        a@ == b@,
    ensures
        a.patch@ == b.patch@,
        opt_text(a.workdir) == opt_text(b.workdir),
        a.hunks@.len() == b.hunks@.len(),
        forall|i: int| 0 <= i < a.hunks@.len() ==> (#[trigger] a.hunks@[i])@ == b.hunks@[i]@,
{
    let left = crate::patch::model::hunk_models(a.hunks@);
    let right = crate::patch::model::hunk_models(b.hunks@);
    assert(left.len() == a.hunks@.len() && right.len() == b.hunks@.len());
    assert forall|i: int| 0 <= i < a.hunks@.len() implies (#[trigger] a.hunks@[i])@
        == b.hunks@[i]@ by {
        assert(left[i] == right[i]);
    }
}

/// Errors of which the same is said are of the same kind, with the same message and line.
pub proof fn law_errors_hide_nothing(a: ParseError, b: ParseError)
    requires
        a@ == b@,
    ensures
        a matches ParseError::InvalidPatchError(message) ==> b matches ParseError::InvalidPatchError(
            other,
        ) && message@ == other@,
        a is InvalidHunkError ==> b is InvalidHunkError && a->message@ == b->message@
            && a->line_number == b->line_number,
{
}

/// Requests of which the same is said ask for the same.
pub proof fn law_requests_hide_nothing(
    a: AutomodeStartRequest,
    b: AutomodeStartRequest,
    c: AutomodeResumeRequest,
    d: AutomodeResumeRequest,
)
    ensures
        a@ == b@ ==> a.project@ == b.project@ && a.duration == b.duration && a.goal@ == b.goal@
            && a.skip_git_repo_check == b.skip_git_repo_check && a.resume == b.resume,
        c@ == d@ ==> c.project@ == d.project@ && c.duration == d.duration && c.skip_git_repo_check
            == d.skip_git_repo_check,
{
}

/// Interactive runs, and controllers, of which the same is said are the same in every part.
pub proof fn law_sessions_hide_nothing(
    a: AutomodeRunState,
    b: AutomodeRunState,
    c: AutomodeController,
    d: AutomodeController,
)
    ensures
        a@ == b@ ==> {
            &&& a.request@ == b.request@
            &&& a.state_dir@ == b.state_dir@
            &&& a.progress_path@ == b.progress_path@
            &&& a.deadline == b.deadline
            &&& a.iteration == b.iteration
            &&& a.run_id == b.run_id
        },
        c@ == d@ ==> {
            &&& c.timer == d.timer
            &&& c.session is Some <==> d.session is Some
            &&& c.session is Some ==> c.session->0@ == d.session->0@
        },
{
}

/// Files, prompts, numbers and pieces of text of which the same is said hold the same.
pub proof fn law_what_is_written_and_shown_hides_nothing(
    a: StartFiles,
    b: StartFiles,
    c: AutomodeTurnPrompt,
    d: AutomodeTurnPrompt,
    e: MetricNumbers,
    f: MetricNumbers,
    g: StyledSpan,
    h: StyledSpan,
)
    ensures
        a@ == b@ ==> {
            &&& a.state_dir@ == b.state_dir@
            &&& a.progress_path@ == b.progress_path@
            &&& a.progress_document@ == b.progress_document@
            &&& a.state_path@ == b.state_path@
            &&& a.state_contents@ == b.state_contents@
        },
        c@ == d@ ==> c.prompt@ == d.prompt@ && c.display_text@ == d.display_text@ && c.cwd@
            == d.cwd@,
        e@ == f@ ==> e.baseline@ == f.baseline@ && e.current@ == f.current@ && e.target@
            == f.target@,
        g@ == h@ ==> g.text@ == h.text@ && g.style == h.style,
{
}

} // verus!
