//! The data that an unattended run keeps.
use crate::text::{copy_option, copy_strings, opt_text, texts};
use vstd::prelude::*;

verus! {

/// Who a turn is taken by.
#[derive(Debug, Clone, Copy, PartialEq, Eq, Structural)]
pub enum TurnRole {
    Operator,
    Worker,
}

/// Which way a metric is meant to go.
#[derive(Debug, Clone, Copy, PartialEq, Eq, Structural)]
pub enum MetricDirection {
    Increase,
    Decrease,
    Equal,
}

/// A measurable quantity. The three numbers are held as the bits of double-precision values.
#[derive(Debug, PartialEq, Eq)]
pub struct AutomodeMetric {
    pub name: String,
    pub baseline: u64,
    pub current: u64,
    pub target: u64,
    pub unit: String,
    pub direction: MetricDirection,
    pub measurement_method: String,
}

/// What the operator decided.
#[derive(Debug, PartialEq, Eq)]
pub struct AutomodeDecision {
    pub metrics: Vec<AutomodeMetric>,
    pub assessment: String,
    pub learned: Vec<String>,
    pub document_changes: Vec<String>,
    pub next_prompt: String,
}

/// What came out of one turn.
#[derive(Debug, PartialEq, Eq)]
pub struct TurnSummary {
    pub role: TurnRole,
    pub turn_id: String,
    pub status: String,
    pub final_message: Option<String>,
    pub commands: Vec<String>,
    pub file_changes: Vec<String>,
    pub errors: Vec<String>,
}

/// What a run keeps from one turn to the next.
#[derive(Debug, PartialEq, Eq)]
pub struct AutomodeState {
    pub goal: String,
    pub project: String,
    pub started_at: i64,
    pub deadline_at: i64,
    pub iteration: u64,
    pub progress_document: String,
    pub last_worker_summary: Option<TurnSummary>,
    pub last_decision: Option<AutomodeDecision>,
}

/// What an [`AutomodeMetric`] says.
pub struct MetricModel {
    pub name: Seq<char>,
    pub baseline: u64,
    pub current: u64,
    pub target: u64,
    pub unit: Seq<char>,
    pub direction: MetricDirection,
    pub measurement_method: Seq<char>,
}

/// What an [`AutomodeDecision`] says.
pub struct DecisionModel {
    pub metrics: Seq<MetricModel>,
    pub assessment: Seq<char>,
    pub learned: Seq<Seq<char>>,
    pub document_changes: Seq<Seq<char>>,
    pub next_prompt: Seq<char>,
}

/// What a [`TurnSummary`] says.
pub struct SummaryModel {
    pub role: TurnRole,
    pub turn_id: Seq<char>,
    pub status: Seq<char>,
    pub final_message: Option<Seq<char>>,
    pub commands: Seq<Seq<char>>,
    pub file_changes: Seq<Seq<char>>,
    pub errors: Seq<Seq<char>>,
}

/// What an [`AutomodeState`] says.
pub struct StateModel {
    pub goal: Seq<char>,
    pub project: Seq<char>,
    pub started_at: i64,
    pub deadline_at: i64,
    pub iteration: u64,
    pub progress_document: Seq<char>,
    pub last_worker_summary: Option<SummaryModel>,
    pub last_decision: Option<DecisionModel>,
}

impl View for AutomodeMetric {
    type V = MetricModel;

    open spec fn view(&self) -> MetricModel {
        MetricModel {
            name: self.name@,
            baseline: self.baseline,
            current: self.current,
            target: self.target,
            unit: self.unit@,
            direction: self.direction,
            measurement_method: self.measurement_method@,
        }
    }
}

/// What a list of metrics says.
pub open spec fn metric_models(metrics: Seq<AutomodeMetric>) -> Seq<MetricModel> {
    metrics.map_values(|metric: AutomodeMetric| metric@)
}

impl View for AutomodeDecision {
    type V = DecisionModel;

    open spec fn view(&self) -> DecisionModel {
        DecisionModel {
            metrics: metric_models(self.metrics@),
            assessment: self.assessment@,
            learned: texts(self.learned@),
            document_changes: texts(self.document_changes@),
            next_prompt: self.next_prompt@,
        }
    }
}

impl View for TurnSummary {
    type V = SummaryModel;

    open spec fn view(&self) -> SummaryModel {
        SummaryModel {
            role: self.role,
            turn_id: self.turn_id@,
            status: self.status@,
            final_message: opt_text(self.final_message),
            commands: texts(self.commands@),
            file_changes: texts(self.file_changes@),
            errors: texts(self.errors@),
        }
    }
}

/// What a summary says, if there is one.
pub open spec fn opt_summary(summary: Option<TurnSummary>) -> Option<SummaryModel> {
    match summary {
        Some(summary) => Some(summary@),
        None => None,
    }
}

/// What a decision says, if there is one.
pub open spec fn opt_decision(decision: Option<AutomodeDecision>) -> Option<DecisionModel> {
    match decision {
        Some(decision) => Some(decision@),
        None => None,
    }
}

impl View for AutomodeState {
    type V = StateModel;

    open spec fn view(&self) -> StateModel {
        StateModel {
            goal: self.goal@,
            project: self.project@,
            started_at: self.started_at,
            deadline_at: self.deadline_at,
            iteration: self.iteration,
            progress_document: self.progress_document@,
            last_worker_summary: opt_summary(self.last_worker_summary),
            last_decision: opt_decision(self.last_decision),
        }
    }
}

impl Clone for AutomodeMetric {
    fn clone(&self) -> (r: Self)
        ensures
            r@ == self@,
    {
        AutomodeMetric {
            name: self.name.clone(),
            baseline: self.baseline,
            current: self.current,
            target: self.target,
            unit: self.unit.clone(),
            direction: self.direction,
            measurement_method: self.measurement_method.clone(),
        }
    }
}

/// Returns a copy of a list of metrics.
pub fn copy_metrics(metrics: &Vec<AutomodeMetric>) -> (r: Vec<AutomodeMetric>)
    ensures
        metric_models(r@) == metric_models(metrics@),
{
    let mut r: Vec<AutomodeMetric> = Vec::new();
    let mut i: usize = 0;
    while i < metrics.len()
        invariant
            i <= metrics.len(),
            r@.len() == i,
            forall|k: int| 0 <= k < i ==> (#[trigger] r@[k])@ == metrics@[k]@,
        decreases metrics.len() - i,
    {
        r.push(metrics[i].clone());
        i += 1;
    }
    assert(metric_models(r@) =~= metric_models(metrics@));
    r
}

impl Clone for AutomodeDecision {
    fn clone(&self) -> (r: Self)
        ensures
            r@ == self@,
    {
        AutomodeDecision {
            metrics: copy_metrics(&self.metrics),
            assessment: self.assessment.clone(),
            learned: copy_strings(&self.learned),
            document_changes: copy_strings(&self.document_changes),
            next_prompt: self.next_prompt.clone(),
        }
    }
}

impl Clone for TurnSummary {
    fn clone(&self) -> (r: Self)
        ensures
            r@ == self@,
    {
        TurnSummary {
            role: self.role,
            turn_id: self.turn_id.clone(),
            status: self.status.clone(),
            final_message: copy_option(&self.final_message),
            commands: copy_strings(&self.commands),
            file_changes: copy_strings(&self.file_changes),
            errors: copy_strings(&self.errors),
        }
    }
}

} // verus!
