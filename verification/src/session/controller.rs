//! The controller of interactive runs: there is at most one run at a time, and it ends when its
//! time is over, when it is stopped, or when a turn cannot be started.
use crate::automode::turn::TurnStatus;
use crate::session::lines::{
    automode_finished_lines, automode_stopped_lines, finished_lines, line_models, stopped_lines,
    SpanModel, StyledLine,
};
use crate::session::run_state::{
    automode_started_lines, begin_lines, is_over, next_iteration, prompt_of, AutomodeRunState,
    AutomodeTurnPrompt, PromptModel, SessionModel,
};
use vstd::prelude::*;
use vstd::string::*;

verus! {

/// Something that the controller wants done.
#[derive(Debug, PartialEq, Eq)]
pub enum Effect {
    ShowError(String),
    ShowInfo(String),
    ShowLines(Vec<StyledLine>),
    /// Call back at the deadline with the number of the run.
    ArmTimer { deadline: u128, run_id: u64 },
    ClearTimer,
    /// Start a turn, and report whether that worked.
    Submit(AutomodeTurnPrompt),
    /// Interrupt the turn that is running.
    Interrupt,
    Redraw,
}

/// What an [`Effect`] says.
pub enum EffectModel {
    ShowError(Seq<char>),
    ShowInfo(Seq<char>),
    ShowLines(Seq<Seq<SpanModel>>),
    ArmTimer { deadline: u128, run_id: u64 },
    ClearTimer,
    Submit(PromptModel),
    Interrupt,
    Redraw,
}

impl View for Effect {
    type V = EffectModel;

    open spec fn view(&self) -> EffectModel {
        match self {
            Effect::ShowError(message) => EffectModel::ShowError(message@),
            Effect::ShowInfo(message) => EffectModel::ShowInfo(message@),
            Effect::ShowLines(lines) => EffectModel::ShowLines(line_models(lines@)),
            Effect::ArmTimer { deadline, run_id } => EffectModel::ArmTimer {
                deadline: *deadline,
                run_id: *run_id,
            },
            Effect::ClearTimer => EffectModel::ClearTimer,
            Effect::Submit(prompt) => EffectModel::Submit(prompt@),
            Effect::Interrupt => EffectModel::Interrupt,
            Effect::Redraw => EffectModel::Redraw,
        }
    }
}

/// What a list of effects says.
pub open spec fn effect_models(effects: Seq<Effect>) -> Seq<EffectModel> {
    effects.map_values(|effect: Effect| effect@)
}

/// The controller, with the number of the run that the timer is armed for.
#[derive(Debug, PartialEq, Eq)]
pub struct AutomodeController {
    pub session: Option<AutomodeRunState>,
    pub timer: Option<u64>,
}

/// What an [`AutomodeController`] holds.
pub struct ControllerModel {
    pub session: Option<SessionModel>,
    pub timer: Option<u64>,
}

impl View for AutomodeController {
    type V = ControllerModel;

    open spec fn view(&self) -> ControllerModel {
        ControllerModel {
            session: match self.session {
                Some(session) => Some(session@),
                None => None,
            },
            timer: self.timer,
        }
    }
}

/// A controller without a run.
pub open spec fn idle() -> ControllerModel {
    ControllerModel { session: None, timer: None }
}

/// The timer that a run needs.
pub open spec fn timer_for(session: SessionModel) -> Option<u64> {
    if session.deadline is Some {
        Some(session.run_id)
    } else {
        None
    }
}

/// The timer is armed for the run that is under way, if there is an end to it, and for no other.
pub open spec fn well_formed(c: ControllerModel) -> bool {
    c.timer == (match c.session {
        Some(session) => timer_for(session),
        None => None,
    })
}

/// Why no run can be started, if none can.
pub open spec fn start_refusal(c: ControllerModel, turn_running: bool) -> Option<Seq<char>> {
    if c.session is Some {
        Some("Automode is already running. Use /automode stop first."@)
    } else if turn_running {
        Some("Automode cannot start while a turn is already running."@)
    } else {
        None
    }
}

/// What is done where something went wrong.
pub open spec fn error_effects(message: Seq<char>) -> Seq<EffectModel> {
    seq![EffectModel::ShowError(message), EffectModel::Redraw]
}

/// What is done as a run begins.
pub open spec fn begin_effects(session: SessionModel, now: u128) -> Seq<EffectModel> {
    let timer = match session.deadline {
        Some(deadline) => seq![EffectModel::ArmTimer { deadline, run_id: session.run_id }],
        None => seq![],
    };
    seq![EffectModel::ClearTimer] + timer + seq![
        EffectModel::ShowLines(begin_lines(session)),
        EffectModel::Submit(prompt_of(session, now)),
    ]
}

/// A run that begins.
pub open spec fn begun(session: SessionModel) -> ControllerModel {
    ControllerModel { session: Some(next_iteration(session)), timer: timer_for(session) }
}

/// What is done as a run ends.
pub open spec fn end_effects(lines: Seq<Seq<SpanModel>>, interrupt: bool) -> Seq<EffectModel> {
    if interrupt {
        seq![
            EffectModel::ClearTimer,
            EffectModel::ShowLines(lines),
            EffectModel::Interrupt,
            EffectModel::Redraw,
        ]
    } else {
        seq![EffectModel::ClearTimer, EffectModel::ShowLines(lines), EffectModel::Redraw]
    }
}

/// What follows from whether a turn could be started.
pub open spec fn submitted(c: ControllerModel, accepted: bool) -> (
    ControllerModel,
    Seq<EffectModel>,
) {
    if accepted {
        (c, seq![EffectModel::Redraw])
    } else {
        (
            idle(),
            seq![
                EffectModel::ShowError("Automode failed to submit the next turn."@),
                EffectModel::ClearTimer,
                EffectModel::Redraw,
            ],
        )
    }
}

/// What follows from the user's wish to stop.
pub open spec fn stopped(c: ControllerModel, turn_running: bool) -> (
    ControllerModel,
    Seq<EffectModel>,
) {
    match c.session {
        None => (
            c,
            seq![EffectModel::ShowInfo("Automode is not running."@), EffectModel::Redraw],
        ),
        Some(session) => (
            idle(),
            end_effects(stopped_lines(Some(session.progress_path)), turn_running),
        ),
    }
}

/// What follows from the timer of a run.
pub open spec fn timer_fired(c: ControllerModel, run_id: u64, turn_running: bool) -> (
    ControllerModel,
    Seq<EffectModel>,
) {
    match c.session {
        Some(session) if session.run_id == run_id => (
            idle(),
            end_effects(finished_lines(session.progress_path), turn_running),
        ),
        _ => (c, seq![]),
    }
}

/// Whether the end of a turn is followed by another turn of the run.
pub open spec fn goes_on(
    c: ControllerModel,
    status: TurnStatus,
    now: u128,
    turn_running: bool,
) -> bool {
    &&& c.session is Some
    &&& status == TurnStatus::Completed || status == TurnStatus::Failed
    &&& !is_over(c.session->0.deadline, now)
    &&& !turn_running
}

/// What follows from the end of a turn: the next turn, unless the run is over, or the turn was
/// interrupted, or another turn has been started already.
pub open spec fn turn_over(
    c: ControllerModel,
    status: TurnStatus,
    now: u128,
    turn_running: bool,
) -> (ControllerModel, Seq<EffectModel>) {
    match c.session {
        None => (c, seq![]),
        Some(session) => {
            let finished = finished_lines(session.progress_path);
            let over = is_over(session.deadline, now);
            match status {
                TurnStatus::Interrupted => (
                    idle(),
                    end_effects(
                        if over {
                            finished
                        } else {
                            stopped_lines(Some(session.progress_path))
                        },
                        false,
                    ),
                ),
                TurnStatus::InProgress => (c, seq![EffectModel::Redraw]),
                _ => if goes_on(c, status, now, turn_running) {
                    (
                        ControllerModel { session: Some(next_iteration(session)), ..c },
                        seq![EffectModel::Submit(prompt_of(session, now))],
                    )
                } else if over {
                    (idle(), end_effects(finished, false))
                } else {
                    (c, seq![EffectModel::Redraw])
                },
            }
        },
    }
}

/// Whatever happens, the timer stays armed for the run that is under way, and for no other.
pub proof fn law_timer_belongs_to_the_run(
    c: ControllerModel,
    session: SessionModel,
    accepted: bool,
    turn_running: bool,
    run_id: u64,
    status: TurnStatus,
    now: u128,
)
    requires
        well_formed(c),
    ensures
        well_formed(begun(session)),
        well_formed(submitted(c, accepted).0),
        well_formed(stopped(c, turn_running).0),
        well_formed(timer_fired(c, run_id, turn_running).0),
        well_formed(turn_over(c, status, now, turn_running).0),
{
}

/// The timer of a run that is no longer under way does nothing.
pub proof fn law_stale_timer_is_ignored(c: ControllerModel, run_id: u64, turn_running: bool)
    requires
        c.session matches Some(session) ==> session.run_id != run_id,
    ensures
        timer_fired(c, run_id, turn_running) == (c, Seq::<EffectModel>::empty()),
{
}

/// Once a run is stopped, interrupted or over, it stays so: none of what may still be reported of
/// it starts another turn.
pub proof fn law_ended_runs_stay_ended(
    c: ControllerModel,
    turn_running: bool,
    status: TurnStatus,
    now: u128,
    run_id: u64,
)
    requires
        c.session is None,
    ensures
        timer_fired(c, run_id, turn_running) == (c, Seq::<EffectModel>::empty()),
        turn_over(c, status, now, turn_running) == (c, Seq::<EffectModel>::empty()),
        stopped(c, turn_running).0 == c,
{
}

/// No turn is started once the time of the run is over.
pub proof fn law_no_turn_after_the_end(
    c: ControllerModel,
    status: TurnStatus,
    now: u128,
    turn_running: bool,
)
    requires
        c.session is Some,
        is_over(c.session->0.deadline, now),
        status != TurnStatus::InProgress,
    ensures
        turn_over(c, status, now, turn_running) == (
            idle(),
            end_effects(finished_lines(c.session->0.progress_path), false),
        ),
{
}

fn effects1(a: Effect) -> (r: Vec<Effect>)
    ensures
        effect_models(r@) == seq![a@],
{
    let mut r: Vec<Effect> = Vec::new();
    r.push(a);
    assert(effect_models(r@) =~= seq![a@]);
    r
}

fn show_error(message: String) -> (r: Vec<Effect>)
    ensures
        effect_models(r@) == error_effects(message@),
{
    let mut r: Vec<Effect> = Vec::new();
    r.push(Effect::ShowError(message));
    r.push(Effect::Redraw);
    assert(effect_models(r@) =~= error_effects(message@));
    r
}

fn end_run(lines: Vec<StyledLine>, interrupt: bool) -> (r: Vec<Effect>)
    ensures
        effect_models(r@) == end_effects(line_models(lines@), interrupt),
{
    let mut r: Vec<Effect> = Vec::new();
    r.push(Effect::ClearTimer);
    r.push(Effect::ShowLines(lines));
    if interrupt {
        r.push(Effect::Interrupt);
    }
    r.push(Effect::Redraw);
    assert(effect_models(r@) =~= end_effects(line_models(lines@), interrupt));
    r
}

impl AutomodeController {
    /// Returns a controller without a run.
    pub fn new() -> (r: Self)
        ensures
            r@ == idle(),
            well_formed(r@),
    {
        AutomodeController { session: None, timer: None }
    }

    /// Returns what is done instead of starting a run, if none can be started.
    pub fn refuse_start(&self, turn_running: bool) -> (r: Option<Vec<Effect>>)
        ensures
            match r {
                Some(effects) => start_refusal(self@, turn_running) is Some && effect_models(
                    effects@,
                ) == error_effects(start_refusal(self@, turn_running)->0),
                None => start_refusal(self@, turn_running) is None,
            },
    {
        if self.session.is_some() {
            return Some(
                show_error("Automode is already running. Use /automode stop first.".to_owned()),
            );
        }
        if turn_running {
            return Some(
                show_error("Automode cannot start while a turn is already running.".to_owned()),
            );
        }
        None
    }

    /// Takes over a run that has been prepared, or says why it could not be.
    pub fn start_automode(
        &mut self,
        prepared: Result<AutomodeRunState, String>,
        now: u128,
    ) -> (r: Vec<Effect>)
        requires
            old(self)@.session is None,
            prepared matches Ok(session) ==> session@.iteration < u64::MAX,
        ensures
            match prepared {
                Ok(session) => final(self)@ == begun(session@) && effect_models(r@)
                    == begin_effects(session@, now),
                Err(message) => final(self)@ == old(self)@ && effect_models(r@) == error_effects(
                    message@,
                ),
            },
    {
        let mut session = match prepared {
            Ok(session) => session,
            Err(message) => return show_error(message),
        };
        let ghost model = session@;
        let lines = automode_started_lines(&session);
        let mut r: Vec<Effect> = Vec::new();
        r.push(Effect::ClearTimer);
        self.timer = None;
        if let Some(deadline) = session.deadline() {
            r.push(Effect::ArmTimer { deadline, run_id: session.run_id() });
            self.timer = Some(session.run_id());
        }
        r.push(Effect::ShowLines(lines));
        let prompt = session.next_turn_prompt(now);
        r.push(Effect::Submit(prompt));
        self.session = Some(session);
        assert(effect_models(r@) =~= begin_effects(model, now));
        r
    }

    /// Takes into account whether a turn could be started.
    pub fn submit_next_automode_turn(&mut self, accepted: bool) -> (r: Vec<Effect>)
        ensures
            (final(self)@, effect_models(r@)) == submitted(old(self)@, accepted),
    {
        if accepted {
            return effects1(Effect::Redraw);
        }
        self.session = None;
        self.timer = None;
        let mut r: Vec<Effect> = Vec::new();
        r.push(Effect::ShowError("Automode failed to submit the next turn.".to_owned()));
        r.push(Effect::ClearTimer);
        r.push(Effect::Redraw);
        assert(effect_models(r@) =~= submitted(old(self)@, accepted).1);
        r
    }

    /// Stops the run.
    pub fn stop_automode(&mut self, turn_running: bool) -> (r: Vec<Effect>)
        ensures
            (final(self)@, effect_models(r@)) == stopped(old(self)@, turn_running),
    {
        let lines = match &self.session {
            Some(session) => automode_stopped_lines(Some(session.progress_path())),
            None => {
                let mut r: Vec<Effect> = Vec::new();
                r.push(Effect::ShowInfo("Automode is not running.".to_owned()));
                r.push(Effect::Redraw);
                assert(effect_models(r@) =~= stopped(old(self)@, turn_running).1);
                return r;
            },
        };
        self.session = None;
        self.timer = None;
        end_run(lines, turn_running)
    }

    /// Takes the timer of a run into account.
    pub fn handle_automode_deadline_reached(
        &mut self,
        run_id: u64,
        turn_running: bool,
    ) -> (r: Vec<Effect>)
        ensures
            (final(self)@, effect_models(r@)) == timer_fired(old(self)@, run_id, turn_running),
    {
        let none: Vec<Effect> = Vec::new();
        assert(effect_models(none@) =~= seq![]);
        let lines = match &self.session {
            Some(session) => {
                if session.run_id() != run_id {
                    return none;
                }
                automode_finished_lines(session.progress_path())
            },
            None => return none,
        };
        self.session = None;
        self.timer = None;
        end_run(lines, turn_running)
    }

    /// Takes the end of a turn into account.
    pub fn handle_automode_turn_completed(
        &mut self,
        status: TurnStatus,
        now: u128,
        turn_running: bool,
    ) -> (r: Vec<Effect>)
        requires
            goes_on(old(self)@, status, now, turn_running) ==> old(self)@.session->0.iteration
                < u64::MAX,
        ensures
            (final(self)@, effect_models(r@)) == turn_over(
                old(self)@,
                status,
                now,
                turn_running,
            ),
    {
        let (over, finished, stopped) = match &self.session {
            Some(session) => (
                session.deadline_reached(now),
                automode_finished_lines(session.progress_path()),
                automode_stopped_lines(Some(session.progress_path())),
            ),
            None => {
                let none: Vec<Effect> = Vec::new();
                assert(effect_models(none@) =~= seq![]);
                return none;
            },
        };
        match status {
            TurnStatus::Interrupted => {
                self.session = None;
                self.timer = None;
                if over {
                    end_run(finished, false)
                } else {
                    end_run(stopped, false)
                }
            },
            TurnStatus::InProgress => effects1(Effect::Redraw),
            TurnStatus::Completed | TurnStatus::Failed => {
                if over {
                    self.session = None;
                    self.timer = None;
                    return end_run(finished, false);
                }
                if turn_running {
                    return effects1(Effect::Redraw);
                }
                let mut session: Option<AutomodeRunState> = None;
                core::mem::swap(&mut session, &mut self.session);
                match session {
                    Some(session) => {
                        let mut session = session;
                        let prompt = session.next_turn_prompt(now);
                        self.session = Some(session);
                        effects1(Effect::Submit(prompt))
                    },
                    None => effects1(Effect::Redraw),
                }
            },
        }
    }
}

} // verus!
