//! What the controller does with a run, whatever happens.
use crate::automode::turn::TurnStatus;
use crate::duration::duration_text;
use crate::session::command::shown_command;
use crate::session::controller::{
    begin_effects, begun, effect_models, error_effects, start_refusal, stopped, submitted,
    timer_fired, turn_over, AutomodeController, ControllerModel, Effect, EffectModel,
};
use crate::session::lines::{
    automode_finished_lines, automode_stopped_lines, finished_lines, line_models, started_lines,
    stopped_lines, SpanModel, SpanStyle, StyledLine,
};
use crate::session::run_state::{
    automode_started_lines, begin_lines, prompt_of, AutomodeRunState, SessionModel,
};
use vstd::prelude::*;

verus! {

/// Whether one of the effects starts a turn.
pub open spec fn starts_turn(effects: Seq<EffectModel>) -> bool {
    exists|i: int| 0 <= i < effects.len() && #[trigger] effects[i] is Submit
}

/// Whether one of the effects interrupts the turn that is running.
pub open spec fn interrupts(effects: Seq<EffectModel>) -> bool {
    effects.contains(EffectModel::Interrupt)
}

/// Whether one of the effects arms the timer.
pub open spec fn arms_timer(effects: Seq<EffectModel>) -> bool {
    exists|i: int| 0 <= i < effects.len() && #[trigger] effects[i] is ArmTimer
}

/// Whether the time of a run has come.
pub open spec fn time_has_come(session: SessionModel, now: u128) -> bool {
    session.deadline is Some && session.deadline->0 <= now
}

/// Whether a run has ended: the controller has none any more and its timer is off, it has been
/// shown so, and nothing is started.
pub open spec fn has_ended(
    after: (ControllerModel, Seq<EffectModel>),
    lines: Seq<Seq<SpanModel>>,
) -> bool {
    &&& after.0.session is None
    &&& after.0.timer is None
    &&& after.1.contains(EffectModel::ClearTimer)
    &&& after.1.contains(EffectModel::ShowLines(lines))
    &&& after.1.contains(EffectModel::Redraw)
    &&& !starts_turn(after.1)
    &&& !arms_timer(after.1)
}

/// A run that ends by its timer, or because the user stops it, ends for good, and the turn that is
/// running then is interrupted. Where no turn is running, nothing is interrupted.
pub proof fn law_ending_a_run_interrupts_its_turn(
    c: ControllerModel,
    run_id: u64,
    turn_running: bool,
)
    ensures
        interrupts(timer_fired(c, run_id, turn_running).1) <==> turn_running && c.session is Some
            && c.session->0.run_id == run_id,
        interrupts(stopped(c, turn_running).1) <==> turn_running && c.session is Some,
        c.session is Some && c.session->0.run_id == run_id ==> has_ended(
            timer_fired(c, run_id, turn_running),
            finished_lines(c.session->0.progress_path),
        ),
        c.session matches Some(session) ==> has_ended(
            stopped(c, turn_running),
            stopped_lines(Some(session.progress_path)),
        ),
        c.session is None ==> stopped(c, turn_running).0 == c && !starts_turn(
            stopped(c, turn_running).1,
        ) && stopped(c, turn_running).1.contains(
            EffectModel::ShowInfo("Automode is not running."@),
        ),
{
    let fired = timer_fired(c, run_id, turn_running).1;
    let ended = stopped(c, turn_running).1;
    if c.session is Some && c.session->0.run_id == run_id {
        assert(fired[0] == EffectModel::ClearTimer);
        assert(fired[1] is ShowLines);
        assert(fired.last() == EffectModel::Redraw);
        if turn_running {
            assert(fired[2] == EffectModel::Interrupt);
        }
    }
    if c.session is Some {
        assert(ended[0] == EffectModel::ClearTimer);
        assert(ended[1] is ShowLines);
        assert(ended.last() == EffectModel::Redraw);
        if turn_running {
            assert(ended[2] == EffectModel::Interrupt);
        }
    } else {
        assert(ended[0] is ShowInfo);
    }
}

/// What the end of a turn leads to. Another turn follows if the turn completed or failed, the time
/// of the run has not come, and no other turn is running; it is the next one of the same run. The
/// run ends if the turn was interrupted, or if it completed or failed and the time has come. In
/// all other cases it stays as it is. Nothing is ever interrupted here: the turn is over.
pub proof fn law_what_follows_a_turn(
    c: ControllerModel,
    session: SessionModel,
    status: TurnStatus,
    now: u128,
    turn_running: bool,
)
    requires
        c.session == Some(session),
    ensures
        ({
            let after = turn_over(c, status, now, turn_running);
            let over = status == TurnStatus::Completed || status == TurnStatus::Failed;
            let come = time_has_come(session, now);
            &&& !interrupts(after.1)
            &&& !arms_timer(after.1)
            &&& starts_turn(after.1) <==> over && !come && !turn_running
            &&& over && !come && !turn_running ==> {
                &&& after.1.contains(EffectModel::Submit(prompt_of(session, now)))
                &&& after.0.timer == c.timer
                &&& after.0.session == Some(
                    SessionModel { iteration: (session.iteration + 1) as u64, ..session },
                )
            }
            &&& after.0.session is None <==> status == TurnStatus::Interrupted || (over && come)
            &&& status == TurnStatus::Interrupted || over ==> (come ==> has_ended(
                after,
                finished_lines(session.progress_path),
            ))
            &&& status == TurnStatus::Interrupted && !come ==> has_ended(
                after,
                stopped_lines(Some(session.progress_path)),
            )
            &&& status == TurnStatus::InProgress || (over && !come && turn_running) ==> after.0
                == c && after.1.contains(EffectModel::Redraw)
        }),
{
    let after = turn_over(c, status, now, turn_running);
    if after.1.len() > 2 {
        assert(after.1[0] == EffectModel::ClearTimer);
        assert(after.1[1] is ShowLines);
        assert(after.1[2] == EffectModel::Redraw);
    } else {
        assert(after.1.len() == 1);
        assert(after.1[0] is Redraw || after.1[0] is Submit);
    }
}

/// Where there is no run, the end of a turn leads to nothing.
pub proof fn law_other_turns_mean_nothing(
    c: ControllerModel,
    status: TurnStatus,
    now: u128,
    turn_running: bool,
)
    requires
        c.session is None,
    ensures
        turn_over(c, status, now, turn_running).0 == c,
        turn_over(c, status, now, turn_running).1.len() == 0,
{
}

/// A run that begins is the run that was prepared, with its first turn counted. What was armed
/// before is cleared first, and the timer is armed for this run and its deadline if it has one,
/// before the first turn is started.
pub proof fn law_what_a_run_begins_with(session: SessionModel, now: u128)
    ensures
        begun(session).session == Some(
            SessionModel { iteration: (session.iteration + 1) as u64, ..session },
        ),
        begun(session).timer == (if session.deadline is Some {
            Some(session.run_id)
        } else {
            None
        }),
        begin_effects(session, now)[0] == EffectModel::ClearTimer,
        begin_effects(session, now).last() == EffectModel::Submit(prompt_of(session, now)),
        begin_effects(session, now).contains(EffectModel::ShowLines(begin_lines(session))),
        arms_timer(begin_effects(session, now)) <==> session.deadline is Some,
        session.deadline matches Some(deadline) ==> begin_effects(session, now)[1]
            == (EffectModel::ArmTimer { deadline, run_id: session.run_id }),
        !interrupts(begin_effects(session, now)),
{
    let effects = begin_effects(session, now);
    match session.deadline {
        Some(_) => {
            assert(effects.len() == 4);
            assert(effects[1] is ArmTimer);
            assert(effects[2] is ShowLines);
            assert(effects[3] is Submit);
        },
        None => {
            assert(effects.len() == 3);
            assert(effects[1] is ShowLines);
            assert(effects[2] is Submit);
        },
    }
}

/// A run is only refused while another one is under way or a turn is running. Errors are shown.
pub proof fn law_when_a_run_is_refused(
    c: ControllerModel,
    turn_running: bool,
    message: Seq<char>,
)
    ensures
        start_refusal(c, turn_running) is None <==> c.session is None && !turn_running,
        c.session is Some && start_refusal(c, turn_running) is Some ==> start_refusal(
            c,
            turn_running,
        )->0 == "Automode is already running. Use /automode stop first."@,
        c.session is None && turn_running ==> start_refusal(c, turn_running) == Some(
            "Automode cannot start while a turn is already running."@,
        ),
        error_effects(message).contains(EffectModel::ShowError(message)),
        !starts_turn(error_effects(message)),
        !arms_timer(error_effects(message)),
        !interrupts(error_effects(message)),
{
    assert(error_effects(message)[0] == EffectModel::ShowError(message));
}

/// A turn that could be started leaves the run as it is. One that could not ends it, and that is
/// shown as an error.
pub proof fn law_turns_that_do_not_start(c: ControllerModel)
    ensures
        submitted(c, true).0 == c,
        !starts_turn(submitted(c, true).1),
        submitted(c, true).1.contains(EffectModel::Redraw),
        !submitted(c, true).1.contains(EffectModel::ClearTimer),
        submitted(c, false).0.session is None,
        submitted(c, false).0.timer is None,
        submitted(c, false).1.contains(EffectModel::ClearTimer),
        submitted(c, false).1.contains(
            EffectModel::ShowError("Automode failed to submit the next turn."@),
        ),
        submitted(c, false).1.contains(EffectModel::Redraw),
        !starts_turn(submitted(c, false).1),
        !interrupts(submitted(c, false).1),
{
    assert(submitted(c, true).1[0] == EffectModel::Redraw);
    assert(submitted(c, true).1.len() == 1);
    let failed = submitted(c, false).1;
    assert(failed[0] is ShowError);
    assert(failed[1] == EffectModel::ClearTimer);
    assert(failed[2] == EffectModel::Redraw);
}

/// What a line says, its pieces side by side.
pub open spec fn said(line: Seq<SpanModel>) -> Seq<char>
    decreases line.len(),
{
    if line.len() == 0 {
        seq![]
    } else {
        said(line.drop_last()) + line.last().text
    }
}

proof fn lemma_said(a: SpanModel, b: SpanModel, c: SpanModel)
    ensures
        said(seq![a]) == a.text,
        said(seq![a, b]) == a.text + b.text,
        said(seq![a, b, c]) == a.text + b.text + c.text,
{
    reveal_with_fuel(said, 4);
    assert(seq![a].drop_last() =~= seq![]);
    assert(seq![a, b].drop_last() =~= seq![a]);
    assert(seq![a, b, c].drop_last() =~= seq![a, b]);
    assert(said(seq![a]) =~= a.text);
}

/// What is said at the end of a run: how it ended, and where its progress document is.
pub proof fn law_what_is_said_at_the_end(path: Seq<char>)
    ensures
        finished_lines(path).len() == 2,
        said(finished_lines(path)[0]) == "Automode "@ + "duration reached."@,
        said(finished_lines(path)[1]) == "  progress: "@ + path,
        stopped_lines(Some(path)).len() == 2,
        said(stopped_lines(Some(path))[0]) == "Automode "@ + "stopped."@,
        said(stopped_lines(Some(path))[1]) == "  progress: "@ + path,
        stopped_lines(None) == seq![stopped_lines(Some(path))[0]],
        finished_lines(path)[1] == stopped_lines(Some(path))[1],
{
    let done = finished_lines(path);
    let ended = stopped_lines(Some(path));
    lemma_said(done[0][0], done[0][1], done[0][1]);
    lemma_said(done[1][0], done[1][1], done[1][1]);
    lemma_said(ended[0][0], ended[0][1], ended[0][1]);
    assert(done[0] =~= seq![done[0][0], done[0][1]]);
    assert(done[1] =~= seq![done[1][0], done[1][1]]);
    assert(ended[0] =~= seq![ended[0][0], ended[0][1]]);
    assert(ended[1] =~= done[1]);
    assert(stopped_lines(None) =~= seq![ended[0]]);
}

/// What is said at the start of a run: how it was asked for, that it starts or goes on, for which
/// project, where its progress document is, how long it lasts, and what it may do.
pub proof fn law_what_is_said_at_the_start(
    command: Seq<char>,
    resume: bool,
    project: Seq<char>,
    path: Seq<char>,
    duration: Option<Seq<char>>,
)
    ensures
        ({
            let lines = started_lines(command, resume, project, path, duration);
            let verb = if resume {
                "resumed"@
            } else {
                "started"@
            };
            let time = match duration {
                Some(text) => text,
                None => "unlimited"@,
            };
            &&& lines.len() == 6
            &&& said(lines[0]) == command
            &&& said(lines[1]) == "Automode "@ + verb + (" for "@ + project)
            &&& said(lines[2]) == "  progress: "@ + path
            &&& said(lines[3]) == "  duration: "@ + time
            &&& said(lines[4]) == "Automode uses "@ + "danger-full-access"@
                + " with approval_policy=never."@
            &&& said(lines[5])
                == "It runs in this interactive thread until its duration expires or you interrupt it."@
            &&& exists|i: int|
                0 <= i < lines[4].len() && (#[trigger] lines[4][i]).style == SpanStyle::Red
        }),
{
    let lines = started_lines(command, resume, project, path, duration);
    assert(lines[0] =~= seq![lines[0][0]]);
    assert(lines[1] =~= seq![lines[1][0], lines[1][1], lines[1][2]]);
    assert(lines[2] =~= seq![lines[2][0], lines[2][1]]);
    assert(lines[3] =~= seq![lines[3][0], lines[3][1]]);
    assert(lines[4] =~= seq![lines[4][0], lines[4][1], lines[4][2]]);
    assert(lines[5] =~= seq![lines[5][0]]);
    lemma_said(lines[0][0], lines[0][0], lines[0][0]);
    lemma_said(lines[1][0], lines[1][1], lines[1][2]);
    lemma_said(lines[2][0], lines[2][1], lines[2][1]);
    lemma_said(lines[3][0], lines[3][1], lines[3][1]);
    lemma_said(lines[4][0], lines[4][1], lines[4][2]);
    lemma_said(lines[5][0], lines[5][0], lines[5][0]);
    assert(lines[4][1].style == SpanStyle::Red);
}

/// What is said of a run as it begins is said of that run: the command that asks for it, whether
/// it is resumed, its project, its progress document and its run time.
pub proof fn law_what_is_said_of_a_run(session: SessionModel)
    ensures
        ({
            let lines = begin_lines(session);
            &&& said(lines[0]) == shown_command(session.request)
            &&& said(lines[1]) == "Automode "@ + (if session.request.resume {
                "resumed"@
            } else {
                "started"@
            }) + (" for "@ + session.request.project)
            &&& said(lines[2]) == "  progress: "@ + session.progress_path
            &&& said(lines[3]) == "  duration: "@ + (match session.request.duration {
                Some(secs) => duration_text(secs),
                None => "unlimited"@,
            })
        }),
{
    law_what_is_said_at_the_start(
        shown_command(session.request),
        session.request.resume,
        session.request.project,
        session.progress_path,
        match session.request.duration {
            Some(secs) => Some(duration_text(secs)),
            None => None,
        },
    );
}

/// Whether what is to be done includes interrupting the turn that is running.
pub open spec fn asks_to_interrupt(effects: Seq<Effect>) -> bool {
    exists|i: int| 0 <= i < effects.len() && #[trigger] effects[i] is Interrupt
}

/// Whether what is to be done includes starting a turn.
pub open spec fn asks_for_a_turn(effects: Seq<Effect>) -> bool {
    exists|i: int| 0 <= i < effects.len() && #[trigger] effects[i] is Submit
}

/// Whether what is to be done includes turning the timer off.
pub open spec fn asks_to_clear(effects: Seq<Effect>) -> bool {
    exists|i: int| 0 <= i < effects.len() && #[trigger] effects[i] is ClearTimer
}

proof fn lemma_what_is_asked(effects: Seq<Effect>)
    ensures
        asks_to_interrupt(effects) <==> interrupts(effect_models(effects)),
        asks_for_a_turn(effects) <==> starts_turn(effect_models(effects)),
        asks_to_clear(effects) <==> effect_models(effects).contains(EffectModel::ClearTimer),
{
    let models = effect_models(effects);
    assert forall|i: int| 0 <= i < effects.len() implies #[trigger] models[i] == effects[i]@ by {}
    if asks_to_interrupt(effects) {
        let i = choose|i: int| 0 <= i < effects.len() && #[trigger] effects[i] is Interrupt;
        assert(models[i] == EffectModel::Interrupt);
    }
    if interrupts(models) {
        let i = choose|i: int| 0 <= i < models.len() && models[i] == EffectModel::Interrupt;
        assert(effects[i] is Interrupt);
    }
    if asks_for_a_turn(effects) {
        let i = choose|i: int| 0 <= i < effects.len() && #[trigger] effects[i] is Submit;
        assert(models[i] is Submit);
    }
    if starts_turn(models) {
        let i = choose|i: int| 0 <= i < models.len() && #[trigger] models[i] is Submit;
        assert(effects[i] is Submit);
    }
    if asks_to_clear(effects) {
        let i = choose|i: int| 0 <= i < effects.len() && #[trigger] effects[i] is ClearTimer;
        assert(models[i] == EffectModel::ClearTimer);
    }
    if models.contains(EffectModel::ClearTimer) {
        let i = choose|i: int| 0 <= i < models.len() && models[i] == EffectModel::ClearTimer;
        assert(effects[i] is ClearTimer);
    }
}

/// At its deadline, a run that is under way is given up: nothing is left of it and its timer, and
/// the turn that is running is interrupted, if one is. The deadline of any other run does nothing.
pub proof fn law_reaching_the_deadline(
    c: &mut AutomodeController,
    run_id: u64,
    turn_running: bool,
    effects: Vec<Effect>,
)
    requires
        call_ensures(
            AutomodeController::handle_automode_deadline_reached,
            (c, run_id, turn_running),
            effects,
        ),
    ensures
        ({
            let mine = old(c).session is Some && old(c).session->0.run_id == run_id;
            &&& asks_to_interrupt(effects@) <==> mine && turn_running
            &&& asks_to_clear(effects@) <==> mine
            &&& !asks_for_a_turn(effects@)
            &&& mine ==> final(c).session is None && final(c).timer is None
            &&& !mine ==> final(c)@ == old(c)@ && effects@.len() == 0
        }),
{
    lemma_what_is_asked(effects@);
    law_ending_a_run_interrupts_its_turn(old(c)@, run_id, turn_running);
    let models = effect_models(effects@);
    assert(models.len() == effects@.len());
}

/// A run that is stopped is given up, and the turn that is running is interrupted, if one is.
/// Without a run there is nothing to interrupt.
pub proof fn law_stopping_a_run(
    c: &mut AutomodeController,
    turn_running: bool,
    effects: Vec<Effect>,
)
    requires
        call_ensures(AutomodeController::stop_automode, (c, turn_running), effects),
    ensures
        asks_to_interrupt(effects@) <==> old(c).session is Some && turn_running,
        asks_to_clear(effects@) <==> old(c).session is Some,
        !asks_for_a_turn(effects@),
        final(c).session is None,
        old(c).session is Some ==> final(c).timer is None,
        old(c).session is None ==> final(c)@ == old(c)@,
{
    lemma_what_is_asked(effects@);
    law_ending_a_run_interrupts_its_turn(old(c)@, 0, turn_running);
    let models = effect_models(effects@);
    if old(c).session is None {
        assert(models.len() == 2);
    }
}

/// At the end of a turn, the next one is started exactly if there is a run, the turn completed or
/// failed, the run has time left and no other turn is running. The run is given up if the turn was
/// interrupted or its time has come, and otherwise kept. No turn is interrupted.
pub proof fn law_finishing_a_turn(
    c: &mut AutomodeController,
    status: TurnStatus,
    now: u128,
    turn_running: bool,
    effects: Vec<Effect>,
)
    requires
        call_ensures(
            AutomodeController::handle_automode_turn_completed,
            (c, status, now, turn_running),
            effects,
        ),
    ensures
        ({
            let some = old(c).session is Some;
            let over = status is Completed || status is Failed;
            let come = old(c).session->0.deadline is Some && old(c).session->0.deadline->0 <= now;
            &&& !asks_to_interrupt(effects@)
            &&& asks_for_a_turn(effects@) <==> some && over && !come && !turn_running
            &&& final(c).session is Some <==> some && !(status is Interrupted) && !(over && come)
            &&& some && final(c).session is None ==> asks_to_clear(effects@) && final(c).timer
                is None
            &&& final(c).session is Some ==> final(c)@.session->0.request
                == old(c)@.session->0.request && final(c)@.session->0.run_id
                == old(c)@.session->0.run_id && final(c)@.session->0.deadline
                == old(c)@.session->0.deadline && final(c).timer == old(c).timer
            &&& !some ==> effects@.len() == 0
        }),
{
    lemma_what_is_asked(effects@);
    let models = effect_models(effects@);
    assert(models.len() == effects@.len());
    match old(c)@.session {
        Some(session) => law_what_follows_a_turn(old(c)@, session, status, now, turn_running),
        None => law_other_turns_mean_nothing(old(c)@, status, now, turn_running),
    }
}

/// A run that was prepared is taken over with its first turn started, and its timer armed if it has
/// a deadline. Where it could not be prepared, nothing is started and nothing changes.
pub proof fn law_taking_over_a_run(
    c: &mut AutomodeController,
    prepared: Result<AutomodeRunState, String>,
    now: u128,
    effects: Vec<Effect>,
)
    requires
        call_ensures(AutomodeController::start_automode, (c, prepared, now), effects),
    ensures
        asks_for_a_turn(effects@) <==> prepared is Ok,
        !asks_to_interrupt(effects@),
        prepared is Err ==> final(c)@ == old(c)@,
        prepared matches Ok(session) ==> {
            &&& final(c).session is Some
            &&& final(c)@.session->0.request == session@.request
            &&& final(c)@.session->0.run_id == session@.run_id
            &&& final(c)@.session->0.deadline == session@.deadline
            &&& final(c).timer == (if session@.deadline is Some {
                Some(session@.run_id)
            } else {
                None
            })
        },
{
    lemma_what_is_asked(effects@);
    match prepared {
        Ok(session) => {
            law_what_a_run_begins_with(session@, now);
            assert(starts_turn(begin_effects(session@, now))) by {
                let all = begin_effects(session@, now);
                assert(all[all.len() - 1] is Submit);
            }
        },
        Err(message) => law_when_a_run_is_refused(old(c)@, false, message@),
    }
}

/// A turn that could not be started ends the run, and one that could leaves it as it is.
pub proof fn law_reporting_a_turn(
    c: &mut AutomodeController,
    accepted: bool,
    effects: Vec<Effect>,
)
    requires
        call_ensures(AutomodeController::submit_next_automode_turn, (c, accepted), effects),
    ensures
        accepted ==> final(c)@ == old(c)@ && !asks_to_clear(effects@),
        !accepted ==> final(c).session is None && final(c).timer is None && asks_to_clear(effects@),
        !asks_to_interrupt(effects@),
        !asks_for_a_turn(effects@),
{
    lemma_what_is_asked(effects@);
    law_turns_that_do_not_start(old(c)@);
    if accepted {
        assert(effect_models(effects@).len() == 1);
    }
}

/// How lines are shown. What tells that a run has reached its end is green, and that it was stopped
/// is red, like the warning of what a run may do. Paths and the run time that has no end are
/// emphasised, and what names them steps back.
pub proof fn law_how_lines_are_shown(
    command: Seq<char>,
    resume: bool,
    project: Seq<char>,
    path: Seq<char>,
    duration: Option<Seq<char>>,
)
    ensures
        finished_lines(path)[0][0].style == SpanStyle::MagentaBold,
        finished_lines(path)[0][1].style == SpanStyle::Green,
        stopped_lines(Some(path))[0][0].style == SpanStyle::MagentaBold,
        stopped_lines(Some(path))[0][1].style == SpanStyle::Red,
        finished_lines(path)[1][0].style == SpanStyle::Dim,
        finished_lines(path)[1][1].style == SpanStyle::Cyan,
        ({
            let lines = started_lines(command, resume, project, path, duration);
            &&& lines[0][0].style == SpanStyle::Magenta
            &&& lines[1][0].style == SpanStyle::MagentaBold
            &&& lines[1][1].style == SpanStyle::Green
            &&& lines[1][2].style == SpanStyle::Plain
            &&& lines[2] == finished_lines(path)[1]
            &&& lines[3][0].style == SpanStyle::Dim
            &&& lines[3][1].style == (if duration is Some {
                SpanStyle::Plain
            } else {
                SpanStyle::Cyan
            })
            &&& lines[4][0].style == SpanStyle::Plain
            &&& lines[4][1].style == SpanStyle::Red
            &&& lines[4][2].style == SpanStyle::Plain
            &&& lines[5][0].style == SpanStyle::Dim
        }),
{
}

/// What the functions that make lines return says what it should: how a run ended or that it
/// begins, and where its progress document is.
pub proof fn law_making_lines(
    path: &str,
    run: &AutomodeRunState,
    finished: Vec<StyledLine>,
    ended: Vec<StyledLine>,
    begins: Vec<StyledLine>,
)
    requires
        call_ensures(automode_finished_lines, (path,), finished),
        call_ensures(automode_stopped_lines, (Some(path),), ended),
        call_ensures(automode_started_lines, (run,), begins),
    ensures
        said(finished@[0]@) == "Automode "@ + "duration reached."@,
        said(finished@[1]@) == "  progress: "@ + path@,
        said(ended@[0]@) == "Automode "@ + "stopped."@,
        said(ended@[1]@) == "  progress: "@ + path@,
        said(begins@[0]@) == shown_command(run@.request),
        said(begins@[2]@) == "  progress: "@ + run@.progress_path,
{
    law_what_is_said_at_the_end(path@);
    law_what_is_said_of_a_run(run@);
    assert(line_models(finished@)[0] == finished@[0]@);
    assert(line_models(finished@)[1] == finished@[1]@);
    assert(line_models(ended@)[0] == ended@[0]@);
    assert(line_models(ended@)[1] == ended@[1]@);
    assert(begin_lines(run@).len() == 6);
    assert(line_models(begins@)[0] == begins@[0]@);
    assert(line_models(begins@)[2] == begins@[2]@);
}

/// A run is refused exactly while another one is under way or a turn is running, and then with an
/// error and without starting anything.
pub proof fn law_refusing_a_run(
    c: &AutomodeController,
    turn_running: bool,
    r: Option<Vec<Effect>>,
)
    requires
        call_ensures(AutomodeController::refuse_start, (c, turn_running), r),
    ensures
        r is Some <==> c.session is Some || turn_running,
        r matches Some(effects) ==> !asks_for_a_turn(effects@) && !asks_to_interrupt(effects@)
            && !asks_to_clear(effects@) && effects@.len() > 0 && effects@[0] is ShowError,
{
    law_when_a_run_is_refused(c@, turn_running, start_refusal(c@, turn_running)->0);
    match r {
        Some(effects) => {
            lemma_what_is_asked(effects@);
            assert(effect_models(effects@)[0] == effects@[0]@);
            assert(effect_models(effects@)[1] == effects@[1]@);
            assert(effect_models(effects@).len() == 2);
        },
        None => {},
    }
}

/// A new controller has no run and no timer.
pub proof fn law_new_controllers_are_idle(c: AutomodeController)
    requires
        call_ensures(AutomodeController::new, (), c),
    ensures
        c.session is None,
        c.timer is None,
{
    let m = c@;
    assert(m.session is None <==> c.session is None);
}

} // verus!
