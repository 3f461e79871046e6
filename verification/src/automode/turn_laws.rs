//! What the record of a turn keeps, and what each event adds to it.
use crate::automode::turn::{
    notified, started, step_of, summary_of, truncate_for_state, truncate_vec, with_item, with_items,
    EventModel, ItemModel, NotificationModel, ServerNotification, StepModel, ThreadItem,
    TurnCollector, TurnEvent, TurnStatus, TurnStep,
};
use crate::automode::types::{SummaryModel, TurnRole, TurnSummary};
use crate::text::{decimal, decimal_signed, texts, trim_of};
use vstd::prelude::*;

verus! {

/// Whether a record goes on from an earlier one: it is of the same turn, and all that had been
/// recorded of commands, file changes and errors is still there, in front of what is new.
pub open spec fn goes_on_from(earlier: SummaryModel, later: SummaryModel) -> bool {
    &&& later.role == earlier.role
    &&& later.turn_id == earlier.turn_id
    &&& earlier.commands.is_prefix_of(later.commands)
    &&& earlier.file_changes.is_prefix_of(later.file_changes)
    &&& earlier.errors.is_prefix_of(later.errors)
}

/// Whether a notification is about this turn of the thread.
pub open spec fn is_about(
    notification: NotificationModel,
    thread: Seq<char>,
    turn: Seq<char>,
) -> bool {
    match notification {
        NotificationModel::Error { thread_id, turn_id, .. } => thread_id == thread && turn_id
            == turn,
        NotificationModel::ItemCompleted { thread_id, turn_id, .. } => thread_id == thread
            && turn_id == turn,
        NotificationModel::TurnCompleted { thread_id, turn_id, .. } => thread_id == thread
            && turn_id == turn,
        NotificationModel::Other => false,
    }
}

/// Whether a message of the agent is among what a notification reports.
pub open spec fn has_message(notification: NotificationModel) -> bool {
    match notification {
        NotificationModel::ItemCompleted { item, .. } => item is AgentMessage,
        NotificationModel::TurnCompleted { items, .. } => exists|i: int|
            0 <= i < items.len() && #[trigger] items[i] is AgentMessage,
        _ => false,
    }
}

proof fn lemma_prefixes(c: SummaryModel)
    ensures
        goes_on_from(c, c),
{
    assert(c.commands =~= c.commands.subrange(0, c.commands.len() as int));
    assert(c.file_changes =~= c.file_changes.subrange(0, c.file_changes.len() as int));
    assert(c.errors =~= c.errors.subrange(0, c.errors.len() as int));
}

proof fn lemma_prefix_again<A>(a: Seq<A>, b: Seq<A>, c: Seq<A>)
    requires
        a.is_prefix_of(b),
        b.is_prefix_of(c),
    ensures
        a.is_prefix_of(c),
{
    assert(a =~= b.subrange(0, a.len() as int));
    assert(b =~= c.subrange(0, b.len() as int));
    assert(a =~= c.subrange(0, a.len() as int));
}

proof fn lemma_goes_on_again(a: SummaryModel, b: SummaryModel, c: SummaryModel)
    requires
        goes_on_from(a, b),
        goes_on_from(b, c),
    ensures
        goes_on_from(a, c),
{
    lemma_prefix_again(a.commands, b.commands, c.commands);
    lemma_prefix_again(a.file_changes, b.file_changes, c.file_changes);
    lemma_prefix_again(a.errors, b.errors, c.errors);
}

/// What an item adds to a record. Nothing that was there goes away, and the status stays. A
/// message takes the place of the one before; a command adds one entry, which starts with the
/// command and its exit code and ends in what it printed; every file that changed adds one; and a
/// tool that failed adds an error. Nothing else is touched.
pub proof fn law_what_an_item_adds(c: SummaryModel, item: ItemModel)
    ensures
        goes_on_from(c, with_item(c, item)),
        with_item(c, item).status == c.status,
        match item {
            ItemModel::AgentMessage { text } => with_item(c, item) == (SummaryModel {
                final_message: Some(text),
                ..c
            }),
            ItemModel::CommandExecution { command, exit_code, aggregated_output } => {
                let r = with_item(c, item);
                let entry = r.commands.last();
                let code = match exit_code {
                    Some(code) => decimal_signed(code as int),
                    None => "unknown"@,
                };
                let head = command + " (exit "@ + code + ")"@;
                let printed = match aggregated_output {
                    Some(output) => trim_of(output),
                    None => seq![],
                };
                &&& r == (SummaryModel { commands: r.commands, ..c })
                &&& r.commands.len() == c.commands.len() + 1
                &&& head.is_prefix_of(entry)
                &&& printed.len() == 0 ==> entry == head
                &&& 0 < printed.len() <= 600 ==> entry == head + ": "@ + printed
                &&& printed.len() > 600 ==> entry == head + ": "@ + printed.take(600)
                    + "...[truncated]"@
            },
            ItemModel::FileChange { changes } => {
                let r = with_item(c, item);
                &&& r == (SummaryModel { file_changes: r.file_changes, ..c })
                &&& r.file_changes.len() == c.file_changes.len() + changes.len()
                &&& forall|i: int|
                    0 <= i < changes.len() ==> r.file_changes[c.file_changes.len() + i]
                        == (#[trigger] changes[i]).kind + " "@ + changes[i].path
            },
            ItemModel::McpToolCall { server, tool, error } => with_item(c, item) == (match error {
                Some(message) => SummaryModel {
                    errors: c.errors.push(
                        "MCP tool "@ + server + "/"@ + tool + " failed: "@ + message,
                    ),
                    ..c
                },
                None => c,
            }),
            ItemModel::DynamicToolCall { tool, success, content_items } => with_item(c, item) == (
            SummaryModel {
                errors: if success == Some(false) {
                    c.errors.push("dynamic tool "@ + tool + " failed"@)
                } else {
                    c.errors
                },
                commands: if content_items is Some && content_items->0 > 0 {
                    c.commands.push(
                        "dynamic tool "@ + tool + " returned "@ + decimal(content_items->0 as nat)
                            + " content item(s)"@,
                    )
                } else {
                    c.commands
                },
                ..c
            }),
            ItemModel::Other => with_item(c, item) == c,
        },
{
    lemma_prefixes(c);
    let r = with_item(c, item);
    assert(c.commands =~= r.commands.subrange(0, c.commands.len() as int));
    assert(c.file_changes =~= r.file_changes.subrange(0, c.file_changes.len() as int));
    assert(c.errors =~= r.errors.subrange(0, c.errors.len() as int));
    match item {
        ItemModel::CommandExecution { command, exit_code, aggregated_output } => {
            reveal_strlit(" (exit unknown)");
            reveal_strlit(" (exit ");
            reveal_strlit("unknown");
            reveal_strlit(")");
            let entry = r.commands.last();
            let code = match exit_code {
                Some(code) => decimal_signed(code as int),
                None => "unknown"@,
            };
            let head = command + " (exit "@ + code + ")"@;
            assert(command + " (exit unknown)"@ =~= command + " (exit "@ + "unknown"@ + ")"@);
            assert(head =~= entry.subrange(0, head.len() as int));
        },
        _ => {},
    }
}

/// Items are recorded one after the other: those of two lists as those of the one list, and then
/// those of the other.
pub proof fn law_items_in_order(c: SummaryModel, first: Seq<ItemModel>, second: Seq<ItemModel>)
    ensures
        with_items(c, Seq::empty()) == c,
        with_items(c, first + second) == with_items(with_items(c, first), second),
        forall|item: ItemModel| #[trigger] with_items(c, seq![item]) == with_item(c, item),
    decreases second.len(),
{
    if second.len() == 0 {
        assert(first + second =~= first);
    } else {
        law_items_in_order(c, first, second.drop_last());
        assert((first + second).drop_last() =~= first + second.drop_last());
        assert((first + second).last() == second.last());
    }
    assert forall|item: ItemModel| #[trigger] with_items(c, seq![item]) == with_item(c, item) by {
        assert(seq![item].drop_last() =~= Seq::empty());
        assert(with_items(c, seq![item].drop_last()) == c);
    }
}

proof fn lemma_items_add(c: SummaryModel, items: Seq<ItemModel>)
    ensures
        goes_on_from(c, with_items(c, items)),
        with_items(c, items).status == c.status,
        (forall|i: int| 0 <= i < items.len() ==> !(#[trigger] items[i] is AgentMessage))
            ==> with_items(c, items).final_message == c.final_message,
    decreases items.len(),
{
    lemma_prefixes(c);
    if items.len() > 0 {
        let before = items.drop_last();
        lemma_items_add(c, before);
        law_what_an_item_adds(with_items(c, before), items.last());
        lemma_goes_on_again(c, with_items(c, before), with_items(c, items));
        if forall|i: int| 0 <= i < items.len() ==> !(#[trigger] items[i] is AgentMessage) {
            assert forall|i: int| 0 <= i < before.len() implies !(
            #[trigger] before[i] is AgentMessage) by {
                assert(before[i] == items[i]);
            }
            assert(!(items[items.len() - 1] is AgentMessage));
        }
    }
}

/// A notification only adds to the record: the commands, file changes and errors that were there
/// come first in what is there afterwards, the message stays unless the notification reports one,
/// and the status stays unless the notification ends this turn.
pub proof fn law_notifications_only_add(
    c: SummaryModel,
    notification: NotificationModel,
    thread: Seq<char>,
    turn: Seq<char>,
)
    ensures
        goes_on_from(c, notified(c, notification, thread, turn).0),
        !has_message(notification) ==> notified(c, notification, thread, turn).0.final_message
            == c.final_message,
        !(notification is TurnCompleted) ==> notified(c, notification, thread, turn).0.status
            == c.status,
        !is_about(notification, thread, turn) ==> notified(c, notification, thread, turn) == (
            c,
            false,
        ),
        notified(c, notification, thread, turn).1 <==> notification is TurnCompleted && is_about(
            notification,
            thread,
            turn,
        ),
{
    lemma_prefixes(c);
    match notification {
        NotificationModel::ItemCompleted { item, .. } => law_what_an_item_adds(c, item),
        NotificationModel::TurnCompleted { status, error, items, .. } => {
            if is_about(notification, thread, turn) {
                let word = crate::automode::turn::status_text(status);
                let named = SummaryModel { status: word, ..c };
                let ended = match error {
                    Some(message) => SummaryModel { errors: named.errors.push(message), ..named },
                    None => named,
                };
                assert(c.errors =~= ended.errors.subrange(0, c.errors.len() as int));
                lemma_items_add(ended, items);
                lemma_goes_on_again(c, ended, with_items(ended, items));
                if !has_message(notification) {
                    assert forall|i: int| 0 <= i < items.len() implies !(
                    #[trigger] items[i] is AgentMessage) by {}
                }
            }
        },
        NotificationModel::Error { message, .. } => {
            assert(c.errors =~= c.errors.push(message).subrange(0, c.errors.len() as int));
        },
        NotificationModel::Other => {},
    }
}

/// The end of a turn, reported without an error and without items, changes the status of the
/// record and nothing else. An error that comes with it is the last one then, and the items that
/// come with it are recorded as if each had been reported by itself.
pub proof fn law_completion_sets_the_status(
    c: SummaryModel,
    thread: Seq<char>,
    turn: Seq<char>,
    status: TurnStatus,
    error: Option<Seq<char>>,
    items: Seq<ItemModel>,
)
    ensures
        ({
            let end = NotificationModel::TurnCompleted {
                thread_id: thread,
                turn_id: turn,
                status,
                error,
                items,
            };
            let word = match status {
                TurnStatus::Completed => "completed"@,
                TurnStatus::Failed => "failed"@,
                TurnStatus::Interrupted => "interrupted"@,
                TurnStatus::InProgress => "in_progress"@,
            };
            let ended = match error {
                Some(message) => SummaryModel {
                    status: word,
                    errors: c.errors.push(message),
                    ..c
                },
                None => SummaryModel { status: word, ..c },
            };
            &&& notified(c, end, thread, turn).1
            &&& notified(c, end, thread, turn).0.status == word
            &&& items.len() == 0 ==> notified(c, end, thread, turn).0 == ended
            &&& forall|first: Seq<ItemModel>, item: ItemModel|
                items == #[trigger] first.push(item) ==> notified(c, end, thread, turn).0
                    == notified(
                    notified(
                        c,
                        NotificationModel::TurnCompleted {
                            thread_id: thread,
                            turn_id: turn,
                            status,
                            error,
                            items: first,
                        },
                        thread,
                        turn,
                    ).0,
                    NotificationModel::ItemCompleted { thread_id: thread, turn_id: turn, item },
                    thread,
                    turn,
                ).0
        }),
{
    let word = crate::automode::turn::status_text(status);
    let ended = match error {
        Some(message) => SummaryModel { status: word, errors: c.errors.push(message), ..c },
        None => SummaryModel { status: word, ..c },
    };
    lemma_items_add(ended, items);
    assert forall|first: Seq<ItemModel>, item: ItemModel|
        items == #[trigger] first.push(item) implies with_items(ended, items) == with_item(
        with_items(ended, first),
        item,
    ) by {
        assert(first.push(item).drop_last() =~= first);
    }
}

/// An error that is reported for this turn is added to the errors, and nothing else changes.
pub proof fn law_reported_errors_are_kept(
    c: SummaryModel,
    thread: Seq<char>,
    turn: Seq<char>,
    message: Seq<char>,
    item: ItemModel,
)
    ensures
        notified(
            c,
            NotificationModel::Error { thread_id: thread, turn_id: turn, message },
            thread,
            turn,
        ) == (SummaryModel { errors: c.errors.push(message), ..c }, false),
        notified(
            c,
            NotificationModel::ItemCompleted { thread_id: thread, turn_id: turn, item },
            thread,
            turn,
        ) == (with_item(c, item), false),
{
}

/// Whether a list is the start of another, with each text cut off behind so many characters and
/// marked there.
pub open spec fn is_start_of(
    shown: Seq<Seq<char>>,
    all: Seq<Seq<char>>,
    most: nat,
) -> bool {
    &&& shown.len() <= all.len()
    &&& shown.len() < all.len() ==> shown.len() == most
    &&& all.len() > most ==> shown.len() == most
    &&& forall|i: int|
        0 <= i < shown.len() ==> #[trigger] shown[i] == (if all[i].len() <= 1200 {
            all[i]
        } else {
            all[i].take(1200) + "...[truncated]"@
        })
}

/// The summary of a turn holds the first of the commands, file changes and errors that were
/// recorded, each from its start, and says the same of the turn, its role, its status and its
/// message.
pub proof fn law_summaries_start_as_the_record(c: SummaryModel)
    ensures
        summary_of(c).role == c.role,
        summary_of(c).turn_id == c.turn_id,
        summary_of(c).status == c.status,
        summary_of(c).final_message is Some <==> c.final_message is Some,
        c.final_message matches Some(message) ==> summary_of(c).final_message == Some(
            if message.len() <= 4000 {
                message
            } else {
                message.take(4000) + "...[truncated]"@
            },
        ),
        is_start_of(summary_of(c).commands, c.commands, 20),
        is_start_of(summary_of(c).file_changes, c.file_changes, 50),
        is_start_of(summary_of(c).errors, c.errors, 20),
{
}

/// What follows from an event. The deadline ends the turn with that status and one more error, the
/// end of the events ends it with that status, and events that were dropped are counted in one
/// more error; whatever had been recorded stays. A request changes nothing. The end of the turn
/// that the server reports comes with what has been recorded by then.
pub proof fn law_what_an_event_does(
    c: SummaryModel,
    event: EventModel,
    thread: Seq<char>,
    turn: Seq<char>,
)
    ensures
        match event {
            EventModel::Deadline => step_of(c, event, thread, turn) == StepModel::Interrupt(
                summary_of(
                    SummaryModel {
                        status: "interrupted_deadline"@,
                        errors: c.errors.push("automode deadline interrupted the active turn"@),
                        ..c
                    },
                ),
            ),
            EventModel::StreamClosed => step_of(c, event, thread, turn) == StepModel::Finish(
                summary_of(SummaryModel { status: "event_stream_closed"@, ..c }),
            ),
            EventModel::Request => step_of(c, event, thread, turn) == StepModel::Answer(c),
            EventModel::Notification(notification) => {
                let (next, over) = notified(c, notification, thread, turn);
                step_of(c, event, thread, turn) == (if over {
                    StepModel::Finish(summary_of(next))
                } else {
                    StepModel::Wait(next)
                })
            },
            EventModel::Lagged { skipped } => {
                &&& step_of(c, event, thread, turn) is Wait
                &&& goes_on_from(c, step_of(c, event, thread, turn)->Wait_0)
                &&& step_of(c, event, thread, turn)->Wait_0 == (SummaryModel {
                    errors: c.errors.push(
                        "in-process app-server event stream lagged; dropped "@ + decimal(
                            skipped as nat,
                        ) + " events"@,
                    ),
                    ..c
                })
            },
        },
{
    lemma_prefixes(c);
    match event {
        EventModel::Lagged { skipped } => {
            let later = step_of(c, event, thread, turn)->Wait_0.errors;
            assert(c.errors =~= later.subrange(0, c.errors.len() as int));
        },
        _ => {},
    }
}

/// A turn starts without a record: it is running, and nothing has happened in it.
pub proof fn law_turns_start_empty(role: TurnRole, turn_id: Seq<char>)
    ensures
        started(role, turn_id).role == role,
        started(role, turn_id).turn_id == turn_id,
        started(role, turn_id).status == "running"@,
        started(role, turn_id).final_message is None,
        started(role, turn_id).commands.len() == 0,
        started(role, turn_id).file_changes.len() == 0,
        started(role, turn_id).errors.len() == 0,
{
}

/// What is recorded of a notification. What had been recorded stays, with whatever is new behind
/// it; a message stays the last one until another is reported; and a notification that is about
/// another turn changes nothing. The end of this turn, and nothing else, is reported as such, and
/// without an error and without items it changes only the status.
pub proof fn law_recording_a_notification(
    collector: &mut TurnCollector,
    notification: ServerNotification,
    thread_id: &str,
    turn_id: &str,
    completed: bool,
)
    requires
        call_ensures(
            TurnCollector::record_notification,
            (collector, notification, thread_id, turn_id),
            completed,
        ),
    ensures
        goes_on_from(old(collector)@, final(collector)@),
        !has_message(notification@) ==> final(collector)@.final_message
            == old(collector)@.final_message,
        !is_about(notification@, thread_id@, turn_id@) ==> final(collector)@ == old(collector)@,
        completed <==> notification is TurnCompleted && is_about(
            notification@,
            thread_id@,
            turn_id@,
        ),
        !completed ==> final(collector)@.status == old(collector)@.status,
        completed && notification->error is None && notification->items@.len() == 0
            ==> final(collector)@ == (SummaryModel {
            status: final(collector)@.status,
            ..old(collector)@
        }),
{
    law_notifications_only_add(old(collector)@, notification@, thread_id@, turn_id@);
    match notification@ {
        NotificationModel::TurnCompleted { status, error, items, .. } => {
            if completed {
                law_completion_sets_the_status(
                    old(collector)@,
                    thread_id@,
                    turn_id@,
                    status,
                    error,
                    items,
                );
            }
        },
        _ => {},
    }
}

/// What is recorded of an item: nothing that had been recorded goes away, and a message becomes the
/// last one.
pub proof fn law_recording_an_item(collector: &mut TurnCollector, item: ThreadItem)
    requires
        call_ensures(TurnCollector::record_item, (collector, item), ()),
    ensures
        goes_on_from(old(collector)@, final(collector)@),
        final(collector)@.status == old(collector)@.status,
        item matches ThreadItem::AgentMessage { text } ==> final(collector)@.final_message == Some(
            text@,
        ),
        !(item is AgentMessage) ==> final(collector)@.final_message
            == old(collector)@.final_message,
        item is CommandExecution ==> final(collector)@.commands.len()
            == old(collector)@.commands.len() + 1,
{
    law_what_an_item_adds(old(collector)@, item@);
}

/// What a turn is left with: the turn and its status, the start of its message, and the start of
/// each of its lists.
pub proof fn law_finishing_a_record(collector: TurnCollector, summary: TurnSummary)
    requires
        call_ensures(TurnCollector::finish, (collector,), summary),
    ensures
        summary.role == collector.role,
        summary.turn_id@ == collector.turn_id@,
        summary.status@ == collector.status@,
        summary.final_message is Some <==> collector.final_message is Some,
        collector.final_message matches Some(message) && message@.len() <= 4000
            ==> summary.final_message is Some,
        is_start_of(texts(summary.commands@), texts(collector.commands@), 20),
        is_start_of(texts(summary.file_changes@), texts(collector.file_changes@), 50),
        is_start_of(texts(summary.errors@), texts(collector.errors@), 20),
{
    law_summaries_start_as_the_record(collector@);
    let m = summary@;
    assert(m.final_message is Some <==> summary.final_message is Some);
}

/// What an event leads to. The turn is over with the deadline, with the end of the events, and with
/// the end that the server reports for it; the server is told to interrupt it only at the deadline,
/// and is answered only if it asked for something. Otherwise the record goes on.
pub proof fn law_taking_in_an_event(
    collector: TurnCollector,
    event: TurnEvent,
    thread_id: &str,
    turn_id: &str,
    step: TurnStep,
)
    requires
        call_ensures(TurnCollector::on_event, (collector, event, thread_id, turn_id), step),
    ensures
        step is Interrupt <==> event is Deadline,
        step is Answer <==> event is Request,
        step is Finish <==> event is StreamClosed || (event matches TurnEvent::Notification(n)
            && n is TurnCompleted && is_about(n@, thread_id@, turn_id@)),
        step matches TurnStep::Wait(next) ==> goes_on_from(collector@, next@),
        step matches TurnStep::Answer(next) ==> next@ == collector@,
{
    law_what_an_event_does(collector@, event@, thread_id@, turn_id@);
    match event@ {
        EventModel::Notification(notification) => {
            law_notifications_only_add(collector@, notification, thread_id@, turn_id@);
        },
        _ => {},
    }
}

/// A text is kept from its start, up to so many characters, and marked where something is missing;
/// of a list, the first texts are kept.
pub proof fn law_cutting_off(
    value: &str,
    most: usize,
    kept: String,
    values: Vec<String>,
    list: Vec<String>,
)
    requires
        call_ensures(truncate_for_state, (value, most), kept),
        call_ensures(truncate_vec, (values, most), list),
    ensures
        value@.len() <= most ==> kept@ == value@,
        value@.len() > most ==> kept@ == value@.take(most as int) + "...[truncated]"@,
        is_start_of(texts(list@), texts(values@), most as nat),
{
}

/// The record of a turn starts empty.
pub proof fn law_starting_a_record(role: TurnRole, turn_id: String, collector: TurnCollector)
    requires
        call_ensures(TurnCollector::new, (role, turn_id), collector),
    ensures
        collector.role == role,
        collector.turn_id@ == turn_id@,
        collector.status@ == "running"@,
        collector.final_message is None,
        collector.commands@.len() == 0,
        collector.file_changes@.len() == 0,
        collector.errors@.len() == 0,
{
    law_turns_start_empty(role, turn_id@);
    let m = collector@;
    assert(m.final_message is None <==> collector.final_message is None);
    assert(texts(collector.commands@).len() == collector.commands@.len());
    assert(texts(collector.file_changes@).len() == collector.file_changes@.len());
    assert(texts(collector.errors@).len() == collector.errors@.len());
}

} // verus!
