//! Collecting what happens in one turn.
use crate::automode::types::{SummaryModel, TurnRole, TurnSummary};
use crate::text::{
    concat3, decimal, decimal_signed, decimal_string, decimal_string_signed, lemma_texts_push,
    opt_text, same_text, texts, trim, trim_of,
};
use vstd::prelude::*;
use vstd::string::*;

verus! {

/// The mark that ends a text that was cut off.
pub const TRUNCATED: &'static str = "...[truncated]";

/// A text, cut off and marked where it has more than `max` characters.
pub open spec fn truncated(s: Seq<char>, max: nat) -> Seq<char> {
    if s.len() <= max {
        s
    } else {
        s.take(max as int) + TRUNCATED@
    }
}

/// The first `max` texts of a list, each cut off to what a summary holds of it.
pub open spec fn truncated_list(v: Seq<Seq<char>>, max: nat) -> Seq<Seq<char>> {
    Seq::new(
        if v.len() <= max {
            v.len()
        } else {
            max
        },
        |i: int| truncated(v[i], 1200),
    )
}

/// How a turn ended, or that it did not.
#[derive(Debug, Clone, Copy, PartialEq, Eq, Structural)]
pub enum TurnStatus {
    Completed,
    Failed,
    Interrupted,
    InProgress,
}

/// A file that a turn changed, with the kind of the change in words.
#[derive(Debug, PartialEq, Eq)]
pub struct FileUpdate {
    pub kind: String,
    pub path: String,
}

/// Something that a turn did.
#[derive(Debug, PartialEq, Eq)]
pub enum ThreadItem {
    AgentMessage { text: String },
    CommandExecution {
        command: String,
        exit_code: Option<i32>,
        aggregated_output: Option<String>,
    },
    FileChange { changes: Vec<FileUpdate> },
    McpToolCall { server: String, tool: String, error: Option<String> },
    /// With the number of content items that came back, if any list of them did.
    DynamicToolCall { tool: String, success: Option<bool>, content_items: Option<usize> },
    Other,
}

/// What the server says about a turn.
#[derive(Debug, PartialEq, Eq)]
pub enum ServerNotification {
    Error { thread_id: String, turn_id: String, message: String },
    ItemCompleted { thread_id: String, turn_id: String, item: ThreadItem },
    TurnCompleted {
        thread_id: String,
        turn_id: String,
        status: TurnStatus,
        error: Option<String>,
        items: Vec<ThreadItem>,
    },
    Other,
}

/// What can happen while a turn runs.
#[derive(Debug, PartialEq, Eq)]
pub enum TurnEvent {
    /// The deadline of the run has passed.
    Deadline,
    /// No further event will come.
    StreamClosed,
    /// The server asks for something. It is answered outside of the turn's record.
    Request,
    Notification(ServerNotification),
    /// Events were dropped.
    Lagged { skipped: usize },
}

/// What a [`FileUpdate`] says.
pub struct UpdateModel {
    pub kind: Seq<char>,
    pub path: Seq<char>,
}

/// What a [`ThreadItem`] says.
pub enum ItemModel {
    AgentMessage { text: Seq<char> },
    CommandExecution {
        command: Seq<char>,
        exit_code: Option<i32>,
        aggregated_output: Option<Seq<char>>,
    },
    FileChange { changes: Seq<UpdateModel> },
    McpToolCall { server: Seq<char>, tool: Seq<char>, error: Option<Seq<char>> },
    DynamicToolCall { tool: Seq<char>, success: Option<bool>, content_items: Option<usize> },
    Other,
}

/// What a [`ServerNotification`] says.
pub enum NotificationModel {
    Error { thread_id: Seq<char>, turn_id: Seq<char>, message: Seq<char> },
    ItemCompleted { thread_id: Seq<char>, turn_id: Seq<char>, item: ItemModel },
    TurnCompleted {
        thread_id: Seq<char>,
        turn_id: Seq<char>,
        status: TurnStatus,
        error: Option<Seq<char>>,
        items: Seq<ItemModel>,
    },
    Other,
}

/// What a [`TurnEvent`] says.
pub enum EventModel {
    Deadline,
    StreamClosed,
    Request,
    Notification(NotificationModel),
    Lagged { skipped: usize },
}

impl View for FileUpdate {
    type V = UpdateModel;

    open spec fn view(&self) -> UpdateModel {
        UpdateModel { kind: self.kind@, path: self.path@ }
    }
}

/// What a list of file changes says.
pub open spec fn update_models(changes: Seq<FileUpdate>) -> Seq<UpdateModel> {
    changes.map_values(|change: FileUpdate| change@)
}

impl View for ThreadItem {
    type V = ItemModel;

    open spec fn view(&self) -> ItemModel {
        match self {
            ThreadItem::AgentMessage { text } => ItemModel::AgentMessage { text: text@ },
            ThreadItem::CommandExecution { command, exit_code, aggregated_output } =>
                ItemModel::CommandExecution {
                    command: command@,
                    exit_code: *exit_code,
                    aggregated_output: opt_text(*aggregated_output),
                },
            ThreadItem::FileChange { changes } => ItemModel::FileChange {
                changes: update_models(changes@),
            },
            ThreadItem::McpToolCall { server, tool, error } => ItemModel::McpToolCall {
                server: server@,
                tool: tool@,
                error: opt_text(*error),
            },
            ThreadItem::DynamicToolCall { tool, success, content_items } =>
                ItemModel::DynamicToolCall {
                    tool: tool@,
                    success: *success,
                    content_items: *content_items,
                },
            ThreadItem::Other => ItemModel::Other,
        }
    }
}

/// What a list of items says.
pub open spec fn item_models(items: Seq<ThreadItem>) -> Seq<ItemModel> {
    items.map_values(|item: ThreadItem| item@)
}

impl View for ServerNotification {
    type V = NotificationModel;

    open spec fn view(&self) -> NotificationModel {
        match self {
            ServerNotification::Error { thread_id, turn_id, message } => NotificationModel::Error {
                thread_id: thread_id@,
                turn_id: turn_id@,
                message: message@,
            },
            ServerNotification::ItemCompleted { thread_id, turn_id, item } =>
                NotificationModel::ItemCompleted {
                    thread_id: thread_id@,
                    turn_id: turn_id@,
                    item: item@,
                },
            ServerNotification::TurnCompleted { thread_id, turn_id, status, error, items } =>
                NotificationModel::TurnCompleted {
                    thread_id: thread_id@,
                    turn_id: turn_id@,
                    status: *status,
                    error: opt_text(*error),
                    items: item_models(items@),
                },
            ServerNotification::Other => NotificationModel::Other,
        }
    }
}

impl View for TurnEvent {
    type V = EventModel;

    open spec fn view(&self) -> EventModel {
        match self {
            TurnEvent::Deadline => EventModel::Deadline,
            TurnEvent::StreamClosed => EventModel::StreamClosed,
            TurnEvent::Request => EventModel::Request,
            TurnEvent::Notification(notification) => EventModel::Notification(notification@),
            TurnEvent::Lagged { skipped } => EventModel::Lagged { skipped: *skipped },
        }
    }
}

/// What has been recorded of a turn so far.
#[derive(Debug, PartialEq, Eq)]
pub struct TurnCollector {
    pub role: TurnRole,
    pub turn_id: String,
    pub status: String,
    pub final_message: Option<String>,
    pub commands: Vec<String>,
    pub file_changes: Vec<String>,
    pub errors: Vec<String>,
}

/// What a [`TurnCollector`] holds: the summary before anything is cut off.
impl View for TurnCollector {
    type V = SummaryModel;

    open spec fn view(&self) -> SummaryModel {
        SummaryModel {
            role: self.role,
            turn_id: self.turn_id@,
            status: self.status@,
            final_message: opt_text(self.final_message),
            commands: texts(self.commands@),
            file_changes: texts(self.file_changes@),
            errors: texts(self.errors@),
        }
    }
}

/// A turn of which nothing has been recorded.
pub open spec fn started(role: TurnRole, turn_id: Seq<char>) -> SummaryModel {
    SummaryModel {
        role,
        turn_id,
        status: "running"@,
        final_message: None,
        commands: Seq::empty(),
        file_changes: Seq::empty(),
        errors: Seq::empty(),
    }
}

pub open spec fn with_error(c: SummaryModel, message: Seq<char>) -> SummaryModel {
    SummaryModel { errors: c.errors.push(message), ..c }
}

/// A command in the words of the summary: its exit code, and what it printed, if it printed
/// more than blanks.
pub open spec fn command_text(
    command: Seq<char>,
    exit_code: Option<i32>,
    output: Option<Seq<char>>,
) -> Seq<char> {
    let head = match exit_code {
        Some(code) => command + " (exit "@ + decimal_signed(code as int) + ")"@,
        None => command + " (exit unknown)"@,
    };
    match output {
        Some(output) if trim_of(output).len() > 0 => head + ": "@ + truncated(trim_of(output), 600),
        _ => head,
    }
}

/// A file change in the words of the summary.
pub open spec fn change_text(change: UpdateModel) -> Seq<char> {
    change.kind + " "@ + change.path
}

/// The words for the outcome of a turn.
pub open spec fn status_text(status: TurnStatus) -> Seq<char> {
    match status {
        TurnStatus::Completed => "completed"@,
        TurnStatus::Failed => "failed"@,
        TurnStatus::Interrupted => "interrupted"@,
        TurnStatus::InProgress => "in_progress"@,
    }
}

/// The record with an item added.
pub open spec fn with_item(c: SummaryModel, item: ItemModel) -> SummaryModel {
    match item {
        ItemModel::AgentMessage { text } => SummaryModel { final_message: Some(text), ..c },
        ItemModel::CommandExecution { command, exit_code, aggregated_output } => SummaryModel {
            commands: c.commands.push(command_text(command, exit_code, aggregated_output)),
            ..c
        },
        ItemModel::FileChange { changes } => SummaryModel {
            file_changes: c.file_changes + changes.map_values(
                |change: UpdateModel| change_text(change),
            ),
            ..c
        },
        ItemModel::McpToolCall { server, tool, error } => match error {
            Some(message) => with_error(
                c,
                "MCP tool "@ + server + "/"@ + tool + " failed: "@ + message,
            ),
            None => c,
        },
        ItemModel::DynamicToolCall { tool, success, content_items } => {
            let c = if success == Some(false) {
                with_error(c, "dynamic tool "@ + tool + " failed"@)
            } else {
                c
            };
            match content_items {
                Some(count) if count > 0 => SummaryModel {
                    commands: c.commands.push(
                        "dynamic tool "@ + tool + " returned "@ + decimal(count as nat)
                            + " content item(s)"@,
                    ),
                    ..c
                },
                _ => c,
            }
        },
        ItemModel::Other => c,
    }
}

/// The record with items added, one after the other.
pub open spec fn with_items(c: SummaryModel, items: Seq<ItemModel>) -> SummaryModel
    decreases items.len(),
{
    if items.len() == 0 {
        c
    } else {
        with_item(with_items(c, items.drop_last()), items.last())
    }
}

/// The record after a notification, and whether it ended the turn. What is said of another
/// thread or turn changes nothing.
pub open spec fn notified(
    c: SummaryModel,
    notification: NotificationModel,
    thread: Seq<char>,
    turn: Seq<char>,
) -> (SummaryModel, bool) {
    match notification {
        NotificationModel::Error { thread_id, turn_id, message } if thread_id == thread && turn_id
            == turn => (with_error(c, message), false),
        NotificationModel::ItemCompleted { thread_id, turn_id, item } if thread_id == thread
            && turn_id == turn => (with_item(c, item), false),
        NotificationModel::TurnCompleted { thread_id, turn_id, status, error, items } if thread_id
            == thread && turn_id == turn => {
            let c = SummaryModel { status: status_text(status), ..c };
            let c = match error {
                Some(message) => with_error(c, message),
                None => c,
            };
            (with_items(c, items), true)
        },
        _ => (c, false),
    }
}

/// The summary of a record: everything in it is cut off to a bounded size.
pub open spec fn summary_of(c: SummaryModel) -> SummaryModel {
    SummaryModel {
        final_message: match c.final_message {
            Some(message) => Some(truncated(message, 4000)),
            None => None,
        },
        commands: truncated_list(c.commands, 20),
        file_changes: truncated_list(c.file_changes, 50),
        errors: truncated_list(c.errors, 20),
        ..c
    }
}

/// Returns a text, cut off and marked where it has more than `max_chars` characters.
pub fn truncate_for_state(value: &str, max_chars: usize) -> (r: String)
    ensures
        r@ == truncated(value@, max_chars as nat),
{
    let len: usize = value.unicode_len();
    if len <= max_chars {
        return value.to_owned();
    }
    let mut r = value.substring_char(0, max_chars).to_owned();
    r.append(TRUNCATED);
    assert(value@.subrange(0, max_chars as int) =~= value@.take(max_chars as int));
    r
}

/// Returns the first `max_len` texts of a list, each cut off to what a summary holds of it.
pub fn truncate_vec(values: Vec<String>, max_len: usize) -> (r: Vec<String>)
    ensures
        texts(r@) == truncated_list(texts(values@), max_len as nat),
{
    let mut r: Vec<String> = Vec::new();
    let mut i: usize = 0;
    while i < values.len() && i < max_len
        invariant
            i <= values.len(),
            i <= max_len,
            r@.len() == i,
            forall|k: int|
                0 <= k < i ==> (#[trigger] r@[k])@ == truncated(texts(values@)[k], 1200),
        decreases values.len() - i,
    {
        r.push(truncate_for_state(values[i].as_str(), 1200));
        i += 1;
    }
    assert(texts(r@) =~= truncated_list(texts(values@), max_len as nat));
    r
}

fn command_summary(
    command: &str,
    exit_code: Option<i32>,
    aggregated_output: &Option<String>,
) -> (r: String)
    ensures
        r@ == command_text(command@, exit_code, opt_text(*aggregated_output)),
{
    let mut r = command.to_owned();
    match exit_code {
        Some(code) => {
            let digits = decimal_string_signed(code as i64);
            r.append(" (exit ");
            r.append(digits.as_str());
            r.append(")");
        },
        None => {
            r.append(" (exit unknown)");
        },
    }
    if let Some(output) = aggregated_output {
        let output = trim(output.as_str());
        if output.unicode_len() > 0 {
            let shown = truncate_for_state(output, 600);
            r.append(": ");
            r.append(shown.as_str());
        }
    }
    r
}

fn is_for(thread_id: &String, turn_id: &String, thread: &str, turn: &str) -> (r: bool)
    ensures
        r == (thread_id@ == thread@ && turn_id@ == turn@),
{
    same_text(thread_id.as_str(), thread) && same_text(turn_id.as_str(), turn)
}

impl TurnCollector {
    /// Starts the record of a turn.
    pub fn new(role: TurnRole, turn_id: String) -> (r: Self)
        ensures
            r@ == started(role, turn_id@),
    {
        let r = TurnCollector {
            role,
            turn_id,
            status: "running".to_owned(),
            final_message: None,
            commands: Vec::new(),
            file_changes: Vec::new(),
            errors: Vec::new(),
        };
        assert(texts(r.commands@) =~= Seq::empty());
        assert(texts(r.file_changes@) =~= Seq::empty());
        assert(texts(r.errors@) =~= Seq::empty());
        r
    }

    fn push_error(&mut self, message: String)
        ensures
            final(self)@ == with_error(old(self)@, message@),
    {
        proof {
            lemma_texts_push(self.errors@, message);
        }
        self.errors.push(message);
    }

    fn push_command(&mut self, command: String)
        ensures
            final(self)@ == (SummaryModel {
                commands: old(self)@.commands.push(command@),
                ..old(self)@
            }),
    {
        proof {
            lemma_texts_push(self.commands@, command);
        }
        self.commands.push(command);
    }

    fn push_changes(&mut self, changes: &Vec<FileUpdate>)
        ensures
            final(self)@ == with_item(
                old(self)@,
                ItemModel::FileChange { changes: update_models(changes@) },
            ),
    {
        let ghost before = self@;
        let ghost added = update_models(changes@).map_values(
            |change: UpdateModel| change_text(change),
        );
        let mut i: usize = 0;
        assert(before.file_changes + added.take(0) =~= before.file_changes);
        while i < changes.len()
            invariant
                i <= changes.len(),
                added == update_models(changes@).map_values(
                    |change: UpdateModel| change_text(change),
                ),
                self@ == (SummaryModel {
                    file_changes: before.file_changes + added.take(i as int),
                    ..before
                }),
            decreases changes.len() - i,
        {
            let mut text = changes[i].kind.clone();
            text.append(" ");
            text.append(changes[i].path.as_str());
            assert(text@ == added[i as int]);
            proof {
                lemma_texts_push(self.file_changes@, text);
            }
            self.file_changes.push(text);
            i += 1;
            assert(before.file_changes + added.take(i as int) =~= (before.file_changes + added.take(
                i - 1,
            )).push(added[i - 1]));
        }
        assert(added.take(added.len() as int) =~= added);
    }

    /// Adds an item to the record.
    pub fn record_item(&mut self, item: ThreadItem)
        ensures
            final(self)@ == with_item(old(self)@, item@),
    {
        match item {
            ThreadItem::AgentMessage { text } => {
                self.final_message = Some(text);
            },
            ThreadItem::CommandExecution { command, exit_code, aggregated_output } => {
                self.push_command(
                    command_summary(command.as_str(), exit_code, &aggregated_output),
                );
            },
            ThreadItem::FileChange { changes } => {
                self.push_changes(&changes);
            },
            ThreadItem::McpToolCall { server, tool, error } => {
                if let Some(error) = error {
                    let mut message = "MCP tool ".to_owned();
                    message.append(server.as_str());
                    message.append("/");
                    message.append(tool.as_str());
                    message.append(" failed: ");
                    message.append(error.as_str());
                    self.push_error(message);
                }
            },
            ThreadItem::DynamicToolCall { tool, success, content_items } => {
                if let Some(false) = success {
                    let mut message = "dynamic tool ".to_owned();
                    message.append(tool.as_str());
                    message.append(" failed");
                    self.push_error(message);
                }
                if let Some(count) = content_items {
                    if count > 0 {
                        let digits = decimal_string(count as u64);
                        let mut command = "dynamic tool ".to_owned();
                        command.append(tool.as_str());
                        command.append(" returned ");
                        command.append(digits.as_str());
                        command.append(" content item(s)");
                        self.push_command(command);
                    }
                }
            },
            ThreadItem::Other => {},
        }
    }

    fn record_items(&mut self, items: Vec<ThreadItem>)
        ensures
            final(self)@ == with_items(old(self)@, item_models(items@)),
    {
        let ghost before = self@;
        let ghost models = item_models(items@);
        let ghost n = models.len();
        assert(models.take(0) =~= Seq::empty());
        for item in it: items.into_iter()
            invariant
                item_models(it.seq()) == models,
                n == models.len(),
                self@ == with_items(before, models.take(it.index() as int)),
        {
            let ghost done: int = it.index() as int;
            assert(item@ == models[done]);
            assert(models.take(done + 1).drop_last() =~= models.take(done));
            self.record_item(item);
        }
        assert(models.take(n as int) =~= models);
    }

    /// Records what a notification says of this turn of the thread, and returns whether that
    /// ended the turn.
    pub fn record_notification(
        &mut self,
        notification: ServerNotification,
        thread_id: &str,
        turn_id: &str,
    ) -> (completed: bool)
        ensures
            (final(self)@, completed) == notified(
                old(self)@,
                notification@,
                thread_id@,
                turn_id@,
            ),
    {
        match notification {
            ServerNotification::Error { thread_id: thread, turn_id: turn, message } => {
                if is_for(&thread, &turn, thread_id, turn_id) {
                    self.push_error(message);
                }
            },
            ServerNotification::ItemCompleted { thread_id: thread, turn_id: turn, item } => {
                if is_for(&thread, &turn, thread_id, turn_id) {
                    self.record_item(item);
                }
            },
            ServerNotification::TurnCompleted {
                thread_id: thread,
                turn_id: turn,
                status,
                error,
                items,
            } => {
                if is_for(&thread, &turn, thread_id, turn_id) {
                    self.status = match status {
                        TurnStatus::Completed => "completed".to_owned(),
                        TurnStatus::Failed => "failed".to_owned(),
                        TurnStatus::Interrupted => "interrupted".to_owned(),
                        TurnStatus::InProgress => "in_progress".to_owned(),
                    };
                    if let Some(message) = error {
                        self.push_error(message);
                    }
                    self.record_items(items);
                    return true;
                }
            },
            ServerNotification::Other => {},
        }
        false
    }

    /// Ends the record.
    pub fn finish(self) -> (r: TurnSummary)
        ensures
            r@ == summary_of(self@),
    {
        TurnSummary {
            role: self.role,
            turn_id: self.turn_id,
            status: self.status,
            final_message: match self.final_message {
                Some(message) => Some(truncate_for_state(message.as_str(), 4000)),
                None => None,
            },
            commands: truncate_vec(self.commands, 20),
            file_changes: truncate_vec(self.file_changes, 50),
            errors: truncate_vec(self.errors, 20),
        }
    }
}

/// What follows from an event: the turn goes on with its record, or it is over with its summary.
#[derive(Debug, PartialEq, Eq)]
pub enum TurnStep {
    /// Wait for the next event.
    Wait(TurnCollector),
    /// Answer the server's request, and wait for the next event.
    Answer(TurnCollector),
    /// The turn is over.
    Finish(TurnSummary),
    /// The turn is over, and the server is to be told to interrupt it.
    Interrupt(TurnSummary),
}

/// What a [`TurnStep`] says.
pub enum StepModel {
    Wait(SummaryModel),
    Answer(SummaryModel),
    Finish(SummaryModel),
    Interrupt(SummaryModel),
}

impl View for TurnStep {
    type V = StepModel;

    open spec fn view(&self) -> StepModel {
        match self {
            TurnStep::Wait(collector) => StepModel::Wait(collector@),
            TurnStep::Answer(collector) => StepModel::Answer(collector@),
            TurnStep::Finish(summary) => StepModel::Finish(summary@),
            TurnStep::Interrupt(summary) => StepModel::Interrupt(summary@),
        }
    }
}

/// What follows from an event in a turn of which `c` has been recorded.
pub open spec fn step_of(
    c: SummaryModel,
    event: EventModel,
    thread: Seq<char>,
    turn: Seq<char>,
) -> StepModel {
    match event {
        EventModel::Deadline => StepModel::Interrupt(
            summary_of(
                with_error(
                    SummaryModel { status: "interrupted_deadline"@, ..c },
                    "automode deadline interrupted the active turn"@,
                ),
            ),
        ),
        EventModel::StreamClosed => StepModel::Finish(
            summary_of(SummaryModel { status: "event_stream_closed"@, ..c }),
        ),
        EventModel::Request => StepModel::Answer(c),
        EventModel::Notification(notification) => {
            let (next, completed) = notified(c, notification, thread, turn);
            if completed {
                StepModel::Finish(summary_of(next))
            } else {
                StepModel::Wait(next)
            }
        },
        EventModel::Lagged { skipped } => StepModel::Wait(
            with_error(
                c,
                "in-process app-server event stream lagged; dropped "@ + decimal(skipped as nat)
                    + " events"@,
            ),
        ),
    }
}

/// The thread and the turn that a notification is about, if it is about a turn.
pub open spec fn subject_of(notification: NotificationModel) -> Option<(Seq<char>, Seq<char>)> {
    match notification {
        NotificationModel::Error { thread_id, turn_id, .. } => Some((thread_id, turn_id)),
        NotificationModel::ItemCompleted { thread_id, turn_id, .. } => Some((thread_id, turn_id)),
        NotificationModel::TurnCompleted { thread_id, turn_id, .. } => Some((thread_id, turn_id)),
        NotificationModel::Other => None,
    }
}

/// What is said of another thread or of another turn leaves no trace.
pub proof fn law_other_turns_are_ignored(
    c: SummaryModel,
    notification: NotificationModel,
    thread: Seq<char>,
    turn: Seq<char>,
)
    requires
        subject_of(notification) != Some((thread, turn)),
    ensures
        step_of(c, EventModel::Notification(notification), thread, turn) == StepModel::Wait(c),
{
}

/// A turn ends with the deadline, with the end of the events, or when the server says that it is
/// over, and never otherwise.
pub proof fn law_what_ends_a_turn(
    c: SummaryModel,
    event: EventModel,
    thread: Seq<char>,
    turn: Seq<char>,
)
    ensures
        (step_of(c, event, thread, turn) is Finish || step_of(c, event, thread, turn) is Interrupt)
            <==> (event is Deadline || event is StreamClosed || (event matches
            EventModel::Notification(notification) && notification is TurnCompleted && subject_of(
            notification,
        ) == Some((thread, turn)))),
        step_of(c, event, thread, turn) is Interrupt <==> event is Deadline,
{
}

/// The size that the texts of a list in a summary have at most.
pub open spec fn bounded_list(v: Seq<Seq<char>>, max: nat) -> bool {
    v.len() <= max && forall|i: int| 0 <= i < v.len() ==> (#[trigger] v[i]).len() <= 1214
}

/// A summary is of bounded size, however much happened in the turn.
pub proof fn law_summaries_are_bounded(c: SummaryModel)
    ensures
        summary_of(c).final_message matches Some(message) ==> message.len() <= 4014,
        bounded_list(summary_of(c).commands, 20),
        bounded_list(summary_of(c).file_changes, 50),
        bounded_list(summary_of(c).errors, 20),
{
    reveal_strlit("...[truncated]");
}

/// Nothing is cut off that fits: short texts are kept as they are.
pub proof fn law_what_fits_is_kept(c: SummaryModel)
    requires
        c.final_message matches Some(message) ==> message.len() <= 4000,
        c.commands.len() <= 20,
        c.file_changes.len() <= 50,
        c.errors.len() <= 20,
        forall|i: int| 0 <= i < c.commands.len() ==> (#[trigger] c.commands[i]).len() <= 1200,
        forall|i: int|
            0 <= i < c.file_changes.len() ==> (#[trigger] c.file_changes[i]).len() <= 1200,
        forall|i: int| 0 <= i < c.errors.len() ==> (#[trigger] c.errors[i]).len() <= 1200,
    ensures
        summary_of(c) == c,
{
    let s = summary_of(c);
    assert(s.commands =~= c.commands);
    assert(s.file_changes =~= c.file_changes);
    assert(s.errors =~= c.errors);
}

/// The message that a turn is left with is the last one that the agent sent in it.
pub proof fn law_last_message_wins(c: SummaryModel, items: Seq<ItemModel>, text: Seq<char>, i: int)
    requires
        0 <= i < items.len(),
        items[i] == (ItemModel::AgentMessage { text }),
        forall|k: int| i < k < items.len() ==> !(#[trigger] items[k] is AgentMessage),
    ensures
        with_items(c, items).final_message == Some(text),
    decreases items.len(),
{
    if i < items.len() - 1 {
        law_last_message_wins(c, items.drop_last(), text, i);
        assert(!(items[items.len() - 1] is AgentMessage));
    }
}

impl TurnCollector {
    /// Takes an event of the turn into account, and says what follows from it.
    pub fn on_event(self, event: TurnEvent, thread_id: &str, turn_id: &str) -> (r: TurnStep)
        ensures
            r@ == step_of(self@, event@, thread_id@, turn_id@),
    {
        let mut collector = self;
        match event {
            TurnEvent::Deadline => {
                collector.status = "interrupted_deadline".to_owned();
                collector.push_error("automode deadline interrupted the active turn".to_owned());
                TurnStep::Interrupt(collector.finish())
            },
            TurnEvent::StreamClosed => {
                collector.status = "event_stream_closed".to_owned();
                TurnStep::Finish(collector.finish())
            },
            TurnEvent::Request => TurnStep::Answer(collector),
            TurnEvent::Notification(notification) => {
                let completed = collector.record_notification(notification, thread_id, turn_id);
                if completed {
                    TurnStep::Finish(collector.finish())
                } else {
                    TurnStep::Wait(collector)
                }
            },
            TurnEvent::Lagged { skipped } => {
                let digits = decimal_string(skipped as u64);
                collector.push_error(
                    concat3(
                        "in-process app-server event stream lagged; dropped ",
                        digits.as_str(),
                        " events",
                    ),
                );
                TurnStep::Wait(collector)
            },
        }
    }
}

/// Tells whether a turn may still be started, and why not.
pub fn check_turn_start(now: u128, deadline: u128) -> (r: Result<(), String>)
    ensures
        r is Ok <==> now < deadline,
        r matches Err(message) ==> message@
            == "automode deadline reached before starting next turn"@,
{
    if now >= deadline {
        Err("automode deadline reached before starting next turn".to_owned())
    } else {
        Ok(())
    }
}

} // verus!
