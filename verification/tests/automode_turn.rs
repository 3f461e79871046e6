use automode::automode::turn::{
    check_turn_start, truncate_for_state, truncate_vec, FileUpdate, ServerNotification,
    ThreadItem, TurnCollector, TurnEvent, TurnStatus, TurnStep,
};
use automode::automode::types::{TurnRole, TurnSummary};

fn text(text: &str) -> String {
    text.to_string()
}

fn collector() -> TurnCollector {
    TurnCollector::new(TurnRole::Worker, text("turn"))
}

fn step(collector: TurnCollector, event: TurnEvent) -> TurnStep {
    collector.on_event(event, "thread", "turn")
}

fn item(item: ThreadItem) -> TurnEvent {
    TurnEvent::Notification(ServerNotification::ItemCompleted {
        thread_id: text("thread"),
        turn_id: text("turn"),
        item,
    })
}

fn waiting(step: TurnStep) -> TurnCollector {
    match step {
        TurnStep::Wait(collector) => collector,
        other => panic!("{other:?}"),
    }
}

#[test]
fn items_are_summarised() {
    let mut collector = collector();
    for item in [
        ThreadItem::AgentMessage { text: text("first") },
        ThreadItem::AgentMessage { text: text("last") },
        ThreadItem::CommandExecution {
            command: text("ls"),
            exit_code: Some(-1),
            aggregated_output: Some(text("  out \n")),
        },
        ThreadItem::CommandExecution {
            command: text("pwd"),
            exit_code: None,
            aggregated_output: Some(text(" \n")),
        },
        ThreadItem::FileChange {
            changes: vec![
                FileUpdate { kind: text("Add"), path: text("a") },
                FileUpdate { kind: text("Delete"), path: text("b") },
            ],
        },
        ThreadItem::McpToolCall { server: text("s"), tool: text("t"), error: Some(text("e")) },
        ThreadItem::McpToolCall { server: text("s"), tool: text("t"), error: None },
        ThreadItem::DynamicToolCall {
            tool: text("d"),
            success: Some(false),
            content_items: Some(2),
        },
        ThreadItem::DynamicToolCall { tool: text("d"), success: Some(true), content_items: Some(0) },
        ThreadItem::DynamicToolCall { tool: text("d"), success: None, content_items: None },
        ThreadItem::Other,
    ] {
        collector.record_item(item);
    }
    assert_eq!(
        collector.finish(),
        TurnSummary {
            role: TurnRole::Worker,
            turn_id: text("turn"),
            status: text("running"),
            final_message: Some(text("last")),
            commands: vec![
                text("ls (exit -1): out"),
                text("pwd (exit unknown)"),
                text("dynamic tool d returned 2 content item(s)"),
            ],
            file_changes: vec![text("Add a"), text("Delete b")],
            errors: vec![text("MCP tool s/t failed: e"), text("dynamic tool d failed")],
        }
    );
}

#[test]
fn a_turn_ends_when_the_server_says_so() {
    let mut collector = collector();
    let completed = collector.record_notification(
        ServerNotification::TurnCompleted {
            thread_id: text("thread"),
            turn_id: text("turn"),
            status: TurnStatus::Failed,
            error: Some(text("broken")),
            items: vec![
                ThreadItem::AgentMessage { text: text("a") },
                ThreadItem::AgentMessage { text: text("b") },
            ],
        },
        "thread",
        "turn",
    );
    assert!(completed);
    let summary = collector.finish();
    assert_eq!(summary.status, "failed");
    assert_eq!(summary.errors, vec![text("broken")]);
    assert_eq!(summary.final_message, Some(text("b")));
}

#[test]
fn every_outcome_has_its_word() {
    for (status, word) in [
        (TurnStatus::Completed, "completed"),
        (TurnStatus::Failed, "failed"),
        (TurnStatus::Interrupted, "interrupted"),
        (TurnStatus::InProgress, "in_progress"),
    ] {
        let event = TurnEvent::Notification(ServerNotification::TurnCompleted {
            thread_id: text("thread"),
            turn_id: text("turn"),
            status,
            error: None,
            items: Vec::new(),
        });
        match step(collector(), event) {
            TurnStep::Finish(summary) => assert_eq!(summary.status, word),
            other => panic!("{other:?}"),
        }
    }
}

#[test]
fn other_threads_and_turns_are_ignored() {
    for (thread_id, turn_id) in [("other", "turn"), ("thread", "other")] {
        for notification in [
            ServerNotification::Error {
                thread_id: text(thread_id),
                turn_id: text(turn_id),
                message: text("m"),
            },
            ServerNotification::ItemCompleted {
                thread_id: text(thread_id),
                turn_id: text(turn_id),
                item: ThreadItem::AgentMessage { text: text("m") },
            },
            ServerNotification::TurnCompleted {
                thread_id: text(thread_id),
                turn_id: text(turn_id),
                status: TurnStatus::Completed,
                error: None,
                items: Vec::new(),
            },
            ServerNotification::Other,
        ] {
            let collector = waiting(step(collector(), TurnEvent::Notification(notification)));
            assert_eq!(collector, self::collector());
        }
    }
}

#[test]
fn events_are_followed_by_steps() {
    match step(collector(), TurnEvent::Deadline) {
        TurnStep::Interrupt(summary) => {
            assert_eq!(summary.status, "interrupted_deadline");
            assert_eq!(
                summary.errors,
                vec![text("automode deadline interrupted the active turn")]
            );
        }
        other => panic!("{other:?}"),
    }
    match step(collector(), TurnEvent::StreamClosed) {
        TurnStep::Finish(summary) => assert_eq!(summary.status, "event_stream_closed"),
        other => panic!("{other:?}"),
    }
    assert_eq!(step(collector(), TurnEvent::Request), TurnStep::Answer(collector()));
    let lagged = waiting(step(collector(), TurnEvent::Lagged { skipped: 12 }));
    assert_eq!(
        lagged.errors,
        vec![text("in-process app-server event stream lagged; dropped 12 events")]
    );
    let error = TurnEvent::Notification(ServerNotification::Error {
        thread_id: text("thread"),
        turn_id: text("turn"),
        message: text("m"),
    });
    assert_eq!(waiting(step(collector(), error)).errors, vec![text("m")]);
    let message = item(ThreadItem::AgentMessage { text: text("hello") });
    assert_eq!(waiting(step(collector(), message)).final_message, Some(text("hello")));
}

#[test]
fn long_texts_are_cut_off() {
    assert_eq!(truncate_for_state("äbc", 3), "äbc");
    assert_eq!(truncate_for_state("äbcd", 3), "äbc...[truncated]");
    assert_eq!(truncate_for_state("a", 0), "...[truncated]");
    let values: Vec<String> = (0..5).map(|i| i.to_string()).collect();
    assert_eq!(truncate_vec(values, 2), vec![text("0"), text("1")]);
    let long = "x".repeat(1201);
    assert_eq!(
        truncate_vec(vec![long], 2),
        vec![format!("{}...[truncated]", "x".repeat(1200))]
    );
}

#[test]
fn summaries_are_of_bounded_size() {
    let mut collector = collector();
    for _ in 0..60 {
        collector.record_item(ThreadItem::CommandExecution {
            command: text("c"),
            exit_code: Some(0),
            aggregated_output: Some("y".repeat(601)),
        });
        collector.record_item(ThreadItem::FileChange {
            changes: vec![FileUpdate { kind: text("Add"), path: text("a") }],
        });
        collector.record_item(ThreadItem::McpToolCall {
            server: text("s"),
            tool: text("t"),
            error: Some(text("e")),
        });
    }
    collector.record_item(ThreadItem::AgentMessage { text: "z".repeat(4001) });
    let summary = collector.finish();
    assert_eq!(summary.commands.len(), 20);
    assert_eq!(
        summary.commands[0],
        format!("c (exit 0): {}...[truncated]", "y".repeat(600))
    );
    assert_eq!(summary.file_changes.len(), 50);
    assert_eq!(summary.errors.len(), 20);
    assert_eq!(
        summary.final_message,
        Some(format!("{}...[truncated]", "z".repeat(4000)))
    );
}

#[test]
fn no_turn_starts_after_the_deadline() {
    assert_eq!(check_turn_start(9, 10), Ok(()));
    assert_eq!(
        check_turn_start(10, 10),
        Err(text("automode deadline reached before starting next turn"))
    );
}
