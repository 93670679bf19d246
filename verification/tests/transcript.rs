//! The transcript, and the output of a turn.

use claude_session::session::transcript::any_terminal_event;
use claude_session::session::transcript::is_assistant_terminal_event;
use claude_session::session::transcript::or_else_screen;
use claude_session::session::transcript::TranscriptEvent;
use claude_session::session::transcript::TranscriptEventKind;
use claude_session::session::transcript::TurnOutput;

fn event(kind: TranscriptEventKind, text: Option<&str>) -> TranscriptEvent {
    TranscriptEvent {
        kind,
        text: text.map(|t| t.to_string()),
        session_id: None,
        model: None,
    }
}

fn output(events: Vec<TranscriptEvent>, screen: Option<&str>) -> TurnOutput {
    TurnOutput {
        events,
        screen_text: screen.map(|t| t.to_string()),
    }
}

#[test]
fn messages_close_a_turn_unless_blank() {
    let kind = TranscriptEventKind::AssistantMessage;
    assert!(is_assistant_terminal_event(&event(kind, Some("hi"))));
    assert!(!is_assistant_terminal_event(&event(kind, Some(" \n"))));
    assert!(!is_assistant_terminal_event(&event(kind, None)));
}

#[test]
fn tool_results_close_a_turn_of_a_known_session() {
    let mut result = event(TranscriptEventKind::ToolResult, Some("out"));
    assert!(!is_assistant_terminal_event(&result));
    result.session_id = Some("s".to_string());
    assert!(is_assistant_terminal_event(&result));
    result.text = Some("  ".to_string());
    assert!(!is_assistant_terminal_event(&result));
}

#[test]
fn other_events_do_not_close_a_turn() {
    let other = event(TranscriptEventKind::Other, Some("hi"));
    assert!(!is_assistant_terminal_event(&other));
    assert!(!any_terminal_event(&vec![other.clone()]));
    assert!(!any_terminal_event(&vec![]));
    let message = event(TranscriptEventKind::AssistantMessage, Some("hi"));
    assert!(any_terminal_event(&vec![other, message]));
}

#[test]
fn reply_joins_the_messages() {
    let out = output(
        vec![
            event(TranscriptEventKind::AssistantMessage, Some("  Hello, ")),
            event(TranscriptEventKind::ToolResult, Some("ignored")),
            event(TranscriptEventKind::AssistantMessage, None),
            event(TranscriptEventKind::AssistantMessage, Some("world.\n")),
        ],
        Some("screen"),
    );
    assert_eq!(out.final_text(), "Hello, world.");
}

#[test]
fn reply_falls_back_to_the_screen() {
    let blank = vec![event(TranscriptEventKind::AssistantMessage, Some(" \t"))];
    assert_eq!(
        output(blank.clone(), Some(" as shown ")).final_text(),
        " as shown "
    );
    assert_eq!(output(blank, None).final_text(), "");
    assert_eq!(output(vec![], Some("x")).final_text(), "x");
    assert_eq!(or_else_screen("said".to_string(), Some("x")), "said");
    assert_eq!(or_else_screen(String::new(), Some("x")), "x");
}

#[test]
fn model_is_the_first_one_named() {
    let mut events = vec![
        event(TranscriptEventKind::Other, None),
        event(TranscriptEventKind::AssistantMessage, Some("a")),
        event(TranscriptEventKind::AssistantMessage, Some("b")),
    ];
    assert_eq!(output(events.clone(), None).model(), None);
    events[1].model = Some("opus".to_string());
    events[2].model = Some("haiku".to_string());
    assert_eq!(output(events, None).model(), Some("opus".to_string()));
}
