//! A turn, step by step.

use claude_session::session::options::TurnOptions;
use claude_session::session::permission::PendingPermission;
use claude_session::session::transcript::TranscriptEvent;
use claude_session::session::transcript::TranscriptEventKind;
use claude_session::session::transcript::TurnOutput;
use claude_session::session::turn::last_reply;
use claude_session::session::turn::Turn;
use claude_session::session::turn::TurnAction;
use claude_session::session::turn::TurnEvent;
use claude_session::terminal::PermissionDecision;
use claude_session::terminal::PermissionDialog;
use claude_session::terminal::ScreenStatus;

fn options() -> TurnOptions {
    TurnOptions {
        timeout: 1000,
        model: None,
        permission_mode: None,
        resume: None,
        continue_last: false,
        initial_prompt_argument: true,
        attach_on_timeout: false,
        attach_on_permission: false,
    }
}

fn step(turn: &mut Turn, event: TurnEvent) -> TurnAction {
    assert!(turn.expects(&event));
    turn.step(event)
}

/// A turn that reads the transcript for the first time, with its deadline at 1100.
fn running(options: &TurnOptions) -> Turn {
    let (mut turn, first) = Turn::start("Agent", "sid", options, false, true);
    assert_eq!(first, TurnAction::ReadClock);
    assert_eq!(
        step(&mut turn, TurnEvent::Clock(100)),
        TurnAction::PollTranscript
    );
    turn
}

fn message(text: &str) -> TranscriptEvent {
    TranscriptEvent {
        kind: TranscriptEventKind::AssistantMessage,
        text: Some(text.to_string()),
        session_id: None,
        model: None,
    }
}

fn screen(text: &str, idle: bool) -> TurnEvent {
    TurnEvent::Screen {
        text: Some(text.to_string()),
        idle,
    }
}

fn dialog(title: &str) -> PermissionDialog {
    PermissionDialog {
        title: title.to_string(),
        options: vec![],
    }
}

fn decision(name: &str) -> PermissionDecision {
    PermissionDecision {
        name: name.to_string(),
    }
}

/// Goes from a look at the transcript to the search for a permission request.
fn look(turn: &mut Turn) {
    assert_eq!(
        step(turn, TurnEvent::Transcript(vec![])),
        TurnAction::ObserveScreen
    );
    assert_eq!(step(turn, screen("...", false)), TurnAction::ObserveDialog);
}

#[test]
fn typed_prompt_comes_before_the_clock() {
    let typed = TurnOptions {
        initial_prompt_argument: false,
        ..options()
    };
    let (mut turn, first) = Turn::start("Agent", "sid", &typed, false, false);
    assert_eq!(first, TurnAction::AwaitEditor);
    assert_eq!(
        step(&mut turn, TurnEvent::Performed),
        TurnAction::SubmitPrompt
    );
    assert_eq!(step(&mut turn, TurnEvent::Performed), TurnAction::ReadClock);
    assert_eq!(
        step(&mut turn, TurnEvent::Clock(1)),
        TurnAction::OpenTranscript
    );
}

#[test]
fn transcript_is_looked_for_until_found() {
    let (mut turn, _) = Turn::start("Agent", "sid", &options(), false, false);
    assert_eq!(
        step(&mut turn, TurnEvent::Clock(100)),
        TurnAction::OpenTranscript
    );
    assert_eq!(
        step(&mut turn, TurnEvent::TranscriptOpened(false)),
        TurnAction::ObserveScreen
    );
    step(&mut turn, screen("", false));
    step(&mut turn, TurnEvent::Dialog(None));
    assert_eq!(
        step(&mut turn, TurnEvent::Clock(101)),
        TurnAction::Sleep(150)
    );
    assert_eq!(
        step(&mut turn, TurnEvent::Performed),
        TurnAction::OpenTranscript
    );
    assert_eq!(
        step(&mut turn, TurnEvent::TranscriptOpened(true)),
        TurnAction::PollTranscript
    );
}

#[test]
fn reply_in_the_transcript_waits_for_the_idle_editor() {
    let mut turn = running(&options());
    step(&mut turn, TurnEvent::Transcript(vec![message("Hel")]));
    assert_eq!(
        step(&mut turn, screen("busy", false)),
        TurnAction::ObserveDialog
    );
    step(&mut turn, TurnEvent::Dialog(None));
    step(&mut turn, TurnEvent::Clock(200));
    step(&mut turn, TurnEvent::Performed);
    step(&mut turn, TurnEvent::Transcript(vec![message("lo")]));
    assert_eq!(
        step(&mut turn, screen("> ", true)),
        TurnAction::TakeSnapshot
    );
    assert_eq!(
        step(
            &mut turn,
            TurnEvent::Snapshot(Some("⏺ Hello (1s)\n> ".to_string()))
        ),
        TurnAction::Finish(TurnOutput {
            events: vec![message("Hel"), message("lo")],
            screen_text: Some("Hello".to_string()),
        })
    );
    assert!(!turn.expects(&TurnEvent::Performed));
}

#[test]
fn unreadable_screen_does_not_hold_a_reply_back() {
    let mut turn = running(&options());
    step(&mut turn, TurnEvent::Transcript(vec![message("hi")]));
    assert_eq!(
        step(
            &mut turn,
            TurnEvent::Screen {
                text: None,
                idle: false
            }
        ),
        TurnAction::TakeSnapshot
    );
    assert_eq!(
        step(&mut turn, TurnEvent::Snapshot(None)),
        TurnAction::Finish(TurnOutput {
            events: vec![message("hi")],
            screen_text: None,
        })
    );
}

#[test]
fn reply_on_the_screen_alone_drops_the_events() {
    let mut turn = running(&options());
    step(&mut turn, TurnEvent::Transcript(vec![message("  ")]));
    assert_eq!(
        step(&mut turn, screen("⏺ shown\n> ", true)),
        TurnAction::TakeSnapshot
    );
    assert_eq!(
        step(&mut turn, TurnEvent::Snapshot(Some("> ".to_string()))),
        TurnAction::Finish(TurnOutput {
            events: vec![],
            screen_text: Some("> ".to_string()),
        })
    );
}

#[test]
fn idle_screen_without_a_reply_goes_on() {
    let mut turn = running(&options());
    step(&mut turn, TurnEvent::Transcript(vec![]));
    assert_eq!(
        step(&mut turn, screen("> ", true)),
        TurnAction::ObserveDialog
    );
}

#[test]
fn answered_request_is_not_asked_about_again_while_shown() {
    let mut turn = running(&options());
    look(&mut turn);
    assert_eq!(
        step(&mut turn, TurnEvent::Dialog(Some(dialog("a")))),
        TurnAction::AskPermission(PendingPermission {
            session_id: "sid".to_string(),
            dialog: dialog("a"),
        })
    );
    assert_eq!(
        step(&mut turn, TurnEvent::Decided(decision("Allow"))),
        TurnAction::SelectPermission(decision("Allow"))
    );
    assert_eq!(
        step(&mut turn, TurnEvent::Selected(true)),
        TurnAction::ReadClock
    );
    step(&mut turn, TurnEvent::Clock(101));
    step(&mut turn, TurnEvent::Performed);
    look(&mut turn);
    assert_eq!(
        step(&mut turn, TurnEvent::Dialog(Some(dialog("a")))),
        TurnAction::Sleep(150)
    );
    step(&mut turn, TurnEvent::Performed);
    look(&mut turn);
    step(&mut turn, TurnEvent::Dialog(None));
    step(&mut turn, TurnEvent::Clock(102));
    step(&mut turn, TurnEvent::Performed);
    look(&mut turn);
    assert!(matches!(
        step(&mut turn, TurnEvent::Dialog(Some(dialog("a")))),
        TurnAction::AskPermission(_)
    ));
}

#[test]
fn another_request_is_asked_about_at_once() {
    let mut turn = running(&options());
    look(&mut turn);
    step(&mut turn, TurnEvent::Dialog(Some(dialog("a"))));
    step(&mut turn, TurnEvent::Decided(decision("Allow")));
    step(&mut turn, TurnEvent::Selected(true));
    step(&mut turn, TurnEvent::Clock(101));
    step(&mut turn, TurnEvent::Performed);
    look(&mut turn);
    assert!(matches!(
        step(&mut turn, TurnEvent::Dialog(Some(dialog("b")))),
        TurnAction::AskPermission(_)
    ));
}

#[test]
fn decision_that_cannot_be_entered_fails_the_turn() {
    let mut turn = running(&options());
    look(&mut turn);
    step(&mut turn, TurnEvent::Dialog(Some(dialog("a"))));
    step(&mut turn, TurnEvent::Decided(decision("AllowAlways")));
    assert_eq!(
        step(&mut turn, TurnEvent::Selected(false)),
        TurnAction::Fail(
            "unable to select Agent permission option AllowAlways for session sid".to_string()
        )
    );
}

#[test]
fn request_is_handed_over_where_asked_for() {
    let attach = TurnOptions {
        attach_on_permission: true,
        ..options()
    };
    let mut turn = running(&attach);
    look(&mut turn);
    assert_eq!(
        step(&mut turn, TurnEvent::Dialog(Some(dialog("a")))),
        TurnAction::DetachForUser
    );
    assert_eq!(
        step(&mut turn, TurnEvent::Performed),
        TurnAction::Fail("attached user to Agent session sid for permission request".to_string())
    );
}

#[test]
fn time_is_up_at_the_deadline() {
    let mut turn = running(&options());
    look(&mut turn);
    step(&mut turn, TurnEvent::Dialog(None));
    assert_eq!(
        step(&mut turn, TurnEvent::Clock(1099)),
        TurnAction::Sleep(150)
    );
    step(&mut turn, TurnEvent::Performed);
    look(&mut turn);
    step(&mut turn, TurnEvent::Dialog(None));
    assert_eq!(
        step(&mut turn, TurnEvent::Clock(1100)),
        TurnAction::ObserveStatus
    );
    assert_eq!(
        step(
            &mut turn,
            TurnEvent::Status(Some(ScreenStatus::Other("Busy".to_string())))
        ),
        TurnAction::Fail(
            "timed out waiting for Agent transcript completion for session sid \
             (screen status: Busy)"
                .to_string()
        )
    );
}

#[test]
fn user_takes_over_at_the_deadline_where_asked_for() {
    let attach = TurnOptions {
        attach_on_timeout: true,
        ..options()
    };
    let mut turn = running(&attach);
    look(&mut turn);
    step(&mut turn, TurnEvent::Dialog(None));
    assert_eq!(
        step(&mut turn, TurnEvent::Clock(5000)),
        TurnAction::DetachForUser
    );
    assert_eq!(
        step(&mut turn, TurnEvent::Performed),
        TurnAction::ObserveStatus
    );
    assert_eq!(
        step(&mut turn, TurnEvent::Status(None)),
        TurnAction::Fail(
            "timed out waiting for Agent transcript completion for session sid \
             (screen status: Unknown)"
                .to_string()
        )
    );
}

#[test]
fn clock_that_leaves_no_room_for_the_turn_is_not_expected() {
    let (turn, _) = Turn::start("Agent", "sid", &options(), false, true);
    assert!(turn.expects(&TurnEvent::Clock(u128::MAX - 1000)));
    assert!(!turn.expects(&TurnEvent::Clock(u128::MAX - 999)));
    assert!(!turn.expects(&TurnEvent::Performed));
}

#[test]
fn last_screen_is_given_whole_where_nothing_is_said() {
    assert_eq!(
        last_reply(Some("⏺ yes (3s)".to_string())).as_deref(),
        Some("yes")
    );
    assert_eq!(last_reply(Some("> ".to_string())).as_deref(), Some("> "));
    assert_eq!(last_reply(None), None);
}

#[test]
fn statuses_have_names() {
    assert_eq!(ScreenStatus::Idle.name(), "Idle");
    assert_eq!(ScreenStatus::WorkspaceTrust.name(), "WorkspaceTrust");
    assert_eq!(ScreenStatus::Unknown.name(), "Unknown");
    assert_eq!(ScreenStatus::Other("X".to_string()).name(), "X");
}
