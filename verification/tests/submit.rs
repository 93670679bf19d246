//! Submitting a prompt.

use claude_session::pty::session::ClaudePtySession;
use claude_session::pty::submit::enter_key;
use claude_session::pty::submit::prompt_echo_needle;
use claude_session::pty::submit::Submission;
use claude_session::pty::submit::SubmitAction;
use claude_session::pty::submit::SubmitEvent;
use claude_session::terminal::ScreenStatus;

#[test]
fn prompt_echo_needle_uses_last_non_empty_trimmed_line() {
    assert_eq!(
        prompt_echo_needle("first line\n\n  final answer  "),
        Some("final answer".to_string())
    );
}

#[test]
fn prompt_echo_needle_truncates_to_last_48_chars() {
    let prompt = "1234567890".repeat(6);
    let expected: String = prompt.chars().skip(12).collect();
    assert_eq!(prompt_echo_needle(&prompt), Some(expected));
}

#[test]
fn prompt_echo_needle_returns_none_for_blank_prompt() {
    assert_eq!(prompt_echo_needle(" \n\t\n"), None);
}

#[test]
fn needle_counts_characters_and_not_bytes() {
    let prompt = format!("x{}", "é".repeat(48));
    assert_eq!(prompt_echo_needle(&prompt), Some("é".repeat(48)));
    assert_eq!(prompt_echo_needle(""), None);
}

fn screen(text: &str, status: ScreenStatus) -> SubmitEvent {
    SubmitEvent::Screen {
        text: text.to_string(),
        status,
    }
}

fn step(submission: &mut Submission, event: SubmitEvent) -> SubmitAction {
    assert!(submission.expects(&event));
    submission.step(event)
}

/// Goes through the typing, up to the first Enter.
fn typed(prompt: &str) -> Submission {
    let (mut s, first) = ClaudePtySession::submit_prompt(prompt);
    assert_eq!(first, SubmitAction::Sleep(2000));
    assert_eq!(
        step(&mut s, SubmitEvent::Performed),
        SubmitAction::Type(prompt.as_bytes().to_vec())
    );
    assert_eq!(
        step(&mut s, SubmitEvent::Performed),
        SubmitAction::Sleep(800)
    );
    assert_eq!(step(&mut s, SubmitEvent::Performed), SubmitAction::Enter);
    s
}

#[test]
fn enter_is_pressed_four_times_on_a_prompt_that_stays() {
    let mut s = typed("say héllo");
    for delay in [1000, 1500, 2000] {
        assert_eq!(
            step(&mut s, SubmitEvent::Performed),
            SubmitAction::Sleep(delay)
        );
        assert_eq!(
            step(&mut s, SubmitEvent::Performed),
            SubmitAction::ObserveScreen
        );
        assert_eq!(
            step(&mut s, screen("> say héllo", ScreenStatus::Idle)),
            SubmitAction::Enter
        );
    }
    assert_eq!(step(&mut s, SubmitEvent::Performed), SubmitAction::Finish);
    assert!(!s.expects(&SubmitEvent::Performed));
    assert!(!s.expects(&screen("> say héllo", ScreenStatus::Idle)));
}

#[test]
fn retries_stop_when_the_prompt_is_gone() {
    let mut s = typed("hello");
    step(&mut s, SubmitEvent::Performed);
    step(&mut s, SubmitEvent::Performed);
    assert!(!s.expects(&SubmitEvent::Performed));
    assert_eq!(
        step(&mut s, screen("> ", ScreenStatus::Idle)),
        SubmitAction::Finish
    );
}

#[test]
fn retries_stop_when_the_editor_is_busy() {
    let mut s = typed("hello");
    step(&mut s, SubmitEvent::Performed);
    step(&mut s, SubmitEvent::Performed);
    assert_eq!(
        step(
            &mut s,
            screen("> hello", ScreenStatus::Other("Working".to_string()))
        ),
        SubmitAction::Finish
    );
}

#[test]
fn blank_prompt_has_enter_pressed_once() {
    let mut s = typed(" \n");
    assert_eq!(step(&mut s, SubmitEvent::Performed), SubmitAction::Finish);
}

#[test]
fn enter_is_a_carriage_return() {
    assert_eq!(enter_key(), b"\r".to_vec());
}

#[test]
fn second_part_of_a_prompt_gives_the_needle() {
    assert_eq!(prompt_echo_needle("a\r\nb"), prompt_echo_needle("b"));
    assert_eq!(prompt_echo_needle("a\r\n \n"), prompt_echo_needle("a\r"));
    assert_eq!(prompt_echo_needle("a\r"), Some("a".to_string()));
}
