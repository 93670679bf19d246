//! Waiting for the prompt editor.

use claude_session::session::startup::StartupAction;
use claude_session::session::startup::StartupEvent;
use claude_session::session::startup::StartupWait;
use claude_session::terminal::ScreenStatus;

fn step(wait: &mut StartupWait, event: StartupEvent) -> StartupAction {
    assert!(wait.expects(&event));
    wait.step(event)
}

#[test]
fn idle_editor_ends_the_wait() {
    let (mut wait, first) = StartupWait::start("Agent", 7, 1_000);
    assert_eq!(first, StartupAction::ObserveStatus);
    assert_eq!(
        step(&mut wait, StartupEvent::Status(Some(ScreenStatus::Idle))),
        StartupAction::Ready
    );
    assert!(!wait.expects(&StartupEvent::Performed));
}

#[test]
fn trust_is_confirmed_once() {
    let (mut wait, _) = StartupWait::start("Agent", 0, 60_000_000_000);
    let trust = StartupEvent::Status(Some(ScreenStatus::WorkspaceTrust));
    assert_eq!(step(&mut wait, trust.clone()), StartupAction::Confirm);
    assert!(!wait.expects(&trust));
    assert_eq!(
        step(&mut wait, StartupEvent::Performed),
        StartupAction::ReadClock
    );
    assert_eq!(
        step(&mut wait, StartupEvent::Clock(1)),
        StartupAction::Sleep(100)
    );
    assert_eq!(
        step(&mut wait, StartupEvent::Performed),
        StartupAction::ObserveStatus
    );
    assert_eq!(step(&mut wait, trust), StartupAction::ReadClock);
}

#[test]
fn wait_is_cut_at_twenty_seconds() {
    let (mut wait, _) = StartupWait::start("Agent", 5, 120_000_000_000);
    step(&mut wait, StartupEvent::Status(None));
    assert_eq!(
        step(&mut wait, StartupEvent::Clock(20_000_000_004)),
        StartupAction::Sleep(100)
    );
    step(&mut wait, StartupEvent::Performed);
    step(&mut wait, StartupEvent::Status(Some(ScreenStatus::Unknown)));
    assert_eq!(
        step(&mut wait, StartupEvent::Clock(20_000_000_005)),
        StartupAction::Fail("timed out waiting for Agent interactive prompt".to_string())
    );
    assert!(!wait.expects(&StartupEvent::Clock(0)));
}

#[test]
fn shorter_turn_cuts_the_wait() {
    let (mut wait, _) = StartupWait::start("Agent", 0, 3);
    step(
        &mut wait,
        StartupEvent::Status(Some(ScreenStatus::Other("Busy".to_string()))),
    );
    assert!(matches!(
        step(&mut wait, StartupEvent::Clock(3)),
        StartupAction::Fail(_)
    ));
}
