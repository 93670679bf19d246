//! Waiting for the prompt editor of the agent's process.

use vstd::prelude::*;

use crate::terminal::ScreenStatus;
use crate::terminal::StatusModel;

verus! {

/// The longest time that is waited for the prompt editor, in nanoseconds.
pub const STARTUP_TIMEOUT: u128 = 20_000_000_000;

/// How long is waited between two looks at the screen, in milliseconds.
pub const STARTUP_POLL: u64 = 100;

/// Where the wait stands: what it waits for.
#[derive(Clone, Copy, Debug, PartialEq, Eq, Structural)]
pub enum StartupPhase {
    /// The screen is read.
    Looking,
    /// The trust in the workspace is confirmed.
    Confirming,
    /// The clock is read.
    Timing,
    /// The pause before the next look passes.
    Sleeping,
    /// Nothing.
    Ended,
}

/// What the wait asks for.
#[derive(Clone, Debug, PartialEq, Eq)]
pub enum StartupAction {
    /// Read the screen.
    ObserveStatus,
    /// Press Enter.
    Confirm,
    /// Read the clock.
    ReadClock,
    /// Wait for so many milliseconds.
    Sleep(u64),
    /// The prompt editor is there.
    Ready,
    /// The prompt editor did not appear.
    Fail(String),
}

/// What the wait asks for, in contracts.
pub enum StartupActionModel {
    ObserveStatus,
    Confirm,
    ReadClock,
    Sleep(u64),
    Ready,
    Fail(Seq<char>),
}

impl View for StartupAction {
    type V = StartupActionModel;

    open spec fn view(&self) -> StartupActionModel {
        match *self {
            StartupAction::ObserveStatus => StartupActionModel::ObserveStatus,
            StartupAction::Confirm => StartupActionModel::Confirm,
            StartupAction::ReadClock => StartupActionModel::ReadClock,
            StartupAction::Sleep(ms) => StartupActionModel::Sleep(ms),
            StartupAction::Ready => StartupActionModel::Ready,
            StartupAction::Fail(message) => StartupActionModel::Fail(message@),
        }
    }
}

/// What happened upon an action.
#[derive(Clone, Debug, PartialEq, Eq)]
pub enum StartupEvent {
    /// It was done.
    Performed,
    /// The screen was read, or could not be.
    Status(Option<ScreenStatus>),
    /// The clock was read, in nanoseconds.
    Clock(u128),
}

/// What happened upon an action, in contracts.
pub enum StartupEventModel {
    Performed,
    Status(Option<StatusModel>),
    Clock(u128),
}

impl View for StartupEvent {
    type V = StartupEventModel;

    open spec fn view(&self) -> StartupEventModel {
        match *self {
            StartupEvent::Performed => StartupEventModel::Performed,
            StartupEvent::Status(Some(status)) => StartupEventModel::Status(Some(status@)),
            StartupEvent::Status(None) => StartupEventModel::Status(None),
            StartupEvent::Clock(now) => StartupEventModel::Clock(now),
        }
    }
}

/// The wait in contracts.
pub struct StartupModel {
    /// What the agent is called.
    pub agent: Seq<char>,
    pub deadline: u128,
    pub confirmed: bool,
    pub phase: StartupPhase,
}

/// The time that is waited for the prompt editor in a turn of the given length.
pub open spec fn startup_timeout(timeout: u128) -> u128 {
    if timeout < STARTUP_TIMEOUT {
        timeout
    } else {
        STARTUP_TIMEOUT
    }
}

/// The message when the prompt editor of the agent did not appear.
pub open spec fn startup_message(agent: Seq<char>) -> Seq<char> {
    "timed out waiting for "@ + agent + " interactive prompt"@
}

/// The event is one that the wait waits for.
pub open spec fn startup_expects(s: StartupModel, e: StartupEventModel) -> bool {
    match s.phase {
        StartupPhase::Looking => e is Status,
        StartupPhase::Confirming => e is Performed,
        StartupPhase::Timing => e is Clock,
        StartupPhase::Sleeping => e is Performed,
        StartupPhase::Ended => false,
    }
}

/// The next state of the wait upon an event, and what it asks for then.
pub open spec fn startup_next(s: StartupModel, e: StartupEventModel) -> (
    StartupModel,
    StartupActionModel,
) {
    match (s.phase, e) {
        (StartupPhase::Looking, StartupEventModel::Status(Some(StatusModel::Idle))) => (
            StartupModel { phase: StartupPhase::Ended, ..s },
            StartupActionModel::Ready,
        ),
        (
            StartupPhase::Looking,
            StartupEventModel::Status(Some(StatusModel::WorkspaceTrust)),
        ) if !s.confirmed => (
            StartupModel { phase: StartupPhase::Confirming, ..s },
            StartupActionModel::Confirm,
        ),
        (StartupPhase::Looking, _) => (
            StartupModel { phase: StartupPhase::Timing, ..s },
            StartupActionModel::ReadClock,
        ),
        (StartupPhase::Confirming, _) => (
            StartupModel { phase: StartupPhase::Timing, confirmed: true, ..s },
            StartupActionModel::ReadClock,
        ),
        (StartupPhase::Timing, StartupEventModel::Clock(now)) => if now >= s.deadline {
            (
                StartupModel { phase: StartupPhase::Ended, ..s },
                StartupActionModel::Fail(startup_message(s.agent)),
            )
        } else {
            (
                StartupModel { phase: StartupPhase::Sleeping, ..s },
                StartupActionModel::Sleep(STARTUP_POLL),
            )
        },
        (StartupPhase::Sleeping, _) => (
            StartupModel { phase: StartupPhase::Looking, ..s },
            StartupActionModel::ObserveStatus,
        ),
        _ => (s, StartupActionModel::ReadClock),
    }
}

/// The wait for the prompt editor.
pub struct StartupWait {
    agent: String,
    deadline: u128,
    confirmed: bool,
    phase: StartupPhase,
}

impl View for StartupWait {
    type V = StartupModel;

    closed spec fn view(&self) -> StartupModel {
        StartupModel {
            agent: self.agent@,
            deadline: self.deadline,
            confirmed: self.confirmed,
            phase: self.phase,
        }
    }
}

impl StartupWait {
    /// Begins the wait for the agent, in a turn that may take `timeout` nanoseconds.
    pub fn start(agent: &str, now: u128, timeout: u128) -> (res: (StartupWait, StartupAction))
        requires
            now + startup_timeout(timeout) <= u128::MAX,
        ensures
            res.0@ == (StartupModel {
                agent: agent@,
                deadline: (now + startup_timeout(timeout)) as u128,
                confirmed: false,
                phase: StartupPhase::Looking,
            }),
            res.1@ == StartupActionModel::ObserveStatus,
    {
        let longest: u128 = if timeout < STARTUP_TIMEOUT {
            timeout
        } else {
            STARTUP_TIMEOUT
        };
        (
            StartupWait {
                agent: agent.to_owned(),
                deadline: now + longest,
                confirmed: false,
                phase: StartupPhase::Looking,
            },
            StartupAction::ObserveStatus,
        )
    }

    /// Whether the event is one that the wait waits for.
    pub fn expects(&self, event: &StartupEvent) -> (res: bool)
        ensures
            res == startup_expects(self@, event@),
    {
        match (self.phase, event) {
            (StartupPhase::Looking, StartupEvent::Status(_)) => true,
            (StartupPhase::Confirming, StartupEvent::Performed) => true,
            (StartupPhase::Timing, StartupEvent::Clock(_)) => true,
            (StartupPhase::Sleeping, StartupEvent::Performed) => true,
            _ => false,
        }
    }

    /// Takes an event in, and says what to do next.
    pub fn step(&mut self, event: StartupEvent) -> (res: StartupAction)
        requires
            startup_expects(old(self)@, event@),
        ensures
            (final(self)@, res@) == startup_next(old(self)@, event@),
    {
        match (self.phase, event) {
            (StartupPhase::Looking, StartupEvent::Status(Some(ScreenStatus::Idle))) => {
                self.phase = StartupPhase::Ended;
                StartupAction::Ready
            },
            (StartupPhase::Looking, StartupEvent::Status(Some(ScreenStatus::WorkspaceTrust))) => {
                if self.confirmed {
                    self.phase = StartupPhase::Timing;
                    StartupAction::ReadClock
                } else {
                    self.phase = StartupPhase::Confirming;
                    StartupAction::Confirm
                }
            },
            (StartupPhase::Looking, _) => {
                self.phase = StartupPhase::Timing;
                StartupAction::ReadClock
            },
            (StartupPhase::Confirming, _) => {
                self.confirmed = true;
                self.phase = StartupPhase::Timing;
                StartupAction::ReadClock
            },
            (StartupPhase::Timing, StartupEvent::Clock(now)) => {
                if now >= self.deadline {
                    self.phase = StartupPhase::Ended;
                    let mut message = "timed out waiting for ".to_owned();
                    message.append(self.agent.as_str());
                    message.append(" interactive prompt");
                    StartupAction::Fail(message)
                } else {
                    self.phase = StartupPhase::Sleeping;
                    StartupAction::Sleep(STARTUP_POLL)
                }
            },
            (StartupPhase::Sleeping, _) => {
                self.phase = StartupPhase::Looking;
                StartupAction::ObserveStatus
            },
            _ => StartupAction::ReadClock,
        }
    }
}

/// The wait takes in the events, one after the other, and waits for each of them.
pub open spec fn startup_accepts(s: StartupModel, events: Seq<StartupEventModel>) -> bool
    decreases events.len(),
{
    events.len() > 0 ==> startup_expects(s, events[0]) && startup_accepts(
        startup_next(s, events[0]).0,
        events.drop_first(),
    )
}

/// How often the wait presses Enter upon the events.
pub open spec fn confirmations(s: StartupModel, events: Seq<StartupEventModel>) -> nat
    decreases events.len(),
{
    if events.len() == 0 {
        0
    } else {
        (if startup_next(s, events[0]).1 is Confirm {
            1nat
        } else {
            0nat
        }) + confirmations(startup_next(s, events[0]).0, events.drop_first())
    }
}

/// The wait presses Enter once at most, however often the question of trust is shown.
pub proof fn theorem_confirms_once(s: StartupModel, events: Seq<StartupEventModel>)
    requires
        startup_accepts(s, events),
    ensures
        confirmations(s, events) <= 1,
        s.confirmed || s.phase == StartupPhase::Confirming ==> confirmations(s, events) == 0,
    decreases events.len(),
{
    if events.len() > 0 {
        theorem_confirms_once(startup_next(s, events[0]).0, events.drop_first());
    }
}

/// The wait ends well upon an idle screen only, and badly upon a clock at or after the
/// deadline only; the deadline stays.
pub proof fn theorem_startup_ends(s: StartupModel, e: StartupEventModel)
    requires
        startup_expects(s, e),
    ensures
        startup_next(s, e).0.deadline == s.deadline,
        startup_next(s, e).1 is Ready <==> s.phase == StartupPhase::Looking && e
            == StartupEventModel::Status(Some(StatusModel::Idle)),
        startup_next(s, e).1 is Fail <==> s.phase == StartupPhase::Timing && e->Clock_0
            >= s.deadline,
        startup_next(s, e).0.phase == StartupPhase::Ended <==> startup_next(s, e).1 is Ready
            || startup_next(s, e).1 is Fail,
{
}

/// What the wait asks for is known from where it stands and what happened: it is ready upon
/// an idle screen, confirms upon the first question of trust, fails upon a clock at the
/// deadline, and else reads the clock, sleeps and looks again in turn. Where it stands then
/// is known from what it asks for.
pub proof fn theorem_startup_step(s: StartupModel, e: StartupEventModel)
    requires
        startup_expects(s, e),
    ensures
        ({
            let (t, asked) = startup_next(s, e);
            &&& asked is Confirm <==> e == StartupEventModel::Status(
                Some(StatusModel::WorkspaceTrust),
            ) && !s.confirmed
            &&& asked is Ready <==> e == StartupEventModel::Status(Some(StatusModel::Idle))
            &&& asked is Fail <==> (e matches StartupEventModel::Clock(now) && now >= s.deadline)
            &&& asked is Sleep <==> (e matches StartupEventModel::Clock(now) && now < s.deadline)
            &&& asked is Sleep ==> asked == StartupActionModel::Sleep(100)
            &&& asked is ObserveStatus <==> s.phase == StartupPhase::Sleeping
            &&& asked is Fail ==> asked == StartupActionModel::Fail(
                "timed out waiting for "@ + s.agent + " interactive prompt"@,
            )
            &&& t.phase == (match asked {
                StartupActionModel::ObserveStatus => StartupPhase::Looking,
                StartupActionModel::Confirm => StartupPhase::Confirming,
                StartupActionModel::ReadClock => StartupPhase::Timing,
                StartupActionModel::Sleep(_) => StartupPhase::Sleeping,
                StartupActionModel::Ready => StartupPhase::Ended,
                StartupActionModel::Fail(_) => StartupPhase::Ended,
            })
            &&& t.agent == s.agent
            &&& t.deadline == s.deadline
        }),
{
}

/// The trust counts as confirmed from the step behind the confirmation on, and upon nothing
/// else that is shown or happens.
pub proof fn theorem_trust_is_remembered(s: StartupModel, e: StartupEventModel)
    requires
        startup_expects(s, e),
    ensures
        startup_next(s, e).0.confirmed <==> s.confirmed || s.phase == StartupPhase::Confirming,
        startup_next(s, e).0.phase == StartupPhase::Confirming <==> startup_next(s, e).1 is Confirm,
{
}

/// Some look shows the question of trust.
pub open spec fn trust_is_asked(events: Seq<StartupEventModel>) -> bool {
    exists|i: int|
        0 <= i < events.len() && #[trigger] events[i] == StartupEventModel::Status(
            Some(StatusModel::WorkspaceTrust),
        )
}

/// A wait that has not confirmed the trust confirms it exactly once where the question is
/// shown, whatever was shown before it, and never where it is not shown.
pub proof fn theorem_trust_is_confirmed(s: StartupModel, events: Seq<StartupEventModel>)
    requires
        startup_accepts(s, events),
        !s.confirmed,
        s.phase != StartupPhase::Confirming,
    ensures
        trust_is_asked(events) ==> confirmations(s, events) == 1,
        !trust_is_asked(events) ==> confirmations(s, events) == 0,
    decreases events.len(),
{
    if events.len() > 0 {
        let next = startup_next(s, events[0]).0;
        let rest = events.drop_first();
        if trust_is_asked(events) && events[0] != StartupEventModel::Status(
            Some(StatusModel::WorkspaceTrust),
        ) {
            let i = choose|i: int|
                0 <= i < events.len() && #[trigger] events[i] == StartupEventModel::Status(
                    Some(StatusModel::WorkspaceTrust),
                );
            assert(rest[i - 1] == events[i]);
        }
        if trust_is_asked(rest) {
            let i = choose|i: int|
                0 <= i < rest.len() && #[trigger] rest[i] == StartupEventModel::Status(
                    Some(StatusModel::WorkspaceTrust),
                );
            assert(events[i + 1] == rest[i]);
        }
        if startup_next(s, events[0]).1 is Confirm {
            assert(events[0] == events[0]);
            theorem_confirms_once(next, rest);
        } else {
            theorem_trust_is_confirmed(next, rest);
        }
    }
}

/// The wait takes as long as the turn may, but twenty seconds at most.
pub proof fn theorem_startup_timeout(timeout: u128)
    ensures
        startup_timeout(timeout) <= timeout,
        startup_timeout(timeout) <= 20_000_000_000,
        startup_timeout(timeout) == timeout || startup_timeout(timeout) == 20_000_000_000,
{
}

/// The wait waits for a status when it looks, for the clock when it reads that, for nothing
/// when it is over, and else for its action to be done.
pub proof fn theorem_startup_expects(s: StartupModel, e: StartupEventModel)
    ensures
        startup_expects(s, e) <==> match e {
            StartupEventModel::Status(_) => s.phase == StartupPhase::Looking,
            StartupEventModel::Clock(_) => s.phase == StartupPhase::Timing,
            StartupEventModel::Performed => s.phase == StartupPhase::Confirming || s.phase
                == StartupPhase::Sleeping,
        },
{
}

} // verus!
