//! One turn: from the prompt to the reply, step by step.

use vstd::prelude::*;

use crate::session::options::OptionsModel;
use crate::session::options::TurnOptions;
use crate::session::permission;
use crate::session::permission::PendingModel;
use crate::session::permission::PendingPermission;
use crate::session::screen;
use crate::session::transcript;
use crate::session::transcript::EventModel;
use crate::session::transcript::OutputModel;
use crate::session::transcript::TranscriptEvent;
use crate::session::transcript::TurnOutput;
use crate::terminal;
use crate::terminal::DialogModel;
use crate::terminal::PermissionDecision;
use crate::terminal::PermissionDialog;
use crate::terminal::ScreenStatus;
use crate::terminal::StatusModel;
use crate::text;

verus! {

/// How long is waited between two looks at transcript and screen, in milliseconds.
pub const TURN_POLL: u64 = 150;

/// Where a turn stands: what it waits for.
#[derive(Clone, Copy, Debug, PartialEq, Eq, Structural)]
pub enum TurnPhase {
    /// The prompt editor appears.
    AwaitingEditor,
    /// The prompt is submitted.
    Submitting,
    /// The clock is read, for the deadline.
    StartingClock,
    /// The transcript is looked for.
    OpeningTranscript,
    /// The transcript is read.
    ReadingTranscript,
    /// The screen is read.
    ReadingScreen,
    /// The screen is searched for a permission request.
    ReadingDialog,
    /// A permission request is decided on.
    Asking,
    /// The decision is entered.
    Selecting,
    /// The user takes over, because of a permission request.
    DetachingForPermission,
    /// The clock is read.
    ReadingClock,
    /// The user takes over, because the time is up.
    DetachingForTimeout,
    /// The screen is read, for the failure's message.
    ReadingStatus,
    /// The pause before the next look passes.
    Sleeping,
    /// The screen is read, for the output.
    Concluding,
    /// Nothing.
    Ended,
}

/// What a turn asks for.
#[derive(Clone, Debug, PartialEq, Eq)]
pub enum TurnAction {
    /// Wait for the prompt editor.
    AwaitEditor,
    /// Submit the prompt.
    SubmitPrompt,
    /// Read the clock.
    ReadClock,
    /// Look for the transcript.
    OpenTranscript,
    /// Read what the transcript gained.
    PollTranscript,
    /// Read the screen.
    ObserveScreen,
    /// Search the screen for a permission request.
    ObserveDialog,
    /// Have a permission request decided on.
    AskPermission(PendingPermission),
    /// Enter a decision.
    SelectPermission(PermissionDecision),
    /// Hand the session over to the user.
    DetachForUser,
    /// Read the screen's status.
    ObserveStatus,
    /// Wait for so many milliseconds.
    Sleep(u64),
    /// Read the screen for the last time.
    TakeSnapshot,
    /// The turn has succeeded.
    Finish(TurnOutput),
    /// The turn has failed.
    Fail(String),
}

/// What a turn asks for, in contracts.
pub enum TurnActionModel {
    AwaitEditor,
    SubmitPrompt,
    ReadClock,
    OpenTranscript,
    PollTranscript,
    ObserveScreen,
    ObserveDialog,
    AskPermission(PendingModel),
    SelectPermission(Seq<char>),
    DetachForUser,
    ObserveStatus,
    Sleep(u64),
    TakeSnapshot,
    Finish(OutputModel),
    Fail(Seq<char>),
}

impl View for TurnAction {
    type V = TurnActionModel;

    open spec fn view(&self) -> TurnActionModel {
        match *self {
            TurnAction::AwaitEditor => TurnActionModel::AwaitEditor,
            TurnAction::SubmitPrompt => TurnActionModel::SubmitPrompt,
            TurnAction::ReadClock => TurnActionModel::ReadClock,
            TurnAction::OpenTranscript => TurnActionModel::OpenTranscript,
            TurnAction::PollTranscript => TurnActionModel::PollTranscript,
            TurnAction::ObserveScreen => TurnActionModel::ObserveScreen,
            TurnAction::ObserveDialog => TurnActionModel::ObserveDialog,
            TurnAction::AskPermission(pending) => TurnActionModel::AskPermission(pending@),
            TurnAction::SelectPermission(decision) => TurnActionModel::SelectPermission(
                decision.name@,
            ),
            TurnAction::DetachForUser => TurnActionModel::DetachForUser,
            TurnAction::ObserveStatus => TurnActionModel::ObserveStatus,
            TurnAction::Sleep(ms) => TurnActionModel::Sleep(ms),
            TurnAction::TakeSnapshot => TurnActionModel::TakeSnapshot,
            TurnAction::Finish(output) => TurnActionModel::Finish(output@),
            TurnAction::Fail(message) => TurnActionModel::Fail(message@),
        }
    }
}

/// What happened upon an action.
#[derive(Clone, Debug, PartialEq, Eq)]
pub enum TurnEvent {
    /// It was done.
    Performed,
    /// The clock was read, in nanoseconds.
    Clock(u128),
    /// The transcript was looked for, and found or not.
    TranscriptOpened(bool),
    /// The transcript gained these events.
    Transcript(Vec<TranscriptEvent>),
    /// The screen was read, or could not be, and shows an idle editor or not.
    Screen { text: Option<String>, idle: bool },
    /// The screen was searched for a permission request.
    Dialog(Option<PermissionDialog>),
    /// The permission request was decided on.
    Decided(PermissionDecision),
    /// The decision was entered, or could not be.
    Selected(bool),
    /// The screen's status was read, or could not be.
    Status(Option<ScreenStatus>),
    /// The screen was read for the last time, or could not be.
    Snapshot(Option<String>),
}

/// What happened upon an action, in contracts.
pub enum TurnEventModel {
    Performed,
    Clock(u128),
    TranscriptOpened(bool),
    Transcript(Seq<EventModel>),
    Screen { text: Option<Seq<char>>, idle: bool },
    Dialog(Option<DialogModel>),
    Decided(Seq<char>),
    Selected(bool),
    Status(Option<StatusModel>),
    Snapshot(Option<Seq<char>>),
}

impl View for TurnEvent {
    type V = TurnEventModel;

    open spec fn view(&self) -> TurnEventModel {
        match *self {
            TurnEvent::Performed => TurnEventModel::Performed,
            TurnEvent::Clock(now) => TurnEventModel::Clock(now),
            TurnEvent::TranscriptOpened(found) => TurnEventModel::TranscriptOpened(found),
            TurnEvent::Transcript(events) => TurnEventModel::Transcript(
                transcript::event_views(events@),
            ),
            TurnEvent::Screen { text, idle } => TurnEventModel::Screen {
                text: text::opt_view(text),
                idle,
            },
            TurnEvent::Dialog(Some(dialog)) => TurnEventModel::Dialog(Some(dialog@)),
            TurnEvent::Dialog(None) => TurnEventModel::Dialog(None),
            TurnEvent::Decided(decision) => TurnEventModel::Decided(decision.name@),
            TurnEvent::Selected(done) => TurnEventModel::Selected(done),
            TurnEvent::Status(Some(status)) => TurnEventModel::Status(Some(status@)),
            TurnEvent::Status(None) => TurnEventModel::Status(None),
            TurnEvent::Snapshot(shown) => TurnEventModel::Snapshot(text::opt_view(shown)),
        }
    }
}

/// A turn in contracts.
pub struct TurnModel {
    /// What the agent is called.
    pub agent: Seq<char>,
    pub session_id: Seq<char>,
    pub timeout: u128,
    pub attach_on_timeout: bool,
    pub attach_on_permission: bool,
    /// The time at which the turn gives up.
    pub deadline: u128,
    /// The transcript was found.
    pub transcript_open: bool,
    /// What the transcript gained so far.
    pub events: Seq<EventModel>,
    /// The permission request on the screen that was answered.
    pub answered: Option<Seq<char>>,
    /// The permission request that is being answered.
    pub pending: Option<Seq<char>>,
    /// The decision that is being entered.
    pub decision: Option<Seq<char>>,
    pub phase: TurnPhase,
}

/// How a turn stands to its end.
pub enum Completion {
    /// The transcript holds the reply.
    Transcript,
    /// The screen alone shows the reply.
    Screen,
    /// There is no reply yet.
    Pending,
}

/// Whether the reply is there. With a closing event in the transcript, it is once the
/// editor is idle or the screen cannot be read; without one, once an idle screen shows
/// something that the assistant says.
pub open spec fn completion(
    events: Seq<EventModel>,
    shown: Option<Seq<char>>,
    idle: bool,
) -> Completion {
    if transcript::any_closes(events) {
        if shown is None || idle {
            Completion::Transcript
        } else {
            Completion::Pending
        }
    } else if shown matches Some(t) && idle && screen::screen_text(t) is Some {
        Completion::Screen
    } else {
        Completion::Pending
    }
}

/// What a turn gives of the last screen: what the assistant says on it, or else all of it.
pub open spec fn shown_reply(shown: Option<Seq<char>>) -> Option<Seq<char>> {
    match shown {
        Some(t) => match screen::screen_text(t) {
            Some(said) => Some(said),
            None => Some(t),
        },
        None => None,
    }
}

/// The message of a turn that hands a permission request over to the user.
pub open spec fn attached_message(agent: Seq<char>, session_id: Seq<char>) -> Seq<char> {
    "attached user to "@ + agent + " session "@ + session_id + " for permission request"@
}

/// The message of a turn that cannot enter a decision.
pub open spec fn unselected_message(
    agent: Seq<char>,
    decision: Seq<char>,
    session_id: Seq<char>,
) -> Seq<char> {
    "unable to select "@ + agent + " permission option "@ + decision + " for session "@
        + session_id
}

/// The message of a turn whose time is up.
pub open spec fn timeout_message(
    agent: Seq<char>,
    session_id: Seq<char>,
    status: Seq<char>,
) -> Seq<char> {
    "timed out waiting for "@ + agent + " transcript completion for session "@ + session_id
        + " (screen status: "@ + status + ")"@
}

/// The facts that a turn rests on.
pub open spec fn turn_valid(s: TurnModel) -> bool {
    &&& (s.phase == TurnPhase::Asking || s.phase == TurnPhase::Selecting) ==> {
        &&& s.pending is Some
        &&& s.pending != s.answered
        &&& !s.attach_on_permission
    }
    &&& s.phase == TurnPhase::Selecting ==> s.decision is Some
    &&& s.attach_on_permission ==> s.answered is None
    &&& s.phase == TurnPhase::DetachingForPermission ==> s.attach_on_permission
    &&& s.phase == TurnPhase::DetachingForTimeout ==> s.attach_on_timeout
    &&& s.phase == TurnPhase::ReadingTranscript ==> s.transcript_open
    &&& s.phase == TurnPhase::OpeningTranscript ==> !s.transcript_open
    &&& s.phase == TurnPhase::Concluding ==> transcript::any_closes(s.events) || s.events.len() == 0
}

/// The event is one that the turn waits for.
pub open spec fn turn_expects(s: TurnModel, e: TurnEventModel) -> bool {
    match s.phase {
        TurnPhase::AwaitingEditor => e is Performed,
        TurnPhase::Submitting => e is Performed,
        TurnPhase::StartingClock => e matches TurnEventModel::Clock(now) && now + s.timeout
            <= u128::MAX,
        TurnPhase::OpeningTranscript => e is TranscriptOpened,
        TurnPhase::ReadingTranscript => e is Transcript,
        TurnPhase::ReadingScreen => e is Screen,
        TurnPhase::ReadingDialog => e is Dialog,
        TurnPhase::Asking => e is Decided,
        TurnPhase::Selecting => e is Selected,
        TurnPhase::DetachingForPermission => e is Performed,
        TurnPhase::ReadingClock => e is Clock,
        TurnPhase::DetachingForTimeout => e is Performed,
        TurnPhase::ReadingStatus => e is Status,
        TurnPhase::Sleeping => e is Performed,
        TurnPhase::Concluding => e is Snapshot,
        TurnPhase::Ended => false,
    }
}

/// The turn takes a look: at the transcript, which it first has to find.
pub open spec fn look(s: TurnModel) -> (TurnModel, TurnActionModel) {
    if s.transcript_open {
        (
            TurnModel { phase: TurnPhase::ReadingTranscript, ..s },
            TurnActionModel::PollTranscript,
        )
    } else {
        (
            TurnModel { phase: TurnPhase::OpeningTranscript, ..s },
            TurnActionModel::OpenTranscript,
        )
    }
}

/// The turn has seen the screen.
pub open spec fn after_screen(s: TurnModel, shown: Option<Seq<char>>, idle: bool) -> (
    TurnModel,
    TurnActionModel,
) {
    match completion(s.events, shown, idle) {
        Completion::Transcript => (
            TurnModel { phase: TurnPhase::Concluding, ..s },
            TurnActionModel::TakeSnapshot,
        ),
        Completion::Screen => (
            TurnModel { phase: TurnPhase::Concluding, events: Seq::empty(), ..s },
            TurnActionModel::TakeSnapshot,
        ),
        Completion::Pending => (
            TurnModel { phase: TurnPhase::ReadingDialog, ..s },
            TurnActionModel::ObserveDialog,
        ),
    }
}

/// The turn has searched the screen for a permission request. One that was answered and
/// is still shown is waited for; any other goes to the user or is asked about.
pub open spec fn after_dialog(s: TurnModel, dialog: Option<DialogModel>) -> (
    TurnModel,
    TurnActionModel,
) {
    match dialog {
        None => (
            TurnModel { phase: TurnPhase::ReadingClock, answered: None, ..s },
            TurnActionModel::ReadClock,
        ),
        Some(d) => if s.answered == Some(permission::fingerprint(d)) {
            (TurnModel { phase: TurnPhase::Sleeping, ..s }, TurnActionModel::Sleep(TURN_POLL))
        } else if s.attach_on_permission {
            (
                TurnModel { phase: TurnPhase::DetachingForPermission, ..s },
                TurnActionModel::DetachForUser,
            )
        } else {
            (
                TurnModel {
                    phase: TurnPhase::Asking,
                    pending: Some(permission::fingerprint(d)),
                    ..s
                },
                TurnActionModel::AskPermission(
                    PendingModel { session_id: s.session_id, dialog: d },
                ),
            )
        },
    }
}

/// The turn has entered a decision, or could not.
pub open spec fn after_selection(s: TurnModel, done: bool) -> (TurnModel, TurnActionModel) {
    if done {
        (
            TurnModel { phase: TurnPhase::ReadingClock, answered: s.pending, ..s },
            TurnActionModel::ReadClock,
        )
    } else {
        (
            TurnModel { phase: TurnPhase::Ended, ..s },
            TurnActionModel::Fail(
                unselected_message(
                    s.agent,
                    match s.decision {
                        Some(decision) => decision,
                        None => Seq::empty(),
                    },
                    s.session_id,
                ),
            ),
        )
    }
}

/// The turn has read the clock.
pub open spec fn after_clock(s: TurnModel, now: u128) -> (TurnModel, TurnActionModel) {
    if now < s.deadline {
        (TurnModel { phase: TurnPhase::Sleeping, ..s }, TurnActionModel::Sleep(TURN_POLL))
    } else if s.attach_on_timeout {
        (
            TurnModel { phase: TurnPhase::DetachingForTimeout, ..s },
            TurnActionModel::DetachForUser,
        )
    } else {
        (TurnModel { phase: TurnPhase::ReadingStatus, ..s }, TurnActionModel::ObserveStatus)
    }
}

/// The next state of a turn upon an event, and what it asks for then.
pub open spec fn turn_next(s: TurnModel, e: TurnEventModel) -> (TurnModel, TurnActionModel) {
    match (s.phase, e) {
        (TurnPhase::AwaitingEditor, _) => (
            TurnModel { phase: TurnPhase::Submitting, ..s },
            TurnActionModel::SubmitPrompt,
        ),
        (TurnPhase::Submitting, _) => (
            TurnModel { phase: TurnPhase::StartingClock, ..s },
            TurnActionModel::ReadClock,
        ),
        (TurnPhase::StartingClock, TurnEventModel::Clock(now)) => look(
            TurnModel { deadline: (now + s.timeout) as u128, ..s },
        ),
        (TurnPhase::OpeningTranscript, TurnEventModel::TranscriptOpened(found)) => if found {
            look(TurnModel { transcript_open: true, ..s })
        } else {
            (TurnModel { phase: TurnPhase::ReadingScreen, ..s }, TurnActionModel::ObserveScreen)
        },
        (TurnPhase::ReadingTranscript, TurnEventModel::Transcript(gained)) => (
            TurnModel { phase: TurnPhase::ReadingScreen, events: s.events + gained, ..s },
            TurnActionModel::ObserveScreen,
        ),
        (TurnPhase::ReadingScreen, TurnEventModel::Screen { text, idle }) => after_screen(
            s,
            text,
            idle,
        ),
        (TurnPhase::ReadingDialog, TurnEventModel::Dialog(dialog)) => after_dialog(s, dialog),
        (TurnPhase::Asking, TurnEventModel::Decided(decision)) => (
            TurnModel { phase: TurnPhase::Selecting, decision: Some(decision), ..s },
            TurnActionModel::SelectPermission(decision),
        ),
        (TurnPhase::Selecting, TurnEventModel::Selected(done)) => after_selection(s, done),
        (TurnPhase::DetachingForPermission, _) => (
            TurnModel { phase: TurnPhase::Ended, ..s },
            TurnActionModel::Fail(attached_message(s.agent, s.session_id)),
        ),
        (TurnPhase::ReadingClock, TurnEventModel::Clock(now)) => after_clock(s, now),
        (TurnPhase::DetachingForTimeout, _) => (
            TurnModel { phase: TurnPhase::ReadingStatus, ..s },
            TurnActionModel::ObserveStatus,
        ),
        (TurnPhase::ReadingStatus, TurnEventModel::Status(status)) => (
            TurnModel { phase: TurnPhase::Ended, ..s },
            TurnActionModel::Fail(
                timeout_message(
                    s.agent,
                    s.session_id,
                    terminal::status_name(
                        match status {
                            Some(seen) => seen,
                            None => StatusModel::Unknown,
                        },
                    ),
                ),
            ),
        ),
        (TurnPhase::Sleeping, _) => look(s),
        (TurnPhase::Concluding, TurnEventModel::Snapshot(shown)) => (
            TurnModel { phase: TurnPhase::Ended, events: Seq::empty(), ..s },
            TurnActionModel::Finish(
                OutputModel { events: s.events, screen_text: shown_reply(shown) },
            ),
        ),
        _ => (s, TurnActionModel::ReadClock),
    }
}

/// The prompt has to be typed: it was not handed over on the command line of a process
/// that was launched for it.
pub open spec fn needs_typing(options: OptionsModel, reused: bool) -> bool {
    !options.initial_prompt_argument || reused
}

/// The state in which a turn begins.
pub open spec fn turn_start(
    agent: Seq<char>,
    session_id: Seq<char>,
    options: OptionsModel,
    reused: bool,
    transcript_open: bool,
) -> TurnModel {
    TurnModel {
        agent,
        session_id,
        timeout: options.timeout,
        attach_on_timeout: options.attach_on_timeout,
        attach_on_permission: options.attach_on_permission,
        deadline: 0,
        transcript_open,
        events: Seq::empty(),
        answered: None,
        pending: None,
        decision: None,
        phase: if needs_typing(options, reused) {
            TurnPhase::AwaitingEditor
        } else {
            TurnPhase::StartingClock
        },
    }
}

/// What a turn asks for first.
pub open spec fn first_action(options: OptionsModel, reused: bool) -> TurnActionModel {
    if needs_typing(options, reused) {
        TurnActionModel::AwaitEditor
    } else {
        TurnActionModel::ReadClock
    }
}

/// A turn.
pub struct Turn {
    agent: String,
    session_id: String,
    timeout: u128,
    attach_on_timeout: bool,
    attach_on_permission: bool,
    deadline: u128,
    transcript_open: bool,
    events: Vec<TranscriptEvent>,
    answered: Option<String>,
    pending: Option<String>,
    decision: Option<String>,
    phase: TurnPhase,
}

impl View for Turn {
    type V = TurnModel;

    closed spec fn view(&self) -> TurnModel {
        TurnModel {
            agent: self.agent@,
            session_id: self.session_id@,
            timeout: self.timeout,
            attach_on_timeout: self.attach_on_timeout,
            attach_on_permission: self.attach_on_permission,
            deadline: self.deadline,
            transcript_open: self.transcript_open,
            events: transcript::event_views(self.events@),
            answered: text::opt_view(self.answered),
            pending: text::opt_view(self.pending),
            decision: text::opt_view(self.decision),
            phase: self.phase,
        }
    }
}

/// Whether the reply is there.
pub fn reply_state(events: &Vec<TranscriptEvent>, shown: &Option<String>, idle: bool) -> (res:
    Completion)
    ensures
        res == completion(transcript::event_views(events@), text::opt_view(*shown), idle),
{
    if transcript::any_terminal_event(events) {
        if shown.is_none() || idle {
            Completion::Transcript
        } else {
            Completion::Pending
        }
    } else {
        match shown {
            Some(t) => {
                if idle && screen::assistant_text_from_screen(t.as_str()).is_some() {
                    Completion::Screen
                } else {
                    Completion::Pending
                }
            },
            None => Completion::Pending,
        }
    }
}

/// What a turn gives of the last screen.
pub fn last_reply(shown: Option<String>) -> (res: Option<String>)
    ensures
        text::opt_view(res) == shown_reply(text::opt_view(shown)),
{
    match shown {
        Some(t) => match screen::assistant_text_from_screen(t.as_str()) {
            Some(said) => Some(said),
            None => Some(t),
        },
        None => None,
    }
}

impl Turn {
    /// Begins a turn of the agent. The process may be one that an earlier turn left behind, and the
    /// transcript may have been found already.
    pub fn start(
        agent: &str,
        session_id: &str,
        options: &TurnOptions,
        reused: bool,
        transcript_open: bool,
    ) -> (res: (Turn, TurnAction))
        ensures
            turn_valid(res.0@),
            res.0@ == turn_start(agent@, session_id@, options@, reused, transcript_open),
            res.1@ == first_action(options@, reused),
    {
        let typing = !options.initial_prompt_argument || reused;
        let turn = Turn {
            agent: agent.to_owned(),
            session_id: session_id.to_owned(),
            timeout: options.timeout,
            attach_on_timeout: options.attach_on_timeout,
            attach_on_permission: options.attach_on_permission,
            deadline: 0,
            transcript_open,
            events: Vec::new(),
            answered: None,
            pending: None,
            decision: None,
            phase: if typing {
                TurnPhase::AwaitingEditor
            } else {
                TurnPhase::StartingClock
            },
        };
        assert(transcript::event_views(turn.events@) == Seq::<EventModel>::empty());
        (
            turn,
            if typing {
                TurnAction::AwaitEditor
            } else {
                TurnAction::ReadClock
            },
        )
    }

    /// Whether the event is one that the turn waits for.
    pub fn expects(&self, event: &TurnEvent) -> (res: bool)
        ensures
            res == turn_expects(self@, event@),
    {
        match (self.phase, event) {
            (TurnPhase::AwaitingEditor, TurnEvent::Performed) => true,
            (TurnPhase::Submitting, TurnEvent::Performed) => true,
            (TurnPhase::StartingClock, TurnEvent::Clock(now)) => *now <= u128::MAX - self.timeout,
            (TurnPhase::OpeningTranscript, TurnEvent::TranscriptOpened(_)) => true,
            (TurnPhase::ReadingTranscript, TurnEvent::Transcript(_)) => true,
            (TurnPhase::ReadingScreen, TurnEvent::Screen { .. }) => true,
            (TurnPhase::ReadingDialog, TurnEvent::Dialog(_)) => true,
            (TurnPhase::Asking, TurnEvent::Decided(_)) => true,
            (TurnPhase::Selecting, TurnEvent::Selected(_)) => true,
            (TurnPhase::DetachingForPermission, TurnEvent::Performed) => true,
            (TurnPhase::ReadingClock, TurnEvent::Clock(_)) => true,
            (TurnPhase::DetachingForTimeout, TurnEvent::Performed) => true,
            (TurnPhase::ReadingStatus, TurnEvent::Status(_)) => true,
            (TurnPhase::Sleeping, TurnEvent::Performed) => true,
            (TurnPhase::Concluding, TurnEvent::Snapshot(_)) => true,
            _ => false,
        }
    }

    /// Takes a look.
    fn look(&mut self) -> (res: TurnAction)
        ensures
            (final(self)@, res@) == look(old(self)@),
    {
        if self.transcript_open {
            self.phase = TurnPhase::ReadingTranscript;
            TurnAction::PollTranscript
        } else {
            self.phase = TurnPhase::OpeningTranscript;
            TurnAction::OpenTranscript
        }
    }

    /// Takes the screen in.
    fn on_screen(&mut self, shown: Option<String>, idle: bool) -> (res: TurnAction)
        ensures
            (final(self)@, res@) == after_screen(old(self)@, text::opt_view(shown), idle),
    {
        match reply_state(&self.events, &shown, idle) {
            Completion::Transcript => {
                self.phase = TurnPhase::Concluding;
                TurnAction::TakeSnapshot
            },
            Completion::Screen => {
                self.events = Vec::new();
                assert(transcript::event_views(self.events@) == Seq::<EventModel>::empty());
                self.phase = TurnPhase::Concluding;
                TurnAction::TakeSnapshot
            },
            Completion::Pending => {
                self.phase = TurnPhase::ReadingDialog;
                TurnAction::ObserveDialog
            },
        }
    }

    /// Takes in whether the screen shows a permission request.
    fn on_dialog(&mut self, dialog: Option<PermissionDialog>) -> (res: TurnAction)
        ensures
            (final(self)@, res@) == after_dialog(
                old(self)@,
                match dialog {
                    Some(d) => Some(d@),
                    None => None,
                },
            ),
    {
        match dialog {
            None => {
                self.answered = None;
                self.phase = TurnPhase::ReadingClock;
                TurnAction::ReadClock
            },
            Some(dialog) => {
                let print = permission::permission_fingerprint(&dialog);
                let repeated = match &self.answered {
                    Some(answered) => *answered == print,
                    None => false,
                };
                if repeated {
                    self.phase = TurnPhase::Sleeping;
                    TurnAction::Sleep(TURN_POLL)
                } else if self.attach_on_permission {
                    self.phase = TurnPhase::DetachingForPermission;
                    TurnAction::DetachForUser
                } else {
                    self.pending = Some(print);
                    self.phase = TurnPhase::Asking;
                    TurnAction::AskPermission(
                        PendingPermission { session_id: self.session_id.clone(), dialog },
                    )
                }
            },
        }
    }

    /// Takes in whether a decision was entered.
    fn on_selection(&mut self, done: bool) -> (res: TurnAction)
        ensures
            (final(self)@, res@) == after_selection(old(self)@, done),
    {
        if done {
            self.answered = text::copy_opt(&self.pending);
            self.phase = TurnPhase::ReadingClock;
            TurnAction::ReadClock
        } else {
            let mut message = "unable to select ".to_owned();
            message.append(self.agent.as_str());
            message.append(" permission option ");
            match &self.decision {
                Some(decision) => message.append(decision.as_str()),
                None => {},
            }
            message.append(" for session ");
            message.append(self.session_id.as_str());
            self.phase = TurnPhase::Ended;
            TurnAction::Fail(message)
        }
    }

    /// Takes the time in.
    fn on_clock(&mut self, now: u128) -> (res: TurnAction)
        ensures
            (final(self)@, res@) == after_clock(old(self)@, now),
    {
        if now < self.deadline {
            self.phase = TurnPhase::Sleeping;
            TurnAction::Sleep(TURN_POLL)
        } else if self.attach_on_timeout {
            self.phase = TurnPhase::DetachingForTimeout;
            TurnAction::DetachForUser
        } else {
            self.phase = TurnPhase::ReadingStatus;
            TurnAction::ObserveStatus
        }
    }

    /// Takes in what the screen shows when the time is up.
    fn on_status(&mut self, status: Option<ScreenStatus>) -> (res: TurnAction)
        requires
            old(self)@.phase == TurnPhase::ReadingStatus,
        ensures
            (final(self)@, res@) == turn_next(old(self)@, TurnEvent::Status(status)@),
    {
        let name = match &status {
            Some(seen) => seen.name(),
            None => ScreenStatus::Unknown.name(),
        };
        let mut message = "timed out waiting for ".to_owned();
        message.append(self.agent.as_str());
        message.append(" transcript completion for session ");
        message.append(self.session_id.as_str());
        message.append(" (screen status: ");
        message.append(name.as_str());
        message.append(")");
        self.phase = TurnPhase::Ended;
        TurnAction::Fail(message)
    }

    /// Takes the last screen in.
    fn on_snapshot(&mut self, shown: Option<String>) -> (res: TurnAction)
        requires
            old(self)@.phase == TurnPhase::Concluding,
        ensures
            (final(self)@, res@) == turn_next(old(self)@, TurnEvent::Snapshot(shown)@),
    {
        let mut events: Vec<TranscriptEvent> = Vec::new();
        assert(transcript::event_views(events@) == Seq::<EventModel>::empty());
        core::mem::swap(&mut events, &mut self.events);
        self.phase = TurnPhase::Ended;
        TurnAction::Finish(TurnOutput { events, screen_text: last_reply(shown) })
    }

    /// Takes an event in, and says what to do next.
    pub fn step(&mut self, event: TurnEvent) -> (res: TurnAction)
        requires
            turn_expects(old(self)@, event@),
        ensures
            (final(self)@, res@) == turn_next(old(self)@, event@),
            turn_valid(old(self)@) ==> turn_valid(final(self)@),
    {
        proof {
            if turn_valid(self@) {
                lemma_turn_valid(self@, event@);
            }
        }
        match (self.phase, event) {
            (TurnPhase::AwaitingEditor, _) => {
                self.phase = TurnPhase::Submitting;
                TurnAction::SubmitPrompt
            },
            (TurnPhase::Submitting, _) => {
                self.phase = TurnPhase::StartingClock;
                TurnAction::ReadClock
            },
            (TurnPhase::StartingClock, TurnEvent::Clock(now)) => {
                self.deadline = now + self.timeout;
                self.look()
            },
            (TurnPhase::OpeningTranscript, TurnEvent::TranscriptOpened(found)) => {
                if found {
                    self.transcript_open = true;
                    self.look()
                } else {
                    self.phase = TurnPhase::ReadingScreen;
                    TurnAction::ObserveScreen
                }
            },
            (TurnPhase::ReadingTranscript, TurnEvent::Transcript(gained)) => {
                let mut gained = gained;
                let ghost before = self.events@;
                let ghost added = gained@;
                self.events.append(&mut gained);
                assert(transcript::event_views(self.events@) == transcript::event_views(before)
                    + transcript::event_views(added));
                self.phase = TurnPhase::ReadingScreen;
                TurnAction::ObserveScreen
            },
            (TurnPhase::ReadingScreen, TurnEvent::Screen { text, idle }) => self.on_screen(
                text,
                idle,
            ),
            (TurnPhase::ReadingDialog, TurnEvent::Dialog(dialog)) => self.on_dialog(dialog),
            (TurnPhase::Asking, TurnEvent::Decided(decision)) => {
                self.decision = Some(decision.name.clone());
                self.phase = TurnPhase::Selecting;
                TurnAction::SelectPermission(decision)
            },
            (TurnPhase::Selecting, TurnEvent::Selected(done)) => self.on_selection(done),
            (TurnPhase::DetachingForPermission, _) => {
                let mut message = "attached user to ".to_owned();
                message.append(self.agent.as_str());
                message.append(" session ");
                message.append(self.session_id.as_str());
                message.append(" for permission request");
                self.phase = TurnPhase::Ended;
                TurnAction::Fail(message)
            },
            (TurnPhase::ReadingClock, TurnEvent::Clock(now)) => self.on_clock(now),
            (TurnPhase::DetachingForTimeout, _) => {
                self.phase = TurnPhase::ReadingStatus;
                TurnAction::ObserveStatus
            },
            (TurnPhase::ReadingStatus, TurnEvent::Status(status)) => self.on_status(status),
            (TurnPhase::Sleeping, _) => self.look(),
            (TurnPhase::Concluding, TurnEvent::Snapshot(shown)) => self.on_snapshot(shown),
            _ => TurnAction::ReadClock,
        }
    }
}

/// The facts that a turn rests on hold at every step.
pub proof fn lemma_turn_valid(s: TurnModel, e: TurnEventModel)
    requires
        turn_valid(s),
        turn_expects(s, e),
    ensures
        turn_valid(turn_next(s, e).0),
{
}

/// The turn takes in the events, one after the other, and waits for each of them.
pub open spec fn turn_accepts(s: TurnModel, events: Seq<TurnEventModel>) -> bool
    decreases events.len(),
{
    events.len() > 0 ==> turn_accepts(s, events.drop_last()) && turn_expects(
        turn_after(s, events.drop_last()),
        events.last(),
    )
}

/// The state of the turn after the events.
pub open spec fn turn_after(s: TurnModel, events: Seq<TurnEventModel>) -> TurnModel
    decreases events.len(),
{
    if events.len() == 0 {
        s
    } else {
        turn_next(turn_after(s, events.drop_last()), events.last()).0
    }
}

/// What the turn asks for upon the last of the events.
pub open spec fn last_action(s: TurnModel, events: Seq<TurnEventModel>) -> TurnActionModel {
    turn_next(turn_after(s, events.drop_last()), events.last()).1
}

/// What the transcript gained in the course of the events.
pub open spec fn gained(events: Seq<TurnEventModel>) -> Seq<EventModel>
    decreases events.len(),
{
    if events.len() == 0 {
        Seq::empty()
    } else {
        match events.last() {
            TurnEventModel::Transcript(new) => gained(events.drop_last()) + new,
            _ => gained(events.drop_last()),
        }
    }
}

/// The turn has gathered what the transcript gained, and drops it only to conclude without a
/// closing event.
spec fn gathered(s: TurnModel, new: Seq<EventModel>) -> bool {
    &&& s.phase != TurnPhase::Concluding && s.phase != TurnPhase::Ended ==> s.events == new
    &&& s.phase == TurnPhase::Concluding && transcript::any_closes(new) ==> s.events == new
    &&& s.phase == TurnPhase::Concluding && !transcript::any_closes(new) ==> s.events.len() == 0
}

proof fn lemma_turn_gathers(s: TurnModel, e: TurnEventModel, new: Seq<EventModel>)
    requires
        turn_expects(s, e),
        gathered(s, new),
    ensures
        ({
            let (t, asked) = turn_next(s, e);
            gathered(
                t,
                match e {
                    TurnEventModel::Transcript(more) => new + more,
                    _ => new,
                },
            )
        }),
{
}

/// What a turn has gathered after the events.
proof fn lemma_turn_run(
    agent: Seq<char>,
    session_id: Seq<char>,
    options: OptionsModel,
    reused: bool,
    open: bool,
    events: Seq<TurnEventModel>,
)
    requires
        turn_accepts(turn_start(agent, session_id, options, reused, open), events),
    ensures
        gathered(
            turn_after(turn_start(agent, session_id, options, reused, open), events),
            gained(events),
        ),
    decreases events.len(),
{
    if events.len() > 0 {
        let start = turn_start(agent, session_id, options, reused, open);
        lemma_turn_run(agent, session_id, options, reused, open, events.drop_last());
        lemma_turn_gathers(
            turn_after(start, events.drop_last()),
            events.last(),
            gained(events.drop_last()),
        );
    }
}

/// Whatever happens in a turn, the facts that it rests on hold, and it stays a turn of its
/// agent, its session and its options.
pub proof fn theorem_turn_stays(
    agent: Seq<char>,
    session_id: Seq<char>,
    options: OptionsModel,
    reused: bool,
    open: bool,
    events: Seq<TurnEventModel>,
)
    requires
        turn_accepts(turn_start(agent, session_id, options, reused, open), events),
    ensures
        ({
            let s = turn_after(turn_start(agent, session_id, options, reused, open), events);
            &&& turn_valid(s)
            &&& s.agent == agent
            &&& s.session_id == session_id
            &&& s.timeout == options.timeout
            &&& s.attach_on_timeout == options.attach_on_timeout
            &&& s.attach_on_permission == options.attach_on_permission
        }),
    decreases events.len(),
{
    if events.len() > 0 {
        let start = turn_start(agent, session_id, options, reused, open);
        let before = turn_after(start, events.drop_last());
        theorem_turn_stays(agent, session_id, options, reused, open, events.drop_last());
        lemma_turn_valid(before, events.last());
        theorem_turn_remembers(before, events.last());
    }
}

/// A turn that succeeds returns all that the transcript gained in it, in order, where a
/// closing event is among it. It returns no events where none is, and the screen alone gave
/// the reply.
pub proof fn theorem_turn_output(
    agent: Seq<char>,
    session_id: Seq<char>,
    options: OptionsModel,
    reused: bool,
    open: bool,
    events: Seq<TurnEventModel>,
)
    requires
        events.len() > 0,
        turn_accepts(turn_start(agent, session_id, options, reused, open), events),
    ensures
        last_action(turn_start(agent, session_id, options, reused, open), events) matches
            TurnActionModel::Finish(output) ==> {
            &&& transcript::any_closes(gained(events)) ==> output.events == gained(events)
            &&& !transcript::any_closes(gained(events)) ==> output.events.len() == 0
        },
{
    lemma_turn_run(agent, session_id, options, reused, open, events.drop_last());
}

/// A turn comes to its conclusion only upon a screen with which the reply is there.
pub proof fn theorem_turn_concludes(s: TurnModel, e: TurnEventModel)
    requires
        turn_expects(s, e),
    ensures
        turn_next(s, e).1 is TakeSnapshot <==> {
            &&& s.phase == TurnPhase::ReadingScreen
            &&& !(completion(s.events, e->Screen_text, e->idle) is Pending)
        },
        turn_next(s, e).1 is Finish <==> s.phase == TurnPhase::Concluding,
{
}

/// A turn is over if and only if it has said that it succeeded or failed.
pub proof fn theorem_turn_ends(s: TurnModel, e: TurnEventModel)
    requires
        turn_expects(s, e),
    ensures
        turn_next(s, e).0.phase == TurnPhase::Ended <==> turn_next(s, e).1 is Finish
            || turn_next(s, e).1 is Fail,
{
}

/// A permission request is asked about only where the turn does not hand it over to the
/// user, and only where it is not the one that was answered and is still shown; and what
/// is asked about is the request on the screen.
pub proof fn theorem_asks_once(s: TurnModel, e: TurnEventModel)
    requires
        turn_expects(s, e),
    ensures
        turn_next(s, e).1 matches TurnActionModel::AskPermission(p) ==> {
            &&& e == TurnEventModel::Dialog(Some(p.dialog))
            &&& p.session_id == s.session_id
            &&& !s.attach_on_permission
            &&& s.answered != Some(permission::fingerprint(p.dialog))
        },
{
}

/// Every search of the screen among the events finds a permission request with this
/// fingerprint.
pub open spec fn always_shown(events: Seq<TurnEventModel>, print: Seq<char>) -> bool {
    forall|i: int|
        0 <= i < events.len() ==> ((#[trigger] events[i]) matches TurnEventModel::Dialog(found) ==> {
            &&& found matches Some(d)
            &&& permission::fingerprint(d) == print
        })
}

/// A request that was answered is not asked about again, nor handed over, as long as it
/// stays on the screen.
pub proof fn theorem_answered_once(s: TurnModel, print: Seq<char>, events: Seq<TurnEventModel>)
    requires
        turn_accepts(s, events),
        s.answered == Some(print),
        s.phase != TurnPhase::Asking,
        s.phase != TurnPhase::Selecting,
        s.phase != TurnPhase::DetachingForPermission,
        always_shown(events, print),
    ensures
        turn_after(s, events).answered == Some(print),
        turn_after(s, events).phase != TurnPhase::Asking,
        turn_after(s, events).phase != TurnPhase::Selecting,
        turn_after(s, events).phase != TurnPhase::DetachingForPermission,
        events.len() > 0 ==> !(last_action(s, events) is AskPermission),
    decreases events.len(),
{
    if events.len() > 0 {
        let before = events.drop_last();
        assert forall|i: int| 0 <= i < before.len() implies ((
        #[trigger] before[i]) matches TurnEventModel::Dialog(found) ==> {
            &&& found matches Some(d)
            &&& permission::fingerprint(d) == print
        }) by {
            assert(before[i] == events[i]);
        }
        theorem_answered_once(s, print, before);
        assert(events.last() == events[events.len() - 1]);
    }
}

/// A request that was answered is asked about again once the screen was seen without one.
pub proof fn theorem_asked_again(s: TurnModel, d: DialogModel)
    requires
        s.phase == TurnPhase::ReadingDialog,
        !s.attach_on_permission,
    ensures
        turn_next(s, TurnEventModel::Dialog(None)).0.answered is None,
        s.answered is None ==> turn_next(s, TurnEventModel::Dialog(Some(d))).1
            == TurnActionModel::AskPermission(PendingModel { session_id: s.session_id, dialog: d }),
{
}

/// With the option to hand permission requests over, a turn never asks about one: it
/// hands over the first one that it sees, and then fails.
pub proof fn theorem_permission_takeover(s: TurnModel, d: DialogModel)
    requires
        turn_valid(s),
        s.attach_on_permission,
        s.phase == TurnPhase::ReadingDialog,
    ensures
        ({
            let seen = turn_next(s, TurnEventModel::Dialog(Some(d)));
            &&& seen.1 is DetachForUser
            &&& turn_expects(seen.0, TurnEventModel::Performed)
            &&& turn_next(seen.0, TurnEventModel::Performed).1 == TurnActionModel::Fail(
                attached_message(s.agent, s.session_id),
            )
        }),
{
}

/// Time is up at the deadline and not before: a clock before it lets the turn go on, and
/// one at or after it makes the turn fail, once the user has taken over where that is
/// asked for.
pub proof fn theorem_deadline(s: TurnModel, now: u128, status: Option<StatusModel>)
    requires
        s.phase == TurnPhase::ReadingClock,
    ensures
        ({
            let timed = turn_next(s, TurnEventModel::Clock(now));
            let handed = if s.attach_on_timeout {
                turn_next(timed.0, TurnEventModel::Performed)
            } else {
                timed
            };
            &&& now < s.deadline ==> timed.1 == TurnActionModel::Sleep(TURN_POLL)
            &&& now >= s.deadline ==> {
                &&& s.attach_on_timeout ==> timed.1 is DetachForUser
                &&& handed.1 is ObserveStatus
                &&& turn_next(handed.0, TurnEventModel::Status(status)).1 is Fail
            }
        }),
{
}

/// The deadline is set once, when the prompt is with the process, and is the turn's
/// length later.
pub proof fn theorem_deadline_is_set_once(s: TurnModel, e: TurnEventModel)
    requires
        turn_expects(s, e),
    ensures
        s.phase == TurnPhase::StartingClock ==> turn_next(s, e).0.deadline == e->Clock_0
            + s.timeout,
        s.phase != TurnPhase::StartingClock ==> turn_next(s, e).0.deadline == s.deadline,
        turn_next(s, e).0.phase == TurnPhase::StartingClock ==> s.phase == TurnPhase::Submitting,
        turn_next(s, e).0.phase == TurnPhase::Submitting ==> s.phase == TurnPhase::AwaitingEditor,
        turn_next(s, e).0.phase != TurnPhase::AwaitingEditor,
{
}

/// A line of the screen says something.
pub open spec fn some_line_says(shown: Seq<char>) -> bool {
    exists|i: int|
        0 <= i < text::lines_of(shown).len() && screen::line_text(
            #[trigger] text::lines_of(shown)[i],
        ) is Some
}

/// A look at the screen ends the wait for the reply in two ways only. With a closing event
/// gathered, an idle editor or an unreadable screen ends it, and all events are kept, however
/// much the screen shows. Without one, an idle screen on which the assistant says something
/// ends it, and the events are dropped. Otherwise the turn goes on with all its events.
pub proof fn theorem_look_at_screen(s: TurnModel, shown: Option<Seq<char>>, idle: bool)
    requires
        s.phase == TurnPhase::ReadingScreen,
    ensures
        ({
            let (t, asked) = turn_next(s, TurnEventModel::Screen { text: shown, idle });
            let closed = exists|i: int|
                0 <= i < s.events.len() && transcript::closes_turn(#[trigger] s.events[i]);
            let says = shown is Some && some_line_says(shown->Some_0);
            &&& closed && (idle || shown is None) ==> asked is TakeSnapshot && t.events == s.events
            &&& closed && !idle && shown is Some ==> asked is ObserveDialog && t.events == s.events
            &&& !closed && idle && says ==> asked is TakeSnapshot && t.events.len() == 0
            &&& !closed && !(idle && says) ==> asked is ObserveDialog && t.events == s.events
        }),
{
    if shown is Some {
        screen::theorem_screen_text(shown->Some_0);
    }
}

/// The output of a turn has the screen as it was last seen: what the assistant says on it,
/// or all of it where it says nothing, or none where it could not be read.
pub proof fn theorem_last_screen(s: TurnModel, shown: Option<Seq<char>>)
    requires
        s.phase == TurnPhase::Concluding,
    ensures
        turn_next(s, TurnEventModel::Snapshot(shown)).1 matches TurnActionModel::Finish(output)
            && {
            &&& output.events == s.events
            &&& shown is None ==> output.screen_text is None
            &&& shown is Some && !some_line_says(shown->Some_0) ==> output.screen_text == shown
            &&& shown is Some && some_line_says(shown->Some_0) ==> output.screen_text is Some
                && exists|i: int|
                0 <= i < text::lines_of(shown->Some_0).len() && screen::line_text(
                    #[trigger] text::lines_of(shown->Some_0)[i],
                ) == output.screen_text && forall|j: int|
                    i < j < text::lines_of(shown->Some_0).len() ==> screen::line_text(
                        #[trigger] text::lines_of(shown->Some_0)[j],
                    ) is None
        },
{
    if shown is Some {
        screen::theorem_screen_text(shown->Some_0);
    }
}

/// A permission request on the screen is waited out where it is the one that was answered,
/// handed over where that is asked for, and else asked about; without one the clock is read.
pub proof fn theorem_dialog(s: TurnModel, d: DialogModel)
    requires
        s.phase == TurnPhase::ReadingDialog,
    ensures
        ({
            let seen = turn_next(s, TurnEventModel::Dialog(Some(d))).1;
            let none = turn_next(s, TurnEventModel::Dialog(None)).1;
            let repeated = s.answered == Some(permission::fingerprint(d));
            &&& repeated ==> seen == TurnActionModel::Sleep(150)
            &&& !repeated && s.attach_on_permission ==> seen is DetachForUser
            &&& !repeated && !s.attach_on_permission ==> seen == TurnActionModel::AskPermission(
                PendingModel { session_id: s.session_id, dialog: d },
            )
            &&& none is ReadClock
        }),
{
}

/// What a turn asks for in its other states: the decision that was made is entered, and
/// where it cannot be, the turn fails; the time is up at the deadline; and the looks at
/// transcript and screen follow each other.
pub proof fn theorem_turn_course(s: TurnModel, e: TurnEventModel)
    requires
        turn_expects(s, e),
    ensures
        ({
            let asked = turn_next(s, e).1;
            let look = if s.transcript_open {
                TurnActionModel::PollTranscript
            } else {
                TurnActionModel::OpenTranscript
            };
            &&& s.phase == TurnPhase::AwaitingEditor ==> asked is SubmitPrompt
            &&& s.phase == TurnPhase::Submitting ==> asked is ReadClock
            &&& s.phase == TurnPhase::StartingClock ==> asked == look
            &&& s.phase == TurnPhase::Sleeping ==> asked == look
            &&& e == TurnEventModel::TranscriptOpened(true) ==> asked is PollTranscript
            &&& e == TurnEventModel::TranscriptOpened(false) ==> asked is ObserveScreen
            &&& e is Transcript ==> asked is ObserveScreen
            &&& e matches TurnEventModel::Decided(d) ==> asked == TurnActionModel::SelectPermission(
                d,
            )
            &&& e == TurnEventModel::Selected(true) ==> asked is ReadClock
            &&& e == TurnEventModel::Selected(false) && s.decision is Some ==> asked
                == TurnActionModel::Fail(
                "unable to select "@ + s.agent + " permission option "@ + s.decision->Some_0
                    + " for session "@ + s.session_id,
            )
            &&& s.phase == TurnPhase::DetachingForPermission ==> asked == TurnActionModel::Fail(
                "attached user to "@ + s.agent + " session "@ + s.session_id
                    + " for permission request"@,
            )
            &&& s.phase == TurnPhase::ReadingClock && e->Clock_0 < s.deadline ==> asked
                == TurnActionModel::Sleep(150)
            &&& s.phase == TurnPhase::ReadingClock && e->Clock_0 >= s.deadline
                && s.attach_on_timeout ==> asked is DetachForUser
            &&& s.phase == TurnPhase::ReadingClock && e->Clock_0 >= s.deadline
                && !s.attach_on_timeout ==> asked is ObserveStatus
            &&& s.phase == TurnPhase::DetachingForTimeout ==> asked is ObserveStatus
            &&& s.phase == TurnPhase::ReadingStatus ==> {
                let name = match e->Status_0 {
                    Some(StatusModel::Idle) => "Idle"@,
                    Some(StatusModel::WorkspaceTrust) => "WorkspaceTrust"@,
                    Some(StatusModel::Other(name)) => name,
                    _ => "Unknown"@,
                };
                asked == TurnActionModel::Fail(
                    "timed out waiting for "@ + s.agent + " transcript completion for session "@
                        + s.session_id + " (screen status: "@ + name + ")"@,
                )
            }
        }),
{
}

/// Where a turn stands is known from what it asks for, and from where it stood.
pub proof fn theorem_turn_stands(s: TurnModel, e: TurnEventModel)
    requires
        turn_expects(s, e),
    ensures
        ({
            let (t, asked) = turn_next(s, e);
            t.phase == (match asked {
                TurnActionModel::AwaitEditor => TurnPhase::AwaitingEditor,
                TurnActionModel::SubmitPrompt => TurnPhase::Submitting,
                TurnActionModel::ReadClock => if s.phase == TurnPhase::Submitting {
                    TurnPhase::StartingClock
                } else {
                    TurnPhase::ReadingClock
                },
                TurnActionModel::OpenTranscript => TurnPhase::OpeningTranscript,
                TurnActionModel::PollTranscript => TurnPhase::ReadingTranscript,
                TurnActionModel::ObserveScreen => TurnPhase::ReadingScreen,
                TurnActionModel::ObserveDialog => TurnPhase::ReadingDialog,
                TurnActionModel::AskPermission(_) => TurnPhase::Asking,
                TurnActionModel::SelectPermission(_) => TurnPhase::Selecting,
                TurnActionModel::DetachForUser => if s.phase == TurnPhase::ReadingDialog {
                    TurnPhase::DetachingForPermission
                } else {
                    TurnPhase::DetachingForTimeout
                },
                TurnActionModel::ObserveStatus => TurnPhase::ReadingStatus,
                TurnActionModel::Sleep(_) => TurnPhase::Sleeping,
                TurnActionModel::TakeSnapshot => TurnPhase::Concluding,
                TurnActionModel::Finish(_) => TurnPhase::Ended,
                TurnActionModel::Fail(_) => TurnPhase::Ended,
            })
        }),
{
}

/// What a turn remembers changes upon one thing each. The events change only by what the
/// transcript gains, and when the turn is concluded; the answered request upon a decision
/// that was entered, and when no request is shown; the request that is being answered when
/// it is asked about; the decision when it is made; and that the transcript was found stays
/// so. Nothing else changes but the deadline, when it is set.
pub proof fn theorem_turn_remembers(s: TurnModel, e: TurnEventModel)
    requires
        turn_expects(s, e),
    ensures
        ({
            let (t, asked) = turn_next(s, e);
            &&& t.agent == s.agent
            &&& t.session_id == s.session_id
            &&& t.timeout == s.timeout
            &&& t.attach_on_timeout == s.attach_on_timeout
            &&& t.attach_on_permission == s.attach_on_permission
            &&& t.deadline == (if s.phase == TurnPhase::StartingClock {
                (e->Clock_0 + s.timeout) as u128
            } else {
                s.deadline
            })
            &&& t.transcript_open == (s.transcript_open || e == TurnEventModel::TranscriptOpened(
                true,
            ))
            &&& e matches TurnEventModel::Transcript(new) ==> t.events == s.events + new
            &&& !(e is Transcript) && !(asked is TakeSnapshot) && !(asked is Finish) ==> t.events
                == s.events
            &&& t.answered == (if e == TurnEventModel::Dialog(None) {
                None
            } else if e == TurnEventModel::Selected(true) {
                s.pending
            } else {
                s.answered
            })
            &&& t.pending == (if asked is AskPermission {
                Some(permission::fingerprint(e->Dialog_0->Some_0))
            } else {
                s.pending
            })
            &&& t.decision == (match e {
                TurnEventModel::Decided(d) => Some(d),
                _ => s.decision,
            })
        }),
{
}

/// In each of its states a turn waits for what comes of what it asked for, and for nothing
/// when it is over. The clock with which it starts must leave room for the turn's length.
pub proof fn theorem_turn_expects(s: TurnModel, e: TurnEventModel)
    ensures
        turn_expects(s, e) <==> match e {
            TurnEventModel::Performed => s.phase == TurnPhase::AwaitingEditor || s.phase
                == TurnPhase::Submitting || s.phase == TurnPhase::DetachingForPermission || s.phase
                == TurnPhase::DetachingForTimeout || s.phase == TurnPhase::Sleeping,
            TurnEventModel::Clock(now) => s.phase == TurnPhase::ReadingClock || (s.phase
                == TurnPhase::StartingClock && now + s.timeout <= u128::MAX),
            TurnEventModel::TranscriptOpened(_) => s.phase == TurnPhase::OpeningTranscript,
            TurnEventModel::Transcript(_) => s.phase == TurnPhase::ReadingTranscript,
            TurnEventModel::Screen { text, idle } => s.phase == TurnPhase::ReadingScreen,
            TurnEventModel::Dialog(_) => s.phase == TurnPhase::ReadingDialog,
            TurnEventModel::Decided(_) => s.phase == TurnPhase::Asking,
            TurnEventModel::Selected(_) => s.phase == TurnPhase::Selecting,
            TurnEventModel::Status(_) => s.phase == TurnPhase::ReadingStatus,
            TurnEventModel::Snapshot(_) => s.phase == TurnPhase::Concluding,
        },
{
}

/// A turn begins with nothing gathered, asked or decided, and with the options as they are.
/// The editor is awaited first, unless the prompt was handed over when the process was
/// launched for it.
pub proof fn theorem_turn_begins(
    agent: Seq<char>,
    session_id: Seq<char>,
    options: OptionsModel,
    reused: bool,
    open: bool,
)
    ensures
        ({
            let s = turn_start(agent, session_id, options, reused, open);
            let first = first_action(options, reused);
            let launched_with = options.initial_prompt_argument && !reused;
            &&& s.agent == agent && s.session_id == session_id
            &&& s.timeout == options.timeout
            &&& s.attach_on_timeout == options.attach_on_timeout
            &&& s.attach_on_permission == options.attach_on_permission
            &&& s.transcript_open == open
            &&& s.events.len() == 0
            &&& s.answered is None && s.pending is None && s.decision is None
            &&& launched_with ==> first is ReadClock && s.phase == TurnPhase::StartingClock
            &&& !launched_with ==> first is AwaitEditor && s.phase == TurnPhase::AwaitingEditor
        }),
{
}

} // verus!
