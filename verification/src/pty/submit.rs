//! Submitting a prompt: typing it, and pressing Enter until it is taken.

use vstd::prelude::*;

use crate::os_text;
use crate::terminal::ScreenStatus;
use crate::terminal::StatusModel;
use crate::text;

verus! {

/// How long the prompt editor is given to appear, in milliseconds.
pub const SETTLE_DELAY: u64 = 2000;

/// How long the typed prompt is given before Enter is pressed, in milliseconds.
pub const PRE_ENTER_DELAY: u64 = 800;

/// How often Enter is pressed again.
pub const SUBMIT_RETRIES: usize = 3;

/// How much of the prompt is looked for on the screen, in characters.
pub const NEEDLE_LENGTH: usize = 48;

/// How long is waited before Enter is pressed again for the time `n`, counted from
/// zero, in milliseconds.
pub open spec fn submit_retry_delay(n: int) -> u64 {
    if n == 0 {
        1000
    } else if n == 1 {
        1500
    } else {
        2000
    }
}

/// The last `n` characters of `s`, or all where there are fewer.
pub open spec fn last_chars(s: Seq<char>, n: int) -> Seq<char> {
    if s.len() <= n {
        s
    } else {
        s.skip(s.len() - n)
    }
}

/// The last of `lines` that is not blank, without the white space around it.
pub open spec fn last_shown_line(lines: Seq<Seq<char>>) -> Option<Seq<char>>
    decreases lines.len(),
{
    if lines.len() == 0 {
        None
    } else if text::trimmed(lines.last()).len() > 0 {
        Some(text::trimmed(lines.last()))
    } else {
        last_shown_line(lines.drop_last())
    }
}

/// The end of the prompt, by which it is found on the screen.
pub open spec fn needle_of(prompt: Seq<char>) -> Option<Seq<char>> {
    match last_shown_line(text::lines_of(prompt)) {
        Some(line) => Some(last_chars(line, 48)),
        None => None,
    }
}

/// The end of the prompt, by which it is found on the screen: the last characters of its
/// last line that is not blank.
pub fn prompt_echo_needle(prompt: &str) -> (res: Option<String>)
    ensures
        text::opt_view(res) == needle_of(prompt@),
{
    let lines = text::lines(prompt);
    let ghost views = text::str_views(lines@);
    let mut n: usize = lines.len();
    assert(views.take(n as int) == views);
    while n > 0
        invariant
            views == text::str_views(lines@),
            views == text::lines_of(prompt@),
            n <= lines.len(),
            last_shown_line(views) == last_shown_line(views.take(n as int)),
        decreases n,
    {
        assert(views.take(n as int).last() == lines@[n - 1]@);
        assert(views.take(n as int).drop_last() == views.take(n - 1));
        let shown = text::trim(lines[n - 1]);
        if !shown.is_empty() {
            let count = shown.unicode_len();
            let start: usize = if count <= NEEDLE_LENGTH {
                0
            } else {
                count - NEEDLE_LENGTH
            };
            assert(last_chars(shown@, 48) == shown@.subrange(start as int, count as int));
            return Some(shown.substring_char(start, count).to_owned());
        }
        n = n - 1;
    }
    None
}

/// What is pressed to submit what was typed.
pub fn enter_key() -> (res: Vec<u8>)
    ensures
        res@ == seq![13u8],
{
    let mut res: Vec<u8> = Vec::new();
    res.push(13u8);
    assert(res@ == seq![13u8]);
    res
}

/// Where a submission stands: what it waits for.
#[derive(Clone, Copy, Debug, PartialEq, Eq, Structural)]
pub enum SubmitPhase {
    /// The prompt editor appears.
    Settling,
    /// The prompt is typed.
    Typing,
    /// The typed prompt is taken in.
    Pausing,
    /// Enter is pressed, after so many retries.
    Entering(usize),
    /// The delay before the next retry passes.
    Waiting(usize),
    /// The screen is read.
    Looking(usize),
    /// Nothing.
    Finished,
}

/// What a submission asks for.
#[derive(Clone, Debug, PartialEq, Eq)]
pub enum SubmitAction {
    /// Wait for so many milliseconds.
    Sleep(u64),
    /// Type these bytes.
    Type(Vec<u8>),
    /// Press Enter.
    Enter,
    /// Read the screen.
    ObserveScreen,
    /// Nothing more.
    Finish,
}

/// What a submission asks for, in contracts.
pub enum SubmitActionModel {
    Sleep(u64),
    Type(Seq<u8>),
    Enter,
    ObserveScreen,
    Finish,
}

impl View for SubmitAction {
    type V = SubmitActionModel;

    open spec fn view(&self) -> SubmitActionModel {
        match *self {
            SubmitAction::Sleep(ms) => SubmitActionModel::Sleep(ms),
            SubmitAction::Type(bytes) => SubmitActionModel::Type(bytes@),
            SubmitAction::Enter => SubmitActionModel::Enter,
            SubmitAction::ObserveScreen => SubmitActionModel::ObserveScreen,
            SubmitAction::Finish => SubmitActionModel::Finish,
        }
    }
}

/// What happened upon an action.
#[derive(Clone, Debug, PartialEq, Eq)]
pub enum SubmitEvent {
    /// It was done.
    Performed,
    /// The screen was read.
    Screen { text: String, status: ScreenStatus },
}

/// What happened upon an action, in contracts.
pub enum SubmitEventModel {
    Performed,
    Screen { text: Seq<char>, status: StatusModel },
}

impl View for SubmitEvent {
    type V = SubmitEventModel;

    open spec fn view(&self) -> SubmitEventModel {
        match *self {
            SubmitEvent::Performed => SubmitEventModel::Performed,
            SubmitEvent::Screen { text, status } => SubmitEventModel::Screen {
                text: text@,
                status: status@,
            },
        }
    }
}

/// A submission in contracts.
pub struct SubmissionModel {
    pub prompt: Seq<char>,
    pub phase: SubmitPhase,
}

/// The number of retries that a phase counts is within bounds.
pub open spec fn submit_valid(s: SubmissionModel) -> bool {
    match s.phase {
        SubmitPhase::Entering(n) => n <= SUBMIT_RETRIES,
        SubmitPhase::Waiting(n) => n < SUBMIT_RETRIES && needle_of(s.prompt) is Some,
        SubmitPhase::Looking(n) => n < SUBMIT_RETRIES && needle_of(s.prompt) is Some,
        _ => true,
    }
}

/// The event is one that the submission waits for.
pub open spec fn submit_expects(s: SubmissionModel, e: SubmitEventModel) -> bool {
    match s.phase {
        SubmitPhase::Finished => false,
        SubmitPhase::Looking(_) => e is Screen,
        _ => e is Performed,
    }
}

/// The screen still shows the end of the prompt in an idle editor.
pub open spec fn still_idle(prompt: Seq<char>, shown: Seq<char>, status: StatusModel) -> bool {
    &&& needle_of(prompt) matches Some(needle)
    &&& text::occurs_in(shown, needle)
    &&& status is Idle
}

/// The next phase of a submission upon an event, and what it asks for then.
pub open spec fn submit_next(s: SubmissionModel, e: SubmitEventModel) -> (
    SubmitPhase,
    SubmitActionModel,
) {
    match (s.phase, e) {
        (SubmitPhase::Settling, _) => (
            SubmitPhase::Typing,
            SubmitActionModel::Type(os_text::utf8(s.prompt)),
        ),
        (SubmitPhase::Typing, _) => (
            SubmitPhase::Pausing,
            SubmitActionModel::Sleep(PRE_ENTER_DELAY),
        ),
        (SubmitPhase::Pausing, _) => (SubmitPhase::Entering(0), SubmitActionModel::Enter),
        (SubmitPhase::Entering(n), _) => if n < SUBMIT_RETRIES && needle_of(s.prompt) is Some {
            (SubmitPhase::Waiting(n), SubmitActionModel::Sleep(submit_retry_delay(n as int)))
        } else {
            (SubmitPhase::Finished, SubmitActionModel::Finish)
        },
        (SubmitPhase::Waiting(n), _) => (SubmitPhase::Looking(n), SubmitActionModel::ObserveScreen),
        (SubmitPhase::Looking(n), SubmitEventModel::Screen { text, status }) => if n
            < SUBMIT_RETRIES && still_idle(s.prompt, text, status) {
            (SubmitPhase::Entering((n + 1) as usize), SubmitActionModel::Enter)
        } else {
            (SubmitPhase::Finished, SubmitActionModel::Finish)
        },
        _ => (SubmitPhase::Finished, SubmitActionModel::Finish),
    }
}

/// The submission of a prompt.
pub struct Submission {
    prompt: String,
    needle: Option<String>,
    phase: SubmitPhase,
}

impl View for Submission {
    type V = SubmissionModel;

    closed spec fn view(&self) -> SubmissionModel {
        SubmissionModel { prompt: self.prompt@, phase: self.phase }
    }
}

impl Submission {
    /// The needle is the one of the prompt.
    #[verifier::type_invariant]
    spec fn well_formed(self) -> bool {
        text::opt_view(self.needle) == needle_of(self.prompt@)
    }

    /// Begins the submission of a prompt. It first waits for the prompt editor.
    pub fn start(prompt: &str) -> (res: (Submission, SubmitAction))
        ensures
            res.0@ == (SubmissionModel { prompt: prompt@, phase: SubmitPhase::Settling }),
            res.1@ == SubmitActionModel::Sleep(SETTLE_DELAY),
    {
        let needle = prompt_echo_needle(prompt);
        (
            Submission { prompt: prompt.to_owned(), needle, phase: SubmitPhase::Settling },
            SubmitAction::Sleep(SETTLE_DELAY),
        )
    }

    /// Whether the event is one that the submission waits for.
    pub fn expects(&self, event: &SubmitEvent) -> (res: bool)
        ensures
            res == submit_expects(self@, event@),
    {
        match (self.phase, event) {
            (SubmitPhase::Finished, _) => false,
            (SubmitPhase::Looking(_), SubmitEvent::Screen { .. }) => true,
            (SubmitPhase::Looking(_), SubmitEvent::Performed) => false,
            (_, SubmitEvent::Performed) => true,
            (_, SubmitEvent::Screen { .. }) => false,
        }
    }

    /// Takes an event in, and says what to do next.
    pub fn step(&mut self, event: SubmitEvent) -> (res: SubmitAction)
        requires
            submit_expects(old(self)@, event@),
        ensures
            final(self)@.prompt == old(self)@.prompt,
            (final(self)@.phase, res@) == submit_next(old(self)@, event@),
    {
        proof {
            use_type_invariant(&*self);
        }
        match self.phase {
            SubmitPhase::Settling => {
                self.phase = SubmitPhase::Typing;
                SubmitAction::Type(self.prompt.as_str().as_bytes_vec())
            },
            SubmitPhase::Typing => {
                self.phase = SubmitPhase::Pausing;
                SubmitAction::Sleep(PRE_ENTER_DELAY)
            },
            SubmitPhase::Pausing => {
                self.phase = SubmitPhase::Entering(0);
                SubmitAction::Enter
            },
            SubmitPhase::Entering(n) => {
                if n < SUBMIT_RETRIES && self.needle.is_some() {
                    self.phase = SubmitPhase::Waiting(n);
                    let delay: u64 = if n == 0 {
                        1000
                    } else if n == 1 {
                        1500
                    } else {
                        2000
                    };
                    SubmitAction::Sleep(delay)
                } else {
                    self.phase = SubmitPhase::Finished;
                    SubmitAction::Finish
                }
            },
            SubmitPhase::Waiting(n) => {
                self.phase = SubmitPhase::Looking(n);
                SubmitAction::ObserveScreen
            },
            SubmitPhase::Looking(n) => {
                let again = match (&self.needle, &event) {
                    (Some(needle), SubmitEvent::Screen { text: shown, status }) => {
                        text::contains(shown.as_str(), needle.as_str()) && match status {
                            ScreenStatus::Idle => true,
                            _ => false,
                        }
                    },
                    _ => false,
                };
                if n < SUBMIT_RETRIES && again {
                    self.phase = SubmitPhase::Entering(n + 1);
                    SubmitAction::Enter
                } else {
                    self.phase = SubmitPhase::Finished;
                    SubmitAction::Finish
                }
            },
            SubmitPhase::Finished => SubmitAction::Finish,
        }
    }
}

/// The last line that is not blank is one of the lines.
proof fn lemma_last_shown_line(lines: Seq<Seq<char>>) -> (i: int)
    ensures
        match last_shown_line(lines) {
            Some(line) => 0 <= i < lines.len() && line == text::trimmed(lines[i]) && line.len() > 0,
            None => forall|j: int|
                0 <= j < lines.len() ==> text::trimmed(#[trigger] lines[j]).len() == 0,
        },
    decreases lines.len(),
{
    if lines.len() == 0 {
        0
    } else if text::trimmed(lines.last()).len() > 0 {
        lines.len() - 1
    } else {
        let i = lemma_last_shown_line(lines.drop_last());
        if last_shown_line(lines.drop_last()) is None {
            assert forall|j: int| 0 <= j < lines.len() implies text::trimmed(
                #[trigger] lines[j],
            ).len() == 0 by {
                if j < lines.len() - 1 {
                    assert(lines.drop_last()[j] == lines[j]);
                }
            }
        }
        i
    }
}

/// The needle of a prompt is a part of it, of one to forty-eight characters, without a
/// line break and not ending in white space. There is none if and only if the prompt is
/// blank.
pub proof fn theorem_needle(prompt: Seq<char>)
    ensures
        needle_of(prompt) is None <==> text::blank(prompt),
        needle_of(prompt) matches Some(needle) ==> {
            &&& 0 < needle.len() <= NEEDLE_LENGTH
            &&& text::occurs_in(prompt, needle)
            &&& !text::white_space(needle.last())
            &&& forall|j: int| 0 <= j < needle.len() ==> needle[j] != '\n'
        },
{
    let lines = text::lines_of(prompt);
    let i = lemma_last_shown_line(lines);
    text::theorem_blank_lines(prompt);
    if needle_of(prompt) is Some {
        let line = lines[i];
        let shown = text::trimmed(line);
        let needle = last_chars(shown, 48);
        text::theorem_blank(line);
        text::theorem_lines_occur(prompt, i);
        let w = text::theorem_trimmed(line);
        let start = w.1 - needle.len();
        assert(needle == line.subrange(start, w.1));
        assert(needle.last() == shown.last());
        text::lemma_subrange_occurs(line, start, w.1);
        let at = choose|at: int| text::occurs_at(prompt, line, at);
        assert(line == prompt.subrange(at, at + line.len()));
        text::lemma_occurs_within(prompt, at, at + line.len(), needle);
    } else {
        assert forall|j: int| 0 <= j < lines.len() implies text::blank(#[trigger] lines[j]) by {
            text::theorem_blank(lines[j]);
        }
    }
}

proof fn lemma_last_shown_line_joined(earlier: Seq<Seq<char>>, later: Seq<Seq<char>>)
    ensures
        last_shown_line(earlier + later) == (if last_shown_line(later) is Some {
            last_shown_line(later)
        } else {
            last_shown_line(earlier)
        }),
    decreases later.len(),
{
    if later.len() == 0 {
        assert(earlier + later == earlier);
    } else {
        assert((earlier + later).last() == later.last());
        assert((earlier + later).drop_last() == earlier + later.drop_last());
        lemma_last_shown_line_joined(earlier, later.drop_last());
    }
}

/// Of a prompt in two parts, with a line feed between them, the second one gives the needle,
/// unless it is blank.
pub proof fn theorem_needle_joined(first: Seq<char>, second: Seq<char>)
    ensures
        needle_of(first.push('\n') + second) == (if text::blank(second) {
            needle_of(first)
        } else {
            needle_of(second)
        }),
{
    let open = text::lines_of(first);
    let ended = text::lines_of(first.push('\n'));
    theorem_needle(second);
    text::theorem_lines_joined(first, second);
    text::theorem_last_line_ended(first);
    lemma_last_shown_line_joined(ended, text::lines_of(second));
    if first.len() == 0 || first.last() == '\n' {
        assert(ended.drop_last() == open);
        assert(ended.last() == Seq::<char>::empty());
    } else {
        text::lemma_trimmed_line(open.last());
        assert(ended.drop_last() == open.drop_last());
        assert(ended.last() == text::without_carriage_return(open.last()));
    }
}

/// A screen that shows all of the prompt in an idle editor has Enter pressed again.
pub proof fn theorem_echo_is_still_idle(prompt: Seq<char>, shown: Seq<char>)
    requires
        !text::blank(prompt),
        text::occurs_in(shown, prompt),
    ensures
        still_idle(prompt, shown, StatusModel::Idle),
{
    theorem_needle(prompt);
    let at = choose|at: int| text::occurs_at(shown, prompt, at);
    assert(prompt == shown.subrange(at, at + prompt.len()));
    text::lemma_occurs_within(shown, at, at + prompt.len(), needle_of(prompt)->Some_0);
}

/// The submission takes in the events, one after the other, and waits for each of them.
pub open spec fn submit_accepts(s: SubmissionModel, events: Seq<SubmitEventModel>) -> bool
    decreases events.len(),
{
    events.len() > 0 ==> {
        &&& submit_expects(s, events[0])
        &&& submit_accepts(
            SubmissionModel { phase: submit_next(s, events[0]).0, ..s },
            events.drop_first(),
        )
    }
}

/// What the submission asks for upon the events.
pub open spec fn submit_actions(s: SubmissionModel, events: Seq<SubmitEventModel>) -> Seq<
    SubmitActionModel,
>
    decreases events.len(),
{
    if events.len() == 0 {
        Seq::empty()
    } else {
        seq![submit_next(s, events[0]).1] + submit_actions(
            SubmissionModel { phase: submit_next(s, events[0]).0, ..s },
            events.drop_first(),
        )
    }
}

/// How often Enter is pressed.
pub open spec fn enters(actions: Seq<SubmitActionModel>) -> nat
    decreases actions.len(),
{
    if actions.len() == 0 {
        0
    } else {
        (if actions[0] is Enter {
            1nat
        } else {
            0nat
        }) + enters(actions.drop_first())
    }
}

/// How often something is typed.
pub open spec fn typings(actions: Seq<SubmitActionModel>) -> nat
    decreases actions.len(),
{
    if actions.len() == 0 {
        0
    } else {
        (if actions[0] is Type {
            1nat
        } else {
            0nat
        }) + typings(actions.drop_first())
    }
}

/// How often Enter may still be pressed.
spec fn enters_left(phase: SubmitPhase) -> int {
    match phase {
        SubmitPhase::Settling => 4,
        SubmitPhase::Typing => 4,
        SubmitPhase::Pausing => 4,
        SubmitPhase::Entering(n) => 3 - n,
        SubmitPhase::Waiting(n) => 3 - n,
        SubmitPhase::Looking(n) => 3 - n,
        SubmitPhase::Finished => 0,
    }
}

/// How many events may still come.
spec fn events_left(phase: SubmitPhase) -> int {
    match phase {
        SubmitPhase::Settling => 13,
        SubmitPhase::Typing => 12,
        SubmitPhase::Pausing => 11,
        SubmitPhase::Entering(n) => 10 - 3 * n,
        SubmitPhase::Waiting(n) => 9 - 3 * n,
        SubmitPhase::Looking(n) => 8 - 3 * n,
        SubmitPhase::Finished => 0,
    }
}

proof fn lemma_submit_run(s: SubmissionModel, events: Seq<SubmitEventModel>)
    requires
        submit_valid(s),
        submit_accepts(s, events),
    ensures
        enters(submit_actions(s, events)) <= enters_left(s.phase),
        events.len() <= events_left(s.phase),
        s.phase != SubmitPhase::Settling ==> typings(submit_actions(s, events)) == 0,
    decreases events.len(),
{
    if events.len() > 0 {
        let (phase, action) = submit_next(s, events[0]);
        let next = SubmissionModel { phase, ..s };
        lemma_submit_run(next, events.drop_first());
        let rest = submit_actions(next, events.drop_first());
        let all = submit_actions(s, events);
        assert(all[0] == action);
        assert(all.drop_first() == rest);
    }
}

/// A submission presses Enter at most four times, types the prompt at most once and
/// nothing else, and ends after thirteen events at the latest.
pub proof fn theorem_submission_is_bounded(prompt: Seq<char>, events: Seq<SubmitEventModel>)
    requires
        submit_accepts(SubmissionModel { prompt, phase: SubmitPhase::Settling }, events),
    ensures
        ({
            let actions = submit_actions(
                SubmissionModel { prompt, phase: SubmitPhase::Settling },
                events,
            );
            &&& enters(actions) <= 1 + SUBMIT_RETRIES
            &&& typings(actions) <= 1
            &&& events.len() <= 13
            &&& events.len() > 0 ==> actions[0] == SubmitActionModel::Type(os_text::utf8(prompt))
        }),
{
    let s = SubmissionModel { prompt, phase: SubmitPhase::Settling };
    lemma_submit_run(s, events);
    if events.len() > 0 {
        let next = SubmissionModel { phase: SubmitPhase::Typing, ..s };
        lemma_submit_run(next, events.drop_first());
        let all = submit_actions(s, events);
        assert(all[0] == SubmitActionModel::Type(os_text::utf8(prompt)));
        assert(all.drop_first() == submit_actions(next, events.drop_first()));
    }
}

/// After the first time, Enter is pressed only upon a screen that still shows the end of
/// the prompt in an idle editor; and a blank prompt has Enter pressed once.
pub proof fn theorem_retry_needs_idle_echo(s: SubmissionModel, e: SubmitEventModel)
    requires
        submit_valid(s),
        submit_expects(s, e),
        submit_next(s, e).1 is Enter,
        s.phase != SubmitPhase::Pausing,
    ensures
        e matches SubmitEventModel::Screen { text, status } && still_idle(s.prompt, text, status),
        !text::blank(s.prompt),
{
    theorem_needle(s.prompt);
}

/// The line at `i` is the last one of the prompt that is not blank.
pub open spec fn last_line_at(prompt: Seq<char>, i: int) -> bool {
    &&& 0 <= i < text::lines_of(prompt).len()
    &&& !text::blank(text::lines_of(prompt)[i])
    &&& forall|j: int|
        i < j < text::lines_of(prompt).len() ==> text::blank(#[trigger] text::lines_of(prompt)[j])
}

/// `end` is the end of `line`: its last forty-eight characters, or all where there are fewer.
pub open spec fn end_of_line(line: Seq<char>, end: Seq<char>) -> bool {
    &&& end.len() == 48 || end.len() == line.len()
    &&& end.len() <= 48
    &&& exists|before: Seq<char>| line == #[trigger] (before + end)
}

proof fn lemma_last_shown_at(lines: Seq<Seq<char>>, i: int)
    requires
        0 <= i < lines.len(),
        !text::blank(lines[i]),
        forall|j: int| i < j < lines.len() ==> text::blank(#[trigger] lines[j]),
    ensures
        last_shown_line(lines) == Some(text::trimmed(lines[i])),
    decreases lines.len(),
{
    text::theorem_blank(lines.last());
    if i < lines.len() - 1 {
        assert(text::blank(lines[lines.len() - 1]));
        assert forall|j: int| i < j < lines.drop_last().len() implies text::blank(
            #[trigger] lines.drop_last()[j],
        ) by {
            assert(lines.drop_last()[j] == lines[j]);
        }
        assert(lines.drop_last()[i] == lines[i]);
        lemma_last_shown_at(lines.drop_last(), i);
    }
}

/// The needle of a prompt is the end of its last line that is not blank, without the white
/// space around that line.
pub proof fn theorem_needle_ends_last_line(prompt: Seq<char>, i: int)
    requires
        last_line_at(prompt, i),
    ensures
        needle_of(prompt) is Some,
        end_of_line(text::trimmed(text::lines_of(prompt)[i]), needle_of(prompt)->Some_0),
{
    lemma_last_shown_at(text::lines_of(prompt), i);
    let line = text::trimmed(text::lines_of(prompt)[i]);
    let end = needle_of(prompt)->Some_0;
    assert(line == line.take(line.len() - end.len()) + end);
}

/// Upon a look, Enter is pressed again if and only if the editor is idle and the end of the
/// prompt's last line stands on the screen, whatever else of the prompt is shown; otherwise
/// the submission is finished.
pub proof fn theorem_echo_decides(
    prompt: Seq<char>,
    i: int,
    end: Seq<char>,
    n: usize,
    shown: Seq<char>,
    status: StatusModel,
)
    requires
        last_line_at(prompt, i),
        end_of_line(text::trimmed(text::lines_of(prompt)[i]), end),
        n < 3,
    ensures
        ({
            let looked = submit_next(
                SubmissionModel { prompt, phase: SubmitPhase::Looking(n) },
                SubmitEventModel::Screen { text: shown, status },
            );
            &&& text::occurs_in(shown, end) && status == StatusModel::Idle ==> looked == (
                SubmitPhase::Entering((n + 1) as usize),
                SubmitActionModel::Enter,
            )
            &&& !text::occurs_in(shown, end) || status != StatusModel::Idle ==> looked == (
                SubmitPhase::Finished,
                SubmitActionModel::Finish,
            )
        }),
{
    theorem_needle_ends_last_line(prompt, i);
    let line = text::trimmed(text::lines_of(prompt)[i]);
    let needle = needle_of(prompt)->Some_0;
    let before = choose|before: Seq<char>| line == #[trigger] (before + end);
    let front = choose|front: Seq<char>| line == #[trigger] (front + needle);
    assert(end == line.skip(line.len() - end.len()));
    assert(needle == line.skip(line.len() - needle.len()));
}

/// Of a prompt in two parts, with a line feed between them, the second one alone decides
/// whether Enter is pressed again, unless it is blank.
pub proof fn theorem_last_part_decides(
    first: Seq<char>,
    second: Seq<char>,
    n: usize,
    shown: Seq<char>,
    status: StatusModel,
)
    requires
        !text::blank(second),
    ensures
        still_idle(first.push('\n') + second, shown, status) == still_idle(second, shown, status),
        submit_next(
            SubmissionModel { prompt: first.push('\n') + second, phase: SubmitPhase::Looking(n) },
            SubmitEventModel::Screen { text: shown, status },
        ) == submit_next(
            SubmissionModel { prompt: second, phase: SubmitPhase::Looking(n) },
            SubmitEventModel::Screen { text: shown, status },
        ),
{
    theorem_needle_joined(first, second);
}

/// The course of a submission between two looks: the prompt is typed as it stands, Enter
/// follows after a pause, and up to three looks follow, after ever longer delays. A blank
/// prompt is not looked for.
pub proof fn theorem_submission_course(prompt: Seq<char>, n: usize)
    ensures
        ({
            let at = |phase: SubmitPhase|
                submit_next(SubmissionModel { prompt, phase }, SubmitEventModel::Performed);
            let delay: u64 = if n == 0 {
                1000
            } else if n == 1 {
                1500
            } else {
                2000
            };
            &&& at(SubmitPhase::Settling) == (
                SubmitPhase::Typing,
                SubmitActionModel::Type(vstd::utf8::encode_utf8(prompt)),
            )
            &&& at(SubmitPhase::Typing) == (SubmitPhase::Pausing, SubmitActionModel::Sleep(800))
            &&& at(SubmitPhase::Pausing) == (SubmitPhase::Entering(0), SubmitActionModel::Enter)
            &&& n < 3 && !text::blank(prompt) ==> at(SubmitPhase::Entering(n)) == (
                SubmitPhase::Waiting(n),
                SubmitActionModel::Sleep(delay),
            )
            &&& n >= 3 || text::blank(prompt) ==> at(SubmitPhase::Entering(n)) == (
                SubmitPhase::Finished,
                SubmitActionModel::Finish,
            )
            &&& at(SubmitPhase::Waiting(n)) == (
                SubmitPhase::Looking(n),
                SubmitActionModel::ObserveScreen,
            )
        }),
{
    theorem_needle(prompt);
}

/// A submission waits for the screen when it looks, for nothing when it is finished, and
/// else for its action to be done.
pub proof fn theorem_submission_expects(s: SubmissionModel, e: SubmitEventModel)
    ensures
        submit_expects(s, e) <==> {
            ||| s.phase is Looking && e is Screen
            ||| !(s.phase is Looking) && !(s.phase is Finished) && e is Performed
        },
{
}

} // verus!
