//! The events of the session transcript, and what a turn leaves behind.

use vstd::prelude::*;

use crate::text;

verus! {

/// What a transcript event records.
#[derive(Clone, Copy, Debug, PartialEq, Eq, Structural)]
pub enum TranscriptEventKind {
    /// The assistant wrote a message.
    AssistantMessage,
    /// A tool returned its result.
    ToolResult,
    /// Anything else.
    Other,
}

/// One event of the transcript.
#[derive(Clone, Debug, PartialEq, Eq)]
pub struct TranscriptEvent {
    pub kind: TranscriptEventKind,
    pub text: Option<String>,
    pub session_id: Option<String>,
    pub model: Option<String>,
}

/// A transcript event in contracts.
pub struct EventModel {
    pub kind: TranscriptEventKind,
    pub text: Option<Seq<char>>,
    pub session_id: Option<Seq<char>>,
    pub model: Option<Seq<char>>,
}

impl View for TranscriptEvent {
    type V = EventModel;

    open spec fn view(&self) -> EventModel {
        EventModel {
            kind: self.kind,
            text: text::opt_view(self.text),
            session_id: text::opt_view(self.session_id),
            model: text::opt_view(self.model),
        }
    }
}

/// The views of the events in `v`.
pub open spec fn event_views(v: Seq<TranscriptEvent>) -> Seq<EventModel> {
    v.map_values(|e: TranscriptEvent| e@)
}

/// The event has text that is not blank.
pub open spec fn says_something(e: EventModel) -> bool {
    e.text matches Some(t) && text::trimmed(t).len() > 0
}

/// The event may close a turn: the assistant wrote a message, or a tool of a known
/// session returned, and the text is not blank.
pub open spec fn closes_turn(e: EventModel) -> bool {
    match e.kind {
        TranscriptEventKind::AssistantMessage => says_something(e),
        TranscriptEventKind::ToolResult => e.session_id is Some && says_something(e),
        TranscriptEventKind::Other => false,
    }
}

/// Some event may close a turn.
pub open spec fn any_closes(events: Seq<EventModel>) -> bool {
    exists|i: int| 0 <= i < events.len() && closes_turn(#[trigger] events[i])
}

/// Whether the event may close a turn.
pub fn is_assistant_terminal_event(event: &TranscriptEvent) -> (res: bool)
    ensures
        res == closes_turn(event@),
{
    let speaks = match &event.text {
        Some(t) => !text::is_blank(t.as_str()),
        None => false,
    };
    match event.kind {
        TranscriptEventKind::AssistantMessage => speaks,
        TranscriptEventKind::ToolResult => event.session_id.is_some() && speaks,
        TranscriptEventKind::Other => false,
    }
}

/// Whether some event may close a turn.
pub fn any_terminal_event(events: &Vec<TranscriptEvent>) -> (res: bool)
    ensures
        res == any_closes(event_views(events@)),
{
    let mut i: usize = 0;
    while i < events.len()
        invariant
            i <= events.len(),
            forall|j: int| 0 <= j < i ==> !closes_turn(#[trigger] event_views(events@)[j]),
        decreases events.len() - i,
    {
        assert(event_views(events@)[i as int] == events@[i as int]@);
        if is_assistant_terminal_event(&events[i]) {
            return true;
        }
        i = i + 1;
    }
    false
}

/// What a turn leaves behind: the events that the transcript gained, and what the
/// screen shows.
#[derive(Clone, Debug, PartialEq, Eq)]
pub struct TurnOutput {
    pub events: Vec<TranscriptEvent>,
    pub screen_text: Option<String>,
}

/// A turn's output in contracts.
pub struct OutputModel {
    pub events: Seq<EventModel>,
    pub screen_text: Option<Seq<char>>,
}

impl View for TurnOutput {
    type V = OutputModel;

    open spec fn view(&self) -> OutputModel {
        OutputModel {
            events: event_views(self.events@),
            screen_text: text::opt_view(self.screen_text),
        }
    }
}

/// What an event adds to the assistant's message.
pub open spec fn message_part(e: EventModel) -> Seq<char> {
    match (e.kind, e.text) {
        (TranscriptEventKind::AssistantMessage, Some(t)) => t,
        _ => Seq::empty(),
    }
}

/// The assistant's messages in `events`, one after the other.
pub open spec fn messages(events: Seq<EventModel>) -> Seq<char>
    decreases events.len(),
{
    if events.len() == 0 {
        Seq::empty()
    } else {
        messages(events.drop_last()) + message_part(events.last())
    }
}

/// `said`, or what the screen shows where nothing was said.
pub open spec fn or_screen(said: Seq<char>, screen: Option<Seq<char>>) -> Seq<char> {
    if said.len() > 0 {
        said
    } else {
        match screen {
            Some(shown) => shown,
            None => Seq::empty(),
        }
    }
}

/// The model that the first event to name one names.
pub open spec fn first_model(events: Seq<EventModel>) -> Option<Seq<char>>
    decreases events.len(),
{
    if events.len() == 0 {
        None
    } else if events[0].model is Some {
        events[0].model
    } else {
        first_model(events.drop_first())
    }
}

/// `said`, or what the screen shows where nothing was said.
pub fn or_else_screen(said: String, screen: Option<&str>) -> (res: String)
    ensures
        res@ == or_screen(
            said@,
            match screen {
                Some(s) => Some(s@),
                None => None,
            },
        ),
{
    if said.as_str().is_empty() {
        match screen {
            Some(s) => s.to_owned(),
            None => String::new(),
        }
    } else {
        said
    }
}

impl TurnOutput {
    /// The reply of the turn: the assistant's messages without the white space around
    /// them, or, where there is none, what the screen shows.
    pub fn final_text(&self) -> (res: String)
        ensures
            res@ == or_screen(text::trimmed(messages(self@.events)), self@.screen_text),
    {
        let mut joined = String::new();
        let mut i: usize = 0;
        let ghost views = event_views(self.events@);
        while i < self.events.len()
            invariant
                views == event_views(self.events@),
                i <= self.events.len(),
                joined@ == messages(views.take(i as int)),
            decreases self.events.len() - i,
        {
            proof {
                assert(views[i as int] == self.events@[i as int]@);
                assert(views.take(i + 1).drop_last() == views.take(i as int));
                assert(views.take(i + 1).last() == views[i as int]);
                assert(joined@ + Seq::<char>::empty() == joined@);
            }
            match self.events[i].kind {
                TranscriptEventKind::AssistantMessage => {
                    match &self.events[i].text {
                        Some(t) => joined.append(t.as_str()),
                        None => {},
                    }
                },
                _ => {},
            }
            i = i + 1;
        }
        assert(views.take(i as int) == views);
        let said = text::trim(joined.as_str()).to_owned();
        match &self.screen_text {
            Some(s) => or_else_screen(said, Some(s.as_str())),
            None => or_else_screen(said, None),
        }
    }

    /// The model that the first event to name one names.
    pub fn model(&self) -> (res: Option<String>)
        ensures
            text::opt_view(res) == first_model(self@.events),
    {
        let ghost views = event_views(self.events@);
        let mut i: usize = 0;
        assert(views.skip(0) == views);
        while i < self.events.len()
            invariant
                views == event_views(self.events@),
                i <= self.events.len(),
                first_model(views) == first_model(views.skip(i as int)),
            decreases self.events.len() - i,
        {
            proof {
                assert(views.skip(i as int)[0] == self.events@[i as int]@);
                assert(views.skip(i as int).drop_first() == views.skip(i + 1));
            }
            if self.events[i].model.is_some() {
                return text::copy_opt(&self.events[i].model);
            }
            i = i + 1;
        }
        None
    }
}

/// The messages of two stretches of events follow each other.
pub proof fn theorem_messages_concat(a: Seq<EventModel>, b: Seq<EventModel>)
    ensures
        messages(a + b) == messages(a) + messages(b),
    decreases b.len(),
{
    if b.len() == 0 {
        assert(a + b == a);
        assert(messages(a) + Seq::<char>::empty() == messages(a));
    } else {
        assert((a + b).drop_last() == a + b.drop_last());
        assert((a + b).last() == b.last());
        theorem_messages_concat(a, b.drop_last());
        assert((messages(a) + messages(b.drop_last())) + message_part(b.last()) == messages(a) + (
        messages(b.drop_last()) + message_part(b.last())));
    }
}

/// The screen has a say in the reply only where the assistant's messages are blank.
pub proof fn theorem_reply(
    events: Seq<EventModel>,
    screen: Option<Seq<char>>,
    other: Option<Seq<char>>,
)
    ensures
        !text::blank(messages(events)) ==> or_screen(text::trimmed(messages(events)), screen)
            == or_screen(text::trimmed(messages(events)), other),
        text::blank(messages(events)) ==> or_screen(text::trimmed(messages(events)), screen) == (
        match screen {
            Some(shown) => shown,
            None => Seq::empty(),
        }),
{
    text::theorem_blank(messages(events));
}

/// An assistant's message that may close a turn gives the turn a reply of its own.
pub proof fn theorem_closing_message(events: Seq<EventModel>, i: int)
    requires
        0 <= i < events.len(),
        events[i].kind == TranscriptEventKind::AssistantMessage,
        closes_turn(events[i]),
    ensures
        text::trimmed(messages(events)).len() > 0,
    decreases events.len(),
{
    let said = messages(events);
    text::theorem_blank(said);
    let t = events[i].text->Some_0;
    text::theorem_blank(t);
    let k = choose|k: int| 0 <= k < t.len() && !text::white_space(#[trigger] t[k]);
    let before = messages(events.drop_last());
    if i == events.len() - 1 {
        assert(said[before.len() + k] == t[k]);
    } else {
        theorem_closing_message(events.drop_last(), i);
        text::theorem_blank(before);
        let m = choose|m: int| 0 <= m < before.len() && !text::white_space(#[trigger] before[m]);
        assert(said[m] == before[m]);
    }
}

/// The model of a turn is named by one of its events, and no earlier event names one.
pub proof fn theorem_first_model(events: Seq<EventModel>)
    ensures
        match first_model(events) {
            Some(model) => exists|i: int|
                0 <= i < events.len() && (#[trigger] events[i]).model == Some(model) && forall|j: int|
                    0 <= j < i ==> (#[trigger] events[j]).model is None,
            None => forall|j: int| 0 <= j < events.len() ==> (#[trigger] events[j]).model is None,
        },
    decreases events.len(),
{
    if events.len() > 0 && events[0].model is None {
        let rest = events.drop_first();
        theorem_first_model(rest);
        if first_model(rest) is Some {
            let i = choose|i: int|
                0 <= i < rest.len() && (#[trigger] rest[i]).model == first_model(rest) && forall|
                    j: int,
                |
                    0 <= j < i ==> (#[trigger] rest[j]).model is None;
            assert(events[i + 1] == rest[i]);
            assert forall|j: int| 0 <= j < i + 1 implies (#[trigger] events[j]).model is None by {
                if j > 0 {
                    assert(rest[j - 1] == events[j]);
                }
            }
        } else {
            assert forall|j: int| 0 <= j < events.len() implies (
            #[trigger] events[j]).model is None by {
                if j > 0 {
                    assert(rest[j - 1] == events[j]);
                }
            }
        }
    }
}

/// An event may close a turn if and only if it is a message of the assistant, or the result
/// of a tool in a known session, and its text holds a character that is not white space.
pub proof fn theorem_closes_turn(e: EventModel)
    ensures
        closes_turn(e) <==> {
            &&& e.kind == TranscriptEventKind::AssistantMessage || (e.kind
                == TranscriptEventKind::ToolResult && e.session_id is Some)
            &&& e.text is Some
            &&& exists|k: int|
                0 <= k < e.text->Some_0.len() && !text::white_space(#[trigger] e.text->Some_0[k])
        },
{
    if e.text is Some {
        text::theorem_blank(e.text->Some_0);
    }
}

/// Some event of two stretches may close a turn if and only if one of either stretch may;
/// a single event decides for itself, and no event decides nothing.
pub proof fn theorem_any_closes(a: Seq<EventModel>, e: EventModel, b: Seq<EventModel>)
    ensures
        any_closes(a + b) <==> any_closes(a) || any_closes(b),
        any_closes(seq![e]) <==> closes_turn(e),
        !any_closes(Seq::<EventModel>::empty()),
{
    let c = a + b;
    if any_closes(a) {
        let i = choose|i: int| 0 <= i < a.len() && closes_turn(#[trigger] a[i]);
        assert(c[i] == a[i]);
    }
    if any_closes(b) {
        let i = choose|i: int| 0 <= i < b.len() && closes_turn(#[trigger] b[i]);
        assert(c[a.len() + i] == b[i]);
    }
    if any_closes(c) {
        let i = choose|i: int| 0 <= i < c.len() && closes_turn(#[trigger] c[i]);
        if i < a.len() {
            assert(a[i] == c[i]);
        } else {
            assert(b[i - a.len()] == c[i]);
        }
    }
    assert(seq![e][0] == e);
}

/// The message of a single event is its text where the assistant wrote it, and nothing
/// otherwise.
pub proof fn theorem_single_message(e: EventModel)
    ensures
        e.kind == TranscriptEventKind::AssistantMessage && e.text is Some ==> messages(seq![e])
            == e.text->Some_0,
        e.kind != TranscriptEventKind::AssistantMessage || e.text is None ==> messages(seq![e])
            == Seq::<char>::empty(),
        messages(Seq::<EventModel>::empty()) == Seq::<char>::empty(),
{
    reveal_with_fuel(messages, 2);
    assert(seq![e].drop_last() == Seq::<EventModel>::empty());
    assert(seq![e].last() == e);
}

/// Events that the assistant did not write have no say in the messages, whatever else they
/// hold: leaving one of them out, or all of them, changes nothing.
pub proof fn theorem_only_the_assistant_speaks(
    a: Seq<EventModel>,
    e: EventModel,
    b: Seq<EventModel>,
)
    ensures
        e.kind != TranscriptEventKind::AssistantMessage ==> messages(a + seq![e] + b) == messages(
            a + b,
        ),
        messages(a) == messages(
            a.filter(|x: EventModel| x.kind == TranscriptEventKind::AssistantMessage),
        ),
{
    theorem_single_message(e);
    theorem_messages_concat(a + seq![e], b);
    theorem_messages_concat(a, seq![e]);
    theorem_messages_concat(a, b);
    if e.kind != TranscriptEventKind::AssistantMessage {
        assert(messages(a) + Seq::<char>::empty() == messages(a));
    }
    lemma_only_the_assistant_speaks(a);
}

proof fn lemma_only_the_assistant_speaks(a: Seq<EventModel>)
    ensures
        messages(a) == messages(
            a.filter(|x: EventModel| x.kind == TranscriptEventKind::AssistantMessage),
        ),
    decreases a.len(),
{
    reveal(Seq::filter);
    if a.len() > 0 {
        let wrote = |x: EventModel| x.kind == TranscriptEventKind::AssistantMessage;
        let init = a.drop_last();
        lemma_only_the_assistant_speaks(init);
        theorem_single_message(a.last());
        theorem_messages_concat(init, seq![a.last()]);
        assert(a == init + seq![a.last()]);
        if wrote(a.last()) {
            theorem_messages_concat(init.filter(wrote), seq![a.last()]);
            assert(a.filter(wrote) == init.filter(wrote) + seq![a.last()]);
        } else {
            assert(messages(init) + Seq::<char>::empty() == messages(init));
        }
    }
}

/// The reply of a turn is what the assistant wrote, without the white space around it, where
/// that is not blank. Otherwise it is the screen as it stands, or nothing without a screen.
pub proof fn theorem_reply_text(output: OutputModel)
    ensures
        ({
            let said = messages(output.events);
            let reply = or_screen(text::trimmed(said), output.screen_text);
            &&& !text::blank(said) ==> {
                &&& reply.len() > 0
                &&& reply == text::trimmed(said)
                &&& text::occurs_in(said, reply)
            }
            &&& text::blank(said) && output.screen_text is Some ==> reply
                == output.screen_text->Some_0
            &&& text::blank(said) && output.screen_text is None ==> reply.len() == 0
        }),
{
    let said = messages(output.events);
    text::theorem_blank(said);
    let w = text::theorem_trimmed(said);
    text::lemma_subrange_occurs(said, w.0, w.1);
}

/// The output of a turn is seen as it is: every event, with all that it holds, in order, and
/// the screen.
pub proof fn theorem_output_view(output: TurnOutput, i: int)
    requires
        0 <= i < output.events@.len(),
    ensures
        output@.events.len() == output.events@.len(),
        output.screen_text is Some ==> output@.screen_text == Some(output.screen_text->Some_0@),
        output.screen_text is None ==> output@.screen_text is None,
        ({
            let e = output.events@[i];
            let seen = output@.events[i];
            &&& seen.kind == e.kind
            &&& e.text is Some ==> seen.text == Some(e.text->Some_0@)
            &&& e.text is None ==> seen.text is None
            &&& e.session_id is Some ==> seen.session_id == Some(e.session_id->Some_0@)
            &&& e.session_id is None ==> seen.session_id is None
            &&& e.model is Some ==> seen.model == Some(e.model->Some_0@)
            &&& e.model is None ==> seen.model is None
        }),
{
}

} // verus!
