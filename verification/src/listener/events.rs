//! The events a message can trigger, and the names they are registered under.
use crate::text::{chars_of, str_eq, string_from_chars};
use vstd::prelude::*;

verus! {

/// An event: a command with its pattern (such as `/dir`), a text message, or a media message.
pub enum EventType {
    Command(String),
    Text,
    Media,
}

/// An event as plain values.
pub enum EventTypeView {
    Command(Seq<char>),
    Text,
    Media,
}

impl View for EventType {
    type V = EventTypeView;

    open spec fn view(&self) -> EventTypeView {
        match self {
            EventType::Command(c) => EventTypeView::Command(c@),
            EventType::Text => EventTypeView::Text,
            EventType::Media => EventTypeView::Media,
        }
    }
}

/// The name under which the text event is registered.
pub const TEXT_EVENT: &'static str = "__TEXT__";

/// The name under which the media event is registered.
pub const MEDIA_EVENT: &'static str = "__MEDIA__";

/// The name an event is registered under: a command's pattern, or a reserved name.
pub open spec fn event_name(e: EventTypeView) -> Seq<char> {
    match e {
        EventTypeView::Command(c) => c,
        EventTypeView::Text => TEXT_EVENT@,
        EventTypeView::Media => MEDIA_EVENT@,
    }
}

/// The event registered under `name`.
pub open spec fn event_from_name(name: Seq<char>) -> EventTypeView {
    if name == TEXT_EVENT@ {
        EventTypeView::Text
    } else if name == MEDIA_EVENT@ {
        EventTypeView::Media
    } else {
        EventTypeView::Command(name)
    }
}

impl EventType {
    /// The event of the command with pattern `pattern`.
    pub fn command(pattern: &str) -> (r: Self)
        ensures
            r@ == EventTypeView::Command(pattern@),
    {
        EventType::Command(string_from_chars(chars_of(pattern)))
    }

    /// The event of a text message.
    pub fn text() -> (r: Self)
        ensures
            r@ == EventTypeView::Text,
    {
        EventType::Text
    }

    /// The event of a media message.
    pub fn media() -> (r: Self)
        ensures
            r@ == EventTypeView::Media,
    {
        EventType::Media
    }

    /// The name the event is registered under.
    pub fn to_str(&self) -> (r: &str)
        ensures
            r@ == event_name(self@),
    {
        match self {
            EventType::Command(command) => command.as_str(),
            EventType::Text => TEXT_EVENT,
            EventType::Media => MEDIA_EVENT,
        }
    }

    /// The event written out: the name it is registered under.
    pub fn to_string(&self) -> (r: String)
        ensures
            r@ == event_name(self@),
    {
        string_from_chars(chars_of(self.to_str()))
    }

    /// The event registered under `value`.
    pub fn from_name(value: &String) -> (r: Self)
        ensures
            r@ == event_from_name(value@),
    {
        if str_eq(value.as_str(), TEXT_EVENT) {
            EventType::Text
        } else if str_eq(value.as_str(), MEDIA_EVENT) {
            EventType::Media
        } else {
            EventType::Command(string_from_chars(chars_of(value.as_str())))
        }
    }
}

/// Reading an event back from its name gives the name again, whatever the name.
pub proof fn lemma_name_round_trip(name: Seq<char>)
    ensures
        event_name(event_from_name(name)) == name,
{
}

/// Naming an event and reading it back gives the same event, except for a command whose
/// pattern is one of the two reserved names.
pub proof fn lemma_event_round_trip(e: EventTypeView)
    requires
        e is Command ==> event_name(e) != TEXT_EVENT@ && event_name(e) != MEDIA_EVENT@,
    ensures
        event_from_name(event_name(e)) == e,
{
    match e {
        EventTypeView::Media => {
            reveal_strlit("__TEXT__");
            reveal_strlit("__MEDIA__");
            assert(MEDIA_EVENT@ != TEXT_EVENT@) by {
                assert(MEDIA_EVENT@.len() != TEXT_EVENT@.len());
            }
        },
        _ => {},
    }
}

} // verus!
