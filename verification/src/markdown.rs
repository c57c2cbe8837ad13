//! The boundary to the markdown engine: parsing a document into structural
//! events and rendering events as HTML are done by `pulldown_cmark`. Nothing
//! in this module is proved; each item says what it takes on trust.

use vstd::prelude::*;
use pulldown_cmark::Event;

verus! {

/// A structural event of a markdown document, as `pulldown_cmark` defines it.
/// Its contents are hidden from the verifier: events are carried from the
/// parser to the renderer, and read only through `event_text`.
#[verifier::external_type_specification]
#[verifier::external_body]
pub struct ExEvent<'a>(Event<'a>);

/// The events that `pulldown_cmark::Parser::new` yields, in document order,
/// for a document with the given text.
pub uninterp spec fn parsed_events(text: Seq<char>) -> Seq<Event<'static>>;

/// The literal text of an event if it is a plain-text event
/// (`pulldown_cmark::Event::Text`), `None` for every other event.
pub uninterp spec fn text_of(event: Event) -> Option<Seq<char>>;

/// The HTML that `pulldown_cmark::html::push_html` writes for a sequence of
/// events.
pub uninterp spec fn html_of(events: Seq<Event>) -> Seq<char>;

/// Runs `pulldown_cmark::Parser::new` over `text`, with no extension enabled,
/// and collects every event the parser yields. Trusted: the result is the
/// event sequence named `parsed_events`, a function of the text alone.
#[verifier::external_body]
pub(crate) fn parse_events<'a>(text: &'a str) -> (events: Vec<Event<'a>>)
    ensures
        events@ == parsed_events(text@),
{
    pulldown_cmark::Parser::new(text).collect()
}

/// Tells a plain-text event (`pulldown_cmark::Event::Text`) from the others
/// and hands out its text. Trusted: the result is `text_of` of the event.
#[verifier::external_body]
pub(crate) fn event_text<'e>(event: &'e Event<'_>) -> (text: Option<&'e str>)
    ensures
        text.deep_view() == text_of(*event),
{
    match event {
        Event::Text(text) => Some(&**text),
        _ => None,
    }
}

/// Renders events with `pulldown_cmark::html::push_html` into a fresh string.
/// Trusted: the result is `html_of` of the events, and the renderer writes
/// nothing when it is given no event.
#[verifier::external_body]
pub(crate) fn render_html(events: Vec<Event<'_>>) -> (html: String)
    ensures
        html@ == html_of(events@),
        events@.len() == 0 ==> html@.len() == 0,
{
    let mut html = String::new();
    pulldown_cmark::html::push_html(&mut html, events.into_iter());
    html
}

} // verus!
