//! Extraction of the quote section of one document.
//!
//! The document is parsed into structural events, the scan picks the events
//! of the section, the first of them (what is left of the section's own
//! heading) is dropped, and the rest is rendered as HTML.
//!
//! The picked events are rendered as they are. Nothing checks that the
//! section is a closed fragment: where it ends inside a construct, such as
//! the paragraph that holds the stop marker, the opening of that construct
//! is rendered without its end.

use vstd::prelude::*;
use pulldown_cmark::Event;
use crate::markdown::{event_text, html_of, parse_events, parsed_events, render_html, text_of};
use crate::scan::{
    as_ints, capture_positions, captured_positions, closes_section, lemma_captured_positions,
    lemma_no_opening, lemma_whole_section, opens_section, positions_from,
};

verus! {

/// The quote section of one document, rendered as HTML.
#[derive(Debug, PartialEq, Eq)]
pub struct Quote {
    /// The section's body as HTML, without the section's heading.
    pub content: String,
    /// The name of the document the section was found in.
    pub filename: String,
}

/// The mathematical value of a `Quote`.
pub struct QuoteView {
    pub content: Seq<char>,
    pub filename: Seq<char>,
}

impl View for Quote {
    type V = QuoteView;

    open spec fn view(&self) -> QuoteView {
        QuoteView { content: self.content@, filename: self.filename@ }
    }
}

impl DeepView for Quote {
    type V = QuoteView;

    open spec fn deep_view(&self) -> QuoteView {
        self@
    }
}

/// What the scan reads of a document: the text of each event, in order.
pub open spec fn texts_of(events: Seq<Event>) -> Seq<Option<Seq<char>>> {
    events.map_values(|event: Event| text_of(event))
}

/// The events at the given positions, in the order of the positions.
pub open spec fn events_at(events: Seq<Event>, positions: Seq<int>) -> Seq<Event> {
    positions.map_values(|p: int| events[p])
}

/// The events that are rendered: the captured ones but the first.
pub open spec fn body_events(events: Seq<Event>) -> Seq<Event> {
    events_at(events, captured_positions(texts_of(events)).drop_first())
}

/// The quote found in a sequence of events: none if the scan captures
/// nothing, else the rendered body under the given name.
pub open spec fn quote_in(events: Seq<Event>, filename: Seq<char>) -> Option<QuoteView> {
    if captured_positions(texts_of(events)).len() == 0 {
        None
    } else {
        Some(QuoteView { content: html_of(body_events(events)), filename })
    }
}

/// What the scan reads of a document of the given markdown text.
pub open spec fn document_texts(contents: Seq<char>) -> Seq<Option<Seq<char>>> {
    texts_of(parsed_events(contents))
}

/// The quote found in a document of the given markdown text.
pub open spec fn extraction(contents: Seq<char>, filename: Seq<char>) -> Option<QuoteView> {
    quote_in(parsed_events(contents), filename)
}

/// Reads the text of every event.
fn texts_of_events<'e>(events: &'e Vec<Event<'_>>) -> (texts: Vec<Option<&'e str>>)
    ensures
        texts.deep_view() == texts_of(events@),
{
    let mut texts: Vec<Option<&'e str>> = Vec::new();
    let mut i: usize = 0;
    while i < events.len()
        invariant
            i <= events.len(),
            texts.len() == i,
            forall|j: int| 0 <= j < i ==> (#[trigger] texts@[j]).deep_view() == text_of(events@[j]),
        decreases events.len() - i,
    {
        let text = event_text(&events[i]);
        texts.push(text);
        i += 1;
    }
    texts
}

/// Moves the events at `positions[from..]` out of `events`, keeping their
/// order.
fn pick_events<'a>(
    events: Vec<Event<'a>>,
    positions: &Vec<usize>,
    from: usize,
) -> (chosen: Vec<Event<'a>>)
    requires
        from <= positions.len(),
        forall|k: int| 0 <= k < positions.len() ==> positions[k] < events.len(),
        forall|k: int, l: int| 0 <= k < l < positions.len() ==> positions[k] < positions[l],
    ensures
        chosen@ == events_at(events@, as_ints(positions@).skip(from as int)),
{
    let ghost all = events@;
    let ghost wanted = as_ints(positions@);
    let count = events.len();
    let mut chosen: Vec<Event<'a>> = Vec::new();
    let mut next: usize = from;
    let mut at: usize = 0;
    for event in it: events
        invariant
            at == it.index(),
            it.seq() == all,
            all.len() == count,
            wanted == as_ints(positions@),
            from <= next <= positions.len(),
            forall|k: int| 0 <= k < positions.len() ==> positions[k] < all.len(),
            forall|k: int, l: int| 0 <= k < l < positions.len() ==> positions[k] < positions[l],
            forall|k: int| next <= k < positions.len() ==> positions[k] >= at,
            chosen@ == events_at(all, wanted.subrange(from as int, next as int)),
    {
        if next < positions.len() && positions[next] == at {
            chosen.push(event);
            next += 1;
        }
        at += 1;
    }
    assert(next == positions.len()) by {
        if next < positions.len() {
            assert(positions[next as int] >= at);
        }
    }
    chosen
}

/// Finds the quote section in a document's events and renders it.
///
/// Returns `None` where the scan captures nothing: the document has no start
/// marker, or nothing lies between the start marker and the end of the
/// section. Otherwise the first captured event is dropped and the rest is
/// rendered; where no event is left, the content is the empty string.
pub fn quote_from_events(events: Vec<Event<'_>>, filename: String) -> (quote: Option<Quote>)
    ensures
        quote.deep_view() == quote_in(events@, filename@),
        quote matches Some(q) ==> (body_events(events@).len() == 0 ==> q.content@.len() == 0),
{
    let texts = texts_of_events(&events);
    let positions = capture_positions(texts.as_slice());
    if positions.len() == 0 {
        return None;
    }
    proof {
        lemma_captured_positions(texts_of(events@));
        assert forall|k: int| 0 <= k < positions.len() implies positions[k] < events.len() by {
            assert(as_ints(positions@)[k] == positions[k]);
        }
        assert forall|k: int, l: int| 0 <= k < l < positions.len() implies positions[k]
            < positions[l] by {
            assert(as_ints(positions@)[k] == positions[k]);
            assert(as_ints(positions@)[l] == positions[l]);
        }
    }
    let body = pick_events(events, &positions, 1);
    let content = render_html(body);
    Some(Quote { content, filename })
}

/// Extracts the quote section of a markdown document.
///
/// `contents` is the document's markdown text and `filename` the name under
/// which the quote is listed; it is handed on unchanged.
pub fn find_quote(contents: &str, filename: String) -> (quote: Option<Quote>)
    ensures
        quote.deep_view() == extraction(contents@, filename@),
        quote matches Some(q) ==> (body_events(parsed_events(contents@)).len() == 0
            ==> q.content@.len() == 0),
{
    let events = parse_events(contents);
    quote_from_events(events, filename)
}

/// A document none of whose events is the start marker yields no quote.
pub proof fn lemma_no_marker_no_quote(contents: Seq<char>, filename: Seq<char>)
    requires
        forall|j: int|
            0 <= j < document_texts(contents).len() ==> !opens_section(
                #[trigger] document_texts(contents)[j],
            ),
    ensures
        extraction(contents, filename) is None,
{
    lemma_no_opening(document_texts(contents));
}

/// A document in which the first start marker, at `start`, is followed by a
/// stop marker, at `stop`, with no text between the two but with at least
/// one event, what is left of the heading: it yields a quote. The events
/// rendered are those after the heading's remainder and before the stop
/// marker, none of which is a text; where the stop marker follows the
/// heading's remainder at once, no event at all is rendered.
pub proof fn lemma_empty_section(
    contents: Seq<char>,
    filename: Seq<char>,
    start: int,
    stop: int,
)
    requires
        0 <= start,
        start + 1 < stop < document_texts(contents).len(),
        opens_section(document_texts(contents)[start]),
        forall|j: int| 0 <= j < start ==> !opens_section(#[trigger] document_texts(contents)[j]),
        closes_section(document_texts(contents)[stop]),
        forall|j: int| start < j < stop ==> (#[trigger] document_texts(contents)[j]) is None,
    ensures
        body_events(parsed_events(contents)) == parsed_events(contents).subrange(start + 2, stop),
        extraction(contents, filename) == Some(
            QuoteView {
                content: html_of(parsed_events(contents).subrange(start + 2, stop)),
                filename,
            },
        ),
        stop == start + 2 ==> extraction(contents, filename) == Some(
            QuoteView { content: html_of(Seq::empty()), filename },
        ),
{
    let events = parsed_events(contents);
    lemma_whole_section(texts_of(events), start, stop);
    if stop == start + 2 {
        assert(events.subrange(start + 2, stop) =~= Seq::empty());
    }
}

/// A document with one start marker, at `start`, and no stop marker after
/// it: everything after the marker, through the end of the document, is
/// captured, and all of it but its first event is rendered.
pub proof fn lemma_unclosed_section(contents: Seq<char>, filename: Seq<char>, start: int)
    requires
        0 <= start < document_texts(contents).len(),
        opens_section(document_texts(contents)[start]),
        forall|j: int|
            0 <= j < document_texts(contents).len() && j != start ==> !opens_section(
                #[trigger] document_texts(contents)[j],
            ),
        forall|j: int|
            start < j < document_texts(contents).len() ==> !closes_section(
                #[trigger] document_texts(contents)[j],
            ),
    ensures
        captured_positions(document_texts(contents)) == positions_from(
            start + 1,
            document_texts(contents).len() as int,
        ),
        extraction(contents, filename) == if start + 1 == parsed_events(contents).len() {
            None
        } else {
            Some(
                QuoteView {
                    content: html_of(
                        parsed_events(contents).subrange(
                            start + 2,
                            parsed_events(contents).len() as int,
                        ),
                    ),
                    filename,
                },
            )
        },
{
    let events = parsed_events(contents);
    lemma_whole_section(texts_of(events), start, events.len() as int);
    if start + 1 < events.len() {
        assert(body_events(events) =~= events.subrange(start + 2, events.len() as int));
    }
}

/// Two extractions from the same text, under whatever names, agree: both
/// find a quote or neither does, and the two contents are the same.
pub proof fn lemma_extraction_repeats(
    contents: Seq<char>,
    first_name: Seq<char>,
    second_name: Seq<char>,
    first: Option<Quote>,
    second: Option<Quote>,
)
    requires
        first.deep_view() == extraction(contents, first_name),
        second.deep_view() == extraction(contents, second_name),
    ensures
        first is Some <==> second is Some,
        first is Some ==> first.unwrap().content@ == second.unwrap().content@,
{
}

} // verus!
