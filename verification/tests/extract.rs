use pulldown_cmark::{Event, HeadingLevel, Tag, TagEnd};
use quote_digest::extract::{find_quote, quote_from_events, Quote};

fn text(t: &str) -> Event<'_> {
    Event::Text(t.into())
}

fn content_of(document: &str) -> Option<String> {
    find_quote(document, "doc.md".to_string()).map(|quote| quote.content)
}

#[test]
fn document_without_quote_section_yields_nothing() {
    assert_eq!(find_quote("# Intro\n\nhello\n", "intro.md".to_string()), None);
}

#[test]
fn empty_document_yields_nothing() {
    assert_eq!(find_quote("", "empty.md".to_string()), None);
}

#[test]
fn quote_between_heading_and_thanks() {
    let document = "# Quote of the Week\n\nAll is well.\n\nThanks to [bob](http://x) for it\n";
    let quote = find_quote(document, "week1.md".to_string()).unwrap();
    assert_eq!(quote.filename, "week1.md");
    assert!(quote.content.starts_with("<p>All is well.</p>\n"));
    assert!(!quote.content.contains("Quote of the Week"));
    assert!(!quote.content.contains("<h1>"));
    assert!(!quote.content.contains("Thanks to"));
    assert!(!quote.content.contains("bob"));
    // The paragraph that holds the stop marker was opened before the marker
    // came, so its opening is part of the section.
    assert_eq!(quote.content, "<p>All is well.</p>\n<p>");
}

#[test]
fn filename_is_handed_on_unchanged() {
    let quote = find_quote("# Quote of the Week\n\nx\n", "dir/sub dir/<week>.md".to_string());
    assert_eq!(
        quote,
        Some(Quote {
            content: "<p>x</p>\n".to_string(),
            filename: "dir/sub dir/<week>.md".to_string(),
        })
    );
}

#[test]
fn each_stop_marker_ends_the_quote() {
    assert_eq!(
        content_of("# Quote of the Week\n\none\n\nThanks to [a](b)\n\nafter\n"),
        Some("<p>one</p>\n<p>".to_string())
    );
    assert_eq!(
        content_of("# Quote of the Week\n\ntwo\n\nSubmit your quotes for next week\n\nafter\n"),
        Some("<p>two</p>\n<p>".to_string())
    );
    assert_eq!(
        content_of(
            "# Quote of the Week\n\nthree\n\nPlease submit quotes and vote for next week!\n\nafter\n"
        ),
        Some("<p>three</p>\n<p>".to_string())
    );
}

#[test]
fn stop_marker_right_after_the_heading_gives_no_visible_body() {
    assert_eq!(
        content_of("# Quote of the Week\n\nThanks to [bob](http://x) for it\n"),
        Some("<p>".to_string())
    );
    assert_eq!(
        content_of("# Quote of the Week\n\nSubmit your quotes for next week\n"),
        Some("<p>".to_string())
    );
    assert_eq!(
        content_of("# Quote of the Week\n\nPlease submit quotes and vote for next week!\n"),
        Some("<p>".to_string())
    );
}

#[test]
fn stop_marker_after_one_event_gives_empty_content() {
    assert_eq!(content_of("Quote of the Week<b>Thanks to </b>\n"), Some(String::new()));
    assert_eq!(content_of("Quote of the Week\\\nThanks to \\\nmore"), Some(String::new()));
}

#[test]
fn heading_alone_gives_empty_content() {
    assert_eq!(content_of("# Quote of the Week\n"), Some(String::new()));
    assert_eq!(content_of("Quote of the Week"), Some(String::new()));
}

#[test]
fn quote_without_stop_marker_runs_to_the_end() {
    assert_eq!(
        content_of("intro\n\n# Quote of the Week\n\nbody *here*\n\n- one\n- two\n"),
        Some("<p>body <em>here</em></p>\n<ul>\n<li>one</li>\n<li>two</li>\n</ul>\n".to_string())
    );
}

#[test]
fn text_before_the_heading_is_left_out() {
    assert_eq!(
        content_of("# News\n\nbefore\n\n## Quote of the Week\n\nafter\n"),
        Some("<p>after</p>\n".to_string())
    );
}

#[test]
fn stop_marker_before_the_heading_is_ignored() {
    assert_eq!(
        content_of(
            "Thanks to [a](b)\n\n# Quote of the Week\n\ntext\n\nPlease submit quotes and vote for next week!\n"
        ),
        Some("<p>text</p>\n<p>".to_string())
    );
}

#[test]
fn repeated_heading_is_left_out_and_does_not_stop_the_quote() {
    assert_eq!(
        content_of(
            "# Quote of the Week\n\n> one\n\nQuote of the Week\n\ntwo\n\nSubmit your quotes for next week\n\nafter\n"
        ),
        Some("<blockquote>\n<p>one</p>\n</blockquote>\n<p></p>\n<p>two</p>\n<p>".to_string())
    );
}

#[test]
fn marker_must_match_the_whole_text() {
    assert_eq!(content_of("# quote of the week\n\ntext\n"), None);
    assert_eq!(content_of("# The Quote of the Week\n\ntext\n"), None);
    assert_eq!(content_of("# Quote of the Week!\n\ntext\n"), None);
    assert_eq!(
        content_of("# Quote of the Week\n\ntext\n\nThanks to\n\nmore\n"),
        Some("<p>text</p>\n<p>Thanks to</p>\n<p>more</p>\n".to_string())
    );
}

#[test]
fn marker_in_code_is_no_marker() {
    assert_eq!(content_of("`Quote of the Week`\n\ntext\n"), None);
}

#[test]
fn first_captured_event_is_dropped_whatever_it_is() {
    assert_eq!(
        content_of("Quote of the Week&amp;Thanks to \n"),
        Some("Thanks to</p>\n".to_string())
    );
}

#[test]
fn content_is_escaped_by_the_renderer() {
    assert_eq!(
        content_of("# Quote of the Week\n\na < b & c\n"),
        Some("<p>a &lt; b &amp; c</p>\n".to_string())
    );
}

#[test]
fn extracting_twice_gives_the_same_content() {
    let document = "# Quote of the Week\n\n> *All* is `well`.\n\n[link](http://x)\n\nThanks to [a](b)\n";
    let first = find_quote(document, "a.md".to_string()).unwrap();
    let second = find_quote(document, "b.md".to_string()).unwrap();
    assert_eq!(first.content, second.content);
    assert_eq!(first.content.as_bytes(), second.content.as_bytes());
    assert_eq!(first.filename, "a.md");
    assert_eq!(second.filename, "b.md");
}

#[test]
fn events_without_start_marker_yield_nothing() {
    let events = vec![
        Event::Start(Tag::Paragraph),
        text("hello"),
        text("Thanks to "),
        Event::End(TagEnd::Paragraph),
    ];
    assert_eq!(quote_from_events(events, "a.md".to_string()), None);
    assert_eq!(quote_from_events(Vec::new(), "a.md".to_string()), None);
}

#[test]
fn events_between_the_markers_are_rendered_without_the_first() {
    let events = vec![
        Event::Start(Tag::Heading {
            level: HeadingLevel::H2,
            id: None,
            classes: Vec::new(),
            attrs: Vec::new(),
        }),
        text("Quote of the Week"),
        Event::End(TagEnd::Heading(HeadingLevel::H2)),
        Event::Start(Tag::Paragraph),
        text("All is "),
        Event::Start(Tag::Strong),
        text("well"),
        Event::End(TagEnd::Strong),
        Event::End(TagEnd::Paragraph),
        text("Submit your quotes for next week"),
        text("never rendered"),
    ];
    assert_eq!(
        quote_from_events(events, "week.md".to_string()),
        Some(Quote {
            content: "<p>All is <strong>well</strong></p>\n".to_string(),
            filename: "week.md".to_string(),
        })
    );
}

#[test]
fn stop_marker_event_right_after_start_marker_event_yields_nothing() {
    let events = vec![text("Quote of the Week"), text("Thanks to "), text("more")];
    assert_eq!(quote_from_events(events, "a.md".to_string()), None);
}

#[test]
fn start_marker_as_last_event_yields_nothing() {
    let events = vec![text("intro"), text("Quote of the Week")];
    assert_eq!(quote_from_events(events, "a.md".to_string()), None);
}

#[test]
fn one_captured_event_gives_empty_content() {
    let events = vec![text("Quote of the Week"), text("dropped"), text("Thanks to ")];
    assert_eq!(
        quote_from_events(events, "a.md".to_string()),
        Some(Quote { content: String::new(), filename: "a.md".to_string() })
    );
}

#[test]
fn only_plain_text_events_are_markers() {
    let events = vec![
        Event::Code("Quote of the Week".into()),
        text("a"),
        Event::Html("Quote of the Week".into()),
        text("b"),
    ];
    assert_eq!(quote_from_events(events, "a.md".to_string()), None);
    let events = vec![
        text("Quote of the Week"),
        Event::SoftBreak,
        Event::Code("Thanks to ".into()),
        Event::InlineHtml("Thanks to ".into()),
        text("c"),
    ];
    assert_eq!(
        quote_from_events(events, "a.md".to_string()).map(|quote| quote.content),
        Some("<code>Thanks to </code>Thanks to c".to_string())
    );
}

#[test]
fn repeated_start_marker_event_is_not_rendered() {
    let events = vec![
        text("Quote of the Week"),
        Event::Rule,
        text("a"),
        text("Quote of the Week"),
        text("b"),
    ];
    assert_eq!(
        quote_from_events(events, "a.md".to_string()).map(|quote| quote.content),
        Some("ab".to_string())
    );
}
