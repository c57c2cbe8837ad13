//! The scan that finds the quote section among a document's events.
//!
//! The scan reads one thing of each event: its text, if it is a plain-text
//! event. A document is therefore modelled as a sequence of optional texts,
//! one per event, `None` standing for every event that is not plain text.
//!
//! The section opens at the first start marker and closes at the first stop
//! marker after it, or at the end of the document. The scan captures the
//! positions strictly between the two, leaving out any further start marker.

use vstd::prelude::*;
use crate::markers::{
    is_start_marker, is_start_text, is_stop_marker, is_stop_text, lemma_start_is_no_stop,
};

verus! {

/// What the scan does with one event.
#[derive(Clone, Copy, Debug, PartialEq, Eq, Structural)]
pub enum Action {
    /// The event is the start marker: the section is open from here on.
    Enter,
    /// The event is a stop marker inside the section: the scan ends.
    Stop,
    /// The event lies inside the section: it is captured.
    Capture,
    /// The event lies before the section: it is dropped.
    Skip,
}

/// The text is the start marker.
pub open spec fn opens_section(text: Option<Seq<char>>) -> bool {
    text matches Some(t) && is_start_text(t)
}

/// The text is a stop marker.
pub open spec fn closes_section(text: Option<Seq<char>>) -> bool {
    text matches Some(t) && is_stop_text(t)
}

/// The transition of the scan: what to do with an event of the given text,
/// knowing whether the section is already open.
pub open spec fn action_for(inside: bool, text: Option<Seq<char>>) -> Action {
    if opens_section(text) {
        Action::Enter
    } else if !inside {
        Action::Skip
    } else if closes_section(text) {
        Action::Stop
    } else {
        Action::Capture
    }
}

/// The index of the first text at or after `from` that opens a section, or
/// the number of texts if there is none.
pub open spec fn next_opening(texts: Seq<Option<Seq<char>>>, from: int) -> int
    decreases texts.len() - from,
{
    if from >= texts.len() {
        texts.len() as int
    } else if opens_section(texts[from]) {
        from
    } else {
        next_opening(texts, from + 1)
    }
}

/// The index of the first text at or after `from` that closes a section, or
/// the number of texts if there is none.
pub open spec fn next_closing(texts: Seq<Option<Seq<char>>>, from: int) -> int
    decreases texts.len() - from,
{
    if from >= texts.len() {
        texts.len() as int
    } else if closes_section(texts[from]) {
        from
    } else {
        next_closing(texts, from + 1)
    }
}

/// Where the section opens: the index of the first start marker, or the
/// number of texts if the document has none.
pub open spec fn section_start(texts: Seq<Option<Seq<char>>>) -> int {
    next_opening(texts, 0)
}

/// Where the section closes: the index of the first stop marker after the
/// start marker, or the number of texts if none follows it.
pub open spec fn section_end(texts: Seq<Option<Seq<char>>>) -> int {
    next_closing(texts, section_start(texts) + 1)
}

/// The positions from `lo` up to, not including, `hi` whose text is not the
/// start marker, in increasing order.
pub open spec fn kept_between(texts: Seq<Option<Seq<char>>>, lo: int, hi: int) -> Seq<int>
    decreases hi - lo,
{
    if hi <= lo {
        Seq::empty()
    } else if opens_section(texts[hi - 1]) {
        kept_between(texts, lo, hi - 1)
    } else {
        kept_between(texts, lo, hi - 1).push(hi - 1)
    }
}

/// The positions that the scan captures: those strictly between the start of
/// the section and its end, but for repeated start markers.
pub open spec fn captured_positions(texts: Seq<Option<Seq<char>>>) -> Seq<int> {
    kept_between(texts, section_start(texts) + 1, section_end(texts))
}

/// The consecutive positions from `lo` up to, not including, `hi`.
pub open spec fn positions_from(lo: int, hi: int) -> Seq<int> {
    Seq::new(
        if hi <= lo {
            0nat
        } else {
            (hi - lo) as nat
        },
        |k: int| lo + k,
    )
}

/// Positions as mathematical integers.
pub open spec fn as_ints(positions: Seq<usize>) -> Seq<int> {
    positions.map_values(|p: usize| p as int)
}

/// The transition of the scan for one event.
pub fn next_action(inside: bool, text: Option<&str>) -> (action: Action)
    ensures
        action == action_for(inside, text.deep_view()),
{
    match text {
        Some(t) => {
            if is_start_marker(t) {
                Action::Enter
            } else if !inside {
                Action::Skip
            } else if is_stop_marker(t) {
                Action::Stop
            } else {
                Action::Capture
            }
        },
        None => {
            if inside {
                Action::Capture
            } else {
                Action::Skip
            }
        },
    }
}

/// Runs the scan over the texts of a document's events, one entry per event,
/// and returns the positions of the captured events in document order.
pub fn capture_positions(texts: &[Option<&str>]) -> (positions: Vec<usize>)
    ensures
        as_ints(positions@) == captured_positions(texts.deep_view()),
{
    let ghost model = texts.deep_view();
    let mut positions: Vec<usize> = Vec::new();
    let mut inside = false;
    let mut i: usize = 0;
    loop
        invariant_except_break
            i <= texts.len(),
            model == texts.deep_view(),
            !inside ==> positions@.len() == 0 && forall|j: int|
                0 <= j < i ==> !opens_section(#[trigger] model[j]),
            inside ==> 0 <= section_start(model) < i && as_ints(positions@) == kept_between(
                model,
                section_start(model) + 1,
                i as int,
            ) && forall|j: int|
                section_start(model) < j < i ==> !closes_section(#[trigger] model[j]),
        ensures
            as_ints(positions@) == captured_positions(model),
        decreases texts.len() - i,
    {
        if i >= texts.len() {
            proof {
                if inside {
                    lemma_next_closing_is(model, section_start(model) + 1, i as int);
                } else {
                    lemma_next_opening_is(model, 0, i as int);
                }
            }
            break;
        }
        match next_action(inside, texts[i]) {
            Action::Enter => {
                proof {
                    if inside {
                        lemma_start_is_no_stop(model[i as int].unwrap());
                    } else {
                        lemma_next_opening_is(model, 0, i as int);
                    }
                }
                inside = true;
            },
            Action::Stop => {
                proof {
                    lemma_next_closing_is(model, section_start(model) + 1, i as int);
                }
                break;
            },
            Action::Capture => {
                positions.push(i);
            },
            Action::Skip => {},
        }
        i += 1;
    }
    positions
}

/// `next_opening` finds the least index at or after `from` that opens a
/// section.
pub proof fn lemma_next_opening(texts: Seq<Option<Seq<char>>>, from: int)
    requires
        0 <= from <= texts.len(),
    ensures
        from <= next_opening(texts, from) <= texts.len(),
        forall|j: int| from <= j < next_opening(texts, from) ==> !opens_section(#[trigger] texts[j]),
        next_opening(texts, from) < texts.len() ==> opens_section(
            texts[next_opening(texts, from)],
        ),
    decreases texts.len() - from,
{
    if from < texts.len() && !opens_section(texts[from]) {
        lemma_next_opening(texts, from + 1);
    }
}

/// An index `at` that opens a section, with none before it from `from` on, is
/// what `next_opening` finds; so is the number of texts where none opens one.
pub proof fn lemma_next_opening_is(texts: Seq<Option<Seq<char>>>, from: int, at: int)
    requires
        0 <= from <= at <= texts.len(),
        forall|j: int| from <= j < at ==> !opens_section(#[trigger] texts[j]),
        at < texts.len() ==> opens_section(texts[at]),
    ensures
        next_opening(texts, from) == at,
    decreases at - from,
{
    if from < at {
        lemma_next_opening_is(texts, from + 1, at);
    }
}

/// `next_closing` finds the least index at or after `from` that closes a
/// section.
pub proof fn lemma_next_closing(texts: Seq<Option<Seq<char>>>, from: int)
    requires
        0 <= from,
    ensures
        from <= texts.len() ==> from <= next_closing(texts, from),
        next_closing(texts, from) <= texts.len(),
        forall|j: int| from <= j < next_closing(texts, from) ==> !closes_section(#[trigger] texts[j]),
        next_closing(texts, from) < texts.len() ==> closes_section(
            texts[next_closing(texts, from)],
        ),
    decreases texts.len() - from,
{
    if from < texts.len() && !closes_section(texts[from]) {
        lemma_next_closing(texts, from + 1);
    }
}

/// An index `at` that closes a section, with none before it from `from` on,
/// is what `next_closing` finds; so is the number of texts where none closes
/// one.
pub proof fn lemma_next_closing_is(texts: Seq<Option<Seq<char>>>, from: int, at: int)
    requires
        0 <= from <= at <= texts.len(),
        forall|j: int| from <= j < at ==> !closes_section(#[trigger] texts[j]),
        at < texts.len() ==> closes_section(texts[at]),
    ensures
        next_closing(texts, from) == at,
    decreases at - from,
{
    if from < at {
        lemma_next_closing_is(texts, from + 1, at);
    }
}

/// `kept_between` holds exactly the positions from `lo` up to `hi` whose text
/// is not the start marker, each once and in increasing order.
pub proof fn lemma_kept_between(texts: Seq<Option<Seq<char>>>, lo: int, hi: int)
    ensures
        forall|k: int|
            0 <= k < kept_between(texts, lo, hi).len() ==> {
                let p = #[trigger] kept_between(texts, lo, hi)[k];
                lo <= p < hi && !opens_section(texts[p])
            },
        forall|k: int, l: int|
            0 <= k < l < kept_between(texts, lo, hi).len() ==> kept_between(texts, lo, hi)[k]
                < kept_between(texts, lo, hi)[l],
        forall|j: int|
            lo <= j < hi && !opens_section(texts[j]) ==> #[trigger] kept_between(
                texts,
                lo,
                hi,
            ).contains(j),
    decreases hi - lo,
{
    if hi > lo {
        lemma_kept_between(texts, lo, hi - 1);
        let shorter = kept_between(texts, lo, hi - 1);
        let kept = kept_between(texts, lo, hi);
        assert forall|j: int| lo <= j < hi && !opens_section(texts[j]) implies kept.contains(
            j,
        ) by {
            if j < hi - 1 {
                assert(shorter.contains(j));
                let k = choose|k: int| 0 <= k < shorter.len() && shorter[k] == j;
                assert(kept[k] == j);
            } else {
                assert(kept[kept.len() - 1] == j);
            }
        }
    }
}

/// Where no text from `lo` up to `hi` is the start marker, `kept_between`
/// keeps every position.
pub proof fn lemma_kept_all(texts: Seq<Option<Seq<char>>>, lo: int, hi: int)
    requires
        forall|j: int| lo <= j < hi ==> !opens_section(#[trigger] texts[j]),
    ensures
        kept_between(texts, lo, hi) == positions_from(lo, hi),
    decreases hi - lo,
{
    if hi > lo {
        lemma_kept_all(texts, lo, hi - 1);
    } else {
    }
}

/// The captured positions are exactly those strictly between the start of
/// the section and its end whose text is not the start marker, each once and
/// in increasing order; and the section lies within the document.
pub proof fn lemma_captured_positions(texts: Seq<Option<Seq<char>>>)
    ensures
        0 <= section_start(texts) <= texts.len(),
        section_end(texts) <= texts.len(),
        section_start(texts) < texts.len() ==> section_start(texts) < section_end(texts),
        forall|k: int|
            0 <= k < captured_positions(texts).len() ==> {
                let p = #[trigger] captured_positions(texts)[k];
                section_start(texts) < p < section_end(texts) && !opens_section(texts[p])
            },
        forall|k: int, l: int|
            0 <= k < l < captured_positions(texts).len() ==> captured_positions(texts)[k]
                < captured_positions(texts)[l],
        forall|j: int|
            section_start(texts) < j < section_end(texts) && !opens_section(texts[j])
                ==> #[trigger] captured_positions(texts).contains(j),
{
    lemma_next_opening(texts, 0);
    lemma_next_closing(texts, section_start(texts) + 1);
    lemma_kept_between(texts, section_start(texts) + 1, section_end(texts));
}

/// A document without a start marker: the scan captures nothing.
pub proof fn lemma_no_opening(texts: Seq<Option<Seq<char>>>)
    requires
        forall|j: int| 0 <= j < texts.len() ==> !opens_section(#[trigger] texts[j]),
    ensures
        section_start(texts) == texts.len(),
        captured_positions(texts) == Seq::<int>::empty(),
{
    lemma_next_opening_is(texts, 0, texts.len() as int);
}

/// A section that opens at `start`, the first start marker, ends at `stop`,
/// the first stop marker after it or the end of the document, and holds no
/// further start marker: the scan captures every position strictly between
/// the two.
pub proof fn lemma_whole_section(texts: Seq<Option<Seq<char>>>, start: int, stop: int)
    requires
        0 <= start < stop <= texts.len(),
        opens_section(texts[start]),
        forall|j: int| 0 <= j < stop && j != start ==> !opens_section(#[trigger] texts[j]),
        forall|j: int| start < j < stop ==> !closes_section(#[trigger] texts[j]),
        stop < texts.len() ==> closes_section(texts[stop]),
    ensures
        section_start(texts) == start,
        section_end(texts) == stop,
        captured_positions(texts) == positions_from(start + 1, stop),
{
    lemma_next_opening_is(texts, 0, start);
    lemma_next_closing_is(texts, start + 1, stop);
    lemma_kept_all(texts, start + 1, stop);
}

} // verus!
