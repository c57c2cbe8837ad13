//! The literal texts that delimit a quote section.
//!
//! A text opens or closes a section only if it equals a marker exactly:
//! nothing is trimmed, letter case counts, and a marker inside a longer text
//! does not match.

use vstd::prelude::*;
use vstd::string::StringSliceAdditionalSpecFns;
use vstd::utf8::encode_utf8_decode_utf8;

verus! {

/// The heading text that opens a quote section.
pub const START_MARKER: &'static str = "Quote of the Week";

/// A text that closes a quote section: the credit line.
pub const STOP_THANKS: &'static str = "Thanks to ";

/// A text that closes a quote section: the call for submissions.
pub const STOP_SUBMIT: &'static str = "Submit your quotes for next week";

/// A text that closes a quote section: the call for submissions and votes.
pub const STOP_VOTE: &'static str = "Please submit quotes and vote for next week!";

/// `text` is the start marker.
pub open spec fn is_start_text(text: Seq<char>) -> bool {
    text == START_MARKER@
}

/// `text` is one of the three stop markers.
pub open spec fn is_stop_text(text: Seq<char>) -> bool {
    ||| text == STOP_THANKS@
    ||| text == STOP_SUBMIT@
    ||| text == STOP_VOTE@
}

/// Whether two string slices hold the same characters, found by comparing
/// their UTF-8 bytes one by one.
fn same_text(a: &str, b: &str) -> (same: bool)
    ensures
        same == (a@ == b@),
{
    let left = a.as_bytes();
    let right = b.as_bytes();
    if left.len() != right.len() {
        return false;
    }
    let mut i: usize = 0;
    while i < left.len()
        invariant
            i <= left.len(),
            left.len() == right.len(),
            left@ == a.spec_bytes(),
            right@ == b.spec_bytes(),
            forall|j: int| 0 <= j < i ==> left@[j] == right@[j],
        decreases left.len() - i,
    {
        if left[i] != right[i] {
            return false;
        }
        i += 1;
    }
    proof {
        // Equal encodings decode to equal texts.
        assert(left@ =~= right@);
        encode_utf8_decode_utf8(a@);
        encode_utf8_decode_utf8(b@);
    }
    true
}

/// Whether `text` is exactly the start marker.
pub fn is_start_marker(text: &str) -> (yes: bool)
    ensures
        yes == is_start_text(text@),
{
    same_text(text, START_MARKER)
}

/// Whether `text` is exactly one of the stop markers.
pub fn is_stop_marker(text: &str) -> (yes: bool)
    ensures
        yes == is_stop_text(text@),
{
    same_text(text, STOP_THANKS) || same_text(text, STOP_SUBMIT) || same_text(text, STOP_VOTE)
}

/// No text is both the start marker and a stop marker: the four literals
/// differ in length.
pub proof fn lemma_start_is_no_stop(text: Seq<char>)
    ensures
        !(is_start_text(text) && is_stop_text(text)),
{
    reveal_strlit("Quote of the Week");
    reveal_strlit("Thanks to ");
    reveal_strlit("Submit your quotes for next week");
    reveal_strlit("Please submit quotes and vote for next week!");
    assert(START_MARKER@.len() == 17);
    assert(STOP_THANKS@.len() == 10);
    assert(STOP_SUBMIT@.len() == 32);
    assert(STOP_VOTE@.len() == 44);
}

} // verus!
