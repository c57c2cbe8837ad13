//! Which files count as markdown documents.

use vstd::prelude::*;
use vstd::string::StrSliceExecFns;

verus! {

/// The short file name ending of markdown documents.
pub const MARKDOWN_SUFFIX_SHORT: &'static str = ".md";

/// The long file name ending of markdown documents.
pub const MARKDOWN_SUFFIX_LONG: &'static str = ".markdown";

/// `text` ends with `suffix`.
pub open spec fn has_suffix(text: Seq<char>, suffix: Seq<char>) -> bool {
    suffix.len() <= text.len() && text.subrange(text.len() - suffix.len(), text.len() as int)
        == suffix
}

/// A file name is that of a markdown document if it ends in `.md` or in
/// `.markdown`, letter case counting.
pub open spec fn names_markdown(name: Seq<char>) -> bool {
    has_suffix(name, MARKDOWN_SUFFIX_SHORT@) || has_suffix(name, MARKDOWN_SUFFIX_LONG@)
}

/// Whether `text` ends with `suffix`, found by comparing the last characters
/// of `text` with those of `suffix` one by one.
fn ends_with(text: &str, suffix: &str) -> (yes: bool)
    ensures
        yes == has_suffix(text@, suffix@),
{
    let length = text.unicode_len();
    let wanted = suffix.unicode_len();
    if wanted > length {
        return false;
    }
    let offset = length - wanted;
    let ghost tail = text@.subrange(offset as int, length as int);
    let mut k: usize = 0;
    while k < wanted
        invariant
            k <= wanted,
            length == text@.len(),
            wanted == suffix@.len(),
            offset == length - wanted,
            tail == text@.subrange(offset as int, length as int),
            forall|j: int| 0 <= j < k ==> tail[j] == suffix@[j],
        decreases wanted - k,
    {
        if text.get_char(offset + k) != suffix.get_char(k) {
            return false;
        }
        k += 1;
    }
    assert(tail =~= suffix@);
    true
}

/// Whether a file of this name is read as a markdown document.
pub fn is_markdown_name(name: &str) -> (yes: bool)
    ensures
        yes == names_markdown(name@),
{
    ends_with(name, MARKDOWN_SUFFIX_SHORT) || ends_with(name, MARKDOWN_SUFFIX_LONG)
}

} // verus!
