//! The digest: every quote found, in the order of the documents, as one HTML
//! document.

use vstd::prelude::*;
use vstd::string::StringExecFns;
use crate::extract::{extraction, find_quote, Quote, QuoteView};

verus! {

/// The first line of the digest.
pub const DIGEST_TITLE: &'static str = "<h1>Quotes of all the Weeks</h1>\n";

/// The HTML of one entry: a heading with the document's name, then the
/// quote's content as it is, then a line break.
pub open spec fn entry_html(quote: QuoteView) -> Seq<char> {
    "<h2>"@ + quote.filename + "</h2>\n"@ + quote.content + "\n"@
}

/// The HTML of the entries, one after the other in the order given.
pub open spec fn entries_html(quotes: Seq<QuoteView>) -> Seq<char>
    decreases quotes.len(),
{
    if quotes.len() == 0 {
        Seq::empty()
    } else {
        entries_html(quotes.drop_last()) + entry_html(quotes.last())
    }
}

/// The HTML of the whole digest: the title, then the entries.
pub open spec fn digest_html(quotes: Seq<QuoteView>) -> Seq<char> {
    DIGEST_TITLE@ + entries_html(quotes)
}

/// The quotes collected from documents, each a pair of a name and a markdown
/// text, in the order of the documents; a document without a quote adds
/// nothing.
pub open spec fn collected(documents: Seq<(Seq<char>, Seq<char>)>) -> Seq<QuoteView>
    decreases documents.len(),
{
    if documents.len() == 0 {
        Seq::empty()
    } else {
        let earlier = collected(documents.drop_last());
        match extraction(documents.last().1, documents.last().0) {
            Some(quote) => earlier.push(quote),
            None => earlier,
        }
    }
}

/// Extracts the quote of one more document and, if there is one, puts it
/// after the quotes collected so far. Returns whether a quote was found.
pub fn add_document(quotes: &mut Vec<Quote>, contents: &str, filename: String) -> (found: bool)
    ensures
        found == extraction(contents@, filename@).is_some(),
        final(quotes).deep_view() == match extraction(contents@, filename@) {
            Some(quote) => old(quotes).deep_view().push(quote),
            None => old(quotes).deep_view(),
        },
{
    match find_quote(contents, filename) {
        Some(quote) => {
            quotes.push(quote);
            true
        },
        None => {
            false
        },
    }
}

/// Writes the digest of the quotes: the title line, then one entry for each
/// quote in the order given. Nothing is sorted, merged or escaped.
pub fn assemble(quotes: &[Quote]) -> (digest: String)
    ensures
        digest@ == digest_html(quotes.deep_view()),
{
    let ghost views = quotes.deep_view();
    let mut digest = String::new();
    digest.append(DIGEST_TITLE);
    let mut i: usize = 0;
    while i < quotes.len()
        invariant
            i <= quotes.len(),
            views == quotes.deep_view(),
            digest@ == digest_html(views.take(i as int)),
        decreases quotes.len() - i,
    {
        let quote = &quotes[i];
        digest.append("<h2>");
        digest.append(quote.filename.as_str());
        digest.append("</h2>\n");
        digest.append(quote.content.as_str());
        digest.append("\n");
        assert(views.take(i + 1).drop_last() =~= views.take(i as int));
        i += 1;
    }
    assert(views.take(i as int) =~= views);
    digest
}

/// The entries of two runs of quotes, one after the other, are the entries
/// of the first run followed by those of the second.
pub proof fn lemma_entries_concat(first: Seq<QuoteView>, second: Seq<QuoteView>)
    ensures
        entries_html(first + second) == entries_html(first) + entries_html(second),
    decreases second.len(),
{
    if second.len() == 0 {
    } else {
        lemma_entries_concat(first, second.drop_last());
        assert((first + second).drop_last() =~= first + second.drop_last());
    }
}

/// Adding the documents one by one collects their quotes: what is collected
/// from the documents and one more is what `add_document` makes of what was
/// collected from the documents.
pub proof fn lemma_collected_step(
    documents: Seq<(Seq<char>, Seq<char>)>,
    filename: Seq<char>,
    contents: Seq<char>,
)
    ensures
        collected(documents.push((filename, contents))) == match extraction(contents, filename) {
            Some(quote) => collected(documents).push(quote),
            None => collected(documents),
        },
{
    assert(documents.push((filename, contents)).drop_last() =~= documents);
}

/// Documents read one after the other give their quotes one after the
/// other.
pub proof fn lemma_collected_concat(
    first: Seq<(Seq<char>, Seq<char>)>,
    second: Seq<(Seq<char>, Seq<char>)>,
)
    ensures
        collected(first + second) == collected(first) + collected(second),
    decreases second.len(),
{
    if second.len() == 0 {
    } else {
        lemma_collected_concat(first, second.drop_last());
        assert((first + second).drop_last() =~= first + second.drop_last());
    }
}

/// The digest lists the quotes in the order in which the documents were
/// read: the digest of documents read one after the other is the digest of
/// the earlier ones followed by the entries of the later ones.
pub proof fn lemma_digest_follows_documents(
    earlier: Seq<(Seq<char>, Seq<char>)>,
    later: Seq<(Seq<char>, Seq<char>)>,
)
    ensures
        digest_html(collected(earlier + later)) == digest_html(collected(earlier)) + entries_html(
            collected(later),
        ),
{
    lemma_collected_concat(earlier, later);
    lemma_entries_concat(collected(earlier), collected(later));
}

/// Two runs over the same documents, in the same order, give the same
/// digest.
pub proof fn lemma_digest_repeats(
    documents: Seq<(Seq<char>, Seq<char>)>,
    first: Vec<Quote>,
    second: Vec<Quote>,
    first_digest: String,
    second_digest: String,
)
    requires
        first.deep_view() == collected(documents),
        second.deep_view() == collected(documents),
        first_digest@ == digest_html(first.deep_view()),
        second_digest@ == digest_html(second.deep_view()),
    ensures
        first_digest@ == second_digest@,
{
}

} // verus!
