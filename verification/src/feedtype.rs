use vstd::prelude::*;

verus! {

/// The dialect of a feed document.
#[derive(Debug, Clone, Copy, PartialEq, Eq, Structural)]
pub enum FeedType {
    Rss,
    Atom,
    Unknown,
}

/// Whether `needle` stands somewhere in `text`, character for character.
pub open spec fn occurs_in(needle: Seq<char>, text: Seq<char>) -> bool {
    exists|i: int|
        0 <= i && i + needle.len() <= text.len() && #[trigger] text.subrange(
            i,
            i + needle.len(),
        ) == needle
}

/// The dialect that a document's text points to: RSS where it closes an
/// `rss` element, else Atom where it closes a `feed` element.
pub open spec fn sniff(xml: Seq<char>) -> FeedType {
    if occurs_in("</rss>"@, xml) {
        FeedType::Rss
    } else if occurs_in("</feed>"@, xml) {
        FeedType::Atom
    } else {
        FeedType::Unknown
    }
}

/// Calls `str::contains` with a string pattern.
///
/// Trusted: the answer is whether the pattern stands somewhere in the text.
#[verifier::external_body]
fn contains_text(text: &str, pattern: &str) -> (found: bool)
    ensures
        found == occurs_in(pattern@, text@),
{
    text.contains(pattern)
}

impl FeedType {
    /// Tells the dialect of a document by the closing tag of its root.
    pub fn new(xml: &str) -> (dialect: Self)
        ensures
            dialect == sniff(xml@),
    {
        if contains_text(xml, "</rss>") {
            FeedType::Rss
        } else if contains_text(xml, "</feed>") {
            FeedType::Atom
        } else {
            FeedType::Unknown
        }
    }
}

} // verus!
