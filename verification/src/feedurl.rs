use vstd::prelude::*;

verus! {

/// The address of a feed with the switches that say, dialect by dialect,
/// which fields its hashes leave out.
#[derive(Debug)]
pub struct FeedUrl {
    /// The address the feed is fetched from.
    pub url: String,
    pub should_omit_summary_from_atom_hash: bool,
    pub should_omit_content_from_atom_hash: bool,
    pub should_omit_updated_from_atom_hash: bool,
    pub should_omit_pub_date_from_rss_hash: bool,
    pub is_golang_blog_mode: bool,
}

impl FeedUrl {
    /// The switches of the feed at `url` as they stand by default: summary
    /// and content are left out, dates are not, ids are not rewritten.
    pub fn new(url: &str) -> (feed_url: Self)
        ensures
            feed_url.url@ == url@,
            feed_url.should_omit_summary_from_atom_hash,
            feed_url.should_omit_content_from_atom_hash,
            !feed_url.should_omit_updated_from_atom_hash,
            !feed_url.should_omit_pub_date_from_rss_hash,
            !feed_url.is_golang_blog_mode,
    {
        FeedUrl {
            url: url.to_owned(),
            should_omit_summary_from_atom_hash: true,
            should_omit_content_from_atom_hash: true,
            should_omit_updated_from_atom_hash: false,
            should_omit_pub_date_from_rss_hash: false,
            is_golang_blog_mode: false,
        }
    }

    pub fn get_url(&self) -> (url: &str)
        ensures
            url@ == self.url@,
    {
        self.url.as_str()
    }
}

} // verus!
