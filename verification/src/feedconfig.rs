use vstd::prelude::*;

verus! {

/// The settings of one feed: where it is fetched from, and which of its
/// fields are left out of, or rewritten before, the content hashes.
#[derive(Debug, Clone)]
pub struct FeedConfig {
    /// The address the feed is fetched from.
    pub url: String,
    /// Leave the publication date of an item out of its hash.
    pub should_omit_date_field_from_hash: bool,
    /// Rewrite the legacy tag-URI ids of Atom entries into URLs.
    pub is_golang_blog_mode: bool,
}

/// The mathematical value of a [`FeedConfig`].
pub struct FeedConfigView {
    pub url: Seq<char>,
    pub should_omit_date_field_from_hash: bool,
    pub is_golang_blog_mode: bool,
}

impl View for FeedConfig {
    type V = FeedConfigView;

    open spec fn view(&self) -> FeedConfigView {
        FeedConfigView {
            url: self.url@,
            should_omit_date_field_from_hash: self.should_omit_date_field_from_hash,
            is_golang_blog_mode: self.is_golang_blog_mode,
        }
    }
}

impl FeedConfig {
    /// The settings of the feed at `url`, with nothing left out of the
    /// hashes and no rewriting.
    pub fn new(url: &str) -> (config: Self)
        ensures
            config@ == (FeedConfigView {
                url: url@,
                should_omit_date_field_from_hash: false,
                is_golang_blog_mode: false,
            }),
    {
        FeedConfig {
            url: url.to_owned(),
            should_omit_date_field_from_hash: false,
            is_golang_blog_mode: false,
        }
    }

    pub fn get_url(&self) -> (url: &str)
        ensures
            url@ == self@.url,
    {
        self.url.as_str()
    }

    /// A copy of these settings.
    pub fn duplicate(&self) -> (copy: Self)
        ensures
            copy@ == self@,
    {
        FeedConfig {
            url: self.url.clone(),
            should_omit_date_field_from_hash: self.should_omit_date_field_from_hash,
            is_golang_blog_mode: self.is_golang_blog_mode,
        }
    }
}

} // verus!
