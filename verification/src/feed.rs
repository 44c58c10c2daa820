use crate::atom;
use crate::atom::Atom;
use crate::error::DecodeError;
use crate::feedconfig::FeedConfig;
use crate::feedtype::FeedType;
use crate::gate::FeedRecord;
use crate::gate::FeedRecordView;
use crate::rss;
use crate::rss::Rss;
use crate::xml::document_tokens;
use vstd::prelude::*;

verus! {

/// A decoded feed of either dialect.
#[derive(Debug)]
pub enum Feed {
    Rss(Rss),
    Atom(Atom),
}

/// Whether the answer of [`decode`] is the one owed for a document of the
/// given dialect: the feed that the dialect's decoder reads from it, the
/// decoder's error, or `UnsupportedDialect` where the dialect is unknown.
pub open spec fn decoded(
    r: Result<Feed, DecodeError>,
    xml: Seq<char>,
    dialect: FeedType,
    config: FeedConfig,
) -> bool {
    match dialect {
        FeedType::Rss => match r {
            Ok(Feed::Rss(feed)) => rss::decode(
                document_tokens(xml),
                config.should_omit_date_field_from_hash,
            ) == Ok::<rss::RssView, DecodeError>(feed@),
            Ok(Feed::Atom(_)) => false,
            Err(e) => rss::decode(document_tokens(xml), config.should_omit_date_field_from_hash)
                == Err::<rss::RssView, DecodeError>(e),
        },
        FeedType::Atom => match r {
            Ok(Feed::Atom(feed)) => atom::decode(document_tokens(xml), atom::policy_of(config))
                == Ok::<atom::AtomView, DecodeError>(feed@),
            Ok(Feed::Rss(_)) => false,
            Err(e) => atom::decode(document_tokens(xml), atom::policy_of(config)) == Err::<
                atom::AtomView,
                DecodeError,
            >(e),
        },
        FeedType::Unknown => r == Err::<Feed, DecodeError>(DecodeError::UnsupportedDialect),
    }
}

/// Decodes a document of the given dialect.
pub fn decode(xml: &str, dialect: FeedType, feed_config: &FeedConfig) -> (r: Result<
    Feed,
    DecodeError,
>)
    ensures
        decoded(r, xml@, dialect, *feed_config),
{
    match dialect {
        FeedType::Rss => match Rss::new(xml, feed_config) {
            Ok(feed) => Ok(Feed::Rss(feed)),
            Err(e) => Err(e),
        },
        FeedType::Atom => match Atom::new(xml, feed_config) {
            Ok(feed) => Ok(Feed::Atom(feed)),
            Err(e) => Err(e),
        },
        FeedType::Unknown => Err(DecodeError::UnsupportedDialect),
    }
}

impl Feed {
    /// What the notification gate is given of the feed.
    pub open spec fn spec_record(&self) -> FeedRecordView {
        match self {
            Feed::Rss(feed) => rss::feed_record(feed@),
            Feed::Atom(feed) => atom::feed_record(feed@),
        }
    }

    /// The feed as the notification gate takes it.
    pub fn record(&self) -> (record: FeedRecord)
        ensures
            record@ == self.spec_record(),
    {
        match self {
            Feed::Rss(feed) => feed.record(),
            Feed::Atom(feed) => feed.record(),
        }
    }
}

} // verus!
