use crate::digest::content_hash;
use crate::digest::decimal;
use crate::digest::lemma_decimal_injective;
use crate::digest::lemma_optional_text_record_injective;
use crate::digest::finish_hash;
use crate::digest::optional_text_record;
use crate::digest::text_of;
use crate::digest::text_record;
use crate::digest::write_optional_text;
use crate::digest::write_text;
use crate::error::DecodeError;
use crate::feedconfig::FeedConfig;
use crate::gate::FeedRecord;
use crate::gate::FeedRecordView;
use crate::gate::ItemRecord;
use crate::gate::ItemRecordView;
use crate::trigger::TriggerInfo;
use crate::trigger::TriggerInfoView;
use crate::xml::document_tokens;
use crate::xml::is_named;
use crate::xml::tokens_of;
use crate::xml::TokenStream;
use crate::xml::XmlEvent;
use crate::xml::XmlToken;
use std::collections::hash_map::DefaultHasher;
use std::rc::Rc;
use vstd::prelude::*;
use vstd::std_specs::hash::DefaultHasherAdditionalSpecFns;
use vstd::string::StringSliceAdditionalSpecFns;

verus! {

/// An RSS channel with its items, in the order of the document.
#[derive(Debug)]
pub struct Rss {
    title: String,
    link: String,
    description: String,
    item_list: Vec<RssItem>,
    feed_config: Rc<FeedConfig>,
}

/// One item of an RSS channel. A field that the document does not give is
/// `None`.
#[derive(Debug, Clone)]
pub struct RssItem {
    title: Option<String>,
    link: Option<String>,
    description: Option<String>,
    pub_date: Option<String>,
    feed_config: Rc<FeedConfig>,
}

/// The mathematical value of an [`RssItem`]: its four fields, and whether
/// its feed leaves the date out of the hash.
pub struct RssItemView {
    pub title: Option<Seq<char>>,
    pub link: Option<Seq<char>>,
    pub description: Option<Seq<char>>,
    pub pub_date: Option<Seq<char>>,
    pub omit_date: bool,
}

/// The mathematical value of an [`Rss`].
pub struct RssView {
    pub title: Seq<char>,
    pub link: Seq<char>,
    pub description: Seq<char>,
    pub items: Seq<RssItemView>,
}

/// What an open element is to the decoder, by its name and by the element
/// it stands in.
#[derive(Debug, Clone, Copy, PartialEq, Eq, Structural)]
pub enum TagType {
    Other,
    Channel,
    ChannelTitle,
    ChannelLink,
    ChannelDescription,
    Item,
    ItemTitle,
    ItemLink,
    ItemDescription,
    ItemPubDate,
}

/// The decoder between two tokens: the feed read so far, and the roles of
/// the elements that are open, outermost first.
pub struct RssState {
    pub feed: RssView,
    pub stack: Seq<TagType>,
}

/// The role of the innermost open element, if any.
pub open spec fn top(stack: Seq<TagType>) -> Option<TagType> {
    if stack.len() == 0 {
        None
    } else {
        Some(stack.last())
    }
}

/// The role of an element named `name` that opens inside an element of role
/// `parent`. A name that counts only under a channel or an item is `Other`
/// anywhere else.
pub open spec fn role_of(parent: Option<TagType>, name: Seq<u8>) -> TagType {
    if name == "channel".spec_bytes() {
        TagType::Channel
    } else if name == "item".spec_bytes() {
        TagType::Item
    } else if name == "title".spec_bytes() {
        match parent {
            Some(TagType::Channel) => TagType::ChannelTitle,
            Some(TagType::Item) => TagType::ItemTitle,
            _ => TagType::Other,
        }
    } else if name == "link".spec_bytes() {
        match parent {
            Some(TagType::Channel) => TagType::ChannelLink,
            Some(TagType::Item) => TagType::ItemLink,
            _ => TagType::Other,
        }
    } else if name == "description".spec_bytes() {
        match parent {
            Some(TagType::Channel) => TagType::ChannelDescription,
            Some(TagType::Item) => TagType::ItemDescription,
            _ => TagType::Other,
        }
    } else if name == "pubDate".spec_bytes() {
        match parent {
            Some(TagType::Item) => TagType::ItemPubDate,
            _ => TagType::Other,
        }
    } else {
        TagType::Other
    }
}

/// An item with no field set.
pub open spec fn blank_item(omit_date: bool) -> RssItemView {
    RssItemView { title: None, link: None, description: None, pub_date: None, omit_date }
}

/// The item after character data arrived in an element of role `role`.
pub open spec fn item_with(item: RssItemView, role: TagType, text: Seq<char>) -> RssItemView {
    match role {
        TagType::ItemTitle => RssItemView { title: Some(text), ..item },
        TagType::ItemLink => RssItemView { link: Some(text), ..item },
        TagType::ItemDescription => RssItemView { description: Some(text), ..item },
        TagType::ItemPubDate => RssItemView { pub_date: Some(text), ..item },
        _ => item,
    }
}

/// The feed after character data arrived while the innermost open element
/// had role `role`: the text becomes the field that the role names, of the
/// channel or of the last item, and is dropped under any other role.
pub open spec fn with_text(feed: RssView, role: Option<TagType>, text: Seq<char>) -> RssView {
    match role {
        Some(TagType::ChannelTitle) => RssView { title: text, ..feed },
        Some(TagType::ChannelLink) => RssView { link: text, ..feed },
        Some(TagType::ChannelDescription) => RssView { description: text, ..feed },
        Some(r) => if feed.items.len() > 0 {
            RssView {
                items: feed.items.update(
                    feed.items.len() - 1,
                    item_with(feed.items.last(), r, text),
                ),
                ..feed
            }
        } else {
            feed
        },
        None => feed,
    }
}

/// The decoder after one more token. Every opening tag adds one role and
/// every closing tag takes one away, so the roles follow the nesting.
pub open spec fn step(state: RssState, token: XmlToken, omit_date: bool) -> RssState {
    match token {
        XmlToken::Start(name) => {
            let role = role_of(top(state.stack), name);
            RssState {
                feed: if role == TagType::Item {
                    RssView { items: state.feed.items.push(blank_item(omit_date)), ..state.feed }
                } else {
                    state.feed
                },
                stack: state.stack.push(role),
            }
        },
        XmlToken::End => RssState {
            feed: state.feed,
            stack: if state.stack.len() > 0 {
                state.stack.drop_last()
            } else {
                state.stack
            },
        },
        XmlToken::Text(text) => RssState {
            feed: with_text(state.feed, top(state.stack), text),
            stack: state.stack,
        },
        _ => state,
    }
}

/// The feed that the decoder ends with when it reads `tokens` from `state`
/// on: it stops at the first `Eof`, or where the tokens run out, and fails
/// at an `Invalid` token that comes before that.
pub open spec fn run(state: RssState, tokens: Seq<XmlToken>, omit_date: bool) -> Result<
    RssView,
    DecodeError,
>
    decreases tokens.len(),
{
    if tokens.len() == 0 {
        Ok(state.feed)
    } else {
        match tokens[0] {
            XmlToken::Eof => Ok(state.feed),
            XmlToken::Invalid => Err(DecodeError::MalformedDocument),
            token => run(step(state, token, omit_date), tokens.drop_first(), omit_date),
        }
    }
}

/// The decoder before the first token: an empty feed and no open element.
pub open spec fn start() -> RssState {
    RssState {
        feed: RssView { title: Seq::empty(), link: Seq::empty(), description: Seq::empty(), items: Seq::empty() },
        stack: Seq::empty(),
    }
}

/// The RSS feed that a token stream stands for.
pub open spec fn decode(tokens: Seq<XmlToken>, omit_date: bool) -> Result<RssView, DecodeError> {
    run(start(), tokens, omit_date)
}

/// Whether a decoder's answer is the one that `expected` describes.
pub open spec fn answers(r: Result<Rss, DecodeError>, expected: Result<RssView, DecodeError>) -> bool {
    match r {
        Ok(rss) => expected == Ok::<RssView, DecodeError>(rss@),
        Err(e) => expected == Err::<RssView, DecodeError>(e),
    }
}

/// What is hashed of a feed: its title and its link, never its items.
pub open spec fn feed_hash_input(feed: RssView) -> Seq<Seq<u8>> {
    text_record(feed.title) + text_record(feed.link)
}

/// What is hashed of an item: its title and its link, and its date unless
/// the feed leaves dates out. The description is never hashed.
pub open spec fn item_hash_input(item: RssItemView) -> Seq<Seq<u8>> {
    optional_text_record(item.title) + optional_text_record(item.link) + if item.omit_date {
        Seq::<Seq<u8>>::empty()
    } else {
        optional_text_record(item.pub_date)
    }
}

/// What the notification gate is given of an item: its hash, and its four fields as
/// they are announced and stored.
pub open spec fn item_record(item: RssItemView) -> ItemRecordView {
    ItemRecordView {
        hash: content_hash(item_hash_input(item)),
        info: TriggerInfoView {
            title: item.title,
            link: item.link,
            description: item.description,
            pub_date: item.pub_date,
        },
    }
}

/// What the notification gate is given of a feed: its hash, its title and link, and the
/// records of its items in order.
pub open spec fn feed_record(feed: RssView) -> FeedRecordView {
    FeedRecordView {
        hash: content_hash(feed_hash_input(feed)),
        title: feed.title,
        link: feed.link,
        items: feed.items.map_values(|item: RssItemView| item_record(item)),
    }
}

impl View for RssItem {
    type V = RssItemView;

    closed spec fn view(&self) -> RssItemView {
        RssItemView {
            title: text_of(self.title),
            link: text_of(self.link),
            description: text_of(self.description),
            pub_date: text_of(self.pub_date),
            omit_date: self.feed_config.should_omit_date_field_from_hash,
        }
    }
}

impl View for Rss {
    type V = RssView;

    closed spec fn view(&self) -> RssView {
        RssView {
            title: self.title@,
            link: self.link@,
            description: self.description@,
            items: self.item_list@.map_values(|item: RssItem| item@),
        }
    }
}

struct Decoder {
    feed: Rss,
    stack: Vec<TagType>,
}

impl Decoder {
    spec fn state(&self) -> RssState {
        RssState { feed: self.feed@, stack: self.stack@ }
    }

    spec fn omit_date(&self) -> bool {
        self.feed.feed_config.should_omit_date_field_from_hash
    }

    fn begin(feed_config: &FeedConfig) -> (decoder: Self)
        ensures
            decoder.state() == start(),
            decoder.omit_date() == feed_config.should_omit_date_field_from_hash,
    {
        let decoder = Decoder {
            feed: Rss {
                title: String::new(),
                link: String::new(),
                description: String::new(),
                item_list: Vec::new(),
                feed_config: Rc::new(feed_config.duplicate()),
            },
            stack: Vec::new(),
        };
        assert(decoder.state().feed.items =~= Seq::empty());
        decoder
    }

    fn parent(&self) -> (role: Option<TagType>)
        ensures
            role == top(self.stack@),
    {
        if self.stack.len() == 0 {
            None
        } else {
            Some(self.stack[self.stack.len() - 1])
        }
    }

    fn classify(&self, name: &Vec<u8>) -> (role: TagType)
        ensures
            role == role_of(top(self.stack@), name@),
    {
        let parent = self.parent();
        if is_named(name, "channel") {
            TagType::Channel
        } else if is_named(name, "item") {
            TagType::Item
        } else if is_named(name, "title") {
            match parent {
                Some(TagType::Channel) => TagType::ChannelTitle,
                Some(TagType::Item) => TagType::ItemTitle,
                _ => TagType::Other,
            }
        } else if is_named(name, "link") {
            match parent {
                Some(TagType::Channel) => TagType::ChannelLink,
                Some(TagType::Item) => TagType::ItemLink,
                _ => TagType::Other,
            }
        } else if is_named(name, "description") {
            match parent {
                Some(TagType::Channel) => TagType::ChannelDescription,
                Some(TagType::Item) => TagType::ItemDescription,
                _ => TagType::Other,
            }
        } else if is_named(name, "pubDate") {
            match parent {
                Some(TagType::Item) => TagType::ItemPubDate,
                _ => TagType::Other,
            }
        } else {
            TagType::Other
        }
    }

    fn set_item_field(&mut self, role: TagType, text: String)
        requires
            role != TagType::ChannelTitle,
            role != TagType::ChannelLink,
            role != TagType::ChannelDescription,
        ensures
            final(self).state() == (RssState {
                feed: with_text(old(self).state().feed, Some(role), text@),
                stack: old(self).state().stack,
            }),
            final(self).omit_date() == old(self).omit_date(),
    {
        let n = self.feed.item_list.len();
        if n > 0 {
            let item = &mut self.feed.item_list[n - 1];
            match role {
                TagType::ItemTitle => {
                    item.title = Some(text);
                },
                TagType::ItemLink => {
                    item.link = Some(text);
                },
                TagType::ItemDescription => {
                    item.description = Some(text);
                },
                TagType::ItemPubDate => {
                    item.pub_date = Some(text);
                },
                _ => {},
            }
            assert(self.state().feed.items =~= with_text(
                old(self).state().feed,
                Some(role),
                text@,
            ).items);
        }
    }

    fn apply(&mut self, ev: &XmlEvent)
        ensures
            final(self).state() == step(old(self).state(), ev@, old(self).omit_date()),
            final(self).omit_date() == old(self).omit_date(),
    {
        match ev {
            XmlEvent::Start(name) => {
                let role = self.classify(name);
                if role == TagType::Item {
                    self.feed.item_list.push(RssItem::new(&self.feed.feed_config));
                    assert(self.state().feed.items =~= old(self).state().feed.items.push(
                        blank_item(old(self).omit_date()),
                    ));
                }
                self.stack.push(role);
            },
            XmlEvent::End => {
                if self.stack.len() > 0 {
                    self.stack.pop();
                }
            },
            XmlEvent::Text(text) => {
                match self.parent() {
                    Some(TagType::ChannelTitle) => {
                        self.feed.title = text.clone();
                    },
                    Some(TagType::ChannelLink) => {
                        self.feed.link = text.clone();
                    },
                    Some(TagType::ChannelDescription) => {
                        self.feed.description = text.clone();
                    },
                    Some(role) => {
                        self.set_item_field(role, text.clone());
                    },
                    None => {},
                }
            },
            _ => {},
        }
    }
}

impl Rss {
    /// Decodes an RSS document.
    ///
    /// The answer is [`decode`] of the document's token stream: the feed,
    /// or `MalformedDocument` exactly when the reader gives up on the
    /// document before its end.
    pub fn new(xml: &str, feed_config: &FeedConfig) -> (r: Result<Rss, DecodeError>)
        ensures
            answers(r, decode(document_tokens(xml@), feed_config.should_omit_date_field_from_hash)),
    {
        let mut stream = TokenStream::open(xml);
        let mut decoder = Decoder::begin(feed_config);
        let ghost omit = feed_config.should_omit_date_field_from_hash;
        loop
            invariant
                omit == feed_config.should_omit_date_field_from_hash,
                decoder.omit_date() == omit,
                run(decoder.state(), stream.rest(), omit) == decode(document_tokens(xml@), omit),
            decreases stream.rest().len(),
        {
            let ev = stream.next();
            match ev {
                XmlEvent::Eof => {
                    return Ok(decoder.feed);
                },
                XmlEvent::Invalid => {
                    return Err(DecodeError::MalformedDocument);
                },
                _ => {
                    decoder.apply(&ev);
                },
            }
        }
    }

    /// Decodes an RSS feed from tokens that were read already.
    pub fn from_events(events: &Vec<XmlEvent>, feed_config: &FeedConfig) -> (r: Result<
        Rss,
        DecodeError,
    >)
        ensures
            answers(r, decode(tokens_of(events@), feed_config.should_omit_date_field_from_hash)),
    {
        let mut decoder = Decoder::begin(feed_config);
        let ghost omit = feed_config.should_omit_date_field_from_hash;
        let ghost tokens = tokens_of(events@);
        let mut i: usize = 0;
        assert(tokens.skip(0) =~= tokens);
        while i < events.len()
            invariant
                i <= events.len(),
                tokens == tokens_of(events@),
                omit == feed_config.should_omit_date_field_from_hash,
                decoder.omit_date() == omit,
                run(decoder.state(), tokens.skip(i as int), omit) == decode(tokens, omit),
            decreases events.len() - i,
        {
            assert(tokens.skip(i as int)[0] == events@[i as int]@);
            assert(tokens.skip(i as int).drop_first() =~= tokens.skip(i + 1));
            match &events[i] {
                XmlEvent::Eof => {
                    return Ok(decoder.feed);
                },
                XmlEvent::Invalid => {
                    return Err(DecodeError::MalformedDocument);
                },
                ev => {
                    decoder.apply(ev);
                },
            }
            i = i + 1;
        }
        Ok(decoder.feed)
    }

    /// The content hash of the feed. It covers the title and the link, so
    /// it stays the same while items come and go.
    pub fn hash_code(&self) -> (hash: String)
        ensures
            hash@ == content_hash(feed_hash_input(self@)),
    {
        let mut hasher = DefaultHasher::new();
        write_text(&mut hasher, self.title.as_str());
        write_text(&mut hasher, self.link.as_str());
        assert(hasher@ =~= feed_hash_input(self@));
        finish_hash(&hasher)
    }

    /// The feed as the notification gate takes it.
    pub fn record(&self) -> (record: FeedRecord)
        ensures
            record@ == feed_record(self@),
    {
        let mut items: Vec<ItemRecord> = Vec::new();
        let mut i: usize = 0;
        while i < self.item_list.len()
            invariant
                i <= self.item_list.len(),
                items@.len() == i,
                forall|k: int| 0 <= k < i ==> (#[trigger] items@[k])@ == item_record(self@.items[k]),
            decreases self.item_list.len() - i,
        {
            items.push(self.item_list[i].record());
            i = i + 1;
        }
        let record = FeedRecord {
            hash: self.hash_code(),
            title: self.title.clone(),
            link: self.link.clone(),
            items,
        };
        assert(record@.items =~= feed_record(self@).items);
        record
    }

    pub fn get_title(&self) -> (title: &str)
        ensures
            title@ == self@.title,
    {
        self.title.as_str()
    }

    pub fn get_link(&self) -> (link: &str)
        ensures
            link@ == self@.link,
    {
        self.link.as_str()
    }

    pub fn get_description(&self) -> (description: &str)
        ensures
            description@ == self@.description,
    {
        self.description.as_str()
    }

    pub fn get_item_list(&self) -> (items: &Vec<RssItem>)
        ensures
            items@.map_values(|item: RssItem| item@) == self@.items,
    {
        &self.item_list
    }
}

impl RssItem {
    /// An item with no field set, for a feed with these settings.
    pub fn new(feed_config: &Rc<FeedConfig>) -> (item: Self)
        ensures
            item@ == blank_item(feed_config.should_omit_date_field_from_hash),
    {
        RssItem {
            title: None,
            link: None,
            description: None,
            pub_date: None,
            feed_config: Rc::clone(feed_config),
        }
    }

    /// The content hash of the item. It covers the title and the link, and
    /// the date unless the feed leaves dates out; never the description.
    pub fn hash_code(&self) -> (hash: String)
        ensures
            hash@ == content_hash(item_hash_input(self@)),
    {
        let mut hasher = DefaultHasher::new();
        write_optional_text(&mut hasher, &self.title);
        write_optional_text(&mut hasher, &self.link);
        if !self.feed_config.should_omit_date_field_from_hash {
            write_optional_text(&mut hasher, &self.pub_date);
        }
        assert(hasher@ =~= item_hash_input(self@));
        finish_hash(&hasher)
    }

    /// The item as the notification gate takes it.
    pub fn record(&self) -> (record: ItemRecord)
        ensures
            record@ == item_record(self@),
    {
        ItemRecord {
            hash: self.hash_code(),
            info: TriggerInfo::new(&self.title, &self.link, &self.description, &self.pub_date),
        }
    }

    pub fn get_title(&self) -> (title: &Option<String>)
        ensures
            text_of(*title) == self@.title,
    {
        &self.title
    }

    pub fn get_link(&self) -> (link: &Option<String>)
        ensures
            text_of(*link) == self@.link,
    {
        &self.link
    }

    pub fn get_description(&self) -> (description: &Option<String>)
        ensures
            text_of(*description) == self@.description,
    {
        &self.description
    }

    pub fn get_pub_date(&self) -> (pub_date: &Option<String>)
        ensures
            text_of(*pub_date) == self@.pub_date,
    {
        &self.pub_date
    }
}

/// Decoding is repeatable: two feeds decoded from the same document under
/// the same setting have the same hash, and so have their items, one by
/// one.
pub proof fn lemma_same_document_same_hashes(a: Rss, b: Rss, xml: Seq<char>, omit_date: bool)
    requires
        answers(Ok(a), decode(document_tokens(xml), omit_date)),
        answers(Ok(b), decode(document_tokens(xml), omit_date)),
    ensures
        a@ == b@,
        content_hash(feed_hash_input(a@)) == content_hash(feed_hash_input(b@)),
        feed_record(a@) == feed_record(b@),
{
}

/// Where a feed leaves dates out of the hash, two items that differ in
/// nothing but their date have the same hash.
pub proof fn lemma_date_left_out(a: RssItemView, b: RssItemView)
    requires
        a.omit_date,
        b == (RssItemView { pub_date: b.pub_date, ..a }),
    ensures
        content_hash(item_hash_input(a)) == content_hash(item_hash_input(b)),
{
}

/// Where a feed does not leave dates out, two items with different dates
/// are hashed from different input, so that their hashes differ unless the
/// hasher's digests of the two inputs collide.
pub proof fn lemma_date_counts(a: RssItemView, b: RssItemView)
    requires
        !a.omit_date,
        b == (RssItemView { pub_date: b.pub_date, ..a }),
        a.pub_date != b.pub_date,
    ensures
        item_hash_input(a) != item_hash_input(b),
        content_hash(item_hash_input(a)) == content_hash(item_hash_input(b))
            <==> DefaultHasher::spec_finish(item_hash_input(a)) == DefaultHasher::spec_finish(
            item_hash_input(b),
        ),
{
    let head = optional_text_record(a.title) + optional_text_record(a.link);
    let ra = optional_text_record(a.pub_date);
    let rb = optional_text_record(b.pub_date);
    if item_hash_input(a) == item_hash_input(b) {
        assert(item_hash_input(a) == head + ra);
        assert(item_hash_input(b) == head + rb);
        assert(ra.len() == rb.len());
        assert forall|k: int| 0 <= k < ra.len() implies ra[k] == rb[k] by {
            assert((head + ra)[head.len() + k] == ra[k]);
            assert((head + rb)[head.len() + k] == rb[k]);
        }
        assert(ra =~= rb);
        lemma_optional_text_record_injective(a.pub_date, b.pub_date);
    }
    let da = DefaultHasher::spec_finish(item_hash_input(a));
    let db = DefaultHasher::spec_finish(item_hash_input(b));
    if decimal(da as nat) == decimal(db as nat) {
        lemma_decimal_injective(da as nat, db as nat);
    }
}

/// The description is no part of the hash: two items that differ in
/// nothing but their description have the same hash, whatever the feed's
/// setting.
pub proof fn lemma_description_never_counts(a: RssItemView, b: RssItemView)
    requires
        b == (RssItemView { description: b.description, ..a }),
    ensures
        content_hash(item_hash_input(a)) == content_hash(item_hash_input(b)),
{
}

} // verus!
