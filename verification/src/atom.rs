use crate::digest::content_hash;
use crate::digest::decimal;
use crate::digest::lemma_decimal_injective;
use crate::digest::lemma_text_record_injective;
use crate::digest::finish_hash;
use crate::digest::text_of;
use crate::digest::text_record;
use crate::digest::write_text;
use crate::error::DecodeError;
use crate::feedconfig::FeedConfig;
use crate::gate::FeedRecord;
use crate::gate::FeedRecordView;
use crate::gate::ItemRecord;
use crate::gate::ItemRecordView;
use crate::trigger::TriggerInfo;
use crate::trigger::TriggerInfoView;
use crate::xml::document_tokens;
use crate::xml::is_named;
use crate::xml::tokens_of;
use crate::xml::TokenStream;
use crate::xml::XmlEvent;
use crate::xml::XmlToken;
use std::collections::hash_map::DefaultHasher;
use std::rc::Rc;
use vstd::prelude::*;
use vstd::std_specs::hash::DefaultHasherAdditionalSpecFns;
use vstd::string::StrSliceExecFns;
use vstd::string::StringExecFns;
use vstd::string::StringSliceAdditionalSpecFns;

verus! {

/// An Atom feed with its entries, in the order of the document.
#[derive(Debug)]
pub struct Atom {
    title: String,
    id: String,
    entry_list: Vec<AtomEntry>,
    feed_config: Rc<FeedConfig>,
}

/// One entry of an Atom feed. A title, id or date that the document does
/// not give is the empty string.
#[derive(Debug, Clone)]
pub struct AtomEntry {
    title: String,
    id: String,
    updated: String,
    summary: Option<String>,
    content: Option<String>,
    feed_config: Rc<FeedConfig>,
}

/// The mathematical value of an [`AtomEntry`]: its five fields, and whether
/// its feed leaves the date out of the hash.
pub struct AtomEntryView {
    pub title: Seq<char>,
    pub id: Seq<char>,
    pub updated: Seq<char>,
    pub summary: Option<Seq<char>>,
    pub content: Option<Seq<char>>,
    pub omit_date: bool,
}

/// The mathematical value of an [`Atom`].
pub struct AtomView {
    pub title: Seq<char>,
    pub id: Seq<char>,
    pub entries: Seq<AtomEntryView>,
}

/// What an open element is to the decoder, by its name and by the element
/// it stands in.
#[derive(Debug, Clone, Copy, PartialEq, Eq, Structural)]
pub enum TagType {
    Other,
    Feed,
    FeedTitle,
    FeedId,
    Entry,
    EntryTitle,
    EntryId,
    EntryUpdated,
    EntrySummary,
    EntryContent,
}

/// The decoder between two tokens: the feed read so far, and the roles of
/// the elements that are open, outermost first.
pub struct AtomState {
    pub feed: AtomView,
    pub stack: Seq<TagType>,
}

/// How a feed's settings bear on decoding.
pub struct Policy {
    /// Entries leave their date out of the hash.
    pub omit_date: bool,
    /// Legacy entry ids are rewritten.
    pub rewrite_ids: bool,
}

/// The policy that a feed's settings ask for.
pub open spec fn policy_of(config: FeedConfig) -> Policy {
    Policy {
        omit_date: config.should_omit_date_field_from_hash,
        rewrite_ids: config.is_golang_blog_mode,
    }
}

/// The tag-URI prefix of the legacy entry ids.
pub open spec fn legacy_prefix() -> Seq<char> {
    "tag:blog.golang.org,2013:"@
}

/// What takes the place of the legacy prefix.
pub open spec fn url_prefix() -> Seq<char> {
    "https://"@
}

/// Whether `id` begins with the legacy prefix.
pub open spec fn is_legacy_id(id: Seq<char>) -> bool {
    legacy_prefix().len() <= id.len() && id.subrange(0, legacy_prefix().len() as int)
        == legacy_prefix()
}

/// An entry id with the legacy prefix, if it begins with it, replaced by
/// the URL prefix.
pub open spec fn rewritten_id(id: Seq<char>) -> Seq<char> {
    if is_legacy_id(id) {
        url_prefix() + id.skip(legacy_prefix().len() as int)
    } else {
        id
    }
}

/// The role of the innermost open element, if any.
pub open spec fn top(stack: Seq<TagType>) -> Option<TagType> {
    if stack.len() == 0 {
        None
    } else {
        Some(stack.last())
    }
}

/// The role of an element named `name` that opens inside an element of role
/// `parent`. A name that counts only under a feed or an entry is `Other`
/// anywhere else.
pub open spec fn role_of(parent: Option<TagType>, name: Seq<u8>) -> TagType {
    if name == "feed".spec_bytes() {
        TagType::Feed
    } else if name == "entry".spec_bytes() {
        TagType::Entry
    } else if name == "title".spec_bytes() {
        match parent {
            Some(TagType::Feed) => TagType::FeedTitle,
            Some(TagType::Entry) => TagType::EntryTitle,
            _ => TagType::Other,
        }
    } else if name == "id".spec_bytes() {
        match parent {
            Some(TagType::Feed) => TagType::FeedId,
            Some(TagType::Entry) => TagType::EntryId,
            _ => TagType::Other,
        }
    } else if name == "updated".spec_bytes() {
        match parent {
            Some(TagType::Entry) => TagType::EntryUpdated,
            _ => TagType::Other,
        }
    } else if name == "summary".spec_bytes() {
        match parent {
            Some(TagType::Entry) => TagType::EntrySummary,
            _ => TagType::Other,
        }
    } else if name == "content".spec_bytes() {
        match parent {
            Some(TagType::Entry) => TagType::EntryContent,
            _ => TagType::Other,
        }
    } else {
        TagType::Other
    }
}

/// An entry with no field set.
pub open spec fn blank_entry(omit_date: bool) -> AtomEntryView {
    AtomEntryView {
        title: Seq::empty(),
        id: Seq::empty(),
        updated: Seq::empty(),
        summary: None,
        content: None,
        omit_date,
    }
}

/// The entry after character data arrived in an element of role `role`.
pub open spec fn entry_with(
    entry: AtomEntryView,
    role: TagType,
    text: Seq<char>,
    rewrite_ids: bool,
) -> AtomEntryView {
    match role {
        TagType::EntryTitle => AtomEntryView { title: text, ..entry },
        TagType::EntryId => AtomEntryView {
            id: if rewrite_ids {
                rewritten_id(text)
            } else {
                text
            },
            ..entry
        },
        TagType::EntryUpdated => AtomEntryView { updated: text, ..entry },
        TagType::EntrySummary => AtomEntryView { summary: Some(text), ..entry },
        TagType::EntryContent => AtomEntryView { content: Some(text), ..entry },
        _ => entry,
    }
}

/// The feed after character data arrived while the innermost open element
/// had role `role`: the text becomes the field that the role names, of the
/// feed or of the last entry, and is dropped under any other role.
pub open spec fn with_text(
    feed: AtomView,
    role: Option<TagType>,
    text: Seq<char>,
    rewrite_ids: bool,
) -> AtomView {
    match role {
        Some(TagType::FeedTitle) => AtomView { title: text, ..feed },
        Some(TagType::FeedId) => AtomView { id: text, ..feed },
        Some(r) => if feed.entries.len() > 0 {
            AtomView {
                entries: feed.entries.update(
                    feed.entries.len() - 1,
                    entry_with(feed.entries.last(), r, text, rewrite_ids),
                ),
                ..feed
            }
        } else {
            feed
        },
        None => feed,
    }
}

/// The decoder after one more token. Every opening tag adds one role and
/// every closing tag takes one away, so the roles follow the nesting.
pub open spec fn step(state: AtomState, token: XmlToken, policy: Policy) -> AtomState {
    match token {
        XmlToken::Start(name) => {
            let role = role_of(top(state.stack), name);
            AtomState {
                feed: if role == TagType::Entry {
                    AtomView {
                        entries: state.feed.entries.push(blank_entry(policy.omit_date)),
                        ..state.feed
                    }
                } else {
                    state.feed
                },
                stack: state.stack.push(role),
            }
        },
        XmlToken::End => AtomState {
            feed: state.feed,
            stack: if state.stack.len() > 0 {
                state.stack.drop_last()
            } else {
                state.stack
            },
        },
        XmlToken::Text(text) => AtomState {
            feed: with_text(state.feed, top(state.stack), text, policy.rewrite_ids),
            stack: state.stack,
        },
        _ => state,
    }
}

/// The feed that the decoder ends with when it reads `tokens` from `state`
/// on: it stops at the first `Eof`, or where the tokens run out, and fails
/// at an `Invalid` token that comes before that.
pub open spec fn run(state: AtomState, tokens: Seq<XmlToken>, policy: Policy) -> Result<
    AtomView,
    DecodeError,
>
    decreases tokens.len(),
{
    if tokens.len() == 0 {
        Ok(state.feed)
    } else {
        match tokens[0] {
            XmlToken::Eof => Ok(state.feed),
            XmlToken::Invalid => Err(DecodeError::MalformedDocument),
            token => run(step(state, token, policy), tokens.drop_first(), policy),
        }
    }
}

/// The decoder before the first token: an empty feed and no open element.
pub open spec fn start() -> AtomState {
    AtomState {
        feed: AtomView { title: Seq::empty(), id: Seq::empty(), entries: Seq::empty() },
        stack: Seq::empty(),
    }
}

/// The Atom feed that a token stream stands for.
pub open spec fn decode(tokens: Seq<XmlToken>, policy: Policy) -> Result<AtomView, DecodeError> {
    run(start(), tokens, policy)
}

/// Whether a decoder's answer is the one that `expected` describes.
pub open spec fn answers(r: Result<Atom, DecodeError>, expected: Result<AtomView, DecodeError>) -> bool {
    match r {
        Ok(atom) => expected == Ok::<AtomView, DecodeError>(atom@),
        Err(e) => expected == Err::<AtomView, DecodeError>(e),
    }
}

/// What is hashed of a feed: its title and its id, never its entries.
pub open spec fn feed_hash_input(feed: AtomView) -> Seq<Seq<u8>> {
    text_record(feed.title) + text_record(feed.id)
}

/// What is hashed of an entry: its title and its id, and its date unless
/// the feed leaves dates out. Summary and content are never hashed.
pub open spec fn entry_hash_input(entry: AtomEntryView) -> Seq<Seq<u8>> {
    text_record(entry.title) + text_record(entry.id) + if entry.omit_date {
        Seq::<Seq<u8>>::empty()
    } else {
        text_record(entry.updated)
    }
}

/// The summary of an entry, or its content where it has no summary.
pub open spec fn summary_or_content(entry: AtomEntryView) -> Option<Seq<char>> {
    if entry.summary is Some {
        entry.summary
    } else {
        entry.content
    }
}

/// What the notification gate is given of an entry: its hash, and what is announced and
/// stored of it, the id standing for the link and the date for the
/// publication date.
pub open spec fn entry_record(entry: AtomEntryView) -> ItemRecordView {
    ItemRecordView {
        hash: content_hash(entry_hash_input(entry)),
        info: TriggerInfoView {
            title: Some(entry.title),
            link: Some(entry.id),
            description: summary_or_content(entry),
            pub_date: Some(entry.updated),
        },
    }
}

/// What the notification gate is given of a feed: its hash, its title and id, and the
/// records of its entries in order.
pub open spec fn feed_record(feed: AtomView) -> FeedRecordView {
    FeedRecordView {
        hash: content_hash(feed_hash_input(feed)),
        title: feed.title,
        link: feed.id,
        items: feed.entries.map_values(|entry: AtomEntryView| entry_record(entry)),
    }
}

impl View for AtomEntry {
    type V = AtomEntryView;

    closed spec fn view(&self) -> AtomEntryView {
        AtomEntryView {
            title: self.title@,
            id: self.id@,
            updated: self.updated@,
            summary: text_of(self.summary),
            content: text_of(self.content),
            omit_date: self.feed_config.should_omit_date_field_from_hash,
        }
    }
}

impl View for Atom {
    type V = AtomView;

    closed spec fn view(&self) -> AtomView {
        AtomView {
            title: self.title@,
            id: self.id@,
            entries: self.entry_list@.map_values(|entry: AtomEntry| entry@),
        }
    }
}

/// Replaces the legacy prefix of an entry id, if it has it, by the URL
/// prefix.
pub fn rewrite_legacy_id(id: &str) -> (rewritten: String)
    ensures
        rewritten@ == rewritten_id(id@),
{
    let prefix = "tag:blog.golang.org,2013:";
    let prefix_len = prefix.unicode_len();
    let id_len = id.unicode_len();
    if id_len < prefix_len {
        return String::from_str(id);
    }
    let mut i: usize = 0;
    while i < prefix_len
        invariant
            i <= prefix_len,
            prefix_len <= id_len,
            prefix_len == prefix@.len(),
            id_len == id@.len(),
            prefix@ == legacy_prefix(),
            forall|k: int| 0 <= k < i ==> id@[k] == prefix@[k],
        decreases prefix_len - i,
    {
        if id.get_char(i) != prefix.get_char(i) {
            assert(id@.subrange(0, prefix_len as int)[i as int] != prefix@[i as int]);
            return String::from_str(id);
        }
        i = i + 1;
    }
    assert(id@.subrange(0, prefix_len as int) =~= prefix@);
    let tail = id.substring_char(prefix_len, id_len);
    assert(tail@ =~= id@.skip(prefix_len as int));
    String::from_str("https://").concat(tail)
}

struct Decoder {
    feed: Atom,
    stack: Vec<TagType>,
}

impl Decoder {
    spec fn state(&self) -> AtomState {
        AtomState { feed: self.feed@, stack: self.stack@ }
    }

    spec fn policy(&self) -> Policy {
        policy_of(*self.feed.feed_config)
    }

    fn begin(feed_config: &FeedConfig) -> (decoder: Self)
        ensures
            decoder.state() == start(),
            decoder.policy() == policy_of(*feed_config),
    {
        let decoder = Decoder {
            feed: Atom {
                title: String::new(),
                id: String::new(),
                entry_list: Vec::new(),
                feed_config: Rc::new(feed_config.duplicate()),
            },
            stack: Vec::new(),
        };
        assert(decoder.state().feed.entries =~= Seq::empty());
        decoder
    }

    fn parent(&self) -> (role: Option<TagType>)
        ensures
            role == top(self.stack@),
    {
        if self.stack.len() == 0 {
            None
        } else {
            Some(self.stack[self.stack.len() - 1])
        }
    }

    fn classify(&self, name: &Vec<u8>) -> (role: TagType)
        ensures
            role == role_of(top(self.stack@), name@),
    {
        let parent = self.parent();
        if is_named(name, "feed") {
            TagType::Feed
        } else if is_named(name, "entry") {
            TagType::Entry
        } else if is_named(name, "title") {
            match parent {
                Some(TagType::Feed) => TagType::FeedTitle,
                Some(TagType::Entry) => TagType::EntryTitle,
                _ => TagType::Other,
            }
        } else if is_named(name, "id") {
            match parent {
                Some(TagType::Feed) => TagType::FeedId,
                Some(TagType::Entry) => TagType::EntryId,
                _ => TagType::Other,
            }
        } else if is_named(name, "updated") {
            match parent {
                Some(TagType::Entry) => TagType::EntryUpdated,
                _ => TagType::Other,
            }
        } else if is_named(name, "summary") {
            match parent {
                Some(TagType::Entry) => TagType::EntrySummary,
                _ => TagType::Other,
            }
        } else if is_named(name, "content") {
            match parent {
                Some(TagType::Entry) => TagType::EntryContent,
                _ => TagType::Other,
            }
        } else {
            TagType::Other
        }
    }

    fn set_entry_field(&mut self, role: TagType, text: &String)
        requires
            role != TagType::FeedTitle,
            role != TagType::FeedId,
        ensures
            final(self).state() == (AtomState {
                feed: with_text(
                    old(self).state().feed,
                    Some(role),
                    text@,
                    old(self).policy().rewrite_ids,
                ),
                stack: old(self).state().stack,
            }),
            final(self).policy() == old(self).policy(),
    {
        let n = self.feed.entry_list.len();
        if n > 0 {
            let rewrite_ids = self.feed.feed_config.is_golang_blog_mode;
            let entry = &mut self.feed.entry_list[n - 1];
            match role {
                TagType::EntryTitle => {
                    entry.title = text.clone();
                },
                TagType::EntryId => {
                    entry.id = if rewrite_ids {
                        rewrite_legacy_id(text.as_str())
                    } else {
                        text.clone()
                    };
                },
                TagType::EntryUpdated => {
                    entry.updated = text.clone();
                },
                TagType::EntrySummary => {
                    entry.summary = Some(text.clone());
                },
                TagType::EntryContent => {
                    entry.content = Some(text.clone());
                },
                _ => {},
            }
            assert(self.state().feed.entries =~= with_text(
                old(self).state().feed,
                Some(role),
                text@,
                old(self).policy().rewrite_ids,
            ).entries);
        }
    }

    fn apply(&mut self, ev: &XmlEvent)
        ensures
            final(self).state() == step(old(self).state(), ev@, old(self).policy()),
            final(self).policy() == old(self).policy(),
    {
        match ev {
            XmlEvent::Start(name) => {
                let role = self.classify(name);
                if role == TagType::Entry {
                    self.feed.entry_list.push(AtomEntry::new(&self.feed.feed_config));
                    assert(self.state().feed.entries =~= old(self).state().feed.entries.push(
                        blank_entry(old(self).policy().omit_date),
                    ));
                }
                self.stack.push(role);
            },
            XmlEvent::End => {
                if self.stack.len() > 0 {
                    self.stack.pop();
                }
            },
            XmlEvent::Text(text) => {
                match self.parent() {
                    Some(TagType::FeedTitle) => {
                        self.feed.title = text.clone();
                    },
                    Some(TagType::FeedId) => {
                        self.feed.id = text.clone();
                    },
                    Some(role) => {
                        self.set_entry_field(role, text);
                    },
                    None => {},
                }
            },
            _ => {},
        }
    }
}

impl Atom {
    /// Decodes an Atom document.
    ///
    /// The answer is [`decode`] of the document's token stream: the feed,
    /// or `MalformedDocument` exactly when the reader gives up on the
    /// document before its end.
    pub fn new(xml: &str, feed_config: &FeedConfig) -> (r: Result<Atom, DecodeError>)
        ensures
            answers(r, decode(document_tokens(xml@), policy_of(*feed_config))),
    {
        let mut stream = TokenStream::open(xml);
        let mut decoder = Decoder::begin(feed_config);
        let ghost policy = policy_of(*feed_config);
        loop
            invariant
                policy == policy_of(*feed_config),
                decoder.policy() == policy,
                run(decoder.state(), stream.rest(), policy) == decode(document_tokens(xml@), policy),
            decreases stream.rest().len(),
        {
            let ev = stream.next();
            match ev {
                XmlEvent::Eof => {
                    return Ok(decoder.feed);
                },
                XmlEvent::Invalid => {
                    return Err(DecodeError::MalformedDocument);
                },
                _ => {
                    decoder.apply(&ev);
                },
            }
        }
    }

    /// Decodes an Atom feed from tokens that were read already.
    pub fn from_events(events: &Vec<XmlEvent>, feed_config: &FeedConfig) -> (r: Result<
        Atom,
        DecodeError,
    >)
        ensures
            answers(r, decode(tokens_of(events@), policy_of(*feed_config))),
    {
        let mut decoder = Decoder::begin(feed_config);
        let ghost policy = policy_of(*feed_config);
        let ghost tokens = tokens_of(events@);
        let mut i: usize = 0;
        assert(tokens.skip(0) =~= tokens);
        while i < events.len()
            invariant
                i <= events.len(),
                tokens == tokens_of(events@),
                policy == policy_of(*feed_config),
                decoder.policy() == policy,
                run(decoder.state(), tokens.skip(i as int), policy) == decode(tokens, policy),
            decreases events.len() - i,
        {
            assert(tokens.skip(i as int)[0] == events@[i as int]@);
            assert(tokens.skip(i as int).drop_first() =~= tokens.skip(i + 1));
            match &events[i] {
                XmlEvent::Eof => {
                    return Ok(decoder.feed);
                },
                XmlEvent::Invalid => {
                    return Err(DecodeError::MalformedDocument);
                },
                ev => {
                    decoder.apply(ev);
                },
            }
            i = i + 1;
        }
        Ok(decoder.feed)
    }

    /// The content hash of the feed. It covers the title and the id, so it
    /// stays the same while entries come and go.
    pub fn hash_code(&self) -> (hash: String)
        ensures
            hash@ == content_hash(feed_hash_input(self@)),
    {
        let mut hasher = DefaultHasher::new();
        write_text(&mut hasher, self.title.as_str());
        write_text(&mut hasher, self.id.as_str());
        assert(hasher@ =~= feed_hash_input(self@));
        finish_hash(&hasher)
    }

    /// The feed as the notification gate takes it.
    pub fn record(&self) -> (record: FeedRecord)
        ensures
            record@ == feed_record(self@),
    {
        let mut items: Vec<ItemRecord> = Vec::new();
        let mut i: usize = 0;
        while i < self.entry_list.len()
            invariant
                i <= self.entry_list.len(),
                items@.len() == i,
                forall|k: int|
                    0 <= k < i ==> (#[trigger] items@[k])@ == entry_record(self@.entries[k]),
            decreases self.entry_list.len() - i,
        {
            items.push(self.entry_list[i].record());
            i = i + 1;
        }
        let record = FeedRecord {
            hash: self.hash_code(),
            title: self.title.clone(),
            link: self.id.clone(),
            items,
        };
        assert(record@.items =~= feed_record(self@).items);
        record
    }

    pub fn get_title(&self) -> (title: &str)
        ensures
            title@ == self@.title,
    {
        self.title.as_str()
    }

    pub fn get_id(&self) -> (id: &str)
        ensures
            id@ == self@.id,
    {
        self.id.as_str()
    }

    pub fn get_entry_list(&self) -> (entries: &Vec<AtomEntry>)
        ensures
            entries@.map_values(|entry: AtomEntry| entry@) == self@.entries,
    {
        &self.entry_list
    }
}

impl AtomEntry {
    /// An entry with no field set, for a feed with these settings.
    pub fn new(feed_config: &Rc<FeedConfig>) -> (entry: Self)
        ensures
            entry@ == blank_entry(feed_config.should_omit_date_field_from_hash),
    {
        AtomEntry {
            id: String::new(),
            title: String::new(),
            updated: String::new(),
            summary: None,
            content: None,
            feed_config: Rc::clone(feed_config),
        }
    }

    /// The content hash of the entry. It covers the title and the id, and
    /// the date unless the feed leaves dates out; never summary or content.
    pub fn hash_code(&self) -> (hash: String)
        ensures
            hash@ == content_hash(entry_hash_input(self@)),
    {
        let mut hasher = DefaultHasher::new();
        write_text(&mut hasher, self.title.as_str());
        write_text(&mut hasher, self.id.as_str());
        if !self.feed_config.should_omit_date_field_from_hash {
            write_text(&mut hasher, self.updated.as_str());
        }
        assert(hasher@ =~= entry_hash_input(self@));
        finish_hash(&hasher)
    }

    pub fn get_title(&self) -> (title: &str)
        ensures
            title@ == self@.title,
    {
        self.title.as_str()
    }

    pub fn get_id(&self) -> (id: &str)
        ensures
            id@ == self@.id,
    {
        self.id.as_str()
    }

    pub fn get_updated(&self) -> (updated: &str)
        ensures
            updated@ == self@.updated,
    {
        self.updated.as_str()
    }

    /// The entry as the notification gate takes it.
    pub fn record(&self) -> (record: ItemRecord)
        ensures
            record@ == entry_record(self@),
    {
        ItemRecord {
            hash: self.hash_code(),
            info: TriggerInfo::new(
                &Some(self.title.clone()),
                &Some(self.id.clone()),
                self.get_summary_or_content(),
                &Some(self.updated.clone()),
            ),
        }
    }

    /// The summary of the entry, or its content where it has no summary.
    pub fn get_summary_or_content(&self) -> (text: &Option<String>)
        ensures
            text_of(*text) == summary_or_content(self@),
    {
        match self.summary {
            Some(_) => &self.summary,
            None => &self.content,
        }
    }
}

/// Decoding is repeatable: two feeds decoded from the same document under
/// the same policy have the same hash, and so have their entries, one by
/// one.
pub proof fn lemma_same_document_same_hashes(a: Atom, b: Atom, xml: Seq<char>, policy: Policy)
    requires
        answers(Ok(a), decode(document_tokens(xml), policy)),
        answers(Ok(b), decode(document_tokens(xml), policy)),
    ensures
        a@ == b@,
        content_hash(feed_hash_input(a@)) == content_hash(feed_hash_input(b@)),
        feed_record(a@) == feed_record(b@),
{
}

/// Where a feed leaves dates out of the hash, two entries that differ in
/// nothing but their date have the same hash.
pub proof fn lemma_date_left_out(a: AtomEntryView, b: AtomEntryView)
    requires
        a.omit_date,
        b == (AtomEntryView { updated: b.updated, ..a }),
    ensures
        content_hash(entry_hash_input(a)) == content_hash(entry_hash_input(b)),
{
}

/// Where a feed does not leave dates out, two entries with different dates
/// are hashed from different input, so that their hashes differ unless the
/// hasher's digests of the two inputs collide.
pub proof fn lemma_date_counts(a: AtomEntryView, b: AtomEntryView)
    requires
        !a.omit_date,
        b == (AtomEntryView { updated: b.updated, ..a }),
        a.updated != b.updated,
    ensures
        entry_hash_input(a) != entry_hash_input(b),
        content_hash(entry_hash_input(a)) == content_hash(entry_hash_input(b))
            <==> DefaultHasher::spec_finish(entry_hash_input(a)) == DefaultHasher::spec_finish(
            entry_hash_input(b),
        ),
{
    let head = text_record(a.title) + text_record(a.id);
    let ra = text_record(a.updated);
    let rb = text_record(b.updated);
    if entry_hash_input(a) == entry_hash_input(b) {
        assert(entry_hash_input(a) == head + ra);
        assert(entry_hash_input(b) == head + rb);
        assert forall|k: int| 0 <= k < ra.len() implies ra[k] == rb[k] by {
            assert((head + ra)[head.len() + k] == ra[k]);
            assert((head + rb)[head.len() + k] == rb[k]);
        }
        assert(ra =~= rb);
        lemma_text_record_injective(a.updated, b.updated);
    }
    let da = DefaultHasher::spec_finish(entry_hash_input(a));
    let db = DefaultHasher::spec_finish(entry_hash_input(b));
    if decimal(da as nat) == decimal(db as nat) {
        lemma_decimal_injective(da as nat, db as nat);
    }
}

/// Summary and content are no part of the hash: two entries that differ in
/// nothing but these have the same hash, whatever the feed's setting.
pub proof fn lemma_summary_never_counts(a: AtomEntryView, b: AtomEntryView)
    requires
        b == (AtomEntryView { summary: b.summary, content: b.content, ..a }),
    ensures
        content_hash(entry_hash_input(a)) == content_hash(entry_hash_input(b)),
{
}

/// An entry id in the legacy form comes out of the rewriting as the URL
/// prefix followed by what stood behind the legacy prefix.
pub proof fn lemma_legacy_id_rewritten(rest: Seq<char>)
    ensures
        rewritten_id(legacy_prefix() + rest) == url_prefix() + rest,
{
    let id = legacy_prefix() + rest;
    assert(id.subrange(0, legacy_prefix().len() as int) =~= legacy_prefix());
    assert(id.skip(legacy_prefix().len() as int) =~= rest);
}

} // verus!
