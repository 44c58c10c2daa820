use crate::feedconfig::FeedConfig;
use crate::feedconfig::FeedConfigView;
use vstd::prelude::*;
use vstd::string::StringExecFns;

verus! {

/// A JSON value, as far as the settings are read from it: a number is kept
/// without its amount, and an object as its members in the order of the
/// document.
#[derive(Debug)]
pub enum Json {
    Null,
    Bool(bool),
    Number,
    Text(String),
    Array(Vec<Json>),
    Object(Vec<(String, Json)>),
}

/// A notification channel that the settings switch on.
#[derive(Debug)]
pub enum TriggerSetting {
    /// The webhook channel, with the address to post to.
    Discord { webhook_url: String },
    /// The script channel.
    Twitter,
}

/// The mathematical value of a [`TriggerSetting`].
pub enum TriggerSettingView {
    Discord { webhook_url: Seq<char> },
    Twitter,
}

impl View for TriggerSetting {
    type V = TriggerSettingView;

    open spec fn view(&self) -> TriggerSettingView {
        match self {
            TriggerSetting::Discord { webhook_url } => TriggerSettingView::Discord {
                webhook_url: webhook_url@,
            },
            TriggerSetting::Twitter => TriggerSettingView::Twitter,
        }
    }
}

/// What a settings document says.
#[derive(Debug)]
pub struct Settings {
    pub should_log_debug: bool,
    pub database_file: String,
    pub feed_config_list: Vec<FeedConfig>,
    pub triggers: Vec<TriggerSetting>,
}

/// The mathematical value of [`Settings`].
pub struct SettingsView {
    pub should_log_debug: bool,
    pub database_file: Seq<char>,
    pub feed_config_list: Seq<FeedConfigView>,
    pub triggers: Seq<TriggerSettingView>,
}

impl View for Settings {
    type V = SettingsView;

    open spec fn view(&self) -> SettingsView {
        SettingsView {
            should_log_debug: self.should_log_debug,
            database_file: self.database_file@,
            feed_config_list: self.feed_config_list@.map_values(|c: FeedConfig| c@),
            triggers: self.triggers@.map_values(|t: TriggerSetting| t@),
        }
    }
}

/// The first member of an object that goes by the name `key`.
pub open spec fn member(members: Seq<(String, Json)>, key: Seq<char>) -> Option<Json>
    decreases members.len(),
{
    if members.len() == 0 {
        None
    } else if members[0].0@ == key {
        Some(members[0].1)
    } else {
        member(members.drop_first(), key)
    }
}

/// The truth value that a member holds, if it is there and holds one.
pub open spec fn flag(value: Option<Json>) -> Option<bool> {
    match value {
        Some(Json::Bool(b)) => Some(b),
        _ => None,
    }
}

/// The text that a member holds, if it is there and holds one.
pub open spec fn text(value: Option<Json>) -> Option<Seq<char>> {
    match value {
        Some(Json::Text(t)) => Some(t@),
        _ => None,
    }
}

/// The truth value of a switch that may be left out: `false` where it is
/// left out, and nothing where the member holds something else than a
/// truth value.
pub open spec fn switch(value: Option<Json>) -> Option<bool> {
    match value {
        None => Some(false),
        Some(Json::Bool(b)) => Some(b),
        Some(_) => None,
    }
}

/// The settings of one feed: an object with the feed's `url` and, if it
/// likes, the two switches.
pub open spec fn feed_of(value: Json) -> Option<FeedConfigView> {
    match value {
        Json::Object(members) => match (
            text(member(members@, "url"@)),
            switch(member(members@, "should_omit_date_field_from_hash"@)),
            switch(member(members@, "is_golang_blog_mode"@)),
        ) {
            (Some(url), Some(omit), Some(rewrite)) => Some(
                FeedConfigView {
                    url,
                    should_omit_date_field_from_hash: omit,
                    is_golang_blog_mode: rewrite,
                },
            ),
            _ => None,
        },
        _ => None,
    }
}

/// The settings of the feeds of a list, if each entry gives them.
pub open spec fn feeds_of(list: Seq<Json>) -> Option<Seq<FeedConfigView>>
    decreases list.len(),
{
    if list.len() == 0 {
        Some(Seq::empty())
    } else {
        match (feeds_of(list.drop_last()), feed_of(list.last())) {
            (Some(feeds), Some(feed)) => Some(feeds.push(feed)),
            _ => None,
        }
    }
}

/// What one member of the `triggers` object says: a channel to switch on,
/// none where the channel is not enabled, and nothing at all where the
/// member is not understood. The webhook address is asked for only where
/// the webhook channel is enabled.
pub open spec fn trigger_of(name: Seq<char>, value: Json) -> Option<Option<TriggerSettingView>> {
    match value {
        Json::Object(members) => if name == "discord"@ {
            match flag(member(members@, "enabled"@)) {
                Some(true) => match text(member(members@, "webhook_url"@)) {
                    Some(webhook_url) => Some(Some(TriggerSettingView::Discord { webhook_url })),
                    None => None,
                },
                Some(false) => Some(None),
                None => None,
            }
        } else if name == "twitter"@ {
            match flag(member(members@, "enabled"@)) {
                Some(true) => Some(Some(TriggerSettingView::Twitter)),
                Some(false) => Some(None),
                None => None,
            }
        } else {
            None
        },
        _ => None,
    }
}

/// The channels that the members of the `triggers` object switch on, in
/// the order of the members, if each member is understood.
pub open spec fn triggers_of(members: Seq<(String, Json)>) -> Option<Seq<TriggerSettingView>>
    decreases members.len(),
{
    if members.len() == 0 {
        Some(Seq::empty())
    } else {
        match (
            triggers_of(members.drop_last()),
            trigger_of(members.last().0@, members.last().1),
        ) {
            (Some(triggers), Some(Some(trigger))) => Some(triggers.push(trigger)),
            (Some(triggers), Some(None)) => Some(triggers),
            _ => None,
        }
    }
}

/// What a settings document says, if it is an object that holds a truth
/// value `should_log_debug`, a text `database_file`, a list
/// `feed_config_list` of feeds and an object `triggers` of channels, all
/// of them understood.
pub open spec fn settings_of(document: Json) -> Option<SettingsView> {
    match document {
        Json::Object(members) => match (
            flag(member(members@, "should_log_debug"@)),
            text(member(members@, "database_file"@)),
            member(members@, "feed_config_list"@),
            member(members@, "triggers"@),
        ) {
            (
                Some(should_log_debug),
                Some(database_file),
                Some(Json::Array(list)),
                Some(Json::Object(channels)),
            ) => match (feeds_of(list@), triggers_of(channels@)) {
                (Some(feed_config_list), Some(triggers)) => Some(
                    SettingsView { should_log_debug, database_file, feed_config_list, triggers },
                ),
                _ => None,
            },
            _ => None,
        },
        _ => None,
    }
}

/// Looks up the first member of an object that goes by the name `key`.
pub fn find<'a>(members: &'a Vec<(String, Json)>, key: &str) -> (value: Option<&'a Json>)
    ensures
        match value {
            Some(v) => member(members@, key@) == Some(*v),
            None => member(members@, key@) is None,
        },
{
    let wanted = String::from_str(key);
    let mut i: usize = 0;
    assert(members@.skip(0) =~= members@);
    while i < members.len()
        invariant
            i <= members.len(),
            wanted@ == key@,
            member(members@, key@) == member(members@.skip(i as int), key@),
        decreases members.len() - i,
    {
        assert(members@.skip(i as int)[0] == members@[i as int]);
        assert(members@.skip(i as int).drop_first() =~= members@.skip(i + 1));
        if members[i].0 == wanted {
            return Some(&members[i].1);
        }
        i = i + 1;
    }
    None
}

fn read_flag(value: Option<&Json>) -> (r: Option<bool>)
    ensures
        r == flag(
            match value {
                Some(v) => Some(*v),
                None => None,
            },
        ),
{
    match value {
        Some(Json::Bool(b)) => Some(*b),
        _ => None,
    }
}

fn read_text<'a>(value: Option<&'a Json>) -> (r: Option<&'a String>)
    ensures
        match r {
            Some(t) => Some(t@),
            None => None,
        } == text(
            match value {
                Some(v) => Some(*v),
                None => None,
            },
        ),
{
    match value {
        Some(Json::Text(t)) => Some(t),
        _ => None,
    }
}

fn read_switch(value: Option<&Json>) -> (r: Option<bool>)
    ensures
        r == switch(
            match value {
                Some(v) => Some(*v),
                None => None,
            },
        ),
{
    match value {
        None => Some(false),
        Some(Json::Bool(b)) => Some(*b),
        Some(_) => None,
    }
}

/// Reads the settings of one feed.
pub fn read_feed(value: &Json) -> (r: Option<FeedConfig>)
    ensures
        match r {
            Some(config) => feed_of(*value) == Some(config@),
            None => feed_of(*value) is None,
        },
{
    match value {
        Json::Object(members) => {
            let url = read_text(find(members, "url"));
            let omit = read_switch(find(members, "should_omit_date_field_from_hash"));
            let rewrite = read_switch(find(members, "is_golang_blog_mode"));
            match (url, omit, rewrite) {
                (Some(url), Some(omit), Some(rewrite)) => {
                    let mut config = FeedConfig::new(url.as_str());
                    config.should_omit_date_field_from_hash = omit;
                    config.is_golang_blog_mode = rewrite;
                    Some(config)
                },
                _ => None,
            }
        },
        _ => None,
    }
}

/// Reads what one member of the `triggers` object says.
pub fn read_trigger(name: &String, value: &Json) -> (r: Option<Option<TriggerSetting>>)
    ensures
        match r {
            Some(Some(trigger)) => trigger_of(name@, *value) == Some(Some(trigger@)),
            Some(None) => trigger_of(name@, *value) == Some(None::<TriggerSettingView>),
            None => trigger_of(name@, *value) is None,
        },
{
    match value {
        Json::Object(members) => {
            if *name == String::from_str("discord") {
                match read_flag(find(members, "enabled")) {
                    Some(true) => match read_text(find(members, "webhook_url")) {
                        Some(webhook_url) => Some(
                            Some(TriggerSetting::Discord { webhook_url: webhook_url.clone() }),
                        ),
                        None => None,
                    },
                    Some(false) => Some(None),
                    None => None,
                }
            } else if *name == String::from_str("twitter") {
                match read_flag(find(members, "enabled")) {
                    Some(true) => Some(Some(TriggerSetting::Twitter)),
                    Some(false) => Some(None),
                    None => None,
                }
            } else {
                None
            }
        },
        _ => None,
    }
}

/// Reads the settings of a list of feeds.
pub fn read_feeds(list: &Vec<Json>) -> (r: Option<Vec<FeedConfig>>)
    ensures
        match r {
            Some(feeds) => feeds_of(list@) == Some(feeds@.map_values(|c: FeedConfig| c@)),
            None => feeds_of(list@) is None,
        },
{
    let mut feeds: Vec<FeedConfig> = Vec::new();
    let mut i: usize = 0;
    assert(list@.take(0) =~= Seq::<Json>::empty());
    assert(feeds@.map_values(|c: FeedConfig| c@) =~= Seq::<FeedConfigView>::empty());
    while i < list.len()
        invariant
            i <= list.len(),
            feeds_of(list@.take(i as int)) == Some(feeds@.map_values(|c: FeedConfig| c@)),
        decreases list.len() - i,
    {
        let ghost before = feeds@.map_values(|c: FeedConfig| c@);
        assert(list@.take(i + 1).drop_last() =~= list@.take(i as int));
        assert(list@.take(i + 1).last() == list@[i as int]);
        match read_feed(&list[i]) {
            Some(feed) => {
                feeds.push(feed);
                assert(feeds@.map_values(|c: FeedConfig| c@) =~= before.push(feed@));
            },
            None => {
                proof {
                    lemma_feeds_fail_later(list@, i + 1);
                }
                return None;
            },
        }
        i = i + 1;
    }
    assert(list@.take(list.len() as int) =~= list@);
    Some(feeds)
}

/// A list whose beginning is not understood is not understood.
proof fn lemma_feeds_fail_later(list: Seq<Json>, upto: int)
    requires
        0 <= upto <= list.len(),
        feeds_of(list.take(upto)) is None,
    ensures
        feeds_of(list) is None,
    decreases list.len() - upto,
{
    if upto < list.len() {
        assert(list.take(upto + 1).drop_last() =~= list.take(upto));
        lemma_feeds_fail_later(list, upto + 1);
    } else {
        assert(list.take(upto) =~= list);
    }
}

/// Reads the channels that the `triggers` object switches on.
pub fn read_triggers(members: &Vec<(String, Json)>) -> (r: Option<Vec<TriggerSetting>>)
    ensures
        match r {
            Some(triggers) => triggers_of(members@) == Some(
                triggers@.map_values(|t: TriggerSetting| t@),
            ),
            None => triggers_of(members@) is None,
        },
{
    let mut triggers: Vec<TriggerSetting> = Vec::new();
    let mut i: usize = 0;
    assert(members@.take(0) =~= Seq::<(String, Json)>::empty());
    assert(triggers@.map_values(|t: TriggerSetting| t@) =~= Seq::<TriggerSettingView>::empty());
    while i < members.len()
        invariant
            i <= members.len(),
            triggers_of(members@.take(i as int)) == Some(
                triggers@.map_values(|t: TriggerSetting| t@),
            ),
        decreases members.len() - i,
    {
        let ghost before = triggers@.map_values(|t: TriggerSetting| t@);
        assert(members@.take(i + 1).drop_last() =~= members@.take(i as int));
        assert(members@.take(i + 1).last() == members@[i as int]);
        match read_trigger(&members[i].0, &members[i].1) {
            Some(Some(trigger)) => {
                triggers.push(trigger);
                assert(triggers@.map_values(|t: TriggerSetting| t@) =~= before.push(trigger@));
            },
            Some(None) => {},
            None => {
                proof {
                    lemma_triggers_fail_later(members@, i + 1);
                }
                return None;
            },
        }
        i = i + 1;
    }
    assert(members@.take(members.len() as int) =~= members@);
    Some(triggers)
}

/// An object whose beginning is not understood is not understood.
proof fn lemma_triggers_fail_later(members: Seq<(String, Json)>, upto: int)
    requires
        0 <= upto <= members.len(),
        triggers_of(members.take(upto)) is None,
    ensures
        triggers_of(members) is None,
    decreases members.len() - upto,
{
    if upto < members.len() {
        assert(members.take(upto + 1).drop_last() =~= members.take(upto));
        lemma_triggers_fail_later(members, upto + 1);
    } else {
        assert(members.take(upto) =~= members);
    }
}

/// Reads a settings document.
pub fn read_settings(document: &Json) -> (r: Option<Settings>)
    ensures
        match r {
            Some(settings) => settings_of(*document) == Some(settings@),
            None => settings_of(*document) is None,
        },
{
    match document {
        Json::Object(members) => {
            let should_log_debug = read_flag(find(members, "should_log_debug"));
            let database_file = read_text(find(members, "database_file"));
            let feeds = find(members, "feed_config_list");
            let channels = find(members, "triggers");
            match (should_log_debug, database_file, feeds, channels) {
                (
                    Some(should_log_debug),
                    Some(database_file),
                    Some(Json::Array(list)),
                    Some(Json::Object(channels)),
                ) => match (read_feeds(list), read_triggers(channels)) {
                    (Some(feed_config_list), Some(triggers)) => Some(
                        Settings {
                            should_log_debug,
                            database_file: database_file.clone(),
                            feed_config_list,
                            triggers,
                        },
                    ),
                    _ => None,
                },
                _ => None,
            }
        },
        _ => None,
    }
}

} // verus!
