use rsst::config::drop_marked;
use rsst::config::join_lines;
use rsst::config::strip_comments;
use rsst::settings::find;
use rsst::settings::read_feed;
use rsst::settings::read_feeds;
use rsst::settings::read_settings;
use rsst::settings::read_trigger;
use rsst::settings::read_triggers;
use rsst::settings::Json;
use rsst::settings::TriggerSetting;

fn lines(list: &[&str]) -> Vec<String> {
    list.iter().map(|s| s.to_string()).collect()
}

fn text(s: &str) -> Json {
    Json::Text(s.to_string())
}

fn object(members: Vec<(&str, Json)>) -> Json {
    Json::Object(members.into_iter().map(|(k, v)| (k.to_string(), v)).collect())
}

fn members(members: Vec<(&str, Json)>) -> Vec<(String, Json)> {
    members.into_iter().map(|(k, v)| (k.to_string(), v)).collect()
}

fn feed(url: &str) -> Json {
    object(vec![("url", text(url))])
}

fn document(feeds: Json, triggers: Json) -> Json {
    object(vec![
        ("should_log_debug", Json::Bool(true)),
        ("database_file", text("db.sqlite")),
        ("feed_config_list", feeds),
        ("triggers", triggers),
    ])
}

fn discord(enabled: bool) -> Json {
    object(vec![("enabled", Json::Bool(enabled)), ("webhook_url", text("http://hook"))])
}

fn twitter(enabled: bool) -> Json {
    object(vec![("enabled", Json::Bool(enabled))])
}

#[test]
fn comment_lines_are_left_out() {
    let file = lines(&["# settings", "{", "  # indented comment", "  \"a\": \"#1\",", "\t#", "}"]);
    assert_eq!(strip_comments(&file), Some("{\n  \"a\": \"#1\",\n}".to_string()));
}

#[test]
fn lines_without_comments_are_joined() {
    assert_eq!(strip_comments(&lines(&["a", "", "b"])), Some("a\n\nb".to_string()));
    assert_eq!(strip_comments(&lines(&[])), Some(String::new()));
    assert_eq!(strip_comments(&lines(&["only"])), Some("only".to_string()));
    assert_eq!(strip_comments(&lines(&["#", "#"])), Some(String::new()));
    assert_eq!(strip_comments(&lines(&["x # not a comment"])), Some("x # not a comment".to_string()));
}

#[test]
fn lines_are_joined_with_line_breaks() {
    assert_eq!(join_lines(&lines(&[])), "");
    assert_eq!(join_lines(&lines(&["a"])), "a");
    assert_eq!(join_lines(&lines(&["a", "b", "c"])), "a\nb\nc");
    assert_eq!(join_lines(&lines(&["", ""])), "\n");
}

#[test]
fn marked_lines_are_dropped() {
    let file = lines(&["a", "b", "c"]);
    assert_eq!(drop_marked(&file, &vec![false, true, false]), lines(&["a", "c"]));
    assert_eq!(drop_marked(&file, &vec![true]), lines(&["b", "c"]));
    assert_eq!(drop_marked(&file, &vec![]), file);
    assert_eq!(drop_marked(&file, &vec![true, true, true, true]), lines(&[]));
}

#[test]
fn first_member_of_a_name_is_found() {
    let list = members(vec![("a", Json::Bool(true)), ("b", Json::Null), ("a", Json::Number)]);
    assert!(matches!(find(&list, "a"), Some(Json::Bool(true))));
    assert!(matches!(find(&list, "b"), Some(Json::Null)));
    assert!(find(&list, "c").is_none());
    assert!(find(&members(vec![]), "a").is_none());
}

#[test]
fn feed_settings_default_to_no_switch() {
    let config = read_feed(&feed("http://a")).unwrap();
    assert_eq!(config.get_url(), "http://a");
    assert!(!config.should_omit_date_field_from_hash);
    assert!(!config.is_golang_blog_mode);
}

#[test]
fn feed_settings_take_the_switches() {
    let config = read_feed(&object(vec![
        ("is_golang_blog_mode", Json::Bool(true)),
        ("url", text("http://a")),
        ("should_omit_date_field_from_hash", Json::Bool(true)),
    ]))
    .unwrap();
    assert!(config.should_omit_date_field_from_hash);
    assert!(config.is_golang_blog_mode);
}

#[test]
fn feed_settings_that_are_not_understood_are_refused() {
    assert!(read_feed(&object(vec![])).is_none());
    assert!(read_feed(&object(vec![("url", Json::Number)])).is_none());
    assert!(read_feed(&text("http://a")).is_none());
    assert!(read_feed(&object(vec![("url", text("u")), ("is_golang_blog_mode", text("yes"))])).is_none());
    assert!(read_feed(&object(vec![("url", text("u")), ("should_omit_date_field_from_hash", Json::Null)]))
        .is_none());
    let urls: Vec<String> = read_feeds(&vec![feed("a"), feed("b")])
        .unwrap()
        .iter()
        .map(|c| c.get_url().to_string())
        .collect();
    assert_eq!(urls, lines(&["a", "b"]));
    assert!(read_feeds(&vec![feed("a"), Json::Null, feed("b")]).is_none());
    assert!(read_feeds(&vec![]).unwrap().is_empty());
}

#[test]
fn enabled_channels_are_switched_on() {
    assert!(matches!(
        read_trigger(&"discord".to_string(), &discord(true)),
        Some(Some(TriggerSetting::Discord { webhook_url })) if webhook_url == "http://hook"
    ));
    assert!(matches!(read_trigger(&"twitter".to_string(), &twitter(true)), Some(Some(TriggerSetting::Twitter))));
    assert!(matches!(read_trigger(&"discord".to_string(), &discord(false)), Some(None)));
    assert!(matches!(read_trigger(&"twitter".to_string(), &twitter(false)), Some(None)));
    assert!(matches!(read_trigger(&"discord".to_string(), &twitter(false)), Some(None)));
}

#[test]
fn channels_that_are_not_understood_are_refused() {
    assert!(read_trigger(&"discord".to_string(), &twitter(true)).is_none());
    assert!(read_trigger(&"discord".to_string(), &object(vec![])).is_none());
    assert!(read_trigger(&"twitter".to_string(), &Json::Bool(true)).is_none());
    assert!(read_trigger(&"mail".to_string(), &twitter(true)).is_none());
    assert!(read_triggers(&members(vec![("twitter", twitter(true)), ("mail", twitter(true))])).is_none());
}

#[test]
fn channels_come_in_the_order_of_the_document() {
    let list = read_triggers(&members(vec![
        ("twitter", twitter(true)),
        ("discord", discord(false)),
        ("discord", discord(true)),
    ]))
    .unwrap();
    assert_eq!(list.len(), 2);
    assert!(matches!(list[0], TriggerSetting::Twitter));
    assert!(matches!(list[1], TriggerSetting::Discord { .. }));
    assert!(read_triggers(&members(vec![])).unwrap().is_empty());
}

#[test]
fn settings_document_is_read() {
    let settings = read_settings(&document(
        Json::Array(vec![feed("http://a"), feed("http://b")]),
        object(vec![("discord", discord(true)), ("twitter", twitter(false))]),
    ))
    .unwrap();
    assert!(settings.should_log_debug);
    assert_eq!(settings.database_file, "db.sqlite");
    assert_eq!(settings.feed_config_list.len(), 2);
    assert_eq!(settings.feed_config_list[1].get_url(), "http://b");
    assert_eq!(settings.triggers.len(), 1);
}

#[test]
fn settings_document_that_is_not_understood_is_refused() {
    let feeds = || Json::Array(vec![feed("http://a")]);
    let triggers = || object(vec![("twitter", twitter(true))]);
    assert!(read_settings(&document(feeds(), triggers())).is_some());
    assert!(read_settings(&Json::Array(vec![])).is_none());
    assert!(read_settings(&object(vec![])).is_none());
    assert!(read_settings(&document(feed("http://a"), triggers())).is_none());
    assert!(read_settings(&document(feeds(), Json::Array(vec![]))).is_none());
    assert!(read_settings(&document(Json::Array(vec![Json::Null]), triggers())).is_none());
    assert!(read_settings(&document(feeds(), object(vec![("mail", twitter(true))]))).is_none());
    assert!(read_settings(&object(vec![
        ("should_log_debug", text("true")),
        ("database_file", text("db.sqlite")),
        ("feed_config_list", feeds()),
        ("triggers", triggers()),
    ]))
    .is_none());
    assert!(read_settings(&object(vec![
        ("should_log_debug", Json::Bool(false)),
        ("feed_config_list", feeds()),
        ("triggers", triggers()),
    ]))
    .is_none());
}
