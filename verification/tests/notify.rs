use rsst::command::CommandOutput;
use rsst::config::Config;
use rsst::discord::content;
use rsst::feedconfig::FeedConfig;
use rsst::trigger::copy_text;
use rsst::trigger::Trigger;
use rsst::trigger::TriggerError;
use rsst::trigger::TriggerInfo;
use rsst::twitter::append_or_empty;
use rsst::twitter::TwitterNotification;

struct Silent;

impl Trigger for Silent {
    fn pull_trigger(&self, _trigger_info: &TriggerInfo) -> Result<(), TriggerError> {
        Ok(())
    }
}

fn some(text: &str) -> Option<String> {
    Some(text.to_string())
}

fn output(exit_status: i32) -> CommandOutput {
    CommandOutput { stdout: "out".to_string(), stderr: "err".to_string(), exit_status }
}

#[test]
fn trigger_info_keeps_its_four_fields() {
    let info = TriggerInfo::new(&some("t"), &some("l"), &None, &some("d"));
    assert_eq!(info.get_title(), &some("t"));
    assert_eq!(info.get_link(), &some("l"));
    assert_eq!(info.get_description(), &None);
    assert_eq!(info.get_pub_date(), &some("d"));
    assert_eq!(copy_text(&some("x")), some("x"));
    assert_eq!(copy_text(&None), None);
}

#[test]
fn webhook_message_names_title_link_and_date() {
    let info = TriggerInfo::new(&some("t"), &some("l"), &some("s"), &some("d"));
    assert_eq!(content(&info), "--------------------\nTitle: t\nLink: l\nDate: d");
}

#[test]
fn webhook_message_leaves_missing_fields_empty() {
    let info = TriggerInfo::new(&None, &some("l"), &None, &None);
    assert_eq!(content(&info), "--------------------\nTitle: \nLink: l\nDate: ");
}

#[test]
fn script_reads_title_and_link() {
    let channel = TwitterNotification::new();
    let info = TriggerInfo::new(&some("t"), &some("l"), &some("s"), &some("d"));
    assert_eq!(channel.script_input(&info), "t\nl");
    let info = TriggerInfo::new(&None, &None, &some("s"), &some("d"));
    assert_eq!(channel.script_input(&info), "\n");
}

#[test]
fn script_delivered_when_it_ended_with_status_zero() {
    let channel = TwitterNotification::new();
    assert!(channel.judge(&output(0)).is_ok());
    assert!(channel.judge(&output(1)).is_err());
    assert!(channel.judge(&output(-1)).is_err());
}

#[test]
fn a_missing_text_adds_nothing() {
    let mut target = String::from("a");
    append_or_empty(&mut target, &None);
    assert_eq!(target, "a");
    append_or_empty(&mut target, &some("b"));
    assert_eq!(target, "ab");
}

#[test]
fn complete_settings_are_put_together() {
    let triggers: Vec<Box<dyn Trigger>> = vec![Box::new(Silent)];
    let feeds = vec![FeedConfig::new("http://example.org/a"), FeedConfig::new("http://example.org/b")];
    let config = Config::assemble(true, "db.sqlite".to_string(), triggers, feeds).unwrap();
    assert_eq!(*config.get_should_log_debug(), true);
    assert_eq!(config.get_database_file(), "db.sqlite");
    assert_eq!(config.get_trigger_list().len(), 1);
    assert_eq!(config.get_feed_config_list().len(), 2);
    assert_eq!(config.get_feed_config_list()[1].get_url(), "http://example.org/b");
}

#[test]
fn incomplete_settings_are_refused() {
    let one: fn() -> Vec<Box<dyn Trigger>> = || vec![Box::new(Silent)];
    let feeds = || vec![FeedConfig::new("http://example.org/a")];
    assert!(Config::assemble(false, String::new(), one(), feeds()).is_none());
    assert!(Config::assemble(false, "db".to_string(), Vec::new(), feeds()).is_none());
    assert!(Config::assemble(false, "db".to_string(), one(), Vec::new()).is_none());
    assert!(Config::assemble(false, "db".to_string(), one(), feeds()).is_some());
}
