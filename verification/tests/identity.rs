use rsst::atom::Atom;
use rsst::digest::decimal_string;
use rsst::digest::finish_hash;
use rsst::digest::write_optional_text;
use rsst::digest::write_text;
use rsst::feedconfig::FeedConfig;
use rsst::rss::Rss;
use std::collections::hash_map::DefaultHasher;
use std::hash::Hash;
use std::hash::Hasher;

fn config(omit_date: bool) -> FeedConfig {
    let mut cfg = FeedConfig::new("http://example.org/feed");
    cfg.should_omit_date_field_from_hash = omit_date;
    cfg
}

fn rss_item(title: &str, link: &str, description: &str, date: &str) -> String {
    format!(
        "<rss><channel><title>T</title><link>L</link><item><title>{}</title><link>{}</link><description>{}</description><pubDate>{}</pubDate></item></channel></rss>",
        title, link, description, date
    )
}

fn atom_entry(title: &str, id: &str, summary: &str, date: &str) -> String {
    format!(
        "<feed><title>T</title><id>L</id><entry><title>{}</title><id>{}</id><summary>{}</summary><updated>{}</updated></entry></feed>",
        title, id, summary, date
    )
}

fn rss_item_hash(xml: &str, omit_date: bool) -> String {
    Rss::new(xml, &config(omit_date)).unwrap().get_item_list()[0].hash_code()
}

fn atom_entry_hash(xml: &str, omit_date: bool) -> String {
    Atom::new(xml, &config(omit_date)).unwrap().get_entry_list()[0].hash_code()
}

#[test]
fn numbers_are_written_in_decimal() {
    assert_eq!(decimal_string(0), "0");
    assert_eq!(decimal_string(7), "7");
    assert_eq!(decimal_string(10), "10");
    assert_eq!(decimal_string(1234567890), "1234567890");
    assert_eq!(decimal_string(u64::MAX), "18446744073709551615");
    assert_eq!(decimal_string(9000000000000000009), 9000000000000000009u64.to_string());
}

#[test]
fn a_text_is_hashed_as_std_hashes_a_string() {
    let mut ours = DefaultHasher::new();
    write_text(&mut ours, "héllo");
    let mut theirs = DefaultHasher::new();
    "héllo".to_string().hash(&mut theirs);
    assert_eq!(finish_hash(&ours), theirs.finish().to_string());
}

#[test]
fn an_optional_text_is_hashed_as_std_hashes_an_optional_string() {
    let present = Some("U1".to_string());
    let absent: Option<String> = None;
    let mut ours = DefaultHasher::new();
    write_optional_text(&mut ours, &present);
    write_optional_text(&mut ours, &absent);
    let mut theirs = DefaultHasher::new();
    present.hash(&mut theirs);
    absent.hash(&mut theirs);
    assert_eq!(finish_hash(&ours), theirs.finish().to_string());
}

#[test]
fn a_missing_text_and_an_empty_text_hash_apart() {
    let mut a = DefaultHasher::new();
    write_optional_text(&mut a, &None);
    let mut b = DefaultHasher::new();
    write_optional_text(&mut b, &Some(String::new()));
    assert_ne!(finish_hash(&a), finish_hash(&b));
}

#[test]
fn texts_hash_apart_wherever_the_cut_falls() {
    let mut a = DefaultHasher::new();
    write_text(&mut a, "ab");
    write_text(&mut a, "c");
    let mut b = DefaultHasher::new();
    write_text(&mut b, "a");
    write_text(&mut b, "bc");
    assert_ne!(finish_hash(&a), finish_hash(&b));
}

#[test]
fn rss_feed_hash_covers_title_and_link() {
    let rss = Rss::new(&rss_item("I1", "U1", "S1", "D1"), &config(false)).unwrap();
    let mut hasher = DefaultHasher::new();
    "T".to_string().hash(&mut hasher);
    "L".to_string().hash(&mut hasher);
    assert_eq!(rss.hash_code(), hasher.finish().to_string());
}

#[test]
fn rss_feed_hash_ignores_items_and_description() {
    let one = Rss::new(&rss_item("I1", "U1", "S1", "D1"), &config(false)).unwrap();
    let none = Rss::new(
        "<rss><channel><title>T</title><description>new words</description><link>L</link></channel></rss>",
        &config(true),
    )
    .unwrap();
    assert_eq!(one.hash_code(), none.hash_code());
    let other = Rss::new("<rss><channel><title>T</title><link>M</link></channel></rss>", &config(false))
        .unwrap();
    assert_ne!(one.hash_code(), other.hash_code());
}

#[test]
fn rss_item_hash_covers_title_link_and_date() {
    let hash = rss_item_hash(&rss_item("I1", "U1", "S1", "D1"), false);
    let mut hasher = DefaultHasher::new();
    Some("I1".to_string()).hash(&mut hasher);
    Some("U1".to_string()).hash(&mut hasher);
    Some("D1".to_string()).hash(&mut hasher);
    assert_eq!(hash, hasher.finish().to_string());
}

#[test]
fn rss_item_hash_without_date_covers_title_and_link() {
    let hash = rss_item_hash(&rss_item("I1", "U1", "S1", "D1"), true);
    let mut hasher = DefaultHasher::new();
    Some("I1".to_string()).hash(&mut hasher);
    Some("U1".to_string()).hash(&mut hasher);
    assert_eq!(hash, hasher.finish().to_string());
}

#[test]
fn rss_item_hash_of_missing_fields() {
    let rss = Rss::new("<rss><channel><item><link>U</link></item></channel></rss>", &config(false)).unwrap();
    let mut hasher = DefaultHasher::new();
    None::<String>.hash(&mut hasher);
    Some("U".to_string()).hash(&mut hasher);
    None::<String>.hash(&mut hasher);
    assert_eq!(rss.get_item_list()[0].hash_code(), hasher.finish().to_string());
}

#[test]
fn decoding_twice_gives_the_same_hashes() {
    let xml = rss_item("I1", "U1", "S1", "D1");
    let first = Rss::new(&xml, &config(false)).unwrap();
    let second = Rss::new(&xml, &config(false)).unwrap();
    assert_eq!(first.hash_code(), second.hash_code());
    assert_eq!(first.get_item_list()[0].hash_code(), second.get_item_list()[0].hash_code());
    let xml = atom_entry("I1", "U1", "S1", "D1");
    let first = Atom::new(&xml, &config(false)).unwrap();
    let second = Atom::new(&xml, &config(false)).unwrap();
    assert_eq!(first.hash_code(), second.hash_code());
    assert_eq!(first.get_entry_list()[0].hash_code(), second.get_entry_list()[0].hash_code());
}

#[test]
fn rss_date_is_left_out_of_the_hash_on_request() {
    let a = rss_item("I1", "U1", "S1", "D1");
    let b = rss_item("I1", "U1", "S1", "D2");
    assert_eq!(rss_item_hash(&a, true), rss_item_hash(&b, true));
    assert_ne!(rss_item_hash(&a, false), rss_item_hash(&b, false));
}

#[test]
fn atom_date_is_left_out_of_the_hash_on_request() {
    let a = atom_entry("I1", "U1", "S1", "D1");
    let b = atom_entry("I1", "U1", "S1", "D2");
    assert_eq!(atom_entry_hash(&a, true), atom_entry_hash(&b, true));
    assert_ne!(atom_entry_hash(&a, false), atom_entry_hash(&b, false));
}

#[test]
fn rss_description_is_never_hashed() {
    let a = rss_item("I1", "U1", "S1", "D1");
    let b = rss_item("I1", "U1", "other words", "D1");
    assert_eq!(rss_item_hash(&a, false), rss_item_hash(&b, false));
    assert_eq!(rss_item_hash(&a, true), rss_item_hash(&b, true));
}

#[test]
fn atom_summary_and_content_are_never_hashed() {
    let a = atom_entry("I1", "U1", "S1", "D1");
    let b = "<feed><title>T</title><id>L</id><entry><title>I1</title><id>U1</id><content>body</content><updated>D1</updated></entry></feed>";
    assert_eq!(atom_entry_hash(&a, false), atom_entry_hash(b, false));
    assert_eq!(atom_entry_hash(&a, true), atom_entry_hash(b, true));
}

#[test]
fn title_and_link_are_always_hashed() {
    let a = rss_item("I1", "U1", "S1", "D1");
    assert_ne!(rss_item_hash(&a, true), rss_item_hash(&rss_item("I2", "U1", "S1", "D1"), true));
    assert_ne!(rss_item_hash(&a, true), rss_item_hash(&rss_item("I1", "U2", "S1", "D1"), true));
    let a = atom_entry("I1", "U1", "S1", "D1");
    assert_ne!(atom_entry_hash(&a, true), atom_entry_hash(&atom_entry("I2", "U1", "S1", "D1"), true));
    assert_ne!(atom_entry_hash(&a, true), atom_entry_hash(&atom_entry("I1", "U2", "S1", "D1"), true));
}

#[test]
fn atom_hashes_cover_title_and_id() {
    let atom = Atom::new(&atom_entry("I1", "U1", "S1", "D1"), &config(false)).unwrap();
    let mut hasher = DefaultHasher::new();
    "T".to_string().hash(&mut hasher);
    "L".to_string().hash(&mut hasher);
    assert_eq!(atom.hash_code(), hasher.finish().to_string());
    let mut hasher = DefaultHasher::new();
    "I1".to_string().hash(&mut hasher);
    "U1".to_string().hash(&mut hasher);
    "D1".to_string().hash(&mut hasher);
    assert_eq!(atom.get_entry_list()[0].hash_code(), hasher.finish().to_string());
}

#[test]
fn atom_hash_follows_the_rewritten_id() {
    let mut cfg = config(false);
    cfg.is_golang_blog_mode = true;
    let legacy = Atom::new(&atom_entry("I1", "tag:blog.golang.org,2013:foo", "S", "D1"), &cfg).unwrap();
    let moved = Atom::new(&atom_entry("I1", "https://foo", "S", "D1"), &cfg).unwrap();
    assert_eq!(legacy.get_entry_list()[0].hash_code(), moved.get_entry_list()[0].hash_code());
}

#[test]
fn records_carry_the_hashes_and_the_fields() {
    let rss = Rss::new(&rss_item("I1", "U1", "S1", "D1"), &config(false)).unwrap();
    let record = rss.record();
    assert_eq!(record.hash, rss.hash_code());
    assert_eq!(record.title, "T");
    assert_eq!(record.link, "L");
    assert_eq!(record.items.len(), 1);
    assert_eq!(record.items[0].hash, rss.get_item_list()[0].hash_code());
    assert_eq!(record.items[0].info.get_title(), &Some("I1".to_string()));
    assert_eq!(record.items[0].info.get_link(), &Some("U1".to_string()));
    assert_eq!(record.items[0].info.get_description(), &Some("S1".to_string()));
    assert_eq!(record.items[0].info.get_pub_date(), &Some("D1".to_string()));
    let item = rss.get_item_list()[0].record();
    assert_eq!(item.hash, record.items[0].hash);

    let atom = Atom::new(&atom_entry("I1", "U1", "S1", "D1"), &config(false)).unwrap();
    let record = atom.record();
    assert_eq!(record.hash, atom.hash_code());
    assert_eq!(record.link, "L");
    assert_eq!(record.items[0].hash, atom.get_entry_list()[0].hash_code());
    assert_eq!(record.items[0].info.get_title(), &Some("I1".to_string()));
    assert_eq!(record.items[0].info.get_link(), &Some("U1".to_string()));
    assert_eq!(record.items[0].info.get_description(), &Some("S1".to_string()));
    assert_eq!(record.items[0].info.get_pub_date(), &Some("D1".to_string()));
}

#[test]
fn hashes_of_a_small_feed() {
    let xml = rss_item("I1", "U1", "S1", "D1");
    let feed = Rss::new(&xml, &config(false)).unwrap();
    assert_eq!(feed.hash_code(), "9635557581724454091");
    assert_eq!(feed.get_item_list()[0].hash_code(), "9707888798083239940");
    assert_eq!(rss_item_hash(&xml, true), "10841729236582362942");
    let xml = atom_entry("I1", "U1", "S1", "D1");
    let feed = Atom::new(&xml, &config(true)).unwrap();
    assert_eq!(feed.hash_code(), "9635557581724454091");
    assert_eq!(feed.get_entry_list()[0].hash_code(), "12561419930864065319");
}
