use rsst::atom::rewrite_legacy_id;
use rsst::atom::Atom;
use rsst::error::DecodeError;
use rsst::feed::decode;
use rsst::feed::Feed;
use rsst::feedconfig::FeedConfig;
use rsst::feedtype::FeedType;
use rsst::feedurl::FeedUrl;
use rsst::rss::Rss;
use rsst::xml::is_named;
use rsst::xml::TokenStream;
use rsst::xml::XmlEvent;

fn config() -> FeedConfig {
    FeedConfig::new("http://example.org/feed")
}

fn some(text: &str) -> Option<String> {
    Some(text.to_string())
}

fn start(name: &str) -> XmlEvent {
    XmlEvent::Start(name.as_bytes().to_vec())
}

fn text(text: &str) -> XmlEvent {
    XmlEvent::Text(text.to_string())
}

const RSS_TWO_ITEMS: &str = "<?xml version=\"1.0\"?>
<rss version=\"2.0\">
  <channel>
    <title>T</title>
    <link>L</link>
    <description>about T</description>
    <item><title>I1</title><link>U1</link><description>S1</description><pubDate>D1</pubDate></item>
    <item><title>I2</title><link>U2</link><pubDate>D2</pubDate></item>
  </channel>
</rss>";

const ATOM_ONE_ENTRY: &str = "<?xml version=\"1.0\" encoding=\"utf-8\"?>
<feed xmlns=\"http://www.w3.org/2005/Atom\">
  <title>The Blog</title>
  <link href=\"http://example.org/\"/>
  <updated>2013-01-01T00:00:00Z</updated>
  <id>urn:blog</id>
  <entry>
    <title>First</title>
    <id>tag:blog.golang.org,2013:foo</id>
    <updated>2013-01-02T00:00:00Z</updated>
    <summary>short</summary>
    <content type=\"html\">long</content>
  </entry>
</feed>";

#[test]
fn rss_single_item_is_decoded() {
    let xml = "<rss><channel><title>T</title><link>L</link><item><title>I1</title><link>U1</link><pubDate>D1</pubDate></item></channel></rss>";
    let rss = Rss::new(xml, &config()).unwrap();
    assert_eq!(rss.get_title(), "T");
    assert_eq!(rss.get_link(), "L");
    assert_eq!(rss.get_description(), "");
    assert_eq!(rss.get_item_list().len(), 1);
    let item = &rss.get_item_list()[0];
    assert_eq!(item.get_title(), &some("I1"));
    assert_eq!(item.get_link(), &some("U1"));
    assert_eq!(item.get_pub_date(), &some("D1"));
    assert_eq!(item.get_description(), &None);
}

#[test]
fn rss_items_keep_document_order() {
    let rss = Rss::new(RSS_TWO_ITEMS, &config()).unwrap();
    assert_eq!(rss.get_title(), "T");
    assert_eq!(rss.get_link(), "L");
    assert_eq!(rss.get_description(), "about T");
    let items = rss.get_item_list();
    assert_eq!(items.len(), 2);
    assert_eq!(items[0].get_title(), &some("I1"));
    assert_eq!(items[0].get_description(), &some("S1"));
    assert_eq!(items[1].get_title(), &some("I2"));
    assert_eq!(items[1].get_link(), &some("U2"));
    assert_eq!(items[1].get_description(), &None);
    assert_eq!(items[1].get_pub_date(), &some("D2"));
}

#[test]
fn rss_titles_are_told_apart_by_their_parent() {
    let xml = "<rss><channel><image><title>logo</title><link>pic</link></image><title>T</title><item><title>I</title></item></channel></rss>";
    let rss = Rss::new(xml, &config()).unwrap();
    assert_eq!(rss.get_title(), "T");
    assert_eq!(rss.get_link(), "");
    assert_eq!(rss.get_item_list()[0].get_title(), &some("I"));
}

#[test]
fn rss_channel_date_keeps_the_nesting() {
    let xml = "<rss><channel><pubDate>D0</pubDate><title>T</title><link>L</link><item><pubDate>D1</pubDate></item></channel></rss>";
    let rss = Rss::new(xml, &config()).unwrap();
    assert_eq!(rss.get_title(), "T");
    assert_eq!(rss.get_link(), "L");
    assert_eq!(rss.get_item_list().len(), 1);
    assert_eq!(rss.get_item_list()[0].get_pub_date(), &some("D1"));
}

#[test]
fn rss_text_is_unescaped_and_trimmed() {
    let xml = "<rss><channel><title>  Tom &amp; Jerry &lt;3  </title></channel></rss>";
    let rss = Rss::new(xml, &config()).unwrap();
    assert_eq!(rss.get_title(), "Tom & Jerry <3");
}

#[test]
fn rss_empty_elements_set_nothing() {
    let xml = "<rss><channel><title/><item><title/><link></link></item></channel></rss>";
    let rss = Rss::new(xml, &config()).unwrap();
    assert_eq!(rss.get_title(), "");
    assert_eq!(rss.get_item_list().len(), 1);
    assert_eq!(rss.get_item_list()[0].get_title(), &None);
    assert_eq!(rss.get_item_list()[0].get_link(), &None);
}

#[test]
fn rss_text_in_nested_markup_is_dropped() {
    let xml = "<rss><channel><item><title>a<b>x</b></title></item></channel></rss>";
    let rss = Rss::new(xml, &config()).unwrap();
    assert_eq!(rss.get_item_list()[0].get_title(), &some("a"));
}

#[test]
fn rss_last_text_of_an_element_stays() {
    let xml = "<rss><channel><item><title>a<b>x</b>c</title></item></channel></rss>";
    let rss = Rss::new(xml, &config()).unwrap();
    assert_eq!(rss.get_item_list()[0].get_title(), &some("c"));
}

#[test]
fn rss_without_items_is_an_empty_feed() {
    let rss = Rss::new("<rss><channel><title>T</title></channel></rss>", &config()).unwrap();
    assert_eq!(rss.get_title(), "T");
    assert!(rss.get_item_list().is_empty());
}

#[test]
fn rss_of_the_empty_document_is_blank() {
    let rss = Rss::new("", &config()).unwrap();
    assert_eq!(rss.get_title(), "");
    assert_eq!(rss.get_link(), "");
    assert!(rss.get_item_list().is_empty());
}

#[test]
fn rss_title_outside_any_channel_is_ignored() {
    let rss = Rss::new("<title>T</title>", &config()).unwrap();
    assert_eq!(rss.get_title(), "");
}

#[test]
fn rss_mismatched_closing_tag_is_malformed() {
    let r = Rss::new("<rss><channel><title>T</link></channel></rss>", &config());
    assert_eq!(r.err(), Some(DecodeError::MalformedDocument));
}

#[test]
fn rss_unknown_entity_is_malformed() {
    let r = Rss::new("<rss><channel><title>&nosuch;</title></channel></rss>", &config());
    assert_eq!(r.err(), Some(DecodeError::MalformedDocument));
}

#[test]
fn rss_unknown_entity_in_an_ignored_element_is_malformed_too() {
    let r = Rss::new("<rss><channel><generator>&nosuch;</generator></channel></rss>", &config());
    assert_eq!(r.err(), Some(DecodeError::MalformedDocument));
}

#[test]
fn rss_from_events_reads_a_feed() {
    let events = vec![
        start("rss"),
        start("channel"),
        start("title"),
        text("T"),
        XmlEvent::End,
        start("link"),
        text("L"),
        XmlEvent::End,
        XmlEvent::Other,
        start("item"),
        start("title"),
        text("I1"),
        XmlEvent::End,
        start("guid"),
        text("g"),
        XmlEvent::End,
        XmlEvent::End,
        XmlEvent::End,
        XmlEvent::End,
        XmlEvent::Eof,
    ];
    let rss = Rss::from_events(&events, &config()).unwrap();
    assert_eq!(rss.get_title(), "T");
    assert_eq!(rss.get_link(), "L");
    assert_eq!(rss.get_item_list().len(), 1);
    assert_eq!(rss.get_item_list()[0].get_title(), &some("I1"));
    assert_eq!(rss.get_item_list()[0].get_link(), &None);
}

#[test]
fn rss_from_events_stops_at_the_end_of_the_document() {
    let events = vec![
        start("channel"),
        start("title"),
        text("T"),
        XmlEvent::Eof,
        text("later"),
        XmlEvent::Invalid,
    ];
    let rss = Rss::from_events(&events, &config()).unwrap();
    assert_eq!(rss.get_title(), "T");
}

#[test]
fn rss_from_events_fails_at_an_invalid_token() {
    let events = vec![start("channel"), XmlEvent::Invalid, XmlEvent::Eof];
    let r = Rss::from_events(&events, &config());
    assert_eq!(r.err(), Some(DecodeError::MalformedDocument));
}

#[test]
fn rss_from_events_without_eof_reads_to_the_end() {
    let events = vec![start("channel"), start("link"), text("L")];
    let rss = Rss::from_events(&events, &config()).unwrap();
    assert_eq!(rss.get_link(), "L");
}

#[test]
fn rss_from_events_takes_a_closing_tag_too_many() {
    let events = vec![XmlEvent::End, start("channel"), start("title"), text("T"), XmlEvent::Eof];
    let rss = Rss::from_events(&events, &config()).unwrap();
    assert_eq!(rss.get_title(), "T");
}

#[test]
fn atom_entry_is_decoded() {
    let atom = Atom::new(ATOM_ONE_ENTRY, &config()).unwrap();
    assert_eq!(atom.get_title(), "The Blog");
    assert_eq!(atom.get_id(), "urn:blog");
    assert_eq!(atom.get_entry_list().len(), 1);
    let entry = &atom.get_entry_list()[0];
    assert_eq!(entry.get_title(), "First");
    assert_eq!(entry.get_id(), "tag:blog.golang.org,2013:foo");
    assert_eq!(entry.get_updated(), "2013-01-02T00:00:00Z");
    assert_eq!(entry.get_summary_or_content(), &some("short"));
}

#[test]
fn atom_content_stands_in_for_a_missing_summary() {
    let xml = "<feed><entry><id>i</id><content>long</content></entry><entry><id>j</id></entry></feed>";
    let atom = Atom::new(xml, &config()).unwrap();
    assert_eq!(atom.get_entry_list()[0].get_summary_or_content(), &some("long"));
    assert_eq!(atom.get_entry_list()[1].get_summary_or_content(), &None);
    assert_eq!(atom.get_entry_list()[1].get_title(), "");
    assert_eq!(atom.get_entry_list()[1].get_updated(), "");
}

#[test]
fn atom_legacy_id_is_rewritten_in_golang_blog_mode() {
    let mut cfg = config();
    cfg.is_golang_blog_mode = true;
    let atom = Atom::new(ATOM_ONE_ENTRY, &cfg).unwrap();
    assert_eq!(atom.get_entry_list()[0].get_id(), "https://foo");
    assert_eq!(atom.get_id(), "urn:blog");
    assert_eq!(atom.record().items[0].info.get_link(), &some("https://foo"));
}

#[test]
fn atom_feed_id_is_never_rewritten() {
    let mut cfg = config();
    cfg.is_golang_blog_mode = true;
    let xml = "<feed><id>tag:blog.golang.org,2013:blog</id></feed>";
    let atom = Atom::new(xml, &cfg).unwrap();
    assert_eq!(atom.get_id(), "tag:blog.golang.org,2013:blog");
}

#[test]
fn legacy_prefix_is_replaced_only_at_the_start() {
    assert_eq!(rewrite_legacy_id("tag:blog.golang.org,2013:foo"), "https://foo");
    assert_eq!(rewrite_legacy_id("tag:blog.golang.org,2013:"), "https://");
    assert_eq!(rewrite_legacy_id("https://foo"), "https://foo");
    assert_eq!(rewrite_legacy_id("tag:blog.golang.org,2013"), "tag:blog.golang.org,2013");
    assert_eq!(
        rewrite_legacy_id("x tag:blog.golang.org,2013:foo"),
        "x tag:blog.golang.org,2013:foo"
    );
    assert_eq!(rewrite_legacy_id(""), "");
    assert_eq!(rewrite_legacy_id("tag:blog.golang.org,2013:é"), "https://é");
}

#[test]
fn atom_feed_date_keeps_the_nesting() {
    let xml = "<feed><title>B</title><updated>now</updated><id>urn:b</id><entry><id>e</id></entry></feed>";
    let atom = Atom::new(xml, &config()).unwrap();
    assert_eq!(atom.get_title(), "B");
    assert_eq!(atom.get_id(), "urn:b");
    assert_eq!(atom.get_entry_list().len(), 1);
    assert_eq!(atom.get_entry_list()[0].get_id(), "e");
}

#[test]
fn atom_unclosed_comment_is_malformed() {
    let r = Atom::new("<feed><title>B</title><!-- never closed", &config());
    assert_eq!(r.err(), Some(DecodeError::MalformedDocument));
}

#[test]
fn atom_from_events_reads_a_feed() {
    let mut cfg = config();
    cfg.is_golang_blog_mode = true;
    let events = vec![
        start("feed"),
        start("id"),
        text("urn:b"),
        XmlEvent::End,
        start("entry"),
        start("id"),
        text("tag:blog.golang.org,2013:bar"),
        XmlEvent::End,
        start("updated"),
        text("D"),
        XmlEvent::End,
        XmlEvent::End,
        XmlEvent::End,
    ];
    let atom = Atom::from_events(&events, &cfg).unwrap();
    assert_eq!(atom.get_id(), "urn:b");
    assert_eq!(atom.get_entry_list()[0].get_id(), "https://bar");
    assert_eq!(atom.get_entry_list()[0].get_updated(), "D");
    let r = Atom::from_events(&vec![XmlEvent::Invalid], &cfg);
    assert_eq!(r.err(), Some(DecodeError::MalformedDocument));
}

#[test]
fn dialect_is_told_by_the_closing_tag() {
    assert_eq!(FeedType::new(RSS_TWO_ITEMS), FeedType::Rss);
    assert_eq!(FeedType::new(ATOM_ONE_ENTRY), FeedType::Atom);
    assert_eq!(FeedType::new("<html></html>"), FeedType::Unknown);
    assert_eq!(FeedType::new(""), FeedType::Unknown);
    assert_eq!(FeedType::new("<rss>"), FeedType::Unknown);
    assert_eq!(FeedType::new("</feed></rss>"), FeedType::Rss);
}

#[test]
fn decode_goes_by_the_dialect() {
    match decode(RSS_TWO_ITEMS, FeedType::Rss, &config()) {
        Ok(Feed::Rss(rss)) => assert_eq!(rss.get_item_list().len(), 2),
        other => panic!("not an RSS feed: {:?}", other),
    }
    match decode(ATOM_ONE_ENTRY, FeedType::Atom, &config()) {
        Ok(Feed::Atom(atom)) => assert_eq!(atom.get_entry_list().len(), 1),
        other => panic!("not an Atom feed: {:?}", other),
    }
    let feed = decode(ATOM_ONE_ENTRY, FeedType::Atom, &config()).unwrap();
    assert_eq!(feed.record().title, "The Blog");
}

#[test]
fn decode_refuses_an_unknown_dialect() {
    let r = decode(RSS_TWO_ITEMS, FeedType::Unknown, &config());
    assert_eq!(r.err(), Some(DecodeError::UnsupportedDialect));
}

#[test]
fn decode_hands_on_the_decoders_error() {
    let r = decode("<rss><a></b></rss>", FeedType::Rss, &config());
    assert_eq!(r.err(), Some(DecodeError::MalformedDocument));
    let r = decode("<feed><a></b></feed>", FeedType::Atom, &config());
    assert_eq!(r.err(), Some(DecodeError::MalformedDocument));
}

#[test]
fn token_stream_hands_out_the_document() {
    let mut stream = TokenStream::open("<a x=\"1\"> hi &gt; <b/><!-- c --></a>");
    assert_eq!(stream.next(), start("a"));
    assert_eq!(stream.next(), text("hi >"));
    assert_eq!(stream.next(), start("b"));
    assert_eq!(stream.next(), XmlEvent::End);
    assert_eq!(stream.next(), XmlEvent::Other);
    assert_eq!(stream.next(), XmlEvent::End);
    assert_eq!(stream.next(), XmlEvent::Eof);
    assert_eq!(stream.next(), XmlEvent::Eof);
}

#[test]
fn token_stream_ends_after_an_invalid_token() {
    let mut stream = TokenStream::open("<a></b><c>");
    assert_eq!(stream.next(), start("a"));
    assert_eq!(stream.next(), XmlEvent::Invalid);
    assert_eq!(stream.next(), XmlEvent::Eof);
}

#[test]
fn element_names_are_compared_byte_by_byte() {
    assert!(is_named(&b"title".to_vec(), "title"));
    assert!(!is_named(&b"titles".to_vec(), "title"));
    assert!(!is_named(&b"Title".to_vec(), "title"));
    assert!(!is_named(&b"".to_vec(), "title"));
    assert!(is_named(&b"".to_vec(), ""));
}

#[test]
fn feed_config_starts_with_nothing_left_out() {
    let cfg = FeedConfig::new("http://example.org/a");
    assert_eq!(cfg.get_url(), "http://example.org/a");
    assert!(!cfg.should_omit_date_field_from_hash);
    assert!(!cfg.is_golang_blog_mode);
    let copy = cfg.duplicate();
    assert_eq!(copy.get_url(), "http://example.org/a");
}

#[test]
fn feed_url_starts_with_summary_and_content_left_out() {
    let url = FeedUrl::new("http://example.org/b");
    assert_eq!(url.get_url(), "http://example.org/b");
    assert!(url.should_omit_summary_from_atom_hash);
    assert!(url.should_omit_content_from_atom_hash);
    assert!(!url.should_omit_updated_from_atom_hash);
    assert!(!url.should_omit_pub_date_from_rss_hash);
    assert!(!url.is_golang_blog_mode);
}
