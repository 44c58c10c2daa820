use vstd::prelude::*;
use vstd::string::StringSliceAdditionalSpecFns;

verus! {

/// One token of an XML document, as the feed decoders read it.
///
/// Character data is already unescaped. A self-closing element counts as a
/// `Start` directly followed by an `End`.
#[derive(Debug, Clone, PartialEq, Eq)]
pub enum XmlEvent {
    /// An opening tag, with the raw bytes of its name.
    Start(Vec<u8>),
    /// A closing tag.
    End,
    /// Character data between two tags, trimmed and never empty.
    Text(String),
    /// A comment, a CDATA section, a declaration, a processing instruction
    /// or a doctype: nothing the decoders look at.
    Other,
    /// The end of the document.
    Eof,
    /// The place where the document stops being readable.
    Invalid,
}

/// The mathematical value of an [`XmlEvent`].
pub enum XmlToken {
    Start(Seq<u8>),
    End,
    Text(Seq<char>),
    Other,
    Eof,
    Invalid,
}

impl View for XmlEvent {
    type V = XmlToken;

    open spec fn view(&self) -> XmlToken {
        match self {
            XmlEvent::Start(name) => XmlToken::Start(name@),
            XmlEvent::End => XmlToken::End,
            XmlEvent::Text(text) => XmlToken::Text(text@),
            XmlEvent::Other => XmlToken::Other,
            XmlEvent::Eof => XmlToken::Eof,
            XmlEvent::Invalid => XmlToken::Invalid,
        }
    }
}

/// A token as the XML reader hands it out: character data is still escaped.
pub enum RawEvent {
    Start(Vec<u8>),
    End,
    Text(Vec<u8>),
    Other,
    Eof,
}

/// The mathematical value of a [`RawEvent`], with one more case, `Broken`,
/// for the place where the reader reports an error.
pub enum RawToken {
    Start(Seq<u8>),
    End,
    Text(Seq<u8>),
    Other,
    Eof,
    Broken,
}

impl View for RawEvent {
    type V = RawToken;

    open spec fn view(&self) -> RawToken {
        match self {
            RawEvent::Start(name) => RawToken::Start(name@),
            RawEvent::End => RawToken::End,
            RawEvent::Text(bytes) => RawToken::Text(bytes@),
            RawEvent::Other => RawToken::Other,
            RawEvent::Eof => RawToken::Eof,
        }
    }
}

#[verifier::external_type_specification]
#[verifier::external_body]
pub struct ExXmlError(quick_xml::Error);

/// A `quick_xml::Reader` over a string slice, set up to trim character data
/// and to expand self-closing elements.
///
/// Verus cannot take the reader's own type (its bound is a trait of
/// `std::io`), so the reader is kept behind this opaque struct. All that the
/// proofs know of it is [`reader_rest`].
#[verifier::external_body]
pub struct EventReader<'a> {
    inner: quick_xml::Reader<&'a [u8]>,
}

/// The tokens that `quick_xml` reads from a document, in order, when
/// character data is trimmed and self-closing elements are expanded.
pub uninterp spec fn xml_events(text: Seq<char>) -> Seq<RawToken>;

/// The tokens that a reader has not handed out yet.
pub uninterp spec fn reader_rest(reader: &EventReader) -> Seq<RawToken>;

/// What `quick_xml` makes of escaped character data: the unescaped text, or
/// `None` where an entity in it is not known or the bytes are not UTF-8.
pub uninterp spec fn unescaped(raw: Seq<u8>) -> Option<Seq<char>>;

/// Calls `quick_xml::Reader::from_str`, then `trim_text(true)` and
/// `expand_empty_elements(true)` on the new reader.
///
/// Trusted: the reader has the whole token stream of `xml` before it.
#[verifier::external_body]
fn open_reader<'a>(xml: &'a str) -> (reader: EventReader<'a>)
    ensures
        reader_rest(&reader) == xml_events(xml@),
{
    let mut inner = quick_xml::Reader::from_str(xml);
    inner.trim_text(true);
    inner.expand_empty_elements(true);
    EventReader { inner }
}

/// Calls `quick_xml::Reader::read_event` with an empty buffer.
///
/// Trusted: the call hands out the first token that the reader has left and
/// moves past it, an error standing for a `Broken` token; a reader with
/// nothing left keeps answering `Eof`.
#[verifier::external_body]
fn next_event(reader: &mut EventReader, buf: &mut Vec<u8>) -> (r: Result<RawEvent, quick_xml::Error>)
    requires
        old(buf)@.len() == 0,
    ensures
        reader_rest(old(reader)).len() == 0 ==> reader_rest(final(reader)).len() == 0 && (r matches Ok(
            ev,
        ) && ev@ == RawToken::Eof),
        reader_rest(old(reader)).len() > 0 ==> reader_rest(final(reader)) == reader_rest(
            old(reader),
        ).drop_first() && (match r {
            Ok(ev) => ev@ == reader_rest(old(reader))[0],
            Err(_) => reader_rest(old(reader))[0] == RawToken::Broken,
        }),
{
    match reader.inner.read_event(buf) {
        Ok(quick_xml::events::Event::Start(e)) => Ok(RawEvent::Start(e.name().to_vec())),
        Ok(quick_xml::events::Event::End(_)) => Ok(RawEvent::End),
        Ok(quick_xml::events::Event::Text(e)) => Ok(RawEvent::Text(e.escaped().to_vec())),
        Ok(quick_xml::events::Event::Eof) => Ok(RawEvent::Eof),
        Ok(_) => Ok(RawEvent::Other),
        Err(e) => Err(e),
    }
}

/// Calls `quick_xml::events::BytesText::unescape_and_decode` on escaped
/// character data.
///
/// Trusted: the outcome is [`unescaped`] of the bytes.
#[verifier::external_body]
fn decode_text(reader: &EventReader, raw: &Vec<u8>) -> (r: Result<String, quick_xml::Error>)
    ensures
        match r {
            Ok(text) => unescaped(raw@) == Some(text@),
            Err(_) => unescaped(raw@) is None,
        },
{
    quick_xml::events::BytesText::from_escaped(raw.as_slice()).unescape_and_decode(&reader.inner)
}

/// The token that the decoders see for a raw token: character data is
/// unescaped, and what cannot be read is `Invalid`.
pub open spec fn refine(raw: RawToken) -> XmlToken {
    match raw {
        RawToken::Start(name) => XmlToken::Start(name),
        RawToken::End => XmlToken::End,
        RawToken::Text(bytes) => match unescaped(bytes) {
            Some(text) => XmlToken::Text(text),
            None => XmlToken::Invalid,
        },
        RawToken::Other => XmlToken::Other,
        RawToken::Eof => XmlToken::Eof,
        RawToken::Broken => XmlToken::Invalid,
    }
}

/// The token stream of a document as the decoders see it.
pub open spec fn document_tokens(text: Seq<char>) -> Seq<XmlToken> {
    xml_events(text).map_values(|raw: RawToken| refine(raw))
}

/// The tokens that a list of events stands for.
pub open spec fn tokens_of(events: Seq<XmlEvent>) -> Seq<XmlToken> {
    events.map_values(|ev: XmlEvent| ev@)
}

/// Whether the bytes of an element name spell `tag`.
pub fn is_named(name: &Vec<u8>, tag: &str) -> (same: bool)
    ensures
        same == (name@ == tag.spec_bytes()),
{
    let bytes = tag.as_bytes();
    if name.len() != bytes.len() {
        return false;
    }
    let mut i: usize = 0;
    while i < name.len()
        invariant
            i <= name.len(),
            name.len() == bytes.len(),
            bytes@ == tag.spec_bytes(),
            forall|k: int| 0 <= k < i ==> name@[k] == bytes@[k],
        decreases name.len() - i,
    {
        if name[i] != bytes[i] {
            return false;
        }
        i = i + 1;
    }
    assert(name@ =~= bytes@);
    true
}

/// A document that is being read token by token.
pub struct TokenStream<'a> {
    reader: EventReader<'a>,
    buf: Vec<u8>,
}

impl<'a> TokenStream<'a> {
    /// The tokens still to come.
    pub closed spec fn rest(&self) -> Seq<XmlToken> {
        reader_rest(&self.reader).map_values(|raw: RawToken| refine(raw))
    }

    /// Starts reading `xml` from its first token.
    pub fn open(xml: &'a str) -> (stream: Self)
        ensures
            stream.rest() == document_tokens(xml@),
    {
        TokenStream { reader: open_reader(xml), buf: Vec::new() }
    }

    /// Hands out the next token and moves past it. Once nothing is left,
    /// every call answers `Eof`.
    pub fn next(&mut self) -> (ev: XmlEvent)
        ensures
            old(self).rest().len() == 0 ==> ev@ == XmlToken::Eof && final(self).rest().len() == 0,
            old(self).rest().len() > 0 ==> ev@ == old(self).rest()[0] && final(self).rest() == old(
                self,
            ).rest().drop_first(),
    {
        self.buf.clear();
        let ghost before = reader_rest(&self.reader);
        let raw = next_event(&mut self.reader, &mut self.buf);
        proof {
            let after = reader_rest(&self.reader);
            if before.len() > 0 {
                assert(after.map_values(|raw: RawToken| refine(raw)) =~= before.map_values(
                    |raw: RawToken| refine(raw),
                ).drop_first());
            }
        }
        match raw {
            Ok(RawEvent::Start(name)) => XmlEvent::Start(name),
            Ok(RawEvent::End) => XmlEvent::End,
            Ok(RawEvent::Text(bytes)) => match decode_text(&self.reader, &bytes) {
                Ok(text) => XmlEvent::Text(text),
                Err(_) => XmlEvent::Invalid,
            },
            Ok(RawEvent::Other) => XmlEvent::Other,
            Ok(RawEvent::Eof) => XmlEvent::Eof,
            Err(_) => XmlEvent::Invalid,
        }
    }
}

} // verus!
