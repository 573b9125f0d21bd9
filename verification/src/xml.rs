//! The XML reading that the protocol parser rests on. The `quick_xml` reader
//! cuts a message into events; this module hands them on as tokens of plain
//! text. What the reader yields is not proved here: it is named, and the
//! contracts of the items that call the reader speak of those names.

use vstd::prelude::*;
use quick_xml::events::Event;
use quick_xml::Reader;

verus! {

/// One attribute of an element: its key and its value, the value decoded and
/// with its character references resolved.
#[derive(Clone, Debug, PartialEq, Eq)]
pub struct XmlAttribute {
    pub key: String,
    pub value: String,
}

/// What an [`XmlAttribute`] stands for.
pub struct AttributeView {
    pub key: Seq<char>,
    pub value: Seq<char>,
}

impl View for XmlAttribute {
    type V = AttributeView;

    open spec fn view(&self) -> AttributeView {
        AttributeView { key: self.key@, value: self.value@ }
    }
}

impl DeepView for XmlAttribute {
    type V = AttributeView;

    open spec fn deep_view(&self) -> AttributeView {
        self@
    }
}

/// One step of reading an XML text. In the attribute lists, `None` stands for
/// an attribute that could not be read.
#[derive(Clone, Debug, PartialEq, Eq)]
pub enum XmlToken {
    /// An opening tag.
    Start { name: String, attributes: Vec<Option<XmlAttribute>> },
    /// A closing tag.
    End { name: String },
    /// A self-closing tag.
    Empty { name: String, attributes: Vec<Option<XmlAttribute>> },
    /// Character data between tags, with its character references resolved;
    /// empty where they could not be resolved.
    Text { content: String },
    /// A comment, a declaration, a processing instruction, a document type or
    /// a CDATA section.
    Other,
    /// The end of the text.
    Eof,
    /// A syntax error; nothing is read past it.
    Malformed,
}

/// What an [`XmlToken`] stands for.
pub enum TokenView {
    Start { name: Seq<char>, attributes: Seq<Option<AttributeView>> },
    End { name: Seq<char> },
    Empty { name: Seq<char>, attributes: Seq<Option<AttributeView>> },
    Text { content: Seq<char> },
    Other,
    Eof,
    Malformed,
}

impl View for XmlToken {
    type V = TokenView;

    open spec fn view(&self) -> TokenView {
        match self {
            XmlToken::Start { name, attributes } => TokenView::Start {
                name: name@,
                attributes: attributes.deep_view(),
            },
            XmlToken::End { name } => TokenView::End { name: name@ },
            XmlToken::Empty { name, attributes } => TokenView::Empty {
                name: name@,
                attributes: attributes.deep_view(),
            },
            XmlToken::Text { content } => TokenView::Text { content: content@ },
            XmlToken::Other => TokenView::Other,
            XmlToken::Eof => TokenView::Eof,
            XmlToken::Malformed => TokenView::Malformed,
        }
    }
}

impl DeepView for XmlToken {
    type V = TokenView;

    open spec fn deep_view(&self) -> TokenView {
        self@
    }
}

/// The kind of a token, without what it carries.
#[derive(Clone, Copy, Debug, PartialEq, Eq, Structural)]
pub enum TokenKind {
    Start,
    End,
    Empty,
    Text,
    Other,
    Eof,
    Malformed,
}

impl TokenView {
    /// The kind of the token.
    pub open spec fn kind(self) -> TokenKind {
        match self {
            TokenView::Start { .. } => TokenKind::Start,
            TokenView::End { .. } => TokenKind::End,
            TokenView::Empty { .. } => TokenKind::Empty,
            TokenView::Text { .. } => TokenKind::Text,
            TokenView::Other => TokenKind::Other,
            TokenView::Eof => TokenKind::Eof,
            TokenView::Malformed => TokenKind::Malformed,
        }
    }

    /// The element name of a tag; empty for any other token.
    pub open spec fn name(self) -> Seq<char> {
        match self {
            TokenView::Start { name, .. } => name,
            TokenView::End { name } => name,
            TokenView::Empty { name, .. } => name,
            _ => Seq::empty(),
        }
    }

    /// The attributes of an opening or self-closing tag; none for any other
    /// token.
    pub open spec fn attributes(self) -> Seq<Option<AttributeView>> {
        match self {
            TokenView::Start { attributes, .. } => attributes,
            TokenView::Empty { attributes, .. } => attributes,
            _ => Seq::empty(),
        }
    }

    /// The character data of a text token; empty for any other token.
    pub open spec fn content(self) -> Seq<char> {
        match self {
            TokenView::Text { content } => content,
            _ => Seq::empty(),
        }
    }

    /// Whether nothing is read after this token.
    pub open spec fn is_terminal(self) -> bool {
        self is Eof || self is Malformed
    }
}

/// Whether `tokens` is a complete reading: it ends with the end of the text
/// or with a syntax error, and holds neither before its last token.
pub open spec fn well_terminated(tokens: Seq<TokenView>) -> bool {
    &&& tokens.len() > 0
    &&& tokens.last().is_terminal()
    &&& forall|i: int| 0 <= i < tokens.len() - 1 ==> !(#[trigger] tokens[i]).is_terminal()
}

/// The reader of `quick_xml`, carried through as it is.
#[verifier::external_type_specification]
#[verifier::external_body]
#[verifier::reject_recursive_types(R)]
pub struct ExReader<R>(quick_xml::Reader<R>);

/// One event of the reader, carried through as it is.
#[verifier::external_type_specification]
#[verifier::external_body]
pub struct ExEvent<'a>(quick_xml::events::Event<'a>);

/// The error of the reader, carried through as it is.
#[verifier::external_type_specification]
#[verifier::external_body]
pub struct ExError(quick_xml::Error);

/// The tokens that a `quick_xml` reader with text trimming switched on yields
/// for `text`, one for each call of `read_event_into`, up to and including
/// the first end of text or the first error.
pub uninterp spec fn xml_tokens(text: Seq<char>) -> Seq<TokenView>;

/// The tokens that `reader` has yet to yield.
pub uninterp spec fn pending_tokens(reader: Reader<&[u8]>) -> Seq<TokenView>;

/// The token that `event` stands for.
pub uninterp spec fn event_token(event: Event<'_>) -> TokenView;

/// Calls `quick_xml::Reader::from_str` and switches text trimming on with
/// `Reader::trim_text`. The new reader has all the tokens of `xml` before
/// it, and they form a complete reading: the reader's source shows that it
/// moves forward through the text with every event and stays at the end of
/// the text, or at its first error, for good.
#[verifier::external_body]
fn open_reader<'a>(xml: &'a str) -> (reader: Reader<&'a [u8]>)
    ensures
        pending_tokens(reader) == xml_tokens(xml@),
        well_terminated(pending_tokens(reader)),
{
    let mut reader = Reader::from_str(xml);
    reader.trim_text(true);
    reader
}

/// Calls `quick_xml::Reader::read_event_into`, which builds the event in
/// `buffer`. The reader yields the first of its pending tokens and keeps the
/// rest. An error is the token `Malformed`; an event is never that token.
#[verifier::external_body]
fn read_event<'b>(reader: &mut Reader<&[u8]>, buffer: &'b mut Vec<u8>) -> (r: Result<
    Event<'b>,
    quick_xml::Error,
>)
    ensures
        pending_tokens(*old(reader)).len() > 0 ==> {
            &&& pending_tokens(*final(reader)) == pending_tokens(*old(reader)).skip(1)
            &&& match r {
                Ok(event) => event_token(event) == pending_tokens(*old(reader))[0]
                    && !(event_token(event) is Malformed),
                Err(_) => pending_tokens(*old(reader))[0] is Malformed,
            }
        },
{
    reader.read_event_into(buffer)
}

/// Tells the variants of `quick_xml::events::Event` apart.
#[verifier::external_body]
fn event_kind(event: &Event<'_>) -> (kind: TokenKind)
    ensures
        kind == event_token(*event).kind(),
{
    match event {
        Event::Start(_) => TokenKind::Start,
        Event::End(_) => TokenKind::End,
        Event::Empty(_) => TokenKind::Empty,
        Event::Text(_) => TokenKind::Text,
        Event::Eof => TokenKind::Eof,
        _ => TokenKind::Other,
    }
}

/// Calls `BytesStart::name` or `BytesEnd::name` on the tag that `event`
/// holds, and hands the name on as text; bytes that are no UTF-8 become the
/// replacement character.
#[verifier::external_body]
fn event_name(event: &Event<'_>) -> (name: String)
    ensures
        name@ == event_token(*event).name(),
{
    match event {
        Event::Start(e) | Event::Empty(e) => String::from_utf8_lossy(e.name().as_ref()).into_owned(),
        Event::End(e) => String::from_utf8_lossy(e.name().as_ref()).into_owned(),
        _ => String::new(),
    }
}

/// Walks `BytesStart::attributes`, with the check for repeated keys switched
/// off by `Attributes::with_checks`, and reads each value with
/// `Attribute::decode_and_unescape_value`. Each item that the walk yields
/// becomes one entry, in order: the key and the value as text, or `None`
/// where the item is an error or the value cannot be read.
#[verifier::external_body]
fn event_attributes(event: &Event<'_>, reader: &Reader<&[u8]>) -> (items: Vec<Option<XmlAttribute>>)
    ensures
        items.deep_view() == event_token(*event).attributes(),
{
    match event {
        Event::Start(e) | Event::Empty(e) => e.attributes().with_checks(false).map(|item| {
            let attribute = item.ok()?;
            let value = attribute.decode_and_unescape_value(reader).ok()?.into_owned();
            let key = String::from_utf8_lossy(attribute.key.as_ref()).into_owned();
            Some(XmlAttribute { key, value })
        }).collect(),
        _ => Vec::new(),
    }
}

/// Calls `BytesText::unescape` on the character data that `event` holds;
/// where that fails the text is empty.
#[verifier::external_body]
fn event_text(event: &Event<'_>) -> (content: String)
    ensures
        content@ == event_token(*event).content(),
{
    match event {
        Event::Text(e) => e.unescape().unwrap_or_default().into_owned(),
        _ => String::new(),
    }
}

/// A reader over the XML text of one message.
pub struct XmlReader<'a> {
    reader: Reader<&'a [u8]>,
    /// Where the reader builds each event.
    buffer: Vec<u8>,
}

impl<'a> XmlReader<'a> {
    /// The tokens that are yet to be read.
    pub closed spec fn pending(self) -> Seq<TokenView> {
        pending_tokens(self.reader)
    }

    /// A reader at the start of `xml`.
    pub fn new(xml: &'a str) -> (reader: Self)
        ensures
            reader.pending() == xml_tokens(xml@),
            well_terminated(reader.pending()),
    {
        XmlReader { reader: open_reader(xml), buffer: Vec::new() }
    }

    /// Reads the next token.
    pub fn next_token(&mut self) -> (token: XmlToken)
        ensures
            old(self).pending().len() > 0 ==> {
                &&& token@ == old(self).pending()[0]
                &&& final(self).pending() == old(self).pending().skip(1)
            },
    {
        self.buffer.clear();
        let event = match read_event(&mut self.reader, &mut self.buffer) {
            Ok(event) => event,
            Err(_) => {
                return XmlToken::Malformed;
            },
        };
        match event_kind(&event) {
            TokenKind::Start => XmlToken::Start {
                name: event_name(&event),
                attributes: event_attributes(&event, &self.reader),
            },
            TokenKind::End => XmlToken::End { name: event_name(&event) },
            TokenKind::Empty => XmlToken::Empty {
                name: event_name(&event),
                attributes: event_attributes(&event, &self.reader),
            },
            TokenKind::Text => XmlToken::Text { content: event_text(&event) },
            TokenKind::Other => XmlToken::Other,
            TokenKind::Eof => XmlToken::Eof,
            TokenKind::Malformed => XmlToken::Malformed,
        }
    }
}

} // verus!
