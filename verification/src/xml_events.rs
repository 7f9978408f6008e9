//! The events of a document as the XML reader hands them out, and as text.

use crate::chars::decode_text;
use crate::error::{Error, ErrorKind};
use quick_xml::events::attributes::{AttrError, Attributes};
use quick_xml::events::{BytesText, Event};
use quick_xml::reader::Reader;
use vstd::prelude::*;
use vstd::string::{StringExecFns, StringSliceAdditionalSpecFns};
use vstd::utf8::{decode_utf8, valid_utf8};

verus! {

#[verifier::external_type_specification]
#[verifier::external_body]
#[verifier::reject_recursive_types(R)]
pub struct ExReader<R>(Reader<R>);

#[verifier::external_type_specification]
#[verifier::external_body]
pub struct ExAttrError(AttrError);

/// One piece of a document as the XML reader hands it out, in bytes.
#[derive(Debug)]
pub enum RawEvent {
    /// An opening tag: its name, and its whole content, which begins with
    /// the name and goes on with the attributes.
    Start { name: Vec<u8>, content: Vec<u8> },
    /// A closing tag.
    End { name: Vec<u8> },
    /// Text between tags, with character references still in place.
    Text { content: Vec<u8> },
    /// The end of the document.
    Eof,
    /// Anything else: an empty element, a comment, a declaration.
    Other,
}

/// What a `RawEvent` holds, as mathematical values.
pub enum RawEventView {
    Start { name: Seq<u8>, content: Seq<u8> },
    End { name: Seq<u8> },
    Text { content: Seq<u8> },
    Eof,
    Other,
}

impl View for RawEvent {
    type V = RawEventView;

    open spec fn view(&self) -> RawEventView {
        match self {
            RawEvent::Start { name, content } => RawEventView::Start {
                name: name@,
                content: content@,
            },
            RawEvent::End { name } => RawEventView::End { name: name@ },
            RawEvent::Text { content } => RawEventView::Text { content: content@ },
            RawEvent::Eof => RawEventView::Eof,
            RawEvent::Other => RawEventView::Other,
        }
    }
}

/// One attribute of a tag, in bytes.
#[derive(Debug)]
pub struct RawAttribute {
    pub key: Vec<u8>,
    pub value: Vec<u8>,
}

/// The events that a reader over a string has yet to hand out, in order, up
/// to the end of the document. `None` stands for a read that fails; nothing
/// follows it.
pub uninterp spec fn reader_events(reader: Reader<&[u8]>) -> Seq<Option<RawEventView>>;

/// The events of the document `content`, as a reader hands them out that
/// trims the white space around texts.
pub uninterp spec fn document_events(content: Seq<char>) -> Seq<Option<RawEventView>>;

/// The attributes written in the tag content `content` from the byte
/// `start` on, in order: key and value of each, and `None` for one that is
/// not well formed.
pub uninterp spec fn tag_attributes(content: Seq<char>, start: int) -> Seq<Option<(Seq<u8>, Seq<u8>)>>;

/// The text `content` with its character references resolved, and `None`
/// where one of them cannot be.
pub uninterp spec fn unescaped(content: Seq<char>) -> Option<Seq<char>>;

/// `Reader::from_str`, then `Reader::trim_text(true)`: a reader at the
/// start of `content`.
#[verifier::external_body]
pub(crate) fn open_reader<'a>(content: &'a str) -> (reader: Reader<&'a [u8]>)
    ensures
        reader_events(reader) == document_events(content@),
{
    let mut reader = Reader::from_str(content);
    reader.trim_text(true);
    reader
}

/// `Reader::read_event`: the next event, or the reader's failure in words.
/// At the end of the document, and after a failure, every read gives `Eof`.
/// The name of an opening tag is the beginning of its content.
#[verifier::external_body]
pub(crate) fn read_raw_event(reader: &mut Reader<&[u8]>) -> (r: Result<RawEvent, String>)
    ensures
        match r {
            Ok(event) => if reader_events(*old(reader)).len() == 0 {
                event@ is Eof && reader_events(*final(reader)).len() == 0
            } else {
                &&& reader_events(*old(reader))[0] == Some(event@)
                &&& !(event@ is Eof)
                &&& reader_events(*final(reader)) == reader_events(*old(reader)).drop_first()
                &&& event@ matches RawEventView::Start { name, content } ==> name.len()
                    <= content.len()
            },
            Err(_) => {
                &&& reader_events(*old(reader)).len() > 0
                &&& reader_events(*old(reader))[0] is None
                &&& reader_events(*final(reader)).len() == 0
            },
        },
{
    match reader.read_event() {
        Ok(Event::Start(tag)) => Ok(
            RawEvent::Start { name: tag.name().0.to_vec(), content: tag.to_vec() },
        ),
        Ok(Event::End(tag)) => Ok(RawEvent::End { name: tag.name().0.to_vec() }),
        Ok(Event::Text(text)) => Ok(RawEvent::Text { content: text.to_vec() }),
        Ok(Event::Eof) => Ok(RawEvent::Eof),
        Ok(_) => Ok(RawEvent::Other),
        Err(error) => Err(format!("fastxml error: {}", error)),
    }
}

/// `Attributes::new`, read to its end: the attributes written in `content`
/// from the byte `start` on.
#[verifier::external_body]
fn read_attributes(content: &str, start: usize) -> (attributes: Vec<Result<RawAttribute, AttrError>>)
    requires
        start <= content.spec_bytes().len(),
    ensures
        attributes@.len() == tag_attributes(content@, start as int).len(),
        forall|i: int|
            0 <= i < attributes@.len() ==> match #[trigger] attributes@[i] {
                Ok(attribute) => tag_attributes(content@, start as int)[i] == Some(
                    (attribute.key@, attribute.value@),
                ),
                Err(_) => tag_attributes(content@, start as int)[i] is None,
            },
{
    Attributes::new(content, start).map(
        |item| item.map(|a| RawAttribute { key: a.key.0.to_vec(), value: a.value.into_owned() }),
    ).collect()
}

/// `BytesText::unescape` on the escaped text `content`: the text with its
/// character references resolved, or the failure in words.
#[verifier::external_body]
fn unescape_text(content: &str) -> (r: Result<String, String>)
    ensures
        match r {
            Ok(text) => unescaped(content@) == Some(text@),
            Err(_) => unescaped(content@) is None,
        },
{
    match BytesText::from_escaped(content).unescape() {
        Ok(text) => Ok(text.into_owned()),
        Err(error) => Err(format!("fastxml error: {}", error)),
    }
}

/// The words in which the attribute reader tells of a failure: what an
/// `AttrError` shows of itself.
pub uninterp spec fn attr_error_words(error: AttrError) -> Seq<char>;

/// The failure that a failure of the attribute reader becomes: `InvalidRdf`,
/// with a message that names the attribute reader and then gives the words
/// in which the reader tells of its failure.
fn attribute_failure(error: &AttrError) -> (failure: Error)
    ensures
        failure.kind() == ErrorKind::InvalidRdf,
        failure.message() == "fastxml attribute error: "@ + attr_error_words(*error),
{
    let mut message = String::from_str("fastxml attribute error: ");
    message.append(attr_error_text(error).as_str());
    Error::InvalidRdf(message)
}

/// `AttrError`'s `Display`, through `to_string`: the failure of the
/// attribute reader in words.
#[verifier::external_body]
fn attr_error_text(error: &AttrError) -> (text: String)
    ensures
        text@ == attr_error_words(*error),
{
    error.to_string()
}

/// One piece of a document, as text.
#[derive(Debug, PartialEq, Eq)]
pub enum XmlEvent {
    /// An opening tag with its attributes: key and value of each, in order.
    Start { name: String, attributes: Vec<(String, String)> },
    /// A closing tag.
    End { name: String },
    /// Text between tags, character references resolved.
    Text { text: String },
    /// The end of the document.
    Eof,
    /// Anything else: an empty element, a comment, a declaration.
    Other,
}

/// What an `XmlEvent` holds, as mathematical values.
pub enum XmlEventView {
    Start { name: Seq<char>, attributes: Seq<(Seq<char>, Seq<char>)> },
    End { name: Seq<char> },
    Text { text: Seq<char> },
    Eof,
    Other,
}

/// What each pair of a vector of attributes holds.
pub open spec fn attributes_view(attributes: Seq<(String, String)>) -> Seq<(Seq<char>, Seq<char>)> {
    Seq::new(attributes.len(), |i: int| (attributes[i].0@, attributes[i].1@))
}

impl View for XmlEvent {
    type V = XmlEventView;

    open spec fn view(&self) -> XmlEventView {
        match self {
            XmlEvent::Start { name, attributes } => XmlEventView::Start {
                name: name@,
                attributes: attributes_view(attributes@),
            },
            XmlEvent::End { name } => XmlEventView::End { name: name@ },
            XmlEvent::Text { text } => XmlEventView::Text { text: text@ },
            XmlEvent::Eof => XmlEventView::Eof,
            XmlEvent::Other => XmlEventView::Other,
        }
    }
}

/// What a read gives: an event, or a failure of some kind.
pub enum XmlStep {
    Event(XmlEventView),
    Failure(ErrorKind),
}

/// The first `n` attributes as text. An attribute that is not well formed
/// fails with `InvalidRdf`, one that is not UTF-8 with `InvalidUTF8String`;
/// the first attribute that fails decides.
pub open spec fn decoded_attributes(raw: Seq<Option<(Seq<u8>, Seq<u8>)>>, n: int) -> Result<
    Seq<(Seq<char>, Seq<char>)>,
    ErrorKind,
>
    decreases n,
{
    if n <= 0 {
        Ok(Seq::empty())
    } else {
        match decoded_attributes(raw, n - 1) {
            Err(kind) => Err(kind),
            Ok(before) => match raw[n - 1] {
                None => Err(ErrorKind::InvalidRdf),
                Some((key, value)) => if valid_utf8(value) && valid_utf8(key) {
                    Ok(before.push((decode_utf8(key), decode_utf8(value))))
                } else {
                    Err(ErrorKind::InvalidUTF8String)
                },
            },
        }
    }
}

/// An event as text. A tag that is not UTF-8 fails with
/// `InvalidUTF8String`; a text that is not UTF-8, or holds a character
/// reference that cannot be resolved, fails with `InvalidRdf`.
pub open spec fn decoded_event(raw: RawEventView) -> XmlStep {
    match raw {
        RawEventView::Start { name, content } => if !valid_utf8(name) || !valid_utf8(content) {
            XmlStep::Failure(ErrorKind::InvalidUTF8String)
        } else {
            let attributes = tag_attributes(decode_utf8(content), name.len() as int);
            match decoded_attributes(attributes, attributes.len() as int) {
                Ok(attributes) => XmlStep::Event(
                    XmlEventView::Start { name: decode_utf8(name), attributes },
                ),
                Err(kind) => XmlStep::Failure(kind),
            }
        },
        RawEventView::End { name } => if valid_utf8(name) {
            XmlStep::Event(XmlEventView::End { name: decode_utf8(name) })
        } else {
            XmlStep::Failure(ErrorKind::InvalidUTF8String)
        },
        RawEventView::Text { content } => if !valid_utf8(content) {
            XmlStep::Failure(ErrorKind::InvalidRdf)
        } else {
            match unescaped(decode_utf8(content)) {
                Some(text) => XmlStep::Event(XmlEventView::Text { text }),
                None => XmlStep::Failure(ErrorKind::InvalidRdf),
            }
        },
        RawEventView::Eof => XmlStep::Event(XmlEventView::Eof),
        RawEventView::Other => XmlStep::Event(XmlEventView::Other),
    }
}

/// What the reads of a document give, one after the other: each event as
/// text, up to the first failure.
pub open spec fn decoded_steps(raw: Seq<Option<RawEventView>>) -> Seq<XmlStep>
    decreases raw.len(),
{
    if raw.len() == 0 {
        Seq::empty()
    } else {
        match raw[0] {
            None => seq![XmlStep::Failure(ErrorKind::InvalidRdf)],
            Some(event) => match decoded_event(event) {
                XmlStep::Failure(kind) => seq![XmlStep::Failure(kind)],
                XmlStep::Event(e) => seq![XmlStep::Event(e)] + decoded_steps(raw.drop_first()),
            },
        }
    }
}

/// Turns the attributes of a tag into text.
fn decode_attributes(raw: &Vec<Result<RawAttribute, AttrError>>, Ghost(model): Ghost<
    Seq<Option<(Seq<u8>, Seq<u8>)>>,
>) -> (r: Result<Vec<(String, String)>, Error>)
    requires
        raw@.len() == model.len(),
        forall|i: int|
            0 <= i < raw@.len() ==> match #[trigger] raw@[i] {
                Ok(attribute) => model[i] == Some((attribute.key@, attribute.value@)),
                Err(_) => model[i] is None,
            },
    ensures
        match decoded_attributes(model, model.len() as int) {
            Ok(attributes) => r is Ok && attributes_view(r->Ok_0@) == attributes,
            Err(kind) => r is Err && r->Err_0.kind() == kind,
        },
{
    let n = raw.len();
    let mut attributes: Vec<(String, String)> = Vec::new();
    let mut i: usize = 0;
    assert(attributes_view(attributes@) =~= Seq::empty());
    while i < n
        invariant
            n == raw@.len(),
            raw@.len() == model.len(),
            i <= n,
            forall|j: int|
                0 <= j < raw@.len() ==> match #[trigger] raw@[j] {
                    Ok(attribute) => model[j] == Some((attribute.key@, attribute.value@)),
                    Err(_) => model[j] is None,
                },
            decoded_attributes(model, i as int) == Ok::<_, ErrorKind>(
                attributes_view(attributes@),
            ),
        decreases n - i,
    {
        proof {
            lemma_decoded_attributes_failure(model, i + 1, n as int);
        }
        assert(raw@[i as int] is Ok ==> model[i as int] is Some);
        match &raw[i] {
            Err(e) => {
                return Err(attribute_failure(e));
            },
            Ok(attribute) => {
                let value = match decode_text(attribute.value.as_slice()) {
                    Ok(value) => value,
                    Err(e) => {
                        return Err(e);
                    },
                };
                let key = match decode_text(attribute.key.as_slice()) {
                    Ok(key) => key,
                    Err(e) => {
                        return Err(e);
                    },
                };
                let ghost before = attributes_view(attributes@);
                attributes.push((key, value));
                assert(attributes_view(attributes@) =~= before.push((key@, value@)));
            },
        }
        i += 1;
    }
    Ok(attributes)
}

/// Once an attribute has failed, the attributes after it change nothing.
pub proof fn lemma_decoded_attributes_failure(raw: Seq<Option<(Seq<u8>, Seq<u8>)>>, n: int, m: int)
    requires
        0 <= n <= m,
    ensures
        decoded_attributes(raw, n) is Err ==> decoded_attributes(raw, m) == decoded_attributes(
            raw,
            n,
        ),
    decreases m - n,
{
    if n < m {
        lemma_decoded_attributes_failure(raw, n, m - 1);
    }
}

/// Turns an event into text.
pub(crate) fn decode_event(raw: RawEvent) -> (r: Result<XmlEvent, Error>)
    requires
        raw@ matches RawEventView::Start { name, content } ==> name.len() <= content.len(),
    ensures
        match decoded_event(raw@) {
            XmlStep::Event(event) => r is Ok && r->Ok_0@ == event,
            XmlStep::Failure(kind) => r is Err && r->Err_0.kind() == kind,
        },
{
    match raw {
        RawEvent::Start { name, content } => {
            let name_text = decode_text(name.as_slice())?;
            let content_text = decode_text(content.as_slice())?;
            let raw_attributes = read_attributes(content_text.as_str(), name.len());
            let attributes = decode_attributes(
                &raw_attributes,
                Ghost(tag_attributes(content_text@, name@.len() as int)),
            )?;
            Ok(XmlEvent::Start { name: name_text, attributes })
        },
        RawEvent::End { name } => {
            let name_text = decode_text(name.as_slice())?;
            Ok(XmlEvent::End { name: name_text })
        },
        RawEvent::Text { content } => {
            let escaped = match decode_text(content.as_slice()) {
                Ok(escaped) => escaped,
                Err(e) => {
                    return Err(Error::InvalidRdf(e.to_string()));
                },
            };
            match unescape_text(escaped.as_str()) {
                Ok(text) => Ok(XmlEvent::Text { text }),
                Err(message) => Err(Error::InvalidRdf(message)),
            }
        },
        RawEvent::Eof => Ok(XmlEvent::Eof),
        RawEvent::Other => Ok(XmlEvent::Other),
    }
}

} // verus!
