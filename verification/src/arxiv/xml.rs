//! The events of an XML document, as plain values.

use vstd::prelude::*;
use quick_xml::events::Event;

verus! {

/// `quick_xml::Reader`: its state is known only to the crate.
#[verifier::external_type_specification]
#[verifier::external_body]
#[verifier::reject_recursive_types(R)]
pub struct ExReader<R>(quick_xml::Reader<R>);

/// `quick_xml::Error`.
#[verifier::external_type_specification]
#[verifier::external_body]
pub struct ExXmlError(quick_xml::Error);

/// One event of a document. Names and texts are those of the document,
/// unchanged. An element without content comes with its attributes, each a
/// name and a value; an attribute that the reader could not read is `None`.
#[derive(Debug)]
pub enum XmlEvent {
    Start(String),
    End(String),
    Empty(String, Vec<Option<(String, String)>>),
    Text(String),
    Eof,
    Other,
}

/// The elements that the parser of papers knows.
#[derive(Clone, Copy, Debug, PartialEq, Eq, Structural)]
pub enum Tag {
    Entry,
    Title,
    Author,
    Summary,
    Link,
    Category,
    Other,
}

/// The element with the given name.
pub open spec fn tag_of(name: Seq<char>) -> Tag {
    if name == "entry"@ {
        Tag::Entry
    } else if name == "title"@ {
        Tag::Title
    } else if name == "author"@ {
        Tag::Author
    } else if name == "summary"@ {
        Tag::Summary
    } else if name == "link"@ {
        Tag::Link
    } else if name == "category"@ {
        Tag::Category
    } else {
        Tag::Other
    }
}

/// Whether `name` is the text `word`.
pub fn is_word(name: &String, word: &str) -> (same: bool)
    ensures
        same == (name@ == word@),
{
    let wanted = word.to_owned();
    *name == wanted
}

/// The element with the given name.
pub fn classify(name: &String) -> (tag: Tag)
    ensures
        tag == tag_of(name@),
{
    if is_word(name, "entry") {
        Tag::Entry
    } else if is_word(name, "title") {
        Tag::Title
    } else if is_word(name, "author") {
        Tag::Author
    } else if is_word(name, "summary") {
        Tag::Summary
    } else if is_word(name, "link") {
        Tag::Link
    } else if is_word(name, "category") {
        Tag::Category
    } else {
        Tag::Other
    }
}

/// `quick_xml::Reader::from_str`, with `Config::trim_text` switched on: a
/// reader at the start of the text.
#[verifier::external_body]
pub(crate) fn open_reader<'a>(input: &'a str) -> quick_xml::Reader<&'a [u8]> {
    let mut reader = quick_xml::Reader::from_str(input);
    reader.config_mut().trim_text(true);
    reader
}

/// `quick_xml::Reader::read_event_into`: the next event of the document, its
/// names, texts and attributes copied out as they are, or the reader's error.
/// Nothing is claimed of which event comes.
#[verifier::external_body]
pub(crate) fn next_event(reader: &mut quick_xml::Reader<&[u8]>) -> Result<XmlEvent, quick_xml::Error> {
    let mut buffer = Vec::new();
    Ok(match reader.read_event_into(&mut buffer)? {
        Event::Start(e) => XmlEvent::Start(e.name().0.to_owned()),
        Event::End(e) => XmlEvent::End(e.name().0.to_owned()),
        Event::Empty(e) => XmlEvent::Empty(
            e.name().0.to_owned(),
            e.attributes().map(|a| a.ok().map(|a| (a.key.0.to_owned(), a.value.into_owned()))).collect(),
        ),
        Event::Text(e) => XmlEvent::Text(e.as_ref().to_owned()),
        Event::Eof => XmlEvent::Eof,
        _ => XmlEvent::Other,
    })
}

} // verus!
