//! Topics and the utterances that stand for them in the index.

use vstd::prelude::*;
use crate::ident::{is_uuid_text, random_uuid};
use crate::model::{Document, DocumentView, MetaValue, MetaValueView};

verus! {

/// A sentence that belongs to a topic. Only its content is embedded; the
/// identifier and the topic travel with it.
#[derive(Debug)]
pub struct Utterance {
    pub id: String,
    pub topic: String,
    pub content: String,
}

/// What an utterance looks like as a document: the content is the text, and
/// the topic is the text of the one metadata entry, named `topic`.
pub open spec fn document_of(id: Seq<char>, topic: Seq<char>, content: Seq<char>) -> DocumentView {
    DocumentView {
        id,
        text: content,
        metadata: seq![("topic"@, MetaValueView::Text(topic))],
    }
}

impl Utterance {
    /// An utterance of `topic` with a fresh random identifier.
    pub fn new(topic: &str, content: &str) -> (res: Utterance)
        ensures
            res.topic@ == topic@,
            res.content@ == content@,
            is_uuid_text(res.id@),
    {
        Utterance { id: random_uuid(), topic: topic.to_owned(), content: content.to_owned() }
    }

    /// The text to embed: the content, and nothing else.
    pub fn embed(&self) -> (text: String)
        ensures
            text@ == self.content@,
    {
        self.content.clone()
    }

    /// A copy with the same identifier, topic and content.
    pub fn duplicate(&self) -> (res: Utterance)
        ensures
            res.id@ == self.id@,
            res.topic@ == self.topic@,
            res.content@ == self.content@,
    {
        Utterance { id: self.id.clone(), topic: self.topic.clone(), content: self.content.clone() }
    }

    /// The utterance as a document of the index.
    pub fn to_document(&self) -> (doc: Document)
        ensures
            doc@ == document_of(self.id@, self.topic@, self.content@),
    {
        let mut metadata: Vec<(String, MetaValue)> = Vec::new();
        metadata.push(("topic".to_owned(), MetaValue::Text(self.topic.clone())));
        let doc = Document { id: self.id.clone(), text: self.content.clone(), metadata };
        assert(doc@.metadata =~= seq![("topic"@, MetaValueView::Text(self.topic@))]);
        doc
    }

    /// The utterance that a document stands for; `None` when the document has
    /// no text under the name `topic`.
    pub fn from_document(doc: &Document) -> (res: Option<Utterance>)
        ensures
            res is Some <==> crate::model::text_field(doc@, "topic"@) is Some,
            res is Some ==> {
                &&& res->0.id@ == doc@.id
                &&& res->0.content@ == doc@.text
                &&& res->0.topic@ == crate::model::text_field(doc@, "topic"@)->0
            },
    {
        match doc.text_of("topic") {
            Some(topic) => Some(Utterance { id: doc.id.clone(), topic, content: doc.text.clone() }),
            None => None,
        }
    }
}

/// A named topic, from which utterances are made.
#[derive(Debug)]
pub struct Topic {
    name: String,
}

impl Topic {
    /// The name of the topic.
    pub closed spec fn spec_name(&self) -> Seq<char> {
        self.name@
    }

    /// The topic called `name`.
    pub fn new(name: &str) -> (res: Topic)
        ensures
            res.spec_name() == name@,
    {
        let name = name.to_owned();
        Topic { name }
    }

    /// The name of the topic.
    pub fn name(&self) -> (name: String)
        ensures
            name@ == self.spec_name(),
    {
        self.name.clone()
    }

    /// A new utterance of this topic, with a fresh random identifier.
    pub fn new_utterance(&self, content: &str) -> (res: Utterance)
        ensures
            res.topic@ == self.spec_name(),
            res.content@ == content@,
            is_uuid_text(res.id@),
    {
        Utterance::new(self.name.as_str(), content)
    }
}

/// The document of an utterance carries its topic: read back, it gives the
/// same identifier, topic and content.
pub proof fn law_utterance_round_trip(id: Seq<char>, topic: Seq<char>, content: Seq<char>)
    ensures
        crate::model::text_field(document_of(id, topic, content), "topic"@) == Some(topic),
        document_of(id, topic, content).id == id,
        document_of(id, topic, content).text == content,
{
    let doc = document_of(id, topic, content);
    crate::model::lemma_first_named_is(doc.metadata, "topic"@, 0);
}

} // verus!
