//! The data that the retrieval core stores and hands out.

use vstd::prelude::*;
use crate::ident::{is_uuid_text, random_uuid};

verus! {

/// How two vectors of a collection are compared.
#[derive(Clone, Copy, Debug, PartialEq, Eq, Structural)]
pub enum Metric {
    Cosine,
    Dot,
    Euclidean,
}

/// One value of a document's metadata.
#[derive(Debug)]
pub enum MetaValue {
    Text(String),
    Integer(i64),
    Flag(bool),
    TextList(Vec<String>),
}

/// What a [`MetaValue`] holds.
pub enum MetaValueView {
    Text(Seq<char>),
    Integer(i64),
    Flag(bool),
    TextList(Seq<Seq<char>>),
}

impl DeepView for MetaValue {
    type V = MetaValueView;

    open spec fn deep_view(&self) -> MetaValueView {
        match self {
            MetaValue::Text(s) => MetaValueView::Text(s@),
            MetaValue::Integer(n) => MetaValueView::Integer(*n),
            MetaValue::Flag(b) => MetaValueView::Flag(*b),
            MetaValue::TextList(items) => MetaValueView::TextList(items.deep_view()),
        }
    }
}

impl View for MetaValue {
    type V = MetaValueView;

    open spec fn view(&self) -> MetaValueView {
        self.deep_view()
    }
}

impl MetaValue {
    /// A copy that holds the same value.
    pub fn duplicate(&self) -> (res: MetaValue)
        ensures
            res@ == self@,
    {
        match self {
            MetaValue::Text(s) => MetaValue::Text(s.clone()),
            MetaValue::Integer(n) => MetaValue::Integer(*n),
            MetaValue::Flag(b) => MetaValue::Flag(*b),
            MetaValue::TextList(items) => MetaValue::TextList(items.clone()),
        }
    }
}

/// A stored text with its identifier and its metadata, an ordered list of
/// named values.
#[derive(Debug)]
pub struct Document {
    pub id: String,
    pub text: String,
    pub metadata: Vec<(String, MetaValue)>,
}

/// What a [`Document`] holds.
pub struct DocumentView {
    pub id: Seq<char>,
    pub text: Seq<char>,
    pub metadata: Seq<(Seq<char>, MetaValueView)>,
}

impl View for Document {
    type V = DocumentView;

    open spec fn view(&self) -> DocumentView {
        DocumentView { id: self.id@, text: self.text@, metadata: self.metadata.deep_view() }
    }
}

/// The first position of `metadata` whose name is `key`, or the length of
/// `metadata` when there is none.
pub open spec fn first_named(metadata: Seq<(Seq<char>, MetaValueView)>, key: Seq<char>) -> int
    decreases metadata.len(),
{
    if metadata.len() == 0 {
        0
    } else if metadata[0].0 == key {
        0
    } else {
        1 + first_named(metadata.skip(1), key)
    }
}

/// The text stored under the first entry named `key`, when that entry holds a text.
pub open spec fn text_field(doc: DocumentView, key: Seq<char>) -> Option<Seq<char>> {
    let at = first_named(doc.metadata, key);
    if at < doc.metadata.len() {
        match doc.metadata[at].1 {
            MetaValueView::Text(s) => Some(s),
            _ => None,
        }
    } else {
        None
    }
}

/// A position that names the key, with nothing before it that does, is `first_named`.
pub proof fn lemma_first_named_is(metadata: Seq<(Seq<char>, MetaValueView)>, key: Seq<char>, at: int)
    requires
        0 <= at <= metadata.len(),
        at < metadata.len() ==> metadata[at].0 == key,
        forall|j: int| 0 <= j < at ==> metadata[j].0 != key,
    ensures
        first_named(metadata, key) == at,
    decreases metadata.len(),
{
    if metadata.len() > 0 && at > 0 {
        let rest = metadata.skip(1);
        assert(metadata[0].0 != key);
        assert forall|j: int| 0 <= j < at - 1 implies rest[j].0 != key by {
            assert(rest[j] == metadata[j + 1]);
        }
        lemma_first_named_is(rest, key, at - 1);
    }
}

impl Document {
    /// A document with the given identifier, text and metadata.
    pub fn new(id: String, text: String, metadata: Vec<(String, MetaValue)>) -> (res: Document)
        ensures
            res.id == id,
            res.text == text,
            res.metadata == metadata,
    {
        Document { id, text, metadata }
    }

    /// A document with a fresh random identifier.
    pub fn generate(text: String, metadata: Vec<(String, MetaValue)>) -> (res: Document)
        ensures
            is_uuid_text(res.id@),
            res.text == text,
            res.metadata == metadata,
    {
        Document { id: random_uuid(), text, metadata }
    }

    /// A copy that holds the same identifier, text and metadata.
    pub fn duplicate(&self) -> (res: Document)
        ensures
            res@ == self@,
    {
        let mut metadata: Vec<(String, MetaValue)> = Vec::new();
        let mut i: usize = 0;
        while i < self.metadata.len()
            invariant
                i <= self.metadata.len(),
                metadata.len() == i,
                forall|j: int| 0 <= j < i ==> metadata[j].deep_view() == self.metadata[j].deep_view(),
            decreases self.metadata.len() - i,
        {
            let entry = &self.metadata[i];
            metadata.push((entry.0.clone(), entry.1.duplicate()));
            i += 1;
        }
        assert(metadata.deep_view() =~= self.metadata.deep_view());
        Document { id: self.id.clone(), text: self.text.clone(), metadata }
    }

    /// Only the identifier: the text and the metadata are left empty.
    pub fn id_only(&self) -> (res: Document)
        ensures
            res@ == (DocumentView { id: self@.id, text: Seq::empty(), metadata: Seq::empty() }),
    {
        let metadata: Vec<(String, MetaValue)> = Vec::new();
        assert(metadata.deep_view() =~= Seq::empty());
        Document { id: self.id.clone(), text: String::new(), metadata }
    }

    /// The text stored under the first metadata entry named `key`; `None`
    /// when no entry has that name or the first one holds no text.
    pub fn text_of(&self, key: &str) -> (res: Option<String>)
        ensures
            res is Some <==> text_field(self@, key@) is Some,
            res is Some ==> res->0@ == text_field(self@, key@)->0,
    {
        let wanted = key.to_owned();
        let mut i: usize = 0;
        while i < self.metadata.len()
            invariant
                i <= self.metadata.len(),
                wanted@ == key@,
                forall|j: int| 0 <= j < i ==> self@.metadata[j].0 != key@,
            decreases self.metadata.len() - i,
        {
            let entry = &self.metadata[i];
            assert(self@.metadata[i as int] == entry.deep_view());
            if entry.0 == wanted {
                proof {
                    lemma_first_named_is(self@.metadata, key@, i as int);
                }
                return match &entry.1 {
                    MetaValue::Text(s) => Some(s.clone()),
                    _ => None,
                };
            }
            i += 1;
        }
        proof {
            lemma_first_named_is(self@.metadata, key@, self.metadata.len() as int);
        }
        None
    }
}

/// The schema of a collection: its name, the length of its vectors and the
/// metric that orders them.
#[derive(Debug)]
pub struct Collection {
    pub name: String,
    pub dimension: usize,
    pub metric: Metric,
}

/// A vector with the identifier of the document that it was computed from.
/// Each component is a binary64 bit pattern.
#[derive(Debug)]
pub struct Embedding {
    pub owner_id: String,
    pub vector: Vec<u64>,
}

impl Embedding {
    /// The number of components.
    pub fn dimension(&self) -> (n: usize)
        ensures
            n == self.vector@.len(),
    {
        self.vector.len()
    }
}

/// Why the embedding service gave no usable vectors.
#[derive(Debug)]
pub enum EmbeddingError {
    /// The call to the service failed; the service's message.
    Backend(String),
    /// The input is larger than the service accepts.
    InputTooLarge,
    /// The answer does not hold one non-empty vector for each text.
    Malformed,
}

/// Why an operation of the index was refused.
#[derive(Debug)]
pub enum RetrievalError {
    Embedding(EmbeddingError),
    DimensionMismatch { expected: usize, actual: usize },
    SchemaConflict,
    NotFound,
    InvalidInput,
}

/// Why an ingestion stopped.
#[derive(Debug)]
pub enum IngestError {
    EmptyInput,
    Embedding(EmbeddingError),
    Index(RetrievalError),
}

} // verus!
