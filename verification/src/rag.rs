//! Answering from a file: the file as rows to embed and as documents of the
//! index, and the prompt with the context that was found for it.

use vstd::prelude::*;
use crate::gate::{best_of, hit_ranks, option_text, search_context};
use crate::ident::{is_uuid_text, random_uuid};
use crate::index::{
    collection_position,
    empty_collection,
    has_collection,
    is_search_answer,
    CollectionView,
    SearchResult,
    VectorIndex,
};
use crate::ingest::{ingest, ingested};
use crate::model::{
    text_field,
    Document,
    Embedding,
    EmbeddingError,
    IngestError,
    MetaValue,
    MetaValueView,
    Metric,
    RetrievalError,
};
use crate::score::Score;
use crate::text::{lines_of, split_lines};

verus! {

/// The collection that the files are written to.
pub const COLLECTION: &'static str = "my-collection";

/// The length of the vectors of that collection.
pub const COLLECTION_SIZE: usize = 1536;

/// A file that was read: where it lies, what it holds, and its lines.
#[derive(Debug)]
pub struct File {
    pub path: String,
    pub contents: String,
    pub rows: Vec<String>,
}

/// A question to the assistant.
#[derive(Debug)]
pub struct Prompt {
    pub prompt: String,
}

/// What is stored with every vector of a file: where the file lies, what it
/// holds, and its lines.
pub open spec fn file_payload(path: Seq<char>, contents: Seq<char>, rows: Seq<Seq<char>>) -> Seq<
    (Seq<char>, MetaValueView),
> {
    seq![
        ("id"@, MetaValueView::Text(path)),
        ("content"@, MetaValueView::Text(contents)),
        ("rows"@, MetaValueView::TextList(rows)),
    ]
}

impl File {
    /// The file at `path` with the given contents; its rows are the lines of
    /// the contents.
    pub fn new(path: String, contents: String) -> (res: File)
        ensures
            res.path == path,
            res.contents == contents,
            res.rows.deep_view() == lines_of(contents@),
    {
        let rows = split_lines(contents.as_str());
        File { path, contents, rows }
    }

    /// The texts to send to the embedding service: the rows, in order. A
    /// file without rows is refused as `EmptyInput`.
    pub fn rows_to_embed(&self) -> (res: Result<Vec<String>, IngestError>)
        ensures
            self.rows.len() == 0 ==> res is Err && res->Err_0 is EmptyInput,
            self.rows.len() > 0 ==> res is Ok && res->Ok_0.deep_view() == self.rows.deep_view(),
    {
        if self.rows.len() == 0 {
            return Err(IngestError::EmptyInput);
        }
        Ok(self.rows.clone())
    }

    /// What is stored with every vector of the file.
    pub fn payload(&self) -> (res: Vec<(String, MetaValue)>)
        ensures
            res.deep_view() == file_payload(self.path@, self.contents@, self.rows.deep_view()),
    {
        let mut res: Vec<(String, MetaValue)> = Vec::new();
        res.push(("id".to_owned(), MetaValue::Text(self.path.clone())));
        res.push(("content".to_owned(), MetaValue::Text(self.contents.clone())));
        res.push(("rows".to_owned(), MetaValue::TextList(self.rows.clone())));
        assert(res.deep_view() =~= file_payload(self.path@, self.contents@, self.rows.deep_view()));
        res
    }

    /// The documents under which `count` vectors of the file are written:
    /// each has a fresh random identifier, the contents of the file as its
    /// text, and the payload of the file.
    pub fn documents(&self, count: usize) -> (res: Vec<Document>)
        ensures
            res.len() == count,
            forall|i: int|
                0 <= i < count ==> is_uuid_text((#[trigger] res[i])@.id) && res[i]@.text
                    == self.contents@ && res[i]@.metadata == file_payload(
                    self.path@,
                    self.contents@,
                    self.rows.deep_view(),
                ),
    {
        let mut res: Vec<Document> = Vec::new();
        let mut i: usize = 0;
        while i < count
            invariant
                i <= count,
                res.len() == i,
                forall|j: int|
                    0 <= j < i ==> is_uuid_text((#[trigger] res[j])@.id) && res[j]@.text
                        == self.contents@ && res[j]@.metadata == file_payload(
                        self.path@,
                        self.contents@,
                        self.rows.deep_view(),
                    ),
            decreases count - i,
        {
            res.push(
                Document { id: random_uuid(), text: self.contents.clone(), metadata: self.payload() },
            );
            i += 1;
        }
        res
    }
}

/// A question with the context that was found for it.
pub open spec fn prompt_with_context(prompt: Seq<char>, context: Seq<char>) -> Seq<char> {
    prompt + "\n\n            Provided context:\n            "@ + context + "\n            "@
}

/// The question with the context that was found for it, as it is put to the
/// model.
pub fn augment_prompt(prompt: &str, context: &str) -> (input: String)
    ensures
        input@ == prompt_with_context(prompt@, context@),
{
    let mut input = prompt.to_owned();
    input.append("\n\n            Provided context:\n            ");
    input.append(context);
    input.append("\n            ");
    assert(input@ =~= prompt_with_context(prompt@, context@));
    input
}

/// Whether `documents` are documents of the file: each has the shape of a
/// fresh identifier, the contents of the file as its text, and the payload
/// of the file.
pub open spec fn documents_of_file(file: File, documents: Seq<Document>) -> bool {
    forall|i: int|
        0 <= i < documents.len() ==> is_uuid_text((#[trigger] documents[i])@.id) && documents[i]@.text
            == file.contents@ && documents[i]@.metadata == file_payload(
            file.path@,
            file.contents@,
            file.rows.deep_view(),
        )
}

/// The agent that answers from files: an index with the one collection that
/// the files are written to.
pub struct MyAgent {
    index: VectorIndex,
}

impl MyAgent {
    /// What the index of the agent holds.
    pub closed spec fn index(&self) -> Seq<CollectionView> {
        self.index@
    }

    /// An agent whose index holds the empty collection of files, with
    /// vectors of length `dimension` compared by their cosine.
    pub fn with(dimension: usize) -> (res: MyAgent)
        ensures
            res.index() == seq![empty_collection(COLLECTION@, dimension as nat, Metric::Cosine)],
    {
        let mut index = VectorIndex::new();
        let created = index.ensure_collection(COLLECTION, dimension, Metric::Cosine);
        proof {
            crate::lookup::lemma_first_position_is(
                crate::index::names(Seq::<CollectionView>::empty()),
                COLLECTION@,
                0,
            );
            assert(index@ =~= seq![empty_collection(COLLECTION@, dimension as nat, Metric::Cosine)]);
        }
        MyAgent { index }
    }

    /// An agent with the usual length of vectors.
    pub fn new() -> (res: MyAgent)
        ensures
            res.index() == seq![empty_collection(COLLECTION@, COLLECTION_SIZE as nat, Metric::Cosine)],
    {
        MyAgent::with(COLLECTION_SIZE)
    }

    /// Writes a file to the collection, given the vectors of its rows: one
    /// document of the file for each row, ingested with the vectors. A file
    /// without rows is refused as `EmptyInput`.
    pub fn embed_document(&mut self, file: &File, embedded: Result<Vec<Vec<u64>>, EmbeddingError>) -> (res:
        Result<(), IngestError>)
        ensures
            exists|documents: Seq<Document>| #[trigger]
                documents_of_file(*file, documents) && documents.len() == file.rows.len() && ingested(
                    old(self).index(),
                    COLLECTION@,
                    documents,
                    embedded,
                    final(self).index(),
                    res,
                ),
    {
        let documents = file.documents(file.rows.len());
        assert(documents_of_file(*file, documents@));
        ingest(&mut self.index, COLLECTION, &documents, embedded)
    }

    /// The stored vectors, in the order of the entries, for the caller to
    /// score a question against.
    pub fn stored(&self) -> (res: Result<Vec<Embedding>, RetrievalError>)
        ensures
            !has_collection(self.index(), COLLECTION@) ==> res is Err && res->Err_0 is NotFound,
            has_collection(self.index(), COLLECTION@) ==> {
                let points = self.index()[collection_position(self.index(), COLLECTION@)].points;
                &&& res is Ok
                &&& res->Ok_0.len() == points.len()
                &&& forall|i: int|
                    0 <= i < points.len() ==> (#[trigger] res->Ok_0[i]).owner_id@
                        == points[i].document.id && res->Ok_0[i].vector@ == points[i].vector
            },
    {
        self.index.embeddings(COLLECTION)
    }

    /// The context for a question, given its vector and the score of every
    /// stored entry against it: the text that the nearest entry stores as
    /// `content`, or `None` when nothing is stored.
    pub fn search_document(&self, query: &Vec<u64>, scores: &Vec<Score>) -> (res: Result<
        Option<String>,
        RetrievalError,
    >)
        ensures
            !has_collection(self.index(), COLLECTION@) ==> res is Err && res->Err_0 is NotFound,
            has_collection(self.index(), COLLECTION@) ==> {
                let c = self.index()[collection_position(self.index(), COLLECTION@)];
                &&& query@.len() != c.dimension ==> res is Err && res->Err_0
                    == (RetrievalError::DimensionMismatch {
                    expected: c.dimension as usize,
                    actual: query.len(),
                })
                &&& query@.len() == c.dimension && scores@.len() != c.points.len() ==> res is Err
                    && res->Err_0 is InvalidInput
                &&& query@.len() == c.dimension && scores@.len() == c.points.len() ==> res is Ok
                    && exists|results: Seq<SearchResult>| #[trigger]
                    is_search_answer(c.points, scores@, 1, true, results) && (results.len() == 0
                        ==> res->Ok_0 is None) && (results.len() > 0 ==> option_text(res->Ok_0)
                        == text_field(results[best_of(hit_ranks(results))].document@, "content"@))
            },
    {
        match self.index.search(COLLECTION, query, scores, 1, true) {
            Ok(results) => Ok(search_context(&results, "content")),
            Err(e) => Err(e),
        }
    }

    /// The question with the context that was found for it, as it is put to
    /// the model.
    pub fn prompt(prompt: &str, context: &str) -> (input: String)
        ensures
            input@ == prompt_with_context(prompt@, context@),
    {
        augment_prompt(prompt, context)
    }
}

} // verus!
