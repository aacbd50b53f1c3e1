//! The semantic router: utterances of topics in one collection, and queries
//! that are routed to the topic of the nearest utterance or to none.

use vstd::prelude::*;
use crate::gate::{is_decision, route, RoutingDecision};
use crate::index::{
    collection_position,
    empty_collection,
    has_collection,
    is_search_answer,
    CollectionView,
    SearchResult,
    VectorIndex,
};
use crate::ingest::{ingest, ingested};
use crate::model::{Document, Embedding, EmbeddingError, IngestError, Metric, RetrievalError};
use crate::score::Score;
use crate::topics::{document_of, Utterance};

verus! {

/// The collection that holds the utterances.
pub const COLLECTION_NAME: &'static str = "SEMANTIC_ROUTING";

/// The length of the vectors of that collection.
pub const COLLECTION_SIZE: usize = 1536;

/// The binary64 pattern of 85 hundredths, the threshold that a router has
/// unless it is given another.
pub const THRESHOLD_BITS: u64 = 0x3FEB_3333_3333_3333;

/// How many nearest entries a query looks at.
pub const NEAREST: usize = 1;

/// The threshold that a router has unless it is given another.
pub fn default_threshold() -> (threshold: Score)
    ensures
        threshold.spec_bits() == THRESHOLD_BITS,
{
    match Score::from_bits(THRESHOLD_BITS) {
        Some(threshold) => threshold,
        None => Score::zero(),
    }
}

/// The utterances as documents of the index, in order.
pub open spec fn documents_of(utterances: Seq<Utterance>, documents: Seq<Document>) -> bool {
    &&& documents.len() == utterances.len()
    &&& forall|i: int|
        0 <= i < utterances.len() ==> (#[trigger] documents[i])@ == document_of(
            utterances[i].id@,
            utterances[i].topic@,
            utterances[i].content@,
        )
}

/// A router with its index and its threshold.
pub struct SemanticRouter {
    index: VectorIndex,
    threshold: Score,
}

impl SemanticRouter {
    /// What the index of the router holds.
    pub closed spec fn index(&self) -> Seq<CollectionView> {
        self.index@
    }

    /// The threshold of the router.
    pub closed spec fn threshold(&self) -> Score {
        self.threshold
    }

    /// A router with the given threshold, whose index holds the empty
    /// collection of utterances, with vectors of length `dimension` compared
    /// by their cosine.
    pub fn with(dimension: usize, threshold: Score) -> (res: SemanticRouter)
        ensures
            res.index() == seq![empty_collection(COLLECTION_NAME@, dimension as nat, Metric::Cosine)],
            res.threshold() == threshold,
    {
        let mut index = VectorIndex::new();
        let created = index.ensure_collection(COLLECTION_NAME, dimension, Metric::Cosine);
        proof {
            crate::lookup::lemma_first_position_is(
                crate::index::names(Seq::<CollectionView>::empty()),
                COLLECTION_NAME@,
                0,
            );
            assert(index@ =~= seq![
                empty_collection(COLLECTION_NAME@, dimension as nat, Metric::Cosine),
            ]);
        }
        SemanticRouter { index, threshold }
    }

    /// A router with the usual threshold and the usual length of vectors.
    pub fn new() -> (res: SemanticRouter)
        ensures
            res.index() == seq![
                empty_collection(COLLECTION_NAME@, COLLECTION_SIZE as nat, Metric::Cosine),
            ],
            res.threshold().spec_bits() == THRESHOLD_BITS,
    {
        SemanticRouter::with(COLLECTION_SIZE, default_threshold())
    }

    /// The texts to send to the embedding service for the utterances: their
    /// contents, in order; `EmptyInput` when there is no utterance.
    pub fn embed_requests(utterances: &Vec<Utterance>) -> (res: Result<Vec<String>, IngestError>)
        ensures
            utterances.len() == 0 ==> res is Err && res->Err_0 is EmptyInput,
            utterances.len() > 0 ==> res is Ok && res->Ok_0.len() == utterances.len() && forall|i: int|
                0 <= i < utterances.len() ==> (#[trigger] res->Ok_0[i])@ == utterances[i].content@,
    {
        if utterances.len() == 0 {
            return Err(IngestError::EmptyInput);
        }
        let mut texts: Vec<String> = Vec::new();
        let mut i: usize = 0;
        while i < utterances.len()
            invariant
                i <= utterances.len(),
                texts.len() == i,
                forall|j: int| 0 <= j < i ==> (#[trigger] texts[j])@ == utterances[j].content@,
            decreases utterances.len() - i,
        {
            texts.push(utterances[i].embed());
            i += 1;
        }
        Ok(texts)
    }

    /// Writes the utterances with the vectors of their contents to the
    /// collection: an ingestion of the utterances as documents.
    pub fn embed_utterances(
        &mut self,
        utterances: &Vec<Utterance>,
        embedded: Result<Vec<Vec<u64>>, EmbeddingError>,
    ) -> (res: Result<(), IngestError>)
        ensures
            final(self).threshold() == old(self).threshold(),
            exists|documents: Seq<Document>| #[trigger]
                documents_of(utterances@, documents) && ingested(
                    old(self).index(),
                    COLLECTION_NAME@,
                    documents,
                    embedded,
                    final(self).index(),
                    res,
                ),
    {
        let mut documents: Vec<Document> = Vec::new();
        let mut i: usize = 0;
        while i < utterances.len()
            invariant
                i <= utterances.len(),
                documents.len() == i,
                forall|j: int|
                    0 <= j < i ==> (#[trigger] documents[j])@ == document_of(
                        utterances[j].id@,
                        utterances[j].topic@,
                        utterances[j].content@,
                    ),
            decreases utterances.len() - i,
        {
            documents.push(utterances[i].to_document());
            i += 1;
        }
        assert(documents_of(utterances@, documents@));
        ingest(&mut self.index, COLLECTION_NAME, &documents, embedded)
    }

    /// The stored vectors, in the order of the entries, for the caller to
    /// score a query against.
    pub fn stored(&self) -> (res: Result<Vec<Embedding>, RetrievalError>)
        ensures
            !has_collection(self.index(), COLLECTION_NAME@) ==> res is Err && res->Err_0 is NotFound,
            has_collection(self.index(), COLLECTION_NAME@) ==> {
                let points = self.index()[collection_position(self.index(), COLLECTION_NAME@)].points;
                &&& res is Ok
                &&& res->Ok_0.len() == points.len()
                &&& forall|i: int|
                    0 <= i < points.len() ==> (#[trigger] res->Ok_0[i]).owner_id@
                        == points[i].document.id && res->Ok_0[i].vector@ == points[i].vector
            },
    {
        self.index.embeddings(COLLECTION_NAME)
    }

    /// Routes a query, given its vector and the score of every stored entry
    /// against it: the nearest entry decides, and only when its score is
    /// strictly above the threshold.
    pub fn query(&self, query: &Vec<u64>, scores: &Vec<Score>) -> (res: Result<
        RoutingDecision,
        RetrievalError,
    >)
        ensures
            !has_collection(self.index(), COLLECTION_NAME@) ==> res is Err && res->Err_0 is NotFound,
            has_collection(self.index(), COLLECTION_NAME@) ==> {
                let c = self.index()[collection_position(self.index(), COLLECTION_NAME@)];
                &&& query@.len() != c.dimension ==> res is Err && res->Err_0
                    == (RetrievalError::DimensionMismatch {
                    expected: c.dimension as usize,
                    actual: query.len(),
                })
                &&& query@.len() == c.dimension && scores@.len() != c.points.len() ==> res is Err
                    && res->Err_0 is InvalidInput
                &&& query@.len() == c.dimension && scores@.len() == c.points.len() ==> res is Ok
                    && exists|results: Seq<SearchResult>| #[trigger]
                    is_search_answer(c.points, scores@, NEAREST as nat, true, results)
                        && is_decision(results, self.threshold(), res->Ok_0)
            },
    {
        route(&self.index, COLLECTION_NAME, query, scores, NEAREST, self.threshold)
    }
}

} // verus!
