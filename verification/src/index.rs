//! The vector index: named collections with a fixed schema, each holding
//! documents with their vectors under unique identifiers.
//!
//! The index keeps the entries of a collection in the order in which their
//! identifiers first arrived; an entry that is replaced keeps its place. A
//! search ranks the entries by the scores that the caller computed for them,
//! best first, and of two entries with the same score the one that stands
//! earlier comes first.

use vstd::prelude::*;
use crate::lookup::{all_distinct, first_position, lemma_first_position, lemma_first_position_is};
use crate::model::{Collection, Document, DocumentView, Embedding, Metric, RetrievalError};
use crate::ranking::{is_ranking, precedes, rank_top, ranks_of};
use crate::score::Score;

verus! {

/// What an entry of a collection holds.
pub struct PointView {
    pub document: DocumentView,
    pub vector: Seq<u64>,
}

/// What a collection holds.
pub struct CollectionView {
    pub name: Seq<char>,
    pub dimension: nat,
    pub metric: Metric,
    pub points: Seq<PointView>,
}

/// The names of the collections, in order.
pub open spec fn names(index: Seq<CollectionView>) -> Seq<Seq<char>> {
    Seq::new(index.len(), |i: int| index[i].name)
}

/// The identifiers of the entries, in order.
pub open spec fn ids(points: Seq<PointView>) -> Seq<Seq<char>> {
    Seq::new(points.len(), |i: int| points[i].document.id)
}

/// Whether a collection is consistent: identifiers are unique and every
/// vector has the collection's dimension.
pub open spec fn collection_ok(c: CollectionView) -> bool {
    &&& all_distinct(ids(c.points))
    &&& forall|i: int| 0 <= i < c.points.len() ==> (#[trigger] c.points[i]).vector.len() == c.dimension
}

/// Whether an index is consistent: names are unique and every collection is
/// consistent.
pub open spec fn index_ok(index: Seq<CollectionView>) -> bool {
    &&& all_distinct(names(index))
    &&& forall|i: int| 0 <= i < index.len() ==> collection_ok(#[trigger] index[i])
}

/// The position of the collection called `name`, or the number of
/// collections when there is none.
pub open spec fn collection_position(index: Seq<CollectionView>, name: Seq<char>) -> int {
    first_position(names(index), name)
}

/// Whether the index has a collection called `name`.
pub open spec fn has_collection(index: Seq<CollectionView>, name: Seq<char>) -> bool {
    collection_position(index, name) < index.len()
}

/// The entries after `point` was written: it replaces the entry with its
/// identifier, in place, or is added at the end.
pub open spec fn with_point(points: Seq<PointView>, point: PointView) -> Seq<PointView> {
    let at = first_position(ids(points), point.document.id);
    if at < points.len() {
        points.update(at, point)
    } else {
        points.push(point)
    }
}

/// The index after `point` was written to the collection at position `c`.
pub open spec fn with_point_in(index: Seq<CollectionView>, c: int, point: PointView) -> Seq<
    CollectionView,
> {
    index.update(c, CollectionView { points: with_point(index[c].points, point), ..index[c] })
}

/// An empty collection with the given schema.
pub open spec fn empty_collection(name: Seq<char>, dimension: nat, metric: Metric) -> CollectionView {
    CollectionView { name, dimension, metric, points: Seq::empty() }
}

/// What is to be done for a collection to exist with a schema.
#[derive(Clone, Copy, Debug, PartialEq, Eq, Structural)]
pub enum CollectionPlan {
    /// The collection does not exist: it is to be created.
    Create,
    /// The collection exists with this schema: nothing is to be done.
    Keep,
}

/// Decides what is to be done for a collection to exist with the dimension
/// and the metric that are wanted, given the schema under which a store
/// holds it, if it does: to create it when it is missing, nothing when it
/// is there with the same dimension and metric, and to refuse with
/// `SchemaConflict` when it is there with another one.
pub fn plan_collection(existing: Option<&Collection>, dimension: usize, metric: Metric) -> (res: Result<
    CollectionPlan,
    RetrievalError,
>)
    ensures
        existing is None ==> res == Ok::<CollectionPlan, RetrievalError>(CollectionPlan::Create),
        existing is Some && existing->0.dimension == dimension && existing->0.metric == metric ==> res
            == Ok::<CollectionPlan, RetrievalError>(CollectionPlan::Keep),
        existing is Some && !(existing->0.dimension == dimension && existing->0.metric == metric)
            ==> res is Err && res->Err_0 is SchemaConflict,
{
    match existing {
        None => Ok(CollectionPlan::Create),
        Some(schema) => if schema.dimension == dimension && schema.metric == metric {
            Ok(CollectionPlan::Keep)
        } else {
            Err(RetrievalError::SchemaConflict)
        },
    }
}

/// One hit of a search.
#[derive(Debug)]
pub struct SearchResult {
    pub score: Score,
    pub document: Document,
}

/// The document as a search shows it: whole with the payload, otherwise the
/// identifier alone.
pub open spec fn shown(document: DocumentView, with_payload: bool) -> DocumentView {
    if with_payload {
        document
    } else {
        DocumentView { id: document.id, text: Seq::empty(), metadata: Seq::empty() }
    }
}

/// Whether `results` are the hits that `order` lists: the score and the
/// document of each listed entry, in that order.
pub open spec fn hits_of(
    points: Seq<PointView>,
    scores: Seq<Score>,
    with_payload: bool,
    order: Seq<usize>,
    results: Seq<SearchResult>,
) -> bool {
    &&& results.len() == order.len()
    &&& forall|i: int|
        0 <= i < order.len() ==> (#[trigger] results[i]).score == scores[order[i] as int]
            && results[i].document@ == shown(points[order[i] as int].document, with_payload)
}

/// Whether `results` answer a search for the best `k` of `points` under
/// `scores`.
pub open spec fn is_search_answer(
    points: Seq<PointView>,
    scores: Seq<Score>,
    k: nat,
    with_payload: bool,
    results: Seq<SearchResult>,
) -> bool {
    exists|order: Seq<usize>| #[trigger]
        is_ranking(ranks_of(scores), k, order) && hits_of(points, scores, with_payload, order, results)
}

/// Whether the scores of `results` never increase from one hit to the next.
pub open spec fn scores_descend(results: Seq<SearchResult>) -> bool {
    forall|i: int, j: int|
        0 <= i < j < results.len() ==> (#[trigger] results[i]).score.rank() >= (
        #[trigger] results[j]).score.rank()
}

struct StoredPoint {
    document: Document,
    vector: Vec<u64>,
}

impl View for StoredPoint {
    type V = PointView;

    closed spec fn view(&self) -> PointView {
        PointView { document: self.document@, vector: self.vector@ }
    }
}

struct StoredCollection {
    schema: Collection,
    points: Vec<StoredPoint>,
}

impl View for StoredCollection {
    type V = CollectionView;

    closed spec fn view(&self) -> CollectionView {
        CollectionView {
            name: self.schema.name@,
            dimension: self.schema.dimension as nat,
            metric: self.schema.metric,
            points: Seq::new(self.points.len() as nat, |i: int| self.points[i]@),
        }
    }
}

/// An index of vectors held in memory.
pub struct VectorIndex {
    collections: Vec<StoredCollection>,
}

impl View for VectorIndex {
    type V = Seq<CollectionView>;

    closed spec fn view(&self) -> Seq<CollectionView> {
        Seq::new(self.collections.len() as nat, |i: int| self.collections[i]@)
    }
}

impl VectorIndex {
    /// The invariant of the type: the index is consistent.
    #[verifier::type_invariant]
    pub open spec fn consistent(&self) -> bool {
        index_ok(self@)
    }

    /// An index without collections.
    pub fn new() -> (res: VectorIndex)
        ensures
            res@ == Seq::<CollectionView>::empty(),
    {
        let res = VectorIndex { collections: Vec::new() };
        assert(res@ =~= Seq::<CollectionView>::empty());
        res
    }

    /// The position of the collection called `name`.
    fn find(&self, name: &String) -> (c: usize)
        ensures
            c == collection_position(self@, name@),
            c <= self.collections.len(),
            self@.len() == self.collections.len(),
            c < self.collections.len() ==> self.collections[c as int]@ == self@[c as int]
                && self@[c as int].name == name@,
    {
        let mut c: usize = 0;
        while c < self.collections.len()
            invariant
                c <= self.collections.len(),
                self@.len() == self.collections.len(),
                forall|j: int| 0 <= j < c ==> names(self@)[j] != name@,
            decreases self.collections.len() - c,
        {
            if self.collections[c].schema.name == *name {
                proof {
                    lemma_first_position_is(names(self@), name@, c as int);
                }
                return c;
            }
            c += 1;
        }
        proof {
            lemma_first_position_is(names(self@), name@, c as int);
        }
        c
    }

    /// The schema of the collection called `name`, if the index has it.
    pub fn collection(&self, name: &str) -> (res: Option<Collection>)
        ensures
            res is Some <==> has_collection(self@, name@),
            res is Some ==> {
                let c = self@[collection_position(self@, name@)];
                &&& res->0.name@ == name@
                &&& res->0.dimension == c.dimension
                &&& res->0.metric == c.metric
            },
    {
        let wanted = name.to_owned();
        let c = self.find(&wanted);
        if c < self.collections.len() {
            let schema = &self.collections[c].schema;
            Some(Collection { name: wanted, dimension: schema.dimension, metric: schema.metric })
        } else {
            None
        }
    }

    /// Makes sure that the collection exists with this schema. Creates it,
    /// empty and after the others, when the name is new; changes nothing when
    /// it exists with the same dimension and metric; refuses with
    /// `SchemaConflict`, changing nothing, when it exists with another one.
    pub fn ensure_collection(&mut self, name: &str, dimension: usize, metric: Metric) -> (res: Result<
        (),
        RetrievalError,
    >)
        ensures
            index_ok(final(self)@),
            !has_collection(old(self)@, name@) ==> res is Ok && final(self)@ == old(self)@.push(
                empty_collection(name@, dimension as nat, metric),
            ),
            has_collection(old(self)@, name@) ==> {
                let c = old(self)@[collection_position(old(self)@, name@)];
                &&& final(self)@ == old(self)@
                &&& c.dimension == dimension && c.metric == metric ==> res is Ok
                &&& !(c.dimension == dimension && c.metric == metric) ==> res is Err && res->Err_0 is SchemaConflict
            },
    {
        proof {
            use_type_invariant(&*self);
        }
        let wanted = name.to_owned();
        let c = self.find(&wanted);
        let existing = if c < self.collections.len() {
            Some(&self.collections[c].schema)
        } else {
            None
        };
        let plan = match plan_collection(existing, dimension, metric) {
            Ok(plan) => plan,
            Err(e) => {
                return Err(e);
            },
        };
        if plan == CollectionPlan::Keep {
            Ok(())
        } else {
            let ghost before = self@;
            let created = StoredCollection {
                schema: Collection { name: wanted, dimension, metric },
                points: Vec::new(),
            };
            proof {
                assert(created@.points =~= Seq::empty());
                assert(created@ == empty_collection(name@, dimension as nat, metric));
                lemma_first_position(names(before), name@);
                assert forall|i: int, j: int| 0 <= i < j < before.len() + 1 implies names(
                    before.push(created@),
                )[i] != names(before.push(created@))[j] by {
                    if j < before.len() {
                        assert(names(before)[i] != names(before)[j]);
                    } else {
                        assert(names(before)[i] != name@);
                    }
                }
            }
            let mut collections: Vec<StoredCollection> = Vec::new();
            proof {
                assert(Seq::new(0nat, |i: int| collections[i]@) =~= Seq::<CollectionView>::empty());
            }
            core::mem::swap(&mut self.collections, &mut collections);
            collections.push(created);
            proof {
                assert(Seq::new(collections.len() as nat, |i: int| collections[i]@) =~= before.push(
                    empty_collection(name@, dimension as nat, metric),
                ));
            }
            self.collections = collections;
            Ok(())
        }
    }

    /// Writes a document with its vector to a collection: replaces the entry
    /// with the same identifier, in place, or adds a new entry at the end.
    /// Refuses with `NotFound` when the collection does not exist and with
    /// `DimensionMismatch` when the vector has another length than the
    /// collection's dimension; a refusal leaves the index as it was.
    pub fn upsert(&mut self, collection: &str, document: Document, vector: Vec<u64>) -> (res: Result<
        (),
        RetrievalError,
    >)
        ensures
            index_ok(final(self)@),
            !has_collection(old(self)@, collection@) ==> res is Err && res->Err_0 is NotFound
                && final(self)@ == old(self)@,
            has_collection(old(self)@, collection@) ==> {
                let c = collection_position(old(self)@, collection@);
                let dimension = old(self)@[c].dimension;
                &&& vector@.len() != dimension ==> final(self)@ == old(self)@
                    && res == Err::<(), RetrievalError>(
                    RetrievalError::DimensionMismatch {
                        expected: dimension as usize,
                        actual: vector.len(),
                    },
                )
                &&& vector@.len() == dimension ==> res is Ok && final(self)@ == with_point_in(
                    old(self)@,
                    c,
                    PointView { document: document@, vector: vector@ },
                )
            },
    {
        proof {
            use_type_invariant(&*self);
        }
        let wanted = collection.to_owned();
        let c = self.find(&wanted);
        if c >= self.collections.len() {
            return Err(RetrievalError::NotFound);
        }
        let dimension = self.collections[c].schema.dimension;
        if vector.len() != dimension {
            return Err(RetrievalError::DimensionMismatch { expected: dimension, actual: vector.len() });
        }
        let at = find_point(&self.collections[c].points, &document.id);
        let ghost before = self@;
        let ghost point = PointView { document: document@, vector: vector@ };
        let ghost old_points = before[c as int].points;
        let mut collections: Vec<StoredCollection> = Vec::new();
        proof {
            assert(Seq::new(0nat, |i: int| collections[i]@) =~= Seq::<CollectionView>::empty());
            assert(old_points == points_view(self.collections[c as int].points@));
        }
        core::mem::swap(&mut self.collections, &mut collections);
        let ghost stored = collections@;
        let written = StoredPoint { document, vector };
        if at < collections[c].points.len() {
            collections[c].points[at] = written;
        } else {
            collections[c].points.push(written);
        }
        proof {
            let after = Seq::new(collections.len() as nat, |i: int| collections[i]@);
            let new_points = with_point(old_points, point);
            assert(collections[c as int]@.points =~= new_points);
            assert(after =~= with_point_in(before, c as int, point));
            lemma_with_point_ok(before[c as int], point);
            assert(names(after) =~= names(before));
        }
        self.collections = collections;
        Ok(())
    }

    /// The vectors of a collection with the identifiers of their documents,
    /// in the order of the entries; `NotFound` when the collection does not
    /// exist.
    pub fn embeddings(&self, collection: &str) -> (res: Result<Vec<Embedding>, RetrievalError>)
        ensures
            !has_collection(self@, collection@) ==> res is Err && res->Err_0 is NotFound,
            has_collection(self@, collection@) ==> {
                let points = self@[collection_position(self@, collection@)].points;
                &&& res is Ok
                &&& res->Ok_0.len() == points.len()
                &&& forall|i: int|
                    0 <= i < points.len() ==> (#[trigger] res->Ok_0[i]).owner_id@
                        == points[i].document.id && res->Ok_0[i].vector@ == points[i].vector
            },
    {
        let wanted = collection.to_owned();
        let c = self.find(&wanted);
        if c >= self.collections.len() {
            return Err(RetrievalError::NotFound);
        }
        let points = &self.collections[c].points;
        let mut out: Vec<Embedding> = Vec::new();
        let mut i: usize = 0;
        while i < points.len()
            invariant
                i <= points.len(),
                out.len() == i,
                forall|j: int|
                    0 <= j < i ==> (#[trigger] out[j]).owner_id@ == points[j]@.document.id
                        && out[j].vector@ == points[j]@.vector,
            decreases points.len() - i,
        {
            out.push(
                Embedding { owner_id: points[i].document.id.clone(), vector: points[i].vector.clone() },
            );
            i += 1;
        }
        Ok(out)
    }

    /// The best `k` entries of a collection under the scores that the caller
    /// computed, one score for each entry in the order of the entries.
    ///
    /// The hits come best first, and of two entries with the same score the
    /// earlier entry first. Each hit carries the whole document when
    /// `with_payload` is set, otherwise the identifier alone. Refuses with
    /// `NotFound` when the collection does not exist, with
    /// `DimensionMismatch` when the query has another length than the
    /// collection's dimension, and with `InvalidInput` when the number of
    /// scores is not the number of entries.
    pub fn search(
        &self,
        collection: &str,
        query: &Vec<u64>,
        scores: &Vec<Score>,
        k: usize,
        with_payload: bool,
    ) -> (res: Result<Vec<SearchResult>, RetrievalError>)
        ensures
            !has_collection(self@, collection@) ==> res is Err && res->Err_0 is NotFound,
            has_collection(self@, collection@) ==> {
                let c = self@[collection_position(self@, collection@)];
                &&& query@.len() != c.dimension ==> res is Err && res->Err_0
                    == (RetrievalError::DimensionMismatch {
                    expected: c.dimension as usize,
                    actual: query.len(),
                })
                &&& query@.len() == c.dimension && scores@.len() != c.points.len() ==> res is Err
                    && res->Err_0 is InvalidInput
                &&& query@.len() == c.dimension && scores@.len() == c.points.len() ==> res is Ok
                    && is_search_answer(c.points, scores@, k as nat, with_payload, res->Ok_0@)
                    && scores_descend(res->Ok_0@)
            },
    {
        let wanted = collection.to_owned();
        let c = self.find(&wanted);
        if c >= self.collections.len() {
            return Err(RetrievalError::NotFound);
        }
        let stored = &self.collections[c];
        if query.len() != stored.schema.dimension {
            return Err(
                RetrievalError::DimensionMismatch {
                    expected: stored.schema.dimension,
                    actual: query.len(),
                },
            );
        }
        if scores.len() != stored.points.len() {
            return Err(RetrievalError::InvalidInput);
        }
        let order = rank_top(scores, k);
        let ghost ranks = ranks_of(scores@);
        let ghost points = stored@.points;
        let mut results: Vec<SearchResult> = Vec::new();
        let mut i: usize = 0;
        while i < order.len()
            invariant
                i <= order.len(),
                results.len() == i,
                is_ranking(ranks, k as nat, order@),
                ranks == ranks_of(scores@),
                scores.len() == stored.points.len(),
                points == stored@.points,
                forall|j: int|
                    0 <= j < i ==> (#[trigger] results[j]).score == scores[order[j] as int]
                        && results[j].document@ == shown(points[order[j] as int].document, with_payload),
            decreases order.len() - i,
        {
            let at = order[i];
            let entry = &stored.points[at];
            let document = if with_payload {
                entry.document.duplicate()
            } else {
                entry.document.id_only()
            };
            results.push(SearchResult { score: scores[at], document });
            i += 1;
        }
        proof {
            assert(hits_of(points, scores@, with_payload, order@, results@));
            assert forall|i: int, j: int| 0 <= i < j < results.len() implies (
            #[trigger] results[i]).score.rank() >= (#[trigger] results[j]).score.rank() by {
                assert(precedes(ranks, order[i] as int, order[j] as int));
            }
        }
        Ok(results)
    }
}

/// What stored entries hold, entry by entry.
spec fn points_view(points: Seq<StoredPoint>) -> Seq<PointView> {
    Seq::new(points.len(), |i: int| points[i]@)
}

/// The position of the entry with identifier `id`.
fn find_point(points: &Vec<StoredPoint>, id: &String) -> (at: usize)
    ensures
        at == first_position(ids(points_view(points@)), id@),
        at <= points.len(),
{
    let mut at: usize = 0;
    while at < points.len()
        invariant
            at <= points.len(),
            forall|j: int| 0 <= j < at ==> ids(points_view(points@))[j] != id@,
        decreases points.len() - at,
    {
        if points[at].document.id == *id {
            proof {
                lemma_first_position_is(ids(points_view(points@)), id@, at as int);
            }
            return at;
        }
        at += 1;
    }
    proof {
        lemma_first_position_is(ids(points_view(points@)), id@, at as int);
    }
    at
}

/// Writing an entry of the right dimension keeps a collection consistent.
pub proof fn lemma_with_point_ok(c: CollectionView, point: PointView)
    requires
        collection_ok(c),
        point.vector.len() == c.dimension,
    ensures
        collection_ok(CollectionView { points: with_point(c.points, point), ..c }),
{
    let at = first_position(ids(c.points), point.document.id);
    let after = with_point(c.points, point);
    lemma_first_position(ids(c.points), point.document.id);
    assert forall|i: int, j: int| 0 <= i < j < after.len() implies ids(after)[i] != ids(after)[j] by {
        if at < c.points.len() {
            if i != at && j != at {
                assert(ids(c.points)[i] != ids(c.points)[j]);
            } else if i == at {
                assert(ids(c.points)[at] != ids(c.points)[j]);
            } else {
                assert(ids(c.points)[i] != ids(c.points)[at]);
            }
        } else {
            if j < c.points.len() {
                assert(ids(c.points)[i] != ids(c.points)[j]);
            } else {
                assert(ids(c.points)[i] != point.document.id);
            }
        }
    }
    assert forall|i: int| 0 <= i < after.len() implies (#[trigger] after[i]).vector.len()
        == c.dimension by {
        if i < c.points.len() && i != at {
            assert(after[i] == c.points[i]);
        }
    }
}

/// Writing an entry under an identifier that the collection already holds
/// replaces that entry and no other: the entries stay as many, the one with
/// the identifier is the new one, and every other entry is as before.
pub proof fn law_upsert_replaces(points: Seq<PointView>, point: PointView)
    requires
        all_distinct(ids(points)),
        first_position(ids(points), point.document.id) < points.len(),
    ensures
        with_point(points, point).len() == points.len(),
        forall|i: int|
            0 <= i < points.len() ==> (#[trigger] with_point(points, point)[i]) == (if points[i].document.id
                == point.document.id {
                point
            } else {
                points[i]
            }),
{
    lemma_first_position(ids(points), point.document.id);
    let at = first_position(ids(points), point.document.id);
    assert forall|i: int| 0 <= i < points.len() implies (#[trigger] with_point(points, point)[i]) == (
    if points[i].document.id == point.document.id {
        point
    } else {
        points[i]
    }) by {
        if i != at && points[i].document.id == point.document.id {
            assert(ids(points)[i] == ids(points)[at]);
        }
    }
}

/// After an entry was replaced, a search shows only the new content under
/// its identifier: every hit with that identifier is the new document.
pub proof fn law_search_after_upsert(
    points: Seq<PointView>,
    point: PointView,
    scores: Seq<Score>,
    k: nat,
    with_payload: bool,
    results: Seq<SearchResult>,
)
    requires
        all_distinct(ids(points)),
        first_position(ids(points), point.document.id) < points.len(),
        is_search_answer(with_point(points, point), scores, k, with_payload, results),
        scores.len() == points.len(),
    ensures
        forall|i: int|
            0 <= i < results.len() && (#[trigger] results[i]).document@.id == point.document.id
                ==> results[i].document@ == shown(point.document, with_payload),
{
    law_upsert_replaces(points, point);
    let after = with_point(points, point);
    let order = choose|order: Seq<usize>| #[trigger]
        is_ranking(ranks_of(scores), k, order) && hits_of(after, scores, with_payload, order, results);
    assert forall|i: int|
        0 <= i < results.len() && (#[trigger] results[i]).document@.id
            == point.document.id implies results[i].document@ == shown(point.document, with_payload) by {
        let at = order[i] as int;
        assert(0 <= at < points.len());
        assert(results[i].document@ == shown(after[at].document, with_payload));
    }
}

} // verus!
