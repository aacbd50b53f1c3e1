//! The ingestion pipeline: from documents and the vectors of their texts to
//! entries of a collection.
//!
//! Only the text of a document is embedded; its identifier and metadata
//! travel with it unchanged. The documents are written one by one, in order,
//! and the first refusal ends the ingestion: what was written before it stays
//! written.

use vstd::prelude::*;
use crate::embedder::{batch_ok, check_batch};
use crate::index::{
    collection_position,
    has_collection,
    ids,
    index_ok,
    names,
    with_point,
    with_point_in,
    CollectionView,
    PointView,
    VectorIndex,
};
use crate::lookup::{first_position, lemma_first_position};
use crate::model::{Document, EmbeddingError, IngestError, RetrievalError};

verus! {

/// The texts of the documents, in order.
pub open spec fn texts_of(documents: Seq<Document>) -> Seq<Seq<char>> {
    Seq::new(documents.len(), |i: int| documents[i].text@)
}

/// The first `n` documents with their vectors, as entries.
pub open spec fn points_of(documents: Seq<Document>, vectors: Seq<Vec<u64>>, n: int) -> Seq<PointView> {
    Seq::new(n as nat, |i: int| PointView { document: documents[i]@, vector: vectors[i]@ })
}

/// The index after `points` were written, one after the other, to the
/// collection at position `c`.
pub open spec fn with_points_in(index: Seq<CollectionView>, c: int, points: Seq<PointView>) -> Seq<
    CollectionView,
>
    decreases points.len(),
{
    if points.len() == 0 {
        index
    } else {
        with_point_in(with_points_in(index, c, points.drop_last()), c, points.last())
    }
}

/// The first position whose vector has not the length `dimension`, or the
/// number of vectors when all have it.
pub open spec fn first_misfit(vectors: Seq<Vec<u64>>, dimension: nat) -> int
    decreases vectors.len(),
{
    if vectors.len() == 0 {
        0
    } else if vectors[0].len() != dimension {
        0
    } else {
        1 + first_misfit(vectors.skip(1), dimension)
    }
}

/// A position whose vector does not fit, after vectors that all fit, is
/// `first_misfit`; so is the number of vectors when all fit.
pub proof fn lemma_first_misfit_is(vectors: Seq<Vec<u64>>, dimension: nat, at: int)
    requires
        0 <= at <= vectors.len(),
        at < vectors.len() ==> vectors[at].len() != dimension,
        forall|j: int| 0 <= j < at ==> (#[trigger] vectors[j]).len() == dimension,
    ensures
        first_misfit(vectors, dimension) == at,
    decreases vectors.len(),
{
    if vectors.len() > 0 && at > 0 {
        let rest = vectors.skip(1);
        assert(vectors[0].len() == dimension);
        assert forall|j: int| 0 <= j < at - 1 implies (#[trigger] rest[j]).len() == dimension by {
            assert(rest[j] == vectors[j + 1]);
        }
        lemma_first_misfit_is(rest, dimension, at - 1);
    }
}

/// The first step of an ingestion: the texts to send to the embedding
/// service, in the order of the documents. Nothing is to be sent for an empty
/// input: it is refused as `EmptyInput`.
pub fn begin_ingest(documents: &Vec<Document>) -> (res: Result<Vec<String>, IngestError>)
    ensures
        documents.len() == 0 ==> res is Err && res->Err_0 is EmptyInput,
        documents.len() > 0 ==> res is Ok && res->Ok_0.deep_view() == texts_of(documents@),
{
    if documents.len() == 0 {
        return Err(IngestError::EmptyInput);
    }
    let mut texts: Vec<String> = Vec::new();
    let mut i: usize = 0;
    while i < documents.len()
        invariant
            i <= documents.len(),
            texts.len() == i,
            forall|j: int| 0 <= j < i ==> (#[trigger] texts[j])@ == documents[j].text@,
        decreases documents.len() - i,
    {
        texts.push(documents[i].text.clone());
        i += 1;
    }
    assert(texts.deep_view() =~= texts_of(documents@));
    Ok(texts)
}

/// Whether `after` and `res` are the outcome of ingesting `documents` with
/// the answer `embedded` of the embedding service into an index that was
/// `before`.
///
/// An empty input is refused (`EmptyInput`), and so are a failed call of the
/// service (its error), an answer that does not hold one non-empty vector
/// for each document (`Malformed`), and a collection that does not exist
/// (`NotFound`); a refusal leaves the index as it was. Otherwise the
/// documents are written in order up to the first whose vector has not the
/// collection's dimension; that one is refused with `DimensionMismatch`, and
/// the documents before it stay written.
pub open spec fn ingested(
    before: Seq<CollectionView>,
    collection: Seq<char>,
    documents: Seq<Document>,
    embedded: Result<Vec<Vec<u64>>, EmbeddingError>,
    after: Seq<CollectionView>,
    res: Result<(), IngestError>,
) -> bool {
    if documents.len() == 0 {
        res is Err && res->Err_0 is EmptyInput && after == before
    } else if embedded is Err {
        res == Err::<(), IngestError>(IngestError::Embedding(embedded->Err_0)) && after == before
    } else if !batch_ok(documents.len(), embedded->Ok_0@) {
        res is Err && res->Err_0 is Embedding && res->Err_0->Embedding_0 is Malformed && after
            == before
    } else if !has_collection(before, collection) {
        res is Err && res->Err_0 is Index && res->Err_0->Index_0 is NotFound && after == before
    } else {
        let c = collection_position(before, collection);
        let dimension = before[c].dimension;
        let vectors = embedded->Ok_0@;
        let written = first_misfit(vectors, dimension);
        &&& 0 <= written <= documents.len()
        &&& after == with_points_in(before, c, points_of(documents, vectors, written))
        &&& written == documents.len() ==> res is Ok
        &&& written < documents.len() ==> res == Err::<(), IngestError>(
            IngestError::Index(
                RetrievalError::DimensionMismatch {
                    expected: dimension as usize,
                    actual: vectors[written].len(),
                },
            ),
        )
    }
}

/// The second step of an ingestion: writes each document with its vector to
/// the collection, as [`ingested`] says.
pub fn ingest(
    index: &mut VectorIndex,
    collection: &str,
    documents: &Vec<Document>,
    embedded: Result<Vec<Vec<u64>>, EmbeddingError>,
) -> (res: Result<(), IngestError>)
    ensures
        index_ok(final(index)@),
        ingested(old(index)@, collection@, documents@, embedded, final(index)@, res),
{
    proof {
        use_type_invariant(&*index);
    }
    if documents.len() == 0 {
        return Err(IngestError::EmptyInput);
    }
    let answer = match embedded {
        Ok(vectors) => check_batch(documents.len(), vectors),
        Err(e) => {
            return Err(IngestError::Embedding(e));
        },
    };
    let vectors = match answer {
        Ok(vectors) => vectors,
        Err(e) => {
            return Err(IngestError::Embedding(e));
        },
    };
    let ghost start = index@;
    let ghost c = collection_position(start, collection@);
    let ghost dimension = start[c].dimension;
    let mut i: usize = 0;
    while i < documents.len()
        invariant
            i <= documents.len(),
            vectors.len() == documents.len(),
            embedded == Ok::<Vec<Vec<u64>>, EmbeddingError>(vectors),
            batch_ok(documents.len() as nat, vectors@),
            start == old(index)@,
            c == collection_position(start, collection@),
            has_collection(start, collection@) ==> {
                &&& dimension == start[c].dimension
                &&& index@ == with_points_in(start, c, points_of(documents@, vectors@, i as int))
                &&& names(index@) == names(start)
                &&& index@.len() == start.len()
                &&& index@[c].dimension == dimension
            },
            !has_collection(start, collection@) ==> index@ == start && i == 0,
            documents.len() > 0,
            forall|j: int| 0 <= j < i ==> (#[trigger] vectors[j]).len() == dimension,
            index_ok(index@),
        decreases documents.len() - i,
    {
        let ghost before = index@;
        let ghost point = PointView { document: documents[i as int]@, vector: vectors[i as int]@ };
        proof {
            crate::lookup::lemma_first_position(names(start), collection@);
        }
        match index.upsert(collection, documents[i].duplicate(), vectors[i].clone()) {
            Ok(()) => {
                proof {
                    let next = points_of(documents@, vectors@, i + 1);
                    assert(next.drop_last() =~= points_of(documents@, vectors@, i as int));
                    assert(next.last() == point);
                    assert(index@ == with_point_in(before, c, point));
                    assert(names(index@) =~= names(before));
                }
            },
            Err(e) => {
                proof {
                    if has_collection(start, collection@) {
                        lemma_first_misfit_is(vectors@, dimension, i as int);
                    }
                }
                return Err(IngestError::Index(e));
            },
        }
        i += 1;
    }
    proof {
        crate::lookup::lemma_first_position(names(start), collection@);
        lemma_first_misfit_is(vectors@, dimension, documents.len() as int);
    }
    Ok(())
}

/// Whether the entries `after` hold what the entries `before` held, in the
/// same places, possibly under new contents: no entry is lost or moved.
pub open spec fn keeps_places(before: Seq<PointView>, after: Seq<PointView>) -> bool {
    &&& before.len() <= after.len()
    &&& forall|i: int|
        0 <= i < before.len() ==> (#[trigger] after[i]).document.id == before[i].document.id
}

/// Whether the entries hold an entry with the identifier `id`.
pub open spec fn holds_id(points: Seq<PointView>, id: Seq<char>) -> bool {
    exists|e: int| 0 <= e < points.len() && (#[trigger] points[e]).document.id == id
}

/// Writing one entry loses and moves none, and the entry is held afterwards.
pub proof fn lemma_with_point_holds(points: Seq<PointView>, point: PointView)
    ensures
        keeps_places(points, with_point(points, point)),
        with_point(points, point).contains(point),
        holds_id(with_point(points, point), point.document.id),
{
    lemma_first_position(ids(points), point.document.id);
    let at = first_position(ids(points), point.document.id);
    let after = with_point(points, point);
    assert(after[at] == point);
    assert forall|i: int| 0 <= i < points.len() implies (#[trigger] after[i]).document.id
        == points[i].document.id by {
        if i == at {
            assert(ids(points)[at] == point.document.id);
        }
    }
}

/// What is written stays written: after entries were written one after the
/// other to a collection, the other collections are as before, the
/// collection has its schema and its earlier entries in their places, every
/// identifier that was written is held, and the entry written last is held
/// as it was written.
pub proof fn law_written_entries_are_held(index: Seq<CollectionView>, c: int, points: Seq<PointView>)
    requires
        0 <= c < index.len(),
    ensures
        with_points_in(index, c, points).len() == index.len(),
        forall|j: int|
            0 <= j < index.len() && j != c ==> (#[trigger] with_points_in(index, c, points)[j])
                == index[j],
        with_points_in(index, c, points)[c].name == index[c].name,
        with_points_in(index, c, points)[c].dimension == index[c].dimension,
        with_points_in(index, c, points)[c].metric == index[c].metric,
        keeps_places(index[c].points, with_points_in(index, c, points)[c].points),
        forall|i: int|
            0 <= i < points.len() ==> holds_id(
                with_points_in(index, c, points)[c].points,
                (#[trigger] points[i]).document.id,
            ),
        points.len() > 0 ==> with_points_in(index, c, points)[c].points.contains(points.last()),
    decreases points.len(),
{
    if points.len() > 0 {
        let earlier = points.drop_last();
        let last = points.last();
        law_written_entries_are_held(index, c, earlier);
        let middle = with_points_in(index, c, earlier);
        let after = with_points_in(index, c, points);
        assert(after == with_point_in(middle, c, last));
        lemma_with_point_holds(middle[c].points, last);
        assert(after[c].points == with_point(middle[c].points, last));
        assert forall|i: int| 0 <= i < points.len() implies holds_id(
            after[c].points,
            (#[trigger] points[i]).document.id,
        ) by {
            if i < earlier.len() {
                assert(earlier[i] == points[i]);
                assert(holds_id(middle[c].points, earlier[i].document.id));
                let e = choose|e: int|
                    0 <= e < middle[c].points.len() && (#[trigger] middle[c].points[e]).document.id
                        == earlier[i].document.id;
                assert(after[c].points[e].document.id == middle[c].points[e].document.id);
            }
        }
    }
}

} // verus!
