//! Checks on what goes to the embedding service and on what it returns.
//!
//! The service is called elsewhere; each component of a vector arrives here
//! as a binary64 bit pattern. The answer to a batch is usable when it holds
//! one non-empty vector for each text, in the order of the texts.

use vstd::prelude::*;
use crate::model::{EmbeddingError, RetrievalError};

verus! {

/// Whether `vectors` is a usable answer for `expected` texts.
pub open spec fn batch_ok(expected: nat, vectors: Seq<Vec<u64>>) -> bool {
    &&& vectors.len() == expected
    &&& forall|i: int| 0 <= i < vectors.len() ==> (#[trigger] vectors[i]).len() > 0
}

/// Accepts the answer to a batch of `expected` texts, unchanged, when it is
/// usable, and refuses it as `Malformed` otherwise.
pub fn check_batch(expected: usize, vectors: Vec<Vec<u64>>) -> (res: Result<
    Vec<Vec<u64>>,
    EmbeddingError,
>)
    ensures
        batch_ok(expected as nat, vectors@) ==> res == Ok::<Vec<Vec<u64>>, EmbeddingError>(vectors),
        !batch_ok(expected as nat, vectors@) ==> res is Err && res->Err_0 is Malformed,
{
    if vectors.len() != expected {
        return Err(EmbeddingError::Malformed);
    }
    let mut i: usize = 0;
    while i < vectors.len()
        invariant
            i <= vectors.len(),
            forall|j: int| 0 <= j < i ==> (#[trigger] vectors[j]).len() > 0,
        decreases vectors.len() - i,
    {
        if vectors[i].len() == 0 {
            return Err(EmbeddingError::Malformed);
        }
        i += 1;
    }
    Ok(vectors)
}

/// The vector of a single text: the only vector of the answer, when the
/// answer is usable for one text.
pub fn single_vector(vectors: Vec<Vec<u64>>) -> (res: Result<Vec<u64>, EmbeddingError>)
    ensures
        batch_ok(1, vectors@) ==> res is Ok && res->Ok_0@ == vectors[0]@,
        !batch_ok(1, vectors@) ==> res is Err && res->Err_0 is Malformed,
{
    if vectors.len() != 1 || vectors[0].len() == 0 {
        return Err(EmbeddingError::Malformed);
    }
    Ok(vectors[0].clone())
}

/// What the service returned for a batch, or the error with which the call
/// ended: a failed call keeps its error, an answer is checked as by
/// [`check_batch`].
pub fn accept_answer(expected: usize, answer: Result<Vec<Vec<u64>>, EmbeddingError>) -> (res: Result<
    Vec<Vec<u64>>,
    EmbeddingError,
>)
    ensures
        answer is Err ==> res == answer,
        answer is Ok && batch_ok(expected as nat, answer->Ok_0@) ==> res == answer,
        answer is Ok && !batch_ok(expected as nat, answer->Ok_0@) ==> res is Err && res->Err_0 is Malformed,
{
    match answer {
        Ok(vectors) => check_batch(expected, vectors),
        Err(e) => Err(e),
    }
}

/// Whether two vectors can be compared: they have the same length. Vectors
/// of different lengths are refused as `InvalidInput`; none is cut or
/// filled up.
pub fn comparable(a: &Vec<u64>, b: &Vec<u64>) -> (res: Result<(), RetrievalError>)
    ensures
        a@.len() == b@.len() ==> res is Ok,
        a@.len() != b@.len() ==> res is Err && res->Err_0 is InvalidInput,
{
    if a.len() == b.len() {
        Ok(())
    } else {
        Err(RetrievalError::InvalidInput)
    }
}

/// Whether no text has more than `limit` characters.
pub open spec fn texts_fit(texts: Seq<String>, limit: nat) -> bool {
    forall|i: int| 0 <= i < texts.len() ==> (#[trigger] texts[i])@.len() <= limit
}

/// Refuses, as `InputTooLarge`, texts of which one has more than `limit`
/// characters.
pub fn check_texts(texts: &Vec<String>, limit: usize) -> (res: Result<(), EmbeddingError>)
    ensures
        texts_fit(texts@, limit as nat) ==> res is Ok,
        !texts_fit(texts@, limit as nat) ==> res is Err && res->Err_0 is InputTooLarge,
{
    let mut i: usize = 0;
    while i < texts.len()
        invariant
            i <= texts.len(),
            forall|j: int| 0 <= j < i ==> (#[trigger] texts[j])@.len() <= limit,
        decreases texts.len() - i,
    {
        if texts[i].as_str().unicode_len() > limit {
            assert(texts[i as int]@.len() > limit);
            return Err(EmbeddingError::InputTooLarge);
        }
        i += 1;
    }
    Ok(())
}

/// The number of batches that `n` texts are sent in when a batch holds at
/// most `limit` of them.
pub open spec fn batch_count(n: nat, limit: nat) -> nat {
    if limit == 0 {
        0
    } else {
        ((n + limit - 1) / limit as int) as nat
    }
}

/// Whether `batches` cut `texts` into batches of at most `limit`: put one
/// after the other they are the texts, in order; none is empty or has more
/// than `limit` texts; and all but the last are full.
pub open spec fn is_batching(texts: Seq<Seq<char>>, limit: nat, batches: Seq<Seq<Seq<char>>>) -> bool {
    &&& batches.flatten() == texts
    &&& forall|b: int| 0 <= b < batches.len() ==> 0 < (#[trigger] batches[b]).len() <= limit
    &&& forall|b: int| 0 <= b < batches.len() - 1 ==> (#[trigger] batches[b]).len() == limit
}

/// Cuts the texts into batches of at most `limit` texts for the embedding
/// service, keeping their order. With a limit of zero no text can be sent:
/// texts are then refused as `InputTooLarge`.
pub fn batch_texts(texts: &Vec<String>, limit: usize) -> (res: Result<Vec<Vec<String>>, EmbeddingError>)
    ensures
        limit == 0 && texts.len() > 0 ==> res is Err && res->Err_0 is InputTooLarge,
        limit > 0 || texts.len() == 0 ==> res is Ok && is_batching(
            texts.deep_view(),
            limit as nat,
            res->Ok_0.deep_view(),
        ),
{
    let ghost all = texts.deep_view();
    let mut batches: Vec<Vec<String>> = Vec::new();
    assert(batches.deep_view() =~= Seq::<Seq<Seq<char>>>::empty());
    if texts.len() == 0 {
        assert(batches.deep_view().flatten() =~= all);
        return Ok(batches);
    }
    if limit == 0 {
        return Err(EmbeddingError::InputTooLarge);
    }
    let mut current: Vec<String> = Vec::new();
    let mut i: usize = 0;
    assert(current.deep_view() =~= Seq::<Seq<char>>::empty());
    while i < texts.len()
        invariant
            i <= texts.len(),
            limit > 0,
            all == texts.deep_view(),
            current.len() < limit,
            batches.deep_view().flatten() + current.deep_view() == all.take(i as int),
            forall|b: int| 0 <= b < batches.len() ==> (#[trigger] batches.deep_view()[b]).len() == limit,
        decreases texts.len() - i,
    {
        let ghost before = current.deep_view();
        let ghost done = batches.deep_view();
        current.push(texts[i].clone());
        assert(current.deep_view() =~= before.push(all[i as int]));
        assert(all.take(i + 1) =~= all.take(i as int).push(all[i as int]));
        i += 1;
        if current.len() == limit {
            let mut full: Vec<String> = Vec::new();
            core::mem::swap(&mut current, &mut full);
            let ghost filled = full.deep_view();
            batches.push(full);
            proof {
                assert(batches.deep_view() =~= done.push(filled));
                assert(current.deep_view() =~= Seq::<Seq<char>>::empty());
                done.lemma_flatten_push(filled);
                assert(done.push(filled).flatten() + Seq::<Seq<char>>::empty() =~= done.flatten()
                    + filled);
            }
        }
    }
    assert(all.take(texts.len() as int) =~= all);
    if current.len() > 0 {
        let ghost done = batches.deep_view();
        let ghost rest = current.deep_view();
        batches.push(current);
        assert(batches.deep_view() =~= done.push(rest));
        proof {
            done.lemma_flatten_push(rest);
        }
    } else {
        assert(batches.deep_view().flatten() + Seq::<Seq<char>>::empty() =~= batches.deep_view().flatten());
    }
    Ok(batches)
}

/// Puts the answers to the batches together: the vectors of the first
/// batch, then those of the second, and so on, each batch in its order.
pub fn gather_answers(answers: &Vec<Vec<Vec<u64>>>) -> (vectors: Vec<Vec<u64>>)
    ensures
        vectors.deep_view() == answers.deep_view().flatten(),
{
    let ghost all = answers.deep_view();
    let mut vectors: Vec<Vec<u64>> = Vec::new();
    let mut b: usize = 0;
    assert(all.take(0) =~= Seq::<Seq<Seq<u64>>>::empty());
    assert(vectors.deep_view() =~= Seq::<Seq<u64>>::empty());
    while b < answers.len()
        invariant
            b <= answers.len(),
            all == answers.deep_view(),
            vectors.deep_view() == all.take(b as int).flatten(),
        decreases answers.len() - b,
    {
        let ghost before = vectors.deep_view();
        let batch = &answers[b];
        let ghost held = batch.deep_view();
        let mut j: usize = 0;
        assert(before + held.take(0) =~= before);
        while j < batch.len()
            invariant
                j <= batch.len(),
                held == batch.deep_view(),
                vectors.deep_view() == before + held.take(j as int),
            decreases batch.len() - j,
        {
            let ghost so_far = vectors.deep_view();
            vectors.push(batch[j].clone());
            proof {
                assert(vectors.deep_view() =~= so_far.push(held[j as int]));
                assert(held.take(j + 1) =~= held.take(j as int).push(held[j as int]));
                assert(so_far.push(held[j as int]) =~= before + held.take(j + 1));
            }
            j += 1;
        }
        proof {
            assert(held.take(batch.len() as int) =~= held);
            assert(all.take(b + 1) =~= all.take(b as int).push(held));
            all.take(b as int).lemma_flatten_push(held);
        }
        b += 1;
    }
    assert(all.take(answers.len() as int) =~= all);
    vectors
}

} // verus!
