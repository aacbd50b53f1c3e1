use semantic_retrieval::embedder::{accept_answer, check_batch, single_vector};
use semantic_retrieval::gate::{decide, route, search_context};
use semantic_retrieval::index::{SearchResult, VectorIndex};
use semantic_retrieval::ingest::{begin_ingest, ingest};
use semantic_retrieval::model::{
    Document, EmbeddingError, IngestError, MetaValue, Metric, RetrievalError,
};
use semantic_retrieval::ranking::rank_top;
use semantic_retrieval::score::Score;
use semantic_retrieval::topics::{Topic, Utterance};

fn score(x: f64) -> Score {
    Score::from_bits(x.to_bits()).unwrap()
}

fn vector(xs: &[f64]) -> Vec<u64> {
    xs.iter().map(|x| x.to_bits()).collect()
}

fn doc(id: &str, text: &str, topic: &str) -> Document {
    Document::new(
        id.to_string(),
        text.to_string(),
        vec![("topic".to_string(), MetaValue::Text(topic.to_string()))],
    )
}

fn hit(x: f64, id: &str, topic: &str) -> SearchResult {
    SearchResult { score: score(x), document: doc(id, "text", topic) }
}

#[test]
fn score_refuses_nan() {
    assert!(Score::from_bits(f64::NAN.to_bits()).is_none());
    assert!(Score::from_bits((-f64::NAN).to_bits()).is_none());
    assert!(Score::from_bits(f64::INFINITY.to_bits()).is_some());
    assert!(Score::from_bits(f64::NEG_INFINITY.to_bits()).is_some());
    assert_eq!(score(0.85).bits(), 0.85f64.to_bits());
}

#[test]
fn score_order_is_numeric_order() {
    let values = [
        f64::NEG_INFINITY,
        -1.0e300,
        -2.5,
        -1.0,
        -f64::MIN_POSITIVE,
        -0.0,
        0.0,
        f64::MIN_POSITIVE,
        0.5,
        0.85,
        0.8500000000000001,
        1.0,
        7.25,
        1.0e300,
        f64::INFINITY,
    ];
    for a in values {
        for b in values {
            assert_eq!(score(a).gt(&score(b)), a > b, "{} > {}", a, b);
            assert_eq!(score(a).ge(&score(b)), a >= b, "{} >= {}", a, b);
            assert_eq!(score(a).same(&score(b)), a == b, "{} == {}", a, b);
        }
    }
    assert!(Score::zero().same(&score(-0.0)));
}

#[test]
fn ranking_is_descending_and_stable() {
    let scores: Vec<Score> = [0.2, 0.9, 0.5, 0.9, -1.0].iter().map(|x| score(*x)).collect();
    assert_eq!(rank_top(&scores, 10), vec![1, 3, 2, 0, 4]);
    assert_eq!(rank_top(&scores, 3), vec![1, 3, 2]);
    assert_eq!(rank_top(&scores, 1), vec![1]);
    assert_eq!(rank_top(&scores, 0), Vec::<usize>::new());
    assert_eq!(rank_top(&Vec::new(), 4), Vec::<usize>::new());
}

#[test]
fn ensure_collection_is_idempotent_and_detects_conflicts() {
    let mut index = VectorIndex::new();
    assert!(index.collection("docs").is_none());
    assert!(index.ensure_collection("docs", 3, Metric::Cosine).is_ok());
    assert!(index.ensure_collection("docs", 3, Metric::Cosine).is_ok());
    assert!(matches!(
        index.ensure_collection("docs", 4, Metric::Cosine),
        Err(RetrievalError::SchemaConflict)
    ));
    assert!(matches!(
        index.ensure_collection("docs", 3, Metric::Dot),
        Err(RetrievalError::SchemaConflict)
    ));
    let schema = index.collection("docs").unwrap();
    assert_eq!(schema.name, "docs");
    assert_eq!(schema.dimension, 3);
    assert_eq!(schema.metric, Metric::Cosine);
    assert!(index.ensure_collection("other", 4, Metric::Euclidean).is_ok());
    assert_eq!(index.collection("other").unwrap().dimension, 4);
}

#[test]
fn upsert_checks_collection_and_dimension() {
    let mut index = VectorIndex::new();
    assert!(matches!(
        index.upsert("docs", doc("a", "x", "t"), vector(&[1.0, 2.0])),
        Err(RetrievalError::NotFound)
    ));
    index.ensure_collection("docs", 2, Metric::Cosine).unwrap();
    assert!(index.upsert("docs", doc("a", "first", "t"), vector(&[1.0, 2.0])).is_ok());
    match index.upsert("docs", doc("b", "second", "t"), vector(&[1.0, 2.0, 3.0])) {
        Err(RetrievalError::DimensionMismatch { expected, actual }) => {
            assert_eq!(expected, 2);
            assert_eq!(actual, 3);
        }
        other => panic!("unexpected {:?}", other),
    }
    // the refused write left the index as it was
    let stored = index.embeddings("docs").unwrap();
    assert_eq!(stored.len(), 1);
    assert_eq!(stored[0].owner_id, "a");
    assert_eq!(stored[0].vector, vector(&[1.0, 2.0]));
    assert_eq!(stored[0].dimension(), 2);
}

#[test]
fn upsert_replaces_by_id() {
    let mut index = VectorIndex::new();
    index.ensure_collection("docs", 2, Metric::Cosine).unwrap();
    index.upsert("docs", doc("a", "old a", "t"), vector(&[1.0, 0.0])).unwrap();
    index.upsert("docs", doc("b", "b", "t"), vector(&[0.0, 1.0])).unwrap();
    index.upsert("docs", doc("a", "new a", "u"), vector(&[0.5, 0.5])).unwrap();
    let stored = index.embeddings("docs").unwrap();
    assert_eq!(stored.len(), 2);
    assert_eq!(stored[0].owner_id, "a");
    assert_eq!(stored[0].vector, vector(&[0.5, 0.5]));
    assert_eq!(stored[1].owner_id, "b");
    let scores = vec![score(0.3), score(0.7)];
    let results = index.search("docs", &vector(&[1.0, 1.0]), &scores, 5, true).unwrap();
    assert_eq!(results.len(), 2);
    assert_eq!(results[0].document.id, "b");
    assert_eq!(results[1].document.id, "a");
    assert_eq!(results[1].document.text, "new a");
    assert_eq!(results[1].document.text_of("topic"), Some("u".to_string()));
    assert!(results.iter().all(|r| r.document.text != "old a"));
}

#[test]
fn search_orders_hits_and_checks_its_input() {
    let mut index = VectorIndex::new();
    index.ensure_collection("docs", 1, Metric::Dot).unwrap();
    for id in ["a", "b", "c", "d"] {
        index.upsert("docs", doc(id, id, "t"), vector(&[1.0])).unwrap();
    }
    let scores = vec![score(0.1), score(0.8), score(0.8), score(0.4)];
    let query = vector(&[2.0]);
    let results = index.search("docs", &query, &scores, 3, true).unwrap();
    let ids: Vec<&str> = results.iter().map(|r| r.document.id.as_str()).collect();
    assert_eq!(ids, vec!["b", "c", "d"]);
    assert_eq!(results[0].score.bits(), 0.8f64.to_bits());
    assert_eq!(results[2].score.bits(), 0.4f64.to_bits());
    for pair in results.windows(2) {
        assert!(pair[0].score.ge(&pair[1].score));
    }
    let bare = index.search("docs", &query, &scores, 1, false).unwrap();
    assert_eq!(bare.len(), 1);
    assert_eq!(bare[0].document.id, "b");
    assert_eq!(bare[0].document.text, "");
    assert!(bare[0].document.metadata.is_empty());
    assert!(index.search("docs", &query, &scores, 0, true).unwrap().is_empty());
    assert!(matches!(
        index.search("none", &query, &scores, 3, true),
        Err(RetrievalError::NotFound)
    ));
    match index.search("docs", &vector(&[1.0, 2.0]), &scores, 3, true) {
        Err(RetrievalError::DimensionMismatch { expected, actual }) => {
            assert_eq!((expected, actual), (1, 2));
        }
        other => panic!("unexpected {:?}", other),
    }
    assert!(matches!(
        index.search("docs", &query, &vec![score(0.1)], 3, true),
        Err(RetrievalError::InvalidInput)
    ));
    assert!(matches!(index.embeddings("none"), Err(RetrievalError::NotFound)));
}

#[test]
fn threshold_is_strict() {
    let threshold = score(0.85);
    let at = decide(&vec![hit(0.85, "a", "bees")], threshold);
    assert!(!at.matched);
    assert!(at.topic.is_none());
    assert!(at.score.is_none());
    let above = decide(&vec![hit(0.8500000000000001, "a", "bees")], threshold);
    assert!(above.matched);
    assert_eq!(above.topic, Some("bees".to_string()));
    assert_eq!(above.score.unwrap().bits(), 0.8500000000000001f64.to_bits());
    let below = decide(&vec![hit(0.2, "a", "bees")], threshold);
    assert!(!below.matched);
    let none = decide(&Vec::new(), threshold);
    assert!(!none.matched);
}

#[test]
fn decision_uses_only_the_best_hit() {
    let results = vec![hit(0.3, "a", "ants"), hit(0.95, "b", "bees"), hit(0.95, "c", "cats")];
    let decision = decide(&results, score(0.85));
    assert!(decision.matched);
    assert_eq!(decision.topic, Some("bees".to_string()));
    let untitled = vec![SearchResult {
        score: score(0.99),
        document: Document::new("x".to_string(), "t".to_string(), Vec::new()),
    }];
    let decision = decide(&untitled, score(0.85));
    assert!(decision.matched);
    assert!(decision.topic.is_none());
}

#[test]
fn search_context_gives_the_best_payload_field() {
    let mut results = vec![hit(0.3, "a", "ants"), hit(0.7, "b", "bees")];
    results[1].document.metadata.push(("content".to_string(), MetaValue::Text("rows".to_string())));
    assert_eq!(search_context(&results, "content"), Some("rows".to_string()));
    assert_eq!(search_context(&results, "missing"), None);
    assert_eq!(search_context(&Vec::new(), "content"), None);
    results[1].document.metadata.insert(0, ("content".to_string(), MetaValue::Integer(3)));
    assert_eq!(search_context(&results, "content"), None);
}

#[test]
fn ingest_of_nothing_is_refused() {
    assert!(matches!(begin_ingest(&Vec::new()), Err(IngestError::EmptyInput)));
    let mut index = VectorIndex::new();
    index.ensure_collection("docs", 2, Metric::Cosine).unwrap();
    assert!(matches!(
        ingest(&mut index, "docs", &Vec::new(), Ok(Vec::new())),
        Err(IngestError::EmptyInput)
    ));
    assert!(index.embeddings("docs").unwrap().is_empty());
}

#[test]
fn ingest_sends_the_texts_in_order() {
    let documents = vec![doc("a", "first", "t"), doc("b", "second", "t")];
    assert_eq!(begin_ingest(&documents).unwrap(), vec!["first".to_string(), "second".to_string()]);
}

#[test]
fn ingest_writes_in_order_and_keeps_what_was_written() {
    let documents = vec![doc("a", "first", "t"), doc("b", "second", "t"), doc("c", "third", "t")];
    let mut index = VectorIndex::new();
    index.ensure_collection("docs", 2, Metric::Cosine).unwrap();
    let embedded = Ok(vec![vector(&[1.0, 0.0]), vector(&[1.0]), vector(&[0.0, 1.0])]);
    match ingest(&mut index, "docs", &documents, embedded) {
        Err(IngestError::Index(RetrievalError::DimensionMismatch { expected, actual })) => {
            assert_eq!((expected, actual), (2, 1));
        }
        other => panic!("unexpected {:?}", other),
    }
    let stored = index.embeddings("docs").unwrap();
    assert_eq!(stored.len(), 1);
    assert_eq!(stored[0].owner_id, "a");

    let embedded = Ok(vec![vector(&[1.0, 0.0]), vector(&[1.0, 1.0]), vector(&[0.0, 1.0])]);
    assert!(ingest(&mut index, "docs", &documents, embedded).is_ok());
    let stored = index.embeddings("docs").unwrap();
    let ids: Vec<&str> = stored.iter().map(|e| e.owner_id.as_str()).collect();
    assert_eq!(ids, vec!["a", "b", "c"]);
    assert_eq!(stored[1].vector, vector(&[1.0, 1.0]));
}

#[test]
fn ingest_passes_failures_on() {
    let documents = vec![doc("a", "first", "t")];
    let mut index = VectorIndex::new();
    index.ensure_collection("docs", 2, Metric::Cosine).unwrap();
    assert!(matches!(
        ingest(&mut index, "docs", &documents, Err(EmbeddingError::Backend("down".to_string()))),
        Err(IngestError::Embedding(EmbeddingError::Backend(m))) if m == "down"
    ));
    assert!(matches!(
        ingest(&mut index, "docs", &documents, Err(EmbeddingError::InputTooLarge)),
        Err(IngestError::Embedding(EmbeddingError::InputTooLarge))
    ));
    assert!(matches!(
        ingest(&mut index, "docs", &documents, Ok(Vec::new())),
        Err(IngestError::Embedding(EmbeddingError::Malformed))
    ));
    assert!(matches!(
        ingest(&mut index, "docs", &documents, Ok(vec![Vec::new()])),
        Err(IngestError::Embedding(EmbeddingError::Malformed))
    ));
    assert!(matches!(
        ingest(&mut index, "none", &documents, Ok(vec![vector(&[1.0, 2.0])])),
        Err(IngestError::Index(RetrievalError::NotFound))
    ));
    assert!(index.embeddings("docs").unwrap().is_empty());
}

#[test]
fn embedder_answers_are_checked() {
    let good = vec![vector(&[1.0]), vector(&[2.0])];
    assert_eq!(check_batch(2, good.clone()).unwrap(), good);
    assert!(matches!(check_batch(3, good.clone()), Err(EmbeddingError::Malformed)));
    assert!(matches!(check_batch(1, vec![Vec::new()]), Err(EmbeddingError::Malformed)));
    assert_eq!(single_vector(vec![vector(&[4.0, 5.0])]).unwrap(), vector(&[4.0, 5.0]));
    assert!(matches!(single_vector(good.clone()), Err(EmbeddingError::Malformed)));
    assert!(matches!(single_vector(Vec::new()), Err(EmbeddingError::Malformed)));
    assert_eq!(accept_answer(2, Ok(good.clone())).unwrap(), good);
    assert!(matches!(
        accept_answer(2, Err(EmbeddingError::InputTooLarge)),
        Err(EmbeddingError::InputTooLarge)
    ));
    assert!(matches!(accept_answer(1, Ok(good)), Err(EmbeddingError::Malformed)));
}

#[test]
fn bees_are_routed_and_nonsense_is_not() {
    let bees = Topic::new("bees");
    let facts = [
        "Bees communicate with their hive mates through intricate dances that convey the location of nectar-rich flowers.",
        "A single bee can visit up to 5,000 flowers in a day, tirelessly collecting nectar and pollen.",
        "The queen bee can lay up to 2,000 eggs in a single day during peak season.",
    ];
    let utterances: Vec<Utterance> = facts.iter().map(|f| bees.new_utterance(f)).collect();
    let documents: Vec<Document> = utterances.iter().map(|u| u.to_document()).collect();
    let mut index = VectorIndex::new();
    index.ensure_collection("SEMANTIC_ROUTING", 3, Metric::Cosine).unwrap();
    let texts = begin_ingest(&documents).unwrap();
    assert_eq!(texts.len(), 3);
    let embedded = Ok(vec![
        vector(&[1.0, 0.0, 0.0]),
        vector(&[0.0, 1.0, 0.0]),
        vector(&[0.0, 0.0, 1.0]),
    ]);
    ingest(&mut index, "SEMANTIC_ROUTING", &documents, embedded).unwrap();

    // "how many flowers does a bee visit in a day?"
    let query = vector(&[0.1, 0.98, 0.1]);
    let scores = vec![score(0.81), score(0.93), score(0.79)];
    let decision = route(&index, "SEMANTIC_ROUTING", &query, &scores, 1, score(0.85)).unwrap();
    assert!(decision.matched);
    assert_eq!(decision.topic, Some("bees".to_string()));
    assert!(decision.score.unwrap().gt(&score(0.85)));

    // "unrelated nonsense query"
    let scores = vec![score(0.71), score(0.69), score(0.7)];
    let decision = route(&index, "SEMANTIC_ROUTING", &query, &scores, 1, score(0.85)).unwrap();
    assert!(!decision.matched);
    assert!(decision.topic.is_none());

    assert!(matches!(
        route(&index, "missing", &query, &scores, 1, score(0.85)),
        Err(RetrievalError::NotFound)
    ));
}

#[test]
fn utterances_carry_their_topic() {
    let topic = Topic::new("bees");
    assert_eq!(topic.name(), "bees");
    let u = topic.new_utterance("Bees dance.");
    assert_eq!(u.topic, "bees");
    assert_eq!(u.content, "Bees dance.");
    assert_eq!(u.embed(), "Bees dance.");
    assert_eq!(u.id.len(), 36);
    assert_eq!(u.id.matches('-').count(), 4);
    let other = Utterance::new("bees", "Bees dance.");
    assert_ne!(u.id, other.id);
    let d = u.to_document();
    assert_eq!(d.id, u.id);
    assert_eq!(d.text, "Bees dance.");
    let back = Utterance::from_document(&d).unwrap();
    assert_eq!(back.id, u.id);
    assert_eq!(back.topic, "bees");
    assert_eq!(back.content, "Bees dance.");
    let copy = u.duplicate();
    assert_eq!(copy.id, u.id);
    assert!(Utterance::from_document(&Document::new("i".into(), "t".into(), Vec::new())).is_none());
    let generated = Document::generate("t".to_string(), Vec::new());
    assert_eq!(generated.id.len(), 36);
    assert_eq!(generated.duplicate().id, generated.id);
}
