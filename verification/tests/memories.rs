use semantic_retrieval::arxiv::util::raw_answer_html;
use semantic_retrieval::embedder::{batch_texts, check_texts, comparable, gather_answers};
use semantic_retrieval::index::{plan_collection, CollectionPlan};
use semantic_retrieval::memory::{
    conversation_id, deserialize_object_id, memories_of, memory_note, object_id,
    relevant_memories, summary_window, IdSource, Memory, MemoryError, ObjectIdError,
};
use semantic_retrieval::model::{
    Collection, EmbeddingError, IngestError, MetaValue, Metric, RetrievalError,
};
use semantic_retrieval::rag::{augment_prompt, File, MyAgent, Prompt, COLLECTION, COLLECTION_SIZE};
use semantic_retrieval::router::{
    default_threshold, SemanticRouter, COLLECTION_NAME, THRESHOLD_BITS,
};
use semantic_retrieval::score::Score;
use semantic_retrieval::text::join;
use semantic_retrieval::topics::Topic;

fn score(x: f64) -> Score {
    Score::from_bits(x.to_bits()).unwrap()
}

fn safe(id: &str) -> bool {
    id.chars().all(|c| c.is_ascii_alphanumeric() || c == '_' || c == '-')
}

#[test]
fn memories_get_fresh_ids() {
    let m = Memory::at("conv", "likes bees".to_string(), 42);
    assert_eq!(m.id.len(), 10);
    assert!(safe(&m.id));
    assert_eq!(m.conversation_id, "conv");
    assert_eq!(m.memory, "likes bees");
    assert_eq!(m.timestamp_created, 42);
    assert_eq!(m.embed(), "likes bees");
    let early = Memory::at_seconds("conv", "first".to_string(), 0).unwrap();
    assert_eq!(early.timestamp_created, 0);
    let late = Memory::at_seconds("conv", "later".to_string(), 1_700_000_000).unwrap();
    assert_eq!(late.timestamp_created, 1_700_000_000);
    assert_eq!(late.memory, "later");
    assert_eq!(late.conversation_id, "conv");
    assert_eq!(late.id.len(), 10);
    assert!(Memory::at_seconds("conv", "before".to_string(), -1).is_none());
    assert!(Memory::at_seconds("conv", "before".to_string(), i64::MIN).is_none());
    let n = Memory::new("conv", "likes ants".to_string()).unwrap();
    assert_ne!(m.id, n.id);
    assert!(n.timestamp_created > 1_600_000_000);
    let c = conversation_id();
    assert_eq!(c.len(), 6);
    assert!(safe(&c));
    let all = memories_of("conv", vec!["a".to_string(), "b".to_string()]).unwrap();
    assert_eq!(all.len(), 2);
    assert_eq!(all[0].memory, "a");
    assert_eq!(all[1].memory, "b");
    assert_eq!(all[1].conversation_id, "conv");
    assert!(memories_of("conv", Vec::new()).unwrap().is_empty());
}

#[test]
fn the_five_best_memories_are_recalled() {
    assert!(relevant_memories(&Vec::new()).is_none());
    let scored: Vec<(Score, String)> = [0.1, 0.9, 0.3, 0.9, 0.5, 0.7, -0.2]
        .iter()
        .enumerate()
        .map(|(i, x)| (score(*x), format!("m{}", i)))
        .collect();
    assert_eq!(relevant_memories(&scored).unwrap(), vec!["m1", "m3", "m5", "m4", "m2"]);
    let two = vec![(score(0.0), "a".to_string()), (score(-0.0), "b".to_string())];
    assert_eq!(relevant_memories(&two).unwrap(), vec!["a", "b"]);
}

#[test]
fn memories_are_noted() {
    assert_eq!(memory_note(&None), "");
    assert_eq!(
        memory_note(&Some(vec!["a".to_string(), "b".to_string()])),
        "\n\nRelevant memories from previous conversations: a\nb"
    );
    assert_eq!(
        memory_note(&Some(Vec::new())),
        "\n\nRelevant memories from previous conversations: "
    );
    assert_eq!(join(&vec!["x".to_string()], ", "), "x");
    assert_eq!(join(&vec!["x".to_string(), "".to_string(), "z".to_string()], ", "), "x, , z");
}

#[test]
fn summaries_cover_the_last_six_messages() {
    assert_eq!(summary_window(Vec::<u8>::new()).unwrap(), Vec::<u8>::new());
    for n in 1..6u8 {
        let messages: Vec<u8> = (0..n).collect();
        match summary_window(messages) {
            Err(MemoryError::NotEnoughMessages) => {}
            other => panic!("unexpected {:?}", other),
        }
    }
    assert_eq!(summary_window(vec![1, 2, 3, 4, 5, 6]).unwrap(), vec![6, 5, 4, 3, 2, 1]);
    assert_eq!(summary_window((0..10).collect::<Vec<u8>>()).unwrap(), vec![9, 8, 7, 6, 5, 4]);
    assert_eq!(MemoryError::NotEnoughMessages.message(), "Not enough new messages to summarize");
}

#[test]
fn stored_identifiers_are_read() {
    let text = serde_json::Value::String("abc".to_string());
    assert_eq!(deserialize_object_id(&text).unwrap(), "abc");
    let object: serde_json::Value = serde_json::from_str(r#"{"$oid": "507f1f77bcf86cd799439011"}"#).unwrap();
    assert_eq!(deserialize_object_id(&object).unwrap(), "507f1f77bcf86cd799439011");
    let wrong: serde_json::Value = serde_json::from_str(r#"{"$oid": 5}"#).unwrap();
    assert!(matches!(deserialize_object_id(&wrong), Err(ObjectIdError::MissingOid)));
    let empty: serde_json::Value = serde_json::from_str("{}").unwrap();
    assert!(matches!(deserialize_object_id(&empty), Err(ObjectIdError::MissingOid)));
    let number: serde_json::Value = serde_json::from_str("17").unwrap();
    assert!(matches!(deserialize_object_id(&number), Err(ObjectIdError::NotAnId)));
    assert!(matches!(deserialize_object_id(&serde_json::Value::Null), Err(ObjectIdError::NotAnId)));
    assert_eq!(object_id(IdSource::Text("t".to_string())).unwrap(), "t");
    assert_eq!(object_id(IdSource::Object(Some("o".to_string()))).unwrap(), "o");
    assert!(matches!(object_id(IdSource::Object(None)), Err(ObjectIdError::MissingOid)));
    assert!(matches!(object_id(IdSource::Other), Err(ObjectIdError::NotAnId)));
    assert_eq!(ObjectIdError::MissingOid.message(), "Expected $oid field with string value");
    assert_eq!(ObjectIdError::NotAnId.message(), "Expected string or object with $oid field");
}

#[test]
fn files_are_cut_into_rows() {
    let f = File::new("test.csv".to_string(), "a,b\r\nc,d\n\ne\r".to_string());
    assert_eq!(f.path, "test.csv");
    assert_eq!(f.contents, "a,b\r\nc,d\n\ne\r");
    assert_eq!(f.rows, vec!["a,b", "c,d", "", "e\r"]);
    assert_eq!(f.rows_to_embed().unwrap(), f.rows);
    assert_eq!(File::new("p".to_string(), "a\n\r".to_string()).rows, vec!["a", "\r"]);
    assert_eq!(File::new("p".to_string(), "\n".to_string()).rows, vec![""]);
    assert_eq!(File::new("p".to_string(), "\r\n\r\n".to_string()).rows, vec!["", ""]);
    assert_eq!(File::new("p".to_string(), "a\r\r\nb".to_string()).rows, vec!["a\r", "b"]);
    let one = File::new("p".to_string(), "only\n".to_string());
    assert_eq!(one.rows, vec!["only"]);
    let empty = File::new("p".to_string(), String::new());
    assert!(empty.rows.is_empty());
    assert!(matches!(empty.rows_to_embed(), Err(IngestError::EmptyInput)));
    let payload = f.payload();
    assert_eq!(payload.len(), 3);
    assert_eq!(payload[0].0, "id");
    assert!(matches!(&payload[0].1, MetaValue::Text(p) if p == "test.csv"));
    assert!(matches!(&payload[1].1, MetaValue::Text(c) if c == "a,b\r\nc,d\n\ne\r"));
    assert!(matches!(&payload[2].1, MetaValue::TextList(r) if r.len() == 4));
    let documents = f.documents(3);
    assert_eq!(documents.len(), 3);
    assert_eq!(documents[0].id.len(), 36);
    assert_ne!(documents[0].id, documents[1].id);
    assert_eq!(documents[2].text, f.contents);
    assert_eq!(documents[2].text_of("content"), Some(f.contents.clone()));
    assert_eq!(documents[2].text_of("rows"), None);
}

#[test]
fn agent_embeds_and_finds_documents() {
    assert_eq!(COLLECTION, "my-collection");
    assert_eq!(COLLECTION_SIZE, 1536);
    let mut agent = MyAgent::with(2);
    let file = File::new("f.csv".to_string(), "x\ny".to_string());
    let empty = File::new("e.csv".to_string(), String::new());
    assert!(matches!(agent.embed_document(&empty, Ok(Vec::new())), Err(IngestError::EmptyInput)));
    assert!(matches!(
        agent.embed_document(&file, Ok(vec![vec![1, 2]])),
        Err(IngestError::Embedding(EmbeddingError::Malformed))
    ));
    assert!(matches!(
        agent.search_document(&vec![1, 2], &Vec::new()),
        Ok(None)
    ));
    agent.embed_document(&file, Ok(vec![vec![1, 2], vec![3, 4]])).unwrap();
    let stored = agent.stored().unwrap();
    assert_eq!(stored.len(), 2);
    assert_eq!(stored[1].vector, vec![3, 4]);
    let context = agent.search_document(&vec![1, 2], &vec![score(0.2), score(0.4)]).unwrap();
    assert_eq!(context, Some("x\ny".to_string()));
    assert!(matches!(
        agent.search_document(&vec![1], &vec![score(0.2), score(0.4)]),
        Err(RetrievalError::DimensionMismatch { expected: 2, actual: 1 })
    ));
    assert!(matches!(
        agent.search_document(&vec![1, 2], &vec![score(0.2)]),
        Err(RetrievalError::InvalidInput)
    ));
    assert!(MyAgent::new().stored().unwrap().is_empty());
}

#[test]
fn prompts_carry_their_context() {
    let expected = "why?\n\n            Provided context:\n            because\n            ";
    assert_eq!(augment_prompt("why?", "because"), expected);
    assert_eq!(MyAgent::prompt("why?", "because"), expected);
    let p = Prompt { prompt: "why?".to_string() };
    assert_eq!(p.prompt, "why?");
}

#[test]
fn router_routes_above_its_threshold() {
    assert_eq!(COLLECTION_NAME, "SEMANTIC_ROUTING");
    assert_eq!(THRESHOLD_BITS, 0.85f64.to_bits());
    assert_eq!(default_threshold().bits(), 0.85f64.to_bits());
    let mut router = SemanticRouter::with(2, default_threshold());
    let bees = Topic::new("bees");
    let utterances = vec![bees.new_utterance("Bees dance."), bees.new_utterance("Bees visit flowers.")];
    assert!(matches!(SemanticRouter::embed_requests(&Vec::new()), Err(IngestError::EmptyInput)));
    assert_eq!(
        SemanticRouter::embed_requests(&utterances).unwrap(),
        vec!["Bees dance.", "Bees visit flowers."]
    );
    assert!(matches!(
        router.embed_utterances(&Vec::new(), Ok(Vec::new())),
        Err(IngestError::EmptyInput)
    ));
    let empty = router.query(&vec![1, 2], &Vec::new()).unwrap();
    assert!(!empty.matched);
    router.embed_utterances(&utterances, Ok(vec![vec![1, 2], vec![3, 4]])).unwrap();
    let stored = router.stored().unwrap();
    assert_eq!(stored.len(), 2);
    assert_eq!(stored[0].owner_id, utterances[0].id);
    let hit = router.query(&vec![1, 2], &vec![score(0.5), score(0.9)]).unwrap();
    assert!(hit.matched);
    assert_eq!(hit.topic, Some("bees".to_string()));
    assert_eq!(hit.score.unwrap().bits(), 0.9f64.to_bits());
    let edge = router.query(&vec![1, 2], &vec![score(0.85), score(0.1)]).unwrap();
    assert!(!edge.matched);
    let miss = router.query(&vec![1, 2], &vec![score(0.5), score(0.84)]).unwrap();
    assert!(!miss.matched);
    assert!(matches!(
        router.query(&vec![1], &vec![score(0.5), score(0.9)]),
        Err(RetrievalError::DimensionMismatch { expected: 2, actual: 1 })
    ));
    let usual = SemanticRouter::new();
    assert!(usual.stored().unwrap().is_empty());
    assert!(matches!(
        usual.query(&vec![1, 2], &Vec::new()),
        Err(RetrievalError::DimensionMismatch { expected: 1536, actual: 2 })
    ));
}

#[test]
fn texts_are_batched_in_order() {
    let texts: Vec<String> = (0..7).map(|i| format!("t{}", i)).collect();
    let batches = batch_texts(&texts, 3).unwrap();
    assert_eq!(batches.len(), 3);
    assert_eq!(batches[0], vec!["t0", "t1", "t2"]);
    assert_eq!(batches[1], vec!["t3", "t4", "t5"]);
    assert_eq!(batches[2], vec!["t6"]);
    assert_eq!(batches.concat(), texts);
    assert_eq!(batch_texts(&texts, 7).unwrap().len(), 1);
    assert_eq!(batch_texts(&texts, 100).unwrap().len(), 1);
    assert_eq!(batch_texts(&texts, 1).unwrap().len(), 7);
    assert!(batch_texts(&Vec::new(), 3).unwrap().is_empty());
    assert!(batch_texts(&Vec::new(), 0).unwrap().is_empty());
    assert!(matches!(batch_texts(&texts, 0), Err(EmbeddingError::InputTooLarge)));
    let answers = vec![vec![vec![1u64], vec![2]], vec![], vec![vec![3, 4]]];
    assert_eq!(gather_answers(&answers), vec![vec![1u64], vec![2], vec![3, 4]]);
    assert!(gather_answers(&Vec::new()).is_empty());
}

#[test]
fn raw_answers_are_escaped() {
    assert_eq!(
        raw_answer_html("a < b && c > \"d\""),
        "<div style=\"white-space: pre-wrap; font-family: monospace;\">a &lt; b &amp;&amp; c &gt; \"d\"</div>"
    );
    assert_eq!(
        raw_answer_html(""),
        "<div style=\"white-space: pre-wrap; font-family: monospace;\"></div>"
    );
}

#[test]
fn long_texts_are_refused() {
    let texts = vec!["abc".to_string(), "h\u{e9}llo".to_string()];
    assert!(check_texts(&texts, 5).is_ok());
    assert!(matches!(check_texts(&texts, 4), Err(EmbeddingError::InputTooLarge)));
    assert!(check_texts(&Vec::new(), 0).is_ok());
    assert!(matches!(check_texts(&texts, 0), Err(EmbeddingError::InputTooLarge)));
}

#[test]
fn collections_are_planned() {
    let held = Collection { name: "docs".to_string(), dimension: 3, metric: Metric::Cosine };
    assert_eq!(plan_collection(None, 3, Metric::Cosine).unwrap(), CollectionPlan::Create);
    assert_eq!(plan_collection(Some(&held), 3, Metric::Cosine).unwrap(), CollectionPlan::Keep);
    assert!(matches!(
        plan_collection(Some(&held), 4, Metric::Cosine),
        Err(RetrievalError::SchemaConflict)
    ));
    assert!(matches!(
        plan_collection(Some(&held), 3, Metric::Euclidean),
        Err(RetrievalError::SchemaConflict)
    ));
}

#[test]
fn vectors_of_different_lengths_are_not_compared() {
    assert!(comparable(&vec![1, 2], &vec![3, 4]).is_ok());
    assert!(comparable(&Vec::new(), &Vec::new()).is_ok());
    assert!(matches!(comparable(&vec![1, 2], &vec![3]), Err(RetrievalError::InvalidInput)));
    assert!(matches!(comparable(&Vec::new(), &vec![3]), Err(RetrievalError::InvalidInput)));
}
