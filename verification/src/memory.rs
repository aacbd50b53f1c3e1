//! Memories of earlier conversations: making them, choosing the most
//! relevant ones, and deciding when a conversation is summarised.

use vstd::prelude::*;
use crate::ident::{is_safe_char, random_nanoid};
use crate::ranking::{is_ranking, rank_top, ranks_of};
use crate::score::Score;
use crate::text::{join, joined};

verus! {

/// One fact remembered from a conversation.
#[derive(Debug)]
pub struct Memory {
    pub id: String,
    pub conversation_id: String,
    pub memory: String,
    pub timestamp_created: usize,
}

/// The number of characters of the identifier of a memory.
pub const MEMORY_ID_LENGTH: usize = 10;

/// The number of characters of the identifier of a conversation.
pub const CONVERSATION_ID_LENGTH: usize = 6;

/// `chrono::Utc::now`, then `DateTime::timestamp`: the seconds since the
/// start of 1970, by the clock of the machine. The crate does not hand out a
/// time before 1970.
#[verifier::external_body]
pub(crate) fn unix_seconds() -> (seconds: i64)
    ensures
        seconds >= 0,
{
    chrono::Utc::now().timestamp()
}

/// Whether `id` is made of `length` characters of the URL-safe alphabet.
pub open spec fn is_short_id(id: Seq<char>, length: nat) -> bool {
    id.len() == length && forall|i: int| 0 <= i < id.len() ==> is_safe_char(#[trigger] id[i])
}

/// A fresh random identifier for a conversation.
pub fn conversation_id() -> (id: String)
    ensures
        is_short_id(id@, CONVERSATION_ID_LENGTH as nat),
{
    random_nanoid(CONVERSATION_ID_LENGTH)
}

impl Memory {
    /// A memory of the conversation `conversation_id`, with a fresh random
    /// identifier, made at the time `timestamp_created`.
    pub fn at(conversation_id: &str, memory: String, timestamp_created: usize) -> (res: Memory)
        ensures
            is_short_id(res.id@, MEMORY_ID_LENGTH as nat),
            res.conversation_id@ == conversation_id@,
            res.memory == memory,
            res.timestamp_created == timestamp_created,
    {
        Memory {
            id: random_nanoid(MEMORY_ID_LENGTH),
            conversation_id: conversation_id.to_owned(),
            memory,
            timestamp_created,
        }
    }

    /// A memory of the conversation `conversation_id`, with a fresh random
    /// identifier, made `seconds` after the start of 1970; `None` when the
    /// seconds are negative or more than the machine's `usize` holds.
    pub fn at_seconds(conversation_id: &str, memory: String, seconds: i64) -> (res: Option<Memory>)
        ensures
            res is Some <==> 0 <= seconds <= usize::MAX,
            res is Some ==> {
                &&& is_short_id(res->0.id@, MEMORY_ID_LENGTH as nat)
                &&& res->0.conversation_id@ == conversation_id@
                &&& res->0.memory == memory
                &&& res->0.timestamp_created == seconds
            },
    {
        if seconds >= 0 && seconds as u64 <= usize::MAX as u64 {
            Some(Memory::at(conversation_id, memory, seconds as usize))
        } else {
            None
        }
    }

    /// A memory of the conversation `conversation_id`, with a fresh random
    /// identifier, made now: what [`Memory::at_seconds`] gives for the
    /// seconds of the clock. The clock gives no negative seconds, so on a
    /// machine whose `usize` holds every count of seconds there is always a
    /// memory; `None` comes only where `usize` is too narrow for the time.
    pub fn new(conversation_id: &str, memory: String) -> (res: Option<Memory>)
        ensures
            i64::MAX <= usize::MAX ==> res is Some,
            res is Some ==> {
                &&& is_short_id(res->0.id@, MEMORY_ID_LENGTH as nat)
                &&& res->0.conversation_id@ == conversation_id@
                &&& res->0.memory == memory
            },
    {
        Memory::at_seconds(conversation_id, memory, unix_seconds())
    }

    /// The text to embed: the memory, and nothing else.
    pub fn embed(&self) -> (text: String)
        ensures
            text@ == self.memory@,
    {
        self.memory.clone()
    }
}

/// One memory for each fact, in order, all of the same conversation, each
/// made as [`Memory::new`] makes it. Without facts the result is the empty
/// list; with facts, `None` comes only where `usize` is too narrow for the
/// time of the clock.
pub fn memories_of(conversation_id: &str, facts: Vec<String>) -> (res: Option<Vec<Memory>>)
    ensures
        facts.len() == 0 || i64::MAX <= usize::MAX ==> res is Some,
        res is Some ==> res->0.len() == facts.len() && forall|i: int|
            0 <= i < facts.len() ==> (#[trigger] res->0[i]).memory@ == facts[i]@
                && res->0[i].conversation_id@ == conversation_id@ && is_short_id(
                res->0[i].id@,
                MEMORY_ID_LENGTH as nat,
            ),
{
    let mut memories: Vec<Memory> = Vec::new();
    let mut i: usize = 0;
    while i < facts.len()
        invariant
            i <= facts.len(),
            memories.len() == i,
            forall|j: int|
                0 <= j < i ==> (#[trigger] memories[j]).memory@ == facts[j]@
                    && memories[j].conversation_id@ == conversation_id@ && is_short_id(
                    memories[j].id@,
                    MEMORY_ID_LENGTH as nat,
                ),
        decreases facts.len() - i,
    {
        match Memory::new(conversation_id, facts[i].clone()) {
            Some(memory) => memories.push(memory),
            None => {
                return None;
            },
        }
        i += 1;
    }
    Some(memories)
}

/// How many memories are recalled at most.
pub const RECALLED_MEMORIES: usize = 5;

/// The scores of scored texts, in order.
pub open spec fn scores_of(scored: Seq<(Score, String)>) -> Seq<Score> {
    Seq::new(scored.len(), |i: int| scored[i].0)
}

/// Whether `texts` are the texts that `order` lists.
pub open spec fn texts_in_order(scored: Seq<(Score, String)>, order: Seq<usize>, texts: Seq<Seq<char>>) -> bool {
    &&& texts.len() == order.len()
    &&& forall|i: int| 0 <= i < order.len() ==> #[trigger] texts[i] == scored[order[i] as int].1@
}

/// The texts of the five best-scoring memories, best first, and of two with
/// the same score the earlier first; `None` when there is no memory.
pub fn relevant_memories(scored: &Vec<(Score, String)>) -> (res: Option<Vec<String>>)
    ensures
        scored.len() == 0 <==> res is None,
        res is Some ==> exists|order: Seq<usize>| #[trigger]
            is_ranking(ranks_of(scores_of(scored@)), RECALLED_MEMORIES as nat, order)
                && texts_in_order(scored@, order, res->0.deep_view()),
{
    if scored.len() == 0 {
        return None;
    }
    let mut scores: Vec<Score> = Vec::new();
    let mut i: usize = 0;
    while i < scored.len()
        invariant
            i <= scored.len(),
            scores.len() == i,
            forall|j: int| 0 <= j < i ==> scores[j] == scored[j].0,
        decreases scored.len() - i,
    {
        scores.push(scored[i].0);
        i += 1;
    }
    assert(scores@ =~= scores_of(scored@));
    let order = rank_top(&scores, RECALLED_MEMORIES);
    let mut texts: Vec<String> = Vec::new();
    let mut i: usize = 0;
    while i < order.len()
        invariant
            i <= order.len(),
            texts.len() == i,
            is_ranking(ranks_of(scores@), RECALLED_MEMORIES as nat, order@),
            scores.len() == scored.len(),
            forall|j: int| 0 <= j < i ==> (#[trigger] texts[j])@ == scored[order[j] as int].1@,
        decreases order.len() - i,
    {
        texts.push(scored[order[i]].1.clone());
        i += 1;
    }
    assert(texts_in_order(scored@, order@, texts.deep_view()));
    Some(texts)
}

/// The note on earlier conversations that is added to the instructions of
/// the model: the recalled memories, one on each line, after a heading; or
/// nothing when none was recalled.
pub open spec fn note_on(memories: Option<Vec<String>>) -> Seq<char> {
    match memories {
        Some(texts) => "\n\nRelevant memories from previous conversations: "@ + joined(
            texts.deep_view(),
            "\n"@,
        ),
        None => Seq::empty(),
    }
}

/// The note on earlier conversations that is added to the instructions of
/// the model.
pub fn memory_note(memories: &Option<Vec<String>>) -> (note: String)
    ensures
        note@ == note_on(*memories),
{
    match memories {
        Some(texts) => {
            let mut note = "\n\nRelevant memories from previous conversations: ".to_owned();
            note.append(join(texts, "\n").as_str());
            note
        },
        None => String::new(),
    }
}

/// How many messages a summary covers: three turns of two messages.
pub const SUMMARY_WINDOW: usize = 6;

/// Why no memory was made.
#[derive(Debug)]
pub enum MemoryError {
    /// Fewer messages than a summary covers have been exchanged.
    NotEnoughMessages,
}

/// The words of an error.
pub open spec fn error_text(e: MemoryError) -> Seq<char> {
    match e {
        MemoryError::NotEnoughMessages => "Not enough new messages to summarize"@,
    }
}

impl MemoryError {
    /// The words of the error.
    pub fn message(&self) -> (text: String)
        ensures
            text@ == error_text(*self),
    {
        match self {
            MemoryError::NotEnoughMessages => "Not enough new messages to summarize".to_owned(),
        }
    }
}

/// The last messages of a conversation, the latest first, as far as a
/// summary covers them.
pub open spec fn latest_first<T>(messages: Seq<T>) -> Seq<T> {
    Seq::new(
        if messages.len() < SUMMARY_WINDOW {
            messages.len()
        } else {
            SUMMARY_WINDOW as nat
        },
        |i: int| messages[messages.len() - 1 - i],
    )
}

/// The messages to summarise: the last six of the conversation, the latest
/// first. A conversation that has begun but has fewer than six messages is
/// refused as `NotEnoughMessages`; one without messages gives none.
pub fn summary_window<T>(messages: Vec<T>) -> (res: Result<Vec<T>, MemoryError>)
    ensures
        0 < messages.len() < SUMMARY_WINDOW ==> res is Err && res->Err_0 is NotEnoughMessages,
        messages.len() == 0 || messages.len() >= SUMMARY_WINDOW ==> res is Ok && res->Ok_0@
            == latest_first(messages@),
{
    let mut messages = messages;
    let ghost all = messages@;
    if messages.len() > 0 && messages.len() < SUMMARY_WINDOW {
        return Err(MemoryError::NotEnoughMessages);
    }
    let mut window: Vec<T> = Vec::new();
    while window.len() < SUMMARY_WINDOW && messages.len() > 0
        invariant
            window.len() <= SUMMARY_WINDOW,
            window.len() + messages.len() == all.len(),
            messages@ == all.take(messages.len() as int),
            forall|i: int| 0 <= i < window.len() ==> window[i] == all[all.len() - 1 - i],
        decreases messages.len(),
    {
        match messages.pop() {
            Some(message) => window.push(message),
            None => {},
        }
    }
    assert(window@ =~= latest_first(all));
    Ok(window)
}

/// What the stored identifier of a memory looks like: a text, an object
/// with or without a text under `$oid`, or something else.
#[derive(Debug)]
pub enum IdSource {
    Text(String),
    Object(Option<String>),
    Other,
}

/// Why a stored identifier could not be read.
#[derive(Debug)]
pub enum ObjectIdError {
    /// The object has no text under `$oid`.
    MissingOid,
    /// The value is neither a text nor an object.
    NotAnId,
}

/// The words of an error.
pub open spec fn id_error_text(e: ObjectIdError) -> Seq<char> {
    match e {
        ObjectIdError::MissingOid => "Expected $oid field with string value"@,
        ObjectIdError::NotAnId => "Expected string or object with $oid field"@,
    }
}

impl ObjectIdError {
    /// The words of the error.
    pub fn message(&self) -> (text: String)
        ensures
            text@ == id_error_text(*self),
    {
        match self {
            ObjectIdError::MissingOid => "Expected $oid field with string value".to_owned(),
            ObjectIdError::NotAnId => "Expected string or object with $oid field".to_owned(),
        }
    }
}

/// `serde_json::Value`.
#[verifier::external_type_specification]
#[verifier::external_body]
pub struct ExJsonValue(serde_json::Value);

/// Tells the variants of a `serde_json::Value` apart and, for an object,
/// looks up `key` with `serde_json::Map::get` and `Value::as_str`. Nothing
/// is claimed of the outcome.
#[verifier::external_body]
pub(crate) fn id_source(value: &serde_json::Value, key: &str) -> IdSource {
    match value {
        serde_json::Value::String(s) => IdSource::Text(s.clone()),
        serde_json::Value::Object(map) => IdSource::Object(
            map.get(key).and_then(|v| v.as_str()).map(|s| s.to_owned()),
        ),
        _ => IdSource::Other,
    }
}

/// The identifier that a stored value stands for: the text itself, or the
/// text under `$oid` of an object.
pub fn object_id(source: IdSource) -> (res: Result<String, ObjectIdError>)
    ensures
        match source {
            IdSource::Text(s) => res == Ok::<String, ObjectIdError>(s),
            IdSource::Object(Some(oid)) => res == Ok::<String, ObjectIdError>(oid),
            IdSource::Object(None) => res is Err && res->Err_0 is MissingOid,
            IdSource::Other => res is Err && res->Err_0 is NotAnId,
        },
{
    match source {
        IdSource::Text(s) => Ok(s),
        IdSource::Object(Some(oid)) => Ok(oid),
        IdSource::Object(None) => Err(ObjectIdError::MissingOid),
        IdSource::Other => Err(ObjectIdError::NotAnId),
    }
}

/// Reads the identifier of a memory from the value under which the store
/// keeps it. The result is what [`object_id`] gives for the shape of the
/// value.
pub fn deserialize_object_id(value: &serde_json::Value) -> (res: Result<String, ObjectIdError>)
    ensures
        res is Err ==> res->Err_0 is MissingOid || res->Err_0 is NotAnId,
{
    object_id(id_source(value, "$oid"))
}

} // verus!
