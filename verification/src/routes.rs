//! The course of a request: from the chat completion request to the answer.
//!
//! A request is accepted, its prompt embedded and looked up among the cached answers. A hit is
//! answered at once; on a miss the answer is generated, stored and then given.

use vstd::prelude::*;

use qdrant_client::qdrant::ScoredPoint;

use crate::cache::{
    cache_entry, cached_answer, entry_texts, hit_texts, law_entries_are_told_apart, payload_texts,
    read_answer,
};
use crate::constants::{CACHED_PREFIX, COLLECTION_NAME, SEARCH_LIMIT};
use crate::dto::{
    is_request_of, ChatRequest, ChatResponse, ChatResponseView, Choice, Message, ResponseMessage,
};
use crate::embedding::{
    can_be_run, embed_prompt, encodes_one_way, is_prompt_embedded,
    law_the_same_prompt_has_one_embedding, runs_repeatably, HiddenStates, InferenceError,
    ModelInputs,
};
use crate::error::{bad_request, internal, AppError, AppErrorView, ErrorKind};
use crate::ids::{is_random_uuid, random_uuid};
use crate::llm::{llm_request, parsed_answer, LlmApiResponse, LlmRequest};
use crate::metrics::{
    counts_hit, counts_miss, update_hit_metrics, update_miss_metrics, MetricsData,
};
use crate::number::{computes_deterministically, Component, Number};
use crate::text::{joined, law_trimming_is_final, same_text, trimmed};
use crate::tokenizer::PromptTokenizer;

verus! {

/// The state of the gateway.
#[derive(Debug)]
pub struct HealthStatus {
    pub status: String,
}

/// Tells that the gateway is up.
pub fn handle_health() -> (health: HealthStatus)
    ensures
        health.status@ == "ok"@,
{
    HealthStatus { status: "ok".to_string() }
}

// Accepting a request.

/// A request that can be served.
#[derive(Debug)]
pub struct AcceptedChat {
    pub model: String,
    pub prompt: String,
}

/// The model and the prompt of a request that can be served, or why it cannot.
pub open spec fn admission(model: Seq<char>, messages: Seq<Message>, served_model: Seq<char>) -> Result<
    (Seq<char>, Seq<char>),
    AppErrorView,
> {
    let requested = trimmed(model);
    if requested.len() == 0 {
        Err(bad_request("model is required and must not be empty"@))
    } else if requested != served_model {
        Err(
            bad_request(
                "unsupported model '"@ + requested + "'. This gateway is configured for '"@
                    + served_model + "'"@,
            ),
        )
    } else if messages.len() == 0 {
        Err(bad_request("messages must contain at least one item"@))
    } else if trimmed(messages.last().role@) != "user"@ {
        Err(bad_request("last message role must be 'user'"@))
    } else if trimmed(messages.last().content@).len() == 0 {
        Err(bad_request("last message content must not be empty"@))
    } else {
        Ok((requested, trimmed(messages.last().content@)))
    }
}

/// The outcome of an admission, taken by its view.
pub open spec fn admission_outcome(outcome: Result<AcceptedChat, AppError>) -> Result<
    (Seq<char>, Seq<char>),
    AppErrorView,
> {
    match outcome {
        Ok(chat) => Ok((chat.model@, chat.prompt@)),
        Err(error) => Err(error@),
    }
}

/// Takes the prompt out of a request, or refuses the request.
pub fn accept_chat(payload: &ChatRequest, served_model: &str) -> (outcome: Result<
    AcceptedChat,
    AppError,
>)
    ensures
        admission_outcome(outcome) == admission(payload.model@, payload.messages@, served_model@),
        outcome is Ok <==> {
            &&& trimmed(payload.model@).len() > 0
            &&& trimmed(payload.model@) == served_model@
            &&& payload.messages@.len() > 0
            &&& trimmed(payload.messages@.last().role@) == "user"@
            &&& trimmed(payload.messages@.last().content@).len() > 0
        },
        outcome matches Ok(chat) ==> chat.model@ == served_model@ && chat.prompt@ == trimmed(
            payload.messages@.last().content@,
        ),
        outcome matches Err(error) ==> error.kind == ErrorKind::BadRequest,
{
    let requested_model = payload.model.as_str().trim();
    if requested_model.is_empty() {
        return Err(AppError::bad_request("model is required and must not be empty".to_string()));
    }
    if !same_text(requested_model, served_model) {
        let mut message = joined("unsupported model '", requested_model);
        message.append("'. This gateway is configured for '");
        message.append(served_model);
        message.append("'");
        return Err(AppError::bad_request(message));
    }
    if payload.messages.len() == 0 {
        return Err(AppError::bad_request("messages must contain at least one item".to_string()));
    }
    let last_message = &payload.messages[payload.messages.len() - 1];
    if !same_text(last_message.role.as_str().trim(), "user") {
        return Err(AppError::bad_request("last message role must be 'user'".to_string()));
    }
    let user_prompt = last_message.content.as_str().trim();
    if user_prompt.is_empty() {
        return Err(AppError::bad_request("last message content must not be empty".to_string()));
    }
    Ok(AcceptedChat { model: requested_model.to_string(), prompt: user_prompt.to_string() })
}

// Looking an answer up.

/// A request whose prompt was embedded.
#[derive(Debug)]
pub struct EmbeddedChat<E> {
    pub model: String,
    pub prompt: String,
    pub vector: Vec<E>,
}

/// `outcome` can be what becomes of `chat` once embedding its prompt came to `embedded`.
pub open spec fn carries_embedding<E>(
    chat: AcceptedChat,
    embedded: Result<Vec<E>, AppErrorView>,
    outcome: Result<EmbeddedChat<E>, AppError>,
) -> bool {
    match (embedded, outcome) {
        (Ok(vector), Ok(next)) => {
            &&& next.model == chat.model
            &&& next.prompt == chat.prompt
            &&& next.vector == vector
        },
        (Err(error), Err(reported)) => reported@ == error,
        _ => false,
    }
}

/// `outcome` can be what becomes of `chat` by embedding its prompt, where the model is run by
/// `infer`.
pub open spec fn is_chat_embedded<E: Component, F: FnOnce(ModelInputs) -> Result<
    HiddenStates<E>,
    InferenceError,
>>(
    chat: AcceptedChat,
    tokenizer: tokenizers::Tokenizer,
    infer: F,
    outcome: Result<EmbeddedChat<E>, AppError>,
) -> bool {
    exists|embedded: Result<Vec<E>, AppErrorView>| #[trigger]
        is_prompt_embedded(tokenizer, chat.prompt@, infer, embedded) && carries_embedding(
            chat,
            embedded,
            outcome,
        )
}

/// What to look for in the vector database.
#[derive(Debug)]
pub struct SearchRequest<E, T> {
    pub collection: String,
    pub vector: Vec<E>,
    pub limit: u64,
    pub with_payload: bool,
    pub score_threshold: T,
}

/// A request for which no answer was found.
#[derive(Debug)]
pub struct MissedChat<E> {
    pub model: String,
    pub prompt: String,
    pub vector: Vec<E>,
}

/// A request with its answer.
#[derive(Debug)]
pub struct AnsweredChat {
    pub content: String,
    pub cached: bool,
}

/// What came of a search.
#[derive(Debug)]
pub enum SearchOutcome<E> {
    Hit(AnsweredChat),
    Miss(MissedChat<E>),
}

/// `outcome` is what becomes of `chat` once the search came to `found`: a hit is answered with
/// its cached answer, marked as such, and without a hit the request is a miss.
pub open spec fn resolves<E>(
    chat: EmbeddedChat<E>,
    found: Result<Vec<ScoredPoint>, String>,
    outcome: Result<SearchOutcome<E>, AppError>,
) -> bool {
    match found {
        Err(reason) => outcome matches Err(error) && error@ == internal(
            "Qdrant search failed: "@ + reason@,
        ),
        Ok(hits) => if hits@.len() == 0 {
            &&& outcome matches Ok(SearchOutcome::Miss(missed))
            &&& missed.model == chat.model
            &&& missed.prompt == chat.prompt
            &&& missed.vector == chat.vector
        } else {
            match cached_answer(hits@[0]) {
                Some(answer) => {
                    &&& outcome matches Ok(SearchOutcome::Hit(answered))
                    &&& answered.content@ == CACHED_PREFIX@ + answer
                    &&& answered.cached
                },
                None => outcome matches Err(error) && error@ == internal(
                    "Qdrant hit did not contain a string response payload"@,
                ),
            }
        },
    }
}

fn copied<E: Copy>(values: &Vec<E>) -> (copy: Vec<E>)
    ensures
        copy@ == values@,
{
    let mut copy: Vec<E> = Vec::new();
    for i in 0..values.len()
        invariant
            copy@ == values@.take(i as int),
    {
        copy.push(values[i]);
        assert(values@.take(i + 1) =~= values@.take(i as int).push(values@[i as int]));
    }
    assert(values@.take(values@.len() as int) =~= values@);
    copy
}

impl AcceptedChat {
    /// Embeds the prompt; `infer` runs the model.
    pub fn embed<E: Component, F: FnOnce(ModelInputs) -> Result<HiddenStates<E>, InferenceError>>(
        self,
        tokenizer: &PromptTokenizer,
        infer: F,
    ) -> (outcome: Result<EmbeddedChat<E>, AppError>)
        requires
            can_be_run(tokenizer@, self.prompt@, infer),
        ensures
            is_chat_embedded(self, tokenizer@, infer, outcome),
            outcome matches Ok(next) ==> next.model == self.model && next.prompt == self.prompt,
    {
        let embedded = embed_prompt(tokenizer, self.prompt.as_str(), infer);
        match embedded {
            Ok(vector) => Ok(EmbeddedChat { model: self.model, prompt: self.prompt, vector }),
            Err(error) => Err(error),
        }
    }
}

impl<E: Copy> EmbeddedChat<E> {
    /// The search for the answer to the most similar prompt.
    pub fn search_request<T>(&self, score_threshold: T) -> (request: SearchRequest<E, T>)
        ensures
            request.collection@ == COLLECTION_NAME@,
            request.vector@ == self.vector@,
            request.limit == SEARCH_LIMIT,
            request.limit == 1,
            request.with_payload,
            request.score_threshold == score_threshold,
    {
        SearchRequest {
            collection: COLLECTION_NAME.to_string(),
            vector: copied(&self.vector),
            limit: SEARCH_LIMIT,
            with_payload: true,
            score_threshold,
        }
    }

    /// Decides by what the search found whether the request is a hit or a miss.
    pub fn resolve(self, found: Result<Vec<ScoredPoint>, String>) -> (outcome: Result<
        SearchOutcome<E>,
        AppError,
    >)
        ensures
            resolves(self, found, outcome),
            found matches Err(reason) ==> (outcome matches Err(error) && error.kind
                == ErrorKind::Internal && error.message@ == "Qdrant search failed: "@ + reason@),
            found matches Ok(hits) ==> hits@.len() == 0 ==> (outcome matches Ok(
                SearchOutcome::Miss(missed),
            ) && missed.model == self.model && missed.prompt == self.prompt && missed.vector
                == self.vector),
            found matches Ok(hits) ==> hits@.len() > 0 ==> (match outcome {
                Ok(SearchOutcome::Hit(answered)) => {
                    &&& hit_texts(hits@[0]).contains_key("response"@)
                    &&& hit_texts(hits@[0])["response"@] matches Some(answer)
                    &&& answered.content@ == "[CACHED] "@ + answer
                    &&& answered.cached
                },
                Ok(SearchOutcome::Miss(_)) => false,
                Err(error) => {
                    &&& !hit_texts(hits@[0]).contains_key("response"@) || hit_texts(
                        hits@[0],
                    )["response"@] is None
                    &&& error.kind == ErrorKind::Internal
                    &&& error.message@ == "Qdrant hit did not contain a string response payload"@
                },
            }),
    {
        match found {
            Err(reason) => Err(AppError::internal(joined("Qdrant search failed: ", &reason))),
            Ok(hits) => {
                if hits.len() == 0 {
                    return Ok(
                        SearchOutcome::Miss(
                            MissedChat {
                                model: self.model,
                                prompt: self.prompt,
                                vector: self.vector,
                            },
                        ),
                    );
                }
                match read_answer(&hits[0]) {
                    Some(answer) => Ok(
                        SearchOutcome::Hit(
                            AnsweredChat { content: joined(CACHED_PREFIX, &answer), cached: true },
                        ),
                    ),
                    None => Err(
                        AppError::internal(
                            "Qdrant hit did not contain a string response payload".to_string(),
                        ),
                    ),
                }
            },
        }
    }
}

// Generating and storing an answer.

/// A request whose answer was generated and is not stored yet.
#[derive(Debug)]
pub struct GeneratedChat<E> {
    pub prompt: String,
    pub answer: String,
    pub vector: Vec<E>,
}

/// What to store in the vector database.
#[derive(Debug)]
pub struct StoreRequest<E> {
    pub collection: String,
    pub id: String,
    pub vector: Vec<E>,
    pub payload: qdrant_client::Payload,
}

/// `request` stores the answer of `chat` under its prompt's vector.
pub open spec fn stores<E>(chat: GeneratedChat<E>, request: StoreRequest<E>) -> bool {
    &&& request.collection@ == COLLECTION_NAME@
    &&& request.vector@ == chat.vector@
    &&& payload_texts(request.payload) == entry_texts(chat.prompt@, chat.answer@)
}

impl<E> MissedChat<E> {
    /// What is asked of the language model.
    pub fn llm_request(&self) -> (request: LlmRequest)
        ensures
            request.model@ == self.model@,
            request.messages@.len() == 1,
            request.messages@[0].role@ == "user"@,
            request.messages@[0].content@ == self.prompt@,
            request.max_tokens == crate::constants::MAX_TOKENS,
    {
        llm_request(self.prompt.as_str(), self.model.as_str())
    }

    /// Takes the generated answer.
    pub fn generated(self, answer: String) -> (next: GeneratedChat<E>)
        ensures
            next.prompt == self.prompt,
            next.answer == answer,
            next.vector == self.vector,
    {
        GeneratedChat { prompt: self.prompt, answer, vector: self.vector }
    }
}

impl<E: Copy> GeneratedChat<E> {
    /// The entry for the answer, under the given identifier.
    pub fn store_request_as(&self, id: String) -> (request: StoreRequest<E>)
        ensures
            stores(*self, request),
            request.id == id,
            request.collection@ == "semantic-cache"@,
            request.vector@ == self.vector@,
            payload_texts(request.payload).dom() =~= set!["prompt"@, "response"@],
            payload_texts(request.payload)["prompt"@] == Some(self.prompt@),
            payload_texts(request.payload)["response"@] == Some(self.answer@),
    {
        StoreRequest {
            collection: COLLECTION_NAME.to_string(),
            id,
            vector: copied(&self.vector),
            payload: cache_entry(self.prompt.clone(), self.answer.clone()),
        }
    }

    /// The entry for the answer, under a random identifier.
    pub fn store_request(&self) -> (request: StoreRequest<E>)
        ensures
            stores(*self, request),
            is_random_uuid(request.id@),
            request.collection@ == "semantic-cache"@,
            request.vector@ == self.vector@,
            payload_texts(request.payload).dom() =~= set!["prompt"@, "response"@],
            payload_texts(request.payload)["prompt"@] == Some(self.prompt@),
            payload_texts(request.payload)["response"@] == Some(self.answer@),
    {
        self.store_request_as(random_uuid())
    }

    /// Gives the answer once it is stored.
    pub fn stored(self, outcome: Result<(), String>) -> (answered: Result<AnsweredChat, AppError>)
        ensures
            match outcome {
                Ok(_) => answered matches Ok(chat) && chat.content == self.answer && !chat.cached,
                Err(reason) => answered matches Err(error) && error@ == internal(
                    "Qdrant upsert failed: "@ + reason@,
                ) && error.kind == ErrorKind::Internal && error.message@
                    == "Qdrant upsert failed: "@ + reason@,
            },
    {
        match outcome {
            Ok(_) => Ok(AnsweredChat { content: self.answer, cached: false }),
            Err(reason) => Err(AppError::internal(joined("Qdrant upsert failed: ", &reason))),
        }
    }
}

// Giving an answer.

/// The response that gives `content`, under an identifier made of `uuid`.
pub open spec fn response_with(uuid: Seq<char>, content: Seq<char>) -> ChatResponseView {
    ChatResponseView {
        id: "chatcmpl-"@ + uuid,
        object: "chat.completion"@,
        choices: seq![("assistant"@, content)],
    }
}

/// There is room for one more request in the counters that `chat` is counted in.
pub open spec fn can_be_counted<N>(chat: AnsweredChat, metrics: MetricsData<N>) -> bool {
    &&& metrics.total_requests < u64::MAX
    &&& chat.cached ==> metrics.cache_hits < u64::MAX
    &&& !chat.cached ==> metrics.cache_misses < u64::MAX
}

/// `after` can be `before` once a request that took `latency_ms` came to `outcome`: an answer is
/// counted as a hit or as a miss, and a failure is not counted.
pub open spec fn is_recorded<N: Number>(
    outcome: Result<AnsweredChat, AppError>,
    before: MetricsData<N>,
    latency_ms: N,
    after: MetricsData<N>,
) -> bool {
    match outcome {
        Ok(chat) => if chat.cached {
            counts_hit(before, latency_ms, after)
        } else {
            counts_miss(before, latency_ms, after)
        },
        Err(_) => after == before,
    }
}

/// Counts a request by what it came to.
pub fn record_outcome<N: Number>(
    outcome: &Result<AnsweredChat, AppError>,
    metrics: &mut MetricsData<N>,
    latency_ms: N,
)
    requires
        outcome matches Ok(chat) ==> can_be_counted(*chat, *old(metrics)),
    ensures
        is_recorded(*outcome, *old(metrics), latency_ms, *final(metrics)),
        *outcome matches Ok(chat) ==> chat.cached ==> counts_hit(
            *old(metrics),
            latency_ms,
            *final(metrics),
        ),
        *outcome matches Ok(chat) ==> !chat.cached ==> counts_miss(
            *old(metrics),
            latency_ms,
            *final(metrics),
        ),
        *outcome is Err ==> *final(metrics) == *old(metrics),
{
    if let Ok(chat) = outcome {
        chat.record(metrics, latency_ms);
    }
}

impl AnsweredChat {
    /// Counts the request as a hit or as a miss.
    pub fn record<N: Number>(&self, metrics: &mut MetricsData<N>, latency_ms: N)
        requires
            can_be_counted(*self, *old(metrics)),
        ensures
            self.cached ==> counts_hit(*old(metrics), latency_ms, *final(metrics)),
            !self.cached ==> counts_miss(*old(metrics), latency_ms, *final(metrics)),
    {
        if self.cached {
            update_hit_metrics(metrics, latency_ms);
        } else {
            update_miss_metrics(metrics, latency_ms);
        }
    }

    /// The response with the answer, under an identifier made of `uuid`.
    pub fn response_as(self, uuid: &str) -> (response: ChatResponse)
        ensures
            response@ == response_with(uuid@, self.content@),
            response.id@ == "chatcmpl-"@ + uuid@,
            response.object@ == "chat.completion"@,
            response.choices@.len() == 1,
            response.choices@[0].message.role@ == "assistant"@,
            response.choices@[0].message.content@ == self.content@,
    {
        let mut choices: Vec<Choice> = Vec::new();
        choices.push(
            Choice {
                message: ResponseMessage { role: "assistant".to_string(), content: self.content },
            },
        );
        let response = ChatResponse {
            id: joined("chatcmpl-", uuid),
            object: "chat.completion".to_string(),
            choices,
        };
        assert(response@.choices =~= seq![("assistant"@, self.content@)]);
        response
    }

    /// The response with the answer, under a random identifier.
    pub fn response(self) -> (response: ChatResponse)
        ensures
            exists|uuid: Seq<char>| #[trigger]
                is_random_uuid(uuid) && response@ == response_with(uuid, self.content@)
                    && response.id@ == "chatcmpl-"@ + uuid,
            response.object@ == "chat.completion"@,
            response.choices@.len() == 1,
            response.choices@[0].message.role@ == "assistant"@,
            response.choices@[0].message.content@ == self.content@,
    {
        let uuid = random_uuid();
        self.response_as(uuid.as_str())
    }
}

// Laws.

/// A refused request is answered with an error that blames the request.
pub proof fn law_refusals_blame_the_request(
    model: Seq<char>,
    messages: Seq<Message>,
    served_model: Seq<char>,
)
    ensures
        admission(model, messages, served_model) matches Err(error) ==> error.kind
            == ErrorKind::BadRequest,
{
}

/// An accepted request is for the served model, and its prompt is what the last message says,
/// neither empty nor surrounded by white space.
pub proof fn law_accepted_prompts_are_clean(
    model: Seq<char>,
    messages: Seq<Message>,
    served_model: Seq<char>,
)
    ensures
        admission(model, messages, served_model) matches Ok((requested, prompt)) ==> {
            &&& requested == served_model
            &&& prompt == trimmed(messages.last().content@)
            &&& prompt.len() > 0
            &&& trimmed(prompt) == prompt
        },
{
    law_trimming_is_final(messages.last().content@);
}

/// Of the messages only the last one counts.
pub proof fn law_only_the_last_message_counts(
    model: Seq<char>,
    messages: Seq<Message>,
    others: Seq<Message>,
    served_model: Seq<char>,
)
    requires
        messages.len() > 0,
        others.len() > 0,
        messages.last() == others.last(),
    ensures
        admission(model, messages, served_model) == admission(model, others, served_model),
{
}

/// White space around the model, the role and the content makes no difference.
pub proof fn law_surrounding_white_space_makes_no_difference(
    model: Seq<char>,
    other_model: Seq<char>,
    messages: Seq<Message>,
    others: Seq<Message>,
    served_model: Seq<char>,
)
    requires
        trimmed(model) == trimmed(other_model),
        messages.len() > 0,
        others.len() > 0,
        trimmed(messages.last().role@) == trimmed(others.last().role@),
        trimmed(messages.last().content@) == trimmed(others.last().content@),
    ensures
        admission(model, messages, served_model) == admission(other_model, others, served_model),
{
}

/// A request that names no model is served like one that names the served model: exactly when
/// its last message is a user's and says something.
pub proof fn law_the_model_may_be_left_out(
    request: ChatRequest,
    named: ChatRequest,
    name: String,
    messages: Vec<Message>,
    served_model: Seq<char>,
)
    requires
        is_request_of(request, None, messages, served_model),
        is_request_of(named, Some(name), messages, served_model),
        name@ == served_model,
        served_model.len() > 0,
        trimmed(served_model) == served_model,
    ensures
        admission(request.model@, request.messages@, served_model) == admission(
            named.model@,
            named.messages@,
            served_model,
        ),
        admission(request.model@, request.messages@, served_model) is Ok <==> messages@.len() > 0
            && trimmed(messages@.last().role@) == "user"@ && trimmed(
            messages@.last().content@,
        ).len() > 0,
{
}

/// The same prompt is searched for under the same vector: where the tokenizer has one outcome on
/// it, the model one output on the same inputs and arithmetic one result, a later request with
/// the prompt of an earlier one succeeds or fails in its embedding like that one, and has the
/// same vector.
pub proof fn law_the_same_prompt_is_searched_alike<
    E: Component,
    F: FnOnce(ModelInputs) -> Result<HiddenStates<E>, InferenceError>,
    G: FnOnce(ModelInputs) -> Result<HiddenStates<E>, InferenceError>,
>(
    chat: AcceptedChat,
    later: AcceptedChat,
    tokenizer: tokenizers::Tokenizer,
    infer: F,
    again: G,
    first: Result<EmbeddedChat<E>, AppError>,
    second: Result<EmbeddedChat<E>, AppError>,
)
    requires
        chat.prompt@ == later.prompt@,
        computes_deterministically::<E>(),
        encodes_one_way(tokenizer, chat.prompt@),
        runs_repeatably::<E, F, G>(infer, again),
        is_chat_embedded(chat, tokenizer, infer, first),
        is_chat_embedded(later, tokenizer, again, second),
    ensures
        match (first, second) {
            (Ok(embedded), Ok(repeated)) => {
                &&& embedded.vector@ == repeated.vector@
                &&& embedded.prompt@ == repeated.prompt@
            },
            (Err(error), Err(failure)) => error@ == failure@,
            _ => false,
        },
{
    let prompt = chat.prompt@;
    let embedded = choose|embedded: Result<Vec<E>, AppErrorView>| #[trigger]
        is_prompt_embedded(tokenizer, prompt, infer, embedded) && carries_embedding(
            chat,
            embedded,
            first,
        );
    let repeated = choose|embedded: Result<Vec<E>, AppErrorView>| #[trigger]
        is_prompt_embedded(tokenizer, prompt, again, embedded) && carries_embedding(
            later,
            embedded,
            second,
        );
    law_the_same_prompt_has_one_embedding(tokenizer, prompt, infer, again, embedded, repeated);
}

/// Where the search finds something, nothing is generated; where it finds nothing, the answer is
/// not served from the cache.
pub proof fn law_generation_only_on_a_miss<E>(
    chat: EmbeddedChat<E>,
    hits: Vec<ScoredPoint>,
    outcome: Result<SearchOutcome<E>, AppError>,
)
    requires
        resolves(chat, Ok(hits), outcome),
    ensures
        (outcome matches Ok(SearchOutcome::Miss(_))) <==> hits@.len() == 0,
        (outcome matches Ok(SearchOutcome::Hit(_))) ==> hits@.len() > 0,
{
}

/// Only the best hit counts.
pub proof fn law_only_the_first_hit_counts<E>(
    chat: EmbeddedChat<E>,
    hits: Vec<ScoredPoint>,
    others: Vec<ScoredPoint>,
    outcome: Result<SearchOutcome<E>, AppError>,
)
    requires
        hits@.len() > 0,
        others@.len() > 0,
        hits@[0] == others@[0],
    ensures
        resolves(chat, Ok(hits), outcome) == resolves(chat, Ok(others), outcome),
{
}

/// An answer that was stored on a miss is what a later request is answered with, marked as
/// cached, when its search finds the stored entry.
pub proof fn law_stored_answers_are_served_from_the_cache<E>(
    stored: GeneratedChat<E>,
    entry: StoreRequest<E>,
    later: EmbeddedChat<E>,
    hits: Vec<ScoredPoint>,
    outcome: Result<SearchOutcome<E>, AppError>,
)
    requires
        stores(stored, entry),
        hits@.len() > 0,
        hit_texts(hits@[0]) == payload_texts(entry.payload),
        resolves(later, Ok(hits), outcome),
    ensures
        outcome matches Ok(SearchOutcome::Hit(answered)) && answered.content@ == CACHED_PREFIX@
            + stored.answer@ && answered.cached,
{
}

/// On a miss the answer is stored under the very vector that was searched for, with the prompt
/// that was embedded.
pub proof fn law_answers_are_stored_where_they_are_searched<E>(
    chat: EmbeddedChat<E>,
    hits: Vec<ScoredPoint>,
    missed: MissedChat<E>,
    generated: GeneratedChat<E>,
    entry: StoreRequest<E>,
)
    requires
        resolves(chat, Ok(hits), Ok(SearchOutcome::Miss(missed))),
        generated.prompt == missed.prompt,
        generated.vector == missed.vector,
        stores(generated, entry),
    ensures
        entry.vector@ == chat.vector@,
        entry.collection@ == COLLECTION_NAME@,
        payload_texts(entry.payload) == entry_texts(chat.prompt@, generated.answer@),
{
}

/// An answered request is counted once, as a hit or as a miss and never as both; a request that
/// failed leaves every counter as it was.
pub proof fn law_only_answered_requests_are_counted<N: Number>(
    outcome: Result<AnsweredChat, AppError>,
    before: MetricsData<N>,
    latency_ms: N,
    after: MetricsData<N>,
)
    requires
        is_recorded(outcome, before, latency_ms, after),
    ensures
        outcome is Ok ==> {
            &&& after.total_requests == before.total_requests + 1
            &&& counts_hit(before, latency_ms, after) != counts_miss(before, latency_ms, after)
            &&& counts_hit(before, latency_ms, after) <==> outcome->Ok_0.cached
        },
        outcome is Err ==> after == before,
        before.balanced() ==> after.balanced(),
{
}

/// A request is accepted exactly when the model that it names, trimmed, is the served one, and its
/// last message is a user's and says something. What is served is then the model that was asked
/// for, on the trimmed content of that message.
pub proof fn law_only_the_served_model_is_accepted(
    model: Seq<char>,
    messages: Seq<Message>,
    served_model: Seq<char>,
)
    ensures
        admission(model, messages, served_model) is Ok <==> {
            &&& trimmed(model).len() > 0
            &&& trimmed(model) == served_model
            &&& messages.len() > 0
            &&& trimmed(messages.last().role@) == "user"@
            &&& trimmed(messages.last().content@).len() > 0
        },
        admission(model, messages, served_model) matches Ok((accepted, prompt)) ==> {
            &&& accepted == trimmed(model)
            &&& prompt == trimmed(messages.last().content@)
        },
{
}

/// A request is refused for its model first, whatever its messages are: for naming none, or for
/// naming another than the served one, which the refusal tells together with the served one.
pub proof fn law_another_model_is_refused_by_name(
    payload: &ChatRequest,
    served_model: &str,
    outcome: Result<AcceptedChat, AppError>,
)
    requires
        call_ensures(accept_chat, (payload, served_model), outcome),
    ensures
        trimmed(payload.model@).len() == 0 ==> (outcome matches Err(error) && error.kind
            == ErrorKind::BadRequest && error.message@
            == "model is required and must not be empty"@),
        trimmed(payload.model@).len() > 0 && trimmed(payload.model@) != served_model@ ==> (
        outcome matches Err(error) && error.kind == ErrorKind::BadRequest && error.message@
            == "unsupported model '"@ + trimmed(payload.model@)
            + "'. This gateway is configured for '"@ + served_model@ + "'"@),
        outcome matches Ok(chat) ==> chat.model@ == trimmed(payload.model@) && chat.model@
            == served_model@,
{
}

/// A request for the served model is refused for its messages: for having none, for a last one
/// that is not a user's, or for a last one that says nothing, in this order.
pub proof fn law_messages_are_refused_in_order(
    payload: &ChatRequest,
    served_model: &str,
    outcome: Result<AcceptedChat, AppError>,
)
    requires
        call_ensures(accept_chat, (payload, served_model), outcome),
        trimmed(payload.model@).len() > 0,
        trimmed(payload.model@) == served_model@,
    ensures
        payload.messages@.len() == 0 ==> (outcome matches Err(error) && error.kind
            == ErrorKind::BadRequest && error.message@
            == "messages must contain at least one item"@),
        payload.messages@.len() > 0 && trimmed(payload.messages@.last().role@) != "user"@ ==> (
        outcome matches Err(error) && error.kind == ErrorKind::BadRequest && error.message@
            == "last message role must be 'user'"@),
        payload.messages@.len() > 0 && trimmed(payload.messages@.last().role@) == "user"@
            && trimmed(payload.messages@.last().content@).len() == 0 ==> (outcome matches Err(
            error,
        ) && error.kind == ErrorKind::BadRequest && error.message@
            == "last message content must not be empty"@),
        payload.messages@.len() > 0 && trimmed(payload.messages@.last().role@) == "user"@
            && trimmed(payload.messages@.last().content@).len() > 0 ==> (outcome matches Ok(chat)
            && chat.prompt@ == trimmed(payload.messages@.last().content@)),
{
}

/// The outcome of an admission is viewed whole.
pub proof fn law_admissions_are_viewed_whole(chat: AcceptedChat, error: AppError)
    ensures
        admission_outcome(Ok(chat)) == Ok::<(Seq<char>, Seq<char>), AppErrorView>(
            (chat.model@, chat.prompt@),
        ),
        admission_outcome(Err(error)) matches Err(view) && view.kind == error.kind && view.message
            == error.message@,
{
}

/// Embedding a request keeps its model and its prompt and takes the whole vector of the prompt's
/// embedding, or ends in the error of the embedding.
pub proof fn law_embedding_keeps_the_request<
    E: Component,
    F: FnOnce(ModelInputs) -> Result<HiddenStates<E>, InferenceError>,
>(
    chat: AcceptedChat,
    tokenizer: tokenizers::Tokenizer,
    infer: F,
    outcome: Result<EmbeddedChat<E>, AppError>,
)
    requires
        is_chat_embedded(chat, tokenizer, infer, outcome),
    ensures
        exists|embedded: Result<Vec<E>, AppErrorView>|
            {
                &&& #[trigger] is_prompt_embedded(tokenizer, chat.prompt@, infer, embedded)
                &&& embedded is Ok <==> outcome is Ok
                &&& outcome matches Ok(next) ==> next.vector@ == embedded->Ok_0@ && next.model@
                    == chat.model@ && next.prompt@ == chat.prompt@
                &&& outcome matches Err(error) ==> error.kind == embedded->Err_0.kind
                    && error.message@ == embedded->Err_0.message
            },
{
}

/// The search asks for one entry of the cache with its payload, for the whole vector of the
/// request and from the given similarity on.
pub proof fn law_the_search_is_for_the_whole_vector<E: Copy, T>(
    chat: EmbeddedChat<E>,
    score_threshold: T,
    request: SearchRequest<E, T>,
)
    requires
        call_ensures(EmbeddedChat::<E>::search_request::<T>, (&chat, score_threshold), request),
    ensures
        request.collection@ == "semantic-cache"@,
        request.vector@.len() == chat.vector@.len(),
        forall|i: int|
            0 <= i < chat.vector@.len() ==> #[trigger] request.vector@[i] == chat.vector@[i],
        request.limit == 1,
        request.with_payload,
        request.score_threshold == score_threshold,
{
}

/// A search that finds something is answered with the whole text that the first hit holds under
/// "response", behind the mark of the cache and marked as cached; one whose first hit holds no
/// text there ends in an error, and one that finds nothing is a miss with all of the request.
pub proof fn law_a_search_is_resolved_by_its_first_hit<E: Copy>(
    chat: EmbeddedChat<E>,
    hits: Vec<ScoredPoint>,
    outcome: Result<SearchOutcome<E>, AppError>,
)
    requires
        call_ensures(EmbeddedChat::<E>::resolve, (chat, Ok(hits)), outcome),
    ensures
        hits@.len() > 0 && hit_texts(hits@[0]).contains_key("response"@) && hit_texts(
            hits@[0],
        )["response"@] is Some ==> (outcome matches Ok(SearchOutcome::Hit(answered))
            && answered.content@ == "[CACHED] "@ + hit_texts(hits@[0])["response"@]->Some_0
            && answered.cached),
        hits@.len() > 0 && !(hit_texts(hits@[0]).contains_key("response"@) && hit_texts(
            hits@[0],
        )["response"@] is Some) ==> (outcome matches Err(error) && error.kind
            == ErrorKind::Internal && error.message@
            == "Qdrant hit did not contain a string response payload"@),
        hits@.len() == 0 ==> (outcome matches Ok(SearchOutcome::Miss(missed)) && missed.model@
            == chat.model@ && missed.prompt@ == chat.prompt@ && missed.vector@ == chat.vector@),
{
}

/// A failed search ends the request in an error of the gateway that tells the whole reason.
pub proof fn law_a_failed_search_is_told<E: Copy>(
    chat: EmbeddedChat<E>,
    reason: String,
    outcome: Result<SearchOutcome<E>, AppError>,
)
    requires
        call_ensures(EmbeddedChat::<E>::resolve, (chat, Err(reason)), outcome),
    ensures
        outcome matches Err(error) && error.kind == ErrorKind::Internal && error.message@
            == "Qdrant search failed: "@ + reason@,
{
}

/// On a hit the client gets exactly one choice, from the assistant, whose content is the mark of
/// the cache followed by the whole stored answer.
pub proof fn law_a_hit_reaches_the_client_marked<E: Copy>(
    chat: EmbeddedChat<E>,
    hits: Vec<ScoredPoint>,
    answered: AnsweredChat,
    response: ChatResponse,
)
    requires
        call_ensures(
            EmbeddedChat::<E>::resolve,
            (chat, Ok(hits)),
            Ok::<SearchOutcome<E>, AppError>(SearchOutcome::Hit(answered)),
        ),
        call_ensures(AnsweredChat::response, (answered,), response),
    ensures
        hits@.len() > 0,
        hit_texts(hits@[0]).contains_key("response"@),
        hit_texts(hits@[0])["response"@] is Some,
        response.choices@.len() == 1,
        response.choices@[0].message.role@ == "assistant"@,
        response.choices@[0].message.content@ == "[CACHED] "@ + hit_texts(
            hits@[0],
        )["response"@]->Some_0,
        response.object@ == "chat.completion"@,
{
}

/// On a miss the client gets exactly one choice, from the assistant, whose content is the whole
/// content of the first choice that the language model gave; the same text is what was stored.
pub proof fn law_a_miss_reaches_the_client_as_generated<E: Copy>(
    missed: MissedChat<E>,
    response_text: &str,
    reply: LlmApiResponse,
    answer: String,
    generated: GeneratedChat<E>,
    entry: StoreRequest<E>,
    answered: AnsweredChat,
    response: ChatResponse,
)
    requires
        reply.choices@.len() > 0,
        call_ensures(parsed_answer, (response_text, Ok(reply)), Ok::<String, AppError>(answer)),
        call_ensures(MissedChat::<E>::generated, (missed, answer), generated),
        call_ensures(GeneratedChat::<E>::store_request, (&generated,), entry),
        call_ensures(
            GeneratedChat::<E>::stored,
            (generated, Ok(())),
            Ok::<AnsweredChat, AppError>(answered),
        ),
        call_ensures(AnsweredChat::response, (answered,), response),
    ensures
        response.choices@.len() == 1,
        response.choices@[0].message.role@ == "assistant"@,
        response.choices@[0].message.content@ == reply.choices@[0].message.content@,
        response.object@ == "chat.completion"@,
        payload_texts(entry.payload)["response"@] == Some(reply.choices@[0].message.content@),
        payload_texts(entry.payload)["prompt"@] == Some(missed.prompt@),
        entry.vector@ == missed.vector@,
        !answered.cached,
{
}

/// A response carries exactly one choice, from the assistant, whose content is that of the answer,
/// character for character, under an identifier made of the given one.
pub proof fn law_a_response_carries_the_whole_answer(
    answered: AnsweredChat,
    uuid: &str,
    response: ChatResponse,
)
    requires
        call_ensures(AnsweredChat::response_as, (answered, uuid), response),
    ensures
        response.choices@.len() == 1,
        response.choices@[0].message.content@.len() == answered.content@.len(),
        forall|i: int|
            0 <= i < answered.content@.len()
                ==> #[trigger] response.choices@[0].message.content@[i] == answered.content@[i],
        response.choices@[0].message.role@ == "assistant"@,
        response.object@ == "chat.completion"@,
        response.id@ == "chatcmpl-"@ + uuid@,
{
}

/// Different answers make different responses, and the same answer the same one but for its
/// identifier.
pub proof fn law_responses_tell_answers_apart(
    uuid: Seq<char>,
    other_uuid: Seq<char>,
    content: Seq<char>,
    other: Seq<char>,
)
    ensures
        response_with(uuid, content).choices == response_with(other_uuid, other).choices
            <==> content == other,
        response_with(uuid, content).object == response_with(other_uuid, other).object,
{
    let choices = response_with(uuid, content).choices;
    let others = response_with(other_uuid, other).choices;
    assert(choices.len() == 1 && others.len() == 1);
    assert(choices[0] == ("assistant"@, content) && others[0] == ("assistant"@, other));
}

/// What is stored is the whole answer under the whole vector with the whole prompt, in the
/// collection of the cache; what cannot be stored ends in an error that tells the whole reason.
pub proof fn law_answers_are_stored_whole<E: Copy>(
    generated: GeneratedChat<E>,
    id: String,
    entry: StoreRequest<E>,
    reason: String,
    failed: Result<AnsweredChat, AppError>,
)
    requires
        call_ensures(GeneratedChat::<E>::store_request_as, (&generated, id), entry),
        call_ensures(GeneratedChat::<E>::stored, (generated, Err(reason)), failed),
    ensures
        entry.collection@ == "semantic-cache"@,
        entry.id@ == id@,
        entry.vector@ == generated.vector@,
        payload_texts(entry.payload).dom() =~= set!["prompt"@, "response"@],
        payload_texts(entry.payload)["prompt"@] == Some(generated.prompt@),
        payload_texts(entry.payload)["response"@] == Some(generated.answer@),
        failed matches Err(error) && error.kind == ErrorKind::Internal && error.message@
            == "Qdrant upsert failed: "@ + reason@,
{
}

/// The language model is asked the whole prompt that missed, for the model that was requested.
pub proof fn law_a_miss_is_asked_whole<E>(missed: MissedChat<E>, request: LlmRequest)
    requires
        call_ensures(MissedChat::<E>::llm_request, (&missed,), request),
    ensures
        request.model@ == missed.model@,
        request.messages@.len() == 1,
        request.messages@[0].role@ == "user"@,
        request.messages@[0].content@ == missed.prompt@,
        request.max_tokens == 1024,
{
}

/// An answer from the cache adds one to the hits and its latency to theirs, any other answer to
/// those of the misses, and a failure leaves every counter as it was.
pub proof fn law_outcomes_are_counted_where_they_belong<N: Number>(
    outcome: Result<AnsweredChat, AppError>,
    before: MetricsData<N>,
    latency_ms: N,
    after: MetricsData<N>,
)
    requires
        is_recorded(outcome, before, latency_ms, after),
    ensures
        outcome matches Err(_) ==> after == before,
        outcome matches Ok(chat) ==> after.total_requests == before.total_requests + 1,
        outcome matches Ok(chat) ==> chat.cached ==> {
            &&& after.cache_hits == before.cache_hits + 1
            &&& after.cache_misses == before.cache_misses
            &&& call_ensures(
                N::plus,
                (before.total_hit_latency_ms, latency_ms),
                after.total_hit_latency_ms,
            )
            &&& after.total_miss_latency_ms == before.total_miss_latency_ms
        },
        outcome matches Ok(chat) ==> !chat.cached ==> {
            &&& after.cache_hits == before.cache_hits
            &&& after.cache_misses == before.cache_misses + 1
            &&& after.total_hit_latency_ms == before.total_hit_latency_ms
            &&& call_ensures(
                N::plus,
                (before.total_miss_latency_ms, latency_ms),
                after.total_miss_latency_ms,
            )
        },
{
}

/// What a search is resolved to is told by its first hit alone: the whole text under "response"
/// behind the mark of the cache, an error where there is none, and a miss with all of the request
/// where nothing was found.
pub proof fn law_resolutions_are_told_by_the_first_hit<E>(
    chat: EmbeddedChat<E>,
    found: Result<Vec<ScoredPoint>, String>,
    outcome: Result<SearchOutcome<E>, AppError>,
)
    requires
        resolves(chat, found, outcome),
    ensures
        found matches Err(reason) ==> (outcome matches Err(error) && error.kind
            == ErrorKind::Internal && error.message@ == "Qdrant search failed: "@ + reason@),
        found matches Ok(hits) ==> hits@.len() == 0 ==> (outcome matches Ok(SearchOutcome::Miss(
            missed,
        )) && missed.model@ == chat.model@ && missed.prompt@ == chat.prompt@ && missed.vector@
            == chat.vector@),
        found matches Ok(hits) ==> hits@.len() > 0 ==> {
            let texts = hit_texts(hits@[0]);
            if texts.contains_key("response"@) && texts["response"@] is Some {
                &&& outcome matches Ok(SearchOutcome::Hit(answered))
                &&& answered.content@ == "[CACHED] "@ + texts["response"@]->Some_0
                &&& answered.cached
            } else {
                &&& outcome matches Err(error)
                &&& error.kind == ErrorKind::Internal
                &&& error.message@ == "Qdrant hit did not contain a string response payload"@
            }
        },
{
}

/// An entry stores an answer if it is for the collection of the cache, under the whole vector and
/// with the whole prompt and the whole answer.
pub proof fn law_entries_are_stored_whole<E>(chat: GeneratedChat<E>, entry: StoreRequest<E>)
    requires
        stores(chat, entry),
    ensures
        entry.collection@ == "semantic-cache"@,
        entry.vector@ == chat.vector@,
        payload_texts(entry.payload).dom() =~= set!["prompt"@, "response"@],
        payload_texts(entry.payload)["prompt"@] == Some(chat.prompt@),
        payload_texts(entry.payload)["response"@] == Some(chat.answer@),
{
    law_entries_are_told_apart(chat.prompt@, chat.answer@, chat.prompt@, chat.answer@);
}

/// A response is an assistant's only choice with the whole content, under an identifier made of
/// the given one.
pub proof fn law_responses_give_the_whole_content(
    response: ChatResponse,
    uuid: Seq<char>,
    content: Seq<char>,
)
    requires
        response@ == response_with(uuid, content),
    ensures
        response.choices@.len() == 1,
        response.choices@[0].message.role@ == "assistant"@,
        response.choices@[0].message.content@ == content,
        response.object@ == "chat.completion"@,
        response.id@ == "chatcmpl-"@ + uuid,
{
    assert(response@.choices.len() == 1);
    assert(response@.choices[0] == ("assistant"@, content));
}

/// The refusals of a request say what is wrong with it, the model before the messages and the role
/// before the content.
pub proof fn law_refusals_say_what_is_wrong(
    model: Seq<char>,
    messages: Seq<Message>,
    served_model: Seq<char>,
)
    ensures
        trimmed(model).len() == 0 ==> (admission(model, messages, served_model) matches Err(error)
            && error.message == "model is required and must not be empty"@),
        trimmed(model).len() > 0 && trimmed(model) != served_model ==> (admission(
            model,
            messages,
            served_model,
        ) matches Err(error) && error.message == "unsupported model '"@ + trimmed(model)
            + "'. This gateway is configured for '"@ + served_model + "'"@),
        trimmed(model).len() > 0 && trimmed(model) == served_model && messages.len() == 0 ==> (
        admission(model, messages, served_model) matches Err(error) && error.message
            == "messages must contain at least one item"@),
        trimmed(model).len() > 0 && trimmed(model) == served_model && messages.len() > 0
            && trimmed(messages.last().role@) != "user"@ ==> (admission(
            model,
            messages,
            served_model,
        ) matches Err(error) && error.message == "last message role must be 'user'"@),
        trimmed(model).len() > 0 && trimmed(model) == served_model && messages.len() > 0
            && trimmed(messages.last().role@) == "user"@ && trimmed(
            messages.last().content@,
        ).len() == 0 ==> (admission(model, messages, served_model) matches Err(error)
            && error.message == "last message content must not be empty"@),
{
}

/// A request with another model than the served one is refused in the same words whatever its
/// messages are.
pub proof fn law_messages_do_not_help_another_model(
    model: Seq<char>,
    messages: Seq<Message>,
    others: Seq<Message>,
    served_model: Seq<char>,
)
    requires
        trimmed(model) != served_model,
    ensures
        admission(model, messages, served_model) is Err,
        admission(model, messages, served_model) == admission(model, others, served_model),
{
}

/// There is room for one more answer exactly when the counter of all requests and that of its own
/// kind are not full; the other counter may be.
pub proof fn law_room_is_needed_in_two_counters<N>(chat: AnsweredChat, metrics: MetricsData<N>)
    ensures
        chat.cached ==> (can_be_counted(chat, metrics) <==> metrics.total_requests < u64::MAX
            && metrics.cache_hits < u64::MAX),
        !chat.cached ==> (can_be_counted(chat, metrics) <==> metrics.total_requests < u64::MAX
            && metrics.cache_misses < u64::MAX),
{
}

} // verus!
