use qdrant_client::qdrant::ScoredPoint;
use qdrant_client::Payload;
use semantic_cache_gateway::cache::{cache_entry, read_answer};
use semantic_cache_gateway::dto::{ChatRequest, Message};
use semantic_cache_gateway::error::{AppError, ErrorKind};
use semantic_cache_gateway::llm::{
    llm_answer, llm_request, parsed_answer, LlmApiResponse, LlmChoice, LlmMessage,
};
use semantic_cache_gateway::routes::{
    accept_chat, handle_health, AnsweredChat, EmbeddedChat, GeneratedChat, MissedChat,
    SearchOutcome,
};

const SERVED: &str = "served-model";

fn said(role: &str, content: &str) -> Message {
    Message { role: role.to_string(), content: content.to_string() }
}

fn request(model: &str, messages: Vec<Message>) -> ChatRequest {
    ChatRequest { model: model.to_string(), messages }
}

fn refusal(request: ChatRequest) -> String {
    let error = accept_chat(&request, SERVED).unwrap_err();
    assert_eq!(error.kind, ErrorKind::BadRequest);
    assert_eq!(error.status(), 400);
    error.message
}

fn embedded() -> EmbeddedChat<i32> {
    EmbeddedChat {
        model: SERVED.to_string(),
        prompt: "Why?".to_string(),
        vector: vec![3, 1, 4],
    }
}

fn hit(payload: Payload) -> ScoredPoint {
    ScoredPoint { payload: payload.into(), ..ScoredPoint::default() }
}

fn is_random_uuid(text: &str) -> bool {
    text.len() == 36
        && text.char_indices().all(|(i, c)| match i {
            8 | 13 | 18 | 23 => c == '-',
            14 => c == '4',
            19 => "89ab".contains(c),
            _ => "0123456789abcdef".contains(c),
        })
}

#[test]
fn health_is_ok() {
    assert_eq!(handle_health().status, "ok");
}

#[test]
fn user_prompt_is_accepted() {
    let chat = accept_chat(
        &request(SERVED, vec![said("user", "What is the capital of France?")]),
        SERVED,
    )
    .unwrap();
    assert_eq!(chat.model, SERVED);
    assert_eq!(chat.prompt, "What is the capital of France?");
}

#[test]
fn request_without_a_model_is_accepted() {
    let messages = vec![said("user", "What is the capital of France?")];
    let asked = ChatRequest::from_parts(None, messages, SERVED);
    let chat = accept_chat(&asked, SERVED).unwrap();
    assert_eq!(chat.model, SERVED);
    assert_eq!(chat.prompt, "What is the capital of France?");

    let messages = vec![said("user", " What is the capital of France? ")];
    let named = ChatRequest::from_parts(Some(SERVED.to_string()), messages, SERVED);
    let served = accept_chat(&named, SERVED).unwrap();
    assert_eq!((served.model, served.prompt), (chat.model, chat.prompt));

    let named = ChatRequest::from_parts(Some("other".to_string()), vec![], SERVED);
    assert_eq!(named.model, "other");
}

#[test]
fn surrounding_white_space_is_ignored() {
    let chat = accept_chat(
        &request(
            " \tserved-model\n",
            vec![said("user\u{3000}", "\u{a0} two  words \u{2029}")],
        ),
        SERVED,
    )
    .unwrap();
    assert_eq!(chat.model, SERVED);
    assert_eq!(chat.prompt, "two  words");
}

#[test]
fn trimming_takes_exactly_white_space() {
    for c in (0..=0x10ffffu32).filter_map(char::from_u32) {
        if c as u32 > 0x3100 && (c as u32) % 97 != 0 {
            continue;
        }
        let content = format!("{c}x{c}");
        let chat = accept_chat(&request(SERVED, vec![said("user", &content)]), SERVED).unwrap();
        let expected = matches!(
            c as u32,
            0x09..=0x0d
                | 0x20
                | 0x85
                | 0xa0
                | 0x1680
                | 0x2000..=0x200a
                | 0x2028
                | 0x2029
                | 0x202f
                | 0x205f
                | 0x3000
        );
        assert_eq!(chat.prompt == "x", expected, "{c:?}");
        assert_eq!(c.is_whitespace(), expected, "{c:?}");
    }
}

#[test]
fn empty_model_is_refused() {
    let expected = "model is required and must not be empty";
    assert_eq!(refusal(request("", vec![said("user", "hi")])), expected);
    assert_eq!(refusal(request(" \n", vec![])), expected);
}

#[test]
fn other_model_is_refused() {
    assert_eq!(
        refusal(request(" gpt ", vec![said("user", "hi")])),
        "unsupported model 'gpt'. This gateway is configured for 'served-model'"
    );
    // The case of the letters counts.
    assert_eq!(
        refusal(request("Served-Model", vec![])),
        "unsupported model 'Served-Model'. This gateway is configured for 'served-model'"
    );
}

#[test]
fn missing_messages_are_refused() {
    assert_eq!(refusal(request(SERVED, vec![])), "messages must contain at least one item");
}

#[test]
fn last_message_must_be_from_the_user() {
    assert_eq!(
        refusal(request(SERVED, vec![said("user", "hi"), said("assistant", "hello")])),
        "last message role must be 'user'"
    );
    assert_eq!(
        refusal(request(SERVED, vec![said("User", "hi")])),
        "last message role must be 'user'"
    );
}

#[test]
fn blank_prompt_is_refused() {
    assert_eq!(
        refusal(request(SERVED, vec![said("user", "hi"), said("user", " \r\n\t")])),
        "last message content must not be empty"
    );
}

#[test]
fn only_the_last_message_is_the_prompt() {
    let messages = vec![said("system", ""), said("user", "first"), said("user", "second")];
    let chat = accept_chat(&request(SERVED, messages), SERVED).unwrap();
    assert_eq!(chat.prompt, "second");
}

#[test]
fn search_asks_for_the_best_entry() {
    let search = embedded().search_request(95u8);
    assert_eq!(search.collection, "semantic-cache");
    assert_eq!(search.vector, vec![3, 1, 4]);
    assert_eq!(search.limit, 1);
    assert!(search.with_payload);
    assert_eq!(search.score_threshold, 95);
}

#[test]
fn failed_search_ends_the_request() {
    let error = embedded().resolve(Err("timeout".to_string())).unwrap_err();
    assert_eq!(error.kind, ErrorKind::Internal);
    assert_eq!(error.status(), 500);
    assert_eq!(error.message, "Qdrant search failed: timeout");
}

#[test]
fn stored_answer_comes_back_marked_as_cached() {
    let missed = match embedded().resolve(Ok(vec![])).unwrap() {
        SearchOutcome::Miss(missed) => missed,
        SearchOutcome::Hit(_) => panic!("nothing was found"),
    };
    let asked = missed.llm_request();
    assert_eq!(asked.model, SERVED);
    assert_eq!(asked.messages.len(), 1);
    assert_eq!(asked.messages[0].role, "user");
    assert_eq!(asked.messages[0].content, "Why?");
    assert_eq!(asked.max_tokens, 1024);

    let generated = missed.generated("Because.".to_string());
    let entry = generated.store_request();
    assert_eq!(entry.collection, "semantic-cache");
    assert_eq!(entry.vector, vec![3, 1, 4]);
    assert!(is_random_uuid(&entry.id), "{}", entry.id);
    let answered = generated.stored(Ok(())).unwrap();
    assert_eq!(answered.content, "Because.");
    assert!(!answered.cached);

    match embedded().resolve(Ok(vec![hit(entry.payload)])).unwrap() {
        SearchOutcome::Hit(answered) => {
            assert_eq!(answered.content, "[CACHED] Because.");
            assert!(answered.cached);
        }
        SearchOutcome::Miss(_) => panic!("the entry was found"),
    }
}

#[test]
fn cache_entry_holds_prompt_and_answer() {
    let payload = cache_entry("p".to_string(), "a".to_string());
    let json = serde_json::Value::from(payload);
    let mut expected = serde_json::Map::new();
    expected.insert("prompt".to_string(), serde_json::Value::from("p"));
    expected.insert("response".to_string(), serde_json::Value::from("a"));
    assert_eq!(json, serde_json::Value::Object(expected));
}

#[test]
fn hit_without_a_text_is_an_error() {
    let expected = "Qdrant hit did not contain a string response payload";
    assert_eq!(embedded().resolve(Ok(vec![hit(Payload::new())])).unwrap_err().message, expected);
    let mut number = Payload::new();
    number.insert("response", 7i64);
    assert_eq!(read_answer(&hit(number.clone())), None);
    let error = embedded().resolve(Ok(vec![hit(number)])).unwrap_err();
    assert_eq!(error.kind, ErrorKind::Internal);
    assert_eq!(error.message, expected);
}

#[test]
fn only_the_first_hit_is_read() {
    let first = hit(cache_entry("p".to_string(), "one".to_string()));
    let second = hit(cache_entry("p".to_string(), "two".to_string()));
    match embedded().resolve(Ok(vec![first, second])).unwrap() {
        SearchOutcome::Hit(answered) => assert_eq!(answered.content, "[CACHED] one"),
        SearchOutcome::Miss(_) => panic!("something was found"),
    }
}

#[test]
fn failed_store_ends_the_request() {
    let generated = GeneratedChat {
        prompt: "p".to_string(),
        answer: "a".to_string(),
        vector: vec![1u8],
    };
    let entry = generated.store_request_as("id".to_string());
    assert_eq!(entry.id, "id");
    let error = generated.stored(Err("full".to_string())).unwrap_err();
    assert_eq!(error.kind, ErrorKind::Internal);
    assert_eq!(error.message, "Qdrant upsert failed: full");
}

#[test]
fn identifiers_differ() {
    let generated =
        GeneratedChat { prompt: String::new(), answer: String::new(), vector: vec![0u8] };
    assert_ne!(generated.store_request().id, generated.store_request().id);
}

#[test]
fn response_has_one_assistant_choice() {
    let answered = AnsweredChat { content: "text".to_string(), cached: true };
    let response = answered.response_as("0123");
    assert_eq!(response.id, "chatcmpl-0123");
    assert_eq!(response.object, "chat.completion");
    assert_eq!(response.choices.len(), 1);
    assert_eq!(response.choices[0].message.role, "assistant");
    assert_eq!(response.choices[0].message.content, "text");

    let response = AnsweredChat { content: "text".to_string(), cached: false }.response();
    assert!(is_random_uuid(response.id.strip_prefix("chatcmpl-").unwrap()));
    assert_eq!(response.choices[0].message.content, "text");
}

fn reply(contents: &[&str]) -> LlmApiResponse {
    LlmApiResponse {
        choices: contents
            .iter()
            .map(|content| LlmChoice { message: LlmMessage { content: content.to_string() } })
            .collect(),
    }
}

#[test]
fn language_model_is_asked_as_a_user() {
    let asked = llm_request("prompt", "model");
    assert_eq!(asked.model, "model");
    assert_eq!(asked.messages.len(), 1);
    assert_eq!(asked.messages[0].role, "user");
    assert_eq!(asked.messages[0].content, "prompt");
    assert_eq!(asked.max_tokens, 1024);
}

#[test]
fn first_choice_is_the_answer() {
    let answer = llm_answer(200, "body", |text: &str| {
        assert_eq!(text, "body");
        Ok(reply(&["one", "two"]))
    });
    assert_eq!(answer.unwrap(), "one");
    assert_eq!(llm_answer(299, "body", |_: &str| Ok(reply(&["x"]))).unwrap(), "x");
}

#[test]
fn reply_without_choices_has_a_fixed_answer() {
    assert_eq!(parsed_answer("body", Ok(reply(&[]))).unwrap(), "No response generated.");
}

#[test]
fn unreadable_reply_is_reported() {
    let error = llm_answer(200, "body", |_: &str| Err("bad".to_string())).unwrap_err();
    assert_eq!(error.kind, ErrorKind::Internal);
    assert_eq!(
        error.message,
        "Failed to parse Groq response as chat completion JSON: bad; body: body"
    );
}

#[test]
fn failed_status_is_reported() {
    let failed = |status: u16| -> String {
        let outcome: Result<String, AppError> =
            llm_answer(status, "slow down", |_: &str| panic!("the reply must not be read"));
        let error = outcome.unwrap_err();
        assert_eq!(error.kind, ErrorKind::Internal);
        error.message
    };
    assert_eq!(failed(429), "Groq API returned HTTP 429 Too Many Requests: slow down");
    assert_eq!(failed(199), "Groq API returned HTTP 199 <unknown status code>: slow down");
    assert_eq!(failed(300), "Groq API returned HTTP 300 Multiple Choices: slow down");
    assert_eq!(failed(100), "Groq API returned HTTP 100 Continue: slow down");
    assert_eq!(failed(999), "Groq API returned HTTP 999 <unknown status code>: slow down");
}

#[test]
fn missed_chat_keeps_its_vector() {
    let missed = MissedChat {
        model: "m".to_string(),
        prompt: "p".to_string(),
        vector: vec![1u8, 2],
    };
    let generated = missed.generated("a".to_string());
    assert_eq!(generated.prompt, "p");
    assert_eq!(generated.answer, "a");
    assert_eq!(generated.vector, vec![1, 2]);
}

#[test]
fn refused_reply_is_not_parsed() {
    let error = llm_answer(503, "busy", |_: &str| panic!("only successful replies are read"));
    assert_eq!(
        error.unwrap_err().message,
        "Groq API returned HTTP 503 Service Unavailable: busy"
    );
}
