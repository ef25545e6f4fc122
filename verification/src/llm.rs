//! Asking the language model behind the gateway and reading its reply.

use vstd::prelude::*;

use crate::constants::{EMPTY_GENERATION, MAX_TOKENS};
use crate::dto::Message;
use crate::error::{internal, AppError, AppErrorView, ErrorKind};
use crate::text::joined;

verus! {

/// Where chat completions are generated.
pub const COMPLETIONS_URL: &'static str = "https://api.groq.com/openai/v1/chat/completions";

/// What is asked of the language model.
#[derive(Debug)]
pub struct LlmRequest {
    pub model: String,
    pub messages: Vec<Message>,
    pub max_tokens: u64,
}

/// The part of the language model's reply that is read.
#[derive(Debug)]
pub struct LlmApiResponse {
    pub choices: Vec<LlmChoice>,
}

/// One alternative of the reply.
#[derive(Debug)]
pub struct LlmChoice {
    pub message: LlmMessage,
}

/// The message that an alternative consists of.
#[derive(Debug)]
pub struct LlmMessage {
    pub content: String,
}

/// The question with which a prompt is put to `model`: a single message from the user.
pub fn llm_request(prompt: &str, model: &str) -> (request: LlmRequest)
    ensures
        request.model@ == model@,
        request.messages@.len() == 1,
        request.messages@[0].role@ == "user"@,
        request.messages@[0].content@ == prompt@,
        request.max_tokens == MAX_TOKENS,
{
    let mut messages: Vec<Message> = Vec::new();
    messages.push(Message { role: "user".to_string(), content: prompt.to_string() });
    LlmRequest { model: model.to_string(), messages, max_tokens: MAX_TOKENS }
}

/// An HTTP status as text: its code and the reason that goes with it.
pub uninterp spec fn status_display(status: u16) -> Seq<char>;

/// `StatusCode::from_u16`, which takes the codes of three digits, and the status as text.
#[verifier::external_body]
fn status_text(status: u16) -> (text: String)
    requires
        100 <= status <= 999,
    ensures
        text@ == status_display(status),
{
    reqwest::StatusCode::from_u16(status).map(|code| code.to_string()).unwrap_or_default()
}

/// The statuses of a request that succeeded.
pub open spec fn is_success(status: u16) -> bool {
    200 <= status < 300
}

/// The answer in a reply that was read: the first alternative, or a remark that there is none.
pub open spec fn first_answer(response: LlmApiResponse) -> Seq<char> {
    if response.choices@.len() > 0 {
        response.choices@[0].message.content@
    } else {
        EMPTY_GENERATION@
    }
}

/// The answer, or the error that ends the request, once the text of a successful reply was read.
pub open spec fn answer_in(
    response_text: Seq<char>,
    parsed: Result<LlmApiResponse, String>,
) -> Result<Seq<char>, AppErrorView> {
    match parsed {
        Ok(response) => Ok(first_answer(response)),
        Err(reason) => Err(
            internal(
                "Failed to parse Groq response as chat completion JSON: "@ + reason@ + "; body: "@
                    + response_text,
            ),
        ),
    }
}

/// An answer or an error, taken by its view.
pub open spec fn answer_outcome(outcome: Result<String, AppError>) -> Result<
    Seq<char>,
    AppErrorView,
> {
    match outcome {
        Ok(answer) => Ok(answer@),
        Err(error) => Err(error@),
    }
}

/// Takes the answer out of a successful reply whose text was read as `parsed`.
pub fn parsed_answer(response_text: &str, parsed: Result<LlmApiResponse, String>) -> (outcome:
    Result<String, AppError>)
    ensures
        answer_outcome(outcome) == answer_in(response_text@, parsed),
        parsed is Ok <==> outcome is Ok,
        parsed matches Ok(response) ==> response.choices@.len() > 0 ==> outcome->Ok_0@
            == response.choices@[0].message.content@,
        parsed matches Ok(response) ==> response.choices@.len() == 0 ==> outcome->Ok_0@
            == "No response generated."@,
        parsed matches Err(reason) ==> outcome->Err_0.kind == ErrorKind::Internal
            && outcome->Err_0.message@
            == "Failed to parse Groq response as chat completion JSON: "@ + reason@ + "; body: "@
            + response_text@,
{
    match parsed {
        Ok(response) => {
            if response.choices.len() > 0 {
                Ok(response.choices[0].message.content.clone())
            } else {
                Ok(EMPTY_GENERATION.to_string())
            }
        },
        Err(reason) => {
            let mut message = joined(
                "Failed to parse Groq response as chat completion JSON: ",
                &reason,
            );
            message.append("; body: ");
            message.append(response_text);
            Err(AppError::internal(message))
        },
    }
}

/// Takes the answer out of a reply; `parse` reads the text of a successful one and of no other.
pub fn llm_answer<F: FnOnce(&str) -> Result<LlmApiResponse, String>>(
    status: u16,
    response_text: &str,
    parse: F,
) -> (outcome: Result<String, AppError>)
    requires
        100 <= status <= 999,
        is_success(status) ==> call_requires(parse, (response_text,)),
    ensures
        !is_success(status) ==> answer_outcome(outcome) == Err::<Seq<char>, AppErrorView>(
            internal(
                "Groq API returned HTTP "@ + status_display(status) + ": "@ + response_text@,
            ),
        ),
        is_success(status) ==> exists|parsed: Result<LlmApiResponse, String>| #[trigger]
            call_ensures(parse, (response_text,), parsed) && answer_outcome(outcome) == answer_in(
                response_text@,
                parsed,
            ),
        !(200 <= status <= 299) ==> (outcome matches Err(error) && error.kind
            == ErrorKind::Internal && error.message@ == "Groq API returned HTTP "@
            + status_display(status) + ": "@ + response_text@),
        200 <= status <= 299 ==> exists|parsed: Result<LlmApiResponse, String>|
            {
                &&& #[trigger] call_ensures(parse, (response_text,), parsed)
                &&& parsed is Ok <==> outcome is Ok
                &&& parsed matches Ok(response) ==> response.choices@.len() > 0 ==> outcome->Ok_0@
                    == response.choices@[0].message.content@
                &&& parsed matches Ok(response) ==> response.choices@.len() == 0
                    ==> outcome->Ok_0@ == "No response generated."@
                &&& parsed matches Err(reason) ==> outcome->Err_0.kind == ErrorKind::Internal
                    && outcome->Err_0.message@
                    == "Failed to parse Groq response as chat completion JSON: "@ + reason@
                    + "; body: "@ + response_text@
            },
{
    if status < 200 || status >= 300 {
        let mut message = joined("Groq API returned HTTP ", &status_text(status));
        message.append(": ");
        message.append(response_text);
        return Err(AppError::internal(message));
    }
    let parsed = parse(response_text);
    parsed_answer(response_text, parsed)
}

/// The answer in a reply is the whole content of its first choice, character for character and
/// whatever the other choices say; a reply without a choice has a fixed answer.
pub proof fn law_the_answer_is_the_whole_first_choice(
    response_text: &str,
    reply: LlmApiResponse,
    outcome: Result<String, AppError>,
)
    requires
        call_ensures(parsed_answer, (response_text, Ok(reply)), outcome),
    ensures
        outcome is Ok,
        reply.choices@.len() > 0 ==> {
            let content = reply.choices@[0].message.content@;
            let answer = outcome->Ok_0@;
            &&& answer.len() == content.len()
            &&& forall|i: int| 0 <= i < content.len() ==> #[trigger] answer[i] == content[i]
        },
        reply.choices@.len() == 0 ==> outcome->Ok_0@ == "No response generated."@,
{
}

/// A reply that cannot be read is an error of the gateway, which tells the reason and the whole
/// text of the reply.
pub proof fn law_an_unreadable_reply_is_told_whole(
    response_text: &str,
    reason: String,
    outcome: Result<String, AppError>,
)
    requires
        call_ensures(parsed_answer, (response_text, Err(reason)), outcome),
    ensures
        outcome matches Err(error) && error.kind == ErrorKind::Internal && error.message@
            == "Failed to parse Groq response as chat completion JSON: "@ + reason@ + "; body: "@
            + response_text@,
{
}

/// A reply gives an answer only if its status is one of success, and then the whole content of
/// the first choice that was read; any other status is an error that tells the status and the
/// whole text of the reply.
pub proof fn law_only_successful_replies_are_answers<
    F: FnOnce(&str) -> Result<LlmApiResponse, String>,
>(status: u16, response_text: &str, parse: F, outcome: Result<String, AppError>)
    requires
        call_ensures(llm_answer::<F>, (status, response_text, parse), outcome),
    ensures
        outcome is Ok ==> 200 <= status <= 299,
        !(200 <= status <= 299) ==> (outcome matches Err(error) && error.kind
            == ErrorKind::Internal && error.message@ == "Groq API returned HTTP "@
            + status_display(status) + ": "@ + response_text@),
        200 <= status <= 299 ==> exists|parsed: Result<LlmApiResponse, String>|
            {
                &&& #[trigger] call_ensures(parse, (response_text,), parsed)
                &&& parsed is Ok <==> outcome is Ok
                &&& parsed matches Ok(reply) ==> reply.choices@.len() > 0 ==> outcome->Ok_0@
                    == reply.choices@[0].message.content@
                &&& parsed matches Ok(reply) ==> reply.choices@.len() == 0 ==> outcome->Ok_0@
                    == "No response generated."@
                &&& parsed matches Err(reason) ==> outcome->Err_0.kind == ErrorKind::Internal
                    && outcome->Err_0.message@
                    == "Failed to parse Groq response as chat completion JSON: "@ + reason@
                    + "; body: "@ + response_text@
            },
{
}

/// The language model is asked for the whole prompt as the only message, from the user, for the
/// model that was requested and for at most 1024 tokens.
pub proof fn law_the_prompt_is_asked_whole(prompt: &str, model: &str, request: LlmRequest)
    requires
        call_ensures(llm_request, (prompt, model), request),
    ensures
        request.messages@.len() == 1,
        request.messages@[0].content@ == prompt@,
        request.messages@[0].role@ == "user"@,
        request.model@ == model@,
        request.max_tokens == 1024,
{
}

/// What is in a reply that was read is the whole content of its first choice, and a reply with
/// another first choice has another answer.
pub proof fn law_replies_are_told_apart_by_their_first_choice(
    response_text: Seq<char>,
    reply: LlmApiResponse,
    other: LlmApiResponse,
    reason: String,
)
    requires
        reply.choices@.len() > 0,
        other.choices@.len() > 0,
    ensures
        answer_in(response_text, Ok(reply)) == Ok::<Seq<char>, AppErrorView>(
            reply.choices@[0].message.content@,
        ),
        answer_in(response_text, Ok(reply)) == answer_in(response_text, Ok(other))
            <==> reply.choices@[0].message.content@ == other.choices@[0].message.content@,
        answer_in(response_text, Err(reason)) matches Err(error) && error.kind
            == ErrorKind::Internal && error.message
            == "Failed to parse Groq response as chat completion JSON: "@ + reason@ + "; body: "@
            + response_text,
{
}

/// An answer or an error is viewed whole.
pub proof fn law_answers_are_viewed_whole(answer: String, error: AppError)
    ensures
        answer_outcome(Ok(answer)) == Ok::<Seq<char>, AppErrorView>(answer@),
        answer_outcome(Err(error)) matches Err(view) && view.kind == error.kind && view.message
            == error.message@,
{
}

/// The statuses of success are the two hundreds.
pub proof fn law_the_two_hundreds_are_success(status: u16)
    ensures
        is_success(status) <==> status / 100 == 2,
{
}

} // verus!
