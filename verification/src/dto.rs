//! The messages of the chat completion interface.

use vstd::prelude::*;

verus! {

/// A request for a chat completion.
#[derive(Debug)]
pub struct ChatRequest {
    pub model: String,
    pub messages: Vec<Message>,
}

/// One message of a conversation.
#[derive(Debug)]
pub struct Message {
    pub role: String,
    pub content: String,
}

/// The answer to a chat completion request.
#[derive(Debug)]
pub struct ChatResponse {
    pub id: String,
    pub object: String,
    pub choices: Vec<Choice>,
}

/// One alternative of an answer.
#[derive(Debug)]
pub struct Choice {
    pub message: ResponseMessage,
}

/// The message that an alternative consists of.
#[derive(Debug)]
pub struct ResponseMessage {
    pub role: String,
    pub content: String,
}

/// `request` has the given messages and names the given model, or `served_model` where none is
/// given.
pub open spec fn is_request_of(
    request: ChatRequest,
    model: Option<String>,
    messages: Vec<Message>,
    served_model: Seq<char>,
) -> bool {
    &&& request.model@ == (match model {
        Some(name) => name@,
        None => served_model,
    })
    &&& request.messages == messages
}

impl ChatRequest {
    /// The request with the given messages. One that names no model is for `served_model`.
    pub fn from_parts(model: Option<String>, messages: Vec<Message>, served_model: &str) -> (request:
        ChatRequest)
        ensures
            is_request_of(request, model, messages, served_model@),
            model matches Some(name) ==> request.model@ == name@,
            model is None ==> request.model@ == served_model@,
            request.messages@ == messages@,
    {
        let model = match model {
            Some(name) => name,
            None => served_model.to_string(),
        };
        ChatRequest { model, messages }
    }
}

/// What a `ChatResponse` says.
pub struct ChatResponseView {
    pub id: Seq<char>,
    pub object: Seq<char>,
    /// The role and the content of each alternative.
    pub choices: Seq<(Seq<char>, Seq<char>)>,
}

impl View for ChatResponse {
    type V = ChatResponseView;

    open spec fn view(&self) -> ChatResponseView {
        ChatResponseView {
            id: self.id@,
            object: self.object@,
            choices: self.choices@.map_values(
                |choice: Choice| (choice.message.role@, choice.message.content@),
            ),
        }
    }
}

/// A request has the messages it is made of, and the model that is named for it; the served model
/// stands in only where none is named, even if the named one is empty.
pub proof fn law_a_named_model_is_kept(
    name: String,
    messages: Vec<Message>,
    served_model: &str,
    named: ChatRequest,
    unnamed: ChatRequest,
)
    requires
        call_ensures(ChatRequest::from_parts, (Some(name), messages, served_model), named),
        call_ensures(ChatRequest::from_parts, (None, messages, served_model), unnamed),
    ensures
        named.model@ == name@,
        unnamed.model@ == served_model@,
        named.messages@ == messages@ && unnamed.messages@ == messages@,
{
}

/// What is said of a response by its view is all that it holds.
pub proof fn law_responses_are_viewed_whole(response: ChatResponse)
    ensures
        response@.id == response.id@,
        response@.object == response.object@,
        response@.choices.len() == response.choices@.len(),
        forall|i: int|
            0 <= i < response.choices@.len() ==> #[trigger] response@.choices[i] == (
                response.choices@[i].message.role@,
                response.choices@[i].message.content@,
            ),
{
}

/// Whether a request is one of the given parts is told by all of its model and its messages.
pub proof fn law_requests_are_told_by_their_parts(
    request: ChatRequest,
    name: String,
    messages: Vec<Message>,
    served_model: Seq<char>,
)
    ensures
        is_request_of(request, Some(name), messages, served_model) <==> request.model@ == name@
            && request.messages == messages,
        is_request_of(request, None, messages, served_model) <==> request.model@ == served_model
            && request.messages == messages,
{
}

} // verus!
