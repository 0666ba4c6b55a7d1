use vstd::prelude::*;
use async_openai::error::OpenAIError;
use async_openai::types::{
    ChatCompletionRequestMessage, CreateChatCompletionRequest, CreateChatCompletionRequestArgs,
};
use crate::turn::{Role, Turn, TurnView};

verus! {

#[verifier::external_type_specification]
#[verifier::external_body]
pub struct ExChatCompletionRequestMessage(ChatCompletionRequestMessage);

#[verifier::external_type_specification]
#[verifier::external_body]
pub struct ExCreateChatCompletionRequest(CreateChatCompletionRequest);

#[verifier::external_type_specification]
#[verifier::external_body]
pub struct ExOpenAIError(OpenAIError);

/// The provider's system message with the given text.
pub uninterp spec fn system_message_of(text: Seq<char>) -> ChatCompletionRequestMessage;

/// The provider's user message with the given text.
pub uninterp spec fn user_message_of(text: Seq<char>) -> ChatCompletionRequestMessage;

/// The provider's assistant message with the given text.
pub uninterp spec fn assistant_message_of(text: Seq<char>) -> ChatCompletionRequestMessage;

/// The request for the given model that carries the given messages.
pub uninterp spec fn request_of(
    model: Seq<char>,
    messages: Seq<ChatCompletionRequestMessage>,
) -> CreateChatCompletionRequest;

/// Relies on From<&str> for ChatCompletionRequestSystemMessage: a system
/// message whose content is the text.
#[verifier::external_body]
fn system_message(text: &str) -> (r: ChatCompletionRequestMessage)
    ensures
        r == system_message_of(text@),
{
    ChatCompletionRequestMessage::System(text.into())
}

/// Relies on From<&str> for ChatCompletionRequestUserMessage: a user message
/// whose content is the text.
#[verifier::external_body]
fn user_message(text: &str) -> (r: ChatCompletionRequestMessage)
    ensures
        r == user_message_of(text@),
{
    ChatCompletionRequestMessage::User(text.into())
}

/// Relies on From<&str> for ChatCompletionRequestAssistantMessage: an
/// assistant message whose content is the text.
#[verifier::external_body]
fn assistant_message(text: &str) -> (r: ChatCompletionRequestMessage)
    ensures
        r == assistant_message_of(text@),
{
    ChatCompletionRequestMessage::Assistant(text.into())
}

/// Relies on CreateChatCompletionRequestArgs (its setters `model` and
/// `messages`, then `build`): the request for that model with those messages
/// and every other field left at its default. The builder is derived with a
/// struct-wide default, so `build` fills each unset field from it and never
/// fails.
#[verifier::external_body]
fn build_request(model: &str, messages: Vec<ChatCompletionRequestMessage>) -> (r: Result<
    CreateChatCompletionRequest,
    OpenAIError,
>)
    ensures
        r is Ok,
        r->Ok_0 == request_of(model@, messages@),
{
    CreateChatCompletionRequestArgs::default().model(model).messages(messages).build()
}

/// The provider message that carries a turn.
pub open spec fn message_of(t: TurnView) -> ChatCompletionRequestMessage {
    match t.0 {
        Role::System => system_message_of(t.1),
        Role::User => user_message_of(t.1),
        Role::Assistant => assistant_message_of(t.1),
    }
}

/// The provider messages that carry a sequence of turns, in order.
pub open spec fn messages_of(turns: Seq<TurnView>) -> Seq<ChatCompletionRequestMessage> {
    turns.map_values(|t: TurnView| message_of(t))
}

/// The provider message for one turn.
pub fn to_message(turn: &Turn) -> (r: ChatCompletionRequestMessage)
    ensures
        r == message_of(turn@),
{
    match turn {
        Turn::System(t) => system_message(t.as_str()),
        Turn::User(t) => user_message(t.as_str()),
        Turn::Assistant(t) => assistant_message(t.as_str()),
    }
}

/// The request for `model` that carries the turns in order.
pub fn request_for(model: &str, turns: &Vec<Turn>) -> (r: CreateChatCompletionRequest)
    ensures
        r == request_of(model@, messages_of(turns@.map_values(|t: Turn| t@))),
{
    let mut messages: Vec<ChatCompletionRequestMessage> = Vec::new();
    let mut i: usize = 0;
    while i < turns.len()
        invariant
            i <= turns@.len(),
            messages@ =~= messages_of(turns@.map_values(|t: Turn| t@)).subrange(0, i as int),
        decreases turns@.len() - i,
    {
        let m = to_message(&turns[i]);
        messages.push(m);
        i = i + 1;
    }
    assert(messages_of(turns@.map_values(|t: Turn| t@)).subrange(0, i as int) =~= messages_of(
        turns@.map_values(|t: Turn| t@),
    ));
    build_request(model, messages).unwrap()
}

} // verus!
