//! Chat completions: the messages of a conversation and the responses to
//! them.

use vstd::prelude::*;

pub mod stream;

verus! {

/// The response to a chat request.
#[derive(Debug, Clone)]
pub struct ChatCompletion {
    pub id: String,
    pub created: u32,
    pub choices: Vec<Choice>,
    pub usage: Usage,
}

impl ChatCompletion {
    /// The text of the response: the content of the first choice.
    pub fn to_string(&self) -> (text: String)
        requires
            self.choices@.len() > 0,
        ensures
            text@ == self.choices@[0].message.content@,
    {
        self.choices[0].message.content.clone()
    }
}

/// The tokens that a [`ChatCompletion`] has used.
#[derive(Debug, Clone)]
pub struct Usage {
    pub prompt_tokens: u32,
    pub completion_tokens: u32,
    pub total_tokens: u32,
}

/// One choice of a [`ChatCompletion`].
#[derive(Debug, Clone)]
pub struct Choice {
    pub index: u32,
    pub message: Message,
    pub finish_reason: String,
}

/// A message of a conversation.
#[derive(Debug, Clone)]
pub struct Message {
    pub role: String,
    pub content: String,
}

/// Who a [`Message`] is from.
pub enum Role {
    System,
    Assistant,
    User,
}

} // verus!
