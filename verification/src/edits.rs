//! Edits: the responses to edit requests.

use vstd::prelude::*;

verus! {

/// The response to an edit request.
#[derive(Debug, Clone)]
pub struct EditResponse {
    pub created: u32,
    pub choices: Vec<Choice>,
    pub usage: Usage,
}

impl EditResponse {
    /// The edited text: the text of the first choice.
    pub fn to_string(&self) -> (text: String)
        requires
            self.choices@.len() > 0,
        ensures
            text@ == self.choices@[0].text@,
    {
        self.choices[0].text.clone()
    }
}

/// One choice of an [`EditResponse`].
#[derive(Debug, Clone)]
pub struct Choice {
    pub text: String,
    pub index: u32,
}

/// The tokens that an [`EditResponse`] has used.
#[derive(Debug, Clone)]
pub struct Usage {
    pub prompt_tokens: u32,
    pub completion_tokens: u32,
    pub total_tokens: u32,
}

} // verus!
