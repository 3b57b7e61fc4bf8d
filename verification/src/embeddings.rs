//! Embeddings: the arguments of a request.

use vstd::prelude::*;

verus! {

/// The arguments of an embeddings request.
#[derive(Debug, Clone)]
pub struct EmbeddingsArguments {
    /// The model to use.
    pub model: String,
    /// The text to embed.
    pub input: String,
    /// An identifier of the end user, if the caller gives one.
    pub user: Option<String>,
}

impl EmbeddingsArguments {
    /// The arguments for embedding `input` with `model`, for no named user.
    pub fn new(model: &str, input: String) -> (args: EmbeddingsArguments)
        ensures
            args.model@ == model@,
            args.input == input,
            args.user is None,
    {
        EmbeddingsArguments { model: model.to_owned(), input, user: None }
    }
}

/// The tokens that an embeddings response has used.
#[derive(Debug, Clone)]
pub struct Usage {
    pub prompt_tokens: u32,
    pub total_tokens: u32,
}

} // verus!
