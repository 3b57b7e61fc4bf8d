//! Models: what the API offers.

use vstd::prelude::*;

verus! {

/// A model that the API offers.
#[derive(Debug)]
pub struct Model {
    /// The identifier to name the model by in requests.
    pub id: String,
    /// The organization that owns the model.
    pub owned_by: String,
    /// When the model was created, in seconds since the Unix epoch.
    pub created: u64,
}

} // verus!
