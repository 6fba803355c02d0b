use vstd::prelude::*;

verus! {

/// The joke landing page, carrying the joke fetched by the caller.
pub struct IndexTemplate {
    pub joke: String,
}

/// The refreshed joke fragment.
pub struct ShowTemplate {
    pub joke: String,
}

} // verus!
