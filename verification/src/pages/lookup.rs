use vstd::prelude::*;

use crate::guard::Decision;

verus! {

/// The name-claim landing page; it carries no data.
pub struct IndexTemplate;

/// A claim request: the name to claim.
pub struct Request {
    pub name: String,
}

/// The page answering a claim, with its message and text color.
pub struct ResponseTemplate {
    pub message: &'static str,
    pub text_color: &'static str,
}

impl ResponseTemplate {
    /// The page content for a claim decision: a rejected name asks for
    /// another in red, an accepted one cheers in blue.
    pub fn for_decision(decision: &Decision) -> (t: Self)
        ensures
            *decision == Decision::Accepted ==> t.message@ == "Noice!"@ && t.text_color@
                == "text-blue-800"@,
            *decision == Decision::Rejected ==> t.message@ == "Another name plz!"@ && t.text_color@
                == "text-red-800"@,
    {
        match decision {
            Decision::Accepted => ResponseTemplate {
                message: "Noice!",
                text_color: "text-blue-800",
            },
            Decision::Rejected => ResponseTemplate {
                message: "Another name plz!",
                text_color: "text-red-800",
            },
        }
    }
}

} // verus!
