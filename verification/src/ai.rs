//! Request and response shapes for the pass-through text-generation
//! endpoint. The endpoint itself performs network I/O and no validation, so
//! it lives with the HTTP glue outside this library; only the payload shapes
//! are defined here.

use vstd::prelude::*;

verus! {

/// A prompt forwarded verbatim to the text-generation endpoint.
pub struct AIRequest {
    pub prompt: String,
}

/// The free-form text the endpoint returned.
pub struct AIResponse {
    pub result: String,
}

/// The candidate text fields of an upstream response, as plain values: the
/// string found at each of the four places a model family may put its
/// output, and the serialized body as a fallback.
pub struct AICandidates {
    pub result: Option<String>,
    pub response: Option<String>,
    pub first_choice_text: Option<String>,
    pub result_response: Option<String>,
    pub raw: String,
}

/// The text selected from an upstream response: the first present
/// candidate, in the fixed order `result`, `response`, first choice text,
/// `result.response`, else the serialized body.
pub open spec fn spec_selected(c: AICandidates) -> Seq<char> {
    if c.result is Some {
        c.result->0@
    } else if c.response is Some {
        c.response->0@
    } else if c.first_choice_text is Some {
        c.first_choice_text->0@
    } else if c.result_response is Some {
        c.result_response->0@
    } else {
        c.raw@
    }
}

impl AICandidates {
    /// The generated text among the candidates, by the fixed order.
    pub fn select(self) -> (r: String)
        ensures
            r@ == spec_selected(self),
    {
        match self.result {
            Some(s) => s,
            None => match self.response {
                Some(s) => s,
                None => match self.first_choice_text {
                    Some(s) => s,
                    None => match self.result_response {
                        Some(s) => s,
                        None => self.raw,
                    },
                },
            },
        }
    }
}

} // verus!
