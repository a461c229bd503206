//! The response that the bar sends back over its IPC socket.
use vstd::prelude::*;
use vstd::string::*;

verus! {

/// A response to an event
#[derive(Debug, Clone, PartialEq, Eq)]
pub enum EventResponse {
    /// The event executed normally
    Success,
    /// An error occurred
    Failure(String),
}

/// The text by which a response is shown to the user.
pub open spec fn response_text(r: EventResponse) -> Seq<char> {
    match r {
        EventResponse::Success => seq!['S', 'U', 'C', 'C', 'E', 'S', 'S'],
        EventResponse::Failure(e) => seq!['F', 'A', 'I', 'L', 'U', 'R', 'E', ':', ' '] + e@,
    }
}

impl EventResponse {
    /// The text by which the response is shown: `SUCCESS`, or `FAILURE: `
    /// followed by the reason.
    pub fn to_text(&self) -> (r: String)
        ensures
            r@ == response_text(*self),
    {
        match self {
            EventResponse::Success => {
                proof {
                    reveal_strlit("SUCCESS");
                }
                String::from_str("SUCCESS")
            },
            EventResponse::Failure(e) => {
                proof {
                    reveal_strlit("FAILURE: ");
                }
                let mut r = String::from_str("FAILURE: ");
                r.append(e.as_str());
                r
            },
        }
    }
}

} // verus!
