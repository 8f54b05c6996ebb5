//! Values that the public transport answers with.
use vstd::prelude::*;

verus! {

/// Body of the health answer.
#[derive(Debug)]
pub struct StatusResponse {
    pub status: String,
}

impl StatusResponse {
    /// The answer of a gateway that is up.
    pub fn ok() -> (r: StatusResponse)
        ensures
            r.status@ == "ok"@,
    {
        StatusResponse { status: "ok".to_owned() }
    }
}

} // verus!
