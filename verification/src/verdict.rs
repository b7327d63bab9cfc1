//! The JSON verdict of a request and the defaults of verifier settings left out of a request.
use vstd::prelude::*;
use crate::model::{BorderResult, Decision, JsonVerdict};
use crate::text::owned;

verus! {

/// The allowed clock skew, in seconds, when a request does not give one.
pub fn default_clock_skew() -> (r: i64)
    ensures
        r == 30,
{
    30
}

/// The largest allowed invocation age, in seconds, when a request does not give one.
pub fn default_invocation_age() -> (r: i64)
    ensures
        r == 300,
{
    300
}

impl JsonVerdict {
    /// The verdict on a request that cannot be read: a denial.
    pub fn malformed() -> (r: Self)
        ensures
            !r.allow,
            r.json@ == "{\"decision\":\"Deny\",\"reason\":\"MALFORMED_REQUEST\",\"receipt\":null}"@,
    {
        JsonVerdict {
            json: owned("{\"decision\":\"Deny\",\"reason\":\"MALFORMED_REQUEST\",\"receipt\":null}"),
            allow: false,
        }
    }

    /// The verdict on a decided request, given the decision's JSON text.
    pub fn for_result(result: &BorderResult, json: String) -> (r: Self)
        ensures
            r.allow == (result.decision == Decision::Allow),
            r.json == json,
    {
        JsonVerdict { allow: result.decision == Decision::Allow, json }
    }
}

} // verus!
