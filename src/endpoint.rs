//! The reply to a request for the list of names.

use crate::records::ServiceError;
use vstd::prelude::*;

verus! {

/// What goes back on the wire: a status code, whether the body is JSON, and
/// the body.
pub struct Reply {
    pub status: u16,
    pub json: bool,
    pub body: String,
}

/// The reply for the outcome of reading and encoding the names: the encoded
/// list as JSON with status 200, or status 500 with an empty body, which
/// says nothing of what failed.
pub fn names_reply(outcome: Result<String, ServiceError>) -> (r: Reply)
    ensures
        outcome matches Ok(body) ==> r.status == 200 && r.json && r.body@ == body@,
        outcome is Err ==> r.status == 500 && !r.json && r.body@.len() == 0,
{
    match outcome {
        Ok(body) => Reply { status: 200, json: true, body },
        Err(_) => Reply { status: 500, json: false, body: String::new() },
    }
}

} // verus!
