//! The audio file endpoint.
use vstd::prelude::*;
use crate::api::{INTERNAL_SERVER_ERROR, NOT_FOUND};

verus! {

/// The message of a failed request: `Something went wrong: ` and the error.
pub open spec fn failure_message(err: Seq<char>) -> Seq<char> {
    "Something went wrong: "@ + err
}

/// A failure message is a fixed preamble followed by the whole error.
pub proof fn law_failure_message(err: Seq<char>)
    ensures
        failure_message(err).take(22) == "Something went wrong: "@,
        failure_message(err).skip(22) == err,
{
    reveal_strlit("Something went wrong: ");
    assert(failure_message(err).take(22) =~= "Something went wrong: "@);
    assert(failure_message(err).skip(22) =~= err);
}

/// The answer where the song's row is not found: status 404.
pub fn song_not_found(err: &str) -> (r: (u16, String))
    ensures
        r.0 == NOT_FOUND,
        r.1@ == failure_message(err@),
{
    let mut message = String::from_str("Something went wrong: ");
    message.append(err);
    (NOT_FOUND, message)
}

/// The answer where the file cannot be served: status 500.
pub fn file_not_served(err: &str) -> (r: (u16, String))
    ensures
        r.0 == INTERNAL_SERVER_ERROR,
        r.1@ == failure_message(err@),
{
    let mut message = String::from_str("Something went wrong: ");
    message.append(err);
    (INTERNAL_SERVER_ERROR, message)
}

} // verus!
