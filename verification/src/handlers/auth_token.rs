//! What the token surface answers.

use crate::error::{message_of, Error};
use crate::handlers::{failure, is_failure, success, CODE_OK};
use crate::model::Resp;
use vstd::prelude::*;

verus! {

/// The answer to the making of a token: an empty success, or the words of
/// the error that kept the token from being stored.
pub fn post(outcome: Result<(), Error>) -> (r: Resp<String>)
    ensures
        outcome is Ok ==> r.code == Some(CODE_OK) && r.msg is None && r.data is None,
        outcome matches Err(e) ==> is_failure(r, message_of(e)),
{
    match outcome {
        Ok(_) => success(None),
        Err(e) => failure(&e),
    }
}

/// The answer to a question about the tokens: all of them.
pub fn get(tokens: Vec<String>) -> (r: Resp<Vec<String>>)
    ensures
        r.code == Some(CODE_OK),
        r.msg is None,
        r.data == Some(tokens),
{
    success(Some(tokens))
}

} // verus!
