//! What the status surface answers: the values of its responses, ready to
//! be sent.

use crate::error::{message_of, Error};
use crate::model::{EVersion, REasytier, RInfo, RRepair, Resp};
use crate::platform::Platform;
use vstd::prelude::*;
use vstd::string::*;

pub mod auth_token;

verus! {

/// The code of a response that carries what was asked for.
pub const CODE_OK: i64 = 200;

/// The code of a response that carries an error.
pub const CODE_FAILED: i64 = 500;

/// Whether a response is the envelope of a failure with the given words:
/// the failure code, the words as its message, and no data.
pub open spec fn is_failure<T>(response: Resp<T>, words: Seq<char>) -> bool {
    &&& response.code == Some(CODE_FAILED)
    &&& response.msg matches Some(msg) && msg@ == words
    &&& response.data is None
}

/// The envelope of a failure: the failure code, the words of the error, no
/// data.
pub fn failure<T>(error: &Error) -> (r: Resp<T>)
    ensures
        is_failure(r, message_of(*error)),
{
    Resp { code: Some(CODE_FAILED), msg: Some(error.message()), data: None }
}

/// The envelope of a success: the success code, no message, the data.
pub fn success<T>(data: Option<T>) -> (r: Resp<T>)
    ensures
        r.code == Some(CODE_OK),
        r.msg is None,
        r.data == data,
{
    Resp { code: Some(CODE_OK), msg: None, data }
}

/// The answer to a question about the installation: the version of the
/// service, the host, and the one installation with its versions where
/// they could be read, or none where they could not.
pub fn info(service_version: &str, platform: &Platform, current: Result<EVersion, Error>) -> (r:
    Resp<RInfo>)
    ensures
        r.code == Some(CODE_OK),
        r.msg is None,
        r.data matches Some(told) && {
            &&& told.version@ == service_version@
            &&& told.os@ == platform.os@
            &&& told.arch@ == platform.arch@
            &&& current is Err ==> told.list@.len() == 0
            &&& current matches Ok(version) ==> {
                &&& told.list@.len() == 1
                &&& told.list@[0].instance_id is None
                &&& told.list@[0].instance_name is None
                &&& !told.list@[0].running
                &&& told.list@[0].version == version
            }
        },
{
    let mut list: Vec<REasytier> = Vec::new();
    match current {
        Ok(version) => {
            list.push(REasytier { instance_id: None, instance_name: None, running: false, version });
        },
        Err(_) => {},
    }
    success(
        Some(
            RInfo {
                version: String::from_str(service_version),
                os: platform.os.clone(),
                arch: platform.arch.clone(),
                list,
            },
        ),
    )
}

/// The answer to a repair: the versions found after it, or the words of
/// the error that ended it.
pub fn repair(outcome: Result<EVersion, Error>) -> (r: Resp<RRepair>)
    ensures
        outcome matches Ok(version) ==> {
            &&& r.code == Some(CODE_OK)
            &&& r.msg is None
            &&& r.data matches Some(told) && told.version == version
        },
        outcome matches Err(e) ==> is_failure(r, message_of(e)),
{
    match outcome {
        Ok(version) => success(Some(RRepair { version })),
        Err(e) => failure(&e),
    }
}

} // verus!
