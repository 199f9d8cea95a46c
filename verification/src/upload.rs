//! The request that offers a snapshot to a remote collector, and what its
//! answer means.

use crate::decimal::{decimal, push_decimal};
use vstd::prelude::*;
use vstd::string::StringExecFns;

verus! {

/// The header that carries the collector's API key.
pub const API_KEY_HEADER: &'static str = "X-API-KEY";

/// Why an upload did not succeed.
#[derive(Debug, Clone, PartialEq, Eq)]
pub enum UploadError {
    /// The collector answered with a status outside 200..=299.
    Status { code: u16, body: String },
    /// The request never got an answer.
    Transport { reason: String },
}

/// The address a snapshot for `timestamp` is posted to.
pub open spec fn snapshot_endpoint(base_url: Seq<char>, timestamp: nat) -> Seq<char> {
    base_url + "/v1/rgs/snapshot/"@ + decimal(timestamp)
}

/// Whether an HTTP status reports success.
pub open spec fn is_success(status: u16) -> bool {
    200 <= status <= 299
}

/// What is reported of a refusal: the status, a colon and a blank, the body.
pub open spec fn status_message(code: u16, body: Seq<char>) -> Seq<char> {
    decimal(code as nat) + ": "@ + body
}

impl UploadError {
    /// The text that describes the failure.
    pub open spec fn message(self) -> Seq<char> {
        match self {
            UploadError::Status { code, body } => status_message(code, body@),
            UploadError::Transport { reason } => reason@,
        }
    }

    /// The text that describes the failure.
    pub fn describe(&self) -> (text: String)
        ensures
            text@ == self.message(),
    {
        match self {
            UploadError::Status { code, body } => {
                let mut text = String::new();
                push_decimal(&mut text, *code as u64);
                text.append(": ");
                text.append(body.as_str());
                assert(text@ =~= status_message(*code, body@));
                text
            },
            UploadError::Transport { reason } => reason.clone(),
        }
    }
}

/// The address a snapshot for `timestamp` is posted to.
pub fn snapshot_url(base_url: &str, timestamp: u64) -> (url: String)
    ensures
        url@ == snapshot_endpoint(base_url@, timestamp as nat),
{
    let mut url = String::from_str(base_url);
    url.append("/v1/rgs/snapshot/");
    push_decimal(&mut url, timestamp);
    url
}

/// What the collector's answer means for the upload: success for a status in
/// 200..=299, and otherwise a failure that carries the status and the body.
pub fn response_outcome(status: u16, body: String) -> (outcome: Result<(), UploadError>)
    ensures
        is_success(status) ==> outcome is Ok,
        !is_success(status) ==> outcome == Err::<(), UploadError>(
            UploadError::Status { code: status, body },
        ),
{
    if 200 <= status && status <= 299 {
        Ok(())
    } else {
        Err(UploadError::Status { code: status, body })
    }
}

} // verus!
