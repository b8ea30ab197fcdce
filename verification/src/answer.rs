//! Refusals: a status and a message, as JSON or as plain text.

use vstd::prelude::*;

verus! {

pub const BAD_REQUEST: u16 = 400;

pub const UNAUTHORIZED: u16 = 401;

pub const NOT_FOUND: u16 = 404;

pub const PAYLOAD_TOO_LARGE: u16 = 413;

pub const INTERNAL_SERVER_ERROR: u16 = 500;

pub const BAD_GATEWAY: u16 = 502;

pub const SERVICE_UNAVAILABLE: u16 = 503;

/// An answer that refuses a request.
#[derive(Debug, PartialEq, Eq)]
pub struct Refusal {
    pub status: u16,
    /// The message stands in the member `error` of a JSON object; otherwise it is all there is.
    pub json: bool,
    pub message: String,
}

#[verifier::ext_equal]
pub ghost struct RefusalView {
    pub status: u16,
    pub json: bool,
    pub message: Seq<char>,
}

impl View for Refusal {
    type V = RefusalView;

    open spec fn view(&self) -> RefusalView {
        RefusalView { status: self.status, json: self.json, message: self.message@ }
    }
}

/// A refusal in JSON.
pub open spec fn json_refusal(status: u16, message: Seq<char>) -> RefusalView {
    RefusalView { status, json: true, message }
}

/// A refusal in plain text.
pub open spec fn plain_refusal(status: u16, message: Seq<char>) -> RefusalView {
    RefusalView { status, json: false, message }
}

/// A refusal in JSON.
pub fn json_error(status: u16, message: String) -> (refusal: Refusal)
    ensures
        refusal@ == json_refusal(status, message@),
{
    Refusal { status, json: true, message }
}

/// A refusal in plain text.
pub fn plain_error(status: u16, message: String) -> (refusal: Refusal)
    ensures
        refusal@ == plain_refusal(status, message@),
{
    Refusal { status, json: false, message }
}

} // verus!
