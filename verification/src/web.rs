//! The rules of the web front-end: what a request has to carry, and how a
//! request that cannot be served is answered.

use crate::text::{is_blank, trim, trimmed};
use vstd::prelude::*;
use vstd::string::StringExecFns;

verus! {

/// The status of an answer to a request that lacks what it has to carry.
pub const BAD_REQUEST: u16 = 400;

/// The status of an answer to a request that the gateway did not serve.
pub const BAD_GATEWAY: u16 = 502;

/// Why the front-end does not serve a request.
#[derive(Debug, Clone, PartialEq, Eq)]
pub enum ApiError {
    /// The request lacks what it has to carry.
    BadRequest { error: String },
    /// The exchange with the gateway failed.
    BadGateway { error: String },
}

pub enum ApiErrorView {
    BadRequest { error: Seq<char> },
    BadGateway { error: Seq<char> },
}

impl View for ApiError {
    type V = ApiErrorView;

    open spec fn view(&self) -> ApiErrorView {
        match self {
            ApiError::BadRequest { error } => ApiErrorView::BadRequest { error: error@ },
            ApiError::BadGateway { error } => ApiErrorView::BadGateway { error: error@ },
        }
    }
}

impl ApiErrorView {
    /// The status that the answer carries.
    pub open spec fn status(self) -> u16 {
        match self {
            ApiErrorView::BadRequest { .. } => BAD_REQUEST,
            ApiErrorView::BadGateway { .. } => BAD_GATEWAY,
        }
    }
}

/// What a request gives for a field that it has to carry: the field's
/// text, trimmed, or the refusal that names the field where the text is
/// blank.
pub open spec fn required(name: Seq<char>, raw: Seq<char>) -> Result<Seq<char>, ApiErrorView> {
    if is_blank(raw) {
        Err(ApiErrorView::BadRequest { error: name + " is required"@ })
    } else {
        Ok(trimmed(raw))
    }
}

/// The view of a field or of the refusal in its place.
pub open spec fn field_view(field: Result<String, ApiError>) -> Result<Seq<char>, ApiErrorView> {
    match field {
        Ok(text) => Ok(text@),
        Err(error) => Err(error@),
    }
}

impl ApiError {
    /// The status that the answer carries.
    pub fn status(&self) -> (status: u16)
        ensures
            status == self@.status(),
    {
        match self {
            ApiError::BadRequest { .. } => BAD_REQUEST,
            ApiError::BadGateway { .. } => BAD_GATEWAY,
        }
    }
}

/// The text of the field `name`, which the request has to carry.
pub fn required_field(name: &str, raw: &str) -> (field: Result<String, ApiError>)
    ensures
        field_view(field) == required(name@, raw@),
{
    let text = trim(raw);
    if text.is_empty() {
        Err(ApiError::BadRequest { error: name.to_owned().concat(" is required") })
    } else {
        Ok(text.to_owned())
    }
}

/// The pairing code of a pairing request.
pub fn pairing_code_of(raw: &str) -> (code: Result<String, ApiError>)
    ensures
        field_view(code) == required("pairing_code"@, raw@),
{
    required_field("pairing_code", raw)
}

/// The message of a chat request.
pub fn message_of(raw: &str) -> (message: Result<String, ApiError>)
    ensures
        field_view(message) == required("message"@, raw@),
{
    required_field("message", raw)
}

/// The refusal of a pairing request whose pairing failed for `cause`.
pub fn pairing_failed(cause: &str) -> (error: ApiError)
    ensures
        error@ == (ApiErrorView::BadGateway { error: "Pairing failed: "@ + cause@ }),
{
    ApiError::BadGateway { error: "Pairing failed: ".to_owned().concat(cause) }
}

/// The refusal of a chat request whose message was not delivered for
/// `cause`.
pub fn chat_failed(cause: &str) -> (error: ApiError)
    ensures
        error@ == (ApiErrorView::BadGateway { error: "Gateway request failed: "@ + cause@ }),
{
    ApiError::BadGateway { error: "Gateway request failed: ".to_owned().concat(cause) }
}

} // verus!
