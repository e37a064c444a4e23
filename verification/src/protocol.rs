//! What the gateway client and its driver say to each other: the requests
//! that the client asks for, the reports on what came back, and how an
//! exchange ends.

use vstd::prelude::*;

verus! {

/// The status by which the gateway rejects a token.
pub const UNAUTHORIZED: u16 = 401;

/// Whether `status` is within 200-299.
pub open spec fn status_is_success(status: u16) -> bool {
    200 <= status < 300
}

pub fn is_success(status: u16) -> (success: bool)
    ensures
        success == status_is_success(status),
{
    200 <= status && status < 300
}

/// Why an exchange with the gateway failed.
#[derive(Debug, Clone, PartialEq, Eq)]
pub enum GatewayError {
    /// No token is cached or stored, and no pairing code was supplied.
    NoTokenAvailable,
    /// The gateway rejected the token, and no pairing code was supplied to
    /// get another.
    ReauthRequired,
    /// The gateway answered the pairing request with a body that holds no
    /// token. `body` is that body, trimmed.
    NoTokenInResponse { body: String },
    /// The gateway refused the pairing request. `body` is its answer,
    /// trimmed.
    PairingFailed { status: u16, body: String },
    /// The gateway refused the message. `body` is its answer, trimmed.
    SendFailed { status: u16, body: String },
    /// A request could not be sent, or its answer could not be read.
    NetworkError { detail: String },
    /// The token could not be written to the token file.
    PersistenceFailed { detail: String },
}

pub enum GatewayErrorView {
    NoTokenAvailable,
    ReauthRequired,
    NoTokenInResponse { body: Seq<char> },
    PairingFailed { status: u16, body: Seq<char> },
    SendFailed { status: u16, body: Seq<char> },
    NetworkError { detail: Seq<char> },
    PersistenceFailed { detail: Seq<char> },
}

impl View for GatewayError {
    type V = GatewayErrorView;

    open spec fn view(&self) -> GatewayErrorView {
        match self {
            GatewayError::NoTokenAvailable => GatewayErrorView::NoTokenAvailable,
            GatewayError::ReauthRequired => GatewayErrorView::ReauthRequired,
            GatewayError::NoTokenInResponse { body } => GatewayErrorView::NoTokenInResponse {
                body: body@,
            },
            GatewayError::PairingFailed { status, body } => GatewayErrorView::PairingFailed {
                status: *status,
                body: body@,
            },
            GatewayError::SendFailed { status, body } => GatewayErrorView::SendFailed {
                status: *status,
                body: body@,
            },
            GatewayError::NetworkError { detail } => GatewayErrorView::NetworkError {
                detail: detail@,
            },
            GatewayError::PersistenceFailed { detail } => GatewayErrorView::PersistenceFailed {
                detail: detail@,
            },
        }
    }
}

/// How an exchange ended.
#[derive(Debug, Clone, PartialEq, Eq)]
pub enum Outcome {
    /// The pairing that was asked for is done: the new token is stored and
    /// cached.
    Paired,
    /// The message was delivered, and this is the gateway's reply.
    Reply(String),
    Failed(GatewayError),
}

pub enum OutcomeView {
    Paired,
    Reply(Seq<char>),
    Failed(GatewayErrorView),
}

impl View for Outcome {
    type V = OutcomeView;

    open spec fn view(&self) -> OutcomeView {
        match self {
            Outcome::Paired => OutcomeView::Paired,
            Outcome::Reply(reply) => OutcomeView::Reply(reply@),
            Outcome::Failed(error) => OutcomeView::Failed(error@),
        }
    }
}

/// What the driver has to do next for an exchange.
#[derive(Debug, Clone, PartialEq, Eq)]
pub enum Action {
    /// Read the token file, and report its contents with
    /// `Report::TokenFile`.
    ReadToken,
    /// Post an empty request to `url` with the pairing code in the header
    /// `X-Pairing-Code`, and report the answer.
    Pair { url: String, pairing_code: String },
    /// Create the token file's parent directories, write `contents` to the
    /// token file, and report `Stored` or `StoreFailed`.
    StoreToken { contents: String },
    /// Post `message` to `url` as the JSON object with the one member
    /// `message`, with `token` as the bearer token and, where there is one,
    /// `secret` in the header `X-Webhook-Secret`, and report the answer.
    Webhook { url: String, token: String, message: String, secret: Option<String> },
    /// Nothing: the exchange is over, with this outcome.
    Finish(Outcome),
}

pub enum ActionView {
    ReadToken,
    Pair { url: Seq<char>, pairing_code: Seq<char> },
    StoreToken { contents: Seq<char> },
    Webhook { url: Seq<char>, token: Seq<char>, message: Seq<char>, secret: Option<Seq<char>> },
    Finish(OutcomeView),
}

impl View for Action {
    type V = ActionView;

    open spec fn view(&self) -> ActionView {
        match self {
            Action::ReadToken => ActionView::ReadToken,
            Action::Pair { url, pairing_code } => ActionView::Pair {
                url: url@,
                pairing_code: pairing_code@,
            },
            Action::StoreToken { contents } => ActionView::StoreToken { contents: contents@ },
            Action::Webhook { url, token, message, secret } => ActionView::Webhook {
                url: url@,
                token: token@,
                message: message@,
                secret: match secret {
                    Some(s) => Some(s@),
                    None => None,
                },
            },
            Action::Finish(outcome) => ActionView::Finish(outcome@),
        }
    }
}

/// What the driver found when it did what an `Action` asked for.
#[derive(Debug, Clone, PartialEq, Eq)]
pub enum Report {
    /// The contents of the token file, or `None` where the file is missing
    /// or cannot be read.
    TokenFile(Option<String>),
    /// The gateway answered with this status and body.
    Response { status: u16, body: String },
    /// The request could not be sent, or no answer came.
    Unreachable { detail: String },
    /// The gateway answered with this status, but the body of its answer
    /// could not be read.
    BodyLost { status: u16, detail: String },
    /// The token file is written.
    Stored,
    /// The token file could not be written.
    StoreFailed { detail: String },
}

pub enum ReportView {
    TokenFile(Option<Seq<char>>),
    Response { status: u16, body: Seq<char> },
    Unreachable { detail: Seq<char> },
    BodyLost { status: u16, detail: Seq<char> },
    Stored,
    StoreFailed { detail: Seq<char> },
}

impl View for Report {
    type V = ReportView;

    open spec fn view(&self) -> ReportView {
        match self {
            Report::TokenFile(contents) => ReportView::TokenFile(
                match contents {
                    Some(c) => Some(c@),
                    None => None,
                },
            ),
            Report::Response { status, body } => ReportView::Response {
                status: *status,
                body: body@,
            },
            Report::Unreachable { detail } => ReportView::Unreachable { detail: detail@ },
            Report::BodyLost { status, detail } => ReportView::BodyLost {
                status: *status,
                detail: detail@,
            },
            Report::Stored => ReportView::Stored,
            Report::StoreFailed { detail } => ReportView::StoreFailed { detail: detail@ },
        }
    }
}

impl GatewayError {
    /// A copy of the error.
    pub fn duplicate(&self) -> (copy: GatewayError)
        ensures
            copy@ == self@,
    {
        match self {
            GatewayError::NoTokenAvailable => GatewayError::NoTokenAvailable,
            GatewayError::ReauthRequired => GatewayError::ReauthRequired,
            GatewayError::NoTokenInResponse { body } => GatewayError::NoTokenInResponse {
                body: body.clone(),
            },
            GatewayError::PairingFailed { status, body } => GatewayError::PairingFailed {
                status: *status,
                body: body.clone(),
            },
            GatewayError::SendFailed { status, body } => GatewayError::SendFailed {
                status: *status,
                body: body.clone(),
            },
            GatewayError::NetworkError { detail } => GatewayError::NetworkError {
                detail: detail.clone(),
            },
            GatewayError::PersistenceFailed { detail } => GatewayError::PersistenceFailed {
                detail: detail.clone(),
            },
        }
    }
}

/// The view of a text or of the error in its place.
pub open spec fn result_view(result: Result<String, GatewayError>) -> Result<
    Seq<char>,
    GatewayErrorView,
> {
    match result {
        Ok(text) => Ok(text@),
        Err(error) => Err(error@),
    }
}

impl OutcomeView {
    /// The outcome as a result: the gateway's reply, which is empty where
    /// the exchange was a pairing, or the error.
    pub open spec fn as_result(self) -> Result<Seq<char>, GatewayErrorView> {
        match self {
            OutcomeView::Paired => Ok(Seq::empty()),
            OutcomeView::Reply(reply) => Ok(reply),
            OutcomeView::Failed(error) => Err(error),
        }
    }
}

impl Outcome {
    /// The outcome as a result: the gateway's reply, which is empty where
    /// the exchange was a pairing, or the error.
    pub fn into_result(self) -> (result: Result<String, GatewayError>)
        ensures
            result_view(result) == self@.as_result(),
    {
        match self {
            Outcome::Paired => Ok(String::new()),
            Outcome::Reply(reply) => Ok(reply),
            Outcome::Failed(error) => Err(error),
        }
    }

    /// A copy of the outcome.
    pub fn duplicate(&self) -> (copy: Outcome)
        ensures
            copy@ == self@,
    {
        match self {
            Outcome::Paired => Outcome::Paired,
            Outcome::Reply(reply) => Outcome::Reply(reply.clone()),
            Outcome::Failed(error) => Outcome::Failed(error.duplicate()),
        }
    }
}

} // verus!
