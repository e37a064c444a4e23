//! The gateway client: its configuration, the token that it caches, and the
//! exchanges that it runs with the gateway.
//!
//! The client performs no I/O. `pair_only` and `send_message` open an
//! exchange; `action` says what the driver has to do next for it, and
//! `advance` takes the driver's report on what came back. The driver repeats
//! the two until `action` says `Finish`.

use crate::exchange::{
    answers_request, begun_pairing, begun_send, cache_after, delivery_outcome, is_rejection,
    pairing_result, pending_action, settle, ExchangeView,
};
use crate::parser::{extract_reply, extract_token, is_token, text_view};
use crate::protocol::{
    is_success, result_view, Action, GatewayError, Outcome, Report, UNAUTHORIZED,
};
use crate::text::trim;
use crate::token_store::{read_token, token_file_contents};
use std::path::PathBuf;
use vstd::prelude::*;
use vstd::string::StrSliceExecFns;
use vstd::string::StringExecFns;

verus! {

/// `std::path::PathBuf`, which the library stores and hands back without
/// looking inside.
#[verifier::external_type_specification]
#[verifier::external_body]
pub struct ExPathBuf(PathBuf);

/// Where the gateway is, where its token is kept, and the secret that is
/// shared with its webhook, if there is one.
#[derive(Debug)]
pub struct GatewayConfig {
    pub base_url: String,
    pub token_path: PathBuf,
    pub webhook_secret: Option<String>,
}

pub struct GatewayConfigView {
    pub base_url: Seq<char>,
    pub token_path: PathBuf,
    pub webhook_secret: Option<Seq<char>>,
}

impl View for GatewayConfig {
    type V = GatewayConfigView;

    open spec fn view(&self) -> GatewayConfigView {
        GatewayConfigView {
            base_url: self.base_url@,
            token_path: self.token_path,
            webhook_secret: text_view(self.webhook_secret),
        }
    }
}

/// `s` without the slashes at its end.
pub open spec fn without_trailing_slashes(s: Seq<char>) -> Seq<char>
    decreases s.len(),
{
    if s.len() > 0 && s.last() == '/' {
        without_trailing_slashes(s.drop_last())
    } else {
        s
    }
}

/// The address of the pairing endpoint of the gateway at `base_url`.
pub open spec fn pair_url(base_url: Seq<char>) -> Seq<char> {
    without_trailing_slashes(base_url) + "/pair"@
}

/// The address of the webhook endpoint of the gateway at `base_url`.
pub open spec fn webhook_url(base_url: Seq<char>) -> Seq<char> {
    without_trailing_slashes(base_url) + "/webhook"@
}

/// Removes the slashes at the end of a base URL.
pub fn normalize_base_url(base_url: &str) -> (normalized: String)
    ensures
        normalized@ == without_trailing_slashes(base_url@),
{
    let mut end: usize = base_url.unicode_len();
    assert(base_url@.take(end as int) =~= base_url@);
    while end > 0 && base_url.get_char(end - 1) == '/'
        invariant
            end <= base_url@.len(),
            without_trailing_slashes(base_url@) == without_trailing_slashes(
                base_url@.take(end as int),
            ),
        decreases end,
    {
        assert(base_url@.take(end as int).drop_last() =~= base_url@.take(end - 1));
        end -= 1;
    }
    assert(base_url@.subrange(0, end as int) =~= base_url@.take(end as int));
    base_url.substring_char(0, end).to_owned()
}

/// What is left of `s` once its final slashes are gone does not end with
/// a slash.
pub proof fn lemma_without_trailing_slashes_end(s: Seq<char>)
    ensures
        without_trailing_slashes(s).len() > 0 ==> without_trailing_slashes(s).last() != '/',
        without_trailing_slashes(s).len() <= s.len(),
    decreases s.len(),
{
    if s.len() > 0 && s.last() == '/' {
        lemma_without_trailing_slashes_end(s.drop_last());
    }
}

/// Normalizing a base URL twice gives what normalizing it once gives.
pub proof fn lemma_normalize_idempotent(base_url: Seq<char>)
    ensures
        without_trailing_slashes(without_trailing_slashes(base_url)) == without_trailing_slashes(
            base_url,
        ),
{
    lemma_without_trailing_slashes_end(base_url);
}

/// The view of an optional string slice.
pub open spec fn slice_view(text: Option<&str>) -> Option<Seq<char>> {
    match text {
        Some(t) => Some(t@),
        None => None,
    }
}

/// The client of one gateway. It owns the configuration and the token
/// that is cached in memory.
#[derive(Debug)]
pub struct GatewayClient {
    config: GatewayConfig,
    token_cache: Option<String>,
}

pub struct GatewayClientView {
    pub config: GatewayConfigView,
    pub token_cache: Option<Seq<char>>,
}

impl View for GatewayClient {
    type V = GatewayClientView;

    closed spec fn view(&self) -> GatewayClientView {
        GatewayClientView { config: self.config@, token_cache: text_view(self.token_cache) }
    }
}

/// The stage that an exchange is in, with what it has to remember.
#[derive(Debug)]
#[allow(inconsistent_fields)]
enum Stage {
    ReadingToken { message: String, pairing_code: Option<String> },
    Pairing { pairing_code: String, message: Option<String>, retry: bool },
    Storing { token: String, pairing_code: String, message: Option<String>, retry: bool },
    Sending { token: String, message: String, pairing_code: Option<String>, retried: bool },
    Finished(Outcome),
}

impl View for Stage {
    type V = ExchangeView;

    closed spec fn view(&self) -> ExchangeView {
        match self {
            Stage::ReadingToken { message, pairing_code } => ExchangeView::ReadingToken {
                message: message@,
                pairing_code: text_view(*pairing_code),
            },
            Stage::Pairing { pairing_code, message, retry } => ExchangeView::Pairing {
                pairing_code: pairing_code@,
                message: text_view(*message),
                retry: *retry,
            },
            Stage::Storing { token, pairing_code, message, retry } => ExchangeView::Storing {
                token: token@,
                pairing_code: pairing_code@,
                message: text_view(*message),
                retry: *retry,
            },
            Stage::Sending { token, message, pairing_code, retried } => ExchangeView::Sending {
                token: token@,
                message: message@,
                pairing_code: text_view(*pairing_code),
                retried: *retried,
            },
            Stage::Finished(outcome) => ExchangeView::Finished(outcome@),
        }
    }
}

/// One exchange with the gateway that is under way or over: a pairing, or
/// the sending of one message. Only a client makes one.
#[derive(Debug)]
pub struct Exchange {
    stage: Stage,
}

impl View for Exchange {
    type V = ExchangeView;

    closed spec fn view(&self) -> ExchangeView {
        self.stage@
    }
}

impl Exchange {
    #[verifier::type_invariant]
    spec fn holds_tokens(self) -> bool {
        self.stage@.holds_tokens()
    }

    /// Whether the exchange is over.
    pub fn is_finished(&self) -> (finished: bool)
        ensures
            finished == (self@ is Finished),
    {
        match &self.stage {
            Stage::Finished(_) => true,
            _ => false,
        }
    }
}

/// A copy of an optional string.
fn copy_text(text: &Option<String>) -> (copy: Option<String>)
    ensures
        text_view(copy) == text_view(*text),
{
    match text {
        Some(t) => Some(t.clone()),
        None => None,
    }
}

/// Whether the gateway answered that it rejects the token.
fn rejects(report: &Report) -> (rejected: bool)
    ensures
        rejected == is_rejection(report@),
{
    match report {
        Report::Response { status, .. } => *status == UNAUTHORIZED,
        Report::BodyLost { status, .. } => *status == UNAUTHORIZED,
        _ => false,
    }
}

/// How a pairing request ends that the gateway answered with `report`.
fn judge_pairing(report: Report) -> (result: Result<String, GatewayError>)
    requires
        answers_request(report@),
    ensures
        result_view(result) == pairing_result(report@),
        result matches Ok(token) ==> is_token(token@),
{
    match report {
        Report::Response { status, body } => {
            if !is_success(status) {
                Err(GatewayError::PairingFailed { status, body: trim(body.as_str()).to_owned() })
            } else {
                match extract_token(body.as_str()) {
                    Some(token) => Ok(token),
                    None => Err(
                        GatewayError::NoTokenInResponse { body: trim(body.as_str()).to_owned() },
                    ),
                }
            }
        },
        Report::Unreachable { detail } => Err(GatewayError::NetworkError { detail }),
        Report::BodyLost { detail, .. } => Err(GatewayError::NetworkError { detail }),
        _ => Err(GatewayError::NoTokenAvailable),
    }
}

/// How a webhook request ends that the gateway answered with `report`.
fn judge_delivery(report: Report) -> (outcome: Outcome)
    requires
        answers_request(report@),
    ensures
        outcome@ == delivery_outcome(report@),
{
    match report {
        Report::Response { status, body } => {
            if is_success(status) {
                Outcome::Reply(extract_reply(body.as_str()))
            } else {
                Outcome::Failed(
                    GatewayError::SendFailed { status, body: trim(body.as_str()).to_owned() },
                )
            }
        },
        Report::Unreachable { detail } => Outcome::Failed(GatewayError::NetworkError { detail }),
        Report::BodyLost { detail, .. } => Outcome::Failed(GatewayError::NetworkError { detail }),
        _ => Outcome::Failed(GatewayError::NoTokenAvailable),
    }
}

impl GatewayClient {
    #[verifier::type_invariant]
    spec fn caches_a_token(self) -> bool {
        self.token_cache matches Some(token) ==> is_token(token@)
    }

    /// A client for the gateway that `config` describes, with no token
    /// cached.
    pub fn new(config: GatewayConfig) -> (client: GatewayClient)
        ensures
            client@.config == config@,
            client@.token_cache is None,
    {
        GatewayClient { config, token_cache: None }
    }

    /// Where the token is kept.
    pub fn token_path(&self) -> (path: &PathBuf)
        ensures
            *path == self@.config.token_path,
    {
        &self.config.token_path
    }

    /// The token that is cached, which is never blank.
    pub fn cached_token(&self) -> (token: Option<&str>)
        ensures
            slice_view(token) == self@.token_cache,
            token matches Some(t) ==> is_token(t@),
    {
        proof {
            use_type_invariant(self);
        }
        match &self.token_cache {
            Some(token) => Some(token.as_str()),
            None => None,
        }
    }

    /// Opens the exchange that pairs with the gateway, whatever token is
    /// cached or stored: it asks for one pairing request and one write of
    /// the token that comes back, which is then cached.
    pub fn pair_only(&self, pairing_code: &str) -> (exchange: Exchange)
        ensures
            exchange@ == begun_pairing(pairing_code@),
    {
        Exchange {
            stage: Stage::Pairing {
                pairing_code: pairing_code.to_owned(),
                message: None,
                retry: false,
            },
        }
    }

    /// Opens the exchange that sends `message`. The token is the cached
    /// one, else the stored one, else one that a pairing with
    /// `pairing_code` gives. Where the gateway rejects the token, the
    /// client pairs once more and sends the message a second time.
    pub fn send_message(&self, message: &str, pairing_code: Option<&str>) -> (exchange: Exchange)
        ensures
            exchange@ == begun_send(self@.token_cache, message@, slice_view(pairing_code)),
    {
        proof {
            use_type_invariant(self);
        }
        let code = match pairing_code {
            Some(c) => Some(c.to_owned()),
            None => None,
        };
        match &self.token_cache {
            Some(token) => Exchange {
                stage: Stage::Sending {
                    token: token.clone(),
                    message: message.to_owned(),
                    pairing_code: code,
                    retried: false,
                },
            },
            None => Exchange {
                stage: Stage::ReadingToken { message: message.to_owned(), pairing_code: code },
            },
        }
    }

    /// What the driver has to do next for `exchange`.
    pub fn action(&self, exchange: &Exchange) -> (action: Action)
        ensures
            action@ == pending_action(self@.config, exchange@),
    {
        match &exchange.stage {
            Stage::ReadingToken { .. } => Action::ReadToken,
            Stage::Pairing { pairing_code, .. } => Action::Pair {
                url: normalize_base_url(self.config.base_url.as_str()).concat("/pair"),
                pairing_code: pairing_code.clone(),
            },
            Stage::Storing { token, .. } => Action::StoreToken {
                contents: token_file_contents(token.as_str()),
            },
            Stage::Sending { token, message, .. } => Action::Webhook {
                url: normalize_base_url(self.config.base_url.as_str()).concat("/webhook"),
                token: token.clone(),
                message: message.clone(),
                secret: copy_text(&self.config.webhook_secret),
            },
            Stage::Finished(outcome) => Action::Finish(outcome.duplicate()),
        }
    }

    /// Takes the driver's report on the action that `exchange` was waiting
    /// for, and gives the exchange in its next state. The token of a usable
    /// token file, and the token of a pairing once it is stored, replace the
    /// cached one. A report that does not answer the pending action changes
    /// nothing.
    pub fn advance(&mut self, exchange: Exchange, report: Report) -> (next: Exchange)
        ensures
            next@ == settle(exchange@, report@),
            final(self)@.config == old(self)@.config,
            final(self)@.token_cache == cache_after(old(self)@.token_cache, exchange@, report@),
    {
        proof {
            use_type_invariant(&exchange);
            use_type_invariant(&*self);
        }
        let stage = match exchange.stage {
            Stage::ReadingToken { message, pairing_code } => match report {
                Report::TokenFile(contents) => match read_token(&contents) {
                    Ok(token) => {
                        self.token_cache = Some(token.clone());
                        Stage::Sending { token, message, pairing_code, retried: false }
                    },
                    Err(_) => match pairing_code {
                        Some(code) => Stage::Pairing {
                            pairing_code: code,
                            message: Some(message),
                            retry: false,
                        },
                        None => Stage::Finished(Outcome::Failed(GatewayError::NoTokenAvailable)),
                    },
                },
                _ => Stage::ReadingToken { message, pairing_code },
            },
            Stage::Pairing { pairing_code, message, retry } => match report {
                Report::Response { .. } | Report::Unreachable { .. } | Report::BodyLost { .. } => {
                    match judge_pairing(report) {
                        Ok(token) => Stage::Storing { token, pairing_code, message, retry },
                        Err(error) => Stage::Finished(Outcome::Failed(error)),
                    }
                },
                _ => Stage::Pairing { pairing_code, message, retry },
            },
            Stage::Storing { token, pairing_code, message, retry } => match report {
                Report::Stored => {
                    self.token_cache = Some(token.clone());
                    match message {
                        Some(m) => Stage::Sending {
                            token,
                            message: m,
                            pairing_code: Some(pairing_code),
                            retried: retry,
                        },
                        None => Stage::Finished(Outcome::Paired),
                    }
                },
                Report::StoreFailed { detail } => Stage::Finished(
                    Outcome::Failed(GatewayError::PersistenceFailed { detail }),
                ),
                _ => Stage::Storing { token, pairing_code, message, retry },
            },
            Stage::Sending { token, message, pairing_code, retried } => match report {
                Report::Response { .. } | Report::Unreachable { .. } | Report::BodyLost { .. } => {
                    if rejects(&report) && !retried {
                        match pairing_code {
                            Some(code) => Stage::Pairing {
                                pairing_code: code,
                                message: Some(message),
                                retry: true,
                            },
                            None => Stage::Finished(
                                Outcome::Failed(GatewayError::ReauthRequired),
                            ),
                        }
                    } else {
                        Stage::Finished(judge_delivery(report))
                    }
                },
                _ => Stage::Sending { token, message, pairing_code, retried },
            },
            Stage::Finished(outcome) => Stage::Finished(outcome),
        };
        Exchange { stage }
    }
}

} // verus!
