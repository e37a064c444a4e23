//! The course of an exchange with the gateway, as a state machine over
//! plain values: where an exchange starts, what the driver has to do in
//! each state, and which state each report leads to.

use crate::gateway::{pair_url, webhook_url, GatewayConfigView};
use crate::parser::{is_token, lemma_token_is_never_blank, reply_in, token_in};
use crate::protocol::{
    status_is_success, ActionView, GatewayErrorView, OutcomeView, ReportView, UNAUTHORIZED,
};
use crate::text::trimmed;
use crate::token_store::{lemma_stored_token_is_token, stored_token, token_file_text};
use vstd::prelude::*;

verus! {

/// The state of an exchange.
#[allow(inconsistent_fields)]
pub enum ExchangeView {
    /// The token file is being read, to send `message`.
    ReadingToken { message: Seq<char>, pairing_code: Option<Seq<char>> },
    /// A pairing request is under way. `message` is what to send once the
    /// token is there, if anything. `retry` says that the pairing replaces a
    /// token that the gateway has rejected.
    Pairing { pairing_code: Seq<char>, message: Option<Seq<char>>, retry: bool },
    /// The token that the pairing gave is being stored.
    Storing { token: Seq<char>, pairing_code: Seq<char>, message: Option<Seq<char>>, retry: bool },
    /// The message is being sent. `retried` says that it is sent for the
    /// second time, with the token that replaced a rejected one.
    Sending {
        token: Seq<char>,
        message: Seq<char>,
        pairing_code: Option<Seq<char>>,
        retried: bool,
    },
    /// The exchange is over.
    Finished(OutcomeView),
}

impl ExchangeView {
    /// The tokens that the exchange holds are not blank.
    pub open spec fn holds_tokens(self) -> bool {
        match self {
            ExchangeView::Storing { token, .. } => is_token(token),
            ExchangeView::Sending { token, .. } => is_token(token),
            _ => true,
        }
    }

    /// The most pairing requests that the exchange can still ask for.
    pub open spec fn pairings_left(self) -> nat {
        match self {
            ExchangeView::ReadingToken { .. } => 2,
            ExchangeView::Pairing { message, retry, .. } => if message is Some && !retry {
                2
            } else {
                1
            },
            ExchangeView::Storing { message, retry, .. } => if message is Some && !retry {
                1
            } else {
                0
            },
            ExchangeView::Sending { retried, .. } => if retried {
                0
            } else {
                1
            },
            ExchangeView::Finished(_) => 0,
        }
    }

    /// The most webhook requests that the exchange can still ask for.
    pub open spec fn webhooks_left(self) -> nat {
        match self {
            ExchangeView::ReadingToken { .. } => 2,
            ExchangeView::Pairing { message, retry, .. } => if message is None {
                0
            } else if retry {
                1
            } else {
                2
            },
            ExchangeView::Storing { message, retry, .. } => if message is None {
                0
            } else if retry {
                1
            } else {
                2
            },
            ExchangeView::Sending { retried, .. } => if retried {
                1
            } else {
                2
            },
            ExchangeView::Finished(_) => 0,
        }
    }

    /// The most reports that the exchange can still take before it is
    /// over.
    pub open spec fn steps_left(self) -> nat {
        match self {
            ExchangeView::ReadingToken { .. } => 7,
            ExchangeView::Pairing { message, retry, .. } => if message is None {
                2
            } else if retry {
                3
            } else {
                6
            },
            ExchangeView::Storing { message, retry, .. } => if message is None {
                1
            } else if retry {
                2
            } else {
                5
            },
            ExchangeView::Sending { retried, .. } => if retried {
                1
            } else {
                4
            },
            ExchangeView::Finished(_) => 0,
        }
    }
}

/// Where the exchange that pairs with `pairing_code` starts: with the
/// pairing request, whatever token is cached or stored.
pub open spec fn begun_pairing(pairing_code: Seq<char>) -> ExchangeView {
    ExchangeView::Pairing { pairing_code, message: None, retry: false }
}

/// Where the exchange that sends `message` starts: with the message itself
/// where a token is cached, else with reading the token file.
pub open spec fn begun_send(
    token_cache: Option<Seq<char>>,
    message: Seq<char>,
    pairing_code: Option<Seq<char>>,
) -> ExchangeView {
    match token_cache {
        Some(token) => ExchangeView::Sending { token, message, pairing_code, retried: false },
        None => ExchangeView::ReadingToken { message, pairing_code },
    }
}

/// Whether the gateway answered that it rejects the token.
pub open spec fn is_rejection(report: ReportView) -> bool {
    match report {
        ReportView::Response { status, .. } => status == UNAUTHORIZED,
        ReportView::BodyLost { status, .. } => status == UNAUTHORIZED,
        _ => false,
    }
}

/// Whether `report` is what a request to the gateway can end in.
pub open spec fn answers_request(report: ReportView) -> bool {
    report is Response || report is Unreachable || report is BodyLost
}

/// Whether `report` is what the driver reports for the action that
/// `exchange` is waiting for.
pub open spec fn answers(exchange: ExchangeView, report: ReportView) -> bool {
    match exchange {
        ExchangeView::ReadingToken { .. } => report is TokenFile,
        ExchangeView::Pairing { .. } => answers_request(report),
        ExchangeView::Storing { .. } => report is Stored || report is StoreFailed,
        ExchangeView::Sending { .. } => answers_request(report),
        ExchangeView::Finished(_) => false,
    }
}

/// What follows a rejected token: one pairing with the code that was
/// supplied, or failure where none was.
pub open spec fn after_rejection(
    message: Seq<char>,
    pairing_code: Option<Seq<char>>,
) -> ExchangeView {
    match pairing_code {
        Some(code) => ExchangeView::Pairing {
            pairing_code: code,
            message: Some(message),
            retry: true,
        },
        None => ExchangeView::Finished(OutcomeView::Failed(GatewayErrorView::ReauthRequired)),
    }
}

/// How a pairing request ends that the gateway answered with `report`:
/// with the token of the answer, or with the reason why there is none.
pub open spec fn pairing_result(report: ReportView) -> Result<Seq<char>, GatewayErrorView>
    recommends
        answers_request(report),
{
    match report {
        ReportView::Response { status, body } => if !status_is_success(status) {
            Err(GatewayErrorView::PairingFailed { status, body: trimmed(body) })
        } else {
            match token_in(body) {
                Some(token) => Ok(token),
                None => Err(GatewayErrorView::NoTokenInResponse { body: trimmed(body) }),
            }
        },
        ReportView::Unreachable { detail } => Err(GatewayErrorView::NetworkError { detail }),
        ReportView::BodyLost { detail, .. } => Err(GatewayErrorView::NetworkError { detail }),
        _ => arbitrary(),
    }
}

/// How a webhook request ends that the gateway answered with `report`, as
/// long as the answer is not taken as a reason to pair again.
pub open spec fn delivery_outcome(report: ReportView) -> OutcomeView
    recommends
        answers_request(report),
{
    match report {
        ReportView::Response { status, body } => if status_is_success(status) {
            OutcomeView::Reply(reply_in(body))
        } else {
            OutcomeView::Failed(GatewayErrorView::SendFailed { status, body: trimmed(body) })
        },
        ReportView::Unreachable { detail } => OutcomeView::Failed(
            GatewayErrorView::NetworkError { detail },
        ),
        ReportView::BodyLost { detail, .. } => OutcomeView::Failed(
            GatewayErrorView::NetworkError { detail },
        ),
        _ => arbitrary(),
    }
}

/// The state that `report` leads to from `exchange`. A report that does not
/// answer the action that the exchange is waiting for leaves it as it is.
pub open spec fn settle(exchange: ExchangeView, report: ReportView) -> ExchangeView {
    if !answers(exchange, report) {
        exchange
    } else {
        match exchange {
            ExchangeView::ReadingToken { message, pairing_code } => match stored_token(
                report->TokenFile_0,
            ) {
                Ok(token) => ExchangeView::Sending { token, message, pairing_code, retried: false },
                Err(_) => match pairing_code {
                    Some(code) => ExchangeView::Pairing {
                        pairing_code: code,
                        message: Some(message),
                        retry: false,
                    },
                    None => ExchangeView::Finished(
                        OutcomeView::Failed(GatewayErrorView::NoTokenAvailable),
                    ),
                },
            },
            ExchangeView::Pairing { pairing_code, message, retry } => match pairing_result(
                report,
            ) {
                Ok(token) => ExchangeView::Storing { token, pairing_code, message, retry },
                Err(error) => ExchangeView::Finished(OutcomeView::Failed(error)),
            },
            ExchangeView::Storing { token, pairing_code, message, retry } => match report {
                ReportView::StoreFailed { detail } => ExchangeView::Finished(
                    OutcomeView::Failed(GatewayErrorView::PersistenceFailed { detail }),
                ),
                _ => match message {
                    Some(m) => ExchangeView::Sending {
                        token,
                        message: m,
                        pairing_code: Some(pairing_code),
                        retried: retry,
                    },
                    None => ExchangeView::Finished(OutcomeView::Paired),
                },
            },
            ExchangeView::Sending { token, message, pairing_code, retried } => if is_rejection(
                report,
            ) && !retried {
                after_rejection(message, pairing_code)
            } else {
                ExchangeView::Finished(delivery_outcome(report))
            },
            ExchangeView::Finished(_) => exchange,
        }
    }
}

/// The token that is cached once `report` has come for `exchange`: the
/// token that the token file gave, or the token of a pairing once it is
/// stored; else the one that was cached before.
pub open spec fn cache_after(
    token_cache: Option<Seq<char>>,
    exchange: ExchangeView,
    report: ReportView,
) -> Option<Seq<char>> {
    match (exchange, report) {
        (ExchangeView::ReadingToken { .. }, ReportView::TokenFile(contents)) => match stored_token(
            contents,
        ) {
            Ok(token) => Some(token),
            Err(_) => token_cache,
        },
        (ExchangeView::Storing { token, .. }, ReportView::Stored) => Some(token),
        _ => token_cache,
    }
}

/// What the driver has to do next for `exchange`.
pub open spec fn pending_action(config: GatewayConfigView, exchange: ExchangeView) -> ActionView {
    match exchange {
        ExchangeView::ReadingToken { .. } => ActionView::ReadToken,
        ExchangeView::Pairing { pairing_code, .. } => ActionView::Pair {
            url: pair_url(config.base_url),
            pairing_code,
        },
        ExchangeView::Storing { token, .. } => ActionView::StoreToken {
            contents: token_file_text(token),
        },
        ExchangeView::Sending { token, message, .. } => ActionView::Webhook {
            url: webhook_url(config.base_url),
            token,
            message,
            secret: config.webhook_secret,
        },
        ExchangeView::Finished(outcome) => ActionView::Finish(outcome),
    }
}

/// The actions that the driver is asked for, one after the other, where it
/// starts at `exchange` and `reports` are its reports in their order. The
/// list ends with the action that is pending when the reports run out, or
/// with `Finish`, after which nothing is asked for whatever is reported.
pub open spec fn trace(
    config: GatewayConfigView,
    exchange: ExchangeView,
    reports: Seq<ReportView>,
) -> Seq<ActionView>
    decreases reports.len(),
{
    if reports.len() == 0 || exchange is Finished {
        seq![pending_action(config, exchange)]
    } else {
        seq![pending_action(config, exchange)] + trace(
            config,
            settle(exchange, reports[0]),
            reports.drop_first(),
        )
    }
}

/// Whether the driver answers each action with a report on that action,
/// from `exchange` on.
pub open spec fn well_driven(exchange: ExchangeView, reports: Seq<ReportView>) -> bool
    decreases reports.len(),
{
    reports.len() == 0 || exchange is Finished || (answers(exchange, reports[0]) && well_driven(
        settle(exchange, reports[0]),
        reports.drop_first(),
    ))
}

/// 1 for a pairing request, 0 for any other action.
pub open spec fn pairing_in(action: ActionView) -> nat {
    if action is Pair {
        1
    } else {
        0
    }
}

/// 1 for a webhook request, 0 for any other action.
pub open spec fn webhook_in(action: ActionView) -> nat {
    if action is Webhook {
        1
    } else {
        0
    }
}

/// How many pairing requests a list of actions holds.
pub open spec fn pairings(actions: Seq<ActionView>) -> nat
    decreases actions.len(),
{
    if actions.len() == 0 {
        0
    } else {
        pairing_in(actions[0]) + pairings(actions.drop_first())
    }
}

/// How many webhook requests a list of actions holds.
pub open spec fn webhooks(actions: Seq<ActionView>) -> nat
    decreases actions.len(),
{
    if actions.len() == 0 {
        0
    } else {
        webhook_in(actions[0]) + webhooks(actions.drop_first())
    }
}

/// An exchange never comes to hold a blank token, and never caches one;
/// and a token that is cached is replaced, never dropped.
pub proof fn lemma_tokens_are_kept(
    token_cache: Option<Seq<char>>,
    exchange: ExchangeView,
    report: ReportView,
)
    requires
        exchange.holds_tokens(),
        token_cache matches Some(t) ==> is_token(t),
    ensures
        settle(exchange, report).holds_tokens(),
        cache_after(token_cache, exchange, report) matches Some(t) ==> is_token(t),
        token_cache is Some ==> cache_after(token_cache, exchange, report) is Some,
{
    if let ReportView::TokenFile(contents) = report {
        lemma_stored_token_is_token(contents);
    }
    if let ReportView::Response { body, .. } = report {
        lemma_token_is_never_blank(body);
    }
}

/// Every report that answers the pending action brings the exchange
/// nearer to its end, and no other report moves it: there is no unbounded
/// retry.
pub proof fn lemma_settle_makes_progress(exchange: ExchangeView, report: ReportView)
    ensures
        answers(exchange, report) ==> settle(exchange, report).steps_left()
            < exchange.steps_left(),
        !answers(exchange, report) ==> settle(exchange, report) == exchange,
{
}

/// With nothing cached, no usable token file and a pairing code that the
/// gateway accepts, a message is sent by exactly one pairing request, one
/// write of the token and then one webhook request; and the token is cached
/// once it is written.
pub proof fn lemma_first_send_pairs_once(
    config: GatewayConfigView,
    message: Seq<char>,
    pairing_code: Seq<char>,
    file: Option<Seq<char>>,
    pair_status: u16,
    pair_body: Seq<char>,
    status: u16,
    body: Seq<char>,
    more: Seq<ReportView>,
)
    requires
        stored_token(file) is Err,
        status_is_success(pair_status),
        token_in(pair_body) is Some,
        status_is_success(status),
    ensures
        ({
            let token = token_in(pair_body)->0;
            let start = begun_send(None, message, Some(pairing_code));
            let reports = seq![
                ReportView::TokenFile(file),
                ReportView::Response { status: pair_status, body: pair_body },
                ReportView::Stored,
                ReportView::Response { status, body },
            ];
            let stored = settle(settle(start, reports[0]), reports[1]);
            &&& trace(config, start, reports + more) == seq![
                ActionView::ReadToken,
                ActionView::Pair { url: pair_url(config.base_url), pairing_code },
                ActionView::StoreToken { contents: token_file_text(token) },
                ActionView::Webhook {
                    url: webhook_url(config.base_url),
                    token,
                    message,
                    secret: config.webhook_secret,
                },
                ActionView::Finish(OutcomeView::Reply(reply_in(body))),
            ]
            &&& pairings(trace(config, start, reports + more)) == 1
            &&& webhooks(trace(config, start, reports + more)) == 1
            &&& cache_after(None, stored, ReportView::Stored) == Some(token)
        }),
{
    let token = token_in(pair_body)->0;
    let start = begun_send(None, message, Some(pairing_code));
    let r0 = ReportView::TokenFile(file);
    let r1 = ReportView::Response { status: pair_status, body: pair_body };
    let r2 = ReportView::Stored;
    let r3 = ReportView::Response { status, body };
    let reports = seq![r0, r1, r2, r3];
    let all = reports + more;
    let s1 = settle(start, r0);
    let s2 = settle(s1, r1);
    let s3 = settle(s2, r2);
    let s4 = settle(s3, r3);
    let t1 = all.drop_first();
    let t2 = t1.drop_first();
    let t3 = t2.drop_first();
    let t4 = t3.drop_first();
    assert(all[0] == r0 && t1[0] == r1 && t2[0] == r2 && t3[0] == r3);
    assert(s4 is Finished);
    assert(trace(config, s4, t4) == seq![pending_action(config, s4)]);
    assert(trace(config, s3, t3) == seq![pending_action(config, s3)] + trace(config, s4, t4));
    assert(trace(config, s2, t2) == seq![pending_action(config, s2)] + trace(config, s3, t3));
    assert(trace(config, s1, t1) == seq![pending_action(config, s1)] + trace(config, s2, t2));
    assert(trace(config, start, all) == seq![pending_action(config, start)] + trace(
        config,
        s1,
        t1,
    ));
    let expected = seq![
        ActionView::ReadToken,
        ActionView::Pair { url: pair_url(config.base_url), pairing_code },
        ActionView::StoreToken { contents: token_file_text(token) },
        ActionView::Webhook {
            url: webhook_url(config.base_url),
            token,
            message,
            secret: config.webhook_secret,
        },
        ActionView::Finish(OutcomeView::Reply(reply_in(body))),
    ];
    assert(trace(config, start, all) =~= expected);
    lemma_requests_of_five(expected);
}

/// Where the gateway rejects the cached token and a pairing code was
/// supplied, the client pairs once more, stores the new token, and sends the
/// message a second time; what that second request ends in is the outcome,
/// even where it is another rejection, and nothing further is asked for.
pub proof fn lemma_rejected_token_is_replaced_once(
    config: GatewayConfigView,
    cached: Seq<char>,
    message: Seq<char>,
    pairing_code: Seq<char>,
    rejection: ReportView,
    pair_status: u16,
    pair_body: Seq<char>,
    second: ReportView,
    more: Seq<ReportView>,
)
    requires
        is_rejection(rejection),
        status_is_success(pair_status),
        token_in(pair_body) is Some,
        answers_request(second),
    ensures
        ({
            let token = token_in(pair_body)->0;
            let start = begun_send(Some(cached), message, Some(pairing_code));
            let reports = seq![
                rejection,
                ReportView::Response { status: pair_status, body: pair_body },
                ReportView::Stored,
                second,
            ];
            &&& trace(config, start, reports + more) == seq![
                ActionView::Webhook {
                    url: webhook_url(config.base_url),
                    token: cached,
                    message,
                    secret: config.webhook_secret,
                },
                ActionView::Pair { url: pair_url(config.base_url), pairing_code },
                ActionView::StoreToken { contents: token_file_text(token) },
                ActionView::Webhook {
                    url: webhook_url(config.base_url),
                    token,
                    message,
                    secret: config.webhook_secret,
                },
                ActionView::Finish(delivery_outcome(second)),
            ]
            &&& pairings(trace(config, start, reports + more)) == 1
            &&& webhooks(trace(config, start, reports + more)) == 2
        }),
{
    let token = token_in(pair_body)->0;
    let start = begun_send(Some(cached), message, Some(pairing_code));
    let r1 = ReportView::Response { status: pair_status, body: pair_body };
    let r2 = ReportView::Stored;
    let reports = seq![rejection, r1, r2, second];
    let all = reports + more;
    let s1 = settle(start, rejection);
    let s2 = settle(s1, r1);
    let s3 = settle(s2, r2);
    let s4 = settle(s3, second);
    let t1 = all.drop_first();
    let t2 = t1.drop_first();
    let t3 = t2.drop_first();
    let t4 = t3.drop_first();
    assert(all[0] == rejection && t1[0] == r1 && t2[0] == r2 && t3[0] == second);
    assert(s4 is Finished);
    assert(trace(config, s4, t4) == seq![pending_action(config, s4)]);
    assert(trace(config, s3, t3) == seq![pending_action(config, s3)] + trace(config, s4, t4));
    assert(trace(config, s2, t2) == seq![pending_action(config, s2)] + trace(config, s3, t3));
    assert(trace(config, s1, t1) == seq![pending_action(config, s1)] + trace(config, s2, t2));
    assert(trace(config, start, all) == seq![pending_action(config, start)] + trace(
        config,
        s1,
        t1,
    ));
    let expected = seq![
        ActionView::Webhook {
            url: webhook_url(config.base_url),
            token: cached,
            message,
            secret: config.webhook_secret,
        },
        ActionView::Pair { url: pair_url(config.base_url), pairing_code },
        ActionView::StoreToken { contents: token_file_text(token) },
        ActionView::Webhook {
            url: webhook_url(config.base_url),
            token,
            message,
            secret: config.webhook_secret,
        },
        ActionView::Finish(delivery_outcome(second)),
    ];
    assert(trace(config, start, all) =~= expected);
    lemma_requests_of_five(expected);
}

/// Where the gateway rejects the cached token and no pairing code was
/// supplied, the exchange fails with `ReauthRequired` and no pairing
/// request is made.
pub proof fn lemma_rejection_without_code_needs_reauth(
    config: GatewayConfigView,
    cached: Seq<char>,
    message: Seq<char>,
    rejection: ReportView,
    more: Seq<ReportView>,
)
    requires
        is_rejection(rejection),
    ensures
        ({
            let start = begun_send(Some(cached), message, None);
            &&& trace(config, start, seq![rejection] + more) == seq![
                ActionView::Webhook {
                    url: webhook_url(config.base_url),
                    token: cached,
                    message,
                    secret: config.webhook_secret,
                },
                ActionView::Finish(OutcomeView::Failed(GatewayErrorView::ReauthRequired)),
            ]
            &&& pairings(trace(config, start, seq![rejection] + more)) == 0
        }),
{
    let start = begun_send(Some(cached), message, None);
    let all = seq![rejection] + more;
    let s1 = settle(start, rejection);
    let t1 = all.drop_first();
    assert(all[0] == rejection);
    assert(s1 is Finished);
    assert(trace(config, s1, t1) == seq![pending_action(config, s1)]);
    assert(trace(config, start, all) == seq![pending_action(config, start)] + trace(
        config,
        s1,
        t1,
    ));
    let expected = seq![
        ActionView::Webhook {
            url: webhook_url(config.base_url),
            token: cached,
            message,
            secret: config.webhook_secret,
        },
        ActionView::Finish(OutcomeView::Failed(GatewayErrorView::ReauthRequired)),
    ];
    assert(trace(config, start, all) =~= expected);
    let last = expected.drop_first();
    assert(last.drop_first().len() == 0);
    assert(pairings(last.drop_first()) == 0);
    assert(pairings(last) == 0);
}

/// The requests among five actions.
proof fn lemma_requests_of_five(actions: Seq<ActionView>)
    requires
        actions.len() == 5,
    ensures
        pairings(actions) == pairing_in(actions[0]) + pairing_in(actions[1]) + pairing_in(
            actions[2],
        ) + pairing_in(actions[3]) + pairing_in(actions[4]),
        webhooks(actions) == webhook_in(actions[0]) + webhook_in(actions[1]) + webhook_in(
            actions[2],
        ) + webhook_in(actions[3]) + webhook_in(actions[4]),
{
    let a1 = actions.drop_first();
    let a2 = a1.drop_first();
    let a3 = a2.drop_first();
    let a4 = a3.drop_first();
    let a5 = a4.drop_first();
    assert(a5.len() == 0);
    assert(a1[0] == actions[1] && a2[0] == actions[2] && a3[0] == actions[3] && a4[0]
        == actions[4]);
    assert(pairings(a5) == 0 && webhooks(a5) == 0);
    assert(pairings(a4) == pairing_in(a4[0]) + pairings(a5));
    assert(pairings(a3) == pairing_in(a3[0]) + pairings(a4));
    assert(pairings(a2) == pairing_in(a2[0]) + pairings(a3));
    assert(pairings(a1) == pairing_in(a1[0]) + pairings(a2));
    assert(webhooks(a4) == webhook_in(a4[0]) + webhooks(a5));
    assert(webhooks(a3) == webhook_in(a3[0]) + webhooks(a4));
    assert(webhooks(a2) == webhook_in(a2[0]) + webhooks(a3));
    assert(webhooks(a1) == webhook_in(a1[0]) + webhooks(a2));
}

/// However the gateway answers, an exchange asks for no more requests than
/// its state allows, and is over after no more reports than its state
/// allows: there is no unbounded retry.
pub proof fn lemma_requests_are_bounded(
    config: GatewayConfigView,
    exchange: ExchangeView,
    reports: Seq<ReportView>,
)
    requires
        well_driven(exchange, reports),
    ensures
        pairings(trace(config, exchange, reports)) <= exchange.pairings_left(),
        webhooks(trace(config, exchange, reports)) <= exchange.webhooks_left(),
        trace(config, exchange, reports).len() <= exchange.steps_left() + 1,
    decreases reports.len(),
{
    let first = seq![pending_action(config, exchange)];
    assert(first.drop_first().len() == 0);
    assert(pairings(first.drop_first()) == 0 && webhooks(first.drop_first()) == 0);
    if reports.len() == 0 || exchange is Finished {
        assert(trace(config, exchange, reports) == first);
    } else {
        let next = settle(exchange, reports[0]);
        let rest = trace(config, next, reports.drop_first());
        lemma_requests_are_bounded(config, next, reports.drop_first());
        let all = first + rest;
        assert(all == trace(config, exchange, reports));
        assert(all.drop_first() =~= rest);
        assert(all[0] == pending_action(config, exchange));
    }
}

/// However the gateway answers, sending one message takes at most two
/// pairing requests and two webhook requests, and pairing takes one pairing
/// request.
pub proof fn lemma_one_retry_at_most(
    config: GatewayConfigView,
    token_cache: Option<Seq<char>>,
    message: Seq<char>,
    pairing_code: Option<Seq<char>>,
    code: Seq<char>,
    reports: Seq<ReportView>,
)
    ensures
        ({
            let start = begun_send(token_cache, message, pairing_code);
            well_driven(start, reports) ==> {
                &&& pairings(trace(config, start, reports)) <= 2
                &&& webhooks(trace(config, start, reports)) <= 2
                &&& trace(config, start, reports).len() <= 8
            }
        }),
        ({
            let start = begun_pairing(code);
            well_driven(start, reports) ==> {
                &&& pairings(trace(config, start, reports)) <= 1
                &&& webhooks(trace(config, start, reports)) == 0
                &&& trace(config, start, reports).len() <= 3
            }
        }),
{
    let send = begun_send(token_cache, message, pairing_code);
    if well_driven(send, reports) {
        lemma_requests_are_bounded(config, send, reports);
    }
    let pairing = begun_pairing(code);
    if well_driven(pairing, reports) {
        lemma_requests_are_bounded(config, pairing, reports);
    }
}

} // verus!
