use pixie::gateway::{normalize_base_url, Exchange, GatewayClient, GatewayConfig};
use pixie::protocol::{is_success, Action, GatewayError, Outcome, Report, UNAUTHORIZED};
use std::path::PathBuf;

fn config(base_url: &str, secret: Option<&str>) -> GatewayConfig {
    GatewayConfig {
        base_url: base_url.to_string(),
        token_path: PathBuf::from("/tmp/pixie/gateway_token"),
        webhook_secret: secret.map(|s| s.to_string()),
    }
}

fn response(status: u16, body: &str) -> Report {
    Report::Response { status, body: body.to_string() }
}

fn pair(url: &str, code: &str) -> Action {
    Action::Pair { url: url.to_string(), pairing_code: code.to_string() }
}

fn webhook(url: &str, token: &str, message: &str, secret: Option<&str>) -> Action {
    Action::Webhook {
        url: url.to_string(),
        token: token.to_string(),
        message: message.to_string(),
        secret: secret.map(|s| s.to_string()),
    }
}

fn store(contents: &str) -> Action {
    Action::StoreToken { contents: contents.to_string() }
}

fn failed(error: GatewayError) -> Action {
    Action::Finish(Outcome::Failed(error))
}

/// Plays the driver: answers each action with the next report, and returns
/// every action that was asked for, the last one included.
fn drive(client: &mut GatewayClient, exchange: Exchange, reports: Vec<Report>) -> Vec<Action> {
    let mut exchange = exchange;
    let mut actions = vec![client.action(&exchange)];
    for report in reports {
        if exchange.is_finished() {
            break;
        }
        exchange = client.advance(exchange, report);
        actions.push(client.action(&exchange));
    }
    actions
}

/// A client whose cache holds `token`, read from the token file.
fn client_with_token(base_url: &str, token: &str) -> GatewayClient {
    let mut client = GatewayClient::new(config(base_url, None));
    let exchange = client.send_message("warm up", None);
    let exchange = client.advance(exchange, Report::TokenFile(Some(format!("{token}\n"))));
    let exchange = client.advance(exchange, response(200, "ok"));
    assert!(exchange.is_finished());
    assert_eq!(client.cached_token(), Some(token));
    client
}

#[test]
fn normalizes_base_url() {
    assert_eq!(normalize_base_url("http://127.0.0.1:8080/"), "http://127.0.0.1:8080");
}

#[test]
fn normalizing_strips_every_trailing_slash() {
    assert_eq!(normalize_base_url("http://host:8080/"), "http://host:8080");
    assert_eq!(normalize_base_url("http://host:8080///"), "http://host:8080");
    assert_eq!(normalize_base_url("http://host:8080"), "http://host:8080");
    assert_eq!(normalize_base_url("http://host/a/b/"), "http://host/a/b");
    assert_eq!(normalize_base_url("///"), "");
    assert_eq!(normalize_base_url(""), "");
    assert_eq!(normalize_base_url("http://h\u{f6}st/\u{e9}/"), "http://h\u{f6}st/\u{e9}");
}

#[test]
fn normalizing_twice_changes_nothing() {
    for url in ["http://host:8080/", "http://host:8080//", "http://host", "/", ""] {
        let once = normalize_base_url(url);
        assert_eq!(normalize_base_url(&once), once);
    }
}

#[test]
fn success_is_any_status_from_200_to_299() {
    assert!(is_success(200));
    assert!(is_success(204));
    assert!(is_success(299));
    assert!(!is_success(199));
    assert!(!is_success(300));
    assert!(!is_success(401));
    assert!(!is_success(0));
    assert_eq!(UNAUTHORIZED, 401);
}

#[test]
fn new_client_has_nothing_cached() {
    let client = GatewayClient::new(config("http://gw", None));
    assert_eq!(client.cached_token(), None);
    assert_eq!(client.token_path(), &PathBuf::from("/tmp/pixie/gateway_token"));
}

#[test]
fn first_send_pairs_once_stores_the_token_and_sends() {
    let mut client = GatewayClient::new(config("http://gw:8080/", Some("s3cret")));
    let exchange = client.send_message("hello", Some("123456"));
    let actions = drive(
        &mut client,
        exchange,
        vec![
            Report::TokenFile(None),
            response(200, r#"{"token":"fresh"}"#),
            Report::Stored,
            response(200, r#"{"reply":"hi there"}"#),
        ],
    );
    assert_eq!(
        actions,
        vec![
            Action::ReadToken,
            pair("http://gw:8080/pair", "123456"),
            store("fresh\n"),
            webhook("http://gw:8080/webhook", "fresh", "hello", Some("s3cret")),
            Action::Finish(Outcome::Reply("hi there".to_string())),
        ]
    );
    assert_eq!(client.cached_token(), Some("fresh"));
}

#[test]
fn blank_token_file_counts_as_no_token() {
    let mut client = GatewayClient::new(config("http://gw", None));
    let exchange = client.send_message("hello", Some("code"));
    let actions = drive(&mut client, exchange, vec![Report::TokenFile(Some("  \n".to_string()))]);
    assert_eq!(actions, vec![Action::ReadToken, pair("http://gw/pair", "code")]);
    assert_eq!(client.cached_token(), None);
}

#[test]
fn stored_token_is_used_and_cached() {
    let mut client = GatewayClient::new(config("http://gw", None));
    let exchange = client.send_message("hello", None);
    let actions = drive(
        &mut client,
        exchange,
        vec![Report::TokenFile(Some(" saved \n".to_string())), response(200, "plain reply\n")],
    );
    assert_eq!(
        actions,
        vec![
            Action::ReadToken,
            webhook("http://gw/webhook", "saved", "hello", None),
            Action::Finish(Outcome::Reply("plain reply".to_string())),
        ]
    );
    assert_eq!(client.cached_token(), Some("saved"));
}

#[test]
fn cached_token_is_used_without_reading_the_file() {
    let mut client = client_with_token("http://gw", "cached");
    let exchange = client.send_message("again", None);
    let actions = drive(&mut client, exchange, vec![response(201, "")]);
    assert_eq!(
        actions,
        vec![
            webhook("http://gw/webhook", "cached", "again", None),
            Action::Finish(Outcome::Reply(String::new())),
        ]
    );
}

#[test]
fn no_token_and_no_code_fails() {
    let mut client = GatewayClient::new(config("http://gw", None));
    let exchange = client.send_message("hello", None);
    let actions = drive(&mut client, exchange, vec![Report::TokenFile(None)]);
    assert_eq!(actions, vec![Action::ReadToken, failed(GatewayError::NoTokenAvailable)]);
}

#[test]
fn rejected_token_is_replaced_once_and_the_message_sent_again() {
    let mut client = client_with_token("http://gw/", "stale");
    let exchange = client.send_message("hello", Some("code"));
    let actions = drive(
        &mut client,
        exchange,
        vec![
            response(401, "expired"),
            response(200, "fresh"),
            Report::Stored,
            response(200, r#"{"response":"done"}"#),
        ],
    );
    assert_eq!(
        actions,
        vec![
            webhook("http://gw/webhook", "stale", "hello", None),
            pair("http://gw/pair", "code"),
            store("fresh\n"),
            webhook("http://gw/webhook", "fresh", "hello", None),
            Action::Finish(Outcome::Reply("done".to_string())),
        ]
    );
    assert_eq!(client.cached_token(), Some("fresh"));
}

#[test]
fn second_rejection_is_the_outcome_and_nobody_pairs_again() {
    let mut client = client_with_token("http://gw", "stale");
    let exchange = client.send_message("hello", Some("code"));
    let actions = drive(
        &mut client,
        exchange,
        vec![
            response(401, "expired"),
            response(200, "fresh"),
            Report::Stored,
            response(401, " still no \n"),
            response(200, "fresher"),
            Report::Stored,
        ],
    );
    assert_eq!(
        actions,
        vec![
            webhook("http://gw/webhook", "stale", "hello", None),
            pair("http://gw/pair", "code"),
            store("fresh\n"),
            webhook("http://gw/webhook", "fresh", "hello", None),
            failed(GatewayError::SendFailed { status: 401, body: "still no".to_string() }),
        ]
    );
    let pairings = actions.iter().filter(|a| matches!(a, Action::Pair { .. })).count();
    assert_eq!(pairings, 1);
    assert_eq!(client.cached_token(), Some("fresh"));
}

#[test]
fn rejection_without_a_code_needs_reauth() {
    let mut client = client_with_token("http://gw", "stale");
    let exchange = client.send_message("hello", None);
    let actions = drive(&mut client, exchange, vec![response(401, "expired"), response(200, "x")]);
    assert_eq!(
        actions,
        vec![
            webhook("http://gw/webhook", "stale", "hello", None),
            failed(GatewayError::ReauthRequired),
        ]
    );
    assert_eq!(client.cached_token(), Some("stale"));
}

#[test]
fn rejection_with_an_unreadable_body_is_a_rejection() {
    let mut client = client_with_token("http://gw", "stale");
    let exchange = client.send_message("hello", Some("code"));
    let lost = Report::BodyLost { status: 401, detail: "reset".to_string() };
    let actions = drive(&mut client, exchange, vec![lost]);
    assert_eq!(
        actions,
        vec![webhook("http://gw/webhook", "stale", "hello", None), pair("http://gw/pair", "code")]
    );
}

#[test]
fn token_from_a_first_pairing_can_still_be_replaced_once() {
    let mut client = GatewayClient::new(config("http://gw", None));
    let exchange = client.send_message("hello", Some("code"));
    let actions = drive(
        &mut client,
        exchange,
        vec![
            Report::TokenFile(None),
            response(200, "one"),
            Report::Stored,
            response(401, ""),
            response(200, "two"),
            Report::Stored,
            response(401, "no"),
        ],
    );
    assert_eq!(
        actions,
        vec![
            Action::ReadToken,
            pair("http://gw/pair", "code"),
            store("one\n"),
            webhook("http://gw/webhook", "one", "hello", None),
            pair("http://gw/pair", "code"),
            store("two\n"),
            webhook("http://gw/webhook", "two", "hello", None),
            failed(GatewayError::SendFailed { status: 401, body: "no".to_string() }),
        ]
    );
}

#[test]
fn other_failures_are_not_retried() {
    let mut client = client_with_token("http://gw", "tok");
    let exchange = client.send_message("hello", Some("code"));
    let actions = drive(&mut client, exchange, vec![response(500, " boom \n")]);
    assert_eq!(
        actions[1],
        failed(GatewayError::SendFailed { status: 500, body: "boom".to_string() })
    );

    let exchange = client.send_message("hello", Some("code"));
    let report = Report::Unreachable { detail: "connection refused".to_string() };
    let actions = drive(&mut client, exchange, vec![report]);
    assert_eq!(
        actions[1],
        failed(GatewayError::NetworkError { detail: "connection refused".to_string() })
    );

    let exchange = client.send_message("hello", Some("code"));
    let report = Report::BodyLost { status: 200, detail: "cut off".to_string() };
    let actions = drive(&mut client, exchange, vec![report]);
    assert_eq!(actions[1], failed(GatewayError::NetworkError { detail: "cut off".to_string() }));
}

#[test]
fn pair_only_pairs_whatever_is_cached() {
    let mut client = client_with_token("http://gw/", "old");
    let exchange = client.pair_only("654321");
    let actions =
        drive(&mut client, exchange, vec![response(200, r#"{"access_token":"new"}"#), Report::Stored]);
    assert_eq!(
        actions,
        vec![pair("http://gw/pair", "654321"), store("new\n"), Action::Finish(Outcome::Paired)]
    );
    assert_eq!(client.cached_token(), Some("new"));
}

#[test]
fn refused_pairing_fails_with_status_and_body() {
    let mut client = GatewayClient::new(config("http://gw", None));
    let exchange = client.pair_only("bad");
    let actions = drive(&mut client, exchange, vec![response(403, " wrong code \n")]);
    assert_eq!(
        actions[1],
        failed(GatewayError::PairingFailed { status: 403, body: "wrong code".to_string() })
    );
    assert_eq!(client.cached_token(), None);
}

#[test]
fn pairing_answer_without_a_token_fails() {
    let mut client = GatewayClient::new(config("http://gw", None));
    let exchange = client.pair_only("code");
    let actions = drive(&mut client, exchange, vec![response(200, " try again later ")]);
    assert_eq!(
        actions[1],
        failed(GatewayError::NoTokenInResponse { body: "try again later".to_string() })
    );
    let exchange = client.pair_only("code");
    let actions = drive(&mut client, exchange, vec![response(200, "")]);
    assert_eq!(actions[1], failed(GatewayError::NoTokenInResponse { body: String::new() }));
}

#[test]
fn pairing_that_cannot_be_sent_fails() {
    let mut client = GatewayClient::new(config("http://gw", None));
    let exchange = client.pair_only("code");
    let report = Report::Unreachable { detail: "no route".to_string() };
    let actions = drive(&mut client, exchange, vec![report]);
    assert_eq!(actions[1], failed(GatewayError::NetworkError { detail: "no route".to_string() }));
}

#[test]
fn token_that_cannot_be_stored_is_not_cached() {
    let mut client = client_with_token("http://gw", "old");
    let exchange = client.pair_only("code");
    let actions = drive(
        &mut client,
        exchange,
        vec![response(200, "new"), Report::StoreFailed { detail: "disk full".to_string() }],
    );
    assert_eq!(
        actions[2],
        failed(GatewayError::PersistenceFailed { detail: "disk full".to_string() })
    );
    assert_eq!(client.cached_token(), Some("old"));
}

#[test]
fn report_that_answers_nothing_changes_nothing() {
    let mut client = GatewayClient::new(config("http://gw", None));
    let exchange = client.send_message("hello", Some("code"));
    let exchange = client.advance(exchange, Report::Stored);
    assert_eq!(client.action(&exchange), Action::ReadToken);
    let exchange = client.advance(exchange, response(200, "tok"));
    assert_eq!(client.action(&exchange), Action::ReadToken);
    let exchange = client.advance(exchange, Report::TokenFile(None));
    let exchange = client.advance(exchange, Report::TokenFile(Some("tok".to_string())));
    assert_eq!(client.action(&exchange), pair("http://gw/pair", "code"));
    let exchange = client.advance(exchange, response(200, "tok"));
    let exchange = client.advance(exchange, response(200, "other"));
    assert_eq!(client.action(&exchange), store("tok\n"));
    assert_eq!(client.cached_token(), None);
}

#[test]
fn finished_exchange_stays_finished() {
    let mut client = GatewayClient::new(config("http://gw", None));
    let exchange = client.send_message("hello", None);
    let exchange = client.advance(exchange, Report::TokenFile(None));
    assert!(exchange.is_finished());
    let exchange = client.advance(exchange, Report::TokenFile(Some("tok".to_string())));
    assert_eq!(client.action(&exchange), failed(GatewayError::NoTokenAvailable));
    assert_eq!(client.cached_token(), None);
}

#[test]
fn every_exchange_ends_within_seven_reports() {
    let scripts: Vec<Vec<Report>> = vec![
        vec![
            Report::TokenFile(None),
            response(200, "one"),
            Report::Stored,
            response(401, ""),
            response(200, "two"),
            Report::Stored,
            response(401, ""),
        ],
        vec![Report::TokenFile(Some("t".to_string())), response(401, "")],
        vec![Report::TokenFile(None), response(500, "")],
    ];
    for script in scripts {
        let mut client = GatewayClient::new(config("http://gw", None));
        let exchange = client.send_message("hello", Some("code"));
        let given = script.len();
        let actions = drive(&mut client, exchange, script);
        assert!(given <= 7);
        assert!(matches!(actions.last(), Some(Action::Finish(_)) | Some(Action::Pair { .. })));
    }
}
