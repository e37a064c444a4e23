use pixie::protocol::{GatewayError, Outcome};
use pixie::web::{
    chat_failed, message_of, pairing_code_of, pairing_failed, required_field, ApiError,
    BAD_GATEWAY, BAD_REQUEST,
};

#[test]
fn pairing_code_is_trimmed() {
    assert_eq!(pairing_code_of(" 123456 \n"), Ok("123456".to_string()));
    assert_eq!(pairing_code_of("123 456"), Ok("123 456".to_string()));
}

#[test]
fn pairing_code_is_required() {
    let refusal = ApiError::BadRequest { error: "pairing_code is required".to_string() };
    assert_eq!(pairing_code_of(""), Err(refusal.clone()));
    assert_eq!(pairing_code_of(" \t\n"), Err(refusal.clone()));
    assert_eq!(refusal.status(), 400);
}

#[test]
fn message_is_trimmed() {
    assert_eq!(message_of("  hello there  "), Ok("hello there".to_string()));
}

#[test]
fn message_is_required() {
    let refusal = ApiError::BadRequest { error: "message is required".to_string() };
    assert_eq!(message_of(""), Err(refusal.clone()));
    assert_eq!(message_of("\u{3000}"), Err(refusal));
}

#[test]
fn required_field_names_the_field() {
    assert_eq!(
        required_field("name", "  "),
        Err(ApiError::BadRequest { error: "name is required".to_string() })
    );
    assert_eq!(required_field("name", " x "), Ok("x".to_string()));
}

#[test]
fn gateway_failures_are_bad_gateway() {
    let pairing = pairing_failed("no token");
    assert_eq!(pairing, ApiError::BadGateway { error: "Pairing failed: no token".to_string() });
    assert_eq!(pairing.status(), 502);
    let chat = chat_failed("no token");
    assert_eq!(
        chat,
        ApiError::BadGateway { error: "Gateway request failed: no token".to_string() }
    );
    assert_eq!(chat.status(), BAD_GATEWAY);
    assert_eq!(BAD_REQUEST, 400);
    assert_eq!(BAD_GATEWAY, 502);
}

#[test]
fn outcome_is_a_result() {
    assert_eq!(Outcome::Paired.into_result(), Ok(String::new()));
    assert_eq!(Outcome::Reply("hi".to_string()).into_result(), Ok("hi".to_string()));
    assert_eq!(
        Outcome::Failed(GatewayError::ReauthRequired).into_result(),
        Err(GatewayError::ReauthRequired)
    );
    let error = GatewayError::SendFailed { status: 500, body: "boom".to_string() };
    assert_eq!(error.duplicate(), error);
    let outcome = Outcome::Failed(error);
    assert_eq!(outcome.duplicate(), outcome);
}
