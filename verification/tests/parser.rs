use pixie::json::{find_str_key, JsonDoc, Member};
use pixie::parser::{extract_reply, extract_token, find_token, select_reply, select_token};

fn member(key: &str, text: Option<&str>) -> Member {
    Member { key: key.to_string(), text: text.map(|t| t.to_string()) }
}

#[test]
fn extracts_token_from_known_json_key() {
    assert_eq!(
        extract_token(r#"{"token":"abc123"}"#).as_deref(),
        Some("abc123")
    );
}

#[test]
fn extracts_reply_from_json() {
    assert_eq!(
        extract_reply(r#"{"reply":"hello from zeroclaw"}"#),
        "hello from zeroclaw"
    );
}

#[test]
fn raw_token_is_returned_as_it_is() {
    assert_eq!(extract_token("abc123").as_deref(), Some("abc123"));
    assert_eq!(extract_token("tok_9f8e-7d.6c").as_deref(), Some("tok_9f8e-7d.6c"));
}

#[test]
fn raw_token_is_trimmed() {
    assert_eq!(extract_token("  abc123\r\n").as_deref(), Some("abc123"));
}

#[test]
fn text_with_inner_whitespace_is_no_token() {
    assert_eq!(extract_token("invalid pairing code"), None);
    assert_eq!(extract_token("<html> <body>denied</body> </html>"), None);
    assert_eq!(extract_token("  two words  "), None);
}

#[test]
fn empty_body_holds_no_token() {
    assert_eq!(extract_token(""), None);
    assert_eq!(extract_token("   \n\t"), None);
}

#[test]
fn first_token_key_wins_whatever_the_field_order() {
    assert_eq!(
        extract_token(r#"{"access_token":"second","token":"first"}"#).as_deref(),
        Some("first")
    );
    assert_eq!(
        extract_token(r#"{"token":"first","access_token":"second"}"#).as_deref(),
        Some("first")
    );
    assert_eq!(
        extract_token(r#"{"auth_token":"d","access_token":"c","bearer_token":"b"}"#).as_deref(),
        Some("b")
    );
    assert_eq!(
        extract_token(r#"{"auth_token":"d","access_token":"c"}"#).as_deref(),
        Some("c")
    );
    assert_eq!(extract_token(r#"{"auth_token":"d"}"#).as_deref(), Some("d"));
}

#[test]
fn token_key_with_another_kind_of_value_is_passed_over() {
    assert_eq!(
        extract_token(r#"{"token":42,"bearer_token":"b"}"#).as_deref(),
        Some("b")
    );
    assert_eq!(
        extract_token(r#"{"token":null,"auth_token":"d"}"#).as_deref(),
        Some("d")
    );
}

#[test]
fn bare_json_string_is_the_token() {
    assert_eq!(extract_token(r#""abc123""#).as_deref(), Some("abc123"));
    assert_eq!(extract_token(r#""two words""#).as_deref(), Some("two words"));
}

#[test]
fn blank_token_value_counts_as_absent() {
    assert_eq!(
        extract_token(r#"{"token":"","access_token":"real"}"#).as_deref(),
        Some("real")
    );
    assert_eq!(
        extract_token(r#"{"token":"   ","auth_token":"real"}"#).as_deref(),
        Some("real")
    );
    assert_eq!(extract_token(r#"{"token": ""}"#), None);
    assert_eq!(extract_token(r#"" ""#), None);
}

#[test]
fn json_without_a_token_is_judged_as_text() {
    assert_eq!(extract_token("12345").as_deref(), Some("12345"));
    assert_eq!(
        extract_token(r#"{"error":"denied"}"#).as_deref(),
        Some(r#"{"error":"denied"}"#)
    );
    assert_eq!(extract_token(r#"{"error": "denied"}"#), None);
    assert_eq!(extract_token("[1, 2]"), None);
}

#[test]
fn token_is_never_blank() {
    for body in ["", " ", r#"{"token":""}"#, r#""""#, "abc", r#"{"token":" x "}"#, "a b"] {
        if let Some(token) = extract_token(body) {
            assert!(!token.trim().is_empty(), "{body:?}");
        }
    }
    assert_eq!(extract_token(r#"{"token":" x "}"#).as_deref(), Some(" x "));
}

#[test]
fn plain_text_reply_round_trips_trimmed() {
    assert_eq!(extract_reply("hello there"), "hello there");
    assert_eq!(extract_reply("  hello there \n"), "hello there");
    assert_eq!(extract_reply("<p>not json</p>"), "<p>not json</p>");
}

#[test]
fn empty_body_gives_the_empty_reply() {
    assert_eq!(extract_reply(""), "");
    assert_eq!(extract_reply(" \n "), "");
}

#[test]
fn first_reply_key_wins_whatever_the_field_order() {
    assert_eq!(extract_reply(r#"{"text":"d","message":"c","response":"b","reply":"a"}"#), "a");
    assert_eq!(extract_reply(r#"{"text":"d","message":"c","response":"b"}"#), "b");
    assert_eq!(extract_reply(r#"{"text":"d","message":"c"}"#), "c");
    assert_eq!(extract_reply(r#"{"text":"d"}"#), "d");
    assert_eq!(extract_reply(r#"{"reply":7,"text":"d"}"#), "d");
}

#[test]
fn json_without_a_reply_is_returned_as_text() {
    assert_eq!(extract_reply(r#" {"status":"ok"} "#), r#"{"status":"ok"}"#);
    assert_eq!(extract_reply(r#""just a string""#), r#""just a string""#);
    assert_eq!(extract_reply("42"), "42");
}

#[test]
fn empty_reply_value_is_a_reply() {
    assert_eq!(extract_reply(r#"{"reply":""}"#), "");
}

#[test]
fn find_str_key_tries_the_keys_in_their_order() {
    let doc = JsonDoc::Object(vec![
        member("b", Some("second")),
        member("a", Some("first")),
        member("c", None),
    ]);
    assert_eq!(find_str_key(&doc, &["a", "b"]), Some("first"));
    assert_eq!(find_str_key(&doc, &["b", "a"]), Some("second"));
    assert_eq!(find_str_key(&doc, &["c", "b"]), Some("second"));
    assert_eq!(find_str_key(&doc, &["c", "d"]), None);
    assert_eq!(find_str_key(&doc, &[]), None);
    assert_eq!(find_str_key(&JsonDoc::Text("a".to_string()), &["a"]), None);
    assert_eq!(find_str_key(&JsonDoc::Other, &["a"]), None);
}

#[test]
fn member_text_reads_one_member() {
    let doc = JsonDoc::Object(vec![member("token", Some("t")), member("count", None)]);
    assert_eq!(doc.member_text("token"), Some("t"));
    assert_eq!(doc.member_text("count"), None);
    assert_eq!(doc.member_text("toke"), None);
    assert_eq!(doc.member_text("tokens"), None);
    assert_eq!(doc.bare_text(), None);
    assert_eq!(JsonDoc::Text("x".to_string()).bare_text(), Some("x"));
}

#[test]
fn find_token_prefers_keys_to_the_bare_string() {
    let object = JsonDoc::Object(vec![
        member("access_token", Some("second")),
        member("token", Some("first")),
    ]);
    assert_eq!(find_token(&object), Some("first"));
    let swapped = JsonDoc::Object(vec![
        member("token", Some("first")),
        member("access_token", Some("second")),
    ]);
    assert_eq!(find_token(&swapped), Some("first"));
    assert_eq!(find_token(&JsonDoc::Text("bare".to_string())), Some("bare"));
    assert_eq!(find_token(&JsonDoc::Text("  ".to_string())), None);
    assert_eq!(find_token(&JsonDoc::Other), None);
}

#[test]
fn select_token_falls_back_to_the_text() {
    let no_token = Some(JsonDoc::Object(vec![member("error", Some("denied"))]));
    assert_eq!(select_token("raw", &no_token).as_deref(), Some("raw"));
    assert_eq!(select_token("raw text", &no_token), None);
    assert_eq!(select_token("", &None), None);
    assert_eq!(select_token("raw", &None).as_deref(), Some("raw"));
    let held = Some(JsonDoc::Object(vec![member("bearer_token", Some("b"))]));
    assert_eq!(select_token("raw text", &held).as_deref(), Some("b"));
}

#[test]
fn select_reply_falls_back_to_the_text() {
    let held = Some(JsonDoc::Object(vec![member("message", Some("m"))]));
    assert_eq!(select_reply("raw text", &held), "m");
    assert_eq!(select_reply("raw text", &Some(JsonDoc::Other)), "raw text");
    assert_eq!(select_reply("raw text", &None), "raw text");
}
