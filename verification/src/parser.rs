//! The response parser: finds a token or a reply in a response body that is
//! plain text or JSON in one of several shapes.

use crate::json::{
    find_str_key, first_text, json_parse, keys_view, lemma_member_order_irrelevant, parse_json,
    parsed_view, distinct_keys, JsonDoc, JsonDocView, MemberView,
};
use crate::text::{
    contains_whitespace, has_whitespace, is_blank, is_blank_text,
    lemma_trimmed_without_whitespace, trim, trimmed,
};
use vstd::prelude::*;

verus! {

/// The keys under which a token is looked for, first choice first.
pub open spec fn token_keys() -> Seq<Seq<char>> {
    seq!["token"@, "bearer_token"@, "access_token"@, "auth_token"@]
}

/// The keys under which a reply is looked for, first choice first.
pub open spec fn reply_keys() -> Seq<Seq<char>> {
    seq!["reply"@, "response"@, "message"@, "text"@]
}

/// A token is text that is not empty once trimmed.
pub open spec fn is_token(text: Seq<char>) -> bool {
    !is_blank(text)
}

/// A string counts as a token candidate only where it is not blank: a
/// blank one is treated as absent.
pub open spec fn usable(text: Option<Seq<char>>) -> Option<Seq<char>> {
    match text {
        Some(t) => if is_blank(t) {
            None
        } else {
            Some(t)
        },
        None => None,
    }
}

/// The string under the first key of `keys`, in their order, under which
/// `doc` has a string that is not blank.
pub open spec fn first_token_text(doc: JsonDocView, keys: Seq<Seq<char>>) -> Option<Seq<char>>
    decreases keys.len(),
{
    if keys.len() == 0 {
        None
    } else {
        match usable(doc.member_text(keys[0])) {
            Some(t) => Some(t),
            None => first_token_text(doc, keys.drop_first()),
        }
    }
}

/// The token that a JSON document holds: the string under the first token
/// key that has one, else the document itself where it is one string.
pub open spec fn document_token(doc: JsonDocView) -> Option<Seq<char>> {
    match first_token_text(doc, token_keys()) {
        Some(t) => Some(t),
        None => usable(doc.bare_text()),
    }
}

/// The token in the trimmed body `text`, of which the JSON parser made
/// `doc`. A token that the document holds wins. Without one the text itself
/// is the token, unless it is empty or holds whitespace.
pub open spec fn selected_token(text: Seq<char>, doc: Option<JsonDocView>) -> Option<Seq<char>> {
    let held = match doc {
        Some(d) => document_token(d),
        None => None,
    };
    match held {
        Some(t) => Some(t),
        None => if text.len() == 0 || has_whitespace(text) {
            None
        } else {
            Some(text)
        },
    }
}

/// The token in a response body.
pub open spec fn token_in(body: Seq<char>) -> Option<Seq<char>> {
    let text = trimmed(body);
    if text.len() == 0 {
        None
    } else {
        selected_token(text, json_parse(text))
    }
}

/// The reply in the trimmed body `text`, of which the JSON parser made
/// `doc`: the string under the first reply key that has one, else the text.
pub open spec fn selected_reply(text: Seq<char>, doc: Option<JsonDocView>) -> Seq<char> {
    match doc {
        Some(d) => match first_text(d, reply_keys()) {
            Some(r) => r,
            None => text,
        },
        None => text,
    }
}

/// The reply in a response body.
pub open spec fn reply_in(body: Seq<char>) -> Seq<char> {
    let text = trimmed(body);
    if text.len() == 0 {
        text
    } else {
        selected_reply(text, json_parse(text))
    }
}

/// The view of an optional string.
pub open spec fn text_view(text: Option<String>) -> Option<Seq<char>> {
    match text {
        Some(t) => Some(t@),
        None => None,
    }
}

/// The token that the document holds.
pub fn find_token<'a>(doc: &'a JsonDoc) -> (found: Option<&'a str>)
    ensures
        match found {
            Some(t) => document_token(doc@) == Some(t@),
            None => document_token(doc@) is None,
        },
{
    let keys: [&str; 4] = ["token", "bearer_token", "access_token", "auth_token"];
    let ghost all = token_keys();
    assert(keys_view(keys@) =~= all);
    assert(all.skip(0) =~= all);
    let mut i: usize = 0;
    while i < 4
        invariant
            0 <= i <= 4,
            all == token_keys(),
            keys_view(keys@) == all,
            first_token_text(doc@, all) == first_token_text(doc@, all.skip(i as int)),
        decreases 4 - i,
    {
        proof {
            let rest = all.skip(i as int);
            assert(rest[0] == keys[i as int]@);
            assert(rest.drop_first() =~= all.skip(i + 1));
        }
        match doc.member_text(keys[i]) {
            Some(t) => {
                if !is_blank_text(t) {
                    return Some(t);
                }
            },
            None => {},
        }
        i += 1;
    }
    match doc.bare_text() {
        Some(t) => if is_blank_text(t) {
            None
        } else {
            Some(t)
        },
        None => None,
    }
}

/// The token in the trimmed body `text`, given what the JSON parser made
/// of that text.
pub fn select_token(text: &str, doc: &Option<JsonDoc>) -> (token: Option<String>)
    ensures
        text_view(token) == selected_token(text@, parsed_view(*doc)),
        token matches Some(t) ==> is_token(t@),
{
    match doc {
        Some(d) => {
            match find_token(d) {
                Some(t) => {
                    proof {
                        lemma_selected_token_is_never_blank(text@, parsed_view(*doc));
                    }
                    return Some(t.to_owned());
                },
                None => {},
            }
        },
        None => {},
    }
    if text.is_empty() || contains_whitespace(text) {
        None
    } else {
        proof {
            lemma_trimmed_without_whitespace(text@);
        }
        Some(text.to_owned())
    }
}

/// Finds the token in a response body. An empty body holds none. A body
/// that parses as JSON gives the string under the first of the keys `token`,
/// `bearer_token`, `access_token`, `auth_token` that has one, or the
/// document itself where it is one string; a blank string counts as absent.
/// Any other body is itself the token, unless it holds whitespace.
pub fn extract_token(body: &str) -> (token: Option<String>)
    ensures
        text_view(token) == token_in(body@),
        token matches Some(t) ==> is_token(t@),
{
    let text = trim(body);
    if text.is_empty() {
        return None;
    }
    let doc = parse_json(text);
    select_token(text, &doc)
}

/// The reply in the trimmed body `text`, given what the JSON parser made
/// of that text.
pub fn select_reply(text: &str, doc: &Option<JsonDoc>) -> (reply: String)
    ensures
        reply@ == selected_reply(text@, parsed_view(*doc)),
{
    let keys: [&str; 4] = ["reply", "response", "message", "text"];
    assert(keys_view(keys@) =~= reply_keys());
    match doc {
        Some(d) => {
            match find_str_key(d, keys.as_slice()) {
                Some(r) => {
                    return r.to_owned();
                },
                None => {},
            }
        },
        None => {},
    }
    text.to_owned()
}

/// Finds the reply in a response body. An empty body gives the empty
/// reply. A body that parses as JSON gives the string under the first of
/// the keys `reply`, `response`, `message`, `text` that has one. Any other
/// body is itself the reply, trimmed.
pub fn extract_reply(body: &str) -> (reply: String)
    ensures
        reply@ == reply_in(body@),
{
    let text = trim(body);
    if text.is_empty() {
        return String::new();
    }
    let doc = parse_json(text);
    select_reply(text, &doc)
}

/// A token that the parser hands out is never blank.
pub proof fn lemma_token_is_never_blank(body: Seq<char>)
    ensures
        token_in(body) matches Some(t) ==> is_token(t),
{
    let text = trimmed(body);
    if text.len() > 0 {
        lemma_selected_token_is_never_blank(text, json_parse(text));
    }
}

/// A token that is selected from a trimmed body is never blank.
pub proof fn lemma_selected_token_is_never_blank(text: Seq<char>, doc: Option<JsonDocView>)
    ensures
        selected_token(text, doc) matches Some(t) ==> is_token(t),
{
    if let Some(d) = doc {
        lemma_first_token_text_usable(d, token_keys());
    }
    if text.len() > 0 && !has_whitespace(text) {
        lemma_trimmed_without_whitespace(text);
    }
}

/// What `first_token_text` finds is not blank.
pub proof fn lemma_first_token_text_usable(doc: JsonDocView, keys: Seq<Seq<char>>)
    ensures
        first_token_text(doc, keys) matches Some(t) ==> !is_blank(t),
    decreases keys.len(),
{
    if keys.len() > 0 {
        lemma_first_token_text_usable(doc, keys.drop_first());
    }
}

/// Text without whitespace, in which the JSON parser finds no token, is
/// itself the token that the parser returns.
pub proof fn lemma_raw_token_is_returned(token: Seq<char>)
    requires
        token.len() > 0,
        !has_whitespace(token),
        json_parse(token) matches Some(d) ==> document_token(d) is None,
    ensures
        token_in(token) == Some(token),
{
    lemma_trimmed_without_whitespace(token);
}

/// A body that is not JSON and that holds whitespace between its first and
/// its last visible character holds no token.
pub proof fn lemma_text_with_inner_whitespace_is_no_token(body: Seq<char>)
    requires
        has_whitespace(trimmed(body)),
        json_parse(trimmed(body)) is None,
    ensures
        token_in(body) is None,
{
}

/// A body that does not parse as JSON is itself the reply, trimmed.
pub proof fn lemma_plain_text_is_the_reply(body: Seq<char>)
    requires
        json_parse(trimmed(body)) is None,
    ensures
        reply_in(body) == trimmed(body),
{
}

/// The token of a document is the string under the first token key that
/// has a string which is not blank, whatever the later keys hold.
pub proof fn lemma_token_is_first_match(doc: JsonDocView, i: int)
    requires
        0 <= i < token_keys().len(),
        usable(doc.member_text(token_keys()[i])) is Some,
        forall|j: int| 0 <= j < i ==> usable(doc.member_text(#[trigger] token_keys()[j])) is None,
    ensures
        document_token(doc) == doc.member_text(token_keys()[i]),
{
    lemma_first_token_text_is_first_match(doc, token_keys(), i);
}

/// Where a body parses as a JSON document, the token of the body is the
/// string under the first token key under which the document has a string
/// that is not blank, whatever else the document and the body hold.
pub proof fn lemma_extracted_token_is_first_match(body: Seq<char>, doc: JsonDocView, i: int)
    requires
        trimmed(body).len() > 0,
        json_parse(trimmed(body)) == Some(doc),
        0 <= i < token_keys().len(),
        usable(doc.member_text(token_keys()[i])) is Some,
        forall|j: int| 0 <= j < i ==> usable(doc.member_text(#[trigger] token_keys()[j])) is None,
    ensures
        token_in(body) == doc.member_text(token_keys()[i]),
{
    lemma_token_is_first_match(doc, i);
}

/// Where `keys[i]` is the first of `keys` under which `doc` has a string
/// that is not blank, `first_token_text` is that string.
pub proof fn lemma_first_token_text_is_first_match(
    doc: JsonDocView,
    keys: Seq<Seq<char>>,
    i: int,
)
    requires
        0 <= i < keys.len(),
        usable(doc.member_text(keys[i])) is Some,
        forall|j: int| 0 <= j < i ==> usable(doc.member_text(#[trigger] keys[j])) is None,
    ensures
        first_token_text(doc, keys) == doc.member_text(keys[i]),
    decreases i,
{
    if i > 0 {
        let rest = keys.drop_first();
        assert forall|j: int| 0 <= j < i - 1 implies usable(doc.member_text(#[trigger] rest[j]))
            is None by {
            assert(rest[j] == keys[j + 1]);
        }
        assert(rest[i - 1] == keys[i]);
        assert(usable(doc.member_text(keys[0])) is None);
        lemma_first_token_text_is_first_match(doc, rest, i - 1);
    }
}

/// The order of an object's members does not change its token: two objects
/// with pairwise different keys that hold the same members hold the same
/// token.
pub proof fn lemma_token_order_irrelevant(a: Seq<MemberView>, b: Seq<MemberView>)
    requires
        distinct_keys(a),
        distinct_keys(b),
        forall|m: MemberView| a.contains(m) <==> b.contains(m),
    ensures
        document_token(JsonDocView::Object(a)) == document_token(JsonDocView::Object(b)),
{
    lemma_first_token_text_order_irrelevant(a, b, token_keys());
}

proof fn lemma_first_token_text_order_irrelevant(
    a: Seq<MemberView>,
    b: Seq<MemberView>,
    keys: Seq<Seq<char>>,
)
    requires
        distinct_keys(a),
        distinct_keys(b),
        forall|m: MemberView| a.contains(m) <==> b.contains(m),
    ensures
        first_token_text(JsonDocView::Object(a), keys) == first_token_text(
            JsonDocView::Object(b),
            keys,
        ),
    decreases keys.len(),
{
    if keys.len() > 0 {
        lemma_member_order_irrelevant(a, b, keys[0]);
        lemma_first_token_text_order_irrelevant(a, b, keys.drop_first());
    }
}

} // verus!
