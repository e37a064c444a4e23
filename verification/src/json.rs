//! The part of a JSON document that the response parser reads: a bare
//! string, or the members of an object with their string values.

use vstd::prelude::*;

verus! {

/// One member of a JSON object. `text` is the member's value where that
/// value is a string, and `None` for a value of any other kind.
#[derive(Debug, Clone, PartialEq, Eq)]
pub struct Member {
    pub key: String,
    pub text: Option<String>,
}

/// A parsed JSON document, as far as the response parser reads it.
#[derive(Debug, Clone, PartialEq, Eq)]
pub enum JsonDoc {
    /// A document that is one string.
    Text(String),
    /// A document that is one object.
    Object(Vec<Member>),
    /// Any other document: null, a boolean, a number or an array.
    Other,
}

pub struct MemberView {
    pub key: Seq<char>,
    pub text: Option<Seq<char>>,
}

pub enum JsonDocView {
    Text(Seq<char>),
    Object(Seq<MemberView>),
    Other,
}

impl View for Member {
    type V = MemberView;

    open spec fn view(&self) -> MemberView {
        MemberView {
            key: self.key@,
            text: match self.text {
                Some(t) => Some(t@),
                None => None,
            },
        }
    }
}

impl View for JsonDoc {
    type V = JsonDocView;

    open spec fn view(&self) -> JsonDocView {
        match self {
            JsonDoc::Text(t) => JsonDocView::Text(t@),
            JsonDoc::Object(members) => JsonDocView::Object(members_view(members@)),
            JsonDoc::Other => JsonDocView::Other,
        }
    }
}

pub open spec fn members_view(members: Seq<Member>) -> Seq<MemberView> {
    Seq::new(members.len(), |i: int| members[i]@)
}

/// The view of what a parse attempt gave.
pub open spec fn parsed_view(doc: Option<JsonDoc>) -> Option<JsonDocView> {
    match doc {
        Some(d) => Some(d@),
        None => None,
    }
}

/// The view of a list of keys.
pub open spec fn keys_view(keys: Seq<&str>) -> Seq<Seq<char>> {
    Seq::new(keys.len(), |i: int| keys[i]@)
}

/// The string value of the first member of `members` whose key is `key`.
pub open spec fn lookup(members: Seq<MemberView>, key: Seq<char>) -> Option<Seq<char>>
    decreases members.len(),
{
    if members.len() == 0 {
        None
    } else if members[0].key == key {
        members[0].text
    } else {
        lookup(members.drop_first(), key)
    }
}

/// No two members of `members` have the same key.
pub open spec fn distinct_keys(members: Seq<MemberView>) -> bool {
    forall|i: int, j: int|
        0 <= i < j < members.len() ==> (#[trigger] members[i]).key != (#[trigger] members[j]).key
}

impl JsonDocView {
    /// The string value of member `key`, where the document is an object
    /// that has such a member and its value is a string.
    pub open spec fn member_text(self, key: Seq<char>) -> Option<Seq<char>> {
        match self {
            JsonDocView::Object(members) => lookup(members, key),
            _ => None,
        }
    }

    /// The document's text, where it is one string.
    pub open spec fn bare_text(self) -> Option<Seq<char>> {
        match self {
            JsonDocView::Text(t) => Some(t),
            _ => None,
        }
    }

    /// An object's members have pairwise different keys.
    pub open spec fn well_formed(self) -> bool {
        match self {
            JsonDocView::Object(members) => distinct_keys(members),
            _ => true,
        }
    }
}

/// The string value of the first key of `keys`, in their order, under which
/// `doc` has a string.
pub open spec fn first_text(doc: JsonDocView, keys: Seq<Seq<char>>) -> Option<Seq<char>>
    decreases keys.len(),
{
    if keys.len() == 0 {
        None
    } else {
        match doc.member_text(keys[0]) {
            Some(t) => Some(t),
            None => first_text(doc, keys.drop_first()),
        }
    }
}

/// What `serde_json::from_str::<serde_json::Value>` makes of `text`: `None`
/// where it reports an error, else the document that it returns.
pub uninterp spec fn json_parse(text: Seq<char>) -> Option<JsonDocView>;

/// `serde_json::from_str::<serde_json::Value>`. An error becomes `None`. A
/// string value becomes `Text`, an object becomes `Object` with one `Member`
/// for each entry of its map, in the order in which the map hands them out,
/// and every other value becomes `Other`. The map holds each key once.
#[verifier::external_body]
pub(crate) fn parse_json(text: &str) -> (doc: Option<JsonDoc>)
    ensures
        parsed_view(doc) == json_parse(text@),
        doc matches Some(d) ==> d@.well_formed(),
{
    match serde_json::from_str::<serde_json::Value>(text) {
        Ok(serde_json::Value::String(s)) => Some(JsonDoc::Text(s)),
        Ok(serde_json::Value::Object(map)) => Some(JsonDoc::Object(
            map.into_iter().map(|(key, value)| Member {
                key,
                text: match value { serde_json::Value::String(s) => Some(s), _ => None },
            }).collect(),
        )),
        Ok(_) => Some(JsonDoc::Other),
        Err(_) => None,
    }
}

impl JsonDoc {
    /// The string value of member `key`.
    pub fn member_text<'a>(&'a self, key: &str) -> (text: Option<&'a str>)
        ensures
            match text {
                Some(t) => self@.member_text(key@) == Some(t@),
                None => self@.member_text(key@) is None,
            },
    {
        match self {
            JsonDoc::Object(members) => {
                let ghost all = members_view(members@);
                let wanted: String = key.to_owned();
                let mut i: usize = 0;
                assert(all.skip(0) =~= all);
                while i < members.len()
                    invariant
                        0 <= i <= members.len(),
                        all == members_view(members@),
                        wanted@ == key@,
                        self@.member_text(key@) == lookup(all, key@),
                        lookup(all, key@) == lookup(all.skip(i as int), key@),
                    decreases members.len() - i,
                {
                    let member = &members[i];
                    proof {
                        let rest = all.skip(i as int);
                        assert(rest[0] == member@);
                        assert(rest.drop_first() =~= all.skip(i + 1));
                    }
                    if member.key == wanted {
                        return match &member.text {
                            Some(t) => Some(t.as_str()),
                            None => None,
                        };
                    }
                    i += 1;
                }
                None
            },
            _ => None,
        }
    }

    /// The document's text, where it is one string.
    pub fn bare_text<'a>(&'a self) -> (text: Option<&'a str>)
        ensures
            match text {
                Some(t) => self@.bare_text() == Some(t@),
                None => self@.bare_text() is None,
            },
    {
        match self {
            JsonDoc::Text(t) => Some(t.as_str()),
            _ => None,
        }
    }
}

/// Tries `keys` in their order against `value` and returns the first string
/// found under one of them.
pub fn find_str_key<'a>(value: &'a JsonDoc, keys: &[&str]) -> (found: Option<&'a str>)
    ensures
        match found {
            Some(t) => first_text(value@, keys_view(keys@)) == Some(t@),
            None => first_text(value@, keys_view(keys@)) is None,
        },
{
    let ghost all = keys_view(keys@);
    let mut i: usize = 0;
    assert(all.skip(0) =~= all);
    while i < keys.len()
        invariant
            0 <= i <= keys.len(),
            all == keys_view(keys@),
            first_text(value@, all) == first_text(value@, all.skip(i as int)),
        decreases keys.len() - i,
    {
        proof {
            let rest = all.skip(i as int);
            assert(rest[0] == keys[i as int]@);
            assert(rest.drop_first() =~= all.skip(i + 1));
        }
        match value.member_text(keys[i]) {
            Some(t) => {
                return Some(t);
            },
            None => {},
        }
        i += 1;
    }
    None
}

/// Where `keys[i]` is the first of `keys` under which `doc` has a string,
/// `first_text` is that string, whatever the later keys hold.
pub proof fn lemma_first_text_is_first_match(doc: JsonDocView, keys: Seq<Seq<char>>, i: int)
    requires
        0 <= i < keys.len(),
        doc.member_text(keys[i]) is Some,
        forall|j: int| 0 <= j < i ==> doc.member_text(#[trigger] keys[j]) is None,
    ensures
        first_text(doc, keys) == doc.member_text(keys[i]),
    decreases i,
{
    if i > 0 {
        let rest = keys.drop_first();
        assert forall|j: int| 0 <= j < i - 1 implies doc.member_text(#[trigger] rest[j]) is None by {
            assert(rest[j] == keys[j + 1]);
        }
        assert(rest[i - 1] == keys[i]);
        lemma_first_text_is_first_match(doc, rest, i - 1);
    }
}

/// With pairwise different keys, `lookup` gives the value of the one member
/// that has the key, wherever it stands.
pub proof fn lemma_lookup_member(members: Seq<MemberView>, i: int)
    requires
        distinct_keys(members),
        0 <= i < members.len(),
    ensures
        lookup(members, members[i].key) == members[i].text,
    decreases members.len(),
{
    if i > 0 {
        let rest = members.drop_first();
        assert(members[0].key != members[i].key);
        assert(rest[i - 1] == members[i]);
        assert forall|a: int, b: int| 0 <= a < b < rest.len() implies (#[trigger] rest[a]).key != (
        #[trigger] rest[b]).key by {
            assert(rest[a] == members[a + 1]);
            assert(rest[b] == members[b + 1]);
        }
        lemma_lookup_member(rest, i - 1);
    }
}

/// Where no member has the key, `lookup` finds nothing.
pub proof fn lemma_lookup_absent(members: Seq<MemberView>, key: Seq<char>)
    requires
        forall|i: int| 0 <= i < members.len() ==> (#[trigger] members[i]).key != key,
    ensures
        lookup(members, key) is None,
    decreases members.len(),
{
    if members.len() > 0 {
        let rest = members.drop_first();
        assert(members[0].key != key);
        assert forall|i: int| 0 <= i < rest.len() implies (#[trigger] rest[i]).key != key by {
            assert(rest[i] == members[i + 1]);
        }
        lemma_lookup_absent(rest, key);
    }
}

/// The order of an object's members does not matter: two objects with
/// pairwise different keys that hold the same members give the same string
/// under every key.
pub proof fn lemma_member_order_irrelevant(a: Seq<MemberView>, b: Seq<MemberView>, key: Seq<char>)
    requires
        distinct_keys(a),
        distinct_keys(b),
        forall|m: MemberView| a.contains(m) <==> b.contains(m),
    ensures
        lookup(a, key) == lookup(b, key),
{
    if exists|i: int| 0 <= i < a.len() && (#[trigger] a[i]).key == key {
        let i = choose|i: int| 0 <= i < a.len() && (#[trigger] a[i]).key == key;
        lemma_lookup_member(a, i);
        assert(a.contains(a[i]));
        assert(b.contains(a[i]));
        let j = choose|j: int| 0 <= j < b.len() && b[j] == a[i];
        lemma_lookup_member(b, j);
    } else {
        lemma_lookup_absent(a, key);
        assert forall|j: int| 0 <= j < b.len() implies (#[trigger] b[j]).key != key by {
            assert(b.contains(b[j]));
            assert(a.contains(b[j]));
            let i = choose|i: int| 0 <= i < a.len() && a[i] == b[j];
            assert(a[i].key != key);
        }
        lemma_lookup_absent(b, key);
    }
}

/// The order of an object's members does not change which string
/// `first_text` finds.
pub proof fn lemma_first_text_order_irrelevant(
    a: Seq<MemberView>,
    b: Seq<MemberView>,
    keys: Seq<Seq<char>>,
)
    requires
        distinct_keys(a),
        distinct_keys(b),
        forall|m: MemberView| a.contains(m) <==> b.contains(m),
    ensures
        first_text(JsonDocView::Object(a), keys) == first_text(JsonDocView::Object(b), keys),
    decreases keys.len(),
{
    if keys.len() > 0 {
        lemma_member_order_irrelevant(a, b, keys[0]);
        lemma_first_text_order_irrelevant(a, b, keys.drop_first());
    }
}

} // verus!
