//! JSON values as plain data.
use vstd::prelude::*;
use crate::text::same_text;

verus! {

/// A JSON value. A number is kept as its text, an object as its members in order.
#[derive(Debug)]
pub enum Json {
    Null,
    Bool(bool),
    Number(String),
    Text(String),
    Array(Vec<Json>),
    Object(Vec<(String, Json)>),
}

/// What a JSON value says.
pub enum JsonView {
    Null,
    Bool(bool),
    Number(Seq<char>),
    Text(Seq<char>),
    Array(Seq<JsonView>),
    Object(Seq<(Seq<char>, JsonView)>),
}

/// What `j` says.
pub open spec fn json_view(j: Json) -> JsonView
    decreases j,
{
    match j {
        Json::Null => JsonView::Null,
        Json::Bool(b) => JsonView::Bool(b),
        Json::Number(n) => JsonView::Number(n@),
        Json::Text(s) => JsonView::Text(s@),
        Json::Array(v) => JsonView::Array(
            Seq::new(
                v@.len(),
                |i: int|
                    if 0 <= i < v@.len() {
                        json_view(v@[i])
                    } else {
                        JsonView::Null
                    },
            ),
        ),
        Json::Object(v) => JsonView::Object(
            Seq::new(
                v@.len(),
                |i: int|
                    if 0 <= i < v@.len() {
                        (v@[i].0@, json_view(v@[i].1))
                    } else {
                        (Seq::empty(), JsonView::Null)
                    },
            ),
        ),
    }
}

/// The views of a sequence of values.
pub open spec fn json_views(v: Seq<Json>) -> Seq<JsonView> {
    v.map_values(|j: Json| json_view(j))
}

/// The first member of the given name.
pub open spec fn member(members: Seq<(Seq<char>, JsonView)>, key: Seq<char>) -> Option<JsonView>
    decreases members.len(),
{
    if members.len() == 0 {
        None
    } else if members[0].0 == key {
        Some(members[0].1)
    } else {
        member(members.drop_first(), key)
    }
}

/// The member of an object of the given name; no other value has any.
pub open spec fn field(v: JsonView, key: Seq<char>) -> Option<JsonView> {
    match v {
        JsonView::Object(members) => member(members, key),
        _ => None,
    }
}

/// The text that a value is.
pub open spec fn text_of(v: Option<JsonView>) -> Option<Seq<char>> {
    match v {
        Some(JsonView::Text(s)) => Some(s),
        _ => None,
    }
}

/// The values of an array.
pub open spec fn array_of(v: Option<JsonView>) -> Option<Seq<JsonView>> {
    match v {
        Some(JsonView::Array(s)) => Some(s),
        _ => None,
    }
}

/// What an optional value says.
pub open spec fn opt_json_view(j: Option<Json>) -> Option<JsonView> {
    match j {
        Some(j) => Some(json_view(j)),
        None => None,
    }
}

impl Json {
    /// The member of an object of the given name.
    pub fn get(&self, key: &str) -> (r: Option<&Json>)
        ensures
            match r {
                Some(j) => field(json_view(*self), key@) == Some(json_view(*j)),
                None => field(json_view(*self), key@) is None,
            },
    {
        match self {
            Json::Object(v) => {
                let ghost members = json_view(*self)->Object_0;
                let mut i: usize = 0;
                assert(members.skip(0) =~= members);
                while i < v.len()
                    invariant
                        i <= v@.len(),
                        json_view(*self) == JsonView::Object(members),
                        members.len() == v@.len(),
                        forall|k: int|
                            0 <= k < members.len() ==> #[trigger] members[k] == (
                                v@[k].0@,
                                json_view(v@[k].1),
                            ),
                        member(members, key@) == member(members.skip(i as int), key@),
                    decreases v@.len() - i,
                {
                    assert(members.skip(i as int)[0] == members[i as int]);
                    if same_text(v[i].0.as_str(), key) {
                        return Some(&v[i].1);
                    }
                    assert(members.skip(i as int).drop_first() =~= members.skip(i + 1));
                    i += 1;
                }
                None
            },
            _ => None,
        }
    }

    /// The text that the value is.
    pub fn as_str(&self) -> (r: Option<&String>)
        ensures
            match r {
                Some(s) => text_of(Some(json_view(*self))) == Some(s@),
                None => text_of(Some(json_view(*self))) is None,
            },
    {
        match self {
            Json::Text(s) => Some(s),
            _ => None,
        }
    }

    /// The values of the array.
    pub fn as_array(&self) -> (r: Option<&Vec<Json>>)
        ensures
            match r {
                Some(v) => array_of(Some(json_view(*self))) == Some(json_views(v@)),
                None => array_of(Some(json_view(*self))) is None,
            },
    {
        match self {
            Json::Array(v) => {
                assert(json_view(*self)->Array_0 =~= json_views(v@));
                Some(v)
            },
            _ => None,
        }
    }

    /// The text of the member of the given name.
    pub fn text_field(&self, key: &str) -> (r: Option<&String>)
        ensures
            match r {
                Some(s) => text_of(field(json_view(*self), key@)) == Some(s@),
                None => text_of(field(json_view(*self), key@)) is None,
            },
    {
        match self.get(key) {
            Some(j) => j.as_str(),
            None => None,
        }
    }
}

/// What a text says as JSON; nothing where it is no JSON.
pub uninterp spec fn json_of_text(s: Seq<char>) -> Option<JsonView>;

/// A JSON value of `serde_json`, which this library only takes apart.
#[verifier::external_type_specification]
#[verifier::external_body]
pub struct ExValue(serde_json::Value);

/// What a JSON value of `serde_json` holds.
pub uninterp spec fn value_view(v: serde_json::Value) -> JsonView;

/// The variants of `serde_json::Value` as plain data: each value is the variant of the same kind
/// with the same content, a number is its text, and the members of an object come in the order in
/// which `serde_json` keeps them.
#[verifier::external_body]
fn plain(v: serde_json::Value) -> (r: Json)
    ensures
        json_view(r) == value_view(v),
{
    match v {
        serde_json::Value::Null => Json::Null,
        serde_json::Value::Bool(b) => Json::Bool(b),
        serde_json::Value::Number(n) => Json::Number(n.to_string()),
        serde_json::Value::String(s) => Json::Text(s),
        serde_json::Value::Array(a) => Json::Array(a.into_iter().map(plain).collect()),
        serde_json::Value::Object(o) => Json::Object(
            o.into_iter().map(|(k, v)| (k, plain(v))).collect(),
        ),
    }
}

/// `serde_json::from_str` into a `serde_json::Value`: what the text says as JSON, or nothing
/// where it is no JSON.
#[verifier::external_body]
fn value_of_text(s: &str) -> (r: Option<serde_json::Value>)
    ensures
        match r {
            Some(v) => json_of_text(s@) == Some(value_view(v)),
            None => json_of_text(s@) is None,
        },
{
    serde_json::from_str::<serde_json::Value>(s).ok()
}

/// What the text says as JSON, or nothing where it is no JSON.
pub(crate) fn parse_json(s: &str) -> (r: Option<Json>)
    ensures
        opt_json_view(r) == json_of_text(s@),
{
    match value_of_text(s) {
        Some(v) => Some(plain(v)),
        None => None,
    }
}

} // verus!
