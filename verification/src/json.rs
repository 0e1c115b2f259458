//! A JSON tree the library's file formats are stated over, with the parsing
//! and rendering of its text form delegated to serde_json behind trusted
//! wrappers. All schema logic on the tree itself is verified.

use vstd::prelude::*;

verus! {

/// A parsed JSON value. Numbers are kept as the integer the text denotes;
/// a number that fits no integer form (a float) becomes `Other`, which no
/// schema of this library accepts.
#[derive(Debug)]
pub enum Json {
    Null,
    Bool(bool),
    UInt(u64),
    Int(i64),
    Str(String),
    Arr(Vec<Json>),
    Obj(Vec<(String, Json)>),
    Other,
}

/// The mathematical value of a [`Json`] tree.
pub ghost enum JsonV {
    Null,
    Bool(bool),
    UInt(u64),
    Int(i64),
    Str(Seq<char>),
    Arr(Seq<JsonV>),
    Obj(Seq<(Seq<char>, JsonV)>),
    Other,
}

/// The value of one parsed tree.
pub open spec fn jview(j: Json) -> JsonV
    decreases j,
{
    match j {
        Json::Null => JsonV::Null,
        Json::Bool(b) => JsonV::Bool(b),
        Json::UInt(u) => JsonV::UInt(u),
        Json::Int(i) => JsonV::Int(i),
        Json::Str(s) => JsonV::Str(s@),
        Json::Arr(a) => JsonV::Arr(
            Seq::new(
                a@.len(),
                |i: int|
                    if 0 <= i < a@.len() {
                        jview(a@[i])
                    } else {
                        JsonV::Null
                    },
            ),
        ),
        Json::Obj(o) => JsonV::Obj(
            Seq::new(
                o@.len(),
                |i: int|
                    if 0 <= i < o@.len() {
                        (o@[i].0@, jview(o@[i].1))
                    } else {
                        (Seq::empty(), JsonV::Null)
                    },
            ),
        ),
        Json::Other => JsonV::Other,
    }
}

/// The value of an object's field list.
pub open spec fn fields_view(fields: Seq<(String, Json)>) -> Seq<(Seq<char>, JsonV)> {
    fields.map_values(|p: (String, Json)| (p.0@, jview(p.1)))
}

/// The values of an array's elements.
pub open spec fn jviews(s: Seq<Json>) -> Seq<JsonV> {
    s.map_values(|x: Json| jview(x))
}

/// First field of an object under the given key, if any.
pub open spec fn jv_get(fields: Seq<(Seq<char>, JsonV)>, key: Seq<char>) -> Option<JsonV>
    decreases fields.len(),
{
    if fields.len() == 0 {
        None
    } else if fields[0].0 == key {
        Some(fields[0].1)
    } else {
        jv_get(fields.drop_first(), key)
    }
}

/// Look a key up in an object's field list; the first match wins.
pub fn obj_get<'a>(fields: &'a Vec<(String, Json)>, key: &String) -> (r: Option<&'a Json>)
    ensures
        (r is Some) == (jv_get(fields_view(fields@), key@) is Some),
        r matches Some(j) ==> jv_get(fields_view(fields@), key@) == Some(jview(*j)),
{
    let ghost fv = fields_view(fields@);
    let n = fields.len();
    proof {
        assert(fv.skip(0) =~= fv);
    }
    for i in 0..n
        invariant
            n == fields@.len(),
            fv == fields_view(fields@),
            fv.len() == n,
            jv_get(fv, key@) == jv_get(fv.skip(i as int), key@),
        decreases n - i,
    {
        let p = &fields[i];
        proof {
            assert(fv.skip(i as int).len() > 0);
            assert(fv.skip(i as int)[0] == fv[i as int]);
            assert(fv[i as int] == (fields@[i as int].0@, jview(fields@[i as int].1)));
        }
        if p.0.eq(key) {
            return Some(&p.1);
        }
        proof {
            assert(fv.skip(i as int).drop_first() =~= fv.skip(i + 1));
        }
    }
    proof {
        assert(fv.skip(n as int).len() == 0);
    }
    None
}

/// `serde_json::Value` is opaque to the verifier; values of it only pass
/// through the trusted bridges below.
#[verifier::external_type_specification]
#[verifier::external_body]
pub struct ExValue(serde_json::Value);

// What the text form of a JSON value is, and which values a text denotes,
// is serde_json's business; the two names below stand for its answers.

/// The value that serde_json reads from a text, `None` where the text is
/// not JSON. The result depends on the text alone.
pub uninterp spec fn json_of(s: Seq<char>) -> Option<JsonV>;

/// The text serde_json renders a value as. The result depends on the value
/// alone.
pub uninterp spec fn text_of(j: JsonV) -> Seq<char>;

/// Bridge between serde_json's tree and the library's: one arm per variant
/// of `serde_json::Value`, moving the fields. Serves [`parse_json_text`].
#[verifier::external_body]
fn value_to_json(v: serde_json::Value) -> Json {
    match v {
        serde_json::Value::Null => Json::Null,
        serde_json::Value::Bool(b) => Json::Bool(b),
        serde_json::Value::Number(n) => match (n.as_u64(), n.as_i64()) {
            (Some(u), _) => Json::UInt(u),
            (_, Some(i)) => Json::Int(i),
            _ => Json::Other,
        },
        serde_json::Value::String(s) => Json::Str(s),
        serde_json::Value::Array(a) => Json::Arr(a.into_iter().map(value_to_json).collect()),
        serde_json::Value::Object(o) => Json::Obj(
            o.into_iter().map(|(k, x)| (k, value_to_json(x))).collect(),
        ),
    }
}

/// Bridge back: one arm per variant of the library's tree. `Other` never
/// reaches this function from the library's own writers; it is rendered as
/// null. Serves [`render_json_text`].
#[verifier::external_body]
fn json_to_value(j: Json) -> serde_json::Value {
    match j {
        Json::Null => serde_json::Value::Null,
        Json::Bool(b) => serde_json::Value::Bool(b),
        Json::UInt(u) => serde_json::Value::from(u),
        Json::Int(i) => serde_json::Value::from(i),
        Json::Str(s) => serde_json::Value::String(s),
        Json::Arr(a) => serde_json::Value::Array(a.into_iter().map(json_to_value).collect()),
        Json::Obj(o) => serde_json::Value::Object(
            o.into_iter().map(|(k, x)| (k, json_to_value(x))).collect(),
        ),
        Json::Other => serde_json::Value::Null,
    }
}

/// Relies on `serde_json::from_str::<serde_json::Value>`: reads the JSON
/// value a text denotes, or fails; the outcome is a function of the text.
#[verifier::external_body]
pub(crate) fn parse_json_text(s: &str) -> (r: Option<Json>)
    ensures
        (r is Some) == (json_of(s@) is Some),
        r matches Some(j) ==> json_of(s@) == Some(jview(j)),
{
    serde_json::from_str::<serde_json::Value>(s).ok().map(value_to_json)
}

/// Relies on `serde_json::to_string`: renders a JSON value as text; the
/// outcome is a function of the value. Rendering always succeeds: per
/// serde_json's own documentation and source, serialization fails only when
/// a `Serialize` impl fails or a map key is not a string, and a
/// `serde_json::Value` has neither.
#[verifier::external_body]
pub(crate) fn render_json_text(j: Json) -> (r: Option<String>)
    ensures
        r is Some,
        r matches Some(t) ==> t@ == text_of(jview(j)),
{
    serde_json::to_string(&json_to_value(j)).ok()
}

} // verus!
