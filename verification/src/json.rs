//! Pretty-printed JSON objects, written by `serde_json`.
use vstd::prelude::*;

verus! {

/// A field value of a JSON object of at most two levels: a boolean, a
/// number, a string, or an object of string fields.
#[derive(Debug)]
pub enum JsonField {
    Bool(bool),
    Number(u64),
    Text(String),
    TextMap(Vec<(String, String)>),
}

/// A [`JsonField`] as plain values.
pub enum JsonFieldView {
    Bool(bool),
    Number(u64),
    Text(Seq<char>),
    TextMap(Seq<(Seq<char>, Seq<char>)>),
}

/// `(key, value)` text pairs as plain values.
pub open spec fn pairs_view(ps: Seq<(String, String)>) -> Seq<(Seq<char>, Seq<char>)> {
    ps.map_values(|p: (String, String)| (p.0@, p.1@))
}

/// A field value as plain values.
pub open spec fn field_view(f: JsonField) -> JsonFieldView {
    match f {
        JsonField::Bool(b) => JsonFieldView::Bool(b),
        JsonField::Number(n) => JsonFieldView::Number(n),
        JsonField::Text(t) => JsonFieldView::Text(t@),
        JsonField::TextMap(ps) => JsonFieldView::TextMap(pairs_view(ps@)),
    }
}

/// Object fields as plain values.
pub open spec fn fields_view(fs: Seq<(String, JsonField)>) -> Seq<(Seq<char>, JsonFieldView)> {
    fs.map_values(|f: (String, JsonField)| (f.0@, field_view(f.1)))
}

/// The text that `serde_json::to_string_pretty` gives for the object with
/// these fields (built as a `serde_json::Map`, so a key given twice keeps
/// its last value).
pub uninterp spec fn pretty_json(fields: Seq<(Seq<char>, JsonFieldView)>) -> Seq<char>;

/// Builds a `serde_json::Map` from `fields`, one entry per field, and prints
/// it with `serde_json::to_string_pretty` (empty text if printing fails).
/// Claimed: the result is the named text of these fields. Not claimed: the
/// layout, key order or escaping that `serde_json` uses.
#[verifier::external_body]
pub(crate) fn json_object_text(fields: &Vec<(String, JsonField)>) -> (r: String)
    ensures
        r@ == pretty_json(fields_view(fields@)),
{
    let mut map = serde_json::Map::new();
    for (key, field) in fields {
        let value = match field {
            JsonField::Bool(b) => serde_json::Value::Bool(*b),
            JsonField::Number(n) => serde_json::Value::Number((*n).into()),
            JsonField::Text(t) => serde_json::Value::String(t.clone()),
            JsonField::TextMap(ps) => serde_json::Value::Object(ps.iter().map(|(k, v)| (k.clone(), serde_json::Value::String(v.clone()))).collect()),
        };
        map.insert(key.clone(), value);
    }
    serde_json::to_string_pretty(&map).unwrap_or_default()
}

} // verus!
