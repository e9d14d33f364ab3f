//! Settings files: a JSON object whose fields are all strings.

use crate::errors::ErrorKind;
use serde_json::Value;
use vstd::prelude::*;

verus! {

/// One field of a JSON object: its key, and its value where the value is a
/// string.
pub struct JsonField {
    pub key: String,
    pub text: Option<String>,
}

/// What `serde_json::from_str` makes of a text: the fields of the object
/// that the text holds, each with its key and, where its value is a string,
/// that string; `None` where the text is no JSON, or JSON but no object.
pub uninterp spec fn json_fields(text: Seq<char>) -> Option<Seq<(Seq<char>, Option<Seq<char>>)>>;

/// Fields as contracts see them.
pub open spec fn fields_view(fields: Seq<JsonField>) -> Seq<(Seq<char>, Option<Seq<char>>)> {
    Seq::new(
        fields.len(),
        |i: int|
            (
                fields[i].key@,
                match fields[i].text {
                    Some(text) => Some(text@),
                    None => None,
                },
            ),
    )
}

/// Pairs of key and value as contracts see them.
pub open spec fn pairs_view(pairs: Seq<(String, String)>) -> Seq<(Seq<char>, Seq<char>)> {
    Seq::new(pairs.len(), |i: int| (pairs[i].0@, pairs[i].1@))
}

/// Parses the text with `serde_json::from_str` into a `serde_json::Value`
/// and, where that is an object, hands its fields out in the order of the
/// object's map, each value that is a string as that string.
#[verifier::external_body]
fn parse_object(text: &str) -> (r: Option<Vec<JsonField>>)
    ensures
        match r {
            Some(fields) => json_fields(text@) == Some(fields_view(fields@)),
            None => json_fields(text@) is None,
        },
{
    match serde_json::from_str::<Value>(text) {
        Ok(Value::Object(map)) => Some(
            map.into_iter().map(
                |(key, value)| match value {
                    Value::String(text) => JsonField { key, text: Some(text) },
                    _ => JsonField { key, text: None },
                },
            ).collect(),
        ),
        _ => None,
    }
}

/// Whether every field has a string for its value.
pub open spec fn all_text(fields: Seq<(Seq<char>, Option<Seq<char>>)>) -> bool {
    forall|i: int| 0 <= i < fields.len() ==> (#[trigger] fields[i]).1 is Some
}

/// The fields as pairs of key and value.
pub open spec fn text_pairs(fields: Seq<(Seq<char>, Option<Seq<char>>)>) -> Seq<
    (Seq<char>, Seq<char>),
> {
    Seq::new(fields.len(), |i: int| (fields[i].0, fields[i].1.unwrap()))
}

/// Judges the fields of a parsed object: pairs of key and value where every
/// value is a string, `InvalidJson` where one is not, and
/// `CanNotGetJsonObject` where there was no object.
pub fn string_fields(parsed: Option<Vec<JsonField>>) -> (r: Result<Vec<(String, String)>, ErrorKind>)
    ensures
        match parsed {
            None => r == Err::<Vec<(String, String)>, ErrorKind>(ErrorKind::CanNotGetJsonObject),
            Some(fields) => if all_text(fields_view(fields@)) {
                r is Ok && pairs_view(r.unwrap()@) == text_pairs(fields_view(fields@))
            } else {
                r == Err::<Vec<(String, String)>, ErrorKind>(ErrorKind::InvalidJson)
            },
        },
{
    let fields = match parsed {
        Some(fields) => fields,
        None => {
            return Err(ErrorKind::CanNotGetJsonObject);
        },
    };
    let ghost given = fields_view(fields@);
    let total: usize = fields.len();
    let mut pairs: Vec<(String, String)> = Vec::new();
    let mut at: usize = 0;
    while at < total
        invariant
            at <= total,
            total == fields@.len(),
            parsed == Some(fields),
            fields_view(fields@) == given,
            pairs@.len() == at,
            forall|i: int| 0 <= i < at ==> (#[trigger] given[i]).1 is Some,
            forall|i: int|
                0 <= i < at ==> (#[trigger] pairs@[i]).0@ == given[i].0 && pairs@[i].1@
                    == given[i].1.unwrap(),
        decreases total - at,
    {
        let field = &fields[at];
        assert(given[at as int] == fields_view(fields@)[at as int]);
        match &field.text {
            Some(text) => {
                pairs.push((field.key.clone(), text.clone()));
            },
            None => {
                return Err(ErrorKind::InvalidJson);
            },
        }
        at = at + 1;
    }
    assert(pairs_view(pairs@) =~= text_pairs(given));
    Ok(pairs)
}

/// Reads a settings file: the fields of the JSON object that the text
/// holds, as pairs of key and value. Fails with `CanNotGetJsonObject` where
/// the text is no JSON object, and with `InvalidJson` where a field's value
/// is not a string.
pub fn read_json(contents: &str) -> (r: Result<Vec<(String, String)>, ErrorKind>)
    ensures
        match json_fields(contents@) {
            None => r == Err::<Vec<(String, String)>, ErrorKind>(ErrorKind::CanNotGetJsonObject),
            Some(fields) => if all_text(fields) {
                r is Ok && pairs_view(r.unwrap()@) == text_pairs(fields)
            } else {
                r == Err::<Vec<(String, String)>, ErrorKind>(ErrorKind::InvalidJson)
            },
        },
{
    string_fields(parse_object(contents))
}

} // verus!
