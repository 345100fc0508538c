//! JSON texts: objects of strings.

use crate::text::opt_text;
use vstd::prelude::*;

verus! {

/// What reading a JSON text gives: the string-valued fields of the top-level
/// object (none where the top level is no object), or the text of the error.
pub uninterp spec fn json_strings(text: Seq<char>) -> Result<Map<Seq<char>, Seq<char>>, Seq<char>>;

/// The compact JSON text of an object with the given string fields, in order.
pub uninterp spec fn json_object_text(fields: Seq<(Seq<char>, Seq<char>)>) -> Seq<char>;

/// The names and values of the fields.
pub open spec fn field_texts(fields: Seq<(String, String)>) -> Seq<(Seq<char>, Seq<char>)> {
    fields.map_values(|field: (String, String)| (field.0@, field.1@))
}

/// Whether no two fields share a name.
pub open spec fn distinct_names(fields: Seq<(String, String)>) -> bool {
    forall|i: int, j: int|
        0 <= i < j < fields.len() ==> (#[trigger] fields[i]).0@ != (#[trigger] fields[j]).0@
}

/// The value of a field, where the fields hold it.
pub open spec fn field_value(fields: Map<Seq<char>, Seq<char>>, name: Seq<char>) -> Option<
    Seq<char>,
> {
    if fields.contains_key(name) {
        Some(fields[name])
    } else {
        None
    }
}

/// Builds a `serde_json` object and renders it with `to_string`. The rendering is
/// a function of the fields in their order, and `serde_json::from_str` reads each
/// field back.
#[verifier::external_body]
pub(crate) fn write_json(fields: &Vec<(String, String)>) -> (r: String)
    requires
        distinct_names(fields@),
    ensures
        r@ == json_object_text(field_texts(fields@)),
        json_strings(r@) is Ok,
        forall|i: int|
            0 <= i < fields@.len() ==> field_value(
                json_strings(r@)->Ok_0,
                (#[trigger] fields@[i]).0@,
            ) == Some(fields@[i].1@),
{
    let mut object = serde_json::Map::new();
    for (name, value) in fields {
        object.insert(name.clone(), serde_json::Value::String(value.clone()));
    }
    serde_json::Value::Object(object).to_string()
}

/// `serde_json::from_str`, then the named fields that hold strings; the error is
/// the text of the parse error.
#[verifier::external_body]
pub(crate) fn read_json(text: &str, names: &Vec<String>) -> (r: Result<Vec<Option<String>>, String>)
    ensures
        r is Ok <==> json_strings(text@) is Ok,
        r matches Err(message) ==> json_strings(text@)->Err_0 == message@,
        r matches Ok(values) ==> values@.len() == names@.len(),
        r matches Ok(values) ==> forall|i: int|
            0 <= i < names@.len() ==> opt_text(#[trigger] values@[i]) == field_value(
                json_strings(text@)->Ok_0,
                names@[i]@,
            ),
{
    let value: serde_json::Value = serde_json::from_str(text).map_err(
        |error: serde_json::Error| error.to_string(),
    )?;
    let field = |name: &String| value.get(name.as_str())?.as_str().map(str::to_string);
    Ok(names.iter().map(field).collect())
}

/// The `description` of a properties blob: empty for a missing blob, malformed
/// JSON, and a missing or non-string field.
pub open spec fn description_text(properties: Option<Seq<char>>) -> Seq<char> {
    match properties {
        Some(blob) => match json_strings(blob) {
            Ok(fields) => match field_value(fields, "description"@) {
                Some(description) => description,
                None => Seq::<char>::empty(),
            },
            Err(_) => Seq::<char>::empty(),
        },
        None => Seq::<char>::empty(),
    }
}

/// The `description` of what reading a properties blob gave.
pub fn description_in(fields: Result<Vec<Option<String>>, String>) -> (r: String)
    ensures
        r@ == (match fields {
            Ok(values) => if values@.len() > 0 && values@[0] is Some {
                values@[0]->Some_0@
            } else {
                Seq::<char>::empty()
            },
            Err(_) => Seq::<char>::empty(),
        }),
{
    match fields {
        Ok(values) => {
            if values.len() > 0 {
                match &values[0] {
                    Some(description) => description.clone(),
                    None => String::new(),
                }
            } else {
                String::new()
            }
        },
        Err(_) => String::new(),
    }
}

/// The `description` of a properties blob.
pub fn description_of(properties: &Option<String>) -> (r: String)
    ensures
        r@ == description_text(opt_text(*properties)),
{
    match properties {
        Some(blob) => {
            let mut names: Vec<String> = Vec::new();
            names.push("description".to_owned());
            let fields = read_json(blob.as_str(), &names);
            assert(names@[0]@ == "description"@);
            proof {
                if let Ok(values) = &fields {
                    assert(opt_text(values@[0]) == field_value(
                        json_strings(blob@)->Ok_0,
                        names@[0]@,
                    ));
                }
            }
            description_in(fields)
        },
        None => String::new(),
    }
}

} // verus!
