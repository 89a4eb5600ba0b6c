//! The subject entity that several resource payloads embed.

use vstd::prelude::*;
use vstd::string::*;

use crate::Error;
use crate::json::JsonValue;
use crate::json::field_str;
use crate::json::get_str_field;
use crate::json::is_str_entry;
use crate::json::lemma_lookup_found;

verus! {

/// Represents a subject.
#[derive(Debug)]
pub struct Subject {
    pub id: String,
    pub abbreviation: String,
    pub name: String,
}

/// The tree carries every field the subject schema requires.
pub open spec fn subject_ok(v: JsonValue) -> bool {
    &&& field_str(v, "Id"@) is Some
    &&& field_str(v, "Abbrev"@) is Some
    &&& field_str(v, "Name"@) is Some
}

/// `s` is exactly what decoding `v` against the subject schema yields.
pub open spec fn subject_matches(s: Subject, v: JsonValue) -> bool {
    &&& field_str(v, "Id"@) == Some(s.id@)
    &&& field_str(v, "Abbrev"@) == Some(s.abbreviation@)
    &&& field_str(v, "Name"@) == Some(s.name@)
}

/// `r` is exactly the tree that encoding `s` yields: the schema's fields,
/// in the external order.
pub open spec fn subject_encoding(r: JsonValue, s: Subject) -> bool {
    &&& r matches JsonValue::Obj(fields)
    &&& r->Obj_0@.len() == 3
    &&& is_str_entry(r->Obj_0@[0], "Id"@, s.id@)
    &&& is_str_entry(r->Obj_0@[1], "Abbrev"@, s.abbreviation@)
    &&& is_str_entry(r->Obj_0@[2], "Name"@, s.name@)
}

/// Every subject field of `v` is carried, unchanged, by `r`.
pub open spec fn subject_preserved(v: JsonValue, r: JsonValue) -> bool {
    &&& field_str(r, "Id"@) == field_str(v, "Id"@)
    &&& field_str(r, "Abbrev"@) == field_str(v, "Abbrev"@)
    &&& field_str(r, "Name"@) == field_str(v, "Name"@)
}

/// Decodes a subject, or fails with a schema error on any tree that does
/// not carry the schema's fields.
pub fn decode_subject(v: &JsonValue) -> (r: Result<Subject, Error>)
    ensures
        subject_ok(*v) ==> (r matches Ok(s) && subject_matches(s, *v)),
        !subject_ok(*v) ==> r == Err::<Subject, Error>(Error::Schema),
{
    let id = get_str_field(v, "Id")?;
    let abbreviation = get_str_field(v, "Abbrev")?;
    let name = get_str_field(v, "Name")?;
    Ok(Subject { id, abbreviation, name })
}

/// Encodes a subject back into its external object shape.
pub fn encode_subject(s: &Subject) -> (r: JsonValue)
    ensures
        subject_encoding(r, *s),
{
    let mut fields: Vec<(String, JsonValue)> = Vec::new();
    fields.push((String::from_str("Id"), JsonValue::Str(s.id.clone())));
    fields.push((String::from_str("Abbrev"), JsonValue::Str(s.abbreviation.clone())));
    fields.push((String::from_str("Name"), JsonValue::Str(s.name.clone())));
    JsonValue::Obj(fields)
}

/// Round trip: re-encoding a decoded subject loses no field of the source
/// tree.
pub proof fn lemma_subject_round_trip(v: JsonValue, s: Subject, r: JsonValue)
    requires
        subject_matches(s, v),
        subject_encoding(r, s),
    ensures
        subject_preserved(v, r),
{
    reveal_strlit("Id");
    reveal_strlit("Abbrev");
    reveal_strlit("Name");
    let fields = r->Obj_0@;
    assert("Id"@.len() == 2 && "Abbrev"@.len() == 6 && "Name"@.len() == 4);
    assert("Id"@ != "Abbrev"@ && "Id"@ != "Name"@ && "Abbrev"@ != "Name"@);
    lemma_lookup_found(fields, "Id"@, 0);
    lemma_lookup_found(fields, "Abbrev"@, 1);
    lemma_lookup_found(fields, "Name"@, 2);
}

} // verus!
