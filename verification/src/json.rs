//! A value-level model of the JSON documents the server exchanges.
//!
//! The library does not parse or print JSON text: the spec treats the text
//! codec as an external collaborator, so the caller's codec turns bytes into
//! a [`JsonValue`] tree and back.  What the library owns — and verifies — is
//! the schema mapping: which fields an entity reads from a tree, with which
//! types, and which tree an entity writes.  Numbers carry only the integer
//! values the schema uses; object fields keep their order, and a name is
//! looked up by its first occurrence.

use vstd::prelude::*;
use vstd::string::*;

use crate::Error;

verus! {

pub enum JsonValue {
    Null,
    Bool(bool),
    Int(i64),
    Str(String),
    Arr(Vec<JsonValue>),
    Obj(Vec<(String, JsonValue)>),
}

/// The first field of this name, if any.
pub open spec fn lookup_field(fields: Seq<(String, JsonValue)>, name: Seq<char>) -> Option<
    JsonValue,
>
    decreases fields.len(),
{
    if fields.len() == 0 {
        None
    } else if fields[0].0@ == name {
        Some(fields[0].1)
    } else {
        lookup_field(fields.drop_first(), name)
    }
}

/// The field of this name in an object; `None` on any other kind of value.
pub open spec fn obj_lookup(v: JsonValue, name: Seq<char>) -> Option<JsonValue> {
    match v {
        JsonValue::Obj(fields) => lookup_field(fields@, name),
        _ => None,
    }
}

/// A required string field, by its characters.
pub open spec fn field_str(v: JsonValue, name: Seq<char>) -> Option<Seq<char>> {
    match obj_lookup(v, name) {
        Some(JsonValue::Str(s)) => Some(s@),
        _ => None,
    }
}

/// A required boolean field.
pub open spec fn field_bool(v: JsonValue, name: Seq<char>) -> Option<bool> {
    match obj_lookup(v, name) {
        Some(JsonValue::Bool(b)) => Some(b),
        _ => None,
    }
}

/// A required integer field, as an unbounded integer.
pub open spec fn field_int(v: JsonValue, name: Seq<char>) -> Option<int> {
    match obj_lookup(v, name) {
        Some(JsonValue::Int(n)) => Some(n as int),
        _ => None,
    }
}

/// An optional string field: absent and null are the same absence, any
/// other non-string shape is a type mismatch (`None`).
pub open spec fn field_opt_str(v: JsonValue, name: Seq<char>) -> Option<Option<Seq<char>>> {
    match obj_lookup(v, name) {
        None => Some(None),
        Some(JsonValue::Null) => Some(None),
        Some(JsonValue::Str(s)) => Some(Some(s@)),
        Some(_) => None,
    }
}

/// A required array field, by its elements.
pub open spec fn field_arr(v: JsonValue, name: Seq<char>) -> Option<Seq<JsonValue>> {
    match obj_lookup(v, name) {
        Some(JsonValue::Arr(elems)) => Some(elems@),
        _ => None,
    }
}

/// A required array-of-strings field, by the characters of its elements.
pub open spec fn field_str_arr(v: JsonValue, name: Seq<char>) -> Option<Seq<Seq<char>>> {
    match field_arr(v, name) {
        Some(elems) => if forall|i: int| 0 <= i < elems.len() ==> (#[trigger] elems[i]) is Str {
            Some(
                Seq::new(
                    elems.len(),
                    |i: int|
                        match elems[i] {
                            JsonValue::Str(s) => s@,
                            _ => Seq::empty(),
                        },
                ),
            )
        } else {
            None
        },
        None => None,
    }
}

/// An optional string by its characters, as the schema mapping reports it.
pub open spec fn opt_view(o: Option<String>) -> Option<Seq<char>> {
    match o {
        Some(s) => Some(s@),
        None => None,
    }
}

/// One string entry of an encoded object.
pub open spec fn is_str_entry(e: (String, JsonValue), name: Seq<char>, val: Seq<char>) -> bool {
    &&& e.0@ == name
    &&& e.1 matches JsonValue::Str(s) && s@ == val
}

/// One boolean entry of an encoded object.
pub open spec fn is_bool_entry(e: (String, JsonValue), name: Seq<char>, val: bool) -> bool {
    &&& e.0@ == name
    &&& e.1 == JsonValue::Bool(val)
}

/// One integer entry of an encoded object.
pub open spec fn is_int_entry(e: (String, JsonValue), name: Seq<char>, val: int) -> bool {
    &&& e.0@ == name
    &&& e.1 matches JsonValue::Int(n) && n as int == val
}

/// One optional-string entry of an encoded object: an absent value is
/// written as null, so that no field of the source is silently dropped.
pub open spec fn is_opt_str_entry(
    e: (String, JsonValue),
    name: Seq<char>,
    val: Option<Seq<char>>,
) -> bool {
    &&& e.0@ == name
    &&& match val {
        Some(s) => e.1 matches JsonValue::Str(x) && x@ == s,
        None => e.1 == JsonValue::Null,
    }
}

/// One array-of-strings entry of an encoded object.
pub open spec fn is_str_arr_entry(
    e: (String, JsonValue),
    name: Seq<char>,
    vals: Seq<Seq<char>>,
) -> bool {
    &&& e.0@ == name
    &&& e.1 matches JsonValue::Arr(elems) && elems@.len() == vals.len() && (forall|i: int|
        0 <= i < vals.len() ==> ((#[trigger] elems@[i]) matches JsonValue::Str(s) && s@ == vals[i]))
}

/// Looking up a name that first occurs at index `i` finds that entry.
pub proof fn lemma_lookup_found(fields: Seq<(String, JsonValue)>, name: Seq<char>, i: int)
    requires
        0 <= i < fields.len(),
        fields[i].0@ == name,
        forall|k: int| 0 <= k < i ==> (#[trigger] fields[k]).0@ != name,
    ensures
        lookup_field(fields, name) == Some(fields[i].1),
    decreases i,
{
    if i > 0 {
        lemma_lookup_found(fields.drop_first(), name, i - 1);
    }
}

/// The field of this name, if the value is an object that carries one.
pub fn get_field<'a>(v: &'a JsonValue, name: &str) -> (r: Option<&'a JsonValue>)
    ensures
        match r {
            Some(f) => obj_lookup(*v, name@) == Some(*f),
            None => obj_lookup(*v, name@) is None,
        },
{
    match v {
        JsonValue::Obj(fields) => {
            let name_owned = name.to_owned();
            let n = fields.len();
            proof {
                assert(fields@.skip(0) =~= fields@);
            }
            let mut i: usize = 0;
            while i < n
                invariant
                    n == fields@.len(),
                    i <= n,
                    name_owned@ == name@,
                    obj_lookup(*v, name@) == lookup_field(fields@, name@),
                    lookup_field(fields@, name@) == lookup_field(
                        fields@.skip(i as int),
                        name@,
                    ),
                decreases n - i,
            {
                let entry = &fields[i];
                if entry.0.eq(&name_owned) {
                    proof {
                        assert(fields@.skip(i as int)[0] == fields@[i as int]);
                    }
                    return Some(&entry.1);
                }
                proof {
                    assert(fields@.skip(i as int).drop_first() =~= fields@.skip(i as int + 1));
                }
                i += 1;
            }
            None
        },
        _ => None,
    }
}

/// A required string field, cloned out of the tree.
pub fn get_str_field(v: &JsonValue, name: &str) -> (r: Result<String, Error>)
    ensures
        field_str(*v, name@) matches Some(s) ==> (r matches Ok(out) && out@ == s),
        field_str(*v, name@) is None ==> r == Err::<String, Error>(Error::Schema),
{
    match get_field(v, name) {
        Some(JsonValue::Str(s)) => Ok(s.clone()),
        _ => Err(Error::Schema),
    }
}

/// A required boolean field.
pub fn get_bool_field(v: &JsonValue, name: &str) -> (r: Result<bool, Error>)
    ensures
        field_bool(*v, name@) matches Some(b) ==> r == Ok::<bool, Error>(b),
        field_bool(*v, name@) is None ==> r == Err::<bool, Error>(Error::Schema),
{
    match get_field(v, name) {
        Some(JsonValue::Bool(b)) => Ok(*b),
        _ => Err(Error::Schema),
    }
}

/// A required integer field that must fit a `u8`.
pub fn get_u8_field(v: &JsonValue, name: &str) -> (r: Result<u8, Error>)
    ensures
        (field_int(*v, name@) matches Some(n) && 0 <= n <= u8::MAX) ==> (r matches Ok(out)
            && field_int(*v, name@) == Some(out as int)),
        !(field_int(*v, name@) matches Some(n) && 0 <= n <= u8::MAX) ==> r == Err::<u8, Error>(
            Error::Schema,
        ),
{
    match get_field(v, name) {
        Some(JsonValue::Int(n)) => {
            let n = *n;
            if 0 <= n && n <= u8::MAX as i64 {
                Ok(n as u8)
            } else {
                Err(Error::Schema)
            }
        },
        _ => Err(Error::Schema),
    }
}

/// A required integer field that must fit a `u16`.
pub fn get_u16_field(v: &JsonValue, name: &str) -> (r: Result<u16, Error>)
    ensures
        (field_int(*v, name@) matches Some(n) && 0 <= n <= u16::MAX) ==> (r matches Ok(out)
            && field_int(*v, name@) == Some(out as int)),
        !(field_int(*v, name@) matches Some(n) && 0 <= n <= u16::MAX) ==> r == Err::<u16, Error>(
            Error::Schema,
        ),
{
    match get_field(v, name) {
        Some(JsonValue::Int(n)) => {
            let n = *n;
            if 0 <= n && n <= u16::MAX as i64 {
                Ok(n as u16)
            } else {
                Err(Error::Schema)
            }
        },
        _ => Err(Error::Schema),
    }
}

/// A required integer field that must fit an `i8`.
pub fn get_i8_field(v: &JsonValue, name: &str) -> (r: Result<i8, Error>)
    ensures
        (field_int(*v, name@) matches Some(n) && i8::MIN <= n <= i8::MAX) ==> (r matches Ok(out)
            && field_int(*v, name@) == Some(out as int)),
        !(field_int(*v, name@) matches Some(n) && i8::MIN <= n <= i8::MAX) ==> r == Err::<
            i8,
            Error,
        >(Error::Schema),
{
    match get_field(v, name) {
        Some(JsonValue::Int(n)) => {
            let n = *n;
            if i8::MIN as i64 <= n && n <= i8::MAX as i64 {
                Ok(n as i8)
            } else {
                Err(Error::Schema)
            }
        },
        _ => Err(Error::Schema),
    }
}

/// A required non-negative integer field, as a `u64`.
pub fn get_u64_field(v: &JsonValue, name: &str) -> (r: Result<u64, Error>)
    ensures
        (field_int(*v, name@) matches Some(n) && 0 <= n) ==> (r matches Ok(out) && field_int(
            *v,
            name@,
        ) == Some(out as int)),
        !(field_int(*v, name@) matches Some(n) && 0 <= n) ==> r == Err::<u64, Error>(Error::Schema),
{
    match get_field(v, name) {
        Some(JsonValue::Int(n)) => {
            let n = *n;
            if 0 <= n {
                Ok(n as u64)
            } else {
                Err(Error::Schema)
            }
        },
        _ => Err(Error::Schema),
    }
}

/// An optional string field: absent or null is `None`.
pub fn get_opt_str_field(v: &JsonValue, name: &str) -> (r: Result<Option<String>, Error>)
    ensures
        field_opt_str(*v, name@) matches Some(os) ==> (r matches Ok(out) && (match os {
            Some(s) => out matches Some(o) && o@ == s,
            None => out is None,
        })),
        field_opt_str(*v, name@) is None ==> r == Err::<Option<String>, Error>(Error::Schema),
{
    match get_field(v, name) {
        Some(JsonValue::Str(s)) => Ok(Some(s.clone())),
        Some(JsonValue::Null) => Ok(None),
        Some(_) => Err(Error::Schema),
        None => Ok(None),
    }
}

/// A required array field, borrowed from the tree.
pub fn get_arr_field<'a>(v: &'a JsonValue, name: &str) -> (r: Result<&'a Vec<JsonValue>, Error>)
    ensures
        field_arr(*v, name@) matches Some(elems) ==> (r matches Ok(a) && a@ == elems),
        field_arr(*v, name@) is None ==> (r matches Err(e) && e == Error::Schema),
{
    match get_field(v, name) {
        Some(JsonValue::Arr(a)) => Ok(a),
        _ => Err(Error::Schema),
    }
}

/// A required array-of-strings field, cloned out of the tree.
pub fn get_str_arr_field(v: &JsonValue, name: &str) -> (r: Result<Vec<String>, Error>)
    ensures
        field_str_arr(*v, name@) matches Some(views) ==> (r matches Ok(out) && out.deep_view()
            == views),
        field_str_arr(*v, name@) is None ==> (r matches Err(e) && e == Error::Schema),
{
    let arr = match get_field(v, name) {
        Some(JsonValue::Arr(a)) => a,
        _ => { return Err(Error::Schema) },
    };
    let n = arr.len();
    let mut out: Vec<String> = Vec::new();
    let mut i: usize = 0;
    while i < n
        invariant
            n == arr@.len(),
            i <= n,
            field_arr(*v, name@) == Some(arr@),
            out@.len() == i,
            forall|k: int| 0 <= k < i ==> (#[trigger] arr@[k]) is Str,
            forall|k: int| 0 <= k < i ==> #[trigger] out@[k]@ == arr@[k]->Str_0@,
        decreases n - i,
    {
        match &arr[i] {
            JsonValue::Str(s) => out.push(s.clone()),
            _ => { return Err(Error::Schema) },
        }
        i += 1;
    }
    proof {
        let views = field_str_arr(*v, name@)->Some_0;
        assert(out.deep_view() =~~= views);
    }
    Ok(out)
}

} // verus!

verus! {

/// Encodes a list of strings as the elements of a JSON array.
pub fn encode_str_arr(items: &Vec<String>) -> (r: Vec<JsonValue>)
    ensures
        r@.len() == items@.len(),
        forall|i: int|
            0 <= i < items@.len() ==> ((#[trigger] r@[i]) matches JsonValue::Str(s) && s@
                == items@[i]@),
{
    let n = items.len();
    let mut r: Vec<JsonValue> = Vec::new();
    let mut i: usize = 0;
    while i < n
        invariant
            n == items@.len(),
            i <= n,
            r@.len() == i,
            forall|k: int|
                0 <= k < i ==> ((#[trigger] r@[k]) matches JsonValue::Str(s) && s@ == items@[k]@),
        decreases n - i,
    {
        r.push(JsonValue::Str(items[i].clone()));
        i += 1;
    }
    r
}

/// An encoded array-of-strings entry reads back as exactly its values.
pub proof fn lemma_str_arr_entry_view(
    e: (String, JsonValue),
    name: Seq<char>,
    vals: Seq<Seq<char>>,
    r: JsonValue,
)
    requires
        is_str_arr_entry(e, name, vals),
        obj_lookup(r, name) == Some(e.1),
    ensures
        field_str_arr(r, name) == Some(vals),
{
    let enc = e.1->Arr_0@;
    assert(field_arr(r, name) == Some(enc));
    assert forall|i: int| 0 <= i < enc.len() implies (#[trigger] enc[i]) is Str by {
        assert(e.1->Arr_0@[i] matches JsonValue::Str(s) && s@ == vals[i]);
    }
    let rv = field_str_arr(r, name)->Some_0;
    assert forall|i: int| 0 <= i < vals.len() implies rv[i] == vals[i] by {
        assert(e.1->Arr_0@[i] matches JsonValue::Str(s) && s@ == vals[i]);
    }
    assert(rv =~~= vals);
}

} // verus!
