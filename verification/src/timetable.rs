//! The timetable resource: entities, the date parameter and the two reads.
//!
//! The timetable-by-date endpoint takes its date in the query string as
//! `yyyy-mm-dd`, zero-padded, regardless of locale.  The library models the
//! date as a plain value ([`Date`]); the caller converts from whatever
//! calendar type it uses and, for the "current" timetable, evaluates today's
//! date at call time.

use vstd::prelude::*;
use vstd::string::*;

use crate::BakalariClient;
use crate::request::HttpRequest;
use crate::request::get_request;
use crate::request::is_get_request;

verus! {

/// A calendar date as plain values.  Validity asks only what the
/// `yyyy-mm-dd` rendering needs: a four-digit year and in-range month and
/// day numbers.
#[derive(Clone, Copy, Debug, PartialEq, Eq, Structural)]
pub struct Date {
    pub year: u16,
    pub month: u8,
    pub day: u8,
}

impl Date {
    pub open spec fn valid(self) -> bool {
        &&& 1000 <= self.year <= 9999
        &&& 1 <= self.month <= 12
        &&& 1 <= self.day <= 31
    }
}

/// The character for one decimal digit.
pub open spec fn digit_char(d: nat) -> char {
    if d == 0 {
        '0'
    } else if d == 1 {
        '1'
    } else if d == 2 {
        '2'
    } else if d == 3 {
        '3'
    } else if d == 4 {
        '4'
    } else if d == 5 {
        '5'
    } else if d == 6 {
        '6'
    } else if d == 7 {
        '7'
    } else if d == 8 {
        '8'
    } else {
        '9'
    }
}

/// The `yyyy-mm-dd` rendering of a date: four year digits, two month digits
/// and two day digits, each zero-padded, joined with hyphens.
pub open spec fn iso_chars(d: Date) -> Seq<char> {
    seq![
        digit_char((d.year as nat / 1000) % 10),
        digit_char((d.year as nat / 100) % 10),
        digit_char((d.year as nat / 10) % 10),
        digit_char(d.year as nat % 10),
        '-',
        digit_char((d.month as nat / 10) % 10),
        digit_char(d.month as nat % 10),
        '-',
        digit_char((d.day as nat / 10) % 10),
        digit_char(d.day as nat % 10),
    ]
}

/// The one-character string for one decimal digit.
fn digit_str(d: u8) -> (r: &'static str)
    requires
        d < 10,
    ensures
        r@ =~= seq![digit_char(d as nat)],
{
    proof {
        reveal_strlit("0");
        reveal_strlit("1");
        reveal_strlit("2");
        reveal_strlit("3");
        reveal_strlit("4");
        reveal_strlit("5");
        reveal_strlit("6");
        reveal_strlit("7");
        reveal_strlit("8");
        reveal_strlit("9");
    }
    match d {
        0 => "0",
        1 => "1",
        2 => "2",
        3 => "3",
        4 => "4",
        5 => "5",
        6 => "6",
        7 => "7",
        8 => "8",
        _ => "9",
    }
}

/// Renders a date as `yyyy-mm-dd` with zero-padded month and day.
pub fn format_date(d: Date) -> (r: String)
    requires
        d.valid(),
    ensures
        r@ == iso_chars(d),
{
    proof {
        reveal_strlit("-");
    }
    let mut s = String::new();
    s.append(digit_str((d.year / 1000 % 10) as u8));
    s.append(digit_str((d.year / 100 % 10) as u8));
    s.append(digit_str((d.year / 10 % 10) as u8));
    s.append(digit_str((d.year % 10) as u8));
    s.append("-");
    s.append(digit_str(d.month / 10 % 10));
    s.append(digit_str(d.month % 10));
    s.append("-");
    s.append(digit_str(d.day / 10 % 10));
    s.append(digit_str(d.day % 10));
    proof {
        assert(s@ =~= iso_chars(d));
    }
    s
}

/// The URL of the timetable-by-date read.
pub open spec fn timetable_url(api: Seq<char>, d: Date) -> Seq<char> {
    api + "/timetable/actual?date="@ + iso_chars(d)
}

/// The URL of the permanent-timetable read.
pub open spec fn permanent_timetable_url(api: Seq<char>) -> Seq<char> {
    api + "/timetable/permanent"@
}

impl BakalariClient {
    /// The authenticated read of the timetable for one date.  The session
    /// must have passed the validity gate first.
    pub fn timetable_request(&self, date: Date) -> (r: HttpRequest)
        requires
            date.valid(),
        ensures
            is_get_request(r, timetable_url(self.api_url@, date), self.session.access_token@),
    {
        let mut url_tail = String::from_str("/timetable/actual?date=");
        let date_text = format_date(date);
        url_tail.append(date_text.as_str());
        let r = get_request(
            self.api_url.as_str(),
            url_tail.as_str(),
            self.session.access_token.as_str(),
        );
        proof {
            assert(self.api_url@ + url_tail@ =~= timetable_url(self.api_url@, date));
        }
        r
    }

    /// The authenticated read of the permanent timetable.  The session must
    /// have passed the validity gate first.
    pub fn permanent_timetable_request(&self) -> (r: HttpRequest)
        ensures
            is_get_request(r, permanent_timetable_url(self.api_url@), self.session.access_token@),
    {
        get_request(
            self.api_url.as_str(),
            "/timetable/permanent",
            self.session.access_token.as_str(),
        )
    }
}

} // verus!

use crate::Error;
use crate::json::JsonValue;
use crate::json::field_arr;
use crate::json::field_int;
use crate::json::field_opt_str;
use crate::json::field_str;
use crate::json::field_str_arr;
use crate::json::get_arr_field;
use crate::json::get_field;
use crate::json::get_i8_field;
use crate::json::get_opt_str_field;
use crate::json::get_str_arr_field;
use crate::json::get_str_field;
use crate::json::is_int_entry;
use crate::json::is_opt_str_entry;
use crate::json::is_str_arr_entry;
use crate::json::is_str_entry;
use crate::json::lemma_lookup_found;
use crate::json::obj_lookup;
use crate::json::opt_view;

verus! {

/// Represents a class.
#[derive(Debug)]
pub struct Class {
    pub id: String,
    pub abbreviation: String,
    pub name: String,
}

/// The tree carries every field the class schema requires.
pub open spec fn class_ok(v: JsonValue) -> bool {
    &&& field_str(v, "Id"@) is Some
    &&& field_str(v, "Abbrev"@) is Some
    &&& field_str(v, "Name"@) is Some
}

/// `x` is exactly what decoding `v` against the class schema yields.
pub open spec fn class_matches(x: Class, v: JsonValue) -> bool {
    &&& field_str(v, "Id"@) == Some(x.id@)
    &&& field_str(v, "Abbrev"@) == Some(x.abbreviation@)
    &&& field_str(v, "Name"@) == Some(x.name@)
}

/// `r` is exactly the tree that encoding `x` yields.
pub open spec fn class_encoding(r: JsonValue, x: Class) -> bool {
    &&& r matches JsonValue::Obj(fields)
    &&& r->Obj_0@.len() == 3
    &&& is_str_entry(r->Obj_0@[0], "Id"@, x.id@)
    &&& is_str_entry(r->Obj_0@[1], "Abbrev"@, x.abbreviation@)
    &&& is_str_entry(r->Obj_0@[2], "Name"@, x.name@)
}

/// Every class field of `v` is carried, unchanged, by `r`.
pub open spec fn class_preserved(v: JsonValue, r: JsonValue) -> bool {
    &&& field_str(r, "Id"@) == field_str(v, "Id"@)
    &&& field_str(r, "Abbrev"@) == field_str(v, "Abbrev"@)
    &&& field_str(r, "Name"@) == field_str(v, "Name"@)
}

/// Decodes one class record, or fails with a schema error.
pub fn decode_class(v: &JsonValue) -> (r: Result<Class, Error>)
    ensures
        class_ok(*v) ==> (r matches Ok(x) && class_matches(x, *v)),
        !class_ok(*v) ==> r == Err::<Class, Error>(Error::Schema),
{
    let id = get_str_field(v, "Id")?;
    let abbreviation = get_str_field(v, "Abbrev")?;
    let name = get_str_field(v, "Name")?;
    Ok(Class { id, abbreviation, name })
}

/// Encodes one class record back into its external object shape.
pub fn encode_class(x: &Class) -> (r: JsonValue)
    ensures
        class_encoding(r, *x),
{
    let mut fields: Vec<(String, JsonValue)> = Vec::new();
    fields.push((String::from_str("Id"), JsonValue::Str(x.id.clone())));
    fields.push((String::from_str("Abbrev"), JsonValue::Str(x.abbreviation.clone())));
    fields.push((String::from_str("Name"), JsonValue::Str(x.name.clone())));
    JsonValue::Obj(fields)
}

/// Round trip: re-encoding a decoded class record loses no field of the
/// source tree.
pub proof fn lemma_class_round_trip(v: JsonValue, x: Class, r: JsonValue)
    requires
        class_matches(x, v),
        class_encoding(r, x),
    ensures
        class_preserved(v, r),
{
    reveal_strlit("Id");
    reveal_strlit("Abbrev");
    reveal_strlit("Name");
    assert("Id"@.len() == 2 && "Abbrev"@.len() == 6 && "Name"@.len() == 4);
    let fields = r->Obj_0@;
    lemma_lookup_found(fields, "Id"@, 0);
    lemma_lookup_found(fields, "Abbrev"@, 1);
    lemma_lookup_found(fields, "Name"@, 2);
}

/// Represents a group.
#[derive(Debug)]
pub struct Group {
    pub class_id: String,
    pub id: String,
    pub abbreviation: String,
    pub name: String,
}

/// The tree carries every field the group schema requires.
pub open spec fn group_ok(v: JsonValue) -> bool {
    &&& field_str(v, "ClassId"@) is Some
    &&& field_str(v, "Id"@) is Some
    &&& field_str(v, "Abbrev"@) is Some
    &&& field_str(v, "Name"@) is Some
}

/// `x` is exactly what decoding `v` against the group schema yields.
pub open spec fn group_matches(x: Group, v: JsonValue) -> bool {
    &&& field_str(v, "ClassId"@) == Some(x.class_id@)
    &&& field_str(v, "Id"@) == Some(x.id@)
    &&& field_str(v, "Abbrev"@) == Some(x.abbreviation@)
    &&& field_str(v, "Name"@) == Some(x.name@)
}

/// `r` is exactly the tree that encoding `x` yields.
pub open spec fn group_encoding(r: JsonValue, x: Group) -> bool {
    &&& r matches JsonValue::Obj(fields)
    &&& r->Obj_0@.len() == 4
    &&& is_str_entry(r->Obj_0@[0], "ClassId"@, x.class_id@)
    &&& is_str_entry(r->Obj_0@[1], "Id"@, x.id@)
    &&& is_str_entry(r->Obj_0@[2], "Abbrev"@, x.abbreviation@)
    &&& is_str_entry(r->Obj_0@[3], "Name"@, x.name@)
}

/// Every group field of `v` is carried, unchanged, by `r`.
pub open spec fn group_preserved(v: JsonValue, r: JsonValue) -> bool {
    &&& field_str(r, "ClassId"@) == field_str(v, "ClassId"@)
    &&& field_str(r, "Id"@) == field_str(v, "Id"@)
    &&& field_str(r, "Abbrev"@) == field_str(v, "Abbrev"@)
    &&& field_str(r, "Name"@) == field_str(v, "Name"@)
}

/// Decodes one group record, or fails with a schema error.
pub fn decode_group(v: &JsonValue) -> (r: Result<Group, Error>)
    ensures
        group_ok(*v) ==> (r matches Ok(x) && group_matches(x, *v)),
        !group_ok(*v) ==> r == Err::<Group, Error>(Error::Schema),
{
    let class_id = get_str_field(v, "ClassId")?;
    let id = get_str_field(v, "Id")?;
    let abbreviation = get_str_field(v, "Abbrev")?;
    let name = get_str_field(v, "Name")?;
    Ok(Group { class_id, id, abbreviation, name })
}

/// Encodes one group record back into its external object shape.
pub fn encode_group(x: &Group) -> (r: JsonValue)
    ensures
        group_encoding(r, *x),
{
    let mut fields: Vec<(String, JsonValue)> = Vec::new();
    fields.push((String::from_str("ClassId"), JsonValue::Str(x.class_id.clone())));
    fields.push((String::from_str("Id"), JsonValue::Str(x.id.clone())));
    fields.push((String::from_str("Abbrev"), JsonValue::Str(x.abbreviation.clone())));
    fields.push((String::from_str("Name"), JsonValue::Str(x.name.clone())));
    JsonValue::Obj(fields)
}

/// Round trip: re-encoding a decoded group record loses no field of the
/// source tree.
pub proof fn lemma_group_round_trip(v: JsonValue, x: Group, r: JsonValue)
    requires
        group_matches(x, v),
        group_encoding(r, x),
    ensures
        group_preserved(v, r),
{
    reveal_strlit("ClassId");
    reveal_strlit("Id");
    reveal_strlit("Abbrev");
    reveal_strlit("Name");
    assert("ClassId"@.len() == 7 && "Id"@.len() == 2 && "Abbrev"@.len() == 6 && "Name"@.len() == 4);
    let fields = r->Obj_0@;
    lemma_lookup_found(fields, "ClassId"@, 0);
    lemma_lookup_found(fields, "Id"@, 1);
    lemma_lookup_found(fields, "Abbrev"@, 2);
    lemma_lookup_found(fields, "Name"@, 3);
}

/// Represents a subject.
#[derive(Debug)]
pub struct Subject {
    pub id: String,
    pub abbreviation: String,
    pub name: String,
}

/// The tree carries every field the subject schema requires.
pub open spec fn subject_ok(v: JsonValue) -> bool {
    &&& field_str(v, "Id"@) is Some
    &&& field_str(v, "Abbrev"@) is Some
    &&& field_str(v, "Name"@) is Some
}

/// `x` is exactly what decoding `v` against the subject schema yields.
pub open spec fn subject_matches(x: Subject, v: JsonValue) -> bool {
    &&& field_str(v, "Id"@) == Some(x.id@)
    &&& field_str(v, "Abbrev"@) == Some(x.abbreviation@)
    &&& field_str(v, "Name"@) == Some(x.name@)
}

/// `r` is exactly the tree that encoding `x` yields.
pub open spec fn subject_encoding(r: JsonValue, x: Subject) -> bool {
    &&& r matches JsonValue::Obj(fields)
    &&& r->Obj_0@.len() == 3
    &&& is_str_entry(r->Obj_0@[0], "Id"@, x.id@)
    &&& is_str_entry(r->Obj_0@[1], "Abbrev"@, x.abbreviation@)
    &&& is_str_entry(r->Obj_0@[2], "Name"@, x.name@)
}

/// Every subject field of `v` is carried, unchanged, by `r`.
pub open spec fn subject_preserved(v: JsonValue, r: JsonValue) -> bool {
    &&& field_str(r, "Id"@) == field_str(v, "Id"@)
    &&& field_str(r, "Abbrev"@) == field_str(v, "Abbrev"@)
    &&& field_str(r, "Name"@) == field_str(v, "Name"@)
}

/// Decodes one subject record, or fails with a schema error.
pub fn decode_subject(v: &JsonValue) -> (r: Result<Subject, Error>)
    ensures
        subject_ok(*v) ==> (r matches Ok(x) && subject_matches(x, *v)),
        !subject_ok(*v) ==> r == Err::<Subject, Error>(Error::Schema),
{
    let id = get_str_field(v, "Id")?;
    let abbreviation = get_str_field(v, "Abbrev")?;
    let name = get_str_field(v, "Name")?;
    Ok(Subject { id, abbreviation, name })
}

/// Encodes one subject record back into its external object shape.
pub fn encode_subject(x: &Subject) -> (r: JsonValue)
    ensures
        subject_encoding(r, *x),
{
    let mut fields: Vec<(String, JsonValue)> = Vec::new();
    fields.push((String::from_str("Id"), JsonValue::Str(x.id.clone())));
    fields.push((String::from_str("Abbrev"), JsonValue::Str(x.abbreviation.clone())));
    fields.push((String::from_str("Name"), JsonValue::Str(x.name.clone())));
    JsonValue::Obj(fields)
}

/// Round trip: re-encoding a decoded subject record loses no field of the
/// source tree.
pub proof fn lemma_subject_round_trip(v: JsonValue, x: Subject, r: JsonValue)
    requires
        subject_matches(x, v),
        subject_encoding(r, x),
    ensures
        subject_preserved(v, r),
{
    reveal_strlit("Id");
    reveal_strlit("Abbrev");
    reveal_strlit("Name");
    assert("Id"@.len() == 2 && "Abbrev"@.len() == 6 && "Name"@.len() == 4);
    let fields = r->Obj_0@;
    lemma_lookup_found(fields, "Id"@, 0);
    lemma_lookup_found(fields, "Abbrev"@, 1);
    lemma_lookup_found(fields, "Name"@, 2);
}

/// Represents a teacher.
#[derive(Debug)]
pub struct Teacher {
    pub id: String,
    pub abbreviation: String,
    pub name: String,
}

/// The tree carries every field the teacher schema requires.
pub open spec fn teacher_ok(v: JsonValue) -> bool {
    &&& field_str(v, "Id"@) is Some
    &&& field_str(v, "Abbrev"@) is Some
    &&& field_str(v, "Name"@) is Some
}

/// `x` is exactly what decoding `v` against the teacher schema yields.
pub open spec fn teacher_matches(x: Teacher, v: JsonValue) -> bool {
    &&& field_str(v, "Id"@) == Some(x.id@)
    &&& field_str(v, "Abbrev"@) == Some(x.abbreviation@)
    &&& field_str(v, "Name"@) == Some(x.name@)
}

/// `r` is exactly the tree that encoding `x` yields.
pub open spec fn teacher_encoding(r: JsonValue, x: Teacher) -> bool {
    &&& r matches JsonValue::Obj(fields)
    &&& r->Obj_0@.len() == 3
    &&& is_str_entry(r->Obj_0@[0], "Id"@, x.id@)
    &&& is_str_entry(r->Obj_0@[1], "Abbrev"@, x.abbreviation@)
    &&& is_str_entry(r->Obj_0@[2], "Name"@, x.name@)
}

/// Every teacher field of `v` is carried, unchanged, by `r`.
pub open spec fn teacher_preserved(v: JsonValue, r: JsonValue) -> bool {
    &&& field_str(r, "Id"@) == field_str(v, "Id"@)
    &&& field_str(r, "Abbrev"@) == field_str(v, "Abbrev"@)
    &&& field_str(r, "Name"@) == field_str(v, "Name"@)
}

/// Decodes one teacher record, or fails with a schema error.
pub fn decode_teacher(v: &JsonValue) -> (r: Result<Teacher, Error>)
    ensures
        teacher_ok(*v) ==> (r matches Ok(x) && teacher_matches(x, *v)),
        !teacher_ok(*v) ==> r == Err::<Teacher, Error>(Error::Schema),
{
    let id = get_str_field(v, "Id")?;
    let abbreviation = get_str_field(v, "Abbrev")?;
    let name = get_str_field(v, "Name")?;
    Ok(Teacher { id, abbreviation, name })
}

/// Encodes one teacher record back into its external object shape.
pub fn encode_teacher(x: &Teacher) -> (r: JsonValue)
    ensures
        teacher_encoding(r, *x),
{
    let mut fields: Vec<(String, JsonValue)> = Vec::new();
    fields.push((String::from_str("Id"), JsonValue::Str(x.id.clone())));
    fields.push((String::from_str("Abbrev"), JsonValue::Str(x.abbreviation.clone())));
    fields.push((String::from_str("Name"), JsonValue::Str(x.name.clone())));
    JsonValue::Obj(fields)
}

/// Round trip: re-encoding a decoded teacher record loses no field of the
/// source tree.
pub proof fn lemma_teacher_round_trip(v: JsonValue, x: Teacher, r: JsonValue)
    requires
        teacher_matches(x, v),
        teacher_encoding(r, x),
    ensures
        teacher_preserved(v, r),
{
    reveal_strlit("Id");
    reveal_strlit("Abbrev");
    reveal_strlit("Name");
    assert("Id"@.len() == 2 && "Abbrev"@.len() == 6 && "Name"@.len() == 4);
    let fields = r->Obj_0@;
    lemma_lookup_found(fields, "Id"@, 0);
    lemma_lookup_found(fields, "Abbrev"@, 1);
    lemma_lookup_found(fields, "Name"@, 2);
}

/// Represents a room.
#[derive(Debug)]
pub struct Room {
    pub id: String,
    pub abbreviation: String,
    pub name: String,
}

/// The tree carries every field the room schema requires.
pub open spec fn room_ok(v: JsonValue) -> bool {
    &&& field_str(v, "Id"@) is Some
    &&& field_str(v, "Abbrev"@) is Some
    &&& field_str(v, "Name"@) is Some
}

/// `x` is exactly what decoding `v` against the room schema yields.
pub open spec fn room_matches(x: Room, v: JsonValue) -> bool {
    &&& field_str(v, "Id"@) == Some(x.id@)
    &&& field_str(v, "Abbrev"@) == Some(x.abbreviation@)
    &&& field_str(v, "Name"@) == Some(x.name@)
}

/// `r` is exactly the tree that encoding `x` yields.
pub open spec fn room_encoding(r: JsonValue, x: Room) -> bool {
    &&& r matches JsonValue::Obj(fields)
    &&& r->Obj_0@.len() == 3
    &&& is_str_entry(r->Obj_0@[0], "Id"@, x.id@)
    &&& is_str_entry(r->Obj_0@[1], "Abbrev"@, x.abbreviation@)
    &&& is_str_entry(r->Obj_0@[2], "Name"@, x.name@)
}

/// Every room field of `v` is carried, unchanged, by `r`.
pub open spec fn room_preserved(v: JsonValue, r: JsonValue) -> bool {
    &&& field_str(r, "Id"@) == field_str(v, "Id"@)
    &&& field_str(r, "Abbrev"@) == field_str(v, "Abbrev"@)
    &&& field_str(r, "Name"@) == field_str(v, "Name"@)
}

/// Decodes one room record, or fails with a schema error.
pub fn decode_room(v: &JsonValue) -> (r: Result<Room, Error>)
    ensures
        room_ok(*v) ==> (r matches Ok(x) && room_matches(x, *v)),
        !room_ok(*v) ==> r == Err::<Room, Error>(Error::Schema),
{
    let id = get_str_field(v, "Id")?;
    let abbreviation = get_str_field(v, "Abbrev")?;
    let name = get_str_field(v, "Name")?;
    Ok(Room { id, abbreviation, name })
}

/// Encodes one room record back into its external object shape.
pub fn encode_room(x: &Room) -> (r: JsonValue)
    ensures
        room_encoding(r, *x),
{
    let mut fields: Vec<(String, JsonValue)> = Vec::new();
    fields.push((String::from_str("Id"), JsonValue::Str(x.id.clone())));
    fields.push((String::from_str("Abbrev"), JsonValue::Str(x.abbreviation.clone())));
    fields.push((String::from_str("Name"), JsonValue::Str(x.name.clone())));
    JsonValue::Obj(fields)
}

/// Round trip: re-encoding a decoded room record loses no field of the
/// source tree.
pub proof fn lemma_room_round_trip(v: JsonValue, x: Room, r: JsonValue)
    requires
        room_matches(x, v),
        room_encoding(r, x),
    ensures
        room_preserved(v, r),
{
    reveal_strlit("Id");
    reveal_strlit("Abbrev");
    reveal_strlit("Name");
    assert("Id"@.len() == 2 && "Abbrev"@.len() == 6 && "Name"@.len() == 4);
    let fields = r->Obj_0@;
    lemma_lookup_found(fields, "Id"@, 0);
    lemma_lookup_found(fields, "Abbrev"@, 1);
    lemma_lookup_found(fields, "Name"@, 2);
}

/// Represents a rotation cycle.
#[derive(Debug)]
pub struct Cycle {
    pub id: String,
    pub abbreviation: String,
    pub name: String,
}

/// The tree carries every field the cycle schema requires.
pub open spec fn cycle_ok(v: JsonValue) -> bool {
    &&& field_str(v, "Id"@) is Some
    &&& field_str(v, "Abbrev"@) is Some
    &&& field_str(v, "Name"@) is Some
}

/// `x` is exactly what decoding `v` against the cycle schema yields.
pub open spec fn cycle_matches(x: Cycle, v: JsonValue) -> bool {
    &&& field_str(v, "Id"@) == Some(x.id@)
    &&& field_str(v, "Abbrev"@) == Some(x.abbreviation@)
    &&& field_str(v, "Name"@) == Some(x.name@)
}

/// `r` is exactly the tree that encoding `x` yields.
pub open spec fn cycle_encoding(r: JsonValue, x: Cycle) -> bool {
    &&& r matches JsonValue::Obj(fields)
    &&& r->Obj_0@.len() == 3
    &&& is_str_entry(r->Obj_0@[0], "Id"@, x.id@)
    &&& is_str_entry(r->Obj_0@[1], "Abbrev"@, x.abbreviation@)
    &&& is_str_entry(r->Obj_0@[2], "Name"@, x.name@)
}

/// Every cycle field of `v` is carried, unchanged, by `r`.
pub open spec fn cycle_preserved(v: JsonValue, r: JsonValue) -> bool {
    &&& field_str(r, "Id"@) == field_str(v, "Id"@)
    &&& field_str(r, "Abbrev"@) == field_str(v, "Abbrev"@)
    &&& field_str(r, "Name"@) == field_str(v, "Name"@)
}

/// Decodes one cycle record, or fails with a schema error.
pub fn decode_cycle(v: &JsonValue) -> (r: Result<Cycle, Error>)
    ensures
        cycle_ok(*v) ==> (r matches Ok(x) && cycle_matches(x, *v)),
        !cycle_ok(*v) ==> r == Err::<Cycle, Error>(Error::Schema),
{
    let id = get_str_field(v, "Id")?;
    let abbreviation = get_str_field(v, "Abbrev")?;
    let name = get_str_field(v, "Name")?;
    Ok(Cycle { id, abbreviation, name })
}

/// Encodes one cycle record back into its external object shape.
pub fn encode_cycle(x: &Cycle) -> (r: JsonValue)
    ensures
        cycle_encoding(r, *x),
{
    let mut fields: Vec<(String, JsonValue)> = Vec::new();
    fields.push((String::from_str("Id"), JsonValue::Str(x.id.clone())));
    fields.push((String::from_str("Abbrev"), JsonValue::Str(x.abbreviation.clone())));
    fields.push((String::from_str("Name"), JsonValue::Str(x.name.clone())));
    JsonValue::Obj(fields)
}

/// Round trip: re-encoding a decoded cycle record loses no field of the
/// source tree.
pub proof fn lemma_cycle_round_trip(v: JsonValue, x: Cycle, r: JsonValue)
    requires
        cycle_matches(x, v),
        cycle_encoding(r, x),
    ensures
        cycle_preserved(v, r),
{
    reveal_strlit("Id");
    reveal_strlit("Abbrev");
    reveal_strlit("Name");
    assert("Id"@.len() == 2 && "Abbrev"@.len() == 6 && "Name"@.len() == 4);
    let fields = r->Obj_0@;
    lemma_lookup_found(fields, "Id"@, 0);
    lemma_lookup_found(fields, "Abbrev"@, 1);
    lemma_lookup_found(fields, "Name"@, 2);
}

/// Represents one schedulable hour of the day.
#[derive(Debug)]
pub struct Hour {
    pub id: i8,
    pub caption: String,
    pub begin_time: String,
    pub end_time: String,
}

/// The tree carries every field the hour schema requires.
pub open spec fn hour_ok(v: JsonValue) -> bool {
    &&& (field_int(v, "Id"@) matches Some(n) && i8::MIN <= n <= i8::MAX)
    &&& field_str(v, "Caption"@) is Some
    &&& field_str(v, "BeginTime"@) is Some
    &&& field_str(v, "EndTime"@) is Some
}

/// `x` is exactly what decoding `v` against the hour schema yields.
pub open spec fn hour_matches(x: Hour, v: JsonValue) -> bool {
    &&& field_int(v, "Id"@) == Some(x.id as int)
    &&& field_str(v, "Caption"@) == Some(x.caption@)
    &&& field_str(v, "BeginTime"@) == Some(x.begin_time@)
    &&& field_str(v, "EndTime"@) == Some(x.end_time@)
}

/// `r` is exactly the tree that encoding `x` yields.
pub open spec fn hour_encoding(r: JsonValue, x: Hour) -> bool {
    &&& r matches JsonValue::Obj(fields)
    &&& r->Obj_0@.len() == 4
    &&& is_int_entry(r->Obj_0@[0], "Id"@, x.id as int)
    &&& is_str_entry(r->Obj_0@[1], "Caption"@, x.caption@)
    &&& is_str_entry(r->Obj_0@[2], "BeginTime"@, x.begin_time@)
    &&& is_str_entry(r->Obj_0@[3], "EndTime"@, x.end_time@)
}

/// Every hour field of `v` is carried, unchanged, by `r`.
pub open spec fn hour_preserved(v: JsonValue, r: JsonValue) -> bool {
    &&& field_int(r, "Id"@) == field_int(v, "Id"@)
    &&& field_str(r, "Caption"@) == field_str(v, "Caption"@)
    &&& field_str(r, "BeginTime"@) == field_str(v, "BeginTime"@)
    &&& field_str(r, "EndTime"@) == field_str(v, "EndTime"@)
}

/// Decodes one hour record, or fails with a schema error.
pub fn decode_hour(v: &JsonValue) -> (r: Result<Hour, Error>)
    ensures
        hour_ok(*v) ==> (r matches Ok(x) && hour_matches(x, *v)),
        !hour_ok(*v) ==> r == Err::<Hour, Error>(Error::Schema),
{
    let id = get_i8_field(v, "Id")?;
    let caption = get_str_field(v, "Caption")?;
    let begin_time = get_str_field(v, "BeginTime")?;
    let end_time = get_str_field(v, "EndTime")?;
    Ok(Hour { id, caption, begin_time, end_time })
}

/// Encodes one hour record back into its external object shape.
pub fn encode_hour(x: &Hour) -> (r: JsonValue)
    ensures
        hour_encoding(r, *x),
{
    let mut fields: Vec<(String, JsonValue)> = Vec::new();
    fields.push((String::from_str("Id"), JsonValue::Int(x.id as i64)));
    fields.push((String::from_str("Caption"), JsonValue::Str(x.caption.clone())));
    fields.push((String::from_str("BeginTime"), JsonValue::Str(x.begin_time.clone())));
    fields.push((String::from_str("EndTime"), JsonValue::Str(x.end_time.clone())));
    JsonValue::Obj(fields)
}

/// Round trip: re-encoding a decoded hour record loses no field of the
/// source tree.
pub proof fn lemma_hour_round_trip(v: JsonValue, x: Hour, r: JsonValue)
    requires
        hour_matches(x, v),
        hour_encoding(r, x),
    ensures
        hour_preserved(v, r),
{
    reveal_strlit("Id");
    reveal_strlit("Caption");
    reveal_strlit("BeginTime");
    reveal_strlit("EndTime");
    assert("Id"@.len() == 2 && "Caption"@.len() == 7 && "BeginTime"@.len() == 9 && "EndTime"@.len() == 7);
    assert("Caption"@[0] == 'C' && "EndTime"@[0] == 'E');
    let fields = r->Obj_0@;
    lemma_lookup_found(fields, "Id"@, 0);
    lemma_lookup_found(fields, "Caption"@, 1);
    lemma_lookup_found(fields, "BeginTime"@, 2);
    lemma_lookup_found(fields, "EndTime"@, 3);
}

/// Represents a change applied to a timetable cell.
#[derive(Debug)]
pub struct Change {
    pub change_subject: Option<String>,
    pub day: String,
    pub hours: String,
    pub change_type: String,
    pub description: String,
    pub time: String,
    pub type_abbreviation: Option<String>,
    pub type_label: Option<String>,
}

/// The tree carries every field the change schema requires.
pub open spec fn change_ok(v: JsonValue) -> bool {
    &&& field_opt_str(v, "ChangeSubject"@) is Some
    &&& field_str(v, "Day"@) is Some
    &&& field_str(v, "Hours"@) is Some
    &&& field_str(v, "ChangeType"@) is Some
    &&& field_str(v, "Description"@) is Some
    &&& field_str(v, "Time"@) is Some
    &&& field_opt_str(v, "TypeAbbrev"@) is Some
    &&& field_opt_str(v, "TypeName"@) is Some
}

/// `x` is exactly what decoding `v` against the change schema yields.
pub open spec fn change_matches(x: Change, v: JsonValue) -> bool {
    &&& field_opt_str(v, "ChangeSubject"@) == Some(opt_view(x.change_subject))
    &&& field_str(v, "Day"@) == Some(x.day@)
    &&& field_str(v, "Hours"@) == Some(x.hours@)
    &&& field_str(v, "ChangeType"@) == Some(x.change_type@)
    &&& field_str(v, "Description"@) == Some(x.description@)
    &&& field_str(v, "Time"@) == Some(x.time@)
    &&& field_opt_str(v, "TypeAbbrev"@) == Some(opt_view(x.type_abbreviation))
    &&& field_opt_str(v, "TypeName"@) == Some(opt_view(x.type_label))
}

/// `r` is exactly the tree that encoding `x` yields.
pub open spec fn change_encoding(r: JsonValue, x: Change) -> bool {
    &&& r matches JsonValue::Obj(fields)
    &&& r->Obj_0@.len() == 8
    &&& is_opt_str_entry(r->Obj_0@[0], "ChangeSubject"@, opt_view(x.change_subject))
    &&& is_str_entry(r->Obj_0@[1], "Day"@, x.day@)
    &&& is_str_entry(r->Obj_0@[2], "Hours"@, x.hours@)
    &&& is_str_entry(r->Obj_0@[3], "ChangeType"@, x.change_type@)
    &&& is_str_entry(r->Obj_0@[4], "Description"@, x.description@)
    &&& is_str_entry(r->Obj_0@[5], "Time"@, x.time@)
    &&& is_opt_str_entry(r->Obj_0@[6], "TypeAbbrev"@, opt_view(x.type_abbreviation))
    &&& is_opt_str_entry(r->Obj_0@[7], "TypeName"@, opt_view(x.type_label))
}

/// Every change field of `v` is carried, unchanged, by `r`.
pub open spec fn change_preserved(v: JsonValue, r: JsonValue) -> bool {
    &&& field_opt_str(r, "ChangeSubject"@) == field_opt_str(v, "ChangeSubject"@)
    &&& field_str(r, "Day"@) == field_str(v, "Day"@)
    &&& field_str(r, "Hours"@) == field_str(v, "Hours"@)
    &&& field_str(r, "ChangeType"@) == field_str(v, "ChangeType"@)
    &&& field_str(r, "Description"@) == field_str(v, "Description"@)
    &&& field_str(r, "Time"@) == field_str(v, "Time"@)
    &&& field_opt_str(r, "TypeAbbrev"@) == field_opt_str(v, "TypeAbbrev"@)
    &&& field_opt_str(r, "TypeName"@) == field_opt_str(v, "TypeName"@)
}

/// Decodes one change record, or fails with a schema error.
pub fn decode_change(v: &JsonValue) -> (r: Result<Change, Error>)
    ensures
        change_ok(*v) ==> (r matches Ok(x) && change_matches(x, *v)),
        !change_ok(*v) ==> r == Err::<Change, Error>(Error::Schema),
{
    let change_subject = get_opt_str_field(v, "ChangeSubject")?;
    let day = get_str_field(v, "Day")?;
    let hours = get_str_field(v, "Hours")?;
    let change_type = get_str_field(v, "ChangeType")?;
    let description = get_str_field(v, "Description")?;
    let time = get_str_field(v, "Time")?;
    let type_abbreviation = get_opt_str_field(v, "TypeAbbrev")?;
    let type_label = get_opt_str_field(v, "TypeName")?;
    Ok(Change { change_subject, day, hours, change_type, description, time, type_abbreviation, type_label })
}

/// Encodes one change record back into its external object shape.
pub fn encode_change(x: &Change) -> (r: JsonValue)
    ensures
        change_encoding(r, *x),
{
    let mut fields: Vec<(String, JsonValue)> = Vec::new();
    let change_subject = match &x.change_subject {
        Some(s) => JsonValue::Str(s.clone()),
        None => JsonValue::Null,
    };
    fields.push((String::from_str("ChangeSubject"), change_subject));
    fields.push((String::from_str("Day"), JsonValue::Str(x.day.clone())));
    fields.push((String::from_str("Hours"), JsonValue::Str(x.hours.clone())));
    fields.push((String::from_str("ChangeType"), JsonValue::Str(x.change_type.clone())));
    fields.push((String::from_str("Description"), JsonValue::Str(x.description.clone())));
    fields.push((String::from_str("Time"), JsonValue::Str(x.time.clone())));
    let type_abbreviation = match &x.type_abbreviation {
        Some(s) => JsonValue::Str(s.clone()),
        None => JsonValue::Null,
    };
    fields.push((String::from_str("TypeAbbrev"), type_abbreviation));
    let type_label = match &x.type_label {
        Some(s) => JsonValue::Str(s.clone()),
        None => JsonValue::Null,
    };
    fields.push((String::from_str("TypeName"), type_label));
    JsonValue::Obj(fields)
}

/// Round trip: re-encoding a decoded change record loses no field of the
/// source tree.
pub proof fn lemma_change_round_trip(v: JsonValue, x: Change, r: JsonValue)
    requires
        change_matches(x, v),
        change_encoding(r, x),
    ensures
        change_preserved(v, r),
{
    reveal_strlit("ChangeSubject");
    reveal_strlit("Day");
    reveal_strlit("Hours");
    reveal_strlit("ChangeType");
    reveal_strlit("Description");
    reveal_strlit("Time");
    reveal_strlit("TypeAbbrev");
    reveal_strlit("TypeName");
    assert("ChangeSubject"@.len() == 13 && "Day"@.len() == 3 && "Hours"@.len() == 5 && "ChangeType"@.len() == 10 && "Description"@.len() == 11 && "Time"@.len() == 4 && "TypeAbbrev"@.len() == 10 && "TypeName"@.len() == 8);
    assert("ChangeType"@[0] == 'C' && "TypeAbbrev"@[0] == 'T');
    let fields = r->Obj_0@;
    lemma_lookup_found(fields, "ChangeSubject"@, 0);
    lemma_lookup_found(fields, "Day"@, 1);
    lemma_lookup_found(fields, "Hours"@, 2);
    lemma_lookup_found(fields, "ChangeType"@, 3);
    lemma_lookup_found(fields, "Description"@, 4);
    lemma_lookup_found(fields, "Time"@, 5);
    lemma_lookup_found(fields, "TypeAbbrev"@, 6);
    lemma_lookup_found(fields, "TypeName"@, 7);
}

} // verus!

use crate::json::encode_str_arr;
use crate::json::lemma_str_arr_entry_view;

verus! {

/// One timetable cell.
#[derive(Debug)]
pub struct Atom {
    pub hour_id: i8,
    pub group_ids: Vec<String>,
    pub subject_id: Option<String>,
    pub teacher_id: Option<String>,
    pub room_id: Option<String>,
    pub cycle_ids: Vec<String>,
    pub change: Option<Change>,
    pub homework_ids: Vec<String>,
    pub theme: Option<String>,
}

/// The tree carries every field the cell schema requires.
pub open spec fn atom_ok(v: JsonValue) -> bool {
    &&& (field_int(v, "HourId"@) matches Some(n) && i8::MIN <= n <= i8::MAX)
    &&& field_str_arr(v, "GroupIds"@) is Some
    &&& field_opt_str(v, "SubjectId"@) is Some
    &&& field_opt_str(v, "TeacherId"@) is Some
    &&& field_opt_str(v, "RoomId"@) is Some
    &&& field_str_arr(v, "CycleIds"@) is Some
    &&& match obj_lookup(v, "Change"@) {
        None => true,
        Some(JsonValue::Null) => true,
        Some(cv) => change_ok(cv),
    }
    &&& field_str_arr(v, "HomeworkIds"@) is Some
    &&& field_opt_str(v, "Theme"@) is Some
}

/// `x` is exactly what decoding `v` against the cell schema yields.
pub open spec fn atom_matches(x: Atom, v: JsonValue) -> bool {
    &&& field_int(v, "HourId"@) == Some(x.hour_id as int)
    &&& field_str_arr(v, "GroupIds"@) == Some(x.group_ids.deep_view())
    &&& field_opt_str(v, "SubjectId"@) == Some(opt_view(x.subject_id))
    &&& field_opt_str(v, "TeacherId"@) == Some(opt_view(x.teacher_id))
    &&& field_opt_str(v, "RoomId"@) == Some(opt_view(x.room_id))
    &&& field_str_arr(v, "CycleIds"@) == Some(x.cycle_ids.deep_view())
    &&& match obj_lookup(v, "Change"@) {
        None => x.change is None,
        Some(JsonValue::Null) => x.change is None,
        Some(cv) => x.change matches Some(c) && change_matches(c, cv),
    }
    &&& field_str_arr(v, "HomeworkIds"@) == Some(x.homework_ids.deep_view())
    &&& field_opt_str(v, "Theme"@) == Some(opt_view(x.theme))
}

/// `r` is exactly the tree that encoding `x` yields.
pub open spec fn atom_encoding(r: JsonValue, x: Atom) -> bool {
    &&& r matches JsonValue::Obj(fields)
    &&& r->Obj_0@.len() == 9
    &&& is_int_entry(r->Obj_0@[0], "HourId"@, x.hour_id as int)
    &&& is_str_arr_entry(r->Obj_0@[1], "GroupIds"@, x.group_ids.deep_view())
    &&& is_opt_str_entry(r->Obj_0@[2], "SubjectId"@, opt_view(x.subject_id))
    &&& is_opt_str_entry(r->Obj_0@[3], "TeacherId"@, opt_view(x.teacher_id))
    &&& is_opt_str_entry(r->Obj_0@[4], "RoomId"@, opt_view(x.room_id))
    &&& is_str_arr_entry(r->Obj_0@[5], "CycleIds"@, x.cycle_ids.deep_view())
    &&& r->Obj_0@[6].0@ == "Change"@
    &&& match x.change {
        Some(c) => change_encoding(r->Obj_0@[6].1, c),
        None => r->Obj_0@[6].1 == JsonValue::Null,
    }
    &&& is_str_arr_entry(r->Obj_0@[7], "HomeworkIds"@, x.homework_ids.deep_view())
    &&& is_opt_str_entry(r->Obj_0@[8], "Theme"@, opt_view(x.theme))
}

/// Every cell field of `v` is carried, unchanged, by `r`.
pub open spec fn atom_preserved(v: JsonValue, r: JsonValue) -> bool {
    &&& field_int(r, "HourId"@) == field_int(v, "HourId"@)
    &&& field_str_arr(r, "GroupIds"@) == field_str_arr(v, "GroupIds"@)
    &&& field_opt_str(r, "SubjectId"@) == field_opt_str(v, "SubjectId"@)
    &&& field_opt_str(r, "TeacherId"@) == field_opt_str(v, "TeacherId"@)
    &&& field_opt_str(r, "RoomId"@) == field_opt_str(v, "RoomId"@)
    &&& field_str_arr(r, "CycleIds"@) == field_str_arr(v, "CycleIds"@)
    &&& match obj_lookup(v, "Change"@) {
        None => true,
        Some(JsonValue::Null) => obj_lookup(r, "Change"@) == Some(JsonValue::Null),
        Some(cv) => obj_lookup(r, "Change"@) matches Some(rv) && change_preserved(cv, rv),
    }
    &&& field_str_arr(r, "HomeworkIds"@) == field_str_arr(v, "HomeworkIds"@)
    &&& field_opt_str(r, "Theme"@) == field_opt_str(v, "Theme"@)
}

/// Decodes one timetable cell, or fails with a schema error.
pub fn decode_atom(v: &JsonValue) -> (r: Result<Atom, Error>)
    ensures
        atom_ok(*v) ==> (r matches Ok(x) && atom_matches(x, *v)),
        !atom_ok(*v) ==> r == Err::<Atom, Error>(Error::Schema),
{
    let hour_id = get_i8_field(v, "HourId")?;
    let group_ids = get_str_arr_field(v, "GroupIds")?;
    let subject_id = get_opt_str_field(v, "SubjectId")?;
    let teacher_id = get_opt_str_field(v, "TeacherId")?;
    let room_id = get_opt_str_field(v, "RoomId")?;
    let cycle_ids = get_str_arr_field(v, "CycleIds")?;
    let change = match get_field(v, "Change") {
        None => None,
        Some(JsonValue::Null) => None,
        Some(cv) => Some(decode_change(cv)?),
    };
    let homework_ids = get_str_arr_field(v, "HomeworkIds")?;
    let theme = get_opt_str_field(v, "Theme")?;
    Ok(
        Atom {
            hour_id,
            group_ids,
            subject_id,
            teacher_id,
            room_id,
            cycle_ids,
            change,
            homework_ids,
            theme,
        },
    )
}

/// Encodes one timetable cell back into its external object shape.
pub fn encode_atom(x: &Atom) -> (r: JsonValue)
    ensures
        atom_encoding(r, *x),
{
    let mut fields: Vec<(String, JsonValue)> = Vec::new();
    fields.push((String::from_str("HourId"), JsonValue::Int(x.hour_id as i64)));
    fields.push((String::from_str("GroupIds"), JsonValue::Arr(encode_str_arr(&x.group_ids))));
    let subject_id = match &x.subject_id {
        Some(s) => JsonValue::Str(s.clone()),
        None => JsonValue::Null,
    };
    fields.push((String::from_str("SubjectId"), subject_id));
    let teacher_id = match &x.teacher_id {
        Some(s) => JsonValue::Str(s.clone()),
        None => JsonValue::Null,
    };
    fields.push((String::from_str("TeacherId"), teacher_id));
    let room_id = match &x.room_id {
        Some(s) => JsonValue::Str(s.clone()),
        None => JsonValue::Null,
    };
    fields.push((String::from_str("RoomId"), room_id));
    fields.push((String::from_str("CycleIds"), JsonValue::Arr(encode_str_arr(&x.cycle_ids))));
    let change = match &x.change {
        Some(c) => encode_change(c),
        None => JsonValue::Null,
    };
    fields.push((String::from_str("Change"), change));
    fields.push(
        (String::from_str("HomeworkIds"), JsonValue::Arr(encode_str_arr(&x.homework_ids))),
    );
    let theme = match &x.theme {
        Some(s) => JsonValue::Str(s.clone()),
        None => JsonValue::Null,
    };
    fields.push((String::from_str("Theme"), theme));
    JsonValue::Obj(fields)
}

/// Round trip: re-encoding a decoded timetable cell loses no field of the
/// source tree.
pub proof fn lemma_atom_round_trip(v: JsonValue, x: Atom, r: JsonValue)
    requires
        atom_matches(x, v),
        atom_encoding(r, x),
    ensures
        atom_preserved(v, r),
{
    reveal_strlit("HourId");
    reveal_strlit("GroupIds");
    reveal_strlit("SubjectId");
    reveal_strlit("TeacherId");
    reveal_strlit("RoomId");
    reveal_strlit("CycleIds");
    reveal_strlit("Change");
    reveal_strlit("HomeworkIds");
    reveal_strlit("Theme");
    assert("HourId"@.len() == 6 && "GroupIds"@.len() == 8 && "SubjectId"@.len() == 9
        && "TeacherId"@.len() == 9 && "RoomId"@.len() == 6 && "CycleIds"@.len() == 8
        && "Change"@.len() == 6 && "HomeworkIds"@.len() == 11 && "Theme"@.len() == 5);
    assert("HourId"@[0] == 'H' && "RoomId"@[0] == 'R' && "Change"@[0] == 'C' && "GroupIds"@[0]
        == 'G' && "CycleIds"@[0] == 'C' && "SubjectId"@[0] == 'S' && "TeacherId"@[0] == 'T');
    let fields = r->Obj_0@;
    lemma_lookup_found(fields, "HourId"@, 0);
    lemma_lookup_found(fields, "GroupIds"@, 1);
    lemma_lookup_found(fields, "SubjectId"@, 2);
    lemma_lookup_found(fields, "TeacherId"@, 3);
    lemma_lookup_found(fields, "RoomId"@, 4);
    lemma_lookup_found(fields, "CycleIds"@, 5);
    lemma_lookup_found(fields, "Change"@, 6);
    lemma_lookup_found(fields, "HomeworkIds"@, 7);
    lemma_lookup_found(fields, "Theme"@, 8);
    lemma_str_arr_entry_view(fields[1], "GroupIds"@, x.group_ids.deep_view(), r);
    lemma_str_arr_entry_view(fields[5], "CycleIds"@, x.cycle_ids.deep_view(), r);
    lemma_str_arr_entry_view(fields[7], "HomeworkIds"@, x.homework_ids.deep_view(), r);
    match obj_lookup(v, "Change"@) {
        Some(cv) => {
            if !(cv is Null) {
                let c = x.change->Some_0;
                lemma_change_round_trip(cv, c, fields[6].1);
            }
        },
        None => {},
    }
}

} // verus!

verus! {

/// One day of the timetable: its cells and its calendar description.
#[derive(Debug)]
pub struct Day {
    pub atoms: Vec<Atom>,
    pub day_of_week: i8,
    pub date: String,
    pub day_description: String,
    pub day_type: String,
}

/// The tree carries every field the day schema requires.
pub open spec fn day_ok(v: JsonValue) -> bool {
    &&& field_arr(v, "Atoms"@) matches Some(elems) && (forall|i: int|
        0 <= i < elems.len() ==> atom_ok(#[trigger] elems[i]))
    &&& (field_int(v, "DayOfWeek"@) matches Some(n) && i8::MIN <= n <= i8::MAX)
    &&& field_str(v, "Date"@) is Some
    &&& field_str(v, "DayDescription"@) is Some
    &&& field_str(v, "DayType"@) is Some
}

/// `x` is exactly what decoding `v` against the day schema yields.
pub open spec fn day_matches(x: Day, v: JsonValue) -> bool {
    &&& field_arr(v, "Atoms"@) matches Some(elems) && x.atoms@.len() == elems.len() && (forall|
        i: int,
    |
        0 <= i < elems.len() ==> atom_matches(x.atoms@[i], #[trigger] elems[i]))
    &&& field_int(v, "DayOfWeek"@) == Some(x.day_of_week as int)
    &&& field_str(v, "Date"@) == Some(x.date@)
    &&& field_str(v, "DayDescription"@) == Some(x.day_description@)
    &&& field_str(v, "DayType"@) == Some(x.day_type@)
}

/// `r` is exactly the tree that encoding `x` yields.
pub open spec fn day_encoding(r: JsonValue, x: Day) -> bool {
    &&& r matches JsonValue::Obj(fields)
    &&& r->Obj_0@.len() == 5
    &&& r->Obj_0@[0].0@ == "Atoms"@
    &&& r->Obj_0@[0].1 matches JsonValue::Arr(enc) && enc@.len() == x.atoms@.len() && (forall|
        i: int,
    |
        0 <= i < enc@.len() ==> atom_encoding(#[trigger] enc@[i], x.atoms@[i]))
    &&& is_int_entry(r->Obj_0@[1], "DayOfWeek"@, x.day_of_week as int)
    &&& is_str_entry(r->Obj_0@[2], "Date"@, x.date@)
    &&& is_str_entry(r->Obj_0@[3], "DayDescription"@, x.day_description@)
    &&& is_str_entry(r->Obj_0@[4], "DayType"@, x.day_type@)
}

/// Every day field of `v` is carried, unchanged, by `r`.
pub open spec fn day_preserved(v: JsonValue, r: JsonValue) -> bool {
    &&& match field_arr(v, "Atoms"@) {
        Some(elems) => field_arr(r, "Atoms"@) matches Some(re) && re.len() == elems.len() && (
        forall|i: int| 0 <= i < elems.len() ==> atom_preserved(#[trigger] elems[i], re[i])),
        None => true,
    }
    &&& field_int(r, "DayOfWeek"@) == field_int(v, "DayOfWeek"@)
    &&& field_str(r, "Date"@) == field_str(v, "Date"@)
    &&& field_str(r, "DayDescription"@) == field_str(v, "DayDescription"@)
    &&& field_str(r, "DayType"@) == field_str(v, "DayType"@)
}

/// Decodes one day, or fails with a schema error.
pub fn decode_day(v: &JsonValue) -> (r: Result<Day, Error>)
    ensures
        day_ok(*v) ==> (r matches Ok(x) && day_matches(x, *v)),
        !day_ok(*v) ==> r == Err::<Day, Error>(Error::Schema),
{
    let elems = get_arr_field(v, "Atoms")?;
    let n = elems.len();
    let mut atoms: Vec<Atom> = Vec::new();
    let mut i: usize = 0;
    while i < n
        invariant
            n == elems@.len(),
            i <= n,
            field_arr(*v, "Atoms"@) == Some(elems@),
            atoms@.len() == i,
            forall|k: int| 0 <= k < i ==> atom_matches(atoms@[k], #[trigger] elems@[k]),
        decreases n - i,
    {
        match decode_atom(&elems[i]) {
            Ok(x) => atoms.push(x),
            Err(e) => {
                proof {
                    if day_ok(*v) {
                        assert(atom_ok(field_arr(*v, "Atoms"@)->Some_0[i as int]));
                    }
                }
                return Err(e);
            },
        }
        i += 1;
    }
    let day_of_week = get_i8_field(v, "DayOfWeek")?;
    let date = get_str_field(v, "Date")?;
    let day_description = get_str_field(v, "DayDescription")?;
    let day_type = get_str_field(v, "DayType")?;
    Ok(Day { atoms, day_of_week, date, day_description, day_type })
}

/// Encodes one day back into its external object shape.
pub fn encode_day(x: &Day) -> (r: JsonValue)
    ensures
        day_encoding(r, *x),
{
    let n = x.atoms.len();
    let mut enc: Vec<JsonValue> = Vec::new();
    let mut i: usize = 0;
    while i < n
        invariant
            n == x.atoms@.len(),
            i <= n,
            enc@.len() == i,
            forall|k: int| 0 <= k < i ==> atom_encoding(#[trigger] enc@[k], x.atoms@[k]),
        decreases n - i,
    {
        enc.push(encode_atom(&x.atoms[i]));
        i += 1;
    }
    let mut fields: Vec<(String, JsonValue)> = Vec::new();
    fields.push((String::from_str("Atoms"), JsonValue::Arr(enc)));
    fields.push((String::from_str("DayOfWeek"), JsonValue::Int(x.day_of_week as i64)));
    fields.push((String::from_str("Date"), JsonValue::Str(x.date.clone())));
    fields.push((String::from_str("DayDescription"), JsonValue::Str(x.day_description.clone())));
    fields.push((String::from_str("DayType"), JsonValue::Str(x.day_type.clone())));
    JsonValue::Obj(fields)
}

/// Round trip: re-encoding a decoded day loses no field of the source tree.
pub proof fn lemma_day_round_trip(v: JsonValue, x: Day, r: JsonValue)
    requires
        day_matches(x, v),
        day_encoding(r, x),
    ensures
        day_preserved(v, r),
{
    reveal_strlit("Atoms");
    reveal_strlit("DayOfWeek");
    reveal_strlit("Date");
    reveal_strlit("DayDescription");
    reveal_strlit("DayType");
    assert("Atoms"@.len() == 5 && "DayOfWeek"@.len() == 9 && "Date"@.len() == 4
        && "DayDescription"@.len() == 14 && "DayType"@.len() == 7);
    let fields = r->Obj_0@;
    lemma_lookup_found(fields, "Atoms"@, 0);
    lemma_lookup_found(fields, "DayOfWeek"@, 1);
    lemma_lookup_found(fields, "Date"@, 2);
    lemma_lookup_found(fields, "DayDescription"@, 3);
    lemma_lookup_found(fields, "DayType"@, 4);
    let elems = field_arr(v, "Atoms"@)->Some_0;
    let re = field_arr(r, "Atoms"@)->Some_0;
    assert forall|i: int| 0 <= i < elems.len() implies atom_preserved(
        #[trigger] elems[i],
        re[i],
    ) by {
        lemma_atom_round_trip(elems[i], x.atoms@[i], re[i]);
    }
}

/// The whole timetable payload: the cells plus the lookup lists they
/// refer to by identifier.
#[derive(Debug)]
pub struct Timetable {
    pub hours: Vec<Hour>,
    pub days: Vec<Day>,
    pub classes: Vec<Class>,
    pub groups: Vec<Group>,
    pub subjects: Vec<Subject>,
    pub teachers: Vec<Teacher>,
    pub rooms: Vec<Room>,
    pub cycles: Vec<Cycle>,
}

/// The tree carries every list the timetable schema requires.
pub open spec fn timetable_ok(v: JsonValue) -> bool {
    &&& field_arr(v, "Hours"@) matches Some(elems) && (forall|i: int|
        0 <= i < elems.len() ==> hour_ok(#[trigger] elems[i]))
    &&& field_arr(v, "Days"@) matches Some(elems) && (forall|i: int|
        0 <= i < elems.len() ==> day_ok(#[trigger] elems[i]))
    &&& field_arr(v, "Classes"@) matches Some(elems) && (forall|i: int|
        0 <= i < elems.len() ==> class_ok(#[trigger] elems[i]))
    &&& field_arr(v, "Groups"@) matches Some(elems) && (forall|i: int|
        0 <= i < elems.len() ==> group_ok(#[trigger] elems[i]))
    &&& field_arr(v, "Subjects"@) matches Some(elems) && (forall|i: int|
        0 <= i < elems.len() ==> subject_ok(#[trigger] elems[i]))
    &&& field_arr(v, "Teachers"@) matches Some(elems) && (forall|i: int|
        0 <= i < elems.len() ==> teacher_ok(#[trigger] elems[i]))
    &&& field_arr(v, "Rooms"@) matches Some(elems) && (forall|i: int|
        0 <= i < elems.len() ==> room_ok(#[trigger] elems[i]))
    &&& field_arr(v, "Cycles"@) matches Some(elems) && (forall|i: int|
        0 <= i < elems.len() ==> cycle_ok(#[trigger] elems[i]))
}

/// `x` is exactly what decoding `v` against the timetable schema yields.
pub open spec fn timetable_matches(x: Timetable, v: JsonValue) -> bool {
    &&& field_arr(v, "Hours"@) matches Some(elems) && x.hours@.len() == elems.len() && (
    forall|i: int| 0 <= i < elems.len() ==> hour_matches(x.hours@[i], #[trigger] elems[i]))
    &&& field_arr(v, "Days"@) matches Some(elems) && x.days@.len() == elems.len() && (
    forall|i: int| 0 <= i < elems.len() ==> day_matches(x.days@[i], #[trigger] elems[i]))
    &&& field_arr(v, "Classes"@) matches Some(elems) && x.classes@.len() == elems.len() && (
    forall|i: int| 0 <= i < elems.len() ==> class_matches(x.classes@[i], #[trigger] elems[i]))
    &&& field_arr(v, "Groups"@) matches Some(elems) && x.groups@.len() == elems.len() && (
    forall|i: int| 0 <= i < elems.len() ==> group_matches(x.groups@[i], #[trigger] elems[i]))
    &&& field_arr(v, "Subjects"@) matches Some(elems) && x.subjects@.len() == elems.len() && (
    forall|i: int| 0 <= i < elems.len() ==> subject_matches(x.subjects@[i], #[trigger] elems[i]))
    &&& field_arr(v, "Teachers"@) matches Some(elems) && x.teachers@.len() == elems.len() && (
    forall|i: int| 0 <= i < elems.len() ==> teacher_matches(x.teachers@[i], #[trigger] elems[i]))
    &&& field_arr(v, "Rooms"@) matches Some(elems) && x.rooms@.len() == elems.len() && (
    forall|i: int| 0 <= i < elems.len() ==> room_matches(x.rooms@[i], #[trigger] elems[i]))
    &&& field_arr(v, "Cycles"@) matches Some(elems) && x.cycles@.len() == elems.len() && (
    forall|i: int| 0 <= i < elems.len() ==> cycle_matches(x.cycles@[i], #[trigger] elems[i]))
}

/// `r` is exactly the tree that encoding `x` yields.
pub open spec fn timetable_encoding(r: JsonValue, x: Timetable) -> bool {
    &&& r matches JsonValue::Obj(fields)
    &&& r->Obj_0@.len() == 8
    &&& r->Obj_0@[0].0@ == "Hours"@
    &&& r->Obj_0@[0].1 matches JsonValue::Arr(enc) && enc@.len() == x.hours@.len() && (
    forall|i: int| 0 <= i < enc@.len() ==> hour_encoding(#[trigger] enc@[i], x.hours@[i]))
    &&& r->Obj_0@[1].0@ == "Days"@
    &&& r->Obj_0@[1].1 matches JsonValue::Arr(enc) && enc@.len() == x.days@.len() && (
    forall|i: int| 0 <= i < enc@.len() ==> day_encoding(#[trigger] enc@[i], x.days@[i]))
    &&& r->Obj_0@[2].0@ == "Classes"@
    &&& r->Obj_0@[2].1 matches JsonValue::Arr(enc) && enc@.len() == x.classes@.len() && (
    forall|i: int| 0 <= i < enc@.len() ==> class_encoding(#[trigger] enc@[i], x.classes@[i]))
    &&& r->Obj_0@[3].0@ == "Groups"@
    &&& r->Obj_0@[3].1 matches JsonValue::Arr(enc) && enc@.len() == x.groups@.len() && (
    forall|i: int| 0 <= i < enc@.len() ==> group_encoding(#[trigger] enc@[i], x.groups@[i]))
    &&& r->Obj_0@[4].0@ == "Subjects"@
    &&& r->Obj_0@[4].1 matches JsonValue::Arr(enc) && enc@.len() == x.subjects@.len() && (
    forall|i: int| 0 <= i < enc@.len() ==> subject_encoding(#[trigger] enc@[i], x.subjects@[i]))
    &&& r->Obj_0@[5].0@ == "Teachers"@
    &&& r->Obj_0@[5].1 matches JsonValue::Arr(enc) && enc@.len() == x.teachers@.len() && (
    forall|i: int| 0 <= i < enc@.len() ==> teacher_encoding(#[trigger] enc@[i], x.teachers@[i]))
    &&& r->Obj_0@[6].0@ == "Rooms"@
    &&& r->Obj_0@[6].1 matches JsonValue::Arr(enc) && enc@.len() == x.rooms@.len() && (
    forall|i: int| 0 <= i < enc@.len() ==> room_encoding(#[trigger] enc@[i], x.rooms@[i]))
    &&& r->Obj_0@[7].0@ == "Cycles"@
    &&& r->Obj_0@[7].1 matches JsonValue::Arr(enc) && enc@.len() == x.cycles@.len() && (
    forall|i: int| 0 <= i < enc@.len() ==> cycle_encoding(#[trigger] enc@[i], x.cycles@[i]))
}

/// Every timetable field of `v` is carried, unchanged, by `r`.
pub open spec fn timetable_preserved(v: JsonValue, r: JsonValue) -> bool {
    &&& match field_arr(v, "Hours"@) {
        Some(elems) => field_arr(r, "Hours"@) matches Some(re) && re.len() == elems.len()
            && (forall|i: int|
            0 <= i < elems.len() ==> hour_preserved(#[trigger] elems[i], re[i])),
        None => true,
    }
    &&& match field_arr(v, "Days"@) {
        Some(elems) => field_arr(r, "Days"@) matches Some(re) && re.len() == elems.len()
            && (forall|i: int|
            0 <= i < elems.len() ==> day_preserved(#[trigger] elems[i], re[i])),
        None => true,
    }
    &&& match field_arr(v, "Classes"@) {
        Some(elems) => field_arr(r, "Classes"@) matches Some(re) && re.len() == elems.len()
            && (forall|i: int|
            0 <= i < elems.len() ==> class_preserved(#[trigger] elems[i], re[i])),
        None => true,
    }
    &&& match field_arr(v, "Groups"@) {
        Some(elems) => field_arr(r, "Groups"@) matches Some(re) && re.len() == elems.len()
            && (forall|i: int|
            0 <= i < elems.len() ==> group_preserved(#[trigger] elems[i], re[i])),
        None => true,
    }
    &&& match field_arr(v, "Subjects"@) {
        Some(elems) => field_arr(r, "Subjects"@) matches Some(re) && re.len() == elems.len()
            && (forall|i: int|
            0 <= i < elems.len() ==> subject_preserved(#[trigger] elems[i], re[i])),
        None => true,
    }
    &&& match field_arr(v, "Teachers"@) {
        Some(elems) => field_arr(r, "Teachers"@) matches Some(re) && re.len() == elems.len()
            && (forall|i: int|
            0 <= i < elems.len() ==> teacher_preserved(#[trigger] elems[i], re[i])),
        None => true,
    }
    &&& match field_arr(v, "Rooms"@) {
        Some(elems) => field_arr(r, "Rooms"@) matches Some(re) && re.len() == elems.len()
            && (forall|i: int|
            0 <= i < elems.len() ==> room_preserved(#[trigger] elems[i], re[i])),
        None => true,
    }
    &&& match field_arr(v, "Cycles"@) {
        Some(elems) => field_arr(r, "Cycles"@) matches Some(re) && re.len() == elems.len()
            && (forall|i: int|
            0 <= i < elems.len() ==> cycle_preserved(#[trigger] elems[i], re[i])),
        None => true,
    }
}

/// Decodes the timetable payload, or fails with a schema error.
pub fn decode_timetable(v: &JsonValue) -> (r: Result<Timetable, Error>)
    ensures
        timetable_ok(*v) ==> (r matches Ok(x) && timetable_matches(x, *v)),
        !timetable_ok(*v) ==> r == Err::<Timetable, Error>(Error::Schema),
{
    let elems = get_arr_field(v, "Hours")?;
    let n = elems.len();
    let mut hours: Vec<Hour> = Vec::new();
    let mut i: usize = 0;
    while i < n
        invariant
            n == elems@.len(),
            i <= n,
            field_arr(*v, "Hours"@) == Some(elems@),
            hours@.len() == i,
            forall|k: int| 0 <= k < i ==> hour_matches(hours@[k], #[trigger] elems@[k]),
        decreases n - i,
    {
        match decode_hour(&elems[i]) {
            Ok(x) => hours.push(x),
            Err(e) => {
                proof {
                    if timetable_ok(*v) {
                        assert(hour_ok(field_arr(*v, "Hours"@)->Some_0[i as int]));
                    }
                }
                return Err(e);
            },
        }
        i += 1;
    }
    let elems = get_arr_field(v, "Days")?;
    let n = elems.len();
    let mut days: Vec<Day> = Vec::new();
    let mut i: usize = 0;
    while i < n
        invariant
            n == elems@.len(),
            i <= n,
            field_arr(*v, "Days"@) == Some(elems@),
            days@.len() == i,
            forall|k: int| 0 <= k < i ==> day_matches(days@[k], #[trigger] elems@[k]),
        decreases n - i,
    {
        match decode_day(&elems[i]) {
            Ok(x) => days.push(x),
            Err(e) => {
                proof {
                    if timetable_ok(*v) {
                        assert(day_ok(field_arr(*v, "Days"@)->Some_0[i as int]));
                    }
                }
                return Err(e);
            },
        }
        i += 1;
    }
    let elems = get_arr_field(v, "Classes")?;
    let n = elems.len();
    let mut classes: Vec<Class> = Vec::new();
    let mut i: usize = 0;
    while i < n
        invariant
            n == elems@.len(),
            i <= n,
            field_arr(*v, "Classes"@) == Some(elems@),
            classes@.len() == i,
            forall|k: int| 0 <= k < i ==> class_matches(classes@[k], #[trigger] elems@[k]),
        decreases n - i,
    {
        match decode_class(&elems[i]) {
            Ok(x) => classes.push(x),
            Err(e) => {
                proof {
                    if timetable_ok(*v) {
                        assert(class_ok(field_arr(*v, "Classes"@)->Some_0[i as int]));
                    }
                }
                return Err(e);
            },
        }
        i += 1;
    }
    let elems = get_arr_field(v, "Groups")?;
    let n = elems.len();
    let mut groups: Vec<Group> = Vec::new();
    let mut i: usize = 0;
    while i < n
        invariant
            n == elems@.len(),
            i <= n,
            field_arr(*v, "Groups"@) == Some(elems@),
            groups@.len() == i,
            forall|k: int| 0 <= k < i ==> group_matches(groups@[k], #[trigger] elems@[k]),
        decreases n - i,
    {
        match decode_group(&elems[i]) {
            Ok(x) => groups.push(x),
            Err(e) => {
                proof {
                    if timetable_ok(*v) {
                        assert(group_ok(field_arr(*v, "Groups"@)->Some_0[i as int]));
                    }
                }
                return Err(e);
            },
        }
        i += 1;
    }
    let elems = get_arr_field(v, "Subjects")?;
    let n = elems.len();
    let mut subjects: Vec<Subject> = Vec::new();
    let mut i: usize = 0;
    while i < n
        invariant
            n == elems@.len(),
            i <= n,
            field_arr(*v, "Subjects"@) == Some(elems@),
            subjects@.len() == i,
            forall|k: int| 0 <= k < i ==> subject_matches(subjects@[k], #[trigger] elems@[k]),
        decreases n - i,
    {
        match decode_subject(&elems[i]) {
            Ok(x) => subjects.push(x),
            Err(e) => {
                proof {
                    if timetable_ok(*v) {
                        assert(subject_ok(field_arr(*v, "Subjects"@)->Some_0[i as int]));
                    }
                }
                return Err(e);
            },
        }
        i += 1;
    }
    let elems = get_arr_field(v, "Teachers")?;
    let n = elems.len();
    let mut teachers: Vec<Teacher> = Vec::new();
    let mut i: usize = 0;
    while i < n
        invariant
            n == elems@.len(),
            i <= n,
            field_arr(*v, "Teachers"@) == Some(elems@),
            teachers@.len() == i,
            forall|k: int| 0 <= k < i ==> teacher_matches(teachers@[k], #[trigger] elems@[k]),
        decreases n - i,
    {
        match decode_teacher(&elems[i]) {
            Ok(x) => teachers.push(x),
            Err(e) => {
                proof {
                    if timetable_ok(*v) {
                        assert(teacher_ok(field_arr(*v, "Teachers"@)->Some_0[i as int]));
                    }
                }
                return Err(e);
            },
        }
        i += 1;
    }
    let elems = get_arr_field(v, "Rooms")?;
    let n = elems.len();
    let mut rooms: Vec<Room> = Vec::new();
    let mut i: usize = 0;
    while i < n
        invariant
            n == elems@.len(),
            i <= n,
            field_arr(*v, "Rooms"@) == Some(elems@),
            rooms@.len() == i,
            forall|k: int| 0 <= k < i ==> room_matches(rooms@[k], #[trigger] elems@[k]),
        decreases n - i,
    {
        match decode_room(&elems[i]) {
            Ok(x) => rooms.push(x),
            Err(e) => {
                proof {
                    if timetable_ok(*v) {
                        assert(room_ok(field_arr(*v, "Rooms"@)->Some_0[i as int]));
                    }
                }
                return Err(e);
            },
        }
        i += 1;
    }
    let elems = get_arr_field(v, "Cycles")?;
    let n = elems.len();
    let mut cycles: Vec<Cycle> = Vec::new();
    let mut i: usize = 0;
    while i < n
        invariant
            n == elems@.len(),
            i <= n,
            field_arr(*v, "Cycles"@) == Some(elems@),
            cycles@.len() == i,
            forall|k: int| 0 <= k < i ==> cycle_matches(cycles@[k], #[trigger] elems@[k]),
        decreases n - i,
    {
        match decode_cycle(&elems[i]) {
            Ok(x) => cycles.push(x),
            Err(e) => {
                proof {
                    if timetable_ok(*v) {
                        assert(cycle_ok(field_arr(*v, "Cycles"@)->Some_0[i as int]));
                    }
                }
                return Err(e);
            },
        }
        i += 1;
    }
    Ok(Timetable { hours, days, classes, groups, subjects, teachers, rooms, cycles })
}

/// Encodes the timetable payload back into its external object shape.
pub fn encode_timetable(x: &Timetable) -> (r: JsonValue)
    ensures
        timetable_encoding(r, *x),
{
    let mut fields: Vec<(String, JsonValue)> = Vec::new();
    let n = x.hours.len();
    let mut enc_hours: Vec<JsonValue> = Vec::new();
    let mut i: usize = 0;
    while i < n
        invariant
            n == x.hours@.len(),
            i <= n,
            enc_hours@.len() == i,
            forall|k: int| 0 <= k < i ==> hour_encoding(#[trigger] enc_hours@[k], x.hours@[k]),
        decreases n - i,
    {
        enc_hours.push(encode_hour(&x.hours[i]));
        i += 1;
    }
    fields.push((String::from_str("Hours"), JsonValue::Arr(enc_hours)));
    let n = x.days.len();
    let mut enc_days: Vec<JsonValue> = Vec::new();
    let mut i: usize = 0;
    while i < n
        invariant
            n == x.days@.len(),
            i <= n,
            enc_days@.len() == i,
            forall|k: int| 0 <= k < i ==> day_encoding(#[trigger] enc_days@[k], x.days@[k]),
        decreases n - i,
    {
        enc_days.push(encode_day(&x.days[i]));
        i += 1;
    }
    fields.push((String::from_str("Days"), JsonValue::Arr(enc_days)));
    let n = x.classes.len();
    let mut enc_classes: Vec<JsonValue> = Vec::new();
    let mut i: usize = 0;
    while i < n
        invariant
            n == x.classes@.len(),
            i <= n,
            enc_classes@.len() == i,
            forall|k: int| 0 <= k < i ==> class_encoding(#[trigger] enc_classes@[k], x.classes@[k]),
        decreases n - i,
    {
        enc_classes.push(encode_class(&x.classes[i]));
        i += 1;
    }
    fields.push((String::from_str("Classes"), JsonValue::Arr(enc_classes)));
    let n = x.groups.len();
    let mut enc_groups: Vec<JsonValue> = Vec::new();
    let mut i: usize = 0;
    while i < n
        invariant
            n == x.groups@.len(),
            i <= n,
            enc_groups@.len() == i,
            forall|k: int| 0 <= k < i ==> group_encoding(#[trigger] enc_groups@[k], x.groups@[k]),
        decreases n - i,
    {
        enc_groups.push(encode_group(&x.groups[i]));
        i += 1;
    }
    fields.push((String::from_str("Groups"), JsonValue::Arr(enc_groups)));
    let n = x.subjects.len();
    let mut enc_subjects: Vec<JsonValue> = Vec::new();
    let mut i: usize = 0;
    while i < n
        invariant
            n == x.subjects@.len(),
            i <= n,
            enc_subjects@.len() == i,
            forall|k: int| 0 <= k < i ==> subject_encoding(#[trigger] enc_subjects@[k], x.subjects@[k]),
        decreases n - i,
    {
        enc_subjects.push(encode_subject(&x.subjects[i]));
        i += 1;
    }
    fields.push((String::from_str("Subjects"), JsonValue::Arr(enc_subjects)));
    let n = x.teachers.len();
    let mut enc_teachers: Vec<JsonValue> = Vec::new();
    let mut i: usize = 0;
    while i < n
        invariant
            n == x.teachers@.len(),
            i <= n,
            enc_teachers@.len() == i,
            forall|k: int| 0 <= k < i ==> teacher_encoding(#[trigger] enc_teachers@[k], x.teachers@[k]),
        decreases n - i,
    {
        enc_teachers.push(encode_teacher(&x.teachers[i]));
        i += 1;
    }
    fields.push((String::from_str("Teachers"), JsonValue::Arr(enc_teachers)));
    let n = x.rooms.len();
    let mut enc_rooms: Vec<JsonValue> = Vec::new();
    let mut i: usize = 0;
    while i < n
        invariant
            n == x.rooms@.len(),
            i <= n,
            enc_rooms@.len() == i,
            forall|k: int| 0 <= k < i ==> room_encoding(#[trigger] enc_rooms@[k], x.rooms@[k]),
        decreases n - i,
    {
        enc_rooms.push(encode_room(&x.rooms[i]));
        i += 1;
    }
    fields.push((String::from_str("Rooms"), JsonValue::Arr(enc_rooms)));
    let n = x.cycles.len();
    let mut enc_cycles: Vec<JsonValue> = Vec::new();
    let mut i: usize = 0;
    while i < n
        invariant
            n == x.cycles@.len(),
            i <= n,
            enc_cycles@.len() == i,
            forall|k: int| 0 <= k < i ==> cycle_encoding(#[trigger] enc_cycles@[k], x.cycles@[k]),
        decreases n - i,
    {
        enc_cycles.push(encode_cycle(&x.cycles[i]));
        i += 1;
    }
    fields.push((String::from_str("Cycles"), JsonValue::Arr(enc_cycles)));
    JsonValue::Obj(fields)
}

/// Round trip: re-encoding a decoded timetable loses no field of the
/// source tree.
pub proof fn lemma_timetable_round_trip(v: JsonValue, x: Timetable, r: JsonValue)
    requires
        timetable_matches(x, v),
        timetable_encoding(r, x),
    ensures
        timetable_preserved(v, r),
{
    reveal_strlit("Hours");
    reveal_strlit("Days");
    reveal_strlit("Classes");
    reveal_strlit("Groups");
    reveal_strlit("Subjects");
    reveal_strlit("Teachers");
    reveal_strlit("Rooms");
    reveal_strlit("Cycles");
    assert("Hours"@.len() == 5 && "Days"@.len() == 4 && "Classes"@.len() == 7 && "Groups"@.len() == 6 && "Subjects"@.len() == 8 && "Teachers"@.len() == 8 && "Rooms"@.len() == 5 && "Cycles"@.len() == 6);
    assert("Hours"@[0] == 'H' && "Rooms"@[0] == 'R' && "Subjects"@[0] == 'S'
        && "Teachers"@[0] == 'T' && "Groups"@[0] == 'G' && "Cycles"@[0] == 'C');
    let fields = r->Obj_0@;
    lemma_lookup_found(fields, "Hours"@, 0);
    lemma_lookup_found(fields, "Days"@, 1);
    lemma_lookup_found(fields, "Classes"@, 2);
    lemma_lookup_found(fields, "Groups"@, 3);
    lemma_lookup_found(fields, "Subjects"@, 4);
    lemma_lookup_found(fields, "Teachers"@, 5);
    lemma_lookup_found(fields, "Rooms"@, 6);
    lemma_lookup_found(fields, "Cycles"@, 7);
    {
        let elems = field_arr(v, "Hours"@)->Some_0;
        let re = field_arr(r, "Hours"@)->Some_0;
        assert forall|i: int| 0 <= i < elems.len() implies hour_preserved(
            #[trigger] elems[i],
            re[i],
        ) by {
            lemma_hour_round_trip(elems[i], x.hours@[i], re[i]);
        }
    }
    {
        let elems = field_arr(v, "Days"@)->Some_0;
        let re = field_arr(r, "Days"@)->Some_0;
        assert forall|i: int| 0 <= i < elems.len() implies day_preserved(
            #[trigger] elems[i],
            re[i],
        ) by {
            lemma_day_round_trip(elems[i], x.days@[i], re[i]);
        }
    }
    {
        let elems = field_arr(v, "Classes"@)->Some_0;
        let re = field_arr(r, "Classes"@)->Some_0;
        assert forall|i: int| 0 <= i < elems.len() implies class_preserved(
            #[trigger] elems[i],
            re[i],
        ) by {
            lemma_class_round_trip(elems[i], x.classes@[i], re[i]);
        }
    }
    {
        let elems = field_arr(v, "Groups"@)->Some_0;
        let re = field_arr(r, "Groups"@)->Some_0;
        assert forall|i: int| 0 <= i < elems.len() implies group_preserved(
            #[trigger] elems[i],
            re[i],
        ) by {
            lemma_group_round_trip(elems[i], x.groups@[i], re[i]);
        }
    }
    {
        let elems = field_arr(v, "Subjects"@)->Some_0;
        let re = field_arr(r, "Subjects"@)->Some_0;
        assert forall|i: int| 0 <= i < elems.len() implies subject_preserved(
            #[trigger] elems[i],
            re[i],
        ) by {
            lemma_subject_round_trip(elems[i], x.subjects@[i], re[i]);
        }
    }
    {
        let elems = field_arr(v, "Teachers"@)->Some_0;
        let re = field_arr(r, "Teachers"@)->Some_0;
        assert forall|i: int| 0 <= i < elems.len() implies teacher_preserved(
            #[trigger] elems[i],
            re[i],
        ) by {
            lemma_teacher_round_trip(elems[i], x.teachers@[i], re[i]);
        }
    }
    {
        let elems = field_arr(v, "Rooms"@)->Some_0;
        let re = field_arr(r, "Rooms"@)->Some_0;
        assert forall|i: int| 0 <= i < elems.len() implies room_preserved(
            #[trigger] elems[i],
            re[i],
        ) by {
            lemma_room_round_trip(elems[i], x.rooms@[i], re[i]);
        }
    }
    {
        let elems = field_arr(v, "Cycles"@)->Some_0;
        let re = field_arr(r, "Cycles"@)->Some_0;
        assert forall|i: int| 0 <= i < elems.len() implies cycle_preserved(
            #[trigger] elems[i],
            re[i],
        ) by {
            lemma_cycle_round_trip(elems[i], x.cycles@[i], re[i]);
        }
    }
}

} // verus!
