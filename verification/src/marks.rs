//! The marks resource: entities, the two reads and the plain-text counter.
//!
//! `GET /marks` returns the JSON marks report; `GET /marks/count-new`
//! returns the number of unread marks as a plain-text decimal body, and any
//! body that is not such a number is a schema error.

use vstd::prelude::*;
use vstd::string::*;

use crate::BakalariClient;
use crate::Error;
use crate::request::HttpRequest;
use crate::request::get_request;
use crate::request::is_get_request;

verus! {

/// The URL of the marks read.
pub open spec fn marks_url(api: Seq<char>) -> Seq<char> {
    api + "/marks"@
}

/// The URL of the unread-marks counter read.
pub open spec fn new_marks_count_url(api: Seq<char>) -> Seq<char> {
    api + "/marks/count-new"@
}

pub open spec fn is_digit(c: char) -> bool {
    48 <= c as int <= 57
}

pub open spec fn digit_val(c: char) -> nat {
    (c as int - 48) as nat
}

pub open spec fn all_digits(s: Seq<char>) -> bool {
    forall|k: int| 0 <= k < s.len() ==> is_digit(#[trigger] s[k])
}

/// The value of a decimal digit string, most significant digit first.
pub open spec fn dec_value(s: Seq<char>) -> nat
    decreases s.len(),
{
    if s.len() == 0 {
        0
    } else {
        dec_value(s.drop_last()) * 10 + digit_val(s.last())
    }
}

/// One more digit multiplies the prefix value by ten and adds the digit.
proof fn lemma_dec_value_extend(s: Seq<char>, j: int)
    requires
        0 <= j < s.len(),
    ensures
        dec_value(s.take(j + 1)) == dec_value(s.take(j)) * 10 + digit_val(s[j]),
{
    assert(s.take(j + 1).drop_last() =~= s.take(j));
}

/// The value of a decimal string never drops as the string grows.
proof fn lemma_dec_value_grows(s: Seq<char>, i: int, j: int)
    requires
        0 <= i <= j <= s.len(),
    ensures
        dec_value(s.take(i)) <= dec_value(s.take(j)),
    decreases j - i,
{
    if i < j {
        lemma_dec_value_grows(s, i, j - 1);
        lemma_dec_value_extend(s, j - 1);
    }
}

/// The body with a single leading plus sign, if any, removed: the counter's
/// decimal parse accepts one optional `'+'` before the digits.
pub open spec fn unsigned_body(s: Seq<char>) -> Seq<char> {
    if s.len() >= 1 && s[0] == '+' {
        s.drop_first()
    } else {
        s
    }
}

/// Decodes the body of the unread-marks counter: one optional leading plus
/// sign, then a non-empty all-digit decimal that fits the counter's range,
/// and nothing else.
pub fn parse_new_marks_count(body: &str) -> (r: Result<u16, Error>)
    ensures
        ({
            let digits = unsigned_body(body@);
            &&& (digits.len() >= 1 && all_digits(digits) && dec_value(digits) <= u16::MAX) ==> (
            r matches Ok(v) && v as nat == dec_value(digits))
            &&& !(digits.len() >= 1 && all_digits(digits) && dec_value(digits) <= u16::MAX)
                ==> r == Err::<u16, Error>(Error::Schema)
        }),
{
    let n = body.unicode_len();
    if n == 0 {
        return Err(Error::Schema);
    }
    let start: usize = if body.get_char(0) == '+' {
        1
    } else {
        0
    };
    if n == start {
        return Err(Error::Schema);
    }
    let ghost digits = unsigned_body(body@);
    proof {
        assert(digits =~= body@.skip(start as int));
    }
    let mut i: usize = start;
    let mut value: u32 = 0;
    while i < n
        invariant
            n == body@.len(),
            start <= i <= n,
            digits == body@.skip(start as int),
            digits == unsigned_body(body@),
            digits.len() == n - start,
            value <= 65535,
            forall|k: int| 0 <= k < i - start ==> is_digit(#[trigger] digits[k]),
            value as nat == dec_value(digits.take(i as int - start as int)),
        decreases n - i,
    {
        let c = body.get_char(i);
        let code = c as u32;
        if code < 48 || code > 57 {
            proof {
                assert(digits[i as int - start as int] == body@[i as int]);
            }
            return Err(Error::Schema);
        }
        proof {
            assert(digits[i as int - start as int] == body@[i as int]);
            lemma_dec_value_extend(digits, i as int - start as int);
        }
        let next = value * 10 + (code - 48);
        if next > 65535 {
            proof {
                lemma_dec_value_grows(digits, i as int - start as int + 1, digits.len() as int);
                assert(digits.take(digits.len() as int) =~= digits);
            }
            return Err(Error::Schema);
        }
        value = next;
        i += 1;
    }
    proof {
        assert(digits.take(digits.len() as int) =~= digits);
    }
    Ok(value as u16)
}

impl BakalariClient {
    /// The authenticated read of the current term's marks.  The session must
    /// have passed the validity gate first.
    pub fn marks_request(&self) -> (r: HttpRequest)
        ensures
            is_get_request(r, marks_url(self.api_url@), self.session.access_token@),
    {
        get_request(self.api_url.as_str(), "/marks", self.session.access_token.as_str())
    }

    /// The authenticated read of the unread-marks counter.  The session must
    /// have passed the validity gate first.
    pub fn new_marks_count_request(&self) -> (r: HttpRequest)
        ensures
            is_get_request(r, new_marks_count_url(self.api_url@), self.session.access_token@),
    {
        get_request(self.api_url.as_str(), "/marks/count-new", self.session.access_token.as_str())
    }
}

} // verus!

use crate::json::JsonValue;
use crate::json::field_arr;
use crate::json::field_bool;
use crate::json::field_int;
use crate::json::field_opt_str;
use crate::json::field_str;
use crate::json::get_arr_field;
use crate::json::get_bool_field;
use crate::json::get_field;
use crate::json::get_opt_str_field;
use crate::json::get_str_field;
use crate::json::get_u16_field;
use crate::json::get_u8_field;
use crate::json::is_bool_entry;
use crate::json::is_int_entry;
use crate::json::is_opt_str_entry;
use crate::json::is_str_entry;
use crate::json::lemma_lookup_found;
use crate::json::obj_lookup;
use crate::json::opt_view;
use crate::shared;

verus! {

/// One mark as the server reports it.
#[derive(Debug)]
pub struct Mark {
    pub mark_date: String,
    pub edit_date: String,
    pub caption: String,
    pub theme: String,
    pub mark_text: String,
    pub teacher_id: String,
    pub mark_type: String,
    pub type_note: String,
    pub weight: u8,
    pub subject_id: String,
    pub is_new: bool,
    pub is_points: bool,
    pub calculated_mark_text: String,
    pub class_rank_text: Option<String>,
    pub id: String,
    pub points_text: String,
    pub max_points: u16,
}

/// The tree carries every field the mark schema requires, with its type.
pub open spec fn mark_ok(v: JsonValue) -> bool {
    &&& field_str(v, "MarkDate"@) is Some
    &&& field_str(v, "EditDate"@) is Some
    &&& field_str(v, "Caption"@) is Some
    &&& field_str(v, "Theme"@) is Some
    &&& field_str(v, "MarkText"@) is Some
    &&& field_str(v, "TeacherId"@) is Some
    &&& field_str(v, "Type"@) is Some
    &&& field_str(v, "TypeNote"@) is Some
    &&& (field_int(v, "Weight"@) matches Some(n) && 0 <= n <= u8::MAX)
    &&& field_str(v, "SubjectId"@) is Some
    &&& field_bool(v, "IsNew"@) is Some
    &&& field_bool(v, "IsPoints"@) is Some
    &&& field_str(v, "CalculatedMarkText"@) is Some
    &&& field_opt_str(v, "ClassRankText"@) is Some
    &&& field_str(v, "Id"@) is Some
    &&& field_str(v, "PointsText"@) is Some
    &&& (field_int(v, "MaxPoints"@) matches Some(n) && 0 <= n <= u16::MAX)
}

/// `m` is exactly what decoding `v` against the mark schema yields.
pub open spec fn mark_matches(m: Mark, v: JsonValue) -> bool {
    &&& field_str(v, "MarkDate"@) == Some(m.mark_date@)
    &&& field_str(v, "EditDate"@) == Some(m.edit_date@)
    &&& field_str(v, "Caption"@) == Some(m.caption@)
    &&& field_str(v, "Theme"@) == Some(m.theme@)
    &&& field_str(v, "MarkText"@) == Some(m.mark_text@)
    &&& field_str(v, "TeacherId"@) == Some(m.teacher_id@)
    &&& field_str(v, "Type"@) == Some(m.mark_type@)
    &&& field_str(v, "TypeNote"@) == Some(m.type_note@)
    &&& field_int(v, "Weight"@) == Some(m.weight as int)
    &&& field_str(v, "SubjectId"@) == Some(m.subject_id@)
    &&& field_bool(v, "IsNew"@) == Some(m.is_new)
    &&& field_bool(v, "IsPoints"@) == Some(m.is_points)
    &&& field_str(v, "CalculatedMarkText"@) == Some(m.calculated_mark_text@)
    &&& field_opt_str(v, "ClassRankText"@) == Some(opt_view(m.class_rank_text))
    &&& field_str(v, "Id"@) == Some(m.id@)
    &&& field_str(v, "PointsText"@) == Some(m.points_text@)
    &&& field_int(v, "MaxPoints"@) == Some(m.max_points as int)
}

/// `r` is exactly the tree that encoding `m` yields, fields in the external
/// order.
pub open spec fn mark_encoding(r: JsonValue, m: Mark) -> bool {
    &&& r matches JsonValue::Obj(fields)
    &&& r->Obj_0@.len() == 17
    &&& is_str_entry(r->Obj_0@[0], "MarkDate"@, m.mark_date@)
    &&& is_str_entry(r->Obj_0@[1], "EditDate"@, m.edit_date@)
    &&& is_str_entry(r->Obj_0@[2], "Caption"@, m.caption@)
    &&& is_str_entry(r->Obj_0@[3], "Theme"@, m.theme@)
    &&& is_str_entry(r->Obj_0@[4], "MarkText"@, m.mark_text@)
    &&& is_str_entry(r->Obj_0@[5], "TeacherId"@, m.teacher_id@)
    &&& is_str_entry(r->Obj_0@[6], "Type"@, m.mark_type@)
    &&& is_str_entry(r->Obj_0@[7], "TypeNote"@, m.type_note@)
    &&& is_int_entry(r->Obj_0@[8], "Weight"@, m.weight as int)
    &&& is_str_entry(r->Obj_0@[9], "SubjectId"@, m.subject_id@)
    &&& is_bool_entry(r->Obj_0@[10], "IsNew"@, m.is_new)
    &&& is_bool_entry(r->Obj_0@[11], "IsPoints"@, m.is_points)
    &&& is_str_entry(r->Obj_0@[12], "CalculatedMarkText"@, m.calculated_mark_text@)
    &&& is_opt_str_entry(r->Obj_0@[13], "ClassRankText"@, opt_view(m.class_rank_text))
    &&& is_str_entry(r->Obj_0@[14], "Id"@, m.id@)
    &&& is_str_entry(r->Obj_0@[15], "PointsText"@, m.points_text@)
    &&& is_int_entry(r->Obj_0@[16], "MaxPoints"@, m.max_points as int)
}

/// Every mark field of `v` is carried, unchanged, by `r`.
pub open spec fn mark_preserved(v: JsonValue, r: JsonValue) -> bool {
    &&& field_str(r, "MarkDate"@) == field_str(v, "MarkDate"@)
    &&& field_str(r, "EditDate"@) == field_str(v, "EditDate"@)
    &&& field_str(r, "Caption"@) == field_str(v, "Caption"@)
    &&& field_str(r, "Theme"@) == field_str(v, "Theme"@)
    &&& field_str(r, "MarkText"@) == field_str(v, "MarkText"@)
    &&& field_str(r, "TeacherId"@) == field_str(v, "TeacherId"@)
    &&& field_str(r, "Type"@) == field_str(v, "Type"@)
    &&& field_str(r, "TypeNote"@) == field_str(v, "TypeNote"@)
    &&& field_int(r, "Weight"@) == field_int(v, "Weight"@)
    &&& field_str(r, "SubjectId"@) == field_str(v, "SubjectId"@)
    &&& field_bool(r, "IsNew"@) == field_bool(v, "IsNew"@)
    &&& field_bool(r, "IsPoints"@) == field_bool(v, "IsPoints"@)
    &&& field_str(r, "CalculatedMarkText"@) == field_str(v, "CalculatedMarkText"@)
    &&& field_opt_str(r, "ClassRankText"@) == field_opt_str(v, "ClassRankText"@)
    &&& field_str(r, "Id"@) == field_str(v, "Id"@)
    &&& field_str(r, "PointsText"@) == field_str(v, "PointsText"@)
    &&& field_int(r, "MaxPoints"@) == field_int(v, "MaxPoints"@)
}

/// Decodes one mark, or fails with a schema error.
pub fn decode_mark(v: &JsonValue) -> (r: Result<Mark, Error>)
    ensures
        mark_ok(*v) ==> (r matches Ok(m) && mark_matches(m, *v)),
        !mark_ok(*v) ==> r == Err::<Mark, Error>(Error::Schema),
{
    let mark_date = get_str_field(v, "MarkDate")?;
    let edit_date = get_str_field(v, "EditDate")?;
    let caption = get_str_field(v, "Caption")?;
    let theme = get_str_field(v, "Theme")?;
    let mark_text = get_str_field(v, "MarkText")?;
    let teacher_id = get_str_field(v, "TeacherId")?;
    let mark_type = get_str_field(v, "Type")?;
    let type_note = get_str_field(v, "TypeNote")?;
    let weight = get_u8_field(v, "Weight")?;
    let subject_id = get_str_field(v, "SubjectId")?;
    let is_new = get_bool_field(v, "IsNew")?;
    let is_points = get_bool_field(v, "IsPoints")?;
    let calculated_mark_text = get_str_field(v, "CalculatedMarkText")?;
    let class_rank_text = get_opt_str_field(v, "ClassRankText")?;
    let id = get_str_field(v, "Id")?;
    let points_text = get_str_field(v, "PointsText")?;
    let max_points = get_u16_field(v, "MaxPoints")?;
    Ok(
        Mark {
            mark_date,
            edit_date,
            caption,
            theme,
            mark_text,
            teacher_id,
            mark_type,
            type_note,
            weight,
            subject_id,
            is_new,
            is_points,
            calculated_mark_text,
            class_rank_text,
            id,
            points_text,
            max_points,
        },
    )
}

/// Encodes one mark back into its external object shape.
pub fn encode_mark(m: &Mark) -> (r: JsonValue)
    ensures
        mark_encoding(r, *m),
{
    let mut fields: Vec<(String, JsonValue)> = Vec::new();
    fields.push((String::from_str("MarkDate"), JsonValue::Str(m.mark_date.clone())));
    fields.push((String::from_str("EditDate"), JsonValue::Str(m.edit_date.clone())));
    fields.push((String::from_str("Caption"), JsonValue::Str(m.caption.clone())));
    fields.push((String::from_str("Theme"), JsonValue::Str(m.theme.clone())));
    fields.push((String::from_str("MarkText"), JsonValue::Str(m.mark_text.clone())));
    fields.push((String::from_str("TeacherId"), JsonValue::Str(m.teacher_id.clone())));
    fields.push((String::from_str("Type"), JsonValue::Str(m.mark_type.clone())));
    fields.push((String::from_str("TypeNote"), JsonValue::Str(m.type_note.clone())));
    fields.push((String::from_str("Weight"), JsonValue::Int(m.weight as i64)));
    fields.push((String::from_str("SubjectId"), JsonValue::Str(m.subject_id.clone())));
    fields.push((String::from_str("IsNew"), JsonValue::Bool(m.is_new)));
    fields.push((String::from_str("IsPoints"), JsonValue::Bool(m.is_points)));
    fields.push(
        (String::from_str("CalculatedMarkText"), JsonValue::Str(m.calculated_mark_text.clone())),
    );
    let class_rank_text = match &m.class_rank_text {
        Some(s) => JsonValue::Str(s.clone()),
        None => JsonValue::Null,
    };
    fields.push((String::from_str("ClassRankText"), class_rank_text));
    fields.push((String::from_str("Id"), JsonValue::Str(m.id.clone())));
    fields.push((String::from_str("PointsText"), JsonValue::Str(m.points_text.clone())));
    fields.push((String::from_str("MaxPoints"), JsonValue::Int(m.max_points as i64)));
    JsonValue::Obj(fields)
}

/// Round trip: re-encoding a decoded mark loses no field of the source tree.
pub proof fn lemma_mark_round_trip(v: JsonValue, m: Mark, r: JsonValue)
    requires
        mark_matches(m, v),
        mark_encoding(r, m),
    ensures
        mark_preserved(v, r),
{
    reveal_strlit("MarkDate");
    reveal_strlit("EditDate");
    reveal_strlit("Caption");
    reveal_strlit("Theme");
    reveal_strlit("MarkText");
    reveal_strlit("TeacherId");
    reveal_strlit("Type");
    reveal_strlit("TypeNote");
    reveal_strlit("Weight");
    reveal_strlit("SubjectId");
    reveal_strlit("IsNew");
    reveal_strlit("IsPoints");
    reveal_strlit("CalculatedMarkText");
    reveal_strlit("ClassRankText");
    reveal_strlit("Id");
    reveal_strlit("PointsText");
    reveal_strlit("MaxPoints");
    assert("MarkDate"@.len() == 8 && "EditDate"@.len() == 8 && "Caption"@.len() == 7
        && "Theme"@.len() == 5 && "MarkText"@.len() == 8 && "TeacherId"@.len() == 9
        && "Type"@.len() == 4 && "TypeNote"@.len() == 8 && "Weight"@.len() == 6
        && "SubjectId"@.len() == 9 && "IsNew"@.len() == 5 && "IsPoints"@.len() == 8
        && "CalculatedMarkText"@.len() == 18 && "ClassRankText"@.len() == 13 && "Id"@.len() == 2
        && "PointsText"@.len() == 10 && "MaxPoints"@.len() == 9);
    assert("MarkDate"@[0] == 'M' && "EditDate"@[0] == 'E' && "MarkText"@[0] == 'M'
        && "TypeNote"@[0] == 'T' && "IsPoints"@[0] == 'I' && "MarkDate"@[4] == 'D'
        && "MarkText"@[4] == 'T' && "TeacherId"@[0] == 'T' && "SubjectId"@[0] == 'S'
        && "MaxPoints"@[0] == 'M' && "Theme"@[0] == 'T' && "IsNew"@[0] == 'I');
    let fields = r->Obj_0@;
    lemma_lookup_found(fields, "MarkDate"@, 0);
    lemma_lookup_found(fields, "EditDate"@, 1);
    lemma_lookup_found(fields, "Caption"@, 2);
    lemma_lookup_found(fields, "Theme"@, 3);
    lemma_lookup_found(fields, "MarkText"@, 4);
    lemma_lookup_found(fields, "TeacherId"@, 5);
    lemma_lookup_found(fields, "Type"@, 6);
    lemma_lookup_found(fields, "TypeNote"@, 7);
    lemma_lookup_found(fields, "Weight"@, 8);
    lemma_lookup_found(fields, "SubjectId"@, 9);
    lemma_lookup_found(fields, "IsNew"@, 10);
    lemma_lookup_found(fields, "IsPoints"@, 11);
    lemma_lookup_found(fields, "CalculatedMarkText"@, 12);
    lemma_lookup_found(fields, "ClassRankText"@, 13);
    lemma_lookup_found(fields, "Id"@, 14);
    lemma_lookup_found(fields, "PointsText"@, 15);
    lemma_lookup_found(fields, "MaxPoints"@, 16);
}

} // verus!

verus! {

/// One subject's block of the marks report.
#[derive(Debug)]
pub struct Subject {
    pub marks: Vec<Mark>,
    pub subject: shared::Subject,
    pub average_text: String,
    pub temporary_mark: String,
    pub subject_note: String,
    pub temporary_mark_note: String,
    pub points_only: bool,
    pub mark_prediction_enabled: bool,
}

/// The tree carries every field the subject-block schema requires.
pub open spec fn subject_ok(v: JsonValue) -> bool {
    &&& field_arr(v, "Marks"@) matches Some(elems) && (forall|i: int|
        0 <= i < elems.len() ==> mark_ok(#[trigger] elems[i]))
    &&& obj_lookup(v, "Subject"@) matches Some(sv) && shared::subject_ok(sv)
    &&& field_str(v, "AverageText"@) is Some
    &&& field_str(v, "TemporaryMark"@) is Some
    &&& field_str(v, "SubjectNote"@) is Some
    &&& field_str(v, "TemporaryMarkNote"@) is Some
    &&& field_bool(v, "PointsOnly"@) is Some
    &&& field_bool(v, "MarkPredictionEnabled"@) is Some
}

/// `s` is exactly what decoding `v` against the subject-block schema yields.
pub open spec fn subject_matches(s: Subject, v: JsonValue) -> bool {
    &&& field_arr(v, "Marks"@) matches Some(elems) && s.marks@.len() == elems.len() && (forall|
        i: int,
    |
        0 <= i < elems.len() ==> mark_matches(s.marks@[i], #[trigger] elems[i]))
    &&& obj_lookup(v, "Subject"@) matches Some(sv) && shared::subject_matches(s.subject, sv)
    &&& field_str(v, "AverageText"@) == Some(s.average_text@)
    &&& field_str(v, "TemporaryMark"@) == Some(s.temporary_mark@)
    &&& field_str(v, "SubjectNote"@) == Some(s.subject_note@)
    &&& field_str(v, "TemporaryMarkNote"@) == Some(s.temporary_mark_note@)
    &&& field_bool(v, "PointsOnly"@) == Some(s.points_only)
    &&& field_bool(v, "MarkPredictionEnabled"@) == Some(s.mark_prediction_enabled)
}

/// `r` is exactly the tree that encoding `s` yields.
pub open spec fn subject_encoding(r: JsonValue, s: Subject) -> bool {
    &&& r matches JsonValue::Obj(fields)
    &&& r->Obj_0@.len() == 8
    &&& r->Obj_0@[0].0@ == "Marks"@
    &&& r->Obj_0@[0].1 matches JsonValue::Arr(enc) && enc@.len() == s.marks@.len() && (forall|
        i: int,
    |
        0 <= i < enc@.len() ==> mark_encoding(#[trigger] enc@[i], s.marks@[i]))
    &&& r->Obj_0@[1].0@ == "Subject"@
    &&& shared::subject_encoding(r->Obj_0@[1].1, s.subject)
    &&& is_str_entry(r->Obj_0@[2], "AverageText"@, s.average_text@)
    &&& is_str_entry(r->Obj_0@[3], "TemporaryMark"@, s.temporary_mark@)
    &&& is_str_entry(r->Obj_0@[4], "SubjectNote"@, s.subject_note@)
    &&& is_str_entry(r->Obj_0@[5], "TemporaryMarkNote"@, s.temporary_mark_note@)
    &&& is_bool_entry(r->Obj_0@[6], "PointsOnly"@, s.points_only)
    &&& is_bool_entry(r->Obj_0@[7], "MarkPredictionEnabled"@, s.mark_prediction_enabled)
}

/// Every subject-block field of `v` is carried, unchanged, by `r`.
pub open spec fn subject_preserved(v: JsonValue, r: JsonValue) -> bool {
    &&& match field_arr(v, "Marks"@) {
        Some(elems) => field_arr(r, "Marks"@) matches Some(re) && re.len() == elems.len() && (
        forall|i: int| 0 <= i < elems.len() ==> mark_preserved(#[trigger] elems[i], re[i])),
        None => true,
    }
    &&& match obj_lookup(v, "Subject"@) {
        Some(sv) => obj_lookup(r, "Subject"@) matches Some(rv) && shared::subject_preserved(
            sv,
            rv,
        ),
        None => true,
    }
    &&& field_str(r, "AverageText"@) == field_str(v, "AverageText"@)
    &&& field_str(r, "TemporaryMark"@) == field_str(v, "TemporaryMark"@)
    &&& field_str(r, "SubjectNote"@) == field_str(v, "SubjectNote"@)
    &&& field_str(r, "TemporaryMarkNote"@) == field_str(v, "TemporaryMarkNote"@)
    &&& field_bool(r, "PointsOnly"@) == field_bool(v, "PointsOnly"@)
    &&& field_bool(r, "MarkPredictionEnabled"@) == field_bool(v, "MarkPredictionEnabled"@)
}

/// Decodes one subject block, or fails with a schema error.
pub fn decode_subject(v: &JsonValue) -> (r: Result<Subject, Error>)
    ensures
        subject_ok(*v) ==> (r matches Ok(s) && subject_matches(s, *v)),
        !subject_ok(*v) ==> r == Err::<Subject, Error>(Error::Schema),
{
    let elems = get_arr_field(v, "Marks")?;
    let n = elems.len();
    let mut marks: Vec<Mark> = Vec::new();
    let mut i: usize = 0;
    while i < n
        invariant
            n == elems@.len(),
            i <= n,
            field_arr(*v, "Marks"@) == Some(elems@),
            marks@.len() == i,
            forall|k: int| 0 <= k < i ==> mark_matches(marks@[k], #[trigger] elems@[k]),
        decreases n - i,
    {
        match decode_mark(&elems[i]) {
            Ok(m) => marks.push(m),
            Err(e) => {
                proof {
                    if subject_ok(*v) {
                        assert(mark_ok(field_arr(*v, "Marks"@)->Some_0[i as int]));
                    }
                }
                return Err(e);
            },
        }
        i += 1;
    }
    let subject = match get_field(v, "Subject") {
        Some(sv) => shared::decode_subject(sv)?,
        None => {
            return Err(Error::Schema);
        },
    };
    let average_text = get_str_field(v, "AverageText")?;
    let temporary_mark = get_str_field(v, "TemporaryMark")?;
    let subject_note = get_str_field(v, "SubjectNote")?;
    let temporary_mark_note = get_str_field(v, "TemporaryMarkNote")?;
    let points_only = get_bool_field(v, "PointsOnly")?;
    let mark_prediction_enabled = get_bool_field(v, "MarkPredictionEnabled")?;
    Ok(
        Subject {
            marks,
            subject,
            average_text,
            temporary_mark,
            subject_note,
            temporary_mark_note,
            points_only,
            mark_prediction_enabled,
        },
    )
}

/// Encodes one subject block back into its external object shape.
pub fn encode_subject(s: &Subject) -> (r: JsonValue)
    ensures
        subject_encoding(r, *s),
{
    let n = s.marks.len();
    let mut enc: Vec<JsonValue> = Vec::new();
    let mut i: usize = 0;
    while i < n
        invariant
            n == s.marks@.len(),
            i <= n,
            enc@.len() == i,
            forall|k: int| 0 <= k < i ==> mark_encoding(#[trigger] enc@[k], s.marks@[k]),
        decreases n - i,
    {
        enc.push(encode_mark(&s.marks[i]));
        i += 1;
    }
    let mut fields: Vec<(String, JsonValue)> = Vec::new();
    fields.push((String::from_str("Marks"), JsonValue::Arr(enc)));
    fields.push((String::from_str("Subject"), shared::encode_subject(&s.subject)));
    fields.push((String::from_str("AverageText"), JsonValue::Str(s.average_text.clone())));
    fields.push((String::from_str("TemporaryMark"), JsonValue::Str(s.temporary_mark.clone())));
    fields.push((String::from_str("SubjectNote"), JsonValue::Str(s.subject_note.clone())));
    fields.push(
        (String::from_str("TemporaryMarkNote"), JsonValue::Str(s.temporary_mark_note.clone())),
    );
    fields.push((String::from_str("PointsOnly"), JsonValue::Bool(s.points_only)));
    fields.push(
        (String::from_str("MarkPredictionEnabled"), JsonValue::Bool(s.mark_prediction_enabled)),
    );
    JsonValue::Obj(fields)
}

/// Round trip: re-encoding a decoded subject block loses no field of the
/// source tree.
pub proof fn lemma_subject_round_trip(v: JsonValue, s: Subject, r: JsonValue)
    requires
        subject_matches(s, v),
        subject_encoding(r, s),
    ensures
        subject_preserved(v, r),
{
    reveal_strlit("Marks");
    reveal_strlit("Subject");
    reveal_strlit("AverageText");
    reveal_strlit("TemporaryMark");
    reveal_strlit("SubjectNote");
    reveal_strlit("TemporaryMarkNote");
    reveal_strlit("PointsOnly");
    reveal_strlit("MarkPredictionEnabled");
    assert("Marks"@.len() == 5 && "Subject"@.len() == 7 && "AverageText"@.len() == 11
        && "TemporaryMark"@.len() == 13 && "SubjectNote"@.len() == 11
        && "TemporaryMarkNote"@.len() == 17 && "PointsOnly"@.len() == 10
        && "MarkPredictionEnabled"@.len() == 21);
    assert("AverageText"@[0] == 'A' && "SubjectNote"@[0] == 'S');
    let fields = r->Obj_0@;
    lemma_lookup_found(fields, "Marks"@, 0);
    lemma_lookup_found(fields, "Subject"@, 1);
    lemma_lookup_found(fields, "AverageText"@, 2);
    lemma_lookup_found(fields, "TemporaryMark"@, 3);
    lemma_lookup_found(fields, "SubjectNote"@, 4);
    lemma_lookup_found(fields, "TemporaryMarkNote"@, 5);
    lemma_lookup_found(fields, "PointsOnly"@, 6);
    lemma_lookup_found(fields, "MarkPredictionEnabled"@, 7);
    let elems = field_arr(v, "Marks"@)->Some_0;
    let re = field_arr(r, "Marks"@)->Some_0;
    assert forall|i: int| 0 <= i < elems.len() implies mark_preserved(
        #[trigger] elems[i],
        re[i],
    ) by {
        lemma_mark_round_trip(elems[i], s.marks@[i], re[i]);
    }
    let sv = obj_lookup(v, "Subject"@)->Some_0;
    let rv = obj_lookup(r, "Subject"@)->Some_0;
    shared::lemma_subject_round_trip(sv, s.subject, rv);
}

/// The whole marks report: one block per subject.
#[derive(Debug)]
pub struct MarksResponse {
    pub subjects: Vec<Subject>,
}

/// The tree carries the report's one required field.
pub open spec fn marks_response_ok(v: JsonValue) -> bool {
    field_arr(v, "Subjects"@) matches Some(elems) && (forall|i: int|
        0 <= i < elems.len() ==> subject_ok(#[trigger] elems[i]))
}

/// `m` is exactly what decoding `v` against the report schema yields.
pub open spec fn marks_response_matches(m: MarksResponse, v: JsonValue) -> bool {
    field_arr(v, "Subjects"@) matches Some(elems) && m.subjects@.len() == elems.len() && (forall|
        i: int,
    |
        0 <= i < elems.len() ==> subject_matches(m.subjects@[i], #[trigger] elems[i]))
}

/// `r` is exactly the tree that encoding `m` yields.
pub open spec fn marks_response_encoding(r: JsonValue, m: MarksResponse) -> bool {
    &&& r matches JsonValue::Obj(fields)
    &&& r->Obj_0@.len() == 1
    &&& r->Obj_0@[0].0@ == "Subjects"@
    &&& r->Obj_0@[0].1 matches JsonValue::Arr(enc) && enc@.len() == m.subjects@.len() && (forall|
        i: int,
    |
        0 <= i < enc@.len() ==> subject_encoding(#[trigger] enc@[i], m.subjects@[i]))
}

/// Every field of the source report is carried, unchanged, by `r`.
pub open spec fn marks_response_preserved(v: JsonValue, r: JsonValue) -> bool {
    match field_arr(v, "Subjects"@) {
        Some(elems) => field_arr(r, "Subjects"@) matches Some(re) && re.len() == elems.len() && (
        forall|i: int| 0 <= i < elems.len() ==> subject_preserved(#[trigger] elems[i], re[i])),
        None => true,
    }
}

/// Decodes the marks report, or fails with a schema error.
pub fn decode_marks_response(v: &JsonValue) -> (r: Result<MarksResponse, Error>)
    ensures
        marks_response_ok(*v) ==> (r matches Ok(m) && marks_response_matches(m, *v)),
        !marks_response_ok(*v) ==> r == Err::<MarksResponse, Error>(Error::Schema),
{
    let elems = get_arr_field(v, "Subjects")?;
    let n = elems.len();
    let mut subjects: Vec<Subject> = Vec::new();
    let mut i: usize = 0;
    while i < n
        invariant
            n == elems@.len(),
            i <= n,
            field_arr(*v, "Subjects"@) == Some(elems@),
            subjects@.len() == i,
            forall|k: int| 0 <= k < i ==> subject_matches(subjects@[k], #[trigger] elems@[k]),
        decreases n - i,
    {
        match decode_subject(&elems[i]) {
            Ok(s) => subjects.push(s),
            Err(e) => {
                proof {
                    if marks_response_ok(*v) {
                        assert(subject_ok(field_arr(*v, "Subjects"@)->Some_0[i as int]));
                    }
                }
                return Err(e);
            },
        }
        i += 1;
    }
    Ok(MarksResponse { subjects })
}

/// Encodes the marks report back into its external object shape.
pub fn encode_marks_response(m: &MarksResponse) -> (r: JsonValue)
    ensures
        marks_response_encoding(r, *m),
{
    let n = m.subjects.len();
    let mut enc: Vec<JsonValue> = Vec::new();
    let mut i: usize = 0;
    while i < n
        invariant
            n == m.subjects@.len(),
            i <= n,
            enc@.len() == i,
            forall|k: int| 0 <= k < i ==> subject_encoding(#[trigger] enc@[k], m.subjects@[k]),
        decreases n - i,
    {
        enc.push(encode_subject(&m.subjects[i]));
        i += 1;
    }
    let mut fields: Vec<(String, JsonValue)> = Vec::new();
    fields.push((String::from_str("Subjects"), JsonValue::Arr(enc)));
    JsonValue::Obj(fields)
}

/// Round trip: re-encoding a decoded marks report loses no field of the
/// source tree.
pub proof fn lemma_marks_response_round_trip(v: JsonValue, m: MarksResponse, r: JsonValue)
    requires
        marks_response_matches(m, v),
        marks_response_encoding(r, m),
    ensures
        marks_response_preserved(v, r),
{
    let fields = r->Obj_0@;
    lemma_lookup_found(fields, "Subjects"@, 0);
    let elems = field_arr(v, "Subjects"@)->Some_0;
    let re = field_arr(r, "Subjects"@)->Some_0;
    assert forall|i: int| 0 <= i < elems.len() implies subject_preserved(
        #[trigger] elems[i],
        re[i],
    ) by {
        lemma_subject_round_trip(elems[i], m.subjects@[i], re[i]);
    }
}

} // verus!
