use bakalari::json::JsonValue;
use bakalari::marks::decode_marks_response;
use bakalari::marks::encode_marks_response;
use bakalari::timetable::decode_timetable;
use bakalari::timetable::encode_timetable;

/// Bridges the external text codec's tree into the library's value model.
fn to_lib(v: &serde_json::Value) -> JsonValue {
    match v {
        serde_json::Value::Null => JsonValue::Null,
        serde_json::Value::Bool(b) => JsonValue::Bool(*b),
        serde_json::Value::Number(n) => JsonValue::Int(n.as_i64().unwrap()),
        serde_json::Value::String(s) => JsonValue::Str(s.clone()),
        serde_json::Value::Array(a) => JsonValue::Arr(a.iter().map(to_lib).collect()),
        serde_json::Value::Object(m) => {
            JsonValue::Obj(m.iter().map(|(k, x)| (k.clone(), to_lib(x))).collect())
        }
    }
}

/// Bridges the library's value model back into the external codec's tree.
fn to_serde(v: &JsonValue) -> serde_json::Value {
    match v {
        JsonValue::Null => serde_json::Value::Null,
        JsonValue::Bool(b) => serde_json::Value::Bool(*b),
        JsonValue::Int(n) => serde_json::Value::Number(serde_json::Number::from(*n)),
        JsonValue::Str(s) => serde_json::Value::String(s.clone()),
        JsonValue::Arr(a) => serde_json::Value::Array(a.iter().map(to_serde).collect()),
        JsonValue::Obj(fields) => {
            let mut m = serde_json::Map::new();
            for (k, x) in fields {
                m.insert(k.clone(), to_serde(x));
            }
            serde_json::Value::Object(m)
        }
    }
}

const MARKS_FIXTURE: &str = r#"{
  "Subjects": [
    {
      "Marks": [
        {
          "MarkDate": "2024-03-01T00:00:00+01:00",
          "EditDate": "2024-03-02T00:00:00+01:00",
          "Caption": "Vocabulary quiz",
          "Theme": "Unit 4",
          "MarkText": "1",
          "TeacherId": "UXMN",
          "Type": "Z",
          "TypeNote": "written exam",
          "Weight": 5,
          "SubjectId": "AJ",
          "IsNew": true,
          "IsPoints": false,
          "CalculatedMarkText": "1",
          "ClassRankText": null,
          "Id": "MARK-1",
          "PointsText": "",
          "MaxPoints": 0
        }
      ],
      "Subject": { "Id": "AJ", "Abbrev": "AJ", "Name": "English" },
      "AverageText": "1,00",
      "TemporaryMark": "",
      "SubjectNote": "",
      "TemporaryMarkNote": "",
      "PointsOnly": false,
      "MarkPredictionEnabled": true
    }
  ]
}"#;

#[test]
fn marks_fixture_round_trips_without_field_loss() {
    let fixture: serde_json::Value = serde_json::from_str(MARKS_FIXTURE).unwrap();
    let tree = to_lib(&fixture);
    let decoded = decode_marks_response(&tree).unwrap();
    assert_eq!(decoded.subjects.len(), 1);
    let block = &decoded.subjects[0];
    assert_eq!(block.subject.name, "English");
    assert_eq!(block.marks.len(), 1);
    let mark = &block.marks[0];
    assert_eq!(mark.caption, "Vocabulary quiz");
    assert_eq!(mark.weight, 5);
    assert!(mark.is_new);
    assert_eq!(mark.class_rank_text, None);

    let reencoded = to_serde(&encode_marks_response(&decoded));
    // Every field present in the fixture survives the round trip unchanged.
    assert_eq!(reencoded, fixture);
}

#[test]
fn marks_fixture_with_absent_optional_field() {
    // The same fixture with "ClassRankText" left out entirely: absent and
    // null are the same absence, so the re-encoding writes null there and
    // every field that was present is still carried unchanged.
    let fixture: serde_json::Value =
        serde_json::from_str(&MARKS_FIXTURE.replace("\"ClassRankText\": null,\n", "")).unwrap();
    let tree = to_lib(&fixture);
    let decoded = decode_marks_response(&tree).unwrap();
    assert_eq!(decoded.subjects[0].marks[0].class_rank_text, None);

    let reencoded = to_serde(&encode_marks_response(&decoded));
    let mark = &fixture["Subjects"][0]["Marks"][0];
    let remark = &reencoded["Subjects"][0]["Marks"][0];
    for (key, value) in mark.as_object().unwrap() {
        assert_eq!(&remark[key], value, "field {key} was lost or changed");
    }
    assert_eq!(remark["ClassRankText"], serde_json::Value::Null);
}

#[test]
fn marks_fixture_with_wrong_shape_is_a_schema_error() {
    let fixture: serde_json::Value =
        serde_json::from_str(&MARKS_FIXTURE.replace("\"Weight\": 5", "\"Weight\": \"5\"")).unwrap();
    let r = decode_marks_response(&to_lib(&fixture));
    assert!(matches!(r, Err(bakalari::Error::Schema)));
}

const TIMETABLE_FIXTURE: &str = r#"{
  "Hours": [
    { "Id": 1, "Caption": "1", "BeginTime": "8:00", "EndTime": "8:45" }
  ],
  "Days": [
    {
      "Atoms": [
        {
          "HourId": 1,
          "GroupIds": ["AJ1"],
          "SubjectId": "AJ",
          "TeacherId": "UXMN",
          "RoomId": "209",
          "CycleIds": ["ALL"],
          "Change": {
            "ChangeSubject": "AJ",
            "Day": "2024-03-05T00:00:00+01:00",
            "Hours": "1",
            "ChangeType": "Substitution",
            "Description": "supply teacher",
            "Time": "",
            "TypeAbbrev": "Supl",
            "TypeName": null
          },
          "HomeworkIds": [],
          "Theme": "Past tense"
        }
      ],
      "DayOfWeek": 2,
      "Date": "2024-03-05T00:00:00+01:00",
      "DayDescription": "Tuesday",
      "DayType": "WorkDay"
    }
  ],
  "Classes": [ { "Id": "C1", "Abbrev": "1.A", "Name": "1.A" } ],
  "Groups": [ { "ClassId": "C1", "Id": "G1", "Abbrev": "AJ1", "Name": "English 1" } ],
  "Subjects": [ { "Id": "AJ", "Abbrev": "AJ", "Name": "English" } ],
  "Teachers": [ { "Id": "UXMN", "Abbrev": "MN", "Name": "M. Novak" } ],
  "Rooms": [ { "Id": "209", "Abbrev": "209", "Name": "" } ],
  "Cycles": [ { "Id": "ALL", "Abbrev": "All", "Name": "Every week" } ]
}"#;

#[test]
fn timetable_fixture_round_trips_without_field_loss() {
    let fixture: serde_json::Value = serde_json::from_str(TIMETABLE_FIXTURE).unwrap();
    let tree = to_lib(&fixture);
    let decoded = decode_timetable(&tree).unwrap();
    assert_eq!(decoded.hours.len(), 1);
    assert_eq!(decoded.days.len(), 1);
    let atom = &decoded.days[0].atoms[0];
    assert_eq!(atom.hour_id, 1);
    assert_eq!(atom.group_ids, vec!["AJ1".to_string()]);
    assert_eq!(atom.subject_id.as_deref(), Some("AJ"));
    let change = atom.change.as_ref().unwrap();
    assert_eq!(change.change_type, "Substitution");
    assert_eq!(change.type_label, None);

    let reencoded = to_serde(&encode_timetable(&decoded));
    assert_eq!(reencoded, fixture);
}

#[test]
fn timetable_cell_without_change_round_trips() {
    let without_change = TIMETABLE_FIXTURE.replace(
        r#""Change": {
            "ChangeSubject": "AJ",
            "Day": "2024-03-05T00:00:00+01:00",
            "Hours": "1",
            "ChangeType": "Substitution",
            "Description": "supply teacher",
            "Time": "",
            "TypeAbbrev": "Supl",
            "TypeName": null
          }"#,
        r#""Change": null"#,
    );
    let fixture: serde_json::Value = serde_json::from_str(&without_change).unwrap();
    let decoded = decode_timetable(&to_lib(&fixture)).unwrap();
    assert!(decoded.days[0].atoms[0].change.is_none());
    let reencoded = to_serde(&encode_timetable(&decoded));
    assert_eq!(reencoded, fixture);
}
