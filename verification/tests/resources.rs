use bakalari::BakalariClient;
use bakalari::json::JsonValue;
use bakalari::Error;
use bakalari::TokenResponse;
use bakalari::marks::parse_new_marks_count;
use bakalari::request::Method;
use bakalari::timetable::Date;
use bakalari::timetable::format_date;

fn client() -> BakalariClient {
    BakalariClient::new(
        "https://school.example",
        TokenResponse {
            access_token: "acc-1".to_string(),
            refresh_token: "ref-1".to_string(),
            expires_in: 3600,
        },
        1_000,
    )
}

#[test]
fn get_timetable() {
    let date = Date { year: 2024, month: 3, day: 5 };
    let request = client().timetable_request(date);
    assert_eq!(request.method, Method::Get);
    assert_eq!(
        request.url,
        "https://school.example/api/3/timetable/actual?date=2024-03-05"
    );
    assert_eq!(request.bearer.as_deref(), Some("acc-1"));
    assert!(request.body.is_none());
}

#[test]
fn get_current_timetable() {
    // The current timetable is the timetable for today's date, evaluated at
    // call time by the caller's clock; the request is the same one.
    let today = Date { year: 2024, month: 11, day: 7 };
    let request = client().timetable_request(today);
    assert_eq!(
        request.url,
        "https://school.example/api/3/timetable/actual?date=2024-11-07"
    );
}

#[test]
fn get_permanent_timetable() {
    let request = client().permanent_timetable_request();
    assert_eq!(request.method, Method::Get);
    assert_eq!(request.url, "https://school.example/api/3/timetable/permanent");
    assert_eq!(request.bearer.as_deref(), Some("acc-1"));
}

#[test]
fn get_marks() {
    let request = client().marks_request();
    assert_eq!(request.method, Method::Get);
    assert_eq!(request.url, "https://school.example/api/3/marks");
    assert_eq!(request.bearer.as_deref(), Some("acc-1"));
}

#[test]
fn get_new_marks_count() {
    let request = client().new_marks_count_request();
    assert_eq!(request.url, "https://school.example/api/3/marks/count-new");

    assert_eq!(parse_new_marks_count("7"), Ok(7));
    assert_eq!(parse_new_marks_count("seven"), Err(Error::Schema));
    // One leading plus sign is part of the decimal grammar.
    assert_eq!(parse_new_marks_count("+7"), Ok(7));
}

#[test]
fn counter_bodies_edge_cases() {
    assert_eq!(parse_new_marks_count("0"), Ok(0));
    assert_eq!(parse_new_marks_count("007"), Ok(7));
    assert_eq!(parse_new_marks_count("65535"), Ok(65535));
    assert_eq!(parse_new_marks_count("65536"), Err(Error::Schema));
    assert_eq!(parse_new_marks_count(""), Err(Error::Schema));
    assert_eq!(parse_new_marks_count("12a"), Err(Error::Schema));
    assert_eq!(parse_new_marks_count("-1"), Err(Error::Schema));
    assert_eq!(parse_new_marks_count("+65535"), Ok(65535));
    assert_eq!(parse_new_marks_count("+"), Err(Error::Schema));
    assert_eq!(parse_new_marks_count("++7"), Err(Error::Schema));
    assert_eq!(parse_new_marks_count("7+"), Err(Error::Schema));
    assert_eq!(parse_new_marks_count(" 7"), Err(Error::Schema));
}

#[test]
fn dates_are_zero_padded() {
    assert_eq!(format_date(Date { year: 2024, month: 3, day: 5 }), "2024-03-05");
    assert_eq!(format_date(Date { year: 2024, month: 12, day: 25 }), "2024-12-25");
    assert_eq!(format_date(Date { year: 1999, month: 10, day: 1 }), "1999-10-01");
}

#[test]
fn duplicate_field_names_use_first_occurrence() {
    let v = JsonValue::Obj(vec![
        ("Id".to_string(), JsonValue::Str("first".to_string())),
        ("Id".to_string(), JsonValue::Str("second".to_string())),
        ("Abbrev".to_string(), JsonValue::Str("A".to_string())),
        ("Name".to_string(), JsonValue::Str("N".to_string())),
    ]);
    let s = bakalari::shared::decode_subject(&v).unwrap();
    assert_eq!(s.id, "first");
    assert_eq!(s.abbreviation, "A");
}
