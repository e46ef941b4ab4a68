use vault_cipher::cipher::Cipher;
use vault_cipher::content::{date_entry, fix_field, fix_history, fix_uri};
use vault_cipher::dates::{
    date_or_epoch, days_before, format_date, validate_and_format_date, LocalTime, Timestamp,
    MAX_SECS, MIN_SECS,
};
use vault_cipher::ids::{CipherId, UserId};
use vault_cipher::json::Json;
use vault_cipher::stored::{lower_case_key, read_json, read_list, read_object};
use vault_cipher::text::{decimal_text, parse_byte};

#[test]
fn numbers_are_written_in_decimal() {
    assert_eq!(decimal_text(0), "0");
    assert_eq!(decimal_text(10), "10");
    assert_eq!(decimal_text(18_446_744_073_709_551_615), "18446744073709551615");
}

#[test]
fn bytes_are_read_back() {
    for byte in 0..=255u8 {
        assert_eq!(parse_byte(&decimal_text(byte as u64)), Some(byte));
    }
}

#[test]
fn bytes_are_read_as_the_language_reads_them() {
    for text in ["", "+", "-1", "+5", "005", "256", "255", "1 ", "٣", "99999999999", "++1", "1+"] {
        assert_eq!(parse_byte(text), text.parse::<u8>().ok(), "{}", text);
    }
}

#[test]
fn dates_are_written_with_microseconds() {
    let time = Timestamp { secs: 1_600_000_000, nanos: 999_999_999 };
    assert_eq!(format_date(&time), "2020-09-13T12:26:40.999999Z");
    let time = Timestamp { secs: -1, nanos: 0 };
    assert_eq!(format_date(&time), "1969-12-31T23:59:59.000000Z");
}

#[test]
fn dates_are_checked() {
    assert_eq!(validate_and_format_date("2021-01-02T03:04:05Z"), "2021-01-02T03:04:05.000000Z");
    assert_eq!(
        validate_and_format_date("2021-01-02T03:04:05.1234567+01:30"),
        "2021-01-02T03:04:05.123456+01:30"
    );
    assert_eq!(validate_and_format_date("2021-01-02"), "1970-01-01T00:00:00.000000Z");
    assert_eq!(date_or_epoch(None), "1970-01-01T00:00:00.000000Z");
    let at = LocalTime { time: Timestamp { secs: 3_600, nanos: 5_000 }, offset: -5_400 };
    assert_eq!(date_or_epoch(Some(at)), "1969-12-31T23:30:00.000005-01:30");
}

#[test]
fn leap_seconds_are_kept() {
    assert_eq!(
        validate_and_format_date("2016-12-31T23:59:60.25+00:30"),
        "2016-12-31T23:59:60.250000+00:30"
    );
}

#[test]
fn days_go_back_within_the_calendar() {
    let time = Timestamp { secs: 86_400, nanos: 7 };
    assert_eq!(days_before(time, 0), Some(time));
    assert_eq!(days_before(time, 2), Some(Timestamp { secs: -86_400, nanos: 7 }));
    assert_eq!(days_before(time, -1), Some(Timestamp { secs: 172_800, nanos: 7 }));
    assert_eq!(days_before(time, i64::MAX), None);
    assert_eq!(days_before(time, i64::MIN), None);
    let first = Timestamp { secs: MIN_SECS, nanos: 0 };
    let last = Timestamp { secs: MAX_SECS, nanos: 0 };
    assert_eq!(days_before(first, 1), None);
    assert_eq!(days_before(last, -1), None);
    for days in [1, 30, 365, 96_000_000, 190_000_000, -7] {
        let expected = chrono::TimeDelta::try_days(days)
            .and_then(|delta| {
                let last = chrono::DateTime::from_timestamp(MAX_SECS, 0).unwrap().naive_utc();
                last.checked_sub_signed(delta)
            })
            .map(|time| time.and_utc().timestamp());
        assert_eq!(days_before(last, days).map(|time| time.secs), expected);
    }
}

#[test]
fn points_in_time_are_ordered() {
    let early = Timestamp { secs: 1, nanos: 2 };
    let late = Timestamp { secs: 1, nanos: 3 };
    let later = Timestamp { secs: 2, nanos: 0 };
    assert!(early.is_before(&late));
    assert!(late.is_before(&later));
    assert!(!late.is_before(&early));
    assert!(!early.is_before(&early));
}

#[test]
fn new_ciphers_are_blank_and_distinct() {
    let one = Cipher::new(1, "name".to_string());
    let two = Cipher::new(5, "other".to_string());
    assert!(one.uuid.0 != two.uuid.0);
    assert_eq!(one.uuid.0.len(), 36);
    assert_eq!(one.uuid.0.as_bytes()[14], b'4');
    assert!(one.created_at.secs > 1_600_000_000);
    assert_eq!(one.created_at, one.updated_at);
    assert_eq!(one.atype, 1);
    assert_eq!(one.name, "name");
    assert_eq!(two.atype, 5);
    assert!(one.user_uuid.is_none() && one.organization_uuid.is_none() && one.key.is_none());
    assert!(one.notes.is_none() && one.fields.is_none() && one.password_history.is_none());
    assert!(one.deleted_at.is_none() && one.reprompt.is_none());
    assert_eq!(one.data, "");
}

#[test]
fn ownership_goes_by_the_user() {
    let mut cipher = Cipher::new(1, "name".to_string());
    let user = UserId::from("user".to_string());
    assert!(!cipher.is_owned_by_user(&user));
    cipher.user_uuid = Some(UserId::from("user".to_string()));
    assert!(cipher.is_owned_by_user(&user));
    assert!(!cipher.is_owned_by_user(&UserId::from("other".to_string())));
}

#[test]
fn clones_are_equal() {
    let mut cipher = Cipher::new(4, "name".to_string());
    cipher.notes = Some("notes".to_string());
    let copy = cipher.clone();
    assert!(copy.uuid == cipher.uuid);
    assert_eq!(copy.notes, cipher.notes);
    assert_eq!(copy.created_at, cipher.created_at);
    assert!(CipherId::from("a".to_string()) == CipherId("a".to_string()));
}

#[test]
fn members_are_set_and_found() {
    let mut json = Json::Null;
    json.set("a", Json::number(1));
    json.set("b", Json::text("x"));
    json.set("a", Json::number(2));
    assert!(matches!(json.get("a"), Some(Json::Number(n)) if n == "2"));
    assert_eq!(json.text_at("b"), Some("x"));
    assert_eq!(json.text_at("a"), None);
    assert!(json.get("c").is_none());
    assert!(Json::text("t").get("a").is_none());
    assert!(matches!(json, Json::Object(members) if members.len() == 2));
}

#[test]
fn keys_get_a_small_first_letter() {
    assert_eq!(lower_case_key("FirstName"), "firstName");
    assert_eq!(lower_case_key("SSN"), "ssn");
    assert_eq!(lower_case_key("sSn"), "ssn");
    assert_eq!(lower_case_key("SSNs"), "sSNs");
    assert_eq!(lower_case_key(""), "");
    assert_eq!(lower_case_key("ÉCOLE"), "éCOLE");
    assert_eq!(lower_case_key("_A"), "_A");
    assert_eq!(lower_case_key(&lower_case_key("FirstName")), "firstName");
}

#[test]
fn texts_are_read() {
    assert!(read_json("{").is_none());
    assert!(matches!(read_json("12.50"), Some(Json::Number(n)) if n == "12.5"));
    assert!(matches!(read_json("true"), Some(Json::Bool(true))));
    assert!(matches!(read_json("null"), Some(Json::Null)));
    assert!(read_object("[]").is_none());
    assert_eq!(read_object(r#"{"Key":"v"}"#).unwrap().text_at("key"), Some("v"));
    assert!(read_list("{}").is_none());
    assert!(read_list("[{},1]").is_none());
    assert_eq!(read_list(r#"[{"A":1},{"B":2}]"#).unwrap().len(), 2);
    assert!(read_list(r#"[{"A":1}]"#).unwrap()[0].get("a").is_some());
}

#[test]
fn repaired_fields_need_no_repair() {
    for text in [r#"{"type":"4"}"#, r#"{"type":9}"#, r#"{"type":[]}"#, "{}"] {
        let field = read_json(text).unwrap();
        let once = fix_field(&field);
        let twice = fix_field(&once);
        let number = |json: &Json| match json.get("type") {
            Some(Json::Number(n)) => n.clone(),
            other => panic!("{:?}", other),
        };
        assert_eq!(number(&once), number(&twice));
    }
}

#[test]
fn history_keeps_entries_with_a_password() {
    let history = read_list(r#"[{"password":"a"},{"password":1},{},{"password":""}]"#).unwrap();
    let shown = fix_history(&history);
    assert_eq!(shown.len(), 2);
    for entry in &shown {
        assert!(entry.text_at("password").is_some());
        assert_eq!(entry.text_at("lastUsedDate"), Some("1970-01-01T00:00:00.000000Z"));
    }
    let dated = date_entry(&history[0], Some("then".to_string()));
    assert_eq!(dated.text_at("lastUsedDate"), Some("then"));
    assert_eq!(dated.text_at("password"), Some("a"));
}

#[test]
fn match_values_are_no_texts() {
    let uri = read_json(r#"{"match":"5","uri":"u"}"#).unwrap();
    assert!(matches!(fix_uri(&uri).get("match"), Some(Json::Number(n)) if n == "5"));
    let uri = read_json(r#"{"match":"many"}"#).unwrap();
    assert!(matches!(fix_uri(&uri).get("match"), Some(Json::Null)));
    let uri = read_json(r#"{"match":null}"#).unwrap();
    assert!(matches!(fix_uri(&uri).get("match"), Some(Json::Null)));
    assert!(matches!(fix_uri(&Json::number(3)), Json::Number(_)));
}
