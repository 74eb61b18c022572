use log_parsing::diff::diff;
use log_parsing::pipeline::{
    deserialize_twice, deserialized_input, test_deserialize_serialize_is_unchanged, well_formed,
    TwiceError,
};
use log_parsing::record::{check_values, DecodeError, FieldError, LogLine};
use log_parsing::timestamp::{deserialize, serialize, Timestamp, TimestampError};
use log_parsing::tree::{equal, Json};

const LOG_LINE: &str = r#"{"code": "Z023", "data": {"stats": {"error": 0, "pass": 3, "skip": 0, "total": 3, "warn": 0}}, "invocation_id": "f1e1557c-4f9d-4053-bb50-572cbbf2ca64", "level": "info", "log_version": 2, "msg": "Done. PASS=3 WARN=0 ERROR=0 SKIP=0 TOTAL=3", "pid": 75854, "thread_name": "MainThread", "ts": "2021-12-03T01:32:38.334601Z", "type": "log_line"}"#;

fn tree(text: &str) -> Json {
    well_formed(&vec![text.to_owned()]).pop().expect("test input is JSON")
}

fn same(a: &Json, text: &str) -> bool {
    equal(a, &tree(text))
}

#[test]
fn test_basic_loop() {
    assert!(test_deserialize_serialize_is_unchanged(&vec![LOG_LINE.to_owned()]).is_ok())
}

#[test]
fn test_values() {
    let lines = deserialized_input(&vec![LOG_LINE.to_owned()]);
    assert!(lines.iter().all(|ll| ll.value_test().is_ok()))
}

#[test]
fn test_values_loop() {
    test_deserialize_serialize_is_unchanged(&vec![LOG_LINE.to_owned()]).unwrap();
}

#[test]
fn example_record_passes_both_checks() {
    let lines = deserialized_input(&vec![LOG_LINE.to_owned()]);
    assert_eq!(lines.len(), 1);
    let l = &lines[0];
    assert_eq!(l.log_version, 2);
    assert_eq!(l.line_type, "log_line");
    assert_eq!(l.level, "info");
    assert_eq!(l.pid, 75854);
    assert_eq!(l.code, "Z023");
    assert_eq!(
        l.ts,
        Timestamp { year: 2021, month: 12, day: 3, hour: 1, minute: 32, second: 38, nanosecond: 334601000 }
    );
    assert_eq!(check_values(&lines), Ok(()));
    let (x, y) = deserialize_twice(LOG_LINE).unwrap();
    assert!(diff(&x, &y).is_ok());
}

#[test]
fn log_version_three_fails_field_check_only() {
    let line = LOG_LINE.replace("\"log_version\": 2", "\"log_version\": 3");
    let lines = deserialized_input(&vec![line.clone()]);
    assert_eq!(lines.len(), 1);
    assert!(test_deserialize_serialize_is_unchanged(&vec![line]).is_ok());
    let e = check_values(&lines).unwrap_err();
    assert_eq!(e, FieldError::LogVersion(3));
    assert_eq!(e.field_name(), "log_version");
}

#[test]
fn wrong_type_and_level_are_reported() {
    let t = LOG_LINE.replace("\"type\": \"log_line\"", "\"type\": \"other\"");
    let lines = deserialized_input(&vec![t]);
    assert_eq!(lines[0].value_test(), Err(FieldError::Type("other".to_owned())));
    assert_eq!(FieldError::Type("other".to_owned()).field_name(), "type");
    let l = LOG_LINE.replace("\"level\": \"info\"", "\"level\": \"fatal\"");
    let lines = deserialized_input(&vec![l]);
    assert_eq!(lines[0].value_test(), Err(FieldError::Level("fatal".to_owned())));
    for ok in ["debug", "warn", "error"] {
        let l = LOG_LINE.replace("\"level\": \"info\"", &format!("\"level\": \"{}\"", ok));
        assert_eq!(deserialized_input(&vec![l])[0].value_test(), Ok(()));
    }
}

#[test]
fn timestamp_without_fraction_is_excluded() {
    let line = LOG_LINE.replace("2021-12-03T01:32:38.334601Z", "2021-12-03T01:32:38Z");
    assert!(deserialized_input(&vec![line.clone()]).is_empty());
    assert!(matches!(deserialize_twice(&line), Err(TwiceError::NotRecord(_))));
    assert!(test_deserialize_serialize_is_unchanged(&vec![line]).is_ok());
}

#[test]
fn non_json_line_is_excluded_before_decoding() {
    let lines = vec!["not json at all".to_owned(), LOG_LINE.to_owned()];
    assert_eq!(well_formed(&lines).len(), 1);
    assert_eq!(deserialized_input(&lines).len(), 1);
    assert!(matches!(deserialize_twice("not json at all"), Err(TwiceError::NotJson)));
    assert!(test_deserialize_serialize_is_unchanged(&lines).is_ok());
}

#[test]
fn json_that_is_no_record_is_excluded() {
    let lines = vec!["{\"a\": 1}".to_owned(), "[1, 2]".to_owned()];
    assert_eq!(well_formed(&lines).len(), 2);
    assert!(deserialized_input(&lines).is_empty());
    assert!(test_deserialize_serialize_is_unchanged(&lines).is_ok());
}

#[test]
fn decode_errors_name_the_field() {
    assert_eq!(LogLine::from_tree(&tree("[1]")).err(), Some(DecodeError::NotAnObject));
    let missing = LOG_LINE.replace("\"pid\": 75854, ", "");
    assert_eq!(
        LogLine::from_tree(&tree(&missing)).err(),
        Some(DecodeError::Missing("pid".to_owned()))
    );
    let wrong = LOG_LINE.replace("\"pid\": 75854", "\"pid\": \"x\"");
    assert_eq!(
        LogLine::from_tree(&tree(&wrong)).err(),
        Some(DecodeError::WrongKind("pid".to_owned()))
    );
    let float = LOG_LINE.replace("\"pid\": 75854", "\"pid\": 1.5");
    assert!(LogLine::from_tree(&tree(&float)).is_err());
}

#[test]
fn extra_key_loses_information_in_round_trip() {
    let line = LOG_LINE.replace("\"code\": \"Z023\"", "\"code\": \"Z023\", \"extra\": true");
    assert_eq!(deserialized_input(&vec![line.clone()]).len(), 1);
    let e = test_deserialize_serialize_is_unchanged(&vec![line.clone()]).unwrap_err();
    assert_eq!(e.line, line);
    assert!(same(&e.fragment.unwrap(), "{\"extra\":true}"));
}

#[test]
fn diff_of_equal_trees_is_ok() {
    let a = tree(LOG_LINE);
    assert_eq!(diff(&a, &a).is_ok(), true);
    let b = tree("{\"b\": [1, 2.5, null, \"s\"], \"a\": {\"c\": false}}");
    assert!(diff(&b, &b).is_ok());
    assert!(diff(&b, &tree("{\"a\": {\"c\": false}, \"b\": [1, 2.5, null, \"s\"]}")).is_ok());
}

#[test]
fn diff_reports_extra_left_key() {
    let a = tree("{\"k\": 2, \"x\": 1}");
    let b = tree("{\"k\": 2}");
    assert!(same(&diff(&a, &b).unwrap_err(), "{\"x\":1}"));
    assert!(same(&diff(&b, &a).unwrap_err(), "{\"x\":1}"));
}

#[test]
fn diff_checks_left_keys_first() {
    let a = tree("{\"k\": 2, \"p\": 1}");
    let b = tree("{\"k\": 2, \"q\": 3}");
    assert!(same(&diff(&a, &b).unwrap_err(), "{\"p\":1}"));
}

#[test]
fn diff_reports_innermost_value() {
    let a = tree("{\"s\": 0, \"d\": {\"e\": {\"f\": 1, \"g\": 5}}}");
    let b = tree("{\"s\": 0, \"d\": {\"e\": {\"f\": 2, \"g\": 5}}}");
    assert!(same(&diff(&a, &b).unwrap_err(), "1"));
}

#[test]
fn diff_reports_whole_left_array() {
    let a = tree("{\"v\": [1, 2, 3]}");
    let b = tree("{\"v\": [1, 2, 4]}");
    assert!(same(&diff(&a, &b).unwrap_err(), "[1,2,3]"));
    assert!(same(&diff(&tree("1"), &tree("\"1\"")).unwrap_err(), "1"));
}

#[test]
fn equality_ignores_key_order_not_array_order() {
    assert!(equal(&tree("{\"a\": 1, \"b\": 2}"), &tree("{\"b\": 2, \"a\": 1}")));
    assert!(!equal(&tree("[1, 2]"), &tree("[2, 1]")));
    assert!(!equal(&tree("1"), &tree("1.0")));
    assert!(!equal(&tree("-1"), &tree("1")));
}

#[test]
fn well_formed_reads_values() {
    assert!(well_formed(&vec!["not json".to_owned()]).is_empty());
    assert!(matches!(tree("-7"), Json::Int(-7)));
    assert!(matches!(tree("7"), Json::UInt(7)));
    match tree("\"hi\"") {
        Json::Str(s) => assert_eq!(s, "hi"),
        _ => panic!("expected a string"),
    }
    match tree("2.5") {
        Json::Float(s) => assert_eq!(s, "2.5"),
        _ => panic!("expected a number"),
    }
    match tree("{\"b\": [true], \"a\": null}") {
        Json::Object(v) => {
            assert_eq!(v.len(), 2);
            assert_eq!(v[0].0, "a");
            assert!(matches!(v[0].1, Json::Null));
            assert!(matches!(&v[1].1, Json::Array(a) if matches!(a[0], Json::Bool(true))));
        }
        _ => panic!("expected an object"),
    }
}

#[test]
fn timestamp_codec() {
    let t = deserialize("2021-12-03T01:32:38.334601Z").unwrap();
    assert_eq!(serialize(&t).unwrap(), "2021-12-03T01:32:38.334601Z");
    assert_eq!(deserialize("2021-12-03T01:32:38Z"), Err(TimestampError::Shape));
    assert_eq!(deserialize("2021-12-03T01:32:38.3346Z"), Err(TimestampError::Shape));
    assert_eq!(deserialize("2021-12-03T01:32:38.3346011Z"), Err(TimestampError::Shape));
    assert_eq!(deserialize("2021-12-03T01:32:38.334601+00:00"), Err(TimestampError::Shape));
    assert_eq!(deserialize("2021-12-03T01:32:38.334601"), Err(TimestampError::Shape));
    assert_eq!(deserialize("2021-02-30T01:32:38.334601Z"), Err(TimestampError::Calendar));
    let u = Timestamp { year: 2020, month: 1, day: 2, hour: 3, minute: 4, second: 5, nanosecond: 6_789_999 };
    assert_eq!(serialize(&u).unwrap(), "2020-01-02T03:04:05.006789Z");
    let bad = Timestamp { month: 13, ..u };
    assert_eq!(serialize(&bad), None);
}
