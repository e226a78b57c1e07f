use result_codec::error::DecodeError;
use result_codec::json::JsonValue;
use result_codec::result_value::ResultValue;
use result_codec::types::{ApiType, ParseFromJson, ToJson};

fn ok_mock() -> ResultValue<i64, String> {
    ResultValue::Success(10)
}

fn ok_json() -> JsonValue {
    JsonValue::Obj(vec![("ok".to_string(), JsonValue::Int(10))])
}

#[test]
fn serializes_ok_to_json() {
    assert_eq!(ok_json(), ok_mock().to_json().unwrap())
}

#[test]
fn deserializes_json_ok() {
    assert_eq!(
        ok_mock(),
        ResultValue::<i64, String>::parse_from_json(Some(ok_json())).unwrap()
    )
}

fn err_mock() -> ResultValue<i64, String> {
    ResultValue::Failure("invalid".to_string())
}

fn err_json() -> JsonValue {
    JsonValue::Obj(vec![("err".to_string(), JsonValue::Str("invalid".to_string()))])
}

#[test]
fn serializes_err_to_json() {
    assert_eq!(err_json(), err_mock().to_json().unwrap())
}

#[test]
fn deserializes_json_err() {
    assert_eq!(
        err_mock(),
        ResultValue::<i64, String>::parse_from_json(Some(err_json())).unwrap()
    )
}

#[test]
fn round_trips_success() {
    let encoded = ResultValue::<i64, String>::Success(-3).to_json();
    assert_eq!(
        ResultValue::<i64, String>::parse_from_json(encoded).unwrap(),
        ResultValue::Success(-3)
    )
}

#[test]
fn round_trips_failure() {
    let encoded = ResultValue::<i64, String>::Failure("boom".to_string()).to_json();
    assert_eq!(
        ResultValue::<i64, String>::parse_from_json(encoded).unwrap(),
        ResultValue::Failure("boom".to_string())
    )
}

#[test]
fn ok_takes_precedence_over_err() {
    let both = JsonValue::Obj(vec![
        ("ok".to_string(), JsonValue::Int(7)),
        ("err".to_string(), JsonValue::Str("ignored".to_string())),
    ]);
    assert_eq!(
        ResultValue::<i64, String>::parse_from_json(Some(both)).unwrap(),
        ResultValue::Success(7)
    )
}

#[test]
fn missing_input_fails() {
    assert_eq!(
        ResultValue::<i64, String>::parse_from_json(None),
        Err(DecodeError::MissingInput)
    )
}

#[test]
fn non_object_fails_with_invalid_shape() {
    assert_eq!(
        ResultValue::<i64, String>::parse_from_json(Some(JsonValue::Int(42))),
        Err(DecodeError::InvalidShape)
    )
}

#[test]
fn object_without_either_key_fails_unrecognized() {
    let foo = JsonValue::Obj(vec![("foo".to_string(), JsonValue::Int(1))]);
    let again = JsonValue::Obj(vec![("foo".to_string(), JsonValue::Int(1))]);
    assert_eq!(
        ResultValue::<i64, String>::parse_from_json(Some(foo)),
        Err(DecodeError::UnrecognizedShape(again))
    )
}

#[test]
fn empty_object_fails_unrecognized() {
    assert_eq!(
        ResultValue::<i64, String>::parse_from_json(Some(JsonValue::Obj(vec![]))),
        Err(DecodeError::UnrecognizedShape(JsonValue::Obj(vec![])))
    )
}

#[test]
fn payload_failure_forwards_message() {
    let bad = JsonValue::Obj(vec![("ok".to_string(), JsonValue::Str("oops".to_string()))]);
    let err = ResultValue::<i64, String>::parse_from_json(Some(bad)).unwrap_err();
    match err {
        DecodeError::PayloadDecodeFailure(message) => {
            assert_eq!(message, "unexpected value shape")
        }
        other => panic!("expected a forwarded payload failure, got {:?}", other),
    }
}

#[test]
fn error_messages() {
    assert_eq!(DecodeError::MissingInput.into_message(), "expected input");
    assert_eq!(DecodeError::InvalidShape.into_message(), "expected an object");
    assert_eq!(
        DecodeError::UnrecognizedShape(JsonValue::Null).into_message(),
        "unexpected value shape"
    );
    assert_eq!(
        DecodeError::PayloadDecodeFailure("verbatim".to_string()).into_message(),
        "verbatim"
    );
}

#[test]
fn name_composes_payload_names() {
    assert_eq!(
        ResultValue::<i64, String>::name(),
        "result<integer, string>"
    );
    assert_eq!(
        ResultValue::<ResultValue<i64, String>, i64>::name(),
        "result<result<integer, string>, integer>"
    );
}

#[test]
fn result_value_field_may_be_omitted() {
    assert!(i64::is_required());
    assert!(String::is_required());
    assert!(!ResultValue::<i64, String>::is_required());
}

#[test]
fn nested_round_trip() {
    let nested: ResultValue<ResultValue<i64, String>, String> =
        ResultValue::Success(ResultValue::Failure("inner".to_string()));
    let encoded = nested.to_json();
    let expected = JsonValue::Obj(vec![(
        "ok".to_string(),
        JsonValue::Obj(vec![("err".to_string(), JsonValue::Str("inner".to_string()))]),
    )]);
    assert_eq!(encoded, Some(expected));
    assert_eq!(
        ResultValue::<ResultValue<i64, String>, String>::parse_from_json(encoded).unwrap(),
        ResultValue::Success(ResultValue::Failure("inner".to_string()))
    )
}
