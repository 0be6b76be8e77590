use basicnext::json::{
    FloatMember, JsonOperand, JsonProvider, JsonRead, JsonShape, JsonStatus, JsonStep, ReadKind, ScalarKind,
    clone_result, kind_result, length_result, parse_result, read_result, status_void,
    stringify_result,
};
use basicnext::source::{Position, Span};
use basicnext::types::IntegerType;
use basicnext::value::{Expected, ProviderErrorKind, Value};

fn span() -> Span {
    let position = Position { source_id: 1, revision: 1, offset: 0, line: 1, column: 1 };
    Span { start: position, end: position }
}

fn error_message(v: Value) -> String {
    match v {
        Value::Error { code: 1, message } => message,
        other => panic!("{other:?}"),
    }
}

#[test]
fn members_become_store_requests_with_their_operands() {
    let mut p = JsonProvider::new();
    let step = p
        .call(
            "BNJson.SetInteger",
            vec![Value::Json(4), Value::String("count".into()), Value::Integer(9, IntegerType::Int32)],
            span(),
        )
        .unwrap();
    match step {
        JsonStep::Request(q) => {
            assert_eq!(q.shape, JsonShape::WriteKey(ScalarKind::Integer));
            assert!(matches!(q.operands.as_slice(), [JsonOperand::Handle(4), JsonOperand::Text(k), JsonOperand::Integer(9)] if k == "count"));
        },
        other => panic!("{other:?}"),
    }
    match p.call("BNJson.GetBooleanAt", vec![Value::Json(1), Value::Integer(0, IntegerType::Int64)], span()).unwrap() {
        JsonStep::Request(q) => assert_eq!(q.shape, JsonShape::ReadAt(ReadKind::Boolean)),
        other => panic!("{other:?}"),
    }
    match p.call("Object", vec![], span()).unwrap() {
        JsonStep::Request(q) => assert_eq!(q.shape, JsonShape::NewObject),
        other => panic!("{other:?}"),
    }
}

#[test]
fn arguments_are_checked_before_the_store_is_asked() {
    let mut p = JsonProvider::new();
    match p.call("BNJson.Has", vec![Value::Json(1)], span()) {
        Err(e) => assert!(matches!(e.kind, ProviderErrorKind::Arity { expected: 2, found: 1, .. })),
        Ok(_) => panic!("arity"),
    }
    match p.call("BNJson.Has", vec![Value::String("x".into()), Value::String("k".into())], span()) {
        Err(e) => assert!(matches!(e.kind, ProviderErrorKind::TypeMismatch { expected: Expected::Json, .. })),
        Ok(_) => panic!("handle"),
    }
    let huge = Value::Integer(i128::from(i64::MAX) + 1, IntegerType::Int64);
    match p.call("BNJson.AppendInteger", vec![Value::Json(1), huge], span()) {
        Err(e) => assert!(matches!(e.kind, ProviderErrorKind::TypeMismatch { expected: Expected::IntegerInRange, .. })),
        Ok(_) => panic!("range"),
    }
    assert!(matches!(p.call("BNJson.CONSTRUCTOR", vec![], span()).unwrap(), JsonStep::Done(Value::Null)));
    match p.call("BNJson.Frobnicate", vec![], span()).unwrap() {
        JsonStep::Done(v) => assert_eq!(error_message(v), "BNJson operation unavailable"),
        other => panic!("{other:?}"),
    }
}

#[test]
fn float_members_are_checked_before_the_host_completes_them() {
    let mut p = JsonProvider::new();
    let key = || Value::String("k".into());
    let step = p.call("BNJson.SetFloat", vec![Value::Json(1), key(), Value::Integer(3, IntegerType::Int32)], span()).unwrap();
    match step {
        JsonStep::Float(q) => {
            assert_eq!(q.member, FloatMember::SetFloat);
            assert!(matches!(q.operands.as_slice(), [JsonOperand::Handle(1), JsonOperand::Text(k)] if k == "k"));
        },
        other => panic!("{other:?}"),
    }
    match p.call("BNJson.GetFloatAt", vec![Value::Json(2), Value::Integer(4, IntegerType::Int64)], span()).unwrap() {
        JsonStep::Float(q) => {
            assert_eq!(q.member, FloatMember::GetFloatAt);
            assert!(matches!(q.operands.as_slice(), [JsonOperand::Handle(2), JsonOperand::Integer(4)]));
        },
        other => panic!("{other:?}"),
    }
    match p.call("BNJson.SetFloat", vec![], span()) {
        Err(e) => assert!(matches!(e.kind, ProviderErrorKind::Arity { expected: 3, found: 0, .. })),
        Ok(_) => panic!("arity"),
    }
    match p.call("BNJson.GetFloat", vec![key(), key()], span()) {
        Err(e) => assert!(matches!(e.kind, ProviderErrorKind::TypeMismatch { expected: Expected::Json, .. })),
        Ok(_) => panic!("handle"),
    }
    match p.call("BNJson.AppendFloat", vec![Value::Json(1), key()], span()).unwrap() {
        JsonStep::Float(q) => assert_eq!(q.member, FloatMember::AppendFloat),
        other => panic!("{other:?}"),
    }
}

#[test]
fn write_outcomes_map_to_void_or_error_values() {
    assert!(matches!(status_void(JsonStatus::Written, true, span()), Ok(Value::Null)));
    assert_eq!(
        error_message(status_void(JsonStatus::TooLarge, true, span()).unwrap()),
        "BNJson write would exceed the depth limit"
    );
    assert_eq!(error_message(status_void(JsonStatus::NotFound, false, span()).unwrap()), "BNJson: index out of range");
    assert_eq!(
        error_message(status_void(JsonStatus::WrongKind, false, span()).unwrap()),
        "BNJson write target is not an array"
    );
    match status_void(JsonStatus::InvalidHandle, true, span()) {
        Err(e) => assert!(matches!(e.kind, ProviderErrorKind::UseAfterRelease(ref m) if m == "BNJson.Json is invalid")),
        Ok(v) => panic!("{v:?}"),
    }
}

#[test]
fn reads_never_fall_back_to_a_default() {
    assert!(matches!(read_result(ReadKind::Integer, JsonRead::Integer(5), span()), Ok(Value::Integer(5, IntegerType::Int64))));
    assert_eq!(
        error_message(read_result(ReadKind::Integer, JsonRead::Missing, span()).unwrap()),
        "BNJson: missing key or value is not a INTEGER"
    );
    assert_eq!(
        error_message(read_result(ReadKind::Text, JsonRead::Boolean(true), span()).unwrap()),
        "BNJson: missing key or value is not a STRING"
    );
    assert!(read_result(ReadKind::Json, JsonRead::InvalidHandle, span()).is_err());
    assert!(matches!(read_result(ReadKind::Json, JsonRead::Document(8), span()), Ok(Value::Json(8))));
}

#[test]
fn document_answers_map_to_values() {
    assert!(matches!(parse_result(Ok(3), span()), Ok(Value::Json(3))));
    assert!(matches!(parse_result(Err("bad".into()), span()).unwrap_err().kind, ProviderErrorKind::InvalidJson(ref m) if m == "bad"));
    assert!(stringify_result(None, span()).is_err());
    assert!(matches!(stringify_result(Some(Ok("{}".into())), span()), Ok(Value::String(ref s)) if s == "{}"));
    assert!(matches!(kind_result(Some("object".into()), span()), Ok(Value::String(ref s)) if s == "object"));
    assert!(clone_result(None, span()).is_err());
    assert!(matches!(length_result(2), Value::Integer(2, IntegerType::Int32)));
    assert_eq!(error_message(length_result(-1)), "BNJson.Length: document is not an object or array");
    let p = JsonProvider::new();
    assert!(p.allocates("BNJson.Json"));
    assert!(!p.allocates("BNJson.Other"));
    assert!(p.release_result(&Value::Null, true, span()).is_none());
    assert!(matches!(p.release_result(&Value::Json(1), false, span()), Some(Err(_))));
}
