use basicnext::crypto::{CryptoOp, CryptoOutcome, CryptoProvider, CryptoStep};
use basicnext::source::{Position, Span};
use basicnext::types::IntegerType;
use basicnext::value::{Expected, ProviderErrorKind, Value};

fn span() -> Span {
    let position = Position { source_id: 1, revision: 1, offset: 0, line: 1, column: 1 };
    Span { start: position, end: position }
}

fn done(step: CryptoStep) -> Value {
    match step {
        CryptoStep::Done(v) => v,
        CryptoStep::Compute(q) => panic!("unexpected request {:?}", q.op),
    }
}

fn handle(v: &Value) -> u64 {
    match v {
        Value::CryptoBytes(h) => *h,
        other => panic!("not a buffer: {other:?}"),
    }
}

fn text(s: &str) -> Value {
    Value::String(s.into())
}

fn length(p: &mut CryptoProvider, h: u64) -> Result<Value, ProviderErrorKind> {
    p.call("BNCrypto.Length", vec![Value::CryptoBytes(h)], span()).map(done).map_err(|e| e.kind)
}

#[test]
fn from_text_stores_the_utf8_bytes_under_a_fresh_handle() {
    let mut p = CryptoProvider::new();
    let first = handle(&done(p.call("BNCrypto.FromText", vec![text("héllo")], span()).unwrap()));
    let second = handle(&done(p.call("FromText", vec![text("")], span()).unwrap()));
    assert_eq!((first, second), (1, 2));
    assert!(matches!(length(&mut p, first), Ok(Value::Integer(6, IntegerType::Int32))));
    assert!(matches!(length(&mut p, second), Ok(Value::Integer(0, IntegerType::Int32))));
}

#[test]
fn released_buffers_become_invalid() {
    let mut p = CryptoProvider::new();
    let h = handle(&done(p.call("BNCrypto.FromText", vec![text("key")], span()).unwrap()));
    assert!(matches!(p.release(&Value::CryptoBytes(h), span()), Some(Ok(()))));
    match length(&mut p, h) {
        Err(ProviderErrorKind::UseAfterRelease(m)) => assert_eq!(m, "BNCrypto.Bytes is invalid"),
        other => panic!("{other:?}"),
    }
    match p.release(&Value::CryptoBytes(h), span()) {
        Some(Err(e)) => assert!(matches!(e.kind, ProviderErrorKind::UseAfterRelease(ref m) if m == "BNCrypto.Bytes was already released")),
        other => panic!("{other:?}"),
    }
    assert!(p.release(&Value::Null, span()).is_none());
}

#[test]
fn slices_copy_a_range_or_give_an_error_value() {
    let mut p = CryptoProvider::new();
    let h = handle(&done(p.call("BNCrypto.FromText", vec![text("abcdef")], span()).unwrap()));
    let int = |n: i128| Value::Integer(n, IntegerType::Int32);
    let part = handle(&done(p.call("BNCrypto.Slice", vec![Value::CryptoBytes(h), int(2), int(3)], span()).unwrap()));
    assert!(matches!(length(&mut p, part), Ok(Value::Integer(3, _))));
    match done(p.call("BNCrypto.Slice", vec![Value::CryptoBytes(h), int(4), int(3)], span()).unwrap()) {
        Value::Error { code, message } => {
            assert_eq!(code, 1);
            assert_eq!(message, "BNCrypto.Slice range is outside the buffer");
        },
        other => panic!("{other:?}"),
    }
    match p.call("BNCrypto.Slice", vec![Value::CryptoBytes(h), int(-1), int(3)], span()) {
        Err(e) => assert!(matches!(e.kind, ProviderErrorKind::TypeMismatch { expected: Expected::NonNegativeInteger, .. })),
        Ok(_) => panic!("negative start"),
    }
}

#[test]
fn arity_and_argument_kinds_are_checked_in_order() {
    let mut p = CryptoProvider::new();
    match p.call("BNCrypto.SHA256", vec![], span()) {
        Err(e) => assert!(matches!(e.kind, ProviderErrorKind::Arity { expected: 1, found: 0, .. })),
        Ok(_) => panic!("arity"),
    }
    match p.call("BNCrypto.SHA256", vec![Value::Boolean(true)], span()) {
        Err(e) => assert!(matches!(e.kind, ProviderErrorKind::TypeMismatch { expected: Expected::Text, .. })),
        Ok(_) => panic!("kind"),
    }
    // A signing member reads its key before it checks its arity.
    match p.call("BNCrypto.Ed25519Sign", vec![], span()) {
        Err(e) => assert!(matches!(e.kind, ProviderErrorKind::TypeMismatch { expected: Expected::CryptoBytes, .. })),
        Ok(_) => panic!("key first"),
    }
    match p.call("BNCrypto.Frobnicate", vec![], span()) {
        Err(e) => match e.kind {
            ProviderErrorKind::NameNotFound { name, kind } => {
                assert_eq!(name, "Frobnicate");
                assert_eq!(kind, "BNCrypto function");
            },
            other => panic!("{other:?}"),
        },
        Ok(_) => panic!("unknown member"),
    }
    assert!(matches!(done(p.call("BNCrypto.CONSTRUCTOR", vec![], span()).unwrap()), Value::Null));
}

#[test]
fn primitives_are_requested_with_their_operands() {
    let mut p = CryptoProvider::new();
    match p.call("BNCrypto.SHA512", vec![text("abc")], span()).unwrap() {
        CryptoStep::Compute(q) => {
            assert_eq!(q.op, CryptoOp::Sha512);
            assert_eq!(q.text, "abc");
            assert!(q.operands.is_empty());
        },
        CryptoStep::Done(v) => panic!("{v:?}"),
    }
    let key = handle(&done(p.call("FromText", vec![text("k")], span()).unwrap()));
    let data = handle(&done(p.call("FromText", vec![text("data")], span()).unwrap()));
    match p.call("BNCrypto.HmacSha256", vec![Value::CryptoBytes(key), Value::CryptoBytes(data)], span()).unwrap() {
        CryptoStep::Compute(q) => {
            assert_eq!(q.op, CryptoOp::HmacSha256);
            assert_eq!(q.operands, vec![b"k".to_vec(), b"data".to_vec()]);
        },
        CryptoStep::Done(v) => panic!("{v:?}"),
    }
    let int = |n: i128| Value::Integer(n, IntegerType::Int32);
    match p
        .call(
            "BNCrypto.Argon2id",
            vec![Value::CryptoBytes(key), Value::CryptoBytes(data), int(64), int(3), int(1)],
            span(),
        )
        .unwrap()
    {
        CryptoStep::Compute(q) => {
            assert_eq!(q.op, CryptoOp::Argon2id { memory_kib: 64, iterations: 3, parallelism: 1 })
        },
        CryptoStep::Done(v) => panic!("{v:?}"),
    }
    let four = (0..4).map(|_| Value::CryptoBytes(key)).collect();
    match p.call("BNCrypto.OpenChaCha20", four, span()).unwrap() {
        CryptoStep::Compute(q) => assert_eq!(q.op, CryptoOp::Open { aes: false }),
        CryptoStep::Done(v) => panic!("{v:?}"),
    }
}

#[test]
fn completions_store_results_or_give_error_values() {
    let mut p = CryptoProvider::new();
    let pair = p.complete(CryptoOp::MlKemKeypair, CryptoOutcome::Pair(Some((vec![1, 2], vec![3]))));
    let h = handle(&pair);
    assert!(matches!(length(&mut p, h), Ok(Value::Integer(3, _))));
    match p.complete(CryptoOp::Open { aes: true }, CryptoOutcome::Bytes(None)) {
        Value::Error { message, .. } => assert_eq!(message, "BNCrypto open failed: authentication tag did not verify"),
        other => panic!("{other:?}"),
    }
    assert!(matches!(p.complete(CryptoOp::Verify { ed25519: true }, CryptoOutcome::Flag(true)), Value::Boolean(true)));
    match p.complete(CryptoOp::ToHex, CryptoOutcome::Text("0a".into())) {
        Value::String(s) => assert_eq!(s, "0a"),
        other => panic!("{other:?}"),
    }
    let empty = p.allocate("BNCrypto.Bytes", span()).expect("ours").expect("allocated");
    assert!(matches!(length(&mut p, handle(&empty)), Ok(Value::Integer(0, _))));
    assert!(p.allocate("BNCrypto.Other", span()).is_none());
}
