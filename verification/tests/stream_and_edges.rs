use oplog::{
    timestamp_to_datetime, CursorEvent, Document, Error, Operation, Oplog, Timestamp,
    UtcDatetime, Value, ValueAccessError,
};

fn ts_value(time: u32, increment: u32) -> Value {
    Value::Timestamp(Timestamp { time, increment })
}

fn text(s: &str) -> Value {
    Value::Text(s.to_string())
}

fn insert_doc(seconds: u32, namespace: &str, key: &str, val: &str) -> Document {
    let mut o = Document::new();
    o.insert(key, text(val));
    let mut doc = Document::new();
    doc.insert("ts", ts_value(seconds, 0));
    doc.insert("op", text("i"));
    doc.insert("ns", text(namespace));
    doc.insert("o", Value::Document(o));
    doc
}

#[test]
fn timestamp_conversion_maps_seconds_and_zero_ordinal() {
    let converted = timestamp_to_datetime(Timestamp { time: 1479561394, increment: 0 });
    assert_eq!(converted, UtcDatetime { epoch_seconds: 1479561394, nanoseconds: 0 });
}

#[test]
fn timestamp_conversion_places_ordinal_in_nanoseconds() {
    let converted = timestamp_to_datetime(Timestamp { time: 1479561394, increment: 7 });
    assert_eq!(converted, UtcDatetime { epoch_seconds: 1479561394, nanoseconds: 7 });
}

#[test]
fn noop_without_message_document_has_no_message() {
    let mut doc = Document::new();
    doc.insert("ts", ts_value(1479419535, 0));
    doc.insert("op", text("n"));
    let operation = Operation::new(&doc).unwrap();
    assert_eq!(
        operation,
        Operation::Noop { timestamp: timestamp_to_datetime(Timestamp { time: 1479419535, increment: 0 }), message: None }
    );
}

#[test]
fn noop_with_non_string_message_has_no_message() {
    let mut o = Document::new();
    o.insert("msg", Value::Int32(3));
    let mut doc = Document::new();
    doc.insert("ts", ts_value(1479419535, 0));
    doc.insert("op", text("n"));
    doc.insert("o", Value::Document(o));
    let operation = Operation::new(&doc).unwrap();
    match operation {
        Operation::Noop { message, .. } => assert_eq!(message, None),
        _ => panic!("Expected a no-op."),
    }
}

#[test]
fn insert_with_wrongly_typed_payload_is_a_missing_field() {
    let mut doc = Document::new();
    doc.insert("ts", ts_value(1479561394, 0));
    doc.insert("op", text("i"));
    doc.insert("ns", text("foo.bar"));
    doc.insert("o", text("not a document"));
    match Operation::new(&doc) {
        Err(Error::MissingField(err)) => assert_eq!(err, ValueAccessError::UnexpectedType),
        _ => panic!("Expected missing field."),
    }
}

#[test]
fn update_without_query_is_a_missing_field() {
    let mut o = Document::new();
    o.insert("foo", text("baz"));
    let mut doc = Document::new();
    doc.insert("ts", ts_value(1479561033, 0));
    doc.insert("op", text("u"));
    doc.insert("ns", text("foo.bar"));
    doc.insert("o", Value::Document(o));
    match Operation::new(&doc) {
        Err(Error::MissingField(err)) => assert_eq!(err, ValueAccessError::NotPresent),
        _ => panic!("Expected missing field."),
    }
}

#[test]
fn command_with_non_array_apply_ops_is_a_plain_command() {
    let mut o = Document::new();
    o.insert("applyOps", text("not an array"));
    let mut doc = Document::new();
    doc.insert("ts", ts_value(1479553955, 0));
    doc.insert("op", text("c"));
    doc.insert("ns", text("test.$cmd"));
    doc.insert("o", Value::Document(o));
    let mut expected = Document::new();
    expected.insert("applyOps", text("not an array"));
    assert_eq!(
        Operation::new(&doc).unwrap(),
        Operation::Command {
            timestamp: timestamp_to_datetime(Timestamp { time: 1479553955, increment: 0 }),
            namespace: "test.$cmd".to_string(),
            command: expected,
        }
    );
}

#[test]
fn apply_ops_with_non_document_element_is_invalid() {
    let mut o = Document::new();
    o.insert("applyOps", Value::Array(vec![Value::Int32(5)]));
    let mut doc = Document::new();
    doc.insert("ts", ts_value(1483789052, 0));
    doc.insert("op", text("c"));
    doc.insert("ns", text("foo.$cmd"));
    doc.insert("o", Value::Document(o));
    match Operation::new(&doc) {
        Err(Error::InvalidOperation) => {}
        _ => panic!("Expected invalid operation."),
    }
}

#[test]
fn apply_ops_recurse_into_nested_commands() {
    let inner = insert_doc(1479561394, "foo.bar", "foo", "bar");
    let mut middle_o = Document::new();
    middle_o.insert("applyOps", Value::Array(vec![Value::Document(inner)]));
    let mut middle = Document::new();
    middle.insert("ts", ts_value(1483789052, 0));
    middle.insert("op", text("c"));
    middle.insert("ns", text("foo.$cmd"));
    middle.insert("o", Value::Document(middle_o));
    let mut outer_o = Document::new();
    outer_o.insert("applyOps", Value::Array(vec![Value::Document(middle)]));
    let mut outer = Document::new();
    outer.insert("ts", ts_value(1483789053, 0));
    outer.insert("op", text("c"));
    outer.insert("ns", text("foo.$cmd"));
    outer.insert("o", Value::Document(outer_o));

    let operation = Operation::new(&outer).unwrap();
    match operation {
        Operation::ApplyOps { operations, .. } => {
            assert_eq!(operations.len(), 1);
            match &operations[0] {
                Operation::ApplyOps { operations: nested, .. } => {
                    assert_eq!(nested.len(), 1);
                    match &nested[0] {
                        Operation::Insert { namespace, .. } => {
                            assert_eq!(namespace, "foo.bar")
                        }
                        _ => panic!("Expected a nested insert."),
                    }
                }
                _ => panic!("Expected a nested batch."),
            }
        }
        _ => panic!("Expected a batch."),
    }
}

#[test]
fn unknown_operation_code_is_kept_verbatim() {
    let mut doc = Document::new();
    doc.insert("op", text("zz"));
    match Operation::new(&doc) {
        Err(Error::UnknownOperation(code)) => assert_eq!(code, "zz"),
        _ => panic!("Expected unknown operation."),
    }
}

#[test]
fn document_insert_replaces_an_existing_key() {
    let mut doc = Document::new();
    doc.insert("a", Value::Int32(1));
    doc.insert("a", Value::Int32(2));
    assert_eq!(doc.get("a"), Some(&Value::Int32(2)));
    assert_eq!(doc.get("b"), None);
}

#[test]
fn stream_yields_items_in_cursor_order_and_survives_transport_errors() {
    let mut stream = Oplog::new();
    let doc1 = insert_doc(1479561394, "foo.bar", "foo", "bar");
    let doc2 = insert_doc(1479561395, "foo.baz", "foo", "baz");

    let first = stream.pull(CursorEvent::Delivered(doc1));
    match first {
        Some(Ok(Operation::Insert { namespace, .. })) => assert_eq!(namespace, "foo.bar"),
        _ => panic!("Expected the first insert."),
    }

    let failure = mongodb::error::Error::custom("connection reset".to_string());
    let second = stream.pull(CursorEvent::Failed(failure));
    match second {
        Some(Err(Error::Database(_))) => {}
        _ => panic!("Expected a transport error item."),
    }
    assert!(stream.is_open());

    let third = stream.pull(CursorEvent::Delivered(doc2));
    match third {
        Some(Ok(Operation::Insert { namespace, .. })) => assert_eq!(namespace, "foo.baz"),
        _ => panic!("Expected the second insert."),
    }
}

#[test]
fn stream_closes_for_good_on_exhaustion() {
    let mut stream = Oplog::new();
    assert!(stream.is_open());
    assert!(stream.pull(CursorEvent::Exhausted).is_none());
    assert!(!stream.is_open());

    let late = insert_doc(1479561394, "foo.bar", "foo", "bar");
    assert!(stream.pull(CursorEvent::Delivered(late)).is_none());
    assert!(!stream.is_open());
}

#[test]
fn stream_surfaces_decode_errors_and_stays_open() {
    let mut stream = Oplog::new();
    let mut bad = Document::new();
    bad.insert("op", text("x"));
    match stream.pull(CursorEvent::Delivered(bad)) {
        Some(Err(Error::UnknownOperation(code))) => assert_eq!(code, "x"),
        _ => panic!("Expected an unknown-operation item."),
    }
    assert!(stream.is_open());
}

#[test]
fn builder_keeps_filter_and_batch_size() {
    let mut filter = Document::new();
    filter.insert("op", text("i"));
    let builder = Oplog::builder().filter(filter).batch_size(100);
    assert_eq!(builder.batch_size_hint(), Some(100));
    match builder.filter_document() {
        Some(doc) => assert_eq!(doc.get("op"), Some(&Value::Text("i".to_string()))),
        None => panic!("Expected the filter to be kept."),
    }

    let plain = Oplog::builder();
    assert_eq!(plain.batch_size_hint(), None);
    assert!(plain.filter_document().is_none());
}
