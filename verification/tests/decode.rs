use oplog::{Document, Error, Operation, Timestamp, UtcDatetime, Value, ValueAccessError};

fn ts_value(time: u32, increment: u32) -> Value {
    Value::Timestamp(Timestamp { time, increment })
}

fn utc(epoch_seconds: i64) -> UtcDatetime {
    UtcDatetime { epoch_seconds, nanoseconds: 0 }
}

fn text(s: &str) -> Value {
    Value::Text(s.to_string())
}

#[test]
fn operation_converts_noops() {
    let mut o = Document::new();
    o.insert("msg", text("initiating set"));
    let mut doc = Document::new();
    doc.insert("ts", ts_value(1479419535, 0));
    doc.insert("v", Value::Int32(2));
    doc.insert("op", text("n"));
    doc.insert("ns", text(""));
    doc.insert("o", Value::Document(o));
    let operation = Operation::new(&doc).unwrap();

    assert_eq!(
        operation,
        Operation::Noop {
            timestamp: utc(1479419535),
            message: Some("initiating set".to_string()),
        }
    );
}

#[test]
fn operation_converts_inserts() {
    let mut o = Document::new();
    o.insert("foo", text("bar"));
    let mut doc = Document::new();
    doc.insert("ts", ts_value(1479561394, 0));
    doc.insert("v", Value::Int32(2));
    doc.insert("op", text("i"));
    doc.insert("ns", text("foo.bar"));
    doc.insert("o", Value::Document(o));

    let mut expected_document = Document::new();
    expected_document.insert("foo", text("bar"));
    let operation = Operation::new(&doc).unwrap();

    assert_eq!(
        operation,
        Operation::Insert {
            timestamp: utc(1479561394),
            namespace: "foo.bar".to_string(),
            document: expected_document,
        }
    );
}

#[test]
fn operation_converts_updates() {
    let mut o2 = Document::new();
    o2.insert("_id", Value::Int32(1));
    let mut set = Document::new();
    set.insert("foo", text("baz"));
    let mut o = Document::new();
    o.insert("$set", Value::Document(set));
    let mut doc = Document::new();
    doc.insert("ts", ts_value(1479561033, 0));
    doc.insert("v", Value::Int32(2));
    doc.insert("op", text("u"));
    doc.insert("ns", text("foo.bar"));
    doc.insert("o2", Value::Document(o2));
    doc.insert("o", Value::Document(o));

    let mut expected_query = Document::new();
    expected_query.insert("_id", Value::Int32(1));
    let mut expected_set = Document::new();
    expected_set.insert("foo", text("baz"));
    let mut expected_update = Document::new();
    expected_update.insert("$set", Value::Document(expected_set));
    let operation = Operation::new(&doc).unwrap();

    assert_eq!(
        operation,
        Operation::Update {
            timestamp: utc(1479561033),
            namespace: "foo.bar".to_string(),
            query: expected_query,
            update: expected_update,
        }
    );
}

#[test]
fn operation_converts_deletes() {
    let mut o = Document::new();
    o.insert("_id", Value::Int32(1));
    let mut doc = Document::new();
    doc.insert("ts", ts_value(1479421186, 0));
    doc.insert("v", Value::Int32(2));
    doc.insert("op", text("d"));
    doc.insert("ns", text("foo.bar"));
    doc.insert("o", Value::Document(o));

    let mut expected_query = Document::new();
    expected_query.insert("_id", Value::Int32(1));
    let operation = Operation::new(&doc).unwrap();

    assert_eq!(
        operation,
        Operation::Delete {
            timestamp: utc(1479421186),
            namespace: "foo.bar".to_string(),
            query: expected_query,
        }
    );
}

#[test]
fn operation_converts_commands() {
    let mut o = Document::new();
    o.insert("create", text("foo"));
    let mut doc = Document::new();
    doc.insert("ts", ts_value(1479553955, 0));
    doc.insert("v", Value::Int32(2));
    doc.insert("op", text("c"));
    doc.insert("ns", text("test.$cmd"));
    doc.insert("o", Value::Document(o));

    let mut expected_command = Document::new();
    expected_command.insert("create", text("foo"));
    let operation = Operation::new(&doc).unwrap();

    assert_eq!(
        operation,
        Operation::Command {
            timestamp: utc(1479553955),
            namespace: "test.$cmd".to_string(),
            command: expected_command,
        }
    );
}

#[test]
fn operation_returns_unknown_operations() {
    let mut doc = Document::new();
    doc.insert("op", text("x"));
    let operation = Operation::new(&doc);

    match operation {
        Err(Error::UnknownOperation(op)) => assert_eq!(op, "x"),
        _ => panic!("Expected unknown operation."),
    }
}

#[test]
fn operation_returns_missing_fields() {
    let mut doc = Document::new();
    doc.insert("foo", text("bar"));
    let operation = Operation::new(&doc);

    match operation {
        Err(Error::MissingField(err)) => assert_eq!(err, ValueAccessError::NotPresent),
        _ => panic!("Expected missing field."),
    }
}

#[test]
fn operation_returns_apply_ops() {
    let mut inner_o = Document::new();
    inner_o.insert("_id", Value::Int32(1));
    inner_o.insert("foo", text("bar"));
    let mut inner = Document::new();
    inner.insert("ts", ts_value(1479561394, 0));
    inner.insert("t", Value::Int32(2));
    inner.insert("op", text("i"));
    inner.insert("ns", text("foo.bar"));
    inner.insert("o", Value::Document(inner_o));
    let mut o = Document::new();
    o.insert("applyOps", Value::Array(vec![Value::Document(inner)]));
    let mut doc = Document::new();
    doc.insert("ts", ts_value(1483789052, 0));
    doc.insert("op", text("c"));
    doc.insert("ns", text("foo.$cmd"));
    doc.insert("o", Value::Document(o));

    let mut expected_document = Document::new();
    expected_document.insert("_id", Value::Int32(1));
    expected_document.insert("foo", text("bar"));
    let operation = Operation::new(&doc).unwrap();

    assert_eq!(
        operation,
        Operation::ApplyOps {
            timestamp: utc(1483789052),
            namespace: "foo.$cmd".to_string(),
            operations: vec![Operation::Insert {
                timestamp: utc(1479561394),
                namespace: "foo.bar".to_string(),
                document: expected_document,
            }],
        }
    );
}
