//! The operation decoder: maps one raw oplog document to one typed
//! operation, or to exactly one decode error, dispatching on the `op` code
//! and recursing into batched `applyOps` entries.

use vstd::prelude::*;

use crate::document::{
    lemma_key_index, lemma_values_view, key_index, values_view, Document, DocumentView, Value,
    ValueAccessError, ValueView,
};
use crate::error::{DecodeErrorView, Error};
use crate::time::{spec_timestamp_to_datetime, timestamp_to_datetime, UtcDatetime};

verus! {

broadcast use vstd::string::group_string_axioms;

/// An oplog operation.
#[derive(Debug, PartialEq)]
pub enum Operation {
    /// A no-op, as inserted periodically or used to initiate replica sets.
    Noop {
        /// The time of the operation.
        timestamp: UtcDatetime,
        /// The message associated with this operation.
        message: Option<String>,
    },
    /// An insert of a document into a namespace.
    Insert {
        /// The time of the operation.
        timestamp: UtcDatetime,
        /// The full namespace, database and collection.
        namespace: String,
        /// The document inserted.
        document: Document,
    },
    /// An update of a document matching a query.
    Update {
        /// The time of the operation.
        timestamp: UtcDatetime,
        /// The full namespace, database and collection.
        namespace: String,
        /// The selection criteria for the update.
        query: Document,
        /// The mutation applied in this operation.
        update: Document,
    },
    /// The deletion of a document matching a query.
    Delete {
        /// The time of the operation.
        timestamp: UtcDatetime,
        /// The full namespace, database and collection.
        namespace: String,
        /// The selection criteria for the delete.
        query: Document,
    },
    /// A command, such as the creation or deletion of a collection.
    Command {
        /// The time of the operation.
        timestamp: UtcDatetime,
        /// The full namespace, database and collection.
        namespace: String,
        /// The command document.
        command: Document,
    },
    /// A command applying several oplog operations as a unit.
    ApplyOps {
        /// The time of the operation.
        timestamp: UtcDatetime,
        /// The full namespace, database and collection.
        namespace: String,
        /// The nested operations, in order.
        operations: Vec<Operation>,
    },
}

/// The mathematical model of an [`Operation`].
pub enum OperationView {
    /// A no-op.
    Noop {
        /// The time of the operation.
        timestamp: UtcDatetime,
        /// The message, when one is present.
        message: Option<Seq<char>>,
    },
    /// An insert.
    Insert {
        /// The time of the operation.
        timestamp: UtcDatetime,
        /// The full namespace.
        namespace: Seq<char>,
        /// The document inserted.
        document: DocumentView,
    },
    /// An update.
    Update {
        /// The time of the operation.
        timestamp: UtcDatetime,
        /// The full namespace.
        namespace: Seq<char>,
        /// The selection criteria.
        query: DocumentView,
        /// The mutation applied.
        update: DocumentView,
    },
    /// A delete.
    Delete {
        /// The time of the operation.
        timestamp: UtcDatetime,
        /// The full namespace.
        namespace: Seq<char>,
        /// The selection criteria.
        query: DocumentView,
    },
    /// A command.
    Command {
        /// The time of the operation.
        timestamp: UtcDatetime,
        /// The full namespace.
        namespace: Seq<char>,
        /// The command document.
        command: DocumentView,
    },
    /// A batch of operations applied as a unit.
    ApplyOps {
        /// The time of the operation.
        timestamp: UtcDatetime,
        /// The full namespace.
        namespace: Seq<char>,
        /// The nested operations, in order.
        operations: Seq<OperationView>,
    },
}

impl View for Operation {
    type V = OperationView;

    open spec fn view(&self) -> OperationView
        decreases self,
    {
        match self {
            Operation::Noop { timestamp, message } => OperationView::Noop {
                timestamp: *timestamp,
                message: match message {
                    Some(s) => Some(s@),
                    None => None,
                },
            },
            Operation::Insert { timestamp, namespace, document } => OperationView::Insert {
                timestamp: *timestamp,
                namespace: namespace@,
                document: document@,
            },
            Operation::Update { timestamp, namespace, query, update } => OperationView::Update {
                timestamp: *timestamp,
                namespace: namespace@,
                query: query@,
                update: update@,
            },
            Operation::Delete { timestamp, namespace, query } => OperationView::Delete {
                timestamp: *timestamp,
                namespace: namespace@,
                query: query@,
            },
            Operation::Command { timestamp, namespace, command } => OperationView::Command {
                timestamp: *timestamp,
                namespace: namespace@,
                command: command@,
            },
            Operation::ApplyOps { timestamp, namespace, operations } => OperationView::ApplyOps {
                timestamp: *timestamp,
                namespace: namespace@,
                operations: operations_view(operations@),
            },
        }
    }
}

/// The models of a sequence of operations, element by element.
pub open spec fn operations_view(ops: Seq<Operation>) -> Seq<OperationView>
    decreases ops,
{
    if ops.len() == 0 {
        Seq::empty()
    } else {
        proof {
            vstd::seq::axiom_seq_subrange_decreases(ops, 1, ops.len() as int);
        }
        seq![ops[0]@] + operations_view(ops.drop_first())
    }
}

/// `operations_view` keeps the length and models each element in place.
pub broadcast proof fn lemma_operations_view(ops: Seq<Operation>)
    ensures
        (#[trigger] operations_view(ops)).len() == ops.len(),
        forall|i: int| 0 <= i < ops.len() ==> operations_view(ops)[i] == ops[i]@,
    decreases ops.len(),
{
    if ops.len() > 0 {
        lemma_operations_view(ops.drop_first());
        assert(operations_view(ops) == seq![ops[0]@] + operations_view(ops.drop_first()));
        assert(operations_view(ops).len() == ops.len());
        assert forall|i: int| 0 <= i < ops.len() implies operations_view(ops)[i] == ops[i]@ by {
            if i > 0 {
                assert(operations_view(ops)[i] == operations_view(ops.drop_first())[i - 1]);
                assert(ops.drop_first()[i - 1] == ops[i]);
            }
        }
    }
}

/// The message of a no-op: the string under `o.msg` when `o` is a document
/// holding one, else absent.
pub open spec fn spec_noop_message(d: DocumentView) -> Option<Seq<char>> {
    match d.lookup("o"@) {
        Some(ValueView::Document(o)) => match o.lookup("msg"@) {
            Some(ValueView::Text(m)) => Some(m),
            _ => None,
        },
        _ => None,
    }
}

/// What a document with `op == "n"` decodes to.
pub open spec fn spec_decode_noop(d: DocumentView) -> Result<OperationView, DecodeErrorView> {
    match d.timestamp_at("ts"@) {
        Err(e) => Err(DecodeErrorView::MissingField(e)),
        Ok(ts) => Ok(
            OperationView::Noop {
                timestamp: spec_timestamp_to_datetime(ts),
                message: spec_noop_message(d),
            },
        ),
    }
}

/// What a document with `op == "i"` decodes to.
pub open spec fn spec_decode_insert(d: DocumentView) -> Result<OperationView, DecodeErrorView> {
    match d.timestamp_at("ts"@) {
        Err(e) => Err(DecodeErrorView::MissingField(e)),
        Ok(ts) => match d.str_at("ns"@) {
            Err(e) => Err(DecodeErrorView::MissingField(e)),
            Ok(ns) => match d.document_at("o"@) {
                Err(e) => Err(DecodeErrorView::MissingField(e)),
                Ok(o) => Ok(
                    OperationView::Insert {
                        timestamp: spec_timestamp_to_datetime(ts),
                        namespace: ns,
                        document: o,
                    },
                ),
            },
        },
    }
}

/// What a document with `op == "u"` decodes to: `o` is the mutation, `o2`
/// the selection criteria.
pub open spec fn spec_decode_update(d: DocumentView) -> Result<OperationView, DecodeErrorView> {
    match d.timestamp_at("ts"@) {
        Err(e) => Err(DecodeErrorView::MissingField(e)),
        Ok(ts) => match d.str_at("ns"@) {
            Err(e) => Err(DecodeErrorView::MissingField(e)),
            Ok(ns) => match d.document_at("o"@) {
                Err(e) => Err(DecodeErrorView::MissingField(e)),
                Ok(o) => match d.document_at("o2"@) {
                    Err(e) => Err(DecodeErrorView::MissingField(e)),
                    Ok(o2) => Ok(
                        OperationView::Update {
                            timestamp: spec_timestamp_to_datetime(ts),
                            namespace: ns,
                            query: o2,
                            update: o,
                        },
                    ),
                },
            },
        },
    }
}

/// What a document with `op == "d"` decodes to.
pub open spec fn spec_decode_delete(d: DocumentView) -> Result<OperationView, DecodeErrorView> {
    match d.timestamp_at("ts"@) {
        Err(e) => Err(DecodeErrorView::MissingField(e)),
        Ok(ts) => match d.str_at("ns"@) {
            Err(e) => Err(DecodeErrorView::MissingField(e)),
            Ok(ns) => match d.document_at("o"@) {
                Err(e) => Err(DecodeErrorView::MissingField(e)),
                Ok(o) => Ok(
                    OperationView::Delete {
                        timestamp: spec_timestamp_to_datetime(ts),
                        namespace: ns,
                        query: o,
                    },
                ),
            },
        },
    }
}

/// What a document with `op == "c"` decodes to: a batch when `o` holds an
/// `applyOps` array, else a plain command carrying `o` verbatim.
pub open spec fn spec_decode_command(d: DocumentView) -> Result<OperationView, DecodeErrorView>
    decreases d, 0int,
{
    match d.timestamp_at("ts"@) {
        Err(e) => Err(DecodeErrorView::MissingField(e)),
        Ok(ts) => match d.str_at("ns"@) {
            Err(e) => Err(DecodeErrorView::MissingField(e)),
            Ok(ns) => match d.document_at("o"@) {
                Err(e) => Err(DecodeErrorView::MissingField(e)),
                Ok(o) => match o.array_at("applyOps"@) {
                    Ok(elems) => {
                        proof {
                            lemma_key_index(d.entries, "o"@);
                            lemma_key_index(o.entries, "applyOps"@);
                            let i = key_index(d.entries, "o"@);
                            let j = key_index(o.entries, "applyOps"@);
                            assert(decreases_to!(d => d.entries));
                            assert(decreases_to!(d.entries => d.entries[i]));
                            assert(decreases_to!(d.entries[i] => d.entries[i].1));
                            assert(decreases_to!(d.entries[i].1 => d.entries[i].1->Document_0));
                            assert(decreases_to!(o => o.entries));
                            assert(decreases_to!(o.entries => o.entries[j]));
                            assert(decreases_to!(o.entries[j] => o.entries[j].1));
                            assert(decreases_to!(o.entries[j].1 => o.entries[j].1->Array_0));
                        }
                        match spec_decode_elems(elems) {
                            Ok(ops) => Ok(
                                OperationView::ApplyOps {
                                    timestamp: spec_timestamp_to_datetime(ts),
                                    namespace: ns,
                                    operations: ops,
                                },
                            ),
                            Err(e) => Err(e),
                        }
                    },
                    Err(_) => Ok(
                        OperationView::Command {
                            timestamp: spec_timestamp_to_datetime(ts),
                            namespace: ns,
                            command: o,
                        },
                    ),
                },
            },
        },
    }
}

/// What one element of an `applyOps` array decodes to: a full operation when
/// it is a document, else an invalid-operation error.
pub open spec fn spec_decode_value(v: ValueView) -> Result<OperationView, DecodeErrorView>
    decreases v, 1int,
{
    match v {
        ValueView::Document(d) => {
            proof {
                assert(decreases_to!(v => v->Document_0));
            }
            spec_decode(d)
        },
        _ => Err(DecodeErrorView::InvalidOperation),
    }
}

/// What a sequence of `applyOps` elements decodes to: each element in order,
/// propagating the first failure.
pub open spec fn spec_decode_elems(elems: Seq<ValueView>) -> Result<
    Seq<OperationView>,
    DecodeErrorView,
>
    decreases elems, 2int,
{
    if elems.len() == 0 {
        Ok(Seq::empty())
    } else {
        proof {
            assert(decreases_to!(elems => elems[0]));
        }
        match spec_decode_value(elems[0]) {
            Err(e) => Err(e),
            Ok(op0) => {
                proof {
                    vstd::seq::axiom_seq_subrange_decreases(elems, 1, elems.len() as int);
                }
                match spec_decode_elems(elems.drop_first()) {
                    Err(e) => Err(e),
                    Ok(rest) => Ok(seq![op0] + rest),
                }
            },
        }
    }
}

/// What a raw document decodes to: exactly one typed operation, or exactly
/// one decode error, by the operation code under `op`.
pub open spec fn spec_decode(d: DocumentView) -> Result<OperationView, DecodeErrorView>
    decreases d, 1int,
{
    match d.str_at("op"@) {
        Err(e) => Err(DecodeErrorView::MissingField(e)),
        Ok(op) => if op == "n"@ {
            spec_decode_noop(d)
        } else if op == "i"@ {
            spec_decode_insert(d)
        } else if op == "u"@ {
            spec_decode_update(d)
        } else if op == "d"@ {
            spec_decode_delete(d)
        } else if op == "c"@ {
            spec_decode_command(d)
        } else {
            Err(DecodeErrorView::UnknownOperation(op))
        },
    }
}

/// Decoding a document whose `op` is `"n"` yields a no-op carrying the
/// converted `ts` timestamp and the message under `o.msg` when `o` is a
/// document holding a string there, else no message; without `ts` it yields
/// exactly a missing-field error.
pub proof fn lemma_decode_noop(d: DocumentView)
    requires
        d.str_at("op"@) == Ok::<Seq<char>, ValueAccessError>("n"@),
    ensures
        d.timestamp_at("ts"@) matches Ok(ts) ==> spec_decode(d) == Ok::<
            OperationView,
            DecodeErrorView,
        >(
            OperationView::Noop {
                timestamp: spec_timestamp_to_datetime(ts),
                message: spec_noop_message(d),
            },
        ),
        d.timestamp_at("ts"@) matches Err(e) ==> spec_decode(d) == Err::<
            OperationView,
            DecodeErrorView,
        >(DecodeErrorView::MissingField(e)),
{
}

/// Decoding a document whose `op` is `"i"` and which holds `ts`, `ns` and a
/// document `o` yields an insert carrying the converted timestamp, the
/// namespace, and `o` unchanged.
pub proof fn lemma_decode_insert(d: DocumentView)
    requires
        d.str_at("op"@) == Ok::<Seq<char>, ValueAccessError>("i"@),
        d.timestamp_at("ts"@) is Ok,
        d.str_at("ns"@) is Ok,
        d.document_at("o"@) is Ok,
    ensures
        spec_decode(d) == Ok::<OperationView, DecodeErrorView>(
            OperationView::Insert {
                timestamp: spec_timestamp_to_datetime(d.timestamp_at("ts"@)->Ok_0),
                namespace: d.str_at("ns"@)->Ok_0,
                document: d.document_at("o"@)->Ok_0,
            },
        ),
{
    proof_distinct_ops();
}

/// Decoding a document whose `op` is `"u"` and which holds `ts`, `ns` and
/// documents `o` and `o2` yields an update whose query is `o2` and whose
/// update is `o`, both unchanged.
pub proof fn lemma_decode_update(d: DocumentView)
    requires
        d.str_at("op"@) == Ok::<Seq<char>, ValueAccessError>("u"@),
        d.timestamp_at("ts"@) is Ok,
        d.str_at("ns"@) is Ok,
        d.document_at("o"@) is Ok,
        d.document_at("o2"@) is Ok,
    ensures
        spec_decode(d) == Ok::<OperationView, DecodeErrorView>(
            OperationView::Update {
                timestamp: spec_timestamp_to_datetime(d.timestamp_at("ts"@)->Ok_0),
                namespace: d.str_at("ns"@)->Ok_0,
                query: d.document_at("o2"@)->Ok_0,
                update: d.document_at("o"@)->Ok_0,
            },
        ),
{
    proof_distinct_ops();
}

/// Decoding a document whose `op` is `"d"` and which holds `ts`, `ns` and a
/// document `o` yields a delete whose query is `o` unchanged.
pub proof fn lemma_decode_delete(d: DocumentView)
    requires
        d.str_at("op"@) == Ok::<Seq<char>, ValueAccessError>("d"@),
        d.timestamp_at("ts"@) is Ok,
        d.str_at("ns"@) is Ok,
        d.document_at("o"@) is Ok,
    ensures
        spec_decode(d) == Ok::<OperationView, DecodeErrorView>(
            OperationView::Delete {
                timestamp: spec_timestamp_to_datetime(d.timestamp_at("ts"@)->Ok_0),
                namespace: d.str_at("ns"@)->Ok_0,
                query: d.document_at("o"@)->Ok_0,
            },
        ),
{
    proof_distinct_ops();
}

/// Decoding a document whose `op` is `"c"`, which holds `ts`, `ns` and a
/// document `o`, where `o` holds no `applyOps` array, yields a command
/// carrying `o` unchanged.
pub proof fn lemma_decode_command(d: DocumentView)
    requires
        d.str_at("op"@) == Ok::<Seq<char>, ValueAccessError>("c"@),
        d.timestamp_at("ts"@) is Ok,
        d.str_at("ns"@) is Ok,
        d.document_at("o"@) is Ok,
        d.document_at("o"@)->Ok_0.array_at("applyOps"@) is Err,
    ensures
        spec_decode(d) == Ok::<OperationView, DecodeErrorView>(
            OperationView::Command {
                timestamp: spec_timestamp_to_datetime(d.timestamp_at("ts"@)->Ok_0),
                namespace: d.str_at("ns"@)->Ok_0,
                command: d.document_at("o"@)->Ok_0,
            },
        ),
{
    proof_distinct_ops();
}

/// Decoding a sequence of `applyOps` elements that are all documents which
/// each decode on their own yields exactly as many operations, each equal to
/// decoding its element independently.
pub proof fn lemma_decode_elems_all_ok(elems: Seq<ValueView>)
    requires
        forall|k: int| 0 <= k < elems.len() ==> (#[trigger] elems[k]) is Document,
        forall|k: int| 0 <= k < elems.len() ==> spec_decode((#[trigger] elems[k])->Document_0)
            is Ok,
    ensures
        spec_decode_elems(elems) is Ok,
        spec_decode_elems(elems)->Ok_0.len() == elems.len(),
        forall|k: int|
            0 <= k < elems.len() ==> spec_decode_elems(elems)->Ok_0[k] == spec_decode(
                (#[trigger] elems[k])->Document_0,
            )->Ok_0,
    decreases elems.len(),
{
    if elems.len() > 0 {
        let rest = elems.drop_first();
        assert forall|k: int| 0 <= k < rest.len() implies (#[trigger] rest[k]) is Document
            && spec_decode(rest[k]->Document_0) is Ok by {
            assert(rest[k] == elems[k + 1]);
        }
        lemma_decode_elems_all_ok(rest);
        assert(elems[0] is Document);
        assert(spec_decode_value(elems[0]) == spec_decode(elems[0]->Document_0));
        assert(spec_decode_value(elems[0]) is Ok);
        assert(spec_decode_elems(rest) is Ok);
        assert(spec_decode_elems(elems) == Ok::<Seq<OperationView>, DecodeErrorView>(
            seq![spec_decode(elems[0]->Document_0)->Ok_0] + spec_decode_elems(rest)->Ok_0,
        ));
        assert forall|k: int|
            0 <= k < elems.len() implies spec_decode_elems(elems)->Ok_0[k] == spec_decode(
            (#[trigger] elems[k])->Document_0,
        )->Ok_0 by {
            if k > 0 {
                assert(spec_decode_elems(elems)->Ok_0[k] == spec_decode_elems(rest)->Ok_0[k - 1]);
                assert(rest[k - 1] == elems[k]);
            }
        }
    }
}

/// Decoding a document whose `op` is `"c"`, which holds `ts`, `ns` and a
/// document `o`, where `o` holds an `applyOps` array whose elements all
/// decode, yields a batch of exactly those operations, in array order.
pub proof fn lemma_decode_apply_ops(d: DocumentView)
    requires
        d.str_at("op"@) == Ok::<Seq<char>, ValueAccessError>("c"@),
        d.timestamp_at("ts"@) is Ok,
        d.str_at("ns"@) is Ok,
        d.document_at("o"@) is Ok,
        d.document_at("o"@)->Ok_0.array_at("applyOps"@) is Ok,
        spec_decode_elems(d.document_at("o"@)->Ok_0.array_at("applyOps"@)->Ok_0) is Ok,
    ensures
        spec_decode(d) == Ok::<OperationView, DecodeErrorView>(
            OperationView::ApplyOps {
                timestamp: spec_timestamp_to_datetime(d.timestamp_at("ts"@)->Ok_0),
                namespace: d.str_at("ns"@)->Ok_0,
                operations: spec_decode_elems(
                    d.document_at("o"@)->Ok_0.array_at("applyOps"@)->Ok_0,
                )->Ok_0,
            },
        ),
{
    proof_distinct_ops();
}

/// Decoding a sequence of `applyOps` elements whose first failure is an
/// element that is not a document yields exactly an invalid-operation error.
pub proof fn lemma_decode_elems_invalid(elems: Seq<ValueView>, k: int)
    requires
        0 <= k < elems.len(),
        !((elems[k]) is Document),
        forall|j: int|
            0 <= j < k ==> (#[trigger] elems[j]) is Document && spec_decode(elems[j]->Document_0)
                is Ok,
    ensures
        spec_decode_elems(elems) == Err::<Seq<OperationView>, DecodeErrorView>(
            DecodeErrorView::InvalidOperation,
        ),
    decreases k,
{
    if k > 0 {
        let rest = elems.drop_first();
        assert forall|j: int|
            0 <= j < k - 1 implies (#[trigger] rest[j]) is Document && spec_decode(
            rest[j]->Document_0,
        ) is Ok by {
            assert(rest[j] == elems[j + 1]);
        }
        assert(rest[k - 1] == elems[k]);
        lemma_decode_elems_invalid(rest, k - 1);
        assert(elems[0] is Document && spec_decode(elems[0]->Document_0) is Ok);
        assert(spec_decode_value(elems[0]) == spec_decode(elems[0]->Document_0));
    } else {
        assert(!(elems[0] is Document));
        assert(spec_decode_value(elems[0]) == Err::<OperationView, DecodeErrorView>(
            DecodeErrorView::InvalidOperation,
        ));
    }
}

/// Decoding a document without a string `op` field yields exactly a
/// missing-field error naming the failed access.
pub proof fn lemma_decode_missing_op(d: DocumentView)
    requires
        d.str_at("op"@) is Err,
    ensures
        spec_decode(d) == Err::<OperationView, DecodeErrorView>(
            DecodeErrorView::MissingField(d.str_at("op"@)->Err_0),
        ),
{
}

/// Decoding a document whose `op` holds a string that is none of the five
/// known codes yields exactly an unknown-operation error carrying that
/// string verbatim.
pub proof fn lemma_decode_unknown(d: DocumentView)
    requires
        d.str_at("op"@) is Ok,
        d.str_at("op"@)->Ok_0 != "n"@,
        d.str_at("op"@)->Ok_0 != "i"@,
        d.str_at("op"@)->Ok_0 != "u"@,
        d.str_at("op"@)->Ok_0 != "d"@,
        d.str_at("op"@)->Ok_0 != "c"@,
    ensures
        spec_decode(d) == Err::<OperationView, DecodeErrorView>(
            DecodeErrorView::UnknownOperation(d.str_at("op"@)->Ok_0),
        ),
{
}

/// The five operation codes are pairwise distinct character sequences.
proof fn proof_distinct_ops()
    ensures
        "n"@ != "i"@ && "n"@ != "u"@ && "n"@ != "d"@ && "n"@ != "c"@,
        "i"@ != "u"@ && "i"@ != "d"@ && "i"@ != "c"@,
        "u"@ != "d"@ && "u"@ != "c"@,
        "d"@ != "c"@,
{
    reveal_strlit("n");
    reveal_strlit("i");
    reveal_strlit("u");
    reveal_strlit("d");
    reveal_strlit("c");
    assert("n"@[0] == 'n' && "i"@[0] == 'i' && "u"@[0] == 'u' && "d"@[0] == 'd' && "c"@[0]
        == 'c');
}

/// Whether an executable decode result carries exactly the given modelled
/// result.
pub open spec fn decode_result_matches(
    r: Result<Operation, Error>,
    s: Result<OperationView, DecodeErrorView>,
) -> bool {
    match (r, s) {
        (Ok(op), Ok(v)) => op@ == v,
        (Err(e), Err(ev)) => e.is_decode(ev),
        _ => false,
    }
}

/// Whether an executable element-sequence decode result carries exactly the
/// given modelled result.
pub open spec fn elems_result_matches(
    r: Result<Vec<Operation>, Error>,
    s: Result<Seq<OperationView>, DecodeErrorView>,
) -> bool {
    match (r, s) {
        (Ok(v), Ok(ops)) => operations_view(v@) == ops,
        (Err(e), Err(ev)) => e.is_decode(ev),
        _ => false,
    }
}

impl Operation {
    /// Decode a raw oplog document into a typed operation, or report exactly
    /// why it cannot be one.
    pub fn new(document: &Document) -> (r: Result<Operation, Error>)
        ensures
            decode_result_matches(r, spec_decode(document@)),
        decreases document, 1int,
    {
        let op = match document.get_str("op") {
            Ok(s) => s,
            Err(e) => {
                return Err(Error::MissingField(e));
            },
        };
        if crate::document::str_eq(op, "n") {
            Self::from_noop(document)
        } else if crate::document::str_eq(op, "i") {
            Self::from_insert(document)
        } else if crate::document::str_eq(op, "u") {
            Self::from_update(document)
        } else if crate::document::str_eq(op, "d") {
            Self::from_delete(document)
        } else if crate::document::str_eq(op, "c") {
            Self::from_command(document)
        } else {
            Err(Error::UnknownOperation(op.to_string()))
        }
    }

    /// Decode one element of an `applyOps` array, which must itself be a
    /// document holding a full operation.
    fn from_bson(bson: &Value) -> (r: Result<Operation, Error>)
        ensures
            decode_result_matches(r, spec_decode_value(bson@)),
        decreases bson, 2int,
    {
        match bson {
            Value::Document(d) => {
                proof {
                    assert(decreases_to!(*bson => bson->Document_0));
                }
                Operation::new(d)
            },
            _ => Err(Error::InvalidOperation),
        }
    }

    /// Decode a no-op operation from a document.
    fn from_noop(document: &Document) -> (r: Result<Operation, Error>)
        ensures
            decode_result_matches(r, spec_decode_noop(document@)),
    {
        let ts = match document.get_timestamp("ts") {
            Ok(t) => t,
            Err(e) => {
                return Err(Error::MissingField(e));
            },
        };
        let message: Option<String> = match document.get("o") {
            Some(v) => match v {
                Value::Document(o) => match o.get("msg") {
                    Some(mv) => match mv {
                        Value::Text(s) => Some(s.clone()),
                        _ => None,
                    },
                    None => None,
                },
                _ => None,
            },
            None => None,
        };
        Ok(Operation::Noop { timestamp: timestamp_to_datetime(ts), message })
    }

    /// Decode an insert operation from a document.
    fn from_insert(document: &Document) -> (r: Result<Operation, Error>)
        ensures
            decode_result_matches(r, spec_decode_insert(document@)),
    {
        let ts = match document.get_timestamp("ts") {
            Ok(t) => t,
            Err(e) => {
                return Err(Error::MissingField(e));
            },
        };
        let ns = match document.get_str("ns") {
            Ok(s) => s,
            Err(e) => {
                return Err(Error::MissingField(e));
            },
        };
        let o = match document.get_document("o") {
            Ok(d) => d,
            Err(e) => {
                return Err(Error::MissingField(e));
            },
        };
        Ok(
            Operation::Insert {
                timestamp: timestamp_to_datetime(ts),
                namespace: ns.to_string(),
                document: o.clone(),
            },
        )
    }

    /// Decode an update operation from a document: `o` is the mutation, `o2`
    /// the selection criteria.
    fn from_update(document: &Document) -> (r: Result<Operation, Error>)
        ensures
            decode_result_matches(r, spec_decode_update(document@)),
    {
        let ts = match document.get_timestamp("ts") {
            Ok(t) => t,
            Err(e) => {
                return Err(Error::MissingField(e));
            },
        };
        let ns = match document.get_str("ns") {
            Ok(s) => s,
            Err(e) => {
                return Err(Error::MissingField(e));
            },
        };
        let o = match document.get_document("o") {
            Ok(d) => d,
            Err(e) => {
                return Err(Error::MissingField(e));
            },
        };
        let o2 = match document.get_document("o2") {
            Ok(d) => d,
            Err(e) => {
                return Err(Error::MissingField(e));
            },
        };
        Ok(
            Operation::Update {
                timestamp: timestamp_to_datetime(ts),
                namespace: ns.to_string(),
                query: o2.clone(),
                update: o.clone(),
            },
        )
    }

    /// Decode a delete operation from a document.
    fn from_delete(document: &Document) -> (r: Result<Operation, Error>)
        ensures
            decode_result_matches(r, spec_decode_delete(document@)),
    {
        let ts = match document.get_timestamp("ts") {
            Ok(t) => t,
            Err(e) => {
                return Err(Error::MissingField(e));
            },
        };
        let ns = match document.get_str("ns") {
            Ok(s) => s,
            Err(e) => {
                return Err(Error::MissingField(e));
            },
        };
        let o = match document.get_document("o") {
            Ok(d) => d,
            Err(e) => {
                return Err(Error::MissingField(e));
            },
        };
        Ok(
            Operation::Delete {
                timestamp: timestamp_to_datetime(ts),
                namespace: ns.to_string(),
                query: o.clone(),
            },
        )
    }

    /// Decode a command operation from a document: a batch when `o` holds an
    /// `applyOps` array, else a plain command.
    #[verifier::rlimit(30)]
    fn from_command(document: &Document) -> (r: Result<Operation, Error>)
        ensures
            decode_result_matches(r, spec_decode_command(document@)),
        decreases document, 0int,
    {
        let ts = match document.get_timestamp("ts") {
            Ok(t) => t,
            Err(e) => {
                return Err(Error::MissingField(e));
            },
        };
        let ns = match document.get_str("ns") {
            Ok(s) => s,
            Err(e) => {
                return Err(Error::MissingField(e));
            },
        };
        let o = match document.get_document("o") {
            Ok(d) => d,
            Err(e) => {
                return Err(Error::MissingField(e));
            },
        };
        match o.get_array("applyOps") {
            Ok(ops) => {
                proof {
                    assert(decreases_to!(*document => *ops));
                }
                match Self::decode_from(ops, 0) {
                    Ok(operations) => {
                        proof {
                            assert(values_view(ops@).skip(0) =~= values_view(ops@));
                        }
                        Ok(
                            Operation::ApplyOps {
                                timestamp: timestamp_to_datetime(ts),
                                namespace: ns.to_string(),
                                operations,
                            },
                        )
                    },
                    Err(e) => Err(e),
                }
            },
            Err(_) => Ok(
                Operation::Command {
                    timestamp: timestamp_to_datetime(ts),
                    namespace: ns.to_string(),
                    command: o.clone(),
                },
            ),
        }
    }

    /// Decode the elements of an `applyOps` array from position `i` on, in
    /// order, propagating the first failure.
    fn decode_from(ops: &Vec<Value>, i: usize) -> (r: Result<Vec<Operation>, Error>)
        requires
            i <= ops.len(),
        ensures
            elems_result_matches(r, spec_decode_elems(values_view(ops@).skip(i as int))),
        decreases ops, ops@.len() - i,
    {
        let n = ops.len();
        if i == n {
            let empty: Vec<Operation> = Vec::new();
            proof {
                lemma_values_view(ops@);
                assert(values_view(ops@).skip(i as int) =~= Seq::<ValueView>::empty());
                assert(operations_view(empty@) =~= Seq::<OperationView>::empty());
            }
            Ok(empty)
        } else {
            let elem = &ops[i];
            proof {
                lemma_values_view(ops@);
                assert(decreases_to!(*ops => ops@[i as int]));
                assert(values_view(ops@).skip(i as int)[0] == elem@);
            }
            let first = match Operation::from_bson(elem) {
                Ok(op0) => op0,
                Err(e) => {
                    return Err(e);
                },
            };
            match Self::decode_from(ops, i + 1) {
                Ok(mut rest) => {
                    let ghost rest0 = rest@;
                    rest.insert(0, first);
                    proof {
                        lemma_operations_view(rest@);
                        lemma_operations_view(rest0);
                        assert(rest@ =~= seq![first] + rest0);
                        assert(operations_view(rest@) =~= seq![first@] + operations_view(rest0));
                        assert(values_view(ops@).skip(i as int).drop_first() =~= values_view(
                            ops@,
                        ).skip(i as int + 1));
                    }
                    Ok(rest)
                },
                Err(e) => {
                    proof {
                        assert(values_view(ops@).skip(i as int).drop_first() =~= values_view(
                            ops@,
                        ).skip(i as int + 1));
                    }
                    Err(e)
                },
            }
        }
    }
}

} // verus!
