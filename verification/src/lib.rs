//! Decodes raw oplog documents from a replicated document store into typed
//! operations, and drives a pull-based stream of them over a tailable cursor.

mod document;
mod error;
mod oper;
mod stream;
mod time;

pub use document::{
    entries_view, key_index, lemma_entries_view, lemma_key_index, lemma_values_view, values_view,
    Document, DocumentView, Value, ValueAccessError, ValueView,
};
pub use error::{DecodeErrorView, Error};
pub use oper::{
    decode_result_matches, elems_result_matches, lemma_decode_apply_ops, lemma_decode_command,
    lemma_decode_delete, lemma_decode_elems_all_ok, lemma_decode_elems_invalid,
    lemma_decode_insert, lemma_decode_missing_op, lemma_decode_noop, lemma_decode_unknown,
    lemma_decode_update, lemma_operations_view, operations_view, spec_decode,
    spec_decode_command, spec_decode_delete, spec_decode_elems, spec_decode_insert,
    spec_decode_noop, spec_decode_update, spec_decode_value, spec_noop_message, Operation,
    OperationView,
};
pub use stream::{CursorEvent, Oplog, OplogBuilder};
pub use time::{spec_timestamp_to_datetime, timestamp_to_datetime, Timestamp, UtcDatetime};
