//! Incremental synchronisation of a full-text index with a versioned corpus
//! of notes: planning index batches from changes, the batch semantics of the document index,
//! checkpoint encoding and the sync state machine.
pub mod change;
pub mod checkpoint;
pub mod config;
pub mod index;
pub mod laws;
pub mod sync;

pub use change::{ChangeKind, ChangeRecord, SyncError};
pub use checkpoint::{decode_checkpoint, encode_checkpoint};
pub use config::{select_heap_path, Config};
pub use index::{
    apply_batch, apply_operation, lower_operation, schema_fields, Field, FieldValue,
    IndexOperation, Note, WriterOp, RESULT_LIMIT,
};
pub use sync::{plan_batch, read_requests, SyncAction, SyncEvent, SyncOutcome, SyncState};
